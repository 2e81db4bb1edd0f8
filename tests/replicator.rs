use rustcraft::notice::notice_for;
use rustcraft::replicator::{CopyRun, Entry, Outcome, Place, Step, REPEATED_NAME};
use rustcraft::stamp::{folder_name, Stamp};
use std::collections::BTreeMap;

fn show(p: &Place) -> String {
    let mut s = p.base.clone();
    for part in &p.parts {
        s.push('/');
        s.push_str(part);
    }
    s
}

/// A source tree in memory: path below the root to file contents, or to
/// `None` for a directory.
fn sample_tree() -> BTreeMap<String, Option<String>> {
    let mut t = BTreeMap::new();
    t.insert("a.txt".to_string(), Some("hi".to_string()));
    t.insert("sub".to_string(), None);
    t.insert("sub/b.txt".to_string(), Some("bye".to_string()));
    t
}

/// A start time and the folder name that it gives.
fn st() -> Stamp {
    Stamp { year: 2024, month: 1, day: 2, hour: 3, minute: 4, second: 5 }
}

const F: &str = "02.01.2024 03.04.05";

fn rel_of(p: &Place) -> String {
    p.parts.join("/")
}

/// Drives a run against the tree; `fail_on` makes the operation on that
/// destination fail. Returns the destination contents and the operations.
fn drive(
    run: &mut CopyRun,
    tree: &BTreeMap<String, Option<String>>,
    fail_on: Option<&str>,
) -> (BTreeMap<String, Option<String>>, Vec<String>) {
    let mut dest: BTreeMap<String, Option<String>> = BTreeMap::new();
    let mut ops: Vec<String> = Vec::new();
    for _ in 0..100 {
        let step = run.step();
        let outcome = match &step {
            Step::CreateDir(p) => {
                ops.push(format!("mkdir {}", show(p)));
                if fail_on == Some(show(p).as_str()) {
                    Outcome::Error("permission denied".to_string())
                } else {
                    dest.insert(show(p), None);
                    Outcome::Done
                }
            }
            Step::ReadDir(p) => {
                ops.push(format!("list {}", show(p)));
                let here = rel_of(p);
                let mut entries = Vec::new();
                for (k, v) in tree {
                    let parent = match k.rfind('/') {
                        Some(i) => k[..i].to_string(),
                        None => String::new(),
                    };
                    if parent == here {
                        let name = k.rsplit('/').next().unwrap().to_string();
                        entries.push(Entry { name, is_dir: v.is_none() });
                    }
                }
                Outcome::Listed(entries)
            }
            Step::CopyFile(from, to) => {
                ops.push(format!("copy {} {}", show(from), show(to)));
                if fail_on == Some(show(to).as_str()) {
                    Outcome::Error("disk full".to_string())
                } else {
                    dest.insert(show(to), tree[&rel_of(from)].clone());
                    Outcome::Done
                }
            }
            Step::Finished | Step::Failed => break,
        };
        run.advance(outcome);
    }
    (dest, ops)
}

#[test]
fn one_shot_copy_of_small_tree() {
    let mut run = CopyRun::new(
        "/src".to_string(),
        "/dst".to_string(),
        Stamp { year: 2024, month: 2, day: 1, hour: 3, minute: 4, second: 5 },
    );
    let (dest, ops) = drive(&mut run, &sample_tree(), None);
    assert!(run.is_finished());
    assert!(matches!(run.step(), Step::Finished));
    let folder = "/dst/01.02.2024 03.04.05";
    let mut expected = BTreeMap::new();
    expected.insert(folder.to_string(), None);
    expected.insert(format!("{}/a.txt", folder), Some("hi".to_string()));
    expected.insert(format!("{}/sub", folder), None);
    expected.insert(format!("{}/sub/b.txt", folder), Some("bye".to_string()));
    assert_eq!(dest, expected);
    assert_eq!(ops[0], format!("mkdir {}", folder));
    assert_eq!(ops[1], "list /src");
    assert_eq!(ops.len(), 6);
    assert_eq!(show(&run.destination_folder()), folder);
    let n = notice_for(true, None).unwrap();
    assert_eq!(n.summary, "Backup Completed");
}

#[test]
fn empty_directories_are_replicated() {
    let mut tree = BTreeMap::new();
    tree.insert("empty".to_string(), None);
    tree.insert("deep".to_string(), None);
    tree.insert("deep/er".to_string(), None);
    let mut run = CopyRun::new("s".to_string(), "d".to_string(), st());
    let (dest, _) = drive(&mut run, &tree, None);
    assert!(run.is_finished());
    let keys: Vec<String> = dest.keys().cloned().collect();
    assert_eq!(keys, vec![
            format!("d/{}", F),
            format!("d/{}/deep", F),
            format!("d/{}/deep/er", F),
            format!("d/{}/empty", F),
        ]);
}

#[test]
fn unwritable_destination_creates_nothing() {
    let mut run = CopyRun::new("/src".to_string(), "/ro".to_string(), st());
    let (dest, ops) = drive(&mut run, &sample_tree(), Some(format!("/ro/{}", F).as_str()));
    assert!(dest.is_empty());
    assert_eq!(ops, vec![format!("mkdir /ro/{}", F)]);
    assert!(matches!(run.step(), Step::Failed));
    let fault = run.fault().unwrap();
    assert_eq!(fault.cause, "permission denied");
    match &fault.step {
        Step::CreateDir(p) => assert_eq!(show(p), format!("/ro/{}", F)),
        _ => panic!("wrong failed step"),
    }
    let n = notice_for(false, Some("Backup failed: permission denied")).unwrap();
    assert_eq!(n.summary, "Backup Error");
    assert!(!n.body.is_empty());
}

#[test]
fn first_error_aborts_the_rest() {
    let mut run = CopyRun::new("/src".to_string(), "/dst".to_string(), st());
    let (dest, ops) = drive(&mut run, &sample_tree(), Some(format!("/dst/{}/a.txt", F).as_str()));
    assert_eq!(ops.last().unwrap(), &format!("copy /src/a.txt /dst/{}/a.txt", F));
    assert_eq!(dest.len(), 1);
    assert!(!run.is_finished());
    run.advance(Outcome::Done);
    assert!(matches!(run.step(), Step::Failed));
    match &run.fault().unwrap().step {
        Step::CopyFile(from, to) => {
            assert_eq!(show(from), "/src/a.txt");
            assert_eq!(show(to), format!("/dst/{}/a.txt", F));
        }
        _ => panic!("wrong failed step"),
    }
}

#[test]
fn unanswered_step_changes_nothing() {
    let mut run = CopyRun::new("s".to_string(), "d".to_string(), st());
    run.advance(Outcome::Listed(Vec::new()));
    match run.step() {
        Step::CreateDir(p) => assert_eq!(show(&p), format!("d/{}", F)),
        _ => panic!("expected the folder to be created first"),
    }
}

#[test]
fn begin_names_folder_after_now() {
    let run = CopyRun::begin("s".to_string(), "d".to_string());
    let folder = run.destination_folder();
    assert_eq!(folder.base, "d");
    assert_eq!(folder.parts.len(), 1);
    let name = &folder.parts[0];
    assert_eq!(name, &folder_name(&run.started()));
    assert_eq!(name.len(), 19);
    assert_eq!(&name[2..3], ".");
    assert_eq!(&name[10..11], " ");
}

#[test]
fn listing_with_repeated_name_fails() {
    let mut run = CopyRun::new("s".to_string(), "d".to_string(), st());
    run.advance(Outcome::Done);
    assert!(matches!(run.step(), Step::ReadDir(_)));
    run.advance(Outcome::Listed(vec![
        Entry { name: "x".to_string(), is_dir: false },
        Entry { name: "x".to_string(), is_dir: true },
    ]));
    assert!(matches!(run.step(), Step::Failed));
    assert_eq!(run.fault().unwrap().cause, REPEATED_NAME);
}
