//! One timestamped recursive copy, driven step by step.
//!
//! A `CopyRun` never touches the file system itself: it names the next
//! action (create a directory, read a directory, copy a file), and the caller
//! performs it and reports the outcome back. The run keeps a ghost record of
//! the source tree as the listings revealed it and of what has been done, so
//! that the replication can be stated and proved.
use crate::stamp::{folder_name, local_now, stamp_text, valid_stamp, Stamp};
use vstd::prelude::*;

verus! {

/// A path relative to a root, as its sequence of component names.
pub type RelPath = Seq<Seq<char>>;

pub open spec fn parts_view(v: Seq<String>) -> RelPath {
    v.map_values(|s: String| s@)
}

/// A location: a root path followed by components below it.
pub struct Place {
    pub base: String,
    pub parts: Vec<String>,
}

pub struct PlaceView {
    pub base: Seq<char>,
    pub parts: RelPath,
}

impl View for Place {
    type V = PlaceView;

    open spec fn view(&self) -> PlaceView {
        PlaceView { base: self.base@, parts: parts_view(self.parts@) }
    }
}

/// Copies a list of components.
fn copy_parts(v: &Vec<String>) -> (r: Vec<String>)
    ensures
        parts_view(r@) == parts_view(v@),
{
    let mut r: Vec<String> = Vec::new();
    let mut i: usize = 0;
    while i < v.len()
        invariant
            i <= v.len(),
            r@.len() == i,
            forall|j: int| 0 <= j < i ==> r@[j]@ == v@[j]@,
        decreases v.len() - i,
    {
        r.push(v[i].clone());
        i = i + 1;
    }
    assert(parts_view(r@) =~= parts_view(v@));
    r
}


/// Copies a list of components and appends one more.
fn child_parts(v: &Vec<String>, name: &String) -> (r: Vec<String>)
    ensures
        parts_view(r@) == parts_view(v@).push(name@),
{
    let mut r = copy_parts(v);
    let ghost before = r@;
    r.push(name.clone());
    assert(parts_view(r@) =~= parts_view(before).push(name@));
    r
}

/// The place of `rel` under `base`, with `first` as an extra leading component if given.
pub open spec fn place_of(base: Seq<char>, first: Option<Seq<char>>, rel: RelPath) -> PlaceView {
    match first {
        Some(f) => PlaceView { base, parts: seq![f] + rel },
        None => PlaceView { base, parts: rel },
    }
}

fn make_place(base: &String, first: Option<&String>, rel: &Vec<String>) -> (r: Place)
    ensures
        r@ == place_of(
            base@,
            match first {
                Some(f) => Some(f@),
                None => None,
            },
            parts_view(rel@),
        ),
{
    let mut parts: Vec<String> = Vec::new();
    match first {
        Some(f) => {
            parts.push(f.clone());
        },
        None => {},
    }
    let start: usize = parts.len();
    let mut i: usize = 0;
    while i < rel.len()
        invariant
            start <= 1,
            i <= rel.len(),
            parts@.len() == start + i,
            first.is_some() ==> start == 1 && parts@[0]@ == first.unwrap()@,
            first.is_none() ==> start == 0,
            forall|j: int| 0 <= j < i ==> parts@[start + j]@ == rel@[j]@,
        decreases rel.len() - i,
    {
        parts.push(rel[i].clone());
        i = i + 1;
    }
    let r = Place { base: base.clone(), parts };
    match first {
        Some(f) => {
            assert(r@.parts =~= seq![f@] + parts_view(rel@));
        },
        None => {
            assert(r@.parts =~= parts_view(rel@));
        },
    }
    r
}

/// The work queued for one listed entry of the directory `p`.
pub open spec fn entry_tasks(p: RelPath, e: (Seq<char>, bool)) -> Seq<TaskView> {
    let c = p.push(e.0);
    if e.1 {
        seq![TaskView::List(c), TaskView::Make(c)]
    } else {
        seq![TaskView::Copy(c)]
    }
}

/// The work queued for a listing of `p`, so that the first entry's work is on top.
pub open spec fn listing_tasks(p: RelPath, es: Seq<(Seq<char>, bool)>) -> Seq<TaskView>
    decreases es.len(),
{
    if es.len() == 0 {
        Seq::empty()
    } else {
        listing_tasks(p, es.drop_first()) + entry_tasks(p, es[0])
    }
}

/// The source paths that a listing of `p` reveals; where a name came twice,
/// its first entry decides its kind.
pub open spec fn listing_tree(p: RelPath, es: Seq<(Seq<char>, bool)>) -> Map<RelPath, bool>
    decreases es.len(),
{
    if es.len() == 0 {
        Map::empty()
    } else {
        listing_tree(p, es.drop_first()).insert(p.push(es[0].0), es[0].1)
    }
}

/// No two entries of the listing have the same name.
pub open spec fn names_distinct(es: Seq<(Seq<char>, bool)>) -> bool {
    forall|i: int, j: int| 0 <= i < j < es.len() ==> es[i].0 != es[j].0
}

/// The cause recorded for a listing that names an entry twice.
pub const REPEATED_NAME: &'static str = "a directory listing names an entry twice";

pub open spec fn entries_view(es: Seq<Entry>) -> Seq<(Seq<char>, bool)> {
    es.map_values(|e: Entry| (e.name@, e.is_dir))
}

/// One entry of a directory listing.
pub struct Entry {
    pub name: String,
    pub is_dir: bool,
}

/// Whether two entries of the listing have the same name.
fn names_repeat(es: &Vec<Entry>) -> (r: bool)
    ensures
        r == !names_distinct(entries_view(es@)),
{
    let ghost esv = entries_view(es@);
    let mut i: usize = 0;
    while i < es.len()
        invariant
            i <= es.len(),
            esv == entries_view(es@),
            forall|a: int, b: int| 0 <= a < i && a < b < es.len() ==> esv[a].0 != esv[b].0,
        decreases es.len() - i,
    {
        let mut j: usize = i + 1;
        while j < es.len()
            invariant
                i < es.len(),
                i < j <= es.len(),
                esv == entries_view(es@),
                forall|b: int| i < b < j ==> esv[i as int].0 != esv[b].0,
            decreases es.len() - j,
        {
            if es[i].name == es[j].name {
                assert(esv[i as int].0 == esv[j as int].0);
                return true;
            }
            j = j + 1;
        }
        i = i + 1;
    }
    false
}

/// Work still to do for one path of the source tree.
pub enum Task {
    Make(Vec<String>),
    List(Vec<String>),
    Copy(Vec<String>),
}

pub enum TaskView {
    Make(RelPath),
    List(RelPath),
    Copy(RelPath),
}

impl View for Task {
    type V = TaskView;

    open spec fn view(&self) -> TaskView {
        match self {
            Task::Make(p) => TaskView::Make(parts_view(p@)),
            Task::List(p) => TaskView::List(parts_view(p@)),
            Task::Copy(p) => TaskView::Copy(parts_view(p@)),
        }
    }
}

impl TaskView {
    pub open spec fn path(self) -> RelPath {
        match self {
            TaskView::Make(p) => p,
            TaskView::List(p) => p,
            TaskView::Copy(p) => p,
        }
    }
}

/// What the caller is asked to do next.
pub enum Step {
    /// Create this directory and any missing ancestors.
    CreateDir(Place),
    /// List the entries of this directory.
    ReadDir(Place),
    /// Create the parent of the second place if missing, then copy the bytes
    /// of the first place's file to it.
    CopyFile(Place, Place),
    /// Everything has been replicated.
    Finished,
    /// An operation failed; nothing more is to be done.
    Failed,
}

pub enum StepView {
    CreateDir(PlaceView),
    ReadDir(PlaceView),
    CopyFile(PlaceView, PlaceView),
    Finished,
    Failed,
}

impl View for Step {
    type V = StepView;

    open spec fn view(&self) -> StepView {
        match self {
            Step::CreateDir(p) => StepView::CreateDir(p@),
            Step::ReadDir(p) => StepView::ReadDir(p@),
            Step::CopyFile(a, b) => StepView::CopyFile(a@, b@),
            Step::Finished => StepView::Finished,
            Step::Failed => StepView::Failed,
        }
    }
}

/// How the last step went.
pub enum Outcome {
    /// A directory was created or a file copied.
    Done,
    /// A directory was read, with these entries.
    Listed(Vec<Entry>),
    /// The operation failed, for this reason.
    Error(String),
}

pub enum OutcomeView {
    Done,
    Listed(Seq<(Seq<char>, bool)>),
    Error(Seq<char>),
}

impl View for Outcome {
    type V = OutcomeView;

    open spec fn view(&self) -> OutcomeView {
        match self {
            Outcome::Done => OutcomeView::Done,
            Outcome::Listed(es) => OutcomeView::Listed(entries_view(es@)),
            Outcome::Error(c) => OutcomeView::Error(c@),
        }
    }
}

proof fn lemma_pop_keeps(s: Seq<TaskView>)
    requires
        s.len() > 0,
    ensures
        forall|t: TaskView| s.contains(t) && t != s.last() ==> #[trigger] s.drop_last().contains(t),
{
    assert forall|t: TaskView| s.contains(t) && t != s.last() implies #[trigger] s.drop_last().contains(
        t,
    ) by {
        let i = choose|i: int| 0 <= i < s.len() && s[i] == t;
        assert(i != s.len() - 1);
        assert(s.drop_last()[i] == t);
    }
}

/// The first operation that failed, and why.
pub struct Fault {
    pub step: Step,
    pub cause: String,
}

/// The state of one replication of `source_root` into `dest_root/folder`.
pub struct CopyRun {
    source_root: String,
    dest_root: String,
    folder: String,
    started: Stamp,
    stack: Vec<Task>,
    fault: Option<Fault>,
    known: Ghost<Map<RelPath, bool>>,
    made: Ghost<Set<RelPath>>,
    read: Ghost<Set<RelPath>>,
    done_files: Ghost<Set<RelPath>>,
}

impl CopyRun {
    /// Each path of the source tree that a listing has reported, with whether
    /// it is a directory; the root itself is the empty path.
    pub closed spec fn tree(&self) -> Map<RelPath, bool> {
        self.known@
    }

    /// The paths whose destination directory has been created.
    pub closed spec fn created(&self) -> Set<RelPath> {
        self.made@
    }

    /// The directories whose listing has been read.
    pub closed spec fn listed(&self) -> Set<RelPath> {
        self.read@
    }

    /// The files that have been copied.
    pub closed spec fn copied(&self) -> Set<RelPath> {
        self.done_files@
    }

    pub closed spec fn source_root(&self) -> Seq<char> {
        self.source_root@
    }

    pub closed spec fn dest_root(&self) -> Seq<char> {
        self.dest_root@
    }

    pub closed spec fn folder(&self) -> Seq<char> {
        self.folder@
    }

    /// When the run started, by the local clock.
    pub closed spec fn started_at(&self) -> Stamp {
        self.started
    }

    /// The pending work, the top of the stack last.
    pub closed spec fn tasks(&self) -> Seq<TaskView> {
        self.stack@.map_values(|t: Task| t@)
    }

    pub closed spec fn failed(&self) -> bool {
        self.fault.is_some()
    }

    pub closed spec fn fault_view(&self) -> Option<(StepView, Seq<char>)> {
        match self.fault {
            Some(f) => Some((f.step@, f.cause@)),
            None => None,
        }
    }

    pub open spec fn finished(&self) -> bool {
        !self.failed() && self.tasks().len() == 0
    }

    /// Where the source entry at `rel` is.
    pub open spec fn source_place(&self, rel: RelPath) -> PlaceView {
        place_of(self.source_root(), None, rel)
    }

    /// Where the copy of the source entry at `rel` goes.
    pub open spec fn dest_place(&self, rel: RelPath) -> PlaceView {
        place_of(self.dest_root(), Some(self.folder()), rel)
    }

    pub open spec fn pending(&self, t: TaskView) -> bool {
        self.tasks().contains(t)
    }

    /// The source entry at `p` has been replicated or still has work pending.
    pub open spec fn covered(&self, p: RelPath) -> bool {
        if self.tree()[p] {
            &&& (self.created().contains(p) || self.pending(TaskView::Make(p)))
            &&& (self.listed().contains(p) || self.pending(TaskView::List(p)))
        } else {
            self.copied().contains(p) || self.pending(TaskView::Copy(p))
        }
    }

    /// The step that the top task asks for.
    pub open spec fn step_for(&self, t: TaskView) -> StepView {
        match t {
            TaskView::Make(p) => StepView::CreateDir(self.dest_place(p)),
            TaskView::List(p) => StepView::ReadDir(self.source_place(p)),
            TaskView::Copy(p) => StepView::CopyFile(self.source_place(p), self.dest_place(p)),
        }
    }

    /// The step that the run asks for now.
    pub open spec fn next_step(&self) -> StepView {
        if self.failed() {
            StepView::Failed
        } else if self.tasks().len() == 0 {
            StepView::Finished
        } else {
            self.step_for(self.tasks().last())
        }
    }

    pub open spec fn wf(&self) -> bool {
        &&& self.tree().contains_key(Seq::empty())
        &&& self.tree()[Seq::empty()]
        &&& forall|p: RelPath| #[trigger] self.tree().contains_key(p) ==> self.covered(p)
        &&& forall|i: int|
            0 <= i < self.tasks().len() ==> self.tree().contains_key(
                #[trigger] self.tasks()[i].path(),
            )
        &&& forall|p: RelPath| #[trigger] self.created().contains(p) ==> self.tree().contains_key(p)
        &&& forall|p: RelPath| #[trigger] self.listed().contains(p) ==> self.tree().contains_key(p)
        &&& forall|p: RelPath| #[trigger] self.copied().contains(p) ==> self.tree().contains_key(p)
        &&& forall|i: int, j: int|
            0 <= i < j < self.tasks().len() ==> #[trigger] self.tasks()[i] != #[trigger] self.tasks()[j]
        &&& forall|i: int| 0 <= i < self.tasks().len() ==> !self.done(#[trigger] self.tasks()[i])
        &&& forall|q: RelPath|
            #[trigger] self.tree().contains_key(q) && q.len() > 0 ==> self.listed().contains(
                q.drop_last(),
            )
    }

    /// The work that `t` stands for has been done already.
    pub open spec fn done(&self, t: TaskView) -> bool {
        match t {
            TaskView::Make(p) => self.created().contains(p),
            TaskView::List(p) => self.listed().contains(p),
            TaskView::Copy(p) => self.copied().contains(p),
        }
    }

    /// The step to perform now.
    pub fn step(&self) -> (r: Step)
        ensures
            r@ == self.next_step(),
    {
        if self.fault.is_some() {
            return Step::Failed;
        }
        let n = self.stack.len();
        if n == 0 {
            return Step::Finished;
        }
        match &self.stack[n - 1] {
            Task::Make(p) => Step::CreateDir(make_place(&self.dest_root, Some(&self.folder), p)),
            Task::List(p) => Step::ReadDir(make_place(&self.source_root, None, p)),
            Task::Copy(p) => Step::CopyFile(
                make_place(&self.source_root, None, p),
                make_place(&self.dest_root, Some(&self.folder), p),
            ),
        }
    }

    /// Whether every entry of the source tree has been replicated.
    pub fn is_finished(&self) -> (r: bool)
        ensures
            r == self.finished(),
    {
        self.fault.is_none() && self.stack.len() == 0
    }

    /// The operation that failed and its cause, once the run has failed.
    pub fn fault(&self) -> (r: Option<&Fault>)
        ensures
            match r {
                Some(f) => self.fault_view() == Some((f.step@, f.cause@)),
                None => !self.failed(),
            },
    {
        self.fault.as_ref()
    }

    /// When the run started.
    pub fn started(&self) -> (r: Stamp)
        ensures
            r == self.started_at(),
    {
        self.started
    }

    /// Where the copy goes: the destination root with the run's folder below it.
    pub fn destination_folder(&self) -> (r: Place)
        ensures
            r@ == self.dest_place(Seq::empty()),
    {
        let none: Vec<String> = Vec::new();
        let r = make_place(&self.dest_root, Some(&self.folder), &none);
        assert(parts_view(none@) =~= Seq::<Seq<char>>::empty());
        r
    }

    fn push_task(&mut self, t: Task)
        ensures
            final(self).tasks() == old(self).tasks().push(t@),
            final(self).source_root == old(self).source_root,
            final(self).dest_root == old(self).dest_root,
            final(self).folder == old(self).folder,
            final(self).started == old(self).started,
            final(self).fault == old(self).fault,
            final(self).known == old(self).known,
            final(self).made == old(self).made,
            final(self).read == old(self).read,
            final(self).done_files == old(self).done_files,
    {
        let ghost t_view = t@;
        self.stack.push(t);
        assert(self.tasks() =~= old(self).tasks().push(t_view));
    }

    fn pop_task(&mut self) -> (r: Task)
        requires
            old(self).stack@.len() > 0,
        ensures
            r@ == old(self).tasks().last(),
            final(self).tasks() == old(self).tasks().drop_last(),
            final(self).source_root == old(self).source_root,
            final(self).dest_root == old(self).dest_root,
            final(self).folder == old(self).folder,
            final(self).started == old(self).started,
            final(self).fault == old(self).fault,
            final(self).known == old(self).known,
            final(self).made == old(self).made,
            final(self).read == old(self).read,
            final(self).done_files == old(self).done_files,
    {
        let r = self.stack.pop().unwrap();
        assert(self.tasks() =~= old(self).tasks().drop_last());
        r
    }

    /// Records one entry of the listing of `p` and queues its work.
    fn discover(&mut self, p: &Vec<String>, e: &Entry)
        requires
            old(self).wf(),
            old(self).listed().contains(parts_view(p@)),
            !old(self).tree().contains_key(parts_view(p@).push(e.name@)),
        ensures
            final(self).wf(),
            final(self).tasks() == old(self).tasks() + entry_tasks(
                parts_view(p@),
                (e.name@, e.is_dir),
            ),
            final(self).tree() == old(self).tree().insert(parts_view(p@).push(e.name@), e.is_dir),
            final(self).source_root == old(self).source_root,
            final(self).dest_root == old(self).dest_root,
            final(self).folder == old(self).folder,
            final(self).started == old(self).started,
            final(self).fault == old(self).fault,
            final(self).made == old(self).made,
            final(self).read == old(self).read,
            final(self).done_files == old(self).done_files,
    {
        let ghost pv = parts_view(p@);
        let ghost c = pv.push(e.name@);
        let ghost old_tasks = self.tasks();
        let c_exec = child_parts(p, &e.name);
        if e.is_dir {
            let c2 = copy_parts(&c_exec);
            self.push_task(Task::List(c2));
            self.push_task(Task::Make(c_exec));
        } else {
            self.push_task(Task::Copy(c_exec));
        }
        self.known = Ghost(self.known@.insert(c, e.is_dir));
        let ghost added = entry_tasks(pv, (e.name@, e.is_dir));
        assert(c.len() > 0);
        assert(c != Seq::<Seq<char>>::empty());
        assert(self.tasks() =~= old_tasks + added);
        assert forall|t: TaskView| old_tasks.contains(t) implies self.tasks().contains(t) by {
            let i = choose|i: int| 0 <= i < old_tasks.len() && old_tasks[i] == t;
            assert(self.tasks()[i] == t);
        }
        if e.is_dir {
            assert(self.tasks()[old_tasks.len() as int] == TaskView::List(c));
            assert(self.tasks()[old_tasks.len() + 1int] == TaskView::Make(c));
        } else {
            assert(self.tasks()[old_tasks.len() as int] == TaskView::Copy(c));
        }
        assert forall|q: RelPath| #[trigger] self.tree().contains_key(q) implies self.covered(q) by {
            if q != c {
                assert(old(self).covered(q));
            }
        }
        assert forall|i: int| 0 <= i < self.tasks().len() implies self.tree().contains_key(
            #[trigger] self.tasks()[i].path(),
        ) by {
            if i < old_tasks.len() {
                assert(self.tasks()[i] == old_tasks[i]);
            }
        }
        assert forall|q: RelPath| #[trigger] self.copied().contains(q) implies self.tree().contains_key(q) by {
            assert(old(self).copied().contains(q));
        }
        assert forall|i: int, j: int| 0 <= i < j < self.tasks().len() implies #[trigger] self.tasks()[i]
            != #[trigger] self.tasks()[j] by {
            if j >= old_tasks.len() && i < old_tasks.len() {
                assert(self.tasks()[i] == old_tasks[i]);
                assert(old(self).tree().contains_key(old_tasks[i].path()));
            } else if j < old_tasks.len() {
                assert(self.tasks()[i] == old_tasks[i]);
                assert(self.tasks()[j] == old_tasks[j]);
            }
        }
        assert forall|i: int| 0 <= i < self.tasks().len() implies !self.done(
            #[trigger] self.tasks()[i],
        ) by {
            if i < old_tasks.len() {
                assert(self.tasks()[i] == old_tasks[i]);
                assert(!old(self).done(old_tasks[i]));
            } else {
                assert(!old(self).created().contains(c));
                assert(!old(self).listed().contains(c));
                assert(!old(self).copied().contains(c));
            }
        }
        assert forall|q: RelPath| #[trigger]
            self.tree().contains_key(q) && q.len() > 0 implies self.listed().contains(q.drop_last()) by {
            if q == c {
                assert(c.drop_last() =~= pv);
            } else {
                assert(old(self).tree().contains_key(q));
            }
        }
    }

    /// Takes the outcome of the step that the run asked for (see `advanced`).
    /// Each directory is created and read, and each file copied, once at most.
    pub fn advance(&mut self, ev: Outcome)
        requires
            old(self).wf(),
        ensures
            final(self).wf(),
            advanced(*old(self), ev@, *final(self)),
    {
        if self.fault.is_some() || self.stack.len() == 0 {
            return;
        }
        let n = self.stack.len();
        let kind: u8 = match &self.stack[n - 1] {
            Task::Make(_) => 0,
            Task::List(_) => 1,
            Task::Copy(_) => 2,
        };
        let ghost top = self.tasks().last();
        let ghost p = top.path();
        proof {
            lemma_pop_keeps(self.tasks());
            assert(self.tasks()[n - 1] == top);
        }
        match ev {
            Outcome::Error(cause) => {
                let step = self.step();
                self.fault = Some(Fault { step, cause });
            },
            Outcome::Done => {
                if kind == 0 {
                    self.pop_task();
                    self.made = Ghost(self.made@.insert(p));
                    proof {
                        lemma_pop_done(*old(self), *self);
                    }
                } else if kind == 2 {
                    self.pop_task();
                    self.done_files = Ghost(self.done_files@.insert(p));
                    proof {
                        lemma_pop_done(*old(self), *self);
                    }
                }
            },
            Outcome::Listed(es) => {
                if kind == 1 && names_repeat(&es) {
                    let step = self.step();
                    self.fault = Some(Fault { step, cause: REPEATED_NAME.to_owned() });
                } else if kind == 1 {
                    assert(!old(self).done(top));
                    let t = self.pop_task();
                    let dir: Vec<String> = match t {
                        Task::List(d) => d,
                        Task::Make(d) => d,
                        Task::Copy(d) => d,
                    };
                    self.read = Ghost(self.read@.insert(p));
                    proof {
                        lemma_pop_done(*old(self), *self);
                    }
                    let ghost esv = entries_view(es@);
                    let ghost base = self.tasks();
                    let ghost tree0 = self.tree();
                    let mut i: usize = es.len();
                    assert forall|k: int| 0 <= k < esv.len() implies !tree0.contains_key(
                        #[trigger] p.push(esv[k].0),
                    ) by {
                        assert(p.push(esv[k].0).drop_last() =~= p);
                    }
                    assert(esv.subrange(i as int, esv.len() as int) =~= Seq::empty());
                    assert(base + listing_tasks(p, Seq::empty()) =~= base);
                    assert(tree0.union_prefer_right(listing_tree(p, Seq::empty())) =~= tree0);
                    while i > 0
                        invariant
                            i <= es.len(),
                            esv == entries_view(es@),
                            parts_view(dir@) == p,
                            self.wf(),
                            !self.failed(),
                            self.source_root == old(self).source_root,
                            self.dest_root == old(self).dest_root,
                            self.folder == old(self).folder,
                            self.started == old(self).started,
                            self.made == old(self).made,
                            self.read@ == old(self).listed().insert(p),
                            names_distinct(esv),
                            tree0 == old(self).tree(),
                            forall|k: int|
                                0 <= k < esv.len() ==> !tree0.contains_key(#[trigger] p.push(esv[k].0)),
                            forall|k: int|
                                0 <= k < i ==> !self.tree().contains_key(#[trigger] p.push(esv[k].0)),
                            self.done_files == old(self).done_files,
                            self.tasks() == base + listing_tasks(
                                p,
                                esv.subrange(i as int, esv.len() as int),
                            ),
                            self.tree() == tree0.union_prefer_right(
                                listing_tree(p, esv.subrange(i as int, esv.len() as int)),
                            ),
                        decreases i,
                    {
                        let ghost later = esv.subrange(i as int, esv.len() as int);
                        let ghost from = esv.subrange(i - 1, esv.len() as int);
                        let ghost before = self.tasks();
                        let ghost tree_before = self.tree();
                        assert(esv[i - 1] == (es@[i - 1].name@, es@[i - 1].is_dir));
                        assert(!self.tree().contains_key(p.push(esv[i - 1].0)));
                        self.discover(&dir, &es[i - 1]);
                        assert(from.drop_first() =~= later);
                        assert(from[0] == esv[i - 1]);
                        assert(esv[i - 1] == (es@[i - 1].name@, es@[i - 1].is_dir));
                        assert(listing_tasks(p, from) == listing_tasks(p, later) + entry_tasks(
                            p,
                            from[0],
                        ));
                        assert(self.tasks() =~= base + listing_tasks(p, from));
                        assert(listing_tree(p, from) == listing_tree(p, later).insert(
                            p.push(from[0].0),
                            from[0].1,
                        ));
                        assert(self.tree() =~= tree0.union_prefer_right(listing_tree(p, from)));
                        assert forall|k: int| 0 <= k < i - 1 implies !self.tree().contains_key(
                            #[trigger] p.push(esv[k].0),
                        ) by {
                            assert(esv[k].0 != esv[i - 1].0);
                            assert(p.push(esv[k].0)[p.len() as int] == esv[k].0);
                            assert(p.push(esv[i - 1].0)[p.len() as int] == esv[i - 1].0);
                        }
                        i = i - 1;
                    }
                    assert(esv.subrange(0, esv.len() as int) =~= esv);
                }
            },
        }
    }

    /// Starts a replication of `source_root` into a new folder below
    /// `dest_root`, named after the local time now (see `CopyRun::new`).
    pub fn begin(source_root: String, dest_root: String) -> (r: CopyRun)
        ensures
            r.wf(),
            r.source_root() == source_root@,
            r.dest_root() == dest_root@,
            valid_stamp(r.started_at()),
            0 <= r.started_at().year <= 9999 ==> r.folder() == stamp_text(r.started_at()),
            !r.failed(),
            r.tasks() == seq![TaskView::List(Seq::empty()), TaskView::Make(Seq::empty())],
            r.tree() == map![Seq::<Seq<char>>::empty() => true],
            r.created() == Set::<RelPath>::empty(),
            r.listed() == Set::<RelPath>::empty(),
            r.copied() == Set::<RelPath>::empty(),
    {
        let now = local_now();
        CopyRun::new(source_root, dest_root, now)
    }

    /// Starts a replication of `source_root`, begun at `started`, into the
    /// folder below `dest_root` named after `started`. The first step creates
    /// that folder; then the root of the source is read.
    pub fn new(source_root: String, dest_root: String, started: Stamp) -> (r: CopyRun)
        requires
            valid_stamp(started),
        ensures
            r.wf(),
            r.source_root() == source_root@,
            r.dest_root() == dest_root@,
            r.started_at() == started,
            0 <= started.year <= 9999 ==> r.folder() == stamp_text(started),
            !r.failed(),
            r.tasks() == seq![TaskView::List(Seq::empty()), TaskView::Make(Seq::empty())],
            r.tree() == map![Seq::<Seq<char>>::empty() => true],
            r.created() == Set::<RelPath>::empty(),
            r.listed() == Set::<RelPath>::empty(),
            r.copied() == Set::<RelPath>::empty(),
            r.next_step() == StepView::CreateDir(place_of(dest_root@, Some(r.folder()), Seq::empty())),
    {
        let folder = folder_name(&started);
        let mut stack: Vec<Task> = Vec::new();
        stack.push(Task::List(Vec::new()));
        stack.push(Task::Make(Vec::new()));
        let ghost root_only = map![Seq::<Seq<char>>::empty() => true];
        let r = CopyRun {
            source_root,
            dest_root,
            folder,
            started,
            stack,
            fault: None,
            known: Ghost(root_only),
            made: Ghost(Set::empty()),
            read: Ghost(Set::empty()),
            done_files: Ghost(Set::empty()),
        };
        assert(parts_view(Seq::<String>::empty()) =~= Seq::<Seq<char>>::empty());
        assert(r.tasks() =~= seq![TaskView::List(Seq::empty()), TaskView::Make(Seq::empty())]);
        assert(r.tasks()[0] == TaskView::List(Seq::empty()));
        assert(r.tasks()[1] == TaskView::Make(Seq::empty()));
        assert(r.pending(TaskView::Make(Seq::empty())));
        assert(r.pending(TaskView::List(Seq::empty())));
        r
    }
}


/// How one outcome moves a run from `a` to `b`. A run that has failed or
/// finished stays as it is, and so does one given an outcome that does not
/// answer its step. An error ends the run: it keeps the failed step and its
/// cause, and asks for nothing more; so does a listing that names an entry
/// twice. Otherwise the answered task leaves the stack and is recorded as
/// done; a listing queues the work for its entries, the first entry on top.
pub open spec fn advanced(a: CopyRun, ev: OutcomeView, b: CopyRun) -> bool {
    &&& b.source_root() == a.source_root()
    &&& b.dest_root() == a.dest_root()
    &&& b.folder() == a.folder()
    &&& b.started_at() == a.started_at()
    &&& (a.failed() || a.tasks().len() == 0 ==> b == a)
    &&& (!a.failed() && a.tasks().len() > 0 ==> match (a.tasks().last(), ev) {
        (_, OutcomeView::Error(cause)) => {
            &&& b.failed()
            &&& b.fault_view() == Some((a.next_step(), cause))
            &&& b.tasks() == a.tasks()
            &&& b.tree() == a.tree()
            &&& b.created() == a.created()
            &&& b.listed() == a.listed()
            &&& b.copied() == a.copied()
        },
        (TaskView::Make(p), OutcomeView::Done) => {
            &&& !a.created().contains(p)
            &&& !b.failed()
            &&& b.tasks() == a.tasks().drop_last()
            &&& b.tree() == a.tree()
            &&& b.created() == a.created().insert(p)
            &&& b.listed() == a.listed()
            &&& b.copied() == a.copied()
        },
        (TaskView::Copy(p), OutcomeView::Done) => {
            &&& !a.copied().contains(p)
            &&& !b.failed()
            &&& b.tasks() == a.tasks().drop_last()
            &&& b.tree() == a.tree()
            &&& b.created() == a.created()
            &&& b.listed() == a.listed()
            &&& b.copied() == a.copied().insert(p)
        },
        (TaskView::List(p), OutcomeView::Listed(es)) => if names_distinct(es) {
            &&& !a.listed().contains(p)
            &&& forall|k: int|
                0 <= k < es.len() ==> !a.tree().contains_key(#[trigger] p.push(es[k].0))
            &&& !b.failed()
            &&& b.tasks() == a.tasks().drop_last() + listing_tasks(p, es)
            &&& b.tree() == a.tree().union_prefer_right(listing_tree(p, es))
            &&& b.created() == a.created()
            &&& b.listed() == a.listed().insert(p)
            &&& b.copied() == a.copied()
        } else {
            &&& b.failed()
            &&& b.fault_view() == Some((a.next_step(), REPEATED_NAME@))
            &&& b.tasks() == a.tasks()
            &&& b.tree() == a.tree()
            &&& b.created() == a.created()
            &&& b.listed() == a.listed()
            &&& b.copied() == a.copied()
        },
        _ => b == a,
    })
}

/// Popping the top task and recording it as done keeps a run well formed.
proof fn lemma_pop_done(a: CopyRun, b: CopyRun)
    requires
        a.wf(),
        a.tasks().len() > 0,
        b.tasks() == a.tasks().drop_last(),
        b.tree() == a.tree(),
        match a.tasks().last() {
            TaskView::Make(p) => b.created() == a.created().insert(p) && b.listed() == a.listed()
                && b.copied() == a.copied(),
            TaskView::List(p) => b.created() == a.created() && b.listed() == a.listed().insert(p)
                && b.copied() == a.copied(),
            TaskView::Copy(p) => b.created() == a.created() && b.listed() == a.listed()
                && b.copied() == a.copied().insert(p),
        },
    ensures
        b.wf(),
{
    let n = a.tasks().len() - 1;
    lemma_pop_keeps(a.tasks());
    assert(a.tasks()[n] == a.tasks().last());
    assert(a.tree().contains_key(a.tasks()[n].path()));
    assert forall|q: RelPath| #[trigger] b.created().contains(q) implies b.tree().contains_key(q) by {
        if q != a.tasks()[n].path() {
            assert(a.created().contains(q));
        }
    }
    assert forall|q: RelPath| #[trigger] b.listed().contains(q) implies b.tree().contains_key(q) by {
        if q != a.tasks()[n].path() {
            assert(a.listed().contains(q));
        }
    }
    assert forall|q: RelPath| #[trigger] b.copied().contains(q) implies b.tree().contains_key(q) by {
        if q != a.tasks()[n].path() {
            assert(a.copied().contains(q));
        }
    }
    assert forall|q: RelPath| #[trigger] b.tree().contains_key(q) implies b.covered(q) by {
        assert(a.covered(q));
    }
    assert forall|i: int| 0 <= i < b.tasks().len() implies b.tree().contains_key(
        #[trigger] b.tasks()[i].path(),
    ) by {
        assert(b.tasks()[i] == a.tasks()[i]);
    }
    assert forall|i: int| 0 <= i < b.tasks().len() implies !b.done(#[trigger] b.tasks()[i]) by {
        assert(b.tasks()[i] == a.tasks()[i]);
        assert(a.tasks()[i] != a.tasks()[n]);
        assert(!a.done(a.tasks()[i]));
    }
    assert forall|i: int, j: int| 0 <= i < j < b.tasks().len() implies #[trigger] b.tasks()[i]
        != #[trigger] b.tasks()[j] by {
        assert(b.tasks()[i] == a.tasks()[i]);
        assert(b.tasks()[j] == a.tasks()[j]);
    }
}

/// A finished run has replicated the whole source tree as its listings
/// reported it: every directory, the root and empty ones included, was created
/// at its place below the destination folder and read; every file was copied
/// there. Nothing was created, read or copied that is not in that tree.
pub proof fn lemma_finished_run_replicates_tree(run: CopyRun)
    requires
        run.wf(),
        run.finished(),
    ensures
        forall|p: RelPath|
            #[trigger] run.tree().contains_key(p) && run.tree()[p] ==> run.created().contains(p)
                && run.listed().contains(p),
        forall|p: RelPath|
            #[trigger] run.tree().contains_key(p) && !run.tree()[p] ==> run.copied().contains(p),
        forall|p: RelPath| #[trigger] run.created().contains(p) ==> run.tree().contains_key(p),
        forall|p: RelPath| #[trigger] run.listed().contains(p) ==> run.tree().contains_key(p),
        forall|p: RelPath| #[trigger] run.copied().contains(p) ==> run.tree().contains_key(p),
        run.created().contains(Seq::empty()),
        run.listed().contains(Seq::empty()),
{
    assert forall|t: TaskView| !run.pending(t) by {}
    assert forall|p: RelPath| #[trigger] run.tree().contains_key(p) implies run.covered(p) by {}
    assert(run.covered(Seq::empty()));
}

/// Once a run has failed it asks for no further operation.
pub proof fn lemma_failed_run_stops(run: CopyRun)
    requires
        run.failed(),
    ensures
        run.next_step() == StepView::Failed,
{
}

} // verus!

verus! {

/// `es` lists exactly the children of `p` in the tree `t`, with their kinds,
/// each once.
pub open spec fn lists_children(
    t: Map<RelPath, bool>,
    p: RelPath,
    es: Seq<(Seq<char>, bool)>,
) -> bool {
    &&& names_distinct(es)
    &&& forall|k: int|
        0 <= k < es.len() ==> t.contains_key(#[trigger] p.push(es[k].0)) && t[p.push(es[k].0)]
            == es[k].1
    &&& forall|q: RelPath|
        #[trigger] t.contains_key(q) && q.len() > 0 && q.drop_last() == p ==> exists|k: int|
            0 <= k < es.len() && q == p.push(es[k].0)
}

/// A source tree: finite, its root (the empty path) a directory, and each
/// other entry below a directory of it.
pub open spec fn is_source_tree(t: Map<RelPath, bool>) -> bool {
    &&& t.dom().finite()
    &&& t.contains_key(Seq::empty())
    &&& t[Seq::empty()]
    &&& forall|q: RelPath|
        #[trigger] t.contains_key(q) && q.len() > 0 ==> t.contains_key(q.drop_last())
            && t[q.drop_last()]
}

/// What the run has seen of the source agrees with the tree `t`, and every
/// directory it has read has all its children in `t` on record.
pub open spec fn agrees_with(run: CopyRun, t: Map<RelPath, bool>) -> bool {
    &&& forall|q: RelPath|
        #[trigger] run.tree().contains_key(q) ==> t.contains_key(q) && t[q] == run.tree()[q]
    &&& forall|q: RelPath|
        #[trigger] t.contains_key(q) && q.len() > 0 && run.listed().contains(q.drop_last())
            ==> run.tree().contains_key(q)
}

/// `ev` answers the run's step successfully and truly for the tree `t`.
pub open spec fn succeeds_on(run: CopyRun, ev: OutcomeView, t: Map<RelPath, bool>) -> bool {
    &&& !run.failed()
    &&& run.tasks().len() > 0
    &&& match (run.tasks().last(), ev) {
        (TaskView::Make(_), OutcomeView::Done) => true,
        (TaskView::Copy(_), OutcomeView::Done) => true,
        (TaskView::List(p), OutcomeView::Listed(es)) => lists_children(t, p, es),
        _ => false,
    }
}

/// A bound on the steps left: one for each queued task and two for each
/// entry of `t` that the run has not seen yet.
pub open spec fn work_left(run: CopyRun, t: Map<RelPath, bool>) -> nat {
    run.tasks().len() + 2 * t.dom().difference(run.tree().dom()).len()
}

proof fn lemma_listing_tree_keys(p: RelPath, es: Seq<(Seq<char>, bool)>)
    ensures
        forall|c: RelPath|
            #[trigger] listing_tree(p, es).contains_key(c) <==> exists|k: int|
                0 <= k < es.len() && c == p.push(es[k].0),
        names_distinct(es) ==> forall|k: int|
            0 <= k < es.len() ==> #[trigger] listing_tree(p, es)[p.push(es[k].0)] == es[k].1,
    decreases es.len(),
{
    if es.len() > 0 {
        let rest = es.drop_first();
        lemma_listing_tree_keys(p, rest);
        assert forall|c: RelPath| #[trigger] listing_tree(p, es).contains_key(c) implies exists|k: int|
            0 <= k < es.len() && c == p.push(es[k].0) by {
            assert(listing_tree(p, es) == listing_tree(p, rest).insert(p.push(es[0].0), es[0].1));
            if c != p.push(es[0].0) {
                assert(listing_tree(p, rest).contains_key(c));
                let k = choose|k: int| 0 <= k < rest.len() && c == p.push(rest[k].0);
                assert(rest[k] == es[k + 1]);
                assert(0 <= k + 1 < es.len() && c == p.push(es[k + 1].0));
            } else {
                assert(0 <= 0 < es.len() && c == p.push(es[0].0));
            }
        }
        assert forall|c: RelPath|
            (exists|k: int| 0 <= k < es.len() && c == p.push(es[k].0)) implies #[trigger] listing_tree(
            p,
            es,
        ).contains_key(c) by {
            let k = choose|k: int| 0 <= k < es.len() && c == p.push(es[k].0);
            assert(listing_tree(p, es) == listing_tree(p, rest).insert(p.push(es[0].0), es[0].1));
            if k > 0 {
                assert(rest[k - 1] == es[k]);
                assert(0 <= k - 1 < rest.len() && c == p.push(rest[k - 1].0));
            }
        }
        if names_distinct(es) {
            assert(names_distinct(rest));
            assert forall|k: int| 0 <= k < es.len() implies #[trigger] listing_tree(p, es)[p.push(
                es[k].0,
            )] == es[k].1 by {
                assert(listing_tree(p, es) == listing_tree(p, rest).insert(
                    p.push(es[0].0),
                    es[0].1,
                ));
                if k > 0 {
                    assert(es[k].0 != es[0].0);
                    assert(p.push(es[k].0)[p.len() as int] == es[k].0);
                    assert(p.push(es[0].0)[p.len() as int] == es[0].0);
                    assert(rest[k - 1] == es[k]);
                }
            }
        }
    }
}

proof fn lemma_listing_tasks_len(p: RelPath, es: Seq<(Seq<char>, bool)>)
    ensures
        listing_tasks(p, es).len() <= 2 * es.len(),
    decreases es.len(),
{
    if es.len() > 0 {
        lemma_listing_tasks_len(p, es.drop_first());
    }
}

/// A fresh run agrees with any source tree, and at most two steps for each
/// entry of the tree are left.
pub proof fn lemma_fresh_run_agrees(run: CopyRun, t: Map<RelPath, bool>)
    requires
        is_source_tree(t),
        run.tasks().len() == 2,
        run.tree() == map![Seq::<Seq<char>>::empty() => true],
        run.listed() == Set::<RelPath>::empty(),
    ensures
        agrees_with(run, t),
        work_left(run, t) == 2 * t.dom().len(),
{
    assert(t.dom().difference(run.tree().dom()) =~= t.dom().remove(Seq::empty()));
}

/// A step that the file system answers successfully, and whose listing tells
/// the truth about the source tree `t`, keeps the run in agreement with `t`
/// and lowers the work left. Since the work left is a natural number, a run
/// whose operations all succeed finishes after at most `work_left` steps.
pub proof fn lemma_success_progresses(
    a: CopyRun,
    ev: OutcomeView,
    b: CopyRun,
    t: Map<RelPath, bool>,
)
    requires
        a.wf(),
        advanced(a, ev, b),
        agrees_with(a, t),
        is_source_tree(t),
        succeeds_on(a, ev, t),
    ensures
        !b.failed(),
        agrees_with(b, t),
        work_left(b, t) < work_left(a, t),
{
    let ua = t.dom().difference(a.tree().dom());
    vstd::set_lib::lemma_len_subset(ua, t.dom());
    match (a.tasks().last(), ev) {
        (TaskView::List(p), OutcomeView::Listed(es)) => {
            let n = es.len();
            lemma_listing_tree_keys(p, es);
            lemma_listing_tasks_len(p, es);
            let lt = listing_tree(p, es);
            let kids = Seq::new(n, |k: int| p.push(es[k].0));
            assert forall|i: int, j: int| 0 <= i < n && 0 <= j < n && i != j implies kids[i]
                != kids[j] by {
                if i < j {
                    assert(es[i].0 != es[j].0);
                } else {
                    assert(es[j].0 != es[i].0);
                }
                assert(kids[i][p.len() as int] == es[i].0);
                assert(kids[j][p.len() as int] == es[j].0);
            }
            assert(kids.no_duplicates());
            kids.unique_seq_to_set();
            let c = kids.to_set();
            assert forall|q: RelPath| c.contains(q) <==> lt.dom().contains(q) by {
                if c.contains(q) {
                    let k = choose|k: int| 0 <= k < n && kids[k] == q;
                    assert(q == p.push(es[k].0));
                }
                if lt.dom().contains(q) {
                    let k = choose|k: int| 0 <= k < n && q == p.push(es[k].0);
                    assert(kids[k] == q);
                }
            }
            assert(c =~= lt.dom());
            let ub = t.dom().difference(b.tree().dom());
            assert(ub =~= ua.difference(c));
            assert forall|q: RelPath| c.contains(q) implies ua.contains(q) by {
                let k = choose|k: int| 0 <= k < n && q == p.push(es[k].0);
                assert(t.contains_key(p.push(es[k].0)));
                assert(!a.tree().contains_key(p.push(es[k].0)));
            }
            assert(ua =~= ub + c);
            vstd::set_lib::lemma_len_subset(ub, ua);
            vstd::set_lib::lemma_set_disjoint_lens(ub, c);
            assert(ub.disjoint(c));
            assert forall|q: RelPath| #[trigger] b.tree().contains_key(q) implies t.contains_key(q)
                && t[q] == b.tree()[q] by {
                if lt.contains_key(q) {
                    let k = choose|k: int| 0 <= k < n && q == p.push(es[k].0);
                    assert(lt[p.push(es[k].0)] == es[k].1);
                }
            }
            assert forall|q: RelPath|
                #[trigger] t.contains_key(q) && q.len() > 0 && b.listed().contains(
                    q.drop_last(),
                ) implies b.tree().contains_key(q) by {
                if q.drop_last() == p {
                    let k = choose|k: int| 0 <= k < n && q == p.push(es[k].0);
                    assert(lt.contains_key(q));
                } else {
                    assert(a.listed().contains(q.drop_last()));
                }
            }
        },
        _ => {
            assert(t.dom().difference(b.tree().dom()) == ua);
        },
    }
}

proof fn lemma_seen(run: CopyRun, t: Map<RelPath, bool>, q: RelPath)
    requires
        run.wf(),
        run.finished(),
        agrees_with(run, t),
        is_source_tree(t),
        t.contains_key(q),
    ensures
        run.tree().contains_key(q),
    decreases q.len(),
{
    if q.len() == 0 {
        assert(q =~= Seq::<Seq<char>>::empty());
    } else {
        let p = q.drop_last();
        lemma_seen(run, t, p);
        lemma_finished_run_replicates_tree(run);
        assert(run.listed().contains(p));
    }
}

/// A finished run that agrees with the source tree `t` has seen exactly `t`:
/// with `lemma_finished_run_replicates_tree`, every directory of `t` was
/// created and every file copied below the destination folder, and nothing
/// else.
pub proof fn lemma_finished_run_matches_source(run: CopyRun, t: Map<RelPath, bool>)
    requires
        run.wf(),
        run.finished(),
        agrees_with(run, t),
        is_source_tree(t),
    ensures
        run.tree() == t,
{
    assert forall|q: RelPath| t.contains_key(q) implies run.tree().contains_key(q) by {
        lemma_seen(run, t, q);
    }
    assert(run.tree() =~= t);
}

} // verus!
