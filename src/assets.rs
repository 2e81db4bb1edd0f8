//! The files bundled with the program (icons and status images), looked up by
//! name.
use vstd::prelude::*;

verus! {

/// One bundled file.
pub struct Asset {
    pub name: String,
    pub data: Vec<u8>,
}

/// The bundled files, in the order in which they were gathered.
pub struct AssetStore {
    pub entries: Vec<Asset>,
}

/// The index of the first asset named `name`, if any.
pub open spec fn first_named(entries: Seq<Asset>, name: Seq<char>, i: int) -> bool {
    &&& 0 <= i < entries.len()
    &&& entries[i].name@ == name
    &&& forall|j: int| 0 <= j < i ==> entries[j].name@ != name
}

fn copy_bytes(b: &Vec<u8>) -> (r: Vec<u8>)
    ensures
        r@ == b@,
{
    let mut r: Vec<u8> = Vec::new();
    let mut i: usize = 0;
    while i < b.len()
        invariant
            i <= b.len(),
            r@ == b@.subrange(0, i as int),
        decreases b.len() - i,
    {
        r.push(b[i]);
        i = i + 1;
        assert(r@ =~= b@.subrange(0, i as int));
    }
    assert(b@.subrange(0, b.len() as int) =~= b@);
    r
}

/// The contents of the bundled file `name`: those of the first asset with
/// that name, none where no asset has it.
pub fn get_asset(store: &AssetStore, name: &str) -> (r: Option<Vec<u8>>)
    ensures
        match r {
            Some(d) => exists|i: int|
                first_named(store.entries@, name@, i) && d@ == store.entries@[i].data@,
            None => forall|i: int|
                0 <= i < store.entries@.len() ==> store.entries@[i].name@ != name@,
        },
{
    let wanted: String = name.to_owned();
    let mut i: usize = 0;
    while i < store.entries.len()
        invariant
            i <= store.entries@.len(),
            wanted@ == name@,
            forall|j: int| 0 <= j < i ==> store.entries@[j].name@ != name@,
        decreases store.entries.len() - i,
    {
        if store.entries[i].name == wanted {
            let d = copy_bytes(&store.entries[i].data);
            assert(first_named(store.entries@, name@, i as int));
            return Some(d);
        }
        i = i + 1;
    }
    None
}

} // verus!
