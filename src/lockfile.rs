use vstd::prelude::*;

use crate::table::KeyedTable;

verus! {

/// The revision last materialised for each key.
#[derive(Debug)]
pub struct Lockfile {
    pub dependencies: KeyedTable,
}

impl Lockfile {
    /// Key to revision.
    pub open spec fn deps(&self) -> Map<Seq<char>, Seq<char>> {
        self.dependencies@
    }

    pub fn new() -> (r: Lockfile)
        ensures
            r.deps() == Map::<Seq<char>, Seq<char>>::empty(),
    {
        Lockfile { dependencies: KeyedTable::new() }
    }

    pub fn set_commit(&mut self, key: String, commit_hash: String)
        ensures
            final(self).deps() == old(self).deps().insert(key@, commit_hash@),
    {
        self.dependencies.insert(key, commit_hash);
    }

    pub fn remove_commit(&mut self, key: &str)
        ensures
            final(self).deps() == old(self).deps().remove(key@),
    {
        self.dependencies.remove(key);
    }

    pub fn get_commit(&self, key: &str) -> (r: Option<&String>)
        ensures
            r is Some <==> self.deps().contains_key(key@),
            r is Some ==> r->0@ == self.deps()[key@],
    {
        self.dependencies.get(key)
    }
}

} // verus!
