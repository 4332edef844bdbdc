use vstd::prelude::*;

use crate::skill::{SkillName, SkillSource};
use crate::table::KeyedTable;

verus! {

/// The dependencies a project declares: each key bound to the source it is installed from.
#[derive(Debug)]
pub struct Manifest {
    pub name: SkillName,
    pub description: String,
    pub install_dir: Option<String>,
    pub dependencies: KeyedTable,
}

impl Manifest {
    /// Key to source string.
    pub open spec fn deps(&self) -> Map<Seq<char>, Seq<char>> {
        self.dependencies@
    }

    /// The metadata other than the dependencies is the same in both.
    pub open spec fn same_header(&self, other: &Manifest) -> bool {
        self.name == other.name && self.description == other.description && self.install_dir
            == other.install_dir
    }

    pub fn new(name: SkillName, description: String) -> (r: Manifest)
        ensures
            r.name == name,
            r.description == description,
            r.install_dir is None,
            r.deps() == Map::<Seq<char>, Seq<char>>::empty(),
    {
        Manifest { name, description, install_dir: None, dependencies: KeyedTable::new() }
    }

    pub fn add_dependency(&mut self, key: String, source: SkillSource)
        ensures
            final(self).deps() == old(self).deps().insert(key@, source@),
            final(self).same_header(old(self)),
    {
        self.dependencies.insert(key, source.into_string());
    }

    pub fn remove_dependency(&mut self, key: &str)
        ensures
            final(self).deps() == old(self).deps().remove(key@),
            final(self).same_header(old(self)),
    {
        self.dependencies.remove(key);
    }

    /// The source bound to `key`, if any.
    pub fn source_of(&self, key: &str) -> (r: Option<SkillSource>)
        ensures
            r is Some <==> self.deps().contains_key(key@),
            r is Some ==> r->0@ == self.deps()[key@],
    {
        match self.dependencies.get(key) {
            Some(s) => Some(SkillSource::new(s.as_str())),
            None => None,
        }
    }
}

} // verus!
