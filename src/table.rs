use vstd::prelude::*;

verus! {

/// Entries whose keys are pairwise distinct.
pub open spec fn unique_keys(e: Seq<(String, String)>) -> bool {
    forall|i: int, j: int|
        0 <= i < e.len() && 0 <= j < e.len() && i != j ==> #[trigger] e[i].0@ != #[trigger] e[j].0@
}

/// An entry of `e` has key `k` at position `i`.
pub open spec fn key_at(e: Seq<(String, String)>, i: int, k: Seq<char>) -> bool {
    0 <= i < e.len() && e[i].0@ == k
}

/// The map from each key to its value.
pub open spec fn entries_map(e: Seq<(String, String)>) -> Map<Seq<char>, Seq<char>> {
    Map::new(
        |k: Seq<char>| exists|i: int| #[trigger] key_at(e, i, k),
        |k: Seq<char>| e[choose|i: int| #[trigger] key_at(e, i, k)].1@,
    )
}

/// The keys in the order of the entries.
pub open spec fn entries_keys(e: Seq<(String, String)>) -> Seq<Seq<char>> {
    e.map_values(|p: (String, String)| p.0@)
}

proof fn lemma_entry_in_map(e: Seq<(String, String)>, i: int)
    requires
        unique_keys(e),
        0 <= i < e.len(),
    ensures
        entries_map(e).contains_key(e[i].0@),
        entries_map(e)[e[i].0@] == e[i].1@,
{
    let k = e[i].0@;
    assert(key_at(e, i, k));
    let j = choose|j: int| #[trigger] key_at(e, j, k);
    assert(key_at(e, j, k));
    if j != i {
        assert(e[i].0@ != e[j].0@);
    }
}

/// After the entry at `i` was replaced or appended, the map changed by that one binding.
proof fn lemma_update_map(old_e: Seq<(String, String)>, e: Seq<(String, String)>, i: int)
    requires
        unique_keys(old_e),
        unique_keys(e),
        0 <= i < e.len(),
        e.len() == old_e.len() || (e.len() == old_e.len() + 1 && i == old_e.len()),
        forall|j: int| 0 <= j < old_e.len() && j != i ==> e[j] == old_e[j],
        i < old_e.len() ==> old_e[i].0@ == e[i].0@,
    ensures
        entries_map(e) == entries_map(old_e).insert(e[i].0@, e[i].1@),
{
    let k = e[i].0@;
    let m = entries_map(old_e).insert(k, e[i].1@);
    let v = entries_map(e);
    lemma_entry_in_map(e, i);
    assert forall|k2: Seq<char>| #[trigger] v.contains_key(k2) <==> m.contains_key(k2) by {
        if k2 != k {
            if v.contains_key(k2) {
                let j = choose|j: int| #[trigger] key_at(e, j, k2);
                assert(key_at(old_e, j, k2));
            }
            if entries_map(old_e).contains_key(k2) {
                let j = choose|j: int| #[trigger] key_at(old_e, j, k2);
                assert(key_at(e, j, k2));
            }
        }
    }
    assert forall|k2: Seq<char>| #[trigger] v.contains_key(k2) implies v[k2] == m[k2] by {
        if k2 != k {
            let j = choose|j: int| #[trigger] key_at(e, j, k2);
            lemma_entry_in_map(e, j);
            lemma_entry_in_map(old_e, j);
        }
    }
    assert(v =~= m);
}

/// A table from string keys to string values that keeps the order in which
/// keys were first added.
#[derive(Debug)]
pub struct KeyedTable {
    entries: Vec<(String, String)>,
}

impl View for KeyedTable {
    type V = Map<Seq<char>, Seq<char>>;

    closed spec fn view(&self) -> Map<Seq<char>, Seq<char>> {
        entries_map(self.entries@)
    }
}

impl KeyedTable {
    #[verifier::type_invariant]
    spec fn inv(&self) -> bool {
        unique_keys(self.entries@)
    }

    /// The keys, each once, in the order in which they were first added.
    pub closed spec fn key_order(&self) -> Seq<Seq<char>> {
        entries_keys(self.entries@)
    }

    pub fn new() -> (r: KeyedTable)
        ensures
            r@ == Map::<Seq<char>, Seq<char>>::empty(),
            r.key_order() == Seq::<Seq<char>>::empty(),
    {
        let r = KeyedTable { entries: Vec::new() };
        assert(r@ =~= Map::<Seq<char>, Seq<char>>::empty());
        assert(r.key_order() =~= Seq::<Seq<char>>::empty());
        r
    }

    /// The number of keys; `key_order` lists exactly the keys of the map, each once.
    pub fn len(&self) -> (r: usize)
        ensures
            r == self.key_order().len(),
            self.key_order().no_duplicates(),
            forall|k: Seq<char>| #[trigger]
                self@.contains_key(k) <==> self.key_order().contains(k),
    {
        proof {
            use_type_invariant(self);
            let e = self.entries@;
            assert forall|k: Seq<char>| #[trigger]
                self@.contains_key(k) <==> self.key_order().contains(k) by {
                if self@.contains_key(k) {
                    let i = choose|i: int| #[trigger] key_at(e, i, k);
                    assert(self.key_order()[i] == k);
                }
                if self.key_order().contains(k) {
                    let i = choose|i: int|
                        0 <= i < self.key_order().len() && self.key_order()[i] == k;
                    assert(key_at(e, i, k));
                }
            }
            assert forall|i: int, j: int|
                0 <= i < self.key_order().len() && 0 <= j < self.key_order().len() && i != j
                implies self.key_order()[i] != self.key_order()[j] by {
                assert(e[i].0@ != e[j].0@);
            }
        }
        self.entries.len()
    }

    fn position(&self, key: &str) -> (r: Option<usize>)
        ensures
            match r {
                Some(i) => i < self.entries@.len() && self.entries@[i as int].0@ == key@,
                None => !self@.contains_key(key@),
            },
    {
        let mut i: usize = 0;
        while i < self.entries.len()
            invariant
                i <= self.entries@.len(),
                forall|j: int| 0 <= j < i ==> self.entries@[j].0@ != key@,
            decreases self.entries@.len() - i,
        {
            if self.entries[i].0 == key.to_owned() {
                return Some(i);
            }
            i = i + 1;
        }
        None
    }

    pub fn contains_key(&self, key: &str) -> (r: bool)
        ensures
            r == self@.contains_key(key@),
    {
        proof {
            use_type_invariant(self);
        }
        match self.position(key) {
            Some(i) => {
                proof {
                    lemma_entry_in_map(self.entries@, i as int);
                }
                true
            },
            None => false,
        }
    }

    pub fn get(&self, key: &str) -> (r: Option<&String>)
        ensures
            r is Some <==> self@.contains_key(key@),
            r is Some ==> r->0@ == self@[key@],
    {
        proof {
            use_type_invariant(self);
        }
        match self.position(key) {
            Some(i) => {
                proof {
                    lemma_entry_in_map(self.entries@, i as int);
                }
                Some(&self.entries[i].1)
            },
            None => None,
        }
    }

    /// The `i`-th key in `key_order`, with its value.
    pub fn entry(&self, i: usize) -> (r: (&String, &String))
        requires
            i < self.key_order().len(),
        ensures
            r.0@ == self.key_order()[i as int],
            self@.contains_key(r.0@),
            self@[r.0@] == r.1@,
    {
        proof {
            use_type_invariant(self);
            lemma_entry_in_map(self.entries@, i as int);
        }
        (&self.entries[i].0, &self.entries[i].1)
    }

    /// Binds `key` to `value`: a new key goes last in `key_order`, a known one keeps its place.
    pub fn insert(&mut self, key: String, value: String)
        ensures
            final(self)@ == old(self)@.insert(key@, value@),
            old(self)@.contains_key(key@) ==> final(self).key_order() == old(self).key_order(),
            !old(self)@.contains_key(key@) ==> final(self).key_order() == old(self).key_order().push(
                key@,
            ),
    {
        proof {
            use_type_invariant(&*self);
        }
        let ghost old_e = self.entries@;
        let found = self.position(key.as_str());
        let mut taken = KeyedTable::new();
        core::mem::swap(self, &mut taken);
        let KeyedTable { mut entries } = taken;
        match found {
            Some(i) => {
                proof {
                    lemma_entry_in_map(old_e, i as int);
                }
                entries.set(i, (key, value));
                proof {
                    let e = entries@;
                    assert(unique_keys(e)) by {
                        assert forall|a: int, b: int|
                            0 <= a < e.len() && 0 <= b < e.len() && a != b implies #[trigger] e[a].0@
                            != #[trigger] e[b].0@ by {
                            assert(old_e[a].0@ != old_e[b].0@);
                        }
                    }
                    lemma_update_map(old_e, e, i as int);
                    assert(entries_keys(e) =~= entries_keys(old_e));
                }
                *self = KeyedTable { entries };
            },
            None => {
                entries.push((key, value));
                proof {
                    let e = entries@;
                    assert(unique_keys(e)) by {
                        assert forall|a: int, b: int|
                            0 <= a < e.len() && 0 <= b < e.len() && a != b implies #[trigger] e[a].0@
                            != #[trigger] e[b].0@ by {
                            if a < old_e.len() && b < old_e.len() {
                                assert(old_e[a].0@ != old_e[b].0@);
                            } else if a < old_e.len() {
                                assert(key_at(old_e, a, e[a].0@));
                            } else {
                                assert(key_at(old_e, b, e[b].0@));
                            }
                        }
                    }
                    lemma_update_map(old_e, e, e.len() - 1);
                    assert(entries_keys(e) =~= entries_keys(old_e).push(e.last().0@));
                }
                *self = KeyedTable { entries };
            },
        }
    }

    /// Drops `key` and its value; the other keys keep their order.
    pub fn remove(&mut self, key: &str)
        ensures
            final(self)@ == old(self)@.remove(key@),
            !old(self)@.contains_key(key@) ==> final(self).key_order() == old(self).key_order(),
    {
        proof {
            use_type_invariant(&*self);
        }
        let ghost old_e = self.entries@;
        match self.position(key) {
            Some(i) => {
                let mut taken = KeyedTable::new();
                core::mem::swap(self, &mut taken);
                let KeyedTable { mut entries } = taken;
                entries.remove(i);
                proof {
                    lemma_entry_in_map(old_e, i as int);
                    let e = entries@;
                    let v = entries_map(e);
                    assert(forall|j: int| 0 <= j < i ==> e[j] == old_e[j]);
                    assert(forall|j: int| i <= j < e.len() ==> e[j] == old_e[j + 1]);
                    assert(unique_keys(e)) by {
                        assert forall|a: int, b: int|
                            0 <= a < e.len() && 0 <= b < e.len() && a != b implies #[trigger] e[a].0@
                            != #[trigger] e[b].0@ by {
                            let a2 = if a < i { a } else { a + 1 };
                            let b2 = if b < i { b } else { b + 1 };
                            assert(old_e[a2].0@ != old_e[b2].0@);
                        }
                    }
                    let m = entries_map(old_e).remove(key@);
                    assert forall|k2: Seq<char>| #[trigger]
                        v.contains_key(k2) <==> m.contains_key(k2) by {
                        if v.contains_key(k2) {
                            let j = choose|j: int| #[trigger] key_at(e, j, k2);
                            let j2 = if j < i { j } else { j + 1 };
                            assert(key_at(old_e, j2, k2));
                            assert(old_e[j2].0@ != old_e[i as int].0@);
                        }
                        if m.contains_key(k2) {
                            let j = choose|j: int| #[trigger] key_at(old_e, j, k2);
                            assert(j != i);
                            let j2 = if j < i { j } else { j - 1 };
                            assert(key_at(e, j2, k2));
                        }
                    }
                    assert forall|k2: Seq<char>| #[trigger]
                        v.contains_key(k2) implies v[k2] == m[k2] by {
                        let j = choose|j: int| #[trigger] key_at(e, j, k2);
                        let j2 = if j < i { j } else { j + 1 };
                        lemma_entry_in_map(e, j);
                        lemma_entry_in_map(old_e, j2);
                        assert(old_e[j2].0@ != old_e[i as int].0@);
                    }
                    assert(v =~= m);
                }
                *self = KeyedTable { entries };
            },
            None => {
                assert(old(self)@.remove(key@) =~= old(self)@);
            },
        }
    }
}

} // verus!
