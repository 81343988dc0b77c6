//! The table of global variables: a map from names to slots.

use crate::objects::unique_keys;
use crate::stack::Slot;
use vstd::prelude::*;

verus! {

/// The map that a list of name and slot pairs with distinct names stands for.
pub open spec fn pairs_map(s: Seq<(String, Slot)>) -> Map<Seq<char>, Slot>
    decreases s.len(),
{
    if s.len() == 0 {
        Map::empty()
    } else {
        pairs_map(s.drop_last()).insert(s.last().0@, s.last().1)
    }
}

/// A name occurs in a list of pairs exactly where the map has it.
pub proof fn lemma_pairs_map_dom(s: Seq<(String, Slot)>, k: Seq<char>)
    ensures
        pairs_map(s).contains_key(k) <==> exists|i: int| 0 <= i < s.len() && s[i].0@ == k,
    decreases s.len(),
{
    if s.len() > 0 {
        lemma_pairs_map_dom(s.drop_last(), k);
        if pairs_map(s.drop_last()).contains_key(k) {
            let i = choose|i: int| 0 <= i < s.drop_last().len() && s.drop_last()[i].0@ == k;
            assert(s[i].0@ == k);
        }
        if exists|i: int| 0 <= i < s.len() && s[i].0@ == k {
            let i = choose|i: int| 0 <= i < s.len() && s[i].0@ == k;
            if i < s.len() - 1 {
                assert(s.drop_last()[i].0@ == k);
            }
        }
    }
}

/// In a list with distinct names, the map gives each name its slot.
pub proof fn lemma_pairs_map_index(s: Seq<(String, Slot)>, i: int)
    requires
        unique_keys(s),
        0 <= i < s.len(),
    ensures
        pairs_map(s).contains_key(s[i].0@),
        pairs_map(s)[s[i].0@] == s[i].1,
    decreases s.len(),
{
    if i < s.len() - 1 {
        assert(unique_keys(s.drop_last()));
        lemma_pairs_map_index(s.drop_last(), i);
        assert(s.drop_last()[i] == s[i]);
    }
}

/// The global variables by name.
#[derive(Debug)]
pub struct Globals {
    entries: Vec<(String, Slot)>,
}

impl View for Globals {
    type V = Map<Seq<char>, Slot>;

    closed spec fn view(&self) -> Map<Seq<char>, Slot> {
        pairs_map(self.entries@)
    }
}

impl Globals {
    #[verifier::type_invariant]
    spec fn inv(self) -> bool {
        unique_keys(self.entries@)
    }

    /// The names, in order of their first definition.
    pub closed spec fn names(&self) -> Seq<Seq<char>> {
        self.entries@.map_values(|e: (String, Slot)| e.0@)
    }

    /// Makes an empty table.
    pub fn new() -> (r: Globals)
        ensures
            r@ == Map::<Seq<char>, Slot>::empty(),
    {
        Globals { entries: Vec::new() }
    }

    /// Returns the slot of the name, if it is defined.
    pub fn get(&self, name: &str) -> (r: Option<&Slot>)
        ensures
            match r {
                Some(s) => self@.contains_key(name@) && self@[name@] == *s,
                None => !self@.contains_key(name@),
            },
    {
        proof {
            use_type_invariant(self);
        }
        let mut i: usize = 0;
        while i < self.entries.len()
            invariant
                i <= self.entries@.len(),
                unique_keys(self.entries@),
                forall|j: int| 0 <= j < i ==> self.entries@[j].0@ != name@,
            decreases self.entries@.len() - i,
        {
            if str_eq(self.entries[i].0.as_str(), name) {
                proof {
                    lemma_pairs_map_index(self.entries@, i as int);
                }
                return Some(&self.entries[i].1);
            }
            i = i + 1;
        }
        proof {
            lemma_pairs_map_dom(self.entries@, name@);
        }
        None
    }

    /// Returns whether the name is defined.
    pub fn contains_key(&self, name: &str) -> (r: bool)
        ensures
            r == self@.contains_key(name@),
    {
        self.get(name).is_some()
    }

    /// The name and slot pairs, each name once, in order of definition.
    pub fn into_pairs(self) -> (r: Vec<(String, Slot)>)
        ensures
            pairs_map(r@) == self@,
            unique_keys(r@),
    {
        proof {
            use_type_invariant(&self);
        }
        self.entries
    }

    /// The name and slot pairs, each name once, in order of definition.
    pub fn pairs(&self) -> (r: &Vec<(String, Slot)>)
        ensures
            pairs_map(r@) == self@,
            unique_keys(r@),
    {
        proof {
            use_type_invariant(self);
        }
        &self.entries
    }

    /// Defines the name, or gives it a new slot if it is defined.
    pub fn insert(&mut self, name: String, slot: Slot)
        ensures
            final(self)@ == old(self)@.insert(name@, slot),
    {
        proof {
            use_type_invariant(&*self);
        }
        let mut i: usize = 0;
        while i < self.entries.len()
            invariant
                i <= self.entries@.len(),
                self.entries@ == old(self).entries@,
                unique_keys(self.entries@),
                forall|j: int| 0 <= j < i ==> self.entries@[j].0@ != name@,
            decreases self.entries@.len() - i,
        {
            if self.entries[i].0 == name {
                let ghost before = self.entries@;
                let ghost newe = before.update(i as int, (name, slot));
                proof {
                    assert(unique_keys(newe)) by {
                        assert forall|a: int, b: int| 0 <= a < b < newe.len() implies newe[a].0@ != newe[b].0@ by {
                            if a != i && b != i {
                                assert(before[a].0@ != before[b].0@);
                            } else if a == i {
                                assert(before[a].0@ != before[b].0@);
                            } else {
                                assert(before[a].0@ != before[b].0@);
                            }
                        }
                    }
                    assert forall|k: Seq<char>| #![auto] pairs_map(newe).contains_key(k) == pairs_map(before).insert(name@, slot).contains_key(k) by {
                        lemma_pairs_map_dom(newe, k);
                        lemma_pairs_map_dom(before, k);
                        if exists|j: int| 0 <= j < before.len() && before[j].0@ == k {
                            let j = choose|j: int| 0 <= j < before.len() && before[j].0@ == k;
                            assert(newe[j].0@ == k);
                        }
                        if exists|j: int| 0 <= j < newe.len() && newe[j].0@ == k {
                            let j = choose|j: int| 0 <= j < newe.len() && newe[j].0@ == k;
                            if j != i {
                                assert(before[j].0@ == k);
                            }
                        }
                    }
                    assert forall|k: Seq<char>| #![auto] pairs_map(newe).contains_key(k) implies pairs_map(newe)[k] == pairs_map(before).insert(name@, slot)[k] by {
                        lemma_pairs_map_dom(newe, k);
                        let j = choose|j: int| 0 <= j < newe.len() && newe[j].0@ == k;
                        lemma_pairs_map_index(newe, j);
                        if j != i {
                            lemma_pairs_map_index(before, j);
                        }
                    }
                    assert(pairs_map(newe) =~= pairs_map(before).insert(name@, slot));
                }
                let mut taken = Globals::new();
                std::mem::swap(self, &mut taken);
                let Globals { mut entries } = taken;
                entries.set(i, (name, slot));
                *self = Globals { entries };
                return;
            }
            i = i + 1;
        }
        proof {
            lemma_pairs_map_dom(self.entries@, name@);
        }
        let ghost before = self.entries@;
        let mut taken = Globals::new();
                std::mem::swap(self, &mut taken);
                let Globals { mut entries } = taken;
        entries.push((name, slot));
        proof {
            assert(entries@.drop_last() == before);
            assert forall|a: int, b: int| 0 <= a < b < entries@.len() implies entries@[a].0@ != entries@[b].0@ by {
                if b == entries@.len() - 1 {
                    assert(before[a].0@ != name@);
                }
            }
        }
        *self = Globals { entries };
    }
}

/// Compares two strings.
pub fn str_eq(a: &str, b: &str) -> (r: bool)
    ensures
        r == (a@ == b@),
{
    let sa = String::from_str(a);
    let sb = String::from_str(b);
    sa == sb
}

} // verus!
