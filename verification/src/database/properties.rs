//! The free-form properties of an entry: a map from names to values, kept
//! as a list of pairs in ascending order of their names.

use crate::text::{lemma_lex_irreflexive, lemma_lex_total, lemma_lex_transitive, lex_lt, str_less};
use vstd::prelude::*;

verus! {

/// A list of name and value texts.
pub type Pairs = Seq<(Seq<char>, Seq<char>)>;

/// Every name is less than each later one, so no name occurs twice.
pub open spec fn names_ascending(s: Pairs) -> bool {
    forall|i: int, j: int| 0 <= i < j < s.len() ==> lex_lt(#[trigger] s[i].0, #[trigger] s[j].0)
}

/// Whether some pair of `s` has the name `name`.
pub open spec fn has_name(s: Pairs, name: Seq<char>) -> bool {
    exists|i: int| 0 <= i < s.len() && #[trigger] s[i].0 == name
}

/// An index at which `s` holds the name `name`, where it holds it.
pub open spec fn index_of(s: Pairs, name: Seq<char>) -> int {
    choose|i: int| 0 <= i < s.len() && #[trigger] s[i].0 == name
}

/// The value that `s` gives to `name`, if it gives one.
pub open spec fn value_of(s: Pairs, name: Seq<char>) -> Option<Seq<char>> {
    if has_name(s, name) {
        Some(s[index_of(s, name)].1)
    } else {
        None
    }
}

/// In a list with ascending names, a name found at an index has the value
/// found there.
pub proof fn lemma_value_at(s: Pairs, i: int)
    requires
        names_ascending(s),
        0 <= i < s.len(),
    ensures
        has_name(s, s[i].0),
        value_of(s, s[i].0) == Some(s[i].1),
{
    let name = s[i].0;
    assert(s[i].0 == name);
    assert(has_name(s, name));
    let k = index_of(s, name);
    assert(0 <= k < s.len() && s[k].0 == name);
    if k < i {
        assert(lex_lt(s[k].0, s[i].0));
        lemma_lex_irreflexive(name);
    } else if k > i {
        assert(lex_lt(s[i].0, s[k].0));
        lemma_lex_irreflexive(name);
    }
}

/// The properties of an entry. No name occurs twice, and the pairs are
/// listed in ascending order of their names.
#[derive(Debug, PartialEq, Eq)]
pub struct Properties {
    pairs: Vec<(String, String)>,
}

/// The texts of a list of pairs of strings.
pub open spec fn pair_texts(v: Seq<(String, String)>) -> Pairs {
    Seq::new(v.len(), |i: int| (v[i].0@, v[i].1@))
}

impl View for Properties {
    type V = Pairs;

    closed spec fn view(&self) -> Pairs {
        pair_texts(self.pairs@)
    }
}

impl Properties {
    #[verifier::type_invariant]
    spec fn ascending(self) -> bool {
        names_ascending(self@)
    }

    /// No properties.
    pub fn new() -> (r: Self)
        ensures
            r@.len() == 0,
    {
        Properties { pairs: Vec::new() }
    }

    /// The number of properties.
    pub fn len(&self) -> (r: usize)
        ensures
            r == self@.len(),
            names_ascending(self@),
    {
        proof {
            use_type_invariant(self);
        }
        self.pairs.len()
    }

    /// Whether there is no property.
    pub fn is_empty(&self) -> (r: bool)
        ensures
            r == (self@.len() == 0),
    {
        self.pairs.len() == 0
    }

    /// The name of the property at `index`, counted in ascending order of
    /// the names.
    pub fn key_at(&self, index: usize) -> (r: &String)
        requires
            index < self@.len(),
        ensures
            r@ == self@[index as int].0,
    {
        &self.pairs[index].0
    }

    /// The value of the property at `index`.
    pub fn value_at(&self, index: usize) -> (r: &String)
        requires
            index < self@.len(),
        ensures
            r@ == self@[index as int].1,
    {
        &self.pairs[index].1
    }

    /// The index of the first property whose name is not less than `name`.
    fn position(&self, name: &str) -> (r: usize)
        ensures
            r <= self@.len(),
            names_ascending(self@),
            forall|j: int| 0 <= j < r ==> lex_lt(self@[j].0, name@),
            forall|j: int| r <= j < self@.len() ==> !lex_lt(self@[j].0, name@),
    {
        proof {
            use_type_invariant(self);
        }
        let mut i: usize = 0;
        while i < self.pairs.len()
            invariant
                i <= self.pairs.len(),
                self.pairs@.len() == self@.len(),
                names_ascending(self@),
                forall|j: int| 0 <= j < i ==> lex_lt(self@[j].0, name@),
            decreases self.pairs.len() - i,
        {
            if !str_less(self.pairs[i].0.as_str(), name) {
                assert(self@[i as int].0 == self.pairs@[i as int].0@);
                assert forall|j: int| i <= j < self@.len() implies !lex_lt(self@[j].0, name@) by {
                    if j > i && lex_lt(self@[j].0, name@) {
                        lemma_lex_transitive(self@[i as int].0, self@[j].0, name@);
                    }
                }
                return i;
            }
            i = i + 1;
        }
        i
    }

    /// The value of the property `name`.
    pub fn get(&self, name: &str) -> (r: Option<&String>)
        ensures
            names_ascending(self@),
            match r {
                Some(value) => value_of(self@, name@) == Some(value@),
                None => value_of(self@, name@) is None,
            },
    {
        let pos = self.position(name);
        if pos < self.pairs.len() && !str_less(name, self.pairs[pos].0.as_str()) {
            proof {
                lemma_lex_total(self@[pos as int].0, name@);
                lemma_value_at(self@, pos as int);
            }
            Some(&self.pairs[pos].1)
        } else {
            proof {
                if has_name(self@, name@) {
                    let k = index_of(self@, name@);
                    lemma_lex_irreflexive(name@);
                    if k > pos {
                        lemma_lex_transitive(name@, self@[pos as int].0, self@[k].0);
                    }
                }
            }
            None
        }
    }

    /// Whether there is a property `name`.
    pub fn contains_key(&self, name: &str) -> (r: bool)
        ensures
            r == has_name(self@, name@),
    {
        self.get(name).is_some()
    }

    /// Gives the property `name` the value `value`, and returns the value it
    /// had before, if it had one. Every other property is kept.
    pub fn insert(&mut self, name: String, value: String) -> (r: Option<String>)
        ensures
            names_ascending(final(self)@),
            value_of(final(self)@, name@) == Some(value@),
            forall|other: Seq<char>|
                other != name@ ==> value_of(final(self)@, other) == value_of(old(self)@, other),
            match r {
                Some(before) => value_of(old(self)@, name@) == Some(before@)
                    && final(self)@.len() == old(self)@.len(),
                None => value_of(old(self)@, name@) is None
                    && final(self)@.len() == old(self)@.len() + 1,
            },
    {
        let pos = self.position(name.as_str());
        let ghost before = self@;
        let ghost key = name@;
        let ghost val = value@;
        if pos < self.pairs.len() && !str_less(name.as_str(), self.pairs[pos].0.as_str()) {
            proof {
                lemma_lex_total(before[pos as int].0, key);
                lemma_value_at(before, pos as int);
            }
            let previous = self.pairs[pos].1.clone();
            let mut pairs: Vec<(String, String)> = Vec::new();
            core::mem::swap(&mut self.pairs, &mut pairs);
            pairs[pos] = (name, value);
            proof {
                let after = pair_texts(pairs@);
                assert(after =~= before.update(pos as int, (key, val)));
                assert(names_ascending(after)) by {
                    assert forall|i: int, j: int| 0 <= i < j < after.len() implies lex_lt(
                        #[trigger] after[i].0,
                        #[trigger] after[j].0,
                    ) by {
                        assert(after[i].0 == before[i].0 && after[j].0 == before[j].0);
                    }
                }
                lemma_value_at(after, pos as int);
                assert forall|other: Seq<char>| other != key implies value_of(after, other)
                    == value_of(before, other) by {
                    lemma_same_elsewhere(before, after, pos as int, other);
                }
            }
            self.pairs = pairs;
            Some(previous)
        } else {
            proof {
                if has_name(before, key) {
                    let k = index_of(before, key);
                    lemma_lex_irreflexive(key);
                    if k > pos {
                        lemma_lex_transitive(key, before[pos as int].0, before[k].0);
                    }
                }
            }
            let mut pairs: Vec<(String, String)> = Vec::new();
            core::mem::swap(&mut self.pairs, &mut pairs);
            pairs.insert(pos, (name, value));
            proof {
                let after = pair_texts(pairs@);
                assert(after =~= before.insert(pos as int, (key, val)));
                assert(names_ascending(after)) by {
                    assert forall|i: int, j: int| 0 <= i < j < after.len() implies lex_lt(
                        #[trigger] after[i].0,
                        #[trigger] after[j].0,
                    ) by {
                        if j < pos {
                            assert(after[i] == before[i] && after[j] == before[j]);
                        } else if j == pos {
                            assert(after[i] == before[i]);
                        } else if i == pos {
                            if j - 1 > pos {
                                lemma_lex_transitive(key, before[pos as int].0, before[j - 1].0);
                            }
                        } else if i < pos {
                            assert(after[i] == before[i] && after[j] == before[j - 1]);
                        } else {
                            assert(after[i] == before[i - 1] && after[j] == before[j - 1]);
                        }
                    }
                }
                lemma_value_at(after, pos as int);
                assert forall|other: Seq<char>| other != key implies value_of(after, other)
                    == value_of(before, other) by {
                    lemma_same_after_insert(before, after, pos as int, other);
                }
            }
            self.pairs = pairs;
            None
        }
    }

    /// Replaces the value of the property at `index`.
    pub fn set_value_at(&mut self, index: usize, value: String)
        requires
            index < old(self)@.len(),
        ensures
            final(self)@ == old(self)@.update(index as int, (old(self)@[index as int].0, value@)),
    {
        proof {
            use_type_invariant(&*self);
        }
        let ghost before = self@;
        let name = self.pairs[index].0.clone();
        let ghost val = value@;
        let mut pairs: Vec<(String, String)> = Vec::new();
        core::mem::swap(&mut self.pairs, &mut pairs);
        pairs[index] = (name, value);
        proof {
            let after = pair_texts(pairs@);
            assert(after =~= before.update(index as int, (before[index as int].0, val)));
            assert forall|i: int, j: int| 0 <= i < j < after.len() implies lex_lt(
                #[trigger] after[i].0,
                #[trigger] after[j].0,
            ) by {
                assert(after[i].0 == before[i].0 && after[j].0 == before[j].0);
            }
        }
        self.pairs = pairs;
    }

}

impl Clone for Properties {
    /// An independent copy.
    fn clone(&self) -> (r: Self)
        ensures
            r@ == self@,
    {
        proof {
            use_type_invariant(self);
        }
        let mut pairs: Vec<(String, String)> = Vec::new();
        let mut i: usize = 0;
        while i < self.pairs.len()
            invariant
                i <= self.pairs.len(),
                pairs.len() == i,
                forall|j: int|
                    0 <= j < i ==> pairs@[j].0@ == self.pairs@[j].0@ && pairs@[j].1@
                        == self.pairs@[j].1@,
            decreases self.pairs.len() - i,
        {
            pairs.push((self.pairs[i].0.clone(), self.pairs[i].1.clone()));
            i = i + 1;
        }
        assert(pair_texts(pairs@) =~= self@);
        Properties { pairs }
    }
}

impl Properties {

    /// Whether both hold the same properties with the same values.
    pub fn same_as(&self, other: &Properties) -> (r: bool)
        ensures
            r == (self@ == other@),
    {
        if self.pairs.len() != other.pairs.len() {
            assert(self@.len() != other@.len());
            return false;
        }
        let mut i: usize = 0;
        while i < self.pairs.len()
            invariant
                i <= self.pairs.len(),
                self.pairs.len() == other.pairs.len(),
                forall|j: int| 0 <= j < i ==> self@[j] == other@[j],
            decreases self.pairs.len() - i,
        {
            if self.pairs[i].0 != other.pairs[i].0 || self.pairs[i].1 != other.pairs[i].1 {
                assert(self@[i as int] != other@[i as int]);
                return false;
            }
            i = i + 1;
        }
        assert(self@ =~= other@);
        true
    }
}

/// Replacing the pair at `pos` by one of the same name changes no other
/// name's value.
proof fn lemma_same_elsewhere(before: Pairs, after: Pairs, pos: int, other: Seq<char>)
    requires
        names_ascending(before),
        names_ascending(after),
        0 <= pos < before.len(),
        after == before.update(pos, after[pos]),
        after[pos].0 == before[pos].0,
        other != before[pos].0,
    ensures
        value_of(after, other) == value_of(before, other),
{
    if has_name(before, other) {
        let k = index_of(before, other);
        assert(after[k] == before[k]);
        lemma_value_at(before, k);
        lemma_value_at(after, k);
    } else if has_name(after, other) {
        let k = index_of(after, other);
        assert(before[k].0 == other);
    }
}

/// Inserting a pair at `pos` changes no other name's value.
proof fn lemma_same_after_insert(before: Pairs, after: Pairs, pos: int, other: Seq<char>)
    requires
        names_ascending(before),
        names_ascending(after),
        0 <= pos <= before.len(),
        after == before.insert(pos, after[pos]),
        other != after[pos].0,
    ensures
        value_of(after, other) == value_of(before, other),
{
    if has_name(before, other) {
        let k = index_of(before, other);
        let k2 = if k < pos { k } else { k + 1 };
        assert(after[k2] == before[k]);
        lemma_value_at(before, k);
        lemma_value_at(after, k2);
    } else if has_name(after, other) {
        let k = index_of(after, other);
        if k < pos {
            assert(before[k].0 == other);
        } else {
            assert(before[k - 1].0 == other);
        }
    }
}

} // verus!
