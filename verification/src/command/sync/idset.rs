//! A set of identifiers, kept as a list in ascending order.

use crate::database::tables::{
    id_values, ids_ascending, lemma_lists_ascending_unique, lists_ascending, sorted_ids,
};
use crate::database::types::ServiceId;
use vstd::prelude::*;

verus! {

/// A set of identifiers.
pub struct IdSet {
    ids: Vec<ServiceId>,
}

impl View for IdSet {
    type V = Set<u128>;

    closed spec fn view(&self) -> Set<u128> {
        id_values(self.ids@).to_set()
    }
}

impl IdSet {
    #[verifier::type_invariant]
    spec fn ordered(self) -> bool {
        ids_ascending(id_values(self.ids@))
    }

    /// The empty set.
    pub fn new() -> (r: Self)
        ensures
            r@ == Set::<u128>::empty(),
    {
        let r = IdSet { ids: Vec::new() };
        assert(r@ =~= Set::<u128>::empty());
        r
    }

    /// The index of the first member that is not below `id`.
    fn position(&self, id: ServiceId) -> (r: usize)
        ensures
            r <= self.ids@.len(),
            ids_ascending(id_values(self.ids@)),
            forall|j: int| 0 <= j < r ==> id_values(self.ids@)[j] < id@,
            forall|j: int| r <= j < self.ids@.len() ==> id_values(self.ids@)[j] >= id@,
    {
        proof {
            use_type_invariant(self);
        }
        let mut i: usize = 0;
        while i < self.ids.len()
            invariant
                i <= self.ids.len(),
                ids_ascending(id_values(self.ids@)),
                forall|j: int| 0 <= j < i ==> id_values(self.ids@)[j] < id@,
            decreases self.ids.len() - i,
        {
            if self.ids[i].value >= id.value {
                assert(id_values(self.ids@)[i as int] >= id@);
                assert forall|j: int| i <= j < self.ids@.len() implies id_values(self.ids@)[j]
                    >= id@ by {
                    if j > i {
                        assert(id_values(self.ids@)[i as int] < id_values(self.ids@)[j]);
                    }
                }
                return i;
            }
            assert(id_values(self.ids@)[i as int] < id@);
            i = i + 1;
        }
        i
    }

    /// Whether `id` is a member.
    pub fn contains(&self, id: ServiceId) -> (r: bool)
        ensures
            r == self@.contains(id@),
    {
        let pos = self.position(id);
        let ghost vals = id_values(self.ids@);
        if pos < self.ids.len() && self.ids[pos].value == id.value {
            assert(vals[pos as int] == id@);
            true
        } else {
            proof {
                if vals.contains(id@) {
                    let k = choose|k: int| 0 <= k < vals.len() && vals[k] == id@;
                    if k > pos {
                        assert(vals[pos as int] < vals[k]);
                    }
                }
            }
            false
        }
    }

    /// Makes `id` a member.
    pub fn insert(&mut self, id: ServiceId)
        ensures
            final(self)@ == old(self)@.insert(id@),
    {
        let pos = self.position(id);
        let ghost before = id_values(self.ids@);
        if pos < self.ids.len() && self.ids[pos].value == id.value {
            assert(before[pos as int] == id@);
            assert(self@ =~= self@.insert(id@));
            return ;
        }
        let mut ids: Vec<ServiceId> = Vec::new();
        core::mem::swap(&mut self.ids, &mut ids);
        ids.insert(pos, id);
        proof {
            let after = id_values(ids@);
            assert(after =~= before.insert(pos as int, id@));
            assert forall|i: int, j: int| 0 <= i < j < after.len() implies after[i] < after[j] by {
                let a = if i < pos { i } else { i - 1 };
                let b = if j < pos { j } else { j - 1 };
                if i != pos && j != pos {
                    assert(before[a] < before[b]);
                } else if i == pos {
                    assert(before[b] >= id@);
                    if b > pos {
                        assert(before[pos as int] < before[b]);
                    }
                } else {
                    assert(before[a] < id@);
                }
            }
            assert forall|x: u128| after.to_set().contains(x) <==> before.to_set().insert(
                id@,
            ).contains(x) by {
                if after.contains(x) {
                    let k = choose|k: int| 0 <= k < after.len() && after[k] == x;
                    if k < pos {
                        assert(before[k] == x);
                    } else if k > pos {
                        assert(before[k - 1] == x);
                    }
                }
                if before.contains(x) {
                    let k = choose|k: int| 0 <= k < before.len() && before[k] == x;
                    let k2 = if k < pos { k } else { k + 1 };
                    assert(after[k2] == x);
                }
                if x == id@ {
                    assert(after[pos as int] == x);
                }
            }
            assert(after.to_set() =~= before.to_set().insert(id@));
        }
        self.ids = ids;
    }

    /// Takes `id` out of the set.
    pub fn remove(&mut self, id: ServiceId)
        ensures
            final(self)@ == old(self)@.remove(id@),
    {
        let pos = self.position(id);
        let ghost before = id_values(self.ids@);
        if pos < self.ids.len() && self.ids[pos].value == id.value {
            let mut ids: Vec<ServiceId> = Vec::new();
            core::mem::swap(&mut self.ids, &mut ids);
            let _ = ids.remove(pos);
            proof {
                let after = id_values(ids@);
                assert(after =~= before.remove(pos as int));
                assert forall|i: int, j: int| 0 <= i < j < after.len() implies after[i]
                    < after[j] by {
                    let a = if i < pos { i } else { i + 1 };
                    let b = if j < pos { j } else { j + 1 };
                    assert(before[a] < before[b]);
                }
                assert forall|x: u128| after.to_set().contains(x) <==> before.to_set().remove(
                    id@,
                ).contains(x) by {
                    if after.contains(x) {
                        let k = choose|k: int| 0 <= k < after.len() && after[k] == x;
                        let k0 = if k < pos { k } else { k + 1 };
                        assert(before[k0] == x);
                        if k0 < pos {
                            assert(before[k0] < before[pos as int]);
                        } else {
                            assert(before[pos as int] < before[k0]);
                        }
                    }
                    if before.contains(x) && x != id@ {
                        let k = choose|k: int| 0 <= k < before.len() && before[k] == x;
                        let k2 = if k < pos { k } else { k - 1 };
                        assert(after[k2] == x);
                    }
                }
                assert(after.to_set() =~= before.to_set().remove(id@));
            }
            self.ids = ids;
        } else {
            proof {
                if before.contains(id@) {
                    let k = choose|k: int| 0 <= k < before.len() && before[k] == id@;
                    if k > pos {
                        assert(before[pos as int] < before[k]);
                    }
                }
                assert(self@ =~= self@.remove(id@));
            }
        }
    }

    /// Makes every identifier of `ids` a member.
    pub fn extend(&mut self, ids: &Vec<ServiceId>)
        ensures
            final(self)@ == old(self)@.union(id_values(ids@).to_set()),
    {
        let ghost all = id_values(ids@);
        let mut i: usize = 0;
        assert(self@ =~= old(self)@.union(all.take(0).to_set()));
        while i < ids.len()
            invariant
                i <= ids.len(),
                all == id_values(ids@),
                self@ == old(self)@.union(all.take(i as int).to_set()),
            decreases ids.len() - i,
        {
            self.insert(ids[i]);
            proof {
                let seen = all.take(i as int);
                let next = all.take(i + 1);
                assert(next =~= seen.push(all[i as int]));
                assert forall|x: u128| next.to_set().contains(x) <==> seen.to_set().insert(
                    all[i as int],
                ).contains(x) by {
                    if next.contains(x) {
                        let k = choose|k: int| 0 <= k < next.len() && next[k] == x;
                        if k < i {
                            assert(seen[k] == x);
                        }
                    }
                    if seen.contains(x) {
                        let k = choose|k: int| 0 <= k < seen.len() && seen[k] == x;
                        assert(next[k] == x);
                    }
                    if x == all[i as int] {
                        assert(next[i as int] == x);
                    }
                }
                assert(self@ =~= old(self)@.union(next.to_set()));
            }
            i = i + 1;
        }
        assert(all.take(i as int) =~= all);
    }

    /// Keeps the members that are members of `keep` too.
    pub fn retain(&mut self, keep: &IdSet)
        ensures
            final(self)@ == old(self)@.intersect(keep@),
    {
        let all = self.to_vec();
        let ghost vals = id_values(all@);
        let mut kept = IdSet::new();
        let mut i: usize = 0;
        assert(kept@ =~= vals.take(0).to_set().intersect(keep@));
        while i < all.len()
            invariant
                i <= all.len(),
                vals == id_values(all@),
                kept@ == vals.take(i as int).to_set().intersect(keep@),
            decreases all.len() - i,
        {
            let ghost before = kept@;
            let member = keep.contains(all[i]);
            if member {
                kept.insert(all[i]);
            }
            proof {
                let seen = vals.take(i as int);
                let next = vals.take(i + 1);
                assert(next =~= seen.push(vals[i as int]));
                assert forall|x: u128| next.to_set().contains(x) <==> (seen.to_set().contains(x)
                    || x == vals[i as int]) by {
                    if next.contains(x) {
                        let k = choose|k: int| 0 <= k < next.len() && next[k] == x;
                        if k < i {
                            assert(seen[k] == x);
                        }
                    }
                    if seen.contains(x) {
                        let k = choose|k: int| 0 <= k < seen.len() && seen[k] == x;
                        assert(next[k] == x);
                    }
                    if x == vals[i as int] {
                        assert(next[i as int] == x);
                    }
                }
                assert(kept@ =~= next.to_set().intersect(keep@));
            }
            i = i + 1;
        }
        proof {
            assert(vals.take(i as int) =~= vals);
            assert(vals.to_set() =~= old(self)@);
        }
        *self = kept;
    }

    /// The members in ascending order.
    pub fn to_vec(&self) -> (r: Vec<ServiceId>)
        ensures
            id_values(r@) == sorted_ids(self@),
            lists_ascending(id_values(r@), self@),
            self@.finite(),
            r@.len() == self@.len(),
    {
        proof {
            use_type_invariant(self);
        }
        let mut r: Vec<ServiceId> = Vec::new();
        let mut i: usize = 0;
        while i < self.ids.len()
            invariant
                i <= self.ids.len(),
                r.len() == i,
                forall|j: int| 0 <= j < i ==> r@[j] == self.ids@[j],
            decreases self.ids.len() - i,
        {
            r.push(self.ids[i]);
            i = i + 1;
        }
        proof {
            assert(r@ =~= self.ids@);
            lemma_lists_ascending_unique(id_values(r@), id_values(r@), self@);
            id_values(r@).unique_seq_to_set();
        }
        r
    }
}

} // verus!
