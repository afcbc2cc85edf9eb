//! The entry store: the entries by identifier and the index from tags to
//! identifiers, which every operation keeps consistent with the entries.

pub mod key_order;
pub mod laws;
pub mod properties;
pub mod tables;
pub mod tally;
pub mod types;

use crate::database::tables::{
    id_values, ids_ascending, ids_under, lemma_lists_ascending_unique, lists_ascending,
    sorted_ids, EntryTable, TagIndex, TagPair,
};
use crate::database::tally::{is_tally_of, tag_counts, tally};
use crate::database::types::{Entry, EntryView, ServiceId};
use crate::text::texts;
use vstd::prelude::*;

verus! {

/// The elements of `a` that `b` does not hold, in their order in `a`.
pub open spec fn without(a: Seq<Seq<char>>, b: Seq<Seq<char>>) -> Seq<Seq<char>> {
    a.filter(|x: Seq<char>| !b.contains(x))
}

/// `without(a, b)` holds exactly the elements of `a` that `b` does not hold.
pub proof fn lemma_without_contains(a: Seq<Seq<char>>, b: Seq<Seq<char>>, x: Seq<char>)
    ensures
        without(a, b).contains(x) <==> a.contains(x) && !b.contains(x),
    decreases a.len(),
{
    reveal(Seq::filter);
    let pred = |x: Seq<char>| !b.contains(x);
    if a.len() > 0 {
        let rest = a.drop_last();
        lemma_without_contains(rest, b, x);
        let sub = rest.filter(pred);
        if a.contains(x) {
            let k = choose|k: int| 0 <= k < a.len() && a[k] == x;
            if k < rest.len() {
                assert(rest[k] == x);
            }
        }
        if rest.contains(x) {
            let k = choose|k: int| 0 <= k < rest.len() && rest[k] == x;
            assert(a[k] == x);
        }
        if pred(a.last()) {
            let out = sub.push(a.last());
            assert(a.filter(pred) == out);
            if out.contains(x) {
                let k = choose|k: int| 0 <= k < out.len() && out[k] == x;
                if k < sub.len() {
                    assert(sub[k] == x);
                } else {
                    assert(a[a.len() - 1] == x);
                }
            }
            if sub.contains(x) {
                let k = choose|k: int| 0 <= k < sub.len() && sub[k] == x;
                assert(out[k] == x);
            }
            if x == a.last() {
                assert(out[out.len() - 1] == x);
                assert(a[a.len() - 1] == x);
            }
        } else {
            assert(a.filter(pred) == sub);
            if x == a.last() {
                assert(a[a.len() - 1] == x);
            }
        }
    }
}

/// The pairs of the tags `tags` with the identifier `id`.
pub open spec fn tag_pairs(tags: Seq<Seq<char>>, id: u128) -> Set<TagPair> {
    Set::new(|p: TagPair| p.1 == id && tags.contains(p.0))
}

/// The pairs that an index holds when it is consistent with `entries`: each
/// tag of each entry that is not removed, with the entry's identifier.
pub open spec fn indexed(entries: Map<u128, EntryView>) -> Set<TagPair> {
    Set::new(
        |p: TagPair|
            entries.contains_key(p.1) && !entries[p.1].is_removed() && entries[p.1].tags.contains(
                p.0,
            ),
    )
}

/// The tags of the entries under `ids`, one entry's tags after another's.
pub open spec fn flat_tags(entries: Map<u128, EntryView>, ids: Seq<u128>) -> Seq<Seq<char>>
    decreases ids.len(),
{
    if ids.len() == 0 {
        Seq::empty()
    } else {
        flat_tags(entries, ids.drop_last()) + entries[ids.last()].tags
    }
}

/// The tags that leave the index and the tags that enter it when `new` is
/// put in the place of `prior`.
pub open spec fn tag_changes(prior: Option<EntryView>, new: EntryView) -> (
    Seq<Seq<char>>,
    Seq<Seq<char>>,
) {
    match prior {
        None => if new.is_removed() {
            (Seq::empty(), Seq::empty())
        } else {
            (Seq::empty(), new.tags)
        },
        Some(old) => if old.is_removed() {
            if new.is_removed() {
                (Seq::empty(), Seq::empty())
            } else {
                (Seq::empty(), new.tags)
            }
        } else if new.is_removed() {
            (old.tags, Seq::empty())
        } else {
            (without(old.tags, new.tags), without(new.tags, old.tags))
        },
    }
}

/// What a store holds: the entries and the tag index.
pub struct StoreView {
    pub entries: Map<u128, EntryView>,
    pub index: Set<TagPair>,
}

impl StoreView {
    /// The store without entries.
    pub open spec fn empty() -> StoreView {
        StoreView { entries: Map::empty(), index: Set::empty() }
    }

    /// The index holds exactly the tags of the entries that are not removed.
    pub open spec fn consistent(self) -> bool {
        self.index == indexed(self.entries)
    }

    /// The entry under `id`.
    pub open spec fn get(self, id: u128) -> Option<EntryView> {
        if self.entries.contains_key(id) {
            Some(self.entries[id])
        } else {
            None
        }
    }

    /// The store after `entry` was put.
    pub open spec fn put(self, entry: EntryView) -> StoreView {
        let changes = tag_changes(self.get(entry.id), entry);
        StoreView {
            entries: self.entries.insert(entry.id, entry),
            index: self.index.difference(tag_pairs(changes.0, entry.id)).union(
                tag_pairs(changes.1, entry.id),
            ),
        }
    }

    /// The store after the entry under `id` was removed for good.
    pub open spec fn remove(self, id: u128) -> StoreView {
        match self.get(id) {
            Some(entry) => StoreView {
                entries: self.entries.remove(id),
                index: self.index.difference(tag_pairs(entry.tags, id)),
            },
            None => self,
        }
    }

    /// The identifiers of the entries, without those of the removed entries
    /// if `exclude_removed` is set.
    pub open spec fn listed(self, exclude_removed: bool) -> Set<u128> {
        if exclude_removed {
            Set::new(|id: u128| self.is_active(id))
        } else {
            self.entries.dom()
        }
    }

    /// The tags of the entries that are not removed, in ascending order of
    /// the entries' identifiers, each as often as an entry carries it.
    pub open spec fn active_tags(self) -> Seq<Seq<char>> {
        flat_tags(self.entries, sorted_ids(self.listed(true)))
    }

    /// Whether there is an entry under `id` that is not removed.
    pub open spec fn is_active(self, id: u128) -> bool {
        self.entries.contains_key(id) && !self.entries[id].is_removed()
    }

    /// The identifiers that a query for `tag` gives: those that the index
    /// holds with `tag` and whose entry is there and not removed.
    pub open spec fn tagged(self, tag: Seq<char>) -> Set<u128> {
        Set::new(|id: u128| self.index.contains((tag, id)) && self.is_active(id))
    }
}

/// What each entry of a list holds.
pub open spec fn entry_views(entries: Seq<Entry>) -> Seq<EntryView> {
    Seq::new(entries.len(), |i: int| entries[i]@)
}

/// The store after the entries of a list were put, one after the other.
pub open spec fn put_all(store: StoreView, entries: Seq<EntryView>) -> StoreView
    decreases entries.len(),
{
    if entries.len() == 0 {
        store
    } else {
        put_all(store, entries.drop_last()).put(entries.last())
    }
}

/// The elements of `a` that `b` does not hold, or `None` if there is none.
pub fn vec_diff(a: &Vec<String>, b: &Vec<String>) -> (r: Option<Vec<String>>)
    ensures
        match r {
            Some(diff) => diff@.len() > 0 && texts(diff@) == without(texts(a@), texts(b@)),
            None => without(texts(a@), texts(b@)).len() == 0,
        },
{
    let ghost pred = |x: Seq<char>| !texts(b@).contains(x);
    let mut diff: Vec<String> = Vec::new();
    let mut i: usize = 0;
    proof {
        reveal(Seq::filter);
        assert(texts(a@).take(0) =~= Seq::<Seq<char>>::empty());
        assert(texts(diff@) =~= texts(a@).take(0).filter(pred));
    }
    while i < a.len()
        invariant
            i <= a.len(),
            pred == (|x: Seq<char>| !texts(b@).contains(x)),
            texts(diff@) == texts(a@).take(i as int).filter(pred),
        decreases a.len() - i,
    {
        let ghost before = texts(diff@);
        let keep = !crate::text::contains_string(b, &a[i]);
        if keep {
            diff.push(a[i].clone());
        }
        proof {
            reveal(Seq::filter);
            let next = texts(a@).take(i + 1);
            assert(next.drop_last() =~= texts(a@).take(i as int));
            assert(next.last() == a@[i as int]@);
            if keep {
                assert(texts(diff@) =~= before.push(a@[i as int]@));
            } else {
                assert(texts(diff@) =~= before);
            }
        }
        i = i + 1;
    }
    assert(texts(a@).take(i as int) =~= texts(a@));
    if diff.len() > 0 {
        Some(diff)
    } else {
        None
    }
}

/// Takes `id` out of the index under each of `tags`.
pub fn shrink_tag_list(index: &mut TagIndex, id: ServiceId, tags: &Vec<String>)
    ensures
        final(index)@ == old(index)@.difference(tag_pairs(texts(tags@), id@)),
{
    let mut i: usize = 0;
    assert(texts(tags@).take(0) =~= Seq::<Seq<char>>::empty());
    assert(index@ =~= old(index)@.difference(tag_pairs(texts(tags@).take(0), id@)));
    while i < tags.len()
        invariant
            i <= tags.len(),
            index@ == old(index)@.difference(tag_pairs(texts(tags@).take(i as int), id@)),
        decreases tags.len() - i,
    {
        let ghost before = index@;
        index.remove(&tags[i], id);
        proof {
            let seen = texts(tags@).take(i as int);
            let next = texts(tags@).take(i + 1);
            assert(next =~= seen.push(tags@[i as int]@));
            assert forall|p: TagPair| tag_pairs(next, id@).contains(p) <==> (tag_pairs(
                seen,
                id@,
            ).contains(p) || p == (tags@[i as int]@, id@)) by {
                lemma_push_contains(seen, tags@[i as int]@, p.0);
            }
            assert(index@ =~= old(index)@.difference(tag_pairs(next, id@)));
        }
        i = i + 1;
    }
    assert(texts(tags@).take(i as int) =~= texts(tags@));
}

/// Puts `id` into the index under each of `tags`.
pub fn expand_tag_list(index: &mut TagIndex, id: ServiceId, tags: &Vec<String>)
    ensures
        final(index)@ == old(index)@.union(tag_pairs(texts(tags@), id@)),
{
    let mut i: usize = 0;
    assert(texts(tags@).take(0) =~= Seq::<Seq<char>>::empty());
    assert(index@ =~= old(index)@.union(tag_pairs(texts(tags@).take(0), id@)));
    while i < tags.len()
        invariant
            i <= tags.len(),
            index@ == old(index)@.union(tag_pairs(texts(tags@).take(i as int), id@)),
        decreases tags.len() - i,
    {
        index.insert(tags[i].clone(), id);
        proof {
            let seen = texts(tags@).take(i as int);
            let next = texts(tags@).take(i + 1);
            assert(next =~= seen.push(tags@[i as int]@));
            assert forall|p: TagPair| tag_pairs(next, id@).contains(p) <==> (tag_pairs(
                seen,
                id@,
            ).contains(p) || p == (tags@[i as int]@, id@)) by {
                lemma_push_contains(seen, tags@[i as int]@, p.0);
            }
            assert(index@ =~= old(index)@.union(tag_pairs(next, id@)));
        }
        i = i + 1;
    }
    assert(texts(tags@).take(i as int) =~= texts(tags@));
}

/// A list with one more element holds what it held before, and that element.
proof fn lemma_push_contains(s: Seq<Seq<char>>, last: Seq<char>, x: Seq<char>)
    ensures
        s.push(last).contains(x) <==> (s.contains(x) || x == last),
{
    let t = s.push(last);
    if t.contains(x) {
        let k = choose|k: int| 0 <= k < t.len() && t[k] == x;
        if k < s.len() {
            assert(s[k] == x);
        }
    }
    if s.contains(x) {
        let k = choose|k: int| 0 <= k < s.len() && s[k] == x;
        assert(t[k] == x);
    }
    if x == last {
        assert(t[t.len() - 1] == x);
    }
}

/// The tags to take out of the index and the tags to put into it when
/// `new` is put in the place of `prior`.
pub fn changed_tags(prior: Option<&Entry>, new: &Entry) -> (r: (Vec<String>, Vec<String>))
    ensures
        texts(r.0@) == tag_changes(
            match prior {
                Some(old) => Some(old@),
                None => None,
            },
            new@,
        ).0,
        texts(r.1@) == tag_changes(
            match prior {
                Some(old) => Some(old@),
                None => None,
            },
            new@,
        ).1,
{
    let mut dropped: Vec<String> = Vec::new();
    let mut added: Vec<String> = Vec::new();
    assert(texts(dropped@) =~= Seq::<Seq<char>>::empty());
    let now_removed = new.is_removed();
    match prior {
        Some(existing) => {
            let was_removed = existing.is_removed();
            if was_removed && !now_removed {
                added = new.tags();
            } else if !was_removed && now_removed {
                dropped = existing.tags();
            } else if !was_removed {
                let a = existing.tags();
                let b = new.tags();
                match vec_diff(&a, &b) {
                    Some(diff) => {
                        dropped = diff;
                    },
                    None => {
                        assert(without(texts(a@), texts(b@)) =~= Seq::<Seq<char>>::empty());
                    },
                }
                match vec_diff(&b, &a) {
                    Some(diff) => {
                        added = diff;
                    },
                    None => {
                        assert(without(texts(b@), texts(a@)) =~= Seq::<Seq<char>>::empty());
                    },
                }
            }
        },
        None => {
            if !now_removed {
                added = new.tags();
            }
        },
    }
    (dropped, added)
}

/// The two tables of a store. The index is consistent with the entries.
struct Tables {
    entries: EntryTable,
    tags: TagIndex,
}

impl View for Tables {
    type V = StoreView;

    closed spec fn view(&self) -> StoreView {
        StoreView { entries: self.entries@, index: self.tags@ }
    }
}

impl Clone for Tables {
    fn clone(&self) -> (r: Self)
        ensures
            r@ == self@,
    {
        proof {
            use_type_invariant(self);
        }
        Tables { entries: self.entries.clone(), tags: self.tags.clone() }
    }
}

impl Tables {
    #[verifier::type_invariant]
    spec fn inv(self) -> bool {
        self@.consistent()
    }

    fn new() -> (r: Self)
        ensures
            r@ == StoreView::empty(),
    {
        proof {
            laws::lemma_empty_consistent();
        }
        Tables { entries: EntryTable::new(), tags: TagIndex::new() }
    }

    fn get(&self, id: &ServiceId) -> (r: Option<Entry>)
        ensures
            self@.consistent(),
            match r {
                Some(entry) => self@.get(id@) == Some(entry@),
                None => self@.get(id@) is None,
            },
    {
        proof {
            use_type_invariant(self);
        }
        match self.entries.get(*id) {
            Some(entry) => Some(entry.clone()),
            None => None,
        }
    }

    fn all_service(&self) -> (r: Vec<ServiceId>)
        ensures
            lists_ascending(id_values(r@), self@.entries.dom()),
    {
        self.entries.ids()
    }

    /// Those of `ids` whose entry is there and not removed.
    fn keep_active(&self, ids: &Vec<ServiceId>) -> (r: Vec<ServiceId>)
        requires
            ids_ascending(id_values(ids@)),
        ensures
            lists_ascending(
                id_values(r@),
                Set::new(|id: u128| id_values(ids@).contains(id) && self@.is_active(id)),
            ),
    {
        let ghost all = id_values(ids@);
        let mut filtered: Vec<ServiceId> = Vec::new();
        let mut i: usize = 0;
        while i < ids.len()
            invariant
                i <= ids.len(),
                all == id_values(ids@),
                ids_ascending(all),
                ids_ascending(id_values(filtered@)),
                forall|k: int|
                    0 <= k < filtered@.len() ==> self@.is_active(#[trigger] id_values(filtered@)[k])
                        && all.take(i as int).contains(id_values(filtered@)[k]),
                forall|j: int|
                    0 <= j < i && self@.is_active(#[trigger] all[j]) ==> id_values(
                        filtered@,
                    ).contains(all[j]),
            decreases ids.len() - i,
        {
            let id = ids[i];
            assert(all[i as int] == id@);
            let active = match self.entries.get(id) {
                Some(entry) => !entry.is_removed(),
                None => false,
            };
            let ghost prev = id_values(filtered@);
            if active {
                filtered.push(id);
            }
            proof {
                let next = id_values(filtered@);
                let seen = all.take(i as int);
                let seen2 = all.take(i + 1);
                if active {
                    assert(next =~= prev.push(id@));
                    assert forall|a: int, b: int| 0 <= a < b < next.len() implies next[a]
                        < next[b] by {
                        if b == next.len() - 1 {
                            assert(seen.contains(prev[a]));
                            let j = choose|j: int| 0 <= j < seen.len() && seen[j] == prev[a];
                            assert(all[j] < all[i as int]);
                        } else {
                            assert(prev[a] < prev[b]);
                        }
                    }
                } else {
                    assert(next =~= prev);
                }
                assert forall|k: int| 0 <= k < next.len() implies self@.is_active(
                    #[trigger] next[k],
                ) && seen2.contains(next[k]) by {
                    if k < prev.len() {
                        assert(seen.contains(prev[k]));
                        let j = choose|j: int| 0 <= j < seen.len() && seen[j] == prev[k];
                        assert(seen2[j] == next[k]);
                    } else {
                        assert(seen2[i as int] == next[k]);
                    }
                }
                assert forall|j: int| 0 <= j < i + 1 && self@.is_active(
                    #[trigger] all[j],
                ) implies next.contains(all[j]) by {
                    if j < i {
                        let k = choose|k: int| 0 <= k < prev.len() && prev[k] == all[j];
                        assert(next[k] == all[j]);
                    } else {
                        assert(next[next.len() - 1] == all[j]);
                    }
                }
            }
            i = i + 1;
        }
        proof {
            assert(all.take(i as int) =~= all);
            let out = id_values(filtered@);
            assert forall|id: u128| out.contains(id) <==> all.contains(id) && self@.is_active(
                id,
            ) by {
                if out.contains(id) {
                    let k = choose|k: int| 0 <= k < out.len() && out[k] == id;
                    assert(self@.is_active(out[k]));
                }
                if all.contains(id) && self@.is_active(id) {
                    let j = choose|j: int| 0 <= j < all.len() && all[j] == id;
                    assert(out.contains(all[j]));
                }
            }
        }
        filtered
    }

    fn all_service_filtered(&self, exclude_removed: bool) -> (r: Vec<ServiceId>)
        ensures
            lists_ascending(id_values(r@), self@.listed(exclude_removed)),
    {
        let ids = self.all_service();
        if !exclude_removed {
            return ids;
        }
        let ghost all = id_values(ids@);
        let r = self.keep_active(&ids);
        proof {
            assert forall|id: u128| #[trigger]
                id_values(r@).contains(id) <==> self@.listed(true).contains(id) by {
                assert(all.contains(id) <==> self@.entries.dom().contains(id));
            }
        }
        r
    }

    fn tagged_service(&self, tag: &str) -> (r: Vec<ServiceId>)
        ensures
            lists_ascending(id_values(r@), self@.tagged(tag@)),
    {
        let key = tag.to_owned();
        let ids = self.tags.get(&key);
        let ghost found = id_values(ids@);
        let r = self.keep_active(&ids);
        proof {
            assert forall|id: u128| #[trigger]
                id_values(r@).contains(id) <==> self@.tagged(tag@).contains(id) by {
                assert(found.contains(id) <==> ids_under(self.tags@, key@).contains(id));
            }
        }
        r
    }

    fn all_tags(&self) -> (r: Vec<(String, usize)>)
        ensures
            is_tally_of(tag_counts(r@), self@.active_tags()),
    {
        let ids = self.all_service_filtered(true);
        let ghost order = id_values(ids@);
        proof {
            lemma_lists_ascending_unique(order, order, self@.listed(true));
            assert forall|k: int| 0 <= k < order.len() implies self@.is_active(
                #[trigger] order[k],
            ) by {
                assert(order.contains(order[k]));
            }
        }
        let mut all: Vec<String> = Vec::new();
        let mut i: usize = 0;
        assert(order.take(0) =~= Seq::<u128>::empty());
        assert(texts(all@) =~= flat_tags(self@.entries, order.take(0)));
        while i < ids.len()
            invariant
                i <= ids.len(),
                order == id_values(ids@),
                forall|k: int| 0 <= k < order.len() ==> self@.is_active(#[trigger] order[k]),
                texts(all@) == flat_tags(self@.entries, order.take(i as int)),
            decreases ids.len() - i,
        {
            let ghost before = texts(all@);
            let ghost id = order[i as int];
            assert(self@.is_active(id));
            assert(id == ids@[i as int]@);
            match self.entries.get(ids[i]) {
                Some(entry) => {
                    let mut tags = entry.tags();
                    let ghost added = texts(tags@);
                    all.append(&mut tags);
                    proof {
                        assert(texts(all@) =~= before + added);
                        assert(order.take(i + 1).drop_last() =~= order.take(i as int));
                        assert(order.take(i + 1).last() == id);
                    }
                },
                None => {
                    assert(false);
                },
            }
            i = i + 1;
        }
        assert(order.take(i as int) =~= order);
        tally(&all)
    }

    fn put(&mut self, entry: &Entry)
        ensures
            final(self)@ == old(self)@.put(entry@),
            final(self)@.consistent(),
    {
        proof {
            use_type_invariant(&*self);
        }
        let ghost before = self@;
        let id = entry.id();
        let changes = changed_tags(self.entries.get(id), entry);
        let mut tables = Tables::new();
        core::mem::swap(self, &mut tables);
        let Tables { entries: mut entries, tags: mut tags } = tables;
        shrink_tag_list(&mut tags, id, &changes.0);
        expand_tag_list(&mut tags, id, &changes.1);
        entries.insert(entry.clone());
        proof {
            laws::lemma_put_consistent(before, entry@);
        }
        *self = Tables { entries, tags };
    }

    fn remove(&mut self, id: &ServiceId)
        ensures
            final(self)@ == old(self)@.remove(id@),
            final(self)@.consistent(),
    {
        proof {
            use_type_invariant(&*self);
        }
        let ghost before = self@;
        let tags_of_entry = match self.entries.get(*id) {
            Some(entry) => entry.tags(),
            None => {
                return ;
            },
        };
        let mut tables = Tables::new();
        core::mem::swap(self, &mut tables);
        let Tables { entries: mut entries, tags: mut tags } = tables;
        shrink_tag_list(&mut tags, *id, &tags_of_entry);
        entries.remove(*id);
        proof {
            laws::lemma_remove_consistent(before, id@);
        }
        *self = Tables { entries, tags };
    }
}

/// A read transaction: a snapshot of the store.
pub struct EntryReader {
    tnx: Tables,
}

impl View for EntryReader {
    type V = StoreView;

    closed spec fn view(&self) -> StoreView {
        self.tnx@
    }
}

impl EntryReader {
    /// The entry under `id`.
    pub fn get(&self, id: &ServiceId) -> (r: Option<Entry>)
        ensures
            self@.consistent(),
            match r {
                Some(entry) => self@.get(id@) == Some(entry@),
                None => self@.get(id@) is None,
            },
    {
        self.tnx.get(id)
    }

    /// The identifiers of all entries, removed or not, in ascending order.
    pub fn all_service(&self) -> (r: Vec<ServiceId>)
        ensures
            lists_ascending(id_values(r@), self@.entries.dom()),
    {
        self.tnx.all_service()
    }

    /// The identifiers of all entries in ascending order, without those of
    /// the removed entries if `exclude_removed` is set.
    pub fn all_service_filtered(&self, exclude_removed: bool) -> (r: Vec<ServiceId>)
        ensures
            lists_ascending(id_values(r@), self@.listed(exclude_removed)),
    {
        self.tnx.all_service_filtered(exclude_removed)
    }

    /// Each tag that an entry that is not removed carries, once, with the
    /// number of times it is carried.
    pub fn all_tags(&self) -> (r: Vec<(String, usize)>)
        ensures
            is_tally_of(tag_counts(r@), self@.active_tags()),
    {
        self.tnx.all_tags()
    }

    /// The identifiers that the index holds with `tag` and whose entry is
    /// there and not removed, in ascending order.
    pub fn tagged_service(&self, tag: &str) -> (r: Vec<ServiceId>)
        ensures
            lists_ascending(id_values(r@), self@.tagged(tag@)),
    {
        self.tnx.tagged_service(tag)
    }
}

/// A write transaction: a working copy of the store, which takes the
/// store's place when it is committed.
pub struct EntryWriter {
    tnx: Tables,
}

impl View for EntryWriter {
    type V = StoreView;

    closed spec fn view(&self) -> StoreView {
        self.tnx@
    }
}

impl EntryWriter {
    /// The entry under `id`.
    pub fn get(&self, id: &ServiceId) -> (r: Option<Entry>)
        ensures
            self@.consistent(),
            match r {
                Some(entry) => self@.get(id@) == Some(entry@),
                None => self@.get(id@) is None,
            },
    {
        self.tnx.get(id)
    }

    /// Puts `entry` under its identifier, in place of the entry that was
    /// there, and brings the index in line: the tags of an entry that is
    /// not removed are in the index, those of a removed entry are not, and
    /// between two entries that are not removed only the tags that one of
    /// them lacks are touched.
    pub fn put(&mut self, entry: &Entry)
        ensures
            final(self)@ == old(self)@.put(entry@),
            final(self)@.consistent(),
    {
        self.tnx.put(entry)
    }

    /// Removes the entry under `id` for good, with its tags in the index.
    /// Without such an entry nothing changes.
    pub fn remove(&mut self, id: &ServiceId)
        ensures
            final(self)@ == old(self)@.remove(id@),
            final(self)@.consistent(),
    {
        self.tnx.remove(id)
    }

    /// The identifiers of all entries, removed or not, in ascending order.
    pub fn all_service(&self) -> (r: Vec<ServiceId>)
        ensures
            lists_ascending(id_values(r@), self@.entries.dom()),
    {
        self.tnx.all_service()
    }

    /// The identifiers of all entries in ascending order, without those of
    /// the removed entries if `exclude_removed` is set.
    pub fn all_service_filtered(&self, exclude_removed: bool) -> (r: Vec<ServiceId>)
        ensures
            lists_ascending(id_values(r@), self@.listed(exclude_removed)),
    {
        self.tnx.all_service_filtered(exclude_removed)
    }

    /// Each tag that an entry that is not removed carries, once, with the
    /// number of times it is carried.
    pub fn all_tags(&self) -> (r: Vec<(String, usize)>)
        ensures
            is_tally_of(tag_counts(r@), self@.active_tags()),
    {
        self.tnx.all_tags()
    }

    /// The identifiers that the index holds with `tag` and whose entry is
    /// there and not removed, in ascending order.
    pub fn tagged_service(&self, tag: &str) -> (r: Vec<ServiceId>)
        ensures
            lists_ascending(id_values(r@), self@.tagged(tag@)),
    {
        self.tnx.tagged_service(tag)
    }
}

/// The store. Reads and writes go through transactions: a read sees a
/// snapshot, and a write changes the store only when it is committed.
pub struct EntryManager {
    db: Tables,
}

impl View for EntryManager {
    type V = StoreView;

    closed spec fn view(&self) -> StoreView {
        self.db@
    }
}

impl EntryManager {
    /// A store with both tables empty.
    pub fn new() -> (r: Self)
        ensures
            r@ == StoreView::empty(),
    {
        EntryManager { db: Tables::new() }
    }

    /// The store that holds `entries`, put one after the other: the store as
    /// it is read back from the rows that were written out.
    pub fn restore(entries: &Vec<Entry>) -> (r: Self)
        ensures
            r@ == put_all(StoreView::empty(), entry_views(entries@)),
            r@.consistent(),
    {
        let mut db = Tables::new();
        let mut i: usize = 0;
        proof {
            laws::lemma_empty_consistent();
            assert(entry_views(entries@).take(0) =~= Seq::<EntryView>::empty());
        }
        while i < entries.len()
            invariant
                i <= entries.len(),
                db@ == put_all(StoreView::empty(), entry_views(entries@).take(i as int)),
                db@.consistent(),
            decreases entries.len() - i,
        {
            db.put(&entries[i]);
            proof {
                let all = entry_views(entries@);
                assert(all.take(i + 1).drop_last() =~= all.take(i as int));
                assert(all.take(i + 1).last() == entries@[i as int]@);
            }
            i = i + 1;
        }
        assert(entry_views(entries@).take(i as int) =~= entry_views(entries@));
        EntryManager { db }
    }

    /// Starts a read transaction on a snapshot of the store.
    pub fn begin_read(&self) -> (r: EntryReader)
        ensures
            r@ == self@,
            self@.consistent(),
    {
        proof {
            use_type_invariant(&self.db);
        }
        EntryReader { tnx: self.db.clone() }
    }

    /// Starts a write transaction on a working copy of the store.
    pub fn begin_write(&self) -> (r: EntryWriter)
        ensures
            r@ == self@,
            self@.consistent(),
    {
        proof {
            use_type_invariant(&self.db);
        }
        EntryWriter { tnx: self.db.clone() }
    }

    /// Ends a write transaction: the store becomes what the transaction
    /// made of its copy.
    pub fn commit(&mut self, writer: EntryWriter)
        ensures
            final(self)@ == writer@,
    {
        self.db = writer.tnx;
    }

    /// Puts `entry` in a write transaction of its own.
    pub fn put(&mut self, entry: &Entry)
        ensures
            final(self)@ == old(self)@.put(entry@),
            final(self)@.consistent(),
    {
        self.db.put(entry)
    }

    /// The entry under `id`.
    pub fn get(&self, id: &ServiceId) -> (r: Option<Entry>)
        ensures
            self@.consistent(),
            match r {
                Some(entry) => self@.get(id@) == Some(entry@),
                None => self@.get(id@) is None,
            },
    {
        self.db.get(id)
    }

    /// Removes the entry under `id` for good, in a write transaction of its
    /// own.
    pub fn remove(&mut self, id: &ServiceId)
        ensures
            final(self)@ == old(self)@.remove(id@),
            final(self)@.consistent(),
    {
        self.db.remove(id)
    }

    /// The identifiers of all entries, removed or not, in ascending order.
    pub fn all_service(&self) -> (r: Vec<ServiceId>)
        ensures
            lists_ascending(id_values(r@), self@.entries.dom()),
    {
        self.db.all_service()
    }

    /// The identifiers of all entries in ascending order, without those of
    /// the removed entries if `exclude_removed` is set.
    pub fn all_service_filtered(&self, exclude_removed: bool) -> (r: Vec<ServiceId>)
        ensures
            lists_ascending(id_values(r@), self@.listed(exclude_removed)),
    {
        self.db.all_service_filtered(exclude_removed)
    }

    /// Each tag that an entry that is not removed carries, once, with the
    /// number of times it is carried.
    pub fn all_tags(&self) -> (r: Vec<(String, usize)>)
        ensures
            is_tally_of(tag_counts(r@), self@.active_tags()),
    {
        self.db.all_tags()
    }

    /// The identifiers that the index holds with `tag` and whose entry is
    /// there and not removed, in ascending order.
    pub fn tagged_service(&self, tag: &str) -> (r: Vec<ServiceId>)
        ensures
            lists_ascending(id_values(r@), self@.tagged(tag@)),
    {
        self.db.tagged_service(tag)
    }

    /// Runs `f` in a read transaction and returns what it returns.
    pub fn with_read_transaction<F, T>(&self, f: F) -> (r: T) where F: FnOnce(&EntryReader) -> T
        requires
            forall|reader: EntryReader| reader@ == self@ ==> f.requires((&reader,)),
        ensures
            exists|reader: EntryReader| reader@ == self@ && f.ensures((&reader,), r),
    {
        let reader = self.begin_read();
        f(&reader)
    }

    /// Runs `f` in a write transaction, which is committed if `f` succeeds
    /// and abandoned, with all that it changed, if `f` fails. `f` takes the
    /// transaction and hands it back with its result.
    pub fn with_write_transaction<F, T, E>(&mut self, f: F) -> (r: Result<T, E>) where
        F: FnOnce(EntryWriter) -> (EntryWriter, Result<T, E>),

        requires
            forall|writer: EntryWriter| writer@ == old(self)@ ==> f.requires((writer,)),
        ensures
            exists|start: EntryWriter, end: EntryWriter|
                start@ == old(self)@ && #[trigger] f.ensures((start,), (end, r)) && final(self)@
                    == if r is Ok {
                    end@
                } else {
                    old(self)@
                },
    {
        let writer = self.begin_write();
        let ghost start = writer;
        let (writer, result) = f(writer);
        let ghost end = writer;
        match result {
            Ok(value) => {
                self.commit(writer);
                let r = Ok(value);
                assert(f.ensures((start,), (end, r)));
                r
            },
            Err(err) => {
                let r = Err(err);
                assert(f.ensures((start,), (end, r)));
                r
            },
        }
    }
}

} // verus!
