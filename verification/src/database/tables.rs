//! The two tables of the store: the entries by identifier, and the index
//! from tags to the identifiers of the entries that carry them.

use crate::database::types::{Entry, EntryView, ServiceId};
use vstd::prelude::*;

verus! {

/// Every number is less than each later one.
pub open spec fn ids_ascending(ids: Seq<u128>) -> bool {
    forall|i: int, j: int| 0 <= i < j < ids.len() ==> ids[i] < ids[j]
}

/// `ids` lists the members of `set` in ascending order, each of them once.
pub open spec fn lists_ascending(ids: Seq<u128>, set: Set<u128>) -> bool {
    &&& ids_ascending(ids)
    &&& forall|id: u128| #[trigger] ids.contains(id) <==> set.contains(id)
}

/// The members of a set of identifiers in ascending order.
pub open spec fn sorted_ids(set: Set<u128>) -> Seq<u128> {
    choose|ids: Seq<u128>| lists_ascending(ids, set)
}

/// Only one list gives the members of a set in ascending order.
pub proof fn lemma_lists_ascending_unique(a: Seq<u128>, b: Seq<u128>, set: Set<u128>)
    requires
        lists_ascending(a, set),
        lists_ascending(b, set),
    ensures
        a == b,
        a == sorted_ids(set),
    decreases a.len(),
{
    lemma_ascending_unique(a, b, set);
    lemma_ascending_unique(a, sorted_ids(set), set);
}

proof fn lemma_ascending_unique(a: Seq<u128>, b: Seq<u128>, set: Set<u128>)
    requires
        lists_ascending(a, set),
        lists_ascending(b, set),
    ensures
        a == b,
    decreases a.len(),
{
    if a.len() == 0 {
        if b.len() > 0 {
            assert(b.contains(b[0]));
            assert(a.contains(b[0]));
        }
        assert(a =~= b);
    } else {
        let top = a.last();
        assert(a.contains(a[a.len() - 1]));
        assert(b.contains(top));
        let kb = choose|k: int| 0 <= k < b.len() && b[k] == top;
        assert(b.contains(b[b.len() - 1]));
        assert(a.contains(b.last()));
        let ka = choose|k: int| 0 <= k < a.len() && a[k] == b.last();
        if ka < a.len() - 1 {
            assert(a[ka] < a[a.len() - 1]);
        }
        if kb < b.len() - 1 {
            assert(b[kb] < b[b.len() - 1]);
        }
        assert(b.last() == top);
        let rest = set.remove(top);
        let a0 = a.drop_last();
        let b0 = b.drop_last();
        assert forall|id: u128| #[trigger] a0.contains(id) <==> rest.contains(id) by {
            if a0.contains(id) {
                let k = choose|k: int| 0 <= k < a0.len() && a0[k] == id;
                assert(a[k] == id);
                assert(a.contains(id));
                assert(a[k] < a[a.len() - 1]);
            }
            if rest.contains(id) {
                assert(a.contains(id));
                let k = choose|k: int| 0 <= k < a.len() && a[k] == id;
                assert(a0[k] == id);
            }
        }
        assert forall|id: u128| #[trigger] b0.contains(id) <==> rest.contains(id) by {
            if b0.contains(id) {
                let k = choose|k: int| 0 <= k < b0.len() && b0[k] == id;
                assert(b[k] == id);
                assert(b.contains(id));
                assert(b[k] < b[b.len() - 1]);
            }
            if rest.contains(id) {
                assert(b.contains(id));
                let k = choose|k: int| 0 <= k < b.len() && b[k] == id;
                assert(b0[k] == id);
            }
        }
        lemma_ascending_unique(a0, b0, rest);
        assert(a =~= a0.push(top));
        assert(b =~= b0.push(top));
    }
}

/// The identifiers that a set of pairs holds with `tag`.
pub open spec fn ids_under(pairs: Set<(Seq<char>, u128)>, tag: Seq<char>) -> Set<u128> {
    Set::new(|id: u128| pairs.contains((tag, id)))
}

/// The values of a list of identifiers.
pub open spec fn id_values(ids: Seq<ServiceId>) -> Seq<u128> {
    Seq::new(ids.len(), |i: int| ids[i]@)
}

/// The identifier of each row.
spec fn row_ids(rows: Seq<Entry>) -> Seq<u128> {
    Seq::new(rows.len(), |i: int| rows[i]@.id)
}

/// Whether some row has the identifier `id`.
spec fn has_row(rows: Seq<Entry>, id: u128) -> bool {
    exists|i: int| 0 <= i < rows.len() && #[trigger] row_ids(rows)[i] == id
}

/// An index of a row with the identifier `id`.
spec fn row_of(rows: Seq<Entry>, id: u128) -> int {
    choose|i: int| 0 <= i < rows.len() && #[trigger] row_ids(rows)[i] == id
}

/// The map that the rows stand for.
spec fn rows_map(rows: Seq<Entry>) -> Map<u128, EntryView> {
    Map::new(|id: u128| has_row(rows, id), |id: u128| rows[row_of(rows, id)]@)
}

/// With ascending identifiers, the row found for an identifier is the one
/// that holds it.
proof fn lemma_row_of(rows: Seq<Entry>, i: int)
    requires
        ids_ascending(row_ids(rows)),
        0 <= i < rows.len(),
    ensures
        has_row(rows, rows[i]@.id),
        row_of(rows, rows[i]@.id) == i,
        rows_map(rows).contains_key(rows[i]@.id),
        rows_map(rows)[rows[i]@.id] == rows[i]@,
{
    let id = rows[i]@.id;
    assert(row_ids(rows)[i] == id);
    let k = row_of(rows, id);
    assert(0 <= k < rows.len() && row_ids(rows)[k] == id);
    if k < i {
        assert(row_ids(rows)[k] < row_ids(rows)[i]);
    } else if k > i {
        assert(row_ids(rows)[i] < row_ids(rows)[k]);
    }
}

/// The primary table: the entries, each under its identifier.
pub struct EntryTable {
    rows: Vec<Entry>,
}

impl View for EntryTable {
    type V = Map<u128, EntryView>;

    closed spec fn view(&self) -> Map<u128, EntryView> {
        rows_map(self.rows@)
    }
}

impl EntryTable {
    #[verifier::type_invariant]
    spec fn ordered(self) -> bool {
        ids_ascending(row_ids(self.rows@))
    }

    /// An empty table.
    pub fn new() -> (r: Self)
        ensures
            r@ == Map::<u128, EntryView>::empty(),
    {
        let r = EntryTable { rows: Vec::new() };
        assert(r@ =~= Map::<u128, EntryView>::empty());
        r
    }

    /// The number of entries.
    pub fn len(&self) -> (r: usize)
        ensures
            r == self@.dom().len(),
            self@.dom().finite(),
    {
        proof {
            use_type_invariant(self);
            lemma_rows_dom(self.rows@);
        }
        self.rows.len()
    }

    /// The index of the first row whose identifier is not below `id`.
    fn position(&self, id: ServiceId) -> (r: usize)
        ensures
            r <= self.rows@.len(),
            ids_ascending(row_ids(self.rows@)),
            forall|j: int| 0 <= j < r ==> row_ids(self.rows@)[j] < id@,
            forall|j: int| r <= j < self.rows@.len() ==> row_ids(self.rows@)[j] >= id@,
    {
        proof {
            use_type_invariant(self);
        }
        let mut i: usize = 0;
        while i < self.rows.len()
            invariant
                i <= self.rows.len(),
                ids_ascending(row_ids(self.rows@)),
                forall|j: int| 0 <= j < i ==> row_ids(self.rows@)[j] < id@,
            decreases self.rows.len() - i,
        {
            if self.rows[i].id().value >= id.value {
                assert(row_ids(self.rows@)[i as int] >= id@);
                assert forall|j: int| i <= j < self.rows@.len() implies row_ids(self.rows@)[j]
                    >= id@ by {
                    if j > i {
                        assert(row_ids(self.rows@)[i as int] < row_ids(self.rows@)[j]);
                    }
                }
                return i;
            }
            assert(row_ids(self.rows@)[i as int] < id@);
            i = i + 1;
        }
        i
    }

    /// The entry under `id`.
    pub fn get(&self, id: ServiceId) -> (r: Option<&Entry>)
        ensures
            match r {
                Some(entry) => self@.contains_key(id@) && self@[id@] == entry@,
                None => !self@.contains_key(id@),
            },
    {
        let pos = self.position(id);
        if pos < self.rows.len() && self.rows[pos].id().value == id.value {
            proof {
                lemma_row_of(self.rows@, pos as int);
            }
            Some(&self.rows[pos])
        } else {
            proof {
                if has_row(self.rows@, id@) {
                    let k = row_of(self.rows@, id@);
                    assert(row_ids(self.rows@)[k] == id@);
                    if k > pos {
                        assert(row_ids(self.rows@)[pos as int] < row_ids(self.rows@)[k]);
                    }
                }
            }
            None
        }
    }

    /// Puts `entry` under its identifier, in place of the entry that was
    /// there, if one was.
    pub fn insert(&mut self, entry: Entry)
        ensures
            final(self)@ == old(self)@.insert(entry@.id, entry@),
    {
        let id = entry.id();
        let pos = self.position(id);
        let ghost before = self.rows@;
        let ghost added = entry@;
        let mut rows: Vec<Entry> = Vec::new();
        core::mem::swap(&mut self.rows, &mut rows);
        if pos < rows.len() && rows[pos].id().value == id.value {
            rows[pos] = entry;
            proof {
                let after = rows@;
                assert(row_ids(after) =~= row_ids(before));
                assert forall|k: u128| #[trigger]
                    rows_map(after).contains_key(k) == rows_map(before).insert(
                        added.id,
                        added,
                    ).contains_key(k) by {
                    if has_row(before, k) {
                        let i = row_of(before, k);
                        assert(row_ids(after)[i] == k);
                    }
                    if has_row(after, k) {
                        let i = row_of(after, k);
                        assert(row_ids(before)[i] == k);
                    }
                    if k == added.id {
                        assert(row_ids(after)[pos as int] == k);
                    }
                }
                assert forall|k: u128| #[trigger] rows_map(after).contains_key(k) implies rows_map(
                    after,
                )[k] == rows_map(before).insert(added.id, added)[k] by {
                    let i = row_of(after, k);
                    assert(row_ids(after)[i] == k);
                    lemma_row_of(after, i);
                    assert(row_ids(after)[pos as int] == added.id);
                    if i < pos {
                        assert(row_ids(after)[i] < row_ids(after)[pos as int]);
                        assert(after[i] == before[i]);
                        lemma_row_of(before, i);
                    } else if i > pos {
                        assert(row_ids(after)[pos as int] < row_ids(after)[i]);
                        assert(after[i] == before[i]);
                        lemma_row_of(before, i);
                    } else {
                        assert(after[pos as int]@ == added);
                    }
                }
                assert(rows_map(after) =~= rows_map(before).insert(added.id, added));
            }
        } else {
            rows.insert(pos, entry);
            proof {
                let after = rows@;
                assert(row_ids(after) =~= row_ids(before).insert(pos as int, added.id));
                assert(ids_ascending(row_ids(after))) by {
                    assert forall|i: int, j: int| 0 <= i < j < after.len() implies row_ids(
                        after,
                    )[i] < row_ids(after)[j] by {
                        let a = if i < pos { i } else { i - 1 };
                        let b = if j < pos { j } else { j - 1 };
                        if i != pos && j != pos {
                            assert(row_ids(before)[a] < row_ids(before)[b]);
                        } else if i == pos {
                            assert(row_ids(before)[b] >= id@);
                            if b > pos {
                                assert(row_ids(before)[pos as int] < row_ids(before)[b]);
                            }
                        } else {
                            assert(row_ids(before)[a] < id@);
                        }
                    }
                }
                assert forall|k: u128| #[trigger]
                    rows_map(after).contains_key(k) == rows_map(before).insert(
                        added.id,
                        added,
                    ).contains_key(k) by {
                    if has_row(before, k) {
                        let i = row_of(before, k);
                        let i2 = if i < pos { i } else { i + 1 };
                        assert(row_ids(after)[i2] == k);
                    }
                    if has_row(after, k) {
                        let i = row_of(after, k);
                        if i < pos {
                            assert(row_ids(before)[i] == k);
                        } else if i > pos {
                            assert(row_ids(before)[i - 1] == k);
                        }
                    }
                    if k == added.id {
                        assert(row_ids(after)[pos as int] == k);
                    }
                }
                assert forall|k: u128| #[trigger] rows_map(after).contains_key(k) implies rows_map(
                    after,
                )[k] == rows_map(before).insert(added.id, added)[k] by {
                    let i = row_of(after, k);
                    assert(row_ids(after)[i] == k);
                    lemma_row_of(after, i);
                    assert(row_ids(after)[pos as int] == added.id);
                    if i < pos {
                        assert(row_ids(after)[i] < row_ids(after)[pos as int]);
                        assert(after[i] == before[i]);
                        lemma_row_of(before, i);
                    } else if i > pos {
                        assert(row_ids(after)[pos as int] < row_ids(after)[i]);
                        assert(after[i] == before[i - 1]);
                        lemma_row_of(before, i - 1);
                    } else {
                        assert(after[pos as int]@ == added);
                    }
                }
                assert(rows_map(after) =~= rows_map(before).insert(added.id, added));
            }
        }
        self.rows = rows;
    }

    /// Takes the entry under `id` away, if there is one.
    pub fn remove(&mut self, id: ServiceId)
        ensures
            final(self)@ == old(self)@.remove(id@),
    {
        let pos = self.position(id);
        let ghost before = self.rows@;
        if pos < self.rows.len() && self.rows[pos].id().value == id.value {
            let mut rows: Vec<Entry> = Vec::new();
            core::mem::swap(&mut self.rows, &mut rows);
            let _ = rows.remove(pos);
            proof {
                let after = rows@;
                assert(row_ids(after) =~= row_ids(before).remove(pos as int));
                assert(ids_ascending(row_ids(after))) by {
                    assert forall|i: int, j: int| 0 <= i < j < after.len() implies row_ids(
                        after,
                    )[i] < row_ids(after)[j] by {
                        let a = if i < pos { i } else { i + 1 };
                        let b = if j < pos { j } else { j + 1 };
                        assert(row_ids(before)[a] < row_ids(before)[b]);
                    }
                }
                assert forall|k: u128| #[trigger]
                    rows_map(after).contains_key(k) == rows_map(before).remove(id@).contains_key(
                        k,
                    ) by {
                    if has_row(before, k) && k != id@ {
                        let i = row_of(before, k);
                        assert(row_ids(before)[i] == k);
                        let i2 = if i < pos { i } else { i - 1 };
                        assert(row_ids(after)[i2] == k);
                    }
                    if has_row(after, k) {
                        let i = row_of(after, k);
                        let i0 = if i < pos { i } else { i + 1 };
                        assert(row_ids(before)[i0] == k);
                        if i0 < pos {
                            assert(row_ids(before)[i0] < row_ids(before)[pos as int]);
                        } else {
                            assert(row_ids(before)[pos as int] < row_ids(before)[i0]);
                        }
                    }
                }
                assert forall|k: u128| #[trigger] rows_map(after).contains_key(k) implies rows_map(
                    after,
                )[k] == rows_map(before).remove(id@)[k] by {
                    let i = row_of(after, k);
                    assert(row_ids(after)[i] == k);
                    lemma_row_of(after, i);
                    let i0 = if i < pos { i } else { i + 1 };
                    assert(after[i] == before[i0]);
                    lemma_row_of(before, i0);
                }
                assert(rows_map(after) =~= rows_map(before).remove(id@));
            }
            self.rows = rows;
        } else {
            proof {
                if has_row(before, id@) {
                    let k = row_of(before, id@);
                    assert(row_ids(before)[k] == id@);
                    if k > pos {
                        assert(row_ids(before)[pos as int] < row_ids(before)[k]);
                    }
                }
                assert(rows_map(before) =~= rows_map(before).remove(id@));
            }
        }
    }

    /// The identifiers of all entries, in ascending order.
    pub fn ids(&self) -> (r: Vec<ServiceId>)
        ensures
            lists_ascending(id_values(r@), self@.dom()),
    {
        proof {
            use_type_invariant(self);
        }
        let mut r: Vec<ServiceId> = Vec::new();
        let mut i: usize = 0;
        while i < self.rows.len()
            invariant
                i <= self.rows.len(),
                r.len() == i,
                forall|j: int| 0 <= j < i ==> r@[j]@ == row_ids(self.rows@)[j],
            decreases self.rows.len() - i,
        {
            r.push(self.rows[i].id());
            i = i + 1;
        }
        proof {
            assert(id_values(r@) =~= row_ids(self.rows@));
            assert forall|id: u128| id_values(r@).contains(id) <==> self@.contains_key(id) by {
                if id_values(r@).contains(id) {
                    let k = choose|k: int| 0 <= k < r@.len() && id_values(r@)[k] == id;
                    assert(row_ids(self.rows@)[k] == id);
                }
                if has_row(self.rows@, id) {
                    let k = row_of(self.rows@, id);
                    assert(id_values(r@)[k] == id);
                }
            }
        }
        r
    }
}

impl Clone for EntryTable {
    /// An independent copy.
    fn clone(&self) -> (r: Self)
        ensures
            r@ == self@,
    {
        proof {
            use_type_invariant(self);
        }
        let mut rows: Vec<Entry> = Vec::new();
        let mut i: usize = 0;
        while i < self.rows.len()
            invariant
                i <= self.rows.len(),
                rows.len() == i,
                forall|j: int| 0 <= j < i ==> rows@[j]@ == self.rows@[j]@,
            decreases self.rows.len() - i,
        {
            rows.push(self.rows[i].clone());
            i = i + 1;
        }
        proof {
            lemma_same_rows(rows@, self.rows@);
        }
        EntryTable { rows }
    }
}

/// Rows with the same contents stand for the same map.
proof fn lemma_same_rows(a: Seq<Entry>, b: Seq<Entry>)
    requires
        a.len() == b.len(),
        forall|j: int| 0 <= j < a.len() ==> a[j]@ == b[j]@,
    ensures
        row_ids(a) == row_ids(b),
        rows_map(a) == rows_map(b),
{
    assert(row_ids(a) =~= row_ids(b));
    assert forall|k: u128| has_row(a, k) == has_row(b, k) by {
        if has_row(a, k) {
            assert(row_ids(b)[row_of(a, k)] == k);
        }
        if has_row(b, k) {
            assert(row_ids(a)[row_of(b, k)] == k);
        }
    }
    assert forall|k: u128| has_row(a, k) implies a[row_of(a, k)]@ == b[row_of(b, k)]@ by {
        assert(row_of(a, k) == row_of(b, k));
    }
    assert(rows_map(a) =~= rows_map(b));
}

/// The domain of the map of rows with ascending identifiers is finite and
/// has as many elements as there are rows.
proof fn lemma_rows_dom(rows: Seq<Entry>)
    requires
        ids_ascending(row_ids(rows)),
    ensures
        rows_map(rows).dom().finite(),
        rows_map(rows).dom().len() == rows.len(),
    decreases rows.len(),
{
    if rows.len() == 0 {
        assert(rows_map(rows).dom() =~= Set::<u128>::empty());
    } else {
        let rest = rows.drop_last();
        let last = rows.last()@.id;
        assert(row_ids(rest) =~= row_ids(rows).drop_last());
        lemma_rows_dom(rest);
        assert forall|k: u128| rows_map(rows).dom().contains(k) <==> rows_map(rest).dom().insert(
            last,
        ).contains(k) by {
            if has_row(rows, k) {
                let i = row_of(rows, k);
                if i < rest.len() {
                    assert(row_ids(rest)[i] == k);
                }
            }
            if has_row(rest, k) {
                let i = row_of(rest, k);
                assert(row_ids(rows)[i] == k);
            }
            if k == last {
                assert(row_ids(rows)[rows.len() - 1] == k);
            }
        }
        assert(rows_map(rows).dom() =~= rows_map(rest).dom().insert(last));
        if has_row(rest, last) {
            let i = row_of(rest, last);
            assert(row_ids(rows)[i] == last);
            assert(row_ids(rows)[i] < row_ids(rows)[rows.len() - 1]);
        }
    }
}

/// A tag and the identifier of an entry that carries it.
pub type TagPair = (Seq<char>, u128);

/// One row of the tag index.
struct TagRow {
    tag: String,
    id: ServiceId,
}

/// The pair of each row.
spec fn row_pairs(rows: Seq<TagRow>) -> Seq<TagPair> {
    Seq::new(rows.len(), |i: int| (rows[i].tag@, rows[i].id@))
}

/// No identifier is below an earlier one, and no pair occurs twice.
spec fn pairs_ordered(pairs: Seq<TagPair>) -> bool {
    forall|i: int, j: int|
        0 <= i < j < pairs.len() ==> pairs[i].1 <= pairs[j].1 && pairs[i] != pairs[j]
}

/// Whether one of the first `n` pairs is `tag` with `id`.
spec fn among_first(pairs: Seq<TagPair>, n: int, tag: Seq<char>, id: u128) -> bool {
    exists|j: int| 0 <= j < n && j < pairs.len() && #[trigger] pairs[j] == (tag, id)
}

/// The index from tags to identifiers: a set of pairs, which gives for each
/// tag its identifiers in ascending order.
pub struct TagIndex {
    rows: Vec<TagRow>,
}

impl View for TagIndex {
    type V = Set<TagPair>;

    closed spec fn view(&self) -> Set<TagPair> {
        row_pairs(self.rows@).to_set()
    }
}

impl TagIndex {
    #[verifier::type_invariant]
    spec fn ordered(self) -> bool {
        pairs_ordered(row_pairs(self.rows@))
    }

    /// An empty index.
    pub fn new() -> (r: Self)
        ensures
            r@ == Set::<TagPair>::empty(),
    {
        let r = TagIndex { rows: Vec::new() };
        assert(r@ =~= Set::<TagPair>::empty());
        r
    }

    /// The row that holds `tag` with `id`, if there is one.
    fn find(&self, tag: &String, id: ServiceId) -> (r: Option<usize>)
        ensures
            pairs_ordered(row_pairs(self.rows@)),
            match r {
                Some(i) => i < self.rows@.len() && row_pairs(self.rows@)[i as int] == (
                    tag@,
                    id@,
                ),
                None => !self@.contains((tag@, id@)),
            },
    {
        proof {
            use_type_invariant(self);
        }
        let mut i: usize = 0;
        while i < self.rows.len()
            invariant
                i <= self.rows.len(),
                pairs_ordered(row_pairs(self.rows@)),
                forall|j: int| 0 <= j < i ==> row_pairs(self.rows@)[j] != (tag@, id@),
            decreases self.rows.len() - i,
        {
            if self.rows[i].id.value == id.value && self.rows[i].tag == *tag {
                assert(row_pairs(self.rows@)[i as int] == (tag@, id@));
                return Some(i);
            }
            i = i + 1;
        }
        None
    }

    /// Whether the index holds `tag` with `id`.
    pub fn contains(&self, tag: &String, id: ServiceId) -> (r: bool)
        ensures
            r == self@.contains((tag@, id@)),
    {
        match self.find(tag, id) {
            Some(i) => {
                assert(row_pairs(self.rows@).contains((tag@, id@)));
                true
            },
            None => false,
        }
    }

    /// Adds the pair of `tag` and `id`.
    pub fn insert(&mut self, tag: String, id: ServiceId)
        ensures
            final(self)@ == old(self)@.insert((tag@, id@)),
    {
        let ghost before = row_pairs(self.rows@);
        let ghost pair = (tag@, id@);
        match self.find(&tag, id) {
            Some(i) => {
                assert(before.contains(pair));
                assert(self@ =~= self@.insert(pair));
            },
            None => {
                let mut pos: usize = 0;
                while pos < self.rows.len() && self.rows[pos].id.value <= id.value
                    invariant
                        pos <= self.rows.len(),
                        before == row_pairs(self.rows@),
                        forall|j: int| 0 <= j < pos ==> before[j].1 <= id@,
                    decreases self.rows.len() - pos,
                {
                    assert(before[pos as int].1 <= id@);
                    pos = pos + 1;
                }
                let mut rows: Vec<TagRow> = Vec::new();
                core::mem::swap(&mut self.rows, &mut rows);
                rows.insert(pos, TagRow { tag, id });
                proof {
                    let after = row_pairs(rows@);
                    assert(after =~= before.insert(pos as int, pair));
                    assert(pairs_ordered(after)) by {
                        assert forall|i: int, j: int| 0 <= i < j < after.len() implies after[i].1
                            <= after[j].1 && after[i] != after[j] by {
                            let a = if i < pos { i } else { i - 1 };
                            let b = if j < pos { j } else { j - 1 };
                            if i != pos && j != pos {
                                assert(before[a].1 <= before[b].1 && before[a] != before[b]);
                            } else if i == pos {
                                assert(before.contains(before[b]));
                                assert(before[pos as int].1 > id@);
                                if b > pos {
                                    assert(before[pos as int].1 <= before[b].1);
                                }
                            } else {
                                assert(before.contains(before[a]));
                            }
                        }
                    }
                    assert forall|p: TagPair| after.to_set().contains(p) <==> before.to_set().insert(
                        pair,
                    ).contains(p) by {
                        if after.contains(p) {
                            let k = choose|k: int| 0 <= k < after.len() && after[k] == p;
                            if k < pos {
                                assert(before[k] == p);
                            } else if k > pos {
                                assert(before[k - 1] == p);
                            }
                        }
                        if before.contains(p) {
                            let k = choose|k: int| 0 <= k < before.len() && before[k] == p;
                            let k2 = if k < pos { k } else { k + 1 };
                            assert(after[k2] == p);
                        }
                        if p == pair {
                            assert(after[pos as int] == p);
                        }
                    }
                    assert(after.to_set() =~= before.to_set().insert(pair));
                }
                self.rows = rows;
            },
        }
    }

    /// Takes the pair of `tag` and `id` away, if the index holds it.
    pub fn remove(&mut self, tag: &String, id: ServiceId)
        ensures
            final(self)@ == old(self)@.remove((tag@, id@)),
    {
        let ghost before = row_pairs(self.rows@);
        let ghost pair = (tag@, id@);
        match self.find(tag, id) {
            Some(pos) => {
                let mut rows: Vec<TagRow> = Vec::new();
                core::mem::swap(&mut self.rows, &mut rows);
                let _ = rows.remove(pos);
                proof {
                    let after = row_pairs(rows@);
                    assert(after =~= before.remove(pos as int));
                    assert(pairs_ordered(after)) by {
                        assert forall|i: int, j: int| 0 <= i < j < after.len() implies after[i].1
                            <= after[j].1 && after[i] != after[j] by {
                            let a = if i < pos { i } else { i + 1 };
                            let b = if j < pos { j } else { j + 1 };
                            assert(before[a].1 <= before[b].1 && before[a] != before[b]);
                        }
                    }
                    assert forall|p: TagPair| after.to_set().contains(p) <==> before.to_set().remove(
                        pair,
                    ).contains(p) by {
                        if after.contains(p) {
                            let k = choose|k: int| 0 <= k < after.len() && after[k] == p;
                            let k0 = if k < pos { k } else { k + 1 };
                            assert(before[k0] == p);
                            if k0 < pos {
                                assert(before[k0] != before[pos as int]);
                            } else {
                                assert(before[pos as int] != before[k0]);
                            }
                        }
                        if before.contains(p) && p != pair {
                            let k = choose|k: int| 0 <= k < before.len() && before[k] == p;
                            let k2 = if k < pos { k } else { k - 1 };
                            assert(after[k2] == p);
                        }
                    }
                    assert(after.to_set() =~= before.to_set().remove(pair));
                }
                self.rows = rows;
            },
            None => {
                assert(self@ =~= self@.remove(pair));
            },
        }
    }

    /// The identifiers that the index holds with `tag`, in ascending order.
    pub fn get(&self, tag: &String) -> (r: Vec<ServiceId>)
        ensures
            lists_ascending(id_values(r@), ids_under(self@, tag@)),
    {
        proof {
            use_type_invariant(self);
        }
        let ghost pairs = row_pairs(self.rows@);
        let mut r: Vec<ServiceId> = Vec::new();
        let mut i: usize = 0;
        while i < self.rows.len()
            invariant
                i <= self.rows.len(),
                pairs == row_pairs(self.rows@),
                pairs_ordered(pairs),
                ids_ascending(id_values(r@)),
                forall|k: int|
                    0 <= k < r@.len() ==> among_first(
                        pairs,
                        i as int,
                        tag@,
                        #[trigger] id_values(r@)[k],
                    ),
                forall|j: int|
                    0 <= j < i && pairs[j].0 == tag@ ==> id_values(r@).contains(
                        #[trigger] pairs[j].1,
                    ),
            decreases self.rows.len() - i,
        {
            if self.rows[i].tag == *tag {
                let ghost prev = id_values(r@);
                r.push(self.rows[i].id);
                proof {
                    let next = id_values(r@);
                    assert(next =~= prev.push(pairs[i as int].1));
                    assert(pairs[i as int] == (tag@, next[next.len() - 1]));
                    assert forall|a: int, b: int| 0 <= a < b < next.len() implies next[a]
                        < next[b] by {
                        if b == next.len() - 1 {
                            assert(among_first(pairs, i as int, tag@, prev[a]));
                            let j = choose|j: int|
                                0 <= j < i && j < pairs.len() && #[trigger] pairs[j] == (
                                    tag@,
                                    prev[a],
                                );
                            assert(pairs[j].1 <= pairs[i as int].1 && pairs[j] != pairs[i as int]);
                        } else {
                            assert(prev[a] < prev[b]);
                        }
                    }
                    assert forall|k: int| 0 <= k < r@.len() implies among_first(
                        pairs,
                        i + 1,
                        tag@,
                        #[trigger] id_values(r@)[k],
                    ) by {
                        if k < prev.len() {
                            assert(among_first(pairs, i as int, tag@, prev[k]));
                            let j = choose|j: int|
                                0 <= j < i && j < pairs.len() && #[trigger] pairs[j] == (
                                    tag@,
                                    prev[k],
                                );
                            assert(pairs[j] == (tag@, next[k]));
                        }
                    }
                    assert forall|j: int| 0 <= j < i + 1 && pairs[j].0 == tag@ implies next.contains(
                        #[trigger] pairs[j].1,
                    ) by {
                        if j < i {
                            let k = choose|k: int| 0 <= k < prev.len() && prev[k] == pairs[j].1;
                            assert(next[k] == pairs[j].1);
                        } else {
                            assert(next[next.len() - 1] == pairs[j].1);
                        }
                    }
                }
            }
            i = i + 1;
        }
        proof {
            assert forall|id: u128| id_values(r@).contains(id) <==> self@.contains((tag@, id)) by {
                if id_values(r@).contains(id) {
                    let k = choose|k: int| 0 <= k < r@.len() && id_values(r@)[k] == id;
                    assert(among_first(pairs, i as int, tag@, id_values(r@)[k]));
                    let j = choose|j: int|
                        0 <= j < i && j < pairs.len() && #[trigger] pairs[j] == (tag@, id);
                    assert(pairs.contains((tag@, id)));
                }
                if pairs.contains((tag@, id)) {
                    let j = choose|j: int| 0 <= j < pairs.len() && pairs[j] == (tag@, id);
                    assert(id_values(r@).contains(pairs[j].1));
                }
            }
        }
        r
    }
}

impl Clone for TagIndex {
    /// An independent copy.
    fn clone(&self) -> (r: Self)
        ensures
            r@ == self@,
    {
        proof {
            use_type_invariant(self);
        }
        let mut rows: Vec<TagRow> = Vec::new();
        let mut i: usize = 0;
        while i < self.rows.len()
            invariant
                i <= self.rows.len(),
                rows.len() == i,
                forall|j: int|
                    0 <= j < i ==> rows@[j].tag@ == self.rows@[j].tag@ && rows@[j].id
                        == self.rows@[j].id,
            decreases self.rows.len() - i,
        {
            rows.push(TagRow { tag: self.rows[i].tag.clone(), id: self.rows[i].id });
            i = i + 1;
        }
        assert(row_pairs(rows@) =~= row_pairs(self.rows@));
        TagIndex { rows }
    }
}

} // verus!
