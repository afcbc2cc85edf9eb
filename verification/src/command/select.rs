//! Picking entries out of a store.

use crate::database::tables::{id_values, lemma_lists_ascending_unique, sorted_ids};
use crate::database::types::{Entry, EntryView, ServiceId};
use crate::database::{entry_views, EntryReader, StoreView};
use vstd::prelude::*;

verus! {

/// The entries under `ids`, in that order, that are there and for which
/// `pred` holds.
pub open spec fn selected(
    entries: Map<u128, EntryView>,
    ids: Seq<u128>,
    pred: spec_fn(EntryView) -> bool,
) -> Seq<EntryView>
    decreases ids.len(),
{
    if ids.len() == 0 {
        Seq::empty()
    } else {
        let rest = selected(entries, ids.drop_last(), pred);
        let id = ids.last();
        if entries.contains_key(id) && pred(entries[id]) {
            rest.push(entries[id])
        } else {
            rest
        }
    }
}

/// The entries of a store for which `pred` holds, in ascending order of
/// their identifiers; those of removed entries only if `with_removed`.
pub open spec fn chosen(store: StoreView, with_removed: bool, pred: spec_fn(EntryView) -> bool) -> Seq<
    EntryView,
> {
    selected(store.entries, sorted_ids(store.listed(!with_removed)), pred)
}

/// The identifiers to choose from, in ascending order.
pub fn ids_to_choose(reader: &EntryReader, with_removed: bool) -> (r: Vec<ServiceId>)
    ensures
        id_values(r@) == sorted_ids(reader@.listed(!with_removed)),
{
    let ids = reader.all_service_filtered(!with_removed);
    proof {
        lemma_lists_ascending_unique(
            id_values(ids@),
            id_values(ids@),
            reader@.listed(!with_removed),
        );
    }
    ids
}

/// One more identifier is looked at: what is selected grows by its entry,
/// or stays.
pub proof fn lemma_selected_next(
    entries: Map<u128, EntryView>,
    ids: Seq<u128>,
    i: int,
    pred: spec_fn(EntryView) -> bool,
)
    requires
        0 <= i < ids.len(),
    ensures
        selected(entries, ids.take(i + 1), pred) == if entries.contains_key(ids[i]) && pred(
            entries[ids[i]],
        ) {
            selected(entries, ids.take(i), pred).push(entries[ids[i]])
        } else {
            selected(entries, ids.take(i), pred)
        },
{
    assert(ids.take(i + 1).drop_last() =~= ids.take(i));
    assert(ids.take(i + 1).last() == ids[i]);
}

/// All entries of a store, removed or not, in ascending order of their
/// identifiers.
pub fn collect_entries(reader: &EntryReader) -> (r: Vec<Entry>)
    ensures
        entry_views(r@) == chosen(reader@, true, |e: EntryView| true),
{
    let ghost pred = |e: EntryView| true;
    let ids = ids_to_choose(reader, true);
    let ghost order = id_values(ids@);
    let mut entries: Vec<Entry> = Vec::new();
    let mut i: usize = 0;
    assert(entry_views(entries@) =~= selected(reader@.entries, order.take(0), pred));
    while i < ids.len()
        invariant
            i <= ids.len(),
            order == id_values(ids@),
            pred == (|e: EntryView| true),
            entry_views(entries@) == selected(reader@.entries, order.take(i as int), pred),
        decreases ids.len() - i,
    {
        proof {
            lemma_selected_next(reader@.entries, order, i as int, pred);
        }
        let ghost before = entry_views(entries@);
        if let Some(entry) = reader.get(&ids[i]) {
            entries.push(entry);
            assert(entry_views(entries@) =~= before.push(reader@.entries[order[i as int]]));
        }
        i = i + 1;
    }
    assert(order.take(i as int) =~= order);
    entries
}

} // verus!
