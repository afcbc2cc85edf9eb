//! What holds of every store, whatever was put into it and removed from it.

use crate::database::types::EntryView;
use crate::database::{indexed, lemma_without_contains, tag_changes, StoreView};
use crate::database::tables::TagPair;
use vstd::prelude::*;

verus! {

/// The empty store is consistent.
pub proof fn lemma_empty_consistent()
    ensures
        StoreView::empty().consistent(),
{
    assert(StoreView::empty().index =~= indexed(StoreView::empty().entries));
}

/// Putting an entry keeps the index consistent with the entries.
pub proof fn lemma_put_consistent(store: StoreView, entry: EntryView)
    requires
        store.consistent(),
    ensures
        store.put(entry).consistent(),
{
    let id = entry.id;
    let after = store.put(entry);
    let changes = tag_changes(store.get(id), entry);
    assert forall|p: TagPair| after.index.contains(p) <==> indexed(after.entries).contains(p) by {
        if p.1 == id {
            match store.get(id) {
                Some(old) => {
                    lemma_without_contains(old.tags, entry.tags, p.0);
                    lemma_without_contains(entry.tags, old.tags, p.0);
                },
                None => {},
            }
        }
    }
    assert(after.index =~= indexed(after.entries));
}

/// Removing an entry keeps the index consistent with the entries.
pub proof fn lemma_remove_consistent(store: StoreView, id: u128)
    requires
        store.consistent(),
    ensures
        store.remove(id).consistent(),
{
    let after = store.remove(id);
    assert(after.index =~= indexed(after.entries));
}

/// An entry that was put is the entry that is found under its identifier.
pub proof fn lemma_put_then_get(store: StoreView, entry: EntryView)
    ensures
        store.put(entry).get(entry.id) == Some(entry),
{
}

/// Putting an entry leaves the entries under other identifiers, and their
/// tags in the index, as they were.
pub proof fn lemma_put_keeps_others(store: StoreView, entry: EntryView, other: u128)
    requires
        other != entry.id,
    ensures
        store.put(entry).get(other) == store.get(other),
        forall|tag: Seq<char>|
            store.put(entry).index.contains((tag, other)) == store.index.contains((tag, other)),
{
}

/// After an entry that is not removed was put into a consistent store, a
/// query for a tag gives its identifier exactly if the entry carries the tag.
pub proof fn lemma_put_then_tagged(store: StoreView, entry: EntryView, tag: Seq<char>)
    requires
        store.consistent(),
        !entry.is_removed(),
    ensures
        store.put(entry).tagged(tag).contains(entry.id) <==> entry.tags.contains(tag),
{
    lemma_put_consistent(store, entry);
    let after = store.put(entry);
    assert(after.index.contains((tag, entry.id)) == indexed(after.entries).contains(
        (tag, entry.id),
    ));
}

/// After an entry marked as removed was put, no query for a tag gives its
/// identifier.
pub proof fn lemma_put_removed_then_tagged(store: StoreView, entry: EntryView, tag: Seq<char>)
    requires
        entry.is_removed(),
    ensures
        !store.put(entry).tagged(tag).contains(entry.id),
{
}

/// When an entry that is not removed takes the place of one that is not
/// removed, the index changes only in the tags that one of them carries and
/// the other does not: a tag of both is neither taken out nor put in.
pub proof fn lemma_update_touches_difference(old: EntryView, new: EntryView, tag: Seq<char>)
    requires
        !old.is_removed(),
        !new.is_removed(),
    ensures
        tag_changes(Some(old), new).0.contains(tag) <==> old.tags.contains(tag)
            && !new.tags.contains(tag),
        tag_changes(Some(old), new).1.contains(tag) <==> new.tags.contains(tag)
            && !old.tags.contains(tag),
{
    lemma_without_contains(old.tags, new.tags, tag);
    lemma_without_contains(new.tags, old.tags, tag);
}

/// After an identifier was removed, no entry is found under it and no
/// query for a tag gives it; and the index of a consistent store holds it
/// with no tag.
pub proof fn lemma_remove_then_absent(store: StoreView, id: u128, tag: Seq<char>)
    ensures
        store.remove(id).get(id) is None,
        !store.remove(id).tagged(tag).contains(id),
        store.consistent() ==> !store.remove(id).index.contains((tag, id)),
{
    if store.consistent() {
        lemma_remove_consistent(store, id);
        let after = store.remove(id);
        assert(after.index.contains((tag, id)) == indexed(after.entries).contains((tag, id)));
    }
}

/// Removing an identifier leaves the entries under other identifiers, and
/// their tags in the index, as they were.
pub proof fn lemma_remove_keeps_others(store: StoreView, id: u128, other: u128)
    requires
        other != id,
    ensures
        store.remove(id).get(other) == store.get(other),
        forall|tag: Seq<char>|
            store.remove(id).index.contains((tag, other)) == store.index.contains((tag, other)),
{
}

/// In a consistent store a query for a tag gives exactly the identifiers of
/// the entries that are not removed and carry the tag.
pub proof fn lemma_tagged_in_consistent(store: StoreView, tag: Seq<char>, id: u128)
    requires
        store.consistent(),
    ensures
        store.tagged(tag).contains(id) <==> store.is_active(id) && store.entries[id].tags.contains(
            tag,
        ),
{
    assert(store.index.contains((tag, id)) == indexed(store.entries).contains((tag, id)));
}

} // verus!
