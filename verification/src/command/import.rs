//! The `import` command: entries that were written out are put into the
//! store, in its place or in addition to what it holds.

use crate::database::tables::{id_values, lemma_lists_ascending_unique, sorted_ids};
use crate::database::types::{later, Entry, EntryView, ServiceId};
use crate::database::{entry_views, EntryWriter, StoreView};
use crate::text::is_sorted_set_of;
use vstd::prelude::*;

verus! {

/// Why an import failed.
#[derive(Clone, Copy, Debug, PartialEq, Eq, Structural)]
pub enum ImportError {
    /// The store holds an entry under this identifier already, and entries
    /// may not be overwritten.
    Duplicate(ServiceId),
}

/// Whether `normal` is the entry `raw` as it is imported: aliases and tags
/// in ascending order, each of them once; the time of last update of `raw`,
/// or some time where `raw` has none; and the mark of a removed entry
/// exactly where `raw` is removed.
pub open spec fn normalizes(normal: EntryView, raw: EntryView) -> bool {
    &&& normal.id == raw.id
    &&& normal.service == raw.service
    &&& is_sorted_set_of(normal.aliases, raw.aliases)
    &&& is_sorted_set_of(normal.tags, raw.tags)
    &&& normal.properties == raw.properties
    &&& normal.last_update is Some
    &&& raw.last_update is Some ==> normal.last_update == raw.last_update
    &&& normal.removed == if raw.is_removed() {
        Some(true)
    } else {
        None
    }
}

/// The entry as it is imported.
pub fn normalize_entry(entry_raw: Entry) -> (r: Entry)
    ensures
        normalizes(r@, entry_raw@),
{
    let mut entry = Entry::new(
        entry_raw.id(),
        entry_raw.service(),
        entry_raw.aliases(),
        entry_raw.tags(),
        entry_raw.properties(),
    );
    if let Some(dt) = entry_raw.last_update() {
        entry.set_last_update(dt);
    }
    if entry_raw.is_removed() {
        entry.set_removed(true);
    }
    entry
}

/// The store after the entries under `ids` were removed.
pub open spec fn remove_all(store: StoreView, ids: Seq<u128>) -> StoreView
    decreases ids.len(),
{
    if ids.len() == 0 {
        store
    } else {
        remove_all(store, ids.drop_last()).remove(ids.last())
    }
}

/// The store in which an import starts: the store itself for a merge or a
/// dry run, else the store with all its entries removed.
pub open spec fn import_start(store: StoreView, merge: bool, dry_run: bool) -> StoreView {
    if !merge && !dry_run {
        remove_all(store, sorted_ids(store.entries.dom()))
    } else {
        store
    }
}

/// The store and the number of imported entries after one more entry. An
/// entry whose identifier is in use fails the import unless entries may be
/// overwritten, and then takes the other's place only if it is later. In a
/// dry run nothing is stored or counted.
pub open spec fn import_one(
    state: (StoreView, nat),
    entry: EntryView,
    overwrite: bool,
    dry_run: bool,
) -> Result<(StoreView, nat), u128> {
    match state.0.get(entry.id) {
        Some(existing) => if !overwrite {
            Err(entry.id)
        } else if !dry_run && later(entry.last_update, existing.last_update) {
            Ok((state.0.put(entry), state.1 + 1))
        } else {
            Ok(state)
        },
        None => if dry_run {
            Ok(state)
        } else {
            Ok((state.0.put(entry), state.1 + 1))
        },
    }
}

/// The store and the number of imported entries after all of `entries`, or
/// the identifier on which the import failed.
pub open spec fn import_all(
    state: (StoreView, nat),
    entries: Seq<EntryView>,
    overwrite: bool,
    dry_run: bool,
) -> Result<(StoreView, nat), u128>
    decreases entries.len(),
{
    if entries.len() == 0 {
        Ok(state)
    } else {
        match import_all(state, entries.drop_last(), overwrite, dry_run) {
            Ok(next) => import_one(next, entries.last(), overwrite, dry_run),
            Err(id) => Err(id),
        }
    }
}

/// An import that failed on the first entries fails on all of them, on the
/// same identifier.
proof fn lemma_import_fails_on(
    state: (StoreView, nat),
    entries: Seq<EntryView>,
    k: int,
    overwrite: bool,
    dry_run: bool,
)
    requires
        0 <= k <= entries.len(),
        import_all(state, entries.take(k), overwrite, dry_run) is Err,
    ensures
        import_all(state, entries, overwrite, dry_run) == import_all(
            state,
            entries.take(k),
            overwrite,
            dry_run,
        ),
    decreases entries.len() - k,
{
    if k < entries.len() {
        assert(entries.take(k + 1).drop_last() =~= entries.take(k));
        lemma_import_fails_on(state, entries, k + 1, overwrite, dry_run);
    } else {
        assert(entries.take(k) =~= entries);
    }
}

/// Imports entries that are in the form in which they are stored. On a
/// failure the transaction is left as it was when the failure was found,
/// and is to be abandoned.
pub fn import_normalized(
    writer: &mut EntryWriter,
    entries: &Vec<Entry>,
    merge: bool,
    overwrite: bool,
    dry_run: bool,
) -> (r: Result<usize, ImportError>)
    ensures
        is_import_of(
            r,
            final(writer)@,
            old(writer)@,
            entry_views(entries@),
            merge,
            overwrite,
            dry_run,
        ),
{
    if !merge && !dry_run {
        let existing = writer.all_service();
        let ghost order = id_values(existing@);
        proof {
            lemma_lists_ascending_unique(order, order, writer@.entries.dom());
            assert(order.take(0) =~= Seq::<u128>::empty());
        }
        let mut k: usize = 0;
        while k < existing.len()
            invariant
                k <= existing.len(),
                order == id_values(existing@),
                writer@ == remove_all(old(writer)@, order.take(k as int)),
            decreases existing.len() - k,
        {
            writer.remove(&existing[k]);
            proof {
                assert(order.take(k + 1).drop_last() =~= order.take(k as int));
                assert(order.take(k + 1).last() == existing@[k as int]@);
            }
            k = k + 1;
        }
        assert(order.take(k as int) =~= order);
    }
    let ghost start = (import_start(old(writer)@, merge, dry_run), 0nat);
    let ghost all = entry_views(entries@);
    let mut imported: usize = 0;
    let mut i: usize = 0;
    assert(all.take(0) =~= Seq::<EntryView>::empty());
    while i < entries.len()
        invariant
            i <= entries.len(),
            imported <= i,
            all == entry_views(entries@),
            start == (import_start(old(writer)@, merge, dry_run), 0nat),
            import_all(start, all.take(i as int), overwrite, dry_run) == Ok::<
                (StoreView, nat),
                u128,
            >((writer@, imported as nat)),
        decreases entries.len() - i,
    {
        proof {
            assert(all.take(i + 1).drop_last() =~= all.take(i as int));
            assert(all.take(i + 1).last() == entries@[i as int]@);
        }
        let entry = &entries[i];
        let id = entry.id();
        match writer.get(&id) {
            Some(existing) => {
                if !overwrite {
                    proof {
                        lemma_import_fails_on(start, all, i + 1, overwrite, dry_run);
                    }
                    return Err(ImportError::Duplicate(id));
                }
                let new_is_newer = match (entry.last_update(), existing.last_update()) {
                    (Some(new), Some(old)) => new > old,
                    (Some(_), None) => true,
                    _ => false,
                };
                if !dry_run && new_is_newer {
                    writer.put(entry);
                    imported = imported + 1;
                }
            },
            None => {
                if !dry_run {
                    writer.put(entry);
                    imported = imported + 1;
                }
            },
        }
        i = i + 1;
    }
    assert(all.take(i as int) =~= all);
    Ok(imported)
}

/// Whether `normal` gives each of `raw` as it is imported.
pub open spec fn normalize_all(normal: Seq<EntryView>, raw: Seq<Entry>) -> bool {
    &&& normal.len() == raw.len()
    &&& forall|i: int| 0 <= i < normal.len() ==> normalizes(#[trigger] normal[i], raw[i]@)
}

/// Whether `r` and the store `after` are what comes of importing `entries`
/// into the store `before`.
pub open spec fn is_import_of(
    r: Result<usize, ImportError>,
    after: StoreView,
    before: StoreView,
    entries: Seq<EntryView>,
    merge: bool,
    overwrite: bool,
    dry_run: bool,
) -> bool {
    let outcome = import_all((import_start(before, merge, dry_run), 0), entries, overwrite, dry_run);
    match r {
        Ok(imported) => outcome == Ok::<(StoreView, nat), u128>((after, imported as nat)),
        Err(ImportError::Duplicate(id)) => outcome == Err::<(StoreView, nat), u128>(id@),
    }
}

/// Imports entries as they were read: each is brought into the form in
/// which it is stored, and then they are imported in their order.
pub fn import_entries(
    writer: &mut EntryWriter,
    entries: Vec<Entry>,
    merge: bool,
    overwrite: bool,
    dry_run: bool,
) -> (r: Result<usize, ImportError>)
    ensures
        exists|normal: Seq<EntryView>| #[trigger]
            normalize_all(normal, entries@) && is_import_of(
                r,
                final(writer)@,
                old(writer)@,
                normal,
                merge,
                overwrite,
                dry_run,
            ),
{
    let ghost raw = entries@;
    let mut normalized: Vec<Entry> = Vec::new();
    let mut entries = entries;
    let mut i: usize = 0;
    let n = entries.len();
    while i < n
        invariant
            i <= n,
            n == raw.len(),
            entries@.len() == n - i,
            forall|j: int| 0 <= j < n - i ==> entries@[j] == raw[i + j],
            normalized.len() == i,
            forall|j: int| 0 <= j < i ==> normalizes((#[trigger] normalized@[j])@, raw[j]@),
        decreases n - i,
    {
        let entry = entries.remove(0);
        normalized.push(normalize_entry(entry));
        i = i + 1;
    }
    let r = import_normalized(writer, &normalized, merge, overwrite, dry_run);
    proof {
        let normal = entry_views(normalized@);
        assert forall|j: int| 0 <= j < normal.len() implies normalizes(
            #[trigger] normal[j],
            raw[j]@,
        ) by {
            assert(normalizes(normalized@[j]@, raw[j]@));
        }
        assert(normalize_all(normal, raw));
    }
    r
}

/// Whether the user is asked before an import: where the store is to be
/// replaced in earnest and is not empty.
pub fn needs_confirmation(merge: bool, dry_run: bool, existing: usize) -> (r: bool)
    ensures
        r == (!merge && !dry_run && existing > 0),
{
    !merge && !dry_run && existing > 0
}

} // verus!
