//! The `export` command: the entries that are written out.

use crate::command::select::{chosen, collect_entries};
use crate::database::types::{Entry, EntryView};
use crate::database::{entry_views, EntryReader};
use vstd::prelude::*;

verus! {

/// There is no entry to write out.
#[derive(Clone, Copy, Debug, PartialEq, Eq, Structural)]
pub struct NothingToExport;

/// The entries to write out: all entries of the store, removed or not, in
/// ascending order of their identifiers. Fails exactly if there is none.
pub fn entries_to_export(reader: &EntryReader) -> (r: Result<Vec<Entry>, NothingToExport>)
    ensures
        match r {
            Ok(entries) => entries@.len() > 0 && entry_views(entries@) == chosen(
                reader@,
                true,
                |e: EntryView| true,
            ),
            Err(_) => chosen(reader@, true, |e: EntryView| true).len() == 0,
        },
{
    let entries = collect_entries(reader);
    if entries.len() == 0 {
        return Err(NothingToExport);
    }
    Ok(entries)
}

} // verus!
