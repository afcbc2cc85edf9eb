//! The `remove` command: marks an entry as removed, or removes it for
//! good.

use crate::database::types::{EntryView, ServiceId};
use crate::database::EntryWriter;
use vstd::prelude::*;

verus! {

/// Why nothing was removed.
#[derive(Clone, Copy, Debug, PartialEq, Eq, Structural)]
pub enum RemoveError {
    /// The text is not the text of an identifier.
    InvalidId,
    /// There is no entry under the identifier.
    NotFound(ServiceId),
}

/// What was done.
#[derive(Clone, Copy, Debug, PartialEq, Eq, Structural)]
pub enum Removed {
    /// The entry, if there was one, is gone for good.
    Hard(ServiceId),
    /// The entry is marked as removed.
    Soft(ServiceId),
}

/// The entry `entry` marked as removed at the time `now`.
pub open spec fn marked(entry: EntryView, now: i64) -> EntryView {
    EntryView { removed: Some(true), last_update: Some(now), ..entry }
}

/// Removes the entry under the identifier with the text `id`. A hard
/// removal takes the entry out of the store, and does nothing where there
/// is none. A soft removal marks the entry as removed and stamps it with
/// the current time, so that it leaves the tag index and stays in the
/// store; it fails where there is no entry.
pub fn remove_entry(writer: &mut EntryWriter, id: &str, hard: bool) -> (r: Result<
    Removed,
    RemoveError,
>)
    ensures
        match (ServiceId::spec_from_text(id@), r) {
            (None, Err(RemoveError::InvalidId)) => final(writer)@ == old(writer)@,
            (Some(key), Ok(Removed::Hard(removed))) => hard && removed == key && final(writer)@
                == old(writer)@.remove(key@),
            (Some(key), Ok(Removed::Soft(removed))) => !hard && removed == key && old(
                writer,
            )@.get(key@) is Some && exists|now: i64|
                final(writer)@ == old(writer)@.put(marked(old(writer)@.get(key@)->0, now)),
            (Some(key), Err(RemoveError::NotFound(missing))) => !hard && missing == key && old(
                writer,
            )@.get(key@) is None && final(writer)@ == old(writer)@,
            _ => false,
        },
{
    let key = match ServiceId::from_string(id) {
        Ok(key) => key,
        Err(_) => {
            return Err(RemoveError::InvalidId);
        },
    };
    if hard {
        writer.remove(&key);
        return Ok(Removed::Hard(key));
    }
    match writer.get(&key) {
        Some(found) => {
            let mut entry = found;
            let ghost before = entry@;
            entry.set_removed(true);
            entry.set_last_update_now();
            let ghost now = entry@.last_update->0;
            assert(entry@ == marked(before, now));
            writer.put(&entry);
            assert(writer@ == old(writer)@.put(marked(old(writer)@.get(key@)->0, now)));
            Ok(Removed::Soft(key))
        },
        None => Err(RemoveError::NotFound(key)),
    }
}

} // verus!
