//! The `add` and `edit` commands: what is made of the text that comes back
//! from the editor.

use crate::command::util::{all_whitespace, is_blank};
use crate::database::types::{Entry, EntryView, ServiceId};
use crate::text::is_sorted_set_of;
use vstd::prelude::*;

verus! {

/// What is wrong with an entry that comes back from the editor.
#[derive(Clone, Copy, Debug, PartialEq, Eq, Structural)]
pub enum Problem {
    /// The text cannot be read as an entry.
    Unreadable,
    /// The identifier is not the one that was handed out.
    IdChanged,
    /// The name of the service is blank.
    BlankService,
    /// There is no property.
    NoProperties,
}

/// What to do after the user was asked whether to edit again.
#[derive(Clone, Copy, Debug, PartialEq, Eq, Structural)]
pub enum Retry {
    /// Start the editor again on the text as it is.
    EditAgain,
    /// Put the line of the identifier right, then start the editor again.
    RestoreIdAndEditAgain,
    /// Give up for this reason.
    GiveUp(Problem),
}

/// What is wrong with a new entry, if anything: first the identifier is
/// looked at, then the name of the service, then the properties.
pub open spec fn problem_of_added(entry: EntryView, id: u128) -> Option<Problem> {
    if entry.id != id {
        Some(Problem::IdChanged)
    } else if all_whitespace(entry.service) {
        Some(Problem::BlankService)
    } else if entry.properties.len() == 0 {
        Some(Problem::NoProperties)
    } else {
        None
    }
}

/// What is wrong with an edited entry, if anything: the identifier must
/// not have changed.
pub open spec fn problem_of_edited(entry: EntryView, id: u128) -> Option<Problem> {
    if entry.id != id {
        Some(Problem::IdChanged)
    } else {
        None
    }
}

/// Looks at an entry that was written for the identifier `id`.
pub fn examine_added(entry: &Entry, id: &ServiceId) -> (r: Option<Problem>)
    ensures
        r == problem_of_added(entry@, id@),
{
    if entry.id().value != id.value {
        Some(Problem::IdChanged)
    } else if is_blank(entry.service().as_str()) {
        Some(Problem::BlankService)
    } else if entry.properties().is_empty() {
        Some(Problem::NoProperties)
    } else {
        None
    }
}

/// Looks at an entry that was edited under the identifier `id`.
pub fn examine_edited(entry: &Entry, id: &ServiceId) -> (r: Option<Problem>)
    ensures
        r == problem_of_edited(entry@, id@),
{
    if entry.id().value != id.value {
        Some(Problem::IdChanged)
    } else {
        None
    }
}

/// What to do about a problem once the user has said whether to edit again:
/// on a no the command gives up, and on a yes the editor starts again,
/// after the line of the identifier was put right where that was changed.
pub fn after_answer(problem: Problem, again: bool) -> (r: Retry)
    ensures
        r == if !again {
            Retry::GiveUp(problem)
        } else if problem == Problem::IdChanged {
            Retry::RestoreIdAndEditAgain
        } else {
            Retry::EditAgain
        },
{
    if !again {
        Retry::GiveUp(problem)
    } else {
        match problem {
            Problem::IdChanged => Retry::RestoreIdAndEditAgain,
            _ => Retry::EditAgain,
        }
    }
}

/// Whether `stored` is `written` as it is stored: aliases and tags in
/// ascending order, each of them once, a time of last update, and the mark
/// of a removed entry only where `removed` is set.
pub open spec fn stores(stored: EntryView, written: EntryView, removed: bool) -> bool {
    &&& stored.id == written.id
    &&& stored.service == written.service
    &&& is_sorted_set_of(stored.aliases, written.aliases)
    &&& is_sorted_set_of(stored.tags, written.tags)
    &&& stored.properties == written.properties
    &&& stored.last_update is Some
    &&& stored.removed == if removed {
        Some(true)
    } else {
        None
    }
}

/// The entry to store for a new entry that is in order.
pub fn entry_to_add(written: &Entry) -> (r: Entry)
    ensures
        stores(r@, written@, false),
{
    let mut entry = Entry::new(
        written.id(),
        written.service(),
        written.aliases(),
        written.tags(),
        written.properties(),
    );
    entry.set_last_update_now();
    entry
}

/// The entry to store for an edited entry that is in order. It stays
/// removed if it was written so.
pub fn entry_to_update(written: &Entry) -> (r: Entry)
    ensures
        stores(r@, written@, written@.is_removed()),
{
    let mut entry = Entry::new(
        written.id(),
        written.service(),
        written.aliases(),
        written.tags(),
        written.properties(),
    );
    entry.set_removed(written.is_removed());
    entry.set_last_update_now();
    entry
}

} // verus!
