//! What a session asks of the store, done on a write transaction.

use crate::command::sync::session::{EventView, Request, RequestView, SyncEvent};
use crate::database::tables::lists_ascending;
use crate::database::{EntryWriter, StoreView};
use vstd::prelude::*;

verus! {

/// The store after a request was served: a request to store an entry puts
/// it, and no other request changes the store.
pub open spec fn served(store: StoreView, request: RequestView) -> StoreView {
    match request {
        RequestView::Store(entry) => store.put(entry),
        _ => store,
    }
}

/// Whether `event` is an answer of the store `store` to `request`.
pub open spec fn answers(store: StoreView, request: RequestView, event: EventView) -> bool {
    match request {
        RequestView::ListIds => (event matches EventView::Ids(ids) && lists_ascending(
            ids,
            store.entries.dom(),
        )),
        RequestView::Fetch(id) => event == EventView::Entry(store.get(id)),
        RequestView::Store(entry) => event == EventView::Stored(None),
        _ => false,
    }
}

/// Serves a request that concerns the store, and returns the event to hand
/// to the session. A request that does not concern the store is handed back.
pub fn serve(writer: &mut EntryWriter, request: Request) -> (r: Result<SyncEvent, Request>)
    ensures
        final(writer)@ == served(old(writer)@, request@),
        match r {
            Ok(event) => answers(old(writer)@, request@, event@),
            Err(other) => other@ == request@ && !(request@ is ListIds) && !(request@ is Fetch) && !(
            request@ is Store),
        },
{
    match request {
        Request::ListIds => Ok(SyncEvent::Ids(writer.all_service())),
        Request::Fetch(id) => Ok(SyncEvent::Entry(writer.get(&id))),
        Request::Store(entry) => {
            writer.put(&entry);
            Ok(SyncEvent::Stored(None))
        },
        other => Err(other),
    }
}

} // verus!
