//! What holds of every session.

use crate::command::sync::client::{
    client_start, client_step, same_content, verdict, ClientView, Verdict, CONFLICT_REJECTED,
};
use crate::command::sync::local::served;
use crate::command::sync::server::{server_step, ServerView, REASON_VERSION};
use crate::command::sync::session::{ErrorView, EventView, RequestView, StepView};
use crate::command::sync::{NodeRole, PacketView, PROTOCOL_VERSION};
use crate::database::types::{later, EntryView};
use crate::database::StoreView;
use vstd::prelude::*;

verus! {

/// A client and a server of this version agree: the server accepts the
/// client's `Hello`, and the client goes on after the server's answer.
pub proof fn lemma_handshake_completes(node_id: Seq<char>, now_epoch_ms: u64)
    ensures
        ({
            let hello = client_start(node_id, now_epoch_ms).1.send[0];
            let answer = server_step(ServerView::AwaitHello, EventView::Packet(hello));
            &&& answer.0 == ServerView::AwaitIds
            &&& answer.1.next == RequestView::ListIds
            &&& answer.1.send.len() == 1
            &&& client_step(ClientView::AwaitHelloAck, EventView::Packet(answer.1.send[0])) == (
                ClientView::AwaitIds,
                StepView::quiet(RequestView::ListIds),
            )
        }),
{
}

/// The server refuses a `Hello` of another version: it answers with one
/// `HelloAck` that does not accept, and the session has failed.
pub proof fn lemma_other_version_refused(
    version: u16,
    node_id: Seq<char>,
    role: NodeRole,
    now_epoch_ms: u64,
)
    requires
        version != PROTOCOL_VERSION,
    ensures
        server_step(
            ServerView::AwaitHello,
            EventView::Packet(
                PacketView::Hello { protocol_version: version, node_id, role, now_epoch_ms },
            ),
        ) == (
            ServerView::Failed,
            StepView::one(
                PacketView::HelloAck {
                    protocol_version: PROTOCOL_VERSION,
                    accepted: false,
                    reason: Some(REASON_VERSION@),
                },
                RequestView::Finish(Err(ErrorView::VersionMismatch)),
            ),
        ),
{
}

/// The client gives up on an answer that does not accept, or that names
/// another version, and sends nothing more.
pub proof fn lemma_refusal_ends_client(version: u16, accepted: bool, reason: Option<Seq<char>>)
    requires
        !accepted || version != PROTOCOL_VERSION,
    ensures
        ({
            let step = client_step(
                ClientView::AwaitHelloAck,
                EventView::Packet(
                    PacketView::HelloAck { protocol_version: version, accepted, reason },
                ),
            );
            &&& step.0 == ClientView::Failed
            &&& step.1.send.len() == 0
            &&& step.1.next is Finish
        }),
{
}

/// A session that has failed stays failed: whatever it is handed, it sends
/// nothing and asks for nothing but its end, so no entry is sent or stored
/// after a failure. A session that ended well sends and stores no more
/// either.
pub proof fn lemma_failure_is_final(event: EventView, store: StoreView)
    ensures
        server_step(ServerView::Failed, event) == (
            ServerView::Failed,
            StepView::fail(ErrorView::OutOfTurn),
        ),
        client_step(ClientView::Failed, event) == (
            ClientView::Failed,
            StepView::fail(ErrorView::OutOfTurn),
        ),
        served(store, server_step(ServerView::Failed, event).1.next) == store,
        served(store, client_step(ClientView::Failed, event).1.next) == store,
        client_step(ClientView::Done, event) == (
            ClientView::Done,
            StepView::fail(ErrorView::OutOfTurn),
        ),
{
}

/// A server's session that ended well stays as it is, and sends and stores
/// no more.
pub proof fn lemma_done_is_final(received: u64, declared: u64, event: EventView)
    ensures
        server_step(ServerView::Done { received, declared }, event) == (
            ServerView::Done { received, declared },
            StepView::fail(ErrorView::OutOfTurn),
        ),
{
}

/// Before the session is agreed the server sends no entry and stores none.
pub proof fn lemma_nothing_before_agreement(event: EventView, store: StoreView)
    ensures
        ({
            let step = server_step(ServerView::AwaitHello, event).1;
            &&& forall|i: int| 0 <= i < step.send.len() ==> !(#[trigger] step.send[i] is ServerEntry)
            &&& served(store, step.next) == store
        }),
{
}

/// The server sends one entry at a time: after it sent an entry it sends no
/// other before the acknowledgement of that one has come and accepts it.
pub proof fn lemma_one_in_flight(ids: Seq<u128>, next: nat, event: EventView)
    requires
        next < ids.len(),
    ensures
        ({
            let step = server_step(ServerView::AwaitAck { ids, next }, event);
            &&& forall|i: int|
                0 <= i < step.1.send.len() ==> !(#[trigger] step.1.send[i] is ServerEntry)
            &&& step.0 is AwaitEntry ==> (event matches EventView::Packet(
                PacketView::EntryAck { accepted, .. },
            ) && accepted)
        }),
{
}

/// The server's entry of a later time takes the local entry's place: the
/// client asks to store it, and the store then holds it.
pub proof fn lemma_newer_remote_adopted(
    remaining: Set<u128>,
    candidates: Set<u128>,
    local: EntryView,
    incoming: EntryView,
    store: StoreView,
)
    requires
        later(incoming.last_update, local.last_update),
    ensures
        ({
            let step = client_step(
                ClientView::AwaitLocal { remaining, candidates, incoming },
                EventView::Entry(Some(local)),
            );
            &&& step.1.next == RequestView::Store(incoming)
            &&& step.1.send.len() == 0
            &&& served(store, step.1.next).get(incoming.id) == Some(incoming)
        }),
{
}

/// An entry of the server that is not in the local store is adopted.
pub proof fn lemma_unknown_remote_adopted(
    remaining: Set<u128>,
    candidates: Set<u128>,
    incoming: EntryView,
    store: StoreView,
)
    ensures
        ({
            let step = client_step(
                ClientView::AwaitLocal { remaining, candidates, incoming },
                EventView::Entry(None),
            );
            &&& step.1.next == RequestView::Store(incoming)
            &&& served(store, step.1.next).get(incoming.id) == Some(incoming)
        }),
{
}

/// A local entry of a later time stays: the store is left as it is, the
/// server's entry is acknowledged, and the local entry is among those to be
/// sent to the server.
pub proof fn lemma_newer_local_kept(
    remaining: Set<u128>,
    candidates: Set<u128>,
    local: EntryView,
    incoming: EntryView,
    store: StoreView,
)
    requires
        later(local.last_update, incoming.last_update),
    ensures
        ({
            let step = client_step(
                ClientView::AwaitLocal { remaining, candidates, incoming },
                EventView::Entry(Some(local)),
            );
            &&& served(store, step.1.next) == store
            &&& step.1.next == RequestView::Receive
            &&& (step.0 matches ClientView::Receiving { candidates: kept, .. } && kept.contains(
                incoming.id,
            ))
        }),
{
}

/// Two entries with the same time and different contents are put to the
/// user. On a yes the server's entry is stored, and the store then holds it;
/// on a no the session fails, the server is told, and the store is left as
/// it is.
pub proof fn lemma_conflict_goes_to_user(
    remaining: Set<u128>,
    candidates: Set<u128>,
    local: EntryView,
    incoming: EntryView,
    store: StoreView,
)
    requires
        local.last_update is Some,
        local.last_update == incoming.last_update,
        !same_content(local, incoming),
    ensures
        ({
            let asked = client_step(
                ClientView::AwaitLocal { remaining, candidates, incoming },
                EventView::Entry(Some(local)),
            );
            let yes = client_step(asked.0, EventView::Confirmed(true));
            let no = client_step(asked.0, EventView::Confirmed(false));
            &&& asked.1.next == RequestView::Confirm
            &&& served(store, asked.1.next) == store
            &&& yes.1.next == RequestView::Store(incoming)
            &&& served(store, yes.1.next).get(incoming.id) == Some(incoming)
            &&& no.0 == ClientView::Failed
            &&& no.1.next == RequestView::Finish(Err(ErrorView::AbortedByUser))
            &&& no.1.send.len() == 2
            &&& no.1.send[1] == (PacketView::Abort { message: CONFLICT_REJECTED@ })
            &&& served(store, no.1.next) == store
        }),
{
}

/// Two entries of the same time and the same contents need no decision,
/// nor do two entries without a time: the local one stays, and the store
/// is left as it is.
pub proof fn lemma_same_entry_kept(
    remaining: Set<u128>,
    candidates: Set<u128>,
    local: EntryView,
    incoming: EntryView,
    store: StoreView,
)
    requires
        local.last_update == incoming.last_update,
        same_content(local, incoming) || local.last_update is None,
    ensures
        verdict(Some(local), incoming) == Verdict::KeepLocal,
        served(
            store,
            client_step(
                ClientView::AwaitLocal { remaining, candidates, incoming },
                EventView::Entry(Some(local)),
            ).1.next,
        ) == store,
{
}

} // verus!
