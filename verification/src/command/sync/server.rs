//! The server's side of a session: it answers the client's `Hello`, sends
//! every entry of its store, one at a time and each only after the one
//! before was acknowledged, then takes the client's entries.

use crate::command::sync::session::{
    ErrorView, EventView, Request, RequestView, Step, StepView, SyncError, SyncEvent,
};
use crate::command::sync::{NodeRole, PacketView, SyncPacket, PROTOCOL_VERSION};
use crate::database::tables::id_values;
use crate::database::types::{ulid_text_of, ServiceId};
use vstd::prelude::*;

verus! {

/// Why a `Hello` of another version is refused.
pub const REASON_VERSION: &'static str = "protocol version mismatch";

/// Why a `Hello` of a node that is no client is refused.
pub const REASON_ROLE: &'static str = "role mismatch";

/// The reason of a refusal that gives none.
pub const REASON_REJECTED: &'static str = "rejected";

/// What the client is told when its entry could not be stored.
pub const REASON_APPLY: &'static str = "failed to apply client entry";

/// The reason that an acknowledgement gives, or the one that stands for
/// none.
pub open spec fn reason_or_rejected(reason: Option<Seq<char>>) -> Seq<char> {
    match reason {
        Some(text) => text,
        None => REASON_REJECTED@,
    }
}

/// Where a server's session stands.
pub enum ServerView {
    /// Waiting for the client's `Hello`.
    AwaitHello,
    /// The session is agreed; waiting for the identifiers of the store.
    AwaitIds,
    /// Waiting for the entry under `ids[next]`, to send it.
    AwaitEntry { ids: Seq<u128>, next: nat },
    /// The entry under `ids[next]` is sent; waiting for its acknowledgement.
    AwaitAck { ids: Seq<u128>, next: nat },
    /// Waiting for an entry of the client, or the end of its entries.
    Receiving { received: u64 },
    /// Waiting to hear whether the client's entry under `id` was stored.
    AwaitStored { received: u64, id: u128 },
    /// The session ended well.
    Done { received: u64, declared: u64 },
    /// The session failed.
    Failed,
}

/// One more, but never past the greatest number.
pub open spec fn counted(n: u64) -> u64 {
    if n < u64::MAX {
        (n + 1) as u64
    } else {
        n
    }
}

/// What the server does on an event, and where it stands after it.
pub open spec fn server_step(state: ServerView, event: EventView) -> (ServerView, StepView) {
    match (state, event) {
        (
            ServerView::AwaitHello,
            EventView::Packet(PacketView::Hello { protocol_version, node_id, role, now_epoch_ms }),
        ) => {
            if protocol_version != PROTOCOL_VERSION {
                (
                    ServerView::Failed,
                    StepView::one(
                        PacketView::HelloAck {
                            protocol_version: PROTOCOL_VERSION,
                            accepted: false,
                            reason: Some(REASON_VERSION@),
                        },
                        RequestView::Finish(Err(ErrorView::VersionMismatch)),
                    ),
                )
            } else if role != NodeRole::Client {
                (
                    ServerView::Failed,
                    StepView::one(
                        PacketView::HelloAck {
                            protocol_version: PROTOCOL_VERSION,
                            accepted: false,
                            reason: Some(REASON_ROLE@),
                        },
                        RequestView::Finish(Err(ErrorView::RoleMismatch)),
                    ),
                )
            } else {
                (
                    ServerView::AwaitIds,
                    StepView::one(
                        PacketView::HelloAck {
                            protocol_version: PROTOCOL_VERSION,
                            accepted: true,
                            reason: None,
                        },
                        RequestView::ListIds,
                    ),
                )
            }
        },
        (ServerView::AwaitHello, EventView::Packet(_)) => (
            ServerView::Failed,
            StepView::fail(ErrorView::UnexpectedPacket),
        ),
        (ServerView::AwaitIds, EventView::Ids(ids)) => {
            if ids.len() == 0 {
                (
                    ServerView::Receiving { received: 0 },
                    StepView::one(
                        PacketView::ServerEntriesEnd { total_sent: 0 },
                        RequestView::Receive,
                    ),
                )
            } else {
                (
                    ServerView::AwaitEntry { ids, next: 0 },
                    StepView::quiet(RequestView::Fetch(ids[0])),
                )
            }
        },
        (ServerView::AwaitEntry { ids, next }, EventView::Entry(Some(entry))) => (
            ServerView::AwaitAck { ids, next },
            StepView::one(PacketView::ServerEntry(entry), RequestView::Receive),
        ),
        (ServerView::AwaitEntry { ids, next }, EventView::Entry(None)) => (
            ServerView::Failed,
            StepView::fail(ErrorView::MissingEntry(ids[next as int])),
        ),
        (
            ServerView::AwaitAck { ids, next },
            EventView::Packet(PacketView::EntryAck { entry_id, accepted, reason }),
        ) => {
            if !accepted {
                (
                    ServerView::Failed,
                    StepView::one(
                        PacketView::Abort { message: reason_or_rejected(reason) },
                        RequestView::Finish(
                            Err(ErrorView::EntryRejected(reason_or_rejected(reason))),
                        ),
                    ),
                )
            } else if next + 1 < ids.len() {
                (
                    ServerView::AwaitEntry { ids, next: (next + 1) as nat },
                    StepView::quiet(RequestView::Fetch(ids[next as int + 1])),
                )
            } else {
                (
                    ServerView::Receiving { received: 0 },
                    StepView::one(
                        PacketView::ServerEntriesEnd { total_sent: ids.len() as u64 },
                        RequestView::Receive,
                    ),
                )
            }
        },
        (ServerView::AwaitAck { ids, next }, EventView::Packet(PacketView::Abort { message })) => (
            ServerView::Failed,
            StepView::fail(ErrorView::PeerAborted(message)),
        ),
        (ServerView::AwaitAck { ids, next }, EventView::Packet(_)) => (
            ServerView::Failed,
            StepView::fail(ErrorView::UnexpectedPacket),
        ),
        (ServerView::Receiving { received }, EventView::Packet(PacketView::ClientEntry(entry))) => (
            ServerView::AwaitStored { received, id: entry.id },
            StepView::quiet(RequestView::Store(entry)),
        ),
        (
            ServerView::Receiving { received },
            EventView::Packet(PacketView::ClientEntriesEnd { total_sent }),
        ) => (
            ServerView::Done { received, declared: total_sent },
            StepView::one(PacketView::Finished, RequestView::Finish(Ok(()))),
        ),
        (ServerView::Receiving { received }, EventView::Packet(PacketView::Abort { message })) => (
            ServerView::Failed,
            StepView::fail(ErrorView::PeerAborted(message)),
        ),
        (ServerView::Receiving { received }, EventView::Packet(_)) => (
            ServerView::Failed,
            StepView::fail(ErrorView::UnexpectedPacket),
        ),
        (ServerView::AwaitStored { received, id }, EventView::Stored(None)) => (
            ServerView::Receiving { received: counted(received) },
            StepView::one(
                PacketView::EntryAck { entry_id: ulid_text_of(id), accepted: true, reason: None },
                RequestView::Receive,
            ),
        ),
        (ServerView::AwaitStored { received, id }, EventView::Stored(Some(failure))) => (
            ServerView::Failed,
            StepView {
                send: seq![
                    PacketView::EntryAck {
                        entry_id: ulid_text_of(id),
                        accepted: false,
                        reason: Some(failure),
                    },
                    PacketView::Abort { message: REASON_APPLY@ },
                ],
                next: RequestView::Finish(Err(ErrorView::ApplyFailed(failure))),
            },
        ),
        (ServerView::Done { received, declared }, _) => (
            state,
            StepView::fail(ErrorView::OutOfTurn),
        ),
        _ => (ServerView::Failed, StepView::fail(ErrorView::OutOfTurn)),
    }
}

/// The kinds of places where a server's session can stand.
#[derive(Clone, Copy, Debug, PartialEq, Eq, Structural)]
enum Phase {
    AwaitHello,
    AwaitIds,
    AwaitEntry,
    AwaitAck,
    Receiving,
    AwaitStored,
    Done,
    Failed,
}

/// A server's session.
#[derive(Debug)]
pub struct ServerSession {
    phase: Phase,
    ids: Vec<ServiceId>,
    next: usize,
    received: u64,
    declared: u64,
    pending: ServiceId,
}

impl View for ServerSession {
    type V = ServerView;

    closed spec fn view(&self) -> ServerView {
        match self.phase {
            Phase::AwaitHello => ServerView::AwaitHello,
            Phase::AwaitIds => ServerView::AwaitIds,
            Phase::AwaitEntry => ServerView::AwaitEntry {
                ids: id_values(self.ids@),
                next: self.next as nat,
            },
            Phase::AwaitAck => ServerView::AwaitAck {
                ids: id_values(self.ids@),
                next: self.next as nat,
            },
            Phase::Receiving => ServerView::Receiving { received: self.received },
            Phase::AwaitStored => ServerView::AwaitStored {
                received: self.received,
                id: self.pending@,
            },
            Phase::Done => ServerView::Done { received: self.received, declared: self.declared },
            Phase::Failed => ServerView::Failed,
        }
    }
}

impl ServerSession {
    #[verifier::type_invariant]
    spec fn in_range(self) -> bool {
        (self.phase == Phase::AwaitEntry || self.phase == Phase::AwaitAck) ==> self.next
            < self.ids@.len()
    }

    /// A session that waits for the client's `Hello`. The first thing to do
    /// is to receive a packet.
    pub fn new() -> (r: Self)
        ensures
            r@ == ServerView::AwaitHello,
    {
        ServerSession {
            phase: Phase::AwaitHello,
            ids: Vec::new(),
            next: 0,
            received: 0,
            declared: 0,
            pending: ServiceId { value: 0 },
        }
    }

    /// The session in another place, with the same entries to send.
    fn at(self, phase: Phase) -> (r: Self)
        requires
            (phase == Phase::AwaitEntry || phase == Phase::AwaitAck) ==> self.next < self.ids@.len(),
        ensures
            r.phase == phase,
            r.ids == self.ids,
            r.next == self.next,
            r.received == self.received,
            r.declared == self.declared,
            r.pending == self.pending,
    {
        ServerSession {
            phase,
            ids: self.ids,
            next: self.next,
            received: self.received,
            declared: self.declared,
            pending: self.pending,
        }
    }

    /// Whether the session ended well.
    pub fn is_done(&self) -> (r: bool)
        ensures
            r == (self@ is Done),
    {
        self.phase == Phase::Done
    }

    /// Whether the session failed.
    pub fn is_failed(&self) -> (r: bool)
        ensures
            r == (self@ is Failed),
    {
        self.phase == Phase::Failed
    }

    /// In a session that ended well: whether the client sent as many entries
    /// as it said at the end. A difference is worth a warning, no more.
    pub fn counts_agree(&self) -> (r: bool)
        ensures
            self@ matches ServerView::Done { received, declared } ==> r == (received == declared),
    {
        self.received == self.declared
    }

    /// Takes an event, and says what to send and what to do next.
    pub fn step(self, event: SyncEvent) -> (r: (Self, Step))
        ensures
            (r.0@, r.1@) == server_step(self@, event@),
    {
        proof {
            use_type_invariant(&self);
        }
        match self.phase {
            Phase::AwaitHello => match event {
                SyncEvent::Packet(SyncPacket::Hello(hello)) => {
                    if hello.protocol_version != PROTOCOL_VERSION {
                        let ack = SyncPacket::hello_ack(
                            PROTOCOL_VERSION,
                            false,
                            Some(REASON_VERSION.to_owned()),
                        );
                        (
                            self.at(Phase::Failed),
                            Step::one(ack, Request::Finish(Err(SyncError::VersionMismatch))),
                        )
                    } else if hello.role != NodeRole::Client {
                        let ack = SyncPacket::hello_ack(
                            PROTOCOL_VERSION,
                            false,
                            Some(REASON_ROLE.to_owned()),
                        );
                        (
                            self.at(Phase::Failed),
                            Step::one(ack, Request::Finish(Err(SyncError::RoleMismatch))),
                        )
                    } else {
                        let ack = SyncPacket::hello_ack(PROTOCOL_VERSION, true, None);
                        (self.at(Phase::AwaitIds), Step::one(ack, Request::ListIds))
                    }
                },
                SyncEvent::Packet(_) => (
                    self.at(Phase::Failed),
                    Step::fail(SyncError::UnexpectedPacket),
                ),
                _ => (self.at(Phase::Failed), Step::fail(SyncError::OutOfTurn)),
            },
            Phase::AwaitIds => match event {
                SyncEvent::Ids(ids) => {
                    if ids.len() == 0 {
                        let next = ServerSession {
                            phase: Phase::Receiving,
                            ids,
                            next: 0,
                            received: 0,
                            declared: 0,
                            pending: self.pending,
                        };
                        (
                            next,
                            Step::one(SyncPacket::server_entries_end(0), Request::Receive),
                        )
                    } else {
                        let first = ids[0];
                        let next = ServerSession {
                            phase: Phase::AwaitEntry,
                            ids,
                            next: 0,
                            received: 0,
                            declared: 0,
                            pending: self.pending,
                        };
                        (next, Step::quiet(Request::Fetch(first)))
                    }
                },
                _ => (self.at(Phase::Failed), Step::fail(SyncError::OutOfTurn)),
            },
            Phase::AwaitEntry => match event {
                SyncEvent::Entry(Some(entry)) => (
                    self.at(Phase::AwaitAck),
                    Step::one(SyncPacket::server_entry(entry), Request::Receive),
                ),
                SyncEvent::Entry(None) => {
                    let id = self.ids[self.next];
                    (self.at(Phase::Failed), Step::fail(SyncError::MissingEntry(id)))
                },
                _ => (self.at(Phase::Failed), Step::fail(SyncError::OutOfTurn)),
            },
            Phase::AwaitAck => match event {
                SyncEvent::Packet(SyncPacket::EntryAck(ack)) => {
                    if !ack.accepted {
                        let reason = match ack.reason {
                            Some(text) => text,
                            None => REASON_REJECTED.to_owned(),
                        };
                        let abort = SyncPacket::abort(reason.clone());
                        (
                            self.at(Phase::Failed),
                            Step::one(abort, Request::Finish(Err(SyncError::EntryRejected(reason)))),
                        )
                    } else if self.next < self.ids.len() - 1 {
                        let id = self.ids[self.next + 1];
                        let next = ServerSession {
                            phase: Phase::AwaitEntry,
                            ids: self.ids,
                            next: self.next + 1,
                            received: self.received,
                            declared: self.declared,
                            pending: self.pending,
                        };
                        (next, Step::quiet(Request::Fetch(id)))
                    } else {
                        let total = self.ids.len() as u64;
                        let next = ServerSession {
                            phase: Phase::Receiving,
                            ids: self.ids,
                            next: self.next,
                            received: 0,
                            declared: 0,
                            pending: self.pending,
                        };
                        (
                            next,
                            Step::one(SyncPacket::server_entries_end(total), Request::Receive),
                        )
                    }
                },
                SyncEvent::Packet(SyncPacket::Abort(abort)) => (
                    self.at(Phase::Failed),
                    Step::fail(SyncError::PeerAborted(abort.reason)),
                ),
                SyncEvent::Packet(_) => (
                    self.at(Phase::Failed),
                    Step::fail(SyncError::UnexpectedPacket),
                ),
                _ => (self.at(Phase::Failed), Step::fail(SyncError::OutOfTurn)),
            },
            Phase::Receiving => match event {
                SyncEvent::Packet(SyncPacket::ClientEntry(entry)) => {
                    let next = ServerSession {
                        phase: Phase::AwaitStored,
                        ids: self.ids,
                        next: self.next,
                        received: self.received,
                        declared: self.declared,
                        pending: entry.id(),
                    };
                    (next, Step::quiet(Request::Store(entry)))
                },
                SyncEvent::Packet(SyncPacket::ClientEntriesEnd(end)) => {
                    let next = ServerSession {
                        phase: Phase::Done,
                        ids: self.ids,
                        next: self.next,
                        received: self.received,
                        declared: end.total_sent,
                        pending: self.pending,
                    };
                    (next, Step::one(SyncPacket::finished(), Request::Finish(Ok(()))))
                },
                SyncEvent::Packet(SyncPacket::Abort(abort)) => (
                    self.at(Phase::Failed),
                    Step::fail(SyncError::PeerAborted(abort.reason)),
                ),
                SyncEvent::Packet(_) => (
                    self.at(Phase::Failed),
                    Step::fail(SyncError::UnexpectedPacket),
                ),
                _ => (self.at(Phase::Failed), Step::fail(SyncError::OutOfTurn)),
            },
            Phase::AwaitStored => match event {
                SyncEvent::Stored(None) => {
                    let ack = SyncPacket::entry_ack(self.pending.to_string(), true, None);
                    let received = if self.received < u64::MAX {
                        self.received + 1
                    } else {
                        self.received
                    };
                    let next = ServerSession {
                        phase: Phase::Receiving,
                        ids: self.ids,
                        next: self.next,
                        received,
                        declared: self.declared,
                        pending: self.pending,
                    };
                    (next, Step::one(ack, Request::Receive))
                },
                SyncEvent::Stored(Some(failure)) => {
                    let ack = SyncPacket::entry_ack(
                        self.pending.to_string(),
                        false,
                        Some(failure.clone()),
                    );
                    let abort = SyncPacket::abort(REASON_APPLY.to_owned());
                    (
                        self.at(Phase::Failed),
                        Step::two(ack, abort, Request::Finish(Err(SyncError::ApplyFailed(failure)))),
                    )
                },
                _ => (self.at(Phase::Failed), Step::fail(SyncError::OutOfTurn)),
            },
            Phase::Done => (self.at(Phase::Done), Step::fail(SyncError::OutOfTurn)),
            Phase::Failed => (self.at(Phase::Failed), Step::fail(SyncError::OutOfTurn)),
        }
    }
}

} // verus!
