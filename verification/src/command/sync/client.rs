//! The client's side of a session: it takes the server's entries, decides
//! for each whether the server's or its own prevails, then sends what the
//! server lacks or has in an older form.

use crate::command::prompt::Prompter;
use crate::command::sync::idset::IdSet;
use crate::command::sync::server::{reason_or_rejected, REASON_REJECTED};
use crate::command::sync::session::{
    ErrorView, EventView, Request, RequestView, Step, StepView, SyncError, SyncEvent,
};
use crate::command::sync::{NodeRole, PacketView, SyncPacket, PROTOCOL_VERSION};
use crate::database::tables::{id_values, sorted_ids};
use crate::database::types::{later, now_millis, ulid_text_of, Entry, EntryView, ServiceId};
use crate::database::EntryWriter;
use crate::text::strings_equal;
use vstd::prelude::*;

verus! {

/// What the question to the user says when two entries conflict.
pub const CONFLICT_PROMPT: &'static str =
    "同一時刻の更新が競合しました。サーバ側を採用しますか？";

/// The label of that question.
pub const CONFLICT_LABEL: &'static str = "競合";

/// The reason given to the server when the user declines.
pub const CONFLICT_REJECTED: &'static str = "user rejected conflict resolution";

/// The reason of a refused session that gives none.
pub const REASON_UNKNOWN: &'static str = "unknown";

/// What becomes of an entry of the server.
#[derive(Debug)]
pub enum EntryDecision {
    /// The server's entry takes the place of the local one.
    AdoptRemote,
    /// The local entry stays, and is sent to the server.
    KeepLocal,
    /// The session ends, for this reason.
    Abort(String),
}

/// What a decision holds.
pub enum DecisionView {
    AdoptRemote,
    KeepLocal,
    Abort(Seq<char>),
}

impl View for EntryDecision {
    type V = DecisionView;

    open spec fn view(&self) -> DecisionView {
        match *self {
            EntryDecision::AdoptRemote => DecisionView::AdoptRemote,
            EntryDecision::KeepLocal => DecisionView::KeepLocal,
            EntryDecision::Abort(reason) => DecisionView::Abort(reason@),
        }
    }
}

/// What two entries decide between themselves.
#[derive(Clone, Copy, Debug, PartialEq, Eq, Structural)]
pub enum Verdict {
    /// The server's entry prevails.
    AdoptRemote,
    /// The local entry prevails.
    KeepLocal,
    /// The entries differ and neither is newer: the user decides.
    Conflict,
}

/// Whether two entries hold the same, their times of last update aside.
pub open spec fn same_content(a: EntryView, b: EntryView) -> bool {
    &&& a.id == b.id
    &&& a.service == b.service
    &&& a.aliases == b.aliases
    &&& a.tags == b.tags
    &&& a.properties == b.properties
    &&& a.is_removed() == b.is_removed()
}

/// What the local entry, if there is one, and the server's entry decide: the
/// server's prevails where there is no local one or the server's is later;
/// the local one where it is later, where neither has a time, or where both
/// have the same time and the same contents; and with the same time and
/// different contents the user decides.
pub open spec fn verdict(local: Option<EntryView>, incoming: EntryView) -> Verdict {
    match local {
        None => Verdict::AdoptRemote,
        Some(own) => if later(incoming.last_update, own.last_update) {
            Verdict::AdoptRemote
        } else if incoming.last_update is Some && incoming.last_update == own.last_update
            && !same_content(own, incoming) {
            Verdict::Conflict
        } else {
            Verdict::KeepLocal
        },
    }
}

/// The decision on a verdict, with the user's answer where it is needed.
pub open spec fn decision(verdict: Verdict, answer: bool) -> DecisionView {
    match verdict {
        Verdict::AdoptRemote => DecisionView::AdoptRemote,
        Verdict::KeepLocal => DecisionView::KeepLocal,
        Verdict::Conflict => if answer {
            DecisionView::AdoptRemote
        } else {
            DecisionView::Abort(CONFLICT_REJECTED@)
        },
    }
}

/// Whether two entries hold the same, their times of last update aside.
pub fn is_same_entry(a: &Entry, b: &Entry) -> (r: bool)
    ensures
        r == same_content(a@, b@),
{
    a.id().value == b.id().value && a.service() == b.service() && strings_equal(
        &a.aliases(),
        &b.aliases(),
    ) && strings_equal(&a.tags(), &b.tags()) && a.properties().same_as(&b.properties())
        && a.is_removed() == b.is_removed()
}

/// What the local entry, if there is one, and the server's entry decide.
pub fn compare_entries(local: Option<&Entry>, incoming: &Entry) -> (r: Verdict)
    ensures
        r == verdict(
            match local {
                Some(own) => Some(own@),
                None => None,
            },
            incoming@,
        ),
{
    let own = match local {
        Some(own) => own,
        None => {
            return Verdict::AdoptRemote;
        },
    };
    let incoming_ts = incoming.last_update();
    let local_ts = own.last_update();
    match (incoming_ts, local_ts) {
        (Some(theirs), Some(ours)) => {
            if theirs == ours {
                if is_same_entry(own, incoming) {
                    Verdict::KeepLocal
                } else {
                    Verdict::Conflict
                }
            } else if theirs > ours {
                Verdict::AdoptRemote
            } else {
                Verdict::KeepLocal
            }
        },
        (Some(_), None) => Verdict::AdoptRemote,
        (None, Some(_)) => Verdict::KeepLocal,
        (None, None) => Verdict::KeepLocal,
    }
}

/// The decision on a verdict, with the user's answer where it is needed.
pub fn resolve(verdict: Verdict, answer: bool) -> (r: EntryDecision)
    ensures
        r@ == decision(verdict, answer),
{
    match verdict {
        Verdict::AdoptRemote => EntryDecision::AdoptRemote,
        Verdict::KeepLocal => EntryDecision::KeepLocal,
        Verdict::Conflict => {
            if answer {
                EntryDecision::AdoptRemote
            } else {
                EntryDecision::Abort(CONFLICT_REJECTED.to_owned())
            }
        },
    }
}

/// Decides what becomes of `incoming`, an entry of the server: looks up the
/// local entry, and asks `prompter` where the two conflict. Fails only if
/// the prompter does.
pub fn decide_entry<P: Prompter>(writer: &EntryWriter, incoming: &Entry, prompter: &P) -> (r:
    Result<EntryDecision, String>)
    ensures
        match r {
            Ok(d) => exists|answer: bool|
                d@ == decision(verdict(writer@.get(incoming@.id), incoming@), answer),
            Err(_) => verdict(writer@.get(incoming@.id), incoming@) == Verdict::Conflict,
        },
{
    let local = writer.get(&incoming.id());
    let found = compare_entries(local.as_ref(), incoming);
    match found {
        Verdict::Conflict => {
            match prompter.confirm(CONFLICT_PROMPT, false, Some(CONFLICT_LABEL)) {
                Ok(answer) => {
                    let d = resolve(found, answer);
                    assert(d@ == decision(found, answer));
                    Ok(d)
                },
                Err(err) => Err(err),
            }
        },
        _ => {
            let d = resolve(found, false);
            assert(d@ == decision(found, false));
            Ok(d)
        },
    }
}

/// Where a client's session stands.
pub enum ClientView {
    /// The `Hello` is sent; waiting for the server's answer.
    AwaitHelloAck,
    /// The session is agreed; waiting for the identifiers of the store.
    AwaitIds,
    /// Waiting for an entry of the server, or the end of its entries.
    /// `remaining` are the local entries that the server has not sent, and
    /// `candidates` those that prevailed over the server's.
    Receiving { remaining: Set<u128>, candidates: Set<u128> },
    /// Waiting for the local entry under the identifier of `incoming`.
    AwaitLocal { remaining: Set<u128>, candidates: Set<u128>, incoming: EntryView },
    /// Waiting for the user's answer on `incoming`.
    AwaitAnswer { remaining: Set<u128>, candidates: Set<u128>, incoming: EntryView },
    /// Waiting to hear whether the server's entry under `id` was stored.
    AwaitStored { remaining: Set<u128>, candidates: Set<u128>, id: u128 },
    /// Waiting for the entry under `queue[next]`, to send it.
    AwaitEntry { queue: Seq<u128>, next: nat },
    /// The entry under `queue[next]` is sent; waiting for its
    /// acknowledgement.
    AwaitAck { queue: Seq<u128>, next: nat },
    /// All is sent; waiting for the server to finish.
    AwaitFinished,
    /// The session ended well.
    Done,
    /// The session failed.
    Failed,
}

/// The reason that a refusal of the session gives, or the one that stands
/// for none.
pub open spec fn reason_or_unknown(reason: Option<Seq<char>>) -> Seq<char> {
    match reason {
        Some(text) => text,
        None => REASON_UNKNOWN@,
    }
}

/// How a client's session starts: it announces itself, and waits.
pub open spec fn client_start(node_id: Seq<char>, now_epoch_ms: u64) -> (ClientView, StepView) {
    (
        ClientView::AwaitHelloAck,
        StepView::one(
            PacketView::Hello {
                protocol_version: PROTOCOL_VERSION,
                node_id,
                role: NodeRole::Client,
                now_epoch_ms,
            },
            RequestView::Receive,
        ),
    )
}

/// The acknowledgement that the entry under `id` was taken.
pub open spec fn accepted_ack(id: u128) -> PacketView {
    PacketView::EntryAck { entry_id: ulid_text_of(id), accepted: true, reason: None }
}

/// What follows once the server's entry `incoming` is to be adopted.
pub open spec fn adopt(remaining: Set<u128>, candidates: Set<u128>, incoming: EntryView) -> (
    ClientView,
    StepView,
) {
    (
        ClientView::AwaitStored { remaining, candidates, id: incoming.id },
        StepView::quiet(RequestView::Store(incoming)),
    )
}

/// The step of a session that was handed what it did not ask for.
pub open spec fn out_of_turn() -> (ClientView, StepView) {
    (ClientView::Failed, StepView::fail(ErrorView::OutOfTurn))
}

/// The step of a session that got a packet which the protocol does not have
/// at this point.
pub open spec fn unexpected() -> (ClientView, StepView) {
    (ClientView::Failed, StepView::fail(ErrorView::UnexpectedPacket))
}

/// The step of a session whose peer ended it.
pub open spec fn aborted(message: Seq<char>) -> (ClientView, StepView) {
    (ClientView::Failed, StepView::fail(ErrorView::PeerAborted(message)))
}

/// What the client does while it waits for the server's answer.
pub open spec fn when_await_hello_ack(event: EventView) -> (ClientView, StepView) {
    match event {
        EventView::Packet(PacketView::HelloAck { protocol_version, accepted, reason }) => {
            if !accepted || protocol_version != PROTOCOL_VERSION {
                (ClientView::Failed, StepView::fail(ErrorView::Rejected(reason_or_unknown(reason))))
            } else {
                (ClientView::AwaitIds, StepView::quiet(RequestView::ListIds))
            }
        },
        EventView::Packet(_) => unexpected(),
        _ => out_of_turn(),
    }
}

/// What the client does while it waits for the identifiers of its store.
pub open spec fn when_await_ids(event: EventView) -> (ClientView, StepView) {
    match event {
        EventView::Ids(ids) => (
            ClientView::Receiving { remaining: ids.to_set(), candidates: Set::empty() },
            StepView::quiet(RequestView::Receive),
        ),
        _ => out_of_turn(),
    }
}

/// What the client does while it waits for the server's entries.
pub open spec fn when_receiving(remaining: Set<u128>, candidates: Set<u128>, event: EventView) -> (
    ClientView,
    StepView,
) {
    match event {
        EventView::Packet(PacketView::ServerEntry(incoming)) => (
            ClientView::AwaitLocal {
                remaining: remaining.remove(incoming.id),
                candidates,
                incoming,
            },
            StepView::quiet(RequestView::Fetch(incoming.id)),
        ),
        EventView::Packet(PacketView::ServerEntriesEnd { total_sent }) => {
            let queue = sorted_ids(candidates.union(remaining));
            if queue.len() == 0 {
                (
                    ClientView::AwaitFinished,
                    StepView::one(
                        PacketView::ClientEntriesEnd { total_sent: 0 },
                        RequestView::Receive,
                    ),
                )
            } else {
                (
                    ClientView::AwaitEntry { queue, next: 0 },
                    StepView::quiet(RequestView::Fetch(queue[0])),
                )
            }
        },
        EventView::Packet(PacketView::Abort { message }) => aborted(message),
        EventView::Packet(_) => unexpected(),
        _ => out_of_turn(),
    }
}

/// What the client does once it has the local entry to hold against the
/// server's.
pub open spec fn when_await_local(
    remaining: Set<u128>,
    candidates: Set<u128>,
    incoming: EntryView,
    event: EventView,
) -> (ClientView, StepView) {
    match event {
        EventView::Entry(local) => match verdict(local, incoming) {
            Verdict::AdoptRemote => adopt(remaining, candidates, incoming),
            Verdict::KeepLocal => (
                ClientView::Receiving { remaining, candidates: candidates.insert(incoming.id) },
                StepView::one(accepted_ack(incoming.id), RequestView::Receive),
            ),
            Verdict::Conflict => (
                ClientView::AwaitAnswer { remaining, candidates, incoming },
                StepView::quiet(RequestView::Confirm),
            ),
        },
        _ => out_of_turn(),
    }
}

/// What the client does on the user's answer.
pub open spec fn when_await_answer(
    remaining: Set<u128>,
    candidates: Set<u128>,
    incoming: EntryView,
    event: EventView,
) -> (ClientView, StepView) {
    match event {
        EventView::Confirmed(answer) => if answer {
            adopt(remaining, candidates, incoming)
        } else {
            (
                ClientView::Failed,
                StepView {
                    send: seq![
                        PacketView::EntryAck {
                            entry_id: ulid_text_of(incoming.id),
                            accepted: false,
                            reason: Some(CONFLICT_REJECTED@),
                        },
                        PacketView::Abort { message: CONFLICT_REJECTED@ },
                    ],
                    next: RequestView::Finish(Err(ErrorView::AbortedByUser)),
                },
            )
        },
        _ => out_of_turn(),
    }
}

/// What the client does once it hears whether the server's entry was
/// stored.
pub open spec fn when_await_stored(
    remaining: Set<u128>,
    candidates: Set<u128>,
    id: u128,
    event: EventView,
) -> (ClientView, StepView) {
    match event {
        EventView::Stored(None) => (
            ClientView::Receiving { remaining, candidates },
            StepView::one(accepted_ack(id), RequestView::Receive),
        ),
        EventView::Stored(Some(failure)) => (
            ClientView::Failed,
            StepView::fail(ErrorView::ApplyFailed(failure)),
        ),
        _ => out_of_turn(),
    }
}

/// What the client does once it has the entry to send.
pub open spec fn when_await_entry(queue: Seq<u128>, next: nat, event: EventView) -> (
    ClientView,
    StepView,
) {
    match event {
        EventView::Entry(Some(entry)) => (
            ClientView::AwaitAck { queue, next },
            StepView::one(PacketView::ClientEntry(entry), RequestView::Receive),
        ),
        EventView::Entry(None) => (
            ClientView::Failed,
            StepView::fail(ErrorView::MissingEntry(queue[next as int])),
        ),
        _ => out_of_turn(),
    }
}

/// What the client does while it waits for the acknowledgement of the entry
/// that it sent.
pub open spec fn when_await_ack(queue: Seq<u128>, next: nat, event: EventView) -> (
    ClientView,
    StepView,
) {
    match event {
        EventView::Packet(PacketView::EntryAck { entry_id, accepted, reason }) => {
            if !accepted {
                (
                    ClientView::Failed,
                    StepView::one(
                        PacketView::Abort { message: reason_or_rejected(reason) },
                        RequestView::Finish(
                            Err(ErrorView::EntryRejected(reason_or_rejected(reason))),
                        ),
                    ),
                )
            } else if next + 1 < queue.len() {
                (
                    ClientView::AwaitEntry { queue, next: (next + 1) as nat },
                    StepView::quiet(RequestView::Fetch(queue[next as int + 1])),
                )
            } else {
                (
                    ClientView::AwaitFinished,
                    StepView::one(
                        PacketView::ClientEntriesEnd { total_sent: queue.len() as u64 },
                        RequestView::Receive,
                    ),
                )
            }
        },
        EventView::Packet(PacketView::Abort { message }) => aborted(message),
        EventView::Packet(_) => unexpected(),
        _ => out_of_turn(),
    }
}

/// What the client does while it waits for the server to finish.
pub open spec fn when_await_finished(event: EventView) -> (ClientView, StepView) {
    match event {
        EventView::Packet(PacketView::Finished) => (
            ClientView::Done,
            StepView::quiet(RequestView::Finish(Ok(()))),
        ),
        EventView::Packet(PacketView::Abort { message }) => aborted(message),
        EventView::Packet(_) => unexpected(),
        _ => out_of_turn(),
    }
}

/// What the client does on an event, and where it stands after it.
pub open spec fn client_step(state: ClientView, event: EventView) -> (ClientView, StepView) {
    match state {
        ClientView::AwaitHelloAck => when_await_hello_ack(event),
        ClientView::AwaitIds => when_await_ids(event),
        ClientView::Receiving { remaining, candidates } => when_receiving(
            remaining,
            candidates,
            event,
        ),
        ClientView::AwaitLocal { remaining, candidates, incoming } => when_await_local(
            remaining,
            candidates,
            incoming,
            event,
        ),
        ClientView::AwaitAnswer { remaining, candidates, incoming } => when_await_answer(
            remaining,
            candidates,
            incoming,
            event,
        ),
        ClientView::AwaitStored { remaining, candidates, id } => when_await_stored(
            remaining,
            candidates,
            id,
            event,
        ),
        ClientView::AwaitEntry { queue, next } => when_await_entry(queue, next, event),
        ClientView::AwaitAck { queue, next } => when_await_ack(queue, next, event),
        ClientView::AwaitFinished => when_await_finished(event),
        ClientView::Done => (ClientView::Done, StepView::fail(ErrorView::OutOfTurn)),
        ClientView::Failed => out_of_turn(),
    }
}

/// The kinds of places where a client's session can stand.
#[derive(Clone, Copy, Debug, PartialEq, Eq, Structural)]
enum Phase {
    AwaitHelloAck,
    AwaitIds,
    Receiving,
    AwaitLocal,
    AwaitAnswer,
    AwaitStored,
    AwaitEntry,
    AwaitAck,
    AwaitFinished,
    Done,
    Failed,
}

/// A client's session.
pub struct ClientSession {
    phase: Phase,
    remaining: IdSet,
    candidates: IdSet,
    incoming: Option<Entry>,
    pending: ServiceId,
    queue: Vec<ServiceId>,
    next: usize,
}

impl View for ClientSession {
    type V = ClientView;

    closed spec fn view(&self) -> ClientView {
        match self.phase {
            Phase::AwaitHelloAck => ClientView::AwaitHelloAck,
            Phase::AwaitIds => ClientView::AwaitIds,
            Phase::Receiving => ClientView::Receiving {
                remaining: self.remaining@,
                candidates: self.candidates@,
            },
            Phase::AwaitLocal => ClientView::AwaitLocal {
                remaining: self.remaining@,
                candidates: self.candidates@,
                incoming: self.incoming->0@,
            },
            Phase::AwaitAnswer => ClientView::AwaitAnswer {
                remaining: self.remaining@,
                candidates: self.candidates@,
                incoming: self.incoming->0@,
            },
            Phase::AwaitStored => ClientView::AwaitStored {
                remaining: self.remaining@,
                candidates: self.candidates@,
                id: self.pending@,
            },
            Phase::AwaitEntry => ClientView::AwaitEntry {
                queue: id_values(self.queue@),
                next: self.next as nat,
            },
            Phase::AwaitAck => ClientView::AwaitAck {
                queue: id_values(self.queue@),
                next: self.next as nat,
            },
            Phase::AwaitFinished => ClientView::AwaitFinished,
            Phase::Done => ClientView::Done,
            Phase::Failed => ClientView::Failed,
        }
    }
}

impl ClientSession {
    #[verifier::type_invariant]
    spec fn in_range(self) -> bool {
        &&& (self.phase == Phase::AwaitEntry || self.phase == Phase::AwaitAck) ==> self.next
            < self.queue@.len()
        &&& (self.phase == Phase::AwaitLocal || self.phase == Phase::AwaitAnswer)
            ==> self.incoming is Some
    }

    /// A session that has failed.
    fn failed() -> (r: Self)
        ensures
            r@ == ClientView::Failed,
    {
        ClientSession {
            phase: Phase::Failed,
            remaining: IdSet::new(),
            candidates: IdSet::new(),
            incoming: None,
            pending: ServiceId { value: 0 },
            queue: Vec::new(),
            next: 0,
        }
    }

    /// A session in a place that needs no more than the two sets.
    fn plain(phase: Phase, remaining: IdSet, candidates: IdSet, pending: ServiceId) -> (r: Self)
        requires
            phase != Phase::AwaitEntry,
            phase != Phase::AwaitAck,
            phase != Phase::AwaitLocal,
            phase != Phase::AwaitAnswer,
        ensures
            r.phase == phase,
            r.remaining@ == remaining@,
            r.candidates@ == candidates@,
            r.pending == pending,
    {
        ClientSession {
            phase,
            remaining,
            candidates,
            incoming: None,
            pending,
            queue: Vec::new(),
            next: 0,
        }
    }

    /// Starts a session as the node `node_id` at the time `now_epoch_ms`:
    /// the `Hello` is to be sent, and then a packet to be received.
    pub fn start(node_id: String, now_epoch_ms: u64) -> (r: (Self, Step))
        ensures
            (r.0@, r.1@) == client_start(node_id@, now_epoch_ms),
    {
        let hello = SyncPacket::hello(PROTOCOL_VERSION, node_id, NodeRole::Client, now_epoch_ms);
        let session = Self::plain(
            Phase::AwaitHelloAck,
            IdSet::new(),
            IdSet::new(),
            ServiceId { value: 0 },
        );
        (session, Step::one(hello, Request::Receive))
    }

    /// Starts a session under a new node name at the current time.
    pub fn begin() -> (r: (Self, Step))
        ensures
            exists|node_id: Seq<char>, now_epoch_ms: u64|
                (r.0@, r.1@) == client_start(node_id, now_epoch_ms),
    {
        let node_id = ServiceId::new().to_string();
        let now = now_millis();
        let now_epoch_ms: u64 = #[verifier::truncate]
        (now as u64);
        let ghost name = node_id@;
        let r = Self::start(node_id, now_epoch_ms);
        assert((r.0@, r.1@) == client_start(name, now_epoch_ms));
        r
    }

    /// Whether the session ended well.
    pub fn is_done(&self) -> (r: bool)
        ensures
            r == (self@ is Done),
    {
        self.phase == Phase::Done
    }

    /// Whether the session failed.
    pub fn is_failed(&self) -> (r: bool)
        ensures
            r == (self@ is Failed),
    {
        self.phase == Phase::Failed
    }

    /// Takes an event, and says what to send and what to do next.
    pub fn step(self, event: SyncEvent) -> (r: (Self, Step))
        ensures
            (r.0@, r.1@) == client_step(self@, event@),
    {
        proof {
            use_type_invariant(&self);
        }
        let ClientSession { phase, remaining, candidates, incoming, pending, queue, next } = self;
        match phase {
            Phase::AwaitHelloAck => Self::do_await_hello_ack(event),
            Phase::AwaitIds => Self::do_await_ids(event),
            Phase::Receiving => Self::do_receiving(remaining, candidates, event),
            Phase::AwaitLocal => match incoming {
                Some(entry) => Self::do_await_local(remaining, candidates, entry, event),
                None => Self::do_out_of_turn(),
            },
            Phase::AwaitAnswer => match incoming {
                Some(entry) => Self::do_await_answer(remaining, candidates, entry, event),
                None => Self::do_out_of_turn(),
            },
            Phase::AwaitStored => Self::do_await_stored(remaining, candidates, pending, event),
            Phase::AwaitEntry => Self::do_await_entry(queue, next, event),
            Phase::AwaitAck => Self::do_await_ack(queue, next, event),
            Phase::AwaitFinished => Self::do_await_finished(event),
            Phase::Done => (
                Self::plain(Phase::Done, remaining, candidates, pending),
                Step::fail(SyncError::OutOfTurn),
            ),
            Phase::Failed => Self::do_out_of_turn(),
        }
    }

    fn do_out_of_turn() -> (r: (Self, Step))
        ensures
            (r.0@, r.1@) == out_of_turn(),
    {
        (Self::failed(), Step::fail(SyncError::OutOfTurn))
    }

    fn do_unexpected() -> (r: (Self, Step))
        ensures
            (r.0@, r.1@) == unexpected(),
    {
        (Self::failed(), Step::fail(SyncError::UnexpectedPacket))
    }

    fn do_aborted(reason: String) -> (r: (Self, Step))
        ensures
            (r.0@, r.1@) == aborted(reason@),
    {
        (Self::failed(), Step::fail(SyncError::PeerAborted(reason)))
    }

    fn do_adopt(remaining: IdSet, candidates: IdSet, entry: Entry) -> (r: (Self, Step))
        ensures
            (r.0@, r.1@) == adopt(remaining@, candidates@, entry@),
    {
        let id = entry.id();
        (
            Self::plain(Phase::AwaitStored, remaining, candidates, id),
            Step::quiet(Request::Store(entry)),
        )
    }

    fn do_await_hello_ack(event: SyncEvent) -> (r: (Self, Step))
        ensures
            (r.0@, r.1@) == when_await_hello_ack(event@),
    {
        match event {
            SyncEvent::Packet(SyncPacket::HelloAck(ack)) => {
                if !ack.accepted || ack.protocol_version != PROTOCOL_VERSION {
                    let reason = match ack.reason {
                        Some(text) => text,
                        None => REASON_UNKNOWN.to_owned(),
                    };
                    (Self::failed(), Step::fail(SyncError::Rejected(reason)))
                } else {
                    (
                        Self::plain(
                            Phase::AwaitIds,
                            IdSet::new(),
                            IdSet::new(),
                            ServiceId { value: 0 },
                        ),
                        Step::quiet(Request::ListIds),
                    )
                }
            },
            SyncEvent::Packet(_) => Self::do_unexpected(),
            _ => Self::do_out_of_turn(),
        }
    }

    fn do_await_ids(event: SyncEvent) -> (r: (Self, Step))
        ensures
            (r.0@, r.1@) == when_await_ids(event@),
    {
        match event {
            SyncEvent::Ids(ids) => {
                let mut all = IdSet::new();
                all.extend(&ids);
                assert(all@ =~= id_values(ids@).to_set());
                (
                    Self::plain(Phase::Receiving, all, IdSet::new(), ServiceId { value: 0 }),
                    Step::quiet(Request::Receive),
                )
            },
            _ => Self::do_out_of_turn(),
        }
    }

    fn do_receiving(remaining: IdSet, candidates: IdSet, event: SyncEvent) -> (r: (Self, Step))
        ensures
            (r.0@, r.1@) == when_receiving(remaining@, candidates@, event@),
    {
        let mut remaining = remaining;
        let mut candidates = candidates;
        match event {
            SyncEvent::Packet(SyncPacket::ServerEntry(entry)) => {
                let id = entry.id();
                remaining.remove(id);
                let session = ClientSession {
                    phase: Phase::AwaitLocal,
                    remaining,
                    candidates,
                    incoming: Some(entry),
                    pending: id,
                    queue: Vec::new(),
                    next: 0,
                };
                (session, Step::quiet(Request::Fetch(id)))
            },
            SyncEvent::Packet(SyncPacket::ServerEntriesEnd(_)) => {
                let ghost both = candidates@.union(remaining@);
                let rest = remaining.to_vec();
                candidates.extend(&rest);
                proof {
                    assert(id_values(rest@).to_set() =~= remaining@);
                    assert(candidates@ =~= both);
                }
                let queue = candidates.to_vec();
                if queue.len() == 0 {
                    (
                        Self::plain(
                            Phase::AwaitFinished,
                            IdSet::new(),
                            IdSet::new(),
                            ServiceId { value: 0 },
                        ),
                        Step::one(SyncPacket::client_entries_end(0), Request::Receive),
                    )
                } else {
                    let first = queue[0];
                    let session = ClientSession {
                        phase: Phase::AwaitEntry,
                        remaining: IdSet::new(),
                        candidates: IdSet::new(),
                        incoming: None,
                        pending: first,
                        queue,
                        next: 0,
                    };
                    (session, Step::quiet(Request::Fetch(first)))
                }
            },
            SyncEvent::Packet(SyncPacket::Abort(abort)) => Self::do_aborted(abort.reason),
            SyncEvent::Packet(_) => Self::do_unexpected(),
            _ => Self::do_out_of_turn(),
        }
    }

    fn do_await_local(remaining: IdSet, candidates: IdSet, entry: Entry, event: SyncEvent) -> (r: (
        Self,
        Step,
    ))
        ensures
            (r.0@, r.1@) == when_await_local(remaining@, candidates@, entry@, event@),
    {
        let mut candidates = candidates;
        match event {
            SyncEvent::Entry(local) => {
                let id = entry.id();
                match compare_entries(local.as_ref(), &entry) {
                    Verdict::AdoptRemote => Self::do_adopt(remaining, candidates, entry),
                    Verdict::KeepLocal => {
                        candidates.insert(id);
                        let ack = SyncPacket::entry_ack(id.to_string(), true, None);
                        (
                            Self::plain(Phase::Receiving, remaining, candidates, id),
                            Step::one(ack, Request::Receive),
                        )
                    },
                    Verdict::Conflict => {
                        let session = ClientSession {
                            phase: Phase::AwaitAnswer,
                            remaining,
                            candidates,
                            incoming: Some(entry),
                            pending: id,
                            queue: Vec::new(),
                            next: 0,
                        };
                        (session, Step::quiet(Request::Confirm))
                    },
                }
            },
            _ => Self::do_out_of_turn(),
        }
    }

    fn do_await_answer(remaining: IdSet, candidates: IdSet, entry: Entry, event: SyncEvent) -> (r:
        (Self, Step))
        ensures
            (r.0@, r.1@) == when_await_answer(remaining@, candidates@, entry@, event@),
    {
        match event {
            SyncEvent::Confirmed(answer) => {
                if answer {
                    Self::do_adopt(remaining, candidates, entry)
                } else {
                    let ack = SyncPacket::entry_ack(
                        entry.id().to_string(),
                        false,
                        Some(CONFLICT_REJECTED.to_owned()),
                    );
                    let abort = SyncPacket::abort(CONFLICT_REJECTED.to_owned());
                    (
                        Self::failed(),
                        Step::two(ack, abort, Request::Finish(Err(SyncError::AbortedByUser))),
                    )
                }
            },
            _ => Self::do_out_of_turn(),
        }
    }

    fn do_await_stored(
        remaining: IdSet,
        candidates: IdSet,
        pending: ServiceId,
        event: SyncEvent,
    ) -> (r: (Self, Step))
        ensures
            (r.0@, r.1@) == when_await_stored(remaining@, candidates@, pending@, event@),
    {
        match event {
            SyncEvent::Stored(None) => {
                let ack = SyncPacket::entry_ack(pending.to_string(), true, None);
                (
                    Self::plain(Phase::Receiving, remaining, candidates, pending),
                    Step::one(ack, Request::Receive),
                )
            },
            SyncEvent::Stored(Some(failure)) => (
                Self::failed(),
                Step::fail(SyncError::ApplyFailed(failure)),
            ),
            _ => Self::do_out_of_turn(),
        }
    }

    fn do_await_entry(queue: Vec<ServiceId>, next: usize, event: SyncEvent) -> (r: (Self, Step))
        requires
            next < queue@.len(),
        ensures
            (r.0@, r.1@) == when_await_entry(id_values(queue@), next as nat, event@),
    {
        match event {
            SyncEvent::Entry(Some(entry)) => {
                let session = ClientSession {
                    phase: Phase::AwaitAck,
                    remaining: IdSet::new(),
                    candidates: IdSet::new(),
                    incoming: None,
                    pending: queue[next],
                    queue,
                    next,
                };
                (session, Step::one(SyncPacket::client_entry(entry), Request::Receive))
            },
            SyncEvent::Entry(None) => {
                let id = queue[next];
                (Self::failed(), Step::fail(SyncError::MissingEntry(id)))
            },
            _ => Self::do_out_of_turn(),
        }
    }

    fn do_await_ack(queue: Vec<ServiceId>, next: usize, event: SyncEvent) -> (r: (Self, Step))
        requires
            next < queue@.len(),
        ensures
            (r.0@, r.1@) == when_await_ack(id_values(queue@), next as nat, event@),
    {
        match event {
            SyncEvent::Packet(SyncPacket::EntryAck(ack)) => {
                if !ack.accepted {
                    let reason = match ack.reason {
                        Some(text) => text,
                        None => REASON_REJECTED.to_owned(),
                    };
                    let abort = SyncPacket::abort(reason.clone());
                    (
                        Self::failed(),
                        Step::one(abort, Request::Finish(Err(SyncError::EntryRejected(reason)))),
                    )
                } else if next < queue.len() - 1 {
                    let id = queue[next + 1];
                    let session = ClientSession {
                        phase: Phase::AwaitEntry,
                        remaining: IdSet::new(),
                        candidates: IdSet::new(),
                        incoming: None,
                        pending: id,
                        queue,
                        next: next + 1,
                    };
                    (session, Step::quiet(Request::Fetch(id)))
                } else {
                    let total = queue.len() as u64;
                    (
                        Self::plain(
                            Phase::AwaitFinished,
                            IdSet::new(),
                            IdSet::new(),
                            ServiceId { value: 0 },
                        ),
                        Step::one(SyncPacket::client_entries_end(total), Request::Receive),
                    )
                }
            },
            SyncEvent::Packet(SyncPacket::Abort(abort)) => Self::do_aborted(abort.reason),
            SyncEvent::Packet(_) => Self::do_unexpected(),
            _ => Self::do_out_of_turn(),
        }
    }

    fn do_await_finished(event: SyncEvent) -> (r: (Self, Step))
        ensures
            (r.0@, r.1@) == when_await_finished(event@),
    {
        match event {
            SyncEvent::Packet(SyncPacket::Finished) => (
                Self::plain(Phase::Done, IdSet::new(), IdSet::new(), ServiceId { value: 0 }),
                Step::quiet(Request::Finish(Ok(()))),
            ),
            SyncEvent::Packet(SyncPacket::Abort(abort)) => Self::do_aborted(abort.reason),
            SyncEvent::Packet(_) => Self::do_unexpected(),
            _ => Self::do_out_of_turn(),
        }
    }
}

} // verus!
