//! What a session and the program that runs it say to each other. A session
//! decides; the program receives and sends packets, reads and writes the
//! store, asks the user, and hands back what came of it.

use crate::command::sync::{packet_views, PacketView, SyncPacket};
use crate::database::tables::id_values;
use crate::database::types::{Entry, EntryView, ServiceId};
use vstd::prelude::*;

verus! {

/// Why a session failed.
#[derive(Debug)]
pub enum SyncError {
    /// The peer sent a packet that the protocol does not have at this point.
    UnexpectedPacket,
    /// The peer announced another version of the protocol.
    VersionMismatch,
    /// The peer announced a role that it cannot have.
    RoleMismatch,
    /// The other side did not accept the session, for this reason.
    Rejected(String),
    /// An entry that was to be sent is not in the store.
    MissingEntry(ServiceId),
    /// The peer did not take an entry, for this reason.
    EntryRejected(String),
    /// The peer ended the session, for this reason.
    PeerAborted(String),
    /// An entry of the peer could not be stored, for this reason.
    ApplyFailed(String),
    /// The user declined to resolve a conflict.
    AbortedByUser,
    /// The session was handed something that it did not ask for.
    OutOfTurn,
}

/// What an error holds.
pub enum ErrorView {
    UnexpectedPacket,
    VersionMismatch,
    RoleMismatch,
    Rejected(Seq<char>),
    MissingEntry(u128),
    EntryRejected(Seq<char>),
    PeerAborted(Seq<char>),
    ApplyFailed(Seq<char>),
    AbortedByUser,
    OutOfTurn,
}

impl View for SyncError {
    type V = ErrorView;

    open spec fn view(&self) -> ErrorView {
        match *self {
            SyncError::UnexpectedPacket => ErrorView::UnexpectedPacket,
            SyncError::VersionMismatch => ErrorView::VersionMismatch,
            SyncError::RoleMismatch => ErrorView::RoleMismatch,
            SyncError::Rejected(reason) => ErrorView::Rejected(reason@),
            SyncError::MissingEntry(id) => ErrorView::MissingEntry(id@),
            SyncError::EntryRejected(reason) => ErrorView::EntryRejected(reason@),
            SyncError::PeerAborted(reason) => ErrorView::PeerAborted(reason@),
            SyncError::ApplyFailed(reason) => ErrorView::ApplyFailed(reason@),
            SyncError::AbortedByUser => ErrorView::AbortedByUser,
            SyncError::OutOfTurn => ErrorView::OutOfTurn,
        }
    }
}

/// What the program hands to a session.
#[derive(Debug)]
pub enum SyncEvent {
    /// A packet of the peer.
    Packet(SyncPacket),
    /// The identifiers of all entries of the store.
    Ids(Vec<ServiceId>),
    /// The entry that the store holds under the identifier asked for.
    Entry(Option<Entry>),
    /// The entry was stored, or why it was not.
    Stored(Option<String>),
    /// The user's answer.
    Confirmed(bool),
}

/// What an event holds.
pub enum EventView {
    Packet(PacketView),
    Ids(Seq<u128>),
    Entry(Option<EntryView>),
    Stored(Option<Seq<char>>),
    Confirmed(bool),
}

impl View for SyncEvent {
    type V = EventView;

    open spec fn view(&self) -> EventView {
        match *self {
            SyncEvent::Packet(packet) => EventView::Packet(packet@),
            SyncEvent::Ids(ids) => EventView::Ids(id_values(ids@)),
            SyncEvent::Entry(entry) => EventView::Entry(
                match entry {
                    Some(e) => Some(e@),
                    None => None,
                },
            ),
            SyncEvent::Stored(failure) => EventView::Stored(
                match failure {
                    Some(reason) => Some(reason@),
                    None => None,
                },
            ),
            SyncEvent::Confirmed(answer) => EventView::Confirmed(answer),
        }
    }
}

/// What a session asks the program to do next.
#[derive(Debug)]
pub enum Request {
    /// Receive a packet, and hand it over.
    Receive,
    /// Hand over the identifiers of all entries of the store.
    ListIds,
    /// Hand over the entry under this identifier.
    Fetch(ServiceId),
    /// Put this entry into the store, and say whether that went well.
    Store(Entry),
    /// Ask the user whether the server's entry shall replace the local one.
    Confirm,
    /// End the session with this result.
    Finish(Result<(), SyncError>),
}

/// What a request holds.
pub enum RequestView {
    Receive,
    ListIds,
    Fetch(u128),
    Store(EntryView),
    Confirm,
    Finish(Result<(), ErrorView>),
}

impl View for Request {
    type V = RequestView;

    open spec fn view(&self) -> RequestView {
        match *self {
            Request::Receive => RequestView::Receive,
            Request::ListIds => RequestView::ListIds,
            Request::Fetch(id) => RequestView::Fetch(id@),
            Request::Store(entry) => RequestView::Store(entry@),
            Request::Confirm => RequestView::Confirm,
            Request::Finish(result) => RequestView::Finish(
                match result {
                    Ok(_) => Ok(()),
                    Err(err) => Err(err@),
                },
            ),
        }
    }
}

/// One step of a session: the packets to send, in this order, and what to
/// do after that.
#[derive(Debug)]
pub struct Step {
    pub send: Vec<SyncPacket>,
    pub next: Request,
}

/// What a step holds.
pub struct StepView {
    pub send: Seq<PacketView>,
    pub next: RequestView,
}

impl View for Step {
    type V = StepView;

    open spec fn view(&self) -> StepView {
        StepView { send: packet_views(self.send@), next: self.next@ }
    }
}

impl StepView {
    /// A step that sends nothing.
    pub open spec fn quiet(next: RequestView) -> StepView {
        StepView { send: Seq::empty(), next }
    }

    /// A step that sends one packet.
    pub open spec fn one(packet: PacketView, next: RequestView) -> StepView {
        StepView { send: seq![packet], next }
    }

    /// A step that ends the session with an error and sends nothing.
    pub open spec fn fail(err: ErrorView) -> StepView {
        StepView { send: Seq::empty(), next: RequestView::Finish(Err(err)) }
    }
}

impl Step {
    /// A step that sends nothing.
    pub fn quiet(next: Request) -> (r: Step)
        ensures
            r@ == StepView::quiet(next@),
    {
        let r = Step { send: Vec::new(), next };
        assert(r@.send =~= Seq::empty());
        r
    }

    /// A step that sends one packet.
    pub fn one(packet: SyncPacket, next: Request) -> (r: Step)
        ensures
            r@ == StepView::one(packet@, next@),
    {
        let mut send: Vec<SyncPacket> = Vec::new();
        send.push(packet);
        let r = Step { send, next };
        assert(r@.send =~= seq![packet@]);
        r
    }

    /// A step that sends two packets.
    pub fn two(first: SyncPacket, second: SyncPacket, next: Request) -> (r: Step)
        ensures
            r@ == (StepView { send: seq![first@, second@], next: next@ }),
    {
        let mut send: Vec<SyncPacket> = Vec::new();
        send.push(first);
        send.push(second);
        let r = Step { send, next };
        assert(r@.send =~= seq![first@, second@]);
        r
    }

    /// A step that ends the session with an error and sends nothing.
    pub fn fail(err: SyncError) -> (r: Step)
        ensures
            r@ == StepView::fail(err@),
    {
        Step::quiet(Request::Finish(Err(err)))
    }
}

} // verus!
