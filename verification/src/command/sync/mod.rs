//! Synchronisation of two stores: the packets, their framing, and the two
//! roles of a session.

pub mod client;
pub mod frame;
pub mod idset;
pub mod laws;
pub mod local;
pub mod server;
pub mod session;

use crate::database::types::{Entry, EntryView};
use crate::text::opt_text;
use vstd::prelude::*;

verus! {

/// The version of the protocol. Two peers must announce the same one.
pub const PROTOCOL_VERSION: u16 = 1;

/// The role of a node in a session.
#[derive(Clone, Copy, Debug, PartialEq, Eq, Structural)]
pub enum NodeRole {
    /// The side that listens, and sends all its entries first.
    Server,
    /// The side that connects, and sends what the server lacks.
    Client,
}

/// The first packet of a session: who speaks, and in which version.
#[derive(Debug)]
pub struct Hello {
    pub protocol_version: u16,
    pub node_id: String,
    pub role: NodeRole,
    pub now_epoch_ms: u64,
}

/// The answer to `Hello`: whether the session is accepted.
#[derive(Debug)]
pub struct HelloAck {
    pub protocol_version: u16,
    pub accepted: bool,
    pub reason: Option<String>,
}

/// The end of the server's entries, with their number.
#[derive(Debug)]
pub struct ServerEntriesEnd {
    pub total_sent: u64,
}

/// The end of the client's entries, with their number.
#[derive(Debug)]
pub struct ClientEntriesEnd {
    pub total_sent: u64,
}

/// Whether the entry that was sent last was taken.
#[derive(Debug)]
pub struct EntryAck {
    pub entry_id: String,
    pub accepted: bool,
    pub reason: Option<String>,
}

/// The end of a session that failed.
#[derive(Debug)]
pub struct Abort {
    pub reason: String,
}

/// A packet of the protocol.
#[derive(Debug)]
pub enum SyncPacket {
    Hello(Hello),
    HelloAck(HelloAck),
    ServerEntry(Entry),
    ServerEntriesEnd(ServerEntriesEnd),
    ClientEntry(Entry),
    ClientEntriesEnd(ClientEntriesEnd),
    EntryAck(EntryAck),
    Finished,
    Abort(Abort),
}

/// What a packet holds.
pub enum PacketView {
    Hello { protocol_version: u16, node_id: Seq<char>, role: NodeRole, now_epoch_ms: u64 },
    HelloAck { protocol_version: u16, accepted: bool, reason: Option<Seq<char>> },
    ServerEntry(EntryView),
    ServerEntriesEnd { total_sent: u64 },
    ClientEntry(EntryView),
    ClientEntriesEnd { total_sent: u64 },
    EntryAck { entry_id: Seq<char>, accepted: bool, reason: Option<Seq<char>> },
    Finished,
    Abort { message: Seq<char> },
}

impl View for SyncPacket {
    type V = PacketView;

    open spec fn view(&self) -> PacketView {
        match *self {
            SyncPacket::Hello(h) => PacketView::Hello {
                protocol_version: h.protocol_version,
                node_id: h.node_id@,
                role: h.role,
                now_epoch_ms: h.now_epoch_ms,
            },
            SyncPacket::HelloAck(a) => PacketView::HelloAck {
                protocol_version: a.protocol_version,
                accepted: a.accepted,
                reason: opt_text(a.reason),
            },
            SyncPacket::ServerEntry(e) => PacketView::ServerEntry(e@),
            SyncPacket::ServerEntriesEnd(e) => PacketView::ServerEntriesEnd {
                total_sent: e.total_sent,
            },
            SyncPacket::ClientEntry(e) => PacketView::ClientEntry(e@),
            SyncPacket::ClientEntriesEnd(e) => PacketView::ClientEntriesEnd {
                total_sent: e.total_sent,
            },
            SyncPacket::EntryAck(a) => PacketView::EntryAck {
                entry_id: a.entry_id@,
                accepted: a.accepted,
                reason: opt_text(a.reason),
            },
            SyncPacket::Finished => PacketView::Finished,
            SyncPacket::Abort(a) => PacketView::Abort { message: a.reason@ },
        }
    }
}

/// The packets of a list.
pub open spec fn packet_views(packets: Seq<SyncPacket>) -> Seq<PacketView> {
    Seq::new(packets.len(), |i: int| packets[i]@)
}

impl SyncPacket {
    /// A `Hello` packet.
    pub fn hello(protocol_version: u16, node_id: String, role: NodeRole, now_epoch_ms: u64) -> (r:
        Self)
        ensures
            r@ == (PacketView::Hello { protocol_version, node_id: node_id@, role, now_epoch_ms }),
    {
        SyncPacket::Hello(Hello { protocol_version, node_id, role, now_epoch_ms })
    }

    /// A `HelloAck` packet.
    pub fn hello_ack(protocol_version: u16, accepted: bool, reason: Option<String>) -> (r: Self)
        ensures
            r@ == (PacketView::HelloAck { protocol_version, accepted, reason: opt_text(reason) }),
    {
        SyncPacket::HelloAck(HelloAck { protocol_version, accepted, reason })
    }

    /// A packet with an entry of the server.
    pub fn server_entry(entry: Entry) -> (r: Self)
        ensures
            r@ == PacketView::ServerEntry(entry@),
    {
        SyncPacket::ServerEntry(entry)
    }

    /// The packet that ends the server's entries.
    pub fn server_entries_end(total_sent: u64) -> (r: Self)
        ensures
            r@ == (PacketView::ServerEntriesEnd { total_sent }),
    {
        SyncPacket::ServerEntriesEnd(ServerEntriesEnd { total_sent })
    }

    /// A packet with an entry of the client.
    pub fn client_entry(entry: Entry) -> (r: Self)
        ensures
            r@ == PacketView::ClientEntry(entry@),
    {
        SyncPacket::ClientEntry(entry)
    }

    /// The packet that ends the client's entries.
    pub fn client_entries_end(total_sent: u64) -> (r: Self)
        ensures
            r@ == (PacketView::ClientEntriesEnd { total_sent }),
    {
        SyncPacket::ClientEntriesEnd(ClientEntriesEnd { total_sent })
    }

    /// An `EntryAck` packet.
    pub fn entry_ack(entry_id: String, accepted: bool, reason: Option<String>) -> (r: Self)
        ensures
            r@ == (PacketView::EntryAck {
                entry_id: entry_id@,
                accepted,
                reason: opt_text(reason),
            }),
    {
        SyncPacket::EntryAck(EntryAck { entry_id, accepted, reason })
    }

    /// The `Finished` packet.
    pub fn finished() -> (r: Self)
        ensures
            r@ == PacketView::Finished,
    {
        SyncPacket::Finished
    }

    /// An `Abort` packet.
    pub fn abort(reason: String) -> (r: Self)
        ensures
            r@ == (PacketView::Abort { message: reason@ }),
    {
        SyncPacket::Abort(Abort { reason })
    }
}

} // verus!
