use std::collections::VecDeque;

use pwmgr::command::prompt::Prompter;
use pwmgr::command::sync::client::{
    compare_entries, decide_entry, is_same_entry, resolve, ClientSession, EntryDecision, Verdict,
};
use pwmgr::command::sync::frame::{encode_length, frame, frame_length, unframe, FrameError};
use pwmgr::command::sync::idset::IdSet;
use pwmgr::command::sync::local::serve;
use pwmgr::command::sync::server::ServerSession;
use pwmgr::command::sync::session::{Request, Step, SyncError, SyncEvent};
use pwmgr::command::sync::{NodeRole, SyncPacket, PROTOCOL_VERSION};
use pwmgr::database::properties::Properties;
use pwmgr::database::types::{Entry, ServiceId};
use pwmgr::database::{EntryManager, EntryWriter};

fn entry(id: u128, service: &str, tags: &[&str], last_update: Option<i64>) -> Entry {
    Entry::from_parts(
        ServiceId { value: id },
        service.to_string(),
        vec![],
        tags.iter().map(|s| s.to_string()).collect(),
        Properties::new(),
        last_update,
        None,
    )
}

struct Scripted {
    answer: Result<bool, String>,
}

impl Prompter for Scripted {
    fn ask_retry(&self, _msg: &str) -> Result<bool, String> {
        self.answer.clone()
    }

    fn confirm(&self, _msg: &str, _default: bool, _label: Option<&str>) -> Result<bool, String> {
        self.answer.clone()
    }
}

struct Outcome {
    server: Result<(), SyncError>,
    client: Result<(), SyncError>,
    entries_to_client: usize,
    entries_to_server: usize,
}

fn count_entries(packets: &[SyncPacket]) -> usize {
    packets
        .iter()
        .filter(|p| matches!(p, SyncPacket::ServerEntry(_) | SyncPacket::ClientEntry(_)))
        .count()
}

fn run_session(
    server_store: &mut EntryManager,
    client_store: &mut EntryManager,
    hello: SyncPacket,
    mut answers: Vec<bool>,
) -> Outcome {
    let mut server_writer: EntryWriter = server_store.begin_write();
    let mut client_writer: EntryWriter = client_store.begin_write();
    let mut to_server: VecDeque<SyncPacket> = VecDeque::new();
    let mut to_client: VecDeque<SyncPacket> = VecDeque::new();
    let mut entries_to_client = 0;
    let mut entries_to_server = 0;

    let mut server = Some(ServerSession::new());
    let mut server_next = Some(Request::Receive);
    let mut server_result: Option<Result<(), SyncError>> = None;

    let (started, first) = ClientSession::start("node".to_string(), 0);
    drop(first);
    let mut client = Some(started);
    to_server.push_back(hello);
    let mut client_next = Some(Request::Receive);
    let mut client_result: Option<Result<(), SyncError>> = None;

    for _ in 0..10_000 {
        let mut moved = false;

        if server_result.is_none() {
            let event = match server_next.take().unwrap() {
                Request::Receive => match to_server.pop_front() {
                    Some(packet) => Some(SyncEvent::Packet(packet)),
                    None => {
                        server_next = Some(Request::Receive);
                        None
                    }
                },
                Request::Finish(result) => {
                    server_result = Some(result);
                    None
                }
                Request::Confirm => panic!("the server asks no user"),
                other => Some(serve(&mut server_writer, other).ok().unwrap()),
            };
            if let Some(event) = event {
                let (session, Step { send, next }) = server.take().unwrap().step(event);
                entries_to_client += count_entries(&send);
                to_client.extend(send);
                server = Some(session);
                server_next = Some(next);
                moved = true;
            } else if server_result.is_some() {
                moved = true;
            }
        }

        if client_result.is_none() {
            let event = match client_next.take().unwrap() {
                Request::Receive => match to_client.pop_front() {
                    Some(packet) => Some(SyncEvent::Packet(packet)),
                    None => {
                        client_next = Some(Request::Receive);
                        None
                    }
                },
                Request::Finish(result) => {
                    client_result = Some(result);
                    None
                }
                Request::Confirm => Some(SyncEvent::Confirmed(answers.remove(0))),
                other => Some(serve(&mut client_writer, other).ok().unwrap()),
            };
            if let Some(event) = event {
                let (session, Step { send, next }) = client.take().unwrap().step(event);
                entries_to_server += count_entries(&send);
                to_server.extend(send);
                client = Some(session);
                client_next = Some(next);
                moved = true;
            } else if client_result.is_some() {
                moved = true;
            }
        }

        if !moved {
            break;
        }
    }

    let server_result = server_result.unwrap_or(Err(SyncError::OutOfTurn));
    let client_result = client_result.unwrap_or(Err(SyncError::OutOfTurn));
    if server_result.is_ok() {
        server_store.commit(server_writer);
    }
    if client_result.is_ok() {
        client_store.commit(client_writer);
    }
    Outcome {
        server: server_result,
        client: client_result,
        entries_to_client,
        entries_to_server,
    }
}

fn hello(version: u16) -> SyncPacket {
    SyncPacket::hello(version, "node".to_string(), NodeRole::Client, 0)
}

#[test]
fn handshake_with_the_same_version_completes() {
    let mut server = EntryManager::new();
    let mut client = EntryManager::new();
    let outcome = run_session(&mut server, &mut client, hello(1), vec![]);
    assert!(outcome.server.is_ok());
    assert!(outcome.client.is_ok());
    assert_eq!(PROTOCOL_VERSION, 1);
}

#[test]
fn handshake_with_another_version_is_refused() {
    let mut server = EntryManager::new();
    server.put(&entry(1, "A", &["t"], Some(1)));
    let mut client = EntryManager::new();
    client.put(&entry(2, "B", &["t"], Some(1)));

    let (session, step) = ServerSession::new().step(SyncEvent::Packet(hello(2)));
    assert!(session.is_failed());
    assert_eq!(step.send.len(), 1);
    match &step.send[0] {
        SyncPacket::HelloAck(ack) => {
            assert!(!ack.accepted);
            assert_eq!(ack.protocol_version, 1);
            assert_eq!(ack.reason, Some("protocol version mismatch".to_string()));
        }
        other => panic!("unexpected packet {:?}", other),
    }
    assert!(matches!(step.next, Request::Finish(Err(SyncError::VersionMismatch))));

    let outcome = run_session(&mut server, &mut client, hello(2), vec![]);
    assert!(matches!(outcome.server, Err(SyncError::VersionMismatch)));
    assert!(matches!(outcome.client, Err(SyncError::Rejected(ref reason)) if reason == "protocol version mismatch"));
    assert_eq!(outcome.entries_to_client, 0);
    assert_eq!(outcome.entries_to_server, 0);
    assert_eq!(server.all_service(), vec![ServiceId { value: 1 }]);
    assert_eq!(client.all_service(), vec![ServiceId { value: 2 }]);
}

#[test]
fn handshake_with_a_server_as_peer_is_refused() {
    let packet = SyncPacket::hello(1, "node".to_string(), NodeRole::Server, 0);
    let (session, step) = ServerSession::new().step(SyncEvent::Packet(packet));
    assert!(session.is_failed());
    match &step.send[0] {
        SyncPacket::HelloAck(ack) => {
            assert!(!ack.accepted);
            assert_eq!(ack.reason, Some("role mismatch".to_string()));
        }
        other => panic!("unexpected packet {:?}", other),
    }
    assert!(matches!(step.next, Request::Finish(Err(SyncError::RoleMismatch))));
}

#[test]
fn client_start_announces_itself() {
    let (session, step) = ClientSession::start("me".to_string(), 1234);
    assert!(!session.is_done() && !session.is_failed());
    assert_eq!(step.send.len(), 1);
    match &step.send[0] {
        SyncPacket::Hello(h) => {
            assert_eq!(h.protocol_version, 1);
            assert_eq!(h.node_id, "me");
            assert_eq!(h.role, NodeRole::Client);
            assert_eq!(h.now_epoch_ms, 1234);
        }
        other => panic!("unexpected packet {:?}", other),
    }
    assert!(matches!(step.next, Request::Receive));
}

#[test]
fn disjoint_stores_converge() {
    let mut server = EntryManager::new();
    server.put(&entry(1, "A", &["ta"], Some(10)));
    let mut client = EntryManager::new();
    client.put(&entry(2, "B", &["tb"], Some(20)));

    let outcome = run_session(&mut server, &mut client, hello(1), vec![]);
    assert!(outcome.server.is_ok());
    assert!(outcome.client.is_ok());
    assert_eq!(outcome.entries_to_client, 1);
    assert_eq!(outcome.entries_to_server, 1);

    let both = vec![ServiceId { value: 1 }, ServiceId { value: 2 }];
    assert_eq!(server.all_service(), both);
    assert_eq!(client.all_service(), both);
    assert_eq!(server.get(&ServiceId { value: 2 }), Some(entry(2, "B", &["tb"], Some(20))));
    assert_eq!(client.get(&ServiceId { value: 1 }), Some(entry(1, "A", &["ta"], Some(10))));
    assert_eq!(server.tagged_service("tb"), vec![ServiceId { value: 2 }]);
    assert_eq!(client.tagged_service("ta"), vec![ServiceId { value: 1 }]);
}

#[test]
fn conflict_confirmed_adopts_the_remote_entry() {
    let mut server = EntryManager::new();
    server.put(&entry(1, "remote", &["t"], Some(10)));
    let mut client = EntryManager::new();
    client.put(&entry(1, "local", &["t"], Some(10)));

    let outcome = run_session(&mut server, &mut client, hello(1), vec![true]);
    assert!(outcome.server.is_ok());
    assert!(outcome.client.is_ok());
    assert_eq!(client.get(&ServiceId { value: 1 }), Some(entry(1, "remote", &["t"], Some(10))));
    assert_eq!(outcome.entries_to_server, 0);
}

#[test]
fn conflict_declined_aborts_and_changes_nothing() {
    let mut server = EntryManager::new();
    server.put(&entry(1, "remote", &["t"], Some(10)));
    server.put(&entry(2, "other", &["t"], Some(10)));
    let mut client = EntryManager::new();
    client.put(&entry(1, "local", &["t"], Some(10)));

    let outcome = run_session(&mut server, &mut client, hello(1), vec![false]);
    assert!(matches!(outcome.client, Err(SyncError::AbortedByUser)));
    assert!(matches!(
        outcome.server,
        Err(SyncError::EntryRejected(ref reason)) if reason == "user rejected conflict resolution"
    ));
    assert_eq!(client.get(&ServiceId { value: 1 }), Some(entry(1, "local", &["t"], Some(10))));
    assert_eq!(client.all_service(), vec![ServiceId { value: 1 }]);
    assert_eq!(server.get(&ServiceId { value: 1 }), Some(entry(1, "remote", &["t"], Some(10))));
}

#[test]
fn newer_remote_wins() {
    let mut server = EntryManager::new();
    server.put(&entry(1, "remote", &["new"], Some(11)));
    let mut client = EntryManager::new();
    client.put(&entry(1, "local", &["old"], Some(10)));

    let outcome = run_session(&mut server, &mut client, hello(1), vec![]);
    assert!(outcome.client.is_ok());
    assert_eq!(client.get(&ServiceId { value: 1 }), Some(entry(1, "remote", &["new"], Some(11))));
    assert_eq!(client.tagged_service("new"), vec![ServiceId { value: 1 }]);
    assert!(client.tagged_service("old").is_empty());
    assert_eq!(outcome.entries_to_server, 0);
}

#[test]
fn newer_local_stays_and_is_sent() {
    let mut server = EntryManager::new();
    server.put(&entry(1, "remote", &["old"], Some(10)));
    let mut client = EntryManager::new();
    client.put(&entry(1, "local", &["new"], Some(11)));

    let outcome = run_session(&mut server, &mut client, hello(1), vec![]);
    assert!(outcome.client.is_ok());
    assert!(outcome.server.is_ok());
    assert_eq!(outcome.entries_to_server, 1);
    assert_eq!(client.get(&ServiceId { value: 1 }), Some(entry(1, "local", &["new"], Some(11))));
    assert_eq!(server.get(&ServiceId { value: 1 }), Some(entry(1, "local", &["new"], Some(11))));
    assert_eq!(server.tagged_service("new"), vec![ServiceId { value: 1 }]);
}

#[test]
fn a_time_beats_no_time() {
    let with_time = entry(1, "a", &[], Some(0));
    let without = entry(1, "b", &[], None);
    assert_eq!(compare_entries(Some(&without), &with_time), Verdict::AdoptRemote);
    assert_eq!(compare_entries(Some(&with_time), &without), Verdict::KeepLocal);
    assert_eq!(compare_entries(None, &without), Verdict::AdoptRemote);
    assert_eq!(compare_entries(Some(&without), &entry(1, "b", &[], None)), Verdict::KeepLocal);
    assert_eq!(compare_entries(Some(&without), &entry(1, "c", &[], None)), Verdict::KeepLocal);
}

#[test]
fn verdicts_by_time_and_content() {
    let local = entry(1, "svc", &["t"], Some(10));
    assert_eq!(compare_entries(Some(&local), &entry(1, "svc", &["t"], Some(10))), Verdict::KeepLocal);
    assert_eq!(compare_entries(Some(&local), &entry(1, "other", &["t"], Some(10))), Verdict::Conflict);
    assert_eq!(compare_entries(Some(&local), &entry(1, "svc", &["u"], Some(10))), Verdict::Conflict);
    assert_eq!(compare_entries(Some(&local), &entry(1, "svc", &["t"], Some(11))), Verdict::AdoptRemote);
    assert_eq!(compare_entries(Some(&local), &entry(1, "other", &["t"], Some(9))), Verdict::KeepLocal);
    assert_eq!(compare_entries(Some(&local), &entry(1, "svc", &["t"], Some(9))), Verdict::KeepLocal);
}

#[test]
fn same_entry_ignores_the_time_only() {
    let a = entry(1, "svc", &["t"], Some(10));
    assert!(is_same_entry(&a, &entry(1, "svc", &["t"], Some(99))));
    assert!(is_same_entry(&a, &entry(1, "svc", &["t"], None)));
    assert!(!is_same_entry(&a, &entry(2, "svc", &["t"], Some(10))));
    assert!(!is_same_entry(&a, &entry(1, "svc", &[], Some(10))));
    let mut removed = entry(1, "svc", &["t"], Some(10));
    removed.set_removed(true);
    assert!(!is_same_entry(&a, &removed));
    let unset_flag = Entry::from_parts(
        ServiceId { value: 1 },
        "svc".to_string(),
        vec![],
        vec!["t".to_string()],
        Properties::new(),
        Some(10),
        Some(false),
    );
    assert!(is_same_entry(&a, &unset_flag));
    let mut props = Properties::new();
    props.insert("k".to_string(), "v".to_string());
    let with_props = Entry::from_parts(
        ServiceId { value: 1 },
        "svc".to_string(),
        vec![],
        vec!["t".to_string()],
        props,
        Some(10),
        None,
    );
    assert!(!is_same_entry(&a, &with_props));
}

#[test]
fn resolve_needs_the_answer_only_for_a_conflict() {
    assert!(matches!(resolve(Verdict::AdoptRemote, false), EntryDecision::AdoptRemote));
    assert!(matches!(resolve(Verdict::KeepLocal, true), EntryDecision::KeepLocal));
    assert!(matches!(resolve(Verdict::Conflict, true), EntryDecision::AdoptRemote));
    assert!(matches!(
        resolve(Verdict::Conflict, false),
        EntryDecision::Abort(ref reason) if reason == "user rejected conflict resolution"
    ));
}

#[test]
fn decide_entry_asks_the_prompter_on_a_conflict() {
    let mut store = EntryManager::new();
    store.put(&entry(1, "local", &[], Some(10)));
    let writer = store.begin_write();
    let yes = Scripted { answer: Ok(true) };
    let no = Scripted { answer: Ok(false) };
    let broken = Scripted { answer: Err("no terminal".to_string()) };

    let conflict = entry(1, "remote", &[], Some(10));
    assert!(matches!(decide_entry(&writer, &conflict, &yes), Ok(EntryDecision::AdoptRemote)));
    assert!(matches!(decide_entry(&writer, &conflict, &no), Ok(EntryDecision::Abort(_))));
    assert_eq!(decide_entry(&writer, &conflict, &broken).err(), Some("no terminal".to_string()));

    let newer = entry(1, "remote", &[], Some(11));
    assert!(matches!(decide_entry(&writer, &newer, &broken), Ok(EntryDecision::AdoptRemote)));
    let older = entry(1, "remote", &[], Some(9));
    assert!(matches!(decide_entry(&writer, &older, &broken), Ok(EntryDecision::KeepLocal)));
    let unknown = entry(2, "remote", &[], None);
    assert!(matches!(decide_entry(&writer, &unknown, &broken), Ok(EntryDecision::AdoptRemote)));
}

#[test]
fn server_reports_a_failed_store_to_the_client() {
    let (session, _) = ServerSession::new().step(SyncEvent::Packet(hello(1)));
    let (session, step) = session.step(SyncEvent::Ids(vec![]));
    assert!(matches!(step.send[0], SyncPacket::ServerEntriesEnd(ref end) if end.total_sent == 0));
    let incoming = entry(5, "c", &[], Some(1));
    let (session, step) = session.step(SyncEvent::Packet(SyncPacket::client_entry(incoming.clone())));
    assert!(step.send.is_empty());
    assert!(matches!(step.next, Request::Store(ref e) if *e == incoming));
    let (session, step) = session.step(SyncEvent::Stored(Some("disk full".to_string())));
    assert!(session.is_failed());
    assert_eq!(step.send.len(), 2);
    match &step.send[0] {
        SyncPacket::EntryAck(ack) => {
            assert_eq!(ack.entry_id, ServiceId { value: 5 }.to_string());
            assert!(!ack.accepted);
            assert_eq!(ack.reason, Some("disk full".to_string()));
        }
        other => panic!("unexpected packet {:?}", other),
    }
    assert!(matches!(step.send[1], SyncPacket::Abort(ref a) if a.reason == "failed to apply client entry"));
    assert!(matches!(step.next, Request::Finish(Err(SyncError::ApplyFailed(ref r))) if r == "disk full"));
}

#[test]
fn server_counts_what_the_client_sent() {
    let (session, _) = ServerSession::new().step(SyncEvent::Packet(hello(1)));
    let (session, _) = session.step(SyncEvent::Ids(vec![]));
    let (session, _) = session.step(SyncEvent::Packet(SyncPacket::client_entry(entry(5, "c", &[], None))));
    let (session, step) = session.step(SyncEvent::Stored(None));
    assert!(matches!(step.send[0], SyncPacket::EntryAck(ref ack) if ack.accepted && ack.reason.is_none()));
    let (session, step) = session.step(SyncEvent::Packet(SyncPacket::client_entries_end(3)));
    assert!(session.is_done());
    assert!(!session.counts_agree());
    assert!(matches!(step.send[0], SyncPacket::Finished));
    assert!(matches!(step.next, Request::Finish(Ok(()))));
}

#[test]
fn server_sends_one_entry_at_a_time() {
    let ids = vec![ServiceId { value: 1 }, ServiceId { value: 2 }];
    let (session, _) = ServerSession::new().step(SyncEvent::Packet(hello(1)));
    let (session, step) = session.step(SyncEvent::Ids(ids));
    assert!(step.send.is_empty());
    assert!(matches!(step.next, Request::Fetch(ServiceId { value: 1 })));
    let (session, step) = session.step(SyncEvent::Entry(Some(entry(1, "a", &[], None))));
    assert_eq!(step.send.len(), 1);
    assert!(matches!(step.next, Request::Receive));
    let ack = SyncPacket::entry_ack("x".to_string(), true, None);
    let (session, step) = session.step(SyncEvent::Packet(ack));
    assert!(step.send.is_empty());
    assert!(matches!(step.next, Request::Fetch(ServiceId { value: 2 })));
    let (session, _) = session.step(SyncEvent::Entry(Some(entry(2, "b", &[], None))));
    let ack = SyncPacket::entry_ack("y".to_string(), true, None);
    let (_, step) = session.step(SyncEvent::Packet(ack));
    assert!(matches!(step.send[0], SyncPacket::ServerEntriesEnd(ref end) if end.total_sent == 2));
}

#[test]
fn server_failures() {
    let (session, step) = ServerSession::new().step(SyncEvent::Packet(SyncPacket::finished()));
    assert!(session.is_failed());
    assert!(matches!(step.next, Request::Finish(Err(SyncError::UnexpectedPacket))));
    let (_, step) = session.step(SyncEvent::Packet(hello(1)));
    assert!(step.send.is_empty());
    assert!(matches!(step.next, Request::Finish(Err(SyncError::OutOfTurn))));

    let start = || {
        let (session, _) = ServerSession::new().step(SyncEvent::Packet(hello(1)));
        let (session, _) = session.step(SyncEvent::Ids(vec![ServiceId { value: 1 }]));
        session
    };
    let (_, step) = start().step(SyncEvent::Entry(None));
    assert!(matches!(step.next, Request::Finish(Err(SyncError::MissingEntry(ServiceId { value: 1 })))));

    let (session, _) = start().step(SyncEvent::Entry(Some(entry(1, "a", &[], None))));
    let refusal = SyncPacket::entry_ack("x".to_string(), false, None);
    let (_, step) = session.step(SyncEvent::Packet(refusal));
    assert!(matches!(step.send[0], SyncPacket::Abort(ref a) if a.reason == "rejected"));
    assert!(matches!(step.next, Request::Finish(Err(SyncError::EntryRejected(ref r))) if r == "rejected"));

    let (session, _) = start().step(SyncEvent::Entry(Some(entry(1, "a", &[], None))));
    let (_, step) = session.step(SyncEvent::Packet(SyncPacket::abort("bye".to_string())));
    assert!(step.send.is_empty());
    assert!(matches!(step.next, Request::Finish(Err(SyncError::PeerAborted(ref r))) if r == "bye"));
}

#[test]
fn client_failures() {
    let start = || ClientSession::start("me".to_string(), 0).0;
    let refusal = SyncPacket::hello_ack(1, false, None);
    let (session, step) = start().step(SyncEvent::Packet(refusal));
    assert!(session.is_failed());
    assert!(matches!(step.next, Request::Finish(Err(SyncError::Rejected(ref r))) if r == "unknown"));
    let other_version = SyncPacket::hello_ack(2, true, None);
    let (_, step) = start().step(SyncEvent::Packet(other_version));
    assert!(matches!(step.next, Request::Finish(Err(SyncError::Rejected(_)))));
    let (_, step) = start().step(SyncEvent::Packet(SyncPacket::finished()));
    assert!(matches!(step.next, Request::Finish(Err(SyncError::UnexpectedPacket))));
    let (_, step) = start().step(SyncEvent::Confirmed(true));
    assert!(matches!(step.next, Request::Finish(Err(SyncError::OutOfTurn))));

    let receiving = || {
        let (session, _) = start().step(SyncEvent::Packet(SyncPacket::hello_ack(1, true, None)));
        let (session, _) = session.step(SyncEvent::Ids(vec![ServiceId { value: 1 }]));
        session
    };
    let (_, step) = receiving().step(SyncEvent::Packet(SyncPacket::abort("stop".to_string())));
    assert!(matches!(step.next, Request::Finish(Err(SyncError::PeerAborted(ref r))) if r == "stop"));

    let (session, step) = receiving().step(SyncEvent::Packet(SyncPacket::server_entry(entry(9, "r", &[], None))));
    assert!(matches!(step.next, Request::Fetch(ServiceId { value: 9 })));
    let (session, step) = session.step(SyncEvent::Entry(None));
    assert!(matches!(step.next, Request::Store(_)));
    let (session, step) = session.step(SyncEvent::Stored(Some("disk full".to_string())));
    assert!(session.is_failed());
    assert!(step.send.is_empty());
    assert!(matches!(step.next, Request::Finish(Err(SyncError::ApplyFailed(ref r))) if r == "disk full"));

    let (session, step) = receiving().step(SyncEvent::Packet(SyncPacket::server_entries_end(0)));
    assert!(matches!(step.next, Request::Fetch(ServiceId { value: 1 })));
    let (_, step) = session.step(SyncEvent::Entry(None));
    assert!(matches!(step.next, Request::Finish(Err(SyncError::MissingEntry(ServiceId { value: 1 })))));
}

#[test]
fn client_sends_candidates_in_ascending_order() {
    let (session, _) = ClientSession::start("me".to_string(), 0)
        .0
        .step(SyncEvent::Packet(SyncPacket::hello_ack(1, true, None)));
    let ids = vec![ServiceId { value: 7 }, ServiceId { value: 3 }, ServiceId { value: 5 }];
    let (session, _) = session.step(SyncEvent::Ids(ids));
    let (session, _) = session.step(SyncEvent::Packet(SyncPacket::server_entry(entry(5, "r", &[], Some(1)))));
    let (session, step) = session.step(SyncEvent::Entry(Some(entry(5, "l", &[], Some(2)))));
    assert!(matches!(step.send[0], SyncPacket::EntryAck(ref a) if a.accepted));
    let (session, step) = session.step(SyncEvent::Packet(SyncPacket::server_entries_end(1)));
    assert!(matches!(step.next, Request::Fetch(ServiceId { value: 3 })));
    let mut session = session;
    let mut sent = vec![];
    for id in [3u128, 5, 7] {
        let (next, step) = session.step(SyncEvent::Entry(Some(entry(id, "l", &[], None))));
        assert!(matches!(step.send[0], SyncPacket::ClientEntry(ref e) if e.id().value == id));
        sent.push(id);
        let (next, step) = next.step(SyncEvent::Packet(SyncPacket::entry_ack("x".to_string(), true, None)));
        session = next;
        if id == 7 {
            assert!(matches!(step.send[0], SyncPacket::ClientEntriesEnd(ref end) if end.total_sent == 3));
        } else {
            assert!(step.send.is_empty());
        }
    }
    let (session, step) = session.step(SyncEvent::Packet(SyncPacket::finished()));
    assert!(session.is_done());
    assert!(matches!(step.next, Request::Finish(Ok(()))));
}

#[test]
fn serve_answers_requests_of_the_store() {
    let mut store = EntryManager::new();
    store.put(&entry(1, "a", &[], None));
    let mut writer = store.begin_write();
    assert!(matches!(
        serve(&mut writer, Request::ListIds),
        Ok(SyncEvent::Ids(ref ids)) if *ids == vec![ServiceId { value: 1 }]
    ));
    assert!(matches!(
        serve(&mut writer, Request::Fetch(ServiceId { value: 1 })),
        Ok(SyncEvent::Entry(Some(ref e))) if *e == entry(1, "a", &[], None)
    ));
    assert!(matches!(
        serve(&mut writer, Request::Fetch(ServiceId { value: 2 })),
        Ok(SyncEvent::Entry(None))
    ));
    assert!(matches!(
        serve(&mut writer, Request::Store(entry(2, "b", &["t"], None))),
        Ok(SyncEvent::Stored(None))
    ));
    assert_eq!(writer.tagged_service("t"), vec![ServiceId { value: 2 }]);
    assert!(matches!(serve(&mut writer, Request::Receive), Err(Request::Receive)));
    assert!(matches!(serve(&mut writer, Request::Confirm), Err(Request::Confirm)));
}

#[test]
fn id_set_is_a_set() {
    let mut set = IdSet::new();
    set.insert(ServiceId { value: 5 });
    set.insert(ServiceId { value: 1 });
    set.insert(ServiceId { value: 5 });
    set.extend(&vec![ServiceId { value: 9 }, ServiceId { value: 1 }, ServiceId { value: 3 }]);
    assert!(set.contains(ServiceId { value: 3 }));
    assert!(!set.contains(ServiceId { value: 4 }));
    set.remove(ServiceId { value: 1 });
    set.remove(ServiceId { value: 2 });
    let values: Vec<u128> = set.to_vec().iter().map(|id| id.value).collect();
    assert_eq!(values, vec![3, 5, 9]);
}

#[test]
fn length_is_four_bytes_big_endian() {
    assert_eq!(encode_length(0), [0, 0, 0, 0]);
    assert_eq!(encode_length(1), [0, 0, 0, 1]);
    assert_eq!(encode_length(0x0102_0304), [1, 2, 3, 4]);
    assert_eq!(encode_length(u32::MAX), [255, 255, 255, 255]);
    assert_eq!(frame_length(&[0, 0, 1, 0]), 256);
    assert_eq!(frame_length(&[1, 2, 3, 4]), 0x0102_0304);
    assert_eq!(frame_length(&[255, 255, 255, 255]), u32::MAX);
    for len in [0u32, 1, 255, 256, 65535, 65536, 16_777_216, u32::MAX] {
        assert_eq!(frame_length(&encode_length(len)), len);
        assert_eq!(encode_length(len), len.to_be_bytes());
    }
}

#[test]
fn frame_and_unframe() {
    assert_eq!(frame(&vec![]), Ok(vec![0, 0, 0, 0]));
    assert_eq!(frame(&vec![7, 8, 9]), Ok(vec![0, 0, 0, 3, 7, 8, 9]));
    let payload: Vec<u8> = (0..300).map(|i| (i % 251) as u8).collect();
    let framed = frame(&payload).unwrap();
    assert_eq!(&framed[..4], &[0, 0, 1, 44]);
    assert_eq!(unframe(&framed), Ok(payload));
    assert_eq!(unframe(&vec![0, 0, 0]), Err(FrameError::Truncated));
    assert_eq!(unframe(&vec![0, 0, 0, 2, 1]), Err(FrameError::Truncated));
    assert_eq!(unframe(&vec![0, 0, 0, 1, 1, 2]), Err(FrameError::Trailing));
    assert_eq!(unframe(&vec![0, 0, 0, 0]), Ok(vec![]));
}
