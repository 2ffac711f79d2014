//! Component tests: the slot arena, the connection read-state machine, the
//! result routing, and the keyframe test.

use rml_rtmp::handshake::Handshake;
use rml_rtmp::handshake::HandshakeProcessResult;
use rml_rtmp::handshake::PeerType;
use rtmpsvrsrc::arena::Arena;
use rtmpsvrsrc::codec::HandshakeStep;
use rtmpsvrsrc::connection::ConnState;
use rtmpsvrsrc::connection::ConnectionError;
use rtmpsvrsrc::connection::RawRead;
use rtmpsvrsrc::connection::ReadResult;
use rtmpsvrsrc::manager::route_results;
use rtmpsvrsrc::server::is_key_frame;
use rtmpsvrsrc::server::Action;
use rtmpsvrsrc::server::Event;
use rtmpsvrsrc::server::Server;
use rtmpsvrsrc::server::ServerResult;
use std::sync::mpsc::channel;

#[test]
fn arena_assigns_fresh_ids_and_reuses_freed_slots() {
    let mut a: Arena<u32> = Arena::new();
    let id0 = a.insert(10);
    let id1 = a.insert(11);
    let id2 = a.insert(12);
    assert_eq!((id0, id1, id2), (0, 1, 2));
    assert!(a.contains(1));
    assert_eq!(a.get(1), Some(&11));
    assert_eq!(a.take(1), Some(11));
    assert!(!a.contains(1));
    assert_eq!(a.take(1), None);
    // the freed slot is reused, never a live one
    let id3 = a.insert(13);
    assert_eq!(id3, 1);
    assert_eq!(a.get(1), Some(&13));
    assert_eq!(a.ids(), vec![0, 1, 2]);
    assert_eq!(a.take(5), None);
}

#[test]
fn arena_put_at_reserved_identifier() {
    let mut a: Arena<&str> = Arena::new();
    a.reserve_to(4);
    a.put(3, "x");
    assert!(a.contains(3));
    assert!(!a.contains(2));
    assert_eq!(a.ids(), vec![3]);
}

#[test]
fn connection_classifies_quiet_and_closed_reads() {
    let mut c = ConnState::new();
    match c.on_read(RawRead::WouldBlock) {
        Ok((ReadResult::NoBytesReceived, w)) => assert!(w.is_empty()),
        _ => panic!("a would-block read must surface NoBytesReceived"),
    }
    match c.on_read(RawRead::Closed) {
        Err(ConnectionError::SocketClosed) => {}
        _ => panic!("a clean close must fail with SocketClosed"),
    }
}

#[test]
fn connection_runs_the_handshake_then_passes_bytes_through() {
    let mut client = Handshake::new(PeerType::Client);
    let c0c1 = client.generate_outbound_p0_and_p1().unwrap();

    let mut conn = ConnState::new();
    let (first, reply) = conn.on_read(RawRead::Data(c0c1)).unwrap();
    assert!(matches!(first, ReadResult::HandshakingInProgress));
    assert!(!reply.is_empty());

    let c2 = match client.process_bytes(&reply).unwrap() {
        HandshakeProcessResult::Completed { response_bytes, .. } => response_bytes,
        HandshakeProcessResult::InProgress { .. } => panic!("client should have finished"),
    };
    let (second, _reply2) = conn.on_read(RawRead::Data(c2)).unwrap();
    assert!(matches!(second, ReadResult::HandshakingInProgress));

    // past completion, bytes surface untouched
    let (third, reply3) = conn.on_read(RawRead::Data(vec![1, 2, 3])).unwrap();
    match third {
        ReadResult::BytesReceived { data } => assert_eq!(data, vec![1, 2, 3]),
        _ => panic!("post-handshake bytes must surface as BytesReceived"),
    }
    assert!(reply3.is_empty());
}

#[test]
fn handshake_steps_apply_exactly() {
    // progress: the flag stays down, the response passes through
    let mut c = ConnState::new();
    let (r, w) = c.apply_handshake_step(HandshakeStep::InProgress { response: vec![9, 9] });
    assert!(matches!(r, ReadResult::HandshakingInProgress));
    assert_eq!(w, vec![9, 9]);

    // completion with leftover bytes: they surface at once
    let (r, w) = c.apply_handshake_step(HandshakeStep::Completed {
        response: vec![1],
        remaining: vec![2, 3],
    });
    match r {
        ReadResult::BytesReceived { data } => assert_eq!(data, vec![2, 3]),
        _ => panic!("bytes past the handshake's end must surface"),
    }
    assert_eq!(w, vec![1]);

    // and the completion stuck: a later read passes bytes through
    let (r, _) = c.on_read(RawRead::Data(vec![7])).unwrap();
    assert!(matches!(r, ReadResult::BytesReceived { .. }));

    // completion with nothing left over surfaces nothing yet
    let mut c2 = ConnState::new();
    let (r, w) = c2.apply_handshake_step(HandshakeStep::Completed {
        response: Vec::new(),
        remaining: Vec::new(),
    });
    assert!(matches!(r, ReadResult::HandshakingInProgress));
    assert!(w.is_empty());
}

#[test]
fn connection_rejects_a_bad_handshake() {
    let mut conn = ConnState::new();
    // the first handshake byte must be 3
    let out = conn.on_read(RawRead::Data(vec![9u8; 1537]));
    assert!(matches!(out, Err(ConnectionError::Io)));
}

#[test]
fn route_results_partitions_in_order() {
    let results = vec![
        ServerResult::OutboundPacket { target_connection_id: 4, bytes: vec![1] },
        ServerResult::DisconnectConnection { connection_id: 7 },
        ServerResult::OutboundPacket { target_connection_id: 4, bytes: vec![2, 3] },
        ServerResult::DisconnectConnection { connection_id: 2 },
    ];
    let (packets, to_clear) = route_results(results);
    assert_eq!(packets, vec![(4, vec![1]), (4, vec![2, 3])]);
    assert_eq!(to_clear, vec![7, 2]);
}

#[test]
fn dispatcher_step_guards_the_publisher_slot() {
    let (tx, _rx) = channel();
    let mut server = Server::new(tx, Some(b"right".to_vec()));

    // a mismatched key is answered with a disconnect and nothing else
    let acts = server.handle_event(
        0,
        Event::PublishRequest { request_id: 1, stream_key: b"wrong".to_vec() },
    );
    assert_eq!(acts.len(), 1);
    assert!(matches!(acts[0], Action::Disconnect));

    // the configured key is accepted while the slot is free
    let acts = server.handle_event(
        0,
        Event::PublishRequest { request_id: 2, stream_key: b"right".to_vec() },
    );
    assert_eq!(acts.len(), 1);
    assert!(matches!(acts[0], Action::Accept { request_id: 2 }));

    // while held, a further request is rejected, whoever asks
    let acts = server.handle_event(
        1,
        Event::PublishRequest { request_id: 3, stream_key: b"right".to_vec() },
    );
    assert!(matches!(acts[0], Action::Disconnect));
}

#[test]
fn dispatcher_step_ignores_media_from_non_publishers() {
    let (tx, _rx) = channel();
    let mut server = Server::new(tx, None);

    // nobody is registered: nothing is forwarded
    let acts = server.handle_event(0, Event::Audio { data: vec![1], timestamp: 0 });
    assert!(acts.is_empty());

    let acts = server.handle_event(
        0,
        Event::PublishRequest { request_id: 1, stream_key: b"k".to_vec() },
    );
    assert!(matches!(acts[0], Action::Accept { request_id: 1 }));

    // media from a different connection than the publisher is ignored
    let acts = server.handle_event(1, Event::Video { data: vec![0x17, 1], timestamp: 0 });
    assert!(acts.is_empty());

    // the publisher's own media is forwarded
    let acts = server.handle_event(0, Event::Video { data: vec![0x17, 1], timestamp: 0 });
    assert_eq!(acts.len(), 1);
    assert!(matches!(acts[0], Action::Emit { .. }));
}

#[test]
fn keyframe_test_matches_the_tag_bytes() {
    assert!(is_key_frame(&vec![0x17, 0x01, 0xaa]));
    assert!(!is_key_frame(&vec![0x17, 0x00])); // configuration record
    assert!(!is_key_frame(&vec![0x27, 0x01])); // interframe
    assert!(!is_key_frame(&vec![0x17])); // too short
    assert!(!is_key_frame(&Vec::new()));
}
