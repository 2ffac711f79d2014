//! End-to-end dispatcher scenarios, driven through a real RTMP client
//! session: connect, createStream, publish, metadata and media.

use bytes::Bytes;
use rml_rtmp::sessions::ClientSession;
use rml_rtmp::sessions::ClientSessionConfig;
use rml_rtmp::sessions::ClientSessionEvent;
use rml_rtmp::sessions::ClientSessionResult;
use rml_rtmp::sessions::PublishRequestType;
use rml_rtmp::sessions::StreamMetadata;
use rml_rtmp::time::RtmpTimestamp;
use rtmpsvrsrc::data::MediaType;
use rtmpsvrsrc::data::RtmpInput;
use rtmpsvrsrc::server::Server;
use rtmpsvrsrc::server::ServerResult;
use std::sync::mpsc::channel;
use std::sync::mpsc::Receiver;

struct Client {
    session: ClientSession,
    conn: usize,
    events: Vec<ClientSessionEvent>,
}

impl Client {
    fn new(conn: usize) -> Client {
        let (session, _initial) = ClientSession::new(ClientSessionConfig::new()).unwrap();
        Client { session, conn, events: Vec::new() }
    }

    fn collect(&mut self, results: Vec<ClientSessionResult>, to_server: &mut Vec<Vec<u8>>) {
        for r in results {
            match r {
                ClientSessionResult::OutboundResponse(p) => to_server.push(p.bytes),
                ClientSessionResult::RaisedEvent(e) => self.events.push(e),
                ClientSessionResult::UnhandleableMessageReceived(_) => {}
            }
        }
    }

    /// Sends one client-produced packet to the server and pumps the exchange
    /// until neither side has more to say. Disconnect orders are recorded.
    fn drive(
        &mut self,
        server: &mut Server,
        first: ClientSessionResult,
        disconnected: &mut Vec<usize>,
    ) {
        let mut to_server: Vec<Vec<u8>> = Vec::new();
        self.collect(vec![first], &mut to_server);
        while !to_server.is_empty() {
            let bytes = to_server.remove(0);
            let results = server.bytes_received(self.conn, &bytes).expect("server error");
            for r in results {
                match r {
                    ServerResult::OutboundPacket { target_connection_id, bytes } => {
                        assert_eq!(target_connection_id, self.conn);
                        let client_results =
                            self.session.handle_input(&bytes).expect("client error");
                        self.collect(client_results, &mut to_server);
                    }
                    ServerResult::DisconnectConnection { connection_id } => {
                        disconnected.push(connection_id);
                    }
                }
            }
        }
    }

    fn connect(&mut self, server: &mut Server, disconnected: &mut Vec<usize>) {
        let r = self.session.request_connection("live".to_string()).unwrap();
        self.drive(server, r, disconnected);
    }

    fn publish(&mut self, server: &mut Server, key: &str, disconnected: &mut Vec<usize>) {
        let r = self
            .session
            .request_publishing(key.to_string(), PublishRequestType::Live)
            .unwrap();
        self.drive(server, r, disconnected);
    }

    fn connection_accepted(&self) -> bool {
        self.events
            .iter()
            .any(|e| matches!(e, ClientSessionEvent::ConnectionRequestAccepted))
    }

    fn publish_accepted(&self) -> bool {
        self.events
            .iter()
            .any(|e| matches!(e, ClientSessionEvent::PublishRequestAccepted))
    }
}

fn keyframe_payload(len: usize) -> Vec<u8> {
    let mut v = vec![0x17u8, 0x01u8];
    v.resize(len, 0u8);
    v
}

fn setup(key: Option<&str>) -> (Server, Receiver<RtmpInput>) {
    let (tx, rx) = channel();
    let server = Server::new(tx, key.map(|k| k.as_bytes().to_vec()));
    (server, rx)
}

#[test]
fn full_publish_flow_delivers_metadata_then_media() {
    let (mut server, rx) = setup(Some("mystream"));
    let mut disconnected = Vec::new();
    let mut client = Client::new(0);

    client.connect(&mut server, &mut disconnected);
    assert!(client.connection_accepted());

    client.publish(&mut server, "mystream", &mut disconnected);
    assert!(client.publish_accepted());
    assert!(disconnected.is_empty());

    let mut md = StreamMetadata::new();
    md.video_height = Some(720);
    md.video_width = Some(1280);
    md.video_frame_rate = Some(30.0);
    let r = client.session.publish_metadata(&md).unwrap();
    client.drive(&mut server, r, &mut disconnected);

    let payload = keyframe_payload(1024);
    let r = client
        .session
        .publish_video_data(Bytes::from(payload), RtmpTimestamp::new(0), false)
        .unwrap();
    client.drive(&mut server, r, &mut disconnected);

    match rx.try_recv().expect("expected a metadata event first") {
        RtmpInput::Metadata(info) => {
            assert_eq!(info.video_height, Some(720));
            assert_eq!(info.video_width, Some(1280));
            assert_eq!(info.video_frame_rate, Some(30));
        }
        RtmpInput::Media(_) => panic!("media arrived before metadata"),
    }
    match rx.try_recv().expect("expected one media event second") {
        RtmpInput::Media(m) => {
            assert!(matches!(m.media_type, MediaType::Video));
            assert_eq!(m.data.len(), 1024);
            assert_eq!(m.timestamp, 0);
            assert!(!m.can_be_dropped);
        }
        RtmpInput::Metadata(_) => panic!("unexpected second metadata event"),
    }
    assert!(rx.try_recv().is_err());
    assert!(disconnected.is_empty());
}

#[test]
fn wrong_key_is_disconnected_and_nothing_is_emitted() {
    let (mut server, rx) = setup(Some("other"));
    let mut disconnected = Vec::new();
    let mut client = Client::new(0);

    client.connect(&mut server, &mut disconnected);
    assert!(client.connection_accepted());

    client.publish(&mut server, "mystream", &mut disconnected);
    assert!(!client.publish_accepted());
    assert_eq!(disconnected, vec![0]);
    assert!(rx.try_recv().is_err());
}

#[test]
fn any_key_accepted_when_none_configured() {
    let (mut server, rx) = setup(None);
    let mut disconnected = Vec::new();
    let mut client = Client::new(0);

    client.connect(&mut server, &mut disconnected);
    client.publish(&mut server, "whatever", &mut disconnected);
    assert!(client.publish_accepted());
    assert!(disconnected.is_empty());
    assert!(rx.try_recv().is_err());
}

#[test]
fn second_publisher_is_rejected_first_keeps_streaming() {
    let (mut server, rx) = setup(Some("mystream"));
    let mut disconnected = Vec::new();

    let mut first = Client::new(0);
    first.connect(&mut server, &mut disconnected);
    first.publish(&mut server, "mystream", &mut disconnected);
    assert!(first.publish_accepted());

    let mut second = Client::new(1);
    second.connect(&mut server, &mut disconnected);
    second.publish(&mut server, "mystream", &mut disconnected);
    assert!(!second.publish_accepted());
    assert_eq!(disconnected, vec![1]);

    // the first registration stands: its media still flows
    let r = first
        .session
        .publish_video_data(Bytes::from(keyframe_payload(32)), RtmpTimestamp::new(5), false)
        .unwrap();
    first.drive(&mut server, r, &mut disconnected);
    match rx.try_recv().expect("first publisher's media must still arrive") {
        RtmpInput::Media(m) => {
            assert!(matches!(m.media_type, MediaType::Video));
            assert_eq!(m.data.len(), 32);
            assert_eq!(m.timestamp, 5);
        }
        RtmpInput::Metadata(_) => panic!("unexpected metadata"),
    }
    assert_eq!(disconnected, vec![1]);
}

#[test]
fn malformed_bytes_fail_one_connection_without_touching_others() {
    let (mut server, rx) = setup(Some("mystream"));
    let mut disconnected = Vec::new();

    let mut publisher = Client::new(0);
    publisher.connect(&mut server, &mut disconnected);
    publisher.publish(&mut server, "mystream", &mut disconnected);

    let mut victim = Client::new(1);
    victim.connect(&mut server, &mut disconnected);

    // a complete chunk carrying an AMF0 command whose body is garbage
    let garbage: Vec<u8> = vec![
        0x03, // format 0, chunk stream 3
        0x00, 0x00, 0x00, // timestamp
        0x00, 0x00, 0x03, // message length 3
        0x14, // message type: AMF0 command
        0x00, 0x00, 0x00, 0x00, // message stream id
        0xff, 0xff, 0xff, // not valid AMF0
    ];
    let err = server.bytes_received(1, &garbage);
    assert!(err.is_err());
    server.notify_connection_closed(1);

    // the publisher's stream is unaffected
    let r = publisher
        .session
        .publish_audio_data(Bytes::from(vec![0xafu8, 0x01u8]), RtmpTimestamp::new(9), false)
        .unwrap();
    publisher.drive(&mut server, r, &mut disconnected);
    match rx.try_recv().expect("publisher's audio must still arrive") {
        RtmpInput::Media(m) => {
            assert!(matches!(m.media_type, MediaType::Audio));
            assert_eq!(m.timestamp, 9);
        }
        RtmpInput::Metadata(_) => panic!("unexpected metadata"),
    }
}

#[test]
fn closing_a_connection_twice_is_harmless_and_frees_the_key() {
    let (mut server, rx) = setup(Some("mystream"));
    let mut disconnected = Vec::new();

    let mut first = Client::new(0);
    first.connect(&mut server, &mut disconnected);
    first.publish(&mut server, "mystream", &mut disconnected);
    assert!(first.publish_accepted());

    server.notify_connection_closed(0);
    server.notify_connection_closed(0);

    // the registration was cleared, so a new publisher may claim the key
    let mut second = Client::new(1);
    second.connect(&mut server, &mut disconnected);
    second.publish(&mut server, "mystream", &mut disconnected);
    assert!(second.publish_accepted());
    assert!(disconnected.is_empty());
    assert!(rx.try_recv().is_err());
}

#[test]
fn audio_before_keyframe_is_droppable_interframe_video_is_droppable() {
    let (mut server, rx) = setup(None);
    let mut disconnected = Vec::new();
    let mut client = Client::new(0);
    client.connect(&mut server, &mut disconnected);
    client.publish(&mut server, "k", &mut disconnected);

    // audio while no keyframe has been seen: droppable
    let r = client
        .session
        .publish_audio_data(Bytes::from(vec![0xafu8, 0x01u8]), RtmpTimestamp::new(1), false)
        .unwrap();
    client.drive(&mut server, r, &mut disconnected);
    // keyframe video: not droppable
    let r = client
        .session
        .publish_video_data(Bytes::from(keyframe_payload(8)), RtmpTimestamp::new(2), false)
        .unwrap();
    client.drive(&mut server, r, &mut disconnected);
    // interframe video (0x27): droppable
    let r = client
        .session
        .publish_video_data(Bytes::from(vec![0x27u8, 0x01u8, 0x00u8]), RtmpTimestamp::new(3), false)
        .unwrap();
    client.drive(&mut server, r, &mut disconnected);
    // audio after the keyframe: not droppable
    let r = client
        .session
        .publish_audio_data(Bytes::from(vec![0xafu8, 0x01u8]), RtmpTimestamp::new(4), false)
        .unwrap();
    client.drive(&mut server, r, &mut disconnected);

    let expect = [
        (MediaType::Audio, true),
        (MediaType::Video, false),
        (MediaType::Video, true),
        (MediaType::Audio, false),
    ];
    for (kind, droppable) in expect {
        match rx.try_recv().expect("expected a media event") {
            RtmpInput::Media(m) => {
                assert_eq!(m.media_type, kind);
                assert_eq!(m.can_be_dropped, droppable);
            }
            RtmpInput::Metadata(_) => panic!("unexpected metadata"),
        }
    }
    assert!(rx.try_recv().is_err());
}
