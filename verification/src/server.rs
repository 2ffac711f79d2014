//! The session dispatcher: owns the protocol session of every connection,
//! turns received bytes into outbound packets, disconnect orders and media
//! events, and guards the single-publisher registration behind the
//! configured stream key.
//!
//! The dispatcher's observable behaviour is modelled by `ServerModel` and
//! the transition function `spec_step`: every event handed up by the codec
//! moves the model by exactly one step, and the laws at the end of this
//! module are proved of that transition function.

use crate::arena::Arena;
use crate::codec::event_of;
use crate::codec::meta_of;
use crate::codec::outcome_of;
use crate::codec::send_input;
use crate::codec::session_accept;
use crate::codec::session_create;
use crate::codec::session_handle_input;
use crate::codec::Outcome;
use crate::codec::SessionEvent;
use crate::data::InputModel;
use crate::data::Media;
use crate::data::MediaModel;
use crate::data::MediaType;
use crate::data::MetaInfo;
use crate::data::RtmpInput;
use rml_rtmp::sessions::ServerSession;
use rml_rtmp::sessions::ServerSessionError;
use rml_rtmp::sessions::ServerSessionResult;
use std::sync::mpsc::Sender;
use vstd::prelude::*;

verus! {

/// An action the connection manager must take after the dispatcher has
/// processed received bytes: send bytes to a connection, or remove one.
pub enum ServerResult {
    OutboundPacket { target_connection_id: usize, bytes: Vec<u8> },
    DisconnectConnection { connection_id: usize },
}

/// Mathematical model of one `ServerResult`.
pub enum ServerResultModel {
    OutboundPacket { target_connection_id: int, bytes: Seq<u8> },
    DisconnectConnection { connection_id: int },
}

impl View for ServerResult {
    type V = ServerResultModel;

    open spec fn view(&self) -> ServerResultModel {
        match self {
            ServerResult::OutboundPacket { target_connection_id, bytes } => ServerResultModel::OutboundPacket {
                target_connection_id: *target_connection_id as int,
                bytes: bytes@,
            },
            ServerResult::DisconnectConnection { connection_id } => ServerResultModel::DisconnectConnection {
                connection_id: *connection_id as int,
            },
        }
    }
}

/// A protocol decode or semantic violation in one connection's byte stream.
/// Fatal for that connection only, never for the process.
#[derive(Debug)]
pub enum ServerError {
    Session(ServerSessionError),
}

/// One application-level session event, every payload a plain value.
pub enum Event {
    ConnectRequest { request_id: u32 },
    PublishRequest { request_id: u32, stream_key: Vec<u8> },
    PublishFinished { stream_key: Vec<u8> },
    MetadataReady { info: MetaInfo },
    Audio { data: Vec<u8>, timestamp: u32 },
    Video { data: Vec<u8>, timestamp: u32 },
    Ignored,
}

/// Mathematical model of one session event.
pub enum EventModel {
    ConnectRequest { request_id: u32 },
    PublishRequest { request_id: u32, stream_key: Seq<u8> },
    PublishFinished { stream_key: Seq<u8> },
    MetadataReady { info: MetaInfo },
    Audio { data: Seq<u8>, timestamp: u32 },
    Video { data: Seq<u8>, timestamp: u32 },
    Ignored,
}

impl View for Event {
    type V = EventModel;

    open spec fn view(&self) -> EventModel {
        match self {
            Event::ConnectRequest { request_id } => EventModel::ConnectRequest {
                request_id: *request_id,
            },
            Event::PublishRequest { request_id, stream_key } => EventModel::PublishRequest {
                request_id: *request_id,
                stream_key: stream_key@,
            },
            Event::PublishFinished { stream_key } => EventModel::PublishFinished {
                stream_key: stream_key@,
            },
            Event::MetadataReady { info } => EventModel::MetadataReady { info: *info },
            Event::Audio { data, timestamp } => EventModel::Audio {
                data: data@,
                timestamp: *timestamp,
            },
            Event::Video { data, timestamp } => EventModel::Video {
                data: data@,
                timestamp: *timestamp,
            },
            Event::Ignored => EventModel::Ignored,
        }
    }
}

/// What the dispatcher decides to do about one event.
pub enum Action {
    Accept { request_id: u32 },
    Disconnect,
    Emit { input: RtmpInput },
}

/// Mathematical model of one dispatcher action.
pub enum ActionModel {
    Accept { request_id: u32 },
    Disconnect,
    Emit { input: InputModel },
}

impl View for Action {
    type V = ActionModel;

    open spec fn view(&self) -> ActionModel {
        match self {
            Action::Accept { request_id } => ActionModel::Accept { request_id: *request_id },
            Action::Disconnect => ActionModel::Disconnect,
            Action::Emit { input } => ActionModel::Emit { input: input@ },
        }
    }
}

/// The active publisher registration: which connection publishes under which
/// key, and whether a video keyframe has been seen since it registered.
#[verifier::ext_equal]
pub struct PublisherModel {
    pub conn: int,
    pub key: Seq<u8>,
    pub keyframe_seen: bool,
}

/// The dispatcher's observable state: the configured stream key, the set of
/// connections holding session state, the publisher registration, and the
/// history of items handed to the media channel, in order.
#[verifier::ext_equal]
pub struct ServerModel {
    pub stream_key: Option<Seq<u8>>,
    pub sessions: Set<int>,
    pub publisher: Option<PublisherModel>,
    pub emitted: Seq<InputModel>,
}

/// A publish key is acceptable when no key is configured, or it equals the
/// configured one.
pub open spec fn key_acceptable(cfg: Option<Seq<u8>>, key: Seq<u8>) -> bool {
    cfg is None || cfg->0 == key
}

/// A video payload that can seed decoding: its tag byte marks an AVC
/// keyframe and it is not the codec-configuration record.
pub open spec fn spec_is_key_frame(data: Seq<u8>) -> bool {
    data.len() >= 2 && data[0] == 0x17u8 && data[1] != 0x00u8
}

/// Whether `conn` is the registered publisher in `m`.
pub open spec fn is_publisher(m: ServerModel, conn: int) -> bool {
    m.publisher matches Some(p) && p.conn == conn
}

/// The dispatcher's transition function: one event from one connection moves
/// the model one step and decides the actions:
/// - a connect request is always acknowledged;
/// - a publish request is acknowledged and registered only when the slot is
///   free and the key is acceptable, else answered with a disconnect;
/// - a finished publish clears the registration it matches;
/// - metadata and media from the registered publisher are forwarded in
///   order, media marked droppable for non-keyframe video and for audio
///   before the first keyframe; from anyone else they are ignored.
pub open spec fn spec_step(m: ServerModel, conn: int, ev: EventModel) -> (ServerModel, Seq<
    ActionModel,
>) {
    match ev {
        EventModel::ConnectRequest { request_id } => (m, seq![ActionModel::Accept { request_id }]),
        EventModel::PublishRequest { request_id, stream_key } => {
            if m.publisher is None && key_acceptable(m.stream_key, stream_key) {
                (
                    ServerModel {
                        publisher: Some(
                            PublisherModel { conn, key: stream_key, keyframe_seen: false },
                        ),
                        ..m
                    },
                    seq![ActionModel::Accept { request_id }],
                )
            } else {
                (m, seq![ActionModel::Disconnect])
            }
        },
        EventModel::PublishFinished { stream_key } => match m.publisher {
            Some(p) => {
                if p.conn == conn && p.key == stream_key {
                    (ServerModel { publisher: None, ..m }, Seq::empty())
                } else {
                    (m, Seq::empty())
                }
            },
            None => (m, Seq::empty()),
        },
        EventModel::MetadataReady { info } => {
            if is_publisher(m, conn) {
                let input = InputModel::Metadata(info);
                (
                    ServerModel { emitted: m.emitted.push(input), ..m },
                    seq![ActionModel::Emit { input }],
                )
            } else {
                (m, Seq::empty())
            }
        },
        EventModel::Audio { data, timestamp } => match m.publisher {
            Some(p) => {
                if p.conn == conn {
                    let input = InputModel::Media(
                        MediaModel {
                            media_type: MediaType::Audio,
                            data,
                            timestamp,
                            can_be_dropped: !p.keyframe_seen,
                        },
                    );
                    (
                        ServerModel { emitted: m.emitted.push(input), ..m },
                        seq![ActionModel::Emit { input }],
                    )
                } else {
                    (m, Seq::empty())
                }
            },
            None => (m, Seq::empty()),
        },
        EventModel::Video { data, timestamp } => match m.publisher {
            Some(p) => {
                if p.conn == conn {
                    let kf = spec_is_key_frame(data);
                    let input = InputModel::Media(
                        MediaModel {
                            media_type: MediaType::Video,
                            data,
                            timestamp,
                            can_be_dropped: !kf,
                        },
                    );
                    (
                        ServerModel {
                            publisher: Some(
                                PublisherModel { keyframe_seen: p.keyframe_seen || kf, ..p },
                            ),
                            emitted: m.emitted.push(input),
                            ..m
                        },
                        seq![ActionModel::Emit { input }],
                    )
                } else {
                    (m, Seq::empty())
                }
            },
            None => (m, Seq::empty()),
        },
        EventModel::Ignored => (m, Seq::empty()),
    }
}

/// Removing a connection clears its session state and, when it held the
/// publisher registration, that registration too.
pub open spec fn spec_close(m: ServerModel, conn: int) -> ServerModel {
    ServerModel {
        sessions: m.sessions.remove(conn),
        publisher: if m.publisher matches Some(p) && p.conn == conn {
            None
        } else {
            m.publisher
        },
        ..m
    }
}

/// Whether the result concerns exactly the given connection.
pub open spec fn spec_concerns(r: ServerResultModel, conn: int) -> bool {
    match r {
        ServerResultModel::OutboundPacket { target_connection_id, .. } => target_connection_id
            == conn,
        ServerResultModel::DisconnectConnection { connection_id } => connection_id == conn,
    }
}

/// Byte-equality of two keys.
fn key_matches(a: &Vec<u8>, b: &Vec<u8>) -> (r: bool)
    ensures
        r == (a@ == b@),
{
    if a.len() != b.len() {
        return false;
    }
    let mut i: usize = 0;
    while i < a.len()
        invariant
            a@.len() == b@.len(),
            i <= a@.len(),
            forall|j: int| 0 <= j < i ==> a@[j] == b@[j],
        decreases a@.len() - i,
    {
        if a[i] != b[i] {
            return false;
        }
        i += 1;
    }
    proof {
        assert(a@ =~= b@);
    }
    true
}

/// Whether a video payload is a keyframe (and not the configuration record).
pub fn is_key_frame(data: &Vec<u8>) -> (r: bool)
    ensures
        r == spec_is_key_frame(data@),
{
    data.len() >= 2 && data[0] == 0x17 && data[1] != 0x00
}

/// Turns one codec-level session event into a plain `Event`, converting the
/// raw metadata record through `meta_of`.
fn refine_event(ev: SessionEvent) -> (e: Event)
    ensures
        ev matches SessionEvent::ConnectRequest { request_id } ==> e == (Event::ConnectRequest {
            request_id,
        }),
        ev matches SessionEvent::PublishRequest { request_id, stream_key } ==> e == (
        Event::PublishRequest { request_id, stream_key }),
        ev matches SessionEvent::PublishFinished { stream_key } ==> e == (Event::PublishFinished {
            stream_key,
        }),
        ev matches SessionEvent::MetadataRaw(_) ==> e is MetadataReady,
        ev matches SessionEvent::Audio { data, timestamp } ==> e == (Event::Audio {
            data,
            timestamp,
        }),
        ev matches SessionEvent::Video { data, timestamp } ==> e == (Event::Video {
            data,
            timestamp,
        }),
        ev is Ignored ==> e is Ignored,
{
    match ev {
        SessionEvent::ConnectRequest { request_id } => Event::ConnectRequest { request_id },
        SessionEvent::PublishRequest { request_id, stream_key } => Event::PublishRequest {
            request_id,
            stream_key,
        },
        SessionEvent::PublishFinished { stream_key } => Event::PublishFinished { stream_key },
        SessionEvent::MetadataRaw(m) => Event::MetadataReady { info: meta_of(m) },
        SessionEvent::Audio { data, timestamp } => Event::Audio { data, timestamp },
        SessionEvent::Video { data, timestamp } => Event::Video { data, timestamp },
        SessionEvent::Ignored => Event::Ignored,
    }
}

/// The active publisher registration, as the dispatcher holds it.
struct PublisherReg {
    conn: usize,
    key: Vec<u8>,
    keyframe_seen: bool,
}

/// The session dispatcher. It owns the protocol session of every connection
/// (keyed by the connection identifier), the single-publisher registration,
/// and the producing end of the media channel; it performs no I/O itself.
pub struct Server {
    sink: Sender<RtmpInput>,
    stream_key: Option<Vec<u8>>,
    sessions: Arena<ServerSession>,
    publisher: Option<PublisherReg>,
    emitted: Ghost<Seq<InputModel>>,
}

pub open spec fn spec_opt_key(k: Option<Vec<u8>>) -> Option<Seq<u8>> {
    match k {
        Some(v) => Some(v@),
        None => None,
    }
}

impl Server {
    /// The dispatcher's observable state.
    pub closed spec fn model(&self) -> ServerModel {
        ServerModel {
            stream_key: spec_opt_key(self.stream_key),
            sessions: self.sessions@.dom(),
            publisher: match self.publisher {
                Some(p) => Some(
                    PublisherModel {
                        conn: p.conn as int,
                        key: p.key@,
                        keyframe_seen: p.keyframe_seen,
                    },
                ),
                None => None,
            },
            emitted: self.emitted@,
        }
    }

    /// The per-connection protocol sessions; exposed only so contracts can
    /// state that a step leaves them alone.
    pub closed spec fn sessions_of(&self) -> Map<int, ServerSession> {
        self.sessions@
    }

    /// A fresh dispatcher holding the producer end of the media channel and
    /// the configured stream key: no sessions, no publisher, nothing emitted.
    pub fn new(media_sink: Sender<RtmpInput>, stream_key: Option<Vec<u8>>) -> (s: Server)
        ensures
            s.model() == (ServerModel {
                stream_key: spec_opt_key(stream_key),
                sessions: Set::<int>::empty(),
                publisher: None::<PublisherModel>,
                emitted: Seq::<InputModel>::empty(),
            }),
    {
        let s = Server {
            sink: media_sink,
            stream_key,
            sessions: Arena::new(),
            publisher: None,
            emitted: Ghost(Seq::empty()),
        };
        proof {
            assert(s.sessions@.dom() =~= Set::<int>::empty());
            assert(s.model() =~~= (ServerModel {
                stream_key: spec_opt_key(stream_key),
                sessions: Set::<int>::empty(),
                publisher: None::<PublisherModel>,
                emitted: Seq::<InputModel>::empty(),
            }));
        }
        s
    }

    /// Applies one session event from one connection: moves the observable
    /// state by exactly `spec_step` and returns the decided actions, leaving
    /// the protocol sessions alone.
    pub fn handle_event(&mut self, conn: usize, ev: Event) -> (acts: Vec<Action>)
        ensures
            final(self).model() == spec_step(old(self).model(), conn as int, ev@).0,
            acts@.map_values(|a: Action| a@) == spec_step(old(self).model(), conn as int, ev@).1,
            final(self).sessions_of() == old(self).sessions_of(),
            old(self).model().emitted.len() <= final(self).model().emitted.len(),
            forall|j: int|
                0 <= j < old(self).model().emitted.len() ==> final(self).model().emitted[j] == old(self).model().emitted[j],
    {
        let ghost m0 = self.model();
        let ghost evm = ev@;
        match ev {
            Event::ConnectRequest { request_id } => {
                let acts = vec![Action::Accept { request_id }];
                proof {
                    assert(self.model() =~~= spec_step(m0, conn as int, evm).0);
                    assert(acts@.map_values(|a: Action| a@) =~= spec_step(m0, conn as int, evm).1);
                }
                acts
            },
            Event::PublishRequest { request_id, stream_key } => {
                let free = self.publisher.is_none();
                let acceptable = free && (match &self.stream_key {
                    None => true,
                    Some(cfg) => key_matches(cfg, &stream_key),
                });
                if acceptable {
                    self.publisher = Some(
                        PublisherReg { conn, key: stream_key, keyframe_seen: false },
                    );
                    let acts = vec![Action::Accept { request_id }];
                    proof {
                        assert(self.model() =~~= spec_step(m0, conn as int, evm).0);
                        assert(acts@.map_values(|a: Action| a@) =~= spec_step(
                            m0,
                            conn as int,
                            evm,
                        ).1);
                    }
                    acts
                } else {
                    let acts = vec![Action::Disconnect];
                    proof {
                        assert(self.model() =~~= spec_step(m0, conn as int, evm).0);
                        assert(acts@.map_values(|a: Action| a@) =~= spec_step(
                            m0,
                            conn as int,
                            evm,
                        ).1);
                    }
                    acts
                }
            },
            Event::PublishFinished { stream_key } => {
                let clear = match &self.publisher {
                    Some(p) => p.conn == conn && key_matches(&p.key, &stream_key),
                    None => false,
                };
                if clear {
                    self.publisher = None;
                }
                proof {
                    assert(self.model() =~~= spec_step(m0, conn as int, evm).0);
                    assert(Seq::<Action>::empty().map_values(|a: Action| a@) =~= spec_step(
                        m0,
                        conn as int,
                        evm,
                    ).1);
                }
                Vec::new()
            },
            Event::MetadataReady { info } => {
                let mine = match &self.publisher {
                    Some(p) => p.conn == conn,
                    None => false,
                };
                if mine {
                    self.emitted = Ghost(self.emitted@.push(InputModel::Metadata(info)));
                    let acts = vec![Action::Emit { input: RtmpInput::Metadata(info) }];
                    proof {
                        assert(self.model() =~~= spec_step(m0, conn as int, evm).0);
                        assert(acts@.map_values(|a: Action| a@) =~= spec_step(
                            m0,
                            conn as int,
                            evm,
                        ).1);
                    }
                    acts
                } else {
                    proof {
                        assert(self.model() =~~= spec_step(m0, conn as int, evm).0);
                        assert(Seq::<Action>::empty().map_values(|a: Action| a@) =~= spec_step(
                            m0,
                            conn as int,
                            evm,
                        ).1);
                    }
                    Vec::new()
                }
            },
            Event::Audio { data, timestamp } => {
                let dropb = match &self.publisher {
                    Some(p) => if p.conn == conn {
                        Some(!p.keyframe_seen)
                    } else {
                        None
                    },
                    None => None,
                };
                match dropb {
                    Some(can_be_dropped) => {
                        let media = Media {
                            media_type: MediaType::Audio,
                            data,
                            timestamp,
                            can_be_dropped,
                        };
                        let ghost im = InputModel::Media(media@);
                        self.emitted = Ghost(self.emitted@.push(im));
                        let acts = vec![Action::Emit { input: RtmpInput::Media(media) }];
                        proof {
                            assert(self.model() =~~= spec_step(m0, conn as int, evm).0);
                            assert(acts@.map_values(|a: Action| a@) =~= spec_step(
                                m0,
                                conn as int,
                                evm,
                            ).1);
                        }
                        acts
                    },
                    None => {
                        proof {
                            assert(self.model() =~~= spec_step(m0, conn as int, evm).0);
                            assert(Seq::<Action>::empty().map_values(|a: Action| a@) =~= spec_step(
                                m0,
                                conn as int,
                                evm,
                            ).1);
                        }
                        Vec::new()
                    },
                }
            },
            Event::Video { data, timestamp } => {
                let seen = match &self.publisher {
                    Some(p) => if p.conn == conn {
                        Some(p.keyframe_seen)
                    } else {
                        None
                    },
                    None => None,
                };
                match seen {
                    Some(keyframe_seen) => {
                        let kf = is_key_frame(&data);
                        let prev = self.publisher.take();
                        match prev {
                            Some(p) => {
                                self.publisher = Some(
                                    PublisherReg { keyframe_seen: keyframe_seen || kf, ..p },
                                );
                            },
                            None => {},
                        }
                        let media = Media {
                            media_type: MediaType::Video,
                            data,
                            timestamp,
                            can_be_dropped: !kf,
                        };
                        let ghost im = InputModel::Media(media@);
                        self.emitted = Ghost(self.emitted@.push(im));
                        let acts = vec![Action::Emit { input: RtmpInput::Media(media) }];
                        proof {
                            assert(self.model() =~~= spec_step(m0, conn as int, evm).0);
                            assert(acts@.map_values(|a: Action| a@) =~= spec_step(
                                m0,
                                conn as int,
                                evm,
                            ).1);
                        }
                        acts
                    },
                    None => {
                        proof {
                            assert(self.model() =~~= spec_step(m0, conn as int, evm).0);
                            assert(Seq::<Action>::empty().map_values(|a: Action| a@) =~= spec_step(
                                m0,
                                conn as int,
                                evm,
                            ).1);
                        }
                        Vec::new()
                    },
                }
            },
            Event::Ignored => {
                proof {
                    assert(self.model() =~~= spec_step(m0, conn as int, evm).0);
                    assert(Seq::<Action>::empty().map_values(|a: Action| a@) =~= spec_step(
                        m0,
                        conn as int,
                        evm,
                    ).1);
                }
                Vec::new()
            },
        }
    }

    /// Feeds received bytes into this connection's protocol session —
    /// creating the session on first contact, with the initial packets the
    /// protocol owes the peer — and interprets every raised event, in order,
    /// by `spec_step`. A decode failure fails the call for this connection
    /// only and leaves the publisher registration and the emitted history
    /// untouched. On success every returned result concerns exactly this
    /// connection; and a publisher registration held by another connection
    /// is never disturbed, nor is anything emitted on this connection's
    /// account while another holds it.
    pub fn bytes_received(&mut self, connection_id: usize, bytes: &[u8]) -> (r: Result<
        Vec<ServerResult>,
        ServerError,
    >)
        requires
            connection_id < usize::MAX,
        ensures
            final(self).model().stream_key == old(self).model().stream_key,
            old(self).model().emitted.is_prefix_of(final(self).model().emitted),
            r is Err ==> final(self).model().publisher == old(self).model().publisher && final(self).model().emitted == old(self).model().emitted,
            r matches Ok(rs) ==> forall|i: int|
                0 <= i < rs@.len() ==> spec_concerns(#[trigger] rs@[i]@, connection_id as int),
            (old(self).model().publisher matches Some(p) && p.conn != connection_id as int) ==> (
            final(self).model().publisher == old(self).model().publisher && final(self).model().emitted == old(self).model().emitted),
            old(self).model().sessions.subset_of(final(self).model().sessions),
            final(self).model().sessions.subset_of(
                old(self).model().sessions.insert(connection_id as int),
            ),
            r is Ok ==> final(self).model().sessions == old(self).model().sessions.insert(
                connection_id as int,
            ),
    {
        let ghost m0 = self.model();
        let ghost sdom = m0.sessions.insert(connection_id as int);
        let mut out: Vec<ServerResult> = Vec::new();
        let mut queue: Vec<Outcome> = Vec::new();

        if !self.sessions.contains(connection_id) {
            match session_create() {
                Err(e) => {
                    proof {
                        assert(m0.emitted =~= m0.emitted.subrange(0, m0.emitted.len() as int));
                    }
                    return Err(ServerError::Session(e));
                },
                Ok((sess, mut initial)) => {
                    self.sessions.reserve_to(connection_id + 1);
                    self.sessions.put(connection_id, sess);
                    while initial.len() > 0
                        decreases initial@.len(),
                    {
                        let rr = initial.remove(0);
                        queue.push(outcome_of(rr));
                    }
                },
            }
        }
        proof {
            assert(self.sessions@.dom() =~= sdom);
            self.sessions.lemma_key_lt_capacity(connection_id as int);
        }
        let mut sess = match self.sessions.take(connection_id) {
            Some(s) => s,
            None => vstd::pervasive::unreached(),
        };
        let hi = session_handle_input(&mut sess, bytes);
        self.sessions.put(connection_id, sess);
        proof {
            assert(self.sessions@.dom() =~= sdom);
        }
        let mut results = match hi {
            Ok(rs) => rs,
            Err(e) => {
                proof {
                    assert(m0.emitted =~= m0.emitted.subrange(0, m0.emitted.len() as int));
                }
                return Err(ServerError::Session(e));
            },
        };
        while results.len() > 0
            decreases results@.len(),
        {
            let rr = results.remove(0);
            queue.push(outcome_of(rr));
        }

        // interpret the queue in order; accepting a request answers with a
        // second batch of results, processed in place
        while queue.len() > 0
            invariant
                self.model().stream_key == m0.stream_key,
                m0.emitted.len() <= self.model().emitted.len(),
                forall|j: int|
                    0 <= j < m0.emitted.len() ==> self.model().emitted[j] == m0.emitted[j],
                (m0.publisher matches Some(p) && p.conn != connection_id as int) ==> (
                self.model().publisher == m0.publisher && self.model().emitted == m0.emitted),
                forall|i: int|
                    0 <= i < out@.len() ==> spec_concerns(#[trigger] out@[i]@, connection_id as int),
                self.sessions@.dom() == sdom,
                sdom.contains(connection_id as int),
            decreases queue@.len(),
        {
            let oc = queue.remove(0);
            match oc {
                Outcome::Packet { bytes, droppable } => {
                    let _ = droppable;
                    out.push(
                        ServerResult::OutboundPacket {
                            target_connection_id: connection_id,
                            bytes,
                        },
                    );
                },
                Outcome::Ignorable => {},
                Outcome::Event(raw) => {
                    let ev = refine_event(event_of(raw));
                    let ghost mpre = self.model();
                    let mut acts = self.handle_event(connection_id, ev);
                    proof {
                        assert(spec_step(mpre, connection_id as int, ev@).1.len() <= 1);
                        assert(acts@.len() == spec_step(mpre, connection_id as int, ev@).1.len());
                    }
                    if acts.len() > 0 {
                        let a = acts.remove(0);
                        match a {
                            Action::Accept { request_id } => {
                                proof {
                                    assert(self.sessions@.contains_key(connection_id as int));
                                    self.sessions.lemma_key_lt_capacity(connection_id as int);
                                }
                                let mut sess = match self.sessions.take(connection_id) {
                                    Some(s) => s,
                                    None => vstd::pervasive::unreached(),
                                };
                                let ar = session_accept(&mut sess, request_id);
                                self.sessions.put(connection_id, sess);
                                proof {
                                    assert(self.sessions@.dom() =~= sdom);
                                }
                                match ar {
                                    Ok(mut rs) => {
                                        self.process_accept_results(
                                            connection_id,
                                            &mut rs,
                                            &mut out,
                                            Ghost(m0),
                                            Ghost(sdom),
                                        );
                                    },
                                    Err(_) => {
                                        // the session refused its own outstanding
                                        // request: give the connection up rather
                                        // than abort the call mid-stream
                                        out.push(
                                            ServerResult::DisconnectConnection { connection_id },
                                        );
                                    },
                                }
                            },
                            Action::Disconnect => {
                                out.push(ServerResult::DisconnectConnection { connection_id });
                            },
                            Action::Emit { input } => {
                                let _delivered = send_input(&self.sink, input);
                            },
                        }
                    }
                },
            }
        }
        proof {
            assert(m0.emitted =~= self.model().emitted.subrange(0, m0.emitted.len() as int));
        }
        Ok(out)
    }

    /// Processes the results of one accepted request: packets are forwarded
    /// to this connection, and an event raised here is applied without
    /// accepting a further request. Per the codec's source an accept answers
    /// with outbound packets only, so the request arm answers with a
    /// disconnect rather than letting a request go unanswered.
    fn process_accept_results(
        &mut self,
        connection_id: usize,
        rs: &mut Vec<ServerSessionResult>,
        out: &mut Vec<ServerResult>,
        Ghost(m0): Ghost<ServerModel>,
        Ghost(sdom): Ghost<Set<int>>,
    )
        requires
            old(self).model().stream_key == m0.stream_key,
            m0.emitted.len() <= old(self).model().emitted.len(),
            forall|j: int|
                0 <= j < m0.emitted.len() ==> old(self).model().emitted[j] == m0.emitted[j],
            (m0.publisher matches Some(p) && p.conn != connection_id as int) ==> (old(self).model().publisher == m0.publisher && old(self).model().emitted == m0.emitted),
            forall|i: int|
                0 <= i < old(out)@.len() ==> spec_concerns(
                    #[trigger] old(out)@[i]@,
                    connection_id as int,
                ),
            old(self).sessions_of().dom() == sdom,
        ensures
            final(self).model().stream_key == m0.stream_key,
            m0.emitted.len() <= final(self).model().emitted.len(),
            forall|j: int|
                0 <= j < m0.emitted.len() ==> final(self).model().emitted[j] == m0.emitted[j],
            (m0.publisher matches Some(p) && p.conn != connection_id as int) ==> (final(self).model().publisher == m0.publisher && final(self).model().emitted == m0.emitted),
            forall|i: int|
                0 <= i < final(out)@.len() ==> spec_concerns(
                    #[trigger] final(out)@[i]@,
                    connection_id as int,
                ),
            final(self).sessions_of().dom() == sdom,
    {
        while rs.len() > 0
            invariant
                self.model().stream_key == m0.stream_key,
                m0.emitted.len() <= self.model().emitted.len(),
                forall|j: int|
                    0 <= j < m0.emitted.len() ==> self.model().emitted[j] == m0.emitted[j],
                (m0.publisher matches Some(p) && p.conn != connection_id as int) ==> (
                self.model().publisher == m0.publisher && self.model().emitted == m0.emitted),
                forall|i: int|
                    0 <= i < out@.len() ==> spec_concerns(#[trigger] out@[i]@, connection_id as int),
                self.sessions_of().dom() == sdom,
            decreases rs@.len(),
        {
            let rr = rs.remove(0);
            match outcome_of(rr) {
                Outcome::Packet { bytes, droppable } => {
                    let _ = droppable;
                    out.push(
                        ServerResult::OutboundPacket {
                            target_connection_id: connection_id,
                            bytes,
                        },
                    );
                },
                Outcome::Ignorable => {},
                Outcome::Event(raw) => {
                    let ev = refine_event(event_of(raw));
                    let ghost mpre = self.model();
                    let mut acts = self.handle_event(connection_id, ev);
                    proof {
                        assert(spec_step(mpre, connection_id as int, ev@).1.len() <= 1);
                        assert(acts@.len() == spec_step(mpre, connection_id as int, ev@).1.len());
                    }
                    if acts.len() > 0 {
                        let a = acts.remove(0);
                        match a {
                            Action::Accept { .. } => {
                                out.push(ServerResult::DisconnectConnection { connection_id });
                            },
                            Action::Disconnect => {
                                out.push(ServerResult::DisconnectConnection { connection_id });
                            },
                            Action::Emit { input } => {
                                let _delivered = send_input(&self.sink, input);
                            },
                        }
                    }
                },
            }
        }
    }

    /// Removes all session state for the identifier. Idempotent: closing an
    /// identifier twice is the same as closing it once (see
    /// `lemma_close_idempotent`).
    pub fn notify_connection_closed(&mut self, connection_id: usize)
        ensures
            final(self).model() == spec_close(old(self).model(), connection_id as int),
    {
        let _ = self.sessions.take(connection_id);
        let clear = match &self.publisher {
            Some(p) => p.conn == connection_id,
            None => false,
        };
        if clear {
            self.publisher = None;
        }
        proof {
            assert(self.sessions@.dom() =~= old(self).sessions@.dom().remove(
                connection_id as int,
            ));
            assert(self.model() =~~= spec_close(old(self).model(), connection_id as int));
        }
    }
}

/// Folds a run of events from one connection through `spec_step`,
/// concatenating the decided actions in order.
pub open spec fn run_events(m: ServerModel, conn: int, evs: Seq<EventModel>) -> (ServerModel, Seq<
    ActionModel,
>)
    decreases evs.len(),
{
    if evs.len() == 0 {
        (m, Seq::empty())
    } else {
        let first = spec_step(m, conn, evs[0]);
        let rest = run_events(first.0, conn, evs.subrange(1, evs.len() as int));
        (rest.0, first.1 + rest.1)
    }
}

/// A metadata, audio or video event.
pub open spec fn is_media_event(ev: EventModel) -> bool {
    match ev {
        EventModel::MetadataReady { .. } => true,
        EventModel::Audio { .. } => true,
        EventModel::Video { .. } => true,
        _ => false,
    }
}

/// The channel item that forwards `ev`, droppability aside: same kind, same
/// payload, same timestamp.
pub open spec fn emit_matches(ev: EventModel, inp: InputModel) -> bool {
    match ev {
        EventModel::MetadataReady { info } => inp == InputModel::Metadata(info),
        EventModel::Audio { data, timestamp } => (inp matches InputModel::Media(mm)
            && mm.media_type == MediaType::Audio && mm.data == data && mm.timestamp == timestamp),
        EventModel::Video { data, timestamp } => (inp matches InputModel::Media(mm)
            && mm.media_type == MediaType::Video && mm.data == data && mm.timestamp == timestamp),
        _ => false,
    }
}

/// Law: removing a connection's state is idempotent — closing the same
/// identifier a second time changes nothing further.
pub proof fn lemma_close_idempotent(m: ServerModel, conn: int)
    ensures
        spec_close(spec_close(m, conn), conn) == spec_close(m, conn),
{
    assert(spec_close(spec_close(m, conn), conn) =~~= spec_close(m, conn));
}

/// Law: a publish request bearing a key different from the configured key
/// is answered with a disconnect and nothing else — no media event, no
/// registration, no state change at all; and with no key configured, any
/// key is accepted and registered while the publisher slot is free.
pub proof fn lemma_publish_key_guard(m: ServerModel, conn: int, request_id: u32, key: Seq<u8>)
    ensures
        (m.stream_key matches Some(cfg) && cfg != key) ==> spec_step(
            m,
            conn,
            EventModel::PublishRequest { request_id, stream_key: key },
        ) == (m, seq![ActionModel::Disconnect]),
        (m.stream_key is None && m.publisher is None) ==> spec_step(
            m,
            conn,
            EventModel::PublishRequest { request_id, stream_key: key },
        ) == (
            ServerModel {
                publisher: Some(PublisherModel { conn, key, keyframe_seen: false }),
                ..m
            },
            seq![ActionModel::Accept { request_id }],
        ),
{
}

/// Law: while one connection holds the publisher registration, any further
/// publish request — from any connection, under the same or any other key —
/// is rejected with a disconnect for the requester, and the standing
/// registration is left exactly as it was.
pub proof fn lemma_second_publisher_rejected(m: ServerModel, conn: int, request_id: u32, key: Seq<
    u8,
>)
    requires
        m.publisher is Some,
    ensures
        spec_step(m, conn, EventModel::PublishRequest { request_id, stream_key: key }) == (
            m,
            seq![ActionModel::Disconnect],
        ),
{
}

/// Law: once a connection holds the publisher registration, a run of its
/// metadata and media events is forwarded one-for-one in receipt order: the
/// i-th item appended to the channel history matches the i-th event — same
/// kind, payload and timestamp — with nothing reordered, inserted or lost,
/// the earlier history untouched, and the registration surviving the run.
pub proof fn lemma_media_in_order(m: ServerModel, conn: int, evs: Seq<EventModel>)
    requires
        is_publisher(m, conn),
        forall|i: int| 0 <= i < evs.len() ==> is_media_event(#[trigger] evs[i]),
    ensures
        run_events(m, conn, evs).1.len() == evs.len(),
        forall|i: int|
            0 <= i < evs.len() ==> (#[trigger] run_events(m, conn, evs).1[i] matches
                ActionModel::Emit { input } && emit_matches(evs[i], input)),
        run_events(m, conn, evs).0.emitted.len() == m.emitted.len() + evs.len(),
        forall|j: int|
            0 <= j < m.emitted.len() ==> run_events(m, conn, evs).0.emitted[j] == m.emitted[j],
        forall|i: int|
            0 <= i < evs.len() ==> emit_matches(
                evs[i],
                run_events(m, conn, evs).0.emitted[m.emitted.len() + i],
            ),
        is_publisher(run_events(m, conn, evs).0, conn),
    decreases evs.len(),
{
    if evs.len() > 0 {
        let first = spec_step(m, conn, evs[0]);
        let tail = evs.subrange(1, evs.len() as int);
        assert(is_media_event(evs[0]));
        assert(first.1.len() == 1);
        assert(first.1[0] matches ActionModel::Emit { input } && emit_matches(evs[0], input));
        assert(first.0.emitted.len() == m.emitted.len() + 1);
        assert(emit_matches(evs[0], first.0.emitted[m.emitted.len() as int]));
        assert(is_publisher(first.0, conn));
        assert(forall|i: int| 0 <= i < tail.len() ==> is_media_event(#[trigger] tail[i]));
        lemma_media_in_order(first.0, conn, tail);
        let rest = run_events(first.0, conn, tail);
        assert(run_events(m, conn, evs).1 == first.1 + rest.1);
        assert forall|i: int| 0 <= i < evs.len() implies (#[trigger] run_events(m, conn, evs).1[i]
            matches ActionModel::Emit { input } && emit_matches(evs[i], input)) by {
            if i == 0 {
                assert((first.1 + rest.1)[0] == first.1[0]);
            } else {
                assert((first.1 + rest.1)[i] == rest.1[i - 1]);
                assert(tail[i - 1] == evs[i]);
            }
        }
        assert forall|j: int| 0 <= j < m.emitted.len() implies run_events(m, conn, evs).0.emitted[j]
            == m.emitted[j] by {
            assert(rest.0.emitted[j] == first.0.emitted[j]);
            assert(first.0.emitted[j] == m.emitted[j]);
        }
        assert forall|i: int| 0 <= i < evs.len() implies emit_matches(
            evs[i],
            run_events(m, conn, evs).0.emitted[m.emitted.len() + i],
        ) by {
            if i == 0 {
                assert(rest.0.emitted[m.emitted.len() as int] == first.0.emitted[m.emitted.len() as int]);
            } else {
                assert(tail[i - 1] == evs[i]);
                assert(first.0.emitted.len() + (i - 1) == m.emitted.len() + i);
            }
        }
    }
}

} // verus!
