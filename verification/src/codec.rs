//! The boundary to the RTMP codec library (`rml_rtmp`): the handshake
//! exchange and the chunk-protocol session. Everything in this module is
//! trusted — Verus believes the contracts without reading the bodies — so
//! each item is one declaration or one thin call plus conversion to plain
//! values, nothing more. The dispatcher's verified logic takes the values
//! produced here as arguments and is proved for every value of them.

use crate::data::MetaInfo;
use rml_rtmp::handshake::Handshake;
use rml_rtmp::handshake::HandshakeError;
use rml_rtmp::handshake::HandshakeProcessResult;
use rml_rtmp::handshake::PeerType;
use rml_rtmp::sessions::ServerSession;
use rml_rtmp::sessions::ServerSessionConfig;
use rml_rtmp::sessions::ServerSessionError;
use rml_rtmp::sessions::ServerSessionEvent;
use rml_rtmp::sessions::ServerSessionResult;
use rml_rtmp::sessions::StreamMetadata;
use vstd::prelude::*;

verus! {

#[verifier::external_type_specification]
#[verifier::external_body]
pub struct ExHandshake(Handshake);

#[verifier::external_type_specification]
#[verifier::external_body]
pub struct ExHandshakeError(HandshakeError);

#[verifier::external_type_specification]
#[verifier::external_body]
pub struct ExServerSession(ServerSession);

#[verifier::external_type_specification]
#[verifier::external_body]
pub struct ExServerSessionError(ServerSessionError);

#[verifier::external_type_specification]
#[verifier::external_body]
pub struct ExServerSessionEvent(ServerSessionEvent);

#[verifier::external_type_specification]
#[verifier::external_body]
pub struct ExServerSessionResult(ServerSessionResult);

#[verifier::external_type_specification]
#[verifier::external_body]
pub struct ExStreamMetadata(StreamMetadata);

#[verifier::external_type_specification]
#[verifier::external_body]
#[verifier::reject_recursive_types(T)]
pub struct ExSender<T>(std::sync::mpsc::Sender<T>);

/// One step of the handshake byte exchange: still in progress, or complete
/// with the bytes that arrived past its end.
pub enum HandshakeStep {
    InProgress { response: Vec<u8> },
    Completed { response: Vec<u8>, remaining: Vec<u8> },
}

/// One result of the chunk-protocol session, as far as the dispatcher cares:
/// a packet addressed to the peer, a raised application event, or something
/// to pass over.
pub enum Outcome {
    Packet { bytes: Vec<u8>, droppable: bool },
    Event(ServerSessionEvent),
    Ignorable,
}

/// One application-level session event with its payloads as plain values.
/// `MetadataRaw` still carries the codec's metadata record; `meta_of` turns
/// it into a `MetaInfo`.
pub enum SessionEvent {
    ConnectRequest { request_id: u32 },
    PublishRequest { request_id: u32, stream_key: Vec<u8> },
    PublishFinished { stream_key: Vec<u8> },
    MetadataRaw(StreamMetadata),
    Audio { data: Vec<u8>, timestamp: u32 },
    Video { data: Vec<u8>, timestamp: u32 },
    Ignored,
}

/// Relies on rml_rtmp's `Handshake::new`: a fresh server-side handshake
/// tracker that has consumed no bytes yet.
#[verifier::external_body]
pub(crate) fn handshake_new() -> Handshake {
    Handshake::new(PeerType::Server)
}

/// Relies on rml_rtmp's `Handshake::process_bytes`: consumes the peer's
/// bytes, says whether the exchange is finished, and hands back the bytes to
/// answer with plus whatever followed the handshake. Its response contains
/// freshly drawn random bytes, so nothing is stated of the contents.
#[verifier::external_body]
pub(crate) fn handshake_process(hs: &mut Handshake, input: &[u8]) -> Result<
    HandshakeStep,
    HandshakeError,
> {
    match hs.process_bytes(input)? {
        HandshakeProcessResult::InProgress { response_bytes } => Ok(HandshakeStep::InProgress {
            response: response_bytes,
        }),
        HandshakeProcessResult::Completed { response_bytes, remaining_bytes } => Ok(
            HandshakeStep::Completed { response: response_bytes, remaining: remaining_bytes },
        ),
    }
}

/// Relies on rml_rtmp's `ServerSessionConfig::new` and `ServerSession::new`:
/// a fresh per-connection session with the default configuration, together
/// with the initial packets the protocol owes the peer.
#[verifier::external_body]
pub(crate) fn session_create() -> Result<
    (ServerSession, Vec<ServerSessionResult>),
    ServerSessionError,
> {
    ServerSession::new(ServerSessionConfig::new())
}

/// Relies on rml_rtmp's `ServerSession::handle_input`: decodes one span of
/// received chunk-protocol bytes into results; decode failures come back as
/// `Err`. Caveat, from the codec's source: its `@setDataFrame` handler
/// checks a too-short payload but falls through instead of returning, then
/// indexes past the payload's end — so a crafted data message from a
/// handshaken client makes this call panic rather than fail (and in debug
/// builds its acknowledgement counter can overflow after gigabytes of
/// input). The trigger depends on the session's internal chunk state, so no
/// `requires` on this wrapper's arguments can exclude it; a caller that
/// must survive adversarial input has to confine the unwind to the one
/// connection, as the event loop does.
#[verifier::external_body]
pub(crate) fn session_handle_input(sess: &mut ServerSession, input: &[u8]) -> Result<
    Vec<ServerSessionResult>,
    ServerSessionError,
> {
    sess.handle_input(input)
}

/// Relies on rml_rtmp's `ServerSession::accept_request`: acknowledges an
/// outstanding connect or publish request, producing the packets that answer
/// the peer.
#[verifier::external_body]
pub(crate) fn session_accept(sess: &mut ServerSession, request_id: u32) -> Result<
    Vec<ServerSessionResult>,
    ServerSessionError,
> {
    sess.accept_request(request_id)
}

/// Relies on the shape of rml_rtmp's `ServerSessionResult`: tells its
/// variants apart, moving a packet's bytes and drop mark out.
#[verifier::external_body]
pub(crate) fn outcome_of(r: ServerSessionResult) -> Outcome {
    match r {
        ServerSessionResult::OutboundResponse(p) => Outcome::Packet {
            bytes: p.bytes,
            droppable: p.can_be_dropped,
        },
        ServerSessionResult::RaisedEvent(e) => Outcome::Event(e),
        ServerSessionResult::UnhandleableMessageReceived(_) => Outcome::Ignorable,
    }
}

/// Relies on the shape of rml_rtmp's `ServerSessionEvent`: tells its
/// variants apart, moving each payload out as plain values — a stream key as
/// its bytes, a timestamp as its milliseconds value.
#[verifier::external_body]
pub(crate) fn event_of(e: ServerSessionEvent) -> SessionEvent {
    match e {
        ServerSessionEvent::ConnectionRequested { request_id, .. } => SessionEvent::ConnectRequest { request_id },
        ServerSessionEvent::PublishStreamRequested { request_id, stream_key, .. } => SessionEvent::PublishRequest { request_id, stream_key: stream_key.into_bytes() },
        ServerSessionEvent::PublishStreamFinished { stream_key, .. } => SessionEvent::PublishFinished { stream_key: stream_key.into_bytes() },
        ServerSessionEvent::StreamMetadataChanged { metadata, .. } => SessionEvent::MetadataRaw(metadata),
        ServerSessionEvent::AudioDataReceived { data, timestamp, .. } => SessionEvent::Audio { data: data.to_vec(), timestamp: timestamp.value },
        ServerSessionEvent::VideoDataReceived { data, timestamp, .. } => SessionEvent::Video { data: data.to_vec(), timestamp: timestamp.value },
        _ => SessionEvent::Ignored,
    }
}

/// Relies on the fields of rml_rtmp's `StreamMetadata`: copies the
/// properties the downstream pipeline consumes, the frame rate rounded down
/// to whole frames per second.
#[verifier::external_body]
pub(crate) fn meta_of(m: StreamMetadata) -> MetaInfo {
    MetaInfo {
        video_width: m.video_width,
        video_height: m.video_height,
        video_frame_rate: m.video_frame_rate.map(|v| v as u32),
        audio_channels: m.audio_channels,
        audio_sample_rate: m.audio_sample_rate,
    }
}

/// Relies on std's `mpsc::Sender::send`: enqueues the item for the single
/// consumer without blocking; it fails only when the consumer end is gone,
/// and the item is dropped in that case.
#[verifier::external_body]
pub(crate) fn send_input(
    sink: &std::sync::mpsc::Sender<crate::data::RtmpInput>,
    item: crate::data::RtmpInput,
) -> bool {
    sink.send(item).is_ok()
}

} // verus!
