//! One client connection's protocol-visible state: handshake progress and
//! the interpretation of each non-blocking read attempt. The socket itself
//! lives outside; what it produced is handed in as a `RawRead` value and the
//! answer says what to surface and what to write back.

use crate::codec::handshake_new;
use crate::codec::handshake_process;
use crate::codec::HandshakeStep;
use rml_rtmp::handshake::Handshake;
use vstd::prelude::*;

verus! {

/// What one non-blocking read attempt on the socket produced: bytes, no
/// bytes without error, or a clean close by the peer.
pub enum RawRead {
    Data(Vec<u8>),
    WouldBlock,
    Closed,
}

/// Why a connection must be removed. Always recoverable by removing that one
/// connection; never fatal to the process.
#[derive(Clone, Copy, Debug, PartialEq, Eq, Structural)]
pub enum ConnectionError {
    /// The peer cleanly closed the socket.
    SocketClosed,
    /// Any other I/O or handshake failure.
    Io,
}

/// The outcome of one read attempt after the handshake layer consumed its
/// share: nothing arrived, the handshake advanced without surfacing bytes,
/// or application-visible bytes past handshake completion.
pub enum ReadResult {
    NoBytesReceived,
    HandshakingInProgress,
    BytesReceived { data: Vec<u8> },
}

/// The protocol state of one connection: its handshake tracker and whether
/// the exchange has completed.
pub struct ConnState {
    hs: Handshake,
    handshake_done: bool,
}

impl ConnState {
    /// Whether the handshake exchange has completed.
    pub closed spec fn handshake_complete(&self) -> bool {
        self.handshake_done
    }

    pub fn new() -> (c: ConnState)
        ensures
            !c.handshake_complete(),
    {
        ConnState { hs: handshake_new(), handshake_done: false }
    }

    /// Applies one step of the handshake exchange to this connection's
    /// state, exactly: progress leaves the completion flag as it was and
    /// surfaces nothing; completion sets the flag, and whatever bytes
    /// followed the handshake surface as `BytesReceived` — when there are
    /// none, nothing is application-visible yet. The second half of the
    /// pair is the response owed to the peer, handed through unchanged.
    pub fn apply_handshake_step(&mut self, step: HandshakeStep) -> (out: (ReadResult, Vec<u8>))
        ensures
            old(self).handshake_complete() ==> final(self).handshake_complete(),
            step matches HandshakeStep::InProgress { response } ==> ({
                &&& final(self).handshake_complete() == old(self).handshake_complete()
                &&& out.0 is HandshakingInProgress
                &&& out.1 == response
            }),
            step matches HandshakeStep::Completed { response, remaining } ==> ({
                &&& final(self).handshake_complete()
                &&& out.1 == response
                &&& (remaining@.len() == 0 ==> out.0 is HandshakingInProgress)
                &&& (remaining@.len() > 0 ==> (out.0 matches ReadResult::BytesReceived { data }
                    && data == remaining))
            }),
    {
        match step {
            HandshakeStep::InProgress { response } => (ReadResult::HandshakingInProgress, response),
            HandshakeStep::Completed { response, remaining } => {
                self.handshake_done = true;
                if remaining.len() == 0 {
                    (ReadResult::HandshakingInProgress, response)
                } else {
                    (ReadResult::BytesReceived { data: remaining }, response)
                }
            },
        }
    }

    /// Interprets one read attempt. Would-block is a normal, quiet outcome; a
    /// clean close fails with `SocketClosed`; bytes are fed to the handshake
    /// until it completes — each step applied by `apply_handshake_step`,
    /// which pins what every step does to this state — and surface unchanged
    /// afterwards. The second half of the pair is what must be written back
    /// to the peer.
    pub fn on_read(&mut self, r: RawRead) -> (out: Result<(ReadResult, Vec<u8>), ConnectionError>)
        ensures
            old(self).handshake_complete() ==> final(self).handshake_complete(),
            r is WouldBlock ==> {
                &&& out matches Ok(p)
                &&& p.0 is NoBytesReceived
                &&& p.1@.len() == 0
                &&& final(self).handshake_complete() == old(self).handshake_complete()
            },
            r is Closed ==> {
                &&& out matches Err(e)
                &&& e == ConnectionError::SocketClosed
                &&& final(self).handshake_complete() == old(self).handshake_complete()
            },
            r matches RawRead::Data(d) ==> (old(self).handshake_complete() ==> {
                &&& out matches Ok(p)
                &&& (p.0 matches ReadResult::BytesReceived { data } && data@ == d@)
                &&& p.1@.len() == 0
            }),
            (out matches Ok(p) && p.0 is BytesReceived) ==> final(self).handshake_complete(),
            (r is Data && out is Err) ==> ((out matches Err(e) && e == ConnectionError::Io)
                && old(self).handshake_complete() == final(self).handshake_complete()),
    {
        match r {
            RawRead::WouldBlock => Ok((ReadResult::NoBytesReceived, Vec::new())),
            RawRead::Closed => Err(ConnectionError::SocketClosed),
            RawRead::Data(d) => {
                if self.handshake_done {
                    Ok((ReadResult::BytesReceived { data: d }, Vec::new()))
                } else {
                    match handshake_process(&mut self.hs, d.as_slice()) {
                        Err(_) => Err(ConnectionError::Io),
                        Ok(step) => Ok(self.apply_handshake_step(step)),
                    }
                }
            },
        }
    }
}

} // verus!
