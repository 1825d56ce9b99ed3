//! The session state of a connection to one metrics agent.
//!
//! The socket itself lives with the caller; this type decides what each
//! operation may do in the current state and produces the bytes to write.
use vstd::prelude::*;
use crate::handshake::{confirmation_matches, expected_answer, from_le64, handshake_answer, le64};
use crate::packet::{
    frame_bytes, header_bytes, header_fields, lemma_header_roundtrip, Packet,
};

verus! {

/// Why a session operation was refused.
#[derive(Debug, Clone, Copy, PartialEq, Eq, Structural)]
pub enum ClientError {
    /// `connect` on a session whose handshake has completed.
    AlreadyConnected,
    /// No socket is open.
    NotConnected,
    /// A packet was to be sent or received before the handshake completed.
    HandshakeNotCompleted,
    /// The agent's confirmation did not echo the answer to its challenge.
    HandshakeValidationFailed,
}

impl ClientError {
    /// The message the service reports for this error.
    pub open spec fn text(&self) -> Seq<char> {
        match self {
            ClientError::AlreadyConnected => "Already connected"@,
            ClientError::NotConnected => "Not connected"@,
            ClientError::HandshakeNotCompleted => "Handshake not completed"@,
            ClientError::HandshakeValidationFailed => "Handshake validation failed"@,
        }
    }

    /// The message the service reports for this error.
    pub fn message(&self) -> (s: &'static str)
        ensures
            s@ == self.text(),
    {
        match self {
            ClientError::AlreadyConnected => "Already connected",
            ClientError::NotConnected => "Not connected",
            ClientError::HandshakeNotCompleted => "Handshake not completed",
            ClientError::HandshakeValidationFailed => "Handshake validation failed",
        }
    }
}

/// A session with a metrics agent: whether a socket is open, and whether the
/// handshake on it has completed.
pub struct TcpClient {
    stream_open: bool,
    connected: bool,
}

impl TcpClient {
    /// A session whose handshake has completed has a socket.
    #[verifier::type_invariant]
    spec fn inv(&self) -> bool {
        self.connected ==> self.stream_open
    }

    /// A socket is open.
    pub closed spec fn has_stream(&self) -> bool {
        self.stream_open
    }

    /// The handshake has completed, so packets may flow.
    pub closed spec fn connected(&self) -> bool {
        self.connected
    }

    /// A session with no socket.
    pub fn new() -> (c: TcpClient)
        ensures
            !c.has_stream(),
            !c.connected(),
    {
        TcpClient { stream_open: false, connected: false }
    }

    /// Whether the handshake has completed.
    pub fn is_connected(&self) -> (b: bool)
        ensures
            b == self.connected(),
            self.connected() ==> self.has_stream(),
    {
        proof {
            use_type_invariant(self);
        }
        self.connected
    }

    /// The first step of `connect`: refused while a session is established.
    pub fn begin_connect(&self) -> (r: Result<(), ClientError>)
        ensures
            r == (if self.connected() {
                Err(ClientError::AlreadyConnected)
            } else {
                Ok(())
            }),
    {
        if self.connected {
            Err(ClientError::AlreadyConnected)
        } else {
            Ok(())
        }
    }

    /// A socket has been opened; it replaces any earlier one.
    pub fn attach_stream(&mut self)
        ensures
            final(self).has_stream(),
            final(self).connected() == old(self).connected(),
    {
        self.stream_open = true;
    }

    /// The bytes to answer the agent's 8-byte challenge with; refused when no
    /// socket is open.
    pub fn answer_challenge(&self, challenge: &[u8]) -> (r: Result<Vec<u8>, ClientError>)
        requires
            challenge@.len() == 8,
        ensures
            !self.has_stream() ==> r == Err::<Vec<u8>, ClientError>(ClientError::NotConnected),
            self.has_stream() ==> r is Ok && r->Ok_0@ == le64(expected_answer(challenge@)),
    {
        if !self.stream_open {
            return Err(ClientError::NotConnected);
        }
        Ok(handshake_answer(challenge))
    }

    /// The agent's confirmation has arrived: the session is established if it
    /// echoes the answer to the challenge, and unchanged otherwise.
    pub fn finish_handshake(&mut self, challenge: &[u8], confirmation: &[u8]) -> (r: Result<
        (),
        ClientError,
    >)
        requires
            challenge@.len() == 8,
            confirmation@.len() == 8,
        ensures
            final(self).has_stream() == old(self).has_stream(),
            !old(self).has_stream() ==> r == Err::<(), ClientError>(ClientError::NotConnected)
                && final(self).connected() == old(self).connected(),
            old(self).has_stream() && from_le64(confirmation@) == expected_answer(challenge@)
                ==> r == Ok::<(), ClientError>(()) && final(self).connected(),
            old(self).has_stream() && from_le64(confirmation@) != expected_answer(challenge@)
                ==> r == Err::<(), ClientError>(ClientError::HandshakeValidationFailed)
                && final(self).connected() == old(self).connected(),
    {
        if !self.stream_open {
            return Err(ClientError::NotConnected);
        }
        if !confirmation_matches(challenge, confirmation) {
            return Err(ClientError::HandshakeValidationFailed);
        }
        self.connected = true;
        Ok(())
    }

    /// The session ends and its socket is dropped.
    pub fn disconnect(&mut self)
        ensures
            !final(self).connected(),
            !final(self).has_stream(),
    {
        self.connected = false;
        self.stream_open = false;
    }

    /// Whether a packet may be sent or received now.
    pub fn check_ready(&self) -> (r: Result<(), ClientError>)
        ensures
            r == self.check_ready_spec(),
    {
        proof {
            use_type_invariant(self);
        }
        if !self.connected {
            Err(ClientError::HandshakeNotCompleted)
        } else if !self.stream_open {
            Err(ClientError::NotConnected)
        } else {
            Ok(())
        }
    }

    /// The bytes to write to send `packet`: its header, then its body.
    pub fn send_packet(&self, packet: &Packet) -> (r: Result<Vec<u8>, ClientError>)
        ensures
            match r {
                Ok(bytes) => self.connected() && bytes@ == frame_bytes(
                    packet.packet_type,
                    packet.body_size,
                    packet.body@,
                ),
                Err(e) => Err::<(), ClientError>(e) == self.check_ready_spec(),
            },
            r is Ok <==> self.connected(),
    {
        match self.check_ready() {
            Ok(()) => Ok(packet.encode()),
            Err(e) => Err(e),
        }
    }

    /// What `check_ready` answers.
    pub open spec fn check_ready_spec(&self) -> Result<(), ClientError> {
        if !self.connected() {
            Err(ClientError::HandshakeNotCompleted)
        } else {
            Ok(())
        }
    }

    /// The packet that a received 8-byte header and the body read after it
    /// make; refused when the session is not ready.
    pub fn receive_packet(&self, header: &[u8], body: Vec<u8>) -> (r: Result<Packet, ClientError>)
        requires
            header@.len() == 8,
            body@.len() == header_fields(header@).1,
        ensures
            r is Ok <==> self.connected(),
            r is Err ==> Err::<(), ClientError>(r->Err_0) == self.check_ready_spec(),
            r is Ok ==> r->Ok_0.packet_type == header_fields(header@).0 && r->Ok_0.body_size
                == header_fields(header@).1 && r->Ok_0.body@ == body@ && r->Ok_0.well_formed(),
    {
        match self.check_ready() {
            Ok(()) => {
                let (packet_type, body_size) = crate::packet::decode_header(header);
                Ok(Packet { packet_type, body_size, body })
            },
            Err(e) => Err(e),
        }
    }
}

/// What a connected session sends for a well-formed packet, a connected
/// session receives back unchanged: the frame's header declares the packet's
/// type and length, and the bytes after it are the body.
pub proof fn lemma_sent_packet_is_received(packet_type: u32, body: Seq<u8>)
    requires
        body.len() <= u32::MAX,
    ensures
        ({
            let frame = frame_bytes(packet_type, body.len() as u32, body);
            &&& frame.len() == 8 + body.len()
            &&& header_fields(frame.subrange(0, 8)) == (packet_type, body.len() as u32)
            &&& frame.subrange(8, frame.len() as int) == body
        }),
{
    let frame = frame_bytes(packet_type, body.len() as u32, body);
    lemma_header_roundtrip(packet_type, body.len() as u32);
    assert(frame.subrange(0, 8) =~= header_bytes(packet_type, body.len() as u32));
    assert(frame.subrange(8, frame.len() as int) =~= body);
}

/// Once the session has been torn down, nothing may be sent until a new
/// handshake completes, and `connect` is allowed again.
pub proof fn lemma_disconnected_session_refuses_packets(c: TcpClient)
    requires
        !c.connected(),
    ensures
        c.check_ready_spec() == Err::<(), ClientError>(ClientError::HandshakeNotCompleted),
{
}

} // verus!
