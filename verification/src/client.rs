//! The status protocol client as a per-connection state machine: each call to
//! [`StatusClient::step`] consumes one transport event and decides the next
//! action. All byte-level work — building the handshake and request frames,
//! assembling the response packet, extracting and parsing the status JSON —
//! happens here; the caller only moves bytes and reports what the socket did.
//! The machine is terminal on its first failure or on a completed status.
use vstd::prelude::*;
use vstd::utf8::encode_utf8;

use crate::errors::{ConnectionError, ParseError, ProtocolError, ScanError};
use crate::json::json_of;
use crate::packet::{
    frame_packet, parse_packet, push_all, spec_frame_packet, spec_parse_packet, PacketOutcome,
    SpecPacketOutcome,
};
use crate::status::{parse_status_payload, spec_parse_status, StatusResponse, StatusView};
use crate::varint::{
    decode_varint_complete, encode_varint, spec_varint_decode, spec_varint_encode, VarIntOutcome,
    VARINT_BOUND,
};

verus! {

/// The port used when a host does not name one.
pub const DEFAULT_PORT: u16 = 25565;

/// The protocol version declared in the handshake.
pub const PROTOCOL_VERSION: u32 = 578;

/// The handshake packet's payload: VarInt protocol version, VarInt-length-
/// prefixed UTF-8 server address, big-endian port, VarInt next-state = 1
/// (status).
pub open spec fn spec_handshake_payload(protocol_version: u32, addr: Seq<char>, port: u16) -> Seq<
    u8,
> {
    spec_varint_encode(protocol_version as nat) + spec_varint_encode(
        encode_utf8(addr).len() as nat,
    ) + encode_utf8(addr) + seq![(port / 256) as u8, (port % 256) as u8] + spec_varint_encode(1)
}

/// The handshake packet on the wire (id 0).
pub open spec fn spec_handshake_frame(protocol_version: u32, addr: Seq<char>, port: u16) -> Seq<
    u8,
> {
    spec_frame_packet(0, spec_handshake_payload(protocol_version, addr, port))
}

/// The status request packet on the wire: id 0, empty payload.
pub open spec fn spec_status_request_frame() -> Seq<u8> {
    spec_frame_packet(0, Seq::empty())
}

/// Builds the handshake frame for one host.
pub fn build_handshake_frame(protocol_version: u32, address: &String, port: u16) -> (r: Vec<u8>)
    requires
        encode_utf8(address@).len() + 32 < VARINT_BOUND,
    ensures
        r@ == spec_handshake_frame(protocol_version, address@, port),
{
    let mut payload = encode_varint(protocol_version);
    let ab: &[u8] = address.as_str().as_bytes();
    proof {
        crate::varint::lemma_varint_encode_len_u32(protocol_version);
        crate::varint::lemma_varint_encode_len_u32(ab@.len() as u32);
        crate::varint::lemma_varint_encode_len_u32(1);
    }
    let lenb = encode_varint(ab.len() as u32);
    push_all(&mut payload, lenb.as_slice());
    push_all(&mut payload, ab);
    payload.push((port / 256) as u8);
    payload.push((port % 256) as u8);
    let nextb = encode_varint(1);
    push_all(&mut payload, nextb.as_slice());
    proof {
        assert(payload@ =~= spec_handshake_payload(protocol_version, address@, port));
    }
    frame_packet(0, payload.as_slice())
}

/// Builds the status request frame.
pub fn build_status_request_frame() -> (r: Vec<u8>)
    ensures
        r@ == spec_status_request_frame(),
{
    let empty: Vec<u8> = Vec::new();
    let r = frame_packet(0, empty.as_slice());
    proof {
        assert(empty@ =~= Seq::<u8>::empty());
    }
    r
}

/// The status response packet's payload is a VarInt-length-prefixed UTF-8
/// JSON string; this is that string's bytes, or how the payload is broken.
pub open spec fn spec_extract_json(payload: Seq<u8>) -> Result<Seq<u8>, ProtocolError> {
    match spec_varint_decode(payload) {
        VarIntOutcome::NeedMore => Err(ProtocolError::Truncated),
        VarIntOutcome::Malformed => Err(ProtocolError::MalformedVarInt),
        VarIntOutcome::Done { value: slen, len: n0 } => if payload.len() < n0 + slen {
            Err(ProtocolError::Truncated)
        } else {
            Ok(payload.subrange(n0 as int, n0 + slen))
        },
    }
}

/// Extracts the JSON string bytes from a status response packet's payload,
/// mirroring [`spec_extract_json`].
pub fn extract_status_json(payload: &[u8]) -> (r: Result<Vec<u8>, ProtocolError>)
    ensures
        match r {
            Ok(jb) => spec_extract_json(payload@) == Ok::<Seq<u8>, ProtocolError>(jb@),
            Err(e) => spec_extract_json(payload@) == Err::<Seq<u8>, ProtocolError>(e),
        },
{
    proof {
        assert(payload@.skip(0) =~= payload@);
    }
    match decode_varint_complete(payload, 0) {
        Err(e) => Err(e),
        Ok((slen, n0)) => {
            if payload.len() - n0 < slen as usize {
                Err(ProtocolError::Truncated)
            } else {
                Ok(vstd::slice::slice_to_vec(vstd::slice::slice_subrange(
                    payload,
                    n0,
                    n0 + slen as usize,
                )))
            }
        },
    }
}

/// Where one connection's exchange stands.
#[derive(Clone, Copy, Debug, PartialEq, Eq, Structural)]
pub enum Phase {
    /// Nothing has happened yet.
    Start,
    /// The connect was requested.
    Connecting,
    /// The handshake frame was handed out for sending.
    SendingHandshake,
    /// The status request frame was handed out for sending.
    SendingRequest,
    /// Waiting for response bytes.
    Receiving,
    /// Terminal: the exchange succeeded or was classified as a failure.
    Finished,
}

/// What the transport reports back to the state machine.
pub enum Event {
    /// Start the exchange.
    Begin,
    /// The connection is open.
    Connected,
    /// The last frame handed out was written in full.
    Sent,
    /// Some bytes arrived.
    Received(Vec<u8>),
    /// The peer closed the connection in an orderly way.
    Closed,
    /// The host could not be reached.
    Unreachable,
    /// A connect, read or write exceeded its time bound.
    TimedOut,
    /// The connection was reset.
    Reset,
}

/// What the caller must do next.
pub enum Action {
    /// Open a TCP connection to the client's address and port.
    Connect,
    /// Write these bytes to the connection.
    Send(Vec<u8>),
    /// Read more bytes from the connection.
    Recv,
    /// The exchange is over; close the connection unconditionally.
    Finish(Result<StatusResponse, ScanError>),
}

/// How the receive buffer resolves once bytes arrive.
pub enum RespStep {
    /// No complete packet yet.
    More,
    /// The exchange failed and is over.
    Fail(ScanError),
    /// A status was parsed.
    Success(StatusView),
}

/// Resolves the receive buffer: one packet with id 0 whose payload carries a
/// JSON string that parses as a status.
pub open spec fn spec_response_step(buf: Seq<u8>) -> RespStep {
    match spec_parse_packet(buf) {
        SpecPacketOutcome::NeedMore => RespStep::More,
        SpecPacketOutcome::Fail(e) => RespStep::Fail(ScanError::Protocol(e)),
        SpecPacketOutcome::Packet { id, payload, .. } => if id != 0 {
            RespStep::Fail(ScanError::Protocol(ProtocolError::UnexpectedPacketId))
        } else {
            match spec_extract_json(payload) {
                Err(e) => RespStep::Fail(ScanError::Protocol(e)),
                Ok(jb) => match spec_parse_status(json_of(jb)) {
                    Ok(sv) => RespStep::Success(sv),
                    Err(e) => RespStep::Fail(ScanError::Parse(e)),
                },
            }
        },
    }
}

/// One connection's state machine.
pub struct StatusClient {
    pub phase: Phase,
    pub address: String,
    pub port: u16,
    pub protocol_version: u32,
    pub recv: Vec<u8>,
}

impl StatusClient {
    /// Which events the machine is prepared to consume in its current phase.
    pub open spec fn expects(self, ev: Event) -> bool {
        match (self.phase, ev) {
            (Phase::Start, Event::Begin) => true,
            (Phase::Connecting, Event::Connected) => true,
            (Phase::Connecting, Event::Unreachable) => true,
            (Phase::Connecting, Event::TimedOut) => true,
            (Phase::Connecting, Event::Reset) => true,
            (Phase::SendingHandshake, Event::Sent) => true,
            (Phase::SendingHandshake, Event::TimedOut) => true,
            (Phase::SendingHandshake, Event::Reset) => true,
            (Phase::SendingHandshake, Event::Closed) => true,
            (Phase::SendingRequest, Event::Sent) => true,
            (Phase::SendingRequest, Event::TimedOut) => true,
            (Phase::SendingRequest, Event::Reset) => true,
            (Phase::SendingRequest, Event::Closed) => true,
            (Phase::Receiving, Event::Received(_)) => true,
            (Phase::Receiving, Event::Closed) => true,
            (Phase::Receiving, Event::TimedOut) => true,
            (Phase::Receiving, Event::Reset) => true,
            _ => false,
        }
    }

    /// The full transition relation of one step.
    pub open spec fn spec_step(pre: StatusClient, ev: Event, post: StatusClient, a: Action) -> bool {
        match (pre.phase, ev) {
            (Phase::Start, Event::Begin) => post.phase == Phase::Connecting && a == Action::Connect
                && post.recv == pre.recv,
            (Phase::Connecting, Event::Connected) => post.phase == Phase::SendingHandshake && (
            a matches Action::Send(f) && f@ == spec_handshake_frame(
                pre.protocol_version,
                pre.address@,
                pre.port,
            )) && post.recv == pre.recv,
            (Phase::Connecting, Event::Unreachable) => post.phase == Phase::Finished && a
                == Action::Finish(Err(ScanError::Connection(ConnectionError::Unreachable))),
            (Phase::SendingHandshake, Event::Sent) => post.phase == Phase::SendingRequest && (
            a matches Action::Send(f) && f@ == spec_status_request_frame()) && post.recv
                == pre.recv,
            (Phase::SendingRequest, Event::Sent) => post.phase == Phase::Receiving && a
                == Action::Recv && post.recv == pre.recv,
            (Phase::Receiving, Event::Received(b)) => {
                let buf = pre.recv@ + b@;
                match spec_response_step(buf) {
                    RespStep::More => post.phase == Phase::Receiving && a == Action::Recv
                        && post.recv@ == buf,
                    RespStep::Fail(e) => post.phase == Phase::Finished && a == Action::Finish(
                        Err(e),
                    ),
                    RespStep::Success(sv) => post.phase == Phase::Finished && (
                    a matches Action::Finish(res) && res matches Ok(st) && st@ == sv),
                }
            },
            (Phase::Receiving, Event::Closed) => post.phase == Phase::Finished && a
                == Action::Finish(Err(ScanError::Protocol(ProtocolError::Truncated))),
            (_, Event::TimedOut) => post.phase == Phase::Finished && a == Action::Finish(
                Err(ScanError::Connection(ConnectionError::Timeout)),
            ),
            (_, Event::Reset) => post.phase == Phase::Finished && a == Action::Finish(
                Err(ScanError::Connection(ConnectionError::Reset)),
            ),
            (_, Event::Closed) => post.phase == Phase::Finished && a == Action::Finish(
                Err(ScanError::Connection(ConnectionError::Reset)),
            ),
            _ => false,
        }
    }

    /// A fresh machine for one host; the first event must be [`Event::Begin`].
    pub fn new(address: String, port: u16, protocol_version: u32) -> (r: StatusClient)
        ensures
            r.phase == Phase::Start,
            r.address == address,
            r.port == port,
            r.protocol_version == protocol_version,
            r.recv@ == Seq::<u8>::empty(),
    {
        StatusClient { phase: Phase::Start, address, port, protocol_version, recv: Vec::new() }
    }

    /// Consumes one transport event and decides the next action, exactly as
    /// [`StatusClient::spec_step`] relates them. The address, port and
    /// protocol version never change.
    pub fn step(&mut self, ev: Event) -> (a: Action)
        requires
            old(self).expects(ev),
            encode_utf8(old(self).address@).len() + 32 < VARINT_BOUND,
            ev matches Event::Received(b) ==> old(self).recv@.len() + b@.len() <= usize::MAX,
        ensures
            final(self).address == old(self).address,
            final(self).port == old(self).port,
            final(self).protocol_version == old(self).protocol_version,
            StatusClient::spec_step(*old(self), ev, *final(self), a),
    {
        match ev {
            Event::Begin => {
                self.phase = Phase::Connecting;
                Action::Connect
            },
            Event::Connected => {
                self.phase = Phase::SendingHandshake;
                let frame = build_handshake_frame(self.protocol_version, &self.address, self.port);
                Action::Send(frame)
            },
            Event::Sent => {
                match self.phase {
                    Phase::SendingHandshake => {
                        self.phase = Phase::SendingRequest;
                        Action::Send(build_status_request_frame())
                    },
                    _ => {
                        self.phase = Phase::Receiving;
                        Action::Recv
                    },
                }
            },
            Event::Unreachable => {
                self.phase = Phase::Finished;
                Action::Finish(Err(ScanError::Connection(ConnectionError::Unreachable)))
            },
            Event::TimedOut => {
                self.phase = Phase::Finished;
                Action::Finish(Err(ScanError::Connection(ConnectionError::Timeout)))
            },
            Event::Reset => {
                self.phase = Phase::Finished;
                Action::Finish(Err(ScanError::Connection(ConnectionError::Reset)))
            },
            Event::Closed => {
                match self.phase {
                    Phase::Receiving => {
                        self.phase = Phase::Finished;
                        Action::Finish(Err(ScanError::Protocol(ProtocolError::Truncated)))
                    },
                    _ => {
                        self.phase = Phase::Finished;
                        Action::Finish(Err(ScanError::Connection(ConnectionError::Reset)))
                    },
                }
            },
            Event::Received(b) => {
                push_all(&mut self.recv, b.as_slice());
                match parse_packet(self.recv.as_slice()) {
                    PacketOutcome::NeedMore => Action::Recv,
                    PacketOutcome::Fail(e) => {
                        self.phase = Phase::Finished;
                        Action::Finish(Err(ScanError::Protocol(e)))
                    },
                    PacketOutcome::Packet { id, payload, consumed: _ } => {
                        self.phase = Phase::Finished;
                        if id != 0 {
                            Action::Finish(
                                Err(ScanError::Protocol(ProtocolError::UnexpectedPacketId)),
                            )
                        } else {
                            match extract_status_json(payload.as_slice()) {
                                Err(e) => Action::Finish(Err(ScanError::Protocol(e))),
                                Ok(jb) => match parse_status_payload(jb.as_slice()) {
                                    Ok(st) => Action::Finish(Ok(st)),
                                    Err(e) => Action::Finish(Err(ScanError::Parse(e))),
                                },
                            }
                        }
                    },
                }
            },
        }
    }
}

} // verus!
