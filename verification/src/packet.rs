//! Length-prefixed packet framing: every packet travels as
//! `VarInt(len(id bytes ++ payload)) ++ id bytes ++ payload`. Parsing is
//! incremental — a buffer that does not yet hold a whole frame asks for more —
//! and a declared length above [`MAX_PACKET_LEN`] is rejected outright, so a
//! hostile host cannot make the client wait for an enormous packet.
use vstd::prelude::*;
use vstd::slice::{slice_subrange, slice_to_vec};

use crate::errors::ProtocolError;
use crate::varint::{
    decode_varint, encode_varint, lemma_varint_encode_len5, spec_varint_decode,
    spec_varint_encode, VarIntOutcome, VARINT_BOUND,
};

verus! {

/// Sane upper bound on a packet's declared length (2 MiB). A larger declared
/// length is treated as hostile.
pub const MAX_PACKET_LEN: usize = 0x20_0000;

/// The wire form of a packet with the given id and payload.
pub open spec fn spec_frame_packet(id: u32, payload: Seq<u8>) -> Seq<u8> {
    let body = spec_varint_encode(id as nat) + payload;
    spec_varint_encode(body.len() as nat) + body
}

/// What parsing the front of a receive buffer yields.
pub enum SpecPacketOutcome {
    /// The buffer does not yet hold a complete frame.
    NeedMore,
    /// A complete packet and how many bytes of the buffer it spans.
    Packet { id: u32, payload: Seq<u8>, consumed: int },
    /// The data at the front of the buffer can never become a valid frame.
    Fail(ProtocolError),
}

/// Parses the front of `s` as a frame: a VarInt length, then exactly that
/// many bytes, of which the leading VarInt is the packet id and the remainder
/// the payload.
pub open spec fn spec_parse_packet(s: Seq<u8>) -> SpecPacketOutcome {
    match spec_varint_decode(s) {
        VarIntOutcome::NeedMore => SpecPacketOutcome::NeedMore,
        VarIntOutcome::Malformed => SpecPacketOutcome::Fail(ProtocolError::MalformedVarInt),
        VarIntOutcome::Done { value: length, len: n0 } => {
            if length > MAX_PACKET_LEN as u32 {
                SpecPacketOutcome::Fail(ProtocolError::OversizedPacket)
            } else if s.len() < n0 + length {
                SpecPacketOutcome::NeedMore
            } else {
                let body = s.subrange(n0 as int, n0 + length);
                match spec_varint_decode(body) {
                    VarIntOutcome::Done { value: id, len: idn } => SpecPacketOutcome::Packet {
                        id,
                        payload: body.skip(idn as int),
                        consumed: n0 + length,
                    },
                    _ => SpecPacketOutcome::Fail(ProtocolError::MalformedVarInt),
                }
            }
        },
    }
}

/// Exec-level counterpart of [`SpecPacketOutcome`].
#[derive(Debug, PartialEq, Eq)]
pub enum PacketOutcome {
    NeedMore,
    Packet { id: u32, payload: Vec<u8>, consumed: usize },
    Fail(ProtocolError),
}

/// Appends every byte of `s` to `out`.
pub fn push_all(out: &mut Vec<u8>, s: &[u8])
    requires
        old(out)@.len() + s@.len() <= usize::MAX,
    ensures
        final(out)@ == old(out)@ + s@,
{
    proof {
        assert(out@ =~= old(out)@ + s@.subrange(0, 0));
    }
    let mut i: usize = 0;
    while i < s.len()
        invariant
            i <= s@.len(),
            old(out)@.len() + s@.len() <= usize::MAX,
            out@ == old(out)@ + s@.subrange(0, i as int),
        decreases s@.len() - i,
    {
        out.push(s[i]);
        i = i + 1;
        proof {
            assert(out@ =~= old(out)@ + s@.subrange(0, i as int));
        }
    }
    proof {
        assert(s@.subrange(0, s@.len() as int) =~= s@);
    }
}

/// Assembles the frame for one packet: the declared length is exactly the
/// byte length of the encoded id plus the payload.
pub fn frame_packet(id: u32, payload: &[u8]) -> (r: Vec<u8>)
    requires
        (id as u64) < VARINT_BOUND,
        payload@.len() + 5 < VARINT_BOUND,
    ensures
        r@ == spec_frame_packet(id, payload@),
{
    let idb = encode_varint(id);
    proof {
        lemma_varint_encode_len5(id as nat);
    }
    let total: usize = idb.len() + payload.len();
    proof {
        lemma_varint_encode_len5(total as nat);
    }
    let mut out = encode_varint(total as u32);
    push_all(&mut out, idb.as_slice());
    push_all(&mut out, payload);
    proof {
        assert(out@ =~= spec_frame_packet(id, payload@));
    }
    out
}

/// Parses the front of `buf` as a frame, mirroring [`spec_parse_packet`].
pub fn parse_packet(buf: &[u8]) -> (r: PacketOutcome)
    ensures
        match r {
            PacketOutcome::NeedMore => spec_parse_packet(buf@) == SpecPacketOutcome::NeedMore,
            PacketOutcome::Packet { id, payload, consumed } => spec_parse_packet(buf@)
                == (SpecPacketOutcome::Packet { id, payload: payload@, consumed: consumed as int })
                && consumed <= buf@.len(),
            PacketOutcome::Fail(e) => spec_parse_packet(buf@) == SpecPacketOutcome::Fail(e),
        },
{
    proof {
        assert(buf@.skip(0) =~= buf@);
    }
    match decode_varint(buf, 0) {
        VarIntOutcome::NeedMore => PacketOutcome::NeedMore,
        VarIntOutcome::Malformed => PacketOutcome::Fail(ProtocolError::MalformedVarInt),
        VarIntOutcome::Done { value: length, len: n0 } => {
            if length > MAX_PACKET_LEN as u32 {
                return PacketOutcome::Fail(ProtocolError::OversizedPacket);
            }
            if buf.len() - n0 < length as usize {
                return PacketOutcome::NeedMore;
            }
            let body: &[u8] = slice_subrange(buf, n0, n0 + length as usize);
            proof {
                assert(body@.skip(0) =~= body@);
            }
            match decode_varint(body, 0) {
                VarIntOutcome::Done { value: id, len: idn } => {
                    let payload = slice_to_vec(slice_subrange(body, idn, body.len()));
                    proof {
                        assert(body@.subrange(idn as int, body@.len() as int) =~= body@.skip(
                            idn as int,
                        ));
                    }
                    PacketOutcome::Packet { id, payload, consumed: n0 + length as usize }
                },
                VarIntOutcome::NeedMore => PacketOutcome::Fail(ProtocolError::MalformedVarInt),
                VarIntOutcome::Malformed => PacketOutcome::Fail(ProtocolError::MalformedVarInt),
            }
        },
    }
}

/// Round trip: framing a packet and parsing the result yields the original id
/// and payload back, consuming the whole frame — whose declared length is, by
/// construction, exactly `len(id bytes) + len(payload)`.
pub proof fn lemma_packet_round_trip(id: u32, payload: Seq<u8>)
    requires
        (id as u64) < VARINT_BOUND,
        spec_varint_encode(id as nat).len() + payload.len() <= MAX_PACKET_LEN,
    ensures
        spec_parse_packet(spec_frame_packet(id, payload)) == (SpecPacketOutcome::Packet {
            id,
            payload,
            consumed: spec_frame_packet(id, payload).len() as int,
        }),
{
    let idb = spec_varint_encode(id as nat);
    let body = idb + payload;
    let total = body.len();
    let lb = spec_varint_encode(total as nat);
    let framed = spec_frame_packet(id, payload);
    assert(framed == lb + body);
    lemma_varint_encode_len5(total as nat);
    assert(framed.subrange(0, lb.len() as int) =~= lb);
    crate::varint::lemma_varint_round_trip_prefix(framed, total as nat);
    assert(spec_varint_decode(framed) == (VarIntOutcome::Done {
        value: total as u32,
        len: lb.len() as usize,
    }));
    assert(!(total as u32 > MAX_PACKET_LEN as u32));
    assert(framed.len() == lb.len() + total);
    let bodysub = framed.subrange(lb.len() as int, lb.len() + (total as u32));
    assert(bodysub =~= body);
    lemma_varint_encode_len5(id as nat);
    assert(body.subrange(0, idb.len() as int) =~= idb);
    crate::varint::lemma_varint_round_trip_prefix(body, id as nat);
    assert(body.skip(idb.len() as int) =~= payload);
}

} // verus!
