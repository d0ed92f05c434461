//! The protocol's variable-length integer primitive: groups of seven bits,
//! low-order first, each byte's high bit set except on the final byte. A
//! VarInt carries a value in `[0, 2^31)` and never takes more than five bytes.
use vstd::prelude::*;
use vstd::arithmetic::div_mod::{lemma_fundamental_div_mod, lemma_multiply_divide_lt};

use crate::errors::ProtocolError;

verus! {

/// Exclusive upper bound on a VarInt's value.
pub const VARINT_BOUND: u64 = 0x8000_0000;

/// `128^k`, the weight of the `k`-th seven-bit group.
pub open spec fn pow128(k: nat) -> nat
    decreases k,
{
    if k == 0 {
        1
    } else {
        128 * pow128((k - 1) as nat)
    }
}

/// The canonical (minimal) VarInt encoding of `v`.
pub open spec fn spec_varint_encode(v: nat) -> Seq<u8>
    decreases v,
{
    if v < 128 {
        seq![v as u8]
    } else {
        seq![((v % 128) + 128) as u8] + spec_varint_encode(v / 128)
    }
}

/// Outcome of decoding one VarInt from the front of a byte buffer.
#[derive(Clone, Copy, Debug, PartialEq, Eq, Structural)]
pub enum VarIntOutcome {
    /// A complete VarInt: its value and how many bytes it occupied.
    Done { value: u32, len: usize },
    /// The buffer ended before the final (high-bit-clear) byte arrived.
    NeedMore,
    /// Five bytes were consumed without a final byte, or the value does not
    /// fit below [`VARINT_BOUND`].
    Malformed,
}

/// Decoding state after `i` bytes: `acc` is the value of the groups read so
/// far and `mul` the weight of the next group.
pub open spec fn spec_varint_decode_at(s: Seq<u8>, i: nat, acc: nat, mul: nat) -> VarIntOutcome
    decreases 5 - i,
    when i <= 5
{
    if i == 5 {
        VarIntOutcome::Malformed
    } else if i >= s.len() {
        VarIntOutcome::NeedMore
    } else {
        let b = s[i as int] as nat;
        if b < 128 {
            if acc + b * mul < VARINT_BOUND {
                VarIntOutcome::Done { value: (acc + b * mul) as u32, len: (i + 1) as usize }
            } else {
                VarIntOutcome::Malformed
            }
        } else {
            spec_varint_decode_at(s, i + 1, acc + ((b - 128) as nat) * mul, mul * 128)
        }
    }
}

/// What decoding a VarInt from the front of `s` yields.
pub open spec fn spec_varint_decode(s: Seq<u8>) -> VarIntOutcome {
    spec_varint_decode_at(s, 0, 0, 1)
}

/// Emits the canonical encoding of `v`: seven bits per byte, low-order group
/// first, the high bit marking continuation.
pub fn encode_varint(v: u32) -> (r: Vec<u8>)
    ensures
        r@ == spec_varint_encode(v as nat),
{
    let mut out: Vec<u8> = Vec::new();
    let mut x: u32 = v;
    proof {
        assert(out@ + spec_varint_encode(x as nat) =~= spec_varint_encode(v as nat));
    }
    while x >= 128
        invariant
            out@ + spec_varint_encode(x as nat) == spec_varint_encode(v as nat),
        decreases x,
    {
        let ghost x0 = x as nat;
        let ghost out0 = out@;
        out.push(((x % 128) + 128) as u8);
        x = x / 128;
        proof {
            assert(spec_varint_encode(x0) == seq![((x0 % 128) + 128) as u8] + spec_varint_encode(x0 / 128));
            assert(out@ + spec_varint_encode(x as nat) =~= out0 + spec_varint_encode(x0));
        }
    }
    out.push(x as u8);
    proof {
        assert(spec_varint_encode(x as nat) =~= seq![x as u8]);
        assert(out@ =~= spec_varint_encode(v as nat));
    }
    out
}

proof fn lemma_pow128_small(i: nat)
    requires
        i <= 4,
    ensures
        pow128(i) <= 0x1000_0000,
        pow128(i) >= 1,
{
    reveal_with_fuel(pow128, 6);
    if i == 0 {
    } else if i == 1 {
    } else if i == 2 {
    } else if i == 3 {
    } else {
        assert(i == 4);
    }
}

/// Decodes one VarInt from `s` starting at `start`, without assuming the
/// buffer is complete: a buffer that ends mid-VarInt yields `NeedMore`.
pub fn decode_varint(s: &[u8], start: usize) -> (r: VarIntOutcome)
    requires
        start <= s@.len(),
    ensures
        r == spec_varint_decode(s@.skip(start as int)),
        r matches VarIntOutcome::Done { value, len } ==> 1 <= len <= 5 && start + len <= s@.len()
            && value < VARINT_BOUND,
{
    let ghost tail = s@.skip(start as int);
    let mut i: usize = 0;
    let mut acc: u64 = 0;
    let mut mul: u64 = 1;
    loop
        invariant
            i <= 5,
            start <= s@.len(),
            tail == s@.skip(start as int),
            mul == pow128(i as nat),
            acc < mul,
            spec_varint_decode(tail) == spec_varint_decode_at(tail, i as nat, acc as nat, mul as nat),
        decreases 5 - i,
    {
        if i == 5 {
            return VarIntOutcome::Malformed;
        }
        proof {
            lemma_pow128_small(i as nat);
        }
        if i >= s.len() - start {
            assert(i as nat >= tail.len());
            return VarIntOutcome::NeedMore;
        }
        let b = s[start + i];
        assert(b == tail[i as int]);
        if b < 128 {
            assert((b as u64) * mul <= 127 * 0x1000_0000) by (nonlinear_arith)
                requires
                    b < 128,
                    mul <= 0x1000_0000,
            ;
            let value: u64 = acc + (b as u64) * mul;
            if value < VARINT_BOUND {
                return VarIntOutcome::Done { value: value as u32, len: i + 1 };
            } else {
                return VarIntOutcome::Malformed;
            }
        } else {
            let low: u64 = (b - 128) as u64;
            assert(low * mul <= 127 * 0x1000_0000) by (nonlinear_arith)
                requires
                    low < 128,
                    mul <= 0x1000_0000,
            ;
            let step: u64 = low * mul;
            let ghost acc0 = acc as nat;
            let ghost mul0 = mul as nat;
            acc = acc + step;
            mul = mul * 128;
            i = i + 1;
            proof {
                assert(acc0 + ((b as nat) - 128) * mul0 < 128 * mul0) by (nonlinear_arith)
                    requires
                        acc0 < mul0,
                        b < 256,
                ;
            }
        }
    }
}

/// Decodes one VarInt from a buffer that will not grow: a buffer that ends
/// mid-VarInt is a truncation, per the protocol's error taxonomy.
pub fn decode_varint_complete(s: &[u8], start: usize) -> (r: Result<(u32, usize), ProtocolError>)
    requires
        start <= s@.len(),
    ensures
        match r {
            Ok((value, len)) => spec_varint_decode(s@.skip(start as int)) == (VarIntOutcome::Done {
                value,
                len,
            }) && 1 <= len <= 5 && start + len <= s@.len(),
            Err(e) => (e == ProtocolError::Truncated && spec_varint_decode(s@.skip(start as int))
                == VarIntOutcome::NeedMore) || (e == ProtocolError::MalformedVarInt
                && spec_varint_decode(s@.skip(start as int)) == VarIntOutcome::Malformed),
        },
{
    match decode_varint(s, start) {
        VarIntOutcome::Done { value, len } => Ok((value, len)),
        VarIntOutcome::NeedMore => Err(ProtocolError::Truncated),
        VarIntOutcome::Malformed => Err(ProtocolError::MalformedVarInt),
    }
}

/// The canonical encoding of a value below `128^k` takes at most `k` bytes.
pub proof fn lemma_varint_encode_len(v: nat, k: nat)
    requires
        v < pow128(k),
        k >= 1,
    ensures
        1 <= spec_varint_encode(v).len() <= k,
    decreases k,
{
    if v < 128 {
    } else {
        assert(pow128(k) == 128 * pow128((k - 1) as nat));
        lemma_multiply_divide_lt(v as int, 128, pow128((k - 1) as nat) as int);
        lemma_varint_encode_len(v / 128, (k - 1) as nat);
    }
}

/// Values below [`VARINT_BOUND`] always encode in at most five bytes.
pub proof fn lemma_varint_encode_len5(v: nat)
    requires
        v < VARINT_BOUND,
    ensures
        1 <= spec_varint_encode(v).len() <= 5,
{
    reveal_with_fuel(pow128, 6);
    assert(pow128(5) == 0x8_0000_0000);
    lemma_varint_encode_len(v, 5);
}

/// Any 32-bit value encodes in at most five bytes.
pub proof fn lemma_varint_encode_len_u32(v: u32)
    ensures
        1 <= spec_varint_encode(v as nat).len() <= 5,
{
    reveal_with_fuel(pow128, 6);
    assert(pow128(5) == 0x8_0000_0000);
    lemma_varint_encode_len(v as nat, 5);
}

/// Decoding resumed at position `i` over a buffer that carries the canonical
/// encoding of `v` at that position finishes with the accumulated value.
pub proof fn lemma_varint_decode_encode_at(s: Seq<u8>, i: nat, acc: nat, mul: nat, v: nat)
    requires
        i + spec_varint_encode(v).len() <= 5,
        i + spec_varint_encode(v).len() <= s.len(),
        s.subrange(i as int, (i + spec_varint_encode(v).len()) as int) == spec_varint_encode(v),
        acc + v * mul < VARINT_BOUND,
        mul >= 1,
    ensures
        spec_varint_decode_at(s, i, acc, mul) == (VarIntOutcome::Done {
            value: (acc + v * mul) as u32,
            len: (i + spec_varint_encode(v).len()) as usize,
        }),
    decreases v,
{
    let enc = spec_varint_encode(v);
    assert(s[i as int] == enc[0]);
    if v < 128 {
        assert(enc == seq![v as u8]);
        assert(s[i as int] as nat == v);
    } else {
        let q = v / 128;
        let r = v % 128;
        assert(enc == seq![((r + 128)) as u8] + spec_varint_encode(q));
        assert(s[i as int] as nat == r + 128);
        let enc2 = spec_varint_encode(q);
        assert(s.subrange((i + 1) as int, (i + 1 + enc2.len()) as int) =~= enc.subrange(
            1,
            enc.len() as int,
        ));
        assert(enc.subrange(1, enc.len() as int) =~= enc2);
        lemma_fundamental_div_mod(v as int, 128);
        assert(acc + r * mul + q * (mul * 128) == acc + v * mul) by (nonlinear_arith)
            requires
                v == 128 * q + r,
        ;
        assert(mul * 128 >= 1) by (nonlinear_arith)
            requires
                mul >= 1,
        ;
        lemma_varint_decode_encode_at(s, i + 1, acc + r * mul, mul * 128, q);
        assert(spec_varint_decode_at(s, i, acc, mul)
            == spec_varint_decode_at(s, i + 1, acc + r * mul, mul * 128));
    }
}

/// Round trip: decoding the canonical encoding of any VarInt value yields
/// that value back, consuming exactly the encoded bytes — even when further
/// bytes follow the encoding in the buffer.
pub proof fn lemma_varint_round_trip_prefix(s: Seq<u8>, v: nat)
    requires
        v < VARINT_BOUND,
        spec_varint_encode(v).len() <= s.len(),
        s.subrange(0, spec_varint_encode(v).len() as int) == spec_varint_encode(v),
    ensures
        spec_varint_decode(s) == (VarIntOutcome::Done {
            value: v as u32,
            len: spec_varint_encode(v).len() as usize,
        }),
{
    lemma_varint_encode_len5(v);
    assert(v * 1 == v) by (nonlinear_arith);
    lemma_varint_decode_encode_at(s, 0, 0, 1, v);
}

/// Round trip on exactly the encoded bytes: `decode(encode(v))` returns `v`
/// and the encoding's own length.
pub proof fn lemma_varint_round_trip(v: nat)
    requires
        v < VARINT_BOUND,
    ensures
        spec_varint_decode(spec_varint_encode(v)) == (VarIntOutcome::Done {
            value: v as u32,
            len: spec_varint_encode(v).len() as usize,
        }),
{
    let enc = spec_varint_encode(v);
    assert(enc.subrange(0, enc.len() as int) =~= enc);
    lemma_varint_round_trip_prefix(enc, v);
}

} // verus!
