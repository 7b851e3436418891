//! Unsigned variable-length integers and their zig-zag signed form.
//!
//! The encoding is base-128 with a continuation bit: each byte carries seven
//! value bits, least-significant group first, and the high bit says whether
//! another byte follows. A decoder that runs past the type's maximum byte
//! count (five for 32-bit values, ten for 64-bit ones) without finding a
//! terminating byte fails with `MalformedVarint`, as does an encoding whose
//! value lies outside the type's range.

use vstd::prelude::*;

use crate::error::Error;
use crate::primitives::{lift, SpecRead};

verus! {

/// 128 to the `k`-th power: the number of values that fit in `k` groups.
pub open spec fn pow128(k: nat) -> nat
    decreases k,
{
    if k == 0 {
        1
    } else {
        128 * pow128((k - 1) as nat)
    }
}

pub proof fn lemma_pow128_mono(a: nat, b: nat)
    requires
        a <= b,
    ensures
        pow128(a) <= pow128(b),
        pow128(a) >= 1,
    decreases b,
{
    if b > 0 {
        if a == b {
            lemma_pow128_mono((a - 1) as nat, (b - 1) as nat);
        } else {
            lemma_pow128_mono(a, (b - 1) as nat);
        }
    }
}

/// The byte-count thresholds, written out once.
pub proof fn lemma_pow128_values()
    ensures
        pow128(5) == 0x8_0000_0000,
        pow128(9) == 0x8000_0000_0000_0000,
        pow128(10) == 0x40_0000_0000_0000_0000,
{
    assert(pow128(0) == 1);
    assert(pow128(1) == 128);
    assert(pow128(2) == 0x4000);
    assert(pow128(3) == 0x20_0000);
    assert(pow128(4) == 0x1000_0000);
    assert(pow128(5) == 0x8_0000_0000);
    assert(pow128(6) == 0x400_0000_0000);
    assert(pow128(7) == 0x2_0000_0000_0000);
    assert(pow128(8) == 0x100_0000_0000_0000);
    assert(pow128(9) == 0x8000_0000_0000_0000);
    assert(pow128(10) == 0x40_0000_0000_0000_0000);
}

/// The exact byte sequence of the unsigned base-128 encoding of `v`.
pub open spec fn spec_uvarint(v: nat) -> Seq<u8>
    decreases v,
{
    if v < 128 {
        seq![v as u8]
    } else {
        seq![(128 + (v % 128)) as u8] + spec_uvarint(v / 128)
    }
}

/// What a decoder limited to `max` further bytes reads at `pos`.
pub open spec fn spec_read_uvarint_rec(s: Seq<u8>, pos: int, max: nat) -> SpecRead<nat>
    decreases max,
{
    if max == 0 {
        Err(Error::MalformedVarint)
    } else if !(0 <= pos && pos < s.len()) {
        Err(Error::Truncated)
    } else {
        let b = s[pos];
        if b < 128 {
            Ok((b as nat, pos + 1))
        } else {
            match spec_read_uvarint_rec(s, pos + 1, (max - 1) as nat) {
                Ok((v, end)) => Ok(((b - 128) as nat + 128 * v, end)),
                Err(e) => Err(e),
            }
        }
    }
}

/// A decode bounded by `max` bytes yields a value below `pow128(max)`.
pub proof fn lemma_read_uvarint_rec_bound(s: Seq<u8>, pos: int, max: nat)
    ensures
        spec_read_uvarint_rec(s, pos, max) matches Ok((v, end)) ==> v < pow128(max) && pos + 1
            <= end <= s.len() && end - pos <= max,
    decreases max,
{
    if max > 0 && 0 <= pos && pos < s.len() {
        let b = s[pos];
        if b < 128 {
            lemma_pow128_mono(1, max);
        } else {
            lemma_read_uvarint_rec_bound(s, pos + 1, (max - 1) as nat);
        }
    }
}

/// The encoding never takes more bytes than the value needs: below
/// `pow128(k)` it fits in `k` bytes.
pub proof fn lemma_uvarint_len(v: nat, k: nat)
    requires
        1 <= k,
        v < pow128(k),
    ensures
        1 <= spec_uvarint(v).len() <= k,
    decreases v,
{
    if v >= 128 {
        assert(pow128(k) == 128 * pow128((k - 1) as nat));
        assert(v / 128 < pow128((k - 1) as nat)) by (nonlinear_arith)
            requires
                v < 128 * pow128((k - 1) as nat),
        ;
        lemma_uvarint_len(v / 128, (k - 1) as nat);
    }
}

/// Wherever an encoding stands in a buffer with room to spare, a decoder
/// bounded by at least its length reads back exactly the encoded value.
pub proof fn lemma_uvarint_roundtrip(s: Seq<u8>, pos: int, v: nat, max: nat)
    requires
        0 <= pos,
        pos + spec_uvarint(v).len() <= s.len(),
        s.subrange(pos, pos + spec_uvarint(v).len()) == spec_uvarint(v),
        spec_uvarint(v).len() <= max,
    ensures
        spec_read_uvarint_rec(s, pos, max) == Ok::<_, Error>(
            (v, pos + spec_uvarint(v).len() as int),
        ),
    decreases v,
{
    let e = spec_uvarint(v);
    assert(s[pos] == e[0]);
    if v < 128 {
    } else {
        let tail = spec_uvarint(v / 128);
        assert(s.subrange(pos + 1, pos + 1 + tail.len() as int) =~= e.subrange(1, e.len() as int));
        assert(e.subrange(1, e.len() as int) =~= tail);
        lemma_uvarint_roundtrip(s, pos + 1, v / 128, (max - 1) as nat);
        assert((e[0] - 128) as nat + 128 * (v / 128) == v % 128 + 128 * (v / 128));
    }
}

// ---------------------------------------------------------------------------
// 32-bit unsigned varints
// ---------------------------------------------------------------------------

pub open spec fn spec_encode_varint(v: u32) -> Seq<u8> {
    spec_uvarint(v as nat)
}

pub open spec fn spec_read_varint(s: Seq<u8>, pos: int) -> SpecRead<u32> {
    match spec_read_uvarint_rec(s, pos, 5) {
        Ok((v, end)) => if v <= u32::MAX {
            Ok((v as u32, end))
        } else {
            Err(Error::MalformedVarint)
        },
        Err(e) => Err(e),
    }
}

/// A 32-bit varint takes at most five bytes.
pub proof fn lemma_varint_len(v: u32)
    ensures
        1 <= spec_encode_varint(v).len() <= 5,
{
    lemma_pow128_values();
    lemma_uvarint_len(v as nat, 5);
}

/// Reading a 32-bit varint encoding back from wherever it stands returns the
/// encoded value.
pub proof fn lemma_varint_roundtrip(s: Seq<u8>, pos: int, v: u32)
    requires
        0 <= pos,
        pos + spec_encode_varint(v).len() <= s.len(),
        s.subrange(pos, pos + spec_encode_varint(v).len()) == spec_encode_varint(v),
    ensures
        spec_read_varint(s, pos) == Ok::<_, Error>((v, pos + spec_encode_varint(v).len() as int)),
{
    lemma_varint_len(v);
    lemma_uvarint_roundtrip(s, pos, v as nat, 5);
}

// ---------------------------------------------------------------------------
// 64-bit zig-zag varlongs
// ---------------------------------------------------------------------------

/// Zig-zag maps signed to unsigned so that small magnitudes stay short:
/// 0, -1, 1, -2, ... become 0, 1, 2, 3, ...
pub open spec fn spec_zigzag(v: i64) -> int {
    if v >= 0 {
        2 * v
    } else {
        -2 * v - 1
    }
}

pub open spec fn spec_unzigzag(u: int) -> int {
    if u % 2 == 0 {
        u / 2
    } else {
        -(u / 2) - 1
    }
}

pub proof fn lemma_zigzag_roundtrip(v: i64)
    ensures
        0 <= spec_zigzag(v) <= u64::MAX,
        spec_unzigzag(spec_zigzag(v)) == v,
{
}

pub open spec fn spec_encode_varlong(v: i64) -> Seq<u8> {
    spec_uvarint(spec_zigzag(v) as nat)
}

pub open spec fn spec_read_varlong(s: Seq<u8>, pos: int) -> SpecRead<i64> {
    match spec_read_uvarint_rec(s, pos, 10) {
        Ok((v, end)) => if v <= u64::MAX {
            Ok((spec_unzigzag(v as int) as i64, end))
        } else {
            Err(Error::MalformedVarint)
        },
        Err(e) => Err(e),
    }
}

/// A 64-bit zig-zag varlong takes at most ten bytes.
pub proof fn lemma_varlong_len(v: i64)
    ensures
        1 <= spec_encode_varlong(v).len() <= 10,
{
    lemma_pow128_values();
    lemma_zigzag_roundtrip(v);
    lemma_uvarint_len(spec_zigzag(v) as nat, 10);
}

/// Reading a varlong encoding back from wherever it stands returns the
/// encoded value.
pub proof fn lemma_varlong_roundtrip(s: Seq<u8>, pos: int, v: i64)
    requires
        0 <= pos,
        pos + spec_encode_varlong(v).len() <= s.len(),
        s.subrange(pos, pos + spec_encode_varlong(v).len()) == spec_encode_varlong(v),
    ensures
        spec_read_varlong(s, pos) == Ok::<_, Error>(
            (v, pos + spec_encode_varlong(v).len() as int),
        ),
{
    lemma_varlong_len(v);
    lemma_zigzag_roundtrip(v);
    lemma_uvarint_roundtrip(s, pos, spec_zigzag(v) as nat, 10);
}

// ---------------------------------------------------------------------------
// Executable form
// ---------------------------------------------------------------------------

fn write_uvarint64(out: &mut Vec<u8>, v: u64)
    ensures
        final(out)@ == old(out)@ + spec_uvarint(v as nat),
    decreases v,
{
    if v < 128 {
        out.push(v as u8);
        assert(final(out)@ =~= old(out)@ + spec_uvarint(v as nat));
    } else {
        out.push(((v % 128) + 128) as u8);
        let ghost mid = out@;
        write_uvarint64(out, v / 128);
        assert(final(out)@ =~= old(out)@ + spec_uvarint(v as nat));
    }
}

fn read_uvarint_rec(buf: &[u8], pos: usize, max: u8) -> (r: Result<(u128, usize), Error>)
    requires
        max <= 10,
    ensures
        match r {
            Ok((v, end)) => spec_read_uvarint_rec(buf@, pos as int, max as nat) == Ok::<
                _,
                Error,
            >((v as nat, end as int)),
            Err(e) => spec_read_uvarint_rec(buf@, pos as int, max as nat) == Err::<
                (nat, int),
                _,
            >(e),
        },
    decreases max,
{
    if max == 0 {
        Err(Error::MalformedVarint)
    } else if pos >= buf.len() {
        Err(Error::Truncated)
    } else {
        let b = buf[pos];
        if b < 128 {
            Ok((b as u128, pos + 1))
        } else {
            match read_uvarint_rec(buf, pos + 1, max - 1) {
                Ok((v, end)) => {
                    proof {
                        lemma_read_uvarint_rec_bound(buf@, pos as int + 1, (max - 1) as nat);
                        lemma_pow128_mono((max - 1) as nat, 9);
                        lemma_pow128_values();
                    }
                    Ok(((b - 128) as u128 + 128 * v, end))
                },
                Err(e) => Err(e),
            }
        }
    }
}

/// The unsigned 32-bit variable-length integer of the wire format.
pub struct VarInt;

impl VarInt {
    /// Appends the base-128 encoding of `v`.
    pub fn write(out: &mut Vec<u8>, v: u32)
        ensures
            final(out)@ == old(out)@ + spec_encode_varint(v),
    {
        write_uvarint64(out, v as u64);
    }

    /// Reads a 32-bit varint, failing with `MalformedVarint` when the
    /// continuation run exceeds five bytes or the value overflows 32 bits.
    pub fn read(buf: &[u8], pos: usize) -> (r: Result<(u32, usize), Error>)
        ensures
            lift(r) == spec_read_varint(buf@, pos as int),
    {
        match read_uvarint_rec(buf, pos, 5) {
            Ok((v, end)) => if v <= u32::MAX as u128 {
                Ok((v as u32, end))
            } else {
                Err(Error::MalformedVarint)
            },
            Err(e) => Err(e),
        }
    }
}

/// The signed 64-bit zig-zag variable-length integer of the wire format.
pub struct VarLong;

impl VarLong {
    /// Appends the zig-zag base-128 encoding of `v`.
    pub fn write(out: &mut Vec<u8>, v: i64)
        ensures
            final(out)@ == old(out)@ + spec_encode_varlong(v),
    {
        proof {
            lemma_zigzag_roundtrip(v);
        }
        let z: u64 = if v >= 0 {
            (v as u64) * 2
        } else {
            let m = -(v + 1);
            (m as u64) * 2 + 1
        };
        write_uvarint64(out, z);
    }

    /// Reads a zig-zag varlong, failing with `MalformedVarint` when the
    /// continuation run exceeds ten bytes or the value overflows 64 bits.
    pub fn read(buf: &[u8], pos: usize) -> (r: Result<(i64, usize), Error>)
        ensures
            lift(r) == spec_read_varlong(buf@, pos as int),
    {
        match read_uvarint_rec(buf, pos, 10) {
            Ok((v, end)) => if v <= u64::MAX as u128 {
                let u = v as u64;
                let d: i64 = if u % 2 == 0 {
                    (u / 2) as i64
                } else {
                    -((u / 2) as i64) - 1
                };
                Ok((d, end))
            } else {
                Err(Error::MalformedVarint)
            },
            Err(e) => Err(e),
        }
    }
}

} // verus!
