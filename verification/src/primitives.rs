//! Fixed-width big-endian integer encodings: the lowest layer of the codec.
//!
//! Every encoder is a function from a value to the exact byte sequence it
//! puts on the wire, and every decoder is specified against a total spec
//! function over the input bytes, so that round trips can be stated and
//! proved at the level of byte sequences.

use vstd::prelude::*;

use crate::error::Error;

verus! {

/// What a decoder returns at the specification level: the value and the
/// position just past its encoding, or the exact error.
pub type SpecRead<T> = Result<(T, int), Error>;

/// Lifts an executable decoder result to the specification level.
pub open spec fn lift<T>(r: Result<(T, usize), Error>) -> SpecRead<T> {
    match r {
        Ok((x, end)) => Ok((x, end as int)),
        Err(e) => Err(e),
    }
}

// ---------------------------------------------------------------------------
// Unsigned big-endian byte encodings
// ---------------------------------------------------------------------------

pub open spec fn spec_u16_to_be_bytes(x: u16) -> Seq<u8> {
    seq![((x >> 8) & 0xff) as u8, (x & 0xff) as u8]
}

pub open spec fn spec_u16_from_be_bytes(s: Seq<u8>) -> u16
    recommends
        s.len() == 2,
{
    (((s[0] as u16) << 8) | (s[1] as u16))
}

pub open spec fn spec_u32_to_be_bytes(x: u32) -> Seq<u8> {
    seq![
        ((x >> 24) & 0xff) as u8,
        ((x >> 16) & 0xff) as u8,
        ((x >> 8) & 0xff) as u8,
        (x & 0xff) as u8,
    ]
}

pub open spec fn spec_u32_from_be_bytes(s: Seq<u8>) -> u32
    recommends
        s.len() == 4,
{
    (((s[0] as u32) << 24) | ((s[1] as u32) << 16) | ((s[2] as u32) << 8) | (s[3] as u32))
}

pub open spec fn spec_u64_to_be_bytes(x: u64) -> Seq<u8> {
    seq![
        ((x >> 56) & 0xff) as u8,
        ((x >> 48) & 0xff) as u8,
        ((x >> 40) & 0xff) as u8,
        ((x >> 32) & 0xff) as u8,
        ((x >> 24) & 0xff) as u8,
        ((x >> 16) & 0xff) as u8,
        ((x >> 8) & 0xff) as u8,
        (x & 0xff) as u8,
    ]
}

pub open spec fn spec_u64_from_be_bytes(s: Seq<u8>) -> u64
    recommends
        s.len() == 8,
{
    (((s[0] as u64) << 56) | ((s[1] as u64) << 48) | ((s[2] as u64) << 40) | ((s[3] as u64) << 32)
        | ((s[4] as u64) << 24) | ((s[5] as u64) << 16) | ((s[6] as u64) << 8) | (s[7] as u64))
}

/// The big-endian byte encoding of a 16-bit value is invertible.
pub proof fn lemma_u16_be_roundtrip(x: u16)
    ensures
        spec_u16_to_be_bytes(x).len() == 2,
        spec_u16_from_be_bytes(spec_u16_to_be_bytes(x)) == x,
        (x >> 8) & 0xff < 256,
        x & 0xff < 256,
{
    assert((((((x >> 8) & 0xff) as u8) as u16) << 8) | (((x & 0xff) as u8) as u16) == x
        && (x >> 8) & 0xff < 256 && x & 0xff < 256) by (bit_vector);
}

/// Any two bytes are the big-endian encoding of the value they decode to.
pub proof fn lemma_u16_be_bytes_roundtrip(s: Seq<u8>)
    requires
        s.len() == 2,
    ensures
        spec_u16_to_be_bytes(spec_u16_from_be_bytes(s)) == s,
{
    let b0 = s[0];
    let b1 = s[1];
    let x = spec_u16_from_be_bytes(s);
    assert(((((b0 as u16) << 8 | (b1 as u16)) >> 8) & 0xff) as u8 == b0 && (((b0 as u16) << 8 | (
    b1 as u16)) & 0xff) as u8 == b1) by (bit_vector);
    assert(spec_u16_to_be_bytes(x) =~= s);
}

/// The big-endian byte encoding of a 32-bit value is invertible.
pub proof fn lemma_u32_be_roundtrip(x: u32)
    ensures
        spec_u32_to_be_bytes(x).len() == 4,
        spec_u32_from_be_bytes(spec_u32_to_be_bytes(x)) == x,
        (x >> 24) & 0xff < 256,
        (x >> 16) & 0xff < 256,
        (x >> 8) & 0xff < 256,
        x & 0xff < 256,
{
    assert(((((x >> 24) & 0xff) as u8) as u32) << 24 | ((((x >> 16) & 0xff) as u8) as u32) << 16
        | ((((x >> 8) & 0xff) as u8) as u32) << 8 | (((x & 0xff) as u8) as u32) == x && (x >> 24)
        & 0xff < 256 && (x >> 16) & 0xff < 256 && (x >> 8) & 0xff < 256 && x & 0xff < 256)
        by (bit_vector);
}

/// Any four bytes are the big-endian encoding of the value they decode to.
pub proof fn lemma_u32_be_bytes_roundtrip(s: Seq<u8>)
    requires
        s.len() == 4,
    ensures
        spec_u32_to_be_bytes(spec_u32_from_be_bytes(s)) == s,
{
    let b0 = s[0];
    let b1 = s[1];
    let b2 = s[2];
    let b3 = s[3];
    let x = spec_u32_from_be_bytes(s);
    assert({
        let y = (b0 as u32) << 24 | (b1 as u32) << 16 | (b2 as u32) << 8 | (b3 as u32);
        ((y >> 24) & 0xff) as u8 == b0 && ((y >> 16) & 0xff) as u8 == b1 && ((y >> 8) & 0xff) as u8
            == b2 && (y & 0xff) as u8 == b3
    }) by (bit_vector);
    assert(spec_u32_to_be_bytes(x) =~= s);
}

/// The big-endian byte encoding of a 64-bit value is invertible.
pub proof fn lemma_u64_be_roundtrip(x: u64)
    ensures
        spec_u64_to_be_bytes(x).len() == 8,
        spec_u64_from_be_bytes(spec_u64_to_be_bytes(x)) == x,
        (x >> 56) & 0xff < 256,
        (x >> 48) & 0xff < 256,
        (x >> 40) & 0xff < 256,
        (x >> 32) & 0xff < 256,
        (x >> 24) & 0xff < 256,
        (x >> 16) & 0xff < 256,
        (x >> 8) & 0xff < 256,
        x & 0xff < 256,
{
    assert(((((x >> 56) & 0xff) as u8) as u64) << 56 | ((((x >> 48) & 0xff) as u8) as u64) << 48
        | ((((x >> 40) & 0xff) as u8) as u64) << 40 | ((((x >> 32) & 0xff) as u8) as u64) << 32
        | ((((x >> 24) & 0xff) as u8) as u64) << 24 | ((((x >> 16) & 0xff) as u8) as u64) << 16
        | ((((x >> 8) & 0xff) as u8) as u64) << 8 | (((x & 0xff) as u8) as u64) == x && (x >> 56)
        & 0xff < 256 && (x >> 48) & 0xff < 256 && (x >> 40) & 0xff < 256 && (x >> 32) & 0xff < 256
        && (x >> 24) & 0xff < 256 && (x >> 16) & 0xff < 256 && (x >> 8) & 0xff < 256 && x & 0xff
        < 256) by (bit_vector);
}

/// Any eight bytes are the big-endian encoding of the value they decode to.
pub proof fn lemma_u64_be_bytes_roundtrip(s: Seq<u8>)
    requires
        s.len() == 8,
    ensures
        spec_u64_to_be_bytes(spec_u64_from_be_bytes(s)) == s,
{
    let b0 = s[0];
    let b1 = s[1];
    let b2 = s[2];
    let b3 = s[3];
    let b4 = s[4];
    let b5 = s[5];
    let b6 = s[6];
    let b7 = s[7];
    let x = spec_u64_from_be_bytes(s);
    assert({
        let y = (b0 as u64) << 56 | (b1 as u64) << 48 | (b2 as u64) << 40 | (b3 as u64) << 32 | (
        b4 as u64) << 24 | (b5 as u64) << 16 | (b6 as u64) << 8 | (b7 as u64);
        ((y >> 56) & 0xff) as u8 == b0 && ((y >> 48) & 0xff) as u8 == b1 && ((y >> 40) & 0xff) as u8
            == b2 && ((y >> 32) & 0xff) as u8 == b3 && ((y >> 24) & 0xff) as u8 == b4 && ((y >> 16)
            & 0xff) as u8 == b5 && ((y >> 8) & 0xff) as u8 == b6 && (y & 0xff) as u8 == b7
    }) by (bit_vector);
    assert(spec_u64_to_be_bytes(x) =~= s);
}

// ---------------------------------------------------------------------------
// Signed values travel as their two's-complement unsigned bit patterns
// ---------------------------------------------------------------------------

pub open spec fn spec_i16_as_u16(x: i16) -> u16 {
    if x >= 0 {
        x as u16
    } else {
        (x + 0x10000) as u16
    }
}

pub open spec fn spec_u16_as_i16(x: u16) -> i16 {
    if x < 0x8000 {
        x as i16
    } else {
        (x - 0x10000) as i16
    }
}

pub open spec fn spec_i32_as_u32(x: i32) -> u32 {
    if x >= 0 {
        x as u32
    } else {
        (x + 0x1_0000_0000) as u32
    }
}

pub open spec fn spec_u32_as_i32(x: u32) -> i32 {
    if x < 0x8000_0000 {
        x as i32
    } else {
        (x - 0x1_0000_0000) as i32
    }
}

pub open spec fn spec_i64_as_u64(x: i64) -> u64 {
    if x >= 0 {
        x as u64
    } else {
        (x + 0x1_0000_0000_0000_0000) as u64
    }
}

pub open spec fn spec_u64_as_i64(x: u64) -> i64 {
    if x < 0x8000_0000_0000_0000 {
        x as i64
    } else {
        (x - 0x1_0000_0000_0000_0000) as i64
    }
}

/// The signed/unsigned reinterpretations invert each other.
pub proof fn lemma_signed_unsigned_roundtrip()
    ensures
        forall|x: i16| #[trigger] spec_u16_as_i16(spec_i16_as_u16(x)) == x,
        forall|x: u16| #[trigger] spec_i16_as_u16(spec_u16_as_i16(x)) == x,
        forall|x: i32| #[trigger] spec_u32_as_i32(spec_i32_as_u32(x)) == x,
        forall|x: u32| #[trigger] spec_i32_as_u32(spec_u32_as_i32(x)) == x,
        forall|x: i64| #[trigger] spec_u64_as_i64(spec_i64_as_u64(x)) == x,
        forall|x: u64| #[trigger] spec_i64_as_u64(spec_u64_as_i64(x)) == x,
{
}

// ---------------------------------------------------------------------------
// Signed big-endian encodings
// ---------------------------------------------------------------------------

pub open spec fn spec_i16_to_be_bytes(x: i16) -> Seq<u8> {
    spec_u16_to_be_bytes(spec_i16_as_u16(x))
}

pub open spec fn spec_i32_to_be_bytes(x: i32) -> Seq<u8> {
    spec_u32_to_be_bytes(spec_i32_as_u32(x))
}

pub open spec fn spec_i64_to_be_bytes(x: i64) -> Seq<u8> {
    spec_u64_to_be_bytes(spec_i64_as_u64(x))
}

pub open spec fn spec_i8_to_be_bytes(x: i8) -> Seq<u8> {
    seq![
        (if x >= 0 {
            x as int
        } else {
            x + 256
        }) as u8,
    ]
}

pub open spec fn spec_u8_as_i8(b: u8) -> i8 {
    if b < 0x80 {
        b as i8
    } else {
        (b - 0x100) as i8
    }
}

// ---------------------------------------------------------------------------
// Executable conversions
// ---------------------------------------------------------------------------

pub fn i16_to_u16(x: i16) -> (r: u16)
    ensures
        r == spec_i16_as_u16(x),
{
    if x >= 0 {
        x as u16
    } else {
        ((x as i32) + 0x10000) as u16
    }
}

pub fn u16_to_i16(x: u16) -> (r: i16)
    ensures
        r == spec_u16_as_i16(x),
{
    if x < 0x8000 {
        x as i16
    } else {
        ((x as i32) - 0x10000) as i16
    }
}

pub fn i32_to_u32(x: i32) -> (r: u32)
    ensures
        r == spec_i32_as_u32(x),
{
    if x >= 0 {
        x as u32
    } else {
        ((x as i64) + 0x1_0000_0000) as u32
    }
}

pub fn u32_to_i32(x: u32) -> (r: i32)
    ensures
        r == spec_u32_as_i32(x),
{
    if x < 0x8000_0000 {
        x as i32
    } else {
        ((x as i64) - 0x1_0000_0000) as i32
    }
}

pub fn i64_to_u64(x: i64) -> (r: u64)
    ensures
        r == spec_i64_as_u64(x),
{
    if x >= 0 {
        x as u64
    } else {
        ((x as i128) + 0x1_0000_0000_0000_0000) as u64
    }
}

pub fn u64_to_i64(x: u64) -> (r: i64)
    ensures
        r == spec_u64_as_i64(x),
{
    if x < 0x8000_0000_0000_0000 {
        x as i64
    } else {
        ((x as i128) - 0x1_0000_0000_0000_0000) as i64
    }
}

pub fn i8_to_u8(x: i8) -> (r: u8)
    ensures
        spec_i8_to_be_bytes(x) == seq![r],
        spec_u8_as_i8(r) == x,
{
    if x >= 0 {
        x as u8
    } else {
        ((x as i16) + 0x100) as u8
    }
}

pub fn u8_to_i8(b: u8) -> (r: i8)
    ensures
        r == spec_u8_as_i8(b),
{
    if b < 0x80 {
        b as i8
    } else {
        ((b as i16) - 0x100) as i8
    }
}

// ---------------------------------------------------------------------------
// Executable writers
// ---------------------------------------------------------------------------

pub fn write_u16_be(out: &mut Vec<u8>, x: u16)
    ensures
        final(out)@ == old(out)@ + spec_u16_to_be_bytes(x),
{
    proof {
        lemma_u16_be_roundtrip(x);
    }
    out.push(((x >> 8) & 0xff) as u8);
    out.push((x & 0xff) as u8);
    assert(out@ =~= old(out)@ + spec_u16_to_be_bytes(x));
}

pub fn write_u32_be(out: &mut Vec<u8>, x: u32)
    ensures
        final(out)@ == old(out)@ + spec_u32_to_be_bytes(x),
{
    proof {
        lemma_u32_be_roundtrip(x);
    }
    out.push(((x >> 24) & 0xff) as u8);
    out.push(((x >> 16) & 0xff) as u8);
    out.push(((x >> 8) & 0xff) as u8);
    out.push((x & 0xff) as u8);
    assert(out@ =~= old(out)@ + spec_u32_to_be_bytes(x));
}

pub fn write_u64_be(out: &mut Vec<u8>, x: u64)
    ensures
        final(out)@ == old(out)@ + spec_u64_to_be_bytes(x),
{
    proof {
        lemma_u64_be_roundtrip(x);
    }
    out.push(((x >> 56) & 0xff) as u8);
    out.push(((x >> 48) & 0xff) as u8);
    out.push(((x >> 40) & 0xff) as u8);
    out.push(((x >> 32) & 0xff) as u8);
    out.push(((x >> 24) & 0xff) as u8);
    out.push(((x >> 16) & 0xff) as u8);
    out.push(((x >> 8) & 0xff) as u8);
    out.push((x & 0xff) as u8);
    assert(out@ =~= old(out)@ + spec_u64_to_be_bytes(x));
}

pub fn write_i8(out: &mut Vec<u8>, x: i8)
    ensures
        final(out)@ == old(out)@ + spec_i8_to_be_bytes(x),
{
    let b = i8_to_u8(x);
    out.push(b);
    assert(out@ =~= old(out)@ + spec_i8_to_be_bytes(x));
}

pub fn write_i16_be(out: &mut Vec<u8>, x: i16)
    ensures
        final(out)@ == old(out)@ + spec_i16_to_be_bytes(x),
{
    write_u16_be(out, i16_to_u16(x));
}

pub fn write_i32_be(out: &mut Vec<u8>, x: i32)
    ensures
        final(out)@ == old(out)@ + spec_i32_to_be_bytes(x),
{
    write_u32_be(out, i32_to_u32(x));
}

pub fn write_i64_be(out: &mut Vec<u8>, x: i64)
    ensures
        final(out)@ == old(out)@ + spec_i64_to_be_bytes(x),
{
    write_u64_be(out, i64_to_u64(x));
}

// ---------------------------------------------------------------------------
// Specification-level readers
// ---------------------------------------------------------------------------

pub open spec fn spec_read_u8(s: Seq<u8>, pos: int) -> SpecRead<u8> {
    if 0 <= pos && pos + 1 <= s.len() {
        Ok((s[pos], pos + 1))
    } else {
        Err(Error::Truncated)
    }
}

pub open spec fn spec_read_u16_be(s: Seq<u8>, pos: int) -> SpecRead<u16> {
    if 0 <= pos && pos + 2 <= s.len() {
        Ok((spec_u16_from_be_bytes(s.subrange(pos, pos + 2)), pos + 2))
    } else {
        Err(Error::Truncated)
    }
}

pub open spec fn spec_read_u32_be(s: Seq<u8>, pos: int) -> SpecRead<u32> {
    if 0 <= pos && pos + 4 <= s.len() {
        Ok((spec_u32_from_be_bytes(s.subrange(pos, pos + 4)), pos + 4))
    } else {
        Err(Error::Truncated)
    }
}

pub open spec fn spec_read_u64_be(s: Seq<u8>, pos: int) -> SpecRead<u64> {
    if 0 <= pos && pos + 8 <= s.len() {
        Ok((spec_u64_from_be_bytes(s.subrange(pos, pos + 8)), pos + 8))
    } else {
        Err(Error::Truncated)
    }
}

pub open spec fn spec_read_i8(s: Seq<u8>, pos: int) -> SpecRead<i8> {
    match spec_read_u8(s, pos) {
        Ok((b, end)) => Ok((spec_u8_as_i8(b), end)),
        Err(e) => Err(e),
    }
}

pub open spec fn spec_read_i16_be(s: Seq<u8>, pos: int) -> SpecRead<i16> {
    match spec_read_u16_be(s, pos) {
        Ok((x, end)) => Ok((spec_u16_as_i16(x), end)),
        Err(e) => Err(e),
    }
}

pub open spec fn spec_read_i32_be(s: Seq<u8>, pos: int) -> SpecRead<i32> {
    match spec_read_u32_be(s, pos) {
        Ok((x, end)) => Ok((spec_u32_as_i32(x), end)),
        Err(e) => Err(e),
    }
}

pub open spec fn spec_read_i64_be(s: Seq<u8>, pos: int) -> SpecRead<i64> {
    match spec_read_u64_be(s, pos) {
        Ok((x, end)) => Ok((spec_u64_as_i64(x), end)),
        Err(e) => Err(e),
    }
}

// ---------------------------------------------------------------------------
// Executable readers
// ---------------------------------------------------------------------------

pub fn read_u8(buf: &[u8], pos: usize) -> (r: Result<(u8, usize), Error>)
    ensures
        lift(r) == spec_read_u8(buf@, pos as int),
{
    if pos < buf.len() {
        Ok((buf[pos], pos + 1))
    } else {
        Err(Error::Truncated)
    }
}

pub fn read_u16_be(buf: &[u8], pos: usize) -> (r: Result<(u16, usize), Error>)
    ensures
        lift(r) == spec_read_u16_be(buf@, pos as int),
{
    if pos < buf.len() && buf.len() - pos >= 2 {
        let b0 = buf[pos];
        let b1 = buf[pos + 1];
        let x = ((b0 as u16) << 8) | (b1 as u16);
        proof {
            assert(buf@.subrange(pos as int, pos + 2)[0] == b0);
            assert(buf@.subrange(pos as int, pos + 2)[1] == b1);
        }
        Ok((x, pos + 2))
    } else {
        Err(Error::Truncated)
    }
}

pub fn read_u32_be(buf: &[u8], pos: usize) -> (r: Result<(u32, usize), Error>)
    ensures
        lift(r) == spec_read_u32_be(buf@, pos as int),
{
    if pos < buf.len() && buf.len() - pos >= 4 {
        let b0 = buf[pos];
        let b1 = buf[pos + 1];
        let b2 = buf[pos + 2];
        let b3 = buf[pos + 3];
        let x = ((b0 as u32) << 24) | ((b1 as u32) << 16) | ((b2 as u32) << 8) | (b3 as u32);
        proof {
            assert(buf@.subrange(pos as int, pos + 4)[0] == b0);
            assert(buf@.subrange(pos as int, pos + 4)[1] == b1);
            assert(buf@.subrange(pos as int, pos + 4)[2] == b2);
            assert(buf@.subrange(pos as int, pos + 4)[3] == b3);
        }
        Ok((x, pos + 4))
    } else {
        Err(Error::Truncated)
    }
}

pub fn read_u64_be(buf: &[u8], pos: usize) -> (r: Result<(u64, usize), Error>)
    ensures
        lift(r) == spec_read_u64_be(buf@, pos as int),
{
    if pos < buf.len() && buf.len() - pos >= 8 {
        let b0 = buf[pos];
        let b1 = buf[pos + 1];
        let b2 = buf[pos + 2];
        let b3 = buf[pos + 3];
        let b4 = buf[pos + 4];
        let b5 = buf[pos + 5];
        let b6 = buf[pos + 6];
        let b7 = buf[pos + 7];
        let x = ((b0 as u64) << 56) | ((b1 as u64) << 48) | ((b2 as u64) << 40) | ((b3 as u64)
            << 32) | ((b4 as u64) << 24) | ((b5 as u64) << 16) | ((b6 as u64) << 8) | (b7 as u64);
        proof {
            assert(buf@.subrange(pos as int, pos + 8)[0] == b0);
            assert(buf@.subrange(pos as int, pos + 8)[1] == b1);
            assert(buf@.subrange(pos as int, pos + 8)[2] == b2);
            assert(buf@.subrange(pos as int, pos + 8)[3] == b3);
            assert(buf@.subrange(pos as int, pos + 8)[4] == b4);
            assert(buf@.subrange(pos as int, pos + 8)[5] == b5);
            assert(buf@.subrange(pos as int, pos + 8)[6] == b6);
            assert(buf@.subrange(pos as int, pos + 8)[7] == b7);
        }
        Ok((x, pos + 8))
    } else {
        Err(Error::Truncated)
    }
}

pub fn read_i8(buf: &[u8], pos: usize) -> (r: Result<(i8, usize), Error>)
    ensures
        lift(r) == spec_read_i8(buf@, pos as int),
{
    match read_u8(buf, pos) {
        Ok((b, end)) => Ok((u8_to_i8(b), end)),
        Err(e) => Err(e),
    }
}

pub fn read_i16_be(buf: &[u8], pos: usize) -> (r: Result<(i16, usize), Error>)
    ensures
        lift(r) == spec_read_i16_be(buf@, pos as int),
{
    match read_u16_be(buf, pos) {
        Ok((x, end)) => Ok((u16_to_i16(x), end)),
        Err(e) => Err(e),
    }
}

pub fn read_i32_be(buf: &[u8], pos: usize) -> (r: Result<(i32, usize), Error>)
    ensures
        lift(r) == spec_read_i32_be(buf@, pos as int),
{
    match read_u32_be(buf, pos) {
        Ok((x, end)) => Ok((u32_to_i32(x), end)),
        Err(e) => Err(e),
    }
}

pub fn read_i64_be(buf: &[u8], pos: usize) -> (r: Result<(i64, usize), Error>)
    ensures
        lift(r) == spec_read_i64_be(buf@, pos as int),
{
    match read_u64_be(buf, pos) {
        Ok((x, end)) => Ok((u64_to_i64(x), end)),
        Err(e) => Err(e),
    }
}

// ---------------------------------------------------------------------------
// Sentinel-valued optional integers: `-1` on the wire denotes absence
// ---------------------------------------------------------------------------

pub open spec fn spec_encode_sentinel_i32(o: Option<i32>) -> Seq<u8>
    recommends
        o matches Some(x) ==> x >= 0,
{
    spec_i32_to_be_bytes(
        match o {
            None => -1i32,
            Some(x) => x,
        },
    )
}

/// A negative stored value (the wire writes `-1`) denotes absence.
pub open spec fn spec_read_sentinel_i32(s: Seq<u8>, pos: int) -> SpecRead<Option<i32>> {
    match spec_read_i32_be(s, pos) {
        Ok((x, end)) => if x < 0 {
            Ok((None, end))
        } else {
            Ok((Some(x), end))
        },
        Err(e) => Err(e),
    }
}

pub open spec fn spec_encode_sentinel_i64(o: Option<i64>) -> Seq<u8>
    recommends
        o matches Some(x) ==> x >= 0,
{
    spec_i64_to_be_bytes(
        match o {
            None => -1i64,
            Some(x) => x,
        },
    )
}

/// A negative stored value (the wire writes `-1`) denotes absence.
pub open spec fn spec_read_sentinel_i64(s: Seq<u8>, pos: int) -> SpecRead<Option<i64>> {
    match spec_read_i64_be(s, pos) {
        Ok((x, end)) => if x < 0 {
            Ok((None, end))
        } else {
            Ok((Some(x), end))
        },
        Err(e) => Err(e),
    }
}

pub fn write_sentinel_i32(out: &mut Vec<u8>, o: Option<i32>)
    requires
        o matches Some(x) ==> x >= 0,
    ensures
        final(out)@ == old(out)@ + spec_encode_sentinel_i32(o),
{
    match o {
        None => write_i32_be(out, -1),
        Some(x) => write_i32_be(out, x),
    }
}

pub fn read_sentinel_i32(buf: &[u8], pos: usize) -> (r: Result<(Option<i32>, usize), Error>)
    ensures
        lift(r) == spec_read_sentinel_i32(buf@, pos as int),
{
    match read_i32_be(buf, pos) {
        Ok((x, end)) => if x < 0 {
            Ok((None, end))
        } else {
            Ok((Some(x), end))
        },
        Err(e) => Err(e),
    }
}

pub fn write_sentinel_i64(out: &mut Vec<u8>, o: Option<i64>)
    requires
        o matches Some(x) ==> x >= 0,
    ensures
        final(out)@ == old(out)@ + spec_encode_sentinel_i64(o),
{
    match o {
        None => write_i64_be(out, -1),
        Some(x) => write_i64_be(out, x),
    }
}

pub fn read_sentinel_i64(buf: &[u8], pos: usize) -> (r: Result<(Option<i64>, usize), Error>)
    ensures
        lift(r) == spec_read_sentinel_i64(buf@, pos as int),
{
    match read_i64_be(buf, pos) {
        Ok((x, end)) => if x < 0 {
            Ok((None, end))
        } else {
            Ok((Some(x), end))
        },
        Err(e) => Err(e),
    }
}

// ---------------------------------------------------------------------------
// Round trips through a longer buffer
// ---------------------------------------------------------------------------

/// Splits the placement of a two-part concatenation: where `x + y` stands in
/// a buffer, `x` stands at its start and `y` just after.
pub proof fn lemma_concat_placement(s: Seq<u8>, pos: int, x: Seq<u8>, y: Seq<u8>)
    requires
        0 <= pos,
        pos + x.len() + y.len() <= s.len(),
        s.subrange(pos, pos + x.len() + y.len()) == x + y,
    ensures
        s.subrange(pos, pos + x.len() as int) == x,
        s.subrange(pos + x.len() as int, pos + x.len() + y.len()) == y,
{
    let whole = s.subrange(pos, pos + x.len() + y.len());
    assert forall|i: int| 0 <= i < x.len() implies s.subrange(pos, pos + x.len() as int)[i]
        == x[i] by {
        assert(whole[i] == (x + y)[i]);
    }
    assert(s.subrange(pos, pos + x.len() as int) =~= x);
    assert forall|i: int| 0 <= i < y.len() implies s.subrange(
        pos + x.len() as int,
        pos + x.len() + y.len(),
    )[i] == y[i] by {
        assert(whole[x.len() + i] == (x + y)[x.len() + i]);
        assert((x + y)[x.len() + i] == y[i]);
    }
    assert(s.subrange(pos + x.len() as int, pos + x.len() + y.len()) =~= y);
}

/// Reading a sentinel-valued 32-bit encoding back returns the encoded value.
pub proof fn lemma_read_sentinel_i32_of_encoding(s: Seq<u8>, pos: int, o: Option<i32>)
    requires
        0 <= pos,
        o matches Some(x) ==> x >= 0,
        pos + 4 <= s.len(),
        s.subrange(pos, pos + 4) == spec_encode_sentinel_i32(o),
    ensures
        spec_read_sentinel_i32(s, pos) == Ok::<_, Error>((o, pos + 4)),
{
    match o {
        None => lemma_read_i32_be_of_encoding(s, pos, -1i32),
        Some(x) => lemma_read_i32_be_of_encoding(s, pos, x),
    }
}

/// Reading a sentinel-valued 64-bit encoding back returns the encoded value.
pub proof fn lemma_read_sentinel_i64_of_encoding(s: Seq<u8>, pos: int, o: Option<i64>)
    requires
        0 <= pos,
        o matches Some(x) ==> x >= 0,
        pos + 8 <= s.len(),
        s.subrange(pos, pos + 8) == spec_encode_sentinel_i64(o),
    ensures
        spec_read_sentinel_i64(s, pos) == Ok::<_, Error>((o, pos + 8)),
{
    match o {
        None => lemma_read_i64_be_of_encoding(s, pos, -1i64),
        Some(x) => lemma_read_i64_be_of_encoding(s, pos, x),
    }
}

/// Reading a single-byte signed encoding back returns the encoded value.
pub proof fn lemma_read_i8_of_encoding(s: Seq<u8>, pos: int, x: i8)
    requires
        0 <= pos,
        pos + 1 <= s.len(),
        s.subrange(pos, pos + 1) == spec_i8_to_be_bytes(x),
    ensures
        spec_read_i8(s, pos) == Ok::<_, Error>((x, pos + 1)),
{
    assert(s[pos] == spec_i8_to_be_bytes(x)[0]);
}

/// Reading a 16-bit signed encoding back returns the encoded value.
pub proof fn lemma_read_i16_be_of_encoding(s: Seq<u8>, pos: int, x: i16)
    requires
        0 <= pos,
        pos + 2 <= s.len(),
        s.subrange(pos, pos + 2) == spec_i16_to_be_bytes(x),
    ensures
        spec_read_i16_be(s, pos) == Ok::<_, Error>((x, pos + 2)),
{
    lemma_read_u16_be_of_encoding(s, pos, spec_i16_as_u16(x));
}

/// Reading a 32-bit signed encoding back returns the encoded value.
pub proof fn lemma_read_i32_be_of_encoding(s: Seq<u8>, pos: int, x: i32)
    requires
        0 <= pos,
        pos + 4 <= s.len(),
        s.subrange(pos, pos + 4) == spec_i32_to_be_bytes(x),
    ensures
        spec_read_i32_be(s, pos) == Ok::<_, Error>((x, pos + 4)),
{
    lemma_read_u32_be_of_encoding(s, pos, spec_i32_as_u32(x));
}

/// Reading a 64-bit signed encoding back returns the encoded value.
pub proof fn lemma_read_i64_be_of_encoding(s: Seq<u8>, pos: int, x: i64)
    requires
        0 <= pos,
        pos + 8 <= s.len(),
        s.subrange(pos, pos + 8) == spec_i64_to_be_bytes(x),
    ensures
        spec_read_i64_be(s, pos) == Ok::<_, Error>((x, pos + 8)),
{
    lemma_read_u64_be_of_encoding(s, pos, spec_i64_as_u64(x));
}

/// Reading a 16-bit encoding back from wherever it stands in a buffer
/// returns the encoded value.
pub proof fn lemma_read_u16_be_of_encoding(s: Seq<u8>, pos: int, x: u16)
    requires
        0 <= pos,
        pos + 2 <= s.len(),
        s.subrange(pos, pos + 2) == spec_u16_to_be_bytes(x),
    ensures
        spec_read_u16_be(s, pos) == Ok::<_, Error>((x, pos + 2)),
{
    lemma_u16_be_roundtrip(x);
}

/// Reading a 32-bit encoding back from wherever it stands in a buffer
/// returns the encoded value.
pub proof fn lemma_read_u32_be_of_encoding(s: Seq<u8>, pos: int, x: u32)
    requires
        0 <= pos,
        pos + 4 <= s.len(),
        s.subrange(pos, pos + 4) == spec_u32_to_be_bytes(x),
    ensures
        spec_read_u32_be(s, pos) == Ok::<_, Error>((x, pos + 4)),
{
    lemma_u32_be_roundtrip(x);
}

/// Reading a 64-bit encoding back from wherever it stands in a buffer
/// returns the encoded value.
pub proof fn lemma_read_u64_be_of_encoding(s: Seq<u8>, pos: int, x: u64)
    requires
        0 <= pos,
        pos + 8 <= s.len(),
        s.subrange(pos, pos + 8) == spec_u64_to_be_bytes(x),
    ensures
        spec_read_u64_be(s, pos) == Ok::<_, Error>((x, pos + 8)),
{
    lemma_u64_be_roundtrip(x);
}

} // verus!
