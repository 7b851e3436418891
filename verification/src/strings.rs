//! Strings, byte buffers, and their wire encodings.
//!
//! Compact form: the length field is a varint holding the true length plus
//! one, so that zero can stand for logical absence and one for the empty
//! value. Legacy form: strings carry a fixed 16-bit signed length with `-1`
//! for absence, byte buffers a fixed 32-bit signed length with `-1` for
//! absence.

use vstd::prelude::*;

use crate::error::Error;
use crate::primitives::{
    lift, spec_i16_as_u16, spec_i32_as_u32, spec_i16_to_be_bytes, spec_i32_to_be_bytes,
    spec_read_i16_be, spec_read_i32_be, read_i16_be, read_i32_be, write_i16_be, write_i32_be,
    SpecRead,
};
use crate::utf8::{is_utf8, validate_utf8};
use crate::varint::{spec_encode_varint, spec_read_varint, VarInt};

verus! {

/// A protocol string: UTF-8 bytes as they travel on the wire.
///
/// Decoders only ever hand out well-formed values; `wf` is the condition a
/// caller-built value must meet for its encoding to decode back.
#[derive(Clone, Debug, PartialEq, Eq)]
pub struct WireString {
    pub bytes: Vec<u8>,
}

impl View for WireString {
    type V = Seq<u8>;

    open spec fn view(&self) -> Seq<u8> {
        self.bytes@
    }
}

impl WireString {
    /// Whether the bytes are well-formed UTF-8.
    pub open spec fn wf(&self) -> bool {
        is_utf8(self@)
    }

    /// Validates `bytes` as UTF-8 and wraps them; exactly the ill-formed
    /// inputs are rejected with `InvalidUtf8`.
    pub fn from_bytes(bytes: Vec<u8>) -> (r: Result<WireString, Error>)
        ensures
            match r {
                Ok(s) => s.wf() && s@ == bytes@,
                Err(e) => e == Error::InvalidUtf8 && !is_utf8(bytes@),
            },
    {
        if validate_utf8(bytes.as_slice()) {
            Ok(WireString { bytes })
        } else {
            Err(Error::InvalidUtf8)
        }
    }

    /// The empty string.
    pub fn empty() -> (r: WireString)
        ensures
            r.wf(),
            r@ == Seq::<u8>::empty(),
    {
        let v: Vec<u8> = Vec::new();
        proof {
            assert(is_utf8(v@));
        }
        WireString { bytes: v }
    }

    pub fn len(&self) -> (r: usize)
        ensures
            r == self@.len(),
    {
        self.bytes.len()
    }
}

/// A byte buffer carried opaquely on the wire.
#[derive(Clone, Debug, PartialEq, Eq)]
pub struct Buffer {
    pub bytes: Vec<u8>,
}

impl View for Buffer {
    type V = Seq<u8>;

    open spec fn view(&self) -> Seq<u8> {
        self.bytes@
    }
}

impl Buffer {
    pub fn new(bytes: Vec<u8>) -> (r: Buffer)
        ensures
            r@ == bytes@,
    {
        Buffer { bytes }
    }

    pub fn len(&self) -> (r: usize)
        ensures
            r == self@.len(),
    {
        self.bytes.len()
    }
}

/// Copies `buf[start..start + count]` out of the input.
pub fn copy_range(buf: &[u8], start: usize, count: usize) -> (r: Vec<u8>)
    requires
        start + count <= buf@.len(),
    ensures
        r@ == buf@.subrange(start as int, start + count),
{
    let n = buf.len();
    assert(start + count <= n);
    let s = vstd::slice::slice_subrange(buf, start, start + count);
    vstd::slice::slice_to_vec(s)
}

/// Appends all of `b` to `out`.
pub fn append_bytes(out: &mut Vec<u8>, b: &Vec<u8>)
    ensures
        final(out)@ == old(out)@ + b@,
{
    let ghost base = out@;
    let mut i: usize = 0;
    while i < b.len()
        invariant
            i <= b@.len(),
            out@ == base + b@.subrange(0, i as int),
        decreases b@.len() - i,
    {
        out.push(b[i]);
        assert(out@ =~= base + b@.subrange(0, i + 1));
        i = i + 1;
    }
    assert(out@ =~= base + b@);
}

// ---------------------------------------------------------------------------
// Compact byte buffers (the base of compact strings and arrays of bytes)
// ---------------------------------------------------------------------------

/// The compact encoding of an optional byte run: varint of length plus one,
/// then the bytes; a stored length of zero denotes absence.
pub open spec fn spec_encode_compact_bytes(o: Option<Seq<u8>>) -> Seq<u8>
    recommends
        o matches Some(b) ==> b.len() + 1 <= u32::MAX,
{
    match o {
        None => spec_encode_varint(0),
        Some(b) => spec_encode_varint((b.len() + 1) as u32) + b,
    }
}

pub open spec fn spec_read_compact_bytes(s: Seq<u8>, pos: int) -> SpecRead<Option<Seq<u8>>> {
    match spec_read_varint(s, pos) {
        Ok((n, end)) => if n == 0 {
            Ok((None, end))
        } else {
            let k = n - 1;
            if end + k <= s.len() {
                Ok((Some(s.subrange(end, end + k)), end + k))
            } else {
                Err(Error::Truncated)
            }
        },
        Err(e) => Err(e),
    }
}

/// Lifts an executable optional buffer to its sequence view.
pub open spec fn view_opt_bytes(o: Option<Vec<u8>>) -> Option<Seq<u8>> {
    match o {
        None => None,
        Some(v) => Some(v@),
    }
}

pub fn write_compact_bytes(out: &mut Vec<u8>, o: Option<&Vec<u8>>)
    requires
        o matches Some(b) ==> b@.len() + 1 <= u32::MAX,
    ensures
        final(out)@ == old(out)@ + spec_encode_compact_bytes(
            match o {
                None => None,
                Some(b) => Some(b@),
            },
        ),
{
    match o {
        None => VarInt::write(out, 0),
        Some(b) => {
            VarInt::write(out, (b.len() + 1) as u32);
            let ghost mid = out@;
            let mut i: usize = 0;
            while i < b.len()
                invariant
                    i <= b@.len(),
                    out@ == mid + b@.subrange(0, i as int),
                decreases b@.len() - i,
            {
                out.push(b[i]);
                assert(out@ =~= mid + b@.subrange(0, i + 1));
                i = i + 1;
            }
            assert(out@ =~= mid + b@);
        },
    }
}

pub fn read_compact_bytes(buf: &[u8], pos: usize) -> (r: Result<(Option<Vec<u8>>, usize), Error>)
    ensures
        match r {
            Ok((o, end)) => spec_read_compact_bytes(buf@, pos as int) == Ok::<_, Error>(
                (view_opt_bytes(o), end as int),
            ),
            Err(e) => spec_read_compact_bytes(buf@, pos as int) == Err::<
                (Option<Seq<u8>>, int),
                _,
            >(e),
        },
{
    match VarInt::read(buf, pos) {
        Ok((n, end)) => {
            if n == 0 {
                Ok((None, end))
            } else {
                let k = (n - 1) as usize;
                if k <= buf.len() && end <= buf.len() - k {
                    let v = copy_range(buf, end, k);
                    Ok((Some(v), end + k))
                } else {
                    Err(Error::Truncated)
                }
            }
        },
        Err(e) => Err(e),
    }
}

// ---------------------------------------------------------------------------
// Compact strings
// ---------------------------------------------------------------------------

pub open spec fn spec_encode_compact_string(o: Option<Seq<u8>>) -> Seq<u8>
    recommends
        o matches Some(b) ==> b.len() + 1 <= u32::MAX && is_utf8(b),
{
    spec_encode_compact_bytes(o)
}

/// Reads an optional compact string; the bytes must be well-formed UTF-8.
pub open spec fn spec_read_compact_string(s: Seq<u8>, pos: int) -> SpecRead<Option<Seq<u8>>> {
    match spec_read_compact_bytes(s, pos) {
        Ok((o, end)) => match o {
            None => Ok((None, end)),
            Some(b) => if is_utf8(b) {
                Ok((Some(b), end))
            } else {
                Err(Error::InvalidUtf8)
            },
        },
        Err(e) => Err(e),
    }
}

pub open spec fn view_opt_string(o: Option<WireString>) -> Option<Seq<u8>> {
    match o {
        None => None,
        Some(v) => Some(v@),
    }
}

pub fn write_compact_string(out: &mut Vec<u8>, o: Option<&WireString>)
    requires
        o matches Some(w) ==> w@.len() + 1 <= u32::MAX,
    ensures
        final(out)@ == old(out)@ + spec_encode_compact_string(
            match o {
                None => None,
                Some(w) => Some(w@),
            },
        ),
{
    match o {
        None => write_compact_bytes(out, None),
        Some(w) => write_compact_bytes(out, Some(&w.bytes)),
    }
}

pub fn read_compact_string(buf: &[u8], pos: usize) -> (r: Result<
    (Option<WireString>, usize),
    Error,
>)
    ensures
        match r {
            Ok((o, end)) => spec_read_compact_string(buf@, pos as int) == Ok::<_, Error>(
                (view_opt_string(o), end as int),
            ) && (o matches Some(w) ==> w.wf()),
            Err(e) => spec_read_compact_string(buf@, pos as int) == Err::<
                (Option<Seq<u8>>, int),
                _,
            >(e),
        },
{
    match read_compact_bytes(buf, pos) {
        Ok((o, end)) => match o {
            None => Ok((None, end)),
            Some(b) => match WireString::from_bytes(b) {
                Ok(w) => Ok((Some(w), end)),
                Err(e) => Err(e),
            },
        },
        Err(e) => Err(e),
    }
}

// ---------------------------------------------------------------------------
// Legacy (non-compact) nullable strings: fixed 16-bit signed length
// ---------------------------------------------------------------------------

pub open spec fn spec_encode_nullable_string(o: Option<Seq<u8>>) -> Seq<u8>
    recommends
        o matches Some(b) ==> b.len() <= i16::MAX && is_utf8(b),
{
    match o {
        None => spec_i16_to_be_bytes(-1i16),
        Some(b) => spec_i16_to_be_bytes(b.len() as i16) + b,
    }
}

/// Reads a legacy nullable string. A negative stored length denotes absence
/// (the wire writes `-1`; smaller values are treated the same way).
pub open spec fn spec_read_nullable_string(s: Seq<u8>, pos: int) -> SpecRead<Option<Seq<u8>>> {
    match spec_read_i16_be(s, pos) {
        Ok((n, end)) => if n < 0 {
            Ok((None, end))
        } else {
            if end + n <= s.len() {
                let b = s.subrange(end, end + n);
                if is_utf8(b) {
                    Ok((Some(b), end + n))
                } else {
                    Err(Error::InvalidUtf8)
                }
            } else {
                Err(Error::Truncated)
            }
        },
        Err(e) => Err(e),
    }
}

pub fn write_nullable_string(out: &mut Vec<u8>, o: Option<&WireString>)
    requires
        o matches Some(w) ==> w@.len() <= i16::MAX,
    ensures
        final(out)@ == old(out)@ + spec_encode_nullable_string(
            match o {
                None => None,
                Some(w) => Some(w@),
            },
        ),
{
    match o {
        None => write_i16_be(out, -1),
        Some(w) => {
            write_i16_be(out, w.bytes.len() as i16);
            let ghost mid = out@;
            let b = &w.bytes;
            let mut i: usize = 0;
            while i < b.len()
                invariant
                    i <= b@.len(),
                    out@ == mid + b@.subrange(0, i as int),
                decreases b@.len() - i,
            {
                out.push(b[i]);
                assert(out@ =~= mid + b@.subrange(0, i + 1));
                i = i + 1;
            }
            assert(out@ =~= mid + b@);
        },
    }
}

pub fn read_nullable_string(buf: &[u8], pos: usize) -> (r: Result<
    (Option<WireString>, usize),
    Error,
>)
    ensures
        match r {
            Ok((o, end)) => spec_read_nullable_string(buf@, pos as int) == Ok::<_, Error>(
                (view_opt_string(o), end as int),
            ) && (o matches Some(w) ==> w.wf()),
            Err(e) => spec_read_nullable_string(buf@, pos as int) == Err::<
                (Option<Seq<u8>>, int),
                _,
            >(e),
        },
{
    match read_i16_be(buf, pos) {
        Ok((n, end)) => {
            if n < 0 {
                Ok((None, end))
            } else {
                let k = n as usize;
                if k <= buf.len() && end <= buf.len() - k {
                    let v = copy_range(buf, end, k);
                    match WireString::from_bytes(v) {
                        Ok(w) => Ok((Some(w), end + k)),
                        Err(e) => Err(e),
                    }
                } else {
                    Err(Error::Truncated)
                }
            }
        },
        Err(e) => Err(e),
    }
}

// ---------------------------------------------------------------------------
// Legacy byte buffers: fixed 32-bit signed length, -1 for absence
// ---------------------------------------------------------------------------

pub open spec fn spec_encode_legacy_bytes(o: Option<Seq<u8>>) -> Seq<u8>
    recommends
        o matches Some(b) ==> b.len() <= i32::MAX,
{
    match o {
        None => spec_i32_to_be_bytes(-1i32),
        Some(b) => spec_i32_to_be_bytes(b.len() as i32) + b,
    }
}

pub open spec fn spec_read_legacy_bytes(s: Seq<u8>, pos: int) -> SpecRead<Option<Seq<u8>>> {
    match spec_read_i32_be(s, pos) {
        Ok((n, end)) => if n < 0 {
            Ok((None, end))
        } else {
            if end + n <= s.len() {
                Ok((Some(s.subrange(end, end + n)), end + n))
            } else {
                Err(Error::Truncated)
            }
        },
        Err(e) => Err(e),
    }
}

pub fn write_legacy_bytes(out: &mut Vec<u8>, o: Option<&Vec<u8>>)
    requires
        o matches Some(b) ==> b@.len() <= i32::MAX,
    ensures
        final(out)@ == old(out)@ + spec_encode_legacy_bytes(
            match o {
                None => None,
                Some(b) => Some(b@),
            },
        ),
{
    match o {
        None => write_i32_be(out, -1),
        Some(b) => {
            write_i32_be(out, b.len() as i32);
            let ghost mid = out@;
            let mut i: usize = 0;
            while i < b.len()
                invariant
                    i <= b@.len(),
                    out@ == mid + b@.subrange(0, i as int),
                decreases b@.len() - i,
            {
                out.push(b[i]);
                assert(out@ =~= mid + b@.subrange(0, i + 1));
                i = i + 1;
            }
            assert(out@ =~= mid + b@);
        },
    }
}

pub fn read_legacy_bytes(buf: &[u8], pos: usize) -> (r: Result<(Option<Vec<u8>>, usize), Error>)
    ensures
        match r {
            Ok((o, end)) => spec_read_legacy_bytes(buf@, pos as int) == Ok::<_, Error>(
                (view_opt_bytes(o), end as int),
            ),
            Err(e) => spec_read_legacy_bytes(buf@, pos as int) == Err::<
                (Option<Seq<u8>>, int),
                _,
            >(e),
        },
{
    match read_i32_be(buf, pos) {
        Ok((n, end)) => {
            if n < 0 {
                Ok((None, end))
            } else {
                let k = n as usize;
                if k <= buf.len() && end <= buf.len() - k {
                    let v = copy_range(buf, end, k);
                    Ok((Some(v), end + k))
                } else {
                    Err(Error::Truncated)
                }
            }
        },
        Err(e) => Err(e),
    }
}

// ---------------------------------------------------------------------------
// Round trips
// ---------------------------------------------------------------------------

/// Compact length semantics, decode side: a stored length of zero decodes to
/// absence, and a stored length of `k + 1` decodes to exactly the `k` bytes
/// that follow it (so a stored length of one decodes to the empty value).
pub proof fn lemma_compact_length_semantics(s: Seq<u8>, pos: int)
    ensures
        spec_read_varint(s, pos) matches Ok((n, end)) ==> {
            &&& n == 0 ==> spec_read_compact_bytes(s, pos) == Ok::<_, Error>(
                (None::<Seq<u8>>, end),
            )
            &&& n >= 1 && end + n - 1 <= s.len() ==> spec_read_compact_bytes(s, pos) == Ok::<
                _,
                Error,
            >((Some(s.subrange(end, end + n - 1)), end + n - 1)) && s.subrange(
                end,
                end + n - 1,
            ).len() == n - 1
        },
{
    crate::varint::lemma_read_uvarint_rec_bound(s, pos, 5);
}

/// Reading a compact-bytes encoding back from wherever it stands returns the
/// encoded value.
pub proof fn lemma_compact_bytes_roundtrip(s: Seq<u8>, pos: int, o: Option<Seq<u8>>)
    requires
        0 <= pos,
        o matches Some(b) ==> b.len() + 1 <= u32::MAX,
        pos + spec_encode_compact_bytes(o).len() <= s.len(),
        s.subrange(pos, pos + spec_encode_compact_bytes(o).len()) == spec_encode_compact_bytes(o),
    ensures
        spec_read_compact_bytes(s, pos) == Ok::<_, Error>(
            (o, pos + spec_encode_compact_bytes(o).len() as int),
        ),
{
    let e = spec_encode_compact_bytes(o);
    match o {
        None => {
            assert(s.subrange(pos, pos + spec_encode_varint(0).len()) =~= spec_encode_varint(0));
            crate::varint::lemma_varint_roundtrip(s, pos, 0);
        },
        Some(b) => {
            let n = (b.len() + 1) as u32;
            let ve = spec_encode_varint(n);
            assert(s.subrange(pos, pos + ve.len() as int) =~= e.subrange(0, ve.len() as int));
            assert(e.subrange(0, ve.len() as int) =~= ve);
            crate::varint::lemma_varint_roundtrip(s, pos, n);
            let end = pos + ve.len() as int;
            assert(s.subrange(end, end + b.len() as int) =~= e.subrange(
                ve.len() as int,
                e.len() as int,
            ));
            assert(e.subrange(ve.len() as int, e.len() as int) =~= b);
        },
    }
}

/// Reading a compact-string encoding back returns the encoded value, for
/// well-formed string bytes.
pub proof fn lemma_compact_string_roundtrip(s: Seq<u8>, pos: int, o: Option<Seq<u8>>)
    requires
        0 <= pos,
        o matches Some(b) ==> b.len() + 1 <= u32::MAX && is_utf8(b),
        pos + spec_encode_compact_string(o).len() <= s.len(),
        s.subrange(pos, pos + spec_encode_compact_string(o).len()) == spec_encode_compact_string(
            o,
        ),
    ensures
        spec_read_compact_string(s, pos) == Ok::<_, Error>(
            (o, pos + spec_encode_compact_string(o).len() as int),
        ),
{
    lemma_compact_bytes_roundtrip(s, pos, o);
}

/// Reading a legacy nullable-string encoding back returns the encoded value.
pub proof fn lemma_nullable_string_roundtrip(s: Seq<u8>, pos: int, o: Option<Seq<u8>>)
    requires
        0 <= pos,
        o matches Some(b) ==> b.len() <= i16::MAX && is_utf8(b),
        pos + spec_encode_nullable_string(o).len() <= s.len(),
        s.subrange(pos, pos + spec_encode_nullable_string(o).len())
            == spec_encode_nullable_string(o),
    ensures
        spec_read_nullable_string(s, pos) == Ok::<_, Error>(
            (o, pos + spec_encode_nullable_string(o).len() as int),
        ),
{
    let e = spec_encode_nullable_string(o);
    match o {
        None => {
            let le = spec_i16_to_be_bytes(-1i16);
            assert(s.subrange(pos, pos + 2) =~= le);
            crate::primitives::lemma_u16_be_roundtrip(spec_i16_as_u16(-1i16));
        },
        Some(b) => {
            let le = spec_i16_to_be_bytes(b.len() as i16);
            assert(s.subrange(pos, pos + 2) =~= e.subrange(0, 2));
            assert(e.subrange(0, 2) =~= le);
            crate::primitives::lemma_u16_be_roundtrip(spec_i16_as_u16(b.len() as i16));
            let end = pos + 2;
            assert(s.subrange(end, end + b.len() as int) =~= e.subrange(2, e.len() as int));
            assert(e.subrange(2, e.len() as int) =~= b);
        },
    }
}

/// Reading a legacy byte-buffer encoding back returns the encoded value.
pub proof fn lemma_legacy_bytes_roundtrip(s: Seq<u8>, pos: int, o: Option<Seq<u8>>)
    requires
        0 <= pos,
        o matches Some(b) ==> b.len() <= i32::MAX,
        pos + spec_encode_legacy_bytes(o).len() <= s.len(),
        s.subrange(pos, pos + spec_encode_legacy_bytes(o).len()) == spec_encode_legacy_bytes(o),
    ensures
        spec_read_legacy_bytes(s, pos) == Ok::<_, Error>(
            (o, pos + spec_encode_legacy_bytes(o).len() as int),
        ),
{
    let e = spec_encode_legacy_bytes(o);
    match o {
        None => {
            let le = spec_i32_to_be_bytes(-1i32);
            assert(s.subrange(pos, pos + 4) =~= le);
            crate::primitives::lemma_u32_be_roundtrip(spec_i32_as_u32(-1i32));
        },
        Some(b) => {
            let le = spec_i32_to_be_bytes(b.len() as i32);
            assert(s.subrange(pos, pos + 4) =~= e.subrange(0, 4));
            assert(e.subrange(0, 4) =~= le);
            crate::primitives::lemma_u32_be_roundtrip(spec_i32_as_u32(b.len() as i32));
            let end = pos + 4;
            assert(s.subrange(end, end + b.len() as int) =~= e.subrange(4, e.len() as int));
            assert(e.subrange(4, e.len() as int) =~= b);
        },
    }
}

} // verus!
