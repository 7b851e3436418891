//! Record batches: the checksummed, optionally compressed containers of
//! records, with their bit-packed attributes.
//!
//! On the wire a batch is, in order: base offset, batch byte length,
//! partition leader epoch, the fixed magic number, the checksum, the packed
//! attributes, last offset delta, base and max timestamps, producer id and
//! epoch, base sequence, the record count, and the records themselves. The
//! checksum covers every byte from just after the checksum field to the end
//! of the batch.
//!
//! The byte transform keyed by the compression identifier is delegated to an
//! external codec provider and out of scope here: these functions apply the
//! identity transform, carrying the identifier faithfully, and the payload
//! entry points (`encode_batch_with_payload`, `decode_batch_envelope`) let a
//! caller splice any provider between envelope and records.

use vstd::prelude::*;

use crate::crc::{crc32c, spec_crc32c};
use crate::error::Error;
use crate::primitives::{
    lift, read_i8, read_i16_be, read_i32_be, read_i64_be, read_u16_be, read_u32_be,
    spec_i8_to_be_bytes, spec_i16_to_be_bytes, spec_i32_to_be_bytes, spec_i64_to_be_bytes,
    spec_read_i8, spec_read_i16_be, spec_read_i32_be, spec_read_i64_be, spec_read_u16_be,
    spec_u8_as_i8,
    spec_read_u32_be, spec_u16_to_be_bytes, spec_u32_to_be_bytes, write_i8, write_i16_be,
    write_i32_be, write_i64_be, write_u16_be, write_u32_be, SpecRead,
};
use crate::strings::{
    copy_range, spec_encode_compact_bytes, spec_encode_compact_string, spec_read_compact_bytes,
    spec_read_compact_string, read_compact_bytes, read_compact_string, write_compact_bytes,
    write_compact_string, view_opt_bytes, Buffer, WireString,
};
use crate::utf8::is_utf8;
use crate::varint::{
    spec_encode_varint, spec_encode_varlong, spec_read_varint, spec_read_varlong, VarInt, VarLong,
};

verus! {

/// The magic number every supported batch declares.
pub const MAGIC_NUMBER: i8 = 2;

// ---------------------------------------------------------------------------
// The compression code table
// ---------------------------------------------------------------------------

/// The compression identifier carried in the low three attribute bits.
/// Values five through seven are representable in the field but invalid.
#[derive(Clone, Copy, Debug, PartialEq, Eq, Structural)]
pub enum RecordBatchCompression {
    NoCompression,
    Gzip,
    Snappy,
    Lz4,
    Zstd,
}

pub open spec fn spec_compression_from_code(v: u8) -> Option<RecordBatchCompression> {
    if v == 0 {
        Some(RecordBatchCompression::NoCompression)
    } else if v == 1 {
        Some(RecordBatchCompression::Gzip)
    } else if v == 2 {
        Some(RecordBatchCompression::Snappy)
    } else if v == 3 {
        Some(RecordBatchCompression::Lz4)
    } else if v == 4 {
        Some(RecordBatchCompression::Zstd)
    } else {
        None
    }
}

pub open spec fn spec_compression_code(c: RecordBatchCompression) -> u8 {
    match c {
        RecordBatchCompression::NoCompression => 0,
        RecordBatchCompression::Gzip => 1,
        RecordBatchCompression::Snappy => 2,
        RecordBatchCompression::Lz4 => 3,
        RecordBatchCompression::Zstd => 4,
    }
}

impl RecordBatchCompression {
    /// Resolves the three-bit compression field (the value is masked to those
    /// bits first); five through seven fail with `InvalidCompressionCode`.
    pub fn from_code(value: u8) -> (r: Result<RecordBatchCompression, Error>)
        ensures
            match r {
                Ok(c) => spec_compression_from_code((value % 8) as u8) == Some(c),
                Err(e) => spec_compression_from_code((value % 8) as u8) is None && e
                    == Error::InvalidCompressionCode((value % 8) as u8),
            },
    {
        match value % 8 {
            0 => Ok(RecordBatchCompression::NoCompression),
            1 => Ok(RecordBatchCompression::Gzip),
            2 => Ok(RecordBatchCompression::Snappy),
            3 => Ok(RecordBatchCompression::Lz4),
            4 => Ok(RecordBatchCompression::Zstd),
            _ => Err(Error::InvalidCompressionCode(value % 8)),
        }
    }

    /// The numeric code this compression takes in the attribute bits.
    pub fn code(self) -> (r: u8)
        ensures
            r == spec_compression_code(self),
    {
        match self {
            RecordBatchCompression::NoCompression => 0,
            RecordBatchCompression::Gzip => 1,
            RecordBatchCompression::Snappy => 2,
            RecordBatchCompression::Lz4 => 3,
            RecordBatchCompression::Zstd => 4,
        }
    }
}

/// The compression table is a bijection between its five codes and variants.
pub proof fn lemma_compression_table_bijective()
    ensures
        forall|c: RecordBatchCompression| spec_compression_from_code(
            #[trigger] spec_compression_code(c),
        ) == Some(c),
        forall|v: u8| #[trigger] spec_compression_from_code(v) matches Some(c)
            ==> spec_compression_code(c) == v,
{
}

// ---------------------------------------------------------------------------
// The packed attribute bitfield
// ---------------------------------------------------------------------------

/// The logical attributes of a batch. On the wire they are packed into one
/// 16-bit field: bits zero through two the compression code, bit three the
/// timestamp type, bit four the transactional flag, bit five the
/// control-batch flag, bit six the delete-horizon flag, bits seven through
/// fifteen reserved and always emitted as zero.
#[derive(Clone, Copy, Debug, PartialEq, Eq, Structural)]
pub struct RecordBatchAttributes {
    pub compression: RecordBatchCompression,
    pub timestamp_type: bool,
    /// If true, this batch is transactional.
    pub is_transactional: bool,
    /// If true, this batch is a control batch.
    pub is_control_batch: bool,
    /// If true, this batch's base timestamp is the delete horizon for
    /// compaction. The codec only carries the flag.
    pub has_delete_horizon_ms: bool,
}

pub open spec fn spec_bit(b: bool) -> u16 {
    if b {
        1
    } else {
        0
    }
}

/// Packs the logical attributes into the 16-bit wire field.
pub open spec fn spec_pack_attributes(a: RecordBatchAttributes) -> u16 {
    (spec_compression_code(a.compression) + 8 * spec_bit(a.timestamp_type) + 16 * spec_bit(
        a.is_transactional,
    ) + 32 * spec_bit(a.is_control_batch) + 64 * spec_bit(a.has_delete_horizon_ms)) as u16
}

/// Unpacks the wire field; the sub-field of an invalid compression code is
/// the failure, reserved bits are ignored.
pub open spec fn spec_unpack_attributes(v: u16) -> Result<RecordBatchAttributes, Error> {
    match spec_compression_from_code((v % 8) as u8) {
        Some(c) => Ok(
            RecordBatchAttributes {
                compression: c,
                timestamp_type: (v / 8) % 2 == 1,
                is_transactional: (v / 16) % 2 == 1,
                is_control_batch: (v / 32) % 2 == 1,
                has_delete_horizon_ms: (v / 64) % 2 == 1,
            },
        ),
        None => Err(Error::InvalidCompressionCode((v % 8) as u8)),
    }
}

impl RecordBatchAttributes {
    /// Packs the attributes into the 16-bit wire field.
    pub fn pack(self) -> (r: u16)
        ensures
            r == spec_pack_attributes(self),
            r < 128,
    {
        let c = self.compression.code();
        let mut v: u16 = c as u16;
        if self.timestamp_type {
            v = v + 8;
        }
        if self.is_transactional {
            v = v + 16;
        }
        if self.is_control_batch {
            v = v + 32;
        }
        if self.has_delete_horizon_ms {
            v = v + 64;
        }
        v
    }

    /// Unpacks the 16-bit wire field, failing with `InvalidCompressionCode`
    /// when the three compression bits name no valid compression.
    pub fn unpack(value: u16) -> (r: Result<RecordBatchAttributes, Error>)
        ensures
            r == spec_unpack_attributes(value),
    {
        match RecordBatchCompression::from_code((value % 8) as u8) {
            Ok(c) => Ok(
                RecordBatchAttributes {
                    compression: c,
                    timestamp_type: (value / 8) % 2 == 1,
                    is_transactional: (value / 16) % 2 == 1,
                    is_control_batch: (value / 32) % 2 == 1,
                    has_delete_horizon_ms: (value / 64) % 2 == 1,
                },
            ),
            Err(e) => Err(e),
        }
    }
}

/// Packing round-trips: unpacking a packed field returns the attributes, and
/// packing what a valid field (compression bits mapped, reserved bits zero)
/// unpacked to returns that field.
#[verifier::rlimit(100)]
#[verifier::spinoff_prover]
pub proof fn lemma_attributes_roundtrip()
    ensures
        forall|a: RecordBatchAttributes| spec_unpack_attributes(#[trigger] spec_pack_attributes(a))
            == Ok::<_, Error>(a),
        forall|v: u16| v < 128 ==> (#[trigger] spec_unpack_attributes(v) matches Ok(a)
            ==> spec_pack_attributes(a) == v),
{
    assert forall|a: RecordBatchAttributes| spec_unpack_attributes(
        #[trigger] spec_pack_attributes(a),
    ) == Ok::<_, Error>(a) by {
        let v = spec_pack_attributes(a);
        lemma_compression_table_bijective();
        assert(spec_compression_code(a.compression) < 8);
    }
    assert forall|v: u16| v < 128 implies (#[trigger] spec_unpack_attributes(v) matches Ok(a)
        ==> spec_pack_attributes(a) == v) by {
        lemma_compression_table_bijective();
        match spec_unpack_attributes(v) {
            Ok(a2) => {
                assert(spec_compression_code(a2.compression) == v % 8);
                assert(v == (v % 8) + 8 * ((v / 8) % 2) + 16 * ((v / 16) % 2) + 32 * ((v / 32) % 2)
                    + 64 * ((v / 64) % 2)) by (bit_vector)
                    requires
                        v < 128u16,
                ;
            },
            Err(_) => {},
        }
    }
}

// ---------------------------------------------------------------------------
// Records
// ---------------------------------------------------------------------------

/// A header pair carried by a record.
#[derive(Clone, Debug, PartialEq, Eq)]
pub struct Header {
    pub key: WireString,
    pub value: Vec<u8>,
}

impl View for Header {
    type V = (Seq<u8>, Seq<u8>);

    open spec fn view(&self) -> (Seq<u8>, Seq<u8>) {
        (self.key@, self.value@)
    }
}

/// One record: delta-encoded offset and timestamp, optional key and value
/// buffers, and an ordered run of header pairs.
#[derive(Clone, Debug, PartialEq, Eq)]
pub struct Record {
    pub attributes: i8,
    pub timestamp_delta: i64,
    pub offset_delta: u32,
    pub key: Option<Buffer>,
    pub value: Option<Buffer>,
    pub headers: Vec<Header>,
}

/// The mathematical shadow of a record: what the contracts speak of.
pub struct RecordView {
    pub attributes: i8,
    pub timestamp_delta: i64,
    pub offset_delta: u32,
    pub key: Option<Seq<u8>>,
    pub value: Option<Seq<u8>>,
    pub headers: Seq<(Seq<u8>, Seq<u8>)>,
}

impl View for Record {
    type V = RecordView;

    open spec fn view(&self) -> RecordView {
        RecordView {
            attributes: self.attributes,
            timestamp_delta: self.timestamp_delta,
            offset_delta: self.offset_delta,
            key: match self.key {
                None => None,
                Some(b) => Some(b@),
            },
            value: match self.value {
                None => None,
                Some(b) => Some(b@),
            },
            headers: self.headers@.map_values(|h: Header| h@),
        }
    }
}

pub open spec fn spec_header_wf(h: (Seq<u8>, Seq<u8>)) -> bool {
    &&& is_utf8(h.0)
    &&& h.0.len() + 1 <= u32::MAX
    &&& h.1.len() + 1 <= u32::MAX
}

pub open spec fn spec_encode_header(h: (Seq<u8>, Seq<u8>)) -> Seq<u8> {
    spec_encode_compact_string(Some(h.0)) + spec_encode_compact_bytes(Some(h.1))
}

pub open spec fn spec_encode_headers(s: Seq<(Seq<u8>, Seq<u8>)>) -> Seq<u8>
    decreases s.len(),
{
    if s.len() == 0 {
        Seq::empty()
    } else {
        spec_encode_header(s[0]) + spec_encode_headers(s.skip(1))
    }
}

/// The body of a record, after its length prefix.
pub open spec fn spec_encode_record_body(r: RecordView) -> Seq<u8> {
    spec_i8_to_be_bytes(r.attributes) + spec_encode_varlong(r.timestamp_delta)
        + spec_encode_varint(r.offset_delta) + spec_encode_compact_bytes(r.key)
        + spec_encode_compact_bytes(r.value) + spec_encode_varint(r.headers.len() as u32)
        + spec_encode_headers(r.headers)
}

pub open spec fn spec_record_wf(r: RecordView) -> bool {
    &&& r.key matches Some(b) ==> b.len() + 1 <= u32::MAX
    &&& r.value matches Some(b) ==> b.len() + 1 <= u32::MAX
    &&& forall|i: int| 0 <= i < r.headers.len() ==> spec_header_wf(#[trigger] r.headers[i])
    &&& r.headers.len() <= u32::MAX
    &&& spec_encode_record_body(r).len() <= u32::MAX
}

/// The record on the wire: its body length as a varint, then the body.
pub open spec fn spec_encode_record(r: RecordView) -> Seq<u8>
    recommends
        spec_record_wf(r),
{
    spec_encode_varint(spec_encode_record_body(r).len() as u32) + spec_encode_record_body(r)
}

/// A header pair is a required compact string and a required compact byte
/// buffer; an absence marker where a value is required is a framing error and
/// reads as `Truncated`.
pub open spec fn spec_read_header(s: Seq<u8>, pos: int) -> SpecRead<(Seq<u8>, Seq<u8>)> {
    match spec_read_compact_string(s, pos) {
        Ok((k, p1)) => match k {
            None => Err(Error::Truncated),
            Some(kb) => match spec_read_compact_bytes(s, p1) {
                Ok((v, p2)) => match v {
                    None => Err(Error::Truncated),
                    Some(vb) => Ok(((kb, vb), p2)),
                },
                Err(e) => Err(e),
            },
        },
        Err(e) => Err(e),
    }
}

pub open spec fn spec_read_headers(s: Seq<u8>, pos: int, count: nat) -> SpecRead<
    Seq<(Seq<u8>, Seq<u8>)>,
>
    decreases count,
{
    if count == 0 {
        Ok((Seq::empty(), pos))
    } else {
        match spec_read_header(s, pos) {
            Ok((h, p1)) => match spec_read_headers(s, p1, (count - 1) as nat) {
                Ok((rest, end)) => Ok((seq![h] + rest, end)),
                Err(e) => Err(e),
            },
            Err(e) => Err(e),
        }
    }
}

/// Reads one record: the declared body length must match the bytes the body
/// actually takes, else the record is `Truncated`.
pub open spec fn spec_read_record(s: Seq<u8>, pos: int) -> SpecRead<RecordView> {
    match spec_read_varint(s, pos) {
        Ok((len, body_start)) => match spec_read_i8(s, body_start) {
            Ok((attributes, p1)) => match spec_read_varlong(s, p1) {
                Ok((timestamp_delta, p2)) => match spec_read_varint(s, p2) {
                    Ok((offset_delta, p3)) => match spec_read_compact_bytes(s, p3) {
                        Ok((key, p4)) => match spec_read_compact_bytes(s, p4) {
                            Ok((value, p5)) => match spec_read_varint(s, p5) {
                                Ok((hcount, p6)) => match spec_read_headers(
                                    s,
                                    p6,
                                    hcount as nat,
                                ) {
                                    Ok((headers, end)) => if end == body_start + len {
                                        Ok(
                                            (
                                                RecordView {
                                                    attributes,
                                                    timestamp_delta,
                                                    offset_delta,
                                                    key,
                                                    value,
                                                    headers,
                                                },
                                                end,
                                            ),
                                        )
                                    } else {
                                        Err(Error::Truncated)
                                    },
                                    Err(e) => Err(e),
                                },
                                Err(e) => Err(e),
                            },
                            Err(e) => Err(e),
                        },
                        Err(e) => Err(e),
                    },
                    Err(e) => Err(e),
                },
                Err(e) => Err(e),
            },
            Err(e) => Err(e),
        },
        Err(e) => Err(e),
    }
}

pub proof fn lemma_encode_headers_app(a: Seq<(Seq<u8>, Seq<u8>)>, b: Seq<(Seq<u8>, Seq<u8>)>)
    ensures
        spec_encode_headers(a + b) == spec_encode_headers(a) + spec_encode_headers(b),
    decreases a.len(),
{
    if a.len() == 0 {
        assert(a + b =~= b);
        assert(spec_encode_headers(a) =~= Seq::<u8>::empty());
        assert(spec_encode_headers(a) + spec_encode_headers(b) =~= spec_encode_headers(b));
    } else {
        assert((a + b)[0] == a[0]);
        assert((a + b).skip(1) =~= a.skip(1) + b);
        lemma_encode_headers_app(a.skip(1), b);
        assert(spec_encode_headers(a + b) =~= spec_encode_header(a[0]) + (spec_encode_headers(
            a.skip(1),
        ) + spec_encode_headers(b)));
        assert(spec_encode_header(a[0]) + (spec_encode_headers(a.skip(1)) + spec_encode_headers(b))
            =~= (spec_encode_header(a[0]) + spec_encode_headers(a.skip(1)))
            + spec_encode_headers(b));
    }
}

/// Reading a header encoding back returns the encoded pair.
pub proof fn lemma_header_roundtrip(s: Seq<u8>, pos: int, h: (Seq<u8>, Seq<u8>))
    requires
        0 <= pos,
        spec_header_wf(h),
        pos + spec_encode_header(h).len() <= s.len(),
        s.subrange(pos, pos + spec_encode_header(h).len()) == spec_encode_header(h),
    ensures
        spec_read_header(s, pos) == Ok::<_, Error>((h, pos + spec_encode_header(h).len() as int)),
{
    let e = spec_encode_header(h);
    let ke = spec_encode_compact_string(Some(h.0));
    let ve = spec_encode_compact_bytes(Some(h.1));
    assert(s.subrange(pos, pos + ke.len() as int) =~= e.subrange(0, ke.len() as int));
    assert(e.subrange(0, ke.len() as int) =~= ke);
    crate::strings::lemma_compact_string_roundtrip(s, pos, Some(h.0));
    let p1 = pos + ke.len() as int;
    assert(s.subrange(p1, p1 + ve.len() as int) =~= e.subrange(ke.len() as int, e.len() as int));
    assert(e.subrange(ke.len() as int, e.len() as int) =~= ve);
    crate::strings::lemma_compact_bytes_roundtrip(s, p1, Some(h.1));
}

/// Reading back the encoding of a run of headers returns exactly it.
pub proof fn lemma_headers_roundtrip(s: Seq<u8>, pos: int, hs: Seq<(Seq<u8>, Seq<u8>)>)
    requires
        0 <= pos,
        forall|i: int| 0 <= i < hs.len() ==> spec_header_wf(#[trigger] hs[i]),
        pos + spec_encode_headers(hs).len() <= s.len(),
        s.subrange(pos, pos + spec_encode_headers(hs).len()) == spec_encode_headers(hs),
    ensures
        spec_read_headers(s, pos, hs.len()) == Ok::<_, Error>(
            (hs, pos + spec_encode_headers(hs).len() as int),
        ),
    decreases hs.len(),
{
    if hs.len() == 0 {
        assert(hs =~= Seq::<(Seq<u8>, Seq<u8>)>::empty());
        assert(spec_encode_headers(hs).len() == 0);
    } else {
        let e = spec_encode_headers(hs);
        let h = hs[0];
        let he = spec_encode_header(h);
        let rest_enc = spec_encode_headers(hs.skip(1));
        assert(e =~= he + rest_enc);
        assert(s.subrange(pos, pos + he.len() as int) =~= e.subrange(0, he.len() as int));
        assert(e.subrange(0, he.len() as int) =~= he);
        lemma_header_roundtrip(s, pos, h);
        let p1 = pos + he.len() as int;
        assert(s.subrange(p1, p1 + rest_enc.len() as int) =~= e.subrange(
            he.len() as int,
            e.len() as int,
        ));
        assert(e.subrange(he.len() as int, e.len() as int) =~= rest_enc);
        assert(forall|i: int| 0 <= i < hs.skip(1).len() ==> spec_header_wf(
            #[trigger] hs.skip(1)[i],
        )) by {
            assert(forall|i: int| 0 <= i < hs.skip(1).len() ==> hs.skip(1)[i] == hs[i + 1]);
        }
        lemma_headers_roundtrip(s, p1, hs.skip(1));
        assert(spec_read_headers(s, pos, hs.len()) == Ok::<_, Error>(
            (seq![h] + hs.skip(1), p1 + rest_enc.len() as int),
        ));
        assert(seq![h] + hs.skip(1) =~= hs);
        assert(pos + e.len() == p1 + rest_enc.len());
    }
}

/// Reading a record encoding back returns the encoded record.
#[verifier::rlimit(100)]
#[verifier::spinoff_prover]
pub proof fn lemma_record_roundtrip(s: Seq<u8>, pos: int, r: RecordView)
    requires
        0 <= pos,
        spec_record_wf(r),
        pos + spec_encode_record(r).len() <= s.len(),
        s.subrange(pos, pos + spec_encode_record(r).len()) == spec_encode_record(r),
    ensures
        spec_read_record(s, pos) == Ok::<_, Error>((r, pos + spec_encode_record(r).len() as int)),
{
    let e = spec_encode_record(r);
    let body = spec_encode_record_body(r);
    let blen = body.len() as u32;
    let le = spec_encode_varint(blen);
    let c0 = spec_i8_to_be_bytes(r.attributes);
    let c1 = spec_encode_varlong(r.timestamp_delta);
    let c2 = spec_encode_varint(r.offset_delta);
    let c3 = spec_encode_compact_bytes(r.key);
    let c4 = spec_encode_compact_bytes(r.value);
    let c5 = spec_encode_varint(r.headers.len() as u32);
    let c6 = spec_encode_headers(r.headers);
    assert(body =~= c0 + c1 + c2 + c3 + c4 + c5 + c6);
    assert(e =~= le + body);
    // the length varint
    assert(s.subrange(pos, pos + le.len() as int) =~= e.subrange(0, le.len() as int));
    assert(e.subrange(0, le.len() as int) =~= le);
    crate::varint::lemma_varint_roundtrip(s, pos, blen);
    let b0 = pos + le.len() as int;
    // attributes byte
    let p1 = b0 + c0.len() as int;
    assert(s.subrange(b0, p1) =~= e.subrange(le.len() as int, le.len() + c0.len() as int));
    assert(e.subrange(le.len() as int, le.len() + c0.len() as int) =~= c0);
    crate::primitives::lemma_read_i8_of_encoding(s, b0, r.attributes);
    // timestamp delta
    let p2 = p1 + c1.len() as int;
    assert(s.subrange(p1, p2) =~= e.subrange(p1 - pos, p2 - pos));
    assert(e.subrange(p1 - pos, p2 - pos) =~= c1);
    crate::varint::lemma_varlong_roundtrip(s, p1, r.timestamp_delta);
    // offset delta
    let p3 = p2 + c2.len() as int;
    assert(s.subrange(p2, p3) =~= e.subrange(p2 - pos, p3 - pos));
    assert(e.subrange(p2 - pos, p3 - pos) =~= c2);
    crate::varint::lemma_varint_roundtrip(s, p2, r.offset_delta);
    // key
    let p4 = p3 + c3.len() as int;
    assert(s.subrange(p3, p4) =~= e.subrange(p3 - pos, p4 - pos));
    assert(e.subrange(p3 - pos, p4 - pos) =~= c3);
    crate::strings::lemma_compact_bytes_roundtrip(s, p3, r.key);
    // value
    let p5 = p4 + c4.len() as int;
    assert(s.subrange(p4, p5) =~= e.subrange(p4 - pos, p5 - pos));
    assert(e.subrange(p4 - pos, p5 - pos) =~= c4);
    crate::strings::lemma_compact_bytes_roundtrip(s, p4, r.value);
    // header count
    let p6 = p5 + c5.len() as int;
    assert(s.subrange(p5, p6) =~= e.subrange(p5 - pos, p6 - pos));
    assert(e.subrange(p5 - pos, p6 - pos) =~= c5);
    crate::varint::lemma_varint_roundtrip(s, p5, r.headers.len() as u32);
    // headers
    let p7 = p6 + c6.len() as int;
    assert(s.subrange(p6, p7) =~= e.subrange(p6 - pos, p7 - pos));
    assert(e.subrange(p6 - pos, p7 - pos) =~= c6);
    lemma_headers_roundtrip(s, p6, r.headers);
    assert(p7 == b0 + blen);
}

// ---------------------------------------------------------------------------
// Executable record codec
// ---------------------------------------------------------------------------

pub fn write_header(out: &mut Vec<u8>, h: &Header)
    requires
        spec_header_wf(h@),
    ensures
        final(out)@ == old(out)@ + spec_encode_header(h@),
{
    write_compact_string(out, Some(&h.key));
    write_compact_bytes(out, Some(&h.value));
    assert(final(out)@ =~= old(out)@ + spec_encode_header(h@));
}

pub fn read_header(buf: &[u8], pos: usize) -> (r: Result<(Header, usize), Error>)
    ensures
        match r {
            Ok((h, end)) => spec_read_header(buf@, pos as int) == Ok::<_, Error>(
                (h@, end as int),
            ),
            Err(e) => spec_read_header(buf@, pos as int) == Err::<((Seq<u8>, Seq<u8>), int), _>(e),
        },
{
    match read_compact_string(buf, pos) {
        Ok((k, p1)) => match k {
            None => Err(Error::Truncated),
            Some(kb) => match read_compact_bytes(buf, p1) {
                Ok((v, p2)) => match v {
                    None => Err(Error::Truncated),
                    Some(vb) => Ok((Header { key: kb, value: vb }, p2)),
                },
                Err(e) => Err(e),
            },
        },
        Err(e) => Err(e),
    }
}

fn read_headers(buf: &[u8], pos: usize, count: u32) -> (r: Result<(Vec<Header>, usize), Error>)
    ensures
        match r {
            Ok((v, end)) => spec_read_headers(buf@, pos as int, count as nat) == Ok::<_, Error>(
                (v@.map_values(|h: Header| h@), end as int),
            ),
            Err(e) => spec_read_headers(buf@, pos as int, count as nat) == Err::<
                (Seq<(Seq<u8>, Seq<u8>)>, int),
                _,
            >(e),
        },
{
    let ghost s = buf@;
    let mut acc: Vec<Header> = Vec::new();
    let mut cur: usize = pos;
    let mut i: u32 = 0;
    proof {
        assert(acc@.map_values(|h: Header| h@) =~= Seq::<(Seq<u8>, Seq<u8>)>::empty());
        match spec_read_headers(s, pos as int, count as nat) {
            Ok((rest, end)) => {
                assert(Seq::<(Seq<u8>, Seq<u8>)>::empty() + rest =~= rest);
            },
            Err(_) => {},
        }
    }
    loop
        invariant
            i <= count,
            s == buf@,
            spec_read_headers(s, pos as int, count as nat) == (match spec_read_headers(
                s,
                cur as int,
                (count - i) as nat,
            ) {
                Ok((rest, end)) => Ok::<_, Error>((acc@.map_values(|h: Header| h@) + rest, end)),
                Err(e) => Err(e),
            }),
        ensures
            i == count,
            spec_read_headers(s, pos as int, count as nat) == Ok::<_, Error>(
                (acc@.map_values(|h: Header| h@), cur as int),
            ),
        decreases count - i,
    {
        let ghost acc_v = acc@.map_values(|h: Header| h@);
        if i >= count {
            proof {
                assert(spec_read_headers(s, cur as int, 0) == Ok::<_, Error>(
                    (Seq::<(Seq<u8>, Seq<u8>)>::empty(), cur as int),
                ));
                assert(acc_v + Seq::<(Seq<u8>, Seq<u8>)>::empty() =~= acc_v);
            }
            break ;
        }
        let ghost remaining = (count - i) as nat;
        match read_header(buf, cur) {
            Ok((h, p)) => {
                proof {
                    assert(acc@.push(h).map_values(|g: Header| g@) =~= acc_v + seq![h@]);
                    match spec_read_headers(s, p as int, (remaining - 1) as nat) {
                        Ok((rest, end)) => {
                            assert((acc_v + seq![h@]) + rest =~= acc_v + (seq![h@] + rest));
                        },
                        Err(_) => {},
                    }
                }
                acc.push(h);
                cur = p;
                i = i + 1;
            },
            Err(e) => {
                proof {
                    assert(spec_read_headers(s, cur as int, remaining) == Err::<
                        (Seq<(Seq<u8>, Seq<u8>)>, int),
                        _,
                    >(e));
                }
                return Err(e);
            },
        }
    }
    Ok((acc, cur))
}

/// Appends the wire form of one record.
pub fn write_record(out: &mut Vec<u8>, r: &Record)
    requires
        spec_record_wf(r@),
    ensures
        final(out)@ == old(out)@ + spec_encode_record(r@),
{
    let mut body: Vec<u8> = Vec::new();
    write_i8(&mut body, r.attributes);
    VarLong::write(&mut body, r.timestamp_delta);
    VarInt::write(&mut body, r.offset_delta);
    let key_ref: Option<&Vec<u8>> = match &r.key {
        None => None,
        Some(b) => Some(&b.bytes),
    };
    write_compact_bytes(&mut body, key_ref);
    let value_ref: Option<&Vec<u8>> = match &r.value {
        None => None,
        Some(b) => Some(&b.bytes),
    };
    write_compact_bytes(&mut body, value_ref);
    let hn = r.headers.len();
    proof {
        assert(r@.headers.len() == hn);
    }
    VarInt::write(&mut body, hn as u32);
    let ghost base = body@;
    let ghost hv = r@.headers;
    assert(body@ =~= base + spec_encode_headers(hv.take(0)));
    let mut i: usize = 0;
    while i < hn
        invariant
            i <= hn,
            hn == r.headers@.len(),
            hv == r@.headers,
            spec_record_wf(r@),
            body@ == base + spec_encode_headers(hv.take(i as int)),
        decreases hn - i,
    {
        proof {
            assert(hv[i as int] == r.headers@[i as int]@);
            assert(spec_header_wf(hv[i as int]));
        }
        write_header(&mut body, &r.headers[i]);
        proof {
            assert(hv.take(i + 1) =~= hv.take(i as int) + seq![hv[i as int]]);
            lemma_encode_headers_app(hv.take(i as int), seq![hv[i as int]]);
            assert(seq![hv[i as int]].skip(1) =~= Seq::<(Seq<u8>, Seq<u8>)>::empty());
            assert(spec_encode_headers(seq![hv[i as int]]) =~= spec_encode_header(
                seq![hv[i as int]][0],
            ) + spec_encode_headers(seq![hv[i as int]].skip(1)));
            assert(spec_encode_headers(seq![hv[i as int]]) =~= spec_encode_header(hv[i as int]));
            assert(body@ =~= base + spec_encode_headers(hv.take(i + 1)));
        }
        i = i + 1;
    }
    proof {
        assert(hv.take(hn as int) =~= hv);
        assert(body@ =~= spec_encode_record_body(r@));
    }
    VarInt::write(out, body.len() as u32);
    crate::strings::append_bytes(out, &body);
    assert(final(out)@ =~= old(out)@ + spec_encode_record(r@));
}

/// Reads one record.
pub fn read_record(buf: &[u8], pos: usize) -> (r: Result<(Record, usize), Error>)
    ensures
        match r {
            Ok((rec, end)) => spec_read_record(buf@, pos as int) == Ok::<_, Error>(
                (rec@, end as int),
            ),
            Err(e) => spec_read_record(buf@, pos as int) == Err::<(RecordView, int), _>(e),
        },
{
    let (len, body_start) = match VarInt::read(buf, pos) {
        Ok(x) => x,
        Err(e) => {
            return Err(e);
        },
    };
    let (attributes, p1) = match read_i8(buf, body_start) {
        Ok(x) => x,
        Err(e) => {
            return Err(e);
        },
    };
    let (timestamp_delta, p2) = match VarLong::read(buf, p1) {
        Ok(x) => x,
        Err(e) => {
            return Err(e);
        },
    };
    let (offset_delta, p3) = match VarInt::read(buf, p2) {
        Ok(x) => x,
        Err(e) => {
            return Err(e);
        },
    };
    let (key, p4) = match read_compact_bytes(buf, p3) {
        Ok(x) => x,
        Err(e) => {
            return Err(e);
        },
    };
    let (value, p5) = match read_compact_bytes(buf, p4) {
        Ok(x) => x,
        Err(e) => {
            return Err(e);
        },
    };
    let (hcount, p6) = match VarInt::read(buf, p5) {
        Ok(x) => x,
        Err(e) => {
            return Err(e);
        },
    };
    let (headers, end) = match read_headers(buf, p6, hcount) {
        Ok(x) => x,
        Err(e) => {
            return Err(e);
        },
    };
    if end >= body_start && end - body_start == len as usize {
        let rec = Record {
            attributes,
            timestamp_delta,
            offset_delta,
            key: match key {
                None => None,
                Some(b) => Some(Buffer { bytes: b }),
            },
            value: match value {
                None => None,
                Some(b) => Some(Buffer { bytes: b }),
            },
            headers,
        };
        Ok((rec, end))
    } else {
        Err(Error::Truncated)
    }
}

// ---------------------------------------------------------------------------
// The record payload: records one after another
// ---------------------------------------------------------------------------

pub open spec fn spec_encode_records_payload(rs: Seq<RecordView>) -> Seq<u8>
    decreases rs.len(),
{
    if rs.len() == 0 {
        Seq::empty()
    } else {
        spec_encode_record(rs[0]) + spec_encode_records_payload(rs.skip(1))
    }
}

pub proof fn lemma_encode_records_app(a: Seq<RecordView>, b: Seq<RecordView>)
    ensures
        spec_encode_records_payload(a + b) == spec_encode_records_payload(a)
            + spec_encode_records_payload(b),
    decreases a.len(),
{
    if a.len() == 0 {
        assert(a + b =~= b);
        assert(spec_encode_records_payload(a) =~= Seq::<u8>::empty());
        assert(spec_encode_records_payload(a) + spec_encode_records_payload(b)
            =~= spec_encode_records_payload(b));
    } else {
        assert((a + b)[0] == a[0]);
        assert((a + b).skip(1) =~= a.skip(1) + b);
        lemma_encode_records_app(a.skip(1), b);
        assert(spec_encode_records_payload(a + b) =~= spec_encode_record(a[0]) + (
        spec_encode_records_payload(a.skip(1)) + spec_encode_records_payload(b)));
        assert(spec_encode_record(a[0]) + (spec_encode_records_payload(a.skip(1))
            + spec_encode_records_payload(b)) =~= (spec_encode_record(a[0])
            + spec_encode_records_payload(a.skip(1))) + spec_encode_records_payload(b));
    }
}

pub open spec fn spec_read_records(s: Seq<u8>, pos: int, count: nat) -> SpecRead<Seq<RecordView>>
    decreases count,
{
    if count == 0 {
        Ok((Seq::empty(), pos))
    } else {
        match spec_read_record(s, pos) {
            Ok((r, p1)) => match spec_read_records(s, p1, (count - 1) as nat) {
                Ok((rest, end)) => Ok((seq![r] + rest, end)),
                Err(e) => Err(e),
            },
            Err(e) => Err(e),
        }
    }
}

/// Reading back an encoded run of well-formed records returns exactly it.
pub proof fn lemma_records_roundtrip(s: Seq<u8>, pos: int, rs: Seq<RecordView>)
    requires
        0 <= pos,
        forall|i: int| 0 <= i < rs.len() ==> spec_record_wf(#[trigger] rs[i]),
        pos + spec_encode_records_payload(rs).len() <= s.len(),
        s.subrange(pos, pos + spec_encode_records_payload(rs).len())
            == spec_encode_records_payload(rs),
    ensures
        spec_read_records(s, pos, rs.len()) == Ok::<_, Error>(
            (rs, pos + spec_encode_records_payload(rs).len() as int),
        ),
    decreases rs.len(),
{
    if rs.len() == 0 {
        assert(rs =~= Seq::<RecordView>::empty());
        assert(spec_encode_records_payload(rs).len() == 0);
    } else {
        let e = spec_encode_records_payload(rs);
        let r = rs[0];
        let re = spec_encode_record(r);
        let rest_enc = spec_encode_records_payload(rs.skip(1));
        assert(e =~= re + rest_enc);
        assert(s.subrange(pos, pos + re.len() as int) =~= e.subrange(0, re.len() as int));
        assert(e.subrange(0, re.len() as int) =~= re);
        lemma_record_roundtrip(s, pos, r);
        let p1 = pos + re.len() as int;
        assert(s.subrange(p1, p1 + rest_enc.len() as int) =~= e.subrange(
            re.len() as int,
            e.len() as int,
        ));
        assert(e.subrange(re.len() as int, e.len() as int) =~= rest_enc);
        assert(forall|i: int| 0 <= i < rs.skip(1).len() ==> spec_record_wf(
            #[trigger] rs.skip(1)[i],
        )) by {
            assert(forall|i: int| 0 <= i < rs.skip(1).len() ==> rs.skip(1)[i] == rs[i + 1]);
        }
        lemma_records_roundtrip(s, p1, rs.skip(1));
        assert(spec_read_records(s, pos, rs.len()) == Ok::<_, Error>(
            (seq![r] + rs.skip(1), p1 + rest_enc.len() as int),
        ));
        assert(seq![r] + rs.skip(1) =~= rs);
        assert(pos + e.len() == p1 + rest_enc.len());
    }
}

fn read_records(buf: &[u8], pos: usize, count: u32) -> (r: Result<(Vec<Record>, usize), Error>)
    ensures
        match r {
            Ok((v, end)) => spec_read_records(buf@, pos as int, count as nat) == Ok::<_, Error>(
                (v@.map_values(|rec: Record| rec@), end as int),
            ),
            Err(e) => spec_read_records(buf@, pos as int, count as nat) == Err::<
                (Seq<RecordView>, int),
                _,
            >(e),
        },
{
    let ghost s = buf@;
    let mut acc: Vec<Record> = Vec::new();
    let mut cur: usize = pos;
    let mut i: u32 = 0;
    proof {
        assert(acc@.map_values(|rec: Record| rec@) =~= Seq::<RecordView>::empty());
        match spec_read_records(s, pos as int, count as nat) {
            Ok((rest, end)) => {
                assert(Seq::<RecordView>::empty() + rest =~= rest);
            },
            Err(_) => {},
        }
    }
    loop
        invariant
            i <= count,
            s == buf@,
            spec_read_records(s, pos as int, count as nat) == (match spec_read_records(
                s,
                cur as int,
                (count - i) as nat,
            ) {
                Ok((rest, end)) => Ok::<_, Error>(
                    (acc@.map_values(|rec: Record| rec@) + rest, end),
                ),
                Err(e) => Err(e),
            }),
        ensures
            i == count,
            spec_read_records(s, pos as int, count as nat) == Ok::<_, Error>(
                (acc@.map_values(|rec: Record| rec@), cur as int),
            ),
        decreases count - i,
    {
        let ghost acc_v = acc@.map_values(|rec: Record| rec@);
        if i >= count {
            proof {
                assert(spec_read_records(s, cur as int, 0) == Ok::<_, Error>(
                    (Seq::<RecordView>::empty(), cur as int),
                ));
                assert(acc_v + Seq::<RecordView>::empty() =~= acc_v);
            }
            break ;
        }
        let ghost remaining = (count - i) as nat;
        match read_record(buf, cur) {
            Ok((rec, p)) => {
                proof {
                    assert(acc@.push(rec).map_values(|g: Record| g@) =~= acc_v + seq![rec@]);
                    match spec_read_records(s, p as int, (remaining - 1) as nat) {
                        Ok((rest, end)) => {
                            assert((acc_v + seq![rec@]) + rest =~= acc_v + (seq![rec@] + rest));
                        },
                        Err(_) => {},
                    }
                }
                acc.push(rec);
                cur = p;
                i = i + 1;
            },
            Err(e) => {
                proof {
                    assert(spec_read_records(s, cur as int, remaining) == Err::<
                        (Seq<RecordView>, int),
                        _,
                    >(e));
                }
                return Err(e);
            },
        }
    }
    Ok((acc, cur))
}

// ---------------------------------------------------------------------------
// The batch envelope: every field of a batch, the payload still opaque
// ---------------------------------------------------------------------------

/// A validated batch whose record payload is kept as raw bytes. This is the
/// seam for the delegated compression transform: a caller decompresses the
/// payload with its own provider and parses the records separately.
#[derive(Clone, Debug, PartialEq, Eq)]
pub struct BatchEnvelope {
    pub base_offset: i64,
    pub batch_length: i32,
    pub partition_leader_epoch: i32,
    pub magic_number: i8,
    pub crc: u32,
    pub attributes: RecordBatchAttributes,
    pub last_offset_delta: i32,
    pub base_timestamp: i64,
    pub max_timestamp: i64,
    pub producer_id: i64,
    pub producer_epoch: i16,
    pub base_sequence: i32,
    pub record_count: i32,
    pub payload: Vec<u8>,
}

/// The mathematical shadow of a batch envelope.
pub struct EnvelopeView {
    pub base_offset: i64,
    pub batch_length: i32,
    pub partition_leader_epoch: i32,
    pub magic_number: i8,
    pub crc: u32,
    pub attributes: RecordBatchAttributes,
    pub last_offset_delta: i32,
    pub base_timestamp: i64,
    pub max_timestamp: i64,
    pub producer_id: i64,
    pub producer_epoch: i16,
    pub base_sequence: i32,
    pub record_count: i32,
    pub payload: Seq<u8>,
}

impl View for BatchEnvelope {
    type V = EnvelopeView;

    open spec fn view(&self) -> EnvelopeView {
        EnvelopeView {
            base_offset: self.base_offset,
            batch_length: self.batch_length,
            partition_leader_epoch: self.partition_leader_epoch,
            magic_number: self.magic_number,
            crc: self.crc,
            attributes: self.attributes,
            last_offset_delta: self.last_offset_delta,
            base_timestamp: self.base_timestamp,
            max_timestamp: self.max_timestamp,
            producer_id: self.producer_id,
            producer_epoch: self.producer_epoch,
            base_sequence: self.base_sequence,
            record_count: self.record_count,
            payload: self.payload@,
        }
    }
}

/// The checksum-covered bytes: everything from the attributes to the end.
pub open spec fn spec_batch_covered(e: EnvelopeView) -> Seq<u8> {
    spec_u16_to_be_bytes(spec_pack_attributes(e.attributes)) + spec_i32_to_be_bytes(
        e.last_offset_delta,
    ) + spec_i64_to_be_bytes(e.base_timestamp) + spec_i64_to_be_bytes(e.max_timestamp)
        + spec_i64_to_be_bytes(e.producer_id) + spec_i16_to_be_bytes(e.producer_epoch)
        + spec_i32_to_be_bytes(e.base_sequence) + spec_i32_to_be_bytes(e.record_count)
        + e.payload
}

/// What the envelope's computed fields must be for its encoding to decode
/// back to it: the supported magic number, the checksum of the covered bytes,
/// and the byte count of everything after the length field.
pub open spec fn spec_envelope_content_wf(e: EnvelopeView) -> bool {
    &&& e.record_count >= 0
    &&& spec_batch_covered(e).len() + 9 <= i32::MAX
}

pub open spec fn spec_envelope_wf(e: EnvelopeView) -> bool {
    &&& spec_envelope_content_wf(e)
    &&& e.magic_number == MAGIC_NUMBER
    &&& e.crc == spec_crc32c(spec_batch_covered(e))
    &&& e.batch_length == spec_batch_covered(e).len() + 9
}

/// The batch on the wire; the length and checksum fields are computed from
/// the content, never taken from the caller.
pub open spec fn spec_encode_batch_envelope(e: EnvelopeView) -> Seq<u8>
    recommends
        spec_envelope_content_wf(e),
{
    spec_i64_to_be_bytes(e.base_offset) + spec_i32_to_be_bytes(
        (spec_batch_covered(e).len() + 9) as i32,
    ) + spec_i32_to_be_bytes(e.partition_leader_epoch) + spec_i8_to_be_bytes(MAGIC_NUMBER)
        + spec_u32_to_be_bytes(spec_crc32c(spec_batch_covered(e))) + spec_batch_covered(e)
}

/// Decodes and validates an envelope from a whole byte run: the declared
/// length must match the run, the magic number must be the supported one
/// (checked before any checksum work), the recomputed checksum must agree
/// with the stored one, and the compression bits must name a valid
/// compression. A negative record count reads as `Truncated`.
pub open spec fn spec_read_batch_envelope(s: Seq<u8>) -> Result<EnvelopeView, Error> {
    match spec_read_i64_be(s, 0) {
        Ok((base_offset, _)) => match spec_read_i32_be(s, 8) {
            Ok((batch_length, _)) => if batch_length != s.len() - 12 {
                Err(Error::Truncated)
            } else {
                match spec_read_i32_be(s, 12) {
                    Ok((partition_leader_epoch, _)) => match spec_read_i8(s, 16) {
                        Ok((magic, _)) => if magic != MAGIC_NUMBER {
                            Err(Error::UnsupportedMagicNumber(magic))
                        } else {
                            match spec_read_u32_be(s, 17) {
                                Ok((crc_stored, _)) => if crc_stored != spec_crc32c(
                                    s.subrange(21, s.len() as int),
                                ) {
                                    Err(Error::ChecksumMismatch)
                                } else {
                                    match spec_read_u16_be(s, 21) {
                                        Ok((araw, _)) => match spec_unpack_attributes(araw) {
                                            Ok(attributes) => spec_read_batch_envelope_tail(
                                                s,
                                                base_offset,
                                                batch_length,
                                                partition_leader_epoch,
                                                crc_stored,
                                                attributes,
                                            ),
                                            Err(e) => Err(e),
                                        },
                                        Err(e) => Err(e),
                                    }
                                },
                                Err(e) => Err(e),
                            }
                        },
                        Err(e) => Err(e),
                    },
                    Err(e) => Err(e),
                }
            },
            Err(e) => Err(e),
        },
        Err(e) => Err(e),
    }
}

/// The fixed fields after the attributes, and the payload.
pub open spec fn spec_read_batch_envelope_tail(
    s: Seq<u8>,
    base_offset: i64,
    batch_length: i32,
    partition_leader_epoch: i32,
    crc_stored: u32,
    attributes: RecordBatchAttributes,
) -> Result<EnvelopeView, Error> {
    match spec_read_i32_be(s, 23) {
        Ok((last_offset_delta, _)) => match spec_read_i64_be(s, 27) {
            Ok((base_timestamp, _)) => match spec_read_i64_be(s, 35) {
                Ok((max_timestamp, _)) => match spec_read_i64_be(s, 43) {
                    Ok((producer_id, _)) => match spec_read_i16_be(s, 51) {
                        Ok((producer_epoch, _)) => match spec_read_i32_be(s, 53) {
                            Ok((base_sequence, _)) => match spec_read_i32_be(s, 57) {
                                Ok((record_count, _)) => if record_count < 0 {
                                    Err(Error::Truncated)
                                } else {
                                    Ok(
                                        EnvelopeView {
                                            base_offset,
                                            batch_length,
                                            partition_leader_epoch,
                                            magic_number: MAGIC_NUMBER,
                                            crc: crc_stored,
                                            attributes,
                                            last_offset_delta,
                                            base_timestamp,
                                            max_timestamp,
                                            producer_id,
                                            producer_epoch,
                                            base_sequence,
                                            record_count,
                                            payload: s.subrange(61, s.len() as int),
                                        },
                                    )
                                },
                                Err(e) => Err(e),
                            },
                            Err(e) => Err(e),
                        },
                        Err(e) => Err(e),
                    },
                    Err(e) => Err(e),
                },
                Err(e) => Err(e),
            },
            Err(e) => Err(e),
        },
        Err(e) => Err(e),
    }
}

/// The five fields before the covered range, read back from any buffer that
/// carries a well-formed envelope's prefix.
#[verifier::rlimit(100)]
#[verifier::spinoff_prover]
proof fn lemma_batch_prefix_reads(e: EnvelopeView, t: Seq<u8>)
    requires
        spec_envelope_wf(e),
        t.len() == spec_encode_batch_envelope(e).len(),
        forall|j: int| 0 <= j < 21 ==> t[j] == spec_encode_batch_envelope(e)[j],
    ensures
        spec_read_i64_be(t, 0) == Ok::<_, Error>((e.base_offset, 8int)),
        spec_read_i32_be(t, 8) == Ok::<_, Error>(
            ((spec_batch_covered(e).len() + 9) as i32, 12int),
        ),
        spec_read_i32_be(t, 12) == Ok::<_, Error>((e.partition_leader_epoch, 16int)),
        spec_read_i8(t, 16) == Ok::<_, Error>((MAGIC_NUMBER, 17int)),
        spec_read_u32_be(t, 17) == Ok::<_, Error>((spec_crc32c(spec_batch_covered(e)), 21int)),
        t.len() == 21 + spec_batch_covered(e).len(),
{
    let s = spec_encode_batch_envelope(e);
    let covered = spec_batch_covered(e);
    assert(s.len() == 21 + covered.len());
    assert(t.subrange(0, 8) =~= s.subrange(0, 8));
    assert(s.subrange(0, 8) =~= spec_i64_to_be_bytes(e.base_offset));
    crate::primitives::lemma_read_i64_be_of_encoding(t, 0, e.base_offset);
    assert(t.subrange(8, 12) =~= s.subrange(8, 12));
    assert(s.subrange(8, 12) =~= spec_i32_to_be_bytes((covered.len() + 9) as i32));
    crate::primitives::lemma_read_i32_be_of_encoding(t, 8, (covered.len() + 9) as i32);
    assert(t.subrange(12, 16) =~= s.subrange(12, 16));
    assert(s.subrange(12, 16) =~= spec_i32_to_be_bytes(e.partition_leader_epoch));
    crate::primitives::lemma_read_i32_be_of_encoding(t, 12, e.partition_leader_epoch);
    assert(t.subrange(16, 17) =~= s.subrange(16, 17));
    assert(s.subrange(16, 17) =~= spec_i8_to_be_bytes(MAGIC_NUMBER));
    crate::primitives::lemma_read_i8_of_encoding(t, 16, MAGIC_NUMBER);
    assert(t.subrange(17, 21) =~= s.subrange(17, 21));
    assert(s.subrange(17, 21) =~= spec_u32_to_be_bytes(spec_crc32c(covered)));
    crate::primitives::lemma_read_u32_be_of_encoding(t, 17, spec_crc32c(covered));
}

/// The tail of an envelope's encoding is exactly its covered range.
#[verifier::rlimit(100)]
#[verifier::spinoff_prover]
proof fn lemma_encode_covered_subrange(e: EnvelopeView)
    ensures
        spec_encode_batch_envelope(e).len() == 21 + spec_batch_covered(e).len(),
        spec_encode_batch_envelope(e).subrange(21, spec_encode_batch_envelope(e).len() as int)
            == spec_batch_covered(e),
{
    let s = spec_encode_batch_envelope(e);
    assert(s.subrange(21, s.len() as int) =~= spec_batch_covered(e));
}

/// Reading back the encoding of a well-formed envelope returns exactly it.
#[verifier::rlimit(100)]
#[verifier::spinoff_prover]
pub proof fn lemma_batch_envelope_roundtrip(e: EnvelopeView)
    requires
        spec_envelope_wf(e),
    ensures
        spec_read_batch_envelope(spec_encode_batch_envelope(e)) == Ok::<_, Error>(e),
{
    let s = spec_encode_batch_envelope(e);
    let covered = spec_batch_covered(e);
    lemma_batch_prefix_reads(e, s);
    assert(s.len() == 21 + covered.len());
    assert(s.subrange(21, s.len() as int) =~= covered);
    // the covered region itself, field by field
    let d0 = spec_u16_to_be_bytes(spec_pack_attributes(e.attributes));
    assert(s.subrange(21, 23) =~= covered.subrange(0, 2));
    assert(covered.subrange(0, 2) =~= d0);
    crate::primitives::lemma_read_u16_be_of_encoding(s, 21, spec_pack_attributes(e.attributes));
    lemma_attributes_roundtrip();
    assert(s.subrange(23, 27) =~= covered.subrange(2, 6));
    assert(covered.subrange(2, 6) =~= spec_i32_to_be_bytes(e.last_offset_delta));
    crate::primitives::lemma_read_i32_be_of_encoding(s, 23, e.last_offset_delta);
    assert(s.subrange(27, 35) =~= covered.subrange(6, 14));
    assert(covered.subrange(6, 14) =~= spec_i64_to_be_bytes(e.base_timestamp));
    crate::primitives::lemma_read_i64_be_of_encoding(s, 27, e.base_timestamp);
    assert(s.subrange(35, 43) =~= covered.subrange(14, 22));
    assert(covered.subrange(14, 22) =~= spec_i64_to_be_bytes(e.max_timestamp));
    crate::primitives::lemma_read_i64_be_of_encoding(s, 35, e.max_timestamp);
    assert(s.subrange(43, 51) =~= covered.subrange(22, 30));
    assert(covered.subrange(22, 30) =~= spec_i64_to_be_bytes(e.producer_id));
    crate::primitives::lemma_read_i64_be_of_encoding(s, 43, e.producer_id);
    assert(s.subrange(51, 53) =~= covered.subrange(30, 32));
    assert(covered.subrange(30, 32) =~= spec_i16_to_be_bytes(e.producer_epoch));
    crate::primitives::lemma_read_i16_be_of_encoding(s, 51, e.producer_epoch);
    assert(s.subrange(53, 57) =~= covered.subrange(32, 36));
    assert(covered.subrange(32, 36) =~= spec_i32_to_be_bytes(e.base_sequence));
    crate::primitives::lemma_read_i32_be_of_encoding(s, 53, e.base_sequence);
    assert(s.subrange(57, 61) =~= covered.subrange(36, 40));
    assert(covered.subrange(36, 40) =~= spec_i32_to_be_bytes(e.record_count));
    crate::primitives::lemma_read_i32_be_of_encoding(s, 57, e.record_count);
    assert(s.subrange(61, s.len() as int) =~= e.payload);
}

// ---------------------------------------------------------------------------
// The batch with parsed records
// ---------------------------------------------------------------------------

/// A record batch with its records parsed: the self-describing, checksummed
/// container. The `batch_length` and `crc` fields are computed on encode;
/// `seal` fills them in so a built batch round-trips field for field.
#[derive(Clone, Debug, PartialEq, Eq)]
pub struct Records {
    pub base_offset: i64,
    pub batch_length: i32,
    pub partition_leader_epoch: i32,
    pub magic_number: i8,
    pub crc: u32,
    pub attributes: RecordBatchAttributes,
    pub last_offset_delta: i32,
    pub base_timestamp: i64,
    pub max_timestamp: i64,
    pub producer_id: i64,
    pub producer_epoch: i16,
    pub base_sequence: i32,
    pub records: Vec<Record>,
}

/// The mathematical shadow of a parsed batch.
pub struct BatchView {
    pub base_offset: i64,
    pub batch_length: i32,
    pub partition_leader_epoch: i32,
    pub magic_number: i8,
    pub crc: u32,
    pub attributes: RecordBatchAttributes,
    pub last_offset_delta: i32,
    pub base_timestamp: i64,
    pub max_timestamp: i64,
    pub producer_id: i64,
    pub producer_epoch: i16,
    pub base_sequence: i32,
    pub records: Seq<RecordView>,
}

impl View for Records {
    type V = BatchView;

    open spec fn view(&self) -> BatchView {
        BatchView {
            base_offset: self.base_offset,
            batch_length: self.batch_length,
            partition_leader_epoch: self.partition_leader_epoch,
            magic_number: self.magic_number,
            crc: self.crc,
            attributes: self.attributes,
            last_offset_delta: self.last_offset_delta,
            base_timestamp: self.base_timestamp,
            max_timestamp: self.max_timestamp,
            producer_id: self.producer_id,
            producer_epoch: self.producer_epoch,
            base_sequence: self.base_sequence,
            records: self.records@.map_values(|r: Record| r@),
        }
    }
}

/// The envelope a parsed batch stands for: the identity transform, with the
/// serialized records as the payload.
pub open spec fn spec_batch_env(b: BatchView) -> EnvelopeView {
    EnvelopeView {
        base_offset: b.base_offset,
        batch_length: b.batch_length,
        partition_leader_epoch: b.partition_leader_epoch,
        magic_number: b.magic_number,
        crc: b.crc,
        attributes: b.attributes,
        last_offset_delta: b.last_offset_delta,
        base_timestamp: b.base_timestamp,
        max_timestamp: b.max_timestamp,
        producer_id: b.producer_id,
        producer_epoch: b.producer_epoch,
        base_sequence: b.base_sequence,
        record_count: b.records.len() as i32,
        payload: spec_encode_records_payload(b.records),
    }
}

/// The record content is encodable; the computed fields are unconstrained.
pub open spec fn spec_batch_content_wf(b: BatchView) -> bool {
    &&& forall|i: int| 0 <= i < b.records.len() ==> spec_record_wf(#[trigger] b.records[i])
    &&& b.records.len() <= i32::MAX
    &&& spec_envelope_content_wf(spec_batch_env(b))
}

/// A batch whose stored magic number, checksum and byte length agree with its
/// content: exactly the batches whose encoding decodes back to them.
#[verifier::opaque]
pub open spec fn spec_batch_wf(b: BatchView) -> bool {
    &&& spec_batch_content_wf(b)
    &&& spec_envelope_wf(spec_batch_env(b))
}

#[verifier::opaque]
pub open spec fn spec_encode_batch(b: BatchView) -> Seq<u8>
    recommends
        spec_batch_content_wf(b),
{
    spec_encode_batch_envelope(spec_batch_env(b))
}

/// Decodes a whole byte run as one batch: the validated envelope, then the
/// records, which must fill the payload exactly.
#[verifier::opaque]
pub open spec fn spec_read_batch(s: Seq<u8>) -> Result<BatchView, Error> {
    match spec_read_batch_envelope(s) {
        Ok(env) => match spec_read_records(s, 61, env.record_count as nat) {
            Ok((records, end)) => if end == s.len() {
                Ok(
                    BatchView {
                        base_offset: env.base_offset,
                        batch_length: env.batch_length,
                        partition_leader_epoch: env.partition_leader_epoch,
                        magic_number: env.magic_number,
                        crc: env.crc,
                        attributes: env.attributes,
                        last_offset_delta: env.last_offset_delta,
                        base_timestamp: env.base_timestamp,
                        max_timestamp: env.max_timestamp,
                        producer_id: env.producer_id,
                        producer_epoch: env.producer_epoch,
                        base_sequence: env.base_sequence,
                        records,
                    },
                )
            } else {
                Err(Error::Truncated)
            },
            Err(e) => Err(e),
        },
        Err(e) => Err(e),
    }
}

/// Round trip: decoding the encoding of a well-formed batch returns exactly
/// that batch, stored checksum and length fields included.
#[verifier::rlimit(100)]
#[verifier::spinoff_prover]
pub proof fn lemma_batch_roundtrip(b: BatchView)
    requires
        spec_batch_wf(b),
    ensures
        spec_read_batch(spec_encode_batch(b)) == Ok::<_, Error>(b),
{
    reveal(spec_batch_wf);
    reveal(spec_encode_batch);
    reveal(spec_read_batch);
    let env = spec_batch_env(b);
    let s = spec_encode_batch(b);
    lemma_batch_envelope_roundtrip(env);
    let payload = spec_encode_records_payload(b.records);
    lemma_encode_covered_subrange(env);
    assert(s.subrange(61, s.len() as int) =~= payload) by {
        assert(spec_batch_covered(env).subrange(40, spec_batch_covered(env).len() as int)
            =~= payload);
        assert(s.subrange(61, s.len() as int) =~= spec_batch_covered(env).subrange(
            40,
            spec_batch_covered(env).len() as int,
        ));
    }
    lemma_records_roundtrip(s, 61, b.records);
}

/// Checksum sensitivity, at the envelope level: corrupting any one byte of
/// the covered range of an encoded well-formed envelope makes decoding fail
/// with `ChecksumMismatch`.
#[verifier::rlimit(100)]
#[verifier::spinoff_prover]
pub proof fn lemma_envelope_checksum_sensitivity(e: EnvelopeView, t: Seq<u8>, i: int)
    requires
        spec_envelope_wf(e),
        t.len() == spec_encode_batch_envelope(e).len(),
        21 <= i < t.len(),
        t[i] != spec_encode_batch_envelope(e)[i],
        forall|j: int| 0 <= j < t.len() && j != i ==> t[j] == spec_encode_batch_envelope(e)[j],
    ensures
        spec_read_batch_envelope(t) == Err::<EnvelopeView, Error>(Error::ChecksumMismatch),
{
    let enc = spec_encode_batch_envelope(e);
    let covered_e = spec_batch_covered(e);
    lemma_batch_prefix_reads(e, t);
    lemma_encode_covered_subrange(e);
    let covered_t = t.subrange(21, t.len() as int);
    assert(forall|j: int| 0 <= j < covered_e.len() ==> covered_e[j] == enc[21 + j]);
    assert(covered_t.len() == covered_e.len());
    assert(covered_t[i - 21] == t[i] && covered_e[i - 21] == enc[i]);
    assert(forall|j: int| 0 <= j < covered_e.len() && j != i - 21 ==> #[trigger] covered_t[j]
        == covered_e[j]);
    crate::crc::lemma_crc32c_one_diff(covered_t, covered_e, i - 21);
    assert(spec_crc32c(covered_t) != spec_crc32c(covered_e));
    assert((covered_e.len() + 9) as i32 == t.len() - 12);
}

/// Checksum sensitivity: corrupting any one byte of the covered range of an
/// encoded well-formed batch (a single flipped bit in that range changes
/// exactly one byte) makes decoding fail with `ChecksumMismatch`.
pub proof fn lemma_batch_checksum_sensitivity(b: BatchView, t: Seq<u8>, i: int)
    requires
        spec_batch_wf(b),
        t.len() == spec_encode_batch(b).len(),
        21 <= i < t.len(),
        t[i] != spec_encode_batch(b)[i],
        forall|j: int| 0 <= j < t.len() && j != i ==> t[j] == spec_encode_batch(b)[j],
    ensures
        spec_read_batch(t) == Err::<BatchView, Error>(Error::ChecksumMismatch),
        spec_read_batch_envelope(t) == Err::<EnvelopeView, Error>(Error::ChecksumMismatch),
{
    reveal(spec_batch_wf);
    reveal(spec_encode_batch);
    reveal(spec_read_batch);
    lemma_envelope_checksum_sensitivity(spec_batch_env(b), t, i);
}

/// The magic number gates everything behind it: whatever stands in the
/// checksum field or the covered range, a batch whose prefix is intact but
/// whose magic number is not the supported one fails with
/// `UnsupportedMagicNumber`, before any checksum verification.
pub proof fn lemma_batch_magic_gate(b: BatchView, t: Seq<u8>)
    requires
        spec_batch_wf(b),
        t.len() == spec_encode_batch(b).len(),
        forall|j: int| 0 <= j < 16 ==> t[j] == spec_encode_batch(b)[j],
        spec_u8_as_i8(t[16]) != MAGIC_NUMBER,
    ensures
        spec_read_batch(t) == Err::<BatchView, Error>(
            Error::UnsupportedMagicNumber(spec_u8_as_i8(t[16])),
        ),
        spec_read_batch_envelope(t) == Err::<EnvelopeView, Error>(
            Error::UnsupportedMagicNumber(spec_u8_as_i8(t[16])),
        ),
{
    reveal(spec_batch_wf);
    reveal(spec_encode_batch);
    reveal(spec_read_batch);
    let env = spec_batch_env(b);
    let e = spec_encode_batch(b);
    let covered_e = spec_batch_covered(env);
    assert(e.len() == 21 + covered_e.len());
    assert(t.subrange(0, 8) =~= e.subrange(0, 8));
    assert(e.subrange(0, 8) =~= spec_i64_to_be_bytes(env.base_offset));
    crate::primitives::lemma_read_i64_be_of_encoding(t, 0, env.base_offset);
    assert(t.subrange(8, 12) =~= e.subrange(8, 12));
    assert(e.subrange(8, 12) =~= spec_i32_to_be_bytes((covered_e.len() + 9) as i32));
    crate::primitives::lemma_read_i32_be_of_encoding(t, 8, (covered_e.len() + 9) as i32);
    assert(t.subrange(12, 16) =~= e.subrange(12, 16));
    assert(e.subrange(12, 16) =~= spec_i32_to_be_bytes(env.partition_leader_epoch));
    crate::primitives::lemma_read_i32_be_of_encoding(t, 12, env.partition_leader_epoch);
}

// ---------------------------------------------------------------------------
// Executable batch codec
// ---------------------------------------------------------------------------

fn encode_records_payload(records: &Vec<Record>) -> (r: Vec<u8>)
    requires
        forall|i: int| 0 <= i < records@.len() ==> spec_record_wf(#[trigger] records@[i]@),
    ensures
        r@ == spec_encode_records_payload(records@.map_values(|rec: Record| rec@)),
{
    let ghost rv = records@.map_values(|rec: Record| rec@);
    let mut out: Vec<u8> = Vec::new();
    let n = records.len();
    assert(out@ =~= spec_encode_records_payload(rv.take(0)));
    let mut i: usize = 0;
    while i < n
        invariant
            i <= n,
            n == records@.len(),
            rv == records@.map_values(|rec: Record| rec@),
            forall|k: int| 0 <= k < records@.len() ==> spec_record_wf(#[trigger] records@[k]@),
            out@ == spec_encode_records_payload(rv.take(i as int)),
        decreases n - i,
    {
        proof {
            assert(rv[i as int] == records@[i as int]@);
        }
        write_record(&mut out, &records[i]);
        proof {
            assert(rv.take(i + 1) =~= rv.take(i as int) + seq![rv[i as int]]);
            lemma_encode_records_app(rv.take(i as int), seq![rv[i as int]]);
            assert(seq![rv[i as int]].skip(1) =~= Seq::<RecordView>::empty());
            assert(spec_encode_records_payload(seq![rv[i as int]]) =~= spec_encode_record(
                seq![rv[i as int]][0],
            ) + spec_encode_records_payload(seq![rv[i as int]].skip(1)));
            assert(out@ =~= spec_encode_records_payload(rv.take(i + 1)));
        }
        i = i + 1;
    }
    proof {
        assert(rv.take(n as int) =~= rv);
    }
    out
}

/// Appends the covered region of an envelope: attributes through payload.
fn write_covered(
    out: &mut Vec<u8>,
    attributes: RecordBatchAttributes,
    last_offset_delta: i32,
    base_timestamp: i64,
    max_timestamp: i64,
    producer_id: i64,
    producer_epoch: i16,
    base_sequence: i32,
    record_count: i32,
    payload: &Vec<u8>,
)
    ensures
        final(out)@ == old(out)@ + (spec_u16_to_be_bytes(spec_pack_attributes(attributes))
            + spec_i32_to_be_bytes(last_offset_delta) + spec_i64_to_be_bytes(base_timestamp)
            + spec_i64_to_be_bytes(max_timestamp) + spec_i64_to_be_bytes(producer_id)
            + spec_i16_to_be_bytes(producer_epoch) + spec_i32_to_be_bytes(base_sequence)
            + spec_i32_to_be_bytes(record_count) + payload@),
{
    write_u16_be(out, attributes.pack());
    write_i32_be(out, last_offset_delta);
    write_i64_be(out, base_timestamp);
    write_i64_be(out, max_timestamp);
    write_i64_be(out, producer_id);
    write_i16_be(out, producer_epoch);
    write_i32_be(out, base_sequence);
    write_i32_be(out, record_count);
    crate::strings::append_bytes(out, payload);
    assert(final(out)@ =~= old(out)@ + (spec_u16_to_be_bytes(spec_pack_attributes(attributes))
        + spec_i32_to_be_bytes(last_offset_delta) + spec_i64_to_be_bytes(base_timestamp)
        + spec_i64_to_be_bytes(max_timestamp) + spec_i64_to_be_bytes(producer_id)
        + spec_i16_to_be_bytes(producer_epoch) + spec_i32_to_be_bytes(base_sequence)
        + spec_i32_to_be_bytes(record_count) + payload@));
}

/// Encodes a validated envelope; the length and checksum fields are computed
/// from the content.
pub fn encode_batch_with_payload(env: &BatchEnvelope) -> (r: Vec<u8>)
    requires
        spec_envelope_content_wf(env@),
    ensures
        r@ == spec_encode_batch_envelope(env@),
{
    let mut covered: Vec<u8> = Vec::new();
    write_covered(
        &mut covered,
        env.attributes,
        env.last_offset_delta,
        env.base_timestamp,
        env.max_timestamp,
        env.producer_id,
        env.producer_epoch,
        env.base_sequence,
        env.record_count,
        &env.payload,
    );
    proof {
        assert(covered@ =~= spec_batch_covered(env@));
    }
    let crc = crc32c(covered.as_slice());
    let mut out: Vec<u8> = Vec::new();
    write_i64_be(&mut out, env.base_offset);
    write_i32_be(&mut out, (covered.len() + 9) as i32);
    write_i32_be(&mut out, env.partition_leader_epoch);
    write_i8(&mut out, MAGIC_NUMBER);
    write_u32_be(&mut out, crc);
    crate::strings::append_bytes(&mut out, &covered);
    proof {
        assert(out@ =~= spec_encode_batch_envelope(env@));
    }
    out
}

/// Decodes and validates an envelope, leaving the payload opaque for a
/// caller-supplied decompression transform.
pub fn decode_batch_envelope(buf: &[u8]) -> (r: Result<BatchEnvelope, Error>)
    ensures
        match r {
            Ok(env) => spec_read_batch_envelope(buf@) == Ok::<_, Error>(env@),
            Err(e) => spec_read_batch_envelope(buf@) == Err::<EnvelopeView, _>(e),
        },
{
    let (base_offset, _) = match read_i64_be(buf, 0) {
        Ok(x) => x,
        Err(e) => {
            return Err(e);
        },
    };
    let (batch_length, _) = match read_i32_be(buf, 8) {
        Ok(x) => x,
        Err(e) => {
            return Err(e);
        },
    };
    if !(batch_length >= 0 && batch_length as usize == buf.len() - 12) {
        return Err(Error::Truncated);
    }
    let (partition_leader_epoch, _) = match read_i32_be(buf, 12) {
        Ok(x) => x,
        Err(e) => {
            return Err(e);
        },
    };
    let (magic, _) = match read_i8(buf, 16) {
        Ok(x) => x,
        Err(e) => {
            return Err(e);
        },
    };
    if magic != MAGIC_NUMBER {
        return Err(Error::UnsupportedMagicNumber(magic));
    }
    let (crc_stored, _) = match read_u32_be(buf, 17) {
        Ok(x) => x,
        Err(e) => {
            return Err(e);
        },
    };
    let covered = vstd::slice::slice_subrange(buf, 21, buf.len());
    if crc_stored != crc32c(covered) {
        return Err(Error::ChecksumMismatch);
    }
    let (araw, _) = match read_u16_be(buf, 21) {
        Ok(x) => x,
        Err(e) => {
            return Err(e);
        },
    };
    let attributes = match RecordBatchAttributes::unpack(araw) {
        Ok(a) => a,
        Err(e) => {
            return Err(e);
        },
    };
    let (last_offset_delta, _) = match read_i32_be(buf, 23) {
        Ok(x) => x,
        Err(e) => {
            return Err(e);
        },
    };
    let (base_timestamp, _) = match read_i64_be(buf, 27) {
        Ok(x) => x,
        Err(e) => {
            return Err(e);
        },
    };
    let (max_timestamp, _) = match read_i64_be(buf, 35) {
        Ok(x) => x,
        Err(e) => {
            return Err(e);
        },
    };
    let (producer_id, _) = match read_i64_be(buf, 43) {
        Ok(x) => x,
        Err(e) => {
            return Err(e);
        },
    };
    let (producer_epoch, _) = match read_i16_be(buf, 51) {
        Ok(x) => x,
        Err(e) => {
            return Err(e);
        },
    };
    let (base_sequence, _) = match read_i32_be(buf, 53) {
        Ok(x) => x,
        Err(e) => {
            return Err(e);
        },
    };
    let (record_count, _) = match read_i32_be(buf, 57) {
        Ok(x) => x,
        Err(e) => {
            return Err(e);
        },
    };
    if record_count < 0 {
        return Err(Error::Truncated);
    }
    let payload = copy_range(buf, 61, buf.len() - 61);
    Ok(
        BatchEnvelope {
            base_offset,
            batch_length,
            partition_leader_epoch,
            magic_number: magic,
            crc: crc_stored,
            attributes,
            last_offset_delta,
            base_timestamp,
            max_timestamp,
            producer_id,
            producer_epoch,
            base_sequence,
            record_count,
            payload,
        },
    )
}

/// Parses a record payload on its own (after any caller-side decompression):
/// exactly `count` records that fill the bytes completely.
pub fn parse_records(buf: &[u8], count: i32) -> (r: Result<Vec<Record>, Error>)
    requires
        count >= 0,
    ensures
        match r {
            Ok(v) => spec_read_records(buf@, 0, count as nat) == Ok::<_, Error>(
                (v@.map_values(|rec: Record| rec@), buf@.len() as int),
            ),
            Err(e) => spec_read_records(buf@, 0, count as nat) matches Ok((v2, end)) ==> (e
                == Error::Truncated && end != buf@.len()),
        },
{
    match read_records(buf, 0, count as u32) {
        Ok((v, end)) => {
            if end == buf.len() {
                Ok(v)
            } else {
                Err(Error::Truncated)
            }
        },
        Err(e) => Err(e),
    }
}

impl Records {
    /// Serializes the batch: header fields in declared order, the checksum
    /// computed over the bytes from just after the checksum field to the end,
    /// and the records as the payload (the identity compression transform).
    pub fn encode_batch(&self) -> (r: Vec<u8>)
        requires
            spec_batch_content_wf(self@),
        ensures
            r@ == spec_encode_batch(self@),
    {
        proof {
            assert(forall|k: int| 0 <= k < self.records@.len() ==> #[trigger] self.records@[k]@
                == self@.records[k]);
        }
        let payload = encode_records_payload(&self.records);
        let n = self.records.len();
        proof {
            assert(self@.records.len() == n);
        }
        let env = BatchEnvelope {
            base_offset: self.base_offset,
            batch_length: self.batch_length,
            partition_leader_epoch: self.partition_leader_epoch,
            magic_number: self.magic_number,
            crc: self.crc,
            attributes: self.attributes,
            last_offset_delta: self.last_offset_delta,
            base_timestamp: self.base_timestamp,
            max_timestamp: self.max_timestamp,
            producer_id: self.producer_id,
            producer_epoch: self.producer_epoch,
            base_sequence: self.base_sequence,
            record_count: n as i32,
            payload,
        };
        proof {
            reveal(spec_encode_batch);
            assert(env@ == spec_batch_env(self@));
        }
        encode_batch_with_payload(&env)
    }

    /// Fills in the computed fields — magic number, checksum, batch byte
    /// length — so that the batch is well formed and its encoding decodes
    /// back to it field for field.
    pub fn seal(&mut self)
        requires
            spec_batch_content_wf(old(self)@),
        ensures
            spec_batch_wf(final(self)@),
            final(self)@ == (BatchView {
                magic_number: MAGIC_NUMBER,
                crc: final(self)@.crc,
                batch_length: final(self)@.batch_length,
                ..old(self)@
            }),
    {
        proof {
            assert(forall|k: int| 0 <= k < self.records@.len() ==> #[trigger] self.records@[k]@
                == self@.records[k]);
        }
        let payload = encode_records_payload(&self.records);
        let n = self.records.len();
        proof {
            assert(self@.records.len() == n);
        }
        let mut covered: Vec<u8> = Vec::new();
        write_covered(
            &mut covered,
            self.attributes,
            self.last_offset_delta,
            self.base_timestamp,
            self.max_timestamp,
            self.producer_id,
            self.producer_epoch,
            self.base_sequence,
            n as i32,
            &payload,
        );
        self.magic_number = MAGIC_NUMBER;
        self.crc = crc32c(covered.as_slice());
        self.batch_length = (covered.len() + 9) as i32;
        proof {
            reveal(spec_batch_wf);
            assert(covered@ =~= spec_batch_covered(spec_batch_env(self@)));
        }
    }

    /// Decodes a whole byte run as one batch, parsing the records from the
    /// payload (the identity compression transform).
    pub fn decode_batch(buf: &[u8]) -> (r: Result<Records, Error>)
        ensures
            match r {
                Ok(b) => spec_read_batch(buf@) == Ok::<_, Error>(b@),
                Err(e) => spec_read_batch(buf@) == Err::<BatchView, _>(e),
            },
    {
        proof {
            reveal(spec_read_batch);
        }
        let env = match decode_batch_envelope(buf) {
            Ok(env) => env,
            Err(e) => {
                return Err(e);
            },
        };
        let (records, end) = match read_records(buf, 61, env.record_count as u32) {
            Ok(x) => x,
            Err(e) => {
                return Err(e);
            },
        };
        if end != buf.len() {
            return Err(Error::Truncated);
        }
        Ok(
            Records {
                base_offset: env.base_offset,
                batch_length: env.batch_length,
                partition_leader_epoch: env.partition_leader_epoch,
                magic_number: env.magic_number,
                crc: env.crc,
                attributes: env.attributes,
                last_offset_delta: env.last_offset_delta,
                base_timestamp: env.base_timestamp,
                max_timestamp: env.max_timestamp,
                producer_id: env.producer_id,
                producer_epoch: env.producer_epoch,
                base_sequence: env.base_sequence,
                records,
            },
        )
    }
}

} // verus!
