//! Record batches: packed attributes, the checksum, records, and the
//! envelope validations.

use prague_protocol::crc::crc32c;
use prague_protocol::error::Error;
use prague_protocol::records::{
    parse_records, read_record, write_record, Header, Record, RecordBatchAttributes,
    RecordBatchCompression, Records, MAGIC_NUMBER,
};
use prague_protocol::strings::{Buffer, WireString};
use prague_protocol::tagged::{TaggedField, TaggedFields};

fn plain_attributes() -> RecordBatchAttributes {
    RecordBatchAttributes {
        compression: RecordBatchCompression::NoCompression,
        timestamp_type: false,
        is_transactional: false,
        is_control_batch: false,
        has_delete_horizon_ms: false,
    }
}

fn sample_record() -> Record {
    Record {
        attributes: 0,
        timestamp_delta: 5,
        offset_delta: 1,
        key: Some(Buffer::new(b"k".to_vec())),
        value: Some(Buffer::new(b"v".to_vec())),
        headers: vec![Header {
            key: WireString::from_bytes(b"h".to_vec()).unwrap(),
            value: b"w".to_vec(),
        }],
    }
}

fn sealed_batch(records: Vec<Record>) -> Records {
    let mut batch = Records {
        base_offset: 42,
        batch_length: 0,
        partition_leader_epoch: 7,
        magic_number: 0,
        crc: 0,
        attributes: plain_attributes(),
        last_offset_delta: 1,
        base_timestamp: 1_000,
        max_timestamp: 1_005,
        producer_id: -1,
        producer_epoch: -1,
        base_sequence: -1,
        records,
    };
    batch.seal();
    batch
}

#[test]
fn crc32c_matches_the_reference_check_value() {
    assert_eq!(crc32c(b"123456789"), 0xE306_9283);
    assert_eq!(crc32c(b""), 0);
}

#[test]
fn attributes_pack_into_the_documented_bits() {
    let a = RecordBatchAttributes {
        compression: RecordBatchCompression::Zstd,
        timestamp_type: true,
        is_transactional: true,
        is_control_batch: true,
        has_delete_horizon_ms: true,
    };
    assert_eq!(a.pack(), 4 + 8 + 16 + 32 + 64);
    assert_eq!(RecordBatchAttributes::unpack(124), Ok(a));
    assert_eq!(plain_attributes().pack(), 0);
}

#[test]
fn attributes_unpack_rejects_invalid_compression_bits() {
    for v in [5u16, 6, 7, 13] {
        assert_eq!(
            RecordBatchAttributes::unpack(v),
            Err(Error::InvalidCompressionCode((v % 8) as u8))
        );
    }
}

#[test]
fn attributes_round_trip_through_packing() {
    for code in 0..5u16 {
        for flags in 0..16u16 {
            let packed = code + 8 * flags;
            let a = RecordBatchAttributes::unpack(packed).unwrap();
            assert_eq!(a.pack(), packed);
        }
    }
}

#[test]
fn tagged_fields_out_of_order_tags_fail() {
    // two entries with tags [2, 1], both with empty payloads
    let buf = [2u8, 2, 0, 1, 0];
    assert_eq!(TaggedFields::read(&buf, 0), Err(Error::OutOfOrderTag));
    // duplicate tags are out of order too: the order must be strict
    let buf = [2u8, 1, 0, 1, 0];
    assert_eq!(TaggedFields::read(&buf, 0), Err(Error::OutOfOrderTag));
}

#[test]
fn tagged_fields_ascending_tags_decode() {
    let buf = [2u8, 1, 0, 2, 0];
    let (tf, end) = TaggedFields::read(&buf, 0).unwrap();
    assert_eq!(end, 5);
    assert_eq!(tf.fields.len(), 2);
    assert_eq!(tf.fields[0].tag, 1);
    assert_eq!(tf.fields[1].tag, 2);
}

#[test]
fn tagged_fields_round_trip_with_payloads() {
    let tf = TaggedFields {
        fields: vec![
            TaggedField { tag: 0, payload: b"abc".to_vec() },
            TaggedField { tag: 7, payload: Vec::new() },
            TaggedField { tag: 300, payload: vec![0xFF; 5] },
        ],
    };
    let mut out = Vec::new();
    tf.write(&mut out);
    let (back, end) = TaggedFields::read(&out, 0).unwrap();
    assert_eq!(back, tf);
    assert_eq!(end, out.len());
}

#[test]
fn tagged_fields_insert_sorts_and_rejects_duplicates() {
    let mut tf = TaggedFields::empty();
    tf.insert(TaggedField { tag: 5, payload: b"e".to_vec() }).unwrap();
    tf.insert(TaggedField { tag: 1, payload: b"a".to_vec() }).unwrap();
    tf.insert(TaggedField { tag: 3, payload: b"c".to_vec() }).unwrap();
    assert_eq!(tf.fields[0].tag, 1);
    assert_eq!(tf.fields[1].tag, 3);
    assert_eq!(tf.fields[2].tag, 5);
    assert_eq!(
        tf.insert(TaggedField { tag: 3, payload: Vec::new() }),
        Err(Error::DuplicateTag)
    );
    // the failed insertion leaves the block as it was, still encodable
    let mut out = Vec::new();
    tf.write(&mut out);
    let (back, _) = TaggedFields::read(&out, 0).unwrap();
    assert_eq!(back, tf);
}

#[test]
fn record_round_trips() {
    let rec = sample_record();
    let mut out = Vec::new();
    write_record(&mut out, &rec);
    let (back, end) = read_record(&out, 0).unwrap();
    assert_eq!(back, rec);
    assert_eq!(end, out.len());
}

#[test]
fn record_with_absent_key_and_value_round_trips() {
    let rec = Record {
        attributes: -4,
        timestamp_delta: -17,
        offset_delta: 0,
        key: None,
        value: None,
        headers: Vec::new(),
    };
    let mut out = Vec::new();
    write_record(&mut out, &rec);
    let (back, end) = read_record(&out, 0).unwrap();
    assert_eq!(back, rec);
    assert_eq!(end, out.len());
}

#[test]
fn batch_round_trips() {
    let mut second = sample_record();
    second.offset_delta = 2;
    second.headers = Vec::new();
    let batch = sealed_batch(vec![sample_record(), second]);
    let bytes = batch.encode_batch();
    let back = Records::decode_batch(&bytes).unwrap();
    assert_eq!(back, batch);
}

#[test]
fn empty_batch_is_valid() {
    let batch = sealed_batch(Vec::new());
    let bytes = batch.encode_batch();
    let back = Records::decode_batch(&bytes).unwrap();
    assert_eq!(back, batch);
    assert_eq!(back.records.len(), 0);
}

#[test]
fn sealed_fields_match_the_wire() {
    let batch = sealed_batch(vec![sample_record()]);
    let bytes = batch.encode_batch();
    assert_eq!(batch.magic_number, MAGIC_NUMBER);
    assert_eq!(batch.batch_length as usize, bytes.len() - 12);
    // the stored checksum covers everything after the checksum field
    assert_eq!(batch.crc, crc32c(&bytes[21..]));
}

#[test]
fn flipping_any_covered_bit_is_a_checksum_mismatch() {
    let batch = sealed_batch(vec![sample_record()]);
    let bytes = batch.encode_batch();
    for i in 21..bytes.len() {
        for bit in 0..8 {
            let mut corrupted = bytes.clone();
            corrupted[i] ^= 1 << bit;
            assert_eq!(
                Records::decode_batch(&corrupted),
                Err(Error::ChecksumMismatch),
                "flip of bit {bit} in byte {i} went unnoticed"
            );
        }
    }
}

#[test]
fn magic_number_one_fails_before_checksum_verification() {
    let batch = sealed_batch(vec![sample_record()]);
    let mut bytes = batch.encode_batch();
    bytes[16] = 1;
    // corrupt a covered byte too: the magic gate must answer first
    let last = bytes.len() - 1;
    bytes[last] ^= 0xFF;
    assert_eq!(
        Records::decode_batch(&bytes),
        Err(Error::UnsupportedMagicNumber(1))
    );
}

#[test]
fn batch_declared_length_must_match() {
    let batch = sealed_batch(vec![sample_record()]);
    let mut bytes = batch.encode_batch();
    bytes.pop();
    assert_eq!(Records::decode_batch(&bytes), Err(Error::Truncated));
}

#[test]
fn parse_records_requires_an_exact_fill() {
    let rec = sample_record();
    let mut payload = Vec::new();
    write_record(&mut payload, &rec);
    let parsed = parse_records(&payload, 1).unwrap();
    assert_eq!(parsed, vec![rec]);
    assert_eq!(parse_records(&payload, 2), Err(Error::Truncated));
    payload.push(0);
    assert_eq!(parse_records(&payload, 1), Err(Error::Truncated));
}
