//! Headers and the produce request body, across versions.

use prague_protocol::acks::AckRequirement;
use prague_protocol::api_key::ApiKey;
use prague_protocol::error::Error;
use prague_protocol::headers::{Request, Response};
use prague_protocol::produce::request::{
    PartitionProduceTarget, ProduceRequest, TopicProduceTarget,
};
use prague_protocol::records::{
    Record, RecordBatchAttributes, RecordBatchCompression, Records,
};
use prague_protocol::strings::{Buffer, WireString};
use prague_protocol::tagged::{TaggedField, TaggedFields};

fn single_record_batch() -> Records {
    let mut batch = Records {
        base_offset: 0,
        batch_length: 0,
        partition_leader_epoch: 0,
        magic_number: 0,
        crc: 0,
        attributes: RecordBatchAttributes {
            compression: RecordBatchCompression::NoCompression,
            timestamp_type: false,
            is_transactional: false,
            is_control_batch: false,
            has_delete_horizon_ms: false,
        },
        last_offset_delta: 0,
        base_timestamp: 0,
        max_timestamp: 0,
        producer_id: -1,
        producer_epoch: -1,
        base_sequence: -1,
        records: vec![Record {
            attributes: 0,
            timestamp_delta: 0,
            offset_delta: 0,
            key: Some(Buffer::new(b"k".to_vec())),
            value: Some(Buffer::new(b"v".to_vec())),
            headers: Vec::new(),
        }],
    };
    batch.seal();
    batch
}

fn orders_request(transactional_id: Option<&str>) -> ProduceRequest {
    ProduceRequest {
        transactional_id: transactional_id
            .map(|s| WireString::from_bytes(s.as_bytes().to_vec()).unwrap()),
        acks: AckRequirement::FullISR,
        timeout: 30_000,
        topics: vec![TopicProduceTarget {
            name: WireString::from_bytes(b"orders".to_vec()).unwrap(),
            partitions: vec![PartitionProduceTarget {
                index: 0,
                records: single_record_batch(),
                tagged_fields: TaggedFields::empty(),
            }],
            tagged_fields: TaggedFields::empty(),
        }],
        tagged_fields: TaggedFields::empty(),
    }
}

#[test]
fn request_header_round_trips_when_flexible() {
    let h = Request {
        api_key: ApiKey::Produce,
        api_version: 9,
        correlation_id: 123,
        client_id: Some(WireString::from_bytes(b"client".to_vec()).unwrap()),
        tagged_fields: TaggedFields {
            fields: vec![TaggedField { tag: 0, payload: b"x".to_vec() }],
        },
    };
    let mut out = Vec::new();
    h.write(&mut out, true);
    let (back, end) = Request::read(&out, 0, true).unwrap();
    assert_eq!(back, h);
    assert_eq!(end, out.len());
}

#[test]
fn request_header_round_trips_when_not_flexible() {
    let h = Request {
        api_key: ApiKey::Fetch,
        api_version: 4,
        correlation_id: -7,
        client_id: None,
        tagged_fields: TaggedFields::empty(),
    };
    let mut out = Vec::new();
    h.write(&mut out, false);
    let (back, end) = Request::read(&out, 0, false).unwrap();
    assert_eq!(back, h);
    assert_eq!(end, out.len());
}

#[test]
fn request_header_rejects_unmapped_api_keys() {
    // api key 52 is a documented gap of the code table
    let buf = [0u8, 52, 0, 0, 0, 0, 0, 1, 0xFF, 0xFF];
    assert_eq!(Request::read(&buf, 0, false), Err(Error::InvalidApiKey(52)));
}

#[test]
fn response_header_round_trips() {
    let h = Response {
        correlation_id: 99,
        tagged_fields: TaggedFields {
            fields: vec![TaggedField { tag: 1, payload: Vec::new() }],
        },
    };
    let mut out = Vec::new();
    h.write(&mut out, true);
    let (back, end) = Response::read(&out, 0, true).unwrap();
    assert_eq!(back, h);
    assert_eq!(end, out.len());

    let plain = Response { correlation_id: 5, tagged_fields: TaggedFields::empty() };
    let mut out = Vec::new();
    plain.write(&mut out, false);
    assert_eq!(out, vec![0, 0, 0, 5]);
    let (back, end) = Response::read(&out, 0, false).unwrap();
    assert_eq!(back, plain);
    assert_eq!(end, 4);
}

#[test]
fn produce_request_scenario_round_trips_flexible() {
    let req = orders_request(None);
    let bytes = req.encode(9).unwrap();
    let (back, end) = ProduceRequest::decode(&bytes, 0, 9).unwrap();
    assert_eq!(back, req);
    assert_eq!(end, bytes.len());
}

#[test]
fn produce_request_scenario_round_trips_legacy() {
    let req = orders_request(Some("txn"));
    for version in [3i16, 8] {
        let bytes = req.encode(version).unwrap();
        let (back, end) = ProduceRequest::decode(&bytes, 0, version).unwrap();
        assert_eq!(back, req);
        assert_eq!(end, bytes.len());
    }
}

#[test]
fn produce_request_round_trips_at_version_zero() {
    let req = orders_request(None);
    let bytes = req.encode(0).unwrap();
    let (back, end) = ProduceRequest::decode(&bytes, 0, 0).unwrap();
    assert_eq!(back, req);
    assert_eq!(end, bytes.len());
}

#[test]
fn produce_request_encode_gates_fields_by_version() {
    let req = orders_request(Some("txn"));
    assert_eq!(req.encode(0), Err(Error::FieldVersionMismatch));
    assert_eq!(req.encode(2), Err(Error::FieldVersionMismatch));
    assert!(req.encode(3).is_ok());
}

#[test]
fn produce_request_rejects_unsupported_versions() {
    let req = orders_request(None);
    assert_eq!(req.encode(12), Err(Error::UnsupportedVersion(12)));
    assert_eq!(req.encode(-1), Err(Error::UnsupportedVersion(-1)));
    assert_eq!(
        ProduceRequest::decode(&[0u8; 16], 0, 12),
        Err(Error::UnsupportedVersion(12))
    );
}

#[test]
fn produce_request_decode_validates_the_ack_code() {
    let req = orders_request(None);
    // at version zero the acknowledgement field is the first on the wire
    let mut bytes = req.encode(0).unwrap();
    bytes[0] = 0;
    bytes[1] = 2;
    assert_eq!(
        ProduceRequest::decode(&bytes, 0, 0),
        Err(Error::InvalidAckRequirement(2))
    );
}

#[test]
fn produce_request_decode_notices_truncation() {
    let req = orders_request(None);
    let bytes = req.encode(9).unwrap();
    assert_eq!(
        ProduceRequest::decode(&bytes[..bytes.len() - 2], 0, 9),
        Err(Error::Truncated)
    );
}
