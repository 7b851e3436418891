//! The produce response body, across versions.

use prague_protocol::error::Error;
use prague_protocol::produce::response::{
    BatchError, CurrentLeaderResult, NodeResult, PartitionProduceResult, ProduceResponse,
    TopicProduceResult,
};
use prague_protocol::status::ErrorCode;
use prague_protocol::strings::WireString;
use prague_protocol::tagged::TaggedFields;

fn wire(s: &str) -> WireString {
    WireString::from_bytes(s.as_bytes().to_vec()).unwrap()
}

fn minimal_partition() -> PartitionProduceResult {
    PartitionProduceResult {
        index: 0,
        error_code: None,
        base_offset: 7,
        log_append_time: None,
        log_start_offset: None,
        record_errors: Vec::new(),
        error_message: None,
        current_leader: None,
        tagged_fields: TaggedFields::empty(),
    }
}

fn response_for(version: i16) -> ProduceResponse {
    let mut partition = minimal_partition();
    partition.error_code = Some(ErrorCode::NotLeaderOrFollower);
    if version >= 2 {
        partition.log_append_time = Some(1_234);
    }
    if version >= 5 {
        partition.log_start_offset = Some(3);
    }
    if version >= 8 {
        partition.record_errors = vec![BatchError {
            index: 1,
            message: Some(wire("bad record")),
            tagged_fields: TaggedFields::empty(),
        }];
        partition.error_message = Some(wire("rejected"));
    }
    if version >= 10 {
        partition.current_leader = Some(CurrentLeaderResult { id: Some(4), epoch: None });
    }
    ProduceResponse {
        topics: vec![TopicProduceResult {
            name: wire("orders"),
            partitions: vec![partition],
            tagged_fields: TaggedFields::empty(),
        }],
        throttle_time: if version >= 1 { Some(12) } else { None },
        endpoints: if version >= 10 {
            vec![NodeResult { id: 4, hostname: wire("broker"), port: 9092, rack: None }]
        } else {
            Vec::new()
        },
        tagged_fields: TaggedFields::empty(),
    }
}

#[test]
fn produce_response_round_trips_across_versions() {
    for version in [0i16, 1, 2, 5, 8, 9, 10, 11] {
        let resp = response_for(version);
        let bytes = resp.encode(version).unwrap();
        let (back, end) = ProduceResponse::decode(&bytes, 0, version).unwrap();
        assert_eq!(back, resp, "version {version}");
        assert_eq!(end, bytes.len());
    }
}

#[test]
fn produce_response_encode_gates_fields_by_version() {
    // a throttle time below its gate
    let mut resp = response_for(0);
    resp.throttle_time = Some(1);
    assert_eq!(resp.encode(0), Err(Error::FieldVersionMismatch));
    // a missing throttle time where the version owes one
    let mut resp = response_for(1);
    resp.throttle_time = None;
    assert_eq!(resp.encode(1), Err(Error::FieldVersionMismatch));
    // a log-append time below its gate
    let mut resp = response_for(1);
    resp.topics[0].partitions[0].log_append_time = Some(9);
    assert_eq!(resp.encode(1), Err(Error::FieldVersionMismatch));
    // a current leader below its gate
    let mut resp = response_for(9);
    resp.topics[0].partitions[0].current_leader =
        Some(CurrentLeaderResult { id: None, epoch: None });
    assert_eq!(resp.encode(9), Err(Error::FieldVersionMismatch));
    // a missing current leader where the version owes one
    let mut resp = response_for(10);
    resp.topics[0].partitions[0].current_leader = None;
    assert_eq!(resp.encode(10), Err(Error::FieldVersionMismatch));
}

#[test]
fn produce_response_rejects_unsupported_versions() {
    let resp = response_for(0);
    assert_eq!(resp.encode(12), Err(Error::UnsupportedVersion(12)));
    assert_eq!(
        ProduceResponse::decode(&[0u8; 8], 0, -3),
        Err(Error::UnsupportedVersion(-3))
    );
}

#[test]
fn produce_response_decode_validates_the_status_code() {
    // at version zero the layout is: topic count (4), name length (2),
    // name "orders" (6), partition count (4), index (4), then the code
    let resp = response_for(0);
    let mut bytes = resp.encode(0).unwrap();
    let at = 4 + 2 + 6 + 4 + 4;
    bytes[at] = 0;
    bytes[at + 1] = 22;
    assert_eq!(
        ProduceResponse::decode(&bytes, 0, 0),
        Err(Error::InvalidStatusCode(22))
    );
}

#[test]
fn produce_response_decode_notices_truncation() {
    let resp = response_for(9);
    let bytes = resp.encode(9).unwrap();
    assert_eq!(
        ProduceResponse::decode(&bytes[..bytes.len() - 3], 0, 9),
        Err(Error::Truncated)
    );
}
