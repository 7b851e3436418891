//! The list-offsets request body, across versions.

use prague_protocol::error::Error;
use prague_protocol::isolation_level::IsolationLevel;
use prague_protocol::list_offsets::request::{ListOffsetsRequest, Partition, Topic};
use prague_protocol::strings::WireString;
use prague_protocol::tagged::TaggedFields;

fn sample_request(replica_id: Option<i32>) -> ListOffsetsRequest {
    ListOffsetsRequest {
        replica_id,
        isolation_level: IsolationLevel::ReadCommitted,
        topics: vec![Topic {
            name: WireString::from_bytes(b"orders".to_vec()).unwrap(),
            partitions: vec![
                Partition {
                    index: 0,
                    current_leader_epoch: 5,
                    timestamp: -1,
                    tagged_fields: TaggedFields::empty(),
                },
                Partition {
                    index: 1,
                    current_leader_epoch: 5,
                    timestamp: 1_650_000_000_000,
                    tagged_fields: TaggedFields::empty(),
                },
            ],
            tagged_fields: TaggedFields::empty(),
        }],
        tagged_fields: TaggedFields::empty(),
    }
}

#[test]
fn list_offsets_request_round_trips_across_versions() {
    for version in [0i16, 1, 5, 6, 8] {
        let req = sample_request(Some(3));
        let bytes = req.encode(version).unwrap();
        let (back, end) = ListOffsetsRequest::decode(&bytes, 0, version).unwrap();
        assert_eq!(back, req, "version {version}");
        assert_eq!(end, bytes.len());
    }
}

#[test]
fn list_offsets_consumer_replica_id_is_minus_one() {
    let req = sample_request(None);
    let bytes = req.encode(0).unwrap();
    assert_eq!(&bytes[..4], &[0xFF, 0xFF, 0xFF, 0xFF]);
    let (back, _) = ListOffsetsRequest::decode(&bytes, 0, 0).unwrap();
    assert_eq!(back.replica_id, None);
}

#[test]
fn list_offsets_decode_validates_the_isolation_code() {
    let req = sample_request(None);
    // the isolation-level byte follows the four-byte replica ID
    let mut bytes = req.encode(6).unwrap();
    bytes[4] = 2;
    assert_eq!(
        ListOffsetsRequest::decode(&bytes, 0, 6),
        Err(Error::InvalidIsolationLevel(2))
    );
}

#[test]
fn list_offsets_rejects_unsupported_versions() {
    let req = sample_request(None);
    assert_eq!(req.encode(9), Err(Error::UnsupportedVersion(9)));
    assert_eq!(
        ListOffsetsRequest::decode(&[0u8; 8], 0, 9),
        Err(Error::UnsupportedVersion(9))
    );
}
