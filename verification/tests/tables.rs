//! The closed code tables: every constructor validates and never defaults.

use prague_protocol::acks::AckRequirement;
use prague_protocol::api::{resolve, is_flexible, VersionedField};
use prague_protocol::api_key::ApiKey;
use prague_protocol::error::Error;
use prague_protocol::isolation_level::IsolationLevel;
use prague_protocol::records::RecordBatchCompression;
use prague_protocol::status::ErrorCode;

#[test]
fn ack_requirement_rejects_two() {
    assert_eq!(AckRequirement::from_code(2), Err(Error::InvalidAckRequirement(2)));
}

#[test]
fn ack_requirement_minus_one_is_full_isr() {
    assert_eq!(AckRequirement::from_code(-1), Ok(AckRequirement::FullISR));
    assert_eq!(AckRequirement::from_code(0), Ok(AckRequirement::NoAcknowledgements));
    assert_eq!(AckRequirement::from_code(1), Ok(AckRequirement::LeaderOnly));
    assert_eq!(AckRequirement::from_code(-2), Err(Error::InvalidAckRequirement(-2)));
    assert_eq!(AckRequirement::FullISR.code(), -1);
}

#[test]
fn isolation_level_table_is_closed() {
    assert_eq!(IsolationLevel::from_code(0), Ok(IsolationLevel::ReadUncommitted));
    assert_eq!(IsolationLevel::from_code(1), Ok(IsolationLevel::ReadCommitted));
    assert_eq!(IsolationLevel::from_code(2), Err(Error::InvalidIsolationLevel(2)));
    assert_eq!(IsolationLevel::from_code(-1), Err(Error::InvalidIsolationLevel(-1)));
    assert_eq!(IsolationLevel::ReadCommitted.code(), 1);
}

#[test]
fn compression_code_five_is_rejected() {
    assert_eq!(
        RecordBatchCompression::from_code(5),
        Err(Error::InvalidCompressionCode(5))
    );
    // the value is masked to the three-bit field first
    assert_eq!(
        RecordBatchCompression::from_code(13),
        Err(Error::InvalidCompressionCode(5))
    );
    assert_eq!(
        RecordBatchCompression::from_code(8),
        Ok(RecordBatchCompression::NoCompression)
    );
}

#[test]
fn compression_table_round_trips() {
    for c in [
        RecordBatchCompression::NoCompression,
        RecordBatchCompression::Gzip,
        RecordBatchCompression::Snappy,
        RecordBatchCompression::Lz4,
        RecordBatchCompression::Zstd,
    ] {
        assert_eq!(RecordBatchCompression::from_code(c.code()), Ok(c));
    }
}

#[test]
fn status_code_gap_twenty_two_is_rejected() {
    assert_eq!(ErrorCode::parse(22), Err(Error::InvalidStatusCode(22)));
}

#[test]
fn status_code_six_is_retriable() {
    let code = ErrorCode::parse(6).unwrap().unwrap();
    assert_eq!(code, ErrorCode::NotLeaderOrFollower);
    assert!(code.is_retriable());
}

#[test]
fn status_code_zero_is_no_error() {
    assert_eq!(ErrorCode::parse(0), Ok(None));
}

#[test]
fn status_code_table_bounds() {
    assert_eq!(ErrorCode::parse(-1), Ok(Some(ErrorCode::UnknownServerError)));
    assert_eq!(ErrorCode::parse(119), Ok(Some(ErrorCode::InvalidRegistration)));
    assert_eq!(ErrorCode::parse(-2), Err(Error::InvalidStatusCode(-2)));
    assert_eq!(ErrorCode::parse(120), Err(Error::InvalidStatusCode(120)));
    assert!(!ErrorCode::parse(21).unwrap().unwrap().is_retriable());
}

#[test]
fn status_code_round_trips() {
    for v in -1..=119i32 {
        match ErrorCode::parse(v) {
            Ok(Some(code)) => assert_eq!(code.code(), v),
            Ok(None) => assert_eq!(v, 0),
            Err(Error::InvalidStatusCode(x)) => assert_eq!(x, 22),
            Err(e) => panic!("unexpected failure: {:?}", e),
        }
    }
}

#[test]
fn api_key_gaps_are_rejected() {
    for gap in [52i16, 53, 54, 59, 62, 63, 70, 73] {
        assert_eq!(ApiKey::from_code(gap), Err(Error::InvalidApiKey(gap)));
    }
    assert_eq!(ApiKey::from_code(-1), Err(Error::InvalidApiKey(-1)));
    assert_eq!(ApiKey::from_code(75), Err(Error::InvalidApiKey(75)));
}

#[test]
fn api_key_table_round_trips() {
    assert_eq!(ApiKey::from_code(0), Ok(ApiKey::Produce));
    assert_eq!(ApiKey::from_code(1), Ok(ApiKey::Fetch));
    assert_eq!(ApiKey::from_code(2), Ok(ApiKey::ListOffsets));
    assert_eq!(ApiKey::from_code(3), Ok(ApiKey::Metadata));
    assert_eq!(ApiKey::from_code(74), Ok(ApiKey::ListClientMetricsResources));
    for v in 0..=74i16 {
        if let Ok(k) = ApiKey::from_code(v) {
            assert_eq!(k.code(), v);
        }
    }
}

#[test]
fn registry_resolves_and_gates_versions() {
    let info = resolve(0, 9).unwrap();
    assert_eq!(info.key, ApiKey::Produce);
    assert_eq!(info.flexible_from, 9);
    assert_eq!(resolve(0, 12), Err(Error::UnsupportedVersion(12)));
    assert_eq!(resolve(0, -1), Err(Error::UnsupportedVersion(-1)));
    assert_eq!(resolve(9, 0), Err(Error::UnsupportedApi(9)));
    assert_eq!(is_flexible(0, 8), Ok(false));
    assert_eq!(is_flexible(0, 9), Ok(true));
    assert_eq!(is_flexible(1, 11), Ok(false));
    assert_eq!(is_flexible(1, 12), Ok(true));
}

#[test]
fn versioned_field_gates_by_range() {
    let f = VersionedField { min_version: Some(3), max_version: Some(8) };
    assert!(!f.present(2));
    assert!(f.present(3));
    assert!(f.present(8));
    assert!(!f.present(9));
    let open_ended = VersionedField { min_version: Some(3), max_version: None };
    assert!(open_ended.present(100));
    let unbounded = VersionedField { min_version: None, max_version: None };
    assert!(unbounded.present(0));
}
