//! Responses from the fetch API.

use vstd::prelude::*;

use crate::records::Records;
use crate::status::ErrorCode;
use crate::tagged::TaggedFields;
use crate::uuid::Uuid;

verus! {

/// An aborted transaction relevant to the fetched range.
#[derive(Clone, Debug, PartialEq, Eq)]
pub struct AbortedTransaction {
    /// The producer ID associated with this aborted transaction.
    pub producer_id: i64,
    /// The first offset in this aborted transaction.
    pub first_offset: i64,
    /// This aborted transaction's tagged fields.
    pub tagged_fields: TaggedFields,
}

/// The response from one partition.
#[derive(Clone, Debug, PartialEq, Eq)]
pub struct Partition {
    /// This partition's index.
    pub index: i32,
    /// This partition's status code if something went wrong.
    pub error_code: Option<ErrorCode>,
    /// The current high watermark.
    pub high_watermark: i64,
    /// The last stable offset: transactional records below it have a decided
    /// outcome.
    pub last_stable_offset: i64,
    /// The current log start offset.
    pub log_start_offset: i64,
    /// The aborted transactions for this partition.
    pub aborted_transactions: Vec<AbortedTransaction>,
    /// The preferred read replica for the consumer's next fetch request.
    pub preferred_read_replica: i32,
    /// The fetched record data.
    pub records: Records,
    /// This partition response's tagged fields.
    pub tagged_fields: TaggedFields,
}

/// The responses from one topic.
#[derive(Clone, Debug, PartialEq, Eq)]
pub struct Topic {
    /// This topic's unique ID.
    pub id: Uuid,
    /// The responses from this topic's partitions.
    pub partitions: Vec<Partition>,
    /// This topic's tagged fields.
    pub tagged_fields: TaggedFields,
}

/// A response to a fetch request.
#[derive(Clone, Debug, PartialEq, Eq)]
pub struct FetchResponse {
    /// The duration for which the request was throttled by a quota, or
    /// `None` if it violated none.
    pub throttle_time: Option<i32>,
    /// This fetch response's overall status code.
    pub error_code: Option<ErrorCode>,
    /// If this request was part of a fetch session, the session's ID.
    pub session_id: Option<i32>,
    /// The responses from each topic.
    pub topic_responses: Vec<Topic>,
    /// This fetch response's tagged fields.
    pub tagged_fields: TaggedFields,
}

} // verus!
