//! Requests to the fetch API.

use vstd::prelude::*;

use crate::isolation_level::IsolationLevel;
use crate::strings::WireString;
use crate::tagged::TaggedFields;
use crate::uuid::Uuid;

verus! {

/// A partition to fetch from.
#[derive(Clone, Debug, PartialEq, Eq)]
pub struct Partition {
    /// This partition's index.
    pub index: i32,
    /// The epoch of the current leader for this partition.
    pub current_leader_epoch: i32,
    /// The message offset to fetch from.
    pub fetch_offset: i64,
    /// If previously fetched, the epoch of the last fetched record.
    pub last_fetched_epoch: Option<i32>,
    /// The earliest available offset of the follower replica.
    pub log_start_offset: i64,
    /// The maximum number of bytes to fetch from this partition.
    pub max_bytes: i32,
    /// This partition's tagged fields.
    pub tagged_fields: TaggedFields,
}

/// A topic to fetch from.
#[derive(Clone, Debug, PartialEq, Eq)]
pub struct Topic {
    /// This topic's unique ID.
    pub id: Uuid,
    /// The partitions to fetch from.
    pub partitions: Vec<Partition>,
    /// This topic's tagged fields.
    pub tagged_fields: TaggedFields,
}

/// A topic for the broker to drop from the fetch session.
#[derive(Clone, Debug, PartialEq, Eq)]
pub struct TopicToForget {
    /// This topic's unique ID.
    pub id: Uuid,
    /// The indices of the partitions to forget.
    pub partition_indices: Vec<i32>,
    /// This forgotten topic's tagged fields.
    pub tagged_fields: TaggedFields,
}

/// A request to fetch data.
#[derive(Clone, Debug, PartialEq, Eq)]
pub struct FetchRequest {
    /// The maximum time in milliseconds to wait for the response.
    pub max_wait: i32,
    /// The minimum number of bytes to accumulate in the response.
    pub min_bytes: i32,
    /// The maximum number of bytes to fetch.
    pub max_bytes: i32,
    /// Controls the visibility of transactional records.
    pub isolation_level: IsolationLevel,
    /// The fetch session's ID.
    pub session_id: i32,
    /// The fetch session's epoch, used for ordering requests in a session.
    pub session_epoch: i32,
    /// The topics to fetch.
    pub topics: Vec<Topic>,
    /// The topics to forget.
    pub topics_to_forget: Vec<TopicToForget>,
    /// The rack ID of the consumer making this request.
    pub rack_id: WireString,
    /// This fetch request's tagged fields.
    pub tagged_fields: TaggedFields,
}

} // verus!
