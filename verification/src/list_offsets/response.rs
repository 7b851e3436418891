//! Responses from the list-offsets API.

use vstd::prelude::*;

use crate::status::ErrorCode;
use crate::strings::WireString;
use crate::tagged::TaggedFields;

verus! {

/// The offset of one partition.
#[derive(Clone, Debug, PartialEq, Eq)]
pub struct PartitionOffset {
    /// This partition's index.
    pub index: i32,
    /// This partition's status code if something went wrong.
    pub error_code: Option<ErrorCode>,
    /// The timestamp associated with the returned offset.
    pub timestamp: i64,
    /// This partition's current offset.
    pub offset: i64,
    /// The leader's epoch.
    pub leader_epoch: i32,
}

/// The offsets of one topic.
#[derive(Clone, Debug, PartialEq, Eq)]
pub struct TopicOffsets {
    /// This topic's name.
    pub name: WireString,
    /// The offsets of this topic's partitions.
    pub partitions: Vec<PartitionOffset>,
    /// This topic's tagged fields.
    pub tagged_fields: TaggedFields,
}

/// A response to a list-offsets request.
#[derive(Clone, Debug, PartialEq, Eq)]
pub struct ListOffsetsResponse {
    /// The duration for which the request was throttled by a quota, or
    /// `None` if it violated none.
    pub throttle_time: Option<i32>,
    /// The offsets of each topic.
    pub topics: Vec<TopicOffsets>,
    /// This response's tagged fields.
    pub tagged_fields: TaggedFields,
}

} // verus!
