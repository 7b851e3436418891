//! Responses from the metadata API.

use vstd::prelude::*;

use crate::status::ErrorCode;
use crate::strings::WireString;
use crate::tagged::TaggedFields;
use crate::uuid::Uuid;

verus! {

/// Describes a broker that hosts partitions of topics.
#[derive(Clone, Debug, PartialEq, Eq)]
pub struct BrokerMetadata {
    /// This broker's ID.
    pub id: i32,
    /// This broker's hostname.
    pub hostname: WireString,
    /// This broker's port.
    pub port: i32,
    /// This broker's rack, if it has been assigned to one.
    pub rack: Option<WireString>,
    /// This broker's tagged fields.
    pub tagged_fields: TaggedFields,
}

/// The layout of one partition.
#[derive(Clone, Debug, PartialEq, Eq)]
pub struct PartitionMetadata {
    /// This partition's status code if something went wrong.
    pub error_code: Option<ErrorCode>,
    /// This partition's index.
    pub index: i32,
    /// The ID of this partition's leader.
    pub leader_id: i32,
    /// The leader's epoch.
    pub leader_epoch: i32,
    /// The brokers holding replicas of this partition.
    pub replica_nodes: Vec<i32>,
    /// The brokers whose replicas are in sync.
    pub isr_nodes: Vec<i32>,
    /// The brokers whose replicas are offline.
    pub offline_replicas: Vec<i32>,
    /// This partition's tagged fields.
    pub tagged_fields: TaggedFields,
}

/// The layout of one topic.
#[derive(Clone, Debug, PartialEq, Eq)]
pub struct TopicMetadata {
    /// This topic's status code if something went wrong.
    pub error_code: Option<ErrorCode>,
    /// This topic's name, if it is known.
    pub name: Option<WireString>,
    /// This topic's unique ID.
    pub id: Uuid,
    /// Whether this topic is internal to the broker.
    pub is_internal: bool,
    /// The layout of this topic's partitions.
    pub partitions: Vec<PartitionMetadata>,
    /// The operations the caller is authorized for.
    pub authorized_operations: i32,
    /// This topic's tagged fields.
    pub tagged_fields: TaggedFields,
}

/// A response carrying cluster metadata.
#[derive(Clone, Debug, PartialEq, Eq)]
pub struct MetadataResponse {
    /// The duration for which the request was throttled by a quota, or
    /// `None` if it violated none.
    pub throttle_time: Option<i32>,
    /// The brokers of the cluster.
    pub brokers: Vec<BrokerMetadata>,
    /// The cluster's ID, if it has one.
    pub cluster_id: Option<WireString>,
    /// The ID of the controller broker.
    pub controller_id: i32,
    /// The layout of each topic.
    pub topics: Vec<TopicMetadata>,
    /// This response's tagged fields.
    pub tagged_fields: TaggedFields,
}

} // verus!
