//! Requests to the metadata API.

use vstd::prelude::*;

use crate::strings::WireString;
use crate::tagged::TaggedFields;
use crate::uuid::Uuid;

verus! {

/// A topic to fetch the metadata of.
#[derive(Clone, Debug, PartialEq, Eq)]
pub struct Topic {
    /// This topic's unique ID.
    pub id: Uuid,
    /// This topic's name.
    pub name: WireString,
    /// This topic's tagged fields.
    pub tagged_fields: TaggedFields,
}

/// A request for cluster metadata.
#[derive(Clone, Debug, PartialEq, Eq)]
pub struct MetadataRequest {
    /// The topics to fetch the metadata of.
    pub topics: Vec<Topic>,
    /// Whether the broker may auto-create the named topics.
    pub allow_auto_topic_creation: bool,
    /// Whether to include the operations the caller is authorized for.
    pub include_topic_authorized_operations: bool,
    /// This request's tagged fields.
    pub tagged_fields: TaggedFields,
}

} // verus!
