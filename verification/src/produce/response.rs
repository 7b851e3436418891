//! Responses from the produce API: per-partition results, optional status
//! codes, and — at the later versions — record-level errors and current
//! leader endpoints.
//!
//! One canonical structure serves every supported version. Fields are written
//! in declared order and gated by their version ranges; encoding fails fast
//! with `FieldVersionMismatch` when a supplied value is not admitted by its
//! gate (or when a version owes a field no value was supplied for), rather
//! than silently dropping or inventing data.

use vstd::prelude::*;

use crate::api::{spec_field_present, VersionedField};
use crate::arrays::{
    read_array_count, spec_encode_array_count, spec_read_array_count, write_array_count,
};
use crate::error::Error;
use crate::primitives::{
    read_i16_be, read_i32_be, read_i64_be, read_sentinel_i32, read_sentinel_i64,
    spec_encode_sentinel_i32, spec_encode_sentinel_i64, spec_i16_to_be_bytes,
    spec_i32_to_be_bytes, spec_i64_to_be_bytes, spec_read_i16_be, spec_read_i32_be,
    spec_read_i64_be, spec_read_sentinel_i32, spec_read_sentinel_i64, write_i16_be, write_i32_be,
    write_i64_be, write_sentinel_i32, write_sentinel_i64, SpecRead,
};
use crate::produce::{PRODUCE_FLEXIBLE_FROM, PRODUCE_MAX_VERSION, PRODUCE_MIN_VERSION};
use crate::produce::request::spec_produce_flexible;
use crate::status::{spec_status_code, spec_status_from_code, ErrorCode};
use crate::strings::{
    read_compact_string, read_nullable_string, spec_encode_compact_string,
    spec_encode_nullable_string, spec_read_compact_string, spec_read_nullable_string,
    view_opt_string, write_compact_string, write_nullable_string, WireString,
};
use crate::tagged::{
    spec_encode_tagged_fields, spec_read_tagged_fields, spec_tagged_wf, TaggedFields,
};
use crate::utf8::is_utf8;

verus! {

// ---------------------------------------------------------------------------
// The field gates of the response schema
// ---------------------------------------------------------------------------

pub open spec fn spec_throttle_time_field() -> VersionedField {
    VersionedField { min_version: Some(1), max_version: None }
}

pub open spec fn spec_log_append_time_field() -> VersionedField {
    VersionedField { min_version: Some(2), max_version: None }
}

pub open spec fn spec_log_start_offset_field() -> VersionedField {
    VersionedField { min_version: Some(5), max_version: None }
}

pub open spec fn spec_record_errors_field() -> VersionedField {
    VersionedField { min_version: Some(8), max_version: None }
}

pub open spec fn spec_error_message_field() -> VersionedField {
    VersionedField { min_version: Some(8), max_version: None }
}

pub open spec fn spec_current_leader_field() -> VersionedField {
    VersionedField { min_version: Some(10), max_version: None }
}

pub open spec fn spec_endpoints_field() -> VersionedField {
    VersionedField { min_version: Some(10), max_version: None }
}

// ---------------------------------------------------------------------------
// The structures
// ---------------------------------------------------------------------------

/// Describes what record caused a batch to be dropped, and why.
#[derive(Clone, Debug, PartialEq, Eq)]
pub struct BatchError {
    /// The batch index of the record that caused the batch to be dropped.
    pub index: i32,
    /// The error message of that record, if the broker sent one.
    pub message: Option<WireString>,
    /// The tagged fields; on the wire from the flexible versions.
    pub tagged_fields: TaggedFields,
}

pub struct BatchErrorView {
    pub index: i32,
    pub message: Option<Seq<u8>>,
    pub tagged_fields: Seq<(u32, Seq<u8>)>,
}

impl View for BatchError {
    type V = BatchErrorView;

    open spec fn view(&self) -> BatchErrorView {
        BatchErrorView {
            index: self.index,
            message: view_opt_string(self.message),
            tagged_fields: self.tagged_fields@,
        }
    }
}

/// Describes the current leader of a partition. The wire carries `-1` for an
/// unknown leader or epoch.
#[derive(Clone, Copy, Debug, PartialEq, Eq, Structural)]
pub struct CurrentLeaderResult {
    /// The ID of the current leader, or `None` if the leader is unknown.
    pub id: Option<i32>,
    /// The latest known leader epoch, or `None` if the epoch is unknown.
    pub epoch: Option<i32>,
}

/// Describes a broker that hosts partitions of topics.
#[derive(Clone, Debug, PartialEq, Eq)]
pub struct NodeResult {
    /// The ID of the associated node.
    pub id: i32,
    /// The node's hostname.
    pub hostname: WireString,
    /// The node's port.
    pub port: i32,
    /// The node's rack, or `None` if it has not been assigned to one.
    pub rack: Option<WireString>,
}

pub struct NodeResultView {
    pub id: i32,
    pub hostname: Seq<u8>,
    pub port: i32,
    pub rack: Option<Seq<u8>>,
}

impl View for NodeResult {
    type V = NodeResultView;

    open spec fn view(&self) -> NodeResultView {
        NodeResultView {
            id: self.id,
            hostname: self.hostname@,
            port: self.port,
            rack: view_opt_string(self.rack),
        }
    }
}

/// Describes the result of producing to a partition.
#[derive(Clone, Debug, PartialEq, Eq)]
pub struct PartitionProduceResult {
    /// The partition index.
    pub index: i32,
    /// The status code, or `None` if there was no error.
    pub error_code: Option<ErrorCode>,
    /// The base offset.
    pub base_offset: i64,
    /// The timestamp the broker assigned on append, when the topic uses
    /// log-append time; `None` under create time.
    pub log_append_time: Option<i64>,
    /// The log start offset.
    pub log_start_offset: Option<i64>,
    /// The batch indices of records that caused the batch to be dropped.
    pub record_errors: Vec<BatchError>,
    /// The global error message summarizing the records that caused the batch
    /// to be dropped.
    pub error_message: Option<WireString>,
    /// The current leader.
    pub current_leader: Option<CurrentLeaderResult>,
    /// The tagged fields; on the wire from the flexible versions.
    pub tagged_fields: TaggedFields,
}

pub struct PartitionResultView {
    pub index: i32,
    pub error_code: Option<ErrorCode>,
    pub base_offset: i64,
    pub log_append_time: Option<i64>,
    pub log_start_offset: Option<i64>,
    pub record_errors: Seq<BatchErrorView>,
    pub error_message: Option<Seq<u8>>,
    pub current_leader: Option<CurrentLeaderResult>,
    pub tagged_fields: Seq<(u32, Seq<u8>)>,
}

impl View for PartitionProduceResult {
    type V = PartitionResultView;

    open spec fn view(&self) -> PartitionResultView {
        PartitionResultView {
            index: self.index,
            error_code: self.error_code,
            base_offset: self.base_offset,
            log_append_time: self.log_append_time,
            log_start_offset: self.log_start_offset,
            record_errors: self.record_errors@.map_values(|e: BatchError| e@),
            error_message: view_opt_string(self.error_message),
            current_leader: self.current_leader,
            tagged_fields: self.tagged_fields@,
        }
    }
}

/// Describes the result of producing to a topic.
#[derive(Clone, Debug, PartialEq, Eq)]
pub struct TopicProduceResult {
    /// The topic name.
    pub name: WireString,
    /// Each partition that was produced to within the topic.
    pub partitions: Vec<PartitionProduceResult>,
    /// The tagged fields; on the wire from the flexible versions.
    pub tagged_fields: TaggedFields,
}

pub struct TopicResultView {
    pub name: Seq<u8>,
    pub partitions: Seq<PartitionResultView>,
    pub tagged_fields: Seq<(u32, Seq<u8>)>,
}

impl View for TopicProduceResult {
    type V = TopicResultView;

    open spec fn view(&self) -> TopicResultView {
        TopicResultView {
            name: self.name@,
            partitions: self.partitions@.map_values(|p: PartitionProduceResult| p@),
            tagged_fields: self.tagged_fields@,
        }
    }
}

/// A response to a produce request.
#[derive(Clone, Debug, PartialEq, Eq)]
pub struct ProduceResponse {
    /// Each topic's produce results.
    pub topics: Vec<TopicProduceResult>,
    /// The duration for which the request was throttled by a quota.
    pub throttle_time: Option<i32>,
    /// Endpoints for the current leaders named in the partition results.
    pub endpoints: Vec<NodeResult>,
    /// The tagged fields; on the wire from the flexible versions.
    pub tagged_fields: TaggedFields,
}

pub struct ProduceResponseView {
    pub topics: Seq<TopicResultView>,
    pub throttle_time: Option<i32>,
    pub endpoints: Seq<NodeResultView>,
    pub tagged_fields: Seq<(u32, Seq<u8>)>,
}

impl View for ProduceResponse {
    type V = ProduceResponseView;

    open spec fn view(&self) -> ProduceResponseView {
        ProduceResponseView {
            topics: self.topics@.map_values(|t: TopicProduceResult| t@),
            throttle_time: self.throttle_time,
            endpoints: self.endpoints@.map_values(|n: NodeResult| n@),
            tagged_fields: self.tagged_fields@,
        }
    }
}

// ---------------------------------------------------------------------------
// Well-formedness (size bounds) and field presence
// ---------------------------------------------------------------------------

pub open spec fn spec_batch_error_wf(e: BatchErrorView, v: i16) -> bool {
    let flexible = spec_produce_flexible(v);
    &&& e.message matches Some(b) ==> is_utf8(b) && b.len() + 1 <= u32::MAX && b.len()
        <= i16::MAX
    &&& spec_tagged_wf(e.tagged_fields)
    &&& (!flexible ==> e.tagged_fields.len() == 0)
}

pub open spec fn spec_node_result_wf(n: NodeResultView, v: i16) -> bool {
    let flexible = spec_produce_flexible(v);
    &&& is_utf8(n.hostname)
    &&& (flexible ==> n.hostname.len() + 1 <= u32::MAX)
    &&& (!flexible ==> n.hostname.len() <= i16::MAX)
    &&& n.rack matches Some(b) ==> is_utf8(b) && b.len() + 1 <= u32::MAX && b.len() <= i16::MAX
}

pub open spec fn spec_current_leader_wf(c: CurrentLeaderResult) -> bool {
    &&& c.id matches Some(x) ==> x >= 0
    &&& c.epoch matches Some(x) ==> x >= 0
}

pub open spec fn spec_partition_result_wf(p: PartitionResultView, v: i16) -> bool {
    let flexible = spec_produce_flexible(v);
    &&& p.log_append_time matches Some(x) ==> x >= 0
    &&& p.log_start_offset matches Some(x) ==> x >= 0
    &&& forall|i: int| 0 <= i < p.record_errors.len() ==> spec_batch_error_wf(
        #[trigger] p.record_errors[i],
        v,
    )
    &&& (flexible ==> p.record_errors.len() + 1 <= u32::MAX)
    &&& (!flexible ==> p.record_errors.len() <= i32::MAX)
    &&& p.error_message matches Some(b) ==> is_utf8(b) && b.len() + 1 <= u32::MAX && b.len()
        <= i16::MAX
    &&& p.current_leader matches Some(c) ==> spec_current_leader_wf(c)
    &&& spec_tagged_wf(p.tagged_fields)
    &&& (!flexible ==> p.tagged_fields.len() == 0)
}

pub open spec fn spec_topic_result_wf(t: TopicResultView, v: i16) -> bool {
    let flexible = spec_produce_flexible(v);
    &&& is_utf8(t.name)
    &&& (flexible ==> t.name.len() + 1 <= u32::MAX)
    &&& (!flexible ==> t.name.len() <= i16::MAX)
    &&& forall|i: int| 0 <= i < t.partitions.len() ==> spec_partition_result_wf(
        #[trigger] t.partitions[i],
        v,
    )
    &&& (flexible ==> t.partitions.len() + 1 <= u32::MAX)
    &&& (!flexible ==> t.partitions.len() <= i32::MAX)
    &&& spec_tagged_wf(t.tagged_fields)
    &&& (!flexible ==> t.tagged_fields.len() == 0)
}

pub open spec fn spec_produce_response_wf(r: ProduceResponseView, v: i16) -> bool {
    let flexible = spec_produce_flexible(v);
    &&& forall|i: int| 0 <= i < r.topics.len() ==> spec_topic_result_wf(#[trigger] r.topics[i], v)
    &&& (flexible ==> r.topics.len() + 1 <= u32::MAX)
    &&& (!flexible ==> r.topics.len() <= i32::MAX)
    &&& r.throttle_time matches Some(x) ==> x >= 0
    &&& forall|i: int| 0 <= i < r.endpoints.len() ==> spec_node_result_wf(
        #[trigger] r.endpoints[i],
        v,
    )
    &&& (flexible ==> r.endpoints.len() + 1 <= u32::MAX)
    &&& (!flexible ==> r.endpoints.len() <= i32::MAX)
    &&& spec_tagged_wf(r.tagged_fields)
    &&& (!flexible ==> r.tagged_fields.len() == 0)
}

/// Whether every supplied value is admitted by its gate at `v`, and every
/// field the version carries has a value: encoding succeeds exactly here.
pub open spec fn spec_partition_result_presence_ok(p: PartitionResultView, v: i16) -> bool {
    &&& !spec_field_present(spec_log_append_time_field(), v) ==> p.log_append_time is None
    &&& !spec_field_present(spec_log_start_offset_field(), v) ==> p.log_start_offset is None
    &&& !spec_field_present(spec_record_errors_field(), v) ==> p.record_errors.len() == 0
    &&& !spec_field_present(spec_error_message_field(), v) ==> p.error_message is None
    &&& (spec_field_present(spec_current_leader_field(), v) <==> p.current_leader is Some)
}

pub open spec fn spec_topic_result_presence_ok(t: TopicResultView, v: i16) -> bool {
    forall|i: int| 0 <= i < t.partitions.len() ==> spec_partition_result_presence_ok(
        #[trigger] t.partitions[i],
        v,
    )
}

pub open spec fn spec_produce_response_presence_ok(r: ProduceResponseView, v: i16) -> bool {
    &&& (spec_field_present(spec_throttle_time_field(), v) <==> r.throttle_time is Some)
    &&& !spec_field_present(spec_endpoints_field(), v) ==> r.endpoints.len() == 0
    &&& forall|i: int| 0 <= i < r.topics.len() ==> spec_topic_result_presence_ok(
        #[trigger] r.topics[i],
        v,
    )
}

// ---------------------------------------------------------------------------
// Specification-level encoding
// ---------------------------------------------------------------------------

/// The stored status code: zero for "no error", else the entry's code.
pub open spec fn spec_error_code_value(o: Option<ErrorCode>) -> i16 {
    match o {
        None => 0i16,
        Some(c) => spec_status_code(c) as i16,
    }
}

#[verifier::opaque]
pub open spec fn spec_encode_batch_error(e: BatchErrorView, v: i16) -> Seq<u8>
    recommends
        spec_batch_error_wf(e, v),
{
    let flexible = spec_produce_flexible(v);
    spec_i32_to_be_bytes(e.index) + (if flexible {
        spec_encode_compact_string(e.message)
    } else {
        spec_encode_nullable_string(e.message)
    }) + (if flexible {
        spec_encode_tagged_fields(e.tagged_fields)
    } else {
        Seq::empty()
    })
}

pub open spec fn spec_encode_batch_errors(es: Seq<BatchErrorView>, v: i16) -> Seq<u8>
    decreases es.len(),
{
    if es.len() == 0 {
        Seq::empty()
    } else {
        spec_encode_batch_error(es[0], v) + spec_encode_batch_errors(es.skip(1), v)
    }
}

#[verifier::opaque]
pub open spec fn spec_encode_node_result(n: NodeResultView, v: i16) -> Seq<u8>
    recommends
        spec_node_result_wf(n, v),
{
    let flexible = spec_produce_flexible(v);
    spec_i32_to_be_bytes(n.id) + (if flexible {
        spec_encode_compact_string(Some(n.hostname))
    } else {
        spec_encode_nullable_string(Some(n.hostname))
    }) + spec_i32_to_be_bytes(n.port) + (if flexible {
        spec_encode_compact_string(n.rack)
    } else {
        spec_encode_nullable_string(n.rack)
    })
}

pub open spec fn spec_encode_node_results(ns: Seq<NodeResultView>, v: i16) -> Seq<u8>
    decreases ns.len(),
{
    if ns.len() == 0 {
        Seq::empty()
    } else {
        spec_encode_node_result(ns[0], v) + spec_encode_node_results(ns.skip(1), v)
    }
}

pub open spec fn spec_encode_current_leader(c: CurrentLeaderResult) -> Seq<u8>
    recommends
        spec_current_leader_wf(c),
{
    spec_encode_sentinel_i32(c.id) + spec_encode_sentinel_i32(c.epoch)
}

/// The trailing segment of a partition result: record errors, error message,
/// current leader, tagged block.
#[verifier::opaque]
pub open spec fn spec_partition_result_tail_enc(p: PartitionResultView, v: i16) -> Seq<u8>
    recommends
        spec_partition_result_wf(p, v),
        spec_partition_result_presence_ok(p, v),
{
    let flexible = spec_produce_flexible(v);
    (if spec_field_present(spec_record_errors_field(), v) {
        spec_encode_array_count(p.record_errors.len(), flexible)
    } else {
        Seq::<u8>::empty()
    }) + ((if spec_field_present(spec_record_errors_field(), v) {
        spec_encode_batch_errors(p.record_errors, v)
    } else {
        Seq::<u8>::empty()
    }) + ((if spec_field_present(spec_error_message_field(), v) {
        if flexible {
            spec_encode_compact_string(p.error_message)
        } else {
            spec_encode_nullable_string(p.error_message)
        }
    } else {
        Seq::<u8>::empty()
    }) + ((match p.current_leader {
        Some(c) => spec_encode_current_leader(c),
        None => Seq::<u8>::empty(),
    }) + (if flexible {
        spec_encode_tagged_fields(p.tagged_fields)
    } else {
        Seq::<u8>::empty()
    }))))
}

#[verifier::opaque]
pub open spec fn spec_encode_partition_result(p: PartitionResultView, v: i16) -> Seq<u8>
    recommends
        spec_partition_result_wf(p, v),
        spec_partition_result_presence_ok(p, v),
{
    spec_i32_to_be_bytes(p.index) + (spec_i16_to_be_bytes(spec_error_code_value(p.error_code)) + (
    spec_i64_to_be_bytes(p.base_offset) + ((if spec_field_present(
        spec_log_append_time_field(),
        v,
    ) {
        spec_encode_sentinel_i64(p.log_append_time)
    } else {
        Seq::<u8>::empty()
    }) + ((if spec_field_present(spec_log_start_offset_field(), v) {
        spec_encode_sentinel_i64(p.log_start_offset)
    } else {
        Seq::<u8>::empty()
    }) + spec_partition_result_tail_enc(p, v)))))
}

pub open spec fn spec_encode_partition_results(ps: Seq<PartitionResultView>, v: i16) -> Seq<u8>
    decreases ps.len(),
{
    if ps.len() == 0 {
        Seq::empty()
    } else {
        spec_encode_partition_result(ps[0], v) + spec_encode_partition_results(ps.skip(1), v)
    }
}

#[verifier::opaque]
pub open spec fn spec_encode_topic_result(t: TopicResultView, v: i16) -> Seq<u8>
    recommends
        spec_topic_result_wf(t, v),
{
    let flexible = spec_produce_flexible(v);
    (if flexible {
        spec_encode_compact_string(Some(t.name))
    } else {
        spec_encode_nullable_string(Some(t.name))
    }) + spec_encode_array_count(t.partitions.len(), flexible) + spec_encode_partition_results(
        t.partitions,
        v,
    ) + (if flexible {
        spec_encode_tagged_fields(t.tagged_fields)
    } else {
        Seq::empty()
    })
}

pub open spec fn spec_encode_topic_results(ts: Seq<TopicResultView>, v: i16) -> Seq<u8>
    decreases ts.len(),
{
    if ts.len() == 0 {
        Seq::empty()
    } else {
        spec_encode_topic_result(ts[0], v) + spec_encode_topic_results(ts.skip(1), v)
    }
}

/// The response body at version `v`: the topics, the throttle time where its
/// gate admits it, the leader endpoints where theirs does, and the
/// tagged-field block at flexible versions.
pub open spec fn spec_encode_produce_response(r: ProduceResponseView, v: i16) -> Seq<u8>
    recommends
        spec_produce_response_wf(r, v),
        spec_produce_response_presence_ok(r, v),
{
    let flexible = spec_produce_flexible(v);
    spec_encode_array_count(r.topics.len(), flexible) + (spec_encode_topic_results(r.topics, v) + (
    (match r.throttle_time {
        Some(x) => spec_i32_to_be_bytes(x),
        None => Seq::<u8>::empty(),
    }) + ((if spec_field_present(spec_endpoints_field(), v) {
        spec_encode_array_count(r.endpoints.len(), flexible)
    } else {
        Seq::<u8>::empty()
    }) + ((if spec_field_present(spec_endpoints_field(), v) {
        spec_encode_node_results(r.endpoints, v)
    } else {
        Seq::<u8>::empty()
    }) + (if flexible {
        spec_encode_tagged_fields(r.tagged_fields)
    } else {
        Seq::<u8>::empty()
    })))))
}

// ---------------------------------------------------------------------------
// Specification-level decoding
// ---------------------------------------------------------------------------

#[verifier::opaque]
pub open spec fn spec_read_batch_error(s: Seq<u8>, pos: int, v: i16) -> SpecRead<BatchErrorView> {
    let flexible = spec_produce_flexible(v);
    match spec_read_i32_be(s, pos) {
        Ok((index, p1)) => {
            let msg_read = if flexible {
                spec_read_compact_string(s, p1)
            } else {
                spec_read_nullable_string(s, p1)
            };
            match msg_read {
                Ok((message, p2)) => if flexible {
                    match spec_read_tagged_fields(s, p2) {
                        Ok((tagged_fields, end)) => Ok(
                            (BatchErrorView { index, message, tagged_fields }, end),
                        ),
                        Err(e) => Err(e),
                    }
                } else {
                    Ok((BatchErrorView { index, message, tagged_fields: Seq::empty() }, p2))
                },
                Err(e) => Err(e),
            }
        },
        Err(e) => Err(e),
    }
}

pub open spec fn spec_read_batch_errors(s: Seq<u8>, pos: int, count: nat, v: i16) -> SpecRead<
    Seq<BatchErrorView>,
>
    decreases count,
{
    if count == 0 {
        Ok((Seq::empty(), pos))
    } else {
        match spec_read_batch_error(s, pos, v) {
            Ok((e, p1)) => match spec_read_batch_errors(s, p1, (count - 1) as nat, v) {
                Ok((rest, end)) => Ok((seq![e] + rest, end)),
                Err(x) => Err(x),
            },
            Err(x) => Err(x),
        }
    }
}

#[verifier::opaque]
pub open spec fn spec_read_node_result(s: Seq<u8>, pos: int, v: i16) -> SpecRead<NodeResultView> {
    let flexible = spec_produce_flexible(v);
    match spec_read_i32_be(s, pos) {
        Ok((id, p1)) => {
            let host_read = if flexible {
                spec_read_compact_string(s, p1)
            } else {
                spec_read_nullable_string(s, p1)
            };
            match host_read {
                Ok((h, p2)) => match h {
                    None => Err(Error::Truncated),
                    Some(hostname) => match spec_read_i32_be(s, p2) {
                        Ok((port, p3)) => {
                            let rack_read = if flexible {
                                spec_read_compact_string(s, p3)
                            } else {
                                spec_read_nullable_string(s, p3)
                            };
                            match rack_read {
                                Ok((rack, end)) => Ok(
                                    (NodeResultView { id, hostname, port, rack }, end),
                                ),
                                Err(e) => Err(e),
                            }
                        },
                        Err(e) => Err(e),
                    },
                },
                Err(e) => Err(e),
            }
        },
        Err(e) => Err(e),
    }
}

pub open spec fn spec_read_node_results(s: Seq<u8>, pos: int, count: nat, v: i16) -> SpecRead<
    Seq<NodeResultView>,
>
    decreases count,
{
    if count == 0 {
        Ok((Seq::empty(), pos))
    } else {
        match spec_read_node_result(s, pos, v) {
            Ok((n, p1)) => match spec_read_node_results(s, p1, (count - 1) as nat, v) {
                Ok((rest, end)) => Ok((seq![n] + rest, end)),
                Err(x) => Err(x),
            },
            Err(x) => Err(x),
        }
    }
}

pub open spec fn spec_read_current_leader(s: Seq<u8>, pos: int) -> SpecRead<CurrentLeaderResult> {
    match spec_read_sentinel_i32(s, pos) {
        Ok((id, p1)) => match spec_read_sentinel_i32(s, p1) {
            Ok((epoch, end)) => Ok((CurrentLeaderResult { id, epoch }, end)),
            Err(e) => Err(e),
        },
        Err(e) => Err(e),
    }
}

/// The status code is read as its fixed 16-bit wire form and validated
/// against the table; a value in a gap fails with `InvalidStatusCode`.
#[verifier::opaque]
pub open spec fn spec_read_partition_result(s: Seq<u8>, pos: int, v: i16) -> SpecRead<
    PartitionResultView,
> {
    let flexible = spec_produce_flexible(v);
    match spec_read_i32_be(s, pos) {
        Ok((index, p1)) => match spec_read_i16_be(s, p1) {
            Ok((ec_raw, p2)) => match spec_status_from_code(ec_raw as i32) {
                None => Err(Error::InvalidStatusCode(ec_raw as i32)),
                Some(error_code) => match spec_read_i64_be(s, p2) {
                    Ok((base_offset, p3)) => {
                        let lat_read: SpecRead<Option<i64>> = if spec_field_present(
                            spec_log_append_time_field(),
                            v,
                        ) {
                            spec_read_sentinel_i64(s, p3)
                        } else {
                            Ok((None, p3))
                        };
                        match lat_read {
                            Ok((log_append_time, p4)) => {
                                let lso_read: SpecRead<Option<i64>> = if spec_field_present(
                                    spec_log_start_offset_field(),
                                    v,
                                ) {
                                    spec_read_sentinel_i64(s, p4)
                                } else {
                                    Ok((None, p4))
                                };
                                match lso_read {
                                    Ok((log_start_offset, p5)) => spec_read_partition_result_tail(
                                        s,
                                        p5,
                                        v,
                                        index,
                                        error_code,
                                        base_offset,
                                        log_append_time,
                                        log_start_offset,
                                    ),
                                    Err(e) => Err(e),
                                }
                            },
                            Err(e) => Err(e),
                        }
                    },
                    Err(e) => Err(e),
                },
            },
            Err(e) => Err(e),
        },
        Err(e) => Err(e),
    }
}

pub open spec fn spec_read_partition_result_tail(
    s: Seq<u8>,
    pos: int,
    v: i16,
    index: i32,
    error_code: Option<ErrorCode>,
    base_offset: i64,
    log_append_time: Option<i64>,
    log_start_offset: Option<i64>,
) -> SpecRead<PartitionResultView> {
    let flexible = spec_produce_flexible(v);
    let re_read: SpecRead<Seq<BatchErrorView>> = if spec_field_present(
        spec_record_errors_field(),
        v,
    ) {
        match spec_read_array_count(s, pos, flexible) {
            Ok((count, p1)) => spec_read_batch_errors(s, p1, count as nat, v),
            Err(e) => Err(e),
        }
    } else {
        Ok((Seq::empty(), pos))
    };
    match re_read {
        Ok((record_errors, p6)) => {
            let em_read: SpecRead<Option<Seq<u8>>> = if spec_field_present(
                spec_error_message_field(),
                v,
            ) {
                if flexible {
                    spec_read_compact_string(s, p6)
                } else {
                    spec_read_nullable_string(s, p6)
                }
            } else {
                Ok((None, p6))
            };
            match em_read {
                Ok((error_message, p7)) => {
                    let cl_read: SpecRead<Option<CurrentLeaderResult>> = if spec_field_present(
                        spec_current_leader_field(),
                        v,
                    ) {
                        match spec_read_current_leader(s, p7) {
                            Ok((c, p8)) => Ok((Some(c), p8)),
                            Err(e) => Err(e),
                        }
                    } else {
                        Ok((None, p7))
                    };
                    match cl_read {
                        Ok((current_leader, p8)) => if flexible {
                            match spec_read_tagged_fields(s, p8) {
                                Ok((tagged_fields, end)) => Ok(
                                    (
                                        PartitionResultView {
                                            index,
                                            error_code,
                                            base_offset,
                                            log_append_time,
                                            log_start_offset,
                                            record_errors,
                                            error_message,
                                            current_leader,
                                            tagged_fields,
                                        },
                                        end,
                                    ),
                                ),
                                Err(e) => Err(e),
                            }
                        } else {
                            Ok(
                                (
                                    PartitionResultView {
                                        index,
                                        error_code,
                                        base_offset,
                                        log_append_time,
                                        log_start_offset,
                                        record_errors,
                                        error_message,
                                        current_leader,
                                        tagged_fields: Seq::empty(),
                                    },
                                    p8,
                                ),
                            )
                        },
                        Err(e) => Err(e),
                    }
                },
                Err(e) => Err(e),
            }
        },
        Err(e) => Err(e),
    }
}

pub open spec fn spec_read_partition_results(s: Seq<u8>, pos: int, count: nat, v: i16) -> SpecRead<
    Seq<PartitionResultView>,
>
    decreases count,
{
    if count == 0 {
        Ok((Seq::empty(), pos))
    } else {
        match spec_read_partition_result(s, pos, v) {
            Ok((p, p1)) => match spec_read_partition_results(s, p1, (count - 1) as nat, v) {
                Ok((rest, end)) => Ok((seq![p] + rest, end)),
                Err(x) => Err(x),
            },
            Err(x) => Err(x),
        }
    }
}

#[verifier::opaque]
pub open spec fn spec_read_topic_result(s: Seq<u8>, pos: int, v: i16) -> SpecRead<
    TopicResultView,
> {
    let flexible = spec_produce_flexible(v);
    let name_read = if flexible {
        spec_read_compact_string(s, pos)
    } else {
        spec_read_nullable_string(s, pos)
    };
    match name_read {
        Ok((n, p1)) => match n {
            None => Err(Error::Truncated),
            Some(name) => match spec_read_array_count(s, p1, flexible) {
                Ok((count, p2)) => match spec_read_partition_results(s, p2, count as nat, v) {
                    Ok((partitions, p3)) => if flexible {
                        match spec_read_tagged_fields(s, p3) {
                            Ok((tagged_fields, end)) => Ok(
                                (TopicResultView { name, partitions, tagged_fields }, end),
                            ),
                            Err(e) => Err(e),
                        }
                    } else {
                        Ok((TopicResultView { name, partitions, tagged_fields: Seq::empty() }, p3))
                    },
                    Err(e) => Err(e),
                },
                Err(e) => Err(e),
            },
        },
        Err(e) => Err(e),
    }
}

pub open spec fn spec_read_topic_results(s: Seq<u8>, pos: int, count: nat, v: i16) -> SpecRead<
    Seq<TopicResultView>,
>
    decreases count,
{
    if count == 0 {
        Ok((Seq::empty(), pos))
    } else {
        match spec_read_topic_result(s, pos, v) {
            Ok((t, p1)) => match spec_read_topic_results(s, p1, (count - 1) as nat, v) {
                Ok((rest, end)) => Ok((seq![t] + rest, end)),
                Err(x) => Err(x),
            },
            Err(x) => Err(x),
        }
    }
}

/// Reads a produce response body at version `v`. A version outside the
/// registry's supported range fails with `UnsupportedVersion`.
pub open spec fn spec_read_produce_response(s: Seq<u8>, pos: int, v: i16) -> SpecRead<
    ProduceResponseView,
> {
    let flexible = spec_produce_flexible(v);
    if !(PRODUCE_MIN_VERSION <= v <= PRODUCE_MAX_VERSION) {
        Err(Error::UnsupportedVersion(v))
    } else {
        match spec_read_array_count(s, pos, flexible) {
            Ok((count, p1)) => match spec_read_topic_results(s, p1, count as nat, v) {
                Ok((topics, p2)) => {
                    let tt_read: SpecRead<Option<i32>> = if spec_field_present(
                        spec_throttle_time_field(),
                        v,
                    ) {
                        match spec_read_i32_be(s, p2) {
                            Ok((x, p3)) => Ok((Some(x), p3)),
                            Err(e) => Err(e),
                        }
                    } else {
                        Ok((None, p2))
                    };
                    match tt_read {
                        Ok((throttle_time, p3)) => {
                            let ep_read: SpecRead<Seq<NodeResultView>> = if spec_field_present(
                                spec_endpoints_field(),
                                v,
                            ) {
                                match spec_read_array_count(s, p3, flexible) {
                                    Ok((ecount, p4)) => spec_read_node_results(
                                        s,
                                        p4,
                                        ecount as nat,
                                        v,
                                    ),
                                    Err(e) => Err(e),
                                }
                            } else {
                                Ok((Seq::empty(), p3))
                            };
                            match ep_read {
                                Ok((endpoints, p5)) => if flexible {
                                    match spec_read_tagged_fields(s, p5) {
                                        Ok((tagged_fields, end)) => Ok(
                                            (
                                                ProduceResponseView {
                                                    topics,
                                                    throttle_time,
                                                    endpoints,
                                                    tagged_fields,
                                                },
                                                end,
                                            ),
                                        ),
                                        Err(e) => Err(e),
                                    }
                                } else {
                                    Ok(
                                        (
                                            ProduceResponseView {
                                                topics,
                                                throttle_time,
                                                endpoints,
                                                tagged_fields: Seq::empty(),
                                            },
                                            p5,
                                        ),
                                    )
                                },
                                Err(e) => Err(e),
                            }
                        },
                        Err(e) => Err(e),
                    }
                },
                Err(e) => Err(e),
            },
            Err(e) => Err(e),
        }
    }
}


// ---------------------------------------------------------------------------
// Round trips
// ---------------------------------------------------------------------------

/// Reading back an encoded well-formed batch-error entry returns exactly it.
#[verifier::rlimit(100)]
#[verifier::spinoff_prover]
pub proof fn lemma_batch_error_roundtrip(s: Seq<u8>, pos: int, e: BatchErrorView, v: i16)
    requires
        0 <= pos,
        spec_batch_error_wf(e, v),
        pos + spec_encode_batch_error(e, v).len() <= s.len(),
        s.subrange(pos, pos + spec_encode_batch_error(e, v).len()) == spec_encode_batch_error(
            e,
            v,
        ),
    ensures
        spec_read_batch_error(s, pos, v) == Ok::<_, Error>(
            (e, pos + spec_encode_batch_error(e, v).len() as int),
        ),
{
    reveal(spec_encode_batch_error);
    reveal(spec_read_batch_error);
    let flexible = spec_produce_flexible(v);
    let enc = spec_encode_batch_error(e, v);
    let c1 = if flexible {
        spec_encode_compact_string(e.message)
    } else {
        spec_encode_nullable_string(e.message)
    };
    assert(s.subrange(pos, pos + 4) =~= enc.subrange(0, 4));
    assert(enc.subrange(0, 4) =~= spec_i32_to_be_bytes(e.index));
    crate::primitives::lemma_read_i32_be_of_encoding(s, pos, e.index);
    let p1 = pos + 4;
    assert(s.subrange(p1, p1 + c1.len() as int) =~= enc.subrange(4, 4 + c1.len() as int));
    assert(enc.subrange(4, 4 + c1.len() as int) =~= c1);
    if flexible {
        crate::strings::lemma_compact_string_roundtrip(s, p1, e.message);
    } else {
        crate::strings::lemma_nullable_string_roundtrip(s, p1, e.message);
    }
    let p2 = p1 + c1.len() as int;
    if flexible {
        let c2 = spec_encode_tagged_fields(e.tagged_fields);
        assert(s.subrange(p2, p2 + c2.len() as int) =~= enc.subrange(
            4 + c1.len() as int,
            enc.len() as int,
        ));
        assert(enc.subrange(4 + c1.len() as int, enc.len() as int) =~= c2);
        crate::tagged::lemma_tagged_fields_roundtrip(s, p2, e.tagged_fields);
    } else {
        assert(e.tagged_fields =~= Seq::<(u32, Seq<u8>)>::empty());
        assert(pos + enc.len() == p2);
    }
}

/// Reading back an encoded well-formed node entry returns exactly it.
#[verifier::rlimit(100)]
#[verifier::spinoff_prover]
pub proof fn lemma_node_result_roundtrip(s: Seq<u8>, pos: int, n: NodeResultView, v: i16)
    requires
        0 <= pos,
        spec_node_result_wf(n, v),
        pos + spec_encode_node_result(n, v).len() <= s.len(),
        s.subrange(pos, pos + spec_encode_node_result(n, v).len()) == spec_encode_node_result(
            n,
            v,
        ),
    ensures
        spec_read_node_result(s, pos, v) == Ok::<_, Error>(
            (n, pos + spec_encode_node_result(n, v).len() as int),
        ),
{
    reveal(spec_encode_node_result);
    reveal(spec_read_node_result);
    let flexible = spec_produce_flexible(v);
    let enc = spec_encode_node_result(n, v);
    let c1 = if flexible {
        spec_encode_compact_string(Some(n.hostname))
    } else {
        spec_encode_nullable_string(Some(n.hostname))
    };
    let c3 = if flexible {
        spec_encode_compact_string(n.rack)
    } else {
        spec_encode_nullable_string(n.rack)
    };
    assert(s.subrange(pos, pos + 4) =~= enc.subrange(0, 4));
    assert(enc.subrange(0, 4) =~= spec_i32_to_be_bytes(n.id));
    crate::primitives::lemma_read_i32_be_of_encoding(s, pos, n.id);
    let p1 = pos + 4;
    assert(s.subrange(p1, p1 + c1.len() as int) =~= enc.subrange(4, 4 + c1.len() as int));
    assert(enc.subrange(4, 4 + c1.len() as int) =~= c1);
    if flexible {
        crate::strings::lemma_compact_string_roundtrip(s, p1, Some(n.hostname));
    } else {
        crate::strings::lemma_nullable_string_roundtrip(s, p1, Some(n.hostname));
    }
    let p2 = p1 + c1.len() as int;
    assert(s.subrange(p2, p2 + 4) =~= enc.subrange(4 + c1.len() as int, 8 + c1.len() as int));
    assert(enc.subrange(4 + c1.len() as int, 8 + c1.len() as int) =~= spec_i32_to_be_bytes(
        n.port,
    ));
    crate::primitives::lemma_read_i32_be_of_encoding(s, p2, n.port);
    let p3 = p2 + 4;
    assert(s.subrange(p3, p3 + c3.len() as int) =~= enc.subrange(
        8 + c1.len() as int,
        enc.len() as int,
    ));
    assert(enc.subrange(8 + c1.len() as int, enc.len() as int) =~= c3);
    if flexible {
        crate::strings::lemma_compact_string_roundtrip(s, p3, n.rack);
    } else {
        crate::strings::lemma_nullable_string_roundtrip(s, p3, n.rack);
    }
}

/// Reading back an encoded well-formed current-leader pair returns it.
pub proof fn lemma_current_leader_roundtrip(s: Seq<u8>, pos: int, c: CurrentLeaderResult)
    requires
        0 <= pos,
        spec_current_leader_wf(c),
        pos + 8 <= s.len(),
        s.subrange(pos, pos + 8) == spec_encode_current_leader(c),
    ensures
        spec_read_current_leader(s, pos) == Ok::<_, Error>((c, pos + 8)),
{
    let enc = spec_encode_current_leader(c);
    assert(s.subrange(pos, pos + 4) =~= enc.subrange(0, 4));
    assert(enc.subrange(0, 4) =~= crate::primitives::spec_encode_sentinel_i32(c.id));
    crate::primitives::lemma_read_sentinel_i32_of_encoding(s, pos, c.id);
    assert(s.subrange(pos + 4, pos + 8) =~= enc.subrange(4, 8));
    assert(enc.subrange(4, 8) =~= crate::primitives::spec_encode_sentinel_i32(c.epoch));
    crate::primitives::lemma_read_sentinel_i32_of_encoding(s, pos + 4, c.epoch);
}

pub proof fn lemma_encode_batch_errors_app(a: Seq<BatchErrorView>, b: Seq<BatchErrorView>, v: i16)
    ensures
        spec_encode_batch_errors(a + b, v) == spec_encode_batch_errors(a, v) + spec_encode_batch_errors(b, v),
    decreases a.len(),
{
    if a.len() == 0 {
        assert(a + b =~= b);
        assert(spec_encode_batch_errors(a, v) =~= Seq::<u8>::empty());
        assert(spec_encode_batch_errors(a, v) + spec_encode_batch_errors(b, v) =~= spec_encode_batch_errors(
            b,
            v,
        ));
    } else {
        assert((a + b)[0] == a[0]);
        assert((a + b).skip(1) =~= a.skip(1) + b);
        lemma_encode_batch_errors_app(a.skip(1), b, v);
        assert(spec_encode_batch_errors(a + b, v) =~= spec_encode_batch_error(a[0], v) + (
        spec_encode_batch_errors(a.skip(1), v) + spec_encode_batch_errors(b, v)));
        assert(spec_encode_batch_error(a[0], v) + (spec_encode_batch_errors(a.skip(1), v)
            + spec_encode_batch_errors(b, v)) =~= (spec_encode_batch_error(a[0], v)
            + spec_encode_batch_errors(a.skip(1), v)) + spec_encode_batch_errors(b, v));
    }
}


/// Reading back an encoded run of well-formed entries returns exactly it.
pub proof fn lemma_batch_errors_roundtrip(s: Seq<u8>, pos: int, xs: Seq<BatchErrorView>, v: i16)
    requires
        0 <= pos,
        forall|i: int| 0 <= i < xs.len() ==> spec_batch_error_wf(#[trigger] xs[i], v),
        pos + spec_encode_batch_errors(xs, v).len() <= s.len(),
        s.subrange(pos, pos + spec_encode_batch_errors(xs, v).len()) == spec_encode_batch_errors(xs, v),
    ensures
        spec_read_batch_errors(s, pos, xs.len(), v) == Ok::<_, Error>(
            (xs, pos + spec_encode_batch_errors(xs, v).len() as int),
        ),
    decreases xs.len(),
{
    if xs.len() == 0 {
        assert(xs =~= Seq::<BatchErrorView>::empty());
        assert(spec_encode_batch_errors(xs, v).len() == 0);
    } else {
        let e = spec_encode_batch_errors(xs, v);
        let he = spec_encode_batch_error(xs[0], v);
        let rest_enc = spec_encode_batch_errors(xs.skip(1), v);
        assert(e =~= he + rest_enc);
        assert(s.subrange(pos, pos + he.len() as int) =~= e.subrange(0, he.len() as int));
        assert(e.subrange(0, he.len() as int) =~= he);
        lemma_batch_error_roundtrip(s, pos, xs[0], v);
        let p1 = pos + he.len() as int;
        assert(s.subrange(p1, p1 + rest_enc.len() as int) =~= e.subrange(
            he.len() as int,
            e.len() as int,
        ));
        assert(e.subrange(he.len() as int, e.len() as int) =~= rest_enc);
        assert(forall|i: int| 0 <= i < xs.skip(1).len() ==> spec_batch_error_wf(#[trigger] xs.skip(1)[i], v)) by {
            assert(forall|i: int| 0 <= i < xs.skip(1).len() ==> xs.skip(1)[i] == xs[i + 1]);
        }
        lemma_batch_errors_roundtrip(s, p1, xs.skip(1), v);
        assert(seq![xs[0]] + xs.skip(1) =~= xs);
        assert(pos + e.len() == p1 + rest_enc.len());
    }
}


pub proof fn lemma_encode_node_results_app(a: Seq<NodeResultView>, b: Seq<NodeResultView>, v: i16)
    ensures
        spec_encode_node_results(a + b, v) == spec_encode_node_results(a, v) + spec_encode_node_results(b, v),
    decreases a.len(),
{
    if a.len() == 0 {
        assert(a + b =~= b);
        assert(spec_encode_node_results(a, v) =~= Seq::<u8>::empty());
        assert(spec_encode_node_results(a, v) + spec_encode_node_results(b, v) =~= spec_encode_node_results(
            b,
            v,
        ));
    } else {
        assert((a + b)[0] == a[0]);
        assert((a + b).skip(1) =~= a.skip(1) + b);
        lemma_encode_node_results_app(a.skip(1), b, v);
        assert(spec_encode_node_results(a + b, v) =~= spec_encode_node_result(a[0], v) + (
        spec_encode_node_results(a.skip(1), v) + spec_encode_node_results(b, v)));
        assert(spec_encode_node_result(a[0], v) + (spec_encode_node_results(a.skip(1), v)
            + spec_encode_node_results(b, v)) =~= (spec_encode_node_result(a[0], v)
            + spec_encode_node_results(a.skip(1), v)) + spec_encode_node_results(b, v));
    }
}


/// Reading back an encoded run of well-formed entries returns exactly it.
pub proof fn lemma_node_results_roundtrip(s: Seq<u8>, pos: int, xs: Seq<NodeResultView>, v: i16)
    requires
        0 <= pos,
        forall|i: int| 0 <= i < xs.len() ==> spec_node_result_wf(#[trigger] xs[i], v),
        pos + spec_encode_node_results(xs, v).len() <= s.len(),
        s.subrange(pos, pos + spec_encode_node_results(xs, v).len()) == spec_encode_node_results(xs, v),
    ensures
        spec_read_node_results(s, pos, xs.len(), v) == Ok::<_, Error>(
            (xs, pos + spec_encode_node_results(xs, v).len() as int),
        ),
    decreases xs.len(),
{
    if xs.len() == 0 {
        assert(xs =~= Seq::<NodeResultView>::empty());
        assert(spec_encode_node_results(xs, v).len() == 0);
    } else {
        let e = spec_encode_node_results(xs, v);
        let he = spec_encode_node_result(xs[0], v);
        let rest_enc = spec_encode_node_results(xs.skip(1), v);
        assert(e =~= he + rest_enc);
        assert(s.subrange(pos, pos + he.len() as int) =~= e.subrange(0, he.len() as int));
        assert(e.subrange(0, he.len() as int) =~= he);
        lemma_node_result_roundtrip(s, pos, xs[0], v);
        let p1 = pos + he.len() as int;
        assert(s.subrange(p1, p1 + rest_enc.len() as int) =~= e.subrange(
            he.len() as int,
            e.len() as int,
        ));
        assert(e.subrange(he.len() as int, e.len() as int) =~= rest_enc);
        assert(forall|i: int| 0 <= i < xs.skip(1).len() ==> spec_node_result_wf(#[trigger] xs.skip(1)[i], v)) by {
            assert(forall|i: int| 0 <= i < xs.skip(1).len() ==> xs.skip(1)[i] == xs[i + 1]);
        }
        lemma_node_results_roundtrip(s, p1, xs.skip(1), v);
        assert(seq![xs[0]] + xs.skip(1) =~= xs);
        assert(pos + e.len() == p1 + rest_enc.len());
    }
}


pub proof fn lemma_encode_partition_results_app(a: Seq<PartitionResultView>, b: Seq<PartitionResultView>, v: i16)
    ensures
        spec_encode_partition_results(a + b, v) == spec_encode_partition_results(a, v) + spec_encode_partition_results(b, v),
    decreases a.len(),
{
    if a.len() == 0 {
        assert(a + b =~= b);
        assert(spec_encode_partition_results(a, v) =~= Seq::<u8>::empty());
        assert(spec_encode_partition_results(a, v) + spec_encode_partition_results(b, v) =~= spec_encode_partition_results(
            b,
            v,
        ));
    } else {
        assert((a + b)[0] == a[0]);
        assert((a + b).skip(1) =~= a.skip(1) + b);
        lemma_encode_partition_results_app(a.skip(1), b, v);
        assert(spec_encode_partition_results(a + b, v) =~= spec_encode_partition_result(a[0], v) + (
        spec_encode_partition_results(a.skip(1), v) + spec_encode_partition_results(b, v)));
        assert(spec_encode_partition_result(a[0], v) + (spec_encode_partition_results(a.skip(1), v)
            + spec_encode_partition_results(b, v)) =~= (spec_encode_partition_result(a[0], v)
            + spec_encode_partition_results(a.skip(1), v)) + spec_encode_partition_results(b, v));
    }
}


/// Reading back an encoded run of well-formed entries returns exactly it.
pub proof fn lemma_partition_results_roundtrip(s: Seq<u8>, pos: int, xs: Seq<PartitionResultView>, v: i16)
    requires
        0 <= pos,
        forall|i: int| 0 <= i < xs.len() ==> spec_partition_result_wf(#[trigger] xs[i], v) && spec_partition_result_presence_ok(#[trigger] xs[i], v),
        pos + spec_encode_partition_results(xs, v).len() <= s.len(),
        s.subrange(pos, pos + spec_encode_partition_results(xs, v).len()) == spec_encode_partition_results(xs, v),
    ensures
        spec_read_partition_results(s, pos, xs.len(), v) == Ok::<_, Error>(
            (xs, pos + spec_encode_partition_results(xs, v).len() as int),
        ),
    decreases xs.len(),
{
    if xs.len() == 0 {
        assert(xs =~= Seq::<PartitionResultView>::empty());
        assert(spec_encode_partition_results(xs, v).len() == 0);
    } else {
        let e = spec_encode_partition_results(xs, v);
        let he = spec_encode_partition_result(xs[0], v);
        let rest_enc = spec_encode_partition_results(xs.skip(1), v);
        assert(e =~= he + rest_enc);
        assert(s.subrange(pos, pos + he.len() as int) =~= e.subrange(0, he.len() as int));
        assert(e.subrange(0, he.len() as int) =~= he);
        lemma_partition_result_roundtrip(s, pos, xs[0], v);
        let p1 = pos + he.len() as int;
        assert(s.subrange(p1, p1 + rest_enc.len() as int) =~= e.subrange(
            he.len() as int,
            e.len() as int,
        ));
        assert(e.subrange(he.len() as int, e.len() as int) =~= rest_enc);
        assert(forall|i: int| 0 <= i < xs.skip(1).len() ==> spec_partition_result_wf(#[trigger] xs.skip(1)[i], v) && spec_partition_result_presence_ok(#[trigger] xs.skip(1)[i], v)) by {
            assert(forall|i: int| 0 <= i < xs.skip(1).len() ==> xs.skip(1)[i] == xs[i + 1]);
        }
        lemma_partition_results_roundtrip(s, p1, xs.skip(1), v);
        assert(seq![xs[0]] + xs.skip(1) =~= xs);
        assert(pos + e.len() == p1 + rest_enc.len());
    }
}


pub proof fn lemma_encode_topic_results_app(a: Seq<TopicResultView>, b: Seq<TopicResultView>, v: i16)
    ensures
        spec_encode_topic_results(a + b, v) == spec_encode_topic_results(a, v) + spec_encode_topic_results(b, v),
    decreases a.len(),
{
    if a.len() == 0 {
        assert(a + b =~= b);
        assert(spec_encode_topic_results(a, v) =~= Seq::<u8>::empty());
        assert(spec_encode_topic_results(a, v) + spec_encode_topic_results(b, v) =~= spec_encode_topic_results(
            b,
            v,
        ));
    } else {
        assert((a + b)[0] == a[0]);
        assert((a + b).skip(1) =~= a.skip(1) + b);
        lemma_encode_topic_results_app(a.skip(1), b, v);
        assert(spec_encode_topic_results(a + b, v) =~= spec_encode_topic_result(a[0], v) + (
        spec_encode_topic_results(a.skip(1), v) + spec_encode_topic_results(b, v)));
        assert(spec_encode_topic_result(a[0], v) + (spec_encode_topic_results(a.skip(1), v)
            + spec_encode_topic_results(b, v)) =~= (spec_encode_topic_result(a[0], v)
            + spec_encode_topic_results(a.skip(1), v)) + spec_encode_topic_results(b, v));
    }
}


/// Reading back an encoded run of well-formed entries returns exactly it.
pub proof fn lemma_topic_results_roundtrip(s: Seq<u8>, pos: int, xs: Seq<TopicResultView>, v: i16)
    requires
        0 <= pos,
        forall|i: int| 0 <= i < xs.len() ==> spec_topic_result_wf(#[trigger] xs[i], v) && spec_topic_result_presence_ok(#[trigger] xs[i], v),
        pos + spec_encode_topic_results(xs, v).len() <= s.len(),
        s.subrange(pos, pos + spec_encode_topic_results(xs, v).len()) == spec_encode_topic_results(xs, v),
    ensures
        spec_read_topic_results(s, pos, xs.len(), v) == Ok::<_, Error>(
            (xs, pos + spec_encode_topic_results(xs, v).len() as int),
        ),
    decreases xs.len(),
{
    if xs.len() == 0 {
        assert(xs =~= Seq::<TopicResultView>::empty());
        assert(spec_encode_topic_results(xs, v).len() == 0);
    } else {
        let e = spec_encode_topic_results(xs, v);
        let he = spec_encode_topic_result(xs[0], v);
        let rest_enc = spec_encode_topic_results(xs.skip(1), v);
        assert(e =~= he + rest_enc);
        assert(s.subrange(pos, pos + he.len() as int) =~= e.subrange(0, he.len() as int));
        assert(e.subrange(0, he.len() as int) =~= he);
        lemma_topic_result_roundtrip(s, pos, xs[0], v);
        let p1 = pos + he.len() as int;
        assert(s.subrange(p1, p1 + rest_enc.len() as int) =~= e.subrange(
            he.len() as int,
            e.len() as int,
        ));
        assert(e.subrange(he.len() as int, e.len() as int) =~= rest_enc);
        assert(forall|i: int| 0 <= i < xs.skip(1).len() ==> spec_topic_result_wf(#[trigger] xs.skip(1)[i], v) && spec_topic_result_presence_ok(#[trigger] xs.skip(1)[i], v)) by {
            assert(forall|i: int| 0 <= i < xs.skip(1).len() ==> xs.skip(1)[i] == xs[i + 1]);
        }
        lemma_topic_results_roundtrip(s, p1, xs.skip(1), v);
        assert(seq![xs[0]] + xs.skip(1) =~= xs);
        assert(pos + e.len() == p1 + rest_enc.len());
    }
}


/// Reading back the trailing fields of an encoded partition result — the
/// record errors, the error message, the current leader and the tagged
/// block — returns exactly them.
#[verifier::rlimit(100)]
#[verifier::spinoff_prover]
proof fn lemma_partition_result_tail_roundtrip(
    s: Seq<u8>,
    tpos: int,
    p: PartitionResultView,
    v: i16,
)
    requires
        0 <= tpos,
        spec_partition_result_wf(p, v),
        spec_partition_result_presence_ok(p, v),
        ({
            let flexible = spec_produce_flexible(v);
            let tail = spec_partition_result_tail_enc(p, v);
            tpos + tail.len() <= s.len() && s.subrange(tpos, tpos + tail.len()) == tail
        }),
    ensures
        spec_read_partition_result_tail(
            s,
            tpos,
            v,
            p.index,
            p.error_code,
            p.base_offset,
            p.log_append_time,
            p.log_start_offset,
        ) == Ok::<_, Error>((p, tpos + spec_partition_result_tail_enc(p, v).len() as int)),
{
    reveal(spec_partition_result_tail_enc);
    let flexible = spec_produce_flexible(v);
    let re = spec_field_present(spec_record_errors_field(), v);
    let em = spec_field_present(spec_error_message_field(), v);
    let c5a = if re {
        spec_encode_array_count(p.record_errors.len(), flexible)
    } else {
        Seq::<u8>::empty()
    };
    let c5b = if re {
        spec_encode_batch_errors(p.record_errors, v)
    } else {
        Seq::<u8>::empty()
    };
    let c6 = if em {
        if flexible {
            spec_encode_compact_string(p.error_message)
        } else {
            spec_encode_nullable_string(p.error_message)
        }
    } else {
        Seq::<u8>::empty()
    };
    let c7 = match p.current_leader {
        Some(c) => spec_encode_current_leader(c),
        None => Seq::<u8>::empty(),
    };
    let c8 = if flexible {
        spec_encode_tagged_fields(p.tagged_fields)
    } else {
        Seq::<u8>::empty()
    };
    let r8 = c7 + c8;
    let r7 = c6 + r8;
    let r6 = c5b + r7;
    let tail = spec_partition_result_tail_enc(p, v);
    assert(tail == c5a + r6);
    crate::primitives::lemma_concat_placement(s, tpos, c5a, r6);
    let o6 = tpos + c5a.len() as int;
    crate::primitives::lemma_concat_placement(s, o6, c5b, r7);
    let o7 = o6 + c5b.len() as int;
    crate::primitives::lemma_concat_placement(s, o7, c6, r8);
    let o8 = o7 + c6.len() as int;
    crate::primitives::lemma_concat_placement(s, o8, c7, c8);
    let o9 = o8 + c7.len() as int;
    if re {
        crate::arrays::lemma_array_count_roundtrip(s, tpos, p.record_errors.len(), flexible);
        lemma_batch_errors_roundtrip(s, o6, p.record_errors, v);
    } else {
        assert(p.record_errors =~= Seq::<BatchErrorView>::empty());
    }
    if em {
        if flexible {
            crate::strings::lemma_compact_string_roundtrip(s, o7, p.error_message);
        } else {
            crate::strings::lemma_nullable_string_roundtrip(s, o7, p.error_message);
        }
    }
    match p.current_leader {
        Some(c) => {
            lemma_current_leader_roundtrip(s, o8, c);
        },
        None => {},
    }
    if flexible {
        crate::tagged::lemma_tagged_fields_roundtrip(s, o9, p.tagged_fields);
    } else {
        assert(p.tagged_fields =~= Seq::<(u32, Seq<u8>)>::empty());
    }
    assert(tpos + tail.len() == o9 + c8.len());
}

/// Reading back an encoded well-formed partition result whose fields are all
/// admitted by their gates returns exactly it.
#[verifier::rlimit(100)]
#[verifier::spinoff_prover]
pub proof fn lemma_partition_result_roundtrip(s: Seq<u8>, pos: int, p: PartitionResultView, v: i16)
    requires
        0 <= pos,
        spec_partition_result_wf(p, v),
        spec_partition_result_presence_ok(p, v),
        pos + spec_encode_partition_result(p, v).len() <= s.len(),
        s.subrange(pos, pos + spec_encode_partition_result(p, v).len())
            == spec_encode_partition_result(p, v),
    ensures
        spec_read_partition_result(s, pos, v) == Ok::<_, Error>(
            (p, pos + spec_encode_partition_result(p, v).len() as int),
        ),
{
    reveal(spec_encode_partition_result);
    reveal(spec_read_partition_result);
    let flexible = spec_produce_flexible(v);
    let lat = spec_field_present(spec_log_append_time_field(), v);
    let lso = spec_field_present(spec_log_start_offset_field(), v);
    let enc = spec_encode_partition_result(p, v);
    let c0 = spec_i32_to_be_bytes(p.index);
    let c1 = spec_i16_to_be_bytes(spec_error_code_value(p.error_code));
    let c2 = spec_i64_to_be_bytes(p.base_offset);
    let c3 = if lat {
        spec_encode_sentinel_i64(p.log_append_time)
    } else {
        Seq::<u8>::empty()
    };
    let c4 = if lso {
        spec_encode_sentinel_i64(p.log_start_offset)
    } else {
        Seq::<u8>::empty()
    };
    let tail = spec_partition_result_tail_enc(p, v);
    let r4 = c4 + tail;
    let r3 = c3 + r4;
    let r2 = c2 + r3;
    let r1 = c1 + r2;
    assert(enc == c0 + r1);
    crate::primitives::lemma_concat_placement(s, pos, c0, r1);
    let o1 = pos + 4;
    crate::primitives::lemma_concat_placement(s, o1, c1, r2);
    let o2 = o1 + 2;
    crate::primitives::lemma_concat_placement(s, o2, c2, r3);
    let o3 = o2 + 8;
    crate::primitives::lemma_concat_placement(s, o3, c3, r4);
    let o4 = o3 + c3.len() as int;
    crate::primitives::lemma_concat_placement(s, o4, c4, tail);
    let o5 = o4 + c4.len() as int;
    crate::primitives::lemma_read_i32_be_of_encoding(s, pos, p.index);
    crate::primitives::lemma_read_i16_be_of_encoding(
        s,
        o1,
        spec_error_code_value(p.error_code),
    );
    match p.error_code {
        None => {},
        Some(c) => {
            crate::status::lemma_status_code_range(c);
            crate::status::lemma_status_table_bijective();
            assert(spec_error_code_value(p.error_code) as i32 == spec_status_code(c));
        },
    }
    crate::primitives::lemma_read_i64_be_of_encoding(s, o2, p.base_offset);
    if lat {
        crate::primitives::lemma_read_sentinel_i64_of_encoding(s, o3, p.log_append_time);
    }
    if lso {
        crate::primitives::lemma_read_sentinel_i64_of_encoding(s, o4, p.log_start_offset);
    }
    lemma_partition_result_tail_roundtrip(s, o5, p, v);
    assert(pos + enc.len() == o5 + tail.len());
}

/// Reading back an encoded well-formed topic result returns exactly it.
#[verifier::rlimit(100)]
#[verifier::spinoff_prover]
pub proof fn lemma_topic_result_roundtrip(s: Seq<u8>, pos: int, t: TopicResultView, v: i16)
    requires
        0 <= pos,
        spec_topic_result_wf(t, v),
        spec_topic_result_presence_ok(t, v),
        pos + spec_encode_topic_result(t, v).len() <= s.len(),
        s.subrange(pos, pos + spec_encode_topic_result(t, v).len()) == spec_encode_topic_result(
            t,
            v,
        ),
    ensures
        spec_read_topic_result(s, pos, v) == Ok::<_, Error>(
            (t, pos + spec_encode_topic_result(t, v).len() as int),
        ),
{
    reveal(spec_encode_topic_result);
    reveal(spec_read_topic_result);
    let flexible = spec_produce_flexible(v);
    let enc = spec_encode_topic_result(t, v);
    let c0 = if flexible {
        spec_encode_compact_string(Some(t.name))
    } else {
        spec_encode_nullable_string(Some(t.name))
    };
    let c1 = spec_encode_array_count(t.partitions.len(), flexible);
    let c2 = spec_encode_partition_results(t.partitions, v);
    assert(s.subrange(pos, pos + c0.len() as int) =~= enc.subrange(0, c0.len() as int));
    assert(enc.subrange(0, c0.len() as int) =~= c0);
    if flexible {
        crate::strings::lemma_compact_string_roundtrip(s, pos, Some(t.name));
    } else {
        crate::strings::lemma_nullable_string_roundtrip(s, pos, Some(t.name));
    }
    let p1 = pos + c0.len() as int;
    assert(s.subrange(p1, p1 + c1.len() as int) =~= enc.subrange(
        c0.len() as int,
        c0.len() + c1.len() as int,
    ));
    assert(enc.subrange(c0.len() as int, c0.len() + c1.len() as int) =~= c1);
    crate::arrays::lemma_array_count_roundtrip(s, p1, t.partitions.len(), flexible);
    let p2 = p1 + c1.len() as int;
    assert(s.subrange(p2, p2 + c2.len() as int) =~= enc.subrange(
        c0.len() + c1.len() as int,
        c0.len() + c1.len() + c2.len() as int,
    ));
    assert(enc.subrange(c0.len() + c1.len() as int, c0.len() + c1.len() + c2.len() as int)
        =~= c2);
    lemma_partition_results_roundtrip(s, p2, t.partitions, v);
    let p3 = p2 + c2.len() as int;
    if flexible {
        let c3 = spec_encode_tagged_fields(t.tagged_fields);
        assert(s.subrange(p3, p3 + c3.len() as int) =~= enc.subrange(
            c0.len() + c1.len() + c2.len() as int,
            enc.len() as int,
        ));
        assert(enc.subrange(c0.len() + c1.len() + c2.len() as int, enc.len() as int) =~= c3);
        crate::tagged::lemma_tagged_fields_roundtrip(s, p3, t.tagged_fields);
    } else {
        assert(t.tagged_fields =~= Seq::<(u32, Seq<u8>)>::empty());
        assert(pos + enc.len() == p3);
    }
}

/// Round trip: decoding the encoding of a well-formed produce response at a
/// supported version, with every field's presence matching its gate, returns
/// exactly that response.
#[verifier::rlimit(100)]
#[verifier::spinoff_prover]
pub proof fn lemma_produce_response_roundtrip(s: Seq<u8>, pos: int, r: ProduceResponseView, v: i16)
    requires
        0 <= pos,
        PRODUCE_MIN_VERSION <= v <= PRODUCE_MAX_VERSION,
        spec_produce_response_wf(r, v),
        spec_produce_response_presence_ok(r, v),
        pos + spec_encode_produce_response(r, v).len() <= s.len(),
        s.subrange(pos, pos + spec_encode_produce_response(r, v).len())
            == spec_encode_produce_response(r, v),
    ensures
        spec_read_produce_response(s, pos, v) == Ok::<_, Error>(
            (r, pos + spec_encode_produce_response(r, v).len() as int),
        ),
{
    let flexible = spec_produce_flexible(v);
    let ep = spec_field_present(spec_endpoints_field(), v);
    let enc = spec_encode_produce_response(r, v);
    let c0 = spec_encode_array_count(r.topics.len(), flexible);
    let c1 = spec_encode_topic_results(r.topics, v);
    let c2 = match r.throttle_time {
        Some(x) => spec_i32_to_be_bytes(x),
        None => Seq::<u8>::empty(),
    };
    let c3a = if ep {
        spec_encode_array_count(r.endpoints.len(), flexible)
    } else {
        Seq::<u8>::empty()
    };
    let c3b = if ep {
        spec_encode_node_results(r.endpoints, v)
    } else {
        Seq::<u8>::empty()
    };
    let c4 = if flexible {
        spec_encode_tagged_fields(r.tagged_fields)
    } else {
        Seq::<u8>::empty()
    };
    let r4 = c3b + c4;
    let r3 = c3a + r4;
    let r2 = c2 + r3;
    let r1 = c1 + r2;
    assert(enc == c0 + r1);
    crate::primitives::lemma_concat_placement(s, pos, c0, r1);
    let o1 = pos + c0.len() as int;
    crate::primitives::lemma_concat_placement(s, o1, c1, r2);
    let o2 = o1 + c1.len() as int;
    crate::primitives::lemma_concat_placement(s, o2, c2, r3);
    let o3 = o2 + c2.len() as int;
    crate::primitives::lemma_concat_placement(s, o3, c3a, r4);
    let o4 = o3 + c3a.len() as int;
    crate::primitives::lemma_concat_placement(s, o4, c3b, c4);
    let o5 = o4 + c3b.len() as int;
    crate::arrays::lemma_array_count_roundtrip(s, pos, r.topics.len(), flexible);
    lemma_topic_results_roundtrip(s, o1, r.topics, v);
    match r.throttle_time {
        Some(x) => {
            crate::primitives::lemma_read_i32_be_of_encoding(s, o2, x);
        },
        None => {},
    }
    if ep {
        crate::arrays::lemma_array_count_roundtrip(s, o3, r.endpoints.len(), flexible);
        lemma_node_results_roundtrip(s, o4, r.endpoints, v);
    } else {
        assert(r.endpoints =~= Seq::<NodeResultView>::empty());
    }
    if flexible {
        crate::tagged::lemma_tagged_fields_roundtrip(s, o5, r.tagged_fields);
    } else {
        assert(r.tagged_fields =~= Seq::<(u32, Seq<u8>)>::empty());
    }
    assert(pos + enc.len() == o5 + c4.len());
}


// ---------------------------------------------------------------------------
// Executable form
// ---------------------------------------------------------------------------

fn write_batch_error(out: &mut Vec<u8>, e: &BatchError, version: i16)
    requires
        spec_batch_error_wf(e@, version),
    ensures
        final(out)@ == old(out)@ + spec_encode_batch_error(e@, version),
{
    proof {
        reveal(spec_encode_batch_error);
    }
    let flexible = version >= PRODUCE_FLEXIBLE_FROM;
    write_i32_be(out, e.index);
    if flexible {
        write_compact_string(
            out,
            match &e.message {
                None => None,
                Some(w) => Some(w),
            },
        );
    } else {
        write_nullable_string(
            out,
            match &e.message {
                None => None,
                Some(w) => Some(w),
            },
        );
    }
    if flexible {
        e.tagged_fields.write(out);
    }
    assert(final(out)@ =~= old(out)@ + spec_encode_batch_error(e@, version));
}

fn read_batch_error(buf: &[u8], pos: usize, version: i16) -> (r: Result<
    (BatchError, usize),
    Error,
>)
    ensures
        match r {
            Ok((e, end)) => spec_read_batch_error(buf@, pos as int, version) == Ok::<_, Error>(
                (e@, end as int),
            ),
            Err(x) => spec_read_batch_error(buf@, pos as int, version) == Err::<
                (BatchErrorView, int),
                _,
            >(x),
        },
{
    proof {
        reveal(spec_read_batch_error);
    }
    let flexible = version >= PRODUCE_FLEXIBLE_FROM;
    let (index, p1) = match read_i32_be(buf, pos) {
        Ok(x) => x,
        Err(e) => {
            return Err(e);
        },
    };
    let (message, p2) = if flexible {
        match read_compact_string(buf, p1) {
            Ok(x) => x,
            Err(e) => {
                return Err(e);
            },
        }
    } else {
        match read_nullable_string(buf, p1) {
            Ok(x) => x,
            Err(e) => {
                return Err(e);
            },
        }
    };
    if flexible {
        match TaggedFields::read(buf, p2) {
            Ok((tagged_fields, end)) => Ok((BatchError { index, message, tagged_fields }, end)),
            Err(e) => Err(e),
        }
    } else {
        let e = BatchError { index, message, tagged_fields: TaggedFields::empty() };
        proof {
            assert(e@.tagged_fields =~= Seq::<(u32, Seq<u8>)>::empty());
        }
        Ok((e, p2))
    }
}

fn write_node_result(out: &mut Vec<u8>, n: &NodeResult, version: i16)
    requires
        spec_node_result_wf(n@, version),
    ensures
        final(out)@ == old(out)@ + spec_encode_node_result(n@, version),
{
    proof {
        reveal(spec_encode_node_result);
    }
    let flexible = version >= PRODUCE_FLEXIBLE_FROM;
    write_i32_be(out, n.id);
    if flexible {
        write_compact_string(out, Some(&n.hostname));
    } else {
        write_nullable_string(out, Some(&n.hostname));
    }
    write_i32_be(out, n.port);
    if flexible {
        write_compact_string(
            out,
            match &n.rack {
                None => None,
                Some(w) => Some(w),
            },
        );
    } else {
        write_nullable_string(
            out,
            match &n.rack {
                None => None,
                Some(w) => Some(w),
            },
        );
    }
    assert(final(out)@ =~= old(out)@ + spec_encode_node_result(n@, version));
}

fn read_node_result(buf: &[u8], pos: usize, version: i16) -> (r: Result<(NodeResult, usize), Error>)
    ensures
        match r {
            Ok((n, end)) => spec_read_node_result(buf@, pos as int, version) == Ok::<_, Error>(
                (n@, end as int),
            ),
            Err(x) => spec_read_node_result(buf@, pos as int, version) == Err::<
                (NodeResultView, int),
                _,
            >(x),
        },
{
    proof {
        reveal(spec_read_node_result);
    }
    let flexible = version >= PRODUCE_FLEXIBLE_FROM;
    let (id, p1) = match read_i32_be(buf, pos) {
        Ok(x) => x,
        Err(e) => {
            return Err(e);
        },
    };
    let (h, p2) = if flexible {
        match read_compact_string(buf, p1) {
            Ok(x) => x,
            Err(e) => {
                return Err(e);
            },
        }
    } else {
        match read_nullable_string(buf, p1) {
            Ok(x) => x,
            Err(e) => {
                return Err(e);
            },
        }
    };
    let hostname = match h {
        None => {
            return Err(Error::Truncated);
        },
        Some(w) => w,
    };
    let (port, p3) = match read_i32_be(buf, p2) {
        Ok(x) => x,
        Err(e) => {
            return Err(e);
        },
    };
    let (rack, end) = if flexible {
        match read_compact_string(buf, p3) {
            Ok(x) => x,
            Err(e) => {
                return Err(e);
            },
        }
    } else {
        match read_nullable_string(buf, p3) {
            Ok(x) => x,
            Err(e) => {
                return Err(e);
            },
        }
    };
    Ok((NodeResult { id, hostname, port, rack }, end))
}

#[verifier::rlimit(100)]
#[verifier::spinoff_prover]
fn write_partition_result_tail(out: &mut Vec<u8>, p: &PartitionProduceResult, version: i16)
    requires
        spec_partition_result_wf(p@, version),
        spec_partition_result_presence_ok(p@, version),
    ensures
        final(out)@ == old(out)@ + spec_partition_result_tail_enc(p@, version),
{
    proof {
        reveal(spec_partition_result_tail_enc);
    }
    let flexible = version >= PRODUCE_FLEXIBLE_FROM;
    let re_gate = VersionedField { min_version: Some(8), max_version: None };
    if re_gate.present(version) {
        let n = p.record_errors.len();
        proof {
            assert(p@.record_errors.len() == n);
            assert(forall|k: int| 0 <= k < p.record_errors@.len()
                ==> #[trigger] p.record_errors@[k]@ == p@.record_errors[k]);
        }
        write_array_count(out, n, flexible);
        let ghost base = out@;
        let ghost ev = p@.record_errors;
        assert(out@ =~= base + spec_encode_batch_errors(ev.take(0), version));
        let mut i: usize = 0;
        while i < n
            invariant
                i <= n,
                n == p.record_errors@.len(),
                ev == p@.record_errors,
                spec_partition_result_wf(p@, version),
                out@ == base + spec_encode_batch_errors(ev.take(i as int), version),
            decreases n - i,
        {
            proof {
                assert(ev[i as int] == p.record_errors@[i as int]@);
                assert(spec_batch_error_wf(ev[i as int], version));
            }
            write_batch_error(out, &p.record_errors[i], version);
            proof {
                assert(ev.take(i + 1) =~= ev.take(i as int) + seq![ev[i as int]]);
                lemma_encode_batch_errors_app(ev.take(i as int), seq![ev[i as int]], version);
                assert(seq![ev[i as int]].skip(1) =~= Seq::<BatchErrorView>::empty());
                assert(spec_encode_batch_errors(seq![ev[i as int]], version)
                    =~= spec_encode_batch_error(seq![ev[i as int]][0], version)
                    + spec_encode_batch_errors(seq![ev[i as int]].skip(1), version));
                assert(out@ =~= base + spec_encode_batch_errors(ev.take(i + 1), version));
            }
            i = i + 1;
        }
        proof {
            assert(ev.take(n as int) =~= ev);
        }
    }
    let em_gate = VersionedField { min_version: Some(8), max_version: None };
    if em_gate.present(version) {
        if flexible {
            write_compact_string(
                out,
                match &p.error_message {
                    None => None,
                    Some(w) => Some(w),
                },
            );
        } else {
            write_nullable_string(
                out,
                match &p.error_message {
                    None => None,
                    Some(w) => Some(w),
                },
            );
        }
    }
    match &p.current_leader {
        None => {},
        Some(c) => {
            write_sentinel_i32(out, c.id);
            write_sentinel_i32(out, c.epoch);
        },
    }
    if flexible {
        p.tagged_fields.write(out);
    }
    assert(final(out)@ =~= old(out)@ + spec_partition_result_tail_enc(p@, version));
}

#[verifier::rlimit(100)]
#[verifier::spinoff_prover]
fn write_partition_result(out: &mut Vec<u8>, p: &PartitionProduceResult, version: i16)
    requires
        spec_partition_result_wf(p@, version),
        spec_partition_result_presence_ok(p@, version),
    ensures
        final(out)@ == old(out)@ + spec_encode_partition_result(p@, version),
{
    proof {
        reveal(spec_encode_partition_result);
    }
    write_i32_be(out, p.index);
    let ec: i16 = match &p.error_code {
        None => 0,
        Some(c) => c.code() as i16,
    };
    write_i16_be(out, ec);
    write_i64_be(out, p.base_offset);
    let lat_gate = VersionedField { min_version: Some(2), max_version: None };
    if lat_gate.present(version) {
        write_sentinel_i64(out, p.log_append_time);
    }
    let lso_gate = VersionedField { min_version: Some(5), max_version: None };
    if lso_gate.present(version) {
        write_sentinel_i64(out, p.log_start_offset);
    }
    write_partition_result_tail(out, p, version);
    proof {
        match p@.error_code {
            None => {},
            Some(c) => {
                crate::status::lemma_status_code_range(c);
            },
        }
        assert(final(out)@ =~= old(out)@ + spec_encode_partition_result(p@, version));
    }
}

fn read_partition_result(buf: &[u8], pos: usize, version: i16) -> (r: Result<
    (PartitionProduceResult, usize),
    Error,
>)
    ensures
        match r {
            Ok((p, end)) => spec_read_partition_result(buf@, pos as int, version) == Ok::<
                _,
                Error,
            >((p@, end as int)),
            Err(x) => spec_read_partition_result(buf@, pos as int, version) == Err::<
                (PartitionResultView, int),
                _,
            >(x),
        },
{
    proof {
        reveal(spec_read_partition_result);
    }
    let flexible = version >= PRODUCE_FLEXIBLE_FROM;
    let (index, p1) = match read_i32_be(buf, pos) {
        Ok(x) => x,
        Err(e) => {
            return Err(e);
        },
    };
    let (ec_raw, p2) = match read_i16_be(buf, p1) {
        Ok(x) => x,
        Err(e) => {
            return Err(e);
        },
    };
    let error_code = match ErrorCode::parse(ec_raw as i32) {
        Ok(o) => o,
        Err(e) => {
            return Err(e);
        },
    };
    let (base_offset, p3) = match read_i64_be(buf, p2) {
        Ok(x) => x,
        Err(e) => {
            return Err(e);
        },
    };
    let lat_gate = VersionedField { min_version: Some(2), max_version: None };
    let (log_append_time, p4) = if lat_gate.present(version) {
        match read_sentinel_i64(buf, p3) {
            Ok(x) => x,
            Err(e) => {
                return Err(e);
            },
        }
    } else {
        (None, p3)
    };
    let lso_gate = VersionedField { min_version: Some(5), max_version: None };
    let (log_start_offset, p5) = if lso_gate.present(version) {
        match read_sentinel_i64(buf, p4) {
            Ok(x) => x,
            Err(e) => {
                return Err(e);
            },
        }
    } else {
        (None, p4)
    };
    let re_gate = VersionedField { min_version: Some(8), max_version: None };
    let (record_errors, p6) = if re_gate.present(version) {
        let (count, pa) = match read_array_count(buf, p5, flexible) {
            Ok(x) => x,
            Err(e) => {
                return Err(e);
            },
        };
        match read_batch_errors(buf, pa, count, version) {
            Ok(x) => x,
            Err(e) => {
                return Err(e);
            },
        }
    } else {
        let empty_errors: Vec<BatchError> = Vec::new();
        proof {
            assert(empty_errors@.map_values(|x: BatchError| x@) =~= Seq::<
                BatchErrorView,
            >::empty());
        }
        (empty_errors, p5)
    };
    let em_gate = VersionedField { min_version: Some(8), max_version: None };
    let (error_message, p7) = if em_gate.present(version) {
        if flexible {
            match read_compact_string(buf, p6) {
                Ok(x) => x,
                Err(e) => {
                    return Err(e);
                },
            }
        } else {
            match read_nullable_string(buf, p6) {
                Ok(x) => x,
                Err(e) => {
                    return Err(e);
                },
            }
        }
    } else {
        (None, p6)
    };
    let cl_gate = VersionedField { min_version: Some(10), max_version: None };
    let (current_leader, p8) = if cl_gate.present(version) {
        let (id, pa) = match read_sentinel_i32(buf, p7) {
            Ok(x) => x,
            Err(e) => {
                return Err(e);
            },
        };
        let (epoch, pb) = match read_sentinel_i32(buf, pa) {
            Ok(x) => x,
            Err(e) => {
                return Err(e);
            },
        };
        (Some(CurrentLeaderResult { id, epoch }), pb)
    } else {
        (None, p7)
    };
    if flexible {
        match TaggedFields::read(buf, p8) {
            Ok((tagged_fields, end)) => Ok(
                (
                    PartitionProduceResult {
                        index,
                        error_code,
                        base_offset,
                        log_append_time,
                        log_start_offset,
                        record_errors,
                        error_message,
                        current_leader,
                        tagged_fields,
                    },
                    end,
                ),
            ),
            Err(e) => Err(e),
        }
    } else {
        let p = PartitionProduceResult {
            index,
            error_code,
            base_offset,
            log_append_time,
            log_start_offset,
            record_errors,
            error_message,
            current_leader,
            tagged_fields: TaggedFields::empty(),
        };
        proof {
            assert(p@.tagged_fields =~= Seq::<(u32, Seq<u8>)>::empty());
        }
        Ok((p, p8))
    }
}

fn write_topic_result(out: &mut Vec<u8>, t: &TopicProduceResult, version: i16)
    requires
        spec_topic_result_wf(t@, version),
        spec_topic_result_presence_ok(t@, version),
    ensures
        final(out)@ == old(out)@ + spec_encode_topic_result(t@, version),
{
    proof {
        reveal(spec_encode_topic_result);
    }
    let flexible = version >= PRODUCE_FLEXIBLE_FROM;
    if flexible {
        write_compact_string(out, Some(&t.name));
    } else {
        write_nullable_string(out, Some(&t.name));
    }
    let n = t.partitions.len();
    proof {
        assert(t@.partitions.len() == n);
        assert(forall|k: int| 0 <= k < t.partitions@.len() ==> #[trigger] t.partitions@[k]@
            == t@.partitions[k]);
    }
    write_array_count(out, n, flexible);
    let ghost base = out@;
    let ghost pv = t@.partitions;
    assert(out@ =~= base + spec_encode_partition_results(pv.take(0), version));
    let mut i: usize = 0;
    while i < n
        invariant
            i <= n,
            n == t.partitions@.len(),
            pv == t@.partitions,
            spec_topic_result_wf(t@, version),
            spec_topic_result_presence_ok(t@, version),
            out@ == base + spec_encode_partition_results(pv.take(i as int), version),
        decreases n - i,
    {
        proof {
            assert(pv[i as int] == t.partitions@[i as int]@);
            assert(spec_partition_result_wf(pv[i as int], version));
            assert(spec_partition_result_presence_ok(pv[i as int], version));
        }
        write_partition_result(out, &t.partitions[i], version);
        proof {
            assert(pv.take(i + 1) =~= pv.take(i as int) + seq![pv[i as int]]);
            lemma_encode_partition_results_app(pv.take(i as int), seq![pv[i as int]], version);
            assert(seq![pv[i as int]].skip(1) =~= Seq::<PartitionResultView>::empty());
            assert(spec_encode_partition_results(seq![pv[i as int]], version)
                =~= spec_encode_partition_result(seq![pv[i as int]][0], version)
                + spec_encode_partition_results(seq![pv[i as int]].skip(1), version));
            assert(out@ =~= base + spec_encode_partition_results(pv.take(i + 1), version));
        }
        i = i + 1;
    }
    proof {
        assert(pv.take(n as int) =~= pv);
    }
    if flexible {
        t.tagged_fields.write(out);
    }
    assert(final(out)@ =~= old(out)@ + spec_encode_topic_result(t@, version));
}

fn read_topic_result(buf: &[u8], pos: usize, version: i16) -> (r: Result<
    (TopicProduceResult, usize),
    Error,
>)
    ensures
        match r {
            Ok((t, end)) => spec_read_topic_result(buf@, pos as int, version) == Ok::<_, Error>(
                (t@, end as int),
            ),
            Err(x) => spec_read_topic_result(buf@, pos as int, version) == Err::<
                (TopicResultView, int),
                _,
            >(x),
        },
{
    proof {
        reveal(spec_read_topic_result);
    }
    let flexible = version >= PRODUCE_FLEXIBLE_FROM;
    let (n, p1) = if flexible {
        match read_compact_string(buf, pos) {
            Ok(x) => x,
            Err(e) => {
                return Err(e);
            },
        }
    } else {
        match read_nullable_string(buf, pos) {
            Ok(x) => x,
            Err(e) => {
                return Err(e);
            },
        }
    };
    let name = match n {
        None => {
            return Err(Error::Truncated);
        },
        Some(w) => w,
    };
    let (count, p2) = match read_array_count(buf, p1, flexible) {
        Ok(x) => x,
        Err(e) => {
            return Err(e);
        },
    };
    let (partitions, p3) = match read_partition_results(buf, p2, count, version) {
        Ok(x) => x,
        Err(e) => {
            return Err(e);
        },
    };
    if flexible {
        match TaggedFields::read(buf, p3) {
            Ok((tagged_fields, end)) => Ok(
                (TopicProduceResult { name, partitions, tagged_fields }, end),
            ),
            Err(e) => Err(e),
        }
    } else {
        let t = TopicProduceResult { name, partitions, tagged_fields: TaggedFields::empty() };
        proof {
            assert(t@.tagged_fields =~= Seq::<(u32, Seq<u8>)>::empty());
        }
        Ok((t, p3))
    }
}

fn read_batch_errors(buf: &[u8], pos: usize, count: u32, version: i16) -> (r: Result<
    (Vec<BatchError>, usize),
    Error,
>)
    ensures
        match r {
            Ok((v, end)) => spec_read_batch_errors(buf@, pos as int, count as nat, version) == Ok::<
                _,
                Error,
            >((v@.map_values(|x: BatchError| x@), end as int)),
            Err(e) => spec_read_batch_errors(buf@, pos as int, count as nat, version) == Err::<
                (Seq<BatchErrorView>, int),
                _,
            >(e),
        },
{
    let ghost s = buf@;
    let mut acc: Vec<BatchError> = Vec::new();
    let mut cur: usize = pos;
    let mut i: u32 = 0;
    proof {
        assert(acc@.map_values(|x: BatchError| x@) =~= Seq::<BatchErrorView>::empty());
        match spec_read_batch_errors(s, pos as int, count as nat, version) {
            Ok((rest, end)) => {
                assert(Seq::<BatchErrorView>::empty() + rest =~= rest);
            },
            Err(_) => {},
        }
    }
    loop
        invariant
            i <= count,
            s == buf@,
            spec_read_batch_errors(s, pos as int, count as nat, version) == (match spec_read_batch_errors(
                s,
                cur as int,
                (count - i) as nat,
                version,
            ) {
                Ok((rest, end)) => Ok::<_, Error>((acc@.map_values(|x: BatchError| x@) + rest, end)),
                Err(e) => Err(e),
            }),
        ensures
            i == count,
            spec_read_batch_errors(s, pos as int, count as nat, version) == Ok::<_, Error>(
                (acc@.map_values(|x: BatchError| x@), cur as int),
            ),
        decreases count - i,
    {
        let ghost acc_v = acc@.map_values(|x: BatchError| x@);
        if i >= count {
            proof {
                assert(spec_read_batch_errors(s, cur as int, 0, version) == Ok::<_, Error>(
                    (Seq::<BatchErrorView>::empty(), cur as int),
                ));
                assert(acc_v + Seq::<BatchErrorView>::empty() =~= acc_v);
            }
            break ;
        }
        let ghost remaining = (count - i) as nat;
        match read_batch_error(buf, cur, version) {
            Ok((x, np)) => {
                proof {
                    assert(acc@.push(x).map_values(|g: BatchError| g@) =~= acc_v + seq![x@]);
                    match spec_read_batch_errors(s, np as int, (remaining - 1) as nat, version) {
                        Ok((rest, end)) => {
                            assert((acc_v + seq![x@]) + rest =~= acc_v + (seq![x@] + rest));
                        },
                        Err(_) => {},
                    }
                }
                acc.push(x);
                cur = np;
                i = i + 1;
            },
            Err(e) => {
                proof {
                    assert(spec_read_batch_errors(s, cur as int, remaining, version) == Err::<
                        (Seq<BatchErrorView>, int),
                        _,
                    >(e));
                }
                return Err(e);
            },
        }
    }
    Ok((acc, cur))
}


fn read_node_results(buf: &[u8], pos: usize, count: u32, version: i16) -> (r: Result<
    (Vec<NodeResult>, usize),
    Error,
>)
    ensures
        match r {
            Ok((v, end)) => spec_read_node_results(buf@, pos as int, count as nat, version) == Ok::<
                _,
                Error,
            >((v@.map_values(|x: NodeResult| x@), end as int)),
            Err(e) => spec_read_node_results(buf@, pos as int, count as nat, version) == Err::<
                (Seq<NodeResultView>, int),
                _,
            >(e),
        },
{
    let ghost s = buf@;
    let mut acc: Vec<NodeResult> = Vec::new();
    let mut cur: usize = pos;
    let mut i: u32 = 0;
    proof {
        assert(acc@.map_values(|x: NodeResult| x@) =~= Seq::<NodeResultView>::empty());
        match spec_read_node_results(s, pos as int, count as nat, version) {
            Ok((rest, end)) => {
                assert(Seq::<NodeResultView>::empty() + rest =~= rest);
            },
            Err(_) => {},
        }
    }
    loop
        invariant
            i <= count,
            s == buf@,
            spec_read_node_results(s, pos as int, count as nat, version) == (match spec_read_node_results(
                s,
                cur as int,
                (count - i) as nat,
                version,
            ) {
                Ok((rest, end)) => Ok::<_, Error>((acc@.map_values(|x: NodeResult| x@) + rest, end)),
                Err(e) => Err(e),
            }),
        ensures
            i == count,
            spec_read_node_results(s, pos as int, count as nat, version) == Ok::<_, Error>(
                (acc@.map_values(|x: NodeResult| x@), cur as int),
            ),
        decreases count - i,
    {
        let ghost acc_v = acc@.map_values(|x: NodeResult| x@);
        if i >= count {
            proof {
                assert(spec_read_node_results(s, cur as int, 0, version) == Ok::<_, Error>(
                    (Seq::<NodeResultView>::empty(), cur as int),
                ));
                assert(acc_v + Seq::<NodeResultView>::empty() =~= acc_v);
            }
            break ;
        }
        let ghost remaining = (count - i) as nat;
        match read_node_result(buf, cur, version) {
            Ok((x, np)) => {
                proof {
                    assert(acc@.push(x).map_values(|g: NodeResult| g@) =~= acc_v + seq![x@]);
                    match spec_read_node_results(s, np as int, (remaining - 1) as nat, version) {
                        Ok((rest, end)) => {
                            assert((acc_v + seq![x@]) + rest =~= acc_v + (seq![x@] + rest));
                        },
                        Err(_) => {},
                    }
                }
                acc.push(x);
                cur = np;
                i = i + 1;
            },
            Err(e) => {
                proof {
                    assert(spec_read_node_results(s, cur as int, remaining, version) == Err::<
                        (Seq<NodeResultView>, int),
                        _,
                    >(e));
                }
                return Err(e);
            },
        }
    }
    Ok((acc, cur))
}


fn read_partition_results(buf: &[u8], pos: usize, count: u32, version: i16) -> (r: Result<
    (Vec<PartitionProduceResult>, usize),
    Error,
>)
    ensures
        match r {
            Ok((v, end)) => spec_read_partition_results(buf@, pos as int, count as nat, version) == Ok::<
                _,
                Error,
            >((v@.map_values(|x: PartitionProduceResult| x@), end as int)),
            Err(e) => spec_read_partition_results(buf@, pos as int, count as nat, version) == Err::<
                (Seq<PartitionResultView>, int),
                _,
            >(e),
        },
{
    let ghost s = buf@;
    let mut acc: Vec<PartitionProduceResult> = Vec::new();
    let mut cur: usize = pos;
    let mut i: u32 = 0;
    proof {
        assert(acc@.map_values(|x: PartitionProduceResult| x@) =~= Seq::<PartitionResultView>::empty());
        match spec_read_partition_results(s, pos as int, count as nat, version) {
            Ok((rest, end)) => {
                assert(Seq::<PartitionResultView>::empty() + rest =~= rest);
            },
            Err(_) => {},
        }
    }
    loop
        invariant
            i <= count,
            s == buf@,
            spec_read_partition_results(s, pos as int, count as nat, version) == (match spec_read_partition_results(
                s,
                cur as int,
                (count - i) as nat,
                version,
            ) {
                Ok((rest, end)) => Ok::<_, Error>((acc@.map_values(|x: PartitionProduceResult| x@) + rest, end)),
                Err(e) => Err(e),
            }),
        ensures
            i == count,
            spec_read_partition_results(s, pos as int, count as nat, version) == Ok::<_, Error>(
                (acc@.map_values(|x: PartitionProduceResult| x@), cur as int),
            ),
        decreases count - i,
    {
        let ghost acc_v = acc@.map_values(|x: PartitionProduceResult| x@);
        if i >= count {
            proof {
                assert(spec_read_partition_results(s, cur as int, 0, version) == Ok::<_, Error>(
                    (Seq::<PartitionResultView>::empty(), cur as int),
                ));
                assert(acc_v + Seq::<PartitionResultView>::empty() =~= acc_v);
            }
            break ;
        }
        let ghost remaining = (count - i) as nat;
        match read_partition_result(buf, cur, version) {
            Ok((x, np)) => {
                proof {
                    assert(acc@.push(x).map_values(|g: PartitionProduceResult| g@) =~= acc_v + seq![x@]);
                    match spec_read_partition_results(s, np as int, (remaining - 1) as nat, version) {
                        Ok((rest, end)) => {
                            assert((acc_v + seq![x@]) + rest =~= acc_v + (seq![x@] + rest));
                        },
                        Err(_) => {},
                    }
                }
                acc.push(x);
                cur = np;
                i = i + 1;
            },
            Err(e) => {
                proof {
                    assert(spec_read_partition_results(s, cur as int, remaining, version) == Err::<
                        (Seq<PartitionResultView>, int),
                        _,
                    >(e));
                }
                return Err(e);
            },
        }
    }
    Ok((acc, cur))
}


fn read_topic_results(buf: &[u8], pos: usize, count: u32, version: i16) -> (r: Result<
    (Vec<TopicProduceResult>, usize),
    Error,
>)
    ensures
        match r {
            Ok((v, end)) => spec_read_topic_results(buf@, pos as int, count as nat, version) == Ok::<
                _,
                Error,
            >((v@.map_values(|x: TopicProduceResult| x@), end as int)),
            Err(e) => spec_read_topic_results(buf@, pos as int, count as nat, version) == Err::<
                (Seq<TopicResultView>, int),
                _,
            >(e),
        },
{
    let ghost s = buf@;
    let mut acc: Vec<TopicProduceResult> = Vec::new();
    let mut cur: usize = pos;
    let mut i: u32 = 0;
    proof {
        assert(acc@.map_values(|x: TopicProduceResult| x@) =~= Seq::<TopicResultView>::empty());
        match spec_read_topic_results(s, pos as int, count as nat, version) {
            Ok((rest, end)) => {
                assert(Seq::<TopicResultView>::empty() + rest =~= rest);
            },
            Err(_) => {},
        }
    }
    loop
        invariant
            i <= count,
            s == buf@,
            spec_read_topic_results(s, pos as int, count as nat, version) == (match spec_read_topic_results(
                s,
                cur as int,
                (count - i) as nat,
                version,
            ) {
                Ok((rest, end)) => Ok::<_, Error>((acc@.map_values(|x: TopicProduceResult| x@) + rest, end)),
                Err(e) => Err(e),
            }),
        ensures
            i == count,
            spec_read_topic_results(s, pos as int, count as nat, version) == Ok::<_, Error>(
                (acc@.map_values(|x: TopicProduceResult| x@), cur as int),
            ),
        decreases count - i,
    {
        let ghost acc_v = acc@.map_values(|x: TopicProduceResult| x@);
        if i >= count {
            proof {
                assert(spec_read_topic_results(s, cur as int, 0, version) == Ok::<_, Error>(
                    (Seq::<TopicResultView>::empty(), cur as int),
                ));
                assert(acc_v + Seq::<TopicResultView>::empty() =~= acc_v);
            }
            break ;
        }
        let ghost remaining = (count - i) as nat;
        match read_topic_result(buf, cur, version) {
            Ok((x, np)) => {
                proof {
                    assert(acc@.push(x).map_values(|g: TopicProduceResult| g@) =~= acc_v + seq![x@]);
                    match spec_read_topic_results(s, np as int, (remaining - 1) as nat, version) {
                        Ok((rest, end)) => {
                            assert((acc_v + seq![x@]) + rest =~= acc_v + (seq![x@] + rest));
                        },
                        Err(_) => {},
                    }
                }
                acc.push(x);
                cur = np;
                i = i + 1;
            },
            Err(e) => {
                proof {
                    assert(spec_read_topic_results(s, cur as int, remaining, version) == Err::<
                        (Seq<TopicResultView>, int),
                        _,
                    >(e));
                }
                return Err(e);
            },
        }
    }
    Ok((acc, cur))
}


fn check_partition_presence(p: &PartitionProduceResult, version: i16) -> (r: bool)
    ensures
        r == spec_partition_result_presence_ok(p@, version),
{
    let lat_gate = VersionedField { min_version: Some(2), max_version: None };
    let lso_gate = VersionedField { min_version: Some(5), max_version: None };
    let re_gate = VersionedField { min_version: Some(8), max_version: None };
    let em_gate = VersionedField { min_version: Some(8), max_version: None };
    let cl_gate = VersionedField { min_version: Some(10), max_version: None };
    let r1 = lat_gate.present(version) || p.log_append_time.is_none();
    let r2 = lso_gate.present(version) || p.log_start_offset.is_none();
    let r3 = re_gate.present(version) || p.record_errors.len() == 0;
    let r4 = em_gate.present(version) || p.error_message.is_none();
    let r5 = cl_gate.present(version) == p.current_leader.is_some();
    proof {
        assert(p@.record_errors.len() == p.record_errors@.len());
    }
    r1 && r2 && r3 && r4 && r5
}

fn check_topic_presence(t: &TopicProduceResult, version: i16) -> (r: bool)
    ensures
        r == spec_topic_result_presence_ok(t@, version),
{
    let n = t.partitions.len();
    proof {
        assert(t@.partitions.len() == n);
        assert(forall|k: int| 0 <= k < t.partitions@.len() ==> #[trigger] t.partitions@[k]@
            == t@.partitions[k]);
    }
    let mut i: usize = 0;
    while i < n
        invariant
            i <= n,
            n == t.partitions@.len(),
            forall|k: int| 0 <= k < t.partitions@.len() ==> #[trigger] t.partitions@[k]@
                == t@.partitions[k],
            forall|k: int| 0 <= k < i ==> spec_partition_result_presence_ok(
                #[trigger] t@.partitions[k],
                version,
            ),
        decreases n - i,
    {
        if !check_partition_presence(&t.partitions[i], version) {
            proof {
                assert(!spec_partition_result_presence_ok(t@.partitions[i as int], version));
            }
            return false;
        }
        i = i + 1;
    }
    true
}

fn check_response_presence(resp: &ProduceResponse, version: i16) -> (r: bool)
    ensures
        r == spec_produce_response_presence_ok(resp@, version),
{
    let tt_gate = VersionedField { min_version: Some(1), max_version: None };
    let ep_gate = VersionedField { min_version: Some(10), max_version: None };
    if tt_gate.present(version) != resp.throttle_time.is_some() {
        return false;
    }
    if !ep_gate.present(version) && resp.endpoints.len() != 0 {
        proof {
            assert(resp@.endpoints.len() == resp.endpoints@.len());
        }
        return false;
    }
    proof {
        assert(resp@.endpoints.len() == resp.endpoints@.len());
    }
    let n = resp.topics.len();
    proof {
        assert(resp@.topics.len() == n);
        assert(forall|k: int| 0 <= k < resp.topics@.len() ==> #[trigger] resp.topics@[k]@
            == resp@.topics[k]);
    }
    let mut i: usize = 0;
    while i < n
        invariant
            i <= n,
            n == resp.topics@.len(),
            forall|k: int| 0 <= k < resp.topics@.len() ==> #[trigger] resp.topics@[k]@
                == resp@.topics[k],
            forall|k: int| 0 <= k < i ==> spec_topic_result_presence_ok(
                #[trigger] resp@.topics[k],
                version,
            ),
            spec_field_present(spec_throttle_time_field(), version) <==> resp@.throttle_time
                is Some,
            !spec_field_present(spec_endpoints_field(), version) ==> resp@.endpoints.len() == 0,
        decreases n - i,
    {
        if !check_topic_presence(&resp.topics[i], version) {
            proof {
                assert(!spec_topic_result_presence_ok(resp@.topics[i as int], version));
            }
            return false;
        }
        i = i + 1;
    }
    true
}

impl ProduceResponse {
    /// Serializes the response body at `version`. Success is owed exactly
    /// when the version is in the registry's supported range and each field's
    /// presence matches its version gate: a version out of range fails with
    /// `UnsupportedVersion`; a value supplied for a field the version cannot
    /// carry, or a missing value for one it owes, fails fast with
    /// `FieldVersionMismatch`.
    #[verifier::rlimit(100)]
    #[verifier::spinoff_prover]
    pub fn encode(&self, version: i16) -> (r: Result<Vec<u8>, Error>)
        requires
            spec_produce_response_wf(self@, version),
        ensures
            match r {
                Ok(bytes) => PRODUCE_MIN_VERSION <= version <= PRODUCE_MAX_VERSION
                    && spec_produce_response_presence_ok(self@, version) && bytes@
                    == spec_encode_produce_response(self@, version),
                Err(e) => (e == Error::UnsupportedVersion(version) && !(PRODUCE_MIN_VERSION
                    <= version <= PRODUCE_MAX_VERSION)) || (e == Error::FieldVersionMismatch
                    && PRODUCE_MIN_VERSION <= version <= PRODUCE_MAX_VERSION
                    && !spec_produce_response_presence_ok(self@, version)),
            },
    {
        if !(PRODUCE_MIN_VERSION <= version && version <= PRODUCE_MAX_VERSION) {
            return Err(Error::UnsupportedVersion(version));
        }
        if !check_response_presence(self, version) {
            return Err(Error::FieldVersionMismatch);
        }
        let flexible = version >= PRODUCE_FLEXIBLE_FROM;
        let mut out: Vec<u8> = Vec::new();
        let n = self.topics.len();
        proof {
            assert(self@.topics.len() == n);
            assert(forall|k: int| 0 <= k < self.topics@.len() ==> #[trigger] self.topics@[k]@
                == self@.topics[k]);
        }
        write_array_count(&mut out, n, flexible);
        let ghost base = out@;
        let ghost tv = self@.topics;
        assert(out@ =~= base + spec_encode_topic_results(tv.take(0), version));
        let mut i: usize = 0;
        while i < n
            invariant
                i <= n,
                n == self.topics@.len(),
                tv == self@.topics,
                spec_produce_response_wf(self@, version),
                spec_produce_response_presence_ok(self@, version),
                out@ == base + spec_encode_topic_results(tv.take(i as int), version),
            decreases n - i,
        {
            proof {
                assert(tv[i as int] == self.topics@[i as int]@);
                assert(spec_topic_result_wf(tv[i as int], version));
                assert(spec_topic_result_presence_ok(tv[i as int], version));
            }
            write_topic_result(&mut out, &self.topics[i], version);
            proof {
                assert(tv.take(i + 1) =~= tv.take(i as int) + seq![tv[i as int]]);
                lemma_encode_topic_results_app(tv.take(i as int), seq![tv[i as int]], version);
                assert(seq![tv[i as int]].skip(1) =~= Seq::<TopicResultView>::empty());
                assert(spec_encode_topic_results(seq![tv[i as int]], version)
                    =~= spec_encode_topic_result(seq![tv[i as int]][0], version)
                    + spec_encode_topic_results(seq![tv[i as int]].skip(1), version));
                assert(out@ =~= base + spec_encode_topic_results(tv.take(i + 1), version));
            }
            i = i + 1;
        }
        proof {
            assert(tv.take(n as int) =~= tv);
        }
        match self.throttle_time {
            Some(x) => write_i32_be(&mut out, x),
            None => {},
        }
        let ep_gate = VersionedField { min_version: Some(10), max_version: None };
        if ep_gate.present(version) {
            let m = self.endpoints.len();
            proof {
                assert(self@.endpoints.len() == m);
                assert(forall|k: int| 0 <= k < self.endpoints@.len()
                    ==> #[trigger] self.endpoints@[k]@ == self@.endpoints[k]);
            }
            write_array_count(&mut out, m, flexible);
            let ghost base2 = out@;
            let ghost nv = self@.endpoints;
            assert(out@ =~= base2 + spec_encode_node_results(nv.take(0), version));
            let mut j: usize = 0;
            while j < m
                invariant
                    j <= m,
                    m == self.endpoints@.len(),
                    nv == self@.endpoints,
                    spec_produce_response_wf(self@, version),
                    out@ == base2 + spec_encode_node_results(nv.take(j as int), version),
                decreases m - j,
            {
                proof {
                    assert(nv[j as int] == self.endpoints@[j as int]@);
                    assert(spec_node_result_wf(nv[j as int], version));
                }
                write_node_result(&mut out, &self.endpoints[j], version);
                proof {
                    assert(nv.take(j + 1) =~= nv.take(j as int) + seq![nv[j as int]]);
                    lemma_encode_node_results_app(nv.take(j as int), seq![nv[j as int]], version);
                    assert(seq![nv[j as int]].skip(1) =~= Seq::<NodeResultView>::empty());
                    assert(spec_encode_node_results(seq![nv[j as int]], version)
                        =~= spec_encode_node_result(seq![nv[j as int]][0], version)
                        + spec_encode_node_results(seq![nv[j as int]].skip(1), version));
                    assert(out@ =~= base2 + spec_encode_node_results(nv.take(j + 1), version));
                }
                j = j + 1;
            }
            proof {
                assert(nv.take(m as int) =~= nv);
            }
        }
        if flexible {
            self.tagged_fields.write(&mut out);
        }
        proof {
            assert(out@ =~= spec_encode_produce_response(self@, version));
        }
        Ok(out)
    }

    /// Reads a response body at `version`.
    pub fn decode(buf: &[u8], pos: usize, version: i16) -> (r: Result<
        (ProduceResponse, usize),
        Error,
    >)
        ensures
            match r {
                Ok((resp, end)) => spec_read_produce_response(buf@, pos as int, version) == Ok::<
                    _,
                    Error,
                >((resp@, end as int)),
                Err(e) => spec_read_produce_response(buf@, pos as int, version) == Err::<
                    (ProduceResponseView, int),
                    _,
                >(e),
            },
    {
        if !(PRODUCE_MIN_VERSION <= version && version <= PRODUCE_MAX_VERSION) {
            return Err(Error::UnsupportedVersion(version));
        }
        let flexible = version >= PRODUCE_FLEXIBLE_FROM;
        let (count, p1) = match read_array_count(buf, pos, flexible) {
            Ok(x) => x,
            Err(e) => {
                return Err(e);
            },
        };
        let (topics, p2) = match read_topic_results(buf, p1, count, version) {
            Ok(x) => x,
            Err(e) => {
                return Err(e);
            },
        };
        let tt_gate = VersionedField { min_version: Some(1), max_version: None };
        let (throttle_time, p3) = if tt_gate.present(version) {
            match read_i32_be(buf, p2) {
                Ok((x, p)) => (Some(x), p),
                Err(e) => {
                    return Err(e);
                },
            }
        } else {
            (None, p2)
        };
        let ep_gate = VersionedField { min_version: Some(10), max_version: None };
        let (endpoints, p5) = if ep_gate.present(version) {
            let (ecount, p4) = match read_array_count(buf, p3, flexible) {
                Ok(x) => x,
                Err(e) => {
                    return Err(e);
                },
            };
            match read_node_results(buf, p4, ecount, version) {
                Ok(x) => x,
                Err(e) => {
                    return Err(e);
                },
            }
        } else {
            let empty_nodes: Vec<NodeResult> = Vec::new();
            proof {
                assert(empty_nodes@.map_values(|x: NodeResult| x@) =~= Seq::<
                    NodeResultView,
                >::empty());
            }
            (empty_nodes, p3)
        };
        if flexible {
            match TaggedFields::read(buf, p5) {
                Ok((tagged_fields, end)) => Ok(
                    (ProduceResponse { topics, throttle_time, endpoints, tagged_fields }, end),
                ),
                Err(e) => Err(e),
            }
        } else {
            let resp = ProduceResponse {
                topics,
                throttle_time,
                endpoints,
                tagged_fields: TaggedFields::empty(),
            };
            proof {
                assert(resp@.tagged_fields =~= Seq::<(u32, Seq<u8>)>::empty());
            }
            Ok((resp, p5))
        }
    }
}

} // verus!
