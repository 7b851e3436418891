//! Requests to the list-offsets API.
//!
//! The registry supports this API from version zero through eight, flexible
//! from six; its schema carries every field across that whole range, so only
//! the string, array and trailer forms change with flexibility.

use vstd::prelude::*;

use crate::arrays::{
    read_array_count, spec_encode_array_count, spec_read_array_count, write_array_count,
};
use crate::error::Error;
use crate::isolation_level::{spec_isolation_code, spec_isolation_from_code, IsolationLevel};
use crate::primitives::{
    read_i32_be, read_i64_be, read_i8, read_sentinel_i32, spec_encode_sentinel_i32,
    spec_i32_to_be_bytes, spec_i64_to_be_bytes, spec_i8_to_be_bytes, spec_read_i32_be,
    spec_read_i64_be, spec_read_i8, spec_read_sentinel_i32, write_i32_be, write_i64_be, write_i8,
    write_sentinel_i32, SpecRead,
};
use crate::strings::{
    read_compact_string, read_nullable_string, spec_encode_compact_string,
    spec_encode_nullable_string, spec_read_compact_string, spec_read_nullable_string,
    write_compact_string, write_nullable_string, WireString,
};
use crate::tagged::{
    spec_encode_tagged_fields, spec_read_tagged_fields, spec_tagged_wf, TaggedFields,
};
use crate::utf8::is_utf8;

verus! {

/// The lowest list-offsets version the registry supports.
pub const LIST_OFFSETS_MIN_VERSION: i16 = 0;

/// The highest list-offsets version the registry supports.
pub const LIST_OFFSETS_MAX_VERSION: i16 = 8;

/// The version from which list-offsets messages are flexible.
pub const LIST_OFFSETS_FLEXIBLE_FROM: i16 = 6;

/// Whether list-offsets messages are flexible at `v`.
pub open spec fn spec_list_offsets_flexible(v: i16) -> bool {
    v >= LIST_OFFSETS_FLEXIBLE_FROM
}

/// A partition to list the offsets of.
#[derive(Clone, Debug, PartialEq, Eq)]
pub struct Partition {
    /// The index of this partition.
    pub index: i32,
    /// The current leader's epoch.
    pub current_leader_epoch: i32,
    /// The timestamp to look offsets up at.
    pub timestamp: i64,
    /// This partition's tagged fields.
    pub tagged_fields: TaggedFields,
}

pub struct PartitionView {
    pub index: i32,
    pub current_leader_epoch: i32,
    pub timestamp: i64,
    pub tagged_fields: Seq<(u32, Seq<u8>)>,
}

impl View for Partition {
    type V = PartitionView;

    open spec fn view(&self) -> PartitionView {
        PartitionView {
            index: self.index,
            current_leader_epoch: self.current_leader_epoch,
            timestamp: self.timestamp,
            tagged_fields: self.tagged_fields@,
        }
    }
}

/// A topic to list the offsets of.
#[derive(Clone, Debug, PartialEq, Eq)]
pub struct Topic {
    /// This topic's name.
    pub name: WireString,
    /// The partitions to list the offsets of.
    pub partitions: Vec<Partition>,
    /// This topic's tagged fields.
    pub tagged_fields: TaggedFields,
}

pub struct TopicView {
    pub name: Seq<u8>,
    pub partitions: Seq<PartitionView>,
    pub tagged_fields: Seq<(u32, Seq<u8>)>,
}

impl View for Topic {
    type V = TopicView;

    open spec fn view(&self) -> TopicView {
        TopicView {
            name: self.name@,
            partitions: self.partitions@.map_values(|p: Partition| p@),
            tagged_fields: self.tagged_fields@,
        }
    }
}

/// A request to list offsets.
#[derive(Clone, Debug, PartialEq, Eq)]
pub struct ListOffsetsRequest {
    /// If this request is made by a broker, the ID of that broker; the wire
    /// carries `-1` for an ordinary consumer.
    pub replica_id: Option<i32>,
    /// Controls the visibility of transactional records.
    pub isolation_level: IsolationLevel,
    /// The topics to list the offsets of.
    pub topics: Vec<Topic>,
    /// This request's tagged fields.
    pub tagged_fields: TaggedFields,
}

pub struct ListOffsetsRequestView {
    pub replica_id: Option<i32>,
    pub isolation_level: IsolationLevel,
    pub topics: Seq<TopicView>,
    pub tagged_fields: Seq<(u32, Seq<u8>)>,
}

impl View for ListOffsetsRequest {
    type V = ListOffsetsRequestView;

    open spec fn view(&self) -> ListOffsetsRequestView {
        ListOffsetsRequestView {
            replica_id: self.replica_id,
            isolation_level: self.isolation_level,
            topics: self.topics@.map_values(|t: Topic| t@),
            tagged_fields: self.tagged_fields@,
        }
    }
}

pub open spec fn spec_lo_partition_wf(p: PartitionView, v: i16) -> bool {
    let flexible = spec_list_offsets_flexible(v);
    &&& spec_tagged_wf(p.tagged_fields)
    &&& (!flexible ==> p.tagged_fields.len() == 0)
}

pub open spec fn spec_lo_topic_wf(t: TopicView, v: i16) -> bool {
    let flexible = spec_list_offsets_flexible(v);
    &&& is_utf8(t.name)
    &&& (flexible ==> t.name.len() + 1 <= u32::MAX)
    &&& (!flexible ==> t.name.len() <= i16::MAX)
    &&& forall|i: int| 0 <= i < t.partitions.len() ==> spec_lo_partition_wf(
        #[trigger] t.partitions[i],
        v,
    )
    &&& (flexible ==> t.partitions.len() + 1 <= u32::MAX)
    &&& (!flexible ==> t.partitions.len() <= i32::MAX)
    &&& spec_tagged_wf(t.tagged_fields)
    &&& (!flexible ==> t.tagged_fields.len() == 0)
}

pub open spec fn spec_list_offsets_request_wf(r: ListOffsetsRequestView, v: i16) -> bool {
    let flexible = spec_list_offsets_flexible(v);
    &&& r.replica_id matches Some(x) ==> x >= 0
    &&& forall|i: int| 0 <= i < r.topics.len() ==> spec_lo_topic_wf(#[trigger] r.topics[i], v)
    &&& (flexible ==> r.topics.len() + 1 <= u32::MAX)
    &&& (!flexible ==> r.topics.len() <= i32::MAX)
    &&& spec_tagged_wf(r.tagged_fields)
    &&& (!flexible ==> r.tagged_fields.len() == 0)
}

#[verifier::opaque]
pub open spec fn spec_encode_lo_partition(p: PartitionView, v: i16) -> Seq<u8>
    recommends
        spec_lo_partition_wf(p, v),
{
    let flexible = spec_list_offsets_flexible(v);
    spec_i32_to_be_bytes(p.index) + (spec_i32_to_be_bytes(p.current_leader_epoch) + (
    spec_i64_to_be_bytes(p.timestamp) + (if flexible {
        spec_encode_tagged_fields(p.tagged_fields)
    } else {
        Seq::<u8>::empty()
    })))
}

pub open spec fn spec_encode_lo_partitions(ps: Seq<PartitionView>, v: i16) -> Seq<u8>
    decreases ps.len(),
{
    if ps.len() == 0 {
        Seq::empty()
    } else {
        spec_encode_lo_partition(ps[0], v) + spec_encode_lo_partitions(ps.skip(1), v)
    }
}

#[verifier::opaque]
pub open spec fn spec_encode_lo_topic(t: TopicView, v: i16) -> Seq<u8>
    recommends
        spec_lo_topic_wf(t, v),
{
    let flexible = spec_list_offsets_flexible(v);
    (if flexible {
        spec_encode_compact_string(Some(t.name))
    } else {
        spec_encode_nullable_string(Some(t.name))
    }) + (spec_encode_array_count(t.partitions.len(), flexible) + (spec_encode_lo_partitions(
        t.partitions,
        v,
    ) + (if flexible {
        spec_encode_tagged_fields(t.tagged_fields)
    } else {
        Seq::<u8>::empty()
    })))
}

pub open spec fn spec_encode_lo_topics(ts: Seq<TopicView>, v: i16) -> Seq<u8>
    decreases ts.len(),
{
    if ts.len() == 0 {
        Seq::empty()
    } else {
        spec_encode_lo_topic(ts[0], v) + spec_encode_lo_topics(ts.skip(1), v)
    }
}

/// The request body at version `v`: the replica ID (`-1` for a consumer),
/// the isolation-level code, the topics, and the tagged-field block at
/// flexible versions.
pub open spec fn spec_encode_list_offsets_request(r: ListOffsetsRequestView, v: i16) -> Seq<u8>
    recommends
        spec_list_offsets_request_wf(r, v),
{
    let flexible = spec_list_offsets_flexible(v);
    spec_encode_sentinel_i32(r.replica_id) + (spec_i8_to_be_bytes(
        spec_isolation_code(r.isolation_level),
    ) + (spec_encode_array_count(r.topics.len(), flexible) + (spec_encode_lo_topics(r.topics, v)
        + (if flexible {
        spec_encode_tagged_fields(r.tagged_fields)
    } else {
        Seq::<u8>::empty()
    }))))
}

#[verifier::opaque]
pub open spec fn spec_read_lo_partition(s: Seq<u8>, pos: int, v: i16) -> SpecRead<PartitionView> {
    let flexible = spec_list_offsets_flexible(v);
    match spec_read_i32_be(s, pos) {
        Ok((index, p1)) => match spec_read_i32_be(s, p1) {
            Ok((current_leader_epoch, p2)) => match spec_read_i64_be(s, p2) {
                Ok((timestamp, p3)) => if flexible {
                    match spec_read_tagged_fields(s, p3) {
                        Ok((tagged_fields, end)) => Ok(
                            (
                                PartitionView {
                                    index,
                                    current_leader_epoch,
                                    timestamp,
                                    tagged_fields,
                                },
                                end,
                            ),
                        ),
                        Err(e) => Err(e),
                    }
                } else {
                    Ok(
                        (
                            PartitionView {
                                index,
                                current_leader_epoch,
                                timestamp,
                                tagged_fields: Seq::empty(),
                            },
                            p3,
                        ),
                    )
                },
                Err(e) => Err(e),
            },
            Err(e) => Err(e),
        },
        Err(e) => Err(e),
    }
}

pub open spec fn spec_read_lo_partitions(s: Seq<u8>, pos: int, count: nat, v: i16) -> SpecRead<
    Seq<PartitionView>,
>
    decreases count,
{
    if count == 0 {
        Ok((Seq::empty(), pos))
    } else {
        match spec_read_lo_partition(s, pos, v) {
            Ok((p, p1)) => match spec_read_lo_partitions(s, p1, (count - 1) as nat, v) {
                Ok((rest, end)) => Ok((seq![p] + rest, end)),
                Err(e) => Err(e),
            },
            Err(e) => Err(e),
        }
    }
}

#[verifier::opaque]
pub open spec fn spec_read_lo_topic(s: Seq<u8>, pos: int, v: i16) -> SpecRead<TopicView> {
    let flexible = spec_list_offsets_flexible(v);
    let name_read = if flexible {
        spec_read_compact_string(s, pos)
    } else {
        spec_read_nullable_string(s, pos)
    };
    match name_read {
        Ok((n, p1)) => match n {
            None => Err(Error::Truncated),
            Some(name) => match spec_read_array_count(s, p1, flexible) {
                Ok((count, p2)) => match spec_read_lo_partitions(s, p2, count as nat, v) {
                    Ok((partitions, p3)) => if flexible {
                        match spec_read_tagged_fields(s, p3) {
                            Ok((tagged_fields, end)) => Ok(
                                (TopicView { name, partitions, tagged_fields }, end),
                            ),
                            Err(e) => Err(e),
                        }
                    } else {
                        Ok((TopicView { name, partitions, tagged_fields: Seq::empty() }, p3))
                    },
                    Err(e) => Err(e),
                },
                Err(e) => Err(e),
            },
        },
        Err(e) => Err(e),
    }
}

pub open spec fn spec_read_lo_topics(s: Seq<u8>, pos: int, count: nat, v: i16) -> SpecRead<
    Seq<TopicView>,
>
    decreases count,
{
    if count == 0 {
        Ok((Seq::empty(), pos))
    } else {
        match spec_read_lo_topic(s, pos, v) {
            Ok((t, p1)) => match spec_read_lo_topics(s, p1, (count - 1) as nat, v) {
                Ok((rest, end)) => Ok((seq![t] + rest, end)),
                Err(e) => Err(e),
            },
            Err(e) => Err(e),
        }
    }
}

/// Reads a list-offsets request body at version `v`. A version outside the
/// registry's supported range fails with `UnsupportedVersion`; an
/// isolation-level code outside its table fails with
/// `InvalidIsolationLevel`.
pub open spec fn spec_read_list_offsets_request(s: Seq<u8>, pos: int, v: i16) -> SpecRead<
    ListOffsetsRequestView,
> {
    let flexible = spec_list_offsets_flexible(v);
    if !(LIST_OFFSETS_MIN_VERSION <= v <= LIST_OFFSETS_MAX_VERSION) {
        Err(Error::UnsupportedVersion(v))
    } else {
        match spec_read_sentinel_i32(s, pos) {
            Ok((replica_id, p1)) => match spec_read_i8(s, p1) {
                Ok((code, p2)) => match spec_isolation_from_code(code) {
                    None => Err(Error::InvalidIsolationLevel(code)),
                    Some(isolation_level) => match spec_read_array_count(s, p2, flexible) {
                        Ok((count, p3)) => match spec_read_lo_topics(s, p3, count as nat, v) {
                            Ok((topics, p4)) => if flexible {
                                match spec_read_tagged_fields(s, p4) {
                                    Ok((tagged_fields, end)) => Ok(
                                        (
                                            ListOffsetsRequestView {
                                                replica_id,
                                                isolation_level,
                                                topics,
                                                tagged_fields,
                                            },
                                            end,
                                        ),
                                    ),
                                    Err(e) => Err(e),
                                }
                            } else {
                                Ok(
                                    (
                                        ListOffsetsRequestView {
                                            replica_id,
                                            isolation_level,
                                            topics,
                                            tagged_fields: Seq::empty(),
                                        },
                                        p4,
                                    ),
                                )
                            },
                            Err(e) => Err(e),
                        },
                        Err(e) => Err(e),
                    },
                },
                Err(e) => Err(e),
            },
            Err(e) => Err(e),
        }
    }
}


pub proof fn lemma_encode_lo_partitions_app(a: Seq<PartitionView>, b: Seq<PartitionView>, v: i16)
    ensures
        spec_encode_lo_partitions(a + b, v) == spec_encode_lo_partitions(a, v) + spec_encode_lo_partitions(b, v),
    decreases a.len(),
{
    if a.len() == 0 {
        assert(a + b =~= b);
        assert(spec_encode_lo_partitions(a, v) =~= Seq::<u8>::empty());
        assert(spec_encode_lo_partitions(a, v) + spec_encode_lo_partitions(b, v) =~= spec_encode_lo_partitions(
            b,
            v,
        ));
    } else {
        assert((a + b)[0] == a[0]);
        assert((a + b).skip(1) =~= a.skip(1) + b);
        lemma_encode_lo_partitions_app(a.skip(1), b, v);
        assert(spec_encode_lo_partitions(a + b, v) =~= spec_encode_lo_partition(a[0], v) + (
        spec_encode_lo_partitions(a.skip(1), v) + spec_encode_lo_partitions(b, v)));
        assert(spec_encode_lo_partition(a[0], v) + (spec_encode_lo_partitions(a.skip(1), v)
            + spec_encode_lo_partitions(b, v)) =~= (spec_encode_lo_partition(a[0], v)
            + spec_encode_lo_partitions(a.skip(1), v)) + spec_encode_lo_partitions(b, v));
    }
}

/// Reading back an encoded run of well-formed entries returns exactly it.
pub proof fn lemma_lo_partitions_roundtrip(s: Seq<u8>, pos: int, xs: Seq<PartitionView>, v: i16)
    requires
        0 <= pos,
        forall|i: int| 0 <= i < xs.len() ==> spec_lo_partition_wf(#[trigger] xs[i], v),
        pos + spec_encode_lo_partitions(xs, v).len() <= s.len(),
        s.subrange(pos, pos + spec_encode_lo_partitions(xs, v).len()) == spec_encode_lo_partitions(xs, v),
    ensures
        spec_read_lo_partitions(s, pos, xs.len(), v) == Ok::<_, Error>(
            (xs, pos + spec_encode_lo_partitions(xs, v).len() as int),
        ),
    decreases xs.len(),
{
    if xs.len() == 0 {
        assert(xs =~= Seq::<PartitionView>::empty());
        assert(spec_encode_lo_partitions(xs, v).len() == 0);
    } else {
        let e = spec_encode_lo_partitions(xs, v);
        let he = spec_encode_lo_partition(xs[0], v);
        let rest_enc = spec_encode_lo_partitions(xs.skip(1), v);
        assert(e =~= he + rest_enc);
        assert(s.subrange(pos, pos + he.len() as int) =~= e.subrange(0, he.len() as int));
        assert(e.subrange(0, he.len() as int) =~= he);
        lemma_lo_partition_roundtrip(s, pos, xs[0], v);
        let p1 = pos + he.len() as int;
        assert(s.subrange(p1, p1 + rest_enc.len() as int) =~= e.subrange(
            he.len() as int,
            e.len() as int,
        ));
        assert(e.subrange(he.len() as int, e.len() as int) =~= rest_enc);
        assert(forall|i: int| 0 <= i < xs.skip(1).len() ==> spec_lo_partition_wf(#[trigger] xs.skip(1)[i], v)) by {
            assert(forall|i: int| 0 <= i < xs.skip(1).len() ==> xs.skip(1)[i] == xs[i + 1]);
        }
        lemma_lo_partitions_roundtrip(s, p1, xs.skip(1), v);
        assert(seq![xs[0]] + xs.skip(1) =~= xs);
        assert(pos + e.len() == p1 + rest_enc.len());
    }
}

pub proof fn lemma_encode_lo_topics_app(a: Seq<TopicView>, b: Seq<TopicView>, v: i16)
    ensures
        spec_encode_lo_topics(a + b, v) == spec_encode_lo_topics(a, v) + spec_encode_lo_topics(b, v),
    decreases a.len(),
{
    if a.len() == 0 {
        assert(a + b =~= b);
        assert(spec_encode_lo_topics(a, v) =~= Seq::<u8>::empty());
        assert(spec_encode_lo_topics(a, v) + spec_encode_lo_topics(b, v) =~= spec_encode_lo_topics(
            b,
            v,
        ));
    } else {
        assert((a + b)[0] == a[0]);
        assert((a + b).skip(1) =~= a.skip(1) + b);
        lemma_encode_lo_topics_app(a.skip(1), b, v);
        assert(spec_encode_lo_topics(a + b, v) =~= spec_encode_lo_topic(a[0], v) + (
        spec_encode_lo_topics(a.skip(1), v) + spec_encode_lo_topics(b, v)));
        assert(spec_encode_lo_topic(a[0], v) + (spec_encode_lo_topics(a.skip(1), v)
            + spec_encode_lo_topics(b, v)) =~= (spec_encode_lo_topic(a[0], v)
            + spec_encode_lo_topics(a.skip(1), v)) + spec_encode_lo_topics(b, v));
    }
}

/// Reading back an encoded run of well-formed entries returns exactly it.
pub proof fn lemma_lo_topics_roundtrip(s: Seq<u8>, pos: int, xs: Seq<TopicView>, v: i16)
    requires
        0 <= pos,
        forall|i: int| 0 <= i < xs.len() ==> spec_lo_topic_wf(#[trigger] xs[i], v),
        pos + spec_encode_lo_topics(xs, v).len() <= s.len(),
        s.subrange(pos, pos + spec_encode_lo_topics(xs, v).len()) == spec_encode_lo_topics(xs, v),
    ensures
        spec_read_lo_topics(s, pos, xs.len(), v) == Ok::<_, Error>(
            (xs, pos + spec_encode_lo_topics(xs, v).len() as int),
        ),
    decreases xs.len(),
{
    if xs.len() == 0 {
        assert(xs =~= Seq::<TopicView>::empty());
        assert(spec_encode_lo_topics(xs, v).len() == 0);
    } else {
        let e = spec_encode_lo_topics(xs, v);
        let he = spec_encode_lo_topic(xs[0], v);
        let rest_enc = spec_encode_lo_topics(xs.skip(1), v);
        assert(e =~= he + rest_enc);
        assert(s.subrange(pos, pos + he.len() as int) =~= e.subrange(0, he.len() as int));
        assert(e.subrange(0, he.len() as int) =~= he);
        lemma_lo_topic_roundtrip(s, pos, xs[0], v);
        let p1 = pos + he.len() as int;
        assert(s.subrange(p1, p1 + rest_enc.len() as int) =~= e.subrange(
            he.len() as int,
            e.len() as int,
        ));
        assert(e.subrange(he.len() as int, e.len() as int) =~= rest_enc);
        assert(forall|i: int| 0 <= i < xs.skip(1).len() ==> spec_lo_topic_wf(#[trigger] xs.skip(1)[i], v)) by {
            assert(forall|i: int| 0 <= i < xs.skip(1).len() ==> xs.skip(1)[i] == xs[i + 1]);
        }
        lemma_lo_topics_roundtrip(s, p1, xs.skip(1), v);
        assert(seq![xs[0]] + xs.skip(1) =~= xs);
        assert(pos + e.len() == p1 + rest_enc.len());
    }
}

// ---------------------------------------------------------------------------
// Round trips
// ---------------------------------------------------------------------------

/// Reading back an encoded well-formed partition entry returns exactly it.
#[verifier::rlimit(100)]
#[verifier::spinoff_prover]
pub proof fn lemma_lo_partition_roundtrip(s: Seq<u8>, pos: int, p: PartitionView, v: i16)
    requires
        0 <= pos,
        spec_lo_partition_wf(p, v),
        pos + spec_encode_lo_partition(p, v).len() <= s.len(),
        s.subrange(pos, pos + spec_encode_lo_partition(p, v).len()) == spec_encode_lo_partition(
            p,
            v,
        ),
    ensures
        spec_read_lo_partition(s, pos, v) == Ok::<_, Error>(
            (p, pos + spec_encode_lo_partition(p, v).len() as int),
        ),
{
    reveal(spec_encode_lo_partition);
    reveal(spec_read_lo_partition);
    let flexible = spec_list_offsets_flexible(v);
    let enc = spec_encode_lo_partition(p, v);
    let c0 = spec_i32_to_be_bytes(p.index);
    let c1 = spec_i32_to_be_bytes(p.current_leader_epoch);
    let c2 = spec_i64_to_be_bytes(p.timestamp);
    let c3 = if flexible {
        spec_encode_tagged_fields(p.tagged_fields)
    } else {
        Seq::<u8>::empty()
    };
    let r3 = c2 + c3;
    let r2 = c1 + r3;
    assert(enc == c0 + r2);
    crate::primitives::lemma_concat_placement(s, pos, c0, r2);
    crate::primitives::lemma_concat_placement(s, pos + 4, c1, r3);
    crate::primitives::lemma_concat_placement(s, pos + 8, c2, c3);
    crate::primitives::lemma_read_i32_be_of_encoding(s, pos, p.index);
    crate::primitives::lemma_read_i32_be_of_encoding(s, pos + 4, p.current_leader_epoch);
    crate::primitives::lemma_read_i64_be_of_encoding(s, pos + 8, p.timestamp);
    if flexible {
        crate::tagged::lemma_tagged_fields_roundtrip(s, pos + 16, p.tagged_fields);
    } else {
        assert(p.tagged_fields =~= Seq::<(u32, Seq<u8>)>::empty());
    }
    assert(pos + enc.len() == pos + 16 + c3.len());
}

/// Reading back an encoded well-formed topic entry returns exactly it.
#[verifier::rlimit(100)]
#[verifier::spinoff_prover]
pub proof fn lemma_lo_topic_roundtrip(s: Seq<u8>, pos: int, t: TopicView, v: i16)
    requires
        0 <= pos,
        spec_lo_topic_wf(t, v),
        pos + spec_encode_lo_topic(t, v).len() <= s.len(),
        s.subrange(pos, pos + spec_encode_lo_topic(t, v).len()) == spec_encode_lo_topic(t, v),
    ensures
        spec_read_lo_topic(s, pos, v) == Ok::<_, Error>(
            (t, pos + spec_encode_lo_topic(t, v).len() as int),
        ),
{
    reveal(spec_encode_lo_topic);
    reveal(spec_read_lo_topic);
    let flexible = spec_list_offsets_flexible(v);
    let enc = spec_encode_lo_topic(t, v);
    let c0 = if flexible {
        spec_encode_compact_string(Some(t.name))
    } else {
        spec_encode_nullable_string(Some(t.name))
    };
    let c1 = spec_encode_array_count(t.partitions.len(), flexible);
    let c2 = spec_encode_lo_partitions(t.partitions, v);
    let c3 = if flexible {
        spec_encode_tagged_fields(t.tagged_fields)
    } else {
        Seq::<u8>::empty()
    };
    let r3 = c2 + c3;
    let r2 = c1 + r3;
    assert(enc == c0 + r2);
    crate::primitives::lemma_concat_placement(s, pos, c0, r2);
    let p1 = pos + c0.len() as int;
    crate::primitives::lemma_concat_placement(s, p1, c1, r3);
    let p2 = p1 + c1.len() as int;
    crate::primitives::lemma_concat_placement(s, p2, c2, c3);
    let p3 = p2 + c2.len() as int;
    if flexible {
        crate::strings::lemma_compact_string_roundtrip(s, pos, Some(t.name));
    } else {
        crate::strings::lemma_nullable_string_roundtrip(s, pos, Some(t.name));
    }
    crate::arrays::lemma_array_count_roundtrip(s, p1, t.partitions.len(), flexible);
    lemma_lo_partitions_roundtrip(s, p2, t.partitions, v);
    if flexible {
        crate::tagged::lemma_tagged_fields_roundtrip(s, p3, t.tagged_fields);
    } else {
        assert(t.tagged_fields =~= Seq::<(u32, Seq<u8>)>::empty());
    }
    assert(pos + enc.len() == p3 + c3.len());
}

/// Round trip: decoding the encoding of a well-formed list-offsets request
/// at a supported version returns exactly that request.
#[verifier::rlimit(100)]
#[verifier::spinoff_prover]
pub proof fn lemma_list_offsets_request_roundtrip(
    s: Seq<u8>,
    pos: int,
    r: ListOffsetsRequestView,
    v: i16,
)
    requires
        0 <= pos,
        LIST_OFFSETS_MIN_VERSION <= v <= LIST_OFFSETS_MAX_VERSION,
        spec_list_offsets_request_wf(r, v),
        pos + spec_encode_list_offsets_request(r, v).len() <= s.len(),
        s.subrange(pos, pos + spec_encode_list_offsets_request(r, v).len())
            == spec_encode_list_offsets_request(r, v),
    ensures
        spec_read_list_offsets_request(s, pos, v) == Ok::<_, Error>(
            (r, pos + spec_encode_list_offsets_request(r, v).len() as int),
        ),
{
    let flexible = spec_list_offsets_flexible(v);
    let enc = spec_encode_list_offsets_request(r, v);
    let c0 = crate::primitives::spec_encode_sentinel_i32(r.replica_id);
    let c1 = spec_i8_to_be_bytes(spec_isolation_code(r.isolation_level));
    let c2 = spec_encode_array_count(r.topics.len(), flexible);
    let c3 = spec_encode_lo_topics(r.topics, v);
    let c4 = if flexible {
        spec_encode_tagged_fields(r.tagged_fields)
    } else {
        Seq::<u8>::empty()
    };
    let r4 = c3 + c4;
    let r3 = c2 + r4;
    let r2 = c1 + r3;
    assert(enc == c0 + r2);
    crate::primitives::lemma_concat_placement(s, pos, c0, r2);
    crate::primitives::lemma_concat_placement(s, pos + 4, c1, r3);
    let p2 = pos + 5;
    crate::primitives::lemma_concat_placement(s, p2, c2, r4);
    let p3 = p2 + c2.len() as int;
    crate::primitives::lemma_concat_placement(s, p3, c3, c4);
    let p4 = p3 + c3.len() as int;
    crate::primitives::lemma_read_sentinel_i32_of_encoding(s, pos, r.replica_id);
    crate::primitives::lemma_read_i8_of_encoding(
        s,
        pos + 4,
        spec_isolation_code(r.isolation_level),
    );
    crate::isolation_level::lemma_isolation_table_bijective();
    crate::arrays::lemma_array_count_roundtrip(s, p2, r.topics.len(), flexible);
    lemma_lo_topics_roundtrip(s, p3, r.topics, v);
    if flexible {
        crate::tagged::lemma_tagged_fields_roundtrip(s, p4, r.tagged_fields);
    } else {
        assert(r.tagged_fields =~= Seq::<(u32, Seq<u8>)>::empty());
    }
    assert(pos + enc.len() == p4 + c4.len());
}

// ---------------------------------------------------------------------------
// Executable form
// ---------------------------------------------------------------------------

fn write_lo_partition(out: &mut Vec<u8>, p: &Partition, version: i16)
    requires
        spec_lo_partition_wf(p@, version),
    ensures
        final(out)@ == old(out)@ + spec_encode_lo_partition(p@, version),
{
    proof {
        reveal(spec_encode_lo_partition);
    }
    let flexible = version >= LIST_OFFSETS_FLEXIBLE_FROM;
    write_i32_be(out, p.index);
    write_i32_be(out, p.current_leader_epoch);
    write_i64_be(out, p.timestamp);
    if flexible {
        p.tagged_fields.write(out);
    }
    assert(final(out)@ =~= old(out)@ + spec_encode_lo_partition(p@, version));
}

fn read_lo_partition(buf: &[u8], pos: usize, version: i16) -> (r: Result<
    (Partition, usize),
    Error,
>)
    ensures
        match r {
            Ok((p, end)) => spec_read_lo_partition(buf@, pos as int, version) == Ok::<_, Error>(
                (p@, end as int),
            ),
            Err(e) => spec_read_lo_partition(buf@, pos as int, version) == Err::<
                (PartitionView, int),
                _,
            >(e),
        },
{
    proof {
        reveal(spec_read_lo_partition);
    }
    let flexible = version >= LIST_OFFSETS_FLEXIBLE_FROM;
    let (index, p1) = match read_i32_be(buf, pos) {
        Ok(x) => x,
        Err(e) => {
            return Err(e);
        },
    };
    let (current_leader_epoch, p2) = match read_i32_be(buf, p1) {
        Ok(x) => x,
        Err(e) => {
            return Err(e);
        },
    };
    let (timestamp, p3) = match read_i64_be(buf, p2) {
        Ok(x) => x,
        Err(e) => {
            return Err(e);
        },
    };
    if flexible {
        match TaggedFields::read(buf, p3) {
            Ok((tagged_fields, end)) => Ok(
                (Partition { index, current_leader_epoch, timestamp, tagged_fields }, end),
            ),
            Err(e) => Err(e),
        }
    } else {
        let p = Partition {
            index,
            current_leader_epoch,
            timestamp,
            tagged_fields: TaggedFields::empty(),
        };
        proof {
            assert(p@.tagged_fields =~= Seq::<(u32, Seq<u8>)>::empty());
        }
        Ok((p, p3))
    }
}

fn write_lo_topic(out: &mut Vec<u8>, t: &Topic, version: i16)
    requires
        spec_lo_topic_wf(t@, version),
    ensures
        final(out)@ == old(out)@ + spec_encode_lo_topic(t@, version),
{
    proof {
        reveal(spec_encode_lo_topic);
    }
    let flexible = version >= LIST_OFFSETS_FLEXIBLE_FROM;
    if flexible {
        write_compact_string(out, Some(&t.name));
    } else {
        write_nullable_string(out, Some(&t.name));
    }
    let n = t.partitions.len();
    proof {
        assert(t@.partitions.len() == n);
        assert(forall|k: int| 0 <= k < t.partitions@.len() ==> #[trigger] t.partitions@[k]@
            == t@.partitions[k]);
    }
    write_array_count(out, n, flexible);
    let ghost base = out@;
    let ghost pv = t@.partitions;
    assert(out@ =~= base + spec_encode_lo_partitions(pv.take(0), version));
    let mut i: usize = 0;
    while i < n
        invariant
            i <= n,
            n == t.partitions@.len(),
            pv == t@.partitions,
            spec_lo_topic_wf(t@, version),
            out@ == base + spec_encode_lo_partitions(pv.take(i as int), version),
        decreases n - i,
    {
        proof {
            assert(pv[i as int] == t.partitions@[i as int]@);
            assert(spec_lo_partition_wf(pv[i as int], version));
        }
        write_lo_partition(out, &t.partitions[i], version);
        proof {
            assert(pv.take(i + 1) =~= pv.take(i as int) + seq![pv[i as int]]);
            lemma_encode_lo_partitions_app(pv.take(i as int), seq![pv[i as int]], version);
            assert(seq![pv[i as int]].skip(1) =~= Seq::<PartitionView>::empty());
            assert(spec_encode_lo_partitions(seq![pv[i as int]], version)
                =~= spec_encode_lo_partition(seq![pv[i as int]][0], version)
                + spec_encode_lo_partitions(seq![pv[i as int]].skip(1), version));
            assert(out@ =~= base + spec_encode_lo_partitions(pv.take(i + 1), version));
        }
        i = i + 1;
    }
    proof {
        assert(pv.take(n as int) =~= pv);
    }
    if flexible {
        t.tagged_fields.write(out);
    }
    assert(final(out)@ =~= old(out)@ + spec_encode_lo_topic(t@, version));
}

fn read_lo_topic(buf: &[u8], pos: usize, version: i16) -> (r: Result<(Topic, usize), Error>)
    ensures
        match r {
            Ok((t, end)) => spec_read_lo_topic(buf@, pos as int, version) == Ok::<_, Error>(
                (t@, end as int),
            ),
            Err(e) => spec_read_lo_topic(buf@, pos as int, version) == Err::<(TopicView, int), _>(
                e,
            ),
        },
{
    proof {
        reveal(spec_read_lo_topic);
    }
    let flexible = version >= LIST_OFFSETS_FLEXIBLE_FROM;
    let (n, p1) = if flexible {
        match read_compact_string(buf, pos) {
            Ok(x) => x,
            Err(e) => {
                return Err(e);
            },
        }
    } else {
        match read_nullable_string(buf, pos) {
            Ok(x) => x,
            Err(e) => {
                return Err(e);
            },
        }
    };
    let name = match n {
        None => {
            return Err(Error::Truncated);
        },
        Some(w) => w,
    };
    let (count, p2) = match read_array_count(buf, p1, flexible) {
        Ok(x) => x,
        Err(e) => {
            return Err(e);
        },
    };
    let (partitions, p3) = match read_lo_partitions(buf, p2, count, version) {
        Ok(x) => x,
        Err(e) => {
            return Err(e);
        },
    };
    if flexible {
        match TaggedFields::read(buf, p3) {
            Ok((tagged_fields, end)) => Ok((Topic { name, partitions, tagged_fields }, end)),
            Err(e) => Err(e),
        }
    } else {
        let t = Topic { name, partitions, tagged_fields: TaggedFields::empty() };
        proof {
            assert(t@.tagged_fields =~= Seq::<(u32, Seq<u8>)>::empty());
        }
        Ok((t, p3))
    }
}

impl ListOffsetsRequest {
    /// Serializes the request body at `version`; a version outside the
    /// registry's supported range fails with `UnsupportedVersion`.
    #[verifier::rlimit(100)]
    #[verifier::spinoff_prover]
    pub fn encode(&self, version: i16) -> (r: Result<Vec<u8>, Error>)
        requires
            spec_list_offsets_request_wf(self@, version),
        ensures
            match r {
                Ok(bytes) => LIST_OFFSETS_MIN_VERSION <= version <= LIST_OFFSETS_MAX_VERSION
                    && bytes@ == spec_encode_list_offsets_request(self@, version),
                Err(e) => e == Error::UnsupportedVersion(version) && !(LIST_OFFSETS_MIN_VERSION
                    <= version <= LIST_OFFSETS_MAX_VERSION),
            },
    {
        if !(LIST_OFFSETS_MIN_VERSION <= version && version <= LIST_OFFSETS_MAX_VERSION) {
            return Err(Error::UnsupportedVersion(version));
        }
        let flexible = version >= LIST_OFFSETS_FLEXIBLE_FROM;
        let mut out: Vec<u8> = Vec::new();
        write_sentinel_i32(&mut out, self.replica_id);
        write_i8(&mut out, self.isolation_level.code());
        let n = self.topics.len();
        proof {
            assert(self@.topics.len() == n);
            assert(forall|k: int| 0 <= k < self.topics@.len() ==> #[trigger] self.topics@[k]@
                == self@.topics[k]);
        }
        write_array_count(&mut out, n, flexible);
        let ghost base = out@;
        let ghost tv = self@.topics;
        assert(out@ =~= base + spec_encode_lo_topics(tv.take(0), version));
        let mut i: usize = 0;
        while i < n
            invariant
                i <= n,
                n == self.topics@.len(),
                tv == self@.topics,
                spec_list_offsets_request_wf(self@, version),
                out@ == base + spec_encode_lo_topics(tv.take(i as int), version),
            decreases n - i,
        {
            proof {
                assert(tv[i as int] == self.topics@[i as int]@);
                assert(spec_lo_topic_wf(tv[i as int], version));
            }
            write_lo_topic(&mut out, &self.topics[i], version);
            proof {
                assert(tv.take(i + 1) =~= tv.take(i as int) + seq![tv[i as int]]);
                lemma_encode_lo_topics_app(tv.take(i as int), seq![tv[i as int]], version);
                assert(seq![tv[i as int]].skip(1) =~= Seq::<TopicView>::empty());
                assert(spec_encode_lo_topics(seq![tv[i as int]], version)
                    =~= spec_encode_lo_topic(seq![tv[i as int]][0], version)
                    + spec_encode_lo_topics(seq![tv[i as int]].skip(1), version));
                assert(out@ =~= base + spec_encode_lo_topics(tv.take(i + 1), version));
            }
            i = i + 1;
        }
        proof {
            assert(tv.take(n as int) =~= tv);
        }
        if flexible {
            self.tagged_fields.write(&mut out);
        }
        proof {
            assert(out@ =~= spec_encode_list_offsets_request(self@, version));
        }
        Ok(out)
    }

    /// Reads a request body at `version`.
    pub fn decode(buf: &[u8], pos: usize, version: i16) -> (r: Result<
        (ListOffsetsRequest, usize),
        Error,
    >)
        ensures
            match r {
                Ok((req, end)) => spec_read_list_offsets_request(buf@, pos as int, version)
                    == Ok::<_, Error>((req@, end as int)),
                Err(e) => spec_read_list_offsets_request(buf@, pos as int, version) == Err::<
                    (ListOffsetsRequestView, int),
                    _,
                >(e),
            },
    {
        if !(LIST_OFFSETS_MIN_VERSION <= version && version <= LIST_OFFSETS_MAX_VERSION) {
            return Err(Error::UnsupportedVersion(version));
        }
        let flexible = version >= LIST_OFFSETS_FLEXIBLE_FROM;
        let (replica_id, p1) = match read_sentinel_i32(buf, pos) {
            Ok(x) => x,
            Err(e) => {
                return Err(e);
            },
        };
        let (code, p2) = match read_i8(buf, p1) {
            Ok(x) => x,
            Err(e) => {
                return Err(e);
            },
        };
        let isolation_level = match IsolationLevel::from_code(code) {
            Ok(l) => l,
            Err(e) => {
                return Err(e);
            },
        };
        let (count, p3) = match read_array_count(buf, p2, flexible) {
            Ok(x) => x,
            Err(e) => {
                return Err(e);
            },
        };
        let (topics, p4) = match read_lo_topics(buf, p3, count, version) {
            Ok(x) => x,
            Err(e) => {
                return Err(e);
            },
        };
        if flexible {
            match TaggedFields::read(buf, p4) {
                Ok((tagged_fields, end)) => Ok(
                    (
                        ListOffsetsRequest {
                            replica_id,
                            isolation_level,
                            topics,
                            tagged_fields,
                        },
                        end,
                    ),
                ),
                Err(e) => Err(e),
            }
        } else {
            let req = ListOffsetsRequest {
                replica_id,
                isolation_level,
                topics,
                tagged_fields: TaggedFields::empty(),
            };
            proof {
                assert(req@.tagged_fields =~= Seq::<(u32, Seq<u8>)>::empty());
            }
            Ok((req, p4))
        }
    }
}

fn read_lo_partitions(buf: &[u8], pos: usize, count: u32, version: i16) -> (r: Result<
    (Vec<Partition>, usize),
    Error,
>)
    ensures
        match r {
            Ok((v, end)) => spec_read_lo_partitions(buf@, pos as int, count as nat, version) == Ok::<
                _,
                Error,
            >((v@.map_values(|x: Partition| x@), end as int)),
            Err(e) => spec_read_lo_partitions(buf@, pos as int, count as nat, version) == Err::<
                (Seq<PartitionView>, int),
                _,
            >(e),
        },
{
    let ghost s = buf@;
    let mut acc: Vec<Partition> = Vec::new();
    let mut cur: usize = pos;
    let mut i: u32 = 0;
    proof {
        assert(acc@.map_values(|x: Partition| x@) =~= Seq::<PartitionView>::empty());
        match spec_read_lo_partitions(s, pos as int, count as nat, version) {
            Ok((rest, end)) => {
                assert(Seq::<PartitionView>::empty() + rest =~= rest);
            },
            Err(_) => {},
        }
    }
    loop
        invariant
            i <= count,
            s == buf@,
            spec_read_lo_partitions(s, pos as int, count as nat, version) == (match spec_read_lo_partitions(
                s,
                cur as int,
                (count - i) as nat,
                version,
            ) {
                Ok((rest, end)) => Ok::<_, Error>((acc@.map_values(|x: Partition| x@) + rest, end)),
                Err(e) => Err(e),
            }),
        ensures
            i == count,
            spec_read_lo_partitions(s, pos as int, count as nat, version) == Ok::<_, Error>(
                (acc@.map_values(|x: Partition| x@), cur as int),
            ),
        decreases count - i,
    {
        let ghost acc_v = acc@.map_values(|x: Partition| x@);
        if i >= count {
            proof {
                assert(spec_read_lo_partitions(s, cur as int, 0, version) == Ok::<_, Error>(
                    (Seq::<PartitionView>::empty(), cur as int),
                ));
                assert(acc_v + Seq::<PartitionView>::empty() =~= acc_v);
            }
            break ;
        }
        let ghost remaining = (count - i) as nat;
        match read_lo_partition(buf, cur, version) {
            Ok((x, np)) => {
                proof {
                    assert(acc@.push(x).map_values(|g: Partition| g@) =~= acc_v + seq![x@]);
                    match spec_read_lo_partitions(s, np as int, (remaining - 1) as nat, version) {
                        Ok((rest, end)) => {
                            assert((acc_v + seq![x@]) + rest =~= acc_v + (seq![x@] + rest));
                        },
                        Err(_) => {},
                    }
                }
                acc.push(x);
                cur = np;
                i = i + 1;
            },
            Err(e) => {
                proof {
                    assert(spec_read_lo_partitions(s, cur as int, remaining, version) == Err::<
                        (Seq<PartitionView>, int),
                        _,
                    >(e));
                }
                return Err(e);
            },
        }
    }
    Ok((acc, cur))
}

fn read_lo_topics(buf: &[u8], pos: usize, count: u32, version: i16) -> (r: Result<
    (Vec<Topic>, usize),
    Error,
>)
    ensures
        match r {
            Ok((v, end)) => spec_read_lo_topics(buf@, pos as int, count as nat, version) == Ok::<
                _,
                Error,
            >((v@.map_values(|x: Topic| x@), end as int)),
            Err(e) => spec_read_lo_topics(buf@, pos as int, count as nat, version) == Err::<
                (Seq<TopicView>, int),
                _,
            >(e),
        },
{
    let ghost s = buf@;
    let mut acc: Vec<Topic> = Vec::new();
    let mut cur: usize = pos;
    let mut i: u32 = 0;
    proof {
        assert(acc@.map_values(|x: Topic| x@) =~= Seq::<TopicView>::empty());
        match spec_read_lo_topics(s, pos as int, count as nat, version) {
            Ok((rest, end)) => {
                assert(Seq::<TopicView>::empty() + rest =~= rest);
            },
            Err(_) => {},
        }
    }
    loop
        invariant
            i <= count,
            s == buf@,
            spec_read_lo_topics(s, pos as int, count as nat, version) == (match spec_read_lo_topics(
                s,
                cur as int,
                (count - i) as nat,
                version,
            ) {
                Ok((rest, end)) => Ok::<_, Error>((acc@.map_values(|x: Topic| x@) + rest, end)),
                Err(e) => Err(e),
            }),
        ensures
            i == count,
            spec_read_lo_topics(s, pos as int, count as nat, version) == Ok::<_, Error>(
                (acc@.map_values(|x: Topic| x@), cur as int),
            ),
        decreases count - i,
    {
        let ghost acc_v = acc@.map_values(|x: Topic| x@);
        if i >= count {
            proof {
                assert(spec_read_lo_topics(s, cur as int, 0, version) == Ok::<_, Error>(
                    (Seq::<TopicView>::empty(), cur as int),
                ));
                assert(acc_v + Seq::<TopicView>::empty() =~= acc_v);
            }
            break ;
        }
        let ghost remaining = (count - i) as nat;
        match read_lo_topic(buf, cur, version) {
            Ok((x, np)) => {
                proof {
                    assert(acc@.push(x).map_values(|g: Topic| g@) =~= acc_v + seq![x@]);
                    match spec_read_lo_topics(s, np as int, (remaining - 1) as nat, version) {
                        Ok((rest, end)) => {
                            assert((acc_v + seq![x@]) + rest =~= acc_v + (seq![x@] + rest));
                        },
                        Err(_) => {},
                    }
                }
                acc.push(x);
                cur = np;
                i = i + 1;
            },
            Err(e) => {
                proof {
                    assert(spec_read_lo_topics(s, cur as int, remaining, version) == Err::<
                        (Seq<TopicView>, int),
                        _,
                    >(e));
                }
                return Err(e);
            },
        }
    }
    Ok((acc, cur))
}

} // verus!
