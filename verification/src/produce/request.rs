//! Requests to the produce API.
//!
//! One canonical structure serves every supported version; a declarative
//! field gate decides what stands on the wire at a negotiated version, and
//! encoding fails fast with `FieldVersionMismatch` when a caller supplies a
//! value for a field the version cannot carry, rather than dropping it.

use vstd::prelude::*;

use crate::acks::{spec_ack_code, spec_ack_from_code, AckRequirement};
use crate::api::{spec_field_present, VersionedField};
use crate::arrays::{
    read_array_count, spec_encode_array_count, spec_read_array_count, write_array_count,
};
use crate::error::Error;
use crate::primitives::{
    read_i16_be, read_i32_be, spec_i16_to_be_bytes, spec_i32_to_be_bytes, spec_read_i16_be,
    spec_read_i32_be, write_i16_be, write_i32_be, SpecRead,
};
use crate::produce::{
    PRODUCE_FLEXIBLE_FROM, PRODUCE_MAX_VERSION, PRODUCE_MIN_VERSION,
    PRODUCE_TRANSACTIONAL_ID_FROM,
};
use crate::records::{spec_batch_wf, spec_encode_batch, spec_read_batch, BatchView, Records};
use crate::strings::{
    read_compact_bytes, read_compact_string, read_legacy_bytes, read_nullable_string,
    spec_encode_compact_bytes, spec_encode_compact_string, spec_encode_legacy_bytes,
    spec_encode_nullable_string, spec_read_compact_bytes, spec_read_compact_string,
    spec_read_legacy_bytes, spec_read_nullable_string, view_opt_string, write_compact_bytes,
    write_compact_string, write_legacy_bytes, write_nullable_string, WireString,
};
use crate::tagged::{
    spec_encode_tagged_fields, spec_read_tagged_fields, spec_tagged_wf, TaggedFields,
};
use crate::utf8::is_utf8;

verus! {

/// Whether produce messages are flexible at `v`.
pub open spec fn spec_produce_flexible(v: i16) -> bool {
    v >= PRODUCE_FLEXIBLE_FROM
}

/// The version gate of the transactional ID field.
pub open spec fn spec_transactional_id_field() -> VersionedField {
    VersionedField { min_version: Some(PRODUCE_TRANSACTIONAL_ID_FROM), max_version: None }
}

/// The version gate of the transactional ID field, for executable callers.
pub fn transactional_id_field() -> (f: VersionedField)
    ensures
        f == spec_transactional_id_field(),
{
    VersionedField { min_version: Some(PRODUCE_TRANSACTIONAL_ID_FROM), max_version: None }
}

// ---------------------------------------------------------------------------
// The structures
// ---------------------------------------------------------------------------

/// A partition to produce to.
#[derive(Clone, Debug, PartialEq, Eq)]
pub struct PartitionProduceTarget {
    /// The partition index.
    pub index: i32,
    /// The record data to be produced.
    pub records: Records,
    /// The tagged fields; on the wire from the flexible versions.
    pub tagged_fields: TaggedFields,
}

pub struct PartitionTargetView {
    pub index: i32,
    pub records: BatchView,
    pub tagged_fields: Seq<(u32, Seq<u8>)>,
}

impl View for PartitionProduceTarget {
    type V = PartitionTargetView;

    open spec fn view(&self) -> PartitionTargetView {
        PartitionTargetView {
            index: self.index,
            records: self.records@,
            tagged_fields: self.tagged_fields@,
        }
    }
}

/// A topic to produce to.
#[derive(Clone, Debug, PartialEq, Eq)]
pub struct TopicProduceTarget {
    /// The topic name.
    pub name: WireString,
    /// Each partition to produce to.
    pub partitions: Vec<PartitionProduceTarget>,
    /// The tagged fields; on the wire from the flexible versions.
    pub tagged_fields: TaggedFields,
}

pub struct TopicTargetView {
    pub name: Seq<u8>,
    pub partitions: Seq<PartitionTargetView>,
    pub tagged_fields: Seq<(u32, Seq<u8>)>,
}

impl View for TopicProduceTarget {
    type V = TopicTargetView;

    open spec fn view(&self) -> TopicTargetView {
        TopicTargetView {
            name: self.name@,
            partitions: self.partitions@.map_values(|p: PartitionProduceTarget| p@),
            tagged_fields: self.tagged_fields@,
        }
    }
}

/// A request to produce data.
#[derive(Clone, Debug, PartialEq, Eq)]
pub struct ProduceRequest {
    /// The transactional ID, or `None` if the producer is not transactional.
    /// On the wire only where its version gate admits it.
    pub transactional_id: Option<WireString>,
    /// The acknowledgements the producer requires before a request counts as
    /// complete.
    pub acks: AckRequirement,
    /// The timeout to await a response, in milliseconds.
    pub timeout: i32,
    /// Each topic to produce to.
    pub topics: Vec<TopicProduceTarget>,
    /// The tagged fields; on the wire from the flexible versions.
    pub tagged_fields: TaggedFields,
}

pub struct ProduceRequestView {
    pub transactional_id: Option<Seq<u8>>,
    pub acks: AckRequirement,
    pub timeout: i32,
    pub topics: Seq<TopicTargetView>,
    pub tagged_fields: Seq<(u32, Seq<u8>)>,
}

impl View for ProduceRequest {
    type V = ProduceRequestView;

    open spec fn view(&self) -> ProduceRequestView {
        ProduceRequestView {
            transactional_id: view_opt_string(self.transactional_id),
            acks: self.acks,
            timeout: self.timeout,
            topics: self.topics@.map_values(|t: TopicProduceTarget| t@),
            tagged_fields: self.tagged_fields@,
        }
    }
}

// ---------------------------------------------------------------------------
// Well-formedness: the size bounds the wire forms can carry at version `v`
// ---------------------------------------------------------------------------

pub open spec fn spec_partition_target_wf(p: PartitionTargetView, v: i16) -> bool {
    let flexible = spec_produce_flexible(v);
    &&& spec_batch_wf(p.records)
    &&& (flexible ==> spec_encode_batch(p.records).len() + 1 <= u32::MAX)
    &&& (!flexible ==> spec_encode_batch(p.records).len() <= i32::MAX)
    &&& spec_tagged_wf(p.tagged_fields)
    &&& (!flexible ==> p.tagged_fields.len() == 0)
}

pub open spec fn spec_topic_target_wf(t: TopicTargetView, v: i16) -> bool {
    let flexible = spec_produce_flexible(v);
    &&& is_utf8(t.name)
    &&& (flexible ==> t.name.len() + 1 <= u32::MAX)
    &&& (!flexible ==> t.name.len() <= i16::MAX)
    &&& forall|i: int| 0 <= i < t.partitions.len() ==> spec_partition_target_wf(
        #[trigger] t.partitions[i],
        v,
    )
    &&& (flexible ==> t.partitions.len() + 1 <= u32::MAX)
    &&& (!flexible ==> t.partitions.len() <= i32::MAX)
    &&& spec_tagged_wf(t.tagged_fields)
    &&& (!flexible ==> t.tagged_fields.len() == 0)
}

pub open spec fn spec_produce_request_wf(r: ProduceRequestView, v: i16) -> bool {
    let flexible = spec_produce_flexible(v);
    &&& r.transactional_id matches Some(b) ==> is_utf8(b) && b.len() + 1 <= u32::MAX && b.len()
        <= i16::MAX
    &&& forall|i: int| 0 <= i < r.topics.len() ==> spec_topic_target_wf(#[trigger] r.topics[i], v)
    &&& (flexible ==> r.topics.len() + 1 <= u32::MAX)
    &&& (!flexible ==> r.topics.len() <= i32::MAX)
    &&& spec_tagged_wf(r.tagged_fields)
    &&& (!flexible ==> r.tagged_fields.len() == 0)
}

// ---------------------------------------------------------------------------
// Specification-level encoding
// ---------------------------------------------------------------------------

#[verifier::opaque]
pub open spec fn spec_encode_partition_target(p: PartitionTargetView, v: i16) -> Seq<u8>
    recommends
        spec_partition_target_wf(p, v),
{
    let flexible = spec_produce_flexible(v);
    spec_i32_to_be_bytes(p.index) + (if flexible {
        spec_encode_compact_bytes(Some(spec_encode_batch(p.records)))
    } else {
        spec_encode_legacy_bytes(Some(spec_encode_batch(p.records)))
    }) + (if flexible {
        spec_encode_tagged_fields(p.tagged_fields)
    } else {
        Seq::empty()
    })
}

pub open spec fn spec_encode_partition_targets(ps: Seq<PartitionTargetView>, v: i16) -> Seq<u8>
    decreases ps.len(),
{
    if ps.len() == 0 {
        Seq::empty()
    } else {
        spec_encode_partition_target(ps[0], v) + spec_encode_partition_targets(ps.skip(1), v)
    }
}

#[verifier::opaque]
pub open spec fn spec_encode_topic_target(t: TopicTargetView, v: i16) -> Seq<u8>
    recommends
        spec_topic_target_wf(t, v),
{
    let flexible = spec_produce_flexible(v);
    (if flexible {
        spec_encode_compact_string(Some(t.name))
    } else {
        spec_encode_nullable_string(Some(t.name))
    }) + spec_encode_array_count(t.partitions.len(), flexible) + spec_encode_partition_targets(
        t.partitions,
        v,
    ) + (if flexible {
        spec_encode_tagged_fields(t.tagged_fields)
    } else {
        Seq::empty()
    })
}

pub open spec fn spec_encode_topic_targets(ts: Seq<TopicTargetView>, v: i16) -> Seq<u8>
    decreases ts.len(),
{
    if ts.len() == 0 {
        Seq::empty()
    } else {
        spec_encode_topic_target(ts[0], v) + spec_encode_topic_targets(ts.skip(1), v)
    }
}

/// The request body at version `v`: the transactional ID where its gate
/// admits it, the acknowledgement code, the timeout, the topics, and the
/// tagged-field block at flexible versions.
pub open spec fn spec_encode_produce_request(r: ProduceRequestView, v: i16) -> Seq<u8>
    recommends
        spec_produce_request_wf(r, v),
        r.transactional_id is Some ==> spec_field_present(spec_transactional_id_field(), v),
{
    let flexible = spec_produce_flexible(v);
    (if spec_field_present(spec_transactional_id_field(), v) {
        if flexible {
            spec_encode_compact_string(r.transactional_id)
        } else {
            spec_encode_nullable_string(r.transactional_id)
        }
    } else {
        Seq::<u8>::empty()
    }) + (spec_i16_to_be_bytes(spec_ack_code(r.acks)) + (spec_i32_to_be_bytes(r.timeout) + (
    spec_encode_array_count(r.topics.len(), flexible) + (spec_encode_topic_targets(r.topics, v) + (
    if flexible {
        spec_encode_tagged_fields(r.tagged_fields)
    } else {
        Seq::<u8>::empty()
    })))))
}

// ---------------------------------------------------------------------------
// Specification-level decoding
// ---------------------------------------------------------------------------

#[verifier::opaque]
pub open spec fn spec_read_partition_target(s: Seq<u8>, pos: int, v: i16) -> SpecRead<
    PartitionTargetView,
> {
    let flexible = spec_produce_flexible(v);
    match spec_read_i32_be(s, pos) {
        Ok((index, p1)) => {
            let buffer_read = if flexible {
                spec_read_compact_bytes(s, p1)
            } else {
                spec_read_legacy_bytes(s, p1)
            };
            match buffer_read {
                Ok((bb, p2)) => match bb {
                    None => Err(Error::Truncated),
                    Some(batch_bytes) => match spec_read_batch(batch_bytes) {
                        Ok(records) => if flexible {
                            match spec_read_tagged_fields(s, p2) {
                                Ok((tagged_fields, end)) => Ok(
                                    (PartitionTargetView { index, records, tagged_fields }, end),
                                ),
                                Err(e) => Err(e),
                            }
                        } else {
                            Ok(
                                (
                                    PartitionTargetView {
                                        index,
                                        records,
                                        tagged_fields: Seq::empty(),
                                    },
                                    p2,
                                ),
                            )
                        },
                        Err(e) => Err(e),
                    },
                },
                Err(e) => Err(e),
            }
        },
        Err(e) => Err(e),
    }
}

pub open spec fn spec_read_partition_targets(s: Seq<u8>, pos: int, count: nat, v: i16) -> SpecRead<
    Seq<PartitionTargetView>,
>
    decreases count,
{
    if count == 0 {
        Ok((Seq::empty(), pos))
    } else {
        match spec_read_partition_target(s, pos, v) {
            Ok((p, p1)) => match spec_read_partition_targets(s, p1, (count - 1) as nat, v) {
                Ok((rest, end)) => Ok((seq![p] + rest, end)),
                Err(e) => Err(e),
            },
            Err(e) => Err(e),
        }
    }
}

#[verifier::opaque]
pub open spec fn spec_read_topic_target(s: Seq<u8>, pos: int, v: i16) -> SpecRead<
    TopicTargetView,
> {
    let flexible = spec_produce_flexible(v);
    let name_read = if flexible {
        spec_read_compact_string(s, pos)
    } else {
        spec_read_nullable_string(s, pos)
    };
    match name_read {
        Ok((n, p1)) => match n {
            None => Err(Error::Truncated),
            Some(name) => match spec_read_array_count(s, p1, flexible) {
                Ok((count, p2)) => match spec_read_partition_targets(s, p2, count as nat, v) {
                    Ok((partitions, p3)) => if flexible {
                        match spec_read_tagged_fields(s, p3) {
                            Ok((tagged_fields, end)) => Ok(
                                (TopicTargetView { name, partitions, tagged_fields }, end),
                            ),
                            Err(e) => Err(e),
                        }
                    } else {
                        Ok((TopicTargetView { name, partitions, tagged_fields: Seq::empty() }, p3))
                    },
                    Err(e) => Err(e),
                },
                Err(e) => Err(e),
            },
        },
        Err(e) => Err(e),
    }
}

pub open spec fn spec_read_topic_targets(s: Seq<u8>, pos: int, count: nat, v: i16) -> SpecRead<
    Seq<TopicTargetView>,
>
    decreases count,
{
    if count == 0 {
        Ok((Seq::empty(), pos))
    } else {
        match spec_read_topic_target(s, pos, v) {
            Ok((t, p1)) => match spec_read_topic_targets(s, p1, (count - 1) as nat, v) {
                Ok((rest, end)) => Ok((seq![t] + rest, end)),
                Err(e) => Err(e),
            },
            Err(e) => Err(e),
        }
    }
}

/// Reads a produce request body at version `v`. A version outside the
/// registry's supported range fails with `UnsupportedVersion`; an
/// acknowledgement code outside its table fails with
/// `InvalidAckRequirement`.
pub open spec fn spec_read_produce_request(s: Seq<u8>, pos: int, v: i16) -> SpecRead<
    ProduceRequestView,
> {
    let flexible = spec_produce_flexible(v);
    if !(PRODUCE_MIN_VERSION <= v <= PRODUCE_MAX_VERSION) {
        Err(Error::UnsupportedVersion(v))
    } else {
        let tid_read: SpecRead<Option<Seq<u8>>> = if spec_field_present(
            spec_transactional_id_field(),
            v,
        ) {
            if flexible {
                spec_read_compact_string(s, pos)
            } else {
                spec_read_nullable_string(s, pos)
            }
        } else {
            Ok((None, pos))
        };
        match tid_read {
            Ok((transactional_id, p1)) => match spec_read_i16_be(s, p1) {
                Ok((ack_code, p2)) => match spec_ack_from_code(ack_code) {
                    None => Err(Error::InvalidAckRequirement(ack_code)),
                    Some(acks) => match spec_read_i32_be(s, p2) {
                        Ok((timeout, p3)) => match spec_read_array_count(s, p3, flexible) {
                            Ok((count, p4)) => match spec_read_topic_targets(
                                s,
                                p4,
                                count as nat,
                                v,
                            ) {
                                Ok((topics, p5)) => if flexible {
                                    match spec_read_tagged_fields(s, p5) {
                                        Ok((tagged_fields, end)) => Ok(
                                            (
                                                ProduceRequestView {
                                                    transactional_id,
                                                    acks,
                                                    timeout,
                                                    topics,
                                                    tagged_fields,
                                                },
                                                end,
                                            ),
                                        ),
                                        Err(e) => Err(e),
                                    }
                                } else {
                                    Ok(
                                        (
                                            ProduceRequestView {
                                                transactional_id,
                                                acks,
                                                timeout,
                                                topics,
                                                tagged_fields: Seq::empty(),
                                            },
                                            p5,
                                        ),
                                    )
                                },
                                Err(e) => Err(e),
                            },
                            Err(e) => Err(e),
                        },
                        Err(e) => Err(e),
                    },
                },
                Err(e) => Err(e),
            },
            Err(e) => Err(e),
        }
    }
}

// ---------------------------------------------------------------------------
// Round trips
// ---------------------------------------------------------------------------

pub proof fn lemma_encode_partition_targets_app(
    a: Seq<PartitionTargetView>,
    b: Seq<PartitionTargetView>,
    v: i16,
)
    ensures
        spec_encode_partition_targets(a + b, v) == spec_encode_partition_targets(a, v)
            + spec_encode_partition_targets(b, v),
    decreases a.len(),
{
    if a.len() == 0 {
        assert(a + b =~= b);
        assert(spec_encode_partition_targets(a, v) =~= Seq::<u8>::empty());
        assert(spec_encode_partition_targets(a, v) + spec_encode_partition_targets(b, v)
            =~= spec_encode_partition_targets(b, v));
    } else {
        assert((a + b)[0] == a[0]);
        assert((a + b).skip(1) =~= a.skip(1) + b);
        lemma_encode_partition_targets_app(a.skip(1), b, v);
        assert(spec_encode_partition_targets(a + b, v) =~= spec_encode_partition_target(a[0], v)
            + (spec_encode_partition_targets(a.skip(1), v) + spec_encode_partition_targets(b, v)));
        assert(spec_encode_partition_target(a[0], v) + (spec_encode_partition_targets(a.skip(1), v)
            + spec_encode_partition_targets(b, v)) =~= (spec_encode_partition_target(a[0], v)
            + spec_encode_partition_targets(a.skip(1), v)) + spec_encode_partition_targets(b, v));
    }
}

pub proof fn lemma_encode_topic_targets_app(
    a: Seq<TopicTargetView>,
    b: Seq<TopicTargetView>,
    v: i16,
)
    ensures
        spec_encode_topic_targets(a + b, v) == spec_encode_topic_targets(a, v)
            + spec_encode_topic_targets(b, v),
    decreases a.len(),
{
    if a.len() == 0 {
        assert(a + b =~= b);
        assert(spec_encode_topic_targets(a, v) =~= Seq::<u8>::empty());
        assert(spec_encode_topic_targets(a, v) + spec_encode_topic_targets(b, v)
            =~= spec_encode_topic_targets(b, v));
    } else {
        assert((a + b)[0] == a[0]);
        assert((a + b).skip(1) =~= a.skip(1) + b);
        lemma_encode_topic_targets_app(a.skip(1), b, v);
        assert(spec_encode_topic_targets(a + b, v) =~= spec_encode_topic_target(a[0], v) + (
        spec_encode_topic_targets(a.skip(1), v) + spec_encode_topic_targets(b, v)));
        assert(spec_encode_topic_target(a[0], v) + (spec_encode_topic_targets(a.skip(1), v)
            + spec_encode_topic_targets(b, v)) =~= (spec_encode_topic_target(a[0], v)
            + spec_encode_topic_targets(a.skip(1), v)) + spec_encode_topic_targets(b, v));
    }
}

/// Reading back an encoded well-formed partition target returns exactly it.
#[verifier::rlimit(100)]
#[verifier::spinoff_prover]
pub proof fn lemma_partition_target_roundtrip(
    s: Seq<u8>,
    pos: int,
    p: PartitionTargetView,
    v: i16,
)
    requires
        0 <= pos,
        spec_partition_target_wf(p, v),
        pos + spec_encode_partition_target(p, v).len() <= s.len(),
        s.subrange(pos, pos + spec_encode_partition_target(p, v).len())
            == spec_encode_partition_target(p, v),
    ensures
        spec_read_partition_target(s, pos, v) == Ok::<_, Error>(
            (p, pos + spec_encode_partition_target(p, v).len() as int),
        ),
{
    reveal(spec_encode_partition_target);
    reveal(spec_read_partition_target);
    let flexible = spec_produce_flexible(v);
    let e = spec_encode_partition_target(p, v);
    let batch = spec_encode_batch(p.records);
    let c0 = spec_i32_to_be_bytes(p.index);
    let c1 = if flexible {
        spec_encode_compact_bytes(Some(batch))
    } else {
        spec_encode_legacy_bytes(Some(batch))
    };
    assert(s.subrange(pos, pos + 4) =~= e.subrange(0, 4));
    assert(e.subrange(0, 4) =~= c0);
    crate::primitives::lemma_read_i32_be_of_encoding(s, pos, p.index);
    let p1 = pos + 4;
    assert(s.subrange(p1, p1 + c1.len() as int) =~= e.subrange(4, 4 + c1.len() as int));
    assert(e.subrange(4, 4 + c1.len() as int) =~= c1);
    if flexible {
        crate::strings::lemma_compact_bytes_roundtrip(s, p1, Some(batch));
    } else {
        crate::strings::lemma_legacy_bytes_roundtrip(s, p1, Some(batch));
    }
    crate::records::lemma_batch_roundtrip(p.records);
    let p2 = p1 + c1.len() as int;
    if flexible {
        let c2 = spec_encode_tagged_fields(p.tagged_fields);
        assert(s.subrange(p2, p2 + c2.len() as int) =~= e.subrange(
            4 + c1.len() as int,
            e.len() as int,
        ));
        assert(e.subrange(4 + c1.len() as int, e.len() as int) =~= c2);
        crate::tagged::lemma_tagged_fields_roundtrip(s, p2, p.tagged_fields);
    } else {
        assert(p.tagged_fields =~= Seq::<(u32, Seq<u8>)>::empty());
        assert(pos + e.len() == p2);
    }
}

/// Reading back an encoded run of well-formed partition targets returns
/// exactly it.
pub proof fn lemma_partition_targets_roundtrip(
    s: Seq<u8>,
    pos: int,
    ps: Seq<PartitionTargetView>,
    v: i16,
)
    requires
        0 <= pos,
        forall|i: int| 0 <= i < ps.len() ==> spec_partition_target_wf(#[trigger] ps[i], v),
        pos + spec_encode_partition_targets(ps, v).len() <= s.len(),
        s.subrange(pos, pos + spec_encode_partition_targets(ps, v).len())
            == spec_encode_partition_targets(ps, v),
    ensures
        spec_read_partition_targets(s, pos, ps.len(), v) == Ok::<_, Error>(
            (ps, pos + spec_encode_partition_targets(ps, v).len() as int),
        ),
    decreases ps.len(),
{
    if ps.len() == 0 {
        assert(ps =~= Seq::<PartitionTargetView>::empty());
        assert(spec_encode_partition_targets(ps, v).len() == 0);
    } else {
        let e = spec_encode_partition_targets(ps, v);
        let pe = spec_encode_partition_target(ps[0], v);
        let rest_enc = spec_encode_partition_targets(ps.skip(1), v);
        assert(e =~= pe + rest_enc);
        assert(s.subrange(pos, pos + pe.len() as int) =~= e.subrange(0, pe.len() as int));
        assert(e.subrange(0, pe.len() as int) =~= pe);
        lemma_partition_target_roundtrip(s, pos, ps[0], v);
        let p1 = pos + pe.len() as int;
        assert(s.subrange(p1, p1 + rest_enc.len() as int) =~= e.subrange(
            pe.len() as int,
            e.len() as int,
        ));
        assert(e.subrange(pe.len() as int, e.len() as int) =~= rest_enc);
        assert(forall|i: int| 0 <= i < ps.skip(1).len() ==> spec_partition_target_wf(
            #[trigger] ps.skip(1)[i],
            v,
        )) by {
            assert(forall|i: int| 0 <= i < ps.skip(1).len() ==> ps.skip(1)[i] == ps[i + 1]);
        }
        lemma_partition_targets_roundtrip(s, p1, ps.skip(1), v);
        assert(seq![ps[0]] + ps.skip(1) =~= ps);
        assert(pos + e.len() == p1 + rest_enc.len());
    }
}

/// Reading back an encoded well-formed topic target returns exactly it.
#[verifier::rlimit(100)]
#[verifier::spinoff_prover]
pub proof fn lemma_topic_target_roundtrip(s: Seq<u8>, pos: int, t: TopicTargetView, v: i16)
    requires
        0 <= pos,
        spec_topic_target_wf(t, v),
        pos + spec_encode_topic_target(t, v).len() <= s.len(),
        s.subrange(pos, pos + spec_encode_topic_target(t, v).len()) == spec_encode_topic_target(
            t,
            v,
        ),
    ensures
        spec_read_topic_target(s, pos, v) == Ok::<_, Error>(
            (t, pos + spec_encode_topic_target(t, v).len() as int),
        ),
{
    reveal(spec_encode_topic_target);
    reveal(spec_read_topic_target);
    let flexible = spec_produce_flexible(v);
    let e = spec_encode_topic_target(t, v);
    let c0 = if flexible {
        spec_encode_compact_string(Some(t.name))
    } else {
        spec_encode_nullable_string(Some(t.name))
    };
    let c1 = spec_encode_array_count(t.partitions.len(), flexible);
    let c2 = spec_encode_partition_targets(t.partitions, v);
    assert(s.subrange(pos, pos + c0.len() as int) =~= e.subrange(0, c0.len() as int));
    assert(e.subrange(0, c0.len() as int) =~= c0);
    if flexible {
        crate::strings::lemma_compact_string_roundtrip(s, pos, Some(t.name));
    } else {
        crate::strings::lemma_nullable_string_roundtrip(s, pos, Some(t.name));
    }
    let p1 = pos + c0.len() as int;
    assert(s.subrange(p1, p1 + c1.len() as int) =~= e.subrange(
        c0.len() as int,
        c0.len() + c1.len() as int,
    ));
    assert(e.subrange(c0.len() as int, c0.len() + c1.len() as int) =~= c1);
    crate::arrays::lemma_array_count_roundtrip(s, p1, t.partitions.len(), flexible);
    let p2 = p1 + c1.len() as int;
    assert(s.subrange(p2, p2 + c2.len() as int) =~= e.subrange(
        c0.len() + c1.len() as int,
        c0.len() + c1.len() + c2.len() as int,
    ));
    assert(e.subrange(c0.len() + c1.len() as int, c0.len() + c1.len() + c2.len() as int) =~= c2);
    lemma_partition_targets_roundtrip(s, p2, t.partitions, v);
    let p3 = p2 + c2.len() as int;
    if flexible {
        let c3 = spec_encode_tagged_fields(t.tagged_fields);
        assert(s.subrange(p3, p3 + c3.len() as int) =~= e.subrange(
            c0.len() + c1.len() + c2.len() as int,
            e.len() as int,
        ));
        assert(e.subrange(c0.len() + c1.len() + c2.len() as int, e.len() as int) =~= c3);
        crate::tagged::lemma_tagged_fields_roundtrip(s, p3, t.tagged_fields);
    } else {
        assert(t.tagged_fields =~= Seq::<(u32, Seq<u8>)>::empty());
        assert(pos + e.len() == p3);
    }
}

/// Reading back an encoded run of well-formed topic targets returns exactly
/// it.
pub proof fn lemma_topic_targets_roundtrip(s: Seq<u8>, pos: int, ts: Seq<TopicTargetView>, v: i16)
    requires
        0 <= pos,
        forall|i: int| 0 <= i < ts.len() ==> spec_topic_target_wf(#[trigger] ts[i], v),
        pos + spec_encode_topic_targets(ts, v).len() <= s.len(),
        s.subrange(pos, pos + spec_encode_topic_targets(ts, v).len()) == spec_encode_topic_targets(
            ts,
            v,
        ),
    ensures
        spec_read_topic_targets(s, pos, ts.len(), v) == Ok::<_, Error>(
            (ts, pos + spec_encode_topic_targets(ts, v).len() as int),
        ),
    decreases ts.len(),
{
    if ts.len() == 0 {
        assert(ts =~= Seq::<TopicTargetView>::empty());
        assert(spec_encode_topic_targets(ts, v).len() == 0);
    } else {
        let e = spec_encode_topic_targets(ts, v);
        let te = spec_encode_topic_target(ts[0], v);
        let rest_enc = spec_encode_topic_targets(ts.skip(1), v);
        assert(e =~= te + rest_enc);
        assert(s.subrange(pos, pos + te.len() as int) =~= e.subrange(0, te.len() as int));
        assert(e.subrange(0, te.len() as int) =~= te);
        lemma_topic_target_roundtrip(s, pos, ts[0], v);
        let p1 = pos + te.len() as int;
        assert(s.subrange(p1, p1 + rest_enc.len() as int) =~= e.subrange(
            te.len() as int,
            e.len() as int,
        ));
        assert(e.subrange(te.len() as int, e.len() as int) =~= rest_enc);
        assert(forall|i: int| 0 <= i < ts.skip(1).len() ==> spec_topic_target_wf(
            #[trigger] ts.skip(1)[i],
            v,
        )) by {
            assert(forall|i: int| 0 <= i < ts.skip(1).len() ==> ts.skip(1)[i] == ts[i + 1]);
        }
        lemma_topic_targets_roundtrip(s, p1, ts.skip(1), v);
        assert(seq![ts[0]] + ts.skip(1) =~= ts);
        assert(pos + e.len() == p1 + rest_enc.len());
    }
}

/// Round trip: decoding the encoding of a well-formed produce request at a
/// supported version, with every supplied field admitted by its version
/// gate, returns exactly that request.
#[verifier::rlimit(100)]
#[verifier::spinoff_prover]
pub proof fn lemma_produce_request_roundtrip(s: Seq<u8>, pos: int, r: ProduceRequestView, v: i16)
    requires
        0 <= pos,
        PRODUCE_MIN_VERSION <= v <= PRODUCE_MAX_VERSION,
        r.transactional_id is Some ==> spec_field_present(spec_transactional_id_field(), v),
        spec_produce_request_wf(r, v),
        pos + spec_encode_produce_request(r, v).len() <= s.len(),
        s.subrange(pos, pos + spec_encode_produce_request(r, v).len())
            == spec_encode_produce_request(r, v),
    ensures
        spec_read_produce_request(s, pos, v) == Ok::<_, Error>(
            (r, pos + spec_encode_produce_request(r, v).len() as int),
        ),
{
    let flexible = spec_produce_flexible(v);
    let enc = spec_encode_produce_request(r, v);
    let c0 = if spec_field_present(spec_transactional_id_field(), v) {
        if flexible {
            spec_encode_compact_string(r.transactional_id)
        } else {
            spec_encode_nullable_string(r.transactional_id)
        }
    } else {
        Seq::<u8>::empty()
    };
    let c1 = spec_i16_to_be_bytes(spec_ack_code(r.acks));
    let c2 = spec_i32_to_be_bytes(r.timeout);
    let c3 = spec_encode_array_count(r.topics.len(), flexible);
    let c4 = spec_encode_topic_targets(r.topics, v);
    let c5 = if flexible {
        spec_encode_tagged_fields(r.tagged_fields)
    } else {
        Seq::<u8>::empty()
    };
    let r5 = c4 + c5;
    let r4 = c3 + r5;
    let r3 = c2 + r4;
    let r2 = c1 + r3;
    assert(enc == c0 + r2);
    crate::primitives::lemma_concat_placement(s, pos, c0, r2);
    let p1 = pos + c0.len() as int;
    crate::primitives::lemma_concat_placement(s, p1, c1, r3);
    let p2 = p1 + 2;
    crate::primitives::lemma_concat_placement(s, p2, c2, r4);
    let p3 = p2 + 4;
    crate::primitives::lemma_concat_placement(s, p3, c3, r5);
    let p4 = p3 + c3.len() as int;
    crate::primitives::lemma_concat_placement(s, p4, c4, c5);
    let p5 = p4 + c4.len() as int;
    if spec_field_present(spec_transactional_id_field(), v) {
        if flexible {
            crate::strings::lemma_compact_string_roundtrip(s, pos, r.transactional_id);
        } else {
            crate::strings::lemma_nullable_string_roundtrip(s, pos, r.transactional_id);
        }
    }
    crate::primitives::lemma_read_i16_be_of_encoding(s, p1, spec_ack_code(r.acks));
    crate::acks::lemma_ack_table_bijective();
    crate::primitives::lemma_read_i32_be_of_encoding(s, p2, r.timeout);
    crate::arrays::lemma_array_count_roundtrip(s, p3, r.topics.len(), flexible);
    lemma_topic_targets_roundtrip(s, p4, r.topics, v);
    if flexible {
        crate::tagged::lemma_tagged_fields_roundtrip(s, p5, r.tagged_fields);
    } else {
        assert(r.tagged_fields =~= Seq::<(u32, Seq<u8>)>::empty());
    }
    assert(pos + enc.len() == p5 + c5.len());
}

// ---------------------------------------------------------------------------
// Executable form
// ---------------------------------------------------------------------------

fn write_partition_target(out: &mut Vec<u8>, p: &PartitionProduceTarget, version: i16)
    requires
        spec_partition_target_wf(p@, version),
    ensures
        final(out)@ == old(out)@ + spec_encode_partition_target(p@, version),
{
    proof {
        reveal(spec_encode_partition_target);
        reveal(crate::records::spec_batch_wf);
    }
    let flexible = version >= PRODUCE_FLEXIBLE_FROM;
    let batch = p.records.encode_batch();
    write_i32_be(out, p.index);
    if flexible {
        write_compact_bytes(out, Some(&batch));
    } else {
        write_legacy_bytes(out, Some(&batch));
    }
    if flexible {
        p.tagged_fields.write(out);
    }
    assert(final(out)@ =~= old(out)@ + spec_encode_partition_target(p@, version));
}

fn write_topic_target(out: &mut Vec<u8>, t: &TopicProduceTarget, version: i16)
    requires
        spec_topic_target_wf(t@, version),
    ensures
        final(out)@ == old(out)@ + spec_encode_topic_target(t@, version),
{
    proof {
        reveal(spec_encode_topic_target);
    }
    let flexible = version >= PRODUCE_FLEXIBLE_FROM;
    if flexible {
        write_compact_string(out, Some(&t.name));
    } else {
        write_nullable_string(out, Some(&t.name));
    }
    let n = t.partitions.len();
    proof {
        assert(t@.partitions.len() == n);
    }
    write_array_count(out, n, flexible);
    let ghost base = out@;
    let ghost pv = t@.partitions;
    assert(out@ =~= base + spec_encode_partition_targets(pv.take(0), version));
    let mut i: usize = 0;
    while i < n
        invariant
            i <= n,
            n == t.partitions@.len(),
            pv == t@.partitions,
            spec_topic_target_wf(t@, version),
            out@ == base + spec_encode_partition_targets(pv.take(i as int), version),
        decreases n - i,
    {
        proof {
            assert(pv[i as int] == t.partitions@[i as int]@);
            assert(spec_partition_target_wf(pv[i as int], version));
        }
        write_partition_target(out, &t.partitions[i], version);
        proof {
            assert(pv.take(i + 1) =~= pv.take(i as int) + seq![pv[i as int]]);
            lemma_encode_partition_targets_app(pv.take(i as int), seq![pv[i as int]], version);
            assert(seq![pv[i as int]].skip(1) =~= Seq::<PartitionTargetView>::empty());
            assert(spec_encode_partition_targets(seq![pv[i as int]], version)
                =~= spec_encode_partition_target(seq![pv[i as int]][0], version)
                + spec_encode_partition_targets(seq![pv[i as int]].skip(1), version));
            assert(out@ =~= base + spec_encode_partition_targets(pv.take(i + 1), version));
        }
        i = i + 1;
    }
    proof {
        assert(pv.take(n as int) =~= pv);
    }
    if flexible {
        t.tagged_fields.write(out);
    }
    assert(final(out)@ =~= old(out)@ + spec_encode_topic_target(t@, version));
}

fn read_partition_target(buf: &[u8], pos: usize, version: i16) -> (r: Result<
    (PartitionProduceTarget, usize),
    Error,
>)
    ensures
        match r {
            Ok((p, end)) => spec_read_partition_target(buf@, pos as int, version) == Ok::<
                _,
                Error,
            >((p@, end as int)),
            Err(e) => spec_read_partition_target(buf@, pos as int, version) == Err::<
                (PartitionTargetView, int),
                _,
            >(e),
        },
{
    proof {
        reveal(spec_read_partition_target);
    }
    let flexible = version >= PRODUCE_FLEXIBLE_FROM;
    let (index, p1) = match read_i32_be(buf, pos) {
        Ok(x) => x,
        Err(e) => {
            return Err(e);
        },
    };
    let (bb, p2) = if flexible {
        match read_compact_bytes(buf, p1) {
            Ok(x) => x,
            Err(e) => {
                return Err(e);
            },
        }
    } else {
        match read_legacy_bytes(buf, p1) {
            Ok(x) => x,
            Err(e) => {
                return Err(e);
            },
        }
    };
    let batch_bytes = match bb {
        None => {
            return Err(Error::Truncated);
        },
        Some(b) => b,
    };
    let records = match Records::decode_batch(batch_bytes.as_slice()) {
        Ok(b) => b,
        Err(e) => {
            return Err(e);
        },
    };
    if flexible {
        match TaggedFields::read(buf, p2) {
            Ok((tagged_fields, end)) => Ok(
                (PartitionProduceTarget { index, records, tagged_fields }, end),
            ),
            Err(e) => Err(e),
        }
    } else {
        let p = PartitionProduceTarget { index, records, tagged_fields: TaggedFields::empty() };
        proof {
            assert(p@.tagged_fields =~= Seq::<(u32, Seq<u8>)>::empty());
        }
        Ok((p, p2))
    }
}

fn read_partition_targets(buf: &[u8], pos: usize, count: u32, version: i16) -> (r: Result<
    (Vec<PartitionProduceTarget>, usize),
    Error,
>)
    ensures
        match r {
            Ok((v, end)) => spec_read_partition_targets(buf@, pos as int, count as nat, version)
                == Ok::<_, Error>(
                (v@.map_values(|p: PartitionProduceTarget| p@), end as int),
            ),
            Err(e) => spec_read_partition_targets(buf@, pos as int, count as nat, version)
                == Err::<(Seq<PartitionTargetView>, int), _>(e),
        },
{
    let ghost s = buf@;
    let mut acc: Vec<PartitionProduceTarget> = Vec::new();
    let mut cur: usize = pos;
    let mut i: u32 = 0;
    proof {
        assert(acc@.map_values(|p: PartitionProduceTarget| p@) =~= Seq::<
            PartitionTargetView,
        >::empty());
        match spec_read_partition_targets(s, pos as int, count as nat, version) {
            Ok((rest, end)) => {
                assert(Seq::<PartitionTargetView>::empty() + rest =~= rest);
            },
            Err(_) => {},
        }
    }
    loop
        invariant
            i <= count,
            s == buf@,
            spec_read_partition_targets(s, pos as int, count as nat, version) == (
            match spec_read_partition_targets(s, cur as int, (count - i) as nat, version) {
                Ok((rest, end)) => Ok::<_, Error>(
                    (acc@.map_values(|p: PartitionProduceTarget| p@) + rest, end),
                ),
                Err(e) => Err(e),
            }),
        ensures
            i == count,
            spec_read_partition_targets(s, pos as int, count as nat, version) == Ok::<_, Error>(
                (acc@.map_values(|p: PartitionProduceTarget| p@), cur as int),
            ),
        decreases count - i,
    {
        let ghost acc_v = acc@.map_values(|p: PartitionProduceTarget| p@);
        if i >= count {
            proof {
                assert(spec_read_partition_targets(s, cur as int, 0, version) == Ok::<_, Error>(
                    (Seq::<PartitionTargetView>::empty(), cur as int),
                ));
                assert(acc_v + Seq::<PartitionTargetView>::empty() =~= acc_v);
            }
            break ;
        }
        let ghost remaining = (count - i) as nat;
        match read_partition_target(buf, cur, version) {
            Ok((p, np)) => {
                proof {
                    assert(acc@.push(p).map_values(|g: PartitionProduceTarget| g@) =~= acc_v
                        + seq![p@]);
                    match spec_read_partition_targets(s, np as int, (remaining - 1) as nat,
                    version) {
                        Ok((rest, end)) => {
                            assert((acc_v + seq![p@]) + rest =~= acc_v + (seq![p@] + rest));
                        },
                        Err(_) => {},
                    }
                }
                acc.push(p);
                cur = np;
                i = i + 1;
            },
            Err(e) => {
                proof {
                    assert(spec_read_partition_targets(s, cur as int, remaining, version) == Err::<
                        (Seq<PartitionTargetView>, int),
                        _,
                    >(e));
                }
                return Err(e);
            },
        }
    }
    Ok((acc, cur))
}

fn read_topic_target(buf: &[u8], pos: usize, version: i16) -> (r: Result<
    (TopicProduceTarget, usize),
    Error,
>)
    ensures
        match r {
            Ok((t, end)) => spec_read_topic_target(buf@, pos as int, version) == Ok::<_, Error>(
                (t@, end as int),
            ),
            Err(e) => spec_read_topic_target(buf@, pos as int, version) == Err::<
                (TopicTargetView, int),
                _,
            >(e),
        },
{
    proof {
        reveal(spec_read_topic_target);
    }
    let flexible = version >= PRODUCE_FLEXIBLE_FROM;
    let (n, p1) = if flexible {
        match read_compact_string(buf, pos) {
            Ok(x) => x,
            Err(e) => {
                return Err(e);
            },
        }
    } else {
        match read_nullable_string(buf, pos) {
            Ok(x) => x,
            Err(e) => {
                return Err(e);
            },
        }
    };
    let name = match n {
        None => {
            return Err(Error::Truncated);
        },
        Some(w) => w,
    };
    let (count, p2) = match read_array_count(buf, p1, flexible) {
        Ok(x) => x,
        Err(e) => {
            return Err(e);
        },
    };
    let (partitions, p3) = match read_partition_targets(buf, p2, count, version) {
        Ok(x) => x,
        Err(e) => {
            return Err(e);
        },
    };
    if flexible {
        match TaggedFields::read(buf, p3) {
            Ok((tagged_fields, end)) => Ok(
                (TopicProduceTarget { name, partitions, tagged_fields }, end),
            ),
            Err(e) => Err(e),
        }
    } else {
        let t = TopicProduceTarget { name, partitions, tagged_fields: TaggedFields::empty() };
        proof {
            assert(t@.tagged_fields =~= Seq::<(u32, Seq<u8>)>::empty());
        }
        Ok((t, p3))
    }
}

fn read_topic_targets(buf: &[u8], pos: usize, count: u32, version: i16) -> (r: Result<
    (Vec<TopicProduceTarget>, usize),
    Error,
>)
    ensures
        match r {
            Ok((v, end)) => spec_read_topic_targets(buf@, pos as int, count as nat, version)
                == Ok::<_, Error>((v@.map_values(|t: TopicProduceTarget| t@), end as int)),
            Err(e) => spec_read_topic_targets(buf@, pos as int, count as nat, version) == Err::<
                (Seq<TopicTargetView>, int),
                _,
            >(e),
        },
{
    let ghost s = buf@;
    let mut acc: Vec<TopicProduceTarget> = Vec::new();
    let mut cur: usize = pos;
    let mut i: u32 = 0;
    proof {
        assert(acc@.map_values(|t: TopicProduceTarget| t@) =~= Seq::<TopicTargetView>::empty());
        match spec_read_topic_targets(s, pos as int, count as nat, version) {
            Ok((rest, end)) => {
                assert(Seq::<TopicTargetView>::empty() + rest =~= rest);
            },
            Err(_) => {},
        }
    }
    loop
        invariant
            i <= count,
            s == buf@,
            spec_read_topic_targets(s, pos as int, count as nat, version) == (
            match spec_read_topic_targets(s, cur as int, (count - i) as nat, version) {
                Ok((rest, end)) => Ok::<_, Error>(
                    (acc@.map_values(|t: TopicProduceTarget| t@) + rest, end),
                ),
                Err(e) => Err(e),
            }),
        ensures
            i == count,
            spec_read_topic_targets(s, pos as int, count as nat, version) == Ok::<_, Error>(
                (acc@.map_values(|t: TopicProduceTarget| t@), cur as int),
            ),
        decreases count - i,
    {
        let ghost acc_v = acc@.map_values(|t: TopicProduceTarget| t@);
        if i >= count {
            proof {
                assert(spec_read_topic_targets(s, cur as int, 0, version) == Ok::<_, Error>(
                    (Seq::<TopicTargetView>::empty(), cur as int),
                ));
                assert(acc_v + Seq::<TopicTargetView>::empty() =~= acc_v);
            }
            break ;
        }
        let ghost remaining = (count - i) as nat;
        match read_topic_target(buf, cur, version) {
            Ok((t, np)) => {
                proof {
                    assert(acc@.push(t).map_values(|g: TopicProduceTarget| g@) =~= acc_v
                        + seq![t@]);
                    match spec_read_topic_targets(s, np as int, (remaining - 1) as nat, version) {
                        Ok((rest, end)) => {
                            assert((acc_v + seq![t@]) + rest =~= acc_v + (seq![t@] + rest));
                        },
                        Err(_) => {},
                    }
                }
                acc.push(t);
                cur = np;
                i = i + 1;
            },
            Err(e) => {
                proof {
                    assert(spec_read_topic_targets(s, cur as int, remaining, version) == Err::<
                        (Seq<TopicTargetView>, int),
                        _,
                    >(e));
                }
                return Err(e);
            },
        }
    }
    Ok((acc, cur))
}

impl ProduceRequest {
    /// Serializes the request body at `version`. Success is owed exactly when
    /// the version is in the registry's supported range and every supplied
    /// field is admitted by its version gate: a version out of range fails
    /// with `UnsupportedVersion`, and a transactional ID supplied below its
    /// gate fails fast with `FieldVersionMismatch` rather than being dropped.
    #[verifier::rlimit(100)]
    #[verifier::spinoff_prover]
    pub fn encode(&self, version: i16) -> (r: Result<Vec<u8>, Error>)
        requires
            spec_produce_request_wf(self@, version),
        ensures
            match r {
                Ok(bytes) => PRODUCE_MIN_VERSION <= version <= PRODUCE_MAX_VERSION && (
                self@.transactional_id is Some ==> spec_field_present(
                    spec_transactional_id_field(),
                    version,
                )) && bytes@ == spec_encode_produce_request(self@, version),
                Err(e) => (e == Error::UnsupportedVersion(version) && !(PRODUCE_MIN_VERSION
                    <= version <= PRODUCE_MAX_VERSION)) || (e == Error::FieldVersionMismatch
                    && PRODUCE_MIN_VERSION <= version <= PRODUCE_MAX_VERSION
                    && self@.transactional_id is Some && !spec_field_present(
                    spec_transactional_id_field(),
                    version,
                )),
            },
    {
        if !(PRODUCE_MIN_VERSION <= version && version <= PRODUCE_MAX_VERSION) {
            return Err(Error::UnsupportedVersion(version));
        }
        let gate = transactional_id_field();
        let present = gate.present(version);
        if self.transactional_id.is_some() && !present {
            return Err(Error::FieldVersionMismatch);
        }
        let flexible = version >= PRODUCE_FLEXIBLE_FROM;
        let mut out: Vec<u8> = Vec::new();
        if present {
            if flexible {
                write_compact_string(
                    &mut out,
                    match &self.transactional_id {
                        None => None,
                        Some(w) => Some(w),
                    },
                );
            } else {
                write_nullable_string(
                    &mut out,
                    match &self.transactional_id {
                        None => None,
                        Some(w) => Some(w),
                    },
                );
            }
        }
        write_i16_be(&mut out, self.acks.code());
        write_i32_be(&mut out, self.timeout);
        let n = self.topics.len();
        proof {
            assert(self@.topics.len() == n);
        }
        write_array_count(&mut out, n, flexible);
        let ghost base = out@;
        let ghost tv = self@.topics;
        assert(out@ =~= base + spec_encode_topic_targets(tv.take(0), version));
        let mut i: usize = 0;
        while i < n
            invariant
                i <= n,
                n == self.topics@.len(),
                tv == self@.topics,
                spec_produce_request_wf(self@, version),
                out@ == base + spec_encode_topic_targets(tv.take(i as int), version),
            decreases n - i,
        {
            proof {
                assert(tv[i as int] == self.topics@[i as int]@);
                assert(spec_topic_target_wf(tv[i as int], version));
            }
            write_topic_target(&mut out, &self.topics[i], version);
            proof {
                assert(tv.take(i + 1) =~= tv.take(i as int) + seq![tv[i as int]]);
                lemma_encode_topic_targets_app(tv.take(i as int), seq![tv[i as int]], version);
                assert(seq![tv[i as int]].skip(1) =~= Seq::<TopicTargetView>::empty());
                assert(spec_encode_topic_targets(seq![tv[i as int]], version)
                    =~= spec_encode_topic_target(seq![tv[i as int]][0], version)
                    + spec_encode_topic_targets(seq![tv[i as int]].skip(1), version));
                assert(out@ =~= base + spec_encode_topic_targets(tv.take(i + 1), version));
            }
            i = i + 1;
        }
        proof {
            assert(tv.take(n as int) =~= tv);
        }
        if flexible {
            self.tagged_fields.write(&mut out);
        }
        proof {
            assert(out@ =~= spec_encode_produce_request(self@, version));
        }
        Ok(out)
    }

    /// Reads a request body at `version`.
    pub fn decode(buf: &[u8], pos: usize, version: i16) -> (r: Result<
        (ProduceRequest, usize),
        Error,
    >)
        ensures
            match r {
                Ok((req, end)) => spec_read_produce_request(buf@, pos as int, version) == Ok::<
                    _,
                    Error,
                >((req@, end as int)),
                Err(e) => spec_read_produce_request(buf@, pos as int, version) == Err::<
                    (ProduceRequestView, int),
                    _,
                >(e),
            },
    {
        if !(PRODUCE_MIN_VERSION <= version && version <= PRODUCE_MAX_VERSION) {
            return Err(Error::UnsupportedVersion(version));
        }
        let flexible = version >= PRODUCE_FLEXIBLE_FROM;
        let gate = transactional_id_field();
        let (transactional_id, p1) = if gate.present(version) {
            if flexible {
                match read_compact_string(buf, pos) {
                    Ok(x) => x,
                    Err(e) => {
                        return Err(e);
                    },
                }
            } else {
                match read_nullable_string(buf, pos) {
                    Ok(x) => x,
                    Err(e) => {
                        return Err(e);
                    },
                }
            }
        } else {
            (None, pos)
        };
        let (ack_code, p2) = match read_i16_be(buf, p1) {
            Ok(x) => x,
            Err(e) => {
                return Err(e);
            },
        };
        let acks = match AckRequirement::from_code(ack_code) {
            Ok(a) => a,
            Err(e) => {
                return Err(e);
            },
        };
        let (timeout, p3) = match read_i32_be(buf, p2) {
            Ok(x) => x,
            Err(e) => {
                return Err(e);
            },
        };
        let (count, p4) = match read_array_count(buf, p3, flexible) {
            Ok(x) => x,
            Err(e) => {
                return Err(e);
            },
        };
        let (topics, p5) = match read_topic_targets(buf, p4, count, version) {
            Ok(x) => x,
            Err(e) => {
                return Err(e);
            },
        };
        if flexible {
            match TaggedFields::read(buf, p5) {
                Ok((tagged_fields, end)) => Ok(
                    (
                        ProduceRequest {
                            transactional_id,
                            acks,
                            timeout,
                            topics,
                            tagged_fields,
                        },
                        end,
                    ),
                ),
                Err(e) => Err(e),
            }
        } else {
            let req = ProduceRequest {
                transactional_id,
                acks,
                timeout,
                topics,
                tagged_fields: TaggedFields::empty(),
            };
            proof {
                assert(req@.tagged_fields =~= Seq::<(u32, Seq<u8>)>::empty());
            }
            Ok((req, p5))
        }
    }
}

} // verus!
