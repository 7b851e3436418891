//! Tagged-field blocks: the extensible trailer of flexible protocol versions.
//!
//! A block is a varint count followed by entries of varint tag, varint
//! payload length, and raw payload bytes. Tags must be strictly increasing in
//! wire order; a decoder finding them out of order fails with `OutOfOrderTag`.
//! Unknown tags are preserved opaquely, payload bytes and all, so that
//! re-encoding a decoded message is byte-stable even when it carries fields
//! of a newer schema.

use vstd::prelude::*;

use crate::error::Error;
use crate::strings::copy_range;
use crate::varint::{spec_encode_varint, spec_read_varint, VarInt};
use crate::primitives::SpecRead;

verus! {

/// One tagged field: an unsigned tag and an opaque payload.
#[derive(Clone, Debug, PartialEq, Eq)]
pub struct TaggedField {
    pub tag: u32,
    pub payload: Vec<u8>,
}

impl View for TaggedField {
    type V = (u32, Seq<u8>);

    open spec fn view(&self) -> (u32, Seq<u8>) {
        (self.tag, self.payload@)
    }
}

/// An ordered block of tagged fields, tags unique and strictly increasing.
#[derive(Clone, Debug, PartialEq, Eq)]
pub struct TaggedFields {
    pub fields: Vec<TaggedField>,
}

impl View for TaggedFields {
    type V = Seq<(u32, Seq<u8>)>;

    open spec fn view(&self) -> Seq<(u32, Seq<u8>)> {
        self.fields@.map_values(|f: TaggedField| f@)
    }
}

/// Tags strictly increasing, every payload and the count encodable.
pub open spec fn spec_tagged_wf(s: Seq<(u32, Seq<u8>)>) -> bool {
    &&& forall|i: int, j: int| 0 <= i < j < s.len() ==> (#[trigger] s[i]).0 < (#[trigger] s[j]).0
    &&& forall|i: int| 0 <= i < s.len() ==> (#[trigger] s[i]).1.len() <= u32::MAX
    &&& s.len() <= u32::MAX
}

// ---------------------------------------------------------------------------
// Specification-level encoding
// ---------------------------------------------------------------------------

pub open spec fn spec_encode_tagged_entry(f: (u32, Seq<u8>)) -> Seq<u8> {
    spec_encode_varint(f.0) + spec_encode_varint(f.1.len() as u32) + f.1
}

pub open spec fn spec_encode_tagged_entries(s: Seq<(u32, Seq<u8>)>) -> Seq<u8>
    decreases s.len(),
{
    if s.len() == 0 {
        Seq::empty()
    } else {
        spec_encode_tagged_entry(s[0]) + spec_encode_tagged_entries(s.skip(1))
    }
}

/// The whole block: the entry count, then the entries.
pub open spec fn spec_encode_tagged_fields(s: Seq<(u32, Seq<u8>)>) -> Seq<u8>
    recommends
        spec_tagged_wf(s),
{
    spec_encode_varint(s.len() as u32) + spec_encode_tagged_entries(s)
}

pub proof fn lemma_encode_tagged_entries_app(a: Seq<(u32, Seq<u8>)>, b: Seq<(u32, Seq<u8>)>)
    ensures
        spec_encode_tagged_entries(a + b) == spec_encode_tagged_entries(a)
            + spec_encode_tagged_entries(b),
    decreases a.len(),
{
    if a.len() == 0 {
        assert(a + b =~= b);
        assert(spec_encode_tagged_entries(a) =~= Seq::<u8>::empty());
        assert(spec_encode_tagged_entries(a) + spec_encode_tagged_entries(b)
            =~= spec_encode_tagged_entries(b));
    } else {
        assert((a + b)[0] == a[0]);
        assert((a + b).skip(1) =~= a.skip(1) + b);
        lemma_encode_tagged_entries_app(a.skip(1), b);
        assert(spec_encode_tagged_entries(a + b) =~= spec_encode_tagged_entry(a[0]) + (
        spec_encode_tagged_entries(a.skip(1)) + spec_encode_tagged_entries(b)));
        assert(spec_encode_tagged_entry(a[0]) + (spec_encode_tagged_entries(a.skip(1))
            + spec_encode_tagged_entries(b)) =~= (spec_encode_tagged_entry(a[0])
            + spec_encode_tagged_entries(a.skip(1))) + spec_encode_tagged_entries(b));
    }
}

// ---------------------------------------------------------------------------
// Specification-level decoding
// ---------------------------------------------------------------------------

/// Reads `count` entries whose tags must each exceed `lower`, threading the
/// last tag seen as the new lower bound.
pub open spec fn spec_read_tagged_entries(s: Seq<u8>, pos: int, count: nat, lower: int) -> SpecRead<
    Seq<(u32, Seq<u8>)>,
>
    decreases count,
{
    if count == 0 {
        Ok((Seq::empty(), pos))
    } else {
        match spec_read_varint(s, pos) {
            Ok((tag, p1)) => if !(tag > lower) {
                Err(Error::OutOfOrderTag)
            } else {
                match spec_read_varint(s, p1) {
                    Ok((len, p2)) => if p2 + len <= s.len() {
                        let payload = s.subrange(p2, p2 + len);
                        match spec_read_tagged_entries(
                            s,
                            p2 + len,
                            (count - 1) as nat,
                            tag as int,
                        ) {
                            Ok((rest, end)) => Ok((seq![(tag, payload)] + rest, end)),
                            Err(e) => Err(e),
                        }
                    } else {
                        Err(Error::Truncated)
                    },
                    Err(e) => Err(e),
                }
            },
            Err(e) => Err(e),
        }
    }
}

pub open spec fn spec_read_tagged_fields(s: Seq<u8>, pos: int) -> SpecRead<Seq<(u32, Seq<u8>)>> {
    match spec_read_varint(s, pos) {
        Ok((count, end)) => spec_read_tagged_entries(s, end, count as nat, -1),
        Err(e) => Err(e),
    }
}

/// Whatever a decoder accepts is well formed: tags above the bound, strictly
/// increasing, payloads in range.
pub proof fn lemma_read_tagged_entries_wf(s: Seq<u8>, pos: int, count: nat, lower: int)
    requires
        count <= u32::MAX,
    ensures
        spec_read_tagged_entries(s, pos, count, lower) matches Ok((v, end)) ==> spec_tagged_wf(v)
            && v.len() == count && (forall|i: int| 0 <= i < v.len() ==> (#[trigger] v[i]).0
            > lower),
    decreases count,
{
    if count > 0 {
        match spec_read_varint(s, pos) {
            Ok((tag, p1)) => {
                if tag > lower {
                    match spec_read_varint(s, p1) {
                        Ok((len, p2)) => {
                            if p2 + len <= s.len() {
                                crate::varint::lemma_read_uvarint_rec_bound(s, pos, 5);
                                crate::varint::lemma_read_uvarint_rec_bound(s, p1, 5);
                                lemma_read_tagged_entries_wf(
                                    s,
                                    p2 + len,
                                    (count - 1) as nat,
                                    tag as int,
                                );
                                match spec_read_tagged_entries(
                                    s,
                                    p2 + len,
                                    (count - 1) as nat,
                                    tag as int,
                                ) {
                                    Ok((rest, end)) => {
                                        let payload = s.subrange(p2, p2 + len);
                                        let v = seq![(tag, payload)] + rest;
                                        assert(v[0] == (tag, payload));
                                        assert(forall|i: int|
                                            1 <= i < v.len() ==> v[i] == rest[i - 1]);
                                        assert(forall|i: int, j: int|
                                            0 <= i < j < v.len() ==> (#[trigger] v[i]).0 < (
                                            #[trigger] v[j]).0) by {
                                            assert(forall|i: int, j: int|
                                                1 <= i < j < v.len() ==> (#[trigger] rest[i
                                                    - 1]).0 < (#[trigger] rest[j - 1]).0);
                                            assert(forall|j: int|
                                                1 <= j < v.len() ==> (#[trigger] v[j]).0 == rest[j
                                                    - 1].0 && rest[j - 1].0 > tag);
                                        }
                                        assert(spec_tagged_wf(v));
                                        assert(v.len() == count);
                                        assert(forall|i: int|
                                            0 <= i < v.len() ==> (#[trigger] v[i]).0 > lower) by {
                                            assert(v[0].0 == tag && tag > lower);
                                            assert(forall|i: int|
                                                1 <= i < v.len() ==> (#[trigger] v[i]).0 == rest[i
                                                    - 1].0 && rest[i - 1].0 > tag);
                                        }
                                    },
                                    Err(_) => {},
                                }
                            }
                        },
                        Err(_) => {},
                    }
                }
            },
            Err(_) => {},
        }
    }
}

// ---------------------------------------------------------------------------
// Round trip
// ---------------------------------------------------------------------------

/// Reading back the encoding of a well-formed block whose tags all exceed
/// `lower` returns exactly the encoded entries.
pub proof fn lemma_tagged_entries_roundtrip(
    s: Seq<u8>,
    pos: int,
    tf: Seq<(u32, Seq<u8>)>,
    lower: int,
)
    requires
        0 <= pos,
        spec_tagged_wf(tf),
        lower < 0 || (forall|i: int| 0 <= i < tf.len() ==> (#[trigger] tf[i]).0 > lower),
        lower >= -1,
        pos + spec_encode_tagged_entries(tf).len() <= s.len(),
        s.subrange(pos, pos + spec_encode_tagged_entries(tf).len()) == spec_encode_tagged_entries(
            tf,
        ),
    ensures
        spec_read_tagged_entries(s, pos, tf.len(), lower) == Ok::<_, Error>(
            (tf, pos + spec_encode_tagged_entries(tf).len() as int),
        ),
    decreases tf.len(),
{
    if tf.len() == 0 {
        assert(tf =~= Seq::<(u32, Seq<u8>)>::empty());
        assert(spec_encode_tagged_entries(tf).len() == 0);
    } else {
        let e = spec_encode_tagged_entries(tf);
        let f = tf[0];
        let te = spec_encode_varint(f.0);
        let le = spec_encode_varint(f.1.len() as u32);
        let entry = spec_encode_tagged_entry(f);
        let rest_enc = spec_encode_tagged_entries(tf.skip(1));
        assert(e =~= entry + rest_enc);
        // the tag varint
        assert(s.subrange(pos, pos + te.len() as int) =~= e.subrange(0, te.len() as int));
        assert(e.subrange(0, te.len() as int) =~= te);
        crate::varint::lemma_varint_roundtrip(s, pos, f.0);
        let p1 = pos + te.len() as int;
        assert(f.0 > lower) by {
            if lower < 0 {
            } else {
                assert(tf[0].0 > lower);
            }
        }
        // the length varint
        assert(s.subrange(p1, p1 + le.len() as int) =~= e.subrange(
            te.len() as int,
            te.len() + le.len() as int,
        ));
        assert(e.subrange(te.len() as int, te.len() + le.len() as int) =~= le);
        crate::varint::lemma_varint_roundtrip(s, p1, f.1.len() as u32);
        let p2 = p1 + le.len() as int;
        // the payload bytes
        assert(s.subrange(p2, p2 + f.1.len() as int) =~= e.subrange(
            te.len() + le.len() as int,
            entry.len() as int,
        ));
        assert(e.subrange(te.len() + le.len() as int, entry.len() as int) =~= f.1);
        let p3 = p2 + f.1.len() as int;
        // the remaining entries
        assert(s.subrange(p3, p3 + rest_enc.len() as int) =~= e.subrange(
            entry.len() as int,
            e.len() as int,
        ));
        assert(e.subrange(entry.len() as int, e.len() as int) =~= rest_enc);
        assert(spec_tagged_wf(tf.skip(1)) && forall|i: int|
            0 <= i < tf.skip(1).len() ==> (#[trigger] tf.skip(1)[i]).0 > f.0 as int) by {
            assert(forall|i: int| 0 <= i < tf.skip(1).len() ==> tf.skip(1)[i] == tf[i + 1]);
        }
        lemma_tagged_entries_roundtrip(s, p3, tf.skip(1), f.0 as int);
        assert(spec_read_varint(s, pos) == Ok::<_, Error>((f.0, p1)));
        assert(spec_read_varint(s, p1) == Ok::<_, Error>((f.1.len() as u32, p2)));
        let len_read = f.1.len() as u32;
        assert(p2 + len_read <= s.len());
        assert(s.subrange(p2, p2 + len_read) == f.1);
        assert(spec_read_tagged_entries(s, p3, (tf.len() - 1) as nat, f.0 as int) == Ok::<
            _,
            Error,
        >((tf.skip(1), p3 + rest_enc.len() as int)));
        assert(tf.skip(1).len() == tf.len() - 1);
        assert(spec_read_tagged_entries(s, pos, tf.len(), lower) == Ok::<_, Error>(
            (seq![(f.0, s.subrange(p2, p2 + len_read))] + tf.skip(1), p3 + rest_enc.len() as int),
        ));
        assert(seq![(f.0, f.1)] + tf.skip(1) =~= tf);
        assert(pos + e.len() == p3 + rest_enc.len());
    }
}

/// Reading back the encoding of a well-formed block returns exactly it.
pub proof fn lemma_tagged_fields_roundtrip(s: Seq<u8>, pos: int, tf: Seq<(u32, Seq<u8>)>)
    requires
        0 <= pos,
        spec_tagged_wf(tf),
        pos + spec_encode_tagged_fields(tf).len() <= s.len(),
        s.subrange(pos, pos + spec_encode_tagged_fields(tf).len()) == spec_encode_tagged_fields(
            tf,
        ),
    ensures
        spec_read_tagged_fields(s, pos) == Ok::<_, Error>(
            (tf, pos + spec_encode_tagged_fields(tf).len() as int),
        ),
{
    let e = spec_encode_tagged_fields(tf);
    let ce = spec_encode_varint(tf.len() as u32);
    assert(s.subrange(pos, pos + ce.len() as int) =~= e.subrange(0, ce.len() as int));
    assert(e.subrange(0, ce.len() as int) =~= ce);
    crate::varint::lemma_varint_roundtrip(s, pos, tf.len() as u32);
    let p1 = pos + ce.len() as int;
    assert(s.subrange(p1, p1 + spec_encode_tagged_entries(tf).len() as int) =~= e.subrange(
        ce.len() as int,
        e.len() as int,
    ));
    assert(e.subrange(ce.len() as int, e.len() as int) =~= spec_encode_tagged_entries(tf));
    lemma_tagged_entries_roundtrip(s, p1, tf, -1);
}

// ---------------------------------------------------------------------------
// Executable form
// ---------------------------------------------------------------------------

impl TaggedFields {
    /// Tags unique and strictly increasing, every payload and the count
    /// encodable.
    pub open spec fn wf(&self) -> bool {
        spec_tagged_wf(self@)
    }

    /// A block with no fields.
    pub fn empty() -> (r: TaggedFields)
        ensures
            r.wf(),
            r@ == Seq::<(u32, Seq<u8>)>::empty(),
    {
        let r = TaggedFields { fields: Vec::new() };
        proof {
            assert(r@ =~= Seq::<(u32, Seq<u8>)>::empty());
        }
        r
    }

    /// Inserts a field at its tag's place, keeping tags strictly increasing,
    /// so that building a block in any order emits it sorted. A tag already
    /// present is a caller error and fails with `DuplicateTag`, leaving the
    /// block unchanged.
    pub fn insert(&mut self, f: TaggedField) -> (r: Result<(), Error>)
        requires
            old(self).wf(),
            old(self)@.len() + 1 <= u32::MAX,
            f.payload@.len() <= u32::MAX,
        ensures
            match r {
                Ok(()) => final(self).wf() && (exists|k: int|
                    0 <= k <= old(self)@.len() && final(self)@ == old(self)@.insert(k, f@)) && !(
                exists|i: int|
                    0 <= i < old(self)@.len() && (#[trigger] old(self)@[i]).0 == f.tag),
                Err(e) => e == Error::DuplicateTag && final(self)@ == old(self)@ && (exists|i: int|
                    0 <= i < old(self)@.len() && (#[trigger] old(self)@[i]).0 == f.tag),
            },
    {
        let ghost sv = self@;
        let n = self.fields.len();
        proof {
            assert(self@.len() == n);
            assert(forall|j: int| 0 <= j < self.fields@.len() ==> #[trigger] self.fields@[j]@
                == self@[j]);
        }
        let mut k: usize = 0;
        while k < n && self.fields[k].tag < f.tag
            invariant
                k <= n,
                n == self.fields@.len(),
                sv == self@,
                self.wf(),
                forall|j: int| 0 <= j < k ==> (#[trigger] sv[j]).0 < f.tag,
                forall|j: int| 0 <= j < self.fields@.len() ==> #[trigger] self.fields@[j]@
                    == self@[j],
            decreases n - k,
        {
            k = k + 1;
        }
        if k < n && self.fields[k].tag == f.tag {
            proof {
                assert(sv[k as int].0 == f.tag);
            }
            return Err(Error::DuplicateTag);
        }
        proof {
            // everything at or past the insertion point has a larger tag
            assert(forall|j: int| k <= j < sv.len() ==> f.tag < (#[trigger] sv[j]).0) by {
                if k < n {
                    assert(sv[k as int].0 > f.tag);
                    assert(forall|j: int| k < j < sv.len() ==> (#[trigger] sv[j]).0 > sv[
                        k as int].0);
                }
            }
            assert(forall|i: int|
                0 <= i < sv.len() ==> (#[trigger] sv[i]).0 != f.tag);
        }
        self.fields.insert(k, f);
        proof {
            let nv = self@;
            assert(nv =~= sv.insert(k as int, f@));
            assert(forall|a: int| 0 <= a < k ==> #[trigger] nv[a] == sv[a]);
            assert(nv[k as int] == f@);
            assert(forall|a: int| k < a < nv.len() ==> #[trigger] nv[a] == sv[a - 1]);
            assert(forall|a: int, b: int|
                0 <= a < b < nv.len() ==> (#[trigger] nv[a]).0 < (#[trigger] nv[b]).0);
        }
        Ok(())
    }

    /// Appends the block: the count, then each entry in tag order.
    pub fn write(&self, out: &mut Vec<u8>)
        requires
            self.wf(),
        ensures
            final(out)@ == old(out)@ + spec_encode_tagged_fields(self@),
    {
        let n = self.fields.len();
        proof {
            assert(self@.len() == n);
        }
        VarInt::write(out, n as u32);
        let ghost base = out@;
        let ghost sv = self@;
        assert(out@ =~= base + spec_encode_tagged_entries(sv.take(0)));
        let mut i: usize = 0;
        while i < n
            invariant
                i <= n,
                n == self.fields@.len(),
                sv == self@,
                self.wf(),
                out@ == base + spec_encode_tagged_entries(sv.take(i as int)),
            decreases n - i,
        {
            let f = &self.fields[i];
            proof {
                assert(sv[i as int] == f@);
                assert(f.payload@.len() <= u32::MAX);
            }
            VarInt::write(out, f.tag);
            VarInt::write(out, f.payload.len() as u32);
            let ghost mid = out@;
            let mut j: usize = 0;
            while j < f.payload.len()
                invariant
                    j <= f.payload@.len(),
                    out@ == mid + f.payload@.subrange(0, j as int),
                decreases f.payload@.len() - j,
            {
                out.push(f.payload[j]);
                assert(out@ =~= mid + f.payload@.subrange(0, j + 1));
                j = j + 1;
            }
            proof {
                assert(f.payload@.subrange(0, f.payload@.len() as int) =~= f.payload@);
                assert(sv.take(i + 1) =~= sv.take(i as int) + seq![sv[i as int]]);
                lemma_encode_tagged_entries_app(sv.take(i as int), seq![sv[i as int]]);
                assert(spec_encode_tagged_entries(seq![sv[i as int]])
                    =~= spec_encode_tagged_entry(sv[i as int]) + spec_encode_tagged_entries(
                    seq![sv[i as int]].skip(1),
                ));
                assert(seq![sv[i as int]].skip(1) =~= Seq::<(u32, Seq<u8>)>::empty());
                assert(spec_encode_tagged_entries(seq![sv[i as int]])
                    =~= spec_encode_tagged_entry(sv[i as int]));
                assert(out@ =~= base + spec_encode_tagged_entries(sv.take(i + 1)));
            }
            i = i + 1;
        }
        proof {
            assert(sv.take(n as int) =~= sv);
        }
    }

    /// Reads a block, preserving unknown tags opaquely; fails with
    /// `OutOfOrderTag` exactly when tags are not strictly increasing.
    pub fn read(buf: &[u8], pos: usize) -> (r: Result<(TaggedFields, usize), Error>)
        ensures
            match r {
                Ok((tf, end)) => spec_read_tagged_fields(buf@, pos as int) == Ok::<_, Error>(
                    (tf@, end as int),
                ) && tf.wf(),
                Err(e) => spec_read_tagged_fields(buf@, pos as int) == Err::<
                    (Seq<(u32, Seq<u8>)>, int),
                    _,
                >(e),
            },
    {
        match VarInt::read(buf, pos) {
            Ok((count, start)) => {
                let mut acc: Vec<TaggedField> = Vec::new();
                let mut cur: usize = start;
                let mut i: u32 = 0;
                let mut last: i64 = -1;
                let ghost s = buf@;
                proof {
                    crate::varint::lemma_read_uvarint_rec_bound(s, pos as int, 5);
                    assert(acc@.map_values(|f: TaggedField| f@) =~= Seq::<(u32, Seq<u8>)>::empty());
                    match spec_read_tagged_entries(s, start as int, count as nat, -1) {
                        Ok((rest, end)) => {
                            assert(Seq::<(u32, Seq<u8>)>::empty() + rest =~= rest);
                        },
                        Err(_) => {},
                    }
                }
                loop
                    invariant
                        i <= count,
                        cur <= s.len(),
                        s == buf@,
                        0 <= pos <= s.len(),
                        spec_read_varint(s, pos as int) == Ok::<_, Error>(
                            (count, start as int),
                        ),
                        acc@.map_values(|f: TaggedField| f@).len() == i as int,
                        spec_read_tagged_entries(s, start as int, count as nat, -1) == (
                        match spec_read_tagged_entries(
                            s,
                            cur as int,
                            (count - i) as nat,
                            last as int,
                        ) {
                            Ok((rest, end)) => Ok::<_, Error>(
                                (acc@.map_values(|f: TaggedField| f@) + rest, end),
                            ),
                            Err(e) => Err(e),
                        }),
                    ensures
                        i == count,
                        spec_read_tagged_entries(s, start as int, count as nat, -1) == Ok::<
                            _,
                            Error,
                        >((acc@.map_values(|f: TaggedField| f@), cur as int)),
                    decreases count - i,
                {
                    let ghost acc_v = acc@.map_values(|f: TaggedField| f@);
                    if i >= count {
                        proof {
                            assert(spec_read_tagged_entries(s, cur as int, 0, last as int) == Ok::<
                                _,
                                Error,
                            >((Seq::<(u32, Seq<u8>)>::empty(), cur as int)));
                            assert(acc_v + Seq::<(u32, Seq<u8>)>::empty() =~= acc_v);
                        }
                        break ;
                    }
                    let ghost entry_pos = cur as int;
                    let ghost remaining = (count - i) as nat;
                    let tag = match VarInt::read(buf, cur) {
                        Ok((t, p)) => {
                            if !((t as i64) > last) {
                                proof {
                                    assert(spec_read_tagged_entries(s, entry_pos, remaining, last as int)
                                        == Err::<(Seq<(u32, Seq<u8>)>, int), _>(
                                        Error::OutOfOrderTag,
                                    ));
                                }
                                return Err(Error::OutOfOrderTag);
                            }
                            cur = p;
                            t
                        },
                        Err(e) => {
                            proof {
                                assert(spec_read_tagged_entries(s, entry_pos, remaining, last as int)
                                    == Err::<(Seq<(u32, Seq<u8>)>, int), _>(e));
                            }
                            return Err(e);
                        },
                    };
                    let len = match VarInt::read(buf, cur) {
                        Ok((l, p)) => {
                            cur = p;
                            l
                        },
                        Err(e) => {
                            proof {
                                assert(spec_read_tagged_entries(s, entry_pos, remaining, last as int)
                                    == Err::<(Seq<(u32, Seq<u8>)>, int), _>(e));
                            }
                            return Err(e);
                        },
                    };
                    let k = len as usize;
                    if !(k <= buf.len() && cur <= buf.len() - k) {
                        proof {
                            assert(spec_read_tagged_entries(s, entry_pos, remaining, last as int)
                                == Err::<(Seq<(u32, Seq<u8>)>, int), _>(Error::Truncated));
                        }
                        return Err(Error::Truncated);
                    }
                    let payload = copy_range(buf, cur, k);
                    let f = TaggedField { tag, payload };
                    proof {
                        assert(acc@.push(f).map_values(|g: TaggedField| g@) =~= acc_v + seq![f@]);
                        let rest_r = spec_read_tagged_entries(
                            s,
                            cur + k,
                            (remaining - 1) as nat,
                            tag as int,
                        );
                        assert(spec_read_tagged_entries(s, entry_pos, remaining, last as int) == (
                        match rest_r {
                            Ok((rest, end)) => Ok::<_, Error>(
                                (seq![(tag, s.subrange(cur as int, cur + k))] + rest, end),
                            ),
                            Err(e) => Err(e),
                        }));
                        assert(f@ == (tag, s.subrange(cur as int, cur + k)));
                        match rest_r {
                            Ok((rest, end)) => {
                                assert((acc_v + seq![f@]) + rest =~= acc_v + (seq![f@] + rest));
                            },
                            Err(_) => {},
                        }
                        crate::varint::lemma_read_uvarint_rec_bound(s, cur as int, 5);
                    }
                    acc.push(f);
                    cur = cur + k;
                    last = tag as i64;
                    i = i + 1;
                }
                proof {
                    let tf = TaggedFields { fields: acc };
                    lemma_read_tagged_entries_wf(s, start as int, count as nat, -1);
                }
                Ok((TaggedFields { fields: acc }, cur))
            },
            Err(e) => Err(e),
        }
    }
}

} // verus!
