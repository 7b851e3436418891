//! 128-bit identifiers: exactly sixteen raw bytes on the wire, with no
//! byte-order transformation.

use vstd::prelude::*;

use crate::error::Error;
use crate::primitives::SpecRead;
use crate::strings::copy_range;

verus! {

/// A 128-bit identifier.
#[derive(Clone, Debug, PartialEq, Eq)]
pub struct Uuid {
    pub bytes: Vec<u8>,
}

impl View for Uuid {
    type V = Seq<u8>;

    open spec fn view(&self) -> Seq<u8> {
        self.bytes@
    }
}

impl Uuid {
    /// Exactly sixteen bytes.
    pub open spec fn wf(&self) -> bool {
        self@.len() == 16
    }

    /// Wraps sixteen bytes; anything else is refused as `Truncated`.
    pub fn from_bytes(bytes: Vec<u8>) -> (r: Result<Uuid, Error>)
        ensures
            match r {
                Ok(u) => u.wf() && u@ == bytes@,
                Err(e) => e == Error::Truncated && bytes@.len() != 16,
            },
    {
        if bytes.len() == 16 {
            Ok(Uuid { bytes })
        } else {
            Err(Error::Truncated)
        }
    }
}

pub open spec fn spec_encode_uuid(u: Seq<u8>) -> Seq<u8>
    recommends
        u.len() == 16,
{
    u
}

pub open spec fn spec_read_uuid(s: Seq<u8>, pos: int) -> SpecRead<Seq<u8>> {
    if 0 <= pos && pos + 16 <= s.len() {
        Ok((s.subrange(pos, pos + 16), pos + 16))
    } else {
        Err(Error::Truncated)
    }
}

/// Appends the sixteen raw bytes.
pub fn write_uuid(out: &mut Vec<u8>, u: &Uuid)
    requires
        u.wf(),
    ensures
        final(out)@ == old(out)@ + spec_encode_uuid(u@),
{
    crate::strings::append_bytes(out, &u.bytes);
}

/// Reads sixteen raw bytes.
pub fn read_uuid(buf: &[u8], pos: usize) -> (r: Result<(Uuid, usize), Error>)
    ensures
        match r {
            Ok((u, end)) => spec_read_uuid(buf@, pos as int) == Ok::<_, Error>((u@, end as int))
                && u.wf(),
            Err(e) => spec_read_uuid(buf@, pos as int) == Err::<(Seq<u8>, int), _>(e),
        },
{
    if pos <= buf.len() && buf.len() - pos >= 16 {
        let bytes = copy_range(buf, pos, 16);
        Ok((Uuid { bytes }, pos + 16))
    } else {
        Err(Error::Truncated)
    }
}

/// Reading sixteen written bytes back returns them.
pub proof fn lemma_uuid_roundtrip(s: Seq<u8>, pos: int, u: Seq<u8>)
    requires
        0 <= pos,
        u.len() == 16,
        pos + 16 <= s.len(),
        s.subrange(pos, pos + 16) == u,
    ensures
        spec_read_uuid(s, pos) == Ok::<_, Error>((u, pos + 16)),
{
}

} // verus!
