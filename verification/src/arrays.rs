//! Array length prefixes. Flexible versions use the compact rule — a varint
//! holding the element count plus one, zero denoting a null array — while
//! legacy versions use a fixed 32-bit signed count with `-1` for null. The
//! arrays of the supported message bodies are required, so a null marker
//! where elements must follow is a framing error and reads as `Truncated`.

use vstd::prelude::*;

use crate::error::Error;
use crate::primitives::{
    lift, read_i32_be, spec_i32_to_be_bytes, spec_read_i32_be, write_i32_be, SpecRead,
};
use crate::varint::{spec_encode_varint, spec_read_varint, VarInt};

verus! {

pub open spec fn spec_encode_array_count(count: nat, flexible: bool) -> Seq<u8>
    recommends
        flexible ==> count + 1 <= u32::MAX,
        !flexible ==> count <= i32::MAX,
{
    if flexible {
        spec_encode_varint((count + 1) as u32)
    } else {
        spec_i32_to_be_bytes(count as i32)
    }
}

pub open spec fn spec_read_array_count(s: Seq<u8>, pos: int, flexible: bool) -> SpecRead<u32> {
    if flexible {
        match spec_read_varint(s, pos) {
            Ok((n, end)) => if n == 0 {
                Err(Error::Truncated)
            } else {
                Ok(((n - 1) as u32, end))
            },
            Err(e) => Err(e),
        }
    } else {
        match spec_read_i32_be(s, pos) {
            Ok((n, end)) => if n < 0 {
                Err(Error::Truncated)
            } else {
                Ok((n as u32, end))
            },
            Err(e) => Err(e),
        }
    }
}

pub fn write_array_count(out: &mut Vec<u8>, count: usize, flexible: bool)
    requires
        flexible ==> count + 1 <= u32::MAX,
        !flexible ==> count <= i32::MAX,
    ensures
        final(out)@ == old(out)@ + spec_encode_array_count(count as nat, flexible),
{
    if flexible {
        VarInt::write(out, (count + 1) as u32);
    } else {
        write_i32_be(out, count as i32);
    }
}

pub fn read_array_count(buf: &[u8], pos: usize, flexible: bool) -> (r: Result<
    (u32, usize),
    Error,
>)
    ensures
        lift(r) == spec_read_array_count(buf@, pos as int, flexible),
{
    if flexible {
        match VarInt::read(buf, pos) {
            Ok((n, end)) => if n == 0 {
                Err(Error::Truncated)
            } else {
                Ok((n - 1, end))
            },
            Err(e) => Err(e),
        }
    } else {
        match read_i32_be(buf, pos) {
            Ok((n, end)) => if n < 0 {
                Err(Error::Truncated)
            } else {
                Ok((n as u32, end))
            },
            Err(e) => Err(e),
        }
    }
}

/// Reading back an encoded count returns it.
pub proof fn lemma_array_count_roundtrip(s: Seq<u8>, pos: int, count: nat, flexible: bool)
    requires
        0 <= pos,
        flexible ==> count + 1 <= u32::MAX,
        !flexible ==> count <= i32::MAX,
        pos + spec_encode_array_count(count, flexible).len() <= s.len(),
        s.subrange(pos, pos + spec_encode_array_count(count, flexible).len())
            == spec_encode_array_count(count, flexible),
    ensures
        spec_read_array_count(s, pos, flexible) == Ok::<_, Error>(
            (count as u32, pos + spec_encode_array_count(count, flexible).len() as int),
        ),
{
    if flexible {
        crate::varint::lemma_varint_roundtrip(s, pos, (count + 1) as u32);
    } else {
        crate::primitives::lemma_read_i32_be_of_encoding(s, pos, count as i32);
    }
}

} // verus!
