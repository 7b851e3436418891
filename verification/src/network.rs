//! Message framing: the four-byte big-endian size prefix around every
//! message, and the envelope type that pairs a message with its size.

use vstd::prelude::*;

use crate::error::Error;
use crate::primitives::{
    read_i32_be, spec_i32_to_be_bytes, spec_read_i32_be, write_i32_be, SpecRead,
};
use crate::strings::{append_bytes, copy_range};

verus! {

/// A frame: the body's byte length as a signed 32-bit prefix, then the body.
/// The size is computed from the body, never asserted by the sender.
pub open spec fn spec_encode_frame(body: Seq<u8>) -> Seq<u8>
    recommends
        body.len() <= i32::MAX,
{
    spec_i32_to_be_bytes(body.len() as i32) + body
}

/// Reads a frame: a negative declared length, or one above `max_size`, fails
/// with `InvalidFrameSize`; a buffer with fewer bytes than the frame declares
/// fails with `Truncated`.
pub open spec fn spec_read_frame(s: Seq<u8>, pos: int, max_size: i32) -> SpecRead<Seq<u8>> {
    match spec_read_i32_be(s, pos) {
        Ok((n, end)) => if n < 0 || n > max_size {
            Err(Error::InvalidFrameSize(n))
        } else if end + n <= s.len() {
            Ok((s.subrange(end, end + n), end + n))
        } else {
            Err(Error::Truncated)
        },
        Err(e) => Err(e),
    }
}

/// Prepends the big-endian byte length of `body`.
pub fn write_frame(body: &Vec<u8>) -> (r: Vec<u8>)
    requires
        body@.len() <= i32::MAX,
    ensures
        r@ == spec_encode_frame(body@),
{
    let mut out: Vec<u8> = Vec::new();
    write_i32_be(&mut out, body.len() as i32);
    append_bytes(&mut out, body);
    out
}

/// Reads one frame out of a buffer, returning the body and the position just
/// past it.
pub fn read_frame(buf: &[u8], pos: usize, max_size: i32) -> (r: Result<(Vec<u8>, usize), Error>)
    ensures
        match r {
            Ok((body, end)) => spec_read_frame(buf@, pos as int, max_size) == Ok::<_, Error>(
                (body@, end as int),
            ),
            Err(e) => spec_read_frame(buf@, pos as int, max_size) == Err::<(Seq<u8>, int), _>(e),
        },
{
    match read_i32_be(buf, pos) {
        Ok((n, end)) => {
            if n < 0 || n > max_size {
                Err(Error::InvalidFrameSize(n))
            } else {
                let k = n as usize;
                if k <= buf.len() && end <= buf.len() - k {
                    let body = copy_range(buf, end, k);
                    Ok((body, end + k))
                } else {
                    Err(Error::Truncated)
                }
            }
        },
        Err(e) => Err(e),
    }
}

/// Framing round-trips: reading back a written frame yields the body, for
/// any size bound the body respects.
pub proof fn lemma_frame_roundtrip(s: Seq<u8>, pos: int, body: Seq<u8>, max_size: i32)
    requires
        0 <= pos,
        body.len() <= max_size,
        pos + spec_encode_frame(body).len() <= s.len(),
        s.subrange(pos, pos + spec_encode_frame(body).len()) == spec_encode_frame(body),
    ensures
        spec_read_frame(s, pos, max_size) == Ok::<_, Error>(
            (body, pos + spec_encode_frame(body).len() as int),
        ),
{
    let e = spec_encode_frame(body);
    assert(s.subrange(pos, pos + 4) =~= e.subrange(0, 4));
    assert(e.subrange(0, 4) =~= spec_i32_to_be_bytes(body.len() as i32));
    crate::primitives::lemma_read_i32_be_of_encoding(s, pos, body.len() as i32);
    assert(s.subrange(pos + 4, pos + 4 + body.len() as int) =~= e.subrange(4, e.len() as int));
    assert(e.subrange(4, e.len() as int) =~= body);
}

/// Marks a type as a message that can be sent over the network.
pub trait Message {
    /// The size of this message on the wire, in bytes.
    fn size(&self) -> i32;
}

/// The root of all network messages: the size of the message in bytes, so
/// that a peer can read the size as an integer and then that many bytes, and
/// the message itself.
pub struct NetworkMessage<M: Message> {
    /// The byte size of the message that follows.
    pub size: i32,
    /// The contents of this network message.
    pub message: M,
}

impl<M: Message> NetworkMessage<M> {
    /// Wraps a message with the size it reports.
    pub fn from_message(message: M) -> (r: NetworkMessage<M>)
        ensures
            r.message == message,
    {
        let size = message.size();
        NetworkMessage { size, message }
    }
}

} // verus!
