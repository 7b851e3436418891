//! UTF-8 validation for the string bytes carried on the wire.
//!
//! The wire format transports strings as length-prefixed byte runs; a decoder
//! must reject runs that are not well-formed UTF-8. Well-formedness is stated
//! here as a spec function over byte sequences, following the shortest-form
//! byte-range table of the encoding (continuation bytes `0x80..=0xBF`,
//! no overlong forms, no surrogate code points, no code points past
//! `U+10FFFF`), and the executable validator is proved to decide exactly it.

use vstd::prelude::*;

verus! {

/// Whether `b` is a UTF-8 continuation byte.
pub open spec fn is_cont(b: u8) -> bool {
    0x80 <= b <= 0xBF
}

/// Whether `s` is well-formed UTF-8.
pub open spec fn is_utf8(s: Seq<u8>) -> bool
    decreases s.len(),
{
    if s.len() == 0 {
        true
    } else {
        let b0 = s[0];
        if b0 < 0x80 {
            is_utf8(s.skip(1))
        } else if 0xC2 <= b0 && b0 <= 0xDF {
            s.len() >= 2 && is_cont(s[1]) && is_utf8(s.skip(2))
        } else if b0 == 0xE0 {
            s.len() >= 3 && 0xA0 <= s[1] && s[1] <= 0xBF && is_cont(s[2]) && is_utf8(s.skip(3))
        } else if 0xE1 <= b0 && b0 <= 0xEC {
            s.len() >= 3 && is_cont(s[1]) && is_cont(s[2]) && is_utf8(s.skip(3))
        } else if b0 == 0xED {
            s.len() >= 3 && 0x80 <= s[1] && s[1] <= 0x9F && is_cont(s[2]) && is_utf8(s.skip(3))
        } else if 0xEE <= b0 && b0 <= 0xEF {
            s.len() >= 3 && is_cont(s[1]) && is_cont(s[2]) && is_utf8(s.skip(3))
        } else if b0 == 0xF0 {
            s.len() >= 4 && 0x90 <= s[1] && s[1] <= 0xBF && is_cont(s[2]) && is_cont(s[3])
                && is_utf8(s.skip(4))
        } else if 0xF1 <= b0 && b0 <= 0xF3 {
            s.len() >= 4 && is_cont(s[1]) && is_cont(s[2]) && is_cont(s[3]) && is_utf8(s.skip(4))
        } else if b0 == 0xF4 {
            s.len() >= 4 && 0x80 <= s[1] && s[1] <= 0x8F && is_cont(s[2]) && is_cont(s[3])
                && is_utf8(s.skip(4))
        } else {
            false
        }
    }
}

fn cont_byte(b: u8) -> (r: bool)
    ensures
        r == is_cont(b),
{
    0x80 <= b && b <= 0xBF
}

/// Decides well-formedness of a byte run.
pub fn validate_utf8(buf: &[u8]) -> (r: bool)
    ensures
        r == is_utf8(buf@),
{
    let n = buf.len();
    let mut i: usize = 0;
    assert(buf@.skip(0) =~= buf@);
    loop
        invariant
            i <= n,
            n == buf@.len(),
            is_utf8(buf@) <==> is_utf8(buf@.skip(i as int)),
        ensures
            is_utf8(buf@) <==> is_utf8(buf@.skip(i as int)),
            i == n,
        decreases n - i,
    {
        if i >= n {
            break ;
        }
        let ghost rem = buf@.skip(i as int);
        assert(rem[0] == buf@[i as int]);
        let b0 = buf[i];
        if b0 < 0x80 {
            assert(rem.skip(1) =~= buf@.skip(i + 1));
            i = i + 1;
        } else if 0xC2 <= b0 && b0 <= 0xDF {
            if n - i < 2 || !cont_byte(buf[i + 1]) {
                return false;
            }
            assert(rem[1] == buf@[i + 1]);
            assert(rem.skip(2) =~= buf@.skip(i + 2));
            i = i + 2;
        } else if b0 == 0xE0 {
            if n - i < 3 || !(0xA0 <= buf[i + 1] && buf[i + 1] <= 0xBF) || !cont_byte(
                buf[i + 2],
            ) {
                assert(rem.len() >= 3 ==> rem[1] == buf@[i + 1] && rem[2] == buf@[i + 2]);
                return false;
            }
            assert(rem[1] == buf@[i + 1] && rem[2] == buf@[i + 2]);
            assert(rem.skip(3) =~= buf@.skip(i + 3));
            i = i + 3;
        } else if 0xE1 <= b0 && b0 <= 0xEC {
            if n - i < 3 || !cont_byte(buf[i + 1]) || !cont_byte(buf[i + 2]) {
                assert(rem.len() >= 3 ==> rem[1] == buf@[i + 1] && rem[2] == buf@[i + 2]);
                return false;
            }
            assert(rem[1] == buf@[i + 1] && rem[2] == buf@[i + 2]);
            assert(rem.skip(3) =~= buf@.skip(i + 3));
            i = i + 3;
        } else if b0 == 0xED {
            if n - i < 3 || !(0x80 <= buf[i + 1] && buf[i + 1] <= 0x9F) || !cont_byte(
                buf[i + 2],
            ) {
                assert(rem.len() >= 3 ==> rem[1] == buf@[i + 1] && rem[2] == buf@[i + 2]);
                return false;
            }
            assert(rem[1] == buf@[i + 1] && rem[2] == buf@[i + 2]);
            assert(rem.skip(3) =~= buf@.skip(i + 3));
            i = i + 3;
        } else if 0xEE <= b0 && b0 <= 0xEF {
            if n - i < 3 || !cont_byte(buf[i + 1]) || !cont_byte(buf[i + 2]) {
                assert(rem.len() >= 3 ==> rem[1] == buf@[i + 1] && rem[2] == buf@[i + 2]);
                return false;
            }
            assert(rem[1] == buf@[i + 1] && rem[2] == buf@[i + 2]);
            assert(rem.skip(3) =~= buf@.skip(i + 3));
            i = i + 3;
        } else if b0 == 0xF0 {
            if n - i < 4 || !(0x90 <= buf[i + 1] && buf[i + 1] <= 0xBF) || !cont_byte(buf[i + 2])
                || !cont_byte(buf[i + 3]) {
                assert(rem.len() >= 4 ==> rem[1] == buf@[i + 1] && rem[2] == buf@[i + 2] && rem[3]
                    == buf@[i + 3]);
                return false;
            }
            assert(rem[1] == buf@[i + 1] && rem[2] == buf@[i + 2] && rem[3] == buf@[i + 3]);
            assert(rem.skip(4) =~= buf@.skip(i + 4));
            i = i + 4;
        } else if 0xF1 <= b0 && b0 <= 0xF3 {
            if n - i < 4 || !cont_byte(buf[i + 1]) || !cont_byte(buf[i + 2]) || !cont_byte(
                buf[i + 3],
            ) {
                assert(rem.len() >= 4 ==> rem[1] == buf@[i + 1] && rem[2] == buf@[i + 2] && rem[3]
                    == buf@[i + 3]);
                return false;
            }
            assert(rem[1] == buf@[i + 1] && rem[2] == buf@[i + 2] && rem[3] == buf@[i + 3]);
            assert(rem.skip(4) =~= buf@.skip(i + 4));
            i = i + 4;
        } else if b0 == 0xF4 {
            if n - i < 4 || !(0x80 <= buf[i + 1] && buf[i + 1] <= 0x8F) || !cont_byte(buf[i + 2])
                || !cont_byte(buf[i + 3]) {
                assert(rem.len() >= 4 ==> rem[1] == buf@[i + 1] && rem[2] == buf@[i + 2] && rem[3]
                    == buf@[i + 3]);
                return false;
            }
            assert(rem[1] == buf@[i + 1] && rem[2] == buf@[i + 2] && rem[3] == buf@[i + 3]);
            assert(rem.skip(4) =~= buf@.skip(i + 4));
            i = i + 4;
        } else {
            return false;
        }
    }
    assert(buf@.skip(i as int) =~= Seq::<u8>::empty());
    true
}

} // verus!
