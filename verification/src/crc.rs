//! The record-batch checksum: a 32-bit cyclic redundancy check in its
//! reflected form with the Castagnoli polynomial, computed bit by bit.
//!
//! Beyond the computation itself, this module proves the sensitivity fact the
//! batch codec relies on: every bit-update step is injective in the running
//! state, so two byte ranges of equal length that differ in any one position
//! can never share a checksum. A decoder comparing a stored checksum against
//! one recomputed over corrupted bytes is therefore certain to notice.

use vstd::prelude::*;

verus! {

/// The reflected Castagnoli polynomial.
pub const CRC_POLY: u32 = 0x82F6_3B78;

/// One bit step: shift the state right, folding the polynomial in when a one
/// bit falls out.
pub open spec fn crc_step(c: u32) -> u32 {
    if c & 1 == 1 {
        (c >> 1) ^ 0x82F6_3B78
    } else {
        (c >> 1)
    }
}

/// `n` bit steps.
pub open spec fn crc_bits(c: u32, n: nat) -> u32
    decreases n,
{
    if n == 0 {
        c
    } else {
        crc_bits(crc_step(c), (n - 1) as nat)
    }
}

/// Folds one byte into the state: eight bit steps over the byte-xored state.
pub open spec fn crc_feed(c: u32, b: u8) -> u32 {
    crc_bits(c ^ (b as u32), 8)
}

/// Folds a whole byte sequence into the state.
pub open spec fn crc_fold(c: u32, s: Seq<u8>) -> u32
    decreases s.len(),
{
    if s.len() == 0 {
        c
    } else {
        crc_fold(crc_feed(c, s[0]), s.skip(1))
    }
}

/// The checksum of a byte sequence: all-ones initial state, final complement.
pub open spec fn spec_crc32c(s: Seq<u8>) -> u32 {
    crc_fold(0xFFFF_FFFF, s) ^ 0xFFFF_FFFF
}

// ---------------------------------------------------------------------------
// Injectivity of the state updates
// ---------------------------------------------------------------------------

/// A bit step never merges two distinct states.
pub proof fn lemma_crc_step_inj(a: u32, b: u32)
    requires
        crc_step(a) == crc_step(b),
    ensures
        a == b,
{
    if a & 1 == 1 && b & 1 == 1 {
        assert((a & 1 == 1 && b & 1 == 1 && (a >> 1) ^ 0x82F6_3B78 == (b >> 1) ^ 0x82F6_3B78)
            ==> a == b) by (bit_vector);
    } else if a & 1 != 1 && b & 1 != 1 {
        assert((a & 1 != 1 && b & 1 != 1 && a >> 1 == b >> 1) ==> a == b) by (bit_vector);
    } else if a & 1 == 1 {
        assert((a >> 1) ^ 0x82F6_3B78 != b >> 1) by (bit_vector);
    } else {
        assert((b >> 1) ^ 0x82F6_3B78 != a >> 1) by (bit_vector);
    }
}

/// A run of bit steps never merges two distinct states.
pub proof fn lemma_crc_bits_inj(a: u32, b: u32, n: nat)
    requires
        crc_bits(a, n) == crc_bits(b, n),
    ensures
        a == b,
    decreases n,
{
    if n > 0 {
        lemma_crc_bits_inj(crc_step(a), crc_step(b), (n - 1) as nat);
        lemma_crc_step_inj(a, b);
    }
}

/// Feeding the same byte into distinct states leaves them distinct.
pub proof fn lemma_crc_feed_inj(a: u32, b: u32, x: u8)
    requires
        a != b,
    ensures
        crc_feed(a, x) != crc_feed(b, x),
{
    if crc_feed(a, x) == crc_feed(b, x) {
        lemma_crc_bits_inj(a ^ (x as u32), b ^ (x as u32), 8);
        assert((a ^ (x as u32) == b ^ (x as u32)) ==> a == b) by (bit_vector);
    }
}

/// Feeding distinct bytes into one state yields distinct states.
pub proof fn lemma_crc_feed_diff(c: u32, x: u8, y: u8)
    requires
        x != y,
    ensures
        crc_feed(c, x) != crc_feed(c, y),
{
    if crc_feed(c, x) == crc_feed(c, y) {
        lemma_crc_bits_inj(c ^ (x as u32), c ^ (y as u32), 8);
        assert((c ^ (x as u32) == c ^ (y as u32)) ==> x == y) by (bit_vector);
    }
}

/// Folding the same bytes into distinct states leaves them distinct.
pub proof fn lemma_crc_fold_inj(a: u32, b: u32, s: Seq<u8>)
    requires
        a != b,
    ensures
        crc_fold(a, s) != crc_fold(b, s),
    decreases s.len(),
{
    if s.len() > 0 {
        lemma_crc_feed_inj(a, b, s[0]);
        lemma_crc_fold_inj(crc_feed(a, s[0]), crc_feed(b, s[0]), s.skip(1));
    }
}

/// Two equal-length byte runs that differ in exactly one position fold to
/// distinct states.
pub proof fn lemma_crc_fold_one_diff(c: u32, s: Seq<u8>, t: Seq<u8>, i: int)
    requires
        s.len() == t.len(),
        0 <= i < s.len(),
        s[i] != t[i],
        forall|j: int| 0 <= j < s.len() && j != i ==> s[j] == t[j],
    ensures
        crc_fold(c, s) != crc_fold(c, t),
    decreases s.len(),
{
    if i == 0 {
        lemma_crc_feed_diff(c, s[0], t[0]);
        assert(s.skip(1) =~= t.skip(1));
        lemma_crc_fold_inj(crc_feed(c, s[0]), crc_feed(c, t[0]), s.skip(1));
    } else {
        assert(s[0] == t[0]);
        assert(forall|j: int|
            0 <= j < s.skip(1).len() && j != i - 1 ==> #[trigger] s.skip(1)[j] == t.skip(1)[j]);
        assert(s.skip(1)[i - 1] == s[i] && t.skip(1)[i - 1] == t[i]);
        lemma_crc_fold_one_diff(crc_feed(c, s[0]), s.skip(1), t.skip(1), i - 1);
    }
}

/// Checksum sensitivity: byte runs of equal length differing in exactly one
/// position never share a checksum. A single flipped bit changes exactly one
/// byte, so it is covered.
pub proof fn lemma_crc32c_one_diff(s: Seq<u8>, t: Seq<u8>, i: int)
    requires
        s.len() == t.len(),
        0 <= i < s.len(),
        s[i] != t[i],
        forall|j: int| 0 <= j < s.len() && j != i ==> s[j] == t[j],
    ensures
        spec_crc32c(s) != spec_crc32c(t),
{
    lemma_crc_fold_one_diff(0xFFFF_FFFF, s, t, i);
    let x = crc_fold(0xFFFF_FFFF, s);
    let y = crc_fold(0xFFFF_FFFF, t);
    assert(x != y ==> x ^ 0xFFFF_FFFFu32 != y ^ 0xFFFF_FFFFu32) by (bit_vector);
}

// ---------------------------------------------------------------------------
// Executable form
// ---------------------------------------------------------------------------

fn crc_step_exec(c: u32) -> (r: u32)
    ensures
        r == crc_step(c),
{
    if c & 1 == 1 {
        (c >> 1u32) ^ CRC_POLY
    } else {
        c >> 1u32
    }
}

/// Computes the checksum of `data`.
pub fn crc32c(data: &[u8]) -> (r: u32)
    ensures
        r == spec_crc32c(data@),
{
    let n = data.len();
    let mut c: u32 = 0xFFFF_FFFF;
    let mut i: usize = 0;
    assert(data@.skip(0) =~= data@);
    while i < n
        invariant
            i <= n,
            n == data@.len(),
            crc_fold(0xFFFF_FFFF, data@) == crc_fold(c, data@.skip(i as int)),
        decreases n - i,
    {
        let ghost rem = data@.skip(i as int);
        assert(rem[0] == data@[i as int]);
        let b = data[i];
        let c0 = c ^ (b as u32);
        let ghost start = c0;
        let mut j: usize = 0;
        let mut cur = c0;
        while j < 8
            invariant
                j <= 8,
                crc_bits(start, 8) == crc_bits(cur, (8 - j) as nat),
            decreases 8 - j,
        {
            cur = crc_step_exec(cur);
            j = j + 1;
        }
        proof {
            assert(crc_bits(cur, 0) == cur);
            assert(cur == crc_feed(c, b));
            assert(crc_fold(c, rem) == crc_fold(crc_feed(c, b), rem.skip(1)));
            assert(rem.skip(1) =~= data@.skip(i + 1));
        }
        c = cur;
        i = i + 1;
    }
    assert(data@.skip(i as int) =~= Seq::<u8>::empty());
    c ^ 0xFFFF_FFFF
}

} // verus!
