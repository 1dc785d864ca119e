//! Fixed-width serialization of sample buffers.
//!
//! A persisted sample buffer is a flat sequence of four-byte big-endian
//! words, one per sample, each word the sample's 32-bit two's-complement
//! pattern. Encoding and decoding are exact inverses of one another.

use vstd::prelude::*;
use vstd::arithmetic::div_mod::{
    lemma_div_denominator, lemma_div_multiples_vanish_fancy, lemma_fundamental_div_mod,
    lemma_mod_bound, lemma_mod_multiples_vanish, lemma_multiply_divide_lt,
};
use vstd::arithmetic::mul::{lemma_mul_inequality, lemma_mul_is_commutative};

verus! {

/// The unsigned 32-bit pattern that stands for sample `x`: its
/// two's-complement image.
pub open spec fn sample_bits(x: int) -> int
    recommends
        i32::MIN <= x <= i32::MAX,
{
    if x >= 0 {
        x
    } else {
        x + 0x1_0000_0000
    }
}

/// The sample that a 32-bit pattern stands for: the inverse of
/// `sample_bits`.
pub open spec fn bits_sample(u: int) -> int
    recommends
        0 <= u < 0x1_0000_0000,
{
    if u < 0x8000_0000 {
        u
    } else {
        u - 0x1_0000_0000
    }
}

/// Byte `k` of the big-endian image of the 32-bit pattern `u`, for `k`
/// from 0 (most significant) to 3.
pub open spec fn be_byte(u: int, k: int) -> u8
    recommends
        0 <= u < 0x1_0000_0000,
        0 <= k < 4,
{
    if k == 0 {
        ((u / 0x100_0000) % 0x100) as u8
    } else if k == 1 {
        ((u / 0x1_0000) % 0x100) as u8
    } else if k == 2 {
        ((u / 0x100) % 0x100) as u8
    } else {
        (u % 0x100) as u8
    }
}

/// The 32-bit pattern assembled from four big-endian bytes.
pub open spec fn word_of(b0: int, b1: int, b2: int, b3: int) -> int {
    b0 * 0x100_0000 + b1 * 0x1_0000 + b2 * 0x100 + b3
}

/// The encoded image of a sample buffer: four bytes per sample, big
/// endian, in sample order.
pub open spec fn encoded(s: Seq<i32>) -> Seq<u8> {
    Seq::new((s.len() * 4) as nat, |k: int| be_byte(sample_bits(s[k / 4] as int), k % 4))
}

/// The samples read back from a flat image: every four bytes one sample.
pub open spec fn decoded(b: Seq<u8>) -> Seq<i32>
    recommends
        b.len() % 4 == 0,
{
    Seq::new(
        (b.len() / 4) as nat,
        |i: int| bits_sample(
            word_of(b[4 * i] as int, b[4 * i + 1] as int, b[4 * i + 2] as int, b[4 * i + 3] as int),
        ) as i32,
    )
}

/// Splitting a 32-bit pattern into its big-endian bytes and assembling
/// them again gives the pattern back.
proof fn lemma_word_round_trip(u: int)
    requires
        0 <= u < 0x1_0000_0000,
    ensures
        word_of(
            be_byte(u, 0) as int,
            be_byte(u, 1) as int,
            be_byte(u, 2) as int,
            be_byte(u, 3) as int,
        ) == u,
{
    let q1 = u / 0x100;
    let q2 = u / 0x1_0000;
    let q3 = u / 0x100_0000;
    lemma_fundamental_div_mod(u, 0x100);
    lemma_fundamental_div_mod(q1, 0x100);
    lemma_fundamental_div_mod(q2, 0x100);
    lemma_mod_bound(u, 0x100);
    lemma_mod_bound(q1, 0x100);
    lemma_mod_bound(q2, 0x100);
    lemma_div_denominator(u, 0x100, 0x100);
    lemma_div_denominator(u, 0x1_0000, 0x100);
    assert(q1 / 0x100 == q2);
    assert(q2 / 0x100 == q3);
    lemma_multiply_divide_lt(u, 0x100_0000, 0x100);
    assert(0 <= q3 < 0x100);
    assert(q3 % 0x100 == q3) by {
        vstd::arithmetic::div_mod::lemma_small_mod(q3 as nat, 0x100);
    }
}

/// Decoding an encoded sample buffer yields the samples unchanged: the
/// round-trip law of the persistence format.
pub proof fn lemma_decode_encode(s: Seq<i32>)
    ensures
        decoded(encoded(s)) == s,
{
    let b = encoded(s);
    assert(b.len() == s.len() * 4);
    assert(b.len() % 4 == 0) by {
        lemma_mod_multiples_vanish(s.len() as int, 0, 4);
        lemma_mul_is_commutative(s.len() as int, 4);
    }
    assert(b.len() / 4 == s.len()) by {
        lemma_mul_is_commutative(s.len() as int, 4);
        vstd::arithmetic::div_mod::lemma_div_multiples_vanish(s.len() as int, 4);
    }
    assert forall|i: int| 0 <= i < s.len() implies decoded(b)[i] == s[i] by {
        let u = sample_bits(s[i] as int);
        assert forall|m: int| 0 <= m < 4 implies b[4 * i + m] == be_byte(u, m) by {
            lemma_div_multiples_vanish_fancy(i, m, 4);
            lemma_mod_multiples_vanish(i, m, 4);
            vstd::arithmetic::div_mod::lemma_small_mod(m as nat, 4);
            assert((4 * i + m) / 4 == i);
            assert((4 * i + m) % 4 == m);
        }
        lemma_word_round_trip(u);
        assert(bits_sample(u) == s[i] as int);
    }
    assert(decoded(b) =~= s);
}

/// Encodes a sample buffer for persistence: four big-endian bytes per
/// sample, in order.
#[verifier::loop_isolation(false)]
pub fn encode(samples: &Vec<i32>) -> (out: Vec<u8>)
    requires
        samples@.len() * 4 <= usize::MAX,
    ensures
        out@ == encoded(samples@),
{
    let mut out: Vec<u8> = Vec::new();
    let mut i: usize = 0;
    while i < samples.len()
        invariant
            0 <= i <= samples@.len(),
            out@.len() == i * 4,
            forall|k: int| 0 <= k < out@.len() ==> out@[k] == encoded(samples@)[k],
        decreases samples@.len() - i,
    {
        proof {
            lemma_mul_inequality(i as int + 1, samples@.len() as int, 4);
        }
        let x: i32 = samples[i];
        let u: u32 = if x >= 0 {
            x as u32
        } else {
            ((x as i64) + 0x1_0000_0000i64) as u32
        };
        proof {
            assert(u as int == sample_bits(x as int));
            assert forall|m: int| 0 <= m < 4 implies encoded(samples@)[i as int * 4 + m]
                == be_byte(u as int, m) by {
                lemma_div_multiples_vanish_fancy(i as int, m, 4);
                lemma_mod_multiples_vanish(i as int, m, 4);
                vstd::arithmetic::div_mod::lemma_small_mod(m as nat, 4);
                lemma_mul_is_commutative(i as int, 4);
            }
        }
        out.push(((u / 0x100_0000) % 0x100) as u8);
        out.push(((u / 0x1_0000) % 0x100) as u8);
        out.push(((u / 0x100) % 0x100) as u8);
        out.push((u % 0x100) as u8);
        i = i + 1;
    }
    proof {
        assert(out@ =~= encoded(samples@));
    }
    out
}

/// Reads samples back from a persisted image. The image must be whole:
/// a length that is not a multiple of four holds no sample buffer.
#[verifier::loop_isolation(false)]
pub fn decode(bytes: &Vec<u8>) -> (out: Vec<i32>)
    requires
        bytes@.len() % 4 == 0,
    ensures
        out@ == decoded(bytes@),
{
    let n: usize = bytes.len() / 4;
    proof {
        lemma_fundamental_div_mod(bytes@.len() as int, 4);
    }
    let mut out: Vec<i32> = Vec::new();
    let mut i: usize = 0;
    while i < n
        invariant
            0 <= i <= n,
            out@.len() == i,
            forall|k: int| 0 <= k < out@.len() ==> out@[k] == decoded(bytes@)[k],
        decreases n - i,
    {
        let b0: u32 = bytes[4 * i] as u32;
        let b1: u32 = bytes[4 * i + 1] as u32;
        let b2: u32 = bytes[4 * i + 2] as u32;
        let b3: u32 = bytes[4 * i + 3] as u32;
        let u: u32 = b0 * 0x100_0000 + b1 * 0x1_0000 + b2 * 0x100 + b3;
        let x: i32 = if u < 0x8000_0000 {
            u as i32
        } else {
            ((u as i64) - 0x1_0000_0000i64) as i32
        };
        proof {
            assert(x as int == bits_sample(u as int));
        }
        out.push(x);
        i = i + 1;
    }
    proof {
        assert(out@ =~= decoded(bytes@));
    }
    out
}

} // verus!
