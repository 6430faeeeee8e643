//! The internet checksum: 16-bit one's-complement summation with end-around
//! carry, as used in the TCP checksum field.
//!
//! The mathematical model pairs the input bytes into big-endian 16-bit words
//! (a trailing odd byte is padded with a zero low byte), sums the words, and
//! reduces the sum with end-around carry.  The reduced sum is the unique
//! value `r <= 0xFFFF` with `r == 0` exactly for a zero sum and otherwise
//! `r` congruent to the sum modulo `0xFFFF` with `1 <= r <= 0xFFFF`; the
//! checksum is its one's complement.

use vstd::arithmetic::div_mod::{
    lemma_fundamental_div_mod, lemma_mod_bound, lemma_mod_multiples_vanish, lemma_small_mod,
};
use vstd::prelude::*;

verus! {

/// The plain sum of the big-endian 16-bit words of `b`; a trailing odd byte
/// counts as the high byte of a final word.
pub open spec fn word_sum(b: Seq<u8>) -> nat
    decreases b.len(),
{
    if b.len() == 0 {
        0
    } else if b.len() == 1 {
        (b[0] as nat) * 256
    } else {
        (b[0] as nat) * 256 + (b[1] as nat) + word_sum(b.skip(2))
    }
}

/// The end-around-carry reduction of a word sum: the unique residue of `n`
/// modulo `0xFFFF` drawn from `1..=0xFFFF` for positive `n`, and `0` for
/// `n == 0`.  Folding `n` as `n % 0x10000 + n / 0x10000` until it fits in 16
/// bits lands exactly here, which the executable summation proves.
pub open spec fn ones_complement_sum(n: nat) -> nat {
    if n == 0 {
        0
    } else {
        (1 + (n - 1) % 0xFFFF) as nat
    }
}

/// The internet checksum of `b`: the one's complement of the end-around-carry
/// word sum.
pub open spec fn checksum(b: Seq<u8>) -> u16 {
    (0xFFFF - ones_complement_sum(word_sum(b))) as u16
}

/// The reduced sum always fits in 16 bits.
pub proof fn lemma_ones_complement_sum_bound(n: nat)
    ensures
        ones_complement_sum(n) <= 0xFFFF,
{
    if n != 0 {
        lemma_mod_bound(n - 1, 0xFFFF);
    }
}

/// Splitting the byte string at an even offset splits the word sum.
proof fn lemma_word_sum_append_even(a: Seq<u8>, b: Seq<u8>)
    requires
        a.len() % 2 == 0,
    ensures
        word_sum(a + b) == word_sum(a) + word_sum(b),
    decreases a.len(),
{
    if a.len() == 0 {
        assert(a + b =~= b);
    } else {
        assert((a + b)[0] == a[0]);
        assert((a + b)[1] == a[1]);
        assert((a + b).skip(2) =~= a.skip(2) + b);
        lemma_word_sum_append_even(a.skip(2), b);
        if b.len() == 0 {
            assert(a + b =~= a);
            assert(word_sum(b) == 0);
        }
    }
}

proof fn lemma_word_sum_pair(x: u8, y: u8)
    ensures
        word_sum(seq![x, y]) == (x as nat) * 256 + (y as nat),
{
    let s = seq![x, y];
    assert(s.skip(2) =~= Seq::<u8>::empty());
    assert(word_sum(s.skip(2)) == 0);
}

proof fn lemma_word_sum_single(x: u8)
    ensures
        word_sum(seq![x]) == (x as nat) * 256,
{
}

/// Computes the internet checksum of `data`.
///
/// This is the codec's replacement for an off-the-shelf pseudo-header
/// checksum routine: the summation and end-around-carry logic is verified
/// against `checksum`.
pub fn internet_checksum(data: &Vec<u8>) -> (r: u16)
    requires
        data@.len() < 0x1_0000_0000,
    ensures
        r == checksum(data@),
{
    let n = data.len();
    let mut acc: u64 = 0;
    let mut i: usize = 0;
    while i + 1 < n
        invariant
            i % 2 == 0,
            i <= n,
            n == data@.len(),
            n < 0x1_0000_0000,
            acc == word_sum(data@.subrange(0, i as int)),
            acc <= 0xFFFF * (i as int),
        decreases n - i,
    {
        let hi = data[i] as u64;
        let lo = data[i + 1] as u64;
        proof {
            let prefix = data@.subrange(0, i as int);
            lemma_word_sum_append_even(prefix, seq![data@[i as int], data@[i as int + 1]]);
            lemma_word_sum_pair(data@[i as int], data@[i as int + 1]);
            assert(data@.subrange(0, i as int + 2) =~= prefix + seq![
                data@[i as int],
                data@[i as int + 1],
            ]);
        }
        acc = acc + 256 * hi + lo;
        i = i + 2;
    }
    if i < n {
        proof {
            let prefix = data@.subrange(0, i as int);
            lemma_word_sum_append_even(prefix, seq![data@[i as int]]);
            lemma_word_sum_single(data@[i as int]);
            assert(data@.subrange(0, i as int + 1) =~= prefix + seq![data@[i as int]]);
        }
        acc = acc + 256 * (data[i] as u64);
        i = i + 1;
    }
    proof {
        assert(data@.subrange(0, n as int) =~= data@);
    }
    let ghost total: nat = acc as nat;
    while acc > 0xFFFF
        invariant
            acc <= total,
            (total - acc) % 0xFFFF == 0,
            (acc == 0) <==> (total == 0),
        decreases acc,
    {
        let q = acc / 0x10000;
        let r = acc % 0x10000;
        proof {
            lemma_fundamental_div_mod(acc as int, 0x10000);
            assert(acc - (r + q) == 0xFFFF * (q as int));
            lemma_mod_multiples_vanish(q as int, total - acc, 0xFFFF);
        }
        acc = r + q;
    }
    proof {
        lemma_ones_complement_sum_bound(total);
        if total != 0 {
            let d = total - acc;
            lemma_fundamental_div_mod(d, 0xFFFF);
            let k = d / 0xFFFF;
            assert(total - 1 == 0xFFFF * k + (acc - 1));
            lemma_mod_multiples_vanish(k, acc - 1, 0xFFFF);
            lemma_small_mod((acc - 1) as nat, 0xFFFF);
            assert(acc == ones_complement_sum(total));
        }
    }
    (0xFFFF - acc) as u16
}

/// Residues move when a positive offset smaller than the modulus is added.
proof fn lemma_mod_shift_distinct(x: int, d: int, m: int)
    requires
        x >= 0,
        0 < d < m,
    ensures
        x % m != (x + d) % m,
{
    let q = x / m;
    let r = x % m;
    lemma_fundamental_div_mod(x, m);
    lemma_mod_bound(x, m);
    assert(x + d == m * q + (r + d));
    lemma_mod_multiples_vanish(q, r + d, m);
    if r + d < m {
        lemma_small_mod((r + d) as nat, m as nat);
    } else {
        assert(r + d == m * 1 + (r + d - m));
        lemma_mod_multiples_vanish(1, r + d - m, m);
        lemma_small_mod((r + d - m) as nat, m as nat);
    }
}

/// Word sums that lie within `0xFFFF` of one another reduce to distinct
/// one's-complement sums.
proof fn lemma_ones_complement_sum_distinct(n1: nat, n2: nat)
    requires
        n1 < n2,
        n2 - n1 < 0xFFFF,
    ensures
        ones_complement_sum(n1) != ones_complement_sum(n2),
{
    if n1 == 0 {
        lemma_mod_bound(n2 - 1, 0xFFFF);
    } else {
        lemma_mod_shift_distinct(n1 - 1, n2 - n1, 0xFFFF);
    }
}

/// Changing one byte shifts the word sum by that byte's difference, weighted
/// by its position in its word.
proof fn lemma_word_sum_single_change(b1: Seq<u8>, b2: Seq<u8>, i: int)
    requires
        b1.len() == b2.len(),
        0 <= i < b1.len(),
        forall|j: int| 0 <= j < b1.len() && j != i ==> b1[j] == b2[j],
    ensures
        word_sum(b2) - word_sum(b1) == (if i % 2 == 0 {
            256int
        } else {
            1int
        }) * (b2[i] - b1[i]),
    decreases b1.len(),
{
    if i >= 2 {
        assert(b1.skip(2) =~= b1.subrange(2, b1.len() as int));
        assert(b2.skip(2) =~= b2.subrange(2, b2.len() as int));
        lemma_word_sum_single_change(b1.skip(2), b2.skip(2), i - 2);
        assert(b1.skip(2)[i - 2] == b1[i]);
        assert(b2.skip(2)[i - 2] == b2[i]);
    } else if b1.len() == 1 {
        assert(i == 0);
    } else {
        assert(b1.skip(2) =~= b2.skip(2));
    }
}

/// Any corruption confined to a single byte of the input — in particular a
/// single flipped bit — changes the internet checksum: the one's-complement
/// summation has no blind spot for such errors.
pub proof fn lemma_checksum_detects_byte_change(b1: Seq<u8>, b2: Seq<u8>, i: int)
    requires
        b1.len() == b2.len(),
        0 <= i < b1.len(),
        b1[i] != b2[i],
        forall|j: int| 0 <= j < b1.len() && j != i ==> b1[j] == b2[j],
    ensures
        checksum(b1) != checksum(b2),
{
    lemma_word_sum_single_change(b1, b2, i);
    let n1 = word_sum(b1);
    let n2 = word_sum(b2);
    assert(n1 != n2);
    if n1 < n2 {
        lemma_ones_complement_sum_distinct(n1, n2);
    } else {
        lemma_ones_complement_sum_distinct(n2, n1);
    }
    lemma_ones_complement_sum_bound(n1);
    lemma_ones_complement_sum_bound(n2);
}

/// Flipping one bit of the input changes the internet checksum.
pub proof fn lemma_checksum_detects_bit_flip(b1: Seq<u8>, b2: Seq<u8>, i: int, k: u8)
    requires
        b1.len() == b2.len(),
        0 <= i < b1.len(),
        k < 8,
        b2[i] == b1[i] ^ (1u8 << k),
        forall|j: int| 0 <= j < b1.len() && j != i ==> b1[j] == b2[j],
    ensures
        checksum(b1) != checksum(b2),
{
    let x = b1[i];
    assert(x ^ (1u8 << k) != x) by (bit_vector)
        requires
            k < 8,
    ;
    lemma_checksum_detects_byte_change(b1, b2, i);
}

} // verus!
