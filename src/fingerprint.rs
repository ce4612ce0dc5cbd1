use vstd::arithmetic::power2::{lemma2_to64, lemma2_to64_rest, lemma_pow2_unfold, pow2};
use vstd::bits::{lemma_u64_pow2_no_overflow, lemma_u64_shl_is_mul, lemma_u64_shr_is_div};
use vstd::prelude::*;

verus! {

/// Bit `i` of a fingerprint; a 64-bit fingerprint has no bit from 64 on.
pub open spec fn bit(x: u64, i: nat) -> bool {
    i < 64 && (x as nat / pow2(i)) % 2 == 1
}

/// The number of positions below `n` at which the bits of `a` and `b` differ.
pub open spec fn hamming(a: u64, b: u64, n: nat) -> nat
    decreases n,
{
    if n == 0 {
        0
    } else {
        hamming(a, b, (n - 1) as nat) + if bit(a, (n - 1) as nat) != bit(b, (n - 1) as nat) {
            1nat
        } else {
            0nat
        }
    }
}

/// The mask `1 << i` selects bit `i`.
proof fn lemma_mask_selects_bit(x: u64, i: u64)
    requires
        i < 64,
    ensures
        ((x & (1u64 << i)) != 0) == bit(x, i as nat),
        (x & (1u64 << i)) == 0 || (x & (1u64 << i)) == (1u64 << i),
{
    assert((x & (1u64 << i)) == 0 || (x & (1u64 << i)) == (1u64 << i)) by (bit_vector);
    assert(((x & (1u64 << i)) != 0) == ((x >> i) % 2 == 1)) by (bit_vector)
        requires
            i < 64,
    ;
    lemma_u64_shr_is_div(x, i);
}

/// Bits from 64 on never differ, so the count stops growing there.
proof fn lemma_hamming_saturates(a: u64, b: u64, n: nat)
    requires
        n >= 64,
    ensures
        hamming(a, b, n) == hamming(a, b, 64),
    decreases n,
{
    if n > 64 {
        lemma_hamming_saturates(a, b, (n - 1) as nat);
    }
}

/// Hamming distance between two fingerprints over their lowest `pix_num` bits.
pub fn get_distance(hash1: u64, hash2: u64, pix_num: usize) -> (d: usize)
    ensures
        d == hamming(hash1, hash2, pix_num as nat),
        d <= pix_num,
{
    let limit: usize = if pix_num < 64 { pix_num } else { 64 };
    let mut d: usize = 0;
    let mut i: usize = 0;
    while i < limit
        invariant
            limit <= pix_num,
            limit <= 64,
            i <= limit,
            d == hamming(hash1, hash2, i as nat),
            d <= i,
        decreases limit - i,
    {
        let k: u64 = 1u64 << (i as u64);
        proof {
            lemma_mask_selects_bit(hash1, i as u64);
            lemma_mask_selects_bit(hash2, i as u64);
        }
        if (hash1 & k) != (hash2 & k) {
            d += 1;
        }
        i += 1;
    }
    proof {
        if pix_num >= 64 {
            lemma_hamming_saturates(hash1, hash2, pix_num as nat);
        }
    }
    d
}

/// Sum of the cells' gray values.
pub open spec fn cell_sum(s: Seq<u8>) -> nat
    decreases s.len(),
{
    if s.len() == 0 {
        0
    } else {
        cell_sum(s.drop_last()) + s.last() as nat
    }
}

/// Cell `k` is strictly brighter than the mean of all cells
/// (`s[k] > sum / len`, written without division).
pub open spec fn above_mean(s: Seq<u8>, k: int) -> bool {
    s[k] as nat * s.len() > cell_sum(s)
}

/// Value of the fingerprint bits that cells `0..k` contribute:
/// bit `j` is set exactly when cell `j` is above the mean.
pub open spec fn fingerprint_bits(s: Seq<u8>, k: nat) -> nat
    decreases k,
{
    if k == 0 {
        0
    } else {
        fingerprint_bits(s, (k - 1) as nat) + if above_mean(s, k - 1) {
            pow2((k - 1) as nat)
        } else {
            0
        }
    }
}

/// Number of cells that carry a bit: all of them, up to the 64 bits of a fingerprint.
pub open spec fn hashed_cells(s: Seq<u8>) -> nat {
    if s.len() < 64 {
        s.len()
    } else {
        64
    }
}

/// Average hash of a grid of gray cells taken in row-major order.
pub open spec fn fingerprint(s: Seq<u8>) -> nat {
    fingerprint_bits(s, hashed_cells(s))
}

proof fn lemma_cell_sum_bound(s: Seq<u8>)
    ensures
        cell_sum(s) <= 255 * s.len(),
    decreases s.len(),
{
    if s.len() > 0 {
        lemma_cell_sum_bound(s.drop_last());
    }
}

/// Only the lowest `k` bits can be set after `k` cells.
pub proof fn lemma_fingerprint_bits_bound(s: Seq<u8>, k: nat)
    ensures
        fingerprint_bits(s, k) < pow2(k),
    decreases k,
{
    if k > 0 {
        lemma_fingerprint_bits_bound(s, (k - 1) as nat);
        lemma_pow2_unfold(k);
    } else {
        lemma2_to64();
    }
}

/// Adding the mask of a bit above all set bits is an addition.
proof fn lemma_or_high_bit(h: u64, k: u64)
    requires
        k < 64,
        h < pow2(k as nat),
    ensures
        h | (1u64 << k) == h + pow2(k as nat),
        h + pow2(k as nat) <= u64::MAX,
{
    lemma_u64_pow2_no_overflow(k as nat);
    lemma_u64_shl_is_mul(1, k);
    assert(h < (1u64 << k) ==> h | (1u64 << k) == h + (1u64 << k)) by (bit_vector)
        requires
            k < 64,
    ;
    lemma_pow2_unfold((k + 1) as nat);
    if k < 63 {
        lemma_u64_pow2_no_overflow((k + 1) as nat);
    } else {
        lemma2_to64_rest();
    }
}

/// Average hash of gray cells in row-major order: bit `k` is set when cell `k`
/// is strictly brighter than the mean of all cells. Cells past the 64th still
/// count toward the mean but carry no bit.
pub fn average_hash(cells: &Vec<u8>) -> (r: u64)
    ensures
        r == fingerprint(cells@),
        r < pow2(hashed_cells(cells@)),
{
    let n: usize = cells.len();
    let mut sum: u128 = 0;
    let mut i: usize = 0;
    while i < n
        invariant
            n == cells@.len(),
            i <= n,
            sum == cell_sum(cells@.take(i as int)),
            sum <= 255 * i,
        decreases n - i,
    {
        assert(cells@.take(i + 1).drop_last() == cells@.take(i as int));
        sum = sum + cells[i] as u128;
        i += 1;
    }
    assert(cells@.take(n as int) == cells@);
    let limit: usize = if n < 64 { n } else { 64 };
    let mut hash: u64 = 0;
    let mut k: usize = 0;
    while k < limit
        invariant
            n == cells@.len(),
            sum == cell_sum(cells@),
            sum <= 255 * n,
            limit == hashed_cells(cells@),
            k <= limit,
            hash == fingerprint_bits(cells@, k as nat),
        decreases limit - k,
    {
        proof {
            lemma_fingerprint_bits_bound(cells@, k as nat);
        }
        let c: u128 = cells[k] as u128;
        assert(c * (n as u128) <= 255 * n) by (nonlinear_arith)
            requires
                c <= 255,
        ;
        if c * (n as u128) > sum {
            proof {
                lemma_or_high_bit(hash, k as u64);
            }
            hash = hash | (1u64 << (k as u64));
        }
        k += 1;
    }
    proof {
        lemma_fingerprint_bits_bound(cells@, limit as nat);
    }
    hash
}

/// Distance is symmetric: comparing `a` with `b` counts the same bits as `b` with `a`.
pub proof fn lemma_distance_symmetric(a: u64, b: u64, n: nat)
    ensures
        hamming(a, b, n) == hamming(b, a, n),
    decreases n,
{
    if n > 0 {
        lemma_distance_symmetric(a, b, (n - 1) as nat);
    }
}

/// A fingerprint is at distance zero from itself, over any number of bits.
pub proof fn lemma_distance_identity(a: u64, n: nat)
    ensures
        hamming(a, a, n) == 0,
    decreases n,
{
    if n > 0 {
        lemma_distance_identity(a, (n - 1) as nat);
    }
}

proof fn lemma_uniform_sum(s: Seq<u8>, v: u8)
    requires
        forall|i: int| 0 <= i < s.len() ==> s[i] == v,
    ensures
        cell_sum(s) == v as nat * s.len(),
    decreases s.len(),
{
    if s.len() > 0 {
        lemma_uniform_sum(s.drop_last(), v);
        assert(v as nat * s.len() == v as nat * (s.len() - 1) + v as nat) by (nonlinear_arith)
            requires
                s.len() > 0,
        ;
    }
}

proof fn lemma_no_bit_above_uniform(s: Seq<u8>, v: u8, k: nat)
    requires
        forall|i: int| 0 <= i < s.len() ==> s[i] == v,
        k <= s.len(),
    ensures
        fingerprint_bits(s, k) == 0,
    decreases k,
{
    if k > 0 {
        lemma_no_bit_above_uniform(s, v, (k - 1) as nat);
        lemma_uniform_sum(s, v);
        assert(!above_mean(s, k - 1));
    }
}

/// A grid whose cells all hold the same gray value hashes to zero: no cell
/// is strictly brighter than a mean equal to itself.
pub proof fn lemma_uniform_grid_hashes_to_zero(s: Seq<u8>, v: u8)
    requires
        forall|i: int| 0 <= i < s.len() ==> s[i] == v,
    ensures
        fingerprint(s) == 0,
{
    lemma_no_bit_above_uniform(s, v, hashed_cells(s));
}

} // verus!
