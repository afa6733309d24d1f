//! Arithmetic of palette indices packed into 64-bit words, several per word,
//! lowest bits first, none straddling two words.

use vstd::prelude::*;
use vstd::arithmetic::power2::{pow2, lemma_pow2_adds, lemma_pow2_pos};
use vstd::arithmetic::div_mod::{
    lemma_div_multiples_vanish_fancy,
    lemma_fundamental_div_mod,
    lemma_mod_bound,
    lemma_small_mod,
    lemma_mod_multiples_vanish,
};
use vstd::bits::{
    low_bits_mask,
    lemma_u64_shl_is_mul,
    lemma_u64_shr_is_div,
    lemma_u64_low_bits_mask_is_mod,
    lemma_u64_pow2_no_overflow,
};

verus! {

/// The word holding `count` indices of `idx` from `start` on, the first in the
/// lowest `bits` bits: the sum of `idx[start + j] * 2^(j * bits)`.
pub open spec fn packed_word(idx: Seq<int>, start: int, count: nat, bits: nat) -> int
    decreases count,
{
    if count == 0 {
        0
    } else {
        packed_word(idx, start, (count - 1) as nat, bits) + idx[start + count - 1] * pow2(
            ((count - 1) * bits) as nat,
        )
    }
}

/// The `count` indices of `idx` from `start` on each fit in `bits` bits.
pub open spec fn fit_in_bits(idx: Seq<int>, start: int, count: nat, bits: nat) -> bool {
    forall|j: int| 0 <= j < count ==> 0 <= #[trigger] idx[start + j] < pow2(bits)
}

/// Number of indices that one word holds.
pub open spec fn per_word(bits: nat) -> nat {
    (64int / (bits as int)) as nat
}

/// The words that hold all of `idx`, `per_word(bits)` indices to a word.
pub open spec fn pack_indices(idx: Seq<int>, bits: nat) -> Seq<u64> {
    let per = per_word(bits) as int;
    Seq::new(
        ((idx.len() + per - 1) / per) as nat,
        |w: int|
            packed_word(idx, w * per, min_nat(per, idx.len() - w * per), bits) as u64,
    )
}

pub open spec fn min_nat(a: int, b: int) -> nat {
    if a <= b { a as nat } else { b as nat }
}

pub proof fn lemma_packed_word_bound(idx: Seq<int>, start: int, count: nat, bits: nat)
    requires
        fit_in_bits(idx, start, count, bits),
    ensures
        0 <= packed_word(idx, start, count, bits) < pow2(count * bits),
    decreases count,
{
    if count == 0 {
        vstd::arithmetic::power2::lemma2_to64();
    } else {
        let c1 = (count - 1) as nat;
        assert(fit_in_bits(idx, start, c1, bits)) by {
            assert forall|j: int| 0 <= j < c1 implies 0 <= #[trigger] idx[start + j] < pow2(bits) by {
                assert(0 <= j < count);
            }
        }
        lemma_packed_word_bound(idx, start, c1, bits);
        let prev = packed_word(idx, start, c1, bits);
        let v = idx[start + count - 1];
        assert(0 <= v < pow2(bits)) by {
            assert(idx[start + (count - 1)] == v);
        }
        let p = pow2((c1 * bits) as nat);
        let b = pow2(bits);
        lemma_pow2_pos((c1 * bits) as nat);
        assert((c1 * bits) as nat + bits == count * bits) by (nonlinear_arith)
            requires c1 == count - 1;
        lemma_pow2_adds((c1 * bits) as nat, bits);
        assert(0 <= v * p <= (b - 1) * p) by (nonlinear_arith)
            requires 0 <= v < b, 0 < p;
        assert((b - 1) * p == b * p - p) by (nonlinear_arith);
        assert(p * b == b * p) by (nonlinear_arith);
    }
}

/// Index `k` of a word reads back as the `k`-th of the indices packed into it.
pub proof fn lemma_packed_word_extract(idx: Seq<int>, start: int, count: nat, bits: nat, k: int)
    requires
        fit_in_bits(idx, start, count, bits),
        0 <= k < count,
    ensures
        (packed_word(idx, start, count, bits) / (pow2((k * bits) as nat) as int)) % (pow2(bits) as int)
            == idx[start + k],
    decreases count,
{
    let c1 = (count - 1) as nat;
    assert(fit_in_bits(idx, start, c1, bits)) by {
        assert forall|j: int| 0 <= j < c1 implies 0 <= #[trigger] idx[start + j] < pow2(bits) by {
            assert(0 <= j < count);
        }
    }
    lemma_packed_word_bound(idx, start, c1, bits);
    let prev = packed_word(idx, start, c1, bits);
    let v = idx[start + count - 1];
    assert(0 <= v < pow2(bits)) by {
        assert(idx[start + (count - 1)] == v);
    }
    let word = packed_word(idx, start, count, bits);
    let q = pow2((k * bits) as nat) as int;
    let b = pow2(bits) as int;
    lemma_pow2_pos((k * bits) as nat);
    lemma_pow2_pos(bits);
    if k == c1 {
        let p = pow2((c1 * bits) as nat) as int;
        assert(word == p * v + prev) by (nonlinear_arith)
            requires word == prev + v * p;
        lemma_div_multiples_vanish_fancy(v, prev, p);
        lemma_small_mod(v as nat, b as nat);
    } else {
        lemma_packed_word_extract(idx, start, c1, bits, k);
        let r = pow2(((c1 - k) * bits) as nat) as int;
        assert((k * bits) as nat + ((c1 - k) * bits) as nat == c1 * bits) by (nonlinear_arith)
            requires 0 <= k < c1;
        lemma_pow2_adds((k * bits) as nat, ((c1 - k) * bits) as nat);
        let p = pow2((c1 * bits) as nat) as int;
        assert(p == q * r);
        // the part below the packed index splits off
        lemma_fundamental_div_mod(prev, q);
        let lo = prev % q;
        let hi = prev / q;
        lemma_mod_bound(prev, q);
        assert(word == q * (hi + v * r) + lo) by (nonlinear_arith)
            requires word == prev + v * p, prev == q * hi + lo, p == q * r;
        lemma_div_multiples_vanish_fancy(hi + v * r, lo, q);
        // the index above it is a multiple of 2^bits
        assert(((c1 - k) * bits) as nat == bits + ((c1 - k - 1) * bits) as nat) by (nonlinear_arith)
            requires 0 <= k < c1;
        lemma_pow2_adds(bits, ((c1 - k - 1) * bits) as nat);
        let r1 = pow2(((c1 - k - 1) * bits) as nat) as int;
        assert(v * r == b * (v * r1)) by (nonlinear_arith)
            requires r == b * r1;
        lemma_mod_multiples_vanish(v * r1, hi, b);
        assert((b * (v * r1) + hi) % b == hi % b);
        assert(hi + v * r == b * (v * r1) + hi);
    }
}

/// Or-ing a value shifted above the occupied low bits adds it.
pub proof fn lemma_or_shifted_is_add(x: u64, y: u64, s: u64)
    requires
        s < 64,
        x < pow2(s as nat),
        y * pow2(s as nat) <= u64::MAX,
    ensures
        x | (y << s) == x + y * pow2(s as nat),
        y << s == y * pow2(s as nat),
{
    lemma_u64_pow2_no_overflow(s as nat);
    lemma_u64_shl_is_mul(y, s);
    lemma_u64_shl_is_mul(1, s);
    let ys = y << s;
    assert(x < (1u64 << s) && s < 64 ==> x | ((ys >> s) << s) == x + ((ys >> s) << s)) by (bit_vector);
    lemma_u64_shr_is_div(ys, s);
    assert(ys as nat / pow2(s as nat) == y) by {
        lemma_div_multiples_vanish_fancy(y as int, 0, pow2(s as nat) as int);
        assert(ys == pow2(s as nat) * y + 0) by (nonlinear_arith)
            requires ys == y * pow2(s as nat);
    }
}

/// Shifting down by `off` and masking `bits` bits reads `(w / 2^off) % 2^bits`.
pub proof fn lemma_shift_mask_is_div_mod(w: u64, off: u64, bits: u64)
    requires
        off < 64,
        1 <= bits < 64,
    ensures
        (w >> off) & (((1u64 << bits) - 1) as u64) == (w as nat / pow2(off as nat)) % pow2(
            bits as nat,
        ),
        (1u64 << bits) == pow2(bits as nat),
{
    lemma_u64_pow2_no_overflow(bits as nat);
    lemma_u64_shl_is_mul(1, bits);
    lemma_u64_shr_is_div(w, off);
    lemma_u64_low_bits_mask_is_mod(w >> off, bits as nat);
    assert(low_bits_mask(bits as nat) == pow2(bits as nat) - 1);
}

/// Storing a word as `i64` and reading it back as `u64` gives the same word.
pub proof fn lemma_word_roundtrip(w: u64)
    ensures
        ((w as i64) as u64) == w,
{
    assert(((w as i64) as u64) == w) by (bit_vector);
}

} // verus!
