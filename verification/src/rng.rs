//! Deterministic per-chunk random streams and the draws that ore generation
//! makes from them.

use vstd::prelude::*;
use rand::{Rng, RngCore, SeedableRng};
use rand_chacha::ChaCha8Rng;

verus! {

/// The ChaCha8 generator of `rand_chacha`, carried through the generation
/// logic without looking inside.
#[verifier::external_type_specification]
#[verifier::external_body]
pub struct ExChaCha8Rng(ChaCha8Rng);

/// The generator that `ChaCha8Rng::seed_from_u64` builds from `seed`. The
/// seed fixes the generator's whole state (it is expanded into the 32-byte
/// ChaCha key by a fixed PCG32 sequence, at stream 0 and word position 0), so
/// equal seeds give equal generators. The draws taken from it are named by
/// [`chacha8_i32_draw`], [`chacha8_u32_draw`] and [`chacha8_next_u32`].
pub uninterp spec fn chacha8_seeded(seed: u64) -> ChaCha8Rng;

/// `SeedableRng::seed_from_u64` of `rand_core`, for `ChaCha8Rng`. Claimed: the
/// result is the generator that the seed fixes, [`chacha8_seeded`].
#[verifier::external_body]
pub fn seeded_rng(seed: u64) -> (rng: ChaCha8Rng)
    ensures
        rng == chacha8_seeded(seed),
{
    ChaCha8Rng::seed_from_u64(seed)
}

/// What `Rng::random_range(lo..=hi)` gives on an `i32` range when drawn from
/// `rng`: the value and the generator after the draw. Both are fixed by the
/// generator's state and the bounds; the value is not described further.
pub uninterp spec fn chacha8_i32_draw(rng: ChaCha8Rng, lo: i32, hi: i32) -> (i32, ChaCha8Rng);

/// What `Rng::random_range(lo..=hi)` gives on a `u32` range when drawn from
/// `rng`: the value and the generator after the draw.
pub uninterp spec fn chacha8_u32_draw(rng: ChaCha8Rng, lo: u32, hi: u32) -> (u32, ChaCha8Rng);

/// What `RngCore::next_u32` gives when drawn from `rng`: the next 32-bit word
/// of the stream and the generator after it.
pub uninterp spec fn chacha8_next_u32(rng: ChaCha8Rng) -> (u32, ChaCha8Rng);

/// `Rng::random_range` of `rand` on the inclusive `i32` range `lo..=hi`.
/// Claimed: the draw lies in the range, and the draw together with the
/// generator left behind is [`chacha8_i32_draw`] of the generator before and
/// the bounds. The call panics on an empty range, which `requires` rules out.
#[verifier::external_body]
pub fn random_i32_in(rng: &mut ChaCha8Rng, lo: i32, hi: i32) -> (r: i32)
    requires
        lo <= hi,
    ensures
        lo <= r <= hi,
        (r, *final(rng)) == chacha8_i32_draw(*old(rng), lo, hi),
{
    rng.random_range(lo..=hi)
}

/// `Rng::random_range` of `rand` on the inclusive `u32` range `lo..=hi`.
/// Claimed: the draw lies in the range, and the draw together with the
/// generator left behind is [`chacha8_u32_draw`] of the generator before and
/// the bounds. The call panics on an empty range, which `requires` rules out.
#[verifier::external_body]
pub fn random_u32_in(rng: &mut ChaCha8Rng, lo: u32, hi: u32) -> (r: u32)
    requires
        lo <= hi,
    ensures
        lo <= r <= hi,
        (r, *final(rng)) == chacha8_u32_draw(*old(rng), lo, hi),
{
    rng.random_range(lo..=hi)
}

/// `RngCore::next_u32` of `rand_core`, for `ChaCha8Rng`: the next word of the
/// stream. Claimed: the word together with the generator left behind is
/// [`chacha8_next_u32`] of the generator before.
#[verifier::external_body]
pub fn random_word(rng: &mut ChaCha8Rng) -> (r: u32)
    ensures
        (r, *final(rng)) == chacha8_next_u32(*old(rng)),
{
    rng.next_u32()
}

/// Golden-ratio multiplier that spreads salts over the seed space.
pub const SALT_MULTIPLIER: u64 = 0x9E37_79B9_7F4A_7C15;

/// Seed of the stream for one chunk and one salt: the chunk's x in the high
/// half and its z in the low half of a word (each as its 32 bits), xor-ed with
/// the salt times [`SALT_MULTIPLIER`] modulo 2^64.
pub open spec fn coord_seed_of(chunk_x: i32, chunk_z: i32, salt: u64) -> u64 {
    (((chunk_x as u32 as u64) << 32u64) | (chunk_z as u32 as u64))
        ^ ((salt as int * SALT_MULTIPLIER as int) % 0x1_0000_0000_0000_0000) as u64
}

pub fn coord_seed(chunk_x: i32, chunk_z: i32, salt: u64) -> (seed: u64)
    ensures
        seed == coord_seed_of(chunk_x, chunk_z, salt),
{
    let xs = chunk_x as u32 as u64;
    let zs = chunk_z as u32 as u64;
    let spread = salt.wrapping_mul(SALT_MULTIPLIER);
    ((xs << 32u64) | zs) ^ spread
}

/// The generator for one chunk and one salt, seeded with [`coord_seed_of`].
pub fn coord_rng(chunk_x: i32, chunk_z: i32, salt: u64) -> (rng: ChaCha8Rng)
    ensures
        rng == chacha8_seeded(coord_seed_of(chunk_x, chunk_z, salt)),
{
    seeded_rng(coord_seed(chunk_x, chunk_z, salt))
}

} // verus!
