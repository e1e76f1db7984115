//! Deterministic seed-driven jitter — one integer hash, no RNG state
//! and no allocation, so the same seed gives the same value on every
//! frame and every run. Not a general-purpose PRNG and not
//! cryptographic: it exists to place stars and nudge glyphs. Scaling
//! the hash to an offset is the caller's.
use vstd::prelude::*;

verus! {

/// `v` rotated left by 13 bits.
pub open spec fn rotl13(v: u32) -> u32 {
    ((v as nat * 8192) % 0x1_0000_0000 + v as nat / 0x80000) as u32
}

/// The scatter hash of `seed`: the seed multiplied by 2654435761
/// (wrapping), XORed with the seed multiplied by 40503 (wrapping) and
/// rotated left by 13 bits. The constants are load-bearing: changing
/// either moves every star in every app that already uses it.
pub open spec fn scatter_hash(seed: u32) -> u32 {
    (((seed as nat * 2654435761) % 0x1_0000_0000) as u32) ^ rotl13(
        ((seed as nat * 40503) % 0x1_0000_0000) as u32,
    )
}

/// The hash of `seed` reduced to one of 10000 evenly spaced buckets;
/// bucket `b` stands for the offset `(b / 10000 - 1/2) * spread`.
pub fn scatter_bucket(seed: u32) -> (r: u32)
    ensures
        r == scatter_hash(seed) % 10000,
        r < 10000,
{
    let a = seed.wrapping_mul(2_654_435_761);
    let b = seed.wrapping_mul(40_503);
    let rot = (b << 13u32) | (b >> 19u32);
    assert(rot == ((b as nat * 8192) % 0x1_0000_0000 + b as nat / 0x80000) as u32) by (bit_vector)
        requires
            rot == (b << 13u32) | (b >> 19u32),
    ;
    (a ^ rot) % 10_000
}

} // verus!
