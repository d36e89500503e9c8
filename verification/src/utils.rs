//! Integer hashing, and the pseudo-random numbers made with it.

use vstd::prelude::*;

verus! {

/// One round of mixing: the number folded onto itself by a right shift, then
/// multiplied, modulo two to the thirty-second, by an odd constant.
pub open spec fn spec_mix(x: u32, shift: u32, factor: u32) -> u32 {
    (x ^ (x >> shift)).wrapping_mul(factor)
}

/// The hash of a number: three rounds of mixing and a last fold.
pub open spec fn spec_hash(x: u32) -> u32 {
    let a = spec_mix(x, 17, 0xed5ad4bb);
    let b = spec_mix(a, 11, 0xac4c1b51);
    let c = spec_mix(b, 15, 0x31848bab);
    c ^ (c >> 14)
}

/// The number that is hashed for a position, a time and a channel: a sum of
/// the four, each with its own weight, modulo two to the thirty-second.
pub open spec fn spec_rand_input(pos: (u32, u32), t: u32, c: u32) -> u32 {
    pos.0.wrapping_add(pos.1.wrapping_mul(256)).wrapping_add(c.wrapping_mul(7919)).wrapping_add(
        t.wrapping_mul(2796203),
    )
}

/// A hash of 32 bits that changes about half of its output bits with every
/// input bit.
pub fn hash(x: u32) -> (h: u32)
    ensures
        h == spec_hash(x),
{
    let mut x: u32 = x;
    x = x ^ (x >> 17);
    x = x.wrapping_mul(0xed5ad4bb);
    x = x ^ (x >> 11);
    x = x.wrapping_mul(0xac4c1b51);
    x = x ^ (x >> 15);
    x = x.wrapping_mul(0x31848bab);
    x = x ^ (x >> 14);
    x
}

/// A pseudo-random number for a position, a time and a channel.
pub fn rand(pos: (u32, u32), t: u32, c: u32) -> (r: u32)
    ensures
        r == spec_hash(spec_rand_input(pos, t, c)),
{
    let input: u32 = pos.0.wrapping_add(pos.1.wrapping_mul(256)).wrapping_add(
        c.wrapping_mul(7919),
    ).wrapping_add(t.wrapping_mul(2796203));
    hash(input)
}

} // verus!
