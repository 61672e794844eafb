//! The closed set of oscillator shapes, and the hash behind the noise shape.
//!
//! Four shapes are periodic functions of the phase. The fifth, white noise,
//! is no random source: it scrambles the bit pattern of the phase with a
//! fixed 32-bit finalizer, so that equal phases give equal samples on every
//! oscillator and in every run.

use vstd::prelude::*;

verus! {

/// The shape of one oscillator.
#[derive(Clone, Copy, Debug, PartialEq, Eq)]
pub enum Waveform {
    /// The sine of the phase, one cycle per unit of phase.
    Sine,
    /// A rise from -1 to 1 over the first half of each unit of phase, and a
    /// fall back over the second half.
    Triangle,
    /// A ramp from -1 to 1 over each unit of phase.
    Sawtooth,
    /// -1 over the first half of each unit of phase, 1 over the second.
    Square,
    /// The hash of the phase's bit pattern, brought into the range from -1 to 1.
    WhiteNoise,
}

/// The multiplier of the first mixing round.
pub const MIX_FIRST: u32 = 0x85EB_CA6B;

/// The multiplier of the second mixing round.
pub const MIX_SECOND: u32 = 0xC2B2_AE35;

/// `x * y` reduced to 32 bits.
pub open spec fn mul32(x: u32, y: u32) -> u32 {
    ((x as int * y as int) % 0x1_0000_0000) as u32
}

/// One mixing round: fold the high bits into the low ones by `shift`, then
/// multiply by `factor`, keeping 32 bits.
pub open spec fn mix_round(n: u32, shift: u32, factor: u32) -> u32 {
    mul32(n ^ (n >> shift), factor)
}

/// The scrambled form of `bits`: two mixing rounds and a last fold.
pub open spec fn noise_of(bits: u32) -> u32 {
    let a = mix_round(bits, 16, MIX_FIRST);
    let b = mix_round(a, 13, MIX_SECOND);
    b ^ (b >> 16)
}

/// Scrambles the bit pattern of a phase into the bit pattern of a noise
/// sample. The result depends on `bits` alone.
pub fn noise_bits(bits: u32) -> (hashed: u32)
    ensures
        hashed == noise_of(bits),
{
    let a: u32 = (bits ^ (bits >> 16)).wrapping_mul(MIX_FIRST);
    let b: u32 = (a ^ (a >> 13)).wrapping_mul(MIX_SECOND);
    b ^ (b >> 16)
}

/// The inverse of `MIX_FIRST` modulo two to the power 32.
pub const UNMIX_FIRST: u32 = 0xA5CB_9243;

/// The inverse of `MIX_SECOND` modulo two to the power 32.
pub const UNMIX_SECOND: u32 = 0x7ED1_B41D;

/// The bit pattern that hashes to `hashed`: the rounds of `noise_of` undone,
/// last to first.
pub open spec fn unscrambled(hashed: u32) -> u32 {
    let b = mul32(hashed ^ (hashed >> 16), UNMIX_SECOND);
    let a = mul32(b ^ (b >> 13) ^ (b >> 26), UNMIX_FIRST);
    a ^ (a >> 16)
}

/// Noise is deterministic: phases with the same bit pattern hash alike.
pub proof fn lemma_noise_deterministic(a: u32, b: u32)
    requires
        a == b,
    ensures
        noise_of(a) == noise_of(b),
{
}

/// Multiplying by a factor and then by its inverse gives the number back.
proof fn lemma_mul32_undone(x: u32, factor: u32, inverse: u32, carry: int)
    requires
        factor as int * inverse as int == carry * 0x1_0000_0000 + 1,
    ensures
        mul32(mul32(x, factor), inverse) == x,
{
    let m: int = 0x1_0000_0000;
    let xf: int = x as int * factor as int;
    vstd::arithmetic::div_mod::lemma_mul_mod_noop_left(xf, inverse as int, m);
    assert(xf * inverse as int == m * (x as int * carry) + x as int) by (nonlinear_arith)
        requires
            xf == x as int * factor as int,
            factor as int * inverse as int == carry * m + 1,
    ;
    vstd::arithmetic::div_mod::lemma_mod_multiples_vanish(x as int * carry, x as int, m);
    vstd::arithmetic::div_mod::lemma_small_mod(x as nat, m as nat);
}

/// The hash loses nothing: every round can be undone, so the bit pattern
/// that went in can be had back from what came out.
pub proof fn lemma_noise_undone(bits: u32)
    ensures
        unscrambled(noise_of(bits)) == bits,
{
    let x0 = bits ^ (bits >> 16);
    let a = mul32(x0, MIX_FIRST);
    let x1 = a ^ (a >> 13);
    let b = mul32(x1, MIX_SECOND);
    let h = b ^ (b >> 16);
    assert(h ^ (h >> 16) == b) by (bit_vector)
        requires
            h == b ^ (b >> 16),
    ;
    lemma_mul32_undone(x1, MIX_SECOND, UNMIX_SECOND, 0x6073_6E9A);
    assert(x1 ^ (x1 >> 13) ^ (x1 >> 26) == a) by (bit_vector)
        requires
            x1 == a ^ (a >> 13),
    ;
    lemma_mul32_undone(x0, MIX_FIRST, UNMIX_FIRST, 0x56BB_77F4);
    assert(x0 ^ (x0 >> 16) == bits) by (bit_vector)
        requires
            x0 == bits ^ (bits >> 16),
    ;
}

/// Different bit patterns hash differently.
pub proof fn lemma_noise_injective(a: u32, b: u32)
    requires
        noise_of(a) == noise_of(b),
    ensures
        a == b,
{
    lemma_noise_undone(a);
    lemma_noise_undone(b);
}

/// The zero pattern is a fixed point of the hash.
pub proof fn lemma_noise_of_zero()
    ensures
        noise_of(0) == 0,
{
    assert(0u32 ^ (0u32 >> 16u32) == 0u32) by (bit_vector);
    assert(0u32 ^ (0u32 >> 13u32) == 0u32) by (bit_vector);
}

} // verus!
