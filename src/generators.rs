//! The random sources an engine consumes: a secret generator for key material, an encryption
//! generator for ciphertext masks, and gaussian noise drawn ahead of time.
use vstd::prelude::*;
use concrete_csprng::generators::{RandomGenerator, SoftwareRandomGenerator};
use concrete_csprng::seeders::Seed;
use crate::numeric::Torus;
use crate::parameters::Variance;

verus! {

#[verifier::external_type_specification]
#[verifier::external_body]
pub struct ExSoftwareRandomGenerator(SoftwareRandomGenerator);

/// Relies on concrete_csprng's `RandomGenerator::new`: an AES-CTR byte stream keyed by the seed.
#[verifier::external_body]
fn csprng_new(seed: u128) -> SoftwareRandomGenerator {
    <SoftwareRandomGenerator as RandomGenerator>::new(Seed(seed))
}

/// Relies on concrete_csprng's `RandomGenerator::next_byte`: the next byte of the stream, or
/// `None` once the stream's bound is reached.
#[verifier::external_body]
fn csprng_next_byte(generator: &mut SoftwareRandomGenerator) -> Option<u8> {
    generator.next_byte()
}

/// Draws one byte. The stream of a generator is bounded by `2^132` bytes, far beyond what a
/// process consumes; past it, zero bytes come out.
fn draw_byte(generator: &mut SoftwareRandomGenerator) -> u8 {
    match csprng_next_byte(generator) {
        Some(b) => b,
        None => 0,
    }
}

/// The generator that secret keys are drawn from.
pub struct SecretRandomGenerator {
    generator: SoftwareRandomGenerator,
}

impl SecretRandomGenerator {
    pub fn new(seed: u128) -> SecretRandomGenerator {
        SecretRandomGenerator { generator: csprng_new(seed) }
    }

    /// A uniformly random bit.
    pub fn random_bit<T: Torus>(&mut self) -> (r: T)
        ensures
            r.val() == 0 || r.val() == 1,
    {
        let b = draw_byte(&mut self.generator);
        let bit = b & 1;
        assert(bit == 0 || bit == 1) by (bit_vector)
            requires
                bit == b & 1,
        ;
        T::from_u8(bit)
    }
}

/// The generator that ciphertext masks are drawn from.
pub struct EncryptionRandomGenerator {
    generator: SoftwareRandomGenerator,
}

impl EncryptionRandomGenerator {
    pub fn new(seed: u128) -> EncryptionRandomGenerator {
        EncryptionRandomGenerator { generator: csprng_new(seed) }
    }

    /// A uniformly random torus element, built from `w / 8` bytes of the stream.
    pub fn random_uniform<T: Torus>(&mut self) -> T {
        let n = T::bit_count() / 8;
        let base = T::from_u8(16).wrapping_mul(T::from_u8(16));
        let mut acc = T::zero();
        let mut i: u32 = 0;
        while i < n
            decreases n - i,
        {
            let b = draw_byte(&mut self.generator);
            acc = acc.wrapping_mul(base).wrapping_add(T::from_u8(b));
            i = i + 1;
        }
        acc
    }
}

/// Gaussian error terms drawn at `variance`, each a signed integer in units of `2^-w` of the
/// torus. An operation that encrypts consumes them in order, one per coefficient it encrypts.
pub struct Noise {
    pub variance: Variance,
    pub errors: Vec<i64>,
}

impl Noise {
    pub fn new(variance: Variance, errors: Vec<i64>) -> (r: Noise)
        ensures
            r.variance == variance,
            r.errors@ == errors@,
    {
        Noise { variance, errors }
    }
}

} // verus!
