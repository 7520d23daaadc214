use concrete_core::encoding::{Cleartext, CleartextVector, Plaintext, PlaintextVector};
use concrete_core::engines::lwe_allocation::LweAllocationEngine;
use concrete_core::engines::lwe_encryption::{
    LweEncryptionEngine, LweEncryptionError, LweVectorEncryptionEngine, LweVectorEncryptionError,
};
use concrete_core::engines::lwe_linear::{
    LweAdditionEngine, LweAdditionError, LweAdditionInplaceEngine, LweCleartextMultiplicationEngine,
    LweCleartextMultiplicationInplaceEngine, LweInplaceAdditionError, LweMultisumEngine,
    LweMultisumError, LweNegationEngine, LweNegationError, LweNegationInplaceEngine,
    LwePlaintextAdditionEngine, LwePlaintextAdditionInplaceEngine,
};
use concrete_core::engines::lwe_secret_key_generation::LweSecretKeyGenerationEngine;
use concrete_core::engines::{AbstractEngine, CoreEngine, CoreError};
use concrete_core::entities::{LweCiphertextEntity, LweCiphertextVectorEntity, LweSecretKeyEntity};
use concrete_core::generators::Noise;
use concrete_core::lwe::{
    LweCiphertext32, LweCiphertext64, LweCiphertextVector, LweCiphertextVector64, LweSecretKey32,
    LweSecretKey64,
};
use concrete_core::parameters::{LweDimension, Variance};

fn engine() -> CoreEngine {
    CoreEngine::new(7, 11).unwrap()
}

fn noise(errors: Vec<i64>) -> Noise {
    Noise::new(Variance((2f64).powi(-40).to_bits()), errors)
}

fn decrypt64(key: &LweSecretKey64, ct: &LweCiphertext64) -> u64 {
    ct.decrypt(key).value()
}

#[test]
fn lwe_round_trip_64() {
    let mut e = engine();
    let key: LweSecretKey64 = e.generate_lwe_secret_key(LweDimension(10)).unwrap();
    let mut ct: LweCiphertext64 = e.allocate_lwe(LweDimension(10)).unwrap();
    let p = Plaintext::new(3u64 << 60);
    e.encrypt_lwe(&key, &mut ct, &p, noise(vec![-5])).unwrap();
    assert_eq!(decrypt64(&key, &ct), (3u64 << 60).wrapping_sub(5));
}

#[test]
fn lwe_round_trip_32_without_error() {
    let mut e = engine();
    let key: LweSecretKey32 = e.generate_lwe_secret_key(LweDimension(16)).unwrap();
    let mut ct: LweCiphertext32 = e.allocate_lwe(LweDimension(16)).unwrap();
    e.encrypt_lwe(&key, &mut ct, &Plaintext::new(0xdead_beefu32), noise(vec![0])).unwrap();
    assert_eq!(ct.decrypt(&key).value(), 0xdead_beef);
}

#[test]
fn lwe_encryption_draws_a_mask() {
    let mut e = engine();
    let key: LweSecretKey64 = e.generate_lwe_secret_key(LweDimension(8)).unwrap();
    let mut ct: LweCiphertext64 = e.allocate_lwe(LweDimension(8)).unwrap();
    e.encrypt_lwe(&key, &mut ct, &Plaintext::new(0u64), noise(vec![0])).unwrap();
    assert!(ct.mask().iter().any(|a| *a != 0));
}

#[test]
fn secret_key_is_binary() {
    let mut e = engine();
    let key: LweSecretKey64 = e.generate_lwe_secret_key(LweDimension(64)).unwrap();
    assert_eq!(key.lwe_dimension(), LweDimension(64));
    assert!(key.coefficients().iter().all(|c| *c == 0 || *c == 1));
    assert!(key.coefficients().iter().any(|c| *c == 1));
}

#[test]
fn lwe_encryption_dimension_mismatch() {
    let mut e = engine();
    let key: LweSecretKey64 = e.generate_lwe_secret_key(LweDimension(10)).unwrap();
    let mut ct: LweCiphertext64 = e.allocate_lwe(LweDimension(9)).unwrap();
    let r = e.encrypt_lwe(&key, &mut ct, &Plaintext::new(1u64), noise(vec![0]));
    assert!(matches!(r, Err(LweEncryptionError::LweDimensionMismatch)));
    assert!(ct.mask().iter().all(|a| *a == 0));
    assert_eq!(ct.body(), 0);
}

#[test]
fn lwe_encryption_without_noise_terms() {
    let mut e = engine();
    let key: LweSecretKey64 = e.generate_lwe_secret_key(LweDimension(4)).unwrap();
    let mut ct: LweCiphertext64 = e.allocate_lwe(LweDimension(4)).unwrap();
    let r = e.encrypt_lwe(&key, &mut ct, &Plaintext::new(1u64), noise(vec![]));
    assert!(matches!(r, Err(LweEncryptionError::Engine(CoreError::NoiseExhausted))));
}

#[test]
fn lwe_vector_encryption_round_trip() {
    let mut e = engine();
    let key: LweSecretKey64 = e.generate_lwe_secret_key(LweDimension(6)).unwrap();
    let mut cts: LweCiphertextVector64 = LweCiphertextVector::zero(6, 3);
    let input = PlaintextVector::new(vec![1u64 << 60, 2u64 << 60, 3u64 << 60]);
    e.encrypt_lwe_vector(&key, &mut cts, &input, noise(vec![1, 2, 3])).unwrap();
    for i in 0..3 {
        assert_eq!(decrypt64(&key, cts.get(i)), ((i as u64 + 1) << 60) + i as u64 + 1);
    }
}

#[test]
fn lwe_vector_encryption_count_mismatch() {
    let mut e = engine();
    let key: LweSecretKey64 = e.generate_lwe_secret_key(LweDimension(6)).unwrap();
    let mut cts: LweCiphertextVector64 = LweCiphertextVector::zero(6, 2);
    let input = PlaintextVector::new(vec![1u64, 2, 3]);
    let r = e.encrypt_lwe_vector(&key, &mut cts, &input, noise(vec![0, 0, 0]));
    assert!(matches!(r, Err(LweVectorEncryptionError::CountMismatch)));
    let mut wrong: LweCiphertextVector64 = LweCiphertextVector::zero(5, 3);
    let r = e.encrypt_lwe_vector(&key, &mut wrong, &input, noise(vec![0, 0, 0]));
    assert!(matches!(r, Err(LweVectorEncryptionError::LweDimensionMismatch)));
    assert_eq!(wrong.lwe_ciphertext_count().0, 3);
}

#[test]
fn homomorphic_addition_decrypts_to_sum() {
    let mut e = engine();
    let key: LweSecretKey64 = e.generate_lwe_secret_key(LweDimension(12)).unwrap();
    let mut c1: LweCiphertext64 = e.allocate_lwe(LweDimension(12)).unwrap();
    let mut c2: LweCiphertext64 = e.allocate_lwe(LweDimension(12)).unwrap();
    e.encrypt_lwe(&key, &mut c1, &Plaintext::new(5u64 << 58), noise(vec![3])).unwrap();
    e.encrypt_lwe(&key, &mut c2, &Plaintext::new(7u64 << 58), noise(vec![-1])).unwrap();
    let mut sum: LweCiphertext64 = e.allocate_lwe(LweDimension(12)).unwrap();
    e.lwe_add(&mut sum, &c1, &c2).unwrap();
    assert_eq!(decrypt64(&key, &sum), (12u64 << 58) + 2);
    e.lwe_add_inplace(&mut c1, &c2).unwrap();
    assert_eq!(decrypt64(&key, &c1), (12u64 << 58) + 2);
}

#[test]
fn addition_wraps_around_the_torus() {
    let mut e = engine();
    let key: LweSecretKey32 = e.generate_lwe_secret_key(LweDimension(5)).unwrap();
    let mut c1: LweCiphertext32 = e.allocate_lwe(LweDimension(5)).unwrap();
    let mut c2: LweCiphertext32 = e.allocate_lwe(LweDimension(5)).unwrap();
    e.encrypt_lwe(&key, &mut c1, &Plaintext::new(3u32 << 30), noise(vec![0])).unwrap();
    e.encrypt_lwe(&key, &mut c2, &Plaintext::new(2u32 << 30), noise(vec![0])).unwrap();
    e.lwe_add_inplace(&mut c1, &c2).unwrap();
    assert_eq!(c1.decrypt(&key).value(), 1u32 << 30);
}

#[test]
fn addition_dimension_mismatch_leaves_output() {
    let mut e = engine();
    let mut a: LweCiphertext64 = e.allocate_lwe(LweDimension(4)).unwrap();
    let b: LweCiphertext64 = e.allocate_lwe(LweDimension(5)).unwrap();
    let r = e.lwe_add_inplace(&mut a, &b);
    assert!(matches!(r, Err(LweInplaceAdditionError::LweDimensionMismatch)));
    assert_eq!(a.lwe_dimension(), LweDimension(4));
    let mut out: LweCiphertext64 = e.allocate_lwe(LweDimension(4)).unwrap();
    let r = e.lwe_add(&mut out, &a, &b);
    assert!(matches!(r, Err(LweAdditionError::LweDimensionMismatch)));
    assert_eq!(out.lwe_dimension(), LweDimension(4));
}

#[test]
fn negation_decrypts_to_opposite() {
    let mut e = engine();
    let key: LweSecretKey64 = e.generate_lwe_secret_key(LweDimension(8)).unwrap();
    let mut c: LweCiphertext64 = e.allocate_lwe(LweDimension(8)).unwrap();
    e.encrypt_lwe(&key, &mut c, &Plaintext::new(1u64 << 62), noise(vec![4])).unwrap();
    let mut n: LweCiphertext64 = e.allocate_lwe(LweDimension(8)).unwrap();
    e.lwe_neg(&mut n, &c).unwrap();
    assert_eq!(decrypt64(&key, &n), 0u64.wrapping_sub((1u64 << 62) + 4));
    e.lwe_neg_inplace(&mut c).unwrap();
    assert_eq!(decrypt64(&key, &c), 0u64.wrapping_sub((1u64 << 62) + 4));
    let mut small: LweCiphertext64 = e.allocate_lwe(LweDimension(3)).unwrap();
    assert!(matches!(e.lwe_neg(&mut small, &c), Err(LweNegationError::LweDimensionMismatch)));
}

#[test]
fn cleartext_multiplication_scales_the_message() {
    let mut e = engine();
    let key: LweSecretKey64 = e.generate_lwe_secret_key(LweDimension(8)).unwrap();
    let mut c: LweCiphertext64 = e.allocate_lwe(LweDimension(8)).unwrap();
    e.encrypt_lwe(&key, &mut c, &Plaintext::new(3u64 << 56), noise(vec![2])).unwrap();
    let mut out: LweCiphertext64 = e.allocate_lwe(LweDimension(2)).unwrap();
    e.lwe_cleartext_mul(&mut out, &c, &Cleartext::new(5u64)).unwrap();
    assert_eq!(out.lwe_dimension(), LweDimension(8));
    assert_eq!(decrypt64(&key, &out), (15u64 << 56) + 10);
    e.lwe_cleartext_mul_inplace(&mut c, &Cleartext::new(2u64)).unwrap();
    assert_eq!(decrypt64(&key, &c), (6u64 << 56) + 4);
}

#[test]
fn plaintext_addition_shifts_the_message() {
    let mut e = engine();
    let key: LweSecretKey64 = e.generate_lwe_secret_key(LweDimension(8)).unwrap();
    let mut c: LweCiphertext64 = e.allocate_lwe(LweDimension(8)).unwrap();
    e.encrypt_lwe(&key, &mut c, &Plaintext::new(1u64 << 60), noise(vec![0])).unwrap();
    let mut out: LweCiphertext64 = e.allocate_lwe(LweDimension(8)).unwrap();
    e.lwe_plaintext_add(&mut out, &c, &Plaintext::new(2u64 << 60)).unwrap();
    assert_eq!(decrypt64(&key, &out), 3u64 << 60);
    e.lwe_plaintext_add_inplace(&mut c, &Plaintext::new(4u64 << 60)).unwrap();
    assert_eq!(decrypt64(&key, &c), 5u64 << 60);
}

#[test]
fn multisum_decrypts_to_weighted_sum() {
    let mut e = engine();
    let key: LweSecretKey64 = e.generate_lwe_secret_key(LweDimension(10)).unwrap();
    let mut cts: LweCiphertextVector64 = LweCiphertextVector::zero(10, 3);
    let input = PlaintextVector::new(vec![1u64 << 50, 2u64 << 50, 3u64 << 50]);
    e.encrypt_lwe_vector(&key, &mut cts, &input, noise(vec![1, -2, 3])).unwrap();
    let weights = CleartextVector::new(vec![4u64, 5, 6]);
    let bias = Plaintext::new(7u64 << 50);
    let mut out: LweCiphertext64 = e.allocate_lwe(LweDimension(10)).unwrap();
    e.lwe_multisum(&mut out, &cts, &weights, &bias).unwrap();
    // 7 + 4 * 1 + 5 * 2 + 6 * 3 = 39, errors 4 * 1 - 5 * 2 + 6 * 3 = 12
    assert_eq!(decrypt64(&key, &out), (39u64 << 50) + 12);
}

#[test]
fn multisum_rejections() {
    let mut e = engine();
    let cts: LweCiphertextVector64 = LweCiphertextVector::zero(10, 3);
    let bias = Plaintext::new(0u64);
    let mut out: LweCiphertext64 = e.allocate_lwe(LweDimension(9)).unwrap();
    let r = e.lwe_multisum(&mut out, &cts, &CleartextVector::new(vec![1u64, 1, 1]), &bias);
    assert!(matches!(r, Err(LweMultisumError::LweDimensionMismatch)));
    let mut out: LweCiphertext64 = e.allocate_lwe(LweDimension(10)).unwrap();
    let r = e.lwe_multisum(&mut out, &cts, &CleartextVector::new(vec![1u64, 1]), &bias);
    assert!(matches!(r, Err(LweMultisumError::VectorCountMismatch)));
    assert_eq!(out.body(), 0);
}

#[test]
fn ciphertext_vector_from_ciphertexts() {
    let mut e = engine();
    let a: LweCiphertext64 = e.allocate_lwe(LweDimension(3)).unwrap();
    let b: LweCiphertext64 = e.allocate_lwe(LweDimension(4)).unwrap();
    assert!(LweCiphertextVector::from_ciphertexts(LweDimension(3), vec![a.duplicate(), b]).is_none());
    let v = LweCiphertextVector::from_ciphertexts(LweDimension(3), vec![a.duplicate(), a]).unwrap();
    assert_eq!(v.lwe_dimension(), LweDimension(3));
    assert_eq!(v.lwe_ciphertext_count().0, 2);
}
