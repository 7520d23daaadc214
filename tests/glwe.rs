use concrete_core::encoding::PlaintextVector;
use concrete_core::engines::glwe::{
    GlweAllocationEngine, GlweAllocationError, GlweEncryptionEngine, GlweEncryptionError,
    GlweSampleExtractionEngine, GlweSampleExtractionError, GlweSecretKeyGenerationEngine,
    GlweVectorEncryptionEngine, GlweVectorEncryptionError,
};
use concrete_core::engines::lwe_allocation::LweAllocationEngine;
use concrete_core::engines::{AbstractEngine, CoreEngine};
use concrete_core::entities::{GlweCiphertextEntity, GlweSecretKeyEntity};
use concrete_core::generators::Noise;
use concrete_core::glwe::{GlweCiphertext64, GlweCiphertextVector, GlweCiphertextVector64, GlweSecretKey32, GlweSecretKey64, GlweCiphertext32};
use concrete_core::lwe::LweCiphertext64;
use concrete_core::parameters::{GlweDimension, LweDimension, MonomialDegree, PolynomialSize, Variance};

fn engine() -> CoreEngine {
    CoreEngine::new(3, 5).unwrap()
}

fn noise(errors: Vec<i64>) -> Noise {
    Noise::new(Variance((2f64).powi(-40).to_bits()), errors)
}

#[test]
fn glwe_round_trip() {
    let mut e = engine();
    let key: GlweSecretKey64 = e.generate_glwe_secret_key(GlweDimension(2), PolynomialSize(8)).unwrap();
    assert_eq!(key.glwe_dimension(), GlweDimension(2));
    let mut ct: GlweCiphertext64 = e.allocate_glwe(GlweDimension(2), PolynomialSize(8)).unwrap();
    let messages: Vec<u64> = (0..8).map(|i| (i as u64) << 58).collect();
    let errors: Vec<i64> = (0..8).map(|i| i as i64 - 4).collect();
    e.encrypt_glwe(&key, &mut ct, &PlaintextVector::new(messages.clone()), noise(errors.clone())).unwrap();
    let decrypted = ct.decrypt(&key);
    for i in 0..8 {
        assert_eq!(decrypted.values()[i], messages[i].wrapping_add(errors[i] as u64));
    }
}

#[test]
fn glwe_round_trip_32() {
    let mut e = engine();
    let key: GlweSecretKey32 = e.generate_glwe_secret_key(GlweDimension(1), PolynomialSize(16)).unwrap();
    let mut ct: GlweCiphertext32 = e.allocate_glwe(GlweDimension(1), PolynomialSize(16)).unwrap();
    let messages: Vec<u32> = (0..16).map(|i| (i as u32) << 26).collect();
    e.encrypt_glwe(&key, &mut ct, &PlaintextVector::new(messages.clone()), noise(vec![0; 16])).unwrap();
    assert_eq!(ct.decrypt(&key).values(), &messages);
}

#[test]
fn glwe_encryption_shape_mismatches() {
    let mut e = engine();
    let key: GlweSecretKey64 = e.generate_glwe_secret_key(GlweDimension(2), PolynomialSize(8)).unwrap();
    let mut other_size: GlweCiphertext64 = e.allocate_glwe(GlweDimension(2), PolynomialSize(4)).unwrap();
    let r = e.encrypt_glwe(&key, &mut other_size, &PlaintextVector::new(vec![0u64; 4]), noise(vec![0; 8]));
    assert!(matches!(r, Err(GlweEncryptionError::PolynomialSizeMismatch)));
    let mut other_dim: GlweCiphertext64 = e.allocate_glwe(GlweDimension(1), PolynomialSize(8)).unwrap();
    let r = e.encrypt_glwe(&key, &mut other_dim, &PlaintextVector::new(vec![0u64; 8]), noise(vec![0; 8]));
    assert!(matches!(r, Err(GlweEncryptionError::GlweDimensionMismatch)));
    assert_eq!(other_dim.glwe_dimension(), GlweDimension(1));
}

#[test]
fn glwe_allocation_too_large() {
    let mut e = engine();
    let r: Result<GlweCiphertext64, _> = e.allocate_glwe(GlweDimension(usize::MAX), PolynomialSize(2));
    assert!(matches!(r, Err(GlweAllocationError::MemoryExhausted)));
}

#[test]
fn glwe_vector_encryption_round_trip() {
    let mut e = engine();
    let key: GlweSecretKey64 = e.generate_glwe_secret_key(GlweDimension(1), PolynomialSize(4)).unwrap();
    let mut cts: GlweCiphertextVector64 = GlweCiphertextVector::zero(1, 4, 2);
    let messages: Vec<u64> = (0..8).map(|i| (i as u64) << 59).collect();
    e.encrypt_glwe_vector(&key, &mut cts, &PlaintextVector::new(messages.clone()), noise(vec![0; 8])).unwrap();
    for c in 0..2 {
        let d = cts.get(c).decrypt(&key);
        assert_eq!(d.values(), &messages[4 * c..4 * c + 4].to_vec());
    }
}

#[test]
fn glwe_vector_encryption_rejections() {
    let mut e = engine();
    let key: GlweSecretKey64 = e.generate_glwe_secret_key(GlweDimension(1), PolynomialSize(4)).unwrap();
    let mut cts: GlweCiphertextVector64 = GlweCiphertextVector::zero(1, 4, 2);
    let r = e.encrypt_glwe_vector(&key, &mut cts, &PlaintextVector::new(vec![0u64; 7]), noise(vec![0; 8]));
    assert!(matches!(r, Err(GlweVectorEncryptionError::CountMismatch)));
    let mut wrong_dim: GlweCiphertextVector64 = GlweCiphertextVector::zero(2, 4, 2);
    let r = e.encrypt_glwe_vector(&key, &mut wrong_dim, &PlaintextVector::new(vec![0u64; 8]), noise(vec![0; 8]));
    assert!(matches!(r, Err(GlweVectorEncryptionError::GlweDimensionMismatch)));
    let mut wrong_size: GlweCiphertextVector64 = GlweCiphertextVector::zero(1, 2, 4);
    let r = e.encrypt_glwe_vector(&key, &mut wrong_size, &PlaintextVector::new(vec![0u64; 8]), noise(vec![0; 8]));
    assert!(matches!(r, Err(GlweVectorEncryptionError::PolynomialSizeMismatch)));
}

#[test]
fn sample_extraction_gives_each_coefficient() {
    let mut e = engine();
    let key: GlweSecretKey64 = e.generate_glwe_secret_key(GlweDimension(2), PolynomialSize(8)).unwrap();
    let mut ct: GlweCiphertext64 = e.allocate_glwe(GlweDimension(2), PolynomialSize(8)).unwrap();
    let messages: Vec<u64> = (0..8).map(|i| (i as u64 + 1) << 57).collect();
    e.encrypt_glwe(&key, &mut ct, &PlaintextVector::new(messages.clone()), noise(vec![0; 8])).unwrap();
    let flat = key.flattened();
    for nth in 0..8 {
        let mut lwe: LweCiphertext64 = e.allocate_lwe(LweDimension(16)).unwrap();
        e.glwe_sample_extract(&mut lwe, &ct, MonomialDegree(nth)).unwrap();
        assert_eq!(lwe.decrypt(&flat).value(), messages[nth]);
    }
}

#[test]
fn sample_extraction_rejections() {
    let mut e = engine();
    let ct: GlweCiphertext64 = e.allocate_glwe(GlweDimension(2), PolynomialSize(8)).unwrap();
    let mut lwe: LweCiphertext64 = e.allocate_lwe(LweDimension(15)).unwrap();
    let r = e.glwe_sample_extract(&mut lwe, &ct, MonomialDegree(0));
    assert!(matches!(r, Err(GlweSampleExtractionError::SizeMismatch)));
    let mut lwe: LweCiphertext64 = e.allocate_lwe(LweDimension(16)).unwrap();
    let r = e.glwe_sample_extract(&mut lwe, &ct, MonomialDegree(8));
    assert!(matches!(r, Err(GlweSampleExtractionError::MonomialDegreeTooLarge)));
}

#[test]
fn glwe_encryption_compares_dimensions_before_count() {
    let mut e = engine();
    let key: GlweSecretKey64 = e.generate_glwe_secret_key(GlweDimension(2), PolynomialSize(8)).unwrap();
    let mut other_dim: GlweCiphertext64 = e.allocate_glwe(GlweDimension(1), PolynomialSize(8)).unwrap();
    let r = e.encrypt_glwe(&key, &mut other_dim, &PlaintextVector::new(vec![0u64; 5]), noise(vec![0; 8]));
    assert!(matches!(r, Err(GlweEncryptionError::GlweDimensionMismatch)));
    let mut ct: GlweCiphertext64 = e.allocate_glwe(GlweDimension(2), PolynomialSize(8)).unwrap();
    let r = e.encrypt_glwe(&key, &mut ct, &PlaintextVector::new(vec![0u64; 5]), noise(vec![0; 8]));
    assert!(matches!(r, Err(GlweEncryptionError::CountMismatch)));
}
