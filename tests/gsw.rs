use concrete_core::bootstrap::LweBootstrapKey64;
use concrete_core::engines::glwe::GlweSecretKeyGenerationEngine;
use concrete_core::engines::lwe_bootstrap_key::LweBootstrapKeyGenerationEngine;
use concrete_core::engines::lwe_keyswitch_key_generation::LweKeyswitchKeyGenerationEngine;
use concrete_core::engines::lwe_secret_key_generation::LweSecretKeyGenerationEngine;
use concrete_core::engines::{AbstractEngine, CoreEngine};
use concrete_core::entities::{GgswCiphertextVectorEntity, GswCiphertextEntity, GswCiphertextVectorEntity};
use concrete_core::generators::Noise;
use concrete_core::glwe::GlweSecretKey64;
use concrete_core::gsw::{GswCiphertext, GswCiphertext64, GswCiphertextVector};
use concrete_core::keyswitch::LweKeyswitchKey64;
use concrete_core::lwe::LweSecretKey64;
use concrete_core::parameters::{
    DecompositionBaseLog, DecompositionLevelCount, GlweDimension, LweDimension, PolynomialSize,
    Variance,
};

fn noise(count: usize) -> Noise {
    Noise::new(Variance((2f64).powi(-40).to_bits()), vec![0; count])
}

#[test]
fn gsw_ciphertext_shape() {
    let c: GswCiphertext64 = GswCiphertext::zero(LweDimension(4), DecompositionLevelCount(3), DecompositionBaseLog(6)).unwrap();
    assert_eq!(c.lwe_dimension(), LweDimension(4));
    assert_eq!(c.decomposition_level_count(), DecompositionLevelCount(3));
    assert_eq!(c.decomposition_base_log(), DecompositionBaseLog(6));
    assert_eq!(c.row(14).body(), 0);
    let too_big: Option<GswCiphertext64> = GswCiphertext::zero(LweDimension(usize::MAX), DecompositionLevelCount(2), DecompositionBaseLog(6));
    assert!(too_big.is_none());
}

#[test]
fn gsw_ciphertext_vector_shape() {
    let a: GswCiphertext64 = GswCiphertext::zero(LweDimension(2), DecompositionLevelCount(2), DecompositionBaseLog(5)).unwrap();
    let b: GswCiphertext64 = GswCiphertext::zero(LweDimension(2), DecompositionLevelCount(2), DecompositionBaseLog(5)).unwrap();
    let c: GswCiphertext64 = GswCiphertext::zero(LweDimension(3), DecompositionLevelCount(2), DecompositionBaseLog(5)).unwrap();
    let v = GswCiphertextVector::from_ciphertexts(LweDimension(2), DecompositionLevelCount(2), DecompositionBaseLog(5), vec![a, b]).unwrap();
    assert_eq!(v.gsw_ciphertext_count().0, 2);
    assert_eq!(v.lwe_dimension(), LweDimension(2));
    assert_eq!(v.get(1).lwe_dimension(), LweDimension(2));
    assert!(GswCiphertextVector::from_ciphertexts(LweDimension(2), DecompositionLevelCount(2), DecompositionBaseLog(5), vec![c]).is_none());
}

#[test]
fn bootstrap_key_as_ggsw_vector() {
    let mut e = CoreEngine::new(9, 10).unwrap();
    let lwe_key: LweSecretKey64 = e.generate_lwe_secret_key(LweDimension(3)).unwrap();
    let glwe_key: GlweSecretKey64 = e.generate_glwe_secret_key(GlweDimension(1), PolynomialSize(8)).unwrap();
    let bsk: LweBootstrapKey64 = e
        .generate_lwe_bootstrap_key(&lwe_key, &glwe_key, DecompositionBaseLog(8), DecompositionLevelCount(2), noise(3 * 2 * 2 * 8))
        .unwrap();
    let v = bsk.ggsw_ciphertexts();
    assert_eq!(v.ggsw_ciphertext_count().0, 3);
    assert_eq!(v.glwe_dimension(), GlweDimension(1));
    assert_eq!(v.polynomial_size(), PolynomialSize(8));
    assert_eq!(v.decomposition_level_count(), DecompositionLevelCount(2));
    assert_eq!(v.decomposition_base_log(), DecompositionBaseLog(8));
}

#[test]
fn key_material_generation_leaves_the_secret_generator() {
    let mut a = CoreEngine::new(50, 60).unwrap();
    let mut b = CoreEngine::new(50, 61).unwrap();
    let ka: LweSecretKey64 = a.generate_lwe_secret_key(LweDimension(4)).unwrap();
    let kb: LweSecretKey64 = b.generate_lwe_secret_key(LweDimension(4)).unwrap();
    assert_eq!(ka.coefficients(), kb.coefficients());
    let ga: GlweSecretKey64 = a.generate_glwe_secret_key(GlweDimension(1), PolynomialSize(4)).unwrap();
    let _gb: GlweSecretKey64 = b.generate_glwe_secret_key(GlweDimension(1), PolynomialSize(4)).unwrap();
    let _ksk: LweKeyswitchKey64 = a.generate_lwe_keyswitch_key(&ka, &ka, DecompositionLevelCount(2), DecompositionBaseLog(4), noise(8)).unwrap();
    let _bsk: LweBootstrapKey64 = a
        .generate_lwe_bootstrap_key(&ka, &ga, DecompositionBaseLog(4), DecompositionLevelCount(2), noise(4 * 2 * 2 * 4))
        .unwrap();
    let next_a: LweSecretKey64 = a.generate_lwe_secret_key(LweDimension(64)).unwrap();
    let next_b: LweSecretKey64 = b.generate_lwe_secret_key(LweDimension(64)).unwrap();
    assert_eq!(next_a.coefficients(), next_b.coefficients());
}
