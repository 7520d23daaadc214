use concrete_core::bootstrap::{FourierLweBootstrapKey, FourierLweBootstrapKey32, LweBootstrapKey32, LweBootstrapKey64};
use concrete_core::encoding::{Cleartext, Plaintext, PlaintextVector};
use concrete_core::engines::glwe::{GlweAllocationEngine, GlweEncryptionEngine, GlweSecretKeyGenerationEngine};
use concrete_core::engines::lwe_allocation::LweAllocationEngine;
use concrete_core::engines::lwe_bootstrap::LweBootstrapEngine;
use concrete_core::engines::lwe_bootstrap_key::{LweBootstrapKeyConversionEngine, LweBootstrapKeyGenerationEngine};
use concrete_core::engines::lwe_encryption::LweEncryptionEngine;
use concrete_core::engines::lwe_linear::{LweAdditionInplaceEngine, LweCleartextMultiplicationInplaceEngine};
use concrete_core::engines::lwe_secret_key_generation::LweSecretKeyGenerationEngine;
use concrete_core::engines::{AbstractEngine, CoreEngine};
use concrete_core::entities::GgswCiphertextEntity;
use concrete_core::generators::Noise;
use concrete_core::glwe::{GlweCiphertext32, GlweSecretKey32, GlweSecretKey64};
use concrete_core::lwe::{LweCiphertext32, LweCiphertext64, LweSecretKey32, LweSecretKey64};
use concrete_core::parameters::{
    DecompositionBaseLog, DecompositionLevelCount, GlweDimension, LweDimension, PolynomialSize,
    Variance,
};

fn noise(count: usize) -> Noise {
    Noise::new(Variance((2f64).powi(-30).to_bits()), vec![0; count])
}

#[test]
fn unchecked_entry_points_agree_with_checked_ones() {
    let mut e = CoreEngine::new(100, 200).unwrap();
    let key: LweSecretKey64 = e.generate_lwe_secret_key_unchecked(LweDimension(6));
    let mut a: LweCiphertext64 = e.allocate_lwe_unchecked(LweDimension(6));
    let mut b: LweCiphertext64 = e.allocate_lwe_unchecked(LweDimension(6));
    e.encrypt_lwe_unchecked(&key, &mut a, &Plaintext::new(1u64 << 60), noise(1));
    e.encrypt_lwe_unchecked(&key, &mut b, &Plaintext::new(2u64 << 60), noise(1));
    e.lwe_add_inplace_unchecked(&mut a, &b);
    e.lwe_cleartext_mul_inplace_unchecked(&mut a, &Cleartext::new(3u64));
    assert_eq!(a.decrypt(&key).value(), 9u64 << 60);
}

#[test]
fn bootstrap_in_32_bits() {
    let n = 64;
    let mut e = CoreEngine::new(1000, 2000).unwrap();
    let lwe_key: LweSecretKey32 = e.generate_lwe_secret_key(LweDimension(3)).unwrap();
    let glwe_key: GlweSecretKey32 = e.generate_glwe_secret_key(GlweDimension(1), PolynomialSize(n)).unwrap();
    let bsk: LweBootstrapKey32 = e
        .generate_lwe_bootstrap_key(&lwe_key, &glwe_key, DecompositionBaseLog(5), DecompositionLevelCount(3), noise(3 * 2 * 3 * n))
        .unwrap();
    let mut fourier: FourierLweBootstrapKey32 = FourierLweBootstrapKey::allocate(
        LweDimension(3),
        GlweDimension(1),
        PolynomialSize(n),
        DecompositionLevelCount(3),
        DecompositionBaseLog(5),
    )
    .unwrap();
    e.convert_lwe_bootstrap_key_unchecked(&mut fourier, &bsk);
    let lut: Vec<u32> = (0..n).map(|t| (((t / (n / 4)) as u32 + 2) % 4) << 29).collect();
    let mut acc: GlweCiphertext32 = e.allocate_glwe(GlweDimension(1), PolynomialSize(n)).unwrap();
    e.encrypt_glwe(&glwe_key, &mut acc, &PlaintextVector::new(lut), noise(n)).unwrap();
    for m in 0..4u32 {
        let mut input: LweCiphertext32 = e.allocate_lwe(LweDimension(3)).unwrap();
        e.encrypt_lwe(&lwe_key, &mut input, &Plaintext::new((m << 29) | (1 << 27)), noise(1)).unwrap();
        let mut output: LweCiphertext32 = e.allocate_lwe(LweDimension(n)).unwrap();
        e.lwe_bootstrap_unchecked(&mut output, &input, &acc, &fourier);
        let v = output.decrypt(&glwe_key.flattened()).value();
        assert_eq!((v.wrapping_add(1 << 28) >> 29) & 7, (m + 2) % 4);
    }
}

#[test]
fn bootstrap_key_holds_ggsw_encryptions_of_the_key() {
    let n = 8;
    let mut e = CoreEngine::new(4, 4).unwrap();
    let lwe_key: LweSecretKey64 = e.generate_lwe_secret_key(LweDimension(2)).unwrap();
    let glwe_key: GlweSecretKey64 = e.generate_glwe_secret_key(GlweDimension(1), PolynomialSize(n)).unwrap();
    let bsk: LweBootstrapKey64 = e
        .generate_lwe_bootstrap_key(&lwe_key, &glwe_key, DecompositionBaseLog(10), DecompositionLevelCount(2), noise(2 * 2 * 2 * n))
        .unwrap();
    for i in 0..2 {
        let ggsw = bsk.ggsw_ciphertext(i);
        assert_eq!(ggsw.glwe_dimension(), GlweDimension(1));
        assert_eq!(ggsw.polynomial_size(), PolynomialSize(n));
        assert_eq!(ggsw.decomposition_level_count(), DecompositionLevelCount(2));
        assert_eq!(ggsw.decomposition_base_log(), DecompositionBaseLog(10));
        // body row (glwe row 1), levels 1 and 2: the constant polynomial s_i * 2^(64 - 10 l)
        for level in 1..=2usize {
            let row = ggsw.row(2 + level - 1);
            let phase = row.decrypt(&glwe_key);
            let bit = lwe_key.coefficients()[i];
            assert_eq!(phase.values()[0], bit << (64 - 10 * level));
            assert!(phase.values()[1..].iter().all(|c| *c == 0));
        }
    }
}
