use concrete_core::bootstrap::{FourierLweBootstrapKey, FourierLweBootstrapKey64, LweBootstrapKey64};
use concrete_core::encoding::{Plaintext, PlaintextVector};
use concrete_core::engines::glwe::{GlweAllocationEngine, GlweEncryptionEngine, GlweSecretKeyGenerationEngine};
use concrete_core::engines::lwe_allocation::LweAllocationEngine;
use concrete_core::engines::lwe_bootstrap::{LweBootstrapEngine, LweBootstrapError};
use concrete_core::engines::lwe_bootstrap_key::{
    ConversionEngine, ConversionError, LweBootstrapKeyConversionEngine, LweBootstrapKeyConversionError,
    LweBootstrapKeyGenerationEngine, LweBootstrapKeyGenerationError,
};
use concrete_core::engines::lwe_encryption::LweEncryptionEngine;
use concrete_core::engines::lwe_keyswitch_key_generation::{
    LweKeyswitchKeyGenerationEngine, LweKeyswitchKeyGenerationError,
};
use concrete_core::engines::lwe_secret_key_generation::LweSecretKeyGenerationEngine;
use concrete_core::engines::{AbstractEngine, CoreEngine, CoreError};
use concrete_core::entities::{LweBootstrapKeyEntity, LweKeyswitchKeyEntity};
use concrete_core::generators::Noise;
use concrete_core::glwe::{GlweCiphertext64, GlweSecretKey64};
use concrete_core::keyswitch::LweKeyswitchKey64;
use concrete_core::lwe::{LweCiphertext64, LweSecretKey64};
use concrete_core::parameters::{
    DecompositionBaseLog, DecompositionLevelCount, GlweDimension, LweDimension, PolynomialSize,
    Variance,
};

const N: usize = 128;
const K: usize = 1;
const LWE_DIM: usize = 4;
const LEVELS: usize = 3;
const BASE_LOG: usize = 7;

fn variance() -> Variance {
    Variance((2f64).powi(-50).to_bits())
}

fn noise(count: usize) -> Noise {
    Noise::new(variance(), vec![0; count])
}

struct Setup {
    engine: CoreEngine,
    lwe_key: LweSecretKey64,
    glwe_key: GlweSecretKey64,
    fourier: FourierLweBootstrapKey64,
}

fn setup() -> Setup {
    let mut engine = CoreEngine::new(21, 42).unwrap();
    let lwe_key: LweSecretKey64 = engine.generate_lwe_secret_key(LweDimension(LWE_DIM)).unwrap();
    let glwe_key: GlweSecretKey64 = engine.generate_glwe_secret_key(GlweDimension(K), PolynomialSize(N)).unwrap();
    let rows = LWE_DIM * (K + 1) * LEVELS;
    let bsk: LweBootstrapKey64 = engine
        .generate_lwe_bootstrap_key(&lwe_key, &glwe_key, DecompositionBaseLog(BASE_LOG), DecompositionLevelCount(LEVELS), noise(rows * N))
        .unwrap();
    assert_eq!(bsk.output_lwe_dimension(), LweDimension(K * N));
    let mut fourier = FourierLweBootstrapKey::allocate(
        LweDimension(LWE_DIM),
        GlweDimension(K),
        PolynomialSize(N),
        DecompositionLevelCount(LEVELS),
        DecompositionBaseLog(BASE_LOG),
    )
    .unwrap();
    engine.convert_lwe_bootstrap_key(&mut fourier, &bsk).unwrap();
    Setup { engine, lwe_key, glwe_key, fourier }
}

fn encode(m: u64) -> u64 {
    (m << 61) | (1u64 << 59)
}

fn decode(v: u64) -> u64 {
    (v.wrapping_add(1u64 << 60) >> 61) & 7
}

fn accumulator(s: &mut Setup, f: fn(u64) -> u64) -> GlweCiphertext64 {
    let lut: Vec<u64> = (0..N).map(|t| f((t / (N / 4)) as u64) << 61).collect();
    let mut acc: GlweCiphertext64 = s.engine.allocate_glwe(GlweDimension(K), PolynomialSize(N)).unwrap();
    s.engine.encrypt_glwe(&s.glwe_key, &mut acc, &PlaintextVector::new(lut), noise(N)).unwrap();
    acc
}

fn bootstrap(s: &mut Setup, m: u64, acc: &GlweCiphertext64) -> u64 {
    let mut input: LweCiphertext64 = s.engine.allocate_lwe(LweDimension(LWE_DIM)).unwrap();
    s.engine.encrypt_lwe(&s.lwe_key, &mut input, &Plaintext::new(encode(m)), noise(1)).unwrap();
    let mut output: LweCiphertext64 = s.engine.allocate_lwe(LweDimension(K * N)).unwrap();
    s.engine.lwe_bootstrap(&mut output, &input, acc, &s.fourier).unwrap();
    output.decrypt(&s.glwe_key.flattened()).value()
}

#[test]
fn bootstrap_with_identity_table() {
    let mut s = setup();
    let acc = accumulator(&mut s, |m| m);
    for m in 0..4 {
        assert_eq!(decode(bootstrap(&mut s, m, &acc)), m);
    }
}

#[test]
fn bootstrap_evaluates_the_table() {
    let mut s = setup();
    let acc = accumulator(&mut s, |m| (m + 1) % 4);
    for m in 0..4 {
        assert_eq!(decode(bootstrap(&mut s, m, &acc)), (m + 1) % 4);
    }
}

#[test]
fn bootstrap_shape_mismatches() {
    let mut s = setup();
    let acc = accumulator(&mut s, |m| m);
    let wrong_input: LweCiphertext64 = s.engine.allocate_lwe(LweDimension(LWE_DIM + 1)).unwrap();
    let input: LweCiphertext64 = s.engine.allocate_lwe(LweDimension(LWE_DIM)).unwrap();
    let mut output: LweCiphertext64 = s.engine.allocate_lwe(LweDimension(K * N)).unwrap();
    let r = s.engine.lwe_bootstrap(&mut output, &wrong_input, &acc, &s.fourier);
    assert!(matches!(r, Err(LweBootstrapError::InputDimensionMismatch)));
    let small_acc: GlweCiphertext64 = s.engine.allocate_glwe(GlweDimension(K), PolynomialSize(N / 2)).unwrap();
    let r = s.engine.lwe_bootstrap(&mut output, &input, &small_acc, &s.fourier);
    assert!(matches!(r, Err(LweBootstrapError::PolynomialSizeMismatch)));
    let wide_acc: GlweCiphertext64 = s.engine.allocate_glwe(GlweDimension(K + 1), PolynomialSize(N)).unwrap();
    let r = s.engine.lwe_bootstrap(&mut output, &input, &wide_acc, &s.fourier);
    assert!(matches!(r, Err(LweBootstrapError::AccumulatorDimensionMismatch)));
    let mut wrong_output: LweCiphertext64 = s.engine.allocate_lwe(LweDimension(K * N - 1)).unwrap();
    let r = s.engine.lwe_bootstrap(&mut wrong_output, &input, &acc, &s.fourier);
    assert!(matches!(r, Err(LweBootstrapError::OutputDimensionMismatch)));
    assert!(wrong_output.mask().iter().all(|a| *a == 0));
}

#[test]
fn conversion_shape_mismatches() {
    let mut e = CoreEngine::new(1, 2).unwrap();
    let lwe_key: LweSecretKey64 = e.generate_lwe_secret_key(LweDimension(2)).unwrap();
    let glwe_key: GlweSecretKey64 = e.generate_glwe_secret_key(GlweDimension(1), PolynomialSize(4)).unwrap();
    let bsk: LweBootstrapKey64 = e
        .generate_lwe_bootstrap_key(&lwe_key, &glwe_key, DecompositionBaseLog(4), DecompositionLevelCount(2), noise(2 * 2 * 2 * 4))
        .unwrap();
    let shapes = [
        (2, 1, 4, 3, 4),
        (2, 1, 4, 2, 5),
        (2, 1, 8, 2, 4),
        (3, 1, 4, 2, 4),
        (2, 2, 4, 2, 4),
    ];
    let mut results = Vec::new();
    for (n, k, size, levels, base) in shapes {
        let mut out: FourierLweBootstrapKey64 = FourierLweBootstrapKey::allocate(
            LweDimension(n),
            GlweDimension(k),
            PolynomialSize(size),
            DecompositionLevelCount(levels),
            DecompositionBaseLog(base),
        )
        .unwrap();
        results.push(e.convert_lwe_bootstrap_key(&mut out, &bsk));
        assert_eq!(out.decomposition_level_count(), DecompositionLevelCount(levels));
    }
    assert!(matches!(results[0], Err(LweBootstrapKeyConversionError::DifferingDecompositionLevelCount)));
    assert!(matches!(results[1], Err(LweBootstrapKeyConversionError::DifferingDecompositionBaseLog)));
    assert!(matches!(results[2], Err(LweBootstrapKeyConversionError::DifferingPolynomialSize)));
    assert!(matches!(results[3], Err(LweBootstrapKeyConversionError::DifferingLweDimension)));
    assert!(matches!(results[4], Err(LweBootstrapKeyConversionError::DifferingGlweDimension)));
    let mut out: FourierLweBootstrapKey64 = FourierLweBootstrapKey::allocate(
        LweDimension(3),
        GlweDimension(1),
        PolynomialSize(4),
        DecompositionLevelCount(2),
        DecompositionBaseLog(4),
    )
    .unwrap();
    assert!(matches!(e.convert(&mut out, &bsk), Err(ConversionError::SizeMismatch)));
}

#[test]
fn rejected_key_generation_leaves_the_generator() {
    let mut a = CoreEngine::new(5, 6).unwrap();
    let mut b = CoreEngine::new(5, 6).unwrap();
    let ka: LweSecretKey64 = a.generate_lwe_secret_key(LweDimension(3)).unwrap();
    let kb: LweSecretKey64 = b.generate_lwe_secret_key(LweDimension(3)).unwrap();
    let ga: GlweSecretKey64 = a.generate_glwe_secret_key(GlweDimension(1), PolynomialSize(4)).unwrap();
    let _gb: GlweSecretKey64 = b.generate_glwe_secret_key(GlweDimension(1), PolynomialSize(4)).unwrap();
    let enough = 3 * 2 * 3 * 4;
    let zero = Variance(0f64.to_bits());
    let r: Result<LweBootstrapKey64, _> = a.generate_lwe_bootstrap_key(&ka, &ga, DecompositionBaseLog(0), DecompositionLevelCount(3), noise(enough));
    assert!(matches!(r, Err(LweBootstrapKeyGenerationError::ZeroDecompositionBase)));
    let r: Result<LweBootstrapKey64, _> = a.generate_lwe_bootstrap_key(&ka, &ga, DecompositionBaseLog(4), DecompositionLevelCount(1), noise(enough));
    assert!(matches!(r, Err(LweBootstrapKeyGenerationError::DecompositionTooSmall)));
    let r: Result<LweBootstrapKey64, _> = a.generate_lwe_bootstrap_key(&ka, &ga, DecompositionBaseLog(4), DecompositionLevelCount(3), Noise::new(zero, vec![0; enough]));
    assert!(matches!(r, Err(LweBootstrapKeyGenerationError::NoiseTooSmall)));
    let r: Result<LweKeyswitchKey64, _> = a.generate_lwe_keyswitch_key(&ka, &ka, DecompositionLevelCount(3), DecompositionBaseLog(0), noise(9));
    assert!(matches!(r, Err(LweKeyswitchKeyGenerationError::ZeroDecompositionBase)));
    let r: Result<LweKeyswitchKey64, _> = a.generate_lwe_keyswitch_key(&ka, &ka, DecompositionLevelCount(0), DecompositionBaseLog(4), noise(9));
    assert!(matches!(r, Err(LweKeyswitchKeyGenerationError::DecompositionTooSmall)));
    let r: Result<LweKeyswitchKey64, _> = a.generate_lwe_keyswitch_key(&ka, &ka, DecompositionLevelCount(3), DecompositionBaseLog(4), Noise::new(Variance((-0f64).to_bits()), vec![0; 9]));
    assert!(matches!(r, Err(LweKeyswitchKeyGenerationError::NoiseTooSmall)));
    let mut ca: LweCiphertext64 = a.allocate_lwe(LweDimension(3)).unwrap();
    let mut cb: LweCiphertext64 = b.allocate_lwe(LweDimension(3)).unwrap();
    a.encrypt_lwe(&ka, &mut ca, &Plaintext::new(9u64), noise(1)).unwrap();
    b.encrypt_lwe(&kb, &mut cb, &Plaintext::new(9u64), noise(1)).unwrap();
    assert_eq!(ca.mask(), cb.mask());
    assert_eq!(ca.body(), cb.body());
}

#[test]
fn key_generation_without_enough_noise() {
    let mut e = CoreEngine::new(8, 9).unwrap();
    let k: LweSecretKey64 = e.generate_lwe_secret_key(LweDimension(3)).unwrap();
    let r: Result<LweKeyswitchKey64, _> = e.generate_lwe_keyswitch_key(&k, &k, DecompositionLevelCount(3), DecompositionBaseLog(4), noise(8));
    assert!(matches!(r, Err(LweKeyswitchKeyGenerationError::Engine(CoreError::NoiseExhausted))));
}

#[test]
fn keyswitch_key_encrypts_scaled_key_bits() {
    let mut e = CoreEngine::new(13, 17).unwrap();
    let input: LweSecretKey64 = e.generate_lwe_secret_key(LweDimension(5)).unwrap();
    let output: LweSecretKey64 = e.generate_lwe_secret_key(LweDimension(7)).unwrap();
    let errors: Vec<i64> = (0..15).map(|i| i - 7).collect();
    let ksk: LweKeyswitchKey64 = e
        .generate_lwe_keyswitch_key(&input, &output, DecompositionLevelCount(3), DecompositionBaseLog(6), Noise::new(variance(), errors.clone()))
        .unwrap();
    assert_eq!(ksk.input_lwe_dimension(), LweDimension(5));
    assert_eq!(ksk.output_lwe_dimension(), LweDimension(7));
    assert_eq!(ksk.decomposition_level_count(), DecompositionLevelCount(3));
    assert_eq!(ksk.decomposition_base_log(), DecompositionBaseLog(6));
    assert_eq!(ksk.ciphertext_count(), 15);
    for e_index in 0..15 {
        let i = e_index / 3;
        let level = e_index % 3 + 1;
        let scale = 1u64 << (64 - 6 * level);
        let expected = input.coefficients()[i].wrapping_mul(scale).wrapping_add(errors[e_index] as u64);
        assert_eq!(ksk.ciphertext(e_index).decrypt(&output).value(), expected);
    }
}

#[test]
fn converted_key_bootstraps_like_the_standard_key() {
    let mut e = CoreEngine::new(31, 37).unwrap();
    let lwe_key: LweSecretKey64 = e.generate_lwe_secret_key(LweDimension(LWE_DIM)).unwrap();
    let glwe_key: GlweSecretKey64 = e.generate_glwe_secret_key(GlweDimension(K), PolynomialSize(N)).unwrap();
    let rows = LWE_DIM * (K + 1) * LEVELS;
    let errors: Vec<i64> = (0..rows * N).map(|i| (i % 7) as i64 - 3).collect();
    let bsk: LweBootstrapKey64 = e
        .generate_lwe_bootstrap_key(&lwe_key, &glwe_key, DecompositionBaseLog(BASE_LOG), DecompositionLevelCount(LEVELS), Noise::new(variance(), errors))
        .unwrap();
    let mut fourier = FourierLweBootstrapKey::allocate(
        LweDimension(LWE_DIM),
        GlweDimension(K),
        PolynomialSize(N),
        DecompositionLevelCount(LEVELS),
        DecompositionBaseLog(BASE_LOG),
    )
    .unwrap();
    e.convert(&mut fourier, &bsk).unwrap();
    let lut: Vec<u64> = (0..N).map(|t| ((t / (N / 4)) as u64) << 61).collect();
    let mut acc: GlweCiphertext64 = e.allocate_glwe(GlweDimension(K), PolynomialSize(N)).unwrap();
    e.encrypt_glwe(&glwe_key, &mut acc, &PlaintextVector::new(lut), noise(N)).unwrap();
    for m in 0..4 {
        let mut input: LweCiphertext64 = e.allocate_lwe(LweDimension(LWE_DIM)).unwrap();
        e.encrypt_lwe(&lwe_key, &mut input, &Plaintext::new(encode(m)), Noise::new(variance(), vec![m as i64])).unwrap();
        let mut with_standard: LweCiphertext64 = e.allocate_lwe(LweDimension(K * N)).unwrap();
        let mut with_fourier: LweCiphertext64 = e.allocate_lwe(LweDimension(K * N)).unwrap();
        e.lwe_bootstrap(&mut with_standard, &input, &acc, &bsk).unwrap();
        e.lwe_bootstrap(&mut with_fourier, &input, &acc, &fourier).unwrap();
        assert_eq!(with_standard.mask(), with_fourier.mask());
        assert_eq!(with_standard.body(), with_fourier.body());
        assert_eq!(decode(with_fourier.decrypt(&glwe_key.flattened()).value()), m);
    }
}
