//! Lwe keyswitch keys: for each coefficient of an input key and each decomposition level, an
//! encryption under an output key of that coefficient scaled by the level's gadget factor.
use vstd::prelude::*;
use vstd::arithmetic::power2::pow2;
use crate::entities::{AbstractEntity, LweCiphertextEntity, LweKeyswitchKeyEntity, LweSecretKeyEntity};
use crate::generators::EncryptionRandomGenerator;
use crate::lwe::{LweCiphertext, LweSecretKey};
use crate::markers::{BinaryKeyFlavor, LweKeyswitchKeyKind};
use crate::numeric::Torus;
use crate::parameters::{DecompositionBaseLog, DecompositionLevelCount, LweDimension};

verus! {

/// The gadget factor of decomposition level `level` (from 1) for base `2^base_log`, in a torus
/// of `bits` bits: `2^(bits - level * base_log)` modulo `2^bits`, and zero once
/// `level * base_log` exceeds `bits`.
pub open spec fn gadget_scale(bits: nat, base_log: nat, level: nat) -> int {
    if level * base_log <= bits {
        pow2((bits - level * base_log) as nat) as int % pow2(bits) as int
    } else {
        0
    }
}

/// The gadget factor of decomposition level `level` (from 1) as a torus element.
pub(crate) fn gadget_factor<T: Torus>(base_log: usize, level: usize) -> (r: T)
    ensures
        r.val() == gadget_scale(T::bits(), base_log as nat, level as nat),
{
    let bits = T::bit_count() as usize;
    proof {
        T::lemma_modulus();
    }
    if level > bits || base_log > bits {
        proof {
            assert(level * base_log > bits || level * base_log == 0) by (nonlinear_arith)
                requires
                    level > bits || base_log > bits,
            ;
            vstd::arithmetic::div_mod::lemma_mod_self_0(pow2(T::bits()) as int);
        }
        return T::zero();
    }
    proof {
        assert(level * base_log <= 64 * 64) by (nonlinear_arith)
            requires
                level <= 64,
                base_log <= 64,
        ;
    }
    let shift = level * base_log;
    if shift > bits {
        T::zero()
    } else if shift == 0 {
        proof {
            vstd::arithmetic::div_mod::lemma_mod_self_0(pow2(T::bits()) as int);
        }
        T::zero()
    } else {
        let e = (bits - shift) as u32;
        let r = T::power_of_two(e);
        proof {
            vstd::arithmetic::power2::lemma_pow2_strictly_increases(e as nat, T::bits());
            vstd::arithmetic::power2::lemma_pow2_pos(e as nat);
            vstd::arithmetic::div_mod::lemma_small_mod(pow2(e as nat), pow2(T::bits()));
        }
        r
    }
}

/// An lwe keyswitch key, from keys of dimension `input_lwe_dimension` to keys of dimension
/// `output_lwe_dimension`.
pub struct LweKeyswitchKey<T: Torus> {
    input_lwe_dimension: usize,
    output_lwe_dimension: usize,
    level_count: usize,
    base_log: usize,
    ciphertexts: Vec<LweCiphertext<T>>,
}

/// An lwe keyswitch key in 32 bits of precision.
pub type LweKeyswitchKey32 = LweKeyswitchKey<u32>;

/// An lwe keyswitch key in 64 bits of precision.
pub type LweKeyswitchKey64 = LweKeyswitchKey<u64>;

impl<T: Torus> LweKeyswitchKey<T> {
    #[verifier::type_invariant]
    spec fn shape(&self) -> bool {
        &&& self.ciphertexts@.len() == self.input_lwe_dimension * self.level_count
        &&& forall|e: int| 0 <= e < self.ciphertexts@.len() ==> #[trigger] self.ciphertexts@[e].lwe_dim() == self.output_lwe_dimension
    }

    /// The ciphertexts of the key; the one of input coefficient `i` and level `l + 1` is at
    /// `i * level_count + l`.
    pub closed spec fn items(&self) -> Seq<LweCiphertext<T>> {
        self.ciphertexts@
    }

    pub closed spec fn input_dim(&self) -> nat {
        self.input_lwe_dimension as nat
    }

    pub closed spec fn output_dim(&self) -> nat {
        self.output_lwe_dimension as nat
    }

    pub closed spec fn levels(&self) -> nat {
        self.level_count as nat
    }

    pub closed spec fn log_base(&self) -> nat {
        self.base_log as nat
    }

    /// The key switches from `input_key` to `output_key` with `levels` levels of base
    /// `2^base_log`: its ciphertext `e` encrypts under `output_key`, with error `errors[e]`,
    /// input coefficient `e / levels` times the gadget factor of level `e % levels + 1`.
    pub open spec fn switches(&self, input_key: LweSecretKey<T>, output_key: LweSecretKey<T>, levels: nat, base_log: nat, errors: Seq<i64>) -> bool {
        &&& self.input_dim() == input_key.lwe_dim()
        &&& self.output_dim() == output_key.lwe_dim()
        &&& self.levels() == levels
        &&& self.log_base() == base_log
        &&& self.items().len() == input_key.lwe_dim() * levels
        &&& forall|e: int| 0 <= e < self.items().len() ==> #[trigger] self.items()[e].encrypts(
            &output_key,
            (input_key.vals()[e / levels as int] * gadget_scale(T::bits(), base_log, (e % levels as int + 1) as nat)) % T::modulus(),
            errors[e] as int,
        )
    }

    /// Ciphertext `e` of the key.
    pub fn ciphertext(&self, e: usize) -> (r: &LweCiphertext<T>)
        requires
            e < self.items().len(),
        ensures
            *r == self.items()[e as int],
    {
        &self.ciphertexts[e]
    }

    /// The number of ciphertexts of the key.
    pub fn ciphertext_count(&self) -> (r: usize)
        ensures
            r == self.items().len(),
    {
        self.ciphertexts.len()
    }

    /// Encrypts the scaled coefficients of `input_key` under `output_key`, consuming one
    /// error term per ciphertext.
    pub(crate) fn generate(
        input_key: &LweSecretKey<T>,
        output_key: &LweSecretKey<T>,
        level_count: usize,
        base_log: usize,
        errors: &Vec<i64>,
        generator: &mut EncryptionRandomGenerator,
    ) -> (r: LweKeyswitchKey<T>)
        requires
            level_count > 0,
            input_key.lwe_dim() * level_count <= errors@.len(),
        ensures
            r.switches(*input_key, *output_key, level_count as nat, base_log as nat, errors@),
    {
        let n_in = input_key.data.len();
        let n_out = output_key.data.len();
        let total = errors.len();
        proof {
            assert(n_in * level_count <= total);
        }
        let count = n_in * level_count;
        let mut ciphertexts: Vec<LweCiphertext<T>> = Vec::new();
        let mut e: usize = 0;
        while e < count
            invariant
                level_count > 0,
                n_in == input_key.lwe_dim(),
                n_out == output_key.lwe_dim(),
                count == n_in * level_count,
                count <= errors@.len(),
                e <= count,
                ciphertexts@.len() == e,
                forall|g: int| 0 <= g < e ==> #[trigger] ciphertexts@[g].lwe_dim() == n_out,
                forall|g: int| 0 <= g < e ==> #[trigger] ciphertexts@[g].encrypts(
                    output_key,
                    (input_key.vals()[g / level_count as int] * gadget_scale(T::bits(), base_log as nat, (g % level_count as int + 1) as nat)) % T::modulus(),
                    errors@[g] as int,
                ),
            decreases count - e,
        {
            let i = e / level_count;
            let l = e % level_count;
            proof {
                vstd::arithmetic::div_mod::lemma_div_by_multiple_is_strongly_ordered(e as int, count as int, n_in as int, level_count as int);
                vstd::arithmetic::div_mod::lemma_div_multiples_vanish(n_in as int, level_count as int);
                assert(level_count * n_in == n_in * level_count) by (nonlinear_arith);
                vstd::arithmetic::div_mod::lemma_mod_pos_bound(e as int, level_count as int);
            }
            let factor: T = gadget_factor(base_log, l + 1);
            let message = input_key.data[i].wrapping_mul(factor);
            let mut ct = LweCiphertext::zero(n_out);
            ct.encrypt(output_key, message, errors[e], generator);
            proof {
                assert(input_key.vals()[i as int] == input_key.data@[i as int].val());
                assert(message.val() == (input_key.vals()[(e as int) / (level_count as int)] * gadget_scale(T::bits(), base_log as nat, ((e as int) % (level_count as int) + 1) as nat)) % T::modulus());
            }
            ciphertexts.push(ct);
            e = e + 1;
        }
        LweKeyswitchKey {
            input_lwe_dimension: n_in,
            output_lwe_dimension: n_out,
            level_count,
            base_log,
            ciphertexts,
        }
    }
}

impl<T: Torus> AbstractEntity for LweKeyswitchKey<T> {
    type Kind = LweKeyswitchKeyKind;
    type Representation = T::Standard;
}

impl<T: Torus> LweKeyswitchKeyEntity for LweKeyswitchKey<T> {
    type KeyFlavor = BinaryKeyFlavor;

    open spec fn input_lwe_dim(&self) -> nat {
        self.input_dim()
    }

    open spec fn output_lwe_dim(&self) -> nat {
        self.output_dim()
    }

    open spec fn level_count(&self) -> nat {
        self.levels()
    }

    open spec fn base_log(&self) -> nat {
        self.log_base()
    }

    fn input_lwe_dimension(&self) -> (r: LweDimension) {
        LweDimension(self.input_lwe_dimension)
    }

    fn output_lwe_dimension(&self) -> (r: LweDimension) {
        LweDimension(self.output_lwe_dimension)
    }

    fn decomposition_level_count(&self) -> (r: DecompositionLevelCount) {
        DecompositionLevelCount(self.level_count)
    }

    fn decomposition_base_log(&self) -> (r: DecompositionBaseLog) {
        DecompositionBaseLog(self.base_log)
    }
}

} // verus!
