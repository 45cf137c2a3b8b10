//! A small contextual linear model with explicit uncertainty, and its image.

use crate::arith::{add_i64, clamp_i32, clamp_i64, clamped, divide_truncated, truncated_quotient};
use crate::control::adaptive::policy::capped_sum;
use crate::wire::{
    bits_i32, get_i32, get_u16, get_u32, get_u64, group_fields, i32_bits, lemma_i32_bits,
    len_prefix, put_i32, put_u16, put_u32, put_u64, u16_at, u16_bytes, u32_at, u32_bytes, u64_at,
    u64_bytes, view_result, wire_len,
};
use vstd::prelude::*;

verus! {

/// Number of features that the model weighs.
pub const MODEL_FEATURE_COUNT: usize = 11;

/// Most bytes that a persisted model may take.
pub const MAX_MODEL_BYTES: usize = 65536;

/// Length of a model image: magic, version, count, weights, bias, samples, residual,
/// checksum.
pub const MODEL_IMAGE_LEN: usize = 82;

/// Learned model decode failure.
#[derive(Debug, Clone, Copy, PartialEq, Eq, Structural)]
pub enum ModelDecodeError {
    /// Input was shorter than the fixed header or checksum.
    Truncated,
    /// Input did not start with the model magic.
    BadMagic,
    /// Input used an unsupported model version.
    IncompatibleVersion {
        /// Unsupported model version.
        version: u16,
    },
    /// Input exceeded the bounded persistence size.
    TooLarge,
    /// Input checksum did not match its payload.
    BadChecksum,
    /// Input dimensions or values were invalid.
    Malformed,
}

/// A small contextual linear model with explicit uncertainty.
#[derive(Debug, PartialEq, Eq)]
pub struct LearnedModel {
    pub(crate) weights: Vec<i32>,
    pub(crate) bias: i32,
    pub(crate) samples: u64,
    pub(crate) residual: u64,
    pub(crate) version: u16,
}

/// What a [`LearnedModel`] holds.
#[verifier::ext_equal]
pub struct LearnedModelView {
    pub weights: Seq<i32>,
    pub bias: i32,
    pub samples: u64,
    pub residual: u64,
    pub version: u16,
}

impl View for LearnedModel {
    type V = LearnedModelView;

    open(crate) spec fn view(&self) -> LearnedModelView {
        LearnedModelView {
            weights: self.weights@,
            bias: self.bias,
            samples: self.samples,
            residual: self.residual,
            version: self.version,
        }
    }
}

impl Clone for LearnedModel {
    fn clone(&self) -> (copy: Self)
        ensures
            copy@ == self@,
    {
        let mut weights: Vec<i32> = Vec::new();
        let mut at: usize = 0;
        while at < self.weights.len()
            invariant
                at <= self.weights.len(),
                weights@ == self.weights@.take(at as int),
            decreases self.weights.len() - at,
        {
            weights.push(self.weights[at]);
            at = at + 1;
            proof {
                assert(weights@ =~= self.weights@.take(at as int));
            }
        }
        proof {
            assert(self.weights@.take(at as int) =~= self.weights@);
        }
        LearnedModel {
            weights,
            bias: self.bias,
            samples: self.samples,
            residual: self.residual,
            version: self.version,
        }
    }
}

/// The sum of the first `n` products of weights and features, clamped after each step.
pub open spec fn dot(weights: Seq<i32>, features: Seq<i32>, n: nat) -> int
    decreases n,
{
    if n == 0 {
        0
    } else {
        clamped(
            dot(weights, features, (n - 1) as nat) + weights[n - 1] * features[n - 1],
            i64::MIN as int,
            i64::MAX as int,
        )
    }
}

/// The number of features that both sides have.
pub open spec fn shared_len(weights: Seq<i32>, features: Seq<i32>) -> nat {
    if weights.len() <= features.len() {
        weights.len()
    } else {
        features.len()
    }
}

/// The score of `features`: their weighted sum and the bias.
pub open spec fn weighted(weights: Seq<i32>, bias: i32, features: Seq<i32>) -> int {
    clamped(
        dot(weights, features, shared_len(weights, features)) + bias,
        i64::MIN as int,
        i64::MAX as int,
    )
}

/// How far the score of `features` is from `target`.
pub open spec fn miss(weights: Seq<i32>, bias: i32, features: Seq<i32>, target: i32) -> int {
    clamped(target - weighted(weights, bias, features), i64::MIN as int, i64::MAX as int)
}

/// The weights after the first `n` were each moved against the miss at that moment.
pub open spec fn trained(
    weights: Seq<i32>,
    bias: i32,
    features: Seq<i32>,
    target: i32,
    rate_ppm: u32,
    n: nat,
) -> Seq<i32>
    decreases n,
{
    if n == 0 {
        weights
    } else {
        let before = trained(weights, bias, features, target, rate_ppm, (n - 1) as nat);
        let step = clamped(
            truncated_quotient(
                miss(before, bias, features, target) * features[n - 1] * rate_ppm,
                1_000_000,
            ),
            i32::MIN as int,
            i32::MAX as int,
        );
        before.update(
            n - 1,
            clamped(before[n - 1] + step, i32::MIN as int, i32::MAX as int) as i32,
        )
    }
}

/// The product of two counters, capped at the largest one.
pub open spec fn capped_product(a: u64, b: u64) -> u64 {
    if a * b > u64::MAX {
        u64::MAX
    } else {
        (a * b) as u64
    }
}

fn multiply_capped(a: u64, b: u64) -> (product: u64)
    ensures
        product == capped_product(a, b),
{
    proof {
        assert(0 <= a * b <= 0xffff_ffff_ffff_ffff * 0xffff_ffff_ffff_ffff) by (nonlinear_arith)
            requires
                0 <= a <= 0xffff_ffff_ffff_ffff,
                0 <= b <= 0xffff_ffff_ffff_ffff,
        ;
    }
    let wide: u128 = a as u128 * b as u128;
    if wide > u64::MAX as u128 {
        u64::MAX
    } else {
        wide as u64
    }
}

impl LearnedModelView {
    /// The model before it has seen anything.
    pub open spec fn initial() -> Self {
        LearnedModelView {
            weights: Seq::new(11, |i: int| 0i32),
            bias: 0,
            samples: 0,
            residual: 0,
            version: 1,
        }
    }

    /// A weight for every feature, in the current version.
    pub open spec fn well_formed(self) -> bool {
        &&& self.weights.len() == MODEL_FEATURE_COUNT
        &&& self.version == 1
    }

    /// The uncertainty in parts per million: high with few samples or large misses.
    pub open spec fn uncertainty(self) -> int {
        if self.samples == 0 {
            1_000_000
        } else {
            let squared = capped_product(self.samples, self.samples);
            let from_samples = 1_000_000u64 / self.samples;
            let from_misses = capped_product(self.residual, 1_000_000) / if squared >= 4 {
                squared
            } else {
                4
            };
            let sum = capped_sum(from_samples, from_misses);
            if sum > 1_000_000 {
                1_000_000
            } else {
                sum as int
            }
        }
    }

    /// The score of `features`.
    pub open spec fn scored(self, features: Seq<i32>) -> int {
        weighted(self.weights, self.bias, features)
    }

    /// The model after one observed outcome.
    pub open spec fn updated(
        self,
        features: Seq<i32>,
        target: i32,
        rate_ppm: u32,
        maximum_samples: u64,
    ) -> Self {
        if features.len() != self.weights.len() {
            self
        } else {
            let weights = trained(
                self.weights,
                self.bias,
                features,
                target,
                rate_ppm,
                features.len(),
            );
            let left = miss(weights, self.bias, features, target);
            let samples = capped_sum(self.samples, 1);
            let ceiling = if maximum_samples >= 1 {
                maximum_samples
            } else {
                1
            };
            LearnedModelView {
                weights,
                residual: capped_sum(
                    self.residual,
                    (if left < 0 {
                        -left
                    } else {
                        left
                    }) as u64,
                ),
                samples: if samples <= ceiling {
                    samples
                } else {
                    ceiling
                },
                ..self
            }
        }
    }

    /// The image without its checksum.
    pub open spec fn payload(self) -> Seq<u8> {
        seq![0x4bu8, 0x56u8, 0x4cu8, 0x4du8] + u16_bytes(self.version) + u32_bytes(
            wire_len(self.weights.len()),
        ) + weights_bytes(self.weights) + u32_bytes(i32_bits(self.bias)) + u64_bytes(self.samples)
            + u64_bytes(self.residual)
    }

    /// The versioned, checksummed image.
    pub open spec fn encoded(self) -> Seq<u8> {
        self.payload() + u64_bytes(checksum(self.payload()))
    }

    /// The model that `input` spells, or why it spells none.
    pub open spec fn decoded(input: Seq<u8>) -> Result<Self, ModelDecodeError> {
        if input.len() > MAX_MODEL_BYTES {
            Err(ModelDecodeError::TooLarge)
        } else if input.len() < MODEL_IMAGE_LEN {
            Err(ModelDecodeError::Truncated)
        } else if input.subrange(0, 4) != seq![0x4bu8, 0x56u8, 0x4cu8, 0x4du8] {
            Err(ModelDecodeError::BadMagic)
        } else if u16_at(input, 4) != 1 {
            Err(ModelDecodeError::IncompatibleVersion { version: u16_at(input, 4) })
        } else if checksum(input.take(input.len() - 8)) != u64_at(input, input.len() - 8) {
            Err(ModelDecodeError::BadChecksum)
        } else if u32_at(input, 6) != MODEL_FEATURE_COUNT || input.len() != MODEL_IMAGE_LEN {
            Err(ModelDecodeError::Malformed)
        } else if u64_at(input, 66) > i64::MAX {
            Err(ModelDecodeError::Malformed)
        } else {
            Ok(
                LearnedModelView {
                    weights: weights_at(input, 10, 11),
                    bias: bits_i32(u32_at(input, 54)),
                    samples: u64_at(input, 58),
                    residual: u64_at(input, 66),
                    version: 1,
                },
            )
        }
    }
}

/// The four-byte fields of `weights`, one after the other.
pub open spec fn weights_bytes(weights: Seq<i32>) -> Seq<u8>
    decreases weights.len(),
{
    if weights.len() == 0 {
        Seq::empty()
    } else {
        weights_bytes(weights.drop_last()) + u32_bytes(i32_bits(weights.last()))
    }
}

/// The `count` weights whose fields start at `at`.
pub open spec fn weights_at(input: Seq<u8>, at: int, count: nat) -> Seq<i32> {
    Seq::new(count, |i: int| bits_i32(u32_at(input, at + 4 * i)))
}

proof fn lemma_weights_len(weights: Seq<i32>)
    ensures
        weights_bytes(weights).len() == 4 * weights.len(),
    decreases weights.len(),
{
    broadcast use group_fields;

    if weights.len() > 0 {
        lemma_weights_len(weights.drop_last());
    }
}

proof fn lemma_weight_field(weights: Seq<i32>, i: int)
    requires
        0 <= i < weights.len(),
    ensures
        weights_bytes(weights).subrange(4 * i, 4 * i + 4) == u32_bytes(i32_bits(weights[i])),
    decreases weights.len(),
{
    broadcast use group_fields;

    let front = weights.drop_last();
    lemma_weights_len(front);
    lemma_weights_len(weights);
    if i == weights.len() - 1 {
        assert(weights_bytes(weights).subrange(4 * i, 4 * i + 4) =~= u32_bytes(
            i32_bits(weights[i]),
        ));
    } else {
        lemma_weight_field(front, i);
        assert(weights_bytes(weights).subrange(4 * i, 4 * i + 4) =~= weights_bytes(front).subrange(
            4 * i,
            4 * i + 4,
        ));
    }
}

/// The checksum of an image: each byte is mixed in and the result is multiplied, both
/// modulo 64 bits.
pub open spec fn checksum(bytes: Seq<u8>) -> u64
    decreases bytes.len(),
{
    if bytes.len() == 0 {
        14_695_981_039_346_656_037u64
    } else {
        (checksum(bytes.drop_last()) ^ (bytes.last() as u64)).wrapping_mul(1_099_511_628_211u64)
    }
}

fn model_checksum(bytes: &[u8], len: usize) -> (hash: u64)
    requires
        len <= bytes.len(),
    ensures
        hash == checksum(bytes@.take(len as int)),
{
    let mut hash: u64 = 14_695_981_039_346_656_037;
    let mut at: usize = 0;
    proof {
        assert(bytes@.take(0) =~= Seq::<u8>::empty());
    }
    while at < len
        invariant
            at <= len <= bytes.len(),
            hash == checksum(bytes@.take(at as int)),
        decreases len - at,
    {
        hash = (hash ^ (bytes[at] as u64)).wrapping_mul(1_099_511_628_211);
        at = at + 1;
        proof {
            assert(bytes@.take(at as int).drop_last() =~= bytes@.take(at - 1));
            assert(bytes@.take(at as int).last() == bytes@[at - 1]);
        }
    }
    hash
}

fn score_with(weights: &Vec<i32>, bias: i32, features: &[i32]) -> (score: i64)
    ensures
        score == weighted(weights@, bias, features@),
{
    let mut score: i64 = 0;
    let mut at: usize = 0;
    while at < weights.len() && at < features.len()
        invariant
            at <= weights.len(),
            at <= features.len(),
            score == dot(weights@, features@, at as nat),
        decreases weights.len() - at,
    {
        let weight: i32 = weights[at];
        let feature: i32 = features[at];
        proof {
            assert(-0x4000_0000_0000_0000 <= weight * feature <= 0x4000_0000_0000_0000)
                by (nonlinear_arith)
                requires
                    -0x8000_0000 <= weight <= 0x8000_0000,
                    -0x8000_0000 <= feature <= 0x8000_0000,
            ;
        }
        let product: i64 = weight as i64 * feature as i64;
        score = add_i64(score, product);
        at = at + 1;
    }
    add_i64(score, bias as i64)
}

fn miss_with(weights: &Vec<i32>, bias: i32, features: &[i32], target: i32) -> (error: i64)
    ensures
        error == miss(weights@, bias, features@, target),
{
    clamp_i64(target as i128 - score_with(weights, bias, features) as i128)
}

fn step_of(error: i64, feature: i32, rate_ppm: u32) -> (step: i32)
    ensures
        step == clamped(
            truncated_quotient(error * feature * rate_ppm, 1_000_000),
            i32::MIN as int,
            i32::MAX as int,
        ),
{
    proof {
        assert(-0x4000_0000_0000_0000_0000_0000 <= error * feature
            <= 0x4000_0000_0000_0000_0000_0000) by (nonlinear_arith)
            requires
                -0x8000_0000_0000_0000 <= error <= 0x8000_0000_0000_0000,
                -0x8000_0000 <= feature <= 0x8000_0000,
        ;
        let product: int = error * feature;
        assert(-0x4000_0000_0000_0000_0000_0000_0000_0000 <= product * rate_ppm
            <= 0x4000_0000_0000_0000_0000_0000_0000_0000) by (nonlinear_arith)
            requires
                -0x4000_0000_0000_0000_0000_0000 <= product <= 0x4000_0000_0000_0000_0000_0000,
                0 <= rate_ppm <= 0x1_0000_0000,
        ;
    }
    let product: i128 = error as i128 * feature as i128;
    let scaled: i128 = product * rate_ppm as i128;
    clamp_i32(divide_truncated(scaled, 1_000_000))
}

impl Default for LearnedModel {
    fn default() -> (model: Self)
        ensures
            model@ == LearnedModelView::initial(),
            model@.well_formed(),
    {
        let mut weights: Vec<i32> = Vec::new();
        let mut at: usize = 0;
        while at < MODEL_FEATURE_COUNT
            invariant
                at <= MODEL_FEATURE_COUNT,
                weights.len() == at,
                forall|i: int| 0 <= i < at ==> weights@[i] == 0,
            decreases MODEL_FEATURE_COUNT - at,
        {
            weights.push(0);
            at = at + 1;
        }
        proof {
            assert(weights@ =~= LearnedModelView::initial().weights);
        }
        LearnedModel { weights, bias: 0, samples: 0, residual: 0, version: 1 }
    }
}

impl LearnedModel {
    /// Creates a deterministic zero model.
    pub fn new() -> (model: Self)
        ensures
            model@ == LearnedModelView::initial(),
            model@.well_formed(),
    {
        Self::default()
    }

    /// Returns the number of observations used by the model.
    pub fn samples(&self) -> (samples: u64)
        ensures
            samples == self@.samples,
    {
        self.samples
    }

    /// Returns the model version.
    pub fn version(&self) -> (version: u16)
        ensures
            version == self@.version,
    {
        self.version
    }

    /// Returns normalized uncertainty in parts per million.
    pub fn uncertainty_ppm(&self) -> (uncertainty: u32)
        ensures
            uncertainty == self@.uncertainty(),
            uncertainty <= 1_000_000,
    {
        if self.samples == 0 {
            return 1_000_000;
        }
        let from_samples: u64 = 1_000_000 / self.samples;
        let squared: u64 = multiply_capped(self.samples, self.samples);
        let divisor: u64 = if squared >= 4 {
            squared
        } else {
            4
        };
        let from_misses: u64 = multiply_capped(self.residual, 1_000_000) / divisor;
        let sum: u64 = from_samples.saturating_add(from_misses);
        if sum > 1_000_000 {
            1_000_000
        } else {
            sum as u32
        }
    }

    /// Scores a normalized contextual feature vector.
    pub fn score(&self, features: &[i32]) -> (score: i64)
        ensures
            score == self@.scored(features@),
    {
        score_with(&self.weights, self.bias, features)
    }

    /// Moves the model toward an observed target.
    pub fn update(&mut self, features: &[i32], target: i32, rate_ppm: u32, maximum_samples: u64)
        ensures
            final(self)@ == old(self)@.updated(features@, target, rate_ppm, maximum_samples),
            old(self)@.well_formed() ==> final(self)@.well_formed(),
    {
        if features.len() != self.weights.len() {
            return;
        }
        let ghost before = self@;
        let mut index: usize = 0;
        while index < features.len()
            invariant
                index <= features.len() == before.weights.len(),
                self.weights.len() == features.len(),
                self.bias == before.bias,
                self.samples == before.samples,
                self.residual == before.residual,
                self.version == before.version,
                self.weights@ == trained(
                    before.weights,
                    before.bias,
                    features@,
                    target,
                    rate_ppm,
                    index as nat,
                ),
            decreases features.len() - index,
        {
            let error: i64 = miss_with(&self.weights, self.bias, features, target);
            let step: i32 = step_of(error, features[index], rate_ppm);
            let moved: i32 = clamp_i32(self.weights[index] as i128 + step as i128);
            self.weights.set(index, moved);
            index = index + 1;
        }
        let error: i64 = miss_with(&self.weights, self.bias, features, target);
        let distance: u64 = if error >= 0 {
            error as u64
        } else {
            (-(error as i128)) as u64
        };
        self.residual = self.residual.saturating_add(distance);
        let ceiling: u64 = if maximum_samples >= 1 {
            maximum_samples
        } else {
            1
        };
        let samples: u64 = self.samples.saturating_add(1);
        self.samples = if samples <= ceiling {
            samples
        } else {
            ceiling
        };
    }

    /// Encodes a versioned, checksummed model image.
    pub fn encode(&self) -> (image: Vec<u8>)
        ensures
            image@ == self@.encoded(),
    {
        let mut image: Vec<u8> = Vec::new();
        image.push(0x4b);
        image.push(0x56);
        image.push(0x4c);
        image.push(0x4d);
        put_u16(&mut image, self.version);
        put_u32(&mut image, len_prefix(self.weights.len()));
        let ghost head = image@;
        let mut at: usize = 0;
        proof {
            assert(self.weights@.take(0) =~= Seq::<i32>::empty());
            assert(head + weights_bytes(self.weights@.take(0)) =~= head);
        }
        while at < self.weights.len()
            invariant
                at <= self.weights.len(),
                image@ == head + weights_bytes(self.weights@.take(at as int)),
            decreases self.weights.len() - at,
        {
            put_i32(&mut image, self.weights[at]);
            at = at + 1;
            proof {
                let so_far = self.weights@.take(at as int);
                assert(so_far.drop_last() =~= self.weights@.take(at - 1));
                assert(so_far.last() == self.weights@[at - 1]);
                assert(image@ =~= head + weights_bytes(so_far));
            }
        }
        proof {
            assert(self.weights@.take(at as int) =~= self.weights@);
        }
        put_i32(&mut image, self.bias);
        put_u64(&mut image, self.samples);
        put_u64(&mut image, self.residual);
        proof {
            assert(image@ =~= self@.payload());
            assert(image@.take(image@.len() as int) =~= image@);
        }
        let hash: u64 = model_checksum(image.as_slice(), image.len());
        put_u64(&mut image, hash);
        image
    }

    /// Decodes a versioned model image.
    pub fn decode(input: &[u8]) -> (result: Result<Self, ModelDecodeError>)
        ensures
            view_result(result) == LearnedModelView::decoded(input@),
            result matches Ok(model) ==> model@.well_formed(),
    {
        if input.len() > MAX_MODEL_BYTES {
            return Err(ModelDecodeError::TooLarge);
        }
        if input.len() < MODEL_IMAGE_LEN {
            return Err(ModelDecodeError::Truncated);
        }
        proof {
            let magic = input@.subrange(0, 4);
            assert(magic == seq![0x4bu8, 0x56u8, 0x4cu8, 0x4du8] <==> magic[0] == 0x4b && magic[1]
                == 0x56 && magic[2] == 0x4c && magic[3] == 0x4d) by {
                if magic[0] == 0x4b && magic[1] == 0x56 && magic[2] == 0x4c && magic[3] == 0x4d {
                    assert(magic =~= seq![0x4bu8, 0x56u8, 0x4cu8, 0x4du8]);
                }
            }
        }
        if input[0] != 0x4b || input[1] != 0x56 || input[2] != 0x4c || input[3] != 0x4d {
            return Err(ModelDecodeError::BadMagic);
        }
        let version: u16 = get_u16(input, 4);
        if version != 1 {
            return Err(ModelDecodeError::IncompatibleVersion { version });
        }
        let checksum_offset: usize = input.len() - 8;
        let expected_checksum: u64 = get_u64(input, checksum_offset);
        if model_checksum(input, checksum_offset) != expected_checksum {
            return Err(ModelDecodeError::BadChecksum);
        }
        let count: u32 = get_u32(input, 6);
        if count != MODEL_FEATURE_COUNT as u32 || input.len() != MODEL_IMAGE_LEN {
            return Err(ModelDecodeError::Malformed);
        }
        let mut weights: Vec<i32> = Vec::new();
        let mut index: usize = 0;
        while index < MODEL_FEATURE_COUNT
            invariant
                index <= MODEL_FEATURE_COUNT,
                input.len() == MODEL_IMAGE_LEN,
                weights@ == weights_at(input@, 10, index as nat),
            decreases MODEL_FEATURE_COUNT - index,
        {
            weights.push(get_i32(input, 10 + 4 * index));
            index = index + 1;
            proof {
                assert(weights@ =~= weights_at(input@, 10, index as nat));
            }
        }
        let bias: i32 = get_i32(input, 54);
        let samples: u64 = get_u64(input, 58);
        let residual: u64 = get_u64(input, 66);
        if residual > i64::MAX as u64 {
            return Err(ModelDecodeError::Malformed);
        }
        Ok(LearnedModel { weights, bias, samples, residual, version })
    }
}

/// A well-formed model decodes from its own image, as long as its residual fits an
/// image.
pub proof fn law_model_round_trip(model: LearnedModelView)
    requires
        model.well_formed(),
        model.residual <= i64::MAX,
    ensures
        LearnedModelView::decoded(model.encoded()) == Ok::<_, ModelDecodeError>(model),
{
    broadcast use group_fields;
    broadcast use lemma_i32_bits;

    let payload = model.payload();
    let bytes = model.encoded();
    let weights = weights_bytes(model.weights);
    lemma_weights_len(model.weights);
    assert(payload.len() == 74);
    assert(bytes.len() == 82);
    assert(bytes.subrange(0, 4) =~= seq![0x4bu8, 0x56u8, 0x4cu8, 0x4du8]);
    assert(bytes.subrange(4, 6) =~= u16_bytes(model.version));
    assert(bytes.subrange(6, 10) =~= u32_bytes(wire_len(model.weights.len())));
    assert(bytes.subrange(54, 58) =~= u32_bytes(i32_bits(model.bias)));
    assert(bytes.subrange(58, 66) =~= u64_bytes(model.samples));
    assert(bytes.subrange(66, 74) =~= u64_bytes(model.residual));
    assert(bytes.subrange(74, 82) =~= u64_bytes(checksum(payload)));
    assert(bytes.take(bytes.len() - 8) =~= payload);
    assert(bytes.subrange(10, 54) =~= weights);
    assert forall|i: int| 0 <= i < 11 implies #[trigger] weights_at(bytes, 10, 11)[i]
        == model.weights[i] by {
        lemma_weight_field(model.weights, i);
        assert(bytes.subrange(10 + 4 * i, 10 + 4 * i + 4) =~= weights.subrange(4 * i, 4 * i + 4));
    }
    assert(weights_at(bytes, 10, 11) =~= model.weights);
}

/// An image whose stored checksum does not match its bytes is never accepted.
pub proof fn law_checksum_mismatch_is_rejected(input: Seq<u8>)
    requires
        input.len() >= MODEL_IMAGE_LEN,
        checksum(input.take(input.len() - 8)) != u64_at(input, input.len() - 8),
    ensures
        LearnedModelView::decoded(input) is Err,
{
}

/// The sample count never goes beyond its ceiling, and uncertainty never beyond one
/// whole.
pub proof fn law_model_is_bounded(
    model: LearnedModelView,
    features: Seq<i32>,
    target: i32,
    rate_ppm: u32,
    maximum_samples: u64,
)
    requires
        features.len() == model.weights.len(),
        maximum_samples >= 1,
    ensures
        model.updated(features, target, rate_ppm, maximum_samples).samples <= maximum_samples,
        0 <= model.uncertainty() <= 1_000_000,
{
}

/// The sum of the first `n` products, with no bound on it.
spec fn product_sum(weights: Seq<i32>, features: Seq<i32>, n: nat) -> int
    decreases n,
{
    if n == 0 {
        0
    } else {
        product_sum(weights, features, (n - 1) as nat) + weights[n - 1] * features[n - 1]
    }
}

/// Small features cannot take the sum to its bounds.
proof fn lemma_small_sum(weights: Seq<i32>, features: Seq<i32>, n: nat)
    requires
        n <= weights.len(),
        n <= features.len(),
        n <= MODEL_FEATURE_COUNT,
        forall|i: int| 0 <= i < n ==> -0x800_0000 <= #[trigger] features[i] <= 0x800_0000,
    ensures
        dot(weights, features, n) == product_sum(weights, features, n),
        -0x400_0000_0000_0000 * n <= product_sum(weights, features, n) <= 0x400_0000_0000_0000
            * n,
    decreases n,
{
    if n > 0 {
        lemma_small_sum(weights, features, (n - 1) as nat);
        let weight = weights[n - 1];
        let feature = features[n - 1];
        assert(-0x400_0000_0000_0000 <= weight * feature <= 0x400_0000_0000_0000)
            by (nonlinear_arith)
            requires
                -0x8000_0000 <= weight <= 0x8000_0000,
                -0x800_0000 <= feature <= 0x800_0000,
        ;
    }
}

/// One weight moves the sum by its own product.
proof fn lemma_one_weight(
    weights: Seq<i32>,
    features: Seq<i32>,
    k: int,
    weight: i32,
    n: nat,
)
    requires
        0 <= k < weights.len(),
        n <= weights.len(),
    ensures
        product_sum(weights.update(k, weight), features, n) == product_sum(weights, features, n)
            + if k < n {
            (weight - weights[k]) * features[k]
        } else {
            0
        },
    decreases n,
{
    if n > 0 {
        lemma_one_weight(weights, features, k, weight, (n - 1) as nat);
        if k == n - 1 {
            let held = weights[k];
            let feature = features[k];
            assert(weight * feature == held * feature + (weight - held) * feature)
                by (nonlinear_arith);
        }
    }
}

/// One feature moves the sum by its own product.
proof fn lemma_one_feature(
    weights: Seq<i32>,
    features: Seq<i32>,
    k: int,
    feature: i32,
    n: nat,
)
    requires
        0 <= k < features.len(),
        n <= features.len(),
    ensures
        product_sum(weights, features.update(k, feature), n) == product_sum(weights, features, n)
            + if k < n {
            weights[k] * (feature - features[k])
        } else {
            0
        },
    decreases n,
{
    if n > 0 {
        lemma_one_feature(weights, features, k, feature, (n - 1) as nat);
        if k == n - 1 {
            let held = features[k];
            let weight = weights[k];
            assert(weight * feature == weight * held + weight * (feature - held))
                by (nonlinear_arith);
        }
    }
}

/// A step of at most the proposed size takes off a part of the miss, and never more than
/// the whole of it.
proof fn lemma_step_falls_short(e: int, f: int, rate: int, q: int, d: int)
    requires
        0 <= rate,
        rate * f * f <= 1_000_000,
        q == truncated_quotient(e * f * rate, 1_000_000),
        0 <= d <= q || q <= d <= 0,
    ensures
        0 <= d * f <= e || e <= d * f <= 0,
        e >= 0 && f >= 0 ==> d >= 0,
        e >= 0 && f <= 0 ==> d <= 0,
        e <= 0 && f >= 0 ==> d <= 0,
        e <= 0 && f <= 0 ==> d >= 0,
{
    let p = e * f * rate;
    if e == 0 || f == 0 {
        assert(p == 0) by (nonlinear_arith)
            requires
                p == e * f * rate,
                e == 0 || f == 0,
        ;
        assert(d == 0);
        assert(d * f == 0);
    } else {
        if e >= 0 && f >= 0 || e <= 0 && f <= 0 {
            assert(p >= 0) by (nonlinear_arith)
                requires
                    p == e * f * rate,
                    rate >= 0,
                    e >= 0 && f >= 0 || e <= 0 && f <= 0,
            ;
            assert(0 <= 1_000_000 * q <= p);
        } else {
            assert(p <= 0) by (nonlinear_arith)
                requires
                    p == e * f * rate,
                    rate >= 0,
                    e >= 0 && f <= 0 || e <= 0 && f >= 0,
            ;
            assert(p <= 1_000_000 * q <= 0);
        }
        assert(p * f == e * (rate * f * f)) by (nonlinear_arith)
            requires
                p == e * f * rate,
        ;
        let g = rate * f * f;
        if e >= 0 {
            assert(e * g <= e * 1_000_000) by (nonlinear_arith)
                requires
                    e >= 0,
                    g <= 1_000_000,
            ;
            if f >= 0 {
                assert(0 <= d * f && 1_000_000 * (d * f) <= p * f) by (nonlinear_arith)
                    requires
                        f >= 0,
                        0 <= d,
                        1_000_000 * d <= p,
                ;
            } else {
                assert(0 <= d * f && 1_000_000 * (d * f) <= p * f) by (nonlinear_arith)
                    requires
                        f <= 0,
                        d <= 0,
                        p <= 1_000_000 * d,
                ;
            }
        } else {
            assert(e * g >= e * 1_000_000) by (nonlinear_arith)
                requires
                    e <= 0,
                    g <= 1_000_000,
            ;
            if f >= 0 {
                assert(d * f <= 0 && p * f <= 1_000_000 * (d * f)) by (nonlinear_arith)
                    requires
                        f >= 0,
                        d <= 0,
                        p <= 1_000_000 * d,
                ;
            } else {
                assert(d * f <= 0 && p * f <= 1_000_000 * (d * f)) by (nonlinear_arith)
                    requires
                        f <= 0,
                        0 <= d,
                        1_000_000 * d <= p,
                ;
            }
        }
    }
}

/// A rate that suits a feature at all keeps the feature small.
proof fn lemma_suited_feature(f: int, rate: int)
    requires
        rate >= 1,
        rate * f * f <= 1_000_000,
    ensures
        -1000 <= f <= 1000,
{
    assert(f * f <= 1_000_000) by (nonlinear_arith)
        requires
            rate >= 1,
            rate * f * f <= 1_000_000,
    ;
    assert(-1000 <= f <= 1000) by (nonlinear_arith)
        requires
            f * f <= 1_000_000,
    ;
}

/// What training does to the miss and to the weights, step by step.
proof fn lemma_training(
    weights: Seq<i32>,
    bias: i32,
    features: Seq<i32>,
    target: i32,
    rate_ppm: u32,
    n: nat,
)
    requires
        weights.len() == MODEL_FEATURE_COUNT,
        features.len() == weights.len(),
        n <= weights.len(),
        rate_ppm >= 1,
        forall|i: int|
            0 <= i < features.len() ==> rate_ppm * #[trigger] features[i] * features[i]
                <= 1_000_000,
    ensures
        ({
            let after = trained(weights, bias, features, target, rate_ppm, n);
            let first = target - weighted(weights, bias, features);
            let last = target - weighted(after, bias, features);
            &&& after.len() == weights.len()
            &&& 0 <= last <= first || first <= last <= 0
            &&& forall|i: int| n <= i < weights.len() ==> #[trigger] after[i] == weights[i]
            &&& forall|i: int|
                #![trigger after[i]]
                0 <= i < n ==> {
                    &&& first >= 0 && features[i] >= 0 ==> after[i] >= weights[i]
                    &&& first >= 0 && features[i] <= 0 ==> after[i] <= weights[i]
                    &&& first <= 0 && features[i] >= 0 ==> after[i] <= weights[i]
                    &&& first <= 0 && features[i] <= 0 ==> after[i] >= weights[i]
                    &&& (first * features[i] * rate_ppm >= 1_000_000 || first * features[i]
                        * rate_ppm <= -1_000_000) && i32::MIN < weights[i] < i32::MAX ==> last
                        != first
                }
        }),
    decreases n,
{
    assert forall|i: int| 0 <= i < features.len() implies -1000 <= #[trigger] features[i]
        <= 1000 by {
        lemma_suited_feature(features[i] as int, rate_ppm as int);
    }
    if n > 0 {
        let k = n - 1;
        let before = trained(weights, bias, features, target, rate_ppm, k as nat);
        let after = trained(weights, bias, features, target, rate_ppm, n);
        lemma_training(weights, bias, features, target, rate_ppm, k as nat);
        let count = features.len();
        lemma_small_sum(before, features, count);
        lemma_small_sum(after, features, count);
        let e = target - weighted(before, bias, features);
        let f = features[k] as int;
        let rate = rate_ppm as int;
        assert(miss(before, bias, features, target) == e);
        let q = truncated_quotient(e * f * rate, 1_000_000);
        let d = after[k] - before[k];
        lemma_one_weight(before, features, k, after[k], count);
        assert(after =~= before.update(k, after[k]));
        assert(target - weighted(after, bias, features) == e - d * f);
        assert(0 <= d <= q || q <= d <= 0) by {
            assert(q >= 0 || q <= 0);
        }
        assert(rate * f * f <= 1_000_000);
        lemma_step_falls_short(e, f, rate, q, d);
        let first = target - weighted(weights, bias, features);
        let last = target - weighted(after, bias, features);
        if e == first && (first * f * rate >= 1_000_000 || first * f * rate <= -1_000_000)
            && i32::MIN < weights[k] < i32::MAX {
            assert(before[k] == weights[k]);
            assert(q != 0);
            assert(d != 0);
            assert(f != 0) by (nonlinear_arith)
                requires
                    first * f * rate >= 1_000_000 || first * f * rate <= -1_000_000,
            ;
            assert(d * f != 0) by (nonlinear_arith)
                requires
                    d != 0,
                    f != 0,
            ;
        }
        assert forall|i: int| #![trigger after[i]] 0 <= i < weights.len() && i
            != k implies after[i] == before[i] by {}
        assert(before[k] == weights[k]);
        assert(0 <= last <= e || e <= last <= 0);
        assert forall|i: int| #![trigger after[i]] 0 <= i < n && (first * features[i] * rate_ppm
            >= 1_000_000 || first * features[i] * rate_ppm <= -1_000_000) && i32::MIN
            < weights[i] < i32::MAX implies last != first by {
            if i < k {
                assert(after[i] == before[i]);
                assert(e != first);
            } else {
                assert(e != first || d * f != 0);
            }
        }
        assert forall|i: int| #![trigger after[i]] 0 <= i < n implies {
            &&& first >= 0 && features[i] >= 0 ==> after[i] >= weights[i]
            &&& first >= 0 && features[i] <= 0 ==> after[i] <= weights[i]
            &&& first <= 0 && features[i] >= 0 ==> after[i] <= weights[i]
            &&& first <= 0 && features[i] <= 0 ==> after[i] >= weights[i]
        } by {
            if i < k {
                assert(after[i] == before[i]);
            }
        }
        assert(0 <= last <= first || first <= last <= 0);
    }
}

/// Training without a rate changes no weight.
proof fn lemma_no_rate(
    weights: Seq<i32>,
    bias: i32,
    features: Seq<i32>,
    target: i32,
    n: nat,
)
    requires
        n <= weights.len(),
    ensures
        trained(weights, bias, features, target, 0, n) == weights,
    decreases n,
{
    if n > 0 {
        lemma_no_rate(weights, bias, features, target, (n - 1) as nat);
        let product = miss(weights, bias, features, target) * features[n - 1];
        assert(product * 0 == 0);
        assert(trained(weights, bias, features, target, 0, n) =~= weights);
    }
}

/// Training never leads away from the target. Where the rate suits every feature (the
/// square of a feature times the rate stays within one whole), the score of the same
/// features after an update lies between the score before it and the target: the
/// distance to the target does not grow and the target is not overshot. A score below
/// the target never lowers the weight of a positive feature nor raises that of a negative
/// one, and the other way round; a feature of zero keeps its weight.
pub proof fn law_training_closes_in(
    model: LearnedModelView,
    features: Seq<i32>,
    target: i32,
    rate_ppm: u32,
    maximum_samples: u64,
)
    requires
        model.well_formed(),
        features.len() == model.weights.len(),
        forall|i: int|
            0 <= i < features.len() ==> rate_ppm * #[trigger] features[i] * features[i]
                <= 1_000_000,
    ensures
        ({
            let after = model.updated(features, target, rate_ppm, maximum_samples);
            let score = model.scored(features);
            let rescored = after.scored(features);
            &&& score <= target ==> score <= rescored <= target
            &&& target <= score ==> target <= rescored <= score
            &&& after.weights.len() == model.weights.len()
            &&& forall|i: int|
                #![trigger after.weights[i]]
                0 <= i < features.len() ==> {
                    &&& score <= target && features[i] >= 0 ==> after.weights[i]
                        >= model.weights[i]
                    &&& score <= target && features[i] <= 0 ==> after.weights[i]
                        <= model.weights[i]
                    &&& target <= score && features[i] >= 0 ==> after.weights[i]
                        <= model.weights[i]
                    &&& target <= score && features[i] <= 0 ==> after.weights[i]
                        >= model.weights[i]
                    &&& features[i] == 0 ==> after.weights[i] == model.weights[i]
                }
        }),
{
    if rate_ppm == 0 {
        lemma_no_rate(model.weights, model.bias, features, target, features.len());
    } else {
        lemma_training(model.weights, model.bias, features, target, rate_ppm, features.len());
    }
}

/// Training makes progress: under the same rate, where the miss times some feature times
/// the rate is a whole step or more, and that feature's weight is not at its bound, the
/// score comes strictly closer to the target.
pub proof fn law_training_makes_progress(
    model: LearnedModelView,
    features: Seq<i32>,
    target: i32,
    rate_ppm: u32,
    maximum_samples: u64,
    k: int,
)
    requires
        model.well_formed(),
        features.len() == model.weights.len(),
        forall|i: int|
            0 <= i < features.len() ==> rate_ppm * #[trigger] features[i] * features[i]
                <= 1_000_000,
        0 <= k < features.len(),
        i32::MIN < model.weights[k] < i32::MAX,
        (target - model.scored(features)) * features[k] * rate_ppm >= 1_000_000 || (target
            - model.scored(features)) * features[k] * rate_ppm <= -1_000_000,
    ensures
        ({
            let after = model.updated(features, target, rate_ppm, maximum_samples);
            let score = model.scored(features);
            let rescored = after.scored(features);
            &&& score < target ==> score < rescored <= target
            &&& target < score ==> target <= rescored < score
            &&& score != target
        }),
{
    let first = target - model.scored(features);
    let f = features[k] as int;
    let rate = rate_ppm as int;
    assert(first != 0 && rate != 0) by (nonlinear_arith)
        requires
            first * f * rate >= 1_000_000 || first * f * rate <= -1_000_000,
    ;
    lemma_training(model.weights, model.bias, features, target, rate_ppm, features.len());
    assert(trained(
        model.weights,
        model.bias,
        features,
        target,
        rate_ppm,
        features.len(),
    )[k] == model.updated(features, target, rate_ppm, maximum_samples).weights[k]);
}

/// The score is linear: with small features, no features score the bias, and a change of
/// one feature moves the score by the feature's weight times the change.
pub proof fn law_score_is_linear(
    model: LearnedModelView,
    features: Seq<i32>,
    k: int,
    feature: i32,
)
    requires
        model.well_formed(),
        features.len() == model.weights.len(),
        0 <= k < features.len(),
        forall|i: int|
            0 <= i < features.len() ==> -0x800_0000 <= #[trigger] features[i] <= 0x800_0000,
        -0x800_0000 <= feature <= 0x800_0000,
    ensures
        model.scored(Seq::empty()) == model.bias,
        model.scored(features.update(k, feature)) == model.scored(features) + model.weights[k] * (
        feature - features[k]),
        (forall|i: int| 0 <= i < features.len() ==> #[trigger] features[i] == 0)
            ==> model.scored(features) == model.bias,
{
    let changed = features.update(k, feature);
    assert forall|i: int| 0 <= i < changed.len() implies -0x800_0000 <= #[trigger] changed[i]
        <= 0x800_0000 by {
        assert(i == k || changed[i] == features[i]);
    }
    lemma_small_sum(model.weights, features, features.len());
    lemma_small_sum(model.weights, changed, changed.len());
    lemma_one_feature(model.weights, features, k, feature, features.len());
    if forall|i: int| 0 <= i < features.len() ==> #[trigger] features[i] == 0 {
        lemma_zero_sum(model.weights, features, features.len());
    }
}

proof fn lemma_zero_sum(weights: Seq<i32>, features: Seq<i32>, n: nat)
    requires
        n <= features.len(),
        forall|i: int| 0 <= i < features.len() ==> #[trigger] features[i] == 0,
    ensures
        product_sum(weights, features, n) == 0,
    decreases n,
{
    if n > 0 {
        lemma_zero_sum(weights, features, (n - 1) as nat);
        let weight = weights[n - 1];
        assert(features[n - 1] == 0);
        assert(weight * 0 == 0);
    }
}

/// An update counts one sample up to the ceiling, adds the distance that is left to the
/// residual, and keeps the bias and the version. Features of another length change
/// nothing.
pub proof fn law_an_update_is_counted(
    model: LearnedModelView,
    features: Seq<i32>,
    target: i32,
    rate_ppm: u32,
    maximum_samples: u64,
)
    ensures
        ({
            let after = model.updated(features, target, rate_ppm, maximum_samples);
            let left = target - after.scored(features);
            &&& after.bias == model.bias
            &&& after.version == model.version
            &&& features.len() != model.weights.len() ==> after == model
            &&& features.len() == model.weights.len() ==> {
                &&& model.samples < maximum_samples ==> after.samples == model.samples + 1
                &&& 1 <= maximum_samples <= model.samples ==> after.samples == maximum_samples
                &&& 0 <= left && model.residual + left <= u64::MAX && left <= i64::MAX
                    ==> after.residual == model.residual + left
                &&& left < 0 && model.residual - left <= u64::MAX && left >= i64::MIN
                    ==> after.residual == model.residual - left
            }
        }),
{
}

/// More misses never make the model surer of itself, and a model that has seen nothing
/// is as unsure as can be; without misses its doubt shrinks as one over the samples.
pub proof fn law_misses_make_unsure(model: LearnedModelView, residual: u64)
    requires
        model.residual <= residual,
    ensures
        model.uncertainty() <= (LearnedModelView { residual, ..model }).uncertainty(),
        model.samples == 0 ==> model.uncertainty() == 1_000_000,
        model.samples > 0 && model.residual == 0 ==> model.uncertainty() == 1_000_000int
            / model.samples as int,
{
    if model.samples > 0 {
        let squared = capped_product(model.samples, model.samples);
        let divisor = if squared >= 4 {
            squared as int
        } else {
            4
        };
        let few = capped_product(model.residual, 1_000_000);
        let many = capped_product(residual, 1_000_000);
        assert(few <= many);
        vstd::arithmetic::div_mod::lemma_div_is_ordered(few as int, many as int, divisor);
        vstd::arithmetic::div_mod::lemma_div_pos_is_pos(1_000_000, model.samples as int);
        vstd::arithmetic::div_mod::lemma_div_is_ordered_by_denominator(
            1_000_000,
            1,
            model.samples as int,
        );
    }
}

/// The image of a model holds each part at its own place: the magic, the version, the
/// number of weights, the weights, the bias, the samples, the residual and the checksum
/// of all that.
pub proof fn law_model_image_layout(model: LearnedModelView, i: int)
    requires
        model.weights.len() == MODEL_FEATURE_COUNT,
        0 <= i < MODEL_FEATURE_COUNT,
    ensures
        ({
            let bytes = model.encoded();
            &&& bytes.len() == 82
            &&& bytes[0] == 0x4b && bytes[1] == 0x56 && bytes[2] == 0x4c && bytes[3] == 0x4d
            &&& u16_at(bytes, 4) == model.version
            &&& u32_at(bytes, 6) == 11
            &&& bits_i32(u32_at(bytes, 10 + 4 * i)) == model.weights[i]
            &&& bits_i32(u32_at(bytes, 54)) == model.bias
            &&& u64_at(bytes, 58) == model.samples
            &&& u64_at(bytes, 66) == model.residual
            &&& u64_at(bytes, 74) == checksum(bytes.take(74))
        }),
{
    broadcast use group_fields;
    broadcast use lemma_i32_bits;

    let payload = model.payload();
    let bytes = model.encoded();
    let weights = weights_bytes(model.weights);
    lemma_weights_len(model.weights);
    assert(payload.len() == 74);
    assert(bytes.subrange(4, 6) =~= u16_bytes(model.version));
    assert(bytes.subrange(6, 10) =~= u32_bytes(wire_len(model.weights.len())));
    assert(bytes.subrange(54, 58) =~= u32_bytes(i32_bits(model.bias)));
    assert(bytes.subrange(58, 66) =~= u64_bytes(model.samples));
    assert(bytes.subrange(66, 74) =~= u64_bytes(model.residual));
    assert(bytes.subrange(74, 82) =~= u64_bytes(checksum(payload)));
    assert(bytes.take(74) =~= payload);
    lemma_weight_field(model.weights, i);
    assert(bytes.subrange(10, 54) =~= weights);
    assert(bytes.subrange(10 + 4 * i, 10 + 4 * i + 4) =~= weights.subrange(4 * i, 4 * i + 4));
}

/// The checksum takes in one byte after the other: from its start value, each byte is
/// mixed in by exclusive or and the result is multiplied by the prime, modulo 64 bits.
pub proof fn law_checksums_take_in_every_byte(bytes: Seq<u8>, byte: u8)
    ensures
        checksum(Seq::empty()) == 0xcbf2_9ce4_8422_2325u64,
        checksum(bytes.push(byte)) == ((checksum(bytes) ^ (byte as u64)) * 0x100_0000_01b3)
            % 0x1_0000_0000_0000_0000,
{
    assert(bytes.push(byte).drop_last() =~= bytes);
}

/// An image is refused for the first thing that is wrong with it: its size, its magic,
/// its version, its checksum, and last its contents.
pub proof fn law_bad_images_are_told_apart(input: Seq<u8>)
    ensures
        ({
            let result = LearnedModelView::decoded(input);
            let sized = 82 <= input.len() <= 65536;
            let marked = input[0] == 0x4b && input[1] == 0x56 && input[2] == 0x4c && input[3]
                == 0x4d;
            let summed = checksum(input.take(input.len() - 8)) == u64_at(
                input,
                input.len() - 8,
            );
            &&& input.len() > 65536 ==> result == Err::<LearnedModelView, _>(
                ModelDecodeError::TooLarge,
            )
            &&& input.len() < 82 ==> result == Err::<LearnedModelView, _>(
                ModelDecodeError::Truncated,
            )
            &&& sized && !marked ==> result == Err::<LearnedModelView, _>(
                ModelDecodeError::BadMagic,
            )
            &&& sized && marked && u16_at(input, 4) != 1 ==> result == Err::<
                LearnedModelView,
                _,
            >(ModelDecodeError::IncompatibleVersion { version: u16_at(input, 4) })
            &&& sized && marked && u16_at(input, 4) == 1 && !summed ==> result == Err::<
                LearnedModelView,
                _,
            >(ModelDecodeError::BadChecksum)
            &&& result matches Ok(model) ==> input.len() == 82 && model.residual <= i64::MAX
                && model.well_formed()
        }),
{
    if input.len() >= 4 {
        let magic = input.subrange(0, 4);
        if magic[0] == 0x4b && magic[1] == 0x56 && magic[2] == 0x4c && magic[3] == 0x4d {
            assert(magic =~= seq![0x4bu8, 0x56u8, 0x4cu8, 0x4du8]);
        }
    }
}

/// The doubt of a model is one over its samples and its residual over their square, of
/// which four is the least, and never more than one whole.
pub proof fn law_doubt_is_samples_and_misses(model: LearnedModelView)
    requires
        model.samples > 0,
        model.samples * model.samples <= u64::MAX,
        model.residual * 1_000_000 <= u64::MAX,
    ensures
        ({
            let squared = model.samples * model.samples;
            let few = 1_000_000int / model.samples as int;
            let missed = (model.residual * 1_000_000) / if squared >= 4 {
                squared
            } else {
                4
            };
            &&& few + missed <= 1_000_000 ==> model.uncertainty() == few + missed
            &&& few + missed > 1_000_000 ==> model.uncertainty() == 1_000_000
        }),
{
    let squared = model.samples * model.samples;
    let missed = (model.residual * 1_000_000) / if squared >= 4 {
        squared
    } else {
        4
    };
    vstd::arithmetic::div_mod::lemma_div_is_ordered_by_denominator(
        1_000_000,
        1,
        model.samples as int,
    );
    vstd::arithmetic::div_mod::lemma_div_pos_is_pos(1_000_000, model.samples as int);
}

} // verus!
