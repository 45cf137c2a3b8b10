//! Multi-objective scoring of decisions.

use crate::arith::{clamp_i64, clamped, divide_truncated, truncated_quotient};
use vstd::prelude::*;

verus! {

/// Raw or normalized objective dimensions.
#[derive(Debug, Clone, Copy, PartialEq, Eq, Structural)]
pub struct ObjectiveBreakdown {
    /// Latency improvement or regression.
    pub latency: i64,
    /// Throughput improvement or regression.
    pub throughput: i64,
    /// General resource improvement or regression.
    pub resource: i64,
    /// Memory improvement or regression.
    pub memory: i64,
    /// Storage improvement or regression.
    pub storage: i64,
    /// Network improvement or regression.
    pub network: i64,
    /// Repair-debt improvement or regression.
    pub repair_debt: i64,
    /// Durability-risk improvement or regression.
    pub durability_risk: i64,
    /// Movement cost.
    pub movement_cost: i64,
    /// Churn cost.
    pub churn: i64,
}

/// `value` in signed parts per million of `scale`, between minus one whole and one
/// whole; zero where there is no scale.
pub open spec fn normalized_value(value: i64, scale: u64) -> int {
    if scale == 0 {
        0
    } else {
        clamped(truncated_quotient(value * 1_000_000, scale as int), -1_000_000, 1_000_000)
    }
}

fn normalize(value: i64, scale: u64) -> (normal: i64)
    ensures
        normal == normalized_value(value, scale),
        -1_000_000 <= normal <= 1_000_000,
{
    if scale == 0 {
        return 0;
    }
    let scaled: i128 = divide_truncated(value as i128 * 1_000_000, scale);
    if scaled < -1_000_000 {
        -1_000_000
    } else if scaled > 1_000_000 {
        1_000_000
    } else {
        scaled as i64
    }
}

impl Default for ObjectiveBreakdown {
    fn default() -> (breakdown: Self)
        ensures
            breakdown == Self::nothing(),
    {
        Self::zero()
    }
}

impl ObjectiveBreakdown {
    /// All-zero dimensions.
    pub open spec fn nothing() -> Self {
        ObjectiveBreakdown {
            latency: 0,
            throughput: 0,
            resource: 0,
            memory: 0,
            storage: 0,
            network: 0,
            repair_debt: 0,
            durability_risk: 0,
            movement_cost: 0,
            churn: 0,
        }
    }

    /// Whether `self` is `raw` with each dimension normalized by its scale.
    pub open spec fn normalizes(self, raw: Self, scales: ObjectiveScales) -> bool {
        &&& self.latency == normalized_value(raw.latency, scales.latency)
        &&& self.throughput == normalized_value(raw.throughput, scales.throughput)
        &&& self.resource == normalized_value(raw.resource, scales.resource)
        &&& self.memory == normalized_value(raw.memory, scales.memory)
        &&& self.storage == normalized_value(raw.storage, scales.storage)
        &&& self.network == normalized_value(raw.network, scales.network)
        &&& self.repair_debt == normalized_value(raw.repair_debt, scales.repair_debt)
        &&& self.durability_risk == normalized_value(raw.durability_risk, scales.durability_risk)
        &&& self.movement_cost == normalized_value(raw.movement_cost, scales.movement_cost)
        &&& self.churn == normalized_value(raw.churn, scales.churn)
    }

    /// Whether every dimension lies between minus one whole and one whole.
    pub open spec fn unit_bounded(self) -> bool {
        &&& -1_000_000 <= self.latency <= 1_000_000
        &&& -1_000_000 <= self.throughput <= 1_000_000
        &&& -1_000_000 <= self.resource <= 1_000_000
        &&& -1_000_000 <= self.memory <= 1_000_000
        &&& -1_000_000 <= self.storage <= 1_000_000
        &&& -1_000_000 <= self.network <= 1_000_000
        &&& -1_000_000 <= self.repair_debt <= 1_000_000
        &&& -1_000_000 <= self.durability_risk <= 1_000_000
        &&& -1_000_000 <= self.movement_cost <= 1_000_000
        &&& -1_000_000 <= self.churn <= 1_000_000
    }

    /// Returns all-zero dimensions.
    pub fn zero() -> (breakdown: Self)
        ensures
            breakdown == Self::nothing(),
    {
        ObjectiveBreakdown {
            latency: 0,
            throughput: 0,
            resource: 0,
            memory: 0,
            storage: 0,
            network: 0,
            repair_debt: 0,
            durability_risk: 0,
            movement_cost: 0,
            churn: 0,
        }
    }

    /// Returns dimensions normalized to signed parts per million.
    pub fn normalized(self, scales: ObjectiveScales) -> (normal: Self)
        ensures
            normal.normalizes(self, scales),
            normal.unit_bounded(),
    {
        ObjectiveBreakdown {
            latency: normalize(self.latency, scales.latency),
            throughput: normalize(self.throughput, scales.throughput),
            resource: normalize(self.resource, scales.resource),
            memory: normalize(self.memory, scales.memory),
            storage: normalize(self.storage, scales.storage),
            network: normalize(self.network, scales.network),
            repair_debt: normalize(self.repair_debt, scales.repair_debt),
            durability_risk: normalize(self.durability_risk, scales.durability_risk),
            movement_cost: normalize(self.movement_cost, scales.movement_cost),
            churn: normalize(self.churn, scales.churn),
        }
    }
}

/// Per-dimension normalization ceilings.
#[derive(Debug, Clone, Copy, PartialEq, Eq, Structural)]
pub struct ObjectiveScales {
    /// Latency scale.
    pub latency: u64,
    /// Throughput scale.
    pub throughput: u64,
    /// Resource scale.
    pub resource: u64,
    /// Memory scale.
    pub memory: u64,
    /// Storage scale.
    pub storage: u64,
    /// Network scale.
    pub network: u64,
    /// Repair-debt scale.
    pub repair_debt: u64,
    /// Durability-risk scale.
    pub durability_risk: u64,
    /// Movement-cost scale.
    pub movement_cost: u64,
    /// Churn scale.
    pub churn: u64,
}

impl ObjectiveScales {
    /// One scale for every dimension.
    pub open spec fn all(value: u64) -> Self {
        ObjectiveScales {
            latency: value,
            throughput: value,
            resource: value,
            memory: value,
            storage: value,
            network: value,
            repair_debt: value,
            durability_risk: value,
            movement_cost: value,
            churn: value,
        }
    }

    /// Whether every scale is nonzero.
    pub open spec fn valid(self) -> bool {
        &&& self.latency != 0
        &&& self.throughput != 0
        &&& self.resource != 0
        &&& self.memory != 0
        &&& self.storage != 0
        &&& self.network != 0
        &&& self.repair_debt != 0
        &&& self.durability_risk != 0
        &&& self.movement_cost != 0
        &&& self.churn != 0
    }

    /// Returns one scale for every objective dimension.
    pub fn uniform(value: u64) -> (scales: Self)
        ensures
            scales == Self::all(value),
    {
        ObjectiveScales {
            latency: value,
            throughput: value,
            resource: value,
            memory: value,
            storage: value,
            network: value,
            repair_debt: value,
            durability_risk: value,
            movement_cost: value,
            churn: value,
        }
    }

    /// Whether every scale is nonzero.
    pub fn is_valid(&self) -> (valid: bool)
        ensures
            valid == self.valid(),
    {
        self.latency != 0 && self.throughput != 0 && self.resource != 0 && self.memory != 0
            && self.storage != 0 && self.network != 0 && self.repair_debt != 0
            && self.durability_risk != 0 && self.movement_cost != 0 && self.churn != 0
    }
}

impl Default for ObjectiveScales {
    fn default() -> (scales: Self)
        ensures
            scales == Self::all(1_000_000),
    {
        Self::uniform(1_000_000)
    }
}

/// Explicit objective weights in parts per million.
#[derive(Debug, Clone, Copy, PartialEq, Eq, Structural)]
pub struct ObjectiveWeights {
    /// Latency weight.
    pub latency: u32,
    /// Throughput weight.
    pub throughput: u32,
    /// Resource weight.
    pub resource: u32,
    /// Memory weight.
    pub memory: u32,
    /// Storage weight.
    pub storage: u32,
    /// Network weight.
    pub network: u32,
    /// Repair-debt weight.
    pub repair_debt: u32,
    /// Durability-risk weight.
    pub durability_risk: u32,
    /// Movement-cost weight.
    pub movement_cost: u32,
    /// Churn weight.
    pub churn: u32,
}

impl ObjectiveWeights {
    /// One weight for every dimension.
    pub open spec fn all(value: u32) -> Self {
        ObjectiveWeights {
            latency: value,
            throughput: value,
            resource: value,
            memory: value,
            storage: value,
            network: value,
            repair_debt: value,
            durability_risk: value,
            movement_cost: value,
            churn: value,
        }
    }

    /// The sum of all weights.
    pub open spec fn sum(self) -> int {
        self.latency + self.throughput + self.resource + self.memory + self.storage + self.network
            + self.repair_debt + self.durability_risk + self.movement_cost + self.churn
    }

    /// Returns equal weights for all dimensions.
    pub fn equal() -> (weights: Self)
        ensures
            weights == Self::all(100_000),
    {
        ObjectiveWeights {
            latency: 100_000,
            throughput: 100_000,
            resource: 100_000,
            memory: 100_000,
            storage: 100_000,
            network: 100_000,
            repair_debt: 100_000,
            durability_risk: 100_000,
            movement_cost: 100_000,
            churn: 100_000,
        }
    }

    /// Sum of all weights.
    pub fn total(self) -> (total: u64)
        ensures
            total == self.sum(),
    {
        self.latency as u64 + self.throughput as u64 + self.resource as u64 + self.memory as u64
            + self.storage as u64 + self.network as u64 + self.repair_debt as u64
            + self.durability_risk as u64 + self.movement_cost as u64 + self.churn as u64
    }

    /// Whether some weight is nonzero.
    pub fn is_valid(self) -> (valid: bool)
        ensures
            valid == (self.sum() != 0),
    {
        self.total() != 0
    }
}

impl Default for ObjectiveWeights {
    fn default() -> (weights: Self)
        ensures
            weights == Self::all(100_000),
    {
        Self::equal()
    }
}

/// A normalized, weighted multi-objective value.
#[derive(Debug, Clone, Copy, PartialEq, Eq, Structural)]
pub struct ObjectiveVector {
    /// Raw signed dimensions.
    pub raw: ObjectiveBreakdown,
    /// Normalized signed dimensions.
    pub normalized: ObjectiveBreakdown,
    /// Weights used for scalarization.
    pub weights: ObjectiveWeights,
}

fn weigh(value: i64, weight: u32) -> (product: i128)
    ensures
        product == value * weight,
        -0x8000_0000_0000_0000_0000_0000 <= product <= 0x8000_0000_0000_0000_0000_0000,
{
    proof {
        assert(-0x8000_0000_0000_0000_0000_0000 <= value * weight
            <= 0x8000_0000_0000_0000_0000_0000) by (nonlinear_arith)
            requires
                -0x8000_0000_0000_0000 <= value <= 0x8000_0000_0000_0000,
                0 <= weight <= 0x1_0000_0000,
        ;
    }
    value as i128 * weight as i128
}

impl ObjectiveVector {
    /// The weighted sum of the normalized dimensions.
    pub open spec fn weighted_sum(self) -> int {
        self.normalized.latency * self.weights.latency
            + self.normalized.throughput * self.weights.throughput
            + self.normalized.resource * self.weights.resource
            + self.normalized.memory * self.weights.memory
            + self.normalized.storage * self.weights.storage
            + self.normalized.network * self.weights.network
            + self.normalized.repair_debt * self.weights.repair_debt
            + self.normalized.durability_risk * self.weights.durability_risk
            + self.normalized.movement_cost * self.weights.movement_cost
            + self.normalized.churn * self.weights.churn
    }

    /// Creates a vector out of valid scales and weights.
    pub fn new(
        raw: ObjectiveBreakdown,
        scales: ObjectiveScales,
        weights: ObjectiveWeights,
    ) -> (vector:
        Option<Self>)
        ensures
            vector is Some <==> scales.valid() && weights.sum() != 0,
            vector matches Some(v) ==> v.raw == raw && v.weights == weights
                && v.normalized.normalizes(raw, scales) && v.normalized.unit_bounded(),
    {
        if !scales.is_valid() || !weights.is_valid() {
            return None;
        }
        Some(ObjectiveVector { raw, normalized: raw.normalized(scales), weights })
    }

    /// Computes a scalar after normalization and weighting.
    pub fn scalar_score(self) -> (score: i64)
        ensures
            score == clamped(
                truncated_quotient(self.weighted_sum(), 1_000_000),
                i64::MIN as int,
                i64::MAX as int,
            ),
    {
        let value: i128 = weigh(self.normalized.latency, self.weights.latency)
            + weigh(self.normalized.throughput, self.weights.throughput)
            + weigh(self.normalized.resource, self.weights.resource)
            + weigh(self.normalized.memory, self.weights.memory)
            + weigh(self.normalized.storage, self.weights.storage)
            + weigh(self.normalized.network, self.weights.network)
            + weigh(self.normalized.repair_debt, self.weights.repair_debt)
            + weigh(self.normalized.durability_risk, self.weights.durability_risk)
            + weigh(self.normalized.movement_cost, self.weights.movement_cost)
            + weigh(self.normalized.churn, self.weights.churn);
        clamp_i64(divide_truncated(value, 1_000_000))
    }
}

/// A better value never looks worse once normalized, nothing stays nothing, and a whole
/// scale is one whole, in either direction.
pub proof fn law_normalization_keeps_order(a: i64, b: i64, scale: u64)
    requires
        scale > 0,
        a <= b,
    ensures
        normalized_value(a, scale) <= normalized_value(b, scale),
        normalized_value(0, scale) == 0,
        a >= scale ==> normalized_value(a, scale) == 1_000_000,
        b <= -scale ==> normalized_value(b, scale) == -1_000_000,
        0 <= a <= scale ==> normalized_value(a, scale) == (a * 1_000_000) / scale as int,
        a >= 0 ==> normalized_value(a, scale) >= 0,
        b <= 0 ==> normalized_value(b, scale) <= 0,
{
    let s = scale as int;
    lemma_quotient_order(a * 1_000_000, b * 1_000_000, s);
    if a >= 0 {
        lemma_quotient_order(0, a * 1_000_000, s);
    }
    if b <= 0 {
        lemma_quotient_order(b * 1_000_000, 0, s);
    }
    assert(0int / s == 0) by {
        vstd::arithmetic::div_mod::lemma_div_basics(s);
    }
    vstd::arithmetic::div_mod::lemma_div_by_multiple(1_000_000, s);
    assert((1_000_000 * s) / s == 1_000_000);
    if a >= scale {
        lemma_quotient_order(1_000_000 * s, a * 1_000_000, s);
    }
    if b <= -scale {
        lemma_quotient_order(b * 1_000_000, -(1_000_000 * s), s);
    }
    if 0 <= a <= scale {
        lemma_quotient_order(a * 1_000_000, 1_000_000 * s, s);
    }
}

proof fn lemma_quotient_order(a: int, b: int, divisor: int)
    requires
        divisor > 0,
        a <= b,
    ensures
        truncated_quotient(a, divisor) <= truncated_quotient(b, divisor),
{
    if a >= 0 {
        vstd::arithmetic::div_mod::lemma_div_is_ordered(a, b, divisor);
    } else if b < 0 {
        vstd::arithmetic::div_mod::lemma_div_is_ordered(-b, -a, divisor);
    } else {
        vstd::arithmetic::div_mod::lemma_div_pos_is_pos(-a, divisor);
        vstd::arithmetic::div_mod::lemma_div_pos_is_pos(b, divisor);
    }
}

/// Every dimension counts by its own weight: a change of one normalized dimension moves
/// the weighted sum by that change times the weight of that dimension.
pub proof fn law_dimensions_count_by_their_weight(vector: ObjectiveVector, value: i64)
    ensures
        (ObjectiveVector {
            normalized: ObjectiveBreakdown { latency: value, ..vector.normalized },
            ..vector
        }).weighted_sum() - vector.weighted_sum() == (value - vector.normalized.latency)
            * vector.weights.latency,
        (ObjectiveVector {
            normalized: ObjectiveBreakdown { throughput: value, ..vector.normalized },
            ..vector
        }).weighted_sum() - vector.weighted_sum() == (value - vector.normalized.throughput)
            * vector.weights.throughput,
        (ObjectiveVector {
            normalized: ObjectiveBreakdown { resource: value, ..vector.normalized },
            ..vector
        }).weighted_sum() - vector.weighted_sum() == (value - vector.normalized.resource)
            * vector.weights.resource,
        (ObjectiveVector {
            normalized: ObjectiveBreakdown { memory: value, ..vector.normalized },
            ..vector
        }).weighted_sum() - vector.weighted_sum() == (value - vector.normalized.memory)
            * vector.weights.memory,
        (ObjectiveVector {
            normalized: ObjectiveBreakdown { storage: value, ..vector.normalized },
            ..vector
        }).weighted_sum() - vector.weighted_sum() == (value - vector.normalized.storage)
            * vector.weights.storage,
        (ObjectiveVector {
            normalized: ObjectiveBreakdown { network: value, ..vector.normalized },
            ..vector
        }).weighted_sum() - vector.weighted_sum() == (value - vector.normalized.network)
            * vector.weights.network,
        (ObjectiveVector {
            normalized: ObjectiveBreakdown { repair_debt: value, ..vector.normalized },
            ..vector
        }).weighted_sum() - vector.weighted_sum() == (value - vector.normalized.repair_debt)
            * vector.weights.repair_debt,
        (ObjectiveVector {
            normalized: ObjectiveBreakdown { durability_risk: value, ..vector.normalized },
            ..vector
        }).weighted_sum() - vector.weighted_sum() == (value - vector.normalized.durability_risk)
            * vector.weights.durability_risk,
        (ObjectiveVector {
            normalized: ObjectiveBreakdown { movement_cost: value, ..vector.normalized },
            ..vector
        }).weighted_sum() - vector.weighted_sum() == (value - vector.normalized.movement_cost)
            * vector.weights.movement_cost,
        (ObjectiveVector {
            normalized: ObjectiveBreakdown { churn: value, ..vector.normalized },
            ..vector
        }).weighted_sum() - vector.weighted_sum() == (value - vector.normalized.churn)
            * vector.weights.churn,
{
    lemma_weighed_change(
        vector.normalized.latency as int,
        value as int,
        vector.weights.latency as int,
    );
    lemma_weighed_change(
        vector.normalized.throughput as int,
        value as int,
        vector.weights.throughput as int,
    );
    lemma_weighed_change(
        vector.normalized.resource as int,
        value as int,
        vector.weights.resource as int,
    );
    lemma_weighed_change(
        vector.normalized.memory as int,
        value as int,
        vector.weights.memory as int,
    );
    lemma_weighed_change(
        vector.normalized.storage as int,
        value as int,
        vector.weights.storage as int,
    );
    lemma_weighed_change(
        vector.normalized.network as int,
        value as int,
        vector.weights.network as int,
    );
    lemma_weighed_change(
        vector.normalized.repair_debt as int,
        value as int,
        vector.weights.repair_debt as int,
    );
    lemma_weighed_change(
        vector.normalized.durability_risk as int,
        value as int,
        vector.weights.durability_risk as int,
    );
    lemma_weighed_change(
        vector.normalized.movement_cost as int,
        value as int,
        vector.weights.movement_cost as int,
    );
    lemma_weighed_change(
        vector.normalized.churn as int,
        value as int,
        vector.weights.churn as int,
    );
}

proof fn lemma_weighed_change(before: int, after: int, weight: int)
    ensures
        after * weight - before * weight == (after - before) * weight,
{
    assert(after * weight - before * weight == (after - before) * weight) by (nonlinear_arith);
}

/// Nothing is worth nothing, whatever the weights.
pub proof fn law_nothing_scores_nothing(weights: ObjectiveWeights)
    ensures
        (ObjectiveVector {
            raw: ObjectiveBreakdown::nothing(),
            normalized: ObjectiveBreakdown::nothing(),
            weights,
        }).weighted_sum() == 0,
{
    assert(0 * weights.latency == 0);
    assert(0 * weights.throughput == 0);
    assert(0 * weights.resource == 0);
    assert(0 * weights.memory == 0);
    assert(0 * weights.storage == 0);
    assert(0 * weights.network == 0);
    assert(0 * weights.repair_debt == 0);
    assert(0 * weights.durability_risk == 0);
    assert(0 * weights.movement_cost == 0);
    assert(0 * weights.churn == 0);
}

} // verus!
