//! Bounded policy values that adaptive actions carry.

use crate::ids::NodeId;
use crate::time::Duration;
use vstd::prelude::*;

verus! {

/// A policy fraction in parts per million, never above one whole.
#[derive(Debug, Clone, Copy, PartialEq, Eq, PartialOrd, Ord, Hash, Structural)]
pub struct Ppm {
    pub(crate) parts: u32,
}

impl Ppm {
    #[verifier::type_invariant]
    pub(crate) open spec fn bounded(self) -> bool {
        self.parts <= 1_000_000
    }

    /// The fraction of `parts` parts per million.
    pub open(crate) spec fn of(parts: u32) -> Self {
        Ppm { parts }
    }

    /// The parts per million.
    pub open(crate) spec fn value(self) -> u32 {
        self.parts
    }

    /// The sum, capped at one whole.
    pub open spec fn plus(self, other: Self) -> Self {
        if self.value() + other.value() > 1_000_000 {
            Ppm::of(1_000_000)
        } else {
            Ppm::of((self.value() + other.value()) as u32)
        }
    }

    /// The difference, floored at zero.
    pub open spec fn minus(self, other: Self) -> Self {
        if self.value() < other.value() {
            Ppm::of(0)
        } else {
            Ppm::of((self.value() - other.value()) as u32)
        }
    }

    /// Zero policy units.
    pub fn zero() -> (share: Self)
        ensures
            share == Self::of(0),
    {
        Ppm { parts: 0 }
    }

    /// One whole policy unit.
    pub fn one() -> (share: Self)
        ensures
            share == Self::of(1_000_000),
    {
        Ppm { parts: 1_000_000 }
    }

    /// Creates a value when it is inside the closed unit interval.
    pub fn new(value: u32) -> (share: Option<Self>)
        ensures
            share == if value <= 1_000_000 {
                Some(Self::of(value))
            } else {
                None
            },
    {
        if value <= 1_000_000 {
            Some(Ppm { parts: value })
        } else {
            None
        }
    }

    /// Returns the parts per million.
    pub fn as_u32(self) -> (parts: u32)
        ensures
            parts == self.value(),
            parts <= 1_000_000,
    {
        proof {
            use_type_invariant(self);
        }
        self.parts
    }

    /// Returns the parts per million as a `u64`.
    pub fn as_u64(self) -> (parts: u64)
        ensures
            parts == self.value(),
            parts <= 1_000_000,
    {
        proof {
            use_type_invariant(self);
        }
        self.parts as u64
    }

    /// Adds and caps at one whole unit.
    pub fn saturating_add(self, other: Self) -> (share: Self)
        ensures
            share == self.plus(other),
    {
        proof {
            use_type_invariant(self);
            use_type_invariant(other);
        }
        let sum: u32 = self.parts + other.parts;
        if sum > 1_000_000 {
            Ppm { parts: 1_000_000 }
        } else {
            Ppm { parts: sum }
        }
    }

    /// Subtracts and floors at zero.
    pub fn saturating_sub(self, other: Self) -> (share: Self)
        ensures
            share == self.minus(other),
    {
        proof {
            use_type_invariant(self);
        }
        if self.parts < other.parts {
            Ppm { parts: 0 }
        } else {
            Ppm { parts: self.parts - other.parts }
        }
    }
}

impl Default for Ppm {
    fn default() -> (share: Self)
        ensures
            share == Self::of(0),
    {
        Ppm { parts: 0 }
    }
}

/// A bounded memory budget.
#[derive(Debug, Clone, Copy, PartialEq, Eq, PartialOrd, Ord, Hash, Structural)]
pub struct MemoryBudget {
    pub(crate) share: Ppm,
}

impl MemoryBudget {
    /// The budget of `share`.
    pub open(crate) spec fn of(share: Ppm) -> Self {
        MemoryBudget { share }
    }

    /// The policy fraction of the budget.
    pub open(crate) spec fn ppm(self) -> Ppm {
        self.share
    }

    /// Creates a valid budget.
    pub fn new(value: u32) -> (budget: Option<Self>)
        ensures
            budget == if value <= 1_000_000 {
                Some(Self::of(Ppm::of(value)))
            } else {
                None
            },
    {
        match Ppm::new(value) {
            Some(share) => Some(MemoryBudget { share }),
            None => None,
        }
    }

    /// The budget of nothing.
    pub fn zero() -> (budget: Self)
        ensures
            budget == Self::of(Ppm::of(0)),
    {
        MemoryBudget { share: Ppm::zero() }
    }

    /// Returns the underlying policy fraction.
    pub fn as_ppm(self) -> (share: Ppm)
        ensures
            share == self.ppm(),
    {
        self.share
    }

    /// Adds a bounded step.
    pub fn saturating_add(self, step: Ppm) -> (budget: Self)
        ensures
            budget == Self::of(self.ppm().plus(step)),
    {
        MemoryBudget { share: self.share.saturating_add(step) }
    }

    /// Subtracts a bounded step.
    pub fn saturating_sub(self, step: Ppm) -> (budget: Self)
        ensures
            budget == Self::of(self.ppm().minus(step)),
    {
        MemoryBudget { share: self.share.saturating_sub(step) }
    }
}

/// A bounded repair budget.
#[derive(Debug, Clone, Copy, PartialEq, Eq, PartialOrd, Ord, Hash, Structural)]
pub struct RepairBudget {
    pub(crate) share: Ppm,
}

impl RepairBudget {
    /// The budget of `share`.
    pub open(crate) spec fn of(share: Ppm) -> Self {
        RepairBudget { share }
    }

    /// The policy fraction of the budget.
    pub open(crate) spec fn ppm(self) -> Ppm {
        self.share
    }

    /// Creates a valid budget.
    pub fn new(value: u32) -> (budget: Option<Self>)
        ensures
            budget == if value <= 1_000_000 {
                Some(Self::of(Ppm::of(value)))
            } else {
                None
            },
    {
        match Ppm::new(value) {
            Some(share) => Some(RepairBudget { share }),
            None => None,
        }
    }

    /// The budget of nothing.
    pub fn zero() -> (budget: Self)
        ensures
            budget == Self::of(Ppm::of(0)),
    {
        RepairBudget { share: Ppm::zero() }
    }

    /// Returns the underlying policy fraction.
    pub fn as_ppm(self) -> (share: Ppm)
        ensures
            share == self.ppm(),
    {
        self.share
    }

    /// Adds a bounded step.
    pub fn saturating_add(self, step: Ppm) -> (budget: Self)
        ensures
            budget == Self::of(self.ppm().plus(step)),
    {
        RepairBudget { share: self.share.saturating_add(step) }
    }

    /// Subtracts a bounded step.
    pub fn saturating_sub(self, step: Ppm) -> (budget: Self)
        ensures
            budget == Self::of(self.ppm().minus(step)),
    {
        RepairBudget { share: self.share.saturating_sub(step) }
    }
}

/// A bounded scrub budget.
#[derive(Debug, Clone, Copy, PartialEq, Eq, PartialOrd, Ord, Hash, Structural)]
pub struct ScrubBudget {
    pub(crate) share: Ppm,
}

impl ScrubBudget {
    /// The budget of `share`.
    pub open(crate) spec fn of(share: Ppm) -> Self {
        ScrubBudget { share }
    }

    /// The policy fraction of the budget.
    pub open(crate) spec fn ppm(self) -> Ppm {
        self.share
    }

    /// Creates a valid budget.
    pub fn new(value: u32) -> (budget: Option<Self>)
        ensures
            budget == if value <= 1_000_000 {
                Some(Self::of(Ppm::of(value)))
            } else {
                None
            },
    {
        match Ppm::new(value) {
            Some(share) => Some(ScrubBudget { share }),
            None => None,
        }
    }

    /// The budget of nothing.
    pub fn zero() -> (budget: Self)
        ensures
            budget == Self::of(Ppm::of(0)),
    {
        ScrubBudget { share: Ppm::zero() }
    }

    /// Returns the underlying policy fraction.
    pub fn as_ppm(self) -> (share: Ppm)
        ensures
            share == self.ppm(),
    {
        self.share
    }

    /// Adds a bounded step.
    pub fn saturating_add(self, step: Ppm) -> (budget: Self)
        ensures
            budget == Self::of(self.ppm().plus(step)),
    {
        ScrubBudget { share: self.share.saturating_add(step) }
    }

    /// Subtracts a bounded step.
    pub fn saturating_sub(self, step: Ppm) -> (budget: Self)
        ensures
            budget == Self::of(self.ppm().minus(step)),
    {
        ScrubBudget { share: self.share.saturating_sub(step) }
    }
}

/// Expected benefit attached to an action proposal.
#[derive(Debug, Clone, Copy, PartialEq, Eq, Hash, Structural)]
pub struct ExpectedBenefit {
    /// Expected latency reduction.
    pub latency: Ppm,
    /// Expected throughput gain.
    pub throughput: Ppm,
    /// Expected general resource saving.
    pub resource: Ppm,
    /// Expected memory saving.
    pub memory: Ppm,
    /// Expected storage saving.
    pub storage: Ppm,
    /// Expected network saving.
    pub network: Ppm,
    /// Expected repair-debt reduction.
    pub repair_debt: Ppm,
    /// Expected durability-risk reduction.
    pub durability_risk: Ppm,
    /// Expected movement cost.
    pub movement_cost: Ppm,
    /// Expected churn cost.
    pub churn: Ppm,
}

impl ExpectedBenefit {
    /// The benefit with the given parts per million.
    pub open spec fn of(
        latency: u32,
        throughput: u32,
        resource: u32,
        memory: u32,
        storage: u32,
        network: u32,
        repair_debt: u32,
        durability_risk: u32,
        movement_cost: u32,
        churn: u32,
    ) -> Self {
        ExpectedBenefit {
            latency: Ppm::of(latency),
            throughput: Ppm::of(throughput),
            resource: Ppm::of(resource),
            memory: Ppm::of(memory),
            storage: Ppm::of(storage),
            network: Ppm::of(network),
            repair_debt: Ppm::of(repair_debt),
            durability_risk: Ppm::of(durability_risk),
            movement_cost: Ppm::of(movement_cost),
            churn: Ppm::of(churn),
        }
    }

    /// Creates a benefit out of fractions that are all inside the unit interval.
    pub fn new(
        latency: u32,
        throughput: u32,
        resource: u32,
        memory: u32,
        storage: u32,
        network: u32,
        repair_debt: u32,
        durability_risk: u32,
        movement_cost: u32,
        churn: u32,
    ) -> (benefit: Option<Self>)
        ensures
            benefit == if latency <= 1_000_000
                && throughput <= 1_000_000
                && resource <= 1_000_000
                && memory <= 1_000_000
                && storage <= 1_000_000
                && network <= 1_000_000
                && repair_debt <= 1_000_000
                && durability_risk <= 1_000_000
                && movement_cost <= 1_000_000
                && churn <= 1_000_000 {
                Some(
                    Self::of(
                        latency,
                        throughput,
                        resource,
                        memory,
                        storage,
                        network,
                        repair_debt,
                        durability_risk,
                        movement_cost,
                        churn,
                    ),
                )
            } else {
                None
            },
    {
        if latency > 1_000_000 || throughput > 1_000_000 || resource > 1_000_000 || memory
            > 1_000_000 || storage > 1_000_000 || network > 1_000_000 || repair_debt > 1_000_000
            || durability_risk > 1_000_000 || movement_cost > 1_000_000 || churn > 1_000_000 {
            return None;
        }
        Some(
            ExpectedBenefit {
                latency: Ppm { parts: latency },
                throughput: Ppm { parts: throughput },
                resource: Ppm { parts: resource },
                memory: Ppm { parts: memory },
                storage: Ppm { parts: storage },
                network: Ppm { parts: network },
                repair_debt: Ppm { parts: repair_debt },
                durability_risk: Ppm { parts: durability_risk },
                movement_cost: Ppm { parts: movement_cost },
                churn: Ppm { parts: churn },
            },
        )
    }

    /// Returns the benefit of nothing.
    pub fn zero() -> (benefit: Self)
        ensures
            benefit == Self::of(0, 0, 0, 0, 0, 0, 0, 0, 0, 0),
    {
        ExpectedBenefit {
            latency: Ppm::zero(),
            throughput: Ppm::zero(),
            resource: Ppm::zero(),
            memory: Ppm::zero(),
            storage: Ppm::zero(),
            network: Ppm::zero(),
            repair_debt: Ppm::zero(),
            durability_risk: Ppm::zero(),
            movement_cost: Ppm::zero(),
            churn: Ppm::zero(),
        }
    }
}

/// Resource and movement cost estimate for one action.
#[derive(Debug, Clone, Copy, PartialEq, Eq, Hash, Structural)]
pub struct ActionCost {
    /// Expected CPU time.
    pub cpu_ns: u64,
    /// Expected storage I/O time.
    pub io_ns: u64,
    /// Expected network bytes.
    pub network_bytes: u64,
    /// Expected storage bytes.
    pub storage_bytes: u64,
    /// Expected temporary memory bytes.
    pub memory_bytes: u64,
}

/// The sum of two counters, capped at the largest one.
pub open spec fn capped_sum(a: u64, b: u64) -> u64 {
    if a + b > u64::MAX {
        u64::MAX
    } else {
        (a + b) as u64
    }
}

impl Default for ActionCost {
    fn default() -> (cost: Self)
        ensures
            cost == Self::none(),
    {
        Self::zero()
    }
}

impl ActionCost {
    /// The cost of nothing.
    pub open spec fn none() -> Self {
        ActionCost { cpu_ns: 0, io_ns: 0, network_bytes: 0, storage_bytes: 0, memory_bytes: 0 }
    }

    /// The capped sum in each dimension.
    pub open spec fn plus(self, other: Self) -> Self {
        ActionCost {
            cpu_ns: capped_sum(self.cpu_ns, other.cpu_ns),
            io_ns: capped_sum(self.io_ns, other.io_ns),
            network_bytes: capped_sum(self.network_bytes, other.network_bytes),
            storage_bytes: capped_sum(self.storage_bytes, other.storage_bytes),
            memory_bytes: capped_sum(self.memory_bytes, other.memory_bytes),
        }
    }

    /// Whether the cost is above `limit` in some dimension.
    pub open spec fn above(self, limit: Self) -> bool {
        ||| self.cpu_ns > limit.cpu_ns
        ||| self.io_ns > limit.io_ns
        ||| self.network_bytes > limit.network_bytes
        ||| self.storage_bytes > limit.storage_bytes
        ||| self.memory_bytes > limit.memory_bytes
    }

    /// Returns the cost of nothing.
    pub fn zero() -> (cost: Self)
        ensures
            cost == Self::none(),
    {
        ActionCost { cpu_ns: 0, io_ns: 0, network_bytes: 0, storage_bytes: 0, memory_bytes: 0 }
    }

    /// Adds two estimates, saturating in each dimension.
    pub fn saturating_add(self, other: Self) -> (cost: Self)
        ensures
            cost == self.plus(other),
    {
        ActionCost {
            cpu_ns: self.cpu_ns.saturating_add(other.cpu_ns),
            io_ns: self.io_ns.saturating_add(other.io_ns),
            network_bytes: self.network_bytes.saturating_add(other.network_bytes),
            storage_bytes: self.storage_bytes.saturating_add(other.storage_bytes),
            memory_bytes: self.memory_bytes.saturating_add(other.memory_bytes),
        }
    }

    /// Whether the cost is above `limit` in some dimension.
    pub fn exceeds(self, limit: Self) -> (above: bool)
        ensures
            above == self.above(limit),
    {
        self.cpu_ns > limit.cpu_ns || self.io_ns > limit.io_ns
            || self.network_bytes > limit.network_bytes || self.storage_bytes > limit.storage_bytes
            || self.memory_bytes > limit.memory_bytes
    }
}

/// Result class returned by an actuator.
#[derive(Debug, Clone, Copy, PartialEq, Eq, Hash, Structural)]
pub enum ActionResult {
    /// The requested policy change was applied.
    Succeeded,
    /// The policy was already in the requested state.
    NoChange,
    /// The requested policy change was rolled back.
    RolledBack,
    /// The actuator rejected the request.
    Rejected,
    /// Execution failed.
    Failed,
}

impl ActionResult {
    /// Whether the result counts as a success.
    pub open spec fn succeeded(self) -> bool {
        self is Succeeded || self is NoChange
    }

    /// Whether the result is a successful terminal outcome.
    pub fn is_success(self) -> (success: bool)
        ensures
            success == self.succeeded(),
    {
        matches!(self, ActionResult::Succeeded | ActionResult::NoChange)
    }
}

/// Actual outcome and cost of executing an action.
#[derive(Debug, Clone, Copy, PartialEq, Eq, Structural)]
pub struct ActionOutcome {
    /// Terminal result class.
    pub result: ActionResult,
    /// Benefit observed after execution.
    pub observed_benefit: ExpectedBenefit,
    /// Execution duration supplied by the caller.
    pub duration: Duration,
    /// Resource cost paid by execution.
    pub cost: ActionCost,
}

impl ActionOutcome {
    /// Creates a successful outcome.
    pub fn success(
        observed_benefit: ExpectedBenefit,
        duration: Duration,
        cost: ActionCost,
    ) -> (outcome:
        Self)
        ensures
            outcome == (ActionOutcome {
                result: ActionResult::Succeeded,
                observed_benefit,
                duration,
                cost,
            }),
    {
        ActionOutcome { result: ActionResult::Succeeded, observed_benefit, duration, cost }
    }

    /// Creates a no-change outcome.
    pub fn no_change(duration: Duration, cost: ActionCost) -> (outcome: Self)
        ensures
            outcome == (ActionOutcome {
                result: ActionResult::NoChange,
                observed_benefit: ExpectedBenefit::of(0, 0, 0, 0, 0, 0, 0, 0, 0, 0),
                duration,
                cost,
            }),
    {
        ActionOutcome {
            result: ActionResult::NoChange,
            observed_benefit: ExpectedBenefit::zero(),
            duration,
            cost,
        }
    }

    /// Creates an outcome without benefit.
    pub fn failed(result: ActionResult, duration: Duration, cost: ActionCost) -> (outcome: Self)
        ensures
            outcome == (ActionOutcome {
                result,
                observed_benefit: ExpectedBenefit::of(0, 0, 0, 0, 0, 0, 0, 0, 0, 0),
                duration,
                cost,
            }),
    {
        ActionOutcome { result, observed_benefit: ExpectedBenefit::zero(), duration, cost }
    }
}

/// Closed materialization intent controlled by the adaptive loop.
#[derive(Debug, Clone, Copy, PartialEq, Eq, PartialOrd, Ord, Hash, Structural)]
pub enum MaterializationIntent {
    /// Keep data resident and hot.
    Materialize,
    /// Keep data reconstructible but not resident.
    KeepWarm,
    /// Move data to a lower materialization tier.
    Demote,
    /// Evict data while retaining a reconstructible representation.
    Evict,
}

/// Bounded replication factor: one to sixteen replicas.
#[derive(Debug, Clone, Copy, PartialEq, Eq, PartialOrd, Ord, Hash, Structural)]
pub struct ReplicationFactor {
    pub(crate) replicas: u8,
}

impl ReplicationFactor {
    #[verifier::type_invariant]
    pub(crate) open spec fn bounded(self) -> bool {
        1 <= self.replicas <= 16
    }

    /// The factor of `replicas` replicas.
    pub open(crate) spec fn of(replicas: u8) -> Self {
        ReplicationFactor { replicas }
    }

    /// The replica count.
    pub open(crate) spec fn count(self) -> u8 {
        self.replicas
    }

    /// Creates a replication factor in the range 1..=16.
    pub fn new(value: u8) -> (factor: Option<Self>)
        ensures
            factor == if 1 <= value <= 16 {
                Some(Self::of(value))
            } else {
                None
            },
    {
        if value == 0 || value > 16 {
            None
        } else {
            Some(ReplicationFactor { replicas: value })
        }
    }

    /// Returns the replica count.
    pub fn as_u8(self) -> (replicas: u8)
        ensures
            replicas == self.count(),
            1 <= replicas <= 16,
    {
        proof {
            use_type_invariant(self);
        }
        self.replicas
    }
}

/// Bounded erasure-coding layout: both counts nonzero, at most 64 in total.
#[derive(Debug, Clone, Copy, PartialEq, Eq, PartialOrd, Ord, Hash, Structural)]
pub struct ErasureCodingLayout {
    pub(crate) data: u8,
    pub(crate) parity: u8,
}

impl ErasureCodingLayout {
    #[verifier::type_invariant]
    pub(crate) open spec fn bounded(self) -> bool {
        &&& self.data > 0
        &&& self.parity > 0
        &&& self.data + self.parity <= 64
    }

    /// The layout with the given fragment counts.
    pub open(crate) spec fn of(data: u8, parity: u8) -> Self {
        ErasureCodingLayout { data, parity }
    }

    /// The data fragments.
    pub open(crate) spec fn data_count(self) -> u8 {
        self.data
    }

    /// The parity fragments.
    pub open(crate) spec fn parity_count(self) -> u8 {
        self.parity
    }

    /// The fragments of the layout, data and parity together.
    pub open spec fn count(self) -> u8 {
        (self.data_count() + self.parity_count()) as u8
    }

    /// Creates a layout with nonzero fragment counts and at most 64 in total.
    pub fn new(data_fragments: u8, parity_fragments: u8) -> (layout: Option<Self>)
        ensures
            layout == if data_fragments > 0 && parity_fragments > 0 && data_fragments
                + parity_fragments <= 64 {
                Some(Self::of(data_fragments, parity_fragments))
            } else {
                None
            },
    {
        if data_fragments == 0 || parity_fragments == 0 || data_fragments as u16
            + parity_fragments as u16 > 64 {
            None
        } else {
            Some(ErasureCodingLayout { data: data_fragments, parity: parity_fragments })
        }
    }

    /// Returns the number of data fragments.
    pub fn data_fragments(self) -> (fragments: u8)
        ensures
            fragments == self.data_count(),
    {
        self.data
    }

    /// Returns the number of parity fragments.
    pub fn parity_fragments(self) -> (fragments: u8)
        ensures
            fragments == self.parity_count(),
    {
        self.parity
    }

    /// Returns the protected fragment count.
    pub fn fragment_count(self) -> (fragments: u8)
        ensures
            fragments == self.count(),
            2 <= fragments <= 64,
    {
        proof {
            use_type_invariant(self);
        }
        self.data + self.parity
    }
}

/// Redundancy preference for an adaptive action.
#[derive(Debug, Clone, Copy, PartialEq, Eq, PartialOrd, Ord, Hash, Structural)]
pub enum RedundancyPreference {
    /// Replicate the asset.
    Replication(ReplicationFactor),
    /// Use an erasure-coded representation.
    ErasureCoding(ErasureCodingLayout),
}

impl RedundancyPreference {
    /// The protected fragments.
    pub open spec fn count(self) -> u8 {
        match self {
            RedundancyPreference::Replication(factor) => factor.count(),
            RedundancyPreference::ErasureCoding(layout) => layout.count(),
        }
    }

    /// Returns the protected fragment count.
    pub fn fragment_count(self) -> (fragments: u8)
        ensures
            fragments == self.count(),
            1 <= fragments <= 64,
    {
        match self {
            RedundancyPreference::Replication(factor) => factor.as_u8(),
            RedundancyPreference::ErasureCoding(layout) => layout.fragment_count(),
        }
    }
}

/// Bounded split recommendation policy.
#[derive(Debug, Clone, Copy, PartialEq, Eq, PartialOrd, Ord, Hash, Structural)]
pub struct TabletSplitPolicy {
    /// Minimum logical bytes assigned to either child.
    pub min_child_bytes: u64,
    /// Maximum number of children.
    pub max_children: u8,
}

impl TabletSplitPolicy {
    /// The policy with 2..=16 children and a nonzero byte floor, if it is one.
    pub open spec fn of(min_child_bytes: u64, max_children: u8) -> Option<Self> {
        if min_child_bytes > 0 && 2 <= max_children <= 16 {
            Some(TabletSplitPolicy { min_child_bytes, max_children })
        } else {
            None
        }
    }

    /// Creates a split policy with 2..=16 children and a nonzero byte floor.
    pub fn new(min_child_bytes: u64, max_children: u8) -> (policy: Option<Self>)
        ensures
            policy == Self::of(min_child_bytes, max_children),
    {
        if min_child_bytes == 0 || max_children < 2 || max_children > 16 {
            None
        } else {
            Some(TabletSplitPolicy { min_child_bytes, max_children })
        }
    }
}

/// Bounded merge recommendation policy.
#[derive(Debug, Clone, Copy, PartialEq, Eq, PartialOrd, Ord, Hash, Structural)]
pub struct TabletMergePolicy {
    /// Minimum combined logical bytes.
    pub min_combined_bytes: u64,
    /// Maximum number of source tablets.
    pub max_sources: u8,
}

impl TabletMergePolicy {
    /// The policy with 2..=8 sources and a nonzero byte floor, if it is one.
    pub open spec fn of(min_combined_bytes: u64, max_sources: u8) -> Option<Self> {
        if min_combined_bytes > 0 && 2 <= max_sources <= 8 {
            Some(TabletMergePolicy { min_combined_bytes, max_sources })
        } else {
            None
        }
    }

    /// Creates a merge policy with 2..=8 sources and a nonzero byte floor.
    pub fn new(min_combined_bytes: u64, max_sources: u8) -> (policy: Option<Self>)
        ensures
            policy == Self::of(min_combined_bytes, max_sources),
    {
        if min_combined_bytes == 0 || max_sources < 2 || max_sources > 8 {
            None
        } else {
            Some(TabletMergePolicy { min_combined_bytes, max_sources })
        }
    }
}

/// Nonzero placement fence observed for a migration recommendation.
#[derive(Debug, Clone, Copy, PartialEq, Eq, PartialOrd, Ord, Hash, Structural)]
pub struct MigrationFence {
    pub(crate) fence: u64,
}

impl MigrationFence {
    #[verifier::type_invariant]
    pub(crate) open spec fn nonzero(self) -> bool {
        self.fence != 0
    }

    /// The fence with the raw value `fence`.
    pub open(crate) spec fn of(fence: u64) -> Self {
        MigrationFence { fence }
    }

    /// The raw fence.
    pub open(crate) spec fn value(self) -> u64 {
        self.fence
    }

    /// First valid placement fence.
    pub fn initial() -> (fence: Self)
        ensures
            fence == Self::of(1),
    {
        MigrationFence { fence: 1 }
    }

    /// Creates a nonzero migration fence.
    pub fn new(value: u64) -> (fence: Option<Self>)
        ensures
            fence == if value == 0 {
                None
            } else {
                Some(Self::of(value))
            },
    {
        if value == 0 {
            None
        } else {
            Some(MigrationFence { fence: value })
        }
    }

    /// Returns the raw fence.
    pub fn as_u64(self) -> (value: u64)
        ensures
            value == self.value(),
            value != 0,
    {
        proof {
            use_type_invariant(self);
        }
        self.fence
    }
}

/// A bounded, fenced migration recommendation.
#[derive(Debug, Clone, Copy, PartialEq, Eq, PartialOrd, Ord, Hash, Structural)]
pub struct MigrationRecommendation {
    /// Replica source.
    pub from: NodeId,
    /// Replica destination.
    pub to: NodeId,
    /// Placement fence observed by the controller.
    pub fence: MigrationFence,
    /// Maximum bytes covered by this recommendation.
    pub max_bytes: u64,
}

impl MigrationRecommendation {
    /// Creates a recommendation with distinct endpoints and a nonzero size.
    pub fn new(from: NodeId, to: NodeId, fence: MigrationFence, max_bytes: u64) -> (recommendation:
        Option<Self>)
        ensures
            recommendation == if from == to || max_bytes == 0 {
                None
            } else {
                Some(MigrationRecommendation { from, to, fence, max_bytes })
            },
    {
        if from == to || max_bytes == 0 {
            None
        } else {
            Some(MigrationRecommendation { from, to, fence, max_bytes })
        }
    }
}

/// A policy fraction stays inside the unit interval under both operations.
pub proof fn law_shares_stay_bounded(a: Ppm, b: Ppm)
    requires
        a.value() <= 1_000_000,
        b.value() <= 1_000_000,
    ensures
        a.plus(b).value() <= 1_000_000,
        a.minus(b).value() <= a.value(),
        a.value() <= a.plus(b).value(),
        a.value() + b.value() <= 1_000_000 ==> a.plus(b).minus(b) == a,
{
}

/// A share never moves further than it was told to, and never past nothing or one whole.
pub proof fn law_shares_move_by_their_step(a: Ppm, b: Ppm)
    requires
        a.value() <= 1_000_000,
    ensures
        a.value() >= b.value() ==> a.minus(b).value() == a.value() - b.value(),
        a.value() < b.value() ==> a.minus(b).value() == 0,
        a.value() + b.value() <= 1_000_000 ==> a.plus(b).value() == a.value() + b.value(),
        a.value() + b.value() > 1_000_000 ==> a.plus(b).value() == 1_000_000,
{
}

/// Costs add up in every dimension, in any order, and more cost never fits under a limit
/// that less cost broke.
pub proof fn law_costs_add_up(a: ActionCost, b: ActionCost, limit: ActionCost)
    ensures
        a.plus(b) == b.plus(a),
        a.plus(ActionCost::none()) == a,
        a.above(limit) ==> a.plus(b).above(limit),
        !a.above(a),
        a.cpu_ns + b.cpu_ns <= u64::MAX ==> a.plus(b).cpu_ns == a.cpu_ns + b.cpu_ns,
        a.io_ns + b.io_ns <= u64::MAX ==> a.plus(b).io_ns == a.io_ns + b.io_ns,
        a.network_bytes + b.network_bytes <= u64::MAX ==> a.plus(b).network_bytes
            == a.network_bytes + b.network_bytes,
        a.storage_bytes + b.storage_bytes <= u64::MAX ==> a.plus(b).storage_bytes
            == a.storage_bytes + b.storage_bytes,
        a.memory_bytes + b.memory_bytes <= u64::MAX ==> a.plus(b).memory_bytes == a.memory_bytes
            + b.memory_bytes,
        !a.above(limit) <==> a.cpu_ns <= limit.cpu_ns && a.io_ns <= limit.io_ns && a.network_bytes
            <= limit.network_bytes && a.storage_bytes <= limit.storage_bytes && a.memory_bytes
            <= limit.memory_bytes,
{
}

/// A result is a success exactly if the policy now stands as asked for, be it that
/// nothing had to change.
pub proof fn law_results_are_success_or_not(result: ActionResult)
    ensures
        result is Succeeded || result is NoChange ==> result.succeeded(),
        result is RolledBack || result is Rejected || result is Failed ==> !result.succeeded(),
{
}

/// A benefit holds each part in its own dimension.
pub proof fn law_benefits_hold_their_dimensions(
    latency: u32,
    throughput: u32,
    resource: u32,
    memory: u32,
    storage: u32,
    network: u32,
    repair_debt: u32,
    durability_risk: u32,
    movement_cost: u32,
    churn: u32,
)
    ensures
        ({
            let benefit = ExpectedBenefit::of(
                latency,
                throughput,
                resource,
                memory,
                storage,
                network,
                repair_debt,
                durability_risk,
                movement_cost,
                churn,
            );
            &&& benefit.latency.value() == latency
            &&& benefit.throughput.value() == throughput
            &&& benefit.resource.value() == resource
            &&& benefit.memory.value() == memory
            &&& benefit.storage.value() == storage
            &&& benefit.network.value() == network
            &&& benefit.repair_debt.value() == repair_debt
            &&& benefit.durability_risk.value() == durability_risk
            &&& benefit.movement_cost.value() == movement_cost
            &&& benefit.churn.value() == churn
        }),
{
}

} // verus!
