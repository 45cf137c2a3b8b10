//! Tuning values of the baseline controller.

use crate::control::adaptive::observation::Confidence;
use crate::control::adaptive::policy::{ActionCost, MemoryBudget, Ppm, RepairBudget, ScrubBudget};
use crate::time::Duration;
use vstd::prelude::*;

verus! {

/// Baseline controller tuning values.
#[derive(Debug, Clone, Copy, PartialEq, Eq, Structural)]
pub struct BaselineConfig {
    /// Consecutive windows required for a condition.
    pub sustained_windows: u16,
    /// Maximum retained sustained-window states.
    pub max_tracked_windows: u16,
    /// Minimum retained sample count.
    pub min_samples: usize,
    /// Minimum observation confidence.
    pub minimum_confidence: Confidence,
    /// Memory pressure enter threshold.
    pub memory_pressure_high_ppm: u32,
    /// Memory pressure release threshold.
    pub memory_pressure_low_ppm: u32,
    /// Hysteresis width in parts per million.
    pub hysteresis_ppm: u32,
    /// Criticality threshold used for promotion.
    pub criticality_threshold: u64,
    /// Repair debt byte threshold.
    pub repair_debt_bytes: u64,
    /// Repair debt age threshold.
    pub repair_debt_age: Duration,
    /// Foreground p99 latency threshold.
    pub latency_p99_ns: u64,
    /// Topology imbalance threshold.
    pub topology_imbalance_ppm: u32,
    /// Number of hot keys required for a many-key hotspot.
    pub many_hot_keys: usize,
    /// Many-key share threshold.
    pub many_hot_key_share_ppm: u32,
    /// Dominant single-key share threshold.
    pub strict_single_key_share_ppm: u32,
    /// Memory hotspot byte threshold.
    pub memory_hotspot_bytes: u64,
    /// Storage hotspot byte threshold.
    pub storage_hotspot_bytes: u64,
    /// Large-asset threshold.
    pub large_asset_bytes: u64,
    /// Small-asset threshold.
    pub small_asset_bytes: u64,
    /// Memory budget step.
    pub memory_step: Ppm,
    /// Repair budget step.
    pub repair_step: Ppm,
    /// Scrub budget step.
    pub scrub_step: Ppm,
    /// Initial memory budget.
    pub initial_memory_budget: MemoryBudget,
    /// Initial repair budget.
    pub initial_repair_budget: RepairBudget,
    /// Initial scrub budget.
    pub initial_scrub_budget: ScrubBudget,
    /// Maximum actions admitted in one observation window.
    pub max_actions_per_window: u32,
    /// Maximum aggregate action cost in one observation window.
    pub maximum_resource_cost: ActionCost,
    /// Number of windows between actions for one target.
    pub action_cooldown_windows: u64,
}

impl BaselineConfig {
    /// The tuning that a controller starts with.
    pub open spec fn standard() -> Self {
        BaselineConfig {
            sustained_windows: 3,
            max_tracked_windows: 32,
            min_samples: 3,
            minimum_confidence: Confidence::Medium,
            memory_pressure_high_ppm: 750_000,
            memory_pressure_low_ppm: 250_000,
            hysteresis_ppm: 100_000,
            criticality_threshold: 100,
            repair_debt_bytes: 1_000_000,
            repair_debt_age: Duration { nanos: 5_000_000_000 },
            latency_p99_ns: 1_000_000,
            topology_imbalance_ppm: 2_000_000,
            many_hot_keys: 2,
            many_hot_key_share_ppm: 500_000,
            strict_single_key_share_ppm: 900_000,
            memory_hotspot_bytes: 1_000_000,
            storage_hotspot_bytes: 1_000_000,
            large_asset_bytes: 1_000_000,
            small_asset_bytes: 1_000_000,
            memory_step: Ppm::of(100_000),
            repair_step: Ppm::of(100_000),
            scrub_step: Ppm::of(100_000),
            initial_memory_budget: MemoryBudget::of(Ppm::of(500_000)),
            initial_repair_budget: RepairBudget::of(Ppm::of(500_000)),
            initial_scrub_budget: ScrubBudget::of(Ppm::of(500_000)),
            max_actions_per_window: 8,
            maximum_resource_cost: ActionCost {
                cpu_ns: 1_000_000_000,
                io_ns: 1_000_000_000,
                network_bytes: 1_000_000_000,
                storage_bytes: 1_000_000_000,
                memory_bytes: 1_000_000_000,
            },
            action_cooldown_windows: 2,
        }
    }
}

impl Default for BaselineConfig {
    fn default() -> (config: Self)
        ensures
            config == Self::standard(),
    {
        BaselineConfig {
            sustained_windows: 3,
            max_tracked_windows: 32,
            min_samples: 3,
            minimum_confidence: Confidence::Medium,
            memory_pressure_high_ppm: 750_000,
            memory_pressure_low_ppm: 250_000,
            hysteresis_ppm: 100_000,
            criticality_threshold: 100,
            repair_debt_bytes: 1_000_000,
            repair_debt_age: Duration::from_secs(5),
            latency_p99_ns: 1_000_000,
            topology_imbalance_ppm: 2_000_000,
            many_hot_keys: 2,
            many_hot_key_share_ppm: 500_000,
            strict_single_key_share_ppm: 900_000,
            memory_hotspot_bytes: 1_000_000,
            storage_hotspot_bytes: 1_000_000,
            large_asset_bytes: 1_000_000,
            small_asset_bytes: 1_000_000,
            memory_step: Ppm { parts: 100_000 },
            repair_step: Ppm { parts: 100_000 },
            scrub_step: Ppm { parts: 100_000 },
            initial_memory_budget: MemoryBudget { share: Ppm { parts: 500_000 } },
            initial_repair_budget: RepairBudget { share: Ppm { parts: 500_000 } },
            initial_scrub_budget: ScrubBudget { share: Ppm { parts: 500_000 } },
            max_actions_per_window: 8,
            maximum_resource_cost: ActionCost {
                cpu_ns: 1_000_000_000,
                io_ns: 1_000_000_000,
                network_bytes: 1_000_000_000,
                storage_bytes: 1_000_000_000,
                memory_bytes: 1_000_000_000,
            },
            action_cooldown_windows: 2,
        }
    }
}

} // verus!
