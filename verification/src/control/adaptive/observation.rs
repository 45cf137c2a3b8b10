//! Typed observations that decisions read, and the features drawn from them.
//!
//! Fractions arrive as whole parts per million.

use crate::control::adaptive::action::{ActionObservation, ActionScope};
use crate::control::adaptive::policy::capped_sum;
use crate::control::adaptive::tuning::BaselineConfig;
use crate::ids::{NodeId, ObservationSequence, ObservationWindowId, TabletId};
use crate::search::{
    first_where, lemma_first_where, lemma_first_where_absent, lemma_first_where_found,
};
use crate::time::{Duration, Ticks};
use vstd::prelude::*;

verus! {

/// How far an observation can be trusted.
#[derive(Debug, Clone, Copy, PartialEq, Eq, PartialOrd, Ord, Hash, Structural)]
pub enum Confidence {
    /// Too little evidence.
    Low,
    /// Enough evidence for ordinary decisions.
    Medium,
    /// Ample evidence.
    High,
}

impl Confidence {
    /// The place in the order of confidence.
    pub open spec fn rank(self) -> int {
        match self {
            Confidence::Low => 0,
            Confidence::Medium => 1,
            Confidence::High => 2,
        }
    }

    /// Whether the confidence is below `floor`.
    pub fn below(self, floor: Confidence) -> (below: bool)
        ensures
            below == (self.rank() < floor.rank()),
    {
        match floor {
            Confidence::Low => false,
            Confidence::Medium => matches!(self, Confidence::Low),
            Confidence::High => matches!(self, Confidence::Low | Confidence::Medium),
        }
    }
}

/// Age class of an observation.
#[derive(Debug, Clone, Copy, PartialEq, Eq, PartialOrd, Ord, Hash, Structural)]
pub enum FreshnessStatus {
    /// Inside the freshness bound.
    Current,
    /// Older than the freshness bound.
    Stale,
    /// Later than the moment of the decision.
    Future,
}

/// Access class of a key.
#[derive(Debug, Clone, Copy, PartialEq, Eq, PartialOrd, Ord, Hash, Structural)]
pub enum HotnessClass {
    /// Rarely read.
    Cold,
    /// Read now and then.
    Warm,
    /// Read often.
    Hot,
}

/// What an observation is about.
#[derive(Debug, Clone, Copy, PartialEq, Eq, PartialOrd, Ord, Hash, Structural)]
pub enum ObservationScope {
    /// The whole cluster.
    Cluster,
    /// One node.
    Node(NodeId),
    /// One tablet.
    Tablet(TabletId),
}

/// Repair and scrub work that is overdue.
#[derive(Debug, Clone, Copy, PartialEq, Eq, Structural)]
pub struct MaintenanceDebt {
    /// Assets waiting for repair.
    pub repair_assets: u64,
    /// Bytes waiting for repair.
    pub repair_bytes: u64,
    /// Age of the oldest repair item.
    pub repair_oldest_age: Duration,
    /// Bytes waiting for a scrub.
    pub scrub_bytes: u64,
}

/// Memory footprint.
#[derive(Debug, Clone, Copy, PartialEq, Eq, Structural)]
pub struct MemoryFootprint {
    /// Logical bytes.
    pub logical_bytes: u64,
    /// Resident bytes.
    pub resident_bytes: u64,
}

/// Storage traffic.
#[derive(Debug, Clone, Copy, PartialEq, Eq, Structural)]
pub struct StorageTraffic {
    /// Bytes read.
    pub read: u64,
    /// Bytes written.
    pub written: u64,
}

/// Load imbalance, as the ratio of the busiest to the mean in parts per million.
#[derive(Debug, Clone, Copy, PartialEq, Eq, Structural)]
pub struct Imbalance {
    /// Between workers.
    pub worker_ppm: Option<u32>,
    /// Between tablets.
    pub tablet_ppm: Option<u32>,
}

/// One key of the hot-key sketch.
#[derive(Debug, Clone, Copy, PartialEq, Eq, Structural)]
pub struct HotKey {
    /// Share of the traffic in parts per million.
    pub share_ppm: u32,
    /// Access class.
    pub hotness: HotnessClass,
}

/// What was observed about one scope.
#[derive(Debug, PartialEq, Eq)]
pub struct ScopeSnapshot {
    /// What the observation is about.
    pub scope: ObservationScope,
    /// Number of samples behind it.
    pub sample_count: usize,
    /// How far it can be trusted.
    pub confidence: Confidence,
    /// Mean memory pressure in parts per million.
    pub memory_pressure_ppm: Option<u32>,
    /// Mean execution-criticality score.
    pub criticality: Option<u64>,
    /// Overdue maintenance.
    pub maintenance_debt: Option<MaintenanceDebt>,
    /// End-to-end p99 latency.
    pub latency_p99_ns: Option<u64>,
    /// Whole requests per second.
    pub requests_per_second: Option<u64>,
    /// Memory footprint.
    pub memory: Option<MemoryFootprint>,
    /// Storage traffic.
    pub storage: Option<StorageTraffic>,
    /// Load imbalance.
    pub topology: Option<Imbalance>,
    /// Share of the ten hottest keys in parts per million.
    pub top_ten_share_ppm: u32,
    /// Retained hot keys, hottest first.
    pub hot_keys: Vec<HotKey>,
}

/// What a [`ScopeSnapshot`] says.
#[verifier::ext_equal]
pub struct ScopeSnapshotView {
    pub scope: ObservationScope,
    pub sample_count: usize,
    pub confidence: Confidence,
    pub memory_pressure_ppm: Option<u32>,
    pub criticality: Option<u64>,
    pub maintenance_debt: Option<MaintenanceDebt>,
    pub latency_p99_ns: Option<u64>,
    pub requests_per_second: Option<u64>,
    pub memory: Option<MemoryFootprint>,
    pub storage: Option<StorageTraffic>,
    pub topology: Option<Imbalance>,
    pub top_ten_share_ppm: u32,
    pub hot_keys: Seq<HotKey>,
}

impl View for ScopeSnapshot {
    type V = ScopeSnapshotView;

    open spec fn view(&self) -> ScopeSnapshotView {
        ScopeSnapshotView {
            scope: self.scope,
            sample_count: self.sample_count,
            confidence: self.confidence,
            memory_pressure_ppm: self.memory_pressure_ppm,
            criticality: self.criticality,
            maintenance_debt: self.maintenance_debt,
            latency_p99_ns: self.latency_p99_ns,
            requests_per_second: self.requests_per_second,
            memory: self.memory,
            storage: self.storage,
            topology: self.topology,
            top_ten_share_ppm: self.top_ten_share_ppm,
            hot_keys: self.hot_keys@,
        }
    }
}

impl Clone for ScopeSnapshot {
    fn clone(&self) -> (copy: Self)
        ensures
            copy@ == self@,
    {
        let mut hot_keys: Vec<HotKey> = Vec::new();
        let mut at: usize = 0;
        while at < self.hot_keys.len()
            invariant
                at <= self.hot_keys.len(),
                hot_keys@ == self.hot_keys@.take(at as int),
            decreases self.hot_keys.len() - at,
        {
            hot_keys.push(self.hot_keys[at]);
            at = at + 1;
            proof {
                assert(self.hot_keys@.take(at as int) =~= self.hot_keys@.take(at - 1).push(
                    self.hot_keys@[at - 1],
                ));
            }
        }
        proof {
            assert(self.hot_keys@.take(at as int) =~= self.hot_keys@);
        }
        ScopeSnapshot {
            scope: self.scope,
            sample_count: self.sample_count,
            confidence: self.confidence,
            memory_pressure_ppm: self.memory_pressure_ppm,
            criticality: self.criticality,
            maintenance_debt: self.maintenance_debt,
            latency_p99_ns: self.latency_p99_ns,
            requests_per_second: self.requests_per_second,
            memory: self.memory,
            storage: self.storage,
            topology: self.topology,
            top_ten_share_ppm: self.top_ten_share_ppm,
            hot_keys,
        }
    }
}

/// All scopes observed up to one moment.
#[derive(Debug, PartialEq, Eq)]
pub struct ObservationSnapshot {
    /// Moment of the snapshot.
    pub as_of: Ticks,
    /// Latest sequence that went in.
    pub last_sequence: Option<ObservationSequence>,
    /// Number of samples that went in.
    pub accepted_samples: u64,
    /// Observed scopes.
    pub scopes: Vec<ScopeSnapshot>,
}

/// What an [`ObservationSnapshot`] says.
#[verifier::ext_equal]
pub struct ObservationSnapshotView {
    pub as_of: Ticks,
    pub last_sequence: Option<ObservationSequence>,
    pub accepted_samples: u64,
    pub scopes: Seq<ScopeSnapshotView>,
}

/// The views of a list of scopes.
pub open spec fn scope_views(scopes: Seq<ScopeSnapshot>) -> Seq<ScopeSnapshotView> {
    Seq::new(scopes.len(), |i: int| scopes[i]@)
}

impl View for ObservationSnapshot {
    type V = ObservationSnapshotView;

    open spec fn view(&self) -> ObservationSnapshotView {
        ObservationSnapshotView {
            as_of: self.as_of,
            last_sequence: self.last_sequence,
            accepted_samples: self.accepted_samples,
            scopes: scope_views(self.scopes@),
        }
    }
}

impl Clone for ObservationSnapshot {
    fn clone(&self) -> (copy: Self)
        ensures
            copy@ == self@,
    {
        let mut scopes: Vec<ScopeSnapshot> = Vec::new();
        let mut at: usize = 0;
        while at < self.scopes.len()
            invariant
                at <= self.scopes.len(),
                scopes.len() == at,
                forall|i: int| 0 <= i < at ==> (#[trigger] scopes@[i])@ == self.scopes@[i]@,
            decreases self.scopes.len() - at,
        {
            scopes.push(self.scopes[at].clone());
            at = at + 1;
        }
        proof {
            assert(scope_views(scopes@) =~= scope_views(self.scopes@));
        }
        ObservationSnapshot {
            as_of: self.as_of,
            last_sequence: self.last_sequence,
            accepted_samples: self.accepted_samples,
            scopes,
        }
    }
}

/// Input frame: one observation snapshot and the identity of the decision.
#[derive(Debug, PartialEq, Eq)]
pub struct ControllerFrame {
    /// Typed observation snapshot.
    pub observation: ObservationSnapshot,
    /// Namespace and cluster scope.
    pub scope: ActionScope,
    /// Sequence used for this decision.
    pub sequence: ObservationSequence,
    /// Window used for this decision.
    pub window: ObservationWindowId,
    /// Observation or controller schema version.
    pub version: u64,
    /// Virtual decision timestamp.
    pub at: Ticks,
}

/// What a [`ControllerFrame`] says.
#[verifier::ext_equal]
pub struct ControllerFrameView {
    pub observation: ObservationSnapshotView,
    pub scope: ActionScope,
    pub sequence: ObservationSequence,
    pub window: ObservationWindowId,
    pub version: u64,
    pub at: Ticks,
}

impl View for ControllerFrame {
    type V = ControllerFrameView;

    open spec fn view(&self) -> ControllerFrameView {
        ControllerFrameView {
            observation: self.observation@,
            scope: self.scope,
            sequence: self.sequence,
            window: self.window,
            version: self.version,
            at: self.at,
        }
    }
}

impl Clone for ControllerFrame {
    fn clone(&self) -> (copy: Self)
        ensures
            copy@ == self@,
    {
        ControllerFrame {
            observation: self.observation.clone(),
            scope: self.scope,
            sequence: self.sequence,
            window: self.window,
            version: self.version,
            at: self.at,
        }
    }
}

impl ControllerFrameView {
    /// The first scope that is about `tablet`.
    pub open spec fn tablet_scope(self, tablet: TabletId) -> Option<ScopeSnapshotView> {
        match first_where(
            self.observation.scopes,
            |s: ScopeSnapshotView| s.scope == ObservationScope::Tablet(tablet),
        ) {
            Some(i) => Some(self.observation.scopes[i]),
            None => None,
        }
    }

    /// The scope of `target`, or the first scope where there is none.
    pub open spec fn target_scope(self, target: TabletId) -> Option<ScopeSnapshotView> {
        match self.tablet_scope(target) {
            Some(scope) => Some(scope),
            None => if self.observation.scopes.len() > 0 {
                Some(self.observation.scopes[0])
            } else {
                None
            },
        }
    }

    /// The identity of the decision.
    pub open spec fn identity(self) -> ActionObservation {
        ActionObservation {
            sequence: self.sequence,
            window: self.window,
            version: self.version,
            at: self.at,
        }
    }
}

impl ControllerFrame {
    /// Creates a decision frame from typed observation data.
    pub fn new(
        observation: ObservationSnapshot,
        scope: ActionScope,
        sequence: ObservationSequence,
        window: ObservationWindowId,
        version: u64,
        at: Ticks,
    ) -> (frame: Self)
        ensures
            frame@ == (ControllerFrameView {
                observation: observation@,
                scope,
                sequence,
                window,
                version,
                at,
            }),
    {
        ControllerFrame { observation, scope, sequence, window, version, at }
    }

    /// Returns the snapshot for a typed tablet scope when present.
    pub fn tablet_snapshot(&self, tablet: TabletId) -> (snapshot: Option<&ScopeSnapshot>)
        ensures
            match snapshot {
                Some(s) => self@.tablet_scope(tablet) == Some(s@),
                None => self@.tablet_scope(tablet) is None,
            },
    {
        let ghost about = |s: ScopeSnapshotView| s.scope == ObservationScope::Tablet(tablet);
        let mut at: usize = 0;
        while at < self.observation.scopes.len()
            invariant
                at <= self.observation.scopes.len(),
                about == (|s: ScopeSnapshotView| s.scope == ObservationScope::Tablet(tablet)),
                forall|i: int| 0 <= i < at ==> !about(#[trigger] self@.observation.scopes[i]),
            decreases self.observation.scopes.len() - at,
        {
            if self.observation.scopes[at].scope == ObservationScope::Tablet(tablet) {
                proof {
                    let scopes = self@.observation.scopes;
                    assert(about(scopes[at as int]));
                    lemma_first_where_found(scopes, about, at as int);
                }
                return Some(&self.observation.scopes[at]);
            }
            proof {
                assert(!about(self@.observation.scopes[at as int]));
            }
            at = at + 1;
        }
        proof {
            lemma_first_where_absent(self@.observation.scopes, about);
        }
        None
    }

    /// Returns the target snapshot or the first retained scope.
    pub fn target_snapshot(&self, target: TabletId) -> (snapshot: Option<&ScopeSnapshot>)
        ensures
            match snapshot {
                Some(s) => self@.target_scope(target) == Some(s@),
                None => self@.target_scope(target) is None,
            },
    {
        match self.tablet_snapshot(target) {
            Some(snapshot) => Some(snapshot),
            None => if self.observation.scopes.len() > 0 {
                proof {
                    assert(self@.observation.scopes[0] == self.observation.scopes@[0]@);
                }
                Some(&self.observation.scopes[0])
            } else {
                None
            },
        }
    }

    /// Returns the action observation identity.
    pub fn action_observation(&self) -> (identity: ActionObservation)
        ensures
            identity == self@.identity(),
    {
        ActionObservation {
            sequence: self.sequence,
            window: self.window,
            version: self.version,
            at: self.at,
        }
    }
}

/// Integer and bounded features extracted from a typed observation scope.
#[derive(Debug, Clone, Copy, PartialEq, Eq, Structural)]
pub struct ObservationFeatures {
    /// Mean memory pressure in parts per million.
    pub memory_pressure_ppm: u32,
    /// Mean execution-criticality score.
    pub criticality: u64,
    /// Number of repair assets.
    pub repair_assets: u64,
    /// Repair debt bytes.
    pub repair_bytes: u64,
    /// Age of the oldest repair item.
    pub repair_age: Duration,
    /// Scrub debt bytes.
    pub scrub_bytes: u64,
    /// End-to-end p99 latency.
    pub latency_p99_ns: u64,
    /// Whole requests per second.
    pub throughput: u64,
    /// Resident memory bytes.
    pub resident_bytes: u64,
    /// Logical memory bytes.
    pub logical_bytes: u64,
    /// Storage read bytes.
    pub storage_read_bytes: u64,
    /// Storage written bytes.
    pub storage_written_bytes: u64,
    /// Maximum worker imbalance in parts per million.
    pub worker_imbalance_ppm: u32,
    /// Maximum tablet imbalance in parts per million.
    pub tablet_imbalance_ppm: u32,
    /// Number of retained hot keys.
    pub hot_key_count: usize,
    /// Top key share in parts per million.
    pub top_key_share_ppm: u32,
    /// Top ten key share in parts per million.
    pub top_ten_key_share_ppm: u32,
    /// Whether one key dominates the sketch.
    pub strict_single_hot_key: bool,
    /// Whether many keys contribute meaningful traffic.
    pub many_key_hotspot: bool,
    /// Whether the memory footprint is hot.
    pub memory_hotspot: bool,
    /// Whether storage traffic is hot.
    pub storage_hotspot: bool,
    /// Whether retained assets are cold and large.
    pub cold_large_assets: bool,
    /// Whether retained assets are hot and small.
    pub hot_small_assets: bool,
}

/// A fraction in parts per million, capped at one whole.
pub open spec fn capped_ppm(value: u32) -> u32 {
    if value > 1_000_000 {
        1_000_000
    } else {
        value
    }
}

fn cap_ppm(value: u32) -> (capped: u32)
    ensures
        capped == capped_ppm(value),
{
    if value > 1_000_000 {
        1_000_000
    } else {
        value
    }
}

/// Whether some retained key is hot.
pub open spec fn has_hot_key(keys: Seq<HotKey>) -> bool {
    exists|i: int| 0 <= i < keys.len() && (#[trigger] keys[i]).hotness == HotnessClass::Hot
}

fn any_hot(keys: &Vec<HotKey>) -> (hot: bool)
    ensures
        hot == has_hot_key(keys@),
{
    let mut at: usize = 0;
    while at < keys.len()
        invariant
            at <= keys.len(),
            forall|i: int| 0 <= i < at ==> (#[trigger] keys@[i]).hotness != HotnessClass::Hot,
        decreases keys.len() - at,
    {
        if keys[at].hotness == HotnessClass::Hot {
            return true;
        }
        at = at + 1;
    }
    false
}

impl ScopeSnapshotView {
    /// The features of the scope under a tuning.
    pub open spec fn features(self, config: BaselineConfig) -> ObservationFeatures {
        let memory_pressure_ppm = match self.memory_pressure_ppm {
            Some(pressure) => capped_ppm(pressure),
            None => 0,
        };
        let debt = match self.maintenance_debt {
            Some(debt) => debt,
            None => MaintenanceDebt {
                repair_assets: 0,
                repair_bytes: 0,
                repair_oldest_age: Duration { nanos: 0 },
                scrub_bytes: 0,
            },
        };
        let memory = match self.memory {
            Some(memory) => memory,
            None => MemoryFootprint { logical_bytes: 0, resident_bytes: 0 },
        };
        let storage = match self.storage {
            Some(storage) => storage,
            None => StorageTraffic { read: 0, written: 0 },
        };
        let top_key_share_ppm = if self.hot_keys.len() > 0 {
            capped_ppm(self.hot_keys[0].share_ppm)
        } else {
            0
        };
        let top_ten_key_share_ppm = capped_ppm(self.top_ten_share_ppm);
        ObservationFeatures {
            memory_pressure_ppm,
            criticality: match self.criticality {
                Some(score) => score,
                None => 0,
            },
            repair_assets: debt.repair_assets,
            repair_bytes: debt.repair_bytes,
            repair_age: debt.repair_oldest_age,
            scrub_bytes: debt.scrub_bytes,
            latency_p99_ns: match self.latency_p99_ns {
                Some(latency) => latency,
                None => 0,
            },
            throughput: match self.requests_per_second {
                Some(rate) => rate,
                None => 0,
            },
            resident_bytes: memory.resident_bytes,
            logical_bytes: memory.logical_bytes,
            storage_read_bytes: storage.read,
            storage_written_bytes: storage.written,
            worker_imbalance_ppm: match self.topology {
                Some(Imbalance { worker_ppm: Some(ratio), .. }) => ratio,
                _ => 0,
            },
            tablet_imbalance_ppm: match self.topology {
                Some(Imbalance { tablet_ppm: Some(ratio), .. }) => ratio,
                _ => 0,
            },
            hot_key_count: self.hot_keys.len() as usize,
            top_key_share_ppm,
            top_ten_key_share_ppm,
            strict_single_hot_key: self.hot_keys.len() == 1 && top_key_share_ppm
                >= config.strict_single_key_share_ppm,
            many_key_hotspot: self.hot_keys.len() >= config.many_hot_keys && top_ten_key_share_ppm
                >= config.many_hot_key_share_ppm,
            memory_hotspot: memory.resident_bytes >= config.memory_hotspot_bytes
                || memory_pressure_ppm >= config.memory_pressure_high_ppm,
            storage_hotspot: capped_sum(storage.read, storage.written)
                >= config.storage_hotspot_bytes,
            cold_large_assets: memory.logical_bytes >= config.large_asset_bytes && !has_hot_key(
                self.hot_keys,
            ),
            hot_small_assets: memory.logical_bytes <= config.small_asset_bytes && has_hot_key(
                self.hot_keys,
            ),
        }
    }
}

impl ObservationFeatures {
    /// Extracts bounded features from a typed observation scope.
    pub fn from_snapshot(snapshot: &ScopeSnapshot, config: &BaselineConfig) -> (features: Self)
        ensures
            features == snapshot@.features(*config),
    {
        let memory_pressure_ppm: u32 = match snapshot.memory_pressure_ppm {
            Some(pressure) => cap_ppm(pressure),
            None => 0,
        };
        let criticality: u64 = match snapshot.criticality {
            Some(score) => score,
            None => 0,
        };
        let debt: MaintenanceDebt = match snapshot.maintenance_debt {
            Some(debt) => debt,
            None => MaintenanceDebt {
                repair_assets: 0,
                repair_bytes: 0,
                repair_oldest_age: Duration::zero(),
                scrub_bytes: 0,
            },
        };
        let latency_p99_ns: u64 = match snapshot.latency_p99_ns {
            Some(latency) => latency,
            None => 0,
        };
        let throughput: u64 = match snapshot.requests_per_second {
            Some(rate) => rate,
            None => 0,
        };
        let memory: MemoryFootprint = match snapshot.memory {
            Some(memory) => memory,
            None => MemoryFootprint { logical_bytes: 0, resident_bytes: 0 },
        };
        let storage: StorageTraffic = match snapshot.storage {
            Some(storage) => storage,
            None => StorageTraffic { read: 0, written: 0 },
        };
        let worker_imbalance_ppm: u32 = match snapshot.topology {
            Some(Imbalance { worker_ppm: Some(ratio), .. }) => ratio,
            _ => 0,
        };
        let tablet_imbalance_ppm: u32 = match snapshot.topology {
            Some(Imbalance { tablet_ppm: Some(ratio), .. }) => ratio,
            _ => 0,
        };
        let hot_key_count: usize = snapshot.hot_keys.len();
        let top_key_share_ppm: u32 = if hot_key_count > 0 {
            cap_ppm(snapshot.hot_keys[0].share_ppm)
        } else {
            0
        };
        let top_ten_key_share_ppm: u32 = cap_ppm(snapshot.top_ten_share_ppm);
        let hot: bool = any_hot(&snapshot.hot_keys);
        ObservationFeatures {
            memory_pressure_ppm,
            criticality,
            repair_assets: debt.repair_assets,
            repair_bytes: debt.repair_bytes,
            repair_age: debt.repair_oldest_age,
            scrub_bytes: debt.scrub_bytes,
            latency_p99_ns,
            throughput,
            resident_bytes: memory.resident_bytes,
            logical_bytes: memory.logical_bytes,
            storage_read_bytes: storage.read,
            storage_written_bytes: storage.written,
            worker_imbalance_ppm,
            tablet_imbalance_ppm,
            hot_key_count,
            top_key_share_ppm,
            top_ten_key_share_ppm,
            strict_single_hot_key: hot_key_count == 1 && top_key_share_ppm
                >= config.strict_single_key_share_ppm,
            many_key_hotspot: hot_key_count >= config.many_hot_keys && top_ten_key_share_ppm
                >= config.many_hot_key_share_ppm,
            memory_hotspot: memory.resident_bytes >= config.memory_hotspot_bytes
                || memory_pressure_ppm >= config.memory_pressure_high_ppm,
            storage_hotspot: storage.read.saturating_add(storage.written)
                >= config.storage_hotspot_bytes,
            cold_large_assets: memory.logical_bytes >= config.large_asset_bytes && !hot,
            hot_small_assets: memory.logical_bytes <= config.small_asset_bytes && hot,
        }
    }
}

/// Features are bounded: no share and no pressure exceeds one whole.
pub proof fn law_features_bounded(snapshot: ScopeSnapshotView, config: BaselineConfig)
    ensures
        snapshot.features(config).memory_pressure_ppm <= 1_000_000,
        snapshot.features(config).top_key_share_ppm <= 1_000_000,
        snapshot.features(config).top_ten_key_share_ppm <= 1_000_000,
        !(
            snapshot.features(config).cold_large_assets
                && snapshot.features(config).hot_small_assets
        ),
{
}

/// A measure that was not taken counts as nothing.
pub proof fn law_missing_measures_count_nothing(snapshot: ScopeSnapshotView, config: BaselineConfig)
    ensures
        snapshot.memory_pressure_ppm is None ==> snapshot.features(config).memory_pressure_ppm
            == 0,
        snapshot.criticality is None ==> snapshot.features(config).criticality == 0,
        snapshot.latency_p99_ns is None ==> snapshot.features(config).latency_p99_ns == 0,
        snapshot.requests_per_second is None ==> snapshot.features(config).throughput == 0,
        snapshot.maintenance_debt is None ==> snapshot.features(config).repair_bytes == 0
            && snapshot.features(config).repair_age.nanos == 0 && snapshot.features(
            config,
        ).repair_assets == 0 && snapshot.features(config).scrub_bytes == 0,
        snapshot.memory is None ==> snapshot.features(config).resident_bytes == 0
            && snapshot.features(config).logical_bytes == 0,
        snapshot.storage is None ==> snapshot.features(config).storage_read_bytes == 0
            && snapshot.features(config).storage_written_bytes == 0,
        snapshot.topology is None ==> snapshot.features(config).worker_imbalance_ppm == 0
            && snapshot.features(config).tablet_imbalance_ppm == 0,
        snapshot.hot_keys.len() == 0 ==> snapshot.features(config).top_key_share_ppm == 0
            && !snapshot.features(config).hot_small_assets && !snapshot.features(
            config,
        ).strict_single_hot_key,
{
}

/// A measure that was taken is passed on as it is, a share up to one whole.
pub proof fn law_measures_are_passed_on(snapshot: ScopeSnapshotView, config: BaselineConfig)
    ensures
        snapshot.memory_pressure_ppm matches Some(pressure) ==> {
            &&& pressure <= 1_000_000 ==> snapshot.features(config).memory_pressure_ppm
                == pressure
            &&& pressure > 1_000_000 ==> snapshot.features(config).memory_pressure_ppm
                == 1_000_000
        },
        snapshot.criticality matches Some(score) ==> snapshot.features(config).criticality
            == score,
        snapshot.latency_p99_ns matches Some(latency) ==> snapshot.features(
            config,
        ).latency_p99_ns == latency,
        snapshot.requests_per_second matches Some(rate) ==> snapshot.features(config).throughput
            == rate,
        snapshot.maintenance_debt matches Some(debt) ==> snapshot.features(config).repair_bytes
            == debt.repair_bytes && snapshot.features(config).repair_age
            == debt.repair_oldest_age && snapshot.features(config).repair_assets
            == debt.repair_assets && snapshot.features(config).scrub_bytes == debt.scrub_bytes,
        snapshot.memory matches Some(memory) ==> snapshot.features(config).resident_bytes
            == memory.resident_bytes && snapshot.features(config).logical_bytes
            == memory.logical_bytes,
        snapshot.storage matches Some(storage) ==> snapshot.features(config).storage_read_bytes
            == storage.read && snapshot.features(config).storage_written_bytes
            == storage.written,
        snapshot.topology matches Some(topology) ==> {
            &&& topology.worker_ppm matches Some(ratio) ==> snapshot.features(
                config,
            ).worker_imbalance_ppm == ratio
            &&& topology.tablet_ppm matches Some(ratio) ==> snapshot.features(
                config,
            ).tablet_imbalance_ppm == ratio
        },
        snapshot.hot_keys.len() > 0 && snapshot.hot_keys[0].share_ppm <= 1_000_000
            ==> snapshot.features(config).top_key_share_ppm == snapshot.hot_keys[0].share_ppm,
        snapshot.top_ten_share_ppm <= 1_000_000 ==> snapshot.features(
            config,
        ).top_ten_key_share_ppm == snapshot.top_ten_share_ppm,
{
}

/// What a scope is called follows from its measures and the thresholds of the tuning: a
/// large asset is cold exactly if none of its keys is hot and a small one is hot exactly
/// if some key is.
pub proof fn law_scopes_are_named_by_their_measures(
    snapshot: ScopeSnapshotView,
    config: BaselineConfig,
)
    ensures
        ({
            let f = snapshot.features(config);
            let hot = exists|i: int|
                0 <= i < snapshot.hot_keys.len() && (#[trigger] snapshot.hot_keys[i]).hotness
                    is Hot;
            &&& f.cold_large_assets <==> f.logical_bytes >= config.large_asset_bytes && !hot
            &&& f.hot_small_assets <==> f.logical_bytes <= config.small_asset_bytes && hot
            &&& f.strict_single_hot_key <==> snapshot.hot_keys.len() == 1 && f.top_key_share_ppm
                >= config.strict_single_key_share_ppm
            &&& f.many_key_hotspot <==> snapshot.hot_keys.len() >= config.many_hot_keys
                && f.top_ten_key_share_ppm >= config.many_hot_key_share_ppm
            &&& f.memory_hotspot <==> f.resident_bytes >= config.memory_hotspot_bytes
                || f.memory_pressure_ppm >= config.memory_pressure_high_ppm
            &&& f.storage_read_bytes + f.storage_written_bytes >= config.storage_hotspot_bytes
                <==> f.storage_hotspot
        }),
{
}

/// A frame speaks of the tablet that it is asked about where it has measured it, and of
/// its first scope where it has not.
pub proof fn law_frames_speak_of_their_target(
    frame: ControllerFrameView,
    target: TabletId,
    at: int,
)
    requires
        0 <= at < frame.observation.scopes.len(),
    ensures
        frame.target_scope(target) is Some,
        frame.observation.scopes[at].scope == ObservationScope::Tablet(target)
            ==> frame.target_scope(target)->0.scope == ObservationScope::Tablet(target),
        (forall|i: int|
            0 <= i < frame.observation.scopes.len() ==> (
            #[trigger] frame.observation.scopes[i]).scope != ObservationScope::Tablet(target))
            ==> frame.target_scope(target)->0 == frame.observation.scopes[0],
{
    let wanted = |s: ScopeSnapshotView| s.scope == ObservationScope::Tablet(target);
    lemma_first_where(frame.observation.scopes, wanted);
    if frame.tablet_scope(target) is None {
        assert(!wanted(frame.observation.scopes[at]));
    }
}

} // verus!
