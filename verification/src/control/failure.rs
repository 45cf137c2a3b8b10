//! Conservative failure detector: ephemeral observations that feed the replicated
//! control plane.
//!
//! A few seconds of packet loss must not trigger migrations. `Active -> Suspect` takes
//! `suspicion_threshold` misses in a row, and `Suspect -> Unavailable`, the only
//! transition that repairs, takes `repair_grace_misses` more. One successful probe
//! brings a node back to `Active`. `repair_cooldown` bounds how soon a recovered node
//! can be suspected again.
//!
//! The detector holds no replicated state: a new control leader starts with an empty
//! one.

use crate::control::node::NodeState;
use crate::ids::NodeId;
use crate::time::Duration;
use std::collections::BTreeMap;
use vstd::prelude::*;

verus! {

/// Failure-detector tuning: all bounds explicit.
#[derive(Debug, Clone, Copy, PartialEq, Eq, Structural)]
pub struct FailureDetectorConfig {
    /// Delay between liveness polls.
    pub poll_interval: Duration,
    /// Consecutive missed polls before `Active -> Suspect`.
    pub suspicion_threshold: u32,
    /// Further consecutive misses before `Suspect -> Unavailable`.
    pub repair_grace_misses: u32,
    /// Minimum time between a recovery and the next suspicion of the same node.
    pub repair_cooldown: Duration,
}

impl FailureDetectorConfig {
    /// Conservative production defaults.
    pub fn conservative() -> (config: Self)
        ensures
            config == (FailureDetectorConfig {
                poll_interval: Duration { nanos: 500_000_000 },
                suspicion_threshold: 4,
                repair_grace_misses: 10,
                repair_cooldown: Duration { nanos: 60_000_000_000 },
            }),
    {
        FailureDetectorConfig {
            poll_interval: Duration::from_millis(500),
            suspicion_threshold: 4,
            repair_grace_misses: 10,
            repair_cooldown: Duration::from_secs(60),
        }
    }

    /// Fast lab defaults: sub-second detection that does not flap on one missed poll.
    pub fn lab() -> (config: Self)
        ensures
            config == (FailureDetectorConfig {
                poll_interval: Duration { nanos: 200_000_000 },
                suspicion_threshold: 3,
                repair_grace_misses: 5,
                repair_cooldown: Duration { nanos: 5_000_000_000 },
            }),
    {
        FailureDetectorConfig {
            poll_interval: Duration::from_millis(200),
            suspicion_threshold: 3,
            repair_grace_misses: 5,
            repair_cooldown: Duration::from_secs(5),
        }
    }

    /// Misses from healthy to repair-worthy, capped at the largest count.
    pub open spec fn unavailable_after(self) -> u32 {
        if self.suspicion_threshold + self.repair_grace_misses > u32::MAX {
            u32::MAX
        } else {
            (self.suspicion_threshold + self.repair_grace_misses) as u32
        }
    }

    /// Polls for which a recovered node is not suspected: the cooldown in whole polls,
    /// capped at the largest count.
    pub open spec fn cooldown_polls(self) -> u32 {
        let poll = self.poll_interval.nanos / 1_000_000;
        let polls = (self.repair_cooldown.nanos / 1_000_000) / if poll >= 1 {
            poll
        } else {
            1
        };
        if polls > u32::MAX {
            u32::MAX
        } else {
            polls as u32
        }
    }

    /// Total misses from healthy to repair-worthy.
    pub fn unavailable_after_misses(self) -> (misses: u32)
        ensures
            misses == self.unavailable_after(),
    {
        self.suspicion_threshold.saturating_add(self.repair_grace_misses)
    }

    fn count_cooldown_polls(&self) -> (polls: u32)
        ensures
            polls == self.cooldown_polls(),
    {
        let poll: u128 = self.poll_interval.as_millis();
        let polls: u128 = self.repair_cooldown.as_millis() / if poll >= 1 {
            poll
        } else {
            1
        };
        if polls > u32::MAX as u128 {
            u32::MAX
        } else {
            polls as u32
        }
    }
}

/// Ephemeral liveness counters of one node.
#[derive(Debug, Clone, Copy, PartialEq, Eq, Structural)]
pub struct NodeLiveness {
    /// Consecutive missed polls.
    pub misses: u32,
    /// Polls since the last recovery.
    pub since_recovery: u32,
}

/// One more, capped at the largest count.
pub open spec fn one_more(count: u32) -> u32 {
    if count == u32::MAX {
        count
    } else {
        (count + 1) as u32
    }
}

impl NodeLiveness {
    /// A node that nothing is known of.
    pub open spec fn unknown() -> Self {
        NodeLiveness { misses: 0, since_recovery: u32::MAX }
    }

    /// The counters after a poll.
    pub open spec fn polled(self, alive: bool, current: NodeState) -> Self {
        if !alive {
            NodeLiveness {
                misses: one_more(self.misses),
                since_recovery: one_more(self.since_recovery),
            }
        } else if current is Unavailable {
            NodeLiveness { misses: 0, since_recovery: 0 }
        } else if current is Suspect {
            NodeLiveness { misses: 0, ..self }
        } else {
            NodeLiveness { misses: 0, since_recovery: one_more(self.since_recovery) }
        }
    }

    /// The state that the counters after a poll call for, where it is not the current
    /// one.
    pub open spec fn verdict(
        self,
        alive: bool,
        current: NodeState,
        config: FailureDetectorConfig,
    ) -> Option<NodeState> {
        if alive {
            if current is Unavailable || current is Suspect {
                Some(NodeState::Active)
            } else {
                None
            }
        } else if current is Active {
            if self.since_recovery >= config.cooldown_polls() && self.misses
                >= config.suspicion_threshold {
                Some(NodeState::Suspect)
            } else {
                None
            }
        } else if current is Suspect {
            if self.misses >= config.unavailable_after() {
                Some(NodeState::Unavailable)
            } else {
                None
            }
        } else {
            None
        }
    }
}

/// What a [`FailureDetector`] holds.
#[verifier::ext_equal]
pub struct FailureDetectorView {
    pub config: FailureDetectorConfig,
    pub liveness: Map<u64, NodeLiveness>,
}

impl FailureDetectorView {
    /// The counters of `node`.
    pub open spec fn counters(self, node: NodeId) -> NodeLiveness {
        if self.liveness.contains_key(node.0) {
            self.liveness[node.0]
        } else {
            NodeLiveness::unknown()
        }
    }

    /// What one poll makes of the detector, and what it returns.
    pub open spec fn observed(self, node: NodeId, alive: bool, current: NodeState) -> (
        Self,
        Option<NodeState>,
    ) {
        let after = self.counters(node).polled(alive, current);
        (
            FailureDetectorView { liveness: self.liveness.insert(node.0, after), ..self },
            after.verdict(alive, current, self.config),
        )
    }
}

/// Ephemeral failure detector owned by the active control leader.
///
/// All timing is in polls, one per node and pass.
#[derive(Debug, Clone)]
pub struct FailureDetector {
    pub(crate) config: FailureDetectorConfig,
    pub(crate) liveness: BTreeMap<u64, NodeLiveness>,
}

impl View for FailureDetector {
    type V = FailureDetectorView;

    open(crate) spec fn view(&self) -> FailureDetectorView {
        FailureDetectorView { config: self.config, liveness: self.liveness@ }
    }
}

impl FailureDetector {
    /// Creates an empty detector.
    pub fn new(config: FailureDetectorConfig) -> (detector: Self)
        ensures
            detector@ == (FailureDetectorView { config, liveness: Map::empty() }),
    {
        FailureDetector { config, liveness: BTreeMap::new() }
    }

    /// Returns the detector configuration.
    pub fn config(&self) -> (config: &FailureDetectorConfig)
        ensures
            *config == self@.config,
    {
        &self.config
    }

    /// Retunes thresholds live and keeps the counters.
    pub fn set_config(&mut self, config: FailureDetectorConfig)
        ensures
            final(self)@ == (FailureDetectorView { config, ..old(self)@ }),
    {
        self.config = config;
    }

    /// Feeds one poll result for `node` given its current replicated state. Returns the
    /// desired replicated state when a threshold was crossed.
    pub fn observe(&mut self, node: NodeId, alive: bool, current: NodeState) -> (transition: Option<
        NodeState,
    >)
        ensures
            (final(self)@, transition) == old(self)@.observed(node, alive, current),
    {
        broadcast use vstd::std_specs::btree::group_btree_axioms;

        let mut entry: NodeLiveness = match self.liveness.get(&node.as_u64()) {
            Some(entry) => *entry,
            None => NodeLiveness { misses: 0, since_recovery: u32::MAX },
        };
        let ghost before = entry;
        let transition: Option<NodeState>;
        if alive {
            entry.misses = 0;
            if current == NodeState::Unavailable {
                entry.since_recovery = 0;
                transition = Some(NodeState::Active);
            } else if current == NodeState::Suspect {
                transition = Some(NodeState::Active);
            } else {
                entry.since_recovery = entry.since_recovery.saturating_add(1);
                transition = None;
            }
        } else {
            entry.misses = entry.misses.saturating_add(1);
            entry.since_recovery = entry.since_recovery.saturating_add(1);
            let cooldown_polls: u32 = self.config.count_cooldown_polls();
            if entry.since_recovery < cooldown_polls && current == NodeState::Active {
                transition = None;
            } else {
                transition =
                match current {
                    NodeState::Active => if entry.misses >= self.config.suspicion_threshold {
                        Some(NodeState::Suspect)
                    } else {
                        None
                    },
                    NodeState::Suspect => if entry.misses
                        >= self.config.unavailable_after_misses() {
                        Some(NodeState::Unavailable)
                    } else {
                        None
                    },
                    _ => None,
                };
            }
        }
        proof {
            assert(entry == before.polled(alive, current));
        }
        self.liveness.insert(node.as_u64(), entry);
        transition
    }

    /// Forgets a removed node.
    pub fn forget(&mut self, node: NodeId)
        ensures
            final(self)@ == (FailureDetectorView {
                liveness: old(self)@.liveness.remove(node.0),
                ..old(self)@
            }),
    {
        broadcast use vstd::std_specs::btree::group_btree_axioms;

        self.liveness.remove(&node.as_u64());
    }
}

/// Placement health of one tablet for repair prioritization.
#[derive(Debug, Clone, Copy, PartialEq, Eq, PartialOrd, Ord, Structural)]
pub enum TabletHealth {
    /// Desired voters are all usable, and no plan is live.
    Healthy,
    /// A live plan is converging toward desired.
    Converging,
    /// Usable replicas above zero but below policy.
    UnderReplicated,
    /// No usable replica can serve.
    Unavailable,
    /// More usable replicas than policy.
    OverReplicated,
}

impl TabletHealth {
    /// Whether this health needs repair planning.
    pub fn needs_repair(self) -> (needs: bool)
        ensures
            needs == (self is UnderReplicated || self is Unavailable),
    {
        matches!(self, TabletHealth::UnderReplicated | TabletHealth::Unavailable)
    }
}

/// The health of a tablet: a live plan hides everything else, then comes what endangers
/// data.
pub open spec fn tablet_health(
    desired: nat,
    usable: nat,
    live_plan: bool,
    replication_factor: nat,
) -> TabletHealth {
    if live_plan {
        TabletHealth::Converging
    } else if usable == 0 {
        TabletHealth::Unavailable
    } else if usable < desired {
        TabletHealth::UnderReplicated
    } else if usable > replication_factor {
        TabletHealth::OverReplicated
    } else {
        TabletHealth::Healthy
    }
}

/// Classifies one tablet's health from the number of its desired voters, of the usable
/// ones among them, and whether a live plan already covers it.
pub fn classify_tablet(
    desired_len: usize,
    usable_len: usize,
    live_plan: bool,
    replication_factor: usize,
) -> (health: TabletHealth)
    ensures
        health == tablet_health(
            desired_len as nat,
            usable_len as nat,
            live_plan,
            replication_factor as nat,
        ),
{
    if live_plan {
        return TabletHealth::Converging;
    }
    if usable_len == 0 {
        return TabletHealth::Unavailable;
    }
    let wanted: usize = if desired_len >= 1 {
        desired_len
    } else {
        1
    };
    let floor: usize = if replication_factor <= wanted {
        replication_factor
    } else {
        wanted
    };
    if usable_len < floor {
        return TabletHealth::UnderReplicated;
    }
    if usable_len < desired_len {
        return TabletHealth::UnderReplicated;
    }
    if usable_len > replication_factor {
        return TabletHealth::OverReplicated;
    }
    TabletHealth::Healthy
}

/// The counters after `misses` missed polls in a row.
pub open spec fn after_misses(start: NodeLiveness, misses: nat, current: NodeState) -> NodeLiveness
    decreases misses,
{
    if misses == 0 {
        start
    } else {
        after_misses(start, (misses - 1) as nat, current).polled(false, current)
    }
}

proof fn lemma_misses_add_up(start: NodeLiveness, misses: nat, current: NodeState)
    requires
        start.misses + misses <= u32::MAX,
    ensures
        after_misses(start, misses, current).misses == start.misses + misses,
        start.since_recovery == u32::MAX ==> after_misses(start, misses, current).since_recovery
            == u32::MAX,
    decreases misses,
{
    if misses > 0 {
        lemma_misses_add_up(start, (misses - 1) as nat, current);
    }
}

/// An active node that nothing is known of is suspected at exactly the threshold: not
/// one miss earlier, and not later.
pub proof fn law_suspicion_takes_the_threshold(config: FailureDetectorConfig, misses: nat)
    requires
        0 < misses <= u32::MAX,
    ensures
        after_misses(NodeLiveness::unknown(), misses, NodeState::Active).verdict(
            false,
            NodeState::Active,
            config,
        ) == if misses >= config.suspicion_threshold {
            Some(NodeState::Suspect)
        } else {
            None
        },
{
    lemma_misses_add_up(NodeLiveness::unknown(), misses, NodeState::Active);
}

/// A suspect becomes unavailable only after the grace has passed too, never straight
/// from active.
pub proof fn law_unavailability_takes_the_grace(config: FailureDetectorConfig, misses: nat)
    requires
        0 < misses <= u32::MAX,
    ensures
        after_misses(NodeLiveness::unknown(), misses, NodeState::Suspect).verdict(
            false,
            NodeState::Suspect,
            config,
        ) == if misses >= config.unavailable_after() {
            Some(NodeState::Unavailable)
        } else {
            None
        },
        after_misses(NodeLiveness::unknown(), misses, NodeState::Active).verdict(
            false,
            NodeState::Active,
            config,
        ) != Some(NodeState::Unavailable),
{
    lemma_misses_add_up(NodeLiveness::unknown(), misses, NodeState::Suspect);
    lemma_misses_add_up(NodeLiveness::unknown(), misses, NodeState::Active);
}

/// One successful probe recovers a suspect or unavailable node and forgets its misses.
pub proof fn law_one_success_recovers(
    detector: FailureDetectorView,
    node: NodeId,
    current: NodeState,
)
    requires
        current is Suspect || current is Unavailable,
    ensures
        detector.observed(node, true, current).1 == Some(NodeState::Active),
        detector.observed(node, true, current).0.counters(node).misses == 0,
{
}

/// Observing one node leaves the counters of every other node alone.
pub proof fn law_nodes_are_independent(
    detector: FailureDetectorView,
    node: NodeId,
    other: NodeId,
    alive: bool,
    current: NodeState,
)
    requires
        node != other,
    ensures
        detector.observed(node, alive, current).0.counters(other) == detector.counters(other),
{
}

proof fn lemma_recovery_ages(start: NodeLiveness, misses: nat, current: NodeState)
    requires
        start.since_recovery + misses <= u32::MAX,
    ensures
        after_misses(start, misses, current).since_recovery == start.since_recovery + misses,
    decreases misses,
{
    if misses > 0 {
        lemma_recovery_ages(start, (misses - 1) as nat, current);
    }
}

/// A node that has just recovered is not suspected again before the cooldown has passed,
/// however many polls it misses.
pub proof fn law_cooldown_prevents_flapping(
    config: FailureDetectorConfig,
    before: NodeLiveness,
    misses: nat,
)
    requires
        misses < config.cooldown_polls(),
    ensures
        after_misses(
            before.polled(true, NodeState::Unavailable),
            misses,
            NodeState::Active,
        ).verdict(
            false,
            NodeState::Active,
            config,
        ) is None,
{
    lemma_recovery_ages(before.polled(true, NodeState::Unavailable), misses, NodeState::Active);
}

/// A poll that is answered forgets every miss, and a node that comes back from
/// unavailability starts its cooldown anew; one that is missed counts one more.
pub proof fn law_polls_are_counted(before: NodeLiveness, current: NodeState)
    requires
        before.misses < u32::MAX,
        before.since_recovery < u32::MAX,
    ensures
        before.polled(true, current).misses == 0,
        before.polled(false, current).misses == before.misses + 1,
        before.polled(false, current).since_recovery == before.since_recovery + 1,
        before.polled(true, NodeState::Unavailable).since_recovery == 0,
        before.polled(true, NodeState::Suspect).since_recovery == before.since_recovery,
        before.polled(true, NodeState::Active).since_recovery == before.since_recovery + 1,
{
}

/// A verdict goes one step at a time, and only an active or suspect node can get worse:
/// nodes that join, drain or are gone are left alone, and so is an active one that
/// answers.
pub proof fn law_verdicts_go_one_step(
    liveness: NodeLiveness,
    alive: bool,
    current: NodeState,
    config: FailureDetectorConfig,
)
    ensures
        liveness.verdict(alive, current, config) matches Some(next) ==> {
            &&& next is Active ==> alive && (current is Suspect || current is Unavailable)
            &&& next is Suspect ==> !alive && current is Active && liveness.misses
                >= config.suspicion_threshold
            &&& next is Unavailable ==> !alive && current is Suspect && liveness.misses
                >= config.suspicion_threshold
            &&& next is Active || next is Suspect || next is Unavailable
        },
        alive && current is Active ==> liveness.verdict(alive, current, config) is None,
        !alive && current is Unavailable ==> liveness.verdict(alive, current, config) is None,
        current is Joining || current is Draining || current is Drained || current is Removed
            ==> liveness.verdict(alive, current, config) is None,
{
}

/// A suspect is given its grace on top of the threshold, and a recovered node is spared
/// for as many polls as fit into its cooldown.
pub proof fn law_grace_and_cooldown_are_as_configured(config: FailureDetectorConfig)
    requires
        config.poll_interval.nanos >= 1_000_000,
    ensures
        config.suspicion_threshold + config.repair_grace_misses <= u32::MAX
            ==> config.unavailable_after() == config.suspicion_threshold
            + config.repair_grace_misses,
        config.cooldown_polls() < u32::MAX ==> {
            let poll = config.poll_interval.nanos / 1_000_000;
            let rest = config.repair_cooldown.nanos / 1_000_000;
            &&& config.cooldown_polls() * poll <= rest
            &&& rest < (config.cooldown_polls() + 1) * poll
        },
{
    let poll = (config.poll_interval.nanos / 1_000_000) as int;
    let rest = (config.repair_cooldown.nanos / 1_000_000) as int;
    vstd::arithmetic::div_mod::lemma_fundamental_div_mod(rest, poll);
    vstd::arithmetic::div_mod::lemma_mod_bound(rest, poll);
    let polls = rest / poll;
    assert(polls * poll == poll * polls) by (nonlinear_arith);
    assert((polls + 1) * poll == polls * poll + poll) by (nonlinear_arith);
}

/// A tablet's health says what is wrong with it: nothing while a plan is at work on it,
/// then no usable voter, then too few, then too many.
pub proof fn law_health_says_what_is_wrong(
    desired: nat,
    usable: nat,
    live_plan: bool,
    replication_factor: nat,
)
    ensures
        ({
            let health = tablet_health(desired, usable, live_plan, replication_factor);
            &&& health is Converging <==> live_plan
            &&& health is Unavailable <==> !live_plan && usable == 0
            &&& health is UnderReplicated <==> !live_plan && 0 < usable < desired
            &&& health is OverReplicated <==> !live_plan && usable > 0 && usable >= desired
                && usable > replication_factor
            &&& health is Healthy <==> !live_plan && 0 < usable && desired <= usable
                <= replication_factor
        }),
{
}

} // verus!
