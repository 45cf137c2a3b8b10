//! Deterministic greedy placement planner.
//!
//! The planner turns policy into single-replica moves. The same state and the same
//! policy give the same moves, and a balanced cluster gives none. Ties go to the lowest
//! identity; nothing is random.

use crate::control::migration::{MigrationPlan, MigrationPlanId, MigrationPlanView};
use crate::control::node::{NodeRecord, NodeState};
use crate::control::placement::{DesiredReplicaSet, PlacementVersion};
use crate::control::roster::{clone_nodes, lists_node};
use crate::control::state::{live, ControlState};
use crate::ids::{NodeId, TabletId};
use crate::index::{in_order, lemma_lookup_at, Indexed};
use crate::order::{
    ascending, canonical, lemma_canonical, lemma_canonical_fixed, sort_unique, Keyed,
};
use std::collections::BTreeMap;
use vstd::prelude::*;

verus! {

/// Planner tuning: replication and concurrency bounds.
#[derive(Debug, Clone, Copy, PartialEq, Eq, Structural)]
pub struct PlannerConfig {
    /// Desired voter count per tablet.
    pub replication_factor: usize,
    /// Maximum migration plans created in one planning round.
    pub max_plans_per_round: usize,
    /// Maximum concurrent live plans touching one node, as source or as target.
    pub max_plans_per_node: usize,
}

impl PlannerConfig {
    /// Default production shaping: three replicas, bounded churn per round.
    pub fn default_rf3() -> (config: Self)
        ensures
            config == (PlannerConfig {
                replication_factor: 3,
                max_plans_per_round: 16,
                max_plans_per_node: 4,
            }),
    {
        PlannerConfig { replication_factor: 3, max_plans_per_round: 16, max_plans_per_node: 4 }
    }
}

/// Why planning failed.
#[derive(Debug, Clone, Copy, PartialEq, Eq, Structural)]
#[non_exhaustive]
pub enum PlannerError {
    /// No eligible active nodes exist.
    NoEligibleNodes,
    /// Replication factor exceeds eligible nodes.
    UnderReplicated {
        /// Requested factor.
        wanted: usize,
        /// Eligible nodes.
        eligible: usize,
    },
}

/// One intended move: replace `from` with `to` on `tablet`.
#[derive(Debug, Clone, PartialEq, Eq)]
pub struct MigrationIntent {
    /// Tablet moving.
    pub tablet: TabletId,
    /// Replica leaving.
    pub from: NodeId,
    /// Replica joining.
    pub to: NodeId,
    /// Full desired voter set after the move.
    pub desired_voters: Vec<NodeId>,
}

/// What a [`MigrationIntent`] says.
#[verifier::ext_equal]
pub struct MigrationIntentView {
    pub tablet: TabletId,
    pub from: NodeId,
    pub to: NodeId,
    pub desired_voters: Seq<NodeId>,
}

impl View for MigrationIntent {
    type V = MigrationIntentView;

    open spec fn view(&self) -> MigrationIntentView {
        MigrationIntentView {
            tablet: self.tablet,
            from: self.from,
            to: self.to,
            desired_voters: self.desired_voters@,
        }
    }
}

/// The views of a list of intents.
pub open spec fn intent_views(intents: Seq<MigrationIntent>) -> Seq<MigrationIntentView> {
    Seq::new(intents.len(), |i: int| intents[i]@)
}

/// The active nodes among `records`, in the same order.
pub open spec fn active_nodes(records: Seq<NodeRecord>) -> Seq<NodeId>
    decreases records.len(),
{
    if records.len() == 0 {
        Seq::empty()
    } else if records.last().state is Active {
        active_nodes(records.drop_last()).push(records.last().node)
    } else {
        active_nodes(records.drop_last())
    }
}

/// How many of `placements` name `node`.
pub open spec fn named_in(placements: Seq<DesiredReplicaSet>, node: u64) -> nat
    decreases placements.len(),
{
    if placements.len() == 0 {
        0
    } else {
        named_in(placements.drop_last(), node) + if placements.last()@.replicas.contains(
            NodeId(node),
        ) {
            1nat
        } else {
            0nat
        }
    }
}

/// How many live plans among `plans` touch `node`.
pub open spec fn touched_by_plans(plans: Seq<MigrationPlan>, node: u64) -> nat
    decreases plans.len(),
{
    if plans.len() == 0 {
        0
    } else {
        let last = plans.last();
        touched_by_plans(plans.drop_last(), node) + if live(last) && (last.from.0 == node
            || last.to.0 == node) {
            1nat
        } else {
            0nat
        }
    }
}

/// How many replicas `node` holds once `intents` have been carried out.
pub open spec fn load(state: ControlState, intents: Seq<MigrationIntentView>, node: u64) -> nat
    decreases intents.len(),
{
    if intents.len() == 0 {
        named_in(state.placement_list(), node)
    } else {
        let before = load(state, intents.drop_last(), node);
        let gained = if intents.last().to.0 == node {
            before + 1
        } else {
            before
        };
        if intents.last().from.0 == node && gained > 0 {
            (gained - 1) as nat
        } else {
            gained
        }
    }
}

/// How many live plans and intents touch `node`.
pub open spec fn touches(state: ControlState, intents: Seq<MigrationIntentView>, node: u64) -> nat
    decreases intents.len(),
{
    if intents.len() == 0 {
        touched_by_plans(state.migration_list(), node)
    } else {
        touches(state, intents.drop_last(), node) + if intents.last().from.0 == node
            || intents.last().to.0 == node {
            1nat
        } else {
            0nat
        }
    }
}

/// Whether `candidate` stands in a known failure domain that none of `current` covers.
pub open spec fn fresh_domain(
    state: ControlState,
    current: Seq<NodeId>,
    candidate: NodeId,
) -> bool {
    match state.node_of(candidate) {
        Some(record) => record.failure_domain@.len() > 0 && forall|i: int|
            0 <= i < current.len() ==> !(state.node_of(#[trigger] current[i]) matches Some(holder)
                && holder.failure_domain@ == record.failure_domain@),
        None => false,
    }
}

/// Whether `candidate` may join: not a voter yet, and not touched by too many plans.
pub open spec fn may_join(
    state: ControlState,
    config: PlannerConfig,
    intents: Seq<MigrationIntentView>,
    current: Seq<NodeId>,
    candidate: NodeId,
) -> bool {
    &&& !current.contains(candidate)
    &&& touches(state, intents, candidate.0) < config.max_plans_per_node
}

/// Whether `a` is a better target than `b`: a fresh domain first, then the lower load.
pub open spec fn better_target(
    state: ControlState,
    intents: Seq<MigrationIntentView>,
    current: Seq<NodeId>,
    a: NodeId,
    b: NodeId,
) -> bool {
    let fresh_a = fresh_domain(state, current, a);
    let fresh_b = fresh_domain(state, current, b);
    ||| fresh_a && !fresh_b
    ||| fresh_a == fresh_b && load(state, intents, a.0) < load(state, intents, b.0)
}

/// The best of `candidates` that may join; the first of equals.
pub open spec fn best_target(
    state: ControlState,
    config: PlannerConfig,
    intents: Seq<MigrationIntentView>,
    current: Seq<NodeId>,
    candidates: Seq<NodeId>,
) -> Option<NodeId>
    decreases candidates.len(),
{
    if candidates.len() == 0 {
        None
    } else {
        let before = best_target(state, config, intents, current, candidates.drop_last());
        let candidate = candidates.last();
        if !may_join(state, config, intents, current, candidate) {
            before
        } else {
            match before {
                Some(best) => if better_target(state, intents, current, candidate, best) {
                    Some(candidate)
                } else {
                    before
                },
                None => Some(candidate),
            }
        }
    }
}

/// The most loaded of `current`; the first of equals.
pub open spec fn shed_victim(
    state: ControlState,
    intents: Seq<MigrationIntentView>,
    current: Seq<NodeId>,
) -> Option<NodeId>
    decreases current.len(),
{
    if current.len() == 0 {
        None
    } else {
        match shed_victim(state, intents, current.drop_last()) {
            Some(most) => if load(state, intents, current.last().0) > load(state, intents, most.0) {
                Some(current.last())
            } else {
                Some(most)
            },
            None => Some(current.last()),
        }
    }
}

/// The voters after `from` was replaced by `to`.
pub open spec fn swapped(current: Seq<NodeId>, from: NodeId, to: NodeId) -> Seq<NodeId> {
    canonical(without(current, from).push(to))
}

/// `nodes` without `node`.
pub open spec fn without(nodes: Seq<NodeId>, node: NodeId) -> Seq<NodeId>
    decreases nodes.len(),
{
    if nodes.len() == 0 {
        nodes
    } else if nodes.last() == node {
        without(nodes.drop_last(), node)
    } else {
        without(nodes.drop_last(), node).push(nodes.last())
    }
}

/// The move that balances a tablet, if it is worth one: from the most loaded voter to
/// the best outsider, with at least two replicas between them.
pub open spec fn balance_move(
    state: ControlState,
    config: PlannerConfig,
    intents: Seq<MigrationIntentView>,
    current: Seq<NodeId>,
) -> Option<(NodeId, NodeId)> {
    match (
        shed_victim(state, intents, current),
        best_target(state, config, intents, current, active_nodes(state.node_list())),
    ) {
        (Some(from), Some(to)) => if touches(state, intents, from.0) < config.max_plans_per_node
            && load(state, intents, from.0) >= load(state, intents, to.0) + 2 {
            Some((from, to))
        } else {
            None
        },
        _ => None,
    }
}

/// The smaller of two counts.
pub open spec fn smaller(a: nat, b: nat) -> nat {
    if a <= b {
        a
    } else {
        b
    }
}

/// The intents after the first `n` placements were considered for balance.
pub open spec fn rebalanced(state: ControlState, config: PlannerConfig, n: nat) -> Seq<
    MigrationIntentView,
>
    decreases n,
{
    if n == 0 {
        Seq::empty()
    } else {
        let before = rebalanced(state, config, (n - 1) as nat);
        let desired = state.placement_list()[n - 1];
        let current = desired@.replicas;
        if before.len() >= config.max_plans_per_round || state.moving(desired.tablet)
            || current.len() != smaller(
            config.replication_factor as nat,
            active_nodes(state.node_list()).len(),
        ) {
            before
        } else {
            match balance_move(state, config, before, current) {
                Some((from, to)) => before.push(
                    MigrationIntentView {
                        tablet: desired.tablet,
                        from,
                        to,
                        desired_voters: swapped(current, from, to),
                    },
                ),
                None => before,
            }
        }
    }
}

/// The intents after the first `n` placements were considered for a drain.
pub open spec fn drained(
    state: ControlState,
    draining: NodeId,
    config: PlannerConfig,
    n: nat,
) -> Seq<
    MigrationIntentView,
>
    decreases n,
{
    if n == 0 {
        Seq::empty()
    } else {
        let before = drained(state, draining, config, (n - 1) as nat);
        let desired = state.placement_list()[n - 1];
        let current = desired@.replicas;
        if before.len() >= config.max_plans_per_round || !current.contains(draining)
            || state.moving(desired.tablet) || touches(state, before, draining.0)
            >= config.max_plans_per_node {
            before
        } else {
            match best_target(
                state,
                config,
                before,
                current,
                without(active_nodes(state.node_list()), draining),
            ) {
                Some(to) => before.push(
                    MigrationIntentView {
                        tablet: desired.tablet,
                        from: draining,
                        to,
                        desired_voters: swapped(current, draining, to),
                    },
                ),
                None => before,
            }
        }
    }
}

/// The number that `counts` holds for `node`; zero where it holds none.
pub open spec fn tally(counts: Map<u64, u128>, node: u64) -> nat {
    if counts.contains_key(node) {
        counts[node] as nat
    } else {
        0
    }
}

fn tally_of(counts: &BTreeMap<u64, u128>, node: NodeId) -> (count: u128)
    ensures
        count == tally(counts@, node.0),
{
    broadcast use vstd::std_specs::btree::group_btree_axioms;

    match counts.get(&node.as_u64()) {
        Some(count) => *count,
        None => 0,
    }
}

fn raise(counts: &mut BTreeMap<u64, u128>, node: NodeId)
    requires
        tally(old(counts)@, node.0) < u128::MAX,
    ensures
        forall|n: u64| #[trigger]
            tally(final(counts)@, n) == tally(old(counts)@, n) + if n == node.0 {
                1nat
            } else {
                0nat
            },
{
    broadcast use vstd::std_specs::btree::group_btree_axioms;

    let count: u128 = tally_of(counts, node);
    counts.insert(node.as_u64(), count + 1);
}

fn lower(counts: &mut BTreeMap<u64, u128>, node: NodeId)
    ensures
        forall|n: u64| #[trigger]
            tally(final(counts)@, n) == if n == node.0 && tally(old(counts)@, n) > 0 {
                (tally(old(counts)@, n) - 1) as nat
            } else {
                tally(old(counts)@, n)
            },
{
    broadcast use vstd::std_specs::btree::group_btree_axioms;

    let count: u128 = tally_of(counts, node);
    if count > 0 {
        counts.insert(node.as_u64(), count - 1);
    }
}

proof fn lemma_named_bound(placements: Seq<DesiredReplicaSet>, node: u64)
    ensures
        named_in(placements, node) <= placements.len(),
    decreases placements.len(),
{
    if placements.len() > 0 {
        lemma_named_bound(placements.drop_last(), node);
    }
}

proof fn lemma_touched_bound(plans: Seq<MigrationPlan>, node: u64)
    ensures
        touched_by_plans(plans, node) <= plans.len(),
    decreases plans.len(),
{
    if plans.len() > 0 {
        lemma_touched_bound(plans.drop_last(), node);
    }
}

proof fn lemma_load_bound(state: ControlState, intents: Seq<MigrationIntentView>, node: u64)
    ensures
        load(state, intents, node) <= state.placement_list().len() + intents.len(),
        touches(state, intents, node) <= state.migration_list().len() + intents.len(),
    decreases intents.len(),
{
    if intents.len() == 0 {
        lemma_named_bound(state.placement_list(), node);
        lemma_touched_bound(state.migration_list(), node);
    } else {
        lemma_load_bound(state, intents.drop_last(), node);
    }
}

/// Counters that follow a plan in the making.
struct Counters {
    load: BTreeMap<u64, u128>,
    touched: BTreeMap<u64, u128>,
}

impl Counters {
    spec fn follow(self, state: ControlState, intents: Seq<MigrationIntentView>) -> bool {
        &&& forall|n: u64| #[trigger] tally(self.load@, n) == load(state, intents, n)
        &&& forall|n: u64| #[trigger] tally(self.touched@, n) == touches(state, intents, n)
    }

    fn start(state: &ControlState) -> (counters: Self)
        requires
            state.well_formed(),
        ensures
            counters.follow(*state, Seq::empty()),
    {
        let mut loads: BTreeMap<u64, u128> = BTreeMap::new();
        let placements: &Vec<DesiredReplicaSet> = state.placements();
        let mut at: usize = 0;
        proof {
            assert(placements@.take(0) =~= Seq::empty());
        }
        while at < placements.len()
            invariant
                at <= placements.len(),
                placements@ == state.placement_list(),
                state.well_formed(),
                forall|n: u64| #[trigger]
                    tally(loads@, n) == named_in(placements@.take(at as int), n),
            decreases placements.len() - at,
        {
            Self::count_replicas(&mut loads, &placements[at], placements, at);
            at = at + 1;
            proof {
                assert(placements@.take(at as int).drop_last() =~= placements@.take(at - 1));
                assert(placements@.take(at as int).last() == placements@[at - 1]);
            }
        }
        proof {
            assert(placements@.take(at as int) =~= placements@);
        }
        let mut touched: BTreeMap<u64, u128> = BTreeMap::new();
        let plans: &Vec<MigrationPlan> = state.migrations();
        let mut at: usize = 0;
        proof {
            assert(plans@.take(0) =~= Seq::empty());
        }
        while at < plans.len()
            invariant
                at <= plans.len(),
                plans@ == state.migration_list(),
                forall|n: u64| #[trigger]
                    tally(touched@, n) == touched_by_plans(plans@.take(at as int), n),
            decreases plans.len() - at,
        {
            let plan: &MigrationPlan = &plans[at];
            proof {
                assert(plans@.take(at + 1).drop_last() =~= plans@.take(at as int));
                assert(plans@.take(at + 1).last() == plans@[at as int]);
                lemma_touched_bound(plans@.take(at as int), plan.from.0);
                lemma_touched_bound(plans@.take(at as int), plan.to.0);
            }
            if !plan.phase.is_terminal() {
                raise(&mut touched, plan.from);
                if plan.to != plan.from {
                    raise(&mut touched, plan.to);
                }
            }
            at = at + 1;
        }
        proof {
            assert(plans@.take(at as int) =~= plans@);
        }
        Counters { load: loads, touched }
    }

    fn count_replicas(
        loads: &mut BTreeMap<u64, u128>,
        desired: &DesiredReplicaSet,
        placements: &Vec<DesiredReplicaSet>,
        at: usize,
    )
        requires
            at < placements.len(),
            *desired == placements@[at as int],
            desired@.well_formed(),
            forall|n: u64| #[trigger]
                tally(old(loads)@, n) == named_in(placements@.take(at as int), n),
        ensures
            forall|n: u64| #[trigger]
                tally(final(loads)@, n) == named_in(placements@.take(at as int), n)
                    + if desired@.replicas.contains(NodeId(n)) {
                    1nat
                } else {
                    0nat
                },
    {
        let ghost before = placements@.take(at as int);
        let mut index: usize = 0;
        proof {
            assert(desired.replicas@.take(0) =~= Seq::empty());
        }
        while index < desired.replicas.len()
            invariant
                index <= desired.replicas.len(),
                before == placements@.take(at as int),
                at < placements.len(),
                desired@.well_formed(),
                forall|n: u64| #[trigger]
                    tally(loads@, n) == named_in(before, n) + if desired.replicas@.take(
                        index as int,
                    ).contains(NodeId(n)) {
                        1nat
                    } else {
                        0nat
                    },
            decreases desired.replicas.len() - index,
        {
            let node: NodeId = desired.replicas[index];
            let ghost seen = desired.replicas@.take(index as int);
            proof {
                lemma_named_bound(before, node.0);
                if seen.contains(node) {
                    let k = choose|k: int| 0 <= k < seen.len() && seen[k] == node;
                    assert(desired@.replicas[k].key() < desired@.replicas[index as int].key());
                }
            }
            raise(loads, node);
            index = index + 1;
            proof {
                let now = desired.replicas@.take(index as int);
                assert(now =~= seen.push(node));
                assert forall|n: u64| #[trigger] tally(loads@, n) == named_in(before, n)
                    + if now.contains(NodeId(n)) {
                    1nat
                } else {
                    0nat
                } by {
                    vstd::seq_lib::lemma_seq_contains_after_push(seen, node, NodeId(n));
                }
            }
        }
        proof {
            assert(desired.replicas@.take(index as int) =~= desired@.replicas);
        }
    }

    fn carry_out(
        &mut self,
        state: &ControlState,
        intents: &Vec<MigrationIntent>,
        intent: &MigrationIntent,
    )
        requires
            old(self).follow(*state, intent_views(intents@)),
            intent.from != intent.to,
        ensures
            final(self).follow(*state, intent_views(intents@).push(intent@)),
    {
        let ghost before = intent_views(intents@);
        let ghost after = before.push(intent@);
        proof {
            state.lemma_sizes();
            assert(before.len() == intents.len());
            lemma_load_bound(*state, before, intent.from.0);
            lemma_load_bound(*state, before, intent.to.0);
            assert(after.drop_last() =~= before);
        }
        raise(&mut self.touched, intent.from);
        raise(&mut self.touched, intent.to);
        raise(&mut self.load, intent.to);
        lower(&mut self.load, intent.from);
        proof {
            assert forall|n: u64| #[trigger] tally(self.load@, n) == load(*state, after, n) by {
                lemma_load_bound(*state, before, n);
            }
        }
    }
}

fn eligible_nodes(state: &ControlState) -> (nodes: Vec<NodeId>)
    ensures
        nodes@ == active_nodes(state.node_list()),
{
    let records: &Vec<NodeRecord> = state.nodes();
    let mut nodes: Vec<NodeId> = Vec::new();
    let mut at: usize = 0;
    proof {
        assert(records@.take(0) =~= Seq::empty());
    }
    while at < records.len()
        invariant
            at <= records.len(),
            nodes@ == active_nodes(records@.take(at as int)),
        decreases records.len() - at,
    {
        proof {
            assert(records@.take(at + 1).drop_last() =~= records@.take(at as int));
            assert(records@.take(at + 1).last() == records@[at as int]);
        }
        if records[at].state == NodeState::Active {
            nodes.push(records[at].node);
        }
        at = at + 1;
    }
    proof {
        assert(records@.take(at as int) =~= records@);
    }
    nodes
}

fn leave_out(nodes: &Vec<NodeId>, node: NodeId) -> (rest: Vec<NodeId>)
    ensures
        rest@ == without(nodes@, node),
{
    let mut rest: Vec<NodeId> = Vec::new();
    let mut at: usize = 0;
    proof {
        assert(nodes@.take(0) =~= Seq::empty());
    }
    while at < nodes.len()
        invariant
            at <= nodes.len(),
            rest@ == without(nodes@.take(at as int), node),
        decreases nodes.len() - at,
    {
        proof {
            assert(nodes@.take(at + 1).drop_last() =~= nodes@.take(at as int));
            assert(nodes@.take(at + 1).last() == nodes@[at as int]);
        }
        if nodes[at] != node {
            rest.push(nodes[at]);
        }
        at = at + 1;
    }
    proof {
        assert(nodes@.take(at as int) =~= nodes@);
    }
    rest
}

fn swap(current: &Vec<NodeId>, from: NodeId, to: NodeId) -> (voters: Vec<NodeId>)
    ensures
        voters@ == swapped(current@, from, to),
{
    let mut rest: Vec<NodeId> = leave_out(current, from);
    rest.push(to);
    sort_unique(&rest)
}

fn in_fresh_domain(state: &ControlState, current: &Vec<NodeId>, candidate: NodeId) -> (fresh: bool)
    ensures
        fresh == fresh_domain(*state, current@, candidate),
{
    match state.node(candidate) {
        None => false,
        Some(record) => {
            if record.failure_domain.as_str().is_empty() {
                return false;
            }
            let mut at: usize = 0;
            while at < current.len()
                invariant
                    at <= current.len(),
                    state.node_of(candidate) == Some(*record),
                    record.failure_domain@.len() > 0,
                    forall|i: int|
                        0 <= i < at ==> !(state.node_of(#[trigger] current@[i]) matches Some(holder)
                            && holder.failure_domain@ == record.failure_domain@),
                decreases current.len() - at,
            {
                if let Some(holder) = state.node(current[at]) {
                    if holder.failure_domain == record.failure_domain {
                        proof {
                            assert(state.node_of(current@[at as int]) == Some(*holder));
                        }
                        return false;
                    }
                }
                at = at + 1;
            }
            true
        },
    }
}

fn pick_add_target(
    state: &ControlState,
    config: &PlannerConfig,
    intents: &Vec<MigrationIntent>,
    counters: &Counters,
    current: &Vec<NodeId>,
    candidates: &Vec<NodeId>,
) -> (target: Option<NodeId>)
    requires
        counters.follow(*state, intent_views(intents@)),
    ensures
        target == best_target(*state, *config, intent_views(intents@), current@, candidates@),
{
    let ghost views = intent_views(intents@);
    let mut best: Option<NodeId> = None;
    let mut at: usize = 0;
    proof {
        assert(candidates@.take(0) =~= Seq::empty());
    }
    while at < candidates.len()
        invariant
            at <= candidates.len(),
            counters.follow(*state, views),
            best == best_target(*state, *config, views, current@, candidates@.take(at as int)),
        decreases candidates.len() - at,
    {
        let candidate: NodeId = candidates[at];
        proof {
            assert(candidates@.take(at + 1).drop_last() =~= candidates@.take(at as int));
            assert(candidates@.take(at + 1).last() == candidate);
        }
        if !lists_node(current, candidate) && tally_of(&counters.touched, candidate)
            < config.max_plans_per_node as u128 {
            let better: bool = match best {
                None => true,
                Some(held) => {
                    let fresh: bool = in_fresh_domain(state, current, candidate);
                    let held_fresh: bool = in_fresh_domain(state, current, held);
                    (fresh && !held_fresh) || (fresh == held_fresh && tally_of(
                        &counters.load,
                        candidate,
                    ) < tally_of(&counters.load, held))
                },
            };
            if better {
                best = Some(candidate);
            }
        }
        at = at + 1;
    }
    proof {
        assert(candidates@.take(at as int) =~= candidates@);
    }
    best
}

fn pick_shed_victim(
    state: &ControlState,
    intents: &Vec<MigrationIntent>,
    counters: &Counters,
    current: &Vec<NodeId>,
) -> (victim: Option<NodeId>)
    requires
        counters.follow(*state, intent_views(intents@)),
    ensures
        victim == shed_victim(*state, intent_views(intents@), current@),
{
    let ghost views = intent_views(intents@);
    let mut most: Option<NodeId> = None;
    let mut at: usize = 0;
    proof {
        assert(current@.take(0) =~= Seq::empty());
    }
    while at < current.len()
        invariant
            at <= current.len(),
            counters.follow(*state, views),
            most == shed_victim(*state, views, current@.take(at as int)),
        decreases current.len() - at,
    {
        proof {
            assert(current@.take(at + 1).drop_last() =~= current@.take(at as int));
            assert(current@.take(at + 1).last() == current@[at as int]);
        }
        let heavier: bool = match most {
            None => true,
            Some(held) => tally_of(&counters.load, current[at]) > tally_of(&counters.load, held),
        };
        if heavier {
            most = Some(current[at]);
        }
        at = at + 1;
    }
    proof {
        assert(current@.take(at as int) =~= current@);
    }
    most
}

fn pick_balance_move(
    state: &ControlState,
    config: &PlannerConfig,
    intents: &Vec<MigrationIntent>,
    counters: &Counters,
    current: &Vec<NodeId>,
    eligible: &Vec<NodeId>,
) -> (chosen: Option<(NodeId, NodeId)>)
    requires
        counters.follow(*state, intent_views(intents@)),
        eligible@ == active_nodes(state.node_list()),
    ensures
        chosen == balance_move(*state, *config, intent_views(intents@), current@),
{
    let from: NodeId = match pick_shed_victim(state, intents, counters, current) {
        Some(from) => from,
        None => return None,
    };
    let to: NodeId = match pick_add_target(state, config, intents, counters, current, eligible) {
        Some(to) => to,
        None => return None,
    };
    let from_load: u128 = tally_of(&counters.load, from);
    let to_load: u128 = tally_of(&counters.load, to);
    if tally_of(&counters.touched, from) < config.max_plans_per_node as u128 && from_load >= 2
        && from_load - 2 >= to_load {
        Some((from, to))
    } else {
        None
    }
}

/// Computes rebalance intents from the current desired state.
///
/// A tablet with a live plan, or whose voter count is not the one that policy and
/// eligible nodes call for, is left alone. Of the others, one whose most loaded voter
/// holds at least two replicas more than the best eligible outsider moves that replica.
/// Outsiders in a failure domain that the tablet does not cover come first.
pub fn plan_rebalance(state: &ControlState, config: &PlannerConfig) -> (intents: Vec<
    MigrationIntent,
>)
    requires
        state.well_formed(),
    ensures
        intent_views(intents@) == rebalanced(*state, *config, state.placement_list().len()),
{
    let eligible: Vec<NodeId> = eligible_nodes(state);
    let mut intents: Vec<MigrationIntent> = Vec::new();
    let mut counters: Counters = Counters::start(state);
    let placements: &Vec<DesiredReplicaSet> = state.placements();
    let want: usize = if config.replication_factor <= eligible.len() {
        config.replication_factor
    } else {
        eligible.len()
    };
    proof {
        assert(intent_views(intents@) =~= Seq::empty());
    }
    let mut at: usize = 0;
    while at < placements.len()
        invariant
            at <= placements.len(),
            placements@ == state.placement_list(),
            state.well_formed(),
            eligible@ == active_nodes(state.node_list()),
            want == smaller(config.replication_factor as nat, eligible@.len()),
            counters.follow(*state, intent_views(intents@)),
            intent_views(intents@) == rebalanced(*state, *config, at as nat),
        decreases placements.len() - at,
    {
        let desired: &DesiredReplicaSet = &placements[at];
        if intents.len() < config.max_plans_per_round && state.live_plans_for(desired.tablet).len()
            == 0 && desired.replicas.len() == want {
            if let Some((from, to)) = pick_balance_move(
                state,
                config,
                &intents,
                &counters,
                &desired.replicas,
                &eligible,
            ) {
                let intent: MigrationIntent = MigrationIntent {
                    tablet: desired.tablet,
                    from,
                    to,
                    desired_voters: swap(&desired.replicas, from, to),
                };
                proof {
                    lemma_balance_move(
                        *state,
                        *config,
                        intent_views(intents@),
                        desired@.replicas,
                    );
                }
                counters.carry_out(state, &intents, &intent);
                let ghost before = intents@;
                intents.push(intent);
                proof {
                    assert(intent_views(intents@) =~= intent_views(before).push(intent@));
                }
            }
        }
        at = at + 1;
    }
    intents
}

/// Computes drain intents for `draining`: every tablet that desires it gets a
/// replacement. Tablets with a live plan are left alone.
pub fn plan_drain(state: &ControlState, draining: NodeId, config: &PlannerConfig) -> (intents: Vec<
    MigrationIntent,
>)
    requires
        state.well_formed(),
    ensures
        intent_views(intents@) == drained(
            *state,
            draining,
            *config,
            state.placement_list().len(),
        ),
{
    let eligible: Vec<NodeId> = leave_out(&eligible_nodes(state), draining);
    let mut intents: Vec<MigrationIntent> = Vec::new();
    let mut counters: Counters = Counters::start(state);
    let placements: &Vec<DesiredReplicaSet> = state.placements();
    proof {
        assert(intent_views(intents@) =~= Seq::empty());
    }
    let mut at: usize = 0;
    while at < placements.len()
        invariant
            at <= placements.len(),
            placements@ == state.placement_list(),
            state.well_formed(),
            eligible@ == without(active_nodes(state.node_list()), draining),
            counters.follow(*state, intent_views(intents@)),
            intent_views(intents@) == drained(*state, draining, *config, at as nat),
        decreases placements.len() - at,
    {
        let desired: &DesiredReplicaSet = &placements[at];
        if intents.len() < config.max_plans_per_round && desired.contains(draining)
            && state.live_plans_for(desired.tablet).len() == 0 && tally_of(
            &counters.touched,
            draining,
        ) < config.max_plans_per_node as u128 {
            if let Some(to) = pick_add_target(
                state,
                config,
                &intents,
                &counters,
                &desired.replicas,
                &eligible,
            ) {
                let intent: MigrationIntent = MigrationIntent {
                    tablet: desired.tablet,
                    from: draining,
                    to,
                    desired_voters: swap(&desired.replicas, draining, to),
                };
                proof {
                    lemma_best_target(
                        *state,
                        *config,
                        intent_views(intents@),
                        desired@.replicas,
                        eligible@,
                    );
                }
                counters.carry_out(state, &intents, &intent);
                let ghost before = intents@;
                intents.push(intent);
                proof {
                    assert(intent_views(intents@) =~= intent_views(before).push(intent@));
                }
            }
        }
        at = at + 1;
    }
    intents
}

/// The plans of `intents`, numbered from `first_id`; an intent that moves nothing gets
/// none.
pub open spec fn planned(
    intents: Seq<MigrationIntentView>,
    first_id: u64,
    generation: PlacementVersion,
) -> Seq<MigrationPlanView>
    decreases intents.len(),
{
    if intents.len() == 0 {
        Seq::empty()
    } else {
        let before = planned(intents.drop_last(), first_id, generation);
        let intent = intents.last();
        match MigrationPlanView::planned(
            MigrationPlanId((first_id + before.len()) as u64),
            intent.tablet,
            generation,
            intent.from,
            intent.to,
            intent.desired_voters,
        ) {
            Ok(plan) => before.push(plan),
            Err(_) => before,
        }
    }
}

/// The views of a list of plans.
pub open spec fn plan_views(plans: Seq<MigrationPlan>) -> Seq<MigrationPlanView> {
    Seq::new(plans.len(), |i: int| plans[i]@)
}

proof fn lemma_planned_len(
    intents: Seq<MigrationIntentView>,
    first_id: u64,
    generation: PlacementVersion,
)
    ensures
        planned(intents, first_id, generation).len() <= intents.len(),
    decreases intents.len(),
{
    if intents.len() > 0 {
        lemma_planned_len(intents.drop_last(), first_id, generation);
    }
}

/// Turns intents into migration plans at one placement generation.
pub fn intents_to_plans(
    intents: &Vec<MigrationIntent>,
    first_id: MigrationPlanId,
    generation: PlacementVersion,
) -> (plans: Vec<MigrationPlan>)
    requires
        first_id.0 + intents.len() <= u64::MAX,
    ensures
        plan_views(plans@) == planned(intent_views(intents@), first_id.0, generation),
{
    let ghost views = intent_views(intents@);
    let mut plans: Vec<MigrationPlan> = Vec::new();
    let mut at: usize = 0;
    proof {
        assert(views.take(0) =~= Seq::empty());
        assert(plan_views(plans@) =~= Seq::empty());
    }
    while at < intents.len()
        invariant
            at <= intents.len(),
            plans.len() <= at,
            first_id.0 + intents.len() <= u64::MAX,
            views == intent_views(intents@),
            plan_views(plans@) == planned(views.take(at as int), first_id.0, generation),
        decreases intents.len() - at,
    {
        let intent: &MigrationIntent = &intents[at];
        proof {
            assert(views.take(at + 1).drop_last() =~= views.take(at as int));
            assert(views.take(at + 1).last() == intent@);
        }
        if let Ok(plan) = MigrationPlan::new(
            MigrationPlanId::from_u64(first_id.as_u64() + plans.len() as u64),
            intent.tablet,
            generation,
            intent.from,
            intent.to,
            clone_nodes(&intent.desired_voters),
        ) {
            let ghost before = plans@;
            plans.push(plan);
            proof {
                assert(plan_views(plans@) =~= plan_views(before).push(plan@));
            }
        }
        at = at + 1;
    }
    proof {
        assert(views.take(at as int) =~= views);
    }
    plans
}

proof fn lemma_best_target(
    state: ControlState,
    config: PlannerConfig,
    intents: Seq<MigrationIntentView>,
    current: Seq<NodeId>,
    candidates: Seq<NodeId>,
)
    ensures
        best_target(state, config, intents, current, candidates) matches Some(to) ==> {
            &&& candidates.contains(to)
            &&& may_join(state, config, intents, current, to)
            &&& forall|i: int|
                0 <= i < candidates.len() && may_join(
                    state,
                    config,
                    intents,
                    current,
                    #[trigger] candidates[i],
                ) ==> !better_target(state, intents, current, candidates[i], to)
        },
        best_target(state, config, intents, current, candidates) is None ==> forall|i: int|
            0 <= i < candidates.len() ==> !may_join(
                state,
                config,
                intents,
                current,
                #[trigger] candidates[i],
            ),
    decreases candidates.len(),
{
    if candidates.len() > 0 {
        let front = candidates.drop_last();
        lemma_best_target(state, config, intents, current, front);
        let last = candidates.len() - 1;
        assert forall|i: int| 0 <= i < last implies candidates[i] == front[i] by {}
        match best_target(state, config, intents, current, candidates) {
            Some(to) => {
                if to == candidates.last() && best_target(state, config, intents, current, front)
                    != Some(to) {
                    assert(candidates[last] == to);
                } else {
                    let k = choose|k: int| 0 <= k < front.len() && front[k] == to;
                    assert(candidates[k] == to);
                }
                assert forall|i: int|
                    0 <= i < candidates.len() && may_join(
                        state,
                        config,
                        intents,
                        current,
                        #[trigger] candidates[i],
                    ) implies !better_target(state, intents, current, candidates[i], to) by {
                    if i < last {
                        assert(front[i] == candidates[i]);
                    }
                }
            },
            None => {
                assert forall|i: int| 0 <= i < candidates.len() implies !may_join(
                    state,
                    config,
                    intents,
                    current,
                    #[trigger] candidates[i],
                ) by {
                    if i < last {
                        assert(front[i] == candidates[i]);
                    }
                }
            },
        }
    }
}

proof fn lemma_shed_victim(
    state: ControlState,
    intents: Seq<MigrationIntentView>,
    current: Seq<NodeId>,
)
    ensures
        shed_victim(state, intents, current) matches Some(from) ==> current.contains(from)
            && forall|i: int|
            0 <= i < current.len() ==> load(state, intents, (#[trigger] current[i]).0) <= load(
                state,
                intents,
                from.0,
            ),
        shed_victim(state, intents, current) is None ==> current.len() == 0,
    decreases current.len(),
{
    if current.len() > 0 {
        let front = current.drop_last();
        lemma_shed_victim(state, intents, front);
        let from = shed_victim(state, intents, current)->0;
        if from != current.last() {
            let k = choose|k: int| 0 <= k < front.len() && front[k] == from;
            assert(current[k] == from);
        } else {
            assert(current[current.len() - 1] == from);
        }
        assert forall|i: int| 0 <= i < current.len() implies load(
            state,
            intents,
            (#[trigger] current[i]).0,
        ) <= load(state, intents, from.0) by {
            if i < front.len() {
                assert(front[i] == current[i]);
            }
        }
    }
}

proof fn lemma_balance_move(
    state: ControlState,
    config: PlannerConfig,
    intents: Seq<MigrationIntentView>,
    current: Seq<NodeId>,
)
    ensures
        balance_move(state, config, intents, current) matches Some((from, to)) ==> {
            &&& current.contains(from)
            &&& !current.contains(to)
            &&& from != to
            &&& active_nodes(state.node_list()).contains(to)
            &&& touches(state, intents, from.0) < config.max_plans_per_node
            &&& touches(state, intents, to.0) < config.max_plans_per_node
        },
{
    lemma_shed_victim(state, intents, current);
    lemma_best_target(state, config, intents, current, active_nodes(state.node_list()));
}

proof fn lemma_without(nodes: Seq<NodeId>, node: NodeId)
    ensures
        !without(nodes, node).contains(node),
        forall|n: NodeId|
            n != node ==> (#[trigger] without(nodes, node).contains(n) <==> nodes.contains(n)),
    decreases nodes.len(),
{
    if nodes.len() > 0 {
        let front = nodes.drop_last();
        let inner = without(front, node);
        lemma_without(front, node);
        assert(nodes =~= front.push(nodes.last()));
        assert forall|n: NodeId| n != node implies (#[trigger] without(nodes, node).contains(n)
            <==> nodes.contains(n)) by {
            vstd::seq_lib::lemma_seq_contains_after_push(front, nodes.last(), n);
            vstd::seq_lib::lemma_seq_contains_after_push(inner, nodes.last(), n);
            assert(inner.contains(n) <==> front.contains(n));
        }
        vstd::seq_lib::lemma_seq_contains_after_push(inner, nodes.last(), node);
    }
}

/// The voters after a swap: the leaving one is out, the joining one is in, and every
/// other one stays.
pub proof fn law_swap_replaces_one_voter(current: Seq<NodeId>, from: NodeId, to: NodeId)
    requires
        from != to,
    ensures
        ascending(swapped(current, from, to)),
        swapped(current, from, to).contains(to),
        !swapped(current, from, to).contains(from),
        forall|n: NodeId|
            n != from && n != to ==> (#[trigger] swapped(current, from, to).contains(n)
                <==> current.contains(n)),
{
    let rest = without(current, from);
    let all = rest.push(to);
    lemma_without(current, from);
    lemma_canonical(all);
    vstd::seq_lib::lemma_seq_contains_after_push(rest, to, to);
    vstd::seq_lib::lemma_seq_contains_after_push(rest, to, from);
    assert forall|n: NodeId| n != from && n != to implies (#[trigger] swapped(
        current,
        from,
        to,
    ).contains(n) <==> current.contains(n)) by {
        vstd::seq_lib::lemma_seq_contains_after_push(rest, to, n);
        assert(rest.contains(n) <==> current.contains(n));
    }
}

/// What every rebalance intent satisfies.
pub open spec fn sound_move(state: ControlState, intent: MigrationIntentView) -> bool {
    &&& state.desired_of(intent.tablet) is Some
    &&& !state.moving(intent.tablet)
    &&& state.desired_of(intent.tablet)->0@.replicas.contains(intent.from)
    &&& !state.desired_of(intent.tablet)->0@.replicas.contains(intent.to)
    &&& active_nodes(state.node_list()).contains(intent.to)
    &&& intent.desired_voters == swapped(
        state.desired_of(intent.tablet)->0@.replicas,
        intent.from,
        intent.to,
    )
}

/// Every rebalance intent is a sound move: it takes a voter of a tablet without a live
/// plan and gives its place to an active node that is no voter yet.
pub proof fn law_rebalance_moves_are_sound(
    state: ControlState,
    config: PlannerConfig,
    n: nat,
    i: int,
)
    requires
        state.well_formed(),
        n <= state.placement_list().len(),
        0 <= i < rebalanced(state, config, n).len(),
    ensures
        sound_move(state, rebalanced(state, config, n)[i]),
    decreases n,
{
    if n > 0 {
        let before = rebalanced(state, config, (n - 1) as nat);
        if i < before.len() {
            law_rebalance_moves_are_sound(state, config, (n - 1) as nat, i);
        } else {
            let desired = state.placement_list()[n - 1];
            lemma_balance_move(state, config, before, desired@.replicas);
            lemma_lookup_at(state.placement_list(), n - 1);
        }
    }
}

/// Every drain intent is a sound move away from the draining node, which none of them
/// names as a target or as a later voter.
pub proof fn law_drain_moves_are_sound(
    state: ControlState,
    draining: NodeId,
    config: PlannerConfig,
    n: nat,
    i: int,
)
    requires
        state.well_formed(),
        n <= state.placement_list().len(),
        0 <= i < drained(state, draining, config, n).len(),
    ensures
        sound_move(state, drained(state, draining, config, n)[i]),
        drained(state, draining, config, n)[i].from == draining,
        drained(state, draining, config, n)[i].to != draining,
        !drained(state, draining, config, n)[i].desired_voters.contains(draining),
    decreases n,
{
    if n > 0 {
        let before = drained(state, draining, config, (n - 1) as nat);
        if i < before.len() {
            law_drain_moves_are_sound(state, draining, config, (n - 1) as nat, i);
        } else {
            let desired = state.placement_list()[n - 1];
            let eligible = without(active_nodes(state.node_list()), draining);
            lemma_best_target(state, config, before, desired@.replicas, eligible);
            lemma_without(active_nodes(state.node_list()), draining);
            lemma_lookup_at(state.placement_list(), n - 1);
            let to = drained(state, draining, config, n)[i].to;
            law_swap_replaces_one_voter(desired@.replicas, draining, to);
        }
    }
}

/// A round never makes more plans than its bound, and never touches a node beyond the
/// bound for nodes, unless live plans already did.
pub proof fn law_rebalance_is_bounded(state: ControlState, config: PlannerConfig, n: nat, node: u64)
    requires
        n <= state.placement_list().len(),
    ensures
        rebalanced(state, config, n).len() <= config.max_plans_per_round,
        touches(state, rebalanced(state, config, n), node) <= config.max_plans_per_node
            || touches(state, rebalanced(state, config, n), node) == touched_by_plans(
            state.migration_list(),
            node,
        ),
    decreases n,
{
    if n > 0 {
        law_rebalance_is_bounded(state, config, (n - 1) as nat, node);
        let before = rebalanced(state, config, (n - 1) as nat);
        let after = rebalanced(state, config, n);
        if after != before {
            lemma_balance_move(
                state,
                config,
                before,
                state.placement_list()[n - 1]@.replicas,
            );
            assert(after.drop_last() =~= before);
        }
    }
}

/// A drain respects the same bounds.
pub proof fn law_drain_is_bounded(
    state: ControlState,
    draining: NodeId,
    config: PlannerConfig,
    n: nat,
    node: u64,
)
    requires
        n <= state.placement_list().len(),
    ensures
        drained(state, draining, config, n).len() <= config.max_plans_per_round,
        touches(state, drained(state, draining, config, n), node) <= config.max_plans_per_node
            || touches(state, drained(state, draining, config, n), node) == touched_by_plans(
            state.migration_list(),
            node,
        ),
    decreases n,
{
    if n > 0 {
        law_drain_is_bounded(state, draining, config, (n - 1) as nat, node);
        let before = drained(state, draining, config, (n - 1) as nat);
        let after = drained(state, draining, config, n);
        if after != before {
            lemma_best_target(
                state,
                config,
                before,
                state.placement_list()[n - 1]@.replicas,
                without(active_nodes(state.node_list()), draining),
            );
            assert(after.drop_last() =~= before);
        }
    }
}

/// A balanced cluster does not move: where no voter holds two replicas more than an
/// active outsider, there are no intents.
pub proof fn law_balanced_cluster_stays(state: ControlState, config: PlannerConfig, n: nat)
    requires
        n <= state.placement_list().len(),
        forall|i: int, v: NodeId, o: NodeId|
            0 <= i < state.placement_list().len()
                && #[trigger] state.placement_list()[i]@.replicas.contains(v)
                && #[trigger] active_nodes(state.node_list()).contains(o)
                && !state.placement_list()[i]@.replicas.contains(o) ==> named_in(
                state.placement_list(),
                v.0,
            ) < named_in(state.placement_list(), o.0) + 2,
    ensures
        rebalanced(state, config, n).len() == 0,
    decreases n,
{
    if n > 0 {
        law_balanced_cluster_stays(state, config, (n - 1) as nat);
        let before = rebalanced(state, config, (n - 1) as nat);
        assert(before =~= Seq::empty());
        let current = state.placement_list()[n - 1]@.replicas;
        lemma_balance_move(state, config, before, current);
        if let Some((from, to)) = balance_move(state, config, before, current) {
            assert(state.placement_list()[n - 1]@.replicas.contains(from));
            assert(active_nodes(state.node_list()).contains(to));
        }
    }
}

/// Plans are numbered without gaps from the first identity, and each is well formed, in
/// its first phase and of the given generation.
pub proof fn law_plans_are_numbered(
    intents: Seq<MigrationIntentView>,
    first_id: u64,
    generation: PlacementVersion,
    i: int,
)
    requires
        first_id + intents.len() <= u64::MAX,
        0 <= i < planned(intents, first_id, generation).len(),
    ensures
        planned(intents, first_id, generation)[i].id.0 == first_id + i,
        planned(intents, first_id, generation)[i].generation == generation,
        planned(intents, first_id, generation)[i].well_formed(),
        planned(intents, first_id, generation)[i].phase is Planned,
    decreases intents.len(),
{
    if intents.len() > 0 {
        let front = intents.drop_last();
        let before = planned(front, first_id, generation);
        lemma_planned_len(front, first_id, generation);
        if i < before.len() {
            law_plans_are_numbered(front, first_id, generation, i);
        } else {
            lemma_canonical(intents.last().desired_voters);
        }
    }
}

/// The best target is better than every candidate before it that may join.
proof fn lemma_first_best_target(
    state: ControlState,
    config: PlannerConfig,
    intents: Seq<MigrationIntentView>,
    current: Seq<NodeId>,
    candidates: Seq<NodeId>,
)
    requires
        best_target(state, config, intents, current, candidates) is Some,
    ensures
        exists|k: int|
            0 <= k < candidates.len() && best_target(
                state,
                config,
                intents,
                current,
                candidates,
            ) == Some(#[trigger] candidates[k]) && forall|i: int|
                0 <= i < k && may_join(
                    state,
                    config,
                    intents,
                    current,
                    #[trigger] candidates[i],
                ) ==> better_target(state, intents, current, candidates[k], candidates[i]),
    decreases candidates.len(),
{
    let front = candidates.drop_last();
    let last = candidates.len() - 1;
    let before = best_target(state, config, intents, current, front);
    assert forall|i: int| 0 <= i < last implies candidates[i] == front[i] by {}
    if before is Some && best_target(state, config, intents, current, candidates) == before {
        lemma_first_best_target(state, config, intents, current, front);
        let k = choose|k: int|
            0 <= k < front.len() && before == Some(#[trigger] front[k]) && forall|i: int|
                0 <= i < k && may_join(
                    state,
                    config,
                    intents,
                    current,
                    #[trigger] front[i],
                ) ==> better_target(state, intents, current, front[k], front[i]);
        assert(candidates[k] == front[k]);
        assert forall|i: int|
            0 <= i < k && may_join(
                state,
                config,
                intents,
                current,
                #[trigger] candidates[i],
            ) implies better_target(state, intents, current, candidates[k], candidates[i]) by {
            assert(front[i] == candidates[i]);
        }
    } else {
        lemma_best_target(state, config, intents, current, front);
        assert(candidates[last] == candidates.last());
        assert forall|i: int|
            0 <= i < last && may_join(
                state,
                config,
                intents,
                current,
                #[trigger] candidates[i],
            ) implies better_target(state, intents, current, candidates[last], candidates[i]) by {
            assert(front[i] == candidates[i]);
        }
    }
}

proof fn lemma_active_ascend(records: Seq<NodeRecord>)
    requires
        in_order(records),
    ensures
        ascending(active_nodes(records)),
    decreases records.len(),
{
    if records.len() > 0 {
        let front = records.drop_last();
        assert forall|i: int, j: int| 0 <= i < j < front.len() implies (#[trigger] front[i]).index()
            < (#[trigger] front[j]).index() by {
            assert(front[i] == records[i] && front[j] == records[j]);
        }
        lemma_active_ascend(front);
        let nodes = active_nodes(front);
        assert forall|i: int| 0 <= i < nodes.len() implies (#[trigger] nodes[i]).key()
            < records.last().node.key() by {
            law_active_nodes_are_recorded(front, nodes[i]);
            assert(nodes.contains(nodes[i]));
            let k = choose|k: int|
                0 <= k < front.len() && (#[trigger] front[k]).node == nodes[i]
                    && front[k].state is Active;
            assert(records[k].index() < records[records.len() - 1].index());
        }
    }
}

proof fn lemma_without_ascends(nodes: Seq<NodeId>, node: NodeId)
    requires
        ascending(nodes),
    ensures
        ascending(without(nodes, node)),
    decreases nodes.len(),
{
    if nodes.len() > 0 {
        let front = nodes.drop_last();
        assert forall|i: int, j: int| 0 <= i < j < front.len() implies #[trigger] front[i].key()
            < #[trigger] front[j].key() by {
            assert(front[i] == nodes[i] && front[j] == nodes[j]);
        }
        lemma_without_ascends(front, node);
        lemma_without(front, node);
        let rest = without(front, node);
        assert forall|i: int| 0 <= i < rest.len() implies (#[trigger] rest[i]).key()
            < nodes.last().key() by {
            assert(rest.contains(rest[i]));
            assert(front.contains(rest[i]));
            let k = choose|k: int| 0 <= k < front.len() && front[k] == rest[i];
            assert(nodes[k].key() < nodes[nodes.len() - 1].key());
        }
    }
}

proof fn lemma_ties_go_to_the_lowest(
    state: ControlState,
    config: PlannerConfig,
    intents: Seq<MigrationIntentView>,
    current: Seq<NodeId>,
    candidates: Seq<NodeId>,
    other: NodeId,
)
    requires
        ascending(candidates),
        candidates.contains(other),
        may_join(state, config, intents, current, other),
        best_target(state, config, intents, current, candidates) is Some,
    ensures
        ({
            let to = best_target(state, config, intents, current, candidates)->0;
            &&& !better_target(state, intents, current, other, to)
            &&& better_target(state, intents, current, to, other) || to.0 <= other.0
        }),
{
    let to = best_target(state, config, intents, current, candidates)->0;
    lemma_best_target(state, config, intents, current, candidates);
    lemma_first_best_target(state, config, intents, current, candidates);
    let o = choose|o: int| 0 <= o < candidates.len() && candidates[o] == other;
    assert(candidates[o] == other);
    let k = choose|k: int|
        0 <= k < candidates.len() && Some(to) == Some(#[trigger] candidates[k]) && forall|i: int|
            0 <= i < k && may_join(
                state,
                config,
                intents,
                current,
                #[trigger] candidates[i],
            ) ==> better_target(state, intents, current, candidates[k], candidates[i]);
    if o > k {
        assert(candidates[k].key() < candidates[o].key());
    }
}

/// Whether `other` could have taken the place that `intent` gives away, after `earlier`:
/// an active node that is no voter of the tablet and is below its bound of plans.
pub open spec fn could_join(
    state: ControlState,
    config: PlannerConfig,
    earlier: Seq<MigrationIntentView>,
    intent: MigrationIntentView,
    other: NodeId,
) -> bool {
    &&& active_nodes(state.node_list()).contains(other)
    &&& !state.desired_of(intent.tablet)->0@.replicas.contains(other)
    &&& touches(state, earlier, other.0) < config.max_plans_per_node
}

/// A rebalance moves each replica to the emptiest of its alternatives: an active node
/// that could have joined in place of the target stands in a fresh domain only if the
/// target does, and where the two are equally fresh the target held no more replicas at
/// that moment; among equals it is the one of the lowest identity. The replica leaves a
/// voter that held the most, and at least two more
/// than the target.
pub proof fn law_rebalance_targets_are_the_least_loaded(
    state: ControlState,
    config: PlannerConfig,
    n: nat,
    i: int,
    other: NodeId,
)
    requires
        state.well_formed(),
        n <= state.placement_list().len(),
        0 <= i < rebalanced(state, config, n).len(),
    ensures
        ({
            let intent = rebalanced(state, config, n)[i];
            let earlier = rebalanced(state, config, n).take(i);
            let voters = state.desired_of(intent.tablet)->0@.replicas;
            &&& could_join(state, config, earlier, intent, intent.to)
            &&& could_join(state, config, earlier, intent, other) ==> {
                &&& fresh_domain(state, voters, other) ==> fresh_domain(state, voters, intent.to)
                &&& fresh_domain(state, voters, other) == fresh_domain(state, voters, intent.to)
                    ==> load(state, earlier, intent.to.0) <= load(state, earlier, other.0)
                &&& fresh_domain(state, voters, other) == fresh_domain(state, voters, intent.to)
                    && load(state, earlier, intent.to.0) == load(state, earlier, other.0)
                    ==> intent.to.0 <= other.0
            }
            &&& voters.contains(other) ==> load(state, earlier, other.0) <= load(
                state,
                earlier,
                intent.from.0,
            )
            &&& load(state, earlier, intent.from.0) >= load(state, earlier, intent.to.0) + 2
        }),
    decreases n,
{
    if n > 0 {
        let before = rebalanced(state, config, (n - 1) as nat);
        let after = rebalanced(state, config, n);
        if i < before.len() {
            law_rebalance_targets_are_the_least_loaded(state, config, (n - 1) as nat, i, other);
            assert(after.take(i) =~= before.take(i));
        } else {
            let desired = state.placement_list()[n - 1];
            let voters = desired@.replicas;
            let active = active_nodes(state.node_list());
            assert(after.take(i) =~= before);
            lemma_lookup_at(state.placement_list(), n - 1);
            lemma_balance_move(state, config, before, voters);
            lemma_shed_victim(state, before, voters);
            lemma_best_target(state, config, before, voters, active);
            lemma_active_ascend(state.node_list());
            if active.contains(other) && may_join(state, config, before, voters, other) {
                lemma_ties_go_to_the_lowest(state, config, before, voters, active, other);
            }
            if voters.contains(other) {
                let k = choose|k: int| 0 <= k < voters.len() && voters[k] == other;
                assert(voters[k] == other);
            }
        }
    }
}

/// A drain moves each replica to the emptiest of its alternatives, in the same sense.
pub proof fn law_drain_targets_are_the_least_loaded(
    state: ControlState,
    draining: NodeId,
    config: PlannerConfig,
    n: nat,
    i: int,
    other: NodeId,
)
    requires
        state.well_formed(),
        n <= state.placement_list().len(),
        0 <= i < drained(state, draining, config, n).len(),
    ensures
        ({
            let intent = drained(state, draining, config, n)[i];
            let earlier = drained(state, draining, config, n).take(i);
            let voters = state.desired_of(intent.tablet)->0@.replicas;
            &&& could_join(state, config, earlier, intent, intent.to)
            &&& could_join(state, config, earlier, intent, other) ==> {
                &&& fresh_domain(state, voters, other) ==> fresh_domain(state, voters, intent.to)
                &&& fresh_domain(state, voters, other) == fresh_domain(state, voters, intent.to)
                    ==> load(state, earlier, intent.to.0) <= load(state, earlier, other.0)
                &&& fresh_domain(state, voters, other) == fresh_domain(state, voters, intent.to)
                    && load(state, earlier, intent.to.0) == load(state, earlier, other.0)
                    ==> intent.to.0 <= other.0
            }
        }),
    decreases n,
{
    if n > 0 {
        let before = drained(state, draining, config, (n - 1) as nat);
        let after = drained(state, draining, config, n);
        if i < before.len() {
            law_drain_targets_are_the_least_loaded(
                state,
                draining,
                config,
                (n - 1) as nat,
                i,
                other,
            );
            assert(after.take(i) =~= before.take(i));
        } else {
            let voters = state.placement_list()[n - 1]@.replicas;
            let active = active_nodes(state.node_list());
            let eligible = without(active, draining);
            assert(after.take(i) =~= before);
            lemma_lookup_at(state.placement_list(), n - 1);
            lemma_without(active, draining);
            lemma_best_target(state, config, before, voters, eligible);
            lemma_active_ascend(state.node_list());
            lemma_without_ascends(active, draining);
            if eligible.contains(other) && may_join(state, config, before, voters, other) {
                lemma_ties_go_to_the_lowest(state, config, before, voters, eligible, other);
            }
        }
    }
}

/// A drain leaves no replica behind that it could have moved: where a placement names the
/// draining node, its tablet has no live plan, and neither the round nor the node is at
/// its bound, there is an intent for the tablet, unless no other active node could join.
pub proof fn law_drain_moves_what_it_can(
    state: ControlState,
    draining: NodeId,
    config: PlannerConfig,
    at: int,
    n: nat,
    other: NodeId,
)
    requires
        state.well_formed(),
        0 <= at < n <= state.placement_list().len(),
        state.placement_list()[at]@.replicas.contains(draining),
        !state.moving(state.placement_list()[at].tablet),
        drained(state, draining, config, at as nat).len() < config.max_plans_per_round,
        touches(state, drained(state, draining, config, at as nat), draining.0)
            < config.max_plans_per_node,
        other != draining,
        active_nodes(state.node_list()).contains(other),
        !state.placement_list()[at]@.replicas.contains(other),
        touches(state, drained(state, draining, config, at as nat), other.0)
            < config.max_plans_per_node,
    ensures
        exists|i: int|
            0 <= i < drained(state, draining, config, n).len() && (#[trigger] drained(
                state,
                draining,
                config,
                n,
            )[i]).tablet == state.placement_list()[at].tablet,
    decreases n,
{
    let before = drained(state, draining, config, (n - 1) as nat);
    let after = drained(state, draining, config, n);
    let tablet = state.placement_list()[at].tablet;
    if at < n - 1 {
        law_drain_moves_what_it_can(state, draining, config, at, (n - 1) as nat, other);
        let i = choose|i: int| 0 <= i < before.len() && (#[trigger] before[i]).tablet == tablet;
        assert(after[i].tablet == tablet);
    } else {
        let voters = state.placement_list()[at]@.replicas;
        let active = active_nodes(state.node_list());
        let eligible = without(active, draining);
        lemma_without(active, draining);
        lemma_best_target(state, config, before, voters, eligible);
        assert(eligible.contains(other));
        let k = choose|k: int| 0 <= k < eligible.len() && eligible[k] == other;
        assert(may_join(state, config, before, voters, eligible[k]));
        assert(after[before.len() as int].tablet == tablet);
    }
}

/// A rebalance does not overlook a gap: where a tablet of full strength has no live plan,
/// the round is below its bound, some voter holds two replicas more than an active
/// outsider, no voter is at its bound of plans, and no outsider is barred or differs in
/// how fresh its domain is, the tablet is moved.
pub proof fn law_rebalance_closes_gaps(
    state: ControlState,
    config: PlannerConfig,
    n: nat,
    voter: NodeId,
    other: NodeId,
)
    requires
        state.well_formed(),
        0 < n <= state.placement_list().len(),
        ({
            let before = rebalanced(state, config, (n - 1) as nat);
            let desired = state.placement_list()[n - 1];
            let voters = desired@.replicas;
            let active = active_nodes(state.node_list());
            &&& before.len() < config.max_plans_per_round
            &&& !state.moving(desired.tablet)
            &&& voters.len() == config.replication_factor
            &&& config.replication_factor <= active.len()
            &&& voters.contains(voter)
            &&& active.contains(other)
            &&& !voters.contains(other)
            &&& load(state, before, voter.0) >= load(state, before, other.0) + 2
            &&& forall|i: int|
                0 <= i < voters.len() ==> touches(state, before, (#[trigger] voters[i]).0)
                    < config.max_plans_per_node
            &&& touches(state, before, other.0) < config.max_plans_per_node
            &&& forall|i: int|
                0 <= i < active.len() ==> fresh_domain(state, voters, #[trigger] active[i])
                    == fresh_domain(state, voters, other)
        }),
    ensures
        rebalanced(state, config, n).len() == rebalanced(state, config, (n - 1) as nat).len() + 1,
        rebalanced(state, config, n).last().tablet == state.placement_list()[n - 1].tablet,
{
    let before = rebalanced(state, config, (n - 1) as nat);
    let voters = state.placement_list()[n - 1]@.replicas;
    let active = active_nodes(state.node_list());
    lemma_shed_victim(state, before, voters);
    lemma_best_target(state, config, before, voters, active);
    let v = choose|v: int| 0 <= v < voters.len() && voters[v] == voter;
    assert(voters[v] == voter);
    let k = choose|k: int| 0 <= k < active.len() && active[k] == other;
    assert(may_join(state, config, before, voters, active[k]));
    let from = shed_victim(state, before, voters)->0;
    let f = choose|f: int| 0 <= f < voters.len() && voters[f] == from;
    assert(voters[f] == from);
    let to = best_target(state, config, before, voters, active)->0;
    let t = choose|t: int| 0 <= t < active.len() && active[t] == to;
    assert(active[t] == to);
}

/// Every active node of the cluster can be a target, and no other: the active nodes are
/// those that some record names as active.
pub proof fn law_active_nodes_are_recorded(records: Seq<NodeRecord>, node: NodeId)
    ensures
        active_nodes(records).contains(node) <==> exists|i: int|
            0 <= i < records.len() && (#[trigger] records[i]).node == node
                && records[i].state is Active,
    decreases records.len(),
{
    if records.len() > 0 {
        let front = records.drop_last();
        let last = records.len() - 1;
        law_active_nodes_are_recorded(front, node);
        vstd::seq_lib::lemma_seq_contains_after_push(
            active_nodes(front),
            records.last().node,
            node,
        );
        if active_nodes(front).contains(node) {
            let i = choose|i: int|
                0 <= i < front.len() && (#[trigger] front[i]).node == node
                    && front[i].state is Active;
            assert(records[i] == front[i]);
        }
        if exists|i: int|
            0 <= i < records.len() && (#[trigger] records[i]).node == node
                && records[i].state is Active {
            let i = choose|i: int|
                0 <= i < records.len() && (#[trigger] records[i]).node == node
                    && records[i].state is Active;
            if i < last {
                assert(front[i] == records[i]);
            } else {
                assert(records.last() == records[i]);
            }
        }
    }
}

/// A node holds as many replicas as placements name it, before any move.
pub proof fn law_load_counts_placements(state: ControlState, node: u64)
    ensures
        load(state, Seq::empty(), node) == state.placement_list().filter(
            |desired: DesiredReplicaSet| desired@.replicas.contains(NodeId(node)),
        ).len(),
{
    lemma_named_is_filtered(state.placement_list(), node);
}

proof fn lemma_named_is_filtered(placements: Seq<DesiredReplicaSet>, node: u64)
    ensures
        named_in(placements, node) == placements.filter(
            |desired: DesiredReplicaSet| desired@.replicas.contains(NodeId(node)),
        ).len(),
    decreases placements.len(),
{
    reveal(Seq::filter);
    if placements.len() > 0 {
        lemma_named_is_filtered(placements.drop_last(), node);
    }
}

/// A move takes one replica from its source, gives one to its target and leaves every
/// other node's count alone; both ends are touched once more.
pub proof fn law_a_move_carries_one_replica(
    state: ControlState,
    intents: Seq<MigrationIntentView>,
    intent: MigrationIntentView,
    node: u64,
)
    requires
        intent.from != intent.to,
        load(state, intents, intent.from.0) > 0,
    ensures
        load(state, intents.push(intent), intent.to.0) == load(state, intents, intent.to.0) + 1,
        load(state, intents.push(intent), intent.from.0) == load(state, intents, intent.from.0)
            - 1,
        touches(state, intents.push(intent), intent.to.0) == touches(
            state,
            intents,
            intent.to.0,
        ) + 1,
        touches(state, intents.push(intent), intent.from.0) == touches(
            state,
            intents,
            intent.from.0,
        ) + 1,
        node != intent.from.0 && node != intent.to.0 ==> load(state, intents.push(intent), node)
            == load(state, intents, node) && touches(state, intents.push(intent), node)
            == touches(state, intents, node),
{
    assert(intents.push(intent).drop_last() =~= intents);
}

/// Before any move a node is touched by the live plans that leave it or reach it, and by
/// no plan that is over.
pub proof fn law_touches_count_live_plans(state: ControlState, node: u64)
    ensures
        touches(state, Seq::empty(), node) == state.migration_list().filter(
            |plan: MigrationPlan|
                !(plan.phase is Completed) && !(plan.phase is Failed) && (plan.from == NodeId(
                    node,
                ) || plan.to == NodeId(node)),
        ).len(),
{
    lemma_touched_is_filtered(state.migration_list(), node);
}

proof fn lemma_touched_is_filtered(plans: Seq<MigrationPlan>, node: u64)
    ensures
        touched_by_plans(plans, node) == plans.filter(
            |plan: MigrationPlan|
                !(plan.phase is Completed) && !(plan.phase is Failed) && (plan.from == NodeId(
                    node,
                ) || plan.to == NodeId(node)),
        ).len(),
    decreases plans.len(),
{
    reveal(Seq::filter);
    if plans.len() > 0 {
        lemma_touched_is_filtered(plans.drop_last(), node);
        assert(plans.last().from == NodeId(plans.last().from.0));
        assert(plans.last().to == NodeId(plans.last().to.0));
    }
}

/// A domain is fresh until one of its nodes votes, and nodes of one domain are equally
/// fresh; a node without a domain, or without a record, is never fresh.
pub proof fn law_domains_are_fresh_once(
    state: ControlState,
    current: Seq<NodeId>,
    candidate: NodeId,
    other: NodeId,
)
    ensures
        state.node_of(candidate) is None ==> !fresh_domain(state, current, candidate),
        state.node_of(candidate) matches Some(record) ==> {
            &&& record.failure_domain@.len() == 0 ==> !fresh_domain(state, current, candidate)
            &&& record.failure_domain@.len() > 0 ==> fresh_domain(
                state,
                Seq::empty(),
                candidate,
            )
            &&& state.node_of(other) matches Some(holder) ==> {
                &&& holder.failure_domain@ == record.failure_domain@ ==> !fresh_domain(
                    state,
                    current.push(other),
                    candidate,
                ) && fresh_domain(state, current, candidate) == fresh_domain(
                    state,
                    current,
                    other,
                )
                &&& holder.failure_domain@ != record.failure_domain@ ==> fresh_domain(
                    state,
                    current.push(other),
                    candidate,
                ) == fresh_domain(state, current, candidate)
            }
        },
        state.node_of(other) is None ==> fresh_domain(state, current.push(other), candidate)
            == fresh_domain(state, current, candidate),
{
    let more = current.push(other);
    assert(more[current.len() as int] == other);
    assert forall|i: int| 0 <= i < current.len() implies more[i] == current[i] by {}
    if let Some(record) = state.node_of(candidate) {
        if fresh_domain(state, more, candidate) {
            assert forall|i: int| 0 <= i < current.len() implies !(state.node_of(
                #[trigger] current[i],
            ) matches Some(holder) && holder.failure_domain@ == record.failure_domain@) by {
                assert(more[i] == current[i]);
            }
        }
    }
}

/// An intent becomes a plan that carries the same move.
pub proof fn law_plans_carry_their_intents(
    intents: Seq<MigrationIntentView>,
    first_id: u64,
    generation: PlacementVersion,
)
    requires
        first_id + intents.len() <= u64::MAX,
        forall|i: int|
            0 <= i < intents.len() ==> (#[trigger] intents[i]).from != intents[i].to
                && ascending(intents[i].desired_voters),
    ensures
        planned(intents, first_id, generation).len() == intents.len(),
        forall|i: int|
            0 <= i < intents.len() ==> {
                let plan = #[trigger] planned(intents, first_id, generation)[i];
                &&& plan.tablet == intents[i].tablet
                &&& plan.from == intents[i].from
                &&& plan.to == intents[i].to
                &&& plan.desired_voters == intents[i].desired_voters
            },
    decreases intents.len(),
{
    if intents.len() > 0 {
        let front = intents.drop_last();
        assert forall|i: int| 0 <= i < front.len() implies front[i] == intents[i] by {}
        law_plans_carry_their_intents(front, first_id, generation);
        assert(intents[intents.len() - 1] == intents.last());
        lemma_canonical_fixed(intents.last().desired_voters);
    }
}

/// A rebalance leaves a tablet alone that is not at full strength: every tablet that it
/// moves has as many voters as the replication factor asks for, or as there are active
/// nodes where those are fewer.
pub proof fn law_rebalance_moves_full_tablets(
    state: ControlState,
    config: PlannerConfig,
    n: nat,
    i: int,
)
    requires
        state.well_formed(),
        n <= state.placement_list().len(),
        0 <= i < rebalanced(state, config, n).len(),
    ensures
        ({
            let voters = state.desired_of(rebalanced(state, config, n)[i].tablet)->0@.replicas;
            let active = active_nodes(state.node_list()).len();
            &&& voters.len() <= config.replication_factor
            &&& voters.len() <= active
            &&& voters.len() == config.replication_factor || voters.len() == active
        }),
    decreases n,
{
    if n > 0 {
        let before = rebalanced(state, config, (n - 1) as nat);
        if i < before.len() {
            law_rebalance_moves_full_tablets(state, config, (n - 1) as nat, i);
        } else {
            lemma_lookup_at(state.placement_list(), n - 1);
        }
    }
}

/// A round considers every placement once: no two of its intents are for one tablet, and
/// they come in the order of the tablets.
pub proof fn law_rounds_move_a_tablet_once(
    state: ControlState,
    draining: NodeId,
    config: PlannerConfig,
    n: nat,
    i: int,
    j: int,
)
    requires
        state.well_formed(),
        n <= state.placement_list().len(),
    ensures
        0 <= i < j < rebalanced(state, config, n).len() ==> rebalanced(
            state,
            config,
            n,
        )[i].tablet.0 < rebalanced(state, config, n)[j].tablet.0,
        0 <= i < j < drained(state, draining, config, n).len() ==> drained(
            state,
            draining,
            config,
            n,
        )[i].tablet.0 < drained(state, draining, config, n)[j].tablet.0,
    decreases n,
{
    if n > 0 {
        let m = (n - 1) as nat;
        law_rounds_move_a_tablet_once(state, draining, config, m, i, j);
        lemma_intents_are_considered(state, draining, config, m, i);
    }
}

proof fn lemma_intents_are_considered(
    state: ControlState,
    draining: NodeId,
    config: PlannerConfig,
    n: nat,
    i: int,
)
    requires
        state.well_formed(),
        n < state.placement_list().len(),
    ensures
        0 <= i < rebalanced(state, config, n).len() ==> rebalanced(
            state,
            config,
            n,
        )[i].tablet.0 < state.placement_list()[n as int].tablet.0,
        0 <= i < drained(state, draining, config, n).len() ==> drained(
            state,
            draining,
            config,
            n,
        )[i].tablet.0 < state.placement_list()[n as int].tablet.0,
    decreases n,
{
    if n > 0 {
        let m = (n - 1) as nat;
        lemma_intents_are_considered(state, draining, config, m, i);
        let list = state.placement_list();
        assert(list[n - 1].index() < list[n as int].index());
    }
}

} // verus!
