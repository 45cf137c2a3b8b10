//! Desired topology that the planner and the redundancy fabric read.

use crate::control::layouts::{LayoutKey, LayoutRecord};
use crate::control::migration::{MigrationPlan, MigrationPlanId};
use crate::control::node::{NodeRecord, NodeRecordView};
use crate::control::placement::DesiredReplicaSet;
use crate::ids::{NodeId, TabletId};
use crate::index::{find, in_order, lookup, put, Indexed};
use crate::order::ascending;
use crate::search::{
    first_where, lemma_first_where, lemma_first_where_absent, lemma_first_where_found,
};
use vstd::prelude::*;

verus! {

/// Generation of the cluster topology.
#[derive(Debug, Clone, Copy, PartialEq, Eq, PartialOrd, Ord, Hash, Structural)]
pub struct ClusterGeneration(pub u64);

impl ClusterGeneration {
    /// Wraps a raw generation.
    pub fn from_u64(value: u64) -> (generation: Self)
        ensures
            generation.0 == value,
    {
        ClusterGeneration(value)
    }

    /// Returns the raw value.
    pub fn as_u64(self) -> (value: u64)
        ensures
            value == self.0,
    {
        self.0
    }
}

impl Indexed for NodeRecord {
    open spec fn index(self) -> u64 {
        self.node.0
    }

    fn index_number(&self) -> u64 {
        self.node.as_u64()
    }
}

impl Indexed for DesiredReplicaSet {
    open spec fn index(self) -> u64 {
        self.tablet.0
    }

    fn index_number(&self) -> u64 {
        self.tablet.as_u64()
    }
}

impl Indexed for MigrationPlan {
    open spec fn index(self) -> u64 {
        self.id.0
    }

    fn index_number(&self) -> u64 {
        self.id.as_u64()
    }
}

/// One published layout under its key.
#[derive(Debug, PartialEq, Eq)]
pub struct LayoutEntry {
    /// Asset of the layout.
    pub key: LayoutKey,
    /// Published record.
    pub record: LayoutRecord,
}

/// `layouts` with one published: in place of the one under its key, or behind the others.
pub open spec fn with_layout(layouts: Seq<LayoutEntry>, entry: LayoutEntry) -> Seq<LayoutEntry> {
    match first_where(layouts, |e: LayoutEntry| e.key@ == entry.key@) {
        Some(at) => layouts.update(at, entry),
        None => layouts.push(entry),
    }
}

/// Whether no two layouts are under one key.
pub open spec fn one_per_key(layouts: Seq<LayoutEntry>) -> bool {
    forall|i: int, j: int|
        0 <= i < j < layouts.len() ==> (#[trigger] layouts[i]).key@ != (#[trigger] layouts[j]).key@
}

/// One generation is published per asset: publishing another one replaces it, and dropping
/// one leaves the others.
pub proof fn law_one_layout_per_asset(layouts: Seq<LayoutEntry>, entry: LayoutEntry, at: int)
    requires
        one_per_key(layouts),
        0 <= at < layouts.len(),
    ensures
        one_per_key(with_layout(layouts, entry)),
        one_per_key(layouts.remove(at)),
{
    let wanted = |e: LayoutEntry| e.key@ == entry.key@;
    lemma_first_where(layouts, wanted);
    let after = with_layout(layouts, entry);
    assert forall|i: int, j: int| 0 <= i < j < after.len() implies (#[trigger] after[i]).key@ != (
    #[trigger] after[j]).key@ by {
        match first_where(layouts, wanted) {
            Some(place) => {
                assert(wanted(layouts[place]));
                assert(layouts[i].key@ != layouts[j].key@);
            },
            None => {
                if j < layouts.len() {
                    assert(layouts[i].key@ != layouts[j].key@);
                } else {
                    assert(!wanted(layouts[i]));
                }
            },
        }
    }
    let rest = layouts.remove(at);
    assert forall|i: int, j: int| 0 <= i < j < rest.len() implies (#[trigger] rest[i]).key@ != (
    #[trigger] rest[j]).key@ by {
        let a = if i < at {
            i
        } else {
            i + 1
        };
        let b = if j < at {
            j
        } else {
            j + 1
        };
        assert(layouts[a].key@ != layouts[b].key@);
    }
}

/// Why a layout was not published.
#[derive(Debug, Clone, Copy, PartialEq, Eq, Structural)]
pub enum LayoutFence {
    /// The offered generation is not the one that comes next.
    StaleGeneration {
        /// Offered generation.
        offered: u64,
        /// Generation that is published now; zero where there is none.
        current: u64,
    },
}

/// Desired topology: registered nodes, desired placements, migration plans and
/// published layouts.
#[derive(Debug)]
pub struct ControlState {
    pub(crate) generation: ClusterGeneration,
    pub(crate) nodes: Vec<NodeRecord>,
    pub(crate) placements: Vec<DesiredReplicaSet>,
    pub(crate) migrations: Vec<MigrationPlan>,
    pub(crate) layouts: Vec<LayoutEntry>,
}

/// Whether a plan is still under way.
pub open spec fn live(plan: MigrationPlan) -> bool {
    !(plan.phase is Completed || plan.phase is Failed)
}

/// An optional record, by its view.
pub open spec fn record_view(record: Option<NodeRecord>) -> Option<NodeRecordView> {
    match record {
        Some(record) => Some(record@),
        None => None,
    }
}

/// The last of `records` that is of `node`.
pub open spec fn last_given(records: Seq<NodeRecord>, node: NodeId) -> Option<NodeRecordView>
    decreases records.len(),
{
    if records.len() == 0 {
        None
    } else if records.last().node == node {
        Some(records.last()@)
    } else {
        last_given(records.drop_last(), node)
    }
}

/// The identities of the live ones among `plans` that move `tablet`, in their order.
pub open spec fn live_ids(plans: Seq<MigrationPlan>, tablet: TabletId) -> Seq<MigrationPlanId>
    decreases plans.len(),
{
    if plans.len() == 0 {
        Seq::empty()
    } else if plans.last().tablet == tablet && live(plans.last()) {
        live_ids(plans.drop_last(), tablet).push(plans.last().id)
    } else {
        live_ids(plans.drop_last(), tablet)
    }
}

/// A plan is listed exactly where it is live and moves the tablet.
pub proof fn law_live_plans_are_listed(plans: Seq<MigrationPlan>, tablet: TabletId)
    ensures
        forall|id: MigrationPlanId| #[trigger]
            live_ids(plans, tablet).contains(id) <==> exists|i: int|
                0 <= i < plans.len() && (#[trigger] plans[i]).id == id && plans[i].tablet == tablet
                    && live(plans[i]),
        (live_ids(plans, tablet).len() > 0) == exists|i: int|
            0 <= i < plans.len() && (#[trigger] plans[i]).tablet == tablet && live(plans[i]),
    decreases plans.len(),
{
    if plans.len() > 0 {
        let front = plans.drop_last();
        let last = plans.len() - 1;
        law_live_plans_are_listed(front, tablet);
        assert(forall|i: int| 0 <= i < last ==> #[trigger] front[i] == plans[i]);
        assert forall|id: MigrationPlanId| #[trigger] live_ids(plans, tablet).contains(id)
            <==> exists|i: int|
            0 <= i < plans.len() && (#[trigger] plans[i]).id == id && plans[i].tablet == tablet
                && live(plans[i]) by {
            vstd::seq_lib::lemma_seq_contains_after_push(
                live_ids(front, tablet),
                plans[last].id,
                id,
            );
            assert(live_ids(front, tablet).contains(id) <==> exists|i: int|
                0 <= i < front.len() && (#[trigger] front[i]).id == id && front[i].tablet == tablet
                    && live(front[i]));
            if exists|i: int|
                0 <= i < front.len() && (#[trigger] front[i]).id == id && front[i].tablet == tablet
                    && live(front[i]) {
                let i = choose|i: int|
                    0 <= i < front.len() && (#[trigger] front[i]).id == id && front[i].tablet
                        == tablet && live(front[i]);
                assert(plans[i].id == id);
            }
            if exists|i: int|
                0 <= i < plans.len() && (#[trigger] plans[i]).id == id && plans[i].tablet == tablet
                    && live(plans[i]) {
                let i = choose|i: int|
                    0 <= i < plans.len() && (#[trigger] plans[i]).id == id && plans[i].tablet
                        == tablet && live(plans[i]);
                if i < last {
                    assert(front[i].id == id);
                }
            }
        }
        if exists|i: int|
            0 <= i < front.len() && (#[trigger] front[i]).tablet == tablet && live(front[i]) {
            let i = choose|i: int|
                0 <= i < front.len() && (#[trigger] front[i]).tablet == tablet && live(front[i]);
            assert(plans[i].tablet == tablet);
        }
        if exists|i: int|
            0 <= i < plans.len() && (#[trigger] plans[i]).tablet == tablet && live(plans[i]) {
            let i = choose|i: int|
                0 <= i < plans.len() && (#[trigger] plans[i]).tablet == tablet && live(plans[i]);
            if i < last {
                assert(front[i].tablet == tablet);
            }
        }
    }
}

impl ControlState {
    /// The cluster generation.
    pub open(crate) spec fn generation_of(self) -> ClusterGeneration {
        self.generation
    }

    /// The registered nodes.
    pub open(crate) spec fn node_list(self) -> Seq<NodeRecord> {
        self.nodes@
    }

    /// The desired placements.
    pub open(crate) spec fn placement_list(self) -> Seq<DesiredReplicaSet> {
        self.placements@
    }

    /// The migration plans.
    pub open(crate) spec fn migration_list(self) -> Seq<MigrationPlan> {
        self.migrations@
    }

    pub(crate) proof fn lemma_sizes(self)
        ensures
            self.placement_list().len() <= usize::MAX,
            self.migration_list().len() <= usize::MAX,
    {
        assert(self.placements.len() <= usize::MAX);
        assert(self.migrations.len() <= usize::MAX);
    }

    /// The published layouts.
    pub open(crate) spec fn layout_list(self) -> Seq<LayoutEntry> {
        self.layouts@
    }

    /// Nodes, placements and plans are in the order of their numbers, and every
    /// placement is well formed.
    pub open spec fn well_formed(self) -> bool {
        &&& in_order(self.node_list())
        &&& in_order(self.placement_list())
        &&& in_order(self.migration_list())
        &&& forall|i: int|
            0 <= i < self.placement_list().len() ==> (
            #[trigger] self.placement_list()[i])@.well_formed()
    }

    /// The record of `node`.
    pub open spec fn node_of(self, node: NodeId) -> Option<NodeRecord> {
        lookup(self.node_list(), node.0)
    }

    /// The desired placement of `tablet`.
    pub open spec fn desired_of(self, tablet: TabletId) -> Option<DesiredReplicaSet> {
        lookup(self.placement_list(), tablet.0)
    }

    /// Whether a live plan moves `tablet`.
    pub open spec fn moving(self, tablet: TabletId) -> bool {
        exists|i: int|
            0 <= i < self.migration_list().len() && (#[trigger] self.migration_list()[i]).tablet
                == tablet && live(self.migration_list()[i])
    }

    /// The place of the layout under `key`.
    pub open spec fn layout_place(self, key: LayoutKey) -> Option<int> {
        first_where(self.layout_list(), |e: LayoutEntry| e.key@ == key@)
    }

    /// The generation published under `key`; zero where there is none.
    pub open spec fn published_generation(self, key: LayoutKey) -> u64 {
        match self.layout_place(key) {
            Some(at) => self.layout_list()[at].record.control_generation,
            None => 0,
        }
    }

    /// A state without nodes, placements, plans or layouts, in the first generation.
    pub fn empty() -> (state: Self)
        ensures
            state.well_formed(),
            state.generation_of() == ClusterGeneration(1),
            state.node_list().len() == 0,
            state.placement_list().len() == 0,
            state.migration_list().len() == 0,
            state.layout_list().len() == 0,
    {
        ControlState {
            generation: ClusterGeneration(1),
            nodes: Vec::new(),
            placements: Vec::new(),
            migrations: Vec::new(),
            layouts: Vec::new(),
        }
    }

    /// The state of a new cluster with the given nodes: of each, the last record given.
    pub fn bootstrap(nodes: Vec<NodeRecord>) -> (state: Self)
        ensures
            state.well_formed(),
            state.generation_of() == ClusterGeneration(1),
            state.placement_list().len() == 0,
            state.migration_list().len() == 0,
            state.layout_list().len() == 0,
            forall|node: NodeId|
                record_view(#[trigger] state.node_of(node)) == last_given(nodes@, node),
    {
        let mut state: ControlState = Self::empty();
        let mut at: usize = 0;
        while at < nodes.len()
            invariant
                at <= nodes.len(),
                state.well_formed(),
                state.generation_of() == ClusterGeneration(1),
                state.placement_list().len() == 0,
                state.migration_list().len() == 0,
                state.layout_list().len() == 0,
                forall|node: NodeId|
                    record_view(#[trigger] state.node_of(node)) == last_given(
                        nodes@.take(at as int),
                        node,
                    ),
            decreases nodes.len() - at,
        {
            let ghost before = state;
            state.register_node(nodes[at].clone());
            at = at + 1;
            proof {
                let now = nodes@.take(at as int);
                assert(now.drop_last() =~= nodes@.take(at - 1));
                assert(now.last() == nodes@[at - 1]);
                assert forall|node: NodeId| record_view(#[trigger] state.node_of(node))
                    == last_given(now, node) by {
                    assert(record_view(before.node_of(node)) == last_given(
                        nodes@.take(at - 1),
                        node,
                    ));
                }
            }
        }
        proof {
            assert(nodes@.take(at as int) =~= nodes@);
        }
        state
    }

    /// Registers a node, or replaces its record.
    pub fn register_node(&mut self, record: NodeRecord)
        requires
            old(self).well_formed(),
        ensures
            final(self).well_formed(),
            forall|node: NodeId| #[trigger]
                final(self).node_of(node) == if node == record.node {
                    Some(record)
                } else {
                    old(self).node_of(node)
                },
            final(self).generation_of() == old(self).generation_of(),
            final(self).placement_list() == old(self).placement_list(),
            final(self).migration_list() == old(self).migration_list(),
            final(self).layout_list() == old(self).layout_list(),
    {
        put(&mut self.nodes, record);
    }

    /// Publishes a tablet's desired voter set.
    pub fn set_desired_placement(&mut self, desired: DesiredReplicaSet)
        requires
            old(self).well_formed(),
            desired@.well_formed(),
        ensures
            final(self).well_formed(),
            forall|tablet: TabletId| #[trigger]
                final(self).desired_of(tablet) == if tablet == desired.tablet {
                    Some(desired)
                } else {
                    old(self).desired_of(tablet)
                },
            final(self).generation_of() == old(self).generation_of(),
            final(self).node_list() == old(self).node_list(),
            final(self).migration_list() == old(self).migration_list(),
            final(self).layout_list() == old(self).layout_list(),
    {
        let ghost before = self.placements@;
        put(&mut self.placements, desired);
        proof {
            assert forall|i: int| 0 <= i < self.placements@.len() implies (
            #[trigger] self.placements@[i])@.well_formed() by {
                let number = self.placements@[i].index();
                crate::index::lemma_lookup_at(self.placements@, i);
                assert(lookup(self.placements@, number) == Some(self.placements@[i]));
                crate::index::lemma_lookup(before, number);
            }
        }
    }

    /// Adds a migration plan, or replaces the one with its identity.
    pub fn add_migration(&mut self, plan: MigrationPlan)
        requires
            old(self).well_formed(),
        ensures
            final(self).well_formed(),
            forall|number: u64| #[trigger]
                lookup(final(self).migration_list(), number) == if number == plan.id.0 {
                    Some(plan)
                } else {
                    lookup(old(self).migration_list(), number)
                },
            final(self).generation_of() == old(self).generation_of(),
            final(self).node_list() == old(self).node_list(),
            final(self).placement_list() == old(self).placement_list(),
            final(self).layout_list() == old(self).layout_list(),
    {
        put(&mut self.migrations, plan);
    }

    fn layout_position(&self, key: &LayoutKey) -> (place: Option<usize>)
        ensures
            match place {
                Some(at) => self.layout_place(*key) == Some(at as int) && at < self.layouts.len()
                    && self.layouts@[at as int].key@ == key@,
                None => self.layout_place(*key) is None && forall|i: int|
                    0 <= i < self.layouts.len() ==> (#[trigger] self.layouts@[i]).key@ != key@,
            },
    {
        let ghost wanted = |e: LayoutEntry| e.key@ == key@;
        let mut at: usize = 0;
        while at < self.layouts.len()
            invariant
                at <= self.layouts.len(),
                wanted == (|e: LayoutEntry| e.key@ == key@),
                forall|i: int| 0 <= i < at ==> !wanted(#[trigger] self.layouts@[i]),
            decreases self.layouts.len() - at,
        {
            if self.layouts[at].key.same(key) {
                proof {
                    assert(wanted(self.layouts@[at as int]));
                    lemma_first_where_found(self.layouts@, wanted, at as int);
                }
                return Some(at);
            }
            proof {
                assert(!wanted(self.layouts@[at as int]));
            }
            at = at + 1;
        }
        proof {
            lemma_first_where_absent(self.layouts@, wanted);
            assert forall|i: int| 0 <= i < self.layouts.len() implies (
            #[trigger] self.layouts@[i]).key@ != key@ by {
                assert(!wanted(self.layouts@[i]));
            }
        }
        None
    }

    /// Publishes a layout generation: exactly one after the published one, or exactly
    /// one where there is none.
    pub fn publish_layout(
        &mut self,
        key: LayoutKey,
        generation: u64,
        record: LayoutRecord,
    ) -> (result:
        Result<(), LayoutFence>)
        ensures
            result == if generation == old(self).published_generation(key) + 1 {
                Ok::<(), _>(())
            } else {
                Err(
                    LayoutFence::StaleGeneration {
                        offered: generation,
                        current: old(self).published_generation(key),
                    },
                )
            },
            final(self).layout_list() == match result {
                Ok(_) => with_layout(old(self).layout_list(), LayoutEntry { key, record }),
                Err(_) => old(self).layout_list(),
            },
            result is Ok ==> match final(self).layout_place(key) {
                Some(at) => final(self).layout_list()[at].record == record
                    && final(self).layout_list()[at].key@ == key@,
                None => false,
            },
            result is Ok ==> forall|other: LayoutKey|
                other@ != key@ ==> #[trigger] final(self).published_generation(other)
                    == old(self).published_generation(other),
            final(self).generation_of() == old(self).generation_of(),
            final(self).node_list() == old(self).node_list(),
            final(self).placement_list() == old(self).placement_list(),
            final(self).migration_list() == old(self).migration_list(),
    {
        let ghost before = *self;
        match self.layout_position(&key) {
            Some(at) => {
                let current: u64 = self.layouts[at].record.control_generation;
                if current == u64::MAX || generation != current + 1 {
                    return Err(LayoutFence::StaleGeneration { offered: generation, current });
                }
                self.layouts.set(at, LayoutEntry { key, record });
                proof {
                    assert forall|other: LayoutKey| other@ != key@ implies
                        #[trigger] self.published_generation(other)
                        == before.published_generation(other) by {
                        lemma_replaced_elsewhere(before.layouts@, self.layouts@, at as int, other);
                    }
                    let wanted = |e: LayoutEntry| e.key@ == key@;
                    lemma_first_where(before.layouts@, wanted);
                    assert(wanted(self.layouts@[at as int]));
                    assert forall|i: int| 0 <= i < at implies !wanted(
                        #[trigger] self.layouts@[i],
                    ) by {
                        assert(self.layouts@[i] == before.layouts@[i]);
                    }
                    lemma_first_where_found(self.layouts@, wanted, at as int);
                }
                Ok(())
            },
            None => {
                if generation != 1 {
                    return Err(LayoutFence::StaleGeneration { offered: generation, current: 0 });
                }
                self.layouts.push(LayoutEntry { key, record });
                proof {
                    let last = before.layouts@.len() as int;
                    assert forall|other: LayoutKey| other@ != key@ implies
                        #[trigger] self.published_generation(other)
                        == before.published_generation(other) by {
                        lemma_appended_elsewhere(before.layouts@, self.layouts@, other);
                    }
                    let wanted = |e: LayoutEntry| e.key@ == key@;
                    assert(wanted(self.layouts@[last]));
                    assert forall|i: int| 0 <= i < last implies !wanted(
                        #[trigger] self.layouts@[i],
                    ) by {
                        assert(self.layouts@[i] == before.layouts@[i]);
                    }
                    lemma_first_where_found(self.layouts@, wanted, last);
                }
                Ok(())
            },
        }
    }

    /// Drops a published layout; dropping what is not there changes nothing.
    pub fn drop_layout(&mut self, key: &LayoutKey)
        ensures
            match old(self).layout_place(*key) {
                Some(at) => final(self).layout_list() == old(self).layout_list().remove(at),
                None => final(self).layout_list() == old(self).layout_list(),
            },
            final(self).generation_of() == old(self).generation_of(),
            final(self).node_list() == old(self).node_list(),
            final(self).placement_list() == old(self).placement_list(),
            final(self).migration_list() == old(self).migration_list(),
    {
        if let Some(at) = self.layout_position(key) {
            self.layouts.remove(at);
        }
    }

    /// Returns the cluster generation.
    pub fn generation(&self) -> (generation: ClusterGeneration)
        ensures
            generation == self.generation_of(),
    {
        self.generation
    }

    /// Returns the registered nodes in the order of their identities.
    pub fn nodes(&self) -> (nodes: &Vec<NodeRecord>)
        ensures
            nodes@ == self.node_list(),
    {
        &self.nodes
    }

    /// Returns the desired placements in the order of their tablets.
    pub fn placements(&self) -> (placements: &Vec<DesiredReplicaSet>)
        ensures
            placements@ == self.placement_list(),
    {
        &self.placements
    }

    /// Returns the migration plans in the order of their identities.
    pub fn migrations(&self) -> (migrations: &Vec<MigrationPlan>)
        ensures
            migrations@ == self.migration_list(),
    {
        &self.migrations
    }

    /// Returns the record of a node.
    pub fn node(&self, node: NodeId) -> (record: Option<&NodeRecord>)
        ensures
            match record {
                Some(r) => self.node_of(node) == Some(*r),
                None => self.node_of(node) is None,
            },
    {
        match find(&self.nodes, node.as_u64()) {
            Some(at) => Some(&self.nodes[at]),
            None => None,
        }
    }

    /// Returns the desired placement of a tablet.
    pub fn desired(&self, tablet: TabletId) -> (desired: Option<&DesiredReplicaSet>)
        ensures
            match desired {
                Some(d) => self.desired_of(tablet) == Some(*d),
                None => self.desired_of(tablet) is None,
            },
    {
        match find(&self.placements, tablet.as_u64()) {
            Some(at) => Some(&self.placements[at]),
            None => None,
        }
    }

    /// Returns the identities of the live plans that move a tablet, in the order of the plans.
    pub fn live_plans_for(&self, tablet: TabletId) -> (plans: Vec<MigrationPlanId>)
        ensures
            plans@ == live_ids(self.migration_list(), tablet),
            (plans@.len() > 0) == self.moving(tablet),
    {
        let ghost all = self.migrations@;
        let mut plans: Vec<MigrationPlanId> = Vec::new();
        let mut at: usize = 0;
        proof {
            assert(all.take(0) =~= Seq::empty());
        }
        while at < self.migrations.len()
            invariant
                at <= self.migrations.len(),
                all == self.migrations@,
                plans@ == live_ids(all.take(at as int), tablet),
            decreases self.migrations.len() - at,
        {
            let plan: &MigrationPlan = &self.migrations[at];
            proof {
                assert(all.take(at + 1).drop_last() =~= all.take(at as int));
                assert(all.take(at + 1).last() == *plan);
            }
            if plan.tablet == tablet && !plan.phase.is_terminal() {
                plans.push(plan.id);
            }
            at = at + 1;
        }
        proof {
            assert(all.take(at as int) =~= all);
            law_live_plans_are_listed(all, tablet);
        }
        plans
    }

    /// Returns the tablets whose desired placement names a node, in ascending order.
    pub fn tablets_desiring(&self, node: NodeId) -> (tablets: Vec<TabletId>)
        requires
            self.well_formed(),
        ensures
            ascending(tablets@),
            forall|tablet: TabletId| #[trigger]
                tablets@.contains(tablet) <==> (self.desired_of(tablet) matches Some(desired)
                    && desired@.replicas.contains(node)),
    {
        let mut tablets: Vec<TabletId> = Vec::new();
        let mut at: usize = 0;
        while at < self.placements.len()
            invariant
                at <= self.placements.len(),
                self.well_formed(),
                forall|i: int, j: int|
                    0 <= i < j < tablets@.len() ==> (#[trigger] tablets@[i]).0 < (
                    #[trigger] tablets@[j]).0,
                forall|i: int|
                    0 <= i < tablets@.len() ==> named_before(
                        self.placements@,
                        at as int,
                        node,
                        #[trigger] tablets@[i],
                    ),
                forall|k: int|
                    0 <= k < at && (#[trigger] self.placements@[k])@.replicas.contains(node)
                        ==> tablets@.contains(self.placements@[k].tablet),
            decreases self.placements.len() - at,
        {
            let ghost before = tablets@;
            let desired: &DesiredReplicaSet = &self.placements[at];
            if desired.contains(node) {
                proof {
                    assert forall|i: int| 0 <= i < before.len() implies (#[trigger] before[i]).0
                        < desired.tablet.0 by {
                        assert(named_before(self.placements@, at as int, node, before[i]));
                        let k = choose|k: int|
                            0 <= k < at && (#[trigger] self.placements@[k]).tablet == before[i]
                                && self.placements@[k]@.replicas.contains(node);
                        assert(self.placements@[k].index() < self.placements@[at as int].index());
                    }
                }
                tablets.push(desired.tablet);
                proof {
                    assert(self.placements@[at as int].tablet == tablets@[before.len() as int]);
                    assert forall|k: int|
                        0 <= k < at + 1 && (#[trigger] self.placements@[k])@.replicas.contains(
                            node,
                        ) implies tablets@.contains(self.placements@[k].tablet) by {
                        vstd::seq_lib::lemma_seq_contains_after_push(
                            before,
                            desired.tablet,
                            self.placements@[k].tablet,
                        );
                    }
                }
            }
            at = at + 1;
            proof {
                assert forall|i: int| 0 <= i < tablets@.len() implies named_before(
                    self.placements@,
                    at as int,
                    node,
                    #[trigger] tablets@[i],
                ) by {
                    if i < before.len() {
                        assert(tablets@[i] == before[i]);
                        assert(named_before(self.placements@, at - 1, node, before[i]));
                    } else {
                        assert(self.placements@[at - 1].tablet == tablets@[i]);
                    }
                }
            }
        }
        proof {
            assert forall|tablet: TabletId| #[trigger] tablets@.contains(tablet) <==> (
            self.desired_of(tablet) matches Some(desired) && desired@.replicas.contains(node)) by {
                crate::index::lemma_lookup(self.placements@, tablet.0);
                if tablets@.contains(tablet) {
                    let i = choose|i: int| 0 <= i < tablets@.len() && tablets@[i] == tablet;
                    assert(named_before(self.placements@, at as int, node, tablets@[i]));
                    let k = choose|k: int|
                        0 <= k < at && (#[trigger] self.placements@[k]).tablet == tablets@[i]
                            && self.placements@[k]@.replicas.contains(node);
                    crate::index::lemma_lookup_at(self.placements@, k);
                }
                if let Some(desired) = self.desired_of(tablet) {
                    if desired@.replicas.contains(node) {
                        let k = choose|k: int|
                            0 <= k < self.placements@.len() && #[trigger] self.placements@[k]
                                == desired;
                        assert(tablets@.contains(self.placements@[k].tablet));
                        assert(desired.tablet == tablet);
                    }
                }
            }
        }
        tablets
    }

    /// Returns the layout published for an asset.
    pub fn redundancy_layout(&self, key: &LayoutKey) -> (record: Option<&LayoutRecord>)
        ensures
            match record {
                Some(r) => self.layout_place(*key) matches Some(at) && *r
                    == self.layout_list()[at].record,
                None => self.layout_place(*key) is None,
            },
    {
        match self.layout_position(key) {
            Some(at) => Some(&self.layouts[at].record),
            None => None,
        }
    }
}

/// Whether one of the first `at` placements is for `tablet` and names `node`.
pub open spec fn named_before(
    placements: Seq<DesiredReplicaSet>,
    at: int,
    node: NodeId,
    tablet: TabletId,
) -> bool {
    exists|k: int|
        0 <= k < at && (#[trigger] placements[k]).tablet == tablet
            && placements[k]@.replicas.contains(node)
}

proof fn lemma_replaced_elsewhere(
    before: Seq<LayoutEntry>,
    after: Seq<LayoutEntry>,
    at: int,
    other: LayoutKey,
)
    requires
        0 <= at < before.len(),
        after == before.update(at, after[at]),
        after[at].key@ == before[at].key@,
        before[at].key@ != other@,
    ensures
        first_where(after, |e: LayoutEntry| e.key@ == other@) == first_where(
            before,
            |e: LayoutEntry| e.key@ == other@,
        ),
        first_where(before, |e: LayoutEntry| e.key@ == other@) matches Some(place) ==> after[place]
            == before[place],
{
    let wanted = |e: LayoutEntry| e.key@ == other@;
    lemma_first_where(before, wanted);
    match first_where(before, wanted) {
        Some(place) => {
            assert(wanted(after[place]));
            assert forall|i: int| 0 <= i < place implies !wanted(#[trigger] after[i]) by {
                assert(!wanted(before[i]));
            }
            lemma_first_where_found(after, wanted, place);
        },
        None => {
            assert forall|i: int| 0 <= i < after.len() implies !wanted(#[trigger] after[i]) by {
                assert(!wanted(before[i]));
            }
            lemma_first_where_absent(after, wanted);
        },
    }
}

proof fn lemma_appended_elsewhere(
    before: Seq<LayoutEntry>,
    after: Seq<LayoutEntry>,
    other: LayoutKey,
)
    requires
        after.len() == before.len() + 1,
        after == before.push(after.last()),
        after.last().key@ != other@,
    ensures
        first_where(after, |e: LayoutEntry| e.key@ == other@) == first_where(
            before,
            |e: LayoutEntry| e.key@ == other@,
        ),
        first_where(before, |e: LayoutEntry| e.key@ == other@) matches Some(place) ==> after[place]
            == before[place],
{
    let wanted = |e: LayoutEntry| e.key@ == other@;
    lemma_first_where(before, wanted);
    match first_where(before, wanted) {
        Some(place) => {
            assert(wanted(after[place]));
            assert forall|i: int| 0 <= i < place implies !wanted(#[trigger] after[i]) by {
                assert(!wanted(before[i]));
            }
            lemma_first_where_found(after, wanted, place);
        },
        None => {
            assert forall|i: int| 0 <= i < after.len() implies !wanted(#[trigger] after[i]) by {
                if i < before.len() {
                    assert(!wanted(before[i]));
                }
            }
            lemma_first_where_absent(after, wanted);
        },
    }
}

/// Of several records of a node the last one counts, whatever came before it.
pub proof fn law_the_last_record_counts(
    records: Seq<NodeRecord>,
    record: NodeRecord,
    node: NodeId,
)
    ensures
        last_given(records.push(record), record.node) == Some(record@),
        node != record.node ==> last_given(records.push(record), node) == last_given(
            records,
            node,
        ),
        last_given(Seq::empty(), node) is None,
{
    assert(records.push(record).drop_last() =~= records);
}

} // verus!
