//! Registry records as placement descriptors of the redundancy fabric.

use crate::control::layouts::{AssetId, LayoutKey, LayoutRecord};
use crate::control::node::{NodeRecord, NodeRecordView, NodeState};
use crate::control::state::ControlState;
use crate::ids::NodeId;
use vstd::prelude::*;

verus! {

/// Node health in the vocabulary of the fabric.
#[derive(Debug, Clone, Copy, PartialEq, Eq, Structural)]
pub enum NodeHealth {
    /// Serving and eligible.
    Active,
    /// Being drained.
    Draining,
    /// Repair-worthy outage.
    Unavailable,
    /// Transient misses.
    Suspect,
    /// Not serving yet.
    Joining,
    /// Drained.
    Drained,
    /// Removed.
    Removed,
}

/// Where a node stands, from the node itself up to its region.
#[derive(Debug, PartialEq, Eq)]
pub struct FailureDomain {
    /// The node.
    pub node: NodeId,
    /// Its rack; empty when unknown.
    pub rack: String,
    /// Its zone; empty when unknown.
    pub zone: String,
    /// Its region; empty when unknown.
    pub region: String,
}

/// A node as the fabric places fragments on it.
#[derive(Debug, PartialEq, Eq)]
pub struct NodeDescriptor {
    /// Node identity.
    pub id: NodeId,
    /// Where it stands.
    pub domain: FailureDomain,
    /// Its health.
    pub health: NodeHealth,
    /// Its capacity weight, at least one.
    pub weight: u32,
}

/// What a [`NodeDescriptor`] says.
#[verifier::ext_equal]
pub struct NodeDescriptorView {
    pub id: NodeId,
    pub node: NodeId,
    pub rack: Seq<char>,
    pub zone: Seq<char>,
    pub region: Seq<char>,
    pub health: NodeHealth,
    pub weight: u32,
}

impl View for NodeDescriptor {
    type V = NodeDescriptorView;

    open spec fn view(&self) -> NodeDescriptorView {
        NodeDescriptorView {
            id: self.id,
            node: self.domain.node,
            rack: self.domain.rack@,
            zone: self.domain.zone@,
            region: self.domain.region@,
            health: self.health,
            weight: self.weight,
        }
    }
}

/// The views of a list of descriptors.
pub open spec fn descriptor_views(descriptors: Seq<NodeDescriptor>) -> Seq<NodeDescriptorView> {
    Seq::new(descriptors.len(), |i: int| descriptors[i]@)
}

/// The health that a lifecycle state stands for.
pub open spec fn health(state: NodeState) -> NodeHealth {
    match state {
        NodeState::Active => NodeHealth::Active,
        NodeState::Draining => NodeHealth::Draining,
        NodeState::Unavailable => NodeHealth::Unavailable,
        NodeState::Suspect => NodeHealth::Suspect,
        NodeState::Joining => NodeHealth::Joining,
        NodeState::Drained => NodeHealth::Drained,
        NodeState::Removed => NodeHealth::Removed,
    }
}

/// Maps one control lifecycle state onto the fabric health vocabulary.
pub fn health_of(state: NodeState) -> (mapped: NodeHealth)
    ensures
        mapped == health(state),
{
    match state {
        NodeState::Active => NodeHealth::Active,
        NodeState::Draining => NodeHealth::Draining,
        NodeState::Unavailable => NodeHealth::Unavailable,
        NodeState::Suspect => NodeHealth::Suspect,
        NodeState::Joining => NodeHealth::Joining,
        NodeState::Drained => NodeHealth::Drained,
        NodeState::Removed => NodeHealth::Removed,
    }
}

/// The mapping is one-to-one: no two lifecycle states share a health, and every health
/// stands for one.
pub proof fn law_health_is_one_to_one(a: NodeState, b: NodeState, h: NodeHealth)
    ensures
        health(a) == health(b) ==> a == b,
        exists|state: NodeState| #[trigger] health(state) == h,
{
    let state = match h {
        NodeHealth::Active => NodeState::Active,
        NodeHealth::Draining => NodeState::Draining,
        NodeHealth::Unavailable => NodeState::Unavailable,
        NodeHealth::Suspect => NodeState::Suspect,
        NodeHealth::Joining => NodeState::Joining,
        NodeHealth::Drained => NodeState::Drained,
        NodeHealth::Removed => NodeState::Removed,
    };
    assert(health(state) == h);
}

/// The descriptor of a record: its label is the rack, zone and region are unknown, and
/// the weight is at least one.
pub open spec fn descriptor(record: NodeRecordView) -> NodeDescriptorView {
    NodeDescriptorView {
        id: record.node,
        node: record.node,
        rack: record.failure_domain,
        zone: Seq::empty(),
        region: Seq::empty(),
        health: health(record.state),
        weight: if record.weight >= 1 {
            record.weight
        } else {
            1
        },
    }
}

fn describe(record: &NodeRecord) -> (described: NodeDescriptor)
    ensures
        described@ == descriptor(record@),
{
    NodeDescriptor {
        id: record.node,
        domain: FailureDomain {
            node: record.node,
            rack: record.failure_domain.clone(),
            zone: String::new(),
            region: String::new(),
        },
        health: health_of(record.state),
        weight: if record.weight >= 1 {
            record.weight
        } else {
            1
        },
    }
}

/// Converts registry records into fabric placement descriptors.
pub fn descriptors_from_registry(records: &Vec<NodeRecord>) -> (descriptors: Vec<NodeDescriptor>)
    ensures
        descriptors@.len() == records@.len(),
        forall|i: int|
            0 <= i < records@.len() ==> (#[trigger] descriptors@[i])@ == descriptor(records@[i]@),
{
    let mut descriptors: Vec<NodeDescriptor> = Vec::new();
    let mut at: usize = 0;
    while at < records.len()
        invariant
            at <= records.len(),
            descriptors@.len() == at,
            forall|i: int|
                0 <= i < at ==> (#[trigger] descriptors@[i])@ == descriptor(records@[i]@),
        decreases records.len() - at,
    {
        descriptors.push(describe(&records[at]));
        at = at + 1;
    }
    descriptors
}

/// The descriptors of `records` without the node `draining`, in the same order.
pub open spec fn without_node(records: Seq<NodeRecord>, draining: NodeId) -> Seq<
    NodeDescriptorView,
>
    decreases records.len(),
{
    if records.len() == 0 {
        Seq::empty()
    } else if records.last().node == draining {
        without_node(records.drop_last(), draining)
    } else {
        without_node(records.drop_last(), draining).push(descriptor(records.last()@))
    }
}

/// Returns the placement view during a drain: the registry view without the draining
/// node.
pub fn drain_plan(records: &Vec<NodeRecord>, draining: NodeId) -> (descriptors: Vec<
    NodeDescriptor,
>)
    ensures
        descriptor_views(descriptors@) == without_node(records@, draining),
{
    let mut descriptors: Vec<NodeDescriptor> = Vec::new();
    let mut at: usize = 0;
    proof {
        assert(records@.take(0) =~= Seq::empty());
        assert(descriptor_views(descriptors@) =~= Seq::empty());
    }
    while at < records.len()
        invariant
            at <= records.len(),
            descriptor_views(descriptors@) == without_node(records@.take(at as int), draining),
        decreases records.len() - at,
    {
        let ghost before = descriptors@;
        proof {
            assert(records@.take(at + 1).drop_last() =~= records@.take(at as int));
            assert(records@.take(at + 1).last() == records@[at as int]);
        }
        if records[at].node != draining {
            let described: NodeDescriptor = describe(&records[at]);
            descriptors.push(described);
            proof {
                assert(descriptor_views(descriptors@) =~= descriptor_views(before).push(
                    described@,
                ));
            }
        }
        at = at + 1;
    }
    proof {
        assert(records@.take(at as int) =~= records@);
    }
    descriptors
}

/// A drain plan never names the draining node, and keeps every other one.
pub proof fn law_drain_excludes_only_the_node(
    records: Seq<NodeRecord>,
    draining: NodeId,
    i: int,
)
    requires
        0 <= i < records.len(),
    ensures
        forall|k: int|
            0 <= k < without_node(records, draining).len() ==> (#[trigger] without_node(
                records,
                draining,
            )[k]).id != draining,
        records[i].node != draining ==> without_node(records, draining).contains(
            descriptor(records[i]@),
        ),
    decreases records.len(),
{
    let front = records.drop_last();
    let all = without_node(records, draining);
    if front.len() > 0 {
        if i < front.len() {
            law_drain_excludes_only_the_node(front, draining, i);
        } else {
            law_drain_excludes_only_the_node(front, draining, 0);
        }
    }
    let inner = without_node(front, draining);
    if i < front.len() && records[i].node != draining {
        assert(front[i] == records[i]);
        let k = choose|k: int| 0 <= k < inner.len() && inner[k] == descriptor(front[i]@);
        assert(all[k] == descriptor(records[i]@));
    } else if records[i].node != draining {
        assert(all[all.len() - 1] == descriptor(records[i]@));
    }
}

/// Derives the control map key for an asset's published redundancy layout.
pub fn layout_key(asset: &AssetId) -> (key: LayoutKey)
    ensures
        key == LayoutKey::of_asset(*asset),
{
    LayoutKey::from_asset(asset)
}

/// Returns the control-plane generation that fences redundancy publishes.
pub fn control_generation_of(state: &ControlState) -> (generation: u64)
    ensures
        generation == state.generation_of().0,
{
    state.generation().as_u64()
}

/// A published layout and the generation that published it.
#[derive(Debug, PartialEq, Eq)]
pub struct PublishedLayout<L> {
    /// Fencing generation.
    pub control_generation: u64,
    /// Decoded layout.
    pub layout: L,
}

/// Returns the opaque bytes of the layout published for an asset; they are for the
/// fabric to decode.
pub fn published_record<'a>(state: &'a ControlState, asset: &AssetId) -> (record: Option<
    &'a LayoutRecord,
>)
    ensures
        match record {
            Some(r) => state.layout_place(LayoutKey::of_asset(*asset)) matches Some(at) && *r
                == state.layout_list()[at].record,
            None => state.layout_place(LayoutKey::of_asset(*asset)) is None,
        },
{
    state.redundancy_layout(&layout_key(asset))
}

/// Returns the published layout of an asset, given what the fabric makes of the
/// published bytes. Bytes that are no layout count as unpublished.
pub fn published_layout<L>(record: Option<&LayoutRecord>, decoded: Option<L>) -> (published: Option<
    PublishedLayout<L>,
>)
    ensures
        published == match (record, decoded) {
            (Some(record), Some(layout)) => Some(
                PublishedLayout { control_generation: record.control_generation, layout },
            ),
            _ => None,
        },
{
    match (record, decoded) {
        (Some(record), Some(layout)) => Some(
            PublishedLayout { control_generation: record.control_generation, layout },
        ),
        _ => None,
    }
}

/// A descriptor tells of its record: the same node and health, the failure domain as its
/// rack, and the weight, which is at least one.
pub proof fn law_descriptors_tell_of_their_record(record: NodeRecordView)
    ensures
        descriptor(record).id == record.node,
        descriptor(record).node == record.node,
        descriptor(record).rack == record.failure_domain,
        descriptor(record).zone.len() == 0,
        descriptor(record).region.len() == 0,
        record.weight >= 1 ==> descriptor(record).weight == record.weight,
        record.weight == 0 ==> descriptor(record).weight == 1,
        descriptor(record).health is Active <==> record.state is Active,
        descriptor(record).health is Draining <==> record.state is Draining,
        descriptor(record).health is Unavailable <==> record.state is Unavailable,
        descriptor(record).health is Suspect <==> record.state is Suspect,
        descriptor(record).health is Joining <==> record.state is Joining,
        descriptor(record).health is Drained <==> record.state is Drained,
        descriptor(record).health is Removed <==> record.state is Removed,
{
}

} // verus!
