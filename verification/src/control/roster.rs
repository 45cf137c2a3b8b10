//! Node lists inside canonical encodings.

use crate::ids::NodeId;
use crate::wire::{get_u64, group_fields, put_u64, u64_at, u64_bytes};
use vstd::prelude::*;

verus! {

/// The eight-byte fields of `nodes`, one after the other.
pub open spec fn nodes_bytes(nodes: Seq<NodeId>) -> Seq<u8>
    decreases nodes.len(),
{
    if nodes.len() == 0 {
        Seq::empty()
    } else {
        nodes_bytes(nodes.drop_last()) + u64_bytes(nodes.last().0)
    }
}

/// The `count` nodes whose fields start at `at`.
pub open spec fn nodes_at(input: Seq<u8>, at: int, count: nat) -> Seq<NodeId> {
    Seq::new(count, |i: int| NodeId(u64_at(input, at + 8 * i)))
}

/// A node list takes eight bytes for each node.
pub proof fn lemma_nodes_bytes_len(nodes: Seq<NodeId>)
    ensures
        nodes_bytes(nodes).len() == 8 * nodes.len(),
    decreases nodes.len(),
{
    broadcast use group_fields;

    if nodes.len() > 0 {
        lemma_nodes_bytes_len(nodes.drop_last());
    }
}

proof fn lemma_node_field(nodes: Seq<NodeId>, i: int)
    requires
        0 <= i < nodes.len(),
    ensures
        nodes_bytes(nodes).subrange(8 * i, 8 * i + 8) == u64_bytes(nodes[i].0),
    decreases nodes.len(),
{
    broadcast use group_fields;

    let front = nodes.drop_last();
    lemma_nodes_bytes_len(front);
    lemma_nodes_bytes_len(nodes);
    if i == nodes.len() - 1 {
        assert(nodes_bytes(nodes).subrange(8 * i, 8 * i + 8) =~= u64_bytes(nodes[i].0));
    } else {
        lemma_node_field(front, i);
        assert(nodes_bytes(nodes).subrange(8 * i, 8 * i + 8) =~= nodes_bytes(front).subrange(
            8 * i,
            8 * i + 8,
        ));
    }
}

/// A node list reads back as the nodes it holds.
pub proof fn lemma_nodes_round_trip(prefix: Seq<u8>, nodes: Seq<NodeId>)
    ensures
        nodes_at(prefix + nodes_bytes(nodes), prefix.len() as int, nodes.len()) == nodes,
{
    broadcast use group_fields;

    let all = prefix + nodes_bytes(nodes);
    let start = prefix.len() as int;
    lemma_nodes_bytes_len(nodes);
    assert forall|i: int| 0 <= i < nodes.len() implies #[trigger] nodes_at(
        all,
        start,
        nodes.len(),
    )[i]
        == nodes[i] by {
        lemma_node_field(nodes, i);
        assert(all.subrange(start + 8 * i, start + 8 * i + 8) =~= nodes_bytes(nodes).subrange(
            8 * i,
            8 * i + 8,
        ));
    }
    assert(nodes_at(all, start, nodes.len()) =~= nodes);
}

/// Appends the fields of `nodes`.
pub fn put_nodes(out: &mut Vec<u8>, nodes: &Vec<NodeId>)
    ensures
        final(out)@ == old(out)@ + nodes_bytes(nodes@),
{
    let ghost start = out@;
    let mut at: usize = 0;
    proof {
        assert(nodes@.take(0) =~= Seq::<NodeId>::empty());
        assert(start + nodes_bytes(nodes@.take(0)) =~= start);
    }
    while at < nodes.len()
        invariant
            at <= nodes.len(),
            out@ == start + nodes_bytes(nodes@.take(at as int)),
        decreases nodes.len() - at,
    {
        put_u64(out, nodes[at].as_u64());
        at = at + 1;
        proof {
            let so_far = nodes@.take(at as int);
            assert(so_far.drop_last() =~= nodes@.take(at - 1));
            assert(so_far.last() == nodes@[at - 1]);
            assert(out@ =~= start + nodes_bytes(so_far));
        }
    }
    proof {
        assert(nodes@.take(at as int) =~= nodes@);
    }
}

/// Reads the `count` nodes whose fields start at `at`.
pub fn get_nodes(input: &[u8], at: usize, count: usize) -> (nodes: Vec<NodeId>)
    requires
        at + 8 * count <= input.len(),
    ensures
        nodes@ == nodes_at(input@, at as int, count as nat),
{
    let mut nodes: Vec<NodeId> = Vec::new();
    let mut index: usize = 0;
    while index < count
        invariant
            index <= count,
            at + 8 * count <= input.len(),
            nodes@ == nodes_at(input@, at as int, index as nat),
        decreases count - index,
    {
        let node: NodeId = NodeId::from_u64(get_u64(input, at + 8 * index));
        nodes.push(node);
        index = index + 1;
        proof {
            assert(nodes@ =~= nodes_at(input@, at as int, index as nat));
        }
    }
    nodes
}

/// Copies a node list.
pub fn clone_nodes(nodes: &Vec<NodeId>) -> (copy: Vec<NodeId>)
    ensures
        copy@ == nodes@,
{
    let mut copy: Vec<NodeId> = Vec::new();
    let mut at: usize = 0;
    while at < nodes.len()
        invariant
            at <= nodes.len(),
            copy@ == nodes@.take(at as int),
        decreases nodes.len() - at,
    {
        copy.push(nodes[at]);
        at = at + 1;
        proof {
            assert(nodes@.take(at as int) =~= nodes@.take(at - 1).push(nodes@[at - 1]));
        }
    }
    proof {
        assert(nodes@.take(at as int) =~= nodes@);
    }
    copy
}

/// Whether `nodes` lists `node`.
pub fn lists_node(nodes: &Vec<NodeId>, node: NodeId) -> (listed: bool)
    ensures
        listed == nodes@.contains(node),
{
    let mut at: usize = 0;
    while at < nodes.len()
        invariant
            at <= nodes.len(),
            forall|i: int| 0 <= i < at ==> nodes@[i] != node,
        decreases nodes.len() - at,
    {
        if nodes[at] == node {
            return true;
        }
        at = at + 1;
    }
    false
}

} // verus!
