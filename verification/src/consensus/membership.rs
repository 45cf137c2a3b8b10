//! The members of a consensus group.

use crate::consensus::applied::AppliedPointer;
use crate::consensus::image::{
    blob, blob_at, get_blob, holds, lemma_holds, lemma_holds_blob, lemma_holds_split,
    lemma_holds_u64, put_blob, ImageFault,
};
use crate::control::roster::{
    clone_nodes, get_nodes, lemma_nodes_bytes_len, lemma_nodes_round_trip, nodes_at, nodes_bytes,
    put_nodes,
};
use crate::ids::NodeId;
use crate::order::{ascending, canonical, lemma_canonical, lemma_canonical_fixed, sort_unique};
use crate::ranked::{
    find_ranked, gather, gathered, lemma_gathered, lemma_gathered_rising, lemma_placed, ranked,
    rising, views, HasRank, Ranked,
};
use crate::text::text_of_bytes;
use crate::wire::{get_u64, group_fields, put_u64, u64_at, u64_bytes};
use vstd::prelude::*;
use vstd::utf8::*;

verus! {

/// A member and the address that it is dialed at.
#[derive(Debug, PartialEq, Eq)]
pub struct Member {
    /// The member.
    pub node: NodeId,
    /// Its address.
    pub addr: String,
}

/// What a [`Member`] says.
#[verifier::ext_equal]
pub struct MemberView {
    pub node: NodeId,
    pub addr: Seq<char>,
}

impl View for Member {
    type V = MemberView;

    open spec fn view(&self) -> MemberView {
        MemberView { node: self.node, addr: self.addr@ }
    }
}

impl Clone for Member {
    fn clone(&self) -> (copy: Self)
        ensures
            copy@ == self@,
    {
        Member { node: self.node, addr: self.addr.clone() }
    }
}

impl Ranked for MemberView {
    open spec fn rank(self) -> u128 {
        self.node.0 as u128
    }
}

impl HasRank<MemberView> for Member {
    fn rank_number(&self) -> u128 {
        self.node.as_u64() as u128
    }
}

/// Voters and dialable nodes of a group, and the log entry that installed them. While the
/// group changes from one set of voters to another, it has both.
#[derive(Debug, PartialEq, Eq)]
pub struct StoredMembership {
    /// The log entry, if one installed them.
    pub log_id: Option<AppliedPointer>,
    /// The sets of voters, each ascending: one, or two while the group changes.
    pub configs: Vec<Vec<NodeId>>,
    /// The nodes, ascending.
    pub nodes: Vec<Member>,
}

/// What a [`StoredMembership`] says.
#[verifier::ext_equal]
pub struct MembershipView {
    pub log_id: Option<AppliedPointer>,
    pub configs: Seq<Seq<NodeId>>,
    pub nodes: Seq<MemberView>,
}

impl View for StoredMembership {
    type V = MembershipView;

    open spec fn view(&self) -> MembershipView {
        MembershipView {
            log_id: self.log_id,
            configs: views(self.configs@),
            nodes: views(self.nodes@),
        }
    }
}

/// Whether voters and nodes make a group: there are voters, and each has a node.
pub open spec fn coherent(voters: Seq<NodeId>, nodes: Seq<MemberView>) -> bool {
    &&& voters.len() > 0
    &&& forall|i: int|
        0 <= i < voters.len() ==> ranked(nodes, (#[trigger] voters[i]).0 as u128) is Some
}

/// The voters of all sets, one set after the other.
pub open spec fn all_voters(configs: Seq<Seq<NodeId>>) -> Seq<NodeId>
    decreases configs.len(),
{
    if configs.len() == 0 {
        Seq::empty()
    } else {
        all_voters(configs.drop_last()) + configs.last()
    }
}

impl MembershipView {
    /// The members of a replica that never installed any.
    pub open spec fn none() -> Self {
        MembershipView { log_id: None, configs: Seq::empty(), nodes: Seq::empty() }
    }

    /// Everyone who votes, in whichever set, ascending.
    pub open spec fn voters(self) -> Seq<NodeId> {
        canonical(all_voters(self.configs))
    }

    /// The members as their canonical bytes tell them: with one set of everyone who votes.
    pub open spec fn flat(self) -> Self {
        if self.configs.len() == 0 {
            self
        } else {
            MembershipView { configs: seq![self.voters()], ..self }
        }
    }

    /// Members are in order, and there are none at all or every set makes a group.
    pub open spec fn well_formed(self) -> bool {
        &&& forall|i: int| 0 <= i < self.configs.len() ==> ascending(#[trigger] self.configs[i])
        &&& rising(self.nodes)
        &&& self == Self::none() || self.joins()
    }

    /// There is a set of voters, and each makes a group with the nodes.
    pub open spec fn joins(self) -> bool {
        &&& self.configs.len() > 0
        &&& forall|i: int|
            0 <= i < self.configs.len() ==> coherent(#[trigger] self.configs[i], self.nodes)
    }

    /// Counts and addresses fit their fields.
    pub open spec fn framable(self) -> bool {
        &&& self.voters().len() <= u64::MAX / 8
        &&& self.nodes.len() <= u64::MAX / 12
        &&& forall|i: int|
            0 <= i < self.nodes.len() ==> encode_utf8((#[trigger] self.nodes[i]).addr).len()
                <= u32::MAX
    }

    /// The canonical bytes.
    pub open spec fn encoded(self) -> Seq<u8> {
        u64_bytes(self.voters().len() as u64) + nodes_bytes(self.voters()) + u64_bytes(
            self.nodes.len() as u64,
        ) + members_bytes(self.nodes)
    }
}

/// The canonical bytes of a list of members.
pub open spec fn members_bytes(nodes: Seq<MemberView>) -> Seq<u8>
    decreases nodes.len(),
{
    if nodes.len() == 0 {
        Seq::empty()
    } else {
        members_bytes(nodes.drop_last()) + (u64_bytes(nodes.last().node.0) + blob(
            encode_utf8(nodes.last().addr),
        ))
    }
}

/// A word count times the size of an element, as far as the address space goes.
pub open spec fn demand(count: u64, size: nat) -> usize {
    if count > usize::MAX || count * size > usize::MAX {
        usize::MAX
    } else {
        (count * size) as usize
    }
}

/// The count at `at`, of elements of at least `size` bytes, which the input has.
pub open spec fn count_at(input: Seq<u8>, at: int, size: nat) -> Result<(u64, int), ImageFault> {
    let count = u64_at(input, at);
    if at + 8 > input.len() {
        Err(ImageFault::Truncated)
    } else if demand(count, size) > input.len() - at - 8 {
        Err(ImageFault::Oversized { len: demand(count, size) })
    } else {
        Ok((count, at + 8))
    }
}

/// The first `count` members from `at` on and where they end, or what is wrong with them.
pub open spec fn members_at(input: Seq<u8>, at: int, count: nat) -> Result<
    (Seq<MemberView>, int),
    ImageFault,
>
    decreases count,
{
    if count == 0 {
        Ok((Seq::empty(), at))
    } else {
        match members_at(input, at, (count - 1) as nat) {
            Err(fault) => Err(fault),
            Ok((before, here)) => if here + 8 > input.len() {
                Err(ImageFault::Truncated)
            } else {
                match blob_at(input, here + 8) {
                    None => Err(ImageFault::BadAddress),
                    Some((bytes, next)) => if !valid_utf8(bytes) {
                        Err(ImageFault::BadAddress)
                    } else {
                        Ok(
                            (
                                before.push(
                                    MemberView {
                                        node: NodeId(u64_at(input, here)),
                                        addr: decode_utf8(bytes),
                                    },
                                ),
                                next,
                            ),
                        )
                    },
                }
            },
        }
    }
}

/// The members that a list of voters and one of nodes stand for.
pub open spec fn assembled(
    voters: Seq<NodeId>,
    nodes: Seq<MemberView>,
    log_id: Option<AppliedPointer>,
) -> Result<MembershipView, ImageFault> {
    let voter_set = canonical(voters);
    let node_map = gathered(nodes);
    if voter_set.len() == 0 && node_map.len() == 0 {
        Ok(MembershipView::none())
    } else if !coherent(voter_set, node_map) {
        Err(ImageFault::BadAddress)
    } else {
        Ok(MembershipView { log_id, configs: seq![voter_set], nodes: node_map })
    }
}

/// The members that several sets of voters and a list of nodes stand for.
pub open spec fn joined(
    configs: Seq<Seq<NodeId>>,
    nodes: Seq<MemberView>,
    log_id: Option<AppliedPointer>,
) -> Result<MembershipView, ImageFault> {
    let members = MembershipView {
        log_id,
        configs: configs.map_values(|voters: Seq<NodeId>| canonical(voters)),
        nodes: gathered(nodes),
    };
    if members.configs.len() == 0 && members.nodes.len() == 0 {
        Ok(MembershipView::none())
    } else if !members.joins() {
        Err(ImageFault::BadAddress)
    } else {
        Ok(members)
    }
}

/// The members at `at` and where they end, or what is wrong with them.
pub open spec fn membership_at(input: Seq<u8>, at: int, log_id: Option<AppliedPointer>) -> Result<
    (MembershipView, int),
    ImageFault,
> {
    match count_at(input, at, 8) {
        Err(fault) => Err(fault),
        Ok((voter_count, here)) => {
            let voters = nodes_at(input, here, voter_count as nat);
            match count_at(input, here + 8 * voter_count, 12) {
                Err(fault) => Err(fault),
                Ok((node_count, start)) => match members_at(input, start, node_count as nat) {
                    Err(fault) => Err(fault),
                    Ok((nodes, next)) => match assembled(voters, nodes, log_id) {
                        Err(fault) => Err(fault),
                        Ok(membership) => Ok((membership, next)),
                    },
                },
            }
        },
    }
}

impl Clone for StoredMembership {
    fn clone(&self) -> (copy: Self)
        ensures
            copy@ == self@,
    {
        let mut nodes: Vec<Member> = Vec::new();
        let mut at: usize = 0;
        while at < self.nodes.len()
            invariant
                at <= self.nodes.len(),
                nodes.len() == at,
                forall|i: int| 0 <= i < at ==> (#[trigger] nodes@[i])@ == self.nodes@[i]@,
            decreases self.nodes.len() - at,
        {
            nodes.push(self.nodes[at].clone());
            at = at + 1;
        }
        let mut configs: Vec<Vec<NodeId>> = Vec::new();
        let mut at: usize = 0;
        while at < self.configs.len()
            invariant
                at <= self.configs.len(),
                configs.len() == at,
                forall|i: int| 0 <= i < at ==> (#[trigger] configs@[i])@ == self.configs@[i]@,
            decreases self.configs.len() - at,
        {
            configs.push(clone_nodes(&self.configs[at]));
            at = at + 1;
        }
        proof {
            assert(views(nodes@) =~= views(self.nodes@));
            assert(views(configs@) =~= views(self.configs@));
        }
        StoredMembership { log_id: self.log_id, configs, nodes }
    }
}

fn is_coherent(voters: &Vec<NodeId>, nodes: &Vec<Member>) -> (sound: bool)
    ensures
        sound == coherent(voters@, views(nodes@)),
{
    if voters.len() == 0 {
        return false;
    }
    let mut at: usize = 0;
    while at < voters.len()
        invariant
            at <= voters.len(),
            forall|i: int|
                0 <= i < at ==> ranked(views(nodes@), (#[trigger] voters@[i]).0 as u128) is Some,
        decreases voters.len() - at,
    {
        if find_ranked(nodes, voters[at].as_u64() as u128).is_none() {
            return false;
        }
        at = at + 1;
    }
    true
}

fn demanded(count: u64, size: usize) -> (bytes: usize)
    requires
        size > 0,
    ensures
        bytes == demand(count, size as nat),
{
    if count > usize::MAX as u64 {
        usize::MAX
    } else {
        match (count as usize).checked_mul(size) {
            Some(bytes) => bytes,
            None => usize::MAX,
        }
    }
}

fn get_count(input: &[u8], at: usize, size: usize) -> (found: Result<(usize, usize), ImageFault>)
    requires
        at <= input.len(),
        size > 0,
    ensures
        match found {
            Ok((count, next)) => count_at(input@, at as int, size as nat) == Ok::<_, ImageFault>(
                (count as u64, next as int),
            ) && next == at + 8 && next + count * size <= input.len(),
            Err(fault) => count_at(input@, at as int, size as nat) == Err::<(u64, int), _>(fault),
        },
{
    if input.len() - at < 8 {
        return Err(ImageFault::Truncated);
    }
    let count: u64 = get_u64(input, at);
    let bytes: usize = demanded(count, size);
    if bytes > input.len() - at - 8 {
        return Err(ImageFault::Oversized { len: bytes });
    }
    Ok((count as usize, at + 8))
}

impl StoredMembership {
    /// The members of a replica that never installed any.
    pub fn none() -> (membership: Self)
        ensures
            membership@ == MembershipView::none(),
    {
        let membership: StoredMembership = StoredMembership {
            log_id: None,
            configs: Vec::new(),
            nodes: Vec::new(),
        };
        proof {
            assert(membership@ =~= MembershipView::none());
        }
        membership
    }

    /// Builds the members of a group from voters and nodes.
    pub fn assemble(
        voters: &Vec<NodeId>,
        nodes: Vec<Member>,
        log_id: Option<AppliedPointer>,
    ) -> (membership: Result<Self, ImageFault>)
        ensures
            match membership {
                Ok(membership) => assembled(voters@, views(nodes@), log_id) == Ok::<_, ImageFault>(
                    membership@,
                ) && membership@.well_formed(),
                Err(fault) => assembled(voters@, views(nodes@), log_id) == Err::<
                    MembershipView,
                    _,
                >(fault),
            },
    {
        let voter_set: Vec<NodeId> = sort_unique(voters);
        let node_map: Vec<Member> = gather(nodes);
        proof {
            lemma_canonical(voters@);
        }
        if voter_set.len() == 0 && node_map.len() == 0 {
            return Ok(Self::none());
        }
        if !is_coherent(&voter_set, &node_map) {
            return Err(ImageFault::BadAddress);
        }
        let mut configs: Vec<Vec<NodeId>> = Vec::new();
        configs.push(voter_set);
        proof {
            assert(views(configs@) =~= seq![voter_set@]);
        }
        Ok(StoredMembership { log_id, configs, nodes: node_map })
    }

    /// Builds the members of a group that may be changing from sets of voters and nodes.
    pub fn join(
        configs: &Vec<Vec<NodeId>>,
        nodes: Vec<Member>,
        log_id: Option<AppliedPointer>,
    ) -> (membership: Result<Self, ImageFault>)
        ensures
            match membership {
                Ok(membership) => joined(views(configs@), views(nodes@), log_id) == Ok::<
                    _,
                    ImageFault,
                >(membership@) && membership@.well_formed(),
                Err(fault) => joined(views(configs@), views(nodes@), log_id) == Err::<
                    MembershipView,
                    _,
                >(fault),
            },
    {
        let node_map: Vec<Member> = gather(nodes);
        let ghost wanted = MembershipView {
            log_id,
            configs: views(configs@).map_values(|voters: Seq<NodeId>| canonical(voters)),
            nodes: views(node_map@),
        };
        let mut sets: Vec<Vec<NodeId>> = Vec::new();
        let mut at: usize = 0;
        while at < configs.len()
            invariant
                at <= configs.len(),
                sets.len() == at,
                wanted.configs.len() == configs.len(),
                wanted == (MembershipView {
                    log_id,
                    configs: views(configs@).map_values(|voters: Seq<NodeId>| canonical(voters)),
                    nodes: views(node_map@),
                }),
                views(node_map@) == gathered(views(nodes@)),
                forall|i: int|
                    0 <= i < configs.len() ==> #[trigger] wanted.configs[i] == canonical(
                        configs@[i]@,
                    ),
                forall|i: int| 0 <= i < at ==> (#[trigger] sets@[i])@ == wanted.configs[i],
                forall|i: int| 0 <= i < at ==> ascending((#[trigger] sets@[i])@),
                forall|i: int| 0 <= i < at ==> coherent((#[trigger] sets@[i])@, wanted.nodes),
            decreases configs.len() - at,
        {
            let set: Vec<NodeId> = sort_unique(&configs[at]);
            proof {
                lemma_canonical(configs@[at as int]@);
                assert(wanted.configs[at as int] == set@);
            }
            if !is_coherent(&set, &node_map) {
                proof {
                    assert(!coherent(wanted.configs[at as int], wanted.nodes));
                    assert(!wanted.joins());
                }
                return Err(ImageFault::BadAddress);
            }
            sets.push(set);
            at = at + 1;
        }
        proof {
            assert(views(sets@) =~= wanted.configs);
        }
        if sets.len() == 0 {
            if node_map.len() == 0 {
                return Ok(Self::none());
            }
            return Err(ImageFault::BadAddress);
        }
        let membership: StoredMembership = StoredMembership {
            log_id,
            configs: sets,
            nodes: node_map,
        };
        proof {
            assert forall|i: int| 0 <= i < wanted.configs.len() implies coherent(
                #[trigger] wanted.configs[i],
                wanted.nodes,
            ) && ascending(wanted.configs[i]) by {
                assert(wanted.configs[i] == sets@[i]@);
            }
        }
        Ok(membership)
    }

    /// Returns everyone who votes, in whichever set, ascending.
    pub fn voters(&self) -> (voters: Vec<NodeId>)
        ensures
            voters@ == self@.voters(),
    {
        let ghost sets = views(self.configs@);
        let mut all: Vec<NodeId> = Vec::new();
        let mut at: usize = 0;
        proof {
            assert(sets.take(0) =~= Seq::empty());
        }
        while at < self.configs.len()
            invariant
                at <= self.configs.len(),
                sets == views(self.configs@),
                all@ == all_voters(sets.take(at as int)),
            decreases self.configs.len() - at,
        {
            let ghost before = all@;
            let mut of: usize = 0;
            while of < self.configs[at].len()
                invariant
                    at < self.configs.len(),
                    of <= self.configs[at as int].len(),
                    all@ == before + self.configs[at as int]@.take(of as int),
                decreases self.configs[at as int].len() - of,
            {
                all.push(self.configs[at][of]);
                of = of + 1;
                proof {
                    assert(all@ =~= before + self.configs[at as int]@.take(of as int));
                }
            }
            at = at + 1;
            proof {
                let set = self.configs@[at - 1]@;
                assert(set.take(of as int) =~= set);
                assert(sets.take(at as int).drop_last() =~= sets.take(at - 1));
                assert(sets.take(at as int).last() == set);
            }
        }
        proof {
            assert(sets.take(at as int) =~= sets);
        }
        sort_unique(&all)
    }

    /// Appends the canonical bytes.
    pub fn encode(&self, out: &mut Vec<u8>)
        ensures
            final(out)@ == old(out)@ + self@.encoded(),
    {
        let ghost start = out@;
        let voters: Vec<NodeId> = self.voters();
        put_u64(out, voters.len() as u64);
        put_nodes(out, &voters);
        put_u64(out, self.nodes.len() as u64);
        let ghost head = out@;
        let ghost all = views(self.nodes@);
        let mut at: usize = 0;
        proof {
            assert(all.take(0) =~= Seq::empty());
            assert(head + members_bytes(all.take(0)) =~= head);
        }
        while at < self.nodes.len()
            invariant
                at <= self.nodes.len(),
                all == views(self.nodes@),
                out@ == head + members_bytes(all.take(at as int)),
            decreases self.nodes.len() - at,
        {
            put_u64(out, self.nodes[at].node.as_u64());
            put_blob(out, self.nodes[at].addr.as_str().as_bytes());
            at = at + 1;
            proof {
                let now = all.take(at as int);
                assert(now.drop_last() =~= all.take(at - 1));
                assert(now.last() == self.nodes@[at - 1]@);
                assert(out@ =~= head + members_bytes(now));
            }
        }
        proof {
            assert(all.take(at as int) =~= all);
            assert(out@ =~= start + self@.encoded());
        }
    }

    /// Reads the members at `at`, installed by `log_id`, and says where they end.
    pub fn decode(input: &[u8], at: usize, log_id: Option<AppliedPointer>) -> (result: Result<
        (Self, usize),
        ImageFault,
    >)
        requires
            at <= input.len(),
        ensures
            match result {
                Ok((membership, next)) => membership_at(input@, at as int, log_id) == Ok::<
                    _,
                    ImageFault,
                >((membership@, next as int)) && next <= input.len() && membership@.well_formed(),
                Err(fault) => membership_at(input@, at as int, log_id) == Err::<
                    (MembershipView, int),
                    _,
                >(fault),
            },
    {
        let (voter_count, here): (usize, usize) = match get_count(input, at, 8) {
            Ok(found) => found,
            Err(fault) => return Err(fault),
        };
        let voters: Vec<NodeId> = get_nodes(input, here, voter_count);
        let (node_count, start): (usize, usize) = match get_count(
            input,
            here + 8 * voter_count,
            12,
        ) {
            Ok(found) => found,
            Err(fault) => return Err(fault),
        };
        let mut nodes: Vec<Member> = Vec::new();
        let mut here: usize = start;
        let mut done: usize = 0;
        proof {
            assert(views(nodes@) =~= Seq::empty());
        }
        while done < node_count
            invariant
                done <= node_count,
                start <= here <= input.len(),
                members_at(input@, start as int, done as nat) == Ok::<_, ImageFault>(
                    (views(nodes@), here as int),
                ),
                count_at(input@, at as int, 8) matches Ok((voter_count, mid)) && count_at(
                    input@,
                    mid + 8 * voter_count,
                    12,
                ) == Ok::<_, ImageFault>((node_count as u64, start as int)),
            decreases node_count - done,
        {
            let taken: Result<(Member, usize), ImageFault> = get_member(input, here);
            match taken {
                Err(fault) => {
                    proof {
                        lemma_members_fail(
                            input@,
                            start as int,
                            (done + 1) as nat,
                            node_count as nat,
                            fault,
                        );
                    }
                    return Err(fault);
                },
                Ok((member, next)) => {
                    let ghost before = nodes@;
                    nodes.push(member);
                    here = next;
                    proof {
                        assert(views(nodes@) =~= views(before).push(member@));
                    }
                },
            }
            done = done + 1;
        }
        match Self::assemble(&voters, nodes, log_id) {
            Err(fault) => Err(fault),
            Ok(membership) => Ok((membership, here)),
        }
    }
}

fn get_member(input: &[u8], here: usize) -> (taken: Result<(Member, usize), ImageFault>)
    requires
        here <= input.len(),
    ensures
        match taken {
            Ok((member, next)) => {
                &&& here + 8 <= input.len()
                &&& blob_at(input@, here + 8) matches Some((bytes, end)) && end == next
                    && valid_utf8(bytes) && member@ == (MemberView {
                    node: NodeId(u64_at(input@, here as int)),
                    addr: decode_utf8(bytes),
                })
                &&& here < next <= input.len()
            },
            Err(fault) => if here + 8 > input.len() {
                fault == ImageFault::Truncated
            } else {
                &&& fault == ImageFault::BadAddress
                &&& blob_at(input@, here + 8) matches Some((bytes, _)) ==> !valid_utf8(bytes)
            },
        },
{
    if input.len() - here < 8 {
        return Err(ImageFault::Truncated);
    }
    let node: NodeId = NodeId::from_u64(get_u64(input, here));
    match get_blob(input, here + 8) {
        None => Err(ImageFault::BadAddress),
        Some((bytes, next)) => match text_of_bytes(bytes) {
            None => Err(ImageFault::BadAddress),
            Some(addr) => Ok((Member { node, addr }, next)),
        },
    }
}

proof fn lemma_members_fail(input: Seq<u8>, at: int, n: nat, count: nat, fault: ImageFault)
    requires
        n <= count,
        members_at(input, at, n) == Err::<(Seq<MemberView>, int), _>(fault),
    ensures
        members_at(input, at, count) == Err::<(Seq<MemberView>, int), _>(fault),
    decreases count,
{
    if n < count {
        lemma_members_fail(input, at, n, (count - 1) as nat, fault);
    }
}

proof fn lemma_members_bytes_len(nodes: Seq<MemberView>)
    ensures
        members_bytes(nodes).len() >= 12 * nodes.len(),
    decreases nodes.len(),
{
    broadcast use group_fields;

    if nodes.len() > 0 {
        lemma_members_bytes_len(nodes.drop_last());
    }
}

proof fn lemma_members_round_trip(input: Seq<u8>, at: int, nodes: Seq<MemberView>)
    requires
        holds(input, at, members_bytes(nodes)),
        forall|i: int|
            0 <= i < nodes.len() ==> encode_utf8((#[trigger] nodes[i]).addr).len() <= u32::MAX,
    ensures
        members_at(input, at, nodes.len()) == Ok::<_, ImageFault>(
            (nodes, at + members_bytes(nodes).len()),
        ),
    decreases nodes.len(),
{
    if nodes.len() > 0 {
        broadcast use group_fields;

        let front = nodes.drop_last();
        let last = nodes.last();
        let word = u64_bytes(last.node.0);
        let text = encode_utf8(last.addr);
        assert(encode_utf8(nodes[nodes.len() - 1].addr).len() <= u32::MAX);
        lemma_holds_split(input, at, members_bytes(front), word + blob(text));
        let here = at + members_bytes(front).len();
        lemma_holds_split(input, here, word, blob(text));
        assert forall|i: int| 0 <= i < front.len() implies encode_utf8(
            (#[trigger] front[i]).addr,
        ).len()
            <= u32::MAX by {
            assert(front[i] == nodes[i]);
        }
        lemma_members_round_trip(input, at, front);
        lemma_holds_u64(input, here, last.node.0);
        lemma_holds_blob(input, here + 8, text);
        encode_utf8_valid_utf8(last.addr);
        encode_utf8_decode_utf8(last.addr);
        assert(front.push(last) =~= nodes);
    } else {
        assert(nodes =~= Seq::empty());
    }
}

proof fn lemma_all_voters(configs: Seq<Seq<NodeId>>, nodes: Seq<MemberView>)
    requires
        forall|i: int| 0 <= i < configs.len() ==> coherent(#[trigger] configs[i], nodes),
    ensures
        configs.len() > 0 ==> all_voters(configs).len() > 0,
        forall|i: int|
            0 <= i < all_voters(configs).len() ==> ranked(
                nodes,
                (#[trigger] all_voters(configs)[i]).0 as u128,
            ) is Some,
    decreases configs.len(),
{
    if configs.len() > 0 {
        let front = configs.drop_last();
        assert forall|i: int| 0 <= i < front.len() implies coherent(
            #[trigger] front[i],
            nodes,
        ) by {
            assert(front[i] == configs[i]);
        }
        lemma_all_voters(front, nodes);
        assert(coherent(configs[configs.len() - 1], nodes));
        let all = all_voters(configs);
        assert forall|i: int| 0 <= i < all.len() implies ranked(
            nodes,
            (#[trigger] all[i]).0 as u128,
        ) is Some by {
            if i < all_voters(front).len() {
                assert(all[i] == all_voters(front)[i]);
            } else {
                assert(all[i] == configs.last()[i - all_voters(front).len()]);
            }
        }
    }
}

/// Flat members are in order too, and vote as those that they stand for: they name the same
/// voters and have the same canonical bytes. With one set of voters they are the same.
pub proof fn law_flat_members_vote_alike(membership: MembershipView)
    requires
        membership.well_formed(),
    ensures
        membership.flat().well_formed(),
        membership.flat().voters() == membership.voters(),
        membership.flat().encoded() == membership.encoded(),
        membership.flat().flat() == membership.flat(),
        membership.configs.len() <= 1 ==> membership.flat() == membership,
{
    let voters = membership.voters();
    let all = all_voters(membership.configs);
    lemma_canonical(all);
    lemma_canonical_fixed(voters);
    if membership.configs.len() > 0 {
        lemma_all_voters(membership.configs, membership.nodes);
        let flat = membership.flat();
        assert(flat.configs.drop_last() =~= Seq::empty());
        assert(all_voters(flat.configs) =~= voters) by {
            reveal_with_fuel(all_voters, 2);
        }
        assert(all.contains(all[0]));
        assert(voters.contains(all[0]));
        assert forall|i: int| 0 <= i < voters.len() implies ranked(
            membership.nodes,
            (#[trigger] voters[i]).0 as u128,
        ) is Some by {
            assert(voters.contains(voters[i]));
            let k = choose|k: int| 0 <= k < all.len() && all[k] == voters[i];
            assert(ranked(membership.nodes, all[k].0 as u128) is Some);
        }
        assert(coherent(voters, membership.nodes));
        if membership.configs.len() == 1 {
            assert(membership.configs.drop_last() =~= Seq::empty());
            assert(all =~= membership.configs[0]) by {
                reveal_with_fuel(all_voters, 2);
            }
            lemma_canonical_fixed(membership.configs[0]);
            assert(flat.configs =~= membership.configs);
        }
    }
}

/// Members read back from their canonical bytes, wherever these stand, with one set of
/// everyone who votes.
pub proof fn law_membership_round_trip(input: Seq<u8>, at: int, membership: MembershipView)
    requires
        membership.well_formed(),
        membership.framable(),
        holds(input, at, membership.encoded()),
        input.len() <= usize::MAX,
    ensures
        membership_at(input, at, membership.log_id) == Ok::<_, ImageFault>(
            (membership.flat(), at + membership.encoded().len()),
        ),
{
    broadcast use group_fields;

    let votes = membership.voters();
    law_flat_members_vote_alike(membership);
    lemma_canonical(all_voters(membership.configs));
    let voter_word = u64_bytes(votes.len() as u64);
    let voters = nodes_bytes(votes);
    let node_word = u64_bytes(membership.nodes.len() as u64);
    let nodes = members_bytes(membership.nodes);
    lemma_nodes_bytes_len(votes);
    lemma_members_bytes_len(membership.nodes);
    lemma_holds_split(input, at, voter_word + voters + node_word, nodes);
    lemma_holds_split(input, at, voter_word + voters, node_word);
    lemma_holds_split(input, at, voter_word, voters);
    lemma_holds_u64(input, at, votes.len() as u64);
    let here = at + 8;
    lemma_holds_u64(input, here + voters.len(), membership.nodes.len() as u64);
    lemma_holds(input, here, voters);
    lemma_holds(input, at, membership.encoded());
    lemma_nodes_round_trip(input.take(here), votes);
    let prefix = input.take(here) + voters;
    assert(prefix =~= input.take(here + voters.len())) by {
        assert(input.subrange(here, here + voters.len()) == voters);
        assert(input.take(here + voters.len()) =~= input.take(here) + input.subrange(
            here,
            here + voters.len(),
        ));
    }
    assert(nodes_at(input, here, votes.len()) =~= votes) by {
        assert forall|i: int| 0 <= i < votes.len() implies nodes_at(
            input,
            here,
            votes.len(),
        )[i] == votes[i] by {
            assert(nodes_at(prefix, here, votes.len())[i] == votes[i]);
            assert(prefix.subrange(here + 8 * i, here + 8 * i + 8) =~= input.subrange(
                here + 8 * i,
                here + 8 * i + 8,
            ));
        }
    }
    lemma_members_round_trip(input, here + voters.len() + 8, membership.nodes);
    lemma_canonical_fixed(votes);
    lemma_gathered_rising(membership.nodes);
    assert(membership.encoded().len() == 8 + voters.len() + 8 + nodes.len());
}

/// A voter without a node makes no group, and neither do nodes without voters.
pub proof fn law_incoherent_members_are_refused(
    voters: Seq<NodeId>,
    nodes: Seq<MemberView>,
    log_id: Option<AppliedPointer>,
)
    requires
        voters.len() > 0 || nodes.len() > 0,
        voters.len() == 0 || exists|i: int|
            0 <= i < voters.len() && ranked(
                gathered(nodes),
                (#[trigger] voters[i]).0 as u128,
            ) is None,
    ensures
        assembled(voters, nodes, log_id) == Err::<MembershipView, _>(ImageFault::BadAddress),
{
    lemma_canonical(voters);
    if voters.len() > 0 {
        let i = choose|i: int|
            0 <= i < voters.len() && ranked(
                gathered(nodes),
                (#[trigger] voters[i]).0 as u128,
            ) is None;
        assert(voters.contains(voters[i]));
        assert(canonical(voters).contains(voters[i]));
        let k = choose|k: int| 0 <= k < canonical(voters).len()
            && canonical(voters)[k] == voters[i];
        assert(ranked(gathered(nodes), canonical(voters)[k].0 as u128) is None);
    } else {
        assert(gathered(nodes).len() > 0) by {
            lemma_gathered(nodes.drop_last());
            lemma_placed(gathered(nodes.drop_last()), nodes.last());
            assert(ranked(gathered(nodes), nodes.last().rank()) == Some(nodes.last()));
        }
    }
}

/// A node votes exactly if some configuration names it.
pub proof fn law_voters_are_named_by_a_config(membership: MembershipView, node: NodeId)
    ensures
        membership.voters().contains(node) <==> exists|i: int|
            0 <= i < membership.configs.len() && (#[trigger] membership.configs[i]).contains(
                node,
            ),
        ascending(membership.voters()),
{
    lemma_canonical(all_voters(membership.configs));
    lemma_named_in_all(membership.configs, node);
}

proof fn lemma_named_in_all(configs: Seq<Seq<NodeId>>, node: NodeId)
    ensures
        all_voters(configs).contains(node) <==> exists|i: int|
            0 <= i < configs.len() && (#[trigger] configs[i]).contains(node),
    decreases configs.len(),
{
    if configs.len() > 0 {
        let front = configs.drop_last();
        let last = configs.len() - 1;
        let before = all_voters(front);
        let all = all_voters(configs);
        lemma_named_in_all(front, node);
        if all.contains(node) {
            let k = choose|k: int| 0 <= k < all.len() && all[k] == node;
            if k < before.len() {
                assert(before[k] == node);
                let i = choose|i: int| 0 <= i < front.len() && (#[trigger] front[i]).contains(node);
                assert(configs[i].contains(node));
            } else {
                assert(configs[last][k - before.len()] == node);
                assert(configs[last].contains(node));
            }
        }
        if exists|i: int| 0 <= i < configs.len() && (#[trigger] configs[i]).contains(node) {
            let i = choose|i: int|
                0 <= i < configs.len() && (#[trigger] configs[i]).contains(node);
            if i < last {
                assert(front[i].contains(node));
                let k = choose|k: int| 0 <= k < before.len() && before[k] == node;
                assert(all[k] == node);
            } else {
                let k = choose|k: int| 0 <= k < configs[i].len() && configs[i][k] == node;
                assert(all[before.len() + k] == node);
            }
        }
    }
}

/// Members that are put together are those that were given: the voters given vote, every
/// voter has an address, and of two addresses of one node the later counts.
pub proof fn law_assembled_members_are_those_given(
    voters: Seq<NodeId>,
    nodes: Seq<MemberView>,
    log_id: Option<AppliedPointer>,
    node: NodeId,
)
    requires
        assembled(voters, nodes, log_id) is Ok,
        voters.len() > 0,
    ensures
        ({
            let members = assembled(voters, nodes, log_id)->Ok_0;
            &&& members.log_id == log_id
            &&& members.configs.len() == 1
            &&& members.configs[0].contains(node) <==> voters.contains(node)
            &&& voters.contains(node) ==> ranked(members.nodes, node.0 as u128) is Some
            &&& ranked(members.nodes, node.0 as u128) == ranked(nodes, node.0 as u128)
            &&& rising(members.nodes)
        }),
{
    lemma_canonical(voters);
    lemma_gathered(nodes);
    lemma_gathered_ranks(nodes, node.0 as u128);
    let voter_set = canonical(voters);
    assert(voters.contains(voters[0]));
    assert(voter_set.contains(voters[0]));
    if voters.contains(node) {
        assert(voter_set.contains(node));
        let k = choose|k: int| 0 <= k < voter_set.len() && voter_set[k] == node;
        assert(ranked(gathered(nodes), voter_set[k].0 as u128) is Some);
    }
}

proof fn lemma_gathered_ranks(nodes: Seq<MemberView>, rank: u128)
    ensures
        ranked(gathered(nodes), rank) == ranked(nodes, rank),
    decreases nodes.len(),
{
    if nodes.len() > 0 {
        lemma_gathered(nodes.drop_last());
        lemma_gathered_ranks(nodes.drop_last(), rank);
        lemma_placed(gathered(nodes.drop_last()), nodes.last());
    }
}

/// The image of members starts with the number of voters and the voters, and goes on
/// with the number of nodes and the nodes.
pub proof fn law_membership_layout(membership: MembershipView)
    requires
        membership.voters().len() <= u64::MAX,
        membership.nodes.len() <= u64::MAX,
    ensures
        ({
            let bytes = membership.encoded();
            let votes = membership.voters();
            let here = 8 + 8 * votes.len() as int;
            &&& u64_at(bytes, 0) == votes.len()
            &&& bytes.subrange(8, here) == nodes_bytes(votes)
            &&& u64_at(bytes, here) == membership.nodes.len()
            &&& bytes.skip(here + 8) == members_bytes(membership.nodes)
        }),
{
    broadcast use group_fields;

    let bytes = membership.encoded();
    let votes = membership.voters();
    let here = 8 + 8 * votes.len() as int;
    lemma_nodes_bytes_len(votes);
    assert(bytes.subrange(0, 8) =~= u64_bytes(votes.len() as u64));
    assert(bytes.subrange(8, here) =~= nodes_bytes(votes));
    assert(bytes.subrange(here, here + 8) =~= u64_bytes(membership.nodes.len() as u64));
    assert(bytes.skip(here + 8) =~= members_bytes(membership.nodes));
}

} // verus!
