//! The links of the peer mesh.
//!
//! Between two nodes there are two connections, one for each lane, so that bulk traffic
//! cannot hold up control traffic. The mesh keeps, for each peer, whether it is suspended,
//! which lanes are up, and how much went over them; which outgoing connections there are,
//! each with the dial that made it; and which incoming ones, each with the lanes that it
//! was seen to carry.

use crate::consensus::pinning::{
    anchor_of, anchors, key_fault, key_fault_of, law_exactly_the_given_are_trusted, pin, pinned_to,
};
use crate::consensus::tls::NodeCert;
use crate::consensus::transport::{
    bar_claim, barred, claimed, read_claim, HeadersView, Lane, PeerClaim, PeerHeaders, Refusal,
    RefusalView, TransportError, TransportErrorView,
};
use crate::control::roster::lists_node;
use crate::decimal::{decimal, push_decimal};
use crate::ids::{NodeId, NodeIncarnation};
use crate::ranked::{
    except, find_ranked, lemma_except, lemma_placed, lemma_ranked, lemma_ranked_at, place, placed,
    ranked, remove_ranked, rising, views, HasRank, Ranked,
};
use crate::time::Duration;
use crate::wire::{clone_bytes, same_bytes};
use vstd::prelude::*;

verus! {

/// Counters of one lane of a link. They wrap around.
#[derive(Debug, Clone, Copy, PartialEq, Eq, Structural)]
pub struct LaneCounters {
    /// Requests issued.
    pub requests: u64,
    /// Bytes sent.
    pub bytes_sent: u64,
    /// Bytes received.
    pub bytes_received: u64,
}

/// The link to one peer.
#[derive(Debug, Clone, Copy, PartialEq, Eq, Structural)]
pub struct PeerLink {
    /// The peer.
    pub node: NodeId,
    /// Whether the link is suspended.
    pub suspended: bool,
    /// How often it was dialed.
    pub reconnects: u64,
    /// Process generation last seen.
    pub incarnation: Option<NodeIncarnation>,
    /// Whether the control lane is up.
    pub connected_control: bool,
    /// Whether the bulk lane is up.
    pub connected_bulk: bool,
    /// Last round-trip time in milliseconds; the largest number means none.
    pub rtt_ms: u64,
    /// Requests being served for the peer.
    pub active: u64,
    /// Counters of the control lane.
    pub control: LaneCounters,
    /// Counters of the bulk lane.
    pub bulk: LaneCounters,
}

impl View for PeerLink {
    type V = PeerLink;

    open spec fn view(&self) -> PeerLink {
        *self
    }
}

impl Ranked for PeerLink {
    open spec fn rank(self) -> u128 {
        self.node.0 as u128
    }
}

impl HasRank<PeerLink> for PeerLink {
    fn rank_number(&self) -> u128 {
        self.node.as_u64() as u128
    }
}

/// An outgoing connection and the dial that made it.
#[derive(Debug, Clone, Copy, PartialEq, Eq, Structural)]
pub struct Outgoing {
    /// The peer.
    pub node: NodeId,
    /// The lane.
    pub lane: Lane,
    /// The dial.
    pub generation: u64,
}

/// The rank of a lane of a peer.
pub open spec fn lane_rank(node: NodeId, lane: Lane) -> u128 {
    (2 * node.0 + if lane is Control {
        0int
    } else {
        1int
    }) as u128
}

fn rank_of_lane(node: NodeId, lane: Lane) -> (rank: u128)
    ensures
        rank == lane_rank(node, lane),
{
    match lane {
        Lane::Control => 2 * node.as_u64() as u128,
        Lane::Bulk => 2 * node.as_u64() as u128 + 1,
    }
}

impl View for Outgoing {
    type V = Outgoing;

    open spec fn view(&self) -> Outgoing {
        *self
    }
}

impl Ranked for Outgoing {
    open spec fn rank(self) -> u128 {
        lane_rank(self.node, self.lane)
    }
}

impl HasRank<Outgoing> for Outgoing {
    fn rank_number(&self) -> u128 {
        rank_of_lane(self.node, self.lane)
    }
}

/// An incoming connection and the lanes that it was seen to carry.
#[derive(Debug, Clone, Copy, PartialEq, Eq, Structural)]
pub struct IncomingConn {
    /// The peer.
    pub node: NodeId,
    /// Identity of the connection.
    pub id: u64,
    /// Whether it carried control requests.
    pub control: bool,
    /// Whether it carried bulk requests.
    pub bulk: bool,
}

/// The rank of a connection of a peer.
pub open spec fn conn_rank(node: NodeId, id: u64) -> u128 {
    (0x1_0000_0000_0000_0000 * node.0 + id) as u128
}

fn rank_of_conn(node: NodeId, id: u64) -> (rank: u128)
    ensures
        rank == conn_rank(node, id),
{
    0x1_0000_0000_0000_0000 * node.as_u64() as u128 + id as u128
}

impl View for IncomingConn {
    type V = IncomingConn;

    open spec fn view(&self) -> IncomingConn {
        *self
    }
}

impl Ranked for IncomingConn {
    open spec fn rank(self) -> u128 {
        conn_rank(self.node, self.id)
    }
}

impl HasRank<IncomingConn> for IncomingConn {
    fn rank_number(&self) -> u128 {
        rank_of_conn(self.node, self.id)
    }
}

/// Whether a connection of `node` among `conns` carries `lane`.
pub open spec fn carried(conns: Seq<IncomingConn>, node: NodeId, lane: Lane) -> bool {
    exists|i: int|
        0 <= i < conns.len() && (#[trigger] conns[i]).node == node && match lane {
            Lane::Control => conns[i].control,
            Lane::Bulk => conns[i].bulk,
        }
}

/// The connections of other peers than `node`, in their order.
pub open spec fn of_others(conns: Seq<IncomingConn>, node: NodeId) -> Seq<IncomingConn>
    decreases conns.len(),
{
    if conns.len() == 0 {
        conns
    } else if conns.last().node == node {
        of_others(conns.drop_last(), node)
    } else {
        of_others(conns.drop_last(), node).push(conns.last())
    }
}

/// The identities of the connections of `node`, in their order.
pub open spec fn ids_of(conns: Seq<IncomingConn>, node: NodeId) -> Seq<u64>
    decreases conns.len(),
{
    if conns.len() == 0 {
        Seq::empty()
    } else if conns.last().node == node {
        ids_of(conns.drop_last(), node).push(conns.last().id)
    } else {
        ids_of(conns.drop_last(), node)
    }
}

/// The peer mesh of one node.
#[derive(Debug, PartialEq, Eq)]
pub struct PeerTransport {
    pub(crate) local: NodeId,
    pub(crate) links: Vec<PeerLink>,
    pub(crate) outgoing: Vec<Outgoing>,
    pub(crate) incoming: Vec<IncomingConn>,
    pub(crate) running: bool,
    pub(crate) ready: bool,
    pub(crate) active_streams: u64,
}

/// What a [`PeerTransport`] says.
#[verifier::ext_equal]
pub struct MeshView {
    /// This node.
    pub local: NodeId,
    /// The links, in the order of their peers.
    pub links: Seq<PeerLink>,
    /// The outgoing connections, in order.
    pub outgoing: Seq<Outgoing>,
    /// The incoming connections, in order.
    pub incoming: Seq<IncomingConn>,
    /// Whether the mesh runs.
    pub running: bool,
    /// Whether dialing and serving were started.
    pub ready: bool,
    /// Streams in flight.
    pub active_streams: u64,
}

impl View for PeerTransport {
    type V = MeshView;

    open(crate) spec fn view(&self) -> MeshView {
        MeshView {
            local: self.local,
            links: views(self.links@),
            outgoing: views(self.outgoing@),
            incoming: views(self.incoming@),
            running: self.running,
            ready: self.ready,
            active_streams: self.active_streams,
        }
    }
}

/// A link that was never used.
pub open spec fn new_link(node: NodeId) -> PeerLink {
    let none = LaneCounters { requests: 0, bytes_sent: 0, bytes_received: 0 };
    PeerLink {
        node,
        suspended: false,
        reconnects: 0,
        incarnation: None,
        connected_control: false,
        connected_bulk: false,
        rtt_ms: u64::MAX,
        active: 0,
        control: none,
        bulk: none,
    }
}

/// A counter so much further; it wraps around.
pub open spec fn bumped(count: u64, by: u64) -> u64 {
    if count + by <= u64::MAX {
        (count + by) as u64
    } else {
        (count + by - u64::MAX - 1) as u64
    }
}

/// A counter one back; it wraps around.
pub open spec fn lowered(count: u64) -> u64 {
    if count == 0 {
        u64::MAX
    } else {
        (count - 1) as u64
    }
}

impl PeerLink {
    /// Builds the link to a peer.
    pub fn new(node: NodeId) -> (link: Self)
        ensures
            link == new_link(node),
    {
        let none: LaneCounters = LaneCounters { requests: 0, bytes_sent: 0, bytes_received: 0 };
        PeerLink {
            node,
            suspended: false,
            reconnects: 0,
            incarnation: None,
            connected_control: false,
            connected_bulk: false,
            rtt_ms: u64::MAX,
            active: 0,
            control: none,
            bulk: none,
        }
    }

    /// Returns the last round-trip time, if there was one.
    pub fn rtt(&self) -> (rtt: Option<u64>)
        ensures
            rtt == if self.rtt_ms == u64::MAX {
                None
            } else {
                Some(self.rtt_ms)
            },
    {
        if self.rtt_ms == u64::MAX {
            None
        } else {
            Some(self.rtt_ms)
        }
    }

    /// The link with one lane up or down.
    pub open spec fn with_lane(self, lane: Lane, up: bool) -> Self {
        match lane {
            Lane::Control => PeerLink { connected_control: up, ..self },
            Lane::Bulk => PeerLink { connected_bulk: up, ..self },
        }
    }

    /// The link with one more request on a lane.
    pub open spec fn with_request(self, lane: Lane) -> Self {
        match lane {
            Lane::Control => PeerLink {
                control: LaneCounters {
                    requests: bumped(self.control.requests, 1),
                    ..self.control
                },
                ..self
            },
            Lane::Bulk => PeerLink {
                bulk: LaneCounters { requests: bumped(self.bulk.requests, 1), ..self.bulk },
                ..self
            },
        }
    }

    /// The link after so many bytes went over a lane.
    pub open spec fn with_traffic(self, lane: Lane, sent: u64, received: u64) -> Self {
        match lane {
            Lane::Control => PeerLink {
                control: LaneCounters {
                    bytes_sent: bumped(self.control.bytes_sent, sent),
                    bytes_received: bumped(self.control.bytes_received, received),
                    ..self.control
                },
                ..self
            },
            Lane::Bulk => PeerLink {
                bulk: LaneCounters {
                    bytes_sent: bumped(self.bulk.bytes_sent, sent),
                    bytes_received: bumped(self.bulk.bytes_received, received),
                    ..self.bulk
                },
                ..self
            },
        }
    }
}

/// A round-trip time as the counter holds it.
pub open spec fn rtt_counter(millis: u128) -> u64 {
    if millis <= u64::MAX {
        millis as u64
    } else {
        u64::MAX
    }
}

fn count_rtt(millis: u128) -> (counter: u64)
    ensures
        counter == rtt_counter(millis),
{
    if millis <= u64::MAX as u128 {
        millis as u64
    } else {
        u64::MAX
    }
}

impl MeshView {
    /// Whether streams of a peer are in flight.
    pub open spec fn busy(self, peer: NodeId) -> bool {
        self.link_of(peer) matches Some(link) && link.active > 0
    }

    /// Links, outgoing and incoming connections occur once and in order, and the node has
    /// no link to itself.
    pub open spec fn well_formed(self) -> bool {
        &&& rising(self.links)
        &&& rising(self.outgoing)
        &&& rising(self.incoming)
        &&& ranked(self.links, self.local.0 as u128) is None
    }

    /// The link to a peer.
    pub open spec fn link_of(self, node: NodeId) -> Option<PeerLink> {
        ranked(self.links, node.0 as u128)
    }

    /// Whether a peer is suspended.
    pub open spec fn suspends(self, node: NodeId) -> bool {
        self.link_of(node) matches Some(link) && link.suspended
    }

    /// The outgoing connection to a peer on a lane.
    pub open spec fn outgoing_of(self, node: NodeId, lane: Lane) -> Option<Outgoing> {
        ranked(self.outgoing, lane_rank(node, lane))
    }

    /// The mesh with a link changed.
    pub open spec fn with_link(self, link: PeerLink) -> Self {
        MeshView { links: placed(self.links, link), ..self }
    }

    /// Who may be served, or why a request is refused.
    pub open spec fn admitted(self, headers: HeadersView, bound: Option<NodeId>) -> Result<
        PeerClaim,
        RefusalView,
    > {
        match claimed(headers) {
            Err(refusal) => Err(refusal),
            Ok(claim) => match barred(claim, bound, self.suspends(claim.node)) {
                Some(refusal) => Err(refusal),
                None => Ok(claim),
            },
        }
    }

    /// Why a call may not be made, if it may not.
    pub open spec fn call_barred(self, target: NodeId) -> Option<TransportErrorView> {
        if self.link_of(target) is None {
            Some(TransportErrorView::UnknownPeer { node: target.0 })
        } else if !self.running {
            Some(TransportErrorView::ShuttingDown)
        } else {
            None
        }
    }

    /// The mesh after so many bytes went over a lane.
    pub open spec fn with_traffic(
        self,
        target: NodeId,
        lane: Lane,
        sent: u64,
        received: u64,
    ) -> Self {
        match self.link_of(target) {
            None => self,
            Some(link) => self.with_link(link.with_traffic(lane, sent, received)),
        }
    }

    /// The mesh after a call began.
    pub open spec fn call_begun(self, target: NodeId, lane: Lane) -> Self {
        match self.link_of(target) {
            None => self,
            Some(link) => MeshView {
                active_streams: bumped(self.active_streams, 1),
                ..self.with_link(link.with_request(lane))
            },
        }
    }

    /// The mesh after the round trip of a call ended.
    pub open spec fn call_ended(self) -> Self {
        MeshView { active_streams: lowered(self.active_streams), ..self }
    }

    /// The mesh with the process generation of a peer.
    pub open spec fn with_incarnation(self, node: NodeId, incarnation: NodeIncarnation) -> Self {
        match self.link_of(node) {
            Some(link) => self.with_link(PeerLink { incarnation: Some(incarnation), ..link }),
            None => self,
        }
    }

    /// The mesh after serving a request of a peer began.
    pub open spec fn serving_begun(self, node: NodeId) -> Self {
        let counted = match self.link_of(node) {
            None => self,
            Some(link) => self.with_link(PeerLink { active: bumped(link.active, 1), ..link }),
        };
        MeshView { active_streams: bumped(self.active_streams, 1), ..counted }
    }

    /// The mesh after serving a request of a peer ended.
    pub open spec fn serving_ended(self, node: NodeId) -> Self {
        let counted = match self.link_of(node) {
            None => self,
            Some(link) => self.with_link(PeerLink { active: lowered(link.active), ..link }),
        };
        MeshView { active_streams: lowered(self.active_streams), ..counted }
    }

    /// The mesh after a lane was connected. Its handshake is still to come.
    pub open spec fn connected(self, node: NodeId, lane: Lane, rtt: u128) -> Self {
        match self.link_of(node) {
            None => self,
            Some(link) => self.with_link(
                (PeerLink {
                    reconnects: bumped(link.reconnects, 1),
                    rtt_ms: rtt_counter(rtt),
                    ..link
                }).with_lane(lane, true),
            ),
        }
    }

    /// The mesh after the handshake of a connected lane, which calls can use from here on.
    pub open spec fn dialed(self, node: NodeId, lane: Lane) -> Self {
        match self.link_of(node) {
            None => self,
            Some(link) => MeshView {
                outgoing: placed(
                    self.outgoing,
                    Outgoing { node, lane, generation: link.reconnects },
                ),
                ..self
            },
        }
    }

    /// The mesh after the driver of a dialed connection ended. A newer connection stays.
    pub open spec fn driver_ended(self, node: NodeId, lane: Lane, generation: u64) -> Self {
        if self.outgoing_of(node, lane) == Some(Outgoing { node, lane, generation }) {
            MeshView { outgoing: except(self.outgoing, lane_rank(node, lane)), ..self }
        } else {
            self
        }
    }

    /// The mesh after an outgoing connection was dropped.
    pub open spec fn outgoing_dropped(self, node: NodeId, lane: Lane) -> Self {
        let rest = MeshView { outgoing: except(self.outgoing, lane_rank(node, lane)), ..self };
        match self.link_of(node) {
            None => rest,
            Some(link) => rest.with_link(link.with_lane(lane, false)),
        }
    }

    /// The mesh after all connections of a peer were dropped.
    pub open spec fn peer_dropped(self, node: NodeId) -> Self {
        let rest = MeshView {
            outgoing: except(
                except(self.outgoing, lane_rank(node, Lane::Control)),
                lane_rank(node, Lane::Bulk),
            ),
            incoming: of_others(self.incoming, node),
            ..self
        };
        match self.link_of(node) {
            None => rest,
            Some(link) => rest.with_link(
                PeerLink { connected_control: false, connected_bulk: false, ..link },
            ),
        }
    }

    /// The mesh with the lanes of a link as its incoming connections carry them.
    pub open spec fn with_lanes_of_incoming(self, node: NodeId) -> Self {
        match self.link_of(node) {
            None => self,
            Some(link) => self.with_link(
                PeerLink {
                    connected_control: carried(self.incoming, node, Lane::Control),
                    connected_bulk: carried(self.incoming, node, Lane::Bulk),
                    ..link
                },
            ),
        }
    }

    /// The connection `id` of a peer, as known so far.
    pub open spec fn conn_of(self, node: NodeId, id: u64) -> IncomingConn {
        match ranked(self.incoming, conn_rank(node, id)) {
            Some(conn) => conn,
            None => IncomingConn { node, id, control: false, bulk: false },
        }
    }

    /// The mesh after a request came in on a lane.
    pub open spec fn inbound_noted(self, node: NodeId, lane: Lane, id: u64, rtt: u128) -> Self {
        let conn = match lane {
            Lane::Control => IncomingConn { control: true, ..self.conn_of(node, id) },
            Lane::Bulk => IncomingConn { bulk: true, ..self.conn_of(node, id) },
        };
        let noted = MeshView { incoming: placed(self.incoming, conn), ..self };
        match noted.link_of(node) {
            None => noted,
            Some(link) => noted.with_link(
                PeerLink {
                    connected_control: carried(noted.incoming, node, Lane::Control),
                    connected_bulk: carried(noted.incoming, node, Lane::Bulk),
                    rtt_ms: rtt_counter(rtt),
                    ..link
                },
            ),
        }
    }

    /// The mesh after an incoming connection closed.
    pub open spec fn incoming_forgotten(self, node: NodeId, id: u64) -> Self {
        (MeshView {
            incoming: except(self.incoming, conn_rank(node, id)),
            ..self
        }).with_lanes_of_incoming(node)
    }
}

/// What the dial loop of a peer does next.
#[derive(Debug, Clone, Copy, PartialEq, Eq, Structural)]
pub enum DialStep {
    /// Ends.
    Stop,
    /// Waits a moment, this long.
    Nap(Duration),
    /// Dials what is missing, the control lane first.
    Dial {
        /// Whether the control lane is missing.
        control: bool,
        /// Whether the bulk lane is missing.
        bulk: bool,
    },
}

/// How long a dial loop waits that has nothing to dial.
pub open spec fn nap() -> Duration {
    Duration { nanos: 200_000_000 }
}

/// What a loop does that waits for dialing and serving to start.
#[derive(Debug, Clone, Copy, PartialEq, Eq, Structural)]
pub enum StartStep {
    /// Goes to work.
    Go,
    /// Ends.
    Stop,
    /// Waits this long, and asks again.
    Wait(Duration),
}

/// What a suspension does while streams of the peer are in flight.
#[derive(Debug, Clone, Copy, PartialEq, Eq, Structural)]
pub enum DrainStep {
    /// Is done.
    Done,
    /// Waits this long, and asks again.
    Wait(Duration),
}

/// What is done about an address that could not be bound.
#[derive(Debug, Clone, Copy, PartialEq, Eq, Structural)]
pub enum BindStep {
    /// Gives up.
    Fail,
    /// Waits this long, and tries again.
    Retry(Duration),
}

/// Says what is done about an address that could not be bound, `waited` after the first try.
/// A socket that an earlier process still holds is waited for, but not for ever.
pub fn bind_step(waited: Duration) -> (step: BindStep)
    ensures
        step == if waited.nanos >= 15_000_000_000 {
            BindStep::Fail
        } else {
            BindStep::Retry(Duration { nanos: 100_000_000 })
        },
{
    if waited.nanos >= 15_000_000_000 {
        BindStep::Fail
    } else {
        BindStep::Retry(Duration::from_millis(100))
    }
}

/// Says how long a shutdown waits for the mesh to be torn down before it goes on.
pub fn teardown_limit() -> (limit: Duration)
    ensures
        limit.nanos == 5_000_000_000,
{
    Duration::from_secs(5)
}

/// The lane that a round of dials turns to, after `last` was dialed with success or without:
/// the control lane comes first, and a lane that fails ends the round.
pub open spec fn turn(control: bool, bulk: bool, last: Option<(Lane, bool)>) -> Option<Lane> {
    match last {
        None => if control {
            Some(Lane::Control)
        } else if bulk {
            Some(Lane::Bulk)
        } else {
            None
        },
        Some((Lane::Control, true)) => if bulk {
            Some(Lane::Bulk)
        } else {
            None
        },
        Some(_) => None,
    }
}

/// Says which lane a round of dials turns to, given which are missing and how the last dial
/// of the round went.
pub fn next_lane(control: bool, bulk: bool, last: Option<(Lane, bool)>) -> (lane: Option<Lane>)
    ensures
        lane == turn(control, bulk, last),
{
    match last {
        None => {
            if control {
                Some(Lane::Control)
            } else if bulk {
                Some(Lane::Bulk)
            } else {
                None
            }
        },
        Some((Lane::Control, true)) => {
            if bulk {
                Some(Lane::Bulk)
            } else {
                None
            }
        },
        Some(_) => None,
    }
}

/// Diagnostics of one peer.
#[derive(Debug, Clone, Copy, PartialEq, Eq, Structural)]
pub struct PeerStats {
    /// The peer.
    pub node: NodeId,
    /// Whether the control lane is up.
    pub connected_control: bool,
    /// Whether the bulk lane is up.
    pub connected_bulk: bool,
    /// Whether the link is suspended.
    pub suspended: bool,
    /// Process generation last seen.
    pub incarnation: Option<NodeIncarnation>,
    /// How often it was dialed.
    pub reconnects: u64,
    /// Counters of the control lane.
    pub control: LaneCounters,
    /// Counters of the bulk lane.
    pub bulk: LaneCounters,
    /// Last round-trip time in milliseconds.
    pub rtt_ms: Option<u64>,
    /// Streams in flight, over all peers.
    pub active_streams: u64,
}

/// The diagnostics of a link.
pub open spec fn stats_of(link: PeerLink, active_streams: u64) -> PeerStats {
    PeerStats {
        node: link.node,
        connected_control: link.connected_control,
        connected_bulk: link.connected_bulk,
        suspended: link.suspended,
        incarnation: link.incarnation,
        reconnects: link.reconnects,
        control: link.control,
        bulk: link.bulk,
        rtt_ms: if link.rtt_ms == u64::MAX {
            None
        } else {
            Some(link.rtt_ms)
        },
        active_streams,
    }
}

/// A certificate that a peer is known by.
#[derive(Debug, PartialEq, Eq)]
pub struct PeerCert {
    /// The peer.
    pub node: NodeId,
    /// Its certificate, in DER.
    pub der: Vec<u8>,
}

/// What a [`PeerCert`] says.
#[verifier::ext_equal]
pub struct PeerCertView {
    pub node: NodeId,
    pub der: Seq<u8>,
}

impl View for PeerCert {
    type V = PeerCertView;

    open spec fn view(&self) -> PeerCertView {
        PeerCertView { node: self.node, der: self.der@ }
    }
}

impl Clone for PeerCert {
    fn clone(&self) -> (copy: Self)
        ensures
            copy@ == self@,
    {
        PeerCert { node: self.node, der: clone_bytes(&self.der) }
    }
}

/// The nodes that `certs` are of, in order.
pub open spec fn owners(certs: Seq<PeerCert>) -> Seq<NodeId> {
    Seq::new(certs.len(), |i: int| certs[i].node)
}

/// TLS material of a node: its own certificate, and how it verifies everyone else.
#[derive(Debug, Clone, PartialEq, Eq)]
pub struct TlsMaterial {
    /// The node's certificate and key.
    pub cert: NodeCert,
    /// Certificates of the peers.
    pub peer_certs: Vec<PeerCert>,
    /// Whether peers are not verified. For tests only: anyone could pose as a member.
    pub insecure_skip_verify: bool,
}

impl TlsMaterial {
    /// Returns the nodes whose certificates are pinned.
    pub fn pinned(&self) -> (nodes: Vec<NodeId>)
        ensures
            nodes@ == owners(self.peer_certs@),
    {
        let mut nodes: Vec<NodeId> = Vec::new();
        let mut at: usize = 0;
        while at < self.peer_certs.len()
            invariant
                at <= self.peer_certs.len(),
                nodes.len() == at,
                forall|i: int| 0 <= i < at ==> nodes@[i] == self.peer_certs@[i].node,
            decreases self.peer_certs.len() - at,
        {
            nodes.push(self.peer_certs[at].node);
            at = at + 1;
        }
        proof {
            assert(nodes@ =~= owners(self.peer_certs@));
        }
        nodes
    }
}

/// The first of `certs` that is `leaf`.
pub open spec fn cert_owner(certs: Seq<PeerCert>, leaf: Seq<u8>) -> Option<NodeId>
    decreases certs.len(),
{
    if certs.len() == 0 {
        None
    } else {
        match cert_owner(certs.drop_last(), leaf) {
            Some(node) => Some(node),
            None => if certs.last().der@ == leaf {
                Some(certs.last().node)
            } else {
                None
            },
        }
    }
}

/// Returns the peer whose certificate a connection presented, if it presented one that is
/// known.
pub fn incoming_peer(certs: &Vec<PeerCert>, leaf: Option<&[u8]>) -> (node: Option<NodeId>)
    ensures
        node == match leaf {
            Some(leaf) => cert_owner(certs@, leaf@),
            None => None,
        },
{
    let presented: &[u8] = match leaf {
        Some(presented) => presented,
        None => return None,
    };
    let mut at: usize = 0;
    proof {
        assert(certs@.take(0) =~= Seq::empty());
    }
    while at < certs.len()
        invariant
            at <= certs.len(),
            leaf == Some(presented),
            cert_owner(certs@.take(at as int), presented@) is None,
        decreases certs.len() - at,
    {
        proof {
            assert(certs@.take(at + 1).drop_last() =~= certs@.take(at as int));
            assert(certs@.take(at + 1).last() == certs@[at as int]);
        }
        if same_bytes(&certs[at].der, presented) {
            proof {
                assert(cert_owner(certs@.take(at + 1), presented@) == Some(certs@[at as int].node));
                lemma_cert_owner(certs@, presented@, at + 1);
            }
            return Some(certs[at].node);
        }
        at = at + 1;
    }
    proof {
        assert(certs@.take(at as int) =~= certs@);
    }
    None
}

proof fn lemma_cert_owner(certs: Seq<PeerCert>, leaf: Seq<u8>, n: int)
    requires
        0 <= n <= certs.len(),
        cert_owner(certs.take(n), leaf) is Some,
    ensures
        cert_owner(certs, leaf) == cert_owner(certs.take(n), leaf),
    decreases certs.len() - n,
{
    if n < certs.len() {
        assert(certs.take(n + 1).drop_last() =~= certs.take(n));
        lemma_cert_owner(certs, leaf, n + 1);
    } else {
        assert(certs.take(n) =~= certs);
    }
}

/// Whether a connection is served: with certificates it must be bound to a peer.
pub fn serves_connection(bound: Option<NodeId>, insecure: bool) -> (serve: bool)
    ensures
        serve == (insecure || bound is Some),
{
    insecure || bound.is_some()
}

/// The first of `peers` that is not `local` and has no certificate in `pinned`.
pub open spec fn unpinned(peers: Seq<NodeId>, local: NodeId, pinned: Seq<NodeId>) -> Option<NodeId>
    decreases peers.len(),
{
    if peers.len() == 0 {
        None
    } else {
        match unpinned(peers.drop_last(), local, pinned) {
            Some(node) => Some(node),
            None => if peers.last() != local && !pinned.contains(peers.last()) {
                Some(peers.last())
            } else {
                None
            },
        }
    }
}

/// The links to all of `peers` but `local`.
pub open spec fn links_to(peers: Seq<NodeId>, local: NodeId) -> Seq<PeerLink>
    decreases peers.len(),
{
    if peers.len() == 0 {
        Seq::empty()
    } else if peers.last() == local {
        links_to(peers.drop_last(), local)
    } else {
        placed(links_to(peers.drop_last(), local), new_link(peers.last()))
    }
}

proof fn lemma_links_to(peers: Seq<NodeId>, local: NodeId)
    ensures
        rising(links_to(peers, local)),
        ranked(links_to(peers, local), local.0 as u128) is None,
        forall|node: NodeId|
            node != local && peers.contains(node) ==> #[trigger] ranked(
                links_to(peers, local),
                node.0 as u128,
            ) == Some(new_link(node)),
    decreases peers.len(),
{
    if peers.len() > 0 {
        let front = peers.drop_last();
        lemma_links_to(front, local);
        lemma_placed(links_to(front, local), new_link(peers.last()));
        assert forall|node: NodeId| node != local && peers.contains(node) implies
            #[trigger] ranked(links_to(peers, local), node.0 as u128) == Some(new_link(node)) by {
            let k = choose|k: int| 0 <= k < peers.len() && peers[k] == node;
            if k < front.len() {
                assert(front[k] == node);
                assert(front.contains(node));
                assert(ranked(links_to(front, local), node.0 as u128) == Some(new_link(node)));
            }
            if peers.last() != local {
                assert(ranked(
                    placed(links_to(front, local), new_link(peers.last())),
                    node.0 as u128,
                ) == if node == peers.last() {
                    Some(new_link(peers.last()))
                } else {
                    ranked(links_to(front, local), node.0 as u128)
                });
            }
        }
    }
}

/// What is wrong with the TLS material of a node.
#[derive(Debug, PartialEq, Eq)]
pub struct TlsFaults {
    /// Why the private key is of no known form.
    pub key: Option<String>,
    /// Why no server could be set up with certificate and key.
    pub server: Option<String>,
    /// Why the certificates of the peers could not be pinned.
    pub pins: Option<String>,
}

/// What [`TlsFaults`] say.
#[verifier::ext_equal]
pub struct TlsFaultsView {
    pub key: Option<Seq<char>>,
    pub server: Option<Seq<char>>,
    pub pins: Option<Seq<char>>,
}

/// Optional text, by its view.
pub open spec fn fault_text(fault: Option<String>) -> Option<Seq<char>> {
    match fault {
        Some(text) => Some(text@),
        None => None,
    }
}

impl View for TlsFaults {
    type V = TlsFaultsView;

    open spec fn view(&self) -> TlsFaultsView {
        TlsFaultsView {
            key: fault_text(self.key),
            server: fault_text(self.server),
            pins: fault_text(self.pins),
        }
    }
}

/// What is wrong with the TLS material `tls`, where setting up a server with it gave
/// `server`. Without verification no peer is pinned.
pub open spec fn tls_faults(tls: TlsMaterial, server: Option<Seq<char>>) -> TlsFaultsView {
    TlsFaultsView {
        key: key_fault_of(tls.cert.key_der@),
        server,
        pins: if tls.insecure_skip_verify {
            None
        } else {
            match pinned_to(views(tls.peer_certs@)) {
                Ok(_) => None,
                Err(text) => Some(text),
            }
        },
    }
}

/// The mesh that opens for a list of peers, or the first reason why it does not: a peer
/// without a certificate, the key, the server, the pins.
pub open spec fn opened(
    local: NodeId,
    peers: Seq<NodeId>,
    pinned: Seq<NodeId>,
    insecure: bool,
    faults: TlsFaultsView,
    paused: bool,
) -> Result<MeshView, TransportErrorView> {
    let missing = unpinned(peers, local, pinned);
    if missing is Some && !insecure {
        let node = missing->0;
        Err(
            TransportErrorView::Unreachable {
                detail: "no pinned peer certificate for node "@ + decimal(node.0 as nat),
            },
        )
    } else if let Some(text) = faults.key {
        Err(TransportErrorView::Unreachable { detail: "peer key invalid: "@ + text })
    } else if let Some(text) = faults.server {
        Err(TransportErrorView::Unreachable { detail: text })
    } else if let Some(text) = faults.pins {
        Err(TransportErrorView::Unreachable { detail: "peer TLS client config: "@ + text })
    } else {
        Ok(
            MeshView {
                local,
                links: links_to(peers, local),
                outgoing: Seq::empty(),
                incoming: Seq::empty(),
                running: true,
                ready: !paused,
                active_streams: 0,
            },
        )
    }
}

/// A mesh opens exactly on coherent material: the key is of a known form and a server could
/// be set up with it, and unless verification is off, every peer has a certificate and every
/// certificate makes an anchor.
pub proof fn law_meshes_open_on_coherent_material(
    local: NodeId,
    peers: Seq<NodeId>,
    tls: TlsMaterial,
    server: Option<Seq<char>>,
    paused: bool,
)
    ensures
        opened(
            local,
            peers,
            owners(tls.peer_certs@),
            tls.insecure_skip_verify,
            tls_faults(tls, server),
            paused,
        ) is Ok <==> {
            &&& key_fault_of(tls.cert.key_der@) is None
            &&& server is None
            &&& tls.insecure_skip_verify || {
                &&& unpinned(peers, local, owners(tls.peer_certs@)) is None
                &&& forall|i: int|
                    0 <= i < tls.peer_certs@.len() ==> anchor_of(
                        (#[trigger] views(tls.peer_certs@)[i]).der,
                    ) is Ok
            }
        },
{
    law_exactly_the_given_are_trusted(views(tls.peer_certs@));
}

fn find_unpinned(peers: &Vec<NodeId>, local: NodeId, pinned: &Vec<NodeId>) -> (found: Option<
    NodeId,
>)
    ensures
        found == unpinned(peers@, local, pinned@),
{
    let mut found: Option<NodeId> = None;
    let mut at: usize = 0;
    proof {
        assert(peers@.take(0) =~= Seq::empty());
    }
    while at < peers.len()
        invariant
            at <= peers.len(),
            found == unpinned(peers@.take(at as int), local, pinned@),
        decreases peers.len() - at,
    {
        proof {
            assert(peers@.take(at + 1).drop_last() =~= peers@.take(at as int));
            assert(peers@.take(at + 1).last() == peers@[at as int]);
        }
        if found.is_none() && peers[at] != local && !lists_node(pinned, peers[at]) {
            found = Some(peers[at]);
        }
        at = at + 1;
    }
    proof {
        assert(peers@.take(at as int) =~= peers@);
    }
    found
}

impl PeerTransport {
    /// Opens the mesh of `local` with `peers`, and returns the anchors that connections to
    /// them are verified against; none where verification is off. `server_fault` is why no
    /// server could be set up with the node's certificate and key, if none could.
    ///
    /// Unless verification is off, every peer needs a pinned certificate, and every
    /// certificate must make an anchor. The key must be of a known form in any case.
    pub fn open(
        local: NodeId,
        peers: &Vec<NodeId>,
        tls: &TlsMaterial,
        server_fault: Option<String>,
        paused: bool,
    ) -> (result: Result<(Self, Option<rustls::RootCertStore>), TransportError>)
        ensures
            ({
                let opened = opened(
                    local,
                    peers@,
                    owners(tls.peer_certs@),
                    tls.insecure_skip_verify,
                    tls_faults(*tls, fault_text(server_fault)),
                    paused,
                );
                match result {
                    Ok((mesh, roots)) => {
                        &&& opened == Ok::<_, TransportErrorView>(mesh@)
                        &&& mesh@.well_formed()
                        &&& match roots {
                            Some(roots) => !tls.insecure_skip_verify && pinned_to(
                                views(tls.peer_certs@),
                            ) == Ok::<_, Seq<char>>(anchors(roots)),
                            None => tls.insecure_skip_verify,
                        }
                    },
                    Err(error) => opened == Err::<MeshView, _>(error@),
                }
            }),
    {
        let (roots, pins): (Option<rustls::RootCertStore>, Option<String>) =
            if tls.insecure_skip_verify {
            (None, None)
        } else {
            match pin(&tls.peer_certs) {
                Ok(roots) => (Some(roots), None),
                Err(text) => (None, Some(text)),
            }
        };
        let faults: TlsFaults = TlsFaults {
            key: key_fault(&tls.cert.key_der),
            server: server_fault,
            pins,
        };
        proof {
            assert(faults@ =~= tls_faults(*tls, fault_text(server_fault)));
        }
        match Self::open_with(local, peers, &tls.pinned(), tls.insecure_skip_verify, faults, paused)
        {
            Ok(mesh) => Ok((mesh, roots)),
            Err(error) => Err(error),
        }
    }

    /// Opens the mesh of `local` with `peers`, of whom `pinned` have certificates, given what
    /// is wrong with the TLS material.
    pub fn open_with(
        local: NodeId,
        peers: &Vec<NodeId>,
        pinned: &Vec<NodeId>,
        insecure: bool,
        faults: TlsFaults,
        paused: bool,
    ) -> (result: Result<Self, TransportError>)
        ensures
            match result {
                Ok(mesh) => opened(local, peers@, pinned@, insecure, faults@, paused) == Ok::<
                    _,
                    TransportErrorView,
                >(mesh@) && mesh@.well_formed(),
                Err(error) => opened(local, peers@, pinned@, insecure, faults@, paused) == Err::<
                    MeshView,
                    _,
                >(error@),
            },
    {
        if let Some(node) = find_unpinned(peers, local, pinned) {
            if !insecure {
                let mut detail: String = "no pinned peer certificate for node ".to_owned();
                push_decimal(&mut detail, node.as_u64() as u128);
                return Err(TransportError::Unreachable { detail });
            }
        }
        if let Some(text) = faults.key {
            let mut detail: String = "peer key invalid: ".to_owned();
            detail.append(text.as_str());
            return Err(TransportError::Unreachable { detail });
        }
        if let Some(detail) = faults.server {
            return Err(TransportError::Unreachable { detail });
        }
        if let Some(text) = faults.pins {
            let mut detail: String = "peer TLS client config: ".to_owned();
            detail.append(text.as_str());
            return Err(TransportError::Unreachable { detail });
        }
        let mut links: Vec<PeerLink> = Vec::new();
        let mut at: usize = 0;
        proof {
            assert(peers@.take(0) =~= Seq::empty());
            assert(views(links@) =~= links_to(peers@.take(0), local));
        }
        while at < peers.len()
            invariant
                at <= peers.len(),
                views(links@) == links_to(peers@.take(at as int), local),
            decreases peers.len() - at,
        {
            proof {
                assert(peers@.take(at + 1).drop_last() =~= peers@.take(at as int));
                assert(peers@.take(at + 1).last() == peers@[at as int]);
            }
            if peers[at] != local {
                place(&mut links, PeerLink::new(peers[at]));
            }
            at = at + 1;
        }
        proof {
            assert(peers@.take(at as int) =~= peers@);
            lemma_links_to(peers@, local);
        }
        let mesh: PeerTransport = PeerTransport {
            local,
            links,
            outgoing: Vec::new(),
            incoming: Vec::new(),
            running: true,
            ready: !paused,
            active_streams: 0,
        };
        proof {
            assert(mesh@.outgoing =~= Seq::empty());
            assert(mesh@.incoming =~= Seq::empty());
        }
        Ok(mesh)
    }

    /// Returns this node.
    pub fn local(&self) -> (local: NodeId)
        ensures
            local == self@.local,
    {
        self.local
    }

    /// Returns the link to a peer.
    pub fn link(&self, node: NodeId) -> (link: Option<PeerLink>)
        ensures
            link == self@.link_of(node),
    {
        match find_ranked(&self.links, node.as_u64() as u128) {
            Some(at) => Some(self.links[at]),
            None => None,
        }
    }

    fn set_link(&mut self, link: PeerLink)
        ensures
            final(self)@ == old(self)@.with_link(link),
    {
        place(&mut self.links, link);
    }

    /// Says who may be served, or why a request is refused.
    pub fn open_request(&self, headers: &PeerHeaders, bound: Option<NodeId>) -> (result: Result<
        PeerClaim,
        Refusal,
    >)
        ensures
            match result {
                Ok(claim) => self@.admitted(headers@, bound) == Ok::<_, RefusalView>(claim),
                Err(refusal) => self@.admitted(headers@, bound) == Err::<PeerClaim, _>(refusal@),
            },
    {
        let claim: PeerClaim = match read_claim(headers) {
            Ok(claim) => claim,
            Err(refusal) => return Err(refusal),
        };
        let suspended: bool = match self.link(claim.node) {
            Some(link) => link.suspended,
            None => false,
        };
        match bar_claim(claim, bound, suspended) {
            Some(refusal) => Err(refusal),
            None => Ok(claim),
        }
    }

    /// Takes note of the process generation of a peer whose identity was valid.
    pub fn note_incarnation(&mut self, node: NodeId, incarnation: NodeIncarnation)
        ensures
            final(self)@ == old(self)@.with_incarnation(node, incarnation),
    {
        if let Some(link) = self.link(node) {
            self.set_link(PeerLink { incarnation: Some(incarnation), ..link });
        }
    }

    /// Says why a call may not be made, if it may not.
    pub fn check_dispatch(&self, target: NodeId) -> (error: Option<TransportError>)
        ensures
            match error {
                Some(error) => self@.call_barred(target) == Some(error@),
                None => self@.call_barred(target) is None,
            },
    {
        if self.link(target).is_none() {
            return Some(TransportError::UnknownPeer { node: target.as_u64() });
        }
        if !self.running {
            return Some(TransportError::ShuttingDown);
        }
        None
    }

    /// Begins a call: counts it, and returns the largest body that its answer may have. A
    /// suspended peer times out at once.
    pub fn begin_call(&mut self, target: NodeId, lane: Lane) -> (result: Result<
        usize,
        TransportError,
    >)
        ensures
            match old(self)@.link_of(target) {
                None => final(self)@ == old(self)@ && (result matches Err(error) && error@ == (
                TransportErrorView::UnknownPeer { node: target.0 })),
                Some(link) => if link.suspended {
                    final(self)@ == old(self)@ && (result matches Err(error) && error@
                        == TransportErrorView::Timeout)
                } else {
                    &&& result matches Ok(cap) && cap == lane.cap_of()
                    &&& final(self)@ == old(self)@.call_begun(target, lane)
                },
            },
    {
        let link: PeerLink = match self.link(target) {
            None => return Err(TransportError::UnknownPeer { node: target.as_u64() }),
            Some(link) => link,
        };
        if link.suspended {
            return Err(TransportError::Timeout);
        }
        let counted: PeerLink = match lane {
            Lane::Control => PeerLink {
                control: LaneCounters {
                    requests: link.control.requests.wrapping_add(1),
                    ..link.control
                },
                ..link
            },
            Lane::Bulk => PeerLink {
                bulk: LaneCounters {
                    requests: link.bulk.requests.wrapping_add(1),
                    ..link.bulk
                },
                ..link
            },
        };
        self.set_link(counted);
        self.active_streams = self.active_streams.wrapping_add(1);
        Ok(lane.cap())
    }

    /// Ends the round trip of a call.
    pub fn end_call(&mut self)
        ensures
            final(self)@ == old(self)@.call_ended(),
    {
        self.active_streams = self.active_streams.wrapping_sub(1);
    }

    /// Takes note of bytes that went over a lane.
    pub fn note_traffic(&mut self, target: NodeId, lane: Lane, sent: u64, received: u64)
        ensures
            final(self)@ == old(self)@.with_traffic(target, lane, sent, received),
    {
        if let Some(link) = self.link(target) {
            let counted: PeerLink = match lane {
                Lane::Control => PeerLink {
                    control: LaneCounters {
                        bytes_sent: link.control.bytes_sent.wrapping_add(sent),
                        bytes_received: link.control.bytes_received.wrapping_add(received),
                        ..link.control
                    },
                    ..link
                },
                Lane::Bulk => PeerLink {
                    bulk: LaneCounters {
                        bytes_sent: link.bulk.bytes_sent.wrapping_add(sent),
                        bytes_received: link.bulk.bytes_received.wrapping_add(received),
                        ..link.bulk
                    },
                    ..link
                },
            };
            self.set_link(counted);
        }
    }

    /// Begins serving a request of a peer.
    pub fn begin_serving(&mut self, node: NodeId)
        ensures
            final(self)@ == old(self)@.serving_begun(node),
    {
        self.active_streams = self.active_streams.wrapping_add(1);
        if let Some(link) = self.link(node) {
            self.set_link(PeerLink { active: link.active.wrapping_add(1), ..link });
        }
    }

    /// Ends serving a request of a peer.
    pub fn end_serving(&mut self, node: NodeId)
        ensures
            final(self)@ == old(self)@.serving_ended(node),
    {
        self.active_streams = self.active_streams.wrapping_sub(1);
        if let Some(link) = self.link(node) {
            self.set_link(PeerLink { active: link.active.wrapping_sub(1), ..link });
        }
    }

    /// Whether there is an outgoing connection to a peer on a lane.
    pub fn has_outgoing(&self, node: NodeId, lane: Lane) -> (there: bool)
        ensures
            there == (self@.outgoing_of(node, lane) is Some),
    {
        find_ranked(&self.outgoing, rank_of_lane(node, lane)).is_some()
    }

    /// Takes note that a lane was connected.
    pub fn note_connected(&mut self, node: NodeId, lane: Lane, rtt_millis: u128)
        ensures
            final(self)@ == old(self)@.connected(node, lane, rtt_millis),
    {
        if let Some(link) = self.link(node) {
            let fresh: PeerLink = PeerLink {
                reconnects: link.reconnects.wrapping_add(1),
                rtt_ms: count_rtt(rtt_millis),
                ..link
            };
            let up: PeerLink = match lane {
                Lane::Control => PeerLink { connected_control: true, ..fresh },
                Lane::Bulk => PeerLink { connected_bulk: true, ..fresh },
            };
            self.set_link(up);
        }
    }

    /// Takes note of the handshake of a connected lane, and returns the dial.
    pub fn note_dialed(&mut self, node: NodeId, lane: Lane) -> (generation: Option<u64>)
        ensures
            final(self)@ == old(self)@.dialed(node, lane),
            generation == match old(self)@.link_of(node) {
                Some(link) => Some(link.reconnects),
                None => None,
            },
    {
        let generation: u64 = match self.link(node) {
            Some(link) => link.reconnects,
            None => return None,
        };
        place(&mut self.outgoing, Outgoing { node, lane, generation });
        Some(generation)
    }

    /// Takes note that the driver of a dialed connection ended.
    pub fn note_driver_end(&mut self, node: NodeId, lane: Lane, generation: u64)
        ensures
            final(self)@ == old(self)@.driver_ended(node, lane, generation),
    {
        if let Some(at) = find_ranked(&self.outgoing, rank_of_lane(node, lane)) {
            proof {
                lemma_ranked(self@.outgoing, lane_rank(node, lane));
                lemma_lane_rank(self.outgoing@[at as int].node, self.outgoing@[at as int].lane);
                lemma_lane_rank(node, lane);
            }
            if self.outgoing[at].generation == generation {
                remove_ranked(&mut self.outgoing, rank_of_lane(node, lane));
            }
        }
    }

    /// Drops an outgoing connection that failed, so that the next call dials again.
    pub fn drop_outgoing(&mut self, node: NodeId, lane: Lane)
        ensures
            final(self)@ == old(self)@.outgoing_dropped(node, lane),
    {
        remove_ranked(&mut self.outgoing, rank_of_lane(node, lane));
        if let Some(link) = self.link(node) {
            let down: PeerLink = match lane {
                Lane::Control => PeerLink { connected_control: false, ..link },
                Lane::Bulk => PeerLink { connected_bulk: false, ..link },
            };
            self.set_link(down);
        }
    }

    /// Drops every connection of a peer, and returns the incoming ones, which are to be
    /// closed.
    pub fn drop_peer_connections(&mut self, node: NodeId) -> (closed: Vec<u64>)
        ensures
            final(self)@ == old(self)@.peer_dropped(node),
            closed@ == ids_of(old(self)@.incoming, node),
    {
        remove_ranked(&mut self.outgoing, rank_of_lane(node, Lane::Control));
        remove_ranked(&mut self.outgoing, rank_of_lane(node, Lane::Bulk));
        let mut closed: Vec<u64> = Vec::new();
        let mut rest: Vec<IncomingConn> = Vec::new();
        let ghost all = views(self.incoming@);
        let mut at: usize = 0;
        proof {
            assert(all.take(0) =~= Seq::empty());
            assert(views(rest@) =~= of_others(all.take(0), node));
        }
        while at < self.incoming.len()
            invariant
                at <= self.incoming.len(),
                all == views(self.incoming@),
                closed@ == ids_of(all.take(at as int), node),
                views(rest@) == of_others(all.take(at as int), node),
            decreases self.incoming.len() - at,
        {
            let conn: IncomingConn = self.incoming[at];
            let ghost before = rest@;
            proof {
                assert(all.take(at + 1).drop_last() =~= all.take(at as int));
                assert(all.take(at + 1).last() == conn);
            }
            if conn.node == node {
                closed.push(conn.id);
            } else {
                rest.push(conn);
                proof {
                    assert(views(rest@) =~= views(before).push(conn));
                }
            }
            at = at + 1;
        }
        proof {
            assert(all.take(at as int) =~= all);
        }
        self.incoming = rest;
        if let Some(link) = self.link(node) {
            self.set_link(
                PeerLink { connected_control: false, connected_bulk: false, ..link },
            );
        }
        closed
    }

    fn carries(&self, node: NodeId, lane: Lane) -> (carries: bool)
        ensures
            carries == carried(self@.incoming, node, lane),
    {
        let mut at: usize = 0;
        while at < self.incoming.len()
            invariant
                at <= self.incoming.len(),
                forall|i: int|
                    0 <= i < at ==> !((#[trigger] self@.incoming[i]).node == node && match lane {
                        Lane::Control => self@.incoming[i].control,
                        Lane::Bulk => self@.incoming[i].bulk,
                    }),
            decreases self.incoming.len() - at,
        {
            let conn: IncomingConn = self.incoming[at];
            let carries: bool = match lane {
                Lane::Control => conn.control,
                Lane::Bulk => conn.bulk,
            };
            proof {
                assert(self@.incoming[at as int] == conn);
            }
            if conn.node == node && carries {
                return true;
            }
            at = at + 1;
        }
        false
    }

    /// Takes note of a request that came in on a lane of a connection.
    pub fn note_inbound_lane(&mut self, node: NodeId, lane: Lane, id: u64, rtt_millis: u128)
        ensures
            final(self)@ == old(self)@.inbound_noted(node, lane, id, rtt_millis),
    {
        let known: IncomingConn = match find_ranked(&self.incoming, rank_of_conn(node, id)) {
            Some(at) => self.incoming[at],
            None => IncomingConn { node, id, control: false, bulk: false },
        };
        let conn: IncomingConn = match lane {
            Lane::Control => IncomingConn { control: true, ..known },
            Lane::Bulk => IncomingConn { bulk: true, ..known },
        };
        place(&mut self.incoming, conn);
        if let Some(link) = self.link(node) {
            let control: bool = self.carries(node, Lane::Control);
            let bulk: bool = self.carries(node, Lane::Bulk);
            self.set_link(
                PeerLink {
                    connected_control: control,
                    connected_bulk: bulk,
                    rtt_ms: count_rtt(rtt_millis),
                    ..link
                },
            );
        }
    }

    /// Takes note that an incoming connection closed. One that was never bound to a peer
    /// leaves everything as it is.
    pub fn forget_incoming(&mut self, node: Option<NodeId>, id: u64)
        ensures
            final(self)@ == match node {
                None => old(self)@,
                Some(node) => if exists|i: int|
                    0 <= i < old(self)@.incoming.len() && (
                    #[trigger] old(self)@.incoming[i]).node == node {
                    old(self)@.incoming_forgotten(node, id)
                } else {
                    old(self)@
                },
            },
    {
        let node: NodeId = match node {
            None => return,
            Some(node) => node,
        };
        let mut known: bool = false;
        let mut at: usize = 0;
        while at < self.incoming.len()
            invariant
                at <= self.incoming.len(),
                *self == *old(self),
                known == exists|i: int| 0 <= i < at && (#[trigger] self@.incoming[i]).node == node,
            decreases self.incoming.len() - at,
        {
            proof {
                assert(self@.incoming[at as int] == self.incoming@[at as int]);
            }
            if self.incoming[at].node == node {
                known = true;
            }
            at = at + 1;
        }
        if !known {
            return;
        }
        remove_ranked(&mut self.incoming, rank_of_conn(node, id));
        if let Some(link) = self.link(node) {
            let control: bool = self.carries(node, Lane::Control);
            let bulk: bool = self.carries(node, Lane::Bulk);
            self.set_link(PeerLink { connected_control: control, connected_bulk: bulk, ..link });
        }
    }

    /// Releases paused dialing and serving.
    pub fn start(&mut self)
        ensures
            final(self)@ == (MeshView { ready: true, ..old(self)@ }),
    {
        self.ready = true;
    }

    /// Whether dialing and serving were started.
    pub fn is_ready(&self) -> (ready: bool)
        ensures
            ready == self@.ready,
    {
        self.ready
    }

    /// Whether the mesh runs.
    pub fn is_running(&self) -> (running: bool)
        ensures
            running == self@.running,
    {
        self.running
    }

    /// Stops the mesh.
    pub fn shutdown(&mut self)
        ensures
            final(self)@ == (MeshView { running: false, ..old(self)@ }),
    {
        self.running = false;
    }

    /// Suspends a peer.
    pub fn suspend_peer(&mut self, node: NodeId)
        ensures
            final(self)@ == match old(self)@.link_of(node) {
                None => old(self)@,
                Some(link) => old(self)@.with_link(PeerLink { suspended: true, ..link }),
            },
    {
        if let Some(link) = self.link(node) {
            self.set_link(PeerLink { suspended: true, ..link });
        }
    }

    /// Says whether the suspension of a peer is done, `waited` after it began: when none of
    /// its streams is in flight, or has been waited for long enough.
    pub fn drain_step(&self, peer: NodeId, waited: Duration) -> (step: DrainStep)
        ensures
            step == if !self@.busy(peer) || waited.nanos >= 10_000_000_000 {
                DrainStep::Done
            } else {
                DrainStep::Wait(Duration { nanos: 10_000_000 })
            },
    {
        let busy: bool = match self.link(peer) {
            Some(link) => link.active > 0,
            None => false,
        };
        if !busy || waited.nanos >= 10_000_000_000 {
            DrainStep::Done
        } else {
            DrainStep::Wait(Duration::from_millis(10))
        }
    }

    /// Says what a loop does that waits for dialing and serving to start.
    pub fn start_step(&self) -> (step: StartStep)
        ensures
            step == if self@.ready {
                StartStep::Go
            } else if !self@.running {
                StartStep::Stop
            } else {
                StartStep::Wait(Duration { nanos: 50_000_000 })
            },
    {
        if self.ready {
            StartStep::Go
        } else if !self.running {
            StartStep::Stop
        } else {
            StartStep::Wait(Duration::from_millis(50))
        }
    }

    /// Resumes a suspended peer.
    pub fn resume_peer(&mut self, node: NodeId)
        ensures
            final(self)@ == match old(self)@.link_of(node) {
                None => old(self)@,
                Some(link) => old(self)@.with_link(PeerLink { suspended: false, ..link }),
            },
    {
        if let Some(link) = self.link(node) {
            self.set_link(PeerLink { suspended: false, ..link });
        }
    }

    /// Returns the peers that this node dials: those of a higher identity.
    pub fn dial_targets(&self) -> (targets: Vec<NodeId>)
        ensures
            targets@ == dial_list(self@.links, self@.local),
    {
        let ghost all = views(self.links@);
        let mut targets: Vec<NodeId> = Vec::new();
        let mut at: usize = 0;
        proof {
            assert(all.take(0) =~= Seq::empty());
        }
        while at < self.links.len()
            invariant
                at <= self.links.len(),
                all == views(self.links@),
                targets@ == dial_list(all.take(at as int), self@.local),
            decreases self.links.len() - at,
        {
            proof {
                assert(all.take(at + 1).drop_last() =~= all.take(at as int));
                assert(all.take(at + 1).last() == self.links@[at as int]);
            }
            if self.links[at].node.as_u64() >= self.local.as_u64() {
                targets.push(self.links[at].node);
            }
            at = at + 1;
        }
        proof {
            assert(all.take(at as int) =~= all);
        }
        targets
    }

    /// Says what the dial loop of a peer does next.
    pub fn dial_step(&self, node: NodeId) -> (step: DialStep)
        ensures
            step == if !self@.running {
                DialStep::Stop
            } else if self@.suspends(node) {
                DialStep::Nap(nap())
            } else {
                let control = self@.outgoing_of(node, Lane::Control) is None;
                let bulk = self@.outgoing_of(node, Lane::Bulk) is None;
                if control || bulk {
                    DialStep::Dial { control, bulk }
                } else {
                    DialStep::Nap(nap())
                }
            },
    {
        if !self.running {
            return DialStep::Stop;
        }
        if let Some(link) = self.link(node) {
            if link.suspended {
                return DialStep::Nap(Duration::from_millis(200));
            }
        }
        let control: bool = !self.has_outgoing(node, Lane::Control);
        let bulk: bool = !self.has_outgoing(node, Lane::Bulk);
        if control || bulk {
            DialStep::Dial { control, bulk }
        } else {
            DialStep::Nap(Duration::from_millis(200))
        }
    }

    /// Returns diagnostics of all peers.
    pub fn stats(&self) -> (stats: Vec<PeerStats>)
        ensures
            stats@ == Seq::new(
                self@.links.len(),
                |i: int| stats_of(self@.links[i], self@.active_streams),
            ),
    {
        let mut stats: Vec<PeerStats> = Vec::new();
        let mut at: usize = 0;
        while at < self.links.len()
            invariant
                at <= self.links.len(),
                stats.len() == at,
                forall|i: int|
                    0 <= i < at ==> #[trigger] stats@[i] == stats_of(
                        self@.links[i],
                        self@.active_streams,
                    ),
            decreases self.links.len() - at,
        {
            let link: PeerLink = self.links[at];
            stats.push(
                PeerStats {
                    node: link.node,
                    connected_control: link.connected_control,
                    connected_bulk: link.connected_bulk,
                    suspended: link.suspended,
                    incarnation: link.incarnation,
                    reconnects: link.reconnects,
                    control: link.control,
                    bulk: link.bulk,
                    rtt_ms: link.rtt(),
                    active_streams: self.active_streams,
                },
            );
            at = at + 1;
        }
        proof {
            assert(stats@ =~= Seq::new(
                self@.links.len(),
                |i: int| stats_of(self@.links[i], self@.active_streams),
            ));
        }
        stats
    }
}

/// The peers among `links` of an identity no lower than `local`, in order.
pub open spec fn dial_list(links: Seq<PeerLink>, local: NodeId) -> Seq<NodeId>
    decreases links.len(),
{
    if links.len() == 0 {
        Seq::empty()
    } else if links.last().node.0 >= local.0 {
        dial_list(links.drop_last(), local).push(links.last().node)
    } else {
        dial_list(links.drop_last(), local)
    }
}

proof fn lemma_lane_rank(node: NodeId, lane: Lane)
    ensures
        lane_rank(node, lane) / 2 == node.0,
        lane_rank(node, lane) % 2 == if lane is Control {
            0int
        } else {
            1int
        },
{
}

proof fn lemma_dial_list(links: Seq<PeerLink>, local: NodeId, node: NodeId)
    ensures
        dial_list(links, local).contains(node) <==> node.0 >= local.0 && exists|i: int|
            0 <= i < links.len() && (#[trigger] links[i]).node == node,
    decreases links.len(),
{
    if links.len() > 0 {
        let front = links.drop_last();
        let before = dial_list(front, local);
        lemma_dial_list(front, local, node);
        vstd::seq_lib::lemma_seq_contains_after_push(before, links.last().node, node);
        if exists|i: int| 0 <= i < links.len() && (#[trigger] links[i]).node == node {
            let i = choose|i: int| 0 <= i < links.len() && (#[trigger] links[i]).node == node;
            if i < front.len() {
                assert(front[i].node == node);
            }
        }
        if exists|i: int| 0 <= i < front.len() && (#[trigger] front[i]).node == node {
            let i = choose|i: int| 0 <= i < front.len() && (#[trigger] front[i]).node == node;
            assert(links[i].node == node);
        }
        assert(links[links.len() - 1] == links.last());
    }
}

proof fn lemma_others_rise(conns: Seq<IncomingConn>, node: NodeId)
    requires
        rising(conns),
    ensures
        rising(of_others(conns, node)),
        forall|i: int|
            0 <= i < of_others(conns, node).len() ==> conns.contains(
                #[trigger] of_others(conns, node)[i],
            ),
    decreases conns.len(),
{
    if conns.len() > 0 {
        let front = conns.drop_last();
        let inner = of_others(front, node);
        let result = of_others(conns, node);
        assert(rising(front)) by {
            assert forall|i: int, j: int| 0 <= i < j < front.len() implies (
            #[trigger] front[i]).rank() < (#[trigger] front[j]).rank() by {
                assert(conns[i].rank() < conns[j].rank());
            }
        }
        lemma_others_rise(front, node);
        assert forall|i: int| 0 <= i < result.len() implies conns.contains(
            #[trigger] result[i],
        ) by {
            if i < inner.len() {
                assert(front.contains(inner[i]));
                let k = choose|k: int| 0 <= k < front.len() && front[k] == inner[i];
                assert(conns[k] == inner[i]);
            } else {
                assert(conns[conns.len() - 1] == result[i]);
            }
        }
        assert forall|i: int, j: int| 0 <= i < j < result.len() implies (
        #[trigger] result[i]).rank() < (#[trigger] result[j]).rank() by {
            if j < inner.len() {
                assert(inner[i].rank() < inner[j].rank());
            } else {
                assert(front.contains(inner[i]));
                let k = choose|k: int| 0 <= k < front.len() && front[k] == inner[i];
                assert(conns[k].rank() < conns[conns.len() - 1].rank());
            }
        }
    }
}

proof fn lemma_link_change(mesh: MeshView, node: NodeId, link: PeerLink)
    requires
        mesh.well_formed(),
        mesh.link_of(node) is Some,
        link.node == mesh.link_of(node)->0.node,
    ensures
        mesh.with_link(link).well_formed(),
{
    lemma_ranked(mesh.links, node.0 as u128);
    lemma_placed(mesh.links, link);
    assert(ranked(placed(mesh.links, link), mesh.local.0 as u128) == if mesh.local.0
        == link.rank() {
        Some(link)
    } else {
        ranked(mesh.links, mesh.local.0 as u128)
    });
}

/// Whatever happens to a mesh, its links and connections occur once and in order.
pub proof fn law_meshes_stay_in_order(
    mesh: MeshView,
    node: NodeId,
    lane: Lane,
    id: u64,
    rtt: u128,
    generation: u64,
)
    requires
        mesh.well_formed(),
    ensures
        mesh.connected(node, lane, rtt).well_formed(),
        mesh.dialed(node, lane).well_formed(),
        mesh.driver_ended(node, lane, generation).well_formed(),
        mesh.outgoing_dropped(node, lane).well_formed(),
        mesh.peer_dropped(node).well_formed(),
        mesh.inbound_noted(node, lane, id, rtt).well_formed(),
        mesh.incoming_forgotten(node, id).well_formed(),
        mesh.with_traffic(node, lane, id, generation).well_formed(),
        mesh.call_begun(node, lane).call_ended().well_formed(),
        mesh.serving_begun(node).well_formed(),
        mesh.serving_ended(node).well_formed(),
        mesh.with_incarnation(node, NodeIncarnation(generation)).well_formed(),
{
    let rank = lane_rank(node, lane);
    lemma_except(mesh.outgoing, rank);
    lemma_except(mesh.outgoing, lane_rank(node, Lane::Control));
    lemma_except(
        except(mesh.outgoing, lane_rank(node, Lane::Control)),
        lane_rank(node, Lane::Bulk),
    );
    lemma_except(mesh.incoming, conn_rank(node, id));
    lemma_others_rise(mesh.incoming, node);
    let conn = match lane {
        Lane::Control => IncomingConn { control: true, ..mesh.conn_of(node, id) },
        Lane::Bulk => IncomingConn { bulk: true, ..mesh.conn_of(node, id) },
    };
    lemma_placed(mesh.incoming, conn);
    let dropped = MeshView { outgoing: except(mesh.outgoing, rank), ..mesh };
    let cut = MeshView {
        outgoing: except(
            except(mesh.outgoing, lane_rank(node, Lane::Control)),
            lane_rank(node, Lane::Bulk),
        ),
        incoming: of_others(mesh.incoming, node),
        ..mesh
    };
    let noted = MeshView { incoming: placed(mesh.incoming, conn), ..mesh };
    let forgotten = MeshView { incoming: except(mesh.incoming, conn_rank(node, id)), ..mesh };
    if let Some(link) = mesh.link_of(node) {
        let up = (PeerLink {
            reconnects: bumped(link.reconnects, 1),
            rtt_ms: rtt_counter(rtt),
            ..link
        }).with_lane(lane, true);
        lemma_placed(mesh.outgoing, Outgoing { node, lane, generation: link.reconnects });
        lemma_link_change(mesh, node, up);
        lemma_link_change(dropped, node, link.with_lane(lane, false));
        lemma_link_change(
            cut,
            node,
            PeerLink { connected_control: false, connected_bulk: false, ..link },
        );
        lemma_link_change(
            noted,
            node,
            PeerLink {
                connected_control: carried(noted.incoming, node, Lane::Control),
                connected_bulk: carried(noted.incoming, node, Lane::Bulk),
                rtt_ms: rtt_counter(rtt),
                ..link
            },
        );
        lemma_link_change(mesh, node, link.with_traffic(lane, id, generation));
        lemma_link_change(mesh, node, link.with_request(lane));
        lemma_link_change(mesh, node, PeerLink { active: bumped(link.active, 1), ..link });
        lemma_link_change(mesh, node, PeerLink { active: lowered(link.active), ..link });
        lemma_link_change(
            mesh,
            node,
            PeerLink { incarnation: Some(NodeIncarnation(generation)), ..link },
        );
        lemma_link_change(
            forgotten,
            node,
            PeerLink {
                connected_control: carried(forgotten.incoming, node, Lane::Control),
                connected_bulk: carried(forgotten.incoming, node, Lane::Bulk),
                ..link
            },
        );
    }
}

/// Of two nodes that link to each other exactly one dials the other.
pub proof fn law_one_side_of_a_pair_dials(a: MeshView, b: MeshView)
    requires
        a.local != b.local,
        a.link_of(b.local) is Some,
        b.link_of(a.local) is Some,
    ensures
        dial_list(a.links, a.local).contains(b.local) <==> !dial_list(b.links, b.local).contains(
            a.local,
        ),
{
    lemma_dial_list(a.links, a.local, b.local);
    lemma_dial_list(b.links, b.local, a.local);
    lemma_ranked(a.links, b.local.0 as u128);
    lemma_ranked(b.links, a.local.0 as u128);
    let x = a.link_of(b.local)->0;
    let i = choose|i: int| 0 <= i < a.links.len() && a.links[i] == x;
    assert(a.links[i].node == b.local);
    let y = b.link_of(a.local)->0;
    let j = choose|j: int| 0 <= j < b.links.len() && b.links[j] == y;
    assert(b.links[j].node == a.local);
}

/// The end of an old dial never drops the connection of a newer one.
pub proof fn law_newer_dials_survive(mesh: MeshView, node: NodeId, lane: Lane, ended: u64)
    requires
        mesh.outgoing_of(node, lane) matches Some(held) && held.generation != ended,
    ensures
        mesh.driver_ended(node, lane, ended) == mesh,
{
}

/// Suspending a peer and dropping its connections leaves none, in either direction, and
/// every call and request of it is refused until it is resumed.
pub proof fn law_suspension_is_airtight(mesh: MeshView, link: PeerLink, headers: HeadersView)
    requires
        mesh.well_formed(),
        mesh.link_of(link.node) == Some(link),
        claimed(headers) matches Ok(claim) && claim.node == link.node,
    ensures
        ({
            let after = mesh.with_link(
                PeerLink { suspended: true, ..link },
            ).peer_dropped(link.node);
            &&& after.suspends(link.node)
            &&& after.outgoing_of(link.node, Lane::Control) is None
            &&& after.outgoing_of(link.node, Lane::Bulk) is None
            &&& forall|i: int| 0 <= i < after.incoming.len() ==> (
            #[trigger] after.incoming[i]).node != link.node
            &&& after.admitted(headers, Some(link.node)) == Err::<PeerClaim, _>(
                RefusalView { status: 503, detail: "suspended"@ },
            )
        }),
{
    let suspended = PeerLink { suspended: true, ..link };
    let first = mesh.with_link(suspended);
    lemma_placed(mesh.links, suspended);
    assert(ranked(first.links, link.rank()) == Some(suspended));
    let down = PeerLink { connected_control: false, connected_bulk: false, ..suspended };
    lemma_placed(first.links, down);
    let after = first.peer_dropped(link.node);
    assert(ranked(after.links, link.rank()) == Some(down));
    let control = lane_rank(link.node, Lane::Control);
    let bulk = lane_rank(link.node, Lane::Bulk);
    lemma_except(mesh.outgoing, control);
    lemma_except(except(mesh.outgoing, control), bulk);
    assert(ranked(after.outgoing, bulk) is None);
    assert(ranked(after.outgoing, control) is None) by {
        assert(ranked(except(mesh.outgoing, control), control) is None);
    }
    lemma_of_others(mesh.incoming, link.node);
}

proof fn lemma_of_others(conns: Seq<IncomingConn>, node: NodeId)
    ensures
        forall|i: int|
            0 <= i < of_others(conns, node).len() ==> (#[trigger] of_others(conns, node)[i]).node
                != node,
    decreases conns.len(),
{
    if conns.len() > 0 {
        let inner = of_others(conns.drop_last(), node);
        lemma_of_others(conns.drop_last(), node);
        assert forall|i: int| 0 <= i < of_others(conns, node).len() implies (
        #[trigger] of_others(conns, node)[i]).node != node by {
            if i < inner.len() {
                assert(inner[i].node != node);
            }
        }
    }
}

/// After a request came in on a lane, that lane of the link is up.
pub proof fn law_inbound_requests_show_a_lane(
    mesh: MeshView,
    node: NodeId,
    lane: Lane,
    id: u64,
    rtt: u128,
)
    requires
        mesh.well_formed(),
        mesh.link_of(node) is Some,
    ensures
        ({
            let after = mesh.inbound_noted(node, lane, id, rtt).link_of(node);
            &&& after matches Some(link)
            &&& match lane {
                Lane::Control => link.connected_control,
                Lane::Bulk => link.connected_bulk,
            }
        }),
{
    lemma_ranked(mesh.incoming, conn_rank(node, id));
    let known = mesh.conn_of(node, id);
    lemma_conn_rank(known.node, known.id, node, id);
    let conn = match lane {
        Lane::Control => IncomingConn { control: true, ..known },
        Lane::Bulk => IncomingConn { bulk: true, ..known },
    };
    lemma_placed(mesh.incoming, conn);
    let incoming = placed(mesh.incoming, conn);
    lemma_ranked(incoming, conn.rank());
    let i = choose|i: int| 0 <= i < incoming.len() && incoming[i] == conn;
    assert(incoming[i].node == node);
    assert(carried(incoming, node, lane));
    lemma_ranked(mesh.links, node.0 as u128);
    let link = mesh.link_of(node)->0;
    let now = PeerLink {
        connected_control: carried(incoming, node, Lane::Control),
        connected_bulk: carried(incoming, node, Lane::Bulk),
        rtt_ms: rtt_counter(rtt),
        ..link
    };
    lemma_placed(mesh.links, now);
    assert(ranked(placed(mesh.links, now), node.0 as u128) == Some(now));
}

proof fn lemma_conn_rank(a: NodeId, i: u64, b: NodeId, j: u64)
    ensures
        conn_rank(a, i) == conn_rank(b, j) ==> a == b && i == j,
{
    let x = conn_rank(a, i);
    let y = conn_rank(b, j);
    assert(x / 0x1_0000_0000_0000_0000 == a.0);
    assert(y / 0x1_0000_0000_0000_0000 == b.0);
}

/// A node dials the peers above it: those that it has a link to and whose identity is
/// larger than its own.
pub proof fn law_nodes_dial_upwards(mesh: MeshView, node: NodeId)
    requires
        mesh.well_formed(),
    ensures
        dial_list(mesh.links, mesh.local).contains(node) <==> mesh.link_of(node) is Some
            && node.0 > mesh.local.0,
{
    lemma_dial_list(mesh.links, mesh.local, node);
    lemma_ranked(mesh.links, node.0 as u128);
    if let Some(link) = mesh.link_of(node) {
        let i = choose|i: int| 0 <= i < mesh.links.len() && mesh.links[i] == link;
        assert(mesh.links[i].node == node);
    }
    if exists|i: int| 0 <= i < mesh.links.len() && (#[trigger] mesh.links[i]).node == node {
        let i = choose|i: int|
            0 <= i < mesh.links.len() && (#[trigger] mesh.links[i]).node == node;
        assert(mesh.links[i].rank() == node.0 as u128);
    }
}

/// What happens to one peer leaves the links of the others alone, and a peer without a
/// link gets none.
pub proof fn law_peers_are_independent(
    mesh: MeshView,
    node: NodeId,
    other: NodeId,
    lane: Lane,
    id: u64,
    rtt: u128,
    sent: u64,
    received: u64,
)
    requires
        mesh.well_formed(),
        node != other || mesh.link_of(node) is None,
    ensures
        mesh.connected(node, lane, rtt).link_of(other) == mesh.link_of(other),
        mesh.dialed(node, lane).link_of(other) == mesh.link_of(other),
        mesh.outgoing_dropped(node, lane).link_of(other) == mesh.link_of(other),
        mesh.peer_dropped(node).link_of(other) == mesh.link_of(other),
        mesh.inbound_noted(node, lane, id, rtt).link_of(other) == mesh.link_of(other),
        mesh.incoming_forgotten(node, id).link_of(other) == mesh.link_of(other),
        mesh.with_traffic(node, lane, sent, received).link_of(other) == mesh.link_of(other),
        mesh.call_begun(node, lane).link_of(other) == mesh.link_of(other),
        mesh.serving_begun(node).link_of(other) == mesh.link_of(other),
        mesh.serving_ended(node).link_of(other) == mesh.link_of(other),
        mesh.with_incarnation(node, NodeIncarnation(id)).link_of(other) == mesh.link_of(other),
{
    if let Some(link) = mesh.link_of(node) {
        lemma_ranked(mesh.links, node.0 as u128);
        lemma_link_set(mesh, link, other);
        let up = (PeerLink {
            reconnects: bumped(link.reconnects, 1),
            rtt_ms: rtt_counter(rtt),
            ..link
        }).with_lane(lane, true);
        let noted = mesh.inbound_noted(node, lane, id, rtt).incoming;
        let left = except(mesh.incoming, conn_rank(node, id));
        lemma_link_set(mesh, up, other);
        lemma_link_set(mesh, link.with_lane(lane, false), other);
        lemma_link_set(
            mesh,
            PeerLink { connected_control: false, connected_bulk: false, ..link },
            other,
        );
        lemma_link_set(
            mesh,
            PeerLink {
                connected_control: carried(noted, node, Lane::Control),
                connected_bulk: carried(noted, node, Lane::Bulk),
                rtt_ms: rtt_counter(rtt),
                ..link
            },
            other,
        );
        lemma_link_set(
            mesh,
            PeerLink {
                connected_control: carried(left, node, Lane::Control),
                connected_bulk: carried(left, node, Lane::Bulk),
                ..link
            },
            other,
        );
        lemma_link_set(mesh, link.with_traffic(lane, sent, received), other);
        lemma_link_set(mesh, link.with_request(lane), other);
        lemma_link_set(mesh, PeerLink { active: bumped(link.active, 1), ..link }, other);
        lemma_link_set(mesh, PeerLink { active: lowered(link.active), ..link }, other);
        lemma_link_set(mesh, PeerLink { incarnation: Some(NodeIncarnation(id)), ..link }, other);
    }
}

/// A link that is set is the link of its node, and of no other.
proof fn lemma_link_set(mesh: MeshView, link: PeerLink, other: NodeId)
    requires
        mesh.well_formed(),
    ensures
        mesh.with_link(link).link_of(link.node) == Some(link),
        other != link.node ==> mesh.with_link(link).link_of(other) == mesh.link_of(other),
{
    lemma_placed(mesh.links, link);
    assert(ranked(placed(mesh.links, link), link.rank()) == Some(link));
    assert(ranked(placed(mesh.links, link), other.0 as u128) == if other.0 as u128
        == link.rank() {
        Some(link)
    } else {
        ranked(mesh.links, other.0 as u128)
    });
}

/// A dial that succeeds shows its lane, takes the measured time and counts one more
/// connection, whose number the new connection carries; one that is dropped hides its
/// lane and no other.
pub proof fn law_dials_show_their_lane(mesh: MeshView, node: NodeId, lane: Lane, rtt: u128)
    requires
        mesh.well_formed(),
        mesh.link_of(node) is Some,
        rtt <= u64::MAX,
    ensures
        ({
            let before = mesh.link_of(node)->0;
            let up = mesh.connected(node, lane, rtt).link_of(node);
            let down = mesh.outgoing_dropped(node, lane).link_of(node);
            let dialed = mesh.dialed(node, lane).outgoing_of(node, lane);
            &&& up is Some
            &&& up->0.node == node
            &&& up->0.rtt_ms == rtt
            &&& before.reconnects < u64::MAX ==> up->0.reconnects == before.reconnects + 1
            &&& up->0.suspended == before.suspended
            &&& lane is Control ==> up->0.connected_control && up->0.connected_bulk
                == before.connected_bulk
            &&& lane is Bulk ==> up->0.connected_bulk && up->0.connected_control
                == before.connected_control
            &&& down is Some
            &&& lane is Control ==> !down->0.connected_control && down->0.connected_bulk
                == before.connected_bulk
            &&& lane is Bulk ==> !down->0.connected_bulk && down->0.connected_control
                == before.connected_control
            &&& down->0.reconnects == before.reconnects
            &&& dialed == Some(Outgoing { node, lane, generation: before.reconnects })
            &&& mesh.outgoing_dropped(node, lane).outgoing_of(node, lane) is None
        }),
{
    let link = mesh.link_of(node)->0;
    lemma_ranked(mesh.links, node.0 as u128);
    let up = (PeerLink {
        reconnects: bumped(link.reconnects, 1),
        rtt_ms: rtt_counter(rtt),
        ..link
    }).with_lane(lane, true);
    lemma_link_set(mesh, up, node);
    lemma_link_set(mesh, link.with_lane(lane, false), node);
    let held = Outgoing { node, lane, generation: link.reconnects };
    lemma_placed(mesh.outgoing, held);
    assert(ranked(placed(mesh.outgoing, held), held.rank()) == Some(held));
    lemma_except(mesh.outgoing, lane_rank(node, lane));
    assert(ranked(except(mesh.outgoing, lane_rank(node, lane)), lane_rank(node, lane)) is None);
}

/// Every request and every byte counts on its own lane, and every stream while it lasts.
pub proof fn law_traffic_counts_on_its_lane(
    mesh: MeshView,
    node: NodeId,
    lane: Lane,
    sent: u64,
    received: u64,
)
    requires
        mesh.well_formed(),
        mesh.link_of(node) matches Some(link) && link.control.requests < u64::MAX
            && link.bulk.requests < u64::MAX && link.control.bytes_sent + sent <= u64::MAX
            && link.bulk.bytes_sent + sent <= u64::MAX && link.control.bytes_received + received
            <= u64::MAX && link.bulk.bytes_received + received <= u64::MAX && link.active
            < u64::MAX,
        mesh.active_streams < u64::MAX,
    ensures
        ({
            let before = mesh.link_of(node)->0;
            let begun = mesh.call_begun(node, lane).link_of(node)->0;
            let moved = mesh.with_traffic(node, lane, sent, received).link_of(node)->0;
            let served = mesh.serving_begun(node).link_of(node)->0;
            &&& lane is Control ==> begun.control.requests == before.control.requests + 1
                && begun.bulk == before.bulk && moved.control.bytes_sent
                == before.control.bytes_sent + sent && moved.control.bytes_received
                == before.control.bytes_received + received && moved.bulk == before.bulk
            &&& lane is Bulk ==> begun.bulk.requests == before.bulk.requests + 1
                && begun.control == before.control && moved.bulk.bytes_sent
                == before.bulk.bytes_sent + sent && moved.bulk.bytes_received
                == before.bulk.bytes_received + received && moved.control == before.control
            &&& served.active == before.active + 1
            &&& mesh.call_begun(node, lane).active_streams == mesh.active_streams + 1
            &&& mesh.call_begun(node, lane).call_ended().active_streams == mesh.active_streams
            &&& mesh.serving_begun(node).active_streams == mesh.active_streams + 1
            &&& mesh.serving_begun(node).serving_ended(node).active_streams
                == mesh.active_streams
            &&& mesh.serving_begun(node).busy(node)
        }),
{
    let link = mesh.link_of(node)->0;
    lemma_ranked(mesh.links, node.0 as u128);
    lemma_link_set(mesh, link.with_request(lane), node);
    lemma_link_set(mesh, link.with_traffic(lane, sent, received), node);
    lemma_link_set(mesh, PeerLink { active: bumped(link.active, 1), ..link }, node);
}

/// A call needs a known peer and a running mesh, and says which it lacks; the peer comes
/// first.
pub proof fn law_calls_need_a_peer(mesh: MeshView, target: NodeId)
    ensures
        mesh.call_barred(target) is None <==> mesh.link_of(target) is Some && mesh.running,
        mesh.link_of(target) is None ==> mesh.call_barred(target) == Some(
            TransportErrorView::UnknownPeer { node: target.0 },
        ),
        mesh.link_of(target) is Some && !mesh.running ==> mesh.call_barred(target) == Some(
            TransportErrorView::ShuttingDown,
        ),
{
}

/// A mesh opens with a link to every peer but itself, each of them down and blank.
pub proof fn law_meshes_open_with_their_peers(peers: Seq<NodeId>, local: NodeId, node: NodeId)
    ensures
        rising(links_to(peers, local)),
        ranked(links_to(peers, local), node.0 as u128) is Some <==> node != local
            && peers.contains(node),
        ranked(links_to(peers, local), node.0 as u128) matches Some(link) ==> {
            &&& link.node == node
            &&& !link.suspended
            &&& !link.connected_control
            &&& !link.connected_bulk
            &&& link.reconnects == 0
            &&& link.active == 0
            &&& link.incarnation is None
        },
    decreases peers.len(),
{
    if peers.len() > 0 {
        let front = peers.drop_last();
        law_meshes_open_with_their_peers(front, local, node);
        assert(peers =~= front.push(peers.last()));
        vstd::seq_lib::lemma_seq_contains_after_push(front, peers.last(), node);
        if peers.last() != local {
            let link = new_link(peers.last());
            lemma_placed(links_to(front, local), link);
            assert(ranked(placed(links_to(front, local), link), node.0 as u128) == if node.0
                as u128 == link.rank() {
                Some(link)
            } else {
                ranked(links_to(front, local), node.0 as u128)
            });
        }
    }
}

/// A certificate belongs to the first node that it was given for; an unknown one belongs
/// to nobody. A peer is unpinned exactly if it is not this node and has no certificate.
pub proof fn law_certificates_have_an_owner(
    certs: Seq<PeerCert>,
    leaf: Seq<u8>,
    peers: Seq<NodeId>,
    local: NodeId,
    pinned: Seq<NodeId>,
)
    ensures
        cert_owner(certs, leaf) matches Some(node) ==> exists|i: int|
            0 <= i < certs.len() && (#[trigger] certs[i]).der@ == leaf && certs[i].node == node
                && forall|j: int| 0 <= j < i ==> (#[trigger] certs[j]).der@ != leaf,
        cert_owner(certs, leaf) is None ==> forall|i: int|
            0 <= i < certs.len() ==> (#[trigger] certs[i]).der@ != leaf,
        unpinned(peers, local, pinned) matches Some(node) ==> peers.contains(node) && node
            != local && !pinned.contains(node),
        unpinned(peers, local, pinned) is None ==> forall|i: int|
            0 <= i < peers.len() ==> #[trigger] peers[i] == local || pinned.contains(peers[i]),
    decreases certs.len() + peers.len(),
{
    if certs.len() > 0 {
        let front = certs.drop_last();
        law_certificates_have_an_owner(front, leaf, Seq::empty(), local, pinned);
        let last = certs.len() - 1;
        assert forall|i: int| 0 <= i < last implies certs[i] == front[i] by {}
        if let Some(node) = cert_owner(front, leaf) {
            let i = choose|i: int|
                0 <= i < front.len() && (#[trigger] front[i]).der@ == leaf && front[i].node
                    == node && forall|j: int| 0 <= j < i ==> (#[trigger] front[j]).der@ != leaf;
            assert(certs[i] == front[i]);
            assert forall|j: int| 0 <= j < i implies (#[trigger] certs[j]).der@ != leaf by {
                assert(front[j] == certs[j]);
            }
        } else {
            assert forall|j: int| 0 <= j < last implies (#[trigger] certs[j]).der@ != leaf by {
                assert(front[j] == certs[j]);
            }
            assert(certs[last] == certs.last());
        }
    }
    if peers.len() > 0 {
        let front = peers.drop_last();
        law_certificates_have_an_owner(Seq::empty(), leaf, front, local, pinned);
        assert(peers[peers.len() - 1] == peers.last());
        assert forall|i: int| 0 <= i < front.len() implies peers[i] == front[i] by {}
        if let Some(node) = unpinned(front, local, pinned) {
            let i = choose|i: int| 0 <= i < front.len() && front[i] == node;
            assert(peers[i] == node);
        } else {
            assert forall|i: int| 0 <= i < front.len() implies #[trigger] peers[i] == local
                || pinned.contains(peers[i]) by {
                assert(front[i] == peers[i]);
            }
        }
    }
}

/// A dialer takes the control lane first and the bulk lane only after the control lane
/// came up, or where it has no control lane to dial.
pub proof fn law_control_is_dialed_first(control: bool, bulk: bool, up: bool)
    ensures
        control ==> turn(control, bulk, None) == Some(Lane::Control),
        !control && bulk ==> turn(control, bulk, None) == Some(Lane::Bulk),
        !control && !bulk ==> turn(control, bulk, None) is None,
        turn(control, bulk, Some((Lane::Control, false))) is None,
        bulk ==> turn(control, bulk, Some((Lane::Control, true))) == Some(Lane::Bulk),
        turn(control, bulk, Some((Lane::Bulk, up))) is None,
{
}

/// The statistics of a peer are those of its link; a time that was never measured is not
/// told.
pub proof fn law_statistics_are_those_of_the_link(link: PeerLink, streams: u64)
    ensures
        stats_of(link, streams).node == link.node,
        stats_of(link, streams).connected_control == link.connected_control,
        stats_of(link, streams).connected_bulk == link.connected_bulk,
        stats_of(link, streams).suspended == link.suspended,
        stats_of(link, streams).incarnation == link.incarnation,
        stats_of(link, streams).reconnects == link.reconnects,
        stats_of(link, streams).control == link.control,
        stats_of(link, streams).bulk == link.bulk,
        stats_of(link, streams).active_streams == streams,
        stats_of(link, streams).rtt_ms is None <==> link.rtt_ms == u64::MAX,
        stats_of(link, streams).rtt_ms matches Some(rtt) ==> rtt == link.rtt_ms,
        stats_of(new_link(link.node), streams).rtt_ms is None,
{
}

/// A peer that is dropped is down on both lanes, has no connection left in either
/// direction, and takes nothing from the other peers.
pub proof fn law_dropped_peers_are_down(mesh: MeshView, node: NodeId, other: NodeId, lane: Lane)
    requires
        mesh.well_formed(),
    ensures
        ({
            let after = mesh.peer_dropped(node);
            &&& after.outgoing_of(node, lane) is None
            &&& other != node ==> after.outgoing_of(other, lane) == mesh.outgoing_of(other, lane)
            &&& forall|i: int|
                0 <= i < after.incoming.len() ==> (#[trigger] after.incoming[i]).node != node
            &&& forall|i: int|
                0 <= i < mesh.incoming.len() && (#[trigger] mesh.incoming[i]).node != node
                    ==> after.incoming.contains(mesh.incoming[i])
            &&& mesh.link_of(node) matches Some(link) ==> after.link_of(node) == Some(
                PeerLink { connected_control: false, connected_bulk: false, ..link },
            )
        }),
{
    let control = lane_rank(node, Lane::Control);
    let bulk = lane_rank(node, Lane::Bulk);
    lemma_except(mesh.outgoing, control);
    lemma_except(except(mesh.outgoing, control), bulk);
    lemma_lane_rank(node, Lane::Control);
    lemma_lane_rank(node, Lane::Bulk);
    lemma_lane_rank(other, lane);
    lemma_lane_rank(node, lane);
    let kept = except(except(mesh.outgoing, control), bulk);
    assert(ranked(kept, control) is None);
    assert(ranked(kept, bulk) is None);
    assert(lane_rank(node, lane) == control || lane_rank(node, lane) == bulk);
    if other != node {
        assert(lane_rank(other, lane) != control && lane_rank(other, lane) != bulk);
        assert(ranked(kept, lane_rank(other, lane)) == ranked(
            except(mesh.outgoing, control),
            lane_rank(other, lane),
        ));
    }
    lemma_others_are_kept(mesh.incoming, node);
    if let Some(link) = mesh.link_of(node) {
        lemma_ranked(mesh.links, node.0 as u128);
        lemma_link_set(
            mesh,
            PeerLink { connected_control: false, connected_bulk: false, ..link },
            node,
        );
    }
}

proof fn lemma_others_are_kept(conns: Seq<IncomingConn>, node: NodeId)
    ensures
        forall|i: int|
            0 <= i < of_others(conns, node).len() ==> (#[trigger] of_others(conns, node)[i]).node
                != node,
        forall|i: int|
            0 <= i < conns.len() && (#[trigger] conns[i]).node != node ==> of_others(
                conns,
                node,
            ).contains(conns[i]),
    decreases conns.len(),
{
    if conns.len() > 0 {
        let front = conns.drop_last();
        let before = of_others(front, node);
        let after = of_others(conns, node);
        lemma_others_are_kept(front, node);
        assert forall|i: int| 0 <= i < conns.len() && (#[trigger] conns[i]).node
            != node implies after.contains(conns[i]) by {
            if i < front.len() {
                assert(front[i] == conns[i]);
                let k = choose|k: int| 0 <= k < before.len() && before[k] == conns[i];
                assert(after[k] == conns[i]);
            } else {
                assert(after[after.len() - 1] == conns[i]);
            }
        }
    }
}

/// A lane is shown for as long as some connection from the peer carries it: forgetting a
/// connection hides exactly the lanes that no other one carries.
pub proof fn law_lanes_last_as_long_as_a_connection(mesh: MeshView, node: NodeId, id: u64)
    requires
        mesh.well_formed(),
        mesh.link_of(node) is Some,
    ensures
        mesh.incoming_forgotten(node, id).link_of(node) matches Some(link) && {
            &&& link.connected_control <==> exists|i: int|
                0 <= i < mesh.incoming.len() && (#[trigger] mesh.incoming[i]).node == node
                    && mesh.incoming[i].id != id && mesh.incoming[i].control
            &&& link.connected_bulk <==> exists|i: int|
                0 <= i < mesh.incoming.len() && (#[trigger] mesh.incoming[i]).node == node
                    && mesh.incoming[i].id != id && mesh.incoming[i].bulk
        },
{
    let rank = conn_rank(node, id);
    let left = except(mesh.incoming, rank);
    let link = mesh.link_of(node)->0;
    let now = PeerLink {
        connected_control: carried(left, node, Lane::Control),
        connected_bulk: carried(left, node, Lane::Bulk),
        ..link
    };
    lemma_ranked(mesh.links, node.0 as u128);
    lemma_link_set(mesh, now, node);
    lemma_except(mesh.incoming, rank);
    assert forall|i: int| 0 <= i < mesh.incoming.len() && (#[trigger] mesh.incoming[i]).node
        == node && mesh.incoming[i].id != id implies left.contains(mesh.incoming[i]) by {
        let conn = mesh.incoming[i];
        lemma_conn_rank(conn.node, conn.id, node, id);
        lemma_ranked_at(mesh.incoming, i);
        assert(ranked(left, conn.rank()) == ranked(mesh.incoming, conn.rank()));
        lemma_ranked(left, conn.rank());
    }
    if carried(left, node, Lane::Control) {
        let k = choose|k: int|
            0 <= k < left.len() && (#[trigger] left[k]).node == node && left[k].control;
        assert(left[k].rank() != rank && mesh.incoming.contains(left[k]));
        let i = choose|i: int| 0 <= i < mesh.incoming.len() && mesh.incoming[i] == left[k];
        assert(mesh.incoming[i].id != id);
    }
    if carried(left, node, Lane::Bulk) {
        let k = choose|k: int|
            0 <= k < left.len() && (#[trigger] left[k]).node == node && left[k].bulk;
        assert(left[k].rank() != rank && mesh.incoming.contains(left[k]));
        let i = choose|i: int| 0 <= i < mesh.incoming.len() && mesh.incoming[i] == left[k];
        assert(mesh.incoming[i].id != id);
    }
    if exists|i: int|
        0 <= i < mesh.incoming.len() && (#[trigger] mesh.incoming[i]).node == node
            && mesh.incoming[i].id != id && mesh.incoming[i].control {
        let i = choose|i: int|
            0 <= i < mesh.incoming.len() && (#[trigger] mesh.incoming[i]).node == node
                && mesh.incoming[i].id != id && mesh.incoming[i].control;
        let k = choose|k: int| 0 <= k < left.len() && left[k] == mesh.incoming[i];
        assert(left[k].control);
    }
    if exists|i: int|
        0 <= i < mesh.incoming.len() && (#[trigger] mesh.incoming[i]).node == node
            && mesh.incoming[i].id != id && mesh.incoming[i].bulk {
        let i = choose|i: int|
            0 <= i < mesh.incoming.len() && (#[trigger] mesh.incoming[i]).node == node
                && mesh.incoming[i].id != id && mesh.incoming[i].bulk;
        let k = choose|k: int| 0 <= k < left.len() && left[k] == mesh.incoming[i];
        assert(left[k].bulk);
    }
}

/// A driver that ends takes its own connection with it and no other.
pub proof fn law_drivers_take_their_connection(
    mesh: MeshView,
    node: NodeId,
    lane: Lane,
    other: NodeId,
    other_lane: Lane,
    generation: u64,
)
    requires
        mesh.outgoing_of(node, lane) == Some(Outgoing { node, lane, generation }),
    ensures
        mesh.driver_ended(node, lane, generation).outgoing_of(node, lane) is None,
        other != node || other_lane != lane ==> mesh.driver_ended(
            node,
            lane,
            generation,
        ).outgoing_of(other, other_lane) == mesh.outgoing_of(other, other_lane),
        mesh.driver_ended(node, lane, generation).links == mesh.links,
{
    lemma_except(mesh.outgoing, lane_rank(node, lane));
    lemma_lane_rank(node, lane);
    lemma_lane_rank(other, other_lane);
    assert(ranked(except(mesh.outgoing, lane_rank(node, lane)), lane_rank(node, lane)) is None);
    if other != node || other_lane != lane {
        assert(lane_rank(other, other_lane) != lane_rank(node, lane));
        assert(ranked(
            except(mesh.outgoing, lane_rank(node, lane)),
            lane_rank(other, other_lane),
        ) == ranked(mesh.outgoing, lane_rank(other, other_lane)));
    }
}

/// A request is admitted exactly if its claim reads, fits the certificate that it came
/// with and is of a peer that is not suspended.
pub proof fn law_admission_takes_all_three(
    mesh: MeshView,
    headers: HeadersView,
    bound: Option<NodeId>,
)
    ensures
        mesh.admitted(headers, bound) matches Ok(claim) ==> {
            &&& claimed(headers) == Ok::<_, RefusalView>(claim)
            &&& bound matches Some(node) ==> node == claim.node
            &&& mesh.link_of(claim.node) matches Some(link) ==> !link.suspended
        },
        claimed(headers) matches Ok(claim) ==> ((bound is None || bound == Some(claim.node)) && (
        mesh.link_of(claim.node) is None || !mesh.link_of(claim.node)->0.suspended)
            ==> mesh.admitted(headers, bound) == Ok::<_, RefusalView>(claim)),
        claimed(headers) matches Err(refusal) ==> mesh.admitted(headers, bound) == Err::<
            PeerClaim,
            _,
        >(refusal),
{
}

} // verus!
