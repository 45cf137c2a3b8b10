//! Node registry: admitted cluster members and their lifecycle.
//!
//! Node identity is authenticated from the replicated registry. Admission takes
//! effect only after a replicated control-plane commit.

use crate::ids::NodeId;
use crate::text::text_of_bytes;
use crate::wire::{
    copy_bytes, get_digest, get_u32, get_u64, group_fields, len_prefix, put_bytes, put_u32,
    put_u64, u32_at, u32_bytes, u64_at, u64_bytes, view_result, wire_len,
};
use vstd::prelude::*;
use vstd::slice::slice_subrange;
use vstd::utf8::{
    decode_utf8, encode_utf8, encode_utf8_decode_utf8, encode_utf8_valid_utf8, valid_utf8,
};

verus! {

/// Lifecycle of one cluster node.
///
/// A short transient miss makes a node `Suspect`; only a repair-worthy outage
/// makes it `Unavailable`. Only `Unavailable` and `Draining` nodes lose desired
/// replicas through automatic repair.
///
/// ```text
/// Joining -> Active <-> Suspect -> Unavailable -> Active (return)
/// Active -> Draining -> Drained -> Removed
/// Unavailable -> Draining (operator drain of a dead node)
/// Any non-Removed -> Removed (operator removal)
/// Drained -> Active (re-admit)
/// ```
#[derive(Debug, Clone, Copy, PartialEq, Eq, PartialOrd, Ord, Hash, Structural)]
pub enum NodeState {
    /// Admitted by the control plane but not yet serving data.
    Joining,
    /// Serving data and eligible for new placements.
    Active,
    /// Transient heartbeat misses; still serves and keeps placements.
    Suspect,
    /// Repair-worthy outage: suspicion and grace have both expired.
    Unavailable,
    /// Excluded from new placements; existing replicas migrate away.
    Draining,
    /// No data replicas remain; safe to remove.
    Drained,
    /// Tombstoned after removal; fences stale control actions.
    Removed,
}

impl NodeState {
    /// The canonical discriminant.
    pub open spec fn byte(self) -> u8 {
        match self {
            NodeState::Joining => 0,
            NodeState::Active => 1,
            NodeState::Suspect => 5,
            NodeState::Unavailable => 6,
            NodeState::Draining => 2,
            NodeState::Drained => 3,
            NodeState::Removed => 4,
        }
    }

    /// The value with discriminant `byte`, if there is one.
    pub open spec fn of_byte(byte: u8) -> Result<Self, NodeError> {
        if byte == 0 {
            Ok(NodeState::Joining)
        } else if byte == 1 {
            Ok(NodeState::Active)
        } else if byte == 2 {
            Ok(NodeState::Draining)
        } else if byte == 3 {
            Ok(NodeState::Drained)
        } else if byte == 4 {
            Ok(NodeState::Removed)
        } else if byte == 5 {
            Ok(NodeState::Suspect)
        } else if byte == 6 {
            Ok(NodeState::Unavailable)
        } else {
            Err(NodeError::BadState { found: byte })
        }
    }

    /// Whether the node may receive new replica placements.
    pub fn accepts_new_replicas(self) -> (accepts: bool)
        ensures
            accepts == (self is Active),
    {
        matches!(self, NodeState::Active)
    }

    /// Whether the node is expected to serve data traffic.
    pub fn serves_data(self) -> (serves: bool)
        ensures
            serves == (self is Active || self is Draining || self is Suspect),
    {
        matches!(self, NodeState::Active | NodeState::Draining | NodeState::Suspect)
    }

    /// Whether the node may receive replicas in a repair.
    pub fn is_repair_target(self) -> (target: bool)
        ensures
            target == (self is Active),
    {
        matches!(self, NodeState::Active)
    }

    /// Whether the node's replicas need replacement.
    pub fn needs_repair(self) -> (needs: bool)
        ensures
            needs == (self is Unavailable || self is Draining),
    {
        matches!(self, NodeState::Unavailable | NodeState::Draining)
    }

    /// Whether the drain has fully completed.
    pub fn is_drained(self) -> (drained: bool)
        ensures
            drained == (self is Drained),
    {
        matches!(self, NodeState::Drained)
    }

    /// Encodes the value as its discriminant byte.
    pub fn encode_byte(self) -> (byte: u8)
        ensures
            byte == self.byte(),
            Self::of_byte(byte) == Ok::<_, NodeError>(self),
    {
        match self {
            NodeState::Joining => 0,
            NodeState::Active => 1,
            NodeState::Suspect => 5,
            NodeState::Unavailable => 6,
            NodeState::Draining => 2,
            NodeState::Drained => 3,
            NodeState::Removed => 4,
        }
    }

    /// Decodes a discriminant byte.
    pub fn decode_byte(byte: u8) -> (result: Result<Self, NodeError>)
        ensures
            result == Self::of_byte(byte),
            result matches Ok(value) ==> value.byte() == byte,
            result is Err <==> byte >= 7,
    {
        match byte {
            0 => Ok(NodeState::Joining),
            1 => Ok(NodeState::Active),
            2 => Ok(NodeState::Draining),
            3 => Ok(NodeState::Drained),
            4 => Ok(NodeState::Removed),
            5 => Ok(NodeState::Suspect),
            6 => Ok(NodeState::Unavailable),
            _ => Err(NodeError::BadState { found: byte }),
        }
    }
}

/// The text fields of a node record.
#[derive(Debug, Clone, Copy, PartialEq, Eq, Structural)]
pub enum TextField {
    /// Consensus endpoint.
    Peer,
    /// Native client endpoint.
    Native,
    /// Admin endpoint.
    Admin,
    /// Failure-domain label.
    FailureDomain,
}

/// Why a node record was rejected.
#[derive(Debug, Clone, Copy, PartialEq, Eq, Structural)]
#[non_exhaustive]
pub enum NodeError {
    /// Unknown node-state discriminant in canonical bytes.
    BadState {
        /// Observed discriminant.
        found: u8,
    },
    /// Truncated canonical input.
    Truncated,
    /// Declared length exceeds the available input.
    Oversized {
        /// Declared length.
        len: usize,
        /// Bytes actually available.
        available: usize,
    },
    /// Trailing bytes after the framed record.
    TrailingBytes,
    /// A text field is not UTF-8, or an endpoint is no socket address.
    BadEndpoint {
        /// Offending field.
        field: TextField,
    },
}

/// One admitted cluster node.
///
/// Endpoints are dial information, kept in their textual form. The [`NodeId`] is
/// the stable identity that survives restarts. The certificate fingerprint is the
/// digest of the node's peer certificate.
#[derive(Debug, PartialEq, Eq)]
pub struct NodeRecord {
    /// Stable process identity.
    pub node: NodeId,
    /// Consensus endpoint.
    pub peer: String,
    /// Native client endpoint.
    pub native: String,
    /// Admin endpoint.
    pub admin: String,
    /// Digest of the peer certificate.
    pub cert_fingerprint: [u8; 32],
    /// Failure-domain label; empty when unknown.
    pub failure_domain: String,
    /// Capacity weight for placement balancing.
    pub weight: u32,
    /// Lifecycle state.
    pub state: NodeState,
}

/// What a [`NodeRecord`] says.
#[verifier::ext_equal]
pub struct NodeRecordView {
    pub node: NodeId,
    pub peer: Seq<char>,
    pub native: Seq<char>,
    pub admin: Seq<char>,
    pub cert_fingerprint: Seq<u8>,
    pub failure_domain: Seq<char>,
    pub weight: u32,
    pub state: NodeState,
}

impl View for NodeRecord {
    type V = NodeRecordView;

    open spec fn view(&self) -> NodeRecordView {
        NodeRecordView {
            node: self.node,
            peer: self.peer@,
            native: self.native@,
            admin: self.admin@,
            cert_fingerprint: self.cert_fingerprint@,
            failure_domain: self.failure_domain@,
            weight: self.weight,
            state: self.state,
        }
    }
}

impl Clone for NodeRecord {
    fn clone(&self) -> (copy: Self)
        ensures
            copy@ == self@,
    {
        NodeRecord {
            node: self.node,
            peer: self.peer.clone(),
            native: self.native.clone(),
            admin: self.admin.clone(),
            cert_fingerprint: self.cert_fingerprint,
            failure_domain: self.failure_domain.clone(),
            weight: self.weight,
            state: self.state,
        }
    }
}

/// A text as a length-prefixed byte string.
pub open spec fn text_bytes(text: Seq<char>) -> Seq<u8> {
    u32_bytes(wire_len(encode_utf8(text).len())) + encode_utf8(text)
}

/// Takes a length-prefixed text off the front of `rest`.
pub open spec fn text_taken(rest: Seq<u8>, field: TextField) -> Result<
    (Seq<char>, Seq<u8>),
    NodeError,
> {
    let len = u32_at(rest, 0);
    if rest.len() < 4 {
        Err(NodeError::Truncated)
    } else if rest.len() < 4 + len {
        Err(NodeError::Oversized { len: len as usize, available: rest.len() as usize })
    } else if !valid_utf8(rest.subrange(4, 4 + len)) {
        Err(NodeError::BadEndpoint { field })
    } else {
        Ok((decode_utf8(rest.subrange(4, 4 + len)), rest.skip(4 + len)))
    }
}

fn put_text(out: &mut Vec<u8>, text: &String)
    ensures
        final(out)@ == old(out)@ + text_bytes(text@),
{
    let ghost start = out@;
    let bytes: &[u8] = text.as_str().as_bytes();
    put_u32(out, len_prefix(bytes.len()));
    put_bytes(out, bytes);
    proof {
        assert(out@ =~= start + text_bytes(text@));
    }
}

fn take_text<'a>(rest: &'a [u8], field: TextField) -> (
    result: Result<(String, &'a [u8]), NodeError>
)
    ensures
        match result {
            Ok((text, tail)) => text_taken(rest@, field) == Ok::<_, NodeError>((text@, tail@)),
            Err(error) => text_taken(rest@, field) == Err::<(Seq<char>, Seq<u8>), _>(error),
        },
{
    if rest.len() < 4 {
        return Err(NodeError::Truncated);
    }
    let len: u32 = get_u32(rest, 0);
    if (rest.len() as u64) < 4 + (len as u64) {
        return Err(NodeError::Oversized { len: len as usize, available: rest.len() });
    }
    let end: usize = 4 + len as usize;
    match text_of_bytes(copy_bytes(rest, 4, end)) {
        Some(text) => {
            let tail: &[u8] = slice_subrange(rest, end, rest.len());
            proof {
                assert(tail@ =~= rest@.skip(end as int));
            }
            Ok((text, tail))
        },
        None => Err(NodeError::BadEndpoint { field }),
    }
}

/// The canonical texts of the endpoints of a node, as far as these are socket addresses.
#[derive(Debug, PartialEq, Eq)]
pub struct Endpoints {
    /// Consensus endpoint.
    pub peer: Option<String>,
    /// Native client endpoint.
    pub native: Option<String>,
    /// Admin endpoint.
    pub admin: Option<String>,
}

/// What [`Endpoints`] say.
#[verifier::ext_equal]
pub struct EndpointsView {
    pub peer: Option<Seq<char>>,
    pub native: Option<Seq<char>>,
    pub admin: Option<Seq<char>>,
}

/// Optional text, by its view.
pub open spec fn address_text(text: Option<String>) -> Option<Seq<char>> {
    match text {
        Some(text) => Some(text@),
        None => None,
    }
}

impl View for Endpoints {
    type V = EndpointsView;

    open spec fn view(&self) -> EndpointsView {
        EndpointsView {
            peer: address_text(self.peer),
            native: address_text(self.native),
            admin: address_text(self.admin),
        }
    }
}

/// Whether `canonical` may give `found` for the address that `text` spells.
pub open spec fn gave<F: Fn(&str) -> Option<String>>(
    canonical: F,
    text: Seq<char>,
    found: Option<Seq<char>>,
) -> bool {
    exists|of: &str, given: Option<String>|
        of@ == text && address_text(given) == found && #[trigger] call_ensures(
            canonical,
            (of,),
            given,
        )
}

impl NodeRecordView {
    /// The weight is at least one.
    pub open spec fn well_formed(self) -> bool {
        &&& self.weight >= 1
        &&& self.cert_fingerprint.len() == 32
    }

    /// Every text fits its length prefix.
    pub open spec fn framable(self) -> bool {
        &&& encode_utf8(self.peer).len() <= u32::MAX
        &&& encode_utf8(self.native).len() <= u32::MAX
        &&& encode_utf8(self.admin).len() <= u32::MAX
        &&& encode_utf8(self.failure_domain).len() <= u32::MAX
    }

    /// Canonical bytes: node, state, the three endpoints, fingerprint,
    /// failure domain, weight.
    pub open spec fn encoded(self) -> Seq<u8> {
        u64_bytes(self.node.0) + seq![self.state.byte()] + (text_bytes(self.peer) + (text_bytes(
            self.native,
        ) + (text_bytes(self.admin) + (self.cert_fingerprint + (text_bytes(self.failure_domain)
            + u32_bytes(self.weight))))))
    }

    /// The record with its endpoints in canonical text, or the first that is no address.
    pub open spec fn admitted(self, found: EndpointsView) -> Result<Self, NodeError> {
        if found.peer is None {
            Err(NodeError::BadEndpoint { field: TextField::Peer })
        } else if found.native is None {
            Err(NodeError::BadEndpoint { field: TextField::Native })
        } else if found.admin is None {
            Err(NodeError::BadEndpoint { field: TextField::Admin })
        } else {
            Ok(
                NodeRecordView {
                    peer: found.peer->0,
                    native: found.native->0,
                    admin: found.admin->0,
                    ..self
                },
            )
        }
    }

    /// Whether `canonical` may give `found` for the three endpoints.
    pub open spec fn judged<F: Fn(&str) -> Option<String>>(
        self,
        canonical: F,
        found: EndpointsView,
    ) -> bool {
        &&& gave(canonical, self.peer, found.peer)
        &&& gave(canonical, self.native, found.native)
        &&& gave(canonical, self.admin, found.admin)
    }

    /// The endpoints as they stand.
    pub open spec fn endpoints(self) -> EndpointsView {
        EndpointsView {
            peer: Some(self.peer),
            native: Some(self.native),
            admin: Some(self.admin),
        }
    }

    /// The record that `input` spells, whatever its endpoints are, or why it spells none.
    pub open spec fn decoded(input: Seq<u8>) -> Result<Self, NodeError> {
        if input.len() < 45 {
            Err(NodeError::Truncated)
        } else {
            match NodeState::of_byte(input[8]) {
                Err(error) => Err(error),
                Ok(state) => Self::decoded_endpoints(
                    NodeId(u64_at(input, 0)),
                    state,
                    input.skip(9),
                ),
            }
        }
    }

    /// The part of [`Self::decoded`] that starts at the endpoints.
    pub open spec fn decoded_endpoints(node: NodeId, state: NodeState, rest: Seq<u8>) -> Result<
        Self,
        NodeError,
    > {
        match text_taken(rest, TextField::Peer) {
            Err(error) => Err(error),
            Ok((peer, rest)) => match text_taken(rest, TextField::Native) {
                Err(error) => Err(error),
                Ok((native, rest)) => match text_taken(rest, TextField::Admin) {
                    Err(error) => Err(error),
                    Ok((admin, rest)) => Self::decoded_tail(
                        node,
                        state,
                        peer,
                        native,
                        admin,
                        rest,
                    ),
                },
            },
        }
    }

    /// The part of [`Self::decoded`] that starts at the fingerprint.
    pub open spec fn decoded_tail(
        node: NodeId,
        state: NodeState,
        peer: Seq<char>,
        native: Seq<char>,
        admin: Seq<char>,
        rest: Seq<u8>,
    ) -> Result<Self, NodeError> {
        if rest.len() < 36 {
            Err(NodeError::Truncated)
        } else {
            match text_taken(rest.skip(32), TextField::FailureDomain) {
                Err(error) => Err(error),
                Ok((failure_domain, tail)) => if tail.len() < 4 {
                    Err(NodeError::Truncated)
                } else if tail.len() > 4 {
                    Err(NodeError::TrailingBytes)
                } else {
                    Ok(
                        NodeRecordView {
                            node,
                            peer,
                            native,
                            admin,
                            cert_fingerprint: rest.subrange(0, 32),
                            failure_domain,
                            weight: if u32_at(tail, 0) < 1 {
                                1
                            } else {
                                u32_at(tail, 0)
                            },
                            state,
                        },
                    )
                },
            }
        }
    }
}

impl NodeRecord {
    /// Builds a joining node record with default weight.
    pub fn joining(
        node: NodeId,
        peer: String,
        native: String,
        admin: String,
        cert_fingerprint: [u8; 32],
    ) -> (record: Self)
        ensures
            record@ == (NodeRecordView {
                node,
                peer: peer@,
                native: native@,
                admin: admin@,
                cert_fingerprint: cert_fingerprint@,
                failure_domain: Seq::empty(),
                weight: 1,
                state: NodeState::Joining,
            }),
    {
        NodeRecord {
            node,
            peer,
            native,
            admin,
            cert_fingerprint,
            failure_domain: String::new(),
            weight: 1,
            state: NodeState::Joining,
        }
    }

    /// Encodes the canonical bytes.
    ///
    /// ```text
    /// node u64, state u8,
    /// peer_len u32 + peer[.], native_len u32 + native[.],
    /// admin_len u32 + admin[.], fingerprint [u8; 32],
    /// domain_len u32 + domain[.], weight u32
    /// ```
    pub fn encode_to_vec(&self) -> (out: Vec<u8>)
        ensures
            out@ == self@.encoded(),
    {
        let mut out: Vec<u8> = Vec::new();
        put_u64(&mut out, self.node.as_u64());
        out.push(self.state.encode_byte());
        put_text(&mut out, &self.peer);
        put_text(&mut out, &self.native);
        put_text(&mut out, &self.admin);
        put_bytes(&mut out, &self.cert_fingerprint);
        put_text(&mut out, &self.failure_domain);
        put_u32(&mut out, self.weight);
        proof {
            assert(out@ =~= self@.encoded());
        }
        out
    }

    /// Decodes exactly one record. Every endpoint must be a socket address: `canonical`
    /// gives the canonical text of the address that a text spells, if it spells one, and the
    /// record has that text.
    pub fn decode_exact<F: Fn(&str) -> Option<String>>(input: &[u8], canonical: &F) -> (result:
        Result<Self, NodeError>)
        requires
            forall|text: &str| call_requires(canonical, (text,)),
        ensures
            match NodeRecordView::decoded(input@) {
                Err(error) => view_result(result) == Err::<NodeRecordView, _>(error),
                Ok(record) => exists|found: EndpointsView|
                    {
                        &&& record.judged(*canonical, found)
                        &&& view_result(result) == #[trigger] record.admitted(found)
                    },
            },
            result matches Ok(record) ==> record@.well_formed(),
    {
        let record: NodeRecord = match Self::read(input) {
            Ok(record) => record,
            Err(error) => return Err(error),
        };
        let found: Endpoints = record.canonize(canonical);
        record.with_endpoints(found)
    }

    /// Asks for the canonical text of every endpoint.
    pub(crate) fn canonize<F: Fn(&str) -> Option<String>>(&self, canonical: &F) -> (found:
        Endpoints)
        requires
            forall|text: &str| call_requires(canonical, (text,)),
        ensures
            self@.judged(*canonical, found@),
    {
        let peer: Option<String> = canonical(self.peer.as_str());
        let native: Option<String> = canonical(self.native.as_str());
        let admin: Option<String> = canonical(self.admin.as_str());
        Endpoints { peer, native, admin }
    }

    /// Reads exactly one record, whatever its endpoints are.
    pub(crate) fn read(input: &[u8]) -> (result: Result<Self, NodeError>)
        ensures
            view_result(result) == NodeRecordView::decoded(input@),
            result matches Ok(record) ==> record@.well_formed(),
    {
        if input.len() < 45 {
            return Err(NodeError::Truncated);
        }
        let node: NodeId = NodeId::from_u64(get_u64(input, 0));
        let state: NodeState = match NodeState::decode_byte(input[8]) {
            Ok(state) => state,
            Err(error) => return Err(error),
        };
        let rest: &[u8] = slice_subrange(input, 9, input.len());
        proof {
            assert(rest@ =~= input@.skip(9));
        }
        let (peer, rest) = match take_text(rest, TextField::Peer) {
            Ok(taken) => taken,
            Err(error) => return Err(error),
        };
        let (native, rest) = match take_text(rest, TextField::Native) {
            Ok(taken) => taken,
            Err(error) => return Err(error),
        };
        let (admin, rest) = match take_text(rest, TextField::Admin) {
            Ok(taken) => taken,
            Err(error) => return Err(error),
        };
        if rest.len() < 36 {
            return Err(NodeError::Truncated);
        }
        let cert_fingerprint: [u8; 32] = get_digest(rest, 0);
        let tail: &[u8] = slice_subrange(rest, 32, rest.len());
        proof {
            assert(tail@ =~= rest@.skip(32));
        }
        let (failure_domain, tail) = match take_text(tail, TextField::FailureDomain) {
            Ok(taken) => taken,
            Err(error) => return Err(error),
        };
        if tail.len() < 4 {
            return Err(NodeError::Truncated);
        }
        let weight: u32 = get_u32(tail, 0);
        if tail.len() > 4 {
            return Err(NodeError::TrailingBytes);
        }
        Ok(
            NodeRecord {
                node,
                peer,
                native,
                admin,
                cert_fingerprint,
                failure_domain,
                weight: if weight < 1 {
                    1
                } else {
                    weight
                },
                state,
            },
        )
    }

    /// Puts the canonical texts of the endpoints into the record; names the first endpoint
    /// that is no socket address.
    pub fn with_endpoints(self, found: Endpoints) -> (result: Result<Self, NodeError>)
        ensures
            view_result(result) == self@.admitted(found@),
    {
        let peer: String = match found.peer {
            Some(text) => text,
            None => return Err(NodeError::BadEndpoint { field: TextField::Peer }),
        };
        let native: String = match found.native {
            Some(text) => text,
            None => return Err(NodeError::BadEndpoint { field: TextField::Native }),
        };
        let admin: String = match found.admin {
            Some(text) => text,
            None => return Err(NodeError::BadEndpoint { field: TextField::Admin }),
        };
        Ok(NodeRecord { peer, native, admin, ..self })
    }
}

proof fn lemma_text_taken(text: Seq<char>, rest: Seq<u8>, field: TextField)
    requires
        encode_utf8(text).len() <= u32::MAX,
    ensures
        text_taken(text_bytes(text) + rest, field) == Ok::<_, NodeError>((text, rest)),
{
    broadcast use group_fields;

    let bytes = encode_utf8(text);
    let all = text_bytes(text) + rest;
    encode_utf8_valid_utf8(text);
    encode_utf8_decode_utf8(text);
    assert(all.subrange(0, 4) =~= u32_bytes(wire_len(bytes.len())));
    assert(all.subrange(4, 4 + bytes.len() as int) =~= bytes);
    assert(all.skip(4 + bytes.len() as int) =~= rest);
}

proof fn lemma_tail_decodes(record: NodeRecordView, rest: Seq<u8>)
    requires
        record.well_formed(),
        record.framable(),
        rest == record.cert_fingerprint + (text_bytes(record.failure_domain) + u32_bytes(
            record.weight,
        )),
    ensures
        NodeRecordView::decoded_tail(
            record.node,
            record.state,
            record.peer,
            record.native,
            record.admin,
            rest,
        ) == Ok::<_, NodeError>(record),
{
    broadcast use group_fields;

    let weight = u32_bytes(record.weight);
    let domain = text_bytes(record.failure_domain) + weight;
    lemma_text_taken(record.failure_domain, weight, TextField::FailureDomain);
    assert(rest.skip(32) =~= domain);
    assert(rest.subrange(0, 32) =~= record.cert_fingerprint);
    assert(weight.subrange(0, 4) =~= weight);
}

proof fn lemma_endpoints_decode(record: NodeRecordView, rest: Seq<u8>, tail: Seq<u8>)
    requires
        record.framable(),
        rest == text_bytes(record.peer) + (text_bytes(record.native) + (text_bytes(record.admin)
            + tail)),
    ensures
        NodeRecordView::decoded_endpoints(record.node, record.state, rest)
            == NodeRecordView::decoded_tail(
            record.node,
            record.state,
            record.peer,
            record.native,
            record.admin,
            tail,
        ),
{
    let admin = text_bytes(record.admin) + tail;
    let native = text_bytes(record.native) + admin;
    lemma_text_taken(record.peer, native, TextField::Peer);
    lemma_text_taken(record.native, admin, TextField::Native);
    lemma_text_taken(record.admin, tail, TextField::Admin);
}

/// A well-formed record decodes from its own encoding, if its endpoints are socket
/// addresses in canonical text.
pub proof fn law_node_record_round_trip(record: NodeRecordView)
    requires
        record.well_formed(),
        record.framable(),
    ensures
        NodeRecordView::decoded(record.encoded()) == Ok::<_, NodeError>(record),
        record.admitted(record.endpoints()) == Ok::<_, NodeError>(record),
{
    broadcast use group_fields;

    let tail = record.cert_fingerprint + (text_bytes(record.failure_domain) + u32_bytes(
        record.weight,
    ));
    let rest = text_bytes(record.peer) + (text_bytes(record.native) + (text_bytes(record.admin)
        + tail));
    let bytes = record.encoded();
    assert(bytes == u64_bytes(record.node.0) + seq![record.state.byte()] + rest);
    assert(bytes.subrange(0, 8) =~= u64_bytes(record.node.0));
    assert(bytes[8] == record.state.byte());
    assert(bytes.skip(9) =~= rest);
    lemma_endpoints_decode(record, rest, tail);
    lemma_tail_decodes(record, tail);
}

/// The states of a node have their numbers, each its own.
pub proof fn law_node_states_are_numbered(state: NodeState, byte: u8)
    ensures
        NodeState::Joining.byte() == 0,
        NodeState::Active.byte() == 1,
        NodeState::Draining.byte() == 2,
        NodeState::Drained.byte() == 3,
        NodeState::Removed.byte() == 4,
        NodeState::Suspect.byte() == 5,
        NodeState::Unavailable.byte() == 6,
        NodeState::of_byte(byte) == Ok::<_, NodeError>(state) <==> state.byte() == byte,
        byte > 6 ==> NodeState::of_byte(byte) == Err::<NodeState, _>(
            NodeError::BadState { found: byte },
        ),
{
}

/// The image of a record holds its parts in order: the identity, the state, the peer,
/// native and admin addresses, the fingerprint, the failure domain and the weight. Each
/// text stands behind its length.
pub proof fn law_node_record_image_layout(record: NodeRecordView)
    requires
        record.framable(),
        record.cert_fingerprint.len() == 32,
    ensures
        ({
            let bytes = record.encoded();
            let peer = bytes.skip(9);
            let native = peer.skip(4 + encode_utf8(record.peer).len() as int);
            let admin = native.skip(4 + encode_utf8(record.native).len() as int);
            let cert = admin.skip(4 + encode_utf8(record.admin).len() as int);
            let domain = cert.skip(32);
            let weight = domain.skip(4 + encode_utf8(record.failure_domain).len() as int);
            &&& u64_at(bytes, 0) == record.node.0
            &&& bytes[8] == record.state.byte()
            &&& leads(peer, record.peer)
            &&& leads(native, record.native)
            &&& leads(admin, record.admin)
            &&& cert.take(32) == record.cert_fingerprint
            &&& leads(domain, record.failure_domain)
            &&& weight.len() == 4
            &&& u32_at(weight, 0) == record.weight
        }),
{
    broadcast use group_fields;

    let weight = u32_bytes(record.weight);
    let domain = text_bytes(record.failure_domain) + weight;
    let cert = record.cert_fingerprint + domain;
    let admin = text_bytes(record.admin) + cert;
    let native = text_bytes(record.native) + admin;
    let peer = text_bytes(record.peer) + native;
    let bytes = record.encoded();
    assert(bytes == u64_bytes(record.node.0) + seq![record.state.byte()] + peer);
    assert(bytes.subrange(0, 8) =~= u64_bytes(record.node.0));
    assert(bytes.skip(9) =~= peer);
    lemma_text_leads(record.peer, native);
    lemma_text_leads(record.native, admin);
    lemma_text_leads(record.admin, cert);
    lemma_text_leads(record.failure_domain, weight);
    assert(cert.skip(32) =~= domain);
    assert(cert.take(32) =~= record.cert_fingerprint);
    assert(weight.subrange(0, 4) =~= weight);
}

/// Whether `bytes` starts with the length of `text` and its bytes.
pub open spec fn leads(bytes: Seq<u8>, text: Seq<char>) -> bool {
    let utf8 = encode_utf8(text);
    &&& u32_at(bytes, 0) == utf8.len()
    &&& bytes.subrange(4, 4 + utf8.len() as int) == utf8
}

proof fn lemma_text_leads(text: Seq<char>, rest: Seq<u8>)
    requires
        encode_utf8(text).len() <= u32::MAX,
    ensures
        leads(text_bytes(text) + rest, text),
        (text_bytes(text) + rest).skip(4 + encode_utf8(text).len() as int) == rest,
{
    broadcast use group_fields;

    let utf8 = encode_utf8(text);
    let bytes = text_bytes(text) + rest;
    assert(bytes.subrange(0, 4) =~= u32_bytes(wire_len(utf8.len())));
    assert(bytes.subrange(4, 4 + utf8.len() as int) =~= utf8);
    assert(bytes.skip(4 + utf8.len() as int) =~= rest);
}

/// A record is admitted exactly if all three of its addresses are; the first that is not
/// names the error, and what is admitted carries the addresses that were found.
pub proof fn law_admission_needs_every_address(record: NodeRecordView, found: EndpointsView)
    ensures
        found.peer is None ==> record.admitted(found) == Err::<NodeRecordView, _>(
            NodeError::BadEndpoint { field: TextField::Peer },
        ),
        found.peer is Some && found.native is None ==> record.admitted(found) == Err::<
            NodeRecordView,
            _,
        >(NodeError::BadEndpoint { field: TextField::Native }),
        found.peer is Some && found.native is Some && found.admin is None ==> record.admitted(
            found,
        ) == Err::<NodeRecordView, _>(NodeError::BadEndpoint { field: TextField::Admin }),
        found.peer is Some && found.native is Some && found.admin is Some ==> {
            &&& record.admitted(found) matches Ok(kept)
            &&& found.peer == Some(kept.peer)
            &&& found.native == Some(kept.native)
            &&& found.admin == Some(kept.admin)
            &&& kept.node == record.node
            &&& kept.state == record.state
            &&& kept.weight == record.weight
            &&& kept.failure_domain == record.failure_domain
            &&& kept.cert_fingerprint == record.cert_fingerprint
        },
{
}

} // verus!
