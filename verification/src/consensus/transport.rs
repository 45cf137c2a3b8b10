//! What peers may ask of each other, and what an answer means.
//!
//! A request names its sender in four headers. Serving it is a sequence of decisions, each
//! with one refusal: the headers must be there and be numbers; a connection that is bound
//! to a certificate must speak for the node of that certificate; a suspended peer gets
//! nothing; the identity must be valid; the body must be readable and stay under its cap;
//! the route must exist. On the other side, the status of an answer decides what the call
//! gives, and whether the connection is kept.

use crate::decimal::{decimal, law_decimal_round_trip, parse_decimal, parsed, push_decimal};
use crate::ids::{ClusterId, NodeId, NodeIncarnation};
use crate::time::Duration;
use crate::wire::copy_bytes;
use vstd::prelude::*;
use vstd::utf8::*;

verus! {

/// Largest body of a Raft request in bytes.
pub const MAX_RAFT_BODY_BYTES: usize = 16 * 1024 * 1024;

/// Largest body of a bulk request or answer in bytes.
pub const MAX_BULK_BODY_BYTES: usize = 8 * 1024 * 1024;

/// Largest segment that an answer is sent in.
pub const SEGMENT_BYTES: usize = 256 * 1024;

/// Largest part of a refusal's text that is read.
pub const MAX_REFUSAL_BYTES: usize = 4096;

/// Largest number that a QUIC variable-length integer holds.
pub const MAX_VARINT: u64 = 0x3FFF_FFFF_FFFF_FFFF;

/// Which connection of a pair carries a request.
#[derive(Debug, Clone, Copy, PartialEq, Eq, Hash, Structural)]
pub enum Lane {
    /// Votes, heartbeats, appends, snapshot fragments.
    Control,
    /// Manifests and chunks.
    Bulk,
}

/// What a request is for.
#[derive(Debug, Clone, Copy, PartialEq, Eq, Hash, Structural)]
pub enum RequestKind {
    /// A vote.
    Vote,
    /// A vote that changes no term.
    PreVote,
    /// Log entries.
    Append,
    /// A fragment of a snapshot.
    Snapshot,
    /// A manifest.
    Manifest,
    /// A chunk.
    Chunk,
}

impl RequestKind {
    /// The lane that carries such a request.
    pub open spec fn lane_of(self) -> Lane {
        match self {
            RequestKind::Manifest => Lane::Bulk,
            RequestKind::Chunk => Lane::Bulk,
            _ => Lane::Control,
        }
    }

    /// Returns the lane that carries such a request.
    pub fn lane(self) -> (lane: Lane)
        ensures
            lane == self.lane_of(),
    {
        match self {
            RequestKind::Manifest => Lane::Bulk,
            RequestKind::Chunk => Lane::Bulk,
            _ => Lane::Control,
        }
    }

    /// The media type of the answer to such a request.
    pub open spec fn media_of(self) -> Seq<char> {
        match self {
            RequestKind::Manifest => "application/vnd.kivi.manifest"@,
            RequestKind::Chunk => "application/vnd.kivi.chunk"@,
            _ => "application/vnd.kivi.raft"@,
        }
    }

    /// Returns the media type of the answer to such a request.
    pub fn media(self) -> (media: String)
        ensures
            media@ == self.media_of(),
    {
        match self {
            RequestKind::Manifest => "application/vnd.kivi.manifest".to_owned(),
            RequestKind::Chunk => "application/vnd.kivi.chunk".to_owned(),
            _ => "application/vnd.kivi.raft".to_owned(),
        }
    }
}

impl Lane {
    /// The largest body on this lane.
    pub open spec fn cap_of(self) -> usize {
        match self {
            Lane::Control => MAX_RAFT_BODY_BYTES,
            Lane::Bulk => MAX_BULK_BODY_BYTES,
        }
    }

    /// Returns the largest body on this lane.
    pub fn cap(self) -> (cap: usize)
        ensures
            cap == self.cap_of(),
    {
        match self {
            Lane::Control => MAX_RAFT_BODY_BYTES,
            Lane::Bulk => MAX_BULK_BODY_BYTES,
        }
    }
}

/// Transport tuning. Every bound is explicit.
#[derive(Debug, Clone, Copy, PartialEq, Eq, Structural)]
pub struct TransportConfig {
    /// Concurrent inbound streams per connection.
    pub max_concurrent_bidi_streams: u64,
    /// Receive window per stream in bytes.
    pub stream_receive_window: u64,
    /// Receive window per connection in bytes.
    pub receive_window: u64,
    /// Send window in bytes.
    pub send_window: u64,
    /// Fair queuing across send streams.
    pub send_fairness: bool,
    /// How long a quiet connection stays open.
    pub idle_timeout: Duration,
    /// Keep-alive interval; none disables it.
    pub keep_alive_interval: Option<Duration>,
    /// Default deadline of a call.
    pub rpc_timeout: Duration,
    /// Deadline of a bulk call.
    pub bulk_timeout: Duration,
    /// First reconnect delay.
    pub backoff_min: Duration,
    /// Largest reconnect delay.
    pub backoff_max: Duration,
    /// Whether dialing and serving wait for a start.
    pub start_paused: bool,
}

/// Tuning in the units of QUIC.
#[derive(Debug, Clone, Copy, PartialEq, Eq, Structural)]
pub struct QuicTuning {
    /// Concurrent bidirectional streams.
    pub max_bidi_streams: u32,
    /// Concurrent unidirectional streams. The handshake of the upper protocol needs some.
    pub max_uni_streams: u32,
    /// Receive window per stream.
    pub stream_receive_window: u64,
    /// Receive window per connection.
    pub receive_window: u64,
    /// Send window.
    pub send_window: u64,
    /// Fair queuing.
    pub send_fairness: bool,
    /// Idle timeout in milliseconds.
    pub idle_timeout_millis: u64,
    /// Keep-alive interval.
    pub keep_alive_interval: Option<Duration>,
}

/// The smaller of two numbers.
pub open spec fn at_most(value: u64, bound: u64) -> u64 {
    if value <= bound {
        value
    } else {
        bound
    }
}

/// A number as a QUIC variable-length integer; the largest one where it does not fit.
pub fn varint_saturating(value: u64) -> (varint: u64)
    ensures
        varint == at_most(value, MAX_VARINT),
{
    if value <= MAX_VARINT {
        value
    } else {
        MAX_VARINT
    }
}

impl TransportConfig {
    /// The defaults.
    pub open spec fn defaults() -> Self {
        TransportConfig {
            max_concurrent_bidi_streams: 128,
            stream_receive_window: 2097152,
            receive_window: 33554432,
            send_window: 33554432,
            send_fairness: true,
            idle_timeout: Duration { nanos: 30_000_000_000 },
            keep_alive_interval: Some(Duration { nanos: 10_000_000_000 }),
            rpc_timeout: Duration { nanos: 10_000_000_000 },
            bulk_timeout: Duration { nanos: 30_000_000_000 },
            backoff_min: Duration { nanos: 100_000_000 },
            backoff_max: Duration { nanos: 5_000_000_000 },
            start_paused: false,
        }
    }

    /// The tuning in the units of QUIC. An idle timeout that does not fit becomes half a
    /// minute.
    pub open spec fn tuned(self) -> QuicTuning {
        QuicTuning {
            max_bidi_streams: at_most(self.max_concurrent_bidi_streams, u32::MAX as u64) as u32,
            max_uni_streams: 32,
            stream_receive_window: at_most(self.stream_receive_window, MAX_VARINT),
            receive_window: at_most(self.receive_window, MAX_VARINT),
            send_window: self.send_window,
            send_fairness: self.send_fairness,
            idle_timeout_millis: if self.idle_timeout.nanos / 1_000_000 <= MAX_VARINT {
                (self.idle_timeout.nanos / 1_000_000) as u64
            } else {
                30_000
            },
            keep_alive_interval: self.keep_alive_interval,
        }
    }

    /// Returns the tuning in the units of QUIC.
    pub fn quic_transport(&self) -> (tuning: QuicTuning)
        ensures
            tuning == self.tuned(),
    {
        let millis: u128 = self.idle_timeout.as_millis();
        QuicTuning {
            max_bidi_streams: if self.max_concurrent_bidi_streams <= u32::MAX as u64 {
                self.max_concurrent_bidi_streams as u32
            } else {
                u32::MAX
            },
            max_uni_streams: 32,
            stream_receive_window: varint_saturating(self.stream_receive_window),
            receive_window: varint_saturating(self.receive_window),
            send_window: self.send_window,
            send_fairness: self.send_fairness,
            idle_timeout_millis: if millis <= MAX_VARINT as u128 {
                millis as u64
            } else {
                30_000
            },
            keep_alive_interval: self.keep_alive_interval,
        }
    }

    /// The reconnect delay after `backoff`.
    pub open spec fn next_backoff(self, backoff: Duration) -> Duration {
        let doubled = 2 * backoff.nanos;
        let capped = if doubled <= self.backoff_max.nanos {
            doubled as int
        } else {
            self.backoff_max.nanos as int
        };
        Duration {
            nanos: if capped < 1_000_000 {
                1_000_000
            } else {
                capped as u128
            },
        }
    }

    /// Doubles a reconnect delay, within a millisecond and the largest delay.
    pub fn grow_backoff(&self, backoff: Duration) -> (next: Duration)
        ensures
            next == self.next_backoff(backoff),
    {
        let capped: u128 = if backoff.nanos <= self.backoff_max.nanos / 2 {
            2 * backoff.nanos
        } else {
            self.backoff_max.nanos
        };
        if capped < 1_000_000 {
            Duration { nanos: 1_000_000 }
        } else {
            Duration { nanos: capped }
        }
    }

    /// Says how long a dial loop waits after a round of dials, if at all, and the delay that
    /// it goes on with: a round that failed waits the present delay, which grows, and one
    /// that succeeded starts anew from the least.
    pub fn pace(&self, backoff: Duration, dialed: bool) -> (pace: (Option<Duration>, Duration))
        ensures
            pace == if dialed {
                (None::<Duration>, self.backoff_min)
            } else {
                (Some(backoff), self.next_backoff(backoff))
            },
    {
        if dialed {
            (None, self.backoff_min)
        } else {
            (Some(backoff), self.grow_backoff(backoff))
        }
    }
}

impl Default for TransportConfig {
    fn default() -> (config: Self)
        ensures
            config == Self::defaults(),
    {
        TransportConfig {
            max_concurrent_bidi_streams: 128,
            stream_receive_window: 2 * 1024 * 1024,
            receive_window: 32 * 1024 * 1024,
            send_window: 32 * 1024 * 1024,
            send_fairness: true,
            idle_timeout: Duration::from_secs(30),
            keep_alive_interval: Some(Duration::from_secs(10)),
            rpc_timeout: Duration::from_secs(10),
            bulk_timeout: Duration::from_secs(30),
            backoff_min: Duration::from_millis(100),
            backoff_max: Duration::from_secs(5),
            start_paused: false,
        }
    }
}

/// Reconnect delays stay within a millisecond and the largest delay.
pub proof fn law_backoff_is_bounded(config: TransportConfig, backoff: Duration)
    ensures
        config.next_backoff(backoff).nanos >= 1_000_000,
        config.next_backoff(backoff).nanos <= config.backoff_max.nanos || config.next_backoff(
            backoff,
        ).nanos == 1_000_000,
        1_000_000 <= backoff.nanos <= config.backoff_max.nanos ==> config.next_backoff(
            backoff,
        ).nanos >= backoff.nanos,
{
}

/// Why a call failed. All of these can be retried.
#[derive(Debug, Clone, PartialEq, Eq)]
#[non_exhaustive]
pub enum TransportError {
    /// No such peer is configured.
    UnknownPeer {
        /// The node addressed.
        node: u64,
    },
    /// The peer cannot be reached.
    Unreachable {
        /// Why.
        detail: String,
    },
    /// No answer came before the deadline.
    Timeout,
    /// The transport is shutting down.
    ShuttingDown,
    /// The peer refused the call.
    RemoteRefused {
        /// Why.
        detail: String,
    },
}

/// What a [`TransportError`] says.
#[verifier::ext_equal]
pub enum TransportErrorView {
    UnknownPeer { node: u64 },
    Unreachable { detail: Seq<char> },
    Timeout,
    ShuttingDown,
    RemoteRefused { detail: Seq<char> },
}

impl View for TransportError {
    type V = TransportErrorView;

    open spec fn view(&self) -> TransportErrorView {
        match self {
            TransportError::UnknownPeer { node } => TransportErrorView::UnknownPeer { node: *node },
            TransportError::Unreachable { detail } => TransportErrorView::Unreachable {
                detail: detail@,
            },
            TransportError::Timeout => TransportErrorView::Timeout,
            TransportError::ShuttingDown => TransportErrorView::ShuttingDown,
            TransportError::RemoteRefused { detail } => TransportErrorView::RemoteRefused {
                detail: detail@,
            },
        }
    }
}

/// A refusal: a status and a text.
#[derive(Debug, PartialEq, Eq)]
pub struct Refusal {
    /// The HTTP status.
    pub status: u16,
    /// The text.
    pub detail: String,
}

/// What a [`Refusal`] says.
#[verifier::ext_equal]
pub struct RefusalView {
    pub status: u16,
    pub detail: Seq<char>,
}

impl View for Refusal {
    type V = RefusalView;

    open spec fn view(&self) -> RefusalView {
        RefusalView { status: self.status, detail: self.detail@ }
    }
}

/// The identity headers of a request, as far as they are there and are text.
#[derive(Debug, PartialEq, Eq)]
pub struct PeerHeaders {
    /// The cluster.
    pub cluster: Option<String>,
    /// The node.
    pub node: Option<String>,
    /// The process generation.
    pub incarnation: Option<String>,
    /// The capabilities.
    pub caps: Option<String>,
}

/// What [`PeerHeaders`] say.
#[verifier::ext_equal]
pub struct HeadersView {
    pub cluster: Option<Seq<char>>,
    pub node: Option<Seq<char>>,
    pub incarnation: Option<Seq<char>>,
    pub caps: Option<Seq<char>>,
}

/// Optional text, by its view.
pub open spec fn header_view(text: Option<String>) -> Option<Seq<char>> {
    match text {
        Some(text) => Some(text@),
        None => None,
    }
}

impl View for PeerHeaders {
    type V = HeadersView;

    open spec fn view(&self) -> HeadersView {
        HeadersView {
            cluster: header_view(self.cluster),
            node: header_view(self.node),
            incarnation: header_view(self.incarnation),
            caps: header_view(self.caps),
        }
    }
}

/// Who a request says it is from.
#[derive(Debug, Clone, Copy, PartialEq, Eq, Structural)]
pub struct PeerClaim {
    /// The cluster.
    pub cluster: ClusterId,
    /// The node.
    pub node: NodeId,
    /// The process generation.
    pub incarnation: NodeIncarnation,
    /// The capabilities.
    pub caps: u64,
}

/// Who the headers of a request name, or why it is refused.
pub open spec fn claimed(headers: HeadersView) -> Result<PeerClaim, RefusalView> {
    match (headers.cluster, headers.node, headers.incarnation, headers.caps) {
        (Some(cluster), Some(node), Some(incarnation), Some(caps)) => match (
            parsed(encode_utf8(cluster), u128::MAX as nat),
            parsed(encode_utf8(node), u64::MAX as nat),
            parsed(encode_utf8(incarnation), u64::MAX as nat),
            parsed(encode_utf8(caps), u64::MAX as nat),
        ) {
            (Some(cluster), Some(node), Some(incarnation), Some(caps)) => Ok(
                PeerClaim {
                    cluster: ClusterId(cluster as u128),
                    node: NodeId(node as u64),
                    incarnation: NodeIncarnation(incarnation as u64),
                    caps: caps as u64,
                },
            ),
            _ => Err(RefusalView { status: 400, detail: "bad kivi headers"@ }),
        },
        _ => Err(RefusalView { status: 400, detail: "missing kivi headers"@ }),
    }
}

fn number(text: &Option<String>, max: u128) -> (value: Option<u128>)
    ensures
        match (header_view(*text), value) {
            (Some(text), Some(value)) => parsed(encode_utf8(text), max as nat) == Some(
                value as nat,
            ) && value <= max,
            (Some(text), None) => parsed(encode_utf8(text), max as nat) is None,
            (None, value) => value is None,
        },
{
    match text {
        Some(text) => parse_decimal(text.as_str().as_bytes(), max),
        None => None,
    }
}

fn refuse(status: u16, detail: &str) -> (refusal: Refusal)
    ensures
        refusal@ == (RefusalView { status, detail: detail@ }),
{
    Refusal { status, detail: detail.to_owned() }
}

/// Reads the identity headers of a request.
pub fn read_claim(headers: &PeerHeaders) -> (claim: Result<PeerClaim, Refusal>)
    ensures
        match claim {
            Ok(claim) => claimed(headers@) == Ok::<_, RefusalView>(claim),
            Err(refusal) => claimed(headers@) == Err::<PeerClaim, _>(refusal@),
        },
{
    if headers.cluster.is_none() || headers.node.is_none() || headers.incarnation.is_none()
        || headers.caps.is_none() {
        return Err(refuse(400, "missing kivi headers"));
    }
    match (
        number(&headers.cluster, u128::MAX),
        number(&headers.node, u64::MAX as u128),
        number(&headers.incarnation, u64::MAX as u128),
        number(&headers.caps, u64::MAX as u128),
    ) {
        (Some(cluster), Some(node), Some(incarnation), Some(caps)) => Ok(
            PeerClaim {
                cluster: ClusterId::from_u128(cluster),
                node: NodeId::from_u64(node as u64),
                incarnation: NodeIncarnation::from_u64(incarnation as u64),
                caps: caps as u64,
            },
        ),
        _ => Err(refuse(400, "bad kivi headers")),
    }
}

/// Why a claim is refused before it is validated, if it is.
pub open spec fn barred(claim: PeerClaim, bound: Option<NodeId>, suspended: bool) -> Option<
    RefusalView,
> {
    if bound is Some && bound != Some(claim.node) {
        Some(RefusalView { status: 403, detail: "node mismatch"@ })
    } else if suspended {
        Some(RefusalView { status: 503, detail: "suspended"@ })
    } else {
        None
    }
}

/// Refuses a claim that does not fit the certificate of its connection, or whose peer is
/// suspended.
pub fn bar_claim(claim: PeerClaim, bound: Option<NodeId>, suspended: bool) -> (refusal: Option<
    Refusal,
>)
    ensures
        match refusal {
            Some(refusal) => barred(claim, bound, suspended) == Some(refusal@),
            None => barred(claim, bound, suspended) is None,
        },
{
    if let Some(node) = bound {
        if node != claim.node {
            return Some(refuse(403, "node mismatch"));
        }
    }
    if suspended {
        return Some(refuse(503, "suspended"));
    }
    None
}

/// Refuses a claim whose identity is not valid.
pub fn refuse_identity(error: String) -> (refusal: Refusal)
    ensures
        refusal@ == (RefusalView { status: 403, detail: error@ }),
{
    Refusal { status: 403, detail: error }
}

/// The prefix of bulk routes.
pub open spec fn bulk_prefix() -> Seq<char> {
    "/_kivi/immutable/"@
}

/// Whether a path is a bulk route.
pub open spec fn is_bulk(path: Seq<char>) -> bool {
    bulk_prefix().is_prefix_of(path)
}

/// The largest body of a request to `path`.
pub open spec fn path_cap(path: Seq<char>) -> usize {
    if is_bulk(path) {
        MAX_BULK_BODY_BYTES
    } else {
        MAX_RAFT_BODY_BYTES
    }
}

/// Whether a path is a bulk route.
pub fn is_bulk_path(path: &str) -> (bulk: bool)
    ensures
        bulk == is_bulk(path@),
{
    let prefix: &str = "/_kivi/immutable/";
    let wanted: usize = prefix.unicode_len();
    if path.unicode_len() < wanted {
        return false;
    }
    let mut at: usize = 0;
    while at < wanted
        invariant
            at <= wanted,
            wanted == prefix@.len(),
            prefix@ == bulk_prefix(),
            wanted <= path@.len(),
            forall|i: int| 0 <= i < at ==> path@[i] == prefix@[i],
        decreases wanted - at,
    {
        if path.get_char(at) != prefix.get_char(at) {
            proof {
                assert(path@.subrange(0, wanted as int)[at as int] != prefix@[at as int]);
            }
            return false;
        }
        at = at + 1;
    }
    proof {
        assert(path@.subrange(0, wanted as int) =~= prefix@);
    }
    true
}

/// Returns the largest body of a request to `path`.
pub fn body_cap(path: &str) -> (cap: usize)
    ensures
        cap == path_cap(path@),
{
    if is_bulk_path(path) {
        MAX_BULK_BODY_BYTES
    } else {
        MAX_RAFT_BODY_BYTES
    }
}

/// How many bytes still fit under `cap`.
pub open spec fn room(len: nat, cap: usize) -> nat {
    if len >= cap {
        0
    } else {
        (cap - len) as nat
    }
}

/// What was received once a segment came: all of it, or what fits under the cap.
pub open spec fn drained(received: Seq<u8>, chunk: Seq<u8>, cap: usize) -> Seq<u8> {
    if chunk.len() <= room(received.len(), cap) {
        received + chunk
    } else {
        received + chunk.take(room(received.len(), cap) as int)
    }
}

/// Appends a received segment without exceeding `cap`, and says whether all of it fit.
pub fn drain_chunk(out: &mut Vec<u8>, chunk: &[u8], cap: usize) -> (fits: bool)
    ensures
        final(out)@ == drained(old(out)@, chunk@, cap),
        fits == (chunk.len() <= room(old(out).len() as nat, cap)),
{
    let ghost start = out@;
    let free: usize = if out.len() >= cap {
        0
    } else {
        cap - out.len()
    };
    let take: usize = if chunk.len() <= free {
        chunk.len()
    } else {
        free
    };
    let mut piece: Vec<u8> = copy_bytes(chunk, 0, take);
    out.append(&mut piece);
    proof {
        assert(chunk@.subrange(0, take as int) =~= chunk@.take(take as int));
        assert(chunk@.take(chunk@.len() as int) =~= chunk@);
        assert(out@ =~= drained(start, chunk@, cap));
    }
    chunk.len() <= free
}

/// What never outgrew its cap never will.
pub proof fn law_bodies_stay_under_their_cap(received: Seq<u8>, chunk: Seq<u8>, cap: usize)
    requires
        received.len() <= cap,
    ensures
        drained(received, chunk, cap).len() <= cap,
        chunk.len() <= room(received.len(), cap) <==> received.len() + chunk.len() <= cap,
        received.len() + chunk.len() <= cap ==> drained(received, chunk, cap) == received + chunk,
{
}

/// How receiving a request's body went.
#[derive(Debug, Clone, Copy, PartialEq, Eq, Structural)]
pub enum BodyEnd {
    /// All of it came.
    Complete,
    /// It could not be read.
    Unreadable,
    /// It outgrew its cap.
    TooLarge,
}

/// Refuses a body that did not come whole.
pub fn refuse_body(end: BodyEnd) -> (refusal: Option<Refusal>)
    ensures
        match refusal {
            Some(refusal) => refusal@ == match end {
                BodyEnd::Unreadable => RefusalView {
                    status: 400,
                    detail: "request body unreadable"@,
                },
                _ => RefusalView { status: 413, detail: "request body exceeds cap"@ },
            } && !(end is Complete),
            None => end is Complete,
        },
{
    match end {
        BodyEnd::Complete => None,
        BodyEnd::Unreadable => Some(refuse(400, "request body unreadable")),
        BodyEnd::TooLarge => Some(refuse(413, "request body exceeds cap")),
    }
}

/// Refuses a route that does not exist, or a body that it cannot take.
pub fn refuse_route(error: &str) -> (refusal: Refusal)
    ensures
        refusal@ == (RefusalView { status: 404, detail: "unknown peer route: "@ + error@ }),
{
    let mut detail: String = "unknown peer route: ".to_owned();
    detail.append(error);
    Refusal { status: 404, detail }
}

/// Answers a request that its handler failed.
pub fn refuse_handling(error: String) -> (refusal: Refusal)
    ensures
        refusal@ == (RefusalView { status: 500, detail: error@ }),
{
    Refusal { status: 500, detail: error }
}

/// The segments that `bytes` are sent in: full ones and the rest.
pub open spec fn segments(bytes: Seq<u8>) -> Seq<Seq<u8>>
    decreases bytes.len(),
{
    if bytes.len() == 0 {
        Seq::empty()
    } else if bytes.len() <= SEGMENT_BYTES {
        seq![bytes]
    } else {
        seq![bytes.take(SEGMENT_BYTES as int)] + segments(bytes.skip(SEGMENT_BYTES as int))
    }
}

/// The bytes of a list of segments.
pub open spec fn joined(pieces: Seq<Seq<u8>>) -> Seq<u8>
    decreases pieces.len(),
{
    if pieces.len() == 0 {
        Seq::empty()
    } else {
        pieces[0] + joined(pieces.drop_first())
    }
}

/// The views of a list of byte strings.
pub open spec fn piece_views(pieces: Seq<Vec<u8>>) -> Seq<Seq<u8>> {
    Seq::new(pieces.len(), |i: int| pieces[i]@)
}

/// Cuts an answer into the segments that it is sent in.
pub fn segment_body(bytes: &[u8]) -> (pieces: Vec<Vec<u8>>)
    ensures
        piece_views(pieces@) == segments(bytes@),
{
    let mut pieces: Vec<Vec<u8>> = Vec::new();
    let mut at: usize = 0;
    proof {
        assert(bytes@.skip(0) =~= bytes@);
        assert(piece_views(pieces@) + segments(bytes@.skip(0)) =~= segments(bytes@));
    }
    while at < bytes.len()
        invariant
            at <= bytes.len(),
            piece_views(pieces@) + segments(bytes@.skip(at as int)) == segments(bytes@),
        decreases bytes.len() - at,
    {
        let rest: usize = bytes.len() - at;
        let take: usize = if rest <= SEGMENT_BYTES {
            rest
        } else {
            SEGMENT_BYTES
        };
        let ghost before = pieces@;
        let ghost tail = bytes@.skip(at as int);
        let piece: Vec<u8> = copy_bytes(bytes, at, at + take);
        pieces.push(piece);
        at = at + take;
        proof {
            assert(piece@ =~= tail.take(take as int));
            assert(tail.skip(take as int) =~= bytes@.skip(at as int));
            assert(tail.take(tail.len() as int) =~= tail);
            assert(piece_views(pieces@) =~= piece_views(before).push(piece@));
            assert(segments(tail) =~= seq![piece@] + segments(bytes@.skip(at as int)));
            assert(piece_views(pieces@) + segments(bytes@.skip(at as int)) =~= piece_views(before)
                + segments(tail));
        }
    }
    proof {
        assert(piece_views(pieces@) + segments(bytes@.skip(at as int)) =~= piece_views(pieces@));
    }
    pieces
}

/// Segments give back the answer, and none is empty or too large.
pub proof fn law_segments_join(bytes: Seq<u8>)
    ensures
        joined(segments(bytes)) == bytes,
        forall|i: int|
            0 <= i < segments(bytes).len() ==> 0 < (#[trigger] segments(bytes)[i]).len()
                <= SEGMENT_BYTES,
    decreases bytes.len(),
{
    if bytes.len() == 0 {
        assert(joined(segments(bytes)) =~= bytes);
    } else if bytes.len() <= SEGMENT_BYTES {
        assert(segments(bytes).drop_first() =~= Seq::empty());
        assert(joined(segments(bytes).drop_first()) =~= Seq::empty());
        assert(joined(segments(bytes)) =~= bytes);
    } else {
        let rest = bytes.skip(SEGMENT_BYTES as int);
        law_segments_join(rest);
        assert(segments(bytes).drop_first() =~= segments(rest));
        assert(bytes.take(SEGMENT_BYTES as int) + rest =~= bytes);
        assert forall|i: int| 0 <= i < segments(bytes).len() implies 0 < (
        #[trigger] segments(bytes)[i]).len() <= SEGMENT_BYTES by {
            if i > 0 {
                assert(segments(bytes)[i] == segments(rest)[i - 1]);
            }
        }
    }
}

/// The method of a request.
#[derive(Debug, Clone, Copy, PartialEq, Eq, Structural)]
pub enum Method {
    /// `POST`.
    Post,
    /// `GET`.
    Get,
}

/// A request to a peer, without its body.
#[derive(Debug, PartialEq, Eq)]
pub struct OutboundRequest {
    /// The method.
    pub method: Method,
    /// The absolute target.
    pub uri: String,
    /// Who it is from.
    pub headers: PeerHeaders,
}

/// The name that a node presents and is dialed by.
pub open spec fn server_name(node: NodeId) -> Seq<char> {
    "kivi-n"@ + decimal(node.0 as nat)
}

/// Returns the name that a node presents and is dialed by.
pub fn server_name_for(peer: NodeId) -> (name: String)
    ensures
        name@ == server_name(peer),
{
    let mut name: String = "kivi-n".to_owned();
    push_decimal(&mut name, peer.as_u64() as u128);
    name
}

fn number_text(value: u128) -> (text: String)
    ensures
        text@ == decimal(value as nat),
{
    let mut text: String = "".to_owned();
    proof {
        reveal_strlit("");
    }
    push_decimal(&mut text, value);
    proof {
        assert(text@ =~= decimal(value as nat));
    }
    text
}

/// The identity headers that name `claim`.
pub open spec fn headers_of(claim: PeerClaim) -> HeadersView {
    HeadersView {
        cluster: Some(decimal(claim.cluster.0 as nat)),
        node: Some(decimal(claim.node.0 as nat)),
        incarnation: Some(decimal(claim.incarnation.0 as nat)),
        caps: Some(decimal(claim.caps as nat)),
    }
}

/// Builds a request to `target` on `lane`, from `local`.
pub fn build_request(target: NodeId, lane: Lane, path: &str, local: PeerClaim) -> (request:
    OutboundRequest)
    ensures
        request.method == match lane {
            Lane::Control => Method::Post,
            Lane::Bulk => Method::Get,
        },
        request.uri@ == "https://"@ + server_name(target) + path@,
        request.headers@ == headers_of(local),
{
    let mut uri: String = "https://".to_owned();
    uri.append(server_name_for(target).as_str());
    uri.append(path);
    OutboundRequest {
        method: match lane {
            Lane::Control => Method::Post,
            Lane::Bulk => Method::Get,
        },
        uri,
        headers: PeerHeaders {
            cluster: Some(number_text(local.cluster.as_u128())),
            node: Some(number_text(local.node.as_u64() as u128)),
            incarnation: Some(number_text(local.incarnation.as_u64() as u128)),
            caps: Some(number_text(local.caps as u128)),
        },
    }
}

/// A peer reads from the headers of a request who sent it.
pub proof fn law_identity_headers_read_back(claim: PeerClaim)
    ensures
        claimed(headers_of(claim)) == Ok::<_, RefusalView>(claim),
{
    law_decimal_round_trip(claim.cluster.0 as nat, u128::MAX as nat);
    law_decimal_round_trip(claim.node.0 as nat, u64::MAX as nat);
    law_decimal_round_trip(claim.incarnation.0 as nat, u64::MAX as nat);
    law_decimal_round_trip(claim.caps as nat, u64::MAX as nat);
}

/// A request on a connection that is bound to a certificate is served only for the node of
/// that certificate, and never for a suspended one.
pub proof fn law_certificates_bind_requests(
    claim: PeerClaim,
    bound: Option<NodeId>,
    suspended: bool,
)
    requires
        barred(claim, bound, suspended) is None,
    ensures
        bound matches Some(node) ==> node == claim.node,
        !suspended,
{
}

/// The text that HTTP has for a status, if it has one.
pub uninterp spec fn canonical_reason(status: u16) -> Option<Seq<char>>;

/// Looks up the text of a status, through `http::StatusCode::canonical_reason`, which
/// returns the standard reason phrase of a known status and none for another one: a
/// function of the status alone. A number that is no status has no text either.
#[verifier::external_body]
fn reason_phrase(status: u16) -> (reason: Option<String>)
    ensures
        header_view(reason) == canonical_reason(status),
{
    http::StatusCode::from_u16(status).ok()?.canonical_reason().map(str::to_owned)
}

/// The text that `bytes` spell, with replacement characters where they spell none.
pub uninterp spec fn lossy_text(bytes: Seq<u8>) -> Seq<char>;

/// Reads text, through [`String::from_utf8_lossy`], which returns the text of valid UTF-8
/// and puts replacement characters in place of invalid sequences.
#[verifier::external_body]
fn text_lossy(bytes: &[u8]) -> (text: String)
    ensures
        text@ == lossy_text(bytes@),
        valid_utf8(bytes@) ==> text@ == decode_utf8(bytes@),
{
    String::from_utf8_lossy(bytes).into_owned()
}

/// A status and its text.
pub open spec fn status_text(status: u16, reason: Option<Seq<char>>) -> Seq<char> {
    decimal(status as nat) + " "@ + match reason {
        Some(reason) => reason,
        None => "<unknown status code>"@,
    }
}

/// What an answer with the given status means: that its body follows, or a failure. The
/// arguments `reason` and `text` are the reason phrase of the status and the text of the
/// refusal.
pub open spec fn answer_of(status: u16, reason: Option<Seq<char>>, text: Seq<char>) -> Option<
    TransportErrorView,
> {
    if status == 200 {
        None
    } else if status == 503 {
        Some(TransportErrorView::Timeout)
    } else if status == 403 {
        Some(TransportErrorView::Unreachable { detail: "peer authentication refused"@ })
    } else {
        Some(
            TransportErrorView::RemoteRefused {
                detail: "peer refused with "@ + status_text(status, reason) + ": "@ + text,
            },
        )
    }
}

/// Says what an answer means, given the reason phrase of its status and its text.
pub fn classify_with(status: u16, reason: Option<String>, text: String) -> (error: Option<
    TransportError,
>)
    ensures
        match error {
            Some(error) => answer_of(status, header_view(reason), text@) == Some(error@),
            None => answer_of(status, header_view(reason), text@) is None,
        },
{
    if status == 200 {
        return None;
    }
    if status == 503 {
        return Some(TransportError::Timeout);
    }
    if status == 403 {
        return Some(
            TransportError::Unreachable { detail: "peer authentication refused".to_owned() },
        );
    }
    let mut detail: String = "peer refused with ".to_owned();
    let ghost phrase = match header_view(reason) {
        Some(reason) => reason,
        None => "<unknown status code>"@,
    };
    push_decimal(&mut detail, status as u128);
    detail.append(" ");
    match reason {
        Some(reason) => {
            detail.append(reason.as_str());
        },
        None => {
            detail.append("<unknown status code>");
        },
    }
    detail.append(": ");
    detail.append(text.as_str());
    proof {
        assert(detail@ =~= "peer refused with "@ + (decimal(status as nat) + " "@ + phrase) + ": "@
            + text@);
    }
    Some(TransportError::RemoteRefused { detail })
}

/// Says what an answer means. Of a refusal, `body` is what was read of its text.
pub fn classify_response(status: u16, body: &[u8]) -> (error: Option<TransportError>)
    ensures
        match error {
            Some(error) => answer_of(status, canonical_reason(status), lossy_text(body@)) == Some(
                error@,
            ),
            None => answer_of(status, canonical_reason(status), lossy_text(body@)) is None,
        },
{
    classify_with(status, reason_phrase(status), text_lossy(body))
}

/// The failure of an answer whose body outgrew its cap or could not be read.
pub fn oversized_response() -> (error: TransportError)
    ensures
        error@ == (TransportErrorView::RemoteRefused { detail: "peer response exceeds body cap"@ }),
{
    TransportError::RemoteRefused { detail: "peer response exceeds body cap".to_owned() }
}

/// How waiting for the reply to a call ended.
#[derive(Debug, PartialEq, Eq)]
pub enum ReplyWait {
    /// The reply came.
    Replied(Result<Vec<u8>, TransportError>),
    /// The other end is gone.
    Closed,
    /// The deadline passed.
    Elapsed,
}

/// What a [`ReplyWait`] gives.
pub open spec fn settled(wait: ReplyWait) -> Result<Seq<u8>, TransportErrorView> {
    match wait {
        ReplyWait::Replied(Ok(body)) => Ok(body@),
        ReplyWait::Replied(Err(error)) => Err(error@),
        ReplyWait::Closed => Err(TransportErrorView::ShuttingDown),
        ReplyWait::Elapsed => Err(TransportErrorView::Timeout),
    }
}

/// Says what a call gives.
pub fn settle_call(wait: ReplyWait) -> (result: Result<Vec<u8>, TransportError>)
    ensures
        match result {
            Ok(body) => settled(wait) == Ok::<_, TransportErrorView>(body@),
            Err(error) => settled(wait) == Err::<Seq<u8>, _>(error@),
        },
{
    match wait {
        ReplyWait::Replied(result) => result,
        ReplyWait::Closed => Err(TransportError::ShuttingDown),
        ReplyWait::Elapsed => Err(TransportError::Timeout),
    }
}

/// A dialer waits twice as long after each failure, up to the largest wait, and never
/// less than a millisecond.
pub proof fn law_backoff_doubles(config: TransportConfig, backoff: Duration)
    ensures
        2 * backoff.nanos >= 1_000_000 && 2 * backoff.nanos <= config.backoff_max.nanos
            ==> config.next_backoff(backoff).nanos == 2 * backoff.nanos,
        2 * backoff.nanos > config.backoff_max.nanos && config.backoff_max.nanos >= 1_000_000
            ==> config.next_backoff(backoff).nanos == config.backoff_max.nanos,
        2 * backoff.nanos < 1_000_000 || config.backoff_max.nanos < 1_000_000
            ==> config.next_backoff(backoff).nanos == 1_000_000,
{
}

/// Immutable data travels on the bulk lane and everything else on the control lane, each
/// with a cap of its own; a path is bulk exactly if it starts with the prefix of
/// immutable data.
pub proof fn law_lanes_follow_the_kind(kind: RequestKind, path: Seq<char>)
    ensures
        kind is Manifest || kind is Chunk <==> kind.lane_of() is Bulk,
        Lane::Control.cap_of() == 16_777_216,
        Lane::Bulk.cap_of() == 8_388_608,
        is_bulk(path) ==> path_cap(path) == Lane::Bulk.cap_of(),
        !is_bulk(path) ==> path_cap(path) == Lane::Control.cap_of(),
        is_bulk(bulk_prefix() + path),
{
    assert(bulk_prefix().is_prefix_of(bulk_prefix() + path)) by {
        assert((bulk_prefix() + path).subrange(0, bulk_prefix().len() as int)
            =~= bulk_prefix());
    }
}

/// A request is served only for a claim that is complete and reads as numbers, whose node
/// is the one that the certificate is bound to, and that is not suspended. A mismatch is
/// told before a suspension.
pub proof fn law_claims_are_judged(
    headers: HeadersView,
    claim: PeerClaim,
    bound: Option<NodeId>,
    suspended: bool,
)
    ensures
        headers.cluster is None || headers.node is None || headers.incarnation is None
            || headers.caps is None ==> claimed(headers) == Err::<PeerClaim, _>(
            RefusalView { status: 400, detail: "missing kivi headers"@ },
        ),
        claimed(headers) matches Err(refusal) ==> refusal.status == 400,
        claimed(headers) matches Ok(told) ==> {
            &&& headers.cluster is Some && parsed(
                encode_utf8(headers.cluster->0),
                u128::MAX as nat,
            ) == Some(told.cluster.0 as nat)
            &&& headers.node is Some && parsed(encode_utf8(headers.node->0), u64::MAX as nat)
                == Some(told.node.0 as nat)
            &&& headers.incarnation is Some && parsed(
                encode_utf8(headers.incarnation->0),
                u64::MAX as nat,
            ) == Some(told.incarnation.0 as nat)
            &&& headers.caps is Some && parsed(encode_utf8(headers.caps->0), u64::MAX as nat)
                == Some(told.caps as nat)
        },
        barred(claim, bound, suspended) is None <==> !suspended && (bound is None || bound
            == Some(claim.node)),
        bound matches Some(node) ==> (node != claim.node ==> (barred(claim, bound, suspended)
            matches Some(refusal) && refusal.status == 403)),
        suspended && (bound is None || bound == Some(claim.node)) ==> (barred(
            claim,
            bound,
            suspended,
        ) matches Some(refusal) && refusal.status == 503),
{
    if headers.cluster is Some {
        lemma_parsed_bounded(encode_utf8(headers.cluster->0), u128::MAX as nat);
    }
    if headers.node is Some {
        lemma_parsed_bounded(encode_utf8(headers.node->0), u64::MAX as nat);
    }
    if headers.incarnation is Some {
        lemma_parsed_bounded(encode_utf8(headers.incarnation->0), u64::MAX as nat);
    }
    if headers.caps is Some {
        lemma_parsed_bounded(encode_utf8(headers.caps->0), u64::MAX as nat);
    }
}

proof fn lemma_parsed_bounded(text: Seq<u8>, most: nat)
    ensures
        parsed(text, most) matches Some(value) ==> value <= most,
{
}

/// A reply is an answer exactly if its status is 200; a busy peer counts as a timeout, a
/// refused identity as unreachable, and anything else as a refusal.
pub proof fn law_statuses_are_answers_or_errors(
    status: u16,
    reason: Option<Seq<char>>,
    text: Seq<char>,
)
    ensures
        answer_of(status, reason, text) is None <==> status == 200,
        answer_of(status, reason, text) == Some(TransportErrorView::Timeout) <==> status == 503,
        status == 403 ==> (answer_of(status, reason, text) matches Some(error) && error
            is Unreachable),
        status != 200 && status != 503 && status != 403 ==> (answer_of(status, reason, text)
            matches Some(error) && error is RemoteRefused),
{
}

/// A body is cut into full segments; only the last one may be shorter.
pub proof fn law_segments_are_full(bytes: Seq<u8>, i: int)
    requires
        0 <= i < segments(bytes).len(),
    ensures
        i < segments(bytes).len() - 1 ==> segments(bytes)[i].len() == SEGMENT_BYTES,
        bytes.len() <= SEGMENT_BYTES ==> segments(bytes).len() == 1,
    decreases bytes.len(),
{
    if bytes.len() > SEGMENT_BYTES {
        let rest = bytes.skip(SEGMENT_BYTES as int);
        if i > 0 {
            assert(segments(bytes)[i] == segments(rest)[i - 1]);
            law_segments_are_full(rest, i - 1);
        }
    }
}

/// What is kept of a body is its beginning, up to the cap.
pub proof fn law_bodies_keep_their_beginning(received: Seq<u8>, chunk: Seq<u8>, cap: usize)
    requires
        received.len() <= cap,
    ensures
        received.is_prefix_of(drained(received, chunk, cap)),
        drained(received, chunk, cap).is_prefix_of(received + chunk),
        received.len() + chunk.len() > cap ==> drained(received, chunk, cap).len() == cap,
{
    let kept = drained(received, chunk, cap);
    assert(kept.subrange(0, received.len() as int) =~= received);
    assert((received + chunk).subrange(0, kept.len() as int) =~= kept);
}

/// A connection is tuned as configured, as far as the protocol's fields hold it.
pub proof fn law_tuning_follows_the_config(config: TransportConfig)
    ensures
        config.max_concurrent_bidi_streams <= u32::MAX ==> config.tuned().max_bidi_streams
            == config.max_concurrent_bidi_streams,
        config.stream_receive_window <= MAX_VARINT ==> config.tuned().stream_receive_window
            == config.stream_receive_window,
        config.receive_window <= MAX_VARINT ==> config.tuned().receive_window
            == config.receive_window,
        config.tuned().receive_window <= MAX_VARINT,
        config.tuned().stream_receive_window <= MAX_VARINT,
        config.tuned().send_window == config.send_window,
        config.tuned().send_fairness == config.send_fairness,
        config.tuned().keep_alive_interval == config.keep_alive_interval,
        config.idle_timeout.nanos / 1_000_000 <= MAX_VARINT
            ==> config.tuned().idle_timeout_millis == config.idle_timeout.nanos / 1_000_000,
{
}

} // verus!
