//! Serving a request and making a call, step by step.
//!
//! Both are sequences of outside work with decisions in between. A step takes what the
//! outside work gave, changes the mesh, and says what to do next. Serving: the headers are
//! read and checked, the identity is validated, the body is received under its cap, the
//! route is read, the request is handled, the answer is sent; any failure on the way is one
//! refusal. Calling: a connection is found or dialed, the request is sent, the head of the
//! answer decides, its body is received under its cap and decoded.

use crate::consensus::mesh::{lane_rank, MeshView, PeerTransport};
use crate::consensus::transport::{
    body_cap, build_request, canonical_reason, claimed, classify_response, drain_chunk, headers_of,
    joined, law_identity_headers_read_back, law_segments_join, lossy_text, oversized_response,
    path_cap, piece_views, refuse_body, refuse_handling, refuse_identity, refuse_route,
    segment_body, segments, server_name, status_text, BodyEnd, HeadersView, Lane, Method,
    OutboundRequest, PeerClaim, PeerHeaders, Refusal, RefusalView, RequestKind, TransportError,
    TransportErrorView, MAX_REFUSAL_BYTES,
};
use crate::consensus::types::ConsensusGroupId;
use crate::decimal::{decimal, push_decimal};
use crate::ids::{NodeId, TabletId};
use crate::ranked::lemma_except;
use vstd::prelude::*;

verus! {

/// How far serving a request came.
#[derive(Debug, PartialEq, Eq)]
pub enum Serving {
    /// Its head is to be read.
    Opening,
    /// Its identity is being validated.
    Validating {
        /// Who it says it is from.
        claim: PeerClaim,
        /// What it is for.
        path: String,
    },
    /// Its body is being received.
    Receiving {
        /// Who it is from.
        claim: PeerClaim,
        /// What it is for.
        path: String,
        /// What came of the body.
        body: Vec<u8>,
    },
    /// Its route is being read.
    Routing {
        /// Who it is from.
        claim: PeerClaim,
    },
    /// It is being handled.
    Handling {
        /// Who it is from.
        claim: PeerClaim,
    },
}

/// What a [`Serving`] says.
#[verifier::ext_equal]
pub enum ServingView {
    Opening,
    Validating { claim: PeerClaim, path: Seq<char> },
    Receiving { claim: PeerClaim, path: Seq<char>, body: Seq<u8> },
    Routing { claim: PeerClaim },
    Handling { claim: PeerClaim },
}

impl View for Serving {
    type V = ServingView;

    open spec fn view(&self) -> ServingView {
        match self {
            Serving::Opening => ServingView::Opening,
            Serving::Validating { claim, path } => ServingView::Validating {
                claim: *claim,
                path: path@,
            },
            Serving::Receiving { claim, path, body } => ServingView::Receiving {
                claim: *claim,
                path: path@,
                body: body@,
            },
            Serving::Routing { claim } => ServingView::Routing { claim: *claim },
            Serving::Handling { claim } => ServingView::Handling { claim: *claim },
        }
    }
}

/// What outside work gave while a request is served.
#[derive(Debug, PartialEq, Eq)]
#[allow(inconsistent_fields)]
pub enum ServeEvent {
    /// The head came, on a connection that is bound to the node of its certificate.
    Head {
        /// The identity headers.
        headers: PeerHeaders,
        /// The node of the certificate, if there is one.
        bound: Option<NodeId>,
        /// The path.
        path: String,
    },
    /// The identity is valid.
    Valid,
    /// The identity is not valid.
    Invalid {
        /// Why.
        error: String,
    },
    /// A segment of the body came.
    Received {
        /// The segment.
        chunk: Vec<u8>,
    },
    /// The body is complete.
    Complete,
    /// The body could not be read.
    Unreadable,
    /// The route exists and takes the body.
    Routed {
        /// The tablet addressed.
        tablet: TabletId,
        /// What is asked.
        kind: RequestKind,
        /// The connection.
        conn: u64,
        /// Its round-trip time in milliseconds.
        rtt_millis: u128,
    },
    /// The route does not exist or does not take the body.
    Unrouted {
        /// Why.
        error: String,
    },
    /// The handler answered.
    Handled {
        /// What the answer is to.
        kind: RequestKind,
        /// The answer.
        bytes: Vec<u8>,
    },
    /// The handler failed.
    Failed {
        /// Why.
        error: String,
    },
}

/// What a [`ServeEvent`] says.
#[verifier::ext_equal]
#[allow(inconsistent_fields)]
pub enum ServeEventView {
    Head { headers: HeadersView, bound: Option<NodeId>, path: Seq<char> },
    Valid,
    Invalid { error: Seq<char> },
    Received { chunk: Seq<u8> },
    Complete,
    Unreadable,
    Routed { tablet: TabletId, kind: RequestKind, conn: u64, rtt_millis: u128 },
    Unrouted { error: Seq<char> },
    Handled { kind: RequestKind, bytes: Seq<u8> },
    Failed { error: Seq<char> },
}

impl View for ServeEvent {
    type V = ServeEventView;

    open spec fn view(&self) -> ServeEventView {
        match self {
            ServeEvent::Head { headers, bound, path } => ServeEventView::Head {
                headers: headers@,
                bound: *bound,
                path: path@,
            },
            ServeEvent::Valid => ServeEventView::Valid,
            ServeEvent::Invalid { error } => ServeEventView::Invalid { error: error@ },
            ServeEvent::Received { chunk } => ServeEventView::Received { chunk: chunk@ },
            ServeEvent::Complete => ServeEventView::Complete,
            ServeEvent::Unreadable => ServeEventView::Unreadable,
            ServeEvent::Routed { tablet, kind, conn, rtt_millis } => ServeEventView::Routed {
                tablet: *tablet,
                kind: *kind,
                conn: *conn,
                rtt_millis: *rtt_millis,
            },
            ServeEvent::Unrouted { error } => ServeEventView::Unrouted { error: error@ },
            ServeEvent::Handled { kind, bytes } => ServeEventView::Handled {
                kind: *kind,
                bytes: bytes@,
            },
            ServeEvent::Failed { error } => ServeEventView::Failed { error: error@ },
        }
    }
}

/// What is to be done for a request next.
#[derive(Debug, PartialEq, Eq)]
pub enum ServeAction {
    /// Validate an identity.
    Validate {
        /// The identity.
        claim: PeerClaim,
    },
    /// Receive the next segment of the body.
    Receive,
    /// Read the route.
    Route {
        /// The path.
        path: String,
        /// The body.
        body: Vec<u8>,
    },
    /// Hand the request to the handler.
    Handle {
        /// Who it is from.
        from: NodeId,
        /// The group addressed.
        group: ConsensusGroupId,
    },
    /// Send the answer, and end.
    Answer {
        /// Its media type.
        media: String,
        /// Its length.
        length: usize,
        /// Its segments.
        pieces: Vec<Vec<u8>>,
    },
    /// Send a refusal, and end.
    Refuse(Refusal),
    /// End without an answer.
    Abort,
}

/// What a [`ServeAction`] says.
#[verifier::ext_equal]
pub enum ServeActionView {
    Validate { claim: PeerClaim },
    Receive,
    Route { path: Seq<char>, body: Seq<u8> },
    Handle { from: NodeId, replicates: TabletId },
    Answer { media: Seq<char>, length: nat, pieces: Seq<Seq<u8>> },
    Refuse(RefusalView),
    Abort,
}

impl View for ServeAction {
    type V = ServeActionView;

    open spec fn view(&self) -> ServeActionView {
        match self {
            ServeAction::Validate { claim } => ServeActionView::Validate { claim: *claim },
            ServeAction::Receive => ServeActionView::Receive,
            ServeAction::Route { path, body } => ServeActionView::Route {
                path: path@,
                body: body@,
            },
            ServeAction::Handle { from, group } => ServeActionView::Handle {
                from: *from,
                replicates: group.replicates(),
            },
            ServeAction::Answer { media, length, pieces } => ServeActionView::Answer {
                media: media@,
                length: *length as nat,
                pieces: piece_views(pieces@),
            },
            ServeAction::Refuse(refusal) => ServeActionView::Refuse(refusal@),
            ServeAction::Abort => ServeActionView::Abort,
        }
    }
}

/// What a step of serving comes to: the mesh, how far serving is unless it ended, and what
/// is to be done.
#[verifier::ext_equal]
pub struct ServeStep {
    pub mesh: MeshView,
    pub state: Option<ServingView>,
    pub action: ServeActionView,
}

/// The end of serving with a refusal.
pub open spec fn refused(mesh: MeshView, status: u16, detail: Seq<char>) -> ServeStep {
    ServeStep {
        mesh,
        state: None,
        action: ServeActionView::Refuse(RefusalView { status, detail }),
    }
}

/// One step of serving a request. What does not belong to the state ends it without an
/// answer.
pub open spec fn served(mesh: MeshView, state: ServingView, event: ServeEventView) -> ServeStep {
    match (state, event) {
        (
            ServingView::Opening,
            ServeEventView::Head { headers, bound, path }
        ) => match mesh.admitted(
            headers,
            bound,
        ) {
            Err(refusal) => refused(mesh, refusal.status, refusal.detail),
            Ok(claim) => ServeStep {
                mesh,
                state: Some(ServingView::Validating { claim, path }),
                action: ServeActionView::Validate { claim },
            },
        },
        (ServingView::Validating { claim, path }, ServeEventView::Valid) => ServeStep {
            mesh: mesh.with_incarnation(claim.node, claim.incarnation),
            state: Some(ServingView::Receiving { claim, path, body: Seq::empty() }),
            action: ServeActionView::Receive,
        },
        (ServingView::Validating { .. }, ServeEventView::Invalid { error }) => refused(
            mesh,
            403,
            error,
        ),
        (
            ServingView::Receiving { claim, path, body },
            ServeEventView::Received { chunk },
        ) => if body.len() + chunk.len() <= path_cap(path) {
            ServeStep {
                mesh,
                state: Some(ServingView::Receiving { claim, path, body: body + chunk }),
                action: ServeActionView::Receive,
            }
        } else {
            refused(mesh, 413, "request body exceeds cap"@)
        },
        (ServingView::Receiving { .. }, ServeEventView::Unreadable) => refused(
            mesh,
            400,
            "request body unreadable"@,
        ),
        (ServingView::Receiving { claim, path, body }, ServeEventView::Complete) => ServeStep {
            mesh,
            state: Some(ServingView::Routing { claim }),
            action: ServeActionView::Route { path, body },
        },
        (ServingView::Routing { .. }, ServeEventView::Unrouted { error }) => refused(
            mesh,
            404,
            "unknown peer route: "@ + error,
        ),
        (
            ServingView::Routing { claim },
            ServeEventView::Routed { tablet, kind, conn, rtt_millis },
        ) => ServeStep {
            mesh: mesh.inbound_noted(
                claim.node,
                kind.lane_of(),
                conn,
                rtt_millis,
            ).serving_begun(claim.node),
            state: Some(ServingView::Handling { claim }),
            action: ServeActionView::Handle { from: claim.node, replicates: tablet },
        },
        (ServingView::Handling { claim }, ServeEventView::Handled { kind, bytes }) => ServeStep {
            mesh: mesh.serving_ended(claim.node),
            state: None,
            action: ServeActionView::Answer {
                media: kind.media_of(),
                length: bytes.len(),
                pieces: segments(bytes),
            },
        },
        (ServingView::Handling { claim }, ServeEventView::Failed { error }) => refused(
            mesh.serving_ended(claim.node),
            500,
            error,
        ),
        (ServingView::Handling { claim }, _) => ServeStep {
            mesh: mesh.serving_ended(claim.node),
            state: None,
            action: ServeActionView::Abort,
        },
        _ => ServeStep { mesh, state: None, action: ServeActionView::Abort },
    }
}

/// Optional progress, by its view.
pub open spec fn serving_view(state: Option<Serving>) -> Option<ServingView> {
    match state {
        Some(state) => Some(state@),
        None => None,
    }
}

impl ServingView {
    /// What came of the body is under its cap.
    pub open spec fn well_formed(self) -> bool {
        self matches ServingView::Receiving { path, body, .. } ==> body.len() <= path_cap(path)
    }
}

impl PeerTransport {
    /// Takes one step in serving a request: from what outside work gave to what is to be
    /// done next. Without a state serving has ended.
    pub fn serve_step(&mut self, state: Serving, event: ServeEvent) -> (next: (
        Option<Serving>,
        ServeAction,
    ))
        requires
            state@.well_formed(),
        ensures
            served(old(self)@, state@, event@) == (ServeStep {
                mesh: final(self)@,
                state: serving_view(next.0),
                action: next.1@,
            }),
            next.0 matches Some(state) ==> state@.well_formed(),
    {
        match (state, event) {
            (Serving::Opening, ServeEvent::Head { headers, bound, path }) => {
                match self.open_request(&headers, bound) {
                    Err(refusal) => (None, ServeAction::Refuse(refusal)),
                    Ok(claim) => (
                        Some(Serving::Validating { claim, path }),
                        ServeAction::Validate { claim },
                    ),
                }
            },
            (Serving::Validating { claim, path }, ServeEvent::Valid) => {
                self.note_incarnation(claim.node, claim.incarnation);
                (
                    Some(Serving::Receiving { claim, path, body: Vec::new() }),
                    ServeAction::Receive,
                )
            },
            (Serving::Validating { .. }, ServeEvent::Invalid { error }) => {
                (None, ServeAction::Refuse(refuse_identity(error)))
            },
            (Serving::Receiving { claim, path, mut body }, ServeEvent::Received { chunk }) => {
                if drain_chunk(&mut body, chunk.as_slice(), body_cap(path.as_str())) {
                    (Some(Serving::Receiving { claim, path, body }), ServeAction::Receive)
                } else {
                    refuse_unfinished(BodyEnd::TooLarge)
                }
            },
            (Serving::Receiving { .. }, ServeEvent::Unreadable) => {
                refuse_unfinished(BodyEnd::Unreadable)
            },
            (Serving::Receiving { claim, path, body }, ServeEvent::Complete) => {
                (Some(Serving::Routing { claim }), ServeAction::Route { path, body })
            },
            (Serving::Routing { .. }, ServeEvent::Unrouted { error }) => {
                (None, ServeAction::Refuse(refuse_route(error.as_str())))
            },
            (
                Serving::Routing { claim },
                ServeEvent::Routed { tablet, kind, conn, rtt_millis },
            ) => {
                self.note_inbound_lane(claim.node, kind.lane(), conn, rtt_millis);
                self.begin_serving(claim.node);
                (
                    Some(Serving::Handling { claim }),
                    ServeAction::Handle {
                        from: claim.node,
                        group: ConsensusGroupId::of_tablet(tablet),
                    },
                )
            },
            (Serving::Handling { claim }, ServeEvent::Handled { kind, bytes }) => {
                self.end_serving(claim.node);
                (
                    None,
                    ServeAction::Answer {
                        media: kind.media(),
                        length: bytes.len(),
                        pieces: segment_body(bytes.as_slice()),
                    },
                )
            },
            (Serving::Handling { claim }, ServeEvent::Failed { error }) => {
                self.end_serving(claim.node);
                (None, ServeAction::Refuse(refuse_handling(error)))
            },
            (Serving::Handling { claim }, _) => {
                self.end_serving(claim.node);
                (None, ServeAction::Abort)
            },
            _ => (None, ServeAction::Abort),
        }
    }
}

fn refuse_unfinished(end: BodyEnd) -> (next: (Option<Serving>, ServeAction))
    requires
        !(end is Complete),
    ensures
        next.0 is None,
        next.1@ == ServeActionView::Refuse(
            match end {
                BodyEnd::Unreadable => RefusalView {
                    status: 400,
                    detail: "request body unreadable"@,
                },
                _ => RefusalView { status: 413, detail: "request body exceeds cap"@ },
            },
        ),
{
    match refuse_body(end) {
        Some(refusal) => (None, ServeAction::Refuse(refusal)),
        None => (None, ServeAction::Abort),
    }
}

/// Where serving is after a list of events, from its beginning on; nothing where it ended.
pub open spec fn progress(mesh: MeshView, events: Seq<ServeEventView>) -> (
    MeshView,
    Option<ServingView>,
)
    decreases events.len(),
{
    if events.len() == 0 {
        (mesh, Some(ServingView::Opening))
    } else {
        match progress(mesh, events.drop_last()) {
            (now, None) => (now, None),
            (now, Some(state)) => {
                let step = served(now, state, events.last());
                (step.mesh, step.state)
            },
        }
    }
}

/// The segments among `events`, joined.
pub open spec fn body_of(events: Seq<ServeEventView>) -> Seq<u8>
    decreases events.len(),
{
    if events.len() == 0 {
        Seq::empty()
    } else {
        match events.last() {
            ServeEventView::Received { chunk } => body_of(events.drop_last()) + chunk,
            _ => body_of(events.drop_last()),
        }
    }
}

/// Whether serving began with a head that names `claim`, which the mesh took, and went on
/// with a valid identity and a body under the cap of its path.
pub open spec fn checked(mesh: MeshView, events: Seq<ServeEventView>, claim: PeerClaim) -> bool {
    &&& events.len() >= 2
    &&& events[0] matches ServeEventView::Head { headers, bound, path }
    &&& mesh.admitted(headers, bound) == Ok::<_, RefusalView>(claim)
    &&& events[1] is Valid
    &&& body_of(events).len() <= path_cap(path)
}

proof fn lemma_progress(mesh: MeshView, events: Seq<ServeEventView>)
    ensures
        match progress(mesh, events).1 {
            None => true,
            Some(ServingView::Opening) => events.len() == 0,
            Some(ServingView::Validating { claim, path }) => {
                &&& events.len() == 1
                &&& body_of(events) =~= Seq::empty()
                &&& events[0] matches ServeEventView::Head { headers, bound, path: asked }
                &&& asked == path
                &&& mesh.admitted(headers, bound) == Ok::<_, RefusalView>(claim)
            },
            Some(ServingView::Receiving { claim, path, body }) => {
                &&& checked(mesh, events, claim)
                &&& events[0]->path == path
                &&& body == body_of(events)
            },
            Some(ServingView::Routing { claim }) => checked(mesh, events, claim),
            Some(ServingView::Handling { claim }) => checked(mesh, events, claim),
        },
    decreases events.len(),
{
    if events.len() > 0 {
        let front = events.drop_last();
        lemma_progress(mesh, front);
        if front.len() == 0 {
            assert(body_of(front) =~= Seq::empty());
            assert(events.last() == events[0]);
        } else {
            assert(front[0] == events[0]);
            if front.len() >= 2 {
                assert(front[1] == events[1]);
            } else {
                assert(events.last() == events[1]);
            }
        }
    }
}

/// Whatever happens in between: what is handed to a handler was admitted when its head
/// came, had a valid identity, and a body under the cap of its path; and the body that the
/// route is read from is what was received, nothing else.
pub proof fn law_handled_requests_were_checked(
    mesh: MeshView,
    events: Seq<ServeEventView>,
    event: ServeEventView,
)
    requires
        progress(mesh, events).1 is Some,
    ensures
        ({
            let (now, state) = progress(mesh, events);
            match served(now, state->0, event).action {
                ServeActionView::Handle { from, .. } => exists|claim: PeerClaim| #[trigger]
                    checked(mesh, events, claim) && claim.node == from,
                ServeActionView::Route { path, body } => {
                    &&& exists|claim: PeerClaim| checked(mesh, events, claim)
                    &&& events[0]->path == path
                    &&& body == body_of(events)
                },
                _ => true,
            }
        }),
{
    lemma_progress(mesh, events);
    match progress(mesh, events).1->0 {
        ServingView::Receiving { claim, .. } => {
            assert(checked(mesh, events, claim));
        },
        ServingView::Routing { claim } => {
            assert(checked(mesh, events, claim));
        },
        _ => {},
    }
}

/// How far serving is.
pub open spec fn stage(state: ServingView) -> nat {
    match state {
        ServingView::Opening => 0,
        ServingView::Validating { .. } => 1,
        ServingView::Receiving { .. } => 2,
        ServingView::Routing { .. } => 3,
        ServingView::Handling { .. } => 4,
    }
}

/// Serving never hangs: every step ends it or brings it further, except for a segment of
/// the body, and segments only come up to the cap.
pub proof fn law_serving_advances(mesh: MeshView, state: ServingView, event: ServeEventView)
    requires
        state.well_formed(),
    ensures
        ({
            let step = served(mesh, state, event);
            &&& step.state matches Some(next) ==> {
                &&& next.well_formed()
                &&& stage(next) > stage(state) || {
                    &&& state matches ServingView::Receiving { claim, path, body }
                    &&& event matches ServeEventView::Received { chunk }
                    &&& next == ServingView::Receiving { claim, path, body: body + chunk }
                }
            }
            &&& step.state is None ==> (step.action is Answer || step.action is Refuse
                || step.action is Abort)
        }),
{
}

/// Serving a request and making a call leave the count of streams as they found it.
pub proof fn law_streams_are_balanced(mesh: MeshView, node: NodeId, lane: Lane)
    ensures
        mesh.serving_begun(node).serving_ended(node).active_streams == mesh.active_streams,
        mesh.link_of(node) is Some ==> mesh.call_begun(node, lane).call_ended().active_streams
            == mesh.active_streams,
{
}

/// A call to a peer.
#[derive(Debug, PartialEq, Eq)]
pub struct PeerCall {
    /// The peer.
    pub target: NodeId,
    /// The lane.
    pub lane: Lane,
    /// What it is for.
    pub path: String,
    /// The length of its body.
    pub length: u64,
    /// Who makes it.
    pub local: PeerClaim,
}

/// What a [`PeerCall`] says.
#[verifier::ext_equal]
pub struct PeerCallView {
    pub target: NodeId,
    pub lane: Lane,
    pub path: Seq<char>,
    pub length: u64,
    pub local: PeerClaim,
}

impl View for PeerCall {
    type V = PeerCallView;

    open spec fn view(&self) -> PeerCallView {
        PeerCallView {
            target: self.target,
            lane: self.lane,
            path: self.path@,
            length: self.length,
            local: self.local,
        }
    }
}

/// How far a call came.
#[derive(Debug, PartialEq, Eq)]
#[allow(inconsistent_fields)]
pub enum Calling {
    /// A connection is being dialed.
    Dialing,
    /// The request is being sent, or the head of its answer awaited.
    Sending,
    /// The text of a refusal is being received.
    Refused {
        /// The status.
        status: u16,
        /// What came of the text.
        text: Vec<u8>,
    },
    /// The answer is being received.
    Reading {
        /// What came of it.
        body: Vec<u8>,
    },
    /// The answer is being decoded.
    Decoding {
        /// Its length.
        received: u64,
    },
}

/// What a [`Calling`] says.
#[verifier::ext_equal]
#[allow(inconsistent_fields)]
pub enum CallingView {
    Dialing,
    Sending,
    Refused { status: u16, text: Seq<u8> },
    Reading { body: Seq<u8> },
    Decoding { received: u64 },
}

impl View for Calling {
    type V = CallingView;

    open spec fn view(&self) -> CallingView {
        match self {
            Calling::Dialing => CallingView::Dialing,
            Calling::Sending => CallingView::Sending,
            Calling::Refused { status, text } => CallingView::Refused {
                status: *status,
                text: text@,
            },
            Calling::Reading { body } => CallingView::Reading { body: body@ },
            Calling::Decoding { received } => CallingView::Decoding { received: *received },
        }
    }
}

/// What outside work of a call can fail.
#[derive(Debug, Clone, Copy, PartialEq, Eq, Structural)]
pub enum CallFault {
    /// The peer cannot be dialed.
    Dial,
    /// The connection did not come about.
    Connect,
    /// The handshake failed.
    Handshake,
    /// The request cannot be built.
    Build,
    /// The request was not taken.
    Request,
    /// The body could not be sent.
    Body,
    /// The request could not be ended.
    Finish,
    /// No answer came.
    Head,
}

/// What outside work gave while a call is made.
#[derive(Debug, PartialEq, Eq)]
#[allow(inconsistent_fields)]
pub enum CallEvent {
    /// Dialing is done.
    Dialed,
    /// Something failed before an answer came.
    Failed {
        /// What failed.
        fault: CallFault,
        /// Why.
        error: String,
    },
    /// The head of the answer came.
    Head {
        /// The status.
        status: u16,
    },
    /// A segment of the answer came.
    Received {
        /// The segment.
        chunk: Vec<u8>,
    },
    /// The answer is complete.
    Complete,
    /// The answer could not be read.
    Unreadable,
    /// The answer was decoded.
    Decoded,
    /// The answer cannot be decoded.
    Undecodable {
        /// Why.
        error: String,
    },
}

/// What a [`CallEvent`] says.
#[verifier::ext_equal]
#[allow(inconsistent_fields)]
pub enum CallEventView {
    Dialed,
    Failed { fault: CallFault, error: Seq<char> },
    Head { status: u16 },
    Received { chunk: Seq<u8> },
    Complete,
    Unreadable,
    Decoded,
    Undecodable { error: Seq<char> },
}

impl View for CallEvent {
    type V = CallEventView;

    open spec fn view(&self) -> CallEventView {
        match self {
            CallEvent::Dialed => CallEventView::Dialed,
            CallEvent::Failed { fault, error } => CallEventView::Failed {
                fault: *fault,
                error: error@,
            },
            CallEvent::Head { status } => CallEventView::Head { status: *status },
            CallEvent::Received { chunk } => CallEventView::Received { chunk: chunk@ },
            CallEvent::Complete => CallEventView::Complete,
            CallEvent::Unreadable => CallEventView::Unreadable,
            CallEvent::Decoded => CallEventView::Decoded,
            CallEvent::Undecodable { error } => CallEventView::Undecodable { error: error@ },
        }
    }
}

/// What is to be done for a call next.
#[derive(Debug, PartialEq, Eq)]
pub enum CallAction {
    /// Dial the lane.
    Dial,
    /// Send the request, and wait for the head of its answer.
    Send(OutboundRequest),
    /// Receive the next segment.
    Receive,
    /// Decode the answer.
    Decode {
        /// The answer.
        body: Vec<u8>,
    },
    /// Nothing: the answer was decoded.
    Return,
    /// Nothing: the call failed.
    Fail(TransportError),
    /// Nothing: the call ended without a result.
    Abort,
}

/// What a [`CallAction`] says.
#[verifier::ext_equal]
pub enum CallActionView {
    Dial,
    Send { method: Method, uri: Seq<char>, headers: HeadersView },
    Receive,
    Decode { body: Seq<u8> },
    Return,
    Fail(TransportErrorView),
    Abort,
}

impl View for CallAction {
    type V = CallActionView;

    open spec fn view(&self) -> CallActionView {
        match self {
            CallAction::Dial => CallActionView::Dial,
            CallAction::Send(request) => CallActionView::Send {
                method: request.method,
                uri: request.uri@,
                headers: request.headers@,
            },
            CallAction::Receive => CallActionView::Receive,
            CallAction::Decode { body } => CallActionView::Decode { body: body@ },
            CallAction::Return => CallActionView::Return,
            CallAction::Fail(error) => CallActionView::Fail(error@),
            CallAction::Abort => CallActionView::Abort,
        }
    }
}

/// What a step of a call comes to: the mesh, how far the call is unless it ended, and what
/// is to be done.
#[verifier::ext_equal]
pub struct CallStep {
    pub mesh: MeshView,
    pub state: Option<CallingView>,
    pub action: CallActionView,
}

/// The name of a lane.
pub open spec fn lane_name(lane: Lane) -> Seq<char> {
    match lane {
        Lane::Control => "Control"@,
        Lane::Bulk => "Bulk"@,
    }
}

/// Why a call failed before an answer came.
pub open spec fn fault_text(target: NodeId, fault: CallFault, error: Seq<char>) -> Seq<char> {
    let peer = "peer "@ + decimal(target.0 as nat);
    match fault {
        CallFault::Dial => peer + " dial refused: "@ + error,
        CallFault::Connect => peer + " connect failed: "@ + error,
        CallFault::Handshake => peer + " H3 handshake failed: "@ + error,
        CallFault::Build => "peer request build failed: "@ + error,
        CallFault::Request => "peer request rejected: "@ + error,
        CallFault::Body => "peer request body failed: "@ + error,
        CallFault::Finish => "peer request finish failed: "@ + error,
        CallFault::Head => "peer response missing: "@ + error,
    }
}

impl PeerCallView {
    /// The request of the call.
    pub open spec fn request(self) -> CallActionView {
        CallActionView::Send {
            method: match self.lane {
                Lane::Control => Method::Post,
                Lane::Bulk => Method::Get,
            },
            uri: "https://"@ + server_name(self.target) + self.path,
            headers: headers_of(self.local),
        }
    }

    /// The call as it begins: an unknown peer is refused, a suspended one times out, and
    /// otherwise the lane is used or dialed.
    pub open spec fn begun(self, mesh: MeshView) -> CallStep {
        match mesh.link_of(self.target) {
            None => CallStep {
                mesh,
                state: None,
                action: CallActionView::Fail(
                    TransportErrorView::UnknownPeer { node: self.target.0 },
                ),
            },
            Some(link) => if link.suspended {
                CallStep {
                    mesh,
                    state: None,
                    action: CallActionView::Fail(TransportErrorView::Timeout),
                }
            } else {
                let begun = mesh.call_begun(self.target, self.lane);
                if mesh.outgoing_of(self.target, self.lane) is Some {
                    CallStep {
                        mesh: begun,
                        state: Some(CallingView::Sending),
                        action: self.request(),
                    }
                } else {
                    CallStep {
                        mesh: begun,
                        state: Some(CallingView::Dialing),
                        action: CallActionView::Dial,
                    }
                }
            },
        }
    }

    /// The end of a call that never had a connection.
    pub open spec fn unsent(self, mesh: MeshView, detail: Seq<char>) -> CallStep {
        CallStep {
            mesh: mesh.call_ended(),
            state: None,
            action: CallActionView::Fail(TransportErrorView::Unreachable { detail }),
        }
    }

    /// The mesh after the round trip of a call on a connection.
    pub open spec fn sent(self, mesh: MeshView) -> MeshView {
        mesh.with_traffic(self.target, self.lane, self.length, 0).call_ended()
    }

    /// The end of a call by its answer.
    pub open spec fn failed(self, mesh: MeshView, error: TransportErrorView) -> CallStep {
        CallStep { mesh: self.sent(mesh), state: None, action: CallActionView::Fail(error) }
    }

    /// One step of the call. What does not belong to the state ends it without a result.
    pub open spec fn stepped(
        self,
        mesh: MeshView,
        state: CallingView,
        event: CallEventView,
    ) -> CallStep {
        match (state, event) {
            (CallingView::Dialing, CallEventView::Dialed) => if mesh.outgoing_of(
                self.target,
                self.lane,
            ) is Some {
                CallStep { mesh, state: Some(CallingView::Sending), action: self.request() }
            } else {
                self.unsent(
                    mesh,
                    "peer "@ + decimal(self.target.0 as nat) + " "@ + lane_name(self.lane)
                        + " unavailable after dial"@,
                )
            },
            (CallingView::Dialing, CallEventView::Failed { fault, error }) => self.unsent(
                mesh,
                fault_text(self.target, fault, error),
            ),
            (CallingView::Sending, CallEventView::Failed { fault, error }) => if fault is Build {
                self.unsent(mesh, fault_text(self.target, fault, error))
            } else {
                self.failed(
                    mesh.outgoing_dropped(self.target, self.lane),
                    TransportErrorView::Unreachable {
                        detail: fault_text(self.target, fault, error),
                    },
                )
            },
            (CallingView::Sending, CallEventView::Head { status }) => if status == 200 {
                CallStep {
                    mesh,
                    state: Some(CallingView::Reading { body: Seq::empty() }),
                    action: CallActionView::Receive,
                }
            } else if status == 503 {
                self.failed(mesh, TransportErrorView::Timeout)
            } else if status == 403 {
                self.failed(
                    mesh,
                    TransportErrorView::Unreachable { detail: "peer authentication refused"@ },
                )
            } else {
                CallStep {
                    mesh,
                    state: Some(CallingView::Refused { status, text: Seq::empty() }),
                    action: CallActionView::Receive,
                }
            },
            (
                CallingView::Refused { status, text },
                CallEventView::Received { chunk },
            ) => if text.len() + chunk.len() <= MAX_REFUSAL_BYTES {
                CallStep {
                    mesh,
                    state: Some(CallingView::Refused { status, text: text + chunk }),
                    action: CallActionView::Receive,
                }
            } else {
                self.turned_down(mesh, status, Seq::empty())
            },
            (CallingView::Refused { status, text }, CallEventView::Complete) => self.turned_down(
                mesh,
                status,
                text,
            ),
            (CallingView::Refused { status, .. }, CallEventView::Unreadable) => self.turned_down(
                mesh,
                status,
                Seq::empty(),
            ),
            (CallingView::Reading { body }, CallEventView::Received { chunk }) => if body.len()
                + chunk.len() <= self.lane.cap_of() {
                CallStep {
                    mesh,
                    state: Some(CallingView::Reading { body: body + chunk }),
                    action: CallActionView::Receive,
                }
            } else {
                self.overgrown(mesh)
            },
            (CallingView::Reading { .. }, CallEventView::Unreadable) => self.overgrown(mesh),
            (CallingView::Reading { body }, CallEventView::Complete) => CallStep {
                mesh: self.sent(mesh),
                state: Some(CallingView::Decoding { received: body.len() as u64 }),
                action: CallActionView::Decode { body },
            },
            (CallingView::Decoding { received }, CallEventView::Decoded) => CallStep {
                mesh: mesh.with_traffic(self.target, self.lane, 0, received),
                state: None,
                action: CallActionView::Return,
            },
            (CallingView::Decoding { .. }, CallEventView::Undecodable { error }) => CallStep {
                mesh,
                state: None,
                action: CallActionView::Fail(
                    TransportErrorView::RemoteRefused {
                        detail: "peer response undecodable: "@ + error,
                    },
                ),
            },
            (CallingView::Decoding { .. }, _) => CallStep {
                mesh,
                state: None,
                action: CallActionView::Abort,
            },
            _ => CallStep {
                mesh: mesh.call_ended(),
                state: None,
                action: CallActionView::Abort,
            },
        }
    }

    /// The end of a call by a refusal with the given text.
    pub open spec fn turned_down(self, mesh: MeshView, status: u16, text: Seq<u8>) -> CallStep {
        self.failed(
            mesh,
            TransportErrorView::RemoteRefused {
                detail: "peer refused with "@ + status_text(status, canonical_reason(status))
                    + ": "@
                    + lossy_text(text),
            },
        )
    }

    /// The end of a call whose answer outgrew its cap or could not be read.
    pub open spec fn overgrown(self, mesh: MeshView) -> CallStep {
        self.failed(
            mesh,
            TransportErrorView::RemoteRefused { detail: "peer response exceeds body cap"@ },
        )
    }
}

impl CallingView {
    /// What came of an answer is under its cap, and a refusal is one.
    pub open spec fn well_formed(self, lane: Lane) -> bool {
        match self {
            CallingView::Refused { status, text } => {
                &&& status != 200 && status != 503 && status != 403
                &&& text.len() <= MAX_REFUSAL_BYTES
            },
            CallingView::Reading { body } => body.len() <= lane.cap_of(),
            _ => true,
        }
    }
}

/// Optional progress, by its view.
pub open spec fn calling_view(state: Option<Calling>) -> Option<CallingView> {
    match state {
        Some(state) => Some(state@),
        None => None,
    }
}

fn describe_fault(target: NodeId, fault: CallFault, error: &str) -> (detail: String)
    ensures
        detail@ == fault_text(target, fault, error@),
{
    let mut detail: String = match fault {
        CallFault::Build => "peer request build failed: ".to_owned(),
        CallFault::Request => "peer request rejected: ".to_owned(),
        CallFault::Body => "peer request body failed: ".to_owned(),
        CallFault::Finish => "peer request finish failed: ".to_owned(),
        CallFault::Head => "peer response missing: ".to_owned(),
        _ => {
            let mut peer: String = "peer ".to_owned();
            push_decimal(&mut peer, target.as_u64() as u128);
            match fault {
                CallFault::Dial => {
                    peer.append(" dial refused: ");
                },
                CallFault::Connect => {
                    peer.append(" connect failed: ");
                },
                _ => {
                    peer.append(" H3 handshake failed: ");
                },
            }
            peer
        },
    };
    detail.append(error);
    detail
}

impl PeerTransport {
    /// Begins a call. Without a state it has ended.
    pub fn execute(&mut self, call: &PeerCall) -> (next: (Option<Calling>, CallAction))
        ensures
            call@.begun(old(self)@) == (CallStep {
                mesh: final(self)@,
                state: calling_view(next.0),
                action: next.1@,
            }),
            next.0 matches Some(state) ==> state@.well_formed(call.lane),
    {
        let ready: bool = self.has_outgoing(call.target, call.lane);
        match self.begin_call(call.target, call.lane) {
            Err(error) => (None, CallAction::Fail(error)),
            Ok(_) => if ready {
                (Some(Calling::Sending), request_of(call))
            } else {
                (Some(Calling::Dialing), CallAction::Dial)
            },
        }
    }

    fn fail_unsent(&mut self, detail: String) -> (next: (Option<Calling>, CallAction))
        ensures
            final(self)@ == old(self)@.call_ended(),
            next.0 is None,
            next.1@ == CallActionView::Fail(TransportErrorView::Unreachable { detail: detail@ }),
    {
        self.end_call();
        (None, CallAction::Fail(TransportError::Unreachable { detail }))
    }

    fn fail_sent(&mut self, call: &PeerCall, error: TransportError) -> (next: (
        Option<Calling>,
        CallAction,
    ))
        ensures
            call@.failed(old(self)@, error@) == (CallStep {
                mesh: final(self)@,
                state: calling_view(next.0),
                action: next.1@,
            }),
            next.0 is None,
    {
        self.note_traffic(call.target, call.lane, call.length, 0);
        self.end_call();
        (None, CallAction::Fail(error))
    }

    fn turn_down(&mut self, call: &PeerCall, status: u16, text: &[u8]) -> (next: (
        Option<Calling>,
        CallAction,
    ))
        requires
            status != 200,
            status != 503,
            status != 403,
        ensures
            call@.turned_down(old(self)@, status, text@) == (CallStep {
                mesh: final(self)@,
                state: calling_view(next.0),
                action: next.1@,
            }),
            next.0 is None,
    {
        match classify_response(status, text) {
            Some(error) => self.fail_sent(call, error),
            None => self.fail_sent(call, TransportError::Timeout),
        }
    }

    /// Takes one step in making a call: from what outside work gave to what is to be done
    /// next. Without a state the call has ended.
    pub fn execute_step(&mut self, call: &PeerCall, state: Calling, event: CallEvent) -> (next: (
        Option<Calling>,
        CallAction,
    ))
        requires
            state@.well_formed(call.lane),
        ensures
            call@.stepped(old(self)@, state@, event@) == (CallStep {
                mesh: final(self)@,
                state: calling_view(next.0),
                action: next.1@,
            }),
            next.0 matches Some(state) ==> state@.well_formed(call.lane),
    {
        match (state, event) {
            (Calling::Dialing, CallEvent::Dialed) => {
                if self.has_outgoing(call.target, call.lane) {
                    (Some(Calling::Sending), request_of(call))
                } else {
                    let mut detail: String = "peer ".to_owned();
                    push_decimal(&mut detail, call.target.as_u64() as u128);
                    detail.append(" ");
                    match call.lane {
                        Lane::Control => {
                            detail.append("Control");
                        },
                        Lane::Bulk => {
                            detail.append("Bulk");
                        },
                    }
                    detail.append(" unavailable after dial");
                    self.fail_unsent(detail)
                }
            },
            (Calling::Dialing, CallEvent::Failed { fault, error }) => {
                self.fail_unsent(describe_fault(call.target, fault, error.as_str()))
            },
            (Calling::Sending, CallEvent::Failed { fault, error }) => {
                let detail: String = describe_fault(call.target, fault, error.as_str());
                match fault {
                    CallFault::Build => self.fail_unsent(detail),
                    _ => {
                        self.drop_outgoing(call.target, call.lane);
                        self.fail_sent(call, TransportError::Unreachable { detail })
                    },
                }
            },
            (Calling::Sending, CallEvent::Head { status }) => {
                if status == 200 {
                    (Some(Calling::Reading { body: Vec::new() }), CallAction::Receive)
                } else if status == 503 {
                    self.fail_sent(call, TransportError::Timeout)
                } else if status == 403 {
                    self.fail_sent(
                        call,
                        TransportError::Unreachable {
                            detail: "peer authentication refused".to_owned(),
                        },
                    )
                } else {
                    (Some(Calling::Refused { status, text: Vec::new() }), CallAction::Receive)
                }
            },
            (Calling::Refused { status, mut text }, CallEvent::Received { chunk }) => {
                if drain_chunk(&mut text, chunk.as_slice(), MAX_REFUSAL_BYTES) {
                    (Some(Calling::Refused { status, text }), CallAction::Receive)
                } else {
                    let none: Vec<u8> = Vec::new();
                    self.turn_down(call, status, none.as_slice())
                }
            },
            (Calling::Refused { status, text }, CallEvent::Complete) => {
                self.turn_down(call, status, text.as_slice())
            },
            (Calling::Refused { status, .. }, CallEvent::Unreadable) => {
                let none: Vec<u8> = Vec::new();
                self.turn_down(call, status, none.as_slice())
            },
            (Calling::Reading { mut body }, CallEvent::Received { chunk }) => {
                if drain_chunk(&mut body, chunk.as_slice(), call.lane.cap()) {
                    (Some(Calling::Reading { body }), CallAction::Receive)
                } else {
                    self.fail_sent(call, oversized_response())
                }
            },
            (Calling::Reading { .. }, CallEvent::Unreadable) => {
                self.fail_sent(call, oversized_response())
            },
            (Calling::Reading { body }, CallEvent::Complete) => {
                self.note_traffic(call.target, call.lane, call.length, 0);
                self.end_call();
                let received: u64 = body.len() as u64;
                (Some(Calling::Decoding { received }), CallAction::Decode { body })
            },
            (Calling::Decoding { received }, CallEvent::Decoded) => {
                self.note_traffic(call.target, call.lane, 0, received);
                (None, CallAction::Return)
            },
            (Calling::Decoding { .. }, CallEvent::Undecodable { error }) => {
                let mut detail: String = "peer response undecodable: ".to_owned();
                detail.append(error.as_str());
                (None, CallAction::Fail(TransportError::RemoteRefused { detail }))
            },
            (Calling::Decoding { .. }, _) => (None, CallAction::Abort),
            _ => {
                self.end_call();
                (None, CallAction::Abort)
            },
        }
    }
}

fn request_of(call: &PeerCall) -> (action: CallAction)
    ensures
        action@ == call@.request(),
{
    CallAction::Send(build_request(call.target, call.lane, call.path.as_str(), call.local))
}

/// An answer, whatever it says, keeps the connection that it came on; what fails before an
/// answer came on a connection drops it, so that the next call dials again.
pub proof fn law_answers_keep_connections(
    call: PeerCallView,
    mesh: MeshView,
    state: CallingView,
    event: CallEventView,
)
    ensures
        ({
            let after = call.stepped(mesh, state, event).mesh;
            if state is Sending && event is Failed && !(event->fault is Build) {
                after.outgoing_of(call.target, call.lane) is None
            } else {
                after.outgoing == mesh.outgoing
            }
        }),
{
    lemma_except(mesh.outgoing, lane_rank(call.target, call.lane));
}

/// A call ends by a result, a failure or without either, and only a decoded answer is a
/// result. What is received of an answer stays under its cap.
pub proof fn law_calls_end_with_a_result(
    call: PeerCallView,
    mesh: MeshView,
    state: CallingView,
    event: CallEventView,
)
    requires
        state.well_formed(call.lane),
    ensures
        ({
            let step = call.stepped(mesh, state, event);
            &&& step.state matches Some(next) ==> next.well_formed(call.lane)
            &&& step.state is None <==> (step.action is Return || step.action is Fail
                || step.action is Abort)
            &&& step.action is Return ==> state is Decoding && event is Decoded
        }),
{
}

/// A request is refused with the status of what is wrong with it: an identity that does
/// not hold, a body that is too long or cannot be read, a route that is not known, a
/// handler that failed. A refusal ends it.
pub proof fn law_requests_are_refused_by_status(
    mesh: MeshView,
    claim: PeerClaim,
    path: Seq<char>,
    body: Seq<u8>,
    chunk: Seq<u8>,
    error: Seq<char>,
)
    ensures
        served(
            mesh,
            ServingView::Validating { claim, path },
            ServeEventView::Invalid { error },
        ).action == ServeActionView::Refuse(RefusalView { status: 403, detail: error }),
        body.len() + chunk.len() > path_cap(path) ==> (served(
            mesh,
            ServingView::Receiving { claim, path, body },
            ServeEventView::Received { chunk },
        ).action matches ServeActionView::Refuse(refusal) && refusal.status == 413),
        served(
            mesh,
            ServingView::Receiving { claim, path, body },
            ServeEventView::Unreadable,
        ).action matches ServeActionView::Refuse(refusal) && refusal.status == 400,
        served(
            mesh,
            ServingView::Routing { claim },
            ServeEventView::Unrouted { error },
        ).action matches ServeActionView::Refuse(refusal) && refusal.status == 404,
        served(
            mesh,
            ServingView::Handling { claim },
            ServeEventView::Failed { error },
        ).action == ServeActionView::Refuse(RefusalView { status: 500, detail: error }),
{
}

/// A request that nothing is wrong with goes on: its body grows by what is received, is
/// routed whole, and the answer holds the bytes of the handler, all of them, with the
/// media type of its kind.
pub proof fn law_sound_requests_are_answered(
    mesh: MeshView,
    claim: PeerClaim,
    path: Seq<char>,
    body: Seq<u8>,
    chunk: Seq<u8>,
    kind: RequestKind,
    bytes: Seq<u8>,
    tablet: TabletId,
    conn: u64,
    rtt_millis: u128,
)
    ensures
        body.len() + chunk.len() <= path_cap(path) ==> served(
            mesh,
            ServingView::Receiving { claim, path, body },
            ServeEventView::Received { chunk },
        ).state == Some(ServingView::Receiving { claim, path, body: body + chunk }),
        served(
            mesh,
            ServingView::Receiving { claim, path, body },
            ServeEventView::Complete,
        ).action == (ServeActionView::Route { path, body }),
        served(
            mesh,
            ServingView::Routing { claim },
            ServeEventView::Routed { tablet, kind, conn, rtt_millis },
        ).action == (ServeActionView::Handle { from: claim.node, replicates: tablet }),
        served(
            mesh,
            ServingView::Handling { claim },
            ServeEventView::Handled { kind, bytes },
        ).action matches ServeActionView::Answer { media, length, pieces } && media
            == kind.media_of() && length == bytes.len() && joined(pieces) == bytes,
        served(
            mesh,
            ServingView::Validating { claim, path },
            ServeEventView::Valid,
        ).mesh == mesh.with_incarnation(claim.node, claim.incarnation),
{
    law_segments_join(bytes);
}

/// A request counts as a stream from its routing to its end, and only then.
pub proof fn law_requests_count_while_handled(
    mesh: MeshView,
    state: ServingView,
    event: ServeEventView,
)
    requires
        0 < mesh.active_streams < u64::MAX,
    ensures
        ({
            let step = served(mesh, state, event);
            &&& !(state is Handling) && step.state is Some && step.state->0 is Handling
                ==> step.mesh.active_streams == mesh.active_streams + 1
            &&& state is Handling ==> step.state is None && step.mesh.active_streams
                == mesh.active_streams - 1
            &&& !(state is Handling) && !(step.state is Some && step.state->0 is Handling)
                ==> step.mesh.active_streams == mesh.active_streams
        }),
{
}

/// A call to an unknown peer fails as such, one to a suspended peer fails as if the peer
/// had not answered, and neither leaves a trace; any other call counts as a request and
/// as a stream, and dials only where the lane is down.
pub proof fn law_calls_start_by_their_link(call: PeerCallView, mesh: MeshView)
    ensures
        mesh.link_of(call.target) is None ==> call.begun(mesh).mesh == mesh && call.begun(
            mesh,
        ).action == CallActionView::Fail(TransportErrorView::UnknownPeer { node: call.target.0 }),
        mesh.link_of(call.target) matches Some(link) ==> {
            &&& link.suspended ==> call.begun(mesh).mesh == mesh && call.begun(mesh).action
                == CallActionView::Fail(TransportErrorView::Timeout)
            &&& !link.suspended ==> call.begun(mesh).mesh == mesh.call_begun(
                call.target,
                call.lane,
            )
            &&& !link.suspended && mesh.outgoing_of(call.target, call.lane) is None ==> call.begun(
                mesh,
            ).action is Dial
            &&& !link.suspended && mesh.outgoing_of(call.target, call.lane) is Some ==> call.begun(
                mesh,
            ).action == call.request()
        },
{
}

/// Control requests are posted and bulk requests are fetched, at the peer's own name and
/// with this node's identity.
pub proof fn law_requests_go_to_their_peer(call: PeerCallView)
    ensures
        call.request() matches CallActionView::Send { method, uri, headers } && {
            &&& call.lane is Control <==> method is Post
            &&& call.lane is Bulk <==> method is Get
            &&& uri == "https://"@ + server_name(call.target) + call.path
            &&& claimed(headers) == Ok::<_, RefusalView>(call.local)
        },
{
    law_identity_headers_read_back(call.local);
}

/// What a peer answers decides the call: 200 is read, 503 counts as a timeout, 403 as
/// unreachable, and any other status is read for its text and refused.
pub proof fn law_answers_decide_the_call(call: PeerCallView, mesh: MeshView, status: u16)
    ensures
        ({
            let step = call.stepped(mesh, CallingView::Sending, CallEventView::Head { status });
            &&& status == 200 ==> step.state == Some(CallingView::Reading { body: Seq::empty() })
            &&& status == 503 ==> step.state is None && step.action == CallActionView::Fail(
                TransportErrorView::Timeout,
            )
            &&& status == 403 ==> step.state is None && (step.action matches
                CallActionView::Fail(error) && error is Unreachable)
            &&& status != 200 && status != 503 && status != 403 ==> step.state == Some(
                CallingView::Refused { status, text: Seq::empty() },
            )
        }),
{
}

/// A call that ended counts no longer as a stream, and what was sent and received is
/// counted once each: the request when it is over, the reply when it is decoded.
pub proof fn law_calls_are_counted_once(
    call: PeerCallView,
    mesh: MeshView,
    body: Seq<u8>,
    received: u64,
)
    requires
        0 < mesh.active_streams < u64::MAX,
    ensures
        ({
            let read = call.stepped(
                mesh,
                CallingView::Reading { body },
                CallEventView::Complete,
            );
            let decoded = call.stepped(
                mesh,
                CallingView::Decoding { received },
                CallEventView::Decoded,
            );
            &&& read.mesh.active_streams == mesh.active_streams - 1
            &&& read.mesh.links == mesh.with_traffic(
                call.target,
                call.lane,
                call.length,
                0,
            ).links
            &&& read.action == (CallActionView::Decode { body })
            &&& decoded.mesh == mesh.with_traffic(call.target, call.lane, 0, received)
            &&& decoded.action is Return
        }),
{
}

/// A reply grows by what is received and never beyond the cap of its lane.
pub proof fn law_replies_stay_under_their_cap(
    call: PeerCallView,
    mesh: MeshView,
    body: Seq<u8>,
    chunk: Seq<u8>,
)
    ensures
        ({
            let step = call.stepped(
                mesh,
                CallingView::Reading { body },
                CallEventView::Received { chunk },
            );
            &&& body.len() + chunk.len() <= call.lane.cap_of() ==> step.state == Some(
                CallingView::Reading { body: body + chunk },
            ) && step.mesh == mesh
            &&& body.len() + chunk.len() > call.lane.cap_of() ==> step.state is None && (
            step.action matches CallActionView::Fail(error) && error is RemoteRefused)
        }),
{
}

/// A call counts as a stream until its request is over: every step that ends it, or that
/// hands the reply on to be decoded, lowers the count once, and no other step does.
pub proof fn law_calls_count_until_they_are_over(
    call: PeerCallView,
    mesh: MeshView,
    state: CallingView,
    event: CallEventView,
)
    requires
        0 < mesh.active_streams < u64::MAX,
    ensures
        ({
            let step = call.stepped(mesh, state, event);
            let over = step.state is None || step.state->0 is Decoding;
            &&& state is Decoding ==> step.state is None && step.mesh.active_streams
                == mesh.active_streams
            &&& !(state is Decoding) && over ==> step.mesh.active_streams == mesh.active_streams
                - 1
            &&& !(state is Decoding) && !over ==> step.mesh == mesh
        }),
{
}

/// A call that never reached the wire counts no bytes: neither a failed dial nor a request
/// that could not be built is traffic, and both are told as unreachable.
pub proof fn law_unsent_calls_are_no_traffic(
    call: PeerCallView,
    mesh: MeshView,
    fault: CallFault,
    error: Seq<char>,
)
    ensures
        ({
            let undialed = call.stepped(
                mesh,
                CallingView::Dialing,
                CallEventView::Failed { fault, error },
            );
            let unsent = call.stepped(
                mesh,
                CallingView::Sending,
                CallEventView::Failed { fault, error },
            );
            &&& undialed.mesh.links == mesh.links
            &&& undialed.action matches CallActionView::Fail(e) && e is Unreachable
            &&& fault is Build ==> unsent.mesh.links == mesh.links && unsent.mesh.outgoing
                == mesh.outgoing
            &&& unsent.action matches CallActionView::Fail(e) && e is Unreachable
        }),
{
}

} // verus!
