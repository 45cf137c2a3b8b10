//! The peer mesh: requests, answers, links and certificates.

use kivi::consensus::exchange::{
    CallAction, CallEvent, CallFault, Calling, PeerCall, ServeAction, ServeEvent, Serving,
};
use kivi::consensus::mesh::{
    bind_step, incoming_peer, next_lane, serves_connection, teardown_limit, BindStep, DialStep,
    DrainStep, PeerCert, PeerTransport, StartStep, TlsFaults, TlsMaterial,
};
use kivi::consensus::pinning::{key_fault, pin, word_bad_cert};
use kivi::consensus::tls::{CertFingerprint, NodeCert, SessionOffer, TlsError};
use kivi::consensus::transport::{
    bar_claim, body_cap, build_request, classify_response, classify_with, drain_chunk,
    is_bulk_path, oversized_response, read_claim, refuse_body, refuse_handling,
    refuse_identity, refuse_route, segment_body, server_name_for, settle_call, varint_saturating,
    BodyEnd, Lane, Method, OutboundRequest, PeerClaim, PeerHeaders, ReplyWait, RequestKind,
    TransportConfig, TransportError, MAX_BULK_BODY_BYTES, MAX_RAFT_BODY_BYTES, MAX_VARINT,
    SEGMENT_BYTES,
};
use kivi::ids::{ClusterId, NodeId, NodeIncarnation, TabletId};
use kivi::time::Duration;

const CLUSTER: u128 = 0x0C10_57E2;

fn node(id: u64) -> NodeId {
    NodeId::from_u64(id)
}

fn claim(id: u64, incarnation: u64) -> PeerClaim {
    PeerClaim {
        cluster: ClusterId::from_u128(CLUSTER),
        node: node(id),
        incarnation: NodeIncarnation::from_u64(incarnation),
        caps: 7,
    }
}

/// A new certificate of a node, and its key.
fn cert_of(id: u64) -> NodeCert {
    NodeCert::load_or_generate(None, None, node(id)).expect("made").0
}

fn insecure() -> TlsMaterial {
    TlsMaterial {
        cert: cert_of(1),
        peer_certs: Vec::new(),
        insecure_skip_verify: true,
    }
}

/// Connects a lane and shakes hands on it.
fn dial(mesh: &mut PeerTransport, peer: u64, lane: Lane, rtt_millis: u128) -> u64 {
    mesh.note_connected(node(peer), lane, rtt_millis);
    mesh.note_dialed(node(peer), lane).expect("dialed")
}

fn mesh(local: u64, peers: &[u64]) -> PeerTransport {
    let peers = peers.iter().map(|id| node(*id)).collect();
    PeerTransport::open(node(local), &peers, &insecure(), None, false).expect("opens").0
}

/// Who answers the requests of these tests: fixed votes, one manifest and one chunk.
struct Echo {
    cluster: u128,
}

impl Echo {
    fn validate(&self, claim: PeerClaim) -> ServeEvent {
        if claim.cluster == ClusterId::from_u128(self.cluster) {
            ServeEvent::Valid
        } else {
            ServeEvent::Invalid { error: "foreign cluster".to_owned() }
        }
    }

    fn route(&self, path: &str, conn: u64) -> ServeEvent {
        let kind = match path {
            "/_kivi/raft/9/vote" => RequestKind::Vote,
            "/_kivi/immutable/manifest/11" => RequestKind::Manifest,
            "/_kivi/immutable/chunk/22" | "/_kivi/immutable/chunk/33" => RequestKind::Chunk,
            _ => return ServeEvent::Unrouted { error: path.to_owned() },
        };
        ServeEvent::Routed { tablet: TabletId::from_u64(9), kind, conn, rtt_millis: 1 }
    }

    fn handle(&self, path: &str) -> ServeEvent {
        match path {
            "/_kivi/raft/9/vote" => {
                ServeEvent::Handled { kind: RequestKind::Vote, bytes: b"granted".to_vec() }
            }
            "/_kivi/immutable/manifest/11" => {
                ServeEvent::Handled { kind: RequestKind::Manifest, bytes: vec![7; 78] }
            }
            "/_kivi/immutable/chunk/22" => {
                ServeEvent::Handled { kind: RequestKind::Chunk, bytes: vec![9; 1024] }
            }
            _ => ServeEvent::Failed { error: "no such chunk".to_owned() },
        }
    }
}

/// Serves one request, and returns the status and the segments of the answer.
fn serve(
    mesh: &mut PeerTransport,
    echo: &Echo,
    request: OutboundRequest,
    path: &str,
    body: &[u8],
    conn: u64,
) -> (u16, Vec<Vec<u8>>) {
    let mut event =
        ServeEvent::Head { headers: request.headers, bound: None, path: path.to_owned() };
    let mut state = Serving::Opening;
    let mut pending: Vec<Vec<u8>> = body.chunks(4).map(<[u8]>::to_vec).rev().collect();
    loop {
        let (next, action) = mesh.serve_step(state, event);
        event = match action {
            ServeAction::Validate { claim } => echo.validate(claim),
            ServeAction::Receive => match pending.pop() {
                Some(chunk) => ServeEvent::Received { chunk },
                None => ServeEvent::Complete,
            },
            ServeAction::Route { path, body: received } => {
                assert_eq!(received, body);
                echo.route(&path, conn)
            }
            ServeAction::Handle { .. } => echo.handle(path),
            ServeAction::Answer { pieces, .. } => return (200, pieces),
            ServeAction::Refuse(refusal) => {
                return (refusal.status, vec![refusal.detail.into_bytes()]);
            }
            ServeAction::Abort => panic!("every request is answered"),
        };
        state = next.expect("goes on");
    }
}

/// Makes a call from one mesh to another, dialing where there is no connection.
fn call(
    from: &mut PeerTransport,
    to: &mut PeerTransport,
    echo: &Echo,
    lane: Lane,
    path: &str,
) -> Result<Vec<u8>, TransportError> {
    let target = to.local();
    let sender = from.local();
    let body = b"a request".to_vec();
    let call = PeerCall {
        target,
        lane,
        path: path.to_owned(),
        length: body.len() as u64,
        local: PeerClaim { node: sender, ..claim(0, 1) },
    };
    let mut answer: Vec<Vec<u8>> = Vec::new();
    let mut decoded: Vec<u8> = Vec::new();
    let mut next = from.execute(&call);
    loop {
        let (state, action) = next;
        let event = match action {
            CallAction::Return => return Ok(decoded),
            CallAction::Fail(error) => return Err(error),
            CallAction::Abort => panic!("every call has a result"),
            CallAction::Dial => {
                from.note_connected(target, lane, 1);
                from.note_dialed(target, lane);
                CallEvent::Dialed
            }
            CallAction::Send(request) => {
                let (status, pieces) = serve(to, echo, request, path, &body, 40);
                answer = pieces.into_iter().rev().collect();
                CallEvent::Head { status }
            }
            CallAction::Receive => match answer.pop() {
                Some(chunk) => CallEvent::Received { chunk },
                None => CallEvent::Complete,
            },
            CallAction::Decode { body } => {
                decoded = body;
                CallEvent::Decoded
            }
        };
        next = from.execute_step(&call, state.expect("goes on"), event);
    }
}

#[test]
fn mesh_connects_and_serves_votes() {
    let (mut first, mut second) = (mesh(1, &[1, 2]), mesh(2, &[1, 2]));
    let echo = Echo { cluster: CLUSTER };
    let vote = "/_kivi/raft/9/vote";
    assert_eq!(
        call(&mut first, &mut second, &echo, Lane::Control, vote),
        Ok(b"granted".to_vec()),
        "vote served"
    );
    // The server side learns connectivity from validated inbound
    // requests; the reverse RPC exercises on-demand dial from the
    // non-dialing side.
    assert!(first.link(node(2)).expect("link").connected_control);
    assert!(second.link(node(1)).expect("link").connected_control);
    assert!(!second.has_outgoing(node(1), Lane::Control));
    assert_eq!(
        call(&mut second, &mut first, &echo, Lane::Control, vote),
        Ok(b"granted".to_vec()),
        "reverse vote served"
    );
    assert!(second.has_outgoing(node(1), Lane::Control));
    first.shutdown();
    assert_eq!(first.check_dispatch(node(2)), Some(TransportError::ShuttingDown));
}

#[test]
fn concurrent_streams_all_succeed() {
    let (mut first, mut second) = (mesh(1, &[1, 2]), mesh(2, &[1, 2]));
    let echo = Echo { cluster: CLUSTER };
    for _ in 0..32 {
        let result = call(&mut first, &mut second, &echo, Lane::Control, "/_kivi/raft/9/vote");
        assert!(result.is_ok(), "concurrent stream succeeds");
    }
    for _ in 0..8 {
        let result = call(&mut first, &mut second, &echo, Lane::Bulk, "/_kivi/immutable/chunk/22");
        assert!(result.is_ok(), "concurrent stream succeeds");
    }
    let stats = first.stats()[0];
    assert_eq!((stats.control.requests, stats.bulk.requests), (32, 8));
    assert_eq!(stats.bulk.bytes_received, 8 * 1024);
    assert_eq!((stats.reconnects, stats.active_streams), (2, 0));
    assert_eq!(second.stats()[0].active_streams, 0);
}

#[test]
fn shutdown_with_active_streams_terminates_calls() {
    let mut first = mesh(1, &[1, 2]);
    first.execute(&call_to(2, Lane::Control, "/_kivi/raft/9/vote"));
    first.shutdown();
    // The driver drops what it cannot answer any more, which ends the wait.
    assert_eq!(settle_call(ReplyWait::Closed), Err(TransportError::ShuttingDown));
    assert_eq!(first.check_dispatch(node(2)), Some(TransportError::ShuttingDown));
}

#[test]
fn unknown_peer_fails_fast() {
    let first = mesh(1, &[1, 2]);
    assert_eq!(
        first.check_dispatch(node(99)),
        Some(TransportError::UnknownPeer { node: 99 }),
        "unknown peer fails fast"
    );
    assert_eq!(first.check_dispatch(node(2)), None);
}

#[test]
fn suspended_links_time_out_and_heal() {
    let mut first = mesh(1, &[1, 2]);
    dial(&mut first, 2, Lane::Control, 3);
    first.note_inbound_lane(node(2), Lane::Bulk, 40, 3);
    first.suspend_peer(node(2));
    assert_eq!(first.drop_peer_connections(node(2)), vec![40]);
    assert!(!first.has_outgoing(node(2), Lane::Control));
    assert_eq!(first.begin_call(node(2), Lane::Control), Err(TransportError::Timeout));
    assert_eq!(first.dial_step(node(2)), DialStep::Nap(Duration::from_millis(200)));
    let headers = build_request(node(1), Lane::Control, "/", claim(2, 1)).headers;
    let refusal = first.open_request(&headers, None).expect_err("suspended");
    assert_eq!((refusal.status, refusal.detail.as_str()), (503, "suspended"));
    first.resume_peer(node(2));
    assert_eq!(first.begin_call(node(2), Lane::Control), Ok(MAX_RAFT_BODY_BYTES));
    assert_eq!(first.dial_step(node(2)), DialStep::Dial { control: true, bulk: true });
    assert_eq!(first.open_request(&headers, None), Ok(claim(2, 1)));
}

#[test]
fn oversized_bodies_refuse_without_allocation() {
    // A 20 MiB snapshot fragment exceeds the 16 MiB Raft cap.
    let cap = body_cap("/_kivi/raft/9/snapshot-frag");
    assert_eq!(cap, MAX_RAFT_BODY_BYTES);
    let chunk = vec![0xAA; 1024 * 1024];
    let mut body = Vec::new();
    let mut fit = true;
    for _ in 0..20 {
        fit = fit && drain_chunk(&mut body, &chunk, cap);
    }
    assert!(!fit);
    assert_eq!(body.len(), MAX_RAFT_BODY_BYTES);
    let refusal = refuse_body(BodyEnd::TooLarge).expect("refused");
    assert_eq!(refusal.status, 413);
    assert!(matches!(
        classify_response(refusal.status, refusal.detail.as_bytes()),
        Some(TransportError::RemoteRefused { .. })
    ));
}

#[test]
fn tiny_timeout_cancels_without_poisoning_the_lane() {
    let mut first = mesh(1, &[1, 2]);
    dial(&mut first, 2, Lane::Control, 1);
    assert_eq!(first.begin_call(node(2), Lane::Control), Ok(MAX_RAFT_BODY_BYTES));
    assert_eq!(settle_call(ReplyWait::Elapsed), Err(TransportError::Timeout));
    first.end_call();
    assert!(first.has_outgoing(node(2), Lane::Control));
    assert!(first.begin_call(node(2), Lane::Control).is_ok());
    assert_eq!(settle_call(ReplyWait::Replied(Ok(vec![1]))), Ok(vec![1]));
}

#[test]
fn wrong_cluster_identity_is_refused() {
    let (mut first, mut second) = (mesh(1, &[1, 2]), mesh(2, &[1, 2]));
    let foreign = Echo { cluster: 0xDEAD };
    let error = call(&mut first, &mut second, &foreign, Lane::Control, "/_kivi/raft/9/vote")
        .expect_err("wrong cluster refuses");
    assert!(
        matches!(error, TransportError::Unreachable { .. }),
        "wrong cluster is unreachable, got {error:?}"
    );
    let refusal = refuse_identity("foreign cluster".to_owned());
    assert_eq!((refusal.status, refusal.detail.as_str()), (403, "foreign cluster"));
}

#[test]
fn bulk_sidecars_stream_over_their_own_connection() {
    assert_eq!(RequestKind::Manifest.lane(), Lane::Bulk);
    assert_eq!(RequestKind::Chunk.lane(), Lane::Bulk);
    assert_eq!(RequestKind::Append.lane(), Lane::Control);
    assert_eq!(Lane::Bulk.cap(), MAX_BULK_BODY_BYTES);
    assert_eq!(RequestKind::Manifest.media(), "application/vnd.kivi.manifest");
    assert_eq!(RequestKind::Chunk.media(), "application/vnd.kivi.chunk");
    assert_eq!(RequestKind::Vote.media(), "application/vnd.kivi.raft");
    let mut first = mesh(1, &[1, 2]);
    dial(&mut first, 2, Lane::Control, 1);
    dial(&mut first, 2, Lane::Bulk, 1);
    // Each lane fails on its own.
    first.drop_outgoing(node(2), Lane::Bulk);
    assert!(first.has_outgoing(node(2), Lane::Control));
    assert_eq!(first.dial_step(node(2)), DialStep::Dial { control: false, bulk: true });
    // Manifests and chunks are served in bulk; missing objects refuse, never hang, and
    // the connection is kept.
    let (mut first, mut second) = (mesh(1, &[1, 2]), mesh(2, &[1, 2]));
    let echo = Echo { cluster: CLUSTER };
    assert_eq!(
        call(&mut first, &mut second, &echo, Lane::Bulk, "/_kivi/immutable/manifest/11"),
        Ok(vec![7u8; 78])
    );
    assert_eq!(
        call(&mut first, &mut second, &echo, Lane::Bulk, "/_kivi/immutable/chunk/22"),
        Ok(vec![9u8; 1024])
    );
    let missing = call(&mut first, &mut second, &echo, Lane::Bulk, "/_kivi/immutable/chunk/33")
        .expect_err("missing chunk refuses");
    assert!(matches!(missing, TransportError::RemoteRefused { .. }));
    assert!(first.has_outgoing(node(2), Lane::Bulk));
    assert!(second.link(node(1)).expect("link").connected_bulk);
    assert_eq!(refuse_handling("no such chunk".to_owned()).status, 500);
}

/// Why a mesh of the first node did not open.
fn refusal(peers: &[u64], tls: &TlsMaterial, server_fault: Option<&str>) -> String {
    let peers = peers.iter().map(|id| node(*id)).collect();
    let fault = server_fault.map(str::to_owned);
    match PeerTransport::open(node(1), &peers, tls, fault, false) {
        Err(TransportError::Unreachable { detail }) => detail,
        other => panic!("opened: {:?}", other.map(|(mesh, _)| mesh)),
    }
}

#[test]
fn pinned_tls_rejects_foreign_certificates() {
    let (second, third, foreign) = (cert_of(2), cert_of(3), cert_of(2));
    let certs = vec![
        PeerCert { node: node(3), der: third.cert_der.clone() },
        PeerCert { node: node(2), der: second.cert_der.clone() },
    ];
    assert_eq!(incoming_peer(&certs, Some(&third.cert_der)), Some(node(3)));
    assert_eq!(incoming_peer(&certs, Some(&foreign.cert_der)), None);
    assert_eq!(incoming_peer(&certs, None), None);
    assert!(!serves_connection(None, false));
    assert!(serves_connection(Some(node(3)), false));
    assert!(serves_connection(None, true));
    let mut tls = TlsMaterial {
        cert: cert_of(1),
        peer_certs: certs,
        insecure_skip_verify: false,
    };
    assert_eq!(refusal(&[1, 2, 4], &tls, None), "no pinned peer certificate for node 4");
    let (_, roots) =
        PeerTransport::open(node(1), &vec![node(1), node(2)], &tls, None, false).expect("opens");
    // Exactly the certificates given are trusted, in the order of the nodes.
    let roots = roots.expect("verifies").roots;
    let alone = |cert: &NodeCert| {
        let pinned = pin(&vec![PeerCert { node: node(2), der: cert.cert_der.clone() }]);
        pinned.expect("pins").roots.remove(0)
    };
    assert_eq!(roots, vec![alone(&second), alone(&third)]);
    assert!(!roots.contains(&alone(&foreign)));

    assert_eq!(refusal(&[1, 2], &tls, Some("no server")), "no server");
    tls.peer_certs[0].der = vec![3];
    tls.peer_certs.push(PeerCert { node: node(5), der: Vec::new() });
    let text = refusal(&[1, 2], &tls, None);
    assert!(
        text.starts_with("peer TLS client config: peer 3 cert invalid: "),
        "the first bad one by node is named, got {text}"
    );
    // What is wrong with the node's own key and server comes first.
    assert_eq!(refusal(&[1, 2], &tls, Some("no server")), "no server");
    tls.cert.key_der = vec![2];
    assert_eq!(
        refusal(&[1, 2], &tls, Some("no server")),
        "peer key invalid: unknown or invalid key format"
    );
    tls.insecure_skip_verify = true;
    assert_eq!(
        refusal(&[1, 4], &tls, None),
        "peer key invalid: unknown or invalid key format"
    );
    assert_eq!(key_fault(&cert_of(1).key_der), None);
    assert_eq!(word_bad_cert(node(7), "torn"), "peer 7 cert invalid: torn");
}

#[test]
fn meshes_open_by_what_was_found() {
    let faults = |key: Option<&str>, server: Option<&str>, pins: Option<&str>| TlsFaults {
        key: key.map(str::to_owned),
        server: server.map(str::to_owned),
        pins: pins.map(str::to_owned),
    };
    let open = |faults: TlsFaults| {
        let peers = vec![node(1), node(2)];
        PeerTransport::open_with(node(1), &peers, &vec![node(2)], false, faults, false)
            .map(|mesh| mesh.local())
    };
    let unreachable = |detail: &str| {
        Err(TransportError::Unreachable { detail: detail.to_owned() })
    };
    assert_eq!(open(faults(None, None, None)), Ok(node(1)));
    assert_eq!(
        open(faults(Some("k"), Some("s"), Some("p"))),
        unreachable("peer key invalid: k")
    );
    assert_eq!(open(faults(None, Some("s"), Some("p"))), unreachable("s"));
    assert_eq!(open(faults(None, None, Some("p"))), unreachable("peer TLS client config: p"));
}

#[test]
fn waits_are_bounded() {
    let millis = Duration::from_millis;
    assert_eq!(bind_step(millis(14_999)), BindStep::Retry(millis(100)));
    assert_eq!(bind_step(millis(15_000)), BindStep::Fail);
    assert_eq!(teardown_limit(), Duration::from_secs(5));
    let mut first = mesh(1, &[1, 2]);
    assert_eq!(first.start_step(), StartStep::Go);
    assert_eq!(first.drain_step(node(2), millis(0)), DrainStep::Done);
    first.begin_serving(node(2));
    assert_eq!(first.drain_step(node(2), millis(9_999)), DrainStep::Wait(millis(10)));
    assert_eq!(first.drain_step(node(2), millis(10_000)), DrainStep::Done);
    assert_eq!(first.drain_step(node(9), millis(0)), DrainStep::Done);
    let offer = SessionOffer::of_peers();
    assert_eq!((offer.protocol.as_slice(), offer.early_data), (&b"h3"[..], false));
    assert_eq!(NodeCert::directory(), "peer-tls");
    assert_eq!(NodeCert::cert_path(), "peer-tls/cert.der");
    assert_eq!(NodeCert::key_path(), "peer-tls/key.der");
}

#[test]
fn certificates_bind_requests() {
    let first = mesh(1, &[1, 2, 3]);
    let headers = build_request(node(1), Lane::Control, "/", claim(2, 5)).headers;
    assert_eq!(first.open_request(&headers, Some(node(2))), Ok(claim(2, 5)));
    let refusal = first.open_request(&headers, Some(node(3))).expect_err("mismatch");
    assert_eq!((refusal.status, refusal.detail.as_str()), (403, "node mismatch"));
    assert_eq!(bar_claim(claim(2, 5), None, false), None);
}

#[test]
fn headers_must_be_there_and_be_numbers() {
    let missing = PeerHeaders {
        cluster: Some("1".to_owned()),
        node: None,
        incarnation: Some("1".to_owned()),
        caps: Some("1".to_owned()),
    };
    let refusal = read_claim(&missing).expect_err("missing");
    assert_eq!((refusal.status, refusal.detail.as_str()), (400, "missing kivi headers"));
    for bad in ["", "x", "-1", "18446744073709551616", "1 ", "+"] {
        let headers = PeerHeaders {
            cluster: Some("1".to_owned()),
            node: Some(bad.to_owned()),
            incarnation: Some("1".to_owned()),
            caps: Some("1".to_owned()),
        };
        let refusal = read_claim(&headers).expect_err("bad");
        assert_eq!((refusal.status, refusal.detail.as_str()), (400, "bad kivi headers"));
    }
    let most = PeerHeaders {
        cluster: Some("340282366920938463463374607431768211455".to_owned()),
        node: Some("18446744073709551615".to_owned()),
        incarnation: Some("+0".to_owned()),
        caps: Some("007".to_owned()),
    };
    assert_eq!(
        read_claim(&most),
        Ok(PeerClaim {
            cluster: ClusterId::from_u128(u128::MAX),
            node: node(u64::MAX),
            incarnation: NodeIncarnation::from_u64(0),
            caps: 7,
        })
    );
}

#[test]
fn requests_name_their_target_and_sender() {
    let request = build_request(node(2), Lane::Control, "/_kivi/raft/9/vote", claim(1, 3));
    assert_eq!(request.method, Method::Post);
    assert_eq!(request.uri, "https://kivi-n2/_kivi/raft/9/vote");
    assert_eq!(request.headers.cluster.as_deref(), Some("202397666"));
    assert_eq!(read_claim(&request.headers), Ok(claim(1, 3)));
    let bulk = build_request(node(2), Lane::Bulk, "/_kivi/immutable/chunk/00", claim(1, 3));
    assert_eq!(bulk.method, Method::Get);
    assert_eq!(server_name_for(node(17)), "kivi-n17");
}

#[test]
fn answers_are_classified_by_status() {
    assert_eq!(classify_response(200, b""), None);
    assert_eq!(classify_response(503, b"suspended"), Some(TransportError::Timeout));
    assert_eq!(
        classify_response(403, b"no"),
        Some(TransportError::Unreachable { detail: "peer authentication refused".to_owned() })
    );
    assert_eq!(
        classify_response(500, b"no such chunk"),
        Some(TransportError::RemoteRefused {
            detail: "peer refused with 500 Internal Server Error: no such chunk".to_owned(),
        })
    );
    assert_eq!(
        classify_response(599, &[0x66, 0xFF]),
        Some(TransportError::RemoteRefused {
            detail: "peer refused with 599 <unknown status code>: f\u{FFFD}".to_owned(),
        })
    );
    assert_eq!(
        classify_with(404, Some("Not Found".to_owned()), "x".to_owned()),
        Some(TransportError::RemoteRefused {
            detail: "peer refused with 404 Not Found: x".to_owned(),
        })
    );
    assert_eq!(
        oversized_response(),
        TransportError::RemoteRefused { detail: "peer response exceeds body cap".to_owned() }
    );
    assert_eq!(settle_call(ReplyWait::Closed), Err(TransportError::ShuttingDown));
}

#[test]
fn refusals_have_their_statuses() {
    assert_eq!(refuse_body(BodyEnd::Complete), None);
    let unreadable = refuse_body(BodyEnd::Unreadable).expect("refused");
    assert_eq!((unreadable.status, unreadable.detail.as_str()), (400, "request body unreadable"));
    let route = refuse_route("no such route");
    assert_eq!((route.status, route.detail.as_str()), (404, "unknown peer route: no such route"));
    assert_eq!(refuse_handling("x".to_owned()).status, 500);
}

#[test]
fn bodies_are_capped_by_route_and_cut_into_segments() {
    assert!(is_bulk_path("/_kivi/immutable/chunk/ab"));
    assert!(!is_bulk_path("/_kivi/immutable"));
    assert!(!is_bulk_path("/_kivi/raft/9/vote"));
    assert_eq!(body_cap("/_kivi/immutable/manifest/ab"), MAX_BULK_BODY_BYTES);
    let bytes: Vec<u8> = (0..SEGMENT_BYTES + 3).map(|i| (i % 251) as u8).collect();
    let pieces = segment_body(&bytes);
    assert_eq!(pieces.len(), 2);
    assert_eq!(pieces[0].len(), SEGMENT_BYTES);
    assert_eq!(pieces.concat(), bytes);
    assert!(segment_body(&[]).is_empty());
    let mut out = vec![1, 2];
    assert!(drain_chunk(&mut out, &[3], 3));
    assert!(drain_chunk(&mut out, &[], 3));
    assert!(!drain_chunk(&mut out, &[4], 3));
    assert_eq!(out, vec![1, 2, 3]);
}

#[test]
fn tuning_saturates_and_backoff_doubles() {
    let config = TransportConfig::default();
    assert_eq!(config.max_concurrent_bidi_streams, 128);
    assert_eq!(config.stream_receive_window, 2 * 1024 * 1024);
    assert_eq!(config.idle_timeout, Duration::from_secs(30));
    let tuned = config.quic_transport();
    assert_eq!(tuned.idle_timeout_millis, 30_000);
    assert_eq!(tuned.max_uni_streams, 32);
    assert_eq!(varint_saturating(u64::MAX), MAX_VARINT);
    assert_eq!(varint_saturating(5), 5);
    let mut backoff = config.backoff_min;
    for millis in [200u64, 400, 800, 1600, 3200, 5000, 5000] {
        backoff = config.grow_backoff(backoff);
        assert_eq!(backoff, Duration::from_millis(millis));
    }
    assert_eq!(config.grow_backoff(Duration::zero()), Duration::from_millis(1));
}

#[test]
fn one_side_of_a_pair_dials() {
    let first = mesh(1, &[1, 2, 3]);
    let second = mesh(2, &[1, 2, 3]);
    assert_eq!(first.dial_targets(), vec![node(2), node(3)]);
    assert_eq!(second.dial_targets(), vec![node(3)]);
    assert_eq!(first.local(), node(1));
}

#[test]
fn stale_drivers_never_evict_newer_dials() {
    let mut first = mesh(1, &[1, 2]);
    let old = dial(&mut first, 2, Lane::Control, 4);
    let new = dial(&mut first, 2, Lane::Control, 4);
    assert_ne!(old, new);
    first.note_driver_end(node(2), Lane::Control, old);
    assert!(first.has_outgoing(node(2), Lane::Control));
    first.note_driver_end(node(2), Lane::Control, new);
    assert!(!first.has_outgoing(node(2), Lane::Control));
    assert_eq!(first.note_dialed(node(77), Lane::Bulk), None);
}

#[test]
fn links_follow_their_connections() {
    let mut first = mesh(1, &[1, 2]);
    first.note_inbound_lane(node(2), Lane::Control, 10, 6);
    first.note_inbound_lane(node(2), Lane::Bulk, 11, 7);
    let stats = first.stats();
    assert_eq!(stats.len(), 1);
    assert!(stats[0].connected_control && stats[0].connected_bulk);
    assert_eq!(stats[0].rtt_ms, Some(7));
    first.forget_incoming(Some(node(2)), 11);
    assert!(first.link(node(2)).expect("link").connected_control);
    assert!(!first.link(node(2)).expect("link").connected_bulk);
    first.forget_incoming(None, 10);
    assert!(first.link(node(2)).expect("link").connected_control);
    first.note_incarnation(node(2), NodeIncarnation::from_u64(8));
    assert_eq!(
        first.link(node(2)).expect("link").incarnation,
        Some(NodeIncarnation::from_u64(8))
    );
    first.begin_serving(node(2));
    assert_eq!(first.link(node(2)).expect("link").active, 1);
    assert_eq!(first.stats()[0].active_streams, 1);
    first.end_serving(node(2));
    assert_eq!(first.link(node(2)).expect("link").active, 0);
    assert!(first.begin_call(node(2), Lane::Bulk).is_ok());
    first.note_traffic(node(2), Lane::Bulk, 100, 2_000);
    first.end_call();
    let bulk = first.stats()[0].bulk;
    assert_eq!((bulk.requests, bulk.bytes_sent, bulk.bytes_received), (1, 100, 2_000));
}

#[test]
fn paused_meshes_wait_and_stopped_ones_refuse() {
    let peers = vec![node(1), node(2)];
    let (mut first, roots) =
        PeerTransport::open(node(1), &peers, &insecure(), None, true).expect("opens");
    assert!(roots.is_none());
    assert_eq!(first.start_step(), StartStep::Wait(Duration::from_millis(50)));
    assert!(!first.is_ready());
    first.start();
    assert!(first.is_ready() && first.is_running());
    first.shutdown();
    assert!(!first.is_running());
    assert_eq!(first.check_dispatch(node(2)), Some(TransportError::ShuttingDown));
    assert_eq!(first.dial_step(node(2)), DialStep::Stop);
}

#[test]
fn fingerprints_are_blake3_in_hex() {
    // The digest of no bytes at all.
    let empty = CertFingerprint::of_der(b"");
    assert_eq!(
        empty.hex(),
        "af1349b9f5f9a1a6a0404dea36dcc9499bcb25c9adc112b7cc9a93cae41f3262"
    );
    let cert = NodeCert::of_stored(Some(vec![1, 2, 3]), Some(vec![4]), node(7)).expect("a pair");
    assert_eq!(cert.fingerprint, CertFingerprint::of_der(&[1, 2, 3]));
    assert_ne!(cert.fingerprint, empty);
    for (stored, key) in [
        (Some(Vec::new()), Some(vec![4])),
        (None, Some(vec![4])),
        (Some(vec![1]), None),
        (Some(vec![1]), Some(Vec::new())),
    ] {
        assert_eq!(NodeCert::of_stored(stored, key, node(7)), Err("kivi-n7".to_owned()));
    }
}

fn call_to(target: u64, lane: Lane, path: &str) -> PeerCall {
    PeerCall { target: node(target), lane, path: path.to_owned(), length: 10, local: claim(1, 3) }
}

fn head(sender: u64, bound: Option<u64>, path: &str) -> ServeEvent {
    ServeEvent::Head {
        headers: build_request(node(1), Lane::Control, "/", claim(sender, 5)).headers,
        bound: bound.map(node),
        path: path.to_owned(),
    }
}

#[test]
fn requests_are_served_step_by_step() {
    let mut first = mesh(1, &[1, 2]);
    let path = "/_kivi/raft/9/vote";
    let (state, action) = first.serve_step(Serving::Opening, head(2, Some(2), path));
    assert_eq!(action, ServeAction::Validate { claim: claim(2, 5) });
    let (state, action) = first.serve_step(state.expect("goes on"), ServeEvent::Valid);
    assert_eq!(action, ServeAction::Receive);
    assert_eq!(
        first.link(node(2)).expect("link").incarnation,
        Some(NodeIncarnation::from_u64(5))
    );
    let (state, _) =
        first.serve_step(state.expect("goes on"), ServeEvent::Received { chunk: vec![1, 2] });
    let (state, _) =
        first.serve_step(state.expect("goes on"), ServeEvent::Received { chunk: vec![3] });
    let (state, action) = first.serve_step(state.expect("goes on"), ServeEvent::Complete);
    assert_eq!(action, ServeAction::Route { path: path.to_owned(), body: vec![1, 2, 3] });
    let (state, action) = first.serve_step(
        state.expect("goes on"),
        ServeEvent::Routed {
            tablet: TabletId::from_u64(9),
            kind: RequestKind::Vote,
            conn: 40,
            rtt_millis: 2,
        },
    );
    assert!(matches!(action, ServeAction::Handle { from, .. } if from == node(2)));
    let link = first.link(node(2)).expect("link");
    assert!(link.connected_control && !link.connected_bulk);
    assert_eq!(link.active, 1);
    let (state, action) = first.serve_step(
        state.expect("goes on"),
        ServeEvent::Handled { kind: RequestKind::Vote, bytes: vec![7; SEGMENT_BYTES + 1] },
    );
    assert!(state.is_none());
    match action {
        ServeAction::Answer { media, length, pieces } => {
            assert_eq!(media, "application/vnd.kivi.raft");
            assert_eq!(length, SEGMENT_BYTES + 1);
            assert_eq!(pieces.len(), 2);
        }
        other => panic!("an answer, got {other:?}"),
    }
    assert_eq!(first.link(node(2)).expect("link").active, 0);
    assert_eq!(first.stats()[0].active_streams, 0);
}

#[test]
fn every_refusal_ends_serving() {
    let mut first = mesh(1, &[1, 2]);
    let refusal = |next: (Option<Serving>, ServeAction)| {
        assert!(next.0.is_none());
        match next.1 {
            ServeAction::Refuse(refusal) => (refusal.status, refusal.detail),
            other => panic!("a refusal, got {other:?}"),
        }
    };
    let validating = || Serving::Validating { claim: claim(2, 5), path: "/x".to_owned() };
    let receiving = |path: &str, len: usize| Serving::Receiving {
        claim: claim(2, 5),
        path: path.to_owned(),
        body: vec![0; len],
    };
    let routing = || Serving::Routing { claim: claim(2, 5) };
    let handling = || Serving::Handling { claim: claim(2, 5) };
    assert_eq!(
        refusal(first.serve_step(Serving::Opening, head(2, Some(3), "/x"))),
        (403, "node mismatch".to_owned())
    );
    assert_eq!(
        refusal(first.serve_step(validating(), ServeEvent::Invalid { error: "stale".to_owned() })),
        (403, "stale".to_owned())
    );
    let bulk = "/_kivi/immutable/chunk/00";
    assert_eq!(
        refusal(first.serve_step(
            receiving(bulk, MAX_BULK_BODY_BYTES),
            ServeEvent::Received { chunk: vec![1] }
        )),
        (413, "request body exceeds cap".to_owned())
    );
    assert_eq!(
        refusal(first.serve_step(receiving("/x", 0), ServeEvent::Unreadable)),
        (400, "request body unreadable".to_owned())
    );
    assert_eq!(
        refusal(first.serve_step(routing(), ServeEvent::Unrouted { error: "no".to_owned() })),
        (404, "unknown peer route: no".to_owned())
    );
    first.begin_serving(node(2));
    assert_eq!(
        refusal(first.serve_step(handling(), ServeEvent::Failed { error: "no chunk".to_owned() })),
        (500, "no chunk".to_owned())
    );
    assert_eq!(first.serve_step(routing(), ServeEvent::Valid), (None, ServeAction::Abort));
}

#[test]
fn calls_dial_send_and_decode() {
    let mut first = mesh(1, &[1, 2]);
    let call = call_to(2, Lane::Control, "/_kivi/raft/9/vote");
    let (state, action) = first.execute(&call);
    assert_eq!((state, action), (Some(Calling::Dialing), CallAction::Dial));
    dial(&mut first, 2, Lane::Control, 1);
    let (state, action) = first.execute_step(&call, Calling::Dialing, CallEvent::Dialed);
    match action {
        CallAction::Send(request) => {
            assert_eq!(request.uri, "https://kivi-n2/_kivi/raft/9/vote");
            assert_eq!(request.method, Method::Post);
        }
        other => panic!("a request, got {other:?}"),
    }
    let (state, _) =
        first.execute_step(&call, state.expect("goes on"), CallEvent::Head { status: 200 });
    let (state, _) = first.execute_step(
        &call,
        state.expect("goes on"),
        CallEvent::Received { chunk: vec![4, 5] },
    );
    let (state, action) =
        first.execute_step(&call, state.expect("goes on"), CallEvent::Complete);
    assert_eq!(action, CallAction::Decode { body: vec![4, 5] });
    let (state, action) = first.execute_step(&call, state.expect("goes on"), CallEvent::Decoded);
    assert_eq!((state, action), (None, CallAction::Return));
    let stats = first.stats()[0];
    assert_eq!(stats.control.requests, 1);
    assert_eq!((stats.control.bytes_sent, stats.control.bytes_received), (10, 2));
    assert_eq!(stats.active_streams, 0);
}

#[test]
fn failed_calls_say_why_and_only_broken_ones_drop_their_connection() {
    let mut first = mesh(1, &[1, 2]);
    let call = call_to(2, Lane::Bulk, "/_kivi/immutable/chunk/00");
    let failure = |next: (Option<Calling>, CallAction)| {
        assert!(next.0.is_none());
        match next.1 {
            CallAction::Fail(error) => error,
            other => panic!("a failure, got {other:?}"),
        }
    };
    let unreachable_for = |detail: &str| TransportError::Unreachable { detail: detail.to_owned() };
    let fault = |fault: CallFault| CallEvent::Failed { fault, error: "gone".to_owned() };
    assert_eq!(
        failure(first.execute(&call_to(9, Lane::Control, "/"))),
        TransportError::UnknownPeer { node: 9 }
    );
    for (kind, detail) in [
        (CallFault::Dial, "peer 2 dial refused: gone"),
        (CallFault::Connect, "peer 2 connect failed: gone"),
        (CallFault::Handshake, "peer 2 H3 handshake failed: gone"),
    ] {
        first.execute(&call);
        assert_eq!(
            failure(first.execute_step(&call, Calling::Dialing, fault(kind))),
            unreachable_for(detail)
        );
    }
    first.execute(&call);
    assert_eq!(
        failure(first.execute_step(&call, Calling::Dialing, CallEvent::Dialed)),
        unreachable_for("peer 2 Bulk unavailable after dial")
    );
    for (kind, detail, kept) in [
        (CallFault::Build, "peer request build failed: gone", true),
        (CallFault::Request, "peer request rejected: gone", false),
        (CallFault::Body, "peer request body failed: gone", false),
        (CallFault::Finish, "peer request finish failed: gone", false),
        (CallFault::Head, "peer response missing: gone", false),
    ] {
        dial(&mut first, 2, Lane::Bulk, 1);
        first.execute(&call);
        assert_eq!(
            failure(first.execute_step(&call, Calling::Sending, fault(kind))),
            unreachable_for(detail)
        );
        assert_eq!(first.has_outgoing(node(2), Lane::Bulk), kept);
    }
    dial(&mut first, 2, Lane::Bulk, 1);
    for (status, error) in [
        (503, TransportError::Timeout),
        (403, unreachable_for("peer authentication refused")),
    ] {
        first.execute(&call);
        assert_eq!(
            failure(first.execute_step(&call, Calling::Sending, CallEvent::Head { status })),
            error
        );
    }
    first.execute(&call);
    let (state, _) =
        first.execute_step(&call, Calling::Sending, CallEvent::Head { status: 500 });
    let (state, _) = first.execute_step(
        &call,
        state.expect("goes on"),
        CallEvent::Received { chunk: b"no such chunk".to_vec() },
    );
    assert_eq!(
        failure(first.execute_step(&call, state.expect("goes on"), CallEvent::Complete)),
        TransportError::RemoteRefused {
            detail: "peer refused with 500 Internal Server Error: no such chunk".to_owned(),
        }
    );
    // A text that is too long, or breaks off, is left out.
    first.execute(&call);
    let refused = || Calling::Refused { status: 404, text: vec![b'x'; 4096] };
    for event in [CallEvent::Received { chunk: vec![b'x'] }, CallEvent::Unreadable] {
        assert_eq!(
            failure(first.execute_step(&call, refused(), event)),
            TransportError::RemoteRefused { detail: "peer refused with 404 Not Found: ".to_owned() }
        );
    }
    let reading = || Calling::Reading { body: vec![0; MAX_BULK_BODY_BYTES] };
    for event in [CallEvent::Received { chunk: vec![1] }, CallEvent::Unreadable] {
        assert_eq!(failure(first.execute_step(&call, reading(), event)), oversized_response());
    }
    assert_eq!(
        failure(first.execute_step(
            &call,
            Calling::Decoding { received: 3 },
            CallEvent::Undecodable { error: "short".to_owned() }
        )),
        TransportError::RemoteRefused { detail: "peer response undecodable: short".to_owned() }
    );
    assert!(first.has_outgoing(node(2), Lane::Bulk));
}

#[test]
fn node_certificates_are_stored_or_made() {
    let (stored, made) =
        NodeCert::load_or_generate(Some(vec![1, 2, 3]), Some(vec![4]), node(1)).expect("stored");
    assert!(!made);
    assert_eq!(stored, NodeCert::of_pair(vec![1, 2, 3], vec![4]));
    let (first, made) = NodeCert::load_or_generate(None, Some(vec![4]), node(1)).expect("made");
    assert!(made);
    assert_eq!(first.fingerprint, CertFingerprint::of_der(&first.cert_der));
    // The certificate carries the name that the node is dialed by.
    let name = server_name_for(node(1)).into_bytes();
    assert!(first.cert_der.windows(name.len()).any(|window| window == name));
    let (second, _) = NodeCert::load_or_generate(None, None, node(1)).expect("made");
    assert_ne!(first, second);
    assert_eq!(
        NodeCert::of_made(Err("no randomness".to_owned())),
        Err(TlsError::Io {
            op: "generate peer certificate".to_owned(),
            detail: "no randomness".to_owned(),
        })
    );
}

#[test]
fn a_failed_lane_ends_the_round_of_dials() {
    assert_eq!(next_lane(true, true, None), Some(Lane::Control));
    assert_eq!(next_lane(true, true, Some((Lane::Control, true))), Some(Lane::Bulk));
    assert_eq!(next_lane(true, true, Some((Lane::Control, false))), None);
    assert_eq!(next_lane(true, false, Some((Lane::Control, true))), None);
    assert_eq!(next_lane(false, true, None), Some(Lane::Bulk));
    assert_eq!(next_lane(false, true, Some((Lane::Bulk, true))), None);
    assert_eq!(next_lane(false, false, None), None);
    let config = TransportConfig::default();
    let long = Duration::from_millis(400);
    assert_eq!(config.pace(long, true), (None, config.backoff_min));
    assert_eq!(config.pace(long, false), (Some(long), config.grow_backoff(long)));
}
