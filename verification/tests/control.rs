//! The control plane: records, plans, mutations, failure detection and planning.

use kivi::control::catalog::{
    CatalogError, CatalogIndexKind, CatalogIndexState, CatalogLayout, IndexRecord, NamespaceRecord,
};
use kivi::control::failure::{
    classify_tablet, FailureDetector, FailureDetectorConfig, TabletHealth,
};
use kivi::control::layouts::{
    AssetId, FabricVocabulary, LayoutError, LayoutKey, LayoutRecord, LAYOUT_KEY_LEN,
};
use kivi::control::merge::{MergeError, MergePhase, MergePlan, MergePlanId};
use kivi::control::migration::{MigrationError, MigrationPhase, MigrationPlan, MigrationPlanId};
use kivi::control::mutation::{BodyError, ControlMutation, ControlMutationError, PlanId};
use kivi::control::node::{Endpoints, NodeError, NodeRecord, NodeState, TextField};
use kivi::control::placement::{DesiredReplicaSet, PlacementError, PlacementVersion};
use kivi::control::planner::{intents_to_plans, plan_drain, plan_rebalance, PlannerConfig};
use kivi::control::redundancy::{
    control_generation_of, descriptors_from_registry, drain_plan, health_of, layout_key,
    published_layout, published_record, NodeHealth,
};
use kivi::control::split::{SplitError, SplitPhase, SplitPlan, SplitPlanId};
use kivi::control::state::{ControlState, LayoutFence};
use kivi::ids::{NamespaceId, NodeId, TabletId};

const CHUNK: u8 = 1;

/// Four numbers with dots between them, a colon and a port; the port without zeros before it.
fn canonical(text: &str) -> Option<String> {
    let (host, port) = text.rsplit_once(':')?;
    let parts: Vec<&str> = host.split('.').collect();
    if parts.len() != 4 || !parts.iter().all(|part| part.parse::<u8>().is_ok()) {
        return None;
    }
    let port = port.parse::<u16>().ok()?;
    Some(format!("{host}:{port}"))
}

fn read_node(bytes: &[u8]) -> Result<NodeRecord, NodeError> {
    NodeRecord::decode_exact(bytes, &canonical)
}

fn read_mutation(bytes: &[u8]) -> Result<ControlMutation, ControlMutationError> {
    ControlMutation::decode_exact(&vocabulary(), bytes, &canonical)
}

fn vocabulary() -> FabricVocabulary {
    FabricVocabulary { kinds: vec![CHUNK, 2, 3], max_layout_bytes: 1 << 20 }
}

fn asset() -> AssetId {
    AssetId::new(&vocabulary(), CHUNK, 7, [11; 32]).expect("asset")
}

#[test]
fn records_round_trip() {
    let ns = NamespaceRecord {
        id: NamespaceId::from_u64(7),
        layout: CatalogLayout::Ordered,
    };
    assert_eq!(NamespaceRecord::decode_exact(&ns.encode_to_vec()), Ok(ns));
    let index = IndexRecord {
        id: 3,
        primary: NamespaceId::from_u64(7),
        kind: CatalogIndexKind::Unique,
        state: CatalogIndexState::Ready,
    };
    assert_eq!(IndexRecord::decode_exact(&index.encode_to_vec()), Ok(index));
    assert!(CatalogLayout::decode_byte(9).is_err());
    assert!(CatalogIndexKind::decode_byte(9).is_err());
    assert!(CatalogIndexState::decode_byte(9).is_err());
}

#[test]
fn catalog_faults_are_named() {
    assert!(matches!(NamespaceRecord::decode_exact(&[1, 2]), Err(CatalogError::Truncated)));
    assert_eq!(CatalogLayout::decode_byte(9), Err(CatalogError::BadLayout { found: 9 }));
    assert_eq!(CatalogIndexKind::decode_byte(9), Err(CatalogError::BadIndexKind { found: 9 }));
    assert_eq!(CatalogIndexState::decode_byte(9), Err(CatalogError::BadIndexState { found: 9 }));
}

fn node(id: u64) -> NodeId {
    NodeId::from_u64(id)
}

#[test]
fn single_miss_never_suspects() {
    let mut detector = FailureDetector::new(FailureDetectorConfig::lab());
    assert_eq!(detector.observe(node(3), false, NodeState::Active), None);
    assert_eq!(detector.observe(node(3), true, NodeState::Active), None);
    // Back to zero misses: needs 3 consecutive misses to suspect.
    assert_eq!(detector.observe(node(3), false, NodeState::Active), None);
    assert_eq!(detector.observe(node(3), false, NodeState::Active), None);
    assert_eq!(
        detector.observe(node(3), false, NodeState::Active),
        Some(NodeState::Suspect)
    );
}

#[test]
fn suspect_recovers_on_single_success() {
    let mut detector = FailureDetector::new(FailureDetectorConfig::lab());
    for _ in 0..3 {
        let _ = detector.observe(node(3), false, NodeState::Active);
    }
    assert_eq!(
        detector.observe(node(3), true, NodeState::Suspect),
        Some(NodeState::Active)
    );
}

#[test]
fn grace_expires_to_unavailable() {
    let mut detector = FailureDetector::new(FailureDetectorConfig::lab());
    // 3 (suspicion) + 5 (grace) = 8 misses to unavailable.
    let mut transition = None;
    for index in 0..8 {
        let current = transition.unwrap_or(if index < 3 {
            NodeState::Active
        } else {
            NodeState::Suspect
        });
        // After the 3rd miss the replicated state is Suspect.
        let current = if index >= 3 { NodeState::Suspect } else { current };
        transition = detector.observe(node(3), false, current);
    }
    assert_eq!(transition, Some(NodeState::Unavailable));
}

#[test]
fn unavailable_recovers_fenced_to_active() {
    let mut detector = FailureDetector::new(FailureDetectorConfig::lab());
    assert_eq!(
        detector.observe(node(3), true, NodeState::Unavailable),
        Some(NodeState::Active)
    );
}

#[test]
fn short_outage_never_repairs() {
    // Two misses then recovery: stays Active the whole time.
    let mut detector = FailureDetector::new(FailureDetectorConfig::lab());
    assert_eq!(detector.observe(node(3), false, NodeState::Active), None);
    assert_eq!(detector.observe(node(3), false, NodeState::Active), None);
    assert_eq!(detector.observe(node(3), true, NodeState::Active), None);
}

#[test]
fn forgetting_a_node_clears_its_misses() {
    let mut detector = FailureDetector::new(FailureDetectorConfig::lab());
    assert_eq!(detector.observe(node(3), false, NodeState::Active), None);
    assert_eq!(detector.observe(node(3), false, NodeState::Active), None);
    detector.forget(node(3));
    assert_eq!(detector.observe(node(3), false, NodeState::Active), None);
    assert_eq!(FailureDetectorConfig::lab().unavailable_after_misses(), 8);
}

#[test]
fn health_classification_orders_safety_first() {
    assert_eq!(classify_tablet(3, 0, false, 3), TabletHealth::Unavailable);
    assert_eq!(classify_tablet(3, 2, false, 3), TabletHealth::UnderReplicated);
    assert_eq!(classify_tablet(3, 3, false, 3), TabletHealth::Healthy);
    assert_eq!(classify_tablet(3, 2, true, 3), TabletHealth::Converging);
    assert_eq!(classify_tablet(3, 4, false, 3), TabletHealth::OverReplicated);
}

#[test]
fn key_round_trips_through_asset() {
    let key = LayoutKey::from_asset(&asset());
    assert_eq!(key.encode_to_vec().len(), LAYOUT_KEY_LEN);
    let back = LayoutKey::decode_exact(&vocabulary(), &key.encode_to_vec()).expect("decodes");
    assert_eq!(back, key);
    assert_eq!(back.to_asset(&vocabulary()).expect("asset"), asset());
}

#[test]
fn key_rejects_zero_hash_bad_kind_and_framing() {
    let mut bad_hash = LayoutKey::from_asset(&asset()).encode_to_vec();
    bad_hash[9..41].copy_from_slice(&[0; 32]);
    assert!(matches!(
        LayoutKey::decode_exact(&vocabulary(), &bad_hash),
        Err(LayoutError::ZeroHash)
    ));
    let mut bad_kind = LayoutKey::from_asset(&asset()).encode_to_vec();
    bad_kind[0] = 9;
    assert!(matches!(
        LayoutKey::decode_exact(&vocabulary(), &bad_kind),
        Err(LayoutError::BadKind { .. })
    ));
    let good = LayoutKey::from_asset(&asset()).encode_to_vec();
    assert!(matches!(
        LayoutKey::decode_exact(&vocabulary(), &good[..good.len() - 1]),
        Err(LayoutError::Truncated)
    ));
    let mut trailed = good.clone();
    trailed.push(0xFF);
    assert!(matches!(
        LayoutKey::decode_exact(&vocabulary(), &trailed),
        Err(LayoutError::TrailingBytes)
    ));
}

#[test]
fn record_round_trips_and_rejects_sentinels() {
    let record = LayoutRecord::new(3, vec![7u8; 16]);
    let back =
        LayoutRecord::decode_exact(&vocabulary(), &record.encode_to_vec()).expect("decodes");
    assert_eq!(back, record);
    let zero_gen = LayoutRecord::new(0, vec![7u8; 16]);
    assert!(matches!(
        LayoutRecord::decode_exact(&vocabulary(), &zero_gen.encode_to_vec()),
        Err(LayoutError::ZeroGeneration)
    ));
    let empty = LayoutRecord::new(1, Vec::new());
    assert!(matches!(
        LayoutRecord::decode_exact(&vocabulary(), &empty.encode_to_vec()),
        Err(LayoutError::EmptyLayout)
    ));
    let good = record.encode_to_vec();
    assert!(matches!(
        LayoutRecord::decode_exact(&vocabulary(), &good[..4]),
        Err(LayoutError::Truncated)
    ));
    let mut trailed = good.clone();
    trailed.push(0xFF);
    assert!(matches!(
        LayoutRecord::decode_exact(&vocabulary(), &trailed),
        Err(LayoutError::TrailingBytes)
    ));
    let mut oversized = good;
    oversized[8..12].copy_from_slice(&u32::MAX.to_le_bytes());
    assert!(matches!(
        LayoutRecord::decode_exact(&vocabulary(), &oversized),
        Err(LayoutError::Oversized { .. })
    ));
}

#[test]
fn merge_round_trips() {
    let plan = MergePlan::new(
        MergePlanId::from_u64(2),
        TabletId::from_u64(101),
        TabletId::from_u64(102),
        TabletId::from_u64(201),
        vec![NodeId::from_u64(1), NodeId::from_u64(2)],
        PlacementVersion::from_u64(6),
    )
    .expect("valid");
    let back = MergePlan::decode_exact(&plan.encode_to_vec()).expect("decodes");
    assert_eq!(back, plan);
    assert!(!plan.phase.is_terminal());
}

#[test]
fn degenerate_identities_fail() {
    assert!(matches!(
        MergePlan::new(
            MergePlanId::from_u64(1),
            TabletId::from_u64(1),
            TabletId::from_u64(1),
            TabletId::from_u64(2),
            vec![NodeId::from_u64(1)],
            PlacementVersion::initial(),
        ),
        Err(MergeError::BadIdentities)
    ));
}

#[test]
fn merge_faults_are_named() {
    assert_eq!(MergePhase::decode_byte(99), Err(MergeError::BadPhase { found: 99 }));
    assert!(matches!(MergePlan::decode_exact(&[0; 5]), Err(MergeError::Truncated)));
    let plan = MergePlan::new(
        MergePlanId::from_u64(2),
        TabletId::from_u64(101),
        TabletId::from_u64(102),
        TabletId::from_u64(201),
        vec![node(2), node(1)],
        PlacementVersion::from_u64(6),
    )
    .expect("valid");
    assert_eq!(plan.hosts(), vec![node(1), node(2)]);
    let mut bytes = plan.advance(MergePhase::Fenced).encode_to_vec();
    assert_eq!(MergePlan::decode_exact(&bytes).expect("decodes").phase, MergePhase::Fenced);
    bytes.push(0);
    assert!(matches!(MergePlan::decode_exact(&bytes), Err(MergeError::TrailingBytes)));
}

fn migration() -> MigrationPlan {
    MigrationPlan::new(
        MigrationPlanId::from_u64(1),
        TabletId::from_u64(17),
        PlacementVersion::from_u64(3),
        NodeId::from_u64(1),
        NodeId::from_u64(4),
        vec![NodeId::from_u64(4), NodeId::from_u64(2), NodeId::from_u64(3)],
    )
    .expect("valid")
}

#[test]
fn plan_round_trips() {
    let plan = migration();
    assert_eq!(
        plan.desired_voters,
        vec![NodeId::from_u64(2), NodeId::from_u64(3), NodeId::from_u64(4)]
    );
    let back = MigrationPlan::decode_exact(&plan.encode_to_vec()).expect("decodes");
    assert_eq!(back, plan);
    assert!(!plan.phase.is_terminal());
    assert!(MigrationPhase::Completed.is_terminal());
}

#[test]
fn self_move_fails() {
    assert!(matches!(
        MigrationPlan::new(
            MigrationPlanId::from_u64(1),
            TabletId::from_u64(1),
            PlacementVersion::initial(),
            NodeId::from_u64(2),
            NodeId::from_u64(2),
            vec![NodeId::from_u64(2)],
        ),
        Err(MigrationError::NoMovement { .. })
    ));
}

#[test]
fn migration_faults_are_named() {
    assert_eq!(MigrationPhase::decode_byte(99), Err(MigrationError::BadPhase { found: 99 }));
    assert!(matches!(MigrationPlan::decode_exact(&[0; 3]), Err(MigrationError::Truncated)));
    let mut bytes = migration().encode_to_vec();
    bytes.push(1);
    assert!(matches!(MigrationPlan::decode_exact(&bytes), Err(MigrationError::TrailingBytes)));
}

fn joining() -> NodeRecord {
    NodeRecord {
        node: NodeId::from_u64(4),
        peer: "127.0.0.1:9144".to_owned(),
        native: "127.0.0.1:9044".to_owned(),
        admin: "127.0.0.1:19444".to_owned(),
        cert_fingerprint: [9u8; 32],
        failure_domain: String::new(),
        weight: 1,
        state: NodeState::Joining,
    }
}

#[test]
fn control_mutations_round_trip() {
    let cases = vec![
        ControlMutation::RegisterNode { record: joining() },
        ControlMutation::SetNodeState {
            node: NodeId::from_u64(4),
            state: NodeState::Active,
        },
        ControlMutation::AdvanceMigration {
            plan: PlanId::from_u64(7),
            phase: MigrationPhase::Ready,
            generation: PlacementVersion::from_u64(2),
        },
        ControlMutation::RemoveMigration { plan: PlanId::from_u64(7) },
        ControlMutation::AdvanceSplit {
            plan: PlanId::from_u64(7),
            phase: SplitPhase::ChildrenAllocated,
            generation: PlacementVersion::from_u64(2),
        },
        ControlMutation::RemoveSplit { plan: PlanId::from_u64(7) },
        ControlMutation::AdvanceMerge {
            plan: PlanId::from_u64(7),
            phase: MergePhase::TargetAllocated,
            generation: PlacementVersion::from_u64(2),
        },
        ControlMutation::RemoveMerge { plan: PlanId::from_u64(7) },
    ];
    for mutation in cases {
        let back = read_mutation(&mutation.encode_to_vec()).expect("decodes");
        assert_eq!(back, mutation);
    }
    let plan = MigrationPlan::new(
        PlanId::from_u64(1),
        TabletId::from_u64(3),
        PlacementVersion::initial(),
        NodeId::from_u64(1),
        NodeId::from_u64(4),
        vec![NodeId::from_u64(2), NodeId::from_u64(3), NodeId::from_u64(4)],
    )
    .expect("plan");
    let create = ControlMutation::CreateMigration { plan };
    let back = read_mutation(&create.encode_to_vec()).expect("decodes");
    assert_eq!(back, create);
}

#[test]
fn redundancy_mutations_round_trip() {
    let key = LayoutKey::from_asset(&asset());
    let publish = ControlMutation::PublishRedundancyLayout {
        key,
        generation: 2,
        record: LayoutRecord::new(2, vec![9u8; 24]),
    };
    let back = read_mutation(&publish.encode_to_vec()).expect("decodes");
    assert_eq!(back, publish);
    let drop = ControlMutation::DropRedundancyAsset { key };
    let back = read_mutation(&drop.encode_to_vec()).expect("decodes");
    assert_eq!(back, drop);
    assert_eq!(publish.generation(), None);
    assert_eq!(drop.generation(), None);
}

#[test]
fn redundancy_mutation_mismatch_and_shapes_fail() {
    let key = LayoutKey::from_asset(&asset());
    // Explicit generation must duplicate the record generation.
    let mismatched = ControlMutation::PublishRedundancyLayout {
        key,
        generation: 3,
        record: LayoutRecord::new(2, vec![9u8; 24]),
    };
    assert!(matches!(
        read_mutation(&mismatched.encode_to_vec()),
        Err(ControlMutationError::BadBody { .. })
    ));
    // Zero-generation records never decode.
    let zero = ControlMutation::PublishRedundancyLayout {
        key,
        generation: 0,
        record: LayoutRecord::new(0, vec![9u8; 24]),
    };
    assert!(matches!(
        read_mutation(&zero.encode_to_vec()),
        Err(ControlMutationError::BadBody { .. })
    ));
    // Wrong drop body length truncates like every other fixed body.
    let drop = ControlMutation::DropRedundancyAsset { key };
    let mut short = drop.encode_to_vec();
    short.pop();
    assert!(matches!(
        read_mutation(&short),
        Err(ControlMutationError::Oversized { .. } | ControlMutationError::Truncated)
    ));
}

#[test]
fn corrupt_framing_fails() {
    let good = ControlMutation::SetNodeState {
        node: NodeId::from_u64(1),
        state: NodeState::Draining,
    }
    .encode_to_vec();
    assert!(read_mutation(&good[..3]).is_err());
    let mut trailed = good.clone();
    trailed.push(0xFF);
    assert!(matches!(
        read_mutation(&trailed),
        Err(ControlMutationError::TrailingBytes)
    ));
    let mut versioned = good;
    versioned[0] = 0xFF;
    assert!(matches!(
        read_mutation(&versioned),
        Err(ControlMutationError::UnsupportedVersion { .. })
    ));
}

#[test]
fn mutation_faults_name_their_cause() {
    let mut unknown = ControlMutation::RemoveMigration { plan: PlanId::from_u64(7) }.encode_to_vec();
    unknown[2] = 0xEE;
    assert!(matches!(
        read_mutation(&unknown),
        Err(ControlMutationError::BadTag { tag: 0xEE })
    ));
    let key = LayoutKey::from_asset(&asset());
    let mismatched = ControlMutation::PublishRedundancyLayout {
        key,
        generation: 3,
        record: LayoutRecord::new(2, vec![9u8; 24]),
    };
    assert_eq!(
        read_mutation(&mismatched.encode_to_vec()),
        Err(ControlMutationError::BadBody {
            cause: BodyError::GenerationMismatch { offered: 3, recorded: 2 },
        })
    );
    let fenced = ControlMutation::AdvanceMigration {
        plan: PlanId::from_u64(7),
        phase: MigrationPhase::Ready,
        generation: PlacementVersion::from_u64(2),
    };
    assert_eq!(fenced.generation(), Some(PlacementVersion::from_u64(2)));
}

fn active() -> NodeRecord {
    NodeRecord {
        node: NodeId::from_u64(4),
        peer: "127.0.0.1:9144".to_owned(),
        native: "127.0.0.1:9044".to_owned(),
        admin: "127.0.0.1:19444".to_owned(),
        cert_fingerprint: [7u8; 32],
        failure_domain: "zone-a".to_owned(),
        weight: 2,
        state: NodeState::Active,
    }
}

#[test]
fn node_record_round_trips() {
    let record = active();
    let back = read_node(&record.encode_to_vec()).expect("decodes");
    assert_eq!(back, record);
    assert!(back.state.serves_data());
    assert!(back.state.accepts_new_replicas());
}

#[test]
fn lifecycle_predicates_are_exclusive() {
    assert!(!NodeState::Joining.accepts_new_replicas());
    assert!(!NodeState::Draining.accepts_new_replicas());
    assert!(!NodeState::Suspect.accepts_new_replicas());
    assert!(!NodeState::Unavailable.accepts_new_replicas());
    assert!(NodeState::Draining.serves_data());
    assert!(NodeState::Suspect.serves_data());
    assert!(!NodeState::Unavailable.serves_data());
    assert!(!NodeState::Drained.serves_data());
    assert!(NodeState::Drained.is_drained());
    assert!(!NodeState::Active.is_drained());
    assert!(NodeState::Active.is_repair_target());
    assert!(!NodeState::Suspect.is_repair_target());
    assert!(NodeState::Unavailable.needs_repair());
    assert!(NodeState::Draining.needs_repair());
    assert!(!NodeState::Suspect.needs_repair());
}

#[test]
fn corrupt_state_byte_fails() {
    assert!(matches!(NodeState::decode_byte(9), Err(NodeError::BadState { .. })));
    let mut bad = active().encode_to_vec();
    bad[8] = 9;
    assert!(read_node(&bad).is_err());
}

#[test]
fn node_text_and_endpoints_are_checked() {
    let record = active();
    let bytes = record.encode_to_vec();
    let at = bytes.windows(6).position(|piece| piece == b"zone-a").expect("domain");
    let mut bad = bytes.clone();
    bad[at] = 0xFF;
    assert_eq!(
        read_node(&bad),
        Err(NodeError::BadEndpoint { field: TextField::FailureDomain })
    );
    let mut trailed = bytes;
    trailed.push(0);
    assert!(matches!(read_node(&trailed), Err(NodeError::TrailingBytes)));
    let found = |native: Option<&str>| Endpoints {
        peer: Some("10.0.0.1:1".to_owned()),
        native: native.map(str::to_owned),
        admin: Some("10.0.0.1:3".to_owned()),
    };
    let moved = active().with_endpoints(found(Some("10.0.0.1:2"))).expect("addresses");
    assert_eq!((moved.peer.as_str(), moved.native.as_str()), ("10.0.0.1:1", "10.0.0.1:2"));
    assert_eq!((moved.admin.as_str(), moved.weight), ("10.0.0.1:3", active().weight));
    assert_eq!(
        active().with_endpoints(found(None)),
        Err(NodeError::BadEndpoint { field: TextField::Native })
    );
}

#[test]
fn registrations_need_socket_addresses() {
    let mutation = ControlMutation::RegisterNode { record: joining() };
    assert_eq!(read_mutation(&mutation.encode_to_vec()), Ok(mutation));
    let address = || Some("127.0.0.1:1".to_owned());
    for (found, field) in [
        (Endpoints { peer: None, native: None, admin: None }, TextField::Peer),
        (Endpoints { peer: address(), native: None, admin: None }, TextField::Native),
        (Endpoints { peer: address(), native: address(), admin: None }, TextField::Admin),
    ] {
        assert_eq!(
            ControlMutation::register(joining(), found),
            Err(ControlMutationError::BadBody {
                cause: BodyError::Node(NodeError::BadEndpoint { field }),
            })
        );
    }
    // An address in another spelling is the same address.
    let mut spelled = joining();
    spelled.peer = "127.0.0.1:09144".to_owned();
    let bytes = spelled.encode_to_vec();
    assert_eq!(read_node(&bytes), Ok(joining()));
    let mutation = ControlMutation::RegisterNode { record: spelled };
    assert_eq!(
        read_mutation(&mutation.encode_to_vec()),
        Ok(ControlMutation::RegisterNode { record: joining() })
    );
}

#[test]
fn desired_set_round_trips_sorted() {
    let set = DesiredReplicaSet::new(
        TabletId::from_u64(17),
        vec![NodeId::from_u64(3), NodeId::from_u64(1), NodeId::from_u64(2)],
        PlacementVersion::initial(),
    )
    .expect("valid");
    assert_eq!(
        set.replicas,
        vec![NodeId::from_u64(1), NodeId::from_u64(2), NodeId::from_u64(3)]
    );
    let back = DesiredReplicaSet::decode_exact(&set.encode_to_vec()).expect("decodes");
    assert_eq!(back, set);
}

#[test]
fn empty_set_fails() {
    assert!(matches!(
        DesiredReplicaSet::new(TabletId::from_u64(1), vec![], PlacementVersion::initial()),
        Err(PlacementError::EmptyReplicas { .. })
    ));
}

#[test]
fn versions_advance() {
    assert_eq!(
        PlacementVersion::initial().next().expect("next"),
        PlacementVersion::from_u64(2)
    );
    assert!(matches!(
        PlacementVersion::from_u64(u64::MAX).next(),
        Err(PlacementError::VersionExhausted)
    ));
}

#[test]
fn placement_faults_are_named() {
    assert_eq!(
        DesiredReplicaSet::new(
            TabletId::from_u64(5),
            vec![node(2), node(1), node(2)],
            PlacementVersion::initial(),
        ),
        Err(PlacementError::DuplicateVoter { tablet: 5, node: 2 })
    );
    assert!(matches!(DesiredReplicaSet::decode_exact(&[0; 4]), Err(PlacementError::Truncated)));
    let set = DesiredReplicaSet::new(
        TabletId::from_u64(5),
        vec![node(2), node(1)],
        PlacementVersion::initial(),
    )
    .expect("set");
    assert!(set.contains(node(2)));
    assert!(!set.contains(node(3)));
    assert_eq!(set.voter_set().len(), 2);
    let mut bytes = set.encode_to_vec();
    bytes.push(0);
    assert!(matches!(DesiredReplicaSet::decode_exact(&bytes), Err(PlacementError::TrailingBytes)));
}

fn planned_node(id: u64, domain: &str) -> NodeRecord {
    NodeRecord {
        node: NodeId::from_u64(id),
        peer: format!("127.0.0.1:{}", 9100 + id),
        native: format!("127.0.0.1:{}", 9000 + id),
        admin: format!("127.0.0.1:{}", 19000 + id),
        cert_fingerprint: [u8::try_from(id % 256).unwrap_or(0xFF); 32],
        failure_domain: domain.to_owned(),
        weight: 1,
        state: NodeState::Active,
    }
}

fn spread(tablet: u64) -> DesiredReplicaSet {
    DesiredReplicaSet::new(
        TabletId::from_u64(tablet),
        vec![NodeId::from_u64(1), NodeId::from_u64(2), NodeId::from_u64(3)],
        PlacementVersion::initial(),
    )
    .expect("desired")
}

fn balanced_three() -> ControlState {
    let mut state = ControlState::bootstrap(vec![
        planned_node(1, "a"),
        planned_node(2, "b"),
        planned_node(3, "c"),
        planned_node(4, "d"),
    ]);
    for tablet in 1..=6u64 {
        // Even spread across 1..3; node 4 empty.
        state.set_desired_placement(spread(tablet));
    }
    state
}

#[test]
fn stable_cluster_produces_no_plans() {
    // Three nodes, three replicas, perfectly balanced: no movement.
    let mut state = ControlState::bootstrap(vec![
        planned_node(1, "a"),
        planned_node(2, "b"),
        planned_node(3, "c"),
    ]);
    for tablet in 1..=4u64 {
        state.set_desired_placement(spread(tablet));
    }
    let intents = plan_rebalance(&state, &PlannerConfig::default_rf3());
    assert!(intents.is_empty(), "balanced cluster must not move");
}

#[test]
fn rebalance_spreads_onto_empty_node() {
    let state = balanced_three();
    let intents = plan_rebalance(&state, &PlannerConfig::default_rf3());
    assert!(!intents.is_empty(), "empty node 4 should gain replicas");
    for intent in &intents {
        assert_eq!(intent.to, NodeId::from_u64(4));
        assert_ne!(intent.from, intent.to);
    }
    // Deterministic: same input, same output order.
    let again = plan_rebalance(&state, &PlannerConfig::default_rf3());
    assert_eq!(intents, again);
}

#[test]
fn drain_moves_every_tablet_off() {
    let state = balanced_three();
    let config = PlannerConfig {
        replication_factor: 3,
        max_plans_per_round: 16,
        max_plans_per_node: 16,
    };
    let intents = plan_drain(&state, NodeId::from_u64(1), &config);
    assert_eq!(intents.len(), 6);
    for intent in &intents {
        assert_eq!(intent.from, NodeId::from_u64(1));
        assert!(!intent.desired_voters.contains(&NodeId::from_u64(1)));
    }
}

#[test]
fn planner_bounds_live_plans_per_node() {
    let mut state = balanced_three();
    let config = PlannerConfig {
        replication_factor: 3,
        max_plans_per_round: 16,
        max_plans_per_node: 2,
    };
    assert_eq!(plan_drain(&state, NodeId::from_u64(1), &config).len(), 2);
    // A live plan counts, and its tablet is left alone.
    let live = MigrationPlan::new(
        MigrationPlanId::from_u64(1),
        TabletId::from_u64(1),
        PlacementVersion::initial(),
        NodeId::from_u64(1),
        NodeId::from_u64(4),
        vec![NodeId::from_u64(2), NodeId::from_u64(3), NodeId::from_u64(4)],
    )
    .expect("plan");
    state.add_migration(live);
    let intents = plan_drain(&state, NodeId::from_u64(1), &config);
    assert_eq!(intents.len(), 1);
    assert_eq!(intents[0].tablet, TabletId::from_u64(2));
}

#[test]
fn plans_are_numbered_from_the_first_identity() {
    let state = balanced_three();
    let config = PlannerConfig {
        replication_factor: 3,
        max_plans_per_round: 2,
        max_plans_per_node: 16,
    };
    let intents = plan_drain(&state, NodeId::from_u64(1), &config);
    let plans = intents_to_plans(
        &intents,
        MigrationPlanId::from_u64(40),
        PlacementVersion::from_u64(9),
    );
    assert_eq!(plans.len(), 2);
    assert_eq!(plans[0].id, MigrationPlanId::from_u64(40));
    assert_eq!(plans[1].id, MigrationPlanId::from_u64(41));
    assert_eq!(plans[1].generation, PlacementVersion::from_u64(9));
    assert_eq!(plans[1].phase, MigrationPhase::Planned);
    assert_eq!(
        plans[0].desired_voters,
        vec![NodeId::from_u64(2), NodeId::from_u64(3), NodeId::from_u64(4)]
    );
}

fn registered(id: u64, state: NodeState, domain: &str) -> NodeRecord {
    NodeRecord {
        node: NodeId::from_u64(id),
        peer: "127.0.0.1:9144".to_owned(),
        native: "127.0.0.1:9044".to_owned(),
        admin: "127.0.0.1:19444".to_owned(),
        cert_fingerprint: [7u8; 32],
        failure_domain: domain.to_owned(),
        weight: 1,
        state,
    }
}

#[test]
fn health_mapping_covers_every_lifecycle_state() {
    assert_eq!(health_of(NodeState::Active), NodeHealth::Active);
    assert_eq!(health_of(NodeState::Draining), NodeHealth::Draining);
    assert_eq!(health_of(NodeState::Unavailable), NodeHealth::Unavailable);
    assert_eq!(health_of(NodeState::Suspect), NodeHealth::Suspect);
    assert_eq!(health_of(NodeState::Joining), NodeHealth::Joining);
    assert_eq!(health_of(NodeState::Drained), NodeHealth::Drained);
    assert_eq!(health_of(NodeState::Removed), NodeHealth::Removed);
}

#[test]
fn drain_excludes_node_from_placement() {
    let records = vec![
        registered(1, NodeState::Active, "rack-a"),
        registered(2, NodeState::Active, "rack-b"),
        registered(3, NodeState::Active, "rack-c"),
        registered(4, NodeState::Active, "rack-d"),
        registered(5, NodeState::Draining, "rack-e"),
    ];
    let descriptors = descriptors_from_registry(&records);
    assert_eq!(descriptors.len(), 5);
    assert_eq!(descriptors[0].domain.rack, "rack-a");
    assert_eq!(descriptors[4].health, NodeHealth::Draining);

    // Draining node 5 out: the placement view drops it entirely.
    let view = drain_plan(&records, NodeId::from_u64(5));
    assert_eq!(view.len(), 4);
    assert!(view.iter().all(|d| d.id != NodeId::from_u64(5)));
}

#[test]
fn layout_key_generation_and_published_layout() {
    let asset = asset();
    let other = AssetId::new(&vocabulary(), CHUNK, 7, [12; 32]).expect("asset");
    assert_eq!(layout_key(&asset), layout_key(&asset));
    assert_ne!(layout_key(&asset), layout_key(&other));

    let mut state = ControlState::empty();
    assert_eq!(control_generation_of(&state), 1);
    assert!(published_record(&state, &asset).is_none());
    state
        .publish_layout(layout_key(&asset), 1, LayoutRecord::new(1, vec![5u8; 24]))
        .expect("publishes");
    let record = published_record(&state, &asset);
    let published = published_layout(record, Some("layout")).expect("present");
    assert_eq!(published.control_generation, 1);
    assert_eq!(published.layout, "layout");
    assert_eq!(record.expect("record").layout, vec![5u8; 24]);
    assert!(published_record(&state, &other).is_none());
    assert!(published_layout::<&str>(None, None).is_none());
}

#[test]
fn corrupt_committed_bytes_read_as_absent() {
    // The control plane stores layout bytes opaquely: bytes that do not decode surface
    // as unpublished, never as corrupt layouts.
    let asset = asset();
    let mut state = ControlState::empty();
    state
        .publish_layout(layout_key(&asset), 1, LayoutRecord::new(1, vec![0xFFu8; 32]))
        .expect("opaque store accepts");
    let record = published_record(&state, &asset);
    assert!(record.is_some());
    assert!(published_layout::<u8>(record, None).is_none());
}

#[test]
fn layouts_are_fenced_by_generation() {
    let key = layout_key(&asset());
    let mut state = ControlState::empty();
    state.publish_layout(key, 1, LayoutRecord::new(1, vec![1])).expect("publishes");
    assert_eq!(
        state.publish_layout(key, 1, LayoutRecord::new(1, vec![2])),
        Err(LayoutFence::StaleGeneration { offered: 1, current: 1 })
    );
    assert_eq!(
        state.publish_layout(key, 3, LayoutRecord::new(3, vec![3])),
        Err(LayoutFence::StaleGeneration { offered: 3, current: 1 })
    );
    assert_eq!(state.redundancy_layout(&key).expect("kept").layout, vec![1]);
    state.publish_layout(key, 2, LayoutRecord::new(2, vec![4])).expect("publishes");
    assert_eq!(state.redundancy_layout(&key).expect("kept").layout, vec![4]);
    state.drop_layout(&key);
    assert!(state.redundancy_layout(&key).is_none());
}

fn split() -> SplitPlan {
    SplitPlan::new(
        SplitPlanId::from_u64(1),
        TabletId::from_u64(7),
        1u128 << 127,
        TabletId::from_u64(101),
        TabletId::from_u64(102),
        vec![NodeId::from_u64(1), NodeId::from_u64(2), NodeId::from_u64(3)],
        PlacementVersion::from_u64(5),
    )
    .expect("valid")
}

#[test]
fn split_round_trips() {
    let plan = split();
    let back = SplitPlan::decode_exact(&plan.encode_to_vec()).expect("decodes");
    assert_eq!(back, plan);
    assert!(!plan.phase.is_terminal());
    assert!(SplitPhase::Completed.is_terminal());
}

#[test]
fn degenerate_children_fail() {
    assert!(matches!(
        SplitPlan::new(
            SplitPlanId::from_u64(1),
            TabletId::from_u64(7),
            0,
            TabletId::from_u64(7),
            TabletId::from_u64(8),
            vec![NodeId::from_u64(1)],
            PlacementVersion::initial(),
        ),
        Err(SplitError::BadChildren)
    ));
}

#[test]
fn split_faults_are_named() {
    assert_eq!(SplitPhase::decode_byte(99), Err(SplitError::BadPhase { found: 99 }));
    assert!(matches!(SplitPlan::decode_exact(&[0; 7]), Err(SplitError::Truncated)));
    let plan = split();
    assert_eq!(
        plan.tablets(),
        [TabletId::from_u64(7), TabletId::from_u64(101), TabletId::from_u64(102)]
    );
    assert_eq!(plan.hosts(), vec![node(1), node(2), node(3)]);
    let mut bytes = plan.encode_to_vec();
    bytes.push(0);
    assert!(matches!(SplitPlan::decode_exact(&bytes), Err(SplitError::TrailingBytes)));
}

#[test]
fn conservative_detectors_wait_longer() {
    let config = FailureDetectorConfig::conservative();
    assert_eq!(config.suspicion_threshold, 4);
    assert_eq!(config.repair_grace_misses, 10);
    let mut detector = FailureDetector::new(FailureDetectorConfig::lab());
    detector.set_config(config);
    for _ in 0..3 {
        assert_eq!(detector.observe(node(3), false, NodeState::Active), None);
    }
    assert_eq!(detector.observe(node(3), false, NodeState::Active), Some(NodeState::Suspect));
}

#[test]
fn desired_placements_are_listed_by_node() {
    let state = balanced_three();
    let tablets: Vec<TabletId> = (1..=6u64).map(TabletId::from_u64).collect();
    assert_eq!(state.tablets_desiring(node(1)), tablets);
    assert!(state.tablets_desiring(node(4)).is_empty());
    assert_ne!(PlacementVersion::invalid(), PlacementVersion::initial());
}

#[test]
fn records_with_other_endpoints_are_refused() {
    for (field, spoil) in [
        (TextField::Peer, "localhost"),
        (TextField::Native, ""),
        (TextField::Admin, "127.0.0.1"),
    ] {
        let mut record = joining();
        match field {
            TextField::Peer => record.peer = spoil.to_owned(),
            TextField::Native => record.native = spoil.to_owned(),
            _ => record.admin = spoil.to_owned(),
        }
        let refusal = NodeError::BadEndpoint { field };
        assert_eq!(read_node(&record.encode_to_vec()), Err(refusal));
        let mutation = ControlMutation::RegisterNode { record };
        assert_eq!(
            read_mutation(&mutation.encode_to_vec()),
            Err(ControlMutationError::BadBody { cause: BodyError::Node(refusal) })
        );
    }
}

#[test]
fn new_clusters_have_the_last_record_of_each_node() {
    let mut later = registered(1, NodeState::Active, "b");
    later.weight = 7;
    let state = ControlState::bootstrap(vec![
        registered(1, NodeState::Joining, "a"),
        registered(2, NodeState::Active, "a"),
        later,
    ]);
    let first = state.node(NodeId::from_u64(1)).expect("registered");
    assert_eq!((first.weight, first.failure_domain.as_str()), (7, "b"));
    assert_eq!(
        state.node(NodeId::from_u64(2)),
        Some(&registered(2, NodeState::Active, "a"))
    );
    assert_eq!(state.node(NodeId::from_u64(3)), None);
}

#[test]
fn live_plans_are_listed_in_order() {
    let mut state = ControlState::empty();
    for id in [5, 3, 4] {
        let plan = MigrationPlan::new(
            MigrationPlanId::from_u64(id),
            TabletId::from_u64(if id == 4 { 2 } else { 1 }),
            PlacementVersion::initial(),
            NodeId::from_u64(1),
            NodeId::from_u64(4),
            vec![NodeId::from_u64(2), NodeId::from_u64(3), NodeId::from_u64(4)],
        )
        .expect("plan");
        state.add_migration(plan);
    }
    assert_eq!(
        state.live_plans_for(TabletId::from_u64(1)),
        vec![MigrationPlanId::from_u64(3), MigrationPlanId::from_u64(5)]
    );
    assert!(state.live_plans_for(TabletId::from_u64(9)).is_empty());
}

#[test]
fn phases_come_in_the_order_of_their_bytes() {
    for a in 0u8..8 {
        for b in 0u8..8 {
            let merge = |byte: u8| MergePhase::decode_byte(byte).expect("phase");
            assert_eq!(merge(a) < merge(b), a < b);
            assert_eq!(merge(a).cmp(&merge(b)), a.cmp(&b));
            let split = |byte: u8| SplitPhase::decode_byte(byte).expect("phase");
            assert_eq!(split(a).partial_cmp(&split(b)), a.partial_cmp(&b));
            let migration = |byte: u8| MigrationPhase::decode_byte(byte).expect("phase");
            assert_eq!(migration(a) >= migration(b), a >= b);
        }
    }
}
