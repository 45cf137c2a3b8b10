//! Replicated tablets: deduplication, snapshots and the state machine around them.

use std::collections::BTreeMap;

use kivi::consensus::applied::{
    decode_applied_file_body, decode_applied_prefix, encode_applied_file_body, AppliedPointer,
};
use kivi::consensus::image::{frame_image, frame_with, unframe_image, unframe_with, ImageFault};
use kivi::consensus::keyorder::{sort_entries, KeyedEntry};
use kivi::consensus::machine::{
    applied_snapshot_name, choose_snapshot, chunked_roots, snapshot_file_name, MachineFault,
    PreparedRead, ReplicatedStateMachine, SealTarget, SealWrite, ServeFault,
    StateMachineOpenError, APPLIED_MAGIC, APPLIED_VERSION,
};
use kivi::consensus::membership::{Member, StoredMembership};
use kivi::consensus::object::{
    decode_object, encode_object, LogicalValue, ObjectHalt, Piece, RangeBase, Reading,
    StoredObject, VALUE_BOUNDED,
};
use kivi::consensus::sections::{ObjectEntry, SnapshotFlaw, SnapshotHalt, TxnIntent};
use kivi::consensus::session::{
    commit_of_index, index_of_commit, DurableOutcome, OutcomeKind, RetainedOutcome, SessionEntry,
    SessionState,
};
use kivi::consensus::snapshot::{
    PieceAnswer, SnapshotTapes, SNAPSHOT_MAGIC, SNAPSHOT_VERSION,
};
use kivi::consensus::store::{
    DurableRaftStore, LogEntry, LogPayload, RaftChange, RaftRecord, RaftVote, SharedOpenError,
    StoreOpenError,
};
use kivi::consensus::tablet::{
    ConsensusCommand, EntryPayload, EntryStep, Executed, ProposalGate, ReplicatedMutation,
    ReplicatedOutcome, ReplicatedTablet, StateMachineFault, SESSION_OUTCOME_CAP,
};
use kivi::consensus::types::{
    ConsensusGroupId, ConsensusLogIndex, ConsensusTerm, LeaderHint, ReplicaId, ReplicaRole,
};
use kivi::consensus::worker::{tablets_for_worker, worker_for_tablet};
use kivi::ids::{
    CommitPosition, NamespaceId, NodeId, RequestSeq, SessionId, TabletAuthority, TabletEpoch,
    TabletId, WriteGuardGeneration,
};

const NOW: u64 = 1_000_000;
const VERSION_LEN: usize = 8;

fn ns() -> NamespaceId {
    NamespaceId::from_u64(1)
}

fn tablet_id() -> TabletId {
    TabletId::from_u64(9)
}

fn control_id() -> TabletId {
    TabletId::from_u64(u64::MAX)
}

fn authority() -> TabletAuthority {
    TabletAuthority::new(tablet_id(), TabletEpoch::initial(), WriteGuardGeneration::initial())
}

fn tablet() -> ReplicatedTablet {
    ReplicatedTablet::new(ns(), tablet_id(), authority(), control_id())
}

fn log_id(index: u64) -> AppliedPointer {
    AppliedPointer::new(1, 1, index)
}

fn keyed(entry: ObjectEntry) -> KeyedEntry {
    KeyedEntry { raw: entry.key.clone(), entry }
}

/// A store of counters and byte strings that executes commands written as text.
#[derive(Clone, Default)]
struct Store {
    objects: BTreeMap<String, (i64, Option<String>, u64)>,
}

impl Store {
    fn run(&mut self, mutation: &[u8]) -> Result<Vec<u8>, String> {
        let text = String::from_utf8(mutation.to_vec()).map_err(|_| "not text".to_owned())?;
        let words: Vec<&str> = text.split(' ').collect();
        let answer = match words.as_slice() {
            ["put", key, value] => {
                let slot = self.objects.entry((*key).to_owned()).or_default();
                slot.1 = Some((*value).to_owned());
                slot.2 += 1;
                format!("stored v{}", slot.2)
            }
            ["del", key] => format!("deleted {}", self.objects.remove(*key).is_some()),
            ["add", key, delta] => {
                let slot = self.objects.entry((*key).to_owned()).or_default();
                slot.0 += delta.parse::<i64>().map_err(|_| "bad delta".to_owned())?;
                slot.2 += 1;
                format!("counter {} v{}", slot.0, slot.2)
            }
            ["expire", key, _] => format!("expiry set {}", self.objects.contains_key(*key)),
            ["persist", key] => format!("persisted {}", self.objects.contains_key(*key)),
            _ => return Err(format!("unknown mutation {text}")),
        };
        Ok(answer.into_bytes())
    }

    fn counter(&self, key: &str) -> Option<i64> {
        self.objects.get(key).map(|slot| slot.0)
    }

    fn entries(&self) -> Vec<KeyedEntry> {
        self.objects
            .iter()
            .rev()
            .map(|(key, (count, bytes, version))| {
                keyed(ObjectEntry {
                    key: key.clone().into_bytes(),
                    object: StoredObject {
                        value: match bytes {
                            Some(bytes) => LogicalValue::Bytes(bytes.clone().into_bytes()),
                            None => LogicalValue::StrictCounter(*count),
                        },
                        version: version.to_le_bytes().to_vec(),
                        expiry: vec![0],
                    },
                })
            })
            .collect()
    }

    fn restore(entries: Vec<ObjectEntry>) -> Self {
        let mut store = Store::default();
        for entry in entries {
            let mut version = [0u8; 8];
            version.copy_from_slice(&entry.object.version);
            let version = u64::from_le_bytes(version);
            let key = String::from_utf8(entry.key).expect("text key");
            let slot = match entry.object.value {
                LogicalValue::Bytes(bytes) => {
                    (0, Some(String::from_utf8(bytes).expect("text")), version)
                }
                LogicalValue::StrictCounter(count) => (count, None, version),
                other => panic!("unexpected value {other:?}"),
            };
            store.objects.insert(key, slot);
        }
        store
    }
}

fn command(session: u128, seq: u64, mutation: &str, expected: &str) -> ReplicatedMutation {
    ReplicatedMutation {
        namespace: ns(),
        authority: authority(),
        session: SessionId::from_u128(session),
        seq: RequestSeq::from_u64(seq),
        ack_floor: RequestSeq::from_u64(0),
        opcode: 1,
        mutation: mutation.as_bytes().to_vec(),
        expected: expected.as_bytes().to_vec(),
        now: NOW,
    }
}

fn normal(command: ReplicatedMutation) -> EntryPayload {
    EntryPayload::Normal(ConsensusCommand::Tablet(command))
}

fn executed(step: &EntryStep, payload: &EntryPayload, store: &mut Store) -> Executed {
    match (step, payload) {
        (EntryStep::ExecuteStore, EntryPayload::Normal(ConsensusCommand::Tablet(command))) => {
            match store.run(&command.mutation) {
                Ok(outcome) => Executed::Stored(outcome),
                Err(detail) => Executed::StoreFailed(detail),
            }
        }
        _ => Executed::Nothing,
    }
}

fn drive(
    tablet: &mut ReplicatedTablet,
    store: &mut Store,
    index: u64,
    payload: &EntryPayload,
) -> Result<ReplicatedOutcome, StateMachineFault> {
    let step = tablet.plan_entry(index, payload)?;
    let done = executed(&step, payload, store);
    tablet.apply_entry(log_id(index), payload, done)
}

fn text(outcome: &ReplicatedOutcome) -> String {
    String::from_utf8(outcome.outcome().expect("an outcome").clone()).expect("text")
}

fn members(ids: &[(u64, &str)]) -> StoredMembership {
    let voters = ids.iter().map(|(id, _)| NodeId::from_u64(*id)).collect();
    let nodes = ids
        .iter()
        .map(|(id, addr)| Member { node: NodeId::from_u64(*id), addr: (*addr).to_owned() })
        .collect();
    StoredMembership::assemble(&voters, nodes, None).expect("test membership validates")
}

/// Reads the pieces of a snapshot as their decoders would, until it is whole.
fn tapes_of(
    image: &[u8],
    namespace: NamespaceId,
    tablet: TabletId,
    kind: OutcomeKind,
) -> SnapshotTapes {
    let body = unframe_image(image, SNAPSHOT_MAGIC, SNAPSHOT_VERSION).expect("framed");
    let mut tapes = SnapshotTapes::blank();
    for _ in 0..1_000 {
        let halt = ReplicatedTablet::decode_snapshot(image, namespace, tablet, control_id(), &tapes);
        let (piece, at, item) = match halt {
            Err(SnapshotHalt::Pending { piece, at, item }) => (piece, at, item),
            _ => return tapes,
        };
        let len = match piece {
            Piece::Key | Piece::IntentKey => {
                body[at..].iter().take_while(|byte| byte.is_ascii_alphanumeric()).count()
            }
            Piece::Version | Piece::IntentVersion => VERSION_LEN,
            Piece::Expiry | Piece::Expectation => 1,
            Piece::Write => 2,
            _ => 0,
        };
        let answer = match piece {
            Piece::Outcome => PieceAnswer::Ended(Some(kind)),
            _ => PieceAnswer::Read(Reading::Good { len }),
        };
        tapes.answer(piece, item, answer);
    }
    panic!("snapshot never ends")
}

#[test]
fn commit_position_is_the_raft_index_plus_one() {
    // Index 0 is a real entry; the +1 preserves UNASSIGNED.
    assert_eq!(commit_of_index(0), CommitPosition::first());
    assert_eq!(commit_of_index(41), CommitPosition::from_u64(42));
    assert_eq!(index_of_commit(CommitPosition::first()), Some(0));
    assert_eq!(index_of_commit(CommitPosition::from_u64(42)), Some(41));
    assert_eq!(index_of_commit(CommitPosition::unassigned()), None);
}

#[test]
fn apply_serves_set_delete_and_reads() {
    let mut tablet = tablet();
    let mut store = Store::default();
    let put = normal(command(1, 1, "put k v", "stored v1"));
    let outcome = drive(&mut tablet, &mut store, 0, &put).expect("applies");
    assert_eq!(text(&outcome), "stored v1");
    assert_eq!(tablet.applied_commit(), commit_of_index(0));
    let delete = normal(command(1, 2, "del k", "deleted true"));
    let outcome = drive(&mut tablet, &mut store, 1, &delete).expect("applies");
    assert_eq!(text(&outcome), "deleted true");
    assert_eq!(tablet.applied_commit(), commit_of_index(1));
}

#[test]
fn apply_serves_counter_expiry_and_conditional() {
    let mut tablet = tablet();
    let mut store = Store::default();
    let entries = [
        command(7, 1, "add n 41", "counter 41 v1"),
        command(7, 2, "expire n 2000000", "expiry set true"),
        command(7, 3, "persist n", "persisted true"),
        command(8, 1, "put c v", "stored v1"),
    ];
    for (index, entry) in (0u64..).zip(entries) {
        drive(&mut tablet, &mut store, index, &normal(entry)).expect("applies");
    }
    assert_eq!(tablet.applied_commit(), commit_of_index(3));
}

#[test]
fn same_identity_retry_returns_the_original_without_reexecuting() {
    let mut tablet = tablet();
    let mut store = Store::default();
    let first = normal(command(0x5E55, 1, "add n 1", "counter 1 v1"));
    let outcome = drive(&mut tablet, &mut store, 0, &first).expect("first applies");
    assert_eq!(text(&outcome), "counter 1 v1");
    // Lost-response retry: the identical command commits again (new
    // leader, new index) and must NOT execute twice.
    let retry = normal(command(0x5E55, 1, "add n 1", "counter 1 v1"));
    assert_eq!(
        tablet.plan_entry(1, &retry),
        Ok(EntryStep::Settled(Some(b"counter 1 v1".to_vec())))
    );
    let outcome = drive(&mut tablet, &mut store, 1, &retry).expect("retry hits dedup");
    assert_eq!(text(&outcome), "counter 1 v1", "retry returns the original outcome");
    // Counter proves single execution.
    assert_eq!(store.counter("n"), Some(1));
    // The applied cursor still advances over the dedup hit.
    assert_eq!(tablet.applied_commit(), commit_of_index(1));
}

#[test]
fn verification_mismatch_fails_loudly() {
    let mut tablet = tablet();
    let mut store = Store::default();
    let lying = normal(command(1, 1, "add n 1", "counter 999 v1"));
    let fault = drive(&mut tablet, &mut store, 0, &lying).expect_err("wrong expectation diverges");
    assert!(
        matches!(fault, StateMachineFault::Divergence { .. }),
        "loud divergence, got {fault:?}"
    );
    assert_eq!(tablet.applied(), None);
}

#[test]
fn expired_identity_at_apply_is_divergence() {
    let mut tablet = tablet();
    let mut store = Store::default();
    // Unknown sessions always admit: the floor only constrains sessions the replica has
    // actually seen.
    let mut fresh = command(1, 1, "del k", "deleted false");
    fresh.ack_floor = RequestSeq::from_u64(1);
    drive(&mut tablet, &mut store, 0, &normal(fresh)).expect("unknown session admits");
    // Advance the session floor past sequence 3 with an ack: a later
    // committed entry for sequence 3 means floor divergence.
    let mut advance = command(1, 5, "del k", "deleted false");
    advance.ack_floor = RequestSeq::from_u64(4);
    drive(&mut tablet, &mut store, 1, &normal(advance)).expect("floor advances");
    let stale = command(1, 3, "del k", "deleted false");
    let fault =
        drive(&mut tablet, &mut store, 2, &normal(stale)).expect_err("expired identity fails");
    assert!(
        matches!(fault, StateMachineFault::ExpiredIdentity { .. }),
        "got {fault:?}"
    );
}

#[test]
fn misrouted_and_stale_envelopes_fail() {
    let mut tablet = tablet();
    let mut store = Store::default();
    // Foreign tablet.
    let mut foreign = command(1, 1, "del k", "deleted false");
    foreign.authority = TabletAuthority::new(
        TabletId::from_u64(10),
        TabletEpoch::initial(),
        WriteGuardGeneration::initial(),
    );
    assert!(matches!(
        drive(&mut tablet, &mut store, 0, &normal(foreign)),
        Err(StateMachineFault::Misrouted { .. })
    ));
    // Stale epoch on the right tablet.
    let mut stale = command(1, 2, "del k", "deleted false");
    stale.authority = TabletAuthority::new(
        tablet_id(),
        TabletEpoch::from_u64(999),
        WriteGuardGeneration::initial(),
    );
    assert!(matches!(
        drive(&mut tablet, &mut store, 1, &normal(stale)),
        Err(StateMachineFault::AuthorityMismatch { .. })
    ));
}

#[test]
fn blank_and_membership_entries_advance_applied_without_outcomes() {
    let mut tablet = tablet();
    let mut store = Store::default();
    let blank = drive(&mut tablet, &mut store, 0, &EntryPayload::Blank).expect("blank applies");
    assert_eq!(blank, ReplicatedOutcome::none());
    let membership =
        members(&[(1, "127.0.0.1:9001"), (2, "127.0.0.1:9002"), (3, "127.0.0.1:9003")]);
    let installed = drive(&mut tablet, &mut store, 1, &EntryPayload::Membership(membership))
        .expect("membership installs");
    assert_eq!(installed, ReplicatedOutcome::none());
    assert_eq!(tablet.applied_commit(), commit_of_index(1));
    assert_eq!(tablet.membership().log_id, Some(log_id(1)));
    assert_eq!(tablet.membership_voters().len(), 3);
}

#[test]
fn snapshot_images_round_trip_with_dedup_and_membership() {
    let mut tablet = tablet();
    let mut store = Store::default();
    drive(&mut tablet, &mut store, 0, &EntryPayload::Blank).expect("blank");
    let membership = members(&[(1, "n1"), (2, "n2"), (3, "n3")]);
    drive(&mut tablet, &mut store, 1, &EntryPayload::Membership(membership)).expect("membership");
    let set = normal(command(1, 1, "put k v", "stored v1"));
    drive(&mut tablet, &mut store, 2, &set).expect("set");
    let image = tablet.encode_snapshot(store.entries(), false, &Vec::new());
    let tapes = tapes_of(&image, ns(), tablet_id(), OutcomeKind::Completed);
    let decoded =
        ReplicatedTablet::decode_snapshot(&image, ns(), tablet_id(), control_id(), &tapes)
            .expect("decodes");
    assert_eq!(decoded.applied.map(|pointer| pointer.index), Some(2));
    assert_eq!(decoded.objects.len(), 1);
    assert_eq!(decoded.sessions.len(), 1);
    // Re-encoding the installed state is byte-identical (sorted,
    // deterministic).
    let mut rebuilt = ReplicatedTablet::new(ns(), tablet_id(), authority(), control_id());
    let (objects, intents, ordered) = rebuilt.install_decoded(decoded).expect("tablet snapshot");
    let objects = objects.into_iter().map(keyed).collect();
    assert_eq!(rebuilt.encode_snapshot(objects, ordered, &intents), image);
    // Foreign identity fails loudly, never cross-installs.
    assert!(matches!(
        ReplicatedTablet::decode_snapshot(&image, ns(), TabletId::from_u64(10), control_id(), &tapes),
        Err(SnapshotHalt::Misrouted { .. })
    ));
    // Corrupt bytes fail loudly.
    let mut damaged = image.clone();
    damaged[10] ^= 0xFF;
    assert!(
        ReplicatedTablet::decode_snapshot(&damaged, ns(), tablet_id(), control_id(), &tapes)
            .is_err(),
        "CRC must catch damage"
    );
    // The recorded outcome survives: a retry on the rebuilt replica is a hit.
    assert_eq!(
        rebuilt.check_proposal(
            SessionId::from_u128(1),
            RequestSeq::from_u64(1),
            RequestSeq::from_u64(0)
        ),
        Ok(ProposalGate::Hit { outcome: b"stored v1".to_vec() })
    );
}

#[test]
fn snapshot_round_trips_intents_and_ordered_flag() {
    let mut tablet = tablet();
    let mut store = Store::default();
    drive(&mut tablet, &mut store, 0, &EntryPayload::Blank).expect("blank");
    let intent = TxnIntent {
        id: 77,
        coordinator: tablet_id(),
        key: b"k".to_vec(),
        expect: vec![0],
        write: vec![1, b'v'],
        digest: [0xD1; 32],
        observed: None,
        prepared_at: NOW,
    };
    let image = tablet.encode_snapshot(Vec::new(), true, &vec![intent]);
    let tapes = tapes_of(&image, ns(), tablet_id(), OutcomeKind::Completed);
    assert_eq!(tapes.intents.len(), 1);
    let decoded =
        ReplicatedTablet::decode_snapshot(&image, ns(), tablet_id(), control_id(), &tapes)
            .expect("decodes");
    assert!(decoded.ordered_index);
    assert_eq!(decoded.intents.len(), 1);
    assert_eq!(decoded.intents[0].id, 77);
    assert_eq!(decoded.intents[0].digest, [0xD1; 32]);
    // Install hands intents back verbatim, with the flag of the index.
    let mut rebuilt = ReplicatedTablet::new(ns(), tablet_id(), authority(), control_id());
    let (_, intents, ordered) = rebuilt.install_decoded(decoded).expect("tablet snapshot");
    assert!(ordered);
    assert_eq!(intents.len(), 1);
}

fn machine() -> ReplicatedStateMachine {
    let (machine, parts) =
        ReplicatedStateMachine::open(ns(), tablet_id(), authority(), control_id(), None, None)
            .expect("opens");
    assert!(parts.is_none());
    machine
}

fn step(
    machine: &mut ReplicatedStateMachine,
    store: &mut Store,
    index: u64,
    payload: &EntryPayload,
) -> Result<ReplicatedOutcome, ServeFault> {
    let done = match machine.plan_entry(index, payload) {
        Ok(step) => executed(&step, payload, store),
        Err(_) => Executed::Nothing,
    };
    machine.apply(log_id(index), payload, done)
}

fn counter_entry(seq: u64, delta: i64, value: i64, version: u64) -> EntryPayload {
    normal(command(1, seq, &format!("add n {delta}"), &format!("counter {value} v{version}")))
}

fn seeded() -> (ReplicatedStateMachine, Store) {
    let mut machine = machine();
    let mut store = Store::default();
    assert_eq!(machine.tablet().applied(), None);
    let membership = members(&[(1, "n1")]);
    step(&mut machine, &mut store, 0, &EntryPayload::Membership(membership)).expect("applies");
    step(&mut machine, &mut store, 1, &EntryPayload::Blank).expect("applies");
    step(&mut machine, &mut store, 2, &counter_entry(1, 10, 10, 1)).expect("applies");
    step(&mut machine, &mut store, 3, &counter_entry(2, 20, 30, 2)).expect("applies");
    assert_eq!(store.counter("n"), Some(30));
    (machine, store)
}

fn written(writes: &[SealWrite]) -> (String, Vec<u8>, Vec<u8>, String) {
    assert_eq!(writes.len(), 3);
    let name = match &writes[0].target {
        SealTarget::Image(name) => name.clone(),
        other => panic!("image comes first, got {other:?}"),
    };
    assert_eq!(writes[1].target, SealTarget::Applied);
    assert_eq!(writes[2].target, SealTarget::Current);
    let current = String::from_utf8(writes[2].bytes.clone()).expect("a name");
    (name, writes[0].bytes.clone(), writes[1].bytes.clone(), current)
}

#[test]
fn state_machine_applies_and_seals_snapshot() {
    let (mut machine, store) = seeded();
    let status = machine.status();
    assert_eq!(status.applied_index, Some(3));
    assert!(status.healthy);
    let (sealed, plan) = machine.start_seal(store.entries(), false, &Vec::new());
    assert_eq!(sealed.last_log_id.map(|id| id.index), Some(3));
    let (name, image, _, current) = written(&plan.expect("a plan"));
    assert_eq!(name, snapshot_file_name(3, 1));
    assert_eq!(current, name);
    assert_eq!(image, sealed.image);
    machine.finish_seal(&sealed, None);
    assert_eq!(machine.snapshotted_index(), Some(3));
    assert_eq!(machine.current_snapshot().expect("sealed").image, image);
}

#[test]
fn state_machine_recovers_through_snapshot_plus_replay() {
    let (mut machine, mut store) = seeded();
    let (sealed, plan) = machine.start_seal(store.entries(), false, &Vec::new());
    let (_, image, applied, _) = written(&plan.expect("a plan"));
    machine.finish_seal(&sealed, None);
    step(&mut machine, &mut store, 4, &counter_entry(3, 5, 35, 3)).expect("applies");
    drop(machine);
    // Reopen: base 3 durable, tail (4) replays from the log.
    let tapes = tapes_of(&image, ns(), tablet_id(), OutcomeKind::Completed);
    let (mut reopened, parts) = ReplicatedStateMachine::open(
        ns(),
        tablet_id(),
        authority(),
        control_id(),
        Some((image, tapes)),
        Some(&applied),
    )
    .expect("reopens");
    assert_eq!(reopened.tablet().applied().map(|id| id.index), Some(3));
    assert!(reopened.member_voters().contains(&NodeId::from_u64(1)));
    let mut restored = Store::restore(parts.expect("objects").0);
    step(&mut reopened, &mut restored, 4, &counter_entry(3, 5, 35, 3)).expect("applies");
    assert_eq!(restored.counter("n"), Some(35));
}

#[test]
fn open_adopts_unlinked_snapshot_image() {
    let mut machine = machine();
    let mut store = Store::default();
    let put = normal(command(1, 1, "put k v", "stored v1"));
    step(&mut machine, &mut store, 0, &put).expect("applies");
    let (sealed, plan) = machine.start_seal(store.entries(), false, &Vec::new());
    let (name, image, applied, _) = written(&plan.expect("a plan"));
    machine.finish_seal(&sealed, None);
    assert_eq!(machine.snapshotted_index(), Some(0));
    // The crash window: no current name, image and applied file intact.
    let named = applied_snapshot_name(&applied);
    assert_eq!(named, Some(name.clone()));
    assert_eq!(choose_snapshot(None, named, true), Some(name));
    let tapes = tapes_of(&image, ns(), tablet_id(), OutcomeKind::Completed);
    let (reopened, parts) = ReplicatedStateMachine::open(
        ns(),
        tablet_id(),
        authority(),
        control_id(),
        Some((image, tapes)),
        Some(&applied),
    )
    .expect("reopens");
    assert_eq!(reopened.tablet().applied().map(|id| id.index), Some(0));
    let restored = Store::restore(parts.expect("objects").0);
    assert_eq!(restored.objects["k"].1, Some("v".to_owned()));
}

#[test]
fn snapshot_failure_poisions_and_install_heals() {
    let mut machine = machine();
    let mut store = Store::default();
    let put = normal(command(1, 1, "put k v", "stored v1"));
    step(&mut machine, &mut store, 0, &put).expect("applies");
    machine.set_snapshot_write_failure(true);
    let (_, plan) = machine.start_seal(store.entries(), false, &Vec::new());
    assert!(plan.is_none());
    let status = machine.status();
    assert!(!status.healthy, "failed seal poisons");
    assert_eq!(status.last_error, Some(MachineFault::InjectedWriteFailure));
    assert!(machine.read_local(PreparedRead::Read(b"v".to_vec())).is_err());
    // Heal with a validated install of the good image.
    machine.set_snapshot_write_failure(false);
    let image = machine.tablet().encode_snapshot(store.entries(), false, &Vec::new());
    let tapes = tapes_of(&image, ns(), tablet_id(), OutcomeKind::Completed);
    let (snapshot, _) = machine.plan_install(&image, &tapes).expect("checks");
    let (sealed, _) = machine.start_seal(store.entries(), false, &Vec::new());
    machine.finish_install(snapshot, sealed, None).expect("install heals");
    assert!(machine.status().healthy);
    assert_eq!(machine.status().last_error, None);
    assert_eq!(machine.read_local(PreparedRead::Read(b"v".to_vec())), Ok(b"v".to_vec()));
    assert_eq!(machine.read_local(PreparedRead::Write), Err(ServeFault::NotARead));
}

#[test]
fn answers_skip_sessions_without_outcomes() {
    // The first session holds no outcome, so that the first question is for the second.
    let mut tablet = tablet();
    let session = |id: u128, outcomes: Vec<RetainedOutcome>| SessionEntry {
        session: SessionId::from_u128(id),
        state: SessionState::from_parts(RequestSeq::from_u64(4), outcomes),
    };
    let outcome = RetainedOutcome {
        seq: RequestSeq::from_u64(5),
        commit: commit_of_index(3),
        opcode: 1,
        outcome: DurableOutcome { kind: OutcomeKind::Rejected, bytes: vec![1, 2] },
    };
    tablet.install_topology_copy(vec![session(1, Vec::new()), session(2, vec![outcome])]);
    let image = tablet.encode_snapshot(Vec::new(), false, &Vec::new());
    let tapes = tapes_of(&image, ns(), tablet_id(), OutcomeKind::Rejected);
    assert_eq!(tapes.sessions, vec![vec![], vec![Some(OutcomeKind::Rejected)]]);
    let decoded =
        ReplicatedTablet::decode_snapshot(&image, ns(), tablet_id(), control_id(), &tapes)
            .expect("decodes");
    assert_eq!(decoded.sessions, tablet.export_topology_copy());
}

#[test]
fn installs_refuse_stale_and_foreign_generations() {
    let (mut machine, store) = seeded();
    let mut behind = tablet();
    let mut other = Store::default();
    drive(&mut behind, &mut other, 1, &EntryPayload::Blank).expect("applies");
    let image = behind.encode_snapshot(Vec::new(), false, &Vec::new());
    let none = SnapshotTapes::blank();
    assert!(matches!(
        machine.plan_install(&image, &none),
        Err(MachineFault::StaleSnapshot { base: 1, applied: 3 })
    ));
    assert!(!machine.status().healthy);

    let (mut machine, _) = seeded();
    let elsewhere = ReplicatedTablet::new(
        ns(),
        tablet_id(),
        TabletAuthority::new(
            tablet_id(),
            TabletEpoch::from_u64(2),
            WriteGuardGeneration::initial(),
        ),
        control_id(),
    );
    let image = elsewhere.encode_snapshot(Vec::new(), false, &Vec::new());
    assert_eq!(
        machine.plan_install(&image, &none).expect_err("fenced"),
        MachineFault::Authority {
            epoch: TabletEpoch::from_u64(2),
            guard: WriteGuardGeneration::initial(),
        }
    );
    // A piece that was not read yet is no failure.
    let (mut machine, _) = seeded();
    let image = machine.tablet().encode_snapshot(store.entries(), false, &Vec::new());
    assert!(matches!(
        machine.plan_install(&image, &none),
        Err(MachineFault::Image(SnapshotHalt::Pending { piece: Piece::Key, .. }))
    ));
    assert!(machine.status().healthy);
    assert_eq!(
        ReplicatedStateMachine::open(
            ns(),
            tablet_id(),
            TabletAuthority::new(
                tablet_id(),
                TabletEpoch::from_u64(5),
                WriteGuardGeneration::initial(),
            ),
            control_id(),
            Some((behind.encode_snapshot(Vec::new(), false, &Vec::new()), none)),
            None,
        )
        .expect_err("identity"),
        StateMachineOpenError::Identity {
            epoch: TabletEpoch::initial(),
            guard: WriteGuardGeneration::initial(),
        }
    );
}

#[test]
fn failures_latch_until_healed() {
    let (mut machine, mut store) = seeded();
    let lying = normal(command(1, 3, "add n 1", "counter 999 v3"));
    assert!(matches!(
        step(&mut machine, &mut store, 4, &lying),
        Err(ServeFault::Failed(MachineFault::Apply(StateMachineFault::Divergence {
            index: 4,
            ..
        })))
    ));
    assert!(matches!(
        step(&mut machine, &mut store, 5, &EntryPayload::Blank),
        Err(ServeFault::Unhealthy(Some(MachineFault::Apply(StateMachineFault::Divergence {
            index: 4,
            ..
        }))))
    ));
    assert_eq!(machine.status().applied_index, Some(3));
    machine.mark_unhealthy("sidecar missing".to_owned());
    let reason = MachineFault::Reported("sidecar missing".to_owned());
    assert_eq!(machine.status().last_error, Some(reason.clone()));
    assert_eq!(machine.peek_base(None), Err(ServeFault::Unhealthy(Some(reason.clone()))));
    assert_eq!(
        machine.read_local(PreparedRead::Read(Vec::new())),
        Err(ServeFault::Unhealthy(Some(reason)))
    );
    assert_eq!(machine.scan_local(Ok(Vec::new())), Err(ServeFault::NoScan));
}

#[test]
fn reads_and_scans_say_what_failed() {
    let (machine, _) = seeded();
    assert_eq!(machine.scan_local(Ok(vec![7])), Ok(vec![7]));
    assert_eq!(
        machine.scan_local(Err("bad bounds".to_owned())),
        Err(ServeFault::Scan("local scan failed: bad bounds".to_owned()))
    );
    assert_eq!(
        machine.read_local(PreparedRead::Rejected("wrong type".to_owned())),
        Err(ServeFault::Failed(MachineFault::Apply(StateMachineFault::ApplyFailed {
            index: 3,
            detail: "local read rejected: wrong type".to_owned(),
        })))
    );
}

#[test]
fn installs_record_what_the_snapshot_was_captured_at() {
    let (source, store) = seeded();
    let image = source.tablet().encode_snapshot(store.entries(), false, &Vec::new());
    let tapes = tapes_of(&image, ns(), tablet_id(), OutcomeKind::Completed);
    let mut target = machine();
    let (_, writes) = target.plan_install(&image, &tapes).expect("checks");
    assert_eq!(writes.len(), 3);
    let body =
        unframe_image(&writes[1].bytes, APPLIED_MAGIC, APPLIED_VERSION).expect("sound");
    let file = decode_applied_file_body(body).expect("reads");
    assert_eq!(file.applied, source.tablet().applied());
    assert_eq!(&file.membership, source.tablet().membership());
    assert_ne!(&file.membership, target.tablet().membership());
}

#[test]
fn copies_carry_the_sessions_over() {
    let (source, _) = seeded();
    let mut target = machine();
    let copy = source.export_topology_copy();
    assert!(!copy.is_empty());
    target.install_topology_copy(copy);
    assert_eq!(target.export_topology_copy(), source.export_topology_copy());
    assert_eq!(target.tablet().applied(), None);
    assert!(matches!(
        target.check_proposal(
            SessionId::from_u128(1),
            RequestSeq::from_u64(1),
            RequestSeq::from_u64(0),
        ),
        Ok(ProposalGate::Hit { .. })
    ));
}

#[test]
fn changing_groups_keep_both_sets_of_voters() {
    let node = |id: u64| NodeId::from_u64(id);
    let nodes = || {
        [1, 2, 3]
            .iter()
            .map(|id| Member { node: node(*id), addr: format!("n{id}") })
            .collect::<Vec<Member>>()
    };
    let joint = StoredMembership::join(
        &vec![vec![node(2), node(1)], vec![node(3), node(2)]],
        nodes(),
        None,
    )
    .expect("joins");
    assert_eq!(joint.configs, vec![vec![node(1), node(2)], vec![node(2), node(3)]]);
    assert_eq!(joint.voters(), vec![node(1), node(2), node(3)]);
    let mut machine = machine();
    let mut store = Store::default();
    step(&mut machine, &mut store, 0, &EntryPayload::Membership(joint.clone())).expect("applies");
    assert_eq!(machine.tablet().membership().configs, joint.configs);
    assert_eq!(machine.member_voters(), joint.voters());
    let (sealed, _) = machine.start_seal(store.entries(), false, &Vec::new());
    assert_eq!(sealed.membership.configs, joint.configs);
    // The bytes tell one set of everyone who votes.
    let tapes = tapes_of(&sealed.image, ns(), tablet_id(), OutcomeKind::Completed);
    let decoded =
        ReplicatedTablet::decode_snapshot(&sealed.image, ns(), tablet_id(), control_id(), &tapes)
            .expect("decodes");
    assert_eq!(decoded.membership.configs, vec![joint.voters()]);
    assert_eq!(decoded.membership.nodes, joint.nodes);

    assert_eq!(
        StoredMembership::join(&vec![vec![node(1)], Vec::new()], nodes(), None),
        Err(ImageFault::BadAddress)
    );
    assert_eq!(
        StoredMembership::join(&vec![vec![node(1)], vec![node(9)]], nodes(), None),
        Err(ImageFault::BadAddress)
    );
    assert_eq!(
        StoredMembership::join(&Vec::new(), Vec::new(), Some(log_id(1))),
        Ok(StoredMembership::none())
    );
}

#[test]
fn open_takes_members_from_the_applied_file() {
    let membership = members(&[(1, "n1"), (2, "n2")]);
    let body = encode_applied_file_body(Some(log_id(7)), &membership, "");
    let file = frame_image(APPLIED_MAGIC, APPLIED_VERSION, &body);
    assert_eq!(applied_snapshot_name(&file), None);
    let (machine, _) =
        ReplicatedStateMachine::open(ns(), tablet_id(), authority(), control_id(), None, Some(&file))
            .expect("opens");
    assert_eq!(machine.member_voters(), vec![NodeId::from_u64(1), NodeId::from_u64(2)]);
    assert_eq!(machine.tablet().applied(), None);
    let mut torn = file;
    torn.pop();
    assert!(matches!(
        ReplicatedStateMachine::open(ns(), tablet_id(), authority(), control_id(), None, Some(&torn)),
        Err(StateMachineOpenError::Applied(_))
    ));
}

#[test]
fn cutover_fences_are_plain_flags() {
    let mut machine = machine();
    assert!(!machine.is_fenced());
    machine.set_fenced(true);
    assert!(machine.is_fenced());
    assert_eq!(machine.peek_base(Some(&LogicalValue::Bytes(vec![1]))), Ok(RangeBase::Inline));
    assert_eq!(machine.peek_base(Some(&LogicalValue::Chunked(vec![1]))), Ok(RangeBase::Chunked));
    assert_eq!(machine.peek_base(Some(&LogicalValue::StrictCounter(1))), Ok(RangeBase::NonBytes));
    assert_eq!(machine.peek_base(None), Ok(RangeBase::Absent));
}

#[test]
fn groups_take_only_their_own_commands() {
    let mut tablet = tablet();
    let mut store = Store::default();
    let control = EntryPayload::Normal(ConsensusCommand::Control(vec![1]));
    assert!(matches!(
        drive(&mut tablet, &mut store, 0, &control),
        Err(StateMachineFault::WrongGroup { tablet: 9, index: 0 })
    ));
    let fence = EntryPayload::Normal(ConsensusCommand::ReadSync { tablet: tablet_id() });
    assert_eq!(drive(&mut tablet, &mut store, 0, &fence), Ok(ReplicatedOutcome::none()));
    let foreign =
        EntryPayload::Normal(ConsensusCommand::ReadSync { tablet: TabletId::from_u64(10) });
    assert!(matches!(
        drive(&mut tablet, &mut store, 1, &foreign),
        Err(StateMachineFault::Misrouted { tablet: 10, expected_tablet: 9, .. })
    ));

    let mut system = ReplicatedTablet::new(
        ns(),
        control_id(),
        TabletAuthority::new(control_id(), TabletEpoch::initial(), WriteGuardGeneration::initial()),
        control_id(),
    );
    assert!(system.is_control());
    assert_eq!(system.plan_entry(0, &control), Ok(EntryStep::ExecuteControl));
    system
        .apply_entry(log_id(1), &control, Executed::Controlled(vec![7, 7]))
        .expect("control applies");
    assert_eq!(system.control(), &vec![7, 7]);
    assert_eq!(
        system.apply_entry(log_id(2), &control, Executed::ControlRefused("stale".to_owned())),
        Err(StateMachineFault::ControlRejected { index: 2, detail: "stale".to_owned() })
    );
    assert_eq!(system.applied(), Some(log_id(1)));
    assert!(matches!(
        system.plan_entry(2, &normal(command(1, 1, "del k", "deleted false"))),
        Err(StateMachineFault::WrongGroup { .. })
    ));

    // Control images have a kind of their own.
    let image = system.encode_snapshot(Vec::new(), false, &Vec::new());
    let mut tapes = SnapshotTapes::blank();
    assert!(matches!(
        ReplicatedTablet::decode_snapshot(&image, ns(), control_id(), control_id(), &tapes),
        Err(SnapshotHalt::Pending { piece: Piece::Control, .. })
    ));
    tapes.control = Some(false);
    assert_eq!(
        ReplicatedTablet::decode_snapshot(&image, ns(), control_id(), control_id(), &tapes),
        Err(SnapshotHalt::Corrupt(SnapshotFlaw::ControlImage))
    );
    tapes.control = Some(true);
    let decoded =
        ReplicatedTablet::decode_snapshot(&image, ns(), control_id(), control_id(), &tapes)
            .expect("decodes");
    assert_eq!(decoded.control, Some(vec![7, 7]));
    assert!(matches!(
        ReplicatedTablet::decode_snapshot(&image, ns(), tablet_id(), control_id(), &tapes),
        Err(SnapshotHalt::Corrupt(SnapshotFlaw::Framing(ImageFault::BadMagic { .. })))
    ));
    let mut rebuilt = ReplicatedTablet::new(
        ns(),
        control_id(),
        TabletAuthority::new(control_id(), TabletEpoch::initial(), WriteGuardGeneration::initial()),
        control_id(),
    );
    assert!(rebuilt.install_decoded(decoded).is_none());
    assert_eq!(rebuilt.encode_snapshot(Vec::new(), false, &Vec::new()), image);
}

#[test]
fn anonymous_commands_never_collide() {
    let mut tablet = tablet();
    let mut store = Store::default();
    let first = normal(command(0, 0, "add n 1", "counter 1 v1"));
    drive(&mut tablet, &mut store, 0, &first).expect("applies");
    let second = normal(command(0, 0, "add n 1", "counter 2 v2"));
    drive(&mut tablet, &mut store, 1, &second).expect("applies again");
    assert_eq!(store.counter("n"), Some(2));
    assert!(tablet.session(SessionId::from_u128(0)).is_none());
}

#[test]
fn proposals_are_gated_by_floor_window_and_retention() {
    let mut tablet = tablet();
    let mut store = Store::default();
    let session = SessionId::from_u128(4);
    let none = RequestSeq::from_u64(0);
    assert_eq!(
        tablet.check_proposal(session, RequestSeq::from_u64(1), none),
        Ok(ProposalGate::Admit)
    );
    for seq in 1..=SESSION_OUTCOME_CAP as u64 {
        let entry = normal(command(4, seq, "del k", "deleted false"));
        drive(&mut tablet, &mut store, seq, &entry).expect("applies");
    }
    let next = RequestSeq::from_u64(SESSION_OUTCOME_CAP as u64 + 1);
    assert_eq!(tablet.check_proposal(session, next, none), Ok(ProposalGate::Overloaded));
    let over = normal(command(4, next.as_u64(), "del k", "deleted false"));
    assert!(matches!(
        tablet.plan_entry(2_000, &over),
        Err(StateMachineFault::SessionOverloaded { session: 4, index: 2_000 })
    ));
    // An acknowledgement that comes along frees its outcomes first.
    assert_eq!(
        tablet.check_proposal(session, next, RequestSeq::from_u64(1)),
        Ok(ProposalGate::Admit)
    );
    assert_eq!(
        tablet.check_proposal(session, RequestSeq::from_u64(3), RequestSeq::from_u64(3)),
        Ok(ProposalGate::Expired)
    );
    assert_eq!(
        tablet.check_proposal(session, RequestSeq::from_u64(3), none),
        Ok(ProposalGate::Hit { outcome: b"deleted false".to_vec() })
    );
    // A retained outcome that did not complete is corruption.
    tablet.install_topology_copy(vec![SessionEntry {
        session,
        state: SessionState::from_parts(
            none,
            vec![RetainedOutcome {
                seq: RequestSeq::from_u64(8),
                commit: commit_of_index(1),
                opcode: 1,
                outcome: DurableOutcome { kind: OutcomeKind::Rejected, bytes: Vec::new() },
            }],
        ),
    }]);
    assert_eq!(
        tablet.check_proposal(session, RequestSeq::from_u64(8), none),
        Err(StateMachineFault::CorruptState { session: 4, seq: 8 })
    );
    // A retry that expects something else than history says is divergence.
    let mut other = ReplicatedTablet::new(ns(), tablet_id(), authority(), control_id());
    drive(&mut other, &mut store, 0, &normal(command(4, 1, "del k", "deleted false")))
        .expect("applies");
    assert!(matches!(
        other.plan_entry(1, &normal(command(4, 1, "del k", "deleted true"))),
        Err(StateMachineFault::DedupDivergence { index: 1, .. })
    ));
    let copy = other.export_topology_copy();
    assert_eq!(copy.len(), 1);
    assert_eq!(copy[0].state.outcomes().len(), 1);
}

#[test]
fn store_refusals_are_faults() {
    let mut tablet = tablet();
    let mut store = Store::default();
    let bad = normal(command(1, 1, "what", "stored v1"));
    assert_eq!(
        drive(&mut tablet, &mut store, 3, &bad),
        Err(StateMachineFault::ApplyFailed {
            index: 3,
            detail: "unknown mutation what".to_owned(),
        })
    );
}

#[test]
fn floors_drop_what_was_acknowledged() {
    let mut state = SessionState::default();
    assert_eq!(state.floor(), RequestSeq::from_u64(0));
    let retained = |seq: u64| RetainedOutcome {
        seq: RequestSeq::from_u64(seq),
        commit: commit_of_index(seq),
        opcode: 1,
        outcome: DurableOutcome { kind: OutcomeKind::Completed, bytes: vec![seq as u8] },
    };
    state = SessionState::from_parts(state.floor(), vec![retained(3), retained(1), retained(2)]);
    assert_eq!(state.outcomes()[0].seq, RequestSeq::from_u64(1));
    state.advance_floor(RequestSeq::from_u64(2));
    assert_eq!(state.outcomes().len(), 1);
    state.advance_floor(RequestSeq::from_u64(1));
    assert_eq!(state.floor(), RequestSeq::from_u64(2));
}

#[test]
fn images_carry_the_checksum_of_their_body() {
    // The documented CRC-32C of this text.
    let image = frame_image(7, 3, b"Hello world!");
    assert_eq!(image[..6], [7, 0, 0, 0, 3, 0]);
    assert_eq!(image[18..], 0x7B98_E751u32.to_le_bytes());
    assert_eq!(frame_with(7, 3, b"Hello world!", 0x7B98_E751), image);
    assert_eq!(unframe_image(&image, 7, 3), Ok(&b"Hello world!"[..]));
    assert_eq!(unframe_with(&image, 7, 3, 0x7B98_E751), Ok(&b"Hello world!"[..]));
    assert_eq!(unframe_image(&image[..9], 7, 3), Err(ImageFault::Truncated));
    assert_eq!(unframe_image(&image, 8, 3), Err(ImageFault::BadMagic { found: 7 }));
    assert_eq!(unframe_image(&image, 7, 4), Err(ImageFault::UnsupportedVersion { found: 3 }));
    let mut damaged = image;
    damaged[8] ^= 1;
    assert!(matches!(
        unframe_image(&damaged, 7, 3),
        Err(ImageFault::BadCrc { found: 0x7B98_E751, .. })
    ));
}

#[test]
fn applied_files_round_trip_and_name_their_faults() {
    let mut membership = members(&[(1, "n1"), (3, "n3")]);
    membership.log_id = Some(log_id(4));
    let body = encode_applied_file_body(Some(log_id(9)), &membership, "snapshot-x");
    let file = decode_applied_file_body(&body).expect("decodes");
    assert_eq!(file.applied, Some(log_id(9)));
    assert_eq!(file.membership, membership);
    assert_eq!(file.snapshot, "snapshot-x");
    let ((applied, _), used) = decode_applied_prefix(&body).expect("prefix");
    assert_eq!(applied, Some(log_id(9)));
    assert_eq!(used + 4 + "snapshot-x".len(), body.len());
    assert_eq!(decode_applied_file_body(&[]), Err(ImageFault::Truncated));
    assert_eq!(decode_applied_file_body(&[2]), Err(ImageFault::BadValueTag { tag: 2 }));
    assert_eq!(decode_applied_file_body(&[1, 0]), Err(ImageFault::Truncated));
    let mut trailed = body.clone();
    trailed.push(0);
    assert_eq!(decode_applied_file_body(&trailed), Err(ImageFault::TrailingBytes));
    let mut bad_name = body.clone();
    let last = bad_name.len() - 1;
    bad_name[last] = 0xFF;
    assert_eq!(decode_applied_file_body(&bad_name), Err(ImageFault::BadAddress));
    let mut many = vec![0u8, 0u8];
    many.extend_from_slice(&1_000u64.to_le_bytes());
    assert_eq!(
        decode_applied_file_body(&many),
        Err(ImageFault::Oversized { len: 8_000 })
    );
    // A voter without a node makes no group.
    assert_eq!(
        StoredMembership::assemble(&vec![NodeId::from_u64(1)], Vec::new(), None),
        Err(ImageFault::BadAddress)
    );
    assert_eq!(
        StoredMembership::assemble(&Vec::new(), Vec::new(), Some(log_id(1))),
        Ok(StoredMembership::none())
    );
}

#[test]
fn objects_round_trip_and_name_their_faults() {
    let values = vec![
        (LogicalValue::Bytes(b"abc".to_vec()), 0),
        (LogicalValue::StrictCounter(-7), 0),
        (LogicalValue::CommutativeCounter(i64::MIN), 0),
        (LogicalValue::Chunked(vec![1, 2, 3]), 1),
        (LogicalValue::Fabric(vec![4]), 1),
        (LogicalValue::BoundedCounter(vec![5, 6]), 1),
        (LogicalValue::Semaphore(vec![7]), 1),
        (LogicalValue::Lease(vec![8, 9]), 1),
        (LogicalValue::StreamShard(vec![]), 1),
    ];
    for (value, pieces) in values {
        let object = StoredObject { value: value.clone(), version: vec![1; 8], expiry: vec![0] };
        let mut bytes = Vec::new();
        encode_object(&mut bytes, &object);
        let mut readings = Vec::new();
        if pieces == 1 {
            let own = bytes.len() - 1 - 8 - 1;
            readings.push(Reading::Good { len: own });
        }
        readings.push(Reading::Good { len: 8 });
        readings.push(Reading::Good { len: 1 });
        let (back, used) = decode_object(&bytes, 0, &readings, 0).expect("decodes");
        assert_eq!(back, object);
        assert_eq!(used, bytes.len());
        // Without the last reading the expiry is still to be read.
        readings.pop();
        assert_eq!(
            decode_object(&bytes, 0, &readings, 0),
            Err(ObjectHalt::Pending { piece: Piece::Expiry, at: bytes.len() - 1 })
        );
    }
    let none: Vec<Reading> = Vec::new();
    assert_eq!(decode_object(&[], 0, &none, 0), Err(ObjectHalt::Fault(ImageFault::Truncated)));
    assert_eq!(
        decode_object(&[99], 0, &none, 0),
        Err(ObjectHalt::Fault(ImageFault::BadValueTag { tag: 99 }))
    );
    assert_eq!(
        decode_object(&[1, 9, 0, 0, 0], 0, &none, 0),
        Err(ObjectHalt::Fault(ImageFault::BadBytes))
    );
    assert_eq!(
        decode_object(&[2], 0, &vec![Reading::Bad], 0),
        Err(ObjectHalt::Fault(ImageFault::BadChunkedRef))
    );
    assert_eq!(
        decode_object(&[9], 0, &vec![Reading::Bad], 0),
        Err(ObjectHalt::Fault(ImageFault::BadFabricRef))
    );
    assert_eq!(
        decode_object(&[5], 0, &vec![Reading::Unsound { len: 0 }], 0),
        Err(ObjectHalt::Fault(ImageFault::BadValueTag { tag: VALUE_BOUNDED }))
    );
    let counter = [3u8, 1, 0, 0, 0, 0, 0, 0, 0];
    assert_eq!(
        decode_object(&counter, 0, &vec![Reading::Bad], 0),
        Err(ObjectHalt::Fault(ImageFault::BadVersion))
    );
    assert_eq!(
        decode_object(&counter, 0, &vec![Reading::Good { len: 0 }, Reading::Bad], 0),
        Err(ObjectHalt::Fault(ImageFault::BadExpiry))
    );
}

#[test]
fn objects_are_sorted_by_key() {
    let entry = |key: &str| KeyedEntry {
        raw: key.as_bytes().to_vec(),
        entry: ObjectEntry {
            key: key.as_bytes().to_vec(),
            object: StoredObject {
                value: LogicalValue::Chunked(key.as_bytes().to_vec()),
                version: vec![1],
                expiry: vec![0],
            },
        },
    };
    let sorted = sort_entries(vec![entry("b"), entry("ab"), entry("a"), entry("c")]);
    let keys: Vec<&[u8]> = sorted.iter().map(|entry| entry.key.as_slice()).collect();
    assert_eq!(keys, vec![&b"a"[..], &b"ab"[..], &b"b"[..], &b"c"[..]]);
    // A state has one image, in whichever order its objects come.
    let tablet = tablet();
    let image = tablet.encode_snapshot(
        vec![entry("b"), entry("ab"), entry("a")],
        false,
        &Vec::new(),
    );
    assert_eq!(
        image,
        tablet.encode_snapshot(vec![entry("a"), entry("b"), entry("ab")], false, &Vec::new())
    );
    let (sealed, _) =
        machine().start_seal(vec![entry("ab"), entry("a"), entry("b")], false, &Vec::new());
    assert_eq!(sealed.image, image);
    let roots = chunked_roots(&sorted);
    assert_eq!(roots.len(), 4);
    assert_eq!(roots[1], b"ab".to_vec());
}

#[test]
fn snapshot_names_sort_as_their_bases_do() {
    assert_eq!(
        snapshot_file_name(3, 1),
        "snapshot-00000000000000000003-00000000000000000001.bin"
    );
    assert!(snapshot_file_name(9, 5) < snapshot_file_name(10, 1));
    assert!(snapshot_file_name(10, 1) < snapshot_file_name(10, 2));
    assert_eq!(
        snapshot_file_name(u64::MAX, 0),
        "snapshot-18446744073709551615-00000000000000000000.bin"
    );
}

fn group_a() -> ConsensusGroupId {
    ConsensusGroupId::of_tablet(tablet_id())
}

fn record(change: RaftChange) -> RaftRecord {
    RaftRecord { namespace: ns(), group: group_a(), change }
}

fn log_entry(index: u64, term: u64, leader: u64, command: u8) -> LogEntry {
    LogEntry {
        id: AppliedPointer::new(term, leader, index),
        payload: LogPayload::Normal(vec![command]),
    }
}

/// Six entries, of which the last two are truncated and written anew, and the first two
/// purged, with a vote and a commit pointer.
fn divergent_history() -> Vec<RaftRecord> {
    let entry = |index: u64, term: u64, leader: u64, command: u8| {
        record(RaftChange::Entry(log_entry(index, term, leader, command)))
    };
    vec![
        entry(1, 2, 1, 1),
        entry(2, 2, 1, 2),
        entry(3, 2, 1, 3),
        entry(4, 2, 1, 99),
        entry(5, 2, 1, 100),
        record(RaftChange::Truncate { from_index: 4 }),
        entry(4, 3, 2, 4),
        entry(5, 3, 2, 5),
        record(RaftChange::Purge(AppliedPointer::new(2, 1, 2))),
        record(RaftChange::Vote(RaftVote {
            term: 3,
            candidate: NodeId::from_u64(2),
            committed: true,
        })),
        record(RaftChange::Committed(AppliedPointer::new(3, 2, 5))),
    ]
}

fn indexes(store: &DurableRaftStore) -> Vec<u64> {
    let entries = store.get_log_reader().try_get_log_entries(0, None);
    entries.iter().map(|entry| entry.id.index).collect()
}

#[test]
fn recovery_fold_rebuilds_logical_history() {
    let records = divergent_history();
    let mut seed = DurableRaftStore::open(ns(), group_a(), &Vec::new()).expect("store opens");
    for record in &records {
        seed.fold(&record.change);
    }
    let reopened = DurableRaftStore::open(ns(), group_a(), &records).expect("store opens");
    assert_eq!(reopened, seed);
    assert_eq!(indexes(&reopened), vec![3, 4, 5]);
    assert_eq!(
        reopened.get_log_reader().read_vote(),
        Some(RaftVote { term: 3, candidate: NodeId::from_u64(2), committed: true })
    );
    assert_eq!(reopened.read_committed(), Some(AppliedPointer::new(3, 2, 5)));
    assert_eq!(reopened.snapshot_base(), None);
    let state = reopened.get_log_state();
    assert_eq!(state.last_log_id.map(|id| id.index), Some(5));
    assert_eq!(state.last_purged_log_id.map(|id| id.index), Some(2));
    let entries = reopened.get_log_reader().try_get_log_entries(3, Some(6));
    assert_eq!(entries.len(), 3);
    assert_eq!(entries[1], log_entry(4, 3, 2, 4));
    // Foreign-group records on the shared lane never leak across.
    let group_b = ConsensusGroupId::of_tablet(TabletId::from_u64(10));
    let foreign = DurableRaftStore::open(ns(), group_b, &records).expect("store opens");
    assert_eq!(indexes(&foreign), Vec::<u64>::new());
    assert_eq!(foreign.get_log_state().last_log_id, None);
}

#[test]
fn foreign_namespace_rejected() {
    let seed = DurableRaftStore::open(ns(), group_a(), &Vec::new()).expect("store opens");
    let vote = RaftVote { term: 2, candidate: NodeId::from_u64(1), committed: true };
    let records = vec![seed.save_vote(vote)];
    let err = DurableRaftStore::open(NamespaceId::from_u64(2), group_a(), &records)
        .expect_err("foreign namespace refuses");
    assert!(matches!(
        err,
        StoreOpenError::NamespaceMismatch { group: 9, expected: 2, found: 1 }
    ));
}

#[test]
fn lane_failures_keep_their_reason() {
    let shared = SharedOpenError::NamespaceMismatch { group: 9, expected: 2, found: 1 };
    assert_eq!(
        StoreOpenError::of_lane(shared),
        StoreOpenError::Lane { reason: "shared lane recovery failed".to_owned() }
    );
    let lane = SharedOpenError::Lane { reason: "torn".to_owned() };
    assert_eq!(
        StoreOpenError::of_lane(lane),
        StoreOpenError::Lane { reason: "torn".to_owned() }
    );
    let lane = SharedOpenError::Lane { reason: "torn".to_owned() };
    assert_eq!(
        StoreOpenError::of_group(lane),
        StoreOpenError::Lane { reason: "torn".to_owned() }
    );
}

#[test]
fn appends_are_staged_written_or_taken_back() {
    let mut store = DurableRaftStore::open(ns(), group_a(), &Vec::new()).expect("store opens");
    let written = store.append(&vec![log_entry(0, 1, 1, 7), log_entry(1, 1, 1, 8)]);
    assert_eq!(written.len(), 2);
    assert_eq!(written[1], record(RaftChange::Entry(log_entry(1, 1, 1, 8))));
    assert_eq!(indexes(&store), vec![0, 1]);
    store.append(&vec![log_entry(2, 1, 1, 9)]);
    assert_eq!(indexes(&store), vec![0, 1, 2]);
    store.unstage(2);
    let recovered = DurableRaftStore::open(ns(), group_a(), &written).expect("store opens");
    assert_eq!(store, recovered);
}

#[test]
fn cuts_name_their_first_or_last_index() {
    let mut store = DurableRaftStore::open(ns(), group_a(), &Vec::new()).expect("store opens");
    store.append(&vec![
        log_entry(0, 1, 1, 0),
        log_entry(1, 1, 1, 1),
        log_entry(2, 1, 1, 2),
        log_entry(3, 1, 1, 3),
    ]);
    let cut = store.truncate_after(Some(AppliedPointer::new(1, 1, 2)));
    assert_eq!(cut, record(RaftChange::Truncate { from_index: 3 }));
    store.fold(&cut.change);
    assert_eq!(indexes(&store), vec![0, 1, 2]);
    let purge = store.purge(AppliedPointer::new(1, 1, 0));
    store.fold(&purge.change);
    assert_eq!(indexes(&store), vec![1, 2]);
    let committed = store.save_committed(AppliedPointer::new(1, 1, 2));
    store.fold(&committed.change);
    store.fold(&RaftChange::Snapshot(AppliedPointer::new(1, 1, 0)));
    assert_eq!(store.read_committed(), Some(AppliedPointer::new(1, 1, 2)));
    assert_eq!(store.snapshot_base(), Some(AppliedPointer::new(1, 1, 0)));
    let all = store.truncate_after(None);
    assert_eq!(all, record(RaftChange::Truncate { from_index: 0 }));
    store.fold(&all.change);
    assert_eq!(indexes(&store), Vec::<u64>::new());
    assert_eq!(store.get_log_state().last_log_id, Some(AppliedPointer::new(1, 1, 0)));
}

#[test]
fn newest_members_in_the_log_name_the_voters() {
    let mut store = DurableRaftStore::open(ns(), group_a(), &Vec::new()).expect("store opens");
    assert!(store.membership_voters().is_empty());
    let with_members = |index: u64, membership: StoredMembership| LogEntry {
        id: AppliedPointer::new(1, 1, index),
        payload: LogPayload::Membership(membership),
    };
    store.append(&vec![
        with_members(0, members(&[(1, "n1")])),
        with_members(1, members(&[(1, "n1"), (2, "n2")])),
        LogEntry { id: AppliedPointer::new(1, 1, 2), payload: LogPayload::Blank },
    ]);
    assert_eq!(store.membership_voters(), vec![NodeId::from_u64(1), NodeId::from_u64(2)]);
    store.unstage(1);
    assert_eq!(store.membership_voters(), vec![NodeId::from_u64(1)]);
}

#[test]
fn consensus_vocabulary_is_plain_data() {
    let group = ConsensusGroupId::of_tablet(tablet_id());
    assert_eq!(group.tablet(), tablet_id());
    let replica = ReplicaId::of_node(NodeId::from_u64(3));
    assert_eq!(replica.node(), NodeId::from_u64(3));
    assert_eq!(LeaderHint::known(replica).leader, Some(replica));
    assert_eq!(LeaderHint::unknown().leader, None);
    assert_eq!(ConsensusTerm::initial().get(), 0);
    assert_eq!(ConsensusLogIndex::none().get(), 0);
    assert_eq!(ConsensusTerm::new(12).render(), "term(12)");
    assert_eq!(ConsensusLogIndex::new(0).render(), "index(0)");
    assert_eq!(ReplicaRole::Candidate.render(), "candidate");
}

#[test]
fn mapping_is_stable_round_robin() {
    // 4 workers, 8 tablets: worker i owns tablets i+1, i+5.
    for tablet in 1..=8u64 {
        let worker = worker_for_tablet(TabletId::from_u64(tablet), 4);
        assert_eq!(worker, (usize::try_from(tablet).unwrap_or(usize::MAX) - 1) % 4);
    }
    assert_eq!(
        tablets_for_worker(0, 4, 8),
        vec![TabletId::from_u64(1), TabletId::from_u64(5)]
    );
    assert_eq!(
        tablets_for_worker(3, 4, 8),
        vec![TabletId::from_u64(4), TabletId::from_u64(8)]
    );
}

#[test]
fn single_worker_owns_everything() {
    assert_eq!(tablets_for_worker(0, 1, 16).len(), 16);
}

#[test]
fn extra_workers_own_nothing() {
    assert!(tablets_for_worker(7, 8, 4).is_empty());
}
