//! The durable state machine around a replicated tablet.
//!
//! The machine decides what is written and in which order, what a restart adopts, when a
//! snapshot may be installed, and when the replica may serve at all. Whatever goes wrong
//! latches it unhealthy; a validated snapshot heals it. Reading and writing files, and
//! executing against the object store, is left to its owner.

use crate::consensus::applied::{
    applied_body, applied_file, decode_applied_file_body, encode_applied_file_body,
    law_applied_file_round_trip, AppliedFile, AppliedFileView, AppliedPointer,
};
use crate::consensus::image::{
    body_of, crc32c_of, frame_image, framed, law_images_read_back, unframe_image, unframed,
    ImageFault,
};
use crate::consensus::keyorder::{entries_of, in_key_order, KeyedEntry};
use crate::consensus::membership::{MembershipView, StoredMembership};
use crate::consensus::object::{range_base, base_of, LogicalValue, RangeBase, ValueView};
use crate::consensus::sections::{EntryView, ObjectEntry, SnapshotHalt, TxnIntent};
use crate::consensus::snapshot::{
    installable, snapshot_image, snapshot_of, DecodedSnapshot, SnapshotTapes, SnapshotView,
    TapesView,
};
use crate::consensus::tablet::{
    outcome_view, EntryPayload, EntryStep, Executed, FaultView, ProposalGate,
    ReplicatedOutcome, ReplicatedTablet, StateMachineFault, TabletView, TopologyCopy,
};
use crate::decimal::{law_padded_sorts, padded, power_of_ten, push_padded};
use crate::ids::{
    CommitPosition, NamespaceId, NodeId, RequestSeq, SessionId, TabletAuthority, TabletEpoch,
    TabletId, WriteGuardGeneration,
};
use crate::ranked::views;
use crate::wire::clone_bytes;
use vstd::prelude::*;
use vstd::utf8::*;

verus! {

/// Magic of applied files.
pub const APPLIED_MAGIC: u32 = 0x4153_564B;

/// Version of applied files.
pub const APPLIED_VERSION: u16 = 1;

/// What went wrong in the machine. Each of these can latch it.
#[derive(Debug, PartialEq, Eq)]
#[non_exhaustive]
pub enum MachineFault {
    /// An entry could not be applied.
    Apply(StateMachineFault),
    /// A snapshot image is corrupt or of another replica, or not read to its end yet.
    Image(SnapshotHalt),
    /// A snapshot was captured under other generations.
    Authority {
        /// Tablet generation at capture.
        epoch: TabletEpoch,
        /// Write-guard generation at capture.
        guard: WriteGuardGeneration,
    },
    /// A snapshot is older than what was applied.
    StaleSnapshot {
        /// Index that the snapshot was captured at.
        base: u64,
        /// Index applied.
        applied: u64,
    },
    /// Snapshot writes are made to fail.
    InjectedWriteFailure,
    /// A write failed, or what reached the machine was marked bad.
    Reported(String),
}

/// What a [`MachineFault`] says.
#[verifier::ext_equal]
pub enum MachineFaultView {
    Apply(FaultView),
    Image(SnapshotHalt),
    Authority { epoch: TabletEpoch, guard: WriteGuardGeneration },
    StaleSnapshot { base: u64, applied: u64 },
    InjectedWriteFailure,
    Reported(Seq<char>),
}

impl View for MachineFault {
    type V = MachineFaultView;

    open spec fn view(&self) -> MachineFaultView {
        match self {
            MachineFault::Apply(fault) => MachineFaultView::Apply(fault@),
            MachineFault::Image(halt) => MachineFaultView::Image(*halt),
            MachineFault::Authority { epoch, guard } => MachineFaultView::Authority {
                epoch: *epoch,
                guard: *guard,
            },
            MachineFault::StaleSnapshot { base, applied } => MachineFaultView::StaleSnapshot {
                base: *base,
                applied: *applied,
            },
            MachineFault::InjectedWriteFailure => MachineFaultView::InjectedWriteFailure,
            MachineFault::Reported(detail) => MachineFaultView::Reported(detail@),
        }
    }
}

/// Why the machine did not serve a request.
#[derive(Debug, PartialEq, Eq)]
#[non_exhaustive]
pub enum ServeFault {
    /// An earlier failure latched the machine: this one.
    Unhealthy(Option<MachineFault>),
    /// An earlier failure latched the machine, which serves no scan.
    NoScan,
    /// The request failed.
    Failed(MachineFault),
    /// A scan failed.
    Scan(String),
    /// A read was asked to serve a mutating operation.
    NotARead,
}

/// What a [`ServeFault`] says.
#[verifier::ext_equal]
pub enum ServeFaultView {
    Unhealthy(Option<MachineFaultView>),
    NoScan,
    Failed(MachineFaultView),
    Scan(Seq<char>),
    NotARead,
}

impl View for ServeFault {
    type V = ServeFaultView;

    open spec fn view(&self) -> ServeFaultView {
        match self {
            ServeFault::Unhealthy(reason) => ServeFaultView::Unhealthy(fault_view(*reason)),
            ServeFault::NoScan => ServeFaultView::NoScan,
            ServeFault::Failed(fault) => ServeFaultView::Failed(fault@),
            ServeFault::Scan(detail) => ServeFaultView::Scan(detail@),
            ServeFault::NotARead => ServeFaultView::NotARead,
        }
    }
}

impl Clone for StateMachineFault {
    fn clone(&self) -> (copy: Self)
        ensures
            copy@ == self@,
    {
        match self {
            StateMachineFault::Divergence { index, expected, found } => {
                StateMachineFault::Divergence {
                    index: *index,
                    expected: clone_bytes(expected),
                    found: clone_bytes(found),
                }
            },
            StateMachineFault::DedupDivergence { index, retained, expected } => {
                StateMachineFault::DedupDivergence {
                    index: *index,
                    retained: clone_bytes(retained),
                    expected: clone_bytes(expected),
                }
            },
            StateMachineFault::Misrouted {
                namespace,
                tablet,
                expected_namespace,
                expected_tablet,
            } => StateMachineFault::Misrouted {
                namespace: *namespace,
                tablet: *tablet,
                expected_namespace: *expected_namespace,
                expected_tablet: *expected_tablet,
            },
            StateMachineFault::AuthorityMismatch { found, replica } => {
                StateMachineFault::AuthorityMismatch { found: *found, replica: *replica }
            },
            StateMachineFault::ExpiredIdentity { session, seq, floor, index } => {
                StateMachineFault::ExpiredIdentity {
                    session: *session,
                    seq: *seq,
                    floor: *floor,
                    index: *index,
                }
            },
            StateMachineFault::SessionOverloaded { session, index } => {
                StateMachineFault::SessionOverloaded { session: *session, index: *index }
            },
            StateMachineFault::ApplyFailed { index, detail } => StateMachineFault::ApplyFailed {
                index: *index,
                detail: detail.clone(),
            },
            StateMachineFault::CorruptState { session, seq } => StateMachineFault::CorruptState {
                session: *session,
                seq: *seq,
            },
            StateMachineFault::ControlRejected { index, detail } => {
                StateMachineFault::ControlRejected { index: *index, detail: detail.clone() }
            },
            StateMachineFault::WrongGroup { tablet, index } => StateMachineFault::WrongGroup {
                tablet: *tablet,
                index: *index,
            },
        }
    }
}

impl Clone for MachineFault {
    fn clone(&self) -> (copy: Self)
        ensures
            copy@ == self@,
    {
        match self {
            MachineFault::Apply(fault) => MachineFault::Apply(fault.clone()),
            MachineFault::Image(halt) => MachineFault::Image(*halt),
            MachineFault::Authority { epoch, guard } => MachineFault::Authority {
                epoch: *epoch,
                guard: *guard,
            },
            MachineFault::StaleSnapshot { base, applied } => MachineFault::StaleSnapshot {
                base: *base,
                applied: *applied,
            },
            MachineFault::InjectedWriteFailure => MachineFault::InjectedWriteFailure,
            MachineFault::Reported(detail) => MachineFault::Reported(detail.clone()),
        }
    }
}

/// Optional faults, by their view.
pub open spec fn fault_view(fault: Option<MachineFault>) -> Option<MachineFaultView> {
    match fault {
        Some(fault) => Some(fault@),
        None => None,
    }
}

/// A result by the views of its value and of its fault.
pub open spec fn served_view<T: View>(result: Result<T, ServeFault>) -> Result<
    T::V,
    ServeFaultView,
> {
    match result {
        Ok(value) => Ok(value@),
        Err(fault) => Err(fault@),
    }
}

/// Why a state machine could not be opened.
#[derive(Debug, Clone, Copy, PartialEq, Eq, Structural)]
#[non_exhaustive]
pub enum StateMachineOpenError {
    /// The snapshot is corrupt or of another replica, or not read to its end yet.
    Image(SnapshotHalt),
    /// The applied file is corrupt.
    Applied(ImageFault),
    /// The snapshot was captured under other generations.
    Identity {
        /// Tablet generation at capture.
        epoch: TabletEpoch,
        /// Write-guard generation at capture.
        guard: WriteGuardGeneration,
    },
}

/// A sealed snapshot: what it was captured at, and its image.
#[derive(Debug, PartialEq, Eq)]
pub struct SealedSnapshot {
    /// Last applied entry at capture.
    pub last_log_id: Option<AppliedPointer>,
    /// Members at capture.
    pub membership: StoredMembership,
    /// The image.
    pub image: Vec<u8>,
}

/// What a [`SealedSnapshot`] says.
#[verifier::ext_equal]
pub struct SealedView {
    pub last_log_id: Option<AppliedPointer>,
    pub membership: MembershipView,
    pub image: Seq<u8>,
}

impl View for SealedSnapshot {
    type V = SealedView;

    open spec fn view(&self) -> SealedView {
        SealedView {
            last_log_id: self.last_log_id,
            membership: self.membership@,
            image: self.image@,
        }
    }
}

impl Clone for SealedSnapshot {
    fn clone(&self) -> (copy: Self)
        ensures
            copy@ == self@,
    {
        SealedSnapshot {
            last_log_id: self.last_log_id,
            membership: self.membership.clone(),
            image: clone_bytes(&self.image),
        }
    }
}

/// The name of the snapshot file for an applied base. Names sort as the bases do.
pub open spec fn file_name(index: u64, term: u64) -> Seq<char> {
    "snapshot-"@ + padded(index as nat, 20) + "-"@ + padded(term as nat, 20) + ".bin"@
}

/// Returns the name of the snapshot file for an applied base.
pub fn snapshot_file_name(index: u64, term: u64) -> (name: String)
    ensures
        name@ == file_name(index, term),
{
    let mut name: String = "snapshot-".to_owned();
    push_padded(&mut name, index, 20);
    name.append("-");
    push_padded(&mut name, term, 20);
    name.append(".bin");
    name
}

/// A file that sealing a snapshot writes.
#[derive(Debug, PartialEq, Eq)]
pub enum SealTarget {
    /// The snapshot file of this name.
    Image(String),
    /// The applied file.
    Applied,
    /// The file that names the current snapshot.
    Current,
}

/// One write of a seal.
#[derive(Debug, PartialEq, Eq)]
pub struct SealWrite {
    /// The file.
    pub target: SealTarget,
    /// Its new contents.
    pub bytes: Vec<u8>,
}

/// What a [`SealTarget`] says.
#[verifier::ext_equal]
pub enum TargetView {
    Image(Seq<char>),
    Applied,
    Current,
}

/// What a [`SealWrite`] says.
#[verifier::ext_equal]
pub struct WriteView {
    pub target: TargetView,
    pub bytes: Seq<u8>,
}

impl View for SealWrite {
    type V = WriteView;

    open spec fn view(&self) -> WriteView {
        WriteView {
            target: match self.target {
                SealTarget::Image(name) => TargetView::Image(name@),
                SealTarget::Applied => TargetView::Applied,
                SealTarget::Current => TargetView::Current,
            },
            bytes: self.bytes@,
        }
    }
}

/// The writes that seal an image, in order: the image, then the applied file that names
/// it, then the switch to it.
pub open spec fn seal_writes(
    image: Seq<u8>,
    index: u64,
    term: u64,
    applied: Option<AppliedPointer>,
    membership: MembershipView,
) -> Seq<WriteView> {
    let name = file_name(index, term);
    let body = applied_body(applied, membership, name);
    seq![
        WriteView { target: TargetView::Image(name), bytes: image },
        WriteView {
            target: TargetView::Applied,
            bytes: framed(APPLIED_MAGIC, APPLIED_VERSION, body, crc32c_of(body)),
        },
        WriteView { target: TargetView::Current, bytes: encode_utf8(name) },
    ]
}

/// The snapshot that an applied file names, if the file is sound and names one.
#[verifier::opaque]
pub open spec fn named_snapshot(applied: Seq<u8>, computed: u32) -> Option<Seq<char>> {
    match unframed(applied, APPLIED_MAGIC, APPLIED_VERSION, computed) {
        Err(_) => None,
        Ok(body) => match applied_file(body) {
            Err(_) => None,
            Ok(file) => if file.snapshot.len() == 0 {
                None
            } else {
                Some(file.snapshot)
            },
        },
    }
}

/// What an applied file says, if it is sound.
#[verifier::opaque]
pub open spec fn recorded(applied: Seq<u8>, computed: u32) -> Option<AppliedFileView> {
    match unframed(applied, APPLIED_MAGIC, APPLIED_VERSION, computed) {
        Err(_) => None,
        Ok(body) => match applied_file(body) {
            Err(_) => None,
            Ok(file) => Some(file),
        },
    }
}

/// Returns the snapshot that an applied file names.
pub fn applied_snapshot_name(applied: &[u8]) -> (name: Option<String>)
    ensures
        match name {
            Some(name) => named_snapshot(applied@, crc32c_of(body_of(applied@))) == Some(name@),
            None => named_snapshot(applied@, crc32c_of(body_of(applied@))) is None,
        },
{
    proof {
        reveal(named_snapshot);
    }
    match unframe_image(applied, APPLIED_MAGIC, APPLIED_VERSION) {
        Err(_) => None,
        Ok(body) => match decode_applied_file_body(body) {
            Err(_) => None,
            Ok(file) => {
                if file.snapshot.as_str().is_empty() {
                    None
                } else {
                    Some(file.snapshot)
                }
            },
        },
    }
}

/// The snapshot that a restart adopts: the one that the applied file names, if its file
/// exists, and the current one otherwise.
pub open spec fn adopted(
    current: Option<Seq<char>>,
    named: Option<Seq<char>>,
    named_exists: bool,
) -> Option<Seq<char>> {
    if named is Some && named_exists {
        named
    } else {
        current
    }
}

/// Chooses the snapshot that a restart adopts.
pub fn choose_snapshot(current: Option<String>, named: Option<String>, named_exists: bool) -> (name:
    Option<String>)
    ensures
        text_view(name) == adopted(text_view(current), text_view(named), named_exists),
{
    if named.is_some() && named_exists {
        named
    } else {
        current
    }
}

/// Optional text, by its view.
pub open spec fn text_view(text: Option<String>) -> Option<Seq<char>> {
    match text {
        Some(text) => Some(text@),
        None => None,
    }
}

/// What belongs to the object store of an installed snapshot: objects, prepared
/// transactions, and whether the ordered index is kept.
pub type StoreParts = Option<(Vec<ObjectEntry>, Vec<TxnIntent>, bool)>;

/// Whether `parts` are those of `snapshot`.
pub open spec fn parts_of(parts: StoreParts, snapshot: SnapshotView) -> bool {
    match parts {
        Some((objects, intents, ordered)) => snapshot.control is None && views(objects@)
            == snapshot.objects && views(intents@) == snapshot.intents && ordered
            == snapshot.ordered_index,
        None => snapshot.control is Some,
    }
}

/// The durable state machine of one replica.
#[derive(Debug, PartialEq, Eq)]
pub struct ReplicatedStateMachine {
    pub(crate) tablet: ReplicatedTablet,
    pub(crate) snapshot: Option<SealedSnapshot>,
    pub(crate) healthy: bool,
    pub(crate) last_error: Option<MachineFault>,
    pub(crate) fail_writes: bool,
    pub(crate) fenced: bool,
}

/// What a [`ReplicatedStateMachine`] says.
#[verifier::ext_equal]
pub struct MachineView {
    /// The replica.
    pub tablet: TabletView,
    /// The installed snapshot.
    pub snapshot: Option<SealedView>,
    /// Whether the machine serves.
    pub healthy: bool,
    /// What latched it.
    pub last_error: Option<MachineFaultView>,
    /// Whether snapshot writes are made to fail.
    pub fail_writes: bool,
    /// Whether writes are fenced off for a cutover.
    pub fenced: bool,
}

impl View for ReplicatedStateMachine {
    type V = MachineView;

    open(crate) spec fn view(&self) -> MachineView {
        MachineView {
            tablet: self.tablet@,
            snapshot: match self.snapshot {
                Some(sealed) => Some(sealed@),
                None => None,
            },
            healthy: self.healthy,
            last_error: fault_view(self.last_error),
            fail_writes: self.fail_writes,
            fenced: self.fenced,
        }
    }
}

/// The position of an optional entry; zero where there is none.
pub open spec fn position(applied: Option<AppliedPointer>) -> (u64, u64) {
    match applied {
        Some(pointer) => (pointer.index, pointer.term),
        None => (0, 0),
    }
}

impl MachineView {
    /// A healthy machine around a replica.
    pub open spec fn fresh(tablet: TabletView, snapshot: Option<SealedView>) -> Self {
        MachineView {
            tablet,
            snapshot,
            healthy: true,
            last_error: None,
            fail_writes: false,
            fenced: false,
        }
    }

    /// The machine after a failure.
    pub open spec fn poisoned(self, fault: MachineFaultView) -> Self {
        MachineView { healthy: false, last_error: Some(fault), ..self }
    }

    /// What opening from a snapshot and an applied file gives. `image_sum` and
    /// `applied_sum` are the checksums of their bodies.
    pub open spec fn opened(
        empty: TabletView,
        image: Option<(Seq<u8>, TapesView)>,
        applied: Option<Seq<u8>>,
        image_sum: u32,
        applied_sum: u32,
    ) -> Result<Self, StateMachineOpenError> {
        match image {
            Some((bytes, tapes)) => match snapshot_of(
                bytes,
                empty.namespace,
                empty.tablet,
                empty.control_tablet,
                tapes,
                image_sum,
            ) {
                Err(halt) => Err(StateMachineOpenError::Image(halt)),
                Ok(snapshot) => if snapshot.epoch != empty.authority.epoch || snapshot.guard
                    != empty.authority.guard {
                    Err(
                        StateMachineOpenError::Identity {
                            epoch: snapshot.epoch,
                            guard: snapshot.guard,
                        },
                    )
                } else {
                    Ok(
                        Self::fresh(
                            empty.restored(snapshot),
                            Some(
                                SealedView {
                                    last_log_id: snapshot.applied,
                                    membership: snapshot.membership,
                                    image: bytes,
                                },
                            ),
                        ),
                    )
                },
            },
            None => match applied {
                None => Ok(Self::fresh(empty, None)),
                Some(bytes) => match unframed(
                    bytes,
                    APPLIED_MAGIC,
                    APPLIED_VERSION,
                    applied_sum,
                ) {
                    Err(fault) => Err(StateMachineOpenError::Applied(fault)),
                    Ok(body) => match applied_file(body) {
                        Err(fault) => Err(StateMachineOpenError::Applied(fault)),
                        Ok(file) => Ok(
                            Self::fresh(
                                TabletView { membership: file.membership, ..empty },
                                None,
                            ),
                        ),
                    },
                },
            },
        }
    }

    /// The machine after an entry and its outcome.
    pub open spec fn entry_applied(
        self,
        log_id: AppliedPointer,
        payload: EntryPayload,
        executed: Executed,
    ) -> (Self, Result<Option<Seq<u8>>, ServeFaultView>) {
        if !self.healthy {
            (self, Err(ServeFaultView::Unhealthy(self.last_error)))
        } else {
            match self.tablet.applied_entry(log_id, payload, executed) {
                (tablet, Ok(outcome)) => (MachineView { tablet, ..self }, Ok(outcome)),
                (tablet, Err(fault)) => (
                    (MachineView { tablet, ..self }).poisoned(MachineFaultView::Apply(fault)),
                    Err(ServeFaultView::Failed(MachineFaultView::Apply(fault))),
                ),
            }
        }
    }

    /// An unhealthy machine has a reason, and a healthy one none.
    pub open spec fn reasoned(self) -> bool {
        self.healthy == (self.last_error is None)
    }

    /// Whether `image` is a sound image of this replica that spells `snapshot`.
    pub open spec fn spelled(self, image: Seq<u8>, snapshot: SnapshotView) -> bool {
        exists|tapes: TapesView, computed: u32|
            #[trigger] snapshot_of(
                image,
                self.tablet.namespace,
                self.tablet.tablet,
                self.tablet.control_tablet,
                tapes,
                computed,
            ) == Ok::<_, SnapshotHalt>(snapshot)
    }

    /// What is sealed for the present state, with the image `image`.
    pub open spec fn capture(self, image: Seq<u8>) -> SealedView {
        SealedView {
            last_log_id: self.tablet.applied,
            membership: self.tablet.membership,
            image,
        }
    }

    /// Why a snapshot may not be installed, if it may not.
    pub open spec fn refusal(self, decoded: Result<SnapshotView, SnapshotHalt>) -> Option<
        MachineFaultView,
    > {
        match decoded {
            Err(halt) => Some(MachineFaultView::Image(halt)),
            Ok(snapshot) => {
                let base = position(snapshot.applied).0;
                let applied = position(self.tablet.applied).0;
                if snapshot.epoch != self.tablet.authority.epoch || snapshot.guard
                    != self.tablet.authority.guard {
                    Some(
                        MachineFaultView::Authority {
                            epoch: snapshot.epoch,
                            guard: snapshot.guard,
                        },
                    )
                } else if base < applied {
                    Some(MachineFaultView::StaleSnapshot { base, applied })
                } else if self.fail_writes {
                    Some(MachineFaultView::InjectedWriteFailure)
                } else {
                    None
                }
            },
        }
    }

    /// The machine after an installation was refused. One that only waits for a piece to
    /// be read is no failure.
    pub open spec fn refused(self, fault: MachineFaultView) -> Self {
        if fault matches MachineFaultView::Image(SnapshotHalt::Pending { .. }) {
            self
        } else {
            self.poisoned(fault)
        }
    }

    /// The machine after a snapshot was installed: it serves again.
    pub open spec fn healed(self, snapshot: SnapshotView, sealed: SealedView) -> Self {
        MachineView {
            tablet: self.tablet.restored(snapshot),
            snapshot: Some(sealed),
            healthy: true,
            last_error: None,
            ..self
        }
    }

    /// The index that the installed snapshot was captured at.
    pub open spec fn base_index(self) -> Option<u64> {
        match self.snapshot {
            Some(sealed) => match sealed.last_log_id {
                Some(pointer) => Some(pointer.index),
                None => None,
            },
            None => None,
        }
    }
}

/// Read-only diagnostics of a state machine.
#[derive(Debug, Clone, PartialEq, Eq)]
pub struct StateMachineStatus {
    /// Tablet replicated.
    pub tablet: TabletId,
    /// Last applied log index.
    pub applied_index: Option<u64>,
    /// Last applied commit position.
    pub applied_commit: CommitPosition,
    /// Index that the installed snapshot was captured at.
    pub snapshot_index: Option<u64>,
    /// Whether the machine serves.
    pub healthy: bool,
    /// What latched it.
    pub last_error: Option<MachineFault>,
}

/// What preparing an operation against the object store gave.
#[derive(Debug, PartialEq, Eq)]
pub enum PreparedRead {
    /// It reads, with this result.
    Read(Vec<u8>),
    /// It would write.
    Write,
    /// It was rejected.
    Rejected(String),
}

impl ReplicatedStateMachine {
    /// Opens a machine from the snapshot that a restart adopts, read with its tapes, and
    /// from the applied file, which stands in for the members where there is no snapshot.
    pub fn open(
        namespace: NamespaceId,
        tablet: TabletId,
        authority: TabletAuthority,
        control_tablet: TabletId,
        image: Option<(Vec<u8>, SnapshotTapes)>,
        applied: Option<&[u8]>,
    ) -> (result: Result<(Self, StoreParts), StateMachineOpenError>)
        ensures
            ({
                let opened = MachineView::opened(
                    TabletView::empty(namespace, tablet, authority, control_tablet),
                    match image {
                        Some((bytes, tapes)) => Some((bytes@, tapes@)),
                        None => None,
                    },
                    match applied {
                        Some(bytes) => Some(bytes@),
                        None => None,
                    },
                    match image {
                        Some((bytes, _)) => crc32c_of(body_of(bytes@)),
                        None => 0,
                    },
                    match applied {
                        Some(bytes) => crc32c_of(body_of(bytes@)),
                        None => 0,
                    },
                );
                match result {
                    Ok((machine, parts)) => {
                        &&& opened == Ok::<_, StateMachineOpenError>(machine@)
                        &&& image matches Some((bytes, tapes)) ==> (snapshot_of(
                            bytes@,
                            namespace,
                            tablet,
                            control_tablet,
                            tapes@,
                            crc32c_of(body_of(bytes@)),
                        ) matches Ok(snapshot) && parts_of(parts, snapshot))
                        &&& image is None ==> parts is None
                    },
                    Err(error) => opened == Err::<MachineView, _>(error),
                }
            }),
    {
        let mut replica: ReplicatedTablet = ReplicatedTablet::new(
            namespace,
            tablet,
            authority,
            control_tablet,
        );
        match image {
            Some((bytes, tapes)) => {
                let snapshot: DecodedSnapshot = match ReplicatedTablet::decode_snapshot(
                    &bytes,
                    namespace,
                    tablet,
                    control_tablet,
                    &tapes,
                ) {
                    Err(halt) => return Err(StateMachineOpenError::Image(halt)),
                    Ok(snapshot) => snapshot,
                };
                if snapshot.epoch != authority.epoch || snapshot.guard != authority.guard {
                    return Err(
                        StateMachineOpenError::Identity {
                            epoch: snapshot.epoch,
                            guard: snapshot.guard,
                        },
                    );
                }
                let sealed: SealedSnapshot = SealedSnapshot {
                    last_log_id: snapshot.applied,
                    membership: snapshot.membership.clone(),
                    image: bytes,
                };
                let parts: StoreParts = replica.install_decoded(snapshot);
                Ok((Self::around(replica, Some(sealed)), parts))
            },
            None => {
                if let Some(bytes) = applied {
                    let file: AppliedFile = match unframe_image(
                        bytes,
                        APPLIED_MAGIC,
                        APPLIED_VERSION,
                    ) {
                        Err(fault) => return Err(StateMachineOpenError::Applied(fault)),
                        Ok(body) => match decode_applied_file_body(body) {
                            Err(fault) => return Err(StateMachineOpenError::Applied(fault)),
                            Ok(file) => file,
                        },
                    };
                    replica.membership = file.membership;
                }
                Ok((Self::around(replica, None), None))
            },
        }
    }

    fn around(tablet: ReplicatedTablet, snapshot: Option<SealedSnapshot>) -> (machine: Self)
        ensures
            machine@ == MachineView::fresh(
                tablet@,
                match snapshot {
                    Some(sealed) => Some(sealed@),
                    None => None,
                },
            ),
    {
        ReplicatedStateMachine {
            tablet,
            snapshot,
            healthy: true,
            last_error: None,
            fail_writes: false,
            fenced: false,
        }
    }

    fn poison(&mut self, fault: &MachineFault)
        ensures
            final(self)@ == old(self)@.poisoned(fault@),
    {
        self.healthy = false;
        self.last_error = Some(fault.clone());
    }

    /// Returns the replica.
    pub fn tablet(&self) -> (tablet: &ReplicatedTablet)
        ensures
            tablet@ == self@.tablet,
    {
        &self.tablet
    }

    /// Says what is to be done for a committed entry.
    pub fn plan_entry(&self, index: u64, payload: &EntryPayload) -> (step: Result<
        EntryStep,
        StateMachineFault,
    >)
        ensures
            outcome_view(step) == self@.tablet.step(index, *payload),
    {
        self.tablet.plan_entry(index, payload)
    }

    /// Applies a committed entry, given what executing its plan gave. A failure latches the
    /// machine unhealthy; an unhealthy machine applies nothing.
    pub fn apply(
        &mut self,
        log_id: AppliedPointer,
        payload: &EntryPayload,
        executed: Executed,
    ) -> (result: Result<ReplicatedOutcome, ServeFault>)
        requires
            old(self)@.healthy ==> old(self)@.tablet.answers(log_id.index, *payload, executed),
        ensures
            (final(self)@, served_view(result)) == old(self)@.entry_applied(
                log_id,
                *payload,
                executed,
            ),
    {
        if !self.healthy {
            return Err(self.unhealthy());
        }
        match self.tablet.apply_entry(log_id, payload, executed) {
            Ok(outcome) => Ok(outcome),
            Err(fault) => {
                let fault: MachineFault = MachineFault::Apply(fault);
                self.poison(&fault);
                Err(ServeFault::Failed(fault))
            },
        }
    }

    fn plan_seal(
        &self,
        image: Vec<u8>,
        index: u64,
        term: u64,
        applied: Option<AppliedPointer>,
        membership: &StoredMembership,
    ) -> (plan: Result<Vec<SealWrite>, MachineFault>)
        ensures
            match plan {
                Ok(writes) => !self@.fail_writes && views(writes@) == seal_writes(
                    image@,
                    index,
                    term,
                    applied,
                    membership@,
                ),
                Err(fault) => self@.fail_writes && fault@ == MachineFaultView::InjectedWriteFailure,
            },
    {
        if self.fail_writes {
            return Err(MachineFault::InjectedWriteFailure);
        }
        let name: String = snapshot_file_name(index, term);
        let body: Vec<u8> = encode_applied_file_body(
            applied,
            membership,
            name.as_str(),
        );
        let current: Vec<u8> = clone_bytes(name.as_str().as_bytes());
        let mut writes: Vec<SealWrite> = Vec::new();
        writes.push(SealWrite { target: SealTarget::Image(name), bytes: image });
        writes.push(
            SealWrite {
                target: SealTarget::Applied,
                bytes: frame_image(APPLIED_MAGIC, APPLIED_VERSION, &body),
            },
        );
        writes.push(SealWrite { target: SealTarget::Current, bytes: current });
        proof {
            assert(views(writes@) =~= seal_writes(
                image@,
                index,
                term,
                applied,
                membership@,
            ));
        }
        Ok(writes)
    }

    /// Captures the present state, with the objects and prepared transactions of the store,
    /// and plans its sealing. The objects may come in any order; the image has them in the
    /// order of their keys. Where writes are made to fail there is no plan, and the machine
    /// is latched unhealthy.
    pub fn start_seal(
        &mut self,
        objects: Vec<KeyedEntry>,
        ordered_index: bool,
        intents: &Vec<TxnIntent>,
    ) -> (result: (SealedSnapshot, Option<Vec<SealWrite>>))
        ensures
            result.0@ == old(self)@.capture(
                snapshot_image(
                    old(self)@.tablet,
                    entries_of(in_key_order(views(objects@))),
                    ordered_index,
                    views(intents@),
                ),
            ),
            match result.1 {
                Some(writes) => !old(self)@.fail_writes && final(self)@ == old(self)@ && views(
                    writes@,
                ) == seal_writes(
                    result.0@.image,
                    position(old(self)@.tablet.applied).0,
                    position(old(self)@.tablet.applied).1,
                    old(self)@.tablet.applied,
                    old(self)@.tablet.membership,
                ),
                None => old(self)@.fail_writes && final(self)@ == old(self)@.poisoned(
                    MachineFaultView::InjectedWriteFailure,
                ),
            },
    {
        let image: Vec<u8> = self.tablet.encode_snapshot(objects, ordered_index, intents);
        let sealed: SealedSnapshot = SealedSnapshot {
            last_log_id: self.tablet.applied,
            membership: self.tablet.membership.clone(),
            image: clone_bytes(&image),
        };
        let (index, term): (u64, u64) = match self.tablet.applied {
            Some(pointer) => (pointer.index, pointer.term),
            None => (0, 0),
        };
        match self.plan_seal(image, index, term, self.tablet.applied, &self.tablet.membership) {
            Ok(writes) => (sealed, Some(writes)),
            Err(fault) => {
                self.poison(&fault);
                (sealed, None)
            },
        }
    }

    /// Takes note of how sealing went: a sealed snapshot becomes the installed one, and a
    /// failure latches the machine.
    pub fn finish_seal(&mut self, sealed: &SealedSnapshot, failure: Option<String>)
        ensures
            final(self)@ == match text_view(failure) {
                None => MachineView { snapshot: Some(sealed@), ..old(self)@ },
                Some(detail) => old(self)@.poisoned(MachineFaultView::Reported(detail)),
            },
    {
        match failure {
            None => {
                self.snapshot = Some(sealed.clone());
            },
            Some(detail) => {
                self.poison(&MachineFault::Reported(detail));
            },
        }
    }

    /// Checks a snapshot from the leader and plans its sealing. The image must be of this
    /// replica, captured under its generations, and no older than what it applied. The
    /// applied file of the plan says what the snapshot was captured at.
    pub fn plan_install(&mut self, image: &[u8], tapes: &SnapshotTapes) -> (result: Result<
        (DecodedSnapshot, Vec<SealWrite>),
        MachineFault,
    >)
        ensures
            ({
                let before = old(self)@;
                let decoded = snapshot_of(
                    image@,
                    before.tablet.namespace,
                    before.tablet.tablet,
                    before.tablet.control_tablet,
                    tapes@,
                    crc32c_of(body_of(image@)),
                );
                match result {
                    Ok((snapshot, writes)) => {
                        &&& before.refusal(decoded) is None
                        &&& decoded == Ok::<_, SnapshotHalt>(snapshot@)
                        &&& installable(snapshot@)
                        &&& final(self)@ == before
                        &&& views(writes@) == seal_writes(
                            image@,
                            position(snapshot@.applied).0,
                            position(snapshot@.applied).1,
                            snapshot@.applied,
                            snapshot@.membership,
                        )
                    },
                    Err(fault) => before.refusal(decoded) == Some(fault@) && final(self)@
                        == before.refused(fault@),
                }
            }),
    {
        let snapshot: DecodedSnapshot = match ReplicatedTablet::decode_snapshot(
            image,
            self.tablet.namespace,
            self.tablet.tablet,
            self.tablet.control_tablet,
            tapes,
        ) {
            Ok(snapshot) => snapshot,
            Err(halt) => {
                let fault: MachineFault = MachineFault::Image(halt);
                if let SnapshotHalt::Pending { .. } = halt {
                    return Err(fault);
                }
                self.poison(&fault);
                return Err(fault);
            },
        };
        if snapshot.epoch != self.tablet.authority.epoch || snapshot.guard
            != self.tablet.authority.guard {
            let fault: MachineFault = MachineFault::Authority {
                epoch: snapshot.epoch,
                guard: snapshot.guard,
            };
            self.poison(&fault);
            return Err(fault);
        }
        let (base, term): (u64, u64) = match snapshot.applied {
            Some(pointer) => (pointer.index, pointer.term),
            None => (0, 0),
        };
        let applied: u64 = match self.tablet.applied {
            Some(pointer) => pointer.index,
            None => 0,
        };
        if base < applied {
            let fault: MachineFault = MachineFault::StaleSnapshot { base, applied };
            self.poison(&fault);
            return Err(fault);
        }
        match self.plan_seal(
            clone_bytes(image),
            base,
            term,
            snapshot.applied,
            &snapshot.membership,
        ) {
            Ok(writes) => Ok((snapshot, writes)),
            Err(fault) => {
                self.poison(&fault);
                Err(fault)
            },
        }
    }

    /// Installs a checked snapshot once it was sealed, with what the leader says it was
    /// captured at, and heals the machine. Where sealing failed, nothing is installed and
    /// the machine is latched. The image must be the one that the snapshot was read from.
    pub fn finish_install(
        &mut self,
        snapshot: DecodedSnapshot,
        sealed: SealedSnapshot,
        failure: Option<String>,
    ) -> (result: Result<StoreParts, MachineFault>)
        requires
            installable(snapshot@),
            old(self)@.spelled(sealed@.image, snapshot@),
        ensures
            match text_view(failure) {
                None => final(self)@ == old(self)@.healed(snapshot@, sealed@) && (
                result matches Ok(parts) && parts_of(parts, snapshot@)),
                Some(detail) => final(self)@ == old(self)@.poisoned(
                    MachineFaultView::Reported(detail),
                ) && (result matches Err(fault) && fault@ == MachineFaultView::Reported(detail)),
            },
    {
        match failure {
            Some(detail) => {
                let fault: MachineFault = MachineFault::Reported(detail);
                self.poison(&fault);
                Err(fault)
            },
            None => {
                let parts: StoreParts = self.tablet.install_decoded(snapshot);
                self.snapshot = Some(sealed);
                self.healthy = true;
                self.last_error = None;
                Ok(parts)
            },
        }
    }

    /// Returns the installed snapshot.
    pub fn current_snapshot(&self) -> (sealed: Option<&SealedSnapshot>)
        ensures
            match sealed {
                Some(sealed) => self@.snapshot == Some(sealed@),
                None => self@.snapshot is None,
            },
    {
        match &self.snapshot {
            Some(sealed) => Some(sealed),
            None => None,
        }
    }

    /// Returns the index that the installed snapshot was captured at. The log may be purged
    /// up to this index only.
    pub fn snapshotted_index(&self) -> (index: Option<u64>)
        ensures
            index == self@.base_index(),
    {
        match &self.snapshot {
            Some(sealed) => match sealed.last_log_id {
                Some(pointer) => Some(pointer.index),
                None => None,
            },
            None => None,
        }
    }

    /// Returns diagnostics.
    pub fn status(&self) -> (status: StateMachineStatus)
        ensures
            status.tablet == self@.tablet.tablet,
            status.applied_index == match self@.tablet.applied {
                Some(pointer) => Some(pointer.index),
                None => None,
            },
            status.applied_commit == self@.tablet.commit(),
            status.snapshot_index == self@.base_index(),
            status.healthy == self@.healthy,
            fault_view(status.last_error) == self@.last_error,
    {
        StateMachineStatus {
            tablet: self.tablet.tablet,
            applied_index: match self.tablet.applied {
                Some(pointer) => Some(pointer.index),
                None => None,
            },
            applied_commit: self.tablet.applied_commit(),
            snapshot_index: self.snapshotted_index(),
            healthy: self.healthy,
            last_error: match &self.last_error {
                Some(fault) => Some(fault.clone()),
                None => None,
            },
        }
    }

    /// Serves a local read, given what preparing it gave. An unhealthy machine serves
    /// nothing.
    pub fn read_local(&self, prepared: PreparedRead) -> (result: Result<Vec<u8>, ServeFault>)
        ensures
            served_view(result) == if !self@.healthy {
                Err(ServeFaultView::Unhealthy(self@.last_error))
            } else {
                match prepared {
                    PreparedRead::Read(bytes) => Ok(bytes@),
                    PreparedRead::Write => Err(ServeFaultView::NotARead),
                    PreparedRead::Rejected(detail) => Err(
                        ServeFaultView::Failed(
                            MachineFaultView::Apply(
                                FaultView::ApplyFailed {
                                    index: position(self@.tablet.applied).0,
                                    detail: "local read rejected: "@ + detail@,
                                },
                            ),
                        ),
                    ),
                }
            },
    {
        if !self.healthy {
            return Err(self.unhealthy());
        }
        match prepared {
            PreparedRead::Read(bytes) => Ok(bytes),
            PreparedRead::Write => Err(ServeFault::NotARead),
            PreparedRead::Rejected(detail) => {
                let index: u64 = match self.tablet.applied {
                    Some(pointer) => pointer.index,
                    None => 0,
                };
                let mut text: String = "local read rejected: ".to_owned();
                text.append(detail.as_str());
                Err(
                    ServeFault::Failed(
                        MachineFault::Apply(
                            StateMachineFault::ApplyFailed { index, detail: text },
                        ),
                    ),
                )
            },
        }
    }

    fn unhealthy(&self) -> (fault: ServeFault)
        ensures
            fault@ == ServeFaultView::Unhealthy(self@.last_error),
    {
        ServeFault::Unhealthy(
            match &self.last_error {
                Some(reason) => Some(reason.clone()),
                None => None,
            },
        )
    }

    /// Serves a scan, given what the store gave. An unhealthy machine serves nothing.
    pub fn scan_local(&self, page: Result<Vec<u8>, String>) -> (result: Result<
        Vec<u8>,
        ServeFault,
    >)
        ensures
            served_view(result) == if !self@.healthy {
                Err(ServeFaultView::NoScan)
            } else {
                match page {
                    Ok(bytes) => Ok(bytes@),
                    Err(detail) => Err(ServeFaultView::Scan("local scan failed: "@ + detail@)),
                }
            },
    {
        if !self.healthy {
            return Err(ServeFault::NoScan);
        }
        match page {
            Ok(bytes) => Ok(bytes),
            Err(detail) => {
                let mut text: String = "local scan failed: ".to_owned();
                text.append(detail.as_str());
                Err(ServeFault::Scan(text))
            },
        }
    }

    /// Says how the base of a range patch is represented. An unhealthy machine says only
    /// why it is.
    pub fn peek_base(&self, value: Option<&LogicalValue>) -> (base: Result<RangeBase, ServeFault>)
        ensures
            match base {
                Ok(base) => self@.healthy && base == base_of(
                    match value {
                        Some(value) => Some(value@),
                        None => None,
                    },
                ),
                Err(fault) => !self@.healthy && fault@ == ServeFaultView::Unhealthy(
                    self@.last_error,
                ),
            },
    {
        if self.healthy {
            Ok(range_base(value))
        } else {
            Err(self.unhealthy())
        }
    }

    /// Returns a copy of all sessions, for a tablet that takes over from this one.
    pub fn export_topology_copy(&self) -> (sessions: TopologyCopy)
        ensures
            views(sessions@) == self@.tablet.sessions,
    {
        self.tablet.export_topology_copy()
    }

    /// Replaces all sessions by those of the tablet that this one takes over from. Nothing
    /// else changes: the replica serves nothing yet.
    pub fn install_topology_copy(&mut self, sessions: TopologyCopy)
        ensures
            final(self)@ == (MachineView {
                tablet: old(self)@.tablet.copied(views(sessions@)),
                ..old(self)@
            }),
            old(self)@.tablet.well_formed() ==> final(self)@.tablet.well_formed(),
    {
        self.tablet.install_topology_copy(sessions);
    }

    /// Gives the verdict on a proposal, without changing anything.
    pub fn check_proposal(
        &self,
        session: SessionId,
        seq: RequestSeq,
        ack_floor: RequestSeq,
    ) -> (gate: Result<ProposalGate, StateMachineFault>)
        ensures
            outcome_view(gate) == self@.tablet.gate(session, seq, ack_floor),
    {
        self.tablet.check_proposal(session, seq, ack_floor)
    }

    /// Latches the machine unhealthy.
    pub fn mark_unhealthy(&mut self, detail: String)
        ensures
            final(self)@ == old(self)@.poisoned(MachineFaultView::Reported(detail@)),
    {
        self.poison(&MachineFault::Reported(detail));
    }

    /// Makes the next snapshot writes fail, or stops doing so.
    pub fn set_snapshot_write_failure(&mut self, fail: bool)
        ensures
            final(self)@ == (MachineView { fail_writes: fail, ..old(self)@ }),
    {
        self.fail_writes = fail;
    }

    /// Whether writes are fenced off for a cutover.
    pub fn is_fenced(&self) -> (fenced: bool)
        ensures
            fenced == self@.fenced,
    {
        self.fenced
    }

    /// Sets or clears the cutover fence.
    pub fn set_fenced(&mut self, fenced: bool)
        ensures
            final(self)@ == (MachineView { fenced, ..old(self)@ }),
    {
        self.fenced = fenced;
    }

    /// Returns the voters of the group.
    pub fn member_voters(&self) -> (voters: Vec<NodeId>)
        ensures
            voters@ == self@.tablet.membership.voters(),
    {
        self.tablet.membership_voters()
    }
}

/// The chunked roots among `objects`, in order.
pub open spec fn roots_of(objects: Seq<EntryView>) -> Seq<Seq<u8>>
    decreases objects.len(),
{
    if objects.len() == 0 {
        Seq::empty()
    } else {
        match objects.last().object.value {
            ValueView::Chunked(root) => roots_of(objects.drop_last()).push(root),
            _ => roots_of(objects.drop_last()),
        }
    }
}

/// Lists the chunked roots among `objects`.
pub fn chunked_roots(objects: &Vec<ObjectEntry>) -> (roots: Vec<Vec<u8>>)
    ensures
        views(roots@) == roots_of(views(objects@)),
{
    let ghost all = views(objects@);
    let mut roots: Vec<Vec<u8>> = Vec::new();
    let mut at: usize = 0;
    proof {
        assert(all.take(0) =~= Seq::empty());
        assert(views(roots@) =~= roots_of(all.take(0)));
    }
    while at < objects.len()
        invariant
            at <= objects.len(),
            all == views(objects@),
            views(roots@) == roots_of(all.take(at as int)),
        decreases objects.len() - at,
    {
        let ghost before = roots@;
        proof {
            assert(all.take(at + 1).drop_last() =~= all.take(at as int));
            assert(all.take(at + 1).last() == objects@[at as int]@);
        }
        if let LogicalValue::Chunked(root) = &objects[at].object.value {
            roots.push(clone_bytes(root));
            proof {
                assert(views(roots@) =~= views(before).push(root@));
            }
        }
        at = at + 1;
    }
    proof {
        assert(all.take(at as int) =~= all);
    }
    roots
}

/// Whatever was written of a seal before a crash, a restart adopts a complete image: the
/// old one until the applied file names the new one, and the new one from then on.
pub proof fn law_crashes_leave_a_complete_image(
    old_name: Option<Seq<char>>,
    new_name: Seq<char>,
    written: int,
)
    requires
        0 <= written <= 3,
        old_name != Some(new_name),
    ensures
        ({
            let image_exists = written >= 1;
            let named = if written >= 2 {
                Some(new_name)
            } else {
                old_name
            };
            let current = if written >= 3 {
                Some(new_name)
            } else {
                old_name
            };
            let named_exists = named == old_name || image_exists;
            let found = adopted(current, named, named_exists);
            &&& found == if written >= 2 {
                Some(new_name)
            } else {
                old_name
            }
            &&& found == Some(new_name) ==> image_exists
        }),
{
}

/// The applied file of a seal names the image that the seal writes first, and reads back
/// what the image was captured at.
pub proof fn law_seals_name_their_image(
    image: Seq<u8>,
    index: u64,
    term: u64,
    applied: Option<AppliedPointer>,
    membership: MembershipView,
)
    requires
        membership.well_formed(),
        membership.framable(),
        applied_body(applied, membership, file_name(index, term)).len() <= usize::MAX,
    ensures
        ({
            let writes = seal_writes(image, index, term, applied, membership);
            &&& writes[0].target == TargetView::Image(file_name(index, term))
            &&& named_snapshot(writes[1].bytes, crc32c_of(body_of(writes[1].bytes))) == Some(
                file_name(index, term),
            )
            &&& writes[2].bytes == encode_utf8(file_name(index, term))
            &&& recorded(writes[1].bytes, crc32c_of(body_of(writes[1].bytes))) == Some(
                AppliedFileView {
                    applied,
                    membership: membership.flat(),
                    snapshot: file_name(index, term),
                },
            )
        }),
{
    let name = file_name(index, term);
    let body = applied_body(applied, membership, name);
    lemma_name_ascii(index, term);
    lemma_named(body, applied, membership, name);
}

proof fn lemma_named(
    body: Seq<u8>,
    applied: Option<AppliedPointer>,
    membership: MembershipView,
    name: Seq<char>,
)
    requires
        membership.well_formed(),
        membership.framable(),
        body == applied_body(applied, membership, name),
        body.len() <= usize::MAX,
        is_ascii_chars(name),
        0 < name.len() <= u32::MAX,
    ensures
        ({
            let file = framed(APPLIED_MAGIC, APPLIED_VERSION, body, crc32c_of(body));
            &&& named_snapshot(file, crc32c_of(body_of(file))) == Some(name)
            &&& recorded(file, crc32c_of(body_of(file))) == Some(
                AppliedFileView { applied, membership: membership.flat(), snapshot: name },
            )
        }),
{
    is_ascii_chars_encode_utf8(name);
    law_applied_file_round_trip(applied, membership, name);
    lemma_named_body(body, applied_file(body)->Ok_0);
}

proof fn lemma_named_body(body: Seq<u8>, view: AppliedFileView)
    requires
        applied_file(body) == Ok::<_, ImageFault>(view),
        view.snapshot.len() > 0,
    ensures
        ({
            let file = framed(APPLIED_MAGIC, APPLIED_VERSION, body, crc32c_of(body));
            &&& named_snapshot(file, crc32c_of(body_of(file))) == Some(view.snapshot)
            &&& recorded(file, crc32c_of(body_of(file))) == Some(view)
        }),
{
    reveal(named_snapshot);
    reveal(recorded);
    law_images_read_back(APPLIED_MAGIC, APPLIED_VERSION, body, crc32c_of(body));
}

proof fn lemma_padded_digits(value: nat, width: nat)
    ensures
        padded(value, width).len() == width,
        forall|i: int| 0 <= i < width ==> '0' <= #[trigger] padded(value, width)[i] <= '9',
    decreases width,
{
    if width > 0 {
        lemma_padded_digits(value / 10, (width - 1) as nat);
    }
}

proof fn lemma_name_ascii(index: u64, term: u64)
    ensures
        is_ascii_chars(file_name(index, term)),
        file_name(index, term).len() == 54,
{
    lemma_padded_digits(index as nat, 20);
    lemma_padded_digits(term as nat, 20);
    reveal_strlit("snapshot-");
    reveal_strlit("-");
    reveal_strlit(".bin");
    let name = file_name(index, term);
    let a = padded(index as nat, 20);
    let b = padded(term as nat, 20);
    assert forall|i: int| 0 <= i < name.len() implies '\0' <= #[trigger] name[i]
        <= '\u{7f}' by {
        if i < 9 {
            assert(name[i] == "snapshot-"@[i]);
        } else if i < 29 {
            assert(name[i] == a[i - 9]);
        } else if i < 30 {
            assert(name[i] == "-"@[i - 29]);
        } else if i < 50 {
            assert(name[i] == b[i - 30]);
        } else {
            assert(name[i] == ".bin"@[i - 50]);
        }
    }
}

proof fn lemma_twenty_digits()
    ensures
        power_of_ten(20) > u64::MAX,
{
    reveal_with_fuel(power_of_ten, 21);
}

/// Snapshot names sort as their bases do: the smaller index, and with one index the
/// smaller term, has the smaller character at the first place where the names differ.
pub proof fn law_snapshot_names_sort(a: (u64, u64), b: (u64, u64)) -> (at: int)
    requires
        a.0 < b.0 || a.0 == b.0 && a.1 < b.1,
    ensures
        0 <= at < file_name(a.0, a.1).len(),
        file_name(a.0, a.1).len() == file_name(b.0, b.1).len(),
        file_name(a.0, a.1).take(at) == file_name(b.0, b.1).take(at),
        file_name(a.0, a.1)[at] < file_name(b.0, b.1)[at],
{
    lemma_twenty_digits();
    lemma_name_ascii(a.0, a.1);
    lemma_name_ascii(b.0, b.1);
    lemma_padded_digits(a.0 as nat, 20);
    lemma_padded_digits(b.0 as nat, 20);
    lemma_padded_digits(a.1 as nat, 20);
    lemma_padded_digits(b.1 as nat, 20);
    reveal_strlit("snapshot-");
    reveal_strlit("-");
    reveal_strlit(".bin");
    let left = file_name(a.0, a.1);
    let right = file_name(b.0, b.1);
    if a.0 < b.0 {
        let k = law_padded_sorts(a.0 as nat, b.0 as nat, 20);
        let at = 9 + k;
        assert forall|i: int| 0 <= i < at implies left[i] == right[i] by {
            if i >= 9 {
                assert(padded(a.0 as nat, 20).take(k)[i - 9] == padded(b.0 as nat, 20).take(k)[i
                    - 9]);
            }
        }
        assert(left.take(at) =~= right.take(at));
        assert(left[at] == padded(a.0 as nat, 20)[k]);
        assert(right[at] == padded(b.0 as nat, 20)[k]);
        at
    } else {
        let k = law_padded_sorts(a.1 as nat, b.1 as nat, 20);
        let at = 30 + k;
        assert forall|i: int| 0 <= i < at implies left[i] == right[i] by {
            if i >= 30 {
                assert(padded(a.1 as nat, 20).take(k)[i - 30] == padded(b.1 as nat, 20).take(k)[i
                    - 30]);
            }
        }
        assert(left.take(at) =~= right.take(at));
        assert(left[at] == padded(a.1 as nat, 20)[k]);
        assert(right[at] == padded(b.1 as nat, 20)[k]);
        at
    }
}

/// A snapshot that may be installed never takes the replica back behind what it applied,
/// and after the installation the machine serves.
pub proof fn law_installs_move_forward_and_heal(
    machine: MachineView,
    snapshot: SnapshotView,
    sealed: SealedView,
)
    requires
        machine.refusal(Ok(snapshot)) is None,
    ensures
        position(machine.healed(snapshot, sealed).tablet.applied).0 >= position(
            machine.tablet.applied,
        ).0,
        machine.healed(snapshot, sealed).healthy,
        machine.healed(snapshot, sealed).last_error is None,
{
}

/// A machine that does not serve can always say why: opening, applying, refusing and
/// installing keep a reason exactly where the machine is latched.
pub proof fn law_latches_have_a_reason(
    machine: MachineView,
    log_id: AppliedPointer,
    payload: EntryPayload,
    executed: Executed,
    fault: MachineFaultView,
    snapshot: SnapshotView,
    sealed: SealedView,
)
    requires
        machine.reasoned(),
    ensures
        MachineView::fresh(machine.tablet, machine.snapshot).reasoned(),
        machine.entry_applied(log_id, payload, executed).0.reasoned(),
        machine.poisoned(fault).reasoned(),
        machine.refused(fault).reasoned(),
        machine.healed(snapshot, sealed).reasoned(),
{
}

/// Once an entry failed, the machine applies nothing until a snapshot heals it.
pub proof fn law_failures_latch(
    machine: MachineView,
    log_id: AppliedPointer,
    payload: EntryPayload,
    executed: Executed,
    next_id: AppliedPointer,
    next_payload: EntryPayload,
    next_executed: Executed,
)
    requires
        machine.entry_applied(log_id, payload, executed).1 is Err,
    ensures
        ({
            let after = machine.entry_applied(log_id, payload, executed).0;
            &&& !after.healthy
            &&& after.entry_applied(next_id, next_payload, next_executed) == (
                after,
                Err::<Option<Seq<u8>>, _>(ServeFaultView::Unhealthy(after.last_error)),
            )
            &&& after.tablet == machine.tablet
        }),
{
}

/// A snapshot is installed exactly if it decodes, was taken under this replica's
/// authority, does not reach back behind what is applied, and can be written; the first
/// of these that fails names the refusal.
pub proof fn law_installs_are_refused_for_a_reason(
    machine: MachineView,
    decoded: Result<SnapshotView, SnapshotHalt>,
)
    ensures
        decoded matches Err(halt) ==> machine.refusal(decoded) == Some(
            MachineFaultView::Image(halt),
        ),
        decoded matches Ok(snapshot) ==> {
            let ours = snapshot.epoch == machine.tablet.authority.epoch && snapshot.guard
                == machine.tablet.authority.guard;
            let base = match snapshot.applied {
                Some(pointer) => pointer.index,
                None => 0,
            };
            let applied = match machine.tablet.applied {
                Some(pointer) => pointer.index,
                None => 0,
            };
            &&& machine.refusal(decoded) is None <==> ours && base >= applied
                && !machine.fail_writes
            &&& !ours ==> machine.refusal(decoded) == Some(
                MachineFaultView::Authority { epoch: snapshot.epoch, guard: snapshot.guard },
            )
            &&& ours && base < applied ==> machine.refusal(decoded) == Some(
                MachineFaultView::StaleSnapshot { base, applied },
            )
            &&& ours && base >= applied && machine.fail_writes ==> machine.refusal(decoded)
                == Some(MachineFaultView::InjectedWriteFailure)
        },
{
}

/// A machine opens on its snapshot where it has one: with the members, the last applied
/// entry and the image of the snapshot, healthy and not fenced. Where it has none, it
/// opens empty, with the members of the applied file if there is one.
pub proof fn law_machines_open_on_their_snapshot(
    empty: TabletView,
    image: Option<(Seq<u8>, TapesView)>,
    applied: Option<Seq<u8>>,
    image_sum: u32,
    applied_sum: u32,
)
    requires
        MachineView::opened(empty, image, applied, image_sum, applied_sum) is Ok,
    ensures
        ({
            let machine = MachineView::opened(empty, image, applied, image_sum, applied_sum)->Ok_0;
            &&& machine.healthy
            &&& machine.last_error is None
            &&& !machine.fail_writes
            &&& !machine.fenced
            &&& machine.tablet.namespace == empty.namespace
            &&& machine.tablet.tablet == empty.tablet
            &&& machine.tablet.authority == empty.authority
            &&& image matches Some((bytes, _)) ==> (machine.snapshot matches Some(sealed)
                && sealed.image == bytes && sealed.last_log_id == machine.tablet.applied
                && sealed.membership == machine.tablet.membership)
            &&& image is None ==> machine.snapshot is None && machine.tablet.applied
                == empty.applied && machine.tablet.sessions == empty.sessions
            &&& image is None && applied is None ==> machine.tablet == empty
        }),
{
}

/// A sealed snapshot says where the machine stands, and an installed one becomes the
/// machine's own.
pub proof fn law_snapshots_stand_where_the_machine_does(
    machine: MachineView,
    image: Seq<u8>,
    snapshot: SnapshotView,
    sealed: SealedView,
)
    ensures
        machine.capture(image).last_log_id == machine.tablet.applied,
        machine.capture(image).membership == machine.tablet.membership,
        machine.capture(image).image == image,
        machine.healed(snapshot, sealed).snapshot == Some(sealed),
        machine.healed(snapshot, sealed).tablet.applied == snapshot.applied,
        machine.healed(snapshot, sealed).tablet.membership == snapshot.membership,
        machine.healed(snapshot, sealed).fenced == machine.fenced,
        machine.healed(snapshot, sealed).fail_writes == machine.fail_writes,
        machine.snapshot is None ==> machine.base_index() is None,
        machine.snapshot matches Some(held) ==> (held.last_log_id matches Some(pointer)
            ==> machine.base_index() == Some(pointer.index)),
{
}

/// A seal writes the image first, then the applied file, and last the name of the current
/// image.
pub proof fn law_seals_write_the_image_first(
    image: Seq<u8>,
    index: u64,
    term: u64,
    applied: Option<AppliedPointer>,
    membership: MembershipView,
)
    ensures
        ({
            let writes = seal_writes(image, index, term, applied, membership);
            &&& writes.len() == 3
            &&& writes[0].target is Image
            &&& writes[0].bytes == image
            &&& writes[1].target is Applied
            &&& writes[2].target is Current
        }),
{
}

/// A fault poisons the machine for good, except that a snapshot whose pieces are still
/// being read is no fault.
pub proof fn law_faults_poison(machine: MachineView, fault: MachineFaultView)
    ensures
        machine.poisoned(fault).last_error == Some(fault),
        !machine.poisoned(fault).healthy,
        machine.poisoned(fault).tablet == machine.tablet,
        machine.poisoned(fault).snapshot == machine.snapshot,
        fault is Image && fault->Image_0 is Pending ==> machine.refused(fault) == machine,
        !(fault is Image && fault->Image_0 is Pending) ==> machine.refused(fault).last_error
            == Some(fault) && !machine.refused(fault).healthy,
{
}

/// The roots that are in use are those of the chunked values, each where it stands.
pub proof fn law_roots_are_those_of_chunked_values(objects: Seq<EntryView>, root: Seq<u8>)
    ensures
        roots_of(objects).contains(root) <==> exists|i: int|
            0 <= i < objects.len() && (#[trigger] objects[i]).object.value == ValueView::Chunked(
                root,
            ),
    decreases objects.len(),
{
    if objects.len() > 0 {
        let front = objects.drop_last();
        let last = objects.len() - 1;
        let before = roots_of(front);
        law_roots_are_those_of_chunked_values(front, root);
        assert(objects[last] == objects.last());
        if let ValueView::Chunked(own) = objects.last().object.value {
            vstd::seq_lib::lemma_seq_contains_after_push(before, own, root);
        }
        if before.contains(root) {
            let i = choose|i: int|
                0 <= i < front.len() && (#[trigger] front[i]).object.value
                    == ValueView::Chunked(root);
            assert(objects[i] == front[i]);
        }
        if exists|i: int|
            0 <= i < objects.len() && (#[trigger] objects[i]).object.value
                == ValueView::Chunked(root) {
            let i = choose|i: int|
                0 <= i < objects.len() && (#[trigger] objects[i]).object.value
                    == ValueView::Chunked(root);
            if i < last {
                assert(front[i] == objects[i]);
            }
        }
    }
}

/// A healthy machine applies an entry as its tablet does; an unhealthy one applies nothing
/// and says why.
pub proof fn law_healthy_machines_apply(
    machine: MachineView,
    log_id: AppliedPointer,
    payload: EntryPayload,
    executed: Executed,
)
    ensures
        ({
            let (after, result) = machine.entry_applied(log_id, payload, executed);
            let (tablet, outcome) = machine.tablet.applied_entry(log_id, payload, executed);
            &&& !machine.healthy ==> after == machine && result == Err::<Option<Seq<u8>>, _>(
                ServeFaultView::Unhealthy(machine.last_error),
            )
            &&& machine.healthy ==> after.tablet == tablet && after.snapshot == machine.snapshot
                && after.fenced == machine.fenced
            &&& machine.healthy && outcome is Ok ==> after.healthy && result == Ok::<
                _,
                ServeFaultView,
            >(outcome->Ok_0)
            &&& machine.healthy && outcome is Err ==> !after.healthy && after.last_error == Some(
                MachineFaultView::Apply(outcome->Err_0),
            )
        }),
{
}

/// Of the two names of an image that a crash can leave behind, the one that the applied
/// file gives counts, if the image is there.
pub proof fn law_the_named_image_is_adopted(
    current: Option<Seq<char>>,
    named: Option<Seq<char>>,
    named_exists: bool,
)
    ensures
        named is Some && named_exists ==> adopted(current, named, named_exists) == named,
        named is None || !named_exists ==> adopted(current, named, named_exists) == current,
{
}

} // verus!
