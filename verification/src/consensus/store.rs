//! The durable log of a group.
//!
//! Votes, entries, truncations, purges and commit pointers are records of one physical
//! log, which all groups of a node share. A group sees its log through the state that its
//! own records fold to. Every change is written first and folded second, so that a crash
//! in between replays the record and comes to the same state; only appended entries are
//! staged while they are written, and unstaged where writing them fails.

use crate::consensus::applied::AppliedPointer;
use crate::consensus::membership::{MembershipView, StoredMembership};
use crate::consensus::types::ConsensusGroupId;
use crate::ids::{NamespaceId, NodeId};
use crate::ranked::{
    below, beyond, keep_below, keep_beyond, lemma_below, lemma_below_all, lemma_beyond,
    lemma_beyond_again, lemma_placed, lemma_placed_again, place, placed, ranked,
    rising, views, HasRank, Ranked,
};
use crate::wire::clone_bytes;
use vstd::prelude::*;

verus! {

/// The write-ahead-log lane that holds consensus history. Worker lanes are numbered from
/// zero, so that the last number never collides with one.
pub const CONSENSUS_LANE: u16 = 0xFFFF;

/// Why the shared log of a node could not be opened.
#[derive(Debug, PartialEq, Eq)]
pub enum SharedOpenError {
    /// The lane refused to open or recover.
    Lane {
        /// Why.
        reason: String,
    },
    /// A record names another namespace than the opener.
    NamespaceMismatch {
        /// Group of the record.
        group: u64,
        /// Namespace of the opener.
        expected: u64,
        /// Namespace of the record.
        found: u64,
    },
}

/// Why the log of a group could not be opened.
#[derive(Debug, Clone, PartialEq, Eq)]
#[non_exhaustive]
pub enum StoreOpenError {
    /// The lane refused to open or recover.
    Lane {
        /// Why.
        reason: String,
    },
    /// A record names another namespace than the opener.
    NamespaceMismatch {
        /// Group of the record.
        group: u64,
        /// Namespace of the opener.
        expected: u64,
        /// Namespace of the record.
        found: u64,
    },
}

impl StoreOpenError {
    /// The failure of a group's log when its lane could not be opened. At that point no
    /// group was read, so that a foreign namespace is a failed recovery.
    pub fn of_lane(error: SharedOpenError) -> (failure: Self)
        ensures
            failure matches StoreOpenError::Lane { reason } && reason@ == match error {
                SharedOpenError::Lane { reason } => reason@,
                SharedOpenError::NamespaceMismatch { .. } => "shared lane recovery failed"@,
            },
    {
        match error {
            SharedOpenError::Lane { reason } => StoreOpenError::Lane { reason },
            SharedOpenError::NamespaceMismatch { .. } => StoreOpenError::Lane {
                reason: "shared lane recovery failed".to_owned(),
            },
        }
    }

    /// The failure of a group's log when its records could not be read.
    pub fn of_group(error: SharedOpenError) -> (failure: Self)
        ensures
            match error {
                SharedOpenError::Lane { reason } => failure == (StoreOpenError::Lane { reason }),
                SharedOpenError::NamespaceMismatch { group, expected, found } => failure == (
                StoreOpenError::NamespaceMismatch { group, expected, found }),
            },
    {
        match error {
            SharedOpenError::Lane { reason } => StoreOpenError::Lane { reason },
            SharedOpenError::NamespaceMismatch { group, expected, found } => {
                StoreOpenError::NamespaceMismatch { group, expected, found }
            },
        }
    }
}

/// What an entry of the log carries.
#[derive(Debug, PartialEq, Eq)]
pub enum LogPayload {
    /// Nothing.
    Blank,
    /// The canonical bytes of a command.
    Normal(Vec<u8>),
    /// New members of the group.
    Membership(StoredMembership),
}

/// What a [`LogPayload`] says.
#[verifier::ext_equal]
pub enum LogPayloadView {
    Blank,
    Normal(Seq<u8>),
    Membership(MembershipView),
}

impl View for LogPayload {
    type V = LogPayloadView;

    open spec fn view(&self) -> LogPayloadView {
        match self {
            LogPayload::Blank => LogPayloadView::Blank,
            LogPayload::Normal(bytes) => LogPayloadView::Normal(bytes@),
            LogPayload::Membership(membership) => LogPayloadView::Membership(membership@),
        }
    }
}

/// One entry of the log.
#[derive(Debug, PartialEq, Eq)]
pub struct LogEntry {
    /// Term, leader and index.
    pub id: AppliedPointer,
    /// What it carries.
    pub payload: LogPayload,
}

/// What a [`LogEntry`] says.
#[verifier::ext_equal]
pub struct LogEntryView {
    pub id: AppliedPointer,
    pub payload: LogPayloadView,
}

impl View for LogEntry {
    type V = LogEntryView;

    open spec fn view(&self) -> LogEntryView {
        LogEntryView { id: self.id, payload: self.payload@ }
    }
}

impl Clone for LogEntry {
    fn clone(&self) -> (copy: Self)
        ensures
            copy@ == self@,
    {
        let payload = match &self.payload {
            LogPayload::Blank => LogPayload::Blank,
            LogPayload::Normal(bytes) => LogPayload::Normal(clone_bytes(bytes)),
            LogPayload::Membership(membership) => LogPayload::Membership(membership.clone()),
        };
        LogEntry { id: self.id, payload }
    }
}

impl Ranked for LogEntryView {
    open spec fn rank(self) -> u128 {
        self.id.index as u128
    }
}

impl HasRank<LogEntryView> for LogEntry {
    fn rank_number(&self) -> u128 {
        self.id.index as u128
    }
}

/// A vote.
#[derive(Debug, Clone, Copy, PartialEq, Eq, Structural)]
pub struct RaftVote {
    /// Term of the vote.
    pub term: u64,
    /// Whom it is for.
    pub candidate: NodeId,
    /// Whether a quorum granted it.
    pub committed: bool,
}

/// What a record says of its group.
#[derive(Debug, PartialEq, Eq)]
pub enum RaftChange {
    /// The group voted.
    Vote(RaftVote),
    /// An entry was appended.
    Entry(LogEntry),
    /// The entries from this index on were removed.
    Truncate {
        /// First index that was removed.
        from_index: u64,
    },
    /// The entries up to this one were removed.
    Purge(AppliedPointer),
    /// The entries up to this one are committed.
    Committed(AppliedPointer),
    /// A snapshot that ends with this entry was installed.
    Snapshot(AppliedPointer),
}

/// What a [`RaftChange`] says.
#[verifier::ext_equal]
pub enum ChangeView {
    Vote(RaftVote),
    Entry(LogEntryView),
    Truncate { from_index: u64 },
    Purge(AppliedPointer),
    Committed(AppliedPointer),
    Snapshot(AppliedPointer),
}

impl View for RaftChange {
    type V = ChangeView;

    open spec fn view(&self) -> ChangeView {
        match self {
            RaftChange::Vote(vote) => ChangeView::Vote(*vote),
            RaftChange::Entry(entry) => ChangeView::Entry(entry@),
            RaftChange::Truncate { from_index } => ChangeView::Truncate {
                from_index: *from_index,
            },
            RaftChange::Purge(through) => ChangeView::Purge(*through),
            RaftChange::Committed(through) => ChangeView::Committed(*through),
            RaftChange::Snapshot(base) => ChangeView::Snapshot(*base),
        }
    }
}

/// One record of the shared log.
#[derive(Debug, PartialEq, Eq)]
pub struct RaftRecord {
    /// Namespace of the group.
    pub namespace: NamespaceId,
    /// The group.
    pub group: ConsensusGroupId,
    /// What the record says of it.
    pub change: RaftChange,
}

/// What a [`RaftRecord`] says.
#[verifier::ext_equal]
pub struct RecordView {
    pub namespace: NamespaceId,
    pub group: ConsensusGroupId,
    pub change: ChangeView,
}

impl View for RaftRecord {
    type V = RecordView;

    open spec fn view(&self) -> RecordView {
        RecordView { namespace: self.namespace, group: self.group, change: self.change@ }
    }
}

/// What the records of a group come to.
#[verifier::ext_equal]
pub struct LogView {
    /// The last vote.
    pub vote: Option<RaftVote>,
    /// The entries, in the order of their indexes.
    pub entries: Seq<LogEntryView>,
    /// The last entry that was purged.
    pub purged: Option<AppliedPointer>,
    /// The last entry that is known to be committed.
    pub committed: Option<AppliedPointer>,
    /// The last entry of the installed snapshot.
    pub snapshot_base: Option<AppliedPointer>,
}

/// The voters that the newest entry with members names; none where there is no such entry.
pub open spec fn newest_voters(entries: Seq<LogEntryView>) -> Seq<NodeId>
    decreases entries.len(),
{
    if entries.len() == 0 {
        Seq::empty()
    } else {
        match entries.last().payload {
            LogPayloadView::Membership(membership) => membership.voters(),
            _ => newest_voters(entries.drop_last()),
        }
    }
}

/// `entries` after `more` were put in their places, one after the other.
pub open spec fn staged(entries: Seq<LogEntryView>, more: Seq<LogEntryView>) -> Seq<LogEntryView>
    decreases more.len(),
{
    if more.len() == 0 {
        entries
    } else {
        placed(staged(entries, more.drop_last()), more.last())
    }
}

/// Whether an index is at least `start` and, where there is an `end`, before it.
pub open spec fn in_range(start: u64, end: Option<u64>) -> spec_fn(LogEntryView) -> bool {
    |entry: LogEntryView|
        start <= entry.id.index && match end {
            Some(end) => entry.id.index < end,
            None => true,
        }
}

/// The first index that goes when everything behind `last_kept` is removed.
pub open spec fn cut_after(last_kept: Option<AppliedPointer>) -> u64
    recommends
        last_kept matches Some(kept) ==> kept.index < u64::MAX,
{
    match last_kept {
        Some(kept) => (kept.index + 1) as u64,
        None => 0,
    }
}

impl LogView {
    /// A log without records.
    pub open spec fn empty() -> Self {
        LogView {
            vote: None,
            entries: Seq::empty(),
            purged: None,
            committed: None,
            snapshot_base: None,
        }
    }

    /// The entries are in order, one to an index.
    pub open spec fn well_formed(self) -> bool {
        rising(self.entries)
    }

    /// The log after a change.
    pub open spec fn folded(self, change: ChangeView) -> Self {
        match change {
            ChangeView::Vote(vote) => LogView { vote: Some(vote), ..self },
            ChangeView::Entry(entry) => LogView { entries: placed(self.entries, entry), ..self },
            ChangeView::Truncate { from_index } => LogView {
                entries: below(self.entries, from_index as u128),
                ..self
            },
            ChangeView::Purge(through) => LogView {
                entries: beyond(self.entries, through.index as u128),
                purged: Some(through),
                ..self
            },
            ChangeView::Committed(through) => LogView { committed: Some(through), ..self },
            ChangeView::Snapshot(base) => LogView { snapshot_base: Some(base), ..self },
        }
    }

    /// The newest entry, or the last purged one where none is left.
    pub open spec fn last_log_id(self) -> Option<AppliedPointer> {
        if self.entries.len() == 0 {
            self.purged
        } else {
            Some(self.entries.last().id)
        }
    }
}

/// What the records of a shared log come to for one group: those of other groups are
/// passed over, and one of its own that names another namespace is refused with the
/// namespace that it names.
pub open spec fn recovered(
    namespace: NamespaceId,
    group: ConsensusGroupId,
    records: Seq<RecordView>,
) -> Result<LogView, NamespaceId>
    decreases records.len(),
{
    if records.len() == 0 {
        Ok(LogView::empty())
    } else {
        let record = records.last();
        match recovered(namespace, group, records.drop_last()) {
            Err(found) => Err(found),
            Ok(log) => if record.group != group {
                Ok(log)
            } else if record.namespace != namespace {
                Err(record.namespace)
            } else {
                Ok(log.folded(record.change))
            },
        }
    }
}

/// A log that could not be opened stays so, whatever follows.
proof fn lemma_refused(
    namespace: NamespaceId,
    group: ConsensusGroupId,
    records: Seq<RecordView>,
    upto: int,
)
    requires
        0 <= upto <= records.len(),
        recovered(namespace, group, records.take(upto)) is Err,
    ensures
        recovered(namespace, group, records) == recovered(namespace, group, records.take(upto)),
    decreases records.len() - upto,
{
    if upto < records.len() {
        assert(records.take(upto + 1).drop_last() =~= records.take(upto));
        lemma_refused(namespace, group, records, upto + 1);
    } else {
        assert(records.take(upto) =~= records);
    }
}

/// The newest and the last purged position of a log.
#[derive(Debug, Clone, Copy, PartialEq, Eq, Structural)]
pub struct LogState {
    /// The last entry that was purged.
    pub last_purged_log_id: Option<AppliedPointer>,
    /// The newest entry, or the last purged one where none is left.
    pub last_log_id: Option<AppliedPointer>,
}

/// The log of one group.
#[derive(Debug, PartialEq, Eq)]
pub struct DurableRaftStore {
    namespace: NamespaceId,
    group: ConsensusGroupId,
    vote: Option<RaftVote>,
    entries: Vec<LogEntry>,
    purged: Option<AppliedPointer>,
    committed: Option<AppliedPointer>,
    snapshot_base: Option<AppliedPointer>,
}

impl View for DurableRaftStore {
    type V = LogView;

    closed spec fn view(&self) -> LogView {
        LogView {
            vote: self.vote,
            entries: views(self.entries@),
            purged: self.purged,
            committed: self.committed,
            snapshot_base: self.snapshot_base,
        }
    }
}

impl DurableRaftStore {
    /// The namespace that the log belongs to.
    pub closed spec fn serves(&self) -> NamespaceId {
        self.namespace
    }

    /// The group that the log belongs to.
    pub closed spec fn keeps(&self) -> ConsensusGroupId {
        self.group
    }

    /// The record of a change of this log.
    pub open spec fn record(&self, change: ChangeView) -> RecordView {
        RecordView { namespace: self.serves(), group: self.keeps(), change }
    }

    /// Opens the log of a group: folds its own records in the order of the shared log.
    /// Records of other groups are passed over.
    pub fn open(
        namespace: NamespaceId,
        group: ConsensusGroupId,
        records: &Vec<RaftRecord>,
    ) -> (store: Result<Self, StoreOpenError>)
        ensures
            match recovered(namespace, group, views(records@)) {
                Ok(log) => store matches Ok(store) && store@ == log && log.well_formed()
                    && store.serves() == namespace && store.keeps() == group,
                Err(found) => store == Err::<Self, StoreOpenError>(
                    StoreOpenError::NamespaceMismatch {
                        group: group.replicates().0,
                        expected: namespace.0,
                        found: found.0,
                    },
                ),
            },
    {
        let mut store = DurableRaftStore {
            namespace,
            group,
            vote: None,
            entries: Vec::new(),
            purged: None,
            committed: None,
            snapshot_base: None,
        };
        let ghost all = views(records@);
        let mut at: usize = 0;
        proof {
            assert(all.take(0) =~= Seq::empty());
            assert(store@ =~= LogView::empty());
        }
        while at < records.len()
            invariant
                at <= records.len(),
                all == views(records@),
                store@.well_formed(),
                store.serves() == namespace,
                store.keeps() == group,
                recovered(namespace, group, all.take(at as int)) == Ok::<LogView, NamespaceId>(
                    store@,
                ),
            decreases records.len() - at,
        {
            let record = &records[at];
            proof {
                assert(all.take(at + 1).drop_last() =~= all.take(at as int));
                assert(all.take(at + 1).last() == record@);
            }
            if record.group == group {
                if record.namespace != namespace {
                    proof {
                        lemma_refused(namespace, group, all, at + 1);
                    }
                    return Err(
                        StoreOpenError::of_group(
                            SharedOpenError::NamespaceMismatch {
                                group: group.tablet().as_u64(),
                                expected: namespace.as_u64(),
                                found: record.namespace.as_u64(),
                            },
                        ),
                    );
                }
                store.fold(&record.change);
            }
            at = at + 1;
        }
        proof {
            assert(all.take(at as int) =~= all);
        }
        Ok(store)
    }

    /// Installs a change that was written.
    pub fn fold(&mut self, change: &RaftChange)
        requires
            old(self)@.well_formed(),
        ensures
            final(self)@ == old(self)@.folded(change@),
            final(self)@.well_formed(),
            final(self).serves() == old(self).serves(),
            final(self).keeps() == old(self).keeps(),
    {
        proof {
            match change@ {
                ChangeView::Entry(entry) => {
                    lemma_placed(self@.entries, entry);
                },
                ChangeView::Truncate { from_index } => {
                    lemma_below(self@.entries, from_index as u128);
                },
                ChangeView::Purge(through) => {
                    lemma_beyond(self@.entries, through.index as u128);
                },
                _ => {},
            }
        }
        match change {
            RaftChange::Vote(vote) => {
                self.vote = Some(*vote);
            },
            RaftChange::Entry(entry) => {
                place(&mut self.entries, entry.clone());
            },
            RaftChange::Truncate { from_index } => {
                keep_below(&mut self.entries, *from_index as u128);
            },
            RaftChange::Purge(through) => {
                keep_beyond(&mut self.entries, through.index as u128);
                self.purged = Some(*through);
            },
            RaftChange::Committed(through) => {
                self.committed = Some(*through);
            },
            RaftChange::Snapshot(base) => {
                self.snapshot_base = Some(*base);
            },
        }
    }

    /// The record of a vote, which is written before the vote counts.
    pub fn save_vote(&self, vote: RaftVote) -> (record: RaftRecord)
        ensures
            record@ == self.record(ChangeView::Vote(vote)),
    {
        RaftRecord {
            namespace: self.namespace,
            group: self.group,
            change: RaftChange::Vote(vote),
        }
    }

    /// Stages entries, which can be read from here on, and returns the records that are
    /// written for them.
    pub fn append(&mut self, entries: &Vec<LogEntry>) -> (records: Vec<RaftRecord>)
        requires
            old(self)@.well_formed(),
        ensures
            final(self)@ == (LogView {
                entries: staged(old(self)@.entries, views(entries@)),
                ..old(self)@
            }),
            final(self)@.well_formed(),
            final(self).serves() == old(self).serves(),
            final(self).keeps() == old(self).keeps(),
            views(records@) == Seq::new(
                entries@.len(),
                |i: int| old(self).record(ChangeView::Entry(entries@[i]@)),
            ),
    {
        let ghost all = views(entries@);
        let mut records: Vec<RaftRecord> = Vec::new();
        let mut at: usize = 0;
        proof {
            assert(all.take(0) =~= Seq::empty());
            assert(self@ =~= LogView {
                entries: staged(old(self)@.entries, all.take(0)),
                ..old(self)@
            });
        }
        while at < entries.len()
            invariant
                at <= entries.len(),
                records.len() == at,
                all == views(entries@),
                self@.well_formed(),
                self@ == (LogView {
                    entries: staged(old(self)@.entries, all.take(at as int)),
                    ..old(self)@
                }),
                self.serves() == old(self).serves(),
                self.keeps() == old(self).keeps(),
                forall|i: int|
                    0 <= i < at ==> (#[trigger] records@[i])@ == old(self).record(
                        ChangeView::Entry(entries@[i]@),
                    ),
            decreases entries.len() - at,
        {
            let change = RaftChange::Entry(entries[at].clone());
            self.fold(&change);
            records.push(RaftRecord { namespace: self.namespace, group: self.group, change });
            proof {
                assert(all.take(at + 1).drop_last() =~= all.take(at as int));
                assert(all.take(at + 1).last() == entries@[at as int]@);
            }
            at = at + 1;
        }
        proof {
            assert(all.take(at as int) =~= all);
            assert(views(records@) =~= Seq::new(
                entries@.len(),
                |i: int| old(self).record(ChangeView::Entry(entries@[i]@)),
            ));
        }
        records
    }

    /// Takes back the entries from `first` on, which were staged and could not be written.
    pub fn unstage(&mut self, first: u64)
        requires
            old(self)@.well_formed(),
        ensures
            final(self)@ == (LogView {
                entries: below(old(self)@.entries, first as u128),
                ..old(self)@
            }),
            final(self)@.well_formed(),
            final(self).serves() == old(self).serves(),
            final(self).keeps() == old(self).keeps(),
    {
        self.fold(&RaftChange::Truncate { from_index: first });
    }

    /// The record that removes everything behind `last_kept`, or everything.
    pub fn truncate_after(&self, last_kept: Option<AppliedPointer>) -> (record: RaftRecord)
        requires
            last_kept matches Some(kept) ==> kept.index < u64::MAX,
        ensures
            record@ == self.record(ChangeView::Truncate { from_index: cut_after(last_kept) }),
    {
        let from_index: u64 = match last_kept {
            Some(kept) => kept.index + 1,
            None => 0,
        };
        RaftRecord {
            namespace: self.namespace,
            group: self.group,
            change: RaftChange::Truncate { from_index },
        }
    }

    /// The record that removes the entries up to `log_id`.
    pub fn purge(&self, log_id: AppliedPointer) -> (record: RaftRecord)
        ensures
            record@ == self.record(ChangeView::Purge(log_id)),
    {
        RaftRecord {
            namespace: self.namespace,
            group: self.group,
            change: RaftChange::Purge(log_id),
        }
    }

    /// The record of a commit pointer.
    pub fn save_committed(&self, committed: AppliedPointer) -> (record: RaftRecord)
        ensures
            record@ == self.record(ChangeView::Committed(committed)),
    {
        RaftRecord {
            namespace: self.namespace,
            group: self.group,
            change: RaftChange::Committed(committed),
        }
    }

    /// Returns the commit pointer.
    pub fn read_committed(&self) -> (committed: Option<AppliedPointer>)
        ensures
            committed == self@.committed,
    {
        self.committed
    }

    /// Returns the last entry of the installed snapshot.
    pub fn snapshot_base(&self) -> (base: Option<AppliedPointer>)
        ensures
            base == self@.snapshot_base,
    {
        self.snapshot_base
    }

    /// Returns the newest and the last purged position.
    pub fn get_log_state(&self) -> (state: LogState)
        ensures
            state.last_purged_log_id == self@.purged,
            state.last_log_id == self@.last_log_id(),
    {
        let last_log_id = if self.entries.len() == 0 {
            self.purged
        } else {
            Some(self.entries[self.entries.len() - 1].id)
        };
        LogState { last_purged_log_id: self.purged, last_log_id }
    }

    /// Returns the voters that the newest entry with members names; none where no such
    /// entry is left.
    pub fn membership_voters(&self) -> (voters: Vec<NodeId>)
        ensures
            voters@ == newest_voters(self@.entries),
    {
        let ghost all = self@.entries;
        let mut left: usize = self.entries.len();
        proof {
            assert(all.take(left as int) =~= all);
        }
        while left > 0
            invariant
                left <= self.entries.len(),
                all == views(self.entries@),
                newest_voters(all.take(left as int)) == newest_voters(all),
            decreases left,
        {
            proof {
                assert(all.take(left as int).last() == self.entries@[left - 1]@);
                assert(all.take(left as int).drop_last() =~= all.take(left - 1));
            }
            left = left - 1;
            if let LogPayload::Membership(membership) = &self.entries[left].payload {
                return membership.voters();
            }
        }
        Vec::new()
    }

    /// Returns a reader of the log.
    pub fn get_log_reader(&self) -> (reader: DurableLogReader<'_>)
        ensures
            reader@ == self@,
    {
        DurableLogReader { store: self }
    }
}

/// Reads the log of a group.
pub struct DurableLogReader<'a> {
    store: &'a DurableRaftStore,
}

impl<'a> View for DurableLogReader<'a> {
    type V = LogView;

    closed spec fn view(&self) -> LogView {
        self.store@
    }
}

impl<'a> DurableLogReader<'a> {
    /// Returns the entries from `start` on and, where there is an `end`, before it.
    pub fn try_get_log_entries(&self, start: u64, end: Option<u64>) -> (entries: Vec<LogEntry>)
        ensures
            views(entries@) == self@.entries.filter(in_range(start, end)),
    {
        let ghost all = self@.entries;
        let ghost wanted = in_range(start, end);
        let mut entries: Vec<LogEntry> = Vec::new();
        let mut at: usize = 0;
        proof {
            reveal(Seq::filter);
            assert(views(entries@) =~= all.take(0).filter(wanted));
        }
        while at < self.store.entries.len()
            invariant
                at <= self.store.entries.len(),
                all == views(self.store.entries@),
                wanted == in_range(start, end),
                views(entries@) == all.take(at as int).filter(wanted),
            decreases self.store.entries.len() - at,
        {
            let entry = &self.store.entries[at];
            let index: u64 = entry.id.index;
            let before_end = match end {
                Some(end) => index < end,
                None => true,
            };
            proof {
                reveal(Seq::filter);
                assert(all.take(at + 1).drop_last() =~= all.take(at as int));
                assert(all.take(at + 1).last() == entry@);
            }
            if start <= index && before_end {
                let ghost held = entries@;
                entries.push(entry.clone());
                proof {
                    assert(views(entries@) =~= views(held).push(entry@));
                }
            }
            at = at + 1;
        }
        proof {
            assert(all.take(at as int) =~= all);
        }
        entries
    }

    /// Returns the last vote.
    pub fn read_vote(&self) -> (vote: Option<RaftVote>)
        ensures
            vote == self@.vote,
    {
        self.store.vote
    }
}

/// A record that was written counts, whether it was folded before a crash or is found by
/// recovery: opening the log again comes to the state that folding it gives.
pub proof fn law_recovery_converges(
    namespace: NamespaceId,
    group: ConsensusGroupId,
    records: Seq<RecordView>,
    change: ChangeView,
    log: LogView,
)
    requires
        recovered(namespace, group, records) == Ok::<LogView, NamespaceId>(log),
    ensures
        recovered(namespace, group, records.push(RecordView { namespace, group, change }))
            == Ok::<LogView, NamespaceId>(log.folded(change)),
        log.folded(change).folded(change) == log.folded(change),
{
    let record = RecordView { namespace, group, change };
    assert(records.push(record).drop_last() =~= records);
    match change {
        ChangeView::Entry(entry) => {
            lemma_placed_again(log.entries, entry);
        },
        ChangeView::Truncate { from_index } => {
            lemma_below(log.entries, from_index as u128);
        },
        ChangeView::Purge(through) => {
            lemma_beyond_again(log.entries, through.index as u128);
        },
        _ => {},
    }
}

/// The records of other groups never leak across: without them the log is the same.
pub proof fn law_groups_never_leak(
    namespace: NamespaceId,
    group: ConsensusGroupId,
    records: Seq<RecordView>,
)
    ensures
        recovered(namespace, group, records) == recovered(
            namespace,
            group,
            records.filter(|record: RecordView| record.group == group),
        ),
    decreases records.len(),
{
    reveal(Seq::filter);
    let own = |record: RecordView| record.group == group;
    if records.len() > 0 {
        let front = records.drop_last();
        law_groups_never_leak(namespace, group, front);
        if records.last().group == group {
            assert(front.filter(own).push(records.last()).drop_last() =~= front.filter(own));
        }
    }
}

/// Every log that was opened or changed holds its entries in order, one to an index.
pub proof fn law_logs_stay_in_order(
    namespace: NamespaceId,
    group: ConsensusGroupId,
    records: Seq<RecordView>,
)
    ensures
        recovered(namespace, group, records) matches Ok(log) ==> log.well_formed(),
    decreases records.len(),
{
    if records.len() > 0 {
        law_logs_stay_in_order(namespace, group, records.drop_last());
        if let Ok(log) = recovered(namespace, group, records.drop_last()) {
            match records.last().change {
                ChangeView::Entry(entry) => {
                    lemma_placed(log.entries, entry);
                },
                ChangeView::Truncate { from_index } => {
                    lemma_below(log.entries, from_index as u128);
                },
                ChangeView::Purge(through) => {
                    lemma_beyond(log.entries, through.index as u128);
                },
                _ => {},
            }
        }
    }
}

/// What was staged can be read, and everything of another index is as it was.
proof fn lemma_staged(entries: Seq<LogEntryView>, more: Seq<LogEntryView>)
    requires
        rising(entries),
        rising(more),
    ensures
        rising(staged(entries, more)),
        forall|index: u128| #[trigger]
            ranked(staged(entries, more), index) == match ranked(more, index) {
                Some(entry) => Some(entry),
                None => ranked(entries, index),
            },
    decreases more.len(),
{
    if more.len() > 0 {
        let front = more.drop_last();
        assert(rising(front)) by {
            assert forall|i: int, j: int| 0 <= i < j < front.len() implies (
            #[trigger] front[i]).rank() < (#[trigger] front[j]).rank() by {
                assert(more[i].rank() < more[j].rank());
            }
        }
        lemma_staged(entries, front);
        lemma_placed(staged(entries, front), more.last());
        assert forall|index: u128| #[trigger] ranked(staged(entries, more), index) == match ranked(
            more,
            index,
        ) {
            Some(entry) => Some(entry),
            None => ranked(entries, index),
        } by {
            assert(ranked(staged(entries, front), index) == match ranked(front, index) {
                Some(entry) => Some(entry),
                None => ranked(entries, index),
            });
        }
    }
}

/// Entries can be read as soon as they are staged: each index of the batch has the entry
/// of the batch, and every other index has what it had.
pub proof fn law_staged_entries_are_readable(log: LogView, batch: Seq<LogEntryView>, index: u64)
    requires
        log.well_formed(),
        rising(batch),
    ensures
        ranked(staged(log.entries, batch), index as u128) == match ranked(batch, index as u128) {
            Some(entry) => Some(entry),
            None => ranked(log.entries, index as u128),
        },
{
    lemma_staged(log.entries, batch);
}

/// A failed write leaves no trace: taking back a batch that was staged behind the log
/// gives the log as it was.
pub proof fn law_failed_appends_leave_no_trace(
    log: LogView,
    batch: Seq<LogEntryView>,
    first: u64,
)
    requires
        log.well_formed(),
        forall|i: int| 0 <= i < log.entries.len() ==> (#[trigger] log.entries[i]).id.index < first,
        forall|i: int| 0 <= i < batch.len() ==> first <= (#[trigger] batch[i]).id.index,
    ensures
        below(staged(log.entries, batch), first as u128) == log.entries,
    decreases batch.len(),
{
    let limit = first as u128;
    if batch.len() == 0 {
        assert forall|i: int| 0 <= i < log.entries.len() implies (#[trigger] log.entries[i]).rank()
            < limit by {
            assert(log.entries[i].id.index < first);
        }
        lemma_below_all(log.entries, limit);
    } else {
        let front = batch.drop_last();
        assert forall|i: int| 0 <= i < front.len() implies first <= (#[trigger] front[i]).id.index
            by {
            assert(front[i] == batch[i]);
        }
        law_failed_appends_leave_no_trace(log, front, first);
        assert(batch[batch.len() - 1] == batch.last());
        lemma_placed_beyond(staged(log.entries, front), batch.last(), limit);
    }
}

/// An item of a high rank is not seen among the low ones.
proof fn lemma_placed_beyond(entries: Seq<LogEntryView>, entry: LogEntryView, limit: u128)
    requires
        limit <= entry.rank(),
    ensures
        below(placed(entries, entry), limit) == below(entries, limit),
    decreases entries.len(),
{
    let after = placed(entries, entry);
    if entries.len() == 0 {
        assert(after.drop_last() =~= entries);
    } else if entries.last().rank() < entry.rank() {
        assert(after.drop_last() =~= entries);
    } else if entries.last().rank() == entry.rank() {
        assert(after.drop_last() =~= entries.drop_last());
    } else {
        lemma_placed_beyond(entries.drop_last(), entry, limit);
        assert(after.drop_last() =~= placed(entries.drop_last(), entry));
    }
}

/// Truncation keeps exactly the entries up to the one that it names, and everything goes
/// where it names none; a purge removes exactly those up to the one that it names.
pub proof fn law_cuts_are_exact(
    log: LogView,
    last_kept: Option<AppliedPointer>,
    purged: AppliedPointer,
    index: u64,
)
    requires
        log.well_formed(),
        last_kept matches Some(kept) ==> kept.index < u64::MAX,
    ensures
        ({
            let truncated = log.folded(
                ChangeView::Truncate { from_index: cut_after(last_kept) },
            ).entries;
            match last_kept {
                Some(kept) => ranked(truncated, index as u128) == if index <= kept.index {
                    ranked(log.entries, index as u128)
                } else {
                    None
                },
                None => truncated.len() == 0,
            }
        }),
        ranked(log.folded(ChangeView::Purge(purged)).entries, index as u128) == if index
            <= purged.index {
            None
        } else {
            ranked(log.entries, index as u128)
        },
{
    lemma_below(log.entries, cut_after(last_kept) as u128);
    lemma_beyond(log.entries, purged.index as u128);
    if last_kept is None {
        let truncated = below(log.entries, 0);
        if truncated.len() > 0 {
            assert(truncated[0].rank() < 0);
        }
    }
}

/// The vote that was saved last is the one that fences, whichever was held before, and saving
/// it touches nothing else.
pub proof fn law_the_last_vote_fences(log: LogView, vote: RaftVote)
    ensures
        ({
            let after = log.folded(ChangeView::Vote(vote));
            &&& after.vote == Some(vote)
            &&& after.entries == log.entries
            &&& after.purged == log.purged
            &&& after.committed == log.committed
            &&& after.snapshot_base == log.snapshot_base
        }),
{
}

/// Each pointer of a log is the one that was recorded last, whichever was held before, and
/// recording it leaves the others and the vote alone. Only a purge removes entries with it.
pub proof fn law_the_last_pointer_stands(log: LogView, pointer: AppliedPointer)
    ensures
        ({
            let after = log.folded(ChangeView::Committed(pointer));
            &&& after.committed == Some(pointer)
            &&& after.vote == log.vote
            &&& after.entries == log.entries
            &&& after.purged == log.purged
            &&& after.snapshot_base == log.snapshot_base
        }),
        ({
            let after = log.folded(ChangeView::Snapshot(pointer));
            &&& after.snapshot_base == Some(pointer)
            &&& after.vote == log.vote
            &&& after.entries == log.entries
            &&& after.purged == log.purged
            &&& after.committed == log.committed
        }),
        ({
            let after = log.folded(ChangeView::Purge(pointer));
            &&& after.purged == Some(pointer)
            &&& after.vote == log.vote
            &&& after.committed == log.committed
            &&& after.snapshot_base == log.snapshot_base
        }),
{
}

/// An entry that was recorded last is the one at its index, whichever stood there before; at
/// every other index, and in everything but the entries, the log is as it was.
pub proof fn law_the_last_entry_stands(log: LogView, entry: LogEntryView, index: u64)
    requires
        log.well_formed(),
    ensures
        ({
            let after = log.folded(ChangeView::Entry(entry));
            &&& ranked(after.entries, entry.id.index as u128) == Some(entry)
            &&& index != entry.id.index ==> ranked(after.entries, index as u128) == ranked(
                log.entries,
                index as u128,
            )
            &&& after.vote == log.vote
            &&& after.purged == log.purged
            &&& after.committed == log.committed
            &&& after.snapshot_base == log.snapshot_base
        }),
{
    lemma_placed(log.entries, entry);
}

/// A truncation removes the entries from its index on and no other, and touches nothing else:
/// least of all the vote or what is known to be committed.
pub proof fn law_truncation_keeps_the_rest(log: LogView, from_index: u64, index: u64)
    requires
        log.well_formed(),
    ensures
        ({
            let after = log.folded(ChangeView::Truncate { from_index });
            &&& index < from_index ==> ranked(after.entries, index as u128) == ranked(
                log.entries,
                index as u128,
            )
            &&& index >= from_index ==> ranked(after.entries, index as u128) is None
            &&& after.vote == log.vote
            &&& after.purged == log.purged
            &&& after.committed == log.committed
            &&& after.snapshot_base == log.snapshot_base
        }),
{
    lemma_below(log.entries, from_index as u128);
}

/// Recovery gives the vote of the last vote record of the group: no record of another kind and
/// none of another group brings an earlier one back.
pub proof fn law_recovered_votes_are_the_last(
    namespace: NamespaceId,
    group: ConsensusGroupId,
    records: Seq<RecordView>,
    at: int,
    log: LogView,
)
    requires
        recovered(namespace, group, records) == Ok::<LogView, NamespaceId>(log),
        0 <= at < records.len(),
        records[at].group == group,
        records[at].change is Vote,
        forall|i: int|
            at < i < records.len() && (#[trigger] records[i]).group == group ==> !(
            records[i].change is Vote),
    ensures
        records[at].change == ChangeView::Vote(log.vote->0),
        log.vote is Some,
    decreases records.len(),
{
    let front = records.drop_last();
    let last = records.len() - 1;
    if at < last {
        assert(front[at] == records[at]);
        assert forall|i: int| at < i < front.len() && (#[trigger] front[i]).group == group implies
            !(front[i].change is Vote) by {
            assert(front[i] == records[i]);
        }
        law_recovered_votes_are_the_last(
            namespace,
            group,
            front,
            at,
            recovered(namespace, group, front)->Ok_0,
        );
        assert(records[last] == records.last());
    }
}

/// Recovery gives the commit pointer of the last such record of the group.
pub proof fn law_recovered_commits_are_the_last(
    namespace: NamespaceId,
    group: ConsensusGroupId,
    records: Seq<RecordView>,
    at: int,
    log: LogView,
)
    requires
        recovered(namespace, group, records) == Ok::<LogView, NamespaceId>(log),
        0 <= at < records.len(),
        records[at].group == group,
        records[at].change is Committed,
        forall|i: int|
            at < i < records.len() && (#[trigger] records[i]).group == group ==> !(
            records[i].change is Committed),
    ensures
        log.committed is Some,
        records[at].change == ChangeView::Committed(log.committed->0),
    decreases records.len(),
{
    let front = records.drop_last();
    let last = records.len() - 1;
    if at < last {
        assert(front[at] == records[at]);
        assert forall|i: int| at < i < front.len() && (#[trigger] front[i]).group == group implies
            !(front[i].change is Committed) by {
            assert(front[i] == records[i]);
        }
        law_recovered_commits_are_the_last(
            namespace,
            group,
            front,
            at,
            recovered(namespace, group, front)->Ok_0,
        );
        assert(records[last] == records.last());
    }
}

/// A lane without records of a group gives it an empty log: no vote, no entries, nothing
/// purged, committed or installed.
pub proof fn law_unrecorded_groups_start_empty(
    namespace: NamespaceId,
    group: ConsensusGroupId,
    records: Seq<RecordView>,
)
    requires
        forall|i: int| 0 <= i < records.len() ==> (#[trigger] records[i]).group != group,
    ensures
        recovered(namespace, group, records) matches Ok(log) && {
            &&& log.vote is None
            &&& log.entries.len() == 0
            &&& log.purged is None
            &&& log.committed is None
            &&& log.snapshot_base is None
        },
    decreases records.len(),
{
    if records.len() > 0 {
        let front = records.drop_last();
        assert forall|i: int| 0 <= i < front.len() implies (#[trigger] front[i]).group != group by {
            assert(front[i] == records[i]);
        }
        law_unrecorded_groups_start_empty(namespace, group, front);
        assert(records[records.len() - 1] == records.last());
    }
}

/// A log opens exactly where every record of its group names its namespace.
pub proof fn law_foreign_namespaces_are_refused(
    namespace: NamespaceId,
    group: ConsensusGroupId,
    records: Seq<RecordView>,
)
    ensures
        recovered(namespace, group, records) is Ok <==> forall|i: int|
            0 <= i < records.len() && (#[trigger] records[i]).group == group
                ==> records[i].namespace == namespace,
    decreases records.len(),
{
    if records.len() > 0 {
        let front = records.drop_last();
        let last = records.len() - 1;
        law_foreign_namespaces_are_refused(namespace, group, front);
        assert(records[last] == records.last());
        assert(forall|i: int| 0 <= i < last ==> #[trigger] front[i] == records[i]);
        if recovered(namespace, group, records) is Ok {
            assert forall|i: int|
                0 <= i < records.len() && (#[trigger] records[i]).group == group implies
                records[i].namespace == namespace by {
                if i < last {
                    assert(front[i].namespace == namespace);
                }
            }
        }
        if forall|i: int|
            0 <= i < records.len() && (#[trigger] records[i]).group == group
                ==> records[i].namespace == namespace {
            assert forall|i: int|
                0 <= i < front.len() && (#[trigger] front[i]).group == group implies
                front[i].namespace == namespace by {
                assert(records[i].namespace == namespace);
            }
        }
    }
}

/// The newest position of a log is at or beyond that of every entry, and where no entry is
/// left it is that of the last purge.
pub proof fn law_the_newest_entry_is_the_last(log: LogView, at: int)
    requires
        log.well_formed(),
    ensures
        log.entries.len() == 0 ==> log.last_log_id() == log.purged,
        0 <= at < log.entries.len() ==> {
            &&& log.last_log_id() is Some
            &&& log.entries[at].id.index <= log.last_log_id()->0.index
            &&& exists|i: int|
                0 <= i < log.entries.len() && (#[trigger] log.entries[i]).id
                    == log.last_log_id()->0
        },
{
    if 0 <= at < log.entries.len() {
        let last = log.entries.len() - 1;
        assert(log.entries[last] == log.entries.last());
        if at < last {
            assert(log.entries[at].rank() < log.entries[last].rank());
        }
    }
}

/// The voters of a log are those of its newest entry with members.
pub proof fn law_newest_members_vote(entries: Seq<LogEntryView>, at: int)
    requires
        0 <= at < entries.len(),
        entries[at].payload is Membership,
        forall|i: int| at < i < entries.len() ==> !((#[trigger] entries[i]).payload is Membership),
    ensures
        entries[at].payload matches LogPayloadView::Membership(members) && newest_voters(entries)
            == members.voters(),
    decreases entries.len(),
{
    let front = entries.drop_last();
    let last = entries.len() - 1;
    assert(entries[last] == entries.last());
    if at < last {
        assert(front[at] == entries[at]);
        assert forall|i: int| at < i < front.len() implies !(
        (#[trigger] front[i]).payload is Membership) by {
            assert(front[i] == entries[i]);
        }
        law_newest_members_vote(front, at);
    }
}

/// A read gives exactly the entries of its range: those from `start` on and before `end`.
pub proof fn law_reads_cover_their_range(
    entries: Seq<LogEntryView>,
    start: u64,
    end: Option<u64>,
    entry: LogEntryView,
)
    ensures
        entries.filter(in_range(start, end)).contains(entry) <==> {
            &&& entries.contains(entry)
            &&& start <= entry.id.index
            &&& end matches Some(end) ==> entry.id.index < end
        },
    decreases entries.len(),
{
    reveal(Seq::filter);
    let wanted = in_range(start, end);
    if entries.len() > 0 {
        let front = entries.drop_last();
        law_reads_cover_their_range(front, start, end, entry);
        vstd::seq_lib::lemma_seq_contains_after_push(front, entries.last(), entry);
        vstd::seq_lib::lemma_seq_contains_after_push(
            front.filter(wanted),
            entries.last(),
            entry,
        );
        assert(front.push(entries.last()) =~= entries);
    }
}

} // verus!
