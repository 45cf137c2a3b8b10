//! When each conflict key was last proposed.
//!
//! Entries are kept in the order of their keys: kind, cluster, namespace, target.
//! A memory that grows beyond its bound forgets its smallest keys.

use crate::bounded::{keep_newest, newest};
use crate::control::adaptive::action::{
    ActionConflictKey, ActionConflictKeyView, ActionKind, ActionTarget, ActionTargetView,
};
use crate::ids::{ObservationWindowId, TabletId};
use crate::search::{
    first_where, lemma_first_where, lemma_first_where_absent, lemma_first_where_found,
};
use vstd::prelude::*;

verus! {

/// The place of a kind among the kinds.
pub open spec fn kind_rank(kind: ActionKind) -> u128 {
    match kind {
        ActionKind::AdjustMemoryBudget => 0,
        ActionKind::ChangeMaterializationIntent => 1,
        ActionKind::ChangeRedundancyPreference => 2,
        ActionKind::AdjustRepairBudget => 3,
        ActionKind::AdjustScrubBudget => 4,
        ActionKind::RecommendTabletSplit => 5,
        ActionKind::RecommendTabletMerge => 6,
        ActionKind::RecommendMigration => 7,
    }
}

/// The numbers by which a target is ordered.
pub open spec fn target_rank(target: ActionTargetView) -> Seq<u128> {
    match target {
        ActionTargetView::Tablet(tablet) => seq![0u128, tablet.0 as u128],
        ActionTargetView::Tablets(tablets) => seq![1u128] + Seq::new(
            tablets.len(),
            |i: int| tablets[i].0 as u128,
        ),
        ActionTargetView::Migration { tablet, from, to } => seq![
            2u128,
            tablet.0 as u128,
            from.0 as u128,
            to.0 as u128,
        ],
    }
}

/// The numbers by which a conflict key is ordered.
pub open spec fn key_rank(key: ActionConflictKeyView) -> Seq<u128> {
    seq![kind_rank(key.kind), key.scope.cluster.0, key.scope.namespace.0 as u128] + target_rank(
        key.target,
    )
}

/// Whether `a` comes before `b` in lexicographic order.
pub open spec fn lexically_before(a: Seq<u128>, b: Seq<u128>) -> bool
    decreases a.len(),
{
    if b.len() == 0 {
        false
    } else if a.len() == 0 {
        true
    } else if a[0] != b[0] {
        a[0] < b[0]
    } else {
        lexically_before(a.drop_first(), b.drop_first())
    }
}

proof fn lemma_before_transitive(a: Seq<u128>, b: Seq<u128>, c: Seq<u128>)
    requires
        lexically_before(a, b),
        lexically_before(b, c),
    ensures
        lexically_before(a, c),
    decreases a.len(),
{
    if a.len() > 0 && a[0] == b[0] && b[0] == c[0] {
        lemma_before_transitive(a.drop_first(), b.drop_first(), c.drop_first());
    }
}

proof fn lemma_before_irreflexive(a: Seq<u128>)
    ensures
        !lexically_before(a, a),
    decreases a.len(),
{
    if a.len() > 0 {
        lemma_before_irreflexive(a.drop_first());
    }
}

proof fn lemma_before_total(a: Seq<u128>, b: Seq<u128>)
    requires
        a != b,
    ensures
        lexically_before(a, b) || lexically_before(b, a),
    decreases a.len(),
{
    if a.len() > 0 && b.len() > 0 && a[0] == b[0] {
        if a.drop_first() == b.drop_first() {
            assert(a =~= seq![a[0]] + a.drop_first());
            assert(b =~= seq![b[0]] + b.drop_first());
        } else {
            lemma_before_total(a.drop_first(), b.drop_first());
        }
    } else if a.len() == 0 && b.len() == 0 {
        assert(a =~= b);
    }
}

/// Keys with one rank are the same key.
pub proof fn lemma_rank_injective(a: ActionConflictKeyView, b: ActionConflictKeyView)
    requires
        key_rank(a) == key_rank(b),
    ensures
        a == b,
{
    let ra = key_rank(a);
    let rb = key_rank(b);
    assert(ra[0] == kind_rank(a.kind) && rb[0] == kind_rank(b.kind));
    assert(ra[1] == a.scope.cluster.0 && rb[1] == b.scope.cluster.0);
    assert(ra[2] == a.scope.namespace.0 as u128 && rb[2] == b.scope.namespace.0 as u128);
    let ta = target_rank(a.target);
    let tb = target_rank(b.target);
    assert(ra.skip(3) =~= ta);
    assert(rb.skip(3) =~= tb);
    assert(ta[0] == tb[0]);
    match (a.target, b.target) {
        (ActionTargetView::Tablet(x), ActionTargetView::Tablet(y)) => {
            assert(ta[1] == tb[1]);
        },
        (ActionTargetView::Tablets(x), ActionTargetView::Tablets(y)) => {
            assert(x.len() == y.len());
            assert forall|i: int| 0 <= i < x.len() implies x[i] == y[i] by {
                assert(ta[i + 1] == x[i].0 as u128);
                assert(tb[i + 1] == y[i].0 as u128);
            }
            assert(x =~= y);
        },
        (
            ActionTargetView::Migration { tablet, from, to },
            ActionTargetView::Migration { tablet: t, from: f, to: o },
        ) => {
            assert(ta[1] == tb[1]);
            assert(ta[2] == tb[2]);
            assert(ta[3] == tb[3]);
        },
        _ => {},
    }
}

fn rank_of(key: &ActionConflictKey) -> (rank: Vec<u128>)
    ensures
        rank@ == key_rank(key@),
{
    let kind: u128 = match key.kind {
        ActionKind::AdjustMemoryBudget => 0,
        ActionKind::ChangeMaterializationIntent => 1,
        ActionKind::ChangeRedundancyPreference => 2,
        ActionKind::AdjustRepairBudget => 3,
        ActionKind::AdjustScrubBudget => 4,
        ActionKind::RecommendTabletSplit => 5,
        ActionKind::RecommendTabletMerge => 6,
        ActionKind::RecommendMigration => 7,
    };
    let mut rank: Vec<u128> = Vec::new();
    rank.push(kind);
    rank.push(key.scope.cluster.as_u128());
    rank.push(key.scope.namespace.as_u64() as u128);
    let ghost head = rank@;
    proof {
        assert(head =~= seq![
            kind_rank(key@.kind),
            key@.scope.cluster.0,
            key@.scope.namespace.0 as u128,
        ]);
    }
    match &key.target {
        ActionTarget::Tablet(tablet) => {
            rank.push(0);
            rank.push(tablet.as_u64() as u128);
        },
        ActionTarget::Tablets(tablets) => {
            let targets: &[TabletId] = tablets.as_slice();
            rank.push(1);
            let mut at: usize = 0;
            while at < targets.len()
                invariant
                    at <= targets.len(),
                    rank@ == head.push(1u128) + Seq::new(at as nat, |i: int| targets@[i].0 as u128),
                decreases targets.len() - at,
            {
                rank.push(targets[at].as_u64() as u128);
                at = at + 1;
                proof {
                    assert(rank@ =~= head.push(1u128) + Seq::new(
                        at as nat,
                        |i: int| targets@[i].0 as u128,
                    ));
                }
            }
        },
        ActionTarget::Migration { tablet, from, to } => {
            rank.push(2);
            rank.push(tablet.as_u64() as u128);
            rank.push(from.as_u64() as u128);
            rank.push(to.as_u64() as u128);
        },
    }
    proof {
        assert(rank@ =~= key_rank(key@));
    }
    rank
}

fn is_before(a: &Vec<u128>, b: &Vec<u128>) -> (before: bool)
    ensures
        before == lexically_before(a@, b@),
{
    let mut at: usize = 0;
    proof {
        assert(a@.skip(0) =~= a@);
        assert(b@.skip(0) =~= b@);
    }
    while at < a.len() && at < b.len()
        invariant
            at <= a.len(),
            at <= b.len(),
            lexically_before(a@, b@) == lexically_before(a@.skip(at as int), b@.skip(at as int)),
        decreases a.len() - at,
    {
        proof {
            assert(a@.skip(at as int).drop_first() =~= a@.skip(at + 1));
            assert(b@.skip(at as int).drop_first() =~= b@.skip(at + 1));
        }
        if a[at] != b[at] {
            return a[at] < b[at];
        }
        at = at + 1;
    }
    at < b.len()
}

/// One remembered proposal.
#[derive(Debug)]
pub struct Cooldown {
    /// What was proposed.
    pub key: ActionConflictKey,
    /// In which window.
    pub window: ObservationWindowId,
}

/// What a [`Cooldown`] says.
#[verifier::ext_equal]
pub struct CooldownView {
    pub key: ActionConflictKeyView,
    pub window: ObservationWindowId,
}

impl View for Cooldown {
    type V = CooldownView;

    open spec fn view(&self) -> CooldownView {
        CooldownView { key: self.key@, window: self.window }
    }
}

impl Clone for Cooldown {
    fn clone(&self) -> (copy: Self)
        ensures
            copy@ == self@,
    {
        Cooldown { key: self.key.clone(), window: self.window }
    }
}

/// The views of a list of entries.
pub open spec fn cooldown_views(entries: Seq<Cooldown>) -> Seq<CooldownView> {
    Seq::new(entries.len(), |i: int| entries[i]@)
}

/// Whether the keys of `entries` strictly ascend.
pub open spec fn keys_ascend(entries: Seq<CooldownView>) -> bool {
    forall|i: int, j: int|
        0 <= i < j < entries.len() ==> lexically_before(
            key_rank((#[trigger] entries[i]).key),
            key_rank((#[trigger] entries[j]).key),
        )
}

/// `entries` with `entry` in its place, instead of the one with its key if there is one.
pub open spec fn remembered(entries: Seq<CooldownView>, entry: CooldownView) -> Seq<CooldownView>
    decreases entries.len(),
{
    if entries.len() == 0 {
        seq![entry]
    } else if entries.last().key == entry.key {
        entries.drop_last().push(entry)
    } else if lexically_before(key_rank(entries.last().key), key_rank(entry.key)) {
        entries.push(entry)
    } else {
        remembered(entries.drop_last(), entry).push(entries.last())
    }
}

/// The window in which `key` was last proposed.
pub open spec fn recalled(entries: Seq<CooldownView>, key: ActionConflictKeyView) -> Option<
    ObservationWindowId,
> {
    match first_where(entries, |e: CooldownView| e.key == key) {
        Some(at) => Some(entries[at].window),
        None => None,
    }
}

proof fn lemma_remembered_members(
    entries: Seq<CooldownView>,
    entry: CooldownView,
    i: int,
)
    requires
        0 <= i < remembered(entries, entry).len(),
    ensures
        remembered(entries, entry)[i] == entry || exists|k: int|
            0 <= k < entries.len() && #[trigger] entries[k] == remembered(entries, entry)[i],
    decreases entries.len(),
{
    let r = remembered(entries, entry);
    if entries.len() == 0 {
    } else if entries.last().key == entry.key {
        if i < entries.len() - 1 {
            assert(entries[i] == r[i]);
        }
    } else if lexically_before(key_rank(entries.last().key), key_rank(entry.key)) {
        if i < entries.len() {
            assert(entries[i] == r[i]);
        }
    } else {
        let inner = remembered(entries.drop_last(), entry);
        if i < inner.len() {
            lemma_remembered_members(entries.drop_last(), entry, i);
            if inner[i] != entry {
                let k = choose|k: int|
                    0 <= k < entries.drop_last().len()
                        && #[trigger] entries.drop_last()[k] == inner[i];
                assert(entries[k] == r[i]);
            }
        } else {
            assert(entries[entries.len() - 1] == r[i]);
        }
    }
}

/// Remembering keeps the keys ascending, so that each key has one entry.
pub proof fn lemma_remembered_ascends(entries: Seq<CooldownView>, entry: CooldownView)
    requires
        keys_ascend(entries),
    ensures
        keys_ascend(remembered(entries, entry)),
    decreases entries.len(),
{
    let r = remembered(entries, entry);
    if entries.len() > 0 {
        let last = entries.len() - 1;
        assert(entries[last] == entries.last());
        if entries.last().key == entry.key {
            assert forall|i: int, j: int| 0 <= i < j < r.len() implies lexically_before(
                key_rank((#[trigger] r[i]).key),
                key_rank((#[trigger] r[j]).key),
            ) by {
                assert(r[i].key == entries[i].key);
                assert(r[j].key == entries[j].key);
            }
        } else if lexically_before(key_rank(entries.last().key), key_rank(entry.key)) {
            assert forall|i: int, j: int| 0 <= i < j < r.len() implies lexically_before(
                key_rank((#[trigger] r[i]).key),
                key_rank((#[trigger] r[j]).key),
            ) by {
                assert(r[i] == entries[i]);
                if j == entries.len() {
                    if i < last {
                        assert(
                            lexically_before(key_rank(entries[i].key), key_rank(entries[last].key))
                        );
                        lemma_before_transitive(
                            key_rank(entries[i].key),
                            key_rank(entries[last].key),
                            key_rank(entry.key),
                        );
                    }
                } else {
                    assert(r[j] == entries[j]);
                }
            }
        } else {
            let front = entries.drop_last();
            assert(keys_ascend(front)) by {
                assert forall|i: int, j: int| 0 <= i < j < front.len() implies lexically_before(
                    key_rank((#[trigger] front[i]).key),
                    key_rank((#[trigger] front[j]).key),
                ) by {
                    assert(front[i] == entries[i] && front[j] == entries[j]);
                }
            }
            lemma_remembered_ascends(front, entry);
            let inner = remembered(front, entry);
            if key_rank(entries.last().key) == key_rank(entry.key) {
                lemma_rank_injective(entries.last().key, entry.key);
            }
            lemma_before_total(key_rank(entries.last().key), key_rank(entry.key));
            assert forall|i: int, j: int| 0 <= i < j < r.len() implies lexically_before(
                key_rank((#[trigger] r[i]).key),
                key_rank((#[trigger] r[j]).key),
            ) by {
                assert(r[i] == inner[i]);
                if j < inner.len() {
                    assert(r[j] == inner[j]);
                } else {
                    lemma_remembered_members(front, entry, i);
                    if inner[i] != entry {
                        let k = choose|k: int|
                            0 <= k < front.len() && #[trigger] front[k] == inner[i];
                        assert(entries[k] == inner[i]);
                        assert(
                            lexically_before(key_rank(entries[k].key), key_rank(entries[last].key))
                        );
                    }
                }
            }
        }
    }
}

/// What was remembered is recalled.
pub proof fn law_remembered_is_recalled(entries: Seq<CooldownView>, entry: CooldownView)
    requires
        keys_ascend(entries),
    ensures
        recalled(remembered(entries, entry), entry.key) == Some(entry.window),
{
    let r = remembered(entries, entry);
    let wanted = |e: CooldownView| e.key == entry.key;
    lemma_remembered_ascends(entries, entry);
    lemma_remembered_holds(entries, entry);
    let at = choose|i: int| 0 <= i < r.len() && #[trigger] r[i] == entry;
    assert forall|i: int| 0 <= i < at implies !wanted(#[trigger] r[i]) by {
        assert(lexically_before(key_rank(r[i].key), key_rank(r[at].key)));
        if r[i].key == entry.key {
            lemma_before_irreflexive(key_rank(entry.key));
        }
    }
    lemma_first_where_found(r, wanted, at);
}

proof fn lemma_remembered_holds(entries: Seq<CooldownView>, entry: CooldownView)
    ensures
        exists|i: int|
            0 <= i < remembered(entries, entry).len() && #[trigger] remembered(entries, entry)[i]
                == entry,
    decreases entries.len(),
{
    let r = remembered(entries, entry);
    if entries.len() == 0 {
        assert(r[0] == entry);
    } else if entries.last().key == entry.key {
        assert(r[entries.len() - 1] == entry);
    } else if lexically_before(key_rank(entries.last().key), key_rank(entry.key)) {
        assert(r[entries.len() as int] == entry);
    } else {
        lemma_remembered_holds(entries.drop_last(), entry);
        let inner = remembered(entries.drop_last(), entry);
        let i = choose|i: int| 0 <= i < inner.len() && #[trigger] inner[i] == entry;
        assert(r[i] == entry);
    }
}

/// A memory with its smallest keys dropped still ascends.
pub proof fn lemma_newest_ascends(entries: Seq<CooldownView>, cap: nat)
    requires
        keys_ascend(entries),
    ensures
        keys_ascend(newest(entries, cap)),
{
    let kept = newest(entries, cap);
    let dropped = entries.len() - kept.len();
    assert forall|i: int, j: int| 0 <= i < j < kept.len() implies lexically_before(
        key_rank((#[trigger] kept[i]).key),
        key_rank((#[trigger] kept[j]).key),
    ) by {
        assert(kept[i] == entries[dropped + i]);
        assert(kept[j] == entries[dropped + j]);
    }
}

proof fn lemma_remembered_prefix(entries: Seq<CooldownView>, entry: CooldownView, at: int)
    requires
        0 <= at <= entries.len(),
        forall|i: int|
            at <= i < entries.len() ==> (#[trigger] entries[i]).key != entry.key
                && !lexically_before(key_rank(entries[i].key), key_rank(entry.key)),
    ensures
        remembered(entries, entry) == remembered(entries.take(at), entry) + entries.skip(at),
    decreases entries.len(),
{
    if at == entries.len() {
        assert(entries.take(at) =~= entries);
        assert(remembered(entries.take(at), entry) + entries.skip(at) =~= remembered(
            entries,
            entry,
        ));
    } else {
        let front = entries.drop_last();
        assert(entries[entries.len() - 1] == entries.last());
        assert forall|i: int| at <= i < front.len() implies (#[trigger] front[i]).key != entry.key
            && !lexically_before(key_rank(front[i].key), key_rank(entry.key)) by {
            assert(front[i] == entries[i]);
        }
        lemma_remembered_prefix(front, entry, at);
        assert(front.take(at) =~= entries.take(at));
        assert(front.skip(at).push(entries.last()) =~= entries.skip(at));
        assert(remembered(front, entry).push(entries.last()) =~= remembered(
            entries.take(at),
            entry,
        ) + entries.skip(at));
    }
}

/// Remembers that `key` was proposed in `window`.
pub fn remember(entries: &mut Vec<Cooldown>, key: ActionConflictKey, window: ObservationWindowId)
    ensures
        cooldown_views(final(entries)@) == remembered(
            cooldown_views(old(entries)@),
            CooldownView { key: key@, window },
        ),
{
    let ghost before = cooldown_views(entries@);
    let ghost entry = CooldownView { key: key@, window };
    let rank: Vec<u128> = rank_of(&key);
    let mut at: usize = entries.len();
    while at > 0
        invariant
            at <= entries.len(),
            cooldown_views(entries@) == before,
            entry == (CooldownView { key: key@, window }),
            rank@ == key_rank(key@),
            forall|i: int|
                at <= i < before.len() ==> (#[trigger] before[i]).key != entry.key
                    && !lexically_before(key_rank(before[i].key), key_rank(entry.key)),
        ensures
            at <= entries.len(),
            forall|i: int|
                at <= i < before.len() ==> (#[trigger] before[i]).key != entry.key
                    && !lexically_before(key_rank(before[i].key), key_rank(entry.key)),
            at > 0 ==> before[at - 1].key == entry.key || lexically_before(
                key_rank(before[at - 1].key),
                key_rank(entry.key),
            ),
        decreases at,
    {
        proof {
            assert(before[at - 1] == entries@[at - 1]@);
        }
        if entries[at - 1].key.same(&key) || is_before(&rank_of(&entries[at - 1].key), &rank) {
            break;
        }
        at = at - 1;
    }
    proof {
        lemma_remembered_prefix(before, entry, at as int);
        if at > 0 {
            assert(before.take(at as int).last() == before[at - 1]);
            assert(before[at - 1] == entries@[at - 1]@);
        }
    }
    if at > 0 && entries[at - 1].key.same(&key) {
        entries.set(at - 1, Cooldown { key, window });
        proof {
            assert(cooldown_views(entries@) =~= before.take(at as int).drop_last().push(entry)
                + before.skip(at as int));
        }
    } else {
        entries.insert(at, Cooldown { key, window });
        proof {
            if at == 0 {
                assert(before.take(0) =~= Seq::<CooldownView>::empty());
                assert(cooldown_views(entries@) =~= seq![entry] + before.skip(0));
            } else {
                assert(cooldown_views(entries@) =~= before.take(at as int).push(entry)
                    + before.skip(at as int));
            }
        }
    }
}

/// Recalls the window in which `key` was last proposed.
pub fn recall(entries: &Vec<Cooldown>, key: &ActionConflictKey) -> (window: Option<
    ObservationWindowId,
>)
    ensures
        window == recalled(cooldown_views(entries@), key@),
{
    let ghost views = cooldown_views(entries@);
    let ghost wanted = |e: CooldownView| e.key == key@;
    let mut at: usize = 0;
    while at < entries.len()
        invariant
            at <= entries.len(),
            views == cooldown_views(entries@),
            wanted == (|e: CooldownView| e.key == key@),
            forall|i: int| 0 <= i < at ==> !wanted(#[trigger] views[i]),
        decreases entries.len() - at,
    {
        proof {
            assert(views[at as int] == entries@[at as int]@);
        }
        if entries[at].key.same(key) {
            proof {
                assert(wanted(views[at as int]));
                lemma_first_where_found(views, wanted, at as int);
            }
            return Some(entries[at].window);
        }
        proof {
            assert(!wanted(views[at as int]));
        }
        at = at + 1;
    }
    proof {
        lemma_first_where_absent(views, wanted);
    }
    None
}

/// Forgets the smallest keys beyond `cap`.
pub fn forget(entries: &mut Vec<Cooldown>, cap: usize)
    ensures
        cooldown_views(final(entries)@) == newest(cooldown_views(old(entries)@), cap as nat),
{
    let ghost before = entries@;
    keep_newest(entries, cap);
    proof {
        assert(cooldown_views(newest(before, cap as nat)) =~= newest(
            cooldown_views(before),
            cap as nat,
        ));
    }
}

/// A memory grows by at most one entry at a time.
pub proof fn lemma_remembered_len(entries: Seq<CooldownView>, entry: CooldownView)
    ensures
        entries.len() <= remembered(entries, entry).len() <= entries.len() + 1,
    decreases entries.len(),
{
    if entries.len() > 0 {
        lemma_remembered_len(entries.drop_last(), entry);
    }
}

/// Remembering one key leaves what is remembered of the others alone.
pub proof fn law_other_keys_are_still_recalled(
    entries: Seq<CooldownView>,
    entry: CooldownView,
    key: ActionConflictKeyView,
)
    requires
        keys_ascend(entries),
        key != entry.key,
    ensures
        recalled(remembered(entries, entry), key) == recalled(entries, key),
{
    let after = remembered(entries, entry);
    let wanted = |e: CooldownView| e.key == key;
    lemma_first_where(entries, wanted);
    match first_where(entries, wanted) {
        None => {
            assert forall|i: int| 0 <= i < after.len() implies !wanted(#[trigger] after[i]) by {
                lemma_remembered_members(entries, entry, i);
                if after[i] != entry {
                    let k = choose|k: int| 0 <= k < entries.len() && #[trigger] entries[k]
                        == after[i];
                    assert(!wanted(entries[k]));
                }
            }
            lemma_first_where_absent(after, wanted);
        },
        Some(at) => {
            let found = entries[at];
            assert(wanted(found));
            lemma_remembered_keeps(entries, entry, at);
            let k = choose|k: int| 0 <= k < after.len() && #[trigger] after[k] == found;
            lemma_remembered_ascends(entries, entry);
            assert forall|i: int| 0 <= i < k implies !wanted(#[trigger] after[i]) by {
                assert(lexically_before(key_rank(after[i].key), key_rank(after[k].key)));
                if after[i].key == key {
                    lemma_before_irreflexive(key_rank(key));
                }
            }
            lemma_first_where_found(after, wanted, k);
        },
    }
}

proof fn lemma_remembered_keeps(entries: Seq<CooldownView>, entry: CooldownView, at: int)
    requires
        0 <= at < entries.len(),
        entries[at].key != entry.key,
    ensures
        exists|k: int|
            0 <= k < remembered(entries, entry).len() && #[trigger] remembered(entries, entry)[k]
                == entries[at],
    decreases entries.len(),
{
    let after = remembered(entries, entry);
    if entries.last().key == entry.key {
        assert(after[at] == entries[at]);
    } else if lexically_before(key_rank(entries.last().key), key_rank(entry.key)) {
        assert(after[at] == entries[at]);
    } else if at == entries.len() - 1 {
        assert(after[after.len() - 1] == entries[at]);
    } else {
        let front = entries.drop_last();
        lemma_remembered_keeps(front, entry, at);
        let inner = remembered(front, entry);
        let k = choose|k: int| 0 <= k < inner.len() && #[trigger] inner[k] == front[at];
        assert(after[k] == entries[at]);
    }
}

} // verus!
