//! Which worker of a node owns which tablet group.
//!
//! Tablet groups are spread over a fixed number of workers by plain arithmetic: tablet
//! `t` belongs to worker `(t - 1) % worker_count`, so that group 1 lands on worker 0 and
//! consecutive tablets take turns. The mapping is local to a node. Nodes may have
//! different numbers of workers.

use crate::ids::TabletId;
use vstd::prelude::*;

verus! {

/// The worker that owns `tablet` among `worker_count` workers. A tablet id beyond the
/// address space counts as the largest one that fits.
pub open spec fn owner(tablet: TabletId, worker_count: usize) -> nat {
    let before = if tablet.0 == 0 {
        0nat
    } else if tablet.0 - 1 > usize::MAX {
        usize::MAX as nat
    } else {
        (tablet.0 - 1) as nat
    };
    before % (worker_count as nat)
}

/// Returns the worker that owns `tablet` among `worker_count` workers.
pub fn worker_for_tablet(tablet: TabletId, worker_count: usize) -> (worker: usize)
    requires
        worker_count > 0,
    ensures
        worker == owner(tablet, worker_count),
        worker < worker_count,
{
    let before: u64 = tablet.as_u64().saturating_sub(1);
    let number: usize = if before > usize::MAX as u64 {
        usize::MAX
    } else {
        before as usize
    };
    number % worker_count
}

/// The tablets among the first `tablet_count` that `worker` owns, in order.
pub open spec fn owned(worker: usize, worker_count: usize, tablet_count: nat) -> Seq<TabletId>
    decreases tablet_count,
{
    if tablet_count == 0 {
        Seq::empty()
    } else {
        let before = owned(worker, worker_count, (tablet_count - 1) as nat);
        let tablet = TabletId(tablet_count as u64);
        if owner(tablet, worker_count) == worker {
            before.push(tablet)
        } else {
            before
        }
    }
}

/// Returns the tablets `1..=tablet_count` that `worker` owns, in order of their ids.
pub fn tablets_for_worker(worker: usize, worker_count: usize, tablet_count: usize) -> (tablets: Vec<
    TabletId,
>)
    requires
        worker_count > 0,
    ensures
        tablets@ == owned(worker, worker_count, tablet_count as nat),
{
    let mut tablets: Vec<TabletId> = Vec::new();
    let mut considered: usize = 0;
    while considered < tablet_count
        invariant
            considered <= tablet_count,
            worker_count > 0,
            tablets@ == owned(worker, worker_count, considered as nat),
        decreases tablet_count - considered,
    {
        considered = considered + 1;
        let tablet: TabletId = TabletId::from_u64(considered as u64);
        if worker_for_tablet(tablet, worker_count) == worker {
            tablets.push(tablet);
        }
    }
    tablets
}

/// Every tablet belongs to exactly one worker, which lists it; the others do not.
pub proof fn law_workers_partition_tablets(
    tablet: TabletId,
    worker: usize,
    worker_count: usize,
    tablet_count: usize,
)
    requires
        worker_count > 0,
        1 <= tablet.0 <= tablet_count,
        worker < worker_count,
    ensures
        owned(worker, worker_count, tablet_count as nat).contains(tablet) <==> worker == owner(
            tablet,
            worker_count,
        ),
{
    lemma_owned(tablet, worker, worker_count, tablet_count as nat);
}

proof fn lemma_owned(tablet: TabletId, worker: usize, worker_count: usize, tablet_count: nat)
    requires
        tablet_count <= usize::MAX,
    ensures
        owned(worker, worker_count, tablet_count).contains(tablet) <==> worker == owner(
            tablet,
            worker_count,
        ) && 1 <= tablet.0 <= tablet_count,
    decreases tablet_count,
{
    if tablet_count > 0 {
        let before = owned(worker, worker_count, (tablet_count - 1) as nat);
        lemma_owned(tablet, worker, worker_count, (tablet_count - 1) as nat);
        vstd::seq_lib::lemma_seq_contains_after_push(
            before,
            TabletId(tablet_count as u64),
            tablet,
        );
    }
}

/// Consecutive tablets take turns: `worker_count` tablets further, the owner is the same.
pub proof fn law_tablets_take_turns(tablet: TabletId, worker_count: usize)
    requires
        worker_count > 0,
        tablet.0 >= 1,
        tablet.0 + worker_count <= usize::MAX,
        tablet.0 + worker_count <= u64::MAX,
    ensures
        owner(TabletId((tablet.0 + worker_count) as u64), worker_count) == owner(
            tablet,
            worker_count,
        ),
        tablet.0 <= worker_count ==> owner(tablet, worker_count) == tablet.0 - 1,
{
    vstd::arithmetic::div_mod::lemma_mod_add_multiples_vanish(
        tablet.0 - 1,
        worker_count as int,
    );
    if tablet.0 <= worker_count {
        vstd::arithmetic::div_mod::lemma_small_mod((tablet.0 - 1) as nat, worker_count as nat);
    }
}

/// A worker's tablets are its own share of the first ones, in ascending order and each
/// once.
pub proof fn law_shares_are_in_order(worker: usize, worker_count: usize, tablet_count: nat)
    requires
        worker_count > 0,
        tablet_count <= u64::MAX,
    ensures
        ({
            let share = owned(worker, worker_count, tablet_count);
            &&& forall|i: int, j: int|
                0 <= i < j < share.len() ==> (#[trigger] share[i]).0 < (#[trigger] share[j]).0
            &&& forall|i: int|
                0 <= i < share.len() ==> 1 <= (#[trigger] share[i]).0 <= tablet_count && owner(
                    share[i],
                    worker_count,
                ) == worker
        }),
    decreases tablet_count,
{
    if tablet_count > 0 {
        let before = owned(worker, worker_count, (tablet_count - 1) as nat);
        let share = owned(worker, worker_count, tablet_count);
        law_shares_are_in_order(worker, worker_count, (tablet_count - 1) as nat);
        assert forall|i: int, j: int| 0 <= i < j < share.len() implies (#[trigger] share[i]).0 < (
        #[trigger] share[j]).0 by {
            assert(share[i] == before[i]);
            if j < before.len() {
                assert(share[j] == before[j]);
            }
        }
        assert forall|i: int| 0 <= i < share.len() implies 1 <= (#[trigger] share[i]).0
            <= tablet_count && owner(share[i], worker_count) == worker by {
            if i < before.len() {
                assert(share[i] == before[i]);
            }
        }
    }
}

} // verus!
