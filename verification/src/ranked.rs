//! Lists that are kept in the order of their ranks, at most one item to a rank.

use vstd::prelude::*;

verus! {

/// What has a rank.
pub trait Ranked: Sized {
    /// The rank.
    spec fn rank(self) -> u128;
}

/// An item whose view has a rank.
pub trait HasRank<V: Ranked>: View<V = V> + Sized {
    /// Returns the rank.
    fn rank_number(&self) -> (number: u128)
        ensures
            number == self@.rank(),
    ;
}

/// The views of a list of items.
pub open spec fn views<T: View>(items: Seq<T>) -> Seq<T::V> {
    Seq::new(items.len(), |i: int| items[i]@)
}

/// Whether the ranks of `items` strictly ascend.
pub open spec fn rising<V: Ranked>(items: Seq<V>) -> bool {
    forall|i: int, j: int|
        0 <= i < j < items.len() ==> (#[trigger] items[i]).rank() < (#[trigger] items[j]).rank()
}

/// The item with the given rank.
pub open spec fn ranked<V: Ranked>(items: Seq<V>, rank: u128) -> Option<V>
    decreases items.len(),
{
    if items.len() == 0 {
        None
    } else if items.last().rank() == rank {
        Some(items.last())
    } else {
        ranked(items.drop_last(), rank)
    }
}

/// `items`, which rise, with `item` in its place and in place of the one of its rank.
pub open spec fn placed<V: Ranked>(items: Seq<V>, item: V) -> Seq<V>
    decreases items.len(),
{
    if items.len() == 0 {
        seq![item]
    } else if items.last().rank() < item.rank() {
        items.push(item)
    } else if items.last().rank() == item.rank() {
        items.drop_last().push(item)
    } else {
        placed(items.drop_last(), item).push(items.last())
    }
}

/// The items of a rank beyond `floor`, in their order.
pub open spec fn beyond<V: Ranked>(items: Seq<V>, floor: u128) -> Seq<V>
    decreases items.len(),
{
    if items.len() == 0 {
        items
    } else if items.last().rank() > floor {
        beyond(items.drop_last(), floor).push(items.last())
    } else {
        beyond(items.drop_last(), floor)
    }
}

/// What is found has the rank and stands in the list; where nothing is found, nothing
/// has the rank.
pub proof fn lemma_ranked<V: Ranked>(items: Seq<V>, rank: u128)
    ensures
        match ranked(items, rank) {
            Some(item) => item.rank() == rank && items.contains(item),
            None => forall|i: int|
                0 <= i < items.len() ==> (#[trigger] items[i]).rank() != rank,
        },
    decreases items.len(),
{
    if items.len() > 0 {
        let front = items.drop_last();
        lemma_ranked(front, rank);
        if items.last().rank() == rank {
            assert(items[items.len() - 1] == items.last());
        } else {
            match ranked(front, rank) {
                Some(item) => {
                    let k = choose|k: int| 0 <= k < front.len() && front[k] == item;
                    assert(items[k] == item);
                },
                None => {
                    assert forall|i: int| 0 <= i < items.len() implies (#[trigger] items[i]).rank()
                        != rank by {
                        if i < front.len() {
                            assert(front[i] == items[i]);
                        }
                    }
                },
            }
        }
    }
}

/// In a rising list an item is found by its rank.
pub proof fn lemma_ranked_at<V: Ranked>(items: Seq<V>, at: int)
    requires
        rising(items),
        0 <= at < items.len(),
    ensures
        ranked(items, items[at].rank()) == Some(items[at]),
    decreases items.len(),
{
    let front = items.drop_last();
    if at < front.len() {
        assert(items[at].rank() < items[items.len() - 1].rank());
        assert(rising(front)) by {
            assert forall|i: int, j: int| 0 <= i < j < front.len() implies (
            #[trigger] front[i]).rank() < (#[trigger] front[j]).rank() by {
                assert(items[i].rank() < items[j].rank());
            }
        }
        lemma_ranked_at(front, at);
        assert(front[at] == items[at]);
    }
}

/// What placing an item does.
pub proof fn lemma_placed<V: Ranked>(items: Seq<V>, item: V)
    requires
        rising(items),
    ensures
        rising(placed(items, item)),
        placed(items, item).len() <= items.len() + 1,
        placed(items, item).len() >= items.len(),
        ranked(items, item.rank()) is Some ==> placed(items, item).len() == items.len(),
        forall|i: int|
            0 <= i < placed(items, item).len() ==> (#[trigger] placed(items, item)[i]).rank()
                == item.rank() || items.contains(placed(items, item)[i]),
        forall|rank: u128| #[trigger]
            ranked(placed(items, item), rank) == if rank == item.rank() {
                Some(item)
            } else {
                ranked(items, rank)
            },
    decreases items.len(),
{
    let result = placed(items, item);
    if items.len() == 0 {
        assert(result.drop_last() =~= items);
        assert forall|rank: u128| #[trigger] ranked(result, rank) == if rank == item.rank() {
            Some(item)
        } else {
            ranked(items, rank)
        } by {
            assert(ranked(result.drop_last(), rank) is None);
        }
    } else {
        let front = items.drop_last();
        let last = items.last();
        assert(rising(front)) by {
            assert forall|i: int, j: int| 0 <= i < j < front.len() implies (
            #[trigger] front[i]).rank() < (#[trigger] front[j]).rank() by {
                assert(items[i].rank() < items[j].rank());
            }
        }
        assert forall|i: int| 0 <= i < front.len() implies (#[trigger] front[i]).rank()
            < last.rank() by {
            assert(items[i].rank() < items[items.len() - 1].rank());
        }
        lemma_placed(front, item);
        if last.rank() < item.rank() {
            assert(result.drop_last() =~= items);
            assert forall|i: int, j: int| 0 <= i < j < result.len() implies (
            #[trigger] result[i]).rank() < (#[trigger] result[j]).rank() by {
                if j < items.len() {
                    assert(items[i].rank() < items[j].rank());
                } else if i < front.len() {
                    assert(front[i] == items[i]);
                }
            }
            lemma_ranked(items, item.rank());
            if ranked(items, item.rank()) is Some {
                let found = ranked(items, item.rank())->0;
                let k = choose|k: int| 0 <= k < items.len() && items[k] == found;
                if k < front.len() {
                    assert(front[k] == items[k]);
                }
            }
        } else if last.rank() == item.rank() {
            assert(result.drop_last() =~= front);
            assert forall|i: int, j: int| 0 <= i < j < result.len() implies (
            #[trigger] result[i]).rank() < (#[trigger] result[j]).rank() by {
                assert(front[i] == items[i]);
                if j < front.len() {
                    assert(front[i].rank() < front[j].rank());
                }
            }
        } else {
            let inner = placed(front, item);
            assert(result.drop_last() =~= inner);
            assert forall|i: int, j: int| 0 <= i < j < result.len() implies (
            #[trigger] result[i]).rank() < (#[trigger] result[j]).rank() by {
                if j < inner.len() {
                    assert(inner[i].rank() < inner[j].rank());
                } else {
                    assert(inner[i].rank() == item.rank() || front.contains(inner[i]));
                }
            }
        }
        assert forall|i: int| 0 <= i < result.len() implies (#[trigger] result[i]).rank()
            == item.rank() || items.contains(result[i]) by {
            if last.rank() > item.rank() {
                let inner = placed(front, item);
                if i < inner.len() {
                    assert(inner[i].rank() == item.rank() || front.contains(inner[i]));
                    if front.contains(inner[i]) {
                        let k = choose|k: int| 0 <= k < front.len() && front[k] == inner[i];
                        assert(items[k] == inner[i]);
                    }
                } else {
                    assert(items[items.len() - 1] == result[i]);
                }
            } else if i < items.len() && result[i].rank() != item.rank() {
                assert(items[i] == result[i]);
            }
        }
        assert forall|rank: u128| #[trigger] ranked(result, rank) == if rank == item.rank() {
            Some(item)
        } else {
            ranked(items, rank)
        } by {
            if last.rank() < item.rank() {
                assert(result.drop_last() =~= items);
            } else if last.rank() == item.rank() {
                assert(result.drop_last() =~= front);
            } else {
                assert(result.drop_last() =~= placed(front, item));
                assert(ranked(placed(front, item), rank) == if rank == item.rank() {
                    Some(item)
                } else {
                    ranked(front, rank)
                });
            }
        }
    }
}

/// What leaving out the low ranks does.
pub proof fn lemma_beyond<V: Ranked>(items: Seq<V>, floor: u128)
    ensures
        beyond(items, floor).len() <= items.len(),
        forall|i: int|
            0 <= i < beyond(items, floor).len() ==> (#[trigger] beyond(items, floor)[i]).rank()
                > floor && items.contains(beyond(items, floor)[i]),
        rising(items) ==> rising(beyond(items, floor)),
        forall|rank: u128| #[trigger]
            ranked(beyond(items, floor), rank) == if rank > floor {
                ranked(items, rank)
            } else {
                None
            },
    decreases items.len(),
{
    let result = beyond(items, floor);
    if items.len() > 0 {
        let front = items.drop_last();
        let last = items.last();
        let inner = beyond(front, floor);
        lemma_beyond(front, floor);
        assert forall|i: int| 0 <= i < result.len() implies (#[trigger] result[i]).rank() > floor
            && items.contains(result[i]) by {
            if i < inner.len() {
                assert(inner[i].rank() > floor && front.contains(inner[i]));
                let k = choose|k: int| 0 <= k < front.len() && front[k] == inner[i];
                assert(items[k] == inner[i]);
            } else {
                assert(items[items.len() - 1] == result[i]);
            }
        }
        if rising(items) {
            assert(rising(front)) by {
                assert forall|i: int, j: int| 0 <= i < j < front.len() implies (
                #[trigger] front[i]).rank() < (#[trigger] front[j]).rank() by {
                    assert(items[i].rank() < items[j].rank());
                }
            }
            assert forall|i: int, j: int| 0 <= i < j < result.len() implies (
            #[trigger] result[i]).rank() < (#[trigger] result[j]).rank() by {
                if j < inner.len() {
                    assert(inner[i].rank() < inner[j].rank());
                } else {
                    assert(inner[i].rank() > floor && front.contains(inner[i]));
                    let k = choose|k: int| 0 <= k < front.len() && front[k] == inner[i];
                    assert(items[k].rank() < items[items.len() - 1].rank());
                }
            }
        }
        assert forall|rank: u128| #[trigger] ranked(result, rank) == if rank > floor {
            ranked(items, rank)
        } else {
            None
        } by {
            assert(ranked(inner, rank) == if rank > floor {
                ranked(front, rank)
            } else {
                None
            });
            if last.rank() > floor {
                assert(result.drop_last() =~= inner);
            }
        }
    }
}

/// The items of any rank but `rank`, in their order.
pub open spec fn except<V: Ranked>(items: Seq<V>, rank: u128) -> Seq<V>
    decreases items.len(),
{
    if items.len() == 0 {
        items
    } else if items.last().rank() == rank {
        except(items.drop_last(), rank)
    } else {
        except(items.drop_last(), rank).push(items.last())
    }
}

/// What leaving out one rank does.
pub proof fn lemma_except<V: Ranked>(items: Seq<V>, rank: u128)
    ensures
        except(items, rank).len() <= items.len(),
        forall|i: int|
            0 <= i < except(items, rank).len() ==> (#[trigger] except(items, rank)[i]).rank()
                != rank && items.contains(except(items, rank)[i]),
        rising(items) ==> rising(except(items, rank)),
        forall|other: u128| #[trigger]
            ranked(except(items, rank), other) == if other == rank {
                None
            } else {
                ranked(items, other)
            },
    decreases items.len(),
{
    let result = except(items, rank);
    if items.len() > 0 {
        let front = items.drop_last();
        let last = items.last();
        let inner = except(front, rank);
        lemma_except(front, rank);
        assert forall|i: int| 0 <= i < result.len() implies (#[trigger] result[i]).rank() != rank
            && items.contains(result[i]) by {
            if i < inner.len() {
                assert(inner[i].rank() != rank && front.contains(inner[i]));
                let k = choose|k: int| 0 <= k < front.len() && front[k] == inner[i];
                assert(items[k] == inner[i]);
            } else {
                assert(items[items.len() - 1] == result[i]);
            }
        }
        if rising(items) {
            assert(rising(front)) by {
                assert forall|i: int, j: int| 0 <= i < j < front.len() implies (
                #[trigger] front[i]).rank() < (#[trigger] front[j]).rank() by {
                    assert(items[i].rank() < items[j].rank());
                }
            }
            assert forall|i: int, j: int| 0 <= i < j < result.len() implies (
            #[trigger] result[i]).rank() < (#[trigger] result[j]).rank() by {
                if j < inner.len() {
                    assert(inner[i].rank() < inner[j].rank());
                } else {
                    assert(inner[i].rank() != rank && front.contains(inner[i]));
                    let k = choose|k: int| 0 <= k < front.len() && front[k] == inner[i];
                    assert(items[k].rank() < items[items.len() - 1].rank());
                }
            }
        }
        assert forall|other: u128| #[trigger] ranked(result, other) == if other == rank {
            None
        } else {
            ranked(items, other)
        } by {
            assert(ranked(inner, other) == if other == rank {
                None
            } else {
                ranked(front, other)
            });
            if last.rank() != rank {
                assert(result.drop_last() =~= inner);
            }
        }
    }
}

/// Removes the items of one rank.
pub fn remove_ranked<V: Ranked, T: HasRank<V>>(items: &mut Vec<T>, rank: u128)
    ensures
        views(final(items)@) == except(views(old(items)@), rank),
{
    let ghost before = items@;
    let ghost all = views(before);
    let mut left: usize = items.len();
    proof {
        assert(all.take(left as int) =~= all);
        assert(views(items@) =~= all.take(left as int) + Seq::<V>::empty());
        assert(except(all, rank) =~= except(all.take(left as int), rank) + Seq::<V>::empty());
    }
    let ghost mut kept: Seq<V> = Seq::empty();
    while left > 0
        invariant
            left <= items.len(),
            left <= before.len(),
            all == views(before),
            views(items@) == all.take(left as int) + kept,
            except(all, rank) == except(all.take(left as int), rank) + kept,
        decreases left,
    {
        proof {
            let now = all.take(left as int);
            assert(now.last() == views(items@)[left - 1]);
            assert(now.drop_last() =~= all.take(left - 1));
            assert(items@[left - 1]@ == now.last());
        }
        left = left - 1;
        if items[left].rank_number() == rank {
            let ghost held = items@;
            items.remove(left as usize);
            proof {
                let now = all.take(left as int) + kept;
                assert(views(held) == all.take(left + 1) + kept);
                assert(views(held).len() == held.len());
                assert(held.len() == now.len() + 1);
                assert forall|i: int| 0 <= i < now.len() implies views(items@)[i] == now[i] by {
                    if i < left {
                        assert(views(held)[i] == held[i]@);
                    } else {
                        assert(views(held)[i + 1] == held[i + 1]@);
                    }
                }
                assert(views(items@) =~= now);
            }
        } else {
            proof {
                let now = all.take(left + 1);
                let longer = seq![now.last()] + kept;
                assert(views(items@) =~= all.take(left as int) + longer);
                assert(except(now, rank) + kept =~= except(all.take(left as int), rank) + longer);
                kept = longer;
            }
        }
    }
    proof {
        assert(all.take(0) =~= Seq::empty());
        assert(views(items@) =~= kept);
        assert(except(all.take(0), rank) + kept =~= kept);
    }
}

/// `items` placed one after the other, so that the last of a rank stays.
pub open spec fn gathered<V: Ranked>(items: Seq<V>) -> Seq<V>
    decreases items.len(),
{
    if items.len() == 0 {
        items
    } else {
        placed(gathered(items.drop_last()), items.last())
    }
}

/// What was gathered rises.
pub proof fn lemma_gathered<V: Ranked>(items: Seq<V>)
    ensures
        rising(gathered(items)),
    decreases items.len(),
{
    if items.len() > 0 {
        lemma_gathered(items.drop_last());
        lemma_placed(gathered(items.drop_last()), items.last());
    }
}

/// What rises already stays as it is.
pub proof fn lemma_gathered_rising<V: Ranked>(items: Seq<V>)
    requires
        rising(items),
    ensures
        gathered(items) == items,
    decreases items.len(),
{
    if items.len() > 0 {
        let front = items.drop_last();
        assert(rising(front)) by {
            assert forall|i: int, j: int| 0 <= i < j < front.len() implies (
            #[trigger] front[i]).rank() < (#[trigger] front[j]).rank() by {
                assert(items[i].rank() < items[j].rank());
            }
        }
        lemma_gathered_rising(front);
        if front.len() > 0 {
            assert(items[front.len() - 1].rank() < items[items.len() - 1].rank());
        }
        assert(placed(front, items.last()) =~= items);
    }
}

/// Gathers the items of a list.
pub fn gather<V: Ranked, T: HasRank<V>>(items: Vec<T>) -> (rest: Vec<T>)
    ensures
        views(rest@) == gathered(views(items@)),
        rising(views(rest@)),
{
    let ghost all = views(items@);
    let ghost given = items@;
    let mut pending: Vec<T> = items;
    let mut rest: Vec<T> = Vec::new();
    let mut taken: usize = 0;
    let total: usize = pending.len();
    proof {
        assert(all.take(0) =~= Seq::empty());
        assert(views(rest@) =~= gathered(all.take(0)));
        assert(given.skip(0) =~= given);
    }
    while taken < total
        invariant
            taken <= total,
            total == given.len(),
            all == views(given),
            pending@ == given.skip(taken as int),
            views(rest@) == gathered(all.take(taken as int)),
        decreases total - taken,
    {
        let item: T = pending.remove(0);
        proof {
            assert(item == given[taken as int]);
            assert(pending@ =~= given.skip(taken + 1));
            assert(all.take(taken + 1).drop_last() =~= all.take(taken as int));
            assert(all.take(taken + 1).last() == item@);
        }
        place(&mut rest, item);
        taken = taken + 1;
    }
    proof {
        assert(all.take(taken as int) =~= all);
        lemma_gathered(all);
    }
    rest
}

/// Finds the place of the item with the given rank.
pub fn find_ranked<V: Ranked, T: HasRank<V>>(items: &Vec<T>, rank: u128) -> (place: Option<usize>)
    ensures
        match place {
            Some(at) => at < items.len() && ranked(views(items@), rank) == Some(items@[at as int]@),
            None => ranked(views(items@), rank) is None,
        },
{
    let ghost all = views(items@);
    let mut left: usize = items.len();
    proof {
        assert(all.take(left as int) =~= all);
    }
    while left > 0
        invariant
            left <= items.len(),
            all == views(items@),
            ranked(all.take(left as int), rank) == ranked(all, rank),
        decreases left,
    {
        proof {
            assert(all.take(left as int).last() == items@[left - 1]@);
            assert(all.take(left as int).drop_last() =~= all.take(left - 1));
        }
        left = left - 1;
        if items[left].rank_number() == rank {
            return Some(left);
        }
    }
    None
}

/// Puts an item into a rising list, in place of the one of its rank if there is one.
pub fn place<V: Ranked, T: HasRank<V>>(items: &mut Vec<T>, item: T)
    ensures
        views(final(items)@) == placed(views(old(items)@), item@),
{
    let ghost before = items@;
    let ghost all = views(before);
    let rank: u128 = item.rank_number();
    let mut left: usize = items.len();
    proof {
        assert(all.take(left as int) =~= all);
        assert(all.skip(left as int) =~= Seq::empty());
        assert(placed(all, item@) =~= placed(all.take(left as int), item@) + all.skip(left as int));
    }
    while left > 0 && items[left - 1].rank_number() > rank
        invariant
            left <= items.len(),
            items@ == before,
            all == views(before),
            rank == item@.rank(),
            placed(all, item@) == placed(all.take(left as int), item@) + all.skip(left as int),
        decreases left,
    {
        proof {
            let now = all.take(left as int);
            assert(now.last() == before[left - 1]@);
            assert(now.drop_last() =~= all.take(left - 1));
            assert(placed(now, item@) + all.skip(left as int) =~= placed(now.drop_last(), item@)
                + all.skip(left - 1));
        }
        left = left - 1;
    }
    let ghost now = all.take(left as int);
    if left > 0 && items[left - 1].rank_number() == rank {
        items.set(left - 1, item);
        proof {
            assert(now.last() == before[left - 1]@);
            assert(views(items@) =~= now.drop_last().push(item@) + all.skip(left as int));
        }
    } else {
        items.insert(left, item);
        proof {
            if left > 0 {
                assert(now.last() == before[left - 1]@);
            }
            assert(placed(now, item@) =~= now.push(item@));
            assert(views(items@) =~= now.push(item@) + all.skip(left as int));
        }
    }
}

/// Removes the items of a rank up to `floor`.
pub fn keep_beyond<V: Ranked, T: HasRank<V>>(items: &mut Vec<T>, floor: u128)
    ensures
        views(final(items)@) == beyond(views(old(items)@), floor),
{
    let ghost before = items@;
    let ghost all = views(before);
    let mut left: usize = items.len();
    proof {
        assert(all.take(left as int) =~= all);
        assert(beyond(all.skip(left as int), floor) =~= Seq::empty());
        assert(views(items@) =~= all.take(left as int) + Seq::<V>::empty());
        assert(beyond(all, floor) =~= beyond(all.take(left as int), floor) + Seq::<V>::empty());
    }
    let ghost mut kept: Seq<V> = Seq::empty();
    while left > 0
        invariant
            left <= items.len(),
            left <= before.len(),
            all == views(before),
            views(items@) == all.take(left as int) + kept,
            beyond(all, floor) == beyond(all.take(left as int), floor) + kept,
        decreases left,
    {
        proof {
            let now = all.take(left as int);
            assert(now.last() == views(items@)[left - 1]);
            assert(now.drop_last() =~= all.take(left - 1));
            assert(items@[left - 1]@ == now.last());
        }
        left = left - 1;
        if items[left].rank_number() <= floor {
            let ghost held = items@;
            items.remove(left as usize);
            proof {
                let now = all.take(left as int) + kept;
                assert(views(held) == all.take(left + 1) + kept);
                assert(views(held).len() == held.len());
                assert(held.len() == now.len() + 1);
                assert forall|i: int| 0 <= i < now.len() implies views(items@)[i] == now[i] by {
                    if i < left {
                        assert(views(held)[i] == held[i]@);
                    } else {
                        assert(views(held)[i + 1] == held[i + 1]@);
                    }
                }
                assert(views(items@) =~= now);
            }
        } else {
            proof {
                let now = all.take(left + 1);
                let longer = seq![now.last()] + kept;
                assert(views(items@) =~= all.take(left as int) + longer);
                assert(beyond(now, floor) + kept =~= beyond(all.take(left as int), floor) + longer);
                kept = longer;
            }
        }
    }
    proof {
        assert(all.take(0) =~= Seq::empty());
        assert(views(items@) =~= kept);
        assert(beyond(all.take(0), floor) + kept =~= kept);
    }
}

/// Counts the items of a rank beyond `floor`.
pub fn count_beyond<V: Ranked, T: HasRank<V>>(items: &Vec<T>, floor: u128) -> (count: usize)
    ensures
        count == beyond(views(items@), floor).len(),
{
    let ghost all = views(items@);
    let mut count: usize = 0;
    let mut at: usize = 0;
    proof {
        assert(all.take(0) =~= Seq::empty());
    }
    while at < items.len()
        invariant
            at <= items.len(),
            count <= at,
            all == views(items@),
            count == beyond(all.take(at as int), floor).len(),
        decreases items.len() - at,
    {
        proof {
            assert(all.take(at + 1).last() == items@[at as int]@);
            assert(all.take(at + 1).drop_last() =~= all.take(at as int));
        }
        if items[at].rank_number() > floor {
            count = count + 1;
        }
        at = at + 1;
    }
    proof {
        assert(all.take(at as int) =~= all);
    }
    count
}

/// The items of a rank below `limit`, in their order.
pub open spec fn below<V: Ranked>(items: Seq<V>, limit: u128) -> Seq<V>
    decreases items.len(),
{
    if items.len() == 0 {
        items
    } else if items.last().rank() >= limit {
        below(items.drop_last(), limit)
    } else {
        below(items.drop_last(), limit).push(items.last())
    }
}

/// A rising list loses nothing where all its ranks are low.
pub proof fn lemma_below_all<V: Ranked>(items: Seq<V>, limit: u128)
    requires
        forall|i: int| 0 <= i < items.len() ==> (#[trigger] items[i]).rank() < limit,
    ensures
        below(items, limit) == items,
    decreases items.len(),
{
    if items.len() > 0 {
        let front = items.drop_last();
        assert forall|i: int| 0 <= i < front.len() implies (#[trigger] front[i]).rank() < limit by {
            assert(front[i] == items[i]);
        }
        lemma_below_all(front, limit);
        assert(items[items.len() - 1] == items.last());
        assert(front.push(items.last()) =~= items);
    }
}

/// What leaving out the high ranks does.
pub proof fn lemma_below<V: Ranked>(items: Seq<V>, limit: u128)
    ensures
        below(items, limit).len() <= items.len(),
        forall|i: int|
            0 <= i < below(items, limit).len() ==> (#[trigger] below(items, limit)[i]).rank()
                < limit && items.contains(below(items, limit)[i]),
        rising(items) ==> rising(below(items, limit)),
        below(below(items, limit), limit) == below(items, limit),
        forall|rank: u128| #[trigger]
            ranked(below(items, limit), rank) == if rank < limit {
                ranked(items, rank)
            } else {
                None
            },
    decreases items.len(),
{
    let result = below(items, limit);
    if items.len() > 0 {
        let front = items.drop_last();
        let last = items.last();
        let inner = below(front, limit);
        lemma_below(front, limit);
        assert forall|i: int| 0 <= i < result.len() implies (#[trigger] result[i]).rank() < limit
            && items.contains(result[i]) by {
            if i < inner.len() {
                assert(inner[i].rank() < limit && front.contains(inner[i]));
                let k = choose|k: int| 0 <= k < front.len() && front[k] == inner[i];
                assert(items[k] == inner[i]);
            } else {
                assert(items[items.len() - 1] == result[i]);
            }
        }
        if rising(items) {
            assert(rising(front)) by {
                assert forall|i: int, j: int| 0 <= i < j < front.len() implies (
                #[trigger] front[i]).rank() < (#[trigger] front[j]).rank() by {
                    assert(items[i].rank() < items[j].rank());
                }
            }
            assert forall|i: int, j: int| 0 <= i < j < result.len() implies (
            #[trigger] result[i]).rank() < (#[trigger] result[j]).rank() by {
                if j < inner.len() {
                    assert(inner[i].rank() < inner[j].rank());
                } else {
                    assert(inner[i].rank() < limit && front.contains(inner[i]));
                    let k = choose|k: int| 0 <= k < front.len() && front[k] == inner[i];
                    assert(items[k].rank() < items[items.len() - 1].rank());
                }
            }
        }
        assert forall|rank: u128| #[trigger] ranked(result, rank) == if rank < limit {
            ranked(items, rank)
        } else {
            None
        } by {
            assert(ranked(inner, rank) == if rank < limit {
                ranked(front, rank)
            } else {
                None
            });
            if last.rank() < limit {
                assert(result.drop_last() =~= inner);
            }
        }
    }
    lemma_below_all(result, limit);
}

/// Placing an item a second time changes nothing.
pub proof fn lemma_placed_again<V: Ranked>(items: Seq<V>, item: V)
    ensures
        placed(placed(items, item), item) == placed(items, item),
    decreases items.len(),
{
    let once = placed(items, item);
    if items.len() == 0 {
        assert(once.drop_last().push(item) =~= once);
    } else if items.last().rank() <= item.rank() {
        assert(once.last() == item);
        assert(once.drop_last().push(item) =~= once);
    } else {
        lemma_placed_again(items.drop_last(), item);
        assert(once.drop_last() =~= placed(items.drop_last(), item));
    }
}

/// Leaving out the low ranks a second time changes nothing.
pub proof fn lemma_beyond_again<V: Ranked>(items: Seq<V>, floor: u128)
    ensures
        beyond(beyond(items, floor), floor) == beyond(items, floor),
    decreases items.len(),
{
    if items.len() > 0 {
        lemma_beyond_again(items.drop_last(), floor);
        if items.last().rank() > floor {
            assert(beyond(items, floor).drop_last() =~= beyond(items.drop_last(), floor));
        }
    }
}

/// Removes the items of a rank from `limit` on, from a rising list.
pub fn keep_below<V: Ranked, T: HasRank<V>>(items: &mut Vec<T>, limit: u128)
    requires
        rising(views(old(items)@)),
    ensures
        views(final(items)@) == below(views(old(items)@), limit),
{
    let ghost all = views(items@);
    while items.len() > 0 && items[items.len() - 1].rank_number() >= limit
        invariant
            rising(views(items@)),
            below(views(items@), limit) == below(all, limit),
        decreases items.len(),
    {
        let ghost held = views(items@);
        items.pop();
        proof {
            assert(views(items@) =~= held.drop_last());
            assert forall|i: int, j: int| 0 <= i < j < items@.len() implies (#[trigger] views(
                items@,
            )[i]).rank() < (#[trigger] views(items@)[j]).rank() by {
                assert(held[i].rank() < held[j].rank());
            }
        }
    }
    proof {
        let rest = views(items@);
        assert forall|i: int| 0 <= i < rest.len() implies (#[trigger] rest[i]).rank() < limit by {
            assert(rest[rest.len() - 1] == items@[items@.len() - 1]@);
            if i < rest.len() - 1 {
                assert(rest[i].rank() < rest[rest.len() - 1].rank());
            }
        }
        lemma_below_all(rest, limit);
    }
}

} // verus!
