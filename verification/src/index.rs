//! Lists of records that are kept in the order of their keys.

use crate::search::{
    first_where, lemma_first_where, lemma_first_where_absent, lemma_first_where_found,
};
use vstd::prelude::*;

verus! {

/// A record that a number identifies.
pub trait Indexed: Sized {
    /// The number that identifies the record.
    spec fn index(self) -> u64;

    /// Returns the number that identifies the record.
    fn index_number(&self) -> (number: u64)
        ensures
            number == self.index(),
    ;
}

/// Whether the numbers of `records` strictly ascend.
pub open spec fn in_order<T: Indexed>(records: Seq<T>) -> bool {
    forall|i: int, j: int|
        0 <= i < j < records.len() ==> (#[trigger] records[i]).index() < (
        #[trigger] records[j]).index()
}

/// What a record with the given number satisfies.
pub open spec fn has_number<T: Indexed>(number: u64) -> spec_fn(T) -> bool {
    |r: T| r.index() == number
}

/// The record with the given number.
pub open spec fn lookup<T: Indexed>(records: Seq<T>, number: u64) -> Option<T> {
    match first_where(records, has_number::<T>(number)) {
        Some(at) => Some(records[at]),
        None => None,
    }
}

/// Finds the place of the record with the given number.
pub fn find<T: Indexed>(records: &Vec<T>, number: u64) -> (place: Option<usize>)
    ensures
        match place {
            Some(at) => at < records.len() && lookup(records@, number) == Some(records@[at as int])
                && records@[at as int].index() == number,
            None => lookup(records@, number) is None && forall|i: int|
                0 <= i < records.len() ==> (#[trigger] records@[i]).index() != number,
        },
{
    let ghost wanted = has_number::<T>(number);
    let mut at: usize = 0;
    while at < records.len()
        invariant
            at <= records.len(),
            wanted == has_number::<T>(number),
            forall|i: int| 0 <= i < at ==> !wanted(#[trigger] records@[i]),
        decreases records.len() - at,
    {
        if records[at].index_number() == number {
            proof {
                assert(wanted(records@[at as int]));
                lemma_first_where_found(records@, wanted, at as int);
            }
            return Some(at);
        }
        proof {
            assert(!wanted(records@[at as int]));
        }
        at = at + 1;
    }
    proof {
        lemma_first_where_absent(records@, wanted);
        assert forall|i: int| 0 <= i < records.len() implies (#[trigger] records@[i]).index()
            != number by {
            assert(!wanted(records@[i]));
        }
    }
    None
}

/// In an ordered list a record with a number is the record with that number.
pub proof fn lemma_lookup_at<T: Indexed>(records: Seq<T>, at: int)
    requires
        in_order(records),
        0 <= at < records.len(),
    ensures
        lookup(records, records[at].index()) == Some(records[at]),
{
    let number = records[at].index();
    let wanted = has_number::<T>(number);
    assert forall|i: int| 0 <= i < at implies !wanted(#[trigger] records[i]) by {
        assert(records[i].index() < records[at].index());
    }
    assert(wanted(records[at]));
    lemma_first_where_found(records, wanted, at);
}

/// What a lookup finds has the number and stands in the list.
pub proof fn lemma_lookup<T: Indexed>(records: Seq<T>, number: u64)
    ensures
        match lookup(records, number) {
            Some(record) => record.index() == number && exists|i: int|
                0 <= i < records.len() && #[trigger] records[i] == record,
            None => forall|i: int|
                0 <= i < records.len() ==> (#[trigger] records[i]).index() != number,
        },
{
    let wanted = has_number::<T>(number);
    lemma_first_where(records, wanted);
    match first_where(records, wanted) {
        Some(at) => {
            assert(records[at] == lookup(records, number)->0);
        },
        None => {
            assert forall|i: int| 0 <= i < records.len() implies (#[trigger] records[i]).index()
                != number by {
                assert(!wanted(records[i]));
            }
        },
    }
}

/// Puts a record into an ordered list, in place of the one with its number if there is
/// one.
pub fn put<T: Indexed>(records: &mut Vec<T>, record: T)
    requires
        in_order(old(records)@),
    ensures
        in_order(final(records)@),
        forall|number: u64| #[trigger]
            lookup(final(records)@, number) == if number == record.index() {
                Some(record)
            } else {
                lookup(old(records)@, number)
            },
{
    let ghost before = records@;
    let number: u64 = record.index_number();
    let mut at: usize = 0;
    while at < records.len() && records[at].index_number() < number
        invariant
            at <= records.len(),
            records@ == before,
            in_order(before),
            number == record.index(),
            forall|i: int| 0 <= i < at ==> (#[trigger] before[i]).index() < number,
        decreases records.len() - at,
    {
        at = at + 1;
    }
    if at < records.len() && records[at].index_number() == number {
        records.set(at, record);
        proof {
            assert(records@ =~= before.update(at as int, record));
            assert forall|n: u64| #[trigger] lookup(records@, n) == if n == record.index() {
                Some(record)
            } else {
                lookup(before, n)
            } by {
                lemma_lookup(records@, n);
                lemma_lookup(before, n);
                if n == number {
                    lemma_lookup_at(records@, at as int);
                } else if lookup(before, n) is Some {
                    let k = choose|k: int|
                        0 <= k < before.len() && #[trigger] before[k] == lookup(before, n)->0;
                    assert(records@[k] == before[k]);
                    lemma_lookup_at(records@, k);
                } else if lookup(records@, n) is Some {
                    let k = choose|k: int|
                        0 <= k < records@.len() && #[trigger] records@[k] == lookup(records@, n)->0;
                    assert(before[k].index() != n);
                }
            }
        }
    } else {
        proof {
            assert forall|i: int| at <= i < before.len() implies (#[trigger] before[i]).index()
                > number by {
                if i > at {
                    assert(before[at as int].index() < before[i].index());
                }
            }
        }
        records.insert(at, record);
        proof {
            assert(records@ =~= before.insert(at as int, record));
            assert forall|i: int, j: int| 0 <= i < j < records@.len() implies (
            #[trigger] records@[i]).index() < (#[trigger] records@[j]).index() by {
                if i < at {
                    assert(records@[i] == before[i]);
                } else if i > at {
                    assert(records@[i] == before[i - 1]);
                }
                if j < at {
                    assert(records@[j] == before[j]);
                } else if j > at {
                    assert(records@[j] == before[j - 1]);
                }
            }
            assert forall|n: u64| #[trigger] lookup(records@, n) == if n == record.index() {
                Some(record)
            } else {
                lookup(before, n)
            } by {
                lemma_lookup(records@, n);
                lemma_lookup(before, n);
                if n == number {
                    lemma_lookup_at(records@, at as int);
                } else if lookup(before, n) is Some {
                    let k = choose|k: int|
                        0 <= k < before.len() && #[trigger] before[k] == lookup(before, n)->0;
                    if k < at {
                        assert(records@[k] == before[k]);
                        lemma_lookup_at(records@, k);
                    } else {
                        assert(records@[k + 1] == before[k]);
                        lemma_lookup_at(records@, k + 1);
                    }
                } else if lookup(records@, n) is Some {
                    let k = choose|k: int|
                        0 <= k < records@.len() && #[trigger] records@[k] == lookup(records@, n)->0;
                    if k < at {
                        assert(records@[k] == before[k]);
                    } else if k > at {
                        assert(records@[k] == before[k - 1]);
                    }
                }
            }
        }
    }
}

} // verus!
