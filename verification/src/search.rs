//! The first element of a sequence that has a property.

use vstd::prelude::*;

verus! {

/// Whether `at` is the first place of `items` whose element satisfies `wanted`.
pub open spec fn is_first_where<T>(items: Seq<T>, wanted: spec_fn(T) -> bool, at: int) -> bool {
    &&& 0 <= at < items.len()
    &&& wanted(items[at])
    &&& forall|i: int| 0 <= i < at ==> !wanted(#[trigger] items[i])
}

/// The first place of `items` whose element satisfies `wanted`, if there is one.
pub open spec fn first_where<T>(items: Seq<T>, wanted: spec_fn(T) -> bool) -> Option<int> {
    if exists|at: int| is_first_where(items, wanted, at) {
        Some(choose|at: int| is_first_where(items, wanted, at))
    } else {
        None
    }
}

/// A place with the property and none before it is the first one.
pub proof fn lemma_first_where_found<T>(items: Seq<T>, wanted: spec_fn(T) -> bool, at: int)
    requires
        is_first_where(items, wanted, at),
    ensures
        first_where(items, wanted) == Some(at),
{
    let chosen = choose|i: int| is_first_where(items, wanted, i);
    assert(is_first_where(items, wanted, chosen));
    if chosen < at {
        assert(!wanted(items[chosen]));
    } else if at < chosen {
        assert(!wanted(items[at]));
    }
}

/// Where no element has the property, there is no first one.
pub proof fn lemma_first_where_absent<T>(items: Seq<T>, wanted: spec_fn(T) -> bool)
    requires
        forall|i: int| 0 <= i < items.len() ==> !wanted(#[trigger] items[i]),
    ensures
        first_where(items, wanted) is None,
{
    assert forall|at: int| !is_first_where(items, wanted, at) by {
        if 0 <= at < items.len() {
            assert(!wanted(items[at]));
        }
    }
}

/// What the first place is known by, and what its absence means.
pub proof fn lemma_first_where<T>(items: Seq<T>, wanted: spec_fn(T) -> bool)
    ensures
        match first_where(items, wanted) {
            Some(at) => is_first_where(items, wanted, at),
            None => forall|i: int| 0 <= i < items.len() ==> !wanted(#[trigger] items[i]),
        },
{
    if first_where(items, wanted) is None {
        assert forall|i: int| 0 <= i < items.len() implies !wanted(#[trigger] items[i]) by {
            if wanted(items[i]) {
                lemma_some_first(items, wanted, i);
            }
        }
    }
}

proof fn lemma_some_first<T>(items: Seq<T>, wanted: spec_fn(T) -> bool, at: int)
    requires
        0 <= at < items.len(),
        wanted(items[at]),
    ensures
        exists|i: int| is_first_where(items, wanted, i),
    decreases at,
{
    if exists|i: int| 0 <= i < at && wanted(#[trigger] items[i]) {
        let i = choose|i: int| 0 <= i < at && wanted(#[trigger] items[i]);
        lemma_some_first(items, wanted, i);
    } else {
        assert(is_first_where(items, wanted, at));
    }
}

} // verus!
