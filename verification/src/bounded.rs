//! Lists that keep only their newest items.

use vstd::prelude::*;

verus! {

/// The newest `cap` items, or all where there are no more.
pub open spec fn newest<T>(items: Seq<T>, cap: nat) -> Seq<T> {
    if items.len() > cap {
        items.skip(items.len() - cap)
    } else {
        items
    }
}

/// A list after `item` was appended and the oldest items beyond `cap` were dropped.
pub open spec fn bounded_push<T>(items: Seq<T>, item: T, cap: nat) -> Seq<T> {
    newest(items.push(item), cap)
}

/// Drops the oldest items beyond `cap`.
pub fn keep_newest<T>(items: &mut Vec<T>, cap: usize)
    ensures
        final(items)@ == newest(old(items)@, cap as nat),
{
    let ghost all = items@;
    proof {
        assert(all.skip(0) =~= all);
    }
    while items.len() > cap
        invariant
            items.len() <= all.len(),
            items@ == all.skip(all.len() - items.len()),
            all.len() <= cap ==> items.len() == all.len(),
            all.len() > cap ==> items.len() >= cap,
        decreases items.len(),
    {
        let ghost held = items@;
        items.remove(0);
        proof {
            assert(items@ =~= held.skip(1));
            assert(all.skip(all.len() - held.len()).skip(1) =~= all.skip(all.len() - items.len()));
        }
    }
}

} // verus!
