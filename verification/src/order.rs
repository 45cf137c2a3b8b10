//! Sorted, duplicate-free lists of identities.

use vstd::prelude::*;

verus! {

/// A value that its raw number identifies.
pub trait Keyed: Copy {
    /// The number that identifies the value.
    spec fn key(self) -> u64;

    /// Returns the number that identifies the value.
    fn raw(self) -> (value: u64)
        ensures
            value == self.key(),
    ;

    /// Two values with one number are the same value.
    proof fn lemma_key_injective(a: Self, b: Self)
        requires
            a.key() == b.key(),
        ensures
            a == b,
    ;
}

/// Whether the keys of `items` strictly ascend.
pub open spec fn ascending<T: Keyed>(items: Seq<T>) -> bool {
    forall|i: int, j: int|
        0 <= i < j < items.len() ==> #[trigger] items[i].key() < #[trigger] items[j].key()
}

/// `items`, which ascend, with `item` put in its place; unchanged where it is
/// there already.
pub open spec fn insert_sorted<T: Keyed>(items: Seq<T>, item: T) -> Seq<T>
    decreases items.len(),
{
    if items.len() == 0 {
        seq![item]
    } else if items.last().key() < item.key() {
        items.push(item)
    } else if items.last().key() == item.key() {
        items
    } else {
        insert_sorted(items.drop_last(), item).push(items.last())
    }
}

/// The distinct members of `items` in ascending order.
pub open spec fn canonical<T: Keyed>(items: Seq<T>) -> Seq<T>
    decreases items.len(),
{
    if items.len() == 0 {
        items
    } else {
        insert_sorted(canonical(items.drop_last()), items.last())
    }
}

proof fn lemma_insert_sorted<T: Keyed>(items: Seq<T>, item: T)
    requires
        ascending(items),
    ensures
        ascending(insert_sorted(items, item)),
        forall|x: T| #[trigger]
            insert_sorted(items, item).contains(x) <==> items.contains(x) || x == item,
    decreases items.len(),
{
    let r = insert_sorted(items, item);
    if items.len() == 0 {
        assert(r == seq![item]);
        assert(r[0] == item);
        assert forall|x: T| #[trigger] r.contains(x) <==> items.contains(x) || x == item by {
            if r.contains(x) {
                let i = choose|i: int| 0 <= i < r.len() && r[i] == x;
            }
        }
    } else if items.last().key() < item.key() {
        assert(r == items.push(item));
        assert forall|x: T| #[trigger] r.contains(x) <==> items.contains(x) || x == item by {
            if items.contains(x) {
                let i = choose|i: int| 0 <= i < items.len() && items[i] == x;
                assert(r[i] == x);
            }
            assert(r[items.len() as int] == item);
            if r.contains(x) {
                let i = choose|i: int| 0 <= i < r.len() && r[i] == x;
                if i < items.len() {
                    assert(items[i] == x);
                }
            }
        }
    } else if items.last().key() == item.key() {
        T::lemma_key_injective(items.last(), item);
        assert(items[items.len() - 1] == item);
    } else {
        let front = items.drop_last();
        let inner = insert_sorted(front, item);
        assert(ascending(front)) by {
            assert forall|i: int, j: int| 0 <= i < j < front.len() implies #[trigger] front[i].key()
                < #[trigger] front[j].key() by {
                assert(front[i] == items[i] && front[j] == items[j]);
            }
        }
        lemma_insert_sorted(front, item);
        assert forall|i: int| 0 <= i < inner.len() implies (#[trigger] inner[i]).key()
            < items.last().key() by {
            assert(inner.contains(inner[i]));
            if front.contains(inner[i]) {
                let k = choose|k: int| 0 <= k < front.len() && front[k] == inner[i];
                assert(items[k].key() < items[items.len() - 1].key());
            }
        }
        assert(ascending(r));
        assert forall|x: T| #[trigger] r.contains(x) <==> items.contains(x) || x == item by {
            if r.contains(x) {
                let i = choose|i: int| 0 <= i < r.len() && r[i] == x;
                if i < inner.len() {
                    assert(inner[i] == x);
                    assert(inner.contains(x));
                    if front.contains(x) {
                        let k = choose|k: int| 0 <= k < front.len() && front[k] == x;
                        assert(items[k] == x);
                    }
                } else {
                    assert(items[items.len() - 1] == x);
                }
            }
            if items.contains(x) {
                let k = choose|k: int| 0 <= k < items.len() && items[k] == x;
                if k < front.len() {
                    assert(front[k] == x);
                    assert(inner.contains(x));
                    let i = choose|i: int| 0 <= i < inner.len() && inner[i] == x;
                    assert(r[i] == x);
                } else {
                    assert(r[r.len() - 1] == x);
                }
            }
            if x == item {
                assert(inner.contains(x));
                let i = choose|i: int| 0 <= i < inner.len() && inner[i] == x;
                assert(r[i] == x);
            }
        }
    }
}

/// The canonical list ascends and has exactly the members of `items`.
pub proof fn lemma_canonical<T: Keyed>(items: Seq<T>)
    ensures
        ascending(canonical(items)),
        forall|x: T| #[trigger] canonical(items).contains(x) <==> items.contains(x),
    decreases items.len(),
{
    if items.len() > 0 {
        let front = items.drop_last();
        lemma_canonical(front);
        lemma_insert_sorted(canonical(front), items.last());
        assert forall|x: T| #[trigger] canonical(items).contains(x) <==> items.contains(x) by {
            if items.contains(x) {
                let i = choose|i: int| 0 <= i < items.len() && items[i] == x;
                if i < front.len() {
                    assert(front[i] == x);
                    assert(canonical(front).contains(x));
                }
            }
            if front.contains(x) {
                let i = choose|i: int| 0 <= i < front.len() && front[i] == x;
                assert(items[i] == x);
            }
            assert(items[items.len() - 1] == items.last());
        }
    }
}

/// A list that ascends already is its own canonical form.
pub proof fn lemma_canonical_fixed<T: Keyed>(items: Seq<T>)
    requires
        ascending(items),
    ensures
        canonical(items) == items,
    decreases items.len(),
{
    if items.len() > 0 {
        let front = items.drop_last();
        assert forall|i: int, j: int| 0 <= i < j < front.len() implies #[trigger] front[i].key()
            < #[trigger] front[j].key() by {
            assert(front[i] == items[i] && front[j] == items[j]);
        }
        lemma_canonical_fixed(front);
        if front.len() > 0 {
            assert(front.last() == items[items.len() - 2]);
            assert(items[items.len() - 2].key() < items[items.len() - 1].key());
        }
        assert(canonical(items) =~= items);
    }
}

proof fn lemma_insert_at<T: Keyed>(items: Seq<T>, item: T, at: int)
    requires
        0 <= at <= items.len(),
        forall|i: int| 0 <= i < at ==> (#[trigger] items[i]).key() < item.key(),
        forall|i: int| at <= i < items.len() ==> (#[trigger] items[i]).key() > item.key(),
    ensures
        insert_sorted(items, item) == items.insert(at, item),
    decreases items.len(),
{
    if items.len() == 0 {
        assert(items.insert(at, item) =~= seq![item]);
    } else if at == items.len() {
        assert(items[items.len() - 1] == items.last());
        assert(items.insert(at, item) =~= items.push(item));
    } else {
        assert(items[items.len() - 1] == items.last());
        let front = items.drop_last();
        lemma_insert_at(front, item, at);
        assert(items.insert(at, item) =~= front.insert(at, item).push(items.last()));
    }
}

proof fn lemma_insert_present<T: Keyed>(items: Seq<T>, item: T, at: int)
    requires
        0 <= at < items.len(),
        ascending(items),
        items[at].key() == item.key(),
    ensures
        insert_sorted(items, item) == items,
    decreases items.len(),
{
    if at < items.len() - 1 {
        let front = items.drop_last();
        assert(items[at].key() < items[items.len() - 1].key());
        assert forall|i: int, j: int| 0 <= i < j < front.len() implies #[trigger] front[i].key()
            < #[trigger] front[j].key() by {
            assert(front[i] == items[i] && front[j] == items[j]);
        }
        assert(front[at] == items[at]);
        lemma_insert_present(front, item, at);
        assert(front.push(items.last()) =~= items);
    }
}

/// Puts `item` into an ascending list unless it is there already.
pub fn insert_unique<T: Keyed>(items: &mut Vec<T>, item: T)
    requires
        ascending(old(items)@),
    ensures
        final(items)@ == insert_sorted(old(items)@, item),
        ascending(final(items)@),
{
    let mut at: usize = items.len();
    let ghost before = items@;
    proof {
        lemma_insert_sorted(before, item);
    }
    while at > 0 && items[at - 1].raw() > item.raw()
        invariant
            at <= items.len(),
            items@ == before,
            forall|i: int| at <= i < items.len() ==> (#[trigger] items@[i]).key() > item.key(),
        decreases at,
    {
        at = at - 1;
    }
    if at > 0 && items[at - 1].raw() == item.raw() {
        proof {
            lemma_insert_present(before, item, at - 1);
        }
    } else {
        proof {
            assert forall|i: int| 0 <= i < at implies (#[trigger] before[i]).key() < item.key() by {
                if i < at - 1 {
                    assert(before[i].key() < before[at - 1].key());
                }
            }
            lemma_insert_at(before, item, at as int);
        }
        items.insert(at, item);
    }
}

/// Sorts `items` and drops repetitions.
pub fn sort_unique<T: Keyed>(items: &Vec<T>) -> (sorted: Vec<T>)
    ensures
        sorted@ == canonical(items@),
{
    let mut sorted: Vec<T> = Vec::new();
    let mut at: usize = 0;
    proof {
        assert(items@.take(0) =~= Seq::<T>::empty());
    }
    while at < items.len()
        invariant
            at <= items.len(),
            sorted@ == canonical(items@.take(at as int)),
            ascending(sorted@),
        decreases items.len() - at,
    {
        insert_unique(&mut sorted, items[at]);
        at = at + 1;
        proof {
            assert(items@.take(at as int).drop_last() =~= items@.take(at - 1));
        }
    }
    proof {
        assert(items@.take(at as int) =~= items@);
    }
    sorted
}

/// Whether `key` belongs to two places of `items`.
pub open spec fn repeated<T: Keyed>(items: Seq<T>, key: u64) -> bool {
    exists|i: int, j: int|
        0 <= i < j < items.len() && #[trigger] items[i].key() == key && #[trigger] items[j].key()
            == key
}

/// Whether `key` is the smallest key that `items` repeats.
pub open spec fn smallest_repeated<T: Keyed>(items: Seq<T>, key: u64) -> bool {
    &&& repeated(items, key)
    &&& forall|other: u64| other < key ==> !#[trigger] repeated(items, other)
}

/// The smallest key that `items` repeats, if any does.
pub open spec fn first_repeat<T: Keyed>(items: Seq<T>) -> Option<u64> {
    if exists|key: u64| smallest_repeated(items, key) {
        Some(choose|key: u64| smallest_repeated(items, key))
    } else {
        None
    }
}

/// Finds the smallest key that `items` repeats.
pub fn find_repeat<T: Keyed>(items: &Vec<T>) -> (found: Option<u64>)
    ensures
        found == first_repeat(items@),
        match found {
            Some(key) => smallest_repeated(items@, key),
            None => forall|i: int, j: int|
                0 <= i < j < items.len() ==> #[trigger] items@[i].key()
                    != #[trigger] items@[j].key(),
        },
{
    let mut found: Option<u64> = None;
    let mut i: usize = 0;
    while i < items.len()
        invariant
            i <= items.len(),
            match found {
                Some(key) => repeated(items@, key),
                None => true,
            },
            forall|a: int, b: int|
                0 <= a < i && a < b < items.len() && #[trigger] items@[a].key()
                    == #[trigger] items@[b].key() ==> (found matches Some(key) && key
                    <= items@[a].key()),
        decreases items.len() - i,
    {
        let key: u64 = items[i].raw();
        let mut j: usize = i + 1;
        let ghost earlier = found;
        while j < items.len()
            invariant
                i < j <= items.len(),
                key == items@[i as int].key(),
                match found {
                    Some(k) => repeated(items@, k),
                    None => true,
                },
                earlier matches Some(k) ==> (found matches Some(f) && f <= k),
                forall|b: int|
                    i < b < j && #[trigger] items@[b].key() == key ==> (found matches Some(k) && k
                        <= key),
            decreases items.len() - j,
        {
            if items[j].raw() == key {
                proof {
                    assert(items@[i as int].key() == key && items@[j as int].key() == key);
                    assert(repeated(items@, key));
                }
                let better: bool = match found {
                    Some(k) => key < k,
                    None => true,
                };
                if better {
                    found = Some(key);
                }
            }
            j = j + 1;
        }
        i = i + 1;
    }
    proof {
        match found {
            Some(key) => {
                assert forall|other: u64| other < key implies !#[trigger] repeated(
                    items@,
                    other,
                ) by {
                    if repeated(items@, other) {
                        let (a, b) = choose|a: int, b: int|
                            0 <= a < b < items@.len() && #[trigger] items@[a].key() == other
                                && #[trigger] items@[b].key() == other;
                        assert(items@[a].key() == items@[b].key());
                    }
                }
                assert(smallest_repeated(items@, key));
                let chosen = choose|k: u64| smallest_repeated(items@, k);
                assert(smallest_repeated(items@, chosen));
                assert(chosen == key) by {
                    if chosen < key {
                        assert(!repeated(items@, chosen));
                    } else if key < chosen {
                        assert(!repeated(items@, key));
                    }
                }
            },
            None => {
                assert forall|key: u64| !smallest_repeated(items@, key) by {
                    if smallest_repeated(items@, key) {
                        let (a, b) = choose|a: int, b: int|
                            0 <= a < b < items@.len() && #[trigger] items@[a].key() == key
                                && #[trigger] items@[b].key() == key;
                        assert(items@[a].key() == items@[b].key());
                    }
                }
            },
        }
    }
    found
}

/// A list without repetition keeps its length in canonical form.
pub proof fn lemma_canonical_len<T: Keyed>(items: Seq<T>)
    requires
        forall|i: int, j: int|
            0 <= i < j < items.len() ==> #[trigger] items[i].key() != #[trigger] items[j].key(),
    ensures
        canonical(items).len() == items.len(),
    decreases items.len(),
{
    if items.len() > 0 {
        let front = items.drop_last();
        assert forall|i: int, j: int| 0 <= i < j < front.len() implies #[trigger] front[i].key()
            != #[trigger] front[j].key() by {
            assert(front[i] == items[i] && front[j] == items[j]);
        }
        lemma_canonical_len(front);
        lemma_canonical(front);
        assert forall|k: int| 0 <= k < canonical(front).len() implies (
        #[trigger] canonical(front)[k]).key() != items.last().key() by {
            assert(canonical(front).contains(canonical(front)[k]));
            let i = choose|i: int| 0 <= i < front.len() && front[i] == canonical(front)[k];
            assert(items[i].key() != items[items.len() - 1].key());
        }
        lemma_insert_grows(canonical(front), items.last());
    }
}

proof fn lemma_insert_grows<T: Keyed>(items: Seq<T>, item: T)
    requires
        forall|k: int| 0 <= k < items.len() ==> (#[trigger] items[k]).key() != item.key(),
    ensures
        insert_sorted(items, item).len() == items.len() + 1,
    decreases items.len(),
{
    if items.len() > 0 {
        let front = items.drop_last();
        assert(items[items.len() - 1] == items.last());
        assert forall|k: int| 0 <= k < front.len() implies (#[trigger] front[k]).key()
            != item.key() by {
            assert(front[k] == items[k]);
        }
        lemma_insert_grows(front, item);
    }
}

} // verus!
