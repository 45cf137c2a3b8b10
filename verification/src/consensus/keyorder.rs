//! Objects in the order of their keys.
//!
//! A store hands its objects out in any order. Snapshots hold them in the order of their
//! keys, so that the same state always gives the same bytes.

use crate::consensus::sections::{EntryView, ObjectEntry};
use crate::ranked::views;
use vstd::prelude::*;

verus! {

/// An object entry and the key itself, which it is ordered by.
#[derive(Debug, PartialEq, Eq)]
pub struct KeyedEntry {
    /// The key.
    pub raw: Vec<u8>,
    /// The entry.
    pub entry: ObjectEntry,
}

/// What a [`KeyedEntry`] says.
#[verifier::ext_equal]
pub struct KeyedView {
    pub raw: Seq<u8>,
    pub entry: EntryView,
}

impl View for KeyedEntry {
    type V = KeyedView;

    open spec fn view(&self) -> KeyedView {
        KeyedView { raw: self.raw@, entry: self.entry@ }
    }
}

/// Whether key `a` comes before key `b`: byte by byte, and a key before its extensions.
pub open spec fn precedes(a: Seq<u8>, b: Seq<u8>) -> bool
    decreases a.len(),
{
    if b.len() == 0 {
        false
    } else if a.len() == 0 {
        true
    } else if a[0] != b[0] {
        a[0] < b[0]
    } else {
        precedes(a.drop_first(), b.drop_first())
    }
}

/// `items`, which are in order, with `item` in its place.
pub open spec fn inserted(items: Seq<KeyedView>, item: KeyedView) -> Seq<KeyedView>
    decreases items.len(),
{
    if items.len() > 0 && precedes(item.raw, items.last().raw) {
        inserted(items.drop_last(), item).push(items.last())
    } else {
        items.push(item)
    }
}

/// `items` in the order of their keys.
pub open spec fn in_key_order(items: Seq<KeyedView>) -> Seq<KeyedView>
    decreases items.len(),
{
    if items.len() == 0 {
        items
    } else {
        inserted(in_key_order(items.drop_last()), items.last())
    }
}

/// The entries of `items`.
pub open spec fn entries_of(items: Seq<KeyedView>) -> Seq<EntryView> {
    Seq::new(items.len(), |i: int| items[i].entry)
}

/// Whether keys strictly ascend.
pub open spec fn keys_ascend(items: Seq<KeyedView>) -> bool {
    forall|i: int, j: int|
        0 <= i < j < items.len() ==> precedes((#[trigger] items[i]).raw, (#[trigger] items[j]).raw)
}

/// Whether no key occurs twice.
pub open spec fn keys_differ(items: Seq<KeyedView>) -> bool {
    forall|i: int, j: int|
        0 <= i < j < items.len() ==> (#[trigger] items[i]).raw != (#[trigger] items[j]).raw
}

fn key_precedes(a: &Vec<u8>, b: &Vec<u8>) -> (before: bool)
    ensures
        before == precedes(a@, b@),
{
    let mut at: usize = 0;
    proof {
        assert(a@.skip(0) =~= a@);
        assert(b@.skip(0) =~= b@);
    }
    while at < a.len() && at < b.len()
        invariant
            at <= a.len(),
            at <= b.len(),
            precedes(a@, b@) == precedes(a@.skip(at as int), b@.skip(at as int)),
        decreases a.len() - at,
    {
        if a[at] != b[at] {
            return a[at] < b[at];
        }
        proof {
            assert(a@.skip(at as int).drop_first() =~= a@.skip(at + 1));
            assert(b@.skip(at as int).drop_first() =~= b@.skip(at + 1));
        }
        at = at + 1;
    }
    at < b.len()
}

/// Puts objects into the order of their keys.
pub fn sort_entries(items: Vec<KeyedEntry>) -> (entries: Vec<ObjectEntry>)
    ensures
        views(entries@) == entries_of(in_key_order(views(items@))),
{
    let ghost given = items@;
    let ghost all = views(given);
    let total: usize = items.len();
    let mut pending: Vec<KeyedEntry> = items;
    let mut sorted: Vec<KeyedEntry> = Vec::new();
    let mut taken: usize = 0;
    proof {
        assert(all.take(0) =~= Seq::empty());
        assert(views(sorted@) =~= in_key_order(all.take(0)));
        assert(given.skip(0) =~= given);
    }
    while taken < total
        invariant
            taken <= total,
            total == given.len(),
            all == views(given),
            pending@ == given.skip(taken as int),
            views(sorted@) == in_key_order(all.take(taken as int)),
        decreases total - taken,
    {
        let item: KeyedEntry = pending.remove(0);
        proof {
            assert(item == given[taken as int]);
            assert(pending@ =~= given.skip(taken + 1));
            assert(all.take(taken + 1).drop_last() =~= all.take(taken as int));
            assert(all.take(taken + 1).last() == item@);
        }
        insert_entry(&mut sorted, item);
        taken = taken + 1;
    }
    proof {
        assert(all.take(taken as int) =~= all);
    }
    let ghost order = views(sorted@);
    let ghost held = sorted@;
    let count: usize = sorted.len();
    let mut entries: Vec<ObjectEntry> = Vec::new();
    let mut moved: usize = 0;
    proof {
        assert(held.skip(0) =~= held);
    }
    while moved < count
        invariant
            moved <= count,
            count == held.len(),
            order == views(held),
            sorted@ == held.skip(moved as int),
            entries.len() == moved,
            forall|i: int| 0 <= i < moved ==> (#[trigger] entries@[i])@ == order[i].entry,
        decreases count - moved,
    {
        let item: KeyedEntry = sorted.remove(0);
        proof {
            assert(item == held[moved as int]);
            assert(sorted@ =~= held.skip(moved + 1));
            assert(order[moved as int] == item@);
        }
        entries.push(item.entry);
        moved = moved + 1;
    }
    proof {
        assert(views(entries@) =~= entries_of(order));
    }
    entries
}

fn insert_entry(items: &mut Vec<KeyedEntry>, item: KeyedEntry)
    ensures
        views(final(items)@) == inserted(views(old(items)@), item@),
{
    let ghost before = items@;
    let ghost all = views(before);
    let mut left: usize = items.len();
    proof {
        assert(all.take(left as int) =~= all);
        assert(inserted(all, item@) =~= inserted(all.take(left as int), item@) + all.skip(
            left as int,
        ));
    }
    while left > 0 && key_precedes(&item.raw, &items[left - 1].raw)
        invariant
            left <= items.len(),
            items@ == before,
            all == views(before),
            inserted(all, item@) == inserted(all.take(left as int), item@) + all.skip(left as int),
        decreases left,
    {
        proof {
            let now = all.take(left as int);
            assert(now.last() == before[left - 1]@);
            assert(now.drop_last() =~= all.take(left - 1));
            assert(inserted(now, item@) + all.skip(left as int) =~= inserted(
                now.drop_last(),
                item@,
            ) + all.skip(left - 1));
        }
        left = left - 1;
    }
    let ghost now = all.take(left as int);
    items.insert(left, item);
    proof {
        if left > 0 {
            assert(now.last() == before[left - 1]@);
        }
        assert(inserted(now, item@) =~= now.push(item@));
        assert(views(items@) =~= now.push(item@) + all.skip(left as int));
    }
}

proof fn lemma_precedes_irreflexive(a: Seq<u8>)
    ensures
        !precedes(a, a),
    decreases a.len(),
{
    if a.len() > 0 {
        lemma_precedes_irreflexive(a.drop_first());
    }
}

proof fn lemma_precedes_transitive(a: Seq<u8>, b: Seq<u8>, c: Seq<u8>)
    requires
        precedes(a, b),
        precedes(b, c),
    ensures
        precedes(a, c),
    decreases a.len(),
{
    if a.len() > 0 && b.len() > 0 && c.len() > 0 {
        if a[0] == b[0] && b[0] == c[0] {
            lemma_precedes_transitive(a.drop_first(), b.drop_first(), c.drop_first());
        }
    }
}

proof fn lemma_precedes_total(a: Seq<u8>, b: Seq<u8>)
    ensures
        a == b || precedes(a, b) || precedes(b, a),
    decreases a.len(),
{
    if a.len() == 0 && b.len() == 0 {
        assert(a =~= b);
    } else if a.len() > 0 && b.len() > 0 && a[0] == b[0] {
        lemma_precedes_total(a.drop_first(), b.drop_first());
        if a.drop_first() == b.drop_first() {
            assert(a =~= seq![a[0]] + a.drop_first());
            assert(b =~= seq![b[0]] + b.drop_first());
        }
    }
}

proof fn lemma_inserted(items: Seq<KeyedView>, item: KeyedView)
    requires
        keys_ascend(items),
        forall|i: int| 0 <= i < items.len() ==> (#[trigger] items[i]).raw != item.raw,
    ensures
        keys_ascend(inserted(items, item)),
        forall|x: KeyedView| #[trigger]
            inserted(items, item).contains(x) <==> items.contains(x) || x == item,
    decreases items.len(),
{
    let result = inserted(items, item);
    if items.len() > 0 && precedes(item.raw, items.last().raw) {
        let front = items.drop_last();
        let inner = inserted(front, item);
        assert(keys_ascend(front)) by {
            assert forall|i: int, j: int| 0 <= i < j < front.len() implies precedes(
                (#[trigger] front[i]).raw,
                (#[trigger] front[j]).raw,
            ) by {
                assert(precedes(items[i].raw, items[j].raw));
            }
        }
        assert forall|i: int| 0 <= i < front.len() implies (#[trigger] front[i]).raw
            != item.raw by {
            assert(items[i].raw != item.raw);
        }
        lemma_inserted(front, item);
        assert forall|i: int, j: int| 0 <= i < j < result.len() implies precedes(
            (#[trigger] result[i]).raw,
            (#[trigger] result[j]).raw,
        ) by {
            if j < inner.len() {
                assert(precedes(inner[i].raw, inner[j].raw));
            } else {
                assert(inner.contains(inner[i]));
                if inner[i] != item {
                    assert(front.contains(inner[i]));
                    let k = choose|k: int| 0 <= k < front.len() && front[k] == inner[i];
                    assert(precedes(items[k].raw, items[items.len() - 1].raw));
                }
            }
        }
        assert forall|x: KeyedView| #[trigger] result.contains(x) <==> items.contains(x) || x
            == item by {
            vstd::seq_lib::lemma_seq_contains_after_push(inner, items.last(), x);
            vstd::seq_lib::lemma_seq_contains_after_push(front, items.last(), x);
            assert(front.push(items.last()) =~= items);
            assert(inner.contains(x) <==> front.contains(x) || x == item);
        }
    } else {
        assert forall|i: int, j: int| 0 <= i < j < result.len() implies precedes(
            (#[trigger] result[i]).raw,
            (#[trigger] result[j]).raw,
        ) by {
            if j < items.len() {
                assert(precedes(items[i].raw, items[j].raw));
            } else {
                let last = items.len() - 1;
                lemma_precedes_total(items[last].raw, item.raw);
                assert(items[last].raw != item.raw);
                if i < last {
                    assert(precedes(items[i].raw, items[last].raw));
                    lemma_precedes_transitive(items[i].raw, items[last].raw, item.raw);
                }
            }
        }
        assert forall|x: KeyedView| #[trigger] result.contains(x) <==> items.contains(x) || x
            == item by {
            vstd::seq_lib::lemma_seq_contains_after_push(items, item, x);
        }
    }
}

proof fn lemma_in_key_order(items: Seq<KeyedView>)
    requires
        keys_differ(items),
    ensures
        keys_ascend(in_key_order(items)),
        forall|x: KeyedView| #[trigger] in_key_order(items).contains(x) <==> items.contains(x),
    decreases items.len(),
{
    if items.len() > 0 {
        let front = items.drop_last();
        let before = in_key_order(front);
        assert forall|i: int, j: int| 0 <= i < j < front.len() implies (#[trigger] front[i]).raw
            != (#[trigger] front[j]).raw by {
            assert(items[i].raw != items[j].raw);
        }
        lemma_in_key_order(front);
        assert forall|i: int| 0 <= i < before.len() implies (#[trigger] before[i]).raw
            != items.last().raw by {
            assert(before.contains(before[i]));
            assert(front.contains(before[i]));
            let k = choose|k: int| 0 <= k < front.len() && front[k] == before[i];
            assert(items[k].raw != items[items.len() - 1].raw);
        }
        lemma_inserted(before, items.last());
        assert forall|x: KeyedView| #[trigger] in_key_order(items).contains(x) <==> items.contains(
            x,
        ) by {
            vstd::seq_lib::lemma_seq_contains_after_push(front, items.last(), x);
            assert(front.push(items.last()) =~= items);
            assert(before.contains(x) <==> front.contains(x));
        }
    }
}

proof fn lemma_ascending_unique(a: Seq<KeyedView>, b: Seq<KeyedView>)
    requires
        keys_ascend(a),
        keys_ascend(b),
        forall|x: KeyedView| #[trigger] a.contains(x) <==> b.contains(x),
    ensures
        a == b,
    decreases a.len(),
{
    if a.len() == 0 {
        if b.len() > 0 {
            assert(b.contains(b[0]));
            assert(a.contains(b[0]));
        }
        assert(a =~= b);
    } else {
        let last = a.last();
        assert(a[a.len() - 1] == last);
        assert(a.contains(last));
        assert(b.contains(last));
        let k = choose|k: int| 0 <= k < b.len() && b[k] == last;
        if k < b.len() - 1 {
            let top = b.last();
            assert(precedes(b[k].raw, b[b.len() - 1].raw));
            assert(b.contains(top));
            assert(a.contains(top));
            let m = choose|m: int| 0 <= m < a.len() && a[m] == top;
            if m < a.len() - 1 {
                assert(precedes(a[m].raw, a[a.len() - 1].raw));
                lemma_precedes_transitive(last.raw, top.raw, last.raw);
            }
            lemma_precedes_irreflexive(last.raw);
        }
        let front_a = a.drop_last();
        let front_b = b.drop_last();
        assert(b.last() == last);
        assert forall|i: int, j: int| 0 <= i < j < front_a.len() implies precedes(
            (#[trigger] front_a[i]).raw,
            (#[trigger] front_a[j]).raw,
        ) by {
            assert(precedes(a[i].raw, a[j].raw));
        }
        assert forall|i: int, j: int| 0 <= i < j < front_b.len() implies precedes(
            (#[trigger] front_b[i]).raw,
            (#[trigger] front_b[j]).raw,
        ) by {
            assert(precedes(b[i].raw, b[j].raw));
        }
        assert forall|x: KeyedView| #[trigger] front_a.contains(x) <==> front_b.contains(x) by {
            lemma_front(a, x);
            lemma_front(b, x);
            assert(a.contains(x) <==> b.contains(x));
        }
        lemma_ascending_unique(front_a, front_b);
        assert(front_a.push(last) =~= a);
        assert(front_b.push(last) =~= b);
    }
}

proof fn lemma_front(items: Seq<KeyedView>, x: KeyedView)
    requires
        items.len() > 0,
        keys_ascend(items),
    ensures
        items.drop_last().contains(x) <==> items.contains(x) && x != items.last(),
{
    let front = items.drop_last();
    if front.contains(x) {
        let k = choose|k: int| 0 <= k < front.len() && front[k] == x;
        assert(items[k] == x);
        assert(precedes(items[k].raw, items[items.len() - 1].raw));
        lemma_precedes_irreflexive(x.raw);
    }
    if items.contains(x) && x != items.last() {
        let k = choose|k: int| 0 <= k < items.len() && items[k] == x;
        assert(front[k] == x);
    }
}

/// The order in which a store hands out its objects does not matter: the same objects
/// give the same list.
pub proof fn law_key_order_is_canonical(a: Seq<KeyedView>, b: Seq<KeyedView>)
    requires
        keys_differ(a),
        keys_differ(b),
        forall|x: KeyedView| #[trigger] a.contains(x) <==> b.contains(x),
    ensures
        in_key_order(a) == in_key_order(b),
        keys_ascend(in_key_order(a)),
{
    lemma_in_key_order(a);
    lemma_in_key_order(b);
    assert forall|x: KeyedView| #[trigger] in_key_order(a).contains(x) <==> in_key_order(
        b,
    ).contains(x) by {
        assert(a.contains(x) <==> b.contains(x));
    }
    lemma_ascending_unique(in_key_order(a), in_key_order(b));
}

/// Keys are ordered as byte strings are: a key comes before its extensions, and where two
/// keys part, the smaller byte comes first.
pub proof fn law_keys_are_ordered_by_their_bytes(a: Seq<u8>, b: Seq<u8>, at: int)
    requires
        0 <= at <= a.len(),
        at <= b.len(),
        a.take(at) == b.take(at),
    ensures
        at == a.len() ==> (precedes(a, b) <==> b.len() > at),
        at < a.len() && at == b.len() ==> !precedes(a, b),
        at < a.len() && at < b.len() && a[at] < b[at] ==> precedes(a, b),
        at < a.len() && at < b.len() && a[at] > b[at] ==> !precedes(a, b),
    decreases at,
{
    if at > 0 {
        assert(a[0] == a.take(at)[0] && b[0] == b.take(at)[0]);
        let c = a.drop_first();
        let d = b.drop_first();
        assert(c.take(at - 1) =~= a.take(at).drop_first());
        assert(d.take(at - 1) =~= b.take(at).drop_first());
        law_keys_are_ordered_by_their_bytes(c, d, at - 1);
    }
}

/// Sorting keeps every entry and adds none.
pub proof fn law_sorting_keeps_every_entry(items: Seq<KeyedView>, item: KeyedView)
    requires
        keys_differ(items),
    ensures
        in_key_order(items).contains(item) <==> items.contains(item),
        in_key_order(items).len() == items.len(),
{
    lemma_in_key_order(items);
    lemma_order_keeps_count(items);
}

proof fn lemma_order_keeps_count(items: Seq<KeyedView>)
    ensures
        in_key_order(items).len() == items.len(),
    decreases items.len(),
{
    if items.len() > 0 {
        lemma_order_keeps_count(items.drop_last());
        lemma_inserted_count(in_key_order(items.drop_last()), items.last());
    }
}

proof fn lemma_inserted_count(items: Seq<KeyedView>, item: KeyedView)
    ensures
        inserted(items, item).len() == items.len() + 1,
    decreases items.len(),
{
    if items.len() > 0 {
        lemma_inserted_count(items.drop_last(), item);
    }
}

} // verus!
