//! The order of the report: highest value first, equal values in the order
//! in which they were found.

use crate::entry::{entries_view, EntryView, ZIndexEntry};
use crate::number::{sort_key, sort_key_of};
use vstd::prelude::*;
use vstd::multiset::{lemma_multiset_empty_len, Multiset};
use vstd::seq_lib::{to_multiset_build, to_multiset_insert, to_multiset_len};

verus! {

/// The number by which an entry is ordered.
pub open spec fn key_of(entry: EntryView) -> int {
    sort_key_of(entry.z_index)
}

/// The test that an entry is ordered by `key`.
pub open spec fn has_key(key: int) -> spec_fn(EntryView) -> bool {
    |entry: EntryView| key_of(entry) == key
}

/// The entries that are ordered by `key`, in the order in which they stand.
pub open spec fn with_key(entries: Seq<EntryView>, key: int) -> Seq<EntryView> {
    entries.filter(has_key(key))
}

/// No entry stands before one with a higher key.
pub open spec fn is_descending(entries: Seq<EntryView>) -> bool {
    forall|i: int, j: int|
        0 <= i < j < entries.len() ==> key_of(#[trigger] entries[i]) >= key_of(
            #[trigger] entries[j],
        )
}

/// `sorted` holds the entries of `unsorted` by descending key, and those
/// with the same key in the order that they have in `unsorted`.
pub open spec fn is_stable_sort_of(sorted: Seq<EntryView>, unsorted: Seq<EntryView>) -> bool {
    &&& is_descending(sorted)
    &&& forall|key: int| #[trigger] with_key(sorted, key) == with_key(unsorted, key)
}

/// Where no entry has the key, none is selected.
proof fn lemma_with_key_absent(entries: Seq<EntryView>, key: int)
    requires
        forall|i: int| 0 <= i < entries.len() ==> key_of(#[trigger] entries[i]) != key,
    ensures
        with_key(entries, key) == Seq::<EntryView>::empty(),
    decreases entries.len(),
{
    reveal(Seq::filter);
    if entries.len() > 0 {
        let shorter = entries.drop_last();
        lemma_with_key_absent(shorter, key);
    }
}

/// What an entry that is put in behind the higher keys does to the
/// selection by `key`: it comes first among its own key and leaves the
/// other keys as they were.
proof fn lemma_with_key_insert(entries: Seq<EntryView>, at: int, entry: EntryView, key: int)
    requires
        0 <= at <= entries.len(),
        forall|i: int| 0 <= i < at ==> key_of(#[trigger] entries[i]) > key_of(entry),
    ensures
        with_key(entries.insert(at, entry), key) == if key_of(entry) == key {
            seq![entry] + with_key(entries, key)
        } else {
            with_key(entries, key)
        },
{
    let head = entries.subrange(0, at);
    let tail = entries.subrange(at, entries.len() as int);
    let test = has_key(key);
    assert(entries =~= head + tail);
    Seq::filter_distributes_over_add(head, tail, test);
    Seq::filter_distributes_over_add(head.push(entry), tail, test);
    head.lemma_filter_push(entry, test);
    if key_of(entry) == key {
        lemma_with_key_absent(head, key);
    }
}

/// The selection by `key` from the entries after `from - 1`, in terms of
/// the selection from the entries after `from`.
proof fn lemma_with_key_skip(entries: Seq<EntryView>, from: int, key: int)
    requires
        0 < from <= entries.len(),
    ensures
        with_key(entries.skip(from - 1), key) == if key_of(entries[from - 1]) == key {
            seq![entries[from - 1]] + with_key(entries.skip(from), key)
        } else {
            with_key(entries.skip(from), key)
        },
{
    let rest = entries.skip(from);
    assert(entries.skip(from - 1) =~= seq![entries[from - 1]] + rest);
    rest.lemma_filter_prepend(entries[from - 1], has_key(key));
}

/// Entries that stand in descending order keep that order when the first
/// of them is left out.
proof fn lemma_descending_drop_first(entries: Seq<EntryView>)
    requires
        is_descending(entries),
        entries.len() > 0,
    ensures
        is_descending(entries.drop_first()),
{
}

/// The first of the entries is the first of those that share its key.
proof fn lemma_with_key_first(entries: Seq<EntryView>, key: int)
    requires
        entries.len() > 0,
    ensures
        with_key(entries, key) == if key_of(entries[0]) == key {
            seq![entries[0]] + with_key(entries.drop_first(), key)
        } else {
            with_key(entries.drop_first(), key)
        },
{
    assert(entries.skip(0) =~= entries);
    lemma_with_key_skip(entries, 1, key);
}

/// Some entry of a descending sequence has the key `key` only if the first
/// entry has a key that is at least as high.
proof fn lemma_first_key_is_highest(entries: Seq<EntryView>, key: int)
    requires
        is_descending(entries),
        with_key(entries, key).len() > 0,
    ensures
        entries.len() > 0,
        key_of(entries[0]) >= key,
{
    let picked = with_key(entries, key)[0];
    entries.lemma_filter_pred(has_key(key), 0);
    entries.lemma_filter_contains_rev(has_key(key), picked);
}

/// The order of a stable sort is fixed: two sequences in descending order
/// that hold, for every key, the same entries in the same order are one and
/// the same sequence.
pub proof fn lemma_stable_order_is_unique(first: Seq<EntryView>, second: Seq<EntryView>)
    requires
        is_descending(first),
        is_descending(second),
        forall|key: int| #[trigger] with_key(first, key) == with_key(second, key),
    ensures
        first == second,
    decreases first.len(),
{
    if first.len() == 0 {
        if second.len() > 0 {
            let key = key_of(second[0]);
            lemma_with_key_first(second, key);
            lemma_with_key_absent(first, key);
        }
    } else {
        let key = key_of(first[0]);
        lemma_with_key_first(first, key);
        lemma_first_key_is_highest(second, key);
        let other = key_of(second[0]);
        lemma_with_key_first(second, other);
        lemma_first_key_is_highest(first, other);
        assert(first[0] == second[0]) by {
            assert(with_key(second, key)[0] == second[0]);
        }
        let first_rest = first.drop_first();
        let second_rest = second.drop_first();
        lemma_descending_drop_first(first);
        lemma_descending_drop_first(second);
        assert forall|k: int| #[trigger]
            with_key(first_rest, k) == with_key(second_rest, k) by {
            lemma_with_key_first(first, k);
            lemma_with_key_first(second, k);
            if k == key {
                assert(with_key(second_rest, k) =~= with_key(second, k).drop_first());
            }
        }
        lemma_stable_order_is_unique(first_rest, second_rest);
        assert(second =~= seq![second[0]] + second_rest);
    }
}

/// A sequence has one stable sort only.
pub proof fn lemma_stable_sort_is_unique(
    first: Seq<EntryView>,
    second: Seq<EntryView>,
    unsorted: Seq<EntryView>,
)
    requires
        is_stable_sort_of(first, unsorted),
        is_stable_sort_of(second, unsorted),
    ensures
        first == second,
{
    lemma_stable_order_is_unique(first, second);
}

/// An entry that is put in behind the higher keys and before the others
/// leaves the order descending.
proof fn lemma_insert_keeps_descending(entries: Seq<EntryView>, at: int, entry: EntryView)
    requires
        is_descending(entries),
        0 <= at <= entries.len(),
        forall|i: int| 0 <= i < at ==> key_of(#[trigger] entries[i]) > key_of(entry),
        at < entries.len() ==> key_of(entries[at]) <= key_of(entry),
    ensures
        is_descending(entries.insert(at, entry)),
{
}

/// The number of entries at the front whose key is above `key`.
spec fn higher_count(entries: Seq<EntryView>, key: int) -> nat
    decreases entries.len(),
{
    if entries.len() == 0 || key_of(entries[0]) <= key {
        0
    } else {
        1 + higher_count(entries.drop_first(), key)
    }
}

/// The entries at the front that `higher_count` counts have a key above
/// `key`, and the entry behind them has not.
proof fn lemma_higher_count(entries: Seq<EntryView>, key: int)
    ensures
        higher_count(entries, key) <= entries.len(),
        forall|i: int| 0 <= i < higher_count(entries, key) ==> key_of(#[trigger] entries[i]) > key,
        higher_count(entries, key) < entries.len() ==> key_of(
            entries[higher_count(entries, key) as int],
        ) <= key,
    decreases entries.len(),
{
    if entries.len() > 0 && key_of(entries[0]) > key {
        let rest = entries.drop_first();
        lemma_higher_count(rest, key);
        assert forall|i: int| 0 <= i < higher_count(entries, key) implies key_of(
            #[trigger] entries[i],
        ) > key by {
            if i > 0 {
                assert(entries[i] == rest[i - 1]);
            }
        }
    }
}

/// The stable sort, built by putting one entry after the other in its
/// place, the last entry first.
spec fn stable_sorted(entries: Seq<EntryView>) -> Seq<EntryView>
    decreases entries.len(),
{
    if entries.len() == 0 {
        entries
    } else {
        let rest = stable_sorted(entries.drop_first());
        rest.insert(higher_count(rest, key_of(entries[0])) as int, entries[0])
    }
}

/// Every sequence of entries has a stable sort.
pub proof fn lemma_stable_sort_exists(unsorted: Seq<EntryView>)
    ensures
        exists|sorted: Seq<EntryView>| is_stable_sort_of(sorted, unsorted),
{
    lemma_stable_sorted_sorts(unsorted);
}

/// What `stable_sorted` builds is the stable sort.
proof fn lemma_stable_sorted_sorts(unsorted: Seq<EntryView>)
    ensures
        is_stable_sort_of(stable_sorted(unsorted), unsorted),
    decreases unsorted.len(),
{
    if unsorted.len() > 0 {
        let entry = unsorted[0];
        let rest = stable_sorted(unsorted.drop_first());
        let at = higher_count(rest, key_of(entry)) as int;
        lemma_stable_sorted_sorts(unsorted.drop_first());
        lemma_higher_count(rest, key_of(entry));
        lemma_insert_keeps_descending(rest, at, entry);
        assert forall|key: int| #[trigger]
            with_key(rest.insert(at, entry), key) == with_key(unsorted, key) by {
            lemma_with_key_insert(rest, at, entry, key);
            lemma_with_key_first(unsorted, key);
        }
    }
}

/// Nothing occurs in an empty sequence.
proof fn lemma_nothing_in_empty()
    ensures
        Seq::<EntryView>::empty().to_multiset() == Multiset::<EntryView>::empty(),
{
    to_multiset_len(Seq::<EntryView>::empty());
    lemma_multiset_empty_len(Seq::<EntryView>::empty().to_multiset());
}

/// Sorts the entries by descending key, keeping entries with the same key
/// in the order in which they were handed in.
pub fn sort_entries(entries: Vec<ZIndexEntry>) -> (sorted: Vec<ZIndexEntry>)
    ensures
        is_stable_sort_of(entries_view(sorted@), entries_view(entries@)),
        entries_view(sorted@).to_multiset() == entries_view(entries@).to_multiset(),
{
    let ghost unsorted = entries_view(entries@);
    let mut pending = entries;
    let mut sorted: Vec<ZIndexEntry> = Vec::new();
    let mut keys: Vec<i32> = Vec::new();
    proof {
        assert(entries_view(sorted@) =~= Seq::<EntryView>::empty());
        lemma_nothing_in_empty();
    }
    while pending.len() > 0
        invariant
            pending.len() <= unsorted.len(),
            entries_view(pending@) == unsorted.take(pending.len() as int),
            keys.len() == sorted.len(),
            forall|i: int| 0 <= i < keys.len() ==> #[trigger] keys[i] == key_of(sorted[i]@),
            is_descending(entries_view(sorted@)),
            forall|key: int|
                #[trigger] with_key(entries_view(sorted@), key) == with_key(
                    unsorted.skip(pending.len() as int),
                    key,
                ),
            entries_view(sorted@).to_multiset().add(entries_view(pending@).to_multiset())
                == unsorted.to_multiset(),
        decreases pending.len(),
    {
        let ghost before = entries_view(sorted@);
        let ghost count = pending.len() as int;
        let ghost waiting = pending@;
        let entry = pending.pop().unwrap();
        let key = sort_key(entry.z_index.as_str());
        proof {
            assert(unsorted.take(count)[count - 1] == unsorted[count - 1]);
        }
        let mut at: usize = 0;
        while at < keys.len() && keys[at] > key
            invariant
                at <= keys.len(),
                forall|i: int| 0 <= i < at ==> #[trigger] keys[i] > key,
            decreases keys.len() - at,
        {
            at += 1;
        }
        proof {
            assert(entries_view(sorted@.insert(at as int, entry)) =~= before.insert(
                at as int,
                entry@,
            ));
            assert forall|i: int| 0 <= i < at implies key_of(#[trigger] before[i]) > key_of(
                entry@,
            ) by {
                assert(keys[i] > key);
            }
            assert forall|k: int| #[trigger]
                with_key(before.insert(at as int, entry@), k) == with_key(
                    unsorted.skip(count - 1),
                    k,
                ) by {
                lemma_with_key_insert(before, at as int, entry@, k);
                lemma_with_key_skip(unsorted, count, k);
            }
            lemma_insert_keeps_descending(before, at as int, entry@);
        }
        sorted.insert(at, entry);
        keys.insert(at, key);
        proof {
            assert(entries_view(waiting) =~= entries_view(pending@).push(entry@));
            to_multiset_build(entries_view(pending@), entry@);
            to_multiset_insert(before, at as int, entry@);
        }
    }
    proof {
        assert(unsorted.skip(0) =~= unsorted);
        assert(entries_view(pending@) =~= Seq::<EntryView>::empty());
        lemma_nothing_in_empty();
    }
    sorted
}

} // verus!
