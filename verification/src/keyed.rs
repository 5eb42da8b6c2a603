//! Entries under text keys, kept in increasing order of their keys.
use crate::text;
use vstd::prelude::*;

verus! {

/// The value under a key.
pub open spec fn entry<V>(entries: Seq<(Seq<char>, V)>, key: Seq<char>) -> Option<V>
    decreases entries.len(),
{
    if entries.len() == 0 {
        None
    } else if entries[0].0 == key {
        Some(entries[0].1)
    } else {
        entry(entries.skip(1), key)
    }
}

/// The entries with `value` under `key`: in place of what stood there, or at
/// the place that the order of keys gives it.
pub open spec fn with_entry<V>(
    entries: Seq<(Seq<char>, V)>,
    key: Seq<char>,
    value: V,
) -> Seq<(Seq<char>, V)>
    decreases entries.len(),
{
    if entries.len() == 0 {
        seq![(key, value)]
    } else if entries[0].0 == key {
        seq![(key, value)] + entries.skip(1)
    } else if text::precedes(key, entries[0].0) {
        seq![(key, value)] + entries
    } else {
        seq![entries[0]] + with_entry(entries.skip(1), key, value)
    }
}

/// The entries without those under `key`.
pub open spec fn without_entry<V>(
    entries: Seq<(Seq<char>, V)>,
    key: Seq<char>,
) -> Seq<(Seq<char>, V)>
    decreases entries.len(),
{
    if entries.len() == 0 {
        seq![]
    } else if entries.last().0 == key {
        without_entry(entries.drop_last(), key)
    } else {
        without_entry(entries.drop_last(), key).push(entries.last())
    }
}

/// The keys stand in increasing order, so that none occurs twice.
pub open spec fn keys_increase<V>(entries: Seq<(Seq<char>, V)>) -> bool {
    forall|i: int, j: int|
        0 <= i < j < entries.len() ==> text::precedes(
            (#[trigger] entries[i]).0,
            (#[trigger] entries[j]).0,
        )
}

/// Setting a key changes what stands under that key and nothing else.
pub proof fn lemma_entry_of_with_entry<V>(
    entries: Seq<(Seq<char>, V)>,
    key: Seq<char>,
    value: V,
    other: Seq<char>,
)
    requires
        keys_increase(entries),
    ensures
        entry(with_entry(entries, key, value), other) == (if other == key {
            Some(value)
        } else {
            entry(entries, other)
        }),
    decreases entries.len(),
{
    let result = with_entry(entries, key, value);
    if entries.len() == 0 {
        assert(result.skip(1) =~= seq![]);
        reveal_with_fuel(entry, 2);
    } else if entries[0].0 == key {
        assert(result.skip(1) =~= entries.skip(1));
    } else if text::precedes(key, entries[0].0) {
        assert(result.skip(1) =~= entries);
    } else {
        assert(keys_increase(entries.skip(1))) by {
            assert forall|i: int, j: int|
                0 <= i < j < entries.skip(1).len() implies text::precedes(
                (#[trigger] entries.skip(1)[i]).0,
                (#[trigger] entries.skip(1)[j]).0,
            ) by {
                assert(entries.skip(1)[i] == entries[i + 1]);
                assert(entries.skip(1)[j] == entries[j + 1]);
            }
        }
        lemma_entry_of_with_entry(entries.skip(1), key, value, other);
        assert(result.skip(1) =~= with_entry(entries.skip(1), key, value));
    }
}

/// The entry of a key does not depend on what stands behind its first place.
pub proof fn lemma_entry_push<V>(
    entries: Seq<(Seq<char>, V)>,
    last: (Seq<char>, V),
    key: Seq<char>,
)
    ensures
        entry(entries.push(last), key) == (match entry(entries, key) {
            Some(v) => Some(v),
            None => if last.0 == key {
                Some(last.1)
            } else {
                None
            },
        }),
    decreases entries.len(),
{
    let all = entries.push(last);
    if entries.len() == 0 {
        assert(all.skip(1) =~= seq![]);
        reveal_with_fuel(entry, 2);
    } else {
        assert(all[0] == entries[0]);
        assert(all.skip(1) =~= entries.skip(1).push(last));
        lemma_entry_push(entries.skip(1), last, key);
    }
}

/// Removing a key leaves nothing under it and everything else as it was.
pub proof fn lemma_entry_of_without_entry<V>(
    entries: Seq<(Seq<char>, V)>,
    key: Seq<char>,
    other: Seq<char>,
)
    ensures
        entry(without_entry(entries, key), other) == (if other == key {
            None
        } else {
            entry(entries, other)
        }),
    decreases entries.len(),
{
    if entries.len() > 0 {
        let front = entries.drop_last();
        lemma_entry_of_without_entry(front, key, other);
        assert(front.push(entries.last()) =~= entries);
        lemma_entry_push(front, entries.last(), other);
        lemma_entry_push(without_entry(front, key), entries.last(), other);
    }
}

/// Removing a key removes nothing that stands in front of another entry.
pub proof fn lemma_without_entry_order<V>(entries: Seq<(Seq<char>, V)>, key: Seq<char>)
    requires
        keys_increase(entries),
    ensures
        keys_increase(without_entry(entries, key)),
        forall|i: int|
            0 <= i < without_entry(entries, key).len() ==> exists|k: int|
                0 <= k < entries.len() && entries[k] == #[trigger] without_entry(entries, key)[i],
    decreases entries.len(),
{
    if entries.len() > 0 {
        let front = entries.drop_last();
        lemma_without_entry_order(front, key);
        let kept = without_entry(front, key);
        let result = without_entry(entries, key);
        assert forall|i: int| 0 <= i < result.len() implies exists|k: int|
            0 <= k < entries.len() && entries[k] == #[trigger] result[i] by {
            if i < kept.len() {
                assert(result[i] == kept[i]);
                let k = choose|k: int| 0 <= k < front.len() && front[k] == kept[i];
                assert(entries[k] == result[i]);
            } else {
                assert(entries[entries.len() - 1] == result[i]);
            }
        }
        assert forall|i: int, j: int| 0 <= i < j < result.len() implies text::precedes(
            (#[trigger] result[i]).0,
            (#[trigger] result[j]).0,
        ) by {
            assert(result[i] == kept[i]);
            if j < kept.len() {
                assert(result[j] == kept[j]);
            } else {
                let k = choose|k: int| 0 <= k < front.len() && front[k] == kept[i];
                assert(entries[k] == result[i]);
            }
        }
    }
}

/// Every key after setting one is that key or stood there before.
pub proof fn lemma_with_entry_keys<V>(
    entries: Seq<(Seq<char>, V)>,
    key: Seq<char>,
    value: V,
    j: int,
)
    requires
        0 <= j < with_entry(entries, key, value).len(),
    ensures
        with_entry(entries, key, value)[j].0 == key || exists|k: int|
            0 <= k < entries.len() && #[trigger] entries[k].0 == with_entry(entries, key, value)[j].0,
    decreases entries.len(),
{
    let result = with_entry(entries, key, value);
    if entries.len() == 0 {
    } else if entries[0].0 == key {
        if j > 0 {
            assert(result[j] == entries[j]);
        }
    } else if text::precedes(key, entries[0].0) {
        if j > 0 {
            assert(result[j] == entries[j - 1]);
        }
    } else if j == 0 {
        assert(result[0] == entries[0]);
    } else {
        let rest = entries.skip(1);
        assert(result[j] == with_entry(rest, key, value)[j - 1]);
        lemma_with_entry_keys(rest, key, value, j - 1);
        if result[j].0 != key {
            let k = choose|k: int| 0 <= k < rest.len() && #[trigger] rest[k].0 == result[j].0;
            assert(entries[k + 1].0 == result[j].0);
        }
    }
}

/// Setting an entry keeps the keys in order.
pub proof fn lemma_with_entry_order<V>(
    entries: Seq<(Seq<char>, V)>,
    key: Seq<char>,
    value: V,
)
    requires
        keys_increase(entries),
    ensures
        keys_increase(with_entry(entries, key, value)),
    decreases entries.len(),
{
    let result = with_entry(entries, key, value);
    if entries.len() == 0 {
    } else if entries[0].0 == key {
        assert forall|i: int, j: int| 0 <= i < j < result.len() implies text::precedes(
            (#[trigger] result[i]).0,
            (#[trigger] result[j]).0,
        ) by {
            assert(result[j] == entries[j]);
            assert(result[i].0 == entries[i].0);
        }
    } else if text::precedes(key, entries[0].0) {
        assert forall|i: int, j: int| 0 <= i < j < result.len() implies text::precedes(
            (#[trigger] result[i]).0,
            (#[trigger] result[j]).0,
        ) by {
            assert(result[j] == entries[j - 1]);
            if i == 0 {
                if j > 1 {
                    text::lemma_precedes_transitive(key, entries[0].0, entries[j - 1].0);
                }
            } else {
                assert(result[i] == entries[i - 1]);
            }
        }
    } else {
        let rest = entries.skip(1);
        assert forall|i: int, j: int| 0 <= i < j < rest.len() implies text::precedes(
            (#[trigger] rest[i]).0,
            (#[trigger] rest[j]).0,
        ) by {
            assert(rest[i] == entries[i + 1]);
            assert(rest[j] == entries[j + 1]);
        }
        lemma_with_entry_order(rest, key, value);
        let tail = with_entry(rest, key, value);
        text::lemma_precedes_total(entries[0].0, key);
        assert forall|i: int, j: int| 0 <= i < j < result.len() implies text::precedes(
            (#[trigger] result[i]).0,
            (#[trigger] result[j]).0,
        ) by {
            assert(result[j] == tail[j - 1]);
            if i == 0 {
                lemma_with_entry_keys(rest, key, value, j - 1);
                if tail[j - 1].0 != key {
                    let k = choose|k: int|
                        0 <= k < rest.len() && #[trigger] rest[k].0 == tail[j - 1].0;
                    assert(rest[k] == entries[k + 1]);
                }
            } else {
                assert(result[i] == tail[i - 1]);
            }
        }
    }
}

/// Where the keys before position `at` stand before `key`, they stay in front.
pub proof fn lemma_with_entry_at<V>(
    entries: Seq<(Seq<char>, V)>,
    key: Seq<char>,
    value: V,
    at: int,
)
    requires
        0 <= at <= entries.len(),
        forall|k: int| 0 <= k < at ==> text::precedes((#[trigger] entries[k]).0, key),
    ensures
        with_entry(entries, key, value) == entries.take(at) + with_entry(
            entries.skip(at),
            key,
            value,
        ),
    decreases at,
{
    if at == 0 {
        assert(entries.skip(0) =~= entries);
        assert(entries.take(0) + with_entry(entries, key, value) =~= with_entry(
            entries,
            key,
            value,
        ));
    } else {
        let rest = entries.skip(1);
        text::lemma_precedes_asymmetric(entries[0].0, key);
        assert forall|k: int| 0 <= k < at - 1 implies text::precedes((#[trigger] rest[k]).0, key) by {
            assert(rest[k] == entries[k + 1]);
        }
        lemma_with_entry_at(rest, key, value, at - 1);
        assert(rest.skip(at - 1) =~= entries.skip(at));
        assert(seq![entries[0]] + (rest.take(at - 1) + with_entry(entries.skip(at), key, value))
            =~= entries.take(at) + with_entry(entries.skip(at), key, value));
    }
}

/// Setting a key that has no entry puts it at position `at`.
pub open spec fn with_entry_is_insert<V>(
    entries: Seq<(Seq<char>, V)>,
    key: Seq<char>,
    at: int,
) -> bool {
    forall|value: V| #[trigger]
        with_entry(entries, key, value) == entries.insert(at, (key, value))
}

/// A key behind which everything is larger has no entry.
proof fn lemma_no_entry<V>(entries: Seq<(Seq<char>, V)>, key: Seq<char>)
    requires
        forall|k: int| 0 <= k < entries.len() ==> (#[trigger] entries[k]).0 != key,
    ensures
        entry(entries, key) is None,
    decreases entries.len(),
{
    if entries.len() > 0 {
        assert(entries[0].0 != key);
        assert forall|k: int| 0 <= k < entries.skip(1).len() implies (#[trigger] entries.skip(
            1,
        )[k]).0 != key by {
            assert(entries.skip(1)[k] == entries[k + 1]);
        }
        lemma_no_entry(entries.skip(1), key);
    }
}

/// The entries in front do not hide a key that is none of theirs.
proof fn lemma_entry_skips<V>(entries: Seq<(Seq<char>, V)>, key: Seq<char>, at: int)
    requires
        0 <= at <= entries.len(),
        forall|k: int| 0 <= k < at ==> (#[trigger] entries[k]).0 != key,
    ensures
        entry(entries, key) == entry(entries.skip(at), key),
    decreases at,
{
    if at == 0 {
        assert(entries.skip(0) =~= entries);
    } else {
        assert(entries[0].0 != key);
        assert forall|k: int| 0 <= k < at - 1 implies (#[trigger] entries.skip(1)[k]).0 != key by {
            assert(entries.skip(1)[k] == entries[k + 1]);
        }
        lemma_entry_skips(entries.skip(1), key, at - 1);
        assert(entries.skip(1).skip(at - 1) =~= entries.skip(at));
    }
}

/// The first position whose key does not stand before `key` holds the entry of
/// `key`, or is where it belongs.
pub proof fn lemma_place<V>(entries: Seq<(Seq<char>, V)>, key: Seq<char>, at: int)
    requires
        keys_increase(entries),
        0 <= at <= entries.len(),
        forall|k: int| 0 <= k < at ==> text::precedes((#[trigger] entries[k]).0, key),
        at < entries.len() ==> !text::precedes(entries[at].0, key),
    ensures
        at < entries.len() && entries[at].0 == key ==> entry(entries, key) == Some(entries[at].1),
        !(at < entries.len() && entries[at].0 == key) ==> entry(entries, key) is None
            && with_entry_is_insert(entries, key, at),
{
    assert forall|k: int| 0 <= k < at implies (#[trigger] entries[k]).0 != key by {
        text::lemma_precedes_asymmetric(entries[k].0, key);
    }
    lemma_entry_skips(entries, key, at);
    let rest = entries.skip(at);
    if at < entries.len() {
        assert(rest[0] == entries[at]);
        text::lemma_precedes_total(entries[at].0, key);
    }
    if !(at < entries.len() && entries[at].0 == key) {
        assert forall|k: int| 0 <= k < rest.len() implies (#[trigger] rest[k]).0 != key by {
            assert(rest[k] == entries[at + k]);
            if k > 0 {
                text::lemma_precedes_transitive(key, entries[at].0, entries[at + k].0);
            }
            text::lemma_precedes_asymmetric(key, rest[k].0);
        }
        lemma_no_entry(rest, key);
        assert forall|value: V| #[trigger]
            with_entry(entries, key, value) == entries.insert(at, (key, value)) by {
            lemma_with_entry_at(entries, key, value, at);
            assert(with_entry(rest, key, value) =~= seq![(key, value)] + rest);
            assert(entries.take(at) + (seq![(key, value)] + rest) =~= entries.insert(
                at,
                (key, value),
            ));
        }
    }
}

/// Removing from two runs of entries is removing from each.
proof fn lemma_without_concat<V>(
    a: Seq<(Seq<char>, V)>,
    b: Seq<(Seq<char>, V)>,
    key: Seq<char>,
)
    ensures
        without_entry(a + b, key) == without_entry(a, key) + without_entry(b, key),
    decreases b.len(),
{
    if b.len() == 0 {
        assert(a + b =~= a);
        assert(without_entry(a, key) + without_entry(b, key) =~= without_entry(a, key));
    } else {
        assert((a + b).drop_last() =~= a + b.drop_last());
        assert((a + b).last() == b.last());
        lemma_without_concat(a, b.drop_last(), key);
        assert(without_entry(a, key) + without_entry(b.drop_last(), key).push(b.last()) =~= (
        without_entry(a, key) + without_entry(b.drop_last(), key)).push(b.last()));
    }
}

/// Where no entry has the key, removing it changes nothing.
pub proof fn lemma_without_absent<V>(entries: Seq<(Seq<char>, V)>, key: Seq<char>)
    requires
        entry(entries, key) is None,
    ensures
        without_entry(entries, key) == entries,
    decreases entries.len(),
{
    if entries.len() > 0 {
        let front = entries.drop_last();
        assert(front.push(entries.last()) =~= entries);
        lemma_entry_push(front, entries.last(), key);
        lemma_without_absent(front, key);
    }
}

/// Setting a new key and removing it again changes nothing.
pub proof fn lemma_with_then_without<V>(
    entries: Seq<(Seq<char>, V)>,
    key: Seq<char>,
    value: V,
)
    requires
        entry(entries, key) is None,
    ensures
        without_entry(with_entry(entries, key, value), key) == entries,
    decreases entries.len(),
{
    let one = seq![(key, value)];
    assert(without_entry(one, key) =~= seq![]) by {
        assert(one.drop_last() =~= seq![]);
        reveal_with_fuel(without_entry, 2);
    }
    if entries.len() == 0 {
        assert(entries =~= seq![]);
    } else if text::precedes(key, entries[0].0) {
        lemma_without_concat(one, entries, key);
        lemma_without_absent(entries, key);
        assert(seq![] + entries =~= entries);
    } else {
        let rest = entries.skip(1);
        let first = seq![entries[0]];
        lemma_with_then_without(rest, key, value);
        lemma_without_concat(first, with_entry(rest, key, value), key);
        assert(without_entry(first, key) =~= first) by {
            assert(first.drop_last() =~= seq![]);
            reveal_with_fuel(without_entry, 2);
        }
        assert(first + rest =~= entries);
    }
}

} // verus!
