//! Association lists in the order of their keys: a new key is written in
//! front of the first greater one, an existing key has its value replaced.
use crate::text;
use vstd::prelude::*;

verus! {

/// The value that `entries` holds under `key`.
pub open spec fn lookup<V>(entries: Seq<(Seq<char>, V)>, key: Seq<char>) -> Option<V>
    decreases entries.len(),
{
    if entries.len() == 0 {
        None
    } else if entries[0].0 == key {
        Some(entries[0].1)
    } else {
        lookup(entries.drop_first(), key)
    }
}

/// `entries` with `value` under `key`: in the place of the entry with that
/// key, in front of the first greater key where there is none.
pub open spec fn put<V>(entries: Seq<(Seq<char>, V)>, key: Seq<char>, value: V) -> Seq<
    (Seq<char>, V),
>
    decreases entries.len(),
{
    if entries.len() == 0 {
        seq![(key, value)]
    } else if entries[0].0 == key {
        entries.update(0, (key, value))
    } else if text::precedes(key, entries[0].0) {
        seq![(key, value)] + entries
    } else {
        seq![entries[0]] + put(entries.drop_first(), key, value)
    }
}

/// What was written under a key is read back under it, and every other key
/// reads as before.
pub proof fn lookup_after_put<V>(
    entries: Seq<(Seq<char>, V)>,
    key: Seq<char>,
    value: V,
    other: Seq<char>,
)
    ensures
        lookup(put(entries, key, value), other) == (if other == key {
            Some(value)
        } else {
            lookup(entries, other)
        }),
    decreases entries.len(),
{
    let after = put(entries, key, value);
    if entries.len() == 0 {
        assert(after.drop_first() =~= Seq::empty());
        assert(lookup(after.drop_first(), other) == None::<V>);
    } else if entries[0].0 == key {
        assert(after.drop_first() =~= entries.drop_first());
    } else if text::precedes(key, entries[0].0) {
        assert(after.drop_first() =~= entries);
    } else {
        assert(after.drop_first() =~= put(entries.drop_first(), key, value));
        lookup_after_put(entries.drop_first(), key, value, other);
    }
}

/// The first position with `key` decides what is read.
pub proof fn first_match<V>(entries: Seq<(Seq<char>, V)>, key: Seq<char>, at: int)
    requires
        0 <= at <= entries.len(),
        forall|j: int| 0 <= j < at ==> (#[trigger] entries[j]).0 != key,
        at < entries.len() ==> entries[at].0 == key,
    ensures
        lookup(entries, key) == (if at < entries.len() {
            Some(entries[at].1)
        } else {
            None
        }),
    decreases entries.len(),
{
    if entries.len() > 0 && at > 0 {
        let rest = entries.drop_first();
        assert forall|j: int| 0 <= j < at - 1 implies (#[trigger] rest[j]).0 != key by {
            assert(rest[j] == entries[j + 1]);
        }
        assert(entries[0].0 != key);
        first_match(rest, key, at - 1);
    }
}

/// The first position with `key` or a greater key decides where a write
/// lands.
pub proof fn write_position<V>(entries: Seq<(Seq<char>, V)>, key: Seq<char>, at: int, value: V)
    requires
        0 <= at <= entries.len(),
        forall|j: int|
            0 <= j < at ==> (#[trigger] entries[j]).0 != key && !text::precedes(key, entries[j].0),
        at < entries.len() ==> entries[at].0 == key || text::precedes(key, entries[at].0),
    ensures
        put(entries, key, value) == (if at < entries.len() && entries[at].0 == key {
            entries.update(at, (key, value))
        } else {
            entries.insert(at, (key, value))
        }),
    decreases entries.len(),
{
    if entries.len() == 0 {
        assert(entries.insert(at, (key, value)) =~= seq![(key, value)]);
    } else if at == 0 {
        assert(entries.insert(0, (key, value)) =~= seq![(key, value)] + entries);
    } else {
        let rest = entries.drop_first();
        assert forall|j: int| 0 <= j < at - 1 implies (#[trigger] rest[j]).0 != key
            && !text::precedes(key, rest[j].0) by {
            assert(rest[j] == entries[j + 1]);
        }
        assert(entries[0].0 != key && !text::precedes(key, entries[0].0));
        write_position(rest, key, at - 1, value);
        if at < entries.len() && entries[at].0 == key {
            assert(put(entries, key, value) =~= entries.update(at, (key, value)));
        } else {
            assert(put(entries, key, value) =~= entries.insert(at, (key, value)));
        }
    }
}

/// Whether the keys are in order, none of them twice.
pub open spec fn in_order<V>(entries: Seq<(Seq<char>, V)>) -> bool {
    forall|i: int, j: int|
        0 <= i < j < entries.len() ==> text::precedes(
            (#[trigger] entries[i]).0,
            (#[trigger] entries[j]).0,
        )
}

/// A write keeps the keys in order, with none of them twice.
pub proof fn writes_keep_order<V>(entries: Seq<(Seq<char>, V)>, key: Seq<char>, value: V)
    requires
        in_order(entries),
    ensures
        in_order(put(entries, key, value)),
        forall|i: int|
            0 <= i < put(entries, key, value).len() ==> {
                ||| (#[trigger] put(entries, key, value)[i]).0 == key
                ||| exists|j: int|
                    0 <= j < entries.len() && entries[j].0 == put(entries, key, value)[i].0
            },
    decreases entries.len(),
{
    let after = put(entries, key, value);
    if entries.len() > 0 {
        let rest = entries.drop_first();
        let first = entries[0];
        assert(in_order(rest)) by {
            assert forall|i: int, j: int| 0 <= i < j < rest.len() implies text::precedes(
                (#[trigger] rest[i]).0,
                (#[trigger] rest[j]).0,
            ) by {
                assert(rest[i] == entries[i + 1] && rest[j] == entries[j + 1]);
            }
        }
        text::precedes_is_total(key, first.0);
        if first.0 == key {
            assert forall|i: int, j: int| 0 <= i < j < after.len() implies text::precedes(
                (#[trigger] after[i]).0,
                (#[trigger] after[j]).0,
            ) by {
                assert(entries[i].0 == after[i].0 && entries[j].0 == after[j].0);
            }
        } else if text::precedes(key, first.0) {
            assert forall|i: int, j: int| 0 <= i < j < after.len() implies text::precedes(
                (#[trigger] after[i]).0,
                (#[trigger] after[j]).0,
            ) by {
                assert(after[j] == entries[j - 1]);
                if i == 0 {
                    if j > 1 {
                        assert(text::precedes(entries[0].0, entries[j - 1].0));
                        text::precedes_is_transitive(key, first.0, entries[j - 1].0);
                    }
                } else {
                    assert(after[i] == entries[i - 1]);
                }
            }
            assert forall|i: int| 0 <= i < after.len() implies {
                ||| (#[trigger] after[i]).0 == key
                ||| exists|j: int| 0 <= j < entries.len() && entries[j].0 == after[i].0
            } by {
                if i > 0 {
                    assert(entries[i - 1].0 == after[i].0);
                }
            }
        } else {
            writes_keep_order(rest, key, value);
            let tail = put(rest, key, value);
            assert forall|i: int| 0 <= i < after.len() implies {
                ||| (#[trigger] after[i]).0 == key
                ||| exists|j: int| 0 <= j < entries.len() && entries[j].0 == after[i].0
            } by {
                if i == 0 {
                    assert(entries[0].0 == after[0].0);
                } else {
                    assert(after[i] == tail[i - 1]);
                    if tail[i - 1].0 != key {
                        let j = choose|j: int| 0 <= j < rest.len() && rest[j].0 == tail[i - 1].0;
                        assert(entries[j + 1].0 == after[i].0);
                    }
                }
            }
            assert forall|i: int, j: int| 0 <= i < j < after.len() implies text::precedes(
                (#[trigger] after[i]).0,
                (#[trigger] after[j]).0,
            ) by {
                assert(after[j] == tail[j - 1]);
                if i > 0 {
                    assert(after[i] == tail[i - 1]);
                } else if tail[j - 1].0 != key {
                    let k = choose|k: int| 0 <= k < rest.len() && rest[k].0 == tail[j - 1].0;
                    assert(entries[k + 1] == rest[k]);
                    assert(text::precedes(entries[0].0, entries[k + 1].0));
                }
            }
        }
    }
}

} // verus!
