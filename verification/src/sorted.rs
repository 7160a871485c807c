//! Lists of keyed values, in the order of their keys.

use crate::text::{text_less, text_order_is_total, text_order_is_transitive};
use vstd::prelude::*;

verus! {

/// Are the keys in order, none of them twice?
pub open spec fn keys_ordered<V>(s: Seq<(Seq<char>, V)>) -> bool {
    forall|i: int, j: int|
        0 <= i < j < s.len() ==> text_less(#[trigger] s[i].0, #[trigger] s[j].0)
}

/// `s` with `key` set to `value`.
pub open spec fn with_key<V>(s: Seq<(Seq<char>, V)>, key: Seq<char>, value: V) -> Seq<
    (Seq<char>, V),
>
    decreases s.len(),
{
    if s.len() == 0 {
        seq![(key, value)]
    } else if s.last().0 == key {
        s.drop_last().push((key, value))
    } else if text_less(s.last().0, key) {
        s.push((key, value))
    } else {
        with_key(s.drop_last(), key, value).push(s.last())
    }
}

/// The value under `key`.
pub open spec fn under_key<V>(s: Seq<(Seq<char>, V)>, key: Seq<char>) -> Option<V>
    decreases s.len(),
{
    if s.len() == 0 {
        None
    } else if s.last().0 == key {
        Some(s.last().1)
    } else {
        under_key(s.drop_last(), key)
    }
}

/// Setting a key at position `at`, with everything before it smaller and
/// everything from it on greater, puts it there.
pub proof fn with_key_at<V>(s: Seq<(Seq<char>, V)>, key: Seq<char>, value: V, at: int)
    requires
        0 <= at <= s.len(),
        at > 0 ==> text_less(s[at - 1].0, key),
        forall|j: int| at <= j < s.len() ==> text_less(key, #[trigger] s[j].0),
    ensures
        with_key(s, key, value) == s.insert(at, (key, value)),
    decreases s.len(),
{
    if at == s.len() {
        if at > 0 {
            text_order_is_total(s.last().0, key);
        }
        assert(s.insert(at, (key, value)) =~= s.push((key, value)));
        assert(s.len() == 0 ==> seq![(key, value)] =~= s.push((key, value)));
    } else {
        text_order_is_total(s.last().0, key);
        with_key_at(s.drop_last(), key, value, at);
        assert(s.insert(at, (key, value)) =~= s.drop_last().insert(at, (key, value)).push(
            s.last(),
        ));
    }
}

/// Setting a key that stands at position `at` replaces its value.
pub proof fn with_key_over<V>(s: Seq<(Seq<char>, V)>, key: Seq<char>, value: V, at: int)
    requires
        0 <= at < s.len(),
        s[at].0 == key,
        forall|j: int| at < j < s.len() ==> text_less(key, #[trigger] s[j].0),
    ensures
        with_key(s, key, value) == s.update(at, (key, value)),
    decreases s.len(),
{
    if at == s.len() - 1 {
        assert(s.update(at, (key, value)) =~= s.drop_last().push((key, value)));
    } else {
        text_order_is_total(s.last().0, key);
        with_key_over(s.drop_last(), key, value, at);
        assert(s.update(at, (key, value)) =~= s.drop_last().update(at, (key, value)).push(
            s.last(),
        ));
    }
}

/// An order of keys is kept by putting a key between a smaller and a greater
/// one.
pub proof fn insertion_keeps_order<V>(s: Seq<(Seq<char>, V)>, key: Seq<char>, value: V, at: int)
    requires
        keys_ordered(s),
        0 <= at <= s.len(),
        at > 0 ==> text_less(s[at - 1].0, key),
        forall|j: int| at <= j < s.len() ==> text_less(key, #[trigger] s[j].0),
    ensures
        keys_ordered(s.insert(at, (key, value))),
{
    let after = s.insert(at, (key, value));
    assert forall|i: int, j: int| 0 <= i < j < after.len() implies text_less(
        #[trigger] after[i].0,
        #[trigger] after[j].0,
    ) by {
        if j == at {
            if i < at - 1 {
                text_order_is_transitive(s[i].0, s[at - 1].0, key);
            }
        } else if i < at && j > at {
            assert(text_less(s[i].0, s[j - 1].0));
        } else if i < at {
            assert(text_less(s[i].0, s[j].0));
        } else if i > at {
            assert(text_less(s[i - 1].0, s[j - 1].0));
        }
    }
}

/// An order of keys is kept by replacing a value.
pub proof fn update_keeps_order<V>(s: Seq<(Seq<char>, V)>, key: Seq<char>, value: V, at: int)
    requires
        keys_ordered(s),
        0 <= at < s.len(),
        s[at].0 == key,
    ensures
        keys_ordered(s.update(at, (key, value))),
{
    let after = s.update(at, (key, value));
    assert forall|i: int, j: int| 0 <= i < j < after.len() implies text_less(
        #[trigger] after[i].0,
        #[trigger] after[j].0,
    ) by {
        assert(text_less(s[i].0, s[j].0));
    }
}

/// Setting a key keeps the order of the keys.
pub proof fn with_key_keeps_order<V>(s: Seq<(Seq<char>, V)>, key: Seq<char>, value: V)
    requires
        keys_ordered(s),
    ensures
        keys_ordered(with_key(s, key, value)),
        forall|i: int|
            0 <= i < with_key(s, key, value).len() ==> (#[trigger] with_key(s, key, value)[i]).0
                == key || (exists|k: int|
                0 <= k < s.len() && s[k].0 == with_key(s, key, value)[i].0),
    decreases s.len(),
{
    let after = with_key(s, key, value);
    if s.len() == 0 {
    } else if s.last().0 == key {
        assert forall|i: int, j: int| 0 <= i < j < after.len() implies text_less(
            #[trigger] after[i].0,
            #[trigger] after[j].0,
        ) by {
            assert(text_less(s[i].0, s[j].0));
        }
        assert forall|i: int| 0 <= i < after.len() implies (#[trigger] after[i]).0 == key || (
        exists|k: int| 0 <= k < s.len() && s[k].0 == after[i].0) by {
            assert(s[i].0 == after[i].0);
        }
    } else if text_less(s.last().0, key) {
        assert(after =~= s.insert(s.len() as int, (key, value)));
        insertion_keeps_order(s, key, value, s.len() as int);
        assert forall|i: int| 0 <= i < after.len() implies (#[trigger] after[i]).0 == key || (
        exists|k: int| 0 <= k < s.len() && s[k].0 == after[i].0) by {
            if i < s.len() {
                assert(s[i].0 == after[i].0);
            }
        }
    } else {
        text_order_is_total(s.last().0, key);
        let init = s.drop_last();
        assert forall|i: int, j: int| 0 <= i < j < init.len() implies text_less(
            #[trigger] init[i].0,
            #[trigger] init[j].0,
        ) by {
            assert(text_less(s[i].0, s[j].0));
        }
        with_key_keeps_order(init, key, value);
        let mid = with_key(init, key, value);
        assert forall|i: int| 0 <= i < mid.len() implies text_less(
            (#[trigger] mid[i]).0,
            s.last().0,
        ) by {
            if mid[i].0 != key {
                let k = choose|k: int| 0 <= k < init.len() && init[k].0 == mid[i].0;
                assert(text_less(s[k].0, s[s.len() - 1].0));
            }
        }
        assert forall|i: int, j: int| 0 <= i < j < after.len() implies text_less(
            #[trigger] after[i].0,
            #[trigger] after[j].0,
        ) by {
            if j < mid.len() {
                assert(text_less(mid[i].0, mid[j].0));
            } else {
                assert(text_less(mid[i].0, s.last().0));
            }
        }
        assert forall|i: int| 0 <= i < after.len() implies (#[trigger] after[i]).0 == key || (
        exists|k: int| 0 <= k < s.len() && s[k].0 == after[i].0) by {
            if i < mid.len() {
                if mid[i].0 != key {
                    let k = choose|k: int| 0 <= k < init.len() && init[k].0 == mid[i].0;
                    assert(s[k].0 == after[i].0);
                }
            } else {
                assert(s[s.len() - 1].0 == after[i].0);
            }
        }
    }
}

/// Setting a key changes what is under it and under no other key.
pub proof fn with_key_effect<V>(
    s: Seq<(Seq<char>, V)>,
    key: Seq<char>,
    value: V,
    other: Seq<char>,
)
    requires
        keys_ordered(s),
    ensures
        under_key(with_key(s, key, value), other) == (if other == key {
            Some(value)
        } else {
            under_key(s, other)
        }),
    decreases s.len(),
{
    let after = with_key(s, key, value);
    reveal_with_fuel(under_key, 2);
    if s.len() == 0 {
        assert(after.drop_last().len() == 0);
    } else if s.last().0 == key {
        assert(after.drop_last() =~= s.drop_last());
    } else if text_less(s.last().0, key) {
        assert(after.drop_last() =~= s);
    } else {
        let init = s.drop_last();
        with_key_effect(init, key, value, other);
        assert(after.drop_last() =~= with_key(init, key, value));
    }
}

} // verus!
