//! Tables kept in the order of their text keys, as a `BTreeMap` keyed by
//! `String` keeps them.
use crate::text::{chars_of, lemma_text_lt_irreflexive, text_lt, text_order, TextOrder};
use vstd::prelude::*;

verus! {

/// `pairs` with `(key, value)` put in the place the order of keys gives it:
/// an entry with the same key has its value replaced.
pub open spec fn sorted_insert<V>(pairs: Seq<(Seq<char>, V)>, key: Seq<char>, value: V) -> Seq<(Seq<char>, V)>
    decreases pairs.len(),
{
    if pairs.len() == 0 {
        seq![(key, value)]
    } else if text_lt(pairs[0].0, key) {
        seq![pairs[0]] + sorted_insert(pairs.drop_first(), key, value)
    } else if pairs[0].0 == key {
        seq![(key, value)] + pairs.drop_first()
    } else {
        seq![(key, value)] + pairs
    }
}

/// Where `sorted_insert` puts the entry: after every smaller key.
pub proof fn lemma_sorted_insert_at<V>(pairs: Seq<(Seq<char>, V)>, key: Seq<char>, value: V, i: int)
    requires
        0 <= i <= pairs.len(),
        forall|j: int| 0 <= j < i ==> text_lt(#[trigger] pairs[j].0, key),
        i == pairs.len() || !text_lt(pairs[i].0, key),
    ensures
        sorted_insert(pairs, key, value) == pairs.take(i) + (if i < pairs.len() && pairs[i].0 == key {
            seq![(key, value)] + pairs.skip(i + 1)
        } else {
            seq![(key, value)] + pairs.skip(i)
        }),
    decreases i,
{
    if i == 0 {
        assert(pairs.take(0) =~= Seq::<(Seq<char>, V)>::empty());
        assert(pairs.skip(0) =~= pairs);
        if pairs.len() > 0 && pairs[0].0 == key {
            assert(pairs.skip(1) =~= pairs.drop_first());
        }
    } else {
        let rest = pairs.drop_first();
        assert forall|j: int| 0 <= j < i - 1 implies text_lt(#[trigger] rest[j].0, key) by {
            assert(rest[j] == pairs[j + 1]);
        }
        if i - 1 < rest.len() {
            assert(rest[i - 1] == pairs[i]);
        }
        lemma_sorted_insert_at(rest, key, value, i - 1);
        assert(text_lt(pairs[0].0, key));
        assert(pairs.take(i) =~= seq![pairs[0]] + rest.take(i - 1));
        assert(pairs.skip(i) =~= rest.skip(i - 1));
        if i < pairs.len() {
            assert(pairs.skip(i + 1) =~= rest.skip(i));
        }
    }
}


/// The position the order of keys gives `key`: after every smaller key.
pub open spec fn slot<V>(t: Seq<(Seq<char>, V)>, key: Seq<char>) -> int
    decreases t.len(),
{
    if t.len() == 0 {
        0
    } else if text_lt(t[0].0, key) {
        1 + slot(t.drop_first(), key)
    } else {
        0
    }
}

/// The value stored under `key` at its position.
pub open spec fn entry_at<V>(t: Seq<(Seq<char>, V)>, key: Seq<char>) -> Option<V> {
    let i = slot(t, key);
    if 0 <= i < t.len() && t[i].0 == key {
        Some(t[i].1)
    } else {
        None
    }
}

pub proof fn lemma_slot<V>(t: Seq<(Seq<char>, V)>, key: Seq<char>, i: int)
    requires
        0 <= i <= t.len(),
        forall|j: int| 0 <= j < i ==> text_lt(#[trigger] t[j].0, key),
        i == t.len() || !text_lt(t[i].0, key),
    ensures
        slot(t, key) == i,
    decreases i,
{
    if i > 0 {
        let rest = t.drop_first();
        assert forall|j: int| 0 <= j < i - 1 implies text_lt(#[trigger] rest[j].0, key) by {
            assert(rest[j] == t[j + 1]);
        }
        if i - 1 < rest.len() {
            assert(rest[i - 1] == t[i]);
        }
        lemma_slot(rest, key, i - 1);
    }
}

/// The value of the first entry with key `key`.
pub open spec fn first_value<V>(pairs: Seq<(Seq<char>, V)>, key: Seq<char>) -> Option<V>
    decreases pairs.len(),
{
    if pairs.len() == 0 {
        None
    } else if pairs[0].0 == key {
        Some(pairs[0].1)
    } else {
        first_value(pairs.drop_first(), key)
    }
}

/// `text` appended to the value of `key`, which is added when it is missing.
pub open spec fn append_value(pairs: Seq<(Seq<char>, Seq<char>)>, key: Seq<char>, text: Seq<char>) -> Seq<(Seq<char>, Seq<char>)>
    decreases pairs.len(),
{
    if pairs.len() == 0 {
        seq![(key, text)]
    } else if pairs[0].0 == key {
        seq![(key, pairs[0].1 + text)] + pairs.drop_first()
    } else {
        seq![pairs[0]] + append_value(pairs.drop_first(), key, text)
    }
}

pub proof fn lemma_append_value_at(pairs: Seq<(Seq<char>, Seq<char>)>, key: Seq<char>, text: Seq<char>, i: int)
    requires
        0 <= i <= pairs.len(),
        forall|j: int| 0 <= j < i ==> #[trigger] pairs[j].0 != key,
        i == pairs.len() || pairs[i].0 == key,
    ensures
        append_value(pairs, key, text) == (if i < pairs.len() {
            pairs.take(i) + seq![(key, pairs[i].1 + text)] + pairs.skip(i + 1)
        } else {
            pairs.push((key, text))
        }),
    decreases i,
{
    if i == 0 {
        if pairs.len() > 0 {
            assert(pairs.take(0) + seq![(key, pairs[0].1 + text)] + pairs.skip(1) =~= seq![(key, pairs[0].1 + text)] + pairs.drop_first());
        } else {
            assert(pairs.push((key, text)) =~= seq![(key, text)]);
        }
    } else {
        let rest = pairs.drop_first();
        assert forall|j: int| 0 <= j < i - 1 implies #[trigger] rest[j].0 != key by {
            assert(rest[j] == pairs[j + 1]);
        }
        if i - 1 < rest.len() {
            assert(rest[i - 1] == pairs[i]);
        }
        lemma_append_value_at(rest, key, text, i - 1);
        assert(pairs[0].0 != key);
        if i < pairs.len() {
            assert(pairs.take(i) + seq![(key, pairs[i].1 + text)] + pairs.skip(i + 1) =~= seq![pairs[0]] + (rest.take(i - 1) + seq![(key, rest[i - 1].1 + text)] + rest.skip(i)));
        } else {
            assert(pairs.push((key, text)) =~= seq![pairs[0]] + rest.push((key, text)));
        }
    }
}


/// A table of text pairs by its views.
pub open spec fn text_pairs(v: Seq<(String, String)>) -> Seq<(Seq<char>, Seq<char>)> {
    v.map_values(|p: (String, String)| (p.0@, p.1@))
}

/// Puts `(key, value)` into the key-ordered `table`.
pub fn insert_sorted(table: &mut Vec<(String, String)>, key: String, value: String)
    ensures
        text_pairs(final(table)@) == sorted_insert(text_pairs(old(table)@), key@, value@),
{
    let ghost old_pairs = text_pairs(table@);
    let kv = chars_of(key.as_str());
    let mut i: usize = 0;
    while i < table.len()
        invariant
            i <= table@.len(),
            old_pairs == text_pairs(table@),
            old_pairs == text_pairs(old(table)@),
            kv@ == key@,
            forall|j: int| 0 <= j < i ==> text_lt(#[trigger] old_pairs[j].0, key@),
        decreases table@.len() - i,
    {
        let current = chars_of(table[i].0.as_str());
        assert(old_pairs[i as int].0 == table@[i as int].0@);
        match text_order(&current, &kv) {
            TextOrder::Before => {
                i += 1;
            },
            TextOrder::Same => {
                proof {
                    lemma_sorted_insert_at(old_pairs, key@, value@, i as int);
                }
                let _ = table.remove(i);
                table.insert(i, (key, value));
                assert(text_pairs(table@) =~= sorted_insert(old_pairs, kv@, value@));
                return;
            },
            TextOrder::After => {
                proof {
                    lemma_text_lt_irreflexive(key@);
                    lemma_sorted_insert_at(old_pairs, key@, value@, i as int);
                }
                let ghost k = key@;
                let ghost v = value@;
                table.insert(i, (key, value));
                assert(text_pairs(table@) =~= sorted_insert(old_pairs, k, v));
                return;
            },
        }
    }
    proof {
        lemma_sorted_insert_at(old_pairs, key@, value@, i as int);
    }
    let ghost k = key@;
    let ghost v = value@;
    table.push((key, value));
    assert(text_pairs(table@) =~= sorted_insert(old_pairs, k, v));
}



/// A table keyed by `String`, by the text of its keys.
pub open spec fn keyed_pairs<V>(v: Seq<(String, V)>) -> Seq<(Seq<char>, V)> {
    v.map_values(|p: (String, V)| (p.0@, p.1))
}

/// Puts `(key, value)` into the key-ordered `table`, replacing the value of an equal key.
pub fn insert_by_key<V>(table: &mut Vec<(String, V)>, key: String, value: V)
    ensures
        keyed_pairs(final(table)@) == sorted_insert(keyed_pairs(old(table)@), key@, value),
{
    let ghost old_pairs = keyed_pairs(table@);
    let kv = chars_of(key.as_str());
    let mut i: usize = 0;
    while i < table.len()
        invariant
            i <= table@.len(),
            old_pairs == keyed_pairs(table@),
            old_pairs == keyed_pairs(old(table)@),
            kv@ == key@,
            forall|j: int| 0 <= j < i ==> text_lt(#[trigger] old_pairs[j].0, key@),
        decreases table@.len() - i,
    {
        let current = chars_of(table[i].0.as_str());
        assert(old_pairs[i as int].0 == table@[i as int].0@);
        match text_order(&current, &kv) {
            TextOrder::Before => {
                i += 1;
            },
            TextOrder::Same => {
                proof {
                    lemma_sorted_insert_at(old_pairs, key@, value, i as int);
                }
                let ghost k = key@;
                let ghost v = value;
                let _ = table.remove(i);
                table.insert(i, (key, value));
                assert(keyed_pairs(table@) =~= sorted_insert(old_pairs, k, v));
                return;
            },
            TextOrder::After => {
                proof {
                    lemma_text_lt_irreflexive(key@);
                    lemma_sorted_insert_at(old_pairs, key@, value, i as int);
                }
                let ghost k = key@;
                let ghost v = value;
                table.insert(i, (key, value));
                assert(keyed_pairs(table@) =~= sorted_insert(old_pairs, k, v));
                return;
            },
        }
    }
    proof {
        lemma_sorted_insert_at(old_pairs, key@, value, i as int);
    }
    let ghost k = key@;
    let ghost v = value;
    table.push((key, value));
    assert(keyed_pairs(table@) =~= sorted_insert(old_pairs, k, v));
}

} // verus!
