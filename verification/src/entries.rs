//! A model of an insertion-ordered map from field paths to values, and the
//! facts about it that the builders rely on.
use vstd::prelude::*;

verus! {

/// Key-value pairs in order.
pub type Entries = Seq<(Seq<char>, bson::Bson)>;

/// The value stored under `key`: that of the first entry with this key.
pub open spec fn entries_get(e: Entries, key: Seq<char>) -> Option<bson::Bson>
    decreases e.len(),
{
    if e.len() == 0 {
        None
    } else if e[0].0 == key {
        Some(e[0].1)
    } else {
        entries_get(e.drop_first(), key)
    }
}

/// Stores `value` under `key`: the first entry with this key gets the new
/// value in its place; without one, a new entry goes last.
pub open spec fn entries_insert(e: Entries, key: Seq<char>, value: bson::Bson) -> Entries
    decreases e.len(),
{
    if e.len() == 0 {
        seq![(key, value)]
    } else if e[0].0 == key {
        e.update(0, (key, value))
    } else {
        seq![e[0]] + entries_insert(e.drop_first(), key, value)
    }
}

/// The keys of the entries, in order.
pub open spec fn entries_keys(e: Entries) -> Seq<Seq<char>> {
    e.map_values(|p: (Seq<char>, bson::Bson)| p.0)
}

} // verus!

verus! {

/// The entries that inserting `pairs` one after another into an empty
/// document gives.
pub open spec fn entries_from_pairs(pairs: Entries) -> Entries
    decreases pairs.len(),
{
    if pairs.len() == 0 {
        Seq::empty()
    } else {
        let last = pairs.last();
        entries_insert(entries_from_pairs(pairs.drop_last()), last.0, last.1)
    }
}

/// The value of the last pair with this key, if there is one.
pub open spec fn last_value(pairs: Entries, key: Seq<char>) -> Option<bson::Bson>
    decreases pairs.len(),
{
    if pairs.len() == 0 {
        None
    } else if pairs.last().0 == key {
        Some(pairs.last().1)
    } else {
        last_value(pairs.drop_last(), key)
    }
}

/// The keys in the order of their first occurrence, each once.
pub open spec fn first_occurrences(keys: Seq<Seq<char>>) -> Seq<Seq<char>>
    decreases keys.len(),
{
    if keys.len() == 0 {
        Seq::empty()
    } else {
        let earlier = first_occurrences(keys.drop_last());
        if earlier.contains(keys.last()) {
            earlier
        } else {
            earlier.push(keys.last())
        }
    }
}

/// Inserting a pair makes its key give the new value and leaves every other
/// key's value as it was.
pub proof fn lemma_insert_get(e: Entries, key: Seq<char>, value: bson::Bson, other: Seq<char>)
    ensures
        entries_get(entries_insert(e, key, value), other) == if other == key {
            Some(value)
        } else {
            entries_get(e, other)
        },
    decreases e.len(),
{
    if e.len() == 0 {
        let r = seq![(key, value)];
        assert(r[0] == (key, value));
        assert(r.drop_first() =~= Seq::<(Seq<char>, bson::Bson)>::empty());
        assert(entries_get(r.drop_first(), other) == None::<bson::Bson>);
    } else if e[0].0 == key {
        let r = e.update(0, (key, value));
        assert(r[0] == (key, value));
        assert(r.drop_first() =~= e.drop_first());
    } else {
        lemma_insert_get(e.drop_first(), key, value, other);
        let r = seq![e[0]] + entries_insert(e.drop_first(), key, value);
        assert(r[0] == e[0]);
        assert(r.drop_first() =~= entries_insert(e.drop_first(), key, value));
    }
}

/// Inserting a pair keeps the order of the keys, and adds the key last when
/// it was not there.
pub proof fn lemma_insert_keys(e: Entries, key: Seq<char>, value: bson::Bson)
    ensures
        entries_keys(entries_insert(e, key, value)) == if entries_keys(e).contains(key) {
            entries_keys(e)
        } else {
            entries_keys(e).push(key)
        },
    decreases e.len(),
{
    if e.len() == 0 {
        assert(entries_keys(seq![(key, value)]) =~= seq![key]);
        assert(entries_keys(e) =~= Seq::<Seq<char>>::empty());
    } else if e[0].0 == key {
        assert(entries_keys(e)[0] == key);
        assert(entries_keys(e.update(0, (key, value))) =~= entries_keys(e));
    } else {
        let rest = e.drop_first();
        lemma_insert_keys(rest, key, value);
        let r = seq![e[0]] + entries_insert(rest, key, value);
        assert(entries_keys(e) =~= seq![e[0].0] + entries_keys(rest));
        assert(entries_keys(r) =~= seq![e[0].0] + entries_keys(entries_insert(rest, key, value)));
        if entries_keys(rest).contains(key) {
            let i = choose|i: int| 0 <= i < entries_keys(rest).len() && entries_keys(rest)[i] == key;
            assert(entries_keys(e)[i + 1] == key);
        } else {
            if entries_keys(e).contains(key) {
                let i = choose|i: int| 0 <= i < entries_keys(e).len() && entries_keys(e)[i] == key;
                assert(i != 0);
                assert(entries_keys(rest)[i - 1] == key);
            }
            assert(seq![e[0].0] + entries_keys(rest).push(key) =~= entries_keys(e).push(key));
        }
    }
}

/// After inserting all pairs, the document holds under each key the value of
/// the last pair with that key, and nothing under keys that no pair has.
pub proof fn lemma_last_value_wins(pairs: Entries, key: Seq<char>)
    ensures
        entries_get(entries_from_pairs(pairs), key) == last_value(pairs, key),
    decreases pairs.len(),
{
    if pairs.len() > 0 {
        lemma_last_value_wins(pairs.drop_last(), key);
        lemma_insert_get(entries_from_pairs(pairs.drop_last()), pairs.last().0, pairs.last().1, key);
    }
}

/// After inserting all pairs, the document's keys are the pairs' keys in the
/// order in which each first occurs, each once.
pub proof fn lemma_keys_in_first_order(pairs: Entries)
    ensures
        entries_keys(entries_from_pairs(pairs)) == first_occurrences(entries_keys(pairs)),
    decreases pairs.len(),
{
    if pairs.len() == 0 {
        assert(entries_keys(Seq::<(Seq<char>, bson::Bson)>::empty()) =~= Seq::<Seq<char>>::empty());
    } else {
        lemma_keys_in_first_order(pairs.drop_last());
        lemma_insert_keys(entries_from_pairs(pairs.drop_last()), pairs.last().0, pairs.last().1);
        assert(entries_keys(pairs).drop_last() =~= entries_keys(pairs.drop_last()));
    }
}

/// No key occurs twice among the first occurrences.
pub proof fn lemma_first_occurrences_distinct(keys: Seq<Seq<char>>)
    ensures
        first_occurrences(keys).no_duplicates(),
    decreases keys.len(),
{
    if keys.len() > 0 {
        lemma_first_occurrences_distinct(keys.drop_last());
    }
}

/// A document built from pairs never holds a key twice.
pub proof fn lemma_built_keys_distinct(pairs: Entries)
    ensures
        entries_keys(entries_from_pairs(pairs)).no_duplicates(),
{
    lemma_keys_in_first_order(pairs);
    lemma_first_occurrences_distinct(entries_keys(pairs));
}

} // verus!
