//! Sets and maps of texts, kept as vectors.
//!
//! A set is a vector in which no text occurs twice; a map is a vector of
//! key-value pairs in which no key occurs twice. Both keep the order in which
//! their items first arrived, so that what is built from an answer of the
//! store depends on that answer alone.

use crate::text::{Text, Texts};
use vstd::prelude::*;

verus! {

/// Keys with their values, in order.
pub type Entries = Seq<(Text, Text)>;

/// `items` without repetitions: of equal texts the first one stays.
pub open spec fn distinct(items: Texts) -> Texts
    decreases items.len(),
{
    if items.len() == 0 {
        seq![]
    } else {
        let front = distinct(items.drop_last());
        if front.contains(items.last()) {
            front
        } else {
            front.push(items.last())
        }
    }
}

/// [`distinct`] repeats nothing, and holds exactly the texts it was given.
pub proof fn lemma_distinct(items: Texts)
    ensures
        distinct(items).no_duplicates(),
        distinct(items).len() <= items.len(),
        forall|i: int| 0 <= i < items.len() ==> distinct(items).contains(#[trigger] items[i]),
        forall|j: int|
            0 <= j < distinct(items).len() ==> items.contains(#[trigger] distinct(items)[j]),
    decreases items.len(),
{
    if items.len() > 0 {
        let front_items = items.drop_last();
        let front = distinct(front_items);
        let last = items.last();
        let kept = distinct(items);
        lemma_distinct(front_items);
        assert forall|i: int| 0 <= i < items.len() implies kept.contains(#[trigger] items[i]) by {
            if i < items.len() - 1 {
                assert(front.contains(front_items[i]));
                let k = choose|k: int| 0 <= k < front.len() && front[k] == items[i];
                assert(kept[k] == items[i]);
            } else if front.contains(last) {
                let k = choose|k: int| 0 <= k < front.len() && front[k] == last;
                assert(kept[k] == items[i]);
            } else {
                assert(kept[front.len() as int] == items[i]);
            }
        }
        assert forall|j: int| 0 <= j < kept.len() implies items.contains(#[trigger] kept[j]) by {
            if j < front.len() {
                assert(front_items.contains(front[j]));
                let k = choose|k: int| 0 <= k < front_items.len() && front_items[k] == front[j];
                assert(items[k] == kept[j]);
            } else {
                assert(items[items.len() - 1] == kept[j]);
            }
        }
        if !front.contains(last) {
            assert forall|i: int, j: int|
                0 <= i < kept.len() && 0 <= j < kept.len() && i != j implies kept[i] != kept[j] by {
                if i < front.len() && kept[i] == last {
                    assert(front[i] == last);
                }
                if j < front.len() && kept[j] == last {
                    assert(front[j] == last);
                }
            }
        }
    }
}

/// Where nothing is repeated, [`distinct`] changes nothing.
pub proof fn lemma_distinct_of_distinct(items: Texts)
    requires
        items.no_duplicates(),
    ensures
        distinct(items) == items,
    decreases items.len(),
{
    if items.len() > 0 {
        let front_items = items.drop_last();
        lemma_distinct_of_distinct(front_items);
        if front_items.contains(items.last()) {
            let i = choose|i: int| 0 <= i < front_items.len() && front_items[i] == items.last();
            assert(items[i] == items[items.len() - 1]);
        }
        assert(front_items.push(items.last()) =~= items);
    }
}

/// Whether `text` is among `items`.
pub fn contains(items: &Vec<String>, text: &String) -> (found: bool)
    ensures
        found == items.deep_view().contains(text@),
{
    let mut i: usize = 0;
    while i < items.len()
        invariant
            i <= items.len(),
            forall|j: int| 0 <= j < i ==> items.deep_view()[j] != text@,
        decreases items.len() - i,
    {
        if items[i] == *text {
            assert(items.deep_view()[i as int] == text@);
            return true;
        }
        i += 1;
    }
    false
}

/// Drops every text that occurred before, keeping the first of each.
pub fn dedup(items: Vec<String>) -> (kept: Vec<String>)
    ensures
        kept.deep_view() == distinct(items.deep_view()),
{
    let mut kept: Vec<String> = Vec::new();
    let mut i: usize = 0;
    assert(items.deep_view().take(0) =~= seq![]);
    assert(kept.deep_view() =~= seq![]);
    while i < items.len()
        invariant
            i <= items.len(),
            kept.deep_view() == distinct(items.deep_view().take(i as int)),
        decreases items.len() - i,
    {
        let ghost before = kept.deep_view();
        let ghost texts = items.deep_view();
        assert(texts.take(i + 1).drop_last() =~= texts.take(i as int));
        assert(texts.take(i + 1).last() == items[i as int]@);
        if !contains(&kept, &items[i]) {
            kept.push(items[i].clone());
            assert(kept.deep_view() =~= before.push(items[i as int]@));
        }
        i += 1;
    }
    assert(items.deep_view().take(i as int) =~= items.deep_view());
    kept
}

/// The keys of `entries`, in order.
pub open spec fn keys(entries: Entries) -> Texts {
    entries.map_values(|entry: (Text, Text)| entry.0)
}

/// `entries` read as a map: of two entries with one key the later one counts.
pub open spec fn as_map(entries: Entries) -> Map<Text, Text>
    decreases entries.len(),
{
    if entries.len() == 0 {
        Map::empty()
    } else {
        as_map(entries.drop_last()).insert(entries.last().0, entries.last().1)
    }
}

/// Where `key` first occurs among `keys`; their number if it does not.
pub open spec fn position(keys: Texts, key: Text) -> int
    decreases keys.len(),
{
    if keys.len() == 0 {
        0
    } else if keys[0] == key {
        0
    } else {
        1 + position(keys.drop_first(), key)
    }
}

/// `entries` with `key` set to `value`: in place where the key is present,
/// at the end where it is not.
pub open spec fn put(entries: Entries, key: Text, value: Text) -> Entries {
    let at = position(keys(entries), key);
    if at < entries.len() {
        entries.update(at, (key, value))
    } else {
        entries.push((key, value))
    }
}

/// `entries` with every pair of `pairs` put into it, in order: what `pairs`
/// says of a key overrides what `entries` said, and of two pairs with one key
/// the later one counts.
pub open spec fn extend(
    entries: Entries,
    pairs: Entries,
) -> Entries
    decreases pairs.len(),
{
    if pairs.len() == 0 {
        entries
    } else {
        put(extend(entries, pairs.drop_last()), pairs.last().0, pairs.last().1)
    }
}

/// [`position`] is the first index that holds the key, or the length where
/// none does.
pub proof fn lemma_position(keys: Texts, key: Text)
    ensures
        0 <= position(keys, key) <= keys.len(),
        position(keys, key) < keys.len() ==> keys[position(keys, key)] == key,
        forall|j: int| 0 <= j < position(keys, key) ==> #[trigger] keys[j] != key,
    decreases keys.len(),
{
    if keys.len() > 0 && keys[0] != key {
        let rest = keys.drop_first();
        lemma_position(rest, key);
        assert forall|j: int| 0 <= j < position(keys, key) implies #[trigger] keys[j] != key by {
            if j > 0 {
                assert(rest[j - 1] == keys[j]);
            }
        }
    }
}

/// The keys of a map kept as a vector are exactly its domain, and where no
/// key is repeated each entry is what the map says of its key.
pub proof fn lemma_as_map(entries: Entries)
    ensures
        forall|i: int|
            0 <= i < entries.len() ==> as_map(entries).dom().contains((#[trigger] entries[i]).0),
        forall|key: Text| #[trigger]
            as_map(entries).dom().contains(key) ==> keys(entries).contains(key),
        keys(entries).no_duplicates() ==> forall|i: int|
            0 <= i < entries.len() ==> as_map(entries)[(#[trigger] entries[i]).0] == entries[i].1,
    decreases entries.len(),
{
    if entries.len() > 0 {
        let front = entries.drop_last();
        let last = entries.last();
        lemma_as_map(front);
        assert forall|i: int| 0 <= i < entries.len() implies as_map(entries).dom().contains(
            (#[trigger] entries[i]).0,
        ) by {
            if i < entries.len() - 1 {
                assert(front[i] == entries[i]);
            }
        }
        assert forall|key: Text| #[trigger]
            as_map(entries).dom().contains(key) implies keys(entries).contains(key) by {
            if key == last.0 {
                assert(keys(entries)[entries.len() - 1] == key);
            } else {
                assert(as_map(front).dom().contains(key));
                let i = choose|i: int| 0 <= i < front.len() && keys(front)[i] == key;
                assert(keys(entries)[i] == key);
            }
        }
        if keys(entries).no_duplicates() {
            assert forall|i: int, j: int|
                0 <= i < front.len() && 0 <= j < front.len() && i != j implies keys(front)[i]
                != keys(front)[j] by {
                assert(keys(front)[i] == keys(entries)[i]);
                assert(keys(front)[j] == keys(entries)[j]);
            }
            assert forall|i: int| 0 <= i < entries.len() implies as_map(entries)[(
            #[trigger] entries[i]).0] == entries[i].1 by {
                if i < entries.len() - 1 {
                    assert(front[i] == entries[i]);
                    assert(keys(entries)[i] == entries[i].0);
                    assert(keys(entries)[entries.len() - 1] == last.0);
                }
            }
        }
    }
}

/// Putting a key into a vector without repeated keys is inserting it into the
/// map, and repeats no key.
pub proof fn lemma_put(entries: Entries, key: Text, value: Text)
    requires
        keys(entries).no_duplicates(),
    ensures
        keys(put(entries, key, value)).no_duplicates(),
        as_map(put(entries, key, value)) == as_map(entries).insert(key, value),
{
    let after = put(entries, key, value);
    let at = position(keys(entries), key);
    lemma_position(keys(entries), key);
    lemma_as_map(entries);
    if at < entries.len() {
        assert(keys(after) =~= keys(entries));
        lemma_as_map(after);
        assert(entries[at].0 == key);
        assert(as_map(entries).dom().contains(key));
        assert forall|k: Text|
            as_map(after).dom().contains(k) <==> as_map(entries).insert(key, value).dom().contains(
                k,
            ) by {
            if as_map(after).dom().contains(k) {
                let i = choose|i: int| 0 <= i < after.len() && keys(after)[i] == k;
                assert(entries[i].0 == k);
            }
            if as_map(entries).dom().contains(k) {
                let i = choose|i: int| 0 <= i < entries.len() && keys(entries)[i] == k;
                assert(after[i].0 == k);
            }
        }
        assert forall|k: Text| #[trigger]
            as_map(after).dom().contains(k) implies as_map(after)[k] == as_map(entries).insert(
            key,
            value,
        )[k] by {
            let i = choose|i: int| 0 <= i < after.len() && keys(after)[i] == k;
            assert(after[i].0 == k);
            if i != at {
                assert(entries[i] == after[i]);
                assert(keys(entries)[i] == k);
                assert(keys(entries)[at] == key);
            }
        }
        assert(as_map(after) =~= as_map(entries).insert(key, value));
    } else {
        assert(after.drop_last() =~= entries);
        assert(keys(after) =~= keys(entries).push(key));
    }
}

/// Extending a vector without repeated keys is a union of maps in which the
/// pairs that come in win, and repeats no key.
pub proof fn lemma_extend(entries: Entries, pairs: Entries)
    requires
        keys(entries).no_duplicates(),
    ensures
        keys(extend(entries, pairs)).no_duplicates(),
        as_map(extend(entries, pairs)) == as_map(entries).union_prefer_right(as_map(pairs)),
    decreases pairs.len(),
{
    if pairs.len() == 0 {
        assert(as_map(entries).union_prefer_right(as_map(pairs)) =~= as_map(entries));
    } else {
        let front = pairs.drop_last();
        let last = pairs.last();
        lemma_extend(entries, front);
        lemma_put(extend(entries, front), last.0, last.1);
        assert(as_map(entries).union_prefer_right(as_map(front)).insert(last.0, last.1)
            =~= as_map(entries).union_prefer_right(as_map(pairs)));
    }
}

/// Extending nothing by pairs without repeated keys gives those pairs.
pub proof fn lemma_extend_empty(pairs: Entries)
    requires
        keys(pairs).no_duplicates(),
    ensures
        extend(seq![], pairs) == pairs,
    decreases pairs.len(),
{
    if pairs.len() > 0 {
        let front = pairs.drop_last();
        let last = pairs.last();
        assert forall|i: int, j: int|
            0 <= i < front.len() && 0 <= j < front.len() && i != j implies keys(front)[i] != keys(
            front,
        )[j] by {
            assert(keys(front)[i] == keys(pairs)[i]);
            assert(keys(front)[j] == keys(pairs)[j]);
        }
        lemma_extend_empty(front);
        lemma_position(keys(front), last.0);
        let at = position(keys(front), last.0);
        if at < front.len() {
            assert(keys(pairs)[at] == keys(pairs)[pairs.len() - 1]);
        }
        assert(front.push(last) =~= pairs);
    }
}

/// Sets `key` to `value`: in place where the key is present, at the end where
/// it is not.
pub fn put_entry(entries: &mut Vec<(String, String)>, key: String, value: String)
    ensures
        final(entries).deep_view() == put(old(entries).deep_view(), key@, value@),
{
    let ghost before = entries.deep_view();
    proof {
        lemma_position(keys(before), key@);
    }
    let mut i: usize = 0;
    while i < entries.len()
        invariant
            i <= entries.len(),
            before == old(entries).deep_view(),
            entries.deep_view() == before,
            i <= position(keys(before), key@),
        decreases entries.len() - i,
    {
        proof {
            lemma_position(keys(before), key@);
        }
        if entries[i].0 == key {
            assert(keys(before)[i as int] == key@);
            entries.set(i, (key, value));
            assert(entries.deep_view() =~= put(before, key@, value@));
            return ;
        }
        assert(keys(before)[i as int] != key@);
        i += 1;
    }
    proof {
        lemma_position(keys(before), key@);
    }
    entries.push((key, value));
    assert(entries.deep_view() =~= put(before, key@, value@));
}

/// Puts every pair of `pairs` into `entries`, in order.
pub fn extend_entries(entries: &mut Vec<(String, String)>, pairs: &Vec<(String, String)>)
    ensures
        final(entries).deep_view() == extend(old(entries).deep_view(), pairs.deep_view()),
{
    let ghost before = entries.deep_view();
    let mut i: usize = 0;
    assert(pairs.deep_view().take(0) =~= seq![]);
    while i < pairs.len()
        invariant
            i <= pairs.len(),
            entries.deep_view() == extend(before, pairs.deep_view().take(i as int)),
        decreases pairs.len() - i,
    {
        let ghost all = pairs.deep_view();
        assert(all.take(i + 1).drop_last() =~= all.take(i as int));
        assert(all.take(i + 1).last() == (pairs[i as int].0@, pairs[i as int].1@));
        put_entry(entries, pairs[i].0.clone(), pairs[i].1.clone());
        i += 1;
    }
    assert(pairs.deep_view().take(i as int) =~= pairs.deep_view());
}

} // verus!
