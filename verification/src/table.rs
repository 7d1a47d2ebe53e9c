//! Rows with unique keys, seen as a finite map.
//!
//! The ledger, the issue archive and the delivery queue each keep their rows
//! in a vector and promise that no key occurs twice. This module gives the
//! reading of such a row sequence as a map and the facts that relate edits of
//! the sequence to edits of the map.

use vstd::prelude::*;

verus! {

/// No key occurs at two positions.
pub open spec fn keys_unique<K, V>(rows: Seq<(K, V)>) -> bool {
    forall|i: int, j: int|
        0 <= i < rows.len() && 0 <= j < rows.len() && i != j ==> (#[trigger] rows[i]).0 != (
        #[trigger] rows[j]).0
}

/// Whether some row carries `key`.
pub open spec fn has_key<K, V>(rows: Seq<(K, V)>, key: K) -> bool {
    exists|i: int| 0 <= i < rows.len() && (#[trigger] rows[i]).0 == key
}

/// The map that sends each key that occurs to the value beside it.
pub open spec fn as_map<K, V>(rows: Seq<(K, V)>) -> Map<K, V>
    decreases rows.len(),
{
    if rows.len() == 0 {
        Map::empty()
    } else {
        as_map(rows.drop_last()).insert(rows.last().0, rows.last().1)
    }
}

/// The keys of the map are the keys that occur.
pub proof fn lemma_domain<K, V>(rows: Seq<(K, V)>, key: K)
    ensures
        as_map(rows).dom().contains(key) <==> has_key(rows, key),
    decreases rows.len(),
{
    if rows.len() > 0 {
        let front = rows.drop_last();
        lemma_domain(front, key);
        if has_key(front, key) {
            let i = choose|i: int| 0 <= i < front.len() && (#[trigger] front[i]).0 == key;
            assert(rows[i].0 == key);
        }
        if rows.last().0 == key {
            assert(rows[rows.len() - 1].0 == key);
        }
        if has_key(rows, key) {
            let i = choose|i: int| 0 <= i < rows.len() && (#[trigger] rows[i]).0 == key;
            if i < rows.len() - 1 {
                assert(front[i].0 == key);
            }
        }
    }
}

/// With unique keys, the map holds at each row's key that row's value.
pub proof fn lemma_lookup<K, V>(rows: Seq<(K, V)>, at: int)
    requires
        keys_unique(rows),
        0 <= at < rows.len(),
    ensures
        as_map(rows).dom().contains(rows[at].0),
        as_map(rows)[rows[at].0] == rows[at].1,
    decreases rows.len(),
{
    let front = rows.drop_last();
    if at < rows.len() - 1 {
        assert forall|i: int, j: int|
            0 <= i < front.len() && 0 <= j < front.len() && i != j implies (#[trigger] front[i]).0
            != (#[trigger] front[j]).0 by {
            assert(front[i] == rows[i] && front[j] == rows[j]);
        }
        lemma_lookup(front, at);
        assert(front[at] == rows[at]);
        assert(rows[at].0 != rows[rows.len() - 1].0);
    }
}

/// Appending a row inserts its key and value.
pub proof fn lemma_push<K, V>(rows: Seq<(K, V)>, key: K, value: V)
    ensures
        as_map(rows.push((key, value))) == as_map(rows).insert(key, value),
        keys_unique(rows) && !has_key(rows, key) ==> keys_unique(rows.push((key, value))),
{
    let longer = rows.push((key, value));
    assert(longer.drop_last() =~= rows);
    if keys_unique(rows) && !has_key(rows, key) {
        assert forall|i: int, j: int|
            0 <= i < longer.len() && 0 <= j < longer.len() && i != j implies (
        #[trigger] longer[i]).0 != (#[trigger] longer[j]).0 by {
            if i < rows.len() {
                assert(longer[i] == rows[i]);
            }
            if j < rows.len() {
                assert(longer[j] == rows[j]);
            }
        }
    }
}

/// With unique keys, replacing the value of one row replaces it in the map.
pub proof fn lemma_update<K, V>(rows: Seq<(K, V)>, at: int, value: V)
    requires
        keys_unique(rows),
        0 <= at < rows.len(),
    ensures
        keys_unique(rows.update(at, (rows[at].0, value))),
        as_map(rows.update(at, (rows[at].0, value))) == as_map(rows).insert(rows[at].0, value),
    decreases rows.len(),
{
    let key = rows[at].0;
    let edited = rows.update(at, (key, value));
    assert forall|i: int, j: int|
        0 <= i < edited.len() && 0 <= j < edited.len() && i != j implies (#[trigger] edited[i]).0
        != (#[trigger] edited[j]).0 by {
        assert(edited[i].0 == rows[i].0 && edited[j].0 == rows[j].0);
    }
    let front = rows.drop_last();
    assert forall|i: int, j: int|
        0 <= i < front.len() && 0 <= j < front.len() && i != j implies (#[trigger] front[i]).0 != (
    #[trigger] front[j]).0 by {
        assert(front[i] == rows[i] && front[j] == rows[j]);
    }
    if at == rows.len() - 1 {
        assert(edited.drop_last() =~= front);
        assert(as_map(edited) =~= as_map(rows).insert(key, value));
    } else {
        lemma_update(front, at, value);
        assert(front[at] == rows[at]);
        assert(edited.drop_last() =~= front.update(at, (key, value)));
        assert(edited.last() == rows.last());
        assert(rows[at].0 != rows[rows.len() - 1].0);
        assert(as_map(edited) =~= as_map(rows).insert(key, value));
    }
}

/// With unique keys, taking one row out removes its key from the map.
pub proof fn lemma_remove<K, V>(rows: Seq<(K, V)>, at: int)
    requires
        keys_unique(rows),
        0 <= at < rows.len(),
    ensures
        keys_unique(rows.remove(at)),
        as_map(rows.remove(at)) == as_map(rows).remove(rows[at].0),
    decreases rows.len(),
{
    let key = rows[at].0;
    let shorter = rows.remove(at);
    assert forall|i: int, j: int|
        0 <= i < shorter.len() && 0 <= j < shorter.len() && i != j implies (
    #[trigger] shorter[i]).0 != (#[trigger] shorter[j]).0 by {
        let a = if i < at { i } else { i + 1 };
        let b = if j < at { j } else { j + 1 };
        assert(shorter[i] == rows[a] && shorter[j] == rows[b]);
    }
    let front = rows.drop_last();
    assert forall|i: int, j: int|
        0 <= i < front.len() && 0 <= j < front.len() && i != j implies (#[trigger] front[i]).0 != (
    #[trigger] front[j]).0 by {
        assert(front[i] == rows[i] && front[j] == rows[j]);
    }
    if at == rows.len() - 1 {
        assert(shorter =~= front);
        lemma_domain(front, key);
        if has_key(front, key) {
            let i = choose|i: int| 0 <= i < front.len() && (#[trigger] front[i]).0 == key;
            assert(rows[i].0 == key);
        }
        assert(as_map(shorter) =~= as_map(rows).remove(key));
    } else {
        lemma_remove(front, at);
        assert(front[at] == rows[at]);
        assert(shorter.drop_last() =~= front.remove(at));
        assert(shorter.last() == rows.last());
        assert(rows[at].0 != rows[rows.len() - 1].0);
        assert(as_map(shorter) =~= as_map(rows).remove(key));
    }
}

/// With unique keys, the map has as many keys as there are rows.
pub proof fn lemma_size<K, V>(rows: Seq<(K, V)>)
    requires
        keys_unique(rows),
    ensures
        as_map(rows).dom().finite(),
        as_map(rows).dom().len() == rows.len(),
    decreases rows.len(),
{
    if rows.len() > 0 {
        let front = rows.drop_last();
        assert forall|i: int, j: int|
            0 <= i < front.len() && 0 <= j < front.len() && i != j implies (#[trigger] front[i]).0
            != (#[trigger] front[j]).0 by {
            assert(front[i] == rows[i] && front[j] == rows[j]);
        }
        lemma_size(front);
        lemma_domain(front, rows.last().0);
        if has_key(front, rows.last().0) {
            let i = choose|i: int| 0 <= i < front.len() && (#[trigger] front[i]).0 == rows.last().0;
            assert(rows[i].0 == rows[rows.len() - 1].0);
        }
        assert(as_map(rows).dom() =~= as_map(front).dom().insert(rows.last().0));
    }
}

} // verus!
