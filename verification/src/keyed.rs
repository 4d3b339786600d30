//! Keyed collections held as vectors of (key, value) entries with pairwise
//! distinct keys, viewed as maps from the keys' text to the values.

use vstd::prelude::*;
use crate::text::same_text;

verus! {

/// No key occurs twice among the entries.
pub open spec fn unique_keys<V>(es: Seq<(String, V)>) -> bool {
    forall|i: int, j: int| 0 <= i < j < es.len() ==> es[i].0@ != es[j].0@
}

/// Some entry has the key `k`.
pub open spec fn has_key<V>(es: Seq<(String, V)>, k: Seq<char>) -> bool {
    exists|i: int| 0 <= i < es.len() && es[i].0@ == k
}

/// The map from each entry's key to its value (a later entry wins).
pub open spec fn keyed_map<V>(es: Seq<(String, V)>) -> Map<Seq<char>, V>
    decreases es.len(),
{
    if es.len() == 0 {
        Map::empty()
    } else {
        keyed_map(es.drop_last()).insert(es.last().0@, es.last().1)
    }
}

/// The map's keys are the entries' keys; with distinct keys, each entry's
/// value is the value under its key, and the map has one key per entry.
pub proof fn lemma_keyed_map<V>(es: Seq<(String, V)>)
    ensures
        forall|k: Seq<char>| #[trigger] keyed_map(es).contains_key(k) <==> has_key(es, k),
        unique_keys(es) ==> forall|i: int| 0 <= i < es.len() ==> keyed_map(es)[#[trigger] es[i].0@] == es[i].1,
        keyed_map(es).dom().finite(),
        unique_keys(es) ==> keyed_map(es).len() == es.len(),
    decreases es.len(),
{
    if es.len() > 0 {
        let front = es.drop_last();
        lemma_keyed_map(front);
        let last = es.last();
        assert forall|k: Seq<char>| #[trigger] keyed_map(es).contains_key(k) <==> has_key(es, k) by {
            if has_key(es, k) {
                let i = choose|i: int| 0 <= i < es.len() && es[i].0@ == k;
                if i < es.len() - 1 {
                    assert(front[i].0@ == k);
                }
            }
            if has_key(front, k) {
                let i = choose|i: int| 0 <= i < front.len() && front[i].0@ == k;
                assert(es[i].0@ == k);
            }
            if k == last.0@ {
                assert(es[es.len() - 1].0@ == k);
            }
        }
        if unique_keys(es) {
            assert(unique_keys(front));
            assert forall|i: int| 0 <= i < es.len() implies keyed_map(es)[#[trigger] es[i].0@] == es[i].1 by {
                if i < es.len() - 1 {
                    assert(front[i] == es[i]);
                    assert(es[i].0@ != last.0@);
                }
            }
            assert(!keyed_map(front).contains_key(last.0@)) by {
                if has_key(front, last.0@) {
                    let i = choose|i: int| 0 <= i < front.len() && front[i].0@ == last.0@;
                    assert(es[i].0@ == es[es.len() - 1].0@);
                }
            }
        }
    }
}

/// Removing the entry at `i` removes its key from the map.
pub proof fn lemma_keyed_map_remove<V>(es: Seq<(String, V)>, i: int)
    requires
        unique_keys(es),
        0 <= i < es.len(),
    ensures
        unique_keys(es.remove(i)),
        keyed_map(es.remove(i)) == keyed_map(es).remove(es[i].0@),
{
    let rs = es.remove(i);
    let key = es[i].0@;
    assert forall|a: int, b: int| 0 <= a < b < rs.len() implies rs[a].0@ != rs[b].0@ by {
        let a2 = if a < i { a } else { a + 1 };
        let b2 = if b < i { b } else { b + 1 };
        assert(rs[a] == es[a2] && rs[b] == es[b2]);
    }
    lemma_keyed_map(es);
    lemma_keyed_map(rs);
    let m = keyed_map(es).remove(key);
    assert forall|k: Seq<char>| #[trigger] keyed_map(rs).contains_key(k) <==> m.contains_key(k) by {
        if has_key(rs, k) {
            let j = choose|j: int| 0 <= j < rs.len() && rs[j].0@ == k;
            let j2 = if j < i { j } else { j + 1 };
            assert(rs[j] == es[j2]);
            assert(keyed_map(es).contains_key(k));
            assert(k != key);
        }
        if m.contains_key(k) {
            assert(has_key(es, k));
            let j = choose|j: int| 0 <= j < es.len() && es[j].0@ == k;
            assert(j != i);
            let j2 = if j < i { j } else { j - 1 };
            assert(rs[j2] == es[j]);
        }
    }
    assert forall|k: Seq<char>| keyed_map(rs).contains_key(k) implies #[trigger] keyed_map(rs)[k] == m[k] by {
        let j = choose|j: int| 0 <= j < rs.len() && rs[j].0@ == k;
        let j2 = if j < i { j } else { j + 1 };
        assert(rs[j] == es[j2]);
        assert(keyed_map(rs)[rs[j].0@] == rs[j].1);
        assert(keyed_map(es)[es[j2].0@] == es[j2].1);
    }
    assert(keyed_map(rs) =~= m);
}

/// Replacing the entry at `i` by one with the same key replaces the value
/// under that key.
pub proof fn lemma_keyed_map_update<V>(es: Seq<(String, V)>, i: int, e: (String, V))
    requires
        unique_keys(es),
        0 <= i < es.len(),
        e.0@ == es[i].0@,
    ensures
        unique_keys(es.update(i, e)),
        keyed_map(es.update(i, e)) == keyed_map(es).insert(e.0@, e.1),
{
    let us = es.update(i, e);
    assert forall|a: int, b: int| 0 <= a < b < us.len() implies us[a].0@ != us[b].0@ by {
        assert(us[a].0@ == es[a].0@ && us[b].0@ == es[b].0@);
    }
    lemma_keyed_map(es);
    lemma_keyed_map(us);
    let m = keyed_map(es).insert(e.0@, e.1);
    assert forall|k: Seq<char>| #[trigger] keyed_map(us).contains_key(k) <==> m.contains_key(k) by {
        if has_key(us, k) {
            let j = choose|j: int| 0 <= j < us.len() && us[j].0@ == k;
            assert(es[j].0@ == k);
        }
        if has_key(es, k) {
            let j = choose|j: int| 0 <= j < es.len() && es[j].0@ == k;
            assert(us[j].0@ == k);
        }
        if k == e.0@ {
            assert(us[i].0@ == k);
        }
    }
    assert forall|k: Seq<char>| keyed_map(us).contains_key(k) implies #[trigger] keyed_map(us)[k] == m[k] by {
        let j = choose|j: int| 0 <= j < us.len() && us[j].0@ == k;
        assert(keyed_map(us)[us[j].0@] == us[j].1);
        if j != i {
            assert(us[j] == es[j]);
            assert(keyed_map(es)[es[j].0@] == es[j].1);
        }
    }
    assert(keyed_map(us) =~= m);
}

/// The index of the entry with key `key`, if any.
pub fn position_of_key<V>(es: &Vec<(String, V)>, key: &str) -> (r: Option<usize>)
    ensures
        match r {
            Some(i) => i < es@.len() && es@[i as int].0@ == key@,
            None => !has_key(es@, key@),
        },
{
    let n = es.len();
    let mut i: usize = 0;
    while i < n
        invariant
            n == es@.len(),
            i <= n,
            forall|k: int| 0 <= k < i ==> es@[k].0@ != key@,
        decreases n - i,
    {
        if same_text(es[i].0.as_str(), key) {
            return Some(i);
        }
        i += 1;
    }
    None
}

/// The entries with `value` stored under `key`: the entry with that key gets
/// the new value, or a new entry is appended.
pub fn upsert<V>(es: Vec<(String, V)>, key: String, value: V) -> (r: Vec<(String, V)>)
    requires
        unique_keys(es@),
    ensures
        unique_keys(r@),
        keyed_map(r@) == keyed_map(es@).insert(key@, value),
{
    let mut es = es;
    let ghost old_es = es@;
    match position_of_key(&es, key.as_str()) {
        Some(i) => {
            proof {
                lemma_keyed_map_update(old_es, i as int, (key, value));
            }
            es.set(i, (key, value));
        },
        None => {
            proof {
                assert forall|a: int, b: int| 0 <= a < b < old_es.len() + 1 implies
                    old_es.push((key, value))[a].0@ != old_es.push((key, value))[b].0@ by {
                    if b == old_es.len() {
                        assert(old_es[a].0@ != key@);
                    }
                }
                assert(old_es.push((key, value)).drop_last() =~= old_es);
            }
            es.push((key, value));
        },
    }
    es
}

/// The entries without the one with key `key`, if there is one.
pub fn remove_key<V>(es: Vec<(String, V)>, key: &str) -> (r: Vec<(String, V)>)
    requires
        unique_keys(es@),
    ensures
        unique_keys(r@),
        keyed_map(r@) == keyed_map(es@).remove(key@),
{
    let mut es = es;
    let ghost old_es = es@;
    match position_of_key(&es, key) {
        Some(i) => {
            proof {
                lemma_keyed_map_remove(old_es, i as int);
            }
            es.remove(i);
        },
        None => {
            proof {
                lemma_keyed_map(old_es);
                assert(keyed_map(old_es).remove(key@) =~= keyed_map(old_es));
            }
        },
    }
    es
}

} // verus!
