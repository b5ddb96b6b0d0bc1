//! Sequences of pairs keyed by strings: lookup by key and uniqueness of keys.

use vstd::prelude::*;

verus! {

/// The first index at or after `i` whose key is `k`.
pub open spec fn key_index_from<V>(s: Seq<(Seq<char>, V)>, k: Seq<char>, i: int) -> Option<int>
    decreases s.len() - i,
{
    if i < 0 || i >= s.len() {
        None
    } else if s[i].0 == k {
        Some(i)
    } else {
        key_index_from(s, k, i + 1)
    }
}

/// The index of key `k` in `s`.
pub open spec fn key_index<V>(s: Seq<(Seq<char>, V)>, k: Seq<char>) -> Option<int> {
    key_index_from(s, k, 0)
}

/// No key occurs twice in `s`.
pub open spec fn keys_unique<V>(s: Seq<(Seq<char>, V)>) -> bool {
    forall|i: int, j: int| 0 <= i < j < s.len() ==> #[trigger] s[i].0 != #[trigger] s[j].0
}

/// `key_index_from` finds the first index at or after `i` with key `k`.
pub proof fn lemma_key_index_from<V>(s: Seq<(Seq<char>, V)>, k: Seq<char>, i: int)
    requires
        0 <= i,
    ensures
        key_index_from(s, k, i) matches Some(j) ==> i <= j < s.len() && s[j].0 == k && forall|
            m: int,
        |
            i <= m < j ==> s[m].0 != k,
        key_index_from(s, k, i) is None ==> forall|m: int| i <= m < s.len() ==> s[m].0 != k,
    decreases s.len() - i,
{
    if i < s.len() && s[i].0 != k {
        lemma_key_index_from(s, k, i + 1);
    }
}

/// With unique keys, the index of a key is the one position holding it.
pub proof fn lemma_key_index_unique<V>(s: Seq<(Seq<char>, V)>, k: Seq<char>)
    requires
        keys_unique(s),
    ensures
        forall|j: int| 0 <= j < s.len() && s[j].0 == k ==> key_index(s, k) == Some(j),
        key_index(s, k) is None <==> forall|j: int| 0 <= j < s.len() ==> s[j].0 != k,
        key_index(s, k) matches Some(j) ==> 0 <= j < s.len() && s[j].0 == k,
{
    lemma_key_index_from(s, k, 0);
}


/// Appending a pair with a new key: that key now names the new pair, and
/// every other key keeps its position.
pub proof fn lemma_key_index_push<V>(es: Seq<(Seq<char>, V)>, id: Seq<char>, x: V, k: Seq<char>)
    requires
        keys_unique(es),
        key_index(es, id) is None,
    ensures
        keys_unique(es.push((id, x))),
        key_index(es.push((id, x)), k) == (if k == id {
            Some(es.len() as int)
        } else {
            key_index(es, k)
        }),
{
    let n = es.push((id, x));
    lemma_key_index_unique(es, id);
    lemma_key_index_unique(es, k);
    assert forall|a: int, b: int| 0 <= a < b < n.len() implies #[trigger] n[a].0
        != #[trigger] n[b].0 by {
        if b == es.len() {
            assert(es[a].0 != id);
        } else {
            assert(es[a].0 != es[b].0);
        }
    }
    lemma_key_index_unique(n, k);
    if k != id {
        match key_index(es, k) {
            Some(j) => {
                assert(n[j] == es[j]);
            },
            None => {
                assert forall|a: int| 0 <= a < n.len() implies n[a].0 != k by {
                    if a < es.len() {
                        assert(n[a] == es[a]);
                    }
                }
            },
        }
    } else {
        assert(n[es.len() as int].0 == id);
    }
}

} // verus!
