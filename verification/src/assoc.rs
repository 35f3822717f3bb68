//! Association lists: sequences of key-value pairs with distinct keys.

use vstd::prelude::*;

verus! {

/// The value of `k` in the association list `s`, if any.
pub open spec fn assoc_get<K, V>(s: Seq<(K, V)>, k: K) -> Option<V> {
    if exists|i: int| 0 <= i < s.len() && s[i].0 == k {
        Some(s[choose|i: int| 0 <= i < s.len() && s[i].0 == k].1)
    } else {
        None
    }
}

/// No key appears twice in `s`.
pub open spec fn assoc_unique<K, V>(s: Seq<(K, V)>) -> bool {
    forall|i: int, j: int| 0 <= i < j < s.len() ==> s[i].0 != s[j].0
}

/// In a list without repeated keys, the entry at `i` is the value of its key.
pub proof fn lemma_assoc_at<K, V>(s: Seq<(K, V)>, i: int)
    requires
        assoc_unique(s),
        0 <= i < s.len(),
    ensures
        assoc_get(s, s[i].0) == Some(s[i].1),
{
    let k = choose|k: int| 0 <= k < s.len() && s[k].0 == s[i].0;
    if k != i {
        if k < i {
        } else {
        }
    }
}

/// Removing the entry at `i` keeps the keys unique and forgets exactly its key.
pub proof fn lemma_assoc_remove<K, V>(s: Seq<(K, V)>, i: int)
    requires
        assoc_unique(s),
        0 <= i < s.len(),
    ensures
        assoc_unique(s.remove(i)),
        assoc_get(s.remove(i), s[i].0) is None,
        forall|k: K| k != s[i].0 ==> assoc_get(s.remove(i), k) == assoc_get(s, k),
{
    let r = s.remove(i);
    assert forall|k: K| k != s[i].0 implies assoc_get(r, k) == assoc_get(s, k) by {
        if exists|a: int| 0 <= a < s.len() && s[a].0 == k {
            let a = choose|a: int| 0 <= a < s.len() && s[a].0 == k;
            let ar = if a < i { a } else { a - 1 };
            assert(r[ar] == s[a]);
            let b = choose|b: int| 0 <= b < r.len() && r[b].0 == k;
            assert(r[b] == s[if b < i { b } else { b + 1 }]);
        } else {
            if exists|b: int| 0 <= b < r.len() && r[b].0 == k {
                let b = choose|b: int| 0 <= b < r.len() && r[b].0 == k;
                assert(r[b] == s[if b < i { b } else { b + 1 }]);
            }
        }
    }
    if exists|b: int| 0 <= b < r.len() && r[b].0 == s[i].0 {
        let b = choose|b: int| 0 <= b < r.len() && r[b].0 == s[i].0;
        assert(r[b] == s[if b < i { b } else { b + 1 }]);
    }
}

/// Appending a fresh key keeps the keys unique, maps the key to its value,
/// and keeps every other key.
pub proof fn lemma_assoc_push<K, V>(s: Seq<(K, V)>, k: K, v: V)
    requires
        assoc_unique(s),
        assoc_get(s, k) is None,
    ensures
        assoc_unique(s.push((k, v))),
        assoc_get(s.push((k, v)), k) == Some(v),
        forall|o: K| o != k ==> assoc_get(s.push((k, v)), o) == assoc_get(s, o),
{
    let r = s.push((k, v));
    assert(r[s.len() as int] == (k, v));
    let a = choose|a: int| 0 <= a < r.len() && r[a].0 == k;
    if a < s.len() {
        assert(r[a] == s[a]);
    }
    assert forall|o: K| o != k implies assoc_get(r, o) == assoc_get(s, o) by {
        if exists|a: int| 0 <= a < s.len() && s[a].0 == o {
            let a = choose|a: int| 0 <= a < s.len() && s[a].0 == o;
            assert(r[a] == s[a]);
            let b = choose|b: int| 0 <= b < r.len() && r[b].0 == o;
            assert(r[b] == s[b]);
        } else {
            if exists|b: int| 0 <= b < r.len() && r[b].0 == o {
                let b = choose|b: int| 0 <= b < r.len() && r[b].0 == o;
                assert(r[b] == s[b]);
            }
        }
    }
}

/// Replacing the value at `i` keeps the keys unique and changes only its key.
pub proof fn lemma_assoc_update<K, V>(s: Seq<(K, V)>, i: int, v: V)
    requires
        assoc_unique(s),
        0 <= i < s.len(),
    ensures
        assoc_unique(s.update(i, (s[i].0, v))),
        assoc_get(s.update(i, (s[i].0, v)), s[i].0) == Some(v),
        forall|k: K| k != s[i].0 ==> assoc_get(s.update(i, (s[i].0, v)), k) == assoc_get(s, k),
{
    let r = s.update(i, (s[i].0, v));
    assert(assoc_unique(r)) by {
        assert forall|a: int, b: int| 0 <= a < b < r.len() implies r[a].0 != r[b].0 by {
            assert(r[a].0 == s[a].0 && r[b].0 == s[b].0);
        }
    }
    lemma_assoc_at(r, i);
    assert forall|k: K| k != s[i].0 implies assoc_get(r, k) == assoc_get(s, k) by {
        if exists|a: int| 0 <= a < s.len() && s[a].0 == k {
            let a = choose|a: int| 0 <= a < s.len() && s[a].0 == k;
            assert(a != i);
            assert(r[a] == s[a]);
            lemma_assoc_at(r, a);
            lemma_assoc_at(s, a);
        } else {
            if exists|b: int| 0 <= b < r.len() && r[b].0 == k {
                let b = choose|b: int| 0 <= b < r.len() && r[b].0 == k;
                assert(r[b].0 == s[b].0);
            }
        }
    }
}

/// The position of key `k` in `s`, if present.
pub fn find_u64<V>(s: &Vec<(u64, V)>, k: u64) -> (r: Option<usize>)
    requires
        assoc_unique(s@),
    ensures
        match r {
            Some(i) => i < s@.len() && s@[i as int].0 == k && assoc_get(s@, k) == Some(s@[i as int].1),
            None => assoc_get(s@, k) is None,
        },
{
    let mut i: usize = 0;
    while i < s.len()
        invariant
            i <= s@.len(),
            assoc_unique(s@),
            forall|j: int| 0 <= j < i ==> s@[j].0 != k,
        decreases s@.len() - i,
    {
        if s[i].0 == k {
            proof { lemma_assoc_at(s@, i as int); }
            return Some(i);
        }
        i = i + 1;
    }
    None
}

} // verus!
