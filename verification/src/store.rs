use vstd::prelude::*;

use crate::bytes::bytes_eq;

verus! {

// The engine keeps its records in byte-keyed association lists, the
// injected stand-in for the host's keyed store. Contracts speak of the
// lists through `to_map`, and the lemmas below connect the executable
// operations (lookup, in-place update, append) to that map abstraction.

/// No two entries share a key.
pub open spec fn distinct_keys<V>(s: Seq<(Vec<u8>, V)>) -> bool {
    forall|i: int, j: int| 0 <= i < j < s.len() ==> s[i].0@ != s[j].0@
}

/// The map from each key to the view of the last entry that carries it.
pub open spec fn to_map<V: View>(s: Seq<(Vec<u8>, V)>) -> Map<Seq<u8>, V::V>
    decreases s.len(),
{
    if s.len() == 0 {
        Map::empty()
    } else {
        to_map(s.drop_last()).insert(s.last().0@, s.last().1@)
    }
}

/// Some entry carries the key `k`.
pub open spec fn has_key<V>(s: Seq<(Vec<u8>, V)>, k: Seq<u8>) -> bool {
    exists|i: int| 0 <= i < s.len() && s[i].0@ == k
}

/// The domain of `to_map` is exactly the set of keys of the entries.
pub proof fn lemma_to_map_dom<V: View>(s: Seq<(Vec<u8>, V)>, k: Seq<u8>)
    ensures
        to_map(s).contains_key(k) <==> has_key(s, k),
    decreases s.len(),
{
    if s.len() == 0 {
    } else {
        let t = s.drop_last();
        lemma_to_map_dom(t, k);
        if s.last().0@ == k {
            assert(s[s.len() - 1].0@ == k);
        } else {
            if has_key(t, k) {
                let i = choose|i: int| 0 <= i < t.len() && t[i].0@ == k;
                assert(s[i].0@ == k);
            }
            if has_key(s, k) {
                let i = choose|i: int| 0 <= i < s.len() && s[i].0@ == k;
                assert(t[i].0@ == k);
            }
        }
    }
}

/// With distinct keys, the entry at index `i` is what `to_map` maps its
/// key to.
pub proof fn lemma_to_map_index<V: View>(s: Seq<(Vec<u8>, V)>, i: int)
    requires
        distinct_keys(s),
        0 <= i < s.len(),
    ensures
        to_map(s).contains_key(s[i].0@),
        to_map(s)[s[i].0@] == s[i].1@,
    decreases s.len(),
{
    let t = s.drop_last();
    if i == s.len() - 1 {
    } else {
        assert forall|a: int, b: int| 0 <= a < b < t.len() implies t[a].0@ != t[b].0@ by {
            assert(t[a] == s[a]);
            assert(t[b] == s[b]);
        }
        lemma_to_map_index(t, i);
        assert(t[i] == s[i]);
        assert(s[i].0@ != s[s.len() - 1].0@);
    }
}

/// Updating the value at index `i`, key unchanged, updates `to_map` at
/// that key alone.
pub proof fn lemma_to_map_update<V: View>(s1: Seq<(Vec<u8>, V)>, s2: Seq<(Vec<u8>, V)>, i: int)
    requires
        distinct_keys(s1),
        s2.len() == s1.len(),
        0 <= i < s1.len(),
        forall|j: int| 0 <= j < s1.len() && j != i ==> s2[j] == s1[j],
        s2[i].0@ == s1[i].0@,
    ensures
        distinct_keys(s2),
        to_map(s2) == to_map(s1).insert(s1[i].0@, s2[i].1@),
    decreases s1.len(),
{
    assert forall|a: int, b: int| 0 <= a < b < s2.len() implies s2[a].0@ != s2[b].0@ by {
        assert(s2[a].0@ == s1[a].0@);
        assert(s2[b].0@ == s1[b].0@);
    }
    let t1 = s1.drop_last();
    let t2 = s2.drop_last();
    assert forall|a: int, b: int| 0 <= a < b < t1.len() implies t1[a].0@ != t1[b].0@ by {
        assert(t1[a] == s1[a]);
        assert(t1[b] == s1[b]);
    }
    if i == s1.len() - 1 {
        assert(t2 =~= t1);
        assert(to_map(s2) =~= to_map(s1).insert(s1[i].0@, s2[i].1@));
    } else {
        assert forall|j: int| 0 <= j < t1.len() && j != i implies t2[j] == t1[j] by {
            assert(t2[j] == s2[j]);
            assert(t1[j] == s1[j]);
        }
        assert(t2[i] == s2[i]);
        assert(t1[i] == s1[i]);
        lemma_to_map_update(t1, t2, i);
        assert(s2.last() == s1.last());
        assert(s1[i].0@ != s1[s1.len() - 1].0@);
        assert(to_map(s2) =~= to_map(s1).insert(s1[i].0@, s2[i].1@));
    }
}

/// Appending an entry with a fresh key inserts it into `to_map`.
pub proof fn lemma_to_map_push<V: View>(s: Seq<(Vec<u8>, V)>, k: Vec<u8>, v: V)
    requires
        distinct_keys(s),
        !has_key(s, k@),
    ensures
        distinct_keys(s.push((k, v))),
        to_map(s.push((k, v))) == to_map(s).insert(k@, v@),
{
    let p = s.push((k, v));
    assert forall|a: int, b: int| 0 <= a < b < p.len() implies p[a].0@ != p[b].0@ by {
        if b == p.len() - 1 {
            assert(p[a] == s[a]);
            assert(!(0 <= a < s.len() && s[a].0@ == k@));
        } else {
            assert(p[a] == s[a]);
            assert(p[b] == s[b]);
        }
    }
    assert(p.drop_last() =~= s);
}

/// Finds the index of the entry carrying `key`, if any.
pub fn find_key<V>(s: &Vec<(Vec<u8>, V)>, key: &Vec<u8>) -> (r: Option<usize>)
    ensures
        match r {
            Some(i) => 0 <= i < s@.len() && s@[i as int].0@ == key@,
            None => !has_key(s@, key@),
        },
{
    let n = s.len();
    let mut i: usize = 0;
    while i < n
        invariant
            n == s@.len(),
            i <= n,
            forall|j: int| 0 <= j < i ==> s@[j].0@ != key@,
        decreases n - i,
    {
        if bytes_eq(&s[i].0, key) {
            return Some(i);
        }
        i += 1;
    }
    None
}

/// Some element of `s` holds the bytes `x`.
pub open spec fn contains_bytes(s: Seq<Vec<u8>>, x: Seq<u8>) -> bool {
    exists|i: int| 0 <= i < s.len() && s[i]@ == x
}

/// Appending one byte string extends the membership relation by
/// exactly it.
pub proof fn lemma_contains_push(s: Seq<Vec<u8>>, v: Vec<u8>, x: Seq<u8>)
    ensures
        contains_bytes(s.push(v), x) <==> (contains_bytes(s, x) || x == v@),
{
    if contains_bytes(s, x) {
        let i = choose|i: int| 0 <= i < s.len() && s[i]@ == x;
        assert(s.push(v)[i]@ == x);
    }
    if x == v@ {
        assert(s.push(v)[s.len() as int]@ == x);
    }
    if contains_bytes(s.push(v), x) {
        let i = choose|i: int| 0 <= i < s.push(v).len() && s.push(v)[i]@ == x;
        if i < s.len() {
            assert(s[i]@ == x);
        }
    }
}

/// Membership test for a plain list of byte strings.
pub fn find_bytes(s: &Vec<Vec<u8>>, x: &Vec<u8>) -> (r: bool)
    ensures
        r == contains_bytes(s@, x@),
{
    let n = s.len();
    let mut i: usize = 0;
    while i < n
        invariant
            n == s@.len(),
            i <= n,
            forall|j: int| 0 <= j < i ==> s@[j]@ != x@,
        decreases n - i,
    {
        if bytes_eq(&s[i], x) {
            return true;
        }
        i += 1;
    }
    false
}

} // verus!
