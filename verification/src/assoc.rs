//! String-keyed association lists: the maps of the planners.
//!
//! A map is a `Vec<(String, V)>` whose keys are pairwise distinct; `lookup`
//! gives its meaning as a partial function from key text to value.
use vstd::prelude::*;

use crate::text::str_eq;

verus! {

/// Keys are pairwise distinct.
pub open spec fn unique<V>(s: Seq<(String, V)>) -> bool {
    forall|i: int, j: int| 0 <= i < s.len() && 0 <= j < s.len() && i != j ==> s[i].0@ != s[j].0@
}

/// The value stored under `k`.
pub open spec fn lookup<V>(s: Seq<(String, V)>, k: Seq<char>) -> Option<V>
    decreases s.len(),
{
    if s.len() == 0 {
        None
    } else if s.last().0@ == k {
        Some(s.last().1)
    } else {
        lookup(s.drop_last(), k)
    }
}

pub open spec fn has_key<V>(s: Seq<(String, V)>, k: Seq<char>) -> bool {
    exists|i: int| 0 <= i < s.len() && s[i].0@ == k
}

pub proof fn lemma_lookup_absent<V>(s: Seq<(String, V)>, k: Seq<char>)
    requires
        !has_key(s, k),
    ensures
        lookup(s, k) is None,
    decreases s.len(),
{
    if s.len() > 0 {
        assert(s.last() == s[s.len() - 1]);
        assert(!has_key(s.drop_last(), k)) by {
            if has_key(s.drop_last(), k) {
                let i = choose|i: int| 0 <= i < s.drop_last().len() && s.drop_last()[i].0@ == k;
                assert(s[i] == s.drop_last()[i]);
            }
        }
        lemma_lookup_absent(s.drop_last(), k);
    }
}

pub proof fn lemma_lookup_at<V>(s: Seq<(String, V)>, i: int)
    requires
        unique(s),
        0 <= i < s.len(),
    ensures
        lookup(s, s[i].0@) == Some(s[i].1),
    decreases s.len(),
{
    if i < s.len() - 1 {
        let t = s.drop_last();
        assert(s[i] == t[i]);
        assert(unique(t)) by {
            assert forall|a: int, b: int| 0 <= a < t.len() && 0 <= b < t.len() && a != b implies t[a].0@
                != t[b].0@ by {
                assert(t[a] == s[a]);
                assert(t[b] == s[b]);
            }
        }
        assert(s.last().0@ != s[i].0@);
        lemma_lookup_at(t, i);
    }
}

/// `lookup` is exactly "the value of the entry with that key".
pub proof fn lemma_lookup<V>(s: Seq<(String, V)>)
    requires
        unique(s),
    ensures
        forall|i: int| 0 <= i < s.len() ==> lookup(s, #[trigger] s[i].0@) == Some(s[i].1),
        forall|k: Seq<char>| !has_key(s, k) ==> #[trigger] lookup(s, k) is None,
{
    assert forall|i: int| 0 <= i < s.len() implies lookup(s, #[trigger] s[i].0@) == Some(s[i].1) by {
        lemma_lookup_at(s, i);
    }
    assert forall|k: Seq<char>| !has_key(s, k) implies #[trigger] lookup(s, k) is None by {
        lemma_lookup_absent(s, k);
    }
}

/// `new` agrees with `old` on every key but `k`.
pub open spec fn same_except<V>(new: Seq<(String, V)>, old: Seq<(String, V)>, k: Seq<char>) -> bool {
    forall|q: Seq<char>| q != k ==> #[trigger] lookup(new, q) == lookup(old, q)
}

/// `new` is `old` with the entry for `k` replaced by `v` (`None`: removed).
pub open spec fn updated<V>(new: Seq<(String, V)>, old: Seq<(String, V)>, k: Seq<char>, v: Option<
    V,
>) -> bool {
    lookup(new, k) == v && same_except(new, old, k)
}

/// Set `a` is set `b` with `k` added.
pub open spec fn set_added(a: Seq<String>, b: Seq<String>, k: Seq<char>) -> bool {
    forall|q: Seq<char>| #[trigger] member(a, q) == (member(b, q) || q == k)
}

/// Set `a` is set `b` with `k` removed.
pub open spec fn set_removed(a: Seq<String>, b: Seq<String>, k: Seq<char>) -> bool {
    forall|q: Seq<char>| #[trigger] member(a, q) == (member(b, q) && q != k)
}

/// Position of the entry with key `k`.
pub fn find<V>(s: &Vec<(String, V)>, k: &str) -> (r: Option<usize>)
    ensures
        match r {
            Some(i) => i < s.len() && s@[i as int].0@ == k@,
            None => !has_key(s@, k@),
        },
{
    let mut i: usize = 0;
    while i < s.len()
        invariant
            i <= s.len(),
            forall|j: int| 0 <= j < i ==> s@[j].0@ != k@,
        decreases s.len() - i,
    {
        if str_eq(s[i].0.as_str(), k) {
            return Some(i);
        }
        i += 1;
    }
    None
}

/// The value stored under `k`.
pub fn get<'a, V>(s: &'a Vec<(String, V)>, k: &str) -> (r: Option<&'a V>)
    requires
        unique(s@),
    ensures
        match r {
            Some(v) => lookup(s@, k@) == Some(*v),
            None => lookup(s@, k@) is None,
        },
{
    proof {
        lemma_lookup(s@);
    }
    match find(s, k) {
        Some(i) => Some(&s[i].1),
        None => None,
    }
}

pub fn contains_key<V>(s: &Vec<(String, V)>, k: &str) -> (r: bool)
    requires
        unique(s@),
    ensures
        r == (lookup(s@, k@) is Some),
{
    proof {
        lemma_lookup(s@);
    }
    find(s, k).is_some()
}

/// Store `v` under `k`, replacing any earlier value.
pub fn set<V>(s: &mut Vec<(String, V)>, k: String, v: V)
    requires
        unique(old(s)@),
    ensures
        unique(final(s)@),
        forall|q: Seq<char>| #[trigger]
            lookup(final(s)@, q) == if q == k@ {
                Some(v)
            } else {
                lookup(old(s)@, q)
            },
{
    let ghost o = s@;
    proof {
        lemma_lookup(o);
    }
    match find(s, k.as_str()) {
        Some(i) => {
            let ghost kv = k@;
            s.set(i, (k, v));
            assert(s@ == o.update(i as int, s@[i as int]));
            assert(unique(s@)) by {
                assert forall|a: int, b: int|
                    0 <= a < s@.len() && 0 <= b < s@.len() && a != b implies s@[a].0@
                    != s@[b].0@ by {
                    if a != i && b != i {
                        assert(s@[a] == o[a] && s@[b] == o[b]);
                    } else if a == i {
                        assert(s@[b] == o[b]);
                        assert(o[i as int].0@ == kv);
                    } else {
                        assert(s@[a] == o[a]);
                        assert(o[i as int].0@ == kv);
                    }
                }
            }
            proof {
                lemma_lookup(s@);
                assert forall|q: Seq<char>| #[trigger]
                    lookup(s@, q) == if q == kv {
                        Some(v)
                    } else {
                        lookup(o, q)
                    } by {
                    if q == kv {
                        assert(s@[i as int].0@ == q);
                    } else if has_key(o, q) {
                        let j = choose|j: int| 0 <= j < o.len() && o[j].0@ == q;
                        assert(j != i);
                        assert(s@[j] == o[j]);
                    } else {
                        assert(!has_key(s@, q)) by {
                            if has_key(s@, q) {
                                let j = choose|j: int| 0 <= j < s@.len() && s@[j].0@ == q;
                                assert(j != i);
                                assert(s@[j] == o[j]);
                            }
                        }
                    }
                }
            }
        },
        None => {
            let ghost kv = k@;
            s.push((k, v));
            assert(unique(s@)) by {
                assert forall|a: int, b: int|
                    0 <= a < s@.len() && 0 <= b < s@.len() && a != b implies s@[a].0@
                    != s@[b].0@ by {
                    if a < o.len() && b < o.len() {
                        assert(s@[a] == o[a] && s@[b] == o[b]);
                    } else if a < o.len() {
                        assert(s@[a] == o[a]);
                    } else {
                        assert(s@[b] == o[b]);
                    }
                }
            }
            proof {
                assert(s@.drop_last() =~= o);
                assert forall|q: Seq<char>| #[trigger]
                    lookup(s@, q) == if q == kv {
                        Some(v)
                    } else {
                        lookup(o, q)
                    } by {
                }
            }
        },
    }
}

/// Remove the entry with key `k`; returns its value.
pub fn remove<V>(s: &mut Vec<(String, V)>, k: &str) -> (r: Option<V>)
    requires
        unique(old(s)@),
    ensures
        unique(final(s)@),
        r == lookup(old(s)@, k@),
        forall|q: Seq<char>| #[trigger]
            lookup(final(s)@, q) == if q == k@ {
                None
            } else {
                lookup(old(s)@, q)
            },
{
    let ghost o = s@;
    proof {
        lemma_lookup(o);
    }
    match find(s, k) {
        Some(i) => {
            let (_, v) = s.remove(i);
            assert(unique(s@)) by {
                assert forall|a: int, b: int|
                    0 <= a < s@.len() && 0 <= b < s@.len() && a != b implies s@[a].0@
                    != s@[b].0@ by {
                    let a2 = if a < i {
                        a
                    } else {
                        a + 1
                    };
                    let b2 = if b < i {
                        b
                    } else {
                        b + 1
                    };
                    assert(s@[a] == o[a2]);
                    assert(s@[b] == o[b2]);
                }
            }
            proof {
                lemma_lookup(s@);
                assert forall|q: Seq<char>| #[trigger]
                    lookup(s@, q) == if q == k@ {
                        None
                    } else {
                        lookup(o, q)
                    } by {
                    if has_key(s@, q) {
                        let j = choose|j: int| 0 <= j < s@.len() && s@[j].0@ == q;
                        let j2 = if j < i {
                            j
                        } else {
                            j + 1
                        };
                        assert(s@[j] == o[j2]);
                    } else if has_key(o, q) {
                        let j = choose|j: int| 0 <= j < o.len() && o[j].0@ == q;
                        if j != i {
                            let j1 = if j < i {
                                j
                            } else {
                                j - 1
                            };
                            assert(s@[j1] == o[j]);
                        }
                    }
                }
            }
            Some(v)
        },
        None => {
            proof {
                assert forall|q: Seq<char>| #[trigger]
                    lookup(s@, q) == if q == k@ {
                        None
                    } else {
                        lookup(o, q)
                    } by {
                }
            }
            None
        },
    }
}

/// An empty map.
pub fn empty<V>() -> (r: Vec<(String, V)>)
    ensures
        r@.len() == 0,
        unique(r@),
{
    Vec::new()
}

pub proof fn lemma_empty<V>(s: Seq<(String, V)>)
    requires
        s.len() == 0,
    ensures
        unique(s),
        forall|q: Seq<char>| #[trigger] lookup(s, q) is None,
{
}

/// String sets: lists of pairwise distinct strings.
pub open spec fn distinct(s: Seq<String>) -> bool {
    forall|i: int, j: int| 0 <= i < s.len() && 0 <= j < s.len() && i != j ==> s[i]@ != s[j]@
}

pub open spec fn member(s: Seq<String>, k: Seq<char>) -> bool {
    exists|i: int| 0 <= i < s.len() && s[i]@ == k
}

/// Add `k` to a string set.
pub fn set_insert(s: &mut Vec<String>, k: &str) -> (added: bool)
    requires
        distinct(old(s)@),
    ensures
        distinct(final(s)@),
        added == !member(old(s)@, k@),
        forall|q: Seq<char>| #[trigger] member(final(s)@, q) == (member(old(s)@, q) || q == k@),
{
    let ghost o = s@;
    let mut i: usize = 0;
    while i < s.len()
        invariant
            i <= s.len(),
            s@ == o,
            o == old(s)@,
            distinct(o),
            forall|j: int| 0 <= j < i ==> s@[j]@ != k@,
        decreases s.len() - i,
    {
        if str_eq(s[i].as_str(), k) {
            assert forall|q: Seq<char>| #[trigger] member(s@, q) == (member(o, q) || q == k@) by {
                if q == k@ {
                    assert(s@[i as int]@ == q);
                }
            }
            return false;
        }
        i += 1;
    }
    s.push(k.to_owned());
    assert(distinct(s@)) by {
        assert forall|a: int, b: int| 0 <= a < s@.len() && 0 <= b < s@.len() && a != b implies s@[a]@
            != s@[b]@ by {
            if a < o.len() {
                assert(s@[a] == o[a]);
            }
            if b < o.len() {
                assert(s@[b] == o[b]);
            }
        }
    }
    assert forall|q: Seq<char>| #[trigger] member(s@, q) == (member(o, q) || q == k@) by {
        if member(o, q) {
            let j = choose|j: int| 0 <= j < o.len() && o[j]@ == q;
            assert(s@[j] == o[j]);
        }
        if member(s@, q) {
            let j = choose|j: int| 0 <= j < s@.len() && s@[j]@ == q;
            if j < o.len() {
                assert(s@[j] == o[j]);
            }
        }
        if q == k@ {
            assert(s@[o.len() as int]@ == q);
        }
    }
    true
}

/// Remove `k` from a string set.
pub fn set_remove(s: &mut Vec<String>, k: &str) -> (removed: bool)
    requires
        distinct(old(s)@),
    ensures
        distinct(final(s)@),
        removed == member(old(s)@, k@),
        forall|q: Seq<char>| #[trigger] member(final(s)@, q) == (member(old(s)@, q) && q != k@),
{
    let ghost o = s@;
    let mut i: usize = 0;
    while i < s.len()
        invariant
            i <= s.len(),
            s@ == o,
            o == old(s)@,
            distinct(o),
            forall|j: int| 0 <= j < i ==> s@[j]@ != k@,
        decreases s.len() - i,
    {
        if str_eq(s[i].as_str(), k) {
            s.remove(i);
            assert(distinct(s@)) by {
                assert forall|a: int, b: int|
                    0 <= a < s@.len() && 0 <= b < s@.len() && a != b implies s@[a]@ != s@[b]@ by {
                    let a2 = if a < i {
                        a
                    } else {
                        a + 1
                    };
                    let b2 = if b < i {
                        b
                    } else {
                        b + 1
                    };
                    assert(s@[a] == o[a2]);
                    assert(s@[b] == o[b2]);
                }
            }
            assert forall|q: Seq<char>| #[trigger]
                member(s@, q) == (member(o, q) && q != k@) by {
                if member(s@, q) {
                    let j = choose|j: int| 0 <= j < s@.len() && s@[j]@ == q;
                    let j2 = if j < i {
                        j
                    } else {
                        j + 1
                    };
                    assert(s@[j] == o[j2]);
                    assert(o[i as int]@ == k@);
                }
                if member(o, q) && q != k@ {
                    let j = choose|j: int| 0 <= j < o.len() && o[j]@ == q;
                    assert(j != i);
                    let j1 = if j < i {
                        j
                    } else {
                        j - 1
                    };
                    assert(s@[j1] == o[j]);
                }
            }
            assert(member(o, k@)) by {
                assert(o[i as int]@ == k@);
            }
            return true;
        }
        i += 1;
    }
    assert forall|q: Seq<char>| #[trigger] member(s@, q) == (member(o, q) && q != k@) by {
        if member(o, q) && q == k@ {
            let j = choose|j: int| 0 <= j < o.len() && o[j]@ == q;
        }
    }
    false
}

pub fn set_contains(s: &Vec<String>, k: &str) -> (r: bool)
    ensures
        r == member(s@, k@),
{
    let mut i: usize = 0;
    while i < s.len()
        invariant
            i <= s.len(),
            forall|j: int| 0 <= j < i ==> s@[j]@ != k@,
        decreases s.len() - i,
    {
        if str_eq(s[i].as_str(), k) {
            return true;
        }
        i += 1;
    }
    false
}

} // verus!
