//! Lexicographic order on texts (the order of `str`'s `Ord`, which compares
//! UTF-8 bytes and so code points) and a verified sort by `(number, text)`.
use vstd::prelude::*;
use vstd::relations::{sorted_by, total_ordering};

verus! {

/// `a <= b` in lexicographic order of code points.
pub open spec fn str_le(a: Seq<char>, b: Seq<char>) -> bool
    decreases a.len(),
{
    if a.len() == 0 {
        true
    } else if b.len() == 0 {
        false
    } else if a[0] < b[0] {
        true
    } else if a[0] > b[0] {
        false
    } else {
        str_le(a.drop_first(), b.drop_first())
    }
}

pub proof fn lemma_str_le_refl(a: Seq<char>)
    ensures
        str_le(a, a),
    decreases a.len(),
{
    if a.len() > 0 {
        lemma_str_le_refl(a.drop_first());
    }
}

pub proof fn lemma_str_le_antisym(a: Seq<char>, b: Seq<char>)
    requires
        str_le(a, b),
        str_le(b, a),
    ensures
        a == b,
    decreases a.len(),
{
    if a.len() > 0 && b.len() > 0 {
        lemma_str_le_antisym(a.drop_first(), b.drop_first());
        assert(a =~= seq![a[0]] + a.drop_first());
        assert(b =~= seq![b[0]] + b.drop_first());
    } else if a.len() == 0 {
        assert(b.len() == 0);
        assert(a =~= b);
    }
}

pub proof fn lemma_str_le_trans(a: Seq<char>, b: Seq<char>, c: Seq<char>)
    requires
        str_le(a, b),
        str_le(b, c),
    ensures
        str_le(a, c),
    decreases a.len(),
{
    if a.len() > 0 && b.len() > 0 && c.len() > 0 {
        if a[0] == b[0] && b[0] == c[0] {
            lemma_str_le_trans(a.drop_first(), b.drop_first(), c.drop_first());
        }
    }
}

pub proof fn lemma_str_le_total(a: Seq<char>, b: Seq<char>)
    ensures
        str_le(a, b) || str_le(b, a),
    decreases a.len(),
{
    if a.len() > 0 && b.len() > 0 && a[0] == b[0] {
        lemma_str_le_total(a.drop_first(), b.drop_first());
    }
}

/// Order on `(number, text, position)` keys: by number, then by text, then
/// by position (which makes the order of a sort stable).
pub open spec fn key_le(x: (int, Seq<char>, int), y: (int, Seq<char>, int)) -> bool {
    x.0 < y.0 || (x.0 == y.0 && x.1 != y.1 && str_le(x.1, y.1)) || (x.0 == y.0 && x.1 == y.1 && x.2 <= y.2)
}

pub proof fn lemma_key_le_total_ordering()
    ensures
        total_ordering(|x: (int, Seq<char>, int), y: (int, Seq<char>, int)| key_le(x, y)),
{
    let r = |x: (int, Seq<char>, int), y: (int, Seq<char>, int)| key_le(x, y);
    assert forall|x: (int, Seq<char>, int)| #[trigger] r(x, x) by {
    }
    assert forall|x: (int, Seq<char>, int), y: (int, Seq<char>, int)| #[trigger] r(x, y) && #[trigger] r(y, x) implies x
        == y by {
        if x.0 == y.0 && x.1 != y.1 {
            lemma_str_le_antisym(x.1, y.1);
        }
    }
    assert forall|x: (int, Seq<char>, int), y: (int, Seq<char>, int), z: (int, Seq<char>, int)| #[trigger]
        r(x, y) && #[trigger] r(y, z) implies r(x, z) by {
        lemma_key_trans(x, y, z);
    }
    assert forall|x: (int, Seq<char>, int), y: (int, Seq<char>, int)| #[trigger] r(x, y) || #[trigger] r(y, x) by {
        lemma_str_le_total(x.1, y.1);
    }
}

/// Lexicographic `a <= b`.
pub fn str_le_exec(a: &Vec<char>, b: &Vec<char>) -> (r: bool)
    ensures
        r == str_le(a@, b@),
{
    let mut i: usize = 0;
    assert(a@.subrange(0, a@.len() as int) =~= a@);
    assert(b@.subrange(0, b@.len() as int) =~= b@);
    while i < a.len() && i < b.len()
        invariant
            i <= a.len(),
            i <= b.len(),
            str_le(a@, b@) == str_le(a@.subrange(i as int, a@.len() as int), b@.subrange(i as int, b@.len() as int)),
        decreases a.len() - i,
    {
        let ghost sa = a@.subrange(i as int, a@.len() as int);
        let ghost sb = b@.subrange(i as int, b@.len() as int);
        assert(sa[0] == a@[i as int] && sb[0] == b@[i as int]);
        if a[i] < b[i] {
            return true;
        }
        if a[i] > b[i] {
            return false;
        }
        assert(sa.drop_first() =~= a@.subrange(i + 1, a@.len() as int));
        assert(sb.drop_first() =~= b@.subrange(i + 1, b@.len() as int));
        i += 1;
    }
    i == a.len()
}

pub proof fn lemma_key_total(x: (int, Seq<char>, int), y: (int, Seq<char>, int))
    ensures
        key_le(x, y) || key_le(y, x),
{
    lemma_str_le_total(x.1, y.1);
}

pub proof fn lemma_key_trans(x: (int, Seq<char>, int), y: (int, Seq<char>, int), z: (int, Seq<char>, int))
    requires
        key_le(x, y),
        key_le(y, z),
    ensures
        key_le(x, z),
{
    if x.0 == y.0 && y.0 == z.0 {
        if x.1 != y.1 && y.1 != z.1 {
            lemma_str_le_trans(x.1, y.1, z.1);
            if x.1 == z.1 {
                lemma_str_le_antisym(x.1, y.1);
            }
        }
    }
}

pub open spec fn key_view(k: (i64, String, u64)) -> (int, Seq<char>, int) {
    (k.0 as int, k.1@, k.2 as int)
}

pub open spec fn keys_view(v: Seq<(i64, String, u64)>) -> Seq<(int, Seq<char>, int)> {
    v.map_values(|k: (i64, String, u64)| key_view(k))
}

pub fn key_le_exec(x: &(i64, String, u64), y: &(i64, String, u64)) -> (r: bool)
    ensures
        r == key_le(key_view(*x), key_view(*y)),
{
    if x.0 < y.0 {
        return true;
    }
    if x.0 > y.0 {
        return false;
    }
    let a = crate::text::chars_of(x.1.as_str());
    let b = crate::text::chars_of(y.1.as_str());
    if crate::text::vec_eq(&a, &b) {
        return x.2 <= y.2;
    }
    str_le_exec(&a, &b)
}

/// Sort keys ascending.
pub fn sort_keys(items: &Vec<(i64, String, u64)>) -> (r: Vec<(i64, String, u64)>)
    ensures
        keys_view(r@) == keys_view(items@).sort_by(|x: (int, Seq<char>, int), y: (int, Seq<char>, int)| key_le(x, y)),
{
    let ghost leq = |x: (int, Seq<char>, int), y: (int, Seq<char>, int)| key_le(x, y);
    proof {
        lemma_key_le_total_ordering();
        assert(forall|x: (int, Seq<char>, int), y: (int, Seq<char>, int)| #[trigger] leq(x, y) == key_le(x, y));
    }
    let mut out: Vec<(i64, String, u64)> = Vec::new();
    let mut i: usize = 0;
    proof {
        broadcast use vstd::seq_lib::group_to_multiset_ensures;
        assert(keys_view(items@.subrange(0, 0)) =~= keys_view(out@));
    }
    while i < items.len()
        invariant
            i <= items.len(),
            total_ordering(leq),
            forall|x: (int, Seq<char>, int), y: (int, Seq<char>, int)| #[trigger] leq(x, y) == key_le(x, y),
            sorted_by(keys_view(out@), leq),
            keys_view(out@).to_multiset() == keys_view(items@.subrange(0, i as int)).to_multiset(),
        decreases items.len() - i,
    {
        let x = (items[i].0, items[i].1.clone(), items[i].2);
        let mut p: usize = 0;
        while p < out.len() && key_le_exec(&out[p], &x)
            invariant
                p <= out.len(),
                forall|j: int| 0 <= j < p ==> key_le(key_view(out@[j]), key_view(x)),
            decreases out.len() - p,
        {
            p += 1;
        }
        let ghost before = keys_view(out@);
        out.insert(p, x);
        proof {
            let kx = key_view(x);
            assert(keys_view(out@) =~= before.insert(p as int, kx));
            vstd::seq_lib::to_multiset_insert(before, p as int, kx);
            let pre = items@.subrange(0, i as int);
            let nxt = items@.subrange(0, i + 1);
            assert(keys_view(nxt) =~= keys_view(pre).push(kx));
            vstd::seq_lib::to_multiset_build(keys_view(pre), kx);
            assert(sorted_by(before, leq));
            assert forall|a: int, b: int| 0 <= a < b < keys_view(out@).len() implies #[trigger] leq(
                keys_view(out@)[a],
                keys_view(out@)[b],
            ) by {
                let s = keys_view(out@);
                if a < p && b < p {
                    assert(s[a] == before[a] && s[b] == before[b]);
                    assert(leq(before[a], before[b]));
                } else if a < p && b == p {
                    assert(s[a] == before[a]);
                    assert(s[b] == kx);
                    assert(key_le(before[a], kx));
                } else if a < p && b > p {
                    assert(s[a] == before[a] && s[b] == before[b - 1]);
                    assert(leq(before[a], before[b - 1]));
                } else if a == p {
                    assert(s[a] == kx);
                    assert(s[b] == before[b - 1]);
                    assert(!key_le(before[p as int], kx));
                    lemma_key_total(before[p as int], kx);
                    assert(key_le(kx, before[p as int]));
                    if b - 1 > p {
                        assert(leq(before[p as int], before[b - 1]));
                        assert(key_le(before[p as int], before[b - 1]));
                        lemma_key_trans(kx, before[p as int], before[b - 1]);
                    }
                } else {
                    assert(s[a] == before[a - 1] && s[b] == before[b - 1]);
                    assert(leq(before[a - 1], before[b - 1]));
                }
            }
        }
        i += 1;
    }
    proof {
        assert(items@.subrange(0, items@.len() as int) =~= items@);
        keys_view(items@).lemma_sort_by_ensures(leq);
        vstd::seq_lib::lemma_sorted_unique(keys_view(out@), keys_view(items@).sort_by(leq), leq);
    }
    out
}

/// Order on `(text, text, text, position)` keys: lexicographic on the three
/// texts, then by position (which makes a sort by it stable).
pub open spec fn key3_le(x: (Seq<char>, Seq<char>, Seq<char>, int), y: (Seq<char>, Seq<char>, Seq<char>, int)) -> bool {
    if x.0 != y.0 {
        str_le(x.0, y.0)
    } else if x.1 != y.1 {
        str_le(x.1, y.1)
    } else if x.2 != y.2 {
        str_le(x.2, y.2)
    } else {
        x.3 <= y.3
    }
}

proof fn lemma_str_step(a: Seq<char>, b: Seq<char>, c: Seq<char>)
    requires
        a != b ==> str_le(a, b),
        b != c ==> str_le(b, c),
    ensures
        a != c ==> str_le(a, c),
        (a != b || b != c) ==> a != c,
{
    if a != b && b != c {
        lemma_str_le_trans(a, b, c);
        if a == c {
            lemma_str_le_antisym(a, b);
        }
    }
}

pub proof fn lemma_key3_total_ordering()
    ensures
        total_ordering(
            |x: (Seq<char>, Seq<char>, Seq<char>, int), y: (Seq<char>, Seq<char>, Seq<char>, int)| key3_le(x, y),
        ),
{
    let r = |x: (Seq<char>, Seq<char>, Seq<char>, int), y: (Seq<char>, Seq<char>, Seq<char>, int)| key3_le(x, y);
    assert forall|x: (Seq<char>, Seq<char>, Seq<char>, int)| #[trigger] r(x, x) by {}
    assert forall|x: (Seq<char>, Seq<char>, Seq<char>, int), y: (Seq<char>, Seq<char>, Seq<char>, int)|
        #[trigger] r(x, y) && #[trigger] r(y, x) implies x == y by {
        if x.0 != y.0 {
            lemma_str_le_antisym(x.0, y.0);
        } else if x.1 != y.1 {
            lemma_str_le_antisym(x.1, y.1);
        } else if x.2 != y.2 {
            lemma_str_le_antisym(x.2, y.2);
        }
    }
    assert forall|
        x: (Seq<char>, Seq<char>, Seq<char>, int),
        y: (Seq<char>, Seq<char>, Seq<char>, int),
        z: (Seq<char>, Seq<char>, Seq<char>, int),
    | #[trigger] r(x, y) && #[trigger] r(y, z) implies r(x, z) by {
        if x.0 != y.0 || y.0 != z.0 {
            lemma_str_step(x.0, y.0, z.0);
        } else if x.1 != y.1 || y.1 != z.1 {
            lemma_str_step(x.1, y.1, z.1);
        } else if x.2 != y.2 || y.2 != z.2 {
            lemma_str_step(x.2, y.2, z.2);
        }
    }
    assert forall|x: (Seq<char>, Seq<char>, Seq<char>, int), y: (Seq<char>, Seq<char>, Seq<char>, int)|
        #[trigger] r(x, y) || #[trigger] r(y, x) by {
        lemma_str_le_total(x.0, y.0);
        lemma_str_le_total(x.1, y.1);
        lemma_str_le_total(x.2, y.2);
    }
}

pub open spec fn key3_view(k: (String, String, String, u64)) -> (Seq<char>, Seq<char>, Seq<char>, int) {
    (k.0@, k.1@, k.2@, k.3 as int)
}

pub open spec fn keys3_view(v: Seq<(String, String, String, u64)>) -> Seq<(Seq<char>, Seq<char>, Seq<char>, int)> {
    v.map_values(|k: (String, String, String, u64)| key3_view(k))
}

fn text_cmp_le(a: &String, b: &String) -> (r: (bool, bool))
    ensures
        r.0 == (a@ == b@),
        r.1 == str_le(a@, b@),
{
    let x = crate::text::chars_of(a.as_str());
    let y = crate::text::chars_of(b.as_str());
    (crate::text::vec_eq(&x, &y), str_le_exec(&x, &y))
}

pub fn key3_le_exec(x: &(String, String, String, u64), y: &(String, String, String, u64)) -> (r: bool)
    ensures
        r == key3_le(key3_view(*x), key3_view(*y)),
{
    let (e0, l0) = text_cmp_le(&x.0, &y.0);
    if !e0 {
        return l0;
    }
    let (e1, l1) = text_cmp_le(&x.1, &y.1);
    if !e1 {
        return l1;
    }
    let (e2, l2) = text_cmp_le(&x.2, &y.2);
    if !e2 {
        return l2;
    }
    x.3 <= y.3
}

/// Sort triple-text keys ascending.
pub fn sort_keys3(items: &Vec<(String, String, String, u64)>) -> (r: Vec<(String, String, String, u64)>)
    ensures
        keys3_view(r@) == keys3_view(items@).sort_by(
            |x: (Seq<char>, Seq<char>, Seq<char>, int), y: (Seq<char>, Seq<char>, Seq<char>, int)| key3_le(x, y),
        ),
{
    let ghost leq = |x: (Seq<char>, Seq<char>, Seq<char>, int), y: (Seq<char>, Seq<char>, Seq<char>, int)| key3_le(x, y);
    proof {
        lemma_key3_total_ordering();
    }
    let mut out: Vec<(String, String, String, u64)> = Vec::new();
    let mut i: usize = 0;
    proof {
        broadcast use vstd::seq_lib::group_to_multiset_ensures;
        assert(keys3_view(items@.subrange(0, 0)) =~= keys3_view(out@));
    }
    while i < items.len()
        invariant
            i <= items.len(),
            total_ordering(leq),
            leq == (|x: (Seq<char>, Seq<char>, Seq<char>, int), y: (Seq<char>, Seq<char>, Seq<char>, int)| key3_le(x, y)),
            sorted_by(keys3_view(out@), leq),
            keys3_view(out@).to_multiset() == keys3_view(items@.subrange(0, i as int)).to_multiset(),
        decreases items.len() - i,
    {
        let x = (items[i].0.clone(), items[i].1.clone(), items[i].2.clone(), items[i].3);
        let mut p: usize = 0;
        while p < out.len() && key3_le_exec(&out[p], &x)
            invariant
                p <= out.len(),
                forall|j: int| 0 <= j < p ==> key3_le(key3_view(out@[j]), key3_view(x)),
            decreases out.len() - p,
        {
            p += 1;
        }
        let ghost before = keys3_view(out@);
        out.insert(p, x);
        proof {
            let kx = key3_view(x);
            assert(keys3_view(out@) =~= before.insert(p as int, kx));
            vstd::seq_lib::to_multiset_insert(before, p as int, kx);
            let pre = items@.subrange(0, i as int);
            let nxt = items@.subrange(0, i + 1);
            assert(keys3_view(nxt) =~= keys3_view(pre).push(kx));
            vstd::seq_lib::to_multiset_build(keys3_view(pre), kx);
            assert forall|a: int, b: int| 0 <= a < b < keys3_view(out@).len() implies #[trigger] leq(
                keys3_view(out@)[a],
                keys3_view(out@)[b],
            ) by {
                let s = keys3_view(out@);
                if a < p && b < p {
                    assert(s[a] == before[a] && s[b] == before[b]);
                    assert(leq(before[a], before[b]));
                } else if a < p && b == p {
                    assert(s[a] == before[a]);
                    assert(s[b] == kx);
                } else if a < p && b > p {
                    assert(s[a] == before[a] && s[b] == before[b - 1]);
                    assert(leq(before[a], before[b - 1]));
                } else if a == p {
                    assert(s[a] == kx);
                    assert(s[b] == before[b - 1]);
                    assert(!leq(before[p as int], kx));
                    assert(leq(kx, before[p as int]));
                    if b - 1 > p {
                        assert(leq(before[p as int], before[b - 1]));
                    }
                } else {
                    assert(s[a] == before[a - 1] && s[b] == before[b - 1]);
                    assert(leq(before[a - 1], before[b - 1]));
                }
            }
        }
        i += 1;
    }
    proof {
        assert(items@.subrange(0, items@.len() as int) =~= items@);
        keys3_view(items@).lemma_sort_by_ensures(leq);
        vstd::seq_lib::lemma_sorted_unique(keys3_view(out@), keys3_view(items@).sort_by(leq), leq);
    }
    out
}

} // verus!
