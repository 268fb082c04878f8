//! Host-side impose planning: the right-associated divider tree of a
//! layout, the targeted tree edit between two renders, divider fractions,
//! and divider drag holds.
//!
//! Divider fractions are exact ratios of cell counts, kept within
//! `[1/20, 19/20]`.
use vstd::prelude::*;

use crate::layout::{
    extent, imax, is_horizontal, is_pane, pane_ids, split_specs, splits_view, tree_ok, walk, LayoutNode, Ratio,
    ratio_view, SplitSpec,
};
use crate::text::{opt_str_view, opt_view, owned, str_eq, strings_view};

verus! {

/// Same split kinds and nesting, and the same pane ids at the leaves.
pub open spec fn same_shape(a: LayoutNode, b: LayoutNode) -> bool
    decreases a, 1int,
{
    a.kind@ == b.kind@ && if is_pane(a) {
        opt_view(a.pane_id) == opt_view(b.pane_id)
    } else {
        same_shape_list(a.children@, b.children@)
    }
}

pub open spec fn same_shape_list(a: Seq<LayoutNode>, b: Seq<LayoutNode>) -> bool
    decreases a, 0int,
{
    a.len() == b.len() && (a.len() == 0 || (same_shape_list(a.drop_last(), b.drop_last())
        && same_shape(a.last(), b.last())))
}

/// Whether two trees have the same shape and pane ids (geometry aside).
/// The answer does not depend on the order of the two trees, and when it
/// is `true` both trees list the same pane ids in the same order (see
/// [`law_same_shape`]).
pub fn same_shape_and_pane_ids(lhs: &LayoutNode, rhs: &LayoutNode) -> (r: bool)
    ensures
        r == same_shape(*lhs, *rhs),
        r == same_shape(*rhs, *lhs),
        r ==> pane_ids(*lhs) == pane_ids(*rhs),
{
    proof {
        law_same_shape(*lhs, *rhs);
    }
    shape_eq(lhs, rhs)
}

fn shape_eq(lhs: &LayoutNode, rhs: &LayoutNode) -> (r: bool)
    ensures
        r == same_shape(*lhs, *rhs),
    decreases lhs,
{
    if !str_eq(lhs.kind.as_str(), rhs.kind.as_str()) {
        return false;
    }
    if str_eq(lhs.kind.as_str(), "pane") {
        return match (&lhs.pane_id, &rhs.pane_id) {
            (Some(a), Some(b)) => str_eq(a.as_str(), b.as_str()),
            (None, None) => true,
            _ => false,
        };
    }
    if lhs.children.len() != rhs.children.len() {
        return false;
    }
    let mut i: usize = 0;
    while i < lhs.children.len()
        invariant
            i <= lhs.children.len(),
            lhs.children.len() == rhs.children.len(),
            !is_pane(*lhs),
            lhs.kind@ == rhs.kind@,
            same_shape_list(lhs.children@.subrange(0, i as int), rhs.children@.subrange(0, i as int)),
        decreases lhs.children.len() - i,
    {
        assert(lhs.children@.subrange(0, i + 1).drop_last() =~= lhs.children@.subrange(0, i as int));
        assert(rhs.children@.subrange(0, i + 1).drop_last() =~= rhs.children@.subrange(0, i as int));
        if !shape_eq(&lhs.children[i], &rhs.children[i]) {
            assert(!same_shape(lhs.children@[i as int], rhs.children@[i as int]));
            proof {
                if same_shape_list(lhs.children@, rhs.children@) {
                    lemma_same_list_at(lhs.children@, rhs.children@, i as int);
                }
            }
            assert(!is_pane(*lhs));
            return false;
        }
        i += 1;
    }
    assert(lhs.children@.subrange(0, i as int) =~= lhs.children@);
    assert(rhs.children@.subrange(0, i as int) =~= rhs.children@);
    true
}

/// Pairwise sameness holds at every position.
pub proof fn lemma_same_list_at(a: Seq<LayoutNode>, b: Seq<LayoutNode>, i: int)
    requires
        0 <= i < a.len(),
        same_shape_list(a, b),
    ensures
        same_shape(a[i], b[i]),
    decreases a.len(),
{
    if i < a.len() - 1 {
        assert(a.drop_last()[i] == a[i]);
        assert(b.drop_last()[i] == b[i]);
        lemma_same_list_at(a.drop_last(), b.drop_last(), i);
    }
}

/// Sameness of shape is reflexive and symmetric, and two trees of the same
/// shape list the same pane ids in the same order.
pub proof fn law_same_shape(a: LayoutNode, b: LayoutNode)
    ensures
        same_shape(a, a),
        same_shape(a, b) == same_shape(b, a),
        same_shape(a, b) ==> pane_ids(a) == pane_ids(b),
    decreases a, 1int,
{
    if !is_pane(a) {
        law_same_shape_list(a.children@, b.children@);
    }
}

/// [`law_same_shape`] for lists of children, position by position.
pub proof fn law_same_shape_list(a: Seq<LayoutNode>, b: Seq<LayoutNode>)
    ensures
        same_shape_list(a, a),
        same_shape_list(a, b) == same_shape_list(b, a),
        same_shape_list(a, b) ==> crate::layout::pane_ids_list(a) == crate::layout::pane_ids_list(b),
    decreases a, 0int,
{
    if a.len() > 0 {
        law_same_shape_list(a.drop_last(), b.drop_last());
        law_same_shape(a.last(), b.last());
    }
}

// ---- divider fractions ------------------------------------------------------------

/// The positive part of a span.
pub open spec fn pos(x: int) -> int {
    if x > 0 {
        x
    } else {
        0
    }
}

/// Sum of the positive parts of spans.
pub open spec fn span_total(s: Seq<i64>) -> int
    decreases s.len(),
{
    if s.len() == 0 {
        0
    } else {
        span_total(s.drop_last()) + pos(s.last() as int)
    }
}

/// `num / den` kept within `[1/20, 19/20]`.
pub open spec fn clamp_spec(num: int, den: int) -> (int, int) {
    if 20 * num < den {
        (1, 20)
    } else if 20 * num > 19 * den {
        (19, 20)
    } else {
        (num, den)
    }
}

/// The first span's share of a divider: `first / (first + rest + 1)`, the
/// one cell being the divider itself, with negative spans taken as empty;
/// clamped (see [`clamp_spec`]).
pub open spec fn fraction_spec(first: int, rest: int) -> (int, int) {
    let f = pos(first);
    let r = pos(rest);
    clamp_spec(f, imax(f + r + 1, 1))
}

/// Largest total of positive `i64` spans over any slice.
spec fn total_bound() -> int {
    0x1_0000_0000_0000_0000int * 0x7fff_ffff_ffff_ffffint
}

/// [`fraction_spec`] of a first span and an already summed rest.
fn divider_fraction_totals(first_span: i64, rest_span: i128) -> (r: Ratio)
    requires
        0 <= rest_span <= total_bound(),
    ensures
        ratio_view(r) == fraction_spec(first_span as int, rest_span as int),
        r.den > 0,
{
    let f: i128 = if first_span > 0 {
        first_span as i128
    } else {
        0
    };
    let den: i128 = f + rest_span + 1;
    if 20 * f < den {
        Ratio { num: 1, den: 20 }
    } else if rest_span < f && 20 * f > 19 * den {
        Ratio { num: 19, den: 20 }
    } else {
        Ratio { num: f, den }
    }
}

/// The divider fraction of a first span against the spans after it (see
/// [`fraction_spec`]).
pub fn divider_fraction(first_span: i64, rest_spans: &[i64]) -> (r: Ratio)
    ensures
        ratio_view(r) == fraction_spec(first_span as int, span_total(rest_spans@)),
        r.den > 0,
{
    let mut rest: i128 = 0;
    let mut i: usize = 0;
    while i < rest_spans.len()
        invariant
            i <= rest_spans.len(),
            rest == span_total(rest_spans@.subrange(0, i as int)),
            0 <= rest <= i * 0x7fff_ffff_ffff_ffff,
        decreases rest_spans.len() - i,
    {
        assert(rest_spans@.subrange(0, i + 1).drop_last() =~= rest_spans@.subrange(0, i as int));
        let x = rest_spans[i];
        if x > 0 {
            rest = rest + x as i128;
        }
        i += 1;
    }
    assert(rest_spans@.subrange(0, i as int) =~= rest_spans@);
    divider_fraction_totals(first_span, rest)
}

// ---- targeted tree edits ----------------------------------------------------------

/// Orientation name of a split axis.
pub open spec fn orient(horizontal: bool) -> Seq<char> {
    if horizontal {
        "horizontal"@
    } else {
        "vertical"@
    }
}

/// The non-empty pane id of a leaf.
pub open spec fn leaf_id(n: LayoutNode) -> Option<Seq<char>> {
    match n.pane_id {
        Some(id) => if id@.len() > 0 {
            Some(id@)
        } else {
            None
        },
        None => None,
    }
}

/// A split of exactly two leaves with ids: its orientation, the two ids in
/// order, and the first leaf's divider fraction.
pub open spec fn two_leaf(n: LayoutNode) -> Option<(Seq<char>, Seq<Seq<char>>, (int, int))> {
    if is_pane(n) || n.children@.len() != 2 {
        None
    } else {
        let a = n.children@[0];
        let b = n.children@[1];
        if is_pane(a) && is_pane(b) && leaf_id(a) is Some && leaf_id(b) is Some {
            let h = is_horizontal(n);
            Some(
                (
                    orient(h),
                    seq![leaf_id(a).unwrap(), leaf_id(b).unwrap()],
                    fraction_spec(extent(a.rect, h), pos(extent(b.rect, h))),
                ),
            )
        } else {
            None
        }
    }
}

/// One leaf of the old tree became a split of itself and the added pane:
/// existing id, new id, orientation, whether the new pane comes first, and
/// the divider fraction.
#[derive(Debug)]
pub struct LeafExpansion {
    pub existing_pane_id: String,
    pub new_pane_id: String,
    pub orientation: String,
    pub insert_first: bool,
    pub fraction: Ratio,
}

pub open spec fn expansion_view(e: LeafExpansion) -> (Seq<char>, Seq<char>, Seq<char>, bool, (int, int)) {
    (e.existing_pane_id@, e.new_pane_id@, e.orientation@, e.insert_first, ratio_view(e.fraction))
}

pub open spec fn opt_expansion_view(e: Option<LeafExpansion>) -> Option<
    (Seq<char>, Seq<char>, Seq<char>, bool, (int, int)),
> {
    match e {
        Some(x) => Some(expansion_view(x)),
        None => None,
    }
}

/// Where `added` expands a leaf of `old` into a two-leaf split of `new`:
/// walking both trees in step while kinds and child counts agree, the first
/// old leaf whose counterpart is a two-leaf split of that leaf and `added`.
pub open spec fn expansion(old: LayoutNode, new: LayoutNode, added: Seq<char>) -> Option<
    (Seq<char>, Seq<char>, Seq<char>, bool, (int, int)),
>
    decreases old, 1int,
{
    if is_pane(old) {
        match (leaf_id(old), two_leaf(new)) {
            (Some(id), Some(split)) => if split.1.contains(id) && split.1.contains(added) {
                Some((id, added, split.0, split.1[0] == added, split.2))
            } else {
                None
            },
            _ => None,
        }
    } else if (old.kind@ == "horizontal"@ || old.kind@ == "vertical"@) && old.kind@ == new.kind@
        && old.children@.len() == new.children@.len() {
        expansion_list(old.children@, new.children@, added)
    } else {
        None
    }
}

pub open spec fn expansion_list(olds: Seq<LayoutNode>, news: Seq<LayoutNode>, added: Seq<char>) -> Option<
    (Seq<char>, Seq<char>, Seq<char>, bool, (int, int)),
>
    decreases olds, 0int,
{
    if olds.len() == 0 {
        None
    } else {
        match expansion_list(olds.drop_last(), news.drop_last(), added) {
            Some(e) => Some(e),
            None => expansion(olds.last(), news.last(), added),
        }
    }
}

/// A match found in a prefix is the match of the whole list.
proof fn lemma_expansion_prefix(olds: Seq<LayoutNode>, news: Seq<LayoutNode>, k: int, added: Seq<char>)
    requires
        0 <= k <= olds.len(),
        olds.len() == news.len(),
        expansion_list(olds.subrange(0, k), news.subrange(0, k), added) is Some,
    ensures
        expansion_list(olds, news, added) == expansion_list(olds.subrange(0, k), news.subrange(0, k), added),
    decreases olds.len() - k,
{
    if k < olds.len() {
        let o = olds.subrange(0, k + 1);
        let n = news.subrange(0, k + 1);
        assert(o.drop_last() =~= olds.subrange(0, k));
        assert(n.drop_last() =~= news.subrange(0, k));
        lemma_expansion_prefix(olds, news, k + 1, added);
    } else {
        assert(olds.subrange(0, k) =~= olds);
        assert(news.subrange(0, k) =~= news);
    }
}

fn orientation_name(horizontal: bool) -> (r: String)
    ensures
        r@ == orient(horizontal),
{
    if horizontal {
        owned("horizontal")
    } else {
        owned("vertical")
    }
}

fn leaf_id_of(n: &LayoutNode) -> (r: Option<String>)
    ensures
        opt_view(r) == leaf_id(*n),
{
    match &n.pane_id {
        Some(id) => if !id.as_str().is_empty() {
            Some(id.clone())
        } else {
            None
        },
        None => None,
    }
}

fn span_of(n: &LayoutNode, horizontal: bool) -> (r: i64)
    ensures
        r == extent(n.rect, horizontal),
{
    if horizontal {
        n.rect.width
    } else {
        n.rect.height
    }
}

/// The two-leaf split of `node`, if it is one (see [`two_leaf`]).
fn two_leaf_split(node: &LayoutNode) -> (r: Option<(String, Vec<String>, Ratio)>)
    ensures
        match r {
            Some(x) => two_leaf(*node) == Some((x.0@, strings_view(x.1@), ratio_view(x.2))),
            None => two_leaf(*node) is None,
        },
{
    if node.is_leaf() || node.children.len() != 2 {
        return None;
    }
    let a = &node.children[0];
    let b = &node.children[1];
    if !a.is_leaf() || !b.is_leaf() {
        return None;
    }
    let ida = match leaf_id_of(a) {
        Some(x) => x,
        None => return None,
    };
    let idb = match leaf_id_of(b) {
        Some(x) => x,
        None => return None,
    };
    let h = str_eq(node.kind.as_str(), "horizontal");
    let second = span_of(b, h);
    let rest: i128 = if second > 0 {
        second as i128
    } else {
        0
    };
    let fraction = divider_fraction_totals(span_of(a, h), rest);
    let mut ids: Vec<String> = Vec::new();
    ids.push(ida);
    ids.push(idb);
    assert(strings_view(ids@) =~= seq![leaf_id(*a).unwrap(), leaf_id(*b).unwrap()]);
    Some((orientation_name(h), ids, fraction))
}

/// The targeted one-leaf expansion that turns `old_node` into `new_node` by
/// adding `added_pane_id` (see [`expansion`]).
pub fn leaf_expansion(old_node: &LayoutNode, new_node: &LayoutNode, added_pane_id: &str) -> (r: Option<
    LeafExpansion,
>)
    ensures
        opt_expansion_view(r) == expansion(*old_node, *new_node, added_pane_id@),
    decreases old_node,
{
    if old_node.is_leaf() {
        let old_id = match leaf_id_of(old_node) {
            Some(x) => x,
            None => return None,
        };
        let (orientation, ids, fraction) = match two_leaf_split(new_node) {
            Some(x) => x,
            None => return None,
        };
        let has_old = crate::text::contains_str(&ids, old_id.as_str());
        let has_new = crate::text::contains_str(&ids, added_pane_id);
        if has_old && has_new {
            let first = str_eq(ids[0].as_str(), added_pane_id);
            return Some(
                LeafExpansion {
                    existing_pane_id: old_id,
                    new_pane_id: owned(added_pane_id),
                    orientation,
                    insert_first: first,
                    fraction,
                },
            );
        }
        return None;
    }
    let kind_ok = str_eq(old_node.kind.as_str(), "horizontal") || str_eq(old_node.kind.as_str(), "vertical");
    if !kind_ok || !str_eq(old_node.kind.as_str(), new_node.kind.as_str()) || old_node.children.len()
        != new_node.children.len() {
        return None;
    }
    let mut i: usize = 0;
    while i < old_node.children.len()
        invariant
            i <= old_node.children.len(),
            old_node.children.len() == new_node.children.len(),
            expansion(*old_node, *new_node, added_pane_id@) == expansion_list(
                old_node.children@,
                new_node.children@,
                added_pane_id@,
            ),
            expansion_list(
                old_node.children@.subrange(0, i as int),
                new_node.children@.subrange(0, i as int),
                added_pane_id@,
            ) is None,
        decreases old_node.children.len() - i,
    {
        proof {
            assert(decreases_to!(old_node => old_node.children));
            assert(decreases_to!(old_node.children => old_node.children@));
            assert(decreases_to!(old_node.children@ => old_node.children@[i as int]));
        }
        let found = leaf_expansion(&old_node.children[i], &new_node.children[i], added_pane_id);
        let ghost o = old_node.children@.subrange(0, i + 1);
        let ghost n = new_node.children@.subrange(0, i + 1);
        assert(o.drop_last() =~= old_node.children@.subrange(0, i as int));
        assert(n.drop_last() =~= new_node.children@.subrange(0, i as int));
        assert(o.last() == old_node.children@[i as int]);
        assert(n.last() == new_node.children@[i as int]);
        if found.is_some() {
            proof {
                lemma_expansion_prefix(old_node.children@, new_node.children@, i + 1, added_pane_id@);
            }
            return found;
        }
        i += 1;
    }
    assert(old_node.children@.subrange(0, i as int) =~= old_node.children@);
    assert(new_node.children@.subrange(0, i as int) =~= new_node.children@);
    None
}

/// The kind of tree edit a host applies between two renders: `rebuild`,
/// `keep`, `expand_leaf` (with its expansion) or `remove_leaf` (with the
/// removed pane).
#[derive(Debug)]
pub struct TreeAction {
    pub kind: String,
    pub expansion: Option<LeafExpansion>,
    pub removed_pane_id: Option<String>,
}

impl TreeAction {
    fn simple(kind: &str) -> (r: TreeAction)
        ensures
            action_view(r) == (kind@, None::<(Seq<char>, Seq<char>, Seq<char>, bool, (int, int))>, None::<Seq<char>>),
    {
        TreeAction { kind: owned(kind), expansion: None, removed_pane_id: None }
    }
}

pub open spec fn action_view(a: TreeAction) -> (
    Seq<char>,
    Option<(Seq<char>, Seq<char>, Seq<char>, bool, (int, int))>,
    Option<Seq<char>>,
) {
    (a.kind@, opt_expansion_view(a.expansion), opt_view(a.removed_pane_id))
}

/// The distinct pane ids of a tree.
pub open spec fn id_set(n: LayoutNode) -> Set<Seq<char>> {
    pane_ids(n).to_set()
}

pub open spec fn opt_node(o: Option<&LayoutNode>) -> Option<LayoutNode> {
    match o {
        Some(n) => Some(*n),
        None => None,
    }
}

/// The edit from the previous render to the current one: rebuild without a
/// previous render; keep when shape and pane ids agree; expand a leaf when
/// exactly one distinct pane id was added and it expands a leaf (see
/// [`expansion`]); remove a leaf when exactly one distinct pane id was
/// removed; otherwise rebuild.
pub open spec fn tree_action_spec(prev: Option<LayoutNode>, cur: LayoutNode) -> (
    Seq<char>,
    Option<(Seq<char>, Seq<char>, Seq<char>, bool, (int, int))>,
    Option<Seq<char>>,
) {
    match prev {
        None => ("rebuild"@, None, None),
        Some(p) => if same_shape(p, cur) {
            ("keep"@, None, None)
        } else {
            let olds = id_set(p);
            let news = id_set(cur);
            let added = news.difference(olds);
            let removed = olds.difference(news);
            if news.len() == olds.len() + 1 && added.len() == 1 && expansion(p, cur, added.choose()) is Some {
                ("expand_leaf"@, expansion(p, cur, added.choose()), None)
            } else if olds.len() == news.len() + 1 && removed.len() == 1 {
                ("remove_leaf"@, None, Some(removed.choose()))
            } else {
                ("rebuild"@, None, None)
            }
        },
    }
}

/// The distinct strings of `v`, first occurrences in order.
fn distinct_strings(v: &Vec<String>) -> (r: Vec<String>)
    ensures
        strings_view(r@).no_duplicates(),
        strings_view(r@).to_set() == strings_view(v@).to_set(),
{
    let mut r: Vec<String> = Vec::new();
    let mut i: usize = 0;
    while i < v.len()
        invariant
            i <= v.len(),
            strings_view(r@).no_duplicates(),
            forall|x: Seq<char>| strings_view(r@).contains(x) <==> strings_view(v@.subrange(0, i as int)).contains(x),
        decreases v.len() - i,
    {
        let ghost pre = strings_view(v@.subrange(0, i as int));
        assert(strings_view(v@.subrange(0, i + 1)) =~= pre.push(v@[i as int]@));
        if !crate::text::contains_str(&r, v[i].as_str()) {
            let ghost before = strings_view(r@);
            assert(forall|x: Seq<char>| before.contains(x) <==> pre.contains(x));
            r.push(v[i].clone());
            assert(strings_view(r@) =~= before.push(v@[i as int]@));
            assert forall|x: Seq<char>| strings_view(r@).contains(x) <==> pre.push(v@[i as int]@).contains(x) by {
                if strings_view(r@).contains(x) {
                    let k = choose|k: int| 0 <= k < strings_view(r@).len() && strings_view(r@)[k] == x;
                    if k < before.len() {
                        assert(before[k] == x);
                        assert(pre.contains(x));
                        let j = choose|j: int| 0 <= j < pre.len() && pre[j] == x;
                        assert(pre.push(v@[i as int]@)[j] == x);
                    } else {
                        assert(pre.push(v@[i as int]@)[pre.len() as int] == x);
                    }
                }
                if pre.push(v@[i as int]@).contains(x) {
                    let k = choose|k: int| 0 <= k < pre.len() + 1 && pre.push(v@[i as int]@)[k] == x;
                    if k < pre.len() {
                        assert(pre[k] == x);
                        assert(before.contains(x));
                        let j = choose|j: int| 0 <= j < before.len() && before[j] == x;
                        assert(strings_view(r@)[j] == x);
                    } else {
                        assert(strings_view(r@)[before.len() as int] == x);
                    }
                }
            }
        } else {
            assert forall|x: Seq<char>| strings_view(r@).contains(x) <==> pre.push(v@[i as int]@).contains(x) by {
                if pre.push(v@[i as int]@).contains(x) {
                    let k = choose|k: int| 0 <= k < pre.len() + 1 && pre.push(v@[i as int]@)[k] == x;
                    if k < pre.len() {
                        assert(pre[k] == x);
                    }
                }
                if strings_view(r@).contains(x) {
                    assert(pre.contains(x));
                    let j = choose|j: int| 0 <= j < pre.len() && pre[j] == x;
                    assert(pre.push(v@[i as int]@)[j] == x);
                }
            }
        }
        i += 1;
    }
    assert(v@.subrange(0, i as int) =~= v@);
    assert(strings_view(r@).to_set() =~= strings_view(v@).to_set());
    r
}

/// The strings of `a` (distinct) that are not in `b`, in order.
fn missing_from(a: &Vec<String>, b: &Vec<String>) -> (r: Vec<String>)
    requires
        strings_view(a@).no_duplicates(),
    ensures
        strings_view(r@).no_duplicates(),
        strings_view(r@).to_set() == strings_view(a@).to_set().difference(strings_view(b@).to_set()),
{
    let mut r: Vec<String> = Vec::new();
    let mut i: usize = 0;
    while i < a.len()
        invariant
            i <= a.len(),
            strings_view(a@).no_duplicates(),
            strings_view(r@).no_duplicates(),
            forall|x: Seq<char>| strings_view(r@).contains(x) <==> (strings_view(a@.subrange(0, i as int)).contains(x)
                && !strings_view(b@).contains(x)),
        decreases a.len() - i,
    {
        let ghost pre = strings_view(a@.subrange(0, i as int));
        let ghost x0 = a@[i as int]@;
        assert(strings_view(a@.subrange(0, i + 1)) =~= pre.push(x0));
        assert(!pre.contains(x0)) by {
            if pre.contains(x0) {
                let j = choose|j: int| 0 <= j < pre.len() && pre[j] == x0;
                assert(strings_view(a@)[j] == strings_view(a@)[i as int]);
            }
        }
        if !crate::text::contains_str(b, a[i].as_str()) {
            let ghost before = strings_view(r@);
            assert(forall|x: Seq<char>| before.contains(x) <==> (pre.contains(x) && !strings_view(b@).contains(x)));
            r.push(a[i].clone());
            assert(strings_view(r@) =~= before.push(x0));
            assert(!before.contains(x0));
            assert forall|x: Seq<char>| strings_view(r@).contains(x) <==> (pre.push(x0).contains(x)
                && !strings_view(b@).contains(x)) by {
                if strings_view(r@).contains(x) {
                    let k = choose|k: int| 0 <= k < strings_view(r@).len() && strings_view(r@)[k] == x;
                    if k < before.len() {
                        assert(before[k] == x);
                        assert(before.contains(x));
                        let j = choose|j: int| 0 <= j < pre.len() && pre[j] == x;
                        assert(pre.push(x0)[j] == x);
                    } else {
                        assert(pre.push(x0)[pre.len() as int] == x);
                    }
                }
                if pre.push(x0).contains(x) && !strings_view(b@).contains(x) {
                    let k = choose|k: int| 0 <= k < pre.len() + 1 && pre.push(x0)[k] == x;
                    if k < pre.len() {
                        assert(pre[k] == x);
                        assert(before.contains(x));
                        let j = choose|j: int| 0 <= j < before.len() && before[j] == x;
                        assert(strings_view(r@)[j] == x);
                    } else {
                        assert(strings_view(r@)[before.len() as int] == x);
                    }
                }
            }
        } else {
            assert forall|x: Seq<char>| strings_view(r@).contains(x) <==> (pre.push(x0).contains(x)
                && !strings_view(b@).contains(x)) by {
                if pre.push(x0).contains(x) && !strings_view(b@).contains(x) {
                    let k = choose|k: int| 0 <= k < pre.len() + 1 && pre.push(x0)[k] == x;
                    if k < pre.len() {
                        assert(pre[k] == x);
                    }
                }
                if strings_view(r@).contains(x) {
                    assert(pre.contains(x));
                    let j = choose|j: int| 0 <= j < pre.len() && pre[j] == x;
                    assert(pre.push(x0)[j] == x);
                }
            }
        }
        i += 1;
    }
    assert(a@.subrange(0, i as int) =~= a@);
    assert(strings_view(r@).to_set() =~= strings_view(a@).to_set().difference(strings_view(b@).to_set()));
    r
}

/// A set of one element chooses that element.
proof fn lemma_single_choose(s: Set<Seq<char>>, x: Seq<char>)
    requires
        s.finite(),
        s.len() == 1,
        s.contains(x),
    ensures
        s.choose() == x,
{
    Set::lemma_is_singleton(s);
}

/// The tree edit from `previous_rendered` to `rendered` (see
/// [`tree_action_spec`]).
pub fn tree_action(previous_rendered: Option<&LayoutNode>, rendered: &LayoutNode) -> (r: TreeAction)
    ensures
        action_view(r) == tree_action_spec(opt_node(previous_rendered), *rendered),
{
    let previous = match previous_rendered {
        Some(p) => p,
        None => {
            proof {
                reveal_strlit("rebuild");
            }
            return TreeAction::simple("rebuild");
        },
    };
    if same_shape_and_pane_ids(previous, rendered) {
        return TreeAction::simple("keep");
    }
    let old_ids = previous.pane_ids_in_order();
    let new_ids = rendered.pane_ids_in_order();
    let old_u = distinct_strings(&old_ids);
    let new_u = distinct_strings(&new_ids);
    let added = missing_from(&new_u, &old_ids);
    let removed = missing_from(&old_u, &new_ids);
    let ghost olds = id_set(*previous);
    let ghost news = id_set(*rendered);
    proof {
        strings_view(old_u@).unique_seq_to_set();
        strings_view(new_u@).unique_seq_to_set();
        strings_view(added@).unique_seq_to_set();
        strings_view(removed@).unique_seq_to_set();
        assert(strings_view(old_u@).len() == old_u@.len());
        assert(strings_view(new_u@).len() == new_u@.len());
        assert(strings_view(added@).len() == added@.len());
        assert(strings_view(removed@).len() == removed@.len());
    }
    if new_u.len() > old_u.len() && new_u.len() - old_u.len() == 1 && added.len() == 1 {
        proof {
            assert(strings_view(added@)[0] == added@[0]@);
            assert(strings_view(added@).to_set().contains(added@[0]@));
            lemma_single_choose(news.difference(olds), added@[0]@);
        }
        let found = leaf_expansion(previous, rendered, added[0].as_str());
        match found {
            Some(e) => {
                return TreeAction { kind: owned("expand_leaf"), expansion: Some(e), removed_pane_id: None };
            },
            None => {},
        }
    }
    if old_u.len() > new_u.len() && old_u.len() - new_u.len() == 1 && removed.len() == 1 {
        proof {
            assert(strings_view(removed@)[0] == removed@[0]@);
            assert(strings_view(removed@).to_set().contains(removed@[0]@));
            lemma_single_choose(olds.difference(news), removed@[0]@);
        }
        return TreeAction {
            kind: owned("remove_leaf"),
            expansion: None,
            removed_pane_id: Some(removed[0].clone()),
        };
    }
    TreeAction::simple("rebuild")
}

// ---- the divider tree -------------------------------------------------------------

/// A leaf of the divider tree: a pane id (empty for an empty split).
#[derive(Debug)]
pub struct DividerLeaf {
    pub pane_id: String,
}

/// A binary divider: its orientation, the first side's fraction, and the
/// two sides.
#[derive(Debug)]
pub struct DividerSplit {
    pub orientation: String,
    pub fraction: Ratio,
    pub first: Box<DividerNode>,
    pub second: Box<DividerNode>,
}

/// The right-associated binary view of a layout tree.
#[derive(Debug)]
pub enum DividerNode {
    Leaf(DividerLeaf),
    Split(DividerSplit),
}

/// Ghost shape of a divider tree.
pub enum DividerShape {
    Leaf(Seq<char>),
    Split(Seq<char>, (int, int), Box<DividerShape>, Box<DividerShape>),
}

pub open spec fn divider_view(d: DividerNode) -> DividerShape
    decreases d,
{
    match d {
        DividerNode::Leaf(l) => DividerShape::Leaf(l.pane_id@),
        DividerNode::Split(s) => DividerShape::Split(
            s.orientation@,
            ratio_view(s.fraction),
            Box::new(divider_view(*s.first)),
            Box::new(divider_view(*s.second)),
        ),
    }
}

/// Spans of children along an axis.
pub open spec fn spans_of(cs: Seq<LayoutNode>, h: bool) -> Seq<i64> {
    cs.map_values(|c: LayoutNode| if h { c.rect.width } else { c.rect.height })
}

/// The divider tree of a layout: a leaf for a pane (its id, or empty); an
/// empty leaf for a split without children; a one-child split is its child;
/// otherwise the first child is split off the rest (see [`chain`]).
pub open spec fn btree(n: LayoutNode) -> DividerShape
    decreases n, 1int, 0int,
{
    if is_pane(n) {
        DividerShape::Leaf(
            match n.pane_id {
                Some(id) => id@,
                None => Seq::empty(),
            },
        )
    } else if n.children@.len() == 0 {
        DividerShape::Leaf(Seq::empty())
    } else if n.children@.len() == 1 {
        proof {
            assert(decreases_to!(n => n.children));
            assert(decreases_to!(n.children => n.children@));
            assert(decreases_to!(n.children@ => n.children@[0]));
        }
        btree(n.children@[0])
    } else {
        proof {
            assert(decreases_to!(n => n.children));
            assert(decreases_to!(n.children => n.children@));
        }
        chain(n.children@, is_horizontal(n), 0)
    }
}

/// Children `i..` of a split along `h`: child `i` against the spans of the
/// children after it, the second side being the last child itself or the
/// chain of the remaining children.
pub open spec fn chain(cs: Seq<LayoutNode>, h: bool, i: int) -> DividerShape
    decreases cs, 0int, cs.len() - i,
{
    if 0 <= i && i + 1 < cs.len() {
        proof {
            assert(decreases_to!(cs => cs[i]));
            assert(decreases_to!(cs => cs[i + 1]));
        }
        let rest = span_total(spans_of(cs, h).subrange(i + 1, cs.len() as int));
        DividerShape::Split(
            orient(h),
            fraction_spec(extent(cs[i].rect, h), rest),
            Box::new(btree(cs[i])),
            Box::new(
                if i + 2 == cs.len() {
                    btree(cs[i + 1])
                } else {
                    chain(cs, h, i + 1)
                },
            ),
        )
    } else {
        DividerShape::Leaf(Seq::empty())
    }
}

/// The right-associated divider tree of a layout (see [`btree`]).
pub fn binary_tree(node: &LayoutNode) -> (r: DividerNode)
    ensures
        divider_view(r) == btree(*node),
    decreases node, 1int, 0int,
{
    if node.is_leaf() {
        let id = match &node.pane_id {
            Some(x) => x.clone(),
            None => String::new(),
        };
        return DividerNode::Leaf(DividerLeaf { pane_id: id });
    }
    if node.children.len() == 0 {
        return DividerNode::Leaf(DividerLeaf { pane_id: String::new() });
    }
    proof {
        assert(decreases_to!(node => node.children));
        assert(decreases_to!(node.children => node.children@));
    }
    if node.children.len() == 1 {
        proof {
            assert(decreases_to!(node.children@ => node.children@[0]));
        }
        return binary_tree(&node.children[0]);
    }
    let h = str_eq(node.kind.as_str(), "horizontal");
    divider_chain(&node.children, h, 0)
}

/// The chain of children `i..` (see [`chain`]).
fn divider_chain(cs: &Vec<LayoutNode>, h: bool, i: usize) -> (r: DividerNode)
    requires
        i + 1 < cs.len(),
    ensures
        divider_view(r) == chain(cs@, h, i as int),
    decreases cs@, 0int, cs.len() - i,
{
    let ghost sp = spans_of(cs@, h);
    let mut rest: i128 = 0;
    let mut k: usize = i + 1;
    while k < cs.len()
        invariant
            i + 1 <= k <= cs.len(),
            sp == spans_of(cs@, h),
            rest == span_total(sp.subrange(i + 1, k as int)),
            0 <= rest <= (k - i - 1) * 0x7fff_ffff_ffff_ffff,
        decreases cs.len() - k,
    {
        assert(sp.subrange(i + 1, k + 1).drop_last() =~= sp.subrange(i + 1, k as int));
        assert(sp[k as int] == extent(cs@[k as int].rect, h));
        let x = span_of(&cs[k], h);
        if x > 0 {
            rest = rest + x as i128;
        }
        k += 1;
    }
    let fraction = divider_fraction_totals(span_of(&cs[i], h), rest);
    proof {
        assert(decreases_to!(cs@ => cs@[i as int]));
    }
    let first = binary_tree(&cs[i]);
    let second = if i + 2 == cs.len() {
        proof {
            assert(decreases_to!(cs@ => cs@[i + 1]));
        }
        binary_tree(&cs[i + 1])
    } else {
        divider_chain(cs, h, i + 1)
    };
    DividerNode::Split(
        DividerSplit {
            orientation: orientation_name(h),
            fraction,
            first: Box::new(first),
            second: Box::new(second),
        },
    )
}

/// Divider fractions, depth first: a split's own, then its first side's,
/// then its second side's.
pub open spec fn fractions(d: DividerShape) -> Seq<(int, int)>
    decreases d,
{
    match d {
        DividerShape::Leaf(_) => Seq::empty(),
        DividerShape::Split(_, f, a, b) => seq![f] + fractions(*a) + fractions(*b),
    }
}

pub open spec fn ratios_view(v: Seq<Ratio>) -> Seq<(int, int)> {
    v.map_values(|r: Ratio| ratio_view(r))
}

/// The divider fractions of a divider tree, depth first.
pub fn collect_fractions(node: &DividerNode) -> (r: Vec<Ratio>)
    ensures
        ratios_view(r@) == fractions(divider_view(*node)),
    decreases node,
{
    match node {
        DividerNode::Leaf(_) => {
            let r: Vec<Ratio> = Vec::new();
            assert(ratios_view(r@) =~= Seq::empty());
            r
        },
        DividerNode::Split(split) => {
            let mut out: Vec<Ratio> = Vec::new();
            out.push(split.fraction);
            let a = collect_fractions(&split.first);
            let b = collect_fractions(&split.second);
            let ghost start = out@;
            let mut i: usize = 0;
            while i < a.len()
                invariant
                    i <= a.len(),
                    out@ == start + a@.subrange(0, i as int),
                decreases a.len() - i,
            {
                out.push(a[i]);
                assert(a@.subrange(0, i + 1) == a@.subrange(0, i as int).push(a@[i as int]));
                i += 1;
            }
            let ghost mid = out@;
            let mut j: usize = 0;
            while j < b.len()
                invariant
                    j <= b.len(),
                    out@ == mid + b@.subrange(0, j as int),
                decreases b.len() - j,
            {
                out.push(b[j]);
                assert(b@.subrange(0, j + 1) == b@.subrange(0, j as int).push(b@[j as int]));
                j += 1;
            }
            assert(a@.subrange(0, a@.len() as int) =~= a@);
            assert(b@.subrange(0, b@.len() as int) =~= b@);
            assert(ratios_view(out@) =~= seq![ratio_view(split.fraction)] + ratios_view(a@) + ratios_view(b@));
            out
        },
    }
}

/// The split plan with each ratio replaced, position by position, by the
/// divider tree's fraction where there is one.
pub open spec fn overlay(
    w: Seq<(Seq<char>, Seq<char>, Seq<char>, Option<(int, int)>)>,
    f: Seq<(int, int)>,
) -> Seq<(Seq<char>, Seq<char>, Seq<char>, Option<(int, int)>)> {
    Seq::new(
        w.len(),
        |i: int|
            (
                w[i].0,
                w[i].1,
                w[i].2,
                if i < f.len() {
                    Some(f[i])
                } else {
                    w[i].3
                },
            ),
    )
}

/// The sequential split plan of `node` carrying the divider tree's
/// fractions (see [`overlay`]).
pub fn specs_with_impose_fractions(node: &LayoutNode) -> (r: Vec<SplitSpec>)
    requires
        tree_ok(*node),
    ensures
        splits_view(r@) == overlay(walk(*node), fractions(btree(*node))),
{
    let specs = split_specs(node);
    let tree = binary_tree(node);
    let fr = collect_fractions(&tree);
    let ghost w = walk(*node);
    let ghost f = fractions(btree(*node));
    let mut out: Vec<SplitSpec> = Vec::new();
    let mut i: usize = 0;
    while i < specs.len()
        invariant
            i <= specs.len(),
            splits_view(specs@) == w,
            ratios_view(fr@) == f,
            splits_view(out@) == overlay(w, f).subrange(0, i as int),
        decreases specs.len() - i,
    {
        let spec = &specs[i];
        let ratio = if i < fr.len() {
            Some(fr[i])
        } else {
            spec.ratio
        };
        let ghost before = out@;
        out.push(
            SplitSpec {
                pane_id: spec.pane_id.clone(),
                split_from_pane_id: spec.split_from_pane_id.clone(),
                direction: spec.direction.clone(),
                ratio,
            },
        );
        proof {
            assert(w[i as int] == crate::layout::split_view(specs@[i as int]));
            if (i as int) < f.len() {
                assert(f[i as int] == ratio_view(fr@[i as int]));
            }
            assert(splits_view(out@) =~= splits_view(before).push(overlay(w, f)[i as int]));
            assert(overlay(w, f).subrange(0, i + 1) =~= overlay(w, f).subrange(0, i as int).push(
                overlay(w, f)[i as int],
            ));
        }
        i += 1;
    }
    assert(overlay(w, f).subrange(0, i as int) =~= overlay(w, f));
    out
}

/// One impose pass for a host: the tree edit, the divider tree and its
/// fractions, the pane to focus, the title, and the held split (if any).
#[derive(Debug)]
pub struct ImposePlan {
    pub tree_action: TreeAction,
    pub divider_tree: DividerNode,
    pub focus_pane_id: Option<String>,
    pub title: String,
    pub held_split_key: Option<String>,
    pub fractions: Vec<Ratio>,
}

/// The impose plan of a rendered layout against the previous render.
pub fn plan_impose(
    rendered: &LayoutNode,
    previous_rendered: Option<&LayoutNode>,
    focus_pane_id: Option<&str>,
    title: &str,
    hold: Option<&DividerDragHold>,
) -> (r: ImposePlan)
    ensures
        action_view(r.tree_action) == tree_action_spec(opt_node(previous_rendered), *rendered),
        divider_view(r.divider_tree) == btree(*rendered),
        ratios_view(r.fractions@) == fractions(btree(*rendered)),
        opt_view(r.focus_pane_id) == opt_str_view(focus_pane_id),
        r.title@ == title@,
        opt_view(r.held_split_key) == match hold {
            Some(h) => Some(h.split_key@),
            None => None,
        },
{
    let divider_tree = binary_tree(rendered);
    let fractions = collect_fractions(&divider_tree);
    ImposePlan {
        tree_action: tree_action(previous_rendered, rendered),
        divider_tree,
        focus_pane_id: match focus_pane_id {
            Some(f) => Some(owned(f)),
            None => None,
        },
        title: owned(title),
        held_split_key: match hold {
            Some(h) => Some(h.split_key.clone()),
            None => None,
        },
        fractions,
    }
}

/// A fraction within the range hosts accept: `1/20 <= num/den <= 19/20`.
pub open spec fn in_range(f: (int, int)) -> bool {
    f.1 > 0 && 20 * f.0 >= f.1 && 20 * f.0 <= 19 * f.1
}

proof fn lemma_fraction_in_range(first: int, rest: int)
    ensures
        in_range(fraction_spec(first, rest)),
{
}

proof fn lemma_in_range_concat(a: Seq<(int, int)>, b: Seq<(int, int)>)
    requires
        forall|k: int| 0 <= k < a.len() ==> in_range(#[trigger] a[k]),
        forall|k: int| 0 <= k < b.len() ==> in_range(#[trigger] b[k]),
    ensures
        forall|k: int| 0 <= k < (a + b).len() ==> in_range(#[trigger] (a + b)[k]),
{
    assert forall|k: int| 0 <= k < (a + b).len() implies in_range(#[trigger] (a + b)[k]) by {
        if k < a.len() {
            assert((a + b)[k] == a[k]);
        } else {
            assert((a + b)[k] == b[k - a.len()]);
        }
    }
}

proof fn lemma_btree_in_range(n: LayoutNode)
    ensures
        forall|k: int| 0 <= k < fractions(btree(n)).len() ==> in_range(#[trigger] fractions(btree(n))[k]),
    decreases n, 1int, 0int,
{
    if is_pane(n) || n.children@.len() == 0 {
    } else if n.children@.len() == 1 {
        assert(decreases_to!(n => n.children));
        assert(decreases_to!(n.children => n.children@));
        assert(decreases_to!(n.children@ => n.children@[0]));
        lemma_btree_in_range(n.children@[0]);
    } else {
        assert(decreases_to!(n => n.children));
        assert(decreases_to!(n.children => n.children@));
        lemma_chain_in_range(n.children@, is_horizontal(n), 0);
    }
}

proof fn lemma_chain_in_range(cs: Seq<LayoutNode>, h: bool, i: int)
    ensures
        forall|k: int| 0 <= k < fractions(chain(cs, h, i)).len() ==> in_range(#[trigger] fractions(chain(cs, h, i))[k]),
    decreases cs, 0int, cs.len() - i,
{
    if 0 <= i && i + 1 < cs.len() {
        assert(decreases_to!(cs => cs[i]));
        lemma_btree_in_range(cs[i]);
        let rest = span_total(spans_of(cs, h).subrange(i + 1, cs.len() as int));
        lemma_fraction_in_range(extent(cs[i].rect, h), rest);
        let second = if i + 2 == cs.len() {
            btree(cs[i + 1])
        } else {
            chain(cs, h, i + 1)
        };
        if i + 2 == cs.len() {
            assert(decreases_to!(cs => cs[i + 1]));
            lemma_btree_in_range(cs[i + 1]);
        } else {
            lemma_chain_in_range(cs, h, i + 1);
        }
        let head = seq![fraction_spec(extent(cs[i].rect, h), rest)];
        lemma_in_range_concat(head, fractions(btree(cs[i])));
        lemma_in_range_concat(head + fractions(btree(cs[i])), fractions(second));
    }
}

/// Every divider fraction of a layout's divider tree is within the range
/// hosts accept (see [`in_range`]).
pub proof fn law_divider_fractions_in_range(n: LayoutNode)
    ensures
        forall|k: int| 0 <= k < fractions(btree(n)).len() ==> in_range(#[trigger] fractions(btree(n))[k]),
{
    lemma_btree_in_range(n);
}

/// A change of geometry alone (same split kinds, nesting and pane ids)
/// keeps the host's tree.
pub proof fn law_geometry_change_keeps_tree(previous: LayoutNode, current: LayoutNode)
    requires
        same_shape(previous, current),
    ensures
        tree_action_spec(Some(previous), current).0 == "keep"@,
{
}

/// Adding exactly one pane id is a targeted edit: when the added pane
/// expands a leaf of the previous render, the host expands that leaf.
pub proof fn law_single_addition_expands(previous: LayoutNode, current: LayoutNode, added: Seq<char>)
    requires
        !same_shape(previous, current),
        !id_set(previous).contains(added),
        id_set(current) == id_set(previous).insert(added),
        expansion(previous, current, added) is Some,
    ensures
        tree_action_spec(Some(previous), current) == (
            "expand_leaf"@,
            expansion(previous, current, added),
            None::<Seq<char>>,
        ),
{
    let olds = id_set(previous);
    let news = id_set(current);
    assert(olds.finite());
    assert(news.difference(olds) =~= set![added]);
    assert(set![added].len() == 1) by {
        assert(set![added] == Set::<Seq<char>>::empty().insert(added));
    }
    lemma_single_choose(news.difference(olds), added);
}

/// Removing exactly one pane id is a targeted edit: the host removes that
/// leaf.
pub proof fn law_single_removal_removes(previous: LayoutNode, current: LayoutNode, removed: Seq<char>)
    requires
        !same_shape(previous, current),
        !id_set(current).contains(removed),
        id_set(previous) == id_set(current).insert(removed),
    ensures
        tree_action_spec(Some(previous), current) == ("remove_leaf"@, None::<
            (Seq<char>, Seq<char>, Seq<char>, bool, (int, int)),
        >, Some(removed)),
{
    let olds = id_set(previous);
    let news = id_set(current);
    assert(news.finite());
    assert(olds.difference(news) =~= set![removed]);
    assert(set![removed].len() == 1) by {
        assert(set![removed] == Set::<Seq<char>>::empty().insert(removed));
    }
    lemma_single_choose(olds.difference(news), removed);
    assert(news.difference(olds) =~= Set::<Seq<char>>::empty());
}

/// A divider the user is dragging: the split, its axis, and the cell count
/// the drag asked for. While held, provider layouts for that split are not
/// re-imposed.
#[derive(Debug, Clone, PartialEq, Eq)]
pub struct DividerDragHold {
    pub split_key: String,
    pub axis: String,
    pub target_cells: i64,
}

impl DividerDragHold {
    /// A field-by-field copy.
    pub fn duplicate(&self) -> (r: Self)
        ensures
            r == *self,
    {
        DividerDragHold {
            split_key: self.split_key.clone(),
            axis: self.axis.clone(),
            target_cells: self.target_cells,
        }
    }
}

/// Start holding a divider at the cells it was assigned (at least one).
pub fn begin_divider_drag(split_key: &str, axis: &str, assigned_cells: i64) -> (r: DividerDragHold)
    ensures
        r.split_key@ == split_key@,
        r.axis@ == axis@,
        r.target_cells == if assigned_cells >= 1 {
            assigned_cells
        } else {
            1
        },
{
    DividerDragHold {
        split_key: owned(split_key),
        axis: owned(axis),
        target_cells: if assigned_cells >= 1 {
            assigned_cells
        } else {
            1
        },
    }
}

/// Clear a hold once the provider's assignment reaches the target, or the
/// split or its assignment has disappeared; otherwise keep it.
pub fn resolve_divider_hold(
    hold: Option<DividerDragHold>,
    assigned_cells: Option<i64>,
    split_still_exists: bool,
) -> (r: Option<DividerDragHold>)
    ensures
        r == match hold {
            None => None,
            Some(h) => if !split_still_exists || assigned_cells is None || assigned_cells
                == Some(h.target_cells) {
                None
            } else {
                Some(h)
            },
        },
{
    let hold = match hold {
        Some(h) => h,
        None => return None,
    };
    let reached = match assigned_cells {
        Some(c) => c == hold.target_cells,
        None => true,
    };
    if !split_still_exists || reached {
        None
    } else {
        Some(hold)
    }
}

} // verus!
