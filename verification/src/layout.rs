//! Pane layout trees: leaf order, structure fingerprints, reconstruction of a
//! binary split tree from pane rectangles, and the sequential split plan.
use vstd::prelude::*;

pub use crate::layout_parse::{layouts_by_tab_id, pane_is_zoomed, pane_rects_from_dicts, parse_layout, rect_from_mapping};
use crate::order::{key_le, keys_view, sort_keys};
use crate::text::{opt_view, owned, push_char, str_eq, strings_view};

verus! {

/// Cell rectangle.
#[derive(Clone, Copy, PartialEq, Eq, Debug)]
pub struct LayoutRect {
    pub x: i64,
    pub y: i64,
    pub width: i64,
    pub height: i64,
}

pub open spec fn imin(a: int, b: int) -> int {
    if a <= b {
        a
    } else {
        b
    }
}

pub open spec fn imax(a: int, b: int) -> int {
    if a >= b {
        a
    } else {
        b
    }
}

pub open spec fn coord_bound() -> int {
    0x4000_0000_0000_0000
}

/// Rectangles whose left and top edges lie strictly within ±2^62 cells and
/// whose right and bottom edges lie within ±2^62 cells, so that the extent of
/// every union of them fits in an `i64` (a machine limit; real layouts are
/// tiny).
pub open spec fn rect_ok(r: LayoutRect) -> bool {
    &&& -coord_bound() < r.x < coord_bound()
    &&& -coord_bound() < r.y < coord_bound()
    &&& -coord_bound() <= r.x + r.width <= coord_bound()
    &&& -coord_bound() <= r.y + r.height <= coord_bound()
}

/// Bounding rectangle of two rectangles; each extent is at least one cell.
pub open spec fn rect_union(a: LayoutRect, b: LayoutRect) -> (int, int, int, int) {
    let x = imin(a.x as int, b.x as int);
    let y = imin(a.y as int, b.y as int);
    let right = imax(a.x + a.width, b.x + b.width);
    let bottom = imax(a.y + a.height, b.y + b.height);
    (x, y, imax(right - x, 1), imax(bottom - y, 1))
}

impl LayoutRect {
    /// The default rectangle: origin, one cell.
    pub fn unit() -> (r: LayoutRect)
        ensures
            r == (LayoutRect { x: 0, y: 0, width: 1, height: 1 }),
    {
        LayoutRect { x: 0, y: 0, width: 1, height: 1 }
    }

    /// Bounding rectangle of `self` and `other`.
    pub fn union(&self, other: &LayoutRect) -> (r: LayoutRect)
        requires
            rect_ok(*self),
            rect_ok(*other),
        ensures
            (r.x as int, r.y as int, r.width as int, r.height as int) == rect_union(*self, *other),
            rect_ok(r),
    {
        let x = if self.x <= other.x {
            self.x
        } else {
            other.x
        };
        let y = if self.y <= other.y {
            self.y
        } else {
            other.y
        };
        let r1 = self.x + self.width;
        let r2 = other.x + other.width;
        let right = if r1 >= r2 {
            r1
        } else {
            r2
        };
        let b1 = self.y + self.height;
        let b2 = other.y + other.height;
        let bottom = if b1 >= b2 {
            b1
        } else {
            b2
        };
        let w = right - x;
        let h = bottom - y;
        LayoutRect {
            x,
            y,
            width: if w >= 1 {
                w
            } else {
                1
            },
            height: if h >= 1 {
                h
            } else {
                1
            },
        }
    }
}

/// One node of a tab's pane tree. `kind` is `pane`, `horizontal` or `vertical`.
#[derive(Debug)]
pub struct LayoutNode {
    pub kind: String,
    pub pane_id: Option<String>,
    pub children: Vec<LayoutNode>,
    pub rect: LayoutRect,
}

pub open spec fn is_pane(n: LayoutNode) -> bool {
    n.kind@ == "pane"@
}

/// Depth-first, left-to-right leaf ids.
pub open spec fn pane_ids(n: LayoutNode) -> Seq<Seq<char>>
    decreases n, 1int,
{
    if is_pane(n) {
        match n.pane_id {
            Some(id) => seq![id@],
            None => Seq::empty(),
        }
    } else {
        pane_ids_list(n.children@)
    }
}

pub open spec fn pane_ids_list(cs: Seq<LayoutNode>) -> Seq<Seq<char>>
    decreases cs, 0int,
{
    if cs.len() == 0 {
        Seq::empty()
    } else {
        pane_ids_list(cs.drop_last()) + pane_ids(cs.last())
    }
}

/// Join of texts with a separator.
pub open spec fn join(parts: Seq<Seq<char>>, sep: Seq<char>) -> Seq<char>
    decreases parts.len(),
{
    if parts.len() == 0 {
        Seq::empty()
    } else if parts.len() == 1 {
        parts[0]
    } else {
        join(parts.drop_last(), sep) + sep + parts.last()
    }
}

pub open spec fn first_char(s: Seq<char>) -> char {
    if s.len() > 0 {
        s[0]
    } else {
        '\0'
    }
}

/// Structure fingerprint: `p:<id>` for a leaf, `<k>:<child>,<child>...` for a
/// split, where `<k>` is the first character of its kind.
pub open spec fn signature(n: LayoutNode) -> Seq<char>
    decreases n, 1int,
{
    if is_pane(n) {
        "p:"@ + match n.pane_id {
            Some(id) => id@,
            None => Seq::empty(),
        }
    } else {
        seq![first_char(n.kind@), ':'] + join(signature_list(n.children@), ","@)
    }
}

pub open spec fn signature_list(cs: Seq<LayoutNode>) -> Seq<Seq<char>>
    decreases cs, 0int,
{
    if cs.len() == 0 {
        Seq::empty()
    } else {
        signature_list(cs.drop_last()).push(signature(cs.last()))
    }
}

pub proof fn lemma_signature_list_len(cs: Seq<LayoutNode>)
    ensures
        signature_list(cs).len() == cs.len(),
    decreases cs.len(),
{
    if cs.len() > 0 {
        lemma_signature_list_len(cs.drop_last());
    }
}

impl LayoutNode {
    /// A leaf node.
    pub fn leaf(pane_id: Option<String>, rect: LayoutRect) -> (r: LayoutNode)
        ensures
            is_pane(r),
            r.pane_id == pane_id,
            r.children@.len() == 0,
            r.rect == rect,
    {
        LayoutNode { kind: owned("pane"), pane_id, children: Vec::new(), rect }
    }

    pub fn is_leaf(&self) -> (r: bool)
        ensures
            r == is_pane(*self),
    {
        str_eq(self.kind.as_str(), "pane")
    }

    /// Depth-first left-to-right leaf ids.
    pub fn pane_ids_in_order(&self) -> (r: Vec<String>)
        ensures
            strings_view(r@) == pane_ids(*self),
        decreases self,
    {
        if self.is_leaf() {
            let mut out: Vec<String> = Vec::new();
            match &self.pane_id {
                Some(id) => {
                    out.push(id.clone());
                },
                None => {},
            }
            assert(strings_view(out@) =~= pane_ids(*self));
            return out;
        }
        let mut out: Vec<String> = Vec::new();
        let mut i: usize = 0;
        while i < self.children.len()
            invariant
                i <= self.children.len(),
                !is_pane(*self),
                strings_view(out@) == pane_ids_list(self.children@.subrange(0, i as int)),
            decreases self.children.len() - i,
        {
            let sub = self.children[i].pane_ids_in_order();
            let ghost before = out@;
            let mut j: usize = 0;
            while j < sub.len()
                invariant
                    j <= sub.len(),
                    out@ == before + sub@.subrange(0, j as int),
                decreases sub.len() - j,
            {
                out.push(sub[j].clone());
                assert(sub@.subrange(0, j + 1) == sub@.subrange(0, j as int).push(sub@[j as int]));
                j += 1;
            }
            assert(sub@.subrange(0, sub@.len() as int) =~= sub@);
            let ghost pre = self.children@.subrange(0, i as int);
            assert(self.children@.subrange(0, i + 1).drop_last() =~= pre);
            assert(strings_view(out@) =~= strings_view(before) + strings_view(sub@));
            i += 1;
        }
        assert(self.children@.subrange(0, self.children@.len() as int) =~= self.children@);
        out
    }

    /// Stable fingerprint of split nesting and pane ids.
    pub fn structure_signature(&self) -> (r: String)
        ensures
            r@ == signature(*self),
        decreases self,
    {
        if self.is_leaf() {
            let mut out = owned("p:");
            match &self.pane_id {
                Some(id) => out.append(id.as_str()),
                None => {},
            }
            return out;
        }
        let mut out = String::new();
        let kind = crate::text::chars_of(self.kind.as_str());
        let first = if kind.len() > 0 {
            kind[0]
        } else {
            '\0'
        };
        push_char(&mut out, first);
        push_char(&mut out, ':');
        let ghost head = out@;
        assert(head == seq![first_char(self.kind@), ':']);
        let mut i: usize = 0;
        while i < self.children.len()
            invariant
                i <= self.children.len(),
                !is_pane(*self),
                out@ == head + join(signature_list(self.children@.subrange(0, i as int)), ","@),
            decreases self.children.len() - i,
        {
            let sig = self.children[i].structure_signature();
            let ghost pre = self.children@.subrange(0, i as int);
            assert(self.children@.subrange(0, i + 1).drop_last() =~= pre);
            let ghost parts = signature_list(self.children@.subrange(0, i + 1));
            proof {
                lemma_signature_list_len(pre);
                assert(parts.drop_last() == signature_list(pre));
            }
            if i > 0 {
                out.append(",");
                out.append(sig.as_str());
                assert(out@ =~= head + join(parts, ","@));
            } else {
                out.append(sig.as_str());
                assert(parts =~= seq![sig@]);
                assert(out@ =~= head + join(parts, ","@));
            }
            i += 1;
        }
        assert(self.children@.subrange(0, self.children@.len() as int) =~= self.children@);
        out
    }
}

/// Two trees with the same kinds, pane ids, rectangles and children.
pub open spec fn node_eq(a: LayoutNode, b: LayoutNode) -> bool
    decreases a, 1int,
{
    a.kind@ == b.kind@ && opt_view(a.pane_id) == opt_view(b.pane_id) && a.rect == b.rect && nodes_eq(
        a.children@,
        b.children@,
    )
}

pub open spec fn nodes_eq(a: Seq<LayoutNode>, b: Seq<LayoutNode>) -> bool
    decreases a, 0int,
{
    a.len() == b.len() && (a.len() == 0 || (nodes_eq(a.drop_last(), b.drop_last()) && node_eq(
        a.last(),
        b.last(),
    )))
}

impl LayoutNode {
    /// A deep copy.
    pub fn duplicate(&self) -> (r: LayoutNode)
        ensures
            node_eq(r, *self),
        decreases self,
    {
        let mut children: Vec<LayoutNode> = Vec::new();
        let mut i: usize = 0;
        while i < self.children.len()
            invariant
                i <= self.children.len(),
                nodes_eq(children@, self.children@.subrange(0, i as int)),
            decreases self.children.len() - i,
        {
            proof {
                assert(decreases_to!(self => self.children));
                assert(decreases_to!(self.children => self.children@));
                assert(decreases_to!(self.children@ => self.children@[i as int]));
            }
            let c = self.children[i].duplicate();
            let ghost before = children@;
            children.push(c);
            assert(children@.drop_last() =~= before);
            assert(self.children@.subrange(0, i + 1).drop_last() =~= self.children@.subrange(0, i as int));
            i += 1;
        }
        assert(self.children@.subrange(0, i as int) =~= self.children@);
        LayoutNode {
            kind: self.kind.clone(),
            pane_id: match &self.pane_id {
                Some(p) => Some(p.clone()),
                None => None,
            },
            children,
            rect: self.rect,
        }
    }
}

/// Ghost shape of a layout tree: leaves with their pane id, splits with
/// their kind and children, each with its rectangle.
pub enum Tree {
    Leaf(Seq<char>, LayoutRect),
    Split(Seq<char>, Seq<Tree>, LayoutRect),
}

pub open spec fn tree_view(n: LayoutNode) -> Tree
    decreases n, 1int,
{
    if is_pane(n) {
        Tree::Leaf(
            match n.pane_id {
                Some(id) => id@,
                None => Seq::empty(),
            },
            n.rect,
        )
    } else {
        Tree::Split(n.kind@, tree_list(n.children@), n.rect)
    }
}

/// Every split node of `n` carries no pane id, and every pane node a
/// pane id and no children.
pub open spec fn splits_unnamed(n: LayoutNode) -> bool
    decreases n, 1int,
{
    if is_pane(n) {
        n.children@.len() == 0 && n.pane_id is Some
    } else {
        n.pane_id is None && splits_unnamed_list(n.children@)
    }
}

pub open spec fn splits_unnamed_list(cs: Seq<LayoutNode>) -> bool
    decreases cs, 0int,
{
    cs.len() == 0 || (splits_unnamed_list(cs.drop_last()) && splits_unnamed(cs.last()))
}

pub open spec fn tree_list(cs: Seq<LayoutNode>) -> Seq<Tree>
    decreases cs, 0int,
{
    if cs.len() == 0 {
        Seq::empty()
    } else {
        tree_list(cs.drop_last()).push(tree_view(cs.last()))
    }
}

pub open spec fn items_view(v: Seq<(String, LayoutRect)>) -> Seq<(Seq<char>, LayoutRect)> {
    v.map_values(|it: (String, LayoutRect)| (it.0@, it.1))
}

pub open spec fn start_of(r: LayoutRect, x_axis: bool) -> int {
    if x_axis {
        r.x as int
    } else {
        r.y as int
    }
}

pub open spec fn end_of(r: LayoutRect, x_axis: bool) -> int {
    if x_axis {
        r.x + r.width
    } else {
        r.y + r.height
    }
}

/// Sort keys `(start, pane id, position)`: the order by start then id, with
/// equal keys kept in input order.
pub open spec fn axis_keys(s: Seq<(Seq<char>, LayoutRect)>, x_axis: bool) -> Seq<
    (int, Seq<char>, int),
> {
    Seq::new(s.len(), |i: int| (start_of(s[i].1, x_axis), s[i].0, i))
}

/// Sort keys by pane id alone (stable).
pub open spec fn id_keys(s: Seq<(Seq<char>, LayoutRect)>) -> Seq<(int, Seq<char>, int)> {
    Seq::new(s.len(), |i: int| (0int, s[i].0, i))
}

/// `s` reordered as the positions in `ks` say.
pub open spec fn reorder(s: Seq<(Seq<char>, LayoutRect)>, ks: Seq<(int, Seq<char>, int)>) -> Seq<
    (Seq<char>, LayoutRect),
> {
    Seq::new(s.len(), |i: int| s[ks[i].2])
}

pub open spec fn by_keys(ks: Seq<(int, Seq<char>, int)>) -> Seq<(int, Seq<char>, int)> {
    ks.sort_by(|x: (int, Seq<char>, int), y: (int, Seq<char>, int)| key_le(x, y))
}

pub open spec fn axis_order(s: Seq<(Seq<char>, LayoutRect)>, x_axis: bool) -> Seq<
    (Seq<char>, LayoutRect),
> {
    reorder(s, by_keys(axis_keys(s, x_axis)))
}

pub open spec fn id_order(s: Seq<(Seq<char>, LayoutRect)>) -> Seq<(Seq<char>, LayoutRect)> {
    reorder(s, by_keys(id_keys(s)))
}

/// Furthest end along the axis.
pub open spec fn max_end(s: Seq<(Seq<char>, LayoutRect)>, x_axis: bool) -> int
    decreases s.len(),
{
    if s.len() <= 1 {
        end_of(s[0].1, x_axis)
    } else {
        imax(max_end(s.drop_last(), x_axis), end_of(s.last().1, x_axis))
    }
}

/// Nearest start along the axis.
pub open spec fn min_start(s: Seq<(Seq<char>, LayoutRect)>, x_axis: bool) -> int
    decreases s.len(),
{
    if s.len() <= 1 {
        start_of(s[0].1, x_axis)
    } else {
        imin(min_start(s.drop_last(), x_axis), start_of(s.last().1, x_axis))
    }
}

/// Cutting the ordered panes before position `c` separates them, allowing a
/// one-cell border between the halves.
pub open spec fn cut_ok(o: Seq<(Seq<char>, LayoutRect)>, x_axis: bool, c: int) -> bool {
    max_end(o.take(c), x_axis) <= min_start(o.skip(c), x_axis) + 1
}

/// The first separating cut at or after `c`.
pub open spec fn first_cut(o: Seq<(Seq<char>, LayoutRect)>, x_axis: bool, c: int) -> Option<int>
    decreases o.len() - c,
{
    if c >= o.len() {
        None
    } else if cut_ok(o, x_axis, c) {
        Some(c)
    } else {
        first_cut(o, x_axis, c + 1)
    }
}

pub proof fn lemma_first_cut_range(o: Seq<(Seq<char>, LayoutRect)>, x_axis: bool, c: int)
    ensures
        match first_cut(o, x_axis, c) {
            Some(k) => c <= k < o.len(),
            None => true,
        },
    decreases o.len() - c,
{
    if c < o.len() && !cut_ok(o, x_axis, c) {
        lemma_first_cut_range(o, x_axis, c + 1);
    }
}

/// Bounding rectangle of all the rectangles, folded from the first.
pub open spec fn bound_of(s: Seq<(Seq<char>, LayoutRect)>) -> LayoutRect
    decreases s.len(),
{
    if s.len() <= 1 {
        s[0].1
    } else {
        let u = rect_union(bound_of(s.drop_last()), s.last().1);
        LayoutRect { x: u.0 as i64, y: u.1 as i64, width: u.2 as i64, height: u.3 as i64 }
    }
}

pub open spec fn leaves(s: Seq<(Seq<char>, LayoutRect)>) -> Seq<Tree>
    decreases s.len(),
{
    if s.len() == 0 {
        Seq::empty()
    } else {
        leaves(s.drop_last()).push(Tree::Leaf(s.last().0, s.last().1))
    }
}

/// Binary space partition of pane rectangles: a single pane is a leaf;
/// otherwise the panes ordered left to right are cut at the first place that
/// separates them (a horizontal split), else top to bottom (a vertical
/// split); panes that no cut separates are stacked vertically in id order.
pub open spec fn bsp_spec(s: Seq<(Seq<char>, LayoutRect)>) -> Tree
    decreases s.len(),
{
    if s.len() <= 1 {
        Tree::Leaf(s[0].0, s[0].1)
    } else {
        let ox = axis_order(s, true);
        let oy = axis_order(s, false);
        proof {
            lemma_first_cut_range(ox, true, 1);
            lemma_first_cut_range(oy, false, 1);
        }
        match first_cut(ox, true, 1) {
            Some(c) => Tree::Split(
                "horizontal"@,
                seq![bsp_spec(ox.take(c)), bsp_spec(ox.skip(c))],
                bound_of(s),
            ),
            None => match first_cut(oy, false, 1) {
                Some(c) => Tree::Split(
                    "vertical"@,
                    seq![bsp_spec(oy.take(c)), bsp_spec(oy.skip(c))],
                    bound_of(s),
                ),
                None => Tree::Split("vertical"@, leaves(id_order(s)), bound_of(s)),
            },
        }
    }
}

/// The items with a non-empty pane id, in order.
pub open spec fn named_items(s: Seq<(Seq<char>, LayoutRect)>) -> Seq<(Seq<char>, LayoutRect)>
    decreases s.len(),
{
    if s.len() == 0 {
        Seq::empty()
    } else if s.last().0.len() > 0 {
        named_items(s.drop_last()).push(s.last())
    } else {
        named_items(s.drop_last())
    }
}

pub open spec fn all_rects_ok(s: Seq<(String, LayoutRect)>) -> bool {
    forall|i: int| 0 <= i < s.len() ==> rect_ok(#[trigger] s[i].1)
}

fn dup_item(it: &(String, LayoutRect)) -> (r: (String, LayoutRect))
    ensures
        r == *it,
{
    (it.0.clone(), it.1)
}

/// Positions in a sorted key list come from the keys they were sorted from.
pub proof fn lemma_sorted_positions(base: Seq<(int, Seq<char>, int)>, n: int)
    requires
        base.len() == n,
        forall|j: int| 0 <= j < n ==> (#[trigger] base[j]).2 == j,
    ensures
        by_keys(base).len() == n,
        forall|i: int| 0 <= i < n ==> 0 <= (#[trigger] by_keys(base)[i]).2 < n,
{
    let leq = |x: (int, Seq<char>, int), y: (int, Seq<char>, int)| key_le(x, y);
    crate::order::lemma_key_le_total_ordering();
    base.lemma_sort_by_ensures(leq);
    broadcast use vstd::seq_lib::group_to_multiset_ensures;
    let s = by_keys(base);
    assert(s.len() == base.len()) by {
        assert(s.to_multiset().len() == base.to_multiset().len());
    }
    assert forall|i: int| 0 <= i < n implies 0 <= (#[trigger] s[i]).2 < n by {
        assert(s.contains(s[i]));
        assert(base.contains(s[i]));
        let j = choose|j: int| 0 <= j < base.len() && base[j] == s[i];
        assert(base[j].2 == j);
    }
}

fn sort_positions(items: &Vec<(String, LayoutRect)>, x_axis: Option<bool>) -> (r: Vec<(String, LayoutRect)>)
    requires
        all_rects_ok(items@),
    ensures
        items_view(r@) == match x_axis {
            Some(x) => axis_order(items_view(items@), x),
            None => id_order(items_view(items@)),
        },
        all_rects_ok(r@),
        r.len() == items.len(),
{
    let ghost sv = items_view(items@);
    let mut keys: Vec<(i64, String, u64)> = Vec::new();
    let mut i: usize = 0;
    while i < items.len()
        invariant
            i <= items.len(),
            items.len() <= usize::MAX,
            sv == items_view(items@),
            all_rects_ok(items@),
            keys_view(keys@) == match x_axis {
                Some(x) => axis_keys(sv, x),
                None => id_keys(sv),
            }.take(i as int),
        decreases items.len() - i,
    {
        let start: i64 = match x_axis {
            Some(true) => items[i].1.x,
            Some(false) => items[i].1.y,
            None => 0,
        };
        let ghost k0 = keys_view(keys@);
        keys.push((start, items[i].0.clone(), i as u64));
        assert(keys_view(keys@) =~= k0.push((start as int, items@[i as int].0@, i as int)));
        assert(match x_axis {
            Some(x) => axis_keys(sv, x),
            None => id_keys(sv),
        }.take(i + 1) =~= match x_axis {
            Some(x) => axis_keys(sv, x),
            None => id_keys(sv),
        }.take(i as int).push((start as int, items@[i as int].0@, i as int)));
        i += 1;
    }
    let ghost base = match x_axis {
        Some(x) => axis_keys(sv, x),
        None => id_keys(sv),
    };
    assert(base.take(items.len() as int) =~= base);
    let sorted = sort_keys(&keys);
    proof {
        lemma_sorted_positions(base, items.len() as int);
    }
    assert(keys_view(sorted@) == by_keys(base));
    let mut out: Vec<(String, LayoutRect)> = Vec::new();
    let mut j: usize = 0;
    while j < sorted.len()
        invariant
            j <= sorted.len(),
            sorted.len() == items.len(),
            keys_view(sorted@) == by_keys(base),
            forall|k: int| 0 <= k < items.len() ==> 0 <= (#[trigger] by_keys(base)[k]).2 < items.len(),
            sv == items_view(items@),
            all_rects_ok(items@),
            all_rects_ok(out@),
            items_view(out@) == reorder(sv, by_keys(base)).take(j as int),
        decreases sorted.len() - j,
    {
        assert(keys_view(sorted@)[j as int] == by_keys(base)[j as int]);
        let pos = sorted[j].2 as usize;
        let ghost o0 = items_view(out@);
        out.push(dup_item(&items[pos]));
        assert(items_view(out@) =~= o0.push(sv[pos as int]));
        assert(reorder(sv, by_keys(base)).take(j + 1) =~= reorder(sv, by_keys(base)).take(
            j as int,
        ).push(sv[pos as int]));
        j += 1;
    }
    assert(reorder(sv, by_keys(base)).take(items.len() as int) =~= reorder(sv, by_keys(base)));
    out
}

fn end_exec(r: &LayoutRect, x_axis: bool) -> (e: i64)
    requires
        rect_ok(*r),
    ensures
        e == end_of(*r, x_axis),
{
    if x_axis {
        r.x + r.width
    } else {
        r.y + r.height
    }
}

fn start_exec(r: &LayoutRect, x_axis: bool) -> (e: i64)
    ensures
        e == start_of(*r, x_axis),
{
    if x_axis {
        r.x
    } else {
        r.y
    }
}

/// Whether cutting `o` before `c` separates it along the axis.
fn cut_ok_exec(o: &Vec<(String, LayoutRect)>, x_axis: bool, c: usize) -> (r: bool)
    requires
        1 <= c < o.len(),
        all_rects_ok(o@),
    ensures
        r == cut_ok(items_view(o@), x_axis, c as int),
{
    let ghost ov = items_view(o@);
    let mut hi: i64 = end_exec(&o[0].1, x_axis);
    let mut k: usize = 1;
    assert(ov.take(1).len() == 1);
    while k < c
        invariant
            1 <= k <= c,
            c < o.len(),
            ov == items_view(o@),
            all_rects_ok(o@),
            hi == max_end(ov.take(k as int), x_axis),
            -coord_bound() <= hi <= coord_bound(),
        decreases c - k,
    {
        assert(ov.take(k + 1).drop_last() =~= ov.take(k as int));
        let e = end_exec(&o[k].1, x_axis);
        if e > hi {
            hi = e;
        }
        k += 1;
    }
    let mut lo: i64 = start_exec(&o[c].1, x_axis);
    let mut m: usize = c + 1;
    assert(ov.subrange(c as int, c + 1).len() == 1);
    while m < o.len()
        invariant
            c < m <= o.len(),
            ov == items_view(o@),
            all_rects_ok(o@),
            lo == min_start(ov.subrange(c as int, m as int), x_axis),
            -coord_bound() <= lo <= coord_bound(),
        decreases o.len() - m,
    {
        assert(ov.subrange(c as int, m + 1).drop_last() =~= ov.subrange(c as int, m as int));
        let st = start_exec(&o[m].1, x_axis);
        if st < lo {
            lo = st;
        }
        m += 1;
    }
    assert(ov.skip(c as int) =~= ov.subrange(c as int, o.len() as int));
    hi <= lo + 1
}

/// The first separating cut of `o` along the axis.
fn first_cut_exec(o: &Vec<(String, LayoutRect)>, x_axis: bool) -> (r: Option<usize>)
    requires
        all_rects_ok(o@),
    ensures
        match r {
            Some(c) => first_cut(items_view(o@), x_axis, 1) == Some(c as int),
            None => first_cut(items_view(o@), x_axis, 1) is None,
        },
{
    let mut c: usize = 1;
    while c < o.len()
        invariant
            1 <= c,
            all_rects_ok(o@),
            first_cut(items_view(o@), x_axis, 1) == first_cut(items_view(o@), x_axis, c as int),
        decreases o.len() - c,
    {
        if cut_ok_exec(o, x_axis, c) {
            return Some(c);
        }
        c += 1;
    }
    None
}

fn slice_items(o: &Vec<(String, LayoutRect)>, lo: usize, hi: usize) -> (r: Vec<(String, LayoutRect)>)
    requires
        lo <= hi <= o.len(),
        all_rects_ok(o@),
    ensures
        items_view(r@) == items_view(o@).subrange(lo as int, hi as int),
        all_rects_ok(r@),
        r.len() == hi - lo,
{
    let mut out: Vec<(String, LayoutRect)> = Vec::new();
    let mut k: usize = lo;
    while k < hi
        invariant
            lo <= k <= hi,
            hi <= o.len(),
            all_rects_ok(o@),
            all_rects_ok(out@),
            items_view(out@) == items_view(o@).subrange(lo as int, k as int),
        decreases hi - k,
    {
        let ghost o0 = items_view(out@);
        out.push(dup_item(&o[k]));
        assert(items_view(out@) =~= o0.push(items_view(o@)[k as int]));
        assert(items_view(o@).subrange(lo as int, k + 1) =~= items_view(o@).subrange(
            lo as int,
            k as int,
        ).push(items_view(o@)[k as int]));
        k += 1;
    }
    out
}

fn bound_exec(items: &Vec<(String, LayoutRect)>) -> (r: LayoutRect)
    requires
        items.len() >= 1,
        all_rects_ok(items@),
    ensures
        r == bound_of(items_view(items@)),
        rect_ok(r),
{
    let ghost sv = items_view(items@);
    let mut b = items[0].1;
    let mut i: usize = 1;
    assert(sv.take(1).len() == 1);
    while i < items.len()
        invariant
            1 <= i <= items.len(),
            sv == items_view(items@),
            all_rects_ok(items@),
            b == bound_of(sv.take(i as int)),
            rect_ok(b),
        decreases items.len() - i,
    {
        assert(sv.take(i + 1).drop_last() =~= sv.take(i as int));
        b = b.union(&items[i].1);
        i += 1;
    }
    assert(sv.take(items.len() as int) =~= sv);
    b
}

fn split_node(kind: &str, a: LayoutNode, b: LayoutNode, rect: LayoutRect) -> (r: LayoutNode)
    requires
        kind@ == "horizontal"@ || kind@ == "vertical"@,
        splits_unnamed(a),
        splits_unnamed(b),
    ensures
        tree_view(r) == Tree::Split(kind@, seq![tree_view(a), tree_view(b)], rect),
        splits_unnamed(r),
{
    let ghost ta = tree_view(a);
    let ghost tb = tree_view(b);
    let ghost na = a;
    let ghost nb = b;
    let mut children: Vec<LayoutNode> = Vec::new();
    children.push(a);
    children.push(b);
    proof {
        reveal_strlit("horizontal");
        reveal_strlit("vertical");
        reveal_strlit("pane");
        assert(children@ =~= seq![na, nb]);
        assert(children@.drop_last() =~= seq![na]);
        assert(seq![na].drop_last() =~= Seq::<LayoutNode>::empty());
        assert(tree_list(Seq::<LayoutNode>::empty()) =~= Seq::<Tree>::empty());
        assert(tree_list(seq![na]) == tree_list(seq![na].drop_last()).push(tree_view(na)));
        assert(tree_list(seq![na]) =~= seq![ta]);
        assert(tree_list(children@) == tree_list(children@.drop_last()).push(tree_view(nb)));
        assert(tree_list(children@) =~= seq![ta, tb]);
        assert(splits_unnamed_list(Seq::<LayoutNode>::empty()));
        assert(splits_unnamed_list(seq![na]));
        assert(splits_unnamed_list(children@));
        assert("pane"@.len() == 4);
        assert("vertical"@.len() == 8);
        assert("horizontal"@.len() == 10);
    }
    let r = LayoutNode { kind: owned(kind), pane_id: None, children, rect };
    assert(!is_pane(r));
    r
}

fn bsp(items: Vec<(String, LayoutRect)>) -> (r: LayoutNode)
    requires
        items.len() >= 1,
        all_rects_ok(items@),
    ensures
        tree_view(r) == bsp_spec(items_view(items@)),
        splits_unnamed(r),
    decreases items.len(),
{
    let ghost sv = items_view(items@);
    if items.len() == 1 {
        let it = dup_item(&items[0]);
        return LayoutNode::leaf(Some(it.0), it.1);
    }
    let bound = bound_exec(&items);
    let ox = sort_positions(&items, Some(true));
    proof {
        lemma_first_cut_range(axis_order(sv, true), true, 1);
        lemma_first_cut_range(axis_order(sv, false), false, 1);
    }
    match first_cut_exec(&ox, true) {
        Some(c) => {
            let left = slice_items(&ox, 0, c);
            let right = slice_items(&ox, c, ox.len());
            assert(items_view(ox@).subrange(0, c as int) =~= items_view(ox@).take(c as int));
            assert(items_view(ox@).subrange(c as int, ox.len() as int) =~= items_view(ox@).skip(
                c as int,
            ));
            let a = bsp(left);
            let b = bsp(right);
            return split_node("horizontal", a, b, bound);
        },
        None => {},
    }
    let oy = sort_positions(&items, Some(false));
    match first_cut_exec(&oy, false) {
        Some(c) => {
            let left = slice_items(&oy, 0, c);
            let right = slice_items(&oy, c, oy.len());
            assert(items_view(oy@).subrange(0, c as int) =~= items_view(oy@).take(c as int));
            assert(items_view(oy@).subrange(c as int, oy.len() as int) =~= items_view(oy@).skip(
                c as int,
            ));
            let a = bsp(left);
            let b = bsp(right);
            split_node("vertical", a, b, bound)
        },
        None => {
            let od = sort_positions(&items, None);
            let ghost dv = items_view(od@);
            let mut kids: Vec<LayoutNode> = Vec::new();
            let mut i: usize = 0;
            while i < od.len()
                invariant
                    i <= od.len(),
                    dv == items_view(od@),
                    tree_list(kids@) == leaves(dv.take(i as int)),
                    splits_unnamed_list(kids@),
                decreases od.len() - i,
            {
                let it = dup_item(&od[i]);
                let leaf = LayoutNode::leaf(Some(it.0), it.1);
                let ghost lf = leaf;
                assert(tree_view(lf) == Tree::Leaf(dv[i as int].0, dv[i as int].1));
                let ghost k0 = kids@;
                kids.push(leaf);
                assert(kids@.drop_last() =~= k0);
                assert(kids@.last() == lf);
                assert(splits_unnamed(lf));
                assert(splits_unnamed_list(kids@));
                assert(dv.take(i + 1).drop_last() =~= dv.take(i as int));
                i += 1;
            }
            assert(dv.take(od.len() as int) =~= dv);
            proof {
                reveal_strlit("vertical");
                reveal_strlit("pane");
                assert("pane"@.len() == 4);
                assert("vertical"@.len() == 8);
            }
            let r = LayoutNode { kind: owned("vertical"), pane_id: None, children: kids, rect: bound };
            assert(!is_pane(r));
            r
        },
    }
}

/// Reconstruct a binary split tree from pane rectangles; items without a
/// pane id are ignored, and `None` is returned when no item has one.
pub fn tree_from_rects(items: &Vec<(String, LayoutRect)>) -> (r: Option<LayoutNode>)
    requires
        all_rects_ok(items@),
    ensures
        match r {
            None => named_items(items_view(items@)).len() == 0,
            Some(t) => named_items(items_view(items@)).len() > 0 && tree_view(t) == bsp_spec(
                named_items(items_view(items@)),
            ) && splits_unnamed(t),
        },
{
    let ghost sv = items_view(items@);
    let mut cleaned: Vec<(String, LayoutRect)> = Vec::new();
    let mut i: usize = 0;
    while i < items.len()
        invariant
            i <= items.len(),
            sv == items_view(items@),
            all_rects_ok(items@),
            all_rects_ok(cleaned@),
            items_view(cleaned@) == named_items(sv.take(i as int)),
        decreases items.len() - i,
    {
        assert(sv.take(i + 1).drop_last() =~= sv.take(i as int));
        if !items[i].0.as_str().is_empty() {
            let ghost c0 = items_view(cleaned@);
            cleaned.push(dup_item(&items[i]));
            assert(items_view(cleaned@) =~= c0.push(sv[i as int]));
        }
        i += 1;
    }
    assert(sv.take(items.len() as int) =~= sv);
    if cleaned.len() == 0 {
        return None;
    }
    Some(bsp(cleaned))
}

// ---- split plan ------------------------------------------------------------------

/// A divider position as an exact fraction `num / den` (`den > 0`).
#[derive(Clone, Copy, Debug, PartialEq, Eq, Structural)]
pub struct Ratio {
    pub num: i128,
    pub den: i128,
}

/// The share `part / span` of a split, kept within `[1/20, 19/20]`; an
/// empty span splits in half.
pub open spec fn ratio_spec(span: int, part: int) -> (int, int) {
    if span <= 0 {
        (1, 2)
    } else if 20 * part < span {
        (1, 20)
    } else if 20 * part > 19 * span {
        (19, 20)
    } else {
        (part, span)
    }
}

pub open spec fn ratio_view(r: Ratio) -> (int, int) {
    (r.num as int, r.den as int)
}

/// Extent along an axis: the width across a horizontal split, else the
/// height.
pub open spec fn extent(r: LayoutRect, horizontal: bool) -> int {
    if horizontal {
        r.width as int
    } else {
        r.height as int
    }
}

impl LayoutRect {
    /// Fraction of this rectangle that `child` takes along `axis` (see
    /// [`ratio_spec`]).
    pub fn first_child_ratio(&self, child: &LayoutRect, axis: &str) -> (r: Ratio)
        ensures
            ratio_view(r) == ratio_spec(extent(*self, axis@ == "horizontal"@), extent(*child, axis@ == "horizontal"@)),
            r.den > 0,
    {
        let h = str_eq(axis, "horizontal");
        let (span, part) = if h {
            (self.width, child.width)
        } else {
            (self.height, child.height)
        };
        if span <= 0 {
            return Ratio { num: 1, den: 2 };
        }
        let p20: i128 = 20 * (part as i128);
        if p20 < span as i128 {
            Ratio { num: 1, den: 20 }
        } else if p20 > 19 * (span as i128) {
            Ratio { num: 19, den: 20 }
        } else {
            Ratio { num: part as i128, den: span as i128 }
        }
    }
}

/// Every rectangle of the tree is within the machine range.
pub open spec fn tree_ok(n: LayoutNode) -> bool
    decreases n, 1int, 0int,
{
    rect_ok(n.rect) && trees_ok(n.children@)
}

pub open spec fn trees_ok(cs: Seq<LayoutNode>) -> bool
    decreases cs, 0int, 0int,
{
    if cs.len() == 0 {
        true
    } else {
        trees_ok(cs.drop_last()) && tree_ok(cs.last())
    }
}

pub proof fn lemma_trees_ok(cs: Seq<LayoutNode>)
    requires
        trees_ok(cs),
    ensures
        forall|i: int| 0 <= i < cs.len() ==> tree_ok(#[trigger] cs[i]),
    decreases cs.len(),
{
    if cs.len() > 0 {
        lemma_trees_ok(cs.drop_last());
        assert forall|i: int| 0 <= i < cs.len() implies tree_ok(#[trigger] cs[i]) by {
            if i < cs.len() - 1 {
                assert(cs.drop_last()[i] == cs[i]);
            }
        }
    }
}

pub open spec fn is_horizontal(n: LayoutNode) -> bool {
    n.kind@ == "horizontal"@
}

/// The first child's share of a split, or `None` for a leaf.
pub open spec fn node_ratio(n: LayoutNode) -> Option<(int, int)> {
    if is_pane(n) || n.children@.len() < 2 {
        None
    } else {
        Some(ratio_spec(extent(n.rect, is_horizontal(n)), extent(n.children@[0].rect, is_horizontal(n))))
    }
}

impl LayoutNode {
    /// The first child's share of this split (see [`node_ratio`]).
    pub fn first_child_ratio(&self) -> (r: Option<Ratio>)
        ensures
            match r {
                Some(x) => node_ratio(*self) == Some(ratio_view(x)) && x.den > 0,
                None => node_ratio(*self) is None,
            },
    {
        if self.is_leaf() || self.children.len() < 2 {
            return None;
        }
        let axis = if str_eq(self.kind.as_str(), "horizontal") {
            "horizontal"
        } else {
            "vertical"
        };
        proof {
            reveal_strlit("horizontal");
            reveal_strlit("vertical");
            assert("horizontal"@[0] != "vertical"@[0]);
        }
        Some(self.rect.first_child_ratio(&self.children[0].rect, axis))
    }
}

pub open spec fn rect_items(cs: Seq<LayoutNode>) -> Seq<(Seq<char>, LayoutRect)> {
    cs.map_values(|c: LayoutNode| (Seq::<char>::empty(), c.rect))
}

/// The share of child `index` within itself and the children after it.
pub open spec fn remaining_ratio(n: LayoutNode, index: int) -> Option<(int, int)> {
    let rest = n.children@.subrange(index - 1, n.children@.len() as int);
    if rest.len() < 2 {
        None
    } else {
        let b = bound_of(rect_items(rest));
        Some(ratio_spec(extent(b, is_horizontal(n)), extent(rest[0].rect, is_horizontal(n))))
    }
}

/// One planned split as plain values: new pane, pane it splits from,
/// direction, ratio.
pub open spec fn split_view(s: SplitSpec) -> (Seq<char>, Seq<char>, Seq<char>, Option<(int, int)>) {
    (
        s.pane_id@,
        s.split_from_pane_id@,
        s.direction@,
        match s.ratio {
            Some(r) => Some(ratio_view(r)),
            None => None,
        },
    )
}

pub open spec fn splits_view(v: Seq<SplitSpec>) -> Seq<(Seq<char>, Seq<char>, Seq<char>, Option<(int, int)>)> {
    v.map_values(|s: SplitSpec| split_view(s))
}

/// One split of the plan.
#[derive(Debug)]
pub struct SplitSpec {
    pub pane_id: String,
    pub split_from_pane_id: String,
    pub direction: String,
    pub ratio: Option<Ratio>,
}

pub open spec fn first_or_empty(s: Seq<Seq<char>>) -> Seq<char> {
    if s.len() > 0 {
        s[0]
    } else {
        Seq::empty()
    }
}

/// The splits that create every non-first leaf of a tree, in order: each
/// child of a split after the first is split off the previous child's first
/// leaf (ratio: the first child's share for the second child, else the
/// child's share of what remains), and then planned itself.
pub open spec fn walk(n: LayoutNode) -> Seq<(Seq<char>, Seq<char>, Seq<char>, Option<(int, int)>)>
    decreases n, 1int, 0int,
{
    if is_pane(n) || n.children@.len() < 2 {
        proof {
            assert(decreases_to!(n => n.children));
            assert(decreases_to!(n.children => n.children@));
        }
        walk_all(n.children@)
    } else {
        walk_from(n, 0, first_or_empty(pane_ids(n.children@[0])))
    }
}

pub open spec fn walk_all(cs: Seq<LayoutNode>) -> Seq<(Seq<char>, Seq<char>, Seq<char>, Option<(int, int)>)>
    decreases cs, 0int, 0int,
{
    if cs.len() == 0 {
        Seq::empty()
    } else {
        proof {
            assert(decreases_to!(cs => cs[cs.len() - 1]));
        }
        walk_all(cs.drop_last()) + walk(cs.last())
    }
}

pub open spec fn walk_from(n: LayoutNode, idx: int, anchor: Seq<char>) -> Seq<
    (Seq<char>, Seq<char>, Seq<char>, Option<(int, int)>),
>
    decreases n, 0int, n.children@.len() - idx,
{
    if idx < 0 || idx >= n.children@.len() {
        Seq::empty()
    } else {
        let child = n.children@[idx];
        proof {
            assert(decreases_to!(n => n.children));
            assert(decreases_to!(n.children => n.children@));
            assert(decreases_to!(n.children@ => n.children@[idx]));
        }
        let leaves = pane_ids(child);
        let dir = if is_horizontal(n) {
            "right"@
        } else {
            "down"@
        };
        if idx == 0 {
            walk(child) + walk_from(n, 1, anchor)
        } else if leaves.len() == 0 || anchor.len() == 0 {
            walk(child) + walk_from(n, idx + 1, anchor)
        } else {
            seq![
                (
                    leaves[0],
                    anchor,
                    dir,
                    if idx == 1 {
                        node_ratio(n)
                    } else {
                        remaining_ratio(n, idx)
                    },
                ),
            ] + walk(child) + walk_from(n, idx + 1, leaves[0])
        }
    }
}

proof fn lemma_rect_items_step(cs: Seq<LayoutNode>, a: int, k: int)
    requires
        0 <= a < k < cs.len(),
    ensures
        rect_items(cs.subrange(a, k + 1)).drop_last() == rect_items(cs.subrange(a, k)),
        rect_items(cs.subrange(a, k + 1)).last() == (Seq::<char>::empty(), cs[k].rect),
{
    let items = rect_items(cs.subrange(a, k + 1));
    let prev = rect_items(cs.subrange(a, k));
    assert(cs.subrange(a, k + 1).len() == k + 1 - a);
    assert(items.len() == k + 1 - a);
    assert forall|j: int| 0 <= j < prev.len() implies #[trigger] items.drop_last()[j] == prev[j] by {
        assert(cs.subrange(a, k + 1)[j] == cs[a + j]);
        assert(cs.subrange(a, k)[j] == cs[a + j]);
    }
    assert(items.drop_last() =~= prev);
    assert(cs.subrange(a, k + 1)[k - a] == cs[k]);
}

/// One step of [`walk_from`].
proof fn lemma_walk_from_step(n: LayoutNode, idx: int, anchor: Seq<char>)
    requires
        0 <= idx < n.children@.len(),
    ensures
        walk_from(n, idx, anchor) == ({
            let child = n.children@[idx];
            let leaves = pane_ids(child);
            if idx == 0 {
                walk(child) + walk_from(n, 1, anchor)
            } else if leaves.len() == 0 || anchor.len() == 0 {
                walk(child) + walk_from(n, idx + 1, anchor)
            } else {
                seq![
                    (
                        leaves[0],
                        anchor,
                        if is_horizontal(n) {
                            "right"@
                        } else {
                            "down"@
                        },
                        if idx == 1 {
                            node_ratio(n)
                        } else {
                            remaining_ratio(n, idx)
                        },
                    ),
                ] + walk(child) + walk_from(n, idx + 1, leaves[0])
            }
        }),
{
}

fn remaining_ratio_exec(node: &LayoutNode, index: usize) -> (r: Option<Ratio>)
    requires
        tree_ok(*node),
        1 <= index < node.children@.len(),
    ensures
        match r {
            Some(x) => remaining_ratio(*node, index as int) == Some(ratio_view(x)),
            None => remaining_ratio(*node, index as int) is None,
        },
{
    proof {
        lemma_trees_ok(node.children@);
    }
    let len = node.children.len();
    if len - (index - 1) < 2 {
        return None;
    }
    let ghost cs = node.children@;
    let mut bound = node.children[index - 1].rect;
    assert(rect_items(cs.subrange(index - 1, index as int)) =~= seq![(Seq::<char>::empty(), cs[index - 1].rect)]);
    let mut k: usize = index;
    while k < len
        invariant
            1 <= index <= k <= len,
            len == cs.len(),
            cs == node.children@,
            forall|i: int| 0 <= i < cs.len() ==> tree_ok(#[trigger] cs[i]),
            rect_ok(bound),
            bound == bound_of(rect_items(cs.subrange(index - 1, k as int))),
        decreases len - k,
    {
        assert(tree_ok(cs[k as int]));
        let next = bound.union(&node.children[k].rect);
        proof {
            lemma_rect_items_step(cs, index - 1, k as int);
        }
        bound = next;
        k += 1;
    }
    let h = str_eq(node.kind.as_str(), "horizontal");
    let axis = if h {
        "horizontal"
    } else {
        "vertical"
    };
    proof {
        reveal_strlit("horizontal");
        reveal_strlit("vertical");
        assert("horizontal"@[0] != "vertical"@[0]);
    }
    let rest0 = node.children[index - 1].rect;
    assert(cs.subrange(index - 1, len as int)[0] == cs[index - 1]);
    Some(bound.first_child_ratio(&rest0, axis))
}

fn copy_ratio(r: &Option<Ratio>) -> (c: Option<Ratio>)
    ensures
        c == *r,
{
    match r {
        Some(x) => Some(Ratio { num: x.num, den: x.den }),
        None => None,
    }
}

#[verifier::loop_isolation(false)]
#[verifier::rlimit(40)]
fn walk_splits(node: &LayoutNode, specs: &mut Vec<SplitSpec>)
    requires
        tree_ok(*node),
    ensures
        splits_view(final(specs)@) == splits_view(old(specs)@) + walk(*node),
    decreases node,
{
    proof {
        lemma_trees_ok(node.children@);
    }
    let ghost start = splits_view(specs@);
    if node.is_leaf() || node.children.len() < 2 {
        let mut i: usize = 0;
        while i < node.children.len()
            invariant
                i <= node.children.len(),
                splits_view(specs@) == start + walk_all(node.children@.take(i as int)),
            decreases node.children.len() - i,
        {
            proof {
                assert(decreases_to!(node => node.children));
                assert(decreases_to!(node.children => node.children@));
                assert(decreases_to!(node.children@ => node.children@[i as int]));
            }
            walk_splits(&node.children[i], specs);
            let ghost t = node.children@.take(i + 1);
            assert(t.drop_last() =~= node.children@.take(i as int));
            assert(t.last() == node.children@[i as int]);
            i += 1;
        }
        assert(node.children@.take(node.children.len() as int) =~= node.children@);
        return;
    }
    let h = str_eq(node.kind.as_str(), "horizontal");
    let direction = if h {
        "right"
    } else {
        "down"
    };
    let ratio = node.first_child_ratio();
    let first = node.children[0].pane_ids_in_order();
    let mut anchor: String = if first.len() > 0 {
        first[0].clone()
    } else {
        String::new()
    };
    let ghost a0 = anchor@;
    assert(a0 == first_or_empty(pane_ids(node.children@[0])));
    let mut idx: usize = 0;
    while idx < node.children.len()
        invariant
            idx <= node.children.len(),
            splits_view(specs@) + walk_from(*node, idx as int, anchor@) == start + walk_from(*node, 0, a0),
        decreases node.children.len() - idx,
    {
        let child = &node.children[idx];
        proof {
            assert(decreases_to!(node => node.children));
            assert(decreases_to!(node.children => node.children@));
            assert(decreases_to!(node.children@ => node.children@[idx as int]));
        }
        let ghost before = splits_view(specs@);
        let ghost rest = walk_from(*node, idx + 1, anchor@);
        proof {
            lemma_walk_from_step(*node, idx as int, anchor@);
        }
        if idx == 0 {
            walk_splits(child, specs);
            assert(splits_view(specs@) + walk_from(*node, 1, anchor@) =~= before + walk_from(*node, 0, anchor@));
            idx += 1;
        } else {
            let leaves = child.pane_ids_in_order();
            if leaves.len() == 0 || anchor.as_str().is_empty() {
                walk_splits(child, specs);
                assert(splits_view(specs@) + rest =~= before + walk_from(*node, idx as int, anchor@));
                idx += 1;
            } else {
                let r = if idx == 1 {
                    copy_ratio(&ratio)
                } else {
                    remaining_ratio_exec(node, idx)
                };
                let spec = SplitSpec {
                    pane_id: leaves[0].clone(),
                    split_from_pane_id: anchor.clone(),
                    direction: owned(direction),
                    ratio: r,
                };
                proof {
                    reveal_strlit("horizontal");
                    reveal_strlit("right");
                    reveal_strlit("down");
                }
                assert(split_view(spec) == (
                    pane_ids(*child)[0],
                    anchor@,
                    if is_horizontal(*node) {
                        "right"@
                    } else {
                        "down"@
                    },
                    if idx == 1 {
                        node_ratio(*node)
                    } else {
                        remaining_ratio(*node, idx as int)
                    },
                ));
                specs.push(spec);
                let ghost pushed = splits_view(specs@);
                assert(pushed =~= before.push(split_view(spec)));
                walk_splits(child, specs);
                let ghost a_prev = anchor@;
                anchor = leaves[0].clone();
                assert(splits_view(specs@) + walk_from(*node, idx + 1, anchor@) =~= before + walk_from(
                    *node,
                    idx as int,
                    a_prev,
                ));
                idx += 1;
            }
        }
    }
}

/// The splits that build `root` from its first leaf (see [`walk`]).
pub fn split_specs(root: &LayoutNode) -> (r: Vec<SplitSpec>)
    requires
        tree_ok(*root),
    ensures
        splits_view(r@) == walk(*root),
{
    let mut specs: Vec<SplitSpec> = Vec::new();
    walk_splits(root, &mut specs);
    assert(splits_view(Seq::<SplitSpec>::empty()) =~= Seq::empty());
    specs
}

fn rect_in_range(r: &LayoutRect) -> (b: bool)
    ensures
        b == rect_ok(*r),
{
    let bound: i128 = 0x4000_0000_0000_0000;
    let x = r.x as i128;
    let y = r.y as i128;
    let right = x + r.width as i128;
    let bottom = y + r.height as i128;
    -bound < x && x < bound && -bound < y && y < bound && -bound <= right && right <= bound && -bound <= bottom
        && bottom <= bound
}

/// Whether every rectangle of `items` is within range, as
/// [`tree_from_rects`] requires.
pub fn rects_in_range(items: &Vec<(String, LayoutRect)>) -> (b: bool)
    ensures
        b == all_rects_ok(items@),
{
    let mut i: usize = 0;
    while i < items.len()
        invariant
            i <= items.len(),
            forall|j: int| 0 <= j < i ==> rect_ok(#[trigger] items@[j].1),
        decreases items.len() - i,
    {
        if !rect_in_range(&items[i].1) {
            return false;
        }
        i += 1;
    }
    true
}

/// Whether every rectangle of a tree is within range (see [`tree_ok`]).
#[verifier::loop_isolation(false)]
pub fn tree_in_range(n: &LayoutNode) -> (b: bool)
    ensures
        b == tree_ok(*n),
    decreases n,
{
    if !rect_in_range(&n.rect) {
        return false;
    }
    let mut i: usize = 0;
    while i < n.children.len()
        invariant
            i <= n.children.len(),
            trees_ok(n.children@.take(i as int)),
        decreases n.children.len() - i,
    {
        proof {
            assert(decreases_to!(n => n.children));
            assert(decreases_to!(n.children => n.children@));
            assert(decreases_to!(n.children@ => n.children@[i as int]));
        }
        let ghost t = n.children@.take(i + 1);
        assert(t.drop_last() =~= n.children@.take(i as int));
        assert(t.last() == n.children@[i as int]);
        if !tree_in_range(&n.children[i]) {
            proof {
                assert(!trees_ok(t));
                lemma_trees_prefix(n.children@, i + 1);
            }
            return false;
        }
        i += 1;
    }
    assert(n.children@.take(n.children.len() as int) =~= n.children@);
    true
}

/// A list whose prefix fails the range check fails it too.
proof fn lemma_trees_prefix(cs: Seq<LayoutNode>, k: int)
    requires
        0 <= k <= cs.len(),
        !trees_ok(cs.take(k)),
    ensures
        !trees_ok(cs),
    decreases cs.len() - k,
{
    if k < cs.len() {
        let t = cs.take(k + 1);
        assert(t.drop_last() =~= cs.take(k));
        lemma_trees_prefix(cs, k + 1);
    } else {
        assert(cs.take(k) =~= cs);
    }
}

} // verus!
