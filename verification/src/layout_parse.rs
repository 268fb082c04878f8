//! Reading layout payloads into pane trees: Herdr and tmux shaped nodes,
//! binary and n-ary splits, wrapped roots, rectangles under their many key
//! spellings, and layouts grouped by tab.
//!
//! Numeric strings in a payload (`"80"`, `"12.5"`) count as integers, read
//! through floating point and truncated; the caller hands their values in as
//! a table from trimmed text to integer.
use vstd::prelude::*;

use crate::assoc::{lookup, unique};
use crate::json::{entries_get, json_get, json_text, lemma_entries_get_index, truthy, Json};
use crate::layout::{is_pane, rect_ok, rect_union, tree_view, LayoutNode, LayoutRect, Tree};
use crate::status::unicode_lower;
use crate::text::{str_eq, strings_view, trim};

verus! {

// ---- reading values ----------------------------------------------------------------

/// A member of an object is smaller than the object.
pub proof fn lemma_member_smaller(j: Json, k: Seq<char>)
    ensures
        json_get(j, k) is Some ==> decreases_to!(j => json_get(j, k).unwrap()),
{
    match j {
        Json::Object { entries, .. } => {
            if entries_get(entries@, k) is Some {
                let i = lemma_entries_get_index(entries@, k);
                assert(decreases_to!(j => entries));
                assert(decreases_to!(entries => entries@));
                assert(decreases_to!(entries@ => entries@[i]));
                assert(decreases_to!(entries@[i] => entries@[i].1));
            }
        },
        _ => {},
    }
}

/// The text a value shows: strings verbatim, booleans `True`/`False`, null
/// `None`, anything else its JSON text.
pub open spec fn value_text(v: Json) -> Seq<char> {
    match v {
        Json::Str(s) => s@,
        Json::Bool(b) => if b {
            "True"@
        } else {
            "False"@
        },
        Json::Null => "None"@,
        _ => json_text(v),
    }
}

/// The first of `keys` whose member is truthy; else the member of the last
/// key (present or not).
pub open spec fn py_or(raw: Json, keys: Seq<Seq<char>>) -> Option<Json>
    decreases keys.len(),
{
    if keys.len() == 0 {
        None
    } else if keys.len() == 1 || truthy(json_get(raw, keys[0])) {
        json_get(raw, keys[0])
    } else {
        py_or(raw, keys.drop_first())
    }
}

/// What [`py_or`] picks is a member of `raw`.
pub proof fn lemma_py_or_smaller(raw: Json, keys: Seq<Seq<char>>)
    ensures
        py_or(raw, keys) is Some ==> decreases_to!(raw => py_or(raw, keys).unwrap()),
    decreases keys.len(),
{
    if keys.len() > 0 {
        lemma_member_smaller(raw, keys[0]);
        if !(keys.len() == 1 || truthy(json_get(raw, keys[0]))) {
            lemma_py_or_smaller(raw, keys.drop_first());
        }
    }
}

/// The decimal value of a digit string.
pub open spec fn digits_value(t: Seq<char>) -> int
    decreases t.len(),
{
    if t.len() == 0 {
        0
    } else {
        10 * digits_value(t.drop_last()) + (t.last() as int - '0' as int)
    }
}

pub open spec fn all_digits(t: Seq<char>) -> bool {
    t.len() > 0 && forall|i: int| 0 <= i < t.len() ==> '0' <= #[trigger] t[i] <= '9'
}

/// A JSON number as an integer: its whole value within `i64`; an unsigned
/// integer beyond `i64` wraps around as a cast does; anything else (larger
/// integers, fractions, exponents) truncates toward zero.
pub open spec fn number_int(text: Seq<char>, whole: Option<i64>, trunc: i64) -> i64 {
    match whole {
        Some(w) => w,
        None => if all_digits(text) && digits_value(text) <= u64::MAX {
            if digits_value(text) > i64::MAX {
                (digits_value(text) - 0x1_0000_0000_0000_0000) as i64
            } else {
                digits_value(text) as i64
            }
        } else {
            trunc
        },
    }
}

/// An integer field: numbers as [`number_int`], numeric strings through the
/// table of their values, anything else (booleans too) the default.
pub open spec fn as_int(v: Option<Json>, default: i64, nums: Seq<(String, i64)>) -> i64 {
    match v {
        Some(Json::Number { text, whole, trunc }) => number_int(text@, whole, trunc),
        Some(Json::Str(s)) => if trim(s@).len() > 0 {
            match lookup(nums, trim(s@)) {
                Some(n) => n,
                None => default,
            }
        } else {
            default
        },
        _ => default,
    }
}

// ---- rectangles --------------------------------------------------------------------

pub open spec fn object_member(raw: Json, k: Seq<char>) -> Option<Json> {
    match json_get(raw, k) {
        Some(v) => if v is Object {
            Some(v)
        } else {
            None
        },
        None => None,
    }
}

/// Where a rectangle is read from: a non-empty `geometry` object, else a
/// non-empty `rect` object, else the object itself.
pub open spec fn rect_source(raw: Json) -> Json {
    let geom = object_member(raw, "geometry"@);
    let rect = object_member(raw, "rect"@);
    if geom is Some && truthy(geom) {
        geom.unwrap()
    } else if rect is Some && truthy(rect) {
        rect.unwrap()
    } else {
        raw
    }
}

pub open spec fn width_keys() -> Seq<Seq<char>> {
    seq!["width"@, "cols"@, "columns"@, "pane_width"@, "w"@]
}

pub open spec fn height_keys() -> Seq<Seq<char>> {
    seq!["height"@, "rows"@, "pane_height"@, "h"@]
}

pub open spec fn x_keys() -> Seq<Seq<char>> {
    seq!["x"@, "left"@, "pane_left"@, "col"@]
}

pub open spec fn y_keys() -> Seq<Seq<char>> {
    seq!["y"@, "top"@, "pane_top"@, "row"@]
}

/// The rectangle of a pane object, a geometry object or a layout node: none
/// unless an object with a positive width or height; each extent at least 1.
pub open spec fn rect_spec(raw: Json, nums: Seq<(String, i64)>) -> Option<LayoutRect> {
    if !(raw is Object) {
        None
    } else {
        let src = rect_source(raw);
        let w = as_int(py_or(src, width_keys()), 0, nums);
        let h = as_int(py_or(src, height_keys()), 0, nums);
        let x = as_int(py_or(src, x_keys()), 0, nums);
        let y = as_int(py_or(src, y_keys()), 0, nums);
        if w <= 0 && h <= 0 {
            None
        } else {
            Some(
                LayoutRect {
                    x,
                    y,
                    width: if w >= 1 {
                        w
                    } else {
                        1
                    },
                    height: if h >= 1 {
                        h
                    } else {
                        1
                    },
                },
            )
        }
    }
}

/// The default rectangle: origin, one cell.
pub open spec fn unit_rect() -> LayoutRect {
    LayoutRect { x: 0, y: 0, width: 1, height: 1 }
}

pub open spec fn rect_or_unit(r: Option<LayoutRect>) -> LayoutRect {
    match r {
        Some(x) => x,
        None => unit_rect(),
    }
}

/// Whether a pane object reports itself as the zoomed leaf: a truthy
/// `zoomed`, `is_zoomed` or `zoom`, or a `Z` among its `flags`.
pub open spec fn zoomed_spec(raw: Json) -> bool {
    raw is Object && (truthy(json_get(raw, "zoomed"@)) || truthy(json_get(raw, "is_zoomed"@)) || truthy(
        json_get(raw, "zoom"@),
    ) || match json_get(raw, "flags"@) {
        Some(f) => value_text(f).contains('Z'),
        None => false,
    })
}

// ---- nodes -------------------------------------------------------------------------

/// The pane id under `key`: a string or number, trimmed, not empty, and
/// under `id` not a split word.
pub open spec fn id_under(raw: Json, key: Seq<char>) -> Option<Seq<char>> {
    match json_get(raw, key) {
        Some(v) => if v is Str || v is Number {
            let t = trim(value_text(v));
            if t.len() == 0 || (key == "id"@ && (t == "horizontal"@ || t == "vertical"@ || t == "split"@)) {
                None
            } else {
                Some(t)
            }
        } else {
            None
        },
        None => None,
    }
}

/// The pane id of a node: under `pane_id`, else `pane`, else `id`.
pub open spec fn pane_id_spec(raw: Json) -> Option<Seq<char>> {
    if id_under(raw, "pane_id"@) is Some {
        id_under(raw, "pane_id"@)
    } else if id_under(raw, "pane"@) is Some {
        id_under(raw, "pane"@)
    } else {
        id_under(raw, "id"@)
    }
}

/// The lower-cased kind of a node (`kind`, `type` or `orientation`).
pub open spec fn kind_spec(raw: Json) -> Seq<char> {
    unicode_lower(
        match py_or(raw, seq!["kind"@, "type"@, "orientation"@]) {
            Some(v) => value_text(v),
            None => Seq::empty(),
        },
    )
}

pub open spec fn split_word(kind: Seq<char>) -> bool {
    kind == "split"@ || kind == "hsplit"@ || kind == "vsplit"@ || kind == "horizontal"@ || kind == "vertical"@
        || kind == "row"@ || kind == "column"@ || kind == "cols"@ || kind == "rows"@
}

/// A node that looks like a split: a split kind, or split-shaped members.
pub open spec fn looks_like_split(raw: Json, kind: Seq<char>) -> bool {
    split_word(kind) || json_get(raw, "children"@) is Some || json_get(raw, "first"@) is Some || json_get(
        raw,
        "second"@,
    ) is Some || json_get(raw, "horizontal"@) is Some || json_get(raw, "vertical"@) is Some || json_get(
        raw,
        "nodes"@,
    ) is Some
}

/// A direction word as a split direction.
pub open spec fn normalize_spec(text: Seq<char>) -> Option<Seq<char>> {
    let t = trim(unicode_lower(text));
    if t == "horizontal"@ || t == "hsplit"@ || t == "h"@ || t == "row"@ || t == "cols"@ || t == "right"@
        || t == "left"@ || t == "x"@ || t == "split"@ {
        Some("horizontal"@)
    } else if t == "vertical"@ || t == "vsplit"@ || t == "v"@ || t == "column"@ || t == "rows"@ || t
        == "down"@ || t == "up"@ || t == "y"@ {
        Some("vertical"@)
    } else {
        None
    }
}

/// The direction of a split node: its truthy `direction`, `dir` or `axis`,
/// else its kind (unless that is plain `split`), normalised; horizontal
/// when nothing says otherwise.
pub open spec fn direction_spec(raw: Json) -> Seq<char> {
    let kind = kind_spec(raw);
    let d = py_or(raw, seq!["direction"@, "dir"@, "axis"@]);
    let input = if truthy(d) {
        value_text(d.unwrap())
    } else if kind != "split"@ {
        kind
    } else {
        Seq::empty()
    };
    match normalize_spec(input) {
        Some(n) => n,
        None => "horizontal"@,
    }
}

pub open spec fn tree_rect(t: Tree) -> LayoutRect {
    match t {
        Tree::Leaf(_, r) => r,
        Tree::Split(_, _, r) => r,
    }
}

/// The bounding rectangle of the children, leaving out any rectangle beyond
/// the coordinate range the library computes in.
pub open spec fn kids_bound(kids: Seq<Tree>) -> LayoutRect
    decreases kids.len(),
{
    if kids.len() <= 1 {
        tree_rect(kids[0])
    } else {
        let b = kids_bound(kids.drop_last());
        let c = tree_rect(kids.last());
        if rect_ok(b) && rect_ok(c) {
            let u = rect_union(b, c);
            LayoutRect { x: u.0 as i64, y: u.1 as i64, width: u.2 as i64, height: u.3 as i64 }
        } else {
            b
        }
    }
}

/// A split of `kids`: a single child stands for itself; otherwise a split
/// in `direction` (horizontal unless vertical), over the node's own
/// rectangle, else the children's bound.
pub open spec fn nary_spec(direction: Seq<char>, kids: Seq<Tree>, raw: Option<Json>, nums: Seq<(String, i64)>) -> Tree {
    if kids.len() == 1 {
        kids[0]
    } else {
        let own = match raw {
            Some(j) => rect_spec(j, nums),
            None => None,
        };
        let rect = match own {
            Some(r) => r,
            None => if kids.len() > 0 {
                kids_bound(kids)
            } else {
                unit_rect()
            },
        };
        Tree::Split(
            if direction == "vertical"@ {
                "vertical"@
            } else {
                "horizontal"@
            },
            kids,
            rect,
        )
    }
}

pub open spec fn leaf_spec(id: Option<Seq<char>>, raw: Json, nums: Seq<(String, i64)>) -> Tree {
    Tree::Leaf(
        match id {
            Some(i) => i,
            None => Seq::empty(),
        },
        rect_or_unit(rect_spec(raw, nums)),
    )
}

pub open spec fn opt_seq(t: Option<Tree>) -> Seq<Tree> {
    match t {
        Some(x) => seq![x],
        None => Seq::empty(),
    }
}

/// The pane tree of a layout payload: an array is a vertical split of its
/// parsed items (a single item stands for itself); an object is read by
/// [`parse_object_spec`]; anything else is no tree.
pub open spec fn parse_spec(j: Json, nums: Seq<(String, i64)>) -> Option<Tree>
    decreases j, 3int,
{
    match j {
        Json::Array { items, .. } => {
            if items@.len() == 0 {
                None
            } else if items@.len() == 1 {
                proof {
                    assert(decreases_to!(j => items));
                    assert(decreases_to!(items => items@));
                    assert(decreases_to!(items@ => items@[0]));
                }
                parse_spec(items@[0], nums)
            } else {
                proof {
                    assert(decreases_to!(j => items));
                    assert(decreases_to!(items => items@));
                }
                let kids = parse_items(items@, nums);
                if kids.len() == 0 {
                    None
                } else {
                    Some(nary_spec("vertical"@, kids, None, nums))
                }
            }
        },
        Json::Object { .. } => parse_object_spec(j, nums),
        _ => None,
    }
}

/// The parsed items of a list, in order, leaving out those that are no tree.
pub open spec fn parse_items(s: Seq<Json>, nums: Seq<(String, i64)>) -> Seq<Tree>
    decreases s, 0int,
{
    if s.len() == 0 {
        Seq::empty()
    } else {
        parse_items(s.drop_last(), nums) + opt_seq(parse_spec(s.last(), nums))
    }
}

/// The tree under a wrapping member (`layout`, `root`, `tree`, `node`).
pub open spec fn wrapped(j: Json, k: Seq<char>, nums: Seq<(String, i64)>) -> Option<Tree>
    decreases j, 1int,
{
    match json_get(j, k) {
        Some(v) => {
            proof {
                lemma_member_smaller(j, k);
            }
            parse_spec(v, nums)
        },
        None => None,
    }
}

/// The trees of a member that is a list (none otherwise).
pub open spec fn member_items(j: Json, k: Seq<char>, nums: Seq<(String, i64)>) -> Seq<Tree>
    decreases j, 1int,
{
    match json_get(j, k) {
        Some(Json::Array { items, .. }) => {
            proof {
                lemma_member_smaller(j, k);
                assert(decreases_to!(json_get(j, k).unwrap() => items));
                assert(decreases_to!(items => items@));
            }
            parse_items(items@, nums)
        },
        _ => Seq::empty(),
    }
}

/// The tree of what [`py_or`] picks among `keys`.
pub open spec fn picked_tree(j: Json, keys: Seq<Seq<char>>, nums: Seq<(String, i64)>) -> Option<Tree>
    decreases j, 1int,
{
    match py_or(j, keys) {
        Some(v) => {
            proof {
                lemma_py_or_smaller(j, keys);
            }
            parse_spec(v, nums)
        },
        None => None,
    }
}

/// The list of trees of what [`py_or`] picks among `keys`, when a list.
pub open spec fn picked_items(j: Json, keys: Seq<Seq<char>>, nums: Seq<(String, i64)>) -> Seq<Tree>
    decreases j, 1int,
{
    match py_or(j, keys) {
        Some(Json::Array { items, .. }) => {
            proof {
                lemma_py_or_smaller(j, keys);
                assert(decreases_to!(py_or(j, keys).unwrap() => items));
                assert(decreases_to!(items => items@));
            }
            parse_items(items@, nums)
        },
        _ => Seq::empty(),
    }
}

pub open spec fn first_keys() -> Seq<Seq<char>> {
    seq!["first"@, "a"@, "left"@, "top"@]
}

pub open spec fn second_keys() -> Seq<Seq<char>> {
    seq!["second"@, "b"@, "right"@, "bottom"@]
}

pub open spec fn children_keys() -> Seq<Seq<char>> {
    seq!["children"@, "nodes"@, "panes"@]
}

/// The tree of a layout object:
/// - the tree under the first wrapping member (`layout`, `root`, `tree`,
///   `node`) that has one;
/// - a tmux-shaped `horizontal` or `vertical` list is a split on that axis;
/// - a `pane`/`leaf` kind, or a pane id on a node that does not look like a
///   split, is a leaf;
/// - a binary split of `first`/`second` (or `a`/`b`, `left`/`right`,
///   `top`/`bottom`), else an n-ary split of `children` (`nodes`, `panes`);
/// - else a leaf when it has a pane id, else no tree.
pub open spec fn parse_object_spec(j: Json, nums: Seq<(String, i64)>) -> Option<Tree>
    decreases j, 2int,
{
    if wrapped(j, "layout"@, nums) is Some {
        wrapped(j, "layout"@, nums)
    } else if wrapped(j, "root"@, nums) is Some {
        wrapped(j, "root"@, nums)
    } else if wrapped(j, "tree"@, nums) is Some {
        wrapped(j, "tree"@, nums)
    } else if wrapped(j, "node"@, nums) is Some {
        wrapped(j, "node"@, nums)
    } else {
        let pane_id = pane_id_spec(j);
        let kind = kind_spec(j);
        if json_get(j, "horizontal"@) matches Some(Json::Array { .. }) {
            Some(nary_spec("horizontal"@, member_items(j, "horizontal"@, nums), Some(j), nums))
        } else if json_get(j, "vertical"@) matches Some(Json::Array { .. }) {
            Some(nary_spec("vertical"@, member_items(j, "vertical"@, nums), Some(j), nums))
        } else if kind == "pane"@ || kind == "leaf"@ || (pane_id is Some && !looks_like_split(j, kind)) {
            Some(leaf_spec(pane_id, j, nums))
        } else {
            let direction = direction_spec(j);
            let pair = opt_seq(picked_tree(j, first_keys(), nums)) + opt_seq(picked_tree(j, second_keys(), nums));
            let kids = picked_items(j, children_keys(), nums);
            if (py_or(j, first_keys()) is Some || py_or(j, second_keys()) is Some) && pair.len() > 0 {
                Some(nary_spec(direction, pair, Some(j), nums))
            } else if kids.len() > 0 {
                Some(nary_spec(direction, kids, Some(j), nums))
            } else if pane_id is Some {
                Some(leaf_spec(pane_id, j, nums))
            } else {
                None
            }
        }
    }
}

/// A node whose leaves have no children and a pane id that is absent or
/// not empty, and whose splits carry no pane id.
pub open spec fn well_shaped(n: LayoutNode) -> bool
    decreases n, 1int,
{
    if is_pane(n) {
        n.children@.len() == 0 && (n.pane_id matches Some(p) ==> p@.len() > 0)
    } else {
        n.pane_id is None && well_shaped_list(n.children@)
    }
}

pub open spec fn well_shaped_list(cs: Seq<LayoutNode>) -> bool
    decreases cs, 0int,
{
    cs.len() == 0 || (well_shaped_list(cs.drop_last()) && well_shaped(cs.last()))
}

pub open spec fn opt_tree(n: Option<LayoutNode>) -> Option<Tree> {
    match n {
        Some(x) => Some(tree_view(x)),
        None => None,
    }
}


// ---- executable readers ------------------------------------------------------------

/// The text a value shows (see [`value_text`]).
pub fn value_text_of(v: &Json) -> (r: String)
    ensures
        r@ == value_text(*v),
{
    match v {
        Json::Str(s) => s.clone(),
        Json::Bool(b) => if *b {
            crate::text::owned("True")
        } else {
            crate::text::owned("False")
        },
        Json::Null => crate::text::owned("None"),
        _ => v.text(),
    }
}

/// [`py_or`] over `keys` (at least one).
fn py_or_exec<'a>(raw: &'a Json, keys: &Vec<&str>) -> (r: Option<&'a Json>)
    requires
        keys@.len() >= 1,
    ensures
        match r {
            Some(v) => py_or(*raw, strs_view(keys@)) == Some(*v),
            None => py_or(*raw, strs_view(keys@)) is None,
        },
{
    let ghost ks = strs_view(keys@);
    assert(ks.skip(0) =~= ks);
    let mut i: usize = 0;
    while i + 1 < keys.len()
        invariant
            i < keys.len(),
            ks == strs_view(keys@),
            py_or(*raw, ks) == py_or(*raw, ks.skip(i as int)),
        decreases keys.len() - i,
    {
        let v = raw.get(keys[i]);
        assert(ks.skip(i as int)[0] == keys@[i as int]@);
        if crate::json::is_truthy(v) {
            return v;
        }
        assert(ks.skip(i as int).drop_first() =~= ks.skip(i + 1));
        i += 1;
    }
    assert(ks.skip(i as int)[0] == keys@[i as int]@);
    assert(ks.skip(i as int).len() == 1);
    raw.get(keys[i])
}

pub open spec fn strs_view(v: Seq<&str>) -> Seq<Seq<char>> {
    v.map_values(|s: &str| s@)
}

fn lookup_num(nums: &Vec<(String, i64)>, k: &str) -> (r: Option<i64>)
    ensures
        r == lookup(nums@, k@),
{
    let mut i: usize = nums.len();
    assert(nums@.take(nums@.len() as int) =~= nums@);
    while i > 0
        invariant
            i <= nums.len(),
            lookup(nums@, k@) == lookup(nums@.take(i as int), k@),
        decreases i,
    {
        let ghost t = nums@.take(i as int);
        assert(t.last() == nums@[i - 1]);
        assert(t.drop_last() =~= nums@.take(i - 1));
        if crate::text::str_eq(nums[i - 1].0.as_str(), k) {
            return Some(nums[i - 1].1);
        }
        i -= 1;
    }
    None
}

fn number_int_exec(text: &String, whole: Option<i64>, trunc: i64) -> (r: i64)
    ensures
        r == number_int(text@, whole, trunc),
{
    match whole {
        Some(w) => w,
        None => {
            let v = crate::text::chars_of(text.as_str());
            if v.len() == 0 {
                return trunc;
            }
            let mut acc: u128 = 0;
            let mut i: usize = 0;
            while i < v.len()
                invariant
                    i <= v.len(),
                    v@ == text@,
                    whole is None,
                    forall|q: int| 0 <= q < i ==> '0' <= #[trigger] v@[q] <= '9',
                    acc == digits_value(v@.take(i as int)),
                    acc <= u64::MAX,
                decreases v.len() - i,
            {
                let c = v[i];
                assert(v@.take(i + 1).drop_last() =~= v@.take(i as int));
                assert(v@.take(i + 1).last() == c);
                if !('0' <= c && c <= '9') {
                    assert(!('0' <= v@[i as int] <= '9'));
                    assert(!all_digits(text@));
                    return trunc;
                }
                let d = (c as u32 - '0' as u32) as u128;
                let next = acc * 10 + d;
                if next > 0xffff_ffff_ffff_ffffu128 {
                    proof {
                        if all_digits(text@) {
                            lemma_digits_grow(v@, i as int + 1);
                        }
                    }
                    return trunc;
                }
                acc = next;
                i += 1;
            }
            assert(v@.take(v@.len() as int) =~= v@);
            assert(all_digits(text@));
            if acc > 0x7fff_ffff_ffff_ffffu128 {
                let wrapped: i128 = acc as i128 - 0x1_0000_0000_0000_0000i128;
                wrapped as i64
            } else {
                acc as i64
            }
        },
    }
}

/// A digit string's value does not shrink as it grows.
proof fn lemma_digits_grow(t: Seq<char>, k: int)
    requires
        0 <= k <= t.len(),
        all_digits(t),
    ensures
        digits_value(t) >= digits_value(t.take(k)),
    decreases t.len() - k,
{
    if k < t.len() {
        lemma_digits_grow(t, k + 1);
        assert(t.take(k + 1).drop_last() =~= t.take(k));
        assert(t.take(k + 1).last() == t[k]);
        lemma_digits_nonneg(t.take(k));
    } else {
        assert(t.take(k) =~= t);
    }
}

proof fn lemma_digits_nonneg(t: Seq<char>)
    requires
        forall|i: int| 0 <= i < t.len() ==> '0' <= #[trigger] t[i] <= '9',
    ensures
        digits_value(t) >= 0,
    decreases t.len(),
{
    if t.len() > 0 {
        assert(forall|i: int| 0 <= i < t.drop_last().len() ==> t.drop_last()[i] == t[i]);
        lemma_digits_nonneg(t.drop_last());
    }
}

fn as_int_exec(v: Option<&Json>, default: i64, nums: &Vec<(String, i64)>) -> (r: i64)
    ensures
        r == as_int(crate::json::opt_ref(v), default, nums@),
{
    match v {
        Some(Json::Number { text, whole, trunc }) => number_int_exec(text, *whole, *trunc),
        Some(Json::Str(s)) => {
            let t = crate::text::trim_str(s.as_str());
            if t.as_str().is_empty() {
                default
            } else {
                match lookup_num(nums, t.as_str()) {
                    Some(n) => n,
                    None => default,
                }
            }
        },
        _ => default,
    }
}

fn object_member_exec<'a>(raw: &'a Json, k: &str) -> (r: Option<&'a Json>)
    ensures
        crate::json::opt_ref(r) == object_member(*raw, k@),
{
    match raw.get(k) {
        Some(v) => if v.is_object() {
            Some(v)
        } else {
            None
        },
        None => None,
    }
}

/// The rectangle of a pane object, a geometry object or a layout node (see
/// [`rect_spec`]).
pub fn rect_from_mapping(raw: &Json, nums: &Vec<(String, i64)>) -> (r: Option<LayoutRect>)
    ensures
        r == rect_spec(*raw, nums@),
{
    if !raw.is_object() {
        return None;
    }
    let geom = object_member_exec(raw, "geometry");
    let rect = object_member_exec(raw, "rect");
    let src: &Json = if geom.is_some() && crate::json::is_truthy(geom) {
        geom.unwrap()
    } else if rect.is_some() && crate::json::is_truthy(rect) {
        rect.unwrap()
    } else {
        raw
    };
    assert(*src == rect_source(*raw));
    let wk = vec!["width", "cols", "columns", "pane_width", "w"];
    let hk = vec!["height", "rows", "pane_height", "h"];
    let xk = vec!["x", "left", "pane_left", "col"];
    let yk = vec!["y", "top", "pane_top", "row"];
    assert(strs_view(wk@) =~= width_keys());
    assert(strs_view(hk@) =~= height_keys());
    assert(strs_view(xk@) =~= x_keys());
    assert(strs_view(yk@) =~= y_keys());
    let w = as_int_exec(py_or_exec(src, &wk), 0, nums);
    let h = as_int_exec(py_or_exec(src, &hk), 0, nums);
    let x = as_int_exec(py_or_exec(src, &xk), 0, nums);
    let y = as_int_exec(py_or_exec(src, &yk), 0, nums);
    if w <= 0 && h <= 0 {
        return None;
    }
    Some(
        LayoutRect {
            x,
            y,
            width: if w >= 1 {
                w
            } else {
                1
            },
            height: if h >= 1 {
                h
            } else {
                1
            },
        },
    )
}

/// Whether a pane object reports itself as the zoomed leaf (see
/// [`zoomed_spec`]).
pub fn pane_is_zoomed(raw: &Json) -> (r: bool)
    ensures
        r == zoomed_spec(*raw),
{
    if !raw.is_object() {
        return false;
    }
    if crate::json::is_truthy(raw.get("zoomed")) || crate::json::is_truthy(raw.get("is_zoomed"))
        || crate::json::is_truthy(raw.get("zoom")) {
        return true;
    }
    match raw.get("flags") {
        Some(f) => {
            let t = value_text_of(f);
            crate::text::str_has_char(t.as_str(), 'Z')
        },
        None => false,
    }
}


fn id_under_exec(raw: &Json, key: &str) -> (r: Option<String>)
    ensures
        crate::text::opt_view(r) == id_under(*raw, key@),
{
    match raw.get(key) {
        Some(v) => {
            let textual = match v {
                Json::Str(_) => true,
                Json::Number { .. } => true,
                _ => false,
            };
            if !textual {
                return None;
            }
            let t = crate::text::trim_str(value_text_of(v).as_str());
            let ts = t.as_str();
            if ts.is_empty() || (crate::text::str_eq(key, "id") && (crate::text::str_eq(ts, "horizontal")
                || crate::text::str_eq(ts, "vertical") || crate::text::str_eq(ts, "split"))) {
                None
            } else {
                Some(t)
            }
        },
        None => None,
    }
}

fn pane_id_exec(raw: &Json) -> (r: Option<String>)
    ensures
        crate::text::opt_view(r) == pane_id_spec(*raw),
        r matches Some(p) ==> p@.len() > 0,
{
    match id_under_exec(raw, "pane_id") {
        Some(p) => Some(p),
        None => match id_under_exec(raw, "pane") {
            Some(p) => Some(p),
            None => id_under_exec(raw, "id"),
        },
    }
}

fn kind_exec(raw: &Json) -> (r: String)
    ensures
        r@ == kind_spec(*raw),
{
    let keys = vec!["kind", "type", "orientation"];
    assert(strs_view(keys@) =~= seq!["kind"@, "type"@, "orientation"@]);
    match py_or_exec(raw, &keys) {
        Some(v) => crate::status::to_lowercase(value_text_of(v).as_str()),
        None => {
            let e = String::new();
            crate::status::to_lowercase(e.as_str())
        },
    }
}

fn split_word_exec(k: &str) -> (r: bool)
    ensures
        r == split_word(k@),
{
    str_eq(k, "split") || str_eq(k, "hsplit") || str_eq(k, "vsplit") || str_eq(k, "horizontal") || str_eq(
        k,
        "vertical",
    ) || str_eq(k, "row") || str_eq(k, "column") || str_eq(k, "cols") || str_eq(k, "rows")
}

fn looks_like_split_exec(raw: &Json, kind: &str) -> (r: bool)
    ensures
        r == looks_like_split(*raw, kind@),
{
    split_word_exec(kind) || raw.get("children").is_some() || raw.get("first").is_some() || raw.get(
        "second",
    ).is_some() || raw.get("horizontal").is_some() || raw.get("vertical").is_some() || raw.get(
        "nodes",
    ).is_some()
}

fn normalize_exec(text: &str) -> (r: Option<String>)
    ensures
        crate::text::opt_view(r) == normalize_spec(text@),
{
    let lowered = crate::status::to_lowercase(text);
    let t = crate::text::trim_str(lowered.as_str());
    let s = t.as_str();
    if str_eq(s, "horizontal") || str_eq(s, "hsplit") || str_eq(s, "h") || str_eq(s, "row") || str_eq(s, "cols")
        || str_eq(s, "right") || str_eq(s, "left") || str_eq(s, "x") || str_eq(s, "split") {
        Some(crate::text::owned("horizontal"))
    } else if str_eq(s, "vertical") || str_eq(s, "vsplit") || str_eq(s, "v") || str_eq(s, "column") || str_eq(
        s,
        "rows",
    ) || str_eq(s, "down") || str_eq(s, "up") || str_eq(s, "y") {
        Some(crate::text::owned("vertical"))
    } else {
        None
    }
}

fn direction_exec(raw: &Json, kind: &String) -> (r: String)
    requires
        kind@ == kind_spec(*raw),
    ensures
        r@ == direction_spec(*raw),
{
    let keys = vec!["direction", "dir", "axis"];
    assert(strs_view(keys@) =~= seq!["direction"@, "dir"@, "axis"@]);
    let d = py_or_exec(raw, &keys);
    let input = if crate::json::is_truthy(d) {
        value_text_of(d.unwrap())
    } else if !crate::text::str_eq(kind.as_str(), "split") {
        kind.clone()
    } else {
        String::new()
    };
    match normalize_exec(input.as_str()) {
        Some(n) => n,
        None => crate::text::owned("horizontal"),
    }
}

proof fn lemma_tree_list_push(s: Seq<LayoutNode>, n: LayoutNode)
    ensures
        crate::layout::tree_list(s.push(n)) == crate::layout::tree_list(s).push(tree_view(n)),
        well_shaped_list(s.push(n)) == (well_shaped_list(s) && well_shaped(n)),
{
    assert(s.push(n).drop_last() =~= s);
    assert(s.push(n).last() == n);
}

proof fn lemma_tree_list_at(s: Seq<LayoutNode>, i: int)
    requires
        0 <= i < s.len(),
    ensures
        crate::layout::tree_list(s).len() == s.len(),
        crate::layout::tree_list(s)[i] == tree_view(s[i]),
        well_shaped_list(s) ==> well_shaped(s[i]),
        tree_rect(tree_view(s[i])) == s[i].rect,
    decreases s.len(),
{
    if i < s.len() - 1 {
        lemma_tree_list_at(s.drop_last(), i);
    } else {
        lemma_tree_list_len(s.drop_last());
    }
}

proof fn lemma_tree_list_len(s: Seq<LayoutNode>)
    ensures
        crate::layout::tree_list(s).len() == s.len(),
    decreases s.len(),
{
    if s.len() > 0 {
        lemma_tree_list_len(s.drop_last());
    }
}

fn rect_in_range(r: &LayoutRect) -> (b: bool)
    ensures
        b == rect_ok(*r),
{
    let lo: i128 = -0x4000_0000_0000_0000i128;
    let hi: i128 = 0x4000_0000_0000_0000i128;
    let x = r.x as i128;
    let y = r.y as i128;
    let right = x + r.width as i128;
    let bottom = y + r.height as i128;
    lo < x && x < hi && lo < y && y < hi && lo <= right && right <= hi && lo <= bottom && bottom <= hi
}

fn kids_bound_exec(kids: &Vec<LayoutNode>) -> (r: LayoutRect)
    requires
        kids@.len() >= 1,
    ensures
        r == kids_bound(crate::layout::tree_list(kids@)),
{
    let ghost ts = crate::layout::tree_list(kids@);
    proof {
        lemma_tree_list_len(kids@);
        lemma_tree_list_at(kids@, 0);
        assert(ts.take(1).len() == 1);
        assert(ts.take(1)[0] == ts[0]);
    }
    let mut b = kids[0].rect;
    let mut i: usize = 1;
    while i < kids.len()
        invariant
            1 <= i <= kids.len(),
            ts == crate::layout::tree_list(kids@),
            ts.len() == kids@.len(),
            b == kids_bound(ts.take(i as int)),
        decreases kids.len() - i,
    {
        proof {
            lemma_tree_list_at(kids@, i as int);
            assert(ts.take(i + 1).drop_last() =~= ts.take(i as int));
            assert(ts.take(i + 1).last() == ts[i as int]);
        }
        let c = kids[i].rect;
        if rect_in_range(&b) && rect_in_range(&c) {
            let u = b.union(&c);
            proof {
                let s = rect_union(b, c);
                assert(u == (LayoutRect { x: s.0 as i64, y: s.1 as i64, width: s.2 as i64, height: s.3 as i64 }));
            }
            b = u;
        }
        i += 1;
    }
    assert(ts.take(kids@.len() as int) =~= ts);
    b
}

fn nary_exec(direction: &str, kids: Vec<LayoutNode>, raw: Option<&Json>, nums: &Vec<(String, i64)>) -> (r: LayoutNode)
    requires
        well_shaped_list(kids@),
    ensures
        tree_view(r) == nary_spec(direction@, crate::layout::tree_list(kids@), crate::json::opt_ref(raw), nums@),
        well_shaped(r),
{
    proof {
        lemma_tree_list_len(kids@);
    }
    if kids.len() == 1 {
        proof {
            lemma_tree_list_at(kids@, 0);
        }
        let mut k = kids;
        let ghost k0 = k@;
        let n = k.pop().unwrap();
        assert(n == k0[0]);
        return n;
    }
    let own = match raw {
        Some(j) => rect_from_mapping(j, nums),
        None => None,
    };
    let rect = match own {
        Some(r) => r,
        None => if kids.len() > 0 {
            kids_bound_exec(&kids)
        } else {
            LayoutRect::unit()
        },
    };
    let kind = if crate::text::str_eq(direction, "vertical") {
        crate::text::owned("vertical")
    } else {
        crate::text::owned("horizontal")
    };
    let r = LayoutNode { kind, pane_id: None, children: kids, rect };
    proof {
        reveal_strlit("pane");
        reveal_strlit("vertical");
        reveal_strlit("horizontal");
        assert("pane"@.len() == 4);
        assert("vertical"@.len() == 8);
        assert("horizontal"@.len() == 10);
        assert(!is_pane(r));
    }
    r
}

/// The pane trees of a list of layout values, in order (see [`parse_items`]).
fn parse_items_exec(items: &Vec<Json>, nums: &Vec<(String, i64)>) -> (r: Vec<LayoutNode>)
    ensures
        crate::layout::tree_list(r@) == parse_items(items@, nums@),
        well_shaped_list(r@),
    decreases items, 0int,
{
    let mut out: Vec<LayoutNode> = Vec::new();
    let mut i: usize = 0;
    while i < items.len()
        invariant
            i <= items.len(),
            crate::layout::tree_list(out@) == parse_items(items@.take(i as int), nums@),
            well_shaped_list(out@),
        decreases items.len() - i,
    {
        proof {
            assert(items@.take(i + 1).drop_last() =~= items@.take(i as int));
            assert(items@.take(i + 1).last() == items@[i as int]);
            assert(decreases_to!(items => items@));
            assert(decreases_to!(items@ => items@[i as int]));
        }
        match parse_layout(&items[i], nums) {
            Some(n) => {
                proof {
                    lemma_tree_list_push(out@, n);
                }
                let ghost o = out@;
                out.push(n);
                assert(crate::layout::tree_list(out@) =~= parse_items(items@.take(i + 1), nums@));
            },
            None => {
                assert(parse_items(items@.take(i + 1), nums@) =~= parse_items(items@.take(i as int), nums@));
            },
        }
        i += 1;
    }
    assert(items@.take(items@.len() as int) =~= items@);
    out
}

/// The pane tree of a layout payload (see [`parse_spec`]); numeric strings
/// read through `nums`.
pub fn parse_layout(raw: &Json, nums: &Vec<(String, i64)>) -> (r: Option<LayoutNode>)
    ensures
        opt_tree(r) == parse_spec(*raw, nums@),
        r matches Some(n) ==> well_shaped(n),
    decreases raw, 3int,
{
    match raw {
        Json::Array { items, .. } => {
            if items.len() == 0 {
                return None;
            }
            if items.len() == 1 {
                proof {
                    assert(decreases_to!(raw => items));
                    assert(decreases_to!(items => items@));
                    assert(decreases_to!(items@ => items@[0]));
                }
                return parse_layout(&items[0], nums);
            }
            proof {
                assert(decreases_to!(raw => items));
            }
            let kids = parse_items_exec(items, nums);
            if kids.len() == 0 {
                proof {
                    lemma_tree_list_len(kids@);
                }
                return None;
            }
            proof {
                lemma_tree_list_len(kids@);
            }
            Some(nary_exec("vertical", kids, None, nums))
        },
        Json::Object { .. } => parse_layout_object(raw, nums),
        _ => None,
    }
}

fn parse_wrapped(raw: &Json, k: &str, nums: &Vec<(String, i64)>) -> (r: Option<LayoutNode>)
    ensures
        opt_tree(r) == wrapped(*raw, k@, nums@),
        r matches Some(n) ==> well_shaped(n),
    decreases raw, 1int,
{
    match raw.get(k) {
        Some(v) => {
            proof {
                lemma_member_smaller(*raw, k@);
            }
            parse_layout(v, nums)
        },
        None => None,
    }
}

fn parse_member_items(raw: &Json, k: &str, nums: &Vec<(String, i64)>) -> (r: Vec<LayoutNode>)
    ensures
        crate::layout::tree_list(r@) == member_items(*raw, k@, nums@),
        well_shaped_list(r@),
    decreases raw, 1int,
{
    match raw.get(k) {
        Some(m) => match m {
            Json::Array { items, .. } => {
                proof {
                    lemma_member_smaller(*raw, k@);
                    assert(decreases_to!(*m => items));
                }
                parse_items_exec(items, nums)
            },
            _ => {
                assert(crate::layout::tree_list(Seq::<LayoutNode>::empty()) =~= Seq::<Tree>::empty());
                Vec::new()
            },
        },
        None => {
            assert(crate::layout::tree_list(Seq::<LayoutNode>::empty()) =~= Seq::<Tree>::empty());
            Vec::new()
        },
    }
}

fn parse_picked(raw: &Json, keys: &Vec<&str>, nums: &Vec<(String, i64)>) -> (r: Option<LayoutNode>)
    requires
        keys@.len() >= 1,
    ensures
        opt_tree(r) == picked_tree(*raw, strs_view(keys@), nums@),
        r matches Some(n) ==> well_shaped(n),
    decreases raw, 1int,
{
    match py_or_exec(raw, keys) {
        Some(v) => {
            proof {
                lemma_py_or_smaller(*raw, strs_view(keys@));
            }
            parse_layout(v, nums)
        },
        None => None,
    }
}

fn parse_picked_items(raw: &Json, keys: &Vec<&str>, nums: &Vec<(String, i64)>) -> (r: Vec<LayoutNode>)
    requires
        keys@.len() >= 1,
    ensures
        crate::layout::tree_list(r@) == picked_items(*raw, strs_view(keys@), nums@),
        well_shaped_list(r@),
    decreases raw, 1int,
{
    match py_or_exec(raw, keys) {
        Some(m) => match m {
            Json::Array { items, .. } => {
                proof {
                    lemma_py_or_smaller(*raw, strs_view(keys@));
                    assert(decreases_to!(*m => items));
                }
                parse_items_exec(items, nums)
            },
            _ => {
                assert(crate::layout::tree_list(Seq::<LayoutNode>::empty()) =~= Seq::<Tree>::empty());
                Vec::new()
            },
        },
        None => {
            assert(crate::layout::tree_list(Seq::<LayoutNode>::empty()) =~= Seq::<Tree>::empty());
            Vec::new()
        },
    }
}

fn leaf_exec(id: Option<String>, raw: &Json, nums: &Vec<(String, i64)>) -> (r: LayoutNode)
    requires
        id matches Some(p) ==> p@.len() > 0,
    ensures
        tree_view(r) == leaf_spec(crate::text::opt_view(id), *raw, nums@),
        well_shaped(r),
{
    let rect = match rect_from_mapping(raw, nums) {
        Some(r) => r,
        None => LayoutRect::unit(),
    };
    LayoutNode::leaf(id, rect)
}

fn parse_layout_object(raw: &Json, nums: &Vec<(String, i64)>) -> (r: Option<LayoutNode>)
    ensures
        opt_tree(r) == parse_object_spec(*raw, nums@),
        r matches Some(n) ==> well_shaped(n),
    decreases raw, 2int,
{
    let w = parse_wrapped(raw, "layout", nums);
    if w.is_some() {
        return w;
    }
    let w = parse_wrapped(raw, "root", nums);
    if w.is_some() {
        return w;
    }
    let w = parse_wrapped(raw, "tree", nums);
    if w.is_some() {
        return w;
    }
    let w = parse_wrapped(raw, "node", nums);
    if w.is_some() {
        return w;
    }
    let pane_id = pane_id_exec(raw);
    let kind = kind_exec(raw);
    match raw.get("horizontal") {
        Some(Json::Array { .. }) => {
            let kids = parse_member_items(raw, "horizontal", nums);
            return Some(nary_exec("horizontal", kids, Some(raw), nums));
        },
        _ => {},
    }
    match raw.get("vertical") {
        Some(Json::Array { .. }) => {
            let kids = parse_member_items(raw, "vertical", nums);
            return Some(nary_exec("vertical", kids, Some(raw), nums));
        },
        _ => {},
    }
    if crate::text::str_eq(kind.as_str(), "pane") || crate::text::str_eq(kind.as_str(), "leaf") || (pane_id.is_some()
        && !looks_like_split_exec(raw, kind.as_str())) {
        return Some(leaf_exec(pane_id, raw, nums));
    }
    let direction = direction_exec(raw, &kind);
    let fk = vec!["first", "a", "left", "top"];
    let sk = vec!["second", "b", "right", "bottom"];
    let ck = vec!["children", "nodes", "panes"];
    assert(strs_view(fk@) =~= first_keys());
    assert(strs_view(sk@) =~= second_keys());
    assert(strs_view(ck@) =~= children_keys());
    let any_pair = py_or_exec(raw, &fk).is_some() || py_or_exec(raw, &sk).is_some();
    if any_pair {
        let mut pair: Vec<LayoutNode> = Vec::new();
        assert(crate::layout::tree_list(pair@) =~= Seq::<Tree>::empty());
        match parse_picked(raw, &fk, nums) {
            Some(n) => {
                proof {
                    lemma_tree_list_push(pair@, n);
                }
                pair.push(n);
            },
            None => {},
        }
        match parse_picked(raw, &sk, nums) {
            Some(n) => {
                proof {
                    lemma_tree_list_push(pair@, n);
                }
                pair.push(n);
            },
            None => {},
        }
        proof {
            lemma_tree_list_len(pair@);
        }
        assert(crate::layout::tree_list(pair@) =~= opt_seq(picked_tree(*raw, first_keys(), nums@)) + opt_seq(
            picked_tree(*raw, second_keys(), nums@),
        ));
        if pair.len() > 0 {
            return Some(nary_exec(direction.as_str(), pair, Some(raw), nums));
        }
    }
    let kids = parse_picked_items(raw, &ck, nums);
    proof {
        lemma_tree_list_len(kids@);
    }
    if kids.len() > 0 {
        return Some(nary_exec(direction.as_str(), kids, Some(raw), nums));
    }
    match pane_id {
        Some(p) => Some(leaf_exec(Some(p), raw, nums)),
        None => None,
    }
}


// ---- layouts by tab ----------------------------------------------------------------

/// An association list of trees, read as a map (the last entry of a key
/// counts).
pub open spec fn tree_map(s: Seq<(String, LayoutNode)>) -> Map<Seq<char>, Tree> {
    Map::new(|k: Seq<char>| lookup(s, k) is Some, |k: Seq<char>| tree_view(lookup(s, k).unwrap()))
}

/// Keys of a layouts object that hold something other than a layout.
pub open spec fn skipped_key(k: Seq<char>) -> bool {
    k == "type"@ || k == "workspaces"@ || k == "tabs"@ || k == "panes"@ || k == "agents"@ || k == "focused"@ || k
        == "result"@
}

/// The layouts under an object's keys: each key whose value parses, apart
/// from the skipped ones.
pub open spec fn entries_layouts(es: Seq<(String, Json)>, nums: Seq<(String, i64)>) -> Map<Seq<char>, Tree>
    decreases es.len(),
{
    if es.len() == 0 {
        Map::empty()
    } else {
        let m = entries_layouts(es.drop_last(), nums);
        let (k, v) = es.last();
        if skipped_key(k@) {
            m
        } else {
            match parse_spec(v, nums) {
                Some(t) => m.insert(k@, t),
                None => m,
            }
        }
    }
}

/// The layouts of a list: an object with a truthy `tab_id` is that tab's
/// layout; any other object is searched for layouts in turn.
pub open spec fn items_layouts(s: Seq<Json>, nums: Seq<(String, i64)>) -> Map<Seq<char>, Tree>
    decreases s, 0int,
{
    if s.len() == 0 {
        Map::empty()
    } else {
        let m = items_layouts(s.drop_last(), nums);
        let it = s.last();
        if it is Object {
            if truthy(json_get(it, "tab_id"@)) {
                match parse_spec(it, nums) {
                    Some(t) => m.insert(value_text(json_get(it, "tab_id"@).unwrap()), t),
                    None => m,
                }
            } else {
                m.union_prefer_right(layouts_spec(it, nums))
            }
        } else {
            m
        }
    }
}

/// The pane trees of a layouts payload, by tab id:
/// - the layouts under a `layouts` (or `result`) object or list, when it
///   holds any;
/// - an object with a `tab_id` and a `layout`, `tree` or `root` is that one
///   tab's layout (none when the id is not truthy or nothing parses);
/// - else every key's value that parses (see [`entries_layouts`]), and then
///   the layouts of a `tabs` list;
/// - a list is read item by item (see [`items_layouts`]).
pub open spec fn layouts_spec(j: Json, nums: Seq<(String, i64)>) -> Map<Seq<char>, Tree>
    decreases j, 1int,
{
    match j {
        Json::Object { entries, .. } => {
            let nested = py_or(j, seq!["layouts"@, "result"@]);
            let base = match nested {
                Some(n) => if n is Object || n is Array {
                    proof {
                        lemma_py_or_smaller(j, seq!["layouts"@, "result"@]);
                    }
                    layouts_spec(n, nums)
                } else {
                    Map::empty()
                },
                None => Map::empty(),
            };
            if base != Map::<Seq<char>, Tree>::empty() {
                base
            } else if json_get(j, "tab_id"@) is Some && (json_get(j, "layout"@) is Some || json_get(j, "tree"@) is Some
                || json_get(j, "root"@) is Some) {
                let tab = if truthy(json_get(j, "tab_id"@)) {
                    value_text(json_get(j, "tab_id"@).unwrap())
                } else {
                    Seq::empty()
                };
                match parse_spec(j, nums) {
                    Some(t) => if tab.len() > 0 {
                        Map::empty().insert(tab, t)
                    } else {
                        Map::empty()
                    },
                    None => Map::empty(),
                }
            } else {
                let m = entries_layouts(entries@, nums);
                match json_get(j, "tabs"@) {
                    Some(Json::Array { .. }) => {
                        proof {
                            lemma_member_smaller(j, "tabs"@);
                        }
                        m.union_prefer_right(layouts_spec(json_get(j, "tabs"@).unwrap(), nums))
                    },
                    _ => m,
                }
            }
        },
        Json::Array { items, .. } => {
            proof {
                assert(decreases_to!(j => items));
                assert(decreases_to!(items => items@));
            }
            items_layouts(items@, nums)
        },
        _ => Map::empty(),
    }
}

/// The rectangles of raw pane objects, in order: those with a truthy
/// `pane_id` and a rectangle.
pub open spec fn pane_rects_spec(ps: Seq<Json>, nums: Seq<(String, i64)>) -> Seq<(Seq<char>, LayoutRect)>
    decreases ps.len(),
{
    if ps.len() == 0 {
        Seq::empty()
    } else {
        let rest = pane_rects_spec(ps.drop_last(), nums);
        let p = ps.last();
        let id = if truthy(json_get(p, "pane_id"@)) {
            value_text(json_get(p, "pane_id"@).unwrap())
        } else {
            Seq::empty()
        };
        if id.len() == 0 {
            rest
        } else {
            match rect_spec(p, nums) {
                Some(r) => rest.push((id, r)),
                None => rest,
            }
        }
    }
}

pub open spec fn rects_view(s: Seq<(String, LayoutRect)>) -> Seq<(Seq<char>, LayoutRect)> {
    s.map_values(|e: (String, LayoutRect)| (e.0@, e.1))
}

/// The rectangles of raw pane objects (see [`pane_rects_spec`]).
pub fn pane_rects_from_dicts(panes: &Vec<Json>, nums: &Vec<(String, i64)>) -> (r: Vec<(String, LayoutRect)>)
    ensures
        rects_view(r@) == pane_rects_spec(panes@, nums@),
{
    let mut out: Vec<(String, LayoutRect)> = Vec::new();
    let mut i: usize = 0;
    while i < panes.len()
        invariant
            i <= panes.len(),
            rects_view(out@) == pane_rects_spec(panes@.take(i as int), nums@),
        decreases panes.len() - i,
    {
        assert(panes@.take(i + 1).drop_last() =~= panes@.take(i as int));
        assert(panes@.take(i + 1).last() == panes@[i as int]);
        let p = &panes[i];
        let v = p.get("pane_id");
        let id = if crate::json::is_truthy(v) {
            value_text_of(v.unwrap())
        } else {
            String::new()
        };
        if !id.as_str().is_empty() {
            match rect_from_mapping(p, nums) {
                Some(r) => {
                    let ghost o = out@;
                    out.push((id, r));
                    assert(rects_view(out@) =~= rects_view(o).push((id@, r)));
                },
                None => {},
            }
        }
        i += 1;
    }
    assert(panes@.take(panes@.len() as int) =~= panes@);
    out
}

proof fn lemma_tree_map_push(s: Seq<(String, LayoutNode)>, k: String, n: LayoutNode)
    ensures
        tree_map(s.push((k, n))) == tree_map(s).insert(k@, tree_view(n)),
{
    assert(s.push((k, n)).drop_last() =~= s);
    assert(s.push((k, n)).last() == (k, n));
    assert(tree_map(s.push((k, n))) =~= tree_map(s).insert(k@, tree_view(n)));
}

/// Put `(k, n)` into `out`, replacing the tree under `k`.
fn put(out: &mut Vec<(String, LayoutNode)>, k: String, n: LayoutNode)
    requires
        unique(old(out)@),
    ensures
        unique(final(out)@),
        tree_map(final(out)@) == tree_map(old(out)@).insert(k@, tree_view(n)),
{
    let ghost kv = k@;
    let ghost tv = tree_view(n);
    crate::assoc::set(out, k, n);
    assert(tree_map(out@) =~= tree_map(old(out)@).insert(kv, tv));
}

/// Move every entry of `other` into `out`, later ones replacing earlier.
fn extend(out: &mut Vec<(String, LayoutNode)>, other: Vec<(String, LayoutNode)>)
    requires
        unique(old(out)@),
    ensures
        unique(final(out)@),
        tree_map(final(out)@) == tree_map(old(out)@).union_prefer_right(tree_map(other@)),
{
    let ghost o0 = other@;
    let ghost base = tree_map(out@);
    let total = other.len();
    let mut rest = other;
    let mut i: usize = 0;
    assert(o0.skip(0) =~= o0);
    assert(tree_map(o0.take(0)) =~= Map::<Seq<char>, Tree>::empty());
    assert(base.union_prefer_right(Map::<Seq<char>, Tree>::empty()) =~= base);
    while rest.len() > 0
        invariant
            i <= o0.len(),
            o0.len() == total,
            rest@ == o0.skip(i as int),
            unique(out@),
            tree_map(out@) == base.union_prefer_right(tree_map(o0.take(i as int))),
        decreases rest.len(),
    {
        assert(rest@.len() == o0.len() - i);
        let (k, n) = rest.remove(0);
        proof {
            assert(o0[i as int] == (k, n));
            assert(o0.take(i + 1) =~= o0.take(i as int).push((k, n)));
            lemma_tree_map_push(o0.take(i as int), k, n);
            assert(rest@ =~= o0.skip(i + 1));
        }
        let ghost kv = k@;
        let ghost tv = tree_view(n);
        put(out, k, n);
        assert(tree_map(out@) =~= base.union_prefer_right(tree_map(o0.take(i + 1))));
        i += 1;
    }
    assert(o0.take(i as int) =~= o0);
}

proof fn lemma_nonempty_map(s: Seq<(String, LayoutNode)>)
    requires
        unique(s),
    ensures
        (tree_map(s) == Map::<Seq<char>, Tree>::empty()) == (s.len() == 0),
{
    if s.len() > 0 {
        crate::assoc::lemma_lookup(s);
        assert(lookup(s, s[0].0@) == Some(s[0].1));
        assert(tree_map(s).dom().contains(s[0].0@));
    } else {
        assert(tree_map(s) =~= Map::<Seq<char>, Tree>::empty());
    }
}

fn entries_layouts_exec(es: &Vec<(String, Json)>, nums: &Vec<(String, i64)>) -> (r: Vec<(String, LayoutNode)>)
    ensures
        unique(r@),
        tree_map(r@) == entries_layouts(es@, nums@),
{
    let mut out: Vec<(String, LayoutNode)> = Vec::new();
    assert(tree_map(out@) =~= Map::<Seq<char>, Tree>::empty());
    let mut i: usize = 0;
    while i < es.len()
        invariant
            i <= es.len(),
            unique(out@),
            tree_map(out@) == entries_layouts(es@.take(i as int), nums@),
        decreases es.len() - i,
    {
        assert(es@.take(i + 1).drop_last() =~= es@.take(i as int));
        assert(es@.take(i + 1).last() == es@[i as int]);
        let k = es[i].0.as_str();
        let skip = str_eq(k, "type") || str_eq(k, "workspaces") || str_eq(k, "tabs") || str_eq(k, "panes") || str_eq(
            k,
            "agents",
        ) || str_eq(k, "focused") || str_eq(k, "result");
        if !skip {
            match parse_layout(&es[i].1, nums) {
                Some(n) => put(&mut out, es[i].0.clone(), n),
                None => {},
            }
        }
        i += 1;
    }
    assert(es@.take(es@.len() as int) =~= es@);
    out
}

fn items_layouts_exec(items: &Vec<Json>, nums: &Vec<(String, i64)>) -> (r: Vec<(String, LayoutNode)>)
    ensures
        unique(r@),
        tree_map(r@) == items_layouts(items@, nums@),
    decreases items, 0int,
{
    let mut out: Vec<(String, LayoutNode)> = Vec::new();
    assert(tree_map(out@) =~= Map::<Seq<char>, Tree>::empty());
    let mut i: usize = 0;
    while i < items.len()
        invariant
            i <= items.len(),
            unique(out@),
            tree_map(out@) == items_layouts(items@.take(i as int), nums@),
        decreases items.len() - i,
    {
        proof {
            assert(items@.take(i + 1).drop_last() =~= items@.take(i as int));
            assert(items@.take(i + 1).last() == items@[i as int]);
            assert(decreases_to!(items => items@));
            assert(decreases_to!(items@ => items@[i as int]));
        }
        let it = &items[i];
        if it.is_object() {
            let tid = it.get("tab_id");
            if crate::json::is_truthy(tid) {
                match parse_layout(it, nums) {
                    Some(n) => put(&mut out, value_text_of(tid.unwrap()), n),
                    None => {},
                }
            } else {
                let found = layouts_by_tab_id(it, nums);
                extend(&mut out, found);
            }
        }
        i += 1;
    }
    assert(items@.take(items@.len() as int) =~= items@);
    out
}

/// The pane trees of a layouts payload by tab id (see [`layouts_spec`]); the
/// ids are distinct.
pub fn layouts_by_tab_id(raw: &Json, nums: &Vec<(String, i64)>) -> (r: Vec<(String, LayoutNode)>)
    ensures
        unique(r@),
        tree_map(r@) == layouts_spec(*raw, nums@),
    decreases raw, 1int,
{
    match raw {
        Json::Object { entries, .. } => {
            let keys = vec!["layouts", "result"];
            assert(strs_view(keys@) =~= seq!["layouts"@, "result"@]);
            let mut base: Vec<(String, LayoutNode)> = Vec::new();
            assert(tree_map(base@) =~= Map::<Seq<char>, Tree>::empty());
            match py_or_exec(raw, &keys) {
                Some(n) => if n.is_object() || matches!(n, Json::Array { .. }) {
                    proof {
                        lemma_py_or_smaller(*raw, seq!["layouts"@, "result"@]);
                    }
                    base = layouts_by_tab_id(n, nums);
                },
                None => {},
            }
            proof {
                lemma_nonempty_map(base@);
            }
            if base.len() > 0 {
                return base;
            }
            let tab = raw.get("tab_id");
            if tab.is_some() && (raw.get("layout").is_some() || raw.get("tree").is_some() || raw.get("root").is_some()) {
                let name = if crate::json::is_truthy(tab) {
                    value_text_of(tab.unwrap())
                } else {
                    String::new()
                };
                let mut out: Vec<(String, LayoutNode)> = Vec::new();
                assert(tree_map(out@) =~= Map::<Seq<char>, Tree>::empty());
                match parse_layout(raw, nums) {
                    Some(n) => if !name.as_str().is_empty() {
                        put(&mut out, name, n);
                    },
                    None => {},
                }
                return out;
            }
            let mut out = entries_layouts_exec(entries, nums);
            match raw.get("tabs") {
                Some(t) => if matches!(t, Json::Array { .. }) {
                    proof {
                        lemma_member_smaller(*raw, "tabs"@);
                    }
                    let found = layouts_by_tab_id(t, nums);
                    extend(&mut out, found);
                },
                None => {},
            }
            out
        },
        Json::Array { items, .. } => {
            proof {
                assert(decreases_to!(raw => items));
            }
            items_layouts_exec(items, nums)
        },
        _ => {
            let out: Vec<(String, LayoutNode)> = Vec::new();
            assert(tree_map(out@) =~= Map::<Seq<char>, Tree>::empty());
            out
        },
    }
}

} // verus!
