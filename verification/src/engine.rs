//! Window and session reconciliation: what to create, close, keep, reorder.
use vstd::prelude::*;

use crate::assoc::{lookup, unique};
use crate::impose::{
    btree, divider_view, fractions, action_view, opt_node, plan_impose, ratios_view, tree_action_spec, ImposePlan,
};
use crate::layout::{node_eq, pane_ids, signature, split_specs, splits_view, tree_ok, walk, LayoutNode, SplitSpec};
use crate::order::{key_le, keys_view, sort_keys};
use crate::session::{session_actions, actions_spec, ActionView, SessionAction};
use crate::text::{
    chars_of, contains_str, is_prefix, opt_str_view, opt_view, owned, select, select_exec, str_eq, string_from,
    strings_view,
};

verus! {

/// New output relative to the last snapshot: the suffix when `cur` extends
/// `prev`, nothing when equal, otherwise all of `cur` as a full redraw.
pub open spec fn delta(prev: Option<Seq<char>>, cur: Seq<char>) -> (Seq<char>, bool) {
    match prev {
        None => (cur, true),
        Some(p) => if cur == p {
            (Seq::empty(), false)
        } else if is_prefix(p, cur) {
            (cur.subrange(p.len() as int, cur.len() as int), false)
        } else {
            (cur, true)
        },
    }
}

/// Incremental output never loses text: whenever the delta is not a full
/// redraw, the previous snapshot followed by the delta is the current one.
pub proof fn law_delta_reconstructs(prev: Seq<char>, cur: Seq<char>)
    ensures
        !delta(Some(prev), cur).1 ==> prev + delta(Some(prev), cur).0 == cur,
        delta(Some(prev), cur).1 ==> delta(Some(prev), cur).0 == cur,
{
    if cur == prev {
        assert(prev + Seq::<char>::empty() =~= cur);
    } else if is_prefix(prev, cur) {
        assert(prev + cur.subrange(prev.len() as int, cur.len() as int) =~= cur);
    }
}

pub fn output_delta(previous: Option<&str>, current: &str) -> (r: (String, bool))
    ensures
        (r.0@, r.1) == delta(crate::text::opt_str_view(previous), current@),
{
    let previous = match previous {
        Some(p) => p,
        None => {
            return (owned(current), true);
        },
    };
    if str_eq(current, previous) {
        return (String::new(), false);
    }
    let cv = chars_of(current);
    let pv = chars_of(previous);
    if crate::text::vec_starts_with(&cv, &pv) {
        return (string_from(&cv, pv.len(), cv.len()), false);
    }
    (owned(current), true)
}

/// One provider tab (window): its base layout, and the zoomed visible layout.
#[derive(Debug)]
pub struct HerdrWindow {
    pub tab_id: String,
    pub title: String,
    pub order_index: i64,
    pub layout: LayoutNode,
    pub visible_layout: Option<LayoutNode>,
    pub zoomed: bool,
    pub active_pane_id: Option<String>,
}

impl HerdrWindow {
    /// A window; the visible layout is kept only while zoomed.
    pub fn new(
        tab_id: &str,
        title: &str,
        order_index: i64,
        layout: LayoutNode,
        visible_layout: Option<LayoutNode>,
        zoomed: bool,
        active_pane_id: Option<String>,
    ) -> (r: Self)
        ensures
            r.tab_id@ == tab_id@,
            r.title@ == title@,
            r.order_index == order_index,
            r.layout == layout,
            r.visible_layout == (if zoomed { visible_layout } else { None }),
            r.zoomed == zoomed,
            r.active_pane_id == active_pane_id,
    {
        HerdrWindow {
            tab_id: owned(tab_id),
            title: owned(title),
            order_index,
            layout,
            visible_layout: if zoomed { visible_layout } else { None },
            zoomed,
            active_pane_id,
        }
    }

    /// The layout shown: the zoomed view when present, else the base layout.
    pub fn rendered_layout(&self) -> (r: &LayoutNode)
        ensures
            *r == match self.visible_layout {
                Some(v) => v,
                None => self.layout,
            },
    {
        match &self.visible_layout {
            Some(v) => v,
            None => &self.layout,
        }
    }

    /// Pane ids of the base layout; pane lifecycle never follows the zoomed view.
    pub fn base_pane_ids(&self) -> (r: Vec<String>)
        ensures
            strings_view(r@) == pane_ids(self.layout),
    {
        self.layout.pane_ids_in_order()
    }
}

/// What the mirror last applied for one window: its tab, title, base and
/// zoomed layouts, focus, pane ids, structure version, and the surface
/// bound to each pane (keys distinct).
#[derive(Debug)]
pub struct WindowMirrorState {
    pub tab_id: String,
    pub title: String,
    pub layout: LayoutNode,
    pub visible_layout: Option<LayoutNode>,
    pub zoomed: bool,
    pub active_pane_id: Option<String>,
    pub pane_ids: Vec<String>,
    pub layout_structure_version: i64,
    pub surface_id_by_pane_id: Vec<(String, String)>,
}

/// Bind `pane_id` to `surface_id` in a window's mirror state.
pub fn bind_surface(state: &mut WindowMirrorState, pane_id: &str, surface_id: &str)
    requires
        unique(old(state).surface_id_by_pane_id@),
    ensures
        unique(final(state).surface_id_by_pane_id@),
        lookup(final(state).surface_id_by_pane_id@, pane_id@) matches Some(s) && s@ == surface_id@,
        crate::assoc::same_except(final(state).surface_id_by_pane_id@, old(state).surface_id_by_pane_id@, pane_id@),
        final(state).tab_id == old(state).tab_id,
        final(state).pane_ids == old(state).pane_ids,
        final(state).layout_structure_version == old(state).layout_structure_version,
{
    crate::assoc::set(&mut state.surface_id_by_pane_id, owned(pane_id), owned(surface_id));
}

/// What one window reconcile found: panes created, closed and kept (base
/// layout order), whether the structure or title changed, the pane to
/// focus, the splits that create the new panes, and the layout shown.
#[derive(Debug)]
pub struct ReconcileResult {
    pub created_pane_ids: Vec<String>,
    pub closed_pane_ids: Vec<String>,
    pub kept_pane_ids: Vec<String>,
    pub structure_changed: bool,
    pub title_changed: bool,
    pub focus_pane_id: Option<String>,
    pub split_specs: Vec<SplitSpec>,
    pub rendered_layout: LayoutNode,
}

/// Pane ids the mirror applied last time (none without a previous state).
pub open spec fn prev_ids(previous: Option<&WindowMirrorState>) -> Seq<Seq<char>> {
    match previous {
        Some(s) => strings_view(s.pane_ids@),
        None => Seq::empty(),
    }
}

/// The pane to focus: the window's active pane while it is live, else the
/// first live pane, else none.
pub open spec fn focus_spec(active: Option<String>, live: Seq<Seq<char>>) -> Option<Seq<char>> {
    match active {
        Some(p) if live.contains(p@) => Some(p@),
        _ => if live.len() > 0 {
            Some(live[0])
        } else {
            None
        },
    }
}

/// The planned splits whose new pane is in `created`, in order.
pub open spec fn keep_specs(
    w: Seq<(Seq<char>, Seq<char>, Seq<char>, Option<(int, int)>)>,
    created: Seq<Seq<char>>,
) -> Seq<(Seq<char>, Seq<char>, Seq<char>, Option<(int, int)>)>
    decreases w.len(),
{
    if w.len() == 0 {
        Seq::empty()
    } else if created.contains(w.last().0) {
        keep_specs(w.drop_last(), created).push(w.last())
    } else {
        keep_specs(w.drop_last(), created)
    }
}

/// The layout a window shows.
pub open spec fn shown(w: HerdrWindow) -> LayoutNode {
    match w.visible_layout {
        Some(v) => v,
        None => w.layout,
    }
}

pub open spec fn opt_node_eq(a: Option<LayoutNode>, b: Option<LayoutNode>) -> bool {
    match (a, b) {
        (Some(x), Some(y)) => node_eq(x, y),
        (None, None) => true,
        _ => false,
    }
}

/// Whether the base layout's structure changed (always, without a
/// previous state).
pub open spec fn structure_changed_spec(window: HerdrWindow, previous: Option<&WindowMirrorState>) -> bool {
    match previous {
        Some(s) => signature(s.layout) != signature(window.layout),
        None => true,
    }
}

fn copy_spec(s: &SplitSpec) -> (r: SplitSpec)
    ensures
        crate::layout::split_view(r) == crate::layout::split_view(*s),
{
    SplitSpec {
        pane_id: s.pane_id.clone(),
        split_from_pane_id: s.split_from_pane_id.clone(),
        direction: s.direction.clone(),
        ratio: s.ratio,
    }
}

/// Reconcile one window against what was applied before. Pane lifecycle
/// follows the base layout only; the zoomed layout is what is shown.
pub fn apply_window(window: &HerdrWindow, previous: Option<&WindowMirrorState>) -> (r: (
    WindowMirrorState,
    ReconcileResult,
))
    requires
        tree_ok(window.layout),
        previous matches Some(s) ==> unique(s.surface_id_by_pane_id@) && s.layout_structure_version < i64::MAX,
    ensures
        strings_view(r.1.created_pane_ids@) == select(pane_ids(window.layout), prev_ids(previous), false),
        strings_view(r.1.closed_pane_ids@) == select(prev_ids(previous), pane_ids(window.layout), false),
        strings_view(r.1.kept_pane_ids@) == select(pane_ids(window.layout), prev_ids(previous), true),
        r.1.structure_changed == structure_changed_spec(*window, previous),
        r.1.title_changed == match previous {
            Some(s) => s.title@ != window.title@,
            None => true,
        },
        opt_view(r.1.focus_pane_id) == focus_spec(window.active_pane_id, pane_ids(window.layout)),
        splits_view(r.1.split_specs@) == keep_specs(
            walk(window.layout),
            select(pane_ids(window.layout), prev_ids(previous), false),
        ),
        node_eq(r.1.rendered_layout, shown(*window)),
        r.0.tab_id@ == window.tab_id@,
        r.0.title@ == window.title@,
        node_eq(r.0.layout, window.layout),
        opt_node_eq(
            r.0.visible_layout,
            if window.zoomed {
                window.visible_layout
            } else {
                None
            },
        ),
        r.0.zoomed == window.zoomed,
        opt_view(r.0.active_pane_id) == focus_spec(window.active_pane_id, pane_ids(window.layout)),
        strings_view(r.0.pane_ids@) == pane_ids(window.layout),
        r.0.layout_structure_version == match previous {
            Some(s) => if structure_changed_spec(*window, previous) {
                s.layout_structure_version + 1
            } else {
                s.layout_structure_version as int
            },
            None => 0,
        },
        unique(r.0.surface_id_by_pane_id@),
        forall|q: Seq<char>| #[trigger]
            lookup(r.0.surface_id_by_pane_id@, q) == match previous {
                Some(s) => if select(prev_ids(previous), pane_ids(window.layout), false).contains(q) {
                    None
                } else {
                    lookup(s.surface_id_by_pane_id@, q)
                },
                None => None,
            },
{
    let live = window.base_pane_ids();
    let previous_ids: Vec<String> = match previous {
        Some(state) => crate::text::clone_strings(&state.pane_ids),
        None => Vec::new(),
    };
    assert(strings_view(previous_ids@) == prev_ids(previous));
    let created = select_exec(&live, &previous_ids, false);
    let closed = select_exec(&previous_ids, &live, false);
    let kept = select_exec(&live, &previous_ids, true);
    let structure_changed = match previous {
        Some(state) => !str_eq(
            state.layout.structure_signature().as_str(),
            window.layout.structure_signature().as_str(),
        ),
        None => true,
    };
    let title_changed = match previous {
        Some(state) => !str_eq(state.title.as_str(), window.title.as_str()),
        None => true,
    };
    let mut version: i64 = match previous {
        Some(state) => state.layout_structure_version,
        None => 0,
    };
    if previous.is_some() && structure_changed {
        version = version + 1;
    }
    let focus: Option<String> = match &window.active_pane_id {
        Some(p) if contains_str(&live, p.as_str()) => Some(p.clone()),
        _ => if live.len() > 0 {
            Some(live[0].clone())
        } else {
            None
        },
    };
    proof {
        if live@.len() > 0 {
            assert(strings_view(live@)[0] == live@[0]@);
        }
    }
    let mut surfaces: Vec<(String, String)> = Vec::new();
    match previous {
        Some(state) => {
            let mut i: usize = 0;
            while i < state.surface_id_by_pane_id.len()
                invariant
                    i <= state.surface_id_by_pane_id.len(),
                    surfaces@ == state.surface_id_by_pane_id@.subrange(0, i as int),
                decreases state.surface_id_by_pane_id.len() - i,
            {
                let entry = &state.surface_id_by_pane_id[i];
                surfaces.push((entry.0.clone(), entry.1.clone()));
                assert(state.surface_id_by_pane_id@.subrange(0, i + 1) =~= state.surface_id_by_pane_id@.subrange(
                    0,
                    i as int,
                ).push(state.surface_id_by_pane_id@[i as int]));
                i += 1;
            }
            assert(state.surface_id_by_pane_id@.subrange(0, i as int) =~= state.surface_id_by_pane_id@);
        },
        None => {},
    }
    let ghost base = surfaces@;
    proof {
        crate::assoc::lemma_empty(Seq::<(String, String)>::empty());
    }
    let mut c: usize = 0;
    while c < closed.len()
        invariant
            c <= closed.len(),
            unique(base),
            unique(surfaces@),
            forall|q: Seq<char>| #[trigger]
                lookup(surfaces@, q) == if strings_view(closed@.subrange(0, c as int)).contains(q) {
                    None
                } else {
                    lookup(base, q)
                },
        decreases closed.len() - c,
    {
        let ghost pre = surfaces@;
        crate::assoc::remove(&mut surfaces, closed[c].as_str());
        proof {
            assert(strings_view(closed@.subrange(0, c + 1)) =~= strings_view(closed@.subrange(0, c as int)).push(
                closed@[c as int]@,
            ));
            assert forall|q: Seq<char>| #[trigger]
                lookup(surfaces@, q) == if strings_view(closed@.subrange(0, c + 1)).contains(q) {
                    None
                } else {
                    lookup(base, q)
                } by {
                let sv = strings_view(closed@.subrange(0, c as int));
                if q != closed@[c as int]@ {
                    assert(lookup(surfaces@, q) == lookup(pre, q));
                    if sv.push(closed@[c as int]@).contains(q) {
                        let k = choose|k: int| 0 <= k < sv.len() + 1 && sv.push(closed@[c as int]@)[k] == q;
                        assert(sv[k] == q);
                    }
                    if sv.contains(q) {
                        let k = choose|k: int| 0 <= k < sv.len() && sv[k] == q;
                        assert(sv.push(closed@[c as int]@)[k] == q);
                    }
                } else {
                    assert(sv.push(closed@[c as int]@)[sv.len() as int] == q);
                }
            }
        }
        c += 1;
    }
    assert(closed@.subrange(0, c as int) =~= closed@);
    let all_specs = split_specs(&window.layout);
    let mut specs: Vec<SplitSpec> = Vec::new();
    let ghost w = walk(window.layout);
    let ghost cv = strings_view(created@);
    let mut k: usize = 0;
    while k < all_specs.len()
        invariant
            k <= all_specs.len(),
            splits_view(all_specs@) == w,
            splits_view(specs@) == keep_specs(w.subrange(0, k as int), cv),
            cv == strings_view(created@),
        decreases all_specs.len() - k,
    {
        let ghost pre = specs@;
        assert(w.subrange(0, k + 1).drop_last() =~= w.subrange(0, k as int));
        assert(w.subrange(0, k + 1).last() == crate::layout::split_view(all_specs@[k as int]));
        if contains_str(&created, all_specs[k].pane_id.as_str()) {
            specs.push(copy_spec(&all_specs[k]));
            assert(splits_view(specs@) =~= splits_view(pre).push(crate::layout::split_view(all_specs@[k as int])));
        }
        k += 1;
    }
    assert(w.subrange(0, k as int) =~= w);
    let visible = if window.zoomed {
        match &window.visible_layout {
            Some(v) => Some(v.duplicate()),
            None => None,
        }
    } else {
        None
    };
    let rendered = window.rendered_layout().duplicate();
    let state = WindowMirrorState {
        tab_id: window.tab_id.clone(),
        title: window.title.clone(),
        layout: window.layout.duplicate(),
        visible_layout: visible,
        zoomed: window.zoomed,
        active_pane_id: crate::text::clone_opt(&focus),
        pane_ids: live,
        layout_structure_version: version,
        surface_id_by_pane_id: surfaces,
    };
    let result = ReconcileResult {
        created_pane_ids: created,
        closed_pane_ids: closed,
        kept_pane_ids: kept,
        structure_changed,
        title_changed,
        focus_pane_id: focus,
        split_specs: specs,
        rendered_layout: rendered,
    };
    (state, result)
}

/// The impose plan after a window reconcile: the shown layout against the
/// previous render, focusing the reconcile's focus pane.
pub fn impose_after_apply(result: &ReconcileResult, previous_rendered: Option<&LayoutNode>, title: &str) -> (r:
    ImposePlan)
    ensures
        action_view(r.tree_action) == tree_action_spec(opt_node(previous_rendered), result.rendered_layout),
        divider_view(r.divider_tree) == btree(result.rendered_layout),
        ratios_view(r.fractions@) == fractions(btree(result.rendered_layout)),
        opt_view(r.focus_pane_id) == opt_view(result.focus_pane_id),
        r.title@ == title@,
        r.held_split_key is None,
{
    let focus: Option<&str> = match &result.focus_pane_id {
        Some(f) => Some(f.as_str()),
        None => None,
    };
    plan_impose(&result.rendered_layout, previous_rendered, focus, title, None)
}

/// How the session's tabs change: created, closed, kept, final order.
#[derive(Debug, Clone, PartialEq, Eq)]
pub struct SessionReconcile {
    pub created_tab_ids: Vec<String>,
    pub closed_tab_ids: Vec<String>,
    pub kept_tab_ids: Vec<String>,
    pub ordered_tab_ids: Vec<String>,
    pub order_changed: bool,
}

/// Sort keys of windows: order index, tab id, position.
pub open spec fn window_keys(ws: Seq<HerdrWindow>) -> Seq<(int, Seq<char>, int)> {
    Seq::new(ws.len(), |i: int| (ws[i].order_index as int, ws[i].tab_id@, i))
}

/// Tab ids ordered by (order index, tab id), ties in input order.
pub open spec fn ordered_tabs(ws: Seq<HerdrWindow>) -> Seq<Seq<char>> {
    window_keys(ws).sort_by(|x: (int, Seq<char>, int), y: (int, Seq<char>, int)| key_le(x, y)).map_values(
        |k: (int, Seq<char>, int)| k.1,
    )
}

/// Reconcile the desired windows against the previous tab ids.
pub fn reconcile_session(windows: &[HerdrWindow], previous_tab_ids: &Vec<String>) -> (r: SessionReconcile)
    requires
        windows@.len() < u64::MAX,
    ensures
        strings_view(r.ordered_tab_ids@) == ordered_tabs(windows@),
        strings_view(r.created_tab_ids@) == select(ordered_tabs(windows@), strings_view(previous_tab_ids@), false),
        strings_view(r.closed_tab_ids@) == select(strings_view(previous_tab_ids@), ordered_tabs(windows@), false),
        strings_view(r.kept_tab_ids@) == select(ordered_tabs(windows@), strings_view(previous_tab_ids@), true),
        r.order_changed == (select(strings_view(previous_tab_ids@), ordered_tabs(windows@), true) != select(
            ordered_tabs(windows@),
            strings_view(previous_tab_ids@),
            true,
        )),
{
    let mut keys: Vec<(i64, String, u64)> = Vec::new();
    let mut i: usize = 0;
    while i < windows.len()
        invariant
            i <= windows.len(),
            windows@.len() < u64::MAX,
            keys@.len() == i,
            keys_view(keys@) == window_keys(windows@).subrange(0, i as int),
        decreases windows.len() - i,
    {
        let ghost before = keys@;
        let k = (windows[i].order_index, windows[i].tab_id.clone(), i as u64);
        assert(crate::order::key_view(k) == window_keys(windows@)[i as int]);
        assert(keys@.len() == i);
        keys.push(k);
        assert(keys@[i as int] == k);
        assert(keys_view(keys@) =~= window_keys(windows@).subrange(0, i + 1));
        i += 1;
    }
    assert(window_keys(windows@).subrange(0, windows@.len() as int) =~= window_keys(windows@));
    let sorted = sort_keys(&keys);
    let mut ordered: Vec<String> = Vec::new();
    let mut j: usize = 0;
    let ghost sk = keys_view(sorted@);
    while j < sorted.len()
        invariant
            j <= sorted.len(),
            sk == keys_view(sorted@),
            ordered@.len() == j,
            strings_view(ordered@) == sk.subrange(0, j as int).map_values(|k: (int, Seq<char>, int)| k.1),
        decreases sorted.len() - j,
    {
        let t = sorted[j].1.clone();
        assert(t@ == sk[j as int].1);
        assert(ordered@.len() == j);
        let ghost ob = ordered@;
        ordered.push(t);
        assert(strings_view(ordered@) =~= strings_view(ob).push(t@));
        assert(strings_view(ordered@) =~= sk.subrange(0, j + 1).map_values(|k: (int, Seq<char>, int)| k.1));
        j += 1;
    }
    assert(sk.subrange(0, sk.len() as int) =~= sk);
    let created = select_exec(&ordered, previous_tab_ids, false);
    let closed = select_exec(previous_tab_ids, &ordered, false);
    let kept = select_exec(&ordered, previous_tab_ids, true);
    let previous_live = select_exec(previous_tab_ids, &ordered, true);
    let same = crate::text::strings_eq(&previous_live, &kept);
    SessionReconcile {
        created_tab_ids: created,
        closed_tab_ids: closed,
        kept_tab_ids: kept,
        ordered_tab_ids: ordered,
        order_changed: !same,
    }
}

/// Ordered host verbs for a session reconcile.
pub fn session_host_actions(
    reconcile: &SessionReconcile,
    titles: Option<&Vec<(String, String)>>,
    previous_titles: Option<&Vec<(String, String)>>,
    defaults_open: bool,
    focus_tab_id: Option<&str>,
) -> (r: Vec<SessionAction>)
    requires
        titles matches Some(t) ==> crate::assoc::unique(t@),
        previous_titles matches Some(t) ==> crate::assoc::unique(t@),
    ensures
        r@.map_values(|a: SessionAction| a.view_spec()) == actions_spec(
            *reconcile,
            match titles {
                Some(t) => t@,
                None => Seq::empty(),
            },
            match previous_titles {
                Some(t) => t@,
                None => Seq::empty(),
            },
            defaults_open,
            opt_str_view(focus_tab_id),
        ),
{
    session_actions(reconcile, titles, previous_titles, defaults_open, focus_tab_id)
}

} // verus!
