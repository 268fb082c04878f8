//! The cmux mirror of a Herdr topology: keys of mirrored surfaces, and the
//! idempotent reconcile plan from the desired mirrors to the persisted
//! mirror map.
use vstd::prelude::*;

use crate::assoc::{lookup, unique};
use crate::handoff::{py_repr, py_repr_spec};
use crate::json::{copy_json, is_truthy, json_eq, json_get, opt_get, opt_ref, truthy, Json};
use crate::impose::{btree, fractions, opt_node, overlay, specs_with_impose_fractions};
use crate::layout::{pane_ids, ratio_view, splits_view, tree_ok, walk, LayoutNode, Ratio, SplitSpec};
use crate::model::{display_name, int_text, int_text_exec, Pane, Snapshot, Tab};
use crate::order::{key3_le, key_le, keys3_view, keys_view, sort_keys, sort_keys3};
use crate::text::{clone_opt, concat2, contains_str, opt_str_view, opt_view, owned, str_eq, strings_view};
use crate::bridge::{find_json_line, json_line, json_parse, parse_json_text};

verus! {

/// Mirror key of a provider pane: `herdr-mirror:<pane_id>`.
pub fn mirror_key_for_pane(pane_id: &str) -> (r: String)
    ensures
        r@ == "herdr-mirror:"@ + pane_id@,
{
    concat2("herdr-mirror:", pane_id)
}

/// A mirror planning failure.
#[derive(Debug)]
pub struct MirrorError(pub String);

/// One Herdr pane that should exist as a cmux surface. `split_ratio` is the
/// pane's divider fraction as an exact ratio.
#[derive(Debug)]
pub struct DesiredMirror {
    pub pane_id: String,
    pub tab_id: String,
    pub workspace_id: String,
    pub title: String,
    pub role: String,
    pub split_direction: String,
    pub agent: Option<String>,
    pub agent_status: String,
    pub split_ratio: Option<Ratio>,
    pub split_from_pane_id: Option<String>,
    pub tab_number: Option<Json>,
    pub tab_index: Option<i64>,
    pub focused: bool,
    pub zoomed: bool,
    pub visible: bool,
}

impl DesiredMirror {
    /// The mirror key of this pane.
    pub fn key(&self) -> (r: String)
        ensures
            r@ == "herdr-mirror:"@ + self.pane_id@,
    {
        mirror_key_for_pane(self.pane_id.as_str())
    }
}

/// One mirror reconcile step.
#[derive(Debug)]
pub struct MirrorAction {
    pub op: String,
    pub pane_id: String,
    pub title: String,
    pub tab_id: String,
    pub role: String,
    pub split_direction: String,
    pub key: String,
    pub surface_id: Option<String>,
    pub split_from_surface_id: Option<String>,
    pub split_from_pane_id: Option<String>,
    pub ratio: Option<Ratio>,
    pub tab_index: Option<i64>,
    pub reason: String,
}

/// A mirror step as plain values.
#[verifier::ext_equal]
pub struct MirrorShape {
    pub op: Seq<char>,
    pub pane_id: Seq<char>,
    pub title: Seq<char>,
    pub tab_id: Seq<char>,
    pub role: Seq<char>,
    pub split_direction: Seq<char>,
    pub key: Seq<char>,
    pub surface_id: Option<Seq<char>>,
    pub split_from_surface_id: Option<Seq<char>>,
    pub split_from_pane_id: Option<Seq<char>>,
    pub ratio: Option<(int, int)>,
    pub tab_index: Option<i64>,
    pub reason: Seq<char>,
}

pub open spec fn opt_ratio(r: Option<Ratio>) -> Option<(int, int)> {
    match r {
        Some(x) => Some(ratio_view(x)),
        None => None,
    }
}

pub open spec fn mirror_view(a: MirrorAction) -> MirrorShape {
    MirrorShape {
        op: a.op@,
        pane_id: a.pane_id@,
        title: a.title@,
        tab_id: a.tab_id@,
        role: a.role@,
        split_direction: a.split_direction@,
        key: a.key@,
        surface_id: opt_view(a.surface_id),
        split_from_surface_id: opt_view(a.split_from_surface_id),
        split_from_pane_id: opt_view(a.split_from_pane_id),
        ratio: opt_ratio(a.ratio),
        tab_index: a.tab_index,
        reason: a.reason@,
    }
}

pub open spec fn mirrors_view(v: Seq<MirrorAction>) -> Seq<MirrorShape> {
    v.map_values(|a: MirrorAction| mirror_view(a))
}

/// The ordered reconcile plan.
#[derive(Debug)]
pub struct MirrorPlan {
    pub actions: Vec<MirrorAction>,
    pub scope: String,
    pub desired_count: usize,
}

impl Default for MirrorPlan {
    /// An empty plan for the current tab.
    fn default() -> (r: MirrorPlan)
        ensures
            r.actions@.len() == 0,
            r.scope@ == "current-tab"@,
            r.desired_count == 0,
    {
        MirrorPlan { actions: Vec::new(), scope: owned("current-tab"), desired_count: 0 }
    }
}

/// The steps whose op is one of `ops`, in plan order.
pub open spec fn steps_with(v: Seq<MirrorShape>, ops: Seq<Seq<char>>) -> Seq<MirrorShape>
    decreases v.len(),
{
    if v.len() == 0 {
        Seq::empty()
    } else if ops.contains(v.last().op) {
        steps_with(v.drop_last(), ops).push(v.last())
    } else {
        steps_with(v.drop_last(), ops)
    }
}

pub open spec fn refs_view(v: Seq<&MirrorAction>) -> Seq<MirrorShape> {
    v.map_values(|a: &MirrorAction| mirror_view(*a))
}

impl MirrorPlan {
    fn matching(&self, first: &str, second: &str) -> (r: Vec<&MirrorAction>)
        ensures
            refs_view(r@) == steps_with(mirrors_view(self.actions@), seq![first@, second@]),
    {
        let mut out: Vec<&MirrorAction> = Vec::new();
        let mut i: usize = 0;
        while i < self.actions.len()
            invariant
                i <= self.actions.len(),
                refs_view(out@) == steps_with(
                    mirrors_view(self.actions@.subrange(0, i as int)),
                    seq![first@, second@],
                ),
            decreases self.actions.len() - i,
        {
            let a = &self.actions[i];
            let ghost pre = out@;
            assert(mirrors_view(self.actions@.subrange(0, i + 1)) =~= mirrors_view(
                self.actions@.subrange(0, i as int),
            ).push(mirror_view(*a)));
            let hit = str_eq(a.op.as_str(), first) || str_eq(a.op.as_str(), second);
            proof {
                let ops = seq![first@, second@];
                let v = mirrors_view(self.actions@.subrange(0, i + 1));
                assert(v.drop_last() =~= mirrors_view(self.actions@.subrange(0, i as int)));
                assert(v.last() == mirror_view(*a));
                if ops.contains(a.op@) {
                    let k = choose|k: int| 0 <= k < 2 && ops[k] == a.op@;
                    assert(k == 0 || k == 1);
                }
                if hit {
                    if a.op@ == first@ {
                        assert(ops[0] == a.op@);
                    } else {
                        assert(ops[1] == a.op@);
                    }
                }
            }
            if hit {
                out.push(a);
                assert(refs_view(out@) =~= refs_view(pre).push(mirror_view(*a)));
            }
            i += 1;
        }
        assert(self.actions@.subrange(0, i as int) =~= self.actions@);
        out
    }

    /// The surface creations (new tabs and new splits).
    pub fn creates(&self) -> (r: Vec<&MirrorAction>)
        ensures
            refs_view(r@) == steps_with(mirrors_view(self.actions@), seq!["create_tab"@, "create_split"@]),
    {
        self.matching("create_tab", "create_split")
    }

    /// The renames.
    pub fn renames(&self) -> (r: Vec<&MirrorAction>)
        ensures
            refs_view(r@) == steps_with(mirrors_view(self.actions@), seq!["rename"@, "rename"@]),
    {
        self.matching("rename", "rename")
    }

    /// The prunes.
    pub fn prunes(&self) -> (r: Vec<&MirrorAction>)
        ensures
            refs_view(r@) == steps_with(mirrors_view(self.actions@), seq!["prune"@, "prune"@]),
    {
        self.matching("prune", "prune")
    }

    /// The surfaces kept as they are.
    pub fn keeps(&self) -> (r: Vec<&MirrorAction>)
        ensures
            refs_view(r@) == steps_with(mirrors_view(self.actions@), seq!["keep"@, "keep"@]),
    {
        self.matching("keep", "keep")
    }

    /// The divider ratio updates.
    pub fn ratio_updates(&self) -> (r: Vec<&MirrorAction>)
        ensures
            refs_view(r@) == steps_with(mirrors_view(self.actions@), seq!["set_ratio"@, "set_ratio"@]),
    {
        self.matching("set_ratio", "set_ratio")
    }

    /// The tab moves.
    pub fn moves(&self) -> (r: Vec<&MirrorAction>)
        ensures
            refs_view(r@) == steps_with(mirrors_view(self.actions@), seq!["move_tab"@, "move_tab"@]),
    {
        self.matching("move_tab", "move_tab")
    }

    /// The focus changes.
    pub fn focuses(&self) -> (r: Vec<&MirrorAction>)
        ensures
            refs_view(r@) == steps_with(mirrors_view(self.actions@), seq!["focus"@, "focus"@]),
    {
        self.matching("focus", "focus")
    }
}

// ---- reading the persisted mirror map ------------------------------------------

/// The persisted entry of a pane, when it is an object.
pub open spec fn entry_of(existing: Json, pane: Seq<char>) -> Option<Json> {
    match json_get(existing, pane) {
        Some(e) => if e is Object {
            Some(e)
        } else {
            None
        },
        None => None,
    }
}

/// Whether a surface is live (any surface is, without a live list).
pub open spec fn surface_live(live: Option<Seq<Seq<char>>>, s: Seq<char>) -> bool {
    match live {
        Some(l) => l.contains(s),
        None => true,
    }
}

/// The live, non-empty surface the map records for a pane.
pub open spec fn mapped_surface(existing: Json, live: Option<Seq<Seq<char>>>, pane: Seq<char>) -> Option<Seq<char>> {
    match opt_get(entry_of(existing, pane), "cmux_surface_id"@) {
        Some(Json::Str(s)) => if s@.len() > 0 && surface_live(live, s@) {
            Some(s@)
        } else {
            None
        },
        _ => None,
    }
}

/// The display text of a value: `None` when missing, strings verbatim,
/// anything else its literal rendering.
pub open spec fn display_str(v: Option<Json>) -> Seq<char> {
    match v {
        None => "None"@,
        Some(Json::Str(s)) => s@,
        Some(j) => py_repr_spec(j),
    }
}

/// `str(v) if v else default`.
pub open spec fn value_or(v: Option<Json>, default: Seq<char>) -> Seq<char> {
    if truthy(v) {
        display_str(v)
    } else {
        default
    }
}

/// The string items of an array, in order.
pub open spec fn strings_in(items: Seq<Json>) -> Seq<Seq<char>>
    decreases items.len(),
{
    if items.len() == 0 {
        Seq::empty()
    } else {
        match items.last() {
            Json::Str(s) => strings_in(items.drop_last()).push(s@),
            _ => strings_in(items.drop_last()),
        }
    }
}

/// The string items of a value that is an array (none otherwise).
pub open spec fn str_items(v: Option<Json>) -> Seq<Seq<char>> {
    match v {
        Some(Json::Array { items, .. }) => strings_in(items@),
        _ => Seq::empty(),
    }
}

/// Engine hints: a non-empty object.
pub open spec fn engine_hints(engine: Option<Json>) -> Option<Json> {
    match engine {
        Some(e) => match e {
            Json::Object { entries, .. } => if entries@.len() > 0 {
                Some(e)
            } else {
                None
            },
            _ => None,
        },
        None => None,
    }
}

pub open spec fn protected_ids(engine: Option<Json>) -> Seq<Seq<char>> {
    str_items(opt_get(engine_hints(engine), "protected_pane_ids"@))
}

pub open spec fn closed_ids(engine: Option<Json>) -> Seq<Seq<char>> {
    str_items(opt_get(engine_hints(engine), "closed_pane_ids"@))
}

/// The panes the engine created this pass, when there are hints.
pub open spec fn created_ids(engine: Option<Json>) -> Option<Seq<Seq<char>>> {
    match engine_hints(engine) {
        Some(h) => Some(str_items(json_get(h, "created_pane_ids"@))),
        None => None,
    }
}

/// The integer a JSON boolean (0 or 1) or integer-shaped number stands for.
pub open spec fn py_int(v: Option<Json>) -> Option<i64> {
    match v {
        Some(Json::Bool(b)) => Some(
            if b {
                1i64
            } else {
                0i64
            },
        ),
        Some(Json::Number { text, whole, .. }) => if int_text(text@) {
            whole
        } else {
            None
        },
        _ => None,
    }
}

fn entry_of_exec<'a>(existing: &'a Json, pane: &str) -> (r: Option<&'a Json>)
    ensures
        opt_ref(r) == entry_of(*existing, pane@),
{
    match existing.get(pane) {
        Some(e) => if e.is_object() {
            Some(e)
        } else {
            None
        },
        None => None,
    }
}

pub open spec fn opt_strings(v: Option<&Vec<String>>) -> Option<Seq<Seq<char>>> {
    match v {
        Some(l) => Some(strings_view(l@)),
        None => None,
    }
}

fn mapped_surface_exec(existing: &Json, live: Option<&Vec<String>>, pane: &str) -> (r: Option<String>)
    ensures
        opt_view(r) == mapped_surface(*existing, opt_strings(live), pane@),
{
    let entry = entry_of_exec(existing, pane);
    let v = match entry {
        Some(e) => e.get("cmux_surface_id"),
        None => None,
    };
    match v {
        Some(Json::Str(s)) => {
            if s.as_str().is_empty() {
                return None;
            }
            match live {
                Some(l) => if !contains_str(l, s.as_str()) {
                    return None;
                },
                None => {},
            }
            Some(s.clone())
        },
        _ => None,
    }
}

fn display_str_exec(v: Option<&Json>) -> (r: String)
    ensures
        r@ == display_str(opt_ref(v)),
{
    match v {
        None => owned("None"),
        Some(Json::Str(s)) => s.clone(),
        Some(j) => py_repr(j),
    }
}

fn value_or_exec(v: Option<&Json>, default: &str) -> (r: String)
    ensures
        r@ == value_or(opt_ref(v), default@),
{
    if is_truthy(v) {
        display_str_exec(v)
    } else {
        owned(default)
    }
}

fn str_items_exec(v: Option<&Json>) -> (r: Vec<String>)
    ensures
        strings_view(r@) == str_items(opt_ref(v)),
{
    let mut out: Vec<String> = Vec::new();
    match v {
        Some(Json::Array { items, .. }) => {
            let mut i: usize = 0;
            while i < items.len()
                invariant
                    i <= items.len(),
                    strings_view(out@) == strings_in(items@.subrange(0, i as int)),
                decreases items.len() - i,
            {
                assert(items@.subrange(0, i + 1).drop_last() =~= items@.subrange(0, i as int));
                assert(items@.subrange(0, i + 1).last() == items@[i as int]);
                match &items[i] {
                    Json::Str(s) => {
                        let ghost pre = out@;
                        out.push(s.clone());
                        assert(strings_view(out@) =~= strings_view(pre).push(s@));
                    },
                    _ => {},
                }
                i += 1;
            }
            assert(items@.subrange(0, i as int) =~= items@);
        },
        _ => {},
    }
    out
}

fn py_int_exec(v: Option<&Json>) -> (r: Option<i64>)
    ensures
        r == py_int(opt_ref(v)),
{
    match v {
        Some(Json::Bool(b)) => Some(
            if *b {
                1
            } else {
                0
            },
        ),
        Some(Json::Number { text, whole, .. }) => if int_text_exec(text.as_str()) {
            *whole
        } else {
            None
        },
        _ => None,
    }
}

fn engine_hints_exec(engine: Option<&Json>) -> (r: Option<&Json>)
    ensures
        opt_ref(r) == engine_hints(opt_ref(engine)),
{
    match engine {
        Some(e) => match e {
            Json::Object { entries, .. } => if entries.len() > 0 {
                Some(e)
            } else {
                None
            },
            _ => None,
        },
        None => None,
    }
}

// ---- the reconcile plan ----------------------------------------------------------

pub open spec fn opt_mirror(o: Option<MirrorAction>) -> Option<MirrorShape> {
    match o {
        Some(a) => Some(mirror_view(a)),
        None => None,
    }
}

pub open spec fn opt_seq(o: Option<MirrorShape>) -> Seq<MirrorShape> {
    match o {
        Some(x) => seq![x],
        None => Seq::empty(),
    }
}

/// A step on a desired pane, carrying its fields.
pub open spec fn base(item: DesiredMirror, op: Seq<char>, surface: Option<Seq<char>>, reason: Seq<char>) -> MirrorShape {
    MirrorShape {
        op,
        pane_id: item.pane_id@,
        title: item.title@,
        tab_id: item.tab_id@,
        role: item.role@,
        split_direction: item.split_direction@,
        key: "herdr-mirror:"@ + item.pane_id@,
        surface_id: surface,
        split_from_surface_id: None,
        split_from_pane_id: opt_view(item.split_from_pane_id),
        ratio: opt_ratio(item.split_ratio),
        tab_index: item.tab_index,
        reason,
    }
}

fn base_action(item: &DesiredMirror, op: &str, surface: Option<String>, reason: &str) -> (r: MirrorAction)
    ensures
        mirror_view(r) == base(*item, op@, opt_view(surface), reason@),
{
    MirrorAction {
        op: owned(op),
        pane_id: item.pane_id.clone(),
        title: item.title.clone(),
        tab_id: item.tab_id.clone(),
        role: item.role.clone(),
        split_direction: item.split_direction.clone(),
        key: item.key(),
        surface_id: surface,
        split_from_surface_id: None,
        split_from_pane_id: clone_opt(&item.split_from_pane_id),
        ratio: item.split_ratio,
        tab_index: item.tab_index,
        reason: owned(reason),
    }
}

/// The mapped surface of the last tab root of `tab` (among `d`) that has
/// one.
pub open spec fn root_of(d: Seq<DesiredMirror>, existing: Json, live: Option<Seq<Seq<char>>>, tab: Seq<char>) -> Option<
    Seq<char>,
>
    decreases d.len(),
{
    if d.len() == 0 {
        None
    } else {
        let x = d.last();
        if x.role@ == "tab-root"@ && x.tab_id@ == tab && mapped_surface(existing, live, x.pane_id@) is Some {
            mapped_surface(existing, live, x.pane_id@)
        } else {
            root_of(d.drop_last(), existing, live, tab)
        }
    }
}

/// The first-pass step of desired pane `i`: keep or rename a mapped
/// surface (rename when the recorded title is set, differs and is not
/// locked); otherwise create it (a tab for a tab root, a split off the
/// tab's root surface for a split), unless engine hints say it was neither
/// created this pass nor protected.
pub open spec fn item_step(
    d: Seq<DesiredMirror>,
    i: int,
    existing: Json,
    live: Option<Seq<Seq<char>>>,
    engine: Option<Json>,
) -> Option<MirrorShape> {
    let item = d[i];
    let pane = item.pane_id@;
    match mapped_surface(existing, live, pane) {
        Some(s) => {
            let entry = entry_of(existing, pane);
            let prior = value_or(opt_get(entry, "title"@), Seq::empty());
            let locked = truthy(opt_get(entry, "title_lock"@));
            if prior != Seq::<char>::empty() && prior != item.title@ && !locked {
                Some(base(item, "rename"@, Some(s), "title changed"@))
            } else {
                Some(base(item, "keep"@, Some(s), Seq::empty()))
            }
        },
        None => if created_ids(engine) matches Some(c) && !c.contains(pane) && !protected_ids(engine).contains(
            pane,
        ) {
            None
        } else if item.role@ == "tab-root"@ {
            Some(base(item, "create_tab"@, None, "missing tab-root surface"@))
        } else {
            Some(
                MirrorShape {
                    split_from_surface_id: root_of(d.take(i), existing, live, item.tab_id@),
                    ..base(item, "create_split"@, None, "missing split surface"@)
                },
            )
        },
    }
}

pub open spec fn first_pass(
    d: Seq<DesiredMirror>,
    n: int,
    existing: Json,
    live: Option<Seq<Seq<char>>>,
    engine: Option<Json>,
) -> Seq<MirrorShape>
    decreases n,
{
    if n <= 0 {
        Seq::empty()
    } else {
        first_pass(d, n - 1, existing, live, engine) + opt_seq(item_step(d, n - 1, existing, live, engine))
    }
}

fn first_pass_exec(
    desired: &Vec<DesiredMirror>,
    existing: &Json,
    live: Option<&Vec<String>>,
    engine: Option<&Json>,
    out: &mut Vec<MirrorAction>,
)
    ensures
        mirrors_view(final(out)@) == mirrors_view(old(out)@) + first_pass(
            desired@,
            desired@.len() as int,
            *existing,
            opt_strings(live),
            opt_ref(engine),
        ),
{
    let ghost lv = opt_strings(live);
    let ghost en = opt_ref(engine);
    let ghost start = mirrors_view(out@);
    let hints = engine_hints_exec(engine);
    let protected = match hints {
        Some(h) => str_items_exec(h.get("protected_pane_ids")),
        None => Vec::new(),
    };
    let created: Option<Vec<String>> = match hints {
        Some(h) => Some(str_items_exec(h.get("created_pane_ids"))),
        None => None,
    };
    assert(strings_view(protected@) == protected_ids(en));
    let mut roots: Vec<(String, String)> = Vec::new();
    let mut i: usize = 0;
    while i < desired.len()
        invariant
            i <= desired.len(),
            lv == opt_strings(live),
            en == opt_ref(engine),
            strings_view(protected@) == protected_ids(en),
            match created {
                Some(c) => created_ids(en) == Some(strings_view(c@)),
                None => created_ids(en) is None,
            },
            unique(roots@),
            forall|tab: Seq<char>| #[trigger]
                opt_view(lookup(roots@, tab)) == root_of(desired@.take(i as int), *existing, lv, tab),
            mirrors_view(out@) == start + first_pass(desired@, i as int, *existing, lv, en),
        decreases desired.len() - i,
    {
        let item = &desired[i];
        let surface = mapped_surface_exec(existing, live, item.pane_id.as_str());
        let is_root = str_eq(item.role.as_str(), "tab-root");
        let ghost pre = mirrors_view(out@);
        let step: Option<MirrorAction> = match surface {
            Some(s) => {
                let entry = entry_of_exec(existing, item.pane_id.as_str());
                let title_v = match entry {
                    Some(e) => e.get("title"),
                    None => None,
                };
                let lock_v = match entry {
                    Some(e) => e.get("title_lock"),
                    None => None,
                };
                let prior = value_or_exec(title_v, "");
                let locked = is_truthy(lock_v);
                proof {
                    assert(opt_ref(title_v) == opt_get(entry_of(*existing, item.pane_id@), "title"@));
                    assert(opt_ref(lock_v) == opt_get(entry_of(*existing, item.pane_id@), "title_lock"@));
                    assert(""@ == Seq::<char>::empty()) by {
                        reveal_strlit("");
                    }
                }
                if is_root {
                    crate::assoc::set(&mut roots, item.tab_id.clone(), s.clone());
                }
                let renamed = !prior.as_str().is_empty() && !str_eq(prior.as_str(), item.title.as_str()) && !locked;
                let ghost sp = item_step(desired@, i as int, *existing, lv, en);
                if renamed {
                    let a = base_action(item, "rename", Some(s), "title changed");
                    assert(sp == Some(base(desired@[i as int], "rename"@, Some(s@), "title changed"@)));
                    Some(a)
                } else {
                    let a = base_action(item, "keep", Some(s), "");
                    proof {
                        if prior@.len() == 0 {
                            assert(prior@ =~= Seq::<char>::empty());
                        }
                    }
                    assert(sp == Some(base(desired@[i as int], "keep"@, Some(s@), Seq::empty())));
                    Some(a)
                }
            },
            None => {
                let skip = match &created {
                    Some(c) => !contains_str(c, item.pane_id.as_str()) && !contains_str(
                        &protected,
                        item.pane_id.as_str(),
                    ),
                    None => false,
                };
                if skip {
                    None
                } else if is_root {
                    Some(base_action(item, "create_tab", None, "missing tab-root surface"))
                } else {
                    let mut a = base_action(item, "create_split", None, "missing split surface");
                    let root = match crate::assoc::get(&roots, item.tab_id.as_str()) {
                        Some(r) => Some(r.clone()),
                        None => None,
                    };
                    assert(opt_view(root) == root_of(desired@.take(i as int), *existing, lv, item.tab_id@));
                    a.split_from_surface_id = root;
                    Some(a)
                }
            },
        };
        assert(opt_mirror(step) == item_step(desired@, i as int, *existing, lv, en));
        match step {
            Some(a) => {
                out.push(a);
                assert(mirrors_view(out@) =~= pre.push(mirror_view(a)));
            },
            None => {},
        }
        proof {
            let d = desired@;
            assert(d.take(i + 1).drop_last() =~= d.take(i as int));
            assert(d.take(i + 1).last() == d[i as int]);
            assert(mirrors_view(out@) =~= pre + opt_seq(item_step(d, i as int, *existing, lv, en)));
        }
        i += 1;
    }
}

/// Pane ids of the desired mirrors.
pub open spec fn desired_ids(d: Seq<DesiredMirror>) -> Seq<Seq<char>> {
    d.map_values(|x: DesiredMirror| x.pane_id@)
}

fn has_pane(desired: &Vec<DesiredMirror>, pane: &str) -> (r: bool)
    ensures
        r == desired_ids(desired@).contains(pane@),
{
    let mut i: usize = 0;
    while i < desired.len()
        invariant
            i <= desired.len(),
            forall|j: int| 0 <= j < i ==> desired@[j].pane_id@ != pane@,
        decreases desired.len() - i,
    {
        if str_eq(desired[i].pane_id.as_str(), pane) {
            assert(desired_ids(desired@)[i as int] == pane@);
            return true;
        }
        i += 1;
    }
    assert forall|j: int| 0 <= j < desired_ids(desired@).len() implies desired_ids(desired@)[j] != pane@ by {
        assert(desired_ids(desired@)[j] == desired@[j].pane_id@);
    }
    false
}

pub open spec fn key_rows(es: Seq<(String, Json)>) -> Seq<(Seq<char>, Seq<char>, Seq<char>, int)> {
    Seq::new(es.len(), |i: int| (es[i].0@, Seq::<char>::empty(), Seq::<char>::empty(), i))
}

/// The keys of the persisted map in text order (ties in map order).
pub open spec fn mirror_keys(existing: Json) -> Seq<Seq<char>> {
    match existing {
        Json::Object { entries, .. } => key_rows(entries@).sort_by(
            |x: (Seq<char>, Seq<char>, Seq<char>, int), y: (Seq<char>, Seq<char>, Seq<char>, int)| key3_le(x, y),
        ).map_values(|k: (Seq<char>, Seq<char>, Seq<char>, int)| k.0),
        _ => Seq::empty(),
    }
}

/// The prune step of a persisted pane `k`: none while it is desired or
/// protected, not an object, or (with engine hints) not closed by the
/// engine; otherwise a prune carrying what the map recorded.
pub open spec fn prune_step(existing: Json, ids: Seq<Seq<char>>, engine: Option<Json>, k: Seq<char>) -> Option<
    MirrorShape,
> {
    if ids.contains(k) || protected_ids(engine).contains(k) {
        None
    } else {
        match entry_of(existing, k) {
            None => None,
            Some(e) => if engine_hints(engine) is Some && !closed_ids(engine).contains(k) {
                None
            } else {
                Some(
                    MirrorShape {
                        op: "prune"@,
                        pane_id: k,
                        title: value_or(json_get(e, "title"@), k),
                        tab_id: value_or(json_get(e, "tab_id"@), Seq::empty()),
                        role: value_or(json_get(e, "role"@), "split"@),
                        split_direction: "right"@,
                        key: value_or(json_get(e, "key"@), "herdr-mirror:"@ + k),
                        surface_id: match json_get(e, "cmux_surface_id"@) {
                            Some(Json::Str(x)) => Some(x@),
                            _ => None,
                        },
                        split_from_surface_id: None,
                        split_from_pane_id: None,
                        ratio: None,
                        tab_index: None,
                        reason: "herdr pane gone"@,
                    },
                )
            },
        }
    }
}

pub open spec fn prune_pass(keys: Seq<Seq<char>>, n: int, existing: Json, ids: Seq<Seq<char>>, engine: Option<Json>) -> Seq<
    MirrorShape,
>
    decreases n,
{
    if n <= 0 {
        Seq::empty()
    } else {
        prune_pass(keys, n - 1, existing, ids, engine) + opt_seq(prune_step(existing, ids, engine, keys[n - 1]))
    }
}

fn prune_exec(desired: &Vec<DesiredMirror>, existing: &Json, engine: Option<&Json>, out: &mut Vec<MirrorAction>)
    ensures
        mirrors_view(final(out)@) == mirrors_view(old(out)@) + prune_pass(
            mirror_keys(*existing),
            mirror_keys(*existing).len() as int,
            *existing,
            desired_ids(desired@),
            opt_ref(engine),
        ),
{
    let ghost en = opt_ref(engine);
    let ghost ids = desired_ids(desired@);
    let ghost start = mirrors_view(out@);
    let hints = engine_hints_exec(engine);
    let protected = match hints {
        Some(h) => str_items_exec(h.get("protected_pane_ids")),
        None => Vec::new(),
    };
    let closed = match hints {
        Some(h) => str_items_exec(h.get("closed_pane_ids")),
        None => Vec::new(),
    };
    let mut rows: Vec<(String, String, String, u64)> = Vec::new();
    match existing {
        Json::Object { entries, .. } => {
            let mut i: usize = 0;
            while i < entries.len()
                invariant
                    i <= entries.len(),
                    entries.len() <= usize::MAX,
                    keys3_view(rows@) == key_rows(entries@).subrange(0, i as int),
                decreases entries.len() - i,
            {
                let ghost pre = keys3_view(rows@);
                rows.push((entries[i].0.clone(), String::new(), String::new(), i as u64));
                assert(keys3_view(rows@) =~= pre.push(key_rows(entries@)[i as int]));
                assert(key_rows(entries@).subrange(0, i + 1) =~= key_rows(entries@).subrange(0, i as int).push(
                    key_rows(entries@)[i as int],
                ));
                i += 1;
            }
            assert(key_rows(entries@).subrange(0, i as int) =~= key_rows(entries@));
        },
        _ => {},
    }
    let sorted = sort_keys3(&rows);
    let ghost keys = mirror_keys(*existing);
    proof {
        if !(*existing is Object) {
            assert(keys3_view(rows@) =~= Seq::empty());
            assert(keys3_view(rows@).sort_by(
                |x: (Seq<char>, Seq<char>, Seq<char>, int), y: (Seq<char>, Seq<char>, Seq<char>, int)| key3_le(x, y),
            ).len() == 0) by {
                let leq = |x: (Seq<char>, Seq<char>, Seq<char>, int), y: (Seq<char>, Seq<char>, Seq<char>, int)|
                    key3_le(x, y);
                crate::order::lemma_key3_total_ordering();
                keys3_view(rows@).lemma_sort_by_ensures(leq);
                vstd::seq_lib::to_multiset_len(keys3_view(rows@));
                vstd::seq_lib::to_multiset_len(keys3_view(rows@).sort_by(leq));
            }
        }
        assert(keys3_view(sorted@).map_values(|k: (Seq<char>, Seq<char>, Seq<char>, int)| k.0) =~= keys);
    }
    let mut j: usize = 0;
    while j < sorted.len()
        invariant
            j <= sorted.len(),
            keys == mirror_keys(*existing),
            keys.len() == sorted@.len(),
            forall|q: int| 0 <= q < sorted@.len() ==> #[trigger] keys[q] == sorted@[q].0@,
            en == opt_ref(engine),
            ids == desired_ids(desired@),
            strings_view(protected@) == protected_ids(en),
            strings_view(closed@) == closed_ids(en),
            (hints is Some) == (engine_hints(en) is Some),
            mirrors_view(out@) == start + prune_pass(keys, j as int, *existing, ids, en),
        decreases sorted.len() - j,
    {
        let k = sorted[j].0.as_str();
        assert(keys[j as int] == k@);
        let ghost pre = mirrors_view(out@);
        let skip = has_pane(desired, k) || contains_str(&protected, k);
        let step: Option<MirrorAction> = if skip {
            None
        } else {
            match entry_of_exec(existing, k) {
                None => None,
                Some(e) => if hints.is_some() && !contains_str(&closed, k) {
                    None
                } else {
                    let surface = match e.get("cmux_surface_id") {
                        Some(Json::Str(x)) => Some(x.clone()),
                        _ => None,
                    };
                    let default_key = mirror_key_for_pane(k);
                    Some(
                        MirrorAction {
                            op: owned("prune"),
                            pane_id: owned(k),
                            title: value_or_exec(e.get("title"), k),
                            tab_id: value_or_exec(e.get("tab_id"), ""),
                            role: value_or_exec(e.get("role"), "split"),
                            split_direction: owned("right"),
                            key: value_or_exec(e.get("key"), default_key.as_str()),
                            surface_id: surface,
                            split_from_surface_id: None,
                            split_from_pane_id: None,
                            ratio: None,
                            tab_index: None,
                            reason: owned("herdr pane gone"),
                        },
                    )
                },
            }
        };
        proof {
            reveal_strlit("");
        }
        assert(opt_mirror(step) =~= prune_step(*existing, ids, en, keys[j as int]));
        match step {
            Some(a) => {
                out.push(a);
                assert(mirrors_view(out@) =~= pre.push(mirror_view(a)));
            },
            None => {},
        }
        j += 1;
    }
}

/// The ratio step of desired pane `i`: a split with a ratio and a mapped
/// surface whose recorded ratio differs (`same[i]` says whether it is the
/// same) is set again.
pub open spec fn ratio_step(
    d: Seq<DesiredMirror>,
    i: int,
    existing: Json,
    live: Option<Seq<Seq<char>>>,
    same: Seq<bool>,
) -> Option<MirrorShape> {
    let item = d[i];
    let surface = mapped_surface(existing, live, item.pane_id@);
    if item.split_ratio is Some && item.role@ == "split"@ && surface is Some && !same[i] {
        Some(base(item, "set_ratio"@, surface, "layout ratio"@))
    } else {
        None
    }
}

pub open spec fn ratio_pass(
    d: Seq<DesiredMirror>,
    n: int,
    existing: Json,
    live: Option<Seq<Seq<char>>>,
    same: Seq<bool>,
) -> Seq<MirrorShape>
    decreases n,
{
    if n <= 0 {
        Seq::empty()
    } else {
        ratio_pass(d, n - 1, existing, live, same) + opt_seq(ratio_step(d, n - 1, existing, live, same))
    }
}

/// The order step of desired pane `i`: a tab root with a tab index is
/// moved unless it has a mapped surface and the map records that index.
pub open spec fn order_step(d: Seq<DesiredMirror>, i: int, existing: Json, live: Option<Seq<Seq<char>>>) -> Option<
    MirrorShape,
> {
    let item = d[i];
    let surface = mapped_surface(existing, live, item.pane_id@);
    let prior = py_int(opt_get(entry_of(existing, item.pane_id@), "tab_index"@));
    if item.tab_index is Some && item.role@ == "tab-root"@ {
        if surface is Some && prior == item.tab_index {
            None
        } else {
            Some(base(item, "move_tab"@, surface, "herdr tab order"@))
        }
    } else {
        None
    }
}

pub open spec fn order_pass(d: Seq<DesiredMirror>, n: int, existing: Json, live: Option<Seq<Seq<char>>>) -> Seq<
    MirrorShape,
>
    decreases n,
{
    if n <= 0 {
        Seq::empty()
    } else {
        order_pass(d, n - 1, existing, live) + opt_seq(order_step(d, n - 1, existing, live))
    }
}

fn ratio_order_exec(
    desired: &Vec<DesiredMirror>,
    existing: &Json,
    live: Option<&Vec<String>>,
    same_ratio: &Vec<bool>,
    ratios: bool,
    out: &mut Vec<MirrorAction>,
)
    requires
        same_ratio@.len() == desired@.len(),
    ensures
        mirrors_view(final(out)@) == mirrors_view(old(out)@) + if ratios {
            ratio_pass(desired@, desired@.len() as int, *existing, opt_strings(live), same_ratio@)
        } else {
            order_pass(desired@, desired@.len() as int, *existing, opt_strings(live))
        },
{
    let ghost lv = opt_strings(live);
    let ghost start = mirrors_view(out@);
    let mut i: usize = 0;
    while i < desired.len()
        invariant
            i <= desired.len(),
            same_ratio@.len() == desired@.len(),
            lv == opt_strings(live),
            mirrors_view(out@) == start + if ratios {
                ratio_pass(desired@, i as int, *existing, lv, same_ratio@)
            } else {
                order_pass(desired@, i as int, *existing, lv)
            },
        decreases desired.len() - i,
    {
        let item = &desired[i];
        let surface = mapped_surface_exec(existing, live, item.pane_id.as_str());
        let ghost pre = mirrors_view(out@);
        let step: Option<MirrorAction> = if ratios {
            if item.split_ratio.is_some() && str_eq(item.role.as_str(), "split") && surface.is_some()
                && !same_ratio[i] {
                Some(base_action(item, "set_ratio", surface, "layout ratio"))
            } else {
                None
            }
        } else {
            let prior = match entry_of_exec(existing, item.pane_id.as_str()) {
                Some(e) => py_int_exec(e.get("tab_index")),
                None => py_int_exec(None),
            };
            if item.tab_index.is_some() && str_eq(item.role.as_str(), "tab-root") {
                if surface.is_some() && prior == item.tab_index {
                    None
                } else {
                    Some(base_action(item, "move_tab", surface, "herdr tab order"))
                }
            } else {
                None
            }
        };
        proof {
            if ratios {
                assert(opt_mirror(step) =~= ratio_step(desired@, i as int, *existing, lv, same_ratio@));
            } else {
                assert(opt_mirror(step) =~= order_step(desired@, i as int, *existing, lv));
            }
        }
        match step {
            Some(a) => {
                out.push(a);
                assert(mirrors_view(out@) =~= pre.push(mirror_view(a)));
            },
            None => {},
        }
        i += 1;
    }
}

/// The first desired pane (by position) with `focused` set.
pub open spec fn find_focused(d: Seq<DesiredMirror>) -> Option<int>
    decreases d.len(),
{
    if d.len() == 0 {
        None
    } else {
        match find_focused(d.drop_last()) {
            Some(i) => Some(i),
            None => if d.last().focused {
                Some(d.len() - 1)
            } else {
                None
            },
        }
    }
}

/// The first desired pane (by position) with `zoomed` set.
pub open spec fn find_zoomed(d: Seq<DesiredMirror>) -> Option<int>
    decreases d.len(),
{
    if d.len() == 0 {
        None
    } else {
        match find_zoomed(d.drop_last()) {
            Some(i) => Some(i),
            None => if d.last().zoomed {
                Some(d.len() - 1)
            } else {
                None
            },
        }
    }
}

/// The first persisted pane (in map order) recorded as focused.
pub open spec fn prior_focused_in(es: Seq<(String, Json)>) -> Option<Seq<char>>
    decreases es.len(),
{
    if es.len() == 0 {
        None
    } else {
        match prior_focused_in(es.drop_last()) {
            Some(k) => Some(k),
            None => if truthy(json_get(es.last().1, "focused"@)) {
                Some(es.last().0@)
            } else {
                None
            },
        }
    }
}

pub open spec fn prior_focused(existing: Json) -> Option<Seq<char>> {
    match existing {
        Json::Object { entries, .. } => prior_focused_in(entries@),
        _ => None,
    }
}

/// The focus step: the focused desired pane (else the zoomed one) is
/// focused unless the map already records it as focused.
pub open spec fn focus_step(d: Seq<DesiredMirror>, existing: Json, live: Option<Seq<Seq<char>>>) -> Option<
    MirrorShape,
> {
    let f = match find_focused(d) {
        Some(i) => Some(i),
        None => find_zoomed(d),
    };
    match f {
        Some(i) => if prior_focused(existing) != Some(d[i].pane_id@) {
            Some(base(d[i], "focus"@, mapped_surface(existing, live, d[i].pane_id@), "herdr focused pane"@))
        } else {
            None
        },
        None => None,
    }
}

fn find_flag(desired: &Vec<DesiredMirror>, zoomed: bool) -> (r: Option<usize>)
    ensures
        r matches Some(i) ==> i < desired@.len(),
        match r {
            Some(i) => Some(i as int) == if zoomed {
                find_zoomed(desired@)
            } else {
                find_focused(desired@)
            },
            None => (if zoomed {
                find_zoomed(desired@)
            } else {
                find_focused(desired@)
            }) is None,
        },
{
    let mut i: usize = 0;
    while i < desired.len()
        invariant
            i <= desired.len(),
            (if zoomed {
                find_zoomed(desired@.take(i as int))
            } else {
                find_focused(desired@.take(i as int))
            }) is None,
        decreases desired.len() - i,
    {
        assert(desired@.take(i + 1).drop_last() =~= desired@.take(i as int));
        assert(desired@.take(i + 1).last() == desired@[i as int]);
        let hit = if zoomed {
            desired[i].zoomed
        } else {
            desired[i].focused
        };
        if hit {
            proof {
                lemma_find_prefix(desired@, i + 1, zoomed);
            }
            return Some(i);
        }
        i += 1;
    }
    assert(desired@.take(i as int) =~= desired@);
    None
}

proof fn lemma_find_prefix(d: Seq<DesiredMirror>, k: int, zoomed: bool)
    requires
        0 <= k <= d.len(),
        (if zoomed {
            find_zoomed(d.take(k))
        } else {
            find_focused(d.take(k))
        }) is Some,
    ensures
        (if zoomed {
            find_zoomed(d)
        } else {
            find_focused(d)
        }) == (if zoomed {
            find_zoomed(d.take(k))
        } else {
            find_focused(d.take(k))
        }),
    decreases d.len() - k,
{
    if k < d.len() {
        assert(d.take(k + 1).drop_last() =~= d.take(k));
        lemma_find_prefix(d, k + 1, zoomed);
    } else {
        assert(d.take(k) =~= d);
    }
}

#[verifier::loop_isolation(false)]
fn prior_focused_exec(existing: &Json) -> (r: Option<String>)
    ensures
        opt_view(r) == prior_focused(*existing),
{
    match existing {
        Json::Object { entries, .. } => {
            let mut i: usize = 0;
            while i < entries.len()
                invariant
                    i <= entries.len(),
                    prior_focused_in(entries@.take(i as int)) is None,
                decreases entries.len() - i,
            {
                assert(entries@.take(i + 1).drop_last() =~= entries@.take(i as int));
                assert(entries@.take(i + 1).last() == entries@[i as int]);
                if is_truthy(entries[i].1.get("focused")) {
                    proof {
                        lemma_prior_prefix(entries@, i + 1);
                    }
                    return Some(entries[i].0.clone());
                }
                i += 1;
            }
            assert(entries@.take(i as int) =~= entries@);
            None
        },
        _ => None,
    }
}

proof fn lemma_prior_prefix(es: Seq<(String, Json)>, k: int)
    requires
        0 <= k <= es.len(),
        prior_focused_in(es.take(k)) is Some,
    ensures
        prior_focused_in(es) == prior_focused_in(es.take(k)),
    decreases es.len() - k,
{
    if k < es.len() {
        assert(es.take(k + 1).drop_last() =~= es.take(k));
        lemma_prior_prefix(es, k + 1);
    } else {
        assert(es.take(k) =~= es);
    }
}

/// The whole plan: the first pass over the desired panes, then (when
/// asked) prunes, ratio updates, tab moves and the focus step.
pub open spec fn plan_spec(
    d: Seq<DesiredMirror>,
    existing: Json,
    live: Option<Seq<Seq<char>>>,
    prune: bool,
    sync_focus: bool,
    sync_order: bool,
    sync_ratios: bool,
    engine: Option<Json>,
    same: Seq<bool>,
) -> Seq<MirrorShape> {
    first_pass(d, d.len() as int, existing, live, engine) + (if prune {
        prune_pass(mirror_keys(existing), mirror_keys(existing).len() as int, existing, desired_ids(d), engine)
    } else {
        Seq::empty()
    }) + (if sync_ratios {
        ratio_pass(d, d.len() as int, existing, live, same)
    } else {
        Seq::empty()
    }) + (if sync_order {
        order_pass(d, d.len() as int, existing, live)
    } else {
        Seq::empty()
    }) + (if sync_focus {
        opt_seq(focus_step(d, existing, live))
    } else {
        Seq::empty()
    })
}

/// Diff the desired mirrors against the persisted mirror map (see
/// [`plan_spec`]). `same_ratio[i]` says whether the map already records
/// desired pane `i`'s ratio (a comparison of floating-point numbers the
/// caller makes).
pub fn plan_mirror(
    desired: &Vec<DesiredMirror>,
    existing: &Json,
    live_surface_ids: Option<&Vec<String>>,
    prune: bool,
    sync_focus: bool,
    sync_order: bool,
    sync_ratios: bool,
    engine: Option<&Json>,
    same_ratio: &Vec<bool>,
) -> (r: MirrorPlan)
    requires
        same_ratio@.len() == desired@.len(),
    ensures
        mirrors_view(r.actions@) == plan_spec(
            desired@,
            *existing,
            opt_strings(live_surface_ids),
            prune,
            sync_focus,
            sync_order,
            sync_ratios,
            opt_ref(engine),
            same_ratio@,
        ),
        r.scope@ == "current-tab"@,
        r.desired_count == desired@.len(),
{
    let mut actions: Vec<MirrorAction> = Vec::new();
    first_pass_exec(desired, existing, live_surface_ids, engine, &mut actions);
    let ghost a1 = mirrors_view(actions@);
    if prune {
        prune_exec(desired, existing, engine, &mut actions);
    }
    let ghost a2 = mirrors_view(actions@);
    if sync_ratios {
        ratio_order_exec(desired, existing, live_surface_ids, same_ratio, true, &mut actions);
    }
    let ghost a3 = mirrors_view(actions@);
    if sync_order {
        ratio_order_exec(desired, existing, live_surface_ids, same_ratio, false, &mut actions);
    }
    let ghost a4 = mirrors_view(actions@);
    if sync_focus {
        let f = match find_flag(desired, false) {
            Some(i) => Some(i),
            None => find_flag(desired, true),
        };
        match f {
            Some(i) => {
                let prior = prior_focused_exec(existing);
                let same = match &prior {
                    Some(p) => str_eq(p.as_str(), desired[i].pane_id.as_str()),
                    None => false,
                };
                if !same {
                    let surface = mapped_surface_exec(existing, live_surface_ids, desired[i].pane_id.as_str());
                    actions.push(base_action(&desired[i], "focus", surface, "herdr focused pane"));
                }
            },
            None => {},
        }
    }
    proof {
        let d = desired@;
        let lv = opt_strings(live_surface_ids);
        assert(mirrors_view(actions@) =~= a4 + if sync_focus {
            opt_seq(focus_step(d, *existing, lv))
        } else {
            Seq::empty()
        });
    }
    MirrorPlan { actions, scope: owned("current-tab"), desired_count: desired.len() }
}

// ---- the desired projection ----------------------------------------------------

/// A non-empty id.
pub open spec fn nonempty(o: Option<Seq<char>>) -> Option<Seq<char>> {
    match o {
        Some(x) => if x.len() > 0 {
            Some(x)
        } else {
            None
        },
        None => None,
    }
}

/// The explicit id when non-empty, else the environment's when non-empty.
pub open spec fn pick_id(explicit: Option<Seq<char>>, env: Option<Seq<char>>) -> Option<Seq<char>> {
    match nonempty(explicit) {
        Some(x) => Some(x),
        None => nonempty(env),
    }
}

pub open spec fn scope_known(scope: Seq<char>) -> bool {
    scope == "current-tab"@ || scope == "workspace"@ || scope == "all"@
}

/// Whether a pane with an id is in scope: its tab for `current-tab`, its
/// workspace for `workspace`, every pane for `all`.
pub open spec fn in_scope(p: Pane, scope: Seq<char>, tab: Seq<char>, ws: Seq<char>) -> bool {
    &&& p.pane_id@.len() > 0
    &&& scope == "current-tab"@ ==> p.tab_id@ == tab
    &&& scope == "workspace"@ ==> p.workspace_id@ == ws
}

/// Positions of the panes in scope, in snapshot order.
pub open spec fn scoped(ps: Seq<Pane>, n: int, scope: Seq<char>, tab: Seq<char>, ws: Seq<char>) -> Seq<int>
    decreases n,
{
    if n <= 0 {
        Seq::empty()
    } else {
        scoped(ps, n - 1, scope, tab, ws) + if in_scope(ps[n - 1], scope, tab, ws) {
            seq![n - 1]
        } else {
            Seq::empty()
        }
    }
}

/// The tab a pane is grouped under: its tab, or itself without one.
pub open spec fn group_key(p: Pane) -> Seq<char> {
    if p.tab_id@.len() == 0 {
        p.pane_id@
    } else {
        p.tab_id@
    }
}

/// Group keys of the given panes, first appearances in order.
pub open spec fn distinct_keys(ps: Seq<Pane>, idx: Seq<int>) -> Seq<Seq<char>>
    decreases idx.len(),
{
    if idx.len() == 0 {
        Seq::empty()
    } else {
        let prev = distinct_keys(ps, idx.drop_last());
        let k = group_key(ps[idx.last()]);
        if prev.contains(k) {
            prev
        } else {
            prev.push(k)
        }
    }
}

/// The snapshot's tab with a given (non-empty) id; the last one wins.
pub open spec fn tab_of(tabs: Seq<Tab>, id: Seq<char>) -> Option<Tab>
    decreases tabs.len(),
{
    if tabs.len() == 0 {
        None
    } else if id.len() > 0 && tabs.last().tab_id@ == id {
        Some(tabs.last())
    } else {
        tab_of(tabs.drop_last(), id)
    }
}

/// A tab's sort number: its raw `number` when a boolean or an integer
/// (one past `i64` sorts as a billion), else its parsed number, else a
/// billion.
pub open spec fn number_for_sort(t: Tab) -> int {
    match json_get(t.raw, "number"@) {
        Some(Json::Bool(b)) => if b {
            1
        } else {
            0
        },
        Some(Json::Number { text, whole, .. }) if int_text(text@) => match whole {
            Some(n) => n as int,
            None => 1_000_000_000,
        },
        _ => match t.number {
            Some(n) => n as int,
            None => 1_000_000_000,
        },
    }
}

/// Sort rows of the group keys: those with a tab by (number, id), or
/// those without by id.
pub open spec fn tab_rows(keys: Seq<Seq<char>>, tabs: Seq<Tab>, present: bool) -> Seq<(int, Seq<char>, int)>
    decreases keys.len(),
{
    if keys.len() == 0 {
        Seq::empty()
    } else {
        let rest = tab_rows(keys.drop_last(), tabs, present);
        let k = keys.last();
        match tab_of(tabs, k) {
            Some(t) => if present {
                rest.push((number_for_sort(t), k, keys.len() - 1))
            } else {
                rest
            },
            None => if present {
                rest
            } else {
                rest.push((0, k, keys.len() - 1))
            },
        }
    }
}

pub open spec fn sorted_ids(rows: Seq<(int, Seq<char>, int)>) -> Seq<Seq<char>> {
    rows.sort_by(|x: (int, Seq<char>, int), y: (int, Seq<char>, int)| key_le(x, y)).map_values(
        |r: (int, Seq<char>, int)| r.1,
    )
}

/// The mirrored tabs in order: tabs the snapshot knows by (number, id),
/// then the others by id.
pub open spec fn ordered_groups(keys: Seq<Seq<char>>, tabs: Seq<Tab>) -> Seq<Seq<char>> {
    sorted_ids(tab_rows(keys, tabs, true)) + sorted_ids(tab_rows(keys, tabs, false))
}

/// Positions among `idx` of the panes grouped under `k`, in order.
pub open spec fn members_of(ps: Seq<Pane>, idx: Seq<int>, k: Seq<char>) -> Seq<int>
    decreases idx.len(),
{
    if idx.len() == 0 {
        Seq::empty()
    } else {
        members_of(ps, idx.drop_last(), k) + if group_key(ps[idx.last()]) == k {
            seq![idx.last()]
        } else {
            Seq::empty()
        }
    }
}

/// One mirrored tab: its id and the positions (in the snapshot's panes)
/// of its member panes.
#[derive(Debug)]
pub struct MirrorGroup {
    pub tab_id: String,
    pub members: Vec<usize>,
}

pub open spec fn positions(v: Seq<usize>) -> Seq<int> {
    v.map_values(|x: usize| x as int)
}

/// The groups are the ordered tabs of the panes in scope (see
/// [`ordered_groups`]), each with its members (see [`members_of`]).
pub open spec fn groups_match(g: Seq<MirrorGroup>, ps: Seq<Pane>, idx: Seq<int>, tabs: Seq<Tab>) -> bool {
    let order = ordered_groups(distinct_keys(ps, idx), tabs);
    &&& g.len() == order.len()
    &&& forall|k: int|
        0 <= k < g.len() ==> #[trigger] g[k].tab_id@ == order[k] && positions(g[k].members@) == members_of(
            ps,
            idx,
            order[k],
        )
}

/// The error of an unknown scope or a scope without its id.
pub open spec fn groups_error(
    scope: Seq<char>,
    tab: Option<Seq<char>>,
    ws: Option<Seq<char>>,
) -> Option<Seq<char>> {
    if !scope_known(scope) {
        Some("scope must be current-tab, workspace, or all"@)
    } else if scope == "current-tab"@ && tab is None {
        Some("scope current-tab needs HERDR_TAB_ID or --tab (or pass --all / --herdr-workspace)"@)
    } else if scope == "workspace"@ && ws is None {
        Some("scope workspace needs HERDR_WORKSPACE_ID or --herdr-workspace"@)
    } else {
        None
    }
}

pub open spec fn id_or_empty(o: Option<Seq<char>>) -> Seq<char> {
    match o {
        Some(x) => x,
        None => Seq::empty(),
    }
}

fn nonempty_exec(o: Option<&str>) -> (r: Option<&str>)
    ensures
        opt_str_view(r) == nonempty(opt_str_view(o)),
{
    match o {
        Some(x) => if x.is_empty() {
            None
        } else {
            Some(x)
        },
        None => None,
    }
}

fn tab_of_exec<'a>(tabs: &'a Vec<Tab>, id: &str) -> (r: Option<&'a Tab>)
    ensures
        match r {
            Some(t) => tab_of(tabs@, id@) == Some(*t),
            None => tab_of(tabs@, id@) is None,
        },
{
    if id.is_empty() {
        proof {
            lemma_tab_of_empty(tabs@, id@);
        }
        return None;
    }
    let mut i: usize = tabs.len();
    assert(tabs@.take(tabs@.len() as int) =~= tabs@);
    while i > 0
        invariant
            i <= tabs.len(),
            id@.len() > 0,
            tab_of(tabs@, id@) == tab_of(tabs@.take(i as int), id@),
        decreases i,
    {
        let ghost t = tabs@.take(i as int);
        assert(t.drop_last() =~= tabs@.take(i - 1));
        assert(t.last() == tabs@[i - 1]);
        if str_eq(tabs[i - 1].tab_id.as_str(), id) {
            return Some(&tabs[i - 1]);
        }
        i -= 1;
    }
    None
}

proof fn lemma_tab_of_empty(tabs: Seq<Tab>, id: Seq<char>)
    requires
        id.len() == 0,
    ensures
        tab_of(tabs, id) is None,
    decreases tabs.len(),
{
    if tabs.len() > 0 {
        lemma_tab_of_empty(tabs.drop_last(), id);
    }
}

fn number_for_sort_exec(t: &Tab) -> (r: i64)
    ensures
        r == number_for_sort(*t),
{
    match t.raw.get("number") {
        Some(Json::Bool(b)) => if *b {
            1
        } else {
            0
        },
        Some(Json::Number { text, whole, .. }) if int_text_exec(text.as_str()) => match whole {
            Some(n) => *n,
            None => 1_000_000_000,
        },
        _ => match t.number {
            Some(n) => n,
            None => 1_000_000_000,
        },
    }
}

fn group_key_exec(p: &Pane) -> (r: String)
    ensures
        r@ == group_key(*p),
{
    if p.tab_id.as_str().is_empty() {
        p.pane_id.clone()
    } else {
        p.tab_id.clone()
    }
}

fn sorted_ids_exec(rows: &Vec<(i64, String, u64)>, out: &mut Vec<String>)
    ensures
        strings_view(final(out)@) == strings_view(old(out)@) + sorted_ids(keys_view(rows@)),
{
    let sorted = sort_keys(rows);
    let ghost start = strings_view(out@);
    let ghost sv = keys_view(sorted@);
    let mut i: usize = 0;
    while i < sorted.len()
        invariant
            i <= sorted.len(),
            sv == keys_view(sorted@),
            sv == keys_view(rows@).sort_by(|x: (int, Seq<char>, int), y: (int, Seq<char>, int)| key_le(x, y)),
            strings_view(out@) == start + sv.take(i as int).map_values(|r: (int, Seq<char>, int)| r.1),
        decreases sorted.len() - i,
    {
        let ghost pre = strings_view(out@);
        out.push(sorted[i].1.clone());
        assert(sv[i as int].1 == sorted@[i as int].1@);
        assert(sv.take(i + 1).map_values(|r: (int, Seq<char>, int)| r.1) =~= sv.take(i as int).map_values(
            |r: (int, Seq<char>, int)| r.1,
        ).push(sv[i as int].1));
        assert(strings_view(out@) =~= pre.push(sorted@[i as int].1@));
        i += 1;
    }
    assert(sv.take(i as int) =~= sv);
}

/// The mirrored tabs of a snapshot in a scope, each with its member panes
/// (see [`ordered_groups`] and [`members_of`]). The tab and workspace ids
/// come from the arguments, else from the environment's values.
#[verifier::rlimit(60)]
pub fn mirror_groups(
    snapshot: &Snapshot,
    scope: &str,
    current_tab_id: Option<&str>,
    current_workspace_id: Option<&str>,
    env_tab_id: Option<&str>,
    env_workspace_id: Option<&str>,
) -> (r: Result<Vec<MirrorGroup>, MirrorError>)
    ensures
        match r {
            Err(e) => groups_error(
                scope@,
                pick_id(opt_str_view(current_tab_id), opt_str_view(env_tab_id)),
                pick_id(opt_str_view(current_workspace_id), opt_str_view(env_workspace_id)),
            ) == Some(e.0@),
            Ok(g) => groups_error(
                scope@,
                pick_id(opt_str_view(current_tab_id), opt_str_view(env_tab_id)),
                pick_id(opt_str_view(current_workspace_id), opt_str_view(env_workspace_id)),
            ) is None && groups_match(
                g@,
                snapshot.panes@,
                scoped(
                    snapshot.panes@,
                    snapshot.panes@.len() as int,
                    scope@,
                    id_or_empty(pick_id(opt_str_view(current_tab_id), opt_str_view(env_tab_id))),
                    id_or_empty(pick_id(opt_str_view(current_workspace_id), opt_str_view(env_workspace_id))),
                ),
                snapshot.tabs@,
            ),
        },
{
    let ghost tab = pick_id(opt_str_view(current_tab_id), opt_str_view(env_tab_id));
    let ghost wsv = pick_id(opt_str_view(current_workspace_id), opt_str_view(env_workspace_id));
    proof {
        reveal_strlit("current-tab");
        reveal_strlit("workspace");
        reveal_strlit("all");
    }
    let is_tab = str_eq(scope, "current-tab");
    let is_ws = str_eq(scope, "workspace");
    if !is_tab && !is_ws && !str_eq(scope, "all") {
        return Err(MirrorError(owned("scope must be current-tab, workspace, or all")));
    }
    let tab_id: Option<&str> = match nonempty_exec(current_tab_id) {
        Some(x) => Some(x),
        None => nonempty_exec(env_tab_id),
    };
    let ws_id: Option<&str> = match nonempty_exec(current_workspace_id) {
        Some(x) => Some(x),
        None => nonempty_exec(env_workspace_id),
    };
    assert(opt_str_view(tab_id) == tab);
    assert(opt_str_view(ws_id) == wsv);
    if is_tab && tab_id.is_none() {
        return Err(
            MirrorError(owned("scope current-tab needs HERDR_TAB_ID or --tab (or pass --all / --herdr-workspace)")),
        );
    }
    if is_ws && ws_id.is_none() {
        return Err(MirrorError(owned("scope workspace needs HERDR_WORKSPACE_ID or --herdr-workspace")));
    }
    proof {
        assert("current-tab"@ != "workspace"@) by {
            assert("current-tab"@[0] != "workspace"@[0]);
        }
    }
    let t = match tab_id {
        Some(x) => x,
        None => "",
    };
    let w = match ws_id {
        Some(x) => x,
        None => "",
    };
    proof {
        reveal_strlit("");
    }
    let ghost ps = snapshot.panes@;
    let ghost tv = id_or_empty(tab);
    let ghost wv = id_or_empty(wsv);
    assert(t@ == tv);
    assert(w@ == wv);
    let mut idx: Vec<usize> = Vec::new();
    let mut i: usize = 0;
    while i < snapshot.panes.len()
        invariant
            i <= snapshot.panes.len(),
            ps == snapshot.panes@,
            t@ == tv,
            w@ == wv,
            is_tab == (scope@ == "current-tab"@),
            is_ws == (scope@ == "workspace"@),
            positions(idx@) == scoped(ps, i as int, scope@, tv, wv),
            forall|q: int| 0 <= q < idx@.len() ==> idx@[q] < i,
        decreases snapshot.panes.len() - i,
    {
        let p = &snapshot.panes[i];
        let ok = !p.pane_id.as_str().is_empty() && (!is_tab || str_eq(p.tab_id.as_str(), t)) && (!is_ws
            || str_eq(p.workspace_id.as_str(), w));
        let ghost pre = positions(idx@);
        if ok {
            idx.push(i);
            assert(positions(idx@) =~= pre.push(i as int));
        } else {
            assert(positions(idx@) =~= pre + Seq::<int>::empty());
        }
        i += 1;
    }
    let ghost sidx = positions(idx@);
    assert(sidx == scoped(ps, ps.len() as int, scope@, tv, wv));
    let mut keys: Vec<String> = Vec::new();
    let mut j: usize = 0;
    while j < idx.len()
        invariant
            j <= idx.len(),
            ps == snapshot.panes@,
            sidx == positions(idx@),
            forall|q: int| 0 <= q < idx@.len() ==> idx@[q] < ps.len(),
            strings_view(keys@) == distinct_keys(ps, sidx.take(j as int)),
        decreases idx.len() - j,
    {
        assert(sidx.take(j + 1).drop_last() =~= sidx.take(j as int));
        assert(sidx.take(j + 1).last() == idx@[j as int] as int);
        let k = group_key_exec(&snapshot.panes[idx[j]]);
        if !contains_str(&keys, k.as_str()) {
            let ghost pre = strings_view(keys@);
            keys.push(k);
            assert(strings_view(keys@) =~= pre.push(k@));
        }
        j += 1;
    }
    assert(sidx.take(idx@.len() as int) =~= sidx);
    let ghost kv = strings_view(keys@);
    let mut present: Vec<(i64, String, u64)> = Vec::new();
    let mut absent: Vec<(i64, String, u64)> = Vec::new();
    let mut k: usize = 0;
    while k < keys.len()
        invariant
            k <= keys.len(),
            kv == strings_view(keys@),
            keys_view(present@) == tab_rows(kv.take(k as int), snapshot.tabs@, true),
            keys_view(absent@) == tab_rows(kv.take(k as int), snapshot.tabs@, false),
        decreases keys.len() - k,
    {
        assert(kv.take(k + 1).drop_last() =~= kv.take(k as int));
        assert(kv.take(k + 1).last() == keys@[k as int]@);
        let ghost p0 = keys_view(present@);
        let ghost a0 = keys_view(absent@);
        match tab_of_exec(&snapshot.tabs, keys[k].as_str()) {
            Some(tb) => {
                present.push((number_for_sort_exec(tb), keys[k].clone(), k as u64));
                assert(keys_view(present@) =~= p0.push((number_for_sort(*tb), keys@[k as int]@, k as int)));
            },
            None => {
                absent.push((0, keys[k].clone(), k as u64));
                assert(keys_view(absent@) =~= a0.push((0, keys@[k as int]@, k as int)));
            },
        }
        k += 1;
    }
    assert(kv.take(keys@.len() as int) =~= kv);
    let mut order: Vec<String> = Vec::new();
    sorted_ids_exec(&present, &mut order);
    sorted_ids_exec(&absent, &mut order);
    let ghost ov = strings_view(order@);
    assert(ov =~= ordered_groups(distinct_keys(ps, sidx), snapshot.tabs@));
    let mut groups: Vec<MirrorGroup> = Vec::new();
    let mut g: usize = 0;
    while g < order.len()
        invariant
            g <= order.len(),
            ps == snapshot.panes@,
            sidx == positions(idx@),
            ov == strings_view(order@),
            groups@.len() == g,
            forall|q: int| 0 <= q < g ==> #[trigger] groups@[q].tab_id@ == ov[q] && positions(groups@[q].members@)
                == members_of(ps, sidx, ov[q]),
            forall|q: int| 0 <= q < idx@.len() ==> idx@[q] < ps.len(),
        decreases order.len() - g,
    {
        let mut members: Vec<usize> = Vec::new();
        let mut m: usize = 0;
        while m < idx.len()
            invariant
                m <= idx.len(),
                g < order.len(),
                ps == snapshot.panes@,
                sidx == positions(idx@),
                forall|q: int| 0 <= q < idx@.len() ==> idx@[q] < ps.len(),
                positions(members@) == members_of(ps, sidx.take(m as int), order@[g as int]@),
            decreases idx.len() - m,
        {
            assert(sidx.take(m + 1).drop_last() =~= sidx.take(m as int));
            assert(sidx.take(m + 1).last() == idx@[m as int] as int);
            let key = group_key_exec(&snapshot.panes[idx[m]]);
            let ghost pre = positions(members@);
            if str_eq(key.as_str(), order[g].as_str()) {
                members.push(idx[m]);
                assert(positions(members@) =~= pre + seq![idx@[m as int] as int]);
            } else {
                assert(positions(members@) =~= pre + Seq::<int>::empty());
            }
            m += 1;
        }
        assert(sidx.take(idx@.len() as int) =~= sidx);
        let ghost before = groups@;
        let ghost mv = positions(members@);
        groups.push(MirrorGroup { tab_id: order[g].clone(), members });
        proof {
            assert(ov[g as int] == order@[g as int]@);
            assert(mv == members_of(ps, sidx, ov[g as int]));
            assert(groups@[g as int].tab_id@ == ov[g as int]);
            assert(positions(groups@[g as int].members@) == mv);
            assert forall|q: int| 0 <= q < g + 1 implies #[trigger] groups@[q].tab_id@ == ov[q] && positions(
                groups@[q].members@,
            ) == members_of(ps, sidx, ov[q]) by {
                if q < g {
                    assert(groups@[q] == before[q]);
                } else {
                    assert(q == g);
                }
            }
        }
        g += 1;
    }
    assert(groups_error(scope@, tab, wsv) is None);
    proof {
        let idx2 = scoped(ps, ps.len() as int, scope@, tv, wv);
        let order2 = ordered_groups(distinct_keys(ps, idx2), snapshot.tabs@);
        assert(ov == order2);
        assert(idx2 == sidx);
        assert(groups@.len() == order2.len());
        assert forall|q: int| 0 <= q < groups@.len() implies #[trigger] groups@[q].tab_id@ == order2[q] && positions(
            groups@[q].members@,
        ) == members_of(ps, idx2, order2[q]) by {
            assert(groups@[q].tab_id@ == ov[q]);
            assert(positions(groups@[q].members@) == members_of(ps, sidx, ov[q]));
        }
        assert(groups_match(groups@, ps, idx2, snapshot.tabs@));
    }
    Ok(groups)
}

/// The label of a tab: its raw `label` when present (its text when truthy,
/// else none), else its parsed label when non-empty.
pub open spec fn tab_label(tab: Option<Tab>) -> Option<Seq<char>> {
    match tab {
        None => None,
        Some(t) => match json_get(t.raw, "label"@) {
            Some(v) => if truthy(Some(v)) {
                Some(display_str(Some(v)))
            } else {
                None
            },
            None => match t.label {
                Some(l) => if l@.len() > 0 {
                    Some(l@)
                } else {
                    None
                },
                None => None,
            },
        },
    }
}

/// A mirror's title: a tab root shows its tab's label; otherwise the
/// pane's display name when it is more than its id, else `agent@pane`,
/// else the tab's label, else the pane id.
pub open spec fn pane_title(p: Pane, tab: Option<Tab>, role: Seq<char>) -> Seq<char> {
    let name = display_name(p);
    if role == "tab-root"@ && tab_label(tab) is Some {
        tab_label(tab).unwrap()
    } else if name.len() > 0 && name != p.pane_id@ {
        name
    } else if p.agent matches Some(a) && a@.len() > 0 {
        p.agent.unwrap()@ + "@"@ + p.pane_id@
    } else if tab_label(tab) is Some {
        tab_label(tab).unwrap()
    } else {
        p.pane_id@
    }
}

/// The last position of `p` in `order`.
pub open spec fn idx_of(order: Seq<Seq<char>>, p: Seq<char>) -> Option<int>
    decreases order.len(),
{
    if order.len() == 0 {
        None
    } else if order.last() == p {
        Some(order.len() - 1)
    } else {
        idx_of(order.drop_last(), p)
    }
}

/// Sort rows of a tab's members: those the layout places by (layout
/// position, id), or the others by (focused first, id); each row carries
/// the member's position in the group.
pub open spec fn member_rows(ps: Seq<Pane>, ms: Seq<int>, order: Seq<Seq<char>>, placed: bool) -> Seq<
    (int, Seq<char>, int),
>
    decreases ms.len(),
{
    if ms.len() == 0 {
        Seq::empty()
    } else {
        let rest = member_rows(ps, ms.drop_last(), order, placed);
        let p = ps[ms.last()];
        let j = ms.len() - 1;
        match idx_of(order, p.pane_id@) {
            Some(x) => if placed {
                rest.push((x, p.pane_id@, j))
            } else {
                rest
            },
            None => if placed {
                rest
            } else {
                rest.push(
                    (
                        if p.focused {
                            0
                        } else {
                            1
                        },
                        p.pane_id@,
                        j,
                    ),
                )
            },
        }
    }
}

pub open spec fn sorted_rows(rows: Seq<(int, Seq<char>, int)>) -> Seq<(int, Seq<char>, int)> {
    rows.sort_by(|x: (int, Seq<char>, int), y: (int, Seq<char>, int)| key_le(x, y))
}

/// A tab's members in mirror order (snapshot positions): the panes the
/// layout places, by layout position, then the others, focused first.
pub open spec fn member_order(ps: Seq<Pane>, ms: Seq<int>, order: Seq<Seq<char>>) -> Seq<int> {
    let rows = sorted_rows(member_rows(ps, ms, order, true)) + sorted_rows(member_rows(ps, ms, order, false));
    rows.map_values(|r: (int, Seq<char>, int)| ms[r.2])
}

/// The first of `mo` (in order) that is zoomed, and focused when `focused`
/// is asked.
pub open spec fn first_zoomed(ps: Seq<Pane>, mo: Seq<int>, zoomed: Seq<bool>, focused: bool) -> Option<int>
    decreases mo.len(),
{
    if mo.len() == 0 {
        None
    } else {
        match first_zoomed(ps, mo.drop_last(), zoomed, focused) {
            Some(k) => Some(k),
            None => if zoomed[mo.last()] && (!focused || ps[mo.last()].focused) {
                Some(mo.len() - 1)
            } else {
                None
            },
        }
    }
}

/// The zoomed pane of a tab: a focused zoomed member, else any zoomed one.
pub open spec fn zoomed_pane(ps: Seq<Pane>, mo: Seq<int>, zoomed: Seq<bool>) -> Option<Seq<char>> {
    match first_zoomed(ps, mo, zoomed, true) {
        Some(k) => Some(ps[mo[k]].pane_id@),
        None => match first_zoomed(ps, mo, zoomed, false) {
            Some(k) => Some(ps[mo[k]].pane_id@),
            None => None,
        },
    }
}

/// The last planned split creating pane `p`.
pub open spec fn spec_of(
    specs: Seq<(Seq<char>, Seq<char>, Seq<char>, Option<(int, int)>)>,
    p: Seq<char>,
) -> Option<(Seq<char>, Seq<char>, Seq<char>, Option<(int, int)>)>
    decreases specs.len(),
{
    if specs.len() == 0 {
        None
    } else if specs.last().0 == p {
        Some(specs.last())
    } else {
        spec_of(specs.drop_last(), p)
    }
}

/// A desired mirror as plain values (its tab number aside).
#[verifier::ext_equal]
pub struct DesiredShape {
    pub pane_id: Seq<char>,
    pub tab_id: Seq<char>,
    pub workspace_id: Seq<char>,
    pub title: Seq<char>,
    pub role: Seq<char>,
    pub split_direction: Seq<char>,
    pub agent: Option<Seq<char>>,
    pub agent_status: Seq<char>,
    pub split_ratio: Option<(int, int)>,
    pub split_from_pane_id: Option<Seq<char>>,
    pub tab_index: Option<i64>,
    pub focused: bool,
    pub zoomed: bool,
    pub visible: bool,
}

pub open spec fn desired_view(d: DesiredMirror) -> DesiredShape {
    DesiredShape {
        pane_id: d.pane_id@,
        tab_id: d.tab_id@,
        workspace_id: d.workspace_id@,
        title: d.title@,
        role: d.role@,
        split_direction: d.split_direction@,
        agent: opt_view(d.agent),
        agent_status: d.agent_status@,
        split_ratio: opt_ratio(d.split_ratio),
        split_from_pane_id: opt_view(d.split_from_pane_id),
        tab_index: d.tab_index,
        focused: d.focused,
        zoomed: d.zoomed,
        visible: d.visible,
    }
}

/// The layout's planned splits (none without a layout).
pub open spec fn layout_specs(layout: Option<LayoutNode>) -> Seq<(Seq<char>, Seq<char>, Seq<char>, Option<(int, int)>)> {
    match layout {
        Some(n) => overlay(walk(n), fractions(btree(n))),
        None => Seq::empty(),
    }
}

pub open spec fn layout_order(layout: Option<LayoutNode>) -> Seq<Seq<char>> {
    match layout {
        Some(n) => pane_ids(n),
        None => Seq::empty(),
    }
}

/// The desired mirror of member `k` (in mirror order) of a tab: the first
/// member is the tab root, the rest splits; direction, ratio and split
/// parent come from the layout's split plan, else the direction alternates
/// `down`/`right`; the title is cut to 80 characters.
pub open spec fn mirror_for(
    p: Pane,
    k: int,
    tab_id: Seq<char>,
    tab: Option<Tab>,
    specs: Seq<(Seq<char>, Seq<char>, Seq<char>, Option<(int, int)>)>,
    tab_index: int,
    zoomed: Option<Seq<char>>,
) -> DesiredShape {
    let role = if k == 0 {
        "tab-root"@
    } else {
        "split"@
    };
    let spec = spec_of(specs, p.pane_id@);
    DesiredShape {
        pane_id: p.pane_id@,
        tab_id,
        workspace_id: p.workspace_id@,
        title: crate::text::truncate(pane_title(p, tab, role), 80),
        role,
        split_direction: match spec {
            Some(x) => x.2,
            None => if k % 2 == 1 {
                "right"@
            } else {
                "down"@
            },
        },
        agent: opt_view(p.agent),
        agent_status: if p.agent_status@.len() == 0 {
            "unknown"@
        } else {
            p.agent_status@
        },
        split_ratio: match spec {
            Some(x) => x.3,
            None => None,
        },
        split_from_pane_id: match spec {
            Some(x) => Some(x.1),
            None => None,
        },
        tab_index: Some(tab_index as i64),
        focused: p.focused,
        zoomed: zoomed == Some(p.pane_id@),
        visible: zoomed is None || zoomed == Some(p.pane_id@),
    }
}

/// A tab's number as the mirror records it: its raw `number` unless null,
/// else its parsed number.
pub open spec fn tab_number_matches(n: Option<Json>, tab: Option<Tab>) -> bool {
    match tab {
        None => n is None,
        Some(t) => match json_get(t.raw, "number"@) {
            Some(v) if !(v is Null) => n matches Some(x) && json_eq(v, x),
            _ => match t.number {
                Some(k) => n matches Some(Json::Number { text, whole, trunc }) && text@ == crate::text::dec_int(
                    k as int,
                ) && whole == Some(k) && trunc == k,
                None => n is None,
            },
        },
    }
}

fn idx_of_exec(order: &Vec<String>, p: &str) -> (r: Option<usize>)
    ensures
        match r {
            Some(i) => i < order@.len() && idx_of(strings_view(order@), p@) == Some(i as int),
            None => idx_of(strings_view(order@), p@) is None,
        },
{
    let ghost ov = strings_view(order@);
    let mut i: usize = order.len();
    assert(ov.take(ov.len() as int) =~= ov);
    while i > 0
        invariant
            i <= order.len(),
            ov == strings_view(order@),
            idx_of(ov, p@) == idx_of(ov.take(i as int), p@),
        decreases i,
    {
        assert(ov.take(i as int).drop_last() =~= ov.take(i - 1));
        assert(ov.take(i as int).last() == order@[i - 1]@);
        if str_eq(order[i - 1].as_str(), p) {
            return Some(i - 1);
        }
        i -= 1;
    }
    None
}

fn spec_of_exec(specs: &Vec<SplitSpec>, p: &str) -> (r: Option<usize>)
    ensures
        match r {
            Some(i) => i < specs@.len() && spec_of(splits_view(specs@), p@) == Some(
                crate::layout::split_view(specs@[i as int]),
            ),
            None => spec_of(splits_view(specs@), p@) is None,
        },
{
    let ghost sv = splits_view(specs@);
    let mut i: usize = specs.len();
    assert(sv.take(sv.len() as int) =~= sv);
    while i > 0
        invariant
            i <= specs.len(),
            sv == splits_view(specs@),
            spec_of(sv, p@) == spec_of(sv.take(i as int), p@),
        decreases i,
    {
        assert(sv.take(i as int).drop_last() =~= sv.take(i - 1));
        assert(sv.take(i as int).last() == crate::layout::split_view(specs@[i - 1]));
        if str_eq(specs[i - 1].pane_id.as_str(), p) {
            return Some(i - 1);
        }
        i -= 1;
    }
    None
}

fn tab_label_exec(tab: Option<&Tab>) -> (r: Option<String>)
    ensures
        opt_view(r) == tab_label(match tab {
            Some(t) => Some(*t),
            None => None,
        }),
{
    match tab {
        None => None,
        Some(t) => match t.raw.get("label") {
            Some(v) => if is_truthy(Some(v)) {
                Some(display_str_exec(Some(v)))
            } else {
                None
            },
            None => match &t.label {
                Some(l) => if !l.as_str().is_empty() {
                    Some(l.clone())
                } else {
                    None
                },
                None => None,
            },
        },
    }
}

fn pane_title_exec(p: &Pane, tab: Option<&Tab>, root: bool) -> (r: String)
    ensures
        r@ == pane_title(
            *p,
            match tab {
                Some(t) => Some(*t),
                None => None,
            },
            if root {
                "tab-root"@
            } else {
                "split"@
            },
        ),
{
    proof {
        reveal_strlit("tab-root");
        reveal_strlit("split");
        assert("tab-root"@ != "split"@) by {
            assert("tab-root"@[0] != "split"@[0]);
        }
    }
    let label = tab_label_exec(tab);
    if root {
        match &label {
            Some(l) => return l.clone(),
            None => {},
        }
    }
    let name = p.display_name();
    if !name.as_str().is_empty() && !str_eq(name.as_str(), p.pane_id.as_str()) {
        return name;
    }
    match &p.agent {
        Some(a) => if !a.as_str().is_empty() {
            return crate::text::concat3(a.as_str(), "@", p.pane_id.as_str());
        },
        None => {},
    }
    match label {
        Some(l) => l,
        None => p.pane_id.clone(),
    }
}

fn truncate_exec(s: &str, n: usize) -> (r: String)
    ensures
        r@ == crate::text::truncate(s@, n as nat),
{
    let v = crate::text::chars_of(s);
    if v.len() <= n {
        crate::text::string_from(&v, 0, v.len())
    } else {
        crate::text::string_from(&v, 0, n)
    }
}

fn tab_number_exec(tab: Option<&Tab>) -> (r: Option<Json>)
    ensures
        tab_number_matches(
            r,
            match tab {
                Some(t) => Some(*t),
                None => None,
            },
        ),
{
    match tab {
        None => None,
        Some(t) => match t.raw.get("number") {
            Some(v) if !v.is_null() => Some(copy_json(v)),
            _ => match t.number {
                Some(k) => Some(Json::Number { text: crate::text::int_to_string(k), whole: Some(k), trunc: k }),
                None => None,
            },
        },
    }
}

/// The desired mirrors of one tab, in mirror order (see [`member_order`]
/// and [`mirror_for`]).
pub open spec fn tab_mirrors_match(
    r: Seq<DesiredMirror>,
    ps: Seq<Pane>,
    tabs: Seq<Tab>,
    tab_index: int,
    tab_id: Seq<char>,
    ms: Seq<int>,
    layout: Option<LayoutNode>,
    zoomed: Seq<bool>,
) -> bool {
    let mo = member_order(ps, ms, layout_order(layout));
    let tab = tab_of(tabs, tab_id);
    let z = zoomed_pane(ps, mo, zoomed);
    &&& r.len() == mo.len()
    &&& forall|k: int|
        0 <= k < r.len() ==> desired_view(#[trigger] r[k]) == mirror_for(
            ps[mo[k]],
            k,
            tab_id,
            tab,
            layout_specs(layout),
            tab_index,
            z,
        ) && tab_number_matches(r[k].tab_number, tab)
}

fn push_rows(rows: &Vec<(i64, String, u64)>, members: &Vec<usize>, mo: &mut Vec<usize>)
    requires
        forall|q: int| 0 <= q < rows@.len() ==> #[trigger] rows@[q].2 < members@.len(),
    ensures
        positions(final(mo)@) == positions(old(mo)@) + sorted_rows(keys_view(rows@)).map_values(
            |r: (int, Seq<char>, int)| positions(members@)[r.2],
        ),
{
    let sorted = sort_keys(rows);
    let ghost sv = keys_view(sorted@);
    let ghost rv = keys_view(rows@);
    let ghost leq = |x: (int, Seq<char>, int), y: (int, Seq<char>, int)| key_le(x, y);
    proof {
        crate::order::lemma_key_le_total_ordering();
        rv.lemma_sort_by_ensures(leq);
        assert forall|q: int| 0 <= q < sv.len() implies #[trigger] sv[q].2 < members@.len() by {
            assert(sv.contains(sv[q]));
            assert(rv.contains(sv[q]));
            let w = choose|w: int| 0 <= w < rv.len() && rv[w] == sv[q];
            assert(rv[w].2 == rows@[w].2);
        }
    }
    let ghost start = positions(mo@);
    let mut i: usize = 0;
    while i < sorted.len()
        invariant
            i <= sorted.len(),
            sv == keys_view(sorted@),
            sv == sorted_rows(rv),
            rv == keys_view(rows@),
            forall|q: int| 0 <= q < sv.len() ==> #[trigger] sv[q].2 < members@.len(),
            positions(mo@) == start + sv.take(i as int).map_values(
                |r: (int, Seq<char>, int)| positions(members@)[r.2],
            ),
        decreases sorted.len() - i,
    {
        assert(sv[i as int].2 == sorted@[i as int].2);
        let n = members.len();
        assert(sorted@[i as int].2 < n);
        let j = sorted[i].2 as usize;
        assert(j as int == sv[i as int].2);
        let ghost pre = positions(mo@);
        mo.push(members[j]);
        assert(positions(mo@) =~= pre.push(members@[j as int] as int));
        assert(sv.take(i + 1).map_values(|r: (int, Seq<char>, int)| positions(members@)[r.2]) =~= sv.take(
            i as int,
        ).map_values(|r: (int, Seq<char>, int)| positions(members@)[r.2]).push(positions(members@)[sv[i as int].2]));
        i += 1;
    }
    assert(sv.take(i as int) =~= sv);
}

fn first_zoomed_exec(snapshot: &Snapshot, mo: &Vec<usize>, zoomed: &Vec<bool>, focused: bool) -> (r: Option<usize>)
    requires
        forall|q: int| 0 <= q < mo@.len() ==> #[trigger] mo@[q] < snapshot.panes@.len(),
        zoomed@.len() == snapshot.panes@.len(),
    ensures
        match r {
            Some(k) => k < mo@.len() && first_zoomed(snapshot.panes@, positions(mo@), zoomed@, focused) == Some(
                k as int,
            ),
            None => first_zoomed(snapshot.panes@, positions(mo@), zoomed@, focused) is None,
        },
{
    let ghost mv = positions(mo@);
    let mut i: usize = 0;
    while i < mo.len()
        invariant
            i <= mo.len(),
            mv == positions(mo@),
            forall|q: int| 0 <= q < mo@.len() ==> #[trigger] mo@[q] < snapshot.panes@.len(),
            zoomed@.len() == snapshot.panes@.len(),
            first_zoomed(snapshot.panes@, mv.take(i as int), zoomed@, focused) is None,
        decreases mo.len() - i,
    {
        assert(mv.take(i + 1).drop_last() =~= mv.take(i as int));
        assert(mv.take(i + 1).last() == mo@[i as int] as int);
        let m = mo[i];
        if zoomed[m] && (!focused || snapshot.panes[m].focused) {
            proof {
                lemma_first_zoomed_prefix(snapshot.panes@, mv, zoomed@, focused, i + 1);
            }
            return Some(i);
        }
        i += 1;
    }
    assert(mv.take(i as int) =~= mv);
    None
}

proof fn lemma_first_zoomed_prefix(ps: Seq<Pane>, mo: Seq<int>, zoomed: Seq<bool>, focused: bool, k: int)
    requires
        0 <= k <= mo.len(),
        first_zoomed(ps, mo.take(k), zoomed, focused) is Some,
    ensures
        first_zoomed(ps, mo, zoomed, focused) == first_zoomed(ps, mo.take(k), zoomed, focused),
    decreases mo.len() - k,
{
    if k < mo.len() {
        assert(mo.take(k + 1).drop_last() =~= mo.take(k));
        lemma_first_zoomed_prefix(ps, mo, zoomed, focused, k + 1);
    } else {
        assert(mo.take(k) =~= mo);
    }
}

/// The desired mirrors of one tab (see [`tab_mirrors_match`]): its members
/// (positions in the snapshot's panes), ordered by the tab's layout when
/// one is given; `zoomed[i]` says whether pane `i` reports itself zoomed.
pub fn tab_mirrors(
    snapshot: &Snapshot,
    tab_index: usize,
    group: &MirrorGroup,
    layout: Option<&LayoutNode>,
    zoomed: &Vec<bool>,
) -> (r: Vec<DesiredMirror>)
    requires
        forall|k: int| 0 <= k < group.members@.len() ==> #[trigger] group.members@[k] < snapshot.panes@.len(),
        zoomed@.len() == snapshot.panes@.len(),
        layout matches Some(n) ==> tree_ok(*n) && pane_ids(*n).len() <= i64::MAX,
        tab_index <= i64::MAX,
    ensures
        tab_mirrors_match(
            r@,
            snapshot.panes@,
            snapshot.tabs@,
            tab_index as int,
            group.tab_id@,
            positions(group.members@),
            opt_node(layout),
            zoomed@,
        ),
{
    let ghost ps = snapshot.panes@;
    let ghost ms = positions(group.members@);
    let ghost lay = opt_node(layout);
    let order: Vec<String> = match layout {
        Some(n) => n.pane_ids_in_order(),
        None => Vec::new(),
    };
    let specs: Vec<SplitSpec> = match layout {
        Some(n) => specs_with_impose_fractions(n),
        None => Vec::new(),
    };
    assert(strings_view(order@) == layout_order(lay));
    assert(splits_view(specs@) == layout_specs(lay));
    let members = &group.members;
    assert(strings_view(order@).len() == order@.len());
    assert(order@.len() <= i64::MAX);
    let mut placed: Vec<(i64, String, u64)> = Vec::new();
    let mut others: Vec<(i64, String, u64)> = Vec::new();
    let mut j: usize = 0;
    while j < members.len()
        invariant
            j <= members.len(),
            ps == snapshot.panes@,
            ms == positions(members@),
            order@.len() <= i64::MAX,
            forall|k: int| 0 <= k < members@.len() ==> #[trigger] members@[k] < ps.len(),
            keys_view(placed@) == member_rows(ps, ms.take(j as int), strings_view(order@), true),
            keys_view(others@) == member_rows(ps, ms.take(j as int), strings_view(order@), false),
            forall|q: int| 0 <= q < placed@.len() ==> #[trigger] placed@[q].2 < j,
            forall|q: int| 0 <= q < others@.len() ==> #[trigger] others@[q].2 < j,
        decreases members.len() - j,
    {
        assert(ms.take(j + 1).drop_last() =~= ms.take(j as int));
        assert(ms.take(j + 1).last() == members@[j as int] as int);
        let p = &snapshot.panes[members[j]];
        let ghost p0 = keys_view(placed@);
        let ghost o0 = keys_view(others@);
        match idx_of_exec(&order, p.pane_id.as_str()) {
            Some(x) => {
                placed.push((x as i64, p.pane_id.clone(), j as u64));
                assert(keys_view(placed@) =~= p0.push((x as int, p.pane_id@, j as int)));
            },
            None => {
                let f: i64 = if p.focused {
                    0
                } else {
                    1
                };
                others.push((f, p.pane_id.clone(), j as u64));
                assert(keys_view(others@) =~= o0.push((f as int, p.pane_id@, j as int)));
            },
        }
        j += 1;
    }
    assert(ms.take(members@.len() as int) =~= ms);
    let mut mo: Vec<usize> = Vec::new();
    push_rows(&placed, members, &mut mo);
    push_rows(&others, members, &mut mo);
    let ghost mv = positions(mo@);
    proof {
        let a = sorted_rows(member_rows(ps, ms, strings_view(order@), true));
        let b = sorted_rows(member_rows(ps, ms, strings_view(order@), false));
        let f = |r: (int, Seq<char>, int)| ms[r.2];
        assert((a + b).map_values(f) =~= a.map_values(f) + b.map_values(f));
        assert(mv =~= member_order(ps, ms, layout_order(lay)));
        assert forall|q: int| 0 <= q < mo@.len() implies #[trigger] mo@[q] < ps.len() by {
            assert(mv[q] == mo@[q] as int);
            let rows = a + b;
            assert(mv[q] == ms[rows[q].2]);
            crate::order::lemma_key_le_total_ordering();
            let leq = |x: (int, Seq<char>, int), y: (int, Seq<char>, int)| key_le(x, y);
            member_rows(ps, ms, strings_view(order@), true).lemma_sort_by_ensures(leq);
            member_rows(ps, ms, strings_view(order@), false).lemma_sort_by_ensures(leq);
            lemma_member_rows_bound(ps, ms, strings_view(order@), true);
            lemma_member_rows_bound(ps, ms, strings_view(order@), false);
            let src = if q < a.len() {
                member_rows(ps, ms, strings_view(order@), true)
            } else {
                member_rows(ps, ms, strings_view(order@), false)
            };
            let srt = if q < a.len() {
                a
            } else {
                b
            };
            let qq = if q < a.len() {
                q
            } else {
                q - a.len()
            };
            assert(rows[q] == srt[qq]);
            assert(srt.contains(srt[qq]));
            assert(src.contains(srt[qq]));
            let w = choose|w: int| 0 <= w < src.len() && src[w] == srt[qq];
            assert(0 <= src[w].2 < ms.len());
            assert(ms[src[w].2] == members@[src[w].2] as int);
        }
    }
    let z_focus = first_zoomed_exec(snapshot, &mo, zoomed, true);
    let zk: Option<usize> = match z_focus {
        Some(k) => Some(k),
        None => first_zoomed_exec(snapshot, &mo, zoomed, false),
    };
    let zid: Option<&str> = match zk {
        Some(k) => Some(snapshot.panes[mo[k]].pane_id.as_str()),
        None => None,
    };
    let ghost z = zoomed_pane(ps, mv, zoomed@);
    assert(opt_str_view(zid) == z);
    let tab = tab_of_exec(&snapshot.tabs, group.tab_id.as_str());
    let ghost tabv = tab_of(snapshot.tabs@, group.tab_id@);
    let mut out: Vec<DesiredMirror> = Vec::new();
    let mut k: usize = 0;
    while k < mo.len()
        invariant
            k <= mo.len(),
            ps == snapshot.panes@,
            mv == positions(mo@),
            tab_index <= i64::MAX,
            forall|q: int| 0 <= q < mo@.len() ==> #[trigger] mo@[q] < ps.len(),
            opt_str_view(zid) == z,
            match tab {
                Some(t) => tabv == Some(*t),
                None => tabv is None,
            },
            splits_view(specs@) == layout_specs(lay),
            out@.len() == k,
            forall|q: int|
                0 <= q < k ==> desired_view(#[trigger] out@[q]) == mirror_for(
                    ps[mv[q]],
                    q,
                    group.tab_id@,
                    tabv,
                    layout_specs(lay),
                    tab_index as int,
                    z,
                ) && tab_number_matches(out@[q].tab_number, tabv),
        decreases mo.len() - k,
    {
        let p = &snapshot.panes[mo[k]];
        assert(*p == ps[mv[k as int]]);
        let root = k == 0;
        let title = pane_title_exec(p, tab, root);
        let spec = spec_of_exec(&specs, p.pane_id.as_str());
        let direction = match spec {
            Some(i) => specs[i].direction.clone(),
            None => if k % 2 == 1 {
                owned("right")
            } else {
                owned("down")
            },
        };
        let ratio = match spec {
            Some(i) => specs[i].ratio,
            None => None,
        };
        let from = match spec {
            Some(i) => Some(specs[i].split_from_pane_id.clone()),
            None => None,
        };
        let is_zoomed = match zid {
            Some(zz) => str_eq(zz, p.pane_id.as_str()),
            None => false,
        };
        let d = DesiredMirror {
            pane_id: p.pane_id.clone(),
            tab_id: group.tab_id.clone(),
            workspace_id: p.workspace_id.clone(),
            title: truncate_exec(title.as_str(), 80),
            role: if root {
                owned("tab-root")
            } else {
                owned("split")
            },
            split_direction: direction,
            agent: clone_opt(&p.agent),
            agent_status: if p.agent_status.as_str().is_empty() {
                owned("unknown")
            } else {
                p.agent_status.clone()
            },
            split_ratio: ratio,
            split_from_pane_id: from,
            tab_number: tab_number_exec(tab),
            tab_index: Some(tab_index as i64),
            focused: p.focused,
            zoomed: is_zoomed,
            visible: zid.is_none() || is_zoomed,
        };
        proof {
            assert(desired_view(d) =~= mirror_for(
                ps[mv[k as int]],
                k as int,
                group.tab_id@,
                tabv,
                layout_specs(lay),
                tab_index as int,
                z,
            ));
        }
        let ghost before = out@;
        out.push(d);
        proof {
            assert forall|q: int|
                0 <= q < k + 1 implies desired_view(#[trigger] out@[q]) == mirror_for(
                ps[mv[q]],
                q,
                group.tab_id@,
                tabv,
                layout_specs(lay),
                tab_index as int,
                z,
            ) && tab_number_matches(out@[q].tab_number, tabv) by {
                if q < k {
                    assert(out@[q] == before[q]);
                }
            }
        }
        k += 1;
    }
    out
}

proof fn lemma_member_rows_bound(ps: Seq<Pane>, ms: Seq<int>, order: Seq<Seq<char>>, placed: bool)
    ensures
        forall|q: int| 0 <= q < member_rows(ps, ms, order, placed).len() ==> 0 <= #[trigger] member_rows(
            ps,
            ms,
            order,
            placed,
        )[q].2 < ms.len(),
    decreases ms.len(),
{
    if ms.len() > 0 {
        lemma_member_rows_bound(ps, ms.drop_last(), order, placed);
        let rest = member_rows(ps, ms.drop_last(), order, placed);
        let all = member_rows(ps, ms, order, placed);
        assert forall|q: int| 0 <= q < all.len() implies 0 <= #[trigger] all[q].2 < ms.len() by {
            if q < rest.len() {
                assert(all[q] == rest[q]);
            }
        }
    }
}


/// What cmux's stdout holds as JSON: trimmed, empty is nothing; the whole
/// text if it parses; else the first line that opens an object or array,
/// whose decode error is passed on; no such line is nothing.
pub open spec fn cmux_json_spec(out: Seq<char>) -> Result<Option<serde_json::Value>, Seq<char>> {
    let text = crate::text::trim(out);
    if text.len() == 0 {
        Ok(None)
    } else {
        match json_parse(text) {
            Ok(v) => Ok(Some(v)),
            Err(_) => match json_line(text) {
                Some(line) => match json_parse(line) {
                    Ok(v) => Ok(Some(v)),
                    Err(m) => Err(m),
                },
                None => Ok(None),
            },
        }
    }
}

/// Parse cmux's JSON output, tolerating a leading `OK` or other lines; the
/// error is the decode error's message.
pub fn parse_cmux_json(stdout: &str) -> (r: Result<Option<serde_json::Value>, String>)
    ensures
        match r {
            Ok(v) => cmux_json_spec(stdout@) == Ok::<Option<serde_json::Value>, Seq<char>>(v),
            Err(e) => cmux_json_spec(stdout@) == Err::<Option<serde_json::Value>, Seq<char>>(e@),
        },
{
    let text = crate::text::trim_str(stdout);
    if text.as_str().is_empty() {
        return Ok(None);
    }
    match parse_json_text(text.as_str()) {
        Ok(v) => {
            return Ok(Some(v));
        },
        Err(_) => {},
    }
    let chars = crate::text::chars_of(text.as_str());
    match find_json_line(&chars) {
        Some(line) => match parse_json_text(line.as_str()) {
            Ok(v) => Ok(Some(v)),
            Err(e) => Err(e),
        },
        None => Ok(None),
    }
}

} // verus!
