//! Right-rail agent rows.
use vstd::prelude::*;

use crate::json::{json_get, opt_ref, Json};
use crate::layout::join;
use crate::model::{display_name, has_agent, Pane, Snapshot};
use crate::order::{key3_le, keys3_view, sort_keys3};
use crate::status::{pill_parts, status_key, status_value_for_pane, style_for, to_lowercase, unicode_lower, map_status_to_style};
use crate::text::{concat2, concat3, opt_view, owned, str_eq, strings_view};

verus! {

/// One deduplicated agent row for the right rail.
#[derive(Debug, Clone, PartialEq, Eq)]
pub struct RailAgent {
    pub status_key: String,
    pub pane_id: String,
    pub tab_id: String,
    pub workspace_id: String,
    pub agent: String,
    pub agent_status: String,
    pub display_name: String,
    pub value: String,
    pub icon: String,
    pub priority: i64,
    pub focused: bool,
}

/// A pane named by an agent.
pub open spec fn named_agent(p: Pane) -> bool {
    p.agent is Some && p.agent.unwrap()@.len() > 0
}

/// A pane with one of the four agent statuses.
pub open spec fn known_status(p: Pane) -> bool {
    p.agent_status@ == "working"@ || p.agent_status@ == "idle"@ || p.agent_status@ == "done"@
        || p.agent_status@ == "blocked"@
}

/// The panes the rail lists: those named by an agent, or (when there are
/// none) those with a known status.
pub open spec fn rail_candidates(ps: Seq<Pane>) -> Seq<Pane> {
    if ps.filter(|p: Pane| named_agent(p)).len() > 0 {
        ps.filter(|p: Pane| named_agent(p))
    } else {
        ps.filter(|p: Pane| known_status(p))
    }
}

pub open spec fn rail_keys(ps: Seq<Pane>) -> Seq<(Seq<char>, Seq<char>, Seq<char>, int)> {
    Seq::new(ps.len(), |i: int| (ps[i].workspace_id@, ps[i].tab_id@, ps[i].pane_id@, i))
}

pub open spec fn by_keys3(ks: Seq<(Seq<char>, Seq<char>, Seq<char>, int)>) -> Seq<
    (Seq<char>, Seq<char>, Seq<char>, int),
> {
    ks.sort_by(|x: (Seq<char>, Seq<char>, Seq<char>, int), y: (Seq<char>, Seq<char>, Seq<char>, int)| key3_le(x, y))
}

/// Panes ordered by workspace, tab and pane id (stable).
pub open spec fn rail_order(ps: Seq<Pane>) -> Seq<Pane> {
    Seq::new(ps.len(), |i: int| ps[by_keys3(rail_keys(ps))[i].3])
}

/// The first pane of each pill key (`herdr:<pane id>`), in order.
pub open spec fn dedupe_first(s: Seq<Pane>) -> Seq<Pane>
    decreases s.len(),
{
    if s.len() == 0 {
        Seq::empty()
    } else if (exists|k: int| 0 <= k < s.len() - 1 && #[trigger] s[k].pane_id@ == s.last().pane_id@) {
        dedupe_first(s.drop_last())
    } else {
        dedupe_first(s.drop_last()).push(s.last())
    }
}

pub open spec fn derefs(s: Seq<&Pane>) -> Seq<Pane> {
    s.map_values(|p: &Pane| *p)
}

/// Keep the first pane of each pill key.
pub fn dedupe_panes_by_status_key<'a>(panes: Vec<&'a Pane>) -> (r: Vec<&'a Pane>)
    ensures
        derefs(r@) == dedupe_first(derefs(panes@)),
{
    let ghost d = derefs(panes@);
    let mut seen: Vec<String> = Vec::new();
    let mut out: Vec<&Pane> = Vec::new();
    let mut i: usize = 0;
    while i < panes.len()
        invariant
            i <= panes.len(),
            d == derefs(panes@),
            derefs(out@) == dedupe_first(d.take(i as int)),
            strings_view(seen@) == Seq::new(i as nat, |k: int| d[k].pane_id@),
        decreases panes.len() - i,
    {
        let p: &Pane = panes[i];
        let ghost t = d.take(i + 1);
        assert(t.drop_last() =~= d.take(i as int));
        assert(t.last() == d[i as int]);
        let dup = crate::text::contains_str(&seen, p.pane_id.as_str());
        proof {
            if dup {
                let k = choose|k: int| 0 <= k < seen@.len() && #[trigger] strings_view(seen@)[k] == p.pane_id@;
                assert(t[k].pane_id@ == t.last().pane_id@);
            } else {
                assert forall|k: int| 0 <= k < t.len() - 1 implies #[trigger] t[k].pane_id@ != t.last().pane_id@ by {
                    assert(strings_view(seen@)[k] == t[k].pane_id@);
                }
            }
        }
        let ghost s0 = strings_view(seen@);
        seen.push(p.pane_id.clone());
        assert(d[i as int] == *p);
        assert(strings_view(seen@) =~= s0.push(p.pane_id@));
        assert(strings_view(seen@) =~= Seq::new((i + 1) as nat, |k: int| d[k].pane_id@));
        if !dup {
            let ghost o0 = derefs(out@);
            out.push(p);
            assert(derefs(out@) =~= o0.push(*p));
        }
        i += 1;
    }
    assert(d.take(panes.len() as int) =~= d);
    out
}

proof fn lemma_sorted3_positions(base: Seq<(Seq<char>, Seq<char>, Seq<char>, int)>, n: int)
    requires
        base.len() == n,
        forall|j: int| 0 <= j < n ==> (#[trigger] base[j]).3 == j,
    ensures
        by_keys3(base).len() == n,
        forall|i: int| 0 <= i < n ==> 0 <= (#[trigger] by_keys3(base)[i]).3 < n,
{
    let leq = |x: (Seq<char>, Seq<char>, Seq<char>, int), y: (Seq<char>, Seq<char>, Seq<char>, int)| key3_le(x, y);
    crate::order::lemma_key3_total_ordering();
    base.lemma_sort_by_ensures(leq);
    broadcast use vstd::seq_lib::group_to_multiset_ensures;
    let s = by_keys3(base);
    assert(s.len() == base.len()) by {
        assert(s.to_multiset().len() == base.to_multiset().len());
    }
    assert forall|i: int| 0 <= i < n implies 0 <= (#[trigger] s[i]).3 < n by {
        assert(s.contains(s[i]));
        assert(base.contains(s[i]));
        let j = choose|j: int| 0 <= j < base.len() && base[j] == s[i];
        assert(base[j].3 == j);
    }
}

fn filter_panes<'a>(panes: &'a Vec<Pane>, named: bool) -> (r: Vec<&'a Pane>)
    ensures
        derefs(r@) == if named {
            panes@.filter(|p: Pane| named_agent(p))
        } else {
            panes@.filter(|p: Pane| known_status(p))
        },
{
    let mut out: Vec<&Pane> = Vec::new();
    let mut i: usize = 0;
    while i < panes.len()
        invariant
            i <= panes.len(),
            derefs(out@) == if named {
                panes@.take(i as int).filter(|p: Pane| named_agent(p))
            } else {
                panes@.take(i as int).filter(|p: Pane| known_status(p))
            },
        decreases panes.len() - i,
    {
        proof {
            crate::model::lemma_filter_step(panes@, i as int, |p: Pane| named_agent(p));
            crate::model::lemma_filter_step(panes@, i as int, |p: Pane| known_status(p));
        }
        let p = &panes[i];
        let keep = if named {
            match &p.agent {
                Some(a) => !a.as_str().is_empty(),
                None => false,
            }
        } else {
            let st = p.agent_status.as_str();
            str_eq(st, "working") || str_eq(st, "idle") || str_eq(st, "done") || str_eq(st, "blocked")
        };
        if keep {
            let ghost o0 = derefs(out@);
            out.push(p);
            assert(derefs(out@) =~= o0.push(*p));
        }
        i += 1;
    }
    assert(panes@.take(panes.len() as int) =~= panes@);
    out
}

/// The rail's panes: agent panes ordered by workspace, tab and pane, one
/// per pill key.
pub fn agent_panes_for_rail(snapshot: &Snapshot) -> (r: Vec<&Pane>)
    ensures
        derefs(r@) == dedupe_first(rail_order(rail_candidates(snapshot.panes@))),
{
    let named = filter_panes(&snapshot.panes, true);
    let picked = if named.len() > 0 {
        named
    } else {
        filter_panes(&snapshot.panes, false)
    };
    let ghost ps = derefs(picked@);
    assert(ps == rail_candidates(snapshot.panes@));
    let mut keys: Vec<(String, String, String, u64)> = Vec::new();
    let mut i: usize = 0;
    while i < picked.len()
        invariant
            i <= picked.len(),
            ps == derefs(picked@),
            keys3_view(keys@) == rail_keys(ps).take(i as int),
        decreases picked.len() - i,
    {
        let p: &Pane = picked[i];
        let ghost k0 = keys3_view(keys@);
        keys.push((p.workspace_id.clone(), p.tab_id.clone(), p.pane_id.clone(), i as u64));
        assert(keys3_view(keys@) =~= k0.push(rail_keys(ps)[i as int]));
        assert(rail_keys(ps).take(i + 1) =~= rail_keys(ps).take(i as int).push(rail_keys(ps)[i as int]));
        i += 1;
    }
    assert(rail_keys(ps).take(picked.len() as int) =~= rail_keys(ps));
    let sorted = sort_keys3(&keys);
    proof {
        lemma_sorted3_positions(rail_keys(ps), ps.len() as int);
    }
    let mut ordered: Vec<&Pane> = Vec::new();
    let mut j: usize = 0;
    while j < sorted.len()
        invariant
            j <= sorted.len(),
            ps == derefs(picked@),
            sorted.len() == picked.len(),
            keys3_view(sorted@) == by_keys3(rail_keys(ps)),
            forall|k: int| 0 <= k < ps.len() ==> 0 <= (#[trigger] by_keys3(rail_keys(ps))[k]).3 < ps.len(),
            derefs(ordered@) == rail_order(ps).take(j as int),
        decreases sorted.len() - j,
    {
        assert(keys3_view(sorted@)[j as int] == by_keys3(rail_keys(ps))[j as int]);
        let pos = sorted[j].3 as usize;
        let ghost o0 = derefs(ordered@);
        ordered.push(picked[pos]);
        assert(derefs(ordered@) =~= o0.push(ps[pos as int]));
        assert(rail_order(ps).take(j + 1) =~= rail_order(ps).take(j as int).push(rail_order(ps)[j as int]));
        j += 1;
    }
    assert(rail_order(ps).take(sorted.len() as int) =~= rail_order(ps));
    dedupe_panes_by_status_key(ordered)
}

/// `a` is the rail row of pane `p`.
pub open spec fn rail_agent_matches(a: RailAgent, p: Pane) -> bool {
    let style = style_for(status_key(Some(p.agent_status@)));
    &&& a.status_key@ == "herdr:"@ + p.pane_id@
    &&& a.pane_id@ == p.pane_id@
    &&& a.tab_id@ == p.tab_id@
    &&& a.workspace_id@ == p.workspace_id@
    &&& a.agent@ == (if named_agent(p) {
        p.agent.unwrap()@
    } else {
        "agent"@
    })
    &&& a.agent_status@ == unicode_lower(p.agent_status@)
    &&& a.display_name@ == display_name(p)
    &&& a.value@ == join(pill_parts(p, None, None, None), " \u{b7} "@)
    &&& a.icon@ == style.0
    &&& a.priority == style.2
    &&& a.focused == p.focused
}

/// The rail rows of a snapshot: one per rail pane (see
/// [`agent_panes_for_rail`]).
pub fn rail_agents_from_snapshot(snapshot: &Snapshot) -> (r: Vec<RailAgent>)
    ensures
        r@.len() == dedupe_first(rail_order(rail_candidates(snapshot.panes@))).len(),
        forall|i: int|
            0 <= i < r@.len() ==> rail_agent_matches(
                #[trigger] r@[i],
                dedupe_first(rail_order(rail_candidates(snapshot.panes@)))[i],
            ),
{
    let panes = agent_panes_for_rail(snapshot);
    let ghost ps = derefs(panes@);
    let mut out: Vec<RailAgent> = Vec::new();
    let mut i: usize = 0;
    while i < panes.len()
        invariant
            i <= panes.len(),
            ps == derefs(panes@),
            out@.len() == i,
            forall|k: int| 0 <= k < i ==> rail_agent_matches(#[trigger] out@[k], ps[k]),
        decreases panes.len() - i,
    {
        let p: &Pane = panes[i];
        assert(ps[i as int] == *p);
        let style = map_status_to_style(Some(p.agent_status.as_str()));
        let agent = match &p.agent {
            Some(a) => if !a.as_str().is_empty() {
                a.clone()
            } else {
                owned("agent")
            },
            None => owned("agent"),
        };
        let row = RailAgent {
            status_key: p.status_key(),
            pane_id: p.pane_id.clone(),
            tab_id: p.tab_id.clone(),
            workspace_id: p.workspace_id.clone(),
            agent,
            agent_status: to_lowercase(p.agent_status.as_str()),
            display_name: p.display_name(),
            value: status_value_for_pane(p, None, None, None),
            icon: owned(style.icon),
            priority: style.priority,
            focused: p.focused,
        };
        out.push(row);
        i += 1;
    }
    out
}

/// A quick action of the rail's dock: a command-line verb.
#[derive(Debug)]
pub struct DockAction {
    pub id: String,
    pub label: String,
    pub cli: String,
    pub mode: String,
    pub pane_id: Option<String>,
}

pub open spec fn dock_is(d: DockAction, id: Seq<char>, label: Seq<char>, cli: Seq<char>, mode: Seq<char>) -> bool {
    d.id@ == id && d.label@ == label && d.cli@ == cli && d.mode@ == mode && d.pane_id is None
}

/// The first focused row.
pub open spec fn first_focused(s: Seq<RailAgent>) -> Option<RailAgent>
    decreases s.len(),
{
    if s.len() == 0 {
        None
    } else if s[0].focused {
        Some(s[0])
    } else {
        first_focused(s.drop_first())
    }
}

fn action(id: &str, label: &str, cli: &str, mode: &str) -> (r: DockAction)
    ensures
        dock_is(r, id@, label@, cli@, mode@),
{
    DockAction { id: owned(id), label: owned(label), cli: owned(cli), mode: owned(mode), pane_id: None }
}

/// The dock's actions: focus an agent, attach a pane viewer, list sessions,
/// and focus the first focused row when there is one.
pub fn dock_actions(agents: &Vec<RailAgent>) -> (r: Vec<DockAction>)
    ensures
        r@.len() == 3 + (if first_focused(agents@) is Some {
            1int
        } else {
            0
        }),
        dock_is(r@[0], "focus-agent"@, "Focus agent"@, "cmux-herdr focus-agent <pane_id>"@, "dock"@),
        dock_is(
            r@[1],
            "attach-pane"@,
            "Attach pane viewer"@,
            "cmux-herdr attach-pane --pane <pane_id>"@,
            "dock"@,
        ),
        dock_is(r@[2], "sessions"@, "List sessions"@, "cmux-herdr sessions --json"@, "sessions"@),
        match first_focused(agents@) {
            Some(a) => r@[3].id@ == "focus-focused"@ && r@[3].label@ == "Focus "@ + a.display_name@
                && r@[3].cli@ == "cmux-herdr focus-agent "@ + a.pane_id@ && r@[3].mode@ == "dock"@
                && opt_view(r@[3].pane_id) == Some(a.pane_id@),
            None => true,
        },
{
    let mut out: Vec<DockAction> = Vec::new();
    out.push(action("focus-agent", "Focus agent", "cmux-herdr focus-agent <pane_id>", "dock"));
    out.push(action("attach-pane", "Attach pane viewer", "cmux-herdr attach-pane --pane <pane_id>", "dock"));
    out.push(action("sessions", "List sessions", "cmux-herdr sessions --json", "sessions"));
    let mut i: usize = 0;
    assert(agents@.skip(0) =~= agents@);
    while i < agents.len()
        invariant
            i <= agents.len(),
            first_focused(agents@) == first_focused(agents@.skip(i as int)),
            out@.len() == 3,
            dock_is(out@[0], "focus-agent"@, "Focus agent"@, "cmux-herdr focus-agent <pane_id>"@, "dock"@),
            dock_is(
                out@[1],
                "attach-pane"@,
                "Attach pane viewer"@,
                "cmux-herdr attach-pane --pane <pane_id>"@,
                "dock"@,
            ),
            dock_is(out@[2], "sessions"@, "List sessions"@, "cmux-herdr sessions --json"@, "sessions"@),
        decreases agents.len() - i,
    {
        let ghost rest = agents@.skip(i as int);
        assert(rest[0] == agents@[i as int]);
        if agents[i].focused {
            let a = &agents[i];
            out.push(
                DockAction {
                    id: owned("focus-focused"),
                    label: concat2("Focus ", a.display_name.as_str()),
                    cli: concat2("cmux-herdr focus-agent ", a.pane_id.as_str()),
                    mode: owned("dock"),
                    pane_id: Some(a.pane_id.clone()),
                },
            );
            return out;
        }
        assert(rest.drop_first() =~= agents@.skip(i + 1));
        i += 1;
    }
    assert(agents@.skip(agents.len() as int) =~= Seq::<RailAgent>::empty());
    out
}

/// The status a previous rail payload recorded for a pill key: that of the
/// last row naming it (rows without both texts are skipped).
pub open spec fn prior_status(rows: Seq<Json>, key: Seq<char>) -> Option<Seq<char>>
    decreases rows.len(),
{
    if rows.len() == 0 {
        None
    } else {
        let row = rows.last();
        match (crate::model::as_str(json_get(row, "status_key"@)), crate::model::as_str(json_get(row, "agent_status"@))) {
            (Some(k), Some(st)) => if k == key {
                Some(st)
            } else {
                prior_status(rows.drop_last(), key)
            },
            _ => prior_status(rows.drop_last(), key),
        }
    }
}

/// The rows of a previous rail payload.
pub open spec fn prior_rows(previous: Option<Json>) -> Seq<Json> {
    match previous {
        Some(p) => match json_get(p, "agents"@) {
            Some(Json::Array { items, .. }) => items@,
            _ => Seq::empty(),
        },
        None => Seq::empty(),
    }
}

/// A row deserves a feed event: it turned `blocked` or `done`.
pub open spec fn is_feed(a: RailAgent, rows: Seq<Json>) -> bool {
    prior_status(rows, a.status_key@) != Some(a.agent_status@) && (a.agent_status@ == "blocked"@
        || a.agent_status@ == "done"@)
}

/// One attention-worthy status transition.
#[derive(Debug)]
pub struct FeedEvent {
    pub kind: String,
    pub status_key: String,
    pub pane_id: String,
    pub agent: String,
    pub from: Option<String>,
    pub to: String,
    pub title: String,
    pub body: String,
    pub priority: i64,
}

pub open spec fn feed_matches(e: FeedEvent, a: RailAgent, rows: Seq<Json>) -> bool {
    &&& e.kind@ == "herdr.agent."@ + a.agent_status@
    &&& e.status_key@ == a.status_key@
    &&& e.pane_id@ == a.pane_id@
    &&& e.agent@ == a.agent@
    &&& opt_view(e.from) == prior_status(rows, a.status_key@)
    &&& e.to@ == a.agent_status@
    &&& e.title@ == a.agent@ + " "@ + a.agent_status@
    &&& e.body@ == a.value@
    &&& e.priority == a.priority
}

fn prior_status_exec(rows: &Vec<Json>, key: &str) -> (r: Option<String>)
    ensures
        opt_view(r) == prior_status(rows@, key@),
{
    let mut i: usize = rows.len();
    assert(rows@.take(rows.len() as int) =~= rows@);
    while i > 0
        invariant
            i <= rows.len(),
            prior_status(rows@, key@) == prior_status(rows@.take(i as int), key@),
        decreases i,
    {
        let ghost t = rows@.take(i as int);
        assert(t.last() == rows@[i - 1]);
        assert(t.drop_last() =~= rows@.take(i - 1));
        let row = &rows[i - 1];
        match (row.get("status_key"), row.get("agent_status")) {
            (Some(Json::Str(k)), Some(Json::Str(st))) => {
                if str_eq(k.as_str(), key) {
                    return Some(st.clone());
                }
            },
            _ => {},
        }
        i -= 1;
    }
    None
}

/// Feed events for rows whose status turned `blocked` or `done` since the
/// previous rail payload.
pub fn feed_events_from_transition(previous: Option<&Json>, agents: &Vec<RailAgent>) -> (r: Vec<FeedEvent>)
    ensures
        r@.len() == agents@.filter(|a: RailAgent| is_feed(a, prior_rows(opt_ref(previous)))).len(),
        forall|i: int|
            0 <= i < r@.len() ==> feed_matches(
                #[trigger] r@[i],
                agents@.filter(|a: RailAgent| is_feed(a, prior_rows(opt_ref(previous))))[i],
                prior_rows(opt_ref(previous)),
            ),
{
    let empty: Vec<Json> = Vec::new();
    assert(empty@ =~= Seq::<Json>::empty());
    let rows: &Vec<Json> = match previous {
        Some(p) => match p.get("agents") {
            Some(Json::Array { items, .. }) => items,
            _ => &empty,
        },
        None => &empty,
    };
    let ghost rs = prior_rows(opt_ref(previous));
    assert(rows@ == rs);
    let mut out: Vec<FeedEvent> = Vec::new();
    let mut i: usize = 0;
    while i < agents.len()
        invariant
            i <= agents.len(),
            rows@ == rs,
            out@.len() == agents@.take(i as int).filter(|a: RailAgent| is_feed(a, rs)).len(),
            forall|k: int|
                0 <= k < out@.len() ==> feed_matches(
                    #[trigger] out@[k],
                    agents@.take(i as int).filter(|a: RailAgent| is_feed(a, rs))[k],
                    rs,
                ),
        decreases agents.len() - i,
    {
        proof {
            crate::model::lemma_filter_step(agents@, i as int, |a: RailAgent| is_feed(a, rs));
        }
        let a = &agents[i];
        let prev = prior_status_exec(rows, a.status_key.as_str());
        let now = a.agent_status.as_str();
        let same = match &prev {
            Some(p) => str_eq(p.as_str(), now),
            None => false,
        };
        if !same && (str_eq(now, "blocked") || str_eq(now, "done")) {
            out.push(
                FeedEvent {
                    kind: concat2("herdr.agent.", now),
                    status_key: a.status_key.clone(),
                    pane_id: a.pane_id.clone(),
                    agent: a.agent.clone(),
                    from: prev,
                    to: owned(now),
                    title: concat3(a.agent.as_str(), " ", now),
                    body: a.value.clone(),
                    priority: a.priority,
                },
            );
        }
        i += 1;
    }
    assert(agents@.take(agents.len() as int) =~= agents@);
    out
}

/// Rows per status bucket; statuses outside the five named ones count as
/// `other`.
#[derive(Debug)]
pub struct RailCounts {
    pub working: usize,
    pub idle: usize,
    pub done: usize,
    pub blocked: usize,
    pub unknown: usize,
    pub other: usize,
}

pub open spec fn count_status(agents: Seq<RailAgent>, st: Seq<char>) -> nat {
    agents.filter(|a: RailAgent| a.agent_status@ == st).len()
}

pub open spec fn named_bucket(st: Seq<char>) -> bool {
    st == "working"@ || st == "idle"@ || st == "done"@ || st == "blocked"@ || st == "unknown"@
}

/// Count the rail rows per status bucket.
pub fn rail_counts(agents: &Vec<RailAgent>) -> (r: RailCounts)
    ensures
        r.working == count_status(agents@, "working"@),
        r.idle == count_status(agents@, "idle"@),
        r.done == count_status(agents@, "done"@),
        r.blocked == count_status(agents@, "blocked"@),
        r.unknown == count_status(agents@, "unknown"@),
        r.other == agents@.filter(|a: RailAgent| !named_bucket(a.agent_status@)).len(),
{
    let mut c = RailCounts { working: 0, idle: 0, done: 0, blocked: 0, unknown: 0, other: 0 };
    let mut i: usize = 0;
    while i < agents.len()
        invariant
            i <= agents.len(),
            c.working == count_status(agents@.take(i as int), "working"@),
            c.idle == count_status(agents@.take(i as int), "idle"@),
            c.done == count_status(agents@.take(i as int), "done"@),
            c.blocked == count_status(agents@.take(i as int), "blocked"@),
            c.unknown == count_status(agents@.take(i as int), "unknown"@),
            c.other == agents@.take(i as int).filter(|a: RailAgent| !named_bucket(a.agent_status@)).len(),
            c.working + c.idle + c.done + c.blocked + c.unknown + c.other == i,
        decreases agents.len() - i,
    {
        proof {
            crate::model::lemma_filter_step(agents@, i as int, |a: RailAgent| a.agent_status@ == "working"@);
            crate::model::lemma_filter_step(agents@, i as int, |a: RailAgent| a.agent_status@ == "idle"@);
            crate::model::lemma_filter_step(agents@, i as int, |a: RailAgent| a.agent_status@ == "done"@);
            crate::model::lemma_filter_step(agents@, i as int, |a: RailAgent| a.agent_status@ == "blocked"@);
            crate::model::lemma_filter_step(agents@, i as int, |a: RailAgent| a.agent_status@ == "unknown"@);
            crate::model::lemma_filter_step(agents@, i as int, |a: RailAgent| !named_bucket(a.agent_status@));
            reveal_strlit("working");
            reveal_strlit("idle");
            reveal_strlit("done");
            reveal_strlit("blocked");
            reveal_strlit("unknown");
            assert("working"@[0] != "idle"@[0] && "working"@[0] != "done"@[0] && "working"@[0] != "blocked"@[0]
                && "working"@[0] != "unknown"@[0] && "idle"@[0] != "done"@[0] && "idle"@[0] != "blocked"@[0]
                && "idle"@[0] != "unknown"@[0] && "done"@[0] != "blocked"@[0] && "done"@[0] != "unknown"@[0]
                && "blocked"@[0] != "unknown"@[0]);
        }
        let st = agents[i].agent_status.as_str();
        if str_eq(st, "working") {
            c.working = c.working + 1;
        } else if str_eq(st, "idle") {
            c.idle = c.idle + 1;
        } else if str_eq(st, "done") {
            c.done = c.done + 1;
        } else if str_eq(st, "blocked") {
            c.blocked = c.blocked + 1;
        } else if str_eq(st, "unknown") {
            c.unknown = c.unknown + 1;
        } else {
            c.other = c.other + 1;
        }
        i += 1;
    }
    assert(agents@.take(agents.len() as int) =~= agents@);
    c
}

/// The rail never lists a pill key twice: after deduplication, no two
/// panes share a pane id (and so a `herdr:<pane id>` key).
pub proof fn law_rail_keys_distinct(s: Seq<Pane>)
    ensures
        forall|i: int, j: int|
            0 <= i < j < dedupe_first(s).len() ==> (#[trigger] dedupe_first(s)[i]).pane_id@ != (
            #[trigger] dedupe_first(s)[j]).pane_id@,
        forall|i: int|
            0 <= i < dedupe_first(s).len() ==> exists|k: int| 0 <= k < s.len() && s[k] == #[trigger] dedupe_first(s)[i],
    decreases s.len(),
{
    if s.len() > 0 {
        law_rail_keys_distinct(s.drop_last());
        let d = dedupe_first(s.drop_last());
        if !(exists|k: int| 0 <= k < s.len() - 1 && #[trigger] s[k].pane_id@ == s.last().pane_id@) {
            assert(dedupe_first(s) == d.push(s.last()));
            assert forall|i: int| 0 <= i < d.len() implies (#[trigger] d[i]).pane_id@ != s.last().pane_id@ by {
                let k = choose|k: int| 0 <= k < s.drop_last().len() && s.drop_last()[k] == d[i];
                assert(s[k] == s.drop_last()[k]);
            }
            assert forall|i: int| 0 <= i < dedupe_first(s).len() implies exists|k: int|
                0 <= k < s.len() && s[k] == #[trigger] dedupe_first(s)[i] by {
                if i < d.len() {
                    let k = choose|k: int| 0 <= k < s.drop_last().len() && s.drop_last()[k] == d[i];
                    assert(s[k] == s.drop_last()[k]);
                } else {
                    assert(s[s.len() - 1] == dedupe_first(s)[i]);
                }
            }
        } else {
            assert forall|i: int| 0 <= i < dedupe_first(s).len() implies exists|k: int|
                0 <= k < s.len() && s[k] == #[trigger] dedupe_first(s)[i] by {
                let k = choose|k: int| 0 <= k < s.drop_last().len() && s.drop_last()[k] == d[i];
                assert(s[k] == s.drop_last()[k]);
            }
        }
    }
}

} // verus!
