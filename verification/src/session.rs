//! Ordered session-tab host verbs: create, rename, close, close defaults,
//! reorder, then focus. The order of the list is part of the contract.
use vstd::prelude::*;

use crate::assoc::{self, lookup, unique};
use crate::engine::SessionReconcile;
use crate::layout::join;
use crate::text::{select, clone_opt, clone_strings, concat2, contains_str, opt_str_view, opt_view, owned, str_eq, strings_view};

verus! {

/// One host verb for session tabs.
#[derive(Debug, Clone, PartialEq, Eq)]
pub struct SessionAction {
    pub op: String,
    pub tab_id: Option<String>,
    pub title: Option<String>,
    pub ordered_tab_ids: Option<Vec<String>>,
}

/// The content of an action: op, tab, title, ordered tabs.
pub type ActionView = (Seq<char>, Option<Seq<char>>, Option<Seq<char>>, Option<Seq<Seq<char>>>);

pub open spec fn opt_strings(o: Option<Vec<String>>) -> Option<Seq<Seq<char>>> {
    match o {
        Some(v) => Some(strings_view(v@)),
        None => None,
    }
}

impl SessionAction {
    pub open spec fn view_spec(self) -> ActionView {
        (self.op@, opt_view(self.tab_id), opt_view(self.title), opt_strings(self.ordered_tab_ids))
    }

    pub fn new(op: &str) -> (r: Self)
        ensures
            r.view_spec() == (op@, None::<Seq<char>>, None::<Seq<char>>, None::<Seq<Seq<char>>>),
    {
        SessionAction { op: owned(op), tab_id: None, title: None, ordered_tab_ids: None }
    }
}

pub open spec fn title_of(titles: Seq<(String, String)>, t: Seq<char>) -> Option<Seq<char>> {
    match lookup(titles, t) {
        Some(s) => Some(s@),
        None => None,
    }
}

pub open spec fn creates(ids: Seq<Seq<char>>, titles: Seq<(String, String)>) -> Seq<ActionView> {
    ids.map_values(
        |t: Seq<char>|
            (
                "create_tab"@,
                Some(t),
                Some(
                    match title_of(titles, t) {
                        Some(x) => x,
                        None => t,
                    },
                ),
                None::<Seq<Seq<char>>>,
            ),
    )
}

/// Renames for kept tabs whose non-empty title differs from the previous one.
pub open spec fn renames(kept: Seq<Seq<char>>, titles: Seq<(String, String)>, prior: Seq<(String, String)>) -> Seq<
    ActionView,
>
    decreases kept.len(),
{
    if kept.len() == 0 {
        Seq::empty()
    } else {
        let t = kept.last();
        let rest = renames(kept.drop_last(), titles, prior);
        match title_of(titles, t) {
            Some(n) => if n.len() > 0 && title_of(prior, t) != Some(n) {
                rest.push(("rename_tab"@, Some(t), Some(n), None::<Seq<Seq<char>>>))
            } else {
                rest
            },
            None => rest,
        }
    }
}

pub open spec fn closes(ids: Seq<Seq<char>>) -> Seq<ActionView> {
    ids.map_values(|t: Seq<char>| ("close_tab"@, Some(t), None::<Seq<char>>, None::<Seq<Seq<char>>>))
}

/// The host verbs for a session reconcile, in order.
pub open spec fn actions_spec(
    s: SessionReconcile,
    titles: Seq<(String, String)>,
    prior: Seq<(String, String)>,
    defaults_open: bool,
    focus: Option<Seq<char>>,
) -> Seq<ActionView> {
    let ordered = strings_view(s.ordered_tab_ids@);
    creates(strings_view(s.created_tab_ids@), titles) + renames(strings_view(s.kept_tab_ids@), titles, prior)
        + closes(strings_view(s.closed_tab_ids@)) + (if defaults_open && ordered.len() > 0 {
        seq![("close_default_tabs"@, None::<Seq<char>>, None::<Seq<char>>, None::<Seq<Seq<char>>>)]
    } else {
        Seq::empty()
    }) + (if s.order_changed && ordered.len() > 1 {
        seq![("reorder_tabs"@, None::<Seq<char>>, None::<Seq<char>>, Some(ordered))]
    } else {
        Seq::empty()
    }) + (match focus {
        Some(f) => if ordered.contains(f) {
            seq![("focus_tab"@, Some(f), None::<Seq<char>>, None::<Seq<Seq<char>>>)]
        } else {
            Seq::empty()
        },
        None => Seq::empty(),
    })
}

pub open spec fn views(v: Seq<SessionAction>) -> Seq<ActionView> {
    v.map_values(|a: SessionAction| a.view_spec())
}

fn push_action(out: &mut Vec<SessionAction>, a: SessionAction)
    ensures
        final(out)@ == old(out)@.push(a),
        views(final(out)@) == views(old(out)@).push(a.view_spec()),
{
    let ghost o = out@;
    out.push(a);
    assert(views(out@) =~= views(o).push(a.view_spec()));
}

/// Ordered host verbs for a session reconcile.
pub fn session_actions(
    session: &SessionReconcile,
    titles: Option<&Vec<(String, String)>>,
    previous_titles: Option<&Vec<(String, String)>>,
    defaults_open: bool,
    focus_tab_id: Option<&str>,
) -> (r: Vec<SessionAction>)
    requires
        titles matches Some(t) ==> unique(t@),
        previous_titles matches Some(t) ==> unique(t@),
    ensures
        views(r@) == actions_spec(
            *session,
            match titles {
                Some(t) => t@,
                None => Seq::empty(),
            },
            match previous_titles {
                Some(t) => t@,
                None => Seq::empty(),
            },
            defaults_open,
            opt_str_view(focus_tab_id),
        ),
{
    let empty: Vec<(String, String)> = Vec::new();
    let current = match titles {
        Some(t) => t,
        None => &empty,
    };
    let prior = match previous_titles {
        Some(t) => t,
        None => &empty,
    };
    let ghost ts = current@;
    let ghost ps = prior@;
    let mut actions: Vec<SessionAction> = Vec::new();
    let created = &session.created_tab_ids;
    let mut i: usize = 0;
    while i < created.len()
        invariant
            i <= created.len(),
            ts == current@,
            unique(ts),
            views(actions@) == creates(strings_view(created@.subrange(0, i as int)), ts),
        decreases created.len() - i,
    {
        let tab = created[i].as_str();
        let title = match assoc::get(current, tab) {
            Some(t) => t.clone(),
            None => owned(tab),
        };
        let a = SessionAction {
            op: owned("create_tab"),
            tab_id: Some(owned(tab)),
            title: Some(title),
            ordered_tab_ids: None,
        };
        push_action(&mut actions, a);
        assert(creates(strings_view(created@.subrange(0, i + 1)), ts) =~= creates(
            strings_view(created@.subrange(0, i as int)),
            ts,
        ).push(a.view_spec()));
        i += 1;
    }
    assert(created@.subrange(0, created@.len() as int) =~= created@);
    let ghost after_creates = views(actions@);
    let kept = &session.kept_tab_ids;
    let mut i: usize = 0;
    while i < kept.len()
        invariant
            i <= kept.len(),
            ts == current@,
            ps == prior@,
            unique(ts),
            unique(ps),
            views(actions@) == after_creates + renames(strings_view(kept@.subrange(0, i as int)), ts, ps),
        decreases kept.len() - i,
    {
        let tab = kept[i].as_str();
        let ghost pre = strings_view(kept@.subrange(0, i as int));
        assert(strings_view(kept@.subrange(0, i + 1)).drop_last() =~= pre);
        assert(strings_view(kept@.subrange(0, i + 1)).last() == tab@);
        match assoc::get(current, tab) {
            Some(n) => {
                let differs = match assoc::get(prior, tab) {
                    Some(p) => !str_eq(p.as_str(), n.as_str()),
                    None => true,
                };
                if !n.as_str().is_empty() && differs {
                    let a = SessionAction {
                        op: owned("rename_tab"),
                        tab_id: Some(owned(tab)),
                        title: Some(n.clone()),
                        ordered_tab_ids: None,
                    };
                    push_action(&mut actions, a);
                }
            },
            None => {},
        }
        i += 1;
    }
    assert(kept@.subrange(0, kept@.len() as int) =~= kept@);
    let ghost after_renames = views(actions@);
    let closed = &session.closed_tab_ids;
    let mut i: usize = 0;
    while i < closed.len()
        invariant
            i <= closed.len(),
            views(actions@) == after_renames + closes(strings_view(closed@.subrange(0, i as int))),
        decreases closed.len() - i,
    {
        let a = SessionAction {
            op: owned("close_tab"),
            tab_id: Some(closed[i].clone()),
            title: None,
            ordered_tab_ids: None,
        };
        push_action(&mut actions, a);
        assert(closes(strings_view(closed@.subrange(0, i + 1))) =~= closes(
            strings_view(closed@.subrange(0, i as int)),
        ).push(a.view_spec()));
        i += 1;
    }
    assert(closed@.subrange(0, closed@.len() as int) =~= closed@);
    let ghost after_closes = views(actions@);
    let ordered = &session.ordered_tab_ids;
    if defaults_open && ordered.len() > 0 {
        push_action(&mut actions, SessionAction::new("close_default_tabs"));
    }
    let ghost after_defaults = views(actions@);
    if session.order_changed && ordered.len() > 1 {
        let a = SessionAction {
            op: owned("reorder_tabs"),
            tab_id: None,
            title: None,
            ordered_tab_ids: Some(clone_strings(ordered)),
        };
        push_action(&mut actions, a);
    }
    let ghost after_reorder = views(actions@);
    match focus_tab_id {
        Some(f) => {
            if contains_str(ordered, f) {
                let a = SessionAction {
                    op: owned("focus_tab"),
                    tab_id: Some(owned(f)),
                    title: None,
                    ordered_tab_ids: None,
                };
                push_action(&mut actions, a);
            }
        },
        None => {},
    }
    assert(views(actions@) =~= actions_spec(*session, ts, ps, defaults_open, opt_str_view(focus_tab_id)));
    actions
}

/// A host that records session verbs; used to check verb sequences.
#[derive(Debug, Clone, PartialEq, Eq)]
pub struct FakeSessionHost {
    pub tabs: Vec<String>,
    pub titles: Vec<(String, String)>,
    pub mirrors: Vec<(String, bool)>,
    pub default_tabs: Vec<String>,
    pub defaults_closed: bool,
    pub focus: Option<String>,
    pub log: Vec<String>,
}

/// Whether applying `a` to a host with tabs `tabs` fails.
pub open spec fn step_fails(tabs: Seq<Seq<char>>, a: ActionView) -> bool {
    let (op, tab, _, _) = a;
    if op == "create_tab"@ {
        !(tab matches Some(t) && t.len() > 0)
    } else if op == "rename_tab"@ || op == "close_tab"@ || op == "close_default_tabs"@ || op
        == "reorder_tabs"@ {
        false
    } else if op == "focus_tab"@ {
        tab matches Some(t) && !tabs.contains(t)
    } else {
        true
    }
}

/// Tab order after `a` (when it does not fail).
pub open spec fn step_tabs(tabs: Seq<Seq<char>>, a: ActionView) -> Seq<Seq<char>> {
    let (op, tab, _, ordered) = a;
    if op == "create_tab"@ {
        if tabs.contains(tab.unwrap()) {
            tabs
        } else {
            tabs.push(tab.unwrap())
        }
    } else if op == "rename_tab"@ {
        tabs
    } else if op == "close_tab"@ {
        match tab {
            Some(t) => without(tabs, t),
            None => tabs,
        }
    } else if op == "close_default_tabs"@ {
        tabs
    } else if op == "reorder_tabs"@ {
        let desired = match ordered {
            Some(o) => select(o, tabs, true),
            None => Seq::empty(),
        };
        desired + select(tabs, desired, false)
    } else {
        tabs
    }
}

/// What a host holds, as values: the tabs in order, the title and mirror flag
/// of each tab, the default tabs and whether they were closed, the focused
/// tab, and the log of verbs applied.
#[verifier::ext_equal]
pub struct HostView {
    pub tabs: Seq<Seq<char>>,
    pub titles: Map<Seq<char>, Seq<char>>,
    pub mirrors: Map<Seq<char>, bool>,
    pub default_tabs: Seq<Seq<char>>,
    pub defaults_closed: bool,
    pub focus: Option<Seq<char>>,
    pub log: Seq<Seq<char>>,
}

/// An association list of texts, read as a map.
pub open spec fn text_map(s: Seq<(String, String)>) -> Map<Seq<char>, Seq<char>> {
    Map::new(|k: Seq<char>| lookup(s, k) is Some, |k: Seq<char>| lookup(s, k).unwrap()@)
}

/// An association list of flags, read as a map.
pub open spec fn flag_map(s: Seq<(String, bool)>) -> Map<Seq<char>, bool> {
    Map::new(|k: Seq<char>| lookup(s, k) is Some, |k: Seq<char>| lookup(s, k).unwrap())
}

impl View for FakeSessionHost {
    type V = HostView;

    open spec fn view(&self) -> HostView {
        HostView {
            tabs: strings_view(self.tabs@),
            titles: text_map(self.titles@),
            mirrors: flag_map(self.mirrors@),
            default_tabs: strings_view(self.default_tabs@),
            defaults_closed: self.defaults_closed,
            focus: opt_view(self.focus),
            log: strings_view(self.log@),
        }
    }
}

/// The log lines for closing the default tabs that are not among `tabs`.
pub open spec fn default_lines(defaults: Seq<Seq<char>>, tabs: Seq<Seq<char>>) -> Seq<Seq<char>>
    decreases defaults.len(),
{
    if defaults.len() == 0 {
        Seq::empty()
    } else if tabs.contains(defaults.last()) {
        default_lines(defaults.drop_last(), tabs)
    } else {
        default_lines(defaults.drop_last(), tabs).push("close-default:"@ + defaults.last())
    }
}

/// The error text of an action that fails on a host with tabs `tabs`.
pub open spec fn step_error(tabs: Seq<Seq<char>>, a: ActionView) -> Seq<char> {
    let (op, tab, _, _) = a;
    if op == "create_tab"@ {
        "create_tab requires tab_id"@
    } else if op == "focus_tab"@ {
        "focus_tab missing tab "@ + tab.unwrap()
    } else {
        "unknown session op "@ + op
    }
}

/// The host after `a`, when `a` does not fail.
pub open spec fn host_step(h: HostView, a: ActionView) -> HostView {
    let (op, tab, title, _) = a;
    let tabs = step_tabs(h.tabs, a);
    if op == "create_tab"@ {
        let t = tab.unwrap();
        let shown = match title {
            Some(x) => if x.len() > 0 {
                x
            } else {
                t
            },
            None => t,
        };
        HostView {
            tabs,
            titles: h.titles.insert(t, shown),
            mirrors: h.mirrors.insert(t, true),
            default_tabs: h.default_tabs,
            defaults_closed: h.defaults_closed,
            focus: h.focus,
            log: h.log.push("create:"@ + t),
        }
    } else if op == "rename_tab"@ {
        match (tab, title) {
            (Some(t), Some(x)) => if h.tabs.contains(t) && x.len() > 0 {
                HostView {
                    tabs: h.tabs,
                    titles: h.titles.insert(t, x),
                    mirrors: h.mirrors,
                    default_tabs: h.default_tabs,
                    defaults_closed: h.defaults_closed,
                    focus: h.focus,
                    log: h.log.push("rename:"@ + t),
                }
            } else {
                h
            },
            _ => h,
        }
    } else if op == "close_tab"@ {
        match tab {
            Some(t) => if h.tabs.contains(t) {
                HostView {
                    tabs,
                    titles: h.titles.remove(t),
                    mirrors: h.mirrors.remove(t),
                    default_tabs: h.default_tabs,
                    defaults_closed: h.defaults_closed,
                    focus: if h.focus == Some(t) {
                        None
                    } else {
                        h.focus
                    },
                    log: h.log.push("close:"@ + t),
                }
            } else {
                h
            },
            None => h,
        }
    } else if op == "close_default_tabs"@ {
        if h.defaults_closed || h.tabs.len() == 0 {
            h
        } else {
            HostView {
                tabs: h.tabs,
                titles: h.titles,
                mirrors: h.mirrors,
                default_tabs: Seq::empty(),
                defaults_closed: true,
                focus: h.focus,
                log: h.log + default_lines(h.default_tabs, h.tabs),
            }
        }
    } else if op == "reorder_tabs"@ {
        HostView {
            tabs,
            titles: h.titles,
            mirrors: h.mirrors,
            default_tabs: h.default_tabs,
            defaults_closed: h.defaults_closed,
            focus: h.focus,
            log: h.log.push("reorder:"@ + join(tabs, ","@)),
        }
    } else if op == "focus_tab"@ {
        HostView {
            tabs: h.tabs,
            titles: h.titles,
            mirrors: h.mirrors,
            default_tabs: h.default_tabs,
            defaults_closed: h.defaults_closed,
            focus: tab,
            log: h.log.push(
                match tab {
                    Some(t) => "focus:"@ + t,
                    None => "focus:None"@,
                },
            ),
        }
    } else {
        h
    }
}

/// The host after applying `acts` in turn, up to the first that fails.
pub open spec fn host_after(h: HostView, acts: Seq<ActionView>) -> HostView
    decreases acts.len(),
{
    if acts.len() == 0 || step_fails(h.tabs, acts[0]) {
        h
    } else {
        host_after(host_step(h, acts[0]), acts.drop_first())
    }
}

/// The error text of the first action of `acts` that fails, if one does.
pub open spec fn apply_error(h: HostView, acts: Seq<ActionView>) -> Option<Seq<char>>
    decreases acts.len(),
{
    if acts.len() == 0 {
        None
    } else if step_fails(h.tabs, acts[0]) {
        Some(step_error(h.tabs, acts[0]))
    } else {
        apply_error(host_step(h, acts[0]), acts.drop_first())
    }
}

/// A fresh host: no tabs, titles, mirrors, focus or log, one default tab.
pub open spec fn fresh_host() -> HostView {
    HostView {
        tabs: Seq::empty(),
        titles: Map::empty(),
        mirrors: Map::empty(),
        default_tabs: seq!["default"@],
        defaults_closed: false,
        focus: None,
        log: Seq::empty(),
    }
}

impl FakeSessionHost {
    pub fn new() -> (r: Self)
        ensures
            r.wf(),
            r@ == fresh_host(),
    {
        let mut d: Vec<String> = Vec::new();
        d.push(owned("default"));
        assert(strings_view(d@) =~= seq!["default"@]);
        let r = FakeSessionHost {
            tabs: Vec::new(),
            titles: Vec::new(),
            mirrors: Vec::new(),
            default_tabs: d,
            defaults_closed: false,
            focus: None,
            log: Vec::new(),
        };
        assert(r@ =~= fresh_host());
        r
    }

    pub open spec fn wf(self) -> bool {
        &&& unique(self.titles@)
        &&& unique(self.mirrors@)
    }

    /// Apply `actions` in order, stopping at the first that fails; the
    /// actions before it stay applied.
    pub fn apply(&mut self, actions: &[SessionAction]) -> (r: Result<(), String>)
        requires
            old(self).wf(),
        ensures
            final(self).wf(),
            final(self)@ == host_after(old(self)@, views(actions@)),
            match r {
                Ok(_) => apply_error(old(self)@, views(actions@)) is None,
                Err(e) => apply_error(old(self)@, views(actions@)) == Some(e@),
            },
    {
        let ghost h0 = self@;
        let ghost acts = views(actions@);
        assert(acts.subrange(0, acts.len() as int) =~= acts);
        let mut i: usize = 0;
        while i < actions.len()
            invariant
                i <= actions.len(),
                h0 == old(self)@,
                acts == views(actions@),
                self.wf(),
                apply_error(h0, acts) == apply_error(self@, acts.subrange(i as int, acts.len() as int)),
                host_after(h0, acts) == host_after(self@, acts.subrange(i as int, acts.len() as int)),
            decreases actions.len() - i,
        {
            let ghost now = self@;
            assert(acts.len() == actions@.len());
            let ghost rest = acts.subrange(i as int, acts.len() as int);
            assert(rest.len() > 0);
            assert(rest[0] == actions@[i as int].view_spec());
            assert(rest.drop_first() =~= acts.subrange(i + 1, acts.len() as int));
            match self.apply_one(&actions[i]) {
                Ok(()) => {},
                Err(e) => {
                    assert(step_fails(now.tabs, rest[0]));
                    assert(apply_error(now, rest) == Some(e@));
                    assert(host_after(now, rest) == now);
                    return Err(e);
                },
            }
            i += 1;
        }
        assert(acts.subrange(actions@.len() as int, acts.len() as int) =~= Seq::<ActionView>::empty());
        Ok(())
    }

    fn apply_one(&mut self, action: &SessionAction) -> (r: Result<(), String>)
        requires
            old(self).wf(),
        ensures
            final(self).wf(),
            r is Err <==> step_fails(old(self)@.tabs, action.view_spec()),
            r matches Err(e) ==> e@ == step_error(old(self)@.tabs, action.view_spec()) && *final(self) == *old(self),
            r is Ok ==> final(self)@ == host_step(old(self)@, action.view_spec()),
    {
        let op = action.op.as_str();
        if str_eq(op, "create_tab") {
            let tab = match &action.tab_id {
                Some(t) => {
                    if t.as_str().is_empty() {
                        return Err(owned("create_tab requires tab_id"));
                    }
                    t
                },
                None => {
                    return Err(owned("create_tab requires tab_id"));
                },
            };
            if !contains_str(&self.tabs, tab.as_str()) {
                let ghost before = self.tabs@;
                self.tabs.push(tab.clone());
                assert(strings_view(self.tabs@) =~= strings_view(before).push(tab@));
            }
            let title = match &action.title {
                Some(t) => if !t.as_str().is_empty() {
                    t.clone()
                } else {
                    tab.clone()
                },
                None => tab.clone(),
            };
            let ghost h = old(self)@;
            let ghost titles0 = self.titles@;
            let ghost mirrors0 = self.mirrors@;
            let ghost log0 = self.log@;
            assoc::set(&mut self.titles, tab.clone(), title);
            assoc::set(&mut self.mirrors, tab.clone(), true);
            let line = concat2("create:", tab.as_str());
            self.log.push(line);
            proof {
                assert(text_map(self.titles@) =~= text_map(titles0).insert(tab@, title@));
                assert(flag_map(self.mirrors@) =~= flag_map(mirrors0).insert(tab@, true));
                assert(strings_view(self.log@) =~= strings_view(log0).push(line@));
            }
            Ok(())
        } else if str_eq(op, "rename_tab") {
            match (&action.tab_id, &action.title) {
                (Some(tab), Some(title)) => {
                    if contains_str(&self.tabs, tab.as_str()) && !title.as_str().is_empty() {
                        let ghost titles0 = self.titles@;
                        let ghost log0 = self.log@;
                        assoc::set(&mut self.titles, tab.clone(), title.clone());
                        let line = concat2("rename:", tab.as_str());
                        self.log.push(line);
                        proof {
                            assert(text_map(self.titles@) =~= text_map(titles0).insert(tab@, title@));
                            assert(strings_view(self.log@) =~= strings_view(log0).push(line@));
                        }
                    }
                },
                _ => {},
            }
            Ok(())
        } else if str_eq(op, "close_tab") {
            match &action.tab_id {
                Some(tab) => {
                    if contains_str(&self.tabs, tab.as_str()) {
                        let ghost titles0 = self.titles@;
                        let ghost mirrors0 = self.mirrors@;
                        let ghost log0 = self.log@;
                        self.tabs = remove_all(&self.tabs, tab.as_str());
                        assoc::remove(&mut self.titles, tab.as_str());
                        assoc::remove(&mut self.mirrors, tab.as_str());
                        if crate::text::opt_string_eq(&self.focus, tab.as_str()) {
                            self.focus = None;
                        }
                        let line = concat2("close:", tab.as_str());
                        self.log.push(line);
                        proof {
                            assert(text_map(self.titles@) =~= text_map(titles0).remove(tab@));
                            assert(flag_map(self.mirrors@) =~= flag_map(mirrors0).remove(tab@));
                            assert(strings_view(self.log@) =~= strings_view(log0).push(line@));
                        }
                    } else {
                        proof {
                            lemma_filter_absent(strings_view(self.tabs@), tab@);
                        }
                    }
                },
                None => {},
            }
            Ok(())
        } else if str_eq(op, "close_default_tabs") {
            if self.defaults_closed || self.tabs.len() == 0 {
                return Ok(());
            }
            let mut j: usize = 0;
            while j < self.default_tabs.len()
                invariant
                    j <= self.default_tabs.len(),
                    self.wf(),
                    self.tabs == old(self).tabs,
                    self.titles == old(self).titles,
                    self.mirrors == old(self).mirrors,
                    self.default_tabs == old(self).default_tabs,
                    self.defaults_closed == old(self).defaults_closed,
                    self.focus == old(self).focus,
                    strings_view(self.log@) == strings_view(old(self).log@) + default_lines(
                        strings_view(self.default_tabs@).subrange(0, j as int),
                        strings_view(self.tabs@),
                    ),
                decreases self.default_tabs.len() - j,
            {
                let ghost d = strings_view(self.default_tabs@);
                let ghost log0 = self.log@;
                assert(d.subrange(0, j + 1).drop_last() =~= d.subrange(0, j as int));
                assert(d.subrange(0, j + 1).last() == self.default_tabs@[j as int]@);
                if !contains_str(&self.tabs, self.default_tabs[j].as_str()) {
                    let line = concat2("close-default:", self.default_tabs[j].as_str());
                    self.log.push(line);
                    assert(strings_view(self.log@) =~= strings_view(log0).push(line@));
                }
                j += 1;
            }
            assert(strings_view(self.default_tabs@).subrange(0, self.default_tabs@.len() as int) =~= strings_view(self.default_tabs@));
            self.default_tabs = Vec::new();
            self.defaults_closed = true;
            assert(strings_view(self.default_tabs@) =~= Seq::<Seq<char>>::empty());
            Ok(())
        } else if str_eq(op, "reorder_tabs") {
            let empty: Vec<String> = Vec::new();
            let ordered = match &action.ordered_tab_ids {
                Some(o) => o,
                None => &empty,
            };
            let desired = crate::text::select_exec(ordered, &self.tabs, true);
            let extras = crate::text::select_exec(&self.tabs, &desired, false);
            let mut next = desired;
            let ghost d = strings_view(next@);
            let mut j: usize = 0;
            while j < extras.len()
                invariant
                    j <= extras.len(),
                    strings_view(next@) == d + strings_view(extras@.subrange(0, j as int)),
                decreases extras.len() - j,
            {
                let ghost b = next@;
                assert(strings_view(extras@.subrange(0, j + 1)) =~= strings_view(extras@.subrange(0, j as int)).push(extras@[j as int]@));
                let e = extras[j].clone();
                next.push(e);
                assert(strings_view(next@) =~= strings_view(b).push(e@));
                assert(strings_view(next@) =~= d + strings_view(extras@.subrange(0, j + 1)));
                j += 1;
            }
            assert(extras@.subrange(0, extras@.len() as int) =~= extras@);
            self.tabs = next;
            assert(strings_view(self.tabs@) == step_tabs(strings_view(old(self).tabs@), action.view_spec()));
            let mut line = owned("reorder:");
            let mut k: usize = 0;
            while k < self.tabs.len()
                invariant
                    k <= self.tabs.len(),
                    self.wf(),
                    strings_view(self.tabs@) == step_tabs(strings_view(old(self).tabs@), action.view_spec()),
                    line@ == "reorder:"@ + join(strings_view(self.tabs@).subrange(0, k as int), ","@),
                decreases self.tabs.len() - k,
            {
                let ghost t = strings_view(self.tabs@);
                assert(t.subrange(0, k + 1).drop_last() =~= t.subrange(0, k as int));
                assert(t.subrange(0, k + 1).last() == self.tabs@[k as int]@);
                if k > 0 {
                    line.append(",");
                } else {
                    assert(t.subrange(0, 1) =~= seq![t[0]]);
                }
                line.append(self.tabs[k].as_str());
                proof {
                    if k > 0 {
                        assert(line@ =~= "reorder:"@ + (join(t.subrange(0, k as int), ","@) + ","@ + t[k as int]));
                    } else {
                        assert(line@ =~= "reorder:"@ + t[0]);
                    }
                }
                k += 1;
            }
            assert(strings_view(self.tabs@).subrange(0, self.tabs@.len() as int) =~= strings_view(self.tabs@));
            let ghost log0 = self.log@;
            self.log.push(line);
            assert(strings_view(self.log@) =~= strings_view(log0).push(line@));
            Ok(())
        } else if str_eq(op, "focus_tab") {
            match &action.tab_id {
                Some(tab) => {
                    if !contains_str(&self.tabs, tab.as_str()) {
                        return Err(concat2("focus_tab missing tab ", tab.as_str()));
                    }
                },
                None => {},
            }
            self.focus = clone_opt(&action.tab_id);
            let line = match &action.tab_id {
                Some(t) => concat2("focus:", t.as_str()),
                None => owned("focus:None"),
            };
            let ghost log0 = self.log@;
            self.log.push(line);
            assert(strings_view(self.log@) =~= strings_view(log0).push(line@));
            Ok(())
        } else {
            Err(concat2("unknown session op ", op))
        }
    }
}

/// `s` without the entries equal to `t`.
pub open spec fn without(s: Seq<Seq<char>>, t: Seq<char>) -> Seq<Seq<char>> {
    s.filter(|x: Seq<char>| x != t)
}

proof fn lemma_filter_absent(s: Seq<Seq<char>>, t: Seq<char>)
    requires
        !s.contains(t),
    ensures
        without(s, t) == s,
    decreases s.len(),
{
    reveal(Seq::filter);
    if s.len() > 0 {
        assert(!s.drop_last().contains(t)) by {
            if s.drop_last().contains(t) {
                let j = choose|j: int| 0 <= j < s.drop_last().len() && s.drop_last()[j] == t;
                assert(s[j] == t);
            }
        }
        lemma_filter_absent(s.drop_last(), t);
        assert(s.last() != t) by {
            assert(s[s.len() - 1] == s.last());
        }
        assert(s.drop_last().push(s.last()) =~= s);
    }
}

/// `tabs` without any entry equal to `t`.
pub(crate) fn remove_all(tabs: &Vec<String>, t: &str) -> (r: Vec<String>)
    ensures
        strings_view(r@) == without(strings_view(tabs@), t@),
{
    let mut out: Vec<String> = Vec::new();
    let mut i: usize = 0;
    while i < tabs.len()
        invariant
            i <= tabs.len(),
            strings_view(out@) == without(strings_view(tabs@.subrange(0, i as int)), t@),
        decreases tabs.len() - i,
    {
        let ghost pre = strings_view(tabs@.subrange(0, i as int));
        proof {
            reveal(Seq::filter);
            assert(strings_view(tabs@.subrange(0, i + 1)).drop_last() =~= pre);
            assert(strings_view(tabs@.subrange(0, i + 1)).last() == tabs@[i as int]@);
        }
        if !str_eq(tabs[i].as_str(), t) {
            let ghost b = out@;
            out.push(tabs[i].clone());
            assert(strings_view(out@) =~= strings_view(b).push(tabs@[i as int]@));
        }
        i += 1;
    }
    assert(tabs@.subrange(0, tabs@.len() as int) =~= tabs@);
    out
}

impl Default for FakeSessionHost {
    fn default() -> (r: Self)
        ensures
            r.wf(),
            r@ == fresh_host(),
    {
        FakeSessionHost::new()
    }
}

} // verus!
