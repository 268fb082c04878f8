//! The live apply host: the tab-level state that follows one provider
//! session, its session verbs, and the attach, restore, detach and observe
//! steps, driven through the lifecycle controller.
//!
//! The host surfaces of each tab are not held here: this host keeps the tab
//! order, the session verbs applied to the host, and the lifecycle state.
//! Writing the restore record and the writer lease is left to the caller,
//! which the step results tell when to do it.
use vstd::prelude::*;

use crate::assoc::unique;
use crate::engine::{ordered_tabs, reconcile_session, HerdrWindow};
use crate::handoff::WriterDecision;
use crate::json::Json;
use crate::lifecycle::{
    attach_effect, close_effect, dispatch, dispatch_ok, restore_effect, AttachWindowTarget,
    DispatchResult, DiscoveredSession, LifecycleController, LifecycleReply, RestoreRecord,
};
use crate::session::{
    closes, session_actions, title_of, views, ActionView, FakeSessionHost, SessionAction,
    apply_error, fresh_host, host_after,
};
use crate::text::{clone_strings, concat2, contains_str, dec_nat, nat_to_string, owned, select, str_eq, strings_view};

verus! {

/// Title of tab `t` among `ws`: the last window with that tab id wins.
pub open spec fn window_title(ws: Seq<HerdrWindow>, t: Seq<char>) -> Option<Seq<char>>
    decreases ws.len(),
{
    if ws.len() == 0 {
        None
    } else if ws.last().tab_id@ == t {
        Some(ws.last().title@)
    } else {
        window_title(ws.drop_last(), t)
    }
}

/// `order`, then the tab id of each window of `ws` not yet in it, once, in
/// window order.
pub open spec fn add_new(order: Seq<Seq<char>>, ws: Seq<HerdrWindow>) -> Seq<Seq<char>>
    decreases ws.len(),
{
    if ws.len() == 0 {
        order
    } else {
        let o = add_new(order, ws.drop_last());
        if o.contains(ws.last().tab_id@) {
            o
        } else {
            o.push(ws.last().tab_id@)
        }
    }
}

/// Create verbs for new tabs, titled from the windows.
pub open spec fn tab_creates(ids: Seq<Seq<char>>, ws: Seq<HerdrWindow>) -> Seq<ActionView> {
    ids.map_values(
        |t: Seq<char>|
            (
                "create_tab"@,
                Some(t),
                Some(
                    match window_title(ws, t) {
                        Some(x) => x,
                        None => t,
                    },
                ),
                None::<Seq<Seq<char>>>,
            ),
    )
}

/// Rename verbs for kept tabs whose non-empty window title differs from the
/// previous title.
pub open spec fn tab_renames(kept: Seq<Seq<char>>, ws: Seq<HerdrWindow>, prior: Seq<(String, String)>) -> Seq<
    ActionView,
>
    decreases kept.len(),
{
    if kept.len() == 0 {
        Seq::empty()
    } else {
        let t = kept.last();
        let rest = tab_renames(kept.drop_last(), ws, prior);
        match window_title(ws, t) {
            Some(n) => if n.len() > 0 && title_of(prior, t) != Some(n) {
                rest.push(("rename_tab"@, Some(t), Some(n), None::<Seq<Seq<char>>>))
            } else {
                rest
            },
            None => rest,
        }
    }
}

/// The session verbs for `ws` against the previous tab ids `prev`, the
/// previous titles `prior`, and whether the default tabs are still open.
pub open spec fn live_actions(
    ws: Seq<HerdrWindow>,
    prev: Seq<Seq<char>>,
    prior: Seq<(String, String)>,
    defaults_open: bool,
) -> Seq<ActionView> {
    let ordered = ordered_tabs(ws);
    let kept = select(ordered, prev, true);
    tab_creates(select(ordered, prev, false), ws) + tab_renames(kept, ws, prior) + closes(
        select(prev, ordered, false),
    ) + (if defaults_open && ordered.len() > 0 {
        seq![("close_default_tabs"@, None::<Seq<char>>, None::<Seq<char>>, None::<Seq<Seq<char>>>)]
    } else {
        Seq::empty()
    }) + (if select(prev, ordered, true) != kept && ordered.len() > 1 {
        seq![("reorder_tabs"@, None::<Seq<char>>, None::<Seq<char>>, Some(ordered))]
    } else {
        Seq::empty()
    })
}

pub open spec fn has_op(acts: Seq<ActionView>, op: Seq<char>) -> bool {
    exists|i: int| 0 <= i < acts.len() && #[trigger] acts[i].0 == op
}

proof fn lemma_renames_agree(kept: Seq<Seq<char>>, ws: Seq<HerdrWindow>, titles: Seq<(String, String)>, prior: Seq<(String, String)>)
    requires
        forall|q: Seq<char>| #[trigger] title_of(titles, q) == window_title(ws, q),
    ensures
        crate::session::renames(kept, titles, prior) == tab_renames(kept, ws, prior),
    decreases kept.len(),
{
    if kept.len() > 0 {
        lemma_renames_agree(kept.drop_last(), ws, titles, prior);
        assert(title_of(titles, kept.last()) == window_title(ws, kept.last()));
    }
}

proof fn lemma_select_all(s: Seq<Seq<char>>, t: Seq<Seq<char>>)
    requires
        forall|i: int| 0 <= i < s.len() ==> t.contains(#[trigger] s[i]),
    ensures
        select(s, t, true) == s,
        select(s, t, false) == Seq::<Seq<char>>::empty(),
    decreases s.len(),
{
    if s.len() > 0 {
        assert forall|i: int| 0 <= i < s.drop_last().len() implies t.contains(#[trigger] s.drop_last()[i]) by {
            assert(s.drop_last()[i] == s[i]);
        }
        lemma_select_all(s.drop_last(), t);
        assert(t.contains(s[s.len() - 1]));
        assert(s.drop_last().push(s.last()) =~= s);
    }
}

proof fn lemma_no_renames(kept: Seq<Seq<char>>, ws: Seq<HerdrWindow>, prior: Seq<(String, String)>)
    requires
        forall|q: Seq<char>| #[trigger] title_of(prior, q) == window_title(ws, q),
    ensures
        tab_renames(kept, ws, prior) == Seq::<ActionView>::empty(),
    decreases kept.len(),
{
    if kept.len() > 0 {
        lemma_no_renames(kept.drop_last(), ws, prior);
        assert(title_of(prior, kept.last()) == window_title(ws, kept.last()));
    }
}

/// Applying the windows a host already follows asks it for nothing: when
/// the previous tabs are the windows' tabs, the previous titles are the
/// windows' titles, and the default tabs are closed (or there are no tabs),
/// the session verbs are empty.
pub proof fn law_reapply_is_quiet(ws: Seq<HerdrWindow>, prior: Seq<(String, String)>, defaults_open: bool)
    requires
        forall|q: Seq<char>| #[trigger] title_of(prior, q) == window_title(ws, q),
        defaults_open ==> ordered_tabs(ws).len() == 0,
    ensures
        live_actions(ws, ordered_tabs(ws), prior, defaults_open) == Seq::<ActionView>::empty(),
{
    let o = ordered_tabs(ws);
    assert forall|i: int| 0 <= i < o.len() implies o.contains(#[trigger] o[i]) by {}
    lemma_select_all(o, o);
    lemma_no_renames(o, ws, prior);
    assert(closes(Seq::<Seq<char>>::empty()) =~= Seq::<ActionView>::empty());
    assert(tab_creates(Seq::<Seq<char>>::empty(), ws) =~= Seq::<ActionView>::empty());
    assert(live_actions(ws, o, prior, defaults_open) =~= Seq::<ActionView>::empty());
}

/// A session apply that succeeded leaves the host following the windows:
/// applying the same windows again asks the host for nothing.
pub proof fn law_session_apply_settles(h0: LiveApplyHost, h1: LiveApplyHost, ws: Seq<HerdrWindow>, a: SessionApply)
    requires
        h0.enabled,
        session_applied(h0, h1, ws, Ok(a)),
    ensures
        live_actions(ws, strings_view(h1.previous_tab_ids@), h1.previous_titles@, h1.defaults_open)
            == Seq::<ActionView>::empty(),
{
    let prev = strings_view(h0.previous_tab_ids@);
    let o = ordered_tabs(ws);
    let acts = live_actions(ws, prev, h0.previous_titles@, h0.defaults_open);
    if h0.defaults_open && o.len() > 0 {
        let c = tab_creates(select(o, prev, false), ws);
        let r = tab_renames(select(o, prev, true), ws, h0.previous_titles@);
        let k = closes(select(prev, o, false));
        let idx = c.len() + r.len() + k.len();
        assert(acts[idx as int].0 == "close_default_tabs"@);
        assert(has_op(acts, "close_default_tabs"@));
    }
    law_reapply_is_quiet(ws, h1.previous_titles@, h1.defaults_open);
}

/// What one session apply reports.
#[derive(Debug)]
pub struct SessionApply {
    /// `false` when the host is disabled and nothing was applied.
    pub ok: bool,
    /// The tab ids of the host, in arrival order.
    pub tabs: Vec<String>,
    /// The session verbs applied, by name.
    pub session_ops: Vec<String>,
    pub defaults_open: bool,
}

/// The live host of one provider session.
#[derive(Debug)]
pub struct LiveApplyHost {
    pub enabled: bool,
    pub socket_path: String,
    pub claim_native_writer: bool,
    /// Mirrored tab ids, in arrival order.
    pub window_order: Vec<String>,
    pub session_host: FakeSessionHost,
    pub lifecycle: LifecycleController,
    pub previous_tab_ids: Vec<String>,
    /// Previous tab titles by tab id (keys distinct).
    pub previous_titles: Vec<(String, String)>,
    pub defaults_open: bool,
    pub native_live: bool,
    pub log: Vec<String>,
}

/// The word an attach is logged under.
pub open spec fn attach_word(r: LifecycleReply) -> Seq<char> {
    match r {
        LifecycleReply::Refused { outcome, .. } => outcome@,
        LifecycleReply::Attached { outcome, .. } => outcome@,
        _ => "None"@,
    }
}

/// A reply that reports success.
pub open spec fn reply_ok(r: LifecycleReply) -> bool {
    r is Attached
}

/// Everything a session apply does to the host, but the lifecycle.
pub open spec fn session_applied(
    h0: LiveApplyHost,
    h1: LiveApplyHost,
    ws: Seq<HerdrWindow>,
    r: Result<SessionApply, String>,
) -> bool {
    if !h0.enabled {
        &&& r matches Ok(a) && !a.ok && a.tabs@.len() == 0 && a.session_ops@.len() == 0 && !a.defaults_open
        &&& h1.session_host == h0.session_host
        &&& h1.window_order == h0.window_order
        &&& h1.previous_tab_ids == h0.previous_tab_ids
        &&& h1.previous_titles == h0.previous_titles
        &&& h1.defaults_open == h0.defaults_open
        &&& h1.log == h0.log
    } else {
        let prev = strings_view(h0.previous_tab_ids@);
        let ordered = ordered_tabs(ws);
        let acts = live_actions(ws, prev, h0.previous_titles@, h0.defaults_open);
        &&& h1.session_host@ == host_after(h0.session_host@, acts)
        &&& match r {
            Err(e) => {
                &&& apply_error(h0.session_host@, acts) == Some(e@)
                &&& h1.window_order == h0.window_order
                &&& h1.previous_tab_ids == h0.previous_tab_ids
                &&& h1.previous_titles == h0.previous_titles
                &&& h1.defaults_open == h0.defaults_open
                &&& h1.log == h0.log
            },
            Ok(a) => {
                &&& apply_error(h0.session_host@, acts) is None
                &&& a.ok
                &&& strings_view(h1.window_order@) == add_new(
                    select(strings_view(h0.window_order@), select(prev, ordered, false), false),
                    ws,
                )
                &&& strings_view(a.tabs@) == strings_view(h1.window_order@)
                &&& strings_view(a.session_ops@) == acts.map_values(|x: ActionView| x.0)
                &&& h1.defaults_open == (h0.defaults_open && !has_op(acts, "close_default_tabs"@))
                &&& a.defaults_open == h1.defaults_open
                &&& strings_view(h1.previous_tab_ids@) == ordered
                &&& forall|q: Seq<char>| #[trigger] title_of(h1.previous_titles@, q) == window_title(ws, q)
                &&& strings_view(h1.log@) == strings_view(h0.log@).push(
                    "session:tabs="@ + dec_nat(h1.window_order@.len()),
                )
            },
        }
    }
}

/// The fields that no step changes.
pub open spec fn same_setup(h0: LiveApplyHost, h1: LiveApplyHost) -> bool {
    &&& h1.enabled == h0.enabled
    &&& h1.socket_path == h0.socket_path
    &&& h1.claim_native_writer == h0.claim_native_writer
}

fn window_titles(windows: &[HerdrWindow]) -> (r: Vec<(String, String)>)
    ensures
        unique(r@),
        forall|q: Seq<char>| #[trigger] title_of(r@, q) == window_title(windows@, q),
{
    let mut r: Vec<(String, String)> = Vec::new();
    let mut i: usize = 0;
    while i < windows.len()
        invariant
            i <= windows.len(),
            unique(r@),
            forall|q: Seq<char>| #[trigger] title_of(r@, q) == window_title(windows@.take(i as int), q),
        decreases windows.len() - i,
    {
        let ghost before = r@;
        crate::assoc::set(&mut r, windows[i].tab_id.clone(), windows[i].title.clone());
        proof {
            let w = windows@.take(i + 1);
            assert(w.drop_last() =~= windows@.take(i as int));
            assert(w.last() == windows@[i as int]);
            assert forall|q: Seq<char>| #[trigger] title_of(r@, q) == window_title(w, q) by {
                assert(title_of(before, q) == window_title(windows@.take(i as int), q));
            }
        }
        i += 1;
    }
    assert(windows@.take(windows@.len() as int) =~= windows@);
    r
}

fn has_op_exec(actions: &Vec<SessionAction>, op: &str) -> (r: bool)
    ensures
        r == has_op(views(actions@), op@),
{
    let mut i: usize = 0;
    while i < actions.len()
        invariant
            i <= actions.len(),
            forall|j: int| 0 <= j < i ==> #[trigger] views(actions@)[j].0 != op@,
        decreases actions.len() - i,
    {
        assert(views(actions@)[i as int] == actions@[i as int].view_spec());
        if str_eq(actions[i].op.as_str(), op) {
            assert(views(actions@)[i as int].0 == op@);
            return true;
        }
        i += 1;
    }
    false
}

fn op_names(actions: &Vec<SessionAction>) -> (r: Vec<String>)
    ensures
        strings_view(r@) == views(actions@).map_values(|x: ActionView| x.0),
{
    let mut r: Vec<String> = Vec::new();
    let mut i: usize = 0;
    while i < actions.len()
        invariant
            i <= actions.len(),
            strings_view(r@) == views(actions@).take(i as int).map_values(|x: ActionView| x.0),
        decreases actions.len() - i,
    {
        let ghost before = r@;
        let o = actions[i].op.clone();
        r.push(o);
        assert(views(actions@)[i as int] == actions@[i as int].view_spec());
        assert(strings_view(r@) =~= strings_view(before).push(o@));
        assert(views(actions@).take(i + 1) =~= views(actions@).take(i as int).push(views(actions@)[i as int]));
        assert(strings_view(r@) =~= views(actions@).take(i + 1).map_values(|x: ActionView| x.0));
        i += 1;
    }
    assert(views(actions@).take(actions@.len() as int) =~= views(actions@));
    r
}

fn order_after(order: &Vec<String>, closed: &Vec<String>, windows: &[HerdrWindow]) -> (r: Vec<String>)
    ensures
        strings_view(r@) == add_new(select(strings_view(order@), strings_view(closed@), false), windows@),
{
    let mut r = crate::text::select_exec(order, closed, false);
    let ghost base = strings_view(r@);
    let mut i: usize = 0;
    while i < windows.len()
        invariant
            i <= windows.len(),
            strings_view(r@) == add_new(base, windows@.take(i as int)),
        decreases windows.len() - i,
    {
        let ghost before = r@;
        proof {
            let w = windows@.take(i + 1);
            assert(w.drop_last() =~= windows@.take(i as int));
            assert(w.last() == windows@[i as int]);
        }
        if !contains_str(&r, windows[i].tab_id.as_str()) {
            r.push(windows[i].tab_id.clone());
            assert(strings_view(r@) =~= strings_view(before).push(windows@[i as int].tab_id@));
        }
        i += 1;
    }
    assert(windows@.take(windows@.len() as int) =~= windows@);
    r
}

impl LiveApplyHost {
    pub open spec fn wf(self) -> bool {
        &&& self.session_host.wf()
        &&& self.lifecycle.wf()
        &&& unique(self.previous_titles@)
    }

    /// A host with no tabs, the default tabs open, and a fresh controller.
    pub fn new(enabled: bool, socket_path: &str, claim_native_writer: bool) -> (r: Self)
        ensures
            is_new_host(r, enabled, socket_path@, claim_native_writer),
    {
        LiveApplyHost {
            enabled,
            socket_path: owned(socket_path),
            claim_native_writer,
            window_order: Vec::new(),
            session_host: FakeSessionHost::new(),
            lifecycle: LifecycleController::new(enabled, true),
            previous_tab_ids: Vec::new(),
            previous_titles: Vec::new(),
            defaults_open: true,
            native_live: false,
            log: Vec::new(),
        }
    }

    /// Apply the provider's `windows` to the host: reconcile them against the
    /// previous tabs, apply the session verbs (stopping at the first that
    /// fails, whose error is returned), and follow the tab order.
    pub fn apply_session(&mut self, windows: &[HerdrWindow]) -> (r: Result<SessionApply, String>)
        requires
            old(self).wf(),
            windows@.len() < u64::MAX,
        ensures
            final(self).wf(),
            same_setup(*old(self), *final(self)),
            final(self).lifecycle == old(self).lifecycle,
            final(self).native_live == old(self).native_live,
            session_applied(*old(self), *final(self), windows@, r),
    {
        if !self.enabled {
            return Ok(SessionApply { ok: false, tabs: Vec::new(), session_ops: Vec::new(), defaults_open: false });
        }
        let ghost h0 = *self;
        let session = reconcile_session(windows, &self.previous_tab_ids);
        let titles = window_titles(windows);
        let actions = session_actions(&session, Some(&titles), Some(&self.previous_titles), self.defaults_open, None);
        proof {
            let ws = windows@;
            let prev = strings_view(h0.previous_tab_ids@);
            lemma_renames_agree(strings_view(session.kept_tab_ids@), ws, titles@, h0.previous_titles@);
            assert(crate::session::creates(strings_view(session.created_tab_ids@), titles@) =~= tab_creates(
                strings_view(session.created_tab_ids@),
                ws,
            ));
            assert(views(actions@) =~= live_actions(ws, prev, h0.previous_titles@, h0.defaults_open));
        }
        match self.session_host.apply(actions.as_slice()) {
            Err(e) => {
                return Err(e);
            },
            Ok(_) => {},
        }
        if has_op_exec(&actions, "close_default_tabs") {
            self.defaults_open = false;
        }
        self.window_order = order_after(&self.window_order, &session.closed_tab_ids, windows);
        self.previous_tab_ids = session.ordered_tab_ids;
        self.previous_titles = titles;
        let n = nat_to_string(self.window_order.len() as u64);
        let line = concat2("session:tabs=", n.as_str());
        let ghost lb = self.log@;
        self.log.push(line);
        assert(strings_view(self.log@) =~= strings_view(lb).push(line@));
        let tabs = clone_strings(&self.window_order);
        Ok(SessionApply { ok: true, tabs, session_ops: op_names(&actions), defaults_open: self.defaults_open })
    }
}


impl LiveApplyHost {
    /// Attach the discovered `sessions` of the host's endpoint into the
    /// contextual window. A disabled host refuses with `disabled` and
    /// changes nothing.
    pub fn attach(&mut self, sessions: &Vec<DiscoveredSession>, activate: bool) -> (r: LifecycleReply)
        requires
            old(self).wf(),
            old(self).lifecycle.window_seq < u64::MAX,
        ensures
            final(self).wf(),
            !old(self).enabled ==> crate::lifecycle::reply_refused(r, "disabled"@, None) && *final(self)
                == *old(self),
            old(self).enabled ==> {
                &&& attach_effect(
                    old(self).lifecycle,
                    final(self).lifecycle,
                    final(self).lifecycle.events@,
                    old(self).socket_path@,
                    sessions@,
                    ("contextual"@, None),
                    activate,
                    r,
                    false,
                )
                &&& strings_view(final(self).log@) == strings_view(old(self).log@).push(
                    "attach:"@ + attach_word(r),
                )
                &&& final(self).window_order == old(self).window_order
                &&& final(self).session_host == old(self).session_host
                &&& final(self).previous_tab_ids == old(self).previous_tab_ids
                &&& final(self).previous_titles == old(self).previous_titles
                &&& final(self).defaults_open == old(self).defaults_open
                &&& final(self).native_live == old(self).native_live
                &&& same_setup(*old(self), *final(self))
            },
    {
        if !self.enabled {
            return LifecycleReply::Refused { outcome: owned("disabled"), reason: None };
        }
        let target = AttachWindowTarget::new("contextual", None);
        let r = self.lifecycle.attach(self.socket_path.as_str(), sessions, &target, activate);
        let word = match &r {
            LifecycleReply::Refused { outcome, .. } => outcome.clone(),
            LifecycleReply::Attached { outcome, .. } => outcome.clone(),
            _ => owned("None"),
        };
        let line = concat2("attach:", word.as_str());
        let ghost lb = self.log@;
        self.log.push(line);
        assert(strings_view(self.log@) =~= strings_view(lb).push(line@));
        r
    }

    /// Tear the tabs down and apply the host-close policy of a closed host
    /// tab. The provider keeps running.
    pub fn detach(&mut self) -> (r: LifecycleReply)
        requires
            old(self).wf(),
        ensures
            final(self).wf(),
            final(self).window_order@.len() == 0,
            close_effect(old(self).lifecycle, final(self).lifecycle, "host_tab"@, r),
            !final(self).native_live,
            strings_view(final(self).log@) == strings_view(old(self).log@).push("detach"@),
            final(self).session_host == old(self).session_host,
            final(self).previous_tab_ids == old(self).previous_tab_ids,
            final(self).previous_titles == old(self).previous_titles,
            final(self).defaults_open == old(self).defaults_open,
            same_setup(*old(self), *final(self)),
    {
        self.window_order = Vec::new();
        let r = self.lifecycle.close_host("host_tab");
        self.native_live = false;
        let ghost lb = self.log@;
        self.log.push(owned("detach"));
        assert(strings_view(self.log@) =~= strings_view(lb).push("detach"@));
        r
    }

    /// Restore the persisted attachment against fresh `sessions`, then apply
    /// the provider's `windows`.
    pub fn restore(&mut self, sessions: &Vec<DiscoveredSession>, windows: &[HerdrWindow]) -> (r: (
        LifecycleReply,
        Result<SessionApply, String>,
    ))
        requires
            old(self).wf(),
            old(self).lifecycle.window_seq < u64::MAX,
            windows@.len() < u64::MAX,
        ensures
            final(self).wf(),
            same_setup(*old(self), *final(self)),
            restore_effect(old(self).lifecycle, final(self).lifecycle, sessions@, r.0),
            session_applied(*old(self), *final(self), windows@, r.1),
            final(self).native_live == old(self).native_live,
    {
        let restored = self.lifecycle.restore(sessions);
        let ghost mid = *self;
        let applied = self.apply_session(windows);
        proof {
            assert(session_applied(mid, *self, windows@, applied));
        }
        (restored, applied)
    }

    /// Answer a `remote.herdr.*` observation with `params`: the validated
    /// call, and what the host adds for the method (a detach detaches).
    pub fn observe(&mut self, method: &str, params: &Json) -> (r: (DispatchResult, LiveObservation))
        requires
            old(self).wf(),
        ensures
            final(self).wf(),
            dispatch_ok(method@, Some(*params), old(self).enabled, r.0),
            !r.0.ok ==> r.1 is Gate && *final(self) == *old(self),
            r.0.ok ==> if method@ == "remote.herdr.pane_surfaces"@ || method@ == "remote.herdr.pane_grids"@ {
                &&& r.1 matches LiveObservation::Panes { mirrored } && mirrored == (old(self).window_order@.len() > 0)
                &&& *final(self) == *old(self)
            } else if method@ == "remote.herdr.state"@ {
                &&& r.1 matches LiveObservation::State { session, window_ids } && session@ == match r.0.session {
                    Some(s) => s@,
                    None => "main"@,
                } && window_ids@ == old(self).window_order@
                &&& *final(self) == *old(self)
            } else if method@ == "remote.herdr.detach"@ {
                &&& r.1 matches LiveObservation::Detached(d) && close_effect(
                    old(self).lifecycle,
                    final(self).lifecycle,
                    "host_tab"@,
                    d,
                )
                &&& final(self).window_order@.len() == 0
                &&& !final(self).native_live
                &&& strings_view(final(self).log@) == strings_view(old(self).log@).push("detach"@)
                &&& final(self).session_host == old(self).session_host
                &&& same_setup(*old(self), *final(self))
            } else {
                r.1 is Gate && *final(self) == *old(self)
            },
    {
        let gate = dispatch(method, Some(params), self.enabled);
        if !gate.ok {
            return (gate, LiveObservation::Gate);
        }
        if str_eq(method, "remote.herdr.pane_surfaces") || str_eq(method, "remote.herdr.pane_grids") {
            let mirrored = self.window_order.len() > 0;
            (gate, LiveObservation::Panes { mirrored })
        } else if str_eq(method, "remote.herdr.state") {
            let session = match &gate.session {
                Some(s) => s.clone(),
                None => owned("main"),
            };
            let window_ids = clone_strings(&self.window_order);
            (gate, LiveObservation::State { session, window_ids })
        } else if str_eq(method, "remote.herdr.detach") {
            let d = self.detach();
            (gate, LiveObservation::Detached(d))
        } else {
            (gate, LiveObservation::Gate)
        }
    }
}


impl LiveApplyHost {
    /// Mark the host's native writer live. A host that does not claim the
    /// native writer does nothing and answers `false`; otherwise it answers
    /// `true`, and its caller writes the writer marker (or claims the native
    /// writer lease) as part of the same step.
    pub fn set_native_live(&mut self) -> (claim: bool)
        ensures
            claim == old(self).claim_native_writer,
            !claim ==> *final(self) == *old(self),
            claim ==> {
                &&& final(self).native_live
                &&& strings_view(final(self).log@) == strings_view(old(self).log@).push("native_live"@)
                &&& *final(self) == (LiveApplyHost { native_live: true, log: final(self).log, ..*old(self) })
            },
    {
        if !self.claim_native_writer {
            return false;
        }
        self.native_live = true;
        let ghost lb = self.log@;
        self.log.push(owned("native_live"));
        assert(strings_view(self.log@) =~= strings_view(lb).push("native_live"@));
        true
    }
}

/// What an observation adds to the validated call.
#[derive(Debug)]
pub enum LiveObservation {
    /// Nothing: the call was refused, or its method reads nothing of the host.
    Gate,
    /// Pane surfaces or grids were asked for: whether any tab is mirrored.
    Panes { mirrored: bool },
    /// The state of `session`, with the mirrored tab ids in arrival order.
    State { session: String, window_ids: Vec<String> },
    /// The host detached, with the host-close reply.
    Detached(LifecycleReply),
}

/// What an attach step reports, and what its caller is to do next.
#[derive(Debug)]
pub struct AttachLive {
    pub ok: bool,
    pub apply: Result<SessionApply, String>,
    pub attach: LifecycleReply,
    /// Write the controller's restore record.
    pub persist: bool,
    /// Claim the plugin writer lease for the endpoint.
    pub claim_writer: bool,
}

pub open spec fn applied_ok(a: Result<SessionApply, String>) -> bool {
    a matches Ok(x) && x.ok
}

/// `h` is a host as `LiveApplyHost::new` makes it.
pub open spec fn is_new_host(h: LiveApplyHost, enabled: bool, socket_path: Seq<char>, claim_native_writer: bool) -> bool {
    &&& h.wf()
    &&& h.enabled == enabled
    &&& h.socket_path@ == socket_path
    &&& h.claim_native_writer == claim_native_writer
    &&& h.window_order@.len() == 0
    &&& h.session_host@ == fresh_host()
    &&& h.lifecycle.enabled == enabled
    &&& h.lifecycle.app_ready
    &&& h.lifecycle.mirrors@.len() == 0
    &&& h.lifecycle.connections@.len() == 0
    &&& h.lifecycle.persist is None
    &&& h.lifecycle.window_seq == 0
    &&& h.previous_tab_ids@.len() == 0
    &&& h.previous_titles@.len() == 0
    &&& h.defaults_open
    &&& !h.native_live
    &&& h.log@.len() == 0
}

/// The host a step starts from: the one given, or a new one.
pub open spec fn start_host(h0: LiveApplyHost, host: Option<LiveApplyHost>, enabled: bool) -> bool {
    match host {
        Some(h) => h0 == h,
        None => is_new_host(h0, enabled, "/tmp/herdr.sock"@, false),
    }
}

/// `h1` is `host`, or a new host, after a session apply of `ws` that
/// succeeded; the lifecycle and the setup are as they were.
pub open spec fn applied_from(host: Option<LiveApplyHost>, enabled: bool, ws: Seq<HerdrWindow>, h1: LiveApplyHost) -> bool {
    exists|h0: LiveApplyHost, a: SessionApply|
        #![trigger session_applied(h0, h1, ws, Ok(a))]
        start_host(h0, host, enabled) && h1.lifecycle == h0.lifecycle && same_setup(h0, h1)
            && session_applied(h0, h1, ws, Ok(a))
}

/// A session apply of `ws` to `host`, or to a new host, failed with `e`.
pub open spec fn failed_from(host: Option<LiveApplyHost>, enabled: bool, ws: Seq<HerdrWindow>, e: Seq<char>) -> bool {
    exists|h0: LiveApplyHost, h1: LiveApplyHost, x: String|
        #![trigger session_applied(h0, h1, ws, Err(x))]
        x@ == e && start_host(h0, host, enabled) && session_applied(h0, h1, ws, Err(x))
}

/// Apply the provider's `windows` to `host`, or to a new host.
pub fn apply_live_windows(windows: &[HerdrWindow], host: Option<LiveApplyHost>, enabled: bool) -> (r: Result<
    LiveApplyHost,
    String,
>)
    requires
        host matches Some(h) ==> h.wf(),
        windows@.len() < u64::MAX,
    ensures
        match r {
            Ok(h1) => h1.wf() && applied_from(host, enabled, windows@, h1),
            Err(e) => failed_from(host, enabled, windows@, e@),
        },
{
    let mut machine = match host {
        Some(h) => h,
        None => LiveApplyHost::new(enabled, "/tmp/herdr.sock", false),
    };
    let ghost h0 = machine;
    match machine.apply_session(windows) {
        Ok(a) => {
            assert(start_host(h0, host, enabled) && machine.lifecycle == h0.lifecycle && same_setup(h0, machine)
                && session_applied(h0, machine, windows@, Ok(a)));
            assert(applied_from(host, enabled, windows@, machine));
            Ok(machine)
        },
        Err(e) => {
            assert(start_host(h0, host, enabled) && session_applied(h0, machine, windows@, Err(e)));
            assert(failed_from(host, enabled, windows@, e@));
            Err(e)
        },
    }
}

/// Attach the endpoint at `socket_path` with a new host: apply the
/// provider's `windows`, attach `sessions`, and say whether to persist the
/// restore record (when `persist` is asked and the attach succeeded) and
/// whether to claim the plugin writer (when the attach succeeded).
pub fn attach_live(
    windows: &[HerdrWindow],
    sessions: &Vec<DiscoveredSession>,
    socket_path: &str,
    activate: bool,
    persist: bool,
) -> (r: (LiveApplyHost, AttachLive))
    requires
        windows@.len() < u64::MAX,
    ensures
        r.0.wf(),
        exists|h0: LiveApplyHost, h1: LiveApplyHost|
            #![trigger session_applied(h0, h1, windows@, r.1.apply)]
            {
                &&& is_new_host(h0, true, socket_path@, false)
                &&& session_applied(h0, h1, windows@, r.1.apply)
                &&& h1.lifecycle == h0.lifecycle
                &&& attach_effect(
                    h1.lifecycle,
                    r.0.lifecycle,
                    r.0.lifecycle.events@,
                    socket_path@,
                    sessions@,
                    ("contextual"@, None),
                    activate,
                    r.1.attach,
                    false,
                )
            },
        r.1.ok == (applied_ok(r.1.apply) && reply_ok(r.1.attach)),
        r.1.persist == (persist && reply_ok(r.1.attach)),
        r.1.claim_writer == reply_ok(r.1.attach),
{
    let mut host = LiveApplyHost::new(true, socket_path, false);
    let ghost h0 = host;
    let applied = host.apply_session(windows);
    let ghost h1 = host;
    let attached = host.attach(sessions, activate);
    let attached_ok = match &attached {
        LifecycleReply::Attached { .. } => true,
        _ => false,
    };
    let applied_good = match &applied {
        Ok(a) => a.ok,
        Err(_) => false,
    };
    assert(session_applied(h0, h1, windows@, applied));
    let out = AttachLive {
        ok: applied_good && attached_ok,
        apply: applied,
        attach: attached,
        persist: persist && attached_ok,
        claim_writer: attached_ok,
    };
    (host, out)
}

/// What a restore step reports, and what its caller is to do next.
#[derive(Debug)]
pub struct RestoreLive {
    pub ok: bool,
    pub restore: LifecycleReply,
    pub apply: Result<SessionApply, String>,
    /// Write the controller's restore record again.
    pub persist: bool,
    /// Claim the plugin writer lease for the endpoint.
    pub claim_writer: bool,
}

/// Restore the endpoint at `socket_path` from its persisted `record` with a
/// new host: `None` when there is no record to restore from.
pub fn restore_live(
    windows: &[HerdrWindow],
    sessions: &Vec<DiscoveredSession>,
    socket_path: &str,
    record: Option<RestoreRecord>,
) -> (r: Option<(LiveApplyHost, RestoreLive)>)
    requires
        windows@.len() < u64::MAX,
    ensures
        record is None <==> r is None,
        r matches Some((h2, out)) ==> {
            &&& h2.wf()
            &&& exists|h0: LiveApplyHost|
                #![trigger session_applied(h0, h2, windows@, out.apply)]
                {
                    &&& is_new_host(h0, true, socket_path@, false)
                    &&& session_applied(h0, h2, windows@, out.apply)
                    &&& restore_effect(
                        LifecycleController { persist: record, ..h0.lifecycle },
                        h2.lifecycle,
                        sessions@,
                        out.restore,
                    )
                }
            &&& out.ok == (reply_ok(out.restore) && applied_ok(out.apply))
            &&& out.persist == reply_ok(out.restore)
            &&& out.claim_writer == reply_ok(out.restore)
        },
{
    match record {
        None => None,
        Some(rec) => {
            let mut host = LiveApplyHost::new(true, socket_path, false);
            let ghost h0 = host;
            host.lifecycle.persist = Some(rec);
            let ghost hp = host;
            let (restored, applied) = host.restore(sessions, windows);
            assert(session_applied(hp, host, windows@, applied));
            assert(session_applied(h0, host, windows@, applied));
            let restored_ok = match &restored {
                LifecycleReply::Attached { .. } => true,
                _ => false,
            };
            let applied_good = match &applied {
                Ok(a) => a.ok,
                Err(_) => false,
            };
            let out = RestoreLive {
                ok: restored_ok && applied_good,
                restore: restored,
                apply: applied,
                persist: restored_ok,
                claim_writer: restored_ok,
            };
            Some((host, out))
        },
    }
}

/// Detach the endpoint at `socket_path`: a new host with the provider's
/// `windows` applied, then torn down. The caller then clears the restore
/// record and releases the plugin writer.
pub fn detach_live(windows: &[HerdrWindow], socket_path: &str) -> (r: Result<(LiveApplyHost, LifecycleReply), String>)
    requires
        windows@.len() < u64::MAX,
    ensures
        match r {
            Ok((h2, d)) => {
                &&& h2.wf()
                &&& h2.socket_path@ == socket_path@
                &&& h2.window_order@.len() == 0
                &&& exists|h1: LiveApplyHost|
                    #![trigger applied_from(None, true, windows@, h1)]
                    applied_from(None, true, windows@, h1) && close_effect(h1.lifecycle, h2.lifecycle, "host_tab"@, d)
            },
            Err(e) => failed_from(None, true, windows@, e@),
        },
{
    let mut host = LiveApplyHost::new(true, "/tmp/herdr.sock", false);
    let ghost h0 = host;
    match host.apply_session(windows) {
        Err(e) => {
            assert(start_host(h0, None, true) && session_applied(h0, host, windows@, Err(e)));
            assert(failed_from(None, true, windows@, e@));
            Err(e)
        },
        Ok(a) => {
            let ghost h1 = host;
            assert(session_applied(h0, h1, windows@, Ok(a)));
            host.socket_path = owned(socket_path);
            let d = host.detach();
            assert(is_new_host(h0, true, "/tmp/herdr.sock"@, false) && session_applied(h0, h1, windows@, Ok(a))
                && h1.lifecycle == h0.lifecycle && close_effect(h1.lifecycle, host.lifecycle, "host_tab"@, d));
            assert(start_host(h0, None, true) && same_setup(h0, h1));
            assert(applied_from(None, true, windows@, h1));
            Ok((host, d))
        },
    }
}

/// Whether a live step goes ahead, or leaves the host to another writer.
#[derive(Debug, Clone, Copy, PartialEq, Eq)]
pub enum ForeignStep {
    /// No other writer owns the host: the step goes ahead.
    Proceed,
    /// The step yields to the live native writer.
    Yield,
    /// An observation is answered from the other writer's side.
    ObserveForeign,
}

/// What the writer `decision` means for the live `action` of this process
/// (`own_pid`): an observation is answered from the other side when the
/// native writer is live (and not overridden), or when a plugin writer of
/// another live process holds the lease; any other action yields only to a
/// live native writer.
pub open spec fn foreign_step_spec(action: Seq<char>, d: WriterDecision, own_pid: int) -> ForeignStep {
    let yields = !d.force_plugin && d.native_live;
    let foreign_plugin = action == "observe"@ && d.plugin_live && (d.lease matches Some(l) && l.pid != 0
        && l.pid != own_pid);
    if action == "observe"@ && (yields || foreign_plugin) {
        ForeignStep::ObserveForeign
    } else if yields {
        ForeignStep::Yield
    } else {
        ForeignStep::Proceed
    }
}

/// See [`foreign_step_spec`].
pub fn foreign_step(action: &str, decision: &WriterDecision, own_pid: i64) -> (r: ForeignStep)
    ensures
        r == foreign_step_spec(action@, *decision, own_pid as int),
{
    let yields = decision.yields();
    let observe = str_eq(action, "observe");
    let foreign_plugin = observe && decision.plugin_live && match &decision.lease {
        Some(l) => l.pid != 0 && l.pid != own_pid,
        None => false,
    };
    if observe && (yields || foreign_plugin) {
        ForeignStep::ObserveForeign
    } else if yields {
        ForeignStep::Yield
    } else {
        ForeignStep::Proceed
    }
}

} // verus!
