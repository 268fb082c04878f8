//! Herdr topology: panes, tabs, workspaces and snapshots, read from the
//! provider's JSON payloads leniently: a missing or falsy field reads as
//! empty text or 0, and null, false, zero, empty text, lists and objects
//! are falsy, so pills and trees render identically.
use vstd::prelude::*;

use crate::handoff::{parse_i64, parse_i64_spec};
use crate::json::{copy_json, is_truthy, json_eq, json_get, json_text, num_str, num_str_exec, opt_get, opt_ref, truthy, Json};
use crate::text::{chars_of, concat3, opt_view, owned, push_char, str_eq, string_from, trim, trim_str};

verus! {

/// One Herdr pane.
#[derive(Debug)]
pub struct Pane {
    pub pane_id: String,
    pub tab_id: String,
    pub workspace_id: String,
    pub agent: Option<String>,
    pub agent_status: String,
    pub label: Option<String>,
    pub cwd: Option<String>,
    pub focused: bool,
    pub terminal_title: Option<String>,
    pub agent_session_path: Option<String>,
    pub agent_session_id: Option<String>,
    pub agent_session_kind: Option<String>,
    pub revision: Option<i64>,
    pub raw: Json,
}

/// One Herdr tab.
#[derive(Debug)]
pub struct Tab {
    pub tab_id: String,
    pub workspace_id: String,
    pub label: Option<String>,
    pub number: Option<i64>,
    pub agent_status: String,
    pub focused: bool,
    pub pane_count: i64,
    pub raw: Json,
}

/// One Herdr workspace.
#[derive(Debug)]
pub struct Workspace {
    pub workspace_id: String,
    pub label: Option<String>,
    pub number: Option<i64>,
    pub agent_status: String,
    pub focused: bool,
    pub pane_count: i64,
    pub tab_count: i64,
    pub raw: Json,
}

/// A point-in-time Herdr topology.
#[derive(Debug)]
pub struct Snapshot {
    pub panes: Vec<Pane>,
    pub tabs: Vec<Tab>,
    pub workspaces: Vec<Workspace>,
    pub layouts: Json,
}

// ---- field coercions -------------------------------------------------------

/// `str(raw.get(k) or "")`: missing or null is empty, strings verbatim,
/// booleans `True`/`False`, anything else its JSON text.
pub open spec fn str_field(raw: Json, key: Seq<char>) -> Seq<char> {
    match json_get(raw, key) {
        None => Seq::empty(),
        Some(Json::Null) => Seq::empty(),
        Some(j) => num_str(j),
    }
}

/// `str(raw.get(k) or "unknown")`.
pub open spec fn str_field_or_unknown(raw: Json, key: Seq<char>) -> Seq<char> {
    if str_field(raw, key).len() == 0 {
        "unknown"@
    } else {
        str_field(raw, key)
    }
}

/// A string-valued member.
pub open spec fn as_str(v: Option<Json>) -> Option<Seq<char>> {
    match v {
        Some(Json::Str(s)) => Some(s@),
        _ => None,
    }
}

/// `raw.get(k)` when it is a string.
pub open spec fn opt_str_field(raw: Json, key: Seq<char>) -> Option<Seq<char>> {
    as_str(json_get(raw, key))
}

/// The JSON text of an integer: digits with an optional leading minus.
pub open spec fn int_text(t: Seq<char>) -> bool {
    t.len() > 0 && forall|i: int|
        0 <= i < t.len() ==> ('0' <= #[trigger] t[i] <= '9' || (i == 0 && t[i] == '-'))
}

/// `raw.get(k)` when it is a JSON integer within `i64`.
pub open spec fn opt_int_field(raw: Json, key: Seq<char>) -> Option<i64> {
    match json_get(raw, key) {
        Some(Json::Number { text, whole, .. }) => if int_text(text@) {
            whole
        } else {
            None
        },
        _ => None,
    }
}

/// `int(raw.get(k) or 0)`: numbers truncate toward zero, strings parse
/// after trimming, anything else is zero.
pub open spec fn int_field(raw: Json, key: Seq<char>) -> int {
    match json_get(raw, key) {
        Some(Json::Number { trunc, .. }) => trunc as int,
        Some(Json::Str(s)) => match parse_i64_spec(trim(s@)) {
            Some(n) => n,
            None => 0,
        },
        _ => 0,
    }
}

/// `bool(raw.get(k))`.
pub open spec fn bool_field(raw: Json, key: Seq<char>) -> bool {
    truthy(json_get(raw, key))
}

pub open spec fn or_else(a: Option<Seq<char>>, b: Option<Seq<char>>) -> Option<Seq<char>> {
    if a is Some {
        a
    } else {
        b
    }
}

fn str_field_exec(raw: &Json, key: &str) -> (r: String)
    ensures
        r@ == str_field(*raw, key@),
{
    match raw.get(key) {
        None => String::new(),
        Some(Json::Null) => String::new(),
        Some(j) => num_str_exec(j),
    }
}

fn str_field_or_unknown_exec(raw: &Json, key: &str) -> (r: String)
    ensures
        r@ == str_field_or_unknown(*raw, key@),
{
    let v = str_field_exec(raw, key);
    if v.as_str().is_empty() {
        owned("unknown")
    } else {
        v
    }
}

fn as_str_exec(v: Option<&Json>) -> (r: Option<String>)
    ensures
        opt_view(r) == as_str(opt_ref(v)),
{
    match v {
        Some(Json::Str(s)) => Some(s.clone()),
        _ => None,
    }
}

fn opt_str_field_exec(raw: &Json, key: &str) -> (r: Option<String>)
    ensures
        opt_view(r) == opt_str_field(*raw, key@),
{
    as_str_exec(raw.get(key))
}

pub(crate) fn int_text_exec(t: &str) -> (r: bool)
    ensures
        r == int_text(t@),
{
    let v = chars_of(t);
    if v.len() == 0 {
        return false;
    }
    let mut i: usize = 0;
    while i < v.len()
        invariant
            i <= v.len(),
            v@ == t@,
            forall|j: int| 0 <= j < i ==> ('0' <= #[trigger] v@[j] <= '9' || (j == 0 && v@[j] == '-')),
        decreases v.len() - i,
    {
        if !(('0' <= v[i] && v[i] <= '9') || (i == 0 && v[i] == '-')) {
            return false;
        }
        i += 1;
    }
    true
}

fn opt_int_field_exec(raw: &Json, key: &str) -> (r: Option<i64>)
    ensures
        r == opt_int_field(*raw, key@),
{
    match raw.get(key) {
        Some(Json::Number { text, whole, .. }) => if int_text_exec(text.as_str()) {
            *whole
        } else {
            None
        },
        _ => None,
    }
}

fn int_field_exec(raw: &Json, key: &str) -> (r: i64)
    ensures
        r == int_field(*raw, key@),
{
    match raw.get(key) {
        Some(Json::Number { trunc, .. }) => *trunc,
        Some(Json::Str(s)) => {
            let t = trim_str(s.as_str());
            match parse_i64(t.as_str()) {
                Some(n) => n,
                None => 0,
            }
        },
        _ => 0,
    }
}

fn bool_field_exec(raw: &Json, key: &str) -> (r: bool)
    ensures
        r == bool_field(*raw, key@),
{
    is_truthy(raw.get(key))
}

fn or_else_exec(a: Option<String>, b: Option<String>) -> (r: Option<String>)
    ensures
        opt_view(r) == or_else(opt_view(a), opt_view(b)),
{
    if a.is_some() {
        a
    } else {
        b
    }
}

// ---- panes -------------------------------------------------------------------

/// `s` ends with `suffix`.
pub open spec fn ends_with(s: Seq<char>, suffix: Seq<char>) -> bool {
    s.len() >= suffix.len() && s.subrange(s.len() - suffix.len(), s.len() as int) == suffix
}

fn ends_with_exec(s: &str, suffix: &str) -> (r: bool)
    ensures
        r == ends_with(s@, suffix@),
{
    let a = chars_of(s);
    let b = chars_of(suffix);
    if a.len() < b.len() {
        return false;
    }
    let off = a.len() - b.len();
    let mut i: usize = 0;
    while i < b.len()
        invariant
            i <= b.len(),
            off + b.len() == a.len(),
            a@ == s@,
            b@ == suffix@,
            forall|j: int| 0 <= j < i ==> a@[off + j] == b@[j],
        decreases b.len() - i,
    {
        if a[off + i] != b[i] {
            assert(s@.subrange(s@.len() - suffix@.len(), s@.len() as int)[i as int] != suffix@[i as int]);
            return false;
        }
        i += 1;
    }
    assert(s@.subrange(s@.len() - suffix@.len(), s@.len() as int) =~= suffix@);
    true
}

/// The `agent_session` object of a raw pane.
pub open spec fn session_of(raw: Json) -> Option<Json> {
    match json_get(raw, "agent_session"@) {
        Some(j) => if j is Object {
            Some(j)
        } else {
            None
        },
        None => None,
    }
}

/// The session kind: a non-empty string, or the JSON text of another truthy
/// value.
pub open spec fn session_kind(kind: Option<Json>) -> Option<Seq<char>> {
    match kind {
        None => None,
        Some(Json::Str(k)) => if k@.len() == 0 {
            None
        } else {
            Some(k@)
        },
        Some(j) => if truthy(Some(j)) {
            Some(json_text(j))
        } else {
            None
        },
    }
}

/// Where the session value goes: `(path, id)`. An explicit `path`/`id`
/// kind decides; otherwise a `.jsonl` value is a path and any other an id.
pub open spec fn session_slots(kind: Option<Json>, value: Option<Json>) -> (
    Option<Seq<char>>,
    Option<Seq<char>>,
) {
    match as_str(value) {
        None => (None, None),
        Some(v) => if as_str(kind) == Some("path"@) {
            (Some(v), None)
        } else if as_str(kind) == Some("id"@) {
            (None, Some(v))
        } else if ends_with(v, ".jsonl"@) {
            (Some(v), None)
        } else {
            (None, Some(v))
        },
    }
}

/// The top-level agent, else the session's; trimmed, blank is none.
pub open spec fn agent_of(raw: Json) -> Option<Seq<char>> {
    match or_else(as_str(json_get(raw, "agent"@)), as_str(opt_get(session_of(raw), "agent"@))) {
        Some(a) => if trim(a).len() == 0 {
            None
        } else {
            Some(trim(a))
        },
        None => None,
    }
}

/// `p` is the pane read from `raw`.
pub open spec fn pane_matches(p: Pane, raw: Json) -> bool {
    let session = session_of(raw);
    let kind = opt_get(session, "kind"@);
    let slots = session_slots(kind, opt_get(session, "value"@));
    &&& p.pane_id@ == str_field(raw, "pane_id"@)
    &&& p.tab_id@ == str_field(raw, "tab_id"@)
    &&& p.workspace_id@ == str_field(raw, "workspace_id"@)
    &&& opt_view(p.agent) == agent_of(raw)
    &&& p.agent_status@ == str_field_or_unknown(raw, "agent_status"@)
    &&& opt_view(p.label) == opt_str_field(raw, "label"@)
    &&& opt_view(p.cwd) == or_else(opt_str_field(raw, "cwd"@), opt_str_field(raw, "foreground_cwd"@))
    &&& p.focused == bool_field(raw, "focused"@)
    &&& opt_view(p.terminal_title) == or_else(
        opt_str_field(raw, "terminal_title_stripped"@),
        opt_str_field(raw, "terminal_title"@),
    )
    &&& opt_view(p.agent_session_path) == (if session is Some {
        slots.0
    } else {
        None
    })
    &&& opt_view(p.agent_session_id) == (if session is Some {
        slots.1
    } else {
        None
    })
    &&& opt_view(p.agent_session_kind) == (if session is Some {
        session_kind(kind)
    } else {
        None
    })
    &&& p.revision == opt_int_field(raw, "revision"@)
    &&& json_eq(raw, p.raw)
}

fn session_kind_exec(kind: Option<&Json>) -> (r: Option<String>)
    ensures
        opt_view(r) == session_kind(opt_ref(kind)),
{
    match kind {
        None => None,
        Some(Json::Str(k)) => if k.as_str().is_empty() {
            None
        } else {
            Some(k.clone())
        },
        Some(j) => if is_truthy(Some(j)) {
            Some(j.text())
        } else {
            None
        },
    }
}

fn session_slots_exec(kind: Option<&Json>, value: Option<&Json>) -> (r: (Option<String>, Option<String>))
    ensures
        (opt_view(r.0), opt_view(r.1)) == session_slots(opt_ref(kind), opt_ref(value)),
{
    let k = as_str_exec(kind);
    match as_str_exec(value) {
        None => (None, None),
        Some(v) => {
            let is_path = match &k {
                Some(x) => str_eq(x.as_str(), "path"),
                None => false,
            };
            let is_id = match &k {
                Some(x) => str_eq(x.as_str(), "id"),
                None => false,
            };
            if is_path {
                (Some(v), None)
            } else if is_id {
                (None, Some(v))
            } else if ends_with_exec(v.as_str(), ".jsonl") {
                (Some(v), None)
            } else {
                (None, Some(v))
            }
        },
    }
}

fn agent_exec(raw: &Json, session: Option<&Json>) -> (r: Option<String>)
    requires
        opt_ref(session) == session_of(*raw),
    ensures
        opt_view(r) == agent_of(*raw),
{
    let top = as_str_exec(raw.get("agent"));
    let a = if top.is_some() {
        top
    } else {
        match session {
            Some(s) => as_str_exec(s.get("agent")),
            None => None,
        }
    };
    match a {
        Some(x) => {
            let t = trim_str(x.as_str());
            if t.as_str().is_empty() {
                None
            } else {
                Some(t)
            }
        },
        None => None,
    }
}

fn session_exec(raw: &Json) -> (r: Option<&Json>)
    ensures
        opt_ref(r) == session_of(*raw),
{
    match raw.get("agent_session") {
        Some(j) => if j.is_object() {
            Some(j)
        } else {
            None
        },
        None => None,
    }
}

/// Read a pane from a raw Herdr pane object.
pub fn pane_from_raw(raw: &Json) -> (p: Pane)
    ensures
        pane_matches(p, *raw),
{
    let session = session_exec(raw);
    let (path, id, kind) = match session {
        Some(s) => {
            let kind = s.get("kind");
            let (path, id) = session_slots_exec(kind, s.get("value"));
            (path, id, session_kind_exec(kind))
        },
        None => (None, None, None),
    };
    let agent = agent_exec(raw, session);
    Pane {
        pane_id: str_field_exec(raw, "pane_id"),
        tab_id: str_field_exec(raw, "tab_id"),
        workspace_id: str_field_exec(raw, "workspace_id"),
        agent,
        agent_status: str_field_or_unknown_exec(raw, "agent_status"),
        label: opt_str_field_exec(raw, "label"),
        cwd: or_else_exec(opt_str_field_exec(raw, "cwd"), opt_str_field_exec(raw, "foreground_cwd")),
        focused: bool_field_exec(raw, "focused"),
        terminal_title: or_else_exec(
            opt_str_field_exec(raw, "terminal_title_stripped"),
            opt_str_field_exec(raw, "terminal_title"),
        ),
        agent_session_path: path,
        agent_session_id: id,
        agent_session_kind: kind,
        revision: opt_int_field_exec(raw, "revision"),
        raw: copy_json(raw),
    }
}

/// How a pane is named on a pill: its label; else its trimmed terminal
/// title, cut to 40 characters with an ellipsis when longer; else
/// `agent@pane`; else the pane id.
pub open spec fn display_name(p: Pane) -> Seq<char> {
    let title = trim(
        match p.terminal_title {
            Some(t) => t@,
            None => Seq::empty(),
        },
    );
    if p.label is Some && p.label.unwrap()@.len() > 0 {
        p.label.unwrap()@
    } else if title.len() > 0 {
        if title.len() > 40 {
            title.take(40).push('\u{2026}')
        } else {
            title
        }
    } else if p.agent is Some {
        p.agent.unwrap()@ + "@"@ + p.pane_id@
    } else {
        p.pane_id@
    }
}

/// A pane carries an agent: a non-empty agent name, or a status other than
/// empty and `unknown`.
pub open spec fn has_agent(p: Pane) -> bool {
    (p.agent is Some && p.agent.unwrap()@.len() > 0) || !(p.agent_status@.len() == 0
        || p.agent_status@ == "unknown"@)
}

impl Pane {
    /// See [`display_name`].
    pub fn display_name(&self) -> (r: String)
        ensures
            r@ == display_name(*self),
    {
        match &self.label {
            Some(l) => if !l.as_str().is_empty() {
                return l.clone();
            },
            None => {},
        }
        let title = match &self.terminal_title {
            Some(t) => trim_str(t.as_str()),
            None => trim_str(""),
        };
        proof {
            reveal_strlit("");
        }
        if !title.as_str().is_empty() {
            let v = chars_of(title.as_str());
            if v.len() > 40 {
                let mut head = string_from(&v, 0, 40);
                push_char(&mut head, '\u{2026}');
                assert(head@ =~= title@.take(40).push('\u{2026}'));
                return head;
            }
            return title;
        }
        match &self.agent {
            Some(a) => concat3(a.as_str(), "@", self.pane_id.as_str()),
            None => self.pane_id.clone(),
        }
    }

    /// The pill key of this pane: `herdr:` and its id.
    pub fn status_key(&self) -> (r: String)
        ensures
            r@ == "herdr:"@ + self.pane_id@,
    {
        crate::text::concat2("herdr:", self.pane_id.as_str())
    }

    /// See [`has_agent`].
    pub fn has_agent(&self) -> (r: bool)
        ensures
            r == has_agent(*self),
    {
        let named = match &self.agent {
            Some(a) => !a.as_str().is_empty(),
            None => false,
        };
        named || !(self.agent_status.as_str().is_empty() || str_eq(self.agent_status.as_str(), "unknown"))
    }
}

// ---- tabs and workspaces -------------------------------------------------------

/// `t` is the tab read from `raw`.
pub open spec fn tab_matches(t: Tab, raw: Json) -> bool {
    &&& t.tab_id@ == str_field(raw, "tab_id"@)
    &&& t.workspace_id@ == str_field(raw, "workspace_id"@)
    &&& opt_view(t.label) == opt_str_field(raw, "label"@)
    &&& t.number == opt_int_field(raw, "number"@)
    &&& t.agent_status@ == str_field_or_unknown(raw, "agent_status"@)
    &&& t.focused == bool_field(raw, "focused"@)
    &&& t.pane_count == int_field(raw, "pane_count"@)
    &&& json_eq(raw, t.raw)
}

/// `w` is the workspace read from `raw`.
pub open spec fn workspace_matches(w: Workspace, raw: Json) -> bool {
    &&& w.workspace_id@ == str_field(raw, "workspace_id"@)
    &&& opt_view(w.label) == opt_str_field(raw, "label"@)
    &&& w.number == opt_int_field(raw, "number"@)
    &&& w.agent_status@ == str_field_or_unknown(raw, "agent_status"@)
    &&& w.focused == bool_field(raw, "focused"@)
    &&& w.pane_count == int_field(raw, "pane_count"@)
    &&& w.tab_count == int_field(raw, "tab_count"@)
    &&& json_eq(raw, w.raw)
}

/// Read a tab from a raw Herdr tab object.
pub fn tab_from_raw(raw: &Json) -> (t: Tab)
    ensures
        tab_matches(t, *raw),
{
    Tab {
        tab_id: str_field_exec(raw, "tab_id"),
        workspace_id: str_field_exec(raw, "workspace_id"),
        label: opt_str_field_exec(raw, "label"),
        number: opt_int_field_exec(raw, "number"),
        agent_status: str_field_or_unknown_exec(raw, "agent_status"),
        focused: bool_field_exec(raw, "focused"),
        pane_count: int_field_exec(raw, "pane_count"),
        raw: copy_json(raw),
    }
}

/// Read a workspace from a raw Herdr workspace object.
pub fn workspace_from_raw(raw: &Json) -> (w: Workspace)
    ensures
        workspace_matches(w, *raw),
{
    Workspace {
        workspace_id: str_field_exec(raw, "workspace_id"),
        label: opt_str_field_exec(raw, "label"),
        number: opt_int_field_exec(raw, "number"),
        agent_status: str_field_or_unknown_exec(raw, "agent_status"),
        focused: bool_field_exec(raw, "focused"),
        pane_count: int_field_exec(raw, "pane_count"),
        tab_count: int_field_exec(raw, "tab_count"),
        raw: copy_json(raw),
    }
}

pub proof fn lemma_filter_step<A>(s: Seq<A>, i: int, f: spec_fn(A) -> bool)
    requires
        0 <= i < s.len(),
    ensures
        s.take(i + 1).filter(f) == (if f(s[i]) {
            s.take(i).filter(f).push(s[i])
        } else {
            s.take(i).filter(f)
        }),
{
    reveal(Seq::filter);
    let t = s.take(i + 1);
    assert(t.drop_last() =~= s.take(i));
    assert(t.last() == s[i]);
}

// ---- snapshots -----------------------------------------------------------------

/// The snapshot object: a nested `snapshot` object when there is one.
pub open spec fn snapshot_body(result: Json) -> Json {
    match json_get(result, "snapshot"@) {
        Some(j) => if j is Object {
            j
        } else {
            result
        },
        None => result,
    }
}

/// The raw panes: a list; missing or null is empty; anything else is no
/// snapshot at all.
pub open spec fn pane_items(body: Json) -> Option<Seq<Json>> {
    match json_get(body, "panes"@) {
        Some(Json::Array { items, .. }) => Some(items@),
        Some(Json::Null) => Some(Seq::empty()),
        None => Some(Seq::empty()),
        _ => None,
    }
}

pub open spec fn is_pane_row(j: Json) -> bool {
    j is Object && truthy(json_get(j, "pane_id"@))
}

pub open spec fn is_object(j: Json) -> bool {
    j is Object
}

/// The items of a list member; anything else is empty.
pub open spec fn list_items(v: Option<Json>) -> Seq<Json> {
    match v {
        Some(Json::Array { items, .. }) => items@,
        _ => Seq::empty(),
    }
}

/// The raw workspaces: `workspaces`, or `workspace_list` when that is
/// missing or null.
pub open spec fn workspace_source(body: Json) -> Option<Json> {
    match json_get(body, "workspaces"@) {
        Some(Json::Null) => json_get(body, "workspace_list"@),
        None => json_get(body, "workspace_list"@),
        w => w,
    }
}

/// The layouts: a truthy `layouts` member, else the whole snapshot object.
pub open spec fn layouts_of(body: Json) -> Json {
    if truthy(json_get(body, "layouts"@)) {
        json_get(body, "layouts"@).unwrap()
    } else {
        body
    }
}

/// `s` is the snapshot read from the `session.snapshot` result `result`.
pub open spec fn snapshot_matches(s: Snapshot, result: Json) -> bool {
    let body = snapshot_body(result);
    let panes = pane_items(body).unwrap().filter(|j: Json| is_pane_row(j));
    let tabs = list_items(json_get(body, "tabs"@)).filter(|j: Json| is_object(j));
    let wss = list_items(workspace_source(body)).filter(|j: Json| is_object(j));
    &&& s.panes@.len() == panes.len()
    &&& forall|i: int| 0 <= i < panes.len() ==> pane_matches(#[trigger] s.panes@[i], panes[i])
    &&& s.tabs@.len() == tabs.len()
    &&& forall|i: int| 0 <= i < tabs.len() ==> tab_matches(#[trigger] s.tabs@[i], tabs[i])
    &&& s.workspaces@.len() == wss.len()
    &&& forall|i: int| 0 <= i < wss.len() ==> workspace_matches(#[trigger] s.workspaces@[i], wss[i])
    &&& json_eq(layouts_of(body), s.layouts)
}

fn panes_from(items: &Vec<Json>) -> (r: Vec<Pane>)
    ensures
        r@.len() == items@.filter(|j: Json| is_pane_row(j)).len(),
        forall|i: int|
            0 <= i < r@.len() ==> pane_matches(
                #[trigger] r@[i],
                items@.filter(|j: Json| is_pane_row(j))[i],
            ),
{
    let mut out: Vec<Pane> = Vec::new();
    let mut i: usize = 0;
    while i < items.len()
        invariant
            i <= items.len(),
            out@.len() == items@.take(i as int).filter(|j: Json| is_pane_row(j)).len(),
            forall|k: int| 0 <= k < out@.len() ==> pane_matches(#[trigger] out@[k], items@.take(i as int).filter(|j: Json| is_pane_row(j))[k]),
        decreases items.len() - i,
    {
        proof {
            lemma_filter_step(items@, i as int, |j: Json| is_pane_row(j));
        }
        let it = &items[i];
        if it.is_object() && is_truthy(it.get("pane_id")) {
            out.push(pane_from_raw(it));
        }
        i += 1;
    }
    assert(items@.take(items.len() as int) =~= items@);
    out
}

fn tabs_from(items: &Vec<Json>) -> (r: Vec<Tab>)
    ensures
        r@.len() == items@.filter(|j: Json| is_object(j)).len(),
        forall|i: int|
            0 <= i < r@.len() ==> tab_matches(#[trigger] r@[i], items@.filter(|j: Json| is_object(j))[i]),
{
    let mut out: Vec<Tab> = Vec::new();
    let mut i: usize = 0;
    while i < items.len()
        invariant
            i <= items.len(),
            out@.len() == items@.take(i as int).filter(|j: Json| is_object(j)).len(),
            forall|k: int| 0 <= k < out@.len() ==> tab_matches(#[trigger] out@[k], items@.take(i as int).filter(|j: Json| is_object(j))[k]),
        decreases items.len() - i,
    {
        proof {
            lemma_filter_step(items@, i as int, |j: Json| is_object(j));
        }
        if items[i].is_object() {
            out.push(tab_from_raw(&items[i]));
        }
        i += 1;
    }
    assert(items@.take(items.len() as int) =~= items@);
    out
}

fn workspaces_from(items: &Vec<Json>) -> (r: Vec<Workspace>)
    ensures
        r@.len() == items@.filter(|j: Json| is_object(j)).len(),
        forall|i: int|
            0 <= i < r@.len() ==> workspace_matches(
                #[trigger] r@[i],
                items@.filter(|j: Json| is_object(j))[i],
            ),
{
    let mut out: Vec<Workspace> = Vec::new();
    let mut i: usize = 0;
    while i < items.len()
        invariant
            i <= items.len(),
            out@.len() == items@.take(i as int).filter(|j: Json| is_object(j)).len(),
            forall|k: int|
                0 <= k < out@.len() ==> workspace_matches(#[trigger] out@[k], items@.take(i as int).filter(|j: Json| is_object(j))[k]),
        decreases items.len() - i,
    {
        proof {
            lemma_filter_step(items@, i as int, |j: Json| is_object(j));
        }
        if items[i].is_object() {
            out.push(workspace_from_raw(&items[i]));
        }
        i += 1;
    }
    assert(items@.take(items.len() as int) =~= items@);
    out
}

/// Read a `session.snapshot` result; `None` when it is not an object or
/// its panes are neither a list nor missing.
pub fn snapshot_from_session_payload(result: &Json) -> (r: Option<Snapshot>)
    ensures
        match r {
            Some(s) => result is Object && pane_items(snapshot_body(*result)) is Some
                && snapshot_matches(s, *result),
            None => !(result is Object) || pane_items(snapshot_body(*result)) is None,
        },
{
    if !result.is_object() {
        return None;
    }
    let body: &Json = match result.get("snapshot") {
        Some(j) => if j.is_object() {
            j
        } else {
            result
        },
        None => result,
    };
    let empty: Vec<Json> = Vec::new();
    let pane_list: &Vec<Json> = match body.get("panes") {
        Some(Json::Array { items, .. }) => items,
        Some(Json::Null) => &empty,
        None => &empty,
        Some(_) => {
            return None;
        },
    };
    assert(empty@ =~= Seq::<Json>::empty());
    let panes = panes_from(pane_list);
    let tabs = match body.get("tabs") {
        Some(Json::Array { items, .. }) => tabs_from(items),
        _ => {
            assert(empty@.filter(|j: Json| is_object(j)) =~= Seq::<Json>::empty());
            Vec::new()
        },
    };
    let source = match body.get("workspaces") {
        Some(Json::Null) => body.get("workspace_list"),
        None => body.get("workspace_list"),
        w => w,
    };
    let workspaces = match source {
        Some(Json::Array { items, .. }) => workspaces_from(items),
        _ => {
            assert(empty@.filter(|j: Json| is_object(j)) =~= Seq::<Json>::empty());
            Vec::new()
        },
    };
    let layouts = match body.get("layouts") {
        Some(v) => if is_truthy(Some(v)) {
            copy_json(v)
        } else {
            copy_json(body)
        },
        None => copy_json(body),
    };
    Some(Snapshot { panes, tabs, workspaces, layouts })
}

impl Snapshot {
    /// The panes that carry an agent, in order.
    pub fn agent_panes(&self) -> (r: Vec<&Pane>)
        ensures
            r@.len() == self.panes@.filter(|p: Pane| has_agent(p)).len(),
            forall|i: int| 0 <= i < r@.len() ==> *(#[trigger] r@[i]) == self.panes@.filter(|p: Pane| has_agent(p))[i],
    {
        let mut out: Vec<&Pane> = Vec::new();
        let mut i: usize = 0;
        while i < self.panes.len()
            invariant
                i <= self.panes.len(),
                out@.len() == self.panes@.take(i as int).filter(|p: Pane| has_agent(p)).len(),
                forall|k: int| 0 <= k < out@.len() ==> *(#[trigger] out@[k]) == self.panes@.take(i as int).filter(|p: Pane| has_agent(p))[k],
            decreases self.panes.len() - i,
        {
            proof {
                lemma_filter_step(self.panes@, i as int, |p: Pane| has_agent(p));
            }
            if self.panes[i].has_agent() {
                out.push(&self.panes[i]);
            }
            i += 1;
        }
        assert(self.panes@.take(self.panes.len() as int) =~= self.panes@);
        out
    }
}

} // verus!
