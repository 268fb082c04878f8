//! Attach, detach and restore planning for mirrored provider sessions.
//!
//! The provider is reached through its socket; the host owns only the intent
//! to mirror. Detach and host close never stop the provider, and restore
//! always plans a fresh reattach rather than replaying an old split tree.
use vstd::prelude::*;

use crate::assoc::{distinct, has_key, lookup, member, set_contains, set_insert, set_remove, unique};
use crate::layout::{by_keys, lemma_sorted_positions};
use crate::order::{key_le, keys_view, sort_keys};
use crate::digest::{hex, sha256, short_digest};
use crate::json::{is_truthy, json_get, json_text, opt_ref, truthy, Json};
use crate::text::{
    chars_of, concat2, contains_str, int_to_string, lower, lower_str, opt_str_view, opt_view, owned, str_eq,
    strings_view, trim, trim_str,
};

verus! {

/// C0 controls, DEL and C1 controls.
pub open spec fn hidden_char(c: char) -> bool {
    (c as u32) <= 31 || (c as u32) == 127 || (128 <= (c as u32) && (c as u32) <= 159)
}

pub open spec fn has_hidden(s: Seq<char>) -> bool {
    exists|i: int| 0 <= i < s.len() && hidden_char(s[i])
}

/// Stable short endpoint identifier: the first 16 hex digits of the SHA-256
/// of the socket path, so callers can log it in place of the path.
pub fn endpoint_hash(socket_path: &str) -> (r: String)
    ensures
        r@ == hex(sha256(vstd::utf8::encode_utf8(socket_path@))).take(16),
{
    short_digest(socket_path.as_bytes())
}

/// Whether `value` holds a control character (rejected at the socket trust
/// boundary).
pub fn has_hidden_character(value: &str) -> (r: bool)
    ensures
        r == has_hidden(value@),
{
    let v = chars_of(value);
    let mut i: usize = 0;
    while i < v.len()
        invariant
            i <= v.len(),
            v@ == value@,
            forall|j: int| 0 <= j < i ==> !hidden_char(#[trigger] v@[j]),
        decreases v.len() - i,
    {
        let code = v[i] as u32;
        if code <= 31 || code == 127 || (128 <= code && code <= 159) {
            assert(hidden_char(v@[i as int]));
            return true;
        }
        i += 1;
    }
    false
}

/// The accepted form of a socket path: trimmed, absolute, free of controls.
pub open spec fn socket_path_spec(value: Option<Seq<char>>) -> Option<Seq<char>> {
    match value {
        None => None,
        Some(v) => {
            let t = trim(v);
            if t.len() == 0 || t[0] != '/' || t[0] == '-' || has_hidden(t) || t.contains('\0') {
                None
            } else {
                Some(t)
            }
        },
    }
}

/// Validate and trim an absolute Unix socket path.
pub fn validate_socket_path(value: Option<&str>) -> (r: Option<String>)
    ensures
        opt_view(r) == socket_path_spec(opt_str_view(value)),
{
    let raw = match value {
        Some(v) => v,
        None => return None,
    };
    let trimmed = trim_str(raw);
    let v = chars_of(trimmed.as_str());
    if v.len() == 0 || v[0] != '/' || v[0] == '-' || has_hidden_character(trimmed.as_str()) {
        return None;
    }
    proof {
        // '\0' is itself a hidden character.
        if v@.contains('\0') {
            let k = choose|k: int| 0 <= k < v@.len() && v@[k] == '\0';
            assert(hidden_char(v@[k]));
        }
    }
    Some(trimmed)
}

/// Validate and trim a non-empty provider session name.
pub fn validate_session_name(value: Option<&str>) -> (r: Option<String>)
    ensures
        opt_view(r) == match opt_str_view(value) {
            None => None,
            Some(v) => if trim(v).len() == 0 {
                None
            } else {
                Some(trim(v))
            },
        },
{
    let raw = match value {
        Some(v) => v,
        None => return None,
    };
    let trimmed = trim_str(raw);
    if trimmed.as_str().is_empty() {
        None
    } else {
        Some(trimmed)
    }
}

/// A provider session found by discovery.
#[derive(Debug, Clone, PartialEq, Eq)]
pub struct DiscoveredSession {
    pub session_id: String,
    pub name: String,
    pub window_count: i64,
    pub attached: bool,
}

impl DiscoveredSession {
    pub fn new(session_id: &str, name: &str, window_count: i64, attached: bool) -> (r: Self)
        ensures
            r.session_id@ == session_id@,
            r.name@ == name@,
            r.window_count == window_count,
            r.attached == attached,
    {
        DiscoveredSession {
            session_id: owned(session_id),
            name: owned(name),
            window_count,
            attached,
        }
    }
}

/// Where an attach should land: `dedicated_new_window`, `unresolved_explicit`,
/// `explicit` (with a window id) or `contextual` (with a preferred window).
#[derive(Debug, Clone, PartialEq, Eq)]
pub struct AttachWindowTarget {
    pub kind: String,
    pub window_id: Option<String>,
}

/// The window an attach resolves to, given the window of an existing live
/// mirror, the active window, and the live windows.
pub open spec fn resolve_spec(
    kind: Seq<char>,
    window_id: Option<Seq<char>>,
    existing: Option<Seq<char>>,
    active: Option<Seq<char>>,
    live: Seq<Seq<char>>,
) -> Option<Seq<char>> {
    if existing is Some && live.contains(existing.unwrap()) {
        existing
    } else if kind == "dedicated_new_window"@ || kind == "unresolved_explicit"@ {
        None
    } else if kind == "explicit"@ {
        if window_id is Some && live.contains(window_id.unwrap()) {
            window_id
        } else {
            None
        }
    } else if kind == "contextual"@ {
        if window_id is Some && live.contains(window_id.unwrap()) {
            window_id
        } else if active is Some && live.contains(active.unwrap()) {
            active
        } else {
            None
        }
    } else {
        None
    }
}

fn live_opt(id: Option<&str>, live_windows: &Vec<String>) -> (r: bool)
    ensures
        r == (opt_str_view(id) is Some && strings_view(live_windows@).contains(
            opt_str_view(id).unwrap(),
        )),
{
    match id {
        Some(x) => contains_str(live_windows, x),
        None => false,
    }
}

impl AttachWindowTarget {
    pub fn new(kind: &str, window_id: Option<String>) -> (r: Self)
        ensures
            r.kind@ == kind@,
            r.window_id == window_id,
    {
        AttachWindowTarget { kind: owned(kind), window_id }
    }

    /// Existing live mirror affinity wins, so one endpoint stays in one window.
    pub fn resolve(
        &self,
        existing_mirror_window_id: Option<&str>,
        active_window_id: Option<&str>,
        live_windows: &Vec<String>,
    ) -> (r: Option<String>)
        ensures
            opt_view(r) == resolve_spec(
                self.kind@,
                opt_view(self.window_id),
                opt_str_view(existing_mirror_window_id),
                opt_str_view(active_window_id),
                strings_view(live_windows@),
            ),
    {
        if live_opt(existing_mirror_window_id, live_windows) {
            return Some(owned(existing_mirror_window_id.unwrap()));
        }
        let kind = self.kind.as_str();
        let own = match &self.window_id {
            Some(w) => Some(w.as_str()),
            None => None,
        };
        if str_eq(kind, "dedicated_new_window") || str_eq(kind, "unresolved_explicit") {
            None
        } else if str_eq(kind, "explicit") {
            if live_opt(own, live_windows) {
                Some(owned(own.unwrap()))
            } else {
                None
            }
        } else if str_eq(kind, "contextual") {
            if live_opt(own, live_windows) {
                Some(owned(own.unwrap()))
            } else if live_opt(active_window_id, live_windows) {
                Some(owned(active_window_id.unwrap()))
            } else {
                None
            }
        } else {
            None
        }
    }
}

/// A mirrored session: its host window and, while alive, its workspace.
#[derive(Debug, Clone, PartialEq, Eq)]
pub struct MirrorRecord {
    pub session_id: String,
    pub window_id: String,
    pub workspace_id: Option<String>,
}

impl MirrorRecord {
    pub fn new(session_id: &str, window_id: &str, workspace_id: Option<String>) -> (r: Self)
        ensures
            r.session_id@ == session_id@,
            r.window_id@ == window_id@,
            r.workspace_id == workspace_id,
    {
        MirrorRecord { session_id: owned(session_id), window_id: owned(window_id), workspace_id }
    }

    fn duplicate(&self) -> (r: Self)
        ensures
            r == *self,
    {
        MirrorRecord {
            session_id: self.session_id.clone(),
            window_id: self.window_id.clone(),
            workspace_id: match &self.workspace_id {
                Some(w) => Some(w.clone()),
                None => None,
            },
        }
    }
}

/// Upper bound on the recent-event ring of a connection.
pub const RECENT_EVENTS: usize = 32;

/// Observed state of one provider connection.
#[derive(Debug)]
pub struct ConnectionRecord {
    pub session_id: String,
    pub started: bool,
    pub snapshot_received: bool,
    pub exited: bool,
    pub window_ids: Vec<String>,
    pub total_output_bytes: i64,
    /// Output bytes per pane (keys distinct).
    pub pane_output_bytes: Vec<(String, i64)>,
    pub recent_events: Vec<String>,
    pub client_size_applied: bool,
}

impl ConnectionRecord {
    pub open spec fn wf(&self) -> bool {
        unique(self.pane_output_bytes@)
    }

    /// A fresh, not yet started connection.
    pub fn new(session_id: &str) -> (r: Self)
        ensures
            r.wf(),
            r.session_id@ == session_id@,
            !r.started && !r.snapshot_received && !r.exited && !r.client_size_applied,
            r.window_ids@.len() == 0,
            r.total_output_bytes == 0,
            r.pane_output_bytes@.len() == 0,
            r.recent_events@.len() == 0,
    {
        ConnectionRecord {
            session_id: owned(session_id),
            started: false,
            snapshot_received: false,
            exited: false,
            window_ids: Vec::new(),
            total_output_bytes: 0,
            pane_output_bytes: Vec::new(),
            recent_events: Vec::new(),
            client_size_applied: false,
        }
    }

    /// A connection whose start has been requested.
    pub fn started(session_id: &str) -> (r: Self)
        ensures
            r.wf(),
            r.session_id@ == session_id@,
            r.started && !r.snapshot_received && !r.exited && !r.client_size_applied,
            r.window_ids@.len() == 0,
            r.total_output_bytes == 0,
            r.pane_output_bytes@.len() == 0,
            r.recent_events@.len() == 0,
    {
        let mut record = Self::new(session_id);
        record.started = true;
        record
    }
}

/// What to do with the connection of a session being attached.
pub fn connection_action(existing: Option<&ConnectionRecord>) -> (r: &'static str)
    ensures
        r@ == match existing {
            None => "start"@,
            Some(c) => if c.exited {
                "replace"@
            } else {
                "reuse"@
            },
        },
{
    match existing {
        None => "start",
        Some(c) => if c.exited {
            "replace"
        } else {
            "reuse"
        },
    }
}

/// Only a started, still running connection may be reused.
pub fn may_cache_connection(connection: &ConnectionRecord) -> (r: bool)
    ensures
        r == (connection.started && !connection.exited),
{
    connection.started && !connection.exited
}

/// After attaching over a dead mirror the panes are reseeded; otherwise the
/// client size is applied.
pub fn post_attach_action(replaced_dead: bool) -> (r: &'static str)
    ensures
        r@ == if replaced_dead {
            "reseed"@
        } else {
            "apply_client_size"@
        },
{
    if replaced_dead {
        "reseed"
    } else {
        "apply_client_size"
    }
}

pub open spec fn detaching_source(s: Seq<char>) -> bool {
    s == "last_workspace_tab"@ || s == "window_quit"@ || s == "app_terminate"@ || s
        == "explicit_detach"@ || s == "host_tab"@ || s == "host_panel"@
}

/// Host close maps to a detach or to nothing; never to provider termination.
pub fn host_close_policy(source: &str) -> (r: &'static str)
    ensures
        r@ == if detaching_source(source@) {
            "detach"@
        } else {
            "noop"@
        },
{
    if str_eq(source, "last_workspace_tab") || str_eq(source, "window_quit") || str_eq(
        source,
        "app_terminate",
    ) || str_eq(source, "explicit_detach") || str_eq(source, "host_tab") || str_eq(
        source,
        "host_panel",
    ) {
        "detach"
    } else {
        "noop"
    }
}

/// Endpoints with an attach in progress (no endpoint twice).
#[derive(Debug)]
pub struct AttachRegistry {
    pending: Vec<String>,
}

impl AttachRegistry {
    pub closed spec fn wf(&self) -> bool {
        distinct(self.pending@)
    }

    /// Whether an attach to `endpoint` is in progress.
    pub closed spec fn pending_for(&self, endpoint: Seq<char>) -> bool {
        member(self.pending@, endpoint)
    }

    /// No attach in progress.
    pub fn new() -> (r: Self)
        ensures
            r.wf(),
            forall|e: Seq<char>| !r.pending_for(e),
    {
        AttachRegistry { pending: Vec::new() }
    }

    /// Mark an attach to `endpoint` as started; false when one already was.
    pub fn begin_attach(&mut self, endpoint: &str) -> (r: bool)
        requires
            old(self).wf(),
        ensures
            final(self).wf(),
            r == !old(self).pending_for(endpoint@),
            forall|e: Seq<char>| #[trigger]
                final(self).pending_for(e) == (old(self).pending_for(e) || e == endpoint@),
    {
        set_insert(&mut self.pending, endpoint)
    }

    /// Mark the attach to `endpoint` as finished.
    pub fn end_attach(&mut self, endpoint: &str)
        requires
            old(self).wf(),
        ensures
            final(self).wf(),
            forall|e: Seq<char>| #[trigger]
                final(self).pending_for(e) == (old(self).pending_for(e) && e != endpoint@),
    {
        set_remove(&mut self.pending, endpoint);
    }

    pub fn is_attaching(&self, endpoint: &str) -> (r: bool)
        ensures
            r == self.pending_for(endpoint@),
    {
        set_contains(&self.pending, endpoint)
    }
}

/// A mirror whose workspace is alive, in a live window.
pub open spec fn live_mirror_in(r: MirrorRecord, live: Seq<Seq<char>>) -> bool {
    r.workspace_id is Some && live.contains(r.window_id@)
}

/// The window of the first live mirror that sits in a live window.
pub open spec fn first_live_window(rs: Seq<MirrorRecord>, live: Seq<Seq<char>>) -> Option<Seq<char>>
    decreases rs.len(),
{
    if rs.len() == 0 {
        None
    } else if live_mirror_in(rs[0], live) {
        Some(rs[0].window_id@)
    } else {
        first_live_window(rs.drop_first(), live)
    }
}

/// The window of the first live mirror that sits in a live window.
pub fn existing_mirror_window(mirrors: &Vec<MirrorRecord>, live_windows: &Vec<String>) -> (r:
    Option<String>)
    ensures
        opt_view(r) == first_live_window(mirrors@, strings_view(live_windows@)),
{
    let ghost lw = strings_view(live_windows@);
    let mut i: usize = 0;
    assert(mirrors@.skip(0) =~= mirrors@);
    while i < mirrors.len()
        invariant
            i <= mirrors.len(),
            lw == strings_view(live_windows@),
            first_live_window(mirrors@, lw) == first_live_window(mirrors@.skip(i as int), lw),
        decreases mirrors.len() - i,
    {
        let ghost rest = mirrors@.skip(i as int);
        assert(rest[0] == mirrors@[i as int]);
        assert(rest.drop_first() =~= mirrors@.skip(i + 1));
        let m = &mirrors[i];
        if m.workspace_id.is_some() && contains_str(live_windows, m.window_id.as_str()) {
            return Some(m.window_id.clone());
        }
        i += 1;
    }
    None
}

/// The records whose workspace is alive, in order.
pub open spec fn live_records(rs: Seq<MirrorRecord>) -> Seq<MirrorRecord>
    decreases rs.len(),
{
    if rs.len() == 0 {
        Seq::empty()
    } else if rs.last().workspace_id is Some {
        live_records(rs.drop_last()).push(rs.last())
    } else {
        live_records(rs.drop_last())
    }
}

/// Drop the mirrors whose workspace is gone.
pub fn purge_dead_mirrors(mirrors: &Vec<MirrorRecord>) -> (r: Vec<MirrorRecord>)
    ensures
        r@ == live_records(mirrors@),
{
    let mut out: Vec<MirrorRecord> = Vec::new();
    let mut i: usize = 0;
    while i < mirrors.len()
        invariant
            i <= mirrors.len(),
            out@ == live_records(mirrors@.subrange(0, i as int)),
        decreases mirrors.len() - i,
    {
        let ghost pre = mirrors@.subrange(0, i as int);
        assert(mirrors@.subrange(0, i + 1).drop_last() =~= pre);
        if mirrors[i].workspace_id.is_some() {
            out.push(mirrors[i].duplicate());
        }
        i += 1;
    }
    assert(mirrors@.subrange(0, mirrors@.len() as int) =~= mirrors@);
    out
}

/// A grid count read from a payload: booleans are 0 or 1, numbers truncate
/// toward zero, strings parse as integers (else 0), anything else is 0.
pub open spec fn grid_count(v: Option<Json>) -> int {
    match v {
        Some(Json::Bool(b)) => if b {
            1
        } else {
            0
        },
        Some(Json::Number { trunc, .. }) => trunc as int,
        Some(Json::Str(s)) => match crate::handoff::parse_i64_spec(s@) {
            Some(n) => n,
            None => 0,
        },
        _ => 0,
    }
}

fn grid_count_exec(v: Option<&Json>) -> (r: i64)
    ensures
        r == grid_count(opt_ref(v)),
{
    match v {
        Some(Json::Bool(b)) => if *b {
            1
        } else {
            0
        },
        Some(Json::Number { trunc, .. }) => *trunc,
        Some(Json::Str(s)) => match crate::handoff::parse_i64(s.as_str()) {
            Some(n) => n,
            None => 0,
        },
        _ => 0,
    }
}

/// `v` unless it is null.
pub open spec fn present(v: Option<Json>) -> Option<Json> {
    match v {
        Some(Json::Null) => None,
        o => o,
    }
}

/// What the grid report says of one pane: whether it has a panel (unless
/// told otherwise), and, when both rendered counts are present, whether the
/// rendered grid matches the assigned one.
pub open spec fn grid_row_spec(pane: Json) -> (bool, Option<bool>) {
    let has_panel = match json_get(pane, "has_panel"@) {
        Some(v) => truthy(Some(v)),
        None => true,
    };
    let rc = present(json_get(pane, "rendered_cols"@));
    let rr = present(json_get(pane, "rendered_rows"@));
    let exact_cols = match json_get(pane, "exact_cols"@) {
        Some(v) => truthy(Some(v)),
        None => false,
    };
    let exact_rows = match json_get(pane, "exact_rows"@) {
        Some(v) => truthy(Some(v)),
        None => false,
    };
    let ac = grid_count(json_get(pane, "assigned_cols"@));
    let ar = grid_count(json_get(pane, "assigned_rows"@));
    (
        has_panel,
        if rc is Some && rr is Some {
            Some(
                (if exact_cols {
                    grid_count(rc) == ac
                } else {
                    grid_count(rc) >= ac
                }) && (if exact_rows {
                    grid_count(rr) == ar
                } else {
                    grid_count(rr) >= ar
                }),
            )
        } else {
            None
        },
    )
}

/// See [`grid_row_spec`].
pub fn grid_row(pane: &Json) -> (r: (bool, Option<bool>))
    ensures
        r == grid_row_spec(*pane),
{
    let has_panel = match pane.get("has_panel") {
        Some(v) => is_truthy(Some(v)),
        None => true,
    };
    let rc = match pane.get("rendered_cols") {
        Some(Json::Null) => None,
        o => o,
    };
    let rr = match pane.get("rendered_rows") {
        Some(Json::Null) => None,
        o => o,
    };
    if rc.is_some() && rr.is_some() {
        let exact_cols = match pane.get("exact_cols") {
            Some(v) => is_truthy(Some(v)),
            None => false,
        };
        let exact_rows = match pane.get("exact_rows") {
            Some(v) => is_truthy(Some(v)),
            None => false,
        };
        let m = grid_match(
            grid_count_exec(pane.get("assigned_cols")),
            grid_count_exec(pane.get("assigned_rows")),
            grid_count_exec(rc),
            grid_count_exec(rr),
            exact_cols,
            exact_rows,
        );
        (has_panel, Some(m))
    } else {
        (has_panel, None)
    }
}

/// Whether a rendered grid matches the assigned one: equal on an exact axis,
/// at least as large otherwise.
pub fn grid_match(
    assigned_cols: i64,
    assigned_rows: i64,
    rendered_cols: i64,
    rendered_rows: i64,
    exact_cols: bool,
    exact_rows: bool,
) -> (r: bool)
    ensures
        r == ((if exact_cols {
            rendered_cols == assigned_cols
        } else {
            rendered_cols >= assigned_cols
        }) && (if exact_rows {
            rendered_rows == assigned_rows
        } else {
            rendered_rows >= assigned_rows
        })),
{
    let cols_ok = if exact_cols {
        rendered_cols == assigned_cols
    } else {
        rendered_cols >= assigned_cols
    };
    let rows_ok = if exact_rows {
        rendered_rows == assigned_rows
    } else {
        rendered_rows >= assigned_rows
    };
    cols_ok && rows_ok
}

/// The event line recorded for one output chunk.
pub open spec fn output_event(pane_id: Seq<char>, byte_count: int) -> Seq<char> {
    "output pane="@ + pane_id + " bytes="@ + crate::text::dec_int(byte_count)
}

/// The last `RECENT_EVENTS` entries of `s`.
pub open spec fn keep_recent(s: Seq<Seq<char>>) -> Seq<Seq<char>> {
    if s.len() > RECENT_EVENTS {
        s.skip(s.len() - RECENT_EVENTS)
    } else {
        s
    }
}

/// Account one output chunk of `byte_count` bytes from `pane_id`.
pub fn note_output(connection: &mut ConnectionRecord, pane_id: &str, byte_count: i64)
    requires
        old(connection).wf(),
        i64::MIN <= old(connection).total_output_bytes + byte_count <= i64::MAX,
        i64::MIN <= match lookup(old(connection).pane_output_bytes@, pane_id@) {
            Some(b) => b,
            None => 0,
        } + byte_count <= i64::MAX,
    ensures
        final(connection).wf(),
        final(connection).total_output_bytes == old(connection).total_output_bytes + byte_count,
        forall|q: Seq<char>| #[trigger]
            lookup(final(connection).pane_output_bytes@, q) == if q == pane_id@ {
                Some(
                    (match lookup(old(connection).pane_output_bytes@, pane_id@) {
                        Some(b) => b,
                        None => 0,
                    } + byte_count) as i64,
                )
            } else {
                lookup(old(connection).pane_output_bytes@, q)
            },
        strings_view(final(connection).recent_events@) == keep_recent(
            strings_view(old(connection).recent_events@).push(output_event(pane_id@, byte_count as int)),
        ),
        final(connection).session_id == old(connection).session_id,
        final(connection).started == old(connection).started,
        final(connection).snapshot_received == old(connection).snapshot_received,
        final(connection).exited == old(connection).exited,
        final(connection).window_ids == old(connection).window_ids,
        final(connection).client_size_applied == old(connection).client_size_applied,
{
    connection.total_output_bytes = connection.total_output_bytes + byte_count;
    let prior: i64 = match crate::assoc::get(&connection.pane_output_bytes, pane_id) {
        Some(b) => *b,
        None => 0,
    };
    crate::assoc::set(&mut connection.pane_output_bytes, owned(pane_id), prior + byte_count);
    let mut line = owned("output pane=");
    line.append(pane_id);
    line.append(" bytes=");
    let count = int_to_string(byte_count);
    line.append(count.as_str());
    let ghost before = strings_view(connection.recent_events@).push(line@);
    connection.recent_events.push(line);
    assert(strings_view(connection.recent_events@) =~= before);
    let n = connection.recent_events.len();
    if n > RECENT_EVENTS {
        let excess = n - RECENT_EVENTS;
        let mut kept: Vec<String> = Vec::new();
        let mut i: usize = excess;
        while i < n
            invariant
                excess <= i <= n,
                n == connection.recent_events.len(),
                strings_view(kept@) == before.subrange(excess as int, i as int),
                strings_view(connection.recent_events@) == before,
            decreases n - i,
        {
            let ghost prev = kept@;
            let item = connection.recent_events[i].clone();
            assert(item@ == before[i as int]);
            kept.push(item);
            assert(strings_view(kept@) =~= strings_view(prev).push(item@));
            assert(before.subrange(excess as int, i + 1) =~= before.subrange(
                excess as int,
                i as int,
            ).push(before[i as int]));
            i += 1;
        }
        connection.recent_events = kept;
        assert(strings_view(connection.recent_events@) =~= keep_recent(before));
    }
}

/// What an attach plan says, as plain values.
pub struct PlanView {
    pub outcome: Seq<char>,
    pub window_id: Option<Seq<char>>,
    pub create_window: bool,
    pub sessions_to_mirror: Seq<Seq<char>>,
    pub sessions_to_reuse: Seq<Seq<char>>,
    pub purge_session_ids: Seq<Seq<char>>,
    pub move_workspace_ids: Seq<Seq<char>>,
    pub post_attach: Option<Seq<char>>,
    pub discard_window_on_fail: bool,
    pub activate: bool,
    pub reason: Option<Seq<char>>,
}

/// The decision of one attach attempt.
#[derive(Debug)]
pub struct AttachPlan {
    pub outcome: String,
    pub window_id: Option<String>,
    pub create_window: bool,
    pub sessions_to_mirror: Vec<String>,
    pub sessions_to_reuse: Vec<String>,
    pub purge_session_ids: Vec<String>,
    pub move_workspace_ids: Vec<String>,
    pub post_attach: Option<String>,
    pub discard_window_on_fail: bool,
    pub activate: bool,
    pub reason: Option<String>,
}

impl View for AttachPlan {
    type V = PlanView;

    open spec fn view(&self) -> PlanView {
        PlanView {
            outcome: self.outcome@,
            window_id: opt_view(self.window_id),
            create_window: self.create_window,
            sessions_to_mirror: strings_view(self.sessions_to_mirror@),
            sessions_to_reuse: strings_view(self.sessions_to_reuse@),
            purge_session_ids: strings_view(self.purge_session_ids@),
            move_workspace_ids: strings_view(self.move_workspace_ids@),
            post_attach: opt_view(self.post_attach),
            discard_window_on_fail: self.discard_window_on_fail,
            activate: self.activate,
            reason: opt_view(self.reason),
        }
    }
}

/// A plan that does nothing but report `outcome` and `reason`.
pub open spec fn rejected(outcome: Seq<char>, reason: Option<Seq<char>>) -> PlanView {
    PlanView {
        outcome,
        window_id: None,
        create_window: false,
        sessions_to_mirror: Seq::empty(),
        sessions_to_reuse: Seq::empty(),
        purge_session_ids: Seq::empty(),
        move_workspace_ids: Seq::empty(),
        post_attach: None,
        discard_window_on_fail: false,
        activate: false,
        reason,
    }
}

impl AttachPlan {
    fn rejected(outcome: &str, reason: Option<&str>) -> (r: Self)
        ensures
            r@ == rejected(outcome@, opt_str_view(reason)),
    {
        let plan = AttachPlan {
            outcome: owned(outcome),
            window_id: None,
            create_window: false,
            sessions_to_mirror: Vec::new(),
            sessions_to_reuse: Vec::new(),
            purge_session_ids: Vec::new(),
            move_workspace_ids: Vec::new(),
            post_attach: None,
            discard_window_on_fail: false,
            activate: false,
            reason: match reason {
                Some(x) => Some(owned(x)),
                None => None,
            },
        };
        assert(plan@.sessions_to_mirror =~= Seq::<Seq<char>>::empty());
        assert(plan@.sessions_to_reuse =~= Seq::<Seq<char>>::empty());
        assert(plan@.purge_session_ids =~= Seq::<Seq<char>>::empty());
        assert(plan@.move_workspace_ids =~= Seq::<Seq<char>>::empty());
        plan
    }
}

/// Session ids of mirrors whose workspace is gone, in order.
pub open spec fn dead_ids(rs: Seq<MirrorRecord>) -> Seq<Seq<char>>
    decreases rs.len(),
{
    if rs.len() == 0 {
        Seq::empty()
    } else if rs.last().workspace_id is None {
        dead_ids(rs.drop_last()).push(rs.last().session_id@)
    } else {
        dead_ids(rs.drop_last())
    }
}

/// Workspace ids of mirrors whose workspace is alive, in order.
pub open spec fn live_workspace_ids(rs: Seq<MirrorRecord>) -> Seq<Seq<char>>
    decreases rs.len(),
{
    if rs.len() == 0 {
        Seq::empty()
    } else if rs.last().workspace_id is Some {
        live_workspace_ids(rs.drop_last()).push(rs.last().workspace_id.unwrap()@)
    } else {
        live_workspace_ids(rs.drop_last())
    }
}

/// Session ids, in order.
pub open spec fn session_ids(ss: Seq<DiscoveredSession>) -> Seq<Seq<char>>
    decreases ss.len(),
{
    if ss.len() == 0 {
        Seq::empty()
    } else {
        session_ids(ss.drop_last()).push(ss.last().session_id@)
    }
}

/// A session is reused when its connection is live and its mirror not dead.
pub open spec fn reusable(id: Seq<char>, live_ids: Seq<Seq<char>>, dead: Seq<Seq<char>>) -> bool {
    live_ids.contains(id) && !dead.contains(id)
}

/// The ids of the sessions that are (`reuse`) or are not reused, in order.
pub open spec fn pick_sessions(
    ss: Seq<DiscoveredSession>,
    live_ids: Seq<Seq<char>>,
    dead: Seq<Seq<char>>,
    reuse: bool,
) -> Seq<Seq<char>>
    decreases ss.len(),
{
    if ss.len() == 0 {
        Seq::empty()
    } else if reusable(ss.last().session_id@, live_ids, dead) == reuse {
        pick_sessions(ss.drop_last(), live_ids, dead, reuse).push(ss.last().session_id@)
    } else {
        pick_sessions(ss.drop_last(), live_ids, dead, reuse)
    }
}

pub open spec fn or_empty<T>(o: Option<Seq<T>>) -> Seq<T> {
    match o {
        Some(s) => s,
        None => Seq::empty(),
    }
}

/// The attach decision. Preconditions fail in order (disabled, app not
/// ready, re-entrant attach, unresolvable window); without discovery results
/// the plan asks for discovery; then every discovered session is either
/// reused (live connection, mirror not dead) or mirrored anew, dead mirrors
/// are purged, and a dedicated window moves the live workspaces into it.
pub open spec fn plan_attach_spec(
    kind: Seq<char>,
    target_window: Option<Seq<char>>,
    enabled: bool,
    app_ready: bool,
    already_attaching: bool,
    existing: Option<Seq<char>>,
    active: Option<Seq<char>>,
    live_windows: Seq<Seq<char>>,
    sessions: Option<Seq<DiscoveredSession>>,
    mirrors: Option<Seq<MirrorRecord>>,
    live_session_ids: Option<Seq<Seq<char>>>,
    activate: bool,
    mirrored_workspace_ids: Option<Seq<Seq<char>>>,
) -> PlanView {
    let dedicated = kind == "dedicated_new_window"@;
    let resolved = resolve_spec(kind, target_window, existing, active, live_windows);
    if !enabled {
        rejected("disabled"@, Some("beta_disabled"@))
    } else if !app_ready {
        rejected("unreachable"@, Some("app_not_ready"@))
    } else if already_attaching {
        rejected("already_attaching"@, Some("reentrant"@))
    } else if !dedicated && resolved is None {
        rejected("invalid_target"@, Some("window_unresolved"@))
    } else if sessions is None {
        rejected("discover"@, None)
    } else if sessions.unwrap().len() == 0 {
        rejected("no_sessions"@, Some("empty_discovery"@))
    } else {
        let records = or_empty(mirrors);
        let dead = dead_ids(records);
        let lids = or_empty(live_session_ids);
        let window_id = if dedicated {
            None
        } else {
            resolved
        };
        let reuse = pick_sessions(sessions.unwrap(), lids, dead, true);
        let create = pick_sessions(sessions.unwrap(), lids, dead, false);
        if mirrored_workspace_ids is Some && mirrored_workspace_ids.unwrap().len() == 0 {
            PlanView {
                outcome: "failed_empty"@,
                window_id,
                create_window: dedicated,
                sessions_to_mirror: Seq::empty(),
                sessions_to_reuse: Seq::empty(),
                purge_session_ids: dead,
                move_workspace_ids: Seq::empty(),
                post_attach: None,
                discard_window_on_fail: dedicated,
                activate: false,
                reason: Some("no_workspaces"@),
            }
        } else {
            let reused = create.len() == 0 && reuse.len() > 0;
            PlanView {
                outcome: if reused {
                    "reused"@
                } else {
                    "mirrored"@
                },
                window_id,
                create_window: dedicated,
                sessions_to_mirror: create,
                sessions_to_reuse: reuse,
                purge_session_ids: dead,
                move_workspace_ids: if dedicated {
                    live_workspace_ids(records)
                } else {
                    Seq::empty()
                },
                post_attach: if reused {
                    if dead.len() > 0 {
                        Some("reseed"@)
                    } else {
                        None
                    }
                } else if dead.len() > 0 && reuse.len() == 0 {
                    Some("reseed"@)
                } else {
                    Some("apply_client_size"@)
                },
                discard_window_on_fail: dedicated,
                activate,
                reason: None,
            }
        }
    }
}

pub open spec fn opt_vec_view<T>(o: Option<&Vec<T>>) -> Option<Seq<T>> {
    match o {
        Some(v) => Some(v@),
        None => None,
    }
}

pub open spec fn opt_strings_view(o: Option<&Vec<String>>) -> Option<Seq<Seq<char>>> {
    match o {
        Some(v) => Some(strings_view(v@)),
        None => None,
    }
}

fn dead_and_live(records: &Vec<MirrorRecord>) -> (r: (Vec<String>, Vec<String>))
    ensures
        strings_view(r.0@) == dead_ids(records@),
        strings_view(r.1@) == live_workspace_ids(records@),
{
    let mut dead: Vec<String> = Vec::new();
    let mut live: Vec<String> = Vec::new();
    let mut i: usize = 0;
    while i < records.len()
        invariant
            i <= records.len(),
            strings_view(dead@) == dead_ids(records@.subrange(0, i as int)),
            strings_view(live@) == live_workspace_ids(records@.subrange(0, i as int)),
        decreases records.len() - i,
    {
        let ghost pre = records@.subrange(0, i as int);
        assert(records@.subrange(0, i + 1).drop_last() =~= pre);
        let ghost d0 = dead@;
        let ghost l0 = live@;
        match &records[i].workspace_id {
            None => {
                dead.push(records[i].session_id.clone());
                assert(strings_view(dead@) =~= strings_view(d0).push(records@[i as int].session_id@));
            },
            Some(w) => {
                live.push(w.clone());
                assert(strings_view(live@) =~= strings_view(l0).push(w@));
            },
        }
        i += 1;
    }
    assert(records@.subrange(0, records@.len() as int) =~= records@);
    (dead, live)
}

fn split_sessions(sessions: &Vec<DiscoveredSession>, lids: &Vec<String>, dead: &Vec<String>) -> (r: (
    Vec<String>,
    Vec<String>,
))
    ensures
        strings_view(r.0@) == pick_sessions(sessions@, strings_view(lids@), strings_view(dead@), true),
        strings_view(r.1@) == pick_sessions(
            sessions@,
            strings_view(lids@),
            strings_view(dead@),
            false,
        ),
{
    let mut reuse: Vec<String> = Vec::new();
    let mut create: Vec<String> = Vec::new();
    let mut i: usize = 0;
    while i < sessions.len()
        invariant
            i <= sessions.len(),
            strings_view(reuse@) == pick_sessions(
                sessions@.subrange(0, i as int),
                strings_view(lids@),
                strings_view(dead@),
                true,
            ),
            strings_view(create@) == pick_sessions(
                sessions@.subrange(0, i as int),
                strings_view(lids@),
                strings_view(dead@),
                false,
            ),
        decreases sessions.len() - i,
    {
        let ghost pre = sessions@.subrange(0, i as int);
        assert(sessions@.subrange(0, i + 1).drop_last() =~= pre);
        let id = sessions[i].session_id.as_str();
        let ghost r0 = reuse@;
        let ghost c0 = create@;
        if contains_str(lids, id) && !contains_str(dead, id) {
            reuse.push(owned(id));
            assert(strings_view(reuse@) =~= strings_view(r0).push(id@));
        } else {
            create.push(owned(id));
            assert(strings_view(create@) =~= strings_view(c0).push(id@));
        }
        i += 1;
    }
    assert(sessions@.subrange(0, sessions@.len() as int) =~= sessions@);
    (reuse, create)
}

/// Plan one attach (see [`plan_attach_spec`]).
pub fn plan_attach(
    target: &AttachWindowTarget,
    enabled: bool,
    app_ready: bool,
    already_attaching: bool,
    existing_mirror_window_id: Option<&str>,
    active_window_id: Option<&str>,
    live_windows: &Vec<String>,
    sessions: Option<&Vec<DiscoveredSession>>,
    mirrors: Option<&Vec<MirrorRecord>>,
    live_session_ids: Option<&Vec<String>>,
    activate: bool,
    mirrored_workspace_ids: Option<&Vec<String>>,
) -> (r: AttachPlan)
    ensures
        r@ == plan_attach_spec(
            target.kind@,
            opt_view(target.window_id),
            enabled,
            app_ready,
            already_attaching,
            opt_str_view(existing_mirror_window_id),
            opt_str_view(active_window_id),
            strings_view(live_windows@),
            opt_vec_view(sessions),
            opt_vec_view(mirrors),
            opt_strings_view(live_session_ids),
            activate,
            opt_strings_view(mirrored_workspace_ids),
        ),
{
    if !enabled {
        return AttachPlan::rejected("disabled", Some("beta_disabled"));
    }
    if !app_ready {
        return AttachPlan::rejected("unreachable", Some("app_not_ready"));
    }
    if already_attaching {
        return AttachPlan::rejected("already_attaching", Some("reentrant"));
    }
    let dedicated = str_eq(target.kind.as_str(), "dedicated_new_window");
    let resolved = target.resolve(existing_mirror_window_id, active_window_id, live_windows);
    if !dedicated && resolved.is_none() {
        return AttachPlan::rejected("invalid_target", Some("window_unresolved"));
    }
    let sessions = match sessions {
        Some(s) => s,
        None => return AttachPlan::rejected("discover", None),
    };
    if sessions.len() == 0 {
        return AttachPlan::rejected("no_sessions", Some("empty_discovery"));
    }
    let no_records: Vec<MirrorRecord> = Vec::new();
    let records = match mirrors {
        Some(m) => m,
        None => &no_records,
    };
    let no_ids: Vec<String> = Vec::new();
    let lids = match live_session_ids {
        Some(l) => l,
        None => &no_ids,
    };
    assert(records@ == or_empty(opt_vec_view(mirrors)));
    assert(strings_view(lids@) =~= or_empty(opt_strings_view(live_session_ids)));
    let (dead, live_ws) = dead_and_live(records);
    let window_id = if dedicated {
        None
    } else {
        resolved
    };
    let (reuse, create) = split_sessions(sessions, lids, &dead);
    let empty_mirrored = match mirrored_workspace_ids {
        Some(m) => m.len() == 0,
        None => false,
    };
    if empty_mirrored {
        let plan = AttachPlan {
            outcome: owned("failed_empty"),
            window_id,
            create_window: dedicated,
            sessions_to_mirror: Vec::new(),
            sessions_to_reuse: Vec::new(),
            purge_session_ids: dead,
            move_workspace_ids: Vec::new(),
            post_attach: None,
            discard_window_on_fail: dedicated,
            activate: false,
            reason: Some(owned("no_workspaces")),
        };
        assert(plan@.sessions_to_mirror =~= Seq::<Seq<char>>::empty());
        assert(plan@.sessions_to_reuse =~= Seq::<Seq<char>>::empty());
        assert(plan@.move_workspace_ids =~= Seq::<Seq<char>>::empty());
        return plan;
    }
    let reused = create.len() == 0 && reuse.len() > 0;
    let any_dead = dead.len() > 0;
    let post_attach = if reused {
        if any_dead {
            Some(owned("reseed"))
        } else {
            None
        }
    } else {
        Some(owned(post_attach_action(any_dead && reuse.len() == 0)))
    };
    let move_ids = if dedicated {
        live_ws
    } else {
        Vec::new()
    };
    let plan = AttachPlan {
        outcome: owned(
            if reused {
                "reused"
            } else {
                "mirrored"
            },
        ),
        window_id,
        create_window: dedicated,
        sessions_to_mirror: create,
        sessions_to_reuse: reuse,
        purge_session_ids: dead,
        move_workspace_ids: move_ids,
        post_attach,
        discard_window_on_fail: dedicated,
        activate,
        reason: None,
    };
    assert(dedicated ==> plan@.move_workspace_ids =~= live_workspace_ids(records@));
    assert(!dedicated ==> plan@.move_workspace_ids =~= Seq::<Seq<char>>::empty());
    plan
}

/// Attachment intent persisted for restore. Restore always reattaches.
#[derive(Debug)]
pub struct RestoreRecord {
    pub endpoint_hash: String,
    pub socket_path: String,
    pub session_ids: Vec<String>,
    pub target_kind: String,
    pub window_id: Option<String>,
}

impl RestoreRecord {
    pub fn new(
        endpoint_hash: &str,
        socket_path: &str,
        session_ids: Vec<String>,
        target_kind: &str,
        window_id: Option<String>,
    ) -> (r: Self)
        ensures
            r.endpoint_hash@ == endpoint_hash@,
            r.socket_path@ == socket_path@,
            r.session_ids == session_ids,
            r.target_kind@ == target_kind@,
            r.window_id == window_id,
    {
        RestoreRecord {
            endpoint_hash: owned(endpoint_hash),
            socket_path: owned(socket_path),
            session_ids,
            target_kind: owned(target_kind),
            window_id,
        }
    }
}

/// The window target a restore replays: the recorded window when it is
/// still live, else a dedicated window when one was recorded, else the
/// contextual window.
pub open spec fn restore_target(
    record_window: Option<Seq<char>>,
    record_kind: Seq<char>,
    live_windows: Seq<Seq<char>>,
) -> (Seq<char>, Option<Seq<char>>) {
    if record_window is Some && live_windows.contains(record_window.unwrap()) {
        ("explicit"@, record_window)
    } else if record_kind == "dedicated_new_window"@ {
        ("dedicated_new_window"@, None)
    } else {
        ("contextual"@, None)
    }
}

/// Restore plans an attach of every discovered session (no mirrors, no live
/// connections) and turns a successful plan into a reattach that reseeds.
pub open spec fn plan_restore_spec(
    record_window: Option<Seq<char>>,
    record_kind: Seq<char>,
    enabled: bool,
    app_ready: bool,
    sessions: Seq<DiscoveredSession>,
    live_windows: Seq<Seq<char>>,
    active: Option<Seq<char>>,
) -> PlanView {
    let t = restore_target(record_window, record_kind, live_windows);
    let plan = plan_attach_spec(
        t.0,
        t.1,
        enabled,
        app_ready,
        false,
        None,
        active,
        live_windows,
        Some(sessions),
        Some(Seq::empty()),
        Some(Seq::empty()),
        true,
        None,
    );
    if !enabled {
        rejected("disabled"@, Some("beta_disabled"@))
    } else if plan.outcome == "mirrored"@ || plan.outcome == "reused"@ {
        PlanView {
            outcome: "mirrored"@,
            window_id: plan.window_id,
            create_window: plan.create_window,
            sessions_to_mirror: if plan.sessions_to_mirror.len() == 0 {
                session_ids(sessions)
            } else {
                plan.sessions_to_mirror
            },
            sessions_to_reuse: Seq::empty(),
            purge_session_ids: Seq::empty(),
            move_workspace_ids: Seq::empty(),
            post_attach: Some("reseed"@),
            discard_window_on_fail: plan.discard_window_on_fail,
            activate: true,
            reason: Some("restore_reattach"@),
        }
    } else {
        plan
    }
}

fn all_session_ids(sessions: &Vec<DiscoveredSession>) -> (r: Vec<String>)
    ensures
        strings_view(r@) == session_ids(sessions@),
{
    let mut out: Vec<String> = Vec::new();
    let mut i: usize = 0;
    while i < sessions.len()
        invariant
            i <= sessions.len(),
            strings_view(out@) == session_ids(sessions@.subrange(0, i as int)),
        decreases sessions.len() - i,
    {
        let ghost pre = sessions@.subrange(0, i as int);
        assert(sessions@.subrange(0, i + 1).drop_last() =~= pre);
        let ghost o0 = out@;
        out.push(sessions[i].session_id.clone());
        assert(strings_view(out@) =~= strings_view(o0).push(sessions@[i as int].session_id@));
        i += 1;
    }
    assert(sessions@.subrange(0, sessions@.len() as int) =~= sessions@);
    out
}

/// Plan the restore of a persisted attachment (see [`plan_restore_spec`]).
pub fn plan_restore(
    record: &RestoreRecord,
    enabled: bool,
    app_ready: bool,
    sessions: &Vec<DiscoveredSession>,
    live_windows: &Vec<String>,
    active_window_id: Option<&str>,
) -> (r: AttachPlan)
    ensures
        r@ == plan_restore_spec(
            opt_view(record.window_id),
            record.target_kind@,
            enabled,
            app_ready,
            sessions@,
            strings_view(live_windows@),
            opt_str_view(active_window_id),
        ),
{
    if !enabled {
        return AttachPlan::rejected("disabled", Some("beta_disabled"));
    }
    let own = match &record.window_id {
        Some(w) => Some(w.as_str()),
        None => None,
    };
    let target = if live_opt(own, live_windows) {
        AttachWindowTarget::new("explicit", clone_window(&record.window_id))
    } else if str_eq(record.target_kind.as_str(), "dedicated_new_window") {
        AttachWindowTarget::new("dedicated_new_window", None)
    } else {
        AttachWindowTarget::new("contextual", None)
    };
    let no_mirrors: Vec<MirrorRecord> = Vec::new();
    let no_ids: Vec<String> = Vec::new();
    let plan = plan_attach(
        &target,
        enabled,
        app_ready,
        false,
        None,
        active_window_id,
        live_windows,
        Some(sessions),
        Some(&no_mirrors),
        Some(&no_ids),
        true,
        None,
    );
    assert(no_mirrors@ =~= Seq::<MirrorRecord>::empty());
    assert(strings_view(no_ids@) =~= Seq::<Seq<char>>::empty());
    if str_eq(plan.outcome.as_str(), "mirrored") || str_eq(plan.outcome.as_str(), "reused") {
        let mirror = if plan.sessions_to_mirror.len() == 0 {
            all_session_ids(sessions)
        } else {
            plan.sessions_to_mirror
        };
        let out = AttachPlan {
            outcome: owned("mirrored"),
            window_id: plan.window_id,
            create_window: plan.create_window,
            sessions_to_mirror: mirror,
            sessions_to_reuse: Vec::new(),
            purge_session_ids: Vec::new(),
            move_workspace_ids: Vec::new(),
            post_attach: Some(owned("reseed")),
            discard_window_on_fail: plan.discard_window_on_fail,
            activate: true,
            reason: Some(owned("restore_reattach")),
        };
        assert(out@.sessions_to_reuse =~= Seq::<Seq<char>>::empty());
        assert(out@.purge_session_ids =~= Seq::<Seq<char>>::empty());
        assert(out@.move_workspace_ids =~= Seq::<Seq<char>>::empty());
        out
    } else {
        plan
    }
}

fn clone_window(w: &Option<String>) -> (r: Option<String>)
    ensures
        r == *w,
{
    match w {
        Some(s) => Some(s.clone()),
        None => None,
    }
}

/// The validated form of one `remote.herdr.*` call.
#[derive(Debug)]
pub struct DispatchResult {
    pub ok: bool,
    pub code: Option<String>,
    pub method: Option<String>,
    pub socket: Option<String>,
    pub session: Option<String>,
    pub target: Option<AttachWindowTarget>,
    pub activate: bool,
    pub create: bool,
}

impl DispatchResult {
    /// A refused call with its error code.
    pub fn error(code: &str) -> (r: Self)
        ensures
            !r.ok,
            opt_view(r.code) == Some(code@),
            r.method is None && r.socket is None && r.session is None && r.target is None,
            !r.activate && !r.create,
    {
        DispatchResult {
            ok: false,
            code: Some(owned(code)),
            method: None,
            socket: None,
            session: None,
            target: None,
            activate: false,
            create: false,
        }
    }
}

proof fn lemma_pick_partition(ss: Seq<DiscoveredSession>, lids: Seq<Seq<char>>, dead: Seq<Seq<char>>)
    ensures
        pick_sessions(ss, lids, dead, false).to_multiset().add(
            pick_sessions(ss, lids, dead, true).to_multiset(),
        ) == session_ids(ss).to_multiset(),
    decreases ss.len(),
{
    broadcast use vstd::seq_lib::group_to_multiset_ensures;

    if ss.len() == 0 {
        assert(pick_sessions(ss, lids, dead, false).to_multiset() =~= vstd::multiset::Multiset::empty());
        assert(pick_sessions(ss, lids, dead, true).to_multiset() =~= vstd::multiset::Multiset::empty());
        assert(session_ids(ss).to_multiset() =~= vstd::multiset::Multiset::empty());
    } else {
        lemma_pick_partition(ss.drop_last(), lids, dead);
        let id = ss.last().session_id@;
        let c0 = pick_sessions(ss.drop_last(), lids, dead, false).to_multiset();
        let r0 = pick_sessions(ss.drop_last(), lids, dead, true).to_multiset();
        if reusable(id, lids, dead) {
            assert(pick_sessions(ss, lids, dead, false).to_multiset().add(
                pick_sessions(ss, lids, dead, true).to_multiset(),
            ) =~= c0.add(r0).insert(id));
        } else {
            assert(pick_sessions(ss, lids, dead, false).to_multiset().add(
                pick_sessions(ss, lids, dead, true).to_multiset(),
            ) =~= c0.add(r0).insert(id));
        }
    }
}

/// When an attach goes ahead (enabled, app ready, not re-entrant, window
/// resolved, sessions discovered, workspaces not reported empty), every
/// discovered session is either mirrored anew or reused, exactly once.
pub proof fn law_attach_places_each_session_once(
    kind: Seq<char>,
    target_window: Option<Seq<char>>,
    existing: Option<Seq<char>>,
    active: Option<Seq<char>>,
    live_windows: Seq<Seq<char>>,
    sessions: Seq<DiscoveredSession>,
    mirrors: Option<Seq<MirrorRecord>>,
    live_session_ids: Option<Seq<Seq<char>>>,
    activate: bool,
    mirrored_workspace_ids: Option<Seq<Seq<char>>>,
)
    requires
        kind == "dedicated_new_window"@ || resolve_spec(kind, target_window, existing, active, live_windows) is Some,
        sessions.len() > 0,
        !(mirrored_workspace_ids is Some && mirrored_workspace_ids.unwrap().len() == 0),
    ensures
        ({
            let plan = plan_attach_spec(
                kind,
                target_window,
                true,
                true,
                false,
                existing,
                active,
                live_windows,
                Some(sessions),
                mirrors,
                live_session_ids,
                activate,
                mirrored_workspace_ids,
            );
            plan.sessions_to_mirror.to_multiset().add(plan.sessions_to_reuse.to_multiset())
                == session_ids(sessions).to_multiset()
        }),
{
    lemma_pick_partition(sessions, or_empty(live_session_ids), dead_ids(or_empty(mirrors)));
}

/// A successful restore reattaches: it reseeds, reuses nothing, purges
/// nothing and says it is a restore.
pub proof fn law_restore_reattaches(
    record_window: Option<Seq<char>>,
    record_kind: Seq<char>,
    app_ready: bool,
    sessions: Seq<DiscoveredSession>,
    live_windows: Seq<Seq<char>>,
    active: Option<Seq<char>>,
)
    requires
        plan_restore_spec(record_window, record_kind, true, app_ready, sessions, live_windows, active).outcome
            == "mirrored"@,
    ensures
        ({
            let plan = plan_restore_spec(
                record_window,
                record_kind,
                true,
                app_ready,
                sessions,
                live_windows,
                active,
            );
            &&& plan.post_attach == Some("reseed"@)
            &&& plan.sessions_to_reuse.len() == 0
            &&& plan.purge_session_ids.len() == 0
            &&& plan.reason == Some("restore_reattach"@)
            &&& plan.activate
        }),
{
}

// ---- socket parameters --------------------------------------------------

/// A parameter as the host renders it: strings verbatim, null as `None`,
/// booleans as `True`/`False`, anything else as its JSON text.
pub open spec fn value_string(v: Json) -> Seq<char> {
    match v {
        Json::Str(s) => s@,
        Json::Null => "None"@,
        Json::Bool(b) => if b {
            "True"@
        } else {
            "False"@
        },
        _ => json_text(v),
    }
}

pub fn value_string_exec(v: &Json) -> (r: String)
    ensures
        r@ == value_string(*v),
{
    match v {
        Json::Str(s) => s.clone(),
        Json::Null => owned("None"),
        Json::Bool(b) => if *b {
            owned("True")
        } else {
            owned("False")
        },
        _ => v.text(),
    }
}

/// How a beta flag value decodes: booleans as themselves, the numbers 0
/// and 1, and the usual words in any case; anything else keeps `default`.
pub open spec fn beta_spec(value: Option<Json>, default: bool) -> bool {
    match value {
        None => default,
        Some(Json::Null) => default,
        Some(Json::Bool(b)) => b,
        Some(Json::Number { whole, .. }) => if whole == Some(0i64) {
            false
        } else if whole == Some(1i64) {
            true
        } else {
            default
        },
        Some(Json::Str(s)) => {
            let w = lower(trim(s@));
            if w == "1"@ || w == "true"@ || w == "yes"@ || w == "on"@ {
                true
            } else if w == "0"@ || w == "false"@ || w == "no"@ || w == "off"@ {
                false
            } else {
                default
            }
        },
        _ => default,
    }
}

/// Decode the beta feature setting.
pub fn decode_beta(value: Option<&Json>, default: bool) -> (r: bool)
    ensures
        r == beta_spec(opt_ref(value), default),
{
    match value {
        None => default,
        Some(Json::Null) => default,
        Some(Json::Bool(b)) => *b,
        Some(Json::Number { whole, .. }) => match whole {
            Some(n) => if *n == 0 {
                false
            } else if *n == 1 {
                true
            } else {
                default
            },
            None => default,
        },
        Some(Json::Str(s)) => {
            let t = trim_str(s.as_str());
            let l = lower_str(t.as_str());
            let w = l.as_str();
            if str_eq(w, "1") || str_eq(w, "true") || str_eq(w, "yes") || str_eq(w, "on") {
                true
            } else if str_eq(w, "0") || str_eq(w, "false") || str_eq(w, "no") || str_eq(w, "off") {
                false
            } else {
                default
            }
        },
        _ => default,
    }
}

pub open spec fn is_empty_str(v: Json) -> bool {
    match v {
        Json::Str(s) => s@.len() == 0,
        _ => false,
    }
}

/// The attach destination a call asks for: a dedicated window; else the
/// explicit `window_id` (unresolved when null or empty); else the
/// contextual window with the truthy `preferred_window_id`, if any.
pub open spec fn target_spec(params: Json, dedicated: bool) -> (Seq<char>, Option<Seq<char>>) {
    let raw = json_get(params, "window_id"@);
    let preferred = json_get(params, "preferred_window_id"@);
    if dedicated {
        ("dedicated_new_window"@, None)
    } else if raw is Some {
        if raw.unwrap() is Null || is_empty_str(raw.unwrap()) {
            ("unresolved_explicit"@, None)
        } else {
            ("explicit"@, Some(value_string(raw.unwrap())))
        }
    } else if truthy(preferred) {
        ("contextual"@, Some(value_string(preferred.unwrap())))
    } else {
        ("contextual"@, None)
    }
}

/// Decode the attach destination from socket call parameters.
pub fn window_target_from_params(params: &Json, dedicated: bool) -> (r: AttachWindowTarget)
    ensures
        (r.kind@, opt_view(r.window_id)) == target_spec(*params, dedicated),
{
    if dedicated {
        return AttachWindowTarget::new("dedicated_new_window", None);
    }
    match params.get("window_id") {
        Some(raw) => {
            let empty = match raw {
                Json::Null => true,
                Json::Str(s) => s.as_str().is_empty(),
                _ => false,
            };
            if empty {
                return AttachWindowTarget::new("unresolved_explicit", None);
            }
            return AttachWindowTarget::new("explicit", Some(value_string_exec(raw)));
        },
        None => {},
    }
    let preferred = params.get("preferred_window_id");
    assert(opt_ref(preferred) == json_get(*params, "preferred_window_id"@));
    if is_truthy(preferred) {
        AttachWindowTarget::new("contextual", Some(value_string_exec(preferred.unwrap())))
    } else {
        AttachWindowTarget::new("contextual", None)
    }
}

/// The `remote.herdr.*` methods the host answers.
pub open spec fn socket_methods() -> Seq<Seq<char>> {
    seq![
        "remote.herdr.sessions"@,
        "remote.herdr.attach"@,
        "remote.herdr.mirror"@,
        "remote.herdr.window"@,
        "remote.herdr.detach"@,
        "remote.herdr.state"@,
        "remote.herdr.pane_surfaces"@,
        "remote.herdr.pane_grids"@,
    ]
}

/// The methods that name a provider session.
pub open spec fn session_methods() -> Seq<Seq<char>> {
    seq![
        "remote.herdr.attach"@,
        "remote.herdr.detach"@,
        "remote.herdr.state"@,
        "remote.herdr.pane_surfaces"@,
        "remote.herdr.pane_grids"@,
    ]
}

fn is_socket_method(m: &str) -> (r: bool)
    ensures
        r == socket_methods().contains(m@),
{
    let r = str_eq(m, "remote.herdr.sessions") || str_eq(m, "remote.herdr.attach") || str_eq(
        m,
        "remote.herdr.mirror",
    ) || str_eq(m, "remote.herdr.window") || str_eq(m, "remote.herdr.detach") || str_eq(
        m,
        "remote.herdr.state",
    ) || str_eq(m, "remote.herdr.pane_surfaces") || str_eq(m, "remote.herdr.pane_grids");
    proof {
        let l = socket_methods();
        if r {
            if m@ == "remote.herdr.sessions"@ { assert(l[0] == m@); }
            else if m@ == "remote.herdr.attach"@ { assert(l[1] == m@); }
            else if m@ == "remote.herdr.mirror"@ { assert(l[2] == m@); }
            else if m@ == "remote.herdr.window"@ { assert(l[3] == m@); }
            else if m@ == "remote.herdr.detach"@ { assert(l[4] == m@); }
            else if m@ == "remote.herdr.state"@ { assert(l[5] == m@); }
            else if m@ == "remote.herdr.pane_surfaces"@ { assert(l[6] == m@); }
            else { assert(l[7] == m@); }
        } else {
            assert forall|i: int| 0 <= i < l.len() implies l[i] != m@ by {}
        }
    }
    r
}

fn is_session_method(m: &str) -> (r: bool)
    ensures
        r == session_methods().contains(m@),
{
    let r = str_eq(m, "remote.herdr.attach") || str_eq(m, "remote.herdr.detach") || str_eq(
        m,
        "remote.herdr.state",
    ) || str_eq(m, "remote.herdr.pane_surfaces") || str_eq(m, "remote.herdr.pane_grids");
    proof {
        let l = session_methods();
        if r {
            if m@ == "remote.herdr.attach"@ { assert(l[0] == m@); }
            else if m@ == "remote.herdr.detach"@ { assert(l[1] == m@); }
            else if m@ == "remote.herdr.state"@ { assert(l[2] == m@); }
            else if m@ == "remote.herdr.pane_surfaces"@ { assert(l[3] == m@); }
            else { assert(l[4] == m@); }
        } else {
            assert forall|i: int| 0 <= i < l.len() implies l[i] != m@ by {}
        }
    }
    r
}

/// The socket path a call names: a truthy `socket`, else `socket_path`.
pub open spec fn call_socket(body: Json) -> Option<Seq<char>> {
    let s = json_get(body, "socket"@);
    let chosen = if truthy(s) {
        s
    } else {
        json_get(body, "socket_path"@)
    };
    match chosen {
        Some(v) => socket_path_spec(Some(value_string(v))),
        None => None,
    }
}

/// The session name a call names (`session`, when not null).
pub open spec fn call_session(body: Json) -> Option<Seq<char>> {
    let v = json_get(body, "session"@);
    if v is Some && !(v.unwrap() is Null) {
        let t = trim(value_string(v.unwrap()));
        if t.len() == 0 {
            None
        } else {
            Some(t)
        }
    } else {
        None
    }
}

/// Validation of one `remote.herdr.*` call, in order: a known method, the
/// feature enabled, a valid socket path, and for session methods a session
/// name. A valid call carries its target, and `activate`/`create` flags.
pub open spec fn dispatch_ok(
    method: Seq<char>,
    params: Option<Json>,
    enabled: bool,
    r: DispatchResult,
) -> bool {
    let body = match params {
        Some(p) => p,
        None => Json::Null,
    };
    if !socket_methods().contains(method) {
        dispatch_error(r, "unknown_method"@)
    } else if !enabled {
        dispatch_error(r, "disabled"@)
    } else if call_socket(body) is None {
        dispatch_error(r, "invalid_params"@)
    } else if session_methods().contains(method) && call_session(body) is None {
        dispatch_error(r, "invalid_params"@)
    } else {
        &&& r.ok
        &&& r.code is None
        &&& opt_view(r.method) == Some(method)
        &&& opt_view(r.socket) == call_socket(body)
        &&& opt_view(r.session) == if session_methods().contains(method) {
            call_session(body)
        } else {
            None
        }
        &&& r.target is Some
        &&& (r.target.unwrap().kind@, opt_view(r.target.unwrap().window_id)) == target_spec(
            body,
            method == "remote.herdr.window"@,
        )
        &&& r.activate == truthy(json_get(body, "activate"@))
        &&& r.create == truthy(json_get(body, "create"@))
    }
}

pub open spec fn dispatch_error(r: DispatchResult, code: Seq<char>) -> bool {
    &&& !r.ok
    &&& opt_view(r.code) == Some(code)
    &&& r.method is None && r.socket is None && r.session is None && r.target is None
    &&& !r.activate && !r.create
}

/// Validate a `remote.herdr.*` call without performing socket or UI work.
pub fn dispatch(method: &str, params: Option<&Json>, enabled: bool) -> (r: DispatchResult)
    ensures
        dispatch_ok(method@, opt_ref(params), enabled, r),
{
    if !is_socket_method(method) {
        return DispatchResult::error("unknown_method");
    }
    if !enabled {
        return DispatchResult::error("disabled");
    }
    let null = Json::Null;
    let body: &Json = match params {
        Some(p) => p,
        None => &null,
    };
    let s = body.get("socket");
    let chosen = if is_truthy(s) {
        s
    } else {
        body.get("socket_path")
    };
    let raw = match chosen {
        Some(v) => Some(value_string_exec(v)),
        None => None,
    };
    let socket = match raw {
        Some(r) => validate_socket_path(Some(r.as_str())),
        None => None,
    };
    let socket = match socket {
        Some(s) => s,
        None => return DispatchResult::error("invalid_params"),
    };
    let session = if is_session_method(method) {
        let v = body.get("session");
        let name = match v {
            Some(j) => if j.is_null() {
                None
            } else {
                let t = value_string_exec(j);
                validate_session_name(Some(t.as_str()))
            },
            None => None,
        };
        match name {
            Some(n) => Some(n),
            None => return DispatchResult::error("invalid_params"),
        }
    } else {
        None
    };
    let target = window_target_from_params(body, str_eq(method, "remote.herdr.window"));
    DispatchResult {
        ok: true,
        code: None,
        method: Some(owned(method)),
        socket: Some(socket),
        session,
        target: Some(target),
        activate: is_truthy(body.get("activate")),
        create: is_truthy(body.get("create")),
    }
}

/// A parameter that is present and truthy, rendered as the host renders it.
pub open spec fn truthy_string(v: Option<Json>) -> Option<Seq<char>> {
    if truthy(v) {
        Some(value_string(v.unwrap()))
    } else {
        None
    }
}

fn truthy_string_exec(v: Option<&Json>) -> (r: Option<String>)
    ensures
        opt_view(r) == truthy_string(opt_ref(v)),
{
    if is_truthy(v) {
        Some(value_string_exec(v.unwrap()))
    } else {
        None
    }
}

pub open spec fn or_blank(o: Option<Seq<char>>) -> Seq<char> {
    match o {
        Some(s) => s,
        None => Seq::empty(),
    }
}

/// The items of an array, rendered as the host renders them.
pub open spec fn value_strings(items: Seq<Json>) -> Seq<Seq<char>> {
    Seq::new(items.len(), |i: int| value_string(items[i]))
}

pub open spec fn is_replay_tree(v: Option<Json>) -> bool {
    match v {
        Some(Json::Str(s)) => s@ == "replay_tree"@,
        _ => false,
    }
}

/// A persisted restore intent read back: an object that is not a replayed
/// tree, with a valid socket path, an endpoint, a target kind and at least
/// one session id.
pub open spec fn restore_from_spec(payload: Json) -> Option<
    (Seq<char>, Seq<char>, Seq<Seq<char>>, Seq<char>, Option<Seq<char>>),
> {
    let socket = socket_path_spec(truthy_string(json_get(payload, "socket_path"@)));
    let endpoint = or_blank(truthy_string(json_get(payload, "endpoint_hash"@)));
    let kind = or_blank(truthy_string(json_get(payload, "target_kind"@)));
    let ids = json_get(payload, "session_ids"@);
    if !(payload is Object) || is_replay_tree(json_get(payload, "mode"@)) || socket is None
        || endpoint.len() == 0 || kind.len() == 0 {
        None
    } else {
        match ids {
            Some(Json::Array { items, .. }) => if items@.len() == 0 {
                None
            } else {
                Some(
                    (
                        endpoint,
                        socket.unwrap(),
                        value_strings(items@),
                        kind,
                        truthy_string(json_get(payload, "window_id"@)),
                    ),
                )
            },
            _ => None,
        }
    }
}

impl RestoreRecord {
    /// Read a persisted restore intent (see [`restore_from_spec`]).
    pub fn from_value(payload: &Json) -> (r: Option<RestoreRecord>)
        ensures
            match r {
                Some(rec) => restore_from_spec(*payload) == Some(
                    (
                        rec.endpoint_hash@,
                        rec.socket_path@,
                        strings_view(rec.session_ids@),
                        rec.target_kind@,
                        opt_view(rec.window_id),
                    ),
                ),
                None => restore_from_spec(*payload) is None,
            },
    {
        if !payload.is_object() {
            return None;
        }
        let mode = payload.get("mode");
        let replay = match mode {
            Some(Json::Str(m)) => str_eq(m.as_str(), "replay_tree"),
            _ => false,
        };
        assert(replay == is_replay_tree(opt_ref(mode)));
        if replay {
            return None;
        }
        let raw_socket = truthy_string_exec(payload.get("socket_path"));
        let socket = match raw_socket {
            Some(s) => validate_socket_path(Some(s.as_str())),
            None => validate_socket_path(None),
        };
        let socket = match socket {
            Some(s) => s,
            None => return None,
        };
        let endpoint = match truthy_string_exec(payload.get("endpoint_hash")) {
            Some(e) => e,
            None => String::new(),
        };
        let kind = match truthy_string_exec(payload.get("target_kind")) {
            Some(k) => k,
            None => String::new(),
        };
        if endpoint.as_str().is_empty() || kind.as_str().is_empty() {
            return None;
        }
        let items = match payload.get("session_ids") {
            Some(Json::Array { items, .. }) => items,
            _ => return None,
        };
        if items.len() == 0 {
            return None;
        }
        let mut ids: Vec<String> = Vec::new();
        let mut i: usize = 0;
        while i < items.len()
            invariant
                i <= items.len(),
                strings_view(ids@) == value_strings(items@).take(i as int),
            decreases items.len() - i,
        {
            let ghost i0 = strings_view(ids@);
            ids.push(value_string_exec(&items[i]));
            assert(strings_view(ids@) =~= i0.push(value_string(items@[i as int])));
            assert(value_strings(items@).take(i + 1) =~= value_strings(items@).take(i as int).push(
                value_string(items@[i as int]),
            ));
            i += 1;
        }
        assert(value_strings(items@).take(items.len() as int) =~= value_strings(items@));
        let window_id = truthy_string_exec(payload.get("window_id"));
        Some(RestoreRecord::new(endpoint.as_str(), socket.as_str(), ids, kind.as_str(), window_id))
    }
}

// ---- the attach controller ---------------------------------------------------

/// Keys of a map in ascending order, as sort keys with their positions.
pub open spec fn key_order<V>(m: Seq<(String, V)>) -> Seq<(int, Seq<char>, int)> {
    by_keys(Seq::new(m.len(), |i: int| (0int, m[i].0@, i)))
}

/// The values of a map in ascending key order.
pub open spec fn values_sorted<V>(m: Seq<(String, V)>) -> Seq<V> {
    Seq::new(m.len(), |i: int| m[key_order(m)[i].2].1)
}

/// The keys of a map in ascending order.
pub open spec fn keys_sorted<V>(m: Seq<(String, V)>) -> Seq<Seq<char>> {
    Seq::new(m.len(), |i: int| m[key_order(m)[i].2].0@)
}

fn key_positions<V>(m: &Vec<(String, V)>) -> (r: Vec<usize>)
    ensures
        r.len() == m.len(),
        forall|i: int| 0 <= i < m.len() ==> r@[i] == key_order(m@)[i].2 && 0 <= r@[i] < m.len(),
{
    let ghost base = Seq::new(m@.len(), |i: int| (0int, m@[i].0@, i));
    let mut keys: Vec<(i64, String, u64)> = Vec::new();
    let mut i: usize = 0;
    while i < m.len()
        invariant
            i <= m.len(),
            base == Seq::new(m@.len(), |i: int| (0int, m@[i].0@, i)),
            keys_view(keys@) == base.take(i as int),
        decreases m.len() - i,
    {
        let ghost k0 = keys_view(keys@);
        keys.push((0, m[i].0.clone(), i as u64));
        assert(keys_view(keys@) =~= k0.push((0int, m@[i as int].0@, i as int)));
        assert(base.take(i + 1) =~= base.take(i as int).push(base[i as int]));
        i += 1;
    }
    assert(base.take(m.len() as int) =~= base);
    let sorted = sort_keys(&keys);
    proof {
        lemma_sorted_positions(base, m.len() as int);
    }
    let mut out: Vec<usize> = Vec::new();
    let mut j: usize = 0;
    while j < sorted.len()
        invariant
            j <= sorted.len(),
            sorted.len() == m.len(),
            keys_view(sorted@) == by_keys(base),
            base == Seq::new(m@.len(), |i: int| (0int, m@[i].0@, i)),
            forall|k: int| 0 <= k < m.len() ==> 0 <= (#[trigger] by_keys(base)[k]).2 < m.len(),
            out.len() == j,
            forall|k: int| 0 <= k < j ==> out@[k] == key_order(m@)[k].2 && 0 <= out@[k] < m.len(),
        decreases sorted.len() - j,
    {
        assert(keys_view(sorted@)[j as int] == by_keys(base)[j as int]);
        out.push(sorted[j].2 as usize);
        j += 1;
    }
    out
}

/// The mirror records in ascending session order.
fn mirrors_sorted(m: &Vec<(String, MirrorRecord)>) -> (r: Vec<MirrorRecord>)
    ensures
        r@ == values_sorted(m@),
{
    let pos = key_positions(m);
    let mut out: Vec<MirrorRecord> = Vec::new();
    let mut i: usize = 0;
    while i < pos.len()
        invariant
            i <= pos.len(),
            pos.len() == m.len(),
            forall|k: int| 0 <= k < m.len() ==> pos@[k] == key_order(m@)[k].2 && 0 <= pos@[k] < m.len(),
            out@ == values_sorted(m@).take(i as int),
        decreases pos.len() - i,
    {
        out.push(m[pos[i]].1.duplicate());
        assert(values_sorted(m@).take(i + 1) =~= values_sorted(m@).take(i as int).push(
            m@[pos@[i as int] as int].1,
        ));
        i += 1;
    }
    assert(values_sorted(m@).take(m.len() as int) =~= values_sorted(m@));
    out
}

/// The session keys of a map in ascending order.
fn keys_in_order<V>(m: &Vec<(String, V)>) -> (r: Vec<String>)
    ensures
        strings_view(r@) == keys_sorted(m@),
{
    let pos = key_positions(m);
    let mut out: Vec<String> = Vec::new();
    let mut i: usize = 0;
    while i < pos.len()
        invariant
            i <= pos.len(),
            pos.len() == m.len(),
            forall|k: int| 0 <= k < m.len() ==> pos@[k] == key_order(m@)[k].2 && 0 <= pos@[k] < m.len(),
            strings_view(out@) == keys_sorted(m@).take(i as int),
        decreases pos.len() - i,
    {
        let ghost o0 = strings_view(out@);
        out.push(m[pos[i]].0.clone());
        assert(strings_view(out@) =~= o0.push(m@[pos@[i as int] as int].0@));
        assert(keys_sorted(m@).take(i + 1) =~= keys_sorted(m@).take(i as int).push(
            m@[pos@[i as int] as int].0@,
        ));
        i += 1;
    }
    assert(keys_sorted(m@).take(m.len() as int) =~= keys_sorted(m@));
    out
}

/// The entries whose mirror workspace is alive, in order.
pub open spec fn live_entries(m: Seq<(String, MirrorRecord)>) -> Seq<(String, MirrorRecord)>
    decreases m.len(),
{
    if m.len() == 0 {
        Seq::empty()
    } else if m.last().1.workspace_id is Some {
        live_entries(m.drop_last()).push(m.last())
    } else {
        live_entries(m.drop_last())
    }
}

proof fn lemma_live_entries_sub(m: Seq<(String, MirrorRecord)>)
    ensures
        forall|i: int| 0 <= i < live_entries(m).len() ==> exists|j: int|
            0 <= j < m.len() && #[trigger] live_entries(m)[i] == m[j],
        forall|i: int, j: int|
            0 <= i < j < live_entries(m).len() ==> exists|a: int, b: int|
                0 <= a < b < m.len() && #[trigger] live_entries(m)[i] == m[a] && #[trigger] live_entries(m)[j] == m[b],
    decreases m.len(),
{
    if m.len() > 0 {
        lemma_live_entries_sub(m.drop_last());
        let l0 = live_entries(m.drop_last());
        assert forall|i: int| 0 <= i < live_entries(m).len() implies exists|j: int|
            0 <= j < m.len() && #[trigger] live_entries(m)[i] == m[j] by {
            if i < l0.len() {
                let j = choose|j: int| 0 <= j < m.drop_last().len() && l0[i] == m.drop_last()[j];
                assert(live_entries(m)[i] == m[j]);
            } else {
                assert(live_entries(m)[i] == m[m.len() - 1]);
            }
        }
        assert forall|i: int, j: int| 0 <= i < j < live_entries(m).len() implies exists|a: int, b: int|
            0 <= a < b < m.len() && #[trigger] live_entries(m)[i] == m[a] && #[trigger] live_entries(m)[j] == m[b] by {
            if j < l0.len() {
                let (a, b) = choose|a: int, b: int|
                    0 <= a < b < m.drop_last().len() && l0[i] == m.drop_last()[a] && l0[j] == m.drop_last()[b];
                assert(live_entries(m)[i] == m[a] && live_entries(m)[j] == m[b]);
            } else {
                let a = choose|a: int| 0 <= a < m.drop_last().len() && l0[i] == m.drop_last()[a];
                assert(live_entries(m)[i] == m[a]);
                assert(live_entries(m)[j] == m[m.len() - 1]);
            }
        }
    }
}

/// Only live mirrors survive, keyed as before.
pub proof fn lemma_live_entries_lookup(m: Seq<(String, MirrorRecord)>)
    requires
        unique(m),
    ensures
        unique(live_entries(m)),
        forall|k: Seq<char>| #[trigger] lookup(live_entries(m), k) == match lookup(m, k) {
            Some(r) => if r.workspace_id is Some {
                Some(r)
            } else {
                None
            },
            None => None,
        },
    decreases m.len(),
{
    if m.len() > 0 {
        let t = m.drop_last();
        assert(unique(t)) by {
            assert forall|a: int, b: int| 0 <= a < t.len() && 0 <= b < t.len() && a != b implies t[a].0@
                != t[b].0@ by {
                assert(t[a] == m[a] && t[b] == m[b]);
            }
        }
        lemma_live_entries_lookup(t);
        lemma_live_entries_sub(t);
        let l0 = live_entries(t);
        if m.last().1.workspace_id is Some {
            assert(unique(live_entries(m))) by {
                let l = live_entries(m);
                assert forall|a: int, b: int| 0 <= a < l.len() && 0 <= b < l.len() && a != b implies l[a].0@
                    != l[b].0@ by {
                    if a < l0.len() && b < l0.len() {
                        assert(l[a] == l0[a] && l[b] == l0[b]);
                    } else if a < l0.len() {
                        let j = choose|j: int| 0 <= j < t.len() && #[trigger] l0[a] == t[j];
                        assert(t[j] == m[j]);
                        assert(l[b] == m[m.len() - 1]);
                    } else {
                        let j = choose|j: int| 0 <= j < t.len() && #[trigger] l0[b] == t[j];
                        assert(t[j] == m[j]);
                        assert(l[a] == m[m.len() - 1]);
                    }
                }
            }
        }
        assert forall|k: Seq<char>| #[trigger] lookup(live_entries(m), k) == match lookup(m, k) {
            Some(r) => if r.workspace_id is Some {
                Some(r)
            } else {
                None
            },
            None => None,
        } by {
            assert(m.drop_last() == t);
            assert(lookup(m, k) == if m.last().0@ == k {
                Some(m.last().1)
            } else {
                lookup(t, k)
            });
            if m.last().1.workspace_id is Some {
                let l = l0.push(m.last());
                assert(live_entries(m) == l);
                assert(l.drop_last() =~= l0);
                assert(l.last() == m.last());
                assert(lookup(l, k) == if m.last().0@ == k {
                    Some(m.last().1)
                } else {
                    lookup(l0, k)
                });
            } else {
                assert(live_entries(m) == l0);
                if m.last().0@ == k {
                    assert(!crate::assoc::has_key(t, k)) by {
                        if crate::assoc::has_key(t, k) {
                            let j = choose|j: int| 0 <= j < t.len() && t[j].0@ == k;
                            assert(t[j] == m[j]);
                            assert(m[m.len() - 1] == m.last());
                        }
                    }
                    crate::assoc::lemma_lookup_absent(t, k);
                }
            }
        }
    }
}
/// Drop the mirrors whose workspace is gone.
fn retain_live(m: &mut Vec<(String, MirrorRecord)>)
    requires
        unique(old(m)@),
    ensures
        final(m)@ == live_entries(old(m)@),
        unique(final(m)@),
{
    let ghost o = m@;
    let mut out: Vec<(String, MirrorRecord)> = Vec::new();
    let mut i: usize = 0;
    while i < m.len()
        invariant
            i <= m.len(),
            m@ == o,
            out@ == live_entries(o.take(i as int)),
        decreases m.len() - i,
    {
        assert(o.take(i + 1).drop_last() =~= o.take(i as int));
        if m[i].1.workspace_id.is_some() {
            out.push((m[i].0.clone(), m[i].1.duplicate()));
        }
        i += 1;
    }
    assert(o.take(o.len() as int) =~= o);
    proof {
        lemma_live_entries_lookup(o);
    }
    *m = out;
}

/// Ids of the connections that may be reused (started, not exited), in
/// map order.
pub open spec fn cacheable_ids(c: Seq<(String, ConnectionRecord)>) -> Seq<Seq<char>>
    decreases c.len(),
{
    if c.len() == 0 {
        Seq::empty()
    } else if c.last().1.started && !c.last().1.exited {
        cacheable_ids(c.drop_last()).push(c.last().0@)
    } else {
        cacheable_ids(c.drop_last())
    }
}

fn cacheable_ids_exec(c: &Vec<(String, ConnectionRecord)>) -> (r: Vec<String>)
    ensures
        strings_view(r@) == cacheable_ids(c@),
{
    let mut out: Vec<String> = Vec::new();
    let mut i: usize = 0;
    while i < c.len()
        invariant
            i <= c.len(),
            strings_view(out@) == cacheable_ids(c@.take(i as int)),
        decreases c.len() - i,
    {
        assert(c@.take(i + 1).drop_last() =~= c@.take(i as int));
        if may_cache_connection(&c[i].1) {
            let ghost o0 = strings_view(out@);
            out.push(c[i].0.clone());
            assert(strings_view(out@) =~= o0.push(c@[i as int].0@));
        }
        i += 1;
    }
    assert(c@.take(c.len() as int) =~= c@);
    out
}

/// A mirror record as plain values.
pub open spec fn mview(r: MirrorRecord) -> (Seq<char>, Seq<char>, Option<Seq<char>>) {
    (r.session_id@, r.window_id@, opt_view(r.workspace_id))
}

pub open spec fn mlookup(m: Seq<(String, MirrorRecord)>, k: Seq<char>) -> Option<
    (Seq<char>, Seq<char>, Option<Seq<char>>),
> {
    match lookup(m, k) {
        Some(r) => Some(mview(r)),
        None => None,
    }
}

/// Point every mirror at window `w`.
fn rebind_windows(m: &mut Vec<(String, MirrorRecord)>, w: &str)
    ensures
        final(m)@.len() == old(m)@.len(),
        forall|i: int| 0 <= i < old(m)@.len() ==> (#[trigger] final(m)@[i]).0 == old(m)@[i].0
            && final(m)@[i].1.session_id == old(m)@[i].1.session_id && final(m)@[i].1.workspace_id
            == old(m)@[i].1.workspace_id && final(m)@[i].1.window_id@ == w@,
{
    let ghost o = m@;
    let mut i: usize = 0;
    while i < m.len()
        invariant
            i <= m.len(),
            m@.len() == o.len(),
            forall|j: int| i <= j < o.len() ==> #[trigger] m@[j] == o[j],
            forall|j: int| 0 <= j < i ==> (#[trigger] m@[j]).0 == o[j].0 && m@[j].1.session_id
                == o[j].1.session_id && m@[j].1.workspace_id == o[j].1.workspace_id
                && m@[j].1.window_id@ == w@,
        decreases m.len() - i,
    {
        let key = m[i].0.clone();
        let rec = MirrorRecord {
            session_id: m[i].1.session_id.clone(),
            window_id: owned(w),
            workspace_id: match &m[i].1.workspace_id {
                Some(x) => Some(x.clone()),
                None => None,
            },
        };
        m.set(i, (key, rec));
        i += 1;
    }
}

proof fn lemma_lookup_pointwise(
    a: Seq<(String, MirrorRecord)>,
    b: Seq<(String, MirrorRecord)>,
    k: Seq<char>,
)
    requires
        a.len() == b.len(),
        forall|i: int| 0 <= i < a.len() ==> (#[trigger] b[i]).0 == a[i].0,
    ensures
        lookup(a, k) is Some <==> lookup(b, k) is Some,
        lookup(a, k) is Some ==> exists|i: int|
            0 <= i < a.len() && lookup(a, k) == Some(a[i].1) && lookup(b, k) == Some(b[i].1),
    decreases a.len(),
{
    if a.len() > 0 {
        assert(b[b.len() - 1].0 == a[a.len() - 1].0);
        lemma_lookup_pointwise(a.drop_last(), b.drop_last(), k);
        if a.last().0@ != k && lookup(a, k) is Some {
            let i = choose|i: int|
                0 <= i < a.drop_last().len() && lookup(a.drop_last(), k) == Some(a.drop_last()[i].1)
                    && lookup(b.drop_last(), k) == Some(b.drop_last()[i].1);
            assert(a.drop_last()[i] == a[i] && b.drop_last()[i] == b[i]);
        }
    }
}

/// Workspaces of the reused sessions whose mirror is alive, in order.
pub open spec fn reuse_workspaces(m: Seq<(String, MirrorRecord)>, ids: Seq<Seq<char>>) -> Seq<
    Seq<char>,
>
    decreases ids.len(),
{
    if ids.len() == 0 {
        Seq::empty()
    } else {
        match lookup(m, ids.last()) {
            Some(r) => match r.workspace_id {
                Some(w) => reuse_workspaces(m, ids.drop_last()).push(w@),
                None => reuse_workspaces(m, ids.drop_last()),
            },
            None => reuse_workspaces(m, ids.drop_last()),
        }
    }
}

fn reuse_workspaces_exec(m: &Vec<(String, MirrorRecord)>, ids: &Vec<String>) -> (r: Vec<String>)
    requires
        unique(m@),
    ensures
        strings_view(r@) == reuse_workspaces(m@, strings_view(ids@)),
{
    let mut out: Vec<String> = Vec::new();
    let mut i: usize = 0;
    while i < ids.len()
        invariant
            i <= ids.len(),
            unique(m@),
            strings_view(out@) == reuse_workspaces(m@, strings_view(ids@).take(i as int)),
        decreases ids.len() - i,
    {
        assert(strings_view(ids@).take(i + 1).drop_last() =~= strings_view(ids@).take(i as int));
        assert(strings_view(ids@).take(i + 1).last() == ids@[i as int]@);
        match crate::assoc::get(m, ids[i].as_str()) {
            Some(r) => match &r.workspace_id {
                Some(w) => {
                    let ghost o0 = strings_view(out@);
                    out.push(w.clone());
                    assert(strings_view(out@) =~= o0.push(w@));
                },
                None => {},
            },
            None => {},
        }
        i += 1;
    }
    assert(strings_view(ids@).take(ids.len() as int) =~= strings_view(ids@));
    out
}

/// The workspace a newly mirrored session gets.
pub open spec fn workspace_for(id: Seq<char>) -> Seq<char> {
    "ws-"@ + id
}

/// A connection just started for a mirrored session.
pub open spec fn fresh_connection(c: ConnectionRecord, id: Seq<char>) -> bool {
    &&& c.wf()
    &&& c.session_id@ == id
    &&& c.started && c.snapshot_received && !c.exited && !c.client_size_applied
    &&& c.window_ids@.len() == 0
    &&& c.total_output_bytes == 0
    &&& c.pane_output_bytes@.len() == 0
    &&& c.recent_events@.len() == 0
}

/// Whether the connection of `id` must be (re)started.
pub open spec fn needs_start(c: Seq<(String, ConnectionRecord)>, id: Seq<char>) -> bool {
    !(lookup(c, id) is Some && !lookup(c, id).unwrap().exited)
}

pub open spec fn all_wf(c: Seq<(String, ConnectionRecord)>) -> bool {
    forall|i: int| 0 <= i < c.len() ==> (#[trigger] c[i]).1.wf()
}

/// Mirror each of `ids` into window `w`, starting connections that are not
/// running; returns the new workspaces in order.
fn mirror_sessions(
    mirrors: &mut Vec<(String, MirrorRecord)>,
    connections: &mut Vec<(String, ConnectionRecord)>,
    ids: &Vec<String>,
    w: &str,
) -> (r: Vec<String>)
    requires
        unique(old(mirrors)@),
        unique(old(connections)@),
    ensures
        unique(final(mirrors)@),
        unique(final(connections)@),
        strings_view(r@) == strings_view(ids@).map_values(|id: Seq<char>| workspace_for(id)),
        forall|k: Seq<char>| #[trigger]
            mlookup(final(mirrors)@, k) == if strings_view(ids@).contains(k) {
                Some((k, w@, Some(workspace_for(k))))
            } else {
                mlookup(old(mirrors)@, k)
            },
        forall|k: Seq<char>|
            #![trigger lookup(final(connections)@, k)]
            if strings_view(ids@).contains(k) && needs_start(old(connections)@, k) {
                lookup(final(connections)@, k) is Some && fresh_connection(
                    lookup(final(connections)@, k).unwrap(),
                    k,
                )
            } else {
                lookup(final(connections)@, k) == lookup(old(connections)@, k)
            },
{
    let ghost m0 = mirrors@;
    let ghost c0 = connections@;
    let ghost iv = strings_view(ids@);
    let mut out: Vec<String> = Vec::new();
    let mut i: usize = 0;
    while i < ids.len()
        invariant
            i <= ids.len(),
            iv == strings_view(ids@),
            unique(mirrors@),
            unique(connections@),
            strings_view(out@) == iv.take(i as int).map_values(|id: Seq<char>| workspace_for(id)),
            forall|k: Seq<char>| #[trigger]
                mlookup(mirrors@, k) == if iv.take(i as int).contains(k) {
                    Some((k, w@, Some(workspace_for(k))))
                } else {
                    mlookup(m0, k)
                },
            forall|k: Seq<char>|
                #![trigger lookup(connections@, k)]
                if iv.take(i as int).contains(k) && needs_start(c0, k) {
                    lookup(connections@, k) is Some && fresh_connection(
                        lookup(connections@, k).unwrap(),
                        k,
                    )
                } else {
                    lookup(connections@, k) == lookup(c0, k)
                },
        decreases ids.len() - i,
    {
        let id = ids[i].as_str();
        let ghost pre = iv.take(i as int);
        let ghost now = iv.take(i + 1);
        assert(now =~= pre.push(id@));
        assert forall|k: Seq<char>| now.contains(k) <==> (pre.contains(k) || k == id@) by {
            if now.contains(k) {
                let j = choose|j: int| 0 <= j < now.len() && now[j] == k;
                if j < pre.len() {
                    assert(pre[j] == k);
                }
            }
            if pre.contains(k) {
                let j = choose|j: int| 0 <= j < pre.len() && pre[j] == k;
                assert(now[j] == k);
            }
            if k == id@ {
                assert(now[i as int] == k);
            }
        }
        let ws = concat2("ws-", id);
        let rec = MirrorRecord::new(id, w, Some(ws.clone()));
        let ghost mb = mirrors@;
        crate::assoc::set(mirrors, owned(id), rec);
        assert forall|k: Seq<char>| #[trigger]
            mlookup(mirrors@, k) == if now.contains(k) {
                Some((k, w@, Some(workspace_for(k))))
            } else {
                mlookup(m0, k)
            } by {
            if k == id@ {
                assert(mlookup(mirrors@, k) == Some(mview(rec)));
            } else {
                assert(mlookup(mirrors@, k) == mlookup(mb, k));
            }
        }
        let ghost cb = connections@;
        let action = connection_action(crate::assoc::get(connections, id));
        let reuse = str_eq(action, "reuse");
        proof {
            reveal_strlit("reuse");
            reveal_strlit("start");
            reveal_strlit("replace");
            assert("start"@ != "reuse"@) by {
                assert("start"@[0] != "reuse"@[0]);
            }
            assert("replace"@ != "reuse"@) by {
                assert("replace"@[2] != "reuse"@[2]);
            }
            assert(reuse == (lookup(cb, id@) is Some && !lookup(cb, id@).unwrap().exited));
        }
        if !reuse {
            let mut c = ConnectionRecord::started(id);
            c.snapshot_received = true;
            let ghost cv = c;
            crate::assoc::set(connections, owned(id), c);
            assert(lookup(connections@, id@) == Some(cv));
            assert(fresh_connection(cv, id@));
        }
        proof {
            assert forall|k: Seq<char>|
                #![trigger lookup(connections@, k)]
                (if now.contains(k) && needs_start(c0, k) {
                    lookup(connections@, k) is Some && fresh_connection(
                        lookup(connections@, k).unwrap(),
                        k,
                    )
                } else {
                    lookup(connections@, k) == lookup(c0, k)
                }) by {
                if k != id@ {
                    assert(lookup(connections@, k) == lookup(cb, k));
                    assert(now.contains(k) == pre.contains(k));
                } else {
                    if pre.contains(k) {
                        assert(lookup(cb, k) == if needs_start(c0, k) {
                            lookup(cb, k)
                        } else {
                            lookup(c0, k)
                        });
                    }
                }
            }
        }
        let ghost o0 = strings_view(out@);
        out.push(ws);
        assert(strings_view(out@) =~= o0.push(workspace_for(id@)));
        assert(now.map_values(|id: Seq<char>| workspace_for(id)) =~= pre.map_values(
            |id: Seq<char>| workspace_for(id),
        ).push(workspace_for(id@)));
        i += 1;
    }
    assert(iv.take(ids.len() as int) =~= iv);
    out
}

/// What the controller records.
#[derive(Debug)]
pub enum LifecycleEvent {
    AttachReject { reason: Option<String>, endpoint_hash: String },
    AttachOk { outcome: String, endpoint_hash: String, session_count: usize },
    Detach { session_id: String, reason: String },
    RestoreRefused { outcome: String, reason: Option<String> },
    Restored { outcome: String },
}

/// The controller's answer to one request.
#[derive(Debug)]
pub enum LifecycleReply {
    /// Nothing was attached, with the outcome and (possibly absent) reason.
    Refused { outcome: String, reason: Option<String> },
    /// Sessions are mirrored; `reattached` marks a restore.
    Attached {
        outcome: String,
        window_id: Option<String>,
        workspace_ids: Vec<String>,
        post_attach: Option<String>,
        server_stopped: bool,
        reattached: bool,
    },
    /// A session was detached (the provider keeps running).
    Detached { session: String, reason: String },
    /// A host close: the number of sessions detached, or `None` for no-op.
    HostClosed { detached: Option<usize> },
    /// Nothing was persisted to restore.
    NoPersist,
}

/// Attach, detach and restore of mirrored sessions for one host.
#[derive(Debug)]
pub struct LifecycleController {
    pub enabled: bool,
    pub app_ready: bool,
    pub registry: AttachRegistry,
    /// Mirror records by session id (keys distinct).
    pub mirrors: Vec<(String, MirrorRecord)>,
    /// Connections by session id (keys distinct).
    pub connections: Vec<(String, ConnectionRecord)>,
    pub live_windows: Vec<String>,
    pub active_window_id: Option<String>,
    pub persist: Option<RestoreRecord>,
    pub events: Vec<LifecycleEvent>,
    /// Number of windows this controller has created.
    pub window_seq: u64,
    pub server_stopped: bool,
}

pub open spec fn reply_refused(r: LifecycleReply, outcome: Seq<char>, reason: Option<Seq<char>>) -> bool {
    r matches LifecycleReply::Refused { outcome: o, reason: why } && o@ == outcome && opt_view(why)
        == reason
}

pub open spec fn reject_event(e: LifecycleEvent, reason: Option<Seq<char>>, hashed: Seq<char>) -> bool {
    e matches LifecycleEvent::AttachReject { reason: why, endpoint_hash: h } && opt_view(why)
        == reason && h@ == hashed
}

/// The plan an attach follows once it has started: dead mirrors dropped,
/// reusable connections known.
pub open spec fn started_plan(
    s: LifecycleController,
    sessions: Seq<DiscoveredSession>,
    target: (Seq<char>, Option<Seq<char>>),
    activate: bool,
) -> PlanView {
    let retained = live_entries(s.mirrors@);
    let live = strings_view(s.live_windows@);
    plan_attach_spec(
        target.0,
        target.1,
        s.enabled,
        s.app_ready,
        false,
        first_live_window(values_sorted(retained), live),
        opt_view(s.active_window_id),
        live,
        Some(sessions),
        Some(values_sorted(retained)),
        Some(cacheable_ids(s.connections@)),
        activate,
        None,
    )
}

pub open spec fn plan_refused(p: PlanView) -> bool {
    p.outcome == "no_sessions"@ || p.outcome == "invalid_target"@ || p.outcome == "failed_empty"@
}

/// The id of the next window the controller creates.
pub open spec fn created_window(s: LifecycleController) -> Seq<char> {
    "win-new-"@ + crate::text::dec_nat((s.window_seq + 1) as nat)
}

pub open spec fn attach_window(s: LifecycleController, p: PlanView) -> Option<Seq<char>> {
    if p.create_window {
        Some(created_window(s))
    } else {
        p.window_id
    }
}

pub open spec fn or_active(w: Option<Seq<char>>) -> Seq<char> {
    match w {
        Some(x) => x,
        None => "win-active"@,
    }
}

/// The workspaces an attach reports: those of reused sessions with a live
/// mirror, then one new workspace per mirrored session.
pub open spec fn attach_workspaces(s: LifecycleController, p: PlanView) -> Seq<Seq<char>> {
    reuse_workspaces(live_entries(s.mirrors@), p.sessions_to_reuse) + p.sessions_to_mirror.map_values(
        |id: Seq<char>| workspace_for(id),
    )
}

/// Mirrors after an attach went ahead: the new sessions in the attach
/// window; the surviving mirrors moved to a newly created window.
pub open spec fn mirrors_after(s: LifecycleController, p: PlanView, k: Seq<char>) -> Option<
    (Seq<char>, Seq<char>, Option<Seq<char>>),
> {
    if p.sessions_to_mirror.contains(k) {
        Some((k, or_active(attach_window(s, p)), Some(workspace_for(k))))
    } else {
        match lookup(live_entries(s.mirrors@), k) {
            Some(r) => Some(
                (
                    r.session_id@,
                    if p.create_window {
                        created_window(s)
                    } else {
                        r.window_id@
                    },
                    opt_view(r.workspace_id),
                ),
            ),
            None => None,
        }
    }
}

/// Connections after an attach went ahead: a fresh connection for every
/// mirrored session whose connection was missing or had exited.
pub open spec fn connections_after(
    s0: LifecycleController,
    s1: LifecycleController,
    p: PlanView,
) -> bool {
    forall|k: Seq<char>|
        #![trigger lookup(s1.connections@, k)]
        if p.sessions_to_mirror.contains(k) && needs_start(s0.connections@, k) {
            lookup(s1.connections@, k) is Some && fresh_connection(
                lookup(s1.connections@, k).unwrap(),
                k,
            )
        } else {
            lookup(s1.connections@, k) == lookup(s0.connections@, k)
        }
}

/// Everything an attach does once started (see [`LifecycleController::attach`]).
pub open spec fn started_effect(
    s0: LifecycleController,
    s1: LifecycleController,
    ev: Seq<LifecycleEvent>,
    socket: Seq<char>,
    sessions: Seq<DiscoveredSession>,
    target: (Seq<char>, Option<Seq<char>>),
    activate: bool,
    hashed: Seq<char>,
    r: LifecycleReply,
    reattach: bool,
) -> bool {
    let p = started_plan(s0, sessions, target, activate);
    let w = attach_window(s0, p);
    let wss = attach_workspaces(s0, p);
    &&& s1.enabled == s0.enabled && s1.app_ready == s0.app_ready
    &&& s1.server_stopped == s0.server_stopped
    &&& ev.len() == s0.events@.len() + 1
    &&& ev.take(s0.events@.len() as int) == s0.events@
    &&& if plan_refused(p) {
        &&& reply_refused(r, p.outcome, p.reason)
        &&& reject_event(ev.last(), p.reason, hashed)
        &&& s1.mirrors@ == live_entries(s0.mirrors@)
        &&& s1.connections == s0.connections
        &&& s1.live_windows == s0.live_windows
        &&& s1.active_window_id == s0.active_window_id
        &&& s1.persist == s0.persist
        &&& s1.window_seq == s0.window_seq
    } else {
        &&& forall|k: Seq<char>| #[trigger] mlookup(s1.mirrors@, k) == mirrors_after(s0, p, k)
        &&& connections_after(s0, s1, p)
        &&& s1.window_seq == if p.create_window {
            s0.window_seq + 1
        } else {
            s0.window_seq as int
        }
        &&& if wss.len() == 0 {
            &&& reply_refused(r, "failed_empty"@, Some("no_workspaces"@))
            &&& reject_event(ev.last(), Some("no_workspaces"@), hashed)
            &&& strings_view(s1.live_windows@) == if p.create_window {
                crate::session::without(
                    strings_view(s0.live_windows@).push(created_window(s0)),
                    created_window(s0),
                )
            } else {
                strings_view(s0.live_windows@)
            }
            &&& s1.active_window_id == s0.active_window_id
            &&& s1.persist == s0.persist
        } else {
            &&& r matches LifecycleReply::Attached {
                outcome,
                window_id,
                workspace_ids,
                post_attach,
                server_stopped,
                reattached,
            } && outcome@ == p.outcome && opt_view(window_id) == w && strings_view(workspace_ids@)
                == wss && opt_view(post_attach) == (if reattach {
                Some("reseed"@)
            } else {
                p.post_attach
            }) && server_stopped == s0.server_stopped && reattached == reattach
            &&& ev.last() matches LifecycleEvent::AttachOk {
                outcome,
                endpoint_hash,
                session_count,
            } && outcome@ == p.outcome && endpoint_hash@ == hashed && session_count == wss.len()
            &&& strings_view(s1.live_windows@) == if p.create_window {
                strings_view(s0.live_windows@).push(created_window(s0))
            } else {
                strings_view(s0.live_windows@)
            }
            &&& s1.persist matches Some(rec) && rec.endpoint_hash@ == hashed && rec.socket_path@
                == socket && strings_view(rec.session_ids@) == session_ids(sessions)
                && rec.target_kind@ == target.0 && opt_view(rec.window_id) == w
            &&& opt_view(s1.active_window_id) == if activate && w is Some {
                w
            } else {
                opt_view(s0.active_window_id)
            }
        }
    }
}

impl LifecycleController {
    pub open spec fn wf(&self) -> bool {
        &&& self.registry.wf()
        &&& unique(self.mirrors@)
        &&& unique(self.connections@)
    }

    /// A controller with the one live window `win-active`, which is active.
    pub fn new(enabled: bool, app_ready: bool) -> (r: Self)
        ensures
            r.wf(),
            r.enabled == enabled,
            r.app_ready == app_ready,
            forall|e: Seq<char>| !r.registry.pending_for(e),
            r.mirrors@.len() == 0,
            r.connections@.len() == 0,
            strings_view(r.live_windows@) == seq!["win-active"@],
            opt_view(r.active_window_id) == Some("win-active"@),
            r.persist is None,
            r.events@.len() == 0,
            r.window_seq == 0,
            !r.server_stopped,
    {
        let mut live: Vec<String> = Vec::new();
        live.push(owned("win-active"));
        assert(strings_view(live@) =~= seq!["win-active"@]);
        LifecycleController {
            enabled,
            app_ready,
            registry: AttachRegistry::new(),
            mirrors: Vec::new(),
            connections: Vec::new(),
            live_windows: live,
            active_window_id: Some(owned("win-active")),
            persist: None,
            events: Vec::new(),
            window_seq: 0,
            server_stopped: false,
        }
    }

    fn log(&mut self, e: LifecycleEvent)
        ensures
            final(self).events@ == old(self).events@.push(e),
            final(self).enabled == old(self).enabled,
            final(self).app_ready == old(self).app_ready,
            final(self).registry == old(self).registry,
            final(self).mirrors == old(self).mirrors,
            final(self).connections == old(self).connections,
            final(self).live_windows == old(self).live_windows,
            final(self).active_window_id == old(self).active_window_id,
            final(self).persist == old(self).persist,
            final(self).window_seq == old(self).window_seq,
            final(self).server_stopped == old(self).server_stopped,
    {
        self.events.push(e);
    }
}

fn opt_as_str(o: &Option<String>) -> (r: Option<&str>)
    ensures
        opt_str_view(r) == opt_view(*o),
{
    match o {
        Some(x) => Some(x.as_str()),
        None => None,
    }
}

proof fn lemma_reuse_same(a: Seq<(String, MirrorRecord)>, b: Seq<(String, MirrorRecord)>, ids: Seq<Seq<char>>)
    requires
        a.len() == b.len(),
        forall|i: int| 0 <= i < a.len() ==> (#[trigger] b[i]).0 == a[i].0 && b[i].1.workspace_id
            == a[i].1.workspace_id,
    ensures
        reuse_workspaces(a, ids) == reuse_workspaces(b, ids),
    decreases ids.len(),
{
    if ids.len() > 0 {
        lemma_reuse_same(a, b, ids.drop_last());
        lemma_lookup_pointwise(a, b, ids.last());
    }
}

proof fn lemma_unique_pointwise(a: Seq<(String, MirrorRecord)>, b: Seq<(String, MirrorRecord)>)
    requires
        unique(a),
        a.len() == b.len(),
        forall|i: int| 0 <= i < a.len() ==> (#[trigger] b[i]).0 == a[i].0,
    ensures
        unique(b),
{
    assert forall|i: int, j: int| 0 <= i < b.len() && 0 <= j < b.len() && i != j implies b[i].0@
        != b[j].0@ by {
        assert(b[i].0 == a[i].0 && b[j].0 == a[j].0);
    }
}

impl LifecycleController {
    fn attach_started(
        &mut self,
        socket_path: &str,
        sessions: &Vec<DiscoveredSession>,
        target: &AttachWindowTarget,
        activate: bool,
        hashed: &str,
        reattach: bool,
    ) -> (r: LifecycleReply)
        requires
            old(self).wf(),
            old(self).window_seq < u64::MAX,
        ensures
            final(self).wf(),
            final(self).registry == old(self).registry,
            started_effect(
                *old(self),
                *final(self),
                final(self).events@,
                socket_path@,
                sessions@,
                (target.kind@, opt_view(target.window_id)),
                activate,
                hashed@,
                r,
                reattach,
            ),
    {
        let ghost s0 = *self;
        retain_live(&mut self.mirrors);
        let ghost retained = self.mirrors@;
        let live_ids = cacheable_ids_exec(&self.connections);
        let records = mirrors_sorted(&self.mirrors);
        let existing = existing_mirror_window(&records, &self.live_windows);
        let plan = plan_attach(
            target,
            self.enabled,
            self.app_ready,
            false,
            opt_as_str(&existing),
            opt_as_str(&self.active_window_id),
            &self.live_windows,
            Some(sessions),
            Some(&records),
            Some(&live_ids),
            activate,
            None,
        );
        assert(plan@ == started_plan(s0, sessions@, (target.kind@, opt_view(target.window_id)), activate));
        let o = plan.outcome.as_str();
        if str_eq(o, "no_sessions") || str_eq(o, "invalid_target") || str_eq(o, "failed_empty") {
            let reason = clone_window(&plan.reason);
            self.log(
                LifecycleEvent::AttachReject {
                    reason: clone_window(&plan.reason),
                    endpoint_hash: owned(hashed),
                },
            );
            assert(self.events@.take(s0.events@.len() as int) =~= s0.events@);
            return LifecycleReply::Refused { outcome: plan.outcome, reason };
        }
        let mut window_id = clone_window(&plan.window_id);
        if plan.create_window {
            self.window_seq = self.window_seq + 1;
            let num = crate::text::nat_to_string(self.window_seq);
            let created = concat2("win-new-", num.as_str());
            window_id = Some(created.clone());
            let ghost l0 = strings_view(self.live_windows@);
            self.live_windows.push(created.clone());
            assert(strings_view(self.live_windows@) =~= l0.push(created@));
            rebind_windows(&mut self.mirrors, created.as_str());
        }
        let ghost rebound = self.mirrors@;
        proof {
            if plan.create_window {
                lemma_unique_pointwise(retained, rebound);
                lemma_reuse_same(retained, rebound, plan@.sessions_to_reuse);
            }
        }
        assert(opt_view(window_id) == attach_window(s0, plan@));
        let mut ws_ids = reuse_workspaces_exec(&self.mirrors, &plan.sessions_to_reuse);
        let w: &str = match &window_id {
            Some(x) => x.as_str(),
            None => "win-active",
        };
        assert(w@ == or_active(attach_window(s0, plan@)));
        let ghost cb = self.connections@;
        let fresh = mirror_sessions(&mut self.mirrors, &mut self.connections, &plan.sessions_to_mirror, w);
        proof {
            assert forall|k: Seq<char>| #[trigger] mlookup(self.mirrors@, k) == mirrors_after(s0, plan@, k) by {
                if !plan@.sessions_to_mirror.contains(k) {
                    if plan.create_window {
                        lemma_lookup_pointwise(retained, rebound, k);
                    }
                }
            }
        }
        let ghost head = strings_view(ws_ids@);
        let mut j: usize = 0;
        while j < fresh.len()
            invariant
                j <= fresh.len(),
                strings_view(ws_ids@) == head + strings_view(fresh@).take(j as int),
            decreases fresh.len() - j,
        {
            let ghost o0 = strings_view(ws_ids@);
            ws_ids.push(fresh[j].clone());
            assert(strings_view(ws_ids@) =~= o0.push(fresh@[j as int]@));
            assert(strings_view(fresh@).take(j + 1) =~= strings_view(fresh@).take(j as int).push(
                fresh@[j as int]@,
            ));
            j += 1;
        }
        assert(strings_view(fresh@).take(fresh.len() as int) =~= strings_view(fresh@));
        assert(strings_view(ws_ids@) == attach_workspaces(s0, plan@));
        if ws_ids.len() == 0 {
            if plan.create_window {
                match &window_id {
                    Some(x) => {
                        self.live_windows = crate::session::remove_all(&self.live_windows, x.as_str());
                    },
                    None => {},
                }
            }
            self.log(
                LifecycleEvent::AttachReject {
                    reason: Some(owned("no_workspaces")),
                    endpoint_hash: owned(hashed),
                },
            );
            assert(self.events@.take(s0.events@.len() as int) =~= s0.events@);
            return LifecycleReply::Refused {
                outcome: owned("failed_empty"),
                reason: Some(owned("no_workspaces")),
            };
        }
        let ids = all_session_ids(sessions);
        self.persist = Some(
            RestoreRecord::new(
                hashed,
                socket_path,
                ids,
                target.kind.as_str(),
                clone_window(&window_id),
            ),
        );
        if activate && window_id.is_some() {
            self.active_window_id = clone_window(&window_id);
        }
        let count = ws_ids.len();
        self.log(
            LifecycleEvent::AttachOk {
                outcome: plan.outcome.clone(),
                endpoint_hash: owned(hashed),
                session_count: count,
            },
        );
        assert(self.events@.take(s0.events@.len() as int) =~= s0.events@);
        LifecycleReply::Attached {
            outcome: plan.outcome,
            window_id,
            workspace_ids: ws_ids,
            post_attach: if reattach {
                Some(owned("reseed"))
            } else {
                plan.post_attach
            },
            server_stopped: self.server_stopped,
            reattached: reattach,
        }
    }
}

/// The endpoint hash of a socket path (see [`endpoint_hash`]).
pub open spec fn hash_of(socket: Seq<char>) -> Seq<char> {
    hex(sha256(vstd::utf8::encode_utf8(socket))).take(16)
}

/// The checks an attach makes before discovery, against the current mirrors.
pub open spec fn preflight(
    s: LifecycleController,
    target: (Seq<char>, Option<Seq<char>>),
    activate: bool,
    hashed: Seq<char>,
) -> PlanView {
    let live = strings_view(s.live_windows@);
    plan_attach_spec(
        target.0,
        target.1,
        s.enabled,
        s.app_ready,
        s.registry.pending_for(hashed),
        first_live_window(values_sorted(s.mirrors@), live),
        opt_view(s.active_window_id),
        live,
        None,
        None,
        None,
        activate,
        None,
    )
}

/// `s1` is `s0` but for its event log.
pub open spec fn same_but_events(s0: LifecycleController, s1: LifecycleController) -> bool {
    &&& s1.enabled == s0.enabled
    &&& s1.app_ready == s0.app_ready
    &&& s1.registry == s0.registry
    &&& s1.mirrors == s0.mirrors
    &&& s1.connections == s0.connections
    &&& s1.live_windows == s0.live_windows
    &&& s1.active_window_id == s0.active_window_id
    &&& s1.persist == s0.persist
    &&& s1.window_seq == s0.window_seq
    &&& s1.server_stopped == s0.server_stopped
}

/// `ev` is the log `log` with one more event.
pub open spec fn logged_one(log: Seq<LifecycleEvent>, ev: Seq<LifecycleEvent>) -> bool {
    ev.len() == log.len() + 1 && ev.take(log.len() as int) == log
}

/// Everything an attach does: a refused preflight only logs the refusal;
/// otherwise the attach runs (see [`started_effect`]) and leaves no
/// attach pending.
pub open spec fn attach_effect(
    s0: LifecycleController,
    s1: LifecycleController,
    ev: Seq<LifecycleEvent>,
    socket: Seq<char>,
    sessions: Seq<DiscoveredSession>,
    target: (Seq<char>, Option<Seq<char>>),
    activate: bool,
    r: LifecycleReply,
    reattach: bool,
) -> bool {
    let hashed = hash_of(socket);
    let pre = preflight(s0, target, activate, hashed);
    if pre.outcome != "discover"@ {
        &&& reply_refused(r, pre.outcome, pre.reason)
        &&& logged_one(s0.events@, ev)
        &&& reject_event(ev.last(), pre.reason, hashed)
        &&& same_but_events(s0, s1)
    } else {
        &&& forall|e: Seq<char>| #[trigger] s1.registry.pending_for(e) == s0.registry.pending_for(e)
        &&& started_effect(s0, s1, ev, socket, sessions, target, activate, hashed, r, reattach)
    }
}

/// Everything a detach does: refused while disabled; otherwise the mirror
/// and the connection of the session are dropped and the detach is logged.
pub open spec fn detach_effect(
    s0: LifecycleController,
    s1: LifecycleController,
    session: Seq<char>,
    reason: Seq<char>,
    r: LifecycleReply,
) -> bool {
    if !s0.enabled {
        reply_refused(r, "disabled"@, Some("beta_disabled"@)) && s1 == s0
    } else {
        &&& r matches LifecycleReply::Detached { session: sid, reason: why } && sid@ == session
            && why@ == reason
        &&& forall|q: Seq<char>| #[trigger]
            lookup(s1.mirrors@, q) == if q == session {
                None
            } else {
                lookup(s0.mirrors@, q)
            }
        &&& forall|q: Seq<char>| #[trigger]
            lookup(s1.connections@, q) == if q == session {
                None
            } else {
                lookup(s0.connections@, q)
            }
        &&& logged_one(s0.events@, s1.events@)
        &&& s1.events@.last() matches LifecycleEvent::Detach { session_id, reason: why }
            && session_id@ == session && why@ == reason
        &&& s1.enabled == s0.enabled && s1.app_ready == s0.app_ready && s1.registry == s0.registry
        &&& s1.live_windows == s0.live_windows && s1.active_window_id == s0.active_window_id
        &&& s1.persist == s0.persist && s1.window_seq == s0.window_seq
        &&& s1.server_stopped == s0.server_stopped
    }
}

/// The outcome a reply reports.
pub open spec fn reply_outcome(r: LifecycleReply) -> Seq<char> {
    match r {
        LifecycleReply::Refused { outcome, .. } => outcome@,
        LifecycleReply::Attached { outcome, .. } => outcome@,
        _ => Seq::empty(),
    }
}

/// Everything a restore does: nothing without a persisted record; a refused
/// restore plan is logged and answered; otherwise the recorded endpoint is
/// attached again, activating, as a reattach, and the outcome is logged.
pub open spec fn restore_effect(
    s0: LifecycleController,
    s1: LifecycleController,
    sessions: Seq<DiscoveredSession>,
    r: LifecycleReply,
) -> bool {
    match s0.persist {
        None => r is NoPersist && s1 == s0,
        Some(rec) => {
            let live = strings_view(s0.live_windows@);
            let plan = plan_restore_spec(
                opt_view(rec.window_id),
                rec.target_kind@,
                s0.enabled,
                s0.app_ready,
                sessions,
                live,
                opt_view(s0.active_window_id),
            );
            if !(plan.outcome == "mirrored"@ || plan.outcome == "reused"@) {
                &&& reply_refused(r, plan.outcome, plan.reason)
                &&& logged_one(s0.events@, s1.events@)
                &&& s1.events@.last() matches LifecycleEvent::RestoreRefused { outcome, reason }
                    && outcome@ == plan.outcome && opt_view(reason) == plan.reason
                &&& same_but_events(s0, s1)
            } else {
                &&& s1.events@.len() > 0
                &&& attach_effect(
                    s0,
                    s1,
                    s1.events@.drop_last(),
                    rec.socket_path@,
                    sessions,
                    restore_target(opt_view(rec.window_id), rec.target_kind@, live),
                    true,
                    r,
                    true,
                )
                &&& s1.events@.last() matches LifecycleEvent::Restored { outcome } && outcome@
                    == reply_outcome(r)
            }
        },
    }
}

impl LifecycleController {
    /// Attach the discovered `sessions` of the endpoint at `socket_path`.
    pub fn attach(
        &mut self,
        socket_path: &str,
        sessions: &Vec<DiscoveredSession>,
        target: &AttachWindowTarget,
        activate: bool,
    ) -> (r: LifecycleReply)
        requires
            old(self).wf(),
            old(self).window_seq < u64::MAX,
        ensures
            final(self).wf(),
            attach_effect(
                *old(self),
                *final(self),
                final(self).events@,
                socket_path@,
                sessions@,
                (target.kind@, opt_view(target.window_id)),
                activate,
                r,
                false,
            ),
    {
        self.attach_with(socket_path, sessions, target, activate, false)
    }

    fn attach_with(
        &mut self,
        socket_path: &str,
        sessions: &Vec<DiscoveredSession>,
        target: &AttachWindowTarget,
        activate: bool,
        reattach: bool,
    ) -> (r: LifecycleReply)
        requires
            old(self).wf(),
            old(self).window_seq < u64::MAX,
        ensures
            final(self).wf(),
            attach_effect(
                *old(self),
                *final(self),
                final(self).events@,
                socket_path@,
                sessions@,
                (target.kind@, opt_view(target.window_id)),
                activate,
                r,
                reattach,
            ),
    {
        let ghost s0 = *self;
        let hashed = endpoint_hash(socket_path);
        let records = mirrors_sorted(&self.mirrors);
        let existing = existing_mirror_window(&records, &self.live_windows);
        let attaching = self.registry.is_attaching(hashed.as_str());
        let pre = plan_attach(
            target,
            self.enabled,
            self.app_ready,
            attaching,
            opt_as_str(&existing),
            opt_as_str(&self.active_window_id),
            &self.live_windows,
            None,
            None,
            None,
            activate,
            None,
        );
        assert(pre@ == preflight(s0, (target.kind@, opt_view(target.window_id)), activate, hashed@));
        if !str_eq(pre.outcome.as_str(), "discover") {
            let reason = clone_window(&pre.reason);
            self.log(LifecycleEvent::AttachReject { reason: clone_window(&pre.reason), endpoint_hash: hashed });
            assert(self.events@.take(s0.events@.len() as int) =~= s0.events@);
            return LifecycleReply::Refused { outcome: pre.outcome, reason };
        }
        proof {
            reveal_strlit("discover");
            reveal_strlit("disabled");
            reveal_strlit("unreachable");
            reveal_strlit("already_attaching");
            reveal_strlit("invalid_target");
            assert("discover"@[3] != "disabled"@[3]);
            assert("discover"@[0] != "unreachable"@[0]);
            assert("discover"@[0] != "already_attaching"@[0]);
            assert("discover"@[0] != "invalid_target"@[0]);
            assert(!attaching);
        }
        if !self.registry.begin_attach(hashed.as_str()) {
            self.log(
                LifecycleEvent::AttachReject {
                    reason: Some(owned("reentrant")),
                    endpoint_hash: hashed,
                },
            );
            return LifecycleReply::Refused {
                outcome: owned("already_attaching"),
                reason: Some(owned("reentrant")),
            };
        }
        let ghost s1 = *self;
        let r = self.attach_started(socket_path, sessions, target, activate, hashed.as_str(), reattach);
        proof {
            let t = (target.kind@, opt_view(target.window_id));
            assert(started_plan(s1, sessions@, t, activate) == started_plan(s0, sessions@, t, activate));
            assert(created_window(s1) == created_window(s0));
        }
        self.registry.end_attach(hashed.as_str());
        r
    }

    /// Stop mirroring `session_id`. The provider keeps running.
    pub fn detach(&mut self, session_id: &str, reason: &str) -> (r: LifecycleReply)
        requires
            old(self).wf(),
        ensures
            final(self).wf(),
            detach_effect(*old(self), *final(self), session_id@, reason@, r),
    {
        if !self.enabled {
            return LifecycleReply::Refused {
                outcome: owned("disabled"),
                reason: Some(owned("beta_disabled")),
            };
        }
        let ghost s0 = *self;
        let _ = crate::assoc::remove(&mut self.mirrors, session_id);
        let _ = crate::assoc::remove(&mut self.connections, session_id);
        self.log(LifecycleEvent::Detach { session_id: owned(session_id), reason: owned(reason) });
        assert(self.events@.take(s0.events@.len() as int) =~= s0.events@);
        LifecycleReply::Detached { session: owned(session_id), reason: owned(reason) }
    }
}

/// Every key of a map appears among its sorted keys.
proof fn lemma_keys_sorted_complete<V>(m: Seq<(String, V)>, q: Seq<char>)
    requires
        has_key(m, q),
    ensures
        keys_sorted(m).contains(q),
{
    let base = Seq::new(m.len(), |i: int| (0int, m[i].0@, i));
    lemma_sorted_positions(base, m.len() as int);
    let leq = |x: (int, Seq<char>, int), y: (int, Seq<char>, int)| key_le(x, y);
    crate::order::lemma_key_le_total_ordering();
    base.lemma_sort_by_ensures(leq);
    broadcast use vstd::seq_lib::group_to_multiset_ensures;
    let j = choose|j: int| 0 <= j < m.len() && m[j].0@ == q;
    let s = by_keys(base);
    assert(base.contains(base[j]));
    assert(base.to_multiset().count(base[j]) > 0);
    assert(s.to_multiset().count(base[j]) > 0);
    assert(s.contains(base[j]));
    let i = choose|i: int| 0 <= i < s.len() && s[i] == base[j];
    assert(key_order(m)[i] == s[i]);
    assert(keys_sorted(m)[i] == q);
}

/// `e` logs the explicit detach of `session`.
pub open spec fn detach_event(e: LifecycleEvent, session: Seq<char>) -> bool {
    e matches LifecycleEvent::Detach { session_id, reason } && session_id@ == session && reason@
        == "explicit_detach"@
}

/// Everything a host close does: a non-detaching source changes nothing;
/// otherwise every mirrored session is detached, in session order.
pub open spec fn close_effect(
    s0: LifecycleController,
    s1: LifecycleController,
    source: Seq<char>,
    r: LifecycleReply,
) -> bool {
    let ks = keys_sorted(s0.mirrors@);
    let n0 = s0.events@.len();
    if !detaching_source(source) {
        r matches LifecycleReply::HostClosed { detached: None } && s1 == s0
    } else {
        &&& r matches LifecycleReply::HostClosed { detached: Some(n) } && n == s0.mirrors@.len()
        &&& if !s0.enabled {
            s1 == s0
        } else {
            &&& forall|q: Seq<char>| #[trigger] lookup(s1.mirrors@, q) is None
            &&& forall|q: Seq<char>| #[trigger]
                lookup(s1.connections@, q) == if ks.contains(q) {
                    None
                } else {
                    lookup(s0.connections@, q)
                }
            &&& s1.events@.len() == n0 + ks.len()
            &&& s1.events@.take(n0 as int) == s0.events@
            &&& forall|i: int|
                0 <= i < ks.len() ==> detach_event(#[trigger] s1.events@[n0 + i], ks[i])
            &&& s1.enabled == s0.enabled && s1.app_ready == s0.app_ready && s1.registry
                == s0.registry
            &&& s1.live_windows == s0.live_windows && s1.active_window_id == s0.active_window_id
            &&& s1.persist == s0.persist && s1.window_seq == s0.window_seq
            &&& s1.server_stopped == s0.server_stopped
        }
    }
}

impl LifecycleController {
    /// Apply the host-close policy for `source`: detach every mirrored
    /// session, or do nothing. The provider is never stopped.
    pub fn close_host(&mut self, source: &str) -> (r: LifecycleReply)
        requires
            old(self).wf(),
        ensures
            final(self).wf(),
            close_effect(*old(self), *final(self), source@, r),
    {
        if !str_eq(host_close_policy(source), "detach") {
            proof {
                reveal_strlit("detach");
                reveal_strlit("noop");
                assert("detach"@[0] != "noop"@[0]);
            }
            return LifecycleReply::HostClosed { detached: None };
        }
        proof {
            reveal_strlit("detach");
            reveal_strlit("noop");
            assert("detach"@[0] != "noop"@[0]);
        }
        let ghost s0 = *self;
        let ghost n0 = s0.events@.len();
        let keys = keys_in_order(&self.mirrors);
        let ghost ks = strings_view(keys@);
        assert(ks.len() == s0.mirrors@.len());
        let mut i: usize = 0;
        while i < keys.len()
            invariant
                i <= keys.len(),
                ks == strings_view(keys@),
                ks == keys_sorted(s0.mirrors@),
                ks.len() == s0.mirrors@.len(),
                self.wf(),
                n0 == s0.events@.len(),
                !s0.enabled ==> *self == s0,
                s0.enabled ==> {
                    &&& forall|q: Seq<char>| #[trigger]
                        lookup(self.mirrors@, q) == if ks.take(i as int).contains(q) {
                            None
                        } else {
                            lookup(s0.mirrors@, q)
                        }
                    &&& forall|q: Seq<char>| #[trigger]
                        lookup(self.connections@, q) == if ks.take(i as int).contains(q) {
                            None
                        } else {
                            lookup(s0.connections@, q)
                        }
                    &&& self.events@.len() == n0 + i
                    &&& self.events@.take(n0 as int) == s0.events@
                    &&& forall|j: int|
                        0 <= j < i ==> detach_event(#[trigger] self.events@[n0 + j], ks[j])
                    &&& self.enabled == s0.enabled && self.app_ready == s0.app_ready
                        && self.registry == s0.registry
                    &&& self.live_windows == s0.live_windows && self.active_window_id
                        == s0.active_window_id
                    &&& self.persist == s0.persist && self.window_seq == s0.window_seq
                    &&& self.server_stopped == s0.server_stopped
                },
            decreases keys.len() - i,
        {
            let ghost before = *self;
            let _ = self.detach(keys[i].as_str(), "explicit_detach");
            proof {
                if s0.enabled {
                    assert(keys@[i as int]@ == ks[i as int]);
                    assert forall|q: Seq<char>|
                        #[trigger] ks.take(i + 1).contains(q) == (ks.take(i as int).contains(q) || q
                            == ks[i as int]) by {
                        if ks.take(i as int).contains(q) {
                            let k = choose|k: int| 0 <= k < i && #[trigger] ks.take(i as int)[k] == q;
                            assert(ks.take(i + 1)[k] == q);
                        }
                        if q == ks[i as int] {
                            assert(ks.take(i + 1)[i as int] == q);
                        }
                        if ks.take(i + 1).contains(q) {
                            let k = choose|k: int| 0 <= k < i + 1 && #[trigger] ks.take(i + 1)[k] == q;
                            if k < i {
                                assert(ks.take(i as int)[k] == q);
                            }
                        }
                    }
                    assert(self.events@[n0 + i] == self.events@.last());
                    assert forall|j: int| 0 <= j < i implies #[trigger] self.events@[n0 + j] == before.events@[n0 + j] by {
                        assert(self.events@.take(before.events@.len() as int) == before.events@);
                    }
                    assert(self.events@.take(n0 as int) =~= s0.events@) by {
                        assert(self.events@.take(before.events@.len() as int) == before.events@);
                    }
                }
            }
            i += 1;
        }
        proof {
            if s0.enabled {
                assert(ks.take(ks.len() as int) =~= ks);
                assert forall|q: Seq<char>| #[trigger] lookup(self.mirrors@, q) is None by {
                    if !ks.contains(q) {
                        if has_key(s0.mirrors@, q) {
                            lemma_keys_sorted_complete(s0.mirrors@, q);
                        }
                        crate::assoc::lemma_lookup_absent(s0.mirrors@, q);
                    }
                }
            }
        }
        LifecycleReply::HostClosed { detached: Some(keys.len()) }
    }

    /// Restore the persisted attachment intent against freshly discovered
    /// `sessions`.
    pub fn restore(&mut self, sessions: &Vec<DiscoveredSession>) -> (r: LifecycleReply)
        requires
            old(self).wf(),
            old(self).window_seq < u64::MAX,
        ensures
            final(self).wf(),
            restore_effect(*old(self), *final(self), sessions@, r),
    {
        let ghost s0 = *self;
        let (socket, kind, window, plan) = match &self.persist {
            None => {
                return LifecycleReply::NoPersist;
            },
            Some(record) => {
                let plan = plan_restore(
                    record,
                    self.enabled,
                    self.app_ready,
                    sessions,
                    &self.live_windows,
                    opt_as_str(&self.active_window_id),
                );
                (record.socket_path.clone(), record.target_kind.clone(), clone_window(&record.window_id), plan)
            },
        };
        let o = plan.outcome.as_str();
        if !(str_eq(o, "mirrored") || str_eq(o, "reused")) {
            let reason = clone_window(&plan.reason);
            self.log(
                LifecycleEvent::RestoreRefused {
                    outcome: plan.outcome.clone(),
                    reason: clone_window(&plan.reason),
                },
            );
            assert(self.events@.take(s0.events@.len() as int) =~= s0.events@);
            return LifecycleReply::Refused { outcome: plan.outcome, reason };
        }
        let live_window = match &window {
            Some(w) => contains_str(&self.live_windows, w.as_str()),
            None => false,
        };
        let target = if live_window {
            AttachWindowTarget::new("explicit", window)
        } else if str_eq(kind.as_str(), "dedicated_new_window") {
            AttachWindowTarget::new("dedicated_new_window", None)
        } else {
            AttachWindowTarget::new("contextual", None)
        };
        let r = self.attach_with(socket.as_str(), sessions, &target, true, true);
        let ghost mid = self.events@;
        let outcome = match &r {
            LifecycleReply::Refused { outcome, .. } => outcome.clone(),
            LifecycleReply::Attached { outcome, .. } => outcome.clone(),
            _ => String::new(),
        };
        self.log(LifecycleEvent::Restored { outcome });
        assert(self.events@.drop_last() =~= mid);
        r
    }

    /// The live connection of `session_id`, if it is attached.
    pub fn state(&self, session_id: &str) -> (r: Option<&ConnectionRecord>)
        requires
            self.wf(),
        ensures
            match lookup(self.connections@, session_id@) {
                Some(c) => if c.exited {
                    r is None
                } else {
                    r matches Some(x) && *x == c
                },
                None => r is None,
            },
    {
        match crate::assoc::get(&self.connections, session_id) {
            Some(c) => if c.exited {
                None
            } else {
                Some(c)
            },
            None => None,
        }
    }
}

/// Detach and host close never stop the provider: whatever they do, the
/// controller's `server_stopped` flag is unchanged, and so is the
/// attachment intent persisted for restore.
pub proof fn law_teardown_never_stops_provider(
    s0: LifecycleController,
    s1: LifecycleController,
    s2: LifecycleController,
    session: Seq<char>,
    reason: Seq<char>,
    source: Seq<char>,
    r1: LifecycleReply,
    r2: LifecycleReply,
)
    requires
        detach_effect(s0, s1, session, reason, r1),
        close_effect(s1, s2, source, r2),
    ensures
        s2.server_stopped == s0.server_stopped,
        s2.persist == s0.persist,
        !(r1 is Attached) && !(r2 is Attached),
{
}

} // verus!
