//! Host terminal surfaces that mirror provider panes.
use vstd::prelude::*;

use crate::handoff::{join_path, paths_for, restore_paths};
use crate::lifecycle::{endpoint_hash, hash_of, DiscoveredSession};
use crate::model::{Snapshot, Workspace};
use crate::json::{json_get, Json};
use crate::text::strings_view;

use crate::text::owned;

verus! {

/// One host terminal surface showing a provider pane.
#[derive(Debug, Clone, PartialEq, Eq)]
pub struct GhosttySurface {
    pub pane_id: String,
    pub surface_id: String,
    pub buffer: Vec<u8>,
    pub cols: i64,
    pub rows: i64,
    pub first_responder: bool,
    pub live: bool,
    pub in_window: bool,
}

impl GhosttySurface {
    /// A live 80x24 surface with an empty buffer.
    pub fn new(pane_id: &str, surface_id: &str) -> (r: Self)
        ensures
            r.pane_id@ == pane_id@,
            r.surface_id@ == surface_id@,
            r.buffer@.len() == 0,
            r.cols == 80,
            r.rows == 24,
            !r.first_responder,
            r.live,
            r.in_window,
    {
        GhosttySurface {
            pane_id: owned(pane_id),
            surface_id: owned(surface_id),
            buffer: Vec::new(),
            cols: 80,
            rows: 24,
            first_responder: false,
            live: true,
            in_window: true,
        }
    }

    /// Append provider output while the surface is live.
    pub fn process_remote_output(&mut self, data: &[u8])
        ensures
            final(self).buffer@ == (if data@.len() > 0 && old(self).live {
                old(self).buffer@ + data@
            } else {
                old(self).buffer@
            }),
            *final(self) == (GhosttySurface { buffer: final(self).buffer, ..*old(self) }),
    {
        if data.len() > 0 && self.live {
            let ghost b0 = self.buffer@;
            let mut i: usize = 0;
            while i < data.len()
                invariant
                    i <= data.len(),
                    self.buffer@ == b0 + data@.subrange(0, i as int),
                    *self == (GhosttySurface { buffer: self.buffer, ..*old(self) }),
                decreases data.len() - i,
            {
                self.buffer.push(data[i]);
                assert(data@.subrange(0, i + 1) == data@.subrange(0, i as int).push(data@[i as int]));
                i += 1;
            }
            assert(data@.subrange(0, data@.len() as int) =~= data@);
        }
    }

    /// Resize to a grid of at least one cell each way; other sizes are ignored.
    pub fn resize_grid(&mut self, cols: i64, rows: i64)
        ensures
            cols >= 1 && rows >= 1 ==> *final(self) == (GhosttySurface { cols, rows, ..*old(self) }),
            !(cols >= 1 && rows >= 1) ==> *final(self) == *old(self),
    {
        if cols >= 1 && rows >= 1 {
            self.cols = cols;
            self.rows = rows;
        }
    }
}

/// `s` is the session standing for workspace `w`: named by its id (`main`
/// when blank) and its label (its id when blank), with its tab count.
pub open spec fn session_of_workspace(s: DiscoveredSession, w: Workspace) -> bool {
    let id = if w.workspace_id@.len() == 0 {
        "main"@
    } else {
        w.workspace_id@
    };
    &&& s.session_id@ == id
    &&& s.name@ == (if w.label is Some && w.label.unwrap()@.len() > 0 {
        w.label.unwrap()@
    } else {
        id
    })
    &&& s.window_count == w.tab_count
    &&& !s.attached
}

/// The sessions a snapshot offers: one per workspace, or a single `main`
/// session over all tabs when it lists no workspaces.
pub fn sessions_from_snapshot(snapshot: &Snapshot) -> (r: Vec<DiscoveredSession>)
    requires
        snapshot.tabs@.len() <= i64::MAX,
    ensures
        snapshot.workspaces@.len() > 0 ==> r@.len() == snapshot.workspaces@.len() && forall|i: int|
            0 <= i < r@.len() ==> session_of_workspace(#[trigger] r@[i], snapshot.workspaces@[i]),
        snapshot.workspaces@.len() == 0 ==> r@.len() == 1 && r@[0].session_id@ == "main"@ && r@[0].name@
            == "main"@ && r@[0].window_count == snapshot.tabs@.len() && !r@[0].attached,
{
    let mut out: Vec<DiscoveredSession> = Vec::new();
    if snapshot.workspaces.len() > 0 {
        let mut i: usize = 0;
        while i < snapshot.workspaces.len()
            invariant
                i <= snapshot.workspaces.len(),
                out@.len() == i,
                forall|k: int| 0 <= k < i ==> session_of_workspace(#[trigger] out@[k], snapshot.workspaces@[k]),
            decreases snapshot.workspaces.len() - i,
        {
            let w = &snapshot.workspaces[i];
            let id: &str = if w.workspace_id.as_str().is_empty() {
                "main"
            } else {
                w.workspace_id.as_str()
            };
            let name: &str = match &w.label {
                Some(l) => if !l.as_str().is_empty() {
                    l.as_str()
                } else {
                    id
                },
                None => id,
            };
            out.push(DiscoveredSession::new(id, name, w.tab_count, false));
            i += 1;
        }
        return out;
    }
    out.push(DiscoveredSession::new("main", "main", snapshot.tabs.len() as i64, false));
    out
}

/// Where the restore record of an endpoint is kept: under the first state
/// root (empty without roots).
pub fn restore_record_path(socket_path: &str, roots: &Vec<String>) -> (r: String)
    ensures
        roots@.len() > 0 ==> r@ == join_path(roots@[0]@, "restore-"@ + hash_of(socket_path@) + ".json"@),
        roots@.len() == 0 ==> r@.len() == 0,
{
    let hashed = endpoint_hash(socket_path);
    let paths = restore_paths(hashed.as_str(), roots);
    proof {
        crate::handoff::lemma_paths_for_single(strings_view(roots@), "restore-"@ + hash_of(socket_path@) + ".json"@);
    }
    if paths.len() > 0 {
        let ghost n = "restore-"@ + hash_of(socket_path@) + ".json"@;
        assert(strings_view(paths@)[0] == paths_for(strings_view(roots@), seq![n])[0]);
        assert(strings_view(roots@)[0] == roots@[0]@);
        paths[0].clone()
    } else {
        String::new()
    }
}


// ---- the live verbs -----------------------------------------------------------------

/// A session as values: id, name, window count, attached.
pub open spec fn session_view(s: DiscoveredSession) -> (Seq<char>, Seq<char>, i64, bool) {
    (s.session_id@, s.name@, s.window_count, s.attached)
}

pub open spec fn sessions_view(s: Seq<DiscoveredSession>) -> Seq<(Seq<char>, Seq<char>, i64, bool)> {
    s.map_values(|x: DiscoveredSession| session_view(x))
}

/// The sessions whose id or name is `wanted`, in order.
pub open spec fn matching(s: Seq<DiscoveredSession>, wanted: Seq<char>) -> Seq<DiscoveredSession>
    decreases s.len(),
{
    if s.len() == 0 {
        Seq::empty()
    } else if s.last().session_id@ == wanted || s.last().name@ == wanted {
        matching(s.drop_last(), wanted).push(s.last())
    } else {
        matching(s.drop_last(), wanted)
    }
}

/// The sessions an attach works on: those `wanted` names, unless none
/// matches (or none is named), then all of them.
pub open spec fn attach_sessions(s: Seq<DiscoveredSession>, wanted: Option<Seq<char>>) -> Seq<DiscoveredSession> {
    match wanted {
        Some(w) => if matching(s, w).len() > 0 {
            matching(s, w)
        } else {
            s
        },
        None => s,
    }
}

/// An observed method under the provider's namespace.
pub open spec fn observed_method(m: Seq<char>) -> Seq<char> {
    if crate::text::is_prefix("remote.herdr."@, m) {
        m
    } else {
        "remote.herdr."@ + m
    }
}

/// What a live verb works on: the sessions, and for `observe` the method
/// and the session it observes.
#[derive(Debug, Clone, PartialEq, Eq)]
pub struct LiveRequest {
    pub sessions: Vec<DiscoveredSession>,
    pub method: Option<String>,
    pub session: Option<String>,
}

pub type LiveView = (Seq<(Seq<char>, Seq<char>, i64, bool)>, Option<Seq<char>>, Option<Seq<char>>);

pub open spec fn live_view(r: LiveRequest) -> LiveView {
    (sessions_view(r.sessions@), crate::text::opt_view(r.method), crate::text::opt_view(r.session))
}

/// The request of each live verb: `attach` the chosen sessions, `detach`
/// none, `restore` all, `observe` the namespaced method on the named session
/// (`main` by default); any other verb is none.
pub open spec fn live_request_spec(
    verb: Seq<char>,
    sessions: Seq<DiscoveredSession>,
    wanted: Option<Seq<char>>,
    method: Option<Seq<char>>,
) -> Option<LiveView> {
    if verb == "attach"@ {
        Some((sessions_view(attach_sessions(sessions, wanted)), None, None))
    } else if verb == "detach"@ {
        Some((Seq::empty(), None, None))
    } else if verb == "restore"@ {
        Some((sessions_view(sessions), None, None))
    } else if verb == "observe"@ {
        Some((
            Seq::empty(),
            Some(observed_method(method.unwrap())),
            Some(
                match wanted {
                    Some(w) => w,
                    None => "main"@,
                },
            ),
        ))
    } else {
        None
    }
}

fn copy_session(s: &DiscoveredSession) -> (r: DiscoveredSession)
    ensures
        session_view(r) == session_view(*s),
{
    DiscoveredSession::new(s.session_id.as_str(), s.name.as_str(), s.window_count, s.attached)
}

fn copy_matching(s: &Vec<DiscoveredSession>, wanted: Option<&str>) -> (r: Vec<DiscoveredSession>)
    ensures
        sessions_view(r@) == match wanted {
            Some(w) => sessions_view(matching(s@, w@)),
            None => sessions_view(s@),
        },
{
    let mut out: Vec<DiscoveredSession> = Vec::new();
    let mut i: usize = 0;
    while i < s.len()
        invariant
            i <= s.len(),
            sessions_view(out@) == match wanted {
                Some(w) => sessions_view(matching(s@.take(i as int), w@)),
                None => sessions_view(s@.take(i as int)),
            },
        decreases s.len() - i,
    {
        assert(s@.take(i + 1).drop_last() =~= s@.take(i as int));
        assert(s@.take(i + 1).last() == s@[i as int]);
        let take = match wanted {
            Some(w) => crate::text::str_eq(s[i].session_id.as_str(), w) || crate::text::str_eq(s[i].name.as_str(), w),
            None => true,
        };
        let ghost o = out@;
        if take {
            out.push(copy_session(&s[i]));
            proof {
                assert(sessions_view(out@) =~= sessions_view(o).push(session_view(s@[i as int])));
                match wanted {
                    Some(w) => {
                        assert(sessions_view(matching(s@.take(i + 1), w@)) =~= sessions_view(
                            matching(s@.take(i as int), w@),
                        ).push(session_view(s@[i as int])));
                    },
                    None => {
                        assert(sessions_view(s@.take(i + 1)) =~= sessions_view(s@.take(i as int)).push(
                            session_view(s@[i as int]),
                        ));
                    },
                }
            }
        }
        i += 1;
    }
    assert(s@.take(s@.len() as int) =~= s@);
    out
}

/// The request of a live verb (see [`live_request_spec`]).
pub fn live_request(
    verb: &str,
    sessions: &Vec<DiscoveredSession>,
    wanted: Option<&str>,
    method: Option<&str>,
) -> (r: Option<LiveRequest>)
    requires
        verb@ == "observe"@ ==> method is Some,
    ensures
        match r {
            Some(q) => live_request_spec(
                verb@,
                sessions@,
                crate::text::opt_str_view(wanted),
                crate::text::opt_str_view(method),
            ) == Some(live_view(q)),
            None => live_request_spec(
                verb@,
                sessions@,
                crate::text::opt_str_view(wanted),
                crate::text::opt_str_view(method),
            ) is None,
        },
{
    if crate::text::str_eq(verb, "attach") {
        let chosen = match wanted {
            Some(w) => {
                let m = copy_matching(sessions, Some(w));
                proof {
                    assert(sessions_view(m@).len() == m@.len());
                    assert(sessions_view(matching(sessions@, w@)).len() == matching(sessions@, w@).len());
                }
                if m.len() > 0 {
                    m
                } else {
                    copy_matching(sessions, None)
                }
            },
            None => copy_matching(sessions, None),
        };
        Some(LiveRequest { sessions: chosen, method: None, session: None })
    } else if crate::text::str_eq(verb, "detach") {
        let none: Vec<DiscoveredSession> = Vec::new();
        assert(sessions_view(none@) =~= Seq::empty());
        Some(LiveRequest { sessions: none, method: None, session: None })
    } else if crate::text::str_eq(verb, "restore") {
        Some(LiveRequest { sessions: copy_matching(sessions, None), method: None, session: None })
    } else if crate::text::str_eq(verb, "observe") {
        let raw = method.unwrap();
        let m = if crate::text::str_starts_with(raw, "remote.herdr.") {
            crate::text::owned(raw)
        } else {
            crate::text::concat2("remote.herdr.", raw)
        };
        let session = match wanted {
            Some(w) => crate::text::owned(w),
            None => crate::text::owned("main"),
        };
        let none: Vec<DiscoveredSession> = Vec::new();
        assert(sessions_view(none@) =~= Seq::empty());
        Some(LiveRequest { sessions: none, method: Some(m), session: Some(session) })
    } else {
        None
    }
}

/// The member `k` of a payload, null when missing (as indexing reads it).
pub open spec fn member_or_null(j: Json, k: Seq<char>) -> Json {
    match json_get(j, k) {
        Some(v) => v,
        None => Json::Null,
    }
}

pub open spec fn holds_text(v: Json, t: Seq<char>) -> bool {
    v matches Json::Str(s) && s@ == t
}

/// The line a live verb prints from its payload, and its exit code: 0 when
/// the payload says `ok: true`, else 2.
pub open spec fn live_report_spec(verb: Seq<char>, p: Json) -> (Seq<char>, int) {
    let plain = |k: Seq<char>| crate::layout_parse::value_text(member_or_null(p, k));
    let native = holds_text(member_or_null(p, "outcome"@), "native_owns"@);
    let line = if verb == "attach"@ {
        if holds_text(member_or_null(p, "writer"@), "native"@) || native {
            "native owns this host; plugin apply not started"@
        } else {
            let tabs = match member_or_null(member_or_null(p, "apply"@), "tabs"@) {
                Json::Array { items, .. } => items@.len(),
                _ => 0,
            };
            "attached "@ + plain("outcome"@) + " tabs="@ + crate::text::dec_nat(tabs) + " server_stopped="@ + plain(
                "server_stopped"@,
            ) + match member_or_null(p, "restore_path"@) {
                Json::Str(path) => "\nrestore: "@ + path@,
                _ => Seq::empty(),
            }
        }
    } else if verb == "detach"@ {
        if native {
            "native owns this host; plugin did not detach native"@
        } else {
            "detached (server_stopped="@ + plain("server_stopped"@) + "; Herdr session left running)"@
        }
    } else if verb == "restore"@ {
        if native {
            "native owns this host; restore stays on the native path"@
        } else {
            "restore "@ + (if json_get(p, "mode"@) is Some {
                plain("mode"@)
            } else if json_get(p, "outcome"@) is Some {
                plain("outcome"@)
            } else {
                Seq::empty()
            }) + " server_stopped="@ + plain("server_stopped"@)
        }
    } else {
        crate::json::json_text(p)
    };
    (line, if json_get(p, "ok"@) == Some(Json::Bool(true)) {
        0
    } else {
        2
    })
}

fn member_exec<'a>(j: &'a Json, k: &str, null: &'a Json) -> (r: &'a Json)
    requires
        *null == Json::Null,
    ensures
        *r == member_or_null(*j, k@),
{
    match j.get(k) {
        Some(v) => v,
        None => null,
    }
}

fn holds_text_exec(v: &Json, t: &str) -> (r: bool)
    ensures
        r == holds_text(*v, t@),
{
    match v {
        Json::Str(s) => crate::text::str_eq(s.as_str(), t),
        _ => false,
    }
}

/// The line a live verb prints, and its exit code (see [`live_report_spec`]).
pub fn live_report(verb: &str, payload: &Json) -> (r: (String, i32))
    ensures
        (r.0@, r.1 as int) == live_report_spec(verb@, *payload),
{
    let null = Json::Null;
    let code: i32 = match payload.get("ok") {
        Some(Json::Bool(true)) => 0,
        _ => 2,
    };
    let native = holds_text_exec(member_exec(payload, "outcome", &null), "native_owns");
    let line = if crate::text::str_eq(verb, "attach") {
        if holds_text_exec(member_exec(payload, "writer", &null), "native") || native {
            crate::text::owned("native owns this host; plugin apply not started")
        } else {
            let apply = member_exec(payload, "apply", &null);
            let tabs: usize = match member_exec(apply, "tabs", &null) {
                Json::Array { items, .. } => items.len(),
                _ => 0,
            };
            let mut l = crate::text::concat2("attached ", crate::layout_parse::value_text_of(member_exec(payload, "outcome", &null)).as_str());
            l.append(" tabs=");
            l.append(crate::text::nat_to_string(tabs as u64).as_str());
            l.append(" server_stopped=");
            l.append(crate::layout_parse::value_text_of(member_exec(payload, "server_stopped", &null)).as_str());
            match member_exec(payload, "restore_path", &null) {
                Json::Str(path) => {
                    l.append("\nrestore: ");
                    l.append(path.as_str());
                },
                _ => {},
            }
            l
        }
    } else if crate::text::str_eq(verb, "detach") {
        if native {
            crate::text::owned("native owns this host; plugin did not detach native")
        } else {
            crate::text::concat3(
                "detached (server_stopped=",
                crate::layout_parse::value_text_of(member_exec(payload, "server_stopped", &null)).as_str(),
                "; Herdr session left running)",
            )
        }
    } else if crate::text::str_eq(verb, "restore") {
        if native {
            crate::text::owned("native owns this host; restore stays on the native path")
        } else {
            let shown = match payload.get("mode") {
                Some(v) => crate::layout_parse::value_text_of(v),
                None => match payload.get("outcome") {
                    Some(v) => crate::layout_parse::value_text_of(v),
                    None => String::new(),
                },
            };
            let mut l = crate::text::concat2("restore ", shown.as_str());
            l.append(" server_stopped=");
            l.append(crate::layout_parse::value_text_of(member_exec(payload, "server_stopped", &null)).as_str());
            l
        }
    } else {
        payload.text()
    };
    (line, code)
}

} // verus!
