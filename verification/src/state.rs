//! Host fingerprint and the stable key that names per-host state files.
use vstd::prelude::*;

use crate::digest::{hex, sha256, short_digest};
use crate::order::{key3_le, keys3_view, sort_keys3};
use crate::json::{copy_json, is_truthy, json_eq, json_get, opt_get, opt_ref, truthy, Json};
use crate::model::{as_str, display_name, Pane, Snapshot, Tab};
use crate::text::{
    concat2, concat3, dec_int, int_to_string, opt_str_view, opt_view, owned, push_char, str_eq, string_from, strings_view,
    trim, trim_str,
    truncate,
};

verus! {

/// The invoking environment's host identity. Missing or empty values are `None`.
#[derive(Debug, Clone, Default, PartialEq)]
pub struct Fingerprint {
    pub cmux_surface_id: Option<String>,
    pub herdr_socket_path: Option<String>,
    pub herdr_server_pid: Option<i64>,
    pub herdr_workspace_id: Option<String>,
}

/// Required fingerprint variables that are unset.
pub fn fingerprint_missing_fields(fp: &Fingerprint) -> (r: Vec<&'static str>)
    ensures
        r@.map_values(|s: &str| s@) == (if fp.cmux_surface_id is None {
            seq!["CMUX_SURFACE_ID"@]
        } else {
            Seq::empty()
        }) + (if fp.herdr_socket_path is None {
            seq!["HERDR_SOCKET_PATH"@]
        } else {
            Seq::empty()
        }),
{
    let mut missing: Vec<&'static str> = Vec::new();
    if fp.cmux_surface_id.is_none() {
        missing.push("CMUX_SURFACE_ID");
    }
    if fp.herdr_socket_path.is_none() {
        missing.push("HERDR_SOCKET_PATH");
    }
    assert(missing@.map_values(|s: &str| s@) =~= (if fp.cmux_surface_id is None {
        seq!["CMUX_SURFACE_ID"@]
    } else {
        Seq::empty()
    }) + (if fp.herdr_socket_path is None {
        seq!["HERDR_SOCKET_PATH"@]
    } else {
        Seq::empty()
    }));
    missing
}

/// Characters kept verbatim in a slug: ASCII letters and digits, `_ . -`.
pub open spec fn slug_char(c: char) -> bool {
    ('a' <= c <= 'z') || ('A' <= c <= 'Z') || ('0' <= c <= '9') || c == '_' || c == '.' || c == '-'
}

/// Slug of `s` with each run of other characters collapsed to one `_`
/// (the output so far, and whether it ends inside such a run).
pub open spec fn slug_state(s: Seq<char>) -> (Seq<char>, bool)
    decreases s.len(),
{
    if s.len() == 0 {
        (Seq::empty(), false)
    } else {
        let (out, in_run) = slug_state(s.drop_last());
        if slug_char(s.last()) {
            (out.push(s.last()), false)
        } else if !in_run {
            (out.push('_'), true)
        } else {
            (out, true)
        }
    }
}

/// `re.sub(r"[^A-Za-z0-9_.-]+", "_", s)[:48]`.
pub open spec fn slugify(s: Seq<char>) -> Seq<char> {
    truncate(slug_state(s).0, 48)
}

fn slugify_exec(s: &str) -> (r: String)
    ensures
        r@ == slugify(s@),
{
    let v = crate::text::chars_of(s);
    let mut out = String::new();
    let mut in_run = false;
    let mut i: usize = 0;
    while i < v.len()
        invariant
            i <= v.len(),
            v@ == s@,
            (out@, in_run) == slug_state(v@.subrange(0, i as int)),
        decreases v.len() - i,
    {
        let c = v[i];
        assert(v@.subrange(0, i + 1).drop_last() =~= v@.subrange(0, i as int));
        if ('a' <= c && c <= 'z') || ('A' <= c && c <= 'Z') || ('0' <= c && c <= '9') || c == '_' || c == '.' || c == '-' {
            push_char(&mut out, c);
            in_run = false;
        } else if !in_run {
            push_char(&mut out, '_');
            in_run = true;
        }
        i += 1;
    }
    assert(v@.subrange(0, v@.len() as int) =~= v@);
    let ov = crate::text::chars_of(out.as_str());
    let n = if ov.len() < 48 { ov.len() } else { 48 };
    let r = string_from(&ov, 0, n);
    assert(r@ =~= truncate(out@, 48));
    r
}

pub open spec fn or_default(o: Option<String>, d: Seq<char>) -> Seq<char> {
    match o {
        Some(s) => s@,
        None => d,
    }
}

/// The material hashed into a parent key: `surface|socket|workspace|pid`.
pub open spec fn key_material(fp: Fingerprint) -> Seq<char> {
    or_default(fp.cmux_surface_id, "_nosurface_"@) + "|"@ + or_default(fp.herdr_socket_path, "default"@) + "|"@
        + or_default(fp.herdr_workspace_id, "default"@) + "|"@ + match fp.herdr_server_pid {
        Some(p) => dec_int(p as int),
        None => "nopid"@,
    }
}

/// Stable file key for one host: `<slug>-<first 16 hex of sha256(material)>`,
/// the slug being `host` when the surface slugs to nothing.
pub open spec fn parent_key_spec(fp: Fingerprint) -> Seq<char> {
    let slug = slugify(or_default(fp.cmux_surface_id, "_nosurface_"@));
    (if slug.len() == 0 {
        "host"@
    } else {
        slug
    }) + "-"@ + hex(sha256(vstd::utf8::encode_utf8(key_material(fp)))).take(16)
}

pub fn parent_key(fp: &Fingerprint) -> (r: String)
    ensures
        r@ == parent_key_spec(*fp),
        r@.len() >= 18,
        r@[r@.len() - 17] == '-',
        forall|i: int| r@.len() - 16 <= i < r@.len() ==> crate::digest::is_hex_char(#[trigger] r@[i]),
{
    let surface = match &fp.cmux_surface_id {
        Some(s) => s.as_str(),
        None => "_nosurface_",
    };
    let socket_path = match &fp.herdr_socket_path {
        Some(s) => s.as_str(),
        None => "default",
    };
    let ws = match &fp.herdr_workspace_id {
        Some(s) => s.as_str(),
        None => "default",
    };
    let pid_part = match fp.herdr_server_pid {
        Some(p) => int_to_string(p),
        None => owned("nopid"),
    };
    let mut material = owned(surface);
    material.append("|");
    material.append(socket_path);
    material.append("|");
    material.append(ws);
    material.append("|");
    material.append(pid_part.as_str());
    assert(material@ =~= key_material(*fp));
    let digest = short_digest(material.as_str().as_bytes());
    let slug = slugify_exec(surface);
    let mut out = if slug.as_str().is_empty() { owned("host") } else { slug };
    proof {
        reveal_strlit("host");
        reveal_strlit("-");
    }
    let ghost prefix = out@;
    assert(prefix.len() >= 1);
    out.append("-");
    out.append(digest.as_str());
    assert(out@ =~= prefix + "-"@ + digest@);
    assert(out@[out@.len() - 17] == '-');
    proof {
        let k = out@.len() - 16;
        assert forall|i: int| out@.len() - 16 <= i < out@.len() implies crate::digest::is_hex_char(#[trigger] out@[i]) by {
            assert(out@[i] == digest@[i - k]);
        }
    }
    out
}

// ---- parent resolution ---------------------------------------------------------

/// The trimmed text when it is not blank.
pub open spec fn nonempty_trim(s: Seq<char>) -> Option<Seq<char>> {
    if trim(s).len() == 0 {
        None
    } else {
        Some(trim(s))
    }
}

fn nonempty_trim_exec(s: &str) -> (r: Option<String>)
    ensures
        opt_view(r) == nonempty_trim(s@),
{
    let t = trim_str(s);
    if t.as_str().is_empty() {
        None
    } else {
        Some(t)
    }
}

/// The prior association record of a pane: its object in `previous`,
/// unless both it and the pane name agent sessions and they differ.
pub open spec fn prior_spec(pane: Pane, previous: Json) -> Option<Json> {
    match json_get(previous, pane.pane_id@) {
        Some(prior) => if !(prior is Object) {
            None
        } else {
            let psid = as_str(json_get(prior, "agent_session_id"@));
            let nsid = opt_view(pane.agent_session_id);
            if psid is Some && psid.unwrap().len() > 0 && nsid is Some && nsid.unwrap().len() > 0
                && psid != nsid {
                None
            } else {
                Some(prior)
            }
        },
        None => None,
    }
}

/// See [`prior_spec`]; `None` stands for the empty record.
pub fn prior_for_pane<'a>(pane: &Pane, previous: &'a Json) -> (r: Option<&'a Json>)
    ensures
        opt_ref(r) == prior_spec(*pane, *previous),
{
    let prior = match previous.get(pane.pane_id.as_str()) {
        Some(p) => if p.is_object() {
            p
        } else {
            return None;
        },
        None => {
            return None;
        },
    };
    let psid: Option<&str> = match prior.get("agent_session_id") {
        Some(Json::Str(s)) => Some(s.as_str()),
        _ => None,
    };
    let differs = match (psid, &pane.agent_session_id) {
        (Some(p), Some(n)) => !p.is_empty() && !n.as_str().is_empty() && !str_eq(p, n.as_str()),
        _ => false,
    };
    if differs {
        None
    } else {
        Some(prior)
    }
}

/// A tab of the pane's workspace (any workspace when the pane names none)
/// with a non-empty id.
pub open spec fn candidate_tab(t: Tab, ws: Option<Seq<char>>) -> bool {
    t.tab_id@.len() > 0 && (ws is None || Some(t.workspace_id@) == ws)
}

/// The one-shot parent guess `(tab, workspace)`: the `HERDR_*` variables
/// when they describe this very pane; else the only candidate tab of the
/// snapshot; else nothing.
pub open spec fn infer_parent_spec(
    env_pane: Option<Seq<char>>,
    env_tab: Option<Seq<char>>,
    env_ws: Option<Seq<char>>,
    pane: Pane,
    tabs: Option<Seq<Tab>>,
) -> (Option<Seq<char>>, Option<Seq<char>>) {
    let from_env = env_pane is Some && env_pane.unwrap().len() > 0 && env_pane.unwrap() == pane.pane_id@;
    let etab = match env_tab {
        Some(t) => nonempty_trim(t),
        None => None,
    };
    let ews = match env_ws {
        Some(w) => match nonempty_trim(w) {
            Some(x) => Some(x),
            None => nonempty_trim(pane.workspace_id@),
        },
        None => nonempty_trim(pane.workspace_id@),
    };
    let ws = nonempty_trim(pane.workspace_id@);
    if from_env && (etab is Some || ews is Some) {
        (etab, ews)
    } else {
        match tabs {
            Some(ts) => {
                let cands = ts.filter(|t: Tab| candidate_tab(t, ws));
                if cands.len() == 1 {
                    (
                        Some(cands[0].tab_id@),
                        match nonempty_trim(cands[0].workspace_id@) {
                            Some(x) => Some(x),
                            None => ws,
                        },
                    )
                } else {
                    (None, None)
                }
            },
            None => (None, None),
        }
    }
}

pub open spec fn snapshot_tabs(s: Option<&Snapshot>) -> Option<Seq<Tab>> {
    match s {
        Some(x) => Some(x.tabs@),
        None => None,
    }
}

/// See [`infer_parent_spec`]; the `HERDR_PANE_ID`, `HERDR_TAB_ID` and
/// `HERDR_WORKSPACE_ID` values are passed in.
pub fn infer_parent_once(
    env_pane: Option<&str>,
    env_tab: Option<&str>,
    env_ws: Option<&str>,
    pane: &Pane,
    snapshot: Option<&Snapshot>,
) -> (r: (Option<String>, Option<String>))
    ensures
        (opt_view(r.0), opt_view(r.1)) == infer_parent_spec(
            opt_str_view(env_pane),
            opt_str_view(env_tab),
            opt_str_view(env_ws),
            *pane,
            snapshot_tabs(snapshot),
        ),
{
    let from_env = match env_pane {
        Some(p) => !p.is_empty() && str_eq(p, pane.pane_id.as_str()),
        None => false,
    };
    if from_env {
        let tab = match env_tab {
            Some(t) => nonempty_trim_exec(t),
            None => None,
        };
        let ws = match env_ws {
            Some(w) => match nonempty_trim_exec(w) {
                Some(x) => Some(x),
                None => nonempty_trim_exec(pane.workspace_id.as_str()),
            },
            None => nonempty_trim_exec(pane.workspace_id.as_str()),
        };
        if tab.is_some() || ws.is_some() {
            return (tab, ws);
        }
    }
    match snapshot {
        Some(snap) => {
            let ws = nonempty_trim_exec(pane.workspace_id.as_str());
            let ghost f = |t: Tab| candidate_tab(t, opt_view(ws));
            let mut count: usize = 0;
            let mut first: usize = 0;
            let mut i: usize = 0;
            while i < snap.tabs.len()
                invariant
                    i <= snap.tabs.len(),
                    f == (|t: Tab| candidate_tab(t, opt_view(ws))),
                    count == snap.tabs@.take(i as int).filter(f).len(),
                    count > 0 ==> first < i && snap.tabs@[first as int] == snap.tabs@.take(i as int).filter(f)[0],
                decreases snap.tabs.len() - i,
            {
                proof {
                    crate::model::lemma_filter_step(snap.tabs@, i as int, f);
                }
                let t = &snap.tabs[i];
                let matches_ws = match &ws {
                    Some(w) => str_eq(t.workspace_id.as_str(), w.as_str()),
                    None => true,
                };
                if !t.tab_id.as_str().is_empty() && matches_ws {
                    if count == 0 {
                        first = i;
                    }
                    count = count + 1;
                }
                i += 1;
            }
            assert(snap.tabs@.take(snap.tabs.len() as int) =~= snap.tabs@);
            if count == 1 {
                let t = &snap.tabs[first];
                let tab_ws = match nonempty_trim_exec(t.workspace_id.as_str()) {
                    Some(x) => Some(x),
                    None => ws,
                };
                return (Some(t.tab_id.clone()), tab_ws);
            }
            (None, None)
        },
        None => (None, None),
    }
}

/// The parents recorded for a pane.
#[derive(Debug)]
pub struct Parents {
    pub parent_tab_id: Option<String>,
    pub parent_workspace_id: Option<String>,
    pub heuristic_satisfied: bool,
    pub used_heuristic: bool,
}

/// `a or b`: the first when it is truthy.
pub open spec fn py_or(a: Option<Json>, b: Option<Json>) -> Option<Json> {
    if truthy(a) {
        a
    } else {
        b
    }
}

/// A stripped, non-blank string value.
pub open spec fn nonempty_id(v: Option<Json>) -> Option<Seq<char>> {
    match v {
        Some(Json::Str(s)) => nonempty_trim(s@),
        _ => None,
    }
}

/// Two-pass parent resolution for one pane: the snapshot's ids; missing
/// ones from a satisfied prior record; else from the one-shot guess.
pub open spec fn parents_spec(
    env: (Option<Seq<char>>, Option<Seq<char>>, Option<Seq<char>>),
    pane: Pane,
    prior: Json,
    tabs: Option<Seq<Tab>>,
) -> (Option<Seq<char>>, Option<Seq<char>>, bool, bool) {
    let satisfied = truthy(json_get(prior, "heuristic_satisfied"@));
    let prior_tab = nonempty_id(py_or(json_get(prior, "parent_tab_id"@), json_get(prior, "tab_id"@)));
    let prior_ws = nonempty_id(
        py_or(json_get(prior, "parent_workspace_id"@), json_get(prior, "workspace_id"@)),
    );
    let snap_tab = nonempty_trim(pane.tab_id@);
    let snap_ws = nonempty_trim(pane.workspace_id@);
    let guess = infer_parent_spec(env.0, env.1, env.2, pane, tabs);
    let (tab, ws, used) = if snap_tab is Some && snap_ws is Some {
        (snap_tab, snap_ws, false)
    } else if satisfied && (prior_tab is Some || prior_ws is Some) {
        (
            if snap_tab is Some {
                snap_tab
            } else {
                prior_tab
            },
            if snap_ws is Some {
                snap_ws
            } else {
                prior_ws
            },
            false,
        )
    } else if guess.0 is Some || guess.1 is Some {
        (
            if snap_tab is Some {
                snap_tab
            } else {
                guess.0
            },
            if snap_ws is Some {
                snap_ws
            } else {
                guess.1
            },
            true,
        )
    } else {
        (snap_tab, snap_ws, false)
    };
    (tab, ws, satisfied || (tab is Some && ws is Some) || used, used)
}

fn nonempty_id_exec(v: Option<&Json>) -> (r: Option<String>)
    ensures
        opt_view(r) == nonempty_id(opt_ref(v)),
{
    match v {
        Some(Json::Str(s)) => nonempty_trim_exec(s.as_str()),
        _ => None,
    }
}

fn py_or_exec<'a>(a: Option<&'a Json>, b: Option<&'a Json>) -> (r: Option<&'a Json>)
    ensures
        opt_ref(r) == py_or(opt_ref(a), opt_ref(b)),
{
    if is_truthy(a) {
        a
    } else {
        b
    }
}

/// See [`parents_spec`]; a prior record that is not an object counts as
/// empty.
pub fn resolve_association_parents(
    env_pane: Option<&str>,
    env_tab: Option<&str>,
    env_ws: Option<&str>,
    pane: &Pane,
    prior: &Json,
    snapshot: Option<&Snapshot>,
) -> (r: Parents)
    ensures
        (opt_view(r.parent_tab_id), opt_view(r.parent_workspace_id), r.heuristic_satisfied, r.used_heuristic)
            == parents_spec(
            (opt_str_view(env_pane), opt_str_view(env_tab), opt_str_view(env_ws)),
            *pane,
            *prior,
            snapshot_tabs(snapshot),
        ),
{
    let satisfied = is_truthy(prior.get("heuristic_satisfied"));
    let prior_tab = nonempty_id_exec(py_or_exec(prior.get("parent_tab_id"), prior.get("tab_id")));
    let prior_ws = nonempty_id_exec(py_or_exec(prior.get("parent_workspace_id"), prior.get("workspace_id")));
    let mut tab = nonempty_trim_exec(pane.tab_id.as_str());
    let mut ws = nonempty_trim_exec(pane.workspace_id.as_str());
    let mut used = false;
    if tab.is_none() || ws.is_none() {
        if satisfied && (prior_tab.is_some() || prior_ws.is_some()) {
            if tab.is_none() {
                tab = prior_tab;
            }
            if ws.is_none() {
                ws = prior_ws;
            }
        } else {
            let (gt, gw) = infer_parent_once(env_pane, env_tab, env_ws, pane, snapshot);
            if gt.is_some() || gw.is_some() {
                used = true;
                if tab.is_none() {
                    tab = gt;
                }
                if ws.is_none() {
                    ws = gw;
                }
            }
        }
    }
    let now = satisfied || (tab.is_some() && ws.is_some()) || used;
    Parents { parent_tab_id: tab, parent_workspace_id: ws, heuristic_satisfied: now, used_heuristic: used }
}

/// The association key of a pane: `pane:session` when it names a
/// session, else the pane id.
pub open spec fn association_key(pane: Pane) -> Seq<char> {
    let sid = trim(
        match pane.agent_session_id {
            Some(s) => s@,
            None => Seq::empty(),
        },
    );
    if sid.len() == 0 {
        pane.pane_id@
    } else {
        pane.pane_id@ + ":"@ + sid
    }
}

/// See [`association_key`].
pub fn association_key_for_pane(pane: &Pane) -> (r: String)
    ensures
        r@ == association_key(*pane),
{
    let sid = match &pane.agent_session_id {
        Some(s) => trim_str(s.as_str()),
        None => trim_str(""),
    };
    proof {
        reveal_strlit("");
    }
    if sid.as_str().is_empty() {
        pane.pane_id.clone()
    } else {
        concat3(pane.pane_id.as_str(), ":", sid.as_str())
    }
}

// ---- association records -----------------------------------------------------------

/// The association cache record of one pane, but for its timestamps: the
/// time it was first seen is the prior one when known (`None`: now), and
/// it was last seen now.
#[derive(Debug)]
pub struct AssociationRecord {
    pub pane_id: String,
    pub association_key: String,
    pub tab_id: String,
    pub workspace_id: String,
    pub parent_tab_id: Json,
    pub parent_workspace_id: Json,
    pub heuristic_satisfied: bool,
    pub title_lock: bool,
    pub locked_title: Json,
    pub last_status_value: Json,
    pub last_icon: Json,
    pub last_color: Json,
    pub last_priority: Json,
    pub agent: Option<String>,
    pub agent_status: String,
    pub status_key: String,
    pub label: Option<String>,
    pub cwd: Option<String>,
    pub focused: bool,
    pub agent_session_path: Option<String>,
    pub agent_session_id: Option<String>,
    pub agent_session_kind: Option<String>,
    pub revision: Option<i64>,
    pub first_seen_at: Option<Json>,
}

/// The write metadata, when it is an object.
pub open spec fn meta_obj(meta: Option<Json>) -> Option<Json> {
    match meta {
        Some(m) => if m is Object {
            Some(m)
        } else {
            None
        },
        None => None,
    }
}

pub open spec fn meta_get(meta: Option<Json>, k: Seq<char>) -> Option<Json> {
    match meta_obj(meta) {
        Some(m) => json_get(m, k),
        None => None,
    }
}

/// The title lock: the metadata's when it names one, else the prior's.
pub open spec fn title_lock_of(prior: Json, meta: Option<Json>) -> bool {
    if meta_get(meta, "title_lock"@) is Some {
        truthy(meta_get(meta, "title_lock"@))
    } else {
        truthy(json_get(prior, "title_lock"@))
    }
}

/// The locked title: `None` without a lock; else the metadata's non-null
/// title when truthy, else the prior's when truthy, else the pane's name
/// (`Err` carries that name).
pub open spec fn locked_title_of(pane: Pane, prior: Json, meta: Option<Json>) -> Option<Result<Json, Seq<char>>> {
    let given = match meta_get(meta, "locked_title"@) {
        Some(Json::Null) => None,
        o => o,
    };
    if !title_lock_of(prior, meta) {
        None
    } else if truthy(given) {
        Some(Ok(given.unwrap()))
    } else if truthy(json_get(prior, "locked_title"@)) {
        Some(Ok(json_get(prior, "locked_title"@).unwrap()))
    } else {
        Some(Err(display_name(pane)))
    }
}

/// A truthy parent value, else the pane's own id (`Err`).
pub open spec fn parent_part(v: Option<Json>, own: Seq<char>) -> Result<Json, Seq<char>> {
    if truthy(v) {
        Ok(v.unwrap())
    } else {
        Err(own)
    }
}

/// The parent recorded under `k`, else the pane's own id (see
/// [`parent_part`]).
pub open spec fn parent_value(parents: Json, k: Seq<char>, own: Seq<char>) -> Result<Json, Seq<char>> {
    parent_part(json_get(parents, k), own)
}

/// `j` holds the value `v`: a copy of the JSON, or the string.
pub open spec fn holds(j: Json, v: Result<Json, Seq<char>>) -> bool {
    match v {
        Ok(x) => json_eq(x, j),
        Err(s) => j matches Json::Str(t) && t@ == s,
    }
}

/// The metadata's value for `k` when it has one, else the prior's, else
/// null.
pub open spec fn meta_or_prior(prior: Json, meta: Option<Json>, k: Seq<char>) -> Json {
    match meta_get(meta, k) {
        Some(v) => v,
        None => match json_get(prior, k) {
            Some(v) => v,
            None => Json::Null,
        },
    }
}

/// `r` is the association record of `pane` from its prior record, its
/// resolved parents and the write metadata.
pub open spec fn record_matches(r: AssociationRecord, pane: Pane, prior: Json, parents: Json, meta: Option<Json>) -> bool {
    record_matches_parts(
        r,
        pane,
        prior,
        json_get(parents, "parent_tab_id"@),
        json_get(parents, "parent_workspace_id"@),
        truthy(json_get(parents, "heuristic_satisfied"@)),
        meta,
    )
}

/// `r` is the association record of `pane` from its prior record, its
/// parent tab and workspace values (see [`parent_part`]), whether its
/// parentage is settled, and the write metadata.
pub open spec fn record_matches_parts(
    r: AssociationRecord,
    pane: Pane,
    prior: Json,
    tab: Option<Json>,
    ws: Option<Json>,
    heuristic: bool,
    meta: Option<Json>,
) -> bool {
    &&& holds(r.parent_tab_id, parent_part(tab, pane.tab_id@))
    &&& holds(r.parent_workspace_id, parent_part(ws, pane.workspace_id@))
    &&& record_rest(r, pane, prior, heuristic, meta)
}

/// Everything of an association record but its parents.
pub open spec fn record_rest(r: AssociationRecord, pane: Pane, prior: Json, heuristic: bool, meta: Option<Json>) -> bool {
    &&& r.pane_id@ == pane.pane_id@
    &&& r.association_key@ == association_key(pane)
    &&& r.tab_id@ == pane.tab_id@
    &&& r.workspace_id@ == pane.workspace_id@
    &&& r.heuristic_satisfied == heuristic
    &&& r.title_lock == title_lock_of(prior, meta)
    &&& match locked_title_of(pane, prior, meta) {
        Some(v) => holds(r.locked_title, v),
        None => r.locked_title is Null,
    }
    &&& json_eq(meta_or_prior(prior, meta, "last_status_value"@), r.last_status_value)
    &&& json_eq(meta_or_prior(prior, meta, "last_icon"@), r.last_icon)
    &&& json_eq(meta_or_prior(prior, meta, "last_color"@), r.last_color)
    &&& json_eq(meta_or_prior(prior, meta, "last_priority"@), r.last_priority)
    &&& r.agent == pane.agent
    &&& r.agent_status == pane.agent_status
    &&& r.status_key@ == "herdr:"@ + pane.pane_id@
    &&& r.label == pane.label
    &&& r.cwd == pane.cwd
    &&& r.focused == pane.focused
    &&& r.agent_session_path == pane.agent_session_path
    &&& r.agent_session_id == pane.agent_session_id
    &&& r.agent_session_kind == pane.agent_session_kind
    &&& r.revision == pane.revision
    &&& match r.first_seen_at {
        Some(v) => truthy(json_get(prior, "first_seen_at"@)) && json_eq(json_get(prior, "first_seen_at"@).unwrap(), v),
        None => !truthy(json_get(prior, "first_seen_at"@)),
    }
}

fn meta_get_exec<'a>(meta: Option<&'a Json>, k: &str) -> (r: Option<&'a Json>)
    ensures
        opt_ref(r) == meta_get(opt_ref(meta), k@),
{
    match meta {
        Some(m) => if m.is_object() {
            m.get(k)
        } else {
            None
        },
        None => None,
    }
}

fn meta_or_prior_exec(prior: &Json, meta: Option<&Json>, k: &str) -> (r: Json)
    ensures
        json_eq(meta_or_prior(*prior, opt_ref(meta), k@), r),
{
    match meta_get_exec(meta, k) {
        Some(v) => copy_json(v),
        None => match prior.get(k) {
            Some(v) => copy_json(v),
            None => Json::Null,
        },
    }
}

fn parent_value_exec(v: Option<&Json>, own: &String) -> (r: Json)
    ensures
        holds(r, parent_part(opt_ref(v), own@)),
{
    match v {
        Some(v) => if is_truthy(Some(v)) {
            copy_json(v)
        } else {
            Json::Str(own.clone())
        },
        None => Json::Str(own.clone()),
    }
}

fn copy_opt(o: &Option<String>) -> (r: Option<String>)
    ensures
        r == *o,
{
    match o {
        Some(s) => Some(s.clone()),
        None => None,
    }
}

/// The association record of one pane (see [`record_matches`]).
pub fn association_record(pane: &Pane, prior: &Json, parents: &Json, write_meta: Option<&Json>) -> (r: AssociationRecord)
    ensures
        record_matches(r, *pane, *prior, *parents, opt_ref(write_meta)),
{
    record_from_parts(
        pane,
        prior,
        parents.get("parent_tab_id"),
        parents.get("parent_workspace_id"),
        is_truthy(parents.get("heuristic_satisfied")),
        write_meta,
    )
}

/// The association record of one pane from the parts of its parentage (see
/// [`record_matches_parts`]).
fn record_from_parts(
    pane: &Pane,
    prior: &Json,
    tab: Option<&Json>,
    ws: Option<&Json>,
    heuristic: bool,
    write_meta: Option<&Json>,
) -> (r: AssociationRecord)
    ensures
        record_matches_parts(r, *pane, *prior, opt_ref(tab), opt_ref(ws), heuristic, opt_ref(write_meta)),
{
    let tab_value = parent_value_exec(tab, &pane.tab_id);
    let ws_value = parent_value_exec(ws, &pane.workspace_id);
    record_with(pane, prior, tab_value, ws_value, heuristic, write_meta)
}

/// The association record of one pane with the given parent values.
fn record_with(
    pane: &Pane,
    prior: &Json,
    tab_value: Json,
    ws_value: Json,
    heuristic: bool,
    write_meta: Option<&Json>,
) -> (r: AssociationRecord)
    ensures
        r.parent_tab_id == tab_value,
        r.parent_workspace_id == ws_value,
        record_rest(r, *pane, *prior, heuristic, opt_ref(write_meta)),
{
    let title_lock = if meta_get_exec(write_meta, "title_lock").is_some() {
        is_truthy(meta_get_exec(write_meta, "title_lock"))
    } else {
        is_truthy(prior.get("title_lock"))
    };
    let given: Option<&Json> = match meta_get_exec(write_meta, "locked_title") {
        Some(Json::Null) => None,
        o => o,
    };
    let locked_title = if !title_lock {
        Json::Null
    } else if is_truthy(given) {
        match given {
            Some(g) => copy_json(g),
            None => Json::Null,
        }
    } else {
        match prior.get("locked_title") {
            Some(v) => if is_truthy(Some(v)) {
                copy_json(v)
            } else {
                Json::Str(pane.display_name())
            },
            None => Json::Str(pane.display_name()),
        }
    };
    let first_seen_at = match prior.get("first_seen_at") {
        Some(v) => if is_truthy(Some(v)) {
            Some(copy_json(v))
        } else {
            None
        },
        None => None,
    };
    AssociationRecord {
        pane_id: pane.pane_id.clone(),
        association_key: association_key_for_pane(pane),
        tab_id: pane.tab_id.clone(),
        workspace_id: pane.workspace_id.clone(),
        parent_tab_id: tab_value,
        parent_workspace_id: ws_value,
        heuristic_satisfied: heuristic,
        title_lock,
        locked_title,
        last_status_value: meta_or_prior_exec(prior, write_meta, "last_status_value"),
        last_icon: meta_or_prior_exec(prior, write_meta, "last_icon"),
        last_color: meta_or_prior_exec(prior, write_meta, "last_color"),
        last_priority: meta_or_prior_exec(prior, write_meta, "last_priority"),
        agent: copy_opt(&pane.agent),
        agent_status: pane.agent_status.clone(),
        status_key: pane.status_key(),
        label: copy_opt(&pane.label),
        cwd: copy_opt(&pane.cwd),
        focused: pane.focused,
        agent_session_path: copy_opt(&pane.agent_session_path),
        agent_session_id: copy_opt(&pane.agent_session_id),
        agent_session_kind: copy_opt(&pane.agent_session_kind),
        revision: pane.revision,
        first_seen_at,
    }
}

// ---- the association map ---------------------------------------------------------

/// The recorded panes of a loaded map (`Null` when it has none).
pub open spec fn previous_panes(state: Json) -> Json {
    match json_get(state, "panes"@) {
        Some(p) => if p is Object {
            p
        } else {
            Json::Null
        },
        None => Json::Null,
    }
}

/// The write metadata of one pane, when it is an object.
pub open spec fn pane_meta(write_meta: Option<Json>, id: Seq<char>) -> Option<Json> {
    match meta_get(write_meta, id) {
        Some(v) => if v is Object {
            Some(v)
        } else {
            None
        },
        None => None,
    }
}

/// A pane's prior record (`Null` when there is none).
pub open spec fn prior_of(pane: Pane, prev: Json) -> Json {
    match prior_spec(pane, prev) {
        Some(p) => p,
        None => Json::Null,
    }
}

/// Whether the metadata overrides the pane's parentage: a truthy parent
/// tab, or a non-null settled flag.
pub open spec fn meta_has_parent(meta: Option<Json>) -> bool {
    truthy(meta_get(meta, "parent_tab_id"@)) || (meta_get(meta, "heuristic_satisfied"@) matches Some(v) && !(
    v is Null))
}

/// A recorded parent: the metadata's value when it overrides and has one,
/// else the resolved id, else the pane's own.
pub open spec fn parent_choice(meta: Option<Json>, k: Seq<char>, resolved: Option<Seq<char>>, own: Seq<char>) -> Result<
    Json,
    Seq<char>,
> {
    if meta_has_parent(meta) && meta_get(meta, k) is Some {
        parent_part(meta_get(meta, k), own)
    } else {
        match resolved {
            Some(t) => Err(t),
            None => Err(own),
        }
    }
}

/// Whether the parentage is settled: the metadata's flag when it overrides
/// and has one, else the resolved flag.
pub open spec fn heuristic_of(meta: Option<Json>, resolved: bool) -> bool {
    if meta_has_parent(meta) && meta_get(meta, "heuristic_satisfied"@) is Some {
        truthy(meta_get(meta, "heuristic_satisfied"@))
    } else {
        resolved
    }
}

/// `r` is the rewritten record of `pane`: its prior record from the map,
/// parents resolved against the snapshot's tabs, overridden by the pane's
/// write metadata.
pub open spec fn update_record_ok(
    r: AssociationRecord,
    pane: Pane,
    state: Json,
    tabs: Seq<Tab>,
    write_meta: Option<Json>,
    env: (Option<Seq<char>>, Option<Seq<char>>, Option<Seq<char>>),
) -> bool {
    let prior = prior_of(pane, previous_panes(state));
    let meta = pane_meta(write_meta, pane.pane_id@);
    let res = parents_spec(env, pane, prior, Some(tabs));
    &&& holds(r.parent_tab_id, parent_choice(meta, "parent_tab_id"@, res.0, pane.tab_id@))
    &&& holds(r.parent_workspace_id, parent_choice(meta, "parent_workspace_id"@, res.1, pane.workspace_id@))
    &&& record_rest(r, pane, prior, heuristic_of(meta, res.2), meta)
}

/// Sort rows `(pane id, "", "", position)` of the panes with an id.
pub open spec fn live_rows(ps: Seq<Pane>) -> Seq<(Seq<char>, Seq<char>, Seq<char>, int)>
    decreases ps.len(),
{
    if ps.len() == 0 {
        Seq::empty()
    } else if ps.last().pane_id@.len() > 0 {
        live_rows(ps.drop_last()).push((ps.last().pane_id@, Seq::empty(), Seq::empty(), ps.len() - 1))
    } else {
        live_rows(ps.drop_last())
    }
}

pub open spec fn sort3(s: Seq<(Seq<char>, Seq<char>, Seq<char>, int)>) -> Seq<(Seq<char>, Seq<char>, Seq<char>, int)> {
    s.sort_by(|x: (Seq<char>, Seq<char>, Seq<char>, int), y: (Seq<char>, Seq<char>, Seq<char>, int)| key3_le(x, y))
}

/// The last row of each run of equal ids.
pub open spec fn last_of_runs(s: Seq<(Seq<char>, Seq<char>, Seq<char>, int)>) -> Seq<(Seq<char>, Seq<char>, Seq<char>, int)>
    decreases s.len(),
{
    if s.len() == 0 {
        Seq::empty()
    } else {
        let prev = last_of_runs(s.drop_last());
        if prev.len() > 0 && prev.last().0 == s.last().0 {
            prev.drop_last().push(s.last())
        } else {
            prev.push(s.last())
        }
    }
}

/// The pane ids of the snapshot (with an id).
pub open spec fn live_ids(ps: Seq<Pane>) -> Seq<Seq<char>> {
    live_rows(ps).map_values(|r: (Seq<char>, Seq<char>, Seq<char>, int)| r.0)
}

/// Sort rows of the recorded ids that are no longer live.
pub open spec fn gone_rows(es: Seq<(String, Json)>, live: Seq<Seq<char>>) -> Seq<(Seq<char>, Seq<char>, Seq<char>, int)>
    decreases es.len(),
{
    if es.len() == 0 {
        Seq::empty()
    } else if live.contains(es.last().0@) {
        gone_rows(es.drop_last(), live)
    } else {
        gone_rows(es.drop_last(), live).push((es.last().0@, Seq::empty(), Seq::empty(), es.len() - 1))
    }
}

pub open spec fn pruned_ids(prev: Json, live: Seq<Seq<char>>) -> Seq<Seq<char>> {
    match prev {
        Json::Object { entries, .. } => sort3(gone_rows(entries@, live)).map_values(
            |r: (Seq<char>, Seq<char>, Seq<char>, int)| r.0,
        ),
        _ => Seq::empty(),
    }
}

/// The map's workspace after the update: the given one when non-blank,
/// else the one it had.
pub open spec fn workspace_choice(state: Json, given: Option<Seq<char>>) -> Result<Json, Seq<char>> {
    match given {
        Some(w) if w.len() > 0 => Err(w),
        _ => match json_get(state, "cmux_workspace"@) {
            Some(v) => Ok(v),
            None => Ok(Json::Null),
        },
    }
}

/// The association map rewritten from a live snapshot: one record per pane
/// id (the last pane with it), ordered by id; the recorded ids no longer
/// live, sorted; and the map's workspace.
#[derive(Debug)]
pub struct AssociationUpdate {
    pub panes: Vec<AssociationRecord>,
    pub pruned: Vec<String>,
    pub cmux_workspace: Json,
}

fn sort_rows(rows: &Vec<(String, String, String, u64)>) -> (r: Vec<(String, String, String, u64)>)
    ensures
        keys3_view(r@) == sort3(keys3_view(rows@)),
        r@.len() == rows@.len(),
        forall|i: int| 0 <= i < r@.len() ==> keys3_view(rows@).contains(#[trigger] keys3_view(r@)[i]),
{
    let r = sort_keys3(rows);
    proof {
        let leq = |x: (Seq<char>, Seq<char>, Seq<char>, int), y: (Seq<char>, Seq<char>, Seq<char>, int)| key3_le(x, y);
        crate::order::lemma_key3_total_ordering();
        keys3_view(rows@).lemma_sort_by_ensures(leq);
        vstd::seq_lib::to_multiset_len(keys3_view(rows@));
        vstd::seq_lib::to_multiset_len(keys3_view(rows@).sort_by(leq));
        assert forall|i: int| 0 <= i < r@.len() implies keys3_view(rows@).contains(#[trigger] keys3_view(r@)[i]) by {
            assert(keys3_view(r@).contains(keys3_view(r@)[i]));
        }
    }
    r
}

/// Rewrite the association map `state` from a live snapshot (see
/// [`AssociationUpdate`] and [`update_record_ok`]). The `HERDR_PANE_ID`,
/// `HERDR_TAB_ID` and `HERDR_WORKSPACE_ID` values are passed in.
pub fn update_association_map(
    state: &Json,
    snapshot: &Snapshot,
    cmux_workspace: Option<&str>,
    write_meta: Option<&Json>,
    env_pane: Option<&str>,
    env_tab: Option<&str>,
    env_ws: Option<&str>,
) -> (r: AssociationUpdate)
    ensures
        ({
            let ps = snapshot.panes@;
            let kept = last_of_runs(sort3(live_rows(ps)));
            &&& r.panes@.len() == kept.len()
            &&& forall|k: int|
                0 <= k < kept.len() ==> 0 <= kept[k].3 < ps.len() && update_record_ok(
                    #[trigger] r.panes@[k],
                    ps[kept[k].3],
                    *state,
                    snapshot.tabs@,
                    opt_ref(write_meta),
                    (opt_str_view(env_pane), opt_str_view(env_tab), opt_str_view(env_ws)),
                )
        }),
        strings_view(r.pruned@) == pruned_ids(previous_panes(*state), live_ids(snapshot.panes@)),
        holds(r.cmux_workspace, workspace_choice(*state, opt_str_view(cmux_workspace))),
{
    let ghost ps = snapshot.panes@;
    let ghost env = (opt_str_view(env_pane), opt_str_view(env_tab), opt_str_view(env_ws));
    let null = Json::Null;
    let prev: &Json = match state.get("panes") {
        Some(p) => if p.is_object() {
            p
        } else {
            &null
        },
        None => &null,
    };
    assert(*prev == previous_panes(*state));
    let mut rows: Vec<(String, String, String, u64)> = Vec::new();
    let mut i: usize = 0;
    while i < snapshot.panes.len()
        invariant
            i <= snapshot.panes.len(),
            ps == snapshot.panes@,
            keys3_view(rows@) == live_rows(ps.take(i as int)),
            forall|q: int| 0 <= q < rows@.len() ==> #[trigger] rows@[q].3 < i,
        decreases snapshot.panes.len() - i,
    {
        assert(ps.take(i + 1).drop_last() =~= ps.take(i as int));
        assert(ps.take(i + 1).last() == ps[i as int]);
        let p = &snapshot.panes[i];
        if !p.pane_id.as_str().is_empty() {
            let ghost pre = keys3_view(rows@);
            rows.push((p.pane_id.clone(), String::new(), String::new(), i as u64));
            assert(keys3_view(rows@) =~= pre.push((p.pane_id@, Seq::<char>::empty(), Seq::<char>::empty(), i as int)));
        }
        i += 1;
    }
    assert(ps.take(ps.len() as int) =~= ps);
    let live: Vec<String> = {
        let mut v: Vec<String> = Vec::new();
        let mut j: usize = 0;
        while j < rows.len()
            invariant
                j <= rows.len(),
                strings_view(v@) == keys3_view(rows@).take(j as int).map_values(
                    |r: (Seq<char>, Seq<char>, Seq<char>, int)| r.0,
                ),
            decreases rows.len() - j,
        {
            let ghost pre = strings_view(v@);
            v.push(rows[j].0.clone());
            assert(strings_view(v@) =~= pre.push(rows@[j as int].0@));
            assert(keys3_view(rows@).take(j + 1).map_values(|r: (Seq<char>, Seq<char>, Seq<char>, int)| r.0)
                =~= keys3_view(rows@).take(j as int).map_values(|r: (Seq<char>, Seq<char>, Seq<char>, int)| r.0).push(
                rows@[j as int].0@,
            ));
            j += 1;
        }
        assert(keys3_view(rows@).take(rows@.len() as int) =~= keys3_view(rows@));
        v
    };
    assert(strings_view(live@) == live_ids(ps));
    let sorted = sort_rows(&rows);
    let ghost sv = keys3_view(sorted@);
    proof {
        assert forall|q: int| 0 <= q < sv.len() implies #[trigger] sv[q].3 < ps.len() by {
            assert(keys3_view(rows@).contains(sv[q]));
            let w = choose|w: int| 0 <= w < rows@.len() && keys3_view(rows@)[w] == sv[q];
            assert(rows@[w].3 < ps.len());
        }
    }
    let mut kept: Vec<usize> = Vec::new();
    let mut k: usize = 0;
    while k < sorted.len()
        invariant
            k <= sorted.len(),
            sv == keys3_view(sorted@),
            forall|q: int| 0 <= q < sv.len() ==> #[trigger] sv[q].3 < ps.len(),
            kept@.len() == last_of_runs(sv.take(k as int)).len(),
            forall|q: int| 0 <= q < kept@.len() ==> #[trigger] sv[kept@[q] as int] == last_of_runs(sv.take(k as int))[q],
            forall|q: int| 0 <= q < kept@.len() ==> #[trigger] kept@[q] < k,
        decreases sorted.len() - k,
    {
        let ghost pre = last_of_runs(sv.take(k as int));
        assert(sv.take(k + 1).drop_last() =~= sv.take(k as int));
        assert(sv.take(k + 1).last() == sv[k as int]);
        let n = kept.len();
        let ghost kb = kept@;
        proof {
            if n > 0 {
                assert(sv[kb[n - 1] as int] == pre[n - 1]);
                assert(pre.last() == pre[n - 1]);
                assert(sv[kb[n - 1] as int].0 == sorted@[kb[n - 1] as int].0@);
            }
            assert(sv[k as int].0 == sorted@[k as int].0@);
        }
        if n > 0 && str_eq(sorted[kept[n - 1]].0.as_str(), sorted[k].0.as_str()) {
            kept.set(n - 1, k);
            proof {
                let now = last_of_runs(sv.take(k + 1));
                assert(now == pre.drop_last().push(sv[k as int]));
                assert forall|q: int| 0 <= q < kept@.len() implies #[trigger] sv[kept@[q] as int] == now[q] by {
                    if q < n - 1 {
                        assert(kept@[q] == kb[q]);
                    }
                }
            }
        } else {
            kept.push(k);
            proof {
                let now = last_of_runs(sv.take(k + 1));
                assert(now == pre.push(sv[k as int]));
                assert forall|q: int| 0 <= q < kept@.len() implies #[trigger] sv[kept@[q] as int] == now[q] by {
                    if q < n {
                        assert(kept@[q] == kb[q]);
                    }
                }
            }
        }
        k += 1;
    }
    assert(sv.take(sv.len() as int) =~= sv);
    let ghost kv = last_of_runs(sort3(live_rows(ps)));
    assert(kv == last_of_runs(sv));
    let mut records: Vec<AssociationRecord> = Vec::new();
    let mut m: usize = 0;
    while m < kept.len()
        invariant
            m <= kept.len(),
            ps == snapshot.panes@,
            sv == keys3_view(sorted@),
            kv == last_of_runs(sv),
            kept@.len() == kv.len(),
            forall|q: int| 0 <= q < sv.len() ==> #[trigger] sv[q].3 < ps.len(),
            forall|q: int| 0 <= q < kept@.len() ==> #[trigger] sv[kept@[q] as int] == kv[q],
            forall|q: int| 0 <= q < kept@.len() ==> #[trigger] kept@[q] < sv.len(),
            *prev == previous_panes(*state),
            null is Null,
            env == (opt_str_view(env_pane), opt_str_view(env_tab), opt_str_view(env_ws)),
            records@.len() == m,
            forall|q: int| 0 <= q < m ==> 0 <= #[trigger] kv[q].3 < ps.len(),
            forall|q: int|
                0 <= q < m ==> update_record_ok(
                    #[trigger] records@[q],
                    ps[kv[q].3],
                    *state,
                    snapshot.tabs@,
                    opt_ref(write_meta),
                    env,
                ),
        decreases kept.len() - m,
    {
        let row = kept[m];
        assert(sv[row as int] == kv[m as int]);
        let total = snapshot.panes.len();
        assert(row < sv.len());
        assert(sv[row as int].3 < ps.len());
        assert(sv[row as int].3 == sorted@[row as int].3);
        assert(sorted@[row as int].3 < total);
        let idx = sorted[row].3 as usize;
        assert(idx as int == kv[m as int].3);
        let pane = &snapshot.panes[idx];
        let prior: &Json = match prior_for_pane(pane, prev) {
            Some(p) => p,
            None => &null,
        };
        assert(*prior == prior_of(*pane, previous_panes(*state)));
        let meta: Option<&Json> = match meta_get_exec(write_meta, pane.pane_id.as_str()) {
            Some(v) => if v.is_object() {
                Some(v)
            } else {
                None
            },
            None => None,
        };
        assert(opt_ref(meta) == pane_meta(opt_ref(write_meta), pane.pane_id@));
        let parents = resolve_association_parents(env_pane, env_tab, env_ws, pane, prior, Some(snapshot));
        let overrides = is_truthy(meta_get_exec(meta, "parent_tab_id")) || match meta_get_exec(
            meta,
            "heuristic_satisfied",
        ) {
            Some(v) => !v.is_null(),
            None => false,
        };
        let tab_value = match meta_get_exec(meta, "parent_tab_id") {
            Some(v) if overrides => parent_value_exec(Some(v), &pane.tab_id),
            _ => match &parents.parent_tab_id {
                Some(t) => Json::Str(t.clone()),
                None => Json::Str(pane.tab_id.clone()),
            },
        };
        let ws_value = match meta_get_exec(meta, "parent_workspace_id") {
            Some(v) if overrides => parent_value_exec(Some(v), &pane.workspace_id),
            _ => match &parents.parent_workspace_id {
                Some(t) => Json::Str(t.clone()),
                None => Json::Str(pane.workspace_id.clone()),
            },
        };
        let heuristic = match meta_get_exec(meta, "heuristic_satisfied") {
            Some(v) if overrides => is_truthy(Some(v)),
            _ => parents.heuristic_satisfied,
        };
        let record = record_with(pane, prior, tab_value, ws_value, heuristic, meta);
        assert(update_record_ok(record, ps[kv[m as int].3], *state, snapshot.tabs@, opt_ref(write_meta), env));
        let ghost before = records@;
        records.push(record);
        proof {
            assert(0 <= kv[m as int].3 < ps.len());
            assert forall|q: int|
                0 <= q < m + 1 implies update_record_ok(
                #[trigger] records@[q],
                ps[kv[q].3],
                *state,
                snapshot.tabs@,
                opt_ref(write_meta),
                env,
            ) by {
                if q < m {
                    assert(records@[q] == before[q]);
                } else {
                    assert(sv[kept@[q] as int] == kv[q]);
                }
            }
        }
        m += 1;
    }
    let mut gone: Vec<(String, String, String, u64)> = Vec::new();
    match prev {
        Json::Object { entries, .. } => {
            let mut e: usize = 0;
            while e < entries.len()
                invariant
                    e <= entries.len(),
                    strings_view(live@) == live_ids(ps),
                    keys3_view(gone@) == gone_rows(entries@.take(e as int), live_ids(ps)),
                decreases entries.len() - e,
            {
                assert(entries@.take(e + 1).drop_last() =~= entries@.take(e as int));
                assert(entries@.take(e + 1).last() == entries@[e as int]);
                if !crate::text::contains_str(&live, entries[e].0.as_str()) {
                    let ghost pre = keys3_view(gone@);
                    gone.push((entries[e].0.clone(), String::new(), String::new(), e as u64));
                    assert(keys3_view(gone@) =~= pre.push(
                        (entries@[e as int].0@, Seq::<char>::empty(), Seq::<char>::empty(), e as int),
                    ));
                }
                e += 1;
            }
            assert(entries@.take(entries@.len() as int) =~= entries@);
        },
        _ => {},
    }
    let gone_sorted = sort_rows(&gone);
    let mut pruned: Vec<String> = Vec::new();
    let ghost gv = keys3_view(gone_sorted@);
    let mut g: usize = 0;
    while g < gone_sorted.len()
        invariant
            g <= gone_sorted.len(),
            gv == keys3_view(gone_sorted@),
            strings_view(pruned@) == gv.take(g as int).map_values(|r: (Seq<char>, Seq<char>, Seq<char>, int)| r.0),
        decreases gone_sorted.len() - g,
    {
        let ghost pre = strings_view(pruned@);
        pruned.push(gone_sorted[g].0.clone());
        assert(strings_view(pruned@) =~= pre.push(gone_sorted@[g as int].0@));
        assert(gv.take(g + 1).map_values(|r: (Seq<char>, Seq<char>, Seq<char>, int)| r.0) =~= gv.take(
            g as int,
        ).map_values(|r: (Seq<char>, Seq<char>, Seq<char>, int)| r.0).push(gone_sorted@[g as int].0@));
        g += 1;
    }
    proof {
        assert(gv.take(gv.len() as int) =~= gv);
        if !(*prev is Object) {
            assert(keys3_view(gone@) =~= Seq::empty());
        }
    }
    let ws = match cmux_workspace {
        Some(w) if !w.is_empty() => Json::Str(owned(w)),
        _ => match state.get("cmux_workspace") {
            Some(v) => copy_json(v),
            None => Json::Null,
        },
    };
    AssociationUpdate { panes: records, pruned, cmux_workspace: ws }
}

/// The recorded entry of a pane, when it is a non-empty object.
pub open spec fn entry_for(state: Json, id: Seq<char>) -> Option<Json> {
    match json_get(previous_panes(state), id) {
        Some(e) => if e is Object && truthy(Some(e)) {
            Some(e)
        } else {
            None
        },
        None => None,
    }
}

/// How a title lock changes a pane's entry: the (trimmed) pane, the entry
/// it starts from (`None`: a fresh entry naming the pane, its status key
/// and association key), the new lock, and the locked title to store
/// (`None` while locking: keep the stored one; while unlocking the title
/// is removed).
#[derive(Debug)]
pub struct TitleLockChange {
    pub pane_id: String,
    pub base: Option<Json>,
    pub title_lock: bool,
    pub locked_title: Option<Json>,
}

/// The locked title to store: a non-blank given title (trimmed); else,
/// unless the entry holds a truthy one, its truthy label, else the pane id.
pub open spec fn locked_title_choice(base: Option<Json>, id: Seq<char>, title: Option<Seq<char>>) -> Option<
    Result<Json, Seq<char>>,
> {
    let t = trim(
        match title {
            Some(x) => x,
            None => Seq::empty(),
        },
    );
    if title is Some && t.len() > 0 {
        Some(Err(t))
    } else if truthy(opt_get(base, "locked_title"@)) {
        None
    } else if truthy(opt_get(base, "label"@)) {
        Some(Ok(opt_get(base, "label"@).unwrap()))
    } else {
        Some(Err(id))
    }
}

/// Set or clear the title lock of one pane's entry in `state` (see
/// [`TitleLockChange`]); a blank pane id is refused.
pub fn title_lock_change(state: &Json, pane_id: &str, locked: bool, title: Option<&str>) -> (r: Result<
    TitleLockChange,
    String,
>)
    ensures
        match r {
            Err(e) => trim(pane_id@).len() == 0 && e@ == "pane_id is required to lock or unlock a title"@,
            Ok(c) => {
                &&& trim(pane_id@).len() > 0
                &&& c.pane_id@ == trim(pane_id@)
                &&& match (c.base, entry_for(*state, trim(pane_id@))) {
                    (Some(b), Some(e)) => json_eq(e, b),
                    (None, None) => true,
                    _ => false,
                }
                &&& c.title_lock == locked
                &&& if locked {
                    match (c.locked_title, locked_title_choice(entry_for(*state, trim(pane_id@)), trim(pane_id@), opt_str_view(title))) {
                        (Some(v), Some(w)) => holds(v, w),
                        (None, None) => true,
                        _ => false,
                    }
                } else {
                    c.locked_title is None
                }
            },
        },
{
    let id = trim_str(pane_id);
    if id.as_str().is_empty() {
        return Err(owned("pane_id is required to lock or unlock a title"));
    }
    let null = Json::Null;
    let prev: &Json = match state.get("panes") {
        Some(p) => if p.is_object() {
            p
        } else {
            &null
        },
        None => &null,
    };
    let entry: Option<&Json> = match prev.get(id.as_str()) {
        Some(e) => if e.is_object() && is_truthy(Some(e)) {
            Some(e)
        } else {
            None
        },
        None => None,
    };
    assert(opt_ref(entry) == entry_for(*state, id@));
    let locked_title: Option<Json> = if !locked {
        None
    } else {
        let given = match title {
            Some(t) => trim_str(t),
            None => String::new(),
        };
        if title.is_some() && !given.as_str().is_empty() {
            Some(Json::Str(given))
        } else {
            let stored = match entry {
                Some(e) => e.get("locked_title"),
                None => None,
            };
            let label = match entry {
                Some(e) => e.get("label"),
                None => None,
            };
            assert(opt_ref(stored) == opt_get(entry_for(*state, id@), "locked_title"@));
            assert(opt_ref(label) == opt_get(entry_for(*state, id@), "label"@));
            if is_truthy(stored) {
                None
            } else if is_truthy(label) {
                match label {
                    Some(l) => Some(copy_json(l)),
                    None => None,
                }
            } else {
                Some(Json::Str(id.clone()))
            }
        }
    };
    proof {
        reveal_strlit("");
        assert(trim(Seq::<char>::empty()) =~= Seq::<char>::empty()) by {
            crate::text::lemma_trim_lo_bound(Seq::<char>::empty());
        }
    }
    let base = match entry {
        Some(e) => Some(copy_json(e)),
        None => None,
    };
    Ok(TitleLockChange { pane_id: id, base, title_lock: locked, locked_title })
}

// ---- the association summary -------------------------------------------------------

/// A value as the summary prints it: strings verbatim, `True`/`False`,
/// `None`, anything else its JSON text.
pub open spec fn plain_text(v: Json) -> Seq<char> {
    match v {
        Json::Str(s) => s@,
        Json::Bool(b) => if b {
            "True"@
        } else {
            "False"@
        },
        Json::Null => "None"@,
        other => crate::json::json_text(other),
    }
}

/// A truthy value as text, else `d`.
pub open spec fn text_or(v: Option<Json>, d: Seq<char>) -> Seq<char> {
    if truthy(v) {
        plain_text(v.unwrap())
    } else {
        d
    }
}

/// `s` padded with spaces to at least `n` characters.
pub open spec fn pad(s: Seq<char>, n: nat) -> Seq<char> {
    if s.len() < n {
        s + Seq::new((n - s.len()) as nat, |i: int| ' ')
    } else {
        s
    }
}

/// A session shown in at most 60 characters: longer ones keep their last
/// 57 after an ellipsis.
pub open spec fn short_session(s: Seq<char>) -> Seq<char> {
    if s.len() > 60 {
        seq!['\u{2026}'] + s.subrange(s.len() - 57, s.len() as int)
    } else {
        s
    }
}

pub open spec fn obj_entry(v: Option<Json>) -> Option<Json> {
    match v {
        Some(e) => if e is Object {
            Some(e)
        } else {
            None
        },
        None => None,
    }
}

/// One pane line of the summary.
pub open spec fn pane_line(id: Seq<char>, entry: Option<Json>) -> Seq<char> {
    let session = short_session(
        if truthy(opt_get(entry, "agent_session_path"@)) {
            plain_text(opt_get(entry, "agent_session_path"@).unwrap())
        } else {
            text_or(opt_get(entry, "agent_session_id"@), "-"@)
        },
    );
    let lock = if truthy(opt_get(entry, "title_lock"@)) {
        "Y"@
    } else {
        "n"@
    };
    let heur = if truthy(opt_get(entry, "heuristic_satisfied"@)) {
        "Y"@
    } else {
        "n"@
    };
    let parent = if truthy(opt_get(entry, "parent_tab_id"@)) {
        plain_text(opt_get(entry, "parent_tab_id"@).unwrap())
    } else {
        text_or(opt_get(entry, "tab_id"@), "-"@)
    };
    "  "@ + pad(id, 10) + "  "@ + pad(text_or(opt_get(entry, "agent_status"@), "?"@), 8) + "  "@ + pad(
        text_or(opt_get(entry, "agent"@), "-"@),
        8,
    ) + "  "@ + text_or(opt_get(entry, "status_key"@), "-"@) + "  parent="@ + parent + "  lock="@ + lock
        + "  heur="@ + heur + "  session="@ + session
}

/// One mirror line of the summary.
pub open spec fn mirror_line(id: Seq<char>, entry: Option<Json>) -> Seq<char> {
    "  "@ + pad(id, 10) + "  "@ + pad(text_or(opt_get(entry, "role"@), "?"@), 8) + "  "@ + text_or(
        opt_get(entry, "cmux_surface_id"@),
        "-"@,
    ) + "  "@ + text_or(opt_get(entry, "title"@), "-"@)
}

/// The keys of an object, sorted.
pub open spec fn sorted_keys(v: Option<Json>) -> Seq<Seq<char>> {
    match v {
        Some(Json::Object { entries, .. }) => sort3(
            Seq::new(entries@.len(), |i: int| (entries@[i].0@, Seq::<char>::empty(), Seq::<char>::empty(), i)),
        ).map_values(|r: (Seq<char>, Seq<char>, Seq<char>, int)| r.0),
        _ => Seq::empty(),
    }
}

pub open spec fn entry_count(v: Option<Json>) -> nat {
    match v {
        Some(Json::Object { entries, .. }) => entries@.len(),
        _ => 0,
    }
}

/// The lines of the association summary of `data`: counts, the map's
/// identity (the fingerprint from `key` when the map names none, and the
/// file), a line per pane, and a line per mirror under `mirrors:`.
pub open spec fn association_lines(data: Json, key: Seq<char>, file: Seq<char>) -> Seq<Seq<char>> {
    let panes = obj_entry(json_get(data, "panes"@));
    let mirrors = obj_entry(json_get(data, "mirrors"@));
    let head = seq![
        "associations: "@ + crate::text::dec_int(entry_count(panes) as int) + " panes, "@
            + crate::text::dec_int(entry_count(mirrors) as int) + " mirrored surfaces"@,
        "  cmux_workspace="@ + text_or(json_get(data, "cmux_workspace"@), "-"@),
        "  herdr_workspace="@ + text_or(json_get(data, "herdr_workspace_id"@), "-"@),
        "  surface="@ + text_or(json_get(data, "cmux_surface_id"@), "-"@),
        "  herdr_pid="@ + text_or(json_get(data, "herdr_server_pid"@), "-"@),
        "  fingerprint="@ + text_or(json_get(data, "host_fingerprint_key"@), key),
        "  file="@ + file,
    ];
    let pk = sorted_keys(panes);
    let mk = sorted_keys(mirrors);
    let pane_lines = Seq::new(pk.len(), |i: int| pane_line(pk[i], obj_entry(opt_get(panes, pk[i]))));
    let mirror_lines = Seq::new(mk.len(), |i: int| mirror_line(mk[i], obj_entry(opt_get(mirrors, mk[i]))));
    head + pane_lines + if mk.len() > 0 {
        seq!["mirrors:"@] + mirror_lines
    } else {
        Seq::empty()
    }
}

fn plain_text_exec(v: &Json) -> (r: String)
    ensures
        r@ == plain_text(*v),
{
    match v {
        Json::Str(s) => s.clone(),
        Json::Bool(b) => if *b {
            owned("True")
        } else {
            owned("False")
        },
        Json::Null => owned("None"),
        other => other.text(),
    }
}

fn text_or_exec(v: Option<&Json>, d: &str) -> (r: String)
    ensures
        r@ == text_or(opt_ref(v), d@),
{
    if is_truthy(v) {
        match v {
            Some(x) => plain_text_exec(x),
            None => owned(d),
        }
    } else {
        owned(d)
    }
}

fn pad_exec(s: String, n: usize) -> (r: String)
    ensures
        r@ == pad(s@, n as nat),
{
    let len = crate::text::chars_of(s.as_str()).len();
    let mut out = s;
    let ghost start = out@;
    if len < n {
        let mut k: usize = len;
        while k < n
            invariant
                len <= k <= n,
                start.len() == len,
                out@ == start + Seq::new((k - len) as nat, |i: int| ' '),
            decreases n - k,
        {
            let ghost pre = out@;
            push_char(&mut out, ' ');
            assert(out@ =~= start + Seq::new((k + 1 - len) as nat, |i: int| ' '));
            k += 1;
        }
    }
    out
}

fn get_of<'a>(entry: Option<&'a Json>, k: &str) -> (r: Option<&'a Json>)
    ensures
        opt_ref(r) == opt_get(opt_ref(entry), k@),
{
    match entry {
        Some(e) => e.get(k),
        None => None,
    }
}

fn obj_entry_exec(v: Option<&Json>) -> (r: Option<&Json>)
    ensures
        opt_ref(r) == obj_entry(opt_ref(v)),
{
    match v {
        Some(e) => if e.is_object() {
            Some(e)
        } else {
            None
        },
        None => None,
    }
}

fn pane_line_exec(id: &str, entry: Option<&Json>) -> (r: String)
    ensures
        r@ == pane_line(id@, opt_ref(entry)),
{
    let path = get_of(entry, "agent_session_path");
    let raw_session = if is_truthy(path) {
        match path {
            Some(p) => plain_text_exec(p),
            None => owned("-"),
        }
    } else {
        text_or_exec(get_of(entry, "agent_session_id"), "-")
    };
    let chars = crate::text::chars_of(raw_session.as_str());
    let session = if chars.len() > 60 {
        let tail = string_from(&chars, chars.len() - 57, chars.len());
        concat2("\u{2026}", tail.as_str())
    } else {
        raw_session
    };
    proof {
        reveal_strlit("\u{2026}");
    }
    let lock = if is_truthy(get_of(entry, "title_lock")) {
        "Y"
    } else {
        "n"
    };
    let heur = if is_truthy(get_of(entry, "heuristic_satisfied")) {
        "Y"
    } else {
        "n"
    };
    let ptab = get_of(entry, "parent_tab_id");
    let parent = if is_truthy(ptab) {
        match ptab {
            Some(p) => plain_text_exec(p),
            None => owned("-"),
        }
    } else {
        text_or_exec(get_of(entry, "tab_id"), "-")
    };
    let mut out = owned("  ");
    out.append(pad_exec(owned(id), 10).as_str());
    out.append("  ");
    out.append(pad_exec(text_or_exec(get_of(entry, "agent_status"), "?"), 8).as_str());
    out.append("  ");
    out.append(pad_exec(text_or_exec(get_of(entry, "agent"), "-"), 8).as_str());
    out.append("  ");
    out.append(text_or_exec(get_of(entry, "status_key"), "-").as_str());
    out.append("  parent=");
    out.append(parent.as_str());
    out.append("  lock=");
    out.append(lock);
    out.append("  heur=");
    out.append(heur);
    out.append("  session=");
    out.append(session.as_str());
    out
}

fn mirror_line_exec(id: &str, entry: Option<&Json>) -> (r: String)
    ensures
        r@ == mirror_line(id@, opt_ref(entry)),
{
    let mut out = owned("  ");
    out.append(pad_exec(owned(id), 10).as_str());
    out.append("  ");
    out.append(pad_exec(text_or_exec(get_of(entry, "role"), "?"), 8).as_str());
    out.append("  ");
    out.append(text_or_exec(get_of(entry, "cmux_surface_id"), "-").as_str());
    out.append("  ");
    out.append(text_or_exec(get_of(entry, "title"), "-").as_str());
    out
}

fn sorted_keys_exec(v: Option<&Json>) -> (r: Vec<String>)
    ensures
        strings_view(r@) == sorted_keys(opt_ref(v)),
{
    let mut rows: Vec<(String, String, String, u64)> = Vec::new();
    match v {
        Some(Json::Object { entries, .. }) => {
            let ghost want = Seq::new(
                entries@.len(),
                |i: int| (entries@[i].0@, Seq::<char>::empty(), Seq::<char>::empty(), i),
            );
            let mut i: usize = 0;
            while i < entries.len()
                invariant
                    i <= entries.len(),
                    want == Seq::new(
                        entries@.len(),
                        |i: int| (entries@[i].0@, Seq::<char>::empty(), Seq::<char>::empty(), i),
                    ),
                    keys3_view(rows@) == want.take(i as int),
                decreases entries.len() - i,
            {
                let ghost pre = keys3_view(rows@);
                rows.push((entries[i].0.clone(), String::new(), String::new(), i as u64));
                assert(keys3_view(rows@) =~= pre.push(want[i as int]));
                assert(want.take(i + 1) =~= want.take(i as int).push(want[i as int]));
                i += 1;
            }
            assert(want.take(entries@.len() as int) =~= want);
        },
        _ => {},
    }
    let sorted = sort_rows(&rows);
    let ghost sv = keys3_view(sorted@);
    let mut out: Vec<String> = Vec::new();
    let mut j: usize = 0;
    while j < sorted.len()
        invariant
            j <= sorted.len(),
            sv == keys3_view(sorted@),
            strings_view(out@) == sv.take(j as int).map_values(|r: (Seq<char>, Seq<char>, Seq<char>, int)| r.0),
        decreases sorted.len() - j,
    {
        let ghost pre = strings_view(out@);
        out.push(sorted[j].0.clone());
        assert(strings_view(out@) =~= pre.push(sorted@[j as int].0@));
        assert(sv.take(j + 1).map_values(|r: (Seq<char>, Seq<char>, Seq<char>, int)| r.0) =~= sv.take(
            j as int,
        ).map_values(|r: (Seq<char>, Seq<char>, Seq<char>, int)| r.0).push(sorted@[j as int].0@));
        j += 1;
    }
    proof {
        assert(sv.take(sv.len() as int) =~= sv);
        match opt_ref(v) {
            Some(Json::Object { .. }) => {},
            _ => {
                assert(keys3_view(rows@) =~= Seq::empty());
            },
        }
    }
    out
}

fn entry_count_exec(v: Option<&Json>) -> (r: usize)
    ensures
        r == entry_count(opt_ref(v)),
{
    match v {
        Some(Json::Object { entries, .. }) => entries.len(),
        _ => 0,
    }
}

/// The association summary of a map (see [`association_lines`]), its lines
/// joined by newlines; `key` is the host's fingerprint key and `file` the
/// map's path.
pub fn format_associations(data: &Json, key: &str, file: &str) -> (r: String)
    ensures
        r@ == crate::layout::join(association_lines(*data, key@, file@), "\n"@),
{
    let panes = obj_entry_exec(data.get("panes"));
    let mirrors = obj_entry_exec(data.get("mirrors"));
    let mut lines: Vec<String> = Vec::new();
    let mut first = owned("associations: ");
    first.append(crate::text::nat_to_string(entry_count_exec(panes) as u64).as_str());
    first.append(" panes, ");
    first.append(crate::text::nat_to_string(entry_count_exec(mirrors) as u64).as_str());
    first.append(" mirrored surfaces");
    lines.push(first);
    lines.push(concat2("  cmux_workspace=", text_or_exec(data.get("cmux_workspace"), "-").as_str()));
    lines.push(concat2("  herdr_workspace=", text_or_exec(data.get("herdr_workspace_id"), "-").as_str()));
    lines.push(concat2("  surface=", text_or_exec(data.get("cmux_surface_id"), "-").as_str()));
    lines.push(concat2("  herdr_pid=", text_or_exec(data.get("herdr_server_pid"), "-").as_str()));
    lines.push(concat2("  fingerprint=", text_or_exec(data.get("host_fingerprint_key"), key).as_str()));
    lines.push(concat2("  file=", file));
    let ghost pv = opt_ref(panes);
    let ghost mvv = opt_ref(mirrors);
    let ghost head = strings_view(lines@);
    proof {
        let hs = seq![
            "associations: "@ + crate::text::dec_int(entry_count(pv) as int) + " panes, "@
                + crate::text::dec_int(entry_count(mvv) as int) + " mirrored surfaces"@,
            "  cmux_workspace="@ + text_or(json_get(*data, "cmux_workspace"@), "-"@),
            "  herdr_workspace="@ + text_or(json_get(*data, "herdr_workspace_id"@), "-"@),
            "  surface="@ + text_or(json_get(*data, "cmux_surface_id"@), "-"@),
            "  herdr_pid="@ + text_or(json_get(*data, "herdr_server_pid"@), "-"@),
            "  fingerprint="@ + text_or(json_get(*data, "host_fingerprint_key"@), key@),
            "  file="@ + file@,
        ];
        assert(head[0] == hs[0]);
        assert(head =~= hs);
    }
    let pk = sorted_keys_exec(panes);
    let mut i: usize = 0;
    while i < pk.len()
        invariant
            i <= pk.len(),
            pv == opt_ref(panes),
            strings_view(pk@) == sorted_keys(pv),
            strings_view(lines@) == head + Seq::new(
                i as nat,
                |q: int| pane_line(sorted_keys(pv)[q], obj_entry(opt_get(pv, sorted_keys(pv)[q]))),
            ),
        decreases pk.len() - i,
    {
        let e = obj_entry_exec(get_of(panes, pk[i].as_str()));
        let line = pane_line_exec(pk[i].as_str(), e);
        let ghost pre = strings_view(lines@);
        assert(pk@[i as int]@ == sorted_keys(pv)[i as int]);
        lines.push(line);
        assert(strings_view(lines@) =~= pre.push(line@));
        assert(strings_view(lines@) =~= head + Seq::new(
            (i + 1) as nat,
            |q: int| pane_line(sorted_keys(pv)[q], obj_entry(opt_get(pv, sorted_keys(pv)[q]))),
        ));
        i += 1;
    }
    let mk = sorted_keys_exec(mirrors);
    if mk.len() > 0 {
        lines.push(owned("mirrors:"));
        let ghost mid = strings_view(lines@);
        let mut j: usize = 0;
        while j < mk.len()
            invariant
                j <= mk.len(),
                mvv == opt_ref(mirrors),
                strings_view(mk@) == sorted_keys(mvv),
                strings_view(lines@) == mid + Seq::new(
                    j as nat,
                    |q: int| mirror_line(sorted_keys(mvv)[q], obj_entry(opt_get(mvv, sorted_keys(mvv)[q]))),
                ),
            decreases mk.len() - j,
        {
            let e = obj_entry_exec(get_of(mirrors, mk[j].as_str()));
            let line = mirror_line_exec(mk[j].as_str(), e);
            let ghost pre = strings_view(lines@);
            assert(mk@[j as int]@ == sorted_keys(mvv)[j as int]);
            lines.push(line);
            assert(strings_view(lines@) =~= pre.push(line@));
            assert(strings_view(lines@) =~= mid + Seq::new(
                (j + 1) as nat,
                |q: int| mirror_line(sorted_keys(mvv)[q], obj_entry(opt_get(mvv, sorted_keys(mvv)[q]))),
            ));
            j += 1;
        }
    }
    assert(strings_view(lines@) =~= association_lines(*data, key@, file@));
    crate::sidebar::join_lines(&lines, "\n")
}


/// A stored text field matches the fingerprint's: the same text, or null
/// for an unset field.
pub open spec fn field_matches(v: Option<Json>, f: Option<String>) -> bool {
    match v {
        Some(Json::Str(x)) => f matches Some(t) && x@ == t@,
        Some(Json::Null) => f is None,
        _ => false,
    }
}

/// A stored integer: a JSON number written as an integer, within `i64`.
pub open spec fn stored_int(v: Option<Json>) -> Option<i64> {
    match v {
        Some(Json::Number { text, whole, .. }) => if crate::model::int_text(text@) {
            whole
        } else {
            None
        },
        _ => None,
    }
}

/// A stored parent binding belongs to the fingerprint: the surface and the
/// socket match exactly; a workspace or server pid stored on both sides
/// (a non-empty text, an integer) must agree.
pub open spec fn binding_matches(data: Json, fp: Fingerprint) -> bool {
    &&& field_matches(json_get(data, "cmux_surface_id"@), fp.cmux_surface_id)
    &&& field_matches(json_get(data, "herdr_socket_path"@), fp.herdr_socket_path)
    &&& match (json_get(data, "herdr_workspace_id"@), fp.herdr_workspace_id) {
        (Some(Json::Str(s)), Some(c)) => s@.len() > 0 ==> s@ == c@,
        _ => true,
    }
    &&& match (stored_int(json_get(data, "herdr_server_pid"@)), fp.herdr_server_pid) {
        (Some(s), Some(c)) => s == c,
        _ => true,
    }
}

/// The workspace of a stored parent binding: its non-empty `workspace_ref`,
/// when the binding is an object that belongs to the fingerprint.
pub open spec fn binding_workspace_spec(data: Json, fp: Fingerprint) -> Option<Seq<char>> {
    if !(data is Object) || !binding_matches(data, fp) {
        None
    } else {
        match json_get(data, "workspace_ref"@) {
            Some(Json::Str(w)) => if w@.len() > 0 {
                Some(w@)
            } else {
                None
            },
            _ => None,
        }
    }
}

fn field_matches_exec(v: Option<&Json>, f: &Option<String>) -> (r: bool)
    ensures
        r == field_matches(opt_ref(v), *f),
{
    match v {
        Some(Json::Str(x)) => match f {
            Some(t) => str_eq(x.as_str(), t.as_str()),
            None => false,
        },
        Some(Json::Null) => f.is_none(),
        _ => false,
    }
}

fn stored_int_exec(v: Option<&Json>) -> (r: Option<i64>)
    ensures
        r == stored_int(opt_ref(v)),
{
    match v {
        Some(Json::Number { text, whole, .. }) => if crate::model::int_text_exec(text.as_str()) {
            *whole
        } else {
            None
        },
        _ => None,
    }
}

/// The workspace of a stored parent binding (see [`binding_workspace_spec`]).
pub fn parent_binding_workspace(data: &Json, fp: &Fingerprint) -> (r: Option<String>)
    ensures
        opt_view(r) == binding_workspace_spec(*data, *fp),
{
    if !data.is_object() {
        return None;
    }
    if !field_matches_exec(data.get("cmux_surface_id"), &fp.cmux_surface_id) {
        return None;
    }
    if !field_matches_exec(data.get("herdr_socket_path"), &fp.herdr_socket_path) {
        return None;
    }
    match (data.get("herdr_workspace_id"), &fp.herdr_workspace_id) {
        (Some(Json::Str(s)), Some(c)) => if !s.as_str().is_empty() && !str_eq(s.as_str(), c.as_str()) {
            return None;
        },
        _ => {},
    }
    match (stored_int_exec(data.get("herdr_server_pid")), fp.herdr_server_pid) {
        (Some(s), Some(c)) => if s != c {
            return None;
        },
        _ => {},
    }
    match data.get("workspace_ref") {
        Some(Json::Str(w)) => if !w.as_str().is_empty() {
            Some(w.clone())
        } else {
            None
        },
        _ => None,
    }
}

} // verus!
