//! The install report of `doctor`: what the probes of the host found,
//! turned into named checks, each ok or not, hard or soft, with a one-line
//! detail, and the list of hard failures.
use vstd::prelude::*;

use crate::json::{json_get, Json};
use crate::model::Pane;
use crate::layout::join;
use crate::sidebar::join_lines;
use crate::state::{fingerprint_missing_fields, parent_key, parent_key_spec, Fingerprint};
use crate::text::{concat2, concat3, dec_nat, is_prefix, lower, lower_str, nat_to_string, owned, str_eq, str_starts_with, strings_view, trim, trim_str};

verus! {

/// What the probes of the host found; the report is computed from it alone.
pub struct InstallProbes {
    /// Where `herdr` is on the search path, and the version it reports.
    pub herdr_path: Option<String>,
    pub herdr_version: Option<String>,
    /// The socket checked, whether its path came from the environment, and
    /// what is there.
    pub socket_path: String,
    pub socket_from_env: bool,
    pub socket_exists: bool,
    pub socket_mode: Option<String>,
    pub socket_owner: Option<String>,
    /// A ping over the socket: whether the reply was ok and which transport
    /// answered, or the error's message.
    pub ping: Result<(bool, String), String>,
    /// The invoking host's identity, and whether the environment claims a
    /// nested context.
    pub fingerprint: Fingerprint,
    pub claiming_nested: bool,
    /// The state directory, and the parent binding found there.
    pub state_dir: String,
    pub state_dir_exists: bool,
    pub binding_exists: bool,
    pub bound_workspace: Option<String>,
    /// Which side writes the projection.
    pub writer_native_live: bool,
    pub writer_force_plugin: bool,
    pub writer_native_detected: bool,
    pub writer_marker: Option<String>,
    /// The size authority from the environment (raw) and from its file.
    pub size_env: Option<String>,
    pub size_file: Option<String>,
    /// The association map of the host.
    pub association: Json,
    /// The watch service.
    pub launch_skipped: bool,
    pub launch_loaded: bool,
    pub launch_label: Option<String>,
    pub launch_reason: Option<String>,
    /// The sidebar script.
    pub sidebar_path: String,
    pub sidebar_exists: bool,
    /// The dry sync preview: skipped with reasons, or its summary.
    pub dry_sync_skipped: bool,
    pub dry_sync_summary: Option<String>,
    pub dry_sync_reasons: Vec<String>,
}

/// One check of the report.
#[derive(Debug, Clone, PartialEq, Eq)]
pub struct DoctorCheck {
    pub name: String,
    pub ok: bool,
    pub hard: bool,
    pub detail: String,
}

/// The report: overall verdict, hard failures, checks, and the title locks.
#[derive(Debug, Clone, PartialEq, Eq)]
pub struct InstallReport {
    pub ok: bool,
    pub hard_failures: Vec<String>,
    pub checks: Vec<DoctorCheck>,
    pub locked_count: usize,
    pub locked_panes: Vec<String>,
}

/// A check as values: name, ok, hard, detail.
pub type CheckView = (Seq<char>, bool, bool, Seq<char>);

pub open spec fn check_view(c: DoctorCheck) -> CheckView {
    (c.name@, c.ok, c.hard, c.detail@)
}

pub open spec fn checks_view(s: Seq<DoctorCheck>) -> Seq<CheckView> {
    s.map_values(|c: DoctorCheck| check_view(c))
}

/// `o`'s text, else `d`.
pub open spec fn or_text(o: Option<String>, d: Seq<char>) -> Seq<char> {
    match o {
        Some(s) => s@,
        None => d,
    }
}

pub open spec fn bool_text(b: bool) -> Seq<char> {
    if b {
        "true"@
    } else {
        "false"@
    }
}

/// The required fingerprint fields that are unset.
pub open spec fn missing_spec(fp: Fingerprint) -> Seq<Seq<char>> {
    (if fp.cmux_surface_id is None {
        seq!["CMUX_SURFACE_ID"@]
    } else {
        Seq::empty()
    }) + (if fp.herdr_socket_path is None {
        seq!["HERDR_SOCKET_PATH"@]
    } else {
        Seq::empty()
    })
}

pub open spec fn complete(p: InstallProbes) -> bool {
    missing_spec(p.fingerprint).len() == 0
}

pub open spec fn herdr_check(p: InstallProbes) -> CheckView {
    let ok = p.herdr_path is Some;
    (
        "herdr_cli"@,
        ok,
        true,
        if ok {
            "herdr on PATH ("@ + or_text(p.herdr_version, "version unknown"@) + ")"@
        } else {
            "herdr not found on PATH"@
        },
    )
}

pub open spec fn socket_check(p: InstallProbes) -> CheckView {
    (
        "herdr_socket"@,
        p.socket_exists,
        false,
        if p.socket_exists {
            "socket "@ + p.socket_path@ + " exists mode="@ + or_text(p.socket_mode, "-"@) + " owner="@
                + or_text(p.socket_owner, "-"@)
        } else if p.socket_from_env {
            "HERDR_SOCKET_PATH set but missing: "@ + p.socket_path@
        } else {
            "default socket absent: "@ + p.socket_path@
        },
    )
}

pub open spec fn api_check(p: InstallProbes) -> CheckView {
    match p.ping {
        Ok((ok, via)) => ("herdr_api"@, ok, false, "ping via "@ + via@),
        Err(e) => ("herdr_api"@, false, false, "ping failed: "@ + e@),
    }
}

pub open spec fn fingerprint_check(p: InstallProbes) -> CheckView {
    let missing = missing_spec(p.fingerprint);
    (
        "host_fingerprint"@,
        complete(p) || !p.claiming_nested,
        p.claiming_nested && !complete(p),
        if complete(p) {
            "complete key="@ + parent_key_spec(p.fingerprint)
        } else {
            "incomplete (missing "@ + join(missing, ", "@) + ")"@ + if p.claiming_nested {
                "; hard fail because HERDR_ENV claims nested context"@
            } else {
                "; ok for non-nested inspect commands"@
            }
        },
    )
}

pub open spec fn binding_check(p: InstallProbes) -> CheckView {
    let prefix = "state="@ + p.state_dir@ + " exists="@ + bool_text(p.state_dir_exists);
    (
        "state_binding"@,
        true,
        false,
        if !complete(p) {
            prefix + "; binding check skipped (incomplete fingerprint)"@
        } else {
            match p.bound_workspace {
                Some(w) => prefix + "; matching parent binding=yes ("@ + w@ + ")"@,
                None => if p.binding_exists {
                    prefix + "; matching parent binding=file present (workspace unset)"@
                } else {
                    prefix + "; matching parent binding=none"@
                },
            }
        },
    )
}

pub open spec fn writer_check(p: InstallProbes) -> CheckView {
    (
        "writer"@,
        true,
        false,
        if p.writer_native_live {
            "writer=native (plugin projection skipped); marker="@ + or_text(p.writer_marker, "-"@)
        } else if p.writer_force_plugin && p.writer_native_detected {
            "writer=plugin-forced (CMUX_HERDR_FORCE_PLUGIN=1 overrides native live)"@
        } else {
            "writer=plugin (no native attachment detected)"@
        },
    )
}

/// The size authority: the environment's value, trimmed, when non-empty;
/// else, with a complete fingerprint, the file's.
pub open spec fn size_authority(p: InstallProbes) -> Option<Seq<char>> {
    match p.size_env {
        Some(v) if trim(v@).len() > 0 => Some(trim(v@)),
        _ => if complete(p) {
            match p.size_file {
                Some(f) => Some(f@),
                None => None,
            }
        } else {
            None
        },
    }
}

pub open spec fn size_check(p: InstallProbes) -> CheckView {
    (
        "size_authority"@,
        true,
        false,
        match size_authority(p) {
            Some(a) => if a == "native"@ || is_prefix("native:"@, a) {
                "size-authority=native (plugin SIGWINCH no-op); value="@ + a
            } else {
                "size-authority pane="@ + a
            },
            None => "size-authority unset (first attach may claim)"@,
        },
    )
}

/// The panes of `es` whose entry holds `title_lock: true`, in order.
pub open spec fn locked_of(es: Seq<(String, Json)>) -> Seq<Seq<char>>
    decreases es.len(),
{
    if es.len() == 0 {
        Seq::empty()
    } else if json_get(es.last().1, "title_lock"@) == Some(Json::Bool(true)) {
        locked_of(es.drop_last()).push(es.last().0@)
    } else {
        locked_of(es.drop_last())
    }
}

/// The title-locked panes of the association map (none without a complete
/// fingerprint).
pub open spec fn locked_panes(p: InstallProbes) -> Seq<Seq<char>> {
    if !complete(p) {
        Seq::empty()
    } else {
        match json_get(p.association, "panes"@) {
            Some(Json::Object { entries, .. }) => locked_of(entries@),
            _ => Seq::empty(),
        }
    }
}

pub open spec fn locks_check(p: InstallProbes) -> CheckView {
    let locked = locked_panes(p);
    (
        "title_locks"@,
        true,
        false,
        if locked.len() == 0 {
            "title locks=0"@
        } else {
            "title locks="@ + dec_nat(locked.len()) + " ("@ + join(locked.take(if locked.len() < 5 {
                locked.len() as int
            } else {
                5
            }), ", "@) + (if locked.len()
                > 5 {
                "…"@
            } else {
                ""@
            }) + ")"@
        },
    )
}

pub open spec fn launch_check(p: InstallProbes) -> CheckView {
    let label = or_text(p.launch_label, "com.cmux-herdr.watch"@);
    (
        "launch_agent"@,
        p.launch_skipped || p.launch_loaded,
        false,
        if p.launch_skipped {
            "LaunchAgent "@ + label + ": skipped ("@ + or_text(p.launch_reason, "unknown reason"@) + ")"@
        } else {
            "LaunchAgent "@ + label + ": "@ + if p.launch_loaded {
                "loaded"@
            } else {
                "not loaded"@
            }
        },
    )
}

pub open spec fn sidebar_check(p: InstallProbes) -> CheckView {
    (
        "sidebar"@,
        true,
        false,
        if p.sidebar_exists {
            "sidebar present: "@ + p.sidebar_path@
        } else {
            "sidebar absent (optional): "@ + p.sidebar_path@
        },
    )
}

pub open spec fn dry_sync_check(p: InstallProbes) -> CheckView {
    let reasons = strings_view(p.dry_sync_reasons@);
    (
        "dry_sync"@,
        !p.dry_sync_skipped || p.herdr_path is None,
        false,
        if !p.dry_sync_skipped {
            or_text(p.dry_sync_summary, "dry sync complete"@)
        } else {
            "dry sync skipped: "@ + if join(reasons, "; "@).len() > 0 {
                join(reasons, "; "@)
            } else {
                "unknown"@
            }
        },
    )
}

/// The checks, in the order the report lists them.
pub open spec fn checks_spec(p: InstallProbes) -> Seq<CheckView> {
    seq![
        herdr_check(p),
        socket_check(p),
        api_check(p),
        fingerprint_check(p),
        binding_check(p),
        writer_check(p),
        size_check(p),
        locks_check(p),
        launch_check(p),
        sidebar_check(p),
        dry_sync_check(p),
    ]
}

/// The hard failures: a missing `herdr`, and an incomplete fingerprint in a
/// context that claims to be nested.
pub open spec fn hard_failures_spec(p: InstallProbes) -> Seq<Seq<char>> {
    (if p.herdr_path is None {
        seq!["herdr not found on PATH"@]
    } else {
        Seq::empty()
    }) + (if p.claiming_nested && !complete(p) {
        seq![
            "incomplete host fingerprint while HERDR_ENV claims nested env (missing "@ + join(
                missing_spec(p.fingerprint),
                ", "@,
            ) + ")"@,
        ]
    } else {
        Seq::empty()
    })
}

fn text_or(o: &Option<String>, d: &str) -> (r: String)
    ensures
        r@ == or_text(*o, d@),
{
    match o {
        Some(s) => s.clone(),
        None => owned(d),
    }
}

fn check(name: &str, ok: bool, hard: bool, detail: String) -> (r: DoctorCheck)
    ensures
        check_view(r) == (name@, ok, hard, detail@),
{
    DoctorCheck { name: owned(name), ok, hard, detail }
}

fn append3(s: &mut String, a: &str, b: &str, c: &str)
    ensures
        final(s)@ == old(s)@ + a@ + b@ + c@,
{
    s.append(a);
    s.append(b);
    s.append(c);
}

fn missing_texts(fp: &Fingerprint) -> (r: Vec<String>)
    ensures
        strings_view(r@) == missing_spec(*fp),
{
    let m = fingerprint_missing_fields(fp);
    let mut out: Vec<String> = Vec::new();
    let mut i: usize = 0;
    while i < m.len()
        invariant
            i <= m.len(),
            m@.map_values(|s: &str| s@) == missing_spec(*fp),
            strings_view(out@) == m@.map_values(|s: &str| s@).take(i as int),
        decreases m.len() - i,
    {
        let ghost o = out@;
        out.push(owned(m[i]));
        assert(strings_view(out@) =~= strings_view(o).push(m@[i as int]@));
        assert(m@.map_values(|s: &str| s@).take(i + 1) =~= m@.map_values(|s: &str| s@).take(i as int).push(
            m@[i as int]@,
        ));
        i += 1;
    }
    assert(m@.map_values(|s: &str| s@).take(m.len() as int) =~= m@.map_values(|s: &str| s@));
    out
}

fn locked_exec(assoc: &Json) -> (r: Vec<String>)
    ensures
        strings_view(r@) == match json_get(*assoc, "panes"@) {
            Some(Json::Object { entries, .. }) => locked_of(entries@),
            _ => Seq::empty(),
        },
{
    let mut out: Vec<String> = Vec::new();
    match assoc.get("panes") {
        Some(Json::Object { entries, .. }) => {
            let mut i: usize = 0;
            while i < entries.len()
                invariant
                    i <= entries.len(),
                    strings_view(out@) == locked_of(entries@.take(i as int)),
                decreases entries.len() - i,
            {
                assert(entries@.take(i + 1).drop_last() =~= entries@.take(i as int));
                assert(entries@.take(i + 1).last() == entries@[i as int]);
                let locked = match entries[i].1.get("title_lock") {
                    Some(Json::Bool(b)) => *b,
                    _ => false,
                };
                if locked {
                    let ghost o = out@;
                    out.push(entries[i].0.clone());
                    assert(strings_view(out@) =~= strings_view(o).push(entries@[i as int].0@));
                }
                i += 1;
            }
            assert(entries@.take(entries@.len() as int) =~= entries@);
            out
        },
        _ => out,
    }
}

fn first_n(v: &Vec<String>, n: usize) -> (r: Vec<String>)
    ensures
        strings_view(r@) == strings_view(v@).take(if v.len() < n {
            v.len() as int
        } else {
            n as int
        }),
{
    let k = if v.len() < n {
        v.len()
    } else {
        n
    };
    let mut out: Vec<String> = Vec::new();
    let mut i: usize = 0;
    while i < k
        invariant
            i <= k <= v.len(),
            strings_view(out@) == strings_view(v@).take(i as int),
        decreases k - i,
    {
        let ghost o = out@;
        out.push(v[i].clone());
        assert(strings_view(out@) =~= strings_view(o).push(v@[i as int]@));
        assert(strings_view(v@).take(i + 1) =~= strings_view(v@).take(i as int).push(v@[i as int]@));
        i += 1;
    }
    out
}

/// The install report for what the probes found (see [`checks_spec`] and
/// [`hard_failures_spec`]); it is ok when nothing failed hard. The locked
/// panes are listed up to twenty.
pub fn install_report(p: &InstallProbes) -> (r: InstallReport)
    ensures
        checks_view(r.checks@) == checks_spec(*p),
        strings_view(r.hard_failures@) == hard_failures_spec(*p),
        r.ok == (hard_failures_spec(*p).len() == 0),
        r.locked_count == locked_panes(*p).len(),
        strings_view(r.locked_panes@) == locked_panes(*p).take(
            if locked_panes(*p).len() < 20 {
                locked_panes(*p).len() as int
            } else {
                20
            },
        ),
{
    let mut checks: Vec<DoctorCheck> = Vec::new();
    let mut hard: Vec<String> = Vec::new();
    let missing = missing_texts(&p.fingerprint);
    let is_complete = missing.len() == 0;
    let missing_joined = join_lines(&missing, ", ");

    // herdr on the search path
    let herdr_ok = p.herdr_path.is_some();
    let herdr_detail = if herdr_ok {
        let v = text_or(&p.herdr_version, "version unknown");
        concat3("herdr on PATH (", v.as_str(), ")")
    } else {
        owned("herdr not found on PATH")
    };
    checks.push(check("herdr_cli", herdr_ok, true, herdr_detail));
    assert(checks@.len() == 1 && check_view(checks@[0]) == herdr_check(*p));
    if !herdr_ok {
        hard.push(owned("herdr not found on PATH"));
    }

    // the socket
    let socket_detail = if p.socket_exists {
        let mut d = concat2("socket ", p.socket_path.as_str());
        let mode = text_or(&p.socket_mode, "-");
        let owner = text_or(&p.socket_owner, "-");
        append3(&mut d, " exists mode=", mode.as_str(), " owner=");
        d.append(owner.as_str());
        d
    } else if p.socket_from_env {
        concat2("HERDR_SOCKET_PATH set but missing: ", p.socket_path.as_str())
    } else {
        concat2("default socket absent: ", p.socket_path.as_str())
    };
    checks.push(check("herdr_socket", p.socket_exists, false, socket_detail));
    assert(checks@.len() == 2 && check_view(checks@[1]) == socket_check(*p));

    // a ping
    let api = match &p.ping {
        Ok((ok, via)) => check("herdr_api", *ok, false, concat2("ping via ", via.as_str())),
        Err(e) => check("herdr_api", false, false, concat2("ping failed: ", e.as_str())),
    };
    checks.push(api);
    assert(checks@.len() == 3 && check_view(checks@[2]) == api_check(*p));

    // the host fingerprint
    let fp_detail = if is_complete {
        let key = parent_key(&p.fingerprint);
        concat2("complete key=", key.as_str())
    } else {
        let mut d = concat3("incomplete (missing ", missing_joined.as_str(), ")");
        if p.claiming_nested {
            d.append("; hard fail because HERDR_ENV claims nested context");
        } else {
            d.append("; ok for non-nested inspect commands");
        }
        d
    };
    checks.push(check("host_fingerprint", is_complete || !p.claiming_nested, p.claiming_nested && !is_complete, fp_detail));
    assert(checks@.len() == 4 && check_view(checks@[3]) == fingerprint_check(*p));
    if p.claiming_nested && !is_complete {
        hard.push(concat3("incomplete host fingerprint while HERDR_ENV claims nested env (missing ", missing_joined.as_str(), ")"));
    }

    // the state directory and parent binding
    let mut bd = concat3("state=", p.state_dir.as_str(), " exists=");
    bd.append(if p.state_dir_exists {
        "true"
    } else {
        "false"
    });
    if !is_complete {
        bd.append("; binding check skipped (incomplete fingerprint)");
    } else {
        match &p.bound_workspace {
            Some(w) => append3(&mut bd, "; matching parent binding=yes (", w.as_str(), ")"),
            None => if p.binding_exists {
                bd.append("; matching parent binding=file present (workspace unset)");
            } else {
                bd.append("; matching parent binding=none");
            },
        }
    }
    checks.push(check("state_binding", true, false, bd));
    assert(checks@.len() == 5 && check_view(checks@[4]) == binding_check(*p));

    // the writer
    let writer_detail = if p.writer_native_live {
        let m = text_or(&p.writer_marker, "-");
        concat2("writer=native (plugin projection skipped); marker=", m.as_str())
    } else if p.writer_force_plugin && p.writer_native_detected {
        owned("writer=plugin-forced (CMUX_HERDR_FORCE_PLUGIN=1 overrides native live)")
    } else {
        owned("writer=plugin (no native attachment detected)")
    };
    checks.push(check("writer", true, false, writer_detail));
    assert(checks@.len() == 6 && check_view(checks@[5]) == writer_check(*p));

    // the size authority
    let env_value = match &p.size_env {
        Some(v) => {
            let t = trim_str(v.as_str());
            if t.as_str().is_empty() {
                None
            } else {
                Some(t)
            }
        },
        None => None,
    };
    let authority = match env_value {
        Some(t) => Some(t),
        None => if is_complete {
            match &p.size_file {
                Some(f) => Some(f.clone()),
                None => None,
            }
        } else {
            None
        },
    };
    assert(match authority {
        Some(a) => size_authority(*p) == Some(a@),
        None => size_authority(*p) is None,
    });
    let size_detail = match &authority {
        Some(a) => if str_eq(a.as_str(), "native") || str_starts_with(a.as_str(), "native:") {
            concat2("size-authority=native (plugin SIGWINCH no-op); value=", a.as_str())
        } else {
            concat2("size-authority pane=", a.as_str())
        },
        None => owned("size-authority unset (first attach may claim)"),
    };
    checks.push(check("size_authority", true, false, size_detail));
    assert(checks@.len() == 7 && check_view(checks@[6]) == size_check(*p));

    // title locks
    let locked = if is_complete {
        locked_exec(&p.association)
    } else {
        Vec::new()
    };
    assert(strings_view(locked@) =~= locked_panes(*p));
    let locks_detail = if locked.len() == 0 {
        owned("title locks=0")
    } else {
        let preview = first_n(&locked, 5);
        let shown = join_lines(&preview, ", ");
        let count = nat_to_string(locked.len() as u64);
        let mut d = concat3("title locks=", count.as_str(), " (");
        d.append(shown.as_str());
        let ghost d0 = d@;
        if locked.len() > 5 {
            d.append("…");
        } else {
            d.append("");
        }
        let ghost d1 = d@;
        d.append(")");
        proof {
            let tail = if locked.len() > 5 {
                "…"@
            } else {
                ""@
            };
            assert(d1 == d0 + tail);
            assert(d@ =~= "title locks="@ + count@ + " ("@ + shown@ + tail + ")"@);
        }
        d
    };
    checks.push(check("title_locks", true, false, locks_detail));
    assert(checks@.len() == 8 && check_view(checks@[7]) == locks_check(*p));

    // the watch service
    let label = text_or(&p.launch_label, "com.cmux-herdr.watch");
    let launch_detail = if p.launch_skipped {
        let reason = text_or(&p.launch_reason, "unknown reason");
        let mut d = concat3("LaunchAgent ", label.as_str(), ": skipped (");
        d.append(reason.as_str());
        d.append(")");
        d
    } else {
        let mut d = concat3("LaunchAgent ", label.as_str(), ": ");
        d.append(if p.launch_loaded {
            "loaded"
        } else {
            "not loaded"
        });
        d
    };
    checks.push(check("launch_agent", p.launch_skipped || p.launch_loaded, false, launch_detail));
    assert(checks@.len() == 9 && check_view(checks@[8]) == launch_check(*p));

    // the sidebar
    let sidebar_detail = if p.sidebar_exists {
        concat2("sidebar present: ", p.sidebar_path.as_str())
    } else {
        concat2("sidebar absent (optional): ", p.sidebar_path.as_str())
    };
    checks.push(check("sidebar", true, false, sidebar_detail));
    assert(checks@.len() == 10 && check_view(checks@[9]) == sidebar_check(*p));

    // the dry sync preview
    let dry_detail = if !p.dry_sync_skipped {
        text_or(&p.dry_sync_summary, "dry sync complete")
    } else {
        let joined = join_lines(&p.dry_sync_reasons, "; ");
        if !joined.as_str().is_empty() {
            concat2("dry sync skipped: ", joined.as_str())
        } else {
            concat2("dry sync skipped: ", "unknown")
        }
    };
    checks.push(check("dry_sync", !p.dry_sync_skipped || !herdr_ok, false, dry_detail));
    assert(checks@.len() == 11 && check_view(checks@[10]) == dry_sync_check(*p));

    let count = locked.len();
    let listed = first_n(&locked, 20);
    let ok = hard.len() == 0;
    let r = InstallReport { ok, hard_failures: hard, checks, locked_count: count, locked_panes: listed };
    proof {
        assert(checks_view(r.checks@) =~= checks_spec(*p));
        assert(strings_view(r.hard_failures@) =~= hard_failures_spec(*p));
    }
    r
}


/// A pane that names an agent.
pub open spec fn has_agent(p: Pane) -> bool {
    p.agent matches Some(a) && a@.len() > 0
}

/// One of the four agent states.
pub open spec fn known_status(s: Seq<char>) -> bool {
    s == "working"@ || s == "idle"@ || s == "done"@ || s == "blocked"@
}

/// The panes that pass `named` (agent named) or else a known status, in
/// order, as their lower-cased statuses.
pub open spec fn picked(ps: Seq<Pane>, named: bool) -> Seq<Seq<char>>
    decreases ps.len(),
{
    if ps.len() == 0 {
        Seq::empty()
    } else if (if named {
        has_agent(ps.last())
    } else {
        known_status(ps.last().agent_status@)
    }) {
        picked(ps.drop_last(), named).push(lower(ps.last().agent_status@))
    } else {
        picked(ps.drop_last(), named)
    }
}

/// The agent panes of a dry sync, by status: those that name an agent, or,
/// when none does, those whose status is one of the four states.
pub open spec fn dry_sync_statuses(ps: Seq<Pane>) -> Seq<Seq<char>> {
    if picked(ps, true).len() > 0 {
        picked(ps, true)
    } else {
        picked(ps, false)
    }
}

/// How many of `ss` equal `st`.
pub open spec fn tally(ss: Seq<Seq<char>>, st: Seq<char>) -> nat
    decreases ss.len(),
{
    if ss.len() == 0 {
        0
    } else {
        tally(ss.drop_last(), st) + if ss.last() == st {
            1nat
        } else {
            0nat
        }
    }
}

/// How many of `ss` are none of the four states.
pub open spec fn tally_unknown(ss: Seq<Seq<char>>) -> nat
    decreases ss.len(),
{
    if ss.len() == 0 {
        0
    } else {
        tally_unknown(ss.drop_last()) + if known_status(ss.last()) {
            0nat
        } else {
            1nat
        }
    }
}

/// The agent counts of a dry sync.
#[derive(Debug, Clone, PartialEq, Eq)]
pub struct DrySync {
    pub pane_count: usize,
    pub agent_count: usize,
    pub working: usize,
    pub idle: usize,
    pub done: usize,
    pub blocked: usize,
    pub unknown: usize,
    pub summary: String,
}

/// The summary line of a dry sync.
pub open spec fn dry_sync_summary(ss: Seq<Seq<char>>, workspace: Option<Seq<char>>) -> Seq<char> {
    "dry sync: "@ + dec_nat(ss.len()) + " agent panes (working="@ + dec_nat(tally(ss, "working"@)) + " idle="@
        + dec_nat(tally(ss, "idle"@)) + " done="@ + dec_nat(tally(ss, "done"@)) + " blocked="@ + dec_nat(
        tally(ss, "blocked"@),
    ) + ")"@ + match workspace {
        Some(w) => " → ws="@ + w,
        None => Seq::empty(),
    }
}

fn pick_statuses(ps: &Vec<Pane>, named: bool) -> (r: Vec<String>)
    ensures
        strings_view(r@) == picked(ps@, named),
{
    let mut out: Vec<String> = Vec::new();
    let mut i: usize = 0;
    while i < ps.len()
        invariant
            i <= ps.len(),
            strings_view(out@) == picked(ps@.take(i as int), named),
        decreases ps.len() - i,
    {
        assert(ps@.take(i + 1).drop_last() =~= ps@.take(i as int));
        assert(ps@.take(i + 1).last() == ps@[i as int]);
        let p = &ps[i];
        let take = if named {
            match &p.agent {
                Some(a) => !a.as_str().is_empty(),
                None => false,
            }
        } else {
            let st = p.agent_status.as_str();
            str_eq(st, "working") || str_eq(st, "idle") || str_eq(st, "done") || str_eq(st, "blocked")
        };
        if take {
            let ghost o = out@;
            out.push(lower_str(p.agent_status.as_str()));
            assert(strings_view(out@) =~= strings_view(o).push(lower(ps@[i as int].agent_status@)));
        }
        i += 1;
    }
    assert(ps@.take(ps@.len() as int) =~= ps@);
    out
}

fn count_status(ss: &Vec<String>, st: &str) -> (r: usize)
    ensures
        r == tally(strings_view(ss@), st@),
{
    let ghost sv = strings_view(ss@);
    let mut n: usize = 0;
    let mut i: usize = 0;
    while i < ss.len()
        invariant
            i <= ss.len(),
            sv == strings_view(ss@),
            n == tally(sv.take(i as int), st@),
            n <= i,
        decreases ss.len() - i,
    {
        assert(sv.take(i + 1).drop_last() =~= sv.take(i as int));
        assert(sv.take(i + 1).last() == ss@[i as int]@);
        if str_eq(ss[i].as_str(), st) {
            n += 1;
        }
        i += 1;
    }
    assert(sv.take(ss@.len() as int) =~= sv);
    n
}

fn count_unknown(ss: &Vec<String>) -> (r: usize)
    ensures
        r == tally_unknown(strings_view(ss@)),
{
    let ghost sv = strings_view(ss@);
    let mut n: usize = 0;
    let mut i: usize = 0;
    while i < ss.len()
        invariant
            i <= ss.len(),
            sv == strings_view(ss@),
            n == tally_unknown(sv.take(i as int)),
            n <= i,
        decreases ss.len() - i,
    {
        assert(sv.take(i + 1).drop_last() =~= sv.take(i as int));
        assert(sv.take(i + 1).last() == ss@[i as int]@);
        let st = ss[i].as_str();
        if !(str_eq(st, "working") || str_eq(st, "idle") || str_eq(st, "done") || str_eq(st, "blocked")) {
            n += 1;
        }
        i += 1;
    }
    assert(sv.take(ss@.len() as int) =~= sv);
    n
}

/// The dry sync preview of a snapshot's panes: the agent panes (see
/// [`dry_sync_statuses`]), counted by state, and the summary line, which
/// names the outer workspace when one was resolved.
pub fn dry_sync_preview(panes: &Vec<Pane>, workspace: Option<&str>) -> (r: DrySync)
    ensures
        r.pane_count == panes@.len(),
        r.agent_count == dry_sync_statuses(panes@).len(),
        r.working == tally(dry_sync_statuses(panes@), "working"@),
        r.idle == tally(dry_sync_statuses(panes@), "idle"@),
        r.done == tally(dry_sync_statuses(panes@), "done"@),
        r.blocked == tally(dry_sync_statuses(panes@), "blocked"@),
        r.unknown == tally_unknown(dry_sync_statuses(panes@)),
        r.summary@ == dry_sync_summary(dry_sync_statuses(panes@), crate::text::opt_str_view(workspace)),
{
    let named = pick_statuses(panes, true);
    let ss = if named.len() > 0 {
        named
    } else {
        pick_statuses(panes, false)
    };
    let working = count_status(&ss, "working");
    let idle = count_status(&ss, "idle");
    let done = count_status(&ss, "done");
    let blocked = count_status(&ss, "blocked");
    let unknown = count_unknown(&ss);
    let mut summary = concat3("dry sync: ", nat_to_string(ss.len() as u64).as_str(), " agent panes (working=");
    append3(&mut summary, nat_to_string(working as u64).as_str(), " idle=", nat_to_string(idle as u64).as_str());
    append3(&mut summary, " done=", nat_to_string(done as u64).as_str(), " blocked=");
    summary.append(nat_to_string(blocked as u64).as_str());
    summary.append(")");
    let ghost base = summary@;
    match workspace {
        Some(w) => {
            summary.append(" → ws=");
            summary.append(w);
        },
        None => {},
    }
    proof {
        let ss_v = dry_sync_statuses(panes@);
        assert(strings_view(ss@) == ss_v);
        assert(base =~= "dry sync: "@ + dec_nat(ss_v.len()) + " agent panes (working="@ + dec_nat(
            tally(ss_v, "working"@),
        ) + " idle="@ + dec_nat(tally(ss_v, "idle"@)) + " done="@ + dec_nat(tally(ss_v, "done"@))
            + " blocked="@ + dec_nat(tally(ss_v, "blocked"@)) + ")"@);
        assert(summary@ =~= dry_sync_summary(ss_v, crate::text::opt_str_view(workspace)));
    }
    DrySync {
        pane_count: panes.len(),
        agent_count: ss.len(),
        working,
        idle,
        done,
        blocked,
        unknown,
        summary,
    }
}

/// Why a dry sync was skipped, given what was found of `herdr` and its
/// sockets.
pub open spec fn skip_reason_spec(
    herdr_found: bool,
    env_socket: Option<Seq<char>>,
    env_socket_exists: bool,
    default_socket: Seq<char>,
    default_exists: bool,
) -> Seq<char> {
    if !herdr_found {
        "herdr not on PATH"@
    } else {
        match env_socket {
            Some(sock) => if !env_socket_exists {
                "HERDR_SOCKET_PATH missing on disk: "@ + sock
            } else {
                "herdr status probe failed / socket unhealthy"@
            },
            None => if !default_exists {
                "no HERDR_SOCKET_PATH and default socket absent ("@ + default_socket + ")"@
            } else {
                "herdr status probe failed / socket unhealthy"@
            },
        }
    }
}

/// Why a dry sync was skipped (see [`skip_reason_spec`]).
pub fn dry_sync_skip_reason(
    herdr_found: bool,
    env_socket: Option<&str>,
    env_socket_exists: bool,
    default_socket: &str,
    default_exists: bool,
) -> (r: String)
    ensures
        r@ == skip_reason_spec(herdr_found, crate::text::opt_str_view(env_socket), env_socket_exists, default_socket@, default_exists),
{
    if !herdr_found {
        return owned("herdr not on PATH");
    }
    match env_socket {
        Some(sock) => if !env_socket_exists {
            concat2("HERDR_SOCKET_PATH missing on disk: ", sock)
        } else {
            owned("herdr status probe failed / socket unhealthy")
        },
        None => if !default_exists {
            concat3("no HERDR_SOCKET_PATH and default socket absent (", default_socket, ")")
        } else {
            owned("herdr status probe failed / socket unhealthy")
        },
    }
}

} // verus!
