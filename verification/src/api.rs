//! The provider control surface the plugin may use: an allowlist of published
//! methods, a refusal list for destructive ones, and the replay-safe reads.
use vstd::prelude::*;

use crate::json::{
    entries_get, is_truthy, json_get, json_text, lemma_entries_get_index, num_str, num_str_exec,
    opt_get, opt_ref, str_of, str_of_exec, truthy, Json,
};
use crate::layout::join;
use crate::text::{
    concat2, concat3, is_prefix, is_ws, trim_hi, trim_lo, owned, str_eq, str_starts_with, strings_view, trim, trim_str,
};

verus! {

/// A refused or failed provider call.
#[derive(Debug)]
pub struct ApiError(pub String);

impl ApiError {
    pub fn new(msg: String) -> (r: Self)
        ensures
            r.0 == msg,
    {
        ApiError(msg)
    }
}

pub open spec fn forbidden_methods() -> Seq<Seq<char>> {
    seq!["server.stop"@]
}

pub open spec fn forbidden_prefixes() -> Seq<Seq<char>> {
    seq!["pane.graphics."@, "plugin."@]
}

pub open spec fn allowed_list() -> Seq<Seq<char>> {
    seq![
        "ping"@, "server.reload_config"@, "server.agent_manifests"@,
        "server.reload_agent_manifests"@, "notification.show"@, "client.window_title.set"@,
        "client.window_title.clear"@, "session.snapshot"@, "workspace.create"@, "workspace.list"@,
        "workspace.get"@, "workspace.focus"@, "workspace.rename"@, "workspace.move"@,
        "workspace.move_block"@, "workspace.report_metadata"@, "workspace.close"@, "worktree.list"@,
        "worktree.create"@, "worktree.open"@, "worktree.remove"@, "tab.create"@, "tab.list"@,
        "tab.get"@, "tab.focus"@, "tab.rename"@, "tab.move"@, "tab.close"@, "pane.split"@,
        "pane.swap"@, "pane.move"@, "pane.zoom"@, "pane.layout"@, "pane.process_info"@,
        "pane.neighbor"@, "pane.edges"@, "pane.focus_direction"@, "pane.resize"@, "pane.list"@,
        "pane.current"@, "pane.get"@, "pane.rename"@, "pane.send_text"@, "pane.send_keys"@,
        "pane.send_input"@, "pane.read"@, "pane.report_agent"@, "pane.report_agent_session"@,
        "pane.report_metadata"@, "pane.clear_agent_authority"@, "pane.release_agent"@,
        "pane.close"@, "pane.wait_for_output"@, "popup.close"@, "layout.export"@, "layout.apply"@,
        "layout.set_split_ratio"@, "agent.list"@, "agent.get"@, "agent.read"@, "agent.explain"@,
        "agent.send_keys"@, "agent.prompt"@, "agent.wait"@, "agent.rename"@, "agent.focus"@,
        "agent.start"@, "agent.view.set"@, "agent.view.clear"@, "events.subscribe"@, "events.wait"@,
        "integration.install"@, "integration.uninstall"@,
    ]
}

pub open spec fn replay_safe_list() -> Seq<Seq<char>> {
    seq![
        "ping"@, "server.agent_manifests"@, "session.snapshot"@, "workspace.list"@, "workspace.get"@,
        "worktree.list"@, "tab.list"@, "tab.get"@, "pane.list"@, "pane.current"@, "pane.get"@,
        "pane.read"@, "pane.process_info"@, "pane.neighbor"@, "pane.edges"@, "pane.layout"@,
        "layout.export"@, "agent.list"@, "agent.get"@, "agent.read"@,
    ]
}

pub open spec fn strs_view(v: Seq<&str>) -> Seq<Seq<char>> {
    v.map_values(|s: &str| s@)
}

/// Every method the plugin may call, one entry each.
pub fn allowed_methods() -> (r: Vec<&'static str>)
    ensures
        strs_view(r@) == allowed_list(),
{
    let v = vec![
        "ping", "server.reload_config", "server.agent_manifests", "server.reload_agent_manifests",
        "notification.show", "client.window_title.set", "client.window_title.clear",
        "session.snapshot", "workspace.create", "workspace.list", "workspace.get", "workspace.focus",
        "workspace.rename", "workspace.move", "workspace.move_block", "workspace.report_metadata",
        "workspace.close", "worktree.list", "worktree.create", "worktree.open", "worktree.remove",
        "tab.create", "tab.list", "tab.get", "tab.focus", "tab.rename", "tab.move", "tab.close",
        "pane.split", "pane.swap", "pane.move", "pane.zoom", "pane.layout", "pane.process_info",
        "pane.neighbor", "pane.edges", "pane.focus_direction", "pane.resize", "pane.list",
        "pane.current", "pane.get", "pane.rename", "pane.send_text", "pane.send_keys",
        "pane.send_input", "pane.read", "pane.report_agent", "pane.report_agent_session",
        "pane.report_metadata", "pane.clear_agent_authority", "pane.release_agent", "pane.close",
        "pane.wait_for_output", "popup.close", "layout.export", "layout.apply",
        "layout.set_split_ratio", "agent.list", "agent.get", "agent.read", "agent.explain",
        "agent.send_keys", "agent.prompt", "agent.wait", "agent.rename", "agent.focus",
        "agent.start", "agent.view.set", "agent.view.clear", "events.subscribe", "events.wait",
        "integration.install", "integration.uninstall",
    ];
    assert(strs_view(v@) =~= allowed_list());
    v
}

fn replay_safe_methods() -> (r: Vec<&'static str>)
    ensures
        strs_view(r@) == replay_safe_list(),
{
    let v = vec![
        "ping", "server.agent_manifests", "session.snapshot", "workspace.list", "workspace.get",
        "worktree.list", "tab.list", "tab.get", "pane.list", "pane.current", "pane.get",
        "pane.read", "pane.process_info", "pane.neighbor", "pane.edges", "pane.layout",
        "layout.export", "agent.list", "agent.get", "agent.read",
    ];
    assert(strs_view(v@) =~= replay_safe_list());
    v
}

fn list_contains(v: &Vec<&'static str>, x: &str) -> (r: bool)
    ensures
        r == strs_view(v@).contains(x@),
{
    let mut i: usize = 0;
    while i < v.len()
        invariant
            i <= v.len(),
            forall|j: int| 0 <= j < i ==> v@[j]@ != x@,
        decreases v.len() - i,
    {
        if str_eq(v[i], x) {
            assert(strs_view(v@)[i as int] == x@);
            return true;
        }
        i += 1;
    }
    assert forall|j: int| 0 <= j < strs_view(v@).len() implies strs_view(v@)[j] != x@ by {
        assert(strs_view(v@)[j] == v@[j]@);
    }
    false
}

/// A method is refused when it is forbidden or under a forbidden prefix.
pub open spec fn refused(name: Seq<char>) -> bool {
    forbidden_methods().contains(name) || is_prefix("pane.graphics."@, name) || is_prefix("plugin."@, name)
}

/// Outcome of the allowlist check on a trimmed method name.
pub open spec fn method_check(method: Seq<char>) -> Result<Seq<char>, Seq<char>> {
    let name = trim(method);
    if name.len() == 0 {
        Err("missing Herdr method"@)
    } else if refused(name) {
        Err("refusing "@ + name + ": not part of the plugin control surface"@)
    } else if !allowed_list().contains(name) {
        Err("unknown or unsupported Herdr method: "@ + name)
    } else {
        Ok(name)
    }
}

/// A method on the refusal list, or under a refused prefix, is never
/// allowed, whatever surrounds it.
pub proof fn law_refused_never_allowed(method: Seq<char>)
    requires
        refused(trim(method)),
    ensures
        method_check(method) is Err,
{
}

/// Every method of the allowlist passes the allowlist check as it is: none
/// is refused, and none needs trimming.
#[verifier::rlimit(100)]
pub proof fn law_allowlist_accepted()
    ensures
        allowed_list().len() == 73,
        forall|i: int| 0 <= i < allowed_list().len() ==> #[trigger] method_check(allowed_list()[i]) == Ok::<Seq<char>, Seq<char>>(allowed_list()[i]),
{
    reveal_strlit("ping");
    reveal_strlit("server.reload_config");
    reveal_strlit("server.agent_manifests");
    reveal_strlit("server.reload_agent_manifests");
    reveal_strlit("notification.show");
    reveal_strlit("client.window_title.set");
    reveal_strlit("client.window_title.clear");
    reveal_strlit("session.snapshot");
    reveal_strlit("workspace.create");
    reveal_strlit("workspace.list");
    reveal_strlit("workspace.get");
    reveal_strlit("workspace.focus");
    reveal_strlit("workspace.rename");
    reveal_strlit("workspace.move");
    reveal_strlit("workspace.move_block");
    reveal_strlit("workspace.report_metadata");
    reveal_strlit("workspace.close");
    reveal_strlit("worktree.list");
    reveal_strlit("worktree.create");
    reveal_strlit("worktree.open");
    reveal_strlit("worktree.remove");
    reveal_strlit("tab.create");
    reveal_strlit("tab.list");
    reveal_strlit("tab.get");
    reveal_strlit("tab.focus");
    reveal_strlit("tab.rename");
    reveal_strlit("tab.move");
    reveal_strlit("tab.close");
    reveal_strlit("pane.split");
    reveal_strlit("pane.swap");
    reveal_strlit("pane.move");
    reveal_strlit("pane.zoom");
    reveal_strlit("pane.layout");
    reveal_strlit("pane.process_info");
    reveal_strlit("pane.neighbor");
    reveal_strlit("pane.edges");
    reveal_strlit("pane.focus_direction");
    reveal_strlit("pane.resize");
    reveal_strlit("pane.list");
    reveal_strlit("pane.current");
    reveal_strlit("pane.get");
    reveal_strlit("pane.rename");
    reveal_strlit("pane.send_text");
    reveal_strlit("pane.send_keys");
    reveal_strlit("pane.send_input");
    reveal_strlit("pane.read");
    reveal_strlit("pane.report_agent");
    reveal_strlit("pane.report_agent_session");
    reveal_strlit("pane.report_metadata");
    reveal_strlit("pane.clear_agent_authority");
    reveal_strlit("pane.release_agent");
    reveal_strlit("pane.close");
    reveal_strlit("pane.wait_for_output");
    reveal_strlit("popup.close");
    reveal_strlit("layout.export");
    reveal_strlit("layout.apply");
    reveal_strlit("layout.set_split_ratio");
    reveal_strlit("agent.list");
    reveal_strlit("agent.get");
    reveal_strlit("agent.read");
    reveal_strlit("agent.explain");
    reveal_strlit("agent.send_keys");
    reveal_strlit("agent.prompt");
    reveal_strlit("agent.wait");
    reveal_strlit("agent.rename");
    reveal_strlit("agent.focus");
    reveal_strlit("agent.start");
    reveal_strlit("agent.view.set");
    reveal_strlit("agent.view.clear");
    reveal_strlit("events.subscribe");
    reveal_strlit("events.wait");
    reveal_strlit("integration.install");
    reveal_strlit("integration.uninstall");
    reveal_strlit("server.stop");
    reveal_strlit("pane.graphics.");
    reveal_strlit("plugin.");
    let l = allowed_list();
    assert forall|i: int| 0 <= i < l.len() implies #[trigger] method_check(l[i]) == Ok::<Seq<char>, Seq<char>>(l[i]) by {
        assert(l.contains(l[i]));
        assert(!is_ws(l[i][0]));
        assert(!is_ws(l[i].last()));
        assert(trim_lo(l[i]) == 0);
        assert(trim_hi(l[i]) == l[i].len());
        assert(trim(l[i]) =~= l[i]);
        assert(l[i] != "server.stop"@);
        assert(!forbidden_methods().contains(l[i]));
        assert(l[i].len() < 14 || l[i][0] != 'p' || l[i][5] != 'g');
        assert(l[i].len() < 7 || l[i][0] != 'p' || l[i][1] != 'l');
        if l[i].len() >= 14 {
            assert(l[i].subrange(0, 14)[0] == l[i][0]);
            assert(l[i].subrange(0, 14)[5] == l[i][5]);
        }
        if l[i].len() >= 7 {
            assert(l[i].subrange(0, 7)[0] == l[i][0]);
            assert(l[i].subrange(0, 7)[1] == l[i][1]);
        }
        assert(!is_prefix("pane.graphics."@, l[i]));
        assert(!is_prefix("plugin."@, l[i]));
    }
}

/// The allowlist names each method once.
#[verifier::rlimit(100)]
pub proof fn law_allowlist_distinct()
    ensures
        forall|i: int, j: int| 0 <= i < j < allowed_list().len() ==> allowed_list()[i] != allowed_list()[j],
{
    reveal_strlit("ping");
    reveal_strlit("server.reload_config");
    reveal_strlit("server.agent_manifests");
    reveal_strlit("server.reload_agent_manifests");
    reveal_strlit("notification.show");
    reveal_strlit("client.window_title.set");
    reveal_strlit("client.window_title.clear");
    reveal_strlit("session.snapshot");
    reveal_strlit("workspace.create");
    reveal_strlit("workspace.list");
    reveal_strlit("workspace.get");
    reveal_strlit("workspace.focus");
    reveal_strlit("workspace.rename");
    reveal_strlit("workspace.move");
    reveal_strlit("workspace.move_block");
    reveal_strlit("workspace.report_metadata");
    reveal_strlit("workspace.close");
    reveal_strlit("worktree.list");
    reveal_strlit("worktree.create");
    reveal_strlit("worktree.open");
    reveal_strlit("worktree.remove");
    reveal_strlit("tab.create");
    reveal_strlit("tab.list");
    reveal_strlit("tab.get");
    reveal_strlit("tab.focus");
    reveal_strlit("tab.rename");
    reveal_strlit("tab.move");
    reveal_strlit("tab.close");
    reveal_strlit("pane.split");
    reveal_strlit("pane.swap");
    reveal_strlit("pane.move");
    reveal_strlit("pane.zoom");
    reveal_strlit("pane.layout");
    reveal_strlit("pane.process_info");
    reveal_strlit("pane.neighbor");
    reveal_strlit("pane.edges");
    reveal_strlit("pane.focus_direction");
    reveal_strlit("pane.resize");
    reveal_strlit("pane.list");
    reveal_strlit("pane.current");
    reveal_strlit("pane.get");
    reveal_strlit("pane.rename");
    reveal_strlit("pane.send_text");
    reveal_strlit("pane.send_keys");
    reveal_strlit("pane.send_input");
    reveal_strlit("pane.read");
    reveal_strlit("pane.report_agent");
    reveal_strlit("pane.report_agent_session");
    reveal_strlit("pane.report_metadata");
    reveal_strlit("pane.clear_agent_authority");
    reveal_strlit("pane.release_agent");
    reveal_strlit("pane.close");
    reveal_strlit("pane.wait_for_output");
    reveal_strlit("popup.close");
    reveal_strlit("layout.export");
    reveal_strlit("layout.apply");
    reveal_strlit("layout.set_split_ratio");
    reveal_strlit("agent.list");
    reveal_strlit("agent.get");
    reveal_strlit("agent.read");
    reveal_strlit("agent.explain");
    reveal_strlit("agent.send_keys");
    reveal_strlit("agent.prompt");
    reveal_strlit("agent.wait");
    reveal_strlit("agent.rename");
    reveal_strlit("agent.focus");
    reveal_strlit("agent.start");
    reveal_strlit("agent.view.set");
    reveal_strlit("agent.view.clear");
    reveal_strlit("events.subscribe");
    reveal_strlit("events.wait");
    reveal_strlit("integration.install");
    reveal_strlit("integration.uninstall");
    let l = allowed_list();
    // each name by its length, then each pair of names of one length by a
    // position where they differ
    assert(l[0].len() == 4);
    assert(l[1].len() == 20);
    assert(l[2].len() == 22);
    assert(l[3].len() == 29);
    assert(l[4].len() == 17);
    assert(l[5].len() == 23);
    assert(l[6].len() == 25);
    assert(l[7].len() == 16);
    assert(l[8].len() == 16);
    assert(l[9].len() == 14);
    assert(l[10].len() == 13);
    assert(l[11].len() == 15);
    assert(l[12].len() == 16);
    assert(l[13].len() == 14);
    assert(l[14].len() == 20);
    assert(l[15].len() == 25);
    assert(l[16].len() == 15);
    assert(l[17].len() == 13);
    assert(l[18].len() == 15);
    assert(l[19].len() == 13);
    assert(l[20].len() == 15);
    assert(l[21].len() == 10);
    assert(l[22].len() == 8);
    assert(l[23].len() == 7);
    assert(l[24].len() == 9);
    assert(l[25].len() == 10);
    assert(l[26].len() == 8);
    assert(l[27].len() == 9);
    assert(l[28].len() == 10);
    assert(l[29].len() == 9);
    assert(l[30].len() == 9);
    assert(l[31].len() == 9);
    assert(l[32].len() == 11);
    assert(l[33].len() == 17);
    assert(l[34].len() == 13);
    assert(l[35].len() == 10);
    assert(l[36].len() == 20);
    assert(l[37].len() == 11);
    assert(l[38].len() == 9);
    assert(l[39].len() == 12);
    assert(l[40].len() == 8);
    assert(l[41].len() == 11);
    assert(l[42].len() == 14);
    assert(l[43].len() == 14);
    assert(l[44].len() == 15);
    assert(l[45].len() == 9);
    assert(l[46].len() == 17);
    assert(l[47].len() == 25);
    assert(l[48].len() == 20);
    assert(l[49].len() == 26);
    assert(l[50].len() == 18);
    assert(l[51].len() == 10);
    assert(l[52].len() == 20);
    assert(l[53].len() == 11);
    assert(l[54].len() == 13);
    assert(l[55].len() == 12);
    assert(l[56].len() == 22);
    assert(l[57].len() == 10);
    assert(l[58].len() == 9);
    assert(l[59].len() == 10);
    assert(l[60].len() == 13);
    assert(l[61].len() == 15);
    assert(l[62].len() == 12);
    assert(l[63].len() == 10);
    assert(l[64].len() == 12);
    assert(l[65].len() == 11);
    assert(l[66].len() == 11);
    assert(l[67].len() == 14);
    assert(l[68].len() == 16);
    assert(l[69].len() == 16);
    assert(l[70].len() == 11);
    assert(l[71].len() == 19);
    assert(l[72].len() == 21);
    assert(l[1][0] != l[14][0]);
    assert(l[1][0] != l[36][0]);
    assert(l[1][0] != l[48][0]);
    assert(l[1][0] != l[52][0]);
    assert(l[2][0] != l[56][0]);
    assert(l[4][0] != l[33][0]);
    assert(l[4][0] != l[46][0]);
    assert(l[6][0] != l[15][0]);
    assert(l[6][0] != l[47][0]);
    assert(l[7][0] != l[8][0]);
    assert(l[7][0] != l[12][0]);
    assert(l[7][0] != l[68][0]);
    assert(l[7][0] != l[69][0]);
    assert(l[8][10] != l[12][10]);
    assert(l[8][0] != l[68][0]);
    assert(l[8][0] != l[69][0]);
    assert(l[9][10] != l[13][10]);
    assert(l[9][0] != l[42][0]);
    assert(l[9][0] != l[43][0]);
    assert(l[9][0] != l[67][0]);
    assert(l[10][4] != l[17][4]);
    assert(l[10][4] != l[19][4]);
    assert(l[10][0] != l[34][0]);
    assert(l[10][0] != l[54][0]);
    assert(l[10][0] != l[60][0]);
    assert(l[11][10] != l[16][10]);
    assert(l[11][4] != l[18][4]);
    assert(l[11][4] != l[20][4]);
    assert(l[11][0] != l[44][0]);
    assert(l[11][0] != l[61][0]);
    assert(l[12][0] != l[68][0]);
    assert(l[12][0] != l[69][0]);
    assert(l[13][0] != l[42][0]);
    assert(l[13][0] != l[43][0]);
    assert(l[13][0] != l[67][0]);
    assert(l[14][0] != l[36][0]);
    assert(l[14][0] != l[48][0]);
    assert(l[14][0] != l[52][0]);
    assert(l[15][0] != l[47][0]);
    assert(l[16][4] != l[18][4]);
    assert(l[16][4] != l[20][4]);
    assert(l[16][0] != l[44][0]);
    assert(l[16][0] != l[61][0]);
    assert(l[17][9] != l[19][9]);
    assert(l[17][0] != l[34][0]);
    assert(l[17][0] != l[54][0]);
    assert(l[17][0] != l[60][0]);
    assert(l[18][9] != l[20][9]);
    assert(l[18][0] != l[44][0]);
    assert(l[18][0] != l[61][0]);
    assert(l[19][0] != l[34][0]);
    assert(l[19][0] != l[54][0]);
    assert(l[19][0] != l[60][0]);
    assert(l[20][0] != l[44][0]);
    assert(l[20][0] != l[61][0]);
    assert(l[21][4] != l[25][4]);
    assert(l[21][0] != l[28][0]);
    assert(l[21][0] != l[35][0]);
    assert(l[21][0] != l[51][0]);
    assert(l[21][0] != l[57][0]);
    assert(l[21][0] != l[59][0]);
    assert(l[21][0] != l[63][0]);
    assert(l[22][4] != l[26][4]);
    assert(l[22][0] != l[40][0]);
    assert(l[24][4] != l[27][4]);
    assert(l[24][0] != l[29][0]);
    assert(l[24][0] != l[30][0]);
    assert(l[24][0] != l[31][0]);
    assert(l[24][0] != l[38][0]);
    assert(l[24][0] != l[45][0]);
    assert(l[24][0] != l[58][0]);
    assert(l[25][0] != l[28][0]);
    assert(l[25][0] != l[35][0]);
    assert(l[25][0] != l[51][0]);
    assert(l[25][0] != l[57][0]);
    assert(l[25][0] != l[59][0]);
    assert(l[25][0] != l[63][0]);
    assert(l[26][0] != l[40][0]);
    assert(l[27][0] != l[29][0]);
    assert(l[27][0] != l[30][0]);
    assert(l[27][0] != l[31][0]);
    assert(l[27][0] != l[38][0]);
    assert(l[27][0] != l[45][0]);
    assert(l[27][0] != l[58][0]);
    assert(l[28][5] != l[35][5]);
    assert(l[28][5] != l[51][5]);
    assert(l[28][0] != l[57][0]);
    assert(l[28][0] != l[59][0]);
    assert(l[28][0] != l[63][0]);
    assert(l[29][5] != l[30][5]);
    assert(l[29][5] != l[31][5]);
    assert(l[29][5] != l[38][5]);
    assert(l[29][5] != l[45][5]);
    assert(l[29][0] != l[58][0]);
    assert(l[30][5] != l[31][5]);
    assert(l[30][5] != l[38][5]);
    assert(l[30][5] != l[45][5]);
    assert(l[30][0] != l[58][0]);
    assert(l[31][5] != l[38][5]);
    assert(l[31][5] != l[45][5]);
    assert(l[31][0] != l[58][0]);
    assert(l[32][5] != l[37][5]);
    assert(l[32][5] != l[41][5]);
    assert(l[32][1] != l[53][1]);
    assert(l[32][0] != l[65][0]);
    assert(l[32][0] != l[66][0]);
    assert(l[32][0] != l[70][0]);
    assert(l[33][5] != l[46][5]);
    assert(l[34][0] != l[54][0]);
    assert(l[34][0] != l[60][0]);
    assert(l[35][5] != l[51][5]);
    assert(l[35][0] != l[57][0]);
    assert(l[35][0] != l[59][0]);
    assert(l[35][0] != l[63][0]);
    assert(l[36][5] != l[48][5]);
    assert(l[36][5] != l[52][5]);
    assert(l[37][7] != l[41][7]);
    assert(l[37][1] != l[53][1]);
    assert(l[37][0] != l[65][0]);
    assert(l[37][0] != l[66][0]);
    assert(l[37][0] != l[70][0]);
    assert(l[38][5] != l[45][5]);
    assert(l[38][0] != l[58][0]);
    assert(l[39][0] != l[55][0]);
    assert(l[39][0] != l[62][0]);
    assert(l[39][0] != l[64][0]);
    assert(l[41][1] != l[53][1]);
    assert(l[41][0] != l[65][0]);
    assert(l[41][0] != l[66][0]);
    assert(l[41][0] != l[70][0]);
    assert(l[42][10] != l[43][10]);
    assert(l[42][0] != l[67][0]);
    assert(l[43][0] != l[67][0]);
    assert(l[44][0] != l[61][0]);
    assert(l[45][0] != l[58][0]);
    assert(l[48][5] != l[52][5]);
    assert(l[51][0] != l[57][0]);
    assert(l[51][0] != l[59][0]);
    assert(l[51][0] != l[63][0]);
    assert(l[53][0] != l[65][0]);
    assert(l[53][0] != l[66][0]);
    assert(l[53][0] != l[70][0]);
    assert(l[54][0] != l[60][0]);
    assert(l[55][0] != l[62][0]);
    assert(l[55][0] != l[64][0]);
    assert(l[57][6] != l[59][6]);
    assert(l[57][6] != l[63][6]);
    assert(l[59][6] != l[63][6]);
    assert(l[62][6] != l[64][6]);
    assert(l[65][6] != l[66][6]);
    assert(l[65][0] != l[70][0]);
    assert(l[66][0] != l[70][0]);
    assert(l[68][0] != l[69][0]);
    assert forall|i: int, j: int| 0 <= i < j < l.len() implies l[i] != l[j] by {
        if l[i].len() == l[j].len() {
            assert(l[i] != l[j]);
        }
    }
}

/// The trimmed method name if it is a published, non-forbidden method.
pub fn assert_method_allowed(method: &str) -> (r: Result<String, ApiError>)
    ensures
        match r {
            Ok(n) => method_check(method@) == Ok::<Seq<char>, Seq<char>>(n@),
            Err(e) => method_check(method@) == Err::<Seq<char>, Seq<char>>(e.0@),
        },
{
    let name = trim_str(method);
    let n = name.as_str();
    if n.is_empty() {
        return Err(ApiError::new(owned("missing Herdr method")));
    }
    let forbidden: Vec<&'static str> = vec!["server.stop"];
    assert(strs_view(forbidden@) =~= forbidden_methods());
    if list_contains(&forbidden, n) || str_starts_with(n, "pane.graphics.") || str_starts_with(n, "plugin.") {
        return Err(ApiError::new(concat3("refusing ", n, ": not part of the plugin control surface")));
    }
    let allowed = allowed_methods();
    if !list_contains(&allowed, n) {
        return Err(ApiError::new(crate::text::concat2("unknown or unsupported Herdr method: ", n)));
    }
    Ok(name)
}

/// Whether `method` may be retried after an ambiguous transport failure.
/// Only the listed reads qualify; nothing is inferred from a name's prefix.
pub fn is_replay_safe(method: &str) -> (r: bool)
    ensures
        r == replay_safe_list().contains(method@),
{
    let safe = replay_safe_methods();
    list_contains(&safe, method)
}

/// CLI pane target: `--pane ID`, or `--current` when no id is given.
pub fn cli_pane_target(pane: &str) -> (r: Vec<String>)
    ensures
        crate::text::strings_view(r@) == (if pane@.len() > 0 {
            seq!["--pane"@, pane@]
        } else {
            seq!["--current"@]
        }),
{
    let mut v: Vec<String> = Vec::new();
    if !pane.is_empty() {
        v.push(owned("--pane"));
        v.push(owned(pane));
    } else {
        v.push(owned("--current"));
    }
    assert(crate::text::strings_view(v@) =~= (if pane@.len() > 0 {
        seq!["--pane"@, pane@]
    } else {
        seq!["--current"@]
    }));
    v
}

// ---- CLI argument lists ---------------------------------------------------

/// A parameter as text.
pub open spec fn ps(p: Json, k: Seq<char>) -> Seq<char> {
    str_of(json_get(p, k))
}

/// The first non-empty of two parameters.
pub open spec fn ps_or(p: Json, a: Seq<char>, b: Seq<char>) -> Seq<char> {
    if ps(p, a).len() > 0 {
        ps(p, a)
    } else {
        ps(p, b)
    }
}

pub open spec fn pane_target(pane: Seq<char>) -> Seq<Seq<char>> {
    if pane.len() > 0 {
        seq!["--pane"@, pane]
    } else {
        seq!["--current"@]
    }
}

/// `flag value` when `value` is non-empty.
pub open spec fn opt_flag(flag: Seq<char>, value: Seq<char>) -> Seq<Seq<char>> {
    if value.len() > 0 {
        seq![flag, value]
    } else {
        Seq::empty()
    }
}

pub open spec fn non_null(v: Option<Json>) -> bool {
    v is Some && !(v.unwrap() is Null)
}

/// `flag value` when the parameter is present and not null.
pub open spec fn flag_value(flag: Seq<char>, v: Option<Json>) -> Seq<Seq<char>> {
    if non_null(v) {
        seq![flag, num_str(v.unwrap())]
    } else {
        Seq::empty()
    }
}

/// The timeout parameter: `timeout_ms`, else `wait.timeout_ms`.
pub open spec fn timeout_of(p: Json) -> Option<Json> {
    if json_get(p, "timeout_ms"@) is Some {
        json_get(p, "timeout_ms"@)
    } else {
        opt_get(json_get(p, "wait"@), "timeout_ms"@)
    }
}

pub open spec fn timeout_flags(p: Json) -> Seq<Seq<char>> {
    flag_value("--timeout"@, timeout_of(p))
}

/// Keys to send: `keys`, else `key`, else the text.
pub open spec fn keys_spec(p: Json, text: Seq<char>) -> Seq<char> {
    if ps(p, "keys"@).len() > 0 {
        ps(p, "keys"@)
    } else if ps(p, "key"@).len() > 0 {
        ps(p, "key"@)
    } else {
        text
    }
}

pub open spec fn argv_opt(o: Option<Vec<String>>) -> Option<Seq<Seq<char>>> {
    match o {
        Some(v) => Some(strings_view(v@)),
        None => None,
    }
}

pub open spec fn decided(o: Option<Option<Vec<String>>>) -> Option<Option<Seq<Seq<char>>>> {
    match o {
        Some(x) => Some(argv_opt(x)),
        None => None,
    }
}

/// `pane move` for a destination object of type `tab`, `new_tab` or
/// `new_workspace`, with the focus flag.
pub open spec fn pane_move_spec(p: Json, pane: Seq<char>) -> Option<Seq<Seq<char>>> {
    let dest = json_get(p, "destination"@);
    if !(dest is Some && dest.unwrap() is Object) {
        None
    } else {
        let d = dest.unwrap();
        let dtype = ps(d, "type"@);
        let base = seq!["pane"@, "move"@, pane];
        let body = if dtype == "tab"@ {
            let dest_tab = ps(d, "tab_id"@);
            let split = if ps(d, "split"@).len() > 0 {
                ps(d, "split"@)
            } else {
                "right"@
            };
            if dest_tab.len() == 0 {
                None
            } else {
                Some(
                    base + seq!["--tab"@, dest_tab, "--split"@, split] + opt_flag(
                        "--target-pane"@,
                        ps(d, "target_pane_id"@),
                    ) + flag_value("--ratio"@, json_get(d, "ratio"@)),
                )
            }
        } else if dtype == "new_tab"@ {
            Some(
                base + seq!["--new-tab"@] + opt_flag("--workspace"@, ps(d, "workspace_id"@))
                    + opt_flag("--label"@, ps(d, "label"@)),
            )
        } else if dtype == "new_workspace"@ {
            Some(
                base + seq!["--new-workspace"@] + opt_flag("--label"@, ps(d, "label"@)) + opt_flag(
                    "--tab-label"@,
                    ps(d, "tab_label"@),
                ),
            )
        } else {
            None
        };
        match body {
            None => None,
            Some(b) => {
                let f = json_get(p, "focus"@);
                if f == Some(Json::Bool(false)) {
                    Some(b + seq!["--no-focus"@])
                } else if truthy(f) {
                    Some(b + seq!["--focus"@])
                } else {
                    Some(b)
                }
            },
        }
    }
}

/// `pane split` from a pane (or the current one) in a direction (default
/// `right`), with an optional ratio.
pub open spec fn pane_split_spec(p: Json, pane: Seq<char>, direction: Seq<char>) -> Seq<Seq<char>> {
    seq!["pane"@, "split"@] + (if pane.len() > 0 {
        seq![pane]
    } else {
        seq!["--current"@]
    }) + seq![
        "--direction"@,
        if direction.len() > 0 {
            direction
        } else {
            "right"@
        },
    ] + flag_value("--ratio"@, json_get(p, "ratio"@))
}

/// Server, workspace and tab methods.
pub open spec fn argv_group_a(
    m: Seq<char>,
    p: Json,
    tab: Seq<char>,
    ws: Seq<char>,
    label: Seq<char>,
) -> Option<Option<Seq<Seq<char>>>> {
    if m == "ping"@ {
        Some(Some(seq!["status"@]))
    } else if m == "session.snapshot"@ {
        Some(Some(seq!["api"@, "snapshot"@]))
    } else if m == "workspace.list"@ {
        Some(Some(seq!["workspace"@, "list"@]))
    } else if m == "workspace.get"@ && ws.len() > 0 {
        Some(Some(seq!["workspace"@, "get"@, ws]))
    } else if m == "workspace.focus"@ && ws.len() > 0 {
        Some(Some(seq!["workspace"@, "focus"@, ws]))
    } else if m == "workspace.close"@ && ws.len() > 0 {
        Some(Some(seq!["workspace"@, "close"@, ws]))
    } else if m == "workspace.rename"@ && ws.len() > 0 && label.len() > 0 {
        Some(Some(seq!["workspace"@, "rename"@, ws, label]))
    } else if m == "workspace.create"@ {
        Some(
            Some(
                seq!["workspace"@, "create"@] + opt_flag("--cwd"@, ps(p, "cwd"@)) + opt_flag(
                    "--label"@,
                    label,
                ),
            ),
        )
    } else if m == "tab.list"@ {
        Some(Some(seq!["tab"@, "list"@]))
    } else if m == "tab.get"@ && tab.len() > 0 {
        Some(Some(seq!["tab"@, "get"@, tab]))
    } else if m == "tab.focus"@ && tab.len() > 0 {
        Some(Some(seq!["tab"@, "focus"@, tab]))
    } else if m == "tab.close"@ && tab.len() > 0 {
        Some(Some(seq!["tab"@, "close"@, tab]))
    } else if m == "tab.rename"@ && tab.len() > 0 && label.len() > 0 {
        Some(Some(seq!["tab"@, "rename"@, tab, label]))
    } else if m == "tab.create"@ {
        Some(
            Some(
                seq!["tab"@, "create"@] + opt_flag("--label"@, label) + opt_flag(
                    "--workspace"@,
                    ws,
                ),
            ),
        )
    } else {
        None
    }
}

/// Pane listing, reading and arrangement methods.
pub open spec fn argv_group_b(
    m: Seq<char>,
    p: Json,
    pane: Seq<char>,
    tab: Seq<char>,
    direction: Seq<char>,
    text: Seq<char>,
) -> Option<Option<Seq<Seq<char>>>> {
    if m == "pane.list"@ {
        Some(Some(seq!["pane"@, "list"@]))
    } else if m == "pane.current"@ {
        Some(Some(seq!["pane"@, "current"@] + opt_flag("--pane"@, ps(p, "caller_pane_id"@))))
    } else if m == "pane.get"@ && pane.len() > 0 {
        Some(Some(seq!["pane"@, "get"@, pane]))
    } else if m == "pane.focus_direction"@ && direction.len() > 0 {
        Some(Some(seq!["pane"@, "focus"@, "--direction"@, direction] + opt_flag("--pane"@, pane)))
    } else if m == "pane.send_text"@ && pane.len() > 0 && text.len() > 0 {
        Some(Some(seq!["pane"@, "send-text"@, pane, text]))
    } else if m == "pane.send_keys"@ && pane.len() > 0 {
        let keys = keys_spec(p, text);
        if keys.len() == 0 {
            Some(None)
        } else {
            Some(Some(seq!["pane"@, "send-keys"@, pane, keys]))
        }
    } else if m == "pane.read"@ && pane.len() > 0 {
        Some(
            Some(
                seq![
                    "pane"@,
                    "read"@,
                    pane,
                    "--source"@,
                    if ps(p, "source"@).len() > 0 {
                        ps(p, "source"@)
                    } else {
                        "recent"@
                    },
                ] + flag_value("--lines"@, json_get(p, "lines"@)) + if truthy(
                    json_get(p, "ansi"@),
                ) {
                    seq!["--ansi"@]
                } else {
                    Seq::empty()
                },
            ),
        )
    } else if m == "layout.export"@ {
        if tab.len() > 0 && pane.len() == 0 {
            Some(None)
        } else {
            Some(Some(seq!["pane"@, "layout"@] + pane_target(pane)))
        }
    } else if m == "pane.move"@ && pane.len() > 0 {
        Some(pane_move_spec(p, pane))
    } else if m == "pane.close"@ && pane.len() > 0 {
        Some(Some(seq!["pane"@, "close"@, pane]))
    } else if m == "pane.zoom"@ {
        let mode = ps(p, "mode"@);
        Some(
            Some(
                seq!["pane"@, "zoom"@] + (if pane.len() > 0 {
                    seq![pane]
                } else {
                    Seq::empty()
                }) + if mode == "on"@ || mode == "off"@ || mode == "toggle"@ {
                    seq!["--"@ + mode]
                } else if pane.len() == 0 {
                    seq!["--current"@]
                } else {
                    Seq::empty()
                },
            ),
        )
    } else if m == "pane.resize"@ {
        if direction.len() == 0 {
            Some(None)
        } else {
            Some(
                Some(
                    seq!["pane"@, "resize"@, "--direction"@, direction] + pane_target(pane)
                        + flag_value("--amount"@, json_get(p, "amount"@)),
                ),
            )
        }
    } else {
        None
    }
}

/// Pane swap, neighbours, splits, agent authority and output waits.
pub open spec fn argv_group_c(
    m: Seq<char>,
    p: Json,
    pane: Seq<char>,
    label: Seq<char>,
    direction: Seq<char>,
) -> Option<Option<Seq<Seq<char>>>> {
    if m == "pane.swap"@ {
        let source = if ps(p, "source_pane_id"@).len() > 0 {
            ps(p, "source_pane_id"@)
        } else {
            pane
        };
        let target = ps(p, "target_pane_id"@);
        if source.len() > 0 && target.len() > 0 {
            Some(
                Some(
                    seq!["pane"@, "swap"@, "--source-pane"@, source, "--target-pane"@, target],
                ),
            )
        } else if direction.len() == 0 {
            Some(None)
        } else {
            Some(
                Some(
                    seq!["pane"@, "swap"@, "--direction"@, direction] + pane_target(source),
                ),
            )
        }
    } else if m == "pane.neighbor"@ {
        if direction.len() == 0 {
            Some(None)
        } else {
            Some(
                Some(
                    seq!["pane"@, "neighbor"@, "--direction"@, direction] + pane_target(pane),
                ),
            )
        }
    } else if m == "pane.edges"@ {
        Some(Some(seq!["pane"@, "edges"@] + pane_target(pane)))
    } else if m == "pane.layout"@ {
        Some(Some(seq!["pane"@, "layout"@] + pane_target(pane)))
    } else if m == "pane.split"@ {
        Some(Some(pane_split_spec(p, pane, direction)))
    } else if m == "pane.process_info"@ {
        Some(Some(seq!["pane"@, "process-info"@] + pane_target(pane)))
    } else if m == "pane.release_agent"@ && pane.len() > 0 {
        Some(Some(seq!["pane"@, "release-agent"@, pane]))
    } else if m == "pane.clear_agent_authority"@ && pane.len() > 0 {
        Some(Some(seq!["pane"@, "clear-agent-authority"@, pane]))
    } else if m == "pane.rename"@ && pane.len() > 0 && label.len() > 0 {
        Some(Some(seq!["pane"@, "rename"@, pane, label]))
    } else if m == "pane.wait_for_output"@ && pane.len() > 0 {
        let mat = if ps(p, "pattern"@).len() > 0 {
            ps(p, "pattern"@)
        } else if ps(p, "needle"@).len() > 0 {
            ps(p, "needle"@)
        } else {
            ps(p, "match"@)
        };
        let regex = ps(p, "regex"@);
        if mat.len() == 0 && regex.len() == 0 {
            Some(None)
        } else {
            Some(
                Some(
                    seq!["pane"@, "wait-output"@, pane] + (if regex.len() > 0 {
                        seq!["--regex"@, regex]
                    } else {
                        seq!["--match"@, mat]
                    }) + timeout_flags(p),
                ),
            )
        }
    } else {
        None
    }
}

/// The prompt's wait condition: `until`, else `wait.until`.
pub open spec fn prompt_until(p: Json) -> Seq<char> {
    let w = json_get(p, "wait"@);
    if ps(p, "until"@).len() == 0 && w is Some && w.unwrap() is Object {
        str_of(json_get(w.unwrap(), "until"@))
    } else {
        ps(p, "until"@)
    }
}

/// Agent methods.
pub open spec fn argv_group_d(
    m: Seq<char>,
    p: Json,
    pane: Seq<char>,
    label: Seq<char>,
    text: Seq<char>,
) -> Option<Option<Seq<Seq<char>>>> {
    if m == "agent.list"@ {
        Some(Some(seq!["agent"@, "list"@]))
    } else if m == "agent.get"@ && pane.len() > 0 {
        Some(Some(seq!["agent"@, "get"@, pane]))
    } else if m == "agent.focus"@ && pane.len() > 0 {
        Some(Some(seq!["agent"@, "focus"@, pane]))
    } else if m == "agent.read"@ && pane.len() > 0 {
        Some(
            Some(
                seq!["agent"@, "read"@, pane] + opt_flag("--source"@, ps(p, "source"@))
                    + flag_value("--lines"@, json_get(p, "lines"@)),
            ),
        )
    } else if m == "agent.prompt"@ && pane.len() > 0 && text.len() > 0 {
        let until = prompt_until(p);
        let wants = truthy(json_get(p, "wait"@)) || until.len() > 0;
        Some(
            Some(
                seq!["agent"@, "prompt"@, pane, text] + (if wants {
                    seq!["--wait"@]
                } else {
                    Seq::empty()
                }) + opt_flag("--until"@, until) + timeout_flags(p),
            ),
        )
    } else if m == "agent.wait"@ && pane.len() > 0 {
        Some(
            Some(
                seq!["agent"@, "wait"@, pane] + opt_flag("--until"@, ps(p, "until"@))
                    + timeout_flags(p),
            ),
        )
    } else if m == "agent.start"@ {
        let name = ps(p, "name"@);
        let kind = ps_or(p, "kind"@, "agent"@);
        if name.len() == 0 || kind.len() == 0 || pane.len() == 0 {
            Some(None)
        } else {
            Some(
                Some(
                    seq!["agent"@, "start"@, name, "--kind"@, kind, "--pane"@, pane]
                        + timeout_flags(p),
                ),
            )
        }
    } else if m == "agent.send_keys"@ && pane.len() > 0 {
        let keys = keys_spec(p, text);
        if keys.len() == 0 {
            Some(None)
        } else {
            Some(Some(seq!["agent"@, "send-keys"@, pane, keys]))
        }
    } else if m == "agent.rename"@ && pane.len() > 0 && label.len() > 0 {
        Some(Some(seq!["agent"@, "rename"@, pane, label]))
    } else if m == "agent.explain"@ && pane.len() > 0 {
        Some(Some(seq!["agent"@, "explain"@, pane]))
    } else if m == "agent.view.set"@ && pane.len() > 0 {
        let view = ps(p, "view"@);
        if view.len() == 0 {
            Some(None)
        } else {
            Some(Some(seq!["agent"@, "view"@, "set"@, pane, view]))
        }
    } else if m == "agent.view.clear"@ && pane.len() > 0 {
        Some(Some(seq!["agent"@, "view"@, "clear"@, pane]))
    } else {
        None
    }
}

/// Client, layout, server, worktree, workspace ordering and notification
/// methods.
pub open spec fn argv_group_e(m: Seq<char>, p: Json, ws: Seq<char>) -> Option<
    Option<Seq<Seq<char>>>,
> {
    if m == "client.window_title.set"@ {
        let title = ps(p, "title"@);
        if title.len() == 0 {
            Some(None)
        } else {
            Some(Some(seq!["client"@, "window-title"@, "set"@, title]))
        }
    } else if m == "client.window_title.clear"@ {
        Some(Some(seq!["client"@, "window-title"@, "clear"@]))
    } else if m == "layout.apply"@ {
        Some(None)
    } else if m == "server.agent_manifests"@ {
        Some(Some(seq!["server"@, "agent-manifests"@]))
    } else if m == "server.reload_agent_manifests"@ {
        Some(Some(seq!["server"@, "reload-agent-manifests"@]))
    } else if m == "worktree.list"@ {
        Some(Some(seq!["worktree"@, "list"@]))
    } else if m == "worktree.create"@ {
        Some(
            Some(
                seq!["worktree"@, "create"@] + opt_flag("--path"@, ps(p, "path"@)) + opt_flag(
                    "--name"@,
                    ps(p, "name"@),
                ),
            ),
        )
    } else if m == "worktree.open"@ {
        let target = ps_or(p, "id"@, "path"@);
        if target.len() == 0 {
            Some(None)
        } else {
            Some(Some(seq!["worktree"@, "open"@, target]))
        }
    } else if m == "worktree.remove"@ {
        let target = ps_or(p, "id"@, "path"@);
        if target.len() == 0 {
            Some(None)
        } else {
            Some(Some(seq!["worktree"@, "remove"@, target]))
        }
    } else if m == "workspace.move"@ && ws.len() > 0 {
        Some(
            Some(
                seq!["workspace"@, "move"@, ws] + flag_value("--index"@, json_get(p, "index"@)),
            ),
        )
    } else if m == "workspace.move_block"@ && ws.len() > 0 {
        let block = ps(p, "block"@);
        if block.len() == 0 {
            Some(None)
        } else {
            Some(
                Some(
                    seq!["workspace"@, "move-block"@, ws, block] + flag_value(
                        "--index"@,
                        json_get(p, "index"@),
                    ),
                ),
            )
        }
    } else if m == "notification.show"@ {
        let title = ps(p, "title"@);
        if title.len() == 0 {
            Some(None)
        } else {
            Some(
                Some(
                    seq!["notification"@, "show"@, title] + opt_flag("--body"@, ps(p, "body"@)),
                ),
            )
        }
    } else {
        None
    }
}

/// The documented `herdr` CLI argument list for a socket method, or `None`
/// when the method has no safe CLI equivalent or lacks required
/// parameters. Parameters that are not an object count as none.
pub open spec fn cli_argv(m: Seq<char>, p: Json) -> Option<Seq<Seq<char>>> {
    let pane = ps_or(p, "pane_id"@, "target"@);
    let tab = ps(p, "tab_id"@);
    let ws = ps(p, "workspace_id"@);
    let label = ps(p, "label"@);
    let direction = ps(p, "direction"@);
    let text = ps_or(p, "text"@, "prompt"@);
    match argv_group_a(m, p, tab, ws, label) {
        Some(r) => r,
        None => match argv_group_b(m, p, pane, tab, direction, text) {
            Some(r) => r,
            None => match argv_group_c(m, p, pane, label, direction) {
                Some(r) => r,
                None => match argv_group_d(m, p, pane, label, text) {
                    Some(r) => r,
                    None => match argv_group_e(m, p, ws) {
                        Some(r) => r,
                        None => None,
                    },
                },
            },
        },
    }
}

fn ps_exec(p: &Json, k: &str) -> (r: String)
    ensures
        r@ == ps(*p, k@),
{
    let v = p.get(k);
    assert(opt_ref(v) == json_get(*p, k@));
    str_of_exec(v)
}

fn ps_or_exec(p: &Json, a: &str, b: &str) -> (r: String)
    ensures
        r@ == ps_or(*p, a@, b@),
{
    let first = ps_exec(p, a);
    if !first.as_str().is_empty() {
        first
    } else {
        ps_exec(p, b)
    }
}

fn get_ref<'a>(p: &'a Json, k: &str) -> (r: Option<&'a Json>)
    ensures
        opt_ref(r) == json_get(*p, k@),
{
    p.get(k)
}

fn a1(x: &str) -> (r: Vec<String>)
    ensures
        strings_view(r@) == seq![x@],
{
    let mut v: Vec<String> = Vec::new();
    v.push(owned(x));
    assert(strings_view(v@) =~= seq![x@]);
    v
}

fn a2(x: &str, y: &str) -> (r: Vec<String>)
    ensures
        strings_view(r@) == seq![x@, y@],
{
    let mut v = a1(x);
    add1(&mut v, y);
    assert(strings_view(v@) =~= seq![x@, y@]);
    v
}

fn a3(x: &str, y: &str, z: &str) -> (r: Vec<String>)
    ensures
        strings_view(r@) == seq![x@, y@, z@],
{
    let mut v = a2(x, y);
    add1(&mut v, z);
    assert(strings_view(v@) =~= seq![x@, y@, z@]);
    v
}

fn a4(x: &str, y: &str, z: &str, w: &str) -> (r: Vec<String>)
    ensures
        strings_view(r@) == seq![x@, y@, z@, w@],
{
    let mut v = a3(x, y, z);
    add1(&mut v, w);
    assert(strings_view(v@) =~= seq![x@, y@, z@, w@]);
    v
}

fn a5(x: &str, y: &str, z: &str, w: &str, u: &str) -> (r: Vec<String>)
    ensures
        strings_view(r@) == seq![x@, y@, z@, w@, u@],
{
    let mut v = a4(x, y, z, w);
    add1(&mut v, u);
    assert(strings_view(v@) =~= seq![x@, y@, z@, w@, u@]);
    v
}

fn add1(v: &mut Vec<String>, x: &str)
    ensures
        strings_view(final(v)@) == strings_view(old(v)@).push(x@),
{
    let ghost o = strings_view(v@);
    v.push(owned(x));
    assert(strings_view(v@) =~= o.push(x@));
}

fn add_all(v: &mut Vec<String>, more: Vec<String>)
    ensures
        strings_view(final(v)@) == strings_view(old(v)@) + strings_view(more@),
{
    let ghost head = strings_view(v@);
    let mut k: usize = 0;
    while k < more.len()
        invariant
            k <= more.len(),
            strings_view(v@) == head + strings_view(more@).take(k as int),
        decreases more.len() - k,
    {
        let ghost o = strings_view(v@);
        v.push(more[k].clone());
        assert(strings_view(v@) =~= o.push(more@[k as int]@));
        assert(strings_view(more@).take(k + 1) =~= strings_view(more@).take(k as int).push(
            more@[k as int]@,
        ));
        k += 1;
    }
    assert(strings_view(more@).take(more.len() as int) =~= strings_view(more@));
}

fn add_opt(v: &mut Vec<String>, flag: &str, value: &str)
    ensures
        strings_view(final(v)@) == strings_view(old(v)@) + opt_flag(flag@, value@),
{
    let ghost o = strings_view(v@);
    if !value.is_empty() {
        add1(v, flag);
        add1(v, value);
        assert(strings_view(v@) =~= o + seq![flag@, value@]);
    } else {
        assert(strings_view(v@) =~= o + Seq::<Seq<char>>::empty());
    }
}

fn add_val(v: &mut Vec<String>, flag: &str, value: Option<&Json>)
    ensures
        strings_view(final(v)@) == strings_view(old(v)@) + flag_value(flag@, opt_ref(value)),
{
    let ghost o = strings_view(v@);
    match value {
        Some(j) => {
            if !j.is_null() {
                let t = num_str_exec(j);
                add1(v, flag);
                add1(v, t.as_str());
                assert(strings_view(v@) =~= o + seq![flag@, t@]);
                return;
            }
        },
        None => {},
    }
    assert(strings_view(v@) =~= o + Seq::<Seq<char>>::empty());
}

fn cli_timeout(p: &Json) -> (r: Vec<String>)
    ensures
        strings_view(r@) == timeout_flags(*p),
{
    let mut v: Vec<String> = Vec::new();
    let t = get_ref(p, "timeout_ms");
    let chosen = match t {
        Some(x) => Some(x),
        None => match get_ref(p, "wait") {
            Some(w) => get_ref(w, "timeout_ms"),
            None => None,
        },
    };
    assert(opt_ref(chosen) == timeout_of(*p));
    add_val(&mut v, "--timeout", chosen);
    assert(strings_view(v@) =~= timeout_flags(*p));
    v
}

fn keys_param(p: &Json, text: &str) -> (r: String)
    ensures
        r@ == keys_spec(*p, text@),
{
    let k = ps_exec(p, "keys");
    if !k.as_str().is_empty() {
        return k;
    }
    let k = ps_exec(p, "key");
    if !k.as_str().is_empty() {
        return k;
    }
    owned(text)
}

fn group_a(method: &str, p: &Json, tab: &str, ws: &str, label: &str) -> (r: Option<
    Option<Vec<String>>,
>)
    ensures
        decided(r) == argv_group_a(method@, *p, tab@, ws@, label@),
{
    if str_eq(method, "ping") {
        return Some(Some(a1("status")));
    }
    if str_eq(method, "session.snapshot") {
        return Some(Some(a2("api", "snapshot")));
    }
    if str_eq(method, "workspace.list") {
        return Some(Some(a2("workspace", "list")));
    }
    if str_eq(method, "workspace.get") && !ws.is_empty() {
        return Some(Some(a3("workspace", "get", ws)));
    }
    if str_eq(method, "workspace.focus") && !ws.is_empty() {
        return Some(Some(a3("workspace", "focus", ws)));
    }
    if str_eq(method, "workspace.close") && !ws.is_empty() {
        return Some(Some(a3("workspace", "close", ws)));
    }
    if str_eq(method, "workspace.rename") && !ws.is_empty() && !label.is_empty() {
        return Some(Some(a4("workspace", "rename", ws, label)));
    }
    if str_eq(method, "workspace.create") {
        let mut v = a2("workspace", "create");
        let cwd = ps_exec(p, "cwd");
        add_opt(&mut v, "--cwd", cwd.as_str());
        add_opt(&mut v, "--label", label);
        return Some(Some(v));
    }
    if str_eq(method, "tab.list") {
        return Some(Some(a2("tab", "list")));
    }
    if str_eq(method, "tab.get") && !tab.is_empty() {
        return Some(Some(a3("tab", "get", tab)));
    }
    if str_eq(method, "tab.focus") && !tab.is_empty() {
        return Some(Some(a3("tab", "focus", tab)));
    }
    if str_eq(method, "tab.close") && !tab.is_empty() {
        return Some(Some(a3("tab", "close", tab)));
    }
    if str_eq(method, "tab.rename") && !tab.is_empty() && !label.is_empty() {
        return Some(Some(a4("tab", "rename", tab, label)));
    }
    if str_eq(method, "tab.create") {
        let mut v = a2("tab", "create");
        add_opt(&mut v, "--label", label);
        add_opt(&mut v, "--workspace", ws);
        return Some(Some(v));
    }
    None
}

fn build_pane_move(p: &Json, pane: &str) -> (r: Option<Vec<String>>)
    ensures
        argv_opt(r) == pane_move_spec(*p, pane@),
{
    let dest = match get_ref(p, "destination") {
        Some(d) => d,
        None => return None,
    };
    if !dest.is_object() {
        return None;
    }
    let dtype = ps_exec(dest, "type");
    let mut v = a3("pane", "move", pane);
    let ghost base = strings_view(v@);
    if str_eq(dtype.as_str(), "tab") {
        let dest_tab = ps_exec(dest, "tab_id");
        let sp = ps_exec(dest, "split");
        let split = if sp.as_str().is_empty() {
            owned("right")
        } else {
            sp
        };
        if dest_tab.as_str().is_empty() {
            return None;
        }
        add1(&mut v, "--tab");
        add1(&mut v, dest_tab.as_str());
        add1(&mut v, "--split");
        add1(&mut v, split.as_str());
        let target = ps_exec(dest, "target_pane_id");
        add_opt(&mut v, "--target-pane", target.as_str());
        add_val(&mut v, "--ratio", get_ref(dest, "ratio"));
        assert(strings_view(v@) =~= base + seq!["--tab"@, dest_tab@, "--split"@, split@] + opt_flag(
            "--target-pane"@,
            ps(*dest, "target_pane_id"@),
        ) + flag_value("--ratio"@, json_get(*dest, "ratio"@)));
    } else if str_eq(dtype.as_str(), "new_tab") {
        add1(&mut v, "--new-tab");
        let w = ps_exec(dest, "workspace_id");
        add_opt(&mut v, "--workspace", w.as_str());
        let l = ps_exec(dest, "label");
        add_opt(&mut v, "--label", l.as_str());
        assert(strings_view(v@) =~= base + seq!["--new-tab"@] + opt_flag("--workspace"@, w@)
            + opt_flag("--label"@, l@));
    } else if str_eq(dtype.as_str(), "new_workspace") {
        add1(&mut v, "--new-workspace");
        let l = ps_exec(dest, "label");
        add_opt(&mut v, "--label", l.as_str());
        let t = ps_exec(dest, "tab_label");
        add_opt(&mut v, "--tab-label", t.as_str());
        assert(strings_view(v@) =~= base + seq!["--new-workspace"@] + opt_flag("--label"@, l@)
            + opt_flag("--tab-label"@, t@));
    } else {
        return None;
    }
    let f = get_ref(p, "focus");
    let is_false = match f {
        Some(Json::Bool(b)) => !*b,
        _ => false,
    };
    if is_false {
        add1(&mut v, "--no-focus");
    } else if is_truthy(f) {
        add1(&mut v, "--focus");
    }
    Some(v)
}

fn build_pane_split(p: &Json, pane: &str, direction: &str) -> (r: Vec<String>)
    ensures
        strings_view(r@) == pane_split_spec(*p, pane@, direction@),
{
    let mut v = a2("pane", "split");
    if !pane.is_empty() {
        add1(&mut v, pane);
    } else {
        add1(&mut v, "--current");
    }
    add1(&mut v, "--direction");
    if direction.is_empty() {
        add1(&mut v, "right");
    } else {
        add1(&mut v, direction);
    }
    add_val(&mut v, "--ratio", get_ref(p, "ratio"));
    v
}

fn group_b(method: &str, p: &Json, pane: &str, tab: &str, direction: &str, text: &str) -> (r: Option<
    Option<Vec<String>>,
>)
    ensures
        decided(r) == argv_group_b(method@, *p, pane@, tab@, direction@, text@),
{
    if str_eq(method, "pane.list") {
        return Some(Some(a2("pane", "list")));
    }
    if str_eq(method, "pane.current") {
        let mut v = a2("pane", "current");
        let caller = ps_exec(p, "caller_pane_id");
        add_opt(&mut v, "--pane", caller.as_str());
        return Some(Some(v));
    }
    if str_eq(method, "pane.get") && !pane.is_empty() {
        return Some(Some(a3("pane", "get", pane)));
    }
    if str_eq(method, "pane.focus_direction") && !direction.is_empty() {
        let mut v = a4("pane", "focus", "--direction", direction);
        add_opt(&mut v, "--pane", pane);
        return Some(Some(v));
    }
    if str_eq(method, "pane.send_text") && !pane.is_empty() && !text.is_empty() {
        return Some(Some(a4("pane", "send-text", pane, text)));
    }
    if str_eq(method, "pane.send_keys") && !pane.is_empty() {
        let keys = keys_param(p, text);
        if keys.as_str().is_empty() {
            return Some(None);
        }
        return Some(Some(a4("pane", "send-keys", pane, keys.as_str())));
    }
    if str_eq(method, "pane.read") && !pane.is_empty() {
        let src = ps_exec(p, "source");
        let source = if src.as_str().is_empty() {
            owned("recent")
        } else {
            src
        };
        let mut v = a5("pane", "read", pane, "--source", source.as_str());
        add_val(&mut v, "--lines", get_ref(p, "lines"));
        if is_truthy(get_ref(p, "ansi")) {
            add1(&mut v, "--ansi");
        }
        return Some(Some(v));
    }
    if str_eq(method, "layout.export") {
        if !tab.is_empty() && pane.is_empty() {
            return Some(None);
        }
        let mut v = a2("pane", "layout");
        add_all(&mut v, cli_pane_target(pane));
        return Some(Some(v));
    }
    if str_eq(method, "pane.move") && !pane.is_empty() {
        return Some(build_pane_move(p, pane));
    }
    if str_eq(method, "pane.close") && !pane.is_empty() {
        return Some(Some(a3("pane", "close", pane)));
    }
    if str_eq(method, "pane.zoom") {
        let mut v = a2("pane", "zoom");
        let ghost v0 = strings_view(v@);
        if !pane.is_empty() {
            add1(&mut v, pane);
        }
        let ghost v1 = strings_view(v@);
        let mode = ps_exec(p, "mode");
        let ms = mode.as_str();
        if str_eq(ms, "on") || str_eq(ms, "off") || str_eq(ms, "toggle") {
            let flag = concat2("--", ms);
            add1(&mut v, flag.as_str());
        } else if pane.is_empty() {
            add1(&mut v, "--current");
        }
        assert(strings_view(v@) =~= v0 + (if pane@.len() > 0 {
            seq![pane@]
        } else {
            Seq::empty()
        }) + (strings_view(v@).skip(v1.len() as int)));
        return Some(Some(v));
    }
    if str_eq(method, "pane.resize") {
        if direction.is_empty() {
            return Some(None);
        }
        let mut v = a4("pane", "resize", "--direction", direction);
        add_all(&mut v, cli_pane_target(pane));
        add_val(&mut v, "--amount", get_ref(p, "amount"));
        return Some(Some(v));
    }
    None
}

fn group_c(method: &str, p: &Json, pane: &str, label: &str, direction: &str) -> (r: Option<
    Option<Vec<String>>,
>)
    ensures
        decided(r) == argv_group_c(method@, *p, pane@, label@, direction@),
{
    if str_eq(method, "pane.swap") {
        let sp = ps_exec(p, "source_pane_id");
        let source = if sp.as_str().is_empty() {
            owned(pane)
        } else {
            sp
        };
        let target = ps_exec(p, "target_pane_id");
        if !source.as_str().is_empty() && !target.as_str().is_empty() {
            let mut v = a5("pane", "swap", "--source-pane", source.as_str(), "--target-pane");
            add1(&mut v, target.as_str());
            return Some(Some(v));
        }
        if direction.is_empty() {
            return Some(None);
        }
        let mut v = a4("pane", "swap", "--direction", direction);
        add_all(&mut v, cli_pane_target(source.as_str()));
        return Some(Some(v));
    }
    if str_eq(method, "pane.neighbor") {
        if direction.is_empty() {
            return Some(None);
        }
        let mut v = a4("pane", "neighbor", "--direction", direction);
        add_all(&mut v, cli_pane_target(pane));
        return Some(Some(v));
    }
    if str_eq(method, "pane.edges") {
        let mut v = a2("pane", "edges");
        add_all(&mut v, cli_pane_target(pane));
        return Some(Some(v));
    }
    if str_eq(method, "pane.layout") {
        let mut v = a2("pane", "layout");
        add_all(&mut v, cli_pane_target(pane));
        return Some(Some(v));
    }
    if str_eq(method, "pane.split") {
        return Some(Some(build_pane_split(p, pane, direction)));
    }
    if str_eq(method, "pane.process_info") {
        let mut v = a2("pane", "process-info");
        add_all(&mut v, cli_pane_target(pane));
        return Some(Some(v));
    }
    if str_eq(method, "pane.release_agent") && !pane.is_empty() {
        return Some(Some(a3("pane", "release-agent", pane)));
    }
    if str_eq(method, "pane.clear_agent_authority") && !pane.is_empty() {
        return Some(Some(a3("pane", "clear-agent-authority", pane)));
    }
    if str_eq(method, "pane.rename") && !pane.is_empty() && !label.is_empty() {
        return Some(Some(a4("pane", "rename", pane, label)));
    }
    if str_eq(method, "pane.wait_for_output") && !pane.is_empty() {
        let pattern = ps_exec(p, "pattern");
        let mat = if !pattern.as_str().is_empty() {
            pattern
        } else {
            let needle = ps_exec(p, "needle");
            if !needle.as_str().is_empty() {
                needle
            } else {
                ps_exec(p, "match")
            }
        };
        let regex = ps_exec(p, "regex");
        if mat.as_str().is_empty() && regex.as_str().is_empty() {
            return Some(None);
        }
        let mut v = a3("pane", "wait-output", pane);
        if !regex.as_str().is_empty() {
            add1(&mut v, "--regex");
            add1(&mut v, regex.as_str());
        } else {
            add1(&mut v, "--match");
            add1(&mut v, mat.as_str());
        }
        add_all(&mut v, cli_timeout(p));
        return Some(Some(v));
    }
    None
}

fn prompt_until_exec(p: &Json) -> (r: String)
    ensures
        r@ == prompt_until(*p),
{
    let until = ps_exec(p, "until");
    if until.as_str().is_empty() {
        match get_ref(p, "wait") {
            Some(w) => {
                if w.is_object() {
                    return str_of_exec(get_ref(w, "until"));
                }
            },
            None => {},
        }
    }
    until
}

fn group_d(method: &str, p: &Json, pane: &str, label: &str, text: &str) -> (r: Option<
    Option<Vec<String>>,
>)
    ensures
        decided(r) == argv_group_d(method@, *p, pane@, label@, text@),
{
    if str_eq(method, "agent.list") {
        return Some(Some(a2("agent", "list")));
    }
    if str_eq(method, "agent.get") && !pane.is_empty() {
        return Some(Some(a3("agent", "get", pane)));
    }
    if str_eq(method, "agent.focus") && !pane.is_empty() {
        return Some(Some(a3("agent", "focus", pane)));
    }
    if str_eq(method, "agent.read") && !pane.is_empty() {
        let mut v = a3("agent", "read", pane);
        let source = ps_exec(p, "source");
        add_opt(&mut v, "--source", source.as_str());
        add_val(&mut v, "--lines", get_ref(p, "lines"));
        return Some(Some(v));
    }
    if str_eq(method, "agent.prompt") && !pane.is_empty() && !text.is_empty() {
        let mut v = a4("agent", "prompt", pane, text);
        let until = prompt_until_exec(p);
        let wants = is_truthy(get_ref(p, "wait")) || !until.as_str().is_empty();
        let ghost v0 = strings_view(v@);
        if wants {
            add1(&mut v, "--wait");
        }
        assert(strings_view(v@) =~= v0 + (if wants {
            seq!["--wait"@]
        } else {
            Seq::empty()
        }));
        add_opt(&mut v, "--until", until.as_str());
        add_all(&mut v, cli_timeout(p));
        return Some(Some(v));
    }
    if str_eq(method, "agent.wait") && !pane.is_empty() {
        let mut v = a3("agent", "wait", pane);
        let until = ps_exec(p, "until");
        add_opt(&mut v, "--until", until.as_str());
        add_all(&mut v, cli_timeout(p));
        return Some(Some(v));
    }
    if str_eq(method, "agent.start") {
        let name = ps_exec(p, "name");
        let kind = ps_or_exec(p, "kind", "agent");
        if name.as_str().is_empty() || kind.as_str().is_empty() || pane.is_empty() {
            return Some(None);
        }
        let mut v = a5("agent", "start", name.as_str(), "--kind", kind.as_str());
        add1(&mut v, "--pane");
        add1(&mut v, pane);
        add_all(&mut v, cli_timeout(p));
        return Some(Some(v));
    }
    if str_eq(method, "agent.send_keys") && !pane.is_empty() {
        let keys = keys_param(p, text);
        if keys.as_str().is_empty() {
            return Some(None);
        }
        return Some(Some(a4("agent", "send-keys", pane, keys.as_str())));
    }
    if str_eq(method, "agent.rename") && !pane.is_empty() && !label.is_empty() {
        return Some(Some(a4("agent", "rename", pane, label)));
    }
    if str_eq(method, "agent.explain") && !pane.is_empty() {
        return Some(Some(a3("agent", "explain", pane)));
    }
    if str_eq(method, "agent.view.set") && !pane.is_empty() {
        let view = ps_exec(p, "view");
        if view.as_str().is_empty() {
            return Some(None);
        }
        return Some(Some(a5("agent", "view", "set", pane, view.as_str())));
    }
    if str_eq(method, "agent.view.clear") && !pane.is_empty() {
        return Some(Some(a4("agent", "view", "clear", pane)));
    }
    None
}

fn group_e(method: &str, p: &Json, ws: &str) -> (r: Option<Option<Vec<String>>>)
    ensures
        decided(r) == argv_group_e(method@, *p, ws@),
{
    if str_eq(method, "client.window_title.set") {
        let title = ps_exec(p, "title");
        if title.as_str().is_empty() {
            return Some(None);
        }
        return Some(Some(a4("client", "window-title", "set", title.as_str())));
    }
    if str_eq(method, "client.window_title.clear") {
        return Some(Some(a3("client", "window-title", "clear")));
    }
    if str_eq(method, "layout.apply") {
        return Some(None);
    }
    if str_eq(method, "server.agent_manifests") {
        return Some(Some(a2("server", "agent-manifests")));
    }
    if str_eq(method, "server.reload_agent_manifests") {
        return Some(Some(a2("server", "reload-agent-manifests")));
    }
    if str_eq(method, "worktree.list") {
        return Some(Some(a2("worktree", "list")));
    }
    if str_eq(method, "worktree.create") {
        let mut v = a2("worktree", "create");
        let path = ps_exec(p, "path");
        add_opt(&mut v, "--path", path.as_str());
        let name = ps_exec(p, "name");
        add_opt(&mut v, "--name", name.as_str());
        return Some(Some(v));
    }
    if str_eq(method, "worktree.open") {
        let target = ps_or_exec(p, "id", "path");
        if target.as_str().is_empty() {
            return Some(None);
        }
        return Some(Some(a3("worktree", "open", target.as_str())));
    }
    if str_eq(method, "worktree.remove") {
        let target = ps_or_exec(p, "id", "path");
        if target.as_str().is_empty() {
            return Some(None);
        }
        return Some(Some(a3("worktree", "remove", target.as_str())));
    }
    if str_eq(method, "workspace.move") && !ws.is_empty() {
        let mut v = a3("workspace", "move", ws);
        add_val(&mut v, "--index", get_ref(p, "index"));
        return Some(Some(v));
    }
    if str_eq(method, "workspace.move_block") && !ws.is_empty() {
        let block = ps_exec(p, "block");
        if block.as_str().is_empty() {
            return Some(None);
        }
        let mut v = a4("workspace", "move-block", ws, block.as_str());
        add_val(&mut v, "--index", get_ref(p, "index"));
        return Some(Some(v));
    }
    if str_eq(method, "notification.show") {
        let title = ps_exec(p, "title");
        if title.as_str().is_empty() {
            return Some(None);
        }
        let mut v = a3("notification", "show", title.as_str());
        let body = ps_exec(p, "body");
        add_opt(&mut v, "--body", body.as_str());
        return Some(Some(v));
    }
    None
}

/// Commands name their target first: for `workspace.rename` with a
/// non-empty workspace id `w` and label `l`, and for `tab.rename` with a
/// non-empty tab id `t` and label `l`, the argument list is exactly
/// `workspace rename w l` and `tab rename t l`; `workspace.get`, `.focus` and
/// `.close` give `workspace <verb> w`, and the same `tab` methods
/// `tab <verb> t`; and `pane.send_text` to a non-empty pane `q` (the
/// `pane_id`, else the `target`) with non-empty text `x` (the `text`, else
/// the `prompt`) gives `pane send-text q x`.
pub proof fn law_argv_names_target_first(p: Json)
    ensures
        ps(p, "workspace_id"@).len() > 0 ==> cli_argv("workspace.get"@, p) == Some(
            seq!["workspace"@, "get"@, ps(p, "workspace_id"@)],
        ),
        ps(p, "workspace_id"@).len() > 0 ==> cli_argv("workspace.focus"@, p) == Some(
            seq!["workspace"@, "focus"@, ps(p, "workspace_id"@)],
        ),
        ps(p, "workspace_id"@).len() > 0 ==> cli_argv("workspace.close"@, p) == Some(
            seq!["workspace"@, "close"@, ps(p, "workspace_id"@)],
        ),
        ps(p, "tab_id"@).len() > 0 ==> cli_argv("tab.get"@, p) == Some(seq!["tab"@, "get"@, ps(p, "tab_id"@)]),
        ps(p, "tab_id"@).len() > 0 ==> cli_argv("tab.focus"@, p) == Some(seq!["tab"@, "focus"@, ps(p, "tab_id"@)]),
        ps(p, "tab_id"@).len() > 0 ==> cli_argv("tab.close"@, p) == Some(seq!["tab"@, "close"@, ps(p, "tab_id"@)]),
        ps_or(p, "pane_id"@, "target"@).len() > 0 && ps_or(p, "text"@, "prompt"@).len() > 0 ==> cli_argv(
            "pane.send_text"@,
            p,
        ) == Some(seq!["pane"@, "send-text"@, ps_or(p, "pane_id"@, "target"@), ps_or(p, "text"@, "prompt"@)]),
        ps(p, "workspace_id"@).len() > 0 && ps(p, "label"@).len() > 0 ==> cli_argv("workspace.rename"@, p) == Some(
            seq!["workspace"@, "rename"@, ps(p, "workspace_id"@), ps(p, "label"@)],
        ),
        ps(p, "tab_id"@).len() > 0 && ps(p, "label"@).len() > 0 ==> cli_argv("tab.rename"@, p) == Some(
            seq!["tab"@, "rename"@, ps(p, "tab_id"@), ps(p, "label"@)],
        ),
{
    reveal_strlit("ping");
    reveal_strlit("session.snapshot");
    reveal_strlit("workspace.list");
    reveal_strlit("workspace.get");
    reveal_strlit("workspace.focus");
    reveal_strlit("workspace.close");
    reveal_strlit("workspace.rename");
    reveal_strlit("workspace.create");
    reveal_strlit("tab.list");
    reveal_strlit("tab.get");
    reveal_strlit("tab.focus");
    reveal_strlit("tab.close");
    reveal_strlit("tab.rename");
    assert("workspace.rename"@[0] != "session.snapshot"@[0]);
    assert("workspace.rename"@.len() == 16 && "ping"@.len() == 4 && "workspace.list"@.len() == 14);
    assert("workspace.get"@.len() == 13 && "workspace.focus"@.len() == 15 && "workspace.close"@.len() == 15);
    assert("tab.rename"@.len() == 10 && "tab.list"@.len() == 8 && "tab.get"@.len() == 7);
    assert("tab.focus"@.len() == 9 && "tab.close"@.len() == 9 && "workspace.create"@.len() == 16);
    assert("session.snapshot"@.len() == 16);
    reveal_strlit("tab.create");
    reveal_strlit("pane.list");
    reveal_strlit("pane.current");
    reveal_strlit("pane.get");
    reveal_strlit("pane.focus_direction");
    reveal_strlit("pane.send_text");
    assert("workspace.focus"@[10] != "workspace.close"@[10]);
    assert("tab.focus"@[4] != "tab.close"@[4]);
    assert("pane.send_text"@[0] != "workspace.list"@[0]);
    assert("pane.send_text"@.len() == 14 && "tab.create"@.len() == 10 && "pane.list"@.len() == 9);
    assert("pane.current"@.len() == 12 && "pane.get"@.len() == 8 && "pane.focus_direction"@.len() == 20);
}

/// Map a socket method onto a documented `herdr` CLI argument list (see
/// [`cli_argv`]); never invents verbs or flags.
pub fn build_cli_argv(method: &str, params: &Json) -> (r: Option<Vec<String>>)
    ensures
        argv_opt(r) == cli_argv(method@, *params),
{
    let pane = ps_or_exec(params, "pane_id", "target");
    let tab = ps_exec(params, "tab_id");
    let ws = ps_exec(params, "workspace_id");
    let label = ps_exec(params, "label");
    let direction = ps_exec(params, "direction");
    let text = ps_or_exec(params, "text", "prompt");
    match group_a(method, params, tab.as_str(), ws.as_str(), label.as_str()) {
        Some(r) => return r,
        None => {},
    }
    match group_b(method, params, pane.as_str(), tab.as_str(), direction.as_str(), text.as_str()) {
        Some(r) => return r,
        None => {},
    }
    match group_c(method, params, pane.as_str(), label.as_str(), direction.as_str()) {
        Some(r) => return r,
        None => {},
    }
    match group_d(method, params, pane.as_str(), label.as_str(), text.as_str()) {
        Some(r) => return r,
        None => {},
    }
    match group_e(method, params, ws.as_str()) {
        Some(r) => r,
        None => None,
    }
}

// ---- reading payloads --------------------------------------------------------

/// An item of a text join: strings verbatim, anything else as JSON text.
pub open spec fn plain(v: Json) -> Seq<char> {
    json_text(v)
}

pub open spec fn plains(items: Seq<Json>) -> Seq<Seq<char>> {
    Seq::new(items.len(), |i: int| plain(items[i]))
}

/// The string stored under `k` in an object's entries, if it is a string.
pub open spec fn str_member(es: Seq<(String, Json)>, k: Seq<char>) -> Option<Seq<char>> {
    match entries_get(es, k) {
        Some(Json::Str(s)) => Some(s@),
        _ => None,
    }
}

/// The items stored under `k` in an object's entries, if it is an array.
pub open spec fn array_member(es: Seq<(String, Json)>, k: Seq<char>) -> Option<Seq<Json>> {
    match entries_get(es, k) {
        Some(Json::Array { items, .. }) => Some(items@),
        _ => None,
    }
}

/// The text a read returned: a string; an array's items one per line; from
/// an object its `text`, `content`, `output` or `data` string, else its
/// `lines`, else the text nested under `result`, `pane` or `agent`; other
/// values as their JSON text, and null as nothing.
pub open spec fn read_text(v: Json) -> Seq<char>
    decreases v,
{
    match v {
        Json::Null => Seq::empty(),
        Json::Str(s) => s@,
        Json::Array { items, .. } => join(plains(items@), "\n"@),
        Json::Object { entries, .. } => {
            let es = entries@;
            if str_member(es, "text"@) is Some {
                str_member(es, "text"@).unwrap()
            } else if str_member(es, "content"@) is Some {
                str_member(es, "content"@).unwrap()
            } else if str_member(es, "output"@) is Some {
                str_member(es, "output"@).unwrap()
            } else if str_member(es, "data"@) is Some {
                str_member(es, "data"@).unwrap()
            } else if array_member(es, "lines"@) is Some {
                join(plains(array_member(es, "lines"@).unwrap()), "\n"@)
            } else {
                let r = if entries_get(es, "result"@) is Some {
                    proof {
                        let j = lemma_entries_get_index(es, "result"@);
                        assert(decreases_to!(v => entries));
                        assert(decreases_to!(entries => entries@));
                        assert(decreases_to!(entries@ => entries@[j]));
                        assert(decreases_to!(entries@[j] => entries@[j].1));
                    }
                    read_text(entries_get(es, "result"@).unwrap())
                } else {
                    Seq::empty()
                };
                let p = if entries_get(es, "pane"@) is Some {
                    proof {
                        let j = lemma_entries_get_index(es, "pane"@);
                        assert(decreases_to!(v => entries));
                        assert(decreases_to!(entries => entries@));
                        assert(decreases_to!(entries@ => entries@[j]));
                        assert(decreases_to!(entries@[j] => entries@[j].1));
                    }
                    read_text(entries_get(es, "pane"@).unwrap())
                } else {
                    Seq::empty()
                };
                let a = if entries_get(es, "agent"@) is Some {
                    proof {
                        let j = lemma_entries_get_index(es, "agent"@);
                        assert(decreases_to!(v => entries));
                        assert(decreases_to!(entries => entries@));
                        assert(decreases_to!(entries@ => entries@[j]));
                        assert(decreases_to!(entries@[j] => entries@[j].1));
                    }
                    read_text(entries_get(es, "agent"@).unwrap())
                } else {
                    Seq::empty()
                };
                if r.len() > 0 {
                    r
                } else if p.len() > 0 {
                    p
                } else {
                    a
                }
            }
        },
        _ => json_text(v),
    }
}

fn join_plain(items: &Vec<Json>) -> (r: String)
    ensures
        r@ == join(plains(items@), "\n"@),
{
    let mut parts: Vec<String> = Vec::new();
    let mut i: usize = 0;
    while i < items.len()
        invariant
            i <= items.len(),
            strings_view(parts@) == plains(items@).take(i as int),
        decreases items.len() - i,
    {
        let t = items[i].text();
        let ghost p0 = strings_view(parts@);
        parts.push(t);
        assert(strings_view(parts@) =~= p0.push(t@));
        assert(plains(items@).take(i + 1) =~= plains(items@).take(i as int).push(plain(items@[i as int])));
        i += 1;
    }
    assert(plains(items@).take(items.len() as int) =~= plains(items@));
    crate::sidebar::join_lines(&parts, "\n")
}

/// The text a read returned (see [`read_text`]).
pub fn extract_read_text(payload: &Json) -> (r: String)
    ensures
        r@ == read_text(*payload),
    decreases payload,
{
    match payload {
        Json::Null => String::new(),
        Json::Str(s) => s.clone(),
        Json::Array { items, .. } => join_plain(items),
        Json::Object { entries, .. } => {
            let ghost es = entries@;
            match payload.get("text") {
                Some(Json::Str(s)) => return s.clone(),
                _ => {},
            }
            match payload.get("content") {
                Some(Json::Str(s)) => return s.clone(),
                _ => {},
            }
            match payload.get("output") {
                Some(Json::Str(s)) => return s.clone(),
                _ => {},
            }
            match payload.get("data") {
                Some(Json::Str(s)) => return s.clone(),
                _ => {},
            }
            match payload.get("lines") {
                Some(Json::Array { items, .. }) => return join_plain(items),
                _ => {},
            }
            match payload.get("result") {
                Some(n) => {
                    proof {
                        let j = lemma_entries_get_index(es, "result"@);
                        assert(decreases_to!(*payload => entries));
                        assert(decreases_to!(entries => entries@));
                        assert(decreases_to!(entries@ => entries@[j]));
                        assert(decreases_to!(entries@[j] => entries@[j].1));
                    }
                    let t = extract_read_text(n);
                    if !t.as_str().is_empty() {
                        return t;
                    }
                },
                None => {},
            }
            match payload.get("pane") {
                Some(n) => {
                    proof {
                        let j = lemma_entries_get_index(es, "pane"@);
                        assert(decreases_to!(*payload => entries));
                        assert(decreases_to!(entries => entries@));
                        assert(decreases_to!(entries@ => entries@[j]));
                        assert(decreases_to!(entries@[j] => entries@[j].1));
                    }
                    let t = extract_read_text(n);
                    if !t.as_str().is_empty() {
                        return t;
                    }
                },
                None => {},
            }
            match payload.get("agent") {
                Some(n) => {
                    proof {
                        let j = lemma_entries_get_index(es, "agent"@);
                        assert(decreases_to!(*payload => entries));
                        assert(decreases_to!(entries => entries@));
                        assert(decreases_to!(entries@ => entries@[j]));
                        assert(decreases_to!(entries@[j] => entries@[j].1));
                    }
                    let t = extract_read_text(n);
                    if !t.as_str().is_empty() {
                        return t;
                    }
                },
                None => {},
            }
            String::new()
        },
        _ => payload.text(),
    }
}

/// A non-empty string stored under `k`.
pub open spec fn status_member(es: Seq<(String, Json)>, k: Seq<char>) -> Option<Seq<char>> {
    match str_member(es, k) {
        Some(s) => if s.len() > 0 {
            Some(s)
        } else {
            None
        },
        None => None,
    }
}

pub open spec fn object_member(es: Seq<(String, Json)>, k: Seq<char>) -> bool {
    entries_get(es, k) is Some && entries_get(es, k).unwrap() is Object
}

/// The agent status of a pane or agent payload: its non-empty
/// `agent_status`, `status` or `state`, else the status nested under
/// `pane`, `agent` or `result`.
pub open spec fn agent_status(v: Json) -> Option<Seq<char>>
    decreases v,
{
    match v {
        Json::Object { entries, .. } => {
            let es = entries@;
            if status_member(es, "agent_status"@) is Some {
                status_member(es, "agent_status"@)
            } else if status_member(es, "status"@) is Some {
                status_member(es, "status"@)
            } else if status_member(es, "state"@) is Some {
                status_member(es, "state"@)
            } else {
                let p = if object_member(es, "pane"@) {
                    proof {
                        let j = lemma_entries_get_index(es, "pane"@);
                        assert(decreases_to!(v => entries));
                        assert(decreases_to!(entries => entries@));
                        assert(decreases_to!(entries@ => entries@[j]));
                        assert(decreases_to!(entries@[j] => entries@[j].1));
                    }
                    agent_status(entries_get(es, "pane"@).unwrap())
                } else {
                    None
                };
                let a = if object_member(es, "agent"@) {
                    proof {
                        let j = lemma_entries_get_index(es, "agent"@);
                        assert(decreases_to!(v => entries));
                        assert(decreases_to!(entries => entries@));
                        assert(decreases_to!(entries@ => entries@[j]));
                        assert(decreases_to!(entries@[j] => entries@[j].1));
                    }
                    agent_status(entries_get(es, "agent"@).unwrap())
                } else {
                    None
                };
                let r = if object_member(es, "result"@) {
                    proof {
                        let j = lemma_entries_get_index(es, "result"@);
                        assert(decreases_to!(v => entries));
                        assert(decreases_to!(entries => entries@));
                        assert(decreases_to!(entries@ => entries@[j]));
                        assert(decreases_to!(entries@[j] => entries@[j].1));
                    }
                    agent_status(entries_get(es, "result"@).unwrap())
                } else {
                    None
                };
                if p is Some {
                    p
                } else if a is Some {
                    a
                } else {
                    r
                }
            }
        },
        _ => None,
    }
}

fn status_member_exec(payload: &Json, k: &str) -> (r: Option<String>)
    requires
        payload is Object,
    ensures
        crate::text::opt_view(r) == status_member(payload->entries@, k@),
{
    match payload.get(k) {
        Some(Json::Str(s)) => if s.as_str().is_empty() {
            None
        } else {
            Some(s.clone())
        },
        _ => None,
    }
}

/// The agent status of a payload (see [`agent_status`]).
pub fn extract_agent_status(payload: &Json) -> (r: Option<String>)
    ensures
        crate::text::opt_view(r) == agent_status(*payload),
    decreases payload,
{
    match payload {
        Json::Object { entries, .. } => {
            let ghost es = entries@;
            match status_member_exec(payload, "agent_status") {
                Some(s) => return Some(s),
                None => {},
            }
            match status_member_exec(payload, "status") {
                Some(s) => return Some(s),
                None => {},
            }
            match status_member_exec(payload, "state") {
                Some(s) => return Some(s),
                None => {},
            }
            match payload.get("pane") {
                Some(n) => if n.is_object() {
                    proof {
                        let j = lemma_entries_get_index(es, "pane"@);
                        assert(decreases_to!(*payload => entries));
                        assert(decreases_to!(entries => entries@));
                        assert(decreases_to!(entries@ => entries@[j]));
                        assert(decreases_to!(entries@[j] => entries@[j].1));
                    }
                    match extract_agent_status(n) {
                        Some(f) => return Some(f),
                        None => {},
                    }
                },
                None => {},
            }
            match payload.get("agent") {
                Some(n) => if n.is_object() {
                    proof {
                        let j = lemma_entries_get_index(es, "agent"@);
                        assert(decreases_to!(*payload => entries));
                        assert(decreases_to!(entries => entries@));
                        assert(decreases_to!(entries@ => entries@[j]));
                        assert(decreases_to!(entries@[j] => entries@[j].1));
                    }
                    match extract_agent_status(n) {
                        Some(f) => return Some(f),
                        None => {},
                    }
                },
                None => {},
            }
            match payload.get("result") {
                Some(n) => if n.is_object() {
                    proof {
                        let j = lemma_entries_get_index(es, "result"@);
                        assert(decreases_to!(*payload => entries));
                        assert(decreases_to!(entries => entries@));
                        assert(decreases_to!(entries@ => entries@[j]));
                        assert(decreases_to!(entries@[j] => entries@[j].1));
                    }
                    match extract_agent_status(n) {
                        Some(f) => return Some(f),
                        None => {},
                    }
                },
                None => {},
            }
            None
        },
        _ => None,
    }
}

} // verus!
