//! Results of running host and provider command-line tools.
use vstd::prelude::*;

use crate::text::{owned, string_from, trim, trim_str};
use crate::json::{is_truthy, json_get, opt_get, truthy, Json};
use crate::model::{pane_from_raw, pane_matches, tab_from_raw, tab_matches, workspace_from_raw, workspace_matches, Pane, Tab, Workspace};

verus! {

/// A failed bridge command.
#[derive(Debug, PartialEq, Eq)]
pub struct BridgeError(pub String);

impl BridgeError {
    pub fn new(msg: String) -> (r: Self)
        ensures
            r.0 == msg,
    {
        BridgeError(msg)
    }
}

/// Captured result of one command.
#[derive(Debug, Clone)]
pub struct CmdOutput {
    pub returncode: i32,
    pub stdout: String,
    pub stderr: String,
}

/// `v` unless it is null.
pub open spec fn non_null(v: Option<Json>) -> Option<Json> {
    match v {
        Some(Json::Null) => None,
        o => o,
    }
}

/// The list `result.<key>` of a CLI payload; anything else is empty.
pub open spec fn result_list(data: Json, key: Seq<char>) -> Seq<Json> {
    match non_null(opt_get(non_null(json_get(data, "result"@)), key)) {
        Some(Json::Array { items, .. }) => items@,
        _ => Seq::empty(),
    }
}

fn non_null_exec(v: Option<&Json>) -> (r: Option<&Json>)
    ensures
        crate::json::opt_ref(r) == non_null(crate::json::opt_ref(v)),
{
    match v {
        Some(Json::Null) => None,
        o => o,
    }
}

fn result_list_exec<'a>(data: &'a Json, key: &str, empty: &'a Vec<Json>) -> (r: &'a Vec<Json>)
    requires
        empty@.len() == 0,
    ensures
        r@ == result_list(*data, key@),
{
    let result = non_null_exec(data.get("result"));
    let inner = match result {
        Some(r) => non_null_exec(r.get(key)),
        None => None,
    };
    match inner {
        Some(Json::Array { items, .. }) => items,
        _ => {
            assert(empty@ =~= Seq::<Json>::empty());
            empty
        },
    }
}

pub open spec fn has_pane_id(j: Json) -> bool {
    truthy(json_get(j, "pane_id"@))
}

/// The panes read from those raw items with a truthy `pane_id`.
pub open spec fn panes_read(ps: Seq<Pane>, items: Seq<Json>) -> bool {
    let rows = items.filter(|j: Json| has_pane_id(j));
    ps.len() == rows.len() && forall|i: int| 0 <= i < rows.len() ==> pane_matches(#[trigger] ps[i], rows[i])
}

fn read_panes(items: &Vec<Json>) -> (r: Vec<Pane>)
    ensures
        panes_read(r@, items@),
{
    let mut out: Vec<Pane> = Vec::new();
    let mut i: usize = 0;
    while i < items.len()
        invariant
            i <= items.len(),
            panes_read(out@, items@.take(i as int)),
        decreases items.len() - i,
    {
        proof {
            crate::model::lemma_filter_step(items@, i as int, |j: Json| has_pane_id(j));
        }
        if is_truthy(items[i].get("pane_id")) {
            out.push(pane_from_raw(&items[i]));
        }
        i += 1;
    }
    assert(items@.take(items.len() as int) =~= items@);
    out
}

/// Panes of a `pane list` payload; entries without a truthy `pane_id` are
/// dropped.
pub fn panes_from_list(data: &Json) -> (r: Vec<Pane>)
    ensures
        panes_read(r@, result_list(*data, "panes"@)),
{
    let empty: Vec<Json> = Vec::new();
    read_panes(result_list_exec(data, "panes", &empty))
}

/// Tabs of a `tab list` payload.
pub fn tabs_from_list(data: &Json) -> (r: Vec<Tab>)
    ensures
        r@.len() == result_list(*data, "tabs"@).len(),
        forall|i: int| 0 <= i < r@.len() ==> tab_matches(#[trigger] r@[i], result_list(*data, "tabs"@)[i]),
{
    let empty: Vec<Json> = Vec::new();
    let items = result_list_exec(data, "tabs", &empty);
    let mut out: Vec<Tab> = Vec::new();
    let mut i: usize = 0;
    while i < items.len()
        invariant
            i <= items.len(),
            items@ == result_list(*data, "tabs"@),
            out@.len() == i,
            forall|k: int| 0 <= k < i ==> tab_matches(#[trigger] out@[k], items@[k]),
        decreases items.len() - i,
    {
        out.push(tab_from_raw(&items[i]));
        i += 1;
    }
    out
}

/// The raw workspaces of a `workspace list` payload: a bare `result` list,
/// or its `workspaces` (else `workspace_list`) list.
pub open spec fn workspace_items(data: Json) -> Seq<Json> {
    match non_null(json_get(data, "result"@)) {
        Some(Json::Array { items, .. }) => items@,
        Some(Json::Object { entries, text }) => {
            let obj = Json::Object { entries, text };
            let ws = match non_null(json_get(obj, "workspaces"@)) {
                Some(w) => Some(w),
                None => non_null(json_get(obj, "workspace_list"@)),
            };
            match ws {
                Some(Json::Array { items, .. }) => items@,
                _ => Seq::empty(),
            }
        },
        _ => Seq::empty(),
    }
}

/// Workspaces of a `workspace list` payload (see [`workspace_items`]).
pub fn workspaces_from_list(data: &Json) -> (r: Vec<Workspace>)
    ensures
        r@.len() == workspace_items(*data).len(),
        forall|i: int| 0 <= i < r@.len() ==> workspace_matches(#[trigger] r@[i], workspace_items(*data)[i]),
{
    let empty: Vec<Json> = Vec::new();
    assert(empty@ =~= Seq::<Json>::empty());
    let items: &Vec<Json> = match non_null_exec(data.get("result")) {
        Some(Json::Array { items, .. }) => items,
        Some(obj) => if obj.is_object() {
            let ws = match non_null_exec(obj.get("workspaces")) {
                Some(w) => Some(w),
                None => non_null_exec(obj.get("workspace_list")),
            };
            match ws {
                Some(Json::Array { items, .. }) => items,
                _ => &empty,
            }
        } else {
            &empty
        },
        None => &empty,
    };
    let mut out: Vec<Workspace> = Vec::new();
    let mut i: usize = 0;
    while i < items.len()
        invariant
            i <= items.len(),
            items@ == workspace_items(*data),
            out@.len() == i,
            forall|k: int| 0 <= k < i ==> workspace_matches(#[trigger] out@[k], items@[k]),
        decreases items.len() - i,
    {
        out.push(workspace_from_raw(&items[i]));
        i += 1;
    }
    out
}

/// Panes of an `agent list` payload; `None` when it lists no agents.
pub fn agents_from_list(data: &Json) -> (r: Option<Vec<Pane>>)
    ensures
        match r {
            Some(ps) => result_list(*data, "agents"@).len() > 0 && panes_read(ps@, result_list(*data, "agents"@)),
            None => result_list(*data, "agents"@).len() == 0,
        },
{
    let empty: Vec<Json> = Vec::new();
    let items = result_list_exec(data, "agents", &empty);
    if items.len() == 0 {
        return None;
    }
    Some(read_panes(items))
}


/// A parsed `serde_json` value, carried through as it is.
#[verifier::external_type_specification]
#[verifier::external_body]
pub struct ExValue(serde_json::Value);

/// What `serde_json::from_str::<Value>` makes of a text: the value, or the
/// message of its decode error.
pub uninterp spec fn json_parse(t: Seq<char>) -> Result<serde_json::Value, Seq<char>>;

/// `serde_json::from_str::<Value>`, its error given by its message. The
/// contract claims only that the outcome is a function of the text.
#[verifier::external_body]
pub(crate) fn parse_json_text(t: &str) -> (r: Result<serde_json::Value, String>)
    ensures
        match r {
            Ok(v) => json_parse(t@) == Ok::<serde_json::Value, Seq<char>>(v),
            Err(e) => json_parse(t@) == Err::<serde_json::Value, Seq<char>>(e@),
        },
{
    serde_json::from_str::<serde_json::Value>(t).map_err(|e| e.to_string())
}

/// Index of the first newline of `s` at or after `i` (or the length).
pub open spec fn next_newline(s: Seq<char>, i: int) -> int
    decreases s.len() - i,
{
    if i >= s.len() {
        s.len() as int
    } else if s[i] == '\n' {
        i
    } else {
        next_newline(s, i + 1)
    }
}

proof fn lemma_next_newline(s: Seq<char>, i: int)
    requires
        0 <= i,
    ensures
        i <= next_newline(s, i) || i > s.len(),
        next_newline(s, i) <= s.len(),
        next_newline(s, i) < s.len() ==> s[next_newline(s, i)] == '\n',
    decreases s.len() - i,
{
    if i < s.len() && s[i] != '\n' {
        lemma_next_newline(s, i + 1);
    }
}

/// Whether `line` opens a JSON object or array.
pub open spec fn opens_json(line: Seq<char>) -> bool {
    line.len() > 0 && (line[0] == '{' || line[0] == '[')
}

/// The first line of `s` from index `i` on that, trimmed, opens a JSON
/// object or array; lines end at newlines.
pub open spec fn json_line_from(s: Seq<char>, i: int) -> Option<Seq<char>>
    decreases s.len() - i,
{
    if i < 0 || i > s.len() {
        None
    } else {
        let k = next_newline(s, i);
        let line = trim(s.subrange(i, k));
        if opens_json(line) {
            Some(line)
        } else if k >= s.len() || k < i {
            None
        } else {
            json_line_from(s, k + 1)
        }
    }
}

/// The first line of `s` that, trimmed, opens a JSON object or array.
pub open spec fn json_line(s: Seq<char>) -> Option<Seq<char>> {
    json_line_from(s, 0)
}

/// The first line of `v` that, trimmed, opens a JSON object or array.
pub(crate) fn find_json_line(v: &Vec<char>) -> (r: Option<String>)
    ensures
        opt_view_str(r) == json_line(v@),
{
    let n = v.len();
    let mut i: usize = 0;
    while i <= n
        invariant
            i <= n + 1,
            n == v.len(),
            i <= n ==> json_line(v@) == json_line_from(v@, i as int),
            i > n ==> json_line(v@) is None,
        decreases n + 1 - i,
    {
        let mut k: usize = i;
        while k < n && v[k] != '\n'
            invariant
                i <= k <= n,
                n == v.len(),
                next_newline(v@, i as int) == next_newline(v@, k as int),
            decreases n - k,
        {
            k += 1;
        }
        let piece = string_from(v, i, k);
        let line = trim_str(piece.as_str());
        let lv = chars_of_line(&line);
        if lv.len() > 0 && (lv[0] == '{' || lv[0] == '[') {
            return Some(line);
        }
        if k >= n {
            return None;
        }
        i = k + 1;
    }
    None
}

fn chars_of_line(s: &String) -> (r: Vec<char>)
    ensures
        r@ == s@,
{
    crate::text::chars_of(s.as_str())
}

pub open spec fn opt_view_str(o: Option<String>) -> Option<Seq<char>> {
    match o {
        Some(s) => Some(s@),
        None => None,
    }
}

/// What a command's stdout holds as JSON: trimmed, empty is an error; the
/// whole text if it parses; else the first line that opens an object or
/// array, which must parse.
pub open spec fn payload_spec(out: Seq<char>) -> Result<serde_json::Value, Seq<char>> {
    let text = trim(out);
    if text.len() == 0 {
        Err("empty JSON response"@)
    } else if json_parse(text) is Ok {
        json_parse(text)
    } else {
        match json_line(text) {
            Some(line) => match json_parse(line) {
                Ok(v) => Ok(v),
                Err(_) => Err("invalid JSON response"@),
            },
            None => Err("invalid JSON response"@),
        }
    }
}

/// Parse a JSON payload from a command's stdout, tolerating noise around it.
pub fn parse_json_payload(stdout: &str) -> (r: Result<serde_json::Value, BridgeError>)
    ensures
        match r {
            Ok(v) => payload_spec(stdout@) == Ok::<serde_json::Value, Seq<char>>(v),
            Err(e) => payload_spec(stdout@) == Err::<serde_json::Value, Seq<char>>(e.0@),
        },
{
    let text = trim_str(stdout);
    if text.as_str().is_empty() {
        return Err(BridgeError::new(owned("empty JSON response")));
    }
    match parse_json_text(text.as_str()) {
        Ok(v) => {
            return Ok(v);
        },
        Err(_) => {},
    }
    let chars = crate::text::chars_of(text.as_str());
    match find_json_line(&chars) {
        Some(line) => match parse_json_text(line.as_str()) {
            Ok(v) => Ok(v),
            Err(_) => Err(BridgeError::new(owned("invalid JSON response"))),
        },
        None => Err(BridgeError::new(owned("invalid JSON response"))),
    }
}

} // verus!
