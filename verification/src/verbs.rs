//! The simple command-line verbs: each names one provider method, the
//! parameters it sends, and the line printed when it succeeds.
use vstd::prelude::*;

use crate::layout::join;
use crate::text::{concat2, opt_view, owned, str_eq, strings_view};

verus! {

/// What the command line gave a verb.
pub struct VerbOptions {
    pub label: Option<String>,
    pub workspace: Option<String>,
    pub tab_id: Option<String>,
    pub cwd: Option<String>,
    pub workspace_id: Option<String>,
    pub pane_id: Option<String>,
    pub mode: Option<String>,
    pub direction: Option<String>,
    /// The resize amount, as the text of the JSON number it is sent as.
    pub amount: Option<String>,
    pub target: Option<String>,
    pub text: Vec<String>,
    pub tab: Option<String>,
    pub pane: Option<String>,
    pub index: Option<i64>,
    pub title: Option<String>,
    pub body: Option<String>,
}

/// One parameter value.
#[derive(Debug, Clone, PartialEq)]
pub enum VerbParam {
    Text(String),
    Index(i64),
    Amount(String),
}

/// A verb's request: the method, its parameters in order, and the line to
/// print on success.
#[derive(Debug, Clone, PartialEq)]
pub struct VerbRequest {
    pub method: String,
    pub params: Vec<(String, VerbParam)>,
    pub message: Option<String>,
}

/// A parameter as values: a text, an index, or an amount's JSON text.
pub enum ParamView {
    Text(Seq<char>),
    Index(i64),
    Amount(Seq<char>),
}

pub open spec fn param_view(p: VerbParam) -> ParamView {
    match p {
        VerbParam::Text(s) => ParamView::Text(s@),
        VerbParam::Index(i) => ParamView::Index(i),
        VerbParam::Amount(t) => ParamView::Amount(t@),
    }
}

pub open spec fn params_view(s: Seq<(String, VerbParam)>) -> Seq<(Seq<char>, ParamView)> {
    s.map_values(|e: (String, VerbParam)| (e.0@, param_view(e.1)))
}

/// A text parameter, sent only when given and not empty.
pub open spec fn tp(key: Seq<char>, o: Option<String>) -> Seq<(Seq<char>, ParamView)> {
    match o {
        Some(v) => if v@.len() > 0 {
            seq![(key, ParamView::Text(v@))]
        } else {
            Seq::empty()
        },
        None => Seq::empty(),
    }
}

pub open spec fn text_of(o: Option<String>) -> Seq<char> {
    match o {
        Some(v) => v@,
        None => Seq::empty(),
    }
}

/// The arguments a verb cannot do without (the command line requires them).
pub open spec fn verb_ready(verb: Seq<char>, o: VerbOptions) -> bool {
    &&& (verb == "close-tab"@ || verb == "rename-tab"@ || verb == "move-tab"@) ==> o.tab_id is Some
    &&& (verb == "close-workspace"@ || verb == "rename-workspace"@) ==> o.workspace_id is Some
    &&& verb == "zoom-pane"@ ==> o.mode is Some
    &&& verb == "resize-pane"@ ==> o.amount is Some
    &&& (verb == "send"@ || verb == "rename-pane"@ || verb == "process-info"@ || verb == "release-agent"@
        || verb == "clear-agent-authority"@) ==> o.pane_id is Some
    &&& verb == "focus-dir"@ ==> o.direction is Some
    &&& (verb == "rename-agent"@ || verb == "agent-explain"@) ==> o.target is Some
}

pub type RequestView = (Seq<char>, Seq<(Seq<char>, ParamView)>, Option<Seq<char>>);

/// The request of each verb; `None` for a verb that is not one of these.
pub open spec fn verb_spec(verb: Seq<char>, o: VerbOptions) -> Option<RequestView> {
    if verb == "new-tab"@ {
        Some(("tab.create"@, tp("label"@, o.label) + tp("workspace_id"@, o.workspace), Some("created tab"@)))
    } else if verb == "close-tab"@ {
        Some(("tab.close"@, tp("tab_id"@, o.tab_id), Some("closed tab "@ + text_of(o.tab_id))))
    } else if verb == "rename-tab"@ {
        Some(("tab.rename"@, tp("tab_id"@, o.tab_id) + tp("label"@, o.label), Some("renamed tab "@ + text_of(o.tab_id))))
    } else if verb == "new-workspace"@ {
        Some(("workspace.create"@, tp("label"@, o.label) + tp("cwd"@, o.cwd), Some("created workspace"@)))
    } else if verb == "close-workspace"@ {
        Some(("workspace.close"@, tp("workspace_id"@, o.workspace_id), Some("closed workspace "@ + text_of(o.workspace_id))))
    } else if verb == "rename-workspace"@ {
        Some((
            "workspace.rename"@,
            tp("workspace_id"@, o.workspace_id) + tp("label"@, o.label),
            Some("renamed workspace "@ + text_of(o.workspace_id)),
        ))
    } else if verb == "zoom-pane"@ {
        Some(("pane.zoom"@, tp("pane_id"@, o.pane_id) + tp("mode"@, o.mode), Some("zoom "@ + text_of(o.mode))))
    } else if verb == "resize-pane"@ {
        Some((
            "pane.resize"@,
            tp("pane_id"@, o.pane_id) + tp("direction"@, o.direction) + seq![("amount"@, ParamView::Amount(text_of(o.amount)))],
            Some("resized pane"@),
        ))
    } else if verb == "swap-pane"@ {
        Some((
            "pane.swap"@,
            tp("pane_id"@, o.pane_id) + (if o.target is Some {
                tp("source_pane_id"@, o.pane_id) + tp("target_pane_id"@, o.target)
            } else {
                Seq::empty()
            }) + tp("direction"@, o.direction),
            Some("swapped pane"@),
        ))
    } else if verb == "send"@ {
        Some((
            "pane.send_text"@,
            tp("pane_id"@, o.pane_id) + seq![("text"@, ParamView::Text(join(strings_view(o.text@), " "@)))],
            Some("sent text to "@ + text_of(o.pane_id)),
        ))
    } else if verb == "neighbor"@ {
        Some(("pane.neighbor"@, tp("pane_id"@, o.pane_id) + tp("direction"@, o.direction), None))
    } else if verb == "layout"@ {
        Some(("layout.export"@, tp("tab_id"@, o.tab) + tp("pane_id"@, o.pane), None))
    } else if verb == "focus-dir"@ {
        Some(("pane.focus_direction"@, tp("direction"@, o.direction), Some("focus "@ + text_of(o.direction))))
    } else if verb == "move-tab"@ {
        Some((
            "tab.move"@,
            tp("tab_id"@, o.tab_id) + (match o.index {
                Some(i) => seq![("index"@, ParamView::Index(i))],
                None => Seq::empty(),
            }) + tp("workspace_id"@, o.workspace),
            Some("moved tab "@ + text_of(o.tab_id)),
        ))
    } else if verb == "rename-pane"@ {
        Some(("pane.rename"@, tp("pane_id"@, o.pane_id) + tp("label"@, o.label), Some("renamed pane "@ + text_of(o.pane_id))))
    } else if verb == "rename-agent"@ {
        Some((
            "agent.rename"@,
            tp("pane_id"@, o.target) + tp("target"@, o.target) + tp("label"@, o.label),
            Some("renamed agent "@ + text_of(o.target)),
        ))
    } else if verb == "notify"@ {
        Some(("notification.show"@, tp("title"@, o.title) + tp("body"@, o.body), Some("notified"@)))
    } else if verb == "agent-explain"@ {
        Some(("agent.explain"@, tp("target"@, o.target) + tp("pane_id"@, o.target), Some("explain "@ + text_of(o.target))))
    } else if verb == "process-info"@ {
        Some(("pane.process_info"@, tp("pane_id"@, o.pane_id), Some("process "@ + text_of(o.pane_id))))
    } else if verb == "release-agent"@ {
        Some(("pane.release_agent"@, tp("pane_id"@, o.pane_id), Some("released agent "@ + text_of(o.pane_id))))
    } else if verb == "clear-agent-authority"@ {
        Some((
            "pane.clear_agent_authority"@,
            tp("pane_id"@, o.pane_id),
            Some("cleared authority "@ + text_of(o.pane_id)),
        ))
    } else {
        None
    }
}

pub open spec fn request_view(r: VerbRequest) -> RequestView {
    (r.method@, params_view(r.params@), opt_view(r.message))
}

fn push_text(v: &mut Vec<(String, VerbParam)>, key: &str, o: &Option<String>)
    ensures
        params_view(final(v)@) == params_view(old(v)@) + tp(key@, *o),
{
    match o {
        Some(s) => if !s.as_str().is_empty() {
            let ghost before = v@;
            v.push((owned(key), VerbParam::Text(s.clone())));
            assert(params_view(v@) =~= params_view(before) + tp(key@, *o));
        } else {
            assert(params_view(v@) =~= params_view(v@) + tp(key@, *o));
        },
        None => {
            assert(params_view(v@) =~= params_view(v@) + tp(key@, *o));
        },
    }
}

fn push_param(v: &mut Vec<(String, VerbParam)>, key: &str, p: VerbParam)
    ensures
        params_view(final(v)@) == params_view(old(v)@) + seq![(key@, param_view(p))],
{
    let ghost before = v@;
    let ghost pv = param_view(p);
    v.push((owned(key), p));
    assert(params_view(v@) =~= params_view(before) + seq![(key@, pv)]);
}

fn text_or_empty(o: &Option<String>) -> (r: String)
    ensures
        r@ == text_of(*o),
{
    match o {
        Some(s) => s.clone(),
        None => String::new(),
    }
}

fn request(method: &str, params: Vec<(String, VerbParam)>, message: Option<String>) -> (r: VerbRequest)
    ensures
        request_view(r) == (method@, params_view(params@), opt_view(message)),
{
    VerbRequest { method: owned(method), params, message }
}

/// The request of a verb (see [`verb_spec`]); `None` when the verb is not
/// one of the simple ones.
pub fn verb_request(verb: &str, o: &VerbOptions) -> (r: Option<VerbRequest>)
    requires
        verb_ready(verb@, *o),
    ensures
        match r {
            Some(q) => verb_spec(verb@, *o) == Some(request_view(q)),
            None => verb_spec(verb@, *o) is None,
        },
{
    let mut p: Vec<(String, VerbParam)> = Vec::new();
    assert(params_view(p@) =~= Seq::<(Seq<char>, ParamView)>::empty());
    if str_eq(verb, "new-tab") {
        push_text(&mut p, "label", &o.label);
        push_text(&mut p, "workspace_id", &o.workspace);
        Some(request("tab.create", p, Some(owned("created tab"))))
    } else if str_eq(verb, "close-tab") {
        push_text(&mut p, "tab_id", &o.tab_id);
        Some(request("tab.close", p, Some(concat2("closed tab ", text_or_empty(&o.tab_id).as_str()))))
    } else if str_eq(verb, "rename-tab") {
        push_text(&mut p, "tab_id", &o.tab_id);
        push_text(&mut p, "label", &o.label);
        Some(request("tab.rename", p, Some(concat2("renamed tab ", text_or_empty(&o.tab_id).as_str()))))
    } else if str_eq(verb, "new-workspace") {
        push_text(&mut p, "label", &o.label);
        push_text(&mut p, "cwd", &o.cwd);
        Some(request("workspace.create", p, Some(owned("created workspace"))))
    } else if str_eq(verb, "close-workspace") {
        push_text(&mut p, "workspace_id", &o.workspace_id);
        Some(request("workspace.close", p, Some(concat2("closed workspace ", text_or_empty(&o.workspace_id).as_str()))))
    } else if str_eq(verb, "rename-workspace") {
        push_text(&mut p, "workspace_id", &o.workspace_id);
        push_text(&mut p, "label", &o.label);
        Some(request("workspace.rename", p, Some(concat2("renamed workspace ", text_or_empty(&o.workspace_id).as_str()))))
    } else if str_eq(verb, "zoom-pane") {
        push_text(&mut p, "pane_id", &o.pane_id);
        push_text(&mut p, "mode", &o.mode);
        Some(request("pane.zoom", p, Some(concat2("zoom ", text_or_empty(&o.mode).as_str()))))
    } else if str_eq(verb, "resize-pane") {
        push_text(&mut p, "pane_id", &o.pane_id);
        push_text(&mut p, "direction", &o.direction);
        push_param(&mut p, "amount", VerbParam::Amount(text_or_empty(&o.amount)));
        Some(request("pane.resize", p, Some(owned("resized pane"))))
    } else if str_eq(verb, "swap-pane") {
        push_text(&mut p, "pane_id", &o.pane_id);
        if o.target.is_some() {
            push_text(&mut p, "source_pane_id", &o.pane_id);
            push_text(&mut p, "target_pane_id", &o.target);
        }
        push_text(&mut p, "direction", &o.direction);
        Some(request("pane.swap", p, Some(owned("swapped pane"))))
    } else if str_eq(verb, "send") {
        push_text(&mut p, "pane_id", &o.pane_id);
        let joined = crate::sidebar::join_lines(&o.text, " ");
        push_param(&mut p, "text", VerbParam::Text(joined));
        Some(request("pane.send_text", p, Some(concat2("sent text to ", text_or_empty(&o.pane_id).as_str()))))
    } else if str_eq(verb, "neighbor") {
        push_text(&mut p, "pane_id", &o.pane_id);
        push_text(&mut p, "direction", &o.direction);
        Some(request("pane.neighbor", p, None))
    } else if str_eq(verb, "layout") {
        push_text(&mut p, "tab_id", &o.tab);
        push_text(&mut p, "pane_id", &o.pane);
        Some(request("layout.export", p, None))
    } else if str_eq(verb, "focus-dir") {
        push_text(&mut p, "direction", &o.direction);
        Some(request("pane.focus_direction", p, Some(concat2("focus ", text_or_empty(&o.direction).as_str()))))
    } else if str_eq(verb, "move-tab") {
        push_text(&mut p, "tab_id", &o.tab_id);
        match o.index {
            Some(i) => push_param(&mut p, "index", VerbParam::Index(i)),
            None => {},
        }
        push_text(&mut p, "workspace_id", &o.workspace);
        Some(request("tab.move", p, Some(concat2("moved tab ", text_or_empty(&o.tab_id).as_str()))))
    } else if str_eq(verb, "rename-pane") {
        push_text(&mut p, "pane_id", &o.pane_id);
        push_text(&mut p, "label", &o.label);
        Some(request("pane.rename", p, Some(concat2("renamed pane ", text_or_empty(&o.pane_id).as_str()))))
    } else if str_eq(verb, "rename-agent") {
        push_text(&mut p, "pane_id", &o.target);
        push_text(&mut p, "target", &o.target);
        push_text(&mut p, "label", &o.label);
        Some(request("agent.rename", p, Some(concat2("renamed agent ", text_or_empty(&o.target).as_str()))))
    } else if str_eq(verb, "notify") {
        push_text(&mut p, "title", &o.title);
        push_text(&mut p, "body", &o.body);
        Some(request("notification.show", p, Some(owned("notified"))))
    } else if str_eq(verb, "agent-explain") {
        push_text(&mut p, "target", &o.target);
        push_text(&mut p, "pane_id", &o.target);
        Some(request("agent.explain", p, Some(concat2("explain ", text_or_empty(&o.target).as_str()))))
    } else if str_eq(verb, "process-info") {
        push_text(&mut p, "pane_id", &o.pane_id);
        Some(request("pane.process_info", p, Some(concat2("process ", text_or_empty(&o.pane_id).as_str()))))
    } else if str_eq(verb, "release-agent") {
        push_text(&mut p, "pane_id", &o.pane_id);
        Some(request("pane.release_agent", p, Some(concat2("released agent ", text_or_empty(&o.pane_id).as_str()))))
    } else if str_eq(verb, "clear-agent-authority") {
        push_text(&mut p, "pane_id", &o.pane_id);
        Some(request("pane.clear_agent_authority", p, Some(concat2("cleared authority ", text_or_empty(&o.pane_id).as_str()))))
    } else {
        None
    }
}

} // verus!
