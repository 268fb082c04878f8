//! Status-pill styling for provider agent statuses.
use vstd::prelude::*;

use crate::assoc::{lookup, unique};
use crate::json::{is_truthy, json_get, opt_get, opt_ref, truthy, Json};
use crate::layout::join;
use crate::model::{display_name, Pane, Tab};
use crate::text::{concat3, contains_str, opt_str_view, opt_view, owned, str_eq, strings_view, trim, trim_str};

verus! {

/// `str::to_lowercase` (Unicode lowercase mapping).
pub uninterp spec fn unicode_lower(s: Seq<char>) -> Seq<char>;

/// Calls `str::to_lowercase`; its result is named `unicode_lower`.
#[verifier::external_body]
pub fn to_lowercase(s: &str) -> (r: String)
    ensures
        r@ == unicode_lower(s@),
{
    s.to_lowercase()
}

/// One pill style: SF Symbol icon, hex color, priority.
#[derive(Debug, Clone, Copy, PartialEq, Eq)]
pub struct Style {
    pub icon: &'static str,
    pub color: &'static str,
    pub priority: i64,
}

/// Style for an unmapped status.
pub fn default_style() -> (r: Style)
    ensures
        r.icon@ == "circle"@,
        r.color@ == "#8e8e93"@,
        r.priority == 10,
{
    Style { icon: "circle", color: "#8e8e93", priority: 10 }
}

/// (icon, color, priority) for a lower-cased, trimmed status key.
pub open spec fn style_for(key: Seq<char>) -> (Seq<char>, Seq<char>, int) {
    if key == "working"@ {
        ("hammer"@, "#ff9500"@, 80)
    } else if key == "idle"@ {
        ("pause.circle"@, "#8e8e93"@, 40)
    } else if key == "done"@ {
        ("checkmark.circle"@, "#34c759"@, 30)
    } else if key == "blocked"@ {
        ("exclamationmark.triangle"@, "#ff3b30"@, 90)
    } else if key == "unknown"@ {
        ("questionmark.circle"@, "#8e8e93"@, 10)
    } else {
        ("circle"@, "#8e8e93"@, 10)
    }
}

/// The key a status is styled by: `unknown` when absent or empty, else its
/// Unicode lower case, trimmed.
pub open spec fn status_key(status: Option<Seq<char>>) -> Seq<char> {
    match status {
        Some(s) if s.len() > 0 => trim(unicode_lower(s)),
        _ => trim(unicode_lower("unknown"@)),
    }
}

proof fn lemma_style_words_distinct()
    ensures
        "working"@ != "idle"@ && "working"@ != "done"@ && "working"@ != "blocked"@ && "working"@ != "unknown"@,
        "idle"@ != "done"@ && "idle"@ != "blocked"@ && "idle"@ != "unknown"@,
        "done"@ != "blocked"@ && "done"@ != "unknown"@,
        "blocked"@ != "unknown"@,
        "hammer"@ != "circle"@,
        "pause.circle"@ != "circle"@ && "checkmark.circle"@ != "circle"@,
        "exclamationmark.triangle"@ != "circle"@ && "questionmark.circle"@ != "circle"@,
        "hammer"@ != "pause.circle"@ && "hammer"@ != "checkmark.circle"@,
        "hammer"@ != "exclamationmark.triangle"@ && "hammer"@ != "questionmark.circle"@,
        "pause.circle"@ != "checkmark.circle"@ && "pause.circle"@ != "exclamationmark.triangle"@,
        "pause.circle"@ != "questionmark.circle"@,
        "checkmark.circle"@ != "exclamationmark.triangle"@ && "checkmark.circle"@ != "questionmark.circle"@,
        "exclamationmark.triangle"@ != "questionmark.circle"@,
{
    reveal_strlit("working");
    reveal_strlit("idle");
    reveal_strlit("done");
    reveal_strlit("blocked");
    reveal_strlit("unknown");
    reveal_strlit("hammer");
    reveal_strlit("pause.circle");
    reveal_strlit("checkmark.circle");
    reveal_strlit("exclamationmark.triangle");
    reveal_strlit("questionmark.circle");
    reveal_strlit("circle");
    assert("working"@[0] != "blocked"@[0]);
    assert("working"@[0] != "unknown"@[0]);
    assert("blocked"@[0] != "unknown"@[0]);
    assert("idle"@[0] != "done"@[0]);
    assert("hammer"@[0] != "circle"@[0]);
    assert("pause.circle"@.len() == 12 && "circle"@.len() == 6 && "checkmark.circle"@.len() == 16);
    assert("exclamationmark.triangle"@.len() == 24 && "questionmark.circle"@.len() == 19);
}

/// The status pill table: a status whose key is `working` shows a hammer in
/// orange at priority 80, `idle` a pause circle in grey at 40, `done` a
/// check mark in green at 30, `blocked` a warning triangle in red at 90, and
/// `unknown` (also an absent or empty status) a question mark in grey at 10;
/// any other status gets the plain grey circle at 10.
pub proof fn law_status_pill_table(status: Option<Seq<char>>)
    ensures
        ({
            let k = status_key(status);
            let (icon, color, priority) = style_for(k);
            &&& k == "working"@ ==> icon == "hammer"@ && color == "#ff9500"@ && priority == 80
            &&& k == "idle"@ ==> icon == "pause.circle"@ && color == "#8e8e93"@ && priority == 40
            &&& k == "done"@ ==> icon == "checkmark.circle"@ && color == "#34c759"@ && priority == 30
            &&& k == "blocked"@ ==> icon == "exclamationmark.triangle"@ && color == "#ff3b30"@ && priority
                == 90
            &&& k == "unknown"@ ==> icon == "questionmark.circle"@ && color == "#8e8e93"@ && priority == 10
            &&& (k != "working"@ && k != "idle"@ && k != "done"@ && k != "blocked"@ && k != "unknown"@)
                ==> icon == "circle"@ && color == "#8e8e93"@ && priority == 10
        }),
{
    lemma_style_words_distinct();
}

/// An absent status, an empty one and the status `unknown` are all styled
/// alike.
pub proof fn law_missing_status_is_unknown()
    ensures
        status_key(None) == status_key(Some(Seq::<char>::empty())),
        status_key(None) == status_key(Some("unknown"@)),
{
    reveal_strlit("unknown");
}

/// Each of the five known states has a style of its own, told apart from
/// the others and from the plain style of other statuses by its icon, and a
/// blocked agent outranks a working one, which outranks an idle one, which
/// outranks a done one, which outranks an unknown one.
pub proof fn law_status_styles_distinct(a: Seq<char>, b: Seq<char>)
    requires
        a == "working"@ || a == "idle"@ || a == "done"@ || a == "blocked"@ || a == "unknown"@,
        a != b,
    ensures
        style_for(a).0 != style_for(b).0,
        style_for(a).0 != "circle"@,
        style_for("blocked"@).2 > style_for("working"@).2,
        style_for("working"@).2 > style_for("idle"@).2,
        style_for("idle"@).2 > style_for("done"@).2,
        style_for("done"@).2 > style_for("unknown"@).2,
{
    lemma_style_words_distinct();
}

/// Style of a provider `agent_status` (case-insensitive; unknown statuses
/// get the default style).
pub fn map_status_to_style(status: Option<&str>) -> (r: Style)
    ensures
        (r.icon@, r.color@, r.priority as int) == style_for(status_key(crate::text::opt_str_view(status))),
{
    let base = match status {
        Some(s) => if !s.is_empty() {
            s
        } else {
            "unknown"
        },
        None => "unknown",
    };
    let lowered = to_lowercase(base);
    let key = trim_str(lowered.as_str());
    let k = key.as_str();
    if str_eq(k, "working") {
        Style { icon: "hammer", color: "#ff9500", priority: 80 }
    } else if str_eq(k, "idle") {
        Style { icon: "pause.circle", color: "#8e8e93", priority: 40 }
    } else if str_eq(k, "done") {
        Style { icon: "checkmark.circle", color: "#34c759", priority: 30 }
    } else if str_eq(k, "blocked") {
        Style { icon: "exclamationmark.triangle", color: "#ff3b30", priority: 90 }
    } else if str_eq(k, "unknown") {
        Style { icon: "questionmark.circle", color: "#8e8e93", priority: 10 }
    } else {
        default_style()
    }
}

/// `Some(s)` when `s` is non-empty.
pub open spec fn nonempty(o: Option<Seq<char>>) -> Option<Seq<char>> {
    match o {
        Some(s) => if s.len() > 0 {
            Some(s)
        } else {
            None
        },
        None => None,
    }
}

/// The parts of a pill value: `agent/status`, the label of the pane's tab
/// (the parent tab when one is given), and the pane's name (the locked
/// title when one is given) unless it repeats an earlier part.
pub open spec fn pill_parts(
    p: Pane,
    tabs: Option<Seq<(String, Tab)>>,
    locked: Option<Seq<char>>,
    parent: Option<Seq<char>>,
) -> Seq<Seq<char>> {
    let agent = match nonempty(opt_view(p.agent)) {
        Some(a) => a,
        None => "agent"@,
    };
    let head = seq![agent + "/"@ + unicode_lower(p.agent_status@)];
    let tab_id = match nonempty(parent) {
        Some(t) => t,
        None => p.tab_id@,
    };
    let label = match tabs {
        Some(ts) => match lookup(ts, tab_id) {
            Some(t) => nonempty(opt_view(t.label)),
            None => None,
        },
        None => None,
    };
    let parts = match label {
        Some(l) => head.push(l),
        None => head,
    };
    let name = match nonempty(locked) {
        Some(t) => t,
        None => display_name(p),
    };
    if name.len() > 0 && !parts.contains(name) {
        parts.push(name)
    } else {
        parts
    }
}

pub open spec fn opt_tabs(tabs: Option<&Vec<(String, Tab)>>) -> Option<Seq<(String, Tab)>> {
    match tabs {
        Some(t) => Some(t@),
        None => None,
    }
}

/// The pill value of a pane: its parts joined by ` · `.
pub fn status_value_for_pane(
    pane: &Pane,
    tabs_by_id: Option<&Vec<(String, Tab)>>,
    locked_title: Option<&str>,
    parent_tab_id: Option<&str>,
) -> (r: String)
    requires
        match tabs_by_id {
            Some(t) => unique(t@),
            None => true,
        },
    ensures
        r@ == join(
            pill_parts(*pane, opt_tabs(tabs_by_id), opt_str_view(locked_title), opt_str_view(parent_tab_id)),
            " \u{b7} "@,
        ),
{
    let agent: &str = match &pane.agent {
        Some(a) => if !a.as_str().is_empty() {
            a.as_str()
        } else {
            "agent"
        },
        None => "agent",
    };
    let status = to_lowercase(pane.agent_status.as_str());
    let mut parts: Vec<String> = Vec::new();
    parts.push(concat3(agent, "/", status.as_str()));
    let ghost agent_s = match nonempty(opt_view(pane.agent)) {
        Some(a) => a,
        None => "agent"@,
    };
    assert(agent@ == agent_s);
    assert(strings_view(parts@) =~= seq![agent_s + "/"@ + unicode_lower(pane.agent_status@)]);
    let ghost head = strings_view(parts@);
    let tab_id: &str = match parent_tab_id {
        Some(t) => if !t.is_empty() {
            t
        } else {
            pane.tab_id.as_str()
        },
        None => pane.tab_id.as_str(),
    };
    match tabs_by_id {
        Some(m) => match crate::assoc::get(m, tab_id) {
            Some(tab) => match &tab.label {
                Some(l) => if !l.as_str().is_empty() {
                    parts.push(l.clone());
                },
                None => {},
            },
            None => {},
        },
        None => {},
    }
    let ghost tab_s = match nonempty(opt_str_view(parent_tab_id)) {
        Some(t) => t,
        None => pane.tab_id@,
    };
    assert(tab_id@ == tab_s);
    let ghost label_s = match opt_tabs(tabs_by_id) {
        Some(ts) => match lookup(ts, tab_s) {
            Some(t) => nonempty(opt_view(t.label)),
            None => None,
        },
        None => None,
    };
    assert(strings_view(parts@) =~= match label_s {
        Some(l) => head.push(l),
        None => head,
    });
    let name: String = match locked_title {
        Some(t) => if !t.is_empty() {
            owned(t)
        } else {
            pane.display_name()
        },
        None => pane.display_name(),
    };
    if !name.as_str().is_empty() && !contains_str(&parts, name.as_str()) {
        parts.push(name);
    }
    let ghost expect = pill_parts(*pane, opt_tabs(tabs_by_id), opt_str_view(locked_title), opt_str_view(parent_tab_id));
    assert(strings_view(parts@) =~= expect);
    crate::sidebar::join_lines(&parts, " \u{b7} ")
}

/// The member `k` of a prior record, when the record is an object.
pub open spec fn prior_get(prior: Option<Json>, k: Seq<char>) -> Option<Json> {
    match prior {
        Some(j) => if j is Object {
            json_get(j, k)
        } else {
            None
        },
        None => None,
    }
}

/// The locked title of a prior record: its trimmed `locked_title` when the
/// record is an object with a truthy `title_lock` and a non-blank title.
pub open spec fn locked_title(prior: Option<Json>) -> Option<Seq<char>> {
    if !truthy(prior_get(prior, "title_lock"@)) {
        None
    } else {
        match prior_get(prior, "locked_title"@) {
            Some(Json::Str(s)) => if trim(s@).len() > 0 {
                Some(trim(s@))
            } else {
                None
            },
            _ => None,
        }
    }
}

fn prior_get_exec<'a>(prior: Option<&'a Json>, k: &str) -> (r: Option<&'a Json>)
    ensures
        opt_ref(r) == prior_get(opt_ref(prior), k@),
{
    match prior {
        Some(j) => if j.is_object() {
            j.get(k)
        } else {
            None
        },
        None => None,
    }
}

/// See [`locked_title`].
pub fn locked_display_name(prior: Option<&Json>) -> (r: Option<String>)
    ensures
        opt_view(r) == locked_title(opt_ref(prior)),
{
    if !is_truthy(prior_get_exec(prior, "title_lock")) {
        return None;
    }
    match prior_get_exec(prior, "locked_title") {
        Some(Json::Str(s)) => {
            let t = trim_str(s.as_str());
            if t.as_str().is_empty() {
                None
            } else {
                Some(t)
            }
        },
        _ => None,
    }
}

/// The pill written for one pane.
#[derive(Debug)]
pub struct StatusPayload {
    pub value: String,
    pub icon: &'static str,
    pub color: &'static str,
    pub priority: i64,
    pub title_lock: bool,
    pub locked_title: Option<String>,
}

/// The parent tab a prior record pins: its `parent_tab_id` when the
/// heuristic was satisfied and the id is not blank.
pub open spec fn parent_tab(prior: Option<Json>) -> Option<Seq<char>> {
    if truthy(prior_get(prior, "heuristic_satisfied"@)) {
        match prior_get(prior, "parent_tab_id"@) {
            Some(Json::Str(s)) => if trim(s@).len() > 0 {
                Some(s@)
            } else {
                None
            },
            _ => None,
        }
    } else {
        None
    }
}

/// The pill of a pane, honouring the title lock and parent tab of its prior
/// association record.
pub fn status_write_payload(
    pane: &Pane,
    tabs_by_id: Option<&Vec<(String, Tab)>>,
    prior: Option<&Json>,
) -> (r: StatusPayload)
    requires
        match tabs_by_id {
            Some(t) => unique(t@),
            None => true,
        },
    ensures
        r.value@ == join(
            pill_parts(*pane, opt_tabs(tabs_by_id), locked_title(opt_ref(prior)), parent_tab(opt_ref(prior))),
            " \u{b7} "@,
        ),
        (r.icon@, r.color@, r.priority as int) == style_for(status_key(Some(pane.agent_status@))),
        r.title_lock == truthy(prior_get(opt_ref(prior), "title_lock"@)),
        opt_view(r.locked_title) == locked_title(opt_ref(prior)),
{
    let locked = locked_display_name(prior);
    let parent: Option<String> = if is_truthy(prior_get_exec(prior, "heuristic_satisfied")) {
        match prior_get_exec(prior, "parent_tab_id") {
            Some(Json::Str(s)) => {
                let t = trim_str(s.as_str());
                if t.as_str().is_empty() {
                    None
                } else {
                    Some(s.clone())
                }
            },
            _ => None,
        }
    } else {
        None
    };
    let style = map_status_to_style(Some(pane.agent_status.as_str()));
    let value = status_value_for_pane(
        pane,
        tabs_by_id,
        match &locked {
            Some(l) => Some(l.as_str()),
            None => None,
        },
        match &parent {
            Some(t) => Some(t.as_str()),
            None => None,
        },
    );
    StatusPayload {
        value,
        icon: style.icon,
        color: style.color,
        priority: style.priority,
        title_lock: is_truthy(prior_get_exec(prior, "title_lock")),
        locked_title: locked,
    }
}

/// `v` holds the string `s`.
pub open spec fn holds_str(v: Option<Json>, s: Seq<char>) -> bool {
    v matches Some(Json::Str(x)) && x@ == s
}

/// `v` holds the integer `n`.
pub open spec fn holds_int(v: Option<Json>, n: i64) -> bool {
    v matches Some(Json::Number { text, whole, .. }) && crate::model::int_text(text@) && whole == Some(n)
}

fn holds_str_exec(v: Option<&Json>, s: &str) -> (r: bool)
    ensures
        r == holds_str(opt_ref(v), s@),
{
    match v {
        Some(Json::Str(x)) => str_eq(x.as_str(), s),
        _ => false,
    }
}

fn holds_int_exec(v: Option<&Json>, n: i64) -> (r: bool)
    ensures
        r == holds_int(opt_ref(v), n),
{
    match v {
        Some(Json::Number { text, whole, .. }) => crate::model::int_text_exec(text.as_str()) && match whole {
            Some(w) => *w == n,
            None => false,
        },
        _ => false,
    }
}

/// Whether a pill must be written: always without a prior record, else
/// unless the last written value, icon, color and priority are the same.
pub fn should_write_status_pill(payload: &StatusPayload, prior: Option<&Json>) -> (r: bool)
    ensures
        r == match prior {
            Some(j) => if *j is Object {
                !(holds_str(json_get(*j, "last_status_value"@), payload.value@) && holds_str(
                    json_get(*j, "last_icon"@),
                    payload.icon@,
                ) && holds_str(json_get(*j, "last_color"@), payload.color@) && holds_int(
                    json_get(*j, "last_priority"@),
                    payload.priority,
                ))
            } else {
                true
            },
            None => true,
        },
{
    match prior {
        Some(j) => if j.is_object() {
            !(holds_str_exec(j.get("last_status_value"), payload.value.as_str()) && holds_str_exec(
                j.get("last_icon"),
                payload.icon,
            ) && holds_str_exec(j.get("last_color"), payload.color) && holds_int_exec(
                j.get("last_priority"),
                payload.priority,
            ))
        } else {
            true
        },
        None => true,
    }
}

} // verus!
