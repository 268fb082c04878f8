//! Event-pump results and what a watch loop does after each one.
use vstd::prelude::*;

use crate::json::{is_truthy, json_get, opt_ref, truthy, Json};
use crate::text::{owned, str_eq, strings_view, trim, trim_str};

verus! {

/// What one pumped event did.
#[derive(Debug, Clone, PartialEq, Eq)]
pub struct PumpResult {
    pub kind: String,
    pub resync: bool,
    pub routed_output: bool,
    pub focused: bool,
    pub status_updated: bool,
    pub pane_id: Option<String>,
    pub log: String,
}

impl PumpResult {
    /// A result of the given kind with no effects recorded.
    pub fn new(kind: &str) -> (r: Self)
        ensures
            r.kind@ == kind@,
            !r.resync,
            !r.routed_output,
            !r.focused,
            !r.status_updated,
            r.pane_id is None,
            r.log@.len() == 0,
    {
        PumpResult {
            kind: owned(kind),
            resync: false,
            routed_output: false,
            focused: false,
            status_updated: false,
            pane_id: None,
            log: String::new(),
        }
    }
}

impl Default for PumpResult {
    fn default() -> (r: Self)
        ensures
            r.kind@ == "other"@,
            !r.resync,
            !r.status_updated,
    {
        PumpResult::new("other")
    }
}

/// Follow-up after a pump step: a full projection after an event gap, a
/// resync, or an empty poll; the status pills after a status update.
pub open spec fn followup(result: Option<PumpResult>, had_event: bool, event_gap: bool) -> Seq<char> {
    if event_gap {
        "project"@
    } else {
        match result {
            None => if had_event {
                "none"@
            } else {
                "project"@
            },
            Some(r) => if r.resync {
                "project"@
            } else if r.status_updated {
                "pills"@
            } else {
                "none"@
            },
        }
    }
}

pub fn watch_followup(result: Option<&PumpResult>, had_event: bool, event_gap: bool) -> (r: &'static str)
    ensures
        r@ == followup(
            match result {
                Some(p) => Some(*p),
                None => None,
            },
            had_event,
            event_gap,
        ),
{
    if event_gap {
        return "project";
    }
    match result {
        None => if had_event {
            "none"
        } else {
            "project"
        },
        Some(r) => if r.resync {
            "project"
        } else if r.status_updated {
            "pills"
        } else {
            "none"
        },
    }
}

// ---- event classification ----------------------------------------------------------

/// The member `k` of an object value.
pub open spec fn member(v: Option<Json>, k: Seq<char>) -> Option<Json> {
    match v {
        Some(j) => if j is Object {
            json_get(j, k)
        } else {
            None
        },
        None => None,
    }
}

pub open spec fn is_obj(v: Option<Json>) -> bool {
    v matches Some(Json::Object { .. })
}

/// The member `k` of an event's body. The body is its `data` object (with
/// the envelope's string `event` as its `type` when it has none), else its
/// `event` object, else its `params` object when that names a type, pane or
/// event, else the envelope itself.
pub open spec fn body_get(obj: Option<Json>, k: Seq<char>) -> Option<Json> {
    let data = member(obj, "data"@);
    let event = member(obj, "event"@);
    let params = member(obj, "params"@);
    if !is_obj(obj) {
        None
    } else if is_obj(data) {
        if k == "type"@ && member(data, "type"@) is None && event matches Some(Json::Str(_)) {
            event
        } else {
            member(data, k)
        }
    } else if is_obj(event) {
        member(event, k)
    } else if is_obj(params) && (truthy(member(params, "type"@)) || truthy(member(params, "pane_id"@))
        || truthy(member(params, "event"@))) {
        member(params, k)
    } else {
        member(obj, k)
    }
}

/// The body of an event envelope as [`body_get`] reads it (without the
/// `type` it may borrow from the envelope): its `data` object, else its
/// `event` object, else its `params` object when that names a type, pane or
/// event, else the envelope itself; `None` when the envelope is not an
/// object.
pub open spec fn event_body_spec(obj: Option<Json>) -> Option<Json> {
    let data = member(obj, "data"@);
    let event = member(obj, "event"@);
    let params = member(obj, "params"@);
    if !is_obj(obj) {
        None
    } else if is_obj(data) {
        data
    } else if is_obj(event) {
        event
    } else if is_obj(params) && (truthy(member(params, "type"@)) || truthy(member(params, "pane_id"@))
        || truthy(member(params, "event"@))) {
        params
    } else {
        obj
    }
}

/// See [`event_body_spec`].
pub fn event_body(obj: Option<&Json>) -> (r: Option<&Json>)
    ensures
        opt_ref(r) == event_body_spec(opt_ref(obj)),
        forall|k: Seq<char>|
            k != "type"@ ==> #[trigger] body_get(opt_ref(obj), k) == member(event_body_spec(opt_ref(obj)), k),
{
    let data = member_exec(obj, "data");
    let event = member_exec(obj, "event");
    let params = member_exec(obj, "params");
    if !is_obj_exec(obj) {
        None
    } else if is_obj_exec(data) {
        data
    } else if is_obj_exec(event) {
        event
    } else if is_obj_exec(params) && (is_truthy(member_exec(params, "type")) || is_truthy(
        member_exec(params, "pane_id"),
    ) || is_truthy(member_exec(params, "event"))) {
        params
    } else {
        obj
    }
}

/// A non-empty string value.
pub open spec fn nonempty_str(v: Option<Json>) -> Option<Seq<char>> {
    match v {
        Some(Json::Str(s)) => if s@.len() > 0 {
            Some(s@)
        } else {
            None
        },
        _ => None,
    }
}

/// The type of an event: the body's `type`, `event` or `name`, else the
/// envelope's `event`, else empty.
pub open spec fn event_type_spec(obj: Option<Json>) -> Seq<char> {
    if nonempty_str(body_get(obj, "type"@)) is Some {
        nonempty_str(body_get(obj, "type"@)).unwrap()
    } else if nonempty_str(body_get(obj, "event"@)) is Some {
        nonempty_str(body_get(obj, "event"@)).unwrap()
    } else if nonempty_str(body_get(obj, "name"@)) is Some {
        nonempty_str(body_get(obj, "name"@)).unwrap()
    } else if nonempty_str(member(obj, "event"@)) is Some {
        nonempty_str(member(obj, "event"@)).unwrap()
    } else {
        Seq::empty()
    }
}

fn member_exec<'a>(v: Option<&'a Json>, k: &str) -> (r: Option<&'a Json>)
    ensures
        opt_ref(r) == member(opt_ref(v), k@),
{
    match v {
        Some(j) => if j.is_object() {
            j.get(k)
        } else {
            None
        },
        None => None,
    }
}

fn is_obj_exec(v: Option<&Json>) -> (r: bool)
    ensures
        r == is_obj(opt_ref(v)),
{
    match v {
        Some(Json::Object { .. }) => true,
        _ => false,
    }
}

fn body_get_exec<'a>(obj: Option<&'a Json>, k: &str) -> (r: Option<&'a Json>)
    ensures
        opt_ref(r) == body_get(opt_ref(obj), k@),
{
    let data = member_exec(obj, "data");
    let event = member_exec(obj, "event");
    let params = member_exec(obj, "params");
    if !is_obj_exec(obj) {
        None
    } else if is_obj_exec(data) {
        let event_str = match event {
            Some(Json::Str(_)) => true,
            _ => false,
        };
        if str_eq(k, "type") && member_exec(data, "type").is_none() && event_str {
            event
        } else {
            member_exec(data, k)
        }
    } else if is_obj_exec(event) {
        member_exec(event, k)
    } else if is_obj_exec(params) && (is_truthy(member_exec(params, "type")) || is_truthy(
        member_exec(params, "pane_id"),
    ) || is_truthy(member_exec(params, "event"))) {
        member_exec(params, k)
    } else {
        member_exec(obj, k)
    }
}

fn nonempty_str_exec(v: Option<&Json>) -> (r: Option<String>)
    ensures
        crate::text::opt_view(r) == nonempty_str(opt_ref(v)),
{
    match v {
        Some(Json::Str(s)) => if !s.as_str().is_empty() {
            Some(s.clone())
        } else {
            None
        },
        _ => None,
    }
}

/// See [`event_type_spec`].
pub fn event_type(obj: Option<&Json>) -> (r: String)
    ensures
        r@ == event_type_spec(opt_ref(obj)),
{
    match nonempty_str_exec(body_get_exec(obj, "type")) {
        Some(t) => {
            return t;
        },
        None => {},
    }
    match nonempty_str_exec(body_get_exec(obj, "event")) {
        Some(t) => {
            return t;
        },
        None => {},
    }
    match nonempty_str_exec(body_get_exec(obj, "name")) {
        Some(t) => {
            return t;
        },
        None => {},
    }
    match nonempty_str_exec(member_exec(obj, "event")) {
        Some(t) => t,
        None => String::new(),
    }
}

pub open spec fn topology_events() -> Seq<Seq<char>> {
    seq![
        "workspace.created"@,
        "workspace.updated"@,
        "workspace.renamed"@,
        "workspace.moved"@,
        "workspace.reordered"@,
        "workspace.closed"@,
        "tab.created"@,
        "tab.closed"@,
        "tab.renamed"@,
        "tab.moved"@,
        "pane.created"@,
        "pane.closed"@,
        "pane.moved"@,
        "pane.exited"@,
        "pane.resized"@,
        "layout.updated"@,
        "layout.changed"@,
    ]
}

pub open spec fn output_events() -> Seq<Seq<char>> {
    seq!["pane.updated"@, "pane.output_matched"@]
}

pub open spec fn focus_events() -> Seq<Seq<char>> {
    seq!["pane.focused"@, "tab.focused"@, "workspace.focused"@]
}

pub open spec fn status_events() -> Seq<Seq<char>> {
    seq!["pane.agent_status_changed"@, "pane.agent_detected"@]
}

pub open spec fn metadata_events() -> Seq<Seq<char>> {
    seq!["workspace.metadata_updated"@]
}

/// The kind of an event by its type.
pub open spec fn event_kind(name: Seq<char>) -> Seq<char> {
    if topology_events().contains(name) {
        "topology"@
    } else if output_events().contains(name) {
        "output"@
    } else if focus_events().contains(name) {
        "focus"@
    } else if status_events().contains(name) {
        "status"@
    } else if metadata_events().contains(name) {
        "metadata"@
    } else {
        "other"@
    }
}

pub open spec fn texts(v: Seq<&str>) -> Seq<Seq<char>> {
    v.map_values(|s: &str| s@)
}

fn one_of(name: &str, set: &Vec<&str>) -> (r: bool)
    ensures
        r == texts(set@).contains(name@),
{
    let mut i: usize = 0;
    while i < set.len()
        invariant
            i <= set.len(),
            forall|j: int| 0 <= j < i ==> set@[j]@ != name@,
        decreases set.len() - i,
    {
        if str_eq(set[i], name) {
            assert(texts(set@)[i as int] == name@);
            return true;
        }
        i += 1;
    }
    proof {
        if texts(set@).contains(name@) {
            let j = choose|j: int| 0 <= j < set@.len() && #[trigger] texts(set@)[j] == name@;
            assert(set@[j]@ == name@);
        }
    }
    false
}

/// The kind of an event (see [`event_kind`]).
pub fn classify_event(obj: Option<&Json>) -> (r: &'static str)
    ensures
        r@ == event_kind(event_type_spec(opt_ref(obj))),
{
    let name = event_type(obj);
    let n = name.as_str();
    let topology = vec![
        "workspace.created",
        "workspace.updated",
        "workspace.renamed",
        "workspace.moved",
        "workspace.reordered",
        "workspace.closed",
        "tab.created",
        "tab.closed",
        "tab.renamed",
        "tab.moved",
        "pane.created",
        "pane.closed",
        "pane.moved",
        "pane.exited",
        "pane.resized",
        "layout.updated",
        "layout.changed",
    ];
    assert(texts(topology@) =~= topology_events());
    let output = vec!["pane.updated", "pane.output_matched"];
    assert(texts(output@) =~= output_events());
    let focus = vec!["pane.focused", "tab.focused", "workspace.focused"];
    assert(texts(focus@) =~= focus_events());
    let status = vec!["pane.agent_status_changed", "pane.agent_detected"];
    assert(texts(status@) =~= status_events());
    let metadata = vec!["workspace.metadata_updated"];
    assert(texts(metadata@) =~= metadata_events());
    if one_of(n, &topology) {
        "topology"
    } else if one_of(n, &output) {
        "output"
    } else if one_of(n, &focus) {
        "focus"
    } else if one_of(n, &status) {
        "status"
    } else if one_of(n, &metadata) {
        "metadata"
    } else {
        "other"
    }
}

/// The first non-blank string among `names` in a body, trimmed; else the
/// same in its `pane`, `agent`, `tab` and `workspace` objects, in turn.
pub open spec fn event_string_spec(body: Json, names: Seq<Seq<char>>) -> Seq<char>
    decreases body, 2int, 0int,
{
    match body {
        Json::Object { entries, .. } => {
            let direct = first_named(body, names);
            if direct.len() > 0 {
                direct
            } else {
                proof {
                    assert(decreases_to!(body => entries));
                    assert(decreases_to!(entries => entries@));
                }
                nested_string(entries@, seq!["pane"@, "agent"@, "tab"@, "workspace"@], names)
            }
        },
        _ => Seq::empty(),
    }
}

/// The first of `names` whose string value is not blank, trimmed.
pub open spec fn first_named(body: Json, names: Seq<Seq<char>>) -> Seq<char>
    decreases names.len(),
{
    if names.len() == 0 {
        Seq::empty()
    } else {
        match json_get(body, names[0]) {
            Some(Json::Str(s)) => if trim(s@).len() > 0 {
                trim(s@)
            } else {
                first_named(body, names.drop_first())
            },
            _ => first_named(body, names.drop_first()),
        }
    }
}

/// The first nested object among `keys` that yields a string.
pub open spec fn nested_string(entries: Seq<(String, Json)>, keys: Seq<Seq<char>>, names: Seq<Seq<char>>) -> Seq<char>
    decreases entries, 1int, keys.len(),
{
    if keys.len() == 0 {
        Seq::empty()
    } else {
        match crate::json::entries_get(entries, keys[0]) {
            Some(v) => if v is Object {
                proof {
                    let j = crate::json::lemma_entries_get_index(entries, keys[0]);
                    assert(decreases_to!(entries => entries[j]));
                    assert(decreases_to!(entries[j] => entries[j].1));
                }
                let found = event_string_spec(v, names);
                if found.len() > 0 {
                    found
                } else {
                    nested_string(entries, keys.drop_first(), names)
                }
            } else {
                nested_string(entries, keys.drop_first(), names)
            },
            None => nested_string(entries, keys.drop_first(), names),
        }
    }
}

fn first_named_exec(body: &Json, names: &Vec<&str>) -> (r: String)
    ensures
        r@ == first_named(*body, texts(names@)),
{
    let ghost ns = texts(names@);
    let mut i: usize = 0;
    assert(ns.skip(0) =~= ns);
    while i < names.len()
        invariant
            i <= names.len(),
            ns == texts(names@),
            first_named(*body, ns) == first_named(*body, ns.skip(i as int)),
        decreases names.len() - i,
    {
        let ghost rest = ns.skip(i as int);
        assert(rest[0] == names@[i as int]@);
        assert(rest.drop_first() =~= ns.skip(i + 1));
        match body.get(names[i]) {
            Some(Json::Str(v)) => {
                let t = trim_str(v.as_str());
                if !t.as_str().is_empty() {
                    return t;
                }
            },
            _ => {},
        }
        i += 1;
    }
    assert(ns.skip(names.len() as int) =~= Seq::<Seq<char>>::empty());
    String::new()
}

/// See [`event_string_spec`].
#[verifier::loop_isolation(false)]
pub fn event_string(body: &Json, names: &Vec<&str>) -> (r: String)
    ensures
        r@ == event_string_spec(*body, texts(names@)),
    decreases body,
{
    match body {
        Json::Object { entries, .. } => {
            let direct = first_named_exec(body, names);
            if !direct.as_str().is_empty() {
                return direct;
            }
            let keys = vec!["pane", "agent", "tab", "workspace"];
            let ghost ks = seq!["pane"@, "agent"@, "tab"@, "workspace"@];
            assert(texts(keys@) =~= ks);
            assert(ks.skip(0) =~= ks);
            let mut i: usize = 0;
            while i < keys.len()
                invariant
                    i <= keys.len(),
                    texts(keys@) == ks,
                    nested_string(entries@, ks, texts(names@)) == nested_string(
                        entries@,
                        ks.skip(i as int),
                        texts(names@),
                    ),
                decreases keys.len() - i,
            {
                let ghost rest = ks.skip(i as int);
                assert(rest[0] == keys@[i as int]@);
                assert(rest.drop_first() =~= ks.skip(i + 1));
                match body.get(keys[i]) {
                    Some(v) => if v.is_object() {
                        proof {
                            let j = crate::json::lemma_entries_get_index(entries@, keys@[i as int]@);
                            assert(decreases_to!(entries => entries@));
                            assert(decreases_to!(entries@ => entries@[j]));
                            assert(decreases_to!(entries@[j] => entries@[j].1));
                        }
                        let found = event_string(v, names);
                        if !found.as_str().is_empty() {
                            return found;
                        }
                    },
                    None => {},
                }
                i += 1;
            }
            assert(ks.skip(4) =~= Seq::<Seq<char>>::empty());
            String::new()
        },
        _ => String::new(),
    }
}


// ---- the watch loop ----------------------------------------------------------------

/// The shortest poll interval of the watch loop, in milliseconds.
pub const MIN_WATCH_INTERVAL_MS: u64 = 500;

/// The poll interval asked for, raised to the shortest allowed.
pub fn watch_interval_ms(requested_ms: u64) -> (r: u64)
    ensures
        r == if requested_ms < MIN_WATCH_INTERVAL_MS {
            MIN_WATCH_INTERVAL_MS
        } else {
            requested_ms
        },
{
    if requested_ms < MIN_WATCH_INTERVAL_MS {
        MIN_WATCH_INTERVAL_MS
    } else {
        requested_ms
    }
}

/// How often a live watch resyncs without a gap: ten intervals, and never
/// more often than every fifteen seconds.
pub fn resync_period_ms(interval_ms: u64) -> (r: u64)
    requires
        interval_ms <= u64::MAX / 10,
    ensures
        r == if 10 * interval_ms < 15000 {
            15000
        } else {
            10 * interval_ms
        },
{
    if 10 * interval_ms < 15000 {
        15000
    } else {
        10 * interval_ms
    }
}

/// The watch loop between turns: whether the first projection is still to
/// come, and when the last full resync was.
#[derive(Debug, Clone, Copy, PartialEq, Eq)]
pub struct WatchState {
    pub initial: bool,
    pub last_resync_ms: Option<u64>,
}

/// What the outside world did during one turn of an event-driven watch.
#[derive(Debug, Clone, Copy, PartialEq, Eq)]
pub struct WatchTurn {
    pub now_ms: u64,
    /// An event arrived.
    pub got_event: bool,
    /// An event session is held, and it is still alive.
    pub session_open: bool,
    pub session_alive: bool,
    /// A live host with its pump is attached.
    pub live: bool,
}

/// What the loop does after the turn: reopen the event session, and
/// whether the turn counts as a gap (a full resync follows).
#[derive(Debug, Clone, Copy, PartialEq, Eq)]
pub struct WatchStep {
    pub reopen_session: bool,
    pub event_gap: bool,
}

/// A dead session is reopened, which is a gap; a live watch also takes a
/// gap once a resync period has passed since the last one.
pub open spec fn watch_step_spec(s: WatchState, t: WatchTurn, period_ms: u64) -> (WatchState, WatchStep) {
    let reopen = !t.got_event && t.session_open && !t.session_alive;
    let due = t.live && (s.last_resync_ms matches Some(last) && last <= t.now_ms && t.now_ms - last >= period_ms);
    let gap = reopen || due;
    (
        WatchState { initial: s.initial, last_resync_ms: if gap { Some(t.now_ms) } else { s.last_resync_ms } },
        WatchStep { reopen_session: reopen, event_gap: gap },
    )
}

/// One turn of an event-driven watch after the first projection (see
/// [`watch_step_spec`]); the loop performs the step and reports the next
/// turn.
pub fn watch_step(s: &WatchState, t: &WatchTurn, period_ms: u64) -> (r: (WatchState, WatchStep))
    ensures
        r == watch_step_spec(*s, *t, period_ms),
{
    let reopen = !t.got_event && t.session_open && !t.session_alive;
    let due = t.live && match s.last_resync_ms {
        Some(last) => last <= t.now_ms && t.now_ms - last >= period_ms,
        None => false,
    };
    let gap = reopen || due;
    (
        WatchState { initial: s.initial, last_resync_ms: if gap { Some(t.now_ms) } else { s.last_resync_ms } },
        WatchStep { reopen_session: reopen, event_gap: gap },
    )
}

/// The first turn projects everything and starts the resync clock; a turn
/// that failed also ends the first phase.
pub fn watch_first_turn(s: &WatchState, now_ms: u64, ok: bool) -> (r: WatchState)
    ensures
        r == (if ok {
            WatchState { initial: false, last_resync_ms: Some(now_ms) }
        } else {
            WatchState { initial: false, last_resync_ms: s.last_resync_ms }
        }),
{
    if ok {
        WatchState { initial: false, last_resync_ms: Some(now_ms) }
    } else {
        WatchState { initial: false, last_resync_ms: s.last_resync_ms }
    }
}

} // verus!
