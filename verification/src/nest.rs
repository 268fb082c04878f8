//! Nested-workspace support: capability decision and CLI reply parsing.
use vstd::prelude::*;

use crate::json::{json_get, opt_get, opt_ref, Json};
use crate::keys::split_nonempty;
use crate::model::Workspace;
use crate::pump::texts;
use crate::text::{chars_of, is_prefix, is_ws, string_from, trim, trim_bounds, trim_lo, trim_str};

verus! {

/// Which host verbs are available for nesting.
#[derive(Debug, Clone, Copy, PartialEq, Eq)]
pub struct NestCapability {
    pub workspace_group: bool,
    pub new_workspace: bool,
    pub workspace_create: bool,
}

impl NestCapability {
    /// Nesting needs workspace groups and one way to create a workspace.
    pub fn supported(self) -> (r: bool)
        ensures
            r == (self.workspace_group && (self.new_workspace || self.workspace_create)),
    {
        self.workspace_group && (self.new_workspace || self.workspace_create)
    }
}

/// End of the run of non-whitespace characters starting at `i`.
pub open spec fn run_end(s: Seq<char>, i: int) -> int
    decreases s.len() - i,
{
    if 0 <= i < s.len() && !is_ws(s[i]) {
        run_end(s, i + 1)
    } else {
        i
    }
}

/// First whitespace-separated token of `s`, if any.
pub open spec fn first_token(s: Seq<char>) -> Option<Seq<char>> {
    let lo = trim_lo(s);
    if lo < s.len() {
        Some(s.subrange(lo, run_end(s, lo)))
    } else {
        None
    }
}

/// The id in a line `OK <id> ...` or `ok <id> ...`, if the line is one.
pub open spec fn ok_line_id(line: Seq<char>) -> Option<Seq<char>> {
    let l = trim(line);
    if is_prefix("OK "@, l) || is_prefix("ok "@, l) {
        first_token(l.subrange(3, l.len() as int))
    } else {
        None
    }
}

/// The id of the first `OK <id>` line among `lines` from index `i`.
pub open spec fn first_ok_id(lines: Seq<Seq<char>>, i: int) -> Option<Seq<char>>
    decreases lines.len() - i,
{
    if i < 0 || i >= lines.len() {
        None
    } else {
        match ok_line_id(lines[i]) {
            Some(id) => Some(id),
            None => first_ok_id(lines, i + 1),
        }
    }
}

proof fn lemma_run_end(s: Seq<char>, i: int)
    requires
        0 <= i <= s.len(),
    ensures
        i <= run_end(s, i) <= s.len(),
    decreases s.len() - i,
{
    if i < s.len() && !is_ws(s[i]) {
        lemma_run_end(s, i + 1);
    }
}

fn first_token_exec(v: &Vec<char>, lo: usize) -> (r: Option<String>)
    requires
        lo <= v.len(),
    ensures
        crate::text::opt_view(r) == first_token(v@.subrange(lo as int, v@.len() as int)),
{
    let ghost s = v@.subrange(lo as int, v@.len() as int);
    let mut i = lo;
    while i < v.len() && crate::text::char_is_ws(v[i])
        invariant
            lo <= i <= v.len(),
            s == v@.subrange(lo as int, v@.len() as int),
            forall|j: int| 0 <= j < i - lo ==> is_ws(#[trigger] s[j]),
        decreases v.len() - i,
    {
        assert(s[i - lo] == v@[i as int]);
        i += 1;
    }
    proof {
        if i < v.len() {
            assert(s[i - lo] == v@[i as int]);
        }
        crate::text::lemma_trim_lo_unique(s, i - lo);
    }
    if i >= v.len() {
        return None;
    }
    let start = i;
    while i < v.len() && !crate::text::char_is_ws(v[i])
        invariant
            start <= i <= v.len(),
            lo <= start,
            s == v@.subrange(lo as int, v@.len() as int),
            run_end(s, start - lo) == run_end(s, i - lo),
        decreases v.len() - i,
    {
        assert(s[i - lo] == v@[i as int]);
        i += 1;
    }
    proof {
        if i < v.len() {
            assert(s[i - lo] == v@[i as int]);
        }
    }
    let r = string_from(v, start, i);
    assert(r@ =~= s.subrange(start - lo, i - lo));
    Some(r)
}

fn ok_line_id_exec(line: &str) -> (r: Option<String>)
    ensures
        crate::text::opt_view(r) == ok_line_id(line@),
{
    let t = trim_str(line);
    let tv = chars_of(t.as_str());
    if crate::text::str_starts_with(t.as_str(), "OK ") || crate::text::str_starts_with(t.as_str(), "ok ") {
        proof {
            reveal_strlit("OK ");
            reveal_strlit("ok ");
        }
        first_token_exec(&tv, 3)
    } else {
        None
    }
}

/// The id from a host CLI reply such as `OK workspace:abc`.
pub fn parse_ok_id(stdout: &str) -> (r: Option<String>)
    ensures
        crate::text::opt_view(r) == first_ok_id(split_nonempty(stdout@, '\n'), 0),
{
    let v = chars_of(stdout);
    let lines = crate::keys::split_nonempty_exec(&v, '\n');
    let ghost ls = crate::text::strings_view(lines@);
    let mut i: usize = 0;
    while i < lines.len()
        invariant
            i <= lines.len(),
            ls == crate::text::strings_view(lines@),
            v@ == stdout@,
            ls == split_nonempty(stdout@, '\n'),
            first_ok_id(ls, 0) == first_ok_id(ls, i as int),
        decreases lines.len() - i,
    {
        assert(ls[i as int] == lines@[i as int]@);
        match ok_line_id_exec(lines[i].as_str()) {
            Some(id) => {
                return Some(id);
            },
            None => {},
        }
        i += 1;
    }
    None
}

/// The title of a nested workspace: its trimmed label, else its id.
pub open spec fn workspace_title(w: Workspace) -> Seq<char> {
    match w.label {
        Some(l) => if trim(l@).len() > 0 {
            trim(l@)
        } else {
            w.workspace_id@
        },
        None => w.workspace_id@,
    }
}

/// See [`workspace_title`].
pub fn display_name(workspace: &Workspace) -> (r: String)
    ensures
        r@ == workspace_title(*workspace),
{
    match &workspace.label {
        Some(l) => {
            let t = trim_str(l.as_str());
            if !t.as_str().is_empty() {
                return t;
            }
        },
        None => {},
    }
    workspace.workspace_id.clone()
}

/// The first of `keys` holding a non-blank string in `v`, trimmed.
pub open spec fn first_id(v: Option<Json>, keys: Seq<Seq<char>>) -> Option<Seq<char>>
    decreases keys.len(),
{
    if keys.len() == 0 {
        None
    } else {
        match opt_get(v, keys[0]) {
            Some(Json::Str(s)) => if trim(s@).len() > 0 {
                Some(trim(s@))
            } else {
                first_id(v, keys.drop_first())
            },
            _ => first_id(v, keys.drop_first()),
        }
    }
}

/// The id a host reply names: in its `object_key` object first, then at
/// the top level.
pub open spec fn extract_id_spec(payload: Json, object_key: Seq<char>, keys: Seq<Seq<char>>) -> Option<Seq<char>> {
    match first_id(json_get(payload, object_key), keys) {
        Some(id) => Some(id),
        None => first_id(Some(payload), keys),
    }
}

fn first_id_exec(v: Option<&Json>, keys: &Vec<&str>) -> (r: Option<String>)
    ensures
        crate::text::opt_view(r) == first_id(opt_ref(v), texts(keys@)),
{
    let ghost ks = texts(keys@);
    let mut i: usize = 0;
    assert(ks.skip(0) =~= ks);
    while i < keys.len()
        invariant
            i <= keys.len(),
            ks == texts(keys@),
            first_id(opt_ref(v), ks) == first_id(opt_ref(v), ks.skip(i as int)),
        decreases keys.len() - i,
    {
        let ghost rest = ks.skip(i as int);
        assert(rest[0] == keys@[i as int]@);
        assert(rest.drop_first() =~= ks.skip(i + 1));
        let found = match v {
            Some(j) => j.get(keys[i]),
            None => None,
        };
        match found {
            Some(Json::Str(s)) => {
                let t = trim_str(s.as_str());
                if !t.as_str().is_empty() {
                    return Some(t);
                }
            },
            _ => {},
        }
        i += 1;
    }
    assert(ks.skip(keys.len() as int) =~= Seq::<Seq<char>>::empty());
    None
}

/// See [`extract_id_spec`].
pub fn extract_id(payload: &Json, object_key: &str, id_keys: &Vec<&str>) -> (r: Option<String>)
    ensures
        crate::text::opt_view(r) == extract_id_spec(*payload, object_key@, texts(id_keys@)),
{
    match first_id_exec(payload.get(object_key), id_keys) {
        Some(id) => Some(id),
        None => first_id_exec(Some(payload), id_keys),
    }
}

/// What nesting does with one provider workspace.
#[derive(Debug)]
pub enum NestDecision {
    /// A workspace with a blank id is left alone.
    Skip,
    /// A bound host workspace is reused (renamed first when its title
    /// changed) and put in the group again.
    Reuse { herdr_id: String, cmux_id: String, title: String, rename: bool },
    /// An unbound workspace gets a new host workspace in the group.
    Create { herdr_id: String, title: String },
}

/// The decision for `workspace` given its prior binding record.
pub open spec fn nest_decision_ok(d: NestDecision, w: Workspace, prior: Option<Json>) -> bool {
    let id = trim(w.workspace_id@);
    let title = workspace_title(w);
    let cmux = match opt_get(prior, "cmux_workspace_id"@) {
        Some(Json::Str(s)) => if trim(s@).len() > 0 {
            Some(trim(s@))
        } else {
            None
        },
        _ => None,
    };
    let prior_title = match opt_get(prior, "title"@) {
        Some(Json::Str(s)) => s@,
        _ => Seq::empty(),
    };
    if id.len() == 0 {
        d is Skip
    } else {
        match cmux {
            Some(c) => d matches NestDecision::Reuse { herdr_id, cmux_id, title: t, rename } && herdr_id@
                == id && cmux_id@ == c && t@ == title && rename == (prior_title != title),
            None => d matches NestDecision::Create { herdr_id, title: t } && herdr_id@ == id && t@
                == title,
        }
    }
}

/// Decide what nesting does with one workspace (see [`NestDecision`]).
pub fn nest_decision(workspace: &Workspace, prior: Option<&Json>) -> (r: NestDecision)
    ensures
        nest_decision_ok(r, *workspace, opt_ref(prior)),
{
    let id = trim_str(workspace.workspace_id.as_str());
    if id.as_str().is_empty() {
        return NestDecision::Skip;
    }
    let title = display_name(workspace);
    let cmux: Option<String> = match prior {
        Some(p) => match p.get("cmux_workspace_id") {
            Some(Json::Str(s)) => {
                let t = trim_str(s.as_str());
                if t.as_str().is_empty() {
                    None
                } else {
                    Some(t)
                }
            },
            _ => None,
        },
        None => None,
    };
    let prior_title: &str = match prior {
        Some(p) => match p.get("title") {
            Some(Json::Str(s)) => s.as_str(),
            _ => "",
        },
        None => "",
    };
    proof {
        reveal_strlit("");
    }
    match cmux {
        Some(c) => {
            let rename = !crate::text::str_eq(prior_title, title.as_str());
            NestDecision::Reuse { herdr_id: id, cmux_id: c, title, rename }
        },
        None => NestDecision::Create { herdr_id: id, title },
    }
}


/// The tally of a nesting pass: whether every step succeeded, which
/// provider workspaces got a new host workspace, were reused, renamed or
/// pruned, and the errors met.
#[derive(Debug, Clone, PartialEq, Eq)]
pub struct NestTally {
    pub ok: bool,
    pub created: Vec<String>,
    pub reused: Vec<String>,
    pub renamed: Vec<String>,
    pub pruned: Vec<String>,
    pub errors: Vec<String>,
}

/// A tally as values.
#[verifier::ext_equal]
pub struct TallyView {
    pub ok: bool,
    pub created: Seq<Seq<char>>,
    pub reused: Seq<Seq<char>>,
    pub renamed: Seq<Seq<char>>,
    pub pruned: Seq<Seq<char>>,
    pub errors: Seq<Seq<char>>,
}

pub open spec fn tally_view(t: NestTally) -> TallyView {
    TallyView {
        ok: t.ok,
        created: crate::text::strings_view(t.created@),
        reused: crate::text::strings_view(t.reused@),
        renamed: crate::text::strings_view(t.renamed@),
        pruned: crate::text::strings_view(t.pruned@),
        errors: crate::text::strings_view(t.errors@),
    }
}

/// What the outside work of a decision came to.
#[derive(Debug)]
pub enum NestOutcome {
    /// A reuse: the rename (when one was asked for) and the regrouping.
    Reused { rename: Option<Result<(), String>>, grouped: Result<(), String> },
    /// A creation: the new host workspace's id, or the error.
    Created(Result<String, String>),
}

pub open spec fn err_of(r: Option<Result<(), String>>) -> Seq<Seq<char>> {
    match r {
        Some(Err(e)) => seq![e@],
        _ => Seq::empty(),
    }
}

/// The tally after a decision's outside work, and the host workspace now
/// bound: a reuse counts as reused (and renamed when the rename went
/// through) and keeps its binding, its errors noted; a creation binds the
/// new workspace, or notes its error and binds nothing.
pub open spec fn nest_step_spec(t: TallyView, d: NestDecision, o: NestOutcome) -> (TallyView, Option<Seq<char>>) {
    match (d, o) {
        (NestDecision::Reuse { herdr_id, cmux_id, .. }, NestOutcome::Reused { rename, grouped }) => {
            let errs = err_of(rename) + err_of(Some(grouped));
            (
                TallyView {
                    ok: t.ok && errs.len() == 0,
                    created: t.created,
                    reused: t.reused.push(herdr_id@),
                    renamed: if rename matches Some(Ok(_)) {
                        t.renamed.push(herdr_id@)
                    } else {
                        t.renamed
                    },
                    pruned: t.pruned,
                    errors: t.errors + errs,
                },
                Some(cmux_id@),
            )
        },
        (NestDecision::Create { herdr_id, .. }, NestOutcome::Created(Ok(id))) => (
            TallyView { created: t.created.push(herdr_id@), ..t },
            Some(id@),
        ),
        (NestDecision::Create { .. }, NestOutcome::Created(Err(e))) => (
            TallyView { ok: false, errors: t.errors.push(e@), ..t },
            None,
        ),
        _ => (t, None),
    }
}

/// Record a decision's outside work in the tally (see [`nest_step_spec`]);
/// returns the host workspace now bound.
pub fn nest_step(t: &mut NestTally, d: &NestDecision, o: &NestOutcome) -> (r: Option<String>)
    ensures
        (tally_view(*final(t)), crate::text::opt_view(r)) == nest_step_spec(tally_view(*old(t)), *d, *o),
{
    let ghost t0 = tally_view(*t);
    match (d, o) {
        (NestDecision::Reuse { herdr_id, cmux_id, .. }, NestOutcome::Reused { rename, grouped }) => {
            let ghost e0 = t.errors@;
            let ghost r0 = t.renamed@;
            match rename {
                Some(Ok(())) => {
                    t.renamed.push(herdr_id.clone());
                },
                Some(Err(e)) => {
                    t.errors.push(e.clone());
                    t.ok = false;
                },
                None => {},
            }
            match grouped {
                Ok(()) => {},
                Err(e) => {
                    t.errors.push(e.clone());
                    t.ok = false;
                },
            }
            let ghost u0 = t.reused@;
            t.reused.push(herdr_id.clone());
            proof {
                assert(crate::text::strings_view(t.reused@) =~= crate::text::strings_view(u0).push(herdr_id@));
                assert(crate::text::strings_view(t.errors@) =~= crate::text::strings_view(e0) + err_of(*rename) + err_of(Some(*grouped)));
                assert(crate::text::strings_view(t.renamed@) =~= if rename matches Some(Ok(_)) {
                    crate::text::strings_view(r0).push(herdr_id@)
                } else {
                    crate::text::strings_view(r0)
                });
                assert(tally_view(*t) =~= nest_step_spec(t0, *d, *o).0);
            }
            Some(cmux_id.clone())
        },
        (NestDecision::Create { herdr_id, .. }, NestOutcome::Created(Ok(id))) => {
            t.created.push(herdr_id.clone());
            assert(crate::text::strings_view(t.created@) =~= t0.created.push(herdr_id@));
            assert(tally_view(*t) =~= nest_step_spec(t0, *d, *o).0);
            Some(id.clone())
        },
        (NestDecision::Create { .. }, NestOutcome::Created(Err(e))) => {
            t.errors.push(e.clone());
            t.ok = false;
            assert(crate::text::strings_view(t.errors@) =~= t0.errors.push(e@));
            assert(tally_view(*t) =~= nest_step_spec(t0, *d, *o).0);
            None
        },
        _ => None,
    }
}

/// Record the pruning of a stale binding: a binding without a host
/// workspace is dropped at once; otherwise it is dropped once its host
/// workspace closed, and the close error is noted when it did not.
/// Returns whether the binding goes.
pub fn nest_prune(t: &mut NestTally, herdr_id: &str, closed: Option<Result<(), String>>) -> (r: bool)
    ensures
        r == !(closed matches Some(Err(_))),
        tally_view(*final(t)) == (match closed {
            Some(Err(e)) => TallyView { ok: false, errors: tally_view(*old(t)).errors.push(e@), ..tally_view(*old(t)) },
            _ => TallyView { pruned: tally_view(*old(t)).pruned.push(herdr_id@), ..tally_view(*old(t)) },
        }),
{
    let ghost t0 = tally_view(*t);
    match closed {
        Some(Err(e)) => {
            let ghost ev = e@;
            t.errors.push(e);
            t.ok = false;
            assert(crate::text::strings_view(t.errors@) =~= t0.errors.push(ev));
            false
        },
        _ => {
            t.pruned.push(crate::text::owned(herdr_id));
            assert(crate::text::strings_view(t.pruned@) =~= t0.pruned.push(herdr_id@));
            true
        },
    }
}

} // verus!
