//! The decisions of a status sync: which panes get a pill, how they are
//! counted, which pills are stale, and the summary line.
use vstd::prelude::*;

use crate::doctor::{has_agent, known_status};
use crate::assoc::unique;
use crate::json::{json_get, truthy, Json};
use crate::layout::join;
use crate::model::{Pane, Tab};
use crate::state::{prior_for_pane, prior_spec};
use crate::status::{
    holds_int, holds_str, locked_title, parent_tab, pill_parts, prior_get, should_write_status_pill, status_key,
    status_write_payload, style_for, StatusPayload,
};
use crate::status::{to_lowercase, unicode_lower};
use crate::text::{concat2, concat3, dec_nat, nat_to_string, opt_view, owned, str_eq, strings_view};

verus! {

/// The panes a sync writes pills for, by position: those that name an
/// agent, or, when none does, those whose status is one of the four states.
pub open spec fn chosen(ps: Seq<Pane>, named: bool) -> Seq<int>
    decreases ps.len(),
{
    if ps.len() == 0 {
        Seq::empty()
    } else if (if named {
        has_agent(ps.last())
    } else {
        known_status(ps.last().agent_status@)
    }) {
        chosen(ps.drop_last(), named).push(ps.len() - 1)
    } else {
        chosen(ps.drop_last(), named)
    }
}

pub open spec fn sync_positions(ps: Seq<Pane>) -> Seq<int> {
    if chosen(ps, true).len() > 0 {
        chosen(ps, true)
    } else {
        chosen(ps, false)
    }
}

fn choose_positions(ps: &Vec<Pane>, named: bool) -> (r: Vec<usize>)
    ensures
        r@.map_values(|i: usize| i as int) == chosen(ps@, named),
{
    let mut out: Vec<usize> = Vec::new();
    let mut i: usize = 0;
    while i < ps.len()
        invariant
            i <= ps.len(),
            out@.map_values(|k: usize| k as int) == chosen(ps@.take(i as int), named),
        decreases ps.len() - i,
    {
        assert(ps@.take(i + 1).drop_last() =~= ps@.take(i as int));
        assert(ps@.take(i + 1).last() == ps@[i as int]);
        let p = &ps[i];
        let take = if named {
            match &p.agent {
                Some(a) => !a.as_str().is_empty(),
                None => false,
            }
        } else {
            let st = p.agent_status.as_str();
            str_eq(st, "working") || str_eq(st, "idle") || str_eq(st, "done") || str_eq(st, "blocked")
        };
        if take {
            let ghost o = out@;
            out.push(i);
            assert(out@.map_values(|k: usize| k as int) =~= o.map_values(|k: usize| k as int).push(i as int));
        }
        i += 1;
    }
    assert(ps@.take(ps@.len() as int) =~= ps@);
    out
}

/// The positions of the panes a sync writes pills for (see
/// [`sync_positions`]), in order.
pub fn sync_pane_positions(panes: &Vec<Pane>) -> (r: Vec<usize>)
    ensures
        r@.map_values(|i: usize| i as int) == sync_positions(panes@),
{
    let named = choose_positions(panes, true);
    if named.len() > 0 {
        named
    } else {
        choose_positions(panes, false)
    }
}

/// The counter a status goes to: its Unicode lower-cased form when that is
/// one of the four states or `unknown`, else `other`.
pub open spec fn bucket(status: Seq<char>) -> Seq<char> {
    let l = unicode_lower(status);
    if known_status(l) || l == "unknown"@ {
        l
    } else {
        "other"@
    }
}

/// How many of `ss` fall in bucket `b`.
pub open spec fn bucket_count(ss: Seq<Seq<char>>, b: Seq<char>) -> nat
    decreases ss.len(),
{
    if ss.len() == 0 {
        0
    } else {
        bucket_count(ss.drop_last(), b) + if bucket(ss.last()) == b {
            1nat
        } else {
            0nat
        }
    }
}

/// The statuses of the chosen panes.
pub open spec fn chosen_statuses(ps: Seq<Pane>, pos: Seq<int>) -> Seq<Seq<char>> {
    pos.map_values(|i: int| ps[i].agent_status@)
}

/// The counts of a sync: working, idle, done, blocked, unknown, other.
#[derive(Debug, Clone, Copy, PartialEq, Eq)]
pub struct SyncCounts {
    pub working: usize,
    pub idle: usize,
    pub done: usize,
    pub blocked: usize,
    pub unknown: usize,
    pub other: usize,
}

pub open spec fn counts_match(c: SyncCounts, ss: Seq<Seq<char>>) -> bool {
    &&& c.working == bucket_count(ss, "working"@)
    &&& c.idle == bucket_count(ss, "idle"@)
    &&& c.done == bucket_count(ss, "done"@)
    &&& c.blocked == bucket_count(ss, "blocked"@)
    &&& c.unknown == bucket_count(ss, "unknown"@)
    &&& c.other == bucket_count(ss, "other"@)
}

proof fn lemma_bucket_step(ss: Seq<Seq<char>>, k: int, x: Seq<char>)
    requires
        0 <= k < ss.len(),
    ensures
        bucket_count(ss.take(k + 1), x) == bucket_count(ss.take(k), x) + if bucket(ss[k]) == x {
            1nat
        } else {
            0nat
        },
{
    assert(ss.take(k + 1).drop_last() =~= ss.take(k));
    assert(ss.take(k + 1).last() == ss[k]);
}

fn bucket_exec(status: &str) -> (r: String)
    ensures
        r@ == bucket(status@),
{
    let l = to_lowercase(status);
    let t = l.as_str();
    if str_eq(t, "working") || str_eq(t, "idle") || str_eq(t, "done") || str_eq(t, "blocked") || str_eq(t, "unknown") {
        l
    } else {
        owned("other")
    }
}

/// The counts of the statuses of the panes at `positions`.
pub fn sync_counts(panes: &Vec<Pane>, positions: &Vec<usize>) -> (r: SyncCounts)
    requires
        forall|k: int| 0 <= k < positions@.len() ==> positions@[k] < panes@.len(),
    ensures
        counts_match(r, chosen_statuses(panes@, positions@.map_values(|i: usize| i as int))),
{
    let ghost pos = positions@.map_values(|i: usize| i as int);
    let ghost ss = chosen_statuses(panes@, pos);
    let mut c = SyncCounts { working: 0, idle: 0, done: 0, blocked: 0, unknown: 0, other: 0 };
    let mut k: usize = 0;
    while k < positions.len()
        invariant
            k <= positions.len(),
            pos == positions@.map_values(|i: usize| i as int),
            ss == chosen_statuses(panes@, pos),
            forall|q: int| 0 <= q < positions@.len() ==> positions@[q] < panes@.len(),
            counts_match(c, ss.take(k as int)),
            c.working + c.idle + c.done + c.blocked + c.unknown + c.other <= k,
        decreases positions.len() - k,
    {
        assert(ss.take(k + 1).drop_last() =~= ss.take(k as int));
        assert(ss.take(k + 1).last() == panes@[positions@[k as int] as int].agent_status@);
        let b = bucket_exec(panes[positions[k]].agent_status.as_str());
        let s = b.as_str();
        proof {
            reveal_strlit("working");
            reveal_strlit("idle");
            reveal_strlit("done");
            reveal_strlit("blocked");
            reveal_strlit("unknown");
            reveal_strlit("other");
            assert(ss[k as int] == panes@[positions@[k as int] as int].agent_status@);
            assert("done"@[0] != "idle"@[0]);
            assert("blocked"@[0] != "working"@[0]);
            assert("unknown"@[0] != "working"@[0]);
            assert("unknown"@[0] != "blocked"@[0]);
            assert(b@ == bucket(ss[k as int]));
            lemma_bucket_step(ss, k as int, "working"@);
            lemma_bucket_step(ss, k as int, "idle"@);
            lemma_bucket_step(ss, k as int, "done"@);
            lemma_bucket_step(ss, k as int, "blocked"@);
            lemma_bucket_step(ss, k as int, "unknown"@);
            lemma_bucket_step(ss, k as int, "other"@);
        }
        if str_eq(s, "working") {
            c.working = c.working + 1;
        } else if str_eq(s, "idle") {
            c.idle = c.idle + 1;
        } else if str_eq(s, "done") {
            c.done = c.done + 1;
        } else if str_eq(s, "blocked") {
            c.blocked = c.blocked + 1;
        } else if str_eq(s, "unknown") {
            c.unknown = c.unknown + 1;
        } else {
            c.other = c.other + 1;
        }
        assert(c.working == bucket_count(ss.take(k + 1), "working"@));
        assert(c.idle == bucket_count(ss.take(k + 1), "idle"@));
        assert(c.done == bucket_count(ss.take(k + 1), "done"@));
        assert(c.blocked == bucket_count(ss.take(k + 1), "blocked"@));
        assert(c.unknown == bucket_count(ss.take(k + 1), "unknown"@));
        assert(c.other == bucket_count(ss.take(k + 1), "other"@));
        k += 1;
    }
    assert(ss.take(positions@.len() as int) =~= ss);
    c
}

/// The pills to clear: the listed keys that are not wanted, in order.
pub open spec fn stale_keys_spec(listed: Seq<Seq<char>>, wanted: Seq<Seq<char>>) -> Seq<Seq<char>>
    decreases listed.len(),
{
    if listed.len() == 0 {
        Seq::empty()
    } else if wanted.contains(listed.last()) {
        stale_keys_spec(listed.drop_last(), wanted)
    } else {
        stale_keys_spec(listed.drop_last(), wanted).push(listed.last())
    }
}

/// The listed pill keys that no chosen pane wants.
pub fn stale_keys(listed: &Vec<String>, wanted: &Vec<String>) -> (r: Vec<String>)
    ensures
        strings_view(r@) == stale_keys_spec(strings_view(listed@), strings_view(wanted@)),
{
    let ghost lv = strings_view(listed@);
    let mut out: Vec<String> = Vec::new();
    let mut i: usize = 0;
    while i < listed.len()
        invariant
            i <= listed.len(),
            lv == strings_view(listed@),
            strings_view(out@) == stale_keys_spec(lv.take(i as int), strings_view(wanted@)),
        decreases listed.len() - i,
    {
        assert(lv.take(i + 1).drop_last() =~= lv.take(i as int));
        assert(lv.take(i + 1).last() == listed@[i as int]@);
        if !crate::text::contains_str(wanted, listed[i].as_str()) {
            let ghost o = out@;
            out.push(listed[i].clone());
            assert(strings_view(out@) =~= strings_view(o).push(listed@[i as int]@));
        }
        i += 1;
    }
    assert(lv.take(listed@.len() as int) =~= lv);
    out
}

/// The summary line of a sync.
pub open spec fn sync_summary_spec(applied: nat, workspace: Seq<char>, c: SyncCounts, unchanged: nat) -> Seq<char> {
    "herdr sync: "@ + dec_nat(applied) + " panes → cmux ws="@ + workspace + " (working="@ + dec_nat(
        c.working as nat,
    ) + " idle="@ + dec_nat(c.idle as nat) + " done="@ + dec_nat(c.done as nat) + " blocked="@ + dec_nat(
        c.blocked as nat,
    ) + " unknown="@ + dec_nat(c.unknown as nat) + (if unchanged == 0 {
        Seq::empty()
    } else {
        " unchanged="@ + dec_nat(unchanged)
    }) + ")"@
}

fn push_count(s: &mut String, label: &str, n: usize)
    ensures
        final(s)@ == old(s)@ + label@ + dec_nat(n as nat),
{
    s.append(label);
    s.append(nat_to_string(n as u64).as_str());
}

/// The summary line of a sync (see [`sync_summary_spec`]).
pub fn sync_summary(applied: usize, workspace: &str, c: &SyncCounts, unchanged: usize) -> (r: String)
    ensures
        r@ == sync_summary_spec(applied as nat, workspace@, *c, unchanged as nat),
{
    let mut s = concat3("herdr sync: ", nat_to_string(applied as u64).as_str(), " panes → cmux ws=");
    s.append(workspace);
    push_count(&mut s, " (working=", c.working);
    push_count(&mut s, " idle=", c.idle);
    push_count(&mut s, " done=", c.done);
    push_count(&mut s, " blocked=", c.blocked);
    push_count(&mut s, " unknown=", c.unknown);
    if unchanged > 0 {
        push_count(&mut s, " unchanged=", unchanged);
    }
    s.append(")");
    assert(s@ =~= sync_summary_spec(applied as nat, workspace@, *c, unchanged as nat));
    s
}


// ---- the sync plan ----------------------------------------------------------------

proof fn lemma_chosen_bounds(ps: Seq<Pane>, named: bool)
    ensures
        forall|k: int| 0 <= k < chosen(ps, named).len() ==> 0 <= #[trigger] chosen(ps, named)[k] < ps.len(),
    decreases ps.len(),
{
    if ps.len() > 0 {
        lemma_chosen_bounds(ps.drop_last(), named);
        let c0 = chosen(ps.drop_last(), named);
        let c = chosen(ps, named);
        assert forall|k: int| 0 <= k < c.len() implies 0 <= #[trigger] c[k] < ps.len() by {
            if k < c0.len() {
                assert(c[k] == c0[k]);
            }
        }
    }
}

proof fn lemma_positions_bounds(ps: Seq<Pane>)
    ensures
        forall|k: int| 0 <= k < sync_positions(ps).len() ==> 0 <= #[trigger] sync_positions(ps)[k] < ps.len(),
{
    lemma_chosen_bounds(ps, true);
    lemma_chosen_bounds(ps, false);
}

/// `p` is the pill of `pane` given its tabs and prior record (see
/// [`status_write_payload`]).
pub open spec fn pill_of(p: StatusPayload, pane: Pane, tabs: Seq<(String, Tab)>, prior: Option<Json>) -> bool {
    &&& p.value@ == join(pill_parts(pane, Some(tabs), locked_title(prior), parent_tab(prior)), " \u{b7} "@)
    &&& (p.icon@, p.color@, p.priority as int) == style_for(status_key(Some(pane.agent_status@)))
    &&& p.title_lock == truthy(prior_get(prior, "title_lock"@))
    &&& opt_view(p.locked_title) == locked_title(prior)
}

/// Whether the pill `p` must be written over the prior record (see
/// [`should_write_status_pill`]).
pub open spec fn pill_due(p: StatusPayload, prior: Option<Json>) -> bool {
    match prior {
        Some(j) => if j is Object {
            !(holds_str(json_get(j, "last_status_value"@), p.value@) && holds_str(json_get(j, "last_icon"@), p.icon@)
                && holds_str(json_get(j, "last_color"@), p.color@) && holds_int(
                json_get(j, "last_priority"@),
                p.priority,
            ))
        } else {
            true
        },
        None => true,
    }
}

/// One pane of a sync: where it stands among the panes, its pill key, its
/// pill, and whether the pill must be written.
#[derive(Debug)]
pub struct SyncItem {
    pub position: usize,
    pub key: String,
    pub payload: StatusPayload,
    pub write: bool,
}

/// The plan of a status sync over `panes`: for each pane that gets a pill
/// (see [`sync_positions`]), in order, its key, its pill given the `tabs` and
/// its prior record in `previous`, and whether it must be written; and the
/// counts of their statuses.
pub fn sync_plan(panes: &Vec<Pane>, tabs: &Vec<(String, Tab)>, previous: &Json) -> (r: (Vec<SyncItem>, SyncCounts))
    requires
        unique(tabs@),
    ensures
        r.0@.len() == sync_positions(panes@).len(),
        forall|k: int|
            0 <= k < r.0@.len() ==> {
                let i = sync_positions(panes@)[k];
                let it = #[trigger] r.0@[k];
                &&& it.position as int == i
                &&& it.key@ == "herdr:"@ + panes@[i].pane_id@
                &&& pill_of(it.payload, panes@[i], tabs@, prior_spec(panes@[i], *previous))
                &&& it.write == pill_due(it.payload, prior_spec(panes@[i], *previous))
            },
        counts_match(r.1, chosen_statuses(panes@, sync_positions(panes@))),
{
    let positions = sync_pane_positions(panes);
    let ghost pos = positions@.map_values(|i: usize| i as int);
    proof {
        lemma_positions_bounds(panes@);
        assert forall|k: int| 0 <= k < positions@.len() implies positions@[k] < panes@.len() by {
            assert(pos[k] == positions@[k] as int);
        }
    }
    let counts = sync_counts(panes, &positions);
    let mut items: Vec<SyncItem> = Vec::new();
    let mut k: usize = 0;
    while k < positions.len()
        invariant
            k <= positions.len(),
            unique(tabs@),
            pos == positions@.map_values(|i: usize| i as int),
            pos == sync_positions(panes@),
            forall|j: int| 0 <= j < positions@.len() ==> positions@[j] < panes@.len(),
            items@.len() == k,
            forall|j: int|
                0 <= j < k ==> {
                    let i = sync_positions(panes@)[j];
                    let it = #[trigger] items@[j];
                    &&& it.position as int == i
                    &&& it.key@ == "herdr:"@ + panes@[i].pane_id@
                    &&& pill_of(it.payload, panes@[i], tabs@, prior_spec(panes@[i], *previous))
                    &&& it.write == pill_due(it.payload, prior_spec(panes@[i], *previous))
                },
        decreases positions.len() - k,
    {
        let i = positions[k];
        assert(pos[k as int] == i as int);
        let pane = &panes[i];
        let prior = prior_for_pane(pane, previous);
        let payload = status_write_payload(pane, Some(tabs), prior);
        let write = should_write_status_pill(&payload, prior);
        let key = pane.status_key();
        items.push(SyncItem { position: i, key, payload, write });
        k += 1;
    }
    (items, counts)
}

} // verus!
