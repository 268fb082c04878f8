//! The human-readable topology tree: workspaces, their tabs (numbered tabs
//! first, by number then id; each tab id once) and each tab's panes (the
//! focused pane first, then by id).
use vstd::prelude::*;

use crate::layout::{by_keys, join, lemma_sorted_positions};
use crate::model::{Pane, Snapshot, Tab, Workspace};
use crate::order::{keys_view, sort_keys};
use crate::text::{concat2, dec_int, int_to_string, owned, str_eq, strings_view};

verus! {

/// The values behind a sequence of references.
pub open spec fn refs<T>(s: Seq<&T>) -> Seq<T> {
    s.map_values(|p: &T| *p)
}

/// A label, else the id.
pub open spec fn or_id(label: Option<String>, id: Seq<char>) -> Seq<char> {
    match label {
        Some(l) => l@,
        None => id,
    }
}

/// A count that the record states, else the number found.
pub open spec fn stated_or(stated: i64, found: int) -> int {
    if stated != 0 {
        stated as int
    } else {
        found
    }
}

pub open spec fn ws_line(w: Workspace, n_tabs: int) -> Seq<char> {
    (if w.focused {
        "\u{25cf}"@
    } else {
        "\u{25cb}"@
    }) + " workspace "@ + w.workspace_id@ + "  "@ + or_id(w.label, w.workspace_id@) + "  ["@ + w.agent_status@
        + "] tabs="@ + dec_int(stated_or(w.tab_count, n_tabs)) + " panes="@ + dec_int(w.pane_count as int)
}

pub open spec fn tab_line(t: Tab, n_panes: int) -> Seq<char> {
    "  "@ + (if t.focused {
        "\u{25b6}"@
    } else {
        "\u{b7}"@
    }) + " tab "@ + t.tab_id@ + "  "@ + or_id(t.label, t.tab_id@) + "  ["@ + t.agent_status@ + "] panes="@
        + dec_int(stated_or(t.pane_count, n_panes))
}

pub open spec fn pane_line(p: Pane) -> Seq<char> {
    "    "@ + (if p.focused {
        "\u{25b6}"@
    } else {
        "\u{b7}"@
    }) + " pane "@ + p.pane_id@ + "  "@ + or_id(p.label, p.pane_id@) + "  ["@ + p.agent_status@ + "]  "@
        + match p.agent {
        Some(a) => a@,
        None => "-"@,
    }
}

/// The tabs of a workspace, in snapshot order.
pub open spec fn ws_tabs(ts: Seq<Tab>, wid: Seq<char>) -> Seq<Tab> {
    ts.filter(|t: Tab| t.workspace_id@ == wid)
}

/// The panes of a tab, in snapshot order.
pub open spec fn tab_panes(ps: Seq<Pane>, tid: Seq<char>) -> Seq<Pane> {
    ps.filter(|p: Pane| p.tab_id@ == tid)
}

pub open spec fn sorted_by_keys<T>(s: Seq<T>, ks: Seq<(int, Seq<char>, int)>) -> Seq<T> {
    Seq::new(s.len(), |i: int| s[by_keys(ks)[i].2])
}

pub open spec fn number_keys(s: Seq<Tab>) -> Seq<(int, Seq<char>, int)> {
    Seq::new(s.len(), |i: int| (s[i].number.unwrap() as int, s[i].tab_id@, i))
}

pub open spec fn tab_id_keys(s: Seq<Tab>) -> Seq<(int, Seq<char>, int)> {
    Seq::new(s.len(), |i: int| (0int, s[i].tab_id@, i))
}

pub open spec fn pane_keys(s: Seq<Pane>) -> Seq<(int, Seq<char>, int)> {
    Seq::new(
        s.len(),
        |i: int|
            (
                if s[i].focused {
                    0int
                } else {
                    1int
                },
                s[i].pane_id@,
                i,
            ),
    )
}

/// Numbered tabs by number then id, then the others by id (stable).
pub open spec fn ordered_tabs(s: Seq<Tab>) -> Seq<Tab> {
    let numbered = s.filter(|t: Tab| t.number is Some);
    let unnumbered = s.filter(|t: Tab| t.number is None);
    sorted_by_keys(numbered, number_keys(numbered)) + sorted_by_keys(unnumbered, tab_id_keys(unnumbered))
}

/// The focused pane first, then by id (stable).
pub open spec fn ordered_panes(s: Seq<Pane>) -> Seq<Pane> {
    sorted_by_keys(s, pane_keys(s))
}

/// The first tab of each id, in order.
pub open spec fn first_tabs(s: Seq<Tab>) -> Seq<Tab>
    decreases s.len(),
{
    if s.len() == 0 {
        Seq::empty()
    } else if (exists|k: int| 0 <= k < s.len() - 1 && #[trigger] s[k].tab_id@ == s.last().tab_id@) {
        first_tabs(s.drop_last())
    } else {
        first_tabs(s.drop_last()).push(s.last())
    }
}

pub open spec fn tab_block(ps: Seq<Pane>, t: Tab) -> Seq<Seq<char>> {
    let mine = tab_panes(ps, t.tab_id@);
    seq![tab_line(t, mine.len() as int)] + ordered_panes(mine).map_values(|p: Pane| pane_line(p))
}

pub open spec fn tabs_block(ps: Seq<Pane>, ts: Seq<Tab>) -> Seq<Seq<char>>
    decreases ts.len(),
{
    if ts.len() == 0 {
        Seq::empty()
    } else {
        tabs_block(ps, ts.drop_last()) + tab_block(ps, ts.last())
    }
}

pub open spec fn ws_block(ps: Seq<Pane>, ts: Seq<Tab>, w: Workspace) -> Seq<Seq<char>> {
    let mine = ws_tabs(ts, w.workspace_id@);
    seq![ws_line(w, mine.len() as int)] + tabs_block(ps, first_tabs(ordered_tabs(mine)))
}

/// The lines of the tree, workspace by workspace.
pub open spec fn tree_lines(ps: Seq<Pane>, ts: Seq<Tab>, ws: Seq<Workspace>) -> Seq<Seq<char>>
    decreases ws.len(),
{
    if ws.len() == 0 {
        Seq::empty()
    } else {
        tree_lines(ps, ts, ws.drop_last()) + ws_block(ps, ts, ws.last())
    }
}

/// The rendered tree (a placeholder line when there is nothing to show).
pub open spec fn format_tree_spec(s: Snapshot) -> Seq<char> {
    let lines = tree_lines(s.panes@, s.tabs@, s.workspaces@);
    if lines.len() == 0 {
        "(no herdr workspaces/panes)"@
    } else {
        join(lines, "\n"@)
    }
}

fn or_id_exec<'a>(label: &'a Option<String>, id: &'a str) -> (r: &'a str)
    ensures
        r@ == or_id(*label, id@),
{
    match label {
        Some(l) => l.as_str(),
        None => id,
    }
}

fn cat(parts: &Vec<&str>) -> (r: String)
    ensures
        r@ == parts@.map_values(|s: &str| s@).fold_left(Seq::<char>::empty(), |acc: Seq<char>, x: Seq<char>| acc + x),
{
    let mut out = String::new();
    let mut i: usize = 0;
    proof {
        reveal_strlit("");
    }
    while i < parts.len()
        invariant
            i <= parts.len(),
            out@ == parts@.map_values(|s: &str| s@).take(i as int).fold_left(
                Seq::<char>::empty(),
                |acc: Seq<char>, x: Seq<char>| acc + x,
            ),
        decreases parts.len() - i,
    {
        let ghost t = parts@.map_values(|s: &str| s@).take(i + 1);
        assert(t.drop_last() =~= parts@.map_values(|s: &str| s@).take(i as int));
        out = concat2(out.as_str(), parts[i]);
        i += 1;
    }
    assert(parts@.map_values(|s: &str| s@).take(parts.len() as int) =~= parts@.map_values(|s: &str| s@));
    out
}

fn ws_line_exec(w: &Workspace, n_tabs: i64) -> (r: String)
    ensures
        r@ == ws_line(*w, n_tabs as int),
{
    let mark = if w.focused {
        "\u{25cf}"
    } else {
        "\u{25cb}"
    };
    let tabs = int_to_string(if w.tab_count != 0 {
        w.tab_count
    } else {
        n_tabs
    });
    let panes = int_to_string(w.pane_count);
    let parts = vec![
        mark,
        " workspace ",
        w.workspace_id.as_str(),
        "  ",
        or_id_exec(&w.label, w.workspace_id.as_str()),
        "  [",
        w.agent_status.as_str(),
        "] tabs=",
        tabs.as_str(),
        " panes=",
        panes.as_str(),
    ];
    let r = cat(&parts);
    proof {
        reveal_with_fuel(Seq::fold_left, 12);
        assert(r@ == ws_line(*w, n_tabs as int));
    }
    r
}

fn tab_line_exec(t: &Tab, n_panes: i64) -> (r: String)
    ensures
        r@ == tab_line(*t, n_panes as int),
{
    let mark = if t.focused {
        "\u{25b6}"
    } else {
        "\u{b7}"
    };
    let panes = int_to_string(if t.pane_count != 0 {
        t.pane_count
    } else {
        n_panes
    });
    let parts = vec![
        "  ",
        mark,
        " tab ",
        t.tab_id.as_str(),
        "  ",
        or_id_exec(&t.label, t.tab_id.as_str()),
        "  [",
        t.agent_status.as_str(),
        "] panes=",
        panes.as_str(),
    ];
    let r = cat(&parts);
    proof {
        reveal_with_fuel(Seq::fold_left, 11);
        assert(r@ == tab_line(*t, n_panes as int));
    }
    r
}

fn pane_line_exec(p: &Pane) -> (r: String)
    ensures
        r@ == pane_line(*p),
{
    let mark = if p.focused {
        "\u{25b6}"
    } else {
        "\u{b7}"
    };
    let agent: &str = match &p.agent {
        Some(a) => a.as_str(),
        None => "-",
    };
    let parts = vec![
        "    ",
        mark,
        " pane ",
        p.pane_id.as_str(),
        "  ",
        or_id_exec(&p.label, p.pane_id.as_str()),
        "  [",
        p.agent_status.as_str(),
        "]  ",
        agent,
    ];
    let r = cat(&parts);
    proof {
        reveal_with_fuel(Seq::fold_left, 11);
        assert(r@ == pane_line(*p));
    }
    r
}

/// The positions of keys in ascending order.
fn sorted_positions(keys: &Vec<(i64, String, u64)>) -> (r: Vec<usize>)
    requires
        forall|j: int| 0 <= j < keys@.len() ==> (#[trigger] keys_view(keys@)[j]).2 == j,
    ensures
        r@.len() == keys@.len(),
        forall|j: int|
            0 <= j < keys@.len() ==> r@[j] == (#[trigger] by_keys(keys_view(keys@))[j]).2 && r@[j] < keys@.len(),
{
    let sorted = sort_keys(keys);
    proof {
        lemma_sorted_positions(keys_view(keys@), keys@.len() as int);
    }
    let mut out: Vec<usize> = Vec::new();
    let mut j: usize = 0;
    while j < sorted.len()
        invariant
            j <= sorted.len(),
            keys_view(sorted@) == by_keys(keys_view(keys@)),
            sorted.len() == keys.len(),
            forall|k: int| 0 <= k < keys@.len() ==> 0 <= (#[trigger] by_keys(keys_view(keys@))[k]).2 < keys@.len(),
            out@.len() == j,
            forall|k: int| 0 <= k < j ==> out@[k] == (#[trigger] by_keys(keys_view(keys@))[k]).2 && out@[k] < keys@.len(),
        decreases sorted.len() - j,
    {
        assert(keys_view(sorted@)[j as int] == by_keys(keys_view(keys@))[j as int]);
        out.push(sorted[j].2 as usize);
        j += 1;
    }
    out
}

fn tabs_of_ws<'a>(tabs: &'a Vec<Tab>, wid: &str) -> (r: Vec<&'a Tab>)
    ensures
        refs(r@) == ws_tabs(tabs@, wid@),
        r@.len() <= tabs@.len(),
{
    let mut out: Vec<&Tab> = Vec::new();
    let mut i: usize = 0;
    while i < tabs.len()
        invariant
            i <= tabs.len(),
            refs(out@) == ws_tabs(tabs@.take(i as int), wid@),
            out@.len() <= i,
        decreases tabs.len() - i,
    {
        proof {
            crate::model::lemma_filter_step(tabs@, i as int, |t: Tab| t.workspace_id@ == wid@);
        }
        if str_eq(tabs[i].workspace_id.as_str(), wid) {
            let ghost o0 = refs(out@);
            out.push(&tabs[i]);
            assert(refs(out@) =~= o0.push(tabs@[i as int]));
        }
        i += 1;
    }
    assert(tabs@.take(tabs.len() as int) =~= tabs@);
    out
}

fn panes_of_tab<'a>(panes: &'a Vec<Pane>, tid: &str) -> (r: Vec<&'a Pane>)
    ensures
        refs(r@) == tab_panes(panes@, tid@),
        r@.len() <= panes@.len(),
{
    let mut out: Vec<&Pane> = Vec::new();
    let mut i: usize = 0;
    while i < panes.len()
        invariant
            i <= panes.len(),
            refs(out@) == tab_panes(panes@.take(i as int), tid@),
            out@.len() <= i,
        decreases panes.len() - i,
    {
        proof {
            crate::model::lemma_filter_step(panes@, i as int, |p: Pane| p.tab_id@ == tid@);
        }
        if str_eq(panes[i].tab_id.as_str(), tid) {
            let ghost o0 = refs(out@);
            out.push(&panes[i]);
            assert(refs(out@) =~= o0.push(panes@[i as int]));
        }
        i += 1;
    }
    assert(panes@.take(panes.len() as int) =~= panes@);
    out
}

fn numbered_split<'a>(ts: &Vec<&'a Tab>, numbered: bool) -> (r: Vec<&'a Tab>)
    ensures
        refs(r@) == if numbered {
            refs(ts@).filter(|t: Tab| t.number is Some)
        } else {
            refs(ts@).filter(|t: Tab| t.number is None)
        },
{
    let ghost s = refs(ts@);
    let mut out: Vec<&Tab> = Vec::new();
    let mut i: usize = 0;
    while i < ts.len()
        invariant
            i <= ts.len(),
            s == refs(ts@),
            refs(out@) == if numbered {
                s.take(i as int).filter(|t: Tab| t.number is Some)
            } else {
                s.take(i as int).filter(|t: Tab| t.number is None)
            },
        decreases ts.len() - i,
    {
        proof {
            crate::model::lemma_filter_step(s, i as int, |t: Tab| t.number is Some);
            crate::model::lemma_filter_step(s, i as int, |t: Tab| t.number is None);
        }
        let t: &Tab = ts[i];
        assert(s[i as int] == *t);
        if t.number.is_some() == numbered {
            let ghost o0 = refs(out@);
            out.push(t);
            assert(refs(out@) =~= o0.push(*t));
        }
        i += 1;
    }
    assert(s.take(ts.len() as int) =~= s);
    out
}

fn order_tabs<'a>(ts: &Vec<&'a Tab>, numbered: bool) -> (r: Vec<&'a Tab>)
    requires
        numbered ==> forall|i: int| 0 <= i < ts@.len() ==> (#[trigger] ts@[i]).number is Some,
        ts@.len() < u64::MAX,
    ensures
        refs(r@) == sorted_by_keys(
            refs(ts@),
            if numbered {
                number_keys(refs(ts@))
            } else {
                tab_id_keys(refs(ts@))
            },
        ),
{
    let ghost s = refs(ts@);
    let ghost ks = if numbered {
        number_keys(s)
    } else {
        tab_id_keys(s)
    };
    let mut keys: Vec<(i64, String, u64)> = Vec::new();
    let mut i: usize = 0;
    while i < ts.len()
        invariant
            i <= ts.len(),
            s == refs(ts@),
            ks == (if numbered {
                number_keys(s)
            } else {
                tab_id_keys(s)
            }),
            numbered ==> forall|k: int| 0 <= k < ts@.len() ==> (#[trigger] ts@[k]).number is Some,
            ts@.len() < u64::MAX,
            keys_view(keys@) == ks.take(i as int),
        decreases ts.len() - i,
    {
        let t: &Tab = ts[i];
        assert(s[i as int] == *t);
        let n: i64 = if numbered {
            match t.number {
                Some(x) => x,
                None => 0,
            }
        } else {
            0
        };
        let ghost k0 = keys_view(keys@);
        keys.push((n, t.tab_id.clone(), i as u64));
        assert(keys_view(keys@) =~= k0.push(ks[i as int]));
        assert(ks.take(i + 1) =~= ks.take(i as int).push(ks[i as int]));
        i += 1;
    }
    assert(ks.take(ts.len() as int) =~= ks);
    assert(ks.len() == ts@.len());
    assert(keys_view(keys@) == ks);
    let pos = sorted_positions(&keys);
    let mut out: Vec<&Tab> = Vec::new();
    let mut j: usize = 0;
    while j < pos.len()
        invariant
            j <= pos.len(),
            s == refs(ts@),
            keys_view(keys@) == ks,
            pos@.len() == ts@.len(),
            forall|k: int| 0 <= k < ts@.len() ==> pos@[k] == (#[trigger] by_keys(ks)[k]).2 && pos@[k] < ts@.len(),
            refs(out@) == sorted_by_keys(s, ks).take(j as int),
        decreases pos.len() - j,
    {
        assert(pos@[j as int] == by_keys(ks)[j as int].2);
        let t: &Tab = ts[pos[j]];
        let ghost o0 = refs(out@);
        out.push(t);
        assert(refs(out@) =~= o0.push(s[pos@[j as int] as int]));
        assert(sorted_by_keys(s, ks).take(j + 1) =~= sorted_by_keys(s, ks).take(j as int).push(
            sorted_by_keys(s, ks)[j as int],
        ));
        j += 1;
    }
    assert(sorted_by_keys(s, ks).take(pos.len() as int) =~= sorted_by_keys(s, ks));
    out
}

fn order_panes<'a>(ps: &Vec<&'a Pane>) -> (r: Vec<&'a Pane>)
    requires
        ps@.len() < u64::MAX,
    ensures
        refs(r@) == ordered_panes(refs(ps@)),
{
    let ghost s = refs(ps@);
    let ghost ks = pane_keys(s);
    let mut keys: Vec<(i64, String, u64)> = Vec::new();
    let mut i: usize = 0;
    while i < ps.len()
        invariant
            i <= ps.len(),
            s == refs(ps@),
            ks == pane_keys(s),
            ps@.len() < u64::MAX,
            keys_view(keys@) == ks.take(i as int),
        decreases ps.len() - i,
    {
        let p: &Pane = ps[i];
        assert(s[i as int] == *p);
        let ghost k0 = keys_view(keys@);
        keys.push((if p.focused {
            0
        } else {
            1
        }, p.pane_id.clone(), i as u64));
        assert(keys_view(keys@) =~= k0.push(ks[i as int]));
        assert(ks.take(i + 1) =~= ks.take(i as int).push(ks[i as int]));
        i += 1;
    }
    assert(ks.take(ps.len() as int) =~= ks);
    let pos = sorted_positions(&keys);
    let mut out: Vec<&Pane> = Vec::new();
    let mut j: usize = 0;
    while j < pos.len()
        invariant
            j <= pos.len(),
            s == refs(ps@),
            keys_view(keys@) == ks,
            ks == pane_keys(s),
            pos@.len() == ps@.len(),
            forall|k: int| 0 <= k < ps@.len() ==> pos@[k] == (#[trigger] by_keys(ks)[k]).2 && pos@[k] < ps@.len(),
            refs(out@) == sorted_by_keys(s, ks).take(j as int),
        decreases pos.len() - j,
    {
        assert(pos@[j as int] == by_keys(ks)[j as int].2);
        let p: &Pane = ps[pos[j]];
        let ghost o0 = refs(out@);
        out.push(p);
        assert(refs(out@) =~= o0.push(s[pos@[j as int] as int]));
        assert(sorted_by_keys(s, ks).take(j + 1) =~= sorted_by_keys(s, ks).take(j as int).push(
            sorted_by_keys(s, ks)[j as int],
        ));
        j += 1;
    }
    assert(sorted_by_keys(s, ks).take(pos.len() as int) =~= sorted_by_keys(s, ks));
    out
}

fn first_tabs_exec<'a>(ts: &Vec<&'a Tab>) -> (r: Vec<&'a Tab>)
    ensures
        refs(r@) == first_tabs(refs(ts@)),
{
    let ghost d = refs(ts@);
    let mut seen: Vec<String> = Vec::new();
    let mut out: Vec<&Tab> = Vec::new();
    let mut i: usize = 0;
    while i < ts.len()
        invariant
            i <= ts.len(),
            d == refs(ts@),
            refs(out@) == first_tabs(d.take(i as int)),
            strings_view(seen@) == Seq::new(i as nat, |k: int| d[k].tab_id@),
        decreases ts.len() - i,
    {
        let t: &Tab = ts[i];
        let ghost tk = d.take(i + 1);
        assert(tk.drop_last() =~= d.take(i as int));
        assert(tk.last() == d[i as int]);
        assert(d[i as int] == *t);
        let dup = crate::text::contains_str(&seen, t.tab_id.as_str());
        proof {
            if dup {
                let k = choose|k: int| 0 <= k < seen@.len() && #[trigger] strings_view(seen@)[k] == t.tab_id@;
                assert(tk[k].tab_id@ == tk.last().tab_id@);
            } else {
                assert forall|k: int| 0 <= k < tk.len() - 1 implies #[trigger] tk[k].tab_id@ != tk.last().tab_id@ by {
                    assert(strings_view(seen@)[k] == tk[k].tab_id@);
                }
            }
        }
        let ghost s0 = strings_view(seen@);
        seen.push(t.tab_id.clone());
        assert(strings_view(seen@) =~= s0.push(t.tab_id@));
        assert(strings_view(seen@) =~= Seq::new((i + 1) as nat, |k: int| d[k].tab_id@));
        if !dup {
            let ghost o0 = refs(out@);
            out.push(t);
            assert(refs(out@) =~= o0.push(*t));
        }
        i += 1;
    }
    assert(d.take(ts.len() as int) =~= d);
    out
}

fn append(lines: &mut Vec<String>, more: Vec<String>)
    ensures
        strings_view(final(lines)@) == strings_view(old(lines)@) + strings_view(more@),
{
    let ghost start = strings_view(lines@);
    let mut i: usize = 0;
    while i < more.len()
        invariant
            i <= more.len(),
            strings_view(lines@) == start + strings_view(more@).take(i as int),
        decreases more.len() - i,
    {
        let ghost l0 = strings_view(lines@);
        lines.push(more[i].clone());
        assert(strings_view(lines@) =~= l0.push(more@[i as int]@));
        assert(strings_view(more@).take(i + 1) =~= strings_view(more@).take(i as int).push(more@[i as int]@));
        i += 1;
    }
    assert(strings_view(more@).take(more.len() as int) =~= strings_view(more@));
}

fn tab_lines(panes: &Vec<Pane>, t: &Tab) -> (r: Vec<String>)
    requires
        panes@.len() < i64::MAX,
    ensures
        strings_view(r@) == tab_block(panes@, *t),
{
    let mine = panes_of_tab(panes, t.tab_id.as_str());
    let mut out: Vec<String> = Vec::new();
    out.push(tab_line_exec(t, mine.len() as i64));
    let ordered = order_panes(&mine);
    let ghost op = ordered_panes(tab_panes(panes@, t.tab_id@));
    let ghost head = seq![tab_line(*t, tab_panes(panes@, t.tab_id@).len() as int)];
    assert(strings_view(out@) =~= head);
    let mut m: usize = 0;
    while m < ordered.len()
        invariant
            m <= ordered.len(),
            refs(ordered@) == op,
            strings_view(out@) == head + op.map_values(|p: Pane| pane_line(p)).take(m as int),
        decreases ordered.len() - m,
    {
        let p: &Pane = ordered[m];
        assert(op[m as int] == *p);
        let ghost o0 = strings_view(out@);
        out.push(pane_line_exec(p));
        assert(strings_view(out@) =~= o0.push(pane_line(*p)));
        assert(op.map_values(|p: Pane| pane_line(p)).take(m + 1) =~= op.map_values(|p: Pane| pane_line(p)).take(
            m as int,
        ).push(pane_line(*p)));
        m += 1;
    }
    assert(op.map_values(|p: Pane| pane_line(p)).take(ordered.len() as int) =~= op.map_values(
        |p: Pane| pane_line(p),
    ));
    out
}

fn ws_lines(snap: &Snapshot, w: &Workspace) -> (r: Vec<String>)
    requires
        snap.panes@.len() < i64::MAX,
        snap.tabs@.len() < i64::MAX,
    ensures
        strings_view(r@) == ws_block(snap.panes@, snap.tabs@, *w),
{
    let mine = tabs_of_ws(&snap.tabs, w.workspace_id.as_str());
    let mut out: Vec<String> = Vec::new();
    out.push(ws_line_exec(w, mine.len() as i64));
    let ghost ms = ws_tabs(snap.tabs@, w.workspace_id@);
    let numbered = numbered_split(&mine, true);
    let unnumbered = numbered_split(&mine, false);
    proof {
        ms.filter_lemma(|t: Tab| t.number is Some);
        ms.filter_lemma(|t: Tab| t.number is None);
        assert forall|i: int| 0 <= i < numbered@.len() implies (#[trigger] numbered@[i]).number is Some by {
            assert(refs(numbered@)[i] == *numbered@[i]);
        }
    }
    let mut ordered = order_tabs(&numbered, true);
    let rest = order_tabs(&unnumbered, false);
    let ghost front = refs(ordered@);
    let mut k: usize = 0;
    while k < rest.len()
        invariant
            k <= rest.len(),
            refs(ordered@) == front + refs(rest@).take(k as int),
        decreases rest.len() - k,
    {
        let ghost o0 = refs(ordered@);
        ordered.push(rest[k]);
        assert(refs(ordered@) =~= o0.push(*rest@[k as int]));
        assert(refs(rest@).take(k + 1) =~= refs(rest@).take(k as int).push(*rest@[k as int]));
        k += 1;
    }
    assert(refs(rest@).take(rest.len() as int) =~= refs(rest@));
    assert(refs(ordered@) == ordered_tabs(ms));
    let firsts = first_tabs_exec(&ordered);
    let ghost fs = refs(firsts@);
    let ghost head = seq![ws_line(*w, ms.len() as int)];
    assert(strings_view(out@) =~= head + tabs_block(snap.panes@, fs.take(0)));
    let mut t: usize = 0;
    while t < firsts.len()
        invariant
            t <= firsts.len(),
            fs == refs(firsts@),
            snap.panes@.len() < i64::MAX,
            strings_view(out@) == head + tabs_block(snap.panes@, fs.take(t as int)),
        decreases firsts.len() - t,
    {
        let tab: &Tab = firsts[t];
        assert(fs[t as int] == *tab);
        let more = tab_lines(&snap.panes, tab);
        append(&mut out, more);
        assert(fs.take(t + 1).drop_last() =~= fs.take(t as int));
        assert(fs.take(t + 1).last() == *tab);
        t += 1;
    }
    assert(fs.take(firsts.len() as int) =~= fs);
    out
}

/// The topology tree of a snapshot (see [`format_tree_spec`]).
pub fn format_tree(snap: &Snapshot) -> (r: String)
    requires
        snap.panes@.len() < i64::MAX,
        snap.tabs@.len() < i64::MAX,
    ensures
        r@ == format_tree_spec(*snap),
{
    let mut lines: Vec<String> = Vec::new();
    let mut i: usize = 0;
    while i < snap.workspaces.len()
        invariant
            i <= snap.workspaces.len(),
            snap.panes@.len() < i64::MAX,
            snap.tabs@.len() < i64::MAX,
            strings_view(lines@) == tree_lines(snap.panes@, snap.tabs@, snap.workspaces@.take(i as int)),
        decreases snap.workspaces.len() - i,
    {
        let more = ws_lines(snap, &snap.workspaces[i]);
        append(&mut lines, more);
        let ghost wt = snap.workspaces@.take(i + 1);
        assert(wt.drop_last() =~= snap.workspaces@.take(i as int));
        assert(wt.last() == snap.workspaces@[i as int]);
        i += 1;
    }
    assert(snap.workspaces@.take(snap.workspaces.len() as int) =~= snap.workspaces@);
    if lines.len() == 0 {
        owned("(no herdr workspaces/panes)")
    } else {
        crate::sidebar::join_lines(&lines, "\n")
    }
}

} // verus!
