//! Plugin-manager sidebar: input keys, selection, refresh state and the
//! exact ANSI frame. Live rows come only from the host's control socket,
//! which the caller reads; the renderer inherits terminal colors and never
//! invents rows.
use vstd::prelude::*;

use crate::assoc::{lookup, unique};
use crate::json::{is_truthy, json_get, json_text, opt_ref, truthy, Json};
use crate::layout::join;
use crate::text::{
    char_is_ws, chars_of, is_ws, nat_to_string, owned, push_char, string_from, strings_view, trim,
    trim_str,
};

verus! {

/// Control-socket transport or protocol failure, with its message.
#[derive(Debug, Clone, PartialEq, Eq)]
pub struct MuxSocketError(pub String);

impl MuxSocketError {
    pub fn new(message: &str) -> (r: Self)
        ensures
            r.0@ == message@,
    {
        MuxSocketError(owned(message))
    }
}

/// One live workspace row: `id` is the host's id (a string id verbatim, any
/// other id as its JSON text).
#[derive(Debug, Clone, PartialEq, Eq)]
pub struct WorkspaceRow {
    pub id: String,
    pub name: String,
    pub active: bool,
    pub key: Option<String>,
}

/// The first of the documented socket variables with a non-blank value,
/// trimmed.
pub open spec fn socket_from_env(env: Seq<(String, String)>) -> Option<Seq<char>> {
    let tui = lookup(env, "CMUX_TUI_SOCKET"@);
    let mux = lookup(env, "CMUX_MUX_SOCKET"@);
    if tui is Some && trim(tui.unwrap()@).len() > 0 {
        Some(trim(tui.unwrap()@))
    } else if mux is Some && trim(mux.unwrap()@).len() > 0 {
        Some(trim(mux.unwrap()@))
    } else {
        None
    }
}

fn env_value(environ: &Vec<(String, String)>, key: &str) -> (r: Option<String>)
    requires
        unique(environ@),
    ensures
        match r {
            Some(v) => lookup(environ@, key@) is Some && trim(lookup(environ@, key@).unwrap()@).len()
                > 0 && v@ == trim(lookup(environ@, key@).unwrap()@),
            None => !(lookup(environ@, key@) is Some && trim(lookup(environ@, key@).unwrap()@).len()
                > 0),
        },
{
    match crate::assoc::get(environ, key) {
        Some(v) => {
            let t = trim_str(v.as_str());
            if t.as_str().is_empty() {
                None
            } else {
                Some(t)
            }
        },
        None => None,
    }
}

/// The mux socket path from an environment (keys distinct).
pub fn socket_path_from_env(environ: &Vec<(String, String)>) -> (r: Option<String>)
    requires
        unique(environ@),
    ensures
        crate::text::opt_view(r) == socket_from_env(environ@),
{
    match env_value(environ, "CMUX_TUI_SOCKET") {
        Some(v) => Some(v),
        None => env_value(environ, "CMUX_MUX_SOCKET"),
    }
}

/// What a chunk of terminal input asks for.
#[derive(Debug, Clone, Copy, PartialEq, Eq)]
pub enum InputAction {
    Exit,
    Ignore,
    Move(i64),
    Select,
}

/// Ctrl-C exits; Esc (the host's sidebar chord) is ignored; `k`/Up and
/// `j`/Down move; Enter selects; anything else is ignored.
pub open spec fn input_spec(d: Seq<u8>) -> InputAction {
    if d == seq![3u8] {
        InputAction::Exit
    } else if d == seq![0x1bu8] || d == seq![0x1bu8, 0x1bu8] {
        InputAction::Ignore
    } else if d == seq![0x1bu8, 0x5bu8, 0x41u8] || d == seq![0x6bu8] {
        InputAction::Move(-1i64)
    } else if d == seq![0x1bu8, 0x5bu8, 0x42u8] || d == seq![0x6au8] {
        InputAction::Move(1i64)
    } else if d == seq![0x0du8] || d == seq![0x0au8] {
        InputAction::Select
    } else {
        InputAction::Ignore
    }
}

pub fn input_action(data: &[u8]) -> (r: InputAction)
    ensures
        r == input_spec(data@),
{
    let n = data.len();
    if n == 1 {
        let b = data[0];
        assert(data@ =~= seq![b]);
        if b == 3 {
            InputAction::Exit
        } else if b == 0x1b {
            InputAction::Ignore
        } else if b == 0x6b {
            InputAction::Move(-1)
        } else if b == 0x6a {
            InputAction::Move(1)
        } else if b == 0x0d || b == 0x0a {
            InputAction::Select
        } else {
            InputAction::Ignore
        }
    } else if n == 2 {
        assert(data@ =~= seq![data@[0], data@[1]]);
        InputAction::Ignore
    } else if n == 3 {
        let (a, b, c) = (data[0], data[1], data[2]);
        assert(data@ =~= seq![a, b, c]);
        if a == 0x1b && b == 0x5b && c == 0x41 {
            InputAction::Move(-1)
        } else if a == 0x1b && b == 0x5b && c == 0x42 {
            InputAction::Move(1)
        } else {
            InputAction::Ignore
        }
    } else {
        InputAction::Ignore
    }
}

/// Move the selection by `delta`, wrapping around; with no rows the
/// selection stays.
pub fn move_selection(selected: usize, delta: i64, row_count: usize) -> (r: usize)
    ensures
        r == if row_count == 0 {
            selected as int
        } else {
            (selected + delta) % (row_count as int)
        },
        row_count > 0 ==> r < row_count,
{
    if row_count == 0 {
        return selected;
    }
    let s: i128 = selected as i128 + delta as i128;
    let m: i128 = row_count as i128;
    if s >= 0 {
        let r: i128 = s % m;
        assert(r == (selected + delta) % (row_count as int));
        r as usize
    } else {
        let t: i128 = -s;
        let q: i128 = t % m;
        let r: i128 = if q == 0 {
            0
        } else {
            m - q
        };
        proof {
            let tq = t / m;
            vstd::arithmetic::div_mod::lemma_fundamental_div_mod(t as int, m as int);
            assert(t == m * tq + q);
            if q == 0 {
                assert(s == (-tq) * m + 0) by (nonlinear_arith)
                    requires
                        t == m * tq + q,
                        q == 0,
                        s == -t,
                ;
                vstd::arithmetic::div_mod::lemma_fundamental_div_mod_converse(
                    s as int,
                    m as int,
                    -tq,
                    0,
                );
            } else {
                assert(0 < q < m);
                assert(s == (-tq - 1) * m + (m - q)) by (nonlinear_arith)
                    requires
                        t == m * tq + q,
                        s == -t,
                ;
                vstd::arithmetic::div_mod::lemma_fundamental_div_mod_converse(
                    s as int,
                    m as int,
                    -tq - 1,
                    m - q,
                );
            }
        }
        r as usize
    }
}

/// The sidebar's state between frames.
#[derive(Debug)]
pub struct SidebarState {
    pub selected: usize,
    pub rows: Vec<WorkspaceRow>,
    pub connected: bool,
    pub message: String,
}

impl SidebarState {
    /// Nothing listed yet.
    pub fn new() -> (r: Self)
        ensures
            r.selected == 0,
            r.rows@.len() == 0,
            !r.connected,
            r.message@.len() == 0,
    {
        SidebarState { selected: 0, rows: Vec::new(), connected: false, message: String::new() }
    }

    /// Take in one refresh: `None` when no socket is configured, else the
    /// outcome of listing the workspaces through it. A listing keeps the
    /// selection inside the new rows.
    pub fn refresh(&mut self, listing: Option<Result<Vec<WorkspaceRow>, MuxSocketError>>)
        ensures
            match listing {
                None => !final(self).connected && final(self).rows@.len() == 0
                    && final(self).message@ == "CMUX_TUI_SOCKET is unset"@ && final(self).selected
                    == old(self).selected,
                Some(Ok(rows)) => final(self).connected && final(self).rows == rows
                    && final(self).message@.len() == 0 && final(self).selected == if rows.len() > 0
                    && old(self).selected >= rows.len() {
                    (rows.len() - 1) as usize
                } else {
                    old(self).selected
                },
                Some(Err(e)) => !final(self).connected && final(self).rows@.len() == 0
                    && final(self).message == e.0 && final(self).selected == old(self).selected,
            },
    {
        match listing {
            None => {
                self.connected = false;
                self.rows = Vec::new();
                self.message = owned("CMUX_TUI_SOCKET is unset");
            },
            Some(Ok(rows)) => {
                if rows.len() > 0 && self.selected >= rows.len() {
                    self.selected = rows.len() - 1;
                }
                self.rows = rows;
                self.connected = true;
                self.message = String::new();
            },
            Some(Err(e)) => {
                self.connected = false;
                self.rows = Vec::new();
                self.message = e.0;
            },
        }
    }
}

/// `s` with every non-overlapping occurrence of `p` removed, left to right
/// (`str::replace(p, "")`).
pub open spec fn remove_all(s: Seq<char>, p: Seq<char>) -> Seq<char>
    decreases s.len(),
{
    if p.len() == 0 || s.len() < p.len() {
        s
    } else if s.take(p.len() as int) == p {
        remove_all(s.skip(p.len() as int), p)
    } else {
        seq![s[0]] + remove_all(s.skip(1), p)
    }
}

fn matches_at(s: &Vec<char>, p: &Vec<char>, i: usize) -> (r: bool)
    requires
        i <= s.len(),
    ensures
        r == (s.len() - i >= p.len() && s@.skip(i as int).take(p.len() as int) == p@),
{
    if s.len() - i < p.len() {
        return false;
    }
    let mut k: usize = 0;
    while k < p.len()
        invariant
            k <= p.len(),
            i + p.len() <= s.len(),
            forall|j: int| 0 <= j < k ==> s@[i + j] == p@[j],
        decreases p.len() - k,
    {
        if s[i + k] != p[k] {
            assert(s@.skip(i as int).take(p.len() as int)[k as int] != p@[k as int]);
            return false;
        }
        k += 1;
    }
    assert(s@.skip(i as int).take(p.len() as int) =~= p@);
    true
}

fn remove_all_exec(s: &Vec<char>, p: &Vec<char>) -> (r: Vec<char>)
    requires
        p.len() > 0,
    ensures
        r@ == remove_all(s@, p@),
{
    let mut out: Vec<char> = Vec::new();
    let mut i: usize = 0;
    assert(s@.skip(0) =~= s@);
    while i < s.len()
        invariant
            i <= s.len(),
            p.len() > 0,
            out@ + remove_all(s@.skip(i as int), p@) == remove_all(s@, p@),
        decreases s.len() - i,
    {
        let ghost rest = s@.skip(i as int);
        let matched = matches_at(s, p, i);
        if matched {
            assert(rest.take(p.len() as int) =~= p@);
            assert(rest.skip(p.len() as int) =~= s@.skip(i + p.len()));
            i += p.len();
        } else {
            assert(rest.skip(1) =~= s@.skip(i + 1));
            let ghost o0 = out@;
            out.push(s[i]);
            assert(out@ =~= o0 + seq![s@[i as int]]);
            assert(o0 + seq![rest[0]] + remove_all(rest.skip(1), p@) =~= out@ + remove_all(
                rest.skip(1),
                p@,
            ));
            i += 1;
        }
    }
    assert(remove_all(s@.skip(i as int), p@) =~= s@.skip(i as int));
    assert(s@.skip(i as int) =~= Seq::<char>::empty());
    out
}

/// The visible text: the renderer's bold, reset and reverse sequences
/// removed, in that order.
pub open spec fn strip_spec(t: Seq<char>) -> Seq<char> {
    remove_all(
        remove_all(remove_all(t, seq!['\x1b', '[', '1', 'm']), seq!['\x1b', '[', '0', 'm']),
        seq!['\x1b', '[', '7', 'm'],
    )
}

fn sgr(d: char) -> (r: Vec<char>)
    ensures
        r@ == seq!['\x1b', '[', d, 'm'],
{
    let mut v: Vec<char> = Vec::new();
    v.push('\x1b');
    v.push('[');
    v.push(d);
    v.push('m');
    assert(v@ =~= seq!['\x1b', '[', d, 'm']);
    v
}

/// Remove exactly the SGR sequences this renderer emits.
pub fn strip_ansi(text: &str) -> (r: String)
    ensures
        r@ == strip_spec(text@),
{
    let v = chars_of(text);
    let a = remove_all_exec(&v, &sgr('1'));
    let b = remove_all_exec(&a, &sgr('0'));
    let c = remove_all_exec(&b, &sgr('7'));
    crate::text::string_of(&c)
}

/// `n` spaces.
pub open spec fn spaces(n: nat) -> Seq<char> {
    Seq::new(n, |i: int| ' ')
}

/// A visible line of exactly `width` characters: padded with spaces, or cut
/// to `width - 1` characters and an ellipsis.
pub open spec fn clip_spec(text: Seq<char>, width: int) -> Seq<char> {
    let v = strip_spec(text);
    if v.len() > width {
        v.take(if width - 1 >= 0 {
            width - 1
        } else {
            0
        }) + seq!['…']
    } else {
        v + spaces((width - v.len()) as nat)
    }
}

/// Pad or cut a line to `width` characters of visible text.
pub fn clip(text: &str, width: i64) -> (r: String)
    requires
        0 <= width <= 0x7fff_ffff,
    ensures
        r@ == clip_spec(text@, width as int),
{
    let visible = strip_ansi(text);
    let chars = chars_of(visible.as_str());
    let n = chars.len();
    if n as i128 > width as i128 {
        let take: usize = if width >= 1 {
            (width - 1) as usize
        } else {
            0
        };
        let mut out = string_from(&chars, 0, take);
        push_char(&mut out, '…');
        assert(out@ =~= clip_spec(text@, width as int));
        out
    } else {
        let pad: usize = (width - n as i64) as usize;
        let mut out = visible;
        let ghost v0 = out@;
        let mut k: usize = 0;
        while k < pad
            invariant
                k <= pad,
                out@ == v0 + spaces(k as nat),
            decreases pad - k,
        {
            push_char(&mut out, ' ');
            assert(out@ =~= v0 + spaces((k + 1) as nat));
            k += 1;
        }
        out
    }
}

/// Whitespace-separated words: the finished words and the one in progress.
pub open spec fn words_state(s: Seq<char>) -> (Seq<Seq<char>>, Seq<char>)
    decreases s.len(),
{
    if s.len() == 0 {
        (Seq::empty(), Seq::empty())
    } else {
        let (done, cur) = words_state(s.drop_last());
        if is_ws(s.last()) {
            (if cur.len() > 0 {
                done.push(cur)
            } else {
                done
            }, Seq::empty())
        } else {
            (done, cur.push(s.last()))
        }
    }
}

/// `str::split_whitespace`.
pub open spec fn words(s: Seq<char>) -> Seq<Seq<char>> {
    let (done, cur) = words_state(s);
    if cur.len() > 0 {
        done.push(cur)
    } else {
        done
    }
}

fn words_exec(v: &Vec<char>) -> (r: Vec<String>)
    ensures
        strings_view(r@) == words(v@),
{
    let mut done: Vec<String> = Vec::new();
    let mut cur = String::new();
    let mut i: usize = 0;
    while i < v.len()
        invariant
            i <= v.len(),
            (strings_view(done@), cur@) == words_state(v@.subrange(0, i as int)),
        decreases v.len() - i,
    {
        let ghost pre = v@.subrange(0, i as int);
        assert(v@.subrange(0, i + 1).drop_last() =~= pre);
        if char_is_ws(v[i]) {
            if !cur.as_str().is_empty() {
                let piece = cur;
                done.push(piece);
                cur = String::new();
                assert(strings_view(done@) =~= words_state(pre).0.push(piece@));
            } else {
                cur = String::new();
            }
        } else {
            push_char(&mut cur, v[i]);
        }
        i += 1;
    }
    assert(v@.subrange(0, v@.len() as int) =~= v@);
    if !cur.as_str().is_empty() {
        let ghost before = done@;
        done.push(cur);
        assert(strings_view(done@) =~= strings_view(before).push(done@.last()@));
    }
    done
}

/// Greedy filling of lines with words: the finished lines and the current.
pub open spec fn wrap_fold(ws: Seq<Seq<char>>, width: int) -> (Seq<Seq<char>>, Seq<char>)
    decreases ws.len(),
{
    if ws.len() <= 1 {
        (Seq::empty(), ws[0])
    } else {
        let (lines, cur) = wrap_fold(ws.drop_last(), width);
        let w = ws.last();
        if cur.len() + 1 + w.len() <= width {
            (lines, cur + seq![' '] + w)
        } else {
            (lines.push(cur), w)
        }
    }
}

/// Wrap on whitespace without hyphenation; a width of one or less keeps the
/// text whole, and text without words gives one empty line.
pub open spec fn wrap_spec(text: Seq<char>, width: int) -> Seq<Seq<char>> {
    if width <= 1 {
        seq![text]
    } else if words(text).len() == 0 {
        seq![Seq::empty()]
    } else {
        let (lines, cur) = wrap_fold(words(text), width);
        lines.push(cur)
    }
}

pub fn wrap(text: &str, width: i64) -> (r: Vec<String>)
    ensures
        strings_view(r@) == wrap_spec(text@, width as int),
{
    if width <= 1 {
        let mut v: Vec<String> = Vec::new();
        v.push(owned(text));
        assert(strings_view(v@) =~= seq![text@]);
        return v;
    }
    let chars = chars_of(text);
    let ws = words_exec(&chars);
    if ws.len() == 0 {
        let mut v: Vec<String> = Vec::new();
        v.push(String::new());
        assert(strings_view(v@) =~= seq![Seq::<char>::empty()]);
        return v;
    }
    let ghost wv = strings_view(ws@);
    let mut lines: Vec<String> = Vec::new();
    let mut current = ws[0].clone();
    let mut cur_len: i128 = chars_of(current.as_str()).len() as i128;
    let mut i: usize = 1;
    assert(wv.take(1).len() == 1);
    while i < ws.len()
        invariant
            1 <= i <= ws.len(),
            wv == strings_view(ws@),
            (strings_view(lines@), current@) == wrap_fold(wv.take(i as int), width as int),
            cur_len == current@.len(),
            0 <= cur_len <= 0x1_0000_0000_0000_0000,
            width > 1,
        decreases ws.len() - i,
    {
        assert(wv.take(i + 1).drop_last() =~= wv.take(i as int));
        let word_len: i128 = chars_of(ws[i].as_str()).len() as i128;
        if cur_len + 1 + word_len <= width as i128 {
            push_char(&mut current, ' ');
            current.append(ws[i].as_str());
            cur_len = cur_len + 1 + word_len;
        } else {
            let ghost l0 = strings_view(lines@);
            let finished = current;
            lines.push(finished);
            assert(strings_view(lines@) =~= l0.push(finished@));
            current = ws[i].clone();
            cur_len = word_len;
        }
        i += 1;
    }
    assert(wv.take(ws.len() as int) =~= wv);
    let ghost l0 = strings_view(lines@);
    lines.push(current);
    assert(strings_view(lines@) =~= l0.push(lines@.last()@));
    lines
}

/// Frame width: the terminal's columns (24 when unknown), at least 16.
pub open spec fn frame_width(cols: int) -> int {
    let w = if cols == 0 {
        24
    } else {
        cols
    };
    if w >= 16 {
        w
    } else {
        16
    }
}

/// Frame height: the terminal's rows (12 when unknown), at least 6.
pub open spec fn frame_height(rows_h: int) -> int {
    let h = if rows_h == 0 {
        12
    } else {
        rows_h
    };
    if h >= 6 {
        h
    } else {
        6
    }
}

pub open spec fn reverse_video(body: Seq<char>) -> Seq<char> {
    seq!['\x1b', '[', '7', 'm'] + body + seq!['\x1b', '[', '0', 'm']
}

/// One workspace line: selection marker, active marker, name; the selected
/// line in reverse video.
pub open spec fn row_line(row: WorkspaceRow, here: bool, width: int) -> Seq<char> {
    let body = clip_spec(
        seq![if here {
            '>'
        } else {
            ' '
        }, if row.active {
            '*'
        } else {
            ' '
        }, ' '] + row.name@,
        width,
    );
    if here {
        reverse_video(body)
    } else {
        body
    }
}

pub open spec fn row_lines(rows: Seq<WorkspaceRow>, selected: int, width: int) -> Seq<Seq<char>>
    decreases rows.len(),
{
    if rows.len() == 0 {
        Seq::empty()
    } else {
        row_lines(rows.drop_last(), selected, width).push(
            row_line(rows.last(), rows.len() - 1 == selected, width),
        )
    }
}

pub open spec fn clip_all(parts: Seq<Seq<char>>, width: int) -> Seq<Seq<char>> {
    parts.map_values(|p: Seq<char>| clip_spec(p, width))
}

pub open spec fn clamp_index(selected: int, n: int) -> int {
    if selected < 0 {
        0
    } else if selected > n - 1 {
        n - 1
    } else {
        selected
    }
}

/// The lines under the header: the reason and a retry note when offline,
/// a note when there are no workspaces, else one line per workspace.
pub open spec fn body_lines(
    rows: Seq<WorkspaceRow>,
    selected: int,
    width: int,
    connected: bool,
    message: Seq<char>,
) -> Seq<Seq<char>> {
    if !connected {
        let detail = if message.len() == 0 {
            "set CMUX_TUI_SOCKET (legacy CMUX_MUX_SOCKET)"@
        } else {
            message
        };
        clip_all(wrap_spec(detail, width), width) + seq![
            clip_spec(""@, width),
            clip_spec("retrying…"@, width),
        ]
    } else if rows.len() == 0 {
        seq![clip_spec("no workspaces in this session"@, width)]
    } else {
        row_lines(rows, clamp_index(selected, rows.len() as int), width)
    }
}

/// The three header lines: title, connection state, blank.
pub open spec fn head_lines(w: int, connected: bool) -> Seq<Seq<char>> {
    seq![
        clip_spec("\x1b[1mcmux-herdr\x1b[0m"@, w),
        clip_spec(
            if connected {
                "workspaces"@
            } else {
                "waiting for mux socket"@
            },
            w,
        ),
        clip_spec(""@, w),
    ]
}

/// `ls` padded with blank lines up to `target` lines.
pub open spec fn pad_lines(ls: Seq<Seq<char>>, target: int, w: int) -> Seq<Seq<char>> {
    if ls.len() < target {
        ls + Seq::new((target - ls.len()) as nat, |i: int| clip_spec(""@, w))
    } else {
        ls
    }
}

pub open spec fn footer_text(n: nat, connected: bool) -> Seq<char> {
    if connected {
        crate::text::dec_nat(n) + " live"@
    } else {
        "offline"@
    }
}

/// All lines of a frame: header, body, blank padding, footer, cut to the
/// frame height.
pub open spec fn frame_lines(
    rows: Seq<WorkspaceRow>,
    selected: int,
    cols: int,
    rows_h: int,
    connected: bool,
    message: Seq<char>,
) -> Seq<Seq<char>> {
    let w = frame_width(cols);
    let h = frame_height(rows_h);
    let ls = head_lines(w, connected) + body_lines(rows, selected, w, connected, message);
    let all = pad_lines(ls, h - 1, w).push(clip_spec(footer_text(rows.len(), connected), w));
    if all.len() > h {
        all.take(h)
    } else {
        all
    }
}

/// Lines joined with `sep`.
pub fn join_lines(v: &Vec<String>, sep: &str) -> (r: String)
    ensures
        r@ == join(strings_view(v@), sep@),
{
    let ghost sv = strings_view(v@);
    if v.len() == 0 {
        return String::new();
    }
    let mut out = v[0].clone();
    let mut i: usize = 1;
    assert(sv.take(1) =~= seq![sv[0]]);
    while i < v.len()
        invariant
            1 <= i <= v.len(),
            sv == strings_view(v@),
            out@ == join(sv.take(i as int), sep@),
        decreases v.len() - i,
    {
        assert(sv.take(i + 1).drop_last() =~= sv.take(i as int));
        assert(sv.take(i + 1).len() == i + 1);
        out.append(sep);
        out.append(v[i].as_str());
        i += 1;
    }
    assert(sv.take(v.len() as int) =~= sv);
    out
}

fn push_clip(lines: &mut Vec<String>, text: &str, width: i64)
    requires
        16 <= width <= 0x7fff_ffff,
    ensures
        strings_view(final(lines)@) == strings_view(old(lines)@).push(clip_spec(text@, width as int)),
{
    let c = clip(text, width);
    let ghost l0 = strings_view(lines@);
    lines.push(c);
    assert(strings_view(lines@) =~= l0.push(c@));
}

fn body_exec(
    rows: &Vec<WorkspaceRow>,
    selected: i64,
    width: i64,
    connected: bool,
    message: &str,
) -> (r: Vec<String>)
    requires
        16 <= width <= 0x7fff_ffff,
    ensures
        strings_view(r@) == body_lines(rows@, selected as int, width as int, connected, message@),
{
    let mut lines: Vec<String> = Vec::new();
    if !connected {
        let detail = if message.is_empty() {
            "set CMUX_TUI_SOCKET (legacy CMUX_MUX_SOCKET)"
        } else {
            message
        };
        let parts = wrap(detail, width);
        let mut k: usize = 0;
        while k < parts.len()
            invariant
                k <= parts.len(),
                16 <= width <= 0x7fff_ffff,
                strings_view(lines@) == clip_all(strings_view(parts@).take(k as int), width as int),
            decreases parts.len() - k,
        {
            push_clip(&mut lines, parts[k].as_str(), width);
            assert(clip_all(strings_view(parts@).take(k + 1), width as int) =~= clip_all(
                strings_view(parts@).take(k as int),
                width as int,
            ).push(clip_spec(parts@[k as int]@, width as int)));
            k += 1;
        }
        assert(strings_view(parts@).take(parts.len() as int) =~= strings_view(parts@));
        let ghost l0 = strings_view(lines@);
        push_clip(&mut lines, "", width);
        push_clip(&mut lines, "retrying…", width);
        assert(strings_view(lines@) =~= l0 + seq![
            clip_spec(""@, width as int),
            clip_spec("retrying…"@, width as int),
        ]);
        return lines;
    }
    if rows.len() == 0 {
        push_clip(&mut lines, "no workspaces in this session", width);
        assert(strings_view(lines@) =~= seq![clip_spec("no workspaces in this session"@, width as int)]);
        return lines;
    }
    let n = rows.len();
    let sel: usize = if selected < 0 {
        0
    } else if selected as i128 > (n - 1) as i128 {
        n - 1
    } else {
        selected as usize
    };
    let mut i: usize = 0;
    assert(strings_view(lines@) =~= row_lines(rows@.take(0), sel as int, width as int));
    while i < n
        invariant
            i <= n,
            n == rows.len(),
            sel < n,
            sel == clamp_index(selected as int, n as int),
            16 <= width <= 0x7fff_ffff,
            strings_view(lines@) == row_lines(rows@.take(i as int), sel as int, width as int),
        decreases n - i,
    {
        assert(rows@.take(i + 1).drop_last() =~= rows@.take(i as int));
        let row = &rows[i];
        let mut text = String::new();
        push_char(&mut text, if i == sel {
            '>'
        } else {
            ' '
        });
        push_char(&mut text, if row.active {
            '*'
        } else {
            ' '
        });
        push_char(&mut text, ' ');
        text.append(row.name.as_str());
        assert(text@ =~= seq![if i == sel {
            '>'
        } else {
            ' '
        }, if rows@[i as int].active {
            '*'
        } else {
            ' '
        }, ' '] + rows@[i as int].name@);
        let body = clip(text.as_str(), width);
        let line = if i == sel {
            let mut l = String::new();
            push_char(&mut l, '\x1b');
            push_char(&mut l, '[');
            push_char(&mut l, '7');
            push_char(&mut l, 'm');
            l.append(body.as_str());
            push_char(&mut l, '\x1b');
            push_char(&mut l, '[');
            push_char(&mut l, '0');
            push_char(&mut l, 'm');
            assert(l@ =~= reverse_video(body@));
            l
        } else {
            body
        };
        let ghost l0 = strings_view(lines@);
        assert(line@ == row_line(rows@[i as int], i == sel, width as int));
        lines.push(line);
        assert(strings_view(lines@) =~= l0.push(line@));
        i += 1;
    }
    assert(rows@.take(n as int) =~= rows@);
    lines
}

fn pad_to(lines: &mut Vec<String>, target: usize, width: i64)
    requires
        16 <= width <= 0x7fff_ffff,
    ensures
        strings_view(final(lines)@) == pad_lines(strings_view(old(lines)@), target as int, width as int),
{
    let ghost ls = strings_view(lines@);
    let ghost pad_start = lines.len();
    while lines.len() < target
        invariant
            pad_start <= lines.len(),
            pad_start < target ==> lines.len() <= target,
            pad_start >= target ==> lines.len() == pad_start,
            16 <= width <= 0x7fff_ffff,
            ls.len() == pad_start,
            strings_view(lines@) == ls + Seq::new(
                (lines.len() - pad_start) as nat,
                |j: int| clip_spec(""@, width as int),
            ),
        decreases target - lines.len(),
    {
        push_clip(lines, "", width);
        assert(strings_view(lines@) =~= ls + Seq::new(
            (lines.len() - pad_start) as nat,
            |j: int| clip_spec(""@, width as int),
        ));
    }
    proof {
        if pad_start >= target {
            assert(strings_view(lines@) =~= ls);
        }
    }
}

fn append_lines(lines: &mut Vec<String>, more: &Vec<String>)
    ensures
        strings_view(final(lines)@) == strings_view(old(lines)@) + strings_view(more@),
{
    let ghost head = strings_view(lines@);
    let mut k: usize = 0;
    while k < more.len()
        invariant
            k <= more.len(),
            strings_view(lines@) == head + strings_view(more@).take(k as int),
        decreases more.len() - k,
    {
        let ghost l0 = strings_view(lines@);
        lines.push(more[k].clone());
        assert(strings_view(lines@) =~= l0.push(more@[k as int]@));
        assert(strings_view(more@).take(k + 1) =~= strings_view(more@).take(k as int).push(
            more@[k as int]@,
        ));
        k += 1;
    }
    assert(strings_view(more@).take(more.len() as int) =~= strings_view(more@));
}

fn head_exec(width: i64, connected: bool) -> (r: Vec<String>)
    requires
        16 <= width <= 0x7fff_ffff,
    ensures
        strings_view(r@) == head_lines(width as int, connected),
{
    let mut lines: Vec<String> = Vec::new();
    push_clip(&mut lines, "\x1b[1mcmux-herdr\x1b[0m", width);
    push_clip(
        &mut lines,
        if connected {
            "workspaces"
        } else {
            "waiting for mux socket"
        },
        width,
    );
    push_clip(&mut lines, "", width);
    assert(strings_view(lines@) =~= head_lines(width as int, connected));
    lines
}

fn frame_lines_exec(
    rows: &Vec<WorkspaceRow>,
    selected: i64,
    cols: i64,
    rows_h: i64,
    connected: bool,
    message: &str,
) -> (r: Vec<String>)
    requires
        cols <= 0x7fff_ffff,
        rows_h <= 0x7fff_ffff,
    ensures
        strings_view(r@) == frame_lines(
            rows@,
            selected as int,
            cols as int,
            rows_h as int,
            connected,
            message@,
        ),
{
    let w0 = if cols == 0 {
        24
    } else {
        cols
    };
    let width = if w0 >= 16 {
        w0
    } else {
        16
    };
    let h0 = if rows_h == 0 {
        12
    } else {
        rows_h
    };
    let height = if h0 >= 6 {
        h0
    } else {
        6
    };
    let mut lines = head_exec(width, connected);
    let body = body_exec(rows, selected, width, connected, message);
    append_lines(&mut lines, &body);
    pad_to(&mut lines, (height - 1) as usize, width);
    let footer = if connected {
        let mut f = nat_to_string(rows.len() as u64);
        f.append(" live");
        f
    } else {
        owned("offline")
    };
    assert(footer@ == footer_text(rows@.len(), connected));
    push_clip(&mut lines, footer.as_str(), width);
    let ghost all = strings_view(lines@);
    if lines.len() > height as usize {
        lines.truncate(height as usize);
        assert(strings_view(lines@) =~= all.take(height as int));
    }
    lines
}

/// Render one complete ANSI frame: home, clear, and the frame's lines.
pub fn render_sidebar(
    rows: &Vec<WorkspaceRow>,
    selected: i64,
    cols: i64,
    rows_h: i64,
    connected: bool,
    message: &str,
) -> (r: String)
    requires
        cols <= 0x7fff_ffff,
        rows_h <= 0x7fff_ffff,
    ensures
        r@ == "\x1b[H\x1b[J"@ + join(
            frame_lines(rows@, selected as int, cols as int, rows_h as int, connected, message@),
            "\n"@,
        ),
{
    let lines = frame_lines_exec(rows, selected, cols, rows_h, connected, message);
    let body = join_lines(&lines, "\n");
    let mut out = owned("\x1b[H\x1b[J");
    out.append(body.as_str());
    out
}

/// Every frame fills the terminal height exactly: header, body and padding
/// are cut or padded so that the footer is always the last of
/// `frame_height` lines.
pub proof fn law_frame_height(
    rows: Seq<WorkspaceRow>,
    selected: int,
    cols: int,
    rows_h: int,
    connected: bool,
    message: Seq<char>,
)
    ensures
        frame_lines(rows, selected, cols, rows_h, connected, message).len() == frame_height(rows_h),
{
}

/// Every clipped line is exactly `width` characters wide.
pub proof fn law_clip_width(text: Seq<char>, width: int)
    requires
        width >= 1,
    ensures
        clip_spec(text, width).len() == width,
{
}

pub open spec fn row_view(r: WorkspaceRow) -> (Seq<char>, Seq<char>, bool, Option<Seq<char>>) {
    (r.id@, r.name@, r.active, crate::text::opt_view(r.key))
}

/// One listed workspace: an object with a non-null `id` and a string
/// `name`; `active` by truthiness; `key` when a non-empty string.
pub open spec fn row_of(item: Json) -> Option<(Seq<char>, Seq<char>, bool, Option<Seq<char>>)> {
    let id = json_get(item, "id"@);
    let key = match json_get(item, "key"@) {
        Some(Json::Str(k)) => if k@.len() > 0 {
            Some(k@)
        } else {
            None
        },
        _ => None,
    };
    if !(item is Object) || id is None || id.unwrap() is Null {
        None
    } else {
        match json_get(item, "name"@) {
            Some(Json::Str(n)) => Some(
                (json_text(id.unwrap()), n@, truthy(json_get(item, "active"@)), key),
            ),
            _ => None,
        }
    }
}

pub open spec fn rows_of(items: Seq<Json>) -> Seq<(Seq<char>, Seq<char>, bool, Option<Seq<char>>)>
    decreases items.len(),
{
    if items.len() == 0 {
        Seq::empty()
    } else {
        match row_of(items.last()) {
            Some(r) => rows_of(items.drop_last()).push(r),
            None => rows_of(items.drop_last()),
        }
    }
}

/// The rows of a `list-workspaces` result: its `workspaces` array, items
/// that are not workspaces skipped.
pub open spec fn tree_rows(payload: Json) -> Seq<(Seq<char>, Seq<char>, bool, Option<Seq<char>>)> {
    match json_get(payload, "workspaces"@) {
        Some(Json::Array { items, .. }) => rows_of(items@),
        _ => Seq::empty(),
    }
}

fn row_exec(item: &Json) -> (r: Option<WorkspaceRow>)
    ensures
        match r {
            Some(w) => row_of(*item) == Some(row_view(w)),
            None => row_of(*item) is None,
        },
{
    if !item.is_object() {
        return None;
    }
    let id = match item.get("id") {
        Some(v) => if v.is_null() {
            return None;
        } else {
            v
        },
        None => return None,
    };
    let name = match item.get("name") {
        Some(Json::Str(n)) => n.clone(),
        _ => return None,
    };
    let key = match item.get("key") {
        Some(Json::Str(k)) => if k.as_str().is_empty() {
            None
        } else {
            Some(k.clone())
        },
        _ => None,
    };
    let active = is_truthy(item.get("active"));
    Some(WorkspaceRow { id: id.text(), name, active, key })
}

/// Rows from a `list-workspaces` result (see [`tree_rows`]).
pub fn workspaces_from_tree(payload: &Json) -> (r: Vec<WorkspaceRow>)
    ensures
        r@.map_values(|w: WorkspaceRow| row_view(w)) == tree_rows(*payload),
{
    let items = match payload.get("workspaces") {
        Some(Json::Array { items, .. }) => items,
        _ => {
            let v: Vec<WorkspaceRow> = Vec::new();
            assert(v@.map_values(|w: WorkspaceRow| row_view(w)) =~= Seq::empty());
            return v;
        },
    };
    let mut out: Vec<WorkspaceRow> = Vec::new();
    let mut i: usize = 0;
    while i < items.len()
        invariant
            i <= items.len(),
            out@.map_values(|w: WorkspaceRow| row_view(w)) == rows_of(items@.take(i as int)),
        decreases items.len() - i,
    {
        assert(items@.take(i + 1).drop_last() =~= items@.take(i as int));
        match row_exec(&items[i]) {
            Some(w) => {
                let ghost o0 = out@.map_values(|w: WorkspaceRow| row_view(w));
                out.push(w);
                assert(out@.map_values(|w: WorkspaceRow| row_view(w)) =~= o0.push(row_view(w)));
            },
            None => {},
        }
        i += 1;
    }
    assert(items@.take(items.len() as int) =~= items@);
    out
}


/// Four lower-case hex digits of `n` (below 65536).
pub open spec fn hex4(n: int) -> Seq<char> {
    seq![
        crate::socket::hex_digit(n / 4096),
        crate::socket::hex_digit((n / 256) % 16),
        crate::socket::hex_digit((n / 16) % 16),
        crate::socket::hex_digit(n % 16),
    ]
}

/// A character outside printable ASCII as a JSON escape: `\uXXXX`, or a
/// surrogate pair beyond the basic plane.
pub open spec fn unicode_escape(c: char) -> Seq<char> {
    let n = c as u32 as int;
    if n <= 0xffff {
        seq!['\\', 'u'] + hex4(n)
    } else {
        let m = n - 0x10000;
        seq!['\\', 'u'] + hex4(0xd800 + m / 1024) + seq!['\\', 'u'] + hex4(0xdc00 + m % 1024)
    }
}

/// Printable ASCII: below 128 and not a control character.
pub open spec fn plain_ascii(c: char) -> bool {
    0x20 <= (c as u32) && (c as u32) < 0x7f
}

/// One step over compact JSON text; the state says whether the walk is
/// inside a string and just after a backslash there.
pub open spec fn ascii_step(st: (bool, bool), c: char) -> ((bool, bool), Seq<char>) {
    let (in_string, after_backslash) = st;
    if !in_string {
        ((c == '"', false), seq![c])
    } else if after_backslash {
        ((true, false), seq![c])
    } else if c == '\\' {
        ((true, true), seq![c])
    } else if c == '"' {
        ((false, false), seq![c])
    } else if plain_ascii(c) {
        ((true, false), seq![c])
    } else {
        ((true, false), unicode_escape(c))
    }
}

pub open spec fn ascii_run(st: (bool, bool), s: Seq<char>) -> ((bool, bool), Seq<char>)
    decreases s.len(),
{
    if s.len() == 0 {
        (st, Seq::empty())
    } else {
        let (s1, o1) = ascii_run(st, s.drop_last());
        let (s2, o2) = ascii_step(s1, s.last());
        (s2, o1 + o2)
    }
}

/// Compact JSON text with every character inside strings that is not
/// printable ASCII written as a `\u` escape.
pub open spec fn ascii_json(s: Seq<char>) -> Seq<char> {
    ascii_run((false, false), s).1
}

fn push_hex4(out: &mut String, n: u32)
    requires
        n < 0x10000,
    ensures
        final(out)@ == old(out)@ + hex4(n as int),
{
    let d0 = crate::digest::hex_digit_exec((n / 4096) as u8);
    let d1 = crate::digest::hex_digit_exec(((n / 256) % 16) as u8);
    let d2 = crate::digest::hex_digit_exec(((n / 16) % 16) as u8);
    let d3 = crate::digest::hex_digit_exec((n % 16) as u8);
    push_char(out, d0);
    push_char(out, d1);
    push_char(out, d2);
    push_char(out, d3);
    proof {
        assert(d0 == crate::socket::hex_digit(n as int / 4096));
        assert(d1 == crate::socket::hex_digit((n as int / 256) % 16));
        assert(d2 == crate::socket::hex_digit((n as int / 16) % 16));
        assert(d3 == crate::socket::hex_digit(n as int % 16));
        assert(final(out)@ =~= old(out)@ + hex4(n as int));
    }
}

/// `encoded` (compact JSON text) with non-ASCII and control characters
/// inside strings escaped (see [`ascii_json`]).
pub fn ascii_escape_json(encoded: &str) -> (r: String)
    ensures
        r@ == ascii_json(encoded@),
{
    let v = chars_of(encoded);
    let mut out = String::new();
    let mut in_string = false;
    let mut after_backslash = false;
    let mut i: usize = 0;
    while i < v.len()
        invariant
            i <= v.len(),
            v@ == encoded@,
            ((in_string, after_backslash), out@) == ascii_run((false, false), v@.subrange(0, i as int)),
        decreases v.len() - i,
    {
        let c = v[i];
        let ghost o0 = out@;
        let ghost st = (in_string, after_backslash);
        assert(v@.subrange(0, i + 1).drop_last() =~= v@.subrange(0, i as int));
        assert(v@.subrange(0, i + 1).last() == c);
        if !in_string {
            push_char(&mut out, c);
            in_string = c == '"';
            after_backslash = false;
        } else if after_backslash {
            push_char(&mut out, c);
            after_backslash = false;
        } else if c == '\\' {
            push_char(&mut out, c);
            after_backslash = true;
        } else if c == '"' {
            push_char(&mut out, c);
            in_string = false;
        } else if 0x20 <= (c as u32) && (c as u32) < 0x7f {
            push_char(&mut out, c);
        } else {
            let n = c as u32;
            push_char(&mut out, '\\');
            push_char(&mut out, 'u');
            if n <= 0xffff {
                push_hex4(&mut out, n);
            } else {
                let m = n - 0x10000;
                assert(m < 0x100000) by {
                    vstd::utf8::char_is_scalar(c);
                }
                push_hex4(&mut out, 0xd800 + m / 1024);
                push_char(&mut out, '\\');
                push_char(&mut out, 'u');
                push_hex4(&mut out, 0xdc00 + m % 1024);
            }
            assert(out@ =~= o0 + unicode_escape(c));
        }
        assert(out@ =~= o0 + ascii_step(st, c).1);
        i += 1;
    }
    assert(v@.subrange(0, v@.len() as int) =~= v@);
    out
}

/// A value as compact JSON text in ASCII: the request body the sidebar
/// sends (see [`ascii_json`]).
pub fn json_dumps_compact(value: &Json) -> (r: String)
    ensures
        r@ == ascii_json(crate::socket::json_text_of(*value)),
{
    let encoded = crate::socket::json_text_of_exec(value);
    ascii_escape_json(encoded.as_str())
}

} // verus!
