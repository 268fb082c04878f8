//! Pane-isolated output, input, focus, and working-directory routing.
//!
//! The screen-title filter is stateful because `ESC k ... ESC \` may be split
//! at any byte boundary between chunks.
use vstd::prelude::*;
use vstd::utf8::{
    encode_scalar, encode_utf8, has_width_1_encoding, has_width_2_encoding, has_width_3_encoding,
    last_continuation_byte, leading_byte_width_2, leading_byte_width_3, leading_byte_width_4,
    second_last_continuation_byte, third_last_continuation_byte,
};

use crate::assoc::{self, distinct, lookup, member, same_except, set_added, set_removed, unique, updated};
use crate::engine::{delta, output_delta};
use crate::text::{concat2, dec_nat, nat_to_string, opt_view, owned, str_eq, trim, trim_str};

verus! {

/// Position of the title filter inside an escape sequence.
#[derive(Debug, Clone, Copy, PartialEq, Eq)]
pub enum FilterState {
    Text,
    Esc,
    Title,
    TitleEsc,
}

/// One step of the title filter on a byte: next state and emitted bytes.
pub open spec fn step(st: FilterState, b: u8) -> (FilterState, Seq<u8>) {
    match st {
        FilterState::Text => if b == 0x1b {
            (FilterState::Esc, Seq::empty())
        } else {
            (FilterState::Text, seq![b])
        },
        FilterState::Esc => if b == 0x6b {
            (FilterState::Title, Seq::empty())
        } else if b == 0x1b {
            (FilterState::Esc, seq![0x1bu8])
        } else {
            (FilterState::Text, seq![0x1bu8, b])
        },
        FilterState::Title => if b == 0x1b {
            (FilterState::TitleEsc, Seq::empty())
        } else {
            (FilterState::Title, Seq::empty())
        },
        FilterState::TitleEsc => if b == 0x5c {
            (FilterState::Text, Seq::empty())
        } else if b != 0x1b {
            (FilterState::Title, Seq::empty())
        } else {
            (FilterState::TitleEsc, Seq::empty())
        },
    }
}

/// The filter run over a whole chunk: final state and emitted bytes.
pub open spec fn run(st: FilterState, data: Seq<u8>) -> (FilterState, Seq<u8>)
    decreases data.len(),
{
    if data.len() == 0 {
        (st, Seq::empty())
    } else {
        let (s1, o1) = run(st, data.drop_last());
        let (s2, o2) = step(s1, data.last());
        (s2, o1 + o2)
    }
}

/// The filter does not depend on how the stream is cut into chunks: running
/// it over `a` and then, from the state reached, over `b` gives the state
/// and output of running it over `a + b`.
pub proof fn law_filter_chunking(st: FilterState, a: Seq<u8>, b: Seq<u8>)
    ensures
        run(st, a + b) == ({
            let (s1, o1) = run(st, a);
            let (s2, o2) = run(s1, b);
            (s2, o1 + o2)
        }),
    decreases b.len(),
{
    if b.len() == 0 {
        assert(a + b =~= a);
        let (s1, o1) = run(st, a);
        assert(o1 + Seq::<u8>::empty() =~= o1);
    } else {
        law_filter_chunking(st, a, b.drop_last());
        assert((a + b).drop_last() =~= a + b.drop_last());
        assert((a + b).last() == b.last());
        let (s1, o1) = run(st, a);
        let (t1, p1) = run(s1, b.drop_last());
        let (t2, p2) = step(t1, b.last());
        assert(o1 + p1 + p2 =~= o1 + (p1 + p2));
    }
}

/// The same machine over characters (every special byte is ASCII).
pub open spec fn step_char(st: FilterState, c: char) -> (FilterState, Seq<char>) {
    match st {
        FilterState::Text => if c == '\x1b' {
            (FilterState::Esc, Seq::empty())
        } else {
            (FilterState::Text, seq![c])
        },
        FilterState::Esc => if c == 'k' {
            (FilterState::Title, Seq::empty())
        } else if c == '\x1b' {
            (FilterState::Esc, seq!['\x1b'])
        } else {
            (FilterState::Text, seq!['\x1b', c])
        },
        FilterState::Title => if c == '\x1b' {
            (FilterState::TitleEsc, Seq::empty())
        } else {
            (FilterState::Title, Seq::empty())
        },
        FilterState::TitleEsc => if c == '\\' {
            (FilterState::Text, Seq::empty())
        } else if c != '\x1b' {
            (FilterState::Title, Seq::empty())
        } else {
            (FilterState::TitleEsc, Seq::empty())
        },
    }
}

pub open spec fn run_chars(st: FilterState, data: Seq<char>) -> (FilterState, Seq<char>)
    decreases data.len(),
{
    if data.len() == 0 {
        (st, Seq::empty())
    } else {
        let (s1, o1) = run_chars(st, data.drop_last());
        let (s2, o2) = step_char(s1, data.last());
        (s2, o1 + o2)
    }
}

/// Text is filtered the same however it is cut into chunks: filtering `a`
/// and then, from the state reached, `b` gives the state and output of
/// filtering `a + b`.
pub proof fn law_filter_text_chunking(st: FilterState, a: Seq<char>, b: Seq<char>)
    ensures
        run_chars(st, a + b) == ({
            let (s1, o1) = run_chars(st, a);
            let (s2, o2) = run_chars(s1, b);
            (s2, o1 + o2)
        }),
    decreases b.len(),
{
    if b.len() == 0 {
        assert(a + b =~= a);
        let (s1, o1) = run_chars(st, a);
        assert(o1 + Seq::<char>::empty() =~= o1);
    } else {
        law_filter_text_chunking(st, a, b.drop_last());
        assert((a + b).drop_last() =~= a + b.drop_last());
        assert((a + b).last() == b.last());
        let (s1, o1) = run_chars(st, a);
        let (t1, p1) = run_chars(s1, b.drop_last());
        let (t2, p2) = step_char(t1, b.last());
        assert(o1 + p1 + p2 =~= o1 + (p1 + p2));
    }
}

// ---- bytes and text --------------------------------------------------------------

/// UTF-8 encoding commutes with concatenation.
proof fn lemma_encode_concat(a: Seq<char>, b: Seq<char>)
    ensures
        encode_utf8(a + b) == encode_utf8(a) + encode_utf8(b),
    decreases a.len(),
{
    if a.len() == 0 {
        assert(a + b =~= b);
        assert(encode_utf8(a) =~= Seq::<u8>::empty());
        assert(Seq::<u8>::empty() + encode_utf8(b) =~= encode_utf8(b));
    } else {
        lemma_encode_concat(a.drop_first(), b);
        assert((a + b).drop_first() =~= a.drop_first() + b);
        assert((a + b)[0] == a[0]);
        let e0 = encode_scalar(a[0] as u32);
        assert(e0 + (encode_utf8(a.drop_first()) + encode_utf8(b)) =~= (e0 + encode_utf8(a.drop_first()))
            + encode_utf8(b));
    }
}

/// A byte that none of the filter's special bytes equals.
pub open spec fn plain_byte(b: u8) -> bool {
    b != 0x1b && b != 0x6b && b != 0x5c
}

/// Plain bytes pass through text untouched and vanish inside a title.
proof fn lemma_run_plain(bs: Seq<u8>)
    requires
        forall|i: int| 0 <= i < bs.len() ==> plain_byte(#[trigger] bs[i]),
    ensures
        run(FilterState::Text, bs) == (FilterState::Text, bs),
        run(FilterState::Title, bs) == (FilterState::Title, Seq::<u8>::empty()),
    decreases bs.len(),
{
    if bs.len() > 0 {
        let init = bs.drop_last();
        assert forall|i: int| 0 <= i < init.len() implies plain_byte(#[trigger] init[i]) by {
            assert(init[i] == bs[i]);
        }
        lemma_run_plain(init);
        assert(plain_byte(bs[bs.len() - 1]));
        assert(init + seq![bs.last()] =~= bs);
        assert(Seq::<u8>::empty() + Seq::<u8>::empty() =~= Seq::<u8>::empty());
    }
}

proof fn lemma_run_one(st: FilterState, b: u8)
    ensures
        run(st, seq![b]) == step(st, b),
{
    assert(seq![b].drop_last() =~= Seq::<u8>::empty());
    assert(seq![b].last() == b);
    assert(run(st, Seq::<u8>::empty()) == (st, Seq::<u8>::empty()));
    let (s2, o2) = step(st, b);
    assert(Seq::<u8>::empty() + o2 =~= o2);
}

/// One character's bytes take the filter where the character takes it, and
/// emit the bytes of what it emits.
proof fn lemma_run_char(st: FilterState, c: char)
    ensures
        run(st, encode_utf8(seq![c])) == (step_char(st, c).0, encode_utf8(step_char(st, c).1)),
{
    broadcast use vstd::utf8::char_is_scalar;
    let v = c as u32;
    assert(seq![c].drop_first() =~= Seq::<char>::empty());
    assert(encode_utf8(Seq::<char>::empty()) =~= Seq::<u8>::empty());
    assert(seq![c][0] == c);
    assert(encode_scalar(v) + Seq::<u8>::empty() =~= encode_scalar(v));
    assert(encode_utf8(seq![c]) =~= encode_scalar(v));
    let esc: u32 = '\x1b' as u32;
    assert(esc == 0x1b);
    assert(encode_scalar(esc) =~= seq![0x1bu8]) by {
        assert((0x1bu32 & 0x7F) as u8 == 0x1bu8) by (bit_vector);
    }
    assert(seq!['\x1b'].drop_first() =~= Seq::<char>::empty());
    assert(encode_utf8(seq!['\x1b']) =~= seq![0x1bu8]);
    assert(encode_utf8(Seq::<char>::empty()) =~= Seq::<u8>::empty());
    assert(seq!['\x1b', c] =~= seq!['\x1b'] + seq![c]);
    lemma_encode_concat(seq!['\x1b'], seq![c]);
    let e = encode_scalar(v);
    if has_width_1_encoding(v) {
        let b = (v & 0x7F) as u8;
        assert(b as u32 == v) by (bit_vector)
            requires
                v <= 0x7F,
                b == (v & 0x7F) as u8,
        ;
        assert(e =~= seq![b]);
        lemma_run_one(st, b);
        assert((b == 0x1b) == (c == '\x1b'));
        assert((b == 0x6b) == (c == 'k'));
        assert((b == 0x5c) == (c == '\\'));
        assert(seq![0x1bu8] + seq![b] =~= seq![0x1bu8, b]);
    } else {
        let b1 = e[0];
        let rest = e.drop_first();
        assert(e =~= seq![b1] + rest);
        let lc = last_continuation_byte(v);
        let sc = second_last_continuation_byte(v);
        let tc = third_last_continuation_byte(v);
        assert(lc >= 0x80) by (bit_vector)
            requires
                lc == 0x80u8 | ((v & 0x3F) as u8),
        ;
        assert(sc >= 0x80) by (bit_vector)
            requires
                sc == 0x80u8 | (((v >> 6) & 0x3F) as u8),
        ;
        assert(tc >= 0x80) by (bit_vector)
            requires
                tc == 0x80u8 | (((v >> 12) & 0x3F) as u8),
        ;
        if has_width_2_encoding(v) {
            let l = leading_byte_width_2(v);
            assert(l >= 0xC0) by (bit_vector)
                requires
                    l == 0xC0u8 | (((v >> 6) & 0x1F) as u8),
            ;
            assert(rest =~= seq![lc]);
        } else if has_width_3_encoding(v) {
            let l = leading_byte_width_3(v);
            assert(l >= 0xC0) by (bit_vector)
                requires
                    l == 0xE0u8 | (((v >> 12) & 0x0F) as u8),
            ;
            assert(rest =~= seq![sc, lc]);
        } else {
            let l = leading_byte_width_4(v);
            assert(l >= 0xC0) by (bit_vector)
                requires
                    l == 0xF0u8 | (((v >> 18) & 0x7) as u8),
            ;
            assert(rest =~= seq![tc, sc, lc]);
        }
        assert(b1 >= 0xC0);
        assert forall|i: int| 0 <= i < rest.len() implies plain_byte(#[trigger] rest[i]) by {
            assert(rest[i] >= 0x80);
        }
        lemma_run_plain(rest);
        lemma_run_one(st, b1);
        law_filter_chunking(st, seq![b1], rest);
        assert(c != '\x1b' && c != 'k' && c != '\\');
        assert(seq![0x1bu8, b1] + rest =~= seq![0x1bu8] + e);
        assert(seq![b1] + rest =~= e);
        assert(Seq::<u8>::empty() + Seq::<u8>::empty() =~= Seq::<u8>::empty());
    }
}

/// Filtering text and filtering its UTF-8 bytes agree: from the same state,
/// the filter over the bytes of `s` reaches the state the text filter
/// reaches and emits the bytes of the text it emits.
pub proof fn law_filter_utf8(st: FilterState, s: Seq<char>)
    ensures
        run(st, encode_utf8(s)) == (run_chars(st, s).0, encode_utf8(run_chars(st, s).1)),
    decreases s.len(),
{
    if s.len() == 0 {
        assert(encode_utf8(s) =~= Seq::<u8>::empty());
        assert(encode_utf8(Seq::<char>::empty()) =~= Seq::<u8>::empty());
    } else {
        let init = s.drop_last();
        let c = s.last();
        law_filter_utf8(st, init);
        assert(s =~= init + seq![c]);
        lemma_encode_concat(init, seq![c]);
        law_filter_chunking(st, encode_utf8(init), encode_utf8(seq![c]));
        let (s1, o1) = run_chars(st, init);
        lemma_run_char(s1, c);
        let (s2, o2) = step_char(s1, c);
        lemma_encode_concat(o1, o2);
    }
}

// ---- what the filter keeps and what it removes -----------------------------------

/// `data` holds no `ESC k` pair: nothing in it opens a title sequence.
pub open spec fn no_title_open(data: Seq<u8>) -> bool {
    forall|i: int| 0 <= i < data.len() - 1 ==> !(#[trigger] data[i] == 0x1bu8 && data[i + 1] == 0x6bu8)
}

/// Output that opens no title passes through unchanged: from the text
/// state, a stream without `ESC k` comes out byte for byte, except that a
/// trailing `ESC` is held back (the filter waits for the byte after it).
/// Every other escape, such as the `ESC [` of a colour code, is kept.
pub proof fn law_filter_keeps_other_escapes(data: Seq<u8>)
    requires
        no_title_open(data),
    ensures
        run(FilterState::Text, data) == if data.len() > 0 && data.last() == 0x1bu8 {
            (FilterState::Esc, data.drop_last())
        } else {
            (FilterState::Text, data)
        },
    decreases data.len(),
{
    if data.len() > 0 {
        let init = data.drop_last();
        let b = data.last();
        assert forall|i: int| 0 <= i < init.len() - 1 implies !(#[trigger] init[i] == 0x1bu8 && init[i + 1]
            == 0x6bu8) by {
            assert(init[i] == data[i] && init[i + 1] == data[i + 1]);
        }
        law_filter_keeps_other_escapes(init);
        if init.len() > 0 && init.last() == 0x1bu8 {
            assert(data[init.len() - 1] == 0x1bu8);
            assert(b != 0x6bu8);
            assert(init.drop_last().push(0x1bu8) =~= init);
            if b == 0x1bu8 {
                assert(init.drop_last() + seq![0x1bu8] =~= init);
            } else {
                assert(init.drop_last() + seq![0x1bu8, b] =~= data);
            }
        } else {
            if b == 0x1bu8 {
                assert(init + Seq::<u8>::empty() =~= init);
            } else {
                assert(init + seq![b] =~= data);
            }
        }
    }
}

/// `data` holds no `ESC \` pair: nothing in it closes a title sequence.
pub open spec fn no_title_close(data: Seq<u8>) -> bool {
    forall|i: int| 0 <= i < data.len() - 1 ==> !(#[trigger] data[i] == 0x1bu8 && data[i + 1] == 0x5cu8)
}

/// A whole title sequence `ESC k <title> ESC \` is removed entirely, and the
/// filter is back in the text state after it, whatever the title holds
/// (escapes included) as long as nothing in it closes the sequence early.
pub proof fn law_filter_removes_title(title: Seq<u8>)
    requires
        no_title_close(title),
    ensures
        run(FilterState::Text, seq![0x1bu8, 0x6bu8] + title + seq![0x1bu8, 0x5cu8]) == (
            FilterState::Text,
            Seq::<u8>::empty(),
        ),
{
    let open = seq![0x1bu8, 0x6bu8];
    assert(open.drop_last() =~= seq![0x1bu8]);
    lemma_run_one(FilterState::Text, 0x1bu8);
    assert(Seq::<u8>::empty() + Seq::<u8>::empty() =~= Seq::<u8>::empty());
    assert(run(FilterState::Text, open) == (FilterState::Title, Seq::<u8>::empty()));
    lemma_title_body(title);
    law_filter_chunking(FilterState::Text, open, title);
    let close = seq![0x1bu8, 0x5cu8];
    assert(close.drop_last() =~= seq![0x1bu8]);
    let s1 = run(FilterState::Title, title).0;
    lemma_run_one(s1, 0x1bu8);
    assert(run(s1, close) == (FilterState::Text, Seq::<u8>::empty()));
    law_filter_chunking(FilterState::Text, open + title, close);
}

/// Inside a title nothing is emitted; the filter stays in the title, or
/// just after an `ESC` in it when the title so far ends with one.
proof fn lemma_title_body(title: Seq<u8>)
    requires
        no_title_close(title),
    ensures
        run(FilterState::Title, title) == (
            if title.len() > 0 && title.last() == 0x1bu8 {
                FilterState::TitleEsc
            } else {
                FilterState::Title
            },
            Seq::<u8>::empty(),
        ),
    decreases title.len(),
{
    if title.len() > 0 {
        let init = title.drop_last();
        assert forall|i: int| 0 <= i < init.len() - 1 implies !(#[trigger] init[i] == 0x1bu8 && init[i + 1]
            == 0x5cu8) by {
            assert(init[i] == title[i] && init[i + 1] == title[i + 1]);
        }
        lemma_title_body(init);
        if init.len() > 0 && init.last() == 0x1bu8 {
            assert(title[init.len() - 1] == 0x1bu8);
            assert(title.last() != 0x5cu8);
        }
        assert(Seq::<u8>::empty() + Seq::<u8>::empty() =~= Seq::<u8>::empty());
    }
}

/// Removes `ESC k <title> ESC \` screen-title sequences from a stream.
#[derive(Debug, Clone)]
pub struct TitleEscapeFilter {
    state: FilterState,
}

impl TitleEscapeFilter {
    pub closed spec fn at(self) -> FilterState {
        self.state
    }

    pub fn new() -> (r: Self)
        ensures
            r.at() == FilterState::Text,
    {
        TitleEscapeFilter { state: FilterState::Text }
    }

    pub fn reset(&mut self)
        ensures
            final(self).at() == FilterState::Text,
    {
        self.state = FilterState::Text;
    }

    /// Filter one chunk of bytes.
    pub fn filter(&mut self, data: &[u8]) -> (r: Vec<u8>)
        ensures
            (final(self).at(), r@) == run(old(self).at(), data@),
    {
        let mut out: Vec<u8> = Vec::new();
        let mut state = self.state;
        let mut i: usize = 0;
        while i < data.len()
            invariant
                i <= data.len(),
                (state, out@) == run(old(self).at(), data@.subrange(0, i as int)),
            decreases data.len() - i,
        {
            let b = data[i];
            assert(data@.subrange(0, i + 1).drop_last() =~= data@.subrange(0, i as int));
            let ghost before = out@;
            match state {
                FilterState::Text => {
                    if b == 0x1b {
                        state = FilterState::Esc;
                    } else {
                        out.push(b);
                    }
                },
                FilterState::Esc => {
                    if b == 0x6b {
                        state = FilterState::Title;
                    } else if b == 0x1b {
                        out.push(0x1b);
                    } else {
                        out.push(0x1b);
                        out.push(b);
                        state = FilterState::Text;
                    }
                },
                FilterState::Title => {
                    if b == 0x1b {
                        state = FilterState::TitleEsc;
                    }
                },
                FilterState::TitleEsc => {
                    if b == 0x5c {
                        state = FilterState::Text;
                    } else if b != 0x1b {
                        state = FilterState::Title;
                    }
                },
            }
            assert(out@ =~= before + run(
                old(self).at(),
                data@.subrange(0, i + 1),
            ).1.subrange(before.len() as int, run(old(self).at(), data@.subrange(0, i + 1)).1.len() as int));
            i += 1;
        }
        assert(data@.subrange(0, data@.len() as int) =~= data@);
        self.state = state;
        out
    }

    /// Filter one chunk of text.
    pub fn filter_text(&mut self, text: &str) -> (r: String)
        ensures
            (final(self).at(), r@) == run_chars(old(self).at(), text@),
    {
        let data = crate::text::chars_of(text);
        let mut out = String::new();
        let mut state = self.state;
        let mut i: usize = 0;
        while i < data.len()
            invariant
                i <= data.len(),
                data@ == text@,
                (state, out@) == run_chars(old(self).at(), data@.subrange(0, i as int)),
            decreases data.len() - i,
        {
            let c = data[i];
            assert(data@.subrange(0, i + 1).drop_last() =~= data@.subrange(0, i as int));
            let ghost before = out@;
            match state {
                FilterState::Text => {
                    if c == '\x1b' {
                        state = FilterState::Esc;
                    } else {
                        crate::text::push_char(&mut out, c);
                    }
                },
                FilterState::Esc => {
                    if c == 'k' {
                        state = FilterState::Title;
                    } else if c == '\x1b' {
                        crate::text::push_char(&mut out, '\x1b');
                    } else {
                        crate::text::push_char(&mut out, '\x1b');
                        crate::text::push_char(&mut out, c);
                        state = FilterState::Text;
                    }
                },
                FilterState::Title => {
                    if c == '\x1b' {
                        state = FilterState::TitleEsc;
                    }
                },
                FilterState::TitleEsc => {
                    if c == '\\' {
                        state = FilterState::Text;
                    } else if c != '\x1b' {
                        state = FilterState::Title;
                    }
                },
            }
            assert(out@ =~= run_chars(old(self).at(), data@.subrange(0, i + 1)).1);
            i += 1;
        }
        assert(data@.subrange(0, data@.len() as int) =~= data@);
        self.state = state;
        out
    }
}

/// Bytes written to a bound host surface.
#[derive(Debug, Clone, PartialEq, Eq)]
pub struct SurfaceWrite {
    pub pane_id: String,
    pub surface_id: String,
    pub data: Vec<u8>,
    pub full_redraw: bool,
}

/// Bytes to send to a provider pane.
#[derive(Debug, Clone, PartialEq, Eq)]
pub struct InputSend {
    pub pane_id: String,
    pub data: Vec<u8>,
}

/// How a focus change should be projected.
#[derive(Debug, Clone, PartialEq, Eq)]
pub struct FocusProjection {
    pub pane_id: Option<String>,
    pub send_to_provider: bool,
    pub changed: bool,
    pub source: String,
}

/// A working-directory change for a pane (and its tab when focused).
#[derive(Debug, Clone, PartialEq, Eq)]
pub struct CwdUpdate {
    pub pane_id: String,
    pub tab_id: String,
    pub path: String,
    pub apply_to_tab: bool,
}

/// Routes each pane's traffic to its own bound surface and nowhere else.
#[derive(Debug, Clone)]
pub struct PaneIORouter {
    pub surfaces: Vec<(String, String)>,
    pub buffers: Vec<(String, Vec<u8>)>,
    pub last_snapshot: Vec<(String, String)>,
    pub title_filters: Vec<(String, TitleEscapeFilter)>,
    pub live_pane_ids: Vec<String>,
    pub cwd_by_pane: Vec<(String, String)>,
    pub active_pane_id: Option<String>,
    pub pending_user_focus: Option<String>,
    pub log: Vec<String>,
}

pub open spec fn bytes_of(o: Option<Vec<u8>>) -> Seq<u8> {
    match o {
        Some(v) => v@,
        None => Seq::empty(),
    }
}

pub open spec fn filter_state(o: Option<TitleEscapeFilter>) -> FilterState {
    match o {
        Some(f) => f.at(),
        None => FilterState::Text,
    }
}

pub open spec fn surface_of(r: PaneIORouter, pane: Seq<char>) -> Option<Seq<char>> {
    match lookup(r.surfaces@, pane) {
        Some(s) => Some(s@),
        None => None,
    }
}

pub open spec fn bit(b: bool) -> Seq<char> {
    if b {
        "1"@
    } else {
        "0"@
    }
}

impl PaneIORouter {
    /// Map keys are distinct.
    pub open spec fn wf(self) -> bool {
        &&& unique(self.surfaces@)
        &&& unique(self.buffers@)
        &&& unique(self.last_snapshot@)
        &&& unique(self.title_filters@)
        &&& distinct(self.live_pane_ids@)
        &&& unique(self.cwd_by_pane@)
    }

    pub fn new() -> (r: Self)
        ensures
            r.wf(),
            r.surfaces@.len() == 0,
            r.buffers@.len() == 0,
            r.last_snapshot@.len() == 0,
            r.title_filters@.len() == 0,
            r.live_pane_ids@.len() == 0,
            r.cwd_by_pane@.len() == 0,
            r.active_pane_id is None,
            r.pending_user_focus is None,
            r.log@.len() == 0,
    {
        PaneIORouter {
            surfaces: Vec::new(),
            buffers: Vec::new(),
            last_snapshot: Vec::new(),
            title_filters: Vec::new(),
            live_pane_ids: Vec::new(),
            cwd_by_pane: Vec::new(),
            active_pane_id: None,
            pending_user_focus: None,
            log: Vec::new(),
        }
    }

    /// Bind a provider pane to a host surface.
    pub fn bind(&mut self, pane_id: &str, surface_id: &str)
        requires
            old(self).wf(),
        ensures
            final(self).wf(),
            surface_of(*final(self), pane_id@) == Some(surface_id@),
            same_except(final(self).surfaces@, old(self).surfaces@, pane_id@),
            lookup(final(self).buffers@, surface_id@) == (if lookup(old(self).buffers@, surface_id@) is Some {
                lookup(old(self).buffers@, surface_id@)
            } else {
                lookup(final(self).buffers@, surface_id@)
            }),
            bytes_of(lookup(final(self).buffers@, surface_id@)) == bytes_of(lookup(old(self).buffers@, surface_id@)),
            lookup(final(self).buffers@, surface_id@) is Some,
            same_except(final(self).buffers@, old(self).buffers@, surface_id@),
            set_added(final(self).live_pane_ids@, old(self).live_pane_ids@, pane_id@),
            filter_state(lookup(final(self).title_filters@, pane_id@)) == filter_state(lookup(old(self).title_filters@, pane_id@)),
            lookup(final(self).title_filters@, pane_id@) is Some,
            same_except(final(self).title_filters@, old(self).title_filters@, pane_id@),
            final(self).last_snapshot == old(self).last_snapshot,
            final(self).cwd_by_pane == old(self).cwd_by_pane,
            final(self).active_pane_id == old(self).active_pane_id,
            final(self).pending_user_focus == old(self).pending_user_focus,
            final(self).log@.len() == old(self).log@.len() + 1,
            final(self).log@.drop_last() == old(self).log@,
            final(self).log@.last()@ == "bind:"@ + pane_id@ + ":"@ + surface_id@,
    {
        assoc::set(&mut self.surfaces, owned(pane_id), owned(surface_id));
        if !assoc::contains_key(&self.buffers, surface_id) {
            assoc::set(&mut self.buffers, owned(surface_id), Vec::new());
        }
        assoc::set_insert(&mut self.live_pane_ids, pane_id);
        if !assoc::contains_key(&self.title_filters, pane_id) {
            assoc::set(&mut self.title_filters, owned(pane_id), TitleEscapeFilter::new());
        }
        let mut line = owned("bind:");
        line.append(pane_id);
        line.append(":");
        line.append(surface_id);
        self.log.push(line);
    }

    /// Forget a pane: its surface binding, snapshot, filter, cwd, focus.
    pub fn unbind(&mut self, pane_id: &str)
        requires
            old(self).wf(),
        ensures
            final(self).wf(),
            updated(final(self).surfaces@, old(self).surfaces@, pane_id@, None),
            updated(final(self).last_snapshot@, old(self).last_snapshot@, pane_id@, None),
            updated(final(self).title_filters@, old(self).title_filters@, pane_id@, None),
            updated(final(self).cwd_by_pane@, old(self).cwd_by_pane@, pane_id@, None),
            set_removed(final(self).live_pane_ids@, old(self).live_pane_ids@, pane_id@),
            final(self).buffers == old(self).buffers,
            final(self).active_pane_id == (if opt_view(old(self).active_pane_id) == Some(pane_id@) {
                None
            } else {
                old(self).active_pane_id
            }),
            final(self).pending_user_focus == (if opt_view(old(self).pending_user_focus) == Some(pane_id@) {
                None
            } else {
                old(self).pending_user_focus
            }),
            final(self).log@.drop_last() == old(self).log@,
            final(self).log@.len() == old(self).log@.len() + 1,
            final(self).log@.last()@ == "unbind:"@ + pane_id@,
    {
        assoc::remove(&mut self.surfaces, pane_id);
        assoc::remove(&mut self.last_snapshot, pane_id);
        assoc::remove(&mut self.title_filters, pane_id);
        assoc::remove(&mut self.cwd_by_pane, pane_id);
        assoc::set_remove(&mut self.live_pane_ids, pane_id);
        if crate::text::opt_string_eq(&self.active_pane_id, pane_id) {
            self.active_pane_id = None;
        }
        if crate::text::opt_string_eq(&self.pending_user_focus, pane_id) {
            self.pending_user_focus = None;
        }
        self.log.push(concat2("unbind:", pane_id));
    }

    /// Replace the set of live panes.
    pub fn set_live_panes(&mut self, pane_ids: &[String])
        requires
            old(self).wf(),
        ensures
            final(self).wf(),
            forall|q: Seq<char>| #[trigger] member(final(self).live_pane_ids@, q) == member(pane_ids@, q),
            final(self).surfaces == old(self).surfaces,
            final(self).buffers == old(self).buffers,
            final(self).last_snapshot == old(self).last_snapshot,
            final(self).title_filters == old(self).title_filters,
            final(self).cwd_by_pane == old(self).cwd_by_pane,
            final(self).active_pane_id == old(self).active_pane_id,
            final(self).pending_user_focus == old(self).pending_user_focus,
            final(self).log == old(self).log,
    {
        let mut live: Vec<String> = Vec::new();
        let mut i: usize = 0;
        while i < pane_ids.len()
            invariant
                i <= pane_ids.len(),
                distinct(live@),
                forall|q: Seq<char>| #[trigger] member(live@, q) == member(pane_ids@.subrange(0, i as int), q),
            decreases pane_ids.len() - i,
        {
            assoc::set_insert(&mut live, pane_ids[i].as_str());
            assert forall|q: Seq<char>| #[trigger] member(live@, q) == member(pane_ids@.subrange(0, i + 1), q) by {
                let pre = pane_ids@.subrange(0, i as int);
                let nxt = pane_ids@.subrange(0, i + 1);
                if member(pre, q) {
                    let j = choose|j: int| 0 <= j < pre.len() && pre[j]@ == q;
                    assert(nxt[j] == pre[j]);
                }
                if member(nxt, q) {
                    let j = choose|j: int| 0 <= j < nxt.len() && nxt[j]@ == q;
                    if j < i {
                        assert(nxt[j] == pre[j]);
                    }
                }
                if q == pane_ids@[i as int]@ {
                    assert(nxt[i as int]@ == q);
                }
            }
            i += 1;
        }
        assert(pane_ids@.subrange(0, pane_ids@.len() as int) =~= pane_ids@);
        self.live_pane_ids = live;
    }

    /// Route raw output of `pane_id` to its bound surface, with screen titles removed.
    pub fn route_output(&mut self, pane_id: &str, data: &[u8]) -> (r: Option<SurfaceWrite>)
        requires
            old(self).wf(),
        ensures
            final(self).wf(),
            surface_of(*old(self), pane_id@) is None || data@.len() == 0 ==> r is None && *final(self) == *old(self),
            surface_of(*old(self), pane_id@) is Some && data@.len() > 0 ==> {
                let sid = surface_of(*old(self), pane_id@).unwrap();
                let (st, cleaned) = run(filter_state(lookup(old(self).title_filters@, pane_id@)), data@);
                &&& filter_state(lookup(final(self).title_filters@, pane_id@)) == st
                &&& lookup(final(self).title_filters@, pane_id@) is Some
                &&& same_except(final(self).title_filters@, old(self).title_filters@, pane_id@)
                &&& final(self).surfaces == old(self).surfaces
                &&& final(self).last_snapshot == old(self).last_snapshot
                &&& final(self).live_pane_ids == old(self).live_pane_ids
                &&& final(self).cwd_by_pane == old(self).cwd_by_pane
                &&& final(self).active_pane_id == old(self).active_pane_id
                &&& final(self).pending_user_focus == old(self).pending_user_focus
                &&& (cleaned.len() == 0 ==> r is None && final(self).buffers == old(self).buffers
                    && final(self).log == old(self).log)
                &&& (cleaned.len() > 0 ==> {
                    &&& r matches Some(w) && w.pane_id@ == pane_id@ && w.surface_id@ == sid
                        && w.data@ == cleaned && !w.full_redraw
                    &&& bytes_of(lookup(final(self).buffers@, sid)) == bytes_of(lookup(old(self).buffers@, sid)) + cleaned
                    &&& lookup(final(self).buffers@, sid) is Some
                    &&& same_except(final(self).buffers@, old(self).buffers@, sid)
                    &&& final(self).log@.drop_last() == old(self).log@
                    &&& final(self).log@.len() == old(self).log@.len() + 1
                    &&& final(self).log@.last()@ == "out:"@ + pane_id@ + ":"@ + dec_nat(cleaned.len())
                })
            },
    {
        let surface_id = match assoc::get(&self.surfaces, pane_id) {
            Some(s) => s.clone(),
            None => {
                return None;
            },
        };
        if data.len() == 0 {
            return None;
        }
        let mut filter = match assoc::remove(&mut self.title_filters, pane_id) {
            Some(f) => f,
            None => TitleEscapeFilter::new(),
        };
        let cleaned = filter.filter(data);
        assoc::set(&mut self.title_filters, owned(pane_id), filter);
        if cleaned.len() == 0 {
            return None;
        }
        let mut buf = match assoc::remove(&mut self.buffers, surface_id.as_str()) {
            Some(b) => b,
            None => Vec::new(),
        };
        let mut i: usize = 0;
        let ghost b0 = buf@;
        while i < cleaned.len()
            invariant
                i <= cleaned.len(),
                buf@ == b0 + cleaned@.subrange(0, i as int),
            decreases cleaned.len() - i,
        {
            buf.push(cleaned[i]);
            assert(cleaned@.subrange(0, i + 1) == cleaned@.subrange(0, i as int).push(cleaned@[i as int]));
            i += 1;
        }
        assert(cleaned@.subrange(0, cleaned@.len() as int) =~= cleaned@);
        assoc::set(&mut self.buffers, surface_id.clone(), buf);
        let mut line = owned("out:");
        line.append(pane_id);
        line.append(":");
        let n = nat_to_string(cleaned.len() as u64);
        line.append(n.as_str());
        self.log.push(line);
        Some(SurfaceWrite { pane_id: owned(pane_id), surface_id, data: cleaned, full_redraw: false })
    }

    /// Route a full-text snapshot of `pane_id`: the new suffix when it extends
    /// the last snapshot, otherwise a full redraw that replaces the buffer.
    pub fn route_output_text(&mut self, pane_id: &str, current: &str) -> (r: Option<SurfaceWrite>)
        requires
            old(self).wf(),
        ensures
            final(self).wf(),
            surface_of(*old(self), pane_id@) is None ==> r is None && *final(self) == *old(self),
            surface_of(*old(self), pane_id@) is Some ==> {
                let sid = surface_of(*old(self), pane_id@).unwrap();
                let prev = match lookup(old(self).last_snapshot@, pane_id@) {
                    Some(p) => Some(p@),
                    None => None,
                };
                let (chunk, full) = delta(prev, current@);
                let st0 = if full { FilterState::Text } else { filter_state(lookup(old(self).title_filters@, pane_id@)) };
                let (st, encoded) = run(st0, vstd::utf8::encode_utf8(chunk));
                &&& lookup(final(self).last_snapshot@, pane_id@) matches Some(s) && s@ == current@
                &&& same_except(final(self).last_snapshot@, old(self).last_snapshot@, pane_id@)
                &&& final(self).surfaces == old(self).surfaces
                &&& final(self).live_pane_ids == old(self).live_pane_ids
                &&& final(self).cwd_by_pane == old(self).cwd_by_pane
                &&& final(self).active_pane_id == old(self).active_pane_id
                &&& final(self).pending_user_focus == old(self).pending_user_focus
                &&& (chunk.len() == 0 && !full ==> r is None && final(self).buffers == old(self).buffers
                    && final(self).log == old(self).log && final(self).title_filters == old(self).title_filters)
                &&& (chunk.len() > 0 || full ==> {
                    &&& filter_state(lookup(final(self).title_filters@, pane_id@)) == st
                    &&& same_except(final(self).title_filters@, old(self).title_filters@, pane_id@)
                    &&& (full ==> bytes_of(lookup(final(self).buffers@, sid)) == encoded)
                    &&& (!full && encoded.len() > 0 ==> bytes_of(lookup(final(self).buffers@, sid))
                        == bytes_of(lookup(old(self).buffers@, sid)) + encoded)
                    &&& (!full && encoded.len() == 0 ==> r is None && final(self).buffers == old(self).buffers
                        && final(self).log == old(self).log)
                    &&& (full || encoded.len() > 0 ==> {
                        &&& same_except(final(self).buffers@, old(self).buffers@, sid)
                        &&& lookup(final(self).buffers@, sid) is Some
                        &&& r matches Some(w) && w.pane_id@ == pane_id@ && w.surface_id@ == sid
                            && w.data@ == encoded && w.full_redraw == full
                        &&& final(self).log@.drop_last() == old(self).log@
                        &&& final(self).log@.len() == old(self).log@.len() + 1
                        &&& final(self).log@.last()@ == "out-text:"@ + pane_id@ + ":redraw="@ + bit(full)
                            + ":"@ + dec_nat(encoded.len())
                    })
                })
            },
    {
        let surface_id = match assoc::get(&self.surfaces, pane_id) {
            Some(s) => s.clone(),
            None => {
                return None;
            },
        };
        let (chunk, full) = match assoc::get(&self.last_snapshot, pane_id) {
            Some(p) => output_delta(Some(p.as_str()), current),
            None => output_delta(None, current),
        };
        assoc::set(&mut self.last_snapshot, owned(pane_id), owned(current));
        if chunk.as_str().is_empty() && !full {
            return None;
        }
        let mut filter = match assoc::remove(&mut self.title_filters, pane_id) {
            Some(f) => f,
            None => TitleEscapeFilter::new(),
        };
        if full {
            filter.reset();
        }
        let encoded = filter.filter(chunk.as_str().as_bytes());
        assoc::set(&mut self.title_filters, owned(pane_id), filter);
        if full {
            assoc::set(&mut self.buffers, surface_id.clone(), encoded.clone());
        } else {
            if encoded.len() == 0 {
                return None;
            }
            let mut buf = match assoc::remove(&mut self.buffers, surface_id.as_str()) {
                Some(b) => b,
                None => Vec::new(),
            };
            let ghost b0 = buf@;
            let mut i: usize = 0;
            while i < encoded.len()
                invariant
                    i <= encoded.len(),
                    buf@ == b0 + encoded@.subrange(0, i as int),
                decreases encoded.len() - i,
            {
                buf.push(encoded[i]);
                assert(encoded@.subrange(0, i + 1) == encoded@.subrange(0, i as int).push(encoded@[i as int]));
                i += 1;
            }
            assert(encoded@.subrange(0, encoded@.len() as int) =~= encoded@);
            assoc::set(&mut self.buffers, surface_id.clone(), buf);
        }
        let mut line = owned("out-text:");
        line.append(pane_id);
        line.append(":redraw=");
        line.append(if full { "1" } else { "0" });
        line.append(":");
        let n = nat_to_string(encoded.len() as u64);
        line.append(n.as_str());
        self.log.push(line);
        Some(SurfaceWrite { pane_id: owned(pane_id), surface_id, data: encoded, full_redraw: full })
    }

    /// Route input for a bound pane to the provider.
    pub fn route_input(&mut self, pane_id: &str, data: &[u8]) -> (r: Option<InputSend>)
        requires
            old(self).wf(),
        ensures
            final(self).wf(),
            data@.len() == 0 || surface_of(*old(self), pane_id@) is None ==> r is None && *final(self) == *old(self),
            data@.len() > 0 && surface_of(*old(self), pane_id@) is Some ==> {
                &&& r matches Some(s) && s.pane_id@ == pane_id@ && s.data@ == data@
                &&& final(self).log@.drop_last() == old(self).log@
                &&& final(self).log@.len() == old(self).log@.len() + 1
                &&& final(self).log@.last()@ == "in:"@ + pane_id@ + ":"@ + dec_nat(data@.len())
                &&& *final(self) == (PaneIORouter { log: final(self).log, ..*old(self) })
            },
    {
        if data.len() == 0 || !assoc::contains_key(&self.surfaces, pane_id) {
            return None;
        }
        let mut line = owned("in:");
        line.append(pane_id);
        line.append(":");
        let n = nat_to_string(data.len() as u64);
        line.append(n.as_str());
        self.log.push(line);
        Some(InputSend { pane_id: owned(pane_id), data: vstd::slice::slice_to_vec(data) })
    }

    /// Route input to the focused pane.
    pub fn route_input_to_focus(&mut self, data: &[u8]) -> (r: Option<InputSend>)
        requires
            old(self).wf(),
        ensures
            final(self).wf(),
            old(self).active_pane_id is None ==> r is None && *final(self) == *old(self),
            old(self).active_pane_id matches Some(p) ==> {
                &&& (data@.len() == 0 || surface_of(*old(self), p@) is None ==> r is None && *final(self) == *old(self))
                &&& (data@.len() > 0 && surface_of(*old(self), p@) is Some ==> {
                    &&& r matches Some(s) && s.pane_id@ == p@ && s.data@ == data@
                    &&& final(self).log@.drop_last() == old(self).log@
                    &&& final(self).log@.len() == old(self).log@.len() + 1
                    &&& final(self).log@.last()@ == "in:"@ + p@ + ":"@ + dec_nat(data@.len())
                    &&& *final(self) == (PaneIORouter { log: final(self).log, ..*old(self) })
                })
            },
    {
        let pane = match &self.active_pane_id {
            Some(p) => p.clone(),
            None => {
                return None;
            },
        };
        self.route_input(pane.as_str(), data)
    }

    /// The provider reports `pane_id` active.
    pub fn note_remote_active(&mut self, pane_id: &str) -> (r: FocusProjection)
        requires
            old(self).wf(),
        ensures
            final(self).wf(),
            remote_active_effect(*old(self), *final(self), pane_id@, r),
    {
        let changed = !crate::text::opt_string_eq(&self.active_pane_id, pane_id);
        self.active_pane_id = Some(owned(pane_id));
        if crate::text::opt_string_eq(&self.pending_user_focus, pane_id) {
            self.pending_user_focus = None;
        }
        self.log.push(concat2("focus-provider:", pane_id));
        FocusProjection {
            pane_id: Some(owned(pane_id)),
            send_to_provider: false,
            changed,
            source: owned("provider"),
        }
    }

    /// The user focused `pane_id`: ask the provider once per pending focus.
    pub fn user_focus(&mut self, pane_id: &str) -> (r: FocusProjection)
        requires
            old(self).wf(),
        ensures
            final(self).wf(),
            user_focus_effect(*old(self), *final(self), pane_id@, r),
    {
        if !assoc::set_contains(&self.live_pane_ids, pane_id) && !assoc::contains_key(&self.surfaces, pane_id) {
            self.log.push(concat2("focus-user-unknown:", pane_id));
            return FocusProjection { pane_id: None, send_to_provider: false, changed: false, source: owned("user") };
        }
        let changed = !crate::text::opt_string_eq(&self.active_pane_id, pane_id);
        self.active_pane_id = Some(owned(pane_id));
        if crate::text::opt_string_eq(&self.pending_user_focus, pane_id) {
            self.log.push(concat2("focus-user-pending:", pane_id));
            return FocusProjection {
                pane_id: Some(owned(pane_id)),
                send_to_provider: false,
                changed,
                source: owned("user"),
            };
        }
        self.pending_user_focus = Some(owned(pane_id));
        self.log.push(concat2("focus-user-send:", pane_id));
        FocusProjection { pane_id: Some(owned(pane_id)), send_to_provider: true, changed, source: owned("user") }
    }

    /// Project a focus change from the provider or the user.
    pub fn project_focus(&mut self, pane_id: &str, from_provider: bool) -> (r: FocusProjection)
        requires
            old(self).wf(),
        ensures
            final(self).wf(),
            from_provider ==> remote_active_effect(*old(self), *final(self), pane_id@, r),
            !from_provider ==> user_focus_effect(*old(self), *final(self), pane_id@, r),
    {
        if from_provider {
            self.note_remote_active(pane_id)
        } else {
            self.user_focus(pane_id)
        }
    }

    /// Record the working directory of `pane_id`.
    pub fn route_cwd(&mut self, pane_id: &str, path: &str, tab_id: &str) -> (r: Option<CwdUpdate>)
        requires
            old(self).wf(),
        ensures
            final(self).wf(),
            trim(path@).len() == 0 ==> r is None && *final(self) == *old(self),
            trim(path@).len() > 0 ==> {
                let apply = opt_view(old(self).active_pane_id) == Some(pane_id@);
                &&& lookup(final(self).cwd_by_pane@, pane_id@) matches Some(c) && c@ == trim(path@)
                &&& same_except(final(self).cwd_by_pane@, old(self).cwd_by_pane@, pane_id@)
                &&& r matches Some(u) && u.pane_id@ == pane_id@ && u.tab_id@ == tab_id@ && u.path@ == trim(path@)
                    && u.apply_to_tab == apply
                &&& final(self).log@.drop_last() == old(self).log@
                &&& final(self).log@.len() == old(self).log@.len() + 1
                &&& final(self).log@.last()@ == "cwd:"@ + pane_id@ + ":tab="@ + bit(apply)
                &&& *final(self) == (PaneIORouter { log: final(self).log, cwd_by_pane: final(self).cwd_by_pane, ..*old(self) })
            },
    {
        let trimmed = trim_str(path);
        if trimmed.as_str().is_empty() {
            return None;
        }
        assoc::set(&mut self.cwd_by_pane, owned(pane_id), trimmed.clone());
        let apply = crate::text::opt_string_eq(&self.active_pane_id, pane_id);
        let mut line = owned("cwd:");
        line.append(pane_id);
        line.append(":tab=");
        line.append(if apply { "1" } else { "0" });
        self.log.push(line);
        Some(CwdUpdate { pane_id: owned(pane_id), tab_id: owned(tab_id), path: trimmed, apply_to_tab: apply })
    }

    /// Everything written so far to the surface bound to `pane_id`.
    pub fn buffer_for(&self, pane_id: &str) -> (r: Vec<u8>)
        requires
            self.wf(),
        ensures
            r@ == match surface_of(*self, pane_id@) {
                Some(s) => bytes_of(lookup(self.buffers@, s)),
                None => Seq::empty(),
            },
    {
        match assoc::get(&self.surfaces, pane_id) {
            Some(s) => match assoc::get(&self.buffers, s.as_str()) {
                Some(b) => b.clone(),
                None => Vec::new(),
            },
            None => Vec::new(),
        }
    }
}

/// What the provider reporting `pane_id` active does: that pane becomes
/// active, a pending user focus on it is settled, one line is logged, and
/// the projection names the pane with nothing to send.
pub open spec fn remote_active_effect(old: PaneIORouter, new: PaneIORouter, pane_id: Seq<char>, r: FocusProjection) -> bool {
    &&& opt_view(new.active_pane_id) == Some(pane_id)
    &&& new.pending_user_focus == (if opt_view(old.pending_user_focus) == Some(pane_id) {
        None
    } else {
        old.pending_user_focus
    })
    &&& opt_view(r.pane_id) == Some(pane_id)
    &&& !r.send_to_provider
    &&& r.changed == (opt_view(old.active_pane_id) != Some(pane_id))
    &&& r.source@ == "provider"@
    &&& new.log@.drop_last() =~= old.log@
    &&& new.log@.len() == old.log@.len() + 1
    &&& new.log@.last()@ =~= "focus-provider:"@ + pane_id
    &&& new == (PaneIORouter {
        log: new.log,
        active_pane_id: new.active_pane_id,
        pending_user_focus: new.pending_user_focus,
        ..old
    })
}

/// What a user focus on `pane_id` does: an unknown pane only logs; a known
/// one becomes active and pending, and the provider is asked once per
/// pending focus.
pub open spec fn user_focus_effect(old: PaneIORouter, new: PaneIORouter, pane_id: Seq<char>, r: FocusProjection) -> bool {
    &&& r.source@ == "user"@
    &&& new.log@.drop_last() =~= old.log@
    &&& new.log@.len() == old.log@.len() + 1
    &&& !member(old.live_pane_ids@, pane_id) && surface_of(old, pane_id) is None ==> {
        &&& r.pane_id is None && !r.send_to_provider && !r.changed
        &&& new.log@.last()@ =~= "focus-user-unknown:"@ + pane_id
        &&& new == (PaneIORouter { log: new.log, ..old })
    }
    &&& member(old.live_pane_ids@, pane_id) || surface_of(old, pane_id) is Some ==> {
        &&& opt_view(r.pane_id) == Some(pane_id)
        &&& r.changed == (opt_view(old.active_pane_id) != Some(pane_id))
        &&& opt_view(new.active_pane_id) == Some(pane_id)
        &&& opt_view(new.pending_user_focus) == Some(pane_id)
        &&& r.send_to_provider == (opt_view(old.pending_user_focus) != Some(pane_id))
        &&& new.log@.last()@ =~= (if r.send_to_provider {
            "focus-user-send:"@
        } else {
            "focus-user-pending:"@
        }) + pane_id
        &&& new == (PaneIORouter {
            log: new.log,
            active_pane_id: new.active_pane_id,
            pending_user_focus: new.pending_user_focus,
            ..old
        })
    }
}

impl Default for PaneIORouter {
    fn default() -> (r: Self)
        ensures
            r.wf(),
            r.surfaces@.len() == 0,
            r.buffers@.len() == 0,
            r.live_pane_ids@.len() == 0,
            r.active_pane_id is None,
            r.log@.len() == 0,
    {
        PaneIORouter::new()
    }
}

pub fn route_output(router: &mut PaneIORouter, pane_id: &str, data: &[u8]) -> (r: Option<SurfaceWrite>)
    requires
        old(router).wf(),
    ensures
        final(router).wf(),
        surface_of(*old(router), pane_id@) is None || data@.len() == 0 ==> r is None && *final(router) == *old(router),
        r is Some ==> surface_of(*old(router), pane_id@) == Some(r.unwrap().surface_id@) && r.unwrap().pane_id@ == pane_id@
            && r.unwrap().data@ == run(filter_state(lookup(old(router).title_filters@, pane_id@)), data@).1,
{
    router.route_output(pane_id, data)
}

pub fn route_input(router: &mut PaneIORouter, pane_id: &str, data: &[u8]) -> (r: Option<InputSend>)
    requires
        old(router).wf(),
    ensures
        final(router).wf(),
        data@.len() == 0 || surface_of(*old(router), pane_id@) is None ==> r is None && *final(router) == *old(router),
        data@.len() > 0 && surface_of(*old(router), pane_id@) is Some ==> (r matches Some(s) && s.pane_id@
            == pane_id@ && s.data@ == data@),
{
    router.route_input(pane_id, data)
}

pub fn project_focus(router: &mut PaneIORouter, pane_id: &str, from_provider: bool) -> (r: FocusProjection)
    requires
        old(router).wf(),
    ensures
        final(router).wf(),
        from_provider ==> remote_active_effect(*old(router), *final(router), pane_id@, r),
        !from_provider ==> user_focus_effect(*old(router), *final(router), pane_id@, r),
{
    router.project_focus(pane_id, from_provider)
}

} // verus!
