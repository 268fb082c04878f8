//! Key-name encoding for provider input: tmux-style names (`C-Up`, `F5`) and
//! Herdr combos (`ctrl+left`, `enter`) become a Herdr key name and, where one
//! exists, the terminal escape sequence.
use vstd::prelude::*;

use crate::text::{
    chars_of, digit, digit_exec, has_char, lower, lower_str, opt_str_view, opt_view, owned, push_char, str_eq,
    str_has_char, strings_view, trim, trim_str,
};

verus! {

pub open spec fn esc() -> u8 {
    0x1b
}

/// Modifier set of a key: shift, meta (alt), control.
pub struct Mods {
    pub s: bool,
    pub m: bool,
    pub c: bool,
}

pub open spec fn mods_code(m: Mods) -> int {
    1 + (if m.s { 1int } else { 0 }) + (if m.m { 2int } else { 0 }) + (if m.c { 4int } else { 0 })
}

pub open spec fn mods_empty(m: Mods) -> bool {
    !m.s && !m.m && !m.c
}

/// Escape sequence of a tmux key name.
pub open spec fn named_csi(b: Seq<char>) -> Option<Seq<u8>> {
    if b == "Up"@ {
        Some(seq![0x1bu8, 0x5b, 0x41])
    } else if b == "Down"@ {
        Some(seq![0x1bu8, 0x5b, 0x42])
    } else if b == "Right"@ {
        Some(seq![0x1bu8, 0x5b, 0x43])
    } else if b == "Left"@ {
        Some(seq![0x1bu8, 0x5b, 0x44])
    } else if b == "Home"@ {
        Some(seq![0x1bu8, 0x5b, 0x48])
    } else if b == "End"@ {
        Some(seq![0x1bu8, 0x5b, 0x46])
    } else if b == "PPage"@ {
        Some(seq![0x1bu8, 0x5b, 0x35, 0x7e])
    } else if b == "NPage"@ {
        Some(seq![0x1bu8, 0x5b, 0x36, 0x7e])
    } else if b == "DC"@ {
        Some(seq![0x1bu8, 0x5b, 0x33, 0x7e])
    } else if b == "IC"@ {
        Some(seq![0x1bu8, 0x5b, 0x32, 0x7e])
    } else if b == "F1"@ {
        Some(seq![0x1bu8, 0x4f, 0x50])
    } else if b == "F2"@ {
        Some(seq![0x1bu8, 0x4f, 0x51])
    } else if b == "F3"@ {
        Some(seq![0x1bu8, 0x4f, 0x52])
    } else if b == "F4"@ {
        Some(seq![0x1bu8, 0x4f, 0x53])
    } else if b == "F5"@ {
        Some(seq![0x1bu8, 0x5b, 0x31, 0x35, 0x7e])
    } else if b == "F6"@ {
        Some(seq![0x1bu8, 0x5b, 0x31, 0x37, 0x7e])
    } else if b == "F7"@ {
        Some(seq![0x1bu8, 0x5b, 0x31, 0x38, 0x7e])
    } else if b == "F8"@ {
        Some(seq![0x1bu8, 0x5b, 0x31, 0x39, 0x7e])
    } else if b == "F9"@ {
        Some(seq![0x1bu8, 0x5b, 0x32, 0x30, 0x7e])
    } else if b == "F10"@ {
        Some(seq![0x1bu8, 0x5b, 0x32, 0x31, 0x7e])
    } else if b == "F11"@ {
        Some(seq![0x1bu8, 0x5b, 0x32, 0x33, 0x7e])
    } else if b == "F12"@ {
        Some(seq![0x1bu8, 0x5b, 0x32, 0x34, 0x7e])
    } else {
        None
    }
}

fn named_csi_exec(b: &str) -> (r: Option<Vec<u8>>)
    ensures
        match r {
            Some(v) => named_csi(b@) == Some(v@),
            None => named_csi(b@) is None,
        },
{
    if str_eq(b, "Up") {
        Some(vec![0x1bu8, 0x5b, 0x41])
    } else if str_eq(b, "Down") {
        Some(vec![0x1bu8, 0x5b, 0x42])
    } else if str_eq(b, "Right") {
        Some(vec![0x1bu8, 0x5b, 0x43])
    } else if str_eq(b, "Left") {
        Some(vec![0x1bu8, 0x5b, 0x44])
    } else if str_eq(b, "Home") {
        Some(vec![0x1bu8, 0x5b, 0x48])
    } else if str_eq(b, "End") {
        Some(vec![0x1bu8, 0x5b, 0x46])
    } else if str_eq(b, "PPage") {
        Some(vec![0x1bu8, 0x5b, 0x35, 0x7e])
    } else if str_eq(b, "NPage") {
        Some(vec![0x1bu8, 0x5b, 0x36, 0x7e])
    } else if str_eq(b, "DC") {
        Some(vec![0x1bu8, 0x5b, 0x33, 0x7e])
    } else if str_eq(b, "IC") {
        Some(vec![0x1bu8, 0x5b, 0x32, 0x7e])
    } else if str_eq(b, "F1") {
        Some(vec![0x1bu8, 0x4f, 0x50])
    } else if str_eq(b, "F2") {
        Some(vec![0x1bu8, 0x4f, 0x51])
    } else if str_eq(b, "F3") {
        Some(vec![0x1bu8, 0x4f, 0x52])
    } else if str_eq(b, "F4") {
        Some(vec![0x1bu8, 0x4f, 0x53])
    } else if str_eq(b, "F5") {
        Some(vec![0x1bu8, 0x5b, 0x31, 0x35, 0x7e])
    } else if str_eq(b, "F6") {
        Some(vec![0x1bu8, 0x5b, 0x31, 0x37, 0x7e])
    } else if str_eq(b, "F7") {
        Some(vec![0x1bu8, 0x5b, 0x31, 0x38, 0x7e])
    } else if str_eq(b, "F8") {
        Some(vec![0x1bu8, 0x5b, 0x31, 0x39, 0x7e])
    } else if str_eq(b, "F9") {
        Some(vec![0x1bu8, 0x5b, 0x32, 0x30, 0x7e])
    } else if str_eq(b, "F10") {
        Some(vec![0x1bu8, 0x5b, 0x32, 0x31, 0x7e])
    } else if str_eq(b, "F11") {
        Some(vec![0x1bu8, 0x5b, 0x32, 0x33, 0x7e])
    } else if str_eq(b, "F12") {
        Some(vec![0x1bu8, 0x5b, 0x32, 0x34, 0x7e])
    } else {
        None
    }
}

/// Herdr key name of a tmux key name.
pub open spec fn tmux_to_herdr(b: Seq<char>) -> Option<Seq<char>> {
    if b == "Up"@ {
        Some("up"@)
    } else if b == "Down"@ {
        Some("down"@)
    } else if b == "Left"@ {
        Some("left"@)
    } else if b == "Right"@ {
        Some("right"@)
    } else if b == "F1"@ {
        Some("f1"@)
    } else if b == "F2"@ {
        Some("f2"@)
    } else if b == "F3"@ {
        Some("f3"@)
    } else if b == "F4"@ {
        Some("f4"@)
    } else if b == "F5"@ {
        Some("f5"@)
    } else if b == "F6"@ {
        Some("f6"@)
    } else if b == "F7"@ {
        Some("f7"@)
    } else if b == "F8"@ {
        Some("f8"@)
    } else if b == "F9"@ {
        Some("f9"@)
    } else if b == "F10"@ {
        Some("f10"@)
    } else if b == "F11"@ {
        Some("f11"@)
    } else if b == "F12"@ {
        Some("f12"@)
    } else {
        None
    }
}

fn tmux_to_herdr_exec(b: &str) -> (r: Option<&'static str>)
    ensures
        opt_str_view(r) == tmux_to_herdr(b@),
{
    if str_eq(b, "Up") {
        Some("up")
    } else if str_eq(b, "Down") {
        Some("down")
    } else if str_eq(b, "Left") {
        Some("left")
    } else if str_eq(b, "Right") {
        Some("right")
    } else if str_eq(b, "F1") {
        Some("f1")
    } else if str_eq(b, "F2") {
        Some("f2")
    } else if str_eq(b, "F3") {
        Some("f3")
    } else if str_eq(b, "F4") {
        Some("f4")
    } else if str_eq(b, "F5") {
        Some("f5")
    } else if str_eq(b, "F6") {
        Some("f6")
    } else if str_eq(b, "F7") {
        Some("f7")
    } else if str_eq(b, "F8") {
        Some("f8")
    } else if str_eq(b, "F9") {
        Some("f9")
    } else if str_eq(b, "F10") {
        Some("f10")
    } else if str_eq(b, "F11") {
        Some("f11")
    } else if str_eq(b, "F12") {
        Some("f12")
    } else {
        None
    }
}

pub open spec fn is_digit(c: char) -> bool {
    '0' <= c <= '9'
}

/// Value of a run of decimal digits.
pub open spec fn digits_value(s: Seq<char>) -> nat
    decreases s.len(),
{
    if s.len() == 0 {
        0
    } else {
        digits_value(s.drop_last()) * 10 + ((s.last() as u32) - ('0' as u32)) as nat
    }
}

pub open spec fn all_digits(s: Seq<char>) -> bool {
    forall|i: int| 0 <= i < s.len() ==> is_digit(#[trigger] s[i])
}

/// `str::parse::<u8>`: an optional `+`, then at least one digit, value at most 255.
pub open spec fn parse_u8(s: Seq<char>) -> Option<nat> {
    let d = if s.len() > 0 && s[0] == '+' { s.drop_first() } else { s };
    if d.len() > 0 && all_digits(d) && digits_value(d) <= 255 {
        Some(digits_value(d))
    } else {
        None
    }
}

/// The function-key number of a Herdr name `fN`, when `N` is in 1..=12.
pub open spec fn fkey_number(b: Seq<char>) -> Option<nat> {
    if b.len() >= 2 && b[0] == 'f' {
        match parse_u8(b.drop_first()) {
            Some(n) => if 1 <= n <= 12 {
                Some(n)
            } else {
                None
            },
            None => None,
        }
    } else {
        None
    }
}

/// `format!("F{n}")` for `n` in 1..=12.
pub open spec fn fkey_name(n: nat) -> Seq<char> {
    if n < 10 {
        seq!['F', digit(n)]
    } else {
        seq!['F', '1', digit((n - 10) as nat)]
    }
}

/// Tmux key name of a Herdr base key.
pub open spec fn herdr_to_tmux(b: Seq<char>) -> Option<Seq<char>> {
    if b == "up"@ {
        Some("Up"@)
    } else if b == "down"@ {
        Some("Down"@)
    } else if b == "left"@ {
        Some("Left"@)
    } else if b == "right"@ {
        Some("Right"@)
    } else {
        match fkey_number(b) {
            Some(n) => Some(fkey_name(n)),
            None => None,
        }
    }
}

/// Herdr names that always go through the combo encoder.
pub open spec fn herdr_special(n: Seq<char>) -> bool {
    ||| n == "up"@
    ||| n == "down"@
    ||| n == "left"@
    ||| n == "right"@
    ||| n == "enter"@
    ||| n == "tab"@
    ||| n == "esc"@
    ||| n == "escape"@
    ||| n == "backspace"@
    ||| n == "minus"@
    ||| n == "plus"@
    ||| n == "backtick"@
    ||| (n.len() > 0 && n[0] == 'f' && match parse_u8(n.drop_first()) {
        Some(k) => 1 <= k <= 12,
        None => false,
    })
}

proof fn lemma_digits_value_mono(s: Seq<char>, i: int)
    requires
        0 <= i <= s.len(),
        all_digits(s),
    ensures
        digits_value(s.subrange(0, i)) <= digits_value(s),
    decreases s.len() - i,
{
    if i < s.len() {
        lemma_digits_value_mono(s, i + 1);
        let p = s.subrange(0, i + 1);
        assert(p.drop_last() =~= s.subrange(0, i));
        assert(is_digit(s[i]));
    } else {
        assert(s.subrange(0, i) =~= s);
    }
}

/// `parse::<u8>` on the characters `v[lo..]`.
fn parse_u8_exec(v: &Vec<char>, lo: usize) -> (r: Option<u8>)
    requires
        lo <= v.len(),
    ensures
        match r {
            Some(k) => parse_u8(v@.subrange(lo as int, v@.len() as int)) == Some(k as nat),
            None => parse_u8(v@.subrange(lo as int, v@.len() as int)) is None,
        },
{
    let ghost s = v@.subrange(lo as int, v@.len() as int);
    let mut start = lo;
    if start < v.len() && v[start] == '+' {
        start = start + 1;
    }
    let ghost d = v@.subrange(start as int, v@.len() as int);
    assert(d == (if s.len() > 0 && s[0] == '+' {
        s.drop_first()
    } else {
        s
    }));
    if start >= v.len() {
        return None;
    }
    let mut value: u32 = 0;
    let mut i = start;
    while i < v.len()
        invariant
            start <= i <= v.len(),
            start < v.len(),
            lo <= start,
            s == v@.subrange(lo as int, v@.len() as int),
            d == v@.subrange(start as int, v@.len() as int),
            d == (if s.len() > 0 && s[0] == '+' {
                s.drop_first()
            } else {
                s
            }),
            all_digits(v@.subrange(start as int, i as int)),
            value == digits_value(v@.subrange(start as int, i as int)),
            value <= 255,
        decreases v.len() - i,
    {
        let c = v[i];
        if !('0' <= c && c <= '9') {
            assert(d[i - start] == c);
            return None;
        }
        let dv = (c as u32) - ('0' as u32);
        let ghost p = v@.subrange(start as int, i + 1);
        assert(p.drop_last() =~= v@.subrange(start as int, i as int));
        assert(all_digits(p)) by {
            assert forall|j: int| 0 <= j < p.len() implies is_digit(#[trigger] p[j]) by {
                if j < p.len() - 1 {
                    assert(p[j] == v@.subrange(start as int, i as int)[j]);
                }
            }
        }
        assert(digits_value(p) == value * 10 + dv);
        if value * 10 + dv > 255 {
            proof {
                assert(d.subrange(0, i + 1 - start) =~= p);
                if all_digits(d) {
                    lemma_digits_value_mono(d, i + 1 - start);
                }
            }
            return None;
        }
        value = value * 10 + dv;
        i += 1;
    }
    assert(v@.subrange(start as int, i as int) =~= d);
    Some(value as u8)
}

/// `fkey_number` on an exec string.
fn fkey_number_exec(v: &Vec<char>) -> (r: Option<u8>)
    ensures
        match r {
            Some(k) => fkey_number(v@) == Some(k as nat),
            None => fkey_number(v@) is None,
        },
{
    if v.len() >= 2 && v[0] == 'f' {
        let p = parse_u8_exec(v, 1);
        assert(v@.subrange(1, v@.len() as int) =~= v@.drop_first());
        match p {
            Some(k) => if 1 <= k && k <= 12 {
                Some(k)
            } else {
                None
            },
            None => None,
        }
    } else {
        None
    }
}

fn herdr_to_tmux_exec(b: &str) -> (r: Option<String>)
    ensures
        opt_view(r) == herdr_to_tmux(b@),
{
    if str_eq(b, "up") {
        Some(owned("Up"))
    } else if str_eq(b, "down") {
        Some(owned("Down"))
    } else if str_eq(b, "left") {
        Some(owned("Left"))
    } else if str_eq(b, "right") {
        Some(owned("Right"))
    } else {
        let v = chars_of(b);
        match fkey_number_exec(&v) {
            Some(n) => {
                let mut out = String::new();
                push_char(&mut out, 'F');
                if n < 10 {
                    push_char(&mut out, digit_exec(n as u64));
                } else {
                    push_char(&mut out, '1');
                    push_char(&mut out, digit_exec((n - 10) as u64));
                }
                assert(out@ =~= fkey_name(n as nat));
                Some(out)
            },
            None => None,
        }
    }
}

fn herdr_special_exec(n: &str) -> (r: bool)
    ensures
        r == herdr_special(n@),
{
    if str_eq(n, "up") || str_eq(n, "down") || str_eq(n, "left") || str_eq(n, "right") || str_eq(
        n,
        "enter",
    ) || str_eq(n, "tab") || str_eq(n, "esc") || str_eq(n, "escape") || str_eq(n, "backspace")
        || str_eq(n, "minus") || str_eq(n, "plus") || str_eq(n, "backtick") {
        return true;
    }
    let v = chars_of(n);
    if v.len() > 0 && v[0] == 'f' {
        let p = parse_u8_exec(&v, 1);
        assert(v@.subrange(1, v@.len() as int) =~= v@.drop_first());
        match p {
            Some(k) => 1 <= k && k <= 12,
            None => false,
        }
    } else {
        false
    }
}

/// Apply xterm modifier parameters to a base escape sequence.
pub open spec fn csi_with_mods(csi: Seq<u8>, m: Mods) -> Seq<u8> {
    let code = mods_code(m);
    let cd = (0x30 + code) as u8;
    if code == 1 {
        csi
    } else if csi.len() >= 3 && csi.last() == 0x7e {
        seq![0x1bu8, 0x5b] + csi.subrange(2, csi.len() - 1) + seq![0x3bu8, cd, 0x7e]
    } else if csi.len() == 3 && csi[0] == 0x1b && csi[1] == 0x4f && 0x50 <= csi[2] <= 0x53 {
        seq![0x1bu8, 0x5b, 0x31, (csi[2] - 0x4f + 0x30) as u8, 0x3b, cd, 0x7e]
    } else if csi.len() == 3 && csi[0] == 0x1b && csi[1] == 0x5b {
        seq![0x1bu8, 0x5b, 0x31, 0x3b, cd, csi[2]]
    } else {
        csi
    }
}

fn csi_with_modifiers(csi: &Vec<u8>, m: &Mods) -> (r: Vec<u8>)
    ensures
        r@ == csi_with_mods(csi@, *m),
{
    let code: u8 = 1 + (if m.s {
        1u8
    } else {
        0
    }) + (if m.m {
        2u8
    } else {
        0
    }) + (if m.c {
        4u8
    } else {
        0
    });
    let cd = 0x30 + code;
    if code == 1 {
        return csi.clone();
    }
    let n = csi.len();
    if n >= 3 && csi[n - 1] == 0x7e {
        let mut out: Vec<u8> = vec![0x1bu8, 0x5b];
        let mut i: usize = 2;
        while i < n - 1
            invariant
                2 <= i <= n - 1,
                n == csi.len(),
                out@ == seq![0x1bu8, 0x5b] + csi@.subrange(2, i as int),
            decreases n - 1 - i,
        {
            out.push(csi[i]);
            assert(csi@.subrange(2, i + 1) == csi@.subrange(2, i as int).push(csi@[i as int]));
            i += 1;
        }
        out.push(0x3b);
        out.push(cd);
        out.push(0x7e);
        assert(out@ =~= seq![0x1bu8, 0x5b] + csi@.subrange(2, csi@.len() - 1) + seq![
            0x3bu8,
            cd,
            0x7e,
        ]);
        return out;
    }
    if n == 3 && csi[0] == 0x1b && csi[1] == 0x4f && 0x50 <= csi[2] && csi[2] <= 0x53 {
        let out = vec![0x1bu8, 0x5b, 0x31, csi[2] - 0x4f + 0x30, 0x3b, cd, 0x7e];
        return out;
    }
    if n == 3 && csi[0] == 0x1b && csi[1] == 0x5b {
        let out = vec![0x1bu8, 0x5b, 0x31, 0x3b, cd, csi[2]];
        return out;
    }
    csi.clone()
}

/// Pieces of `s` between separators `sep`, empty pieces dropped
/// (`split(sep)` followed by a non-empty filter). Computed left to right:
/// the finished pieces and the piece in progress.
pub open spec fn split_state(s: Seq<char>, sep: char) -> (Seq<Seq<char>>, Seq<char>)
    decreases s.len(),
{
    if s.len() == 0 {
        (Seq::empty(), Seq::empty())
    } else {
        let (done, cur) = split_state(s.drop_last(), sep);
        if s.last() == sep {
            (if cur.len() > 0 {
                done.push(cur)
            } else {
                done
            }, Seq::empty())
        } else {
            (done, cur.push(s.last()))
        }
    }
}

pub open spec fn split_nonempty(s: Seq<char>, sep: char) -> Seq<Seq<char>> {
    let (done, cur) = split_state(s, sep);
    if cur.len() > 0 {
        done.push(cur)
    } else {
        done
    }
}

pub fn split_nonempty_exec(v: &Vec<char>, sep: char) -> (r: Vec<String>)
    ensures
        strings_view(r@) == split_nonempty(v@, sep),
{
    let mut done: Vec<String> = Vec::new();
    let mut cur = String::new();
    let mut i: usize = 0;
    while i < v.len()
        invariant
            i <= v.len(),
            (strings_view(done@), cur@) == split_state(v@.subrange(0, i as int), sep),
        decreases v.len() - i,
    {
        let ghost pre = v@.subrange(0, i as int);
        assert(v@.subrange(0, i + 1).drop_last() =~= pre);
        if v[i] == sep {
            if !cur.as_str().is_empty() {
                let piece = cur;
                done.push(piece);
                cur = String::new();
                assert(strings_view(done@) =~= split_state(pre, sep).0.push(piece@));
            } else {
                cur = String::new();
            }
        } else {
            push_char(&mut cur, v[i]);
        }
        i += 1;
    }
    assert(v@.subrange(0, v@.len() as int) =~= v@);
    if !cur.as_str().is_empty() {
        let ghost before = done@;
        done.push(cur);
        assert(strings_view(done@) =~= strings_view(before).push(done@.last()@));
    }
    done
}

/// Modifiers named by Herdr combo parts (`ctrl`, `control`, `c`, `alt`, `m`, `shift`, `s`).
pub open spec fn combo_mods(parts: Seq<Seq<char>>) -> Mods {
    Mods {
        s: exists|i: int| 0 <= i < parts.len() && (parts[i] == "shift"@ || parts[i] == "s"@),
        m: exists|i: int| 0 <= i < parts.len() && (parts[i] == "alt"@ || parts[i] == "m"@),
        c: exists|i: int|
            0 <= i < parts.len() && (parts[i] == "ctrl"@ || parts[i] == "control"@ || parts[i]
                == "c"@),
    }
}

/// Modifiers named by tmux prefixes (`C`, `M`, `S`).
pub open spec fn tmux_mods(parts: Seq<Seq<char>>) -> Mods {
    Mods {
        s: exists|i: int| 0 <= i < parts.len() && parts[i] == "S"@,
        m: exists|i: int| 0 <= i < parts.len() && parts[i] == "M"@,
        c: exists|i: int| 0 <= i < parts.len() && parts[i] == "C"@,
    }
}

/// Base escape sequence of a Herdr base key.
pub open spec fn herdr_base_csi(base: Seq<char>) -> Option<Seq<u8>> {
    let from_tmux = match herdr_to_tmux(base) {
        Some(t) => named_csi(t),
        None => None,
    };
    if from_tmux is Some {
        from_tmux
    } else if base == "enter"@ {
        Some(seq![0x0du8])
    } else if base == "tab"@ {
        Some(seq![0x09u8])
    } else if base == "esc"@ || base == "escape"@ {
        Some(seq![0x1bu8])
    } else if base == "backspace"@ {
        Some(seq![0x7fu8])
    } else {
        None
    }
}

/// Escape sequence of a lower-cased Herdr combo such as `ctrl+left`.
pub open spec fn csi_for_combo(combo: Seq<char>) -> Option<Seq<u8>> {
    let parts = split_nonempty(lower(combo), '+');
    if parts.len() == 0 {
        None
    } else {
        let base = parts.last();
        let m = combo_mods(parts.drop_last());
        match herdr_base_csi(base) {
            None => None,
            Some(b) => if !mods_empty(m) && herdr_to_tmux(base) is Some {
                Some(csi_with_mods(b, m))
            } else {
                Some(b)
            },
        }
    }
}

fn mods_of(parts: &Vec<String>, upto: usize, tmux: bool) -> (m: Mods)
    requires
        upto <= parts.len(),
    ensures
        tmux ==> m == tmux_mods(strings_view(parts@.subrange(0, upto as int))),
        !tmux ==> m == combo_mods(strings_view(parts@.subrange(0, upto as int))),
{
    let ghost ps = strings_view(parts@.subrange(0, upto as int));
    let mut m = Mods { s: false, m: false, c: false };
    let mut i: usize = 0;
    while i < upto
        invariant
            i <= upto <= parts.len(),
            ps == strings_view(parts@.subrange(0, upto as int)),
            tmux ==> m == tmux_mods(ps.subrange(0, i as int)),
            !tmux ==> m == combo_mods(ps.subrange(0, i as int)),
        decreases upto - i,
    {
        let p = parts[i].as_str();
        assert(ps[i as int] == p@);
        let ghost prev = ps.subrange(0, i as int);
        let ghost next = ps.subrange(0, i + 1);
        assert(forall|j: int| 0 <= j < i ==> next[j] == prev[j]);
        assert(next[i as int] == p@);
        if tmux {
            if str_eq(p, "S") {
                m.s = true;
            }
            if str_eq(p, "M") {
                m.m = true;
            }
            if str_eq(p, "C") {
                m.c = true;
            }
        } else {
            if str_eq(p, "shift") || str_eq(p, "s") {
                m.s = true;
            }
            if str_eq(p, "alt") || str_eq(p, "m") {
                m.m = true;
            }
            if str_eq(p, "ctrl") || str_eq(p, "control") || str_eq(p, "c") {
                m.c = true;
            }
        }
        i += 1;
    }
    assert(ps.subrange(0, upto as int) =~= ps);
    m
}

fn herdr_base_csi_exec(base: &str) -> (r: Option<Vec<u8>>)
    ensures
        match r {
            Some(v) => herdr_base_csi(base@) == Some(v@),
            None => herdr_base_csi(base@) is None,
        },
{
    let tm = herdr_to_tmux_exec(base);
    let from_tmux = match &tm {
        Some(t) => named_csi_exec(t.as_str()),
        None => None,
    };
    if from_tmux.is_some() {
        from_tmux
    } else if str_eq(base, "enter") {
        Some(vec![0x0du8])
    } else if str_eq(base, "tab") {
        Some(vec![0x09u8])
    } else if str_eq(base, "esc") || str_eq(base, "escape") {
        Some(vec![0x1bu8])
    } else if str_eq(base, "backspace") {
        Some(vec![0x7fu8])
    } else {
        None
    }
}

proof fn lemma_named_csi_len(t: Seq<char>)
    ensures
        named_csi(t) matches Some(c) ==> c.len() >= 3,
{
}

fn csi_for_herdr_combo(combo: &str) -> (r: Option<Vec<u8>>)
    ensures
        match r {
            Some(v) => csi_for_combo(combo@) == Some(v@),
            None => csi_for_combo(combo@) is None,
        },
{
    let lowered = lower_str(combo);
    let lv = chars_of(lowered.as_str());
    let parts = split_nonempty_exec(&lv, '+');
    if parts.len() == 0 {
        return None;
    }
    let last = parts.len() - 1;
    let base = parts[last].as_str();
    assert(strings_view(parts@).last() == base@);
    let m = mods_of(&parts, last, false);
    assert(strings_view(parts@.subrange(0, last as int)) =~= strings_view(parts@).drop_last());
    let tm = herdr_to_tmux_exec(base);
    match herdr_base_csi_exec(base) {
        None => None,
        Some(b) => {
            if (m.s || m.m || m.c) && tm.is_some() {
                proof {
                    lemma_named_csi_len(tm.unwrap()@);
                }
                Some(csi_with_modifiers(&b, &m))
            } else {
                Some(b)
            }
        },
    }
}

/// Key spec of an encoded Herdr combo or special name.
pub open spec fn combo_key(name: Seq<char>) -> bool {
    has_char(name, '+') || herdr_special(lower(name))
}

/// Herdr key name built from tmux modifiers and a Herdr base.
pub open spec fn joined_key(m: Mods, base: Seq<char>) -> Seq<char> {
    (if m.c {
        "ctrl+"@
    } else {
        Seq::empty()
    }) + (if m.m {
        "alt+"@
    } else {
        Seq::empty()
    }) + (if m.s {
        "shift+"@
    } else {
        Seq::empty()
    }) + base
}

/// Encoding of a named key as (Herdr key name, escape sequence), `None` when
/// the name is not a key.
pub open spec fn encode_key(raw: Seq<char>) -> Option<(Option<Seq<char>>, Option<Seq<u8>>)> {
    let name = trim(raw);
    let lowered = lower(name);
    if combo_key(name) {
        Some((Some(lowered), csi_for_combo(lowered)))
    } else {
        let parts = split_nonempty(name, '-');
        if parts.len() == 0 {
            None
        } else {
            let base = parts.last();
            let m = tmux_mods(parts.drop_last());
            let csi = named_csi(base);
            let hb = tmux_to_herdr(base);
            if csi is None && hb is None {
                None
            } else {
                Some(
                    (
                        match hb {
                            Some(h) => Some(joined_key(m, h)),
                            None => None,
                        },
                        match csi {
                            Some(c) => Some(
                                if mods_empty(m) {
                                    c
                                } else {
                                    csi_with_mods(c, m)
                                },
                            ),
                            None => None,
                        },
                    ),
                )
            }
        }
    }
}

pub fn combo_key_exec(name: &str) -> (r: bool)
    ensures
        r == combo_key(name@),
{
    if str_has_char(name, '+') {
        return true;
    }
    let lowered = lower_str(name);
    herdr_special_exec(lowered.as_str())
}

fn joined_key_exec(m: &Mods, base: &str) -> (r: String)
    ensures
        r@ == joined_key(*m, base@),
{
    let mut out = String::new();
    if m.c {
        out.append("ctrl+");
    }
    if m.m {
        out.append("alt+");
    }
    if m.s {
        out.append("shift+");
    }
    out.append(base);
    assert(out@ =~= joined_key(*m, base@));
    out
}

/// Encode a trimmed key name: the Herdr key name and the escape sequence.
pub fn encode_key_exec(raw: &str) -> (r: Option<(Option<String>, Option<Vec<u8>>)>)
    ensures
        match r {
            Some((k, c)) => encode_key(raw@) == Some(
                (
                    opt_view(k),
                    match c {
                        Some(v) => Some(v@),
                        None => None,
                    },
                ),
            ),
            None => encode_key(raw@) is None,
        },
{
    let name = trim_str(raw);
    let lowered = lower_str(name.as_str());
    if combo_key_exec(name.as_str()) {
        let csi = csi_for_herdr_combo(lowered.as_str());
        return Some((Some(lowered), csi));
    }
    let nv = chars_of(name.as_str());
    let parts = split_nonempty_exec(&nv, '-');
    if parts.len() == 0 {
        return None;
    }
    let last = parts.len() - 1;
    let base = parts[last].as_str();
    assert(strings_view(parts@).last() == base@);
    let m = mods_of(&parts, last, true);
    assert(strings_view(parts@.subrange(0, last as int)) =~= strings_view(parts@).drop_last());
    let csi = named_csi_exec(base);
    let hb = tmux_to_herdr_exec(base);
    if csi.is_none() && hb.is_none() {
        return None;
    }
    let csi2 = match csi {
        Some(c) => {
            proof {
                lemma_named_csi_len(base@);
            }
            if !m.s && !m.m && !m.c {
                Some(c)
            } else {
                Some(csi_with_modifiers(&c, &m))
            }
        },
        None => None,
    };
    let key = match hb {
        Some(h) => Some(joined_key_exec(&m, h)),
        None => None,
    };
    Some((key, csi2))
}

} // verus!
