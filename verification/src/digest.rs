//! SHA-256 digests rendered as lowercase hex.
use vstd::prelude::*;

use crate::text::push_char;
use sha2::Digest;

verus! {

/// SHA-256 of a byte string.
pub uninterp spec fn sha256(b: Seq<u8>) -> Seq<u8>;

/// Calls `sha2::Sha256::digest`: the 32-byte SHA-256 digest of `bytes`.
#[verifier::external_body]
pub fn sha256_digest(bytes: &[u8]) -> (r: Vec<u8>)
    ensures
        r@ == sha256(bytes@),
        r@.len() == 32,
{
    <sha2::Sha256 as Digest>::digest(bytes).to_vec()
}

pub open spec fn hex_digit(n: u8) -> char {
    if n < 10 {
        (('0' as u8) + n) as char
    } else {
        (('a' as u8) + n - 10) as char
    }
}

/// Lowercase hex, two digits per byte.
pub open spec fn hex(b: Seq<u8>) -> Seq<char>
    decreases b.len(),
{
    if b.len() == 0 {
        Seq::empty()
    } else {
        hex(b.drop_last()) + seq![hex_digit(b.last() / 16), hex_digit(b.last() % 16)]
    }
}

pub proof fn lemma_hex_len(b: Seq<u8>)
    ensures
        hex(b).len() == 2 * b.len(),
    decreases b.len(),
{
    if b.len() > 0 {
        lemma_hex_len(b.drop_last());
    }
}

/// A lowercase hex digit.
pub open spec fn is_hex_char(c: char) -> bool {
    ('0' as u32 <= c as u32 && c as u32 <= '9' as u32) || ('a' as u32 <= c as u32 && c as u32 <= 'f' as u32)
}

/// Every character of `hex(b)` is a lowercase hex digit.
pub proof fn lemma_hex_chars(b: Seq<u8>)
    ensures
        forall|i: int| 0 <= i < hex(b).len() ==> is_hex_char(#[trigger] hex(b)[i]),
    decreases b.len(),
{
    if b.len() > 0 {
        lemma_hex_chars(b.drop_last());
        lemma_hex_len(b.drop_last());
        let hi = b.last() / 16;
        let lo = b.last() % 16;
        assert(is_hex_char(hex_digit(hi)));
        assert(is_hex_char(hex_digit(lo)));
        let h = hex(b);
        assert forall|i: int| 0 <= i < h.len() implies is_hex_char(#[trigger] h[i]) by {
            if i < hex(b.drop_last()).len() {
                assert(h[i] == hex(b.drop_last())[i]);
            }
        }
    }
}

pub(crate) fn hex_digit_exec(n: u8) -> (c: char)
    requires
        n < 16,
    ensures
        c == hex_digit(n),
{
    let table: [char; 16] = ['0', '1', '2', '3', '4', '5', '6', '7', '8', '9', 'a', 'b', 'c', 'd', 'e', 'f'];
    let c = table[n as usize];
    assert(c == hex_digit(n)) by {
        assert(table@[n as int] == c);
    }
    c
}

/// `format!("{b:02x}")` for each byte, concatenated.
pub fn hex_string(b: &Vec<u8>) -> (r: String)
    ensures
        r@ == hex(b@),
{
    let mut s = String::new();
    let mut i: usize = 0;
    while i < b.len()
        invariant
            i <= b.len(),
            s@ == hex(b@.subrange(0, i as int)),
        decreases b.len() - i,
    {
        assert(b@.subrange(0, i + 1).drop_last() =~= b@.subrange(0, i as int));
        push_char(&mut s, hex_digit_exec(b[i] / 16));
        push_char(&mut s, hex_digit_exec(b[i] % 16));
        assert(s@ =~= hex(b@.subrange(0, i + 1)));
        i += 1;
    }
    assert(b@.subrange(0, b@.len() as int) =~= b@);
    s
}

/// First 16 hex characters of the SHA-256 of `bytes`.
pub fn short_digest(bytes: &[u8]) -> (r: String)
    ensures
        r@ == hex(sha256(bytes@)).take(16),
        r@.len() == 16,
        forall|i: int| 0 <= i < 16 ==> is_hex_char(#[trigger] r@[i]),
{
    let d = sha256_digest(bytes);
    let h = hex_string(&d);
    proof {
        lemma_hex_len(d@);
        lemma_hex_chars(d@);
    }
    let v = crate::text::chars_of(h.as_str());
    let r = crate::text::string_from(&v, 0, 16);
    assert(r@ =~= hex(sha256(bytes@)).take(16));
    r
}

} // verus!
