//! Transport error classification for the provider socket.
//!
//! The request socket is dedicated to requests and never carries event
//! frames, so the reader does not skip frames: a response whose `id` is
//! missing or differs from the request's is a protocol error raised after
//! the request was sent (see [`response_outcome`]).
use vstd::prelude::*;

use crate::json::{json_get, json_text, opt_ref, Json};
use crate::text::{concat2, concat3, nat_to_string, owned, str_eq};

verus! {

/// The subscription set a watch session requests (exact membership and order).
pub fn default_subscriptions() -> (r: Vec<&'static str>)
    ensures
        r@.map_values(|s: &str| s@) == seq![
            "workspace.created"@, "workspace.updated"@, "workspace.metadata_updated"@,
            "workspace.renamed"@, "workspace.moved"@, "workspace.reordered"@, "workspace.closed"@,
            "workspace.focused"@, "tab.created"@, "tab.closed"@, "tab.focused"@, "tab.renamed"@,
            "tab.moved"@, "pane.created"@, "pane.closed"@, "pane.updated"@, "pane.focused"@,
            "pane.moved"@, "pane.exited"@, "pane.agent_detected"@, "pane.agent_status_changed"@,
            "pane.resized"@, "layout.updated"@, "layout.changed"@,
        ],
{
    let v = vec![
        "workspace.created", "workspace.updated", "workspace.metadata_updated", "workspace.renamed",
        "workspace.moved", "workspace.reordered", "workspace.closed", "workspace.focused",
        "tab.created", "tab.closed", "tab.focused", "tab.renamed", "tab.moved", "pane.created",
        "pane.closed", "pane.updated", "pane.focused", "pane.moved", "pane.exited",
        "pane.agent_detected", "pane.agent_status_changed", "pane.resized", "layout.updated",
        "layout.changed",
    ];
    assert(v@.map_values(|s: &str| s@) =~= seq![
        "workspace.created"@, "workspace.updated"@, "workspace.metadata_updated"@,
        "workspace.renamed"@, "workspace.moved"@, "workspace.reordered"@, "workspace.closed"@,
        "workspace.focused"@, "tab.created"@, "tab.closed"@, "tab.focused"@, "tab.renamed"@,
        "tab.moved"@, "pane.created"@, "pane.closed"@, "pane.updated"@, "pane.focused"@,
        "pane.moved"@, "pane.exited"@, "pane.agent_detected"@, "pane.agent_status_changed"@,
        "pane.resized"@, "layout.updated"@, "layout.changed"@,
    ]);
    v
}

/// Where a socket failure happened relative to the request write. A request
/// that may have reached the wire (`AfterSend`) must not be replayed.
#[derive(Debug, Clone, Copy, PartialEq, Eq)]
pub enum ErrorStage {
    BeforeSend,
    AfterSend,
    Remote,
}

/// Transport or protocol failure on the provider socket.
#[derive(Debug)]
pub struct SocketError {
    pub message: String,
    pub stage: ErrorStage,
}

impl SocketError {
    /// A failure before any request byte was written.
    pub fn before_send(msg: &str) -> (r: Self)
        ensures
            r.message@ == msg@,
            r.stage == ErrorStage::BeforeSend,
    {
        SocketError { message: owned(msg), stage: ErrorStage::BeforeSend }
    }

    /// The same failure, re-tagged.
    pub fn at(self, stage: ErrorStage) -> (r: Self)
        ensures
            r.message == self.message,
            r.stage == stage,
    {
        SocketError { message: self.message, stage }
    }
}

/// Whether a failed call may be retried or sent through the CLI fallback:
/// only when no byte reached the wire, or the method is a replay-safe read
/// and the failure was not an authoritative remote error.
pub fn may_retry(stage: ErrorStage, replay_safe: bool) -> (r: bool)
    ensures
        r == (stage == ErrorStage::BeforeSend || (stage == ErrorStage::AfterSend && replay_safe)),
{
    match stage {
        ErrorStage::BeforeSend => true,
        ErrorStage::AfterSend => replay_safe,
        ErrorStage::Remote => false,
    }
}

/// The id of the `n`-th request of a client: `plugin-<n>`.
pub fn request_id(n: u64) -> (r: String)
    ensures
        r@ == "plugin-"@ + crate::text::dec_nat(n as nat),
{
    let num = nat_to_string(n);
    concat2("plugin-", num.as_str())
}

/// The message of a remote error object: its string `message`, else the
/// JSON text of its `code`, else its own JSON text.
pub open spec fn remote_message(error: Json) -> Seq<char> {
    match json_get(error, "message"@) {
        Some(Json::Str(m)) => m@,
        _ => match json_get(error, "code"@) {
            Some(c) => json_text_of(c),
            None => json_text(error),
        },
    }
}

/// A lower-case hexadecimal digit.
pub open spec fn hex_digit(n: int) -> char {
    if n < 10 {
        (('0' as int) + n) as char
    } else {
        (('a' as int) + n - 10) as char
    }
}

/// One character as a JSON string writes it: quote, backslash and control
/// characters escaped (short forms where JSON has them), others verbatim.
pub open spec fn escape_char(c: char) -> Seq<char> {
    if c == '"' {
        seq!['\\', '"']
    } else if c == '\\' {
        seq!['\\', '\\']
    } else if c == '\n' {
        seq!['\\', 'n']
    } else if c == '\r' {
        seq!['\\', 'r']
    } else if c == '\t' {
        seq!['\\', 't']
    } else if c == '\x08' {
        seq!['\\', 'b']
    } else if c == '\x0c' {
        seq!['\\', 'f']
    } else if (c as u32) < 0x20 {
        seq!['\\', 'u', '0', '0', hex_digit(((c as u32) / 16) as int), hex_digit(((c as u32) % 16) as int)]
    } else {
        seq![c]
    }
}

pub open spec fn escaped(s: Seq<char>) -> Seq<char>
    decreases s.len(),
{
    if s.len() == 0 {
        Seq::empty()
    } else {
        escaped(s.drop_last()) + escape_char(s.last())
    }
}

/// A string as JSON writes it, quoted.
pub open spec fn json_quote(s: Seq<char>) -> Seq<char> {
    seq!['"'] + escaped(s) + seq!['"']
}

/// The JSON text of a value.
pub open spec fn json_text_of(v: Json) -> Seq<char> {
    match v {
        Json::Str(s) => json_quote(s@),
        _ => json_text(v),
    }
}

/// What a response frame means for a request with id `req_id`: an error
/// after the request was sent when its id is missing or differs; the
/// provider's error when it carries an `error` object; else its `result`
/// (`None` standing for null).
pub open spec fn response_outcome(obj: Json, req_id: Seq<char>) -> Result<Option<Json>, (Seq<char>, ErrorStage)> {
    match json_get(obj, "id"@) {
        Some(Json::Str(id)) => if id@ != req_id {
            Err(("response id "@ + id@ + " does not match request id "@ + req_id, ErrorStage::AfterSend))
        } else {
            match json_get(obj, "error"@) {
                Some(e) => if e is Object {
                    Err((remote_message(e), ErrorStage::Remote))
                } else {
                    Ok(json_get(obj, "result"@))
                },
                None => Ok(json_get(obj, "result"@)),
            }
        },
        _ => Err(("response id is missing or not a string"@, ErrorStage::AfterSend)),
    }
}

fn hex_digit_exec(n: u32) -> (c: char)
    requires
        n < 16,
    ensures
        c == hex_digit(n as int),
{
    let table = vec!['0', '1', '2', '3', '4', '5', '6', '7', '8', '9', 'a', 'b', 'c', 'd', 'e', 'f'];
    proof {
        assert(table@[n as int] == hex_digit(n as int)) by {
            if n < 10 {
                assert(n == 0 || n == 1 || n == 2 || n == 3 || n == 4 || n == 5 || n == 6 || n == 7 || n == 8
                    || n == 9);
            } else {
                assert(n == 10 || n == 11 || n == 12 || n == 13 || n == 14 || n == 15);
            }
        }
    }
    table[n as usize]
}

/// See [`json_quote`].
pub fn quote_json(s: &str) -> (r: String)
    ensures
        r@ == json_quote(s@),
{
    let v = crate::text::chars_of(s);
    let mut out = String::new();
    crate::text::push_char(&mut out, '"');
    let mut i: usize = 0;
    while i < v.len()
        invariant
            i <= v.len(),
            v@ == s@,
            out@ == seq!['"'] + escaped(s@.take(i as int)),
        decreases v.len() - i,
    {
        let c = v[i];
        let ghost o0 = out@;
        let code = c as u32;
        if c == '"' {
            crate::text::push_char(&mut out, '\\');
            crate::text::push_char(&mut out, '"');
        } else if c == '\\' {
            crate::text::push_char(&mut out, '\\');
            crate::text::push_char(&mut out, '\\');
        } else if c == '\n' {
            crate::text::push_char(&mut out, '\\');
            crate::text::push_char(&mut out, 'n');
        } else if c == '\r' {
            crate::text::push_char(&mut out, '\\');
            crate::text::push_char(&mut out, 'r');
        } else if c == '\t' {
            crate::text::push_char(&mut out, '\\');
            crate::text::push_char(&mut out, 't');
        } else if c == '\x08' {
            crate::text::push_char(&mut out, '\\');
            crate::text::push_char(&mut out, 'b');
        } else if c == '\x0c' {
            crate::text::push_char(&mut out, '\\');
            crate::text::push_char(&mut out, 'f');
        } else if code < 0x20 {
            crate::text::push_char(&mut out, '\\');
            crate::text::push_char(&mut out, 'u');
            crate::text::push_char(&mut out, '0');
            crate::text::push_char(&mut out, '0');
            crate::text::push_char(&mut out, hex_digit_exec(code / 16));
            crate::text::push_char(&mut out, hex_digit_exec(code % 16));
        } else {
            crate::text::push_char(&mut out, c);
        }
        assert(out@ =~= o0 + escape_char(c));
        let ghost t = s@.take(i + 1);
        assert(t.drop_last() =~= s@.take(i as int));
        assert(t.last() == c);
        i += 1;
    }
    assert(s@.take(v.len() as int) =~= s@);
    crate::text::push_char(&mut out, '"');
    out
}

pub(crate) fn json_text_of_exec(v: &Json) -> (r: String)
    ensures
        r@ == json_text_of(*v),
{
    match v {
        Json::Str(s) => quote_json(s.as_str()),
        _ => v.text(),
    }
}

/// Judge a response frame (see [`response_outcome`]).
pub fn judge_response<'a>(obj: &'a Json, req_id: &str) -> (r: Result<Option<&'a Json>, SocketError>)
    ensures
        match r {
            Ok(v) => response_outcome(*obj, req_id@) == Ok::<Option<Json>, (Seq<char>, ErrorStage)>(opt_ref(v)),
            Err(e) => response_outcome(*obj, req_id@) == Err::<Option<Json>, (Seq<char>, ErrorStage)>(
                (e.message@, e.stage),
            ),
        },
{
    match obj.get("id") {
        Some(Json::Str(id)) => {
            if !str_eq(id.as_str(), req_id) {
                let a = concat3("response id ", id.as_str(), " does not match request id ");
                return Err(SocketError { message: concat2(a.as_str(), req_id), stage: ErrorStage::AfterSend });
            }
            match obj.get("error") {
                Some(e) => if e.is_object() {
                    let message = match e.get("message") {
                        Some(Json::Str(m)) => m.clone(),
                        _ => match e.get("code") {
                            Some(c) => json_text_of_exec(c),
                            None => e.text(),
                        },
                    };
                    Err(SocketError { message, stage: ErrorStage::Remote })
                } else {
                    Ok(obj.get("result"))
                },
                None => Ok(obj.get("result")),
            }
        },
        _ => Err(
            SocketError { message: owned("response id is missing or not a string"), stage: ErrorStage::AfterSend },
        ),
    }
}

} // verus!
