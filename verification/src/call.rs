//! The socket-first call policy of the provider API: what a call does after
//! each failed attempt. A remote error is final; a request that may have
//! reached the wire is never sent again unless the method is a replay-safe
//! read, and never falls back to the CLI; the CLI is used only when no byte
//! was written.
use vstd::prelude::*;

use crate::api::{argv_opt, build_cli_argv, cli_argv, is_replay_safe, replay_safe_list};
use crate::json::Json;
use crate::socket::{ErrorStage, SocketError};
use crate::text::{concat2, concat3, owned};

verus! {

/// What a failed call does next.
#[derive(Debug)]
pub enum CallAction {
    /// Close the owned client, reconnect and send the request once more.
    Reconnect,
    /// Run the provider CLI with these arguments.
    Cli(Vec<String>),
    /// Give up with this message.
    Fail(String),
}

/// A next step as plain values: `(0, _, _)` reconnect, `(1, argv, _)` run
/// the CLI, `(2, _, message)` fail.
pub open spec fn action_view(a: CallAction) -> (int, Seq<Seq<char>>, Seq<char>) {
    match a {
        CallAction::Reconnect => (0, Seq::empty(), Seq::empty()),
        CallAction::Cli(argv) => (1, crate::text::strings_view(argv@), Seq::empty()),
        CallAction::Fail(m) => (2, Seq::empty(), m@),
    }
}

pub open spec fn reconnect() -> (int, Seq<Seq<char>>, Seq<char>) {
    (0, Seq::empty(), Seq::empty())
}

pub open spec fn run_cli(argv: Seq<Seq<char>>) -> (int, Seq<Seq<char>>, Seq<char>) {
    (1, argv, Seq::empty())
}

pub open spec fn fail(m: Seq<char>) -> (int, Seq<Seq<char>>, Seq<char>) {
    (2, Seq::empty(), m)
}

pub open spec fn parenthesized(head: Seq<char>, msg: Seq<char>) -> Seq<char> {
    head + " ("@ + msg + ")"@
}

/// The message, or `fallback` when it is empty.
pub open spec fn or_message(msg: Seq<char>, fallback: Seq<char>) -> Seq<char> {
    if msg.len() == 0 {
        fallback
    } else {
        msg
    }
}

/// The last resort once the socket attempts are over: a socket-only call
/// fails; a request that may have been delivered fails; otherwise the CLI
/// runs when the method has a CLI form, else the call fails.
pub open spec fn final_action(
    name: Seq<char>,
    payload: Json,
    msg: Seq<char>,
    after_send: bool,
    socket_only: bool,
) -> (int, Seq<Seq<char>>, Seq<char>) {
    if socket_only {
        fail(or_message(msg, name + " socket request failed"@))
    } else if after_send {
        fail(parenthesized(name + " outcome indeterminate: request may have been delivered; no CLI fallback"@, msg))
    } else {
        match cli_argv(name, payload) {
            Some(argv) => run_cli(argv),
            None => fail(or_message(msg, name + " has no CLI fallback (socket required)"@)),
        }
    }
}

/// After the first socket attempt failed.
pub open spec fn first_failure_action(
    name: Seq<char>,
    payload: Json,
    stage: ErrorStage,
    msg: Seq<char>,
    owned_client: bool,
    socket_only: bool,
) -> (int, Seq<Seq<char>>, Seq<char>) {
    let replay_safe = replay_safe_list().contains(name);
    let after_send = stage == ErrorStage::AfterSend;
    if stage == ErrorStage::Remote {
        fail(msg)
    } else if after_send && !replay_safe {
        fail(
            parenthesized(
                name + " outcome indeterminate: request may have been delivered; not retrying a non-idempotent method"@,
                msg,
            ),
        )
    } else if owned_client && (replay_safe || !after_send) {
        reconnect()
    } else {
        final_action(name, payload, msg, after_send, socket_only)
    }
}

/// How the reconnect attempt failed.
#[derive(Debug)]
pub enum RetryFailure {
    /// The client could not be opened again.
    Open(String),
    /// The resent request failed.
    Socket(SocketError),
}

/// After the reconnect attempt failed; `first_after_send` says whether the
/// first attempt may have been delivered. Once any attempt may have been
/// delivered, the CLI is not run.
pub open spec fn retry_failure_action(
    name: Seq<char>,
    payload: Json,
    first_after_send: bool,
    failure: RetryFailure,
    socket_only: bool,
) -> (int, Seq<Seq<char>>, Seq<char>) {
    let replay_safe = replay_safe_list().contains(name);
    match failure {
        RetryFailure::Open(m) => final_action(name, payload, m@, first_after_send, socket_only),
        RetryFailure::Socket(e) => if e.stage == ErrorStage::Remote {
            fail(e.message@)
        } else if e.stage == ErrorStage::AfterSend && !replay_safe {
            fail(parenthesized(name + " outcome indeterminate on retry"@, e.message@))
        } else {
            final_action(
                name,
                payload,
                e.message@,
                first_after_send || e.stage == ErrorStage::AfterSend,
                socket_only,
            )
        },
    }
}

fn parenthesized_exec(head: &str, msg: &str) -> (r: String)
    ensures
        r@ == parenthesized(head@, msg@),
{
    let a = concat3(head, " (", msg);
    concat2(a.as_str(), ")")
}

fn final_action_exec(name: &str, payload: &Json, msg: &str, after_send: bool, socket_only: bool) -> (r: CallAction)
    ensures
        action_view(r) == final_action(name@, *payload, msg@, after_send, socket_only),
{
    if socket_only {
        if msg.is_empty() {
            CallAction::Fail(concat2(name, " socket request failed"))
        } else {
            CallAction::Fail(owned(msg))
        }
    } else if after_send {
        let head = concat2(name, " outcome indeterminate: request may have been delivered; no CLI fallback");
        CallAction::Fail(parenthesized_exec(head.as_str(), msg))
    } else {
        match build_cli_argv(name, payload) {
            Some(argv) => CallAction::Cli(argv),
            None => if msg.is_empty() {
                CallAction::Fail(concat2(name, " has no CLI fallback (socket required)"))
            } else {
                CallAction::Fail(owned(msg))
            },
        }
    }
}

/// What a call does after its first socket attempt failed (see
/// [`first_failure_action`]).
pub fn after_first_failure(
    name: &str,
    payload: &Json,
    failure: &SocketError,
    owned_client: bool,
    socket_only: bool,
) -> (r: CallAction)
    ensures
        action_view(r) == first_failure_action(
            name@,
            *payload,
            failure.stage,
            failure.message@,
            owned_client,
            socket_only,
        ),
{
    let replay_safe = is_replay_safe(name);
    let after_send = matches!(failure.stage, ErrorStage::AfterSend);
    if matches!(failure.stage, ErrorStage::Remote) {
        return CallAction::Fail(failure.message.clone());
    }
    if after_send && !replay_safe {
        let head = concat2(
            name,
            " outcome indeterminate: request may have been delivered; not retrying a non-idempotent method",
        );
        return CallAction::Fail(parenthesized_exec(head.as_str(), failure.message.as_str()));
    }
    if owned_client && (replay_safe || !after_send) {
        return CallAction::Reconnect;
    }
    final_action_exec(name, payload, failure.message.as_str(), after_send, socket_only)
}

/// What a call does after its reconnect attempt failed (see
/// [`retry_failure_action`]).
pub fn after_retry_failure(
    name: &str,
    payload: &Json,
    first_after_send: bool,
    failure: &RetryFailure,
    socket_only: bool,
) -> (r: CallAction)
    ensures
        action_view(r) == retry_failure_action(name@, *payload, first_after_send, *failure, socket_only),
{
    match failure {
        RetryFailure::Open(m) => final_action_exec(name, payload, m.as_str(), first_after_send, socket_only),
        RetryFailure::Socket(e) => {
            let replay_safe = is_replay_safe(name);
            if matches!(e.stage, ErrorStage::Remote) {
                CallAction::Fail(e.message.clone())
            } else if matches!(e.stage, ErrorStage::AfterSend) && !replay_safe {
                let head = concat2(name, " outcome indeterminate on retry");
                CallAction::Fail(parenthesized_exec(head.as_str(), e.message.as_str()))
            } else {
                let resent_after_send = matches!(e.stage, ErrorStage::AfterSend);
                final_action_exec(
                    name,
                    payload,
                    e.message.as_str(),
                    first_after_send || resent_after_send,
                    socket_only,
                )
            }
        },
    }
}

/// The message of a failed CLI fallback: `<name> failed: ` and the CLI's
/// error, or the last socket error when the CLI gave none.
pub fn cli_failure(name: &str, cli_error: &str, socket_msg: &str) -> (r: String)
    ensures
        r@ == name@ + " failed: "@ + or_message(cli_error@, socket_msg@),
{
    let detail = if cli_error.is_empty() {
        socket_msg
    } else {
        cli_error
    };
    concat3(name, " failed: ", detail)
}

/// A request that may have reached the provider is never sent through the
/// CLI, and is sent again over the socket only when the method is a
/// replay-safe read; after a retry, too, no CLI run follows it, whichever
/// of the two attempts may have been delivered.
pub proof fn law_delivered_requests_never_replayed(
    name: Seq<char>,
    payload: Json,
    msg: Seq<char>,
    owned_client: bool,
    socket_only: bool,
    failure: RetryFailure,
)
    ensures
        first_failure_action(name, payload, ErrorStage::AfterSend, msg, owned_client, socket_only).0 != 1,
        first_failure_action(name, payload, ErrorStage::AfterSend, msg, owned_client, socket_only).0 == 0
            ==> replay_safe_list().contains(name),
        retry_failure_action(name, payload, true, failure, socket_only).0 != 1,
        failure matches RetryFailure::Socket(e) && e.stage == ErrorStage::AfterSend ==> retry_failure_action(
            name,
            payload,
            false,
            failure,
            socket_only,
        ).0 != 1,
{
}

/// An authoritative remote error ends the call with the provider's own
/// message, on the first attempt and on the retry.
pub proof fn law_remote_errors_are_final(
    name: Seq<char>,
    payload: Json,
    msg: String,
    owned_client: bool,
    socket_only: bool,
    first_after_send: bool,
)
    ensures
        first_failure_action(name, payload, ErrorStage::Remote, msg@, owned_client, socket_only) == fail(msg@),
        retry_failure_action(
            name,
            payload,
            first_after_send,
            RetryFailure::Socket(SocketError { message: msg, stage: ErrorStage::Remote }),
            socket_only,
        ) == fail(msg@),
{
}

} // verus!
