use cmux_herdr::call::{after_first_failure, after_retry_failure, cli_failure, CallAction, RetryFailure};
use cmux_herdr::json::Json;
use cmux_herdr::socket::{judge_response, quote_json, request_id, ErrorStage, SocketError};

fn obj() -> Json {
    Json::Object { entries: vec![], text: "{}".to_string() }
}

fn failure(stage: ErrorStage, msg: &str) -> SocketError {
    SocketError { message: msg.to_string(), stage }
}

#[test]
fn remote_errors_end_the_call() {
    let a = after_first_failure("pane.list", &obj(), &failure(ErrorStage::Remote, "boom"), true, false);
    assert!(matches!(a, CallAction::Fail(ref m) if m == "boom"));
}

#[test]
fn delivered_mutations_are_not_replayed() {
    let a = after_first_failure("pane.send_text", &obj(), &failure(ErrorStage::AfterSend, "eof"), true, false);
    match a {
        CallAction::Fail(m) => assert_eq!(
            m,
            "pane.send_text outcome indeterminate: request may have been delivered; not retrying a non-idempotent method (eof)"
        ),
        other => panic!("unexpected {:?}", other),
    }
}

#[test]
fn replay_safe_reads_reconnect_then_fall_back() {
    let a = after_first_failure("pane.list", &obj(), &failure(ErrorStage::AfterSend, "eof"), true, false);
    assert!(matches!(a, CallAction::Reconnect));
    let b = after_retry_failure("pane.list", &obj(), true, &RetryFailure::Open("gone".to_string()), false);
    match b {
        CallAction::Fail(m) => assert_eq!(
            m,
            "pane.list outcome indeterminate: request may have been delivered; no CLI fallback (gone)"
        ),
        other => panic!("unexpected {:?}", other),
    }
    let c = after_retry_failure("pane.list", &obj(), false, &RetryFailure::Open("gone".to_string()), false);
    assert!(matches!(c, CallAction::Cli(ref argv) if argv == &vec!["pane".to_string(), "list".to_string()]));
    let d = after_retry_failure("pane.list", &obj(), false, &RetryFailure::Open(String::new()), true);
    assert!(matches!(d, CallAction::Fail(ref m) if m == "pane.list socket request failed"));
}

#[test]
fn resend_written_to_the_wire_never_falls_back_to_cli() {
    let a = after_first_failure("pane.list", &obj(), &failure(ErrorStage::BeforeSend, "refused"), true, false);
    assert!(matches!(a, CallAction::Reconnect));
    let b = after_retry_failure("pane.list", &obj(), false, &RetryFailure::Socket(failure(ErrorStage::AfterSend, "eof")), false);
    match b {
        CallAction::Fail(m) => assert_eq!(
            m,
            "pane.list outcome indeterminate: request may have been delivered; no CLI fallback (eof)"
        ),
        other => panic!("unexpected {:?}", other),
    }
    let c = after_retry_failure("pane.list", &obj(), false, &RetryFailure::Socket(failure(ErrorStage::BeforeSend, "refused")), false);
    assert!(matches!(c, CallAction::Cli(_)));
}

#[test]
fn injected_clients_skip_the_reconnect() {
    let a = after_first_failure("pane.list", &obj(), &failure(ErrorStage::BeforeSend, "no socket"), false, false);
    assert!(matches!(a, CallAction::Cli(_)));
    assert_eq!(cli_failure("pane.list", "", "no socket"), "pane.list failed: no socket");
    assert_eq!(cli_failure("pane.list", "exit 2", "no socket"), "pane.list failed: exit 2");
}

fn frame(entries: Vec<(&str, Json)>) -> Json {
    Json::Object { entries: entries.into_iter().map(|(k, v)| (k.to_string(), v)).collect(), text: String::new() }
}

#[test]
fn responses_are_matched_by_id() {
    assert_eq!(request_id(3), "plugin-3");
    let ok = frame(vec![("id", Json::Str("plugin-1".into())), ("result", Json::Bool(true))]);
    assert!(matches!(judge_response(&ok, "plugin-1"), Ok(Some(Json::Bool(true)))));
    let bare = frame(vec![("id", Json::Str("plugin-1".into()))]);
    assert!(matches!(judge_response(&bare, "plugin-1"), Ok(None)));
    match judge_response(&ok, "plugin-2") {
        Err(e) => {
            assert_eq!(e.message, "response id plugin-1 does not match request id plugin-2");
            assert_eq!(e.stage, ErrorStage::AfterSend);
        }
        Ok(_) => panic!("mismatched id accepted"),
    }
    let no_id = frame(vec![("result", Json::Null)]);
    assert!(matches!(judge_response(&no_id, "plugin-1"), Err(SocketError { stage: ErrorStage::AfterSend, .. })));
}

#[test]
fn response_requires_a_string_request_id() {
    let missing = frame(vec![("result", frame(vec![("ok", Json::Bool(true))]))]);
    match judge_response(&missing, "plugin-1") {
        Err(e) => {
            assert_eq!(e.stage, ErrorStage::AfterSend);
            assert!(e.message.contains("response id"), "{}", e.message);
        }
        Ok(_) => panic!("missing id accepted"),
    }
    let numeric = frame(vec![("id", Json::Number { text: "1".into(), whole: Some(1), trunc: 1 })]);
    match judge_response(&numeric, "plugin-1") {
        Err(e) => assert_eq!(e.message, "response id is missing or not a string"),
        Ok(_) => panic!("numeric id accepted"),
    }
}

#[test]
fn remote_errors_carry_the_provider_message() {
    let err = frame(vec![
        ("id", Json::Str("plugin-1".into())),
        ("error", frame(vec![("code", Json::Str("E\"1".into()))])),
    ]);
    match judge_response(&err, "plugin-1") {
        Err(e) => {
            assert_eq!(e.message, "\"E\\\"1\"");
            assert_eq!(e.stage, ErrorStage::Remote);
        }
        Ok(_) => panic!("error accepted"),
    }
    assert_eq!(quote_json("a\nb\u{1}"), "\"a\\nb\\u0001\"");
}
