use cmux_herdr::json::Json;
use cmux_herdr::sidebar::{
    ascii_escape_json, json_dumps_compact, clip, input_action, move_selection, render_sidebar, socket_path_from_env, strip_ansi, wrap,
    InputAction, MuxSocketError, SidebarState, WorkspaceRow,
};

fn rows() -> Vec<WorkspaceRow> {
    vec![
        WorkspaceRow { id: "1".into(), name: "one".into(), active: false, key: None },
        WorkspaceRow { id: "2".into(), name: "two".into(), active: true, key: None },
    ]
}

#[test]
fn movement_wraps_and_empty_input_preserves_selection() {
    assert_eq!(move_selection(0, -1, 2), 1);
    assert_eq!(move_selection(1, 1, 2), 0);
    assert_eq!(move_selection(7, 1, 0), 7);
}

#[test]
fn focus_keys_and_escape_have_exact_actions() {
    assert_eq!(input_action(b"k"), InputAction::Move(-1));
    assert_eq!(input_action(b"\x1b[B"), InputAction::Move(1));
    assert_eq!(input_action(b"\n"), InputAction::Select);
    assert_eq!(input_action(b"\x1b"), InputAction::Ignore);
    assert_eq!(input_action(b"\x03"), InputAction::Exit);
}

#[test]
fn once_without_socket_draws_only_offline_state() {
    let environ: Vec<(String, String)> = Vec::new();
    assert!(socket_path_from_env(&environ).is_none());
    let mut state = SidebarState::new();
    state.refresh(None);
    let frame = render_sidebar(&state.rows, state.selected as i64, 28, 20, state.connected, &state.message);
    assert!(frame.contains("waiting for mux socket"));
    assert!(!frame.contains("lab"));
}

#[test]
fn selected_row_is_the_only_reverse_video_row() {
    let frame = render_sidebar(&rows(), 1, 20, 8, true, "");
    assert_eq!(frame.matches("\x1b[7m").count(), 1);
    assert!(frame.contains("\x1b[7m>* two"));
    assert!(!frame.contains("\x1b[32m"));
}

#[test]
fn frame_has_exact_height_and_width() {
    let frame = render_sidebar(&rows(), 0, 20, 8, true, "");
    let body = frame.strip_prefix("\x1b[H\x1b[J").unwrap();
    let lines: Vec<&str> = body.split('\n').collect();
    assert_eq!(lines.len(), 8);
    assert_eq!(lines[0], "cmux-herdr          ");
    assert_eq!(lines[7], "2 live              ");
    assert_eq!(strip_ansi(lines[3]).chars().count(), 20);
}

#[test]
fn offline_frame_shows_reason_and_footer() {
    let empty: Vec<WorkspaceRow> = Vec::new();
    let frame = render_sidebar(&empty, 0, 0, 0, false, "connect failed: nope");
    assert!(frame.contains("connect failed: nope"));
    assert!(frame.contains("retrying…"));
    assert!(frame.ends_with(&format!("offline{}", " ".repeat(17))));
}

#[test]
fn socket_path_prefers_tui_variable() {
    let env = vec![
        ("CMUX_MUX_SOCKET".to_string(), "/b.sock".to_string()),
        ("CMUX_TUI_SOCKET".to_string(), "  /a.sock ".to_string()),
    ];
    assert_eq!(socket_path_from_env(&env).as_deref(), Some("/a.sock"));
    let env = vec![
        ("CMUX_TUI_SOCKET".to_string(), "   ".to_string()),
        ("CMUX_MUX_SOCKET".to_string(), "/b.sock".to_string()),
    ];
    assert_eq!(socket_path_from_env(&env).as_deref(), Some("/b.sock"));
}

#[test]
fn clip_pads_and_cuts() {
    assert_eq!(clip("ab", 4), "ab  ");
    assert_eq!(clip("abcdef", 4), "abc…");
    assert_eq!(clip("\x1b[1mab\x1b[0m", 3), "ab ");
}

#[test]
fn wrap_fills_greedily() {
    assert_eq!(wrap("aa bb cc", 5), vec!["aa bb".to_string(), "cc".to_string()]);
    assert_eq!(wrap("   ", 5), vec!["".to_string()]);
    assert_eq!(wrap("a b", 1), vec!["a b".to_string()]);
}

#[test]
fn refresh_keeps_selection_inside_rows() {
    let mut state = SidebarState::new();
    state.selected = 5;
    state.refresh(Some(Ok(rows())));
    assert!(state.connected);
    assert_eq!(state.selected, 1);
    state.refresh(Some(Err(MuxSocketError::new("socket closed"))));
    assert!(!state.connected);
    assert!(state.rows.is_empty());
    assert_eq!(state.message, "socket closed");
}

#[test]
fn disconnected_renderer_never_invents_rows_or_color() {
    let frame = render_sidebar(&vec![], 0, 32, 10, false, "socket failed");
    assert!(frame.contains("waiting for mux socket"));
    assert!(frame.contains("retrying\u{2026}"));
    assert!(!frame.to_lowercase().contains("team"));
    assert!(!frame.contains("\x1b[32m"));
}

#[test]
fn compact_json_uses_python_ascii_escapes() {
    let mut m = serde_json::Map::new();
    m.insert("cmd".to_string(), serde_json::Value::from("café 🧪"));
    m.insert("quote".to_string(), serde_json::Value::from("\\\""));
    let text = serde_json::Value::Object(m).to_string();
    let value = Json::Object {
        entries: vec![
            ("cmd".to_string(), Json::Str("café 🧪".to_string())),
            ("quote".to_string(), Json::Str("\\\"".to_string())),
        ],
        text,
    };
    assert_eq!(json_dumps_compact(&value), "{\"cmd\":\"caf\\u00e9 \\ud83e\\uddea\",\"quote\":\"\\\\\\\"\"}");
    assert_eq!(json_dumps_compact(&Json::Str("\u{7f}".to_string())), "\"\\u007f\"");
}

#[test]
fn ascii_escape_leaves_text_outside_strings_alone() {
    assert_eq!(ascii_escape_json("[1,\"\u{1}é\",true]"), "[1,\"\\u0001\\u00e9\",true]");
    assert_eq!(ascii_escape_json("{\"a\\\"é\":\"x\"}"), "{\"a\\\"\\u00e9\":\"x\"}");
}
