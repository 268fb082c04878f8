use cmux_herdr::io::{PaneIORouter, TitleEscapeFilter};

#[test]
fn title_escape_can_span_chunks() {
    let mut filter = TitleEscapeFilter::new();
    assert_eq!(filter.filter(b"ab\x1bkti"), b"ab");
    assert_eq!(filter.filter(b"tle\x1b\\cd"), b"cd");
}

#[test]
fn full_redraw_replaces_the_bound_surface_buffer() {
    let mut router = PaneIORouter::default();
    router.bind("p", "s");
    router.route_output_text("p", "hello");
    router.route_output_text("p", "goodbye");
    assert_eq!(router.buffer_for("p"), b"goodbye");
}

#[test]
fn title_filter_is_the_io_implementation() {
    let mut filter = TitleEscapeFilter::new();
    assert_eq!(filter.filter(b"a\x1bkname\x1b\\b"), b"ab");
}

#[test]
fn title_filter_text_drops_title_sequence() {
    let mut filter = TitleEscapeFilter::new();
    assert_eq!(filter.filter_text("a\x1bkname\x1b\\b"), "ab");
}

#[test]
fn text_filter_ignores_chunk_boundaries() {
    let mut f = TitleEscapeFilter::new();
    let mut g = TitleEscapeFilter::new();
    let first = f.filter_text("héllo \u{1b}kti");
    let second = f.filter_text("tle\u{1b}\\ wörld");
    let whole = g.filter_text("héllo \u{1b}ktitle\u{1b}\\ wörld");
    assert_eq!(format!("{first}{second}"), "héllo  wörld");
    assert_eq!(whole, "héllo  wörld");
    assert_eq!(f.filter_text("\u{1b}kx"), g.filter_text("\u{1b}kx"));
}

#[test]
fn projected_user_focus_asks_the_provider_once() {
    let mut r = PaneIORouter::new();
    r.set_live_panes(&["p1".to_string()]);
    let a = cmux_herdr::io::project_focus(&mut r, "p1", false);
    assert_eq!(a.pane_id.as_deref(), Some("p1"));
    assert!(a.send_to_provider && a.changed);
    assert_eq!(a.source, "user");
    assert_eq!(r.pending_user_focus.as_deref(), Some("p1"));
    assert_eq!(r.log.last().map(String::as_str), Some("focus-user-send:p1"));
    let b = r.project_focus("p1", false);
    assert!(!b.send_to_provider && !b.changed);
    assert_eq!(r.log.last().map(String::as_str), Some("focus-user-pending:p1"));
    let c = r.project_focus("p1", true);
    assert_eq!(c.source, "provider");
    assert!(!c.send_to_provider);
    assert_eq!(r.pending_user_focus, None);
    assert_eq!(r.log.last().map(String::as_str), Some("focus-provider:p1"));
    let d = r.project_focus("ghost", false);
    assert_eq!(d.pane_id, None);
    assert_eq!(r.log.last().map(String::as_str), Some("focus-user-unknown:ghost"));
}

#[test]
fn text_and_byte_filters_agree_on_utf8() {
    let text = "aé\u{1b}kn€\u{1b}\\bü\u{1b}x😀";
    let mut bytes = TitleEscapeFilter::new();
    let mut chars = TitleEscapeFilter::new();
    let from_bytes = bytes.filter(text.as_bytes());
    let from_text = chars.filter_text(text);
    assert_eq!(from_text.as_bytes(), from_bytes.as_slice());
    assert_eq!(from_text, "aébü\u{1b}x😀");
    let (head, tail) = text.split_at(3);
    let mut split = TitleEscapeFilter::new();
    let joined = split.filter_text(head) + &split.filter_text(tail);
    assert_eq!(joined, from_text);
}
