use cmux_herdr::engine::HerdrWindow;
use cmux_herdr::layout::{LayoutNode, LayoutRect};

fn leaf(id: &str) -> LayoutNode {
    LayoutNode {
        kind: "pane".into(),
        pane_id: Some(id.into()),
        children: Vec::new(),
        rect: LayoutRect::unit(),
    }
}

#[test]
fn non_zoom_window_drops_visible_layout() {
    let window = HerdrWindow::new("t", "t", 0, leaf("base"), Some(leaf("visible")), false, None);
    assert!(window.visible_layout.is_none());
    assert_eq!(window.rendered_layout().pane_id.as_deref(), Some("base"));
}

#[test]
fn zoomed_window_renders_visible_layout() {
    let window = HerdrWindow::new("t", "t", 0, leaf("base"), Some(leaf("visible")), true, None);
    assert_eq!(window.rendered_layout().pane_id.as_deref(), Some("visible"));
    assert_eq!(window.base_pane_ids(), vec!["base".to_string()]);
}
