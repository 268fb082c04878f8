use cmux_herdr::engine::{apply_window, impose_after_apply, HerdrWindow};
use cmux_herdr::host::{divider_impose_actions, host_actions, HostAction};
use cmux_herdr::impose::{
    binary_tree, collect_fractions, divider_fraction, leaf_expansion, plan_impose, same_shape_and_pane_ids,
    specs_with_impose_fractions, tree_action, DividerNode,
};
use cmux_herdr::layout::{LayoutNode, LayoutRect, Ratio};

fn rect(x: i64, y: i64, width: i64, height: i64) -> LayoutRect {
    LayoutRect { x, y, width, height }
}

fn leaf(id: &str, r: LayoutRect) -> LayoutNode {
    LayoutNode { kind: "pane".into(), pane_id: Some(id.into()), children: vec![], rect: r }
}

fn split(kind: &str, children: Vec<LayoutNode>, r: LayoutRect) -> LayoutNode {
    LayoutNode { kind: kind.into(), pane_id: None, children, rect: r }
}

fn horizontal() -> LayoutNode {
    split(
        "horizontal",
        vec![leaf("a", rect(0, 0, 100, 50)), leaf("b", rect(101, 0, 99, 50))],
        rect(0, 0, 200, 50),
    )
}

fn value(r: Ratio) -> f64 {
    r.num as f64 / r.den as f64
}

#[test]
fn divider_fraction_includes_separator_and_clamps() {
    assert_eq!(value(divider_fraction(100, &[99])), 0.5);
    assert_eq!(value(divider_fraction(1, &[1000])), 0.05);
    assert_eq!(value(divider_fraction(1000, &[1])), 0.95);
}

#[test]
fn divider_fraction_exact_values() {
    assert_eq!(divider_fraction(100, &[99]), Ratio { num: 100, den: 200 });
    assert_eq!(divider_fraction(30, &[30, -5, 29]), Ratio { num: 30, den: 90 });
    assert_eq!(divider_fraction(-4, &[10]), Ratio { num: 1, den: 20 });
    assert_eq!(divider_fraction(0, &[]), Ratio { num: 1, den: 20 });
    assert_eq!(divider_fraction(7, &[]), Ratio { num: 7, den: 8 });
    assert_eq!(divider_fraction(100, &[]), Ratio { num: 19, den: 20 });
}

#[test]
fn geometry_only_change_keeps_tree() {
    let node = horizontal();
    let mut wider = node.duplicate();
    wider.rect.width = 400;
    assert!(same_shape_and_pane_ids(&node, &wider));
    assert_eq!(tree_action(Some(&node), &wider).kind, "keep");
}

#[test]
fn leaf_addition_and_removal_are_targeted() {
    let split = horizontal();
    let leaf = leaf("a", rect(0, 0, 200, 50));
    let expansion = tree_action(Some(&leaf), &split);
    assert_eq!(expansion.kind, "expand_leaf");
    assert_eq!(expansion.expansion.unwrap().new_pane_id, "b");
    let removal = tree_action(Some(&split), &leaf);
    assert_eq!(removal.kind, "remove_leaf");
    assert_eq!(removal.removed_pane_id.as_deref(), Some("b"));
}

#[test]
fn no_previous_render_rebuilds_and_unrelated_change_rebuilds() {
    let split = horizontal();
    assert_eq!(tree_action(None, &split).kind, "rebuild");
    let other = leaf("z", rect(0, 0, 10, 10));
    let action = tree_action(Some(&split), &other);
    assert_eq!(action.kind, "rebuild");
    assert!(action.expansion.is_none());
    assert!(action.removed_pane_id.is_none());
}

#[test]
fn leaf_expansion_reports_side_and_fraction() {
    let old = leaf("a", rect(0, 0, 200, 50));
    let new = split(
        "vertical",
        vec![leaf("n", rect(0, 0, 200, 9)), leaf("a", rect(0, 10, 200, 40))],
        rect(0, 0, 200, 50),
    );
    let e = leaf_expansion(&old, &new, "n").unwrap();
    assert_eq!(e.existing_pane_id, "a");
    assert_eq!(e.new_pane_id, "n");
    assert_eq!(e.orientation, "vertical");
    assert!(e.insert_first);
    assert_eq!(e.fraction, Ratio { num: 9, den: 50 });
    assert!(leaf_expansion(&old, &new, "q").is_none());
}

fn three_columns() -> LayoutNode {
    split(
        "horizontal",
        vec![leaf("a", rect(0, 0, 30, 10)), leaf("b", rect(31, 0, 30, 10)), leaf("c", rect(62, 0, 29, 10))],
        rect(0, 0, 91, 10),
    )
}

#[test]
fn binary_tree_is_right_associated() {
    let tree = binary_tree(&three_columns());
    let DividerNode::Split(top) = tree else { panic!("expected a split") };
    assert_eq!(top.orientation, "horizontal");
    assert_eq!(top.fraction, Ratio { num: 30, den: 90 });
    match *top.first {
        DividerNode::Leaf(ref l) => assert_eq!(l.pane_id, "a"),
        _ => panic!("expected a leaf"),
    }
    let DividerNode::Split(ref inner) = *top.second else { panic!("expected a split") };
    assert_eq!(inner.fraction, Ratio { num: 30, den: 60 });
    assert_eq!(
        collect_fractions(&binary_tree(&three_columns())),
        vec![Ratio { num: 30, den: 90 }, Ratio { num: 30, den: 60 }]
    );
}

#[test]
fn specs_carry_impose_fractions() {
    let specs = specs_with_impose_fractions(&three_columns());
    assert_eq!(specs.len(), 2);
    assert_eq!(specs[0].pane_id, "b");
    assert_eq!(specs[0].split_from_pane_id, "a");
    assert_eq!(specs[0].ratio, Some(Ratio { num: 30, den: 90 }));
    assert_eq!(specs[1].pane_id, "c");
    assert_eq!(specs[1].ratio, Some(Ratio { num: 30, den: 60 }));
}

#[test]
fn divider_actions_skip_the_held_split() {
    let tree = binary_tree(&three_columns());
    let all = divider_impose_actions(&tree, None, "s");
    let keys: Vec<_> = all.iter().map(|a| a.split_key.clone().unwrap()).collect();
    assert_eq!(keys, vec!["s", "s.1"]);
    let held = divider_impose_actions(&tree, Some("s"), "s");
    assert_eq!(held.len(), 1);
    assert_eq!(held[0].split_key.as_deref(), Some("s.1"));
    assert_eq!(held[0].op, "impose_divider");
}

fn ops(actions: &[HostAction]) -> Vec<String> {
    actions.iter().map(|a| a.op.clone()).collect()
}

#[test]
fn host_actions_follow_create_close_tree_divider_focus() {
    let first = HerdrWindow::new("t", "title", 0, leaf("a", rect(0, 0, 200, 50)), None, false, Some("a".into()));
    let (state, _) = apply_window(&first, None);
    let second = HerdrWindow::new("t", "title", 0, horizontal(), None, false, Some("b".into()));
    let (state2, result) = apply_window(&second, Some(&state));
    assert_eq!(result.created_pane_ids, vec!["b"]);
    assert!(result.closed_pane_ids.is_empty());
    assert_eq!(result.kept_pane_ids, vec!["a"]);
    assert!(result.structure_changed);
    assert!(!result.title_changed);
    assert_eq!(result.focus_pane_id.as_deref(), Some("b"));
    assert_eq!(result.split_specs.len(), 1);
    assert_eq!(state2.layout_structure_version, 1);
    let plan = impose_after_apply(&result, Some(&state.layout), "title");
    let actions = host_actions(&result, &plan);
    assert_eq!(ops(&actions), vec!["create_panel", "expand_leaf", "impose_divider", "focus"]);
    assert_eq!(actions[1].pane_id.as_deref(), Some("b"));
    assert_eq!(actions[1].split_from_pane_id.as_deref(), Some("a"));
    assert_eq!(actions[1].fraction, Some(Ratio { num: 100, den: 200 }));
    assert_eq!(actions[3].pane_id.as_deref(), Some("b"));
}

#[test]
fn closing_a_pane_drops_its_surface() {
    let base = HerdrWindow::new("t", "x", 0, horizontal(), None, false, None);
    let (mut state, first) = apply_window(&base, None);
    assert_eq!(first.focus_pane_id.as_deref(), Some("a"));
    cmux_herdr::engine::bind_surface(&mut state, "a", "sa");
    cmux_herdr::engine::bind_surface(&mut state, "b", "sb");
    let shrunk = HerdrWindow::new("t", "y", 0, leaf("a", rect(0, 0, 200, 50)), None, false, Some("gone".into()));
    let (state2, result) = apply_window(&shrunk, Some(&state));
    assert_eq!(result.closed_pane_ids, vec!["b"]);
    assert!(result.title_changed);
    assert_eq!(result.focus_pane_id.as_deref(), Some("a"));
    assert_eq!(state2.surface_id_by_pane_id, vec![("a".to_string(), "sa".to_string())]);
    let plan = plan_impose(&result.rendered_layout, Some(&state.layout), None, "y", None);
    let actions = host_actions(&result, &plan);
    assert_eq!(ops(&actions), vec!["close_panel", "remove_leaf"]);
    assert_eq!(actions[1].pane_id.as_deref(), Some("b"));
}
