use cmux_herdr::impose::{begin_divider_drag, resolve_divider_hold, same_shape_and_pane_ids};
use cmux_herdr::json::Json;
use cmux_herdr::layout::{
    layouts_by_tab_id, pane_is_zoomed, pane_rects_from_dicts, parse_layout, rect_from_mapping, split_specs,
    rects_in_range, tree_from_rects, tree_in_range, LayoutNode, LayoutRect, Ratio,
};
use serde_json::Value;

fn conv(v: &Value) -> Json {
    match v {
        Value::Null => Json::Null,
        Value::Bool(b) => Json::Bool(*b),
        Value::Number(n) => {
            let whole = n.as_i64().or_else(|| {
                n.as_f64()
                    .filter(|f| f.fract() == 0.0 && *f >= -9223372036854775808.0 && *f < 9223372036854775808.0)
                    .map(|f| f as i64)
            });
            let trunc = n.as_i64().unwrap_or_else(|| n.as_f64().unwrap_or(0.0) as i64);
            Json::Number { text: n.to_string(), whole, trunc }
        }
        Value::String(s) => Json::Str(s.clone()),
        Value::Array(items) => Json::Array { items: items.iter().map(conv).collect(), text: v.to_string() },
        Value::Object(map) => Json::Object {
            entries: map.iter().map(|(k, x)| (k.clone(), conv(x))).collect(),
            text: v.to_string(),
        },
    }
}

fn numbers(v: &Value, out: &mut Vec<(String, i64)>) {
    match v {
        Value::String(s) => {
            if let Ok(f) = s.trim().parse::<f64>() {
                out.push((s.trim().to_string(), f as i64));
            }
        }
        Value::Array(items) => items.iter().for_each(|x| numbers(x, out)),
        Value::Object(map) => map.values().for_each(|x| numbers(x, out)),
        _ => {}
    }
}

fn parse(text: &str) -> Option<LayoutNode> {
    let v: Value = serde_json::from_str(text).unwrap();
    let mut nums = Vec::new();
    numbers(&v, &mut nums);
    parse_layout(&conv(&v), &nums)
}

fn rect(x: i64, y: i64, width: i64, height: i64) -> LayoutRect {
    LayoutRect { x, y, width, height }
}

#[test]
fn bsp_from_rects() {
    let items = vec![
        ("a".to_string(), LayoutRect { x: 0, y: 0, width: 50, height: 40 }),
        ("b".to_string(), LayoutRect { x: 50, y: 0, width: 50, height: 40 }),
    ];
    let node = tree_from_rects(&items).unwrap();
    assert_eq!(node.kind, "horizontal");
    assert_eq!(node.pane_ids_in_order(), vec!["a", "b"]);
}

#[test]
fn bsp_stacked_panes_split_vertically() {
    let items = vec![
        ("bottom".to_string(), rect(0, 21, 80, 20)),
        ("top".to_string(), rect(0, 0, 80, 20)),
    ];
    let node = tree_from_rects(&items).unwrap();
    assert_eq!(node.kind, "vertical");
    assert_eq!(node.pane_ids_in_order(), vec!["top", "bottom"]);
    assert_eq!(node.rect, rect(0, 0, 80, 41));
}

#[test]
fn bsp_overlapping_panes_stack_by_id() {
    let items = vec![
        ("z".to_string(), rect(0, 0, 50, 50)),
        ("m".to_string(), rect(10, 10, 50, 50)),
        ("a".to_string(), rect(5, 5, 50, 50)),
    ];
    let node = tree_from_rects(&items).unwrap();
    assert_eq!(node.kind, "vertical");
    assert_eq!(node.children.len(), 3);
    assert_eq!(node.pane_ids_in_order(), vec!["a", "m", "z"]);
}

#[test]
fn bsp_ignores_unnamed_and_empty_input() {
    assert!(tree_from_rects(&vec![("".to_string(), rect(0, 0, 1, 1))]).is_none());
    let node = tree_from_rects(&vec![
        ("".to_string(), rect(0, 0, 1, 1)),
        ("only".to_string(), rect(3, 4, 5, 6)),
    ])
    .unwrap();
    assert!(node.is_leaf());
    assert_eq!(node.pane_id.as_deref(), Some("only"));
    assert_eq!(node.rect, rect(3, 4, 5, 6));
}

#[test]
fn bsp_three_columns_nest_left_to_right() {
    let items = vec![
        ("c".to_string(), rect(60, 0, 29, 10)),
        ("a".to_string(), rect(0, 0, 29, 10)),
        ("b".to_string(), rect(30, 0, 29, 10)),
    ];
    let node = tree_from_rects(&items).unwrap();
    assert_eq!(node.structure_signature(), "h:p:a,h:p:b,p:c");
}

#[test]
fn structure_signature_of_a_split() {
    let node = LayoutNode {
        kind: "horizontal".into(),
        pane_id: None,
        children: vec![
            LayoutNode { kind: "pane".into(), pane_id: Some("a".into()), children: vec![], rect: rect(0, 0, 1, 1) },
            LayoutNode { kind: "pane".into(), pane_id: Some("b".into()), children: vec![], rect: rect(1, 0, 1, 1) },
        ],
        rect: rect(0, 0, 2, 1),
    };
    assert_eq!(node.structure_signature(), "h:p:a,p:b");
}

#[test]
fn divider_hold_clears_only_after_target_or_disappearance() {
    let hold = begin_divider_drag("split", "horizontal", 40);
    assert_eq!(resolve_divider_hold(Some(hold.clone()), Some(50), true), Some(hold.clone()));
    assert_eq!(resolve_divider_hold(Some(hold.clone()), Some(40), true), None);
    assert_eq!(resolve_divider_hold(Some(hold), Some(50), false), None);
}

#[test]
fn divider_hold_target_is_at_least_one_cell() {
    assert_eq!(begin_divider_drag("s", "vertical", 0).target_cells, 1);
    assert_eq!(begin_divider_drag("s", "vertical", -5).target_cells, 1);
    let hold = begin_divider_drag("s", "vertical", 7);
    assert_eq!(resolve_divider_hold(Some(hold), None, true), None);
    assert_eq!(resolve_divider_hold(None, Some(7), true), None);
}

#[test]
fn same_shape_ignores_geometry_only() {
    let a = tree_from_rects(&vec![
        ("a".to_string(), rect(0, 0, 50, 40)),
        ("b".to_string(), rect(50, 0, 50, 40)),
    ])
    .unwrap();
    let b = tree_from_rects(&vec![
        ("a".to_string(), rect(0, 0, 70, 40)),
        ("b".to_string(), rect(70, 0, 30, 40)),
    ])
    .unwrap();
    let c = tree_from_rects(&vec![
        ("a".to_string(), rect(0, 0, 50, 40)),
        ("c".to_string(), rect(50, 0, 50, 40)),
    ])
    .unwrap();
    assert!(same_shape_and_pane_ids(&a, &b));
    assert!(!same_shape_and_pane_ids(&a, &c));
}

fn leaf(id: &str, r: LayoutRect) -> LayoutNode {
    LayoutNode::leaf(Some(id.to_string()), r)
}

fn split(kind: &str, children: Vec<LayoutNode>, r: LayoutRect) -> LayoutNode {
    LayoutNode { kind: kind.to_string(), pane_id: None, children, rect: r }
}

#[test]
fn split_specs_sequential() {
    let node = parse(
        r#"{"horizontal": [
            {"pane_id": "a", "width": 50, "height": 40, "x": 0, "y": 0},
            {"pane_id": "b", "width": 50, "height": 40, "x": 50, "y": 0}
        ]}"#,
    )
    .unwrap();
    assert!(tree_in_range(&node));
    let specs = split_specs(&node);
    assert_eq!(specs.len(), 1);
    assert_eq!(specs[0].pane_id, "b");
    assert_eq!(specs[0].split_from_pane_id, "a");
    assert_eq!(specs[0].direction, "right");
}

#[test]
fn split_specs_of_a_built_tree_carry_ratios() {
    let node = split(
        "horizontal",
        vec![leaf("a", rect(0, 0, 50, 40)), leaf("b", rect(50, 0, 50, 40))],
        rect(0, 0, 100, 40),
    );
    assert!(tree_in_range(&node));
    let specs = split_specs(&node);
    assert_eq!(specs.len(), 1);
    assert_eq!(specs[0].ratio, Some(Ratio { num: 50, den: 100 }));
}

#[test]
fn parse_tmux_named_split() {
    let node = parse(
        r#"{"width": 100, "height": 40, "horizontal": [
            {"pane_id": "a", "width": 60, "height": 40, "x": 0, "y": 0},
            {"pane_id": "b", "width": 40, "height": 40, "x": 60, "y": 0}
        ]}"#,
    )
    .unwrap();
    assert_eq!(node.kind, "horizontal");
    assert_eq!(node.pane_ids_in_order(), vec!["a", "b"]);
    let r = node.first_child_ratio().unwrap();
    assert!((r.num as f64 / r.den as f64 - 0.6).abs() < 1e-9);
}

#[test]
fn parse_binary_split_first_second() {
    let node = parse(
        r#"{"type": "split", "direction": "vertical", "first": {"pane_id": "top"}, "second": {"pane_id": "bot"}}"#,
    )
    .unwrap();
    assert_eq!(node.kind, "vertical");
    assert_eq!(node.pane_ids_in_order(), vec!["top", "bot"]);
}

#[test]
fn parse_reads_wrappers_strings_and_arrays() {
    let node = parse(r#"{"layout": {"kind": "Pane", "pane_id": " p7 ", "geometry": {"cols": "80.9", "rows": 24}}}"#).unwrap();
    assert_eq!(node.kind, "pane");
    assert_eq!(node.pane_id.as_deref(), Some("p7"));
    assert_eq!(node.rect, rect(0, 0, 80, 24));
    let list = parse(r#"[{"pane_id": "a", "w": 10, "h": 5}, {"id": "split"}, {"pane": 3, "x": 10, "w": 10, "h": 5}]"#).unwrap();
    assert_eq!(list.kind, "vertical");
    assert_eq!(list.pane_ids_in_order(), vec!["a", "3"]);
    assert_eq!(list.rect, rect(0, 0, 20, 5));
    assert!(parse("[]").is_none());
    assert!(parse("7").is_none());
    let big = parse(r#"{"pane_id": "u", "width": 18446744073709551615, "height": 2}"#).unwrap();
    assert_eq!(big.rect, rect(0, 0, 1, 2));
    assert!(parse(r#"{"children": [{"pane_id": "x"}], "direction": "down"}"#).unwrap().kind == "pane");
}

#[test]
fn layouts_grouped_by_tab() {
    let v: Value = serde_json::from_str(
        r#"{"result": {"tabs": [
            {"tab_id": "t1", "layout": {"pane_id": "a"}},
            {"tab_id": "t2", "layout": {"horizontal": [{"pane_id": "b"}, {"pane_id": "c"}]}}
        ]}}"#,
    )
    .unwrap();
    let mut got: Vec<(String, Vec<String>)> =
        layouts_by_tab_id(&conv(&v), &Vec::new()).into_iter().map(|(k, n)| (k, n.pane_ids_in_order())).collect();
    got.sort();
    assert_eq!(
        got,
        vec![("t1".to_string(), vec!["a".to_string()]), ("t2".to_string(), vec!["b".to_string(), "c".to_string()])]
    );
    let by_key: Value = serde_json::from_str(r#"{"t9": {"pane_id": "z"}, "type": {"pane_id": "skip"}}"#).unwrap();
    let got = layouts_by_tab_id(&conv(&by_key), &Vec::new());
    assert_eq!(got.len(), 1);
    assert_eq!(got[0].0, "t9");
}

#[test]
fn rects_and_zoom_from_pane_objects() {
    let v: Value = serde_json::from_str(
        r#"[{"pane_id": "a", "rect": {"x": 1, "y": 2, "width": 0, "height": 3}}, {"pane_id": "", "w": 9}, {"pane_id": "b"}]"#,
    )
    .unwrap();
    let items = match conv(&v) {
        Json::Array { items, .. } => items,
        _ => unreachable!(),
    };
    assert_eq!(pane_rects_from_dicts(&items, &Vec::new()), vec![("a".to_string(), rect(1, 2, 1, 3))]);
    assert_eq!(rect_from_mapping(&items[2], &Vec::new()), None);
    let z: Value = serde_json::from_str(r#"{"flags": "*Z"}"#).unwrap();
    assert!(pane_is_zoomed(&conv(&z)));
    let n: Value = serde_json::from_str(r#"{"zoomed": 0}"#).unwrap();
    assert!(!pane_is_zoomed(&conv(&n)));
}

#[test]
fn split_specs_chain_remaining_shares_and_clamp() {
    let node = split(
        "vertical",
        vec![
            leaf("a", rect(0, 0, 80, 1)),
            split("horizontal", vec![leaf("b", rect(0, 2, 40, 20)), leaf("c", rect(41, 2, 39, 20))], rect(0, 2, 80, 20)),
            leaf("d", rect(0, 23, 80, 10)),
        ],
        rect(0, 0, 80, 40),
    );
    let specs = split_specs(&node);
    let got: Vec<(&str, &str, &str)> =
        specs.iter().map(|s| (s.pane_id.as_str(), s.split_from_pane_id.as_str(), s.direction.as_str())).collect();
    assert_eq!(got, vec![("b", "a", "down"), ("c", "b", "right"), ("d", "b", "down")]);
    assert_eq!(specs[0].ratio, Some(Ratio { num: 1, den: 20 }));
    assert_eq!(specs[1].ratio, Some(Ratio { num: 40, den: 80 }));
    assert_eq!(specs[2].ratio, Some(Ratio { num: 20, den: 31 }));
}

#[test]
fn structure_signature_stable() {
    let node = parse(r#"{"horizontal": [{"pane_id": "a"}, {"pane_id": "b"}]}"#).unwrap();
    assert_eq!(node.structure_signature(), "h:p:a,p:b");
}

#[test]
fn structure_signature_of_a_built_tree() {
    let node = split("horizontal", vec![leaf("a", rect(0, 0, 1, 1)), leaf("b", rect(1, 0, 1, 1))], rect(0, 0, 2, 1));
    assert_eq!(node.structure_signature(), "h:p:a,p:b");
    assert!(!tree_in_range(&leaf("x", rect(i64::MAX, 0, 1, 1))));
}

#[test]
fn rectangle_range_reaches_two_to_the_sixty_two() {
    let edge: i64 = 1 << 62;
    let near = vec![("a".to_string(), rect(edge - 2, 0, 2, 1)), ("b".to_string(), rect(-edge + 1, 0, 1, 1))];
    assert!(rects_in_range(&near));
    let tree = tree_from_rects(&near).unwrap();
    assert_eq!(tree.rect.width, (edge - 2 + 2) - (-edge + 1));
    let past = vec![("a".to_string(), rect(edge, 0, 1, 1))];
    assert!(!rects_in_range(&past));
    let left = vec![("a".to_string(), rect(-edge, 0, 1, 1))];
    assert!(!rects_in_range(&left));
}
