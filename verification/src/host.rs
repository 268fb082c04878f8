//! Ordered host verbs for one reconcile and impose pass.
//!
//! Panel lifecycle follows the base layout, tree edits and dividers follow
//! the shown layout. The order is load-bearing: create, close, tree,
//! dividers, focus.
use vstd::prelude::*;

use crate::engine::ReconcileResult;
use crate::impose::{action_view, divider_view, DividerNode, DividerShape, ImposePlan};
use crate::layout::{ratio_view, Ratio};
use crate::text::{concat2, opt_str_view, opt_view, owned, str_eq, strings_view};

verus! {

/// One host verb. Its position in an action list is load-bearing.
#[derive(Debug)]
pub struct HostAction {
    pub op: String,
    pub pane_id: Option<String>,
    pub split_from_pane_id: Option<String>,
    pub orientation: Option<String>,
    pub fraction: Option<Ratio>,
    pub insert_first: bool,
    pub surface_id: Option<String>,
    pub skip_split_key: Option<String>,
    pub split_key: Option<String>,
}

/// A host verb as plain values.
pub struct HostShape {
    pub op: Seq<char>,
    pub pane_id: Option<Seq<char>>,
    pub split_from_pane_id: Option<Seq<char>>,
    pub orientation: Option<Seq<char>>,
    pub fraction: Option<(int, int)>,
    pub insert_first: bool,
    pub surface_id: Option<Seq<char>>,
    pub skip_split_key: Option<Seq<char>>,
    pub split_key: Option<Seq<char>>,
}

pub open spec fn host_view(a: HostAction) -> HostShape {
    HostShape {
        op: a.op@,
        pane_id: opt_view(a.pane_id),
        split_from_pane_id: opt_view(a.split_from_pane_id),
        orientation: opt_view(a.orientation),
        fraction: match a.fraction {
            Some(f) => Some(ratio_view(f)),
            None => None,
        },
        insert_first: a.insert_first,
        surface_id: opt_view(a.surface_id),
        skip_split_key: opt_view(a.skip_split_key),
        split_key: opt_view(a.split_key),
    }
}

pub open spec fn hosts_view(v: Seq<HostAction>) -> Seq<HostShape> {
    v.map_values(|a: HostAction| host_view(a))
}

/// A bare verb.
pub open spec fn verb(op: Seq<char>) -> HostShape {
    HostShape {
        op,
        pane_id: None,
        split_from_pane_id: None,
        orientation: None,
        fraction: None,
        insert_first: false,
        surface_id: None,
        skip_split_key: None,
        split_key: None,
    }
}

/// A verb on one pane.
pub open spec fn verb_on(op: Seq<char>, pane_id: Option<Seq<char>>) -> HostShape {
    HostShape {
        op,
        pane_id,
        split_from_pane_id: None,
        orientation: None,
        fraction: None,
        insert_first: false,
        surface_id: None,
        skip_split_key: None,
        split_key: None,
    }
}

impl HostAction {
    /// A bare verb.
    pub fn new(op: &str) -> (r: HostAction)
        ensures
            host_view(r) == verb(op@),
    {
        HostAction {
            op: owned(op),
            pane_id: None,
            split_from_pane_id: None,
            orientation: None,
            fraction: None,
            insert_first: false,
            surface_id: None,
            skip_split_key: None,
            split_key: None,
        }
    }

    /// This verb aimed at `pane_id`.
    pub fn with_pane_id(self, pane_id: &str) -> (r: HostAction)
        ensures
            host_view(r) == (HostShape { pane_id: Some(pane_id@), ..host_view(self) }),
    {
        let mut a = self;
        a.pane_id = Some(owned(pane_id));
        a
    }

    /// This verb carrying `surface_id`.
    pub fn with_surface_id(self, surface_id: &str) -> (r: HostAction)
        ensures
            host_view(r) == (HostShape { surface_id: Some(surface_id@), ..host_view(self) }),
    {
        let mut a = self;
        a.surface_id = Some(owned(surface_id));
        a
    }
}

/// Divider verbs of a divider tree, depth first, keyed `<key>`, `<key>.0`,
/// `<key>.1`, ...; the held split is left out (its sides are still walked).
pub open spec fn impose_walk(d: DividerShape, key: Seq<char>, held: Option<Seq<char>>) -> Seq<HostShape>
    decreases d,
{
    match d {
        DividerShape::Leaf(_) => Seq::empty(),
        DividerShape::Split(o, f, a, b) => (if held == Some(key) {
            Seq::empty()
        } else {
            seq![
                HostShape {
                    op: "impose_divider"@,
                    pane_id: None,
                    split_from_pane_id: None,
                    orientation: Some(o),
                    fraction: Some(f),
                    insert_first: false,
                    surface_id: None,
                    skip_split_key: None,
                    split_key: Some(key),
                },
            ]
        }) + impose_walk(*a, key + ".0"@, held) + impose_walk(*b, key + ".1"@, held),
    }
}

fn walk_dividers(node: &DividerNode, key: String, held: Option<&str>, actions: &mut Vec<HostAction>)
    ensures
        hosts_view(final(actions)@) == hosts_view(old(actions)@) + impose_walk(
            divider_view(*node),
            key@,
            opt_str_view(held),
        ),
    decreases node,
{
    match node {
        DividerNode::Leaf(_) => {
            assert(hosts_view(actions@) =~= hosts_view(actions@) + Seq::<HostShape>::empty());
        },
        DividerNode::Split(split) => {
            let ghost start = actions@;
            let skip = match held {
                Some(h) => str_eq(h, key.as_str()),
                None => false,
            };
            if !skip {
                let mut a = HostAction::new("impose_divider");
                a.orientation = Some(split.orientation.clone());
                a.fraction = Some(split.fraction);
                a.split_key = Some(key.clone());
                actions.push(a);
            }
            let ghost mid = actions@;
            assert(hosts_view(mid) =~= hosts_view(start) + if opt_str_view(held) == Some(key@) {
                Seq::<HostShape>::empty()
            } else {
                seq![
                    HostShape {
                        op: "impose_divider"@,
                        pane_id: None,
                        split_from_pane_id: None,
                        orientation: Some(split.orientation@),
                        fraction: Some(ratio_view(split.fraction)),
                        insert_first: false,
                        surface_id: None,
                        skip_split_key: None,
                        split_key: Some(key@),
                    },
                ]
            });
            walk_dividers(&split.first, concat2(key.as_str(), ".0"), held, actions);
            walk_dividers(&split.second, concat2(key.as_str(), ".1"), held, actions);
            proof {
                let l = impose_walk(divider_view(*split.first), key@ + ".0"@, opt_str_view(held));
                let r = impose_walk(divider_view(*split.second), key@ + ".1"@, opt_str_view(held));
                assert(hosts_view(actions@) =~= hosts_view(mid) + l + r);
            }
        },
    }
}

/// Divider verbs of a divider tree keyed from `key_prefix` (see
/// [`impose_walk`]).
pub fn divider_impose_actions(node: &DividerNode, held_split_key: Option<&str>, key_prefix: &str) -> (r: Vec<
    HostAction,
>)
    ensures
        hosts_view(r@) == impose_walk(divider_view(*node), key_prefix@, opt_str_view(held_split_key)),
{
    let mut actions: Vec<HostAction> = Vec::new();
    walk_dividers(node, owned(key_prefix), held_split_key, &mut actions);
    assert(hosts_view(actions@) =~= hosts_view(Seq::<HostAction>::empty()) + impose_walk(
        divider_view(*node),
        key_prefix@,
        opt_str_view(held_split_key),
    ));
    actions
}

/// The tree verb of a tree edit; an expansion without its details, or an
/// unknown kind, rebuilds.
pub open spec fn tree_verb(
    a: (Seq<char>, Option<(Seq<char>, Seq<char>, Seq<char>, bool, (int, int))>, Option<Seq<char>>),
) -> HostShape {
    if a.0 == "keep"@ {
        verb("keep_tree"@)
    } else if a.0 == "expand_leaf"@ {
        match a.1 {
            Some(e) => HostShape {
                op: "expand_leaf"@,
                pane_id: Some(e.1),
                split_from_pane_id: Some(e.0),
                orientation: Some(e.2),
                fraction: Some(e.4),
                insert_first: e.3,
                surface_id: None,
                skip_split_key: None,
                split_key: None,
            },
            None => verb("rebuild_tree"@),
        }
    } else if a.0 == "remove_leaf"@ {
        verb_on("remove_leaf"@, a.2)
    } else {
        verb("rebuild_tree"@)
    }
}

/// All verbs of one pass: create each created panel, close each closed
/// panel, the tree verb, the divider verbs keyed from `s`, and focus.
pub open spec fn host_plan(
    created: Seq<Seq<char>>,
    closed: Seq<Seq<char>>,
    tree: (Seq<char>, Option<(Seq<char>, Seq<char>, Seq<char>, bool, (int, int))>, Option<Seq<char>>),
    dividers: DividerShape,
    held: Option<Seq<char>>,
    focus: Option<Seq<char>>,
) -> Seq<HostShape> {
    created.map_values(|p: Seq<char>| verb_on("create_panel"@, Some(p))) + closed.map_values(
        |p: Seq<char>| verb_on("close_panel"@, Some(p)),
    ) + seq![tree_verb(tree)] + impose_walk(dividers, "s"@, held) + match focus {
        Some(p) => seq![verb_on("focus"@, Some(p))],
        None => Seq::empty(),
    }
}

fn push_panel_verbs(actions: &mut Vec<HostAction>, op: &str, ids: &Vec<String>)
    ensures
        hosts_view(final(actions)@) == hosts_view(old(actions)@) + strings_view(ids@).map_values(
            |p: Seq<char>| verb_on(op@, Some(p)),
        ),
{
    let ghost start = actions@;
    let mut i: usize = 0;
    while i < ids.len()
        invariant
            i <= ids.len(),
            hosts_view(actions@) == hosts_view(start) + strings_view(ids@.subrange(0, i as int)).map_values(
                |p: Seq<char>| verb_on(op@, Some(p)),
            ),
        decreases ids.len() - i,
    {
        let ghost pre = actions@;
        actions.push(HostAction::new(op).with_pane_id(ids[i].as_str()));
        assert(hosts_view(actions@) =~= hosts_view(pre).push(verb_on(op@, Some(ids@[i as int]@))));
        assert(strings_view(ids@.subrange(0, i + 1)).map_values(|p: Seq<char>| verb_on(op@, Some(p))) =~= strings_view(
            ids@.subrange(0, i as int),
        ).map_values(|p: Seq<char>| verb_on(op@, Some(p))).push(verb_on(op@, Some(ids@[i as int]@))));
        i += 1;
    }
    assert(ids@.subrange(0, i as int) =~= ids@);
}

/// The ordered host verbs of one reconcile and impose pass (see
/// [`host_plan`]).
pub fn host_actions(result: &ReconcileResult, plan: &ImposePlan) -> (r: Vec<HostAction>)
    ensures
        hosts_view(r@) == host_plan(
            strings_view(result.created_pane_ids@),
            strings_view(result.closed_pane_ids@),
            action_view(plan.tree_action),
            divider_view(plan.divider_tree),
            opt_view(plan.held_split_key),
            opt_view(plan.focus_pane_id),
        ),
{
    let mut actions: Vec<HostAction> = Vec::new();
    push_panel_verbs(&mut actions, "create_panel", &result.created_pane_ids);
    push_panel_verbs(&mut actions, "close_panel", &result.closed_pane_ids);
    let ghost after_panels = actions@;
    let kind = plan.tree_action.kind.as_str();
    let tree = if str_eq(kind, "keep") {
        HostAction::new("keep_tree")
    } else if str_eq(kind, "expand_leaf") {
        match &plan.tree_action.expansion {
            Some(e) => {
                let mut a = HostAction::new("expand_leaf").with_pane_id(e.new_pane_id.as_str());
                a.split_from_pane_id = Some(e.existing_pane_id.clone());
                a.orientation = Some(e.orientation.clone());
                a.fraction = Some(e.fraction);
                a.insert_first = e.insert_first;
                a
            },
            None => HostAction::new("rebuild_tree"),
        }
    } else if str_eq(kind, "remove_leaf") {
        let mut a = HostAction::new("remove_leaf");
        a.pane_id = crate::text::clone_opt(&plan.tree_action.removed_pane_id);
        a
    } else {
        HostAction::new("rebuild_tree")
    };
    assert(host_view(tree) == tree_verb(action_view(plan.tree_action)));
    actions.push(tree);
    let ghost after_tree = actions@;
    let held: Option<&str> = match &plan.held_split_key {
        Some(h) => Some(h.as_str()),
        None => None,
    };
    walk_dividers(&plan.divider_tree, owned("s"), held, &mut actions);
    let ghost after_dividers = actions@;
    match &plan.focus_pane_id {
        Some(p) => {
            actions.push(HostAction::new("focus").with_pane_id(p.as_str()));
        },
        None => {},
    }
    proof {
        let c = strings_view(result.created_pane_ids@).map_values(|p: Seq<char>| verb_on("create_panel"@, Some(p)));
        let d = strings_view(result.closed_pane_ids@).map_values(|p: Seq<char>| verb_on("close_panel"@, Some(p)));
        assert(hosts_view(after_tree) =~= c + d + seq![tree_verb(action_view(plan.tree_action))]);
        assert(hosts_view(actions@) =~= host_plan(
            strings_view(result.created_pane_ids@),
            strings_view(result.closed_pane_ids@),
            action_view(plan.tree_action),
            divider_view(plan.divider_tree),
            opt_view(plan.held_split_key),
            opt_view(plan.focus_pane_id),
        ));
    }
    actions
}

/// Position of a verb in the pass order: create, close, tree, dividers,
/// focus.
pub open spec fn verb_rank(op: Seq<char>) -> int {
    if op == "create_panel"@ {
        0
    } else if op == "close_panel"@ {
        1
    } else if op == "impose_divider"@ {
        3
    } else if op == "focus"@ {
        4
    } else {
        2
    }
}

proof fn lemma_walk_ops(d: DividerShape, key: Seq<char>, held: Option<Seq<char>>)
    ensures
        forall|i: int| 0 <= i < impose_walk(d, key, held).len() ==> (#[trigger] impose_walk(d, key, held)[i]).op
            == "impose_divider"@,
    decreases d,
{
    match d {
        DividerShape::Leaf(_) => {},
        DividerShape::Split(o, f, a, b) => {
            lemma_walk_ops(*a, key + ".0"@, held);
            lemma_walk_ops(*b, key + ".1"@, held);
            let head: Seq<HostShape> = if held == Some(key) {
                Seq::empty()
            } else {
                seq![
                    HostShape {
                        op: "impose_divider"@,
                        pane_id: None,
                        split_from_pane_id: None,
                        orientation: Some(o),
                        fraction: Some(f),
                        insert_first: false,
                        surface_id: None,
                        skip_split_key: None,
                        split_key: Some(key),
                    },
                ]
            };
            let l = impose_walk(*a, key + ".0"@, held);
            let r = impose_walk(*b, key + ".1"@, held);
            assert forall|i: int| 0 <= i < impose_walk(d, key, held).len() implies (#[trigger] impose_walk(
                d,
                key,
                held,
            )[i]).op == "impose_divider"@ by {
                assert(impose_walk(d, key, held) == head + l + r);
                if i < head.len() {
                } else if i < head.len() + l.len() {
                    assert((head + l + r)[i] == l[i - head.len()]);
                } else {
                    assert((head + l + r)[i] == r[i - head.len() - l.len()]);
                }
            }
        },
    }
}

/// A pass never goes back in the order create, close, tree, dividers,
/// focus: every verb's rank is at most the rank of every verb after it.
pub proof fn law_host_verbs_ordered(
    created: Seq<Seq<char>>,
    closed: Seq<Seq<char>>,
    tree: (Seq<char>, Option<(Seq<char>, Seq<char>, Seq<char>, bool, (int, int))>, Option<Seq<char>>),
    dividers: DividerShape,
    held: Option<Seq<char>>,
    focus: Option<Seq<char>>,
)
    ensures
        forall|i: int, j: int|
            0 <= i < j < host_plan(created, closed, tree, dividers, held, focus).len() ==> verb_rank(
                #[trigger] host_plan(created, closed, tree, dividers, held, focus)[i].op,
            ) <= verb_rank(#[trigger] host_plan(created, closed, tree, dividers, held, focus)[j].op),
{
    let c = created.map_values(|p: Seq<char>| verb_on("create_panel"@, Some(p)));
    let d = closed.map_values(|p: Seq<char>| verb_on("close_panel"@, Some(p)));
    let t = seq![tree_verb(tree)];
    let w = impose_walk(dividers, "s"@, held);
    let f: Seq<HostShape> = match focus {
        Some(p) => seq![verb_on("focus"@, Some(p))],
        None => Seq::empty(),
    };
    let all = host_plan(created, closed, tree, dividers, held, focus);
    assert(all == c + d + t + w + f);
    lemma_walk_ops(dividers, "s"@, held);
    reveal_strlit("create_panel");
    reveal_strlit("close_panel");
    reveal_strlit("impose_divider");
    reveal_strlit("focus");
    reveal_strlit("keep_tree");
    reveal_strlit("expand_leaf");
    reveal_strlit("remove_leaf");
    reveal_strlit("rebuild_tree");
    let tv = tree_verb(tree);
    assert(verb_rank(tv.op) == 2) by {
        assert(tv.op == "keep_tree"@ || tv.op == "expand_leaf"@ || tv.op == "remove_leaf"@ || tv.op
            == "rebuild_tree"@);
        assert("keep_tree"@[0] != "create_panel"@[0] && "keep_tree"@[0] != "close_panel"@[0]);
        assert("keep_tree"@[0] != "impose_divider"@[0] && "keep_tree"@[0] != "focus"@[0]);
        assert("expand_leaf"@[0] != "create_panel"@[0] && "expand_leaf"@[0] != "close_panel"@[0]);
        assert("expand_leaf"@[0] != "impose_divider"@[0] && "expand_leaf"@[0] != "focus"@[0]);
        assert("remove_leaf"@[0] != "create_panel"@[0] && "remove_leaf"@[0] != "close_panel"@[0]);
        assert("remove_leaf"@[0] != "impose_divider"@[0] && "remove_leaf"@[0] != "focus"@[0]);
        assert("rebuild_tree"@[0] != "create_panel"@[0] && "rebuild_tree"@[0] != "close_panel"@[0]);
        assert("rebuild_tree"@[0] != "impose_divider"@[0] && "rebuild_tree"@[0] != "focus"@[0]);
    }
    assert("create_panel"@[1] != "close_panel"@[1]);
    assert("impose_divider"@[0] != "create_panel"@[0] && "impose_divider"@[0] != "close_panel"@[0]);
    assert("focus"@[0] != "create_panel"@[0] && "focus"@[0] != "close_panel"@[0] && "focus"@[0]
        != "impose_divider"@[0]);
    let rank_at = |k: int|
        if k < c.len() {
            0int
        } else if k < c.len() + d.len() {
            1int
        } else if k < c.len() + d.len() + 1 {
            2int
        } else if k < c.len() + d.len() + 1 + w.len() {
            3int
        } else {
            4int
        };
    assert forall|k: int| 0 <= k < all.len() implies verb_rank(#[trigger] all[k].op) == rank_at(k) by {
        if k < c.len() {
            assert(all[k] == c[k]);
        } else if k < c.len() + d.len() {
            assert(all[k] == d[k - c.len()]);
        } else if k < c.len() + d.len() + 1 {
            assert(all[k] == tv);
        } else if k < c.len() + d.len() + 1 + w.len() {
            assert(all[k] == w[k - c.len() - d.len() - 1]);
        } else {
            assert(all[k] == f[k - c.len() - d.len() - 1 - w.len()]);
        }
    }
}

/// A host rejected or could not perform an action.
#[derive(Debug, Clone, PartialEq, Eq)]
pub struct HostError(pub String);

} // verus!
