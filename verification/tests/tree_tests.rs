//! Tests for the tree snapshot model: building, merging and rejecting
//! updates, lookup and hit testing.

use accesskit_adapter::geometry::Rect;
use accesskit_adapter::node::{node_eq, Action, Node, Role};
use accesskit_adapter::tree::{Tree, TreeUpdate, TreeUpdateError};

fn node(id: u64, role: Role) -> Node {
    Node::new(id, role)
}

fn two_node_update() -> TreeUpdate {
    let mut root = node(1, Role::Window);
    root.children = vec![2];
    let mut label = node(2, Role::Label);
    label.text = b"hello".to_vec();
    TreeUpdate { nodes: vec![root, label], root: Some(1), focus: None }
}

#[test]
fn from_update_builds_tree() {
    let tree = Tree::from_update(&two_node_update()).unwrap();
    assert_eq!(tree.root_id(), 1);
    assert_eq!(tree.focus_id(), None);
    assert_eq!(tree.node_count(), 2);
    let label = tree.get_node(2).unwrap();
    assert_eq!(label.text, b"hello".to_vec());
    assert!(tree.get_node(3).is_none());
}

#[test]
fn from_update_without_root_is_rejected() {
    let mut u = two_node_update();
    u.root = None;
    assert_eq!(Tree::from_update(&u).unwrap_err(), TreeUpdateError::MissingRoot);
}

#[test]
fn dangling_child_is_rejected() {
    let mut u = two_node_update();
    u.nodes[0].children = vec![2, 99];
    assert_eq!(Tree::from_update(&u).unwrap_err(), TreeUpdateError::DanglingReference);
}

#[test]
fn dangling_focus_is_rejected() {
    let mut u = two_node_update();
    u.focus = Some(99);
    assert_eq!(Tree::from_update(&u).unwrap_err(), TreeUpdateError::DanglingReference);
}

#[test]
fn dangling_root_is_rejected() {
    let mut u = two_node_update();
    u.root = Some(42);
    assert_eq!(Tree::from_update(&u).unwrap_err(), TreeUpdateError::DanglingReference);
}

#[test]
fn apply_replaces_node_by_id() {
    let tree = Tree::from_update(&two_node_update()).unwrap();
    let mut label = node(2, Role::Label);
    label.text = b"bye".to_vec();
    let u = TreeUpdate { nodes: vec![label], root: None, focus: None };
    let merged = tree.apply(&u).unwrap();
    assert_eq!(merged.node_count(), 2);
    assert_eq!(merged.root_id(), 1);
    assert_eq!(merged.get_node(2).unwrap().text, b"bye".to_vec());
    // The prior snapshot is untouched.
    assert_eq!(tree.get_node(2).unwrap().text, b"hello".to_vec());
}

#[test]
fn apply_inserts_new_node() {
    let tree = Tree::from_update(&two_node_update()).unwrap();
    let mut root = node(1, Role::Window);
    root.children = vec![2, 3];
    let extra = node(3, Role::Button);
    let u = TreeUpdate { nodes: vec![root, extra], root: None, focus: Some(3) };
    let merged = tree.apply(&u).unwrap();
    assert_eq!(merged.node_count(), 3);
    assert_eq!(merged.focus_id(), Some(3));
    assert_eq!(merged.get_node(3).unwrap().role, Role::Button);
}

#[test]
fn apply_rejects_partial_merge() {
    let tree = Tree::from_update(&two_node_update()).unwrap();
    let mut root = node(1, Role::Window);
    root.children = vec![2, 7];
    let u = TreeUpdate { nodes: vec![root], root: None, focus: None };
    assert_eq!(tree.apply(&u).unwrap_err(), TreeUpdateError::DanglingReference);
    // The rejected update left no partial state behind.
    assert_eq!(tree.node_count(), 2);
    assert_eq!(tree.get_node(1).unwrap().children, vec![2]);
}

#[test]
fn node_at_point_finds_first_hit() {
    let mut u = two_node_update();
    u.nodes[0].bounds = Some(Rect { x0: 0, y0: 0, x1: 100, y1: 100 });
    u.nodes[1].bounds = Some(Rect { x0: 10, y0: 10, x1: 20, y1: 20 });
    let tree = Tree::from_update(&u).unwrap();
    assert_eq!(tree.node_at_point(15, 15), Some(1));
    assert_eq!(tree.node_at_point(50, 50), Some(1));
    assert_eq!(tree.node_at_point(200, 200), None);
}

#[test]
fn rect_contains_is_half_open() {
    let r = Rect { x0: 0, y0: 0, x1: 10, y1: 10 };
    assert!(r.contains(0, 0));
    assert!(r.contains(9, 9));
    assert!(!r.contains(10, 0));
    assert!(!r.contains(0, 10));
    assert!(!r.contains(-1, 5));
}

#[test]
fn node_eq_compares_every_field() {
    let mut a = node(5, Role::Button);
    a.actions = 1;
    a.text = b"ok".to_vec();
    let mut b = node(5, Role::Button);
    b.actions = 1;
    b.text = b"ok".to_vec();
    assert!(node_eq(&a, &b));
    b.text = b"no".to_vec();
    assert!(!node_eq(&a, &b));
    b.text = b"ok".to_vec();
    b.children = vec![1];
    assert!(!node_eq(&a, &b));
}

#[test]
fn supports_action_reads_the_bit() {
    let mut n = node(1, Role::Button);
    n.actions = accesskit_adapter::node::action_bit(Action::Click)
        | accesskit_adapter::node::action_bit(Action::Focus);
    assert!(n.supports_action(Action::Click));
    assert!(n.supports_action(Action::Focus));
    assert!(!n.supports_action(Action::Increment));
}

#[test]
fn later_update_node_wins_on_duplicate_id() {
    let mut first = node(2, Role::Label);
    first.text = b"first".to_vec();
    let mut second = node(2, Role::Label);
    second.text = b"second".to_vec();
    let root = {
        let mut r = node(1, Role::Window);
        r.children = vec![2];
        r
    };
    let u = TreeUpdate { nodes: vec![root, first, second], root: Some(1), focus: None };
    let tree = Tree::from_update(&u).unwrap();
    assert_eq!(tree.node_count(), 2);
    assert_eq!(tree.get_node(2).unwrap().text, b"second".to_vec());
}
