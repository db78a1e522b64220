//! Tests for the adapter protocol: laziness, the focus-only path, one-shot
//! delivery and the native pull queries.

use accesskit_adapter::adapter::{Adapter, ViewHandle};
use accesskit_adapter::diff::{diff, Event};
use accesskit_adapter::tree::Tree;
use accesskit_adapter::handlers::{ActionHandler, ActionRequest, ActivationHandler};
use accesskit_adapter::node::{action_bit, Action, Node, Role};
use accesskit_adapter::tree::TreeUpdate;

fn view() -> ViewHandle {
    ViewHandle { addr: 0x1000 }
}

fn two_node_update() -> TreeUpdate {
    let mut root = Node::new(1, Role::Window);
    root.children = vec![2];
    let mut label = Node::new(2, Role::Label);
    label.text = b"hello".to_vec();
    TreeUpdate { nodes: vec![root, label], root: Some(1), focus: None }
}

struct InitialTree {
    update: Option<TreeUpdate>,
    asked: usize,
}

impl ActivationHandler for InitialTree {
    fn request_initial_tree(&mut self) -> Option<TreeUpdate> {
        self.asked += 1;
        self.update.take()
    }
}

struct RecordingActionHandler {
    requests: Vec<(u64, Action)>,
}

impl ActionHandler for RecordingActionHandler {
    fn do_action(&mut self, request: ActionRequest) {
        self.requests.push((request.target, request.action));
    }
}

#[test]
fn factory_not_invoked_while_inactive() {
    let mut adapter = Adapter::new(view(), false);
    let mut calls = 0;
    let r = adapter.update_if_active(|| {
        calls += 1;
        two_node_update()
    });
    assert!(r.is_none());
    assert_eq!(calls, 0);
    assert!(!adapter.is_active());
    assert!(!adapter.has_tree());
}

#[test]
fn factory_invoked_exactly_once_while_active() {
    let mut adapter = Adapter::new(view(), true);
    let mut calls = 0;
    let r = adapter.update_if_active(|| {
        calls += 1;
        two_node_update()
    });
    assert!(r.is_some());
    assert_eq!(calls, 1);
    assert!(adapter.has_tree());
}

#[test]
fn end_to_end_activation_scenario() {
    let mut adapter = Adapter::new(view(), false);

    // Inactive: nothing happens, the factory is never invoked.
    let mut calls = 0;
    let r = adapter.update_if_active(|| {
        calls += 1;
        two_node_update()
    });
    assert!(r.is_none());
    assert_eq!(calls, 0);

    // The host marks the view focused: a focus-change notification.
    let mut q = adapter.update_view_focus_state(true).unwrap();
    assert_eq!(q.raise_events(), vec![Event::FocusChanged(None)]);
    assert!(!q.is_pending());

    // Active: the factory runs once and the first snapshot is published.
    let mut q = adapter
        .update_if_active(|| {
            calls += 1;
            two_node_update()
        })
        .unwrap();
    assert_eq!(calls, 1);
    assert!(q.is_pending());
    let events = q.raise_events();
    assert_eq!(
        events,
        vec![Event::Added(1), Event::Added(2), Event::RootChanged(1)]
    );
    // Delivery consumed the payload; a second delivery has nothing to take.
    assert!(!q.is_pending());
}

#[test]
fn update_names_exactly_the_changed_node() {
    let mut adapter = Adapter::new(view(), true);
    adapter.update_if_active(two_node_update).unwrap();

    // A second snapshot differing only in one node's text.
    let mut q = adapter
        .update_if_active(|| {
            let mut label = Node::new(2, Role::Label);
            label.text = b"bye".to_vec();
            TreeUpdate { nodes: vec![label], root: None, focus: None }
        })
        .unwrap();
    assert_eq!(q.raise_events(), vec![Event::Updated(2)]);
}

#[test]
fn focus_state_update_with_same_value_yields_nothing() {
    let mut adapter = Adapter::new(view(), true);
    adapter.update_if_active(two_node_update).unwrap();
    assert!(adapter.update_view_focus_state(true).is_none());
}

#[test]
fn focus_state_update_with_changed_value_yields_focus_event_only() {
    let mut adapter = Adapter::new(view(), true);
    adapter
        .update_if_active(|| {
            let mut u = two_node_update();
            u.focus = Some(2);
            u
        })
        .unwrap();

    let mut q = adapter.update_view_focus_state(false).unwrap();
    assert_eq!(q.raise_events(), vec![Event::FocusChanged(None)]);

    let mut q = adapter.update_view_focus_state(true).unwrap();
    assert_eq!(q.raise_events(), vec![Event::FocusChanged(Some(2))]);
}

#[test]
fn focus_change_inside_update_is_notified() {
    let mut adapter = Adapter::new(view(), true);
    adapter.update_if_active(two_node_update).unwrap();
    let mut q = adapter
        .update_if_active(|| TreeUpdate { nodes: vec![], root: None, focus: Some(2) })
        .unwrap();
    assert_eq!(q.raise_events(), vec![Event::FocusChanged(Some(2))]);
}

#[test]
fn diff_notifies_removed_nodes() {
    let a = Tree::from_update(&two_node_update()).unwrap();
    let b = Tree::from_update(&TreeUpdate {
        nodes: vec![Node::new(1, Role::Window)],
        root: Some(1),
        focus: None,
    })
    .unwrap();
    // Node 1 lost its child list, node 2 left the tree.
    assert_eq!(diff(Some(&a), &b), vec![Event::Updated(1), Event::Removed(2)]);
}

#[test]
fn update_keeps_unreferenced_nodes() {
    let mut adapter = Adapter::new(view(), true);
    adapter.update_if_active(two_node_update).unwrap();
    let mut q = adapter
        .update_if_active(|| {
            let root = Node::new(1, Role::Window);
            TreeUpdate { nodes: vec![root], root: None, focus: None }
        })
        .unwrap();
    // Merging replaces by id and never drops a node: only the root changed.
    assert_eq!(q.raise_events(), vec![Event::Updated(1)]);
}

#[test]
fn view_children_materializes_through_the_handler() {
    let mut adapter = Adapter::new(view(), false);
    let mut handler = InitialTree { update: Some(two_node_update()), asked: 0 };
    let children = adapter.view_children(&mut handler).unwrap();
    assert_eq!(children, vec![2]);
    assert_eq!(handler.asked, 1);
    // The snapshot is cached: no second pull.
    let children = adapter.view_children(&mut handler).unwrap();
    assert_eq!(children, vec![2]);
    assert_eq!(handler.asked, 1);
}

#[test]
fn view_children_without_tree_answers_nothing() {
    let mut adapter = Adapter::new(view(), false);
    let mut handler = InitialTree { update: None, asked: 0 };
    assert!(adapter.view_children(&mut handler).is_none());
    assert_eq!(handler.asked, 1);
}

#[test]
fn focus_query_reflects_view_and_tree_state() {
    let mut adapter = Adapter::new(view(), false);
    let mut handler = InitialTree {
        update: Some({
            let mut u = two_node_update();
            u.focus = Some(2);
            u
        }),
        asked: 0,
    };
    // View not focused: no focused element, but the tree materializes.
    assert_eq!(adapter.focus(&mut handler), None);
    assert!(adapter.has_tree());
    adapter.update_view_focus_state(true);
    assert_eq!(adapter.focus(&mut handler), Some(2));
}

#[test]
fn hit_test_finds_the_node_under_the_point() {
    let mut adapter = Adapter::new(view(), true);
    adapter
        .update_if_active(|| {
            let mut u = two_node_update();
            u.nodes[1].bounds =
                Some(accesskit_adapter::geometry::Rect { x0: 10, y0: 10, x1: 20, y1: 20 });
            u
        })
        .unwrap();
    let mut handler = InitialTree { update: None, asked: 0 };
    assert_eq!(adapter.hit_test(15, 15, &mut handler), Some(2));
    assert_eq!(adapter.hit_test(5, 5, &mut handler), None);
    // The tree was already cached, so the handler is never asked.
    assert_eq!(handler.asked, 0);
}

#[test]
fn request_action_dispatches_only_supported_actions() {
    let mut adapter = Adapter::new(view(), true);
    adapter
        .update_if_active(|| {
            let mut u = two_node_update();
            u.nodes[1].actions = action_bit(Action::Click);
            u
        })
        .unwrap();
    let mut handler = RecordingActionHandler { requests: vec![] };

    let sent = adapter.request_action(
        &mut handler,
        ActionRequest { target: 2, action: Action::Click, data: None },
    );
    assert!(sent);
    let sent = adapter.request_action(
        &mut handler,
        ActionRequest { target: 2, action: Action::Focus, data: None },
    );
    assert!(!sent);
    let sent = adapter.request_action(
        &mut handler,
        ActionRequest { target: 99, action: Action::Click, data: None },
    );
    assert!(!sent);
    assert_eq!(handler.requests, vec![(2, Action::Click)]);
}

#[test]
fn malformed_factory_update_in_fresh_adapter() {
    // The adapter requires well-formed factory output; the tree constructor
    // is where rejection is observable.
    let u = TreeUpdate { nodes: vec![Node::new(1, Role::Window)], root: Some(9), focus: None };
    assert!(accesskit_adapter::tree::Tree::from_update(&u).is_err());
}
