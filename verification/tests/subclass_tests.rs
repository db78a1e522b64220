//! Tests for the subclassing adapter and the process-wide patch utility.

use accesskit_adapter::adapter::ViewHandle;
use accesskit_adapter::diff::Event;
use accesskit_adapter::handlers::ActivationHandler;
use accesskit_adapter::node::{Node, Role};
use accesskit_adapter::patch::{add_focus_forwarder_to_window_class, WindowClass};
use accesskit_adapter::subclass::{SubclassingAdapter, Window};
use accesskit_adapter::tree::TreeUpdate;

fn content_view() -> ViewHandle {
    ViewHandle { addr: 0x2000 }
}

fn window_with_content() -> Window {
    Window { handle: ViewHandle { addr: 0x3000 }, content_view: Some(content_view()) }
}

fn one_node_update() -> TreeUpdate {
    TreeUpdate { nodes: vec![Node::new(1, Role::Window)], root: Some(1), focus: None }
}

struct NoTree;

impl ActivationHandler for NoTree {
    fn request_initial_tree(&mut self) -> Option<TreeUpdate> {
        None
    }
}

#[test]
fn for_window_targets_the_content_view() {
    let w = window_with_content();
    let adapter = SubclassingAdapter::for_window(&w);
    assert_eq!(adapter.view_handle(), content_view());
}

#[test]
fn subclassing_adapter_starts_inactive() {
    let mut adapter = SubclassingAdapter::new(content_view());
    assert_eq!(adapter.view_handle(), content_view());
    let mut calls = 0;
    let r = adapter.update_if_active(|| {
        calls += 1;
        one_node_update()
    });
    assert!(r.is_none());
    assert_eq!(calls, 0);
}

#[test]
fn subclassing_adapter_updates_after_activation() {
    let mut adapter = SubclassingAdapter::new(content_view());
    let mut q = adapter.update_view_focus_state(true).unwrap();
    assert_eq!(q.raise_events(), vec![Event::FocusChanged(None)]);
    let mut q = adapter.update_if_active(one_node_update).unwrap();
    assert_eq!(q.raise_events(), vec![Event::Added(1), Event::RootChanged(1)]);
}

#[test]
fn intercepted_queries_answer_from_the_tree() {
    let mut adapter = SubclassingAdapter::new(content_view());
    adapter.update_view_focus_state(true);
    adapter.update_if_active(|| {
        let mut root = Node::new(1, Role::Window);
        root.children = vec![2];
        let button = Node::new(2, Role::Button);
        TreeUpdate { nodes: vec![root, button], root: Some(1), focus: Some(2) }
    });
    let mut handler = NoTree;
    assert_eq!(adapter.view_children(&mut handler), Some(vec![2]));
    assert_eq!(adapter.focus(&mut handler), Some(2));
}

#[test]
fn focus_forwarding_is_installed_once_and_forwards() {
    let mut class = WindowClass::new();
    assert!(!class.forwards_focus());
    add_focus_forwarder_to_window_class(&mut class);
    assert!(class.forwards_focus());

    let w = window_with_content();
    assert_eq!(
        accesskit_adapter::patch::window_focus_query(&class, &w),
        content_view()
    );
}

#[test]
fn unpatched_class_answers_with_the_window() {
    let class = WindowClass::new();
    let w = window_with_content();
    assert_eq!(accesskit_adapter::patch::window_focus_query(&class, &w), w.handle);
}

#[test]
fn patched_class_without_content_view_answers_with_the_window() {
    let mut class = WindowClass::new();
    add_focus_forwarder_to_window_class(&mut class);
    let w = Window { handle: ViewHandle { addr: 0x4000 }, content_view: None };
    assert_eq!(accesskit_adapter::patch::window_focus_query(&class, &w), w.handle);
}
