//! The adapter: the long-lived binding between one native view and the
//! application's accessibility tree.
//!
//! The adapter caches the last published snapshot and an activation flag
//! driven by the view's focus state. `update_if_active` is the laziness
//! gate: the update factory runs exactly when the view is active, so
//! expensive tree construction is skipped whenever no assistive-technology
//! client can observe it. Native pull queries (`view_children`, `focus`,
//! `hit_test`) materialize the tree on demand through the activation handler.

use vstd::prelude::*;

use crate::diff::{diff, diff_events, Event};
use crate::events::QueuedEvents;
use crate::handlers::{ActionHandler, ActionRequest, ActivationHandler};
use crate::tree::{base_view, spec_applied, spec_hit, update_ok, Tree, TreeUpdate, TreeV};

verus! {

/// An opaque, non-owning reference to a native view or window. The caller
/// guarantees that the referent stays valid for the adapter's lifetime.
#[derive(Clone, Copy, Debug, PartialEq, Eq, Structural)]
pub struct ViewHandle {
    pub addr: usize,
}

/// The adapter's state: the bound view, the view focus flag and the cached
/// snapshot.
#[verifier::ext_equal]
pub ghost struct AdapterV {
    pub view: ViewHandle,
    pub is_view_focused: bool,
    pub tree: Option<TreeV>,
}

impl AdapterV {
    /// The adapter's invariant: a cached snapshot satisfies the tree
    /// invariant.
    pub open spec fn wf(self) -> bool {
        match self.tree {
            Some(t) => t.wf(),
            None => true,
        }
    }

    /// Whether the adapter is in the `Active` state. The view's focus state
    /// is what drives the `Inactive`/`Active` transition.
    pub open spec fn is_active(self) -> bool {
        self.is_view_focused
    }

    /// The focused element as the native stack sees it: the cached tree's
    /// focus target while the view is focused, nothing otherwise.
    pub open spec fn focus_target(self) -> Option<u64> {
        if self.is_view_focused {
            match self.tree {
                Some(t) => t.focus,
                None => None,
            }
        } else {
            None
        }
    }
}

/// The per-view adapter. Confined to the thread that owns the native UI run
/// loop; it lives as long as its bound view.
#[derive(Debug)]
pub struct Adapter {
    view: ViewHandle,
    is_view_focused: bool,
    tree: Option<Tree>,
}

impl View for Adapter {
    type V = AdapterV;

    closed spec fn view(&self) -> AdapterV {
        AdapterV {
            view: self.view,
            is_view_focused: self.is_view_focused,
            tree: match self.tree {
                Some(ref t) => Some(t@),
                None => None,
            },
        }
    }
}

impl Adapter {
    /// Binds a new adapter to a native view. `is_view_focused` is the view's
    /// current focus state; no snapshot is cached yet.
    pub fn new(view: ViewHandle, is_view_focused: bool) -> (r: Adapter)
        ensures
            r@.view == view,
            r@.is_view_focused == is_view_focused,
            r@.tree is None,
            r@.wf(),
    {
        Adapter { view, is_view_focused, tree: None }
    }

    /// The native view this adapter is bound to.
    pub fn view_handle(&self) -> (r: ViewHandle)
        ensures
            r == self@.view,
    {
        self.view
    }

    /// Whether the adapter is currently in the `Active` state.
    pub fn is_active(&self) -> (r: bool)
        ensures
            r == self@.is_active(),
    {
        self.is_view_focused
    }

    /// Whether a snapshot has been published to this adapter.
    pub fn has_tree(&self) -> (r: bool)
        ensures
            r == (self@.tree is Some),
    {
        match self.tree {
            Some(_) => true,
            None => false,
        }
    }

    /// Applies an update produced by `factory`, but only while active.
    ///
    /// Law (laziness): the factory is invoked if and only if the adapter is
    /// currently active. While inactive nothing is invoked, nothing changes
    /// and nothing is returned. While active the factory runs exactly once,
    /// its update is merged into the cached snapshot, and the notifications
    /// of that transition are returned for deferred delivery.
    pub fn update_if_active<F: FnOnce() -> TreeUpdate>(&mut self, factory: F) -> (r: Option<
        QueuedEvents,
    >)
        requires
            old(self)@.wf(),
            old(self)@.is_active() ==> call_requires(factory, ()),
            forall|u: TreeUpdate| #[trigger]
                call_ensures(factory, (), u) ==> update_ok(old(self)@.tree, u@),
        ensures
            final(self)@.wf(),
            final(self)@.view == old(self)@.view,
            final(self)@.is_view_focused == old(self)@.is_view_focused,
            !old(self)@.is_active() ==> final(self)@ == old(self)@ && r is None,
            old(self)@.is_active() ==> (final(self)@.tree matches Some(t) && (exists|u: TreeUpdate|
                #[trigger] call_ensures(factory, (), u) && spec_applied(old(self)@.tree, u@, t))
                && (r matches Some(q) && q@ == Some(diff_events(old(self)@.tree, t)))),
    {
        if !self.is_view_focused {
            return None;
        }
        let u = factory();
        let ghost uv = u;
        let applied = match &self.tree {
            Some(t) => t.apply(&u),
            None => Tree::from_update(&u),
        };
        match applied {
            Ok(t) => {
                let base_ref = self.tree.as_ref();
                proof {
                    assert(base_view(base_ref) == old(self)@.tree);
                }
                let events = diff(base_ref, &t);
                let q = QueuedEvents::new(events);
                self.tree = Some(t);
                proof {
                    assert(call_ensures(factory, (), uv));
                }
                Some(q)
            },
            Err(_) => vstd::pervasive::unreached(),
        }
    }

    /// Updates the view focus state, returning the focus-change notification
    /// when the state changed and nothing when it did not.
    ///
    /// Law (focus-only path): a call with the current state yields no
    /// notification object and changes nothing; a call with a changed state
    /// yields exactly one focus-change notification, without touching the
    /// cached tree.
    pub fn update_view_focus_state(&mut self, is_focused: bool) -> (r: Option<QueuedEvents>)
        requires
            old(self)@.wf(),
        ensures
            final(self)@.wf(),
            final(self)@.view == old(self)@.view,
            final(self)@.tree == old(self)@.tree,
            final(self)@.is_view_focused == is_focused,
            is_focused == old(self)@.is_view_focused ==> final(self)@ == old(self)@ && r is None,
            is_focused != old(self)@.is_view_focused ==> (r matches Some(q) && q@ == Some(
                seq![Event::FocusChanged(final(self)@.focus_target())],
            )),
    {
        if is_focused == self.is_view_focused {
            return None;
        }
        self.is_view_focused = is_focused;
        let target: Option<u64> = if self.is_view_focused {
            match &self.tree {
                Some(t) => t.focus_id(),
                None => None,
            }
        } else {
            None
        };
        let mut events: Vec<Event> = Vec::new();
        events.push(Event::FocusChanged(target));
        proof {
            assert(events@ =~= seq![Event::FocusChanged(final(self)@.focus_target())]);
        }
        Some(QueuedEvents::new(events))
    }

    /// Materializes the initial snapshot through the activation handler when
    /// none is cached yet. A handler that returns nothing, or a malformed
    /// update (rejected, never partially applied), leaves the view
    /// unrepresented.
    fn materialize<H: ActivationHandler>(&mut self, handler: &mut H)
        requires
            old(self)@.wf(),
        ensures
            final(self)@.wf(),
            final(self)@.view == old(self)@.view,
            final(self)@.is_view_focused == old(self)@.is_view_focused,
            old(self)@.tree is Some ==> final(self)@ == old(self)@,
    {
        let needs_tree = match self.tree {
            Some(_) => false,
            None => true,
        };
        if needs_tree {
            if let Some(u) = handler.request_initial_tree() {
                match Tree::from_update(&u) {
                    Ok(t) => {
                        self.tree = Some(t);
                    },
                    Err(_) => {},
                }
            }
        }
    }

    /// Native pull query: the children of the root, materializing the tree
    /// through the activation handler if need be. Nothing while the view is
    /// unrepresented.
    pub fn view_children<H: ActivationHandler>(&mut self, handler: &mut H) -> (r: Option<Vec<u64>>)
        requires
            old(self)@.wf(),
        ensures
            final(self)@.wf(),
            final(self)@.view == old(self)@.view,
            final(self)@.is_view_focused == old(self)@.is_view_focused,
            old(self)@.tree is Some ==> final(self)@ == old(self)@,
            match final(self)@.tree {
                Some(t) => r matches Some(cs) && t.map().contains_key(t.root) && cs@
                    == t.map().index(t.root).children,
                None => r is None,
            },
    {
        self.materialize(handler);
        match &self.tree {
            Some(t) => {
                let root = t.root_id();
                match t.get_node(root) {
                    Some(n) => Some(crate::node::copy_ids(&n.children)),
                    None => vstd::pervasive::unreached(),
                }
            },
            None => None,
        }
    }

    /// Native pull query: the focused element, materializing the tree through
    /// the activation handler if need be.
    pub fn focus<H: ActivationHandler>(&mut self, handler: &mut H) -> (r: Option<u64>)
        requires
            old(self)@.wf(),
        ensures
            final(self)@.wf(),
            final(self)@.view == old(self)@.view,
            final(self)@.is_view_focused == old(self)@.is_view_focused,
            old(self)@.tree is Some ==> final(self)@ == old(self)@,
            r == final(self)@.focus_target(),
    {
        self.materialize(handler);
        if !self.is_view_focused {
            return None;
        }
        match &self.tree {
            Some(t) => t.focus_id(),
            None => None,
        }
    }

    /// Native pull query: the frontmost node at `(x, y)` in the native
    /// coordinate space, materializing the tree through the activation
    /// handler if need be.
    pub fn hit_test<H: ActivationHandler>(&mut self, x: i64, y: i64, handler: &mut H) -> (r: Option<
        u64,
    >)
        requires
            old(self)@.wf(),
        ensures
            final(self)@.wf(),
            final(self)@.view == old(self)@.view,
            final(self)@.is_view_focused == old(self)@.is_view_focused,
            old(self)@.tree is Some ==> final(self)@ == old(self)@,
            match final(self)@.tree {
                Some(t) => r == spec_hit(t.nodes, x, y),
                None => r is None,
            },
    {
        self.materialize(handler);
        match &self.tree {
            Some(t) => t.node_at_point(x, y),
            None => None,
        }
    }

    /// Dispatches an action request from the native stack to the application's
    /// action handler, after validating it against the cached snapshot: the
    /// target must be a node of the tree and support the action. Returns
    /// whether the request was dispatched.
    pub fn request_action<H: ActionHandler>(&self, handler: &mut H, request: ActionRequest) -> (r:
        bool)
        requires
            self@.wf(),
        ensures
            r == (self@.tree matches Some(t) && t.map().contains_key(request.target)
                && t.map()[request.target].spec_supports_action(request.action)),
    {
        let target = request.target;
        let action = request.action;
        match &self.tree {
            Some(t) => match t.get_node(target) {
                Some(n) => {
                    if n.supports_action(action) {
                        handler.do_action(request);
                        true
                    } else {
                        false
                    }
                },
                None => false,
            },
            None => false,
        }
    }
}

} // verus!
