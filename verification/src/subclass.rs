//! The subclassing adapter: an adapter that also takes over the native
//! view's own accessibility entry points at construction time, so the host
//! application does not forward queries manually.
//!
//! It must be installed before the view is ever shown or focused; installing
//! it later leaves a window where some queries bypass the adapter. The
//! native method interception itself is the platform layer's work; what is
//! modelled here is the binding and the update/notification contract, which
//! is the plain adapter's.

use vstd::prelude::*;

use crate::adapter::{Adapter, AdapterV, ViewHandle};
use crate::diff::{diff_events, Event};
use crate::events::QueuedEvents;
use crate::handlers::ActivationHandler;
use crate::tree::{spec_applied, update_ok, TreeUpdate};

verus! {

/// A native window, as the adapter reads it: its own handle and its content
/// view, which a window may lack.
#[derive(Clone, Copy, Debug, PartialEq, Eq, Structural)]
pub struct Window {
    pub handle: ViewHandle,
    pub content_view: Option<ViewHandle>,
}

/// An adapter that intercepts its view's accessibility entry points.
#[derive(Debug)]
pub struct SubclassingAdapter {
    adapter: Adapter,
}

impl View for SubclassingAdapter {
    type V = AdapterV;

    closed spec fn view(&self) -> AdapterV {
        self.adapter@
    }
}

impl SubclassingAdapter {
    /// Binds directly to the given view and takes over its accessibility
    /// entry points. Must run before the view is shown or focused for the
    /// first time, so the adapter starts inactive with no snapshot cached.
    pub fn new(view: ViewHandle) -> (r: SubclassingAdapter)
        ensures
            r@.view == view,
            !r@.is_view_focused,
            r@.tree is None,
            r@.wf(),
    {
        SubclassingAdapter { adapter: Adapter::new(view, false) }
    }

    /// Binds to the content view of the given window, which must already
    /// exist: constructing a window-bound adapter on a window with no content
    /// view is a fatal precondition violation, not a recoverable error.
    /// Subsequent queries target that content view.
    pub fn for_window(window: &Window) -> (r: SubclassingAdapter)
        requires
            window.content_view is Some,
        ensures
            window.content_view == Some(r@.view),
            !r@.is_view_focused,
            r@.tree is None,
            r@.wf(),
    {
        match window.content_view {
            Some(view) => SubclassingAdapter { adapter: Adapter::new(view, false) },
            None => vstd::pervasive::unreached(),
        }
    }

    /// The view whose accessibility entry points this adapter intercepts.
    pub fn view_handle(&self) -> (r: ViewHandle)
        ensures
            r == self@.view,
    {
        self.adapter.view_handle()
    }

    /// Applies an update produced by `factory`, but only while active; the
    /// contract is the plain adapter's, laziness guarantee included.
    pub fn update_if_active<F: FnOnce() -> TreeUpdate>(&mut self, factory: F) -> (r: Option<
        QueuedEvents,
    >)
        requires
            old(self)@.wf(),
            old(self)@.is_active() ==> call_requires(factory, ()),
            forall|u: TreeUpdate| #[trigger]
                call_ensures(factory, (), u) ==> update_ok(old(self)@.tree, u@),
        ensures
            final(self)@.wf(),
            final(self)@.view == old(self)@.view,
            final(self)@.is_view_focused == old(self)@.is_view_focused,
            !old(self)@.is_active() ==> final(self)@ == old(self)@ && r is None,
            old(self)@.is_active() ==> (final(self)@.tree matches Some(t) && (exists|u: TreeUpdate|
                #[trigger] call_ensures(factory, (), u) && spec_applied(old(self)@.tree, u@, t))
                && (r matches Some(q) && q@ == Some(diff_events(old(self)@.tree, t)))),
    {
        self.adapter.update_if_active(factory)
    }

    /// Updates the view focus state; the contract is the plain adapter's.
    pub fn update_view_focus_state(&mut self, is_focused: bool) -> (r: Option<QueuedEvents>)
        requires
            old(self)@.wf(),
        ensures
            final(self)@.wf(),
            final(self)@.view == old(self)@.view,
            final(self)@.tree == old(self)@.tree,
            final(self)@.is_view_focused == is_focused,
            is_focused == old(self)@.is_view_focused ==> final(self)@ == old(self)@ && r is None,
            is_focused != old(self)@.is_view_focused ==> (r matches Some(q) && q@ == Some(
                seq![Event::FocusChanged(final(self)@.focus_target())],
            )),
    {
        self.adapter.update_view_focus_state(is_focused)
    }

    /// The intercepted children query: answered by the inner adapter.
    pub fn view_children<H: ActivationHandler>(&mut self, handler: &mut H) -> (r: Option<Vec<u64>>)
        requires
            old(self)@.wf(),
        ensures
            final(self)@.wf(),
            final(self)@.view == old(self)@.view,
            final(self)@.is_view_focused == old(self)@.is_view_focused,
            old(self)@.tree is Some ==> final(self)@ == old(self)@,
            match final(self)@.tree {
                Some(t) => r matches Some(cs) && t.map().contains_key(t.root) && cs@
                    == t.map().index(t.root).children,
                None => r is None,
            },
    {
        self.adapter.view_children(handler)
    }

    /// The intercepted focus query: answered by the inner adapter.
    pub fn focus<H: ActivationHandler>(&mut self, handler: &mut H) -> (r: Option<u64>)
        requires
            old(self)@.wf(),
        ensures
            final(self)@.wf(),
            final(self)@.view == old(self)@.view,
            final(self)@.is_view_focused == old(self)@.is_view_focused,
            old(self)@.tree is Some ==> final(self)@ == old(self)@,
            r == final(self)@.focus_target(),
    {
        self.adapter.focus(handler)
    }
}

} // verus!
