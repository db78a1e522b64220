//! The two capability interfaces the adapter needs from the application.
//!
//! `ActivationHandler` is the pull direction: the native stack asked a
//! question that the cached snapshot cannot answer, and the application is
//! asked to produce the initial tree on demand. `ActionHandler` is the push
//! direction: the native stack requests an action on a node and the
//! application carries it out; failures are the application's concern.

use vstd::prelude::*;

use crate::node::Action;
use crate::tree::TreeUpdate;

verus! {

/// Action-specific payload of an action request.
#[derive(Debug)]
pub enum ActionData {
    /// A point in the native coordinate space.
    Point(i64, i64),
    /// A textual value as UTF-8 bytes.
    Value(Vec<u8>),
}

/// A command from the native assistive-technology stack to the application:
/// perform `action` on the node `target`.
#[derive(Debug)]
pub struct ActionRequest {
    pub target: u64,
    pub action: Action,
    pub data: Option<ActionData>,
}

/// Pull-style capability: produces tree data on demand, synchronously, on the
/// thread that invoked the adapter.
pub trait ActivationHandler {
    /// Asked exactly when a native query needs a tree and none has been
    /// published yet. Returns the update that defines the initial tree, or
    /// nothing to leave the view unrepresented for now.
    fn request_initial_tree(&mut self) -> Option<TreeUpdate>;
}

/// Push-style capability: carries out an action that the native stack
/// requested, synchronously, on the thread that invoked the adapter.
pub trait ActionHandler {
    /// Performs the requested action. No return value; failures are the
    /// application's concern.
    fn do_action(&mut self, request: ActionRequest);
}

} // verus!
