//! Accessibility-tree adapter protocol.
//!
//! A long-lived adapter binds one native view or window to the application's
//! accessibility tree. The application produces tree snapshots lazily; the
//! adapter caches the last published snapshot, merges transactional updates
//! into it, and turns each transition into a one-shot bundle of notifications
//! for the native assistive-technology stack.

use vstd::prelude::*;

pub mod adapter;
pub mod diff;
pub mod events;
pub mod handlers;
pub mod geometry;
pub mod node;
pub mod patch;
pub mod subclass;
pub mod tree;

verus! {

} // verus!
