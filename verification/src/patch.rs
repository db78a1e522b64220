//! Process-wide patch utility.
//!
//! Some windowing libraries place the keyboard focus directly on the window
//! rather than on its content view. The patch modifies a native window
//! class, once per process and irreversibly, so that focus queries on any
//! window of that class are forwarded to the window's content view. Callers
//! must treat the patch as a permanent commitment: nothing here, or anywhere,
//! undoes it.

use vstd::prelude::*;

use crate::adapter::ViewHandle;
use crate::subclass::Window;

verus! {

/// A native window class, as the patch reads it: whether the focus-forwarding
/// method has been installed. There is no operation that clears the flag,
/// matching the irreversibility of the native modification.
#[derive(Debug)]
pub struct WindowClass {
    focus_forwarding: bool,
}

impl View for WindowClass {
    type V = bool;

    closed spec fn view(&self) -> bool {
        self.focus_forwarding
    }
}

impl WindowClass {
    /// A class that has not been patched.
    pub fn new() -> (r: WindowClass)
        ensures
            !r@,
    {
        WindowClass { focus_forwarding: false }
    }

    /// Whether focus queries on windows of this class reach the content view.
    pub fn forwards_focus(&self) -> (r: bool)
        ensures
            r == self@,
    {
        self.focus_forwarding
    }
}

/// Installs the focus-forwarding method on a window class: one-time, global
/// and irreversible. Calling it on an already-patched class is a misuse, so
/// the class must not have been patched yet.
pub fn add_focus_forwarder_to_window_class(class: &mut WindowClass)
    requires
        !old(class)@,
    ensures
        final(class)@,
{
    class.focus_forwarding = true;
}

/// What a focus query on a window answers at the class level: the content
/// view where the class forwards focus (and the window has one), the window
/// itself otherwise.
pub fn window_focus_query(class: &WindowClass, window: &Window) -> (r: ViewHandle)
    ensures
        class@ && window.content_view is Some ==> Some(r) == window.content_view,
        !(class@ && window.content_view is Some) ==> r == window.handle,
{
    if class.forwards_focus() {
        match window.content_view {
            Some(view) => view,
            None => window.handle,
        }
    } else {
        window.handle
    }
}

} // verus!
