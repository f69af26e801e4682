//! Requests for another frame.
//!
//! Scrolling a list asks the surrounding application to draw, to route
//! pointer input or to settle focus again. The requests are plain flags that
//! the application hands to whoever raises or serves them.

use vstd::prelude::*;

verus! {

/// The pending requests.
#[derive(Clone, Copy, Debug, PartialEq, Eq, Structural)]
pub struct InvalidationFlags {
    /// The scene is to be rebuilt.
    pub render: bool,
    /// Pointer input is to be routed again.
    pub pointer: bool,
    /// Focus is to be settled again.
    pub focus: bool,
}

impl InvalidationFlags {
    /// No request pending.
    pub fn new() -> (flags: Self)
        ensures
            flags == (InvalidationFlags { render: false, pointer: false, focus: false }),
    {
        Self { render: false, pointer: false, focus: false }
    }
}

impl Default for InvalidationFlags {
    fn default() -> (flags: Self)
        ensures
            flags == (InvalidationFlags { render: false, pointer: false, focus: false }),
    {
        Self::new()
    }
}

/// Asks for the scene to be rebuilt.
pub fn request_render_invalidation(flags: &mut InvalidationFlags)
    ensures
        *final(flags) == (InvalidationFlags { render: true, ..*old(flags) }),
{
    flags.render = true;
}

/// Whether a rebuild of the scene was asked for; the request is cleared.
pub fn take_render_invalidation(flags: &mut InvalidationFlags) -> (pending: bool)
    ensures
        pending == old(flags).render,
        *final(flags) == (InvalidationFlags { render: false, ..*old(flags) }),
{
    let pending = flags.render;
    flags.render = false;
    pending
}

/// Whether a rebuild of the scene is asked for; the request stays.
pub fn peek_render_invalidation(flags: &InvalidationFlags) -> (pending: bool)
    ensures
        pending == flags.render,
{
    flags.render
}

/// Asks for another pointer-input pass.
pub fn request_pointer_invalidation(flags: &mut InvalidationFlags)
    ensures
        *final(flags) == (InvalidationFlags { pointer: true, ..*old(flags) }),
{
    flags.pointer = true;
}

/// Whether a pointer-input pass was asked for; the request is cleared.
pub fn take_pointer_invalidation(flags: &mut InvalidationFlags) -> (pending: bool)
    ensures
        pending == old(flags).pointer,
        *final(flags) == (InvalidationFlags { pointer: false, ..*old(flags) }),
{
    let pending = flags.pointer;
    flags.pointer = false;
    pending
}

/// Whether a pointer-input pass is asked for; the request stays.
pub fn peek_pointer_invalidation(flags: &InvalidationFlags) -> (pending: bool)
    ensures
        pending == flags.pointer,
{
    flags.pointer
}

/// Asks for focus to be settled again.
pub fn request_focus_invalidation(flags: &mut InvalidationFlags)
    ensures
        *final(flags) == (InvalidationFlags { focus: true, ..*old(flags) }),
{
    flags.focus = true;
}

/// Whether settling focus was asked for; the request is cleared.
pub fn take_focus_invalidation(flags: &mut InvalidationFlags) -> (pending: bool)
    ensures
        pending == old(flags).focus,
        *final(flags) == (InvalidationFlags { focus: false, ..*old(flags) }),
{
    let pending = flags.focus;
    flags.focus = false;
    pending
}

/// Whether settling focus is asked for; the request stays.
pub fn peek_focus_invalidation(flags: &InvalidationFlags) -> (pending: bool)
    ensures
        pending == flags.focus,
{
    flags.focus
}

} // verus!
