use vstd::prelude::*;

use crate::layout::{ViewBounds, bounds_of, high_word, low_word, size_from_param, view_bounds};

verus! {

/// The message a window gets when its size changes.
pub const WM_SIZE: u32 = 0x0005;

/// The message a window gets when it is being destroyed.
pub const WM_DESTROY: u32 = 0x0002;

/// What the window procedure does with a message.
#[derive(Debug, Clone, Copy, PartialEq, Eq, Structural)]
pub enum WindowAction {
    /// Move the two views to these bounds.
    Resize(ViewBounds),
    /// Release the browser and end the message loop.
    Destroy,
    /// Leave the message to the default window procedure.
    PassOn,
}

/// Decides what the window procedure does with message `msg` whose second
/// parameter is `lparam`: a resize lays the views out for the new client
/// size, which the parameter carries in its low and high words.
pub fn window_action(msg: u32, lparam: isize) -> (a: WindowAction)
    ensures
        msg == WM_SIZE ==> a == WindowAction::Resize(
            bounds_of(low_word(lparam) as i32, high_word(lparam) as i32),
        ),
        msg == WM_DESTROY ==> a == WindowAction::Destroy,
        msg != WM_SIZE && msg != WM_DESTROY ==> a == WindowAction::PassOn,
{
    if msg == WM_SIZE {
        let size: (i32, i32) = size_from_param(lparam);
        WindowAction::Resize(view_bounds(size.0, size.1))
    } else if msg == WM_DESTROY {
        WindowAction::Destroy
    } else {
        WindowAction::PassOn
    }
}

} // verus!
