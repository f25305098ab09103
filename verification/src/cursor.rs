//! Cursor capture: confining and hiding the cursor while the camera is
//! dragged, and restoring it afterwards.

use vstd::prelude::*;

verus! {

/// What the camera controls ask of the cursor.
#[derive(Debug, Copy, Clone, PartialEq, Eq, Structural)]
pub enum CursorCapture {
    Free,
    LockedAndHidden,
}

/// State of the cursor of a window. While the cursor is locked, the state
/// keeps the position to restore on release. `P` is the window system's
/// position type.
#[derive(Debug, Clone, Copy)]
pub enum WindowCursorCapture<P> {
    Free,
    LockedAndHidden(P),
}

/// What the host has to do to the window when the capture changes.
#[derive(Debug, Clone, Copy)]
pub enum CursorAction<P> {
    /// Nothing changes.
    Keep,
    /// Confine the cursor to the window, or lock it where confining is not
    /// available, and hide it.
    Grab,
    /// Release the cursor, show it, and put it back at this position.
    Release(P),
}

/// The state asked for by the camera controls: free, or locked with the
/// cursor's current position remembered, `origin` where the position is
/// unknown.
pub fn requested_capture<P>(capture: CursorCapture, cursor: Option<P>, origin: P) -> (requested:
    WindowCursorCapture<P>)
    ensures
        requested == match capture {
            CursorCapture::Free => WindowCursorCapture::Free,
            CursorCapture::LockedAndHidden => WindowCursorCapture::LockedAndHidden(
                match cursor {
                    Some(position) => position,
                    None => origin,
                },
            ),
        },
{
    match capture {
        CursorCapture::Free => WindowCursorCapture::Free,
        CursorCapture::LockedAndHidden => match cursor {
            Some(position) => WindowCursorCapture::LockedAndHidden(position),
            None => WindowCursorCapture::LockedAndHidden(origin),
        },
    }
}

/// The next state of the cursor and what to do to the window, given the
/// current state and the one asked for. Without a window nothing changes.
/// Releasing restores the position remembered when the cursor was grabbed;
/// while the cursor stays locked, the remembered position follows the request.
pub fn update_cursor_capture<P>(
    has_window: bool,
    current: WindowCursorCapture<P>,
    requested: WindowCursorCapture<P>,
) -> (next: (WindowCursorCapture<P>, CursorAction<P>))
    ensures
        !has_window ==> next.0 == current && next.1 is Keep,
        has_window ==> next.0 == requested,
        has_window ==> match (current, requested) {
            (WindowCursorCapture::LockedAndHidden(position), WindowCursorCapture::Free) => next.1
                == CursorAction::Release(position),
            (WindowCursorCapture::Free, WindowCursorCapture::LockedAndHidden(_)) => next.1 is Grab,
            _ => next.1 is Keep,
        },
{
    if !has_window {
        return (current, CursorAction::Keep);
    }
    match (current, requested) {
        (WindowCursorCapture::LockedAndHidden(position), WindowCursorCapture::Free) => (
            WindowCursorCapture::Free,
            CursorAction::Release(position),
        ),
        (WindowCursorCapture::Free, WindowCursorCapture::Free) => (
            WindowCursorCapture::Free,
            CursorAction::Keep,
        ),
        (WindowCursorCapture::LockedAndHidden(_), WindowCursorCapture::LockedAndHidden(position)) => (
            WindowCursorCapture::LockedAndHidden(position),
            CursorAction::Keep,
        ),
        (WindowCursorCapture::Free, WindowCursorCapture::LockedAndHidden(position)) => (
            WindowCursorCapture::LockedAndHidden(position),
            CursorAction::Grab,
        ),
    }
}

} // verus!
