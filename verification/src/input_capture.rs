//! Captured mouse input.
use vstd::prelude::*;

verus! {

/// A mouse button.
#[derive(Clone, Copy, Debug, PartialEq, Eq, Structural)]
pub enum MouseButton {
    Left,
    Right,
    Middle,
}

/// A mouse event of the primary window; `P` is the type of a point in its client area as a
/// fraction of its size.
#[derive(Clone, Copy, Debug, PartialEq)]
pub enum CapturedMouseEvent<P> {
    ButtonDown { button: MouseButton, point: P },
    ButtonUp { button: MouseButton, point: P },
    Move { point: P },
    Wheel { delta_x: i32, delta_y: i32, point: P },
}

/// Whether capture runs and which button is held.
#[derive(Clone, Copy, Debug, PartialEq, Eq, Structural)]
pub struct CaptureState {
    pub is_running: bool,
    pub active_button: Option<MouseButton>,
}

impl Default for CaptureState {
    fn default() -> (s: Self)
        ensures
            !s.is_running,
            s.active_button is None,
    {
        CaptureState { is_running: false, active_button: None }
    }
}

} // verus!
