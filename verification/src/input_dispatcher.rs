//! Targets of dispatched input.
use vstd::prelude::*;

verus! {

/// A window that receives mirrored input, with its client size.
#[derive(Debug, PartialEq, Eq)]
pub struct DispatchTarget {
    pub window_id: String,
    pub client_width: i32,
    pub client_height: i32,
}

/// A pointer position to dispatch, with an optional wheel movement; `P` is the type of a point
/// in a client area as a fraction of its size.
#[derive(Debug, PartialEq)]
pub struct DispatchEvent<P> {
    pub point: P,
    pub wheel_delta: Option<(i32, i32)>,
}

/// The windows that receive dispatched input.
#[derive(Debug)]
pub struct DispatchPlan {
    pub targets: Vec<DispatchTarget>,
}

impl Default for DispatchPlan {
    fn default() -> (p: Self)
        ensures
            p.targets@.len() == 0,
    {
        DispatchPlan { targets: Vec::new() }
    }
}

} // verus!
