//! Core building blocks for an immediate-mode GUI on pixel-addressable
//! displays: a clipped pixel buffer that widgets can composite into, and a
//! fixed-capacity state sequencer that lets widgets skip redraw work when
//! their visual state has not changed since the previous frame.

pub mod framebuf;
pub mod geometry;
pub mod interaction;
pub mod response;
pub mod smartstate;

pub use interaction::Interaction;
pub use response::{GuiError, GuiResult, InternalResponse, Response};

use vstd::prelude::*;

verus! {

/// A two-variant choice between "no value" and "a value to work on".
///
/// Widgets use this to toggle optional behaviour on or off without
/// allocation; the empty variant makes every accessor a no-op.
pub enum RefOption<T> {
    Filled(T),
    Empty,
}

impl<T: Copy> RefOption<T> {
    /// Returns a copy of the held value, if any.
    pub fn copy(&self) -> (r: Option<T>)
        ensures
            r == (match self {
                RefOption::Filled(t) => Some(*t),
                RefOption::Empty => None::<T>,
            }),
    {
        match self {
            RefOption::Filled(t) => Some(*t),
            RefOption::Empty => None,
        }
    }
}

impl<T> RefOption<T> {
    /// Wraps a value in the filled variant.
    pub fn new(t: T) -> (r: Self)
        ensures
            r == RefOption::Filled(t),
    {
        RefOption::Filled(t)
    }
}

} // verus!
