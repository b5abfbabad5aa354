//! Pointer interaction events handed to the UI each frame.

use vstd::prelude::*;

use crate::geometry::Point;

verus! {

/// Interaction with the UI.
#[derive(Debug, Clone, Copy, PartialEq, Eq, PartialOrd, Ord, Hash, Default, Structural)]
pub enum Interaction {
    /// A click event (mouse, touch, etc. down).
    Click(Point),
    /// A drag event (mouse, touch, etc. move while clicked).
    Drag(Point),
    /// A release event (mouse, touch, etc. up).
    Release(Point),
    /// A hover event (mouse, touch, etc. move while not clicked).
    /// Generally not applicable to touch screens.
    Hover(Point),
    /// No interaction.
    #[default]
    Idle,
}

impl Interaction {
    /// The point associated with the interaction: the click, drag, release
    /// or hover position, and nothing for [`Interaction::Idle`].
    pub fn get_point(&self) -> (r: Option<Point>)
        ensures
            r == (match self {
                Interaction::Click(p) => Some(*p),
                Interaction::Drag(p) => Some(*p),
                Interaction::Release(p) => Some(*p),
                Interaction::Hover(p) => Some(*p),
                Interaction::Idle => None,
            }),
    {
        match self {
            Interaction::Click(p) => Some(*p),
            Interaction::Drag(p) => Some(*p),
            Interaction::Release(p) => Some(*p),
            Interaction::Hover(p) => Some(*p),
            Interaction::Idle => None,
        }
    }
}

} // verus!
