//! What a widget reports back after its per-frame run: the space it was
//! given, the interaction it saw, and whether it was clicked, held down,
//! redrawn or changed.

use vstd::prelude::*;

use crate::geometry::{Point, Rectangle, Size};
use crate::interaction::Interaction;

verus! {

/// The configuration and drawing errors the UI distinguishes.
#[derive(Debug, Clone, Copy, PartialEq, Eq, PartialOrd, Ord, Hash)]
pub enum GuiError {
    /// The widget is too large to fit in the bounds with the current
    /// constraints.
    NoSpaceLeft,
    /// The drawable returned an error while drawing.
    DrawError(Option<&'static str>),
    /// The requested operation would cause the bounds to differ from the
    /// expected size.
    BoundsError,
}

impl GuiError {
    /// A drawing error carrying the given message.
    pub fn draw_error(msg: &'static str) -> (r: Self)
        ensures
            r == GuiError::DrawError(Some(msg)),
    {
        GuiError::DrawError(Some(msg))
    }
}

/// The result type used throughout the UI.
pub type GuiResult<T> = Result<T, GuiError>;

/// The raw per-frame record for a widget: the area it was allotted and the
/// interaction that hit it.
pub struct InternalResponse {
    pub area: Rectangle,
    pub interaction: Interaction,
}

impl InternalResponse {
    /// Bundles an area and an interaction.
    pub fn new(area: Rectangle, interaction: Interaction) -> (r: Self)
        ensures
            r.area == area,
            r.interaction == interaction,
    {
        Self { area, interaction }
    }

    /// The empty record: a zero-sized area at the origin and no interaction.
    pub fn empty() -> (r: Self)
        ensures
            r.area == (Rectangle {
                top_left: Point { x: 0, y: 0 },
                size: Size { width: 0, height: 0 },
            }),
            r.interaction == Interaction::Idle,
    {
        Self {
            area: Rectangle {
                top_left: Point { x: 0, y: 0 },
                size: Size { width: 0, height: 0 },
            },
            interaction: Interaction::Idle,
        }
    }
}

/// Response for UI interaction, space allocation and drawing, built up in
/// builder style by the widget as it runs.
pub struct Response {
    pub internal: InternalResponse,
    /// Whether the widget was clicked (as in successfully interacted with).
    pub click: bool,
    /// Whether the widget is in a "down" state (e.g. a button is pressed,
    /// but not yet released).
    pub down: bool,
    /// Whether this widget was redrawn this frame. Without redraw or change
    /// detection this stays at its default, `true`.
    pub redraw: bool,
    /// Whether the underlying data changed (e.g. a slider was dragged).
    pub changed: bool,
    /// The error the widget hit while drawing, if any.
    pub error: Option<GuiError>,
}

impl Response {
    /// A fresh response around the raw record: not clicked, not down, not
    /// changed, no error, and redrawn (the default for widgets that do not
    /// track redraws).
    pub fn new(raw: InternalResponse) -> (r: Response)
        ensures
            r.internal.area == raw.area,
            r.internal.interaction == raw.interaction,
            !r.click,
            !r.down,
            r.redraw,
            !r.changed,
            r.error is None,
    {
        Response {
            internal: raw,
            click: false,
            redraw: true,
            changed: false,
            down: false,
            error: None,
        }
    }

    /// An empty response carrying the given error.
    pub fn from_error(error: GuiError) -> (r: Response)
        ensures
            r.internal.area == (Rectangle {
                top_left: Point { x: 0, y: 0 },
                size: Size { width: 0, height: 0 },
            }),
            r.internal.interaction == Interaction::Idle,
            !r.click,
            !r.down,
            r.redraw,
            !r.changed,
            r.error == Some(error),
    {
        Response::new(InternalResponse::empty()).set_error(error)
    }

    /// Records whether the widget was clicked.
    pub fn set_clicked(self, clicked: bool) -> (r: Self)
        ensures
            r == (Response { click: clicked, ..self }),
    {
        let mut s = self;
        s.click = clicked;
        s
    }

    /// Records whether the widget was redrawn this frame.
    pub fn set_redraw(self, redraw: bool) -> (r: Self)
        ensures
            r == (Response { redraw, ..self }),
    {
        let mut s = self;
        s.redraw = redraw;
        s
    }

    /// Records whether the underlying data changed.
    pub fn set_changed(self, changed: bool) -> (r: Self)
        ensures
            r == (Response { changed, ..self }),
    {
        let mut s = self;
        s.changed = changed;
        s
    }

    /// Records the error the widget hit while drawing.
    pub fn set_error(self, error: GuiError) -> (r: Self)
        ensures
            r == (Response { error: Some(error), ..self }),
    {
        let mut s = self;
        s.error = Some(error);
        s
    }

    /// Records whether the widget is held down.
    pub fn set_down(self, down: bool) -> (r: Self)
        ensures
            r == (Response { down, ..self }),
    {
        let mut s = self;
        s.down = down;
        s
    }

    /// Whether the widget was clicked (as in successfully interacted with).
    pub fn clicked(&self) -> (r: bool)
        ensures
            r == self.click,
    {
        self.click
    }

    /// Whether the widget is in a "down" state (e.g. a button is pressed,
    /// but not yet released).
    pub fn down(&self) -> (r: bool)
        ensures
            r == self.down,
    {
        self.down
    }

    /// Whether the widget was redrawn this frame.
    pub fn redrawn(&self) -> (r: bool)
        ensures
            r == self.redraw,
    {
        self.redraw
    }

    /// Whether the underlying data changed (e.g. a slider was moved).
    pub fn changed(&self) -> (r: bool)
        ensures
            r == self.changed,
    {
        self.changed
    }

    /// The error the widget hit while drawing, if any.
    pub fn error(&self) -> (r: Option<GuiError>)
        ensures
            r == self.error,
    {
        self.error
    }
}

} // verus!
