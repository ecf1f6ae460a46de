//! Events routed to panels and the responses they produce.

use vstd::prelude::*;

verus! {

/// A button that can be linked to an action for a panel.
#[derive(Clone, Copy, Debug, PartialEq, Eq, Structural)]
pub enum MouseButton {
    /// The left mouse button.
    Left,
    /// The middle mouse button.
    Middle,
    /// The right mouse button.
    Right,
    /// Scrolling up.
    ScrollUp,
    /// Scrolling down.
    ScrollDown,
}

impl MouseButton {
    /// The button denoted by an X11 button detail code, with the scroll
    /// pair swapped when `reverse` is set.
    pub open spec fn spec_parse(value: u8, reverse: bool) -> Option<MouseButton> {
        if value == 1 {
            Some(MouseButton::Left)
        } else if value == 2 {
            Some(MouseButton::Middle)
        } else if value == 3 {
            Some(MouseButton::Right)
        } else if value == 4 {
            Some(if reverse { MouseButton::ScrollDown } else { MouseButton::ScrollUp })
        } else if value == 5 {
            Some(if reverse { MouseButton::ScrollUp } else { MouseButton::ScrollDown })
        } else {
            None
        }
    }

    /// Decodes an X11 button detail code; codes outside `1..=5` are
    /// rejected.
    pub fn try_parse(value: u8, reverse: bool) -> (r: Result<Self, ()>)
        ensures
            r is Ok <==> 1 <= value <= 5,
            r is Ok ==> Self::spec_parse(value, reverse) == Some(r->Ok_0),
    {
        match value {
            1 => Ok(Self::Left),
            2 => Ok(Self::Middle),
            3 => Ok(Self::Right),
            4 => if reverse {
                Ok(Self::ScrollDown)
            } else {
                Ok(Self::ScrollUp)
            },
            5 => if reverse {
                Ok(Self::ScrollUp)
            } else {
                Ok(Self::ScrollDown)
            },
            _ => Err(()),
        }
    }
}

/// A mouse event that can be passed to a panel.
#[derive(Clone, Copy, Debug, PartialEq, Eq, Structural)]
pub struct MouseEvent {
    /// The button that was pressed (or scrolled).
    pub button: MouseButton,
    /// The x coordinate of the press, relative to the panel.
    pub x: i16,
    /// The y coordinate of the press, relative to the bar.
    pub y: i16,
}

/// An event that can be passed to a panel.
#[derive(Clone, Debug, PartialEq, Eq)]
pub enum Event {
    /// A mouse event.
    Mouse(MouseEvent),
    /// A message, typically from another process.
    Action(String),
}

/// An event delivered by the windowing system.
#[derive(Clone, Copy, Debug, PartialEq, Eq, Structural)]
pub enum XEvent {
    /// The window was exposed; the whole bar must be repainted.
    Expose,
    /// A pointer button was pressed.
    ButtonPress {
        /// The button detail code; `1..=5` are meaningful.
        detail: u8,
        /// Whether the event is on the same screen as the bar; when it is
        /// not, the root coordinates are used instead.
        same_screen: bool,
        /// The x coordinate relative to the bar window.
        event_x: i16,
        /// The y coordinate relative to the bar window.
        event_y: i16,
        /// The x coordinate relative to the root window.
        root_x: i16,
        /// The y coordinate relative to the root window.
        root_y: i16,
    },
    /// Any other event; ignored.
    Other,
}

/// An error raised while routing a message.
#[derive(Clone, Debug, PartialEq, Eq)]
pub enum IpcError {
    /// A panel visibility command carried an unknown verb.
    UnknownMessage(String),
    /// A panel visibility command carried an index too large to address.
    BadIndex,
}

impl IpcError {
    /// The error's message text.
    pub open spec fn spec_text(self) -> Seq<char> {
        match self {
            IpcError::UnknownMessage(m) => "Unknown message "@ + m@,
            IpcError::BadIndex => "Invalid panel index"@,
        }
    }

    /// Renders the error's message text.
    pub fn text(&self) -> (r: String)
        ensures
            r@ == self.spec_text(),
    {
        match self {
            IpcError::UnknownMessage(m) => "Unknown message ".to_owned().concat(m.as_str()),
            IpcError::BadIndex => "Invalid panel index".to_owned(),
        }
    }
}

/// A response to an event.
#[derive(Clone, Debug)]
pub enum EventResponse {
    /// The event executed normally.
    Success,
    /// An error occurred.
    Failure(String),
}

impl EventResponse {
    /// The single reply line sent to a message caller.
    pub open spec fn spec_line(self) -> Seq<char> {
        match self {
            EventResponse::Success => "SUCCESS"@,
            EventResponse::Failure(e) => "FAILURE: "@ + e@,
        }
    }

    /// Renders the response as its reply line: `SUCCESS`, or `FAILURE: `
    /// followed by the error.
    pub fn to_line(&self) -> (r: String)
        ensures
            r@ == self.spec_line(),
    {
        match self {
            EventResponse::Success => "SUCCESS".to_owned(),
            EventResponse::Failure(e) => "FAILURE: ".to_owned().concat(e.as_str()),
        }
    }
}

} // verus!
