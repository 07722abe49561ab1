//! The X event kinds the manager dispatches on, the mouse events it
//! grabs, and the client messages it understands. Atom values come from
//! the server at startup and are carried in one table.

use vstd::prelude::*;

verus! {

/// The EWMH and ICCCM atoms the core compares against, interned once at
/// startup.
#[derive(Clone, Copy, PartialEq, Eq, Structural, Debug)]
pub struct AtomTable {
    /// `_NET_CURRENT_DESKTOP`.
    pub current_desktop: u32,
    /// `_NET_WM_STATE`.
    pub wm_state: u32,
    /// `_NET_WM_STATE_FULLSCREEN`.
    pub wm_state_fullscreen: u32,
    /// `WM_DELETE_WINDOW`.
    pub wm_delete_window: u32,
}

/// One kind of X event, from the protocol's response-type codes.
#[derive(Clone, Copy, PartialEq, Eq, Structural, Debug)]
pub enum Event {
    Invalid,
    KeyPress,
    KeyRelease,
    ButtonPress,
    ButtonRelease,
    MotionNotify,
    EnterNotify,
    LeaveNotify,
    FocusIn,
    FocusOut,
    KeyMapNotify,
    Expose,
    GraphicsExposure,
    NoExposure,
    VisibilityNotify,
    CreateNotify,
    DestroyNotify,
    UnmapNotify,
    MapNotify,
    MapRequest,
    ReparentNotify,
    ConfigureNotify,
    ConfigureRequest,
    GravityNotify,
    ResizeRequest,
    CirculateNotify,
    CirculateRequest,
    PropertyNotify,
    SelectionClear,
    SelectionRequest,
    SelectionNotify,
    ColorMapNotify,
    ClientMessage,
    MappingNotify,
}

/// The event kind named by a response-type code, ignoring the
/// sent-by-another-client bit.
pub open spec fn spec_event_from(value: u8) -> Event {
    let v = value & 0x7f;
    if v == 2 {
        Event::KeyPress
    } else if v == 3 {
        Event::KeyRelease
    } else if v == 4 {
        Event::ButtonPress
    } else if v == 5 {
        Event::ButtonRelease
    } else if v == 6 {
        Event::MotionNotify
    } else if v == 7 {
        Event::EnterNotify
    } else if v == 8 {
        Event::LeaveNotify
    } else if v == 9 {
        Event::FocusIn
    } else if v == 10 {
        Event::FocusOut
    } else if v == 11 {
        Event::KeyMapNotify
    } else if v == 12 {
        Event::Expose
    } else if v == 13 {
        Event::GraphicsExposure
    } else if v == 14 {
        Event::NoExposure
    } else if v == 15 {
        Event::VisibilityNotify
    } else if v == 16 {
        Event::CreateNotify
    } else if v == 17 {
        Event::DestroyNotify
    } else if v == 18 {
        Event::UnmapNotify
    } else if v == 19 {
        Event::MapNotify
    } else if v == 20 {
        Event::MapRequest
    } else if v == 21 {
        Event::ReparentNotify
    } else if v == 22 {
        Event::ConfigureNotify
    } else if v == 23 {
        Event::ConfigureRequest
    } else if v == 24 {
        Event::GravityNotify
    } else if v == 25 {
        Event::ResizeRequest
    } else if v == 26 {
        Event::CirculateNotify
    } else if v == 27 {
        Event::CirculateRequest
    } else if v == 28 {
        Event::PropertyNotify
    } else if v == 29 {
        Event::SelectionClear
    } else if v == 30 {
        Event::SelectionRequest
    } else if v == 31 {
        Event::SelectionNotify
    } else if v == 32 {
        Event::ColorMapNotify
    } else if v == 33 {
        Event::ClientMessage
    } else if v == 34 {
        Event::MappingNotify
    } else {
        Event::Invalid
    }
}

impl Event {
    /// Classifies an X response-type code; the top bit, which only marks
    /// events sent by other clients, is ignored.
    pub fn from_code(value: u8) -> (r: Event)
        ensures
            r == spec_event_from(value),
    {
        let v = value & 0x7f;
        if v == 2 {
            Event::KeyPress
        } else if v == 3 {
            Event::KeyRelease
        } else if v == 4 {
            Event::ButtonPress
        } else if v == 5 {
            Event::ButtonRelease
        } else if v == 6 {
            Event::MotionNotify
        } else if v == 7 {
            Event::EnterNotify
        } else if v == 8 {
            Event::LeaveNotify
        } else if v == 9 {
            Event::FocusIn
        } else if v == 10 {
            Event::FocusOut
        } else if v == 11 {
            Event::KeyMapNotify
        } else if v == 12 {
            Event::Expose
        } else if v == 13 {
            Event::GraphicsExposure
        } else if v == 14 {
            Event::NoExposure
        } else if v == 15 {
            Event::VisibilityNotify
        } else if v == 16 {
            Event::CreateNotify
        } else if v == 17 {
            Event::DestroyNotify
        } else if v == 18 {
            Event::UnmapNotify
        } else if v == 19 {
            Event::MapNotify
        } else if v == 20 {
            Event::MapRequest
        } else if v == 21 {
            Event::ReparentNotify
        } else if v == 22 {
            Event::ConfigureNotify
        } else if v == 23 {
            Event::ConfigureRequest
        } else if v == 24 {
            Event::GravityNotify
        } else if v == 25 {
            Event::ResizeRequest
        } else if v == 26 {
            Event::CirculateNotify
        } else if v == 27 {
            Event::CirculateRequest
        } else if v == 28 {
            Event::PropertyNotify
        } else if v == 29 {
            Event::SelectionClear
        } else if v == 30 {
            Event::SelectionRequest
        } else if v == 31 {
            Event::SelectionNotify
        } else if v == 32 {
            Event::ColorMapNotify
        } else if v == 33 {
            Event::ClientMessage
        } else if v == 34 {
            Event::MappingNotify
        } else {
            Event::Invalid
        }
    }
}

/// The mouse events the manager listens for. `Click` is a synchronous
/// grab of button one on the root window, with any modifiers; the loop
/// must release the pointer before dispatching.
#[derive(Clone, Copy, PartialEq, Eq, Structural, Debug)]
pub enum MouseEvent {
    Click,
}

/// A client message the manager understands; everything else maps to
/// `NotSupported` and is ignored.
#[derive(Clone, Copy, PartialEq, Eq, Structural, Debug)]
pub enum ClientMessage {
    /// An unsupported client message.
    NotSupported,
    /// Ask the manager to view another virtual desktop
    /// (`_NET_CURRENT_DESKTOP`).
    ViewDesktop,
    /// Ask the manager to change a client's state (`_NET_WM_STATE`).
    ChangeState,
}

/// The message kind named by a type atom.
pub open spec fn spec_client_message_from(atoms: AtomTable, type_atom: u32) -> ClientMessage {
    if type_atom == atoms.current_desktop {
        ClientMessage::ViewDesktop
    } else if type_atom == atoms.wm_state {
        ClientMessage::ChangeState
    } else {
        ClientMessage::NotSupported
    }
}

impl ClientMessage {
    /// Classifies a client message by its type atom.
    pub fn from_atom(atoms: &AtomTable, type_atom: u32) -> (r: ClientMessage)
        ensures
            r == spec_client_message_from(*atoms, type_atom),
    {
        if type_atom == atoms.current_desktop {
            ClientMessage::ViewDesktop
        } else if type_atom == atoms.wm_state {
            ClientMessage::ChangeState
        } else {
            ClientMessage::NotSupported
        }
    }
}

} // verus!
