//! The X requests that the core decides to issue. The library never talks to
//! the server: every mutating operation appends the requests it wants
//! performed to an output vector, in the order they must reach the server,
//! and the surrounding binary translates each value into the matching
//! protocol call.

use vstd::prelude::*;

use crate::client::{ClientAction, ClientState};

verus! {

/// One request to the X server, as plain data.
#[derive(Clone, Debug)]
pub enum XRequest {
    /// Map (show) the window.
    MapWindow(u32),
    /// Unmap (hide) the window.
    UnmapWindow(u32),
    /// Set the window's border pixel attribute to the color.
    SetBorderColor { window: u32, color: u32 },
    /// Give the window the keyboard input focus.
    SetInputFocus(u32),
    /// Return the input focus to the root/pointer so the keyboard stays live.
    DisableInputFocus,
    /// Configure the window's absolute position, size and border width.
    Configure { window: u32, x: u32, y: u32, width: u32, height: u32, border: u32 },
    /// Configure only the fields named by the mask in each pair.
    ConfigureMasked { window: u32, values: Vec<(u16, u32)> },
    /// Append one state's atom(s) to the window's `_NET_WM_STATE` property.
    AppendWmState { window: u32, state: ClientState },
    /// Rewrite the window's `_NET_WM_STATE` property from scratch.
    ReplaceWmState { window: u32, states: Vec<ClientState> },
    /// Rewrite the window's `_NET_WM_ALLOWED_ACTIONS` property.
    SetAllowedActions { window: u32, actions: Vec<ClientAction> },
    /// Write the window's `_NET_WM_DESKTOP` property.
    SetWindowDesktop { window: u32, desktop: u32 },
    /// Write `_NET_CURRENT_DESKTOP` on the root window.
    SetCurrentDesktop(u32),
    /// Write `_NET_CLIENT_LIST` on the root window.
    SetClientList(Vec<u32>),
    /// Write `_NET_NUMBER_OF_DESKTOPS` on the root window.
    SetNumberOfDesktops(u32),
    /// Write `_NET_DESKTOP_NAMES` on the root window.
    SetDesktopNames(Vec<String>),
    /// Ask the client politely to close, via a `WM_DELETE_WINDOW` message.
    SendDeleteWindow(u32),
    /// Sever the client's connection with a KillClient request.
    KillClient(u32),
}

/// The request rewrites `_NET_WM_STATE` of `window` to exactly `states`.
pub open spec fn is_replace_wm_state(r: XRequest, w: u32, ss: Seq<ClientState>) -> bool {
    &&& r matches XRequest::ReplaceWmState { window, states }
    &&& window == w
    &&& states@ == ss
}

/// The request rewrites `_NET_WM_ALLOWED_ACTIONS` of `window` to exactly `actions`.
pub open spec fn is_set_allowed_actions(r: XRequest, w: u32, acts: Seq<ClientAction>) -> bool {
    &&& r matches XRequest::SetAllowedActions { window, actions }
    &&& window == w
    &&& actions@ == acts
}

/// The request rewrites `_NET_CLIENT_LIST` to exactly `ids`.
pub open spec fn is_set_client_list(r: XRequest, ids: Seq<u32>) -> bool {
    &&& r matches XRequest::SetClientList(list)
    &&& list@ == ids
}

/// The request configures `window` with exactly the masked `values`.
pub open spec fn is_configure_masked(r: XRequest, w: u32, vs: Seq<(u16, u32)>) -> bool {
    &&& r matches XRequest::ConfigureMasked { window, values }
    &&& window == w
    &&& values@ == vs
}

/// The request writes the desktop-name list `names`.
pub open spec fn is_set_desktop_names(r: XRequest, names: Seq<Seq<char>>) -> bool {
    &&& r matches XRequest::SetDesktopNames(list)
    &&& list@.map_values(|s: String| s@) == names
}

} // verus!
