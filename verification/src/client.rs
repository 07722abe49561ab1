//! A managed top-level X window: its identity, geometry, types, states,
//! allowed actions and ICCCM protocols, together with the construction rule
//! that classifies docks.

pub mod action;
pub mod geometry;
pub mod kind;
pub mod state;

use vstd::prelude::*;

pub use crate::client::action::ClientAction;
pub use crate::client::geometry::{ClientGeometry, Paddings};
pub use crate::client::kind::ClientType;
pub use crate::client::state::ClientState;

use crate::client::action::actions_after_allow_all;
use crate::client::action::lemma_allow_all_no_duplicates;
use crate::requests::{is_set_allowed_actions, XRequest};

verus! {

/// The window ID of a client is never zero; zero is the "no client" marker.
pub type ClientID = u32;

/// The plain values that the manager reads, best-effort, from a window when
/// it first appears: the ICCCM class and name, the process id, the strut
/// reservation, the supported protocol atoms and the advertised types.
#[derive(Clone, Debug)]
pub struct WindowAttributes {
    pub wm_class: Option<String>,
    pub wm_name: Option<String>,
    pub wm_pid: Option<u32>,
    pub strut: Paddings,
    pub protocols: Vec<u32>,
    pub types: Vec<ClientType>,
}

impl WindowAttributes {
    /// Attributes of a window that answered none of the queries.
    pub fn empty() -> (r: WindowAttributes)
        ensures
            r.wm_class is None,
            r.wm_name is None,
            r.wm_pid is None,
            r.strut == (Paddings { top: 0u32, bottom: 0u32, left: 0u32, right: 0u32 }),
            r.protocols@ == Seq::<u32>::empty(),
            r.types@ == Seq::<ClientType>::empty(),
    {
        WindowAttributes {
            wm_class: None,
            wm_name: None,
            wm_pid: None,
            strut: Paddings::zero(),
            protocols: Vec::new(),
            types: Vec::new(),
        }
    }
}

/// A type list whose preferable (first) entry is Dock.
pub open spec fn spec_types_dock(ts: Seq<ClientType>) -> bool {
    ts.len() > 0 && ts[0] == ClientType::Dock
}

/// A managed top-level X window.
#[derive(Clone, Debug)]
pub struct Client {
    /// The window ID handed out by the server; never zero.
    pub id: ClientID,
    /// The `_NET_WM_PID` of the client, if it advertises one.
    pub wm_pid: Option<u32>,
    /// The ICCCM `WM_CLASS` of the client.
    pub wm_class: Option<String>,
    /// The ICCCM `WM_NAME` of the client.
    pub wm_name: Option<String>,
    /// Current position, size, border and strut paddings.
    pub geo: ClientGeometry,
    /// True iff the manager may move and resize the window.
    pub is_controlled: bool,
    /// Advertised window types, most preferable first.
    pub types: Vec<ClientType>,
    /// The stored `_NET_WM_STATE` states, oldest first; the last one wins
    /// when the manager draws. `Tile` is the implicit empty state and is
    /// never stored.
    pub states: Vec<ClientState>,
    /// The advertised `_NET_WM_ALLOWED_ACTIONS`, without duplicates.
    pub allowed_actions: Vec<ClientAction>,
    /// The ICCCM protocol atoms the client supports.
    pub protocols: Vec<u32>,
}

impl Client {
    /// A well-formed client: a real window ID, duplicate-free state and
    /// action lists, and no explicit `Tile` entry.
    pub open spec fn wf(self) -> bool {
        &&& self.id != 0
        &&& self.states@.no_duplicates()
        &&& !self.states@.contains(ClientState::Tile)
        &&& self.allowed_actions@.no_duplicates()
    }

    /// The client's preferable type is Dock.
    pub open spec fn spec_is_dock(self) -> bool {
        spec_types_dock(self.types@)
    }

    /// The client's type, `Normal` when none was advertised.
    pub open spec fn spec_type(self) -> ClientType {
        if self.types@.len() > 0 {
            self.types@[0]
        } else {
            ClientType::Normal
        }
    }
}

/// The two clients agree on every field but the state list.
pub open spec fn eq_except_states(a: Client, b: Client) -> bool {
    &&& a.id == b.id
    &&& a.wm_pid == b.wm_pid
    &&& a.wm_class == b.wm_class
    &&& a.wm_name == b.wm_name
    &&& a.geo == b.geo
    &&& a.is_controlled == b.is_controlled
    &&& a.types == b.types
    &&& a.allowed_actions == b.allowed_actions
    &&& a.protocols == b.protocols
}

/// The two clients agree on every field but the allowed-action list.
pub open spec fn eq_except_actions(a: Client, b: Client) -> bool {
    &&& a.id == b.id
    &&& a.wm_pid == b.wm_pid
    &&& a.wm_class == b.wm_class
    &&& a.wm_name == b.wm_name
    &&& a.geo == b.geo
    &&& a.is_controlled == b.is_controlled
    &&& a.types == b.types
    &&& a.states == b.states
    &&& a.protocols == b.protocols
}

/// The two clients agree on every field but the geometry.
pub open spec fn eq_except_geo(a: Client, b: Client) -> bool {
    &&& a.id == b.id
    &&& a.wm_pid == b.wm_pid
    &&& a.wm_class == b.wm_class
    &&& a.wm_name == b.wm_name
    &&& a.is_controlled == b.is_controlled
    &&& a.types == b.types
    &&& a.states == b.states
    &&& a.allowed_actions == b.allowed_actions
    &&& a.protocols == b.protocols
}

impl Client {
    /// Builds the client for a newly mapped window from its queried
    /// attributes. Every client may be closed; a window whose preferable
    /// type is Dock is left uncontrolled and becomes sticky, any other
    /// window is controlled and is offered the full action set.
    pub fn new(id: ClientID, attrs: WindowAttributes, out: &mut Vec<XRequest>) -> (c: Client)
        requires
            id != 0,
            attrs.types@.no_duplicates(),
        ensures
            c.wf(),
            c.id == id,
            c.wm_pid == attrs.wm_pid,
            c.wm_class == attrs.wm_class,
            c.wm_name == attrs.wm_name,
            c.geo == (ClientGeometry {
                x: 0u32,
                y: 0u32,
                w: 0u32,
                h: 0u32,
                border: 0u32,
                paddings: attrs.strut,
            }),
            c.types@ == attrs.types@,
            c.protocols@ == attrs.protocols@,
            c.spec_is_dock() == spec_types_dock(attrs.types@),
            spec_types_dock(attrs.types@) ==> {
                &&& !c.is_controlled
                &&& c.states@ == seq![ClientState::Sticky]
                &&& c.allowed_actions@ == seq![ClientAction::Close]
            },
            !spec_types_dock(attrs.types@) ==> {
                &&& c.is_controlled
                &&& c.states@ == Seq::<ClientState>::empty()
                &&& c.allowed_actions@ == seq![
                    ClientAction::Close,
                    ClientAction::Maximize,
                    ClientAction::Fullscreen,
                    ClientAction::ChangeTag,
                    ClientAction::Resize,
                    ClientAction::Move,
                ]
            },
            final (out)@.len() == old(out)@.len() + 2,
            final (out)@.take(old(out)@.len() as int) == old(out)@,
            is_set_allowed_actions(
                final (out)@[old(out)@.len() as int],
                id,
                seq![ClientAction::Close],
            ),
            spec_types_dock(attrs.types@) ==> final (out)@.last() == (XRequest::AppendWmState {
                window: id,
                state: ClientState::Sticky,
            }),
            !spec_types_dock(attrs.types@) ==> is_set_allowed_actions(
                final (out)@.last(),
                id,
                seq![
                    ClientAction::Close,
                    ClientAction::Maximize,
                    ClientAction::Fullscreen,
                    ClientAction::ChangeTag,
                    ClientAction::Resize,
                    ClientAction::Move,
                ],
            ),
    {
        let is_dock: bool = attrs.types.len() > 0 && attrs.types[0] == ClientType::Dock;
        let mut c = Client {
            id,
            wm_pid: attrs.wm_pid,
            wm_class: attrs.wm_class,
            wm_name: attrs.wm_name,
            geo: ClientGeometry {
                x: 0,
                y: 0,
                w: 0,
                h: 0,
                border: 0,
                paddings: attrs.strut,
            },
            is_controlled: false,
            types: attrs.types,
            states: Vec::new(),
            allowed_actions: Vec::new(),
            protocols: attrs.protocols,
        };

        c.allow_action(ClientAction::Close, out);

        if is_dock {
            c.add_state(ClientState::Sticky, out);
        } else {
            c.is_controlled = true;
            let more: Vec<ClientAction> = vec![
                ClientAction::Maximize,
                ClientAction::Fullscreen,
                ClientAction::ChangeTag,
                ClientAction::Resize,
                ClientAction::Move,
            ];
            proof {
                lemma_allow_all_no_duplicates(seq![ClientAction::Close], more@);
                assert(actions_after_allow_all(seq![ClientAction::Close], more@) =~= seq![
                    ClientAction::Close,
                    ClientAction::Maximize,
                    ClientAction::Fullscreen,
                    ClientAction::ChangeTag,
                    ClientAction::Resize,
                    ClientAction::Move,
                ]) by {
                    reveal_with_fuel(actions_after_allow_all, 7);
                }
            }
            c.allow_actions(more, out);
        }

        c
    }

    /// True iff the manager may move and resize the window.
    pub fn is_controlled(&self) -> (r: bool)
        ensures
            r == self.is_controlled,
    {
        self.is_controlled
    }

    /// A client is visible unless it carries the Hidden state.
    pub fn is_visible(&self) -> (r: bool)
        ensures
            r == !self.states@.contains(ClientState::Hidden),
    {
        !self.has_state(&ClientState::Hidden)
    }

    /// Records the strut reservation the client asked for.
    pub fn set_paddings(&mut self, top: u32, bottom: u32, left: u32, right: u32)
        ensures
            eq_except_geo(*old(self), *final (self)),
            final (self).geo == (ClientGeometry {
                paddings: Paddings { top, bottom, left, right },
                ..old(self).geo
            }),
    {
        self.geo.paddings = Paddings { top, bottom, left, right };
    }

    /// Marks the client as a dock: uncontrolled, with Dock as its only type.
    pub fn set_docker(&mut self)
        ensures
            final (self).types@ == seq![ClientType::Dock],
            !final (self).is_controlled,
            final (self).states == old(self).states,
            final (self).id == old(self).id,
            final (self).geo == old(self).geo,
            final (self).allowed_actions == old(self).allowed_actions,
            final (self).protocols == old(self).protocols,
            final (self).wm_pid == old(self).wm_pid,
            final (self).wm_class == old(self).wm_class,
            final (self).wm_name == old(self).wm_name,
    {
        self.set_type(ClientType::Dock);
    }

    /// Withdraws the manager's control over the window.
    pub fn remove_controll(&mut self)
        ensures
            *final (self) == (Client { is_controlled: false, ..*old(self) }),
    {
        self.is_controlled = false;
    }

    /// True iff the client advertises the protocol atom.
    pub fn has_protocol(&self, atom: u32) -> (r: bool)
        ensures
            r == self.protocols@.contains(atom),
    {
        let mut i: usize = 0;
        while i < self.protocols.len()
            invariant
                0 <= i <= self.protocols@.len(),
                forall|k: int| 0 <= k < i ==> self.protocols@[k] != atom,
            decreases self.protocols@.len() - i,
        {
            if self.protocols[i] == atom {
                return true;
            }
            i = i + 1;
        }
        false
    }

    /// Decides how to close the client: politely through a
    /// `WM_DELETE_WINDOW` message when the client supports that protocol,
    /// else with a KillClient request. The polite path is not retried;
    /// destruction is confirmed by the later DestroyNotify event.
    pub fn kill(&self, wm_delete_window: u32, out: &mut Vec<XRequest>)
        ensures
            self.protocols@.contains(wm_delete_window) ==> final (out)@ == old(out)@.push(
                XRequest::SendDeleteWindow(self.id),
            ),
            !self.protocols@.contains(wm_delete_window) ==> final (out)@ == old(out)@.push(
                XRequest::KillClient(self.id),
            ),
    {
        if self.has_protocol(wm_delete_window) {
            out.push(XRequest::SendDeleteWindow(self.id));
        } else {
            out.push(XRequest::KillClient(self.id));
        }
    }
}

} // verus!
