//! The EWMH window types a client may advertise, and the type queries on a
//! client. The first type in a client's list is the most preferable one.

use vstd::prelude::*;

use crate::client::Client;

verus! {

/// An EWMH `_NET_WM_WINDOW_TYPE` value the manager understands.
#[derive(Clone, Copy, PartialEq, Eq, Structural, Debug)]
pub enum ClientType {
    Normal,
    Dock,
    Dialog,
    Splash,
}

impl Client {
    /// The client's most preferable type: the first of its type list.
    pub fn preferable_type(&self) -> (r: Option<ClientType>)
        ensures
            self.types@.len() == 0 ==> r is None,
            self.types@.len() > 0 ==> r == Some(self.types@[0]),
    {
        if self.types.len() > 0 {
            Some(self.types[0])
        } else {
            None
        }
    }

    /// The client's type, with `Normal` standing in when none was advertised.
    pub fn get_type(&self) -> (r: ClientType)
        ensures
            r == self.spec_type(),
    {
        if self.types.len() > 0 {
            self.types[0]
        } else {
            ClientType::Normal
        }
    }

    /// Replaces the client's type list with the single type `t`. A dock is
    /// never controlled by the manager.
    pub fn set_type(&mut self, t: ClientType)
        ensures
            final (self).types@ == seq![t],
            final (self).is_controlled == (if t == ClientType::Dock {
                false
            } else {
                old(self).is_controlled
            }),
            final (self).id == old(self).id,
            final (self).wm_pid == old(self).wm_pid,
            final (self).wm_class == old(self).wm_class,
            final (self).wm_name == old(self).wm_name,
            final (self).geo == old(self).geo,
            final (self).states == old(self).states,
            final (self).allowed_actions == old(self).allowed_actions,
            final (self).protocols == old(self).protocols,
    {
        self.types = vec![t];
        if t == ClientType::Dock {
            self.is_controlled = false;
        }
    }
}

} // verus!
