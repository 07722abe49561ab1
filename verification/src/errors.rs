//! The window manager's error taxonomy. Handlers return these; the event
//! loop logs and discards them, it never crashes.

use vstd::prelude::*;

verus! {

/// Everything that can go wrong inside the window-management core.
#[derive(Clone, Debug)]
pub enum Error {
    /// A free-form error, used for OS-level and configuration-level failures.
    Custom(String),
    /// A lookup against the tag list failed.
    TagNotFound(u32),
    /// A lookup within a tag failed.
    ClientNotFound(u32),
    /// A state mutation received an unknown add/remove/toggle selector.
    InvalidOperation,
}

/// Relies on u32's Display impl: renders the value as decimal digits.
#[verifier::external_body]
fn u32_to_string(v: u32) -> String {
    format!("{}", v)
}

impl Error {
    /// A human-readable description of the error.
    pub fn message(&self) -> (r: String)
        ensures
            self matches Error::Custom(e) ==> r@ == e@,
    {
        match self {
            Error::Custom(e) => e.clone(),
            Error::TagNotFound(id) => String::from_str("Tag with ID ").concat(
                u32_to_string(*id).concat(" not found.").as_str(),
            ),
            Error::ClientNotFound(id) => String::from_str("Client with ID ").concat(
                u32_to_string(*id).concat(" not found.").as_str(),
            ),
            Error::InvalidOperation => String::from_str("Invalid operation"),
        }
    }
}

} // verus!
