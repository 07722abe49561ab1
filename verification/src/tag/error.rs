//! The tag-level error kind.

use vstd::prelude::*;

verus! {

/// A failure of a lookup against the tag list.
#[derive(Clone, Copy, PartialEq, Eq, Structural, Debug)]
pub enum TagErr {
    NotFound(u32),
}

impl TagErr {
    /// A human-readable description of the error.
    pub fn message(&self) -> String {
        match self {
            TagErr::NotFound(id) => format_not_found(*id),
        }
    }
}

/// Relies on the format macro of std to render the tag id as decimal digits.
#[verifier::external_body]
fn format_not_found(id: u32) -> String {
    format!("Tag[{}] not found.", id)
}

} // verus!
