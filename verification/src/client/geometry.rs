//! Pixel geometry of a managed window, and the four-sided padding record
//! used both for a client's strut reservation and for a tag's aggregate.

use vstd::prelude::*;

verus! {

/// Pixels reserved at each screen edge.
#[derive(Clone, Copy, PartialEq, Eq, Structural, Debug)]
pub struct Paddings {
    pub top: u32,
    pub bottom: u32,
    pub left: u32,
    pub right: u32,
}

/// The pointwise maximum of two padding records.
pub open spec fn spec_pad_max(a: Paddings, b: Paddings) -> Paddings {
    Paddings {
        top: if a.top >= b.top {
            a.top
        } else {
            b.top
        },
        bottom: if a.bottom >= b.bottom {
            a.bottom
        } else {
            b.bottom
        },
        left: if a.left >= b.left {
            a.left
        } else {
            b.left
        },
        right: if a.right >= b.right {
            a.right
        } else {
            b.right
        },
    }
}

impl Paddings {
    /// A record with no reservation on any side.
    pub fn zero() -> (r: Paddings)
        ensures
            r == (Paddings { top: 0u32, bottom: 0u32, left: 0u32, right: 0u32 }),
    {
        Paddings { top: 0, bottom: 0, left: 0, right: 0 }
    }

    /// The pointwise maximum of `self` and `o`.
    pub fn merged_with(&self, o: &Paddings) -> (r: Paddings)
        ensures
            r == spec_pad_max(*self, *o),
    {
        Paddings {
            top: if self.top >= o.top {
                self.top
            } else {
                o.top
            },
            bottom: if self.bottom >= o.bottom {
                self.bottom
            } else {
                o.bottom
            },
            left: if self.left >= o.left {
                self.left
            } else {
                o.left
            },
            right: if self.right >= o.right {
                self.right
            } else {
                o.right
            },
        }
    }
}

/// Position, size, border width and strut paddings of one client window.
#[derive(Clone, Copy, PartialEq, Eq, Structural, Debug)]
pub struct ClientGeometry {
    pub x: u32,
    pub y: u32,
    pub w: u32,
    pub h: u32,
    pub border: u32,
    pub paddings: Paddings,
}

impl ClientGeometry {
    /// Everything zeroed: the geometry a client holds before its first arrange.
    pub fn zero() -> (r: ClientGeometry)
        ensures
            r == spec_zero_geometry(),
    {
        ClientGeometry { x: 0, y: 0, w: 0, h: 0, border: 0, paddings: Paddings::zero() }
    }
}

/// The all-zero client geometry.
pub open spec fn spec_zero_geometry() -> ClientGeometry {
    ClientGeometry {
        x: 0u32,
        y: 0u32,
        w: 0u32,
        h: 0u32,
        border: 0u32,
        paddings: Paddings { top: 0u32, bottom: 0u32, left: 0u32, right: 0u32 },
    }
}

} // verus!
