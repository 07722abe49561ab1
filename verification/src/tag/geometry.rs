//! The geometry of a tag: total screen size, the four aggregated paddings,
//! and the area left for content once the paddings are subtracted.

use vstd::prelude::*;

use crate::client::Paddings;
use crate::util::spec_sat_sub;

verus! {

/// The drawable geometry of one tag. `w` and `h` are the total screen
/// dimensions; `avail_w` and `avail_h` are what remains once the paddings
/// are subtracted (floored at zero). Fullscreen clients use the total size,
/// everything else the available one.
#[derive(Clone, Copy, PartialEq, Eq, Structural, Debug)]
pub struct TagGeometry {
    /// Total width of the tag.
    pub w: u32,
    /// Total height of the tag.
    pub h: u32,
    /// Width available for content: total width minus left and right padding.
    pub avail_w: u32,
    /// Height available for content: total height minus top and bottom padding.
    pub avail_h: u32,
    /// Aggregated padding on each side.
    pub paddings: Paddings,
}

/// The geometry determined by dimensions and paddings: the available area
/// is the total minus the paddings, floored at zero.
pub open spec fn spec_tag_geometry(w: u32, h: u32, p: Paddings) -> TagGeometry {
    TagGeometry {
        w,
        h,
        avail_w: spec_sat_sub(w as int, p.left + p.right) as u32,
        avail_h: spec_sat_sub(h as int, p.top + p.bottom) as u32,
        paddings: p,
    }
}

impl TagGeometry {
    /// Creates the geometry with the given dimensions and paddings.
    pub fn new(w: u32, h: u32, paddings: Paddings) -> (r: TagGeometry)
        ensures
            r == spec_tag_geometry(w, h, paddings),
    {
        let avail_w: u32 = crate::util::sat_sub(w, paddings.left as u64 + paddings.right as u64);
        let avail_h: u32 = crate::util::sat_sub(h, paddings.top as u64 + paddings.bottom as u64);
        TagGeometry { w, h, avail_w, avail_h, paddings }
    }

    /// The aggregated top padding.
    pub fn padding_top(&self) -> (r: u32)
        ensures
            r == self.paddings.top,
    {
        self.paddings.top
    }

    /// The aggregated bottom padding.
    pub fn padding_bottom(&self) -> (r: u32)
        ensures
            r == self.paddings.bottom,
    {
        self.paddings.bottom
    }

    /// The aggregated left padding.
    pub fn padding_left(&self) -> (r: u32)
        ensures
            r == self.paddings.left,
    {
        self.paddings.left
    }

    /// The aggregated right padding.
    pub fn padding_right(&self) -> (r: u32)
        ensures
            r == self.paddings.right,
    {
        self.paddings.right
    }
}

} // verus!
