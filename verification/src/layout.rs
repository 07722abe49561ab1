//! Layouts compute the rectangle of each tileable client. The one concrete
//! layout is `tile`: a master column on the left half, the remaining
//! clients stacked vertically on the right half.

pub mod tile;

use vstd::prelude::*;

pub use crate::layout::tile::LayoutTile;

use crate::tag::TagGeometry;

verus! {

/// The capability a layout offers: the rectangle `(x, y, w, h)` of the
/// tileable client at position `j` among `n`, inside the geometry, honoring
/// the useless gap and the border width.
pub trait Layout {
    fn tile_rectangle(
        &self,
        geometry: &TagGeometry,
        useless_gap: u32,
        border: u32,
        n: usize,
        j: usize,
    ) -> (u32, u32, u32, u32)
        requires
            n >= 2,
            j < n,
    ;
}

} // verus!
