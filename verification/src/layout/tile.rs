//! The tile layout: one master client filling the left half, the remaining
//! clients stacked vertically on the right half. All arithmetic floors
//! empty differences at zero, caps sums at the 32-bit maximum, and keeps
//! coordinates at one or more, so every geometry is defined.
//!
//! ```text
//!  __________   __________
//! |  Master  | |  Window  |
//! |  window  | |          |
//! |          | |__________|
//! |          |  __________
//! |          | |  Window  |
//! |__________| |__________|
//! ```

use vstd::prelude::*;

use crate::layout::Layout;
use crate::tag::TagGeometry;
use crate::util::{
    cap_add, min1, sat_sub, spec_cap32, spec_min1, spec_sat_sub,
};

verus! {

/// The x coordinate of tile `j`: the master sits one gap from the left
/// edge, the stack starts one gap right of the middle of the available
/// width.
pub open spec fn spec_tile_x(avail_w: int, gap: int, j: int) -> int {
    if j == 0 {
        spec_min1(gap)
    } else {
        spec_min1(spec_cap32(avail_w / 2 + gap))
    }
}

/// The width of every tile: half the available width, minus the gap and
/// border on both sides.
pub open spec fn spec_tile_w(avail_w: int, gap: int, border: int) -> int {
    spec_sat_sub(avail_w / 2, 2 * gap + 2 * border)
}

/// The height of the slot tile `j` may use: the whole available height for
/// the master, an equal share of it for each of the `n - 1` stacked tiles.
pub open spec fn spec_slot_h(avail_h: int, n: int, j: int) -> int {
    if j == 0 {
        avail_h
    } else {
        avail_h / (n - 1)
    }
}

/// The y coordinate of tile `j`: its slot's offset below the top padding,
/// plus one gap.
pub open spec fn spec_tile_y(avail_h: int, pad_top: int, gap: int, n: int, j: int) -> int {
    if j == 0 {
        spec_min1(spec_cap32(pad_top + gap))
    } else {
        spec_min1(spec_cap32(spec_slot_h(avail_h, n, j) * (j - 1) + pad_top + gap))
    }
}

/// The height of tile `j`: its slot minus the gap and border adjustment.
/// The bottom-most stacked tile absorbs the full adjustment on both sides
/// so the stack closes flush with the available area.
pub open spec fn spec_tile_h(avail_h: int, gap: int, border: int, n: int, j: int) -> int {
    if j == 0 {
        spec_sat_sub(avail_h, 2 * border + 2 * gap)
    } else if j == n - 1 {
        spec_sat_sub(spec_slot_h(avail_h, n, j), 2 * border + 2 * gap)
    } else {
        spec_sat_sub(spec_slot_h(avail_h, n, j), border + gap)
    }
}

/// The tile layout.
#[derive(Clone, Copy, Debug)]
pub struct LayoutTile {}

impl LayoutTile {
    /// Creates the tile layout.
    pub fn new() -> (r: LayoutTile)
        ensures
            r == (LayoutTile {  }),
    {
        LayoutTile {  }
    }
}

/// `hpw * (j - 1) + pad_top + gap`, capped at the 32-bit maximum and
/// raised to at least one.
fn stack_y(hpw: u32, j: usize, pad_top: u32, gap: u32) -> (r: u32)
    requires
        j >= 1,
    ensures
        r as int == spec_min1(spec_cap32(hpw * (j - 1) + pad_top + gap)),
{
    let jm: u64 = (j - 1) as u64;
    let h64: u64 = hpw as u64;
    let prod: u64 = if jm == 0 {
        0
    } else if h64 > 0xFFFF_FFFFu64 / jm {
        proof {
            let q: int = (0xFFFF_FFFF as int) / (jm as int);
            assert(h64 >= q + 1);
            assert((q + 1) * jm > 0xFFFF_FFFF && h64 * jm >= (q + 1) * jm) by (nonlinear_arith)
                requires
                    h64 >= q + 1,
                    jm >= 1,
                    q == (0xFFFF_FFFF as int) / (jm as int),
            {
                vstd::arithmetic::div_mod::lemma_fundamental_div_mod(0xFFFF_FFFF as int, jm as int);
            }
            assert(spec_cap32(h64 * jm + pad_top + gap) == 0xFFFF_FFFF);
            assert(spec_cap32(0x1_0000_0000u64 + pad_top + gap) == 0xFFFF_FFFF);
        }
        0x1_0000_0000u64
    } else {
        proof {
            let q: int = (0xFFFF_FFFF as int) / (jm as int);
            assert(h64 * jm <= q * jm <= 0xFFFF_FFFF) by (nonlinear_arith)
                requires
                    0 <= h64 <= q,
                    jm >= 1,
                    q == (0xFFFF_FFFF as int) / (jm as int),
            {
                vstd::arithmetic::div_mod::lemma_fundamental_div_mod(0xFFFF_FFFF as int, jm as int);
            }
        }
        h64 * jm
    };
    let y = cap_add(prod, pad_top as u64 + gap as u64);
    proof {
        if jm != 0 && h64 > 0xFFFF_FFFFu64 / jm {
            assert(spec_cap32(prod + pad_top + gap) == spec_cap32(hpw * (j - 1) + pad_top + gap));
        }
    }
    min1(y)
}

impl Layout for LayoutTile {
    /// The rectangle of tile `j` among `n`, per the four spec functions of
    /// this module.
    fn tile_rectangle(
        &self,
        geometry: &TagGeometry,
        useless_gap: u32,
        border: u32,
        n: usize,
        j: usize,
    ) -> (r: (u32, u32, u32, u32))
        ensures
            r.0 as int == spec_tile_x(geometry.avail_w as int, useless_gap as int, j as int),
            r.1 as int == spec_tile_y(
                geometry.avail_h as int,
                geometry.paddings.top as int,
                useless_gap as int,
                n as int,
                j as int,
            ),
            r.2 as int == spec_tile_w(
                geometry.avail_w as int,
                useless_gap as int,
                border as int,
            ),
            r.3 as int == spec_tile_h(
                geometry.avail_h as int,
                useless_gap as int,
                border as int,
                n as int,
                j as int,
            ),
    {
        let gap = useless_gap;
        let w = sat_sub(geometry.avail_w / 2, 2 * (gap as u64) + 2 * (border as u64));
        if j == 0 {
            let x = min1(gap);
            let y = min1(cap_add(geometry.paddings.top as u64, gap as u64));
            let h = sat_sub(geometry.avail_h, 2 * (border as u64) + 2 * (gap as u64));
            (x, y, w, h)
        } else {
            let x = min1(cap_add((geometry.avail_w / 2) as u64, gap as u64));
            let hpw: u32 = ((geometry.avail_h as u64) / ((n - 1) as u64)) as u32;
            let y = stack_y(hpw, j, geometry.paddings.top, gap);
            let h = if j == n - 1 {
                sat_sub(hpw, 2 * (border as u64) + 2 * (gap as u64))
            } else {
                sat_sub(hpw, (border as u64) + (gap as u64))
            };
            (x, y, w, h)
        }
    }
}

} // verus!
