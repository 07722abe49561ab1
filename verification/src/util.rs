//! Modifier-mask constants, the state-change operation selector, and the
//! saturating arithmetic helpers that the layout engine builds on.

use vstd::prelude::*;

verus! {

/// X modifier mask for the Shift key.
pub const MODKEY_SHIFT: u16 = 1;
/// X modifier mask for the Lock key.
pub const MODKEY_LOCK: u16 = 2;
/// X modifier mask for the Control key.
pub const MODKEY_CONTROL: u16 = 4;
/// X modifier mask for Mod1 (usually Alt).
pub const MODKEY_1: u16 = 8;
/// X modifier mask for Mod2.
pub const MODKEY_2: u16 = 16;
/// X modifier mask for Mod3.
pub const MODKEY_3: u16 = 32;
/// X modifier mask for Mod4 (usually Super).
pub const MODKEY_4: u16 = 64;
/// X modifier mask matching any modifier combination.
pub const MODKEY_ANY: u16 = 32768;

/// Selector carried by a `_NET_WM_STATE` client message: how the named state
/// is to be changed.
#[derive(Clone, Copy, PartialEq, Eq, Structural, Debug)]
pub enum Operation {
    Add,
    Remove,
    Toggle,
    Unknown,
}

impl Operation {
    /// The EWMH `_NET_WM_STATE` action codes: 0 removes, 1 adds, 2 toggles.
    pub fn from_u32(v: u32) -> (r: Operation)
        ensures
            r == spec_operation_from(v),
    {
        if v == 0 {
            Operation::Remove
        } else if v == 1 {
            Operation::Add
        } else if v == 2 {
            Operation::Toggle
        } else {
            Operation::Unknown
        }
    }
}

pub open spec fn spec_operation_from(v: u32) -> Operation {
    if v == 0 {
        Operation::Remove
    } else if v == 1 {
        Operation::Add
    } else if v == 2 {
        Operation::Toggle
    } else {
        Operation::Unknown
    }
}

/// The target index in a cyclic sequence of length `s` after a relative walk
/// of `i` positions. `None` when the sequence has fewer than two entries, or
/// when a negative walk reaches past the front of the sequence.
pub open spec fn spec_cycle_idx(s: int, i: int) -> Option<int> {
    if s <= 1 {
        None
    } else if i >= 0 {
        Some(i % s)
    } else if i + s >= 0 {
        Some(i + s)
    } else {
        None
    }
}

/// Walks `i` positions through a cyclic sequence of length `s`: non-negative
/// walks wrap with a remainder, a negative walk counts backward from the end.
pub fn cycle_idx(s: usize, i: i32) -> (r: Option<usize>)
    ensures
        r matches Some(v) ==> spec_cycle_idx(s as int, i as int) == Some(v as int),
        r is None ==> spec_cycle_idx(s as int, i as int) is None,
{
    if s <= 1 {
        None
    } else if i >= 0 {
        Some((i as usize) % s)
    } else {
        let d: usize = (-(i as i64)) as usize;
        if d <= s {
            Some(s - d)
        } else {
            None
        }
    }
}

/// `a - b` floored at zero.
pub open spec fn spec_sat_sub(a: int, b: int) -> int {
    if a >= b {
        a - b
    } else {
        0
    }
}

/// `v` capped at the largest 32-bit value.
pub open spec fn spec_cap32(v: int) -> int {
    if v > 0xFFFF_FFFF {
        0xFFFF_FFFF
    } else {
        v
    }
}

/// `v` raised to at least one.
pub open spec fn spec_min1(v: int) -> int {
    if v < 1 {
        1
    } else {
        v
    }
}

/// Subtracts a (possibly wide) margin from a dimension, flooring at zero.
pub fn sat_sub(a: u32, b: u64) -> (r: u32)
    ensures
        r == spec_sat_sub(a as int, b as int),
{
    if (a as u64) >= b {
        (a as u64 - b) as u32
    } else {
        0
    }
}

/// Adds two coordinates, capping at the largest 32-bit value.
pub fn cap_add(a: u64, b: u64) -> (r: u32)
    ensures
        r == spec_cap32(a as int + b as int),
{
    if a <= 0xFFFF_FFFF && b <= 0xFFFF_FFFF {
        let s: u64 = a + b;
        if s > 0xFFFF_FFFF {
            0xFFFF_FFFFu32
        } else {
            s as u32
        }
    } else {
        0xFFFF_FFFFu32
    }
}

/// Raises a coordinate to at least one.
pub fn min1(v: u32) -> (r: u32)
    ensures
        r == spec_min1(v as int),
{
    if v < 1 {
        1
    } else {
        v
    }
}

/// The 32-bit two's-complement image of a signed 16-bit coordinate: the
/// value itself when non-negative, else the value plus 2^32.
pub open spec fn spec_sign_extend_i16(v: i16) -> int {
    if v >= 0 {
        v as int
    } else {
        v + 0x1_0000_0000
    }
}

/// Widens a signed 16-bit coordinate to the 32-bit word the X protocol
/// carries, preserving the two's-complement bit pattern.
pub fn sign_extend_i16(v: i16) -> (r: u32)
    ensures
        r == spec_sign_extend_i16(v),
{
    if v >= 0 {
        v as u32
    } else {
        ((v as i64) + 0x1_0000_0000i64) as u32
    }
}

/// The mathematical remainder of `a` modulo `n`, non-negative for `n > 0`.
pub open spec fn spec_emod(a: int, n: int) -> int
    recommends
        n > 0,
{
    a % n
}

/// The index reached from `anchor` after a cyclic walk of `delta` positions
/// in a sequence of length `n`.
pub fn cyclic_target(n: usize, anchor: usize, delta: i32) -> (r: usize)
    requires
        n > 0,
        anchor < n,
    ensures
        r == spec_emod(anchor + delta, n as int),
        r < n,
{
    proof {
        vstd::arithmetic::div_mod::lemma_mod_bound(anchor as int + delta as int, n as int);
    }
    if delta >= 0 {
        let d: usize = ((delta as u64) % (n as u64)) as usize;
        proof {
            vstd::arithmetic::div_mod::lemma_add_mod_noop_right(
                anchor as int,
                delta as int,
                n as int,
            );
            vstd::arithmetic::div_mod::lemma_small_mod((anchor + d) as nat % (n as nat), n as nat);
            vstd::arithmetic::div_mod::lemma_mod_bound(anchor as int + d as int, n as int);
            if anchor + d >= n {
                vstd::arithmetic::div_mod::lemma_mod_sub_multiples_vanish(
                    anchor as int + d as int,
                    n as int,
                );
                vstd::arithmetic::div_mod::lemma_small_mod((anchor + d - n) as nat, n as nat);
            } else {
                vstd::arithmetic::div_mod::lemma_small_mod((anchor + d) as nat, n as nat);
            }
        }
        if anchor >= n - d {
            anchor - (n - d)
        } else {
            anchor + d
        }
    } else {
        let back: u64 = -(delta as i64) as u64;
        let d: usize = (back % (n as u64)) as usize;
        proof {
            vstd::arithmetic::div_mod::lemma_sub_mod_noop_right(
                anchor as int,
                -(delta as int),
                n as int,
            );
            if anchor >= d {
                vstd::arithmetic::div_mod::lemma_small_mod((anchor - d) as nat, n as nat);
            } else {
                vstd::arithmetic::div_mod::lemma_mod_add_multiples_vanish(
                    anchor as int - d as int,
                    n as int,
                );
                vstd::arithmetic::div_mod::lemma_small_mod((anchor + n - d) as nat, n as nat);
            }
        }
        if anchor >= d {
            anchor - d
        } else {
            anchor + (n - d)
        }
    }
}

} // verus!
