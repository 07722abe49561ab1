//! Process-wide settings, established once at startup and never mutated at
//! runtime: border width and colors, the useless gap, and the tag aliases.

use vstd::prelude::*;

verus! {

/// Border settings: width in pixels and the two 24-bit RGB colors used for
/// the focused and the unfocused clients.
#[derive(Clone, Copy, PartialEq, Eq, Structural, Debug)]
pub struct ConfigBorder {
    pub width: u32,
    pub color_active: u32,
    pub color_normal: u32,
}

/// The window manager's configuration record.
#[derive(Clone, Debug)]
pub struct Config {
    /// Pixels of empty space kept between tiled clients.
    pub useless_gap: u32,
    pub border: ConfigBorder,
    /// Aliases of the normal tags, in order; one virtual desktop per entry.
    pub tags: Vec<String>,
}

impl Default for Config {
    /// Zero gap, zero-width black borders, and no tag aliases.
    fn default() -> (r: Config)
        ensures
            r.useless_gap == 0,
            r.border == (ConfigBorder { width: 0, color_active: 0, color_normal: 0 }),
            r.tags@ == Seq::<String>::empty(),
    {
        Config {
            useless_gap: 0,
            border: ConfigBorder { width: 0, color_active: 0, color_normal: 0 },
            tags: Vec::new(),
        }
    }
}

} // verus!
