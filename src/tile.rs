//! Packed tile keys: a resolution level and a tile's column and row in one
//! 32-bit value.

use vstd::prelude::*;

verus! {

/// Pixels per degree of latitude or longitude.
pub const DEG_PIXELS: usize = 32;

/// Number of resolution levels, 0 the coarsest.
pub const NUM_LEVELS: usize = 6;

/// The packed key of a tile: `(level mod 8) << 28 | (y mod 2^14) << 14 | (x mod 2^14)`,
/// written with arithmetic.
pub open spec fn pack_key(level: int, x: int, y: int) -> int {
    (level % 8) * 0x1000_0000 + (y % 0x4000) * 0x4000 + (x % 0x4000)
}

/// The address of a tile within one resolution level.
#[derive(Debug, Clone, Copy, PartialEq, Eq, Structural)]
pub struct TileKey(pub u32);

impl TileKey {
    /// Packs a level, a tile column and a tile row into a key.
    pub fn new(size: u8, x: u16, y: u16) -> (r: TileKey)
        ensures
            r.0 == pack_key(size as int, x as int, y as int),
    {
        let size = size as u32;
        let x = x as u32;
        let y = y as u32;
        TileKey((size % 8) * 0x1000_0000 + (y % 0x4000) * 0x4000 + (x % 0x4000))
    }
}

} // verus!
