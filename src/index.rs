//! The index: zoom levels of sorted tile tables, the leaf store, and the
//! search that resolves a pixel to a zone name.

use vstd::prelude::*;
use crate::tile::{pack_key, TileKey, NUM_LEVELS, DEG_PIXELS};

verus! {

/// Leaf index that a pixmap pixel holds where there is no zone (the ocean).
pub const OCEAN_INDEX: u16 = 0xFFFF;

/// One record of the leaf store.
#[derive(Debug)]
pub enum Zone {
    /// The whole area lies in this zone.
    StaticZone(String),
    /// An 8x8 sub-tile split between two leaves: the bit `y * 8 + x` of the
    /// mask is set where pixel `(x, y)` takes the second.
    OneBitTile(u16, u16, u64),
    /// An 8x8 sub-tile with a leaf index for each pixel, row-major.
    Pixmap(Vec<u16>),
}

/// The mathematical value of a leaf.
pub enum ZoneModel {
    StaticZone(Seq<char>),
    OneBitTile(u16, u16, u64),
    Pixmap(Seq<u16>),
}

impl View for Zone {
    type V = ZoneModel;

    open spec fn view(&self) -> ZoneModel {
        match self {
            Zone::StaticZone(s) => ZoneModel::StaticZone(s@),
            Zone::OneBitTile(a, b, bits) => ZoneModel::OneBitTile(*a, *b, *bits),
            Zone::Pixmap(g) => ZoneModel::Pixmap(g@),
        }
    }
}

/// One entry of a zoom level: a tile and the leaf that describes it.
#[derive(Debug)]
pub struct TileLooker {
    pub tile: TileKey,
    pub idx: u16,
}

/// The tiles of one resolution level, ascending by key.
#[derive(Debug)]
pub struct ZoomLevel {
    pub tiles: Vec<TileLooker>,
}

/// All the information needed for timezone lookups.
#[derive(Debug)]
pub struct TzSearch {
    pub(crate) leaves: Vec<Zone>,
    pub(crate) zoom_levels: Vec<ZoomLevel>,
}

/// Position of pixel `(x, y)` within its 8x8 sub-tile, row-major.
pub open spec fn local_index(x: int, y: int) -> int {
    (y % 8) * 8 + (x % 8)
}

/// Whether bit `i` of `bits` is set.
pub open spec fn bit_set(bits: u64, i: int) -> bool {
    (bits >> (i as u64)) & 1 == 1
}

/// The zone that leaf `i` gives pixel `(x, y)`, following at most `fuel`
/// leaves; `None` for the ocean, and where the chain does not end in time or
/// leaves the store.
pub open spec fn resolve(leaves: Seq<ZoneModel>, i: int, x: int, y: int, fuel: nat) -> Option<
    Seq<char>,
>
    decreases fuel,
{
    if fuel == 0 || !(0 <= i < leaves.len()) {
        None
    } else {
        match leaves[i] {
            ZoneModel::StaticZone(name) => Some(name),
            ZoneModel::OneBitTile(a, b, bits) => {
                let next = if bit_set(bits, local_index(x, y)) {
                    b
                } else {
                    a
                };
                resolve(leaves, next as int, x, y, (fuel - 1) as nat)
            },
            ZoneModel::Pixmap(grid) => {
                let c = grid[local_index(x, y)];
                if c == OCEAN_INDEX {
                    None
                } else {
                    resolve(leaves, c as int, x, y, (fuel - 1) as nat)
                }
            },
        }
    }
}

/// Side of a tile at `level`, in pixels.
pub open spec fn tile_side(level: nat) -> nat
    decreases level,
{
    if level == 0 {
        8
    } else {
        2 * tile_side((level - 1) as nat)
    }
}

/// The key of the tile at `level` that holds pixel `(x, y)`.
pub open spec fn key_at(level: nat, x: int, y: int) -> int {
    pack_key(level as int, (x / tile_side(level) as int) % 0x4000, (y / tile_side(level) as int) % 0x4000)
}

/// The leaf that the tile with `key` points to, if the table has that tile.
pub open spec fn find_tile(tiles: Seq<TileLooker>, key: int) -> Option<u16> {
    if exists|i: int| 0 <= i < tiles.len() && tiles[i].tile.0 == key {
        Some(tiles[choose|i: int| 0 <= i < tiles.len() && tiles[i].tile.0 == key].idx)
    } else {
        None
    }
}

/// Keys strictly ascending.
pub open spec fn tiles_sorted(tiles: Seq<TileLooker>) -> bool {
    forall|i: int, j: int| 0 <= i < j < tiles.len() ==> tiles[i].tile.0 < tiles[j].tile.0
}

/// A leaf index that a leaf refers to is in the store.
pub open spec fn leaf_refs_valid(z: ZoneModel, n: int) -> bool {
    match z {
        ZoneModel::StaticZone(_) => true,
        ZoneModel::OneBitTile(a, b, _) => a < n && b < n,
        ZoneModel::Pixmap(g) => g.len() == 64 && forall|k: int|
            0 <= k < 64 ==> g[k] == OCEAN_INDEX || g[k] < n,
    }
}

/// Every level's keys strictly ascending.
pub open spec fn levels_sorted(levels: Seq<Seq<TileLooker>>) -> bool {
    forall|l: int| 0 <= l < levels.len() ==> tiles_sorted(#[trigger] levels[l])
}

/// Every leaf index that a tile or a leaf holds is in the store.
pub open spec fn refs_valid(levels: Seq<Seq<TileLooker>>, leaves: Seq<ZoneModel>) -> bool {
    &&& forall|l: int, t: int|
        0 <= l < levels.len() && 0 <= t < levels[l].len() ==> (#[trigger] levels[l][t]).idx
            < leaves.len()
    &&& forall|i: int| 0 <= i < leaves.len() ==> leaf_refs_valid(#[trigger] leaves[i], leaves.len() as int)
}

/// The string views of an optional name.
pub open spec fn opt_view(r: Option<String>) -> Option<Seq<char>> {
    match r {
        Some(s) => Some(s@),
        None => None,
    }
}

impl TzSearch {
    /// The leaf store.
    pub closed spec fn leaves_model(&self) -> Seq<ZoneModel> {
        self.leaves@.map_values(|z: Zone| z@)
    }

    /// The tiles of resolution `level`.
    pub closed spec fn level_tiles(&self, level: int) -> Seq<TileLooker> {
        self.levels_model()[level]
    }

    /// The tiles of every level.
    pub closed spec fn levels_model(&self) -> Seq<Seq<TileLooker>> {
        self.zoom_levels@.map_values(|z: ZoomLevel| z.tiles@)
    }

    /// The levels and the leaves form a valid index.
    pub closed spec fn wf(&self) -> bool {
        &&& self.zoom_levels@.len() == NUM_LEVELS
        &&& levels_sorted(self.levels_model())
        &&& refs_valid(self.levels_model(), self.leaves_model())
    }

    /// A valid index has six levels with ascending keys, and every leaf
    /// index in it is in the store.
    pub proof fn lemma_wf_leaves(&self)
        requires
            self.wf(),
        ensures
            refs_valid(self.levels_model(), self.leaves_model()),
            levels_sorted(self.levels_model()),
            self.levels_model().len() == NUM_LEVELS,
    {
    }

    /// Builds an index from levels and leaves that form a valid one.
    pub(crate) fn from_parts(zoom_levels: Vec<ZoomLevel>, leaves: Vec<Zone>) -> (r: TzSearch)
        requires
            zoom_levels@.len() == NUM_LEVELS,
            levels_sorted(zoom_levels@.map_values(|z: ZoomLevel| z.tiles@)),
            refs_valid(
                zoom_levels@.map_values(|z: ZoomLevel| z.tiles@),
                leaves@.map_values(|z: Zone| z@),
            ),
        ensures
            r.wf(),
            r.levels_model() == zoom_levels@.map_values(|z: ZoomLevel| z.tiles@),
            r.leaves_model() == leaves@.map_values(|z: Zone| z@),
    {
        TzSearch { leaves, zoom_levels }
    }

    /// What leaf `i` gives pixel `(x, y)`, with one hop for each leaf in the store.
    pub open spec fn resolve_leaf(&self, i: int, x: int, y: int) -> Option<Seq<char>> {
        resolve(self.leaves_model(), i, x, y, self.leaves_model().len())
    }

    /// Searching the levels from `level` down to 0: the first level that has
    /// the pixel's tile decides, also where its leaf gives no zone.
    pub open spec fn search_from(&self, level: int, x: int, y: int) -> Option<Seq<char>>
        decreases level + 1,
    {
        if level < 0 {
            None
        } else {
            match find_tile(self.level_tiles(level), key_at(level as nat, x, y)) {
                Some(i) => self.resolve_leaf(i as int, x, y),
                None => self.search_from(level - 1, x, y),
            }
        }
    }

    /// The zone of pixel `(x, y)`.
    pub open spec fn pixel_zone(&self, x: int, y: int) -> Option<Seq<char>> {
        self.search_from(NUM_LEVELS - 1, x, y)
    }

    /// Follows the chain of leaves from leaf `start` for pixel `(x, y)`.
    /// A chain that visits more leaves than the store holds has a cycle; it
    /// gives `None`.
    pub fn zone_lookup(&self, start: u16, x: usize, y: usize) -> (r: Option<String>)
        requires
            self.wf(),
        ensures
            opt_view(r) == self.resolve_leaf(start as int, x as int, y as int),
    {
        let ghost leaves = self.leaves_model();
        let ghost total = self.leaves_model().len();
        let mut idx: usize = start as usize;
        let mut fuel: usize = self.leaves.len();
        let local: usize = (y % 8) * 8 + (x % 8);
        loop
            invariant
                leaves == self.leaves_model(),
                total == self.leaves_model().len(),
                total == self.leaves@.len(),
                local == local_index(x as int, y as int),
                fuel <= total,
                self.wf(),
                resolve(leaves, start as int, x as int, y as int, total) == resolve(
                    leaves,
                    idx as int,
                    x as int,
                    y as int,
                    fuel as nat,
                ),
            decreases fuel,
        {
            if fuel == 0 || idx >= self.leaves.len() {
                return None;
            }
            proof {
                assert(leaf_refs_valid(leaves[idx as int], total as int));
            }
            match &self.leaves[idx] {
                Zone::StaticZone(s) => {
                    return Some(s.clone());
                },
                Zone::OneBitTile(a, b, bits) => {
                    let set = (*bits >> (local as u64)) & 1 == 1;
                    idx = if set {
                        *b as usize
                    } else {
                        *a as usize
                    };
                },
                Zone::Pixmap(grid) => {
                    if local >= grid.len() {
                        return None;
                    }
                    let c = grid[local];
                    if c == OCEAN_INDEX {
                        return None;
                    }
                    idx = c as usize;
                },
            }
            fuel = fuel - 1;
        }
    }
}


impl TzSearch {
    /// Looks up tile `tk` in the table of resolution `level`: `None` where the
    /// table does not have it, else what its leaf gives pixel `(x, y)`.
    pub fn zoom_level_lookup(&self, level: usize, x: usize, y: usize, tk: TileKey) -> (r: Option<
        Option<String>,
    >)
        requires
            self.wf(),
            level < NUM_LEVELS,
        ensures
            match find_tile(self.level_tiles(level as int), tk.0 as int) {
                None => r is None,
                Some(i) => r is Some && opt_view(r->0) == self.resolve_leaf(i as int, x as int, y as int),
            },
    {
        let tiles = &self.zoom_levels[level].tiles;
        assert(tiles_sorted(self.levels_model()[level as int]));
        let mut lo: usize = 0;
        let mut hi: usize = tiles.len();
        while lo < hi
            invariant
                tiles@ == self.level_tiles(level as int),
                tiles_sorted(tiles@),
                lo <= hi <= tiles@.len(),
                forall|i: int| 0 <= i < lo ==> tiles@[i].tile.0 < tk.0,
                forall|i: int| hi <= i < tiles@.len() ==> tiles@[i].tile.0 >= tk.0,
            decreases hi - lo,
        {
            let mid = lo + (hi - lo) / 2;
            if tiles[mid].tile.0 < tk.0 {
                lo = mid + 1;
            } else {
                hi = mid;
            }
        }
        if lo < tiles.len() && tiles[lo].tile.0 == tk.0 {
            let ghost j = choose|i: int| 0 <= i < tiles@.len() && tiles@[i].tile.0 == tk.0;
            assert(j == lo as int) by {
                if j < lo as int {
                } else if j > lo as int {
                }
            }
            Some(self.zone_lookup(tiles[lo].idx, x, y))
        } else {
            assert forall|i: int| 0 <= i < tiles@.len() implies tiles@[i].tile.0 != tk.0 by {
                if i > lo as int {
                    assert(tiles@[lo as int].tile.0 < tiles@[i].tile.0);
                }
            }
            None
        }
    }

    /// The zone of pixel `(x, y)`: the levels are searched from the finest
    /// down, and the first that has the pixel's tile decides.
    pub fn lookup_pixel(&self, x: usize, y: usize) -> (r: Option<String>)
        requires
            self.wf(),
        ensures
            opt_view(r) == self.pixel_zone(x as int, y as int),
    {
        let mut level: usize = NUM_LEVELS;
        let mut side: usize = 256;
        proof {
            reveal_with_fuel(tile_side, 7);
        }
        while level > 0
            invariant
                self.wf(),
                level <= NUM_LEVELS,
                level > 0 ==> side == tile_side((level - 1) as nat),
                self.pixel_zone(x as int, y as int) == self.search_from(level - 1, x as int, y as int),
            decreases level,
        {
            let l = level - 1;
            proof {
                reveal_with_fuel(tile_side, 7);
            }
            let xt = (x / side) % 0x4000;
            let yt = (y / side) % 0x4000;
            let tk = TileKey::new(l as u8, xt as u16, yt as u16);
            match self.zoom_level_lookup(l, x, y, tk) {
                Some(ret) => {
                    return ret;
                },
                None => {},
            }
            level = l;
            side = side / 2;
        }
        None
    }
}

/// Columns of the pixel grid: 360 degrees of longitude.
pub const GRID_WIDTH: usize = 360 * DEG_PIXELS;

/// Rows of the pixel grid: 180 degrees of latitude.
pub const GRID_HEIGHT: usize = 180 * DEG_PIXELS;

/// A pixel coordinate held to `[0, lim)`.
pub open spec fn clamp_pixel(v: int, lim: int) -> int {
    if v < 0 {
        0
    } else if v >= lim {
        lim - 1
    } else {
        v
    }
}

/// Holds a pixel coordinate to `[0, lim)`.
pub fn clamp(v: i64, lim: usize) -> (r: usize)
    requires
        lim > 0,
    ensures
        r == clamp_pixel(v as int, lim as int),
        r < lim,
{
    if v < 0 {
        0
    } else if v as u64 >= lim as u64 {
        lim - 1
    } else {
        v as usize
    }
}

impl TzSearch {
    /// The zone of the grid pixel nearest to `(x, y)`, where `x` counts
    /// pixels east of longitude -180 and `y` pixels south of latitude 90.
    pub fn lookup_grid(&self, x: i64, y: i64) -> (r: Option<String>)
        requires
            self.wf(),
        ensures
            opt_view(r) == self.pixel_zone(
                clamp_pixel(x as int, GRID_WIDTH as int),
                clamp_pixel(y as int, GRID_HEIGHT as int),
            ),
    {
        let px = clamp(x, GRID_WIDTH);
        let py = clamp(y, GRID_HEIGHT);
        self.lookup_pixel(px, py)
    }
}

} // verus!
