//! Timezone lookup for points on the Earth, over a compact multi-resolution
//! raster index.
//!
//! The index holds six zoom levels of tiles, each a sorted table from packed
//! tile keys to leaf indices, and a flat store of leaves. A leaf names a zone,
//! splits an 8x8 sub-tile between two other leaves by one bit per pixel, or
//! gives each of its 64 pixels a leaf of its own (or the ocean).

mod tile;
mod index;
mod decode;
mod packed;
mod laws;

pub use tile::{pack_key, TileKey, DEG_PIXELS, NUM_LEVELS};
pub use index::{
    clamp, Zone, ZoneModel, TileLooker, ZoomLevel, TzSearch, GRID_HEIGHT, GRID_WIDTH, OCEAN_INDEX,
};
pub use decode::{parse_leaf, parse_leaves, parse_zoom_level, LoadError, TAG_ONE_BIT, TAG_PIXMAP, TAG_STATIC};
pub use laws::{
    lemma_boundary_clamping, lemma_finer_tile_shadows, lemma_lookup_deterministic, lemma_ocean_cell,
    lemma_ocean_leaf, lemma_row_major_selection, lemma_hop_bound_suffices, ranked, children_ranked,
};
