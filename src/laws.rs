//! Properties of lookups that hold for every index.

use vstd::prelude::*;
use crate::index::{
    leaf_refs_valid, bit_set, clamp_pixel, find_tile, key_at, local_index, opt_view, resolve, TzSearch, ZoneModel,
    GRID_HEIGHT, GRID_WIDTH, OCEAN_INDEX,
};

verus! {

/// A lookup is a function of the index and the pixel: two lookups of the
/// same pixel in the same index give the same result.
pub proof fn lemma_lookup_deterministic(
    s: &TzSearch,
    x: int,
    y: int,
    r1: Option<String>,
    r2: Option<String>,
)
    requires
        opt_view(r1) == s.pixel_zone(clamp_pixel(x, GRID_WIDTH as int), clamp_pixel(y, GRID_HEIGHT as int)),
        opt_view(r2) == s.pixel_zone(clamp_pixel(x, GRID_WIDTH as int), clamp_pixel(y, GRID_HEIGHT as int)),
    ensures
        opt_view(r1) == opt_view(r2),
{
}

/// Coordinates at the edges of the map stay on the grid: every coordinate
/// is held inside it, one on the far edge (longitude 180, latitude -90) goes
/// to the last column or row, and one inside is kept.
pub proof fn lemma_boundary_clamping(v: int, lim: int)
    requires
        lim > 0,
    ensures
        0 <= clamp_pixel(v, lim) < lim,
        v == lim ==> clamp_pixel(v, lim) == lim - 1,
        0 <= v < lim ==> clamp_pixel(v, lim) == v,
{
}

/// A level that has the pixel's tile decides the result, also where its
/// leaf gives no zone; the next coarser level is searched only where the
/// tile is absent.
pub proof fn lemma_finer_tile_shadows(s: &TzSearch, level: int, x: int, y: int)
    requires
        0 <= level,
    ensures
        find_tile(s.level_tiles(level), key_at(level as nat, x, y)) matches Some(i) ==> s.search_from(level, x, y)
            == s.resolve_leaf(i as int, x, y),
        find_tile(s.level_tiles(level), key_at(level as nat, x, y)) is None ==> s.search_from(level, x, y)
            == s.search_from(level - 1, x, y),
{
}

/// A one-bit tile sends pixel `(x, y)` to its second leaf exactly where bit
/// `(y mod 8) * 8 + (x mod 8)` of its mask is set, and a pixmap reads its
/// cell at that row-major position.
pub proof fn lemma_row_major_selection(leaves: Seq<ZoneModel>, i: int, x: int, y: int, fuel: nat)
    requires
        0 <= i < leaves.len(),
        fuel > 0,
        0 <= x,
        0 <= y,
    ensures
        local_index(x, y) == (y % 8) * 8 + (x % 8),
        0 <= local_index(x, y) < 64,
        leaves[i] matches ZoneModel::OneBitTile(a, b, bits) ==> resolve(leaves, i, x, y, fuel) == resolve(
            leaves,
            (if bit_set(bits, (y % 8) * 8 + (x % 8)) { b } else { a }) as int,
            x,
            y,
            (fuel - 1) as nat,
        ),
        leaves[i] matches ZoneModel::Pixmap(g) ==> (g[(y % 8) * 8 + (x % 8)] != OCEAN_INDEX ==> resolve(
            leaves,
            i,
            x,
            y,
            fuel,
        ) == resolve(leaves, g[(y % 8) * 8 + (x % 8)] as int, x, y, (fuel - 1) as nat)),
{
}

/// A pixmap cell that holds the ocean index gives no zone, whatever the
/// other cells and leaves hold.
pub proof fn lemma_ocean_cell(leaves: Seq<ZoneModel>, i: int, x: int, y: int, fuel: nat)
    requires
        0 <= i < leaves.len(),
        fuel > 0,
        leaves[i] matches ZoneModel::Pixmap(g) && g[local_index(x, y)] == OCEAN_INDEX,
    ensures
        resolve(leaves, i, x, y, fuel) is None,
{
}

/// In an index, the ocean cell of a pixmap leaf gives no zone for the pixel.
pub proof fn lemma_ocean_leaf(s: &TzSearch, i: int, x: int, y: int)
    requires
        0 <= i < s.leaves_model().len(),
        s.leaves_model()[i] matches ZoneModel::Pixmap(g) && g[local_index(x, y)] == OCEAN_INDEX,
    ensures
        s.resolve_leaf(i, x, y) is None,
{
    lemma_ocean_cell(s.leaves_model(), i, x, y, s.leaves_model().len());
}

/// Every leaf that `z` refers to has a depth below `r`.
pub open spec fn children_ranked(z: ZoneModel, rank: Seq<nat>, r: nat) -> bool {
    match z {
        ZoneModel::StaticZone(_) => true,
        ZoneModel::OneBitTile(a, b, _) => a < rank.len() && b < rank.len() && rank[a as int] < r
            && rank[b as int] < r,
        ZoneModel::Pixmap(g) => forall|k: int|
            0 <= k < g.len() ==> (#[trigger] g[k]) == OCEAN_INDEX || (g[k] < rank.len() && rank[g[k] as int]
                < r),
    }
}

/// `rank` gives each leaf a depth greater than that of each leaf it refers
/// to; a store with such a ranking has no cycle.
pub open spec fn ranked(leaves: Seq<ZoneModel>, rank: Seq<nat>) -> bool {
    &&& rank.len() == leaves.len()
    &&& forall|i: int| 0 <= i < leaves.len() ==> children_ranked(#[trigger] leaves[i], rank, rank[i])
}

proof fn lemma_enough_fuel(leaves: Seq<ZoneModel>, rank: Seq<nat>, i: int, x: int, y: int, f1: nat, f2: nat)
    requires
        ranked(leaves, rank),
        forall|j: int| 0 <= j < leaves.len() ==> leaf_refs_valid(#[trigger] leaves[j], leaves.len() as int),
        0 <= i < leaves.len(),
        f1 > rank[i],
        f2 > rank[i],
        x >= 0,
        y >= 0,
    ensures
        resolve(leaves, i, x, y, f1) == resolve(leaves, i, x, y, f2),
    decreases rank[i],
{
    assert(leaf_refs_valid(leaves[i], leaves.len() as int));
    assert(children_ranked(leaves[i], rank, rank[i]));
    let l = local_index(x, y);
    assert(0 <= l < 64);
    match leaves[i] {
        ZoneModel::StaticZone(_) => {},
        ZoneModel::OneBitTile(a, b, bits) => {
            let next = if bit_set(bits, l) {
                b
            } else {
                a
            };
            lemma_enough_fuel(leaves, rank, next as int, x, y, (f1 - 1) as nat, (f2 - 1) as nat);
        },
        ZoneModel::Pixmap(g) => {
            let c = g[l];
            if c != OCEAN_INDEX {
                lemma_enough_fuel(leaves, rank, c as int, x, y, (f1 - 1) as nat, (f2 - 1) as nat);
            }
        },
    }
}

/// In an index whose leaves have a ranking with every depth below the
/// number of leaves (so no chain of leaves has a cycle), the hop bound of a
/// lookup never cuts a chain short: any larger bound gives the same zone.
pub proof fn lemma_hop_bound_suffices(s: &TzSearch, rank: Seq<nat>, i: int, x: int, y: int, fuel: nat)
    requires
        s.wf(),
        ranked(s.leaves_model(), rank),
        forall|j: int| 0 <= j < rank.len() ==> #[trigger] rank[j] < rank.len(),
        0 <= i < s.leaves_model().len(),
        fuel >= s.leaves_model().len(),
        x >= 0,
        y >= 0,
    ensures
        resolve(s.leaves_model(), i, x, y, fuel) == s.resolve_leaf(i, x, y),
{
    s.lemma_wf_leaves();
    assert(rank[i] < rank.len());
    lemma_enough_fuel(s.leaves_model(), rank, i, x, y, fuel, s.leaves_model().len());
}

} // verus!
