//! Decoding the index's tables from their raw bytes: zoom levels of fixed
//! 6-byte records, and a leaf store of tagged variable-length records.

use vstd::prelude::*;
use crate::index::{
    levels_sorted, refs_valid, tiles_sorted, leaf_refs_valid, TileLooker, TzSearch, Zone, ZoneModel,
    ZoomLevel, OCEAN_INDEX,
};
use crate::tile::{TileKey, NUM_LEVELS};

verus! {

/// Why the tables could not be loaded.
#[derive(Debug, Clone, Copy, PartialEq, Eq, Structural)]
pub enum LoadError {
    /// There are not exactly six zoom-level tables.
    WrongLevelCount,
    /// A zoom-level table's length is not a multiple of six.
    BadRecordLength,
    /// The leaf table ends inside a record.
    Truncated,
    /// A leaf record starts with an unknown tag.
    UnknownKind,
    /// A zone name is not UTF-8.
    BadName,
    /// A zoom level's keys are not strictly ascending.
    UnsortedTiles,
    /// A tile or a leaf refers to a leaf that is not in the store.
    BadIndex,
    /// A packed table is not valid base64.
    BadBase64,
    /// A packed table is not a valid gzip stream.
    BadGzip,
}

/// Tag of a zone-name leaf.
pub const TAG_STATIC: u8 = 0x53;
/// Tag of a one-bit split leaf.
pub const TAG_ONE_BIT: u8 = 0x32;
/// Tag of a pixmap leaf.
pub const TAG_PIXMAP: u8 = 0x50;

/// The big-endian 16-bit value at `p`.
pub open spec fn be_u16(b: Seq<u8>, p: int) -> int {
    b[p] * 0x100 + b[p + 1]
}

/// The big-endian 32-bit value at `p`.
pub open spec fn be_u32(b: Seq<u8>, p: int) -> int {
    be_u16(b, p) * 0x1_0000 + be_u16(b, p + 2)
}

/// The big-endian 64-bit value at `p`.
pub open spec fn be_u64(b: Seq<u8>, p: int) -> int {
    be_u32(b, p) * 0x1_0000_0000 + be_u32(b, p + 4)
}

fn read_u16(b: &[u8], p: usize) -> (r: u16)
    requires
        p + 2 <= b@.len(),
    ensures
        r == be_u16(b@, p as int),
{
    let _len = b.len();
    (b[p] as u16) * 0x100 + b[p + 1] as u16
}

fn read_u32(b: &[u8], p: usize) -> (r: u32)
    requires
        p + 4 <= b@.len(),
    ensures
        r == be_u32(b@, p as int),
{
    let _len = b.len();
    (read_u16(b, p) as u32) * 0x1_0000 + read_u16(b, p + 2) as u32
}

fn read_u64(b: &[u8], p: usize) -> (r: u64)
    requires
        p + 8 <= b@.len(),
    ensures
        r == be_u64(b@, p as int),
{
    let _len = b.len();
    (read_u32(b, p) as u64) * 0x1_0000_0000 + read_u32(b, p + 4) as u64
}

/// Record `k` of a zoom-level table.
pub open spec fn zoom_record(b: Seq<u8>, k: int) -> TileLooker {
    TileLooker { tile: TileKey(be_u32(b, 6 * k) as u32), idx: be_u16(b, 6 * k + 4) as u16 }
}

/// The records of a zoom-level table, where its length is a multiple of six.
pub open spec fn level_records(b: Seq<u8>) -> Option<Seq<TileLooker>> {
    if b.len() % 6 != 0 {
        None
    } else {
        Some(Seq::new((b.len() / 6) as nat, |k: int| zoom_record(b, k)))
    }
}

/// Decodes one zoom-level table.
pub fn parse_zoom_level(bytes: &[u8]) -> (r: Result<ZoomLevel, LoadError>)
    ensures
        match level_records(bytes@) {
            None => r == Err::<ZoomLevel, LoadError>(LoadError::BadRecordLength),
            Some(t) => r is Ok && r->Ok_0.tiles@ == t,
        },
{
    if bytes.len() % 6 != 0 {
        return Err(LoadError::BadRecordLength);
    }
    let count = bytes.len() / 6;
    let mut tiles: Vec<TileLooker> = Vec::with_capacity(count);
    let mut k: usize = 0;
    while k < count
        invariant
            count == bytes@.len() / 6,
            bytes@.len() % 6 == 0,
            bytes@.len() <= usize::MAX,
            k <= count,
            tiles@.len() == k,
            forall|j: int| 0 <= j < k ==> tiles@[j] == zoom_record(bytes@, j),
        decreases count - k,
    {
        assert(6 * k + 6 <= bytes@.len()) by (nonlinear_arith)
            requires
                k < count,
                count == bytes@.len() / 6,
        ;
        let p = 6 * k;
        let tile = TileKey(read_u32(bytes, p));
        let idx = read_u16(bytes, p + 4);
        tiles.push(TileLooker { tile, idx });
        k = k + 1;
    }
    assert(tiles@ =~= Seq::new(count as nat, |j: int| zoom_record(bytes@, j)));
    Ok(ZoomLevel { tiles })
}

/// Where the zone name that starts at `p` ends: at the first zero byte, or at
/// the end of the table.
pub open spec fn name_end(b: Seq<u8>, p: int) -> int
    decreases b.len() - p,
{
    if p >= b.len() {
        b.len() as int
    } else if b[p] == 0 {
        p
    } else {
        name_end(b, p + 1)
    }
}

/// The text that a byte sequence holds as UTF-8, if it is valid UTF-8.
pub uninterp spec fn utf8_text(b: Seq<u8>) -> Option<Seq<char>>;

/// Relies on `String::from_utf8`: the bytes as text where they are valid
/// UTF-8, else an error.
#[verifier::external_body]
fn utf8_string(bytes: Vec<u8>) -> (r: Option<String>)
    ensures
        match r {
            Some(s) => utf8_text(bytes@) == Some(s@),
            None => utf8_text(bytes@) is None,
        },
{
    String::from_utf8(bytes).ok()
}

/// The 64 cells of a pixmap whose cells start at `p`.
pub open spec fn pixmap_cells(b: Seq<u8>, p: int) -> Seq<u16> {
    Seq::new(64, |k: int| be_u16(b, p + 2 * k) as u16)
}

/// The leaf record at `p`, and where the next one starts.
pub open spec fn parse_leaf_model(b: Seq<u8>, p: int) -> Result<(ZoneModel, int), LoadError> {
    if !(0 <= p < b.len()) {
        Err(LoadError::Truncated)
    } else if b[p] == TAG_STATIC {
        let e = name_end(b, p + 1);
        let next = if e < b.len() {
            e + 1
        } else {
            e
        };
        match utf8_text(b.subrange(p + 1, e)) {
            Some(name) => Ok((ZoneModel::StaticZone(name), next)),
            None => Err(LoadError::BadName),
        }
    } else if b[p] == TAG_ONE_BIT {
        if p + 13 <= b.len() {
            Ok(
                (
                    ZoneModel::OneBitTile(
                        be_u16(b, p + 1) as u16,
                        be_u16(b, p + 3) as u16,
                        be_u64(b, p + 5) as u64,
                    ),
                    p + 13,
                ),
            )
        } else {
            Err(LoadError::Truncated)
        }
    } else if b[p] == TAG_PIXMAP {
        if p + 129 <= b.len() {
            Ok((ZoneModel::Pixmap(pixmap_cells(b, p + 1)), p + 129))
        } else {
            Err(LoadError::Truncated)
        }
    } else {
        Err(LoadError::UnknownKind)
    }
}

/// The `n` leaf records from `p` on, in order.
pub open spec fn parse_leaves_model(b: Seq<u8>, p: int, n: nat) -> Result<Seq<ZoneModel>, LoadError>
    decreases n,
{
    if n == 0 {
        Ok(Seq::empty())
    } else {
        match parse_leaf_model(b, p) {
            Err(e) => Err(e),
            Ok((z, q)) => match parse_leaves_model(b, q, (n - 1) as nat) {
                Err(e) => Err(e),
                Ok(rest) => Ok(seq![z] + rest),
            },
        }
    }
}

/// Decodes the leaf record at `p`, returning it and where the next one starts.
pub fn parse_leaf(b: &[u8], p: usize) -> (r: Result<(Zone, usize), LoadError>)
    ensures
        match parse_leaf_model(b@, p as int) {
            Ok((z, q)) => r is Ok && r->Ok_0.0@ == z && r->Ok_0.1 == q,
            Err(e) => r is Err && r->Err_0 == e,
        },
{
    let len = b.len();
    if p >= len {
        return Err(LoadError::Truncated);
    }
    let tag = b[p];
    if tag == TAG_STATIC {
        let start = p + 1;
        let mut e: usize = start;
        while e < len && b[e] != 0
            invariant
                len == b@.len(),
                start <= e <= len,
                name_end(b@, start as int) == name_end(b@, e as int),
            decreases len - e,
        {
            e = e + 1;
        }
        let mut name: Vec<u8> = Vec::new();
        let mut k: usize = start;
        while k < e
            invariant
                len == b@.len(),
                start <= k <= e <= len,
                name@ == b@.subrange(start as int, k as int),
            decreases e - k,
        {
            name.push(b[k]);
            k = k + 1;
            assert(name@ =~= b@.subrange(start as int, k as int));
        }
        let next = if e < len {
            e + 1
        } else {
            e
        };
        match utf8_string(name) {
            Some(s) => Ok((Zone::StaticZone(s), next)),
            None => Err(LoadError::BadName),
        }
    } else if tag == TAG_ONE_BIT {
        if len - p < 13 {
            return Err(LoadError::Truncated);
        }
        let a = read_u16(b, p + 1);
        let c = read_u16(b, p + 3);
        let bits = read_u64(b, p + 5);
        Ok((Zone::OneBitTile(a, c, bits), p + 13))
    } else if tag == TAG_PIXMAP {
        if len - p < 129 {
            return Err(LoadError::Truncated);
        }
        let mut grid: Vec<u16> = Vec::with_capacity(64);
        let mut k: usize = 0;
        while k < 64
            invariant
                len == b@.len(),
                p + 129 <= len,
                k <= 64,
                grid@.len() == k,
                forall|j: int| 0 <= j < k ==> grid@[j] == be_u16(b@, p + 1 + 2 * j) as u16,
            decreases 64 - k,
        {
            grid.push(read_u16(b, p + 1 + 2 * k));
            k = k + 1;
        }
        assert(grid@ =~= pixmap_cells(b@, p + 1));
        Ok((Zone::Pixmap(grid), p + 129))
    } else {
        Err(LoadError::UnknownKind)
    }
}

/// Decodes `n` leaf records from the start of the table, in order; bytes
/// after the last are ignored.
pub fn parse_leaves(b: &[u8], n: usize) -> (r: Result<Vec<Zone>, LoadError>)
    ensures
        match parse_leaves_model(b@, 0, n as nat) {
            Ok(zs) => r is Ok && r->Ok_0@.map_values(|z: Zone| z@) == zs,
            Err(e) => r is Err && r->Err_0 == e,
        },
{
    let mut leaves: Vec<Zone> = Vec::new();
    let mut p: usize = 0;
    let mut k: usize = 0;
    while k < n
        invariant
            k <= n,
            leaves@.len() == k,
            parse_leaves_model(b@, 0, n as nat) == match parse_leaves_model(
                b@,
                p as int,
                (n - k) as nat,
            ) {
                Ok(rest) => Ok(leaves@.map_values(|z: Zone| z@) + rest),
                Err(e) => Err(e),
            },
        decreases n - k,
    {
        match parse_leaf(b, p) {
            Ok((z, q)) => {
                let ghost zm = z@;
                let ghost old_leaves_model = leaves@.map_values(|z: Zone| z@);
                leaves.push(z);
                assert(leaves@.map_values(|z: Zone| z@) =~= old_leaves_model + seq![zm]);
                proof {
                    let m = (n - k) as nat;
                    assert(parse_leaf_model(b@, p as int) == Ok::<(ZoneModel, int), LoadError>((zm, q as int)));
                    match parse_leaves_model(b@, q as int, (m - 1) as nat) {
                        Ok(rest) => {
                            assert(old_leaves_model + (seq![zm] + rest) =~= (old_leaves_model + seq![zm]) + rest);
                        },
                        Err(_) => {},
                    }
                }
                p = q;
            },
            Err(e) => {
                return Err(e);
            },
        }
        k = k + 1;
    }
    assert(leaves@.map_values(|z: Zone| z@) + Seq::<ZoneModel>::empty() =~= leaves@.map_values(|z: Zone| z@));
    Ok(leaves)
}

/// The index that six zoom-level tables (coarsest first) and a leaf table
/// of `n` records describe, or the first fault found: the level count, then
/// each level's length, then the leaves in order, then key order, then leaf
/// indices.
pub open spec fn load_model(levels: Seq<Seq<u8>>, leaves: Seq<u8>, n: nat) -> Result<
    (Seq<Seq<TileLooker>>, Seq<ZoneModel>),
    LoadError,
> {
    if levels.len() != NUM_LEVELS {
        Err(LoadError::WrongLevelCount)
    } else if exists|l: int| 0 <= l < levels.len() && level_records(#[trigger] levels[l]) is None {
        Err(LoadError::BadRecordLength)
    } else {
        match parse_leaves_model(leaves, 0, n) {
            Err(e) => Err(e),
            Ok(zs) => {
                let ls = Seq::new(levels.len(), |l: int| level_records(levels[l])->0);
                if !levels_sorted(ls) {
                    Err(LoadError::UnsortedTiles)
                } else if !refs_valid(ls, zs) {
                    Err(LoadError::BadIndex)
                } else {
                    Ok((ls, zs))
                }
            },
        }
    }
}

/// Whether the keys of `tiles` are strictly ascending.
fn tiles_in_order(tiles: &Vec<TileLooker>) -> (r: bool)
    ensures
        r == tiles_sorted(tiles@),
{
    let mut k: usize = 1;
    if tiles.len() == 0 {
        return true;
    }
    while k < tiles.len()
        invariant
            1 <= k <= tiles@.len(),
            tiles_sorted(tiles@.subrange(0, k as int)),
        decreases tiles@.len() - k,
    {
        if tiles[k - 1].tile.0 >= tiles[k].tile.0 {
            assert(!tiles_sorted(tiles@) ) by {
                assert(0 <= k - 1 < k < tiles@.len());
            }
            return false;
        }
        assert(tiles_sorted(tiles@.subrange(0, k + 1))) by {
            assert forall|i: int, j: int| 0 <= i < j < k + 1 implies tiles@[i].tile.0 < tiles@[j].tile.0 by {
                if j < k {
                    assert(tiles@.subrange(0, k as int)[i] == tiles@[i]);
                    assert(tiles@.subrange(0, k as int)[j] == tiles@[j]);
                } else if i < k - 1 {
                    assert(tiles@.subrange(0, k as int)[i] == tiles@[i]);
                    assert(tiles@.subrange(0, k as int)[k - 1] == tiles@[k - 1]);
                }
            }
        }
        k = k + 1;
    }
    assert(tiles@.subrange(0, k as int) =~= tiles@);
    true
}

/// Whether every leaf index that a leaf holds is below `n`.
fn leaf_in_store(z: &Zone, n: usize) -> (r: bool)
    ensures
        r == leaf_refs_valid(z@, n as int),
{
    match z {
        Zone::StaticZone(_) => true,
        Zone::OneBitTile(a, b, _) => (*a as usize) < n && (*b as usize) < n,
        Zone::Pixmap(g) => {
            if g.len() != 64 {
                return false;
            }
            let mut k: usize = 0;
            while k < 64
                invariant
                    z@ == ZoneModel::Pixmap(g@),
                    g@.len() == 64,
                    k <= 64,
                    forall|j: int| 0 <= j < k ==> g@[j] == OCEAN_INDEX || g@[j] < n,
                decreases 64 - k,
            {
                if g[k] != OCEAN_INDEX && (g[k] as usize) >= n {
                    assert(!(g@[k as int] == OCEAN_INDEX || g@[k as int] < n));
                    return false;
                }
                k = k + 1;
            }
            true
        },
    }
}

/// Whether every leaf index that a tile or a leaf holds is in the store.
fn refs_in_store(levels: &Vec<ZoomLevel>, leaves: &Vec<Zone>) -> (r: bool)
    ensures
        r == refs_valid(
            levels@.map_values(|z: ZoomLevel| z.tiles@),
            leaves@.map_values(|z: Zone| z@),
        ),
{
    let ghost ls = levels@.map_values(|z: ZoomLevel| z.tiles@);
    let ghost zs = leaves@.map_values(|z: Zone| z@);
    let n = leaves.len();
    let mut l: usize = 0;
    while l < levels.len()
        invariant
            n == zs.len(),
            ls == levels@.map_values(|z: ZoomLevel| z.tiles@),
            zs == leaves@.map_values(|z: Zone| z@),
            l <= levels@.len(),
            forall|m: int, t: int| 0 <= m < l && 0 <= t < ls[m].len() ==> (#[trigger] ls[m][t]).idx < n,
        decreases levels@.len() - l,
    {
        let tiles = &levels[l].tiles;
        let mut t: usize = 0;
        while t < tiles.len()
            invariant
                n == zs.len(),
                ls == levels@.map_values(|z: ZoomLevel| z.tiles@),
                zs == leaves@.map_values(|z: Zone| z@),
                l < levels@.len(),
                tiles@ == ls[l as int],
                t <= tiles@.len(),
                forall|m: int, u: int| 0 <= m < l && 0 <= u < ls[m].len() ==> (#[trigger] ls[m][u]).idx < n,
                forall|u: int| 0 <= u < t ==> (#[trigger] tiles@[u]).idx < n,
            decreases tiles@.len() - t,
        {
            if (tiles[t].idx as usize) >= n {
                assert(ls.len() == levels@.len());
                assert(ls[l as int][t as int].idx >= zs.len());
                assert(!refs_valid(ls, zs));
                return false;
            }
            t = t + 1;
        }
        l = l + 1;
    }
    let mut i: usize = 0;
    while i < n
        invariant
            n == zs.len(),
            zs == leaves@.map_values(|z: Zone| z@),
            i <= n,
            forall|j: int| 0 <= j < i ==> leaf_refs_valid(#[trigger] zs[j], n as int),
        decreases n - i,
    {
        if !leaf_in_store(&leaves[i], n) {
            assert(!leaf_refs_valid(zs[i as int], n as int));
            assert(!refs_valid(levels@.map_values(|z: ZoomLevel| z.tiles@), zs));
            return false;
        }
        i = i + 1;
    }
    true
}

/// The byte views of a list of tables.
pub open spec fn tables_view(tables: Seq<Vec<u8>>) -> Seq<Seq<u8>> {
    tables.map_values(|v: Vec<u8>| v@)
}

impl TzSearch {
    /// Builds the index from six decoded zoom-level tables, coarsest first,
    /// and a decoded leaf table of `num_leaves` records.
    pub fn from_tables(levels: &Vec<Vec<u8>>, leaves: &[u8], num_leaves: usize) -> (r: Result<
        TzSearch,
        LoadError,
    >)
        ensures
            match load_model(tables_view(levels@), leaves@, num_leaves as nat) {
                Ok((ls, zs)) => r is Ok && r->Ok_0.wf() && r->Ok_0.levels_model() == ls
                    && r->Ok_0.leaves_model() == zs,
                Err(e) => r is Err && r->Err_0 == e,
            },
    {
        let ghost bs = tables_view(levels@);
        if levels.len() != NUM_LEVELS {
            return Err(LoadError::WrongLevelCount);
        }
        let mut zoom_levels: Vec<ZoomLevel> = Vec::new();
        let mut l: usize = 0;
        while l < levels.len()
            invariant
                bs == tables_view(levels@),
                levels@.len() == NUM_LEVELS,
                l <= levels@.len(),
                zoom_levels@.len() == l,
                forall|m: int| 0 <= m < l ==> level_records(#[trigger] bs[m]) is Some,
                forall|m: int| 0 <= m < l ==> level_records(bs[m])->0 == (#[trigger] zoom_levels@[m]).tiles@,
            decreases levels@.len() - l,
        {
            match parse_zoom_level(levels[l].as_slice()) {
                Ok(z) => {
                    assert(bs[l as int] == levels@[l as int]@);
                    zoom_levels.push(z);
                },
                Err(e) => {
                    assert(bs[l as int] == levels@[l as int]@);
                    assert(level_records(bs[l as int]) is None);
                    assert(0 <= l < bs.len() && level_records(bs[l as int]) is None);
                    return Err(e);
                },
            }
            l = l + 1;
        }
        let ghost ls = Seq::new(bs.len(), |m: int| level_records(bs[m])->0);
        assert(zoom_levels@.map_values(|z: ZoomLevel| z.tiles@) =~= ls);
        let store = match parse_leaves(leaves, num_leaves) {
            Ok(v) => v,
            Err(e) => {
                return Err(e);
            },
        };
        let mut sorted = true;
        let mut m: usize = 0;
        while m < zoom_levels.len()
            invariant
                ls == zoom_levels@.map_values(|z: ZoomLevel| z.tiles@),
                m <= zoom_levels@.len(),
                sorted == (forall|j: int| 0 <= j < m ==> tiles_sorted(#[trigger] ls[j])),
            decreases zoom_levels@.len() - m,
        {
            let ok = tiles_in_order(&zoom_levels[m].tiles);
            proof {
                if !ok {
                    assert(!tiles_sorted(ls[m as int]));
                }
            }
            sorted = sorted && ok;
            m = m + 1;
        }
        if !sorted {
            return Err(LoadError::UnsortedTiles);
        }
        if !refs_in_store(&zoom_levels, &store) {
            return Err(LoadError::BadIndex);
        }
        Ok(TzSearch::from_parts(zoom_levels, store))
    }
}

} // verus!
