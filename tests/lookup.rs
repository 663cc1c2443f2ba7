use std::io::Write;

use rustc_serialize::base64::{ToBase64, STANDARD};
use tz_search::{
    clamp, parse_leaf, parse_leaves, parse_zoom_level, LoadError, TileKey, TzSearch, Zone,
    GRID_HEIGHT, GRID_WIDTH, OCEAN_INDEX,
};

fn key(level: u8, x: u16, y: u16) -> u32 {
    TileKey::new(level, x, y).0
}

fn level_bytes(mut recs: Vec<(u32, u16)>) -> Vec<u8> {
    recs.sort();
    let mut out = Vec::new();
    for (k, idx) in recs {
        out.extend_from_slice(&k.to_be_bytes());
        out.extend_from_slice(&idx.to_be_bytes());
    }
    out
}

fn static_leaf(name: &str) -> Vec<u8> {
    let mut out = vec![b'S'];
    out.extend_from_slice(name.as_bytes());
    out.push(0);
    out
}

fn one_bit_leaf(a: u16, b: u16, bits: u64) -> Vec<u8> {
    let mut out = vec![b'2'];
    out.extend_from_slice(&a.to_be_bytes());
    out.extend_from_slice(&b.to_be_bytes());
    out.extend_from_slice(&bits.to_be_bytes());
    out
}

fn pixmap_leaf(cells: &[u16; 64]) -> Vec<u8> {
    let mut out = vec![b'P'];
    for c in cells.iter() {
        out.extend_from_slice(&c.to_be_bytes());
    }
    out
}

const NUM_FIXTURE_LEAVES: usize = 12;

/// Six zoom-level tables (coarsest first) and a leaf table laid out so that
/// each sample pixel meets a tile at a known level.
fn fixture() -> (Vec<Vec<u8>>, Vec<u8>) {
    let levels = vec![
        level_bytes(vec![(key(0, 1161, 66), 9), (key(0, 373, 206), 10)]),
        level_bytes(vec![(key(1, 250, 125), 8), (key(1, 182, 144), 8)]),
        level_bytes(vec![(key(2, 282, 77), 0)]),
        level_bytes(vec![(key(3, 143, 37), 0)]),
        level_bytes(vec![(key(4, 28, 14), 6)]),
        level_bytes(vec![(key(5, 6, 5), 7), (key(5, 15, 7), 11)]),
    ];
    let mut leaves = Vec::new();
    for name in [
        "Asia/Phnom_Penh",
        "Asia/Krasnoyarsk",
        "Asia/Yakutsk",
        "America/Indiana/Vincennes",
        "America/Indiana/Marengo",
        "America/Indiana/Tell_City",
        "Atlantic/Bermuda",
        "America/Los_Angeles",
        "America/Belize",
    ] {
        leaves.extend(static_leaf(name));
    }
    leaves.extend(one_bit_leaf(1, 2, 0xFFu64 << 24));
    let mut cells = [OCEAN_INDEX; 64];
    cells[49] = 3;
    cells[50] = 4;
    cells[58] = 5;
    leaves.extend(pixmap_leaf(&cells));
    leaves.extend(pixmap_leaf(&[OCEAN_INDEX; 64]));
    (levels, leaves)
}

fn fixture_search() -> TzSearch {
    let (levels, leaves) = fixture();
    TzSearch::from_tables(&levels, &leaves, NUM_FIXTURE_LEAVES).unwrap()
}

fn pack(raw: &[u8]) -> Vec<u8> {
    let mut enc = flate2::write::GzEncoder::new(Vec::new(), flate2::Compression::default());
    enc.write_all(raw).unwrap();
    enc.finish().unwrap().to_base64(STANDARD).into_bytes()
}

#[test]
fn loads_ok() {
    let (levels, leaves) = fixture();
    let packed: Vec<Vec<u8>> = levels.iter().map(|l| pack(l)).collect();
    let _searcher = TzSearch::new(&packed, &pack(&leaves), NUM_FIXTURE_LEAVES).unwrap();
}

#[test]
fn test_lookup_pixel() {
    let searcher = fixture_search();
    let tests = [
        (9200, 2410, Some("Asia/Phnom_Penh")),
        (9047, 2488, Some("Asia/Phnom_Penh")),
        // one-bit leaf tile:
        (9290, 530, Some("Asia/Krasnoyarsk")),
        (9290, 531, Some("Asia/Yakutsk")),
        // four-bit tile:
        (2985, 1654, Some("America/Indiana/Vincennes")),
        (2986, 1654, Some("America/Indiana/Marengo")),
        (2986, 1655, Some("America/Indiana/Tell_City")),
        // Empty tile:
        (4000, 2000, None),
        // Big 1-color tile in ocean with island:
        (3687, 1845, Some("Atlantic/Bermuda")),
        // Same, but off Oregon coast:
        (1747, 1486, Some("America/Los_Angeles")),
        // Little solid tile:
        (2924, 2316, Some("America/Belize")),
    ];
    for &(x, y, ref want) in &tests {
        assert_eq!(searcher.lookup_pixel(x, y), want.map(|s| s.to_string()));
    }
}

#[test]
fn packed_tables_give_the_same_index() {
    let (levels, leaves) = fixture();
    let packed: Vec<Vec<u8>> = levels.iter().map(|l| pack(l)).collect();
    let searcher = TzSearch::new(&packed, &pack(&leaves), NUM_FIXTURE_LEAVES).unwrap();
    assert_eq!(searcher.lookup_pixel(9290, 531), Some("Asia/Yakutsk".to_string()));
    assert_eq!(searcher.lookup_pixel(4000, 2000), None);
}

#[test]
fn packed_tables_must_be_base64() {
    let (levels, leaves) = fixture();
    let packed: Vec<Vec<u8>> = levels.iter().map(|l| pack(l)).collect();
    let r = TzSearch::new(&packed, b"not base64!", NUM_FIXTURE_LEAVES);
    assert_eq!(r.err(), Some(LoadError::BadBase64));
}

#[test]
fn packed_tables_must_be_gzip() {
    let (levels, _) = fixture();
    let mut packed: Vec<Vec<u8>> = levels.iter().map(|l| pack(l)).collect();
    packed[2] = levels[2].to_base64(STANDARD).into_bytes();
    let r = TzSearch::new(&packed, &pack(b"S"), 1);
    assert_eq!(r.err(), Some(LoadError::BadGzip));
}

#[test]
fn tile_key_packs_fields() {
    assert_eq!(key(5, 3, 2), (5 << 28) | (2 << 14) | 3);
    assert_eq!(key(0, 0, 0), 0);
    assert_eq!(key(9, 0x4001, 0x4002), (1 << 28) | (2 << 14) | 1);
    assert_eq!(key(5, 0x3FFF, 0x3FFF), 0x5FFF_FFFF);
}

#[test]
fn zoom_level_records_are_big_endian() {
    let bytes = [0x12, 0x34, 0x56, 0x78, 0x9A, 0xBC, 0, 0, 0, 1, 0, 2];
    let z = parse_zoom_level(&bytes).unwrap();
    assert_eq!(z.tiles.len(), 2);
    assert_eq!(z.tiles[0].tile, TileKey(0x1234_5678));
    assert_eq!(z.tiles[0].idx, 0x9ABC);
    assert_eq!(z.tiles[1].tile, TileKey(1));
    assert_eq!(z.tiles[1].idx, 2);
    assert!(parse_zoom_level(&[]).unwrap().tiles.is_empty());
}

#[test]
fn zoom_level_length_must_be_whole_records() {
    assert_eq!(parse_zoom_level(&[0; 7]).err(), Some(LoadError::BadRecordLength));
}

#[test]
fn leaf_records_decode_each_kind() {
    let mut bytes = static_leaf("Europe/Paris");
    bytes.extend(one_bit_leaf(7, 0x0102, 0x8000_0000_0000_0001));
    let mut cells = [0u16; 64];
    cells[9] = 0xABCD;
    bytes.extend(pixmap_leaf(&cells));
    let leaves = parse_leaves(&bytes, 3).unwrap();
    assert_eq!(leaves.len(), 3);
    match &leaves[0] {
        Zone::StaticZone(s) => assert_eq!(s, "Europe/Paris"),
        _ => panic!("expected a zone name"),
    }
    match &leaves[1] {
        Zone::OneBitTile(a, b, bits) => {
            assert_eq!((*a, *b, *bits), (7, 0x0102, 0x8000_0000_0000_0001));
        }
        _ => panic!("expected a one-bit tile"),
    }
    match &leaves[2] {
        Zone::Pixmap(g) => {
            assert_eq!(g.len(), 64);
            assert_eq!(g[9], 0xABCD);
            assert_eq!(g[8], 0);
        }
        _ => panic!("expected a pixmap"),
    }
}

#[test]
fn name_without_terminator_runs_to_the_end() {
    let (z, next) = parse_leaf(b"SUTC", 0).unwrap();
    assert_eq!(next, 4);
    match z {
        Zone::StaticZone(s) => assert_eq!(s, "UTC"),
        _ => panic!("expected a zone name"),
    }
}

#[test]
fn leaf_errors() {
    assert_eq!(parse_leaf(b"X", 0).err(), Some(LoadError::UnknownKind));
    assert_eq!(parse_leaf(b"", 0).err(), Some(LoadError::Truncated));
    assert_eq!(parse_leaf(b"2\x00\x01", 0).err(), Some(LoadError::Truncated));
    assert_eq!(parse_leaf(&[b'P'; 100], 0).err(), Some(LoadError::Truncated));
    assert_eq!(parse_leaf(b"S\xff\xfe\x00", 0).err(), Some(LoadError::BadName));
    assert_eq!(parse_leaves(&static_leaf("UTC"), 2).err(), Some(LoadError::Truncated));
}

#[test]
fn load_errors() {
    let (levels, leaves) = fixture();
    let five = levels[..5].to_vec();
    assert_eq!(
        TzSearch::from_tables(&five, &leaves, NUM_FIXTURE_LEAVES).err(),
        Some(LoadError::WrongLevelCount)
    );
    let mut unsorted = levels.clone();
    let mut l0 = unsorted[0][6..12].to_vec();
    l0.extend_from_slice(&unsorted[0][0..6]);
    unsorted[0] = l0;
    assert_eq!(
        TzSearch::from_tables(&unsorted, &leaves, NUM_FIXTURE_LEAVES).err(),
        Some(LoadError::UnsortedTiles)
    );
    let mut bad_index = levels.clone();
    bad_index[3] = level_bytes(vec![(key(3, 143, 37), 12)]);
    assert_eq!(
        TzSearch::from_tables(&bad_index, &leaves, NUM_FIXTURE_LEAVES).err(),
        Some(LoadError::BadIndex)
    );
    let mut bad_child = leaves.clone();
    bad_child.extend(one_bit_leaf(0, 40, 0));
    assert_eq!(
        TzSearch::from_tables(&levels, &bad_child, NUM_FIXTURE_LEAVES + 1).err(),
        Some(LoadError::BadIndex)
    );
    let mut odd = levels.clone();
    odd[4].push(0);
    assert_eq!(
        TzSearch::from_tables(&odd, &leaves, NUM_FIXTURE_LEAVES).err(),
        Some(LoadError::BadRecordLength)
    );
}

#[test]
fn first_level_with_the_tile_decides() {
    let searcher = fixture_search();
    // the level-5 tile of (4000, 2000) is ocean, its level-1 tile names a zone
    assert_eq!(searcher.lookup_pixel(4000, 2000), None);
    assert_eq!(
        searcher.zoom_level_lookup(1, 4000, 2000, TileKey::new(1, 250, 125)),
        Some(Some("America/Belize".to_string()))
    );
}

#[test]
fn ocean_cell_gives_no_zone() {
    let searcher = fixture_search();
    assert_eq!(searcher.lookup_pixel(2984, 1648), None);
    assert_eq!(searcher.lookup_pixel(2985, 1655), None);
}

#[test]
fn one_bit_row_major_order() {
    let searcher = fixture_search();
    for x in 9288..9296 {
        assert_eq!(searcher.lookup_pixel(x, 530), Some("Asia/Krasnoyarsk".to_string()));
        assert_eq!(searcher.lookup_pixel(x, 531), Some("Asia/Yakutsk".to_string()));
        assert_eq!(searcher.lookup_pixel(x, 532), Some("Asia/Krasnoyarsk".to_string()));
    }
}

#[test]
fn repeated_lookups_agree() {
    let searcher = fixture_search();
    for &(x, y) in &[(9200, 2410), (4000, 2000), (0, 0), (11519, 5759)] {
        assert_eq!(searcher.lookup_grid(x, y), searcher.lookup_grid(x, y));
    }
}

#[test]
fn boundary_pixels_are_clamped() {
    assert_eq!(clamp(11520, GRID_WIDTH), 11519);
    assert_eq!(clamp(5760, GRID_HEIGHT), 5759);
    assert_eq!(clamp(-1, GRID_WIDTH), 0);
    assert_eq!(clamp(0, GRID_HEIGHT), 0);
    assert_eq!(clamp(300, GRID_WIDTH), 300);
    let searcher = fixture_search();
    assert_eq!(searcher.lookup_grid(11520, 5760), searcher.lookup_pixel(11519, 5759));
    assert_eq!(searcher.lookup_grid(1747, 1486), Some("America/Los_Angeles".to_string()));
}

#[test]
fn cyclic_leaf_chain_ends() {
    let levels = vec![
        level_bytes(vec![(key(0, 0, 0), 0)]),
        Vec::new(),
        Vec::new(),
        Vec::new(),
        Vec::new(),
        Vec::new(),
    ];
    let mut leaves = one_bit_leaf(1, 1, 0);
    leaves.extend(one_bit_leaf(0, 0, 0));
    let searcher = TzSearch::from_tables(&levels, &leaves, 2).unwrap();
    assert_eq!(searcher.lookup_pixel(3, 3), None);
}

#[test]
fn zone_lookup_follows_chain() {
    let searcher = fixture_search();
    assert_eq!(searcher.zone_lookup(9, 9290, 531), Some("Asia/Yakutsk".to_string()));
    assert_eq!(searcher.zone_lookup(10, 2986, 1655), Some("America/Indiana/Tell_City".to_string()));
    assert_eq!(searcher.zone_lookup(11, 0, 0), None);
    assert_eq!(searcher.zone_lookup(500, 0, 0), None);
}

#[test]
fn zoom_level_lookup_tells_absent_from_ocean() {
    let searcher = fixture_search();
    assert_eq!(searcher.zoom_level_lookup(5, 4000, 2000, TileKey::new(5, 15, 7)), Some(None));
    assert_eq!(searcher.zoom_level_lookup(0, 4000, 2000, TileKey::new(0, 500, 250)), None);
    assert_eq!(
        searcher.zoom_level_lookup(4, 3687, 1845, TileKey::new(4, 28, 14)),
        Some(Some("Atlantic/Bermuda".to_string()))
    );
}
