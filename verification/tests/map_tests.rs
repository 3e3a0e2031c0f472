use dual_grid::chunk::ChunkDesc;
use dual_grid::error::TileError;
use dual_grid::rules::TileRules;
use dual_grid::tilemap::TileMap;

/// A table with one rule per possible neighbor pattern; the pattern
/// `[n0, n1, n2, n3]` maps to the sprite at `x = index * 8, y = index` where
/// `index = n0 + 2*n1 + 4*n2 + 8*n3`.
fn full_yaml() -> String {
    let mut s = String::from("size: 8\nrules:\n");
    for i in 0..16 {
        let n0 = i & 1 != 0;
        let n1 = i & 2 != 0;
        let n2 = i & 4 != 0;
        let n3 = i & 8 != 0;
        s.push_str(&format!(
            "  - neighbors: [{}, {}, {}, {}]\n    sprite: {{ x: {}, y: {} }}\n",
            n0,
            n1,
            n2,
            n3,
            i * 8,
            i
        ));
    }
    s
}

fn full_map() -> TileMap {
    let t = TileRules::new()
        .with_sprite_atlas("atlas.png")
        .with_bytes_yaml_file(full_yaml().as_bytes())
        .load()
        .unwrap();
    TileMap::new(t).unwrap()
}

#[test]
fn map_new_rejects_unloaded_rules() {
    let r = TileMap::new(TileRules::new());
    assert_eq!(r.unwrap_err(), TileError::NotLoaded);
}

#[test]
fn set_then_get_returns_written_value() {
    let mut m = full_map();
    m.add_chunk(0, 0, 4, 4).unwrap();
    for y in 0..4 {
        for x in 0..4 {
            m.set(x, y, true);
            assert_eq!(m.get(x, y), true);
            m.set(x, y, false);
            assert_eq!(m.get(x, y), false);
        }
    }
}

#[test]
fn uncovered_cells_read_false_and_ignore_writes() {
    let mut m = full_map();
    m.add_chunk(0, 0, 4, 4).unwrap();
    assert_eq!(m.get(100, 100), false);
    assert_eq!(m.get(-1, 0), false);
    m.set(100, 100, true);
    m.set(-1, 0, true);
    assert_eq!(m.get(100, 100), false);
    assert_eq!(m.get(-1, 0), false);
}

#[test]
fn adjacent_chunks_stay_independent() {
    let mut m = full_map();
    m.add_chunk(0, 0, 2, 2).unwrap();
    m.add_chunk(2, 0, 2, 2).unwrap();
    m.set(1, 0, true);
    assert_eq!(m.get(1, 0), true);
    assert_eq!(m.get(2, 0), false);
    assert_eq!(m.chunks[0].get(1, 0), true);
    assert_eq!(m.chunks[0].get(2, 0), false);
    assert_eq!(m.chunks[1].get(0, 0), false);
    m.set(2, 0, true);
    assert_eq!(m.get(2, 0), true);
    assert_eq!(m.chunks[1].get(0, 0), true);
    assert_eq!(m.chunks[0].get(1, 0), true);
}

#[test]
fn add_chunk_rejects_negative_size() {
    let mut m = full_map();
    let r = m.add_chunk(0, 0, -3, 3);
    assert_eq!(r.unwrap_err(), TileError::InvalidChunkSize);
    assert_eq!(m.chunks.len(), 0);
}

#[test]
fn load_chunk_populates_cells() {
    let mut m = full_map();
    m.load_chunk(ChunkDesc {
        x: 1,
        y: 2,
        size_x: 2,
        size_y: 2,
        data: vec![vec![true, false], vec![false, true]],
    })
    .unwrap();
    assert_eq!(m.get(1, 2), true);
    assert_eq!(m.get(2, 2), false);
    assert_eq!(m.get(1, 3), false);
    assert_eq!(m.get(2, 3), true);
}

#[test]
fn load_chunk_rejects_wrong_row_count() {
    let mut m = full_map();
    let r = m.load_chunk(ChunkDesc {
        x: 0,
        y: 0,
        size_x: 2,
        size_y: 2,
        data: vec![vec![true, false]],
    });
    assert_eq!(r.unwrap_err(), TileError::InvalidChunkData);
    assert_eq!(m.chunks.len(), 0);
}

#[test]
fn load_chunk_rejects_wrong_row_length() {
    let mut m = full_map();
    let r = m.load_chunk(ChunkDesc {
        x: 0,
        y: 0,
        size_x: 2,
        size_y: 2,
        data: vec![vec![true, false], vec![true]],
    });
    assert_eq!(r.unwrap_err(), TileError::InvalidChunkData);
}

#[test]
fn first_chunk_wins_on_overlap() {
    let mut m = full_map();
    m.add_chunk(0, 0, 2, 2).unwrap();
    m.add_chunk(1, 0, 2, 2).unwrap();
    m.set(1, 0, true);
    assert_eq!(m.chunks[0].get(1, 0), true);
    assert_eq!(m.chunks[1].get(0, 0), false);
    assert_eq!(m.get(1, 0), true);
}
