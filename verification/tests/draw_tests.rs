use dual_grid::error::TileError;
use dual_grid::rules::TileRules;
use dual_grid::tilemap::TileMap;

/// A table with one rule per possible neighbor pattern; the pattern
/// `[n0, n1, n2, n3]` maps to the sprite at `x = index * 8, y = index` where
/// `index = n0 + 2*n1 + 4*n2 + 8*n3`.
fn full_yaml() -> String {
    let mut s = String::from("size: 8\nrules:\n");
    for i in 0..16 {
        let n0 = i & 1 != 0;
        let n1 = i & 2 != 0;
        let n2 = i & 4 != 0;
        let n3 = i & 8 != 0;
        s.push_str(&format!(
            "  - neighbors: [{}, {}, {}, {}]\n    sprite: {{ x: {}, y: {} }}\n",
            n0,
            n1,
            n2,
            n3,
            i * 8,
            i
        ));
    }
    s
}

fn full_map() -> TileMap {
    let t = TileRules::new()
        .with_sprite_atlas("atlas.png")
        .with_bytes_yaml_file(full_yaml().as_bytes())
        .load()
        .unwrap();
    TileMap::new(t).unwrap()
}

/// The sprite index the full table assigns to a pattern.
fn pattern_index(n0: bool, n1: bool, n2: bool, n3: bool) -> i64 {
    n0 as i64 + 2 * (n1 as i64) + 4 * (n2 as i64) + 8 * (n3 as i64)
}

#[test]
fn draw_empty_map_emits_nothing() {
    let m = full_map();
    let cmds = m.draw().unwrap();
    assert_eq!(cmds.len(), 0);
}

#[test]
fn draw_single_corner_scenario() {
    let mut m = full_map();
    m.add_chunk(0, 0, 4, 4).unwrap();
    m.set(1, 1, true);
    let cmds = m.draw().unwrap();
    assert_eq!(cmds.len(), 25);
    // Visual cell (0, 0) is the 7th command: one full row of 5 for y = -1,
    // then x = -1 before it. Its samples are get(0,0)=false, get(1,0)=false,
    // get(0,1)=false, get(1,1)=true: the single-corner pattern.
    let cmd = cmds[6];
    assert_eq!(cmd.sprite_x, pattern_index(false, false, false, true) * 8);
    assert_eq!(cmd.size, 8);
    assert_eq!(cmd.dest_size, 32);
    assert_eq!(cmd.dest_x, 16);
    assert_eq!(cmd.dest_y, 16);
}

#[test]
fn draw_solid_chunk_scenario() {
    let mut m = full_map();
    m.add_chunk(0, 0, 3, 3).unwrap();
    for y in 0..3 {
        for x in 0..3 {
            m.set(x, y, true);
        }
    }
    let cmds = m.draw().unwrap();
    assert_eq!(cmds.len(), 16);
    let solid = pattern_index(true, true, true, true) * 8;
    for y in -1..3i64 {
        for x in -1..3i64 {
            let cmd = cmds[((y + 1) * 4 + (x + 1)) as usize];
            let interior = (0..2).contains(&x) && (0..2).contains(&y);
            if interior {
                assert_eq!(cmd.sprite_x, solid);
            } else {
                assert_ne!(cmd.sprite_x, solid);
            }
        }
    }
    // One border cell pinned exactly: visual cell (-1, -1) samples only
    // get(0, 0) = true as its lower-right corner.
    assert_eq!(cmds[0].sprite_x, pattern_index(false, false, false, true) * 8);
}

#[test]
fn draw_upper_left_sample_stays_chunk_local() {
    let mut m = full_map();
    m.add_chunk(0, 0, 2, 2).unwrap();
    m.add_chunk(2, 0, 2, 2).unwrap();
    m.set(1, 0, true);
    let cmds = m.draw().unwrap();
    assert_eq!(cmds.len(), 18);
    // Visual cell (-1, 0) of the second chunk: its upper-left sample is read
    // from that chunk alone, so the occupied cell (1, 0) of the first chunk
    // is not seen there, and the other three samples are empty.
    let cmd = cmds[9 + 3];
    assert_eq!(cmd.sprite_x, pattern_index(false, false, false, false) * 8);
    // Visual cell (1, 0) of the first chunk does see the occupied cell
    // (1, 0) as its chunk-local upper-left sample.
    let a_cmd = cmds[(0 + 1) * 3 + (1 + 1)];
    assert_eq!(a_cmd.sprite_x, pattern_index(true, false, false, false) * 8);
}

#[test]
fn draw_twice_is_identical() {
    let mut m = full_map();
    m.add_chunk(0, 0, 5, 4).unwrap();
    m.set(1, 1, true);
    m.set(2, 3, true);
    m.set(4, 0, true);
    let first = m.draw().unwrap();
    let second = m.draw().unwrap();
    assert_eq!(first, second);
}

#[test]
fn draw_missing_rule_fails() {
    let yaml = "size: 8\nrules:\n  - neighbors: [false, false, false, false]\n    sprite: { x: 0, y: 0 }\n";
    let t = TileRules::new()
        .with_sprite_atlas("atlas.png")
        .with_bytes_yaml_file(yaml.as_bytes())
        .load()
        .unwrap();
    let mut m = TileMap::new(t).unwrap();
    m.add_chunk(0, 0, 2, 2).unwrap();
    assert!(m.draw().is_ok());
    m.set(0, 0, true);
    assert_eq!(m.draw().unwrap_err(), TileError::RuleNotFound);
}

#[test]
fn draw_offset_chunk_destinations() {
    let mut m = full_map();
    m.add_chunk(-2, 3, 1, 1).unwrap();
    let cmds = m.draw().unwrap();
    assert_eq!(cmds.len(), 4);
    // Visual cell (-1, -1) of a chunk at origin (-2, 3) lands at world cell
    // (-3, 2); its destination is (-3 * 8 * 4 + 16, 2 * 8 * 4 + 16).
    assert_eq!(cmds[0].dest_x, -80);
    assert_eq!(cmds[0].dest_y, 80);
    assert_eq!(cmds[0].dest_size, 32);
}
