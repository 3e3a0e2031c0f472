use dual_grid::error::TileError;
use dual_grid::rules::TileRules;

/// A table with one rule per possible neighbor pattern; the pattern
/// `[n0, n1, n2, n3]` maps to the sprite at `x = index * 8, y = index` where
/// `index = n0 + 2*n1 + 4*n2 + 8*n3`.
fn full_yaml() -> String {
    let mut s = String::from("size: 8\nrules:\n");
    for i in 0..16 {
        let n0 = i & 1 != 0;
        let n1 = i & 2 != 0;
        let n2 = i & 4 != 0;
        let n3 = i & 8 != 0;
        s.push_str(&format!(
            "  - neighbors: [{}, {}, {}, {}]\n    sprite: {{ x: {}, y: {} }}\n",
            n0,
            n1,
            n2,
            n3,
            i * 8,
            i
        ));
    }
    s
}

fn full_table() -> TileRules {
    TileRules::new()
        .with_sprite_atlas("atlas.png")
        .with_bytes_yaml_file(full_yaml().as_bytes())
        .load()
        .unwrap()
}

#[test]
fn load_full_table_resolves_all_sixteen_patterns() {
    let t = full_table();
    assert_eq!(t.rules.len(), 16);
    for i in 0..16i64 {
        let pattern = [i & 1 != 0, i & 2 != 0, i & 4 != 0, i & 8 != 0];
        let rule = t.tile_by_rules(pattern).unwrap();
        assert_eq!(rule.neighbors, pattern);
        assert_eq!(rule.sprite_x, i * 8);
        assert_eq!(rule.sprite_y, i);
        assert_eq!(rule.size, 8);
    }
}

#[test]
fn resolve_missing_pattern_fails() {
    let yaml = "size: 8\nrules:\n  - neighbors: [false, false, false, false]\n    sprite: { x: 0, y: 0 }\n";
    let t = TileRules::new()
        .with_sprite_atlas("atlas.png")
        .with_bytes_yaml_file(yaml.as_bytes())
        .load()
        .unwrap();
    assert!(t.tile_by_rules([false, false, false, false]).is_ok());
    let r = t.tile_by_rules([true, false, false, false]);
    assert_eq!(r.unwrap_err(), TileError::RuleNotFound);
}

#[test]
fn first_matching_rule_wins_on_duplicates() {
    let yaml = "size: 8\nrules:\n  - neighbors: [true, true, true, true]\n    sprite: { x: 0, y: 0 }\n  - neighbors: [true, true, true, true]\n    sprite: { x: 8, y: 0 }\n";
    let t = TileRules::new()
        .with_sprite_atlas("atlas.png")
        .with_bytes_yaml_file(yaml.as_bytes())
        .load()
        .unwrap();
    let rule = t.tile_by_rules([true, true, true, true]).unwrap();
    assert_eq!(rule.sprite_x, 0);
}

#[test]
fn unloaded_table_reports_not_loaded() {
    let t = TileRules::new();
    assert_eq!(t.check_loaded().unwrap_err(), TileError::NotLoaded);
    assert_eq!(
        t.tile_by_rules([false, false, false, false]).unwrap_err(),
        TileError::NotLoaded
    );
}

#[test]
fn load_without_atlas_fails() {
    let r = TileRules::new().with_bytes_yaml_file(b"size: 8\nrules: []\n").load();
    assert_eq!(r.unwrap_err(), TileError::MissingSpriteAtlas);
}

#[test]
fn load_without_yaml_fails() {
    let r = TileRules::new().with_sprite_atlas("atlas.png").load();
    assert_eq!(r.unwrap_err(), TileError::MissingYamlFile);
}

#[test]
fn load_malformed_yaml_fails() {
    let r = TileRules::new()
        .with_sprite_atlas("atlas.png")
        .with_bytes_yaml_file(b"size: [unclosed\n")
        .load();
    assert_eq!(r.unwrap_err(), TileError::YamlParse);
}

#[test]
fn load_missing_size_fails() {
    let r = TileRules::new()
        .with_sprite_atlas("atlas.png")
        .with_bytes_yaml_file(b"rules: []\n")
        .load();
    assert_eq!(r.unwrap_err(), TileError::InvalidSize);
}

#[test]
fn load_non_integer_size_fails() {
    let r = TileRules::new()
        .with_sprite_atlas("atlas.png")
        .with_bytes_yaml_file(b"size: big\nrules: []\n")
        .load();
    assert_eq!(r.unwrap_err(), TileError::InvalidSize);
}

#[test]
fn load_negative_size_fails() {
    let r = TileRules::new()
        .with_sprite_atlas("atlas.png")
        .with_bytes_yaml_file(b"size: -8\nrules: []\n")
        .load();
    assert_eq!(r.unwrap_err(), TileError::InvalidSize);
}

#[test]
fn load_missing_rules_fails() {
    let r = TileRules::new()
        .with_sprite_atlas("atlas.png")
        .with_bytes_yaml_file(b"size: 8\n")
        .load();
    assert_eq!(r.unwrap_err(), TileError::InvalidRules);
}

#[test]
fn load_neighbors_of_wrong_length_fails() {
    let yaml = "size: 8\nrules:\n  - neighbors: [true, false, true]\n    sprite: { x: 0, y: 0 }\n";
    let r = TileRules::new()
        .with_sprite_atlas("atlas.png")
        .with_bytes_yaml_file(yaml.as_bytes())
        .load();
    assert_eq!(r.unwrap_err(), TileError::InvalidNeighbors);
}

#[test]
fn load_bad_neighbor_value_fails() {
    let yaml = "size: 8\nrules:\n  - neighbors: [true, false, true, 2]\n    sprite: { x: 0, y: 0 }\n";
    let r = TileRules::new()
        .with_sprite_atlas("atlas.png")
        .with_bytes_yaml_file(yaml.as_bytes())
        .load();
    assert_eq!(r.unwrap_err(), TileError::InvalidNeighborValue);
}

#[test]
fn load_accepts_zero_one_neighbors() {
    let yaml = "size: 8\nrules:\n  - neighbors: [0, 1, 0, 1]\n    sprite: { x: 16, y: 0 }\n";
    let t = TileRules::new()
        .with_sprite_atlas("atlas.png")
        .with_bytes_yaml_file(yaml.as_bytes())
        .load()
        .unwrap();
    let rule = t.tile_by_rules([false, true, false, true]).unwrap();
    assert_eq!(rule.sprite_x, 16);
}

#[test]
fn load_missing_sprite_fails() {
    let yaml = "size: 8\nrules:\n  - neighbors: [true, false, true, false]\n";
    let r = TileRules::new()
        .with_sprite_atlas("atlas.png")
        .with_bytes_yaml_file(yaml.as_bytes())
        .load();
    assert_eq!(r.unwrap_err(), TileError::InvalidSprite);
}

#[test]
fn load_non_mapping_sprite_fails() {
    let yaml = "size: 8\nrules:\n  - neighbors: [true, false, true, false]\n    sprite: 5\n";
    let r = TileRules::new()
        .with_sprite_atlas("atlas.png")
        .with_bytes_yaml_file(yaml.as_bytes())
        .load();
    assert_eq!(r.unwrap_err(), TileError::InvalidSprite);
}

#[test]
fn load_sprite_missing_x_fails() {
    let yaml = "size: 8\nrules:\n  - neighbors: [true, false, true, false]\n    sprite: { y: 0 }\n";
    let r = TileRules::new()
        .with_sprite_atlas("atlas.png")
        .with_bytes_yaml_file(yaml.as_bytes())
        .load();
    assert_eq!(r.unwrap_err(), TileError::InvalidSpriteX);
}

#[test]
fn load_sprite_missing_y_fails() {
    let yaml = "size: 8\nrules:\n  - neighbors: [true, false, true, false]\n    sprite: { x: 0 }\n";
    let r = TileRules::new()
        .with_sprite_atlas("atlas.png")
        .with_bytes_yaml_file(yaml.as_bytes())
        .load();
    assert_eq!(r.unwrap_err(), TileError::InvalidSpriteY);
}

#[test]
fn load_empty_rule_list_is_not_loaded() {
    let t = TileRules::new()
        .with_sprite_atlas("atlas.png")
        .with_bytes_yaml_file(b"size: 8\nrules: []\n")
        .load()
        .unwrap();
    assert_eq!(t.check_loaded().unwrap_err(), TileError::NotLoaded);
}
