use onyx_server::map::{GameMap, MapId, MapLayer, Tile, TileUv};

const LAYERS: [MapLayer; 4] = [MapLayer::Ground, MapLayer::Mask, MapLayer::Mask2, MapLayer::Fringe];

#[test]
fn every_layer_has_width_times_height_cells() {
    for (w, h) in [(0u32, 0u32), (0, 5), (5, 0), (1, 1), (3, 4), (20, 15)] {
        let m = GameMap::new(MapId(1), w, h);
        for l in LAYERS {
            assert_eq!(m.tile_count(l), (w * h) as usize);
            assert!(m.tiles(l).iter().all(|t| *t == Tile::Empty));
        }
        assert!(m.is_valid());
    }
}

#[test]
fn cells_are_row_major() {
    let mut m = GameMap::new(MapId(1), 3, 2);
    let t = Tile::Autotile(TileUv { x: 1, y: 2 });
    m.set_tile(MapLayer::Fringe, 2, 1, t);
    assert_eq!(m.tiles(MapLayer::Fringe)[5], t);
    assert_eq!(m.tile(MapLayer::Fringe, 2, 1), Some(t));
    assert_eq!(m.tile(MapLayer::Ground, 2, 1), Some(Tile::Empty));
    assert_eq!(m.tile(MapLayer::Fringe, 3, 1), None);
    assert_eq!(m.tile(MapLayer::Fringe, -1, 0), None);
}

#[test]
fn set_tile_off_map_does_nothing() {
    let mut m = GameMap::new(MapId(1), 2, 2);
    m.set_tile(MapLayer::Ground, 2, 0, Tile::Basic(TileUv { x: 0, y: 0 }));
    m.set_tile(MapLayer::Ground, 0, -1, Tile::Basic(TileUv { x: 0, y: 0 }));
    assert!(m.tiles(MapLayer::Ground).iter().all(|t| *t == Tile::Empty));
}

#[test]
fn valid_bounds() {
    let m = GameMap::new(MapId(1), 4, 2);
    assert!(m.valid(0, 0));
    assert!(m.valid(3, 1));
    assert!(!m.valid(4, 1));
    assert!(!m.valid(3, 2));
    assert!(!m.valid(-1, 0));
}

#[test]
fn clone_keeps_everything() {
    let mut m = GameMap::new(MapId(3), 2, 2);
    m.settings.name = "field".to_string();
    m.settings.music = Some("theme".to_string());
    m.set_tile(MapLayer::Mask2, 1, 0, Tile::Basic(TileUv { x: 9, y: 9 }));
    let c = m.clone();
    assert_eq!(c.settings.name, "field");
    assert_eq!(c.settings.music.as_deref(), Some("theme"));
    assert_eq!(c.tile(MapLayer::Mask2, 1, 0), Some(Tile::Basic(TileUv { x: 9, y: 9 })));
}

#[test]
fn malformed_map_is_not_valid() {
    let mut m = GameMap::new(MapId(3), 2, 2);
    m.mask.push(Tile::Empty);
    assert!(!m.is_valid());
}
