use under_journey::geometry::Point;
use under_journey::map::{GameMap, TileType, map_idx};

#[test]
fn new_map_is_screen_sized_floor() {
    let m = GameMap::new();
    assert_eq!(m.width, 80);
    assert_eq!(m.height, 50);
    assert_eq!(m.tiles.len(), 4000);
    assert!(m.tiles.iter().all(|t| *t == TileType::Floor));
}

#[test]
fn map_idx_is_row_major() {
    assert_eq!(map_idx(0, 0), 0);
    assert_eq!(map_idx(3, 2), 163);
    assert_eq!(map_idx(79, 49), 3999);
}

#[test]
fn in_bounds_is_the_rectangle() {
    let m = GameMap::new();
    assert!(m.in_bounds(Point::new(0, 0)));
    assert!(m.in_bounds(Point::new(79, 49)));
    assert!(!m.in_bounds(Point::new(80, 0)));
    assert!(!m.in_bounds(Point::new(0, 50)));
    assert!(!m.in_bounds(Point::new(-1, 0)));
    assert!(!m.in_bounds(Point::new(0, -1)));
}

#[test]
fn can_enter_tile_is_in_bounds_and_floor() {
    let m = GameMap {
        width: 3,
        height: 1,
        tiles: vec![TileType::Floor, TileType::Floor, TileType::Wall],
    };
    assert!(m.can_enter_tile(Point::new(0, 0)));
    assert!(m.can_enter_tile(Point::new(1, 0)));
    assert!(!m.can_enter_tile(Point::new(2, 0)));
    assert!(!m.can_enter_tile(Point::new(3, 0)));
    assert!(!m.can_enter_tile(Point::new(-1, 0)));
    assert!(!m.can_enter_tile(Point::new(0, 1)));
    assert!(!m.can_enter_tile(Point::new(0, -1)));
}

#[test]
fn try_idx_guards_indexing() {
    let m = GameMap {
        width: 3,
        height: 2,
        tiles: vec![
            TileType::Floor,
            TileType::Floor,
            TileType::Wall,
            TileType::Wall,
            TileType::Floor,
            TileType::Floor,
        ],
    };
    assert_eq!(m.try_idx(Point::new(2, 1)), Some(5));
    assert_eq!(m.try_idx(Point::new(0, 0)), Some(0));
    assert_eq!(m.try_idx(Point::new(1, 1)), Some(4));
    assert_eq!(m.try_idx(Point::new(3, 0)), None);
    assert_eq!(m.try_idx(Point::new(0, 2)), None);
    assert_eq!(m.try_idx(Point::new(-1, 0)), None);
}
