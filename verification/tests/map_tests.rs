use tower_defense::geometry::Coordinate;
use tower_defense::tilemap::{Point, Tile, TileMap};

fn make_map(tile_size: usize) -> TileMap {
    TileMap {
        width: 0,
        height: 0,
        tiles: vec![],
        tile_size,
        checkpoints: vec![],
    }
}

#[test]
fn test_point_to_coordinate_no_center() {
    let point = Point { x: 3, y: 4 };
    let coord = point.to_coordinate(80, false);
    assert_eq!(coord.x, 240);
    assert_eq!(coord.y, 320);
}

#[test]
fn test_point_to_coordinate_with_center() {
    let point = Point { x: 3, y: 4 };
    let coord = point.to_coordinate(80, true);
    assert_eq!(coord.x, 240);
    assert_eq!(coord.y, 360);
}

#[test]
fn test_point_not_adjacent_diagonal() {
    let a = Point { x: 0, y: 0 };
    let b = Point { x: 1, y: 1 };
    assert!(!a.is_adjacent_to(b));
}

#[test]
fn test_point_not_adjacent_same() {
    let a = Point { x: 2, y: 2 };
    assert!(!a.is_adjacent_to(a));
}

#[test]
fn test_point_adjacency() {
    let p1 = Point { x: 1, y: 1 };
    let p2 = Point { x: 1, y: 2 };
    let p3 = Point { x: 2, y: 2 };
    assert!(p1.is_adjacent_to(p2));
    assert!(p2.is_adjacent_to(p1));
    assert!(p2.is_adjacent_to(p3));
    assert!(!p1.is_adjacent_to(p3));
}

#[test]
fn test_create_checkpoints_straight_path() {
    let mut map = make_map(80);
    let spawn = Point { x: 0, y: 0 };
    let end = Point { x: 4, y: 0 };
    let path_tiles = vec![
        Point { x: 1, y: 0 },
        Point { x: 2, y: 0 },
        Point { x: 3, y: 0 },
    ];
    map.create_checkpoints(path_tiles, spawn, end);
    assert_eq!(map.checkpoints.len(), 5);
    assert_eq!(map.checkpoints[0], Coordinate { x: 0, y: 0 });
    assert_eq!(map.checkpoints[1], Coordinate { x: 80, y: 40 });
    assert_eq!(map.checkpoints[4], Coordinate { x: 320, y: 40 });
}

#[test]
fn test_create_checkpoints_no_path_tiles() {
    let mut map = make_map(80);
    let spawn = Point { x: 0, y: 0 };
    let end = Point { x: 1, y: 0 };
    map.create_checkpoints(vec![], spawn, end);
    assert_eq!(map.checkpoints.len(), 2);
    assert_eq!(map.checkpoints[0], Coordinate { x: 0, y: 0 });
    assert_eq!(map.checkpoints[1], Coordinate { x: 80, y: 40 });
}

#[test]
fn test_create_checkpoints_unordered_path_tiles() {
    let mut map = make_map(80);
    let spawn = Point { x: 0, y: 0 };
    let end = Point { x: 3, y: 0 };
    let path_tiles = vec![Point { x: 2, y: 0 }, Point { x: 1, y: 0 }];
    map.create_checkpoints(path_tiles, spawn, end);
    assert_eq!(map.checkpoints.len(), 4);
    assert_eq!(map.checkpoints[1], Coordinate { x: 80, y: 40 });
    assert_eq!(map.checkpoints[2], Coordinate { x: 160, y: 40 });
}

#[test]
fn test_create_checkpoints_with_turn() {
    let mut map = make_map(80);
    let spawn = Point { x: 0, y: 0 };
    let end = Point { x: 1, y: 2 };
    let path_tiles = vec![Point { x: 1, y: 0 }, Point { x: 1, y: 1 }];
    map.create_checkpoints(path_tiles, spawn, end);
    assert_eq!(map.checkpoints.len(), 4);
    assert_eq!(map.checkpoints[0], Coordinate { x: 0, y: 0 });
    assert_eq!(map.checkpoints[1], Coordinate { x: 80, y: 40 });
    assert_eq!(map.checkpoints[2], Coordinate { x: 80, y: 120 });
    assert_eq!(map.checkpoints[3], Coordinate { x: 80, y: 200 });
}

#[test]
fn test_create_checkpoints_different_tile_size() {
    let mut map = make_map(10);
    let spawn = Point { x: 0, y: 0 };
    let end = Point { x: 2, y: 1 };
    let path_tiles = vec![Point { x: 1, y: 0 }, Point { x: 1, y: 1 }];
    map.create_checkpoints(path_tiles, spawn, end);
    assert_eq!(map.checkpoints.len(), 4);
    assert_eq!(map.checkpoints[1], Coordinate { x: 10, y: 5 });
    assert_eq!(map.checkpoints[3], Coordinate { x: 20, y: 15 });
}

#[test]
fn test_build_checkpoints_from_grid() {
    // bottom-up: the spawn sits on the bottom row, the end two rows up
    let mut map = TileMap {
        width: 2,
        height: 3,
        tiles: vec![
            vec![Tile::Grass, Tile::End],
            vec![Tile::Grass, Tile::Path(vec![])],
            vec![Tile::Spawn, Tile::Path(vec![])],
        ],
        tile_size: 80,
        checkpoints: vec![],
    };
    assert!(map.build_checkpoints());
    assert_eq!(map.checkpoints.len(), 4);
    assert_eq!(map.checkpoints[0], Coordinate { x: 0, y: 0 });
    assert_eq!(map.checkpoints[3], Coordinate { x: 80, y: 200 });
}

#[test]
fn test_build_checkpoints_rejects_map_without_spawn() {
    let mut map = TileMap {
        width: 1,
        height: 1,
        tiles: vec![vec![Tile::End]],
        tile_size: 80,
        checkpoints: vec![],
    };
    assert!(!map.build_checkpoints());
    assert_eq!(map.checkpoints.len(), 0);
}

#[test]
fn test_build_checkpoints_rejects_map_without_end() {
    let mut map = TileMap {
        width: 1,
        height: 1,
        tiles: vec![vec![Tile::Spawn]],
        tile_size: 80,
        checkpoints: vec![],
    };
    assert!(!map.build_checkpoints());
    assert_eq!(map.checkpoints.len(), 0);
}
