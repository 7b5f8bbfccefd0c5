use tiles_rs::{resolve_tile_path, u32_to_decimal, AppState, TileCoordinate};

#[test]
fn path_is_root_z_x_y_png() {
    let c = TileCoordinate::new(3, 2, 1);
    assert_eq!(c.path_under("Tiles"), "Tiles/3/2/1.png");
}

#[test]
fn path_with_relative_root() {
    let c = TileCoordinate::new(0, 0, 0);
    assert_eq!(c.path_under("./data/tiles"), "./data/tiles/0/0/0.png");
}

#[test]
fn path_with_largest_coordinates() {
    let c = TileCoordinate::new(u32::MAX, u32::MAX, u32::MAX);
    assert_eq!(
        c.path_under("R"),
        "R/4294967295/4294967295/4294967295.png"
    );
}

#[test]
fn path_with_empty_root() {
    let c = TileCoordinate::new(7, 8, 9);
    assert_eq!(c.path_under(""), "/7/8/9.png");
}

#[test]
fn resolve_reads_the_shared_configuration() {
    let state = AppState::new(String::from("/srv/tiles"));
    let c = TileCoordinate::new(12, 2200, 1343);
    assert_eq!(resolve_tile_path(&state, c), "/srv/tiles/12/2200/1343.png");
}

#[test]
fn path_is_deterministic_across_calls() {
    let state = AppState::new(String::from("R"));
    let c = TileCoordinate::new(5, 17, 11);
    let first = resolve_tile_path(&state, c);
    for _ in 0..8 {
        assert_eq!(resolve_tile_path(&state, c), first);
    }
}

#[test]
fn distinct_tiles_resolve_distinct_paths() {
    let a = TileCoordinate::new(1, 2, 3);
    let b = TileCoordinate::new(1, 2, 4);
    let c = TileCoordinate::new(1, 3, 3);
    let d = TileCoordinate::new(2, 2, 3);
    let root = "R";
    assert_ne!(a.path_under(root), b.path_under(root));
    assert_ne!(a.path_under(root), c.path_under(root));
    assert_ne!(a.path_under(root), d.path_under(root));
}

#[test]
fn decimal_rendering_matches_std() {
    for n in [0u32, 1, 9, 10, 99, 100, 12345, 4294967295] {
        assert_eq!(u32_to_decimal(n), n.to_string());
    }
}
