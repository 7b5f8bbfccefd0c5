use tiles_rs::{dispatch, Route, TileCoordinate};

#[test]
fn root_path_goes_to_the_root_handler() {
    assert!(matches!(dispatch("/"), Route::Landing));
}

#[test]
fn tile_template_goes_to_the_tile_handler() {
    match dispatch("/tiles/3/2/1") {
        Route::Tile(c) => assert_eq!(c, TileCoordinate::new(3, 2, 1)),
        _ => panic!("expected the tile route"),
    }
}

#[test]
fn tile_template_accepts_large_coordinates() {
    match dispatch("/tiles/19/4294967295/0") {
        Route::Tile(c) => assert_eq!(c, TileCoordinate::new(19, 4294967295, 0)),
        _ => panic!("expected the tile route"),
    }
}

#[test]
fn non_integer_segment_matches_nothing() {
    assert!(matches!(dispatch("/tiles/abc/1/1"), Route::NoMatch));
    assert!(matches!(dispatch("/tiles/1/-2/1"), Route::NoMatch));
    assert!(matches!(dispatch("/tiles/1/1/1x"), Route::NoMatch));
}

#[test]
fn out_of_range_segment_matches_nothing() {
    assert!(matches!(dispatch("/tiles/1/4294967296/1"), Route::NoMatch));
}

#[test]
fn wrong_shape_matches_nothing() {
    assert!(matches!(dispatch(""), Route::NoMatch));
    assert!(matches!(dispatch("//"), Route::NoMatch));
    assert!(matches!(dispatch("/tiles"), Route::NoMatch));
    assert!(matches!(dispatch("/tiles/"), Route::NoMatch));
    assert!(matches!(dispatch("/tiles/1/2"), Route::NoMatch));
    assert!(matches!(dispatch("/tiles/1/2/3/4"), Route::NoMatch));
    assert!(matches!(dispatch("/tiles/1/2/"), Route::NoMatch));
    assert!(matches!(dispatch("/tiles//2/3"), Route::NoMatch));
    assert!(matches!(dispatch("/other/1/2/3"), Route::NoMatch));
    assert!(matches!(dispatch("tiles/1/2/3"), Route::NoMatch));
}

#[test]
fn dispatch_is_stable_across_calls() {
    for _ in 0..3 {
        assert!(matches!(dispatch("/tiles/5/6/7"), Route::Tile(_)));
        assert!(matches!(dispatch("/"), Route::Landing));
        assert!(matches!(dispatch("/nothing"), Route::NoMatch));
    }
}
