use tiles_rs::{parse_decimal_u32, TileCoordinate};

#[test]
fn parses_plain_decimal_segments() {
    let c = TileCoordinate::parse("3", "2", "1").unwrap();
    assert_eq!(c, TileCoordinate::new(3, 2, 1));
}

#[test]
fn accepts_leading_zeros() {
    let c = TileCoordinate::parse("007", "0", "010").unwrap();
    assert_eq!(c, TileCoordinate::new(7, 0, 10));
}

#[test]
fn rejects_non_integer_segment() {
    assert!(TileCoordinate::parse("abc", "1", "1").is_none());
    assert!(TileCoordinate::parse("1", "x", "1").is_none());
    assert!(TileCoordinate::parse("1", "1", "1.5").is_none());
}

#[test]
fn rejects_signs_and_spaces() {
    assert!(TileCoordinate::parse("-1", "1", "1").is_none());
    assert!(TileCoordinate::parse("+1", "1", "1").is_none());
    assert!(TileCoordinate::parse(" 1", "1", "1").is_none());
    assert!(TileCoordinate::parse("1 ", "1", "1").is_none());
}

#[test]
fn rejects_empty_segment() {
    assert!(TileCoordinate::parse("", "1", "1").is_none());
    assert!(TileCoordinate::parse("1", "", "1").is_none());
    assert!(TileCoordinate::parse("1", "1", "").is_none());
}

#[test]
fn parses_the_largest_value_and_rejects_the_next() {
    assert_eq!(parse_decimal_u32("4294967295"), Some(4294967295));
    assert_eq!(parse_decimal_u32("4294967296"), None);
    assert_eq!(parse_decimal_u32("99999999999999999999"), None);
}

#[test]
fn parse_round_trips_rendering() {
    for n in [0u32, 1, 10, 256, 65536, 4294967295] {
        assert_eq!(parse_decimal_u32(&n.to_string()), Some(n));
    }
}
