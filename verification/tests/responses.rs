use tiles_rs::{serve_root, tile_outcome, FileRead, LogLevel, ResponseOutcome};

#[test]
fn served_tile_is_the_file_byte_for_byte() {
    let bytes = vec![0x89u8, b'P', b'N', b'G', 0x0d, 0x0a, 0x1a, 0x0a, 0x00];
    let outcome = tile_outcome(FileRead::Content(bytes.clone()));
    assert_eq!(outcome.status(), 200);
    assert_eq!(outcome.content_type(), Some("image/png"));
    assert_eq!(outcome.log_level(), LogLevel::Info);
    assert_eq!(outcome.into_body(), bytes);
}

#[test]
fn missing_tile_is_404_with_empty_body() {
    let outcome = tile_outcome(FileRead::Unopenable);
    assert_eq!(outcome.status(), 404);
    assert_eq!(outcome.content_type(), None);
    assert_eq!(outcome.log_level(), LogLevel::Warn);
    assert!(outcome.into_body().is_empty());
}

#[test]
fn broken_read_is_500_with_empty_body() {
    let outcome = tile_outcome(FileRead::ReadFailed);
    assert_eq!(outcome.status(), 500);
    assert_eq!(outcome.content_type(), None);
    assert_eq!(outcome.log_level(), LogLevel::Error);
    assert!(outcome.into_body().is_empty());
}

#[test]
fn repeated_reads_of_unchanged_content_answer_identically() {
    let bytes = vec![1u8, 2, 3, 4];
    let mut statuses = Vec::new();
    let mut bodies = Vec::new();
    for _ in 0..5 {
        let outcome = tile_outcome(FileRead::Content(bytes.clone()));
        statuses.push(outcome.status());
        bodies.push(outcome.into_body());
    }
    for i in 1..5 {
        assert_eq!(statuses[i], statuses[0]);
        assert_eq!(bodies[i], bodies[0]);
    }
}

#[test]
fn empty_file_still_serves_success() {
    let outcome = tile_outcome(FileRead::Content(Vec::new()));
    assert_eq!(outcome.status(), 200);
    assert_eq!(outcome.content_type(), Some("image/png"));
    assert!(outcome.into_body().is_empty());
}

#[test]
fn landing_page_is_fixed_html() {
    for _ in 0..3 {
        let (status, body) = serve_root();
        assert_eq!(status, 200);
        assert!(!body.is_empty());
        assert_eq!(body, "<h1>map source</h1>");
    }
}

#[test]
fn outcome_variants_cover_the_taxonomy() {
    assert!(matches!(
        tile_outcome(FileRead::Content(vec![7u8])),
        ResponseOutcome::Success(_)
    ));
    assert!(matches!(
        tile_outcome(FileRead::Unopenable),
        ResponseOutcome::NotFound
    ));
    assert!(matches!(
        tile_outcome(FileRead::ReadFailed),
        ResponseOutcome::InternalError
    ));
}
