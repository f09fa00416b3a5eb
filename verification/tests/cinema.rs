use alamo_movies::cinema::{print_cinema_info_for, sort_cinemas_by_id, Cinema};
use alamo_movies::error::Error;

#[test]
fn sorts_cinemas_by_identifier() {
    let mut cinemas = Cinema::list();
    cinemas.reverse();
    let sorted = sort_cinemas_by_id(cinemas);
    assert_eq!(sorted[0].id, "0002");
    assert_eq!(sorted[1].id, "0003");
    assert_eq!(sorted[2].id, "0004");
    assert_eq!(sorted[3].id, "0006");
    assert_eq!(sorted[4].id, "0007");
}

#[test]
fn normalize_pads_short_identifiers() {
    assert_eq!(Cinema::to_cinema_id("2").unwrap(), "0002");
    assert_eq!(Cinema::to_cinema_id("14").unwrap(), "0014");
    assert_eq!(Cinema::to_cinema_id("0004").unwrap(), "0004");
}

#[test]
fn normalize_rejects_bad_identifiers() {
    assert_eq!(Cinema::to_cinema_id(""), Err(Error::InvalidIdentifier));
    assert_eq!(Cinema::to_cinema_id("12345"), Err(Error::InvalidIdentifier));
    assert_eq!(Cinema::to_cinema_id("12a"), Err(Error::InvalidIdentifier));
    assert_eq!(Cinema::to_cinema_id("-2"), Err(Error::InvalidIdentifier));
}

#[test]
fn catalog_lists_known_cinemas() {
    let cinemas = Cinema::list();
    assert_eq!(cinemas.len(), 5);
    assert_eq!(cinemas[0].id, "0002");
    assert_eq!(cinemas[0].name, "Ritz");
    assert_eq!(cinemas[1].id, "0003");
    assert_eq!(cinemas[2].id, "0004");
    assert_eq!(cinemas[2].slug, "south-lamar");
    assert_eq!(cinemas[3].id, "0006");
    assert_eq!(cinemas[4].id, "0007");
    for cinema in cinemas.iter() {
        assert_eq!(cinema.market_name, "Austin");
        assert_eq!(cinema.market_id, "0100");
        assert_eq!(cinema.market_slug, "austin");
    }
}

#[test]
fn info_line_format() {
    let cinemas = Cinema::list();
    let line = print_cinema_info_for(&cinemas[0]);
    assert_eq!(line, "0002 Ritz (Austin)");
}

#[test]
fn error_descriptions() {
    assert_eq!(Error::InvalidIdentifier.describe(), "invalid cinema identifier");
    assert_eq!(
        Error::SyncFailed(alamo_movies::error::SyncError::Network).describe(),
        "sync failed: network error"
    );
}
