use alamo_movies::cinema::Cinema;
use alamo_movies::error::{Error, SyncError};
use alamo_movies::feed::load_calendar;
use alamo_movies::orchestrator::{
    accept_sync_payload, aggregate_outcomes, bulk_item_plan, bulk_run_failed, select_bulk_ids,
    sync_failure, BulkSelection, ResolveStep,
};

// A full calendar document for cinema 0001, generated 2020-09-13T11:26:40.
fn payload_for(id: &str) -> String {
    format!(
        "{{\"Calendar\":{{\"FeedGenerated\":\"2020-09-13T11:26:40\"}},\
         \"Cinema\":{{\"Id\":\"{}\",\"Name\":\"Ritz\",\"Slug\":\"ritz\",\
         \"Market\":{{\"Id\":\"0100\",\"Name\":\"Austin\",\"Slug\":\"austin\"}}}},\
         \"Films\":[{{\"Name\":\"Alien\",\"ShowType\":\"Q&A\"}},\
         {{\"Name\":\"Brazil\",\"ShowType\":\"Big Show\"}}]}}",
        id
    )
}

#[test]
fn load_calendar_decodes_cinema_and_films() {
    let doc = payload_for("0002");
    let (cinema, films) = load_calendar(&doc).unwrap();
    assert_eq!(cinema.id, "0002");
    assert_eq!(cinema.name, "Ritz");
    assert_eq!(cinema.market_name, "Austin");
    assert_eq!(films.len(), 2);
    assert_eq!(films[0].name, "Alien");
    assert_eq!(films[1].show_type, "Big Show");
}

#[test]
fn load_calendar_rejects_incomplete_document() {
    assert_eq!(load_calendar("{}"), Err(Error::Parse));
    assert_eq!(
        load_calendar("{\"Cinema\":{\"Id\":\"0002\"}}"),
        Err(Error::Parse)
    );
}

#[test]
fn sync_writes_payload_unchanged_and_is_idempotent() {
    let payload = payload_for("0001");
    let first = accept_sync_payload(Ok(payload.clone())).unwrap();
    assert_eq!(first.0, payload);
    // A second sync with the unchanged remote feed writes byte-for-byte
    // identical content.
    let second = accept_sync_payload(Ok(payload.clone())).unwrap();
    assert_eq!(second.0, first.0);
    assert_eq!(first.1.id, "0001");
    assert_eq!(first.2.len(), 2);
}

#[test]
fn sync_passes_fetch_failures_through() {
    assert_eq!(
        accept_sync_payload(Err(SyncError::Network)),
        Err(SyncError::Network)
    );
    assert_eq!(
        accept_sync_payload(Err(SyncError::Remote)),
        Err(SyncError::Remote)
    );
    assert_eq!(sync_failure(SyncError::Remote), Error::SyncFailed(SyncError::Remote));
}

#[test]
fn sync_rejects_undecodable_payload() {
    assert_eq!(
        accept_sync_payload(Ok("{}".to_string())),
        Err(SyncError::Parse)
    );
}

#[test]
fn bulk_refresh_ignores_staleness() {
    let fresh = payload_for("0002");
    // Restricted bulk runs re-sync even a fresh file.
    assert_eq!(
        bulk_item_plan(true, Some(&fresh), 1600000000),
        ResolveStep::Refresh
    );
    assert_eq!(
        bulk_item_plan(false, None, 1600000000),
        ResolveStep::Refresh
    );
}

#[test]
fn aggregate_counts_each_outcome_independently() {
    let report = aggregate_outcomes(&vec![true, false, true, true]);
    assert_eq!(report.failures, 1);
    assert_eq!(report.successes, 3);
    assert!(bulk_run_failed(&report));
    let clean = aggregate_outcomes(&vec![true, true]);
    assert_eq!(clean.failures, 0);
    assert!(!bulk_run_failed(&clean));
}

#[test]
fn select_ids_reports_missing_local_data_distinctly() {
    let catalog = Cinema::list();
    assert_eq!(select_bulk_ids(true, None, &catalog), BulkSelection::NoLocalData);
}

#[test]
fn select_ids_restricted_takes_cached_identifiers() {
    let catalog = Cinema::list();
    let files = vec!["0002.calendar.json".to_string(), "junk".to_string()];
    match select_bulk_ids(true, Some(&files), &catalog) {
        BulkSelection::Ids(ids) => assert_eq!(ids, vec!["0002".to_string()]),
        BulkSelection::NoLocalData => panic!("expected identifiers"),
    }
}

#[test]
fn select_ids_full_takes_catalog() {
    let catalog = Cinema::list();
    match select_bulk_ids(false, None, &catalog) {
        BulkSelection::Ids(ids) => {
            assert_eq!(ids.len(), 5);
            assert_eq!(ids[0], "0002");
        },
        BulkSelection::NoLocalData => panic!("expected identifiers"),
    }
}

#[test]
fn bulk_run_with_one_unmatched_identifier() {
    // Two identifiers resolve; "0001" has a remote match, "0002" does not.
    let ids = vec!["0001".to_string(), "0002".to_string()];
    let mut outcomes: Vec<bool> = Vec::new();
    let mut loaded: Vec<String> = Vec::new();
    for id in &ids {
        let fetched: Result<String, SyncError> = if id == "0001" {
            Ok(payload_for(id))
        } else {
            Err(SyncError::Remote)
        };
        match accept_sync_payload(fetched) {
            Ok((content, _cinema, _films)) => {
                loaded.push(content);
                outcomes.push(true);
            },
            Err(_) => outcomes.push(false),
        }
    }
    let report = aggregate_outcomes(&outcomes);
    assert_eq!(report.failures, 1);
    assert_eq!(report.successes, 1);
    assert!(bulk_run_failed(&report));
    // The successful item's cached content is loadable afterward.
    assert!(load_calendar(&loaded[0]).is_ok());
}
