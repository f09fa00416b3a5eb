use alamo_movies::staleness::{check, check_content, is_stale, verdict_for_timestamp, Verdict};
use alamo_movies::orchestrator::{plan_resolve, ResolveStep};

// 1600000000 seconds after the Unix epoch is 2020-09-13T12:26:40Z.
const NOW: i64 = 1600000000;

fn content_generated_at(stamp: &str) -> String {
    format!("{{\"Calendar\":{{\"FeedGenerated\":\"{}\"}}}}", stamp)
}

#[test]
fn missing_file_is_missing() {
    assert_eq!(check(None, NOW), Verdict::Missing);
}

#[test]
fn thirty_hours_old_is_expired() {
    // 30 hours before NOW.
    let content = content_generated_at("2020-09-12T06:26:40");
    assert_eq!(check_content(&content, NOW), Verdict::Expired);
    // An expired file triggers a refresh on the resolve path.
    assert_eq!(plan_resolve(Some(&content), NOW), ResolveStep::Refresh);
}

#[test]
fn one_hour_old_is_fresh() {
    let content = content_generated_at("2020-09-13T11:26:40");
    assert_eq!(check_content(&content, NOW), Verdict::Fresh);
    assert_eq!(plan_resolve(Some(&content), NOW), ResolveStep::UseCache);
}

#[test]
fn exactly_24_hours_old_is_fresh() {
    let content = content_generated_at("2020-09-12T12:26:40");
    assert_eq!(check_content(&content, NOW), Verdict::Fresh);
}

#[test]
fn just_over_24_hours_old_is_expired() {
    let content = content_generated_at("2020-09-12T12:26:39");
    assert_eq!(check_content(&content, NOW), Verdict::Expired);
}

#[test]
fn future_timestamp_is_fresh() {
    // One hour after NOW: negative elapsed time must not read as expired.
    let content = content_generated_at("2020-09-13T13:26:40");
    assert_eq!(check_content(&content, NOW), Verdict::Fresh);
}

#[test]
fn missing_field_is_malformed() {
    assert_eq!(check_content("{\"Calendar\":{}}", NOW), Verdict::Malformed);
    assert_eq!(check_content("not json at all", NOW), Verdict::Malformed);
}

#[test]
fn unparsable_timestamp_is_malformed() {
    let content = content_generated_at("not-a-date");
    assert_eq!(check_content(&content, NOW), Verdict::Malformed);
}

#[test]
fn explicit_zone_is_honored() {
    // A field that already carries a zone is read as it stands; the UTC
    // designator is appended only when the source omits it.
    let zoned = content_generated_at("2020-09-13T11:26:40Z");
    assert_eq!(check_content(&zoned, NOW), Verdict::Fresh);
    let offset = content_generated_at("2020-09-12T06:26:40+00:00");
    assert_eq!(check_content(&offset, NOW), Verdict::Expired);
    let east = content_generated_at("2020-09-13T13:26:40+02:00");
    assert_eq!(check_content(&east, NOW), Verdict::Fresh);
}

#[test]
fn staleness_threshold_on_plain_seconds() {
    assert!(is_stale(0, 86401));
    assert!(!is_stale(0, 86400));
    assert!(!is_stale(1000, 0));
    assert_eq!(verdict_for_timestamp(0, 86401), Verdict::Expired);
    assert_eq!(verdict_for_timestamp(0, 86400), Verdict::Fresh);
    assert_eq!(verdict_for_timestamp(1000, 0), Verdict::Fresh);
}
