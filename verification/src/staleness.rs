use vstd::prelude::*;
use vstd::string::*;
use crate::feed::{
    feed_generated_of, rfc3339_seconds_of, feed_generated_field, rfc3339_to_seconds,
    now_utc_seconds,
};

verus! {

/// Number of seconds a cached calendar file stays usable after its
/// embedded generation timestamp.
pub const FRESHNESS_WINDOW_SECONDS: i64 = 86400;

/// Outcome of checking a cached calendar file.
///
/// `Missing`: no file exists for the identifier.
/// `Malformed`: a file exists but its generation timestamp cannot be read.
/// `Expired`: the generation timestamp is more than 24 hours before now.
/// `Fresh`: the file is usable as it stands.
#[derive(Clone, Copy, Debug, PartialEq, Eq, Structural)]
pub enum Verdict {
    Fresh,
    Missing,
    Malformed,
    Expired,
}

/// A generation timestamp is stale exactly when it lies more than 24 hours
/// before `now`. A timestamp in the future is never stale.
pub open spec fn spec_is_stale(generated: int, now: int) -> bool {
    now - generated > FRESHNESS_WINDOW_SECONDS
}

/// Decides staleness of a generation timestamp against the current time,
/// both in seconds since the Unix epoch.
pub fn is_stale(generated: i64, now: i64) -> (r: bool)
    ensures
        r == spec_is_stale(generated as int, now as int),
{
    (now as i128) - (generated as i128) > (FRESHNESS_WINDOW_SECONDS as i128)
}

/// The verdict for a file that exists and whose generation timestamp was
/// extracted: `Expired` when stale, else `Fresh`.
pub fn verdict_for_timestamp(generated: i64, now: i64) -> (v: Verdict)
    ensures
        v == Verdict::Expired <==> spec_is_stale(generated as int, now as int),
        v == Verdict::Expired || v == Verdict::Fresh,
{
    if is_stale(generated, now) {
        Verdict::Expired
    } else {
        Verdict::Fresh
    }
}

/// The instant a feed-generation field denotes: read as an RFC 3339
/// date-time as it stands when it already carries a zone; with the UTC
/// designator appended when the source omits it.
pub open spec fn spec_feed_instant(field: Seq<char>) -> Option<int> {
    if rfc3339_seconds_of(field) is Some {
        rfc3339_seconds_of(field)
    } else {
        rfc3339_seconds_of(field + "Z"@)
    }
}

/// The verdict on a calendar document that exists, at time `now`. The
/// generation timestamp is the instant the `Calendar.FeedGenerated`
/// member denotes; a document without a readable timestamp is malformed.
pub open spec fn spec_check_present(content: Seq<char>, now: int) -> Verdict {
    match feed_generated_of(content) {
        None => Verdict::Malformed,
        Some(field) => match spec_feed_instant(field) {
            None => Verdict::Malformed,
            Some(t) => if spec_is_stale(t, now) {
                Verdict::Expired
            } else {
                Verdict::Fresh
            },
        },
    }
}

/// The verdict on a cache entry that may be absent.
pub open spec fn spec_check(content: Option<Seq<char>>, now: int) -> Verdict {
    match content {
        None => Verdict::Missing,
        Some(c) => spec_check_present(c, now),
    }
}

/// Checks a calendar document that exists against the time `now`.
pub fn check_content(content: &str, now: i64) -> (v: Verdict)
    ensures
        v == spec_check_present(content@, now as int),
{
    match feed_generated_field(content) {
        None => Verdict::Malformed,
        Some(field) => match rfc3339_to_seconds(field.as_str()) {
            Some(t) => verdict_for_timestamp(t, now),
            None => {
                let mut with_zone = field;
                with_zone.append("Z");
                match rfc3339_to_seconds(with_zone.as_str()) {
                    None => Verdict::Malformed,
                    Some(t) => verdict_for_timestamp(t, now),
                }
            },
        },
    }
}

/// Checks a cache entry that may be absent against the time `now`: the
/// staleness checker of the resolve path.
pub fn check(content: Option<&String>, now: i64) -> (v: Verdict)
    ensures
        match content {
            None => v == Verdict::Missing,
            Some(c) => v == spec_check_present(c@, now as int),
        },
{
    match content {
        None => Verdict::Missing,
        Some(c) => check_content(c.as_str(), now),
    }
}

/// Checks a cache entry against the clock. Whatever reading the clock
/// gives, the verdict is the one the checker computes for that reading,
/// which is returned beside it.
pub fn current_verdict(content: Option<&String>) -> (r: (Verdict, i64))
    ensures
        match content {
            None => r.0 == Verdict::Missing,
            Some(c) => r.0 == spec_check_present(c@, r.1 as int),
        },
{
    let now = now_utc_seconds();
    (check(content, now), now)
}

/// How the checker classifies a document: `Missing` exactly for an absent
/// entry; for a document whose embedded generation timestamp reads as the
/// instant `t`, `Expired` exactly when `t` lies more than 24 hours before
/// `now`, and `Fresh` otherwise, a future `t` included.
pub proof fn lemma_staleness_classification(content: Seq<char>, t: int, now: int)
    requires
        feed_generated_of(content) is Some,
        spec_feed_instant(feed_generated_of(content).unwrap()) == Some(t),
    ensures
        spec_check(None, now) == Verdict::Missing,
        now - t > FRESHNESS_WINDOW_SECONDS ==> spec_check(Some(content), now)
            == Verdict::Expired,
        now - t <= FRESHNESS_WINDOW_SECONDS ==> spec_check(Some(content), now)
            == Verdict::Fresh,
{
}

} // verus!
