use vstd::prelude::*;
use crate::cinema::Cinema;
use crate::error::Error;
use crate::film::Film;

verus! {

/// The text of the `Calendar.FeedGenerated` member of a calendar document,
/// when the document is valid JSON and carries one.
pub uninterp spec fn feed_generated_of(doc: Seq<char>) -> Option<Seq<char>>;

/// Relies on serde_json's from_str, Value::get and Value::as_str: the
/// member extracted depends on the document text alone.
#[verifier::external_body]
pub(crate) fn feed_generated_field(doc: &str) -> (r: Option<String>)
    ensures
        r is Some <==> feed_generated_of(doc@) is Some,
        r matches Some(s) ==> feed_generated_of(doc@) == Some(s@),
{
    let v: serde_json::Value = serde_json::from_str(doc).ok()?;
    Some(v.get("Calendar")?.get("FeedGenerated")?.as_str()?.to_string())
}

/// The instant an RFC 3339 date-time text denotes, as seconds since the
/// Unix epoch, when the text parses.
pub uninterp spec fn rfc3339_seconds_of(text: Seq<char>) -> Option<int>;

/// Relies on chrono's DateTime::parse_from_rfc3339 and DateTime::timestamp:
/// the instant depends on the text alone.
#[verifier::external_body]
pub(crate) fn rfc3339_to_seconds(text: &str) -> (r: Option<i64>)
    ensures
        r is Some <==> rfc3339_seconds_of(text@) is Some,
        r matches Some(t) ==> rfc3339_seconds_of(text@) == Some(t as int),
{
    match chrono::DateTime::parse_from_rfc3339(text) {
        Ok(dt) => Some(dt.timestamp()),
        Err(_) => None,
    }
}

/// Relies on chrono's Utc::now and DateTime::timestamp: the clock reading
/// at the moment of the call; nothing is assumed of the value.
#[verifier::external_body]
pub(crate) fn now_utc_seconds() -> i64 {
    chrono::Utc::now().timestamp()
}

/// The cinema record a calendar document describes, when the document
/// decodes into the calendar schema.
pub uninterp spec fn cinema_of(doc: Seq<char>) -> Option<Cinema>;

/// Relies on serde_json's from_str, Value::get and Value::as_str: the
/// record depends on the document text alone.
#[verifier::external_body]
pub(crate) fn parse_cinema(doc: &str) -> (r: Option<Cinema>)
    ensures
        r == cinema_of(doc@),
{
    let v: serde_json::Value = serde_json::from_str(doc).ok()?;
    let c = v.get("Cinema")?;
    let m = c.get("Market")?;
    Some(Cinema {
        id: c.get("Id")?.as_str()?.to_string(),
        name: c.get("Name")?.as_str()?.to_string(),
        slug: c.get("Slug")?.as_str()?.to_string(),
        market_id: m.get("Id")?.as_str()?.to_string(),
        market_name: m.get("Name")?.as_str()?.to_string(),
        market_slug: m.get("Slug")?.as_str()?.to_string(),
    })
}

/// The film list a calendar document describes, when the document decodes
/// into the calendar schema.
pub uninterp spec fn films_of(doc: Seq<char>) -> Option<Seq<Film>>;

/// Relies on serde_json's from_str, Value::get, Value::as_array and
/// Value::as_str: the list depends on the document text alone.
#[verifier::external_body]
pub(crate) fn parse_films(doc: &str) -> (r: Option<Vec<Film>>)
    ensures
        r is Some <==> films_of(doc@) is Some,
        r matches Some(v) ==> films_of(doc@) == Some(v@),
{
    let v: serde_json::Value = serde_json::from_str(doc).ok()?;
    let mut films = Vec::new();
    for f in v.get("Films")?.as_array()? {
        films.push(Film {
            name: f.get("Name")?.as_str()?.to_string(),
            show_type: f.get("ShowType")?.as_str()?.to_string(),
        });
    }
    Some(films)
}

/// Decodes a cached calendar document into its cinema record and film
/// list. Pure in the document text: a document that does not carry both
/// parts is rejected as a parse failure.
pub fn load_calendar(content: &str) -> (r: Result<(Cinema, Vec<Film>), Error>)
    ensures
        r is Ok <==> (cinema_of(content@) is Some && films_of(content@) is Some),
        r matches Ok(p) ==> cinema_of(content@) == Some(p.0) && films_of(content@) == Some(
            p.1@,
        ),
        r is Err ==> (r matches Err(e) && e == Error::Parse),
{
    let cin = parse_cinema(content);
    let films = parse_films(content);
    match (cin, films) {
        (Some(c), Some(fs)) => Ok((c, fs)),
        _ => Err(Error::Parse),
    }
}

} // verus!
