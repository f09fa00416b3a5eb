use vstd::prelude::*;
use crate::cinema::Cinema;
use crate::error::{Error, SyncError};
use crate::feed::{feed_generated_of, cinema_of, films_of, parse_cinema, parse_films,
    feed_generated_field};
use crate::film::Film;
use crate::staleness::{Verdict, check, spec_check_present, spec_feed_instant, spec_is_stale};

verus! {

/// What the resolve path does next for one cinema: serve the cached file
/// as it stands, or refresh it from the remote source first.
#[derive(Clone, Copy, Debug, PartialEq, Eq, Structural)]
pub enum ResolveStep {
    UseCache,
    Refresh,
}

/// Decides the resolve path for a cache entry at time `now`: the cache is
/// served untouched exactly when the staleness checker finds it fresh; a
/// missing, malformed or expired entry is refreshed first.
pub fn plan_resolve(cached: Option<&String>, now: i64) -> (s: ResolveStep)
    ensures
        (s == ResolveStep::UseCache) <==> (cached matches Some(c) && spec_check_present(
            c@,
            now as int,
        ) == Verdict::Fresh),
{
    match check(cached, now) {
        Verdict::Fresh => ResolveStep::UseCache,
        _ => ResolveStep::Refresh,
    }
}

/// Data is never served past its window without a refresh: whenever the
/// resolve path lets a cached document stand, the document carries a
/// readable generation timestamp that is at most 24 hours before `now`.
pub proof fn lemma_cache_served_only_when_recent(content: Seq<char>, now: int)
    requires
        spec_check_present(content, now) == Verdict::Fresh,
    ensures
        feed_generated_of(content) is Some,
        spec_feed_instant(feed_generated_of(content).unwrap()) is Some,
        !spec_is_stale(spec_feed_instant(feed_generated_of(content).unwrap()).unwrap(), now),
{
}

/// A payload decodes into the calendar schema when it carries the cinema
/// record, the film list and the generation timestamp.
pub open spec fn spec_payload_parses(doc: Seq<char>) -> bool {
    &&& cinema_of(doc) is Some
    &&& films_of(doc) is Some
    &&& feed_generated_of(doc) is Some
}

/// What the cache file holds after a sync writes `payload`: the payload
/// itself, whatever was there before — a full overwrite, never a merge.
pub open spec fn spec_cache_after_sync(prior: Option<Seq<char>>, payload: Seq<char>) -> Seq<
    char,
> {
    payload
}

/// Syncing is idempotent: a second sync with the same payload leaves the
/// cache file exactly as the first wrote it, whatever it held before.
pub proof fn lemma_sync_idempotent(prior: Option<Seq<char>>, payload: Seq<char>)
    ensures
        spec_cache_after_sync(Some(spec_cache_after_sync(prior, payload)), payload)
            == spec_cache_after_sync(prior, payload),
{
}

/// Completes one refresh from the outcome of the remote fetch. A fetch
/// failure is passed through; a payload that does not decode into the
/// calendar schema is a parse failure; otherwise the payload to be written
/// is returned unchanged beside the cinema and films it decodes to.
pub fn accept_sync_payload(fetch: Result<String, SyncError>) -> (r: Result<
    (String, Cinema, Vec<Film>),
    SyncError,
>)
    ensures
        fetch matches Err(e) ==> (r matches Err(e2) && e2 == e),
        fetch matches Ok(p) ==> (if spec_payload_parses(p@) {
            r matches Ok(t) && t.0 == p && cinema_of(p@) == Some(t.1) && films_of(p@) == Some(
                t.2@,
            ) && spec_cache_after_sync(None, p@) == t.0@
        } else {
            r matches Err(e2) && e2 == SyncError::Parse
        }),
{
    match fetch {
        Err(e) => Err(e),
        Ok(p) => {
            let cin = parse_cinema(p.as_str());
            let films = parse_films(p.as_str());
            let feed = feed_generated_field(p.as_str());
            match (cin, films, feed) {
                (Some(c), Some(fs), Some(_)) => Ok((p, c, fs)),
                _ => Err(SyncError::Parse),
            }
        },
    }
}

/// Wraps the cause of a failed refresh the way the resolve path reports
/// it: the sync failed, the underlying cause kept.
pub fn sync_failure(cause: SyncError) -> (r: Error)
    ensures
        r == Error::SyncFailed(cause),
{
    Error::SyncFailed(cause)
}

/// What one bulk work item does: the restricted bulk path re-syncs every
/// matched identifier without checking staleness; the full path follows
/// the single-cinema plan.
pub fn bulk_item_plan(update_only_local: bool, cached: Option<&String>, now: i64) -> (s:
    ResolveStep)
    ensures
        update_only_local ==> s == ResolveStep::Refresh,
        !update_only_local ==> ((s == ResolveStep::UseCache) <==> (cached matches Some(c)
            && spec_check_present(c@, now as int) == Verdict::Fresh)),
{
    if update_only_local {
        ResolveStep::Refresh
    } else {
        plan_resolve(cached, now)
    }
}

/// How many of the recorded bulk outcomes failed.
pub open spec fn spec_failure_count(s: Seq<bool>) -> nat
    decreases s.len(),
{
    if s.len() == 0 {
        0
    } else {
        spec_failure_count(s.drop_last()) + if s.last() {
            0nat
        } else {
            1nat
        }
    }
}

/// The aggregate of a bulk run: how many items succeeded and how many
/// failed.
#[derive(Clone, Copy, Debug, PartialEq, Eq, Structural)]
pub struct BulkReport {
    pub successes: usize,
    pub failures: usize,
}

/// Aggregates the per-item outcomes of a bulk run after every item has
/// been attempted. Each outcome is counted independently: one failure
/// never hides another item's success.
pub fn aggregate_outcomes(outcomes: &Vec<bool>) -> (r: BulkReport)
    ensures
        r.failures == spec_failure_count(outcomes@),
        r.successes + r.failures == outcomes@.len(),
{
    let mut failures: usize = 0;
    let mut successes: usize = 0;
    let mut i: usize = 0;
    proof {
        assert(outcomes@.subrange(0, 0) =~= Seq::<bool>::empty());
    }
    while i < outcomes.len()
        invariant
            i <= outcomes@.len(),
            failures == spec_failure_count(outcomes@.subrange(0, i as int)),
            successes + failures == i,
        decreases outcomes@.len() - i,
    {
        if outcomes[i] {
            successes += 1;
        } else {
            failures += 1;
        }
        proof {
            let pre = outcomes@.subrange(0, i as int);
            let cur = outcomes@.subrange(0, i + 1);
            assert(cur.drop_last() =~= pre);
            assert(cur.last() == outcomes@[i as int]);
        }
        i += 1;
    }
    proof {
        assert(outcomes@.subrange(0, outcomes@.len() as int) =~= outcomes@);
    }
    BulkReport { successes, failures }
}

/// A bulk run is reported as failing exactly when at least one item
/// failed.
pub fn bulk_run_failed(report: &BulkReport) -> (b: bool)
    ensures
        b == (report.failures > 0),
{
    report.failures > 0
}

proof fn lemma_no_failures(s: Seq<bool>)
    requires
        forall|j: int| 0 <= j < s.len() ==> s[j],
    ensures
        spec_failure_count(s) == 0,
    decreases s.len(),
{
    if s.len() > 0 {
        lemma_no_failures(s.drop_last());
    }
}

/// One failing item among otherwise successful ones is recorded as exactly
/// one failure: the aggregate of a run where item `i` failed and every
/// other item succeeded reports one failure and `len - 1` successes.
pub proof fn lemma_single_failure(s: Seq<bool>, i: int)
    requires
        0 <= i < s.len(),
        !s[i],
        forall|j: int| 0 <= j < s.len() && j != i ==> s[j],
    ensures
        spec_failure_count(s) == 1,
    decreases s.len(),
{
    if i == s.len() - 1 {
        lemma_no_failures(s.drop_last());
    } else {
        lemma_single_failure(s.drop_last(), i);
    }
}

/// The identifier set of a bulk run, or the distinct report that there is
/// no local cinema data to update.
#[derive(Debug, PartialEq, Eq)]
pub enum BulkSelection {
    NoLocalData,
    Ids(Vec<String>),
}

/// Picks the identifiers a bulk run works on. Restricted to local data, it
/// takes the identifiers of the calendar files in the cache directory —
/// and reports a missing directory distinctly rather than as an error;
/// otherwise it takes the whole built-in catalog.
pub fn select_bulk_ids(
    update_only_local: bool,
    local_files: Option<&Vec<String>>,
    catalog: &Vec<Cinema>,
) -> (r: BulkSelection)
    ensures
        (update_only_local && local_files is None) ==> r == BulkSelection::NoLocalData,
        update_only_local ==> (local_files matches Some(fs) ==> (r
            matches BulkSelection::Ids(ids) && ids@.map_values(|s: String| s@)
            == crate::db::spec_cinema_ids(fs@))),
        !update_only_local ==> (r matches BulkSelection::Ids(ids) && ids@.map_values(
            |s: String| s@,
        ) == catalog@.map_values(|c: Cinema| c.id@)),
{
    if update_only_local {
        match local_files {
            None => BulkSelection::NoLocalData,
            Some(fs) => BulkSelection::Ids(crate::db::list_cinema_ids(fs)),
        }
    } else {
        let mut ids: Vec<String> = Vec::new();
        let mut i: usize = 0;
        while i < catalog.len()
            invariant
                i <= catalog@.len(),
                ids@.len() == i,
                forall|k: int| 0 <= k < i ==> #[trigger] ids@[k]@ == catalog@[k].id@,
            decreases catalog@.len() - i,
        {
            ids.push(catalog[i].id.clone());
            i += 1;
        }
        proof {
            assert(ids@.map_values(|s: String| s@) =~= catalog@.map_values(
                |c: Cinema| c.id@,
            ));
        }
        BulkSelection::Ids(ids)
    }
}

} // verus!
