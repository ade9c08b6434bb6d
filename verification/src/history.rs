//! Browsing history records for normal (non-incognito) tabs.
//!
//! Visits are written elsewhere as newline-delimited JSON, one record per
//! line, by a background writer; this module decides what is recorded and
//! in what order records are handed back.
use vstd::prelude::*;
use std::time::{Duration, SystemTime, SystemTimeError};
use crate::text;

verus! {

/// One visited page.
#[derive(Clone, Debug, PartialEq, Eq)]
pub struct HistoryEntry {
    pub url: String,
    pub title: String,
    /// Unix seconds.
    pub visited_at: u64,
}

impl HistoryEntry {
    /// A copy of this entry.
    pub fn duplicate(&self) -> (r: HistoryEntry)
        ensures
            r == *self,
    {
        HistoryEntry { url: self.url.clone(), title: self.title.clone(), visited_at: self.visited_at }
    }
}

/// Copies of all the entries, in order.
pub fn duplicate_entries(v: &Vec<HistoryEntry>) -> (r: Vec<HistoryEntry>)
    ensures
        r@ == v@,
{
    let mut r: Vec<HistoryEntry> = Vec::new();
    let mut i: usize = 0;
    while i < v.len()
        invariant
            i <= v.len(),
            r@ == v@.take(i as int),
        decreases v.len() - i,
    {
        r.push(v[i].duplicate());
        assert(v@.take(i + 1) =~= v@.take(i as int).push(v@[i as int]));
        i = i + 1;
    }
    assert(v@.take(v.len() as int) =~= v@);
    r
}

#[verifier::external_type_specification]
#[verifier::external_body]
pub struct ExSystemTime(SystemTime);

#[verifier::external_type_specification]
#[verifier::external_body]
pub struct ExSystemTimeError(SystemTimeError);

/// The current system time (`SystemTime::now`). Nothing is stated of it: it
/// is whatever the clock reads.
#[verifier::external_body]
fn system_time_now() -> SystemTime {
    SystemTime::now()
}

/// The time elapsed since the Unix epoch (`SystemTime::duration_since` with
/// `UNIX_EPOCH`); an error when the clock reads a time before the epoch.
/// Nothing is stated of the duration, which depends on the clock.
#[verifier::external_body]
fn since_unix_epoch(t: &SystemTime) -> Result<Duration, SystemTimeError> {
    t.duration_since(std::time::UNIX_EPOCH)
}

/// Whole seconds of a duration (`Duration::as_secs`). The duration is opaque
/// here, so nothing is stated of the number.
#[verifier::external_body]
fn whole_seconds(d: &Duration) -> u64 {
    d.as_secs()
}

/// Whole milliseconds of a duration (`Duration::as_millis`). The duration is
/// opaque here, so nothing is stated of the number.
#[verifier::external_body]
fn whole_millis(d: &Duration) -> u128 {
    d.as_millis()
}

/// The whole seconds of the time elapsed since the epoch, or 0 when the
/// clock read a time before the epoch.
pub fn seconds_or_zero(elapsed: Result<Duration, SystemTimeError>) -> (s: u64)
    ensures
        elapsed is Err ==> s == 0,
{
    match elapsed {
        Ok(d) => whole_seconds(&d),
        Err(_) => 0,
    }
}

/// The whole milliseconds of the time elapsed since the epoch, or 0 when the
/// clock read a time before the epoch.
pub fn millis_or_zero(elapsed: Result<Duration, SystemTimeError>) -> (ms: u128)
    ensures
        elapsed is Err ==> ms == 0,
{
    match elapsed {
        Ok(d) => whole_millis(&d),
        Err(_) => 0,
    }
}

/// Current Unix time in seconds, or 0 when the clock reads a time before the
/// epoch.
pub fn now_unix_secs() -> u64 {
    seconds_or_zero(since_unix_epoch(&system_time_now()))
}

/// Current Unix time in milliseconds, or 0 when the clock reads a time before
/// the epoch.
pub fn now_unix_millis() -> u128 {
    millis_or_zero(since_unix_epoch(&system_time_now()))
}

/// Whether a URL is one of SCIFI's own internal pages.
pub open spec fn is_internal_url(url: Seq<char>) -> bool {
    text::has_prefix(url, "scifi://"@)
}

/// The record to hand to the history writer for a visit at `now` (Unix
/// seconds, as `now_unix_secs` reads them). SCIFI's own internal pages
/// (`scifi://...`) are never logged.
pub fn record_visit(url: &str, title: &str, now: u64) -> (r: Option<HistoryEntry>)
    ensures
        r is None <==> is_internal_url(url@),
        r matches Some(e) ==> e.url@ == url@ && e.title@ == title@ && e.visited_at == now,
{
    if text::str_starts_with(url, "scifi://") {
        return None;
    }
    Some(HistoryEntry {
        url: String::from_str(url),
        title: String::from_str(title),
        visited_at: now,
    })
}

/// The stored entries (oldest first) turned into the list shown to the user:
/// most recent first, capped at `limit` entries.
pub fn most_recent_first(entries: Vec<HistoryEntry>, limit: usize) -> (r: Vec<HistoryEntry>)
    ensures
        r@.len() == if limit < entries@.len() { limit as int } else { entries@.len() as int },
        forall|i: int| 0 <= i < r@.len() ==> #[trigger] r@[i] == entries@[entries@.len() - 1 - i],
{
    let ghost all = entries@;
    let mut rest = entries;
    let mut r: Vec<HistoryEntry> = Vec::new();
    while r.len() < limit && rest.len() > 0
        invariant
            r@.len() <= limit,
            rest@ == all.take(all.len() - r@.len()),
            r@.len() <= all.len(),
            forall|i: int| 0 <= i < r@.len() ==> #[trigger] r@[i] == all[all.len() - 1 - i],
        decreases rest.len(),
    {
        match rest.pop() {
            Some(e) => {
                r.push(e);
            },
            None => {},
        }
        assert(rest@ =~= all.take(all.len() - r@.len()));
    }
    r
}

/// Only SCIFI's own pages are kept out of history: a URL is internal exactly
/// when its first eight characters are `scifi://`, so every `http://` and
/// `https://` visit (and any other URL) is recorded by `record_visit`.
pub proof fn law_only_internal_pages_skipped(url: Seq<char>)
    ensures
        is_internal_url(url) <==> (url.len() >= 8 && url.take(8) == "scifi://"@),
        url.len() >= 7 && url.take(7) == "http://"@ ==> !is_internal_url(url),
        url.len() >= 8 && url.take(8) == "https://"@ ==> !is_internal_url(url),
{
    reveal_strlit("scifi://");
    reveal_strlit("http://");
    reveal_strlit("https://");
    assert("scifi://"@.len() == 8);
    if url.len() >= 8 && url.take(7) == "http://"@ {
        assert(url.take(8)[0] == url.take(7)[0]);
        assert("scifi://"@[0] != "http://"@[0]);
    }
    if url.len() >= 8 && url.take(8) == "https://"@ {
        assert("scifi://"@[0] != "https://"@[0]);
    }
}

} // verus!
