//! Registry timestamps, read with `chrono`.
//!
//! An instant is kept as whole seconds since the Unix epoch and the
//! nanoseconds past that second, which is how `chrono` orders instants.
use vstd::prelude::*;

use crate::domain::VersionText;
use crate::release::{ReleaseEntry, ReleaseTimestamp};
use crate::text::{first_index_char, first_index_of, is_blank, trim, trimmed_chars};

verus! {

/// A parsed instant: `timestamp()` and `timestamp_subsec_nanos()`.
#[derive(Debug, Clone, Copy, PartialEq, Eq, Structural)]
pub struct Instant {
    pub secs: i64,
    pub nanos: u32,
}

/// `chrono::DateTime::parse_from_rfc3339(text)`, read as an instant, or
/// `None` when the text does not parse.
pub uninterp spec fn rfc3339_instant(text: Seq<char>) -> Option<Instant>;

/// `chrono::NaiveDateTime::parse_from_str(text, "%Y-%m-%dT%H:%M:%S%.f")`,
/// taken as UTC and read as an instant, or `None` when the text does not
/// parse.
pub uninterp spec fn naive_utc_instant(text: Seq<char>) -> Option<Instant>;

/// Calls `chrono::DateTime::parse_from_rfc3339`. The contract claims only
/// that the answer is the name `rfc3339_instant` applied to the text.
#[verifier::external_body]
fn parse_rfc3339(value: &str) -> (r: Option<Instant>)
    ensures
        r == rfc3339_instant(value@),
{
    match chrono::DateTime::parse_from_rfc3339(value) {
        Ok(t) => Some(Instant { secs: t.timestamp(), nanos: t.timestamp_subsec_nanos() }),
        Err(_) => None,
    }
}

/// Calls `chrono::NaiveDateTime::parse_from_str` with the format
/// `%Y-%m-%dT%H:%M:%S%.f` and reads the result as a UTC instant. The
/// contract claims only that the answer is the name `naive_utc_instant`
/// applied to the text.
#[verifier::external_body]
fn parse_naive_utc(value: &str) -> (r: Option<Instant>)
    ensures
        r == naive_utc_instant(value@),
{
    match chrono::NaiveDateTime::parse_from_str(value, "%Y-%m-%dT%H:%M:%S%.f") {
        Ok(n) => {
            let t = n.and_utc();
            Some(Instant { secs: t.timestamp(), nanos: t.timestamp_subsec_nanos() })
        },
        Err(_) => None,
    }
}

/// `a` is a later instant than `b`.
pub open spec fn instant_after(a: Instant, b: Instant) -> bool {
    a.secs > b.secs || (a.secs == b.secs && a.nanos > b.nanos)
}

pub fn is_after(a: Instant, b: Instant) -> (r: bool)
    ensures
        r == instant_after(a, b),
{
    a.secs > b.secs || (a.secs == b.secs && a.nanos > b.nanos)
}

/// The second of an instant as a Unix time.
pub open spec fn unix_secs_of(i: Instant) -> i64 {
    i.secs
}

pub fn to_unix_secs(i: Instant) -> (r: i64)
    ensures
        r == unix_secs_of(i),
{
    i.secs
}

/// A registry timestamp: RFC 3339, or else a date and time without offset,
/// taken as UTC.
pub open spec fn registry_instant(text: Seq<char>) -> Option<Instant> {
    match rfc3339_instant(text) {
        Some(t) => Some(t),
        None => naive_utc_instant(text),
    }
}

pub fn parse_registry_timestamp(value: &str) -> (r: Option<Instant>)
    ensures
        r == registry_instant(value@),
{
    match parse_rfc3339(value) {
        Some(t) => Some(t),
        None => parse_naive_utc(value),
    }
}

/// A date and time whose time part (after the first `T`) names no offset:
/// no `Z`, `+` or `-` in it.
pub open spec fn missing_timezone(value: Seq<char>) -> bool {
    match first_index_of(value, 'T') {
        None => false,
        Some(i) => {
            let time = value.skip(i + 1);
            !(time.len() > 0 && time.last() == 'Z') && !time.contains('+') && !time.contains('-')
        },
    }
}

pub fn timestamp_missing_timezone(value: &[char]) -> (r: bool)
    ensures
        r == missing_timezone(value@),
{
    match first_index_char(value, 'T') {
        None => false,
        Some(i) => {
            let ghost time = value@.skip(i + 1);
            if value.len() > i + 1 && value[value.len() - 1] == 'Z' {
                assert(time.last() == value@[value@.len() - 1]);
                return false;
            }
            let mut j: usize = i + 1;
            while j < value.len()
                invariant
                    i < j <= value@.len(),
                    time == value@.skip(i + 1),
                    first_index_of(value@, 'T') == Some(i as int),
                    !(time.len() > 0 && time.last() == 'Z'),
                    forall|k: int| i + 1 <= k < j ==> value@[k] != '+' && value@[k] != '-',
                decreases value@.len() - j,
            {
                if value[j] == '+' || value[j] == '-' {
                    assert(time[j - i - 1] == value@[j as int]);
                    assert(time.contains(value@[j as int]));
                    return false;
                }
                j = j + 1;
            }
            assert(!time.contains('+') && !time.contains('-')) by {
                assert forall|k: int| 0 <= k < time.len() implies time[k] != '+' && time[k] != '-' by {
                    assert(time[k] == value@[k + i + 1]);
                }
            }
            true
        },
    }
}

/// A timestamp as mise reports it: RFC 3339, or else (trimmed) a date and
/// time without offset, read with a `Z` appended.
pub open spec fn mise_instant(text: Seq<char>) -> Option<Instant> {
    match rfc3339_instant(text) {
        Some(t) => Some(t),
        None => {
            let t = trim(text);
            if missing_timezone(t) {
                rfc3339_instant(t.push('Z'))
            } else {
                None
            }
        },
    }
}

pub fn parse_mise_timestamp(value: &str) -> (r: Option<Instant>)
    ensures
        r == mise_instant(value@),
{
    if let Some(t) = parse_rfc3339(value) {
        return Some(t);
    }
    let mut trimmed = trimmed_chars(value);
    if !timestamp_missing_timezone(trimmed.as_slice()) {
        return None;
    }
    trimmed.push('Z');
    let text = crate::text::string_of(trimmed.as_slice());
    parse_rfc3339(text.as_str())
}


// ---------------------------------------------------------------------------
// Version times reported by a registry
// ---------------------------------------------------------------------------

/// How a source writes its timestamps.
#[derive(Debug, Clone, Copy, PartialEq, Eq, Structural)]
pub enum TimeFormat {
    /// RFC 3339, or a date and time without offset taken as UTC.
    Registry,
    /// What mise writes: RFC 3339, or a date and time without offset read
    /// with `Z` appended.
    Mise,
}

pub open spec fn instant_in(format: TimeFormat, text: Seq<char>) -> Option<Instant> {
    match format {
        TimeFormat::Registry => registry_instant(text),
        TimeFormat::Mise => mise_instant(text),
    }
}

pub fn parse_instant(format: TimeFormat, value: &str) -> (r: Option<Instant>)
    ensures
        r == instant_in(format, value@),
{
    match format {
        TimeFormat::Registry => parse_registry_timestamp(value),
        TimeFormat::Mise => parse_mise_timestamp(value),
    }
}

/// (version, time) pairs read as character sequences.
pub open spec fn time_pairs(v: Seq<(String, String)>) -> Seq<(Seq<char>, Seq<char>)> {
    v.map_values(|p: (String, String)| (p.0@, p.1@))
}

/// The outcome of reading (version, time) pairs in order: the (version,
/// Unix second) entries, or the first pair that does not read.
pub enum TimesView {
    Entries(Seq<(Seq<char>, i64)>),
    BadTime(Seq<char>, Seq<char>),
    BlankVersion,
}

/// One pair reads when its time parses and its version is not blank; the
/// time is checked first.
pub open spec fn read_times(format: TimeFormat, times: Seq<(Seq<char>, Seq<char>)>) -> TimesView
    decreases times.len(),
{
    if times.len() == 0 {
        TimesView::Entries(Seq::empty())
    } else {
        match read_times(format, times.drop_last()) {
            TimesView::Entries(es) => {
                let (v, ts) = times.last();
                match instant_in(format, ts) {
                    None => TimesView::BadTime(v, ts),
                    Some(t) => if is_blank(v) {
                        TimesView::BlankVersion
                    } else {
                        TimesView::Entries(es.push((v, unix_secs_of(t))))
                    },
                }
            },
            other => other,
        }
    }
}

/// Once a pair fails to read, the later pairs change nothing.
proof fn lemma_read_times_stop(format: TimeFormat, times: Seq<(Seq<char>, Seq<char>)>, k: int)
    requires
        0 <= k <= times.len(),
        !(read_times(format, times.take(k)) is Entries),
    ensures
        read_times(format, times) == read_times(format, times.take(k)),
    decreases times.len() - k,
{
    if k < times.len() {
        assert(times.take(k + 1).drop_last() =~= times.take(k));
        lemma_read_times_stop(format, times, k + 1);
    } else {
        assert(times.take(k) =~= times);
    }
}

/// Release entries that hold exactly the (version, second) pairs, in order.
pub open spec fn entries_are(vs: Seq<ReleaseEntry>, es: Seq<(Seq<char>, i64)>) -> bool {
    &&& vs.len() == es.len()
    &&& forall|i: int|
        0 <= i < vs.len() ==> (#[trigger] vs[i]).version@ == es[i].0 && vs[i].published_at.unix_secs
            == es[i].1
}

/// The first (version, time) pair that does not read.
#[derive(Debug)]
pub enum TimeReadError {
    BadTime { version: String, value: String },
    BlankVersion,
}

/// Reads (version, time) pairs into release entries, stopping at the first
/// pair that does not read.
pub fn read_release_times(format: TimeFormat, times: &Vec<(String, String)>) -> (r: Result<
    Vec<ReleaseEntry>,
    TimeReadError,
>)
    ensures
        match read_times(format, time_pairs(times@)) {
            TimesView::Entries(es) => r matches Ok(v) && entries_are(v@, es),
            TimesView::BadTime(ver, val) => r matches Err(TimeReadError::BadTime { version, value })
                && version@ == ver && value@ == val,
            TimesView::BlankVersion => r matches Err(TimeReadError::BlankVersion),
        },
{
    let ghost all = time_pairs(times@);
    let mut entries: Vec<ReleaseEntry> = Vec::new();
    let mut i: usize = 0;
    while i < times.len()
        invariant
            i <= times@.len(),
            all == time_pairs(times@),
            read_times(format, all.take(i as int)) matches TimesView::Entries(es) && entries_are(
                entries@,
                es,
            ),
        decreases times@.len() - i,
    {
        assert(all.take(i + 1).drop_last() =~= all.take(i as int));
        assert(all.take(i + 1).last() == all[i as int]);
        assert(all[i as int] == (times@[i as int].0@, times@[i as int].1@));
        let ghost es = read_times(format, all.take(i as int))->Entries_0;
        let (version, value) = (&times[i].0, &times[i].1);
        match parse_instant(format, value.as_str()) {
            None => {
                proof {
                    lemma_read_times_stop(format, all, i + 1);
                }
                return Err(TimeReadError::BadTime { version: version.clone(), value: value.clone() });
            },
            Some(t) => {
                match VersionText::new(version.as_str()) {
                    Err(_) => {
                        proof {
                            lemma_read_times_stop(format, all, i + 1);
                        }
                        return Err(TimeReadError::BlankVersion);
                    },
                    Ok(v) => {
                        entries.push(ReleaseEntry::new(v, ReleaseTimestamp::new(to_unix_secs(t))));
                        assert(entries_are(entries@, es.push((version@, unix_secs_of(t)))));
                    },
                }
            },
        }
        i = i + 1;
    }
    assert(all.take(times@.len() as int) =~= all);
    Ok(entries)
}

} // verus!
