//! Release metadata: when each version of a package was published.
//!
//! Instants are seconds since the Unix epoch and durations are whole seconds.
use vstd::prelude::*;

use crate::domain::{VersionScheme, VersionText};
use crate::evaluate::{compare_versions, scheme_order, scheme_parses, version_parses};
use crate::versions::VersionOrder;

verus! {

/// The instant a version was published, in seconds since the Unix epoch
/// (negative before 1970).
#[derive(Debug, Clone, Copy, PartialEq, Eq, Structural)]
pub struct ReleaseTimestamp {
    pub unix_secs: i64,
}

impl ReleaseTimestamp {
    pub fn new(unix_secs: i64) -> (r: Self)
        ensures
            r.unix_secs == unix_secs,
    {
        ReleaseTimestamp { unix_secs }
    }

    pub fn as_unix_secs(&self) -> (r: i64)
        ensures
            r == self.unix_secs,
    {
        self.unix_secs
    }
}

/// Whole seconds elapsed from `then` to `now`: zero when `then` lies in
/// the future, and at most `u64::MAX`.
pub open spec fn age_at(then: ReleaseTimestamp, now: u64) -> u64 {
    let d = now - then.unix_secs;
    if d <= 0 {
        0
    } else if d > u64::MAX {
        u64::MAX
    } else {
        d as u64
    }
}

pub fn age_since(then: ReleaseTimestamp, now: u64) -> (r: u64)
    ensures
        r == age_at(then, now),
{
    let d: i128 = now as i128 - then.unix_secs as i128;
    if d <= 0 {
        0
    } else if d > u64::MAX as i128 {
        u64::MAX
    } else {
        d as u64
    }
}

/// One published version.
#[derive(Debug)]
pub struct ReleaseEntry {
    pub version: VersionText,
    pub published_at: ReleaseTimestamp,
}

impl ReleaseEntry {
    pub fn new(version: VersionText, published_at: ReleaseTimestamp) -> (r: Self)
        ensures
            r.version == version,
            r.published_at == published_at,
    {
        ReleaseEntry { version, published_at }
    }
}

impl Clone for ReleaseEntry {
    fn clone(&self) -> (r: Self)
        ensures
            r == *self,
    {
        ReleaseEntry { version: self.version.clone(), published_at: self.published_at }
    }
}

/// Every published version that a manager or registry reported.
#[derive(Debug)]
pub struct ReleaseTimeline {
    pub versions: Vec<ReleaseEntry>,
}

impl ReleaseTimeline {
    pub fn new(versions: Vec<ReleaseEntry>) -> (r: Self)
        ensures
            r.versions == versions,
    {
        ReleaseTimeline { versions }
    }
}

impl Clone for ReleaseTimeline {
    fn clone(&self) -> (r: Self)
        ensures
            r.versions@ == self.versions@,
    {
        let mut versions: Vec<ReleaseEntry> = Vec::new();
        let mut i: usize = 0;
        while i < self.versions.len()
            invariant
                i <= self.versions@.len(),
                versions@ == self.versions@.take(i as int),
            decreases self.versions@.len() - i,
        {
            versions.push(self.versions[i].clone());
            i = i + 1;
            assert(versions@ =~= self.versions@.take(i as int));
        }
        assert(self.versions@.take(self.versions@.len() as int) =~= self.versions@);
        ReleaseTimeline { versions }
    }
}

/// Why release metadata could not be read.
#[derive(Debug)]
pub struct ReleaseLookupError {
    pub detail: String,
}

impl ReleaseLookupError {
    pub fn new(detail: &str) -> (r: Self)
        ensures
            r.detail@ == detail@,
    {
        ReleaseLookupError { detail: detail.to_owned() }
    }
}

impl Clone for ReleaseLookupError {
    fn clone(&self) -> (r: Self)
        ensures
            r == *self,
    {
        ReleaseLookupError { detail: self.detail.clone() }
    }
}

#[derive(Debug)]
pub enum ReleaseLookupResult {
    Known(ReleaseTimeline),
    MissingMetadata,
    LookupFailed(ReleaseLookupError),
}

impl Clone for ReleaseLookupResult {
    fn clone(&self) -> (r: Self)
        ensures
            match (*self, r) {
                (ReleaseLookupResult::Known(a), ReleaseLookupResult::Known(b)) => b.versions@
                    == a.versions@,
                (ReleaseLookupResult::MissingMetadata, ReleaseLookupResult::MissingMetadata) => true,
                (ReleaseLookupResult::LookupFailed(a), ReleaseLookupResult::LookupFailed(b)) => a
                    == b,
                _ => false,
            },
    {
        match self {
            ReleaseLookupResult::Known(t) => ReleaseLookupResult::Known(t.clone()),
            ReleaseLookupResult::MissingMetadata => ReleaseLookupResult::MissingMetadata,
            ReleaseLookupResult::LookupFailed(e) => ReleaseLookupResult::LookupFailed(e.clone()),
        }
    }
}

/// How a manager knows the age of the target it selected.
#[derive(Debug, Clone, Copy, PartialEq, Eq, Structural)]
pub enum TargetAgeEvidence {
    PublishedAt(ReleaseTimestamp),
}

impl TargetAgeEvidence {
    pub open spec fn spec_timestamp(self) -> ReleaseTimestamp {
        match self {
            TargetAgeEvidence::PublishedAt(t) => t,
        }
    }

    pub fn timestamp(&self) -> (r: ReleaseTimestamp)
        ensures
            r == self.spec_timestamp(),
    {
        match self {
            TargetAgeEvidence::PublishedAt(t) => *t,
        }
    }
}

#[derive(Debug)]
pub enum TargetAgeLookupResult {
    Known(TargetAgeEvidence),
    MissingMetadata,
    LookupFailed(ReleaseLookupError),
}

impl Clone for TargetAgeLookupResult {
    fn clone(&self) -> (r: Self)
        ensures
            r == *self,
    {
        match self {
            TargetAgeLookupResult::Known(e) => TargetAgeLookupResult::Known(*e),
            TargetAgeLookupResult::MissingMetadata => TargetAgeLookupResult::MissingMetadata,
            TargetAgeLookupResult::LookupFailed(e) => TargetAgeLookupResult::LookupFailed(
                e.clone(),
            ),
        }
    }
}

/// The publication time of one specific version.
#[derive(Debug)]
pub struct VersionReleaseEvidence {
    pub version: VersionText,
    pub published_at: ReleaseTimestamp,
}

impl VersionReleaseEvidence {
    pub fn new(version: VersionText, published_at: ReleaseTimestamp) -> (r: Self)
        ensures
            r.version == version,
            r.published_at == published_at,
    {
        VersionReleaseEvidence { version, published_at }
    }
}

/// The first entry of `entries` whose version text is `version`.
pub open spec fn first_entry_with(entries: Seq<ReleaseEntry>, version: Seq<char>) -> Option<int>
    decreases entries.len(),
{
    if entries.len() == 0 {
        None
    } else if entries[0].version@ == version {
        Some(0)
    } else {
        match first_entry_with(entries.drop_first(), version) {
            Some(i) => Some(i + 1),
            None => None,
        }
    }
}

proof fn lemma_first_entry_with(entries: Seq<ReleaseEntry>, version: Seq<char>, i: int)
    requires
        0 <= i <= entries.len(),
        forall|j: int| 0 <= j < i ==> entries[j].version@ != version,
        i == entries.len() || entries[i].version@ == version,
    ensures
        first_entry_with(entries, version) == (if i == entries.len() { None } else { Some(i) }),
    decreases entries.len(),
{
    if entries.len() > 0 && i > 0 {
        assert forall|j: int| 0 <= j < i - 1 implies entries.drop_first()[j].version@ != version by {
            assert(entries.drop_first()[j] == entries[j + 1]);
        }
        lemma_first_entry_with(entries.drop_first(), version, i - 1);
    }
}

/// The release evidence of `version` in `timeline`: the publication time of
/// the first entry with exactly that version text.
pub fn release_evidence_for_version(timeline: &ReleaseTimeline, version: &VersionText) -> (r:
    Option<VersionReleaseEvidence>)
    ensures
        match first_entry_with(timeline.versions@, version@) {
            Some(i) => r matches Some(e) && e.version == timeline.versions@[i].version
                && e.published_at == timeline.versions@[i].published_at,
            None => r is None,
        },
{
    let mut i: usize = 0;
    while i < timeline.versions.len()
        invariant
            i <= timeline.versions@.len(),
            forall|j: int| 0 <= j < i ==> timeline.versions@[j].version@ != version@,
        decreases timeline.versions@.len() - i,
    {
        let entry = &timeline.versions[i];
        if entry.version.same(version) {
            proof {
                lemma_first_entry_with(timeline.versions@, version@, i as int);
            }
            return Some(VersionReleaseEvidence::new(entry.version.clone(), entry.published_at));
        }
        i = i + 1;
    }
    proof {
        lemma_first_entry_with(timeline.versions@, version@, i as int);
    }
    None
}

// ---------------------------------------------------------------------------
// Newest release of a timeline
// ---------------------------------------------------------------------------

/// Whether `a` ranks above `b` among releases: published later, or in the
/// same second with a higher version under the scheme.
pub open spec fn ranks_above(a: ReleaseEntry, b: ReleaseEntry, scheme: VersionScheme) -> bool {
    a.published_at.unix_secs > b.published_at.unix_secs || (a.published_at.unix_secs
        == b.published_at.unix_secs && scheme_order(scheme, a.version@, b.version@) == Some(
        VersionOrder::Greater,
    ))
}

/// The newest release whose version parses under the scheme, scanning in
/// timeline order: a later release replaces the current pick unless the pick
/// ranks above it, so of equally ranked releases the last one wins.
pub open spec fn newest_release(entries: Seq<ReleaseEntry>, scheme: VersionScheme) -> Option<
    ReleaseEntry,
>
    decreases entries.len(),
{
    if entries.len() == 0 {
        None
    } else {
        let head = newest_release(entries.drop_last(), scheme);
        let e = entries.last();
        if !scheme_parses(scheme, e.version@) {
            head
        } else {
            match head {
                None => Some(e),
                Some(cur) => if ranks_above(cur, e, scheme) {
                    Some(cur)
                } else {
                    Some(e)
                },
            }
        }
    }
}

/// The pick is a parsing release of the timeline and nothing parsing was
/// published after it; there is no pick only when nothing parses.
pub proof fn lemma_newest_release(entries: Seq<ReleaseEntry>, scheme: VersionScheme)
    ensures
        newest_release(entries, scheme) is None <==> forall|i: int|
            0 <= i < entries.len() ==> !scheme_parses(scheme, #[trigger] entries[i].version@),
        newest_release(entries, scheme) matches Some(e) ==> {
            &&& scheme_parses(scheme, e.version@)
            &&& exists|i: int| 0 <= i < entries.len() && #[trigger] entries[i] == e
            &&& forall|i: int|
                0 <= i < entries.len() && scheme_parses(scheme, #[trigger] entries[i].version@)
                    ==> entries[i].published_at.unix_secs <= e.published_at.unix_secs
        },
    decreases entries.len(),
{
    if entries.len() > 0 {
        let init = entries.drop_last();
        lemma_newest_release(init, scheme);
        assert forall|i: int| 0 <= i < init.len() implies #[trigger] init[i] == entries[i] by {}
        let n = entries.len() - 1;
        match newest_release(init, scheme) {
            Some(cur) => {
                let k = choose|k: int| 0 <= k < init.len() && #[trigger] init[k] == cur;
                assert(entries[k] == cur);
            },
            None => {},
        }
        assert(entries.last() == entries[n]);
        match newest_release(entries, scheme) {
            Some(e) => {
                assert forall|i: int|
                    0 <= i < entries.len() && scheme_parses(
                        scheme,
                        #[trigger] entries[i].version@,
                    ) implies entries[i].published_at.unix_secs <= e.published_at.unix_secs by {
                    if i < n {
                        assert(init[i] == entries[i]);
                    }
                }
            },
            None => {},
        }
        if newest_release(entries, scheme) is None {
            assert forall|i: int| 0 <= i < entries.len() implies !scheme_parses(
                scheme,
                #[trigger] entries[i].version@,
            ) by {
                if i < n {
                    assert(init[i] == entries[i]);
                }
            }
        }
    }
}

fn newest_version_of(timeline: &ReleaseTimeline, scheme: VersionScheme) -> (r: Option<VersionText>)
    ensures
        match newest_release(timeline.versions@, scheme) {
            Some(e) => r == Some(e.version),
            None => r is None,
        },
{
    let vs = &timeline.versions;
    let mut cur: Option<usize> = None;
    let mut i: usize = 0;
    while i < vs.len()
        invariant
            i <= vs@.len(),
            match newest_release(vs@.take(i as int), scheme) {
                Some(e) => cur matches Some(k) && k < i && vs@[k as int] == e,
                None => cur is None,
            },
        decreases vs@.len() - i,
    {
        let ghost t = vs@.take(i + 1);
        assert(t.drop_last() =~= vs@.take(i as int));
        assert(t.last() == vs@[i as int]);
        if version_parses(scheme, &vs[i].version) {
            match cur {
                None => {
                    cur = Some(i);
                },
                Some(k) => {
                    let a = &vs[k];
                    let b = &vs[i];
                    let above = a.published_at.unix_secs > b.published_at.unix_secs || (
                    a.published_at.unix_secs == b.published_at.unix_secs && compare_versions(
                        scheme,
                        &a.version,
                        &b.version,
                    ) == Some(VersionOrder::Greater));
                    if !above {
                        cur = Some(i);
                    }
                },
            }
        }
        i = i + 1;
    }
    assert(vs@.take(vs@.len() as int) =~= vs@);
    match cur {
        Some(k) => Some(vs[k].version.clone()),
        None => None,
    }
}

/// The version of the newest SemVer release: the latest published among the
/// entries that read as SemVer (trimmed, leading `v`s dropped, a short numeric
/// version padded with `.0`), ties in time going to the higher version and
/// then to the later entry.
pub fn newest_semver_version(timeline: &ReleaseTimeline) -> (r: Option<VersionText>)
    ensures
        match newest_release(timeline.versions@, VersionScheme::SemVer) {
            Some(e) => r == Some(e.version),
            None => r is None,
        },
{
    newest_version_of(timeline, VersionScheme::SemVer)
}

/// The version of the newest PEP 440 release, chosen as for SemVer among the
/// entries that parse as PEP 440.
pub fn newest_pep440_version(timeline: &ReleaseTimeline) -> (r: Option<VersionText>)
    ensures
        match newest_release(timeline.versions@, VersionScheme::Pep440) {
            Some(e) => r == Some(e.version),
            None => r is None,
        },
{
    newest_version_of(timeline, VersionScheme::Pep440)
}

} // verus!
