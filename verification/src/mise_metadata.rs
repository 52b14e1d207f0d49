//! What the mise adapter reads besides the upgrade preview: installed
//! listings, release times from mise, npm and the versions host, audit
//! identities of tools, and the planning input of each preview item.
use vstd::prelude::*;

use crate::bun::first_blank_pair;
use crate::domain::{
    domain_error_text, is_package_tool, package_tool, AuditPackageName, AuditSubject, DomainError,
    InstalledTool, OsvEcosystem, PackageName, VersionScheme, VersionText,
};
use crate::mise::{MiseInstalledTool, MiseManager, MisePlanItem};
use crate::plan::{
    AdvisoryReleaseLookup, ExecutionSupport, ExecutionTargetKind, ManagerSelectedTarget,
    ManagerUpdateInput, MinAgeConstraintSupport, PlannedTarget, ResolverNativeSupport, TargetSelection, UpdateSeed,
};
use crate::pipx::texts;
use crate::scan::ManagerScanEvidenceInput;
use crate::domain::VersionPolicy;
use crate::mise::{mise_error_text, MiseError, MiseErrorView};
use crate::release::{
    ReleaseEntry, ReleaseLookupError, ReleaseLookupResult, ReleaseTimeline, ReleaseTimestamp,
    TargetAgeEvidence, TargetAgeLookupResult, VersionReleaseEvidence,
};
use crate::text::{
    chars_of, concat, decimal, decimal_string, first_index_char, first_index_of, has_prefix, is_blank,
    is_ws, slice_chars, str_eq, str_is_blank, string_of, strip_prefix_of, trim, trimmed_chars,
};
use crate::timestamps::{
    entries_are, mise_instant, parse_mise_timestamp, read_release_times, read_times, time_pairs,
    to_unix_secs, unix_secs_of, TimeFormat, TimeReadError, TimesView,
};
use crate::versions::{
    pep440_compare, pep440_facts, pep440_order, pep440_parse, semver_equal,
    semver_parse_prerelease, semver_prerelease, semver_same, VersionOrder,
};

verus! {

// ---------------------------------------------------------------------------
// Version equivalence
// ---------------------------------------------------------------------------

/// Drops one leading lower-case `v`.
pub open spec fn strip_lower_v(s: Seq<char>) -> Seq<char> {
    if s.len() > 0 && s[0] == 'v' {
        s.drop_first()
    } else {
        s
    }
}

fn strip_lower_v_of(v: &[char]) -> (r: Vec<char>)
    ensures
        r@ == strip_lower_v(v@),
{
    if v.len() > 0 && v[0] == 'v' {
        let r = crate::text::slice_chars(v, 1, v.len());
        assert(r@ =~= v@.drop_first());
        r
    } else {
        let r = crate::text::slice_chars(v, 0, v.len());
        assert(r@ =~= v@);
        r
    }
}

/// Trimmed and without a leading `v`, the same text or the same SemVer
/// version.
pub open spec fn semver_equivalent(left: Seq<char>, right: Seq<char>) -> bool {
    let a = strip_lower_v(trim(left));
    let b = strip_lower_v(trim(right));
    a == b || semver_same(a, b)
}

/// Trimmed and without a leading `v`, the same text or PEP 440 versions
/// that compare equal.
pub open spec fn pep440_equivalent(left: Seq<char>, right: Seq<char>) -> bool {
    let a = strip_lower_v(trim(left));
    let b = strip_lower_v(trim(right));
    a == b || pep440_order(a, b) == Some(VersionOrder::Equal)
}

fn normalized_text(value: &str) -> (r: String)
    ensures
        r@ == strip_lower_v(trim(value@)),
{
    let t = trimmed_chars(value);
    let s = strip_lower_v_of(t.as_slice());
    crate::text::string_of(s.as_slice())
}

pub fn semver_versions_equivalent(left: &str, right: &str) -> (r: bool)
    ensures
        r == semver_equivalent(left@, right@),
{
    let a = normalized_text(left);
    let b = normalized_text(right);
    str_eq(a.as_str(), b.as_str()) || semver_equal(a.as_str(), b.as_str())
}

pub fn pep440_versions_equivalent(left: &str, right: &str) -> (r: bool)
    ensures
        r == pep440_equivalent(left@, right@),
{
    let a = normalized_text(left);
    let b = normalized_text(right);
    if str_eq(a.as_str(), b.as_str()) {
        return true;
    }
    match pep440_compare(a.as_str(), b.as_str()) {
        Some(VersionOrder::Equal) => true,
        _ => false,
    }
}

/// An entry stands for `version`: the same text, or an equivalent SemVer or
/// PEP 440 version.
pub open spec fn entry_matches(entry: ReleaseEntry, version: Seq<char>) -> bool {
    entry.version@ == version || semver_equivalent(entry.version@, version) || pep440_equivalent(
        entry.version@,
        version,
    )
}

/// The first entry that stands for `version`.
pub open spec fn first_matching(entries: Seq<ReleaseEntry>, version: Seq<char>) -> Option<int>
    decreases entries.len(),
{
    if entries.len() == 0 {
        None
    } else {
        match first_matching(entries.drop_last(), version) {
            Some(i) => Some(i),
            None => if entry_matches(entries.last(), version) {
                Some(entries.len() - 1)
            } else {
                None
            },
        }
    }
}

/// Index of the first entry of the timeline that stands for `version`.
pub fn matching_entry(timeline: &ReleaseTimeline, version: &VersionText) -> (r: Option<usize>)
    ensures
        match r {
            Some(k) => first_matching(timeline.versions@, version@) == Some(k as int) && k
                < timeline.versions@.len(),
            None => first_matching(timeline.versions@, version@) is None,
        },
{
    let vs = &timeline.versions;
    let mut i: usize = 0;
    while i < vs.len()
        invariant
            i <= vs@.len(),
            vs@ == timeline.versions@,
            first_matching(vs@.take(i as int), version@) is None,
        decreases vs@.len() - i,
    {
        assert(vs@.take(i + 1).drop_last() =~= vs@.take(i as int));
        assert(vs@.take(i + 1).last() == vs@[i as int]);
        let e = &vs[i];
        if e.version.same(version) || semver_versions_equivalent(e.version.as_str(), version.as_str())
            || pep440_versions_equivalent(e.version.as_str(), version.as_str()) {
            assert(entry_matches(vs@[i as int], version@));
            assert(first_matching(vs@.take(i + 1), version@) == Some(i as int));
            proof {
                lemma_first_matching_stop(vs@, version@, i + 1);
            }
            return Some(i);
        }
        i = i + 1;
    }
    assert(vs@.take(vs@.len() as int) =~= vs@);
    None
}

proof fn lemma_first_matching_stop(entries: Seq<ReleaseEntry>, version: Seq<char>, k: int)
    requires
        0 <= k <= entries.len(),
        first_matching(entries.take(k), version) is Some,
    ensures
        first_matching(entries, version) == first_matching(entries.take(k), version),
    decreases entries.len() - k,
{
    if k < entries.len() {
        assert(entries.take(k + 1).drop_last() =~= entries.take(k));
        lemma_first_matching_stop(entries, version, k + 1);
    } else {
        assert(entries.take(k) =~= entries);
    }
}

pub fn timeline_contains_version(timeline: &ReleaseTimeline, version: &VersionText) -> (r: bool)
    ensures
        r == first_matching(timeline.versions@, version@) is Some,
{
    matching_entry(timeline, version).is_some()
}

/// The scheme both versions share, each without a leading `v`: SemVer when
/// both parse as SemVer, else PEP 440 when both parse as that, else the
/// manager's own.
pub open spec fn scheme_of(current: Seq<char>, target: Seq<char>) -> VersionScheme {
    let c = strip_lower_v(current);
    let t = strip_lower_v(target);
    if semver_prerelease(c) is Some && semver_prerelease(t) is Some {
        VersionScheme::SemVer
    } else if pep440_facts(c) is Some && pep440_facts(t) is Some {
        VersionScheme::Pep440
    } else {
        VersionScheme::ManagerNative
    }
}

pub fn version_scheme(current: &VersionText, target: &VersionText) -> (r: VersionScheme)
    ensures
        r == scheme_of(current@, target@),
{
    let cc = chars_of(current.as_str());
    let tc = chars_of(target.as_str());
    let c = crate::text::string_of(strip_lower_v_of(cc.as_slice()).as_slice());
    let t = crate::text::string_of(strip_lower_v_of(tc.as_slice()).as_slice());
    if semver_parse_prerelease(c.as_str()).is_some() && semver_parse_prerelease(t.as_str()).is_some() {
        VersionScheme::SemVer
    } else if pep440_parse(c.as_str()).is_some() && pep440_parse(t.as_str()).is_some() {
        VersionScheme::Pep440
    } else {
        VersionScheme::ManagerNative
    }
}

// ---------------------------------------------------------------------------
// Release lookups
// ---------------------------------------------------------------------------

/// How old the target is: the publication time of the timeline entry that
/// stands for it.
pub fn target_age_from_lookup(lookup: ReleaseLookupResult, target: &VersionText) -> (r: TargetAgeLookupResult)
    ensures
        match lookup {
            ReleaseLookupResult::Known(t) => match first_matching(t.versions@, target@) {
                Some(i) => 0 <= i < t.versions@.len() && r == TargetAgeLookupResult::Known(
                    TargetAgeEvidence::PublishedAt(t.versions@[i].published_at),
                ),
                None => r == TargetAgeLookupResult::MissingMetadata,
            },
            ReleaseLookupResult::MissingMetadata => r == TargetAgeLookupResult::MissingMetadata,
            ReleaseLookupResult::LookupFailed(e) => r == TargetAgeLookupResult::LookupFailed(e),
        },
{
    match lookup {
        ReleaseLookupResult::Known(timeline) => match matching_entry(&timeline, target) {
            Some(i) => TargetAgeLookupResult::Known(
                TargetAgeEvidence::PublishedAt(timeline.versions[i].published_at),
            ),
            None => TargetAgeLookupResult::MissingMetadata,
        },
        ReleaseLookupResult::MissingMetadata => TargetAgeLookupResult::MissingMetadata,
        ReleaseLookupResult::LookupFailed(err) => TargetAgeLookupResult::LookupFailed(err),
    }
}

/// The lookup answer for a tool from what the mise sources gave: a
/// non-empty timeline is known; an empty one, none, or missing metadata is
/// missing; any other failure is reported with its text.
pub fn tool_lookup(found: Result<Option<ReleaseTimeline>, MiseError>) -> (r: ReleaseLookupResult)
    ensures
        match found {
            Ok(Some(t)) => if t.versions@.len() == 0 {
                r is MissingMetadata
            } else {
                r matches ReleaseLookupResult::Known(u) && u.versions@ == t.versions@
            },
            Ok(None) => r is MissingMetadata,
            Err(e) => if e is MissingReleaseMetadata {
                r is MissingMetadata
            } else {
                r matches ReleaseLookupResult::LookupFailed(x) && x.detail@ == mise_error_text(e@)
            },
        },
{
    match found {
        Ok(Some(timeline)) => if timeline.versions.len() == 0 {
            ReleaseLookupResult::MissingMetadata
        } else {
            ReleaseLookupResult::Known(timeline)
        },
        Ok(None) => ReleaseLookupResult::MissingMetadata,
        Err(MiseError::MissingReleaseMetadata(_)) => ReleaseLookupResult::MissingMetadata,
        Err(e) => ReleaseLookupResult::LookupFailed(ReleaseLookupError::new(e.message().as_str())),
    }
}

/// The npm package of an `npm:` tool.
pub fn npm_package_of(tool: &PackageName) -> (r: Option<String>)
    ensures
        match r {
            Some(p) => has_prefix(tool@, "npm:"@) && p@ == tool@.skip(4),
            None => !has_prefix(tool@, "npm:"@),
        },
{
    proof {
        reveal_strlit("npm:");
    }
    let chars = chars_of(tool.as_str());
    match strip_prefix_of(chars.as_slice(), "npm:") {
        Some(rest) => Some(crate::text::string_of(rest.as_slice())),
        None => None,
    }
}

/// What `npm view` is asked about: the package, at a version when one is
/// given.
pub fn npm_view_spec(package: &str, version: Option<&VersionText>) -> (r: String)
    ensures
        r@ == match version {
            Some(v) => package@ + "@"@ + v@,
            None => package@,
        },
{
    match version {
        Some(v) => {
            let a = concat(package, "@");
            concat(a.as_str(), v.as_str())
        },
        None => package.to_owned(),
    }
}

fn time_error(e: TimeReadError) -> (r: MiseError)
    ensures
        match e {
            TimeReadError::BadTime { version, value } => r@ == MiseErrorView::InvalidTimestamp {
                version: version@,
                value: value@,
            },
            TimeReadError::BlankVersion => r@ == MiseErrorView::Domain(
                domain_error_text(DomainError::EmptyVersionText),
            ),
        },
{
    match e {
        TimeReadError::BadTime { version, value } => MiseError::InvalidTimestamp { version, value },
        TimeReadError::BlankVersion => MiseError::Domain(DomainError::EmptyVersionText.message()),
    }
}

/// The timeline of an npm time map (version, time), in map order; the
/// first pair that does not read is an error.
pub fn npm_time_map_to_timeline(times: Vec<(String, String)>) -> (r: Result<ReleaseTimeline, MiseError>)
    ensures
        match read_times(TimeFormat::Mise, time_pairs(times@)) {
            TimesView::Entries(es) => r matches Ok(t) && entries_are(t.versions@, es),
            TimesView::BadTime(ver, val) => r matches Err(e) && e@ == MiseErrorView::InvalidTimestamp {
                version: ver,
                value: val,
            },
            TimesView::BlankVersion => r matches Err(e) && e@ == MiseErrorView::Domain(
                domain_error_text(DomainError::EmptyVersionText),
            ),
        },
{
    match read_release_times(TimeFormat::Mise, &times) {
        Ok(entries) => Ok(ReleaseTimeline::new(entries)),
        Err(e) => Err(time_error(e)),
    }
}

/// The lookup answer from `npm view <spec> time --json`: the time map it
/// printed, or why it could not be read.
pub fn npm_release_lookup(fetched: Result<Vec<(String, String)>, String>) -> (r: ReleaseLookupResult)
    ensures
        match fetched {
            Err(d) => r matches ReleaseLookupResult::LookupFailed(e) && e.detail@ == d@,
            Ok(times) => match read_times(TimeFormat::Mise, time_pairs(times@)) {
                TimesView::Entries(es) => if es.len() == 0 {
                    r is MissingMetadata
                } else {
                    r matches ReleaseLookupResult::Known(t) && entries_are(t.versions@, es)
                },
                TimesView::BadTime(ver, val) => r matches ReleaseLookupResult::LookupFailed(e)
                    && e.detail@ == mise_error_text(
                    MiseErrorView::InvalidTimestamp { version: ver, value: val },
                ),
                TimesView::BlankVersion => r matches ReleaseLookupResult::LookupFailed(e)
                    && e.detail@ == domain_error_text(DomainError::EmptyVersionText),
            },
        },
{
    match fetched {
        Err(d) => ReleaseLookupResult::LookupFailed(ReleaseLookupError::new(d.as_str())),
        Ok(times) => match npm_time_map_to_timeline(times) {
            Ok(timeline) => if timeline.versions.len() == 0 {
                ReleaseLookupResult::MissingMetadata
            } else {
                ReleaseLookupResult::Known(timeline)
            },
            Err(e) => ReleaseLookupResult::LookupFailed(ReleaseLookupError::new(e.message().as_str())),
        },
    }
}

/// One release from a version and a mise timestamp.
pub fn release_entry(version: String, timestamp: String) -> (r: Result<ReleaseEntry, MiseError>)
    ensures
        match mise_instant(timestamp@) {
            None => r matches Err(e) && e@ == MiseErrorView::InvalidTimestamp {
                version: version@,
                value: timestamp@,
            },
            Some(t) => if is_blank(version@) {
                r matches Err(e) && e@ == MiseErrorView::Domain(
                    domain_error_text(DomainError::EmptyVersionText),
                )
            } else {
                r matches Ok(x) && x.version@ == version@ && x.published_at.unix_secs == unix_secs_of(t)
            },
        },
{
    match parse_mise_timestamp(timestamp.as_str()) {
        None => Err(MiseError::InvalidTimestamp { version, value: timestamp }),
        Some(t) => match VersionText::new(version.as_str()) {
            Err(e) => Err(MiseError::Domain(e.message())),
            Ok(v) => Ok(ReleaseEntry::new(v, ReleaseTimestamp::new(to_unix_secs(t)))),
        },
    }
}

/// The (version, second) pairs that read as releases: with a time, a
/// readable one, and a non-blank version; the rest are left out.
pub open spec fn readable_releases(pairs: Seq<(String, Option<String>)>) -> Seq<(Seq<char>, i64)>
    decreases pairs.len(),
{
    if pairs.len() == 0 {
        Seq::empty()
    } else {
        let head = readable_releases(pairs.drop_last());
        let (v, ts) = pairs.last();
        match ts {
            None => head,
            Some(ts) => match mise_instant(ts@) {
                None => head,
                Some(t) => if is_blank(v@) {
                    head
                } else {
                    head.push((v@, unix_secs_of(t)))
                },
            },
        }
    }
}

/// The timeline of a release listing (version, time if any), as mise's
/// `ls-remote` and the versions host give it, keeping what reads.
pub fn readable_timeline(pairs: Vec<(String, Option<String>)>) -> (r: ReleaseTimeline)
    ensures
        entries_are(r.versions@, readable_releases(pairs@)),
{
    let ghost all = pairs@;
    let mut entries: Vec<ReleaseEntry> = Vec::new();
    let mut i: usize = 0;
    while i < pairs.len()
        invariant
            i <= pairs@.len(),
            all == pairs@,
            entries_are(entries@, readable_releases(all.take(i as int))),
        decreases pairs@.len() - i,
    {
        assert(all.take(i + 1).drop_last() =~= all.take(i as int));
        assert(all.take(i + 1).last() == all[i as int]);
        match &pairs[i].1 {
            None => {},
            Some(ts) => {
                match release_entry(pairs[i].0.clone(), ts.clone()) {
                    Ok(e) => {
                        let ghost es = readable_releases(all.take(i as int));
                        entries.push(e);
                        assert(entries_are(entries@, es.push((pairs@[i as int].0@, e.published_at.unix_secs))));
                    },
                    Err(_) => {},
                }
            },
        }
        i = i + 1;
    }
    assert(all.take(pairs@.len() as int) =~= all);
    ReleaseTimeline::new(entries)
}


// ---------------------------------------------------------------------------
// Registry backends
// ---------------------------------------------------------------------------

/// A backend without its `[options]` part.
pub open spec fn strip_options(value: Seq<char>) -> Seq<char> {
    match first_index_of(value, '[') {
        Some(i) => value.take(i),
        None => value,
    }
}

pub fn strip_backend_options(value: &str) -> (r: String)
    ensures
        r@ == strip_options(value@),
{
    let chars = chars_of(value);
    match first_index_char(chars.as_slice(), '[') {
        Some(i) => string_of(slice_chars(chars.as_slice(), 0, i).as_slice()),
        None => value.to_owned(),
    }
}

/// A registry backend names the installed one, options aside.
pub open spec fn matches_backend(candidate: Seq<char>, installed: Seq<char>) -> bool {
    candidate == installed || strip_options(candidate) == strip_options(installed)
}

pub fn backend_matches(candidate: &str, installed: &str) -> (r: bool)
    ensures
        r == matches_backend(candidate@, installed@),
{
    if str_eq(candidate, installed) {
        return true;
    }
    let a = strip_backend_options(candidate);
    let b = strip_backend_options(installed);
    str_eq(a.as_str(), b.as_str())
}

pub open spec fn any_backend_matches(backends: Seq<Seq<char>>, installed: Seq<char>) -> bool {
    exists|i: int| 0 <= i < backends.len() && matches_backend(#[trigger] backends[i], installed)
}

/// Short names of the registry entries (short, backends) with a backend
/// that matches, each once, in registry order.
pub open spec fn shorts_for(entries: Seq<(String, Vec<String>)>, backend: Seq<char>) -> Seq<Seq<char>>
    decreases entries.len(),
{
    if entries.len() == 0 {
        Seq::empty()
    } else {
        let head = shorts_for(entries.drop_last(), backend);
        let (short, backends) = entries.last();
        if any_backend_matches(texts(backends@), backend) && !head.contains(short@) {
            head.push(short@)
        } else {
            head
        }
    }
}

fn any_matches(backends: &Vec<String>, installed: &str) -> (r: bool)
    ensures
        r == any_backend_matches(texts(backends@), installed@),
{
    let mut i: usize = 0;
    while i < backends.len()
        invariant
            i <= backends@.len(),
            forall|k: int| 0 <= k < i ==> !matches_backend(#[trigger] texts(backends@)[k], installed@),
        decreases backends@.len() - i,
    {
        assert(texts(backends@)[i as int] == backends@[i as int]@);
        if backend_matches(backends[i].as_str(), installed) {
            return true;
        }
        i = i + 1;
    }
    false
}

fn contains_text(v: &Vec<String>, s: &str) -> (r: bool)
    ensures
        r == texts(v@).contains(s@),
{
    let mut i: usize = 0;
    while i < v.len()
        invariant
            i <= v@.len(),
            forall|k: int| 0 <= k < i ==> #[trigger] texts(v@)[k] != s@,
        decreases v@.len() - i,
    {
        assert(texts(v@)[i as int] == v@[i as int]@);
        if str_eq(v[i].as_str(), s) {
            return true;
        }
        i = i + 1;
    }
    false
}

/// The registry short names whose backends include `backend`.
pub fn registry_shorts_for_backend(entries: Vec<(String, Vec<String>)>, backend: &str) -> (r: Vec<String>)
    ensures
        texts(r@) == shorts_for(entries@, backend@),
{
    let ghost all = entries@;
    let mut out: Vec<String> = Vec::new();
    let mut i: usize = 0;
    while i < entries.len()
        invariant
            i <= entries@.len(),
            all == entries@,
            texts(out@) == shorts_for(all.take(i as int), backend@),
        decreases entries@.len() - i,
    {
        assert(all.take(i + 1).drop_last() =~= all.take(i as int));
        assert(all.take(i + 1).last() == all[i as int]);
        if any_matches(&entries[i].1, backend) && !contains_text(&out, entries[i].0.as_str()) {
            let ghost before = texts(out@);
            out.push(entries[i].0.clone());
            assert(texts(out@) =~= before.push(entries@[i as int].0@));
        }
        i = i + 1;
    }
    assert(all.take(entries@.len() as int) =~= all);
    out
}

/// The backends the registry lists for a tool; none is missing metadata.
pub fn registry_backends_from(tool: &str, backends: Vec<String>) -> (r: Result<Vec<String>, MiseError>)
    ensures
        backends@.len() == 0 ==> (r matches Err(e) && e@ == MiseErrorView::MissingReleaseMetadata(
            "mise registry returned no backends for "@ + tool@,
        )),
        backends@.len() > 0 ==> r == Ok::<Vec<String>, MiseError>(backends),
{
    if backends.len() == 0 {
        return Err(MiseError::MissingReleaseMetadata(concat("mise registry returned no backends for ", tool)));
    }
    Ok(backends)
}

/// A timeline answers for the tool when it lists something and, if a
/// version is asked about, an entry standing for it.
pub fn timeline_usable(timeline: &ReleaseTimeline, current: Option<&VersionText>) -> (r: bool)
    ensures
        r == (timeline.versions@.len() > 0 && match current {
            Some(v) => first_matching(timeline.versions@, v@) is Some,
            None => true,
        }),
{
    if timeline.versions.len() == 0 {
        return false;
    }
    match current {
        Some(v) => timeline_contains_version(timeline, v),
        None => true,
    }
}

// ---------------------------------------------------------------------------
// Audit identities
// ---------------------------------------------------------------------------

/// An audit identity that a tool name gives, or why it gives none.
pub enum SubjectView {
    NoSubject,
    Subject(OsvEcosystem, Seq<char>),
    BlankName,
}

pub open spec fn subject_is(r: Result<Option<AuditSubject>, MiseError>, v: SubjectView) -> bool {
    match v {
        SubjectView::NoSubject => r matches Ok(None),
        SubjectView::Subject(eco, name) => r matches Ok(Some(s)) && s.ecosystem == eco
            && s.package_name@ == name,
        SubjectView::BlankName => r matches Err(e) && e@ == MiseErrorView::Domain(
            domain_error_text(DomainError::EmptyAuditPackageName),
        ),
    }
}

/// `s` without every trailing `.git`.
pub open spec fn strip_git_suffixes(s: Seq<char>) -> Seq<char>
    decreases s.len(),
{
    if s.len() >= 4 && s.skip(s.len() - 4) == ".git"@ {
        strip_git_suffixes(s.take(s.len() - 4))
    } else {
        s
    }
}

/// The repository URL `https://github.com/<owner>/<name>.git` of an
/// `owner/name` reference, trimmed and with trailing `.git`s dropped.
pub open spec fn github_subject(repo: Seq<char>) -> SubjectView {
    let r = trim(repo);
    match first_index_of(r, '/') {
        None => SubjectView::NoSubject,
        Some(i) => {
            let owner = r.take(i);
            let name = strip_git_suffixes(r.skip(i + 1));
            if owner.len() == 0 || name.len() == 0 || name.contains('/') {
                SubjectView::NoSubject
            } else {
                SubjectView::Subject(
                    OsvEcosystem::Git,
                    "https://github.com/"@ + owner + "/"@ + name + ".git"@,
                )
            }
        },
    }
}

fn strip_git_suffixes_of(v: &[char]) -> (r: Vec<char>)
    ensures
        r@ == strip_git_suffixes(v@),
{
    proof {
        reveal_strlit(".git");
    }
    let mut n: usize = v.len();
    assert(v@.take(n as int) =~= v@);
    while n >= 4 && v[n - 4] == '.' && v[n - 3] == 'g' && v[n - 2] == 'i' && v[n - 1] == 't'
        invariant
            n <= v@.len(),
            strip_git_suffixes(v@) == strip_git_suffixes(v@.take(n as int)),
        decreases n,
    {
        proof {
            reveal_strlit(".git");
        }
        let ghost s = v@.take(n as int);
        assert(s.skip(s.len() - 4) =~= ".git"@);
        assert(s.take(s.len() - 4) =~= v@.take(n - 4));
        n = n - 4;
    }
    let ghost s = v@.take(n as int);
    proof {
        reveal_strlit(".git");
    }
    if n >= 4 {
        assert(s.skip(s.len() - 4)[0] == v@[n - 4]);
        assert(s.skip(s.len() - 4)[1] == v@[n - 3]);
        assert(s.skip(s.len() - 4)[2] == v@[n - 2]);
        assert(s.skip(s.len() - 4)[3] == v@[n - 1]);
        assert(s.skip(s.len() - 4) != ".git"@);
    }
    slice_chars(v, 0, n)
}

proof fn lemma_github_url_not_blank(owner: Seq<char>, name: Seq<char>)
    ensures
        !is_blank("https://github.com/"@ + owner + "/"@ + name + ".git"@),
{
    reveal_strlit("https://github.com/");
    let u = "https://github.com/"@ + owner + "/"@ + name + ".git"@;
    assert(u[0] == 'h');
    assert(!is_ws(u[0]));
}

pub fn github_audit_subject(repo: &str) -> (r: Result<Option<AuditSubject>, MiseError>)
    ensures
        subject_is(r, github_subject(repo@)),
{
    let t = trimmed_chars(repo);
    match first_index_char(t.as_slice(), '/') {
        None => Ok(None),
        Some(i) => {
            let owner = slice_chars(t.as_slice(), 0, i);
            let rest = slice_chars(t.as_slice(), i + 1, t.len());
            assert(owner@ =~= t@.take(i as int));
            assert(rest@ =~= t@.skip(i + 1));
            let name = strip_git_suffixes_of(rest.as_slice());
            let mut has_slash = false;
            let mut k: usize = 0;
            while k < name.len()
                invariant
                    k <= name@.len(),
                    has_slash == (exists|j: int| 0 <= j < k && name@[j] == '/'),
                decreases name@.len() - k,
            {
                if name[k] == '/' {
                    has_slash = true;
                }
                k = k + 1;
            }
            assert(has_slash == name@.contains('/'));
            if owner.len() == 0 || name.len() == 0 || has_slash {
                return Ok(None);
            }
            let a = concat("https://github.com/", string_of(owner.as_slice()).as_str());
            let b = concat(a.as_str(), "/");
            let c = concat(b.as_str(), string_of(name.as_slice()).as_str());
            let url = concat(c.as_str(), ".git");
            proof {
                lemma_github_url_not_blank(owner@, name@);
            }
            let pkg = AuditPackageName::new(url.as_str()).unwrap();
            Ok(Some(AuditSubject::new(OsvEcosystem::Git, pkg)))
        },
    }
}

/// A `github:owner/name[options]` backend's repository identity.
pub open spec fn github_backend_subject(backend: Seq<char>) -> SubjectView {
    let b = strip_options(trim(backend));
    if has_prefix(b, "github:"@) {
        github_subject(b.skip(7))
    } else {
        SubjectView::NoSubject
    }
}

pub fn github_audit_subject_for_backend(backend: &str) -> (r: Result<Option<AuditSubject>, MiseError>)
    ensures
        subject_is(r, github_backend_subject(backend@)),
{
    proof {
        reveal_strlit("github:");
    }
    let t = trimmed_chars(backend);
    let b = strip_backend_options(string_of(t.as_slice()).as_str());
    let chars = chars_of(b.as_str());
    match strip_prefix_of(chars.as_slice(), "github:") {
        Some(repo) => github_audit_subject(string_of(repo.as_slice()).as_str()),
        None => Ok(None),
    }
}

/// The ecosystem of a mise backend whose packages OSV knows.
pub open spec fn backend_ecosystem(backend: Seq<char>) -> Option<OsvEcosystem> {
    if backend == "npm"@ {
        Some(OsvEcosystem::Npm)
    } else if backend == "pipx"@ || backend == "uvx"@ {
        Some(OsvEcosystem::Pypi)
    } else if backend == "cargo"@ {
        Some(OsvEcosystem::CratesIo)
    } else if backend == "go"@ {
        Some(OsvEcosystem::Go)
    } else if backend == "gem"@ {
        Some(OsvEcosystem::RubyGems)
    } else {
        None
    }
}

/// The audit identity a `backend:package` tool name gives by itself.
pub open spec fn tool_subject(tool: Seq<char>) -> SubjectView {
    match first_index_of(tool, ':') {
        None => SubjectView::NoSubject,
        Some(i) => {
            let backend = tool.take(i);
            let package = tool.skip(i + 1);
            if backend == "github"@ {
                github_backend_subject(tool)
            } else {
                match backend_ecosystem(backend) {
                    None => SubjectView::NoSubject,
                    Some(eco) => if is_blank(package) {
                        SubjectView::BlankName
                    } else {
                        SubjectView::Subject(eco, package)
                    },
                }
            }
        },
    }
}

fn ecosystem_of(backend: &str) -> (r: Option<OsvEcosystem>)
    ensures
        r == backend_ecosystem(backend@),
{
    if str_eq(backend, "npm") {
        Some(OsvEcosystem::Npm)
    } else if str_eq(backend, "pipx") || str_eq(backend, "uvx") {
        Some(OsvEcosystem::Pypi)
    } else if str_eq(backend, "cargo") {
        Some(OsvEcosystem::CratesIo)
    } else if str_eq(backend, "go") {
        Some(OsvEcosystem::Go)
    } else if str_eq(backend, "gem") {
        Some(OsvEcosystem::RubyGems)
    } else {
        None
    }
}

pub fn audit_subject_for_mise_tool(tool: &PackageName) -> (r: Result<Option<AuditSubject>, MiseError>)
    ensures
        subject_is(r, tool_subject(tool@)),
{
    let chars = chars_of(tool.as_str());
    match first_index_char(chars.as_slice(), ':') {
        None => Ok(None),
        Some(i) => {
            let backend = string_of(slice_chars(chars.as_slice(), 0, i).as_slice());
            let package = string_of(slice_chars(chars.as_slice(), i + 1, chars.len()).as_slice());
            assert(backend@ =~= tool@.take(i as int));
            assert(package@ =~= tool@.skip(i + 1));
            if str_eq(backend.as_str(), "github") {
                return github_audit_subject_for_backend(tool.as_str());
            }
            match ecosystem_of(backend.as_str()) {
                None => Ok(None),
                Some(eco) => match AuditPackageName::new(package.as_str()) {
                    Ok(name) => Ok(Some(AuditSubject::new(eco, name))),
                    Err(e) => Err(MiseError::Domain(e.message())),
                },
            }
        },
    }
}

/// The audit identity from the registry backends of a tool whose name gave
/// none: a single `github:` backend gives its repository; an interrupted
/// registry call is passed on, any other failure gives none.
pub fn registry_audit_subject(backends: Result<Vec<String>, MiseError>) -> (r: Result<Option<AuditSubject>, MiseError>)
    ensures
        match backends {
            Err(e) => if e is Interrupted {
                r matches Err(x) && x@ == e@
            } else {
                r matches Ok(None)
            },
            Ok(bs) => if bs@.len() != 1 {
                r matches Ok(None)
            } else {
                subject_is(r, github_backend_subject(bs@[0]@))
            },
        },
{
    match backends {
        Err(e) => if e.is_interruption() {
            Err(e)
        } else {
            Ok(None)
        },
        Ok(bs) => if bs.len() != 1 {
            Ok(None)
        } else {
            github_audit_subject_for_backend(bs[0].as_str())
        },
    }
}

// ---------------------------------------------------------------------------
// Installed tools
// ---------------------------------------------------------------------------

/// The tool mise reports at a version, with the audit identity found for it.
pub fn mise_tool(name: &PackageName, version: VersionText, subject: Option<AuditSubject>) -> (r: InstalledTool)
    ensures
        is_package_tool(r, "mise"@, name@, version),
        r.audit_subject == subject,
{
    let tool = package_tool(MiseManager::id(), name, version);
    match subject {
        Some(s) => tool.with_audit_subject(s),
        None => tool,
    }
}

/// An installed mise tool, audited by the identity its name gives.
pub fn installed_tool(tool: &MiseInstalledTool) -> (r: Result<InstalledTool, MiseError>)
    ensures
        match tool_subject(tool.tool@) {
            SubjectView::BlankName => r matches Err(e) && e@ == MiseErrorView::Domain(
                domain_error_text(DomainError::EmptyAuditPackageName),
            ),
            SubjectView::NoSubject => r matches Ok(t) && is_package_tool(t, "mise"@, tool.tool@, tool.version)
                && t.audit_subject is None,
            SubjectView::Subject(eco, name) => r matches Ok(t) && {
                &&& is_package_tool(t, "mise"@, tool.tool@, tool.version)
                &&& t.audit_subject matches Some(s) && s.ecosystem == eco && s.package_name@ == name
            },
        },
{
    match audit_subject_for_mise_tool(&tool.tool) {
        Ok(subject) => Ok(mise_tool(&tool.tool, tool.version.clone(), subject)),
        Err(e) => Err(e),
    }
}

/// One tool of `mise ls --json`: its installed versions, each with whether
/// it is the active one.
#[derive(Debug)]
pub struct MiseLsEntry {
    pub version: Option<String>,
    pub active: bool,
}

pub open spec fn first_active(entries: Seq<MiseLsEntry>) -> Option<int>
    decreases entries.len(),
{
    if entries.len() == 0 {
        None
    } else {
        match first_active(entries.drop_last()) {
            Some(i) => Some(i),
            None => if entries.last().active {
                Some(entries.len() - 1)
            } else {
                None
            },
        }
    }
}

pub open spec fn last_version(entries: Seq<MiseLsEntry>) -> Option<Seq<char>>
    decreases entries.len(),
{
    if entries.len() == 0 {
        None
    } else {
        match entries.last().version {
            Some(v) => Some(v@),
            None => last_version(entries.drop_last()),
        }
    }
}

/// The version that counts as installed: the first active entry's, else
/// the last listed one.
pub open spec fn chosen_version(entries: Seq<MiseLsEntry>) -> Option<Seq<char>> {
    match first_active(entries) {
        Some(i) => match entries[i].version {
            Some(v) => Some(v@),
            None => last_version(entries),
        },
        None => last_version(entries),
    }
}

fn chosen_version_of(entries: &Vec<MiseLsEntry>) -> (r: Option<String>)
    ensures
        match chosen_version(entries@) {
            Some(v) => r matches Some(s) && s@ == v,
            None => r is None,
        },
{
    let mut i: usize = 0;
    let mut active: Option<usize> = None;
    while i < entries.len()
        invariant
            i <= entries@.len(),
            match active {
                Some(k) => first_active(entries@.take(i as int)) == Some(k as int) && k < i,
                None => first_active(entries@.take(i as int)) is None,
            },
        decreases entries@.len() - i,
    {
        assert(entries@.take(i + 1).drop_last() =~= entries@.take(i as int));
        assert(entries@.take(i + 1).last() == entries@[i as int]);
        if active.is_none() && entries[i].active {
            active = Some(i);
        }
        i = i + 1;
    }
    assert(entries@.take(entries@.len() as int) =~= entries@);
    if let Some(k) = active {
        if let Some(v) = &entries[k].version {
            return Some(v.clone());
        }
    }
    let mut j: usize = entries.len();
    assert(chosen_version(entries@) == last_version(entries@));
    assert(entries@.take(j as int) =~= entries@);
    while j > 0
        invariant
            j <= entries@.len(),
            chosen_version(entries@) == last_version(entries@),
            last_version(entries@) == last_version(entries@.take(j as int)),
        decreases j,
    {
        let ghost t = entries@.take(j as int);
        assert(t.drop_last() =~= entries@.take(j - 1));
        assert(t.last() == entries@[j - 1]);
        if let Some(v) = &entries[j - 1].version {
            return Some(v.clone());
        }
        j = j - 1;
    }
    None
}

/// The (tool, installed version) pairs of a `mise ls --json` listing, in
/// listing order, for the tools with a version.
pub open spec fn listing_pairs(listing: Seq<(String, Vec<MiseLsEntry>)>) -> Seq<(Seq<char>, Seq<char>)>
    decreases listing.len(),
{
    if listing.len() == 0 {
        Seq::empty()
    } else {
        let head = listing_pairs(listing.drop_last());
        match chosen_version(listing.last().1@) {
            Some(v) => head.push((listing.last().0@, v)),
            None => head,
        }
    }
}

/// The installed tools of a `mise ls --json` listing (tool, entries), in
/// listing order; a blank tool or version is an error.
pub fn installed_tools_from_listing(listing: Vec<(String, Vec<MiseLsEntry>)>) -> (r: Result<
    Vec<MiseInstalledTool>,
    MiseError,
>)
    ensures
        match first_blank_pair(listing_pairs(listing@)) {
            Some(j) => r matches Err(e) && e@ == MiseErrorView::Domain(
                domain_error_text(
                    if is_blank(listing_pairs(listing@)[j].0) {
                        DomainError::EmptyPackageName
                    } else {
                        DomainError::EmptyVersionText
                    },
                ),
            ),
            None => r matches Ok(v) && v@.len() == listing_pairs(listing@).len() && forall|i: int|
                0 <= i < v@.len() ==> (#[trigger] v@[i]).tool@ == listing_pairs(listing@)[i].0
                    && v@[i].version@ == listing_pairs(listing@)[i].1,
        },
{
    let ghost all = listing@;
    let mut pairs: Vec<(String, String)> = Vec::new();
    let mut i: usize = 0;
    while i < listing.len()
        invariant
            i <= listing@.len(),
            all == listing@,
            crate::keyed::text_pairs(pairs@) == listing_pairs(all.take(i as int)),
        decreases listing@.len() - i,
    {
        assert(all.take(i + 1).drop_last() =~= all.take(i as int));
        assert(all.take(i + 1).last() == all[i as int]);
        match chosen_version_of(&listing[i].1) {
            Some(v) => {
                let ghost before = crate::keyed::text_pairs(pairs@);
                pairs.push((listing[i].0.clone(), v));
                assert(crate::keyed::text_pairs(pairs@) =~= before.push(
                    (listing@[i as int].0@, chosen_version(listing@[i as int].1@)->0),
                ));
            },
            None => {},
        }
        i = i + 1;
    }
    assert(all.take(listing@.len() as int) =~= all);
    let ghost t = crate::keyed::text_pairs(pairs@);
    let mut tools: Vec<MiseInstalledTool> = Vec::new();
    let mut n: usize = 0;
    while n < pairs.len()
        invariant
            n <= pairs@.len(),
            t == crate::keyed::text_pairs(pairs@),
            t == listing_pairs(listing@),
            first_blank_pair(t.take(n as int)) is None,
            tools@.len() == n,
            forall|i: int| 0 <= i < n ==> (#[trigger] tools@[i]).tool@ == t[i].0 && tools@[i].version@ == t[i].1,
        decreases pairs@.len() - n,
    {
        assert(t.take(n + 1).drop_last() =~= t.take(n as int));
        assert(t.take(n + 1).last() == t[n as int]);
        assert(t[n as int] == (pairs@[n as int].0@, pairs@[n as int].1@));
        let tool = match PackageName::new(pairs[n].0.as_str()) {
            Ok(x) => x,
            Err(e) => {
                proof {
                    crate::bun::lemma_first_blank_stop(t, n + 1);
                }
                return Err(MiseError::Domain(e.message()));
            },
        };
        let version = match VersionText::new(pairs[n].1.as_str()) {
            Ok(x) => x,
            Err(e) => {
                proof {
                    crate::bun::lemma_first_blank_stop(t, n + 1);
                }
                return Err(MiseError::Domain(e.message()));
            },
        };
        tools.push(MiseInstalledTool { tool, version });
        n = n + 1;
    }
    assert(t.take(pairs@.len() as int) =~= t);
    Ok(tools)
}


// ---------------------------------------------------------------------------
// Advisory latest versions
// ---------------------------------------------------------------------------

/// The newest versions `mise outdated --json` reports, or why they are
/// unknown.
#[derive(Debug)]
pub struct MiseAdvisoryLatest {
    pub latest: Vec<(PackageName, VersionText)>,
    pub failure: Option<ReleaseLookupError>,
}

pub open spec fn latest_view(v: Seq<(PackageName, VersionText)>) -> Seq<(Seq<char>, Seq<char>)> {
    v.map_values(|p: (PackageName, VersionText)| (p.0@, p.1@))
}

/// The (tool, latest) pairs of `mise outdated --json`, in order; a blank
/// tool or version is an error.
pub fn outdated_latest(entries: Vec<(String, String)>) -> (r: Result<Vec<(PackageName, VersionText)>, MiseError>)
    ensures
        match first_blank_pair(crate::keyed::text_pairs(entries@)) {
            Some(j) => r matches Err(e) && e@ == MiseErrorView::Domain(
                domain_error_text(
                    if is_blank(entries@[j].0@) {
                        DomainError::EmptyPackageName
                    } else {
                        DomainError::EmptyVersionText
                    },
                ),
            ),
            None => r matches Ok(v) && latest_view(v@) == crate::keyed::text_pairs(entries@),
        },
{
    let ghost t = crate::keyed::text_pairs(entries@);
    let mut out: Vec<(PackageName, VersionText)> = Vec::new();
    let mut n: usize = 0;
    while n < entries.len()
        invariant
            n <= entries@.len(),
            t == crate::keyed::text_pairs(entries@),
            first_blank_pair(t.take(n as int)) is None,
            latest_view(out@) == t.take(n as int),
        decreases entries@.len() - n,
    {
        assert(t.take(n + 1).drop_last() =~= t.take(n as int));
        assert(t.take(n + 1).last() == t[n as int]);
        assert(t[n as int] == (entries@[n as int].0@, entries@[n as int].1@));
        let tool = match PackageName::new(entries[n].0.as_str()) {
            Ok(x) => x,
            Err(e) => {
                proof {
                    crate::bun::lemma_first_blank_stop(t, n + 1);
                }
                return Err(MiseError::Domain(e.message()));
            },
        };
        let version = match VersionText::new(entries[n].1.as_str()) {
            Ok(x) => x,
            Err(e) => {
                proof {
                    crate::bun::lemma_first_blank_stop(t, n + 1);
                }
                return Err(MiseError::Domain(e.message()));
            },
        };
        let ghost before = latest_view(out@);
        out.push((tool, version));
        assert(latest_view(out@) =~= before.push(t[n as int]));
        assert(t.take(n + 1) =~= t.take(n as int).push(t[n as int]));
        n = n + 1;
    }
    assert(t.take(entries@.len() as int) =~= t);
    Ok(out)
}

/// The advisory latest versions from what `mise outdated --json` gave: its
/// (tool, latest) pairs, or why they could not be had; a failure is kept as
/// a non-blocking diagnostic with no versions.
pub fn advisory_latest(fetched: Result<Vec<(String, String)>, String>) -> (r: MiseAdvisoryLatest)
    ensures
        match fetched {
            Err(d) => r.latest@.len() == 0 && (r.failure matches Some(f) && f.detail@ == d@),
            Ok(entries) => match first_blank_pair(crate::keyed::text_pairs(entries@)) {
                Some(j) => r.latest@.len() == 0 && (r.failure matches Some(f) && f.detail@
                    == domain_error_text(
                    if is_blank(entries@[j].0@) {
                        DomainError::EmptyPackageName
                    } else {
                        DomainError::EmptyVersionText
                    },
                )),
                None => r.failure is None && latest_view(r.latest@) == crate::keyed::text_pairs(entries@),
            },
        },
{
    match fetched {
        Err(d) => MiseAdvisoryLatest {
            latest: Vec::new(),
            failure: Some(ReleaseLookupError::new(d.as_str())),
        },
        Ok(entries) => match outdated_latest(entries) {
            Ok(latest) => MiseAdvisoryLatest { latest, failure: None },
            Err(e) => MiseAdvisoryLatest {
                latest: Vec::new(),
                failure: Some(ReleaseLookupError::new(e.message().as_str())),
            },
        },
    }
}

/// The first advisory latest version of `tool`.
pub open spec fn latest_of(latest: Seq<(Seq<char>, Seq<char>)>, tool: Seq<char>) -> Option<Seq<char>>
    decreases latest.len(),
{
    if latest.len() == 0 {
        None
    } else {
        match latest_of(latest.drop_last(), tool) {
            Some(v) => Some(v),
            None => if latest.last().0 == tool {
                Some(latest.last().1)
            } else {
                None
            },
        }
    }
}

/// The advisory version worth a release lookup for a preview item: the
/// latest that mise reports for its tool, when that is not the target.
pub fn advisory_target(advisory: &MiseAdvisoryLatest, tool: &PackageName, to_version: &VersionText) -> (r:
    Option<VersionText>)
    ensures
        match latest_of(latest_view(advisory.latest@), tool@) {
            Some(v) => if v == to_version@ {
                r is None
            } else {
                r matches Some(x) && x@ == v
            },
            None => r is None,
        },
{
    let ghost lv = latest_view(advisory.latest@);
    let mut i: usize = 0;
    while i < advisory.latest.len()
        invariant
            i <= advisory.latest@.len(),
            lv == latest_view(advisory.latest@),
            latest_of(lv.take(i as int), tool@) is None,
        decreases advisory.latest@.len() - i,
    {
        assert(lv.take(i + 1).drop_last() =~= lv.take(i as int));
        assert(lv.take(i + 1).last() == lv[i as int]);
        if advisory.latest[i].0.same(tool) {
            assert(latest_of(lv.take(i + 1), tool@) == Some(lv[i as int].1));
            proof {
                lemma_latest_of_stop(lv, tool@, i + 1);
            }
            if advisory.latest[i].1.same(to_version) {
                return None;
            }
            return Some(advisory.latest[i].1.clone());
        }
        i = i + 1;
    }
    assert(lv.take(advisory.latest@.len() as int) =~= lv);
    None
}

proof fn lemma_latest_of_stop(latest: Seq<(Seq<char>, Seq<char>)>, tool: Seq<char>, k: int)
    requires
        0 <= k <= latest.len(),
        latest_of(latest.take(k), tool) is Some,
    ensures
        latest_of(latest, tool) == latest_of(latest.take(k), tool),
    decreases latest.len() - k,
{
    if k < latest.len() {
        assert(latest.take(k + 1).drop_last() =~= latest.take(k));
        lemma_latest_of_stop(latest, tool, k + 1);
    } else {
        assert(latest.take(k) =~= latest);
    }
}

// ---------------------------------------------------------------------------
// Plan inputs
// ---------------------------------------------------------------------------

/// The tool a preview item upgrades, at its installed version.
pub fn installed_tool_from_plan_item(item: &MisePlanItem, subject: Option<AuditSubject>) -> (r: InstalledTool)
    ensures
        is_package_tool(r, "mise"@, item.tool@, item.from_version),
        r.audit_subject == subject,
{
    mise_tool(&item.tool, item.from_version.clone(), subject)
}

/// The manager-selected seed of one preview item: mise's resolver picked
/// the target, planning only gates it; the advisory latest version and its
/// lookup, or the advisory failure, ride along as diagnostics.
pub fn mise_update_input(
    installed: InstalledTool,
    item: MisePlanItem,
    target_age: TargetAgeLookupResult,
    advisory_failure: Option<ReleaseLookupError>,
    advisory: Option<(VersionText, ReleaseLookupResult)>,
) -> (r: ManagerUpdateInput)
    ensures
        r matches ManagerUpdateInput::Seed(s) && {
            &&& s.installed == installed
            &&& s.version_scheme == scheme_of(item.from_version@, item.to_version@)
            &&& s.execution_support == (ExecutionSupport {
                exact: false,
                native_selected: false,
                native_global: false,
                grouped_native: false,
                resolver_native_selected: ResolverNativeSupport {
                    selected: true,
                    min_age_constraint: MinAgeConstraintSupport::Optional,
                    manager_resolved_target: true,
                },
                resolver_native_global: true,
            })
            &&& s.execution_target_kind == ExecutionTargetKind::Standard
            &&& s.target_selection == TargetSelection::ManagerSelected(
                ManagerSelectedTarget {
                    target: PlannedTarget::Known(item.to_version),
                    target_age,
                    advisory_release_lookup: match advisory {
                        Some((latest_version, release_lookup)) => Some(
                            AdvisoryReleaseLookup { latest_version, release_lookup },
                        ),
                        None => None,
                    },
                    advisory_lookup_failure: advisory_failure,
                },
            )
        },
{
    let scheme = version_scheme(&item.from_version, &item.to_version);
    let mut selected = ManagerSelectedTarget::new(item.to_version, target_age);
    if let Some(failure) = advisory_failure {
        selected = selected.with_advisory_lookup_failure(failure);
    }
    if let Some((latest, lookup)) = advisory {
        selected = selected.with_advisory_release_lookup(latest, lookup);
    }
    ManagerUpdateInput::Seed(
        UpdateSeed::manager_selected(
            installed,
            selected,
            scheme,
            ExecutionSupport::resolver_native(MinAgeConstraintSupport::Optional, true, true),
        ),
    )
}

/// The `--before` argument for a minimum release age: whole days, hours or
/// minutes when the age is a multiple of one, else seconds.
pub open spec fn duration_text(secs: u64) -> Seq<char> {
    if secs % 86_400 == 0 {
        decimal((secs / 86_400) as nat) + "d"@
    } else if secs % 3_600 == 0 {
        decimal((secs / 3_600) as nat) + "h"@
    } else if secs % 60 == 0 {
        decimal((secs / 60) as nat) + "m"@
    } else {
        decimal(secs as nat) + "s"@
    }
}

pub fn duration_arg(secs: u64) -> (r: String)
    ensures
        r@ == duration_text(secs),
{
    if secs % 86_400 == 0 {
        concat(decimal_string(secs / 86_400).as_str(), "d")
    } else if secs % 3_600 == 0 {
        concat(decimal_string(secs / 3_600).as_str(), "h")
    } else if secs % 60 == 0 {
        concat(decimal_string(secs / 60).as_str(), "m")
    } else {
        concat(decimal_string(secs).as_str(), "s")
    }
}

impl MiseManager {
    /// mise resolves targets itself, so only the unfiltered policy applies.
    pub fn supports_version_policy(policy: VersionPolicy) -> (r: bool)
        ensures
            r == (policy == VersionPolicy::Unfiltered),
    {
        match policy {
            VersionPolicy::Unfiltered => true,
            _ => false,
        }
    }
}


/// The verbose-scan input of an installed tool: the publication time of
/// the timeline entry that stands for its installed version, where the
/// lookup found one.
pub fn scan_input_for_release_lookup(tool: InstalledTool, lookup: ReleaseLookupResult) -> (r: ManagerScanEvidenceInput)
    ensures
        r matches ManagerScanEvidenceInput::Installed { tool: t, release_evidence } && t == tool && match lookup {
            ReleaseLookupResult::Known(tl) => match first_matching(tl.versions@, tool.installed_version@) {
                Some(i) => release_evidence == Some(
                    VersionReleaseEvidence { version: tool.installed_version, published_at: tl.versions@[i].published_at },
                ),
                None => release_evidence is None,
            },
            _ => release_evidence is None,
        },
{
    match lookup {
        ReleaseLookupResult::Known(timeline) => {
            let release_evidence = match matching_entry(&timeline, &tool.installed_version) {
                Some(i) => Some(
                    VersionReleaseEvidence::new(tool.installed_version.clone(), timeline.versions[i].published_at),
                ),
                None => None,
            };
            ManagerScanEvidenceInput::Installed { tool, release_evidence }
        },
        _ => ManagerScanEvidenceInput::Installed { tool, release_evidence: None },
    }
}

} // verus!
