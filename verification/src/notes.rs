//! The short notes shown beside plan rows: ages, freshness, policy and audit.
use vstd::prelude::*;

use crate::domain::{AuditFinding, AuditLookupResult, AuditView, FindingView, PolicyWarning, VersionText, findings_view};
use crate::plan::SkipReason;
use crate::text::{concat, decimal, decimal_string};

verus! {

/// `n` seconds as the largest whole unit: days, hours, minutes or seconds.
pub open spec fn human_age_text(secs: nat) -> Seq<char> {
    if secs / 86400 > 0 {
        decimal(secs / 86400) + "d"@
    } else if secs / 3600 > 0 {
        decimal(secs / 3600) + "h"@
    } else if secs / 60 > 0 {
        decimal(secs / 60) + "m"@
    } else {
        decimal(secs) + "s"@
    }
}

/// An age in whole seconds as its largest whole unit, such as `3d` or `45s`.
pub fn human_age(age: u64) -> (r: String)
    ensures
        r@ == human_age_text(age as nat),
{
    let days = age / 86400;
    if days > 0 {
        return concat(decimal_string(days).as_str(), "d");
    }
    let hours = age / 3600;
    if hours > 0 {
        return concat(decimal_string(hours).as_str(), "h");
    }
    let minutes = age / 60;
    if minutes > 0 {
        return concat(decimal_string(minutes).as_str(), "m");
    }
    concat(decimal_string(age).as_str(), "s")
}

/// `3d ago`.
pub fn released(age: u64) -> (r: String)
    ensures
        r@ == human_age_text(age as nat) + " ago"@,
{
    concat(human_age(age).as_str(), " ago")
}

pub open spec fn too_fresh_text(age: Option<u64>, required: u64) -> Seq<char> {
    match age {
        None => "too fresh: need "@ + human_age_text(required as nat),
        Some(a) => "too fresh: "@ + human_age_text(a as nat) + " < "@ + human_age_text(required as nat),
    }
}

/// Why a release is not old enough yet: its age against the required one.
pub fn too_fresh(age: Option<u64>, required_age: u64) -> (r: String)
    ensures
        r@ == too_fresh_text(age, required_age),
{
    match age {
        None => concat("too fresh: need ", human_age(required_age).as_str()),
        Some(a) => {
            let head = concat("too fresh: ", human_age(a).as_str());
            let mid = concat(head.as_str(), " < ");
            concat(mid.as_str(), human_age(required_age).as_str())
        },
    }
}

/// `1.2.3 too fresh`.
pub fn version_too_fresh(version: &VersionText) -> (r: String)
    ensures
        r@ == version@ + " too fresh"@,
{
    concat(version.as_str(), " too fresh")
}

/// The note for a row whose newest release is too young and has no older
/// eligible one.
pub fn no_eligible_latest_too_fresh(version: &VersionText) -> (r: String)
    ensures
        r@ == "no eligible release yet; "@ + version@ + " too fresh"@,
{
    concat("no eligible release yet; ", version_too_fresh(version).as_str())
}

/// `1.2.3 blocked by policy`.
pub fn version_blocked_by_policy(version: &VersionText) -> (r: String)
    ensures
        r@ == version@ + " blocked by policy"@,
{
    concat(version.as_str(), " blocked by policy")
}

pub open spec fn policy_warning_text(warning: PolicyWarning) -> Seq<char> {
    match warning {
        PolicyWarning::InstalledTrackUnknownFallbackStable => "same-track fell back to stable because installed track is unknown"@,
    }
}

pub fn policy_warning(warning: PolicyWarning) -> (r: &'static str)
    ensures
        r@ == policy_warning_text(warning),
{
    match warning {
        PolicyWarning::InstalledTrackUnknownFallbackStable => "same-track fell back to stable because installed track is unknown",
    }
}

pub fn version_policy_warning(warning: PolicyWarning) -> (r: String)
    ensures
        r@ == "version policy warning: "@ + policy_warning_text(warning),
{
    concat("version policy warning: ", policy_warning(warning))
}

/// Advisory ids in order: each finding's id, then its aliases.
pub open spec fn advisory_ids(findings: Seq<FindingView>) -> Seq<Seq<char>>
    decreases findings.len(),
{
    if findings.len() == 0 {
        Seq::empty()
    } else {
        advisory_ids(findings.drop_last()) + seq![findings.last().id] + findings.last().aliases
    }
}

/// The parts separated by `sep`.
pub open spec fn joined(parts: Seq<Seq<char>>, sep: Seq<char>) -> Seq<char>
    decreases parts.len(),
{
    if parts.len() == 0 {
        Seq::empty()
    } else if parts.len() == 1 {
        parts[0]
    } else {
        joined(parts.drop_last(), sep) + sep + parts.last()
    }
}

pub open spec fn vulnerability_text(findings: Seq<FindingView>) -> Seq<char> {
    let ids = advisory_ids(findings);
    if ids.len() == 0 {
        "vulnerable"@
    } else {
        "vulnerable: "@ + joined(ids.take(if ids.len() < 3 { ids.len() as int } else { 3 }), ", "@)
    }
}

proof fn lemma_advisory_ids_step(findings: Seq<FindingView>, k: int)
    requires
        0 <= k < findings.len(),
    ensures
        advisory_ids(findings.take(k + 1)) == advisory_ids(findings.take(k)) + seq![findings[k].id]
            + findings[k].aliases,
{
    assert(findings.take(k + 1).drop_last() =~= findings.take(k));
}

fn push_joined(out: &mut String, count: usize, part: &str)
    ensures
        final(out)@ == if count == 0 { old(out)@ + part@ } else { old(out)@ + ", "@ + part@ },
{
    if count > 0 {
        out.append(", ");
    }
    out.append(part);
}

/// The vulnerability note: `vulnerable: ` and the first three advisory ids.
pub fn vulnerability_note(findings: &[AuditFinding]) -> (r: String)
    ensures
        r@ == vulnerability_text(findings_view(findings@)),
{
    let ghost fv = findings_view(findings@);
    let mut out = String::new();
    let mut count: usize = 0;
    let mut i: usize = 0;
    assert(fv.take(0) =~= Seq::<FindingView>::empty());
    while i < findings.len() && count < 3
        invariant
            i <= findings@.len(),
            fv == findings_view(findings@),
            fv.len() == findings@.len(),
            count <= 3,
            count == (if advisory_ids(fv.take(i as int)).len() < 3 { advisory_ids(fv.take(i as int)).len() } else { 3 }),
            out@ == joined(advisory_ids(fv.take(i as int)).take(count as int), ", "@),
        decreases findings@.len() - i,
    {
        let ghost before = advisory_ids(fv.take(i as int));
        proof {
            lemma_advisory_ids_step(fv, i as int);
        }
        let f = &findings[i];
        assert(fv[i as int] == f@);
        let ghost after = advisory_ids(fv.take(i + 1));
        assert(after == before + seq![f.id@] + crate::domain::strings_view(f.aliases@));
        assert(before.len() >= 3 ==> count == 3);
        let ghost c0 = count;
        push_joined(&mut out, count, f.id.as_str());
        count = count + 1;
        proof {
            assert(after.take(count as int).drop_last() =~= before.take(c0 as int));
            assert(after[c0 as int] == f.id@);
        }
        let mut j: usize = 0;
        while j < f.aliases.len() && count < 3
            invariant
                j <= f.aliases@.len(),
                count <= 3,
                count as int == before.len() + 1 + j,
                after == before + seq![f.id@] + crate::domain::strings_view(f.aliases@),
                out@ == joined(after.take(count as int), ", "@),
            decreases f.aliases@.len() - j,
        {
            let ghost c1 = count;
            push_joined(&mut out, count, f.aliases[j].as_str());
            count = count + 1;
            proof {
                assert(after.take(count as int).drop_last() =~= after.take(c1 as int));
                assert(after[c1 as int] == f.aliases@[j as int]@);
            }
            j = j + 1;
        }
        i = i + 1;
    }
    proof {
        let ids = advisory_ids(fv);
        if i < findings@.len() {
            assert(count == 3);
            lemma_advisory_prefix(fv, i as int);
            assert(ids.take(3) =~= advisory_ids(fv.take(i as int)).take(3));
        } else {
            assert(fv.take(i as int) =~= fv);
        }
    }
    if count == 0 {
        return "vulnerable".to_owned();
    }
    concat("vulnerable: ", out.as_str())
}

/// The ids of a prefix of the findings begin the ids of all of them.
proof fn lemma_advisory_prefix(findings: Seq<FindingView>, k: int)
    requires
        0 <= k <= findings.len(),
    ensures
        advisory_ids(findings.take(k)).len() <= advisory_ids(findings).len(),
        advisory_ids(findings).take(advisory_ids(findings.take(k)).len() as int) == advisory_ids(
            findings.take(k),
        ),
    decreases findings.len() - k,
{
    if k < findings.len() {
        lemma_advisory_prefix(findings, k + 1);
        lemma_advisory_ids_step(findings, k);
        let a = advisory_ids(findings.take(k));
        let b = advisory_ids(findings.take(k + 1));
        let all = advisory_ids(findings);
        assert(all.take(a.len() as int) =~= b.take(a.len() as int));
    } else {
        assert(findings.take(k) =~= findings);
    }
}

pub open spec fn audit_candidate_text(audit: AuditView) -> Option<Seq<char>> {
    match audit {
        AuditView::Clean => None,
        AuditView::Vulnerable(findings) => Some(vulnerability_text(findings)),
        AuditView::LookupFailed(_) => Some("audit unavailable"@),
    }
}

/// The note an audit answer adds; none when it is clean.
pub fn audit_candidate(audit: &AuditLookupResult) -> (r: Option<String>)
    ensures
        match r {
            Some(s) => audit_candidate_text(audit@) == Some(s@),
            None => audit_candidate_text(audit@) is None,
        },
{
    match audit {
        AuditLookupResult::Clean => None,
        AuditLookupResult::Vulnerable { findings } => Some(vulnerability_note(findings.as_slice())),
        AuditLookupResult::LookupFailed { .. } => Some("audit unavailable".to_owned()),
    }
}

pub open spec fn skip_reason_text(reason: SkipReason) -> Seq<char> {
    match reason {
        SkipReason::Pinned => "pinned"@,
        SkipReason::ManagerRule(detail) => detail@,
    }
}

/// Why a tool was skipped.
pub fn skip_reason(reason: &SkipReason) -> (r: String)
    ensures
        r@ == skip_reason_text(*reason),
{
    match reason {
        SkipReason::Pinned => "pinned".to_owned(),
        SkipReason::ManagerRule(detail) => detail.clone(),
    }
}

} // verus!
