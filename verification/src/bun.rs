//! The Bun manager: its global packages and their npm registry release
//! timelines.
use vstd::prelude::*;

use crate::adapter::{ManagerAdapterError, ManagerAdapterErrorKind};
use crate::domain::{
    domain_error_text, is_package_tool, package_audit_subject, package_tool, DomainError,
    InstalledTool, ManagerId, OsvEcosystem, PackageName, VersionScheme, VersionText,
};
use crate::scan::ManagerScanEvidenceInput;
use crate::keyed::{keyed_get, keyed_sorted, put_text, text_pairs};
use crate::plan::{ExecutionSupport, ExecutionTargetKind, ManagerUpdateInput, TargetSelection, UpdateSeed};
use crate::release::{
    first_entry_with, newest_release, newest_semver_version, release_evidence_for_version,
    ReleaseLookupError, ReleaseLookupResult, ReleaseTimeline,
};
use crate::text::{
    chars_of, concat, in_set, is_blank, split_by, split_chars, str_eq, str_is_blank, trim,
    trim_bounds, slice_chars, chars_eq_str,
};
use crate::timestamps::{
    entries_are, read_release_times, read_times, time_pairs, TimeFormat, TimeReadError,
    TimesView,
};

verus! {

/// Failures of the Bun adapter.
#[derive(Debug)]
pub enum BunError {
    Infra(String),
    Interrupted(String),
    Json(String),
    Domain(String),
    InvalidTimestamp { version: String, value: String },
    MissingReleaseMetadata(String),
    UnsupportedCommandIntent(String),
}

pub open spec fn bun_error_text(e: BunError) -> Seq<char> {
    match e {
        BunError::Infra(d) => d@,
        BunError::Interrupted(d) => d@,
        BunError::Json(d) => d@,
        BunError::Domain(d) => d@,
        BunError::MissingReleaseMetadata(d) => d@,
        BunError::InvalidTimestamp { version, value } => "invalid timestamp `"@ + value@
            + "` for version `"@ + version@ + "`"@,
        BunError::UnsupportedCommandIntent(kind) => "unsupported bun execution command intent `"@
            + kind@ + "`"@,
    }
}

fn wrap(before: &str, middle: &str, after: &str) -> (r: String)
    ensures
        r@ == before@ + middle@ + after@,
{
    let head = concat(before, middle);
    concat(head.as_str(), after)
}

impl BunError {
    /// What went wrong, in words.
    pub fn message(&self) -> (r: String)
        ensures
            r@ == bun_error_text(*self),
    {
        match self {
            BunError::Infra(d) => d.clone(),
            BunError::Interrupted(d) => d.clone(),
            BunError::Json(d) => d.clone(),
            BunError::Domain(d) => d.clone(),
            BunError::MissingReleaseMetadata(d) => d.clone(),
            BunError::InvalidTimestamp { version, value } => {
                let head = wrap("invalid timestamp `", value.as_str(), "` for version `");
                wrap(head.as_str(), version.as_str(), "`")
            },
            BunError::UnsupportedCommandIntent(kind) => wrap(
                "unsupported bun execution command intent `",
                kind.as_str(),
                "`",
            ),
        }
    }
}

/// The Bun manager; its id is `bun`.
#[derive(Debug)]
pub struct BunManager {}

impl BunManager {
    pub fn id() -> (r: ManagerId)
        ensures
            r@ == "bun"@,
    {
        proof {
            reveal_strlit("bun");
            assert(!crate::text::is_ws("bun"@[0]));
        }
        ManagerId::from_static("bun")
    }
}

/// A globally installed Bun package.
#[derive(Debug)]
pub struct BunInstalledPackage {
    pub name: PackageName,
    pub version: VersionText,
}

// ---------------------------------------------------------------------------
// `bun pm ls -g --json`
// ---------------------------------------------------------------------------

pub open spec fn newline() -> spec_fn(char) -> bool {
    in_set(seq!['\n'])
}

/// What Bun prints when there is no global installation to list.
pub open spec fn empty_install_line(line: Seq<char>) -> bool {
    let t = trim(line);
    t == "error: missing lockfile, nothing to list"@ || t == "error: missing lockfile, nothing outdated"@
        || t == "error: missing package.json"@
}

pub open spec fn reports_empty_install(text: Seq<char>) -> bool {
    exists|i: int|
        0 <= i < split_by(text, newline()).len() && empty_install_line(
            #[trigger] split_by(text, newline())[i],
        )
}

/// Whether a line of the output says the global installation is empty.
pub fn reports_empty_global_install(text: &str) -> (r: bool)
    ensures
        r == reports_empty_install(text@),
{
    let chars = chars_of(text);
    let seps = vec!['\n'];
    assert(seps@ =~= seq!['\n']);
    let lines = split_chars(chars.as_slice(), seps.as_slice());
    let mut i: usize = 0;
    while i < lines.len()
        invariant
            i <= lines@.len(),
            chars@ == text@,
            lines@.len() == split_by(text@, newline()).len(),
            forall|k: int| 0 <= k < lines@.len() ==> #[trigger] lines@[k]@ == split_by(text@, newline())[k],
            forall|k: int| 0 <= k < i ==> !empty_install_line(#[trigger] split_by(text@, newline())[k]),
        decreases lines@.len() - i,
    {
        let line = &lines[i];
        let (a, b) = trim_bounds(line.as_slice());
        let t = slice_chars(line.as_slice(), a, b);
        assert(lines@[i as int]@ == split_by(text@, newline())[i as int]);
        if chars_eq_str(t.as_slice(), "error: missing lockfile, nothing to list") || chars_eq_str(
            t.as_slice(),
            "error: missing lockfile, nothing outdated",
        ) || chars_eq_str(t.as_slice(), "error: missing package.json") {
            assert(empty_install_line(split_by(text@, newline())[i as int]));
            return true;
        }
        i = i + 1;
    }
    false
}

/// After `bun pm ls -g --json` ran: `Ok(true)` when the output says nothing
/// is installed, `Ok(false)` when the output is a listing to read, else why
/// the command failed (a run ended by a signal counts as interrupted).
pub fn list_command_outcome(success: bool, has_exit_code: bool, stdout: &str, stderr: &str) -> (r:
    Result<bool, BunError>)
    ensures
        reports_empty_install(stdout@) || reports_empty_install(stderr@) ==> r == Ok::<bool, BunError>(true),
        !(reports_empty_install(stdout@) || reports_empty_install(stderr@)) ==> {
            &&& success ==> r == Ok::<bool, BunError>(false)
            &&& !success && !has_exit_code ==> (r matches Err(BunError::Interrupted(d)) && d@
                == "bun pm ls -g --json failed (exit signal)"@)
            &&& !success && has_exit_code ==> (r matches Err(BunError::Infra(d)) && d@
                == "bun pm ls -g --json failed: "@ + (if is_blank(stderr@) {
                stdout@
            } else {
                stderr@
            }))
        },
{
    if reports_empty_global_install(stdout) || reports_empty_global_install(stderr) {
        return Ok(true);
    }
    if !success {
        if !has_exit_code {
            return Err(BunError::Interrupted("bun pm ls -g --json failed (exit signal)".to_owned()));
        }
        let detail = if str_is_blank(stderr) {
            stdout
        } else {
            stderr
        };
        return Err(BunError::Infra(concat("bun pm ls -g --json failed: ", detail)));
    }
    Ok(false)
}

/// The (name, version) pairs of every root's dependencies that report a
/// version, roots in order and each root's dependencies in its order.
pub open spec fn dependency_pairs(roots: Seq<Vec<(String, Option<String>)>>) -> Seq<(Seq<char>, Seq<char>)>
    decreases roots.len(),
{
    if roots.len() == 0 {
        Seq::empty()
    } else {
        dependency_pairs(roots.drop_last()) + versioned(roots.last()@)
    }
}

pub open spec fn versioned(deps: Seq<(String, Option<String>)>) -> Seq<(Seq<char>, Seq<char>)>
    decreases deps.len(),
{
    if deps.len() == 0 {
        Seq::empty()
    } else {
        let head = versioned(deps.drop_last());
        match deps.last().1 {
            Some(v) => head.push((deps.last().0@, v@)),
            None => head,
        }
    }
}

/// The first entry whose name or version is blank.
pub open spec fn first_blank_pair(t: Seq<(Seq<char>, Seq<char>)>) -> Option<int>
    decreases t.len(),
{
    if t.len() == 0 {
        None
    } else {
        match first_blank_pair(t.drop_last()) {
            Some(j) => Some(j),
            None => if is_blank(t.last().0) || is_blank(t.last().1) {
                Some(t.len() - 1)
            } else {
                None
            },
        }
    }
}

/// Packages read from a table sorted by name.
pub open spec fn packages_from(t: Seq<(Seq<char>, Seq<char>)>, r: Result<Vec<BunInstalledPackage>, BunError>) -> bool {
    match first_blank_pair(t) {
        Some(j) => r matches Err(BunError::Domain(d)) && d@ == domain_error_text(
            if is_blank(t[j].0) {
                DomainError::EmptyPackageName
            } else {
                DomainError::EmptyVersionText
            },
        ),
        None => r matches Ok(v) && v@.len() == t.len() && forall|i: int|
            0 <= i < t.len() ==> (#[trigger] v@[i]).name@ == t[i].0 && v@[i].version@ == t[i].1,
    }
}

pub proof fn lemma_first_blank_stop(t: Seq<(Seq<char>, Seq<char>)>, k: int)
    requires
        0 <= k <= t.len(),
        first_blank_pair(t.take(k)) is Some,
    ensures
        first_blank_pair(t) == first_blank_pair(t.take(k)),
    decreases t.len() - k,
{
    if k < t.len() {
        assert(t.take(k + 1).drop_last() =~= t.take(k));
        lemma_first_blank_stop(t, k + 1);
    } else {
        assert(t.take(k) =~= t);
    }
}

/// The installed packages from the roots of a `bun pm ls -g --json` listing:
/// each name once, with the version it was last listed with, in ascending
/// name order.
pub fn packages_from_roots(roots: Vec<Vec<(String, Option<String>)>>) -> (r: Result<
    Vec<BunInstalledPackage>,
    BunError,
>)
    ensures
        exists|t: Seq<(Seq<char>, Seq<char>)>|
            keyed_sorted(t) && (forall|k: Seq<char>| #[trigger] keyed_get(t, k) == keyed_get(
                dependency_pairs(roots@),
                k,
            )) && packages_from(t, r),
{
    let mut table: Vec<(String, String)> = Vec::new();
    let ghost all = roots@;
    let mut i: usize = 0;
    assert(all.take(0) =~= Seq::<Vec<(String, Option<String>)>>::empty());
    while i < roots.len()
        invariant
            i <= roots@.len(),
            all == roots@,
            keyed_sorted(text_pairs(table@)),
            forall|k: Seq<char>| #[trigger] keyed_get(text_pairs(table@), k) == keyed_get(
                dependency_pairs(all.take(i as int)),
                k,
            ),
        decreases roots@.len() - i,
    {
        assert(all.take(i + 1).drop_last() =~= all.take(i as int));
        assert(all.take(i + 1).last() == all[i as int]);
        let deps = &roots[i];
        let ghost base = dependency_pairs(all.take(i as int));
        let mut j: usize = 0;
        while j < deps.len()
            invariant
                j <= deps@.len(),
                deps@ == all[i as int]@,
                keyed_sorted(text_pairs(table@)),
                forall|k: Seq<char>| #[trigger] keyed_get(text_pairs(table@), k) == keyed_get(
                    base + versioned(deps@.take(j as int)),
                    k,
                ),
            decreases deps@.len() - j,
        {
            assert(deps@.take(j + 1).drop_last() =~= deps@.take(j as int));
            assert(deps@.take(j + 1).last() == deps@[j as int]);
            match &deps[j].1 {
                Some(v) => {
                    let ghost before = base + versioned(deps@.take(j as int));
                    put_text(&mut table, deps[j].0.clone(), v.clone());
                    assert(base + versioned(deps@.take(j + 1)) =~= before.push((deps@[j as int].0@, v@)));
                    assert forall|k: Seq<char>| #[trigger] keyed_get(text_pairs(table@), k) == keyed_get(
                        base + versioned(deps@.take(j + 1)),
                        k,
                    ) by {
                        assert(before.push((deps@[j as int].0@, v@)).drop_last() =~= before);
                    }
                },
                None => {
                    assert(base + versioned(deps@.take(j + 1)) =~= base + versioned(deps@.take(j as int)));
                },
            }
            j = j + 1;
        }
        assert(deps@.take(deps@.len() as int) =~= deps@);
        i = i + 1;
    }
    assert(all.take(roots@.len() as int) =~= roots@);
    let ghost t = text_pairs(table@);
    let mut packages: Vec<BunInstalledPackage> = Vec::new();
    let mut n: usize = 0;
    while n < table.len()
        invariant
            n <= table@.len(),
            t == text_pairs(table@),
            first_blank_pair(t.take(n as int)) is None,
            keyed_sorted(t),
            forall|k: Seq<char>| #[trigger] keyed_get(t, k) == keyed_get(dependency_pairs(roots@), k),
            packages@.len() == n,
            forall|i: int| 0 <= i < n ==> (#[trigger] packages@[i]).name@ == t[i].0 && packages@[i].version@ == t[i].1,
        decreases table@.len() - n,
    {
        assert(t.take(n + 1).drop_last() =~= t.take(n as int));
        assert(t.take(n + 1).last() == t[n as int]);
        assert(t[n as int] == (table@[n as int].0@, table@[n as int].1@));
        let name = match PackageName::new(table[n].0.as_str()) {
            Ok(x) => x,
            Err(e) => {
                proof {
                    lemma_first_blank_stop(t, n + 1);
                }
                let r = Err(BunError::Domain(e.message()));
                assert(packages_from(t, r));
                return r;
            },
        };
        let version = match VersionText::new(table[n].1.as_str()) {
            Ok(x) => x,
            Err(e) => {
                proof {
                    lemma_first_blank_stop(t, n + 1);
                }
                let r = Err(BunError::Domain(e.message()));
                assert(packages_from(t, r));
                return r;
            },
        };
        packages.push(BunInstalledPackage { name, version });
        n = n + 1;
    }
    assert(t.take(table@.len() as int) =~= t);
    let r = Ok(packages);
    assert(packages_from(t, r));
    r
}

// ---------------------------------------------------------------------------
// Plan inputs
// ---------------------------------------------------------------------------

/// The tool Bun reports for a package: named after it, audited as an npm
/// package.
pub fn installed_tool(package: &BunInstalledPackage) -> (r: Result<InstalledTool, BunError>)
    ensures
        r is Ok,
        r matches Ok(t) ==> {
            &&& is_package_tool(t, "bun"@, package.name@, package.version)
            &&& t.audit_subject matches Some(s) && s.ecosystem == OsvEcosystem::Npm
                && s.package_name@ == package.name@
        },
{
    let tool = package_tool(BunManager::id(), &package.name, package.version.clone());
    Ok(tool.with_audit_subject(package_audit_subject(OsvEcosystem::Npm, &package.name)))
}

/// The newest SemVer release of a known timeline, else the installed
/// version.
pub open spec fn semver_discovered(tool: InstalledTool, lookup: ReleaseLookupResult) -> VersionText {
    match lookup {
        ReleaseLookupResult::Known(t) => match newest_release(t.versions@, VersionScheme::SemVer) {
            Some(e) => e.version,
            None => tool.installed_version,
        },
        _ => tool.installed_version,
    }
}

/// A planner-selectable SemVer seed that Bun updates by exact version or
/// with its global update.
pub fn update_input(tool: InstalledTool, lookup: ReleaseLookupResult) -> (r: ManagerUpdateInput)
    ensures
        r matches ManagerUpdateInput::Seed(s) && {
            &&& s.installed == tool
            &&& s.version_scheme == VersionScheme::SemVer
            &&& s.execution_support == ExecutionSupport::flags(true, false, true, false)
            &&& s.target_selection == (TargetSelection::PlannerSelectable {
                discovered_target: semver_discovered(tool, lookup),
                release_lookup: lookup,
            })
            &&& s.execution_target_kind == ExecutionTargetKind::Standard
        },
{
    let discovered = match &lookup {
        ReleaseLookupResult::Known(timeline) => match newest_semver_version(timeline) {
            Some(v) => v,
            None => tool.installed_version.clone(),
        },
        _ => tool.installed_version.clone(),
    };
    ManagerUpdateInput::Seed(
        UpdateSeed::new(
            tool,
            discovered,
            VersionScheme::SemVer,
            lookup,
            ExecutionSupport::exact_or_native_global(),
        ),
    )
}

// ---------------------------------------------------------------------------
// Registry release times
// ---------------------------------------------------------------------------

/// The time map without its `created` and `modified` keys.
pub open spec fn release_times(times: Seq<(Seq<char>, Seq<char>)>) -> Seq<(Seq<char>, Seq<char>)>
    decreases times.len(),
{
    if times.len() == 0 {
        Seq::empty()
    } else {
        let head = release_times(times.drop_last());
        let k = times.last().0;
        if k == "created"@ || k == "modified"@ {
            head
        } else {
            head.push(times.last())
        }
    }
}

pub open spec fn empty_times_text(package: Seq<char>) -> Seq<char> {
    "registry time metadata is empty for "@ + package
}

/// The release timeline of a registry time map (version, time), in map
/// order: its `created` and `modified` keys are not releases; no release is
/// an error, and so is the first release whose time or version does not read.
pub fn time_map_to_timeline(package: &PackageName, timestamps: Vec<(String, String)>) -> (r: Result<
    ReleaseTimeline,
    BunError,
>)
    ensures
        match read_times(TimeFormat::Registry, release_times(time_pairs(timestamps@))) {
            TimesView::Entries(es) => if es.len() == 0 {
                r matches Err(BunError::MissingReleaseMetadata(m)) && m@ == empty_times_text(package@)
            } else {
                r matches Ok(t) && entries_are(t.versions@, es)
            },
            TimesView::BadTime(ver, val) => r matches Err(BunError::InvalidTimestamp { version, value })
                && version@ == ver && value@ == val,
            TimesView::BlankVersion => r matches Err(BunError::Domain(d)) && d@ == domain_error_text(
                DomainError::EmptyVersionText,
            ),
        },
{
    let ghost all = time_pairs(timestamps@);
    let mut kept: Vec<(String, String)> = Vec::new();
    let mut i: usize = 0;
    while i < timestamps.len()
        invariant
            i <= timestamps@.len(),
            all == time_pairs(timestamps@),
            time_pairs(kept@) == release_times(all.take(i as int)),
        decreases timestamps@.len() - i,
    {
        assert(all.take(i + 1).drop_last() =~= all.take(i as int));
        assert(all.take(i + 1).last() == all[i as int]);
        assert(all[i as int] == (timestamps@[i as int].0@, timestamps@[i as int].1@));
        let key = timestamps[i].0.as_str();
        if !(str_eq(key, "created") || str_eq(key, "modified")) {
            let ghost before = time_pairs(kept@);
            kept.push((timestamps[i].0.clone(), timestamps[i].1.clone()));
            assert(time_pairs(kept@) =~= before.push(all[i as int]));
        }
        i = i + 1;
    }
    assert(all.take(timestamps@.len() as int) =~= all);
    match read_release_times(TimeFormat::Registry, &kept) {
        Ok(entries) => {
            if entries.len() == 0 {
                Err(BunError::MissingReleaseMetadata(concat("registry time metadata is empty for ", package.as_str())))
            } else {
                Ok(ReleaseTimeline::new(entries))
            }
        },
        Err(TimeReadError::BadTime { version, value }) => Err(BunError::InvalidTimestamp { version, value }),
        Err(TimeReadError::BlankVersion) => Err(BunError::Domain(DomainError::EmptyVersionText.message())),
    }
}

/// How `bun pm view <package> time --json` went.
#[derive(Debug)]
pub enum BunViewOutcome {
    /// No global installation directory is known.
    NoGlobalDir,
    /// Running the command was interrupted.
    Interrupted(String),
    /// The command ended by a signal.
    Signalled,
    /// The time map it printed, or why it could not be read.
    Fetched(Result<Vec<(String, String)>, String>),
}

/// The release lookup answer for one package.
pub fn bun_release_lookup(package: &PackageName, outcome: BunViewOutcome) -> (r: Result<
    ReleaseLookupResult,
    BunError,
>)
    ensures
        match outcome {
            BunViewOutcome::NoGlobalDir => r matches Ok(ReleaseLookupResult::MissingMetadata),
            BunViewOutcome::Interrupted(d) => r matches Err(BunError::Interrupted(x)) && x@ == d@,
            BunViewOutcome::Signalled => r matches Err(BunError::Interrupted(x)) && x@
                == "bun pm view time --json failed (exit signal)"@,
            BunViewOutcome::Fetched(Err(d)) => r matches Ok(ReleaseLookupResult::LookupFailed(e))
                && e.detail@ == d@,
            BunViewOutcome::Fetched(Ok(times)) => match read_times(
                TimeFormat::Registry,
                release_times(time_pairs(times@)),
            ) {
                TimesView::Entries(es) => if es.len() == 0 {
                    r matches Ok(ReleaseLookupResult::MissingMetadata)
                } else {
                    r matches Ok(ReleaseLookupResult::Known(t)) && entries_are(t.versions@, es)
                },
                TimesView::BadTime(ver, val) => r matches Ok(ReleaseLookupResult::LookupFailed(e))
                    && e.detail@ == "invalid timestamp `"@ + val + "` for version `"@ + ver + "`"@,
                TimesView::BlankVersion => r matches Ok(ReleaseLookupResult::LookupFailed(e))
                    && e.detail@ == domain_error_text(DomainError::EmptyVersionText),
            },
        },
{
    match outcome {
        BunViewOutcome::NoGlobalDir => Ok(ReleaseLookupResult::MissingMetadata),
        BunViewOutcome::Interrupted(d) => Err(BunError::Interrupted(d)),
        BunViewOutcome::Signalled => Err(
            BunError::Interrupted("bun pm view time --json failed (exit signal)".to_owned()),
        ),
        BunViewOutcome::Fetched(Err(d)) => Ok(
            ReleaseLookupResult::LookupFailed(ReleaseLookupError::new(d.as_str())),
        ),
        BunViewOutcome::Fetched(Ok(times)) => match time_map_to_timeline(package, times) {
            Ok(timeline) => Ok(ReleaseLookupResult::Known(timeline)),
            Err(BunError::MissingReleaseMetadata(_)) => Ok(ReleaseLookupResult::MissingMetadata),
            Err(e) => Ok(ReleaseLookupResult::LookupFailed(ReleaseLookupError::new(e.message().as_str()))),
        },
    }
}

/// A value with its surrounding whitespace removed, unless nothing is left.
pub open spec fn non_empty(v: Option<Seq<char>>) -> Option<Seq<char>> {
    match v {
        Some(s) => if trim(s).len() == 0 {
            None
        } else {
            Some(trim(s))
        },
        None => None,
    }
}

pub open spec fn opt_text(v: Option<String>) -> Option<Seq<char>> {
    match v {
        Some(s) => Some(s@),
        None => None,
    }
}

/// An environment value trimmed, or `None` when it is unset or blank.
pub fn non_empty_value(value: Option<String>) -> (r: Option<String>)
    ensures
        opt_text(r) == non_empty(opt_text(value)),
{
    match value {
        Some(s) => {
            let t = crate::text::trimmed_chars(s.as_str());
            if t.len() == 0 {
                None
            } else {
                Some(crate::text::string_of(t.as_slice()))
            }
        },
        None => None,
    }
}

/// Bun's global installation directory: under `BUN_INSTALL` when set,
/// else under `HOME`.
pub fn bun_global_cwd(bun_install: Option<String>, home: Option<String>) -> (r: Option<String>)
    ensures
        opt_text(r) == match non_empty(opt_text(bun_install)) {
            Some(p) => Some(p + "/install/global"@),
            None => match non_empty(opt_text(home)) {
                Some(p) => Some(p + "/.bun/install/global"@),
                None => None,
            },
        },
{
    match non_empty_value(bun_install) {
        Some(p) => Some(concat(p.as_str(), "/install/global")),
        None => match non_empty_value(home) {
            Some(p) => Some(concat(p.as_str(), "/.bun/install/global")),
            None => None,
        },
    }
}

/// The adapter failure for a bun failure, with its text as detail.
pub fn adapter_error(err: &BunError) -> (r: ManagerAdapterError)
    ensures
        r matches ManagerAdapterError::Manager { kind, detail } && detail@ == bun_error_text(*err) && kind == match *err {
            BunError::Interrupted(_) => ManagerAdapterErrorKind::Interrupted,
            BunError::UnsupportedCommandIntent(_) => ManagerAdapterErrorKind::CommandConstruction,
            BunError::Infra(_) => ManagerAdapterErrorKind::Infra,
            _ => ManagerAdapterErrorKind::Parse,
        },
{
    let kind = match err {
        BunError::Interrupted(_) => ManagerAdapterErrorKind::Interrupted,
        BunError::Json(_) | BunError::Domain(_) | BunError::InvalidTimestamp { .. } | BunError::MissingReleaseMetadata(_) => ManagerAdapterErrorKind::Parse,
        BunError::UnsupportedCommandIntent(_) => ManagerAdapterErrorKind::CommandConstruction,
        BunError::Infra(_) => ManagerAdapterErrorKind::Infra,
    };
    ManagerAdapterError::Manager { kind, detail: err.message() }
}


/// The verbose-scan input of an installed package: the publication time of
/// its installed version, where the lookup found a timeline listing it.
pub fn scan_evidence_input(tool: InstalledTool, lookup: ReleaseLookupResult) -> (r: ManagerScanEvidenceInput)
    ensures
        r matches ManagerScanEvidenceInput::Installed { tool: t, release_evidence } && t == tool && match lookup {
            ReleaseLookupResult::Known(tl) => match first_entry_with(tl.versions@, tool.installed_version@) {
                Some(i) => release_evidence matches Some(e) && e.version == tl.versions@[i].version
                    && e.published_at == tl.versions@[i].published_at,
                None => release_evidence is None,
            },
            _ => release_evidence is None,
        },
{
    let release_evidence = match &lookup {
        ReleaseLookupResult::Known(timeline) => release_evidence_for_version(timeline, &tool.installed_version),
        _ => None,
    };
    ManagerScanEvidenceInput::Installed { tool, release_evidence }
}

} // verus!
