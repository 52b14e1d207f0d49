//! The pipx manager: which installed packages planning may update, and the
//! PyPI release timeline of each.
use vstd::prelude::*;

use crate::adapter::{ManagerAdapterError, ManagerAdapterErrorKind};
use crate::domain::{
    domain_error_text, is_package_tool, package_audit_subject, package_tool, DomainError,
    InstalledTool, ManagerId, OsvEcosystem, PackageName, VersionScheme, VersionText,
};
use crate::evaluate::version_parses;
use crate::evaluate::scheme_parses;
use crate::plan::{ExecutionSupport, ManagerUpdateInput, SkipReason, TargetSelection, UpdateSeed};
use crate::release::{
    newest_pep440_version, newest_release, ReleaseEntry, ReleaseLookupError, ReleaseLookupResult,
    ReleaseTimeline, ReleaseTimestamp,
};
use crate::text::{
    chars_eq, chars_of, concat, has_prefix, is_alnum, is_alnum_char, lower, lower_char, push_char,
    str_eq, str_is_blank, is_blank, string_of, strip_prefix_of,
};
use crate::timestamps::{
    entries_are, instant_after, is_after, parse_registry_timestamp, read_release_times,
    read_times, registry_instant, time_pairs, Instant, TimeFormat, TimeReadError, TimesView,
};
use crate::versions::pep440_facts;
use crate::keyed::{find_text_key, keys_ascending};
use crate::text::seq_less;

verus! {

/// Failures of the pipx adapter.
#[derive(Debug)]
pub enum PipxError {
    Infra(String),
    Interrupted(String),
    Json(String),
    Domain(String),
    InvalidTimestamp { version: String, value: String },
    MissingReleaseMetadata(String),
    UnsupportedCommandIntent(String),
}

pub open spec fn pipx_error_text(e: PipxError) -> Seq<char> {
    match e {
        PipxError::Infra(d) => d@,
        PipxError::Interrupted(d) => d@,
        PipxError::Json(d) => d@,
        PipxError::Domain(d) => d@,
        PipxError::MissingReleaseMetadata(d) => d@,
        PipxError::InvalidTimestamp { version, value } => "invalid timestamp `"@ + value@
            + "` for version `"@ + version@ + "`"@,
        PipxError::UnsupportedCommandIntent(kind) => "unsupported pipx execution command intent `"@
            + kind@ + "`"@,
    }
}

fn wrap(before: &str, middle: &str, after: &str) -> (r: String)
    ensures
        r@ == before@ + middle@ + after@,
{
    let head = concat(before, middle);
    concat(head.as_str(), after)
}

impl PipxError {
    /// What went wrong, in words.
    pub fn message(&self) -> (r: String)
        ensures
            r@ == pipx_error_text(*self),
    {
        match self {
            PipxError::Infra(d) => d.clone(),
            PipxError::Interrupted(d) => d.clone(),
            PipxError::Json(d) => d.clone(),
            PipxError::Domain(d) => d.clone(),
            PipxError::MissingReleaseMetadata(d) => d.clone(),
            PipxError::InvalidTimestamp { version, value } => {
                let head = wrap("invalid timestamp `", value.as_str(), "` for version `");
                wrap(head.as_str(), version.as_str(), "`")
            },
            PipxError::UnsupportedCommandIntent(kind) => wrap(
                "unsupported pipx execution command intent `",
                kind.as_str(),
                "`",
            ),
        }
    }

    pub fn from_domain(e: DomainError) -> (r: PipxError)
        ensures
            r matches PipxError::Domain(d) && d@ == domain_error_text(e),
    {
        PipxError::Domain(e.message())
    }
}

/// The pipx manager; its id is `pipx`.
#[derive(Debug)]
pub struct PipxManager {}

impl PipxManager {
    pub fn id() -> (r: ManagerId)
        ensures
            r@ == "pipx"@,
    {
        proof {
            reveal_strlit("pipx");
            assert(!crate::text::is_ws("pipx"@[0]));
        }
        ManagerId::from_static("pipx")
    }
}

/// The main package of one pipx environment.
#[derive(Debug)]
pub struct PipxInstalledPackage {
    pub name: PackageName,
    pub version: VersionText,
    pub package_or_url: Option<String>,
    pub pip_args: Vec<String>,
    pub pinned: bool,
    pub locked: bool,
    pub suffix: String,
}

// ---------------------------------------------------------------------------
// Package names
// ---------------------------------------------------------------------------

pub open spec fn is_name_separator(c: char) -> bool {
    c == '-' || c == '_' || c == '.'
}

/// PEP 503 normalisation from some position: runs of `-`, `_` and `.` become
/// one `-` (none when the run continues one already written), letters are
/// lower-cased.
pub open spec fn normalized_from(s: Seq<char>, after_separator: bool) -> Seq<char>
    decreases s.len(),
{
    if s.len() == 0 {
        Seq::empty()
    } else if is_name_separator(s[0]) {
        (if after_separator {
            Seq::empty()
        } else {
            seq!['-']
        }) + normalized_from(s.drop_first(), true)
    } else {
        seq![lower(s[0])] + normalized_from(s.drop_first(), false)
    }
}

pub open spec fn normalized_name(s: Seq<char>) -> Seq<char> {
    normalized_from(s, false)
}

/// The normalised form of a Python package name.
pub fn normalize_python_name(value: &str) -> (r: String)
    ensures
        r@ == normalized_name(value@),
{
    let chars = chars_of(value);
    let mut out = String::new();
    let mut separator = false;
    let mut i: usize = 0;
    assert(out@ =~= Seq::<char>::empty());
    assert(chars@.skip(0) =~= chars@);
    assert(out@ + normalized_from(chars@.skip(0), false) =~= normalized_from(chars@, false));
    while i < chars.len()
        invariant
            i <= chars@.len(),
            chars@ == value@,
            out@ + normalized_from(chars@.skip(i as int), separator) == normalized_name(value@),
        decreases chars@.len() - i,
    {
        let ghost before = out@;
        let ghost rest = chars@.skip(i as int);
        let ghost was = separator;
        assert(rest.drop_first() =~= chars@.skip(i + 1));
        assert(rest[0] == chars@[i as int]);
        let c = chars[i];
        if c == '-' || c == '_' || c == '.' {
            if !separator {
                push_char(&mut out, '-');
            }
            separator = true;
            let ghost x: Seq<char> = if was { Seq::empty() } else { seq!['-'] };
            assert(out@ =~= before + x);
            assert(before + (x + normalized_from(rest.drop_first(), true)) =~= (before + x)
                + normalized_from(rest.drop_first(), true));
        } else {
            push_char(&mut out, lower_char(c));
            separator = false;
            assert(before + (seq![lower(c)] + normalized_from(rest.drop_first(), false)) =~= (
            before.push(lower(c))) + normalized_from(rest.drop_first(), false));
        }
        i = i + 1;
    }
    assert(chars@.skip(i as int) =~= Seq::<char>::empty());
    assert(out@ + Seq::<char>::empty() =~= out@);
    out
}

pub open spec fn bare_identity_char(c: char) -> bool {
    is_alnum(c) || is_name_separator(c)
}

/// `source` names `package` itself: only ASCII letters, digits, `-`, `_`
/// and `.`, and the same name once normalised.
pub open spec fn is_bare_identity(source: Seq<char>, package: Seq<char>) -> bool {
    &&& forall|i: int| 0 <= i < source.len() ==> bare_identity_char(#[trigger] source[i])
    &&& normalized_name(source) == normalized_name(package)
}

pub fn is_bare_package_identity(source: &str, package: &str) -> (r: bool)
    ensures
        r == is_bare_identity(source@, package@),
{
    let chars = chars_of(source);
    let mut i: usize = 0;
    while i < chars.len()
        invariant
            i <= chars@.len(),
            chars@ == source@,
            forall|k: int| 0 <= k < i ==> bare_identity_char(#[trigger] source@[k]),
        decreases chars@.len() - i,
    {
        let c = chars[i];
        if !(is_alnum_char(c) || c == '-' || c == '_' || c == '.') {
            assert(!bare_identity_char(source@[i as int]));
            return false;
        }
        i = i + 1;
    }
    let a = normalize_python_name(source);
    let b = normalize_python_name(package);
    str_eq(a.as_str(), b.as_str())
}

// ---------------------------------------------------------------------------
// Installation constraints
// ---------------------------------------------------------------------------

/// `arg` is the option `opt`, alone or as `opt=value`.
pub open spec fn option_given(arg: Seq<char>, opt: Seq<char>) -> bool {
    arg == opt || has_prefix(arg, opt.push('='))
}

/// Options that point pip at another package source.
pub open spec fn changes_source(arg: Seq<char>) -> bool {
    option_given(arg, "-i"@) || option_given(arg, "-f"@) || option_given(arg, "--index-url"@)
        || option_given(arg, "--extra-index-url"@) || option_given(arg, "--find-links"@)
        || option_given(arg, "--no-index"@)
}

fn option_given_by(arg: &[char], opt: &str) -> (r: bool)
    ensures
        r == option_given(arg@, opt@),
{
    let mut o = chars_of(opt);
    if chars_eq(arg, o.as_slice()) {
        return true;
    }
    o.push('=');
    let with_eq = string_of(o.as_slice());
    strip_prefix_of(arg, with_eq.as_str()).is_some()
}

pub fn changes_package_source(arg: &str) -> (r: bool)
    ensures
        r == changes_source(arg@),
{
    let a = chars_of(arg);
    let s = a.as_slice();
    option_given_by(s, "-i") || option_given_by(s, "-f") || option_given_by(s, "--index-url")
        || option_given_by(s, "--extra-index-url") || option_given_by(s, "--find-links")
        || option_given_by(s, "--no-index")
}

/// Each of pip's package-source options (`-i`, `-f`, `--index-url`,
/// `--extra-index-url`, `--find-links`, `--no-index`), alone or as
/// `option=value`, changes the package source.
pub proof fn law_package_source_options(opt: Seq<char>, value: Seq<char>)
    requires
        opt == "-i"@ || opt == "-f"@ || opt == "--index-url"@ || opt == "--extra-index-url"@ || opt
            == "--find-links"@ || opt == "--no-index"@,
    ensures
        changes_source(opt),
        changes_source(opt + "="@ + value),
{
    reveal_strlit("=");
    let a = opt + "="@ + value;
    assert(opt.push('=') =~= opt + "="@);
    assert(a.take(opt.push('=').len() as int) =~= opt.push('='));
}

/// A skip reason with its text read as a character sequence.
pub enum SkipView {
    Pinned,
    Rule(Seq<char>),
}

pub open spec fn skip_view(r: SkipReason) -> SkipView {
    match r {
        SkipReason::Pinned => SkipView::Pinned,
        SkipReason::ManagerRule(t) => SkipView::Rule(t@),
    }
}

pub open spec fn texts(v: Seq<String>) -> Seq<Seq<char>> {
    v.map_values(|s: String| s@)
}

pub open spec fn opt_secs(c: Option<i64>) -> Option<int> {
    match c {
        Some(x) => Some(x as int),
        None => None,
    }
}

pub open spec fn min_cutoff(cutoff: Option<int>, t: int) -> int {
    match cutoff {
        Some(c) => if c <= t {
            c
        } else {
            t
        },
        None => t,
    }
}

pub open spec fn invalid_cutoff_text(value: Seq<char>) -> Seq<char> {
    "pipx has an invalid --uploaded-prior-to constraint `"@ + value + "`"@
}

/// Reads pip arguments from position `i`: each `--uploaded-prior-to`
/// (followed by its value, or as `--uploaded-prior-to=value`) lowers the
/// upload cutoff to the second it names; an option that changes the package
/// source, or a constraint that is incomplete or unreadable, stops with a
/// reason to skip.
pub open spec fn scan_pip_args(args: Seq<Seq<char>>, i: int, cutoff: Option<int>) -> Result<
    Option<int>,
    SkipView,
>
    decreases args.len() - i,
{
    if i < 0 || i >= args.len() {
        Ok(cutoff)
    } else {
        let arg = args[i];
        if arg == "--uploaded-prior-to"@ {
            if i + 1 >= args.len() {
                Err(SkipView::Rule("pipx has an incomplete --uploaded-prior-to constraint"@))
            } else {
                match registry_instant(args[i + 1]) {
                    None => Err(SkipView::Rule(invalid_cutoff_text(args[i + 1]))),
                    Some(t) => scan_pip_args(args, i + 2, Some(min_cutoff(cutoff, t.secs as int))),
                }
            }
        } else if has_prefix(arg, "--uploaded-prior-to="@) {
            let value = arg.skip("--uploaded-prior-to="@.len() as int);
            match registry_instant(value) {
                None => Err(SkipView::Rule(invalid_cutoff_text(value))),
                Some(t) => scan_pip_args(args, i + 1, Some(min_cutoff(cutoff, t.secs as int))),
            }
        } else if changes_source(arg) {
            Err(
                SkipView::Rule(
                    "pipx package uses unsupported package-source argument `"@ + arg + "`"@,
                ),
            )
        } else {
            scan_pip_args(args, i + 1, cutoff)
        }
    }
}

/// Whether planning may update the package, and the upload cutoff (a Unix
/// second) that its pip arguments set. Pinned, lock-file, suffixed and
/// non-registry installs are skipped, in that order of checks.
pub open spec fn pipx_constraint_of(p: PipxInstalledPackage) -> Result<Option<int>, SkipView> {
    if p.pinned {
        Err(SkipView::Pinned)
    } else if p.locked {
        Err(SkipView::Rule("pipx package is controlled by a lock file"@))
    } else if p.suffix@.len() > 0 {
        Err(SkipView::Rule("pipx package uses unsupported suffix `"@ + p.suffix@ + "`"@))
    } else if (match p.package_or_url {
        Some(s) => !is_bare_identity(s@, p.name@),
        None => false,
    }) {
        Err(SkipView::Rule("pipx package was installed from a URL, path, or versioned requirement"@))
    } else {
        scan_pip_args(texts(p.pip_args@), 0, None)
    }
}

fn rule(text: String) -> (r: SkipReason)
    ensures
        r == SkipReason::ManagerRule(text),
{
    SkipReason::ManagerRule(text)
}

fn lower_cutoff(cutoff: Option<i64>, t: Instant) -> (r: Option<i64>)
    ensures
        opt_secs(r) == Some(min_cutoff(opt_secs(cutoff), t.secs as int)),
{
    match cutoff {
        Some(c) => if c <= t.secs {
            Some(c)
        } else {
            Some(t.secs)
        },
        None => Some(t.secs),
    }
}

pub fn pipx_constraint(package: &PipxInstalledPackage) -> (r: Result<Option<i64>, SkipReason>)
    ensures
        match r {
            Ok(c) => pipx_constraint_of(*package) == Ok::<Option<int>, SkipView>(opt_secs(c)),
            Err(reason) => pipx_constraint_of(*package) == Err::<Option<int>, SkipView>(
                skip_view(reason),
            ),
        },
{
    if package.pinned {
        return Err(SkipReason::Pinned);
    }
    if package.locked {
        return Err(rule("pipx package is controlled by a lock file".to_owned()));
    }
    if package.suffix.unicode_len() > 0 {
        return Err(rule(wrap("pipx package uses unsupported suffix `", package.suffix.as_str(), "`")));
    }
    match &package.package_or_url {
        Some(source) => {
            if !is_bare_package_identity(source.as_str(), package.name.as_str()) {
                return Err(
                    rule(
                        "pipx package was installed from a URL, path, or versioned requirement".to_owned(),
                    ),
                );
            }
        },
        None => {},
    }
    let args = &package.pip_args;
    let ghost all = texts(args@);
    let mut cutoff: Option<i64> = None;
    let mut i: usize = 0;
    while i < args.len()
        invariant
            i <= args@.len(),
            all == texts(args@),
            pipx_constraint_of(*package) == scan_pip_args(all, 0, None),
            scan_pip_args(all, 0, None) == scan_pip_args(all, i as int, opt_secs(cutoff)),
        decreases args@.len() - i,
    {
        assert(all[i as int] == args@[i as int]@);
        let arg = args[i].as_str();
        if str_eq(arg, "--uploaded-prior-to") {
            if i + 1 >= args.len() {
                return Err(rule("pipx has an incomplete --uploaded-prior-to constraint".to_owned()));
            }
            let value = args[i + 1].as_str();
            assert(all[i + 1] == args@[i + 1]@);
            match parse_registry_timestamp(value) {
                None => {
                    return Err(rule(wrap("pipx has an invalid --uploaded-prior-to constraint `", value, "`")));
                },
                Some(t) => {
                    cutoff = lower_cutoff(cutoff, t);
                    i = i + 2;
                },
            }
        } else {
            let chars = chars_of(arg);
            match strip_prefix_of(chars.as_slice(), "--uploaded-prior-to=") {
                Some(rest) => {
                    let value = string_of(rest.as_slice());
                    match parse_registry_timestamp(value.as_str()) {
                        None => {
                            return Err(
                                rule(
                                    wrap(
                                        "pipx has an invalid --uploaded-prior-to constraint `",
                                        value.as_str(),
                                        "`",
                                    ),
                                ),
                            );
                        },
                        Some(t) => {
                            cutoff = lower_cutoff(cutoff, t);
                            i = i + 1;
                        },
                    }
                },
                None => {
                    if changes_package_source(arg) {
                        return Err(
                            rule(wrap("pipx package uses unsupported package-source argument `", arg, "`")),
                        );
                    }
                    i = i + 1;
                },
            }
        }
    }
    Ok(cutoff)
}

proof fn lemma_cutoff_option_keeps_source(arg: Seq<char>)
    requires
        arg == "--uploaded-prior-to"@ || has_prefix(arg, "--uploaded-prior-to="@),
    ensures
        !changes_source(arg),
{
    reveal_strlit("--uploaded-prior-to");
    reveal_strlit("--uploaded-prior-to=");
    reveal_strlit("-i");
    reveal_strlit("-f");
    reveal_strlit("--index-url");
    reveal_strlit("--extra-index-url");
    reveal_strlit("--find-links");
    reveal_strlit("--no-index");
    assert(arg.len() >= 3);
    if has_prefix(arg, "--uploaded-prior-to="@) {
        assert(arg[1] == "--uploaded-prior-to="@[1]);
        assert(arg[2] == "--uploaded-prior-to="@[2]);
    }
    assert(arg[1] == '-');
    assert(arg[2] == 'u');
    let opts = seq!["-i"@, "-f"@, "--index-url"@, "--extra-index-url"@, "--find-links"@, "--no-index"@];
    assert forall|j: int| 0 <= j < opts.len() implies !option_given(arg, #[trigger] opts[j]) by {
        let o = opts[j];
        if has_prefix(arg, o.push('=')) {
            if j < 2 {
                assert(arg[1] == o.push('=')[1]);
            } else {
                assert(arg[2] == o.push('=')[2]);
            }
        }
    }
    assert(!option_given(arg, opts[0]));
    assert(!option_given(arg, opts[1]));
    assert(!option_given(arg, opts[2]));
    assert(!option_given(arg, opts[3]));
    assert(!option_given(arg, opts[4]));
    assert(!option_given(arg, opts[5]));
}

proof fn lemma_scan_ok_keeps_source(args: Seq<Seq<char>>, i: int, cutoff: Option<int>)
    requires
        0 <= i,
        scan_pip_args(args, i, cutoff) is Ok,
    ensures
        forall|k: int|
            i <= k < args.len() && changes_source(#[trigger] args[k]) ==> k > i && args[k - 1]
                == "--uploaded-prior-to"@,
    decreases args.len() - i,
{
    if i < args.len() {
        let arg = args[i];
        if arg == "--uploaded-prior-to"@ {
            lemma_cutoff_option_keeps_source(arg);
            if i + 1 < args.len() {
                if let Some(t) = registry_instant(args[i + 1]) {
                    lemma_scan_ok_keeps_source(args, i + 2, Some(min_cutoff(cutoff, t.secs as int)));
                }
            }
        } else if has_prefix(arg, "--uploaded-prior-to="@) {
            lemma_cutoff_option_keeps_source(arg);
            let value = arg.skip("--uploaded-prior-to="@.len() as int);
            if let Some(t) = registry_instant(value) {
                lemma_scan_ok_keeps_source(args, i + 1, Some(min_cutoff(cutoff, t.secs as int)));
            }
        } else if !changes_source(arg) {
            lemma_scan_ok_keeps_source(args, i + 1, cutoff);
        }
    }
}

/// A package that planning may update has no pip argument pointing pip at
/// another package source (other than as the value given to
/// `--uploaded-prior-to`): packages installed with another index or with
/// local links are never planned against PyPI's timeline.
pub proof fn law_planned_package_keeps_its_source(p: PipxInstalledPackage)
    requires
        pipx_constraint_of(p) is Ok,
    ensures
        forall|k: int|
            0 <= k < p.pip_args@.len() && changes_source(#[trigger] p.pip_args@[k]@) ==> k > 0
                && p.pip_args@[k - 1]@ == "--uploaded-prior-to"@,
{
    let args = texts(p.pip_args@);
    lemma_scan_ok_keeps_source(args, 0, None);
    assert forall|k: int|
        0 <= k < p.pip_args@.len() && changes_source(#[trigger] p.pip_args@[k]@) implies k > 0
            && p.pip_args@[k - 1]@ == "--uploaded-prior-to"@ by {
        assert(args[k] == p.pip_args@[k]@);
        assert(args[k - 1] == p.pip_args@[k - 1]@);
    }
}

/// A package otherwise plannable whose first pip argument points pip at
/// another package source is skipped, and the reason names the argument.
pub proof fn law_source_option_skips_package(p: PipxInstalledPackage)
    requires
        !p.pinned,
        !p.locked,
        p.suffix@.len() == 0,
        p.package_or_url is None,
        p.pip_args@.len() > 0,
        changes_source(p.pip_args@[0]@),
    ensures
        pipx_constraint_of(p) == Err::<Option<int>, SkipView>(
            SkipView::Rule("pipx package uses unsupported package-source argument `"@ + p.pip_args@[0]@ + "`"@),
        ),
{
    let args = texts(p.pip_args@);
    assert(args[0] == p.pip_args@[0]@);
    if args[0] == "--uploaded-prior-to"@ || has_prefix(args[0], "--uploaded-prior-to="@) {
        lemma_cutoff_option_keeps_source(args[0]);
    }
}

// ---------------------------------------------------------------------------
// Plan inputs
// ---------------------------------------------------------------------------

/// The entries published no later than the cutoff second, in timeline order.
pub open spec fn published_by(entries: Seq<ReleaseEntry>, cutoff: int) -> Seq<ReleaseEntry>
    decreases entries.len(),
{
    if entries.len() == 0 {
        Seq::empty()
    } else {
        let head = published_by(entries.drop_last(), cutoff);
        if entries.last().published_at.unix_secs <= cutoff {
            head.push(entries.last())
        } else {
            head
        }
    }
}

/// Drops from a known timeline the releases uploaded after the cutoff;
/// anything else passes through.
pub fn apply_upload_cutoff(lookup: ReleaseLookupResult, cutoff: Option<i64>) -> (r: ReleaseLookupResult)
    ensures
        match (lookup, cutoff) {
            (ReleaseLookupResult::Known(t), Some(c)) => r matches ReleaseLookupResult::Known(u)
                && u.versions@ == published_by(t.versions@, c as int),
            _ => r == lookup,
        },
{
    match (lookup, cutoff) {
        (ReleaseLookupResult::Known(timeline), Some(c)) => {
            let vs = &timeline.versions;
            let mut kept: Vec<ReleaseEntry> = Vec::new();
            let mut i: usize = 0;
            while i < vs.len()
                invariant
                    i <= vs@.len(),
                    kept@ == published_by(vs@.take(i as int), c as int),
                decreases vs@.len() - i,
            {
                assert(vs@.take(i + 1).drop_last() =~= vs@.take(i as int));
                assert(vs@.take(i + 1).last() == vs@[i as int]);
                if vs[i].published_at.unix_secs <= c {
                    kept.push(vs[i].clone());
                }
                i = i + 1;
            }
            assert(vs@.take(vs@.len() as int) =~= vs@);
            ReleaseLookupResult::Known(ReleaseTimeline::new(kept))
        },
        (lookup, _) => lookup,
    }
}

/// The tool pipx reports for a package: named after the package, audited
/// as a PyPI package.
pub fn installed_tool(package: &PipxInstalledPackage) -> (r: Result<InstalledTool, PipxError>)
    ensures
        r is Ok,
        r matches Ok(t) ==> {
            &&& is_package_tool(t, "pipx"@, package.name@, package.version)
            &&& t.audit_subject matches Some(s) && s.ecosystem == OsvEcosystem::Pypi
                && s.package_name@ == package.name@
        },
{
    let tool = package_tool(PipxManager::id(), &package.name, package.version.clone());
    Ok(tool.with_audit_subject(package_audit_subject(OsvEcosystem::Pypi, &package.name)))
}

/// The target that planning starts from: the newest PEP 440 release of a
/// known timeline, else the installed version.
pub open spec fn pep440_discovered(tool: InstalledTool, lookup: ReleaseLookupResult) -> VersionText {
    match lookup {
        ReleaseLookupResult::Known(t) => match newest_release(t.versions@, VersionScheme::Pep440) {
            Some(e) => e.version,
            None => tool.installed_version,
        },
        _ => tool.installed_version,
    }
}

/// A planner-selectable PEP 440 seed that pipx updates by exact version.
pub fn update_input(tool: InstalledTool, lookup: ReleaseLookupResult) -> (r: ManagerUpdateInput)
    ensures
        r matches ManagerUpdateInput::Seed(s) && {
            &&& s.installed == tool
            &&& s.version_scheme == VersionScheme::Pep440
            &&& s.execution_support == ExecutionSupport::flags(true, false, false, false)
            &&& s.target_selection == (TargetSelection::PlannerSelectable {
                discovered_target: pep440_discovered(tool, lookup),
                release_lookup: lookup,
            })
            &&& s.execution_target_kind == crate::plan::ExecutionTargetKind::Standard
        },
{
    let discovered = match &lookup {
        ReleaseLookupResult::Known(timeline) => match newest_pep440_version(timeline) {
            Some(v) => v,
            None => tool.installed_version.clone(),
        },
        _ => tool.installed_version.clone(),
    };
    ManagerUpdateInput::Seed(
        UpdateSeed::new(tool, discovered, VersionScheme::Pep440, lookup, ExecutionSupport::exact_only()),
    )
}

/// The plan input of one pipx package: skipped when its installation
/// constraints forbid updates (the lookup is then unused), else a seed over
/// the lookup with releases after the upload cutoff removed.
pub fn package_update_input(package: &PipxInstalledPackage, lookup: ReleaseLookupResult) -> (r:
    Result<ManagerUpdateInput, PipxError>)
    ensures
        r is Ok,
        r matches Ok(input) ==> match pipx_constraint_of(*package) {
            Err(reason) => input matches ManagerUpdateInput::Skipped { installed, reason: why } && {
                &&& is_package_tool(installed, "pipx"@, package.name@, package.version)
                &&& skip_view(why) == reason
            },
            Ok(cutoff) => input matches ManagerUpdateInput::Seed(s) && {
                &&& is_package_tool(s.installed, "pipx"@, package.name@, package.version)
                &&& s.installed.audit_subject matches Some(a) && a.ecosystem == OsvEcosystem::Pypi
                    && a.package_name@ == package.name@
                &&& s.version_scheme == VersionScheme::Pep440
                &&& s.execution_support == ExecutionSupport::flags(true, false, false, false)
                &&& s.target_selection matches TargetSelection::PlannerSelectable {
                    discovered_target: d,
                    release_lookup: l,
                } && d == pep440_discovered(s.installed, l) && match (lookup, cutoff) {
                    (ReleaseLookupResult::Known(t), Some(c)) => l matches ReleaseLookupResult::Known(u)
                        && u.versions@ == published_by(t.versions@, c),
                    _ => l == lookup,
                }
            },
        },
{
    let constraint = pipx_constraint(package);
    let tool = match installed_tool(package) {
        Ok(t) => t,
        Err(e) => return Err(e),
    };
    match constraint {
        Err(reason) => Ok(ManagerUpdateInput::Skipped { installed: tool, reason }),
        Ok(cutoff) => {
            let limited = apply_upload_cutoff(lookup, cutoff);
            Ok(update_input(tool, limited))
        },
    }
}


// ---------------------------------------------------------------------------
// PyPI release metadata
// ---------------------------------------------------------------------------

/// One uploaded file of a PyPI release and the upload times PyPI reports.
#[derive(Debug)]
pub struct PypiReleaseFile {
    pub upload_time_iso_8601: Option<String>,
    pub upload_time: Option<String>,
}

/// The upload time of a file: the ISO 8601 field when present, else the
/// plain one; a blank text counts as none.
pub open spec fn file_time(f: PypiReleaseFile) -> Option<Seq<char>> {
    let t = match f.upload_time_iso_8601 {
        Some(s) => Some(s@),
        None => match f.upload_time {
            Some(s) => Some(s@),
            None => None,
        },
    };
    match t {
        Some(s) => if is_blank(s) {
            None
        } else {
            Some(s)
        },
        None => None,
    }
}

/// The latest upload among the files (the first of equal instants), or the
/// first upload time, in file order, that does not parse.
pub open spec fn newest_upload(files: Seq<PypiReleaseFile>) -> Result<Option<(Instant, Seq<char>)>, Seq<char>>
    decreases files.len(),
{
    if files.len() == 0 {
        Ok(None)
    } else {
        match newest_upload(files.drop_last()) {
            Err(v) => Err(v),
            Ok(cur) => match file_time(files.last()) {
                None => Ok(cur),
                Some(ts) => match registry_instant(ts) {
                    None => Err(ts),
                    Some(t) => match cur {
                        None => Ok(Some((t, ts))),
                        Some((c, _)) => if instant_after(t, c) {
                            Ok(Some((t, ts)))
                        } else {
                            Ok(cur)
                        },
                    },
                },
            },
        }
    }
}

proof fn lemma_newest_upload_stop(files: Seq<PypiReleaseFile>, k: int)
    requires
        0 <= k <= files.len(),
        newest_upload(files.take(k)) is Err,
    ensures
        newest_upload(files) == newest_upload(files.take(k)),
    decreases files.len() - k,
{
    if k < files.len() {
        assert(files.take(k + 1).drop_last() =~= files.take(k));
        lemma_newest_upload_stop(files, k + 1);
    } else {
        assert(files.take(k) =~= files);
    }
}

fn file_time_of(f: &PypiReleaseFile) -> (r: Option<String>)
    ensures
        match file_time(*f) {
            Some(t) => r matches Some(s) && s@ == t,
            None => r is None,
        },
{
    let t = match &f.upload_time_iso_8601 {
        Some(s) => Some(s),
        None => match &f.upload_time {
            Some(s) => Some(s),
            None => None,
        },
    };
    match t {
        Some(s) => if str_is_blank(s.as_str()) {
            None
        } else {
            Some(s.clone())
        },
        None => None,
    }
}

/// The upload time of the newest file of `version`, as PyPI wrote it.
pub fn newest_pypi_upload_timestamp(version: &str, files: &[PypiReleaseFile]) -> (r: Result<
    Option<String>,
    PipxError,
>)
    ensures
        match newest_upload(files@) {
            Err(v) => r matches Err(PipxError::InvalidTimestamp { version: ver, value })
                && ver@ == version@ && value@ == v,
            Ok(None) => r matches Ok(None),
            Ok(Some((_, ts))) => r matches Ok(Some(s)) && s@ == ts,
        },
{
    let mut newest: Option<(Instant, String)> = None;
    let mut i: usize = 0;
    while i < files.len()
        invariant
            i <= files@.len(),
            newest_upload(files@.take(i as int)) matches Ok(cur) && match cur {
                None => newest is None,
                Some((c, ts)) => newest matches Some((n, s)) && n == c && s@ == ts,
            },
        decreases files@.len() - i,
    {
        assert(files@.take(i + 1).drop_last() =~= files@.take(i as int));
        assert(files@.take(i + 1).last() == files@[i as int]);
        match file_time_of(&files[i]) {
            None => {},
            Some(ts) => match parse_registry_timestamp(ts.as_str()) {
                None => {
                    proof {
                        lemma_newest_upload_stop(files@, i + 1);
                    }
                    return Err(PipxError::InvalidTimestamp { version: version.to_owned(), value: ts });
                },
                Some(t) => {
                    let replace = match &newest {
                        None => true,
                        Some((c, _)) => is_after(t, *c),
                    };
                    if replace {
                        newest = Some((t, ts));
                    }
                },
            },
        }
        i = i + 1;
    }
    assert(files@.take(files@.len() as int) =~= files@);
    match newest {
        Some((_, ts)) => Ok(Some(ts)),
        None => Ok(None),
    }
}

pub open spec fn empty_times_text(package: Seq<char>) -> Seq<char> {
    "registry time metadata is empty for "@ + package
}

/// Release entries from (version, upload time) pairs: none is an error,
/// and so is the first pair whose time or version does not read.
pub fn time_map_to_timeline(package: &PackageName, timestamps: Vec<(String, String)>) -> (r: Result<
    ReleaseTimeline,
    PipxError,
>)
    ensures
        timestamps@.len() == 0 ==> (r matches Err(PipxError::MissingReleaseMetadata(m)) && m@
            == empty_times_text(package@)),
        timestamps@.len() > 0 ==> match read_times(TimeFormat::Registry, time_pairs(timestamps@)) {
            TimesView::Entries(es) => r matches Ok(t) && entries_are(t.versions@, es),
            TimesView::BadTime(ver, val) => r matches Err(PipxError::InvalidTimestamp { version, value })
                && version@ == ver && value@ == val,
            TimesView::BlankVersion => r matches Err(PipxError::Domain(d)) && d@ == domain_error_text(
                DomainError::EmptyVersionText,
            ),
        },
{
    if timestamps.len() == 0 {
        return Err(PipxError::MissingReleaseMetadata(concat("registry time metadata is empty for ", package.as_str())));
    }
    match read_release_times(TimeFormat::Registry, &timestamps) {
        Ok(entries) => Ok(ReleaseTimeline::new(entries)),
        Err(TimeReadError::BadTime { version, value }) => Err(PipxError::InvalidTimestamp { version, value }),
        Err(TimeReadError::BlankVersion) => Err(PipxError::from_domain(DomainError::EmptyVersionText)),
    }
}

/// (version, newest upload time) pairs of the PEP 440 releases that have an
/// upload time, in release order; or the first unreadable upload time with
/// its version.
pub open spec fn pypi_times(releases: Seq<(String, Vec<PypiReleaseFile>)>) -> Result<
    Seq<(Seq<char>, Seq<char>)>,
    (Seq<char>, Seq<char>),
>
    decreases releases.len(),
{
    if releases.len() == 0 {
        Ok(Seq::empty())
    } else {
        match pypi_times(releases.drop_last()) {
            Err(e) => Err(e),
            Ok(times) => {
                let (v, files) = releases.last();
                if pep440_facts(v@) is None {
                    Ok(times)
                } else {
                    match newest_upload(files@) {
                        Err(val) => Err((v@, val)),
                        Ok(None) => Ok(times),
                        Ok(Some((_, ts))) => Ok(times.push((v@, ts))),
                    }
                }
            },
        }
    }
}

proof fn lemma_pypi_times_stop(releases: Seq<(String, Vec<PypiReleaseFile>)>, k: int)
    requires
        0 <= k <= releases.len(),
        pypi_times(releases.take(k)) is Err,
    ensures
        pypi_times(releases) == pypi_times(releases.take(k)),
    decreases releases.len() - k,
{
    if k < releases.len() {
        assert(releases.take(k + 1).drop_last() =~= releases.take(k));
        lemma_pypi_times_stop(releases, k + 1);
    } else {
        assert(releases.take(k) =~= releases);
    }
}

/// The release timeline of a package from PyPI's release list (release,
/// files), in list order; releases that are not PEP 440 versions or have no
/// upload time are left out.
pub fn pypi_timeline(package: &PackageName, releases: Vec<(String, Vec<PypiReleaseFile>)>) -> (r: Result<
    ReleaseTimeline,
    PipxError,
>)
    ensures
        match pypi_times(releases@) {
            Err((ver, val)) => r matches Err(PipxError::InvalidTimestamp { version, value })
                && version@ == ver && value@ == val,
            Ok(times) => if times.len() == 0 {
                r matches Err(PipxError::MissingReleaseMetadata(m)) && m@ == empty_times_text(package@)
            } else {
                match read_times(TimeFormat::Registry, times) {
                    TimesView::Entries(es) => r matches Ok(t) && entries_are(t.versions@, es),
                    TimesView::BadTime(ver, val) => r matches Err(
                        PipxError::InvalidTimestamp { version, value },
                    ) && version@ == ver && value@ == val,
                    TimesView::BlankVersion => r matches Err(PipxError::Domain(d)) && d@
                        == domain_error_text(DomainError::EmptyVersionText),
                }
            },
        },
{
    let mut times: Vec<(String, String)> = Vec::new();
    let mut i: usize = 0;
    let ghost all = releases@;
    while i < releases.len()
        invariant
            i <= releases@.len(),
            releases@ == all,
            pypi_times(all.take(i as int)) matches Ok(ts) && time_pairs(times@) == ts,
        decreases releases@.len() - i,
    {
        assert(all.take(i + 1).drop_last() =~= all.take(i as int));
        assert(all.take(i + 1).last() == all[i as int]);
        let version = releases[i].0.clone();
        let ghost ts = time_pairs(times@);
        if crate::versions::pep440_parse(version.as_str()).is_some() {
            match newest_pypi_upload_timestamp(version.as_str(), releases[i].1.as_slice()) {
                Err(e) => {
                    proof {
                        lemma_pypi_times_stop(all, i + 1);
                    }
                    return Err(e);
                },
                Ok(None) => {},
                Ok(Some(t)) => {
                    times.push((version, t));
                    assert(time_pairs(times@) =~= ts.push((releases@[i as int].0@, t@)));
                },
            }
        }
        i = i + 1;
    }
    assert(all.take(all.len() as int) =~= all);
    time_map_to_timeline(package, times)
}

/// The lookup answer for a package from its fetched PyPI release list, or
/// from the failure to fetch or read it: a timeline when entries read, no
/// metadata when none is left, else the failure's text.
pub fn pypi_release_lookup(
    package: &PackageName,
    fetched: Result<Vec<(String, Vec<PypiReleaseFile>)>, String>,
) -> (r: ReleaseLookupResult)
    ensures
        match fetched {
            Err(d) => r matches ReleaseLookupResult::LookupFailed(e) && e.detail@ == d@,
            Ok(releases) => match pypi_times(releases@) {
                Err((ver, val)) => r matches ReleaseLookupResult::LookupFailed(e) && e.detail@
                    == "invalid timestamp `"@ + val + "` for version `"@ + ver + "`"@,
                Ok(times) => if times.len() == 0 {
                    r is MissingMetadata
                } else {
                    match read_times(TimeFormat::Registry, times) {
                        TimesView::Entries(es) => r matches ReleaseLookupResult::Known(t) && entries_are(
                            t.versions@,
                            es,
                        ),
                        TimesView::BadTime(ver, val) => r matches ReleaseLookupResult::LookupFailed(e)
                            && e.detail@ == "invalid timestamp `"@ + val + "` for version `"@ + ver + "`"@,
                        TimesView::BlankVersion => r matches ReleaseLookupResult::LookupFailed(e)
                            && e.detail@ == domain_error_text(DomainError::EmptyVersionText),
                    }
                },
            },
        },
{
    match fetched {
        Err(detail) => ReleaseLookupResult::LookupFailed(ReleaseLookupError::new(detail.as_str())),
        Ok(releases) => match pypi_timeline(package, releases) {
            Ok(timeline) => ReleaseLookupResult::Known(timeline),
            Err(PipxError::MissingReleaseMetadata(_)) => ReleaseLookupResult::MissingMetadata,
            Err(e) => ReleaseLookupResult::LookupFailed(ReleaseLookupError::new(e.message().as_str())),
        },
    }
}

/// The adapter failure for a pipx failure, with its text as detail.
pub fn adapter_error(err: &PipxError) -> (r: ManagerAdapterError)
    ensures
        r matches ManagerAdapterError::Manager { kind, detail } && detail@ == pipx_error_text(*err) && kind == match *err {
            PipxError::Interrupted(_) => ManagerAdapterErrorKind::Interrupted,
            PipxError::UnsupportedCommandIntent(_) => ManagerAdapterErrorKind::CommandConstruction,
            PipxError::Infra(_) => ManagerAdapterErrorKind::Infra,
            _ => ManagerAdapterErrorKind::Parse,
        },
{
    let kind = match err {
        PipxError::Interrupted(_) => ManagerAdapterErrorKind::Interrupted,
        PipxError::Json(_) | PipxError::Domain(_) | PipxError::InvalidTimestamp { .. } | PipxError::MissingReleaseMetadata(_) => ManagerAdapterErrorKind::Parse,
        PipxError::UnsupportedCommandIntent(_) => ManagerAdapterErrorKind::CommandConstruction,
        PipxError::Infra(_) => ManagerAdapterErrorKind::Infra,
    };
    ManagerAdapterError::Manager { kind, detail: err.message() }
}


// ---------------------------------------------------------------------------
// `pipx list --json`
// ---------------------------------------------------------------------------

/// The main package of one pipx environment, as `pipx list --json` lists it;
/// `locked` says whether the environment has a lock file.
#[derive(Debug)]
pub struct PipxMainPackage {
    pub package: String,
    pub package_version: String,
    pub package_or_url: Option<String>,
    pub pip_args: Vec<String>,
    pub pinned: bool,
    pub locked: bool,
    pub suffix: String,
}

/// A main package whose name or version is blank.
pub open spec fn bad_main(m: PipxMainPackage) -> bool {
    is_blank(m.package@) || is_blank(m.package_version@)
}

/// The first environment, in listing order, that does not read.
pub open spec fn first_bad_main(ms: Seq<PipxMainPackage>) -> Option<int>
    decreases ms.len(),
{
    if ms.len() == 0 {
        None
    } else {
        match first_bad_main(ms.drop_last()) {
            Some(i) => Some(i),
            None => if bad_main(ms.last()) {
                Some(ms.len() - 1)
            } else {
                None
            },
        }
    }
}

/// The first environment, in listing order, whose main package is `name`.
pub open spec fn first_named(ms: Seq<PipxMainPackage>, name: Seq<char>) -> Option<int>
    decreases ms.len(),
{
    if ms.len() == 0 {
        None
    } else {
        match first_named(ms.drop_last(), name) {
            Some(i) => Some(i),
            None => if ms.last().package@ == name {
                Some(ms.len() - 1)
            } else {
                None
            },
        }
    }
}

/// `p` is the installed package that environment `m` describes.
pub open spec fn package_of_main(p: PipxInstalledPackage, m: PipxMainPackage) -> bool {
    &&& p.name@ == m.package@
    &&& p.version@ == m.package_version@
    &&& crate::domain::opt_string_view(p.package_or_url) == crate::domain::opt_string_view(m.package_or_url)
    &&& crate::domain::strings_view(p.pip_args@) == crate::domain::strings_view(m.pip_args@)
    &&& p.pinned == m.pinned
    &&& p.locked == m.locked
    &&& p.suffix@ == m.suffix@
}

/// `p` is described by the first environment that holds its name.
pub open spec fn described_by_first(ms: Seq<PipxMainPackage>, p: PipxInstalledPackage) -> bool {
    match first_named(ms, p.name@) {
        Some(k) => 0 <= k < ms.len() && package_of_main(p, ms[k]),
        None => false,
    }
}

proof fn lemma_first_bad_stop(ms: Seq<PipxMainPackage>, k: int)
    requires
        0 <= k <= ms.len(),
        first_bad_main(ms.take(k)) is Some,
    ensures
        first_bad_main(ms) == first_bad_main(ms.take(k)),
    decreases ms.len() - k,
{
    if k < ms.len() {
        assert(ms.take(k + 1).drop_last() =~= ms.take(k));
        lemma_first_bad_stop(ms, k + 1);
    } else {
        assert(ms.take(k) =~= ms);
    }
}

proof fn lemma_first_named_prefix(ms: Seq<PipxMainPackage>, name: Seq<char>, k: int, i: int)
    requires
        0 <= i < k <= ms.len(),
        first_named(ms.take(k), name) == Some(i),
    ensures
        first_named(ms, name) == Some(i),
    decreases ms.len() - k,
{
    if k < ms.len() {
        assert(ms.take(k + 1).drop_last() =~= ms.take(k));
        lemma_first_named_prefix(ms, name, k + 1, i);
    } else {
        assert(ms.take(k) =~= ms);
    }
}

proof fn lemma_first_named_some(ms: Seq<PipxMainPackage>, k: int)
    requires
        0 <= k < ms.len(),
    ensures
        first_named(ms, ms[k].package@) is Some,
    decreases ms.len(),
{
    if k < ms.len() - 1 {
        assert(ms.drop_last()[k] == ms[k]);
        lemma_first_named_some(ms.drop_last(), k);
    }
}

fn copy_main(m: &PipxMainPackage) -> (r: Result<PipxInstalledPackage, PipxError>)
    ensures
        match r {
            Ok(p) => !bad_main(*m) && package_of_main(p, *m),
            Err(e) => bad_main(*m) && (e matches PipxError::Domain(d) && d@ == domain_error_text(
                if is_blank(m.package@) {
                    DomainError::EmptyPackageName
                } else {
                    DomainError::EmptyVersionText
                },
            )),
        },
{
    let name = match PackageName::new(m.package.as_str()) {
        Ok(n) => n,
        Err(e) => return Err(PipxError::from_domain(e)),
    };
    let version = match VersionText::new(m.package_version.as_str()) {
        Ok(v) => v,
        Err(e) => return Err(PipxError::from_domain(e)),
    };
    Ok(PipxInstalledPackage {
        name,
        version,
        package_or_url: match &m.package_or_url {
            Some(u) => Some(u.clone()),
            None => None,
        },
        pip_args: crate::domain::clone_strings(&m.pip_args),
        pinned: m.pinned,
        locked: m.locked,
        suffix: m.suffix.clone(),
    })
}

/// The installed main packages of `pipx list --json`, from its environments
/// in listing order: an environment whose name or version is blank fails
/// the reading; otherwise each package once, as the first environment that
/// holds it describes it, in ascending name order.
pub fn packages_from_venvs(venvs: Vec<PipxMainPackage>) -> (r: Result<Vec<PipxInstalledPackage>, PipxError>)
    ensures
        match first_bad_main(venvs@) {
            Some(j) => r matches Err(PipxError::Domain(d)) && d@ == domain_error_text(
                if is_blank(venvs@[j].package@) {
                    DomainError::EmptyPackageName
                } else {
                    DomainError::EmptyVersionText
                },
            ),
            None => {
                &&& r matches Ok(ps)
                &&& forall|a: int, b: int|
                    0 <= a < b < ps@.len() ==> seq_less(#[trigger] ps@[a].name@, #[trigger] ps@[b].name@)
                &&& forall|a: int| 0 <= a < ps@.len() ==> described_by_first(venvs@, #[trigger] ps@[a])
                &&& forall|k: int|
                    0 <= k < venvs@.len() ==> exists|a: int|
                        0 <= a < ps@.len() && #[trigger] ps@[a].name@ == (#[trigger] venvs@[k]).package@
            },
        },
{
    let ghost ms = venvs@;
    // (name, index of the first environment holding it), ascending by name.
    let mut order: Vec<(String, usize)> = Vec::new();
    let mut i: usize = 0;
    while i < venvs.len()
        invariant
            i <= venvs@.len(),
            ms == venvs@,
            first_bad_main(ms.take(i as int)) is None,
            keys_ascending(order@),
            forall|a: int|
                0 <= a < order@.len() ==> (#[trigger] order@[a]).1 < i && ms[order@[a].1 as int].package@
                    == order@[a].0@ && first_named(ms.take(i as int), order@[a].0@) == Some(order@[a].1 as int),
            forall|k: int|
                0 <= k < i ==> exists|a: int|
                    0 <= a < order@.len() && #[trigger] order@[a].0@ == (#[trigger] ms[k]).package@,
        decreases venvs@.len() - i,
    {
        assert(ms.take(i + 1).drop_last() =~= ms.take(i as int));
        assert(ms.take(i + 1).last() == ms[i as int]);
        if str_is_blank(venvs[i].package.as_str()) || str_is_blank(venvs[i].package_version.as_str()) {
            assert(first_bad_main(ms.take(i + 1)) == Some(i as int));
            proof {
                lemma_first_bad_stop(ms, i + 1);
            }
            return match copy_main(&venvs[i]) {
                Ok(_) => {
                    assert(false);
                    Err(PipxError::Json(String::new()))
                },
                Err(e) => Err(e),
            };
        }
        let ghost before = order@;
        match find_text_key(&order, venvs[i].package.as_str()) {
            Ok(_) => {
                proof {
                    assert forall|a: int| 0 <= a < order@.len() implies first_named(ms.take(i + 1), (#[trigger] order@[a]).0@)
                        == Some(order@[a].1 as int) by {
                        assert(first_named(ms.take(i + 1).drop_last(), order@[a].0@) == Some(order@[a].1 as int));
                    }
                }
            },
            Err(pos) => {
                let name = venvs[i].package.clone();
                order.insert(pos, (name, i));
                proof {
                    let nm = ms[i as int].package@;
                    assert forall|a: int| 0 <= a < before.len() implies (#[trigger] before[a]).0@ != nm by {
                        if a < pos {
                            crate::text::lemma_seq_less_irreflexive(nm);
                        } else {
                            crate::text::lemma_seq_less_irreflexive(nm);
                        }
                    }
                    assert forall|k: int| 0 <= k < i implies ms[k].package@ != nm by {
                        let a = choose|a: int| 0 <= a < before.len() && #[trigger] before[a].0@ == (#[trigger] ms[k]).package@;
                        assert(before[a].0@ == ms[k].package@);
                    }
                    assert(first_named(ms.take(i as int), nm) is None) by {
                        lemma_first_named_none(ms.take(i as int), nm);
                    }
                    assert forall|a: int| 0 <= a < order@.len() implies #[trigger] order@[a] == (if a < pos {
                        before[a]
                    } else if a == pos {
                        (venvs@[i as int].package, i)
                    } else {
                        before[a - 1]
                    }) by {}
                    assert forall|a: int, b: int| 0 <= a < b < order@.len() implies seq_less(#[trigger] order@[a].0@, #[trigger] order@[b].0@) by {
                        if a < pos && b < pos {
                        } else if a < pos && b == pos {
                        } else if a < pos {
                            assert(seq_less(before[a].0@, before[b - 1].0@));
                        } else if a == pos {
                        } else {
                            assert(seq_less(before[a - 1].0@, before[b - 1].0@));
                        }
                    }
                    assert forall|a: int| 0 <= a < order@.len() implies first_named(ms.take(i + 1), (#[trigger] order@[a]).0@)
                        == Some(order@[a].1 as int) by {
                        if a != pos {
                            let e = order@[a];
                            assert(first_named(ms.take(i + 1).drop_last(), e.0@) == Some(e.1 as int));
                        }
                    }
                    assert forall|k: int| 0 <= k < i + 1 implies exists|a: int|
                        0 <= a < order@.len() && #[trigger] order@[a].0@ == (#[trigger] ms[k]).package@ by {
                        if k == i {
                            assert(order@[pos as int].0@ == ms[k].package@);
                        } else {
                            let a = choose|a: int| 0 <= a < before.len() && #[trigger] before[a].0@ == (#[trigger] ms[k]).package@;
                            if a < pos {
                                assert(order@[a].0@ == ms[k].package@);
                            } else {
                                assert(order@[a + 1].0@ == ms[k].package@);
                            }
                        }
                    }
                }
            },
        }
        i = i + 1;
    }
    assert(ms.take(ms.len() as int) =~= ms);
    let mut out: Vec<PipxInstalledPackage> = Vec::new();
    let mut j: usize = 0;
    while j < order.len()
        invariant
            j <= order@.len(),
            ms == venvs@,
            first_bad_main(ms) is None,
            keys_ascending(order@),
            forall|a: int|
                0 <= a < order@.len() ==> (#[trigger] order@[a]).1 < ms.len() && ms[order@[a].1 as int].package@
                    == order@[a].0@ && first_named(ms, order@[a].0@) == Some(order@[a].1 as int),
            out@.len() == j,
            forall|a: int| 0 <= a < j ==> (#[trigger] out@[a]).name@ == order@[a].0@ && package_of_main(out@[a], ms[order@[a].1 as int]),
        decreases order@.len() - j,
    {
        let k = order[j].1;
        proof {
            lemma_first_bad_none(ms, k as int);
        }
        match copy_main(&venvs[k]) {
            Ok(p) => out.push(p),
            Err(e) => {
                assert(false);
                return Err(e);
            },
        }
        j = j + 1;
    }
    proof {
        assert forall|k: int| 0 <= k < ms.len() implies exists|a: int|
            0 <= a < out@.len() && #[trigger] out@[a].name@ == (#[trigger] ms[k]).package@ by {
            let a = choose|a: int| 0 <= a < order@.len() && #[trigger] order@[a].0@ == (#[trigger] ms[k]).package@;
            assert(out@[a].name@ == ms[k].package@);
        }
        assert forall|a: int, b: int| 0 <= a < b < out@.len() implies seq_less(#[trigger] out@[a].name@, #[trigger] out@[b].name@) by {
            assert(seq_less(order@[a].0@, order@[b].0@));
        }
        assert forall|a: int| 0 <= a < out@.len() implies described_by_first(ms, #[trigger] out@[a]) by {
            assert(out@[a].name@ == order@[a].0@);
        }
    }
    Ok(out)
}

proof fn lemma_first_named_none(ms: Seq<PipxMainPackage>, name: Seq<char>)
    requires
        forall|k: int| 0 <= k < ms.len() ==> (#[trigger] ms[k]).package@ != name,
    ensures
        first_named(ms, name) is None,
    decreases ms.len(),
{
    if ms.len() > 0 {
        assert forall|k: int| 0 <= k < ms.drop_last().len() implies (#[trigger] ms.drop_last()[k]).package@ != name by {
            assert(ms.drop_last()[k] == ms[k]);
        }
        lemma_first_named_none(ms.drop_last(), name);
    }
}

proof fn lemma_first_bad_none(ms: Seq<PipxMainPackage>, k: int)
    requires
        first_bad_main(ms) is None,
        0 <= k < ms.len(),
    ensures
        !bad_main(ms[k]),
    decreases ms.len(),
{
    if k < ms.len() - 1 {
        assert(ms.drop_last()[k] == ms[k]);
        lemma_first_bad_none(ms.drop_last(), k);
    }
}

} // verus!
