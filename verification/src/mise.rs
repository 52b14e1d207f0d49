//! The mise manager's update preview: `mise upgrade --dry-run` output read
//! into (tool, installed version, target version) triples.
use vstd::prelude::*;

use crate::adapter::{ManagerAdapterError, ManagerAdapterErrorKind};
use crate::domain::{domain_error_text, DomainError, ManagerId, PackageName, VersionText};
use crate::text::{
    chars_of, has_prefix, strip_prefix_of, concat, in_set, is_blank, last_index_char, last_index_of, lemma_seq_less_irreflexive,
    lemma_seq_less_total, lemma_seq_less_transitive, seq_less, slice_chars, split_by, split_chars,
    str_eq, string_of, text_less, trim, trim_bounds,
};

verus! {

/// Failures of the mise adapter.
#[derive(Debug)]
pub enum MiseError {
    Infra(String),
    Interrupted(String),
    Json(String),
    Toml(String),
    Domain(String),
    InvalidTimestamp { version: String, value: String },
    InvalidDryRun(String),
    MissingReleaseMetadata(String),
    UnsupportedCommandIntent(String),
}

/// A mise error with its texts read as character sequences.
pub enum MiseErrorView {
    Infra(Seq<char>),
    Interrupted(Seq<char>),
    Json(Seq<char>),
    Toml(Seq<char>),
    Domain(Seq<char>),
    InvalidTimestamp { version: Seq<char>, value: Seq<char> },
    InvalidDryRun(Seq<char>),
    MissingReleaseMetadata(Seq<char>),
    UnsupportedCommandIntent(Seq<char>),
}

impl View for MiseError {
    type V = MiseErrorView;

    open spec fn view(&self) -> MiseErrorView {
        match self {
            MiseError::Infra(d) => MiseErrorView::Infra(d@),
            MiseError::Interrupted(d) => MiseErrorView::Interrupted(d@),
            MiseError::Json(d) => MiseErrorView::Json(d@),
            MiseError::Toml(d) => MiseErrorView::Toml(d@),
            MiseError::Domain(d) => MiseErrorView::Domain(d@),
            MiseError::InvalidTimestamp { version, value } => MiseErrorView::InvalidTimestamp {
                version: version@,
                value: value@,
            },
            MiseError::InvalidDryRun(d) => MiseErrorView::InvalidDryRun(d@),
            MiseError::MissingReleaseMetadata(d) => MiseErrorView::MissingReleaseMetadata(d@),
            MiseError::UnsupportedCommandIntent(d) => MiseErrorView::UnsupportedCommandIntent(d@),
        }
    }
}

/// The text of a mise error.
pub open spec fn mise_error_text(e: MiseErrorView) -> Seq<char> {
    match e {
        MiseErrorView::Infra(d) => d,
        MiseErrorView::Interrupted(d) => d,
        MiseErrorView::Json(d) => d,
        MiseErrorView::Toml(d) => d,
        MiseErrorView::Domain(d) => d,
        MiseErrorView::InvalidDryRun(d) => d,
        MiseErrorView::MissingReleaseMetadata(d) => d,
        MiseErrorView::InvalidTimestamp { version, value } => "invalid mise release timestamp `"@
            + value + "` for version `"@ + version + "`"@,
        MiseErrorView::UnsupportedCommandIntent(kind) => "unsupported mise execution command intent `"@
            + kind + "`"@,
    }
}

impl MiseError {
    /// Whether the failure is a user interruption rather than a fault.
    pub fn is_interruption(&self) -> (r: bool)
        ensures
            r == (self is Interrupted),
    {
        match self {
            MiseError::Interrupted(_) => true,
            _ => false,
        }
    }

    /// What went wrong, in words.
    pub fn message(&self) -> (r: String)
        ensures
            r@ == mise_error_text(self@),
    {
        match self {
            MiseError::Infra(d) => d.clone(),
            MiseError::Interrupted(d) => d.clone(),
            MiseError::Json(d) => d.clone(),
            MiseError::Toml(d) => d.clone(),
            MiseError::Domain(d) => d.clone(),
            MiseError::InvalidDryRun(d) => d.clone(),
            MiseError::MissingReleaseMetadata(d) => d.clone(),
            MiseError::InvalidTimestamp { version, value } => {
                let a = concat("invalid mise release timestamp `", value.as_str());
                let b = concat(a.as_str(), "` for version `");
                let c = concat(b.as_str(), version.as_str());
                concat(c.as_str(), "`")
            },
            MiseError::UnsupportedCommandIntent(kind) => {
                let a = concat("unsupported mise execution command intent `", kind.as_str());
                concat(a.as_str(), "`")
            },
        }
    }
}

/// The version of a tool that mise reports as installed.
#[derive(Debug)]
pub struct MiseInstalledTool {
    pub tool: PackageName,
    pub version: VersionText,
}

/// One upgrade that mise would make.
#[derive(Debug)]
pub struct MisePlanItem {
    pub tool: PackageName,
    pub from_version: VersionText,
    pub to_version: VersionText,
}

/// One install line of a dry run, with the version it replaces when the run
/// named it.
#[derive(Debug)]
pub struct MiseDryRunItem {
    pub tool: PackageName,
    pub from_version: Option<VersionText>,
    pub to_version: VersionText,
}

/// A dry-run item with its texts read as character sequences.
pub struct DryRunView {
    pub tool: Seq<char>,
    pub from: Option<Seq<char>>,
    pub to: Seq<char>,
}

impl View for MiseDryRunItem {
    type V = DryRunView;

    open spec fn view(&self) -> DryRunView {
        DryRunView {
            tool: self.tool@,
            from: match self.from_version {
                Some(v) => Some(v@),
                None => None,
            },
            to: self.to_version@,
        }
    }
}

/// The mise manager; its id is `mise`.
#[derive(Debug)]
pub struct MiseManager {}

impl MiseManager {
    pub fn id() -> (r: ManagerId)
        ensures
            r@ == "mise"@,
    {
        proof {
            reveal_strlit("mise");
            assert(!crate::text::is_ws("mise"@[0]));
        }
        ManagerId::from_static("mise")
    }
}

// ---------------------------------------------------------------------------
// Reading the dry run
// ---------------------------------------------------------------------------

/// `tool@version`, split at the last `@` (a tool name may hold `@` itself).
pub open spec fn split_tool_version(s: Seq<char>) -> Option<(Seq<char>, Seq<char>)> {
    match last_index_of(s, '@') {
        Some(i) => Some((s.take(i), s.skip(i + 1))),
        None => None,
    }
}

/// The dry run read so far: versions named by uninstall lines and not yet
/// claimed by an install line, and the install lines.
pub struct DryRunState {
    pub pending: Map<Seq<char>, Seq<char>>,
    pub items: Seq<DryRunView>,
}

pub open spec fn uninstall_prefix() -> Seq<char> {
    "Would uninstall "@
}

pub open spec fn install_prefix() -> Seq<char> {
    "Would install "@
}

/// Reads one line. Blank and unrecognised lines change nothing; an
/// uninstall line records the version being replaced; an install line
/// claims it.
pub open spec fn dry_run_step(st: DryRunState, line: Seq<char>) -> Result<DryRunState, MiseErrorView> {
    let t = trim(line);
    if t.len() == 0 {
        Ok(st)
    } else if has_prefix(t, uninstall_prefix()) {
        match split_tool_version(t.skip(uninstall_prefix().len() as int)) {
            None => Err(MiseErrorView::InvalidDryRun("invalid mise dry-run uninstall line: "@ + t)),
            Some((tool, version)) => Ok(DryRunState { pending: st.pending.insert(tool, version), ..st }),
        }
    } else if has_prefix(t, install_prefix()) {
        match split_tool_version(t.skip(install_prefix().len() as int)) {
            None => Err(MiseErrorView::InvalidDryRun("invalid mise dry-run install line: "@ + t)),
            Some((tool, version)) => {
                let from = if st.pending.dom().contains(tool) {
                    Some(st.pending[tool])
                } else {
                    None
                };
                if from matches Some(f) && is_blank(f) {
                    Err(MiseErrorView::Domain(domain_error_text(DomainError::EmptyVersionText)))
                } else if is_blank(tool) {
                    Err(MiseErrorView::Domain(domain_error_text(DomainError::EmptyPackageName)))
                } else if is_blank(version) {
                    Err(MiseErrorView::Domain(domain_error_text(DomainError::EmptyVersionText)))
                } else {
                    Ok(
                        DryRunState {
                            pending: st.pending.remove(tool),
                            items: st.items.push(DryRunView { tool, from, to: version }),
                        },
                    )
                }
            },
        }
    } else {
        Ok(st)
    }
}

/// Reads the lines in order, stopping at the first error.
pub open spec fn dry_run_lines(lines: Seq<Seq<char>>) -> Result<DryRunState, MiseErrorView>
    decreases lines.len(),
{
    if lines.len() == 0 {
        Ok(DryRunState { pending: Map::empty(), items: Seq::empty() })
    } else {
        match dry_run_lines(lines.drop_last()) {
            Err(e) => Err(e),
            Ok(st) => dry_run_step(st, lines.last()),
        }
    }
}

pub open spec fn newline() -> spec_fn(char) -> bool {
    in_set(seq!['\n'])
}

pub open spec fn unmatched_uninstall_text(tool: Seq<char>) -> Seq<char> {
    "mise dry-run uninstall for "@ + tool + " was not followed by matching install"@
}

/// `k` is the first key of `m` in text order.
pub open spec fn least_key(m: Map<Seq<char>, Seq<char>>, k: Seq<char>) -> bool {
    m.dom().contains(k) && forall|k2: Seq<char>| #[trigger] m.dom().contains(k2) ==> k2 == k || seq_less(k, k2)
}

// The uninstall versions not yet claimed, kept as a list with distinct keys.

pub open spec fn keys_unique(v: Seq<(String, String)>) -> bool {
    forall|i: int, j: int| 0 <= i < j < v.len() ==> #[trigger] v[i].0@ != #[trigger] v[j].0@
}

pub open spec fn has_key(v: Seq<(String, String)>, k: Seq<char>) -> bool {
    exists|i: int| 0 <= i < v.len() && #[trigger] v[i].0@ == k
}

pub open spec fn assoc(v: Seq<(String, String)>) -> Map<Seq<char>, Seq<char>> {
    Map::new(
        |k: Seq<char>| has_key(v, k),
        |k: Seq<char>| v[choose|i: int| 0 <= i < v.len() && #[trigger] v[i].0@ == k].1@,
    )
}

proof fn lemma_assoc_at(v: Seq<(String, String)>, i: int)
    requires
        keys_unique(v),
        0 <= i < v.len(),
    ensures
        assoc(v).dom().contains(v[i].0@),
        assoc(v)[v[i].0@] == v[i].1@,
{
    let k = v[i].0@;
    assert(has_key(v, k));
    let j = choose|j: int| 0 <= j < v.len() && #[trigger] v[j].0@ == k;
    if j != i {
        if j < i {
            assert(v[j].0@ != v[i].0@);
        } else {
            assert(v[i].0@ != v[j].0@);
        }
    }
}

proof fn lemma_assoc_push(v: Seq<(String, String)>, p: (String, String))
    requires
        keys_unique(v),
        !has_key(v, p.0@),
    ensures
        keys_unique(v.push(p)),
        assoc(v.push(p)) =~= assoc(v).insert(p.0@, p.1@),
{
    let w = v.push(p);
    assert forall|i: int, j: int| 0 <= i < j < w.len() implies #[trigger] w[i].0@ != #[trigger] w[j].0@ by {
        if j == v.len() {
            assert(w[i] == v[i]);
        } else {
            assert(w[i] == v[i] && w[j] == v[j]);
        }
    }
    assert forall|k: Seq<char>| #[trigger] assoc(w).dom().contains(k) == assoc(v).insert(p.0@, p.1@).dom().contains(k) by {
        if has_key(w, k) {
            let i = choose|i: int| 0 <= i < w.len() && #[trigger] w[i].0@ == k;
            if i < v.len() {
                assert(v[i].0@ == k);
            }
        }
        if has_key(v, k) {
            let i = choose|i: int| 0 <= i < v.len() && #[trigger] v[i].0@ == k;
            assert(w[i].0@ == k);
        }
        if k == p.0@ {
            assert(w[v.len() as int].0@ == k);
        }
    }
    assert forall|k: Seq<char>| #[trigger] assoc(w).dom().contains(k) implies assoc(w)[k] == assoc(v).insert(p.0@, p.1@)[k] by {
        let i = choose|i: int| 0 <= i < w.len() && #[trigger] w[i].0@ == k;
        lemma_assoc_at(w, i);
        if i < v.len() {
            assert(w[i] == v[i]);
            lemma_assoc_at(v, i);
        }
    }
}

proof fn lemma_assoc_update(v: Seq<(String, String)>, i: int, p: (String, String))
    requires
        keys_unique(v),
        0 <= i < v.len(),
        p.0@ == v[i].0@,
    ensures
        keys_unique(v.update(i, p)),
        assoc(v.update(i, p)) =~= assoc(v).insert(p.0@, p.1@),
{
    let w = v.update(i, p);
    assert forall|a: int, b: int| 0 <= a < b < w.len() implies #[trigger] w[a].0@ != #[trigger] w[b].0@ by {
        assert(w[a].0@ == v[a].0@ && w[b].0@ == v[b].0@);
    }
    assert forall|k: Seq<char>| #[trigger] assoc(w).dom().contains(k) == assoc(v).insert(p.0@, p.1@).dom().contains(k) by {
        if has_key(w, k) {
            let j = choose|j: int| 0 <= j < w.len() && #[trigger] w[j].0@ == k;
            assert(v[j].0@ == k);
        }
        if has_key(v, k) {
            let j = choose|j: int| 0 <= j < v.len() && #[trigger] v[j].0@ == k;
            assert(w[j].0@ == k);
        }
        if k == p.0@ {
            assert(w[i].0@ == k);
        }
    }
    assert forall|k: Seq<char>| #[trigger] assoc(w).dom().contains(k) implies assoc(w)[k] == assoc(v).insert(p.0@, p.1@)[k] by {
        let j = choose|j: int| 0 <= j < w.len() && #[trigger] w[j].0@ == k;
        lemma_assoc_at(w, j);
        if j != i {
            lemma_assoc_at(v, j);
        }
    }
}

proof fn lemma_assoc_remove(v: Seq<(String, String)>, i: int)
    requires
        keys_unique(v),
        0 <= i < v.len(),
    ensures
        keys_unique(v.remove(i)),
        assoc(v.remove(i)) =~= assoc(v).remove(v[i].0@),
{
    let w = v.remove(i);
    let gone = v[i].0@;
    assert forall|a: int| 0 <= a < w.len() implies #[trigger] w[a] == (if a < i { v[a] } else { v[a + 1] }) by {}
    assert forall|a: int, b: int| 0 <= a < b < w.len() implies #[trigger] w[a].0@ != #[trigger] w[b].0@ by {
        let a2 = if a < i { a } else { a + 1 };
        let b2 = if b < i { b } else { b + 1 };
        assert(w[a] == v[a2] && w[b] == v[b2]);
        assert(v[a2].0@ != v[b2].0@);
    }
    assert forall|k: Seq<char>| #[trigger] assoc(w).dom().contains(k) == assoc(v).remove(gone).dom().contains(k) by {
        if has_key(w, k) {
            let j = choose|j: int| 0 <= j < w.len() && #[trigger] w[j].0@ == k;
            let j2 = if j < i { j } else { j + 1 };
            assert(v[j2].0@ == k);
            assert(v[j2].0@ != v[i].0@);
        }
        if has_key(v, k) && k != gone {
            let j = choose|j: int| 0 <= j < v.len() && #[trigger] v[j].0@ == k;
            if j < i {
                assert(w[j].0@ == k);
            } else {
                assert(w[j - 1].0@ == k);
            }
        }
    }
    assert forall|k: Seq<char>| #[trigger] assoc(w).dom().contains(k) implies assoc(w)[k] == assoc(v).remove(gone)[k] by {
        let j = choose|j: int| 0 <= j < w.len() && #[trigger] w[j].0@ == k;
        let j2 = if j < i { j } else { j + 1 };
        lemma_assoc_at(w, j);
        lemma_assoc_at(v, j2);
    }
}

/// Position of the entry for `key`, if any.
fn find_key(pending: &Vec<(String, String)>, key: &str) -> (r: Option<usize>)
    ensures
        match r {
            Some(i) => i < pending@.len() && pending@[i as int].0@ == key@,
            None => !has_key(pending@, key@),
        },
{
    let mut i: usize = 0;
    while i < pending.len()
        invariant
            i <= pending@.len(),
            forall|j: int| 0 <= j < i ==> #[trigger] pending@[j].0@ != key@,
        decreases pending@.len() - i,
    {
        if str_eq(pending[i].0.as_str(), key) {
            return Some(i);
        }
        i = i + 1;
    }
    None
}

/// Records `version` for `tool`, replacing an earlier one.
fn put_pending(pending: &mut Vec<(String, String)>, tool: String, version: String)
    requires
        keys_unique(old(pending)@),
    ensures
        keys_unique(final(pending)@),
        assoc(final(pending)@) == assoc(old(pending)@).insert(tool@, version@),
{
    let ghost before = pending@;
    match find_key(pending, tool.as_str()) {
        Some(i) => {
            let ghost p = (tool, version);
            proof {
                lemma_assoc_update(before, i as int, p);
            }
            pending.set(i, (tool, version));
        },
        None => {
            let ghost p = (tool, version);
            proof {
                lemma_assoc_push(before, p);
            }
            pending.push((tool, version));
        },
    }
}

/// Takes the version recorded for `tool`, if any.
fn take_pending(pending: &mut Vec<(String, String)>, tool: &str) -> (r: Option<String>)
    requires
        keys_unique(old(pending)@),
    ensures
        keys_unique(final(pending)@),
        assoc(final(pending)@) == assoc(old(pending)@).remove(tool@),
        match r {
            Some(v) => assoc(old(pending)@).dom().contains(tool@) && v@ == assoc(old(pending)@)[tool@],
            None => !assoc(old(pending)@).dom().contains(tool@),
        },
{
    let ghost before = pending@;
    match find_key(pending, tool) {
        Some(i) => {
            proof {
                lemma_assoc_at(before, i as int);
                lemma_assoc_remove(before, i as int);
            }
            let (_, v) = pending.remove(i);
            Some(v)
        },
        None => {
            assert(assoc(before).remove(tool@) =~= assoc(before));
            None
        },
    }
}

/// The entry whose key comes first in text order.
fn least_pending(pending: &Vec<(String, String)>) -> (r: usize)
    requires
        keys_unique(pending@),
        pending@.len() > 0,
    ensures
        r < pending@.len(),
        least_key(assoc(pending@), pending@[r as int].0@),
{
    let mut m: usize = 0;
    let mut i: usize = 1;
    proof {
        lemma_seq_less_irreflexive(pending@[0].0@);
    }
    while i < pending.len()
        invariant
            0 <= m < i <= pending@.len(),
            keys_unique(pending@),
            forall|j: int| 0 <= j < i ==> j == m || seq_less(pending@[m as int].0@, #[trigger] pending@[j].0@),
        decreases pending@.len() - i,
    {
        if text_less(pending[i].0.as_str(), pending[m].0.as_str()) {
            proof {
                assert forall|j: int| 0 <= j < i + 1 implies j == i || seq_less(
                    pending@[i as int].0@,
                    #[trigger] pending@[j].0@,
                ) by {
                    if j != i && j != m {
                        lemma_seq_less_transitive(pending@[i as int].0@, pending@[m as int].0@, pending@[j].0@);
                    }
                }
            }
            m = i;
        } else {
            proof {
                lemma_seq_less_total(pending@[i as int].0@, pending@[m as int].0@);
                assert(pending@[i as int].0@ != pending@[m as int].0@);
            }
        }
        i = i + 1;
    }
    proof {
        let p = pending@;
        lemma_assoc_at(p, m as int);
        assert forall|k2: Seq<char>| #[trigger] assoc(p).dom().contains(k2) implies k2 == p[m as int].0@
            || seq_less(p[m as int].0@, k2) by {
            let j = choose|j: int| 0 <= j < p.len() && #[trigger] p[j].0@ == k2;
            assert(j == m || seq_less(p[m as int].0@, p[j].0@));
        }
    }
    m
}

/// Splits `tool@version` at its last `@`.
pub fn split_tool_and_version(input: &[char]) -> (r: Option<(Vec<char>, Vec<char>)>)
    ensures
        match r {
            Some((tool, version)) => split_tool_version(input@) == Some((tool@, version@)),
            None => split_tool_version(input@) is None,
        },
{
    match last_index_char(input, '@') {
        Some(i) => {
            let tool = slice_chars(input, 0, i);
            let version = slice_chars(input, i + 1, input.len());
            assert(tool@ =~= input@.take(i as int));
            assert(version@ =~= input@.skip(i + 1));
            Some((tool, version))
        },
        None => None,
    }
}

/// Once reading fails, later lines keep the first error.
proof fn lemma_dry_run_error_sticks(lines: Seq<Seq<char>>, k: int)
    requires
        0 <= k <= lines.len(),
        dry_run_lines(lines.take(k)) is Err,
    ensures
        dry_run_lines(lines) == dry_run_lines(lines.take(k)),
    decreases lines.len() - k,
{
    if k < lines.len() {
        assert(lines.take(k + 1).drop_last() =~= lines.take(k));
        lemma_dry_run_error_sticks(lines, k + 1);
    } else {
        assert(lines.take(k) =~= lines);
    }
}

fn invalid_line(prefix: &str, line: &Vec<char>) -> (r: MiseError)
    ensures
        r@ == MiseErrorView::InvalidDryRun(prefix@ + line@),
{
    let text = string_of(line.as_slice());
    MiseError::InvalidDryRun(concat(prefix, text.as_str()))
}

/// Reads `mise upgrade --dry-run` output. Each `Would install tool@version`
/// line becomes an item; a preceding `Would uninstall tool@version` line
/// gives its installed version. Malformed recognised lines, blank names or
/// versions, and an uninstall that no install follows are refused; the last
/// names the first such tool in text order.
pub fn parse_upgrade_dry_run_targets(raw: &str) -> (r: Result<Vec<MiseDryRunItem>, MiseError>)
    ensures
        match dry_run_lines(split_by(raw@, newline())) {
            Err(e) => r matches Err(x) && x@ == e,
            Ok(st) => if st.pending.dom().is_empty() {
                r matches Ok(items) && items@.len() == st.items.len() && forall|i: int|
                    0 <= i < st.items.len() ==> #[trigger] items@[i]@ == st.items[i]
            } else {
                r matches Err(x) && exists|k: Seq<char>|
                    least_key(st.pending, k) && #[trigger] x@ == MiseErrorView::InvalidDryRun(
                        unmatched_uninstall_text(k),
                    )
            },
        },
{
    let chars = chars_of(raw);
    let mut seps: Vec<char> = Vec::new();
    seps.push('\n');
    assert(seps@ =~= seq!['\n']);
    let lines = split_chars(chars.as_slice(), seps.as_slice());
    let ghost all = split_by(raw@, newline());
    assert(lines@.len() == all.len());
    let mut pending: Vec<(String, String)> = Vec::new();
    let mut items: Vec<MiseDryRunItem> = Vec::new();
    proof {
        reveal_strlit("Would uninstall ");
        reveal_strlit("Would install ");
    }
    let mut n: usize = 0;
    assert(all.take(0) =~= Seq::<Seq<char>>::empty());
    assert(assoc(pending@) =~= Map::<Seq<char>, Seq<char>>::empty());
    while n < lines.len()
        invariant
            n <= lines@.len(),
            lines@.len() == all.len(),
            all == split_by(raw@, newline()),
            forall|i: int| 0 <= i < lines@.len() ==> #[trigger] lines@[i]@ == all[i],
            keys_unique(pending@),
            dry_run_lines(all.take(n as int)) matches Ok(st) && st.pending == assoc(pending@)
                && items@.len() == st.items.len() && forall|i: int|
                0 <= i < st.items.len() ==> #[trigger] items@[i]@ == st.items[i],
        decreases lines@.len() - n,
    {
        let ghost st = dry_run_lines(all.take(n as int))->Ok_0;
        assert(all.take(n + 1).drop_last() =~= all.take(n as int));
        assert(all.take(n + 1).last() == all[n as int]);
        let line = &lines[n];
        let (a, b) = trim_bounds(line.as_slice());
        let t = slice_chars(line.as_slice(), a, b);
        assert(t@ == trim(all[n as int]));
        if t.len() == 0 {
            n = n + 1;
            continue;
        }
        if let Some(rest) = strip_prefix_of(t.as_slice(), "Would uninstall ") {
            match split_tool_and_version(rest.as_slice()) {
                None => {
                    proof {
                        lemma_dry_run_error_sticks(all, n + 1);
                    }
                    return Err(invalid_line("invalid mise dry-run uninstall line: ", &t));
                },
                Some((tool, version)) => {
                    put_pending(&mut pending, string_of(tool.as_slice()), string_of(version.as_slice()));
                },
            }
        } else if let Some(rest) = strip_prefix_of(t.as_slice(), "Would install ") {
            match split_tool_and_version(rest.as_slice()) {
                None => {
                    proof {
                        lemma_dry_run_error_sticks(all, n + 1);
                    }
                    return Err(invalid_line("invalid mise dry-run install line: ", &t));
                },
                Some((tool, version)) => {
                    let tool_text = string_of(tool.as_slice());
                    let version_text = string_of(version.as_slice());
                    let from = take_pending(&mut pending, tool_text.as_str());
                    let from_version = match from {
                        Some(v) => match VersionText::new(v.as_str()) {
                            Ok(v) => Some(v),
                            Err(e) => {
                                proof {
                                    lemma_dry_run_error_sticks(all, n + 1);
                                }
                                return Err(MiseError::Domain(e.message()));
                            },
                        },
                        None => None,
                    };
                    let name = match PackageName::new(tool_text.as_str()) {
                        Ok(p) => p,
                        Err(e) => {
                            proof {
                                lemma_dry_run_error_sticks(all, n + 1);
                            }
                            return Err(MiseError::Domain(e.message()));
                        },
                    };
                    let to_version = match VersionText::new(version_text.as_str()) {
                        Ok(v) => v,
                        Err(e) => {
                            proof {
                                lemma_dry_run_error_sticks(all, n + 1);
                            }
                            return Err(MiseError::Domain(e.message()));
                        },
                    };
                    items.push(MiseDryRunItem { tool: name, from_version, to_version });
                },
            }
        }
        n = n + 1;
    }
    assert(all.take(lines@.len() as int) =~= all);
    if pending.len() > 0 {
        let m = least_pending(&pending);
        let a = concat("mise dry-run uninstall for ", pending[m].0.as_str());
        let msg = concat(a.as_str(), " was not followed by matching install");
        let err = MiseError::InvalidDryRun(msg);
        let ghost k = pending@[m as int].0@;
        assert(err@ == MiseErrorView::InvalidDryRun(unmatched_uninstall_text(k)));
        return Err(err);
    }
    assert(assoc(pending@).dom() =~= Set::<Seq<char>>::empty());
    Ok(items)
}

// ---------------------------------------------------------------------------
// Completing the dry run
// ---------------------------------------------------------------------------

/// The installed version mise lists for `tool`; a later entry for the same
/// tool replaces an earlier one.
pub open spec fn installed_version_of(installed: Seq<MiseInstalledTool>, tool: Seq<char>) -> Option<
    VersionText,
>
    decreases installed.len(),
{
    if installed.len() == 0 {
        None
    } else if installed.last().tool@ == tool {
        Some(installed.last().version)
    } else {
        installed_version_of(installed.drop_last(), tool)
    }
}

/// The version an item upgrades from: the one its uninstall line named, else
/// the installed one.
pub open spec fn completed_from(item: MiseDryRunItem, installed: Seq<MiseInstalledTool>) -> Option<
    VersionText,
> {
    match item.from_version {
        Some(v) => Some(v),
        None => installed_version_of(installed, item.tool@),
    }
}

/// Every item has a version to upgrade from, and the result lists them.
pub open spec fn completion_of(
    r: Result<Vec<MisePlanItem>, MiseError>,
    items: Seq<MiseDryRunItem>,
    installed: Seq<MiseInstalledTool>,
    unmatched: Seq<char>,
) -> bool {
    &&& r is Ok <==> forall|i: int| 0 <= i < items.len() ==> #[trigger] completed_from(items[i], installed) is Some
    &&& r matches Ok(v) ==> v@.len() == items.len() && forall|i: int|
        0 <= i < items.len() ==> {
            &&& (#[trigger] v@[i]).tool == items[i].tool
            &&& Some(v@[i].from_version) == completed_from(items[i], installed)
            &&& v@[i].to_version == items[i].to_version
        }
    &&& r matches Err(e) ==> exists|j: int|
        0 <= j < items.len() && (forall|i: int| 0 <= i < j ==> #[trigger] completed_from(items[i], installed) is Some)
            && completed_from(items[j], installed) is None && e@ == MiseErrorView::InvalidDryRun(
            "mise dry-run install for "@ + (#[trigger] items[j]).tool@ + unmatched,
        )
}

fn installed_version(installed: &Vec<MiseInstalledTool>, tool: &PackageName) -> (r: Option<VersionText>)
    ensures
        r == installed_version_of(installed@, tool@),
{
    let mut i: usize = installed.len();
    assert(installed@.take(i as int) =~= installed@);
    while i > 0
        invariant
            i <= installed@.len(),
            installed_version_of(installed@, tool@) == installed_version_of(installed@.take(i as int), tool@),
        decreases i,
    {
        assert(installed@.take(i as int).drop_last() =~= installed@.take(i - 1));
        if installed[i - 1].tool.same(tool) {
            return Some(installed[i - 1].version.clone());
        }
        i = i - 1;
    }
    None
}

fn complete_items(items: &Vec<MiseDryRunItem>, installed: &Vec<MiseInstalledTool>, unmatched: &str) -> (r:
    Result<Vec<MisePlanItem>, MiseError>)
    ensures
        completion_of(r, items@, installed@, unmatched@),
{
    let mut done: Vec<MisePlanItem> = Vec::new();
    let mut k: usize = 0;
    while k < items.len()
        invariant
            k <= items@.len(),
            done@.len() == k,
            forall|i: int| 0 <= i < k ==> {
                &&& (#[trigger] done@[i]).tool == items@[i].tool
                &&& Some(done@[i].from_version) == completed_from(items@[i], installed@)
                &&& done@[i].to_version == items@[i].to_version
            },
        decreases items@.len() - k,
    {
        let item = &items[k];
        let from_version = match &item.from_version {
            Some(v) => v.clone(),
            None => match installed_version(installed, &item.tool) {
                Some(v) => v,
                None => {
                    let a = concat("mise dry-run install for ", item.tool.as_str());
                    let msg = concat(a.as_str(), unmatched);
                    let err = MiseError::InvalidDryRun(msg);
                    assert forall|i: int| 0 <= i < k implies #[trigger] completed_from(items@[i], installed@) is Some by {
                        assert(Some(done@[i].from_version) == completed_from(items@[i], installed@));
                    }
                    assert(completed_from(items@[k as int], installed@) is None);
                    assert(err@ == MiseErrorView::InvalidDryRun("mise dry-run install for "@ + items@[k as int].tool@ + unmatched@));
                    assert(exists|j: int|
                        0 <= j < items@.len() && (forall|i: int| 0 <= i < j ==> #[trigger] completed_from(items@[i], installed@) is Some)
                            && completed_from(items@[j], installed@) is None && err@ == MiseErrorView::InvalidDryRun(
                            "mise dry-run install for "@ + (#[trigger] items@[j]).tool@ + unmatched@,
                        ));
                    return Err(err);
                },
            },
        };
        done.push(MisePlanItem { tool: item.tool.clone(), from_version, to_version: item.to_version.clone() });
        k = k + 1;
    }
    assert forall|i: int| 0 <= i < items@.len() implies #[trigger] completed_from(items@[i], installed@) is Some by {
        assert(Some(done@[i].from_version) == completed_from(items@[i], installed@));
    }
    Ok(done)
}

/// Fills in the installed version of install-only items from mise's list
/// of installed tools.
pub fn complete_dry_run_items(items: Vec<MiseDryRunItem>, installed: Vec<MiseInstalledTool>) -> (r:
    Result<Vec<MisePlanItem>, MiseError>)
    ensures
        completion_of(r, items@, installed@, " did not match an installed tool"@),
{
    complete_items(&items, &installed, " did not match an installed tool")
}

/// Completes items that all came with an uninstall line.
pub fn complete_dry_run_items_without_installed_lookup(items: Vec<MiseDryRunItem>) -> (r: Result<
    Vec<MisePlanItem>,
    MiseError,
>)
    ensures
        completion_of(r, items@, Seq::empty(), " was not preceded by matching uninstall"@),
{
    let none: Vec<MiseInstalledTool> = Vec::new();
    assert(none@ =~= Seq::<MiseInstalledTool>::empty());
    complete_items(&items, &none, " was not preceded by matching uninstall")
}

/// The adapter failure for a mise failure, with its text as detail.
pub fn adapter_error(err: &MiseError) -> (r: ManagerAdapterError)
    ensures
        r matches ManagerAdapterError::Manager { kind, detail } && detail@ == mise_error_text(err@) && kind == match *err {
            MiseError::Interrupted(_) => ManagerAdapterErrorKind::Interrupted,
            MiseError::UnsupportedCommandIntent(_) => ManagerAdapterErrorKind::CommandConstruction,
            MiseError::Infra(_) => ManagerAdapterErrorKind::Infra,
            _ => ManagerAdapterErrorKind::Parse,
        },
{
    let kind = match err {
        MiseError::Interrupted(_) => ManagerAdapterErrorKind::Interrupted,
        MiseError::Json(_) | MiseError::Toml(_) | MiseError::Domain(_) | MiseError::InvalidTimestamp { .. } | MiseError::InvalidDryRun(_) | MiseError::MissingReleaseMetadata(_) => ManagerAdapterErrorKind::Parse,
        MiseError::UnsupportedCommandIntent(_) => ManagerAdapterErrorKind::CommandConstruction,
        MiseError::Infra(_) => ManagerAdapterErrorKind::Infra,
    };
    ManagerAdapterError::Manager { kind, detail: err.message() }
}

} // verus!
