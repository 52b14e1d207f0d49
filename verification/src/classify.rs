//! Release classes (development, alpha, beta, release candidate, final) of
//! version strings under each version scheme.
use vstd::prelude::*;

use crate::text::{
    all_digits, alpha_prefix, alpha_prefix_of, chars_eq_str, chars_of, digits, first_index_char,
    first_index_of, in_set, is_alnum, is_alnum_char, is_digit, is_digit_char, last_index_char,
    last_index_of, lower_all, lower_vec, member, push_char, skip_digits, skip_digits_of,
    slice_chars, split_by, split_chars, string_of, strip_v_all, strip_v_all_of, strip_v_once,
    strip_v_once_of, trim, trim_bounds, trim_end_by, trim_set, trim_start_by, trimmed_chars,
};
use crate::versions::{Pep440Facts, pep440_facts, pep440_parse, semver_parse_prerelease, semver_prerelease,
    Pep440PreKind};

verus! {

/// How stable a release is; the first five are ordered from least to most stable.
#[derive(Debug, Clone, Copy, PartialEq, Eq, Structural)]
pub enum ReleaseClass {
    Dev,
    Alpha,
    Beta,
    Rc,
    Final,
    UnknownPrerelease,
    Unknown,
}

impl ReleaseClass {
    pub open spec fn rank(self) -> Option<u8> {
        match self {
            ReleaseClass::Dev => Some(0u8),
            ReleaseClass::Alpha => Some(1u8),
            ReleaseClass::Beta => Some(2u8),
            ReleaseClass::Rc => Some(3u8),
            ReleaseClass::Final => Some(4u8),
            ReleaseClass::UnknownPrerelease => None,
            ReleaseClass::Unknown => None,
        }
    }

    pub fn is_final(self) -> (r: bool)
        ensures
            r == (self == ReleaseClass::Final),
    {
        match self {
            ReleaseClass::Final => true,
            _ => false,
        }
    }

    pub fn stability_rank(self) -> (r: Option<u8>)
        ensures
            r == self.rank(),
    {
        match self {
            ReleaseClass::Dev => Some(0),
            ReleaseClass::Alpha => Some(1),
            ReleaseClass::Beta => Some(2),
            ReleaseClass::Rc => Some(3),
            ReleaseClass::Final => Some(4),
            ReleaseClass::UnknownPrerelease => None,
            ReleaseClass::Unknown => None,
        }
    }
}

/// Keeps the less stable of two classes; on a tie or an unranked class the
/// current one stays.
pub open spec fn less_stable(current: Option<ReleaseClass>, next: Option<ReleaseClass>) -> Option<
    ReleaseClass,
> {
    match (current, next) {
        (_, None) => current,
        (None, Some(n)) => Some(n),
        (Some(c), Some(n)) => match (c.rank(), n.rank()) {
            (Some(cr), Some(nr)) => if nr < cr {
                Some(n)
            } else {
                Some(c)
            },
            _ => Some(c),
        },
    }
}

fn select_less_stable(current: Option<ReleaseClass>, next: Option<ReleaseClass>) -> (r: Option<
    ReleaseClass,
>)
    ensures
        r == less_stable(current, next),
{
    let Some(n) = next else {
        return current;
    };
    let Some(c) = current else {
        return Some(n);
    };
    match (c.stability_rank(), n.stability_rank()) {
        (Some(cr), Some(nr)) => if nr < cr {
            Some(n)
        } else {
            Some(c)
        },
        _ => Some(c),
    }
}

pub open spec fn is_dev_label(l: Seq<char>) -> bool {
    ||| l == "canary"@
    ||| l == "nightly"@
    ||| l == "snapshot"@
    ||| l == "dev"@
    ||| l == "devel"@
    ||| l == "development"@
    ||| l == "next"@
    ||| l == "edge"@
    ||| l == "preview"@
    ||| l == "experimental"@
    ||| l == "exp"@
}

pub open spec fn is_rc_label(l: Seq<char>) -> bool {
    l == "prerelease"@ || l == "pre"@ || l == "rc"@
}

fn dev_label(l: &[char]) -> (r: bool)
    ensures
        r == is_dev_label(l@),
{
    chars_eq_str(l, "canary") || chars_eq_str(l, "nightly") || chars_eq_str(l, "snapshot")
        || chars_eq_str(l, "dev") || chars_eq_str(l, "devel") || chars_eq_str(l, "development")
        || chars_eq_str(l, "next") || chars_eq_str(l, "edge") || chars_eq_str(l, "preview")
        || chars_eq_str(l, "experimental") || chars_eq_str(l, "exp")
}

fn rc_label(l: &[char]) -> (r: bool)
    ensures
        r == is_rc_label(l@),
{
    chars_eq_str(l, "prerelease") || chars_eq_str(l, "pre") || chars_eq_str(l, "rc")
}

/// The class a prerelease label names.
pub open spec fn label_class(l: Seq<char>) -> Option<ReleaseClass> {
    if is_dev_label(l) {
        Some(ReleaseClass::Dev)
    } else if l == "alpha"@ || l == "a"@ {
        Some(ReleaseClass::Alpha)
    } else if l == "beta"@ || l == "b"@ {
        Some(ReleaseClass::Beta)
    } else if is_rc_label(l) {
        Some(ReleaseClass::Rc)
    } else {
        None
    }
}

/// The class of one prerelease token: its leading letters, lower-cased.
pub open spec fn token_class(token: Seq<char>) -> Option<ReleaseClass> {
    label_class(alpha_prefix(lower_all(token)))
}

pub open spec fn classify_tokens(tokens: Seq<Seq<char>>) -> Option<ReleaseClass>
    decreases tokens.len(),
{
    if tokens.len() == 0 {
        None
    } else {
        less_stable(classify_tokens(tokens.drop_last()), token_class(tokens.last()))
    }
}

pub open spec fn prerelease_separators() -> Seq<char> {
    seq!['.', '-', '_']
}

/// The least stable class named by the `.`, `-` or `_` separated tokens.
pub open spec fn prerelease_text_class(raw: Seq<char>) -> Option<ReleaseClass> {
    classify_tokens(split_by(raw, in_set(prerelease_separators())))
}

fn classify_token(token: &[char]) -> (r: Option<ReleaseClass>)
    ensures
        r == token_class(token@),
{
    let lowered = lower_vec(token);
    let l = alpha_prefix_of(lowered.as_slice());
    let l = l.as_slice();
    if dev_label(l) {
        Some(ReleaseClass::Dev)
    } else if chars_eq_str(l, "alpha") || chars_eq_str(l, "a") {
        Some(ReleaseClass::Alpha)
    } else if chars_eq_str(l, "beta") || chars_eq_str(l, "b") {
        Some(ReleaseClass::Beta)
    } else if rc_label(l) {
        Some(ReleaseClass::Rc)
    } else {
        None
    }
}

fn classify_prerelease_text(raw: &[char]) -> (r: Option<ReleaseClass>)
    ensures
        r == prerelease_text_class(raw@),
{
    let seps = vec!['.', '-', '_'];
    assert(seps@ =~= prerelease_separators());
    let tokens = split_chars(raw, seps.as_slice());
    let ghost spec_tokens = split_by(raw@, in_set(prerelease_separators()));
    let mut best: Option<ReleaseClass> = None;
    let mut i: usize = 0;
    while i < tokens.len()
        invariant
            i <= tokens@.len(),
            tokens@.len() == spec_tokens.len(),
            forall|k: int| 0 <= k < tokens@.len() ==> #[trigger] tokens@[k]@ == spec_tokens[k],
            best == classify_tokens(spec_tokens.take(i as int)),
        decreases tokens@.len() - i,
    {
        let next = classify_token(tokens[i].as_slice());
        best = select_less_stable(best, next);
        proof {
            let t = spec_tokens.take(i + 1);
            assert(t.drop_last() =~= spec_tokens.take(i as int));
            assert(t.last() == tokens@[i as int]@);
        }
        i = i + 1;
    }
    assert(spec_tokens.take(tokens@.len() as int) =~= spec_tokens);
    best
}

pub open spec fn dot() -> Seq<char> {
    seq!['.']
}

/// Non-empty runs of ASCII digits separated by single dots, as in `1.20.3`.
pub open spec fn numeric_dot_core(s: Seq<char>) -> bool {
    let parts = split_by(s, in_set(dot()));
    forall|i: int| 0 <= i < parts.len() ==> #[trigger] parts[i].len() > 0 && all_digits(parts[i])
}

fn is_numeric_dot_core(v: &[char]) -> (r: (bool, usize))
    ensures
        r.0 == numeric_dot_core(v@),
        r.1 == split_by(v@, in_set(dot())).len(),
{
    let seps = vec!['.'];
    assert(seps@ =~= dot());
    let parts = split_chars(v, seps.as_slice());
    let mut i: usize = 0;
    while i < parts.len()
        invariant
            i <= parts@.len(),
            parts@.len() == split_by(v@, in_set(dot())).len(),
            forall|k: int| 0 <= k < parts@.len() ==> #[trigger] parts@[k]@ == split_by(v@, in_set(dot()))[k],
            forall|k: int| 0 <= k < i ==> #[trigger] parts@[k]@.len() > 0 && all_digits(parts@[k]@),
        decreases parts@.len() - i,
    {
        if parts[i].len() == 0 || !digits(parts[i].as_slice()) {
            assert(!(split_by(v@, in_set(dot()))[i as int].len() > 0 && all_digits(split_by(v@, in_set(dot()))[i as int])));
            return (false, parts.len());
        }
        i = i + 1;
    }
    assert forall|k: int| 0 <= k < split_by(v@, in_set(dot())).len() implies #[trigger] split_by(v@, in_set(dot()))[k].len() > 0 && all_digits(split_by(v@, in_set(dot()))[k]) by {
        assert(parts@[k]@ == split_by(v@, in_set(dot()))[k]);
    }
    (true, parts.len())
}

/// `t` followed by `k` copies of `.0`.
pub open spec fn pad_zeros(t: Seq<char>, k: nat) -> Seq<char>
    decreases k,
{
    if k == 0 {
        t
    } else {
        pad_zeros(t, (k - 1) as nat) + seq!['.', '0']
    }
}

/// The text that SemVer parsing reads from a raw version: trimmed, leading
/// `v`/`V` removed, and a purely numeric version of one or two components
/// padded with `.0` to three (`1.2` reads as `1.2.0`). A numeric core with
/// fewer than three components never parses as SemVer, so reading the padded
/// text is the same as retrying with it after the first parse failed.
pub open spec fn semver_text(raw: Seq<char>) -> Seq<char> {
    let t = strip_v_all(trim(raw));
    let n = split_by(t, in_set(dot())).len();
    if numeric_dot_core(t) && n < 3 {
        pad_zeros(t, (3 - n) as nat)
    } else {
        t
    }
}

/// The SemVer text of `raw`, as `semver_text` describes it.
pub fn semver_text_of(raw: &str) -> (r: String)
    ensures
        r@ == semver_text(raw@),
{
    let trimmed = trimmed_chars(raw);
    let t = strip_v_all_of(trimmed.as_slice());
    let (numeric, n) = is_numeric_dot_core(t.as_slice());
    let mut s = string_of(t.as_slice());
    if numeric && n < 3 {
        let mut k: usize = 0;
        while k < 3 - n
            invariant
                n < 3,
                k <= 3 - n,
                s@ == pad_zeros(t@, k as nat),
            decreases 3 - n - k,
        {
            push_char(&mut s, '.');
            push_char(&mut s, '0');
            k = k + 1;
            assert(s@ =~= pad_zeros(t@, k as nat));
        }
    }
    s
}

/// Classification of versions that look like SemVer but do not parse.
pub open spec fn semver_like_fallback(raw: Seq<char>) -> ReleaseClass {
    let r = strip_v_once(trim(raw));
    if r.len() == 0 {
        ReleaseClass::Unknown
    } else {
        match first_index_of(r, '-') {
            Some(i) if numeric_dot_core(r.take(i)) => match prerelease_text_class(r.skip(i + 1)) {
                Some(c) => c,
                None => ReleaseClass::UnknownPrerelease,
            },
            _ => if numeric_dot_core(r) {
                ReleaseClass::Final
            } else {
                ReleaseClass::Unknown
            },
        }
    }
}

/// The class of a SemVer version string given the prerelease that the
/// SemVer parser read from it (`None` when it does not parse).
pub open spec fn semver_class_with(raw: Seq<char>, prerelease: Option<Seq<char>>) -> ReleaseClass {
    match prerelease {
        Some(pre) => if pre.len() == 0 {
            ReleaseClass::Final
        } else {
            match prerelease_text_class(pre) {
                Some(c) => c,
                None => ReleaseClass::UnknownPrerelease,
            }
        },
        None => semver_like_fallback(raw),
    }
}

pub open spec fn semver_class(raw: Seq<char>) -> ReleaseClass {
    semver_class_with(raw, semver_prerelease(semver_text(raw)))
}

fn classify_semver_like_fallback(raw: &str) -> (r: ReleaseClass)
    ensures
        r == semver_like_fallback(raw@),
{
    let trimmed = trimmed_chars(raw);
    let r = strip_v_once_of(trimmed.as_slice());
    if r.len() == 0 {
        return ReleaseClass::Unknown;
    }
    if let Some(i) = first_index_char(r.as_slice(), '-') {
        let core = slice_chars(r.as_slice(), 0, i);
        assert(core@ =~= r@.take(i as int));
        let (numeric, _) = is_numeric_dot_core(core.as_slice());
        if numeric {
            let pre = slice_chars(r.as_slice(), i + 1, r.len());
            assert(pre@ =~= r@.skip(i + 1));
            return match classify_prerelease_text(pre.as_slice()) {
                Some(c) => c,
                None => ReleaseClass::UnknownPrerelease,
            };
        }
    }
    let (numeric, _) = is_numeric_dot_core(r.as_slice());
    if numeric {
        ReleaseClass::Final
    } else {
        ReleaseClass::Unknown
    }
}

/// The release class of a SemVer version string, from the prerelease the
/// SemVer parser read from it.
pub fn semver_class_from_prerelease(raw: &str, prerelease: Option<String>) -> (r: ReleaseClass)
    ensures
        r == semver_class_with(
            raw@,
            match prerelease {
                Some(p) => Some(p@),
                None => None,
            },
        ),
{
    match prerelease {
        Some(pre) => {
            let pre_chars = chars_of(pre.as_str());
            if pre_chars.len() == 0 {
                ReleaseClass::Final
            } else {
                match classify_prerelease_text(pre_chars.as_slice()) {
                    Some(c) => c,
                    None => ReleaseClass::UnknownPrerelease,
                }
            }
        },
        None => classify_semver_like_fallback(raw),
    }
}

/// The release class of a SemVer version string.
pub fn classify_semver_release(raw: &str) -> (r: ReleaseClass)
    ensures
        r == semver_class(raw@),
{
    let text = semver_text_of(raw);
    semver_class_from_prerelease(raw, semver_parse_prerelease(text.as_str()))
}

/// The class of a PEP 440 version from what the PEP 440 parser read of it
/// (`None` when it does not parse).
pub open spec fn pep440_class_of(facts: Option<Pep440Facts>) -> ReleaseClass {
    match facts {
        None => ReleaseClass::Unknown,
        Some(f) => if f.is_dev {
            ReleaseClass::Dev
        } else {
            match f.pre {
                Some(Pep440PreKind::Alpha) => ReleaseClass::Alpha,
                Some(Pep440PreKind::Beta) => ReleaseClass::Beta,
                Some(Pep440PreKind::Rc) => ReleaseClass::Rc,
                None => ReleaseClass::Final,
            }
        },
    }
}

pub open spec fn pep440_class(raw: Seq<char>) -> ReleaseClass {
    pep440_class_of(pep440_facts(raw))
}

/// The release class of a PEP 440 version, from what the PEP 440 parser
/// read of it.
pub fn pep440_class_from_facts(facts: Option<Pep440Facts>) -> (r: ReleaseClass)
    ensures
        r == pep440_class_of(facts),
{
    match facts {
        None => ReleaseClass::Unknown,
        Some(facts) => if facts.is_dev {
            ReleaseClass::Dev
        } else {
            match facts.pre {
                Some(Pep440PreKind::Alpha) => ReleaseClass::Alpha,
                Some(Pep440PreKind::Beta) => ReleaseClass::Beta,
                Some(Pep440PreKind::Rc) => ReleaseClass::Rc,
                None => ReleaseClass::Final,
            }
        },
    }
}

/// The release class of a PEP 440 version string.
pub fn classify_pep440_release(raw: &str) -> (r: ReleaseClass)
    ensures
        r == pep440_class(raw@),
{
    pep440_class_from_facts(pep440_parse(raw))
}

/// Drops a Homebrew revision suffix such as `_1` when something precedes it.
pub open spec fn strip_revision(w: Seq<char>) -> Seq<char> {
    match last_index_of(w, '_') {
        None => w,
        Some(i) => if i > 0 && all_digits(w.skip(i + 1)) {
            w.take(i)
        } else {
            w
        },
    }
}

/// A Homebrew version without its cask build part (after `,`) and revision.
pub open spec fn brew_normalized(raw: Seq<char>) -> Seq<char> {
    let t = trim(raw);
    let w = match first_index_of(t, ',') {
        Some(i) => trim(t.take(i)),
        None => t,
    };
    strip_revision(w)
}

pub open spec fn brew_separators() -> Seq<char> {
    seq!['.', '-', '_', '+']
}

/// Whether a one-letter `a` or `b` token is a prerelease mark: it is glued to
/// digits, or only a version number (or nothing) precedes it.
pub open spec fn short_context(v: Seq<char>, start: int, token: Seq<char>, marker: Seq<char>) -> bool {
    let p = trim_end_by(
        trim_start_by(strip_v_all(v.take(start)), in_set(brew_separators())),
        in_set(brew_separators()),
    );
    ||| marker.len() < token.len()
    ||| p.len() == 0
    ||| ((exists|i: int| 0 <= i < p.len() && is_digit(#[trigger] p[i])) && forall|i: int|
        0 <= i < p.len() ==> is_digit(#[trigger] p[i]) || brew_separators().contains(p[i]))
}

/// The class of the alphanumeric token `v[start..end]` of a Homebrew version.
pub open spec fn brew_token_class(v: Seq<char>, start: int, end: int) -> Option<ReleaseClass> {
    let token = v.subrange(start, end);
    let marker = skip_digits(lower_all(token));
    let l = alpha_prefix(marker);
    if is_dev_label(l) {
        Some(ReleaseClass::Dev)
    } else if l == "alpha"@ {
        Some(ReleaseClass::Alpha)
    } else if l == "beta"@ {
        Some(ReleaseClass::Beta)
    } else if is_rc_label(l) {
        Some(ReleaseClass::Rc)
    } else if l == "a"@ && short_context(v, start, token, marker) {
        Some(ReleaseClass::Alpha)
    } else if l == "b"@ && short_context(v, start, token, marker) {
        Some(ReleaseClass::Beta)
    } else {
        None
    }
}

/// Scans the first `n` characters of `v`: the least stable class of the
/// finished alphanumeric tokens, and the start of the token in progress.
pub open spec fn brew_scan(v: Seq<char>, n: int) -> (Option<ReleaseClass>, Option<int>)
    decreases n,
{
    if n <= 0 {
        (None, None)
    } else {
        let (best, start) = brew_scan(v, n - 1);
        if is_alnum(v[n - 1]) {
            (best, if start is Some { start } else { Some(n - 1) })
        } else {
            match start {
                Some(s) => (less_stable(best, brew_token_class(v, s, n - 1)), None),
                None => (best, None),
            }
        }
    }
}

proof fn lemma_brew_scan_bounds(v: Seq<char>, n: int)
    requires
        0 <= n <= v.len(),
    ensures
        brew_scan(v, n).1 matches Some(s) ==> 0 <= s < n,
    decreases n,
{
    if n > 0 {
        lemma_brew_scan_bounds(v, n - 1);
    }
}

/// The least stable prerelease class among the alphanumeric tokens of `v`.
pub open spec fn brew_prerelease(v: Seq<char>) -> Option<ReleaseClass> {
    let (best, start) = brew_scan(v, v.len() as int);
    match start {
        Some(s) => less_stable(best, brew_token_class(v, s, v.len() as int)),
        None => best,
    }
}

pub open spec fn manager_native_class(raw: Seq<char>) -> ReleaseClass {
    let v = trim(brew_normalized(raw));
    if v.len() == 0 || lower_all(v) == "latest"@ || !(exists|i: int|
        0 <= i < v.len() && is_alnum(#[trigger] v[i])) {
        ReleaseClass::Unknown
    } else {
        match brew_prerelease(v) {
            Some(c) => c,
            None => ReleaseClass::Final,
        }
    }
}

fn strip_revision_of(w: &[char]) -> (r: Vec<char>)
    ensures
        r@ == strip_revision(w@),
{
    match last_index_char(w, '_') {
        None => slice_chars(w, 0, w.len()),
        Some(i) => {
            let rev = slice_chars(w, i + 1, w.len());
            assert(rev@ =~= w@.skip(i + 1));
            if i > 0 && digits(rev.as_slice()) {
                let r = slice_chars(w, 0, i);
                assert(r@ =~= w@.take(i as int));
                r
            } else {
                let r = slice_chars(w, 0, w.len());
                assert(r@ =~= w@);
                r
            }
        },
    }
}

fn brew_normalized_of(raw: &str) -> (r: Vec<char>)
    ensures
        r@ == brew_normalized(raw@),
{
    let t = trimmed_chars(raw);
    let w = match first_index_char(t.as_slice(), ',') {
        Some(i) => {
            let head = slice_chars(t.as_slice(), 0, i);
            assert(head@ =~= t@.take(i as int));
            let (a, b) = trim_bounds(head.as_slice());
            slice_chars(head.as_slice(), a, b)
        },
        None => t,
    };
    proof {
        if first_index_of(t@, ',') is None {
            assert(w@ =~= t@);
        }
    }
    strip_revision_of(w.as_slice())
}

fn short_brew_context(v: &[char], start: usize, token_len: usize, marker_len: usize) -> (r: bool)
    requires
        start <= v.len(),
    ensures
        forall|token: Seq<char>, marker: Seq<char>|
            token.len() == token_len && marker.len() == marker_len ==> r == short_context(
                v@,
                start as int,
                token,
                marker,
            ),
{
    if marker_len < token_len {
        return true;
    }
    let head = slice_chars(v, 0, start);
    assert(head@ =~= v@.take(start as int));
    let stripped = strip_v_all_of(head.as_slice());
    let seps = vec!['.', '-', '_', '+'];
    assert(seps@ =~= brew_separators());
    let p = trim_set(stripped.as_slice(), seps.as_slice());
    if p.len() == 0 {
        return true;
    }
    let mut has_digit = false;
    let mut all_ok = true;
    let mut i: usize = 0;
    while i < p.len()
        invariant
            i <= p@.len(),
            seps@ == brew_separators(),
            has_digit == (exists|j: int| 0 <= j < i && is_digit(#[trigger] p@[j])),
            all_ok == (forall|j: int|
                0 <= j < i ==> is_digit(#[trigger] p@[j]) || brew_separators().contains(p@[j])),
        decreases p@.len() - i,
    {
        let c = p[i];
        let d = is_digit_char(c);
        if d {
            has_digit = true;
        }
        if !d && !member(seps.as_slice(), c) {
            all_ok = false;
        }
        proof {
            if !all_ok {
                assert(!(is_digit(p@[i as int]) || brew_separators().contains(p@[i as int])) || !(
                forall|j: int|
                    0 <= j < i ==> is_digit(#[trigger] p@[j]) || brew_separators().contains(p@[j])));
            }
        }
        i = i + 1;
    }
    has_digit && all_ok
}

fn classify_brew_token(v: &[char], start: usize, end: usize) -> (r: Option<ReleaseClass>)
    requires
        start <= end <= v.len(),
    ensures
        r == brew_token_class(v@, start as int, end as int),
{
    let token = slice_chars(v, start, end);
    let lowered = lower_vec(token.as_slice());
    let marker = skip_digits_of(lowered.as_slice());
    let l = alpha_prefix_of(marker.as_slice());
    let l = l.as_slice();
    if dev_label(l) {
        Some(ReleaseClass::Dev)
    } else if chars_eq_str(l, "alpha") {
        Some(ReleaseClass::Alpha)
    } else if chars_eq_str(l, "beta") {
        Some(ReleaseClass::Beta)
    } else if rc_label(l) {
        Some(ReleaseClass::Rc)
    } else if chars_eq_str(l, "a") && short_brew_context(v, start, token.len(), marker.len()) {
        Some(ReleaseClass::Alpha)
    } else if chars_eq_str(l, "b") && short_brew_context(v, start, token.len(), marker.len()) {
        Some(ReleaseClass::Beta)
    } else {
        None
    }
}

fn classify_brew_prerelease(v: &[char]) -> (r: Option<ReleaseClass>)
    ensures
        r == brew_prerelease(v@),
{
    let mut best: Option<ReleaseClass> = None;
    let mut token_start: Option<usize> = None;
    let mut i: usize = 0;
    while i < v.len()
        invariant
            i <= v.len(),
            brew_scan(v@, i as int) == (best, match token_start {
                Some(s) => Some(s as int),
                None => None::<int>,
            }),
        decreases v.len() - i,
    {
        proof {
            lemma_brew_scan_bounds(v@, i as int);
        }
        if is_alnum_char(v[i]) {
            if token_start.is_none() {
                token_start = Some(i);
            }
        } else if let Some(start) = token_start {
            best = select_less_stable(best, classify_brew_token(v, start, i));
            token_start = None;
        }
        i = i + 1;
    }
    proof {
        lemma_brew_scan_bounds(v@, v.len() as int);
    }
    if let Some(start) = token_start {
        best = select_less_stable(best, classify_brew_token(v, start, v.len()));
    }
    best
}

/// The release class of a manager-native (Homebrew-style) version string.
pub fn classify_manager_native_release(raw: &str) -> (r: ReleaseClass)
    ensures
        r == manager_native_class(raw@),
{
    let normalized = brew_normalized_of(raw);
    let (a, b) = trim_bounds(normalized.as_slice());
    let v = slice_chars(normalized.as_slice(), a, b);
    if v.len() == 0 {
        return ReleaseClass::Unknown;
    }
    let lowered = lower_vec(v.as_slice());
    if chars_eq_str(lowered.as_slice(), "latest") {
        return ReleaseClass::Unknown;
    }
    let mut any_alnum = false;
    let mut i: usize = 0;
    while i < v.len()
        invariant
            i <= v@.len(),
            any_alnum == (exists|j: int| 0 <= j < i && is_alnum(#[trigger] v@[j])),
        decreases v@.len() - i,
    {
        if is_alnum_char(v[i]) {
            any_alnum = true;
        }
        i = i + 1;
    }
    if !any_alnum {
        return ReleaseClass::Unknown;
    }
    match classify_brew_prerelease(v.as_slice()) {
        Some(c) => c,
        None => ReleaseClass::Final,
    }
}

// ---------------------------------------------------------------------------
// Laws of release classes
// ---------------------------------------------------------------------------

/// The labels of development builds: canary, nightly, snapshot, dev, devel,
/// development, next, edge, preview, experimental and exp.
pub open spec fn development_build_label(l: Seq<char>) -> bool {
    ||| l == "canary"@
    ||| l == "nightly"@
    ||| l == "snapshot"@
    ||| l == "dev"@
    ||| l == "devel"@
    ||| l == "development"@
    ||| l == "next"@
    ||| l == "edge"@
    ||| l == "preview"@
    ||| l == "experimental"@
    ||| l == "exp"@
}

/// A class of a prerelease: dev, alpha, beta or rc.
pub open spec fn is_prerelease_class(c: ReleaseClass) -> bool {
    c == ReleaseClass::Dev || c == ReleaseClass::Alpha || c == ReleaseClass::Beta || c == ReleaseClass::Rc
}

/// A prerelease token whose leading letters (in any case) name a
/// development build classifies as a dev release.
pub proof fn law_development_token_is_dev(token: Seq<char>)
    requires
        development_build_label(alpha_prefix(lower_all(token))),
    ensures
        token_class(token) == Some(ReleaseClass::Dev),
{
}

/// A prerelease token names a prerelease class or none at all; never a
/// final release.
pub proof fn law_token_is_never_final(token: Seq<char>)
    ensures
        token_class(token) matches Some(c) ==> is_prerelease_class(c),
{
}

proof fn lemma_tokens_class(tokens: Seq<Seq<char>>)
    ensures
        classify_tokens(tokens) matches Some(c) ==> is_prerelease_class(c),
        (exists|k: int| 0 <= k < tokens.len() && #[trigger] token_class(tokens[k]) == Some(ReleaseClass::Dev))
            ==> classify_tokens(tokens) == Some(ReleaseClass::Dev),
    decreases tokens.len(),
{
    if tokens.len() > 0 {
        let init = tokens.drop_last();
        lemma_tokens_class(init);
        law_token_is_never_final(tokens.last());
        if exists|k: int| 0 <= k < tokens.len() && #[trigger] token_class(tokens[k]) == Some(ReleaseClass::Dev) {
            let k = choose|k: int| 0 <= k < tokens.len() && #[trigger] token_class(tokens[k]) == Some(ReleaseClass::Dev);
            if k < init.len() {
                assert(token_class(init[k]) == Some(ReleaseClass::Dev));
            }
        }
    }
}

/// A SemVer version whose prerelease holds a token naming a development
/// build (such as `2.0.0-canary.1` or `1.0.0-nightly.20240101`) is a dev
/// release, whatever its other tokens say.
pub proof fn law_development_prerelease_is_dev(raw: Seq<char>, pre: Seq<char>, k: int)
    requires
        semver_prerelease(semver_text(raw)) == Some(pre),
        0 <= k < split_by(pre, in_set(prerelease_separators())).len(),
        development_build_label(alpha_prefix(lower_all(split_by(pre, in_set(prerelease_separators()))[k]))),
    ensures
        semver_class(raw) == ReleaseClass::Dev,
{
    let tokens = split_by(pre, in_set(prerelease_separators()));
    law_development_token_is_dev(tokens[k]);
    lemma_tokens_class(tokens);
    if pre.len() == 0 {
        assert(tokens =~= seq![Seq::<char>::empty()]);
        assert(lower_all(tokens[k]) =~= Seq::<char>::empty());
        reveal_strlit("canary");
        reveal_strlit("nightly");
        reveal_strlit("snapshot");
        reveal_strlit("dev");
        reveal_strlit("devel");
        reveal_strlit("development");
        reveal_strlit("next");
        reveal_strlit("edge");
        reveal_strlit("preview");
        reveal_strlit("experimental");
        reveal_strlit("exp");
        assert(alpha_prefix(lower_all(tokens[k])).len() == 0) by {
            assert(alpha_prefix(Seq::<char>::empty()).len() <= 0);
        }
    }
}

/// A SemVer version with a non-empty prerelease is never a final release.
pub proof fn law_semver_prerelease_is_not_final(raw: Seq<char>, pre: Seq<char>)
    requires
        semver_prerelease(semver_text(raw)) == Some(pre),
        pre.len() > 0,
    ensures
        semver_class(raw) != ReleaseClass::Final,
        semver_class(raw) == ReleaseClass::UnknownPrerelease || is_prerelease_class(semver_class(raw)),
{
    lemma_tokens_class(split_by(pre, in_set(prerelease_separators())));
}

/// A version that SemVer does not parse but that reads as a numeric core
/// followed by `-` and a prerelease is never a final release either.
pub proof fn law_semver_like_prerelease_is_not_final(raw: Seq<char>, i: int)
    requires
        semver_prerelease(semver_text(raw)) is None,
        first_index_of(strip_v_once(trim(raw)), '-') == Some(i),
        numeric_dot_core(strip_v_once(trim(raw)).take(i)),
    ensures
        semver_class(raw) != ReleaseClass::Final,
{
    lemma_tokens_class(split_by(strip_v_once(trim(raw)).skip(i + 1), in_set(prerelease_separators())));
}

} // verus!
