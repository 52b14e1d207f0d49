//! Version parsing and ordering, delegated to the `semver` and `pep440_rs`
//! crates.
//!
//! The names below stand for what those crates compute; the wrappers state
//! only that their results are those names applied to the arguments.
use vstd::prelude::*;

use std::str::FromStr;

verus! {

/// The outcome of comparing two parsed versions.
#[derive(Debug, Clone, Copy, PartialEq, Eq, Structural)]
pub enum VersionOrder {
    Less,
    Equal,
    Greater,
}

/// Prerelease marks that PEP 440 knows.
#[derive(Debug, Clone, Copy, PartialEq, Eq, Structural)]
pub enum Pep440PreKind {
    Alpha,
    Beta,
    Rc,
}

/// What planning reads of a parsed PEP 440 version.
#[derive(Debug, Clone, Copy, PartialEq, Eq, Structural)]
pub struct Pep440Facts {
    pub is_dev: bool,
    pub pre: Option<Pep440PreKind>,
}

/// `semver::Version::parse(text)`: the prerelease part (`pre.as_str()`) of
/// the parsed version, or `None` when the text does not parse.
pub uninterp spec fn semver_prerelease(text: Seq<char>) -> Option<Seq<char>>;

/// `Ord::cmp` of the two versions that `semver::Version::parse` reads from
/// `a` and `b`, or `None` when either does not parse.
pub uninterp spec fn semver_order(a: Seq<char>, b: Seq<char>) -> Option<VersionOrder>;

/// `==` of the two versions that `semver::Version::parse` reads from `a` and
/// `b`; false when either does not parse.
pub uninterp spec fn semver_same(a: Seq<char>, b: Seq<char>) -> bool;

/// `pep440_rs::Version::from_str(text)`: whether the version is a
/// development release and which prerelease mark it carries, or `None` when
/// the text does not parse.
pub uninterp spec fn pep440_facts(text: Seq<char>) -> Option<Pep440Facts>;

/// `Ord::cmp` of the two versions that `pep440_rs::Version::from_str` reads
/// from `a` and `b`, or `None` when either does not parse.
pub uninterp spec fn pep440_order(a: Seq<char>, b: Seq<char>) -> Option<VersionOrder>;

/// Calls `semver::Version::parse` and hands out the prerelease text of the
/// result. The contract claims only that the answer is the name
/// `semver_prerelease` applied to the text.
#[verifier::external_body]
pub(crate) fn semver_parse_prerelease(text: &str) -> (r: Option<String>)
    ensures
        match r {
            Some(p) => semver_prerelease(text@) == Some(p@),
            None => semver_prerelease(text@) is None,
        },
{
    match semver::Version::parse(text) {
        Ok(version) => Some(version.pre.as_str().to_owned()),
        Err(_) => None,
    }
}

/// Parses both texts with `semver::Version::parse` and compares the results
/// with their `Ord` implementation. The contract claims the answer is the
/// name `semver_order`, present exactly when both texts parse.
#[verifier::external_body]
pub(crate) fn semver_compare(a: &str, b: &str) -> (r: Option<VersionOrder>)
    ensures
        r == semver_order(a@, b@),
        r is Some <==> (semver_prerelease(a@) is Some && semver_prerelease(b@) is Some),
{
    match (semver::Version::parse(a), semver::Version::parse(b)) {
        (Ok(left), Ok(right)) => Some(
            match left.cmp(&right) {
                std::cmp::Ordering::Less => VersionOrder::Less,
                std::cmp::Ordering::Equal => VersionOrder::Equal,
                std::cmp::Ordering::Greater => VersionOrder::Greater,
            },
        ),
        _ => None,
    }
}

/// Parses both texts with `semver::Version::parse` and compares the results
/// with `==`. The contract claims the answer is the name `semver_same`, true
/// only when both texts parse.
#[verifier::external_body]
pub(crate) fn semver_equal(a: &str, b: &str) -> (r: bool)
    ensures
        r == semver_same(a@, b@),
        r ==> (semver_prerelease(a@) is Some && semver_prerelease(b@) is Some),
{
    match (semver::Version::parse(a), semver::Version::parse(b)) {
        (Ok(left), Ok(right)) => left == right,
        _ => false,
    }
}

/// Calls `pep440_rs::Version::from_str` and reads `is_dev()` and the kind of
/// `pre()`. The contract claims only that the answer is the name
/// `pep440_facts` applied to the text.
#[verifier::external_body]
pub(crate) fn pep440_parse(text: &str) -> (r: Option<Pep440Facts>)
    ensures
        r == pep440_facts(text@),
{
    let Ok(version) = pep440_rs::Version::from_str(text) else { return None };
    let pre = match version.pre().map(|pre| pre.kind) {
        Some(pep440_rs::PrereleaseKind::Alpha) => Some(Pep440PreKind::Alpha),
        Some(pep440_rs::PrereleaseKind::Beta) => Some(Pep440PreKind::Beta),
        Some(pep440_rs::PrereleaseKind::Rc) => Some(Pep440PreKind::Rc),
        None => None,
    };
    Some(Pep440Facts { is_dev: version.is_dev(), pre })
}

/// Parses both texts with `pep440_rs::Version::from_str` and compares the
/// results with their `Ord` implementation. The contract claims the answer is
/// the name `pep440_order`, present exactly when both texts parse.
#[verifier::external_body]
pub(crate) fn pep440_compare(a: &str, b: &str) -> (r: Option<VersionOrder>)
    ensures
        r == pep440_order(a@, b@),
        r is Some <==> (pep440_facts(a@) is Some && pep440_facts(b@) is Some),
{
    match (pep440_rs::Version::from_str(a), pep440_rs::Version::from_str(b)) {
        (Ok(left), Ok(right)) => Some(
            match left.cmp(&right) {
                std::cmp::Ordering::Less => VersionOrder::Less,
                std::cmp::Ordering::Equal => VersionOrder::Equal,
                std::cmp::Ordering::Greater => VersionOrder::Greater,
            },
        ),
        _ => None,
    }
}

} // verus!
