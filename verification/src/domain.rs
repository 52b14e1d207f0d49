//! Identifiers, installed tools, audit subjects and version policies.
use vstd::prelude::*;
use vstd::std_specs::cmp::PartialEqSpecImpl;

use crate::text::{concat, is_blank, str_is_blank};

verus! {

/// Validation failures of the domain model.
#[derive(Debug)]
pub enum DomainError {
    EmptyVersionText,
    EmptyManagerId,
    EmptyToolId,
    EmptyPackageName,
    EmptyToolName,
    EmptyAuditPackageName,
    EmptyPlanItemId,
    DuplicatePlanItemId(String),
    UnknownSelectedItem(String),
    DuplicateSelectedItem(String),
    InvalidVersionPolicy(String),
}

/// The text of a domain error.
pub open spec fn domain_error_text(e: DomainError) -> Seq<char> {
    match e {
        DomainError::EmptyVersionText => "version text must not be empty"@,
        DomainError::EmptyManagerId => "manager id must not be empty"@,
        DomainError::EmptyToolId => "tool id must not be empty"@,
        DomainError::EmptyPackageName => "package name must not be empty"@,
        DomainError::EmptyToolName => "tool name must not be empty"@,
        DomainError::EmptyAuditPackageName => "audit package name must not be empty"@,
        DomainError::EmptyPlanItemId => "plan item id must not be empty"@,
        DomainError::DuplicatePlanItemId(id) => "duplicate plan item id `"@ + id@ + "`"@,
        DomainError::UnknownSelectedItem(id) => "selected item `"@ + id@ + "` is not in the plan"@,
        DomainError::DuplicateSelectedItem(id) => "selected item `"@ + id@ + "` is selected twice"@,
        DomainError::InvalidVersionPolicy(v) => "invalid version policy `"@ + v@ + "`"@,
    }
}

impl DomainError {
    /// What went wrong, in words.
    pub fn message(&self) -> (r: String)
        ensures
            r@ == domain_error_text(*self),
    {
        match self {
            DomainError::EmptyVersionText => "version text must not be empty".to_owned(),
            DomainError::EmptyManagerId => "manager id must not be empty".to_owned(),
            DomainError::EmptyToolId => "tool id must not be empty".to_owned(),
            DomainError::EmptyPackageName => "package name must not be empty".to_owned(),
            DomainError::EmptyToolName => "tool name must not be empty".to_owned(),
            DomainError::EmptyAuditPackageName => "audit package name must not be empty".to_owned(),
            DomainError::EmptyPlanItemId => "plan item id must not be empty".to_owned(),
            DomainError::DuplicatePlanItemId(id) => quoted("duplicate plan item id `", id, "`"),
            DomainError::UnknownSelectedItem(id) => quoted("selected item `", id, "` is not in the plan"),
            DomainError::DuplicateSelectedItem(id) => quoted("selected item `", id, "` is selected twice"),
            DomainError::InvalidVersionPolicy(v) => quoted("invalid version policy `", v, "`"),
        }
    }
}

fn quoted(before: &str, middle: &String, after: &str) -> (r: String)
    ensures
        r@ == before@ + middle@ + after@,
{
    let head = concat(before, middle.as_str());
    concat(head.as_str(), after)
}

#[derive(Debug)]
/// Version text exactly as a manager reports it; never blank.
pub struct VersionText {
    text: String,
}

impl View for VersionText {
    type V = Seq<char>;

    closed spec fn view(&self) -> Seq<char> {
        self.text@
    }
}

impl VersionText {
    #[verifier::type_invariant]
    spec fn not_blank(self) -> bool {
        !is_blank(self.text@)
    }

    /// Builds the value; blank text is refused.
    pub fn new(value: &str) -> (r: Result<Self, DomainError>)
        ensures
            r is Ok <==> !is_blank(value@),
            r matches Ok(v) ==> v@ == value@,
            r matches Err(e) ==> e == DomainError::EmptyVersionText,
    {
        if str_is_blank(value) {
            return Err(DomainError::EmptyVersionText);
        }
        Ok(VersionText { text: value.to_owned() })
    }

    pub fn as_str(&self) -> (r: &str)
        ensures
            r@ == self@,
            !is_blank(r@),
    {
        proof {
            use_type_invariant(self);
        }
        self.text.as_str()
    }

    /// Equality of the texts.
    pub fn same(&self, other: &Self) -> (r: bool)
        ensures
            r == (self@ == other@),
    {
        self.text == other.text
    }

}

impl PartialEq for VersionText {
    fn eq(&self, other: &Self) -> (r: bool) {
        self.text == other.text
    }
}

impl PartialEqSpecImpl for VersionText {
    open spec fn obeys_eq_spec() -> bool {
        true
    }

    open spec fn eq_spec(&self, other: &Self) -> bool {
        self@ == other@
    }
}

impl Eq for VersionText {}

impl Clone for VersionText {
    fn clone(&self) -> (r: Self)
        ensures
            r == *self,
    {
        proof {
            use_type_invariant(self);
        }
        VersionText { text: self.text.clone() }
    }
}

/// Identifier of a package manager, such as `npm`; never blank.
#[derive(Debug)]
pub struct ManagerId {
    text: String,
}

impl View for ManagerId {
    type V = Seq<char>;

    closed spec fn view(&self) -> Seq<char> {
        self.text@
    }
}

impl ManagerId {
    #[verifier::type_invariant]
    spec fn not_blank(self) -> bool {
        !is_blank(self.text@)
    }

    /// A manager's own fixed id, which is never blank.
    pub fn from_static(value: &'static str) -> (r: Self)
        requires
            !is_blank(value@),
        ensures
            r@ == value@,
    {
        ManagerId { text: value.to_owned() }
    }

    /// Builds the value; blank text is refused.
    pub fn new(value: &str) -> (r: Result<Self, DomainError>)
        ensures
            r is Ok <==> !is_blank(value@),
            r matches Ok(v) ==> v@ == value@,
            r matches Err(e) ==> e == DomainError::EmptyManagerId,
    {
        if str_is_blank(value) {
            return Err(DomainError::EmptyManagerId);
        }
        Ok(ManagerId { text: value.to_owned() })
    }

    pub fn as_str(&self) -> (r: &str)
        ensures
            r@ == self@,
            !is_blank(r@),
    {
        proof {
            use_type_invariant(self);
        }
        self.text.as_str()
    }

    /// Equality of the texts.
    pub fn same(&self, other: &Self) -> (r: bool)
        ensures
            r == (self@ == other@),
    {
        self.text == other.text
    }

}

impl PartialEq for ManagerId {
    fn eq(&self, other: &Self) -> (r: bool) {
        self.text == other.text
    }
}

impl PartialEqSpecImpl for ManagerId {
    open spec fn obeys_eq_spec() -> bool {
        true
    }

    open spec fn eq_spec(&self, other: &Self) -> bool {
        self@ == other@
    }
}

impl Eq for ManagerId {}

impl Clone for ManagerId {
    fn clone(&self) -> (r: Self)
        ensures
            r == *self,
    {
        proof {
            use_type_invariant(self);
        }
        ManagerId { text: self.text.clone() }
    }
}

/// Manager-scoped identifier of an installed tool; never blank.
#[derive(Debug)]
pub struct ToolId {
    text: String,
}

impl View for ToolId {
    type V = Seq<char>;

    closed spec fn view(&self) -> Seq<char> {
        self.text@
    }
}

impl ToolId {
    #[verifier::type_invariant]
    spec fn not_blank(self) -> bool {
        !is_blank(self.text@)
    }

    /// Builds the value; blank text is refused.
    pub fn new(value: &str) -> (r: Result<Self, DomainError>)
        ensures
            r is Ok <==> !is_blank(value@),
            r matches Ok(v) ==> v@ == value@,
            r matches Err(e) ==> e == DomainError::EmptyToolId,
    {
        if str_is_blank(value) {
            return Err(DomainError::EmptyToolId);
        }
        Ok(ToolId { text: value.to_owned() })
    }

    pub fn as_str(&self) -> (r: &str)
        ensures
            r@ == self@,
            !is_blank(r@),
    {
        proof {
            use_type_invariant(self);
        }
        self.text.as_str()
    }

    /// Equality of the texts.
    pub fn same(&self, other: &Self) -> (r: bool)
        ensures
            r == (self@ == other@),
    {
        self.text == other.text
    }

}

impl PartialEq for ToolId {
    fn eq(&self, other: &Self) -> (r: bool) {
        self.text == other.text
    }
}

impl PartialEqSpecImpl for ToolId {
    open spec fn obeys_eq_spec() -> bool {
        true
    }

    open spec fn eq_spec(&self, other: &Self) -> bool {
        self@ == other@
    }
}

impl Eq for ToolId {}

impl Clone for ToolId {
    fn clone(&self) -> (r: Self)
        ensures
            r == *self,
    {
        proof {
            use_type_invariant(self);
        }
        ToolId { text: self.text.clone() }
    }
}

/// Package name as the manager knows it; never blank.
#[derive(Debug)]
pub struct PackageName {
    text: String,
}

impl View for PackageName {
    type V = Seq<char>;

    closed spec fn view(&self) -> Seq<char> {
        self.text@
    }
}

impl PackageName {
    #[verifier::type_invariant]
    spec fn not_blank(self) -> bool {
        !is_blank(self.text@)
    }

    /// Builds the value; blank text is refused.
    pub fn new(value: &str) -> (r: Result<Self, DomainError>)
        ensures
            r is Ok <==> !is_blank(value@),
            r matches Ok(v) ==> v@ == value@,
            r matches Err(e) ==> e == DomainError::EmptyPackageName,
    {
        if str_is_blank(value) {
            return Err(DomainError::EmptyPackageName);
        }
        Ok(PackageName { text: value.to_owned() })
    }

    pub fn as_str(&self) -> (r: &str)
        ensures
            r@ == self@,
            !is_blank(r@),
    {
        proof {
            use_type_invariant(self);
        }
        self.text.as_str()
    }

    /// Equality of the texts.
    pub fn same(&self, other: &Self) -> (r: bool)
        ensures
            r == (self@ == other@),
    {
        self.text == other.text
    }

}

impl PartialEq for PackageName {
    fn eq(&self, other: &Self) -> (r: bool) {
        self.text == other.text
    }
}

impl PartialEqSpecImpl for PackageName {
    open spec fn obeys_eq_spec() -> bool {
        true
    }

    open spec fn eq_spec(&self, other: &Self) -> bool {
        self@ == other@
    }
}

impl Eq for PackageName {}

impl Clone for PackageName {
    fn clone(&self) -> (r: Self)
        ensures
            r == *self,
    {
        proof {
            use_type_invariant(self);
        }
        PackageName { text: self.text.clone() }
    }
}

/// Display name of a tool; never blank.
#[derive(Debug)]
pub struct ToolName {
    text: String,
}

impl View for ToolName {
    type V = Seq<char>;

    closed spec fn view(&self) -> Seq<char> {
        self.text@
    }
}

impl ToolName {
    #[verifier::type_invariant]
    spec fn not_blank(self) -> bool {
        !is_blank(self.text@)
    }

    /// Builds the value; blank text is refused.
    pub fn new(value: &str) -> (r: Result<Self, DomainError>)
        ensures
            r is Ok <==> !is_blank(value@),
            r matches Ok(v) ==> v@ == value@,
            r matches Err(e) ==> e == DomainError::EmptyToolName,
    {
        if str_is_blank(value) {
            return Err(DomainError::EmptyToolName);
        }
        Ok(ToolName { text: value.to_owned() })
    }

    pub fn as_str(&self) -> (r: &str)
        ensures
            r@ == self@,
            !is_blank(r@),
    {
        proof {
            use_type_invariant(self);
        }
        self.text.as_str()
    }

    /// Equality of the texts.
    pub fn same(&self, other: &Self) -> (r: bool)
        ensures
            r == (self@ == other@),
    {
        self.text == other.text
    }

}

impl PartialEq for ToolName {
    fn eq(&self, other: &Self) -> (r: bool) {
        self.text == other.text
    }
}

impl PartialEqSpecImpl for ToolName {
    open spec fn obeys_eq_spec() -> bool {
        true
    }

    open spec fn eq_spec(&self, other: &Self) -> bool {
        self@ == other@
    }
}

impl Eq for ToolName {}

impl Clone for ToolName {
    fn clone(&self) -> (r: Self)
        ensures
            r == *self,
    {
        proof {
            use_type_invariant(self);
        }
        ToolName { text: self.text.clone() }
    }
}

/// Package name in an OSV ecosystem; never blank.
#[derive(Debug)]
pub struct AuditPackageName {
    text: String,
}

impl View for AuditPackageName {
    type V = Seq<char>;

    closed spec fn view(&self) -> Seq<char> {
        self.text@
    }
}

impl AuditPackageName {
    #[verifier::type_invariant]
    spec fn not_blank(self) -> bool {
        !is_blank(self.text@)
    }

    /// Builds the value; blank text is refused.
    pub fn new(value: &str) -> (r: Result<Self, DomainError>)
        ensures
            r is Ok <==> !is_blank(value@),
            r matches Ok(v) ==> v@ == value@,
            r matches Err(e) ==> e == DomainError::EmptyAuditPackageName,
    {
        if str_is_blank(value) {
            return Err(DomainError::EmptyAuditPackageName);
        }
        Ok(AuditPackageName { text: value.to_owned() })
    }

    pub fn as_str(&self) -> (r: &str)
        ensures
            r@ == self@,
            !is_blank(r@),
    {
        proof {
            use_type_invariant(self);
        }
        self.text.as_str()
    }

    /// Equality of the texts.
    pub fn same(&self, other: &Self) -> (r: bool)
        ensures
            r == (self@ == other@),
    {
        self.text == other.text
    }

}

impl PartialEq for AuditPackageName {
    fn eq(&self, other: &Self) -> (r: bool) {
        self.text == other.text
    }
}

impl PartialEqSpecImpl for AuditPackageName {
    open spec fn obeys_eq_spec() -> bool {
        true
    }

    open spec fn eq_spec(&self, other: &Self) -> bool {
        self@ == other@
    }
}

impl Eq for AuditPackageName {}

impl Clone for AuditPackageName {
    fn clone(&self) -> (r: Self)
        ensures
            r == *self,
    {
        proof {
            use_type_invariant(self);
        }
        AuditPackageName { text: self.text.clone() }
    }
}

/// Identifier of one plan row, `manager:tool`; never blank.
#[derive(Debug)]
pub struct PlanItemId {
    text: String,
}

impl View for PlanItemId {
    type V = Seq<char>;

    closed spec fn view(&self) -> Seq<char> {
        self.text@
    }
}

impl PlanItemId {
    #[verifier::type_invariant]
    spec fn not_blank(self) -> bool {
        !is_blank(self.text@)
    }

    /// Builds the value; blank text is refused.
    pub fn new(value: &str) -> (r: Result<Self, DomainError>)
        ensures
            r is Ok <==> !is_blank(value@),
            r matches Ok(v) ==> v@ == value@,
            r matches Err(e) ==> e == DomainError::EmptyPlanItemId,
    {
        if str_is_blank(value) {
            return Err(DomainError::EmptyPlanItemId);
        }
        Ok(PlanItemId { text: value.to_owned() })
    }

    pub fn as_str(&self) -> (r: &str)
        ensures
            r@ == self@,
            !is_blank(r@),
    {
        proof {
            use_type_invariant(self);
        }
        self.text.as_str()
    }

    /// Equality of the texts.
    pub fn same(&self, other: &Self) -> (r: bool)
        ensures
            r == (self@ == other@),
    {
        self.text == other.text
    }

}

impl PartialEq for PlanItemId {
    fn eq(&self, other: &Self) -> (r: bool) {
        self.text == other.text
    }
}

impl PartialEqSpecImpl for PlanItemId {
    open spec fn obeys_eq_spec() -> bool {
        true
    }

    open spec fn eq_spec(&self, other: &Self) -> bool {
        self@ == other@
    }
}

impl Eq for PlanItemId {}

impl Clone for PlanItemId {
    fn clone(&self) -> (r: Self)
        ensures
            r == *self,
    {
        proof {
            use_type_invariant(self);
        }
        PlanItemId { text: self.text.clone() }
    }
}

/// How a manager spells its versions.
#[derive(Debug, Clone, Copy, PartialEq, Eq, Structural)]
pub enum VersionScheme {
    SemVer,
    Pep440,
    ManagerNative,
}

/// Which prereleases a manager may move to.
#[derive(Debug, Clone, Copy, PartialEq, Eq, Structural)]
pub enum VersionPolicy {
    /// Do not filter prereleases (`none` in configuration).
    Unfiltered,
    /// Final releases only.
    Stable,
    /// Stay at least as stable as the installed version.
    SameTrack,
}

#[derive(Debug, Clone, Copy, PartialEq, Eq, Structural)]
pub enum PolicyWarning {
    InstalledTrackUnknownFallbackStable,
}

pub open spec fn version_policy_name(policy: VersionPolicy) -> Seq<char> {
    match policy {
        VersionPolicy::Unfiltered => "none"@,
        VersionPolicy::Stable => "stable"@,
        VersionPolicy::SameTrack => "same-track"@,
    }
}

impl VersionPolicy {
    /// The configuration spelling of the policy.
    pub fn as_str(self) -> (r: &'static str)
        ensures
            r@ == version_policy_name(self),
    {
        match self {
            VersionPolicy::Unfiltered => "none",
            VersionPolicy::Stable => "stable",
            VersionPolicy::SameTrack => "same-track",
        }
    }

    /// Reads a configuration spelling: `none`, `stable` or `same-track`.
    pub fn parse(value: &str) -> (r: Result<VersionPolicy, DomainError>)
        ensures
            value@ == "none"@ ==> r == Ok::<VersionPolicy, DomainError>(VersionPolicy::Unfiltered),
            value@ == "stable"@ ==> r == Ok::<VersionPolicy, DomainError>(VersionPolicy::Stable),
            value@ == "same-track"@ ==> r == Ok::<VersionPolicy, DomainError>(
                VersionPolicy::SameTrack,
            ),
            r matches Ok(p) ==> version_policy_name(p) == value@,
            r matches Err(e) ==> (e matches DomainError::InvalidVersionPolicy(s) && s@ == value@),
    {
        proof {
            reveal_strlit("none");
            reveal_strlit("stable");
            reveal_strlit("same-track");
            assert("none"@.len() != "stable"@.len());
            assert("none"@.len() != "same-track"@.len());
            assert("stable"@.len() != "same-track"@.len());
        }
        if crate::text::str_eq(value, "none") {
            Ok(VersionPolicy::Unfiltered)
        } else if crate::text::str_eq(value, "stable") {
            Ok(VersionPolicy::Stable)
        } else if crate::text::str_eq(value, "same-track") {
            Ok(VersionPolicy::SameTrack)
        } else {
            Err(DomainError::InvalidVersionPolicy(value.to_owned()))
        }
    }
}

/// Manager-level shortcuts that are safe only when the selected plan matches
/// the manager-wide command semantics.
#[derive(Debug, Clone, Copy, PartialEq, Eq, Structural)]
pub struct ManagerCapabilities {
    pub native_global_update: bool,
    pub resolver_native_global_update: bool,
}

impl ManagerCapabilities {
    pub fn new() -> (r: Self)
        ensures
            !r.native_global_update,
            !r.resolver_native_global_update,
    {
        ManagerCapabilities { native_global_update: false, resolver_native_global_update: false }
    }

    pub fn with_native_global_update(self, native_global_update: bool) -> (r: Self)
        ensures
            r == (ManagerCapabilities { native_global_update, ..self }),
    {
        ManagerCapabilities { native_global_update, ..self }
    }

    pub fn with_resolver_native_global_update(self, resolver_native_global_update: bool) -> (r:
        Self)
        ensures
            r == (ManagerCapabilities { resolver_native_global_update, ..self }),
    {
        ManagerCapabilities { resolver_native_global_update, ..self }
    }
}

/// Extra facts a manager keeps about an installed tool.
#[derive(Debug)]
pub struct ManagerMetadata {
    pub entries: Vec<(String, String)>,
}

impl ManagerMetadata {
    pub fn empty() -> (r: Self)
        ensures
            r.entries@.len() == 0,
    {
        ManagerMetadata { entries: Vec::new() }
    }
}

impl Clone for ManagerMetadata {
    fn clone(&self) -> (r: Self)
        ensures
            crate::keyed::text_pairs(r.entries@) == crate::keyed::text_pairs(self.entries@),
    {
        let mut entries: Vec<(String, String)> = Vec::new();
        let mut i: usize = 0;
        while i < self.entries.len()
            invariant
                i <= self.entries@.len(),
                crate::keyed::text_pairs(entries@) == crate::keyed::text_pairs(self.entries@.take(i as int)),
            decreases self.entries@.len() - i,
        {
            let ghost before = crate::keyed::text_pairs(entries@);
            entries.push((self.entries[i].0.clone(), self.entries[i].1.clone()));
            assert(crate::keyed::text_pairs(entries@) =~= before.push(
                (self.entries@[i as int].0@, self.entries@[i as int].1@),
            ));
            assert(crate::keyed::text_pairs(self.entries@.take(i + 1)) =~= crate::keyed::text_pairs(
                self.entries@.take(i as int),
            ).push((self.entries@[i as int].0@, self.entries@[i as int].1@)));
            i = i + 1;
        }
        assert(self.entries@.take(self.entries@.len() as int) =~= self.entries@);
        ManagerMetadata { entries }
    }
}

/// OSV ecosystems that the audit can query.
#[derive(Debug, Clone, Copy, PartialEq, Eq, Structural)]
pub enum OsvEcosystem {
    Npm,
    CratesIo,
    Pypi,
    RubyGems,
    Go,
    NuGet,
    Git,
}

pub open spec fn osv_ecosystem_name(e: OsvEcosystem) -> Seq<char> {
    match e {
        OsvEcosystem::Npm => "npm"@,
        OsvEcosystem::CratesIo => "crates.io"@,
        OsvEcosystem::Pypi => "PyPI"@,
        OsvEcosystem::RubyGems => "RubyGems"@,
        OsvEcosystem::Go => "Go"@,
        OsvEcosystem::NuGet => "NuGet"@,
        OsvEcosystem::Git => "GIT"@,
    }
}

/// Each ecosystem goes to OSV under the name OSV defines for it.
pub proof fn law_osv_ecosystem_names()
    ensures
        osv_ecosystem_name(OsvEcosystem::Npm) == "npm"@,
        osv_ecosystem_name(OsvEcosystem::CratesIo) == "crates.io"@,
        osv_ecosystem_name(OsvEcosystem::Pypi) == "PyPI"@,
        osv_ecosystem_name(OsvEcosystem::RubyGems) == "RubyGems"@,
        osv_ecosystem_name(OsvEcosystem::Go) == "Go"@,
        osv_ecosystem_name(OsvEcosystem::NuGet) == "NuGet"@,
        osv_ecosystem_name(OsvEcosystem::Git) == "GIT"@,
{
}

/// Distinct ecosystems go to OSV under distinct names, so a package is
/// never looked up in another ecosystem.
pub proof fn law_osv_ecosystem_names_distinct(a: OsvEcosystem, b: OsvEcosystem)
    requires
        a != b,
    ensures
        osv_ecosystem_name(a) != osv_ecosystem_name(b),
{
    reveal_strlit("npm");
    reveal_strlit("crates.io");
    reveal_strlit("PyPI");
    reveal_strlit("RubyGems");
    reveal_strlit("Go");
    reveal_strlit("NuGet");
    reveal_strlit("GIT");
    law_osv_ecosystem_names();
    let na = osv_ecosystem_name(a);
    let nb = osv_ecosystem_name(b);
    if na == nb {
        assert(na.len() == nb.len());
        assert(na[0] == nb[0]);
        assert(na[na.len() - 1] == nb[nb.len() - 1]);
    }
}

impl OsvEcosystem {
    /// The ecosystem name that OSV expects.
    pub fn as_str(self) -> (r: &'static str)
        ensures
            r@ == osv_ecosystem_name(self),
    {
        match self {
            OsvEcosystem::Npm => "npm",
            OsvEcosystem::CratesIo => "crates.io",
            OsvEcosystem::Pypi => "PyPI",
            OsvEcosystem::RubyGems => "RubyGems",
            OsvEcosystem::Go => "Go",
            OsvEcosystem::NuGet => "NuGet",
            OsvEcosystem::Git => "GIT",
        }
    }
}

/// The package identity that an OSV lookup uses.
#[derive(Debug)]
pub struct AuditSubject {
    pub ecosystem: OsvEcosystem,
    pub package_name: AuditPackageName,
}

impl AuditSubject {
    pub fn new(ecosystem: OsvEcosystem, package_name: AuditPackageName) -> (r: Self)
        ensures
            r.ecosystem == ecosystem,
            r.package_name == package_name,
    {
        AuditSubject { ecosystem, package_name }
    }

    pub open spec fn same_as(self, other: AuditSubject) -> bool {
        self.ecosystem == other.ecosystem && self.package_name@ == other.package_name@
    }

    pub fn same(&self, other: &AuditSubject) -> (r: bool)
        ensures
            r == self.same_as(*other),
    {
        self.ecosystem == other.ecosystem && self.package_name.same(&other.package_name)
    }
}

impl Clone for AuditSubject {
    fn clone(&self) -> (r: Self)
        ensures
            r == *self,
    {
        AuditSubject { ecosystem: self.ecosystem, package_name: self.package_name.clone() }
    }
}

impl PartialEq for AuditSubject {
    fn eq(&self, other: &Self) -> (r: bool) {
        self.same(other)
    }
}

impl PartialEqSpecImpl for AuditSubject {
    open spec fn obeys_eq_spec() -> bool {
        true
    }

    open spec fn eq_spec(&self, other: &Self) -> bool {
        self.same_as(*other)
    }
}

impl Eq for AuditSubject {}

/// One package version to look up in OSV.
#[derive(Debug)]
pub struct AuditQuery {
    pub subject: AuditSubject,
    pub version: VersionText,
}

impl AuditQuery {
    pub fn new(subject: AuditSubject, version: VersionText) -> (r: Self)
        ensures
            r.subject == subject,
            r.version == version,
    {
        AuditQuery { subject, version }
    }

    pub open spec fn same_as(self, other: AuditQuery) -> bool {
        self.subject.same_as(other.subject) && self.version@ == other.version@
    }

    pub fn same(&self, other: &AuditQuery) -> (r: bool)
        ensures
            r == self.same_as(*other),
    {
        self.subject.same(&other.subject) && self.version.same(&other.version)
    }
}

impl Clone for AuditQuery {
    fn clone(&self) -> (r: Self)
        ensures
            r == *self,
    {
        AuditQuery { subject: self.subject.clone(), version: self.version.clone() }
    }
}

impl PartialEq for AuditQuery {
    fn eq(&self, other: &Self) -> (r: bool) {
        self.same(other)
    }
}

impl PartialEqSpecImpl for AuditQuery {
    open spec fn obeys_eq_spec() -> bool {
        true
    }

    open spec fn eq_spec(&self, other: &Self) -> bool {
        self.same_as(*other)
    }
}

impl Eq for AuditQuery {}

/// One OSV advisory.
#[derive(Debug)]
pub struct AuditFinding {
    pub id: String,
    pub aliases: Vec<String>,
    pub summary: Option<String>,
    pub severity: Option<String>,
    pub references: Vec<String>,
}

/// The text of an advisory, field by field.
pub struct FindingView {
    pub id: Seq<char>,
    pub aliases: Seq<Seq<char>>,
    pub summary: Option<Seq<char>>,
    pub severity: Option<Seq<char>>,
    pub references: Seq<Seq<char>>,
}

pub open spec fn strings_view(v: Seq<String>) -> Seq<Seq<char>> {
    v.map_values(|s: String| s@)
}

pub open spec fn opt_string_view(o: Option<String>) -> Option<Seq<char>> {
    match o {
        Some(s) => Some(s@),
        None => None,
    }
}

pub fn clone_strings(v: &Vec<String>) -> (r: Vec<String>)
    ensures
        strings_view(r@) == strings_view(v@),
{
    let mut r: Vec<String> = Vec::new();
    let mut i: usize = 0;
    while i < v.len()
        invariant
            i <= v@.len(),
            r@ == v@.take(i as int),
        decreases v@.len() - i,
    {
        r.push(v[i].clone());
        i = i + 1;
        assert(r@ =~= v@.take(i as int));
    }
    assert(v@.take(v@.len() as int) =~= v@);
    r
}

fn clone_opt_string(o: &Option<String>) -> (r: Option<String>)
    ensures
        r == *o,
{
    match o {
        Some(s) => Some(s.clone()),
        None => None,
    }
}

impl View for AuditFinding {
    type V = FindingView;

    open spec fn view(&self) -> FindingView {
        FindingView {
            id: self.id@,
            aliases: strings_view(self.aliases@),
            summary: opt_string_view(self.summary),
            severity: opt_string_view(self.severity),
            references: strings_view(self.references@),
        }
    }
}

impl Clone for AuditFinding {
    fn clone(&self) -> (r: Self)
        ensures
            r@ == self@,
    {
        AuditFinding {
            id: self.id.clone(),
            aliases: clone_strings(&self.aliases),
            summary: clone_opt_string(&self.summary),
            severity: clone_opt_string(&self.severity),
            references: clone_strings(&self.references),
        }
    }
}

pub open spec fn findings_view(v: Seq<AuditFinding>) -> Seq<FindingView> {
    v.map_values(|f: AuditFinding| f@)
}

pub fn clone_findings(v: &Vec<AuditFinding>) -> (r: Vec<AuditFinding>)
    ensures
        findings_view(r@) == findings_view(v@),
{
    let mut r: Vec<AuditFinding> = Vec::new();
    let mut i: usize = 0;
    while i < v.len()
        invariant
            i <= v@.len(),
            r@.len() == i,
            forall|k: int| 0 <= k < i ==> #[trigger] r@[k]@ == v@[k]@,
        decreases v@.len() - i,
    {
        r.push(v[i].clone());
        i = i + 1;
    }
    assert(findings_view(r@) =~= findings_view(v@));
    r
}

/// An audit answer with its advisories read as text.
pub enum AuditView {
    Clean,
    Vulnerable(Seq<FindingView>),
    LookupFailed(Seq<char>),
}

/// What an OSV lookup answered for one package version.
#[derive(Debug)]
pub enum AuditLookupResult {
    Clean,
    Vulnerable { findings: Vec<AuditFinding> },
    LookupFailed { detail: String },
}

impl View for AuditLookupResult {
    type V = AuditView;

    open spec fn view(&self) -> AuditView {
        match self {
            AuditLookupResult::Clean => AuditView::Clean,
            AuditLookupResult::Vulnerable { findings } => AuditView::Vulnerable(
                findings_view(findings@),
            ),
            AuditLookupResult::LookupFailed { detail } => AuditView::LookupFailed(detail@),
        }
    }
}

impl Clone for AuditLookupResult {
    fn clone(&self) -> (r: Self)
        ensures
            r@ == self@,
    {
        match self {
            AuditLookupResult::Clean => AuditLookupResult::Clean,
            AuditLookupResult::Vulnerable { findings } => AuditLookupResult::Vulnerable {
                findings: clone_findings(findings),
            },
            AuditLookupResult::LookupFailed { detail } => AuditLookupResult::LookupFailed {
                detail: detail.clone(),
            },
        }
    }
}

/// An audit answer attached to a planning candidate.
#[derive(Debug)]
pub enum CandidateAuditFact {
    Clean,
    Vulnerable { findings: Vec<AuditFinding> },
    LookupFailed { detail: String },
}

impl View for CandidateAuditFact {
    type V = AuditView;

    open spec fn view(&self) -> AuditView {
        match self {
            CandidateAuditFact::Clean => AuditView::Clean,
            CandidateAuditFact::Vulnerable { findings } => AuditView::Vulnerable(
                findings_view(findings@),
            ),
            CandidateAuditFact::LookupFailed { detail } => AuditView::LookupFailed(detail@),
        }
    }
}

impl Clone for CandidateAuditFact {
    fn clone(&self) -> (r: Self)
        ensures
            r@ == self@,
    {
        match self {
            CandidateAuditFact::Clean => CandidateAuditFact::Clean,
            CandidateAuditFact::Vulnerable { findings } => CandidateAuditFact::Vulnerable {
                findings: clone_findings(findings),
            },
            CandidateAuditFact::LookupFailed { detail } => CandidateAuditFact::LookupFailed {
                detail: detail.clone(),
            },
        }
    }
}

/// An audit answer attached to an installed version.
#[derive(Debug)]
pub enum ScanAuditFact {
    Clean,
    Vulnerable { findings: Vec<AuditFinding> },
    LookupFailed { detail: String },
}

impl View for ScanAuditFact {
    type V = AuditView;

    open spec fn view(&self) -> AuditView {
        match self {
            ScanAuditFact::Clean => AuditView::Clean,
            ScanAuditFact::Vulnerable { findings } => AuditView::Vulnerable(findings_view(findings@)),
            ScanAuditFact::LookupFailed { detail } => AuditView::LookupFailed(detail@),
        }
    }
}

impl CandidateAuditFact {
    /// The same answer, variant for variant.
    pub fn from_lookup(r: &AuditLookupResult) -> (f: CandidateAuditFact)
        ensures
            f@ == r@,
    {
        match r {
            AuditLookupResult::Clean => CandidateAuditFact::Clean,
            AuditLookupResult::Vulnerable { findings } => CandidateAuditFact::Vulnerable {
                findings: clone_findings(findings),
            },
            AuditLookupResult::LookupFailed { detail } => CandidateAuditFact::LookupFailed {
                detail: detail.clone(),
            },
        }
    }

    /// The same answer as an audit lookup result.
    pub fn to_lookup(&self) -> (r: AuditLookupResult)
        ensures
            r@ == self@,
    {
        match self {
            CandidateAuditFact::Clean => AuditLookupResult::Clean,
            CandidateAuditFact::Vulnerable { findings } => AuditLookupResult::Vulnerable {
                findings: clone_findings(findings),
            },
            CandidateAuditFact::LookupFailed { detail } => AuditLookupResult::LookupFailed {
                detail: detail.clone(),
            },
        }
    }
}

impl ScanAuditFact {
    /// The same answer, variant for variant.
    pub fn from_lookup(r: &AuditLookupResult) -> (f: ScanAuditFact)
        ensures
            f@ == r@,
    {
        match r {
            AuditLookupResult::Clean => ScanAuditFact::Clean,
            AuditLookupResult::Vulnerable { findings } => ScanAuditFact::Vulnerable {
                findings: clone_findings(findings),
            },
            AuditLookupResult::LookupFailed { detail } => ScanAuditFact::LookupFailed {
                detail: detail.clone(),
            },
        }
    }
}

/// A tool that a manager reports as installed.
#[derive(Debug)]
pub struct InstalledTool {
    pub manager_id: ManagerId,
    pub tool_id: ToolId,
    pub package_name: PackageName,
    pub tool_name: ToolName,
    pub installed_version: VersionText,
    pub metadata: ManagerMetadata,
    pub audit_subject: Option<AuditSubject>,
}

impl InstalledTool {
    pub fn new(
        manager_id: ManagerId,
        tool_id: ToolId,
        package_name: PackageName,
        tool_name: ToolName,
        installed_version: VersionText,
        metadata: ManagerMetadata,
    ) -> (r: Self)
        ensures
            r == (InstalledTool {
                manager_id,
                tool_id,
                package_name,
                tool_name,
                installed_version,
                metadata,
                audit_subject: None,
            }),
    {
        InstalledTool {
            manager_id,
            tool_id,
            package_name,
            tool_name,
            installed_version,
            metadata,
            audit_subject: None,
        }
    }

    pub fn with_audit_subject(self, audit_subject: AuditSubject) -> (r: Self)
        ensures
            r == (InstalledTool { audit_subject: Some(audit_subject), ..self }),
    {
        InstalledTool { audit_subject: Some(audit_subject), ..self }
    }
}

impl Clone for InstalledTool {
    fn clone(&self) -> (r: Self)
        ensures
            r.manager_id == self.manager_id,
            r.tool_id == self.tool_id,
            r.package_name == self.package_name,
            r.tool_name == self.tool_name,
            r.installed_version == self.installed_version,
            crate::keyed::text_pairs(r.metadata.entries@) == crate::keyed::text_pairs(self.metadata.entries@),
            r.audit_subject == self.audit_subject,
    {
        let audit_subject = match &self.audit_subject {
            Some(s) => Some(s.clone()),
            None => None,
        };
        InstalledTool {
            manager_id: self.manager_id.clone(),
            tool_id: self.tool_id.clone(),
            package_name: self.package_name.clone(),
            tool_name: self.tool_name.clone(),
            installed_version: self.installed_version.clone(),
            metadata: self.metadata.clone(),
            audit_subject,
        }
    }
}


/// The tool a manager reports for package `name` at `version`: id, package
/// and tool name are all `name`; no metadata and no audit identity yet.
pub open spec fn is_package_tool(t: InstalledTool, manager: Seq<char>, name: Seq<char>, version: VersionText) -> bool {
    &&& t.manager_id@ == manager
    &&& t.tool_id@ == name
    &&& t.package_name@ == name
    &&& t.tool_name@ == name
    &&& t.installed_version == version
    &&& t.metadata.entries@.len() == 0
}

pub fn package_tool(manager_id: ManagerId, name: &PackageName, version: VersionText) -> (r: InstalledTool)
    ensures
        is_package_tool(r, manager_id@, name@, version),
        r.audit_subject is None,
{
    let text = name.as_str();
    let tool_id = ToolId::new(text).unwrap();
    let tool_name = ToolName::new(text).unwrap();
    InstalledTool::new(manager_id, tool_id, name.clone(), tool_name, version, ManagerMetadata::empty())
}

/// The audit identity `ecosystem` / `name` of a package.
pub fn package_audit_subject(ecosystem: OsvEcosystem, name: &PackageName) -> (r: AuditSubject)
    ensures
        r.ecosystem == ecosystem,
        r.package_name@ == name@,
{
    AuditSubject::new(ecosystem, AuditPackageName::new(name.as_str()).unwrap())
}

} // verus!
