//! What the CLI knows of the package managers: which ones exist, in which
//! order they run, and how their failures are classified.
use vstd::prelude::*;

use crate::domain::ManagerId;
use crate::text::{concat, str_eq};

verus! {

/// How a manager adapter failed.
#[derive(Debug, Clone, Copy, PartialEq, Eq, Structural)]
pub enum ManagerAdapterErrorKind {
    Interrupted,
    Parse,
    CommandConstruction,
    Infra,
}

/// A failure of a manager adapter, or a manager the CLI does not know.
#[derive(Debug)]
pub enum ManagerAdapterError {
    UnknownManager(String),
    Manager { kind: ManagerAdapterErrorKind, detail: String },
}

pub open spec fn adapter_error_text(e: ManagerAdapterError) -> Seq<char> {
    match e {
        ManagerAdapterError::UnknownManager(id) => "unknown manager `"@ + id@ + "`"@,
        ManagerAdapterError::Manager { detail, .. } => detail@,
    }
}

impl ManagerAdapterError {
    /// Whether the failure is a user interruption.
    pub fn is_interruption(&self) -> (r: bool)
        ensures
            r == (self matches ManagerAdapterError::Manager { kind, .. } && kind
                == ManagerAdapterErrorKind::Interrupted),
    {
        match self {
            ManagerAdapterError::Manager { kind: ManagerAdapterErrorKind::Interrupted, .. } => true,
            _ => false,
        }
    }

    /// What went wrong, in words.
    pub fn message(&self) -> (r: String)
        ensures
            r@ == adapter_error_text(*self),
    {
        match self {
            ManagerAdapterError::UnknownManager(id) => {
                let a = concat("unknown manager `", id.as_str());
                concat(a.as_str(), "`")
            },
            ManagerAdapterError::Manager { detail, .. } => detail.clone(),
        }
    }
}

/// The managers the CLI knows, in its default processing order.
pub open spec fn known_manager_names() -> Seq<Seq<char>> {
    seq![
        "brew"@,
        "pnpm"@,
        "npm"@,
        "bun"@,
        "cargo"@,
        "pipx"@,
        "go"@,
        "mise"@,
        "gem"@,
        "dotnet"@,
        "uv"@,
    ]
}

fn static_id(name: &'static str) -> (r: ManagerId)
    requires
        name@.len() > 0,
        !crate::text::is_ws(name@[0]),
    ensures
        r@ == name@,
{
    ManagerId::from_static(name)
}

/// The ids of every known manager, in the order the CLI runs them.
pub fn available_manager_ids() -> (r: Vec<ManagerId>)
    ensures
        r@.len() == known_manager_names().len(),
        forall|i: int| 0 <= i < r@.len() ==> (#[trigger] r@[i])@ == known_manager_names()[i],
{
    proof {
        reveal_strlit("brew");
        reveal_strlit("pnpm");
        reveal_strlit("npm");
        reveal_strlit("bun");
        reveal_strlit("cargo");
        reveal_strlit("pipx");
        reveal_strlit("go");
        reveal_strlit("mise");
        reveal_strlit("gem");
        reveal_strlit("dotnet");
        reveal_strlit("uv");
    }
    let mut v: Vec<ManagerId> = Vec::new();
    v.push(static_id("brew"));
    v.push(static_id("pnpm"));
    v.push(static_id("npm"));
    v.push(static_id("bun"));
    v.push(static_id("cargo"));
    v.push(static_id("pipx"));
    v.push(static_id("go"));
    v.push(static_id("mise"));
    v.push(static_id("gem"));
    v.push(static_id("dotnet"));
    v.push(static_id("uv"));
    v
}

/// Accepts the id of a known manager.
pub fn ensure_known_manager(manager_id: &str) -> (r: Result<(), ManagerAdapterError>)
    ensures
        r is Ok <==> known_manager_names().contains(manager_id@),
        r matches Err(e) ==> (e matches ManagerAdapterError::UnknownManager(id) && id@ == manager_id@),
{
    let ids = available_manager_ids();
    let mut i: usize = 0;
    while i < ids.len()
        invariant
            i <= ids@.len(),
            ids@.len() == known_manager_names().len(),
            forall|k: int| 0 <= k < ids@.len() ==> (#[trigger] ids@[k])@ == known_manager_names()[k],
            forall|k: int| 0 <= k < i ==> known_manager_names()[k] != manager_id@,
        decreases ids@.len() - i,
    {
        if str_eq(ids[i].as_str(), manager_id) {
            assert(known_manager_names()[i as int] == manager_id@);
            return Ok(());
        }
        i = i + 1;
    }
    Err(ManagerAdapterError::UnknownManager(manager_id.to_owned()))
}

} // verus!
