//! What running the selected updates of one manager did, item by item.
use vstd::prelude::*;

use crate::domain::{ManagerId, PackageName, PlanItemId, VersionText};

verus! {

/// The version an executed update moved to.
#[derive(Debug)]
pub enum ResolvedExecutionTarget {
    Known(VersionText),
    ManagerResolved,
}

/// How the command of one item ended.
#[derive(Debug)]
pub enum ExecutionStatus {
    Succeeded { command: String, skipped_mutation: bool },
    Failed { command: String, detail: String },
}

/// The result of one executed item.
#[derive(Debug)]
pub struct ExecutionItemResult {
    pub plan_item_id: PlanItemId,
    pub package_name: PackageName,
    pub installed_version: VersionText,
    pub target: ResolvedExecutionTarget,
    pub status: ExecutionStatus,
}

/// The results of one manager's executed items, in execution order.
#[derive(Debug)]
pub struct ExecutionReport {
    pub manager_id: ManagerId,
    pub items: Vec<ExecutionItemResult>,
}

pub open spec fn report_has_failures(items: Seq<ExecutionItemResult>) -> bool {
    exists|i: int| 0 <= i < items.len() && (#[trigger] items[i]).status is Failed
}

/// Whether any item of the report failed.
pub fn execution_report_has_failures(report: &ExecutionReport) -> (r: bool)
    ensures
        r == report_has_failures(report.items@),
{
    let mut i: usize = 0;
    while i < report.items.len()
        invariant
            i <= report.items@.len(),
            forall|k: int| 0 <= k < i ==> !((#[trigger] report.items@[k]).status is Failed),
        decreases report.items@.len() - i,
    {
        if let ExecutionStatus::Failed { .. } = &report.items[i].status {
            return true;
        }
        i = i + 1;
    }
    false
}

} // verus!
