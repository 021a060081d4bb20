//! Rollback data model: what was done, and how to undo it.

use vstd::prelude::*;

verus! {

/// Rollback file structure.
#[derive(Debug, Clone)]
pub struct Rollback {
    pub version: String,
    /// Reference to the original plan ID.
    pub plan_id: String,
    /// Execution timestamp.
    pub executed_at: String,
    /// Operations performed, in execution order.
    pub operations: Vec<RollbackOperation>,
}

impl Default for Rollback {
    fn default() -> (r: Self)
        ensures
            r.version@ == Seq::<char>::empty(),
            r.plan_id@ == Seq::<char>::empty(),
            r.executed_at@ == Seq::<char>::empty(),
            r.operations@.len() == 0,
    {
        Rollback {
            version: String::new(),
            plan_id: String::new(),
            executed_at: String::new(),
            operations: Vec::new(),
        }
    }
}

/// A single performed operation.
#[derive(Debug, Clone)]
pub struct RollbackOperation {
    /// Sequence number.
    pub seq: u32,
    /// Operation type that was performed.
    pub op_type: RollbackOpType,
    /// Source path (original location).
    pub from: String,
    /// Destination path (new location).
    pub to: String,
    /// File checksum (for verification).
    pub checksum: Option<String>,
    /// Action that undoes this operation.
    pub rollback: RollbackAction,
    /// Whether this operation was executed.
    pub executed: bool,
}

/// Operation type for rollback tracking.
#[derive(Debug, Clone, Copy, PartialEq, Eq, Structural)]
pub enum RollbackOpType {
    Mkdir,
    Move,
    Create,
    Download,
}

/// Action to undo an operation.
#[derive(Debug, Clone)]
pub struct RollbackAction {
    pub op: RollbackActionType,
    /// Path the action works on.
    pub path: String,
    /// Destination (for moves back).
    pub to: Option<String>,
}

/// Rollback action type.
#[derive(Debug, Clone, Copy, PartialEq, Eq, Structural)]
pub enum RollbackActionType {
    /// Remove a directory.
    Rmdir,
    /// Move file back.
    Move,
    /// Delete a created file.
    Delete,
}

/// The action recorded with an operation is its inverse: a created directory is
/// removed, a moved file is moved back, a written file is deleted.
pub open spec fn undoes(op: RollbackOperation) -> bool {
    match op.op_type {
        RollbackOpType::Mkdir => op.rollback.op == RollbackActionType::Rmdir && op.rollback.path@
            == op.to@,
        RollbackOpType::Move => op.rollback.op == RollbackActionType::Move && op.rollback.path@
            == op.to@ && op.rollback.to is Some && op.rollback.to->0@ == op.from@,
        _ => op.rollback.op == RollbackActionType::Delete && op.rollback.path@ == op.to@,
    }
}

} // verus!
