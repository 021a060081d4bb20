//! Rollback execution: the order in which recorded operations are undone, the
//! conflicts reported beforehand, the step each undo calls for, and the tally.

use vstd::prelude::*;
use crate::error::Error;
use crate::models::rollback::{Rollback, RollbackActionType, RollbackOperation};
use crate::utils::text::{chars_of, push_str, string_of};

verus! {

/// Rollback executor.
#[derive(Debug, Clone)]
pub struct RollbackExecutor {
    /// Whether to verify checksums before rollback.
    pub verify_checksum: bool,
}

impl RollbackExecutor {
    /// Create a new rollback executor (checksums are verified).
    pub fn new() -> (r: Self)
        ensures
            r.verify_checksum,
    {
        RollbackExecutor { verify_checksum: true }
    }

    /// Conflicts to report before undoing `rollback`, given what the file
    /// system reports for each operation (`facts[i]` for `operations[i]`).
    pub fn check_conflicts(&self, rollback: &Rollback, facts: &Vec<UndoFacts>) -> (r: Vec<String>)
        requires
            facts@.len() == rollback.operations@.len(),
        ensures
            views(r@) == all_conflicts(rollback.operations@, facts@, self.verify_checksum),
    {
        let mut out: Vec<String> = Vec::new();
        let mut i: usize = 0;
        while i < rollback.operations.len()
            invariant
                i <= rollback.operations@.len(),
                facts@.len() == rollback.operations@.len(),
                views(out@) == all_conflicts(
                    rollback.operations@.take(i as int),
                    facts@.take(i as int),
                    self.verify_checksum,
                ),
            decreases rollback.operations@.len() - i,
        {
            let op = &rollback.operations[i];
            let f = facts[i];
            let ghost before = out@;
            match op.rollback.op {
                RollbackActionType::Move => {
                    if !f.path_exists {
                        let mut m = chars_of("File not found at target: ");
                        push_str(&mut m, op.rollback.path.as_str());
                        out.push(string_of(&m));
                    }
                    match &op.rollback.to {
                        Some(orig) => {
                            if f.original_exists {
                                let mut m = chars_of("Original location occupied: ");
                                push_str(&mut m, orig.as_str());
                                out.push(string_of(&m));
                            }
                        },
                        None => {},
                    }
                    if self.verify_checksum && op.checksum.is_some() && f.path_exists
                        && f.checksum_matches == Some(false) {
                        let mut m = chars_of("File modified since execution: ");
                        push_str(&mut m, op.rollback.path.as_str());
                        out.push(string_of(&m));
                    }
                },
                RollbackActionType::Delete => {},
                RollbackActionType::Rmdir => {
                    if f.path_exists && f.dir_nonempty {
                        let mut m = chars_of("Directory not empty: ");
                        push_str(&mut m, op.rollback.path.as_str());
                        out.push(string_of(&m));
                    }
                },
            }
            proof {
                assert(rollback.operations@.take(i + 1).drop_last() =~= rollback.operations@.take(
                    i as int,
                ));
                assert(facts@.take(i + 1).drop_last() =~= facts@.take(i as int));
                assert(views(out@) =~= views(before) + op_conflicts(*op, f, self.verify_checksum));
            }
            i = i + 1;
        }
        assert(rollback.operations@.take(rollback.operations@.len() as int)
            =~= rollback.operations@);
        assert(facts@.take(facts@.len() as int) =~= facts@);
        out
    }
}

impl Default for RollbackExecutor {
    fn default() -> (r: Self)
        ensures
            r.verify_checksum,
    {
        Self::new()
    }
}

/// What the file system reports for one recorded operation before undoing it.
#[derive(Debug, Clone, Copy)]
pub struct UndoFacts {
    /// Whether the action's path exists.
    pub path_exists: bool,
    /// For a move back: whether the original location is occupied.
    pub original_exists: bool,
    /// For a move back: whether the file still has its recorded checksum
    /// (`None` when it was not or could not be computed).
    pub checksum_matches: Option<bool>,
    /// For a directory: whether it could be read and holds entries.
    pub dir_nonempty: bool,
}

pub open spec fn views(v: Seq<String>) -> Seq<Seq<char>> {
    v.map_values(|s: String| s@)
}

/// Conflicts found for one operation.
pub open spec fn op_conflicts(op: RollbackOperation, f: UndoFacts, verify_checksum: bool) -> Seq<
    Seq<char>,
> {
    match op.rollback.op {
        RollbackActionType::Move => (if !f.path_exists {
            seq!["File not found at target: "@ + op.rollback.path@]
        } else {
            Seq::empty()
        }) + (match op.rollback.to {
            Some(o) => if f.original_exists {
                seq!["Original location occupied: "@ + o@]
            } else {
                Seq::empty()
            },
            None => Seq::empty(),
        }) + (if verify_checksum && op.checksum is Some && f.path_exists && f.checksum_matches
            == Some(false) {
            seq!["File modified since execution: "@ + op.rollback.path@]
        } else {
            Seq::empty()
        }),
        RollbackActionType::Delete => Seq::empty(),
        RollbackActionType::Rmdir => if f.path_exists && f.dir_nonempty {
            seq!["Directory not empty: "@ + op.rollback.path@]
        } else {
            Seq::empty()
        },
    }
}

/// Conflicts of all operations, in recorded order.
pub open spec fn all_conflicts(ops: Seq<RollbackOperation>, facts: Seq<UndoFacts>, verify: bool) -> Seq<
    Seq<char>,
>
    decreases ops.len(),
{
    if ops.len() == 0 || facts.len() == 0 {
        Seq::empty()
    } else {
        all_conflicts(ops.drop_last(), facts.drop_last(), verify) + op_conflicts(
            ops.last(),
            facts.last(),
            verify,
        )
    }
}

/// The operations of a rollback in the order they are undone: last first.
pub fn undo_order(rollback: Rollback) -> (r: Vec<RollbackOperation>)
    ensures
        r@ == rollback.operations@.reverse(),
{
    let ghost all = rollback.operations@;
    let mut ops = rollback.operations;
    let mut r: Vec<RollbackOperation> = Vec::new();
    while ops.len() > 0
        invariant
            ops@.len() <= all.len(),
            ops@ == all.subrange(0, ops@.len() as int),
            r@ == all.subrange(ops@.len() as int, all.len() as int).reverse(),
        decreases ops@.len(),
    {
        let ghost k = ops@.len();
        match ops.pop() {
            Some(op) => {
                r.push(op);
            },
            None => {},
        }
        assert(ops@ =~= all.subrange(0, ops@.len() as int));
        assert(r@ =~= all.subrange(ops@.len() as int, all.len() as int).reverse());
    }
    assert(all.subrange(0, all.len() as int) =~= all);
    r
}

/// The file-system work that undoes one operation.
#[derive(Debug, Clone)]
pub enum UndoStep {
    /// Move `from` back to `to`, creating the parent of `to` when missing.
    MoveBack { from: String, to: String },
    /// Delete the created file.
    Delete { path: String },
    /// Remove the created (empty) directory.
    RemoveDir { path: String },
    /// Nothing to do: already undone or not safe to undo.
    Skip,
}

/// The step that undoes `op`: missing paths are skipped, as are directories
/// that are not empty; a move back without its destination is an error.
pub fn undo_step(op: &RollbackOperation, facts: &UndoFacts) -> (r: Result<UndoStep, Error>)
    ensures
        match op.rollback.op {
            RollbackActionType::Move => match op.rollback.to {
                None => r matches Err(Error::RollbackConflict(m)) && m@
                    == "Move rollback missing 'to' path"@,
                Some(t) => if !facts.path_exists {
                    r matches Ok(UndoStep::Skip)
                } else {
                    r matches Ok(UndoStep::MoveBack { from, to }) && from@ == op.rollback.path@
                        && to@ == t@
                },
            },
            RollbackActionType::Delete => if !facts.path_exists {
                r matches Ok(UndoStep::Skip)
            } else {
                r matches Ok(UndoStep::Delete { path }) && path@ == op.rollback.path@
            },
            RollbackActionType::Rmdir => if !facts.path_exists || facts.dir_nonempty {
                r matches Ok(UndoStep::Skip)
            } else {
                r matches Ok(UndoStep::RemoveDir { path }) && path@ == op.rollback.path@
            },
        },
{
    match op.rollback.op {
        RollbackActionType::Move => match &op.rollback.to {
            None => Err(Error::RollbackConflict("Move rollback missing 'to' path".to_string())),
            Some(t) => if !facts.path_exists {
                Ok(UndoStep::Skip)
            } else {
                Ok(UndoStep::MoveBack { from: op.rollback.path.clone(), to: t.clone() })
            },
        },
        RollbackActionType::Delete => if !facts.path_exists {
            Ok(UndoStep::Skip)
        } else {
            Ok(UndoStep::Delete { path: op.rollback.path.clone() })
        },
        RollbackActionType::Rmdir => if !facts.path_exists || facts.dir_nonempty {
            Ok(UndoStep::Skip)
        } else {
            Ok(UndoStep::RemoveDir { path: op.rollback.path.clone() })
        },
    }
}

/// Result of a rollback execution.
#[derive(Debug, Clone)]
pub struct RollbackResult {
    pub success_count: usize,
    pub skip_count: usize,
    pub error_count: usize,
    pub errors: Vec<String>,
}

impl Default for RollbackResult {
    fn default() -> (r: Self)
        ensures
            r.success_count == 0,
            r.skip_count == 0,
            r.error_count == 0,
            r.errors@.len() == 0,
    {
        RollbackResult { success_count: 0, skip_count: 0, error_count: 0, errors: Vec::new() }
    }
}

/// Outcome of undoing one operation.
#[derive(Debug, Clone)]
pub enum UndoOutcome {
    Done,
    Skipped,
    /// Failed, with the message to report.
    Failed(String),
}

impl RollbackResult {
    /// Check if rollback was successful.
    pub fn is_success(&self) -> (r: bool)
        ensures
            r == (self.error_count == 0),
    {
        self.error_count == 0
    }

    /// The tally of a dry run over `operations`: each one counts as done,
    /// and nothing is skipped or fails.
    pub fn dry_run(operations: &Vec<RollbackOperation>) -> (r: Self)
        ensures
            r.success_count == operations@.len(),
            r.skip_count == 0,
            r.error_count == 0,
            r.errors@.len() == 0,
    {
        let mut r = RollbackResult { success_count: 0, skip_count: 0, error_count: 0, errors: Vec::new() };
        let mut i: usize = 0;
        while i < operations.len()
            invariant
                i <= operations@.len(),
                r.success_count == i,
                r.skip_count == 0,
                r.error_count == 0,
                r.errors@.len() == 0,
            decreases operations@.len() - i,
        {
            r.record(UndoOutcome::Done);
            i = i + 1;
        }
        r
    }

    /// Count one outcome.
    pub fn record(&mut self, outcome: UndoOutcome)
        requires
            old(self).success_count < usize::MAX,
            old(self).skip_count < usize::MAX,
            old(self).error_count < usize::MAX,
        ensures
            match outcome {
                UndoOutcome::Done => final(self).success_count == old(self).success_count + 1
                    && final(self).skip_count == old(self).skip_count && final(self).error_count
                    == old(self).error_count && final(self).errors@ == old(self).errors@,
                UndoOutcome::Skipped => final(self).success_count == old(self).success_count
                    && final(self).skip_count == old(self).skip_count + 1
                    && final(self).error_count == old(self).error_count && final(self).errors@
                    == old(self).errors@,
                UndoOutcome::Failed(m) => final(self).success_count == old(self).success_count
                    && final(self).skip_count == old(self).skip_count && final(self).error_count
                    == old(self).error_count + 1 && final(self).errors@ == old(self).errors@.push(
                    m,
                ),
            },
    {
        match outcome {
            UndoOutcome::Done => {
                self.success_count = self.success_count + 1;
            },
            UndoOutcome::Skipped => {
                self.skip_count = self.skip_count + 1;
            },
            UndoOutcome::Failed(m) => {
                self.errors.push(m);
                self.error_count = self.error_count + 1;
            },
        }
    }
}

} // verus!
