//! Plan execution: validation, the step each operation calls for, and the
//! rollback record of every performed operation. The file-system work itself
//! is done by the caller, which reports each outcome back.

use vstd::prelude::*;
use crate::error::Error;
use crate::models::media::MediaType;
use crate::models::plan::{Operation, OperationType, Plan, PlanItem, PlanItemStatus};
use crate::models::rollback::{
    undoes, Rollback, RollbackAction, RollbackActionType, RollbackOpType, RollbackOperation,
};
use crate::engine::clock::{new_uuid, now_rfc3339, rfc3339_text, utc_time_valid, uuid_v4_text, UtcTime};
use crate::engine::planner::debug_quoted;
use crate::utils::fs::file_name;
use crate::utils::text::{chars_of, decimal, decimal_chars, push_all, push_str, string_of};

verus! {

/// Executor configuration.
#[derive(Debug, Clone)]
pub struct ExecutorConfig {
    /// Whether to verify checksums after moving files.
    pub verify_checksum: bool,
    /// Whether a plan whose targets already exist passes validation (such
    /// targets are then skipped, never overwritten).
    pub backup_on_overwrite: bool,
}

impl Default for ExecutorConfig {
    fn default() -> (r: Self)
        ensures
            r.verify_checksum,
            r.backup_on_overwrite,
    {
        ExecutorConfig { verify_checksum: true, backup_on_overwrite: true }
    }
}

/// What the file system reports for a plan item before execution.
#[derive(Debug, Clone, Copy)]
pub struct ItemFacts {
    pub source_exists: bool,
    pub target_exists: bool,
}

/// Problems that block the execution of one item.
pub open spec fn item_messages(item: PlanItem, facts: ItemFacts, backup_on_overwrite: bool) -> Seq<
    Seq<char>,
> {
    if item.status != PlanItemStatus::Pending {
        Seq::empty()
    } else {
        (if !facts.source_exists {
            seq!["Source file not found: "@ + item.source.path@]
        } else {
            Seq::empty()
        }) + (if facts.target_exists && !backup_on_overwrite {
            seq!["Target file already exists: "@ + item.target.full_path@]
        } else {
            Seq::empty()
        })
    }
}

/// Problems of all pending items, in item order.
pub open spec fn validation_messages(
    items: Seq<PlanItem>,
    facts: Seq<ItemFacts>,
    backup_on_overwrite: bool,
) -> Seq<Seq<char>>
    decreases items.len(),
{
    if items.len() == 0 || facts.len() == 0 {
        Seq::empty()
    } else {
        validation_messages(items.drop_last(), facts.drop_last(), backup_on_overwrite)
            + item_messages(items.last(), facts.last(), backup_on_overwrite)
    }
}

pub open spec fn views(v: Seq<String>) -> Seq<Seq<char>> {
    v.map_values(|s: String| s@)
}

/// What the step of an operation of `item` is: the paths and address the
/// operation names, or the error when one is missing (see `nfo_choice` for
/// NFO files).
pub open spec fn step_for(op: Operation, item: PlanItem, media_type: Option<MediaType>, r: Result<ExecStep, Error>) -> bool {
    match op.op {
        OperationType::Mkdir => r matches Ok(ExecStep::Mkdir { path }) && path@ == op.to@,
        OperationType::Move => match op.from {
            Some(f) => r matches Ok(ExecStep::Move { from, to }) && from@ == f@ && to@
                == op.to@,
            None => r matches Err(Error::ExecuteError(m)) && m@
                == "Move operation missing 'from' path"@,
        },
        OperationType::Create => match nfo_choice(op, item, media_type) {
            Ok(k) => r matches Ok(ExecStep::Create { path, kind }) && path@ == op.to@
                && kind == k,
            Err(msg) => r matches Err(Error::ExecuteError(m)) && m@ == msg,
        },
        OperationType::Download => match op.url {
            Some(u) => r matches Ok(ExecStep::Download { url, path }) && url@ == u@
                && path@ == op.to@,
            None => r matches Err(Error::ExecuteError(m)) && m@
                == "Download operation missing 'url'"@,
        },
    }
}

/// Number of operations of the pending items.
pub open spec fn pending_operation_count(items: Seq<PlanItem>) -> nat
    decreases items.len(),
{
    if items.len() == 0 {
        0
    } else {
        pending_operation_count(items.drop_last()) + if items.last().status
            == PlanItemStatus::Pending {
            items.last().operations@.len()
        } else {
            0
        }
    }
}

/// The file written for an `nfo` create operation.
#[derive(Debug, Clone, Copy, PartialEq, Eq, Structural)]
pub enum NfoKind {
    Movie,
    TvShow,
    Episode,
}

/// The file-system work an operation calls for.
#[derive(Debug, Clone)]
pub enum ExecStep {
    Mkdir { path: String },
    Move { from: String, to: String },
    Create { path: String, kind: NfoKind },
    Download { url: String, path: String },
}

/// What `format!("{:?}", value)` writes for an optional string: `None`,
/// or `Some(` and the quoted string (see `debug_quoted`) and `)`.
pub open spec fn option_debug_text(value: Option<Seq<char>>) -> Seq<char> {
    match value {
        None => "None"@,
        Some(s) => "Some("@ + debug_quoted(s) + ")"@,
    }
}

pub open spec fn opt_text(o: Option<String>) -> Option<Seq<char>> {
    match o {
        Some(s) => Some(s@),
        None => None,
    }
}

/// The `Debug` rendering of an optional string.
#[verifier::external_body]
fn debug_option_text(value: &Option<String>) -> (r: String)
    ensures
        r@ == option_debug_text(opt_text(*value)),
{
    format!("{:?}", value)
}

/// Which NFO file a create operation writes, or why it cannot.
pub open spec fn nfo_choice(op: Operation, item: PlanItem, media_type: Option<MediaType>) -> Result<
    NfoKind,
    Seq<char>,
> {
    if op.content_ref is Some && op.content_ref->0@ == "nfo"@ {
        match media_type {
            Some(MediaType::Movies) => if item.movie_metadata is Some {
                Ok(NfoKind::Movie)
            } else {
                Err("Missing movie metadata for NFO generation"@)
            },
            Some(MediaType::TvShows) => if file_name(op.to@) == Some("tvshow.nfo"@) {
                if item.tvshow_metadata is Some {
                    Ok(NfoKind::TvShow)
                } else {
                    Err("Missing TV show metadata for NFO generation"@)
                }
            } else if item.tvshow_metadata is Some && item.episode_metadata is Some {
                Ok(NfoKind::Episode)
            } else if item.tvshow_metadata is Some {
                Ok(NfoKind::TvShow)
            } else {
                Err("Missing TV show metadata for NFO generation"@)
            },
            None => Err("Unknown media type for NFO generation"@),
        }
    } else {
        Err("Unknown content_ref: "@ + option_debug_text(opt_text(op.content_ref)))
    }
}

/// Executor of plans. The caller performs each step and reports its outcome.
#[derive(Debug, Clone)]
pub struct Executor {
    pub config: ExecutorConfig,
}

impl Executor {
    /// Create a new executor with default configuration.
    pub fn new() -> (r: Self)
        ensures
            r.config.verify_checksum,
            r.config.backup_on_overwrite,
    {
        Executor { config: ExecutorConfig::default() }
    }

    /// Create a new executor with custom configuration.
    pub fn with_config(config: ExecutorConfig) -> (r: Self)
        ensures
            r.config == config,
    {
        Executor { config }
    }

    /// The problems that block execution, given what the file system reports
    /// for each item (`facts[i]` for `plan.items[i]`).
    pub fn validation_errors(&self, plan: &Plan, facts: &Vec<ItemFacts>) -> (r: Vec<String>)
        requires
            facts@.len() == plan.items@.len(),
        ensures
            views(r@) == validation_messages(
                plan.items@,
                facts@,
                self.config.backup_on_overwrite,
            ),
    {
        let backup = self.config.backup_on_overwrite;
        let mut errors: Vec<String> = Vec::new();
        let mut i: usize = 0;
        while i < plan.items.len()
            invariant
                i <= plan.items@.len(),
                facts@.len() == plan.items@.len(),
                backup == self.config.backup_on_overwrite,
                views(errors@) == validation_messages(
                    plan.items@.take(i as int),
                    facts@.take(i as int),
                    backup,
                ),
            decreases plan.items@.len() - i,
        {
            let item = &plan.items[i];
            let f = facts[i];
            let ghost before = errors@;
            if item.status == PlanItemStatus::Pending {
                if !f.source_exists {
                    let mut m = chars_of("Source file not found: ");
                    push_str(&mut m, item.source.path.as_str());
                    errors.push(string_of(&m));
                }
                if f.target_exists && !backup {
                    let mut m = chars_of("Target file already exists: ");
                    push_str(&mut m, item.target.full_path.as_str());
                    errors.push(string_of(&m));
                }
            }
            proof {
                assert(plan.items@.take(i + 1).drop_last() =~= plan.items@.take(i as int));
                assert(facts@.take(i + 1).drop_last() =~= facts@.take(i as int));
                assert(views(errors@) =~= views(before) + item_messages(*item, f, backup));
            }
            i = i + 1;
        }
        assert(plan.items@.take(plan.items@.len() as int) =~= plan.items@);
        assert(facts@.take(facts@.len() as int) =~= facts@);
        errors
    }

    /// Validate a plan before execution.
    pub fn validate(&self, plan: &Plan, facts: &Vec<ItemFacts>) -> (r: Result<(), Error>)
        requires
            facts@.len() == plan.items@.len(),
        ensures
            r is Ok <==> validation_messages(
                plan.items@,
                facts@,
                self.config.backup_on_overwrite,
            ).len() == 0,
            r matches Err(e) ==> e matches Error::PlanValidationError(m) && m@ == decimal(
                validation_messages(plan.items@, facts@, self.config.backup_on_overwrite).len(),
            ) + " errors found"@,
    {
        let errors = self.validation_errors(plan, facts);
        if errors.len() == 0 {
            Ok(())
        } else {
            let mut m = decimal_chars(errors.len() as u64);
            push_str(&mut m, " errors found");
            Err(Error::PlanValidationError(string_of(&m)))
        }
    }

    /// The step an operation of `item` calls for.
    pub fn plan_step(&self, op: &Operation, item: &PlanItem, media_type: Option<MediaType>) -> (r:
        Result<ExecStep, Error>)
        ensures
            step_for(*op, *item, media_type, r),
    {
        match op.op {
            OperationType::Mkdir => Ok(ExecStep::Mkdir { path: op.to.clone() }),
            OperationType::Move => match &op.from {
                Some(f) => Ok(ExecStep::Move { from: f.clone(), to: op.to.clone() }),
                None => Err(Error::ExecuteError("Move operation missing 'from' path".to_string())),
            },
            OperationType::Create => match nfo_kind(op, item, media_type) {
                Ok(kind) => Ok(ExecStep::Create { path: op.to.clone(), kind }),
                Err(m) => Err(Error::ExecuteError(m)),
            },
            OperationType::Download => match &op.url {
                Some(u) => Ok(ExecStep::Download { url: u.clone(), path: op.to.clone() }),
                None => Err(Error::ExecuteError("Download operation missing 'url'".to_string())),
            },
        }
    }
}

impl Default for Executor {
    fn default() -> (r: Self)
        ensures
            r.config.verify_checksum,
            r.config.backup_on_overwrite,
    {
        Self::new()
    }
}

fn is_tvshow_nfo(path: &str) -> (r: bool)
    ensures
        r == (file_name(path@) == Some("tvshow.nfo"@)),
{
    let p = chars_of(path);
    let name = crate::utils::fs::file_name_of(&p);
    match name {
        Some(n) => {
            let want = chars_of("tvshow.nfo");
            crate::utils::text::seq_eq(&n, &want)
        },
        None => false,
    }
}

fn nfo_kind(op: &Operation, item: &PlanItem, media_type: Option<MediaType>) -> (r: Result<
    NfoKind,
    String,
>)
    ensures
        match nfo_choice(*op, *item, media_type) {
            Ok(k) => r == Ok::<NfoKind, String>(k),
            Err(msg) => r matches Err(m) && m@ == msg,
        },
{
    let is_nfo = match &op.content_ref {
        Some(c) => {
            let cv = chars_of(c.as_str());
            let want = chars_of("nfo");
            crate::utils::text::seq_eq(&cv, &want)
        },
        None => false,
    };
    if !is_nfo {
        let mut m = chars_of("Unknown content_ref: ");
        let d = debug_option_text(&op.content_ref);
        push_str(&mut m, d.as_str());
        return Err(string_of(&m));
    }
    match media_type {
        Some(MediaType::Movies) => {
            if item.movie_metadata.is_some() {
                Ok(NfoKind::Movie)
            } else {
                Err("Missing movie metadata for NFO generation".to_string())
            }
        },
        Some(MediaType::TvShows) => {
            if is_tvshow_nfo(op.to.as_str()) {
                if item.tvshow_metadata.is_some() {
                    Ok(NfoKind::TvShow)
                } else {
                    Err("Missing TV show metadata for NFO generation".to_string())
                }
            } else if item.tvshow_metadata.is_some() && item.episode_metadata.is_some() {
                Ok(NfoKind::Episode)
            } else if item.tvshow_metadata.is_some() {
                Ok(NfoKind::TvShow)
            } else {
                Err("Missing TV show metadata for NFO generation".to_string())
            }
        },
        None => Err("Unknown media type for NFO generation".to_string()),
    }
}

/// Validate a plan before execution (convenience function).
pub fn validate_plan(plan: &Plan, facts: &Vec<ItemFacts>) -> (r: Result<(), Error>)
    requires
        facts@.len() == plan.items@.len(),
    ensures
        r is Ok <==> validation_messages(plan.items@, facts@, true).len() == 0,
        r matches Err(e) ==> e matches Error::PlanValidationError(m) && m@ == decimal(
            validation_messages(plan.items@, facts@, true).len(),
        ) + " errors found"@,
{
    let executor = Executor::new();
    executor.validate(plan, facts)
}

} // verus!

verus! {

/// Record of a created directory: undone by removing it.
pub fn mkdir_record(path: &str) -> (r: RollbackOperation)
    ensures
        r.seq == 0,
        r.op_type == RollbackOpType::Mkdir,
        r.from@ == path@,
        r.to@ == path@,
        r.checksum is None,
        r.rollback.op == RollbackActionType::Rmdir,
        r.rollback.path@ == path@,
        r.rollback.to is None,
        !r.executed,
        undoes(r),
{
    RollbackOperation {
        seq: 0,
        op_type: RollbackOpType::Mkdir,
        from: path.to_string(),
        to: path.to_string(),
        checksum: None,
        rollback: RollbackAction {
            op: RollbackActionType::Rmdir,
            path: path.to_string(),
            to: None,
        },
        executed: false,
    }
}

/// Record of a moved file: undone by moving it back.
pub fn move_record(from: &str, to: &str, checksum: Option<String>) -> (r: RollbackOperation)
    ensures
        r.seq == 0,
        r.op_type == RollbackOpType::Move,
        r.from@ == from@,
        r.to@ == to@,
        r.checksum == checksum,
        r.rollback.op == RollbackActionType::Move,
        r.rollback.path@ == to@,
        r.rollback.to is Some && r.rollback.to->0@ == from@,
        !r.executed,
        undoes(r),
{
    RollbackOperation {
        seq: 0,
        op_type: RollbackOpType::Move,
        from: from.to_string(),
        to: to.to_string(),
        checksum,
        rollback: RollbackAction {
            op: RollbackActionType::Move,
            path: to.to_string(),
            to: Some(from.to_string()),
        },
        executed: false,
    }
}

/// Record of a written file (`Create` for NFO files, `Download` for posters):
/// undone by deleting it.
pub fn file_record(op_type: RollbackOpType, path: &str) -> (r: RollbackOperation)
    requires
        op_type == RollbackOpType::Create || op_type == RollbackOpType::Download,
    ensures
        r.seq == 0,
        r.op_type == op_type,
        r.from@ == path@,
        r.to@ == path@,
        r.checksum is None,
        r.rollback.op == RollbackActionType::Delete,
        r.rollback.path@ == path@,
        r.rollback.to is None,
        !r.executed,
        undoes(r),
{
    RollbackOperation {
        seq: 0,
        op_type,
        from: path.to_string(),
        to: path.to_string(),
        checksum: None,
        rollback: RollbackAction {
            op: RollbackActionType::Delete,
            path: path.to_string(),
            to: None,
        },
        executed: false,
    }
}

/// Whether a step still has work to do: a step whose target already exists
/// is skipped, so that no existing file is ever overwritten.
pub fn needs_action(step: &ExecStep, target_exists: bool) -> (r: bool)
    ensures
        r == !target_exists,
{
    !target_exists
}

/// Progress of an execution: the rollback built so far and the counters.
#[derive(Debug, Clone)]
pub struct ExecutionLog {
    pub rollback: Rollback,
    /// Number of operations that succeeded so far.
    pub seq: u32,
    pub success_count: usize,
    pub error_count: usize,
}

/// What an execution log holds, as the specs read it: the number of
/// successes so far, the numbers of successes and failures, and the
/// operations recorded.
pub struct LogState {
    pub seq: nat,
    pub successes: nat,
    pub failures: nat,
    pub operations: Seq<RollbackOperation>,
}

pub open spec fn log_state(l: ExecutionLog) -> LogState {
    LogState {
        seq: l.seq as nat,
        successes: l.success_count as nat,
        failures: l.error_count as nat,
        operations: l.rollback.operations@,
    }
}

/// The log after one more outcome: a success is numbered and its record,
/// when it left one, is appended as executed; a failure is counted.
pub open spec fn after_outcome(s: LogState, o: Result<Option<RollbackOperation>, Error>) -> LogState {
    match o {
        Ok(Some(op)) => LogState {
            seq: s.seq + 1,
            successes: s.successes + 1,
            operations: s.operations.push(RollbackOperation { seq: (s.seq + 1) as u32, executed: true, ..op }),
            ..s
        },
        Ok(None) => LogState { seq: s.seq + 1, successes: s.successes + 1, ..s },
        Err(_) => LogState { failures: s.failures + 1, ..s },
    }
}

/// The log after the outcomes of a run, in order.
pub open spec fn after_run(s: LogState, os: Seq<Result<Option<RollbackOperation>, Error>>) -> LogState
    decreases os.len(),
{
    if os.len() == 0 {
        s
    } else {
        after_outcome(after_run(s, os.drop_last()), os.last())
    }
}

impl ExecutionLog {
    /// An empty log for a run with the given plan id and start time.
    pub fn start(plan_id: String, executed_at: String) -> (r: Self)
        ensures
            r.rollback.version@ == "1.0"@,
            r.rollback.plan_id == plan_id,
            r.rollback.executed_at == executed_at,
            r.rollback.operations@.len() == 0,
            r.seq == 0,
            r.success_count == 0,
            r.error_count == 0,
    {
        ExecutionLog {
            rollback: Rollback {
                version: "1.0".to_string(),
                plan_id,
                executed_at,
                operations: Vec::new(),
            },
            seq: 0,
            success_count: 0,
            error_count: 0,
        }
    }

    /// An empty log with a fresh plan id, stamped with the current time; `None`
    /// when the system gives no random bytes or its clock cannot be read.
    pub fn begin() -> (r: Option<Self>)
        ensures
            r matches Some(l) ==> {
                &&& l.rollback.version@ == "1.0"@
                &&& l.rollback.operations@.len() == 0
                &&& l.seq == 0
                &&& l.success_count == 0
                &&& l.error_count == 0
                &&& exists|b: Seq<u8>| b.len() == 16 && l.rollback.plan_id@ == #[trigger] uuid_v4_text(b)
                &&& exists|t: UtcTime| #[trigger] utc_time_valid(t) && l.rollback.executed_at@ == rfc3339_text(t)
            },
    {
        let id = match new_uuid() {
            Some(id) => id,
            None => return None,
        };
        let at = match now_rfc3339() {
            Some(at) => at,
            None => return None,
        };
        Some(Self::start(id, at))
    }

    /// Account for the outcome of one operation: a success is numbered and its
    /// record, when it left one, is appended as executed; a failure is counted.
    pub fn record(&mut self, outcome: Result<Option<RollbackOperation>, Error>)
        requires
            old(self).seq < u32::MAX,
            old(self).success_count < usize::MAX,
            old(self).error_count < usize::MAX,
        ensures
            final(self).rollback.version == old(self).rollback.version,
            final(self).rollback.plan_id == old(self).rollback.plan_id,
            final(self).rollback.executed_at == old(self).rollback.executed_at,
            log_state(*final(self)) == after_outcome(log_state(*old(self)), outcome),
            match outcome {
                Ok(Some(op)) => {
                    &&& final(self).seq == old(self).seq + 1
                    &&& final(self).success_count == old(self).success_count + 1
                    &&& final(self).error_count == old(self).error_count
                    &&& final(self).rollback.operations@ == old(self).rollback.operations@.push(
                        RollbackOperation { seq: (old(self).seq + 1) as u32, executed: true, ..op },
                    )
                },
                Ok(None) => {
                    &&& final(self).seq == old(self).seq + 1
                    &&& final(self).success_count == old(self).success_count + 1
                    &&& final(self).error_count == old(self).error_count
                    &&& final(self).rollback.operations@ == old(self).rollback.operations@
                },
                Err(_) => {
                    &&& final(self).seq == old(self).seq
                    &&& final(self).success_count == old(self).success_count
                    &&& final(self).error_count == old(self).error_count + 1
                    &&& final(self).rollback.operations@ == old(self).rollback.operations@
                },
            },
    {
        match outcome {
            Ok(rec) => {
                self.seq = self.seq + 1;
                match rec {
                    Some(op) => {
                        let numbered = RollbackOperation { seq: self.seq, executed: true, ..op };
                        self.rollback.operations.push(numbered);
                    },
                    None => {},
                }
                self.success_count = self.success_count + 1;
            },
            Err(_) => {
                self.error_count = self.error_count + 1;
            },
        }
    }
}

/// The operations an execution carries out, in order, as (item, operation)
/// indices: every operation of every pending item, item by item; items of
/// any other status are left alone.
pub open spec fn execution_queue(items: Seq<PlanItem>) -> Seq<(int, int)>
    decreases items.len(),
{
    if items.len() == 0 {
        seq![]
    } else {
        execution_queue(items.drop_last()) + if items.last().status == PlanItemStatus::Pending {
            Seq::new(items.last().operations@.len(), |k: int| ((items.len() - 1) as int, k))
        } else {
            seq![]
        }
    }
}

pub open spec fn index_pairs(v: Seq<(usize, usize)>) -> Seq<(int, int)> {
    v.map_values(|p: (usize, usize)| (p.0 as int, p.1 as int))
}

/// The operations of a plan to carry out, in order (see `execution_queue`).
pub fn execution_order(plan: &Plan) -> (r: Vec<(usize, usize)>)
    ensures
        index_pairs(r@) == execution_queue(plan.items@),
{
    let mut out: Vec<(usize, usize)> = Vec::new();
    let mut i: usize = 0;
    while i < plan.items.len()
        invariant
            i <= plan.items@.len(),
            index_pairs(out@) == execution_queue(plan.items@.take(i as int)),
        decreases plan.items@.len() - i,
    {
        assert(plan.items@.take(i + 1).drop_last() =~= plan.items@.take(i as int));
        let item = &plan.items[i];
        let ghost before = index_pairs(out@);
        if item.status == PlanItemStatus::Pending {
            let mut k: usize = 0;
            while k < item.operations.len()
                invariant
                    k <= item.operations@.len(),
                    i < plan.items@.len(),
                    index_pairs(out@) == before + Seq::new(k as nat, |j: int| (i as int, j)),
                decreases item.operations@.len() - k,
            {
                let ghost o0 = out@;
                out.push((i, k));
                assert(index_pairs(out@) =~= index_pairs(o0).push((i as int, k as int)));
                assert(Seq::new((k + 1) as nat, |j: int| (i as int, j)) =~= Seq::new(k as nat, |j: int| (i as int, j)).push(
                    (i as int, k as int),
                ));
                k = k + 1;
            }
            assert(index_pairs(out@) =~= execution_queue(plan.items@.take(i + 1)));
        } else {
            assert(index_pairs(out@) =~= execution_queue(plan.items@.take(i + 1)));
        }
        i = i + 1;
    }
    assert(plan.items@.take(plan.items@.len() as int) =~= plan.items@);
    out
}

impl Executor {
    /// The work for operation `k` of item `i`, given whether its target
    /// already exists: the error of a malformed operation, nothing when the
    /// target exists (no existing file is overwritten), else its step.
    pub fn operation_step(&self, plan: &Plan, i: usize, k: usize, target_exists: bool) -> (r: Result<
        Option<ExecStep>,
        Error,
    >)
        requires
            i < plan.items@.len(),
            k < plan.items@[i as int].operations@.len(),
        ensures
            exists|s: Result<ExecStep, Error>|
                #[trigger] step_for(
                    plan.items@[i as int].operations@[k as int],
                    plan.items@[i as int],
                    plan.media_type,
                    s,
                ) && r == match s {
                    Err(e) => Err(e),
                    Ok(st) => if target_exists {
                        Ok(None)
                    } else {
                        Ok(Some(st))
                    },
                },
    {
        let item = &plan.items[i];
        match self.plan_step(&item.operations[k], item, plan.media_type) {
            Err(e) => Err(e),
            Ok(st) => if needs_action(&st, target_exists) {
                Ok(Some(st))
            } else {
                Ok(None)
            },
        }
    }
}

/// Number of operations of the pending items of a plan.
pub fn total_operations(plan: &Plan) -> (r: usize)
    requires
        pending_operation_count(plan.items@) <= usize::MAX,
    ensures
        r == pending_operation_count(plan.items@),
{
    let mut total: usize = 0;
    let mut i: usize = 0;
    while i < plan.items.len()
        invariant
            i <= plan.items@.len(),
            pending_operation_count(plan.items@) <= usize::MAX,
            total == pending_operation_count(plan.items@.take(i as int)),
        decreases plan.items@.len() - i,
    {
        proof {
            assert(plan.items@.take(i + 1).drop_last() =~= plan.items@.take(i as int));
            lemma_pending_count_prefix(plan.items@, i + 1);
        }
        if plan.items[i].status == PlanItemStatus::Pending {
            total = total + plan.items[i].operations.len();
        }
        i = i + 1;
    }
    assert(plan.items@.take(plan.items@.len() as int) =~= plan.items@);
    total
}

proof fn lemma_pending_count_prefix(items: Seq<PlanItem>, k: int)
    requires
        0 <= k <= items.len(),
    ensures
        pending_operation_count(items.take(k)) <= pending_operation_count(items),
    decreases items.len() - k,
{
    if k < items.len() {
        lemma_pending_count_prefix(items.drop_last(), k);
        assert(items.drop_last().take(k) =~= items.take(k));
    } else {
        assert(items.take(k) =~= items);
    }
}

} // verus!
