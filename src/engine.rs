//! The orchestration engine: the per-host pipeline through the protocol's
//! phases, the accounting of each host's outcome, and the partition of the
//! target hosts into batches that run one after another.
use vstd::prelude::*;
use crate::context::{adjusted, bumped, count, grand, Category, Counters, RunContext};
use crate::handle::{Connection, Templar};
use crate::protocol::{
    apply_phase,
    check_response,
    legal,
    phase_to_apply,
    terminal_success,
    well_formed,
    ProtocolError,
    TaskRequest,
    TaskRequestType,
    TaskResponse,
    TaskStatus,
};
use crate::response::Response;
use crate::visitor::{Notice, Observer, PlaybookVisitor};

verus! {

/// A resource module: domain logic for one kind of managed resource.
pub trait IsTask {
    /// The stable kind name of the module.
    fn get_module(&self) -> String;

    /// The task's own label, when it has one.
    fn get_name(&self) -> Option<String>;

    /// Answers one request; `Err` carries a `Failed` response.
    fn dispatch<C: Connection, T: Templar, V: PlaybookVisitor>(
        &self,
        handle: &Response,
        request: &TaskRequest,
        conn: &mut C,
        templar: &T,
        visitor: &mut Observer<V>,
    ) -> Result<TaskResponse, TaskResponse>;
}

/// How far the pipeline goes.
#[derive(PartialEq, Eq, Structural, Clone, Copy, Debug)]
pub enum RunMode {
    /// Validate, query, then apply what is needed.
    Apply,
    /// Validate and query; apply nothing.
    Check,
    /// Validate only.
    SyntaxOnly,
}

/// How one host's work on one task ended.
#[derive(PartialEq, Eq, Structural, Clone, Copy, Debug)]
pub enum HostOutcome {
    /// A terminal success status.
    Succeeded(TaskStatus),
    /// Check mode found the `Needs*` status given.
    WouldChange(TaskStatus),
    /// Syntax-only mode validated the task.
    Validated,
    /// The module chose to skip the task on this host.
    Skipped,
    /// A phase failed.
    Failed,
    /// The host could not be reached.
    ConnectFailed,
    /// The host had failed an earlier task and was left out.
    NotRun,
}

/// What the pipeline does after a response.
#[derive(PartialEq, Eq, Structural, Clone, Copy, Debug)]
pub enum Step {
    Dispatch(TaskRequestType),
    Finish(HostOutcome),
}

/// The pipeline's transition: given the mode, the phase just dispatched and
/// the status it answered, either the next phase to dispatch or how the host
/// ends; an illegal status is a protocol error.
pub open spec fn step(mode: RunMode, phase: TaskRequestType, status: TaskStatus) -> Result<
    Step,
    ProtocolError,
> {
    if !legal(phase, status) {
        Err(ProtocolError::IllegalStatus { phase, status })
    } else if status == TaskStatus::Failed {
        Ok(Step::Finish(HostOutcome::Failed))
    } else if status == TaskStatus::IsSkipped {
        Ok(Step::Finish(HostOutcome::Skipped))
    } else if status == TaskStatus::IsValidated {
        if mode == RunMode::SyntaxOnly {
            Ok(Step::Finish(HostOutcome::Validated))
        } else {
            Ok(Step::Dispatch(TaskRequestType::Query))
        }
    } else if apply_phase(status) is Some {
        if mode == RunMode::Check {
            Ok(Step::Finish(HostOutcome::WouldChange(status)))
        } else {
            Ok(Step::Dispatch(apply_phase(status)->Some_0))
        }
    } else {
        Ok(Step::Finish(HostOutcome::Succeeded(status)))
    }
}

/// Orders the phases so that every dispatch moves down.
pub open spec fn rank(phase: TaskRequestType) -> int {
    match phase {
        TaskRequestType::Validate => 2,
        TaskRequestType::Query => 1,
        _ => 0,
    }
}

/// The category a terminal success, or the `Needs*` status that announces
/// it, is counted under.
pub open spec fn success_category(s: TaskStatus) -> Category {
    match s {
        TaskStatus::IsCreated | TaskStatus::NeedsCreation => Category::Created,
        TaskStatus::IsRemoved | TaskStatus::NeedsRemoval => Category::Removed,
        TaskStatus::IsModified | TaskStatus::NeedsModification => Category::Modified,
        TaskStatus::IsExecuted | TaskStatus::NeedsExecution => Category::Executed,
        TaskStatus::IsPassive | TaskStatus::NeedsPassive => Category::Passive,
        _ => Category::Matched,
    }
}

/// How much recording `o` adds to the counter of `k`.
pub open spec fn added(o: HostOutcome, k: Category) -> int {
    match o {
        HostOutcome::Succeeded(s) => (if k == Category::Attempted {
            1int
        } else {
            0int
        }) + (if k == success_category(s) {
            1int
        } else {
            0int
        }),
        HostOutcome::WouldChange(_) => if k == Category::Attempted {
            1int
        } else {
            0int
        },
        HostOutcome::Failed | HostOutcome::ConnectFailed => if k == Category::Failed {
            1int
        } else {
            0int
        },
        _ => 0,
    }
}

/// An outcome the run context can record.
pub open spec fn recordable(o: HostOutcome) -> bool {
    match o {
        HostOutcome::Succeeded(s) => terminal_success(s),
        HostOutcome::WouldChange(s) => apply_phase(s) is Some,
        _ => true,
    }
}

/// The outcomes that count under at least one category.
pub open spec fn counted(o: HostOutcome) -> bool {
    o is Succeeded || o is WouldChange || o == HostOutcome::Failed || o
        == HostOutcome::ConnectFailed
}

/// Whether an outcome takes its host out of the rest of the play.
pub open spec fn is_failure(o: HostOutcome) -> bool {
    o == HostOutcome::Failed || o == HostOutcome::ConnectFailed
}

/// `c` after adding what recording `o` adds.
pub open spec fn with_outcome(c: Counters, o: HostOutcome) -> Counters {
    match o {
        HostOutcome::Succeeded(s) => bumped(bumped(c, Category::Attempted), success_category(s)),
        HostOutcome::WouldChange(_) => bumped(c, Category::Attempted),
        HostOutcome::Failed | HostOutcome::ConnectFailed => bumped(c, Category::Failed),
        _ => c,
    }
}

proof fn lemma_with_outcome(c: Counters, o: HostOutcome, k: Category)
    requires
        grand(c) + 2 <= u64::MAX,
    ensures
        count(with_outcome(c, o), k) == count(c, k) + added(o, k),
        grand(with_outcome(c, o)) <= grand(c) + 2,
{
}

/// The transition of the pipeline, as `step` states it.
pub fn next_step(mode: RunMode, phase: TaskRequestType, status: TaskStatus) -> (r: Result<
    Step,
    ProtocolError,
>)
    ensures
        r == step(mode, phase, status),
{
    if !crate::protocol::is_legal(phase, status) {
        return Err(ProtocolError::IllegalStatus { phase, status });
    }
    match status {
        TaskStatus::Failed => Ok(Step::Finish(HostOutcome::Failed)),
        TaskStatus::IsSkipped => Ok(Step::Finish(HostOutcome::Skipped)),
        TaskStatus::IsValidated => {
            if mode == RunMode::SyntaxOnly {
                Ok(Step::Finish(HostOutcome::Validated))
            } else {
                Ok(Step::Dispatch(TaskRequestType::Query))
            }
        },
        _ => match phase_to_apply(status) {
            Some(p) => {
                if mode == RunMode::Check {
                    Ok(Step::Finish(HostOutcome::WouldChange(status)))
                } else {
                    Ok(Step::Dispatch(p))
                }
            },
            None => Ok(Step::Finish(HostOutcome::Succeeded(status))),
        },
    }
}

/// A dispatch moves to a phase of lower rank, and a finished host has a
/// recordable outcome.
pub proof fn lemma_step_progress(mode: RunMode, phase: TaskRequestType, status: TaskStatus)
    ensures
        step(mode, phase, status) matches Ok(Step::Dispatch(p)) ==> rank(p) < rank(phase),
        step(mode, phase, status) matches Ok(Step::Finish(o)) ==> recordable(o) && o
            != HostOutcome::NotRun && o != HostOutcome::ConnectFailed,
{
}

/// Check mode never goes past the query: the only phase it dispatches after
/// a response is `Query`, so no apply phase is ever requested and a query's
/// answer is all that decides the outcome.
pub proof fn lemma_check_mode_never_applies(phase: TaskRequestType, status: TaskStatus)
    ensures
        step(RunMode::Check, phase, status) matches Ok(Step::Dispatch(p)) ==> p
            == TaskRequestType::Query,
{
}

/// Syntax-only mode dispatches nothing after validation.
pub proof fn lemma_syntax_only_stops_at_validate(status: TaskStatus)
    ensures
        !(step(RunMode::SyntaxOnly, TaskRequestType::Validate, status) matches Ok(
            Step::Dispatch(_),
        )),
{
}

/// A query answered `Matched` ends the host as a success in every mode,
/// with no apply phase.
pub proof fn lemma_matched_ends(mode: RunMode)
    ensures
        step(mode, TaskRequestType::Query, TaskStatus::IsMatched) == Ok::<Step, ProtocolError>(
            Step::Finish(HostOutcome::Succeeded(TaskStatus::IsMatched)),
        ),
{
}

/// What one host's pipeline did: the phases dispatched, the status each
/// answered, and how it ended.
pub struct HostRun {
    pub phases: Vec<TaskRequestType>,
    pub statuses: Vec<TaskStatus>,
    pub outcome: HostOutcome,
}

/// The trace of phases and statuses follows `step` from `Validate` to `outcome`.
pub open spec fn follows(
    mode: RunMode,
    phases: Seq<TaskRequestType>,
    statuses: Seq<TaskStatus>,
    outcome: HostOutcome,
) -> bool {
    &&& phases.len() == statuses.len()
    &&& phases.len() > 0
    &&& phases[0] == TaskRequestType::Validate
    &&& forall|j: int|
        0 <= j < phases.len() - 1 ==> step(mode, phases[j], #[trigger] statuses[j])
            == Ok::<Step, ProtocolError>(Step::Dispatch(phases[j + 1]))
    &&& step(mode, phases.last(), statuses.last()) == Ok::<Step, ProtocolError>(
        Step::Finish(outcome),
    )
}

/// Runs one task on one host through the pipeline. An unreachable host
/// ends as `ConnectFailed` with nothing dispatched; otherwise the phases
/// follow `step` from `Validate`. A module that answers a status illegal
/// for the phase, or a malformed response, is a protocol error.
pub fn run_host<M: IsTask, C: Connection, T: Templar, V: PlaybookVisitor>(
    module: &M,
    mode: RunMode,
    host: &String,
    conn: &mut C,
    templar: &T,
    visitor: &mut Observer<V>,
) -> (r: Result<HostRun, ProtocolError>)
    ensures
        r matches Ok(run) ==> {
            ||| (run.outcome == HostOutcome::ConnectFailed && run.phases@.len() == 0
                && run.statuses@.len() == 0)
            ||| follows(mode, run.phases@, run.statuses@, run.outcome)
        },
        r matches Ok(run) ==> recordable(run.outcome) && run.outcome != HostOutcome::NotRun,
        r matches Ok(run) ==> (run.outcome == HostOutcome::ConnectFailed <==> run.phases@.len()
            == 0),
        r matches Err(e) ==> e is IllegalStatus || e is ChangesMismatch,
        r matches Ok(run) ==> (mode == RunMode::Check ==> forall|j: int|
            0 <= j < run.phases@.len() ==> #[trigger] run.phases@[j] == TaskRequestType::Validate
                || run.phases@[j] == TaskRequestType::Query),
        r matches Ok(run) ==> (mode == RunMode::SyntaxOnly ==> forall|j: int|
            0 <= j < run.phases@.len() ==> #[trigger] run.phases@[j]
                == TaskRequestType::Validate),
{
    let mut phases: Vec<TaskRequestType> = Vec::new();
    let mut statuses: Vec<TaskStatus> = Vec::new();
    if conn.connect(host).is_err() {
        return Ok(HostRun { phases, statuses, outcome: HostOutcome::ConnectFailed });
    }
    let handle = Response::new(host.clone());
    let mut phase = TaskRequestType::Validate;
    loop
        invariant
            phases@.len() == statuses@.len(),
            phases@.len() == 0 ==> phase == TaskRequestType::Validate,
            phases@.len() > 0 ==> phases@[0] == TaskRequestType::Validate,
            forall|j: int|
                0 <= j < phases@.len() - 1 ==> step(mode, phases@[j], #[trigger] statuses@[j])
                    == Ok::<Step, ProtocolError>(Step::Dispatch(phases@[j + 1])),
            phases@.len() > 0 ==> step(mode, phases@.last(), statuses@.last()) == Ok::<
                Step,
                ProtocolError,
            >(Step::Dispatch(phase)),
            mode == RunMode::Check ==> forall|j: int|
                0 <= j < phases@.len() ==> #[trigger] phases@[j] == TaskRequestType::Validate
                    || phases@[j] == TaskRequestType::Query,
            mode == RunMode::Check ==> phase == TaskRequestType::Validate || phase
                == TaskRequestType::Query,
            mode == RunMode::SyntaxOnly ==> phases@.len() == 0,
        decreases rank(phase),
    {
        let request = TaskRequest {
            request_type: phase,
            host: host.clone(),
            task: module.get_module(),
        };
        let response = match module.dispatch(&handle, &request, conn, templar, visitor) {
            Ok(x) => x,
            Err(x) => x,
        };
        match check_response(phase, &response) {
            Ok(()) => {},
            Err(e) => {
                return Err(e);
            },
        }
        let status = response.status;
        let ghost old_phases = phases@;
        let ghost old_statuses = statuses@;
        phases.push(phase);
        statuses.push(status);
        proof {
            lemma_step_progress(mode, phase, status);
            lemma_check_mode_never_applies(phase, status);
            lemma_syntax_only_stops_at_validate(status);
            assert forall|j: int| 0 <= j < phases@.len() - 1 implies step(
                mode,
                phases@[j],
                #[trigger] statuses@[j],
            ) == Ok::<Step, ProtocolError>(Step::Dispatch(phases@[j + 1])) by {
                if j < old_phases.len() - 1 {
                    assert(phases@[j] == old_phases[j]);
                    assert(statuses@[j] == old_statuses[j]);
                    assert(phases@[j + 1] == old_phases[j + 1]);
                } else {
                    assert(phases@[j] == old_phases.last());
                    assert(statuses@[j] == old_statuses.last());
                }
            }
        }
        match next_step(mode, phase, status) {
            Err(e) => {
                return Err(e);
            },
            Ok(Step::Finish(outcome)) => {
                return Ok(HostRun { phases, statuses, outcome });
            },
            Ok(Step::Dispatch(p)) => {
                phase = p;
            },
        }
    }
}

/// Records what `outcome` implies for `host`: a success counts as attempted
/// and under its category, a failure under failed; a success status that
/// does not end the pipeline is a protocol error and records nothing.
/// In check mode a change that a query found needed counts as attempted
/// only: nothing was changed on the host, so no change category and no
/// adjusted total moves.
pub fn record_outcome(ctx: &mut RunContext, host: &String, outcome: HostOutcome) -> (r: Result<
    (),
    ProtocolError,
>)
    requires
        old(ctx).wf(),
        grand(old(ctx).totals()) + 2 <= u64::MAX,
    ensures
        final(ctx).wf(),
        r is Ok <==> recordable(outcome),
        r is Ok ==> final(ctx).totals() == with_outcome(old(ctx).totals(), outcome),
        r is Ok ==> final(ctx).counters(host@) == with_outcome(old(ctx).counters(host@), outcome),
        r is Err ==> *final(ctx) == *old(ctx),
        !counted(outcome) ==> *final(ctx) == *old(ctx),
        r is Ok && counted(outcome) ==> (old(ctx).seen().contains(host@) ==> final(ctx).seen()
            == old(ctx).seen()),
        r is Ok && counted(outcome) ==> (!old(ctx).seen().contains(host@) ==> final(ctx).seen()
            == old(ctx).seen().push(host@)),
        r is Ok ==> forall|kk: Category| #[trigger]
            final(ctx).hosts_with(kk) == old(ctx).hosts_with(kk) + (if count(
                old(ctx).counters(host@),
                kk,
            ) == 0 && count(final(ctx).counters(host@), kk) > 0 {
                1int
            } else {
                0int
            }),
        r is Ok ==> final(ctx).hosts_adjusted() == old(ctx).hosts_adjusted() + (if adjusted(
            old(ctx).counters(host@),
        ) == 0 && adjusted(final(ctx).counters(host@)) > 0 {
            1int
        } else {
            0int
        }),
        forall|n: Seq<char>|
            n != host@ ==> #[trigger] final(ctx).counters(n) == old(ctx).counters(n),
        final(ctx).position() == old(ctx).position(),
{
    match outcome {
        HostOutcome::Succeeded(s) => {
            if !is_terminal(s) {
                return Err(ProtocolError::NotTerminal { status: s });
            }
            ctx.increment_for_host(host, Category::Attempted);
            proof {
                assert(ctx.seen().contains(host@) || ctx.seen()[ctx.seen().len() - 1] == host@);
            }
            ctx.increment_for_host(host, category_of(s));
            Ok(())
        },
        HostOutcome::WouldChange(s) => {
            if phase_to_apply(s).is_none() {
                return Err(ProtocolError::NotTerminal { status: s });
            }
            ctx.increment_for_host(host, Category::Attempted);
            Ok(())
        },
        HostOutcome::Failed | HostOutcome::ConnectFailed => {
            ctx.increment_for_host(host, Category::Failed);
            Ok(())
        },
        _ => Ok(()),
    }
}

/// Whether `s` ends a host's pipeline successfully.
pub fn is_terminal(s: TaskStatus) -> (r: bool)
    ensures
        r == terminal_success(s),
{
    match s {
        TaskStatus::IsMatched | TaskStatus::IsCreated | TaskStatus::IsRemoved
        | TaskStatus::IsModified | TaskStatus::IsExecuted | TaskStatus::IsPassive => true,
        _ => false,
    }
}

/// The category a success status is counted under.
pub fn category_of(s: TaskStatus) -> (r: Category)
    ensures
        r == success_category(s),
{
    match s {
        TaskStatus::IsCreated | TaskStatus::NeedsCreation => Category::Created,
        TaskStatus::IsRemoved | TaskStatus::NeedsRemoval => Category::Removed,
        TaskStatus::IsModified | TaskStatus::NeedsModification => Category::Modified,
        TaskStatus::IsExecuted | TaskStatus::NeedsExecution => Category::Executed,
        TaskStatus::IsPassive | TaskStatus::NeedsPassive => Category::Passive,
        _ => Category::Matched,
    }
}

/// The sizes of the batches that `n` hosts are cut into with batches of at
/// most `b` hosts: full batches, then whatever is left.
pub open spec fn batch_sizes(n: nat, b: nat) -> Seq<nat>
    decreases n,
{
    if n == 0 || b == 0 {
        Seq::empty()
    } else if n <= b {
        seq![n]
    } else {
        seq![b] + batch_sizes((n - b) as nat, b)
    }
}

/// The batch size in force: the one configured, else all hosts at once.
pub open spec fn effective_batch(n: nat, batch_size: Option<usize>) -> nat {
    match batch_size {
        Some(b) => b as nat,
        None => n,
    }
}

/// Cuts `n` hosts into consecutive batches of `batch_size` hosts, the last
/// one possibly smaller; without a batch size, one batch holds them all.
pub fn partition_batches(n: usize, batch_size: Option<usize>) -> (r: Vec<usize>)
    requires
        batch_size != Some(0usize),
    ensures
        r@.map_values(|x: usize| x as nat) == batch_sizes(n as nat, effective_batch(
            n as nat,
            batch_size,
        )),
{
    let b: usize = match batch_size {
        Some(b) => b,
        None => n,
    };
    let ghost whole = batch_sizes(n as nat, b as nat);
    let mut r: Vec<usize> = Vec::new();
    let mut rem: usize = n;
    while rem > 0
        invariant
            b > 0 || n == 0,
            rem <= n,
            whole == batch_sizes(n as nat, b as nat),
            whole == r@.map_values(|x: usize| x as nat) + batch_sizes(rem as nat, b as nat),
        decreases rem,
    {
        let size: usize = if rem <= b {
            rem
        } else {
            b
        };
        let ghost before = r@.map_values(|x: usize| x as nat);
        r.push(size);
        proof {
            assert(r@.map_values(|x: usize| x as nat) =~= before.push(size as nat));
            if rem <= b {
                assert(batch_sizes(rem as nat, b as nat) == seq![rem as nat]);
                assert(batch_sizes(0, b as nat) =~= Seq::<nat>::empty());
                assert(before + seq![rem as nat] =~= before.push(size as nat) + batch_sizes(
                    0,
                    b as nat,
                ));
            } else {
                assert(batch_sizes(rem as nat, b as nat) == seq![b as nat] + batch_sizes(
                    (rem - b) as nat,
                    b as nat,
                ));
                assert(before + (seq![b as nat] + batch_sizes((rem - b) as nat, b as nat))
                    =~= before.push(size as nat) + batch_sizes((rem - b) as nat, b as nat));
            }
        }
        rem = rem - size;
    }
    proof {
        assert(batch_sizes(0, b as nat) =~= Seq::<nat>::empty());
        assert(whole =~= r@.map_values(|x: usize| x as nat));
    }
    r
}

/// The counters after recording each outcome of `os` in turn.
pub open spec fn with_outcomes(c: Counters, os: Seq<HostOutcome>) -> Counters
    decreases os.len(),
{
    if os.len() == 0 {
        c
    } else {
        with_outcome(with_outcomes(c, os.drop_last()), os.last())
    }
}

proof fn lemma_batch_head(m: nat, b: nat)
    requires
        m > 0,
        b > 0,
    ensures
        batch_sizes(m, b).len() > 0,
        batch_sizes(m, b)[0] == if m <= b {
            m
        } else {
            b
        },
        batch_sizes(m, b).drop_first() == batch_sizes(
            (m - (if m <= b {
                m
            } else {
                b
            })) as nat,
            b,
        ),
{
    if m <= b {
        assert(batch_sizes(0, b) =~= Seq::<nat>::empty());
        assert(batch_sizes(m, b).drop_first() =~= Seq::<nat>::empty());
    } else {
        assert(batch_sizes(m, b).drop_first() =~= batch_sizes((m - b) as nat, b));
    }
}

proof fn lemma_with_outcomes_push(c: Counters, os: Seq<HostOutcome>, o: HostOutcome)
    ensures
        with_outcomes(c, os.push(o)) == with_outcome(with_outcomes(c, os), o),
{
    assert(os.push(o).drop_last() =~= os);
}

/// Runs one task on one host of a batch: a host that failed earlier in the
/// play is left out; any other is run through the pipeline, its outcome is
/// recorded and reported to the visitor.
fn process_host<M: IsTask, C: Connection, T: Templar, V: PlaybookVisitor>(
    module: &M,
    mode: RunMode,
    host: &String,
    was_failed: bool,
    ctx: &mut RunContext,
    conn: &mut C,
    templar: &T,
    visitor: &mut Observer<V>,
) -> (r: Result<HostOutcome, ProtocolError>)
    requires
        old(ctx).wf(),
        grand(old(ctx).totals()) + 2 <= u64::MAX,
    ensures
        final(ctx).wf(),
        final(ctx).position() == old(ctx).position(),
        was_failed ==> r == Ok::<HostOutcome, ProtocolError>(HostOutcome::NotRun),
        was_failed ==> *final(ctx) == *old(ctx),
        r matches Ok(o) ==> {
            &&& (was_failed <==> o == HostOutcome::NotRun)
            &&& recordable(o)
            &&& final(ctx).totals() == with_outcome(old(ctx).totals(), o)
        },
{
    if was_failed {
        return Ok(HostOutcome::NotRun);
    }
    visitor.notify(Notice::HostStart { host: host.clone() });
    let run = match run_host(module, mode, host, conn, templar, visitor) {
        Ok(run) => run,
        Err(e) => {
            return Err(e);
        },
    };
    let outcome = run.outcome;
    match record_outcome(ctx, host, outcome) {
        Ok(()) => {},
        Err(e) => {
            return Err(e);
        },
    }
    match outcome {
        HostOutcome::Succeeded(s) => visitor.notify(Notice::HostOk { host: host.clone(), status: s }),
        HostOutcome::WouldChange(s) => visitor.notify(
            Notice::HostCheckOk { host: host.clone(), status: s },
        ),
        HostOutcome::Failed => visitor.notify(Notice::HostFailed { host: host.clone() }),
        HostOutcome::ConnectFailed => visitor.notify(Notice::ConnectFailed { host: host.clone() }),
        _ => {},
    }
    Ok(outcome)
}

proof fn lemma_with_outcomes_append(c: Counters, a: Seq<HostOutcome>, b: Seq<HostOutcome>)
    ensures
        with_outcomes(c, a + b) == with_outcomes(with_outcomes(c, a), b),
    decreases b.len(),
{
    if b.len() == 0 {
        assert(a + b =~= a);
    } else {
        assert((a + b).drop_last() =~= a + b.drop_last());
        assert((a + b).last() == b.last());
        lemma_with_outcomes_append(c, a, b.drop_last());
    }
}

/// Runs one task on the hosts `hosts[lo..hi]` of one batch, in order. A host
/// already marked in `failed` is left out; a host that fails now is marked.
/// The outcome of each host is recorded in the run context.
pub fn run_batch_task<M: IsTask, C: Connection, T: Templar, V: PlaybookVisitor>(
    module: &M,
    mode: RunMode,
    hosts: &Vec<String>,
    lo: usize,
    hi: usize,
    failed: &mut Vec<bool>,
    ctx: &mut RunContext,
    conn: &mut C,
    templar: &T,
    visitor: &mut Observer<V>,
) -> (r: Result<Vec<HostOutcome>, ProtocolError>)
    requires
        lo <= hi <= hosts@.len(),
        old(failed)@.len() == hosts@.len(),
        old(ctx).wf(),
        grand(old(ctx).totals()) + 2 * (hi - lo) <= u64::MAX,
    ensures
        final(ctx).wf(),
        final(ctx).position() == old(ctx).position(),
        final(failed)@.len() == hosts@.len(),
        (forall|i: int| lo <= i < hi ==> #[trigger] old(failed)@[i]) ==> r is Ok,
        r matches Ok(os) ==> {
            &&& os@.len() == hi - lo
            &&& forall|i: int|
                0 <= i < hi - lo ==> (old(failed)@[lo + i] <==> #[trigger] os@[i]
                    == HostOutcome::NotRun)
            &&& forall|i: int|
                0 <= i < hi - lo ==> #[trigger] final(failed)@[lo + i] == (old(failed)@[lo + i]
                    || is_failure(os@[i]))
            &&& forall|i: int|
                0 <= i < hosts@.len() && !(lo <= i < hi) ==> #[trigger] final(failed)@[i]
                    == old(failed)@[i]
            &&& forall|i: int| 0 <= i < hi - lo ==> recordable(#[trigger] os@[i])
            &&& final(ctx).totals() == with_outcomes(old(ctx).totals(), os@)
            &&& grand(final(ctx).totals()) <= grand(old(ctx).totals()) + 2 * (hi - lo)
        },
{
    let ghost failed0 = failed@;
    let ghost totals0 = ctx.totals();
    let mut outcomes: Vec<HostOutcome> = Vec::new();
    let mut idx: usize = lo;
    while idx < hi
        invariant
            lo <= idx <= hi <= hosts@.len(),
            outcomes@.len() == idx - lo,
            failed@.len() == hosts@.len(),
            failed0 == old(failed)@,
            totals0 == old(ctx).totals(),
            forall|i: int|
                0 <= i < idx - lo ==> (failed0[lo + i] <==> #[trigger] outcomes@[i]
                    == HostOutcome::NotRun),
            forall|i: int|
                0 <= i < idx - lo ==> #[trigger] failed@[lo + i] == (failed0[lo + i]
                    || is_failure(outcomes@[i])),
            forall|i: int|
                0 <= i < hosts@.len() && !(lo <= i < idx) ==> #[trigger] failed@[i]
                    == failed0[i],
            forall|i: int| 0 <= i < idx - lo ==> recordable(#[trigger] outcomes@[i]),
            ctx.wf(),
            ctx.position() == old(ctx).position(),
            ctx.totals() == with_outcomes(totals0, outcomes@),
            grand(ctx.totals()) <= grand(totals0) + 2 * (idx - lo),
            grand(totals0) + 2 * (hi - lo) <= u64::MAX,
        decreases hi - idx,
    {
        let was_failed = failed[idx];
        let ghost before = ctx.totals();
        let outcome = match process_host(
            module,
            mode,
            &hosts[idx],
            was_failed,
            ctx,
            conn,
            templar,
            visitor,
        ) {
            Ok(o) => o,
            Err(e) => {
                return Err(e);
            },
        };
        proof {
            lemma_with_outcome(before, outcome, Category::Attempted);
            lemma_with_outcomes_push(totals0, outcomes@, outcome);
        }
        outcomes.push(outcome);
        let now_failed = was_failed || outcome == HostOutcome::Failed || outcome
            == HostOutcome::ConnectFailed;
        failed.set(idx, now_failed);
        proof {
            assert(failed@[idx as int] == (failed0[lo + (idx - lo)] || is_failure(
                outcomes@[idx - lo],
            )));
        }
        idx = idx + 1;
    }
    Ok(outcomes)
}

/// Runs one task on every host, batch after batch in host order. A host that
/// failed earlier in the play (`failed`) is left out; a host that fails now
/// is marked failed, and neither stops the other hosts of its batch or the
/// batches after it. Each outcome is recorded in the run context. A protocol
/// error aborts the run.
pub fn run_task<M: IsTask, C: Connection, T: Templar, V: PlaybookVisitor>(
    module: &M,
    mode: RunMode,
    hosts: &Vec<String>,
    batch_size: Option<usize>,
    failed: &mut Vec<bool>,
    ctx: &mut RunContext,
    conn: &mut C,
    templar: &T,
    visitor: &mut Observer<V>,
) -> (r: Result<Vec<HostOutcome>, ProtocolError>)
    requires
        old(failed)@.len() == hosts@.len(),
        batch_size != Some(0usize),
        old(ctx).wf(),
        grand(old(ctx).totals()) + 2 * hosts@.len() <= u64::MAX,
    ensures
        final(ctx).wf(),
        final(ctx).position() == old(ctx).position(),
        final(failed)@.len() == hosts@.len(),
        (forall|i: int| 0 <= i < hosts@.len() ==> #[trigger] old(failed)@[i]) ==> r is Ok,
        r matches Ok(os) ==> {
            &&& os@.len() == hosts@.len()
            &&& forall|i: int|
                0 <= i < hosts@.len() ==> (old(failed)@[i] <==> #[trigger] os@[i]
                    == HostOutcome::NotRun)
            &&& forall|i: int|
                0 <= i < hosts@.len() ==> #[trigger] final(failed)@[i] == (old(failed)@[i]
                    || is_failure(os@[i]))
            &&& forall|i: int| 0 <= i < hosts@.len() ==> recordable(#[trigger] os@[i])
            &&& final(ctx).totals() == with_outcomes(old(ctx).totals(), os@)
        },
{
    let n = hosts.len();
    let sizes = partition_batches(n, batch_size);
    let ghost b = effective_batch(n as nat, batch_size);
    let ghost gs = sizes@.map_values(|x: usize| x as nat);
    let ghost failed0 = failed@;
    let ghost totals0 = ctx.totals();
    let mut outcomes: Vec<HostOutcome> = Vec::new();
    let mut k: usize = 0;
    let mut idx: usize = 0;
    while k < sizes.len()
        invariant
            n == hosts@.len(),
            b == effective_batch(n as nat, batch_size),
            batch_size != Some(0usize),
            gs == sizes@.map_values(|x: usize| x as nat),
            k <= sizes@.len(),
            idx <= n,
            gs.subrange(k as int, gs.len() as int) == batch_sizes((n - idx) as nat, b),
            outcomes@.len() == idx,
            failed@.len() == n,
            failed0 == old(failed)@,
            totals0 == old(ctx).totals(),
            forall|i: int|
                0 <= i < idx ==> (failed0[i] <==> #[trigger] outcomes@[i] == HostOutcome::NotRun),
            forall|i: int|
                0 <= i < idx ==> #[trigger] failed@[i] == (failed0[i] || is_failure(outcomes@[i])),
            forall|i: int| idx <= i < n ==> #[trigger] failed@[i] == failed0[i],
            forall|i: int| 0 <= i < idx ==> recordable(#[trigger] outcomes@[i]),
            ctx.wf(),
            ctx.position() == old(ctx).position(),
            ctx.totals() == with_outcomes(totals0, outcomes@),
            grand(ctx.totals()) + 2 * (n - idx) <= u64::MAX,
        decreases sizes@.len() - k,
    {
        proof {
            assert(gs.subrange(k as int, gs.len() as int).len() > 0);
            if b == 0 {
                assert(n == 0);
            }
            lemma_batch_head((n - idx) as nat, b);
            assert(gs.subrange(k as int, gs.len() as int)[0] == gs[k as int]);
        }
        let size = sizes[k];
        visitor.notify(Notice::Batch { num: k, count: sizes.len(), size });
        let ghost before_failed = failed@;
        let ghost before_outcomes = outcomes@;
        let batch = match run_batch_task(
            module,
            mode,
            hosts,
            idx,
            idx + size,
            failed,
            ctx,
            conn,
            templar,
            visitor,
        ) {
            Ok(os) => os,
            Err(e) => {
                return Err(e);
            },
        };
        proof {
            lemma_with_outcomes_append(totals0, before_outcomes, batch@);
            assert forall|i: int| idx <= i < idx + size implies #[trigger] failed@[i] == (failed0[i]
                || is_failure((before_outcomes + batch@)[i])) by {
                assert(failed@[idx + (i - idx)] == (before_failed[idx + (i - idx)] || is_failure(
                    batch@[i - idx],
                )));
            }
            assert forall|i: int| idx <= i < idx + size implies (failed0[i] <==> #[trigger] (
            before_outcomes + batch@)[i] == HostOutcome::NotRun) by {
                assert(before_failed[idx + (i - idx)] <==> batch@[i - idx] == HostOutcome::NotRun);
            }
            assert forall|i: int| idx <= i < idx + size implies recordable(
                #[trigger] (before_outcomes + batch@)[i],
            ) by {
                assert(recordable(batch@[i - idx]));
            }
        }
        let mut batch = batch;
        outcomes.append(&mut batch);
        idx = idx + size;
        proof {
            assert(gs.subrange((k + 1) as int, gs.len() as int) =~= gs.subrange(
                k as int,
                gs.len() as int,
            ).drop_first());
        }
        k = k + 1;
    }
    proof {
        if n - idx > 0 {
            if b == 0 {
                assert(n == 0);
            }
            lemma_batch_head((n - idx) as nat, b);
        }
    }
    Ok(outcomes)
}

/// What recording each outcome of `os` adds to the counter of `k`.
pub open spec fn added_all(os: Seq<HostOutcome>, k: Category) -> int
    decreases os.len(),
{
    if os.len() == 0 {
        0
    } else {
        added_all(os.drop_last(), k) + added(os.last(), k)
    }
}

/// What recording every outcome of a play adds to the counter of `k`.
pub open spec fn added_rows(rows: Seq<Seq<HostOutcome>>, k: Category) -> int
    decreases rows.len(),
{
    if rows.len() == 0 {
        0
    } else {
        added_rows(rows.drop_last(), k) + added_all(rows.last(), k)
    }
}

proof fn lemma_with_outcomes_counts(c: Counters, os: Seq<HostOutcome>, k: Category)
    requires
        grand(c) + 2 * os.len() <= u64::MAX,
    ensures
        count(with_outcomes(c, os), k) == count(c, k) + added_all(os, k),
        grand(with_outcomes(c, os)) <= grand(c) + 2 * os.len(),
    decreases os.len(),
{
    if os.len() > 0 {
        lemma_with_outcomes_counts(c, os.drop_last(), k);
        lemma_with_outcome(with_outcomes(c, os.drop_last()), os.last(), k);
    }
}

proof fn lemma_added_all_append(a: Seq<HostOutcome>, b: Seq<HostOutcome>, k: Category)
    ensures
        added_all(a + b, k) == added_all(a, k) + added_all(b, k),
    decreases b.len(),
{
    if b.len() == 0 {
        assert(a + b =~= a);
    } else {
        assert((a + b).drop_last() =~= a + b.drop_last());
        assert((a + b).last() == b.last());
        lemma_added_all_append(a, b.drop_last(), k);
    }
}

proof fn lemma_added_rows_update(
    rows: Seq<Seq<HostOutcome>>,
    t: int,
    row: Seq<HostOutcome>,
    k: Category,
)
    requires
        0 <= t < rows.len(),
    ensures
        added_rows(rows.update(t, row), k) == added_rows(rows, k) - added_all(rows[t], k)
            + added_all(row, k),
    decreases rows.len(),
{
    let u = rows.update(t, row);
    if t == rows.len() - 1 {
        assert(u.drop_last() =~= rows.drop_last());
    } else {
        assert(u.drop_last() =~= rows.drop_last().update(t, row));
        lemma_added_rows_update(rows.drop_last(), t, row, k);
    }
}

proof fn lemma_added_rows_empty(rows: Seq<Seq<HostOutcome>>, k: Category)
    requires
        forall|t: int| 0 <= t < rows.len() ==> #[trigger] rows[t].len() == 0,
    ensures
        added_rows(rows, k) == 0,
    decreases rows.len(),
{
    if rows.len() > 0 {
        assert(rows.last().len() == 0);
        assert(forall|t: int| 0 <= t < rows.drop_last().len() ==> #[trigger] rows.drop_last()[t]
            == rows[t]);
        lemma_added_rows_empty(rows.drop_last(), k);
    }
}

/// Whether host `i` failed one of the first `t` tasks, where `rows[t][i]` is
/// how host `i` ended task `t`.
pub open spec fn failed_before(rows: Seq<Seq<HostOutcome>>, t: int, i: int) -> bool
    decreases t,
{
    if t <= 0 {
        false
    } else {
        failed_before(rows, t - 1, i) || is_failure(rows[t - 1][i])
    }
}

/// The outcomes of a play as plain sequences.
pub open spec fn rows_view(rows: Seq<Vec<HostOutcome>>) -> Seq<Seq<HostOutcome>> {
    rows.map_values(|r: Vec<HostOutcome>| r@)
}

proof fn lemma_failed_before_same(
    a: Seq<Seq<HostOutcome>>,
    b: Seq<Seq<HostOutcome>>,
    t: int,
    i: int,
)
    requires
        forall|u: int| 0 <= u < t ==> #[trigger] a[u][i] == b[u][i],
    ensures
        failed_before(a, t, i) == failed_before(b, t, i),
    decreases t,
{
    if t > 0 {
        lemma_failed_before_same(a, b, t - 1, i);
        assert(a[t - 1][i] == b[t - 1][i]);
    }
}

fn extended(a: &Vec<HostOutcome>, b: Vec<HostOutcome>) -> (r: Vec<HostOutcome>)
    ensures
        r@ == a@ + b@,
{
    let mut r: Vec<HostOutcome> = Vec::new();
    let mut j: usize = 0;
    while j < a.len()
        invariant
            j <= a@.len(),
            r@ == a@.subrange(0, j as int),
        decreases a@.len() - j,
    {
        r.push(a[j]);
        j = j + 1;
    }
    let mut b = b;
    r.append(&mut b);
    proof {
        assert(a@.subrange(0, a@.len() as int) =~= a@);
    }
    r
}

/// Runs the tasks of a play on its hosts as a rolling rollout: batch after
/// batch, every task in order on the hosts of the batch before the next
/// batch starts. A host that fails a task sits out the rest of the play; no
/// failure stops another host. The result gives, for each task and host,
/// how that host ended that task. A protocol error aborts the run.
pub fn run_play<M: IsTask, C: Connection, T: Templar, V: PlaybookVisitor>(
    tasks: &Vec<M>,
    mode: RunMode,
    hosts: &Vec<String>,
    batch_size: Option<usize>,
    ctx: &mut RunContext,
    conn: &mut C,
    templar: &T,
    visitor: &mut Observer<V>,
) -> (r: Result<Vec<Vec<HostOutcome>>, ProtocolError>)
    requires
        batch_size != Some(0usize),
        old(ctx).wf(),
        grand(old(ctx).totals()) + 2 * hosts@.len() * tasks@.len() <= u64::MAX,
    ensures
        final(ctx).wf(),
        final(ctx).position() == old(ctx).position(),
        hosts@.len() == 0 || tasks@.len() == 0 ==> r is Ok,
        r matches Ok(rows) ==> forall|k: Category| #[trigger] count(final(ctx).totals(), k)
            == count(old(ctx).totals(), k) + added_rows(rows_view(rows@), k),
        r matches Ok(rows) ==> {
            &&& rows@.len() == tasks@.len()
            &&& forall|t: int| 0 <= t < tasks@.len() ==> #[trigger] rows@[t]@.len() == hosts@.len()
            &&& forall|t: int, i: int|
                0 <= t < tasks@.len() && 0 <= i < hosts@.len() ==> (#[trigger] rows@[t]@[i]
                    == HostOutcome::NotRun <==> failed_before(rows_view(rows@), t, i))
            &&& forall|t: int, i: int|
                0 <= t < tasks@.len() && 0 <= i < hosts@.len() ==> recordable(
                    #[trigger] rows@[t]@[i],
                )
        },
{
    let n = hosts.len();
    let nt = tasks.len();
    let sizes = partition_batches(n, batch_size);
    let ghost b = effective_batch(n as nat, batch_size);
    let ghost gs = sizes@.map_values(|x: usize| x as nat);
    let ghost totals0 = ctx.totals();
    let mut failed: Vec<bool> = Vec::new();
    while failed.len() < n
        invariant
            failed@.len() <= n,
            forall|i: int| 0 <= i < failed@.len() ==> !#[trigger] failed@[i],
        decreases n - failed@.len(),
    {
        failed.push(false);
    }
    let mut rows: Vec<Vec<HostOutcome>> = Vec::new();
    while rows.len() < nt
        invariant
            rows@.len() <= nt,
            forall|t: int| 0 <= t < rows@.len() ==> #[trigger] rows@[t]@.len() == 0,
        decreases nt - rows@.len(),
    {
        rows.push(Vec::new());
    }
    proof {
        assert forall|kk: Category| #[trigger] count(ctx.totals(), kk) == count(totals0, kk)
            + added_rows(rows_view(rows@), kk) by {
            lemma_added_rows_empty(rows_view(rows@), kk);
        }
    }
    let ghost mut spent: int = 0;
    let mut k: usize = 0;
    let mut idx: usize = 0;
    while k < sizes.len()
        invariant
            n == hosts@.len(),
            nt == tasks@.len(),
            b == effective_batch(n as nat, batch_size),
            batch_size != Some(0usize),
            gs == sizes@.map_values(|x: usize| x as nat),
            k <= sizes@.len(),
            idx <= n,
            gs.subrange(k as int, gs.len() as int) == batch_sizes((n - idx) as nat, b),
            failed@.len() == n,
            rows@.len() == nt,
            forall|t: int| 0 <= t < nt ==> #[trigger] rows@[t]@.len() == idx,
            forall|t: int, i: int|
                0 <= t < nt && 0 <= i < idx ==> (#[trigger] rows@[t]@[i] == HostOutcome::NotRun
                    <==> failed_before(rows_view(rows@), t, i)),
            forall|t: int, i: int|
                0 <= t < nt && 0 <= i < idx ==> recordable(#[trigger] rows@[t]@[i]),
            forall|i: int| 0 <= i < idx ==> #[trigger] failed@[i] == failed_before(
                rows_view(rows@),
                nt as int,
                i,
            ),
            forall|i: int| idx <= i < n ==> !#[trigger] failed@[i],
            ctx.wf(),
            ctx.position() == old(ctx).position(),
            totals0 == old(ctx).totals(),
            spent == idx * nt,
            grand(ctx.totals()) <= grand(totals0) + 2 * spent,
            grand(totals0) + 2 * n * nt <= u64::MAX,
            forall|kk: Category| #[trigger] count(ctx.totals(), kk) == count(totals0, kk)
                + added_rows(rows_view(rows@), kk),
        decreases sizes@.len() - k,
    {
        proof {
            assert(gs.subrange(k as int, gs.len() as int).len() > 0);
            if b == 0 {
                assert(n == 0);
            }
            lemma_batch_head((n - idx) as nat, b);
            assert(gs.subrange(k as int, gs.len() as int)[0] == gs[k as int]);
        }
        let size = sizes[k];
        let hi = idx + size;
        visitor.notify(Notice::Batch { num: k, count: sizes.len(), size });
        let mut t: usize = 0;
        while t < nt
            invariant
                n == hosts@.len(),
                nt == tasks@.len(),
                idx < hi <= n,
                hi == idx + size,
                failed@.len() == n,
                rows@.len() == nt,
                forall|u: int| 0 <= u < t ==> #[trigger] rows@[u]@.len() == hi,
                forall|u: int| t <= u < nt ==> #[trigger] rows@[u]@.len() == idx,
                forall|u: int, i: int|
                    0 <= u < nt && 0 <= i < idx ==> (#[trigger] rows@[u]@[i]
                        == HostOutcome::NotRun <==> failed_before(rows_view(rows@), u, i)),
                forall|u: int, i: int|
                    0 <= u < t && idx <= i < hi ==> (#[trigger] rows@[u]@[i]
                        == HostOutcome::NotRun <==> failed_before(rows_view(rows@), u, i)),
                forall|u: int, i: int|
                    0 <= u < nt && 0 <= i < idx ==> recordable(#[trigger] rows@[u]@[i]),
                forall|u: int, i: int|
                    0 <= u < t && idx <= i < hi ==> recordable(#[trigger] rows@[u]@[i]),
                forall|i: int| 0 <= i < idx ==> #[trigger] failed@[i] == failed_before(
                    rows_view(rows@),
                    nt as int,
                    i,
                ),
                forall|i: int| idx <= i < hi ==> #[trigger] failed@[i] == failed_before(
                    rows_view(rows@),
                    t as int,
                    i,
                ),
                forall|i: int| hi <= i < n ==> !#[trigger] failed@[i],
                ctx.wf(),
                ctx.position() == old(ctx).position(),
                totals0 == old(ctx).totals(),
                spent == idx * nt + t * size,
                t <= nt,
                grand(ctx.totals()) <= grand(totals0) + 2 * spent,
                grand(totals0) + 2 * n * nt <= u64::MAX,
                forall|kk: Category| #[trigger] count(ctx.totals(), kk) == count(totals0, kk)
                    + added_rows(rows_view(rows@), kk),
            decreases nt - t,
        {
            proof {
                assert(idx * nt + t * size + size <= n * nt) by (nonlinear_arith)
                    requires
                        t < nt,
                        idx + size <= n,
                ;
                assert(2 * n * nt == 2 * (n * nt)) by (nonlinear_arith);
                assert((t + 1) * size == t * size + size) by (nonlinear_arith);
            }
            let ghost before_failed = failed@;
            let ghost before_rows = rows_view(rows@);
            let ghost before_grand = grand(ctx.totals());
            let ghost before_totals = ctx.totals();
            let os = match run_batch_task(
                &tasks[t],
                mode,
                hosts,
                idx,
                hi,
                &mut failed,
                ctx,
                conn,
                templar,
                visitor,
            ) {
                Ok(os) => os,
                Err(e) => {
                    return Err(e);
                },
            };
            let ghost osv = os@;
            let row = extended(&rows[t], os);
            rows.set(t, row);
            proof {
                assert forall|kk: Category| #[trigger] count(ctx.totals(), kk) == count(
                    totals0,
                    kk,
                ) + added_rows(rows_view(rows@), kk) by {
                    lemma_with_outcomes_counts(before_totals, osv, kk);
                    lemma_added_all_append(before_rows[t as int], osv, kk);
                    assert(rows_view(rows@) =~= before_rows.update(
                        t as int,
                        before_rows[t as int] + osv,
                    ));
                    lemma_added_rows_update(before_rows, t as int, before_rows[t as int] + osv, kk);
                }
                spent = spent + size;
                let after = rows_view(rows@);
                assert(after.len() == nt);
                assert(after[t as int] =~= before_rows[t as int] + osv);
                assert forall|u: int| 0 <= u < nt && u != t implies #[trigger] after[u]
                    == before_rows[u] by {}
                assert forall|u: int, i: int| 0 <= u < nt && 0 <= i < idx implies after[u][i]
                    == #[trigger] before_rows[u][i] by {
                    if u == t {
                        assert(after[u][i] == (before_rows[u] + osv)[i]);
                    }
                }
                assert forall|u: int, i: int|
                    0 <= u <= nt && 0 <= i < idx implies #[trigger] failed_before(after, u, i)
                    == failed_before(before_rows, u, i) by {
                    assert forall|w: int| 0 <= w < u implies #[trigger] after[w][i]
                        == before_rows[w][i] by {
                        assert(after[w][i] == before_rows[w][i]);
                    }
                    lemma_failed_before_same(after, before_rows, u, i);
                }
                assert forall|u: int, i: int|
                    0 <= u <= t && idx <= i < hi implies #[trigger] failed_before(after, u, i)
                    == failed_before(before_rows, u, i) by {
                    assert forall|w: int| 0 <= w < u implies #[trigger] after[w][i]
                        == before_rows[w][i] by {
                        assert(after[w] == before_rows[w]);
                    }
                    lemma_failed_before_same(after, before_rows, u, i);
                }
                assert forall|i: int| idx <= i < hi implies #[trigger] after[t as int][i]
                    == osv[i - idx] by {
                    assert(after[t as int][i] == (before_rows[t as int] + osv)[i]);
                }
                assert forall|i: int| idx <= i < hi implies #[trigger] failed@[i]
                    == failed_before(after, t + 1, i) by {
                    assert(failed@[idx + (i - idx)] == (before_failed[idx + (i - idx)]
                        || is_failure(osv[i - idx])));
                    assert(failed_before(after, t as int, i) == failed_before(
                        before_rows,
                        t as int,
                        i,
                    ));
                }
                assert forall|u: int, i: int|
                    0 <= u < t + 1 && idx <= i < hi implies (#[trigger] rows@[u]@[i]
                    == HostOutcome::NotRun <==> failed_before(rows_view(rows@), u, i)) by {
                    assert(rows@[u]@ == after[u]);
                    if u == t {
                        assert(before_failed[idx + (i - idx)] <==> osv[i - idx]
                            == HostOutcome::NotRun);
                        assert(failed_before(after, u, i) == failed_before(before_rows, u, i));
                    } else {
                        assert(after[u] == before_rows[u]);
                        assert(failed_before(after, u, i) == failed_before(before_rows, u, i));
                    }
                }
                assert forall|u: int, i: int|
                    0 <= u < t + 1 && idx <= i < hi implies recordable(#[trigger] rows@[u]@[i]) by {
                    assert(rows@[u]@ == after[u]);
                    if u == t {
                        assert(recordable(osv[i - idx]));
                    } else {
                        assert(after[u] == before_rows[u]);
                    }
                }
                assert forall|u: int, i: int|
                    0 <= u < nt && 0 <= i < idx implies (#[trigger] rows@[u]@[i]
                    == HostOutcome::NotRun <==> failed_before(rows_view(rows@), u, i)) by {
                    assert(rows@[u]@ == after[u]);
                    assert(after[u][i] == before_rows[u][i]);
                    assert(failed_before(after, u, i) == failed_before(before_rows, u, i));
                }
                assert forall|u: int, i: int|
                    0 <= u < nt && 0 <= i < idx implies recordable(#[trigger] rows@[u]@[i]) by {
                    assert(rows@[u]@ == after[u]);
                    assert(after[u][i] == before_rows[u][i]);
                }
                assert forall|i: int| 0 <= i < idx implies #[trigger] failed@[i] == failed_before(
                    rows_view(rows@),
                    nt as int,
                    i,
                ) by {
                    assert(failed_before(after, nt as int, i) == failed_before(
                        before_rows,
                        nt as int,
                        i,
                    ));
                }
                assert forall|u: int| 0 <= u < t + 1 implies #[trigger] rows@[u]@.len() == hi by {
                    assert(rows@[u]@ == after[u]);
                }
                assert forall|u: int| t + 1 <= u < nt implies #[trigger] rows@[u]@.len() == idx by {
                    assert(rows@[u]@ == after[u]);
                }
            }
            t = t + 1;
        }
        proof {
            assert(idx * nt + nt * size == hi * nt) by (nonlinear_arith)
                requires
                    hi == idx + size,
            ;
        }
        idx = hi;
        proof {
            assert(gs.subrange((k + 1) as int, gs.len() as int) =~= gs.subrange(
                k as int,
                gs.len() as int,
            ).drop_first());
        }
        k = k + 1;
    }
    proof {
        if n - idx > 0 {
            if b == 0 {
                assert(n == 0);
            }
            lemma_batch_head((n - idx) as nat, b);
        }
    }
    Ok(rows)
}

/// When every host of a run succeeds, the attempted total grows by the
/// number of hosts and the failed total does not move; from a fresh context
/// that is `attempted == N` and `failed == 0`.
pub proof fn lemma_all_succeed_counts(c: Counters, os: Seq<HostOutcome>)
    requires
        grand(c) + 2 * os.len() <= u64::MAX,
        forall|i: int| 0 <= i < os.len() ==> #[trigger] os[i] is Succeeded,
    ensures
        count(with_outcomes(c, os), Category::Attempted) == count(c, Category::Attempted)
            + os.len(),
        count(with_outcomes(c, os), Category::Failed) == count(c, Category::Failed),
        grand(with_outcomes(c, os)) <= grand(c) + 2 * os.len(),
    decreases os.len(),
{
    if os.len() > 0 {
        let init = os.drop_last();
        assert(forall|i: int| 0 <= i < init.len() ==> #[trigger] init[i] == os[i]);
        lemma_all_succeed_counts(c, init);
        let before = with_outcomes(c, init);
        assert(os.last() == os[os.len() - 1]);
        lemma_with_outcome(before, os.last(), Category::Attempted);
        lemma_with_outcome(before, os.last(), Category::Failed);
    }
}

proof fn lemma_follows_prefix(
    mode: RunMode,
    p1: Seq<TaskRequestType>,
    p2: Seq<TaskRequestType>,
    statuses: Seq<TaskStatus>,
    o1: HostOutcome,
    o2: HostOutcome,
    j: int,
)
    requires
        follows(mode, p1, statuses, o1),
        follows(mode, p2, statuses, o2),
        0 <= j < statuses.len(),
    ensures
        p1[j] == p2[j],
    decreases j,
{
    if j > 0 {
        lemma_follows_prefix(mode, p1, p2, statuses, o1, o2, j - 1);
        assert(step(mode, p1[j - 1], statuses[j - 1]) == Ok::<Step, ProtocolError>(
            Step::Dispatch(p1[j]),
        ));
        assert(step(mode, p2[j - 1], statuses[j - 1]) == Ok::<Step, ProtocolError>(
            Step::Dispatch(p2[j]),
        ));
    }
}

/// Two runs of the pipeline whose modules answer the same statuses dispatch
/// the same phases and end the same way. In check mode those phases are only
/// validation and query, so running check mode twice over an unchanged host
/// classifies it the same both times.
pub proof fn lemma_same_answers_same_run(
    mode: RunMode,
    p1: Seq<TaskRequestType>,
    p2: Seq<TaskRequestType>,
    statuses: Seq<TaskStatus>,
    o1: HostOutcome,
    o2: HostOutcome,
)
    requires
        follows(mode, p1, statuses, o1),
        follows(mode, p2, statuses, o2),
    ensures
        p1 == p2,
        o1 == o2,
{
    assert forall|j: int| 0 <= j < p1.len() implies p1[j] == p2[j] by {
        lemma_follows_prefix(mode, p1, p2, statuses, o1, o2, j);
    }
    assert(p1 =~= p2);
}

/// A check-mode outcome records an attempt and nothing else: no change
/// category, no adjusted total and no failure moves.
pub proof fn lemma_dry_run_changes_nothing(c: Counters, s: TaskStatus, k: Category)
    requires
        grand(c) + 2 <= u64::MAX,
    ensures
        k != Category::Attempted ==> count(with_outcome(c, HostOutcome::WouldChange(s)), k)
            == count(c, k),
        adjusted(with_outcome(c, HostOutcome::WouldChange(s))) == adjusted(c),
{
}

} // verus!
