//! The request/response vocabulary of the task reconciliation protocol and the
//! legality rules that bind every response status to the phase it answers.
use vstd::prelude::*;

verus! {

/// The phase of the protocol that a request asks a module to perform.
#[derive(PartialEq, Eq, Structural, Clone, Copy, Debug)]
pub enum TaskRequestType {
    Validate,
    Query,
    Create,
    Remove,
    Modify,
    Execute,
    Passive,
}

/// Every outcome a module may report.
#[derive(PartialEq, Eq, Structural, Clone, Copy, Debug)]
pub enum TaskStatus {
    IsValidated,
    IsSkipped,
    IsMatched,
    IsCreated,
    IsRemoved,
    IsModified,
    IsExecuted,
    IsPassive,
    NeedsCreation,
    NeedsRemoval,
    NeedsModification,
    NeedsExecution,
    NeedsPassive,
    Failed,
}

/// Why a response or a status was refused by the protocol.
#[derive(PartialEq, Eq, Structural, Clone, Copy, Debug)]
pub enum ProtocolError {
    /// The status is not one of those legal for the phase.
    IllegalStatus { phase: TaskRequestType, status: TaskStatus },
    /// A modification outcome without changes, or changes on any other outcome.
    ChangesMismatch { status: TaskStatus },
    /// A status that does not end a host's work reached the success report.
    NotTerminal { status: TaskStatus },
}

/// One changed attribute of a resource: its name, prior value and new value.
#[derive(Clone, Debug)]
pub struct Field {
    pub name: String,
    pub before: String,
    pub after: String,
}

/// What running one external command produced.
#[derive(Clone, Debug)]
pub struct CommandResult {
    pub rc: i32,
    pub out: String,
    pub err: String,
}

/// One request for one phase on one host for one task.
#[derive(Clone, Debug)]
pub struct TaskRequest {
    pub request_type: TaskRequestType,
    pub host: String,
    pub task: String,
}

/// The answer of a module to one request.
#[derive(Clone, Debug)]
pub struct TaskResponse {
    pub status: TaskStatus,
    pub changes: Vec<Field>,
    pub msg: Option<String>,
    pub command_result: Option<CommandResult>,
}

impl Field {
    /// A copy of this field.
    pub fn duplicate(&self) -> (r: Self)
        ensures
            r == *self,
    {
        Field { name: self.name.clone(), before: self.before.clone(), after: self.after.clone() }
    }
}

impl CommandResult {
    /// A copy of this result.
    pub fn duplicate(&self) -> (r: Self)
        ensures
            r == *self,
    {
        CommandResult { rc: self.rc, out: self.out.clone(), err: self.err.clone() }
    }
}

/// A copy of a change list.
pub fn copy_changes(changes: &Vec<Field>) -> (r: Vec<Field>)
    ensures
        r@ == changes@,
{
    let mut r: Vec<Field> = Vec::new();
    let mut i: usize = 0;
    while i < changes.len()
        invariant
            i <= changes@.len(),
            r@ == changes@.subrange(0, i as int),
        decreases changes@.len() - i,
    {
        r.push(changes[i].duplicate());
        i = i + 1;
    }
    assert(changes@.subrange(0, changes@.len() as int) =~= changes@);
    r
}

/// The statuses a response to a request of `phase` may carry.
pub open spec fn legal(phase: TaskRequestType, status: TaskStatus) -> bool {
    status == TaskStatus::Failed || match phase {
        TaskRequestType::Validate => status == TaskStatus::IsValidated || status
            == TaskStatus::IsSkipped,
        TaskRequestType::Query => status == TaskStatus::IsMatched || status
            == TaskStatus::NeedsCreation || status == TaskStatus::NeedsModification || status
            == TaskStatus::NeedsRemoval || status == TaskStatus::NeedsExecution || status
            == TaskStatus::NeedsPassive,
        TaskRequestType::Create => status == TaskStatus::IsCreated,
        TaskRequestType::Modify => status == TaskStatus::IsModified,
        TaskRequestType::Remove => status == TaskStatus::IsRemoved,
        TaskRequestType::Execute => status == TaskStatus::IsExecuted,
        TaskRequestType::Passive => status == TaskStatus::IsPassive,
    }
}

/// The statuses that describe a modification and so carry a change list.
pub open spec fn carries_changes(status: TaskStatus) -> bool {
    status == TaskStatus::IsModified || status == TaskStatus::NeedsModification
}

/// The statuses that end a host's pipeline successfully.
pub open spec fn terminal_success(status: TaskStatus) -> bool {
    match status {
        TaskStatus::IsMatched | TaskStatus::IsCreated | TaskStatus::IsRemoved
        | TaskStatus::IsModified | TaskStatus::IsExecuted | TaskStatus::IsPassive => true,
        _ => false,
    }
}

/// The phase that carries out what a query found to be needed.
pub open spec fn apply_phase(status: TaskStatus) -> Option<TaskRequestType> {
    match status {
        TaskStatus::NeedsCreation => Some(TaskRequestType::Create),
        TaskStatus::NeedsModification => Some(TaskRequestType::Modify),
        TaskStatus::NeedsRemoval => Some(TaskRequestType::Remove),
        TaskStatus::NeedsExecution => Some(TaskRequestType::Execute),
        TaskStatus::NeedsPassive => Some(TaskRequestType::Passive),
        _ => None,
    }
}

/// A response that the protocol accepts as an answer to a request of `phase`.
pub open spec fn well_formed(phase: TaskRequestType, r: TaskResponse) -> bool {
    &&& legal(phase, r.status)
    &&& (r.changes@.len() > 0 <==> carries_changes(r.status))
}

/// Whether `status` may answer a request of `phase`.
pub fn is_legal(phase: TaskRequestType, status: TaskStatus) -> (r: bool)
    ensures
        r == legal(phase, status),
{
    match status {
        TaskStatus::Failed => true,
        TaskStatus::IsValidated | TaskStatus::IsSkipped => phase == TaskRequestType::Validate,
        TaskStatus::IsMatched | TaskStatus::NeedsCreation | TaskStatus::NeedsModification
        | TaskStatus::NeedsRemoval | TaskStatus::NeedsExecution | TaskStatus::NeedsPassive => phase
            == TaskRequestType::Query,
        TaskStatus::IsCreated => phase == TaskRequestType::Create,
        TaskStatus::IsModified => phase == TaskRequestType::Modify,
        TaskStatus::IsRemoved => phase == TaskRequestType::Remove,
        TaskStatus::IsExecuted => phase == TaskRequestType::Execute,
        TaskStatus::IsPassive => phase == TaskRequestType::Passive,
    }
}

/// Whether `status` is one of the modification outcomes.
pub fn needs_changes(status: TaskStatus) -> (r: bool)
    ensures
        r == carries_changes(status),
{
    status == TaskStatus::IsModified || status == TaskStatus::NeedsModification
}

/// The phase that applies a `Needs*` status, if `status` is one.
pub fn phase_to_apply(status: TaskStatus) -> (r: Option<TaskRequestType>)
    ensures
        r == apply_phase(status),
{
    match status {
        TaskStatus::NeedsCreation => Some(TaskRequestType::Create),
        TaskStatus::NeedsModification => Some(TaskRequestType::Modify),
        TaskStatus::NeedsRemoval => Some(TaskRequestType::Remove),
        TaskStatus::NeedsExecution => Some(TaskRequestType::Execute),
        TaskStatus::NeedsPassive => Some(TaskRequestType::Passive),
        _ => None,
    }
}

/// Checks a response against the phase it answers.
pub fn check_response(phase: TaskRequestType, r: &TaskResponse) -> (res: Result<(), ProtocolError>)
    ensures
        res is Ok <==> well_formed(phase, *r),
        !legal(phase, r.status) ==> res == Err::<(), ProtocolError>(
            ProtocolError::IllegalStatus { phase, status: r.status },
        ),
        legal(phase, r.status) && !well_formed(phase, *r) ==> res == Err::<(), ProtocolError>(
            ProtocolError::ChangesMismatch { status: r.status },
        ),
{
    if !is_legal(phase, r.status) {
        return Err(ProtocolError::IllegalStatus { phase, status: r.status });
    }
    if needs_changes(r.status) != (r.changes.len() > 0) {
        return Err(ProtocolError::ChangesMismatch { status: r.status });
    }
    Ok(())
}

/// Builds a response to `request` with the given status and changes, or the
/// protocol error that forbids it.
pub fn build_response(request: &TaskRequest, status: TaskStatus, changes: Vec<Field>) -> (res:
    Result<TaskResponse, ProtocolError>)
    ensures
        res is Ok <==> (legal(request.request_type, status) && (changes@.len() > 0
            <==> carries_changes(status))),
        !legal(request.request_type, status) ==> res == Err::<TaskResponse, ProtocolError>(
            ProtocolError::IllegalStatus { phase: request.request_type, status },
        ),
        res matches Ok(r) ==> r.status == status && r.changes@ == changes@ && r.msg is None
            && r.command_result is None && well_formed(request.request_type, r),
{
    let r = TaskResponse { status, changes, msg: None, command_result: None };
    match check_response(request.request_type, &r) {
        Ok(()) => Ok(r),
        Err(e) => Err(e),
    }
}

/// Every status but `Failed` answers exactly one phase, so a constructor
/// for it is legal in that phase only and rejected in every other.
pub proof fn lemma_one_phase_per_status(status: TaskStatus, p: TaskRequestType, q: TaskRequestType)
    requires
        status != TaskStatus::Failed,
        legal(p, status),
        legal(q, status),
    ensures
        p == q,
{
}

} // verus!
