//! The constructors a module uses to answer a request. There is one for each
//! legal pair of phase and status; each one demands, in its `requires`, the
//! phase it answers, so a module cannot build an illegal response.
use vstd::prelude::*;
use crate::protocol::{copy_changes, well_formed, CommandResult, Field, TaskRequest, TaskRequestType, TaskResponse, TaskStatus};
use crate::visitor::{Notice, Observer, PlaybookVisitor};

verus! {

/// Builds the responses for the requests made on one host.
pub struct Response {
    pub host: String,
}

/// A response with `status` and nothing attached.
pub open spec fn bare(r: TaskResponse, status: TaskStatus) -> bool {
    &&& r.status == status
    &&& r.changes@.len() == 0
    &&& r.msg is None
    &&& r.command_result is None
}

impl Response {
    pub fn new(host: String) -> (r: Self)
        ensures
            r.host == host,
    {
        Response { host }
    }

    fn plain(status: TaskStatus) -> (r: TaskResponse)
        ensures
            bare(r, status),
    {
        TaskResponse { status, changes: Vec::new(), msg: None, command_result: None }
    }

    /// A failure of any phase, with its message.
    pub fn is_failed(&self, request: &TaskRequest, msg: &String) -> (r: TaskResponse)
        ensures
            r.status == TaskStatus::Failed,
            r.changes@.len() == 0,
            r.msg == Some(*msg),
            r.command_result is None,
            well_formed(request.request_type, r),
    {
        TaskResponse {
            status: TaskStatus::Failed,
            changes: Vec::new(),
            msg: Some(msg.clone()),
            command_result: None,
        }
    }

    /// The failure a module answers for a phase it does not implement.
    pub fn not_supported(&self, request: &TaskRequest) -> (r: TaskResponse)
        ensures
            r.status == TaskStatus::Failed,
            r.changes@.len() == 0,
            r.msg matches Some(m) && m@ == "not supported"@,
            r.command_result is None,
            well_formed(request.request_type, r),
    {
        self.is_failed(request, &"not supported".to_string())
    }

    /// A command ran and failed: tells the visitor, then answers `Failed`
    /// with the command's result attached.
    pub fn command_failed<V: PlaybookVisitor>(
        &self,
        request: &TaskRequest,
        result: &CommandResult,
        visitor: &mut Observer<V>,
    ) -> (r: TaskResponse)
        ensures
            r.status == TaskStatus::Failed,
            r.changes@.len() == 0,
            r.msg matches Some(m) && m@ == "command failed"@,
            r.command_result == Some(*result),
            well_formed(request.request_type, r),
            final(visitor).sent@ == old(visitor).sent@.push(
                Notice::CommandFailed { host: self.host, result: *result },
            ),
    {
        visitor.notify(Notice::CommandFailed { host: self.host.clone(), result: result.duplicate() });
        TaskResponse {
            status: TaskStatus::Failed,
            changes: Vec::new(),
            msg: Some("command failed".to_string()),
            command_result: Some(result.duplicate()),
        }
    }

    /// A command ran and succeeded: tells the visitor, then answers
    /// `IsExecuted` with the command's result attached.
    pub fn command_ok<V: PlaybookVisitor>(
        &self,
        request: &TaskRequest,
        result: &CommandResult,
        visitor: &mut Observer<V>,
    ) -> (r: TaskResponse)
        requires
            request.request_type == TaskRequestType::Execute,
        ensures
            r.status == TaskStatus::IsExecuted,
            r.changes@.len() == 0,
            r.msg is None,
            r.command_result == Some(*result),
            well_formed(request.request_type, r),
            final(visitor).sent@ == old(visitor).sent@.push(
                Notice::CommandOk { host: self.host, result: *result },
            ),
    {
        visitor.notify(Notice::CommandOk { host: self.host.clone(), result: result.duplicate() });
        TaskResponse {
            status: TaskStatus::IsExecuted,
            changes: Vec::new(),
            msg: None,
            command_result: Some(result.duplicate()),
        }
    }

    pub fn is_validated(&self, request: &TaskRequest) -> (r: TaskResponse)
        requires
            request.request_type == TaskRequestType::Validate,
        ensures
            bare(r, TaskStatus::IsValidated),
            well_formed(request.request_type, r),
    {
        Self::plain(TaskStatus::IsValidated)
    }

    pub fn is_skipped(&self, request: &TaskRequest) -> (r: TaskResponse)
        requires
            request.request_type == TaskRequestType::Validate,
        ensures
            bare(r, TaskStatus::IsSkipped),
            well_formed(request.request_type, r),
    {
        Self::plain(TaskStatus::IsSkipped)
    }

    pub fn is_matched(&self, request: &TaskRequest) -> (r: TaskResponse)
        requires
            request.request_type == TaskRequestType::Query,
        ensures
            bare(r, TaskStatus::IsMatched),
            well_formed(request.request_type, r),
    {
        Self::plain(TaskStatus::IsMatched)
    }

    pub fn is_created(&self, request: &TaskRequest) -> (r: TaskResponse)
        requires
            request.request_type == TaskRequestType::Create,
        ensures
            bare(r, TaskStatus::IsCreated),
            well_formed(request.request_type, r),
    {
        Self::plain(TaskStatus::IsCreated)
    }

    pub fn is_executed(&self, request: &TaskRequest) -> (r: TaskResponse)
        requires
            request.request_type == TaskRequestType::Execute,
        ensures
            bare(r, TaskStatus::IsExecuted),
            well_formed(request.request_type, r),
    {
        Self::plain(TaskStatus::IsExecuted)
    }

    pub fn is_removed(&self, request: &TaskRequest) -> (r: TaskResponse)
        requires
            request.request_type == TaskRequestType::Remove,
        ensures
            bare(r, TaskStatus::IsRemoved),
            well_formed(request.request_type, r),
    {
        Self::plain(TaskStatus::IsRemoved)
    }

    pub fn is_passive(&self, request: &TaskRequest) -> (r: TaskResponse)
        requires
            request.request_type == TaskRequestType::Passive,
        ensures
            bare(r, TaskStatus::IsPassive),
            well_formed(request.request_type, r),
    {
        Self::plain(TaskStatus::IsPassive)
    }

    /// Answers a modification with the changes it made, which may not be empty.
    pub fn is_modified(&self, request: &TaskRequest, changes: Vec<Field>) -> (r: TaskResponse)
        requires
            request.request_type == TaskRequestType::Modify,
            changes@.len() > 0,
        ensures
            r.status == TaskStatus::IsModified,
            r.changes@ == changes@,
            r.msg is None,
            r.command_result is None,
            well_formed(request.request_type, r),
    {
        TaskResponse { status: TaskStatus::IsModified, changes, msg: None, command_result: None }
    }

    pub fn needs_creation(&self, request: &TaskRequest) -> (r: TaskResponse)
        requires
            request.request_type == TaskRequestType::Query,
        ensures
            bare(r, TaskStatus::NeedsCreation),
            well_formed(request.request_type, r),
    {
        Self::plain(TaskStatus::NeedsCreation)
    }

    /// Answers a query with the changes still to make, which may not be empty.
    pub fn needs_modification(&self, request: &TaskRequest, changes: &Vec<Field>) -> (r:
        TaskResponse)
        requires
            request.request_type == TaskRequestType::Query,
            changes@.len() > 0,
        ensures
            r.status == TaskStatus::NeedsModification,
            r.changes@ == changes@,
            r.msg is None,
            r.command_result is None,
            well_formed(request.request_type, r),
    {
        TaskResponse {
            status: TaskStatus::NeedsModification,
            changes: copy_changes(changes),
            msg: None,
            command_result: None,
        }
    }

    pub fn needs_removal(&self, request: &TaskRequest) -> (r: TaskResponse)
        requires
            request.request_type == TaskRequestType::Query,
        ensures
            bare(r, TaskStatus::NeedsRemoval),
            well_formed(request.request_type, r),
    {
        Self::plain(TaskStatus::NeedsRemoval)
    }

    pub fn needs_execution(&self, request: &TaskRequest) -> (r: TaskResponse)
        requires
            request.request_type == TaskRequestType::Query,
        ensures
            bare(r, TaskStatus::NeedsExecution),
            well_formed(request.request_type, r),
    {
        Self::plain(TaskStatus::NeedsExecution)
    }

    pub fn needs_passive(&self, request: &TaskRequest) -> (r: TaskResponse)
        requires
            request.request_type == TaskRequestType::Query,
        ensures
            bare(r, TaskStatus::NeedsPassive),
            well_formed(request.request_type, r),
    {
        Self::plain(TaskStatus::NeedsPassive)
    }
}

} // verus!
