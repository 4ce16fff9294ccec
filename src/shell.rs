//! The shell module: an imperative resource that runs one command. It has no
//! current state to compare, so a query always answers that it needs
//! execution.
use vstd::prelude::*;
use crate::engine::IsTask;
use crate::handle::{Connection, Templar};
use crate::protocol::{well_formed, TaskRequest, TaskRequestType, TaskResponse, TaskStatus};
use crate::response::{bare, Response};
use crate::visitor::{Notice, Observer, PlaybookVisitor};

verus! {

/// A task that runs `cmd` on each host.
pub struct Shell {
    pub name: Option<String>,
    pub cmd: String,
}

/// A shell task with its inputs rendered.
pub struct Evaluated {
    pub name: String,
    pub cmd: String,
}

impl Shell {
    /// The task's name: the one given, or `MODULE` without one.
    pub open spec fn name_of(&self) -> Seq<char> {
        match self.name {
            Some(n) => n@,
            None => "MODULE"@,
        }
    }

    /// The task's inputs given what rendering the command came to: the name,
    /// and the rendered command; a render failure answers `Failed` with the
    /// renderer's message.
    pub fn evaluate_outcome(
        &self,
        handle: &Response,
        request: &TaskRequest,
        rendered: Result<String, String>,
    ) -> (r: Result<Evaluated, TaskResponse>)
        ensures
            rendered matches Ok(c) ==> (r matches Ok(e) && e.cmd == c && e.name@ == self.name_of()),
            rendered matches Err(m) ==> (r matches Err(f) && f.status == TaskStatus::Failed
                && f.changes@.len() == 0 && f.msg == Some(m) && f.command_result is None),
    {
        let name = match &self.name {
            Some(n) => n.clone(),
            None => "MODULE".to_string(),
        };
        let cmd = handle.render_outcome(request, rendered)?;
        Ok(Evaluated { name, cmd })
    }

    /// Renders the task's inputs through the templar, as `evaluate_outcome`
    /// says.
    pub fn evaluate<T: Templar>(&self, handle: &Response, request: &TaskRequest, templar: &T) -> (r:
        Result<Evaluated, TaskResponse>)
        ensures
            r matches Ok(e) ==> e.name@ == self.name_of(),
            r matches Err(f) ==> f.status == TaskStatus::Failed && f.changes@.len() == 0
                && f.command_result is None,
    {
        let rendered = templar.render(&"cmd".to_string(), &self.cmd);
        self.evaluate_outcome(handle, request, rendered)
    }

    /// The answer to a validation request given what rendering the command
    /// came to: `IsValidated` when it rendered, else `Failed` with the
    /// renderer's message.
    pub fn validate_outcome(
        &self,
        handle: &Response,
        request: &TaskRequest,
        rendered: Result<String, String>,
    ) -> (r: Result<TaskResponse, TaskResponse>)
        requires
            request.request_type == TaskRequestType::Validate,
        ensures
            rendered is Ok ==> (r matches Ok(x) && bare(x, TaskStatus::IsValidated)),
            rendered matches Err(m) ==> (r matches Err(f) && f.status == TaskStatus::Failed
                && f.changes@.len() == 0 && f.msg == Some(m) && f.command_result is None),
    {
        let _evaluated = self.evaluate_outcome(handle, request, rendered)?;
        Ok(handle.is_validated(request))
    }

    /// The answer to an execution request given what rendering the command
    /// came to: the rendered command is run on the host, as `Response::run`
    /// says; a render failure answers `Failed` with the renderer's message and
    /// runs nothing.
    pub fn execute_outcome<C: Connection, V: PlaybookVisitor>(
        &self,
        handle: &Response,
        request: &TaskRequest,
        rendered: Result<String, String>,
        conn: &mut C,
        visitor: &mut Observer<V>,
    ) -> (r: Result<TaskResponse, TaskResponse>)
        requires
            request.request_type == TaskRequestType::Execute,
        ensures
            rendered matches Err(m) ==> (r matches Err(f) && f.status == TaskStatus::Failed
                && f.changes@.len() == 0 && f.msg == Some(m) && f.command_result is None),
            rendered is Err ==> *final(visitor) == *old(visitor) && *final(conn) == *old(conn),
            r matches Err(x) ==> (x.command_result is None ==> *final(visitor) == *old(visitor)),
            r matches Ok(x) ==> (x.command_result matches Some(c) && final(visitor).sent@ == old(
                visitor,
            ).sent@.push(Notice::CommandOk { host: handle.host, result: c })),
            r matches Err(x) ==> (x.command_result matches Some(c) ==> final(visitor).sent@
                == old(visitor).sent@.push(Notice::CommandFailed { host: handle.host, result: c })),
            r matches Ok(x) ==> x.status == TaskStatus::IsExecuted && x.changes@.len() == 0 && (
            x.command_result matches Some(c) && c.rc == 0),
            r matches Err(x) ==> x.status == TaskStatus::Failed && x.changes@.len() == 0 && (
            x.command_result matches Some(c) ==> c.rc != 0),
    {
        let evaluated = self.evaluate_outcome(handle, request, rendered)?;
        handle.run(conn, visitor, request, &evaluated.cmd)
    }

    /// Answers one request: validation renders the inputs, a query always
    /// needs execution, execution runs the rendered command; every other
    /// phase is not supported.
    pub fn respond<C: Connection, T: Templar, V: PlaybookVisitor>(
        &self,
        handle: &Response,
        request: &TaskRequest,
        conn: &mut C,
        templar: &T,
        visitor: &mut Observer<V>,
    ) -> (r: Result<TaskResponse, TaskResponse>)
        ensures
            r matches Ok(x) ==> well_formed(request.request_type, x),
            r matches Err(x) ==> x.status == TaskStatus::Failed && well_formed(
                request.request_type,
                x,
            ),
            request.request_type == TaskRequestType::Validate ==> (r matches Ok(x) ==> bare(
                x,
                TaskStatus::IsValidated,
            )),
            request.request_type == TaskRequestType::Query ==> (r matches Ok(x) && bare(
                x,
                TaskStatus::NeedsExecution,
            )),
            request.request_type == TaskRequestType::Execute ==> (r matches Ok(x) ==> (
            x.command_result matches Some(c) && c.rc == 0)),
            request.request_type != TaskRequestType::Validate && request.request_type
                != TaskRequestType::Query && request.request_type != TaskRequestType::Execute ==> (
            r matches Err(x) && x.msg matches Some(m) && m@ == "not supported"@),
            request.request_type != TaskRequestType::Execute ==> *final(visitor) == *old(visitor)
                && *final(conn) == *old(conn),
            request.request_type == TaskRequestType::Execute ==> (r matches Ok(x) ==> (
            x.command_result matches Some(c) && final(visitor).sent@ == old(visitor).sent@.push(
                Notice::CommandOk { host: handle.host, result: c },
            ))),
            request.request_type == TaskRequestType::Execute ==> (r matches Err(x) ==> (
            x.command_result matches Some(c) ==> final(visitor).sent@ == old(visitor).sent@.push(
                Notice::CommandFailed { host: handle.host, result: c },
            ))),
            request.request_type == TaskRequestType::Execute ==> (r matches Err(x) ==> (
            x.command_result is None ==> *final(visitor) == *old(visitor))),
    {
        match request.request_type {
            TaskRequestType::Validate => {
                let rendered = templar.render(&"cmd".to_string(), &self.cmd);
                self.validate_outcome(handle, request, rendered)
            },
            TaskRequestType::Query => Ok(handle.needs_execution(request)),
            TaskRequestType::Execute => {
                let rendered = templar.render(&"cmd".to_string(), &self.cmd);
                self.execute_outcome(handle, request, rendered, conn, visitor)
            },
            _ => Err(handle.not_supported(request)),
        }
    }
}

impl IsTask for Shell {
    fn get_module(&self) -> String {
        "Shell".to_string()
    }

    fn get_name(&self) -> Option<String> {
        self.name.clone()
    }

    fn dispatch<C: Connection, T: Templar, V: PlaybookVisitor>(
        &self,
        handle: &Response,
        request: &TaskRequest,
        conn: &mut C,
        templar: &T,
        visitor: &mut Observer<V>,
    ) -> (r: Result<TaskResponse, TaskResponse>)
        ensures
            r matches Ok(x) ==> well_formed(request.request_type, x),
            r matches Err(x) ==> x.status == TaskStatus::Failed && well_formed(
                request.request_type,
                x,
            ),
            request.request_type == TaskRequestType::Validate ==> (r matches Ok(x) ==> bare(
                x,
                TaskStatus::IsValidated,
            )),
            request.request_type == TaskRequestType::Query ==> (r matches Ok(x) && bare(
                x,
                TaskStatus::NeedsExecution,
            )),
            request.request_type == TaskRequestType::Execute ==> (r matches Ok(x) ==> (
            x.command_result matches Some(c) && c.rc == 0)),
            request.request_type != TaskRequestType::Validate && request.request_type
                != TaskRequestType::Query && request.request_type != TaskRequestType::Execute ==> (
            r matches Err(x) && x.msg matches Some(m) && m@ == "not supported"@),
            request.request_type != TaskRequestType::Execute ==> *final(visitor) == *old(visitor)
                && *final(conn) == *old(conn),
            request.request_type == TaskRequestType::Execute ==> (r matches Ok(x) ==> (
            x.command_result matches Some(c) && final(visitor).sent@ == old(visitor).sent@.push(
                Notice::CommandOk { host: handle.host, result: c },
            ))),
            request.request_type == TaskRequestType::Execute ==> (r matches Err(x) ==> (
            x.command_result matches Some(c) ==> final(visitor).sent@ == old(visitor).sent@.push(
                Notice::CommandFailed { host: handle.host, result: c },
            ))),
            request.request_type == TaskRequestType::Execute ==> (r matches Err(x) ==> (
            x.command_result is None ==> *final(visitor) == *old(visitor))),
    {
        self.respond(handle, request, conn, templar, visitor)
    }
}

} // verus!
