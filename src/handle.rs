//! The collaborators a module reaches through its handle: the connection
//! that runs commands on a host and the renderer of templated inputs. The
//! handle turns what they return into protocol responses, and reports every
//! command it runs to the visitor exactly once.
use vstd::prelude::*;
use crate::protocol::{CommandResult, TaskRequest, TaskRequestType, TaskResponse, TaskStatus};
use crate::response::Response;
use crate::visitor::{Notice, Observer, PlaybookVisitor};

verus! {

/// Reaches hosts and runs commands on them.
pub trait Connection {
    /// Opens the connection to `host`, or says why it cannot be reached.
    fn connect(&mut self, host: &String) -> Result<(), String>;

    /// Runs `cmd` on `host`; an `Err` means the command could not be started.
    fn run_command(&mut self, host: &String, cmd: &String) -> Result<CommandResult, String>;
}

/// Renders the templated inputs of a task.
pub trait Templar {
    /// The text of `raw` with its template expressions evaluated, or why that
    /// failed; `field` names the input for the message.
    fn render(&self, field: &String, raw: &String) -> Result<String, String>;
}

impl Response {
    /// What rendering an input came to: the rendered text, or a `Failed`
    /// response carrying the renderer's message.
    pub fn render_outcome(&self, request: &TaskRequest, outcome: Result<String, String>) -> (r:
        Result<String, TaskResponse>)
        ensures
            outcome matches Ok(s) ==> r == Ok::<String, TaskResponse>(s),
            outcome matches Err(m) ==> (r matches Err(f) && f.status == TaskStatus::Failed
                && f.changes@.len() == 0 && f.msg == Some(m) && f.command_result is None),
    {
        match outcome {
            Ok(s) => Ok(s),
            Err(msg) => Err(self.is_failed(request, &msg)),
        }
    }

    /// Renders one input of a task through the templar, as `render_outcome`
    /// says.
    pub fn template_string<T: Templar>(
        &self,
        templar: &T,
        request: &TaskRequest,
        field: &String,
        raw: &String,
    ) -> (r: Result<String, TaskResponse>)
        ensures
            r matches Err(f) ==> f.status == TaskStatus::Failed && f.changes@.len() == 0
                && f.command_result is None,
    {
        let outcome = templar.render(field, raw);
        self.render_outcome(request, outcome)
    }

    /// What running a command came to: exit code 0 answers `IsExecuted`, any
    /// other exit code `Failed` with "command failed", both with the result
    /// attached and reported to the visitor; a command that could not be
    /// started answers `Failed` with the connection's message.
    pub fn command_response<V: PlaybookVisitor>(
        &self,
        request: &TaskRequest,
        outcome: Result<CommandResult, String>,
        visitor: &mut Observer<V>,
    ) -> (r: Result<TaskResponse, TaskResponse>)
        requires
            request.request_type == TaskRequestType::Execute,
        ensures
            outcome matches Ok(c) ==> (c.rc == 0 ==> (r matches Ok(x) && x.status
                == TaskStatus::IsExecuted && x.command_result == Some(c) && x.msg is None
                && x.changes@.len() == 0)),
            outcome matches Ok(c) ==> (c.rc != 0 ==> (r matches Err(x) && x.status
                == TaskStatus::Failed && x.command_result == Some(c) && x.changes@.len() == 0 && (
            x.msg matches Some(m) && m@ == "command failed"@))),
            outcome matches Err(m) ==> (r matches Err(x) && x.status == TaskStatus::Failed
                && x.msg == Some(m) && x.command_result is None && x.changes@.len() == 0),
            outcome matches Ok(c) ==> (c.rc == 0 ==> final(visitor).sent@ == old(
                visitor,
            ).sent@.push(Notice::CommandOk { host: self.host, result: c })),
            outcome matches Ok(c) ==> (c.rc != 0 ==> final(visitor).sent@ == old(
                visitor,
            ).sent@.push(Notice::CommandFailed { host: self.host, result: c })),
            outcome is Err ==> *final(visitor) == *old(visitor),
    {
        match outcome {
            Ok(result) => {
                if result.rc == 0 {
                    Ok(self.command_ok(request, &result, visitor))
                } else {
                    Err(self.command_failed(request, &result, visitor))
                }
            },
            Err(msg) => Err(self.is_failed(request, &msg)),
        }
    }

    /// Runs `cmd` on this handle's host through the connection, with the
    /// answer `command_response` gives for what came back.
    pub fn run<C: Connection, V: PlaybookVisitor>(
        &self,
        conn: &mut C,
        visitor: &mut Observer<V>,
        request: &TaskRequest,
        cmd: &String,
    ) -> (r: Result<TaskResponse, TaskResponse>)
        requires
            request.request_type == TaskRequestType::Execute,
        ensures
            r matches Ok(x) ==> x.status == TaskStatus::IsExecuted && x.changes@.len() == 0 && (
            x.command_result matches Some(c) && c.rc == 0),
            r matches Err(x) ==> x.status == TaskStatus::Failed && x.changes@.len() == 0 && (
            x.command_result matches Some(c) ==> c.rc != 0),
            r matches Ok(x) ==> (x.command_result matches Some(c) && final(visitor).sent@ == old(
                visitor,
            ).sent@.push(Notice::CommandOk { host: self.host, result: c })),
            r matches Err(x) ==> (x.command_result matches Some(c) ==> final(visitor).sent@
                == old(visitor).sent@.push(Notice::CommandFailed { host: self.host, result: c })),
            r matches Err(x) ==> (x.command_result is None ==> *final(visitor) == *old(visitor)),
    {
        let outcome = conn.run_command(&self.host, cmd);
        self.command_response(request, outcome, visitor)
    }
}

} // verus!
