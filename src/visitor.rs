//! The progress observer: the callbacks the engine makes at each lifecycle
//! event of a run. Implementations render these for a human or record them;
//! the counting that a success or a failure implies is done by the engine on
//! the run context, so no implementation can skip or repeat it.
use vstd::prelude::*;
use crate::protocol::{CommandResult, TaskStatus};

verus! {

/// A reporting capability invoked at the lifecycle events of a run.
pub trait PlaybookVisitor {
    /// Whether the run only validates its tasks.
    fn is_syntax_only(&self) -> bool;

    /// Whether the run stops after querying, applying nothing.
    fn is_check_mode(&self) -> bool;

    /// A batch of `batch_size` hosts starts; `batch_num` counts from zero.
    fn on_batch(&mut self, batch_num: usize, batch_count: usize, batch_size: usize);

    /// A host starts working on the current task.
    fn on_host_task_start(&mut self, host: &String);

    /// A host finished the current task with a terminal success status.
    fn on_host_task_ok(&mut self, host: &String, status: TaskStatus);

    /// A check-mode run found that a host needs what `status` says.
    fn on_host_task_check_ok(&mut self, host: &String, status: TaskStatus);

    /// A host failed the current task.
    fn on_host_task_failed(&mut self, host: &String);

    /// A host could not be reached.
    fn on_host_connect_failed(&mut self, host: &String);

    /// A command ran on a host and succeeded.
    fn on_command_ok(&mut self, host: &String, result: &CommandResult);

    /// A command ran on a host and failed.
    fn on_command_failed(&mut self, host: &String, result: &CommandResult);
}

/// One callback made to a visitor, with its arguments.
pub enum Notice {
    Batch { num: usize, count: usize, size: usize },
    HostStart { host: String },
    HostOk { host: String, status: TaskStatus },
    HostCheckOk { host: String, status: TaskStatus },
    HostFailed { host: String },
    ConnectFailed { host: String },
    CommandOk { host: String, result: CommandResult },
    CommandFailed { host: String, result: CommandResult },
}

/// A visitor together with the log of every notice the library sent it.
/// `notify` is the one place the library calls the visitor, and it makes
/// exactly the callback the notice names, so the log is the sequence of
/// callbacks made.
pub struct Observer<V: PlaybookVisitor> {
    pub visitor: V,
    pub sent: Ghost<Seq<Notice>>,
}

impl<V: PlaybookVisitor> Observer<V> {
    pub fn new(visitor: V) -> (r: Self)
        ensures
            r.visitor == visitor,
            r.sent@ == Seq::<Notice>::empty(),
    {
        Observer { visitor, sent: Ghost(Seq::empty()) }
    }

    /// Makes the callback that `notice` names and logs it.
    pub fn notify(&mut self, notice: Notice)
        ensures
            final(self).sent@ == old(self).sent@.push(notice),
    {
        let ghost logged = notice;
        match &notice {
            Notice::Batch { num, count, size } => self.visitor.on_batch(*num, *count, *size),
            Notice::HostStart { host } => self.visitor.on_host_task_start(host),
            Notice::HostOk { host, status } => self.visitor.on_host_task_ok(host, *status),
            Notice::HostCheckOk { host, status } => self.visitor.on_host_task_check_ok(
                host,
                *status,
            ),
            Notice::HostFailed { host } => self.visitor.on_host_task_failed(host),
            Notice::ConnectFailed { host } => self.visitor.on_host_connect_failed(host),
            Notice::CommandOk { host, result } => self.visitor.on_command_ok(host, result),
            Notice::CommandFailed { host, result } => self.visitor.on_command_failed(host, result),
        }
        self.sent = Ghost(self.sent@.push(logged));
    }
}

} // verus!
