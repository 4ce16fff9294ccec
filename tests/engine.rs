use std::cell::RefCell;

use jetporch::context::{Category, RunContext};
use jetporch::engine::{
    partition_batches, record_outcome, run_host, run_play, run_task, HostOutcome, IsTask, RunMode,
};
use jetporch::handle::{Connection, Templar};
use jetporch::protocol::{CommandResult, Field, ProtocolError, TaskRequest, TaskRequestType, TaskResponse, TaskStatus};
use jetporch::response::Response;
use jetporch::shell::Shell;
use jetporch::summary::{summarize, Verdict};
use jetporch::visitor::{Observer, PlaybookVisitor};

struct FakeConn {
    unreachable: Vec<String>,
    failing: Vec<String>,
    commands: Vec<(String, String)>,
}

impl FakeConn {
    fn new() -> Self {
        FakeConn { unreachable: Vec::new(), failing: Vec::new(), commands: Vec::new() }
    }
}

impl Connection for FakeConn {
    fn connect(&mut self, host: &String) -> Result<(), String> {
        if self.unreachable.contains(host) {
            Err(String::from("unreachable"))
        } else {
            Ok(())
        }
    }

    fn run_command(&mut self, host: &String, cmd: &String) -> Result<CommandResult, String> {
        self.commands.push((host.clone(), cmd.clone()));
        let rc = if self.failing.contains(host) { 1 } else { 0 };
        Ok(CommandResult { rc, out: String::from("hi\n"), err: String::new() })
    }
}

struct PlainTemplar;

impl Templar for PlainTemplar {
    fn render(&self, _field: &String, raw: &String) -> Result<String, String> {
        Ok(raw.clone())
    }
}

struct BrokenTemplar;

impl Templar for BrokenTemplar {
    fn render(&self, field: &String, _raw: &String) -> Result<String, String> {
        Err(format!("cannot render {}", field))
    }
}

#[derive(Default)]
struct Recorder {
    events: Vec<String>,
}

impl PlaybookVisitor for Recorder {
    fn is_syntax_only(&self) -> bool {
        false
    }
    fn is_check_mode(&self) -> bool {
        false
    }
    fn on_batch(&mut self, batch_num: usize, batch_count: usize, batch_size: usize) {
        self.events.push(format!("batch {}/{} {}", batch_num, batch_count, batch_size));
    }
    fn on_host_task_start(&mut self, host: &String) {
        self.events.push(format!("start {}", host));
    }
    fn on_host_task_ok(&mut self, host: &String, status: TaskStatus) {
        self.events.push(format!("ok {} {:?}", host, status));
    }
    fn on_host_task_check_ok(&mut self, host: &String, status: TaskStatus) {
        self.events.push(format!("check {} {:?}", host, status));
    }
    fn on_host_task_failed(&mut self, host: &String) {
        self.events.push(format!("failed {}", host));
    }
    fn on_host_connect_failed(&mut self, host: &String) {
        self.events.push(format!("unreachable {}", host));
    }
    fn on_command_ok(&mut self, host: &String, result: &CommandResult) {
        self.events.push(format!("command ok {} {}", host, result.rc));
    }
    fn on_command_failed(&mut self, host: &String, result: &CommandResult) {
        self.events.push(format!("command failed {} {}", host, result.rc));
    }
}

#[derive(Clone, Copy, PartialEq)]
enum State {
    Matched,
    Modify,
    Create,
}

struct Convergent {
    state: State,
    seen: RefCell<Vec<TaskRequestType>>,
}

impl Convergent {
    fn new(state: State) -> Self {
        Convergent { state, seen: RefCell::new(Vec::new()) }
    }
}

fn change() -> Field {
    Field { name: String::from("mode"), before: String::from("644"), after: String::from("600") }
}

impl IsTask for Convergent {
    fn get_module(&self) -> String {
        String::from("file")
    }
    fn get_name(&self) -> Option<String> {
        None
    }
    fn dispatch<C: Connection, T: Templar, V: PlaybookVisitor>(
        &self,
        handle: &Response,
        request: &TaskRequest,
        _conn: &mut C,
        _templar: &T,
        _visitor: &mut Observer<V>,
    ) -> Result<TaskResponse, TaskResponse> {
        self.seen.borrow_mut().push(request.request_type);
        match request.request_type {
            TaskRequestType::Validate => Ok(handle.is_validated(request)),
            TaskRequestType::Query => Ok(match self.state {
                State::Matched => handle.is_matched(request),
                State::Modify => handle.needs_modification(request, &vec![change()]),
                State::Create => handle.needs_creation(request),
            }),
            TaskRequestType::Modify => Ok(handle.is_modified(request, vec![change()])),
            TaskRequestType::Create => Ok(handle.is_created(request)),
            _ => Err(handle.not_supported(request)),
        }
    }
}

struct Rogue;

impl IsTask for Rogue {
    fn get_module(&self) -> String {
        String::from("rogue")
    }
    fn get_name(&self) -> Option<String> {
        None
    }
    fn dispatch<C: Connection, T: Templar, V: PlaybookVisitor>(
        &self,
        _handle: &Response,
        _request: &TaskRequest,
        _conn: &mut C,
        _templar: &T,
        _visitor: &mut Observer<V>,
    ) -> Result<TaskResponse, TaskResponse> {
        Ok(TaskResponse { status: TaskStatus::IsExecuted, changes: Vec::new(), msg: None, command_result: None })
    }
}

fn echo() -> Shell {
    Shell { name: None, cmd: String::from("echo hi") }
}

fn names(n: usize) -> Vec<String> {
    (1..=n).map(|i| format!("h{}", i)).collect()
}

#[test]
fn batches_of_two_for_five_hosts() {
    assert_eq!(partition_batches(5, Some(2)), vec![2, 2, 1]);
    assert_eq!(partition_batches(4, Some(2)), vec![2, 2]);
    assert_eq!(partition_batches(3, Some(10)), vec![3]);
    assert_eq!(partition_batches(5, None), vec![5]);
    assert_eq!(partition_batches(0, Some(3)), Vec::<usize>::new());
    assert_eq!(partition_batches(0, None), Vec::<usize>::new());
}

#[test]
fn failure_in_first_batch_spares_the_rest() {
    let hosts = names(5);
    let mut conn = FakeConn::new();
    conn.failing.push(String::from("h2"));
    let mut visitor = Observer::new(Recorder::default());
    let mut ctx = RunContext::new();
    let mut failed = vec![false; 5];
    let outcomes = run_task(&echo(), RunMode::Apply, &hosts, Some(2), &mut failed, &mut ctx, &mut conn, &PlainTemplar, &mut visitor).unwrap();
    assert_eq!(
        outcomes,
        vec![
            HostOutcome::Succeeded(TaskStatus::IsExecuted),
            HostOutcome::Failed,
            HostOutcome::Succeeded(TaskStatus::IsExecuted),
            HostOutcome::Succeeded(TaskStatus::IsExecuted),
            HostOutcome::Succeeded(TaskStatus::IsExecuted),
        ]
    );
    assert_eq!(failed, vec![false, true, false, false, false]);
    let batches: Vec<&String> = visitor.visitor.events.iter().filter(|e| e.starts_with("batch")).collect();
    assert_eq!(batches, vec!["batch 0/3 2", "batch 1/3 2", "batch 2/3 1"]);
    let starts: Vec<&String> = visitor.visitor.events.iter().filter(|e| e.starts_with("start")).collect();
    assert_eq!(starts, vec!["start h1", "start h2", "start h3", "start h4", "start h5"]);
    assert_eq!(ctx.get_total(Category::Attempted), 4);
    assert_eq!(ctx.get_total(Category::Executed), 4);
    assert_eq!(ctx.get_total(Category::Failed), 1);
    assert_eq!(ctx.get_count_for_host(&String::from("h2"), Category::Failed), 1);

    // the failed host sits out the next task of the play
    let again = run_task(&echo(), RunMode::Apply, &hosts, Some(2), &mut failed, &mut ctx, &mut conn, &PlainTemplar, &mut visitor).unwrap();
    assert_eq!(again[1], HostOutcome::NotRun);
    assert_eq!(again[0], HostOutcome::Succeeded(TaskStatus::IsExecuted));
    assert_eq!(ctx.get_total(Category::Attempted), 8);
    assert_eq!(ctx.get_total(Category::Failed), 1);
}

#[test]
fn every_host_succeeding_counts_n_attempts() {
    let hosts = names(4);
    let mut conn = FakeConn::new();
    let mut visitor = Observer::new(Recorder::default());
    let mut ctx = RunContext::new();
    let mut failed = vec![false; 4];
    let outcomes = run_task(&echo(), RunMode::Apply, &hosts, None, &mut failed, &mut ctx, &mut conn, &PlainTemplar, &mut visitor).unwrap();
    assert!(outcomes.iter().all(|o| matches!(o, HostOutcome::Succeeded(_))));
    assert_eq!(ctx.get_total(Category::Attempted), 4);
    assert_eq!(ctx.get_total(Category::Failed), 0);
    assert_eq!(ctx.get_hosts_seen_count(), 4);
}

#[test]
fn shell_echo_end_to_end() {
    let hosts = vec![String::from("h1")];
    let mut conn = FakeConn::new();
    let mut visitor = Observer::new(Recorder::default());
    let run = run_host(&echo(), RunMode::Apply, &hosts[0], &mut conn, &PlainTemplar, &mut visitor).unwrap();
    assert_eq!(run.phases, vec![TaskRequestType::Validate, TaskRequestType::Query, TaskRequestType::Execute]);
    assert_eq!(run.statuses, vec![TaskStatus::IsValidated, TaskStatus::NeedsExecution, TaskStatus::IsExecuted]);
    assert_eq!(run.outcome, HostOutcome::Succeeded(TaskStatus::IsExecuted));
    assert_eq!(conn.commands, vec![(String::from("h1"), String::from("echo hi"))]);
    assert_eq!(visitor.visitor.events.iter().filter(|e| e.starts_with("command ok")).count(), 1);

    let mut ctx = RunContext::new();
    let mut failed = vec![false];
    let mut conn = FakeConn::new();
    run_task(&echo(), RunMode::Apply, &hosts, None, &mut failed, &mut ctx, &mut conn, &PlainTemplar, &mut visitor).unwrap();
    assert_eq!(ctx.get_count_for_host(&String::from("h1"), Category::Executed), 1);
    assert_eq!(ctx.get_total_adjusted_count(), 1);
    assert_eq!(ctx.get_total(Category::Failed), 0);
}

#[test]
fn converged_resource_is_matched() {
    let module = Convergent::new(State::Matched);
    let hosts = vec![String::from("h1")];
    let mut ctx = RunContext::new();
    let mut failed = vec![false];
    let mut visitor = Observer::new(Recorder::default());
    let outcomes = run_task(&module, RunMode::Apply, &hosts, None, &mut failed, &mut ctx, &mut FakeConn::new(), &PlainTemplar, &mut visitor).unwrap();
    assert_eq!(outcomes, vec![HostOutcome::Succeeded(TaskStatus::IsMatched)]);
    assert_eq!(*module.seen.borrow(), vec![TaskRequestType::Validate, TaskRequestType::Query]);
    assert_eq!(ctx.get_count_for_host(&String::from("h1"), Category::Matched), 1);
    assert_eq!(ctx.get_total_adjusted_count(), 0);
    assert_eq!(summarize(&ctx).verdict, Verdict::Perfect);
}

#[test]
fn check_mode_stops_at_the_query() {
    let module = Convergent::new(State::Modify);
    let run = run_host(&module, RunMode::Check, &String::from("h1"), &mut FakeConn::new(), &PlainTemplar, &mut Observer::new(Recorder::default())).unwrap();
    assert_eq!(run.outcome, HostOutcome::WouldChange(TaskStatus::NeedsModification));
    assert_eq!(run.phases, vec![TaskRequestType::Validate, TaskRequestType::Query]);
    assert!(!module.seen.borrow().contains(&TaskRequestType::Modify));

    let mut ctx = RunContext::new();
    record_outcome(&mut ctx, &String::from("h1"), run.outcome).unwrap();
    assert_eq!(ctx.get_total(Category::Failed), 0);
    assert_eq!(ctx.get_total(Category::Attempted), 1);
    assert_eq!(ctx.get_total(Category::Modified), 0);
    assert_eq!(ctx.get_total_adjusted_count(), 0);
    assert_eq!(summarize(&ctx).verdict, Verdict::Perfect);
}

#[test]
fn check_mode_twice_gives_the_same_answers() {
    let hosts = names(3);
    for state in [State::Matched, State::Modify, State::Create] {
        let module = Convergent::new(state);
        let mut first_failed = vec![false; 3];
        let mut second_failed = vec![false; 3];
        let mut ctx = RunContext::new();
        let mut visitor = Observer::new(Recorder::default());
        let first = run_task(&module, RunMode::Check, &hosts, None, &mut first_failed, &mut ctx, &mut FakeConn::new(), &PlainTemplar, &mut visitor).unwrap();
        let second = run_task(&module, RunMode::Check, &hosts, None, &mut second_failed, &mut ctx, &mut FakeConn::new(), &PlainTemplar, &mut visitor).unwrap();
        assert_eq!(first, second);
        assert!(module.seen.borrow().iter().all(|p| *p == TaskRequestType::Validate || *p == TaskRequestType::Query));
    }
}

#[test]
fn apply_mode_modifies() {
    let module = Convergent::new(State::Modify);
    let hosts = vec![String::from("h1")];
    let mut ctx = RunContext::new();
    let mut failed = vec![false];
    let outcomes = run_task(&module, RunMode::Apply, &hosts, None, &mut failed, &mut ctx, &mut FakeConn::new(), &PlainTemplar, &mut Observer::new(Recorder::default())).unwrap();
    assert_eq!(outcomes, vec![HostOutcome::Succeeded(TaskStatus::IsModified)]);
    assert_eq!(*module.seen.borrow(), vec![TaskRequestType::Validate, TaskRequestType::Query, TaskRequestType::Modify]);
    assert_eq!(ctx.get_total(Category::Modified), 1);
    assert_eq!(summarize(&ctx).verdict, Verdict::ActionsApplied);
}

#[test]
fn syntax_only_stops_at_validation() {
    let module = Convergent::new(State::Create);
    let run = run_host(&module, RunMode::SyntaxOnly, &String::from("h1"), &mut FakeConn::new(), &PlainTemplar, &mut Observer::new(Recorder::default())).unwrap();
    assert_eq!(run.outcome, HostOutcome::Validated);
    assert_eq!(run.phases, vec![TaskRequestType::Validate]);
}

#[test]
fn unreachable_host_never_enters_the_pipeline() {
    let mut conn = FakeConn::new();
    conn.unreachable.push(String::from("h1"));
    let module = Convergent::new(State::Matched);
    let mut ctx = RunContext::new();
    let mut failed = vec![false];
    let mut visitor = Observer::new(Recorder::default());
    let outcomes = run_task(&module, RunMode::Apply, &vec![String::from("h1")], None, &mut failed, &mut ctx, &mut conn, &PlainTemplar, &mut visitor).unwrap();
    assert_eq!(outcomes, vec![HostOutcome::ConnectFailed]);
    assert!(module.seen.borrow().is_empty());
    assert_eq!(failed, vec![true]);
    assert_eq!(ctx.get_total(Category::Failed), 1);
    assert!(visitor.visitor.events.contains(&String::from("unreachable h1")));
    assert_eq!(summarize(&ctx).verdict, Verdict::Failures);
}

#[test]
fn render_failure_fails_validation() {
    let run = run_host(&echo(), RunMode::Apply, &String::from("h1"), &mut FakeConn::new(), &BrokenTemplar, &mut Observer::new(Recorder::default())).unwrap();
    assert_eq!(run.outcome, HostOutcome::Failed);
    assert_eq!(run.statuses, vec![TaskStatus::Failed]);
}

#[test]
fn failed_command_fails_the_host() {
    let mut conn = FakeConn::new();
    conn.failing.push(String::from("h1"));
    let mut visitor = Observer::new(Recorder::default());
    let run = run_host(&echo(), RunMode::Apply, &String::from("h1"), &mut conn, &PlainTemplar, &mut visitor).unwrap();
    assert_eq!(run.outcome, HostOutcome::Failed);
    assert_eq!(visitor.visitor.events.iter().filter(|e| e.starts_with("command failed")).count(), 1);
}

#[test]
fn illegal_status_is_a_protocol_error() {
    let r = run_host(&Rogue, RunMode::Apply, &String::from("h1"), &mut FakeConn::new(), &PlainTemplar, &mut Observer::new(Recorder::default()));
    assert_eq!(
        r.err(),
        Some(ProtocolError::IllegalStatus { phase: TaskRequestType::Validate, status: TaskStatus::IsExecuted })
    );
}

#[test]
fn non_terminal_success_is_refused() {
    let mut ctx = RunContext::new();
    let r = record_outcome(&mut ctx, &String::from("h1"), HostOutcome::Succeeded(TaskStatus::NeedsCreation));
    assert_eq!(r, Err(ProtocolError::NotTerminal { status: TaskStatus::NeedsCreation }));
    assert_eq!(ctx.get_hosts_seen_count(), 0);
    assert_eq!(ctx.get_total(Category::Attempted), 0);
}

#[test]
fn shell_answers_by_phase() {
    let shell = Shell { name: Some(String::from("greet")), cmd: String::from("echo hi") };
    let handle = Response::new(String::from("h1"));
    let mut conn = FakeConn::new();
    let mut visitor = Observer::new(Recorder::default());
    let req = |p| TaskRequest { request_type: p, host: String::from("h1"), task: String::from("greet") };
    let q = shell.respond(&handle, &req(TaskRequestType::Query), &mut conn, &PlainTemplar, &mut visitor).unwrap();
    assert_eq!(q.status, TaskStatus::NeedsExecution);
    let c = shell.respond(&handle, &req(TaskRequestType::Create), &mut conn, &PlainTemplar, &mut visitor).unwrap_err();
    assert_eq!(c.status, TaskStatus::Failed);
    assert_eq!(c.msg.as_deref(), Some("not supported"));
    let e = shell.respond(&handle, &req(TaskRequestType::Execute), &mut conn, &PlainTemplar, &mut visitor).unwrap();
    assert_eq!(e.command_result.map(|r| r.rc), Some(0));
    assert!(conn.commands.len() == 1);
    assert_eq!(shell.get_module(), "Shell");
    assert_eq!(shell.get_name().as_deref(), Some("greet"));
    let ev = shell.evaluate(&handle, &req(TaskRequestType::Validate), &PlainTemplar).ok().unwrap();
    assert_eq!(ev.name, "greet");
    assert_eq!(ev.cmd, "echo hi");
    let unnamed = echo().evaluate(&handle, &req(TaskRequestType::Validate), &PlainTemplar).ok().unwrap();
    assert_eq!(unnamed.name, "MODULE");
}

#[test]
fn play_rolls_out_batch_by_batch() {
    let hosts = names(3);
    let tasks = vec![echo(), Shell { name: Some(String::from("second")), cmd: String::from("echo again") }];
    let mut conn = FakeConn::new();
    conn.failing.push(String::from("h2"));
    let mut ctx = RunContext::new();
    let mut visitor = Observer::new(Recorder::default());
    let rows = run_play(&tasks, RunMode::Apply, &hosts, Some(2), &mut ctx, &mut conn, &PlainTemplar, &mut visitor).unwrap();
    let ok = HostOutcome::Succeeded(TaskStatus::IsExecuted);
    assert_eq!(rows, vec![vec![ok, HostOutcome::Failed, ok], vec![ok, HostOutcome::NotRun, ok]]);
    let order: Vec<&String> = visitor
        .visitor
        .events
        .iter()
        .filter(|e| e.starts_with("start") || e.starts_with("batch"))
        .collect();
    assert_eq!(
        order,
        vec!["batch 0/2 2", "start h1", "start h2", "start h1", "batch 1/2 1", "start h3", "start h3"]
    );
    assert_eq!(
        conn.commands.iter().map(|(h, c)| format!("{} {}", h, c)).collect::<Vec<_>>(),
        vec!["h1 echo hi", "h2 echo hi", "h1 echo again", "h3 echo hi", "h3 echo again"]
    );
    assert_eq!(ctx.get_total(Category::Executed), 4);
    assert_eq!(ctx.get_total(Category::Failed), 1);
}

#[test]
fn command_outcomes_map_to_responses() {
    let handle = Response::new(String::from("h1"));
    let req = TaskRequest { request_type: TaskRequestType::Execute, host: String::from("h1"), task: String::from("t") };
    let mut visitor = Observer::new(Recorder::default());
    let ok = handle
        .command_response(&req, Ok(CommandResult { rc: 0, out: String::from("hi\n"), err: String::new() }), &mut visitor)
        .unwrap();
    assert_eq!(ok.status, TaskStatus::IsExecuted);
    assert_eq!(ok.command_result.as_ref().map(|c| c.out.as_str()), Some("hi\n"));
    assert!(ok.msg.is_none());
    let bad = handle
        .command_response(&req, Ok(CommandResult { rc: 2, out: String::new(), err: String::from("no") }), &mut visitor)
        .unwrap_err();
    assert_eq!(bad.status, TaskStatus::Failed);
    assert_eq!(bad.msg.as_deref(), Some("command failed"));
    assert_eq!(bad.command_result.map(|c| c.rc), Some(2));
    let gone = handle.command_response(&req, Err(String::from("broken pipe")), &mut visitor).unwrap_err();
    assert_eq!(gone.status, TaskStatus::Failed);
    assert_eq!(gone.msg.as_deref(), Some("broken pipe"));
    assert!(gone.command_result.is_none());
    assert_eq!(visitor.visitor.events, vec!["command ok h1 0", "command failed h1 2"]);
}

#[test]
fn render_outcomes_map_to_inputs() {
    let shell = echo();
    let handle = Response::new(String::from("h1"));
    let v = TaskRequest { request_type: TaskRequestType::Validate, host: String::from("h1"), task: String::from("t") };
    let e = shell.evaluate_outcome(&handle, &v, Ok(String::from("echo rendered"))).ok().unwrap();
    assert_eq!(e.cmd, "echo rendered");
    assert_eq!(e.name, "MODULE");
    let f = shell.evaluate_outcome(&handle, &v, Err(String::from("bad template"))).err().unwrap();
    assert_eq!(f.msg.as_deref(), Some("bad template"));
    assert_eq!(shell.validate_outcome(&handle, &v, Ok(String::from("x"))).unwrap().status, TaskStatus::IsValidated);
    assert_eq!(shell.validate_outcome(&handle, &v, Err(String::from("no"))).unwrap_err().status, TaskStatus::Failed);
    assert_eq!(handle.render_outcome(&v, Ok(String::from("abc"))).unwrap(), "abc");
    let x = TaskRequest { request_type: TaskRequestType::Execute, host: String::from("h1"), task: String::from("t") };
    let mut conn = FakeConn::new();
    let r = shell.execute_outcome(&handle, &x, Err(String::from("no")), &mut conn, &mut Observer::new(Recorder::default()));
    assert_eq!(r.unwrap_err().msg.as_deref(), Some("no"));
    assert!(conn.commands.is_empty());
    let r = shell.execute_outcome(&handle, &x, Ok(String::from("echo rendered")), &mut conn, &mut Observer::new(Recorder::default()));
    assert!(r.is_ok());
    assert_eq!(conn.commands, vec![(String::from("h1"), String::from("echo rendered"))]);
}

#[test]
fn nothing_to_run_succeeds() {
    let hosts = names(2);
    let mut failed = vec![true, true];
    let mut ctx = RunContext::new();
    let os = run_task(&Rogue, RunMode::Apply, &hosts, Some(1), &mut failed, &mut ctx, &mut FakeConn::new(), &PlainTemplar, &mut Observer::new(Recorder::default())).unwrap();
    assert_eq!(os, vec![HostOutcome::NotRun, HostOutcome::NotRun]);
    let tasks: Vec<Shell> = Vec::new();
    let rows = run_play(&tasks, RunMode::Apply, &hosts, None, &mut ctx, &mut FakeConn::new(), &PlainTemplar, &mut Observer::new(Recorder::default())).unwrap();
    assert!(rows.is_empty());
    assert_eq!(ctx.get_total(Category::Attempted), 0);
}

#[test]
fn hosts_with_counts_follow_outcomes() {
    let mut ctx = RunContext::new();
    for h in names(3) {
        record_outcome(&mut ctx, &h, HostOutcome::Succeeded(TaskStatus::IsMatched)).unwrap();
    }
    record_outcome(&mut ctx, &String::from("h1"), HostOutcome::Succeeded(TaskStatus::IsMatched)).unwrap();
    assert_eq!(ctx.get_hosts_count(Category::Attempted), 3);
    assert_eq!(ctx.get_hosts_count(Category::Failed), 0);
    assert_eq!(ctx.get_hosts_seen_count(), 3);
    assert_eq!(ctx.get_total(Category::Attempted), 4);
    record_outcome(&mut ctx, &String::from("h1"), HostOutcome::Skipped).unwrap();
    assert_eq!(ctx.get_total(Category::Attempted), 4);
}
