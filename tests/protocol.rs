use jetporch::protocol::{
    build_response, check_response, is_legal, phase_to_apply, Field, ProtocolError, TaskRequest,
    TaskRequestType, TaskResponse, TaskStatus,
};
use jetporch::response::Response;

fn phases() -> Vec<TaskRequestType> {
    vec![
    TaskRequestType::Validate,
    TaskRequestType::Query,
    TaskRequestType::Create,
    TaskRequestType::Remove,
    TaskRequestType::Modify,
    TaskRequestType::Execute,
    TaskRequestType::Passive,
    ]
}

fn statuses() -> Vec<TaskStatus> {
    vec![
    TaskStatus::IsValidated,
    TaskStatus::IsSkipped,
    TaskStatus::IsMatched,
    TaskStatus::IsCreated,
    TaskStatus::IsRemoved,
    TaskStatus::IsModified,
    TaskStatus::IsExecuted,
    TaskStatus::IsPassive,
    TaskStatus::NeedsCreation,
    TaskStatus::NeedsRemoval,
    TaskStatus::NeedsModification,
    TaskStatus::NeedsExecution,
    TaskStatus::NeedsPassive,
    TaskStatus::Failed,
    ]
}

fn table(phase: TaskRequestType) -> Vec<TaskStatus> {
    match phase {
        TaskRequestType::Validate => vec![TaskStatus::IsValidated, TaskStatus::IsSkipped, TaskStatus::Failed],
        TaskRequestType::Query => vec![
            TaskStatus::IsMatched,
            TaskStatus::NeedsCreation,
            TaskStatus::NeedsModification,
            TaskStatus::NeedsRemoval,
            TaskStatus::NeedsExecution,
            TaskStatus::NeedsPassive,
            TaskStatus::Failed,
        ],
        TaskRequestType::Create => vec![TaskStatus::IsCreated, TaskStatus::Failed],
        TaskRequestType::Modify => vec![TaskStatus::IsModified, TaskStatus::Failed],
        TaskRequestType::Remove => vec![TaskStatus::IsRemoved, TaskStatus::Failed],
        TaskRequestType::Execute => vec![TaskStatus::IsExecuted, TaskStatus::Failed],
        TaskRequestType::Passive => vec![TaskStatus::IsPassive, TaskStatus::Failed],
    }
}

fn request(phase: TaskRequestType) -> TaskRequest {
    TaskRequest { request_type: phase, host: String::from("h1"), task: String::from("t") }
}

fn field() -> Field {
    Field { name: String::from("mode"), before: String::from("644"), after: String::from("600") }
}

#[test]
fn legality_matches_the_table() {
    for phase in phases() {
        for status in statuses() {
            assert_eq!(is_legal(phase, status), table(phase).contains(&status), "{:?} {:?}", phase, status);
        }
    }
}

#[test]
fn illegal_pairs_are_rejected() {
    for phase in phases() {
        for status in statuses() {
            let needs = status == TaskStatus::IsModified || status == TaskStatus::NeedsModification;
            let changes = if needs { vec![field()] } else { Vec::new() };
            let r = build_response(&request(phase), status, changes);
            if table(phase).contains(&status) {
                let r = r.expect("legal pair");
                assert_eq!(r.status, status);
            } else {
                assert_eq!(r.unwrap_err(), ProtocolError::IllegalStatus { phase, status });
            }
        }
    }
}

#[test]
fn validate_only_statuses_are_rejected_elsewhere() {
    for phase in phases() {
        if phase == TaskRequestType::Validate {
            continue;
        }
        for status in [TaskStatus::IsValidated, TaskStatus::IsSkipped] {
            assert!(build_response(&request(phase), status, Vec::new()).is_err());
        }
    }
    assert!(build_response(&request(TaskRequestType::Validate), TaskStatus::IsMatched, Vec::new()).is_err());
    assert!(build_response(&request(TaskRequestType::Create), TaskStatus::IsExecuted, Vec::new()).is_err());
}

#[test]
fn modification_needs_changes() {
    let q = request(TaskRequestType::Query);
    let m = request(TaskRequestType::Modify);
    assert_eq!(
        build_response(&q, TaskStatus::NeedsModification, Vec::new()).unwrap_err(),
        ProtocolError::ChangesMismatch { status: TaskStatus::NeedsModification }
    );
    assert_eq!(
        build_response(&m, TaskStatus::IsModified, Vec::new()).unwrap_err(),
        ProtocolError::ChangesMismatch { status: TaskStatus::IsModified }
    );
    let ok = build_response(&m, TaskStatus::IsModified, vec![field()]).unwrap();
    assert_eq!(ok.changes.len(), 1);
    assert_eq!(ok.changes[0].after, "600");
    assert_eq!(
        build_response(&request(TaskRequestType::Create), TaskStatus::IsCreated, vec![field()]).unwrap_err(),
        ProtocolError::ChangesMismatch { status: TaskStatus::IsCreated }
    );
}

#[test]
fn check_response_flags_bad_responses() {
    let r = TaskResponse { status: TaskStatus::IsMatched, changes: Vec::new(), msg: None, command_result: None };
    assert!(check_response(TaskRequestType::Query, &r).is_ok());
    assert_eq!(
        check_response(TaskRequestType::Execute, &r),
        Err(ProtocolError::IllegalStatus { phase: TaskRequestType::Execute, status: TaskStatus::IsMatched })
    );
}

#[test]
fn apply_phase_for_each_need() {
    assert_eq!(phase_to_apply(TaskStatus::NeedsCreation), Some(TaskRequestType::Create));
    assert_eq!(phase_to_apply(TaskStatus::NeedsModification), Some(TaskRequestType::Modify));
    assert_eq!(phase_to_apply(TaskStatus::NeedsRemoval), Some(TaskRequestType::Remove));
    assert_eq!(phase_to_apply(TaskStatus::NeedsExecution), Some(TaskRequestType::Execute));
    assert_eq!(phase_to_apply(TaskStatus::NeedsPassive), Some(TaskRequestType::Passive));
    assert_eq!(phase_to_apply(TaskStatus::IsMatched), None);
}

#[test]
fn constructors_give_their_status() {
    let h = Response::new(String::from("h1"));
    assert_eq!(h.is_validated(&request(TaskRequestType::Validate)).status, TaskStatus::IsValidated);
    assert_eq!(h.is_skipped(&request(TaskRequestType::Validate)).status, TaskStatus::IsSkipped);
    assert_eq!(h.is_matched(&request(TaskRequestType::Query)).status, TaskStatus::IsMatched);
    assert_eq!(h.needs_creation(&request(TaskRequestType::Query)).status, TaskStatus::NeedsCreation);
    assert_eq!(h.needs_removal(&request(TaskRequestType::Query)).status, TaskStatus::NeedsRemoval);
    assert_eq!(h.needs_execution(&request(TaskRequestType::Query)).status, TaskStatus::NeedsExecution);
    assert_eq!(h.needs_passive(&request(TaskRequestType::Query)).status, TaskStatus::NeedsPassive);
    let nm = h.needs_modification(&request(TaskRequestType::Query), &vec![field()]);
    assert_eq!(nm.status, TaskStatus::NeedsModification);
    assert_eq!(nm.changes.len(), 1);
    assert_eq!(nm.changes[0].name, "mode");
    assert_eq!(h.is_created(&request(TaskRequestType::Create)).status, TaskStatus::IsCreated);
    assert_eq!(h.is_removed(&request(TaskRequestType::Remove)).status, TaskStatus::IsRemoved);
    assert_eq!(h.is_executed(&request(TaskRequestType::Execute)).status, TaskStatus::IsExecuted);
    assert_eq!(h.is_passive(&request(TaskRequestType::Passive)).status, TaskStatus::IsPassive);
    let m = h.is_modified(&request(TaskRequestType::Modify), vec![field()]);
    assert_eq!(m.status, TaskStatus::IsModified);
    assert_eq!(m.changes.len(), 1);
}

#[test]
fn failures_carry_their_message() {
    let h = Response::new(String::from("h1"));
    let f = h.is_failed(&request(TaskRequestType::Create), &String::from("boom"));
    assert_eq!(f.status, TaskStatus::Failed);
    assert_eq!(f.msg.as_deref(), Some("boom"));
    let n = h.not_supported(&request(TaskRequestType::Remove));
    assert_eq!(n.status, TaskStatus::Failed);
    assert_eq!(n.msg.as_deref(), Some("not supported"));
}
