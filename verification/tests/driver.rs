use brane_vm::driver::{
    call_correlation_id, correlation_id, created_outcome, external_command, job_image, monitor_event, poll_decision,
    service_value, uses_heartbeats, wait_step, wait_timeout, Change, JobStatus, PollOutcome, ScheduleError, WaitStep,
};
use brane_vm::value::{FunctionExt, Value};
use brane_vm::job::{route_message, EventKind, MessageRoute};

#[test]
fn correlation_is_the_part_before_the_first_dash() {
    assert_eq!(correlation_id("abc-1-2"), "abc");
    assert_eq!(correlation_id("abc"), "abc");
    assert_eq!(correlation_id("-x"), "");
}

#[test]
fn events_update_the_status_of_their_job() {
    let (cid, change) = monitor_event(EventKind::Created.to_i32(), "job7-3", "site", String::new());
    assert_eq!(cid, "job7");
    assert!(matches!(change, Change::Created { location } if location == "site"));
    let (_, change) = monitor_event(EventKind::StartFailed.to_i32(), "j", "l", "boom".to_string());
    assert!(matches!(change, Change::Status(JobStatus::StartFailed { err }) if err == "boom"));
    let (_, change) = monitor_event(EventKind::Heartbeat.to_i32(), "j", "l", String::new());
    assert!(matches!(change, Change::Heartbeat));
    let (_, change) = monitor_event(EventKind::Finished.to_i32(), "j", "l", "42".to_string());
    assert!(matches!(change, Change::Status(JobStatus::Finished { res }) if res == "42"));
}

#[test]
fn timeouts_depend_on_the_status_waited_in() {
    assert_eq!(wait_timeout(&JobStatus::Unknown), 60_000);
    assert_eq!(wait_timeout(&JobStatus::Ready), 30_000);
    assert_eq!(wait_timeout(&JobStatus::Started), 10_000);
    assert_eq!(wait_timeout(&JobStatus::Completed), 30_000);
    assert!(uses_heartbeats(&JobStatus::Started));
    assert!(!uses_heartbeats(&JobStatus::Ready));
}

#[test]
fn polling_sees_changes_of_kind_only() {
    assert!(matches!(poll_decision(&JobStatus::Created, Some(JobStatus::Ready), 0, 10), PollOutcome::Changed(JobStatus::Ready)));
    assert!(matches!(poll_decision(&JobStatus::Created, Some(JobStatus::Created), 3, 10), PollOutcome::Pending));
    assert!(matches!(poll_decision(&JobStatus::Created, None, 10, 10), PollOutcome::TimedOut));
    assert!(matches!(
        poll_decision(&JobStatus::Failed { res: "a".into() }, Some(JobStatus::Failed { res: "b".into() }), 0, 10),
        PollOutcome::Pending
    ));
}

#[test]
fn waiting_ends_on_final_statuses_and_timeouts() {
    assert!(matches!(wait_step("c", &JobStatus::Completed, Some(JobStatus::Finished { res: "1".into() })), WaitStep::Finished { res } if res == "1"));
    assert!(matches!(wait_step("c", &JobStatus::Started, Some(JobStatus::Completed)), WaitStep::Wait(JobStatus::Completed)));
    assert!(matches!(
        wait_step("c", &JobStatus::Started, Some(JobStatus::Stopped { signal: "KILL".into() })),
        WaitStep::Error(ScheduleError::JobStopped { correlation_id, signal }) if correlation_id == "c" && signal == "KILL"
    ));
    assert!(matches!(wait_step("c", &JobStatus::Started, None), WaitStep::Error(ScheduleError::JobHeartbeatTimeout { .. })));
    assert!(matches!(wait_step("c", &JobStatus::Unknown, None), WaitStep::Error(ScheduleError::JobCreatedTimeout { .. })));
    assert!(matches!(wait_step("c", &JobStatus::Completed, None), WaitStep::Error(ScheduleError::JobResultTimeout { .. })));
}

#[test]
fn creation_waits_for_any_status_but_a_failure() {
    assert!(created_outcome("c", Some(JobStatus::Ready)).is_ok());
    assert!(matches!(created_outcome("c", Some(JobStatus::CreateFailed { err: "e".into() })), Err(ScheduleError::JobCreateFailed { .. })));
    assert!(matches!(created_outcome("c", None), Err(ScheduleError::JobCreatedTimeout { correlation_id }) if correlation_id == "c"));
}

#[test]
fn messages_are_routed_by_topic() {
    assert!(matches!(route_message(None, true, "clb", "clb", "cmd"), MessageRoute::NoKey));
    assert!(matches!(route_message(Some("k".into()), false, "clb", "clb", "cmd"), MessageRoute::NoPayload { .. }));
    assert!(matches!(route_message(Some("k".into()), true, "clb", "clb", "cmd"), MessageRoute::Callback { key } if key == "k"));
    assert!(matches!(route_message(Some("k".into()), true, "cmd", "clb", "cmd"), MessageRoute::Command { .. }));
    assert!(matches!(route_message(Some("k".into()), true, "evt", "clb", "cmd"), MessageRoute::UnknownTopic { topic, .. } if topic == "evt"));
}

fn function() -> FunctionExt {
    FunctionExt {
        name: "hello".to_string(),
        detached: false,
        digest: "sha256:ab".to_string(),
        package: "greet".to_string(),
        kind: "ecu".to_string(),
        version: "1.0.0".to_string(),
        parameters: vec![],
    }
}

#[test]
fn external_calls_become_create_commands() {
    assert_eq!(job_image(&function()), "greet:1.0.0@sha256:ab");
    let id = call_correlation_id("0123456789abcdef", "xyz123");
    assert_eq!(id, "A01234567Rxyz123");
    let c = external_command(&function(), "e30=".to_string(), id.clone(), "session".to_string(), Some("site".to_string()));
    assert_eq!(c.kind, 1);
    assert_eq!(c.identifier, Some(id));
    assert_eq!(c.application, Some("session".to_string()));
    assert_eq!(c.location, Some("site".to_string()));
    assert_eq!(c.image, Some("greet:1.0.0@sha256:ab".to_string()));
    assert_eq!(c.command, vec!["ecu".to_string(), "hello".to_string(), "e30=".to_string()]);
    assert!(c.mounts.is_empty());
}

#[test]
fn detached_calls_return_a_service() {
    match service_value("A1R2".to_string(), "10.0.0.1".to_string()) {
        Value::Struct { data_type, properties } => {
            assert_eq!(data_type, "Service");
            assert_eq!(properties[0].0, "identifier");
            assert!(matches!(&properties[0].1, Value::Unicode(s) if s == "A1R2"));
            assert_eq!(properties[1].0, "address");
        },
        other => panic!("unexpected: {:?}", other),
    }
}
