use brane_vm::bytecode::{ChunkMut, FunctionMut, Opcode};
use brane_vm::heap::Heap;
use brane_vm::builtins::ServiceState;
use brane_vm::cli::waits_for_container;
use brane_vm::driver::{correlation_id, monitor_event_payload, Change, JobStatus};
use brane_vm::job::{create_events, create_failed_event, EventKind, JobError};
use brane_vm::vm::{Vm, VmError};

#[test]
fn failed_creation_is_reported_as_an_event() {
    let (key, event) = create_failed_event("job-1", "app", "site", "no such location");
    assert_eq!(key, "job-1#0");
    assert_eq!(event.kind, EventKind::CreateFailed.to_i32());
    assert_eq!(event.identifier, "job-1");
    assert_eq!(event.application, "app");
    assert_eq!(event.location, "site");
    assert_eq!(event.category, "job");
    assert_eq!(event.order, 0);
    assert_eq!(event.payload, b"no such location".to_vec());
}

#[test]
fn names_are_listed_in_quotes() {
    assert_eq!(JobError::serialize_vec(&vec!["a".to_string(), "b".to_string()]), "'a', 'b'");
    assert_eq!(JobError::serialize_vec(&vec!["x".to_string()]), "'x'");
    assert_eq!(JobError::serialize_vec(&vec![]), "");
}

#[test]
fn heap_stays_within_its_capacity() {
    let mut heap: Heap<u32> = Heap::new(2);
    let a = heap.allocate(1).unwrap();
    let b = heap.allocate(2).unwrap();
    assert!(heap.allocate(3).is_err());
    assert!(heap.len() <= heap.capacity());
    assert_eq!(heap.capacity(), 2);
    drop((a, b));
}

#[test]
fn an_array_longer_than_the_stack_is_an_arity_error() {
    let mut chunk = ChunkMut::default();
    chunk.write_pair(Opcode::ARRAY.to_u8(), 3);
    let f = FunctionMut::new("main".to_string(), 0, chunk);
    let mut vm = Vm::new_with(None, None).unwrap();
    vm.begin_main(f).unwrap();
    assert!(vm.can_step());
    match vm.step() {
        Err(VmError::ArrayArityError { got, expected }) => {
            assert_eq!(got, 1);
            assert_eq!(expected, 3);
        },
        other => panic!("unexpected step: {:?}", other),
    }
}

#[test]
fn a_failed_placement_becomes_one_create_failed_event() {
    let events = create_events("job-1", "app", "site", Err("no room".to_string()));
    assert_eq!(events.len(), 1);
    assert_eq!(events[0].0, "job-1#0");
    assert_eq!(events[0].1.kind, EventKind::CreateFailed.to_i32());
    assert_eq!(events[0].1.payload, b"no room".to_vec());
    let (key, event) = create_failed_event("j", "a", "l", "x");
    let kept = create_events("j", "a", "l", Ok(vec![(key.clone(), event)]));
    assert_eq!(kept.len(), 1);
    assert_eq!(kept[0].0, key);
}

#[test]
fn only_a_wait_for_a_finished_service_waits_for_its_container() {
    assert!(!waits_for_container(ServiceState::Started));
    assert!(waits_for_container(ServiceState::Done));
    assert!(waits_for_container(ServiceState::Created));
}

#[test]
fn event_payloads_are_read_as_text() {
    let (cid, change) = monitor_event_payload(EventKind::CreateFailed.to_i32(), "A12345678R-abc", "site", &b"boom".to_vec());
    assert_eq!(cid, correlation_id("A12345678R-abc"));
    assert!(matches!(change, Change::Status(JobStatus::CreateFailed { err }) if err == "boom"));
    let (_, change) = monitor_event_payload(EventKind::CreateFailed.to_i32(), "A12345678R-abc", "site", &vec![0xff, b'x']);
    assert!(matches!(change, Change::Status(JobStatus::CreateFailed { err }) if err == "\u{fffd}x"));
}
