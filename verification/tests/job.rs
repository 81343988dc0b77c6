use brane_vm::callback::{Callback, CallbackKind};
use brane_vm::infra::{Location, LocationCredentials};
use brane_vm::job::{
    construct_environment, created_event, handle, handle_clb_message, plan_location, strip_digest, validate_command,
    Command, CommandKind, Event, EventKind, JobError, LocationRun, Mount,
};

#[test]
fn callback_codes_roundtrip() {
    for code in 0..13 {
        let kind = CallbackKind::from_i32(code).unwrap();
        assert_eq!(kind.to_i32(), code);
    }
    assert_eq!(CallbackKind::from_i32(13), None);
    assert_eq!(CallbackKind::from_i32(-1), None);
    assert_eq!(CallbackKind::Heartbeat.to_i32(), 6);
}

#[test]
fn command_codes_roundtrip() {
    for kind in [CommandKind::Unknown, CommandKind::Create, CommandKind::Stop] {
        assert_eq!(CommandKind::from_i32(kind.to_i32()), Some(kind));
    }
    assert_eq!(CommandKind::Stop.to_i32(), 3);
    assert_eq!(CommandKind::from_i32(2), None);
    assert_eq!(CommandKind::Create.name(), "CREATE");
}

#[test]
fn event_codes_roundtrip_and_failures_are_negative() {
    let kinds = [
        EventKind::Unknown, EventKind::Created, EventKind::CreateFailed, EventKind::Ready, EventKind::Initialized,
        EventKind::InitializeFailed, EventKind::Started, EventKind::StartFailed, EventKind::Heartbeat,
        EventKind::CompleteFailed, EventKind::Completed, EventKind::DecodeFailed, EventKind::Failed, EventKind::Stopped,
        EventKind::Finished, EventKind::Connected, EventKind::Disconnected,
    ];
    for kind in kinds {
        assert_eq!(EventKind::from_i32(kind.to_i32()), Some(kind));
    }
    assert_eq!(EventKind::CreateFailed.to_i32(), -1);
    assert_eq!(EventKind::Failed.to_i32(), -10);
    assert_eq!(EventKind::from_i32(7), None);
}

fn command(identifier: Option<&str>, image: Option<&str>) -> Command {
    Command::new(
        CommandKind::Create,
        identifier.map(|s| s.to_string()),
        Some("app".to_string()),
        Some("loc".to_string()),
        image.map(|s| s.to_string()),
        vec![],
        Some(vec![Mount::new("/a".to_string(), "/b".to_string())]),
    )
}

#[test]
fn validate_names_the_first_missing_field() {
    assert!(validate_command("k", &command(Some("j"), Some("img"))).is_ok());
    match validate_command("k", &command(None, None)) {
        Err(JobError::IllegalCommandError { key, kind, field }) => {
            assert_eq!(key, "k");
            assert_eq!(kind, "CREATE");
            assert_eq!(field, "identifier");
        },
        other => panic!("unexpected: {:?}", other),
    }
    match validate_command("k", &command(Some("j"), None)) {
        Err(JobError::IllegalCommandError { field, .. }) => assert_eq!(field, "image"),
        other => panic!("unexpected: {:?}", other),
    }
}

#[test]
fn command_without_mounts_has_none() {
    let c = Command::new(CommandKind::Stop, None, None, None, None, vec!["x".to_string()], None);
    assert_eq!(c.kind, 3);
    assert!(c.mounts.is_empty());
    assert_eq!(c.command, vec!["x".to_string()]);
}

#[test]
fn environment_lists_ids_then_optional_entries() {
    let env = construct_environment(
        "a".to_string(),
        "l".to_string(),
        "j".to_string(),
        "cb".to_string(),
        &Some("proxy:1".to_string()),
        &None,
    )
    .unwrap();
    let keys: Vec<&str> = env.iter().map(|(k, _)| k.as_str()).collect();
    assert_eq!(keys, vec!["BRANE_APPLICATION_ID", "BRANE_LOCATION_ID", "BRANE_JOB_ID", "BRANE_CALLBACK_TO", "BRANE_PROXY_ADDRESS"]);
    assert_eq!(env[4].1, "proxy:1");
    assert_eq!(env[3].1, "cb");
}

#[test]
fn callback_messages_are_sorted_by_kind() {
    let cb = |kind: i32| Callback { kind, job: "j".to_string(), application: "a".to_string(), location: "l".to_string(), order: 0, payload: vec![] };
    assert!(matches!(handle_clb_message("k".to_string(), &cb(0)), Ok(None)));
    assert!(matches!(handle_clb_message("k".to_string(), &cb(6)), Ok(Some(CallbackKind::Heartbeat))));
    assert!(matches!(handle_clb_message("k".to_string(), &cb(42)), Err(JobError::IllegalCallbackKind { kind: 42 })));
    assert!(handle(cb(8)).unwrap().is_empty());
}

#[test]
fn callback_new_stores_the_kind_number() {
    let c = Callback::new(CallbackKind::Finished, "j".to_string(), "a".to_string(), "l".to_string(), 3, vec![1, 2]);
    assert_eq!(c.kind, 12);
    assert_eq!(c.order, 3);
    assert_eq!(c.payload, vec![1, 2]);
}

#[test]
fn digest_is_cut_at_the_first_at_sign() {
    assert_eq!(strip_digest("img:1.0@sha256:abc"), "img:1.0");
    assert_eq!(strip_digest("img:1.0"), "img:1.0");
    assert_eq!(strip_digest("a@b@c"), "a");
    assert_eq!(strip_digest(&strip_digest("x@y")), strip_digest("x@y"));
}

#[test]
fn created_event_carries_the_image() {
    let (key, event) = created_event("job", "app", "loc", "img@sha256:1");
    assert_eq!(key, "job#0");
    assert_eq!(event.kind, EventKind::Created.to_i32());
    assert_eq!(event.identifier, "job");
    assert_eq!(event.payload, b"img".to_vec());
}

#[test]
fn event_new_stamps_the_time_when_none_is_given() {
    let e = Event::new(EventKind::Ready, "j".to_string(), "a".to_string(), "l".to_string(), "job".to_string(), 1, None, None);
    assert!(e.timestamp > 1_600_000_000);
    assert!(e.payload.is_empty());
    let e = Event::new(EventKind::Ready, "j".to_string(), "a".to_string(), "l".to_string(), "job".to_string(), 1, Some(vec![9]), Some(5));
    assert_eq!(e.timestamp, 5);
    assert_eq!(e.payload, vec![9]);
}

#[test]
fn plans_a_local_location() {
    let location = Location::Local {
        address: None,
        callback_to: "cb".to_string(),
        network: "net".to_string(),
        registry: "reg".to_string(),
        proxy_address: None,
        mount_dfs: Some("redis://x".to_string()),
    };
    let plan = plan_location("a", "l", "j", location, &vec![]);
    assert!(matches!(&plan.run, LocationRun::Local { network } if network == "net"));
    assert_eq!(plan.environment.len(), 5);
    assert_eq!(plan.environment[4].0, "BRANE_MOUNT_DFS");
}

#[test]
fn plans_a_vm_location_with_its_credentials() {
    let location = Location::Vm {
        address: "host".to_string(),
        callback_to: "cb".to_string(),
        runtime: "docker".to_string(),
        registry: "reg".to_string(),
        credentials: LocationCredentials::SshPassword { username: "u".to_string(), password: "s$pw".to_string() },
        proxy_address: None,
        mount_dfs: None,
    };
    let secrets = vec![("pw".to_string(), "resolved-value".to_string())];
    let plan = plan_location("a", "l", "j", location, &secrets);
    match &plan.run {
        LocationRun::Vm { address, runtime, credentials: LocationCredentials::SshPassword { username, password } } => {
            assert_eq!(address, "host");
            assert_eq!(runtime, "docker");
            assert_eq!(username, "u");
            assert_eq!(password, "resolved-value");
        },
        other => panic!("unexpected: {:?}", other),
    }
    assert_eq!(plan.environment.len(), 4);
}

fn run_command(image: &str) -> Command {
    Command::new(
        CommandKind::Create,
        Some("j".to_string()),
        Some("a".to_string()),
        Some("l".to_string()),
        Some(image.to_string()),
        vec!["pkg".to_string(), "fn".to_string()],
        Some(vec![Mount::new("/src".to_string(), "/dst".to_string())]),
    )
}

#[test]
fn docker_jobs_run_the_image_without_digest() {
    let env = vec![("A".to_string(), "1".to_string())];
    let d = brane_vm::job::docker_job_description(&run_command("img:1@sha256:x"), "job1", &env, Some("net".to_string()));
    assert_eq!(d.executable, "docker");
    assert_eq!(d.queue, Some("unlimited".to_string()));
    assert_eq!(
        d.arguments,
        vec![
            "run", "--rm", "--name", "job1", "--privileged", "--network", "net", "--hostname", "job1", "--env", "A=1", "-v",
            "/src:/dst", "img:1", "--debug", "pkg", "fn",
        ]
    );
    assert_eq!(d.stdout, "stdout-job1.txt");
    assert_eq!(d.stderr, "stderr-job1.txt");
}

#[test]
fn singularity_jobs_drop_capabilities_unless_dfs_is_mounted() {
    let d = brane_vm::job::singularity_job_description(&run_command("img"), "j2", &vec![]);
    assert_eq!(d.executable, "sudo");
    assert_eq!(
        d.arguments,
        vec![
            "singularity", "run", "--nohttps", "--drop-caps", "ALL", "--add-caps",
            "CAP_NET_ADMIN,CAP_NET_BIND_SERVICE,CAP_NET_RAW", "-B", "/src:/dst", "docker://img", "pkg", "fn",
        ]
    );
    let env = vec![("BRANE_MOUNT_DFS".to_string(), "redis://r".to_string())];
    let d = brane_vm::job::singularity_job_description(&run_command("img"), "j2", &env);
    assert_eq!(&d.arguments[..5], &["singularity", "run", "--nohttps", "--env", "BRANE_MOUNT_DFS=redis://r"]);
}

#[test]
fn xenon_jobs_pick_the_runtime_whatever_its_case() {
    let d = brane_vm::job::xenon_job_description(&run_command("img"), "j", "site", &vec![], "Docker").unwrap();
    assert_eq!(d.executable, "docker");
    assert_eq!(d.arguments[6], "host");
    let d = brane_vm::job::xenon_job_description(&run_command("img"), "j", "site", &vec![], "SINGULARITY").unwrap();
    assert_eq!(d.executable, "sudo");
    match brane_vm::job::xenon_job_description(&run_command("img"), "j", "site", &vec![], "Podman") {
        Err(JobError::XenonUnknownRuntime { runtime, location_id }) => {
            assert_eq!(runtime, "podman");
            assert_eq!(location_id, "site");
        },
        other => panic!("unexpected: {:?}", other),
    }
}

#[test]
fn kubernetes_jobs_are_named_in_lowercase() {
    let spec = brane_vm::job::k8s_job_spec("JobABC", &run_command("img@sha256:0"), vec![("K".to_string(), "V".to_string())]);
    assert_eq!(spec.name, "jobabc");
    assert_eq!(spec.image, "img");
    assert_eq!(spec.args, vec!["pkg".to_string(), "fn".to_string()]);
    assert_eq!(spec.env.len(), 1);
}
