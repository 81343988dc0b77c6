use brane_vm::container::{check_cleaned, generate_dockerfile, safe_relative_path, BuildError, ContainerSpec};

const JUICE: &str = "https://github.com/juicedata/juicefs/releases/download/v0.12.1/juicefs-0.12.1-linux-amd64.tar.gz";

fn spec(base: Option<&str>, entrypoint: &str) -> ContainerSpec {
    ContainerSpec {
        base: base.map(|b| b.to_string()),
        environment: vec![("A".to_string(), "1".to_string()), ("B".to_string(), "two".to_string())],
        dependencies: vec!["curl".to_string(), "git".to_string()],
        entrypoint: entrypoint.to_string(),
        install: vec!["echo hi".to_string()],
    }
}

#[test]
fn paths_are_cleaned() {
    assert_eq!(safe_relative_path("./bin//run.sh").unwrap(), "bin/run.sh");
    assert_eq!(safe_relative_path("x/../run.sh").unwrap(), "run.sh");
    assert_eq!(safe_relative_path("").unwrap(), ".");
}

#[test]
fn paths_that_step_out_are_refused() {
    match safe_relative_path("a/../../b") {
        Err(BuildError::UnsafePath { path }) => assert_eq!(path, "../b"),
        other => panic!("unexpected result: {:?}", other),
    }
    assert!(matches!(check_cleaned("a..b".to_string()), Err(BuildError::UnsafePath { .. })));
    assert_eq!(check_cleaned("a.b".to_string()).unwrap(), "a.b");
}

#[test]
fn dockerfile_on_ubuntu_fetches_the_branelet() {
    let text = generate_dockerfile(&spec(None, "run.sh"), false, "URL").unwrap();
    let expected = format!(
        "# Generated by Brane\nFROM ubuntu:20.04\nENV A=1\nENV B=two\nRUN apt-get update && DEBIAN_FRONTEND=noninteractive apt-get install -y --allow-change-held-packages --allow-downgrades fuse iptables curl git \nADD URL branelet\nRUN chmod +x branelet\nADD {} juicefs.tar.gz\nRUN tar -xzf juicefs.tar.gz && rm juicefs.tar.gz && mkdir /data\nCOPY container.yml /container.yml\nADD wd.tar.gz /opt\nWORKDIR /opt/wd\nRUN chmod +x /opt/wd/run.sh\nRUN echo hi\nENTRYPOINT [\"/branelet\"]\n",
        JUICE
    );
    assert_eq!(text, expected);
}

#[test]
fn dockerfile_on_alpine_uses_apk_and_the_copied_branelet() {
    let text = generate_dockerfile(&spec(Some("alpine:3.14"), "run.sh"), true, "URL").unwrap();
    assert!(text.starts_with("# Generated by Brane\nFROM alpine:3.14\nENV A=1\nENV B=two\nRUN apk add --no-cache fuse iptables curl git \nADD branelet branelet\n"));
}

#[test]
fn dockerfile_refuses_an_entrypoint_outside_the_package() {
    match generate_dockerfile(&spec(None, "../run.sh"), false, "URL") {
        Err(BuildError::UnsafePath { path }) => assert_eq!(path, "../run.sh"),
        other => panic!("unexpected result: {:?}", other),
    }
}
