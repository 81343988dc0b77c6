use brane_vm::infra::LocationCredentials;
use brane_vm::job::{k8s_config_file, k8s_config_from_decoded, k8s_config_text, keep_base64_symbols, JobError};

#[test]
fn base64_symbols_are_kept_and_the_rest_dropped() {
    assert_eq!(keep_base64_symbols(" YXBp\nVm Vy\r\n=="), "YXBpVmVy==");
    assert_eq!(keep_base64_symbols("a+b/c=\t!?"), "a+b/c=");
    assert_eq!(keep_base64_symbols(""), "");
}

#[test]
fn config_file_with_line_breaks_decodes() {
    let file = "YXBpVmVyc2lvbjogdjEK\n  a2luZDogQ29uZmlnCg==\n";
    assert_eq!(k8s_config_text("site", file).unwrap(), "apiVersion: v1\nkind: Config\n");
}

#[test]
fn config_file_that_is_no_base64_is_refused() {
    match k8s_config_text("site", "a") {
        Err(JobError::K8sBase64Error { location_id, .. }) => assert_eq!(location_id, "site"),
        other => panic!("unexpected result: {:?}", other),
    }
}

#[test]
fn config_file_that_is_no_utf8_is_refused() {
    match k8s_config_text("site", "//4=") {
        Err(JobError::K8sUTF8Error { location_id, .. }) => assert_eq!(location_id, "site"),
        other => panic!("unexpected result: {:?}", other),
    }
}

#[test]
fn decoded_bytes_become_text() {
    assert_eq!(k8s_config_from_decoded("site", Ok(b"kind: Config".to_vec())).unwrap(), "kind: Config");
    assert!(matches!(
        k8s_config_from_decoded("site", Ok(vec![0xc3])),
        Err(JobError::K8sUTF8Error { .. })
    ));
}

#[test]
fn only_config_credentials_hold_a_config_file() {
    let config = LocationCredentials::Config { file: "ZmlsZQ==".to_string() };
    assert_eq!(k8s_config_file("site", &config).unwrap(), "ZmlsZQ==");
    let password = LocationCredentials::SshPassword { username: "u".to_string(), password: "p".to_string() };
    match k8s_config_file("site", &password) {
        Err(JobError::K8sIllegalCredentials { location_id, cred_type }) => {
            assert_eq!(location_id, "site");
            assert_eq!(cred_type, "SshPassword");
        },
        other => panic!("unexpected result: {:?}", other),
    }
}
