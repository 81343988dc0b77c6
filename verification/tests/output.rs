use brane_vm::cli::{completed_call, decode_output, last_line, EncodeDecodeError, ExecutorError};
use brane_vm::value::FunctionExt;

fn function() -> FunctionExt {
    FunctionExt {
        name: "f".to_string(),
        detached: false,
        digest: String::new(),
        package: "pkg".to_string(),
        kind: "ecu".to_string(),
        version: "1.0.0".to_string(),
        parameters: vec![],
    }
}

#[test]
fn last_line_follows_str_lines() {
    for s in ["", "a", "a\nb", "a\nb\n", "a\r\n", "a\n\n", "\n", "x\ny\r", "one line\r\n"] {
        assert_eq!(last_line(s), s.lines().last().unwrap_or_default(), "on {:?}", s);
    }
    assert_eq!(last_line("log\neyJ2IjoxfQ==\n"), "eyJ2IjoxfQ==");
}

#[test]
fn output_is_decoded_from_base64() {
    assert_eq!(decode_output("eyJ2IjoxfQ==").unwrap(), "{\"v\":1}");
    assert!(matches!(decode_output("a"), Err(EncodeDecodeError::Base64DecodeError { .. })));
    assert!(matches!(decode_output("//4="), Err(EncodeDecodeError::Utf8DecodeError { .. })));
}

#[test]
fn failed_container_is_a_failed_call() {
    match completed_call(&function(), 2, "out".to_string(), "err".to_string()) {
        Err(ExecutorError::ExternalCallFailed { name, package, version, code, stdout, stderr }) => {
            assert_eq!((name.as_str(), package.as_str(), version.as_str()), ("f", "pkg", "1.0.0"));
            assert_eq!(code, 2);
            assert_eq!((stdout.as_str(), stderr.as_str()), ("out", "err"));
        },
        other => panic!("unexpected result: {:?}", other),
    }
}

#[test]
fn finished_container_hands_back_its_last_line() {
    let r = completed_call(&function(), 0, "starting\neyJ2IjoxfQ==\n".to_string(), String::new());
    assert_eq!(r.unwrap(), "{\"v\":1}");
    match completed_call(&function(), 0, "not base64!".to_string(), String::new()) {
        Err(ExecutorError::OutputDecodeError { stdout, err: EncodeDecodeError::Base64DecodeError { .. }, .. }) => {
            assert_eq!(stdout, "not base64!")
        },
        other => panic!("unexpected result: {:?}", other),
    }
}
