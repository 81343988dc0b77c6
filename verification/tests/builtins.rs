use brane_vm::builtins::{prepare_call, BuiltinError, BuiltinFunction, BuiltinRequest, ServiceState};
use brane_vm::value::Value;

#[test]
fn builtin_codes_roundtrip() {
    for b in [BuiltinFunction::Undefined, BuiltinFunction::Print, BuiltinFunction::WaitUntilStarted, BuiltinFunction::WaitUntilDone] {
        assert_eq!(BuiltinFunction::from_code(b.code()), b);
    }
    assert_eq!(BuiltinFunction::from_code(99), BuiltinFunction::Undefined);
    assert_eq!(BuiltinFunction::Print.signature(), Some("print"));
    assert_eq!(BuiltinFunction::WaitUntilDone.signature(), None);
}

#[test]
fn print_takes_one_argument() {
    assert!(matches!(
        prepare_call(BuiltinFunction::Print, vec![Value::Integer(1)]),
        Ok(BuiltinRequest::Print { value: Value::Integer(1) })
    ));
    assert!(matches!(
        prepare_call(BuiltinFunction::Print, vec![]),
        Err(BuiltinError::NotEnoughArgumentsError { builtin: BuiltinFunction::Print, expected: 1, got: 0 })
    ));
    assert!(matches!(
        prepare_call(BuiltinFunction::Print, vec![Value::Unit, Value::Unit]),
        Err(BuiltinError::TooManyArgumentsError { builtin: BuiltinFunction::Print, expected: 1, got: 2 })
    ));
    assert!(matches!(
        prepare_call(BuiltinFunction::Undefined, vec![Value::Unit]),
        Err(BuiltinError::UnknownOpcode { opcode: 0 })
    ));
}

#[test]
fn wait_needs_a_service_instance() {
    let service = Value::Struct {
        data_type: "Service".to_string(),
        properties: vec![("identifier".to_string(), Value::Unicode("abc".to_string()))],
    };
    match prepare_call(BuiltinFunction::WaitUntilStarted, vec![service]) {
        Ok(BuiltinRequest::WaitUntil { identifier: Value::Unicode(id), state: ServiceState::Started }) => assert_eq!(id, "abc"),
        other => panic!("unexpected: {:?}", other),
    }
    assert!(matches!(
        prepare_call(BuiltinFunction::WaitUntilDone, vec![Value::Integer(3)]),
        Err(BuiltinError::InvalidInstanceError { builtin: BuiltinFunction::WaitUntilDone })
    ));
}
