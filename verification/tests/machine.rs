use brane_vm::ast::{BinOp, Expr, Ident, Lit, Stmt, UnOp};
use brane_vm::builtins::{BuiltinFunction, BuiltinRequest};
use brane_vm::generator::compile;
use brane_vm::value::Value;
use brane_vm::vm::{CallStep, Step, Vm, VmError};

fn ident(s: &str) -> Ident {
    Ident(s.to_string())
}

fn num(i: i64) -> Expr {
    Expr::Literal(Lit::Integer(i))
}

fn var(s: &str) -> Expr {
    Expr::Ident(ident(s))
}

fn bin(op: BinOp, l: Expr, r: Expr) -> Expr {
    Expr::Binary { operator: op, lhs_operand: Box::new(l), rhs_operand: Box::new(r) }
}

/// Runs a program to its end, performing `print` calls by collecting
/// their values; returns the globals as values and the printed values.
fn run(program: Vec<Stmt>) -> (Vec<(String, Value)>, Vec<Value>) {
    let f = compile(program);
    let mut vm = Vm::new_with(None, None).unwrap();
    vm.begin_main(f).unwrap();
    let mut printed = Vec::new();
    for _ in 0..10_000 {
        assert!(vm.can_step());
        match vm.step().unwrap() {
            Step::Continue | Step::Call(CallStep::Entered(_)) => {},
            Step::Finished => {
                let state = vm.capture_state();
                return (state.globals, printed);
            },
            Step::Call(CallStep::Builtin(BuiltinFunction::Print, BuiltinRequest::Print { value })) => {
                printed.push(value);
                vm.complete_call(Value::Unit).unwrap();
            },
            other => panic!("unexpected step: {:?}", other),
        }
    }
    panic!("the program did not finish");
}

fn global<'a>(globals: &'a [(String, Value)], name: &str) -> &'a Value {
    &globals.iter().find(|(k, _)| k == name).unwrap().1
}

#[test]
fn runs_arithmetic_into_a_global() {
    let (globals, _) = run(vec![Stmt::LetAssign(ident("x"), bin(BinOp::Add, num(1), bin(BinOp::Mul, num(6), num(7))))]);
    assert!(matches!(global(&globals, "x"), Value::Integer(43)));
}

#[test]
fn integer_division_truncates_towards_zero() {
    let (globals, _) = run(vec![
        Stmt::LetAssign(ident("q"), bin(BinOp::Div, num(-7), num(2))),
        Stmt::LetAssign(ident("d"), bin(BinOp::Sub, num(3), num(10))),
    ]);
    assert!(matches!(global(&globals, "q"), Value::Integer(-3)));
    assert!(matches!(global(&globals, "d"), Value::Integer(-7)));
}

#[test]
fn strings_concatenate() {
    let (globals, _) = run(vec![Stmt::LetAssign(
        ident("s"),
        bin(BinOp::Add, Expr::Literal(Lit::String("ab".to_string())), Expr::Literal(Lit::String("cd".to_string()))),
    )]);
    assert!(matches!(global(&globals, "s"), Value::Unicode(s) if s == "abcd"));
}

#[test]
fn while_loop_runs_until_its_condition_fails() {
    let (globals, _) = run(vec![
        Stmt::LetAssign(ident("i"), num(0)),
        Stmt::While {
            condition: bin(BinOp::Lt, var("i"), num(3)),
            consequent: vec![Stmt::Assign(ident("i"), bin(BinOp::Add, var("i"), num(1)))],
        },
    ]);
    assert!(matches!(global(&globals, "i"), Value::Integer(3)));
}

#[test]
fn if_takes_the_alternative_on_false() {
    let (globals, _) = run(vec![
        Stmt::LetAssign(ident("r"), num(0)),
        Stmt::If {
            condition: Expr::Literal(Lit::Boolean(false)),
            consequent: vec![Stmt::Assign(ident("r"), num(1))],
            alternative: Some(vec![Stmt::Assign(ident("r"), num(2))]),
        },
    ]);
    assert!(matches!(global(&globals, "r"), Value::Integer(2)));
}

#[test]
fn block_locals_are_dropped_and_globals_kept() {
    let (globals, _) = run(vec![
        Stmt::LetAssign(ident("g"), num(1)),
        Stmt::Block(vec![
            Stmt::LetAssign(ident("a"), num(10)),
            Stmt::Assign(ident("g"), bin(BinOp::Add, var("a"), var("g"))),
        ]),
    ]);
    assert!(matches!(global(&globals, "g"), Value::Integer(11)));
    assert!(globals.iter().all(|(k, _)| k != "a"));
}

#[test]
fn functions_are_called_with_their_arguments() {
    let (globals, _) = run(vec![
        Stmt::DeclareFunc {
            ident: ident("double"),
            params: vec![ident("n")],
            body: vec![Stmt::Return(Some(bin(BinOp::Add, var("n"), var("n"))))],
        },
        Stmt::LetAssign(ident("y"), Expr::Call { function: ident("double"), arguments: vec![num(21)] }),
    ]);
    assert!(matches!(global(&globals, "y"), Value::Integer(42)));
}

#[test]
fn print_hands_its_value_to_the_caller() {
    let (_, printed) = run(vec![Stmt::Expr(Expr::Call {
        function: ident("print"),
        arguments: vec![Expr::Literal(Lit::String("hello".to_string()))],
    })]);
    assert_eq!(printed.len(), 1);
    assert!(matches!(&printed[0], Value::Unicode(s) if s == "hello"));
}

#[test]
fn arrays_are_indexed() {
    let (globals, _) = run(vec![
        Stmt::LetAssign(ident("a"), Expr::Array(vec![num(4), num(5), num(6)])),
        Stmt::LetAssign(ident("x"), Expr::Index { array: Box::new(var("a")), index: Box::new(num(1)) }),
    ]);
    assert!(matches!(global(&globals, "x"), Value::Integer(5)));
    match global(&globals, "a") {
        Value::Array { entries, .. } => assert_eq!(entries.len(), 3),
        other => panic!("not an array: {:?}", other),
    }
}

#[test]
fn undefined_global_is_an_error() {
    let f = compile(vec![Stmt::Expr(var("nothing"))]);
    let mut vm = Vm::new_with(None, None).unwrap();
    vm.begin_main(f).unwrap();
    let mut result = vm.step();
    while let Ok(Step::Continue) | Ok(Step::Call(CallStep::Entered(_))) = result {
        result = vm.step();
    }
    assert!(matches!(result, Err(VmError::UndefinedGlobalError { .. })));
}

#[test]
fn adding_a_boolean_is_an_error() {
    let f = compile(vec![Stmt::Expr(bin(BinOp::Add, Expr::Literal(Lit::Boolean(true)), num(1)))]);
    let mut vm = Vm::new_with(None, None).unwrap();
    vm.begin_main(f).unwrap();
    let mut result = vm.step();
    while let Ok(Step::Continue) | Ok(Step::Call(CallStep::Entered(_))) = result {
        result = vm.step();
    }
    assert!(matches!(result, Err(VmError::NotAddable { .. })));
}

#[test]
fn negating_twice_gives_back_the_value() {
    let not = |e: Expr| Expr::Unary { operator: UnOp::Not, operand: Box::new(e) };
    let neg = |e: Expr| Expr::Unary { operator: UnOp::Neg, operand: Box::new(e) };
    let (globals, _) = run(vec![
        Stmt::LetAssign(ident("b"), not(not(Expr::Literal(Lit::Boolean(true))))),
        Stmt::LetAssign(ident("n"), neg(neg(num(-5)))),
        Stmt::LetAssign(ident("m"), neg(num(i64::MAX))),
    ]);
    assert!(matches!(global(&globals, "b"), Value::Boolean(true)));
    assert!(matches!(global(&globals, "n"), Value::Integer(-5)));
    assert!(matches!(global(&globals, "m"), Value::Integer(v) if *v == -i64::MAX));
}

#[test]
fn a_machine_without_frames_cannot_step() {
    let vm = Vm::new_with(None, None).unwrap();
    assert!(!vm.can_step());
}

#[test]
fn negating_the_smallest_integer_cannot_step() {
    let neg = |e: Expr| Expr::Unary { operator: UnOp::Neg, operand: Box::new(e) };
    let f = compile(vec![Stmt::LetAssign(ident("m"), neg(num(i64::MIN)))]);
    let mut vm = Vm::new_with(None, None).unwrap();
    vm.begin_main(f).unwrap();
    let mut stopped = false;
    for _ in 0..100 {
        if !vm.can_step() {
            stopped = true;
            break;
        }
        match vm.step().unwrap() {
            Step::Finished => break,
            _ => {},
        }
    }
    assert!(stopped);
}

#[test]
fn comparisons_compare_left_with_right() {
    let (globals, _) = run(vec![
        Stmt::LetAssign(ident("gt"), bin(BinOp::Gt, num(3), num(1))),
        Stmt::LetAssign(ident("lt"), bin(BinOp::Lt, num(1), num(3))),
        Stmt::LetAssign(ident("ge"), bin(BinOp::Ge, num(3), num(1))),
        Stmt::LetAssign(ident("le"), bin(BinOp::Le, num(3), num(1))),
        Stmt::LetAssign(ident("not_gt"), bin(BinOp::Gt, num(1), num(3))),
    ]);
    assert!(matches!(global(&globals, "gt"), Value::Boolean(true)));
    assert!(matches!(global(&globals, "lt"), Value::Boolean(true)));
    assert!(matches!(global(&globals, "ge"), Value::Boolean(true)));
    assert!(matches!(global(&globals, "le"), Value::Boolean(false)));
    assert!(matches!(global(&globals, "not_gt"), Value::Boolean(false)));
}
