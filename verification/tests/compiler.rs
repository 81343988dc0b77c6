use brane_vm::ast::{BinOp, Expr, Ident, Lit, Stmt, UnOp};
use brane_vm::bytecode::{ChunkMut, Opcode};
use brane_vm::generator::{compile, compile_function, expr_to_opcodes, stmt_to_opcodes, Local};
use brane_vm::value::Value;

fn ident(s: &str) -> Ident {
    Ident(s.to_string())
}

fn num(i: i64) -> Expr {
    Expr::Literal(Lit::Integer(i))
}

fn var(s: &str) -> Expr {
    Expr::Ident(ident(s))
}

fn bin(op: BinOp, l: Expr, r: Expr) -> Expr {
    Expr::Binary { operator: op, lhs_operand: Box::new(l), rhs_operand: Box::new(r) }
}

fn op(o: Opcode) -> u8 {
    o.to_u8()
}

fn code_of(chunk: &ChunkMut) -> Vec<u8> {
    chunk.code.to_vec()
}

#[test]
fn compiles_let_of_sum_at_top_level() {
    let program = vec![Stmt::LetAssign(ident("x"), bin(BinOp::Add, num(1), num(2)))];
    let f = compile(program);
    assert_eq!(f.name, "main");
    assert_eq!(f.arity, 0);
    assert_eq!(
        code_of(&f.chunk),
        vec![op(Opcode::CONSTANT), 0, op(Opcode::CONSTANT), 1, op(Opcode::ADD), op(Opcode::DEFINE_GLOBAL), 2]
    );
    assert_eq!(f.chunk.constants.len(), 3);
    assert!(matches!(f.chunk.constants[0], Value::Integer(1)));
    assert!(matches!(f.chunk.constants[1], Value::Integer(2)));
    assert!(matches!(&f.chunk.constants[2], Value::Unicode(s) if s == "x"));
}

#[test]
fn compares_with_negation_for_le_ge_ne() {
    let mut chunk = ChunkMut::default();
    let mut locals: Vec<Local> = Vec::new();
    expr_to_opcodes(bin(BinOp::Le, Expr::Literal(Lit::Boolean(true)), Expr::Literal(Lit::Unit)), &mut chunk, &mut locals, 0);
    assert_eq!(code_of(&chunk), vec![op(Opcode::TRUE), op(Opcode::UNIT), op(Opcode::GREATER), op(Opcode::NOT)]);

    let mut chunk = ChunkMut::default();
    expr_to_opcodes(bin(BinOp::Ge, Expr::Literal(Lit::Boolean(false)), Expr::Literal(Lit::Unit)), &mut chunk, &mut locals, 0);
    assert_eq!(code_of(&chunk), vec![op(Opcode::FALSE), op(Opcode::UNIT), op(Opcode::LESS), op(Opcode::NOT)]);

    let mut chunk = ChunkMut::default();
    expr_to_opcodes(bin(BinOp::Ne, Expr::Literal(Lit::Unit), Expr::Literal(Lit::Unit)), &mut chunk, &mut locals, 0);
    assert_eq!(code_of(&chunk), vec![op(Opcode::UNIT), op(Opcode::UNIT), op(Opcode::EQUAL), op(Opcode::NOT)]);
    assert!(locals.is_empty());
}

#[test]
fn unary_and_index_compile_in_order() {
    let mut chunk = ChunkMut::default();
    let mut locals: Vec<Local> = Vec::new();
    let e = Expr::Unary { operator: UnOp::Neg, operand: Box::new(Expr::Index { array: Box::new(var("a")), index: Box::new(num(0)) }) };
    expr_to_opcodes(e, &mut chunk, &mut locals, 0);
    assert_eq!(
        code_of(&chunk),
        vec![op(Opcode::GET_GLOBAL), 0, op(Opcode::CONSTANT), 1, op(Opcode::INDEX), op(Opcode::NEGATE)]
    );
}

#[test]
fn array_entries_compile_last_first() {
    let mut chunk = ChunkMut::default();
    let mut locals: Vec<Local> = Vec::new();
    expr_to_opcodes(Expr::Array(vec![num(10), num(20)]), &mut chunk, &mut locals, 0);
    assert_eq!(code_of(&chunk), vec![op(Opcode::CONSTANT), 0, op(Opcode::CONSTANT), 1, op(Opcode::ARRAY), 2]);
    assert!(matches!(chunk.constants[0], Value::Integer(20)));
    assert!(matches!(chunk.constants[1], Value::Integer(10)));
}

#[test]
fn locals_are_read_by_position() {
    let mut chunk = ChunkMut::default();
    let mut locals = vec![Local { name: "func".to_string(), depth: 1 }, Local { name: "y".to_string(), depth: 1 }];
    expr_to_opcodes(var("y"), &mut chunk, &mut locals, 1);
    assert_eq!(code_of(&chunk), vec![op(Opcode::GET_LOCAL), 1]);
    assert!(chunk.constants.is_empty());
}

#[test]
fn method_call_passes_self_implicitly() {
    let mut chunk = ChunkMut::default();
    let mut locals: Vec<Local> = Vec::new();
    let call = Expr::Call { function: ident("m"), arguments: vec![var("self"), num(7)] };
    expr_to_opcodes(bin(BinOp::Dot, var("o"), call), &mut chunk, &mut locals, 0);
    assert_eq!(
        code_of(&chunk),
        vec![op(Opcode::GET_GLOBAL), 0, op(Opcode::GET_METHOD), 1, op(Opcode::CONSTANT), 2, op(Opcode::CALL), 3]
    );
}

#[test]
fn property_read_uses_get_property() {
    let mut chunk = ChunkMut::default();
    let mut locals: Vec<Local> = Vec::new();
    expr_to_opcodes(bin(BinOp::Dot, var("o"), var("p")), &mut chunk, &mut locals, 0);
    assert_eq!(code_of(&chunk), vec![op(Opcode::GET_GLOBAL), 0, op(Opcode::GET_PROPERTY), 1]);
}

#[test]
fn instance_pushes_values_then_names_then_class() {
    let mut chunk = ChunkMut::default();
    let mut locals: Vec<Local> = Vec::new();
    let e = Expr::Instance { class: ident("C"), properties: vec![Stmt::Assign(ident("a"), num(1))] };
    expr_to_opcodes(e, &mut chunk, &mut locals, 0);
    assert_eq!(
        code_of(&chunk),
        vec![op(Opcode::CONSTANT), 0, op(Opcode::CONSTANT), 1, op(Opcode::GET_GLOBAL), 2, op(Opcode::NEW), 1]
    );
    assert!(matches!(&chunk.constants[1], Value::Unicode(s) if s == "a"));
}

#[test]
fn block_declares_locals_and_pops_them() {
    let mut chunk = ChunkMut::default();
    let mut locals: Vec<Local> = Vec::new();
    let block = Stmt::Block(vec![Stmt::LetAssign(ident("a"), num(1)), Stmt::LetAssign(ident("b"), var("a"))]);
    stmt_to_opcodes(block, &mut chunk, &mut locals, 0);
    assert_eq!(
        code_of(&chunk),
        vec![op(Opcode::CONSTANT), 0, op(Opcode::GET_LOCAL), 0, op(Opcode::POP_N), 2]
    );
    assert!(locals.is_empty());
}

#[test]
fn block_with_one_local_pops_once() {
    let mut chunk = ChunkMut::default();
    let mut locals: Vec<Local> = Vec::new();
    stmt_to_opcodes(Stmt::Block(vec![Stmt::LetAssign(ident("a"), Expr::Literal(Lit::Unit))]), &mut chunk, &mut locals, 0);
    assert_eq!(code_of(&chunk), vec![op(Opcode::UNIT), op(Opcode::POP)]);
    assert!(locals.is_empty());
}

#[test]
fn let_in_scope_adds_a_local() {
    let mut chunk = ChunkMut::default();
    let mut locals: Vec<Local> = Vec::new();
    stmt_to_opcodes(Stmt::LetAssign(ident("a"), Expr::Literal(Lit::Unit)), &mut chunk, &mut locals, 2);
    assert_eq!(code_of(&chunk), vec![op(Opcode::UNIT)]);
    assert_eq!(locals.len(), 1);
    assert_eq!(locals[0].name, "a");
    assert_eq!(locals[0].depth, 2);
}

#[test]
fn assign_to_local_and_to_global() {
    let mut chunk = ChunkMut::default();
    let mut locals = vec![Local { name: "a".to_string(), depth: 1 }];
    stmt_to_opcodes(Stmt::Assign(ident("a"), Expr::Literal(Lit::Unit)), &mut chunk, &mut locals, 1);
    stmt_to_opcodes(Stmt::Assign(ident("g"), Expr::Literal(Lit::Unit)), &mut chunk, &mut locals, 1);
    assert_eq!(
        code_of(&chunk),
        vec![op(Opcode::UNIT), op(Opcode::SET_LOCAL), 0, op(Opcode::UNIT), op(Opcode::SET_GLOBAL), 0]
    );
}

#[test]
fn while_loop_jumps_land_on_the_end_and_the_condition() {
    let mut chunk = ChunkMut::default();
    let mut locals: Vec<Local> = Vec::new();
    let w = Stmt::While { condition: Expr::Literal(Lit::Boolean(true)), consequent: vec![Stmt::Expr(Expr::Literal(Lit::Unit))] };
    stmt_to_opcodes(w, &mut chunk, &mut locals, 0);
    let code = code_of(&chunk);
    assert_eq!(
        code,
        vec![
            op(Opcode::TRUE),
            op(Opcode::JUMP_IF_FALSE), 0, 6,
            op(Opcode::POP),
            op(Opcode::UNIT), op(Opcode::POP),
            op(Opcode::JUMP_BACK), 0, 10,
            op(Opcode::POP),
        ]
    );
    // Forward: from after the operand (index 4) by 6 lands on the last POP.
    assert_eq!(4 + 6, code.len() - 1);
    // Backward: from after the operand (index 10) by 10 lands on the condition.
    assert_eq!(10 - 10, 0);
}

#[test]
fn if_without_alternative() {
    let mut chunk = ChunkMut::default();
    let mut locals: Vec<Local> = Vec::new();
    let s = Stmt::If {
        condition: Expr::Literal(Lit::Boolean(false)),
        consequent: vec![Stmt::Expr(Expr::Literal(Lit::Unit))],
        alternative: None,
    };
    stmt_to_opcodes(s, &mut chunk, &mut locals, 0);
    assert_eq!(
        code_of(&chunk),
        vec![
            op(Opcode::FALSE),
            op(Opcode::JUMP_IF_FALSE), 0, 6,
            op(Opcode::POP),
            op(Opcode::UNIT), op(Opcode::POP),
            op(Opcode::JUMP), 0, 1,
            op(Opcode::POP),
        ]
    );
}

#[test]
fn if_with_alternative() {
    let mut chunk = ChunkMut::default();
    let mut locals: Vec<Local> = Vec::new();
    let s = Stmt::If {
        condition: Expr::Literal(Lit::Boolean(true)),
        consequent: vec![],
        alternative: Some(vec![Stmt::Expr(Expr::Literal(Lit::Unit)), Stmt::Expr(Expr::Literal(Lit::Unit))]),
    };
    stmt_to_opcodes(s, &mut chunk, &mut locals, 0);
    assert_eq!(
        code_of(&chunk),
        vec![
            op(Opcode::TRUE),
            op(Opcode::JUMP_IF_FALSE), 0, 4,
            op(Opcode::POP),
            op(Opcode::JUMP), 0, 5,
            op(Opcode::POP),
            op(Opcode::UNIT), op(Opcode::POP), op(Opcode::UNIT), op(Opcode::POP),
        ]
    );
}

#[test]
fn for_loop_jumps_back_to_its_condition() {
    let mut chunk = ChunkMut::default();
    let mut locals: Vec<Local> = Vec::new();
    let s = Stmt::For {
        initializer: Box::new(Stmt::LetAssign(ident("i"), Expr::Literal(Lit::Unit))),
        condition: Expr::Literal(Lit::Boolean(true)),
        increment: Box::new(Stmt::Assign(ident("i"), Expr::Literal(Lit::Unit))),
        consequent: vec![],
    };
    stmt_to_opcodes(s, &mut chunk, &mut locals, 0);
    assert_eq!(
        code_of(&chunk),
        vec![
            op(Opcode::UNIT),
            op(Opcode::TRUE),
            op(Opcode::JUMP_IF_FALSE), 0, 7,
            op(Opcode::POP),
            op(Opcode::UNIT), op(Opcode::SET_LOCAL), 0,
            op(Opcode::JUMP_BACK), 0, 11,
            op(Opcode::POP),
        ]
    );
    // The loop's local stays declared: the loop does not drop it.
    assert_eq!(locals.len(), 1);
    assert_eq!(locals[0].depth, 1);
}

#[test]
fn return_without_value_returns_unit() {
    let mut chunk = ChunkMut::default();
    let mut locals: Vec<Local> = Vec::new();
    stmt_to_opcodes(Stmt::Return(None), &mut chunk, &mut locals, 1);
    stmt_to_opcodes(Stmt::Return(Some(Expr::Literal(Lit::Boolean(true)))), &mut chunk, &mut locals, 1);
    assert_eq!(code_of(&chunk), vec![op(Opcode::UNIT), op(Opcode::RETURN), op(Opcode::TRUE), op(Opcode::RETURN)]);
}

#[test]
fn import_names_the_package() {
    let mut chunk = ChunkMut::default();
    let mut locals: Vec<Local> = Vec::new();
    stmt_to_opcodes(Stmt::Import { package: ident("hello") }, &mut chunk, &mut locals, 0);
    assert_eq!(code_of(&chunk), vec![op(Opcode::IMPORT), 0]);
    assert!(matches!(&chunk.constants[0], Value::Unicode(s) if s == "hello"));
}

#[test]
fn on_pushes_and_pops_the_location() {
    let mut chunk = ChunkMut::default();
    let mut locals: Vec<Local> = Vec::new();
    let s = Stmt::On { location: Expr::Literal(Lit::String("site".to_string())), block: vec![Stmt::LetAssign(ident("a"), Expr::Literal(Lit::Unit))] };
    stmt_to_opcodes(s, &mut chunk, &mut locals, 1);
    assert_eq!(
        code_of(&chunk),
        vec![op(Opcode::CONSTANT), 0, op(Opcode::LOC_PUSH), op(Opcode::UNIT), op(Opcode::POP), op(Opcode::LOC_POP)]
    );
    assert!(locals.is_empty());
}

#[test]
fn function_declaration_compiles_a_function_constant() {
    let mut chunk = ChunkMut::default();
    let mut locals: Vec<Local> = Vec::new();
    let s = Stmt::DeclareFunc { ident: ident("f"), params: vec![ident("p")], body: vec![Stmt::Return(Some(var("p")))] };
    stmt_to_opcodes(s, &mut chunk, &mut locals, 0);
    assert_eq!(code_of(&chunk), vec![op(Opcode::CONSTANT), 0, op(Opcode::DEFINE_GLOBAL), 1]);
    match &chunk.constants[0] {
        Value::Function(sf) => {
            assert_eq!(sf.name, "f");
            assert_eq!(sf.arity, 1);
            assert_eq!(
                sf.bytecode.code,
                vec![op(Opcode::GET_LOCAL), 1, op(Opcode::RETURN), op(Opcode::UNIT), op(Opcode::RETURN)]
            );
        },
        other => panic!("not a function: {:?}", other),
    }
}

#[test]
fn compile_function_ends_with_unit_return() {
    let f = compile_function(vec![], 1, &[ident("a"), ident("b")], "g".to_string());
    assert_eq!(f.name, "g");
    assert_eq!(f.arity, 2);
    assert_eq!(code_of(&f.chunk), vec![op(Opcode::UNIT), op(Opcode::RETURN)]);
}

#[test]
fn class_declaration_keeps_the_last_of_a_name() {
    let mut chunk = ChunkMut::default();
    let mut locals: Vec<Local> = Vec::new();
    let method = |name: &str| (ident(name), Stmt::DeclareFunc { ident: ident(name), params: vec![], body: vec![] });
    let s = Stmt::DeclareClass {
        ident: ident("Point"),
        properties: vec![(ident("x"), ident("integer")), (ident("x"), ident("real")), (ident("y"), ident("integer"))],
        methods: vec![method("m"), method("n")],
    };
    stmt_to_opcodes(s, &mut chunk, &mut locals, 0);
    assert_eq!(code_of(&chunk), vec![op(Opcode::CLASS), 0, op(Opcode::DEFINE_GLOBAL), 1]);
    match &chunk.constants[0] {
        Value::Class(sc) => {
            assert_eq!(sc.name, "Point");
            assert_eq!(sc.properties.len(), 2);
            let x = sc.properties.iter().find(|(k, _)| k == "x").unwrap();
            assert_eq!(x.1, "real");
            assert_eq!(sc.methods.len(), 2);
        },
        other => panic!("not a class: {:?}", other),
    }
}

#[test]
fn parallel_pushes_branches_last_first() {
    let mut chunk = ChunkMut::default();
    let mut locals: Vec<Local> = Vec::new();
    let s = Stmt::Parallel {
        let_assign: Some(ident("r")),
        blocks: vec![Stmt::Expr(Expr::Literal(Lit::Boolean(true))), Stmt::Expr(Expr::Literal(Lit::Boolean(false)))],
    };
    stmt_to_opcodes(s, &mut chunk, &mut locals, 0);
    assert_eq!(
        code_of(&chunk),
        vec![op(Opcode::CONSTANT), 0, op(Opcode::CONSTANT), 1, op(Opcode::PARALLEL), 2, op(Opcode::DEFINE_GLOBAL), 2]
    );
    match &chunk.constants[0] {
        Value::Function(sf) => {
            assert_eq!(sf.arity, 0);
            assert_eq!(sf.bytecode.code, vec![op(Opcode::FALSE), op(Opcode::POP), op(Opcode::UNIT), op(Opcode::RETURN)]);
        },
        other => panic!("not a function: {:?}", other),
    }
}

#[test]
fn parallel_without_name_drops_the_results() {
    let mut chunk = ChunkMut::default();
    let mut locals: Vec<Local> = Vec::new();
    stmt_to_opcodes(Stmt::Parallel { let_assign: None, blocks: vec![] }, &mut chunk, &mut locals, 0);
    assert_eq!(code_of(&chunk), vec![op(Opcode::PARALLEL), 0, op(Opcode::POP)]);
}
