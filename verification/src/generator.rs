//! The compiler: from the syntax tree of a program to the bytecode of its
//! main function.
//!
//! The code that each statement and expression compiles to is stated by the
//! spec functions `gen_stmt` and `gen_expr`, as the bytes appended and the
//! constants added; they are `None` where compiling would fail: a
//! statement or expression the compiler does not take, a chunk with more
//! constants than one byte indexes, or a count that overflows its byte.

use crate::ast::{BinOp, Expr, Ident, Lit, Stmt, UnOp};
use crate::buffers::{bytes_mut_len, bytes_mut_set};
use crate::bytecode::{opcode_byte, opcode_of_byte, ChunkMut, FunctionMut, Opcode};
use crate::value::{Bytecode, SpecClass, SpecFunction, Value};
use vstd::prelude::*;

verus! {

/// A local variable: its name and the scope depth it was declared at.
#[derive(Debug, Clone)]
pub struct Local {
    pub name: String,
    pub depth: i32,
}

/// A compiled function, as a constant describes it.
pub struct FuncConst {
    pub name: Seq<char>,
    pub arity: u8,
    pub code: Seq<u8>,
    pub consts: Seq<Const>,
}

/// A constant that compiled code refers to.
pub enum Const {
    Str(Seq<char>),
    Int(i64),
    Real(u64),
    Func(FuncConst),
    Class { name: Seq<char>, properties: Map<Seq<char>, Seq<char>>, methods: Map<Seq<char>, FuncConst> },
}

/// What compiling appends: code bytes and constants.
pub type Emitted = (Seq<u8>, Seq<Const>);

/// The byte of an instruction.
pub open spec fn ob(op: Opcode) -> u8 {
    opcode_byte(op)
}

/// The byte that indexes the constant at position `n`.
pub open spec fn const_index(n: nat) -> u8 {
    (n % 256) as u8
}

/// The two bytes of a 16-bit jump offset, high first; larger offsets wrap.
pub open spec fn jump_bytes(n: nat) -> Seq<u8> {
    seq![((n % 65536) / 256) as u8, (n % 256) as u8]
}


/// The local variables, as names and the depths they were declared at.
pub type Locals = Seq<(Seq<char>, int)>;

/// The number of locals at the end of the list declared at `depth` or
/// deeper: those a scope of that depth drops when it ends.
pub open spec fn trailing(locals: Locals, depth: int) -> nat
    decreases locals.len(),
{
    if locals.len() > 0 && locals.last().1 >= depth {
        1 + trailing(locals.drop_last(), depth)
    } else {
        0
    }
}

/// The code that drops `n` locals from the stack; `None` where `n` does not
/// fit in a byte.
pub open spec fn pop_code(n: nat) -> Option<Seq<u8>> {
    if n == 0 {
        Some(Seq::empty())
    } else if n == 1 {
        Some(seq![ob(Opcode::POP)])
    } else if n <= 255 {
        Some(seq![ob(Opcode::POP_N), n as u8])
    } else {
        None
    }
}

/// The emission and the locals after ending a scope of the depth.
pub open spec fn end_scope(em: Emitted, locals: Locals, depth: int) -> Option<(Emitted, Locals)> {
    let n = trailing(locals, depth);
    match pop_code(n) {
        Some(pop) => Some((then_bytes(em, pop), locals.subrange(0, locals.len() - n))),
        None => None,
    }
}

/// The code and constants a statement compiles to, with the locals after
/// it; `None` where compiling it fails.
#[verifier::opaque]
pub open spec fn gen_stmt(s: Stmt, locals: Locals, scope: int, nc: nat) -> Option<(Emitted, Locals)>
    decreases s, 0int,
{
    match s {
        Stmt::Import { package: Ident(p) } => match with_const(Opcode::IMPORT, Const::Str(p@), nc) {
            Some(em) => Some((em, locals)),
            None => None,
        },
        Stmt::DeclareClass { ident: Ident(name), properties, methods } => match gen_methods(methods@, Map::empty()) {
            None => None,
            Some(ms) => match with_const(
                Opcode::CLASS,
                Const::Class { name: name@, properties: ident_pairs_map(properties@), methods: ms },
                nc,
            ) {
                None => None,
                Some(c) => match with_const(Opcode::DEFINE_GLOBAL, Const::Str(name@), nc + 1) {
                    None => None,
                    Some(d) => Some((join(c, d), locals)),
                },
            },
        },
        Stmt::Assign(Ident(name), value) => match gen_expr(value, locals, nc) {
            None => None,
            Some(v) => match local_position(locals, name@) {
                Some(i) => Some((then_bytes(v, seq![ob(Opcode::SET_LOCAL), i as u8]), locals)),
                None => match with_const(Opcode::SET_GLOBAL, Const::Str(name@), nc + v.1.len()) {
                    None => None,
                    Some(g) => Some((join(v, g), locals)),
                },
            },
        },
        Stmt::LetAssign(Ident(name), value) => match gen_expr(value, locals, nc) {
            None => None,
            Some(v) => if scope > 0 {
                Some((v, locals.push((name@, scope))))
            } else {
                match with_const(Opcode::DEFINE_GLOBAL, Const::Str(name@), nc + v.1.len()) {
                    None => None,
                    Some(g) => Some((join(v, g), locals)),
                }
            },
        },
        Stmt::Block(block) => gen_block(block@, locals, scope, nc),
        Stmt::For { initializer, condition, increment, consequent } => if scope + 1 > i32::MAX {
            None
        } else {
            match gen_stmt(*initializer, locals, scope + 1, nc) {
                None => None,
                Some((i, l1)) => match gen_expr(condition, l1, nc + i.1.len()) {
                    None => None,
                    Some(c) => match gen_stmts(consequent@, l1, scope + 1, nc + i.1.len() + c.1.len()) {
                        None => None,
                        Some((b, l2)) => match gen_stmt(*increment, l2, scope + 1, nc + i.1.len() + c.1.len() + b.1.len()) {
                            None => None,
                            Some((inc, l3)) => Some(
                                (
                                    (i.0 + c.0 + seq![ob(Opcode::JUMP_IF_FALSE)] + jump_bytes(b.0.len() + inc.0.len() + 4) + seq![
                                        ob(Opcode::POP),
                                    ] + b.0 + inc.0 + seq![ob(Opcode::JUMP_BACK)] + jump_bytes(
                                        c.0.len() + b.0.len() + inc.0.len() + 7,
                                    ) + seq![ob(Opcode::POP)], i.1 + c.1 + b.1 + inc.1),
                                    l3,
                                ),
                            ),
                        },
                    },
                },
            }
        },
        Stmt::While { condition, consequent } => match gen_expr(condition, locals, nc) {
            None => None,
            Some(c) => match gen_block(consequent@, locals, scope, nc + c.1.len()) {
                None => None,
                Some((b, l2)) => Some(
                    (
                        (c.0 + seq![ob(Opcode::JUMP_IF_FALSE)] + jump_bytes(b.0.len() + 4) + seq![ob(Opcode::POP)] + b.0
                            + seq![ob(Opcode::JUMP_BACK)] + jump_bytes(c.0.len() + b.0.len() + 7) + seq![ob(Opcode::POP)], c.1
                            + b.1),
                        l2,
                    ),
                ),
            },
        },
        Stmt::If { condition, consequent, alternative } => match gen_expr(condition, locals, nc) {
            None => None,
            Some(c) => match gen_block(consequent@, locals, scope, nc + c.1.len()) {
                None => None,
                Some((t, l1)) => match (match alternative {
                    Some(alt) => gen_block(alt@, l1, scope, nc + c.1.len() + t.1.len()),
                    None => Some(((Seq::empty(), Seq::empty()), l1)),
                }) {
                    None => None,
                    Some((f, l2)) => Some(
                        (
                            (c.0 + seq![ob(Opcode::JUMP_IF_FALSE)] + jump_bytes(t.0.len() + 4) + seq![ob(Opcode::POP)] + t.0
                                + seq![ob(Opcode::JUMP)] + jump_bytes(f.0.len() + 1) + seq![ob(Opcode::POP)] + f.0, c.1 + t.1
                                + f.1),
                            l2,
                        ),
                    ),
                },
            },
        },
        Stmt::Expr(e) => match gen_expr(e, locals, nc) {
            None => None,
            Some(v) => Some((then_bytes(v, seq![ob(Opcode::POP)]), locals)),
        },
        Stmt::Property { .. } => None,
        Stmt::Return(value) => match value {
            Some(e) => match gen_expr(e, locals, nc) {
                None => None,
                Some(v) => Some((then_bytes(v, seq![ob(Opcode::RETURN)]), locals)),
            },
            None => Some(((seq![ob(Opcode::UNIT), ob(Opcode::RETURN)], Seq::empty()), locals)),
        },
        Stmt::DeclareFunc { ident: Ident(name), params, body } => if scope + 1 > i32::MAX {
            None
        } else {
            match gen_function(body@, scope + 1, params@, name@) {
                None => None,
                Some(f) => match with_const(Opcode::CONSTANT, Const::Func(f), nc) {
                    None => None,
                    Some(c) => match with_const(Opcode::DEFINE_GLOBAL, Const::Str(name@), nc + 1) {
                        None => None,
                        Some(d) => Some((join(c, d), locals)),
                    },
                },
            }
        },
        Stmt::On { location, block } => match gen_expr(location, locals, nc) {
            None => None,
            Some(l) => match gen_stmts(block@, locals, scope, nc + l.1.len()) {
                None => None,
                Some((b, l2)) => match pop_code(trailing(l2, scope)) {
                    None => None,
                    Some(pop) => Some(
                        (
                            (l.0 + seq![ob(Opcode::LOC_PUSH)] + b.0 + pop + seq![ob(Opcode::LOC_POP)], l.1 + b.1),
                            l2.subrange(0, l2.len() - trailing(l2, scope)),
                        ),
                    ),
                },
            },
        },
        Stmt::Parallel { let_assign, blocks } => match gen_branches(blocks@, scope, nc) {
            None => None,
            Some(bs) => {
                let par = then_bytes(bs, seq![ob(Opcode::PARALLEL), blocks@.len() as u8]);
                match let_assign {
                    Some(Ident(name)) => if scope > 0 {
                        Some((par, locals.push((name@, scope))))
                    } else {
                        match with_const(Opcode::DEFINE_GLOBAL, Const::Str(name@), nc + bs.1.len()) {
                            None => None,
                            Some(d) => Some((join(par, d), locals)),
                        }
                    },
                    None => Some((then_bytes(par, seq![ob(Opcode::POP)]), locals)),
                }
            },
        },
    }
}

/// The code of statements one after the other, each with the locals the
/// one before left.
pub open spec fn gen_stmts(ss: Seq<Stmt>, locals: Locals, scope: int, nc: nat) -> Option<(Emitted, Locals)>
    decreases ss, 1int,
{
    if ss.len() == 0 {
        Some(((Seq::empty(), Seq::empty()), locals))
    } else {
        match gen_stmt(ss[0], locals, scope, nc) {
            None => None,
            Some((a, l1)) => match gen_stmts(ss.drop_first(), l1, scope, nc + a.1.len()) {
                None => None,
                Some((b, l2)) => Some((join(a, b), l2)),
            },
        }
    }
}

/// The code of a block: its statements in a scope one deeper, whose
/// locals are dropped at its end.
pub open spec fn gen_block(ss: Seq<Stmt>, locals: Locals, scope: int, nc: nat) -> Option<(Emitted, Locals)>
    decreases ss, 2int,
{
    if scope + 1 > i32::MAX {
        None
    } else {
        match gen_stmts(ss, locals, scope + 1, nc) {
            None => None,
            Some((b, l2)) => end_scope(b, l2, scope + 1),
        }
    }
}

/// The locals a function starts with: itself, then its parameters.
pub open spec fn function_locals(params: Seq<Ident>, scope: int) -> Locals {
    seq![("func"@, scope)] + params.map_values(|p: Ident| (p.0@, scope))
}

/// A compiled function of the code and constants of its body, which ends
/// with a return of the unit value; `None` where its code would not fit in
/// memory.
pub open spec fn fn_const(name: Seq<char>, arity: u8, em: Emitted) -> Option<FuncConst> {
    if em.0.len() + 2 > usize::MAX {
        None
    } else {
        Some(FuncConst { name, arity, code: em.0 + seq![ob(Opcode::UNIT), ob(Opcode::RETURN)], consts: em.1 })
    }
}

/// The instruction that pushes a branch of a `parallel` statement: a
/// nameless function without parameters of the branch's code, as the
/// constant at position `nc`.
pub open spec fn branch_const(em: Emitted, nc: nat) -> Option<Emitted> {
    match fn_const(Seq::empty(), 0, em) {
        None => None,
        Some(f) => with_const(Opcode::CONSTANT, Const::Func(f), nc),
    }
}

/// The function a body compiles to, in a chunk of its own: the code of its
/// statements, then a return of the unit value.
pub open spec fn gen_function(body: Seq<Stmt>, scope: int, params: Seq<Ident>, name: Seq<char>) -> Option<FuncConst>
    decreases body, 2int,
{
    match gen_stmts(body, function_locals(params, scope), scope, 0) {
        None => None,
        Some((em, _)) => fn_const(name, params.len() as u8, em),
    }
}

/// The methods of a class, compiled at depth 1 and added to `ms` by name,
/// a later one of a name taking the place of an earlier one.
pub open spec fn gen_methods(methods: Seq<(Ident, Stmt)>, ms: Map<Seq<char>, FuncConst>) -> Option<Map<Seq<char>, FuncConst>>
    decreases methods, 1int,
{
    if methods.len() == 0 {
        Some(ms)
    } else {
        match methods[0].1 {
            Stmt::DeclareFunc { ident: Ident(fname), params, body } => match gen_function(body@, 1, params@, fname@) {
                None => None,
                Some(f) => gen_methods(methods.drop_first(), ms.insert(methods[0].0.0@, f)),
            },
            _ => None,
        }
    }
}

/// The branches of a `parallel` statement, the last first: each a function
/// of one statement, pushed as a constant.
pub open spec fn gen_branches(blocks: Seq<Stmt>, scope: int, nc: nat) -> Option<Emitted>
    decreases blocks, 1int,
{
    if blocks.len() == 0 {
        Some((Seq::empty(), Seq::empty()))
    } else {
        match gen_stmt(blocks.last(), function_locals(Seq::empty(), scope), scope, 0) {
            None => None,
            Some((em, _)) => match branch_const(em, nc) {
                None => None,
                Some(c) => match gen_branches(blocks.drop_last(), scope, nc + 1) {
                    None => None,
                    Some(rest) => Some(join(c, rest)),
                },
            },
        }
    }
}

/// The map a list of name pairs stands for, later pairs taking the place
/// of earlier ones.
pub open spec fn ident_pairs_map(s: Seq<(Ident, Ident)>) -> Map<Seq<char>, Seq<char>>
    decreases s.len(),
{
    if s.len() == 0 {
        Map::empty()
    } else {
        ident_pairs_map(s.drop_last()).insert(s.last().0.0@, s.last().1.0@)
    }
}

/// The local variables as names and depths.
pub open spec fn locals_view(l: Seq<Local>) -> Seq<(Seq<char>, int)> {
    l.map_values(|x: Local| (x.name@, x.depth as int))
}

/// The position of the first local of the name, if any.
pub open spec fn local_position(locals: Seq<(Seq<char>, int)>, name: Seq<char>) -> Option<int> {
    if exists|i: int| 0 <= i < locals.len() && locals[i].0 == name {
        Some(choose|i: int| 0 <= i < locals.len() && locals[i].0 == name && forall|j: int| 0 <= j < i ==> locals[j].0 != name)
    } else {
        None
    }
}

/// An instruction with a constant operand, the constant added at position
/// `nc`; `None` where the constant count would reach a multiple of 256.
pub open spec fn with_const(op: Opcode, c: Const, nc: nat) -> Option<Emitted> {
    if (nc + 1) % 256 == 0 {
        None
    } else {
        Some((seq![ob(op), const_index(nc)], seq![c]))
    }
}

/// Two emissions one after the other.
pub open spec fn join(a: Emitted, b: Emitted) -> Emitted {
    (a.0 + b.0, a.1 + b.1)
}

/// An emission followed by bytes.
pub open spec fn then_bytes(a: Emitted, bytes: Seq<u8>) -> Emitted {
    (a.0 + bytes, a.1)
}

/// The code of the operator of a binary expression that is not a dot.
pub open spec fn binop_code(op: BinOp) -> Seq<u8> {
    match op {
        BinOp::Add => seq![ob(Opcode::ADD)],
        BinOp::Sub => seq![ob(Opcode::SUBSTRACT)],
        BinOp::Mul => seq![ob(Opcode::MULTIPLY)],
        BinOp::Div => seq![ob(Opcode::DIVIDE)],
        BinOp::Eq => seq![ob(Opcode::EQUAL)],
        BinOp::Lt => seq![ob(Opcode::LESS)],
        BinOp::Gt => seq![ob(Opcode::GREATER)],
        BinOp::Le => seq![ob(Opcode::GREATER), ob(Opcode::NOT)],
        BinOp::Ge => seq![ob(Opcode::LESS), ob(Opcode::NOT)],
        BinOp::Ne => seq![ob(Opcode::EQUAL), ob(Opcode::NOT)],
        BinOp::And => seq![ob(Opcode::AND)],
        BinOp::Or => seq![ob(Opcode::OR)],
        BinOp::Dot => Seq::empty(),
    }
}

/// The code of a name read: a local by its position, a global by its name
/// as a constant.
pub open spec fn gen_ident(name: Seq<char>, locals: Seq<(Seq<char>, int)>, nc: nat) -> Option<Emitted> {
    match local_position(locals, name) {
        Some(i) => Some((seq![ob(Opcode::GET_LOCAL), i as u8], Seq::empty())),
        None => with_const(Opcode::GET_GLOBAL, Const::Str(name), nc),
    }
}

/// The code and constants an expression compiles to, with `nc` constants
/// before it; `None` where compiling it fails.
#[verifier::opaque]
pub open spec fn gen_expr(e: Expr, locals: Seq<(Seq<char>, int)>, nc: nat) -> Option<Emitted>
    decreases e, 0int,
{
    match e {
        Expr::Binary { operator, lhs_operand, rhs_operand } => match gen_expr(*lhs_operand, locals, nc) {
            None => None,
            Some(l) => if operator is Dot {
                match *rhs_operand {
                    Expr::Ident(Ident(name)) => match with_const(Opcode::GET_PROPERTY, Const::Str(name@), nc + l.1.len()) {
                        Some(p) => Some(join(l, p)),
                        None => None,
                    },
                    Expr::Call { function: Ident(name), arguments } => if (arguments@.len() as u8) == 255 {
                        None
                    } else {
                        match with_const(Opcode::GET_METHOD, Const::Str(name@), nc + l.1.len()) {
                            None => None,
                            Some(m) => {
                                let args = if arguments@.len() == 0 { arguments@ } else { arguments@.drop_first() };
                                match gen_exprs(args, locals, nc + l.1.len() + 1) {
                                    None => None,
                                    Some(a) => Some(
                                        then_bytes(join(join(l, m), a), seq![ob(Opcode::CALL), ((arguments@.len() as u8) + 1) as u8]),
                                    ),
                                }
                            },
                        }
                    },
                    _ => None,
                }
            } else {
                match gen_expr(*rhs_operand, locals, nc + l.1.len()) {
                    None => None,
                    Some(r) => Some(then_bytes(join(l, r), binop_code(operator))),
                }
            },
        },
        Expr::Unary { operator, operand } => match gen_expr(*operand, locals, nc) {
            None => None,
            Some(o) => Some(then_bytes(o, if operator is Neg { seq![ob(Opcode::NEGATE)] } else { seq![ob(Opcode::NOT)] })),
        },
        Expr::Literal(lit) => match lit {
            Lit::Boolean(b) => Some((if b { seq![ob(Opcode::TRUE)] } else { seq![ob(Opcode::FALSE)] }, Seq::empty())),
            Lit::Integer(i) => with_const(Opcode::CONSTANT, Const::Int(i), nc),
            Lit::Real(r) => with_const(Opcode::CONSTANT, Const::Real(r), nc),
            Lit::String(s) => with_const(Opcode::CONSTANT, Const::Str(s@), nc),
            Lit::Unit => Some((seq![ob(Opcode::UNIT)], Seq::empty())),
        },
        Expr::Ident(Ident(name)) => gen_ident(name@, locals, nc),
        Expr::Call { function: Ident(name), arguments } => match gen_ident(name@, locals, nc) {
            None => None,
            Some(f) => match gen_exprs(arguments@, locals, nc + f.1.len()) {
                None => None,
                Some(a) => Some(then_bytes(join(f, a), seq![ob(Opcode::CALL), arguments@.len() as u8])),
            },
        },
        Expr::Instance { class: Ident(name), properties } => match gen_props(properties@, locals, nc) {
            None => None,
            Some(p) => match gen_ident(name@, locals, nc + p.1.len()) {
                None => None,
                Some(c) => Some(then_bytes(join(p, c), seq![ob(Opcode::NEW), properties@.len() as u8])),
            },
        },
        Expr::Array(entries) => match gen_exprs_rev(entries@, locals, nc) {
            None => None,
            Some(a) => Some(then_bytes(a, seq![ob(Opcode::ARRAY), entries@.len() as u8])),
        },
        Expr::Index { array, index } => match gen_expr(*array, locals, nc) {
            None => None,
            Some(a) => match gen_expr(*index, locals, nc + a.1.len()) {
                None => None,
                Some(i) => Some(then_bytes(join(a, i), seq![ob(Opcode::INDEX)])),
            },
        },
        Expr::Pattern(_) => None,
    }
}

/// The code of expressions one after the other.
pub open spec fn gen_exprs(es: Seq<Expr>, locals: Seq<(Seq<char>, int)>, nc: nat) -> Option<Emitted>
    decreases es, 1int,
{
    if es.len() == 0 {
        Some((Seq::empty(), Seq::empty()))
    } else {
        match gen_expr(es[0], locals, nc) {
            None => None,
            Some(a) => match gen_exprs(es.drop_first(), locals, nc + a.1.len()) {
                None => None,
                Some(b) => Some(join(a, b)),
            },
        }
    }
}

/// The code of expressions, the last first.
pub open spec fn gen_exprs_rev(es: Seq<Expr>, locals: Seq<(Seq<char>, int)>, nc: nat) -> Option<Emitted>
    decreases es, 1int,
{
    if es.len() == 0 {
        Some((Seq::empty(), Seq::empty()))
    } else {
        match gen_expr(es.last(), locals, nc) {
            None => None,
            Some(a) => match gen_exprs_rev(es.drop_last(), locals, nc + a.1.len()) {
                None => None,
                Some(b) => Some(join(a, b)),
            },
        }
    }
}

/// The code of an instance's properties: each value, then its name as a
/// string constant.
pub open spec fn gen_props(ps: Seq<Stmt>, locals: Seq<(Seq<char>, int)>, nc: nat) -> Option<Emitted>
    decreases ps, 1int,
{
    if ps.len() == 0 {
        Some((Seq::empty(), Seq::empty()))
    } else {
        match ps[0] {
            Stmt::Assign(Ident(name), value) => match gen_expr(value, locals, nc) {
                None => None,
                Some(v) => match with_const(Opcode::CONSTANT, Const::Str(name@), nc + v.1.len()) {
                    None => None,
                    Some(n) => match gen_props(ps.drop_first(), locals, nc + v.1.len() + 1) {
                        None => None,
                        Some(rest) => Some(join(join(v, n), rest)),
                    },
                },
            },
            _ => None,
        }
    }
}

/// The value is the constant.
pub open spec fn value_is(v: Value, c: Const) -> bool
    decreases v, 0int,
{
    match c {
        Const::Str(s) => v matches Value::Unicode(u) && u@ == s,
        Const::Int(i) => v == Value::Integer(i),
        Const::Real(b) => v == Value::Real(b),
        Const::Func(f) => match v {
            Value::Function(sf) => function_is(sf, f),
            _ => false,
        },
        Const::Class { name, properties, methods } => match v {
            Value::Class(sc) => {
                &&& sc.name@ == name
                &&& crate::objects::unique_keys(sc.properties@)
                &&& forall|k: Seq<char>| #[trigger] properties.contains_key(k) <==> exists|i: int|
                    0 <= i < sc.properties@.len() && sc.properties@[i].0@ == k
                &&& forall|i: int| 0 <= i < sc.properties@.len() ==> properties[(#[trigger] sc.properties@[i]).0@]
                    == sc.properties@[i].1@
                &&& crate::objects::unique_keys(sc.methods@)
                &&& forall|k: Seq<char>| #[trigger] methods.contains_key(k) <==> exists|i: int|
                    0 <= i < sc.methods@.len() && sc.methods@[i].0@ == k
                &&& forall|i: int| 0 <= i < sc.methods@.len() ==> function_is(
                    #[trigger] sc.methods@[i].1,
                    methods[sc.methods@[i].0@],
                )
            },
            _ => false,
        },
    }
}

/// The portable function is the compiled function.
pub open spec fn function_is(sf: SpecFunction, f: FuncConst) -> bool
    decreases sf, 1int,
{
    &&& sf.name@ == f.name
    &&& sf.arity == f.arity
    &&& sf.bytecode.code@ == f.code
    &&& sf.bytecode.constants@.len() == f.consts.len()
    &&& forall|j: int| 0 <= j < f.consts.len() ==> value_is(#[trigger] sf.bytecode.constants@[j], f.consts[j])
}

/// The constants after compiling: the old ones, then values that are the
/// added constants.
pub open spec fn consts_emitted(before: Seq<Value>, after: Seq<Value>, cs: Seq<Const>) -> bool {
    &&& after.len() == before.len() + cs.len()
    &&& forall|i: int| 0 <= i < before.len() ==> after[i] == before[i]
    &&& forall|j: int| 0 <= j < cs.len() ==> value_is(#[trigger] after[before.len() + j], cs[j])
}

/// The chunk after compiling: the emission appended.
#[verifier::opaque]
pub open spec fn chunk_emitted(before: ChunkMut, after: ChunkMut, em: Emitted) -> bool {
    &&& after.code_view() == before.code_view() + em.0
    &&& consts_emitted(before.constants@, after.constants@, em.1)
}

/// How an expression of this kind compiles.
proof fn lemma_gen_binary(e: Expr, locals: Seq<(Seq<char>, int)>, nc: nat)
    requires
        e is Binary,
    ensures
        gen_expr(e, locals, nc) == (match e {
                Expr::Binary { operator, lhs_operand, rhs_operand } => match gen_expr(*lhs_operand, locals, nc) {
                    None => None,
                    Some(l) => if operator is Dot {
                        match *rhs_operand {
                            Expr::Ident(Ident(name)) => match with_const(Opcode::GET_PROPERTY, Const::Str(name@), nc + l.1.len()) {
                                Some(p) => Some(join(l, p)),
                                None => None,
                            },
                            Expr::Call { function: Ident(name), arguments } => if (arguments@.len() as u8) == 255 {
                                None
                            } else {
                                match with_const(Opcode::GET_METHOD, Const::Str(name@), nc + l.1.len()) {
                                    None => None,
                                    Some(m) => {
                                        let args = if arguments@.len() == 0 { arguments@ } else { arguments@.drop_first() };
                                        match gen_exprs(args, locals, nc + l.1.len() + 1) {
                                            None => None,
                                            Some(a) => Some(
                                                then_bytes(join(join(l, m), a), seq![ob(Opcode::CALL), ((arguments@.len() as u8) + 1) as u8]),
                                            ),
                                        }
                                    },
                                }
                            },
                            _ => None,
                        }
                    } else {
                        match gen_expr(*rhs_operand, locals, nc + l.1.len()) {
                            None => None,
                            Some(r) => Some(then_bytes(join(l, r), binop_code(operator))),
                        }
                    },
                },
            _ => None,
        }),
{
    reveal(gen_expr);
}

/// How an expression of this kind compiles.
proof fn lemma_gen_unary(e: Expr, locals: Seq<(Seq<char>, int)>, nc: nat)
    requires
        e is Unary,
    ensures
        gen_expr(e, locals, nc) == (match e {
                Expr::Unary { operator, operand } => match gen_expr(*operand, locals, nc) {
                    None => None,
                    Some(o) => Some(then_bytes(o, if operator is Neg { seq![ob(Opcode::NEGATE)] } else { seq![ob(Opcode::NOT)] })),
                },
            _ => None,
        }),
{
    reveal(gen_expr);
}

/// How an expression of this kind compiles.
proof fn lemma_gen_literal(e: Expr, locals: Seq<(Seq<char>, int)>, nc: nat)
    requires
        e is Literal,
    ensures
        gen_expr(e, locals, nc) == (match e {
                Expr::Literal(lit) => match lit {
                    Lit::Boolean(b) => Some((if b { seq![ob(Opcode::TRUE)] } else { seq![ob(Opcode::FALSE)] }, Seq::empty())),
                    Lit::Integer(i) => with_const(Opcode::CONSTANT, Const::Int(i), nc),
                    Lit::Real(r) => with_const(Opcode::CONSTANT, Const::Real(r), nc),
                    Lit::String(s) => with_const(Opcode::CONSTANT, Const::Str(s@), nc),
                    Lit::Unit => Some((seq![ob(Opcode::UNIT)], Seq::empty())),
                },
            _ => None,
        }),
{
    reveal(gen_expr);
}

/// How an expression of this kind compiles.
proof fn lemma_gen_ident(e: Expr, locals: Seq<(Seq<char>, int)>, nc: nat)
    requires
        e is Ident,
    ensures
        gen_expr(e, locals, nc) == (match e {
                Expr::Ident(Ident(name)) => gen_ident(name@, locals, nc),
            _ => None,
        }),
{
    reveal(gen_expr);
}

/// How an expression of this kind compiles.
proof fn lemma_gen_call(e: Expr, locals: Seq<(Seq<char>, int)>, nc: nat)
    requires
        e is Call,
    ensures
        gen_expr(e, locals, nc) == (match e {
                Expr::Call { function: Ident(name), arguments } => match gen_ident(name@, locals, nc) {
                    None => None,
                    Some(f) => match gen_exprs(arguments@, locals, nc + f.1.len()) {
                        None => None,
                        Some(a) => Some(then_bytes(join(f, a), seq![ob(Opcode::CALL), arguments@.len() as u8])),
                    },
                },
            _ => None,
        }),
{
    reveal(gen_expr);
}

/// How an expression of this kind compiles.
proof fn lemma_gen_instance(e: Expr, locals: Seq<(Seq<char>, int)>, nc: nat)
    requires
        e is Instance,
    ensures
        gen_expr(e, locals, nc) == (match e {
                Expr::Instance { class: Ident(name), properties } => match gen_props(properties@, locals, nc) {
                    None => None,
                    Some(p) => match gen_ident(name@, locals, nc + p.1.len()) {
                        None => None,
                        Some(c) => Some(then_bytes(join(p, c), seq![ob(Opcode::NEW), properties@.len() as u8])),
                    },
                },
            _ => None,
        }),
{
    reveal(gen_expr);
}

/// How an expression of this kind compiles.
proof fn lemma_gen_array(e: Expr, locals: Seq<(Seq<char>, int)>, nc: nat)
    requires
        e is Array,
    ensures
        gen_expr(e, locals, nc) == (match e {
                Expr::Array(entries) => match gen_exprs_rev(entries@, locals, nc) {
                    None => None,
                    Some(a) => Some(then_bytes(a, seq![ob(Opcode::ARRAY), entries@.len() as u8])),
                },
            _ => None,
        }),
{
    reveal(gen_expr);
}

/// How an expression of this kind compiles.
proof fn lemma_gen_index(e: Expr, locals: Seq<(Seq<char>, int)>, nc: nat)
    requires
        e is Index,
    ensures
        gen_expr(e, locals, nc) == (match e {
                Expr::Index { array, index } => match gen_expr(*array, locals, nc) {
                    None => None,
                    Some(a) => match gen_expr(*index, locals, nc + a.1.len()) {
                        None => None,
                        Some(i) => Some(then_bytes(join(a, i), seq![ob(Opcode::INDEX)])),
                    },
                },
            _ => None,
        }),
{
    reveal(gen_expr);
}

/// A pattern does not compile.
proof fn lemma_gen_pattern(e: Expr, locals: Seq<(Seq<char>, int)>, nc: nat)
    requires
        e is Pattern,
    ensures
        gen_expr(e, locals, nc) is None,
{
    reveal(gen_expr);
}

/// How a non-empty list of expressions compiles.
proof fn lemma_gen_exprs(es: Seq<Expr>, locals: Seq<(Seq<char>, int)>, nc: nat)
    requires
        es.len() > 0,
    ensures
        gen_exprs(es, locals, nc) == (match gen_expr(es[0], locals, nc) {
            None => None,
            Some(a) => match gen_exprs(es.drop_first(), locals, nc + a.1.len()) {
                None => None,
                Some(b) => Some(join(a, b)),
            },
        }),
{
    reveal(gen_expr);
}

/// How a non-empty list of expressions compiles, the last first.
proof fn lemma_gen_exprs_rev(es: Seq<Expr>, locals: Seq<(Seq<char>, int)>, nc: nat)
    requires
        es.len() > 0,
    ensures
        gen_exprs_rev(es, locals, nc) == (match gen_expr(es.last(), locals, nc) {
            None => None,
            Some(a) => match gen_exprs_rev(es.drop_last(), locals, nc + a.1.len()) {
                None => None,
                Some(b) => Some(join(a, b)),
            },
        }),
{
    reveal(gen_expr);
}

/// How a non-empty list of properties compiles.
proof fn lemma_gen_props(ps: Seq<Stmt>, locals: Seq<(Seq<char>, int)>, nc: nat)
    requires
        ps.len() > 0,
    ensures
        gen_props(ps, locals, nc) == (match ps[0] {
            Stmt::Assign(Ident(name), value) => match gen_expr(value, locals, nc) {
                None => None,
                Some(v) => match with_const(Opcode::CONSTANT, Const::Str(name@), nc + v.1.len()) {
                    None => None,
                    Some(n) => match gen_props(ps.drop_first(), locals, nc + v.1.len() + 1) {
                        None => None,
                        Some(rest) => Some(join(join(v, n), rest)),
                    },
                },
            },
            _ => None,
        }),
{
    reveal(gen_expr);
}

/// Empty lists compile to nothing.
proof fn lemma_gen_empty(locals: Seq<(Seq<char>, int)>, nc: nat)
    ensures
        gen_exprs(Seq::empty(), locals, nc) == Some::<Emitted>((Seq::empty(), Seq::empty())),
        gen_exprs_rev(Seq::empty(), locals, nc) == Some::<Emitted>((Seq::empty(), Seq::empty())),
        gen_props(Seq::empty(), locals, nc) == Some::<Emitted>((Seq::empty(), Seq::empty())),
{
}

/// How a statement of this kind compiles.
proof fn lemma_stmt_import(s: Stmt, locals: Locals, scope: int, nc: nat)
    requires
        s is Import,
    ensures
        gen_stmt(s, locals, scope, nc) == (match s {
                Stmt::Import { package: Ident(p) } => match with_const(Opcode::IMPORT, Const::Str(p@), nc) {
                    Some(em) => Some((em, locals)),
                    None => None,
                },
            _ => None,
        }),
{
    reveal(gen_stmt);
}

/// How a statement of this kind compiles.
proof fn lemma_stmt_declare_class(s: Stmt, locals: Locals, scope: int, nc: nat)
    requires
        s is DeclareClass,
    ensures
        gen_stmt(s, locals, scope, nc) == (match s {
                Stmt::DeclareClass { ident: Ident(name), properties, methods } => match gen_methods(methods@, Map::empty()) {
                    None => None,
                    Some(ms) => match with_const(
                        Opcode::CLASS,
                        Const::Class { name: name@, properties: ident_pairs_map(properties@), methods: ms },
                        nc,
                    ) {
                        None => None,
                        Some(c) => match with_const(Opcode::DEFINE_GLOBAL, Const::Str(name@), nc + 1) {
                            None => None,
                            Some(d) => Some((join(c, d), locals)),
                        },
                    },
                },
            _ => None,
        }),
{
    reveal(gen_stmt);
}

/// How a statement of this kind compiles.
proof fn lemma_stmt_assign(s: Stmt, locals: Locals, scope: int, nc: nat)
    requires
        s is Assign,
    ensures
        gen_stmt(s, locals, scope, nc) == (match s {
                Stmt::Assign(Ident(name), value) => match gen_expr(value, locals, nc) {
                    None => None,
                    Some(v) => match local_position(locals, name@) {
                        Some(i) => Some((then_bytes(v, seq![ob(Opcode::SET_LOCAL), i as u8]), locals)),
                        None => match with_const(Opcode::SET_GLOBAL, Const::Str(name@), nc + v.1.len()) {
                            None => None,
                            Some(g) => Some((join(v, g), locals)),
                        },
                    },
                },
            _ => None,
        }),
{
    reveal(gen_stmt);
}

/// How a statement of this kind compiles.
proof fn lemma_stmt_let_assign(s: Stmt, locals: Locals, scope: int, nc: nat)
    requires
        s is LetAssign,
    ensures
        gen_stmt(s, locals, scope, nc) == (match s {
                Stmt::LetAssign(Ident(name), value) => match gen_expr(value, locals, nc) {
                    None => None,
                    Some(v) => if scope > 0 {
                        Some((v, locals.push((name@, scope))))
                    } else {
                        match with_const(Opcode::DEFINE_GLOBAL, Const::Str(name@), nc + v.1.len()) {
                            None => None,
                            Some(g) => Some((join(v, g), locals)),
                        }
                    },
                },
            _ => None,
        }),
{
    reveal(gen_stmt);
}

/// How a statement of this kind compiles.
proof fn lemma_stmt_block(s: Stmt, locals: Locals, scope: int, nc: nat)
    requires
        s is Block,
    ensures
        gen_stmt(s, locals, scope, nc) == (match s {
                Stmt::Block(block) => gen_block(block@, locals, scope, nc),
            _ => None,
        }),
{
    reveal(gen_stmt);
}

/// How a statement of this kind compiles.
proof fn lemma_stmt_for(s: Stmt, locals: Locals, scope: int, nc: nat)
    requires
        s is For,
    ensures
        gen_stmt(s, locals, scope, nc) == (match s {
                Stmt::For { initializer, condition, increment, consequent } => if scope + 1 > i32::MAX {
                    None
                } else {
                    match gen_stmt(*initializer, locals, scope + 1, nc) {
                        None => None,
                        Some((i, l1)) => match gen_expr(condition, l1, nc + i.1.len()) {
                            None => None,
                            Some(c) => match gen_stmts(consequent@, l1, scope + 1, nc + i.1.len() + c.1.len()) {
                                None => None,
                                Some((b, l2)) => match gen_stmt(*increment, l2, scope + 1, nc + i.1.len() + c.1.len() + b.1.len()) {
                                    None => None,
                                    Some((inc, l3)) => Some(
                                        (
                                            (i.0 + c.0 + seq![ob(Opcode::JUMP_IF_FALSE)] + jump_bytes(b.0.len() + inc.0.len() + 4) + seq![
                                                ob(Opcode::POP),
                                            ] + b.0 + inc.0 + seq![ob(Opcode::JUMP_BACK)] + jump_bytes(
                                                c.0.len() + b.0.len() + inc.0.len() + 7,
                                            ) + seq![ob(Opcode::POP)], i.1 + c.1 + b.1 + inc.1),
                                            l3,
                                        ),
                                    ),
                                },
                            },
                        },
                    }
                },
            _ => None,
        }),
{
    reveal(gen_stmt);
}

/// How a statement of this kind compiles.
proof fn lemma_stmt_while(s: Stmt, locals: Locals, scope: int, nc: nat)
    requires
        s is While,
    ensures
        gen_stmt(s, locals, scope, nc) == (match s {
                Stmt::While { condition, consequent } => match gen_expr(condition, locals, nc) {
                    None => None,
                    Some(c) => match gen_block(consequent@, locals, scope, nc + c.1.len()) {
                        None => None,
                        Some((b, l2)) => Some(
                            (
                                (c.0 + seq![ob(Opcode::JUMP_IF_FALSE)] + jump_bytes(b.0.len() + 4) + seq![ob(Opcode::POP)] + b.0
                                    + seq![ob(Opcode::JUMP_BACK)] + jump_bytes(c.0.len() + b.0.len() + 7) + seq![ob(Opcode::POP)], c.1
                                    + b.1),
                                l2,
                            ),
                        ),
                    },
                },
            _ => None,
        }),
{
    reveal(gen_stmt);
}

/// How a statement of this kind compiles.
proof fn lemma_stmt_if(s: Stmt, locals: Locals, scope: int, nc: nat)
    requires
        s is If,
    ensures
        gen_stmt(s, locals, scope, nc) == (match s {
                Stmt::If { condition, consequent, alternative } => match gen_expr(condition, locals, nc) {
                    None => None,
                    Some(c) => match gen_block(consequent@, locals, scope, nc + c.1.len()) {
                        None => None,
                        Some((t, l1)) => match (match alternative {
                            Some(alt) => gen_block(alt@, l1, scope, nc + c.1.len() + t.1.len()),
                            None => Some(((Seq::empty(), Seq::empty()), l1)),
                        }) {
                            None => None,
                            Some((f, l2)) => Some(
                                (
                                    (c.0 + seq![ob(Opcode::JUMP_IF_FALSE)] + jump_bytes(t.0.len() + 4) + seq![ob(Opcode::POP)] + t.0
                                        + seq![ob(Opcode::JUMP)] + jump_bytes(f.0.len() + 1) + seq![ob(Opcode::POP)] + f.0, c.1 + t.1
                                        + f.1),
                                    l2,
                                ),
                            ),
                        },
                    },
                },
            _ => None,
        }),
{
    reveal(gen_stmt);
}

/// How a statement of this kind compiles.
proof fn lemma_stmt_expr(s: Stmt, locals: Locals, scope: int, nc: nat)
    requires
        s is Expr,
    ensures
        gen_stmt(s, locals, scope, nc) == (match s {
                Stmt::Expr(e) => match gen_expr(e, locals, nc) {
                    None => None,
                    Some(v) => Some((then_bytes(v, seq![ob(Opcode::POP)]), locals)),
                },
            _ => None,
        }),
{
    reveal(gen_stmt);
}

/// A property declaration outside a class does not compile.
proof fn lemma_stmt_property(s: Stmt, locals: Locals, scope: int, nc: nat)
    requires
        s is Property,
    ensures
        gen_stmt(s, locals, scope, nc) is None,
{
    reveal(gen_stmt);
}

/// How a statement of this kind compiles.
proof fn lemma_stmt_return(s: Stmt, locals: Locals, scope: int, nc: nat)
    requires
        s is Return,
    ensures
        gen_stmt(s, locals, scope, nc) == (match s {
                Stmt::Return(value) => match value {
                    Some(e) => match gen_expr(e, locals, nc) {
                        None => None,
                        Some(v) => Some((then_bytes(v, seq![ob(Opcode::RETURN)]), locals)),
                    },
                    None => Some(((seq![ob(Opcode::UNIT), ob(Opcode::RETURN)], Seq::empty()), locals)),
                },
            _ => None,
        }),
{
    reveal(gen_stmt);
}

/// How a statement of this kind compiles.
proof fn lemma_stmt_declare_func(s: Stmt, locals: Locals, scope: int, nc: nat)
    requires
        s is DeclareFunc,
    ensures
        gen_stmt(s, locals, scope, nc) == (match s {
                Stmt::DeclareFunc { ident: Ident(name), params, body } => if scope + 1 > i32::MAX {
                    None
                } else {
                    match gen_function(body@, scope + 1, params@, name@) {
                        None => None,
                        Some(f) => match with_const(Opcode::CONSTANT, Const::Func(f), nc) {
                            None => None,
                            Some(c) => match with_const(Opcode::DEFINE_GLOBAL, Const::Str(name@), nc + 1) {
                                None => None,
                                Some(d) => Some((join(c, d), locals)),
                            },
                        },
                    }
                },
            _ => None,
        }),
{
    reveal(gen_stmt);
}

/// How a statement of this kind compiles.
proof fn lemma_stmt_on(s: Stmt, locals: Locals, scope: int, nc: nat)
    requires
        s is On,
    ensures
        gen_stmt(s, locals, scope, nc) == (match s {
                Stmt::On { location, block } => match gen_expr(location, locals, nc) {
                    None => None,
                    Some(l) => match gen_stmts(block@, locals, scope, nc + l.1.len()) {
                        None => None,
                        Some((b, l2)) => match pop_code(trailing(l2, scope)) {
                            None => None,
                            Some(pop) => Some(
                                (
                                    (l.0 + seq![ob(Opcode::LOC_PUSH)] + b.0 + pop + seq![ob(Opcode::LOC_POP)], l.1 + b.1),
                                    l2.subrange(0, l2.len() - trailing(l2, scope)),
                                ),
                            ),
                        },
                    },
                },
            _ => None,
        }),
{
    reveal(gen_stmt);
}

/// How a statement of this kind compiles.
proof fn lemma_stmt_parallel(s: Stmt, locals: Locals, scope: int, nc: nat)
    requires
        s is Parallel,
    ensures
        gen_stmt(s, locals, scope, nc) == (match s {
                Stmt::Parallel { let_assign, blocks } => match gen_branches(blocks@, scope, nc) {
                    None => None,
                    Some(bs) => {
                        let par = then_bytes(bs, seq![ob(Opcode::PARALLEL), blocks@.len() as u8]);
                        match let_assign {
                            Some(Ident(name)) => if scope > 0 {
                                Some((par, locals.push((name@, scope))))
                            } else {
                                match with_const(Opcode::DEFINE_GLOBAL, Const::Str(name@), nc + bs.1.len()) {
                                    None => None,
                                    Some(d) => Some((join(par, d), locals)),
                                }
                            },
                            None => Some((then_bytes(par, seq![ob(Opcode::POP)]), locals)),
                        }
                    },
                },
            _ => None,
        }),
{
    reveal(gen_stmt);
}

/// How a non-empty list of statements compiles.
proof fn lemma_gen_stmts(ss: Seq<Stmt>, locals: Locals, scope: int, nc: nat)
    requires
        ss.len() > 0,
    ensures
        gen_stmts(ss, locals, scope, nc) == (match gen_stmt(ss[0], locals, scope, nc) {
            None => None,
            Some((a, l1)) => match gen_stmts(ss.drop_first(), l1, scope, nc + a.1.len()) {
                None => None,
                Some((b, l2)) => Some((join(a, b), l2)),
            },
        }),
{
    reveal(gen_stmt);
}

/// An empty list of statements compiles to nothing.
proof fn lemma_gen_stmts_empty(locals: Locals, scope: int, nc: nat)
    ensures
        gen_stmts(Seq::empty(), locals, scope, nc) == Some::<(Emitted, Locals)>(((Seq::empty(), Seq::empty()), locals)),
{
    reveal(gen_stmt);
}

/// How a block compiles.
proof fn lemma_gen_block(ss: Seq<Stmt>, locals: Locals, scope: int, nc: nat)
    ensures
        gen_block(ss, locals, scope, nc) == (if scope + 1 > i32::MAX {
            None
        } else {
            match gen_stmts(ss, locals, scope + 1, nc) {
                None => None,
                Some((b, l2)) => end_scope(b, l2, scope + 1),
            }
        }),
{
    reveal(gen_stmt);
}

/// How a function compiles.
proof fn lemma_gen_function(body: Seq<Stmt>, scope: int, params: Seq<Ident>, name: Seq<char>)
    ensures
        gen_function(body, scope, params, name) == (match gen_stmts(body, function_locals(params, scope), scope, 0) {
            None => None,
            Some((em, _)) => fn_const(name, params.len() as u8, em),
        }),
{
    reveal(gen_stmt);
}

/// How the methods of a class compile.
proof fn lemma_gen_methods(methods: Seq<(Ident, Stmt)>, ms: Map<Seq<char>, FuncConst>)
    ensures
        gen_methods(methods, ms) == (if methods.len() == 0 {
            Some(ms)
        } else {
            match methods[0].1 {
                Stmt::DeclareFunc { ident: Ident(fname), params, body } => match gen_function(body@, 1, params@, fname@) {
                    None => None,
                    Some(f) => gen_methods(methods.drop_first(), ms.insert(methods[0].0.0@, f)),
                },
                _ => None,
            }
        }),
{
    reveal(gen_stmt);
}

/// How the branches of a `parallel` statement compile.
proof fn lemma_gen_branches(blocks: Seq<Stmt>, scope: int, nc: nat)
    ensures
        gen_branches(blocks, scope, nc) == (if blocks.len() == 0 {
            Some((Seq::empty(), Seq::empty()))
        } else {
            match gen_stmt(blocks.last(), function_locals(Seq::empty(), scope), scope, 0) {
                None => None,
                Some((em, _)) => match branch_const(em, nc) {
                    None => None,
                    Some(c) => match gen_branches(blocks.drop_last(), scope, nc + 1) {
                        None => None,
                        Some(rest) => Some(join(c, rest)),
                    },
                },
            }
        }),
{
    reveal(gen_stmt);
}

/// The locals after keep the first `k` of the locals before, and every
/// local past them, before or after, was declared at `depth` or deeper.
pub open spec fn kept_prefix(before: Locals, after: Locals, depth: int, k: int) -> bool {
    &&& 0 <= k <= before.len()
    &&& k <= after.len()
    &&& after.subrange(0, k) == before.subrange(0, k)
    &&& forall|i: int| k <= i < before.len() ==> #[trigger] before[i].1 >= depth
    &&& forall|i: int| k <= i < after.len() ==> #[trigger] after[i].1 >= depth
}

/// Compiling at `depth` touches only locals declared at `depth` or deeper:
/// it keeps a prefix of the locals, and all it drops and adds are that deep.
pub open spec fn grows_at(before: Locals, after: Locals, depth: int) -> bool {
    exists|k: int| kept_prefix(before, after, depth, k)
}

proof fn lemma_grows_refl(l: Locals, depth: int)
    ensures
        grows_at(l, l, depth),
{
    assert(kept_prefix(l, l, depth, l.len() as int));
}

proof fn lemma_grows_push(l: Locals, x: (Seq<char>, int), depth: int)
    requires
        x.1 >= depth,
    ensures
        grows_at(l, l.push(x), depth),
{
    assert(l.push(x).subrange(0, l.len() as int) =~= l.subrange(0, l.len() as int));
    assert(kept_prefix(l, l.push(x), depth, l.len() as int));
}

proof fn lemma_grows_trans(l1: Locals, l2: Locals, l3: Locals, depth: int)
    requires
        grows_at(l1, l2, depth),
        grows_at(l2, l3, depth),
    ensures
        grows_at(l1, l3, depth),
{
    let k1 = choose|k: int| kept_prefix(l1, l2, depth, k);
    let k2 = choose|k: int| kept_prefix(l2, l3, depth, k);
    let k = if k1 < k2 { k1 } else { k2 };
    assert forall|i: int| 0 <= i < k implies l3[i] == l1[i] by {
        assert(l3.subrange(0, k2)[i] == l2.subrange(0, k2)[i]);
        assert(l2.subrange(0, k1)[i] == l1.subrange(0, k1)[i]);
    }
    assert(l3.subrange(0, k) =~= l1.subrange(0, k));
    assert forall|i: int| k <= i < l1.len() implies #[trigger] l1[i].1 >= depth by {
        if i < k1 {
            assert(l2.subrange(0, k1)[i] == l1.subrange(0, k1)[i]);
            assert(l2[i].1 >= depth);
        }
    }
    assert forall|i: int| k <= i < l3.len() implies #[trigger] l3[i].1 >= depth by {
        if i < k2 {
            assert(l3.subrange(0, k2)[i] == l2.subrange(0, k2)[i]);
            assert(l2[i].1 >= depth);
        }
    }
    assert(kept_prefix(l1, l3, depth, k));
}

proof fn lemma_grows_weaken(l1: Locals, l2: Locals, deeper: int, depth: int)
    requires
        grows_at(l1, l2, deeper),
        depth <= deeper,
    ensures
        grows_at(l1, l2, depth),
{
    let k = choose|k: int| kept_prefix(l1, l2, deeper, k);
    assert(kept_prefix(l1, l2, depth, k));
}

/// The trailing locals of a depth are at the end, and are that deep.
proof fn lemma_trailing(l: Locals, depth: int)
    ensures
        trailing(l, depth) <= l.len(),
        forall|i: int| l.len() - trailing(l, depth) <= i < l.len() ==> #[trigger] l[i].1 >= depth,
    decreases l.len(),
{
    if l.len() > 0 && l.last().1 >= depth {
        lemma_trailing(l.drop_last(), depth);
        assert forall|i: int| l.len() - trailing(l, depth) <= i < l.len() implies #[trigger] l[i].1 >= depth by {
            if i < l.len() - 1 {
                assert(l.drop_last()[i] == l[i]);
            }
        }
    }
}

/// Dropping the trailing locals of a depth keeps growth at that depth.
proof fn lemma_grows_cut(l1: Locals, l2: Locals, depth: int)
    requires
        grows_at(l1, l2, depth),
    ensures
        grows_at(l1, l2.subrange(0, l2.len() - trailing(l2, depth)), depth),
{
    lemma_trailing(l2, depth);
    let m = l2.len() - trailing(l2, depth);
    let l3 = l2.subrange(0, m);
    let k1 = choose|k: int| kept_prefix(l1, l2, depth, k);
    let k = if k1 < m { k1 } else { m };
    assert forall|i: int| 0 <= i < k implies l3[i] == l1[i] by {
        assert(l2.subrange(0, k1)[i] == l1.subrange(0, k1)[i]);
    }
    assert(l3.subrange(0, k) =~= l1.subrange(0, k));
    assert forall|i: int| k <= i < l1.len() implies #[trigger] l1[i].1 >= depth by {
        if i < k1 {
            assert(l2.subrange(0, k1)[i] == l1.subrange(0, k1)[i]);
            assert(l2[i].1 >= depth);
        }
    }
    assert forall|i: int| k <= i < l3.len() implies #[trigger] l3[i].1 >= depth by {
        assert(l3[i] == l2[i]);
    }
    assert(kept_prefix(l1, l3, depth, k));
}

/// Locals that are all that deep, after one that is not, are exactly the
/// trailing ones.
proof fn lemma_trailing_exact(l: Locals, e: Locals, depth: int)
    requires
        l.len() == 0 || l.last().1 < depth,
        forall|i: int| 0 <= i < e.len() ==> #[trigger] e[i].1 >= depth,
    ensures
        trailing(l + e, depth) == e.len(),
    decreases e.len(),
{
    if e.len() == 0 {
        assert(l + e =~= l);
    } else {
        assert((l + e).drop_last() =~= l + e.drop_last());
        assert(e.drop_last().len() < e.len());
        assert forall|i: int| 0 <= i < e.drop_last().len() implies #[trigger] e.drop_last()[i].1 >= depth by {
            assert(e.drop_last()[i] == e[i]);
        }
        lemma_trailing_exact(l, e.drop_last(), depth);
        assert((l + e).last() == e.last());
    }
}

/// What a statement leaves of the locals: growth at its scope.
proof fn lemma_stmt_grows(s: Stmt, locals: Locals, scope: int, nc: nat)
    requires
        gen_stmt(s, locals, scope, nc) is Some,
    ensures
        grows_at(locals, gen_stmt(s, locals, scope, nc)->Some_0.1, scope),
    decreases s, 0int, 1int,
{
    match s {
        Stmt::Block(block) => {
            lemma_stmt_block(s, locals, scope, nc);
            lemma_block_grows(block@, locals, scope, nc);
        },
        Stmt::For { .. } => lemma_for_grows(s, locals, scope, nc),
        Stmt::While { condition, consequent } => {
            lemma_stmt_while(s, locals, scope, nc);
            let c = gen_expr(condition, locals, nc)->Some_0;
            lemma_block_grows(consequent@, locals, scope, nc + c.1.len());
        },
        Stmt::If { .. } => lemma_if_grows(s, locals, scope, nc),
        Stmt::On { location, block } => {
            lemma_stmt_on(s, locals, scope, nc);
            let l = gen_expr(location, locals, nc)->Some_0;
            lemma_stmts_grows(block@, locals, scope, nc + l.1.len());
            let l2 = gen_stmts(block@, locals, scope, nc + l.1.len())->Some_0.1;
            lemma_grows_cut(locals, l2, scope);
        },
        _ => lemma_simple_grows(s, locals, scope, nc),
    }
}

/// What a statement without statements inside leaves of the locals.
proof fn lemma_simple_grows(s: Stmt, locals: Locals, scope: int, nc: nat)
    requires
        !(s is Block || s is For || s is While || s is If || s is On),
        gen_stmt(s, locals, scope, nc) is Some,
    ensures
        grows_at(locals, gen_stmt(s, locals, scope, nc)->Some_0.1, scope),
{
    lemma_grows_refl(locals, scope);
    match s {
        Stmt::Import { .. } => lemma_stmt_import(s, locals, scope, nc),
        Stmt::DeclareClass { .. } => lemma_stmt_declare_class(s, locals, scope, nc),
        Stmt::Assign(..) => lemma_stmt_assign(s, locals, scope, nc),
        Stmt::LetAssign(Ident(name), _) => {
            lemma_stmt_let_assign(s, locals, scope, nc);
            lemma_grows_push(locals, (name@, scope), scope);
        },
        Stmt::Expr(_) => lemma_stmt_expr(s, locals, scope, nc),
        Stmt::Property { .. } => lemma_stmt_property(s, locals, scope, nc),
        Stmt::Return(_) => lemma_stmt_return(s, locals, scope, nc),
        Stmt::DeclareFunc { .. } => lemma_stmt_declare_func(s, locals, scope, nc),
        Stmt::Parallel { let_assign, .. } => {
            lemma_stmt_parallel(s, locals, scope, nc);
            match let_assign {
                Some(Ident(name)) => lemma_grows_push(locals, (name@, scope), scope),
                None => {},
            }
        },
        _ => {},
    }
}

/// What a `for` loop leaves of the locals.
proof fn lemma_for_grows(s: Stmt, locals: Locals, scope: int, nc: nat)
    requires
        s is For,
        gen_stmt(s, locals, scope, nc) is Some,
    ensures
        grows_at(locals, gen_stmt(s, locals, scope, nc)->Some_0.1, scope),
    decreases s, 0int, 0int,
{
    match s {
        Stmt::For { initializer, condition, increment, consequent } => {
            lemma_stmt_for(s, locals, scope, nc);
            let d = scope + 1;
            let (i, l1) = gen_stmt(*initializer, locals, d, nc)->Some_0;
            lemma_stmt_grows(*initializer, locals, d, nc);
            let c = gen_expr(condition, l1, nc + i.1.len())->Some_0;
            let n2 = nc + i.1.len() + c.1.len();
            let (b, l2) = gen_stmts(consequent@, l1, d, n2)->Some_0;
            lemma_stmts_grows(consequent@, l1, d, n2);
            lemma_stmt_grows(*increment, l2, d, n2 + b.1.len());
            let l3 = gen_stmt(*increment, l2, d, n2 + b.1.len())->Some_0.1;
            lemma_grows_trans(locals, l1, l2, d);
            lemma_grows_trans(locals, l2, l3, d);
            lemma_grows_weaken(locals, l3, d, scope);
        },
        _ => {},
    }
}

/// What an `if` statement leaves of the locals.
proof fn lemma_if_grows(s: Stmt, locals: Locals, scope: int, nc: nat)
    requires
        s is If,
        gen_stmt(s, locals, scope, nc) is Some,
    ensures
        grows_at(locals, gen_stmt(s, locals, scope, nc)->Some_0.1, scope),
    decreases s, 0int, 0int,
{
    match s {
        Stmt::If { condition, consequent, alternative } => {
            lemma_stmt_if(s, locals, scope, nc);
            let c = gen_expr(condition, locals, nc)->Some_0;
            let (t, l1) = gen_block(consequent@, locals, scope, nc + c.1.len())->Some_0;
            lemma_block_grows(consequent@, locals, scope, nc + c.1.len());
            match alternative {
                Some(alt) => {
                    lemma_block_grows(alt@, l1, scope, nc + c.1.len() + t.1.len());
                    let l2 = gen_block(alt@, l1, scope, nc + c.1.len() + t.1.len())->Some_0.1;
                    lemma_grows_trans(locals, l1, l2, scope);
                },
                None => {},
            }
        },
        _ => {},
    }
}

/// What statements leave of the locals: growth at their scope.
proof fn lemma_stmts_grows(ss: Seq<Stmt>, locals: Locals, scope: int, nc: nat)
    requires
        gen_stmts(ss, locals, scope, nc) is Some,
    ensures
        grows_at(locals, gen_stmts(ss, locals, scope, nc)->Some_0.1, scope),
    decreases ss, 1int, 0int,
{
    if ss.len() == 0 {
        lemma_gen_stmts_empty(locals, scope, nc);
        assert(ss =~= Seq::<Stmt>::empty());
        lemma_grows_refl(locals, scope);
    } else {
        lemma_gen_stmts(ss, locals, scope, nc);
        let (a, l1) = gen_stmt(ss[0], locals, scope, nc)->Some_0;
        lemma_stmt_grows(ss[0], locals, scope, nc);
        lemma_stmts_grows(ss.drop_first(), l1, scope, nc + a.1.len());
        let l2 = gen_stmts(ss.drop_first(), l1, scope, nc + a.1.len())->Some_0.1;
        lemma_grows_trans(locals, l1, l2, scope);
    }
}

/// What a block leaves of the locals: growth at its enclosing scope.
proof fn lemma_block_grows(ss: Seq<Stmt>, locals: Locals, scope: int, nc: nat)
    requires
        gen_block(ss, locals, scope, nc) is Some,
    ensures
        grows_at(locals, gen_block(ss, locals, scope, nc)->Some_0.1, scope),
    decreases ss, 2int, 0int,
{
    lemma_gen_block(ss, locals, scope, nc);
    lemma_stmts_grows(ss, locals, scope + 1, nc);
    let l2 = gen_stmts(ss, locals, scope + 1, nc)->Some_0.1;
    lemma_grows_cut(locals, l2, scope + 1);
    lemma_grows_weaken(locals, l2.subrange(0, l2.len() - trailing(l2, scope + 1)), scope + 1, scope);
}

/// Locals grown at a depth deeper than all of the locals before, with the
/// trailing ones of that depth dropped, are the locals before.
proof fn lemma_grown_dropped(locals: Locals, l2: Locals, d: int)
    requires
        forall|i: int| 0 <= i < locals.len() ==> #[trigger] locals[i].1 < d,
        grows_at(locals, l2, d),
    ensures
        l2.subrange(0, l2.len() - trailing(l2, d)) == locals,
{
    let k = choose|k: int| kept_prefix(locals, l2, d, k);
    assert(k == locals.len()) by {
        if k < locals.len() {
            assert(locals[k].1 >= d);
        }
    }
    let e = l2.subrange(locals.len() as int, l2.len() as int);
    assert forall|i: int| 0 <= i < locals.len() implies l2[i] == locals[i] by {
        assert(l2.subrange(0, k)[i] == locals.subrange(0, k)[i]);
    }
    assert(l2 =~= locals + e);
    assert forall|i: int| 0 <= i < e.len() implies #[trigger] e[i].1 >= d by {
        assert(e[i] == l2[locals.len() + i]);
    }
    if locals.len() > 0 {
        assert(locals[locals.len() - 1].1 < d);
    }
    lemma_trailing_exact(locals, e, d);
    assert(l2.subrange(0, l2.len() - trailing(l2, d)) =~= locals);
}

/// A block leaves the locals as they were before it: what it declares is
/// dropped at its end. This holds where no local before the block was
/// declared deeper than the scope the block stands in.
pub proof fn law_block_restores_locals(ss: Seq<Stmt>, locals: Locals, scope: int, nc: nat)
    requires
        forall|i: int| 0 <= i < locals.len() ==> #[trigger] locals[i].1 <= scope,
        gen_block(ss, locals, scope, nc) is Some,
    ensures
        gen_block(ss, locals, scope, nc)->Some_0.1 == locals,
{
    let d = scope + 1;
    lemma_gen_block(ss, locals, scope, nc);
    lemma_stmts_grows(ss, locals, d, nc);
    let l2 = gen_stmts(ss, locals, d, nc)->Some_0.1;
    lemma_grown_dropped(locals, l2, d);
}

/// The offset in the two bytes after position `at`, high first, as the
/// machine reads a jump's operand.
pub open spec fn offset_at(code: Seq<u8>, at: int) -> int {
    code[at + 1] as int * 256 + code[at + 2] as int
}

/// The two bytes the compiler writes for a jump offset read back as that
/// offset, modulo 2^16.
pub proof fn law_jump_bytes_read(n: nat)
    ensures
        jump_bytes(n).len() == 2,
        jump_bytes(n)[0] as int * 256 + jump_bytes(n)[1] as int == n % 65536,
{
    let m = n % 65536;
    assert(m == 256 * (m / 256) + m % 256) by (nonlinear_arith);
    vstd::arithmetic::div_mod::lemma_mod_mod(n as int, 256, 256);
    assert(256 * 256 == 65536);
    assert(m / 256 < 256) by (nonlinear_arith)
        requires
            m < 65536,
    ;
}

/// The code of a `while` loop of the given condition and body code.
pub open spec fn while_code(c: Seq<u8>, b: Seq<u8>) -> Seq<u8> {
    c + seq![ob(Opcode::JUMP_IF_FALSE)] + jump_bytes(b.len() + 4) + seq![ob(Opcode::POP)] + b + seq![ob(Opcode::JUMP_BACK)]
        + jump_bytes(c.len() + b.len() + 7) + seq![ob(Opcode::POP)]
}

/// The code of an `if` statement of the given condition, consequent and
/// alternative code.
pub open spec fn if_code(c: Seq<u8>, t: Seq<u8>, f: Seq<u8>) -> Seq<u8> {
    c + seq![ob(Opcode::JUMP_IF_FALSE)] + jump_bytes(t.len() + 4) + seq![ob(Opcode::POP)] + t + seq![ob(Opcode::JUMP)]
        + jump_bytes(f.len() + 1) + seq![ob(Opcode::POP)] + f
}

/// The code of a `for` loop of the given initializer, condition, body and
/// increment code.
pub open spec fn for_code(i: Seq<u8>, c: Seq<u8>, b: Seq<u8>, inc: Seq<u8>) -> Seq<u8> {
    i + c + seq![ob(Opcode::JUMP_IF_FALSE)] + jump_bytes(b.len() + inc.len() + 4) + seq![ob(Opcode::POP)] + b + inc + seq![
        ob(Opcode::JUMP_BACK),
    ] + jump_bytes(c.len() + b.len() + inc.len() + 7) + seq![ob(Opcode::POP)]
}

/// Where the jumps in the code of a `while` loop land.
proof fn lemma_while_code(c: Seq<u8>, b: Seq<u8>)
    requires
        while_code(c, b).len() < 65536,
    ensures
        while_code(c, b).len() == c.len() + b.len() + 8,
        while_code(c, b)[c.len() as int] == ob(Opcode::JUMP_IF_FALSE),
        c.len() + 3 + offset_at(while_code(c, b), c.len() as int) == while_code(c, b).len() - 1,
        while_code(c, b)[while_code(c, b).len() - 1] == ob(Opcode::POP),
        while_code(c, b)[while_code(c, b).len() - 4] == ob(Opcode::JUMP_BACK),
        while_code(c, b).len() - 4 + 3 - offset_at(while_code(c, b), while_code(c, b).len() - 4) == 0,
{
    let code = while_code(c, b);
    let at = c.len() as int;
    let back = code.len() - 4;
    let jb1 = jump_bytes(b.len() + 4);
    let jb2 = jump_bytes(c.len() + b.len() + 7);
    law_jump_bytes_read(b.len() + 4);
    law_jump_bytes_read(c.len() + b.len() + 7);
    assert(code[at] == ob(Opcode::JUMP_IF_FALSE));
    assert(code[at + 1] == jb1[0] && code[at + 2] == jb1[1]);
    assert(code[back] == ob(Opcode::JUMP_BACK));
    assert(code[back + 1] == jb2[0] && code[back + 2] == jb2[1]);
}

/// Where the jumps in the code of an `if` statement land.
proof fn lemma_if_code_jumps(c: Seq<u8>, t: Seq<u8>, f: Seq<u8>)
    requires
        if_code(c, t, f).len() < 65536,
    ensures
        if_code(c, t, f).len() == c.len() + t.len() + f.len() + 8,
        if_code(c, t, f)[c.len() as int] == ob(Opcode::JUMP_IF_FALSE),
        c.len() + 3 + offset_at(if_code(c, t, f), c.len() as int) == c.len() + 4 + t.len() + 3,
        if_code(c, t, f)[c.len() + 4 + t.len() + 3int] == ob(Opcode::POP),
        if_code(c, t, f)[c.len() + 4int + t.len()] == ob(Opcode::JUMP),
        c.len() + 4 + t.len() + 3 + offset_at(if_code(c, t, f), c.len() + 4int + t.len()) == if_code(c, t, f).len(),
{
    let code = if_code(c, t, f);
    let at = c.len() as int;
    let skip = at + 4 + t.len();
    let jb1 = jump_bytes(t.len() + 4);
    let jb2 = jump_bytes(f.len() + 1);
    law_jump_bytes_read(t.len() + 4);
    law_jump_bytes_read(f.len() + 1);
    assert(code[at] == ob(Opcode::JUMP_IF_FALSE));
    assert(code[at + 1] == jb1[0] && code[at + 2] == jb1[1]);
    assert(code[skip] == ob(Opcode::JUMP));
    assert(code[skip + 1] == jb2[0] && code[skip + 2] == jb2[1]);
    assert(code[skip + 3] == ob(Opcode::POP));
}

/// Where the jumps in the code of a `for` loop land.
proof fn lemma_for_code(i: Seq<u8>, c: Seq<u8>, b: Seq<u8>, inc: Seq<u8>)
    requires
        for_code(i, c, b, inc).len() < 65536,
    ensures
        for_code(i, c, b, inc).len() == i.len() + c.len() + b.len() + inc.len() + 8,
        for_code(i, c, b, inc)[i.len() + c.len() + 0int] == ob(Opcode::JUMP_IF_FALSE),
        i.len() + c.len() + 3 + offset_at(for_code(i, c, b, inc), i.len() + c.len() + 0int) == for_code(i, c, b, inc).len() - 1,
        for_code(i, c, b, inc)[for_code(i, c, b, inc).len() - 1] == ob(Opcode::POP),
        for_code(i, c, b, inc)[for_code(i, c, b, inc).len() - 4] == ob(Opcode::JUMP_BACK),
        for_code(i, c, b, inc).len() - 4 + 3 - offset_at(for_code(i, c, b, inc), for_code(i, c, b, inc).len() - 4) == i.len(),
{
    let code = for_code(i, c, b, inc);
    let at = i.len() + c.len() + 0int;
    let back = code.len() - 4;
    let jb1 = jump_bytes(b.len() + inc.len() + 4);
    let jb2 = jump_bytes(c.len() + b.len() + inc.len() + 7);
    law_jump_bytes_read(b.len() + inc.len() + 4);
    law_jump_bytes_read(c.len() + b.len() + inc.len() + 7);
    assert(code[at] == ob(Opcode::JUMP_IF_FALSE));
    assert(code[at + 1] == jb1[0] && code[at + 2] == jb1[1]);
    assert(code[back] == ob(Opcode::JUMP_BACK));
    assert(code[back + 1] == jb2[0] && code[back + 2] == jb2[1]);
}

/// The jumps of a `while` loop: where its condition is false, the
/// conditional jump after the condition lands on the last instruction,
/// which drops the condition; the jump back at the end of the body lands
/// on the start of the condition. This holds where the loop's code is
/// shorter than 2^16 bytes, so that its offsets fit their two bytes.
pub proof fn law_while_jumps(s: Stmt, locals: Locals, scope: int, nc: nat)
    requires
        s is While,
        gen_stmt(s, locals, scope, nc) is Some,
        gen_stmt(s, locals, scope, nc)->Some_0.0.0.len() < 65536,
    ensures
        ({
            let code = gen_stmt(s, locals, scope, nc)->Some_0.0.0;
            let at = gen_expr(s->While_condition, locals, nc)->Some_0.0.len() as int;
            let back = code.len() - 4;
            &&& code[at] == ob(Opcode::JUMP_IF_FALSE)
            &&& at + 3 + offset_at(code, at) == code.len() - 1
            &&& code[code.len() - 1] == ob(Opcode::POP)
            &&& code[back] == ob(Opcode::JUMP_BACK)
            &&& back + 3 - offset_at(code, back) == 0
        }),
{
    lemma_stmt_while(s, locals, scope, nc);
    let c = gen_expr(s->While_condition, locals, nc)->Some_0;
    let b = gen_block(s->While_consequent@, locals, scope, nc + c.1.len())->Some_0.0;
    assert(gen_stmt(s, locals, scope, nc)->Some_0.0.0 == while_code(c.0, b.0));
    lemma_while_code(c.0, b.0);
}

/// The jumps of an `if` statement: where its condition is false, the
/// conditional jump after the condition lands on the instruction that
/// drops the condition before the alternative; the jump at the end of the
/// consequent lands just past the alternative, at the end of the code.
/// This holds where the statement's code is shorter than 2^16 bytes.
pub proof fn law_if_jumps(s: Stmt, locals: Locals, scope: int, nc: nat)
    requires
        s is If,
        gen_stmt(s, locals, scope, nc) is Some,
        gen_stmt(s, locals, scope, nc)->Some_0.0.0.len() < 65536,
    ensures
        ({
            let code = gen_stmt(s, locals, scope, nc)->Some_0.0.0;
            let c = gen_expr(s->If_condition, locals, nc)->Some_0;
            let at = c.0.len() as int;
            let skip = at + 4 + gen_block(s->If_consequent@, locals, scope, nc + c.1.len())->Some_0.0.0.len();
            &&& code[at] == ob(Opcode::JUMP_IF_FALSE)
            &&& code[at + 3 + offset_at(code, at)] == ob(Opcode::POP)
            &&& at + 3 + offset_at(code, at) == skip + 3
            &&& code[skip] == ob(Opcode::JUMP)
            &&& skip + 3 + offset_at(code, skip) == code.len()
        }),
{
    lemma_if_result(s, locals, scope, nc);
    let c = gen_expr(s->If_condition, locals, nc)->Some_0;
    let tr = gen_block(s->If_consequent@, locals, scope, nc + c.1.len())->Some_0;
    let t = tr.0;
    let f = (match s->If_alternative {
        Some(alt) => gen_block(alt@, tr.1, scope, nc + c.1.len() + t.1.len())->Some_0,
        None => ((Seq::<u8>::empty(), Seq::<Const>::empty()), tr.1),
    }).0;
    assert(gen_stmt(s, locals, scope, nc)->Some_0.0.0 == if_code(c.0, t.0, f.0));
    lemma_if_code_jumps(c.0, t.0, f.0);
}

/// The jumps of a `for` loop: where its condition is false, the
/// conditional jump after the condition lands on the last instruction,
/// which drops the condition; the jump back after the increment lands on
/// the start of the condition, just after the initializer. This holds
/// where the loop's code is shorter than 2^16 bytes.
pub proof fn law_for_jumps(s: Stmt, locals: Locals, scope: int, nc: nat)
    requires
        s is For,
        gen_stmt(s, locals, scope, nc) is Some,
        gen_stmt(s, locals, scope, nc)->Some_0.0.0.len() < 65536,
    ensures
        ({
            let code = gen_stmt(s, locals, scope, nc)->Some_0.0.0;
            let (i, l1) = gen_stmt(*s->For_initializer, locals, scope + 1, nc)->Some_0;
            let start = i.0.len() as int;
            let at = start + gen_expr(s->For_condition, l1, nc + i.1.len())->Some_0.0.len();
            let back = code.len() - 4;
            &&& code[at] == ob(Opcode::JUMP_IF_FALSE)
            &&& at + 3 + offset_at(code, at) == code.len() - 1
            &&& code[code.len() - 1] == ob(Opcode::POP)
            &&& code[back] == ob(Opcode::JUMP_BACK)
            &&& back + 3 - offset_at(code, back) == start
        }),
{
    lemma_stmt_for(s, locals, scope, nc);
    let d = scope + 1;
    let (i, l1) = gen_stmt(*s->For_initializer, locals, d, nc)->Some_0;
    let c = gen_expr(s->For_condition, l1, nc + i.1.len())->Some_0;
    let n2 = nc + i.1.len() + c.1.len();
    let (b, l2) = gen_stmts(s->For_consequent@, l1, d, n2)->Some_0;
    let inc = gen_stmt(*s->For_increment, l2, d, n2 + b.1.len())->Some_0.0;
    assert(gen_stmt(s, locals, scope, nc)->Some_0.0.0 == for_code(i.0, c.0, b.0, inc.0));
    lemma_for_code(i.0, c.0, b.0, inc.0);
}

/// What an emission says of the code and the number of constants.
pub proof fn lemma_emitted_lens(c0: ChunkMut, c1: ChunkMut, em: Emitted)
    requires
        chunk_emitted(c0, c1, em),
    ensures
        c1.code_view() == c0.code_view() + em.0,
        c1.constants@.len() == c0.constants@.len() + em.1.len(),
{
    reveal(chunk_emitted);
}

/// What an emission says of the chunk after it.
pub proof fn lemma_emitted(c0: ChunkMut, c1: ChunkMut, em: Emitted)
    requires
        chunk_emitted(c0, c1, em),
    ensures
        c1.code_view() == c0.code_view() + em.0,
        consts_emitted(c0.constants@, c1.constants@, em.1),
{
    reveal(chunk_emitted);
}

/// Nothing emitted leaves the chunk as it was.
proof fn lemma_emitted_nothing(c0: ChunkMut)
    ensures
        chunk_emitted(c0, c0, (Seq::empty(), Seq::empty())),
{
    reveal(chunk_emitted);
    assert(c0.code_view() =~= c0.code_view() + Seq::<u8>::empty());
}

/// Two emissions one after the other make their join.
proof fn lemma_join_emitted(c0: ChunkMut, c1: ChunkMut, c2: ChunkMut, a: Emitted, b: Emitted)
    requires
        chunk_emitted(c0, c1, a),
        chunk_emitted(c1, c2, b),
    ensures
        chunk_emitted(c0, c2, join(a, b)),
{
    reveal(chunk_emitted);
    assert(c2.code_view() =~= c0.code_view() + (a.0 + b.0));
    let total = a.1 + b.1;
    let nc = c0.constants@.len();
    assert forall|j: int| 0 <= j < total.len() implies value_is(#[trigger] c2.constants@[nc + j], total[j]) by {
        if j < a.1.len() {
            assert(c2.constants@[nc + j] == c1.constants@[nc + j]);
        } else {
            assert(c2.constants@[c1.constants@.len() + (j - a.1.len())] == c2.constants@[nc + j]);
        }
    }
}

/// An emission followed by bytes.
proof fn lemma_then_bytes(c0: ChunkMut, c1: ChunkMut, c2: ChunkMut, a: Emitted, bytes: Seq<u8>)
    requires
        chunk_emitted(c0, c1, a),
        c2.code_view() == c1.code_view() + bytes,
        c2.constants@ == c1.constants@,
    ensures
        chunk_emitted(c0, c2, then_bytes(a, bytes)),
{
    reveal(chunk_emitted);
    assert(c2.code_view() =~= c0.code_view() + (a.0 + bytes));
}

/// Appends an instruction whose operand is a new constant.
fn emit_const(chunk: &mut ChunkMut, op: Opcode, value: Value, Ghost(c): Ghost<Const>)
    requires
        value_is(value, c),
        with_const(op, c, old(chunk).constants@.len()) is Some,
        old(chunk).code_view().len() + 2 <= usize::MAX,
    ensures
        chunk_emitted(*old(chunk), *final(chunk), with_const(op, c, old(chunk).constants@.len())->Some_0),
{
    let ghost c0 = *chunk;
    let index = chunk.add_constant(value);
    chunk.write_pair(op.to_u8(), index);
    proof {
        reveal(chunk_emitted);
        let em = with_const(op, c, c0.constants@.len())->Some_0;
        assert(chunk.code_view() =~= c0.code_view() + em.0);
        assert(chunk.constants@[c0.constants@.len() as int] == value);
    }
}

/// Appends one instruction byte.
fn emit_op(chunk: &mut ChunkMut, op: Opcode, Ghost(c0): Ghost<ChunkMut>, Ghost(a): Ghost<Emitted>)
    requires
        chunk_emitted(c0, *old(chunk), a),
        old(chunk).code_view().len() + 1 <= usize::MAX,
    ensures
        chunk_emitted(c0, *final(chunk), then_bytes(a, seq![ob(op)])),
{
    let ghost c1 = *chunk;
    chunk.write(op.to_u8());
    proof {
        assert(chunk.code_view() =~= c1.code_view() + seq![ob(op)]);
        lemma_then_bytes(c0, c1, *chunk, a, seq![ob(op)]);
    }
}

/// Appends an instruction byte and its operand byte.
fn emit_op_byte(chunk: &mut ChunkMut, op: Opcode, x: u8, Ghost(c0): Ghost<ChunkMut>, Ghost(a): Ghost<Emitted>)
    requires
        chunk_emitted(c0, *old(chunk), a),
        old(chunk).code_view().len() + 2 <= usize::MAX,
    ensures
        chunk_emitted(c0, *final(chunk), then_bytes(a, seq![ob(op), x])),
{
    let ghost c1 = *chunk;
    chunk.write_pair(op.to_u8(), x);
    proof {
        assert(chunk.code_view() =~= c1.code_view() + seq![ob(op), x]);
        lemma_then_bytes(c0, c1, *chunk, a, seq![ob(op), x]);
    }
}

/// Finds the first local of the name.
fn find_local(locals: &Vec<Local>, name: &String) -> (r: Option<usize>)
    ensures
        match local_position(locals_view(locals@), name@) {
            Some(i) => r is Some && r->0 as int == i,
            None => r is None,
        },
{
    let ghost lv = locals_view(locals@);
    let mut i: usize = 0;
    while i < locals.len()
        invariant
            i <= locals@.len(),
            lv == locals_view(locals@),
            forall|j: int| 0 <= j < i ==> lv[j].0 != name@,
        decreases locals@.len() - i,
    {
        if locals[i].name == *name {
            proof {
                let k = choose|k: int| 0 <= k < lv.len() && lv[k].0 == name@ && forall|j: int| 0 <= j < k ==> lv[j].0 != name@;
                assert(lv[i as int].0 == name@);
                assert(k == i) by {
                    if k < i {
                        assert(lv[k].0 != name@);
                    }
                    if k > i {
                        assert(lv[i as int].0 != name@);
                    }
                }
            }
            return Some(i);
        }
        i = i + 1;
    }
    None
}

/// Compiles a name read.
fn emit_ident(name: &String, chunk: &mut ChunkMut, locals: &Vec<Local>)
    requires
        gen_ident(name@, locals_view(locals@), old(chunk).constants@.len()) is Some,
        old(chunk).code_view().len() + 2 <= usize::MAX,
    ensures
        chunk_emitted(*old(chunk), *final(chunk), gen_ident(name@, locals_view(locals@), old(chunk).constants@.len())->Some_0),
{
    let ghost c0 = *chunk;
    match find_local(locals, name) {
        Some(i) => {
            proof {
                lemma_emitted_nothing(c0);
            }
            emit_op_byte(chunk, Opcode::GET_LOCAL, i as u8, Ghost(c0), Ghost((Seq::empty(), Seq::empty())));
            proof {
                let p = local_position(locals_view(locals@), name@)->Some_0;
                assert(then_bytes((Seq::<u8>::empty(), Seq::<Const>::empty()), seq![ob(Opcode::GET_LOCAL), i as u8]) =~= (
                    seq![ob(Opcode::GET_LOCAL), p as u8],
                    Seq::<Const>::empty(),
                ));
            }
        },
        None => {
            emit_const(chunk, Opcode::GET_GLOBAL, Value::Unicode(name.clone()), Ghost(Const::Str(name@)));
        },
    }
}

/// Compiles expressions one after the other.
fn emit_exprs(es: &Vec<Expr>, start: usize, chunk: &mut ChunkMut, locals: &Vec<Local>)
    requires
        start <= es@.len(),
        gen_exprs(es@.subrange(start as int, es@.len() as int), locals_view(locals@), old(chunk).constants@.len()) is Some,
        old(chunk).code_view().len() + gen_exprs(
            es@.subrange(start as int, es@.len() as int),
            locals_view(locals@),
            old(chunk).constants@.len(),
        )->Some_0.0.len() <= usize::MAX,
    ensures
        chunk_emitted(
            *old(chunk),
            *final(chunk),
            gen_exprs(es@.subrange(start as int, es@.len() as int), locals_view(locals@), old(chunk).constants@.len())->Some_0,
        ),
    decreases es@, 1int, es@.len() - start,
{
    if start >= es.len() {
        proof {
            lemma_emitted_nothing(*chunk);
            lemma_gen_empty(locals_view(locals@), chunk.constants@.len());
            assert(es@.subrange(start as int, es@.len() as int) =~= Seq::<Expr>::empty());
        }
        return;
    }
    let ghost lv = locals_view(locals@);
    let ghost nc = chunk.constants@.len();
    let ghost sub = es@.subrange(start as int, es@.len() as int);
    assert(sub[0] == es@[start as int]);
    assert(sub.drop_first() =~= es@.subrange(start + 1, es@.len() as int));
    proof {
        lemma_gen_exprs(sub, lv, nc);
    }
    let ghost a = gen_expr(es@[start as int], lv, nc)->Some_0;
    let ghost mid = *chunk;
    emit_expr(&es[start], chunk, locals);
    let ghost mid2 = *chunk;
    proof {
        lemma_emitted_lens(mid, mid2, a);
    }
    emit_exprs(es, start + 1, chunk, locals);
    proof {
        let b = gen_exprs(es@.subrange(start + 1, es@.len() as int), lv, nc + a.1.len())->Some_0;
        lemma_join_emitted(mid, mid2, *chunk, a, b);
    }
}

/// Compiles expressions, the last first.
fn emit_exprs_rev(es: &Vec<Expr>, end: usize, chunk: &mut ChunkMut, locals: &Vec<Local>)
    requires
        end <= es@.len(),
        gen_exprs_rev(es@.subrange(0, end as int), locals_view(locals@), old(chunk).constants@.len()) is Some,
        old(chunk).code_view().len() + gen_exprs_rev(
            es@.subrange(0, end as int),
            locals_view(locals@),
            old(chunk).constants@.len(),
        )->Some_0.0.len() <= usize::MAX,
    ensures
        chunk_emitted(
            *old(chunk),
            *final(chunk),
            gen_exprs_rev(es@.subrange(0, end as int), locals_view(locals@), old(chunk).constants@.len())->Some_0,
        ),
    decreases es@, 1int, end,
{
    if end == 0 {
        proof {
            lemma_emitted_nothing(*chunk);
            lemma_gen_empty(locals_view(locals@), chunk.constants@.len());
            assert(es@.subrange(0, 0) =~= Seq::<Expr>::empty());
        }
        return;
    }
    let ghost lv = locals_view(locals@);
    let ghost nc = chunk.constants@.len();
    let ghost sub = es@.subrange(0, end as int);
    assert(sub.last() == es@[end - 1]);
    assert(sub.drop_last() =~= es@.subrange(0, end - 1));
    proof {
        lemma_gen_exprs_rev(sub, lv, nc);
    }
    let ghost a = gen_expr(es@[end - 1], lv, nc)->Some_0;
    let ghost mid = *chunk;
    emit_expr(&es[end - 1], chunk, locals);
    let ghost mid2 = *chunk;
    proof {
        lemma_emitted_lens(mid, mid2, a);
    }
    emit_exprs_rev(es, end - 1, chunk, locals);
    proof {
        let b = gen_exprs_rev(es@.subrange(0, end - 1), lv, nc + a.1.len())->Some_0;
        lemma_join_emitted(mid, mid2, *chunk, a, b);
    }
}

/// Compiles the properties of an instance.
fn emit_props(ps: &Vec<Stmt>, start: usize, chunk: &mut ChunkMut, locals: &Vec<Local>)
    requires
        start <= ps@.len(),
        gen_props(ps@.subrange(start as int, ps@.len() as int), locals_view(locals@), old(chunk).constants@.len()) is Some,
        old(chunk).code_view().len() + gen_props(
            ps@.subrange(start as int, ps@.len() as int),
            locals_view(locals@),
            old(chunk).constants@.len(),
        )->Some_0.0.len() <= usize::MAX,
    ensures
        chunk_emitted(
            *old(chunk),
            *final(chunk),
            gen_props(ps@.subrange(start as int, ps@.len() as int), locals_view(locals@), old(chunk).constants@.len())->Some_0,
        ),
    decreases ps@, 1int, ps@.len() - start,
{
    if start >= ps.len() {
        proof {
            lemma_emitted_nothing(*chunk);
            lemma_gen_empty(locals_view(locals@), chunk.constants@.len());
            assert(ps@.subrange(start as int, ps@.len() as int) =~= Seq::<Stmt>::empty());
        }
        return;
    }
    let ghost lv = locals_view(locals@);
    let ghost nc = chunk.constants@.len();
    let ghost sub = ps@.subrange(start as int, ps@.len() as int);
    assert(sub[0] == ps@[start as int]);
    assert(sub.drop_first() =~= ps@.subrange(start + 1, ps@.len() as int));
    proof {
        lemma_gen_props(sub, lv, nc);
    }
    match &ps[start] {
        Stmt::Assign(Ident(name), value) => {
            let ghost v = gen_expr(*value, lv, nc)->Some_0;
            let ghost c1 = *chunk;
            emit_expr(value, chunk, locals);
            let ghost c2 = *chunk;
            proof {
                lemma_emitted_lens(c1, c2, v);
            }
            emit_const(chunk, Opcode::CONSTANT, Value::Unicode(name.clone()), Ghost(Const::Str(name@)));
            let ghost c3 = *chunk;
            proof {
                let n = with_const(Opcode::CONSTANT, Const::Str(name@), nc + v.1.len())->Some_0;
                lemma_emitted_lens(c2, c3, n);
                lemma_join_emitted(c1, c2, c3, v, n);
            }
            emit_props(ps, start + 1, chunk, locals);
            proof {
                let n = with_const(Opcode::CONSTANT, Const::Str(name@), nc + v.1.len())->Some_0;
                let rest = gen_props(ps@.subrange(start + 1, ps@.len() as int), lv, nc + v.1.len() + 1)->Some_0;
                lemma_join_emitted(c1, c3, *chunk, join(v, n), rest);
            }
        },
        _ => vstd::pervasive::unreached(),
    }
}

/// Compiles a binary expression.
#[verifier::rlimit(50)]
fn emit_binary(e: &Expr, chunk: &mut ChunkMut, locals: &Vec<Local>)
    requires
        e is Binary,
        gen_expr(*e, locals_view(locals@), old(chunk).constants@.len()) is Some,
        old(chunk).code_view().len() + gen_expr(*e, locals_view(locals@), old(chunk).constants@.len())->Some_0.0.len()
            <= usize::MAX,
    ensures
        chunk_emitted(*old(chunk), *final(chunk), gen_expr(*e, locals_view(locals@), old(chunk).constants@.len())->Some_0),
    decreases *e, 0int, 1int,
{
    let ghost lv = locals_view(locals@);
    let ghost nc = chunk.constants@.len();
    let ghost c0 = *chunk;
    proof {
        lemma_gen_binary(*e, lv, nc);
    }
    let (operator, lhs_operand, rhs_operand) = match e {
        Expr::Binary { operator, lhs_operand, rhs_operand } => (operator, lhs_operand, rhs_operand),
        _ => vstd::pervasive::unreached(),
    };
    let ghost l = gen_expr(**lhs_operand, lv, nc)->Some_0;
    emit_expr(lhs_operand, chunk, locals);
    let ghost c1 = *chunk;
    proof {
        lemma_emitted_lens(c0, c1, l);
    }
    if let BinOp::Dot = operator {
        match &**rhs_operand {
            Expr::Ident(Ident(name)) => {
                emit_const(chunk, Opcode::GET_PROPERTY, Value::Unicode(name.clone()), Ghost(Const::Str(name@)));
                proof {
                    let p = with_const(Opcode::GET_PROPERTY, Const::Str(name@), nc + l.1.len())->Some_0;
                    lemma_join_emitted(c0, c1, *chunk, l, p);
                }
            },
            Expr::Call { function: Ident(name), arguments } => {
                emit_const(chunk, Opcode::GET_METHOD, Value::Unicode(name.clone()), Ghost(Const::Str(name@)));
                let ghost c2 = *chunk;
                let ghost m = with_const(Opcode::GET_METHOD, Const::Str(name@), nc + l.1.len())->Some_0;
                proof {
                    lemma_emitted_lens(c1, c2, m);
                    lemma_join_emitted(c0, c1, c2, l, m);
                }
                assert((arguments.len() as u8) == (arguments@.len() as u8));
                let arguments_n: u8 = arguments.len() as u8 + 1;
                let start: usize = if arguments.len() == 0 { 0 } else { 1 };
                proof {
                    if arguments@.len() == 0 {
                        assert(arguments@.subrange(0, 0) =~= arguments@);
                    } else {
                        assert(arguments@.subrange(1, arguments@.len() as int) =~= arguments@.drop_first());
                    }
                }
                emit_exprs(arguments, start, chunk, locals);
                let ghost c3 = *chunk;
                proof {
                    let args = if arguments@.len() == 0 { arguments@ } else { arguments@.drop_first() };
                    let a = gen_exprs(args, lv, nc + l.1.len() + 1)->Some_0;
                    lemma_emitted_lens(c2, c3, a);
                    lemma_join_emitted(c0, c2, c3, join(l, m), a);
                }
                emit_op_byte(chunk, Opcode::CALL, arguments_n, Ghost(c0), Ghost(
                    join(join(l, m), gen_exprs(if arguments@.len() == 0 { arguments@ } else { arguments@.drop_first() }, lv, nc + l.1.len() + 1)->Some_0),
                ));
            },
            _ => vstd::pervasive::unreached(),
        }
        return;
    }
    let ghost r = gen_expr(**rhs_operand, lv, nc + l.1.len())->Some_0;
    emit_expr(rhs_operand, chunk, locals);
    let ghost c2 = *chunk;
    proof {
        lemma_emitted_lens(c1, c2, r);
        lemma_join_emitted(c0, c1, c2, l, r);
    }
    let ghost lr = join(l, r);
    match operator {
        BinOp::Add => emit_op(chunk, Opcode::ADD, Ghost(c0), Ghost(lr)),
        BinOp::Sub => emit_op(chunk, Opcode::SUBSTRACT, Ghost(c0), Ghost(lr)),
        BinOp::Mul => emit_op(chunk, Opcode::MULTIPLY, Ghost(c0), Ghost(lr)),
        BinOp::Div => emit_op(chunk, Opcode::DIVIDE, Ghost(c0), Ghost(lr)),
        BinOp::Eq => emit_op(chunk, Opcode::EQUAL, Ghost(c0), Ghost(lr)),
        BinOp::Lt => emit_op(chunk, Opcode::LESS, Ghost(c0), Ghost(lr)),
        BinOp::Gt => emit_op(chunk, Opcode::GREATER, Ghost(c0), Ghost(lr)),
        BinOp::Le => {
            emit_op(chunk, Opcode::GREATER, Ghost(c0), Ghost(lr));
            proof {
                lemma_emitted_lens(c0, *chunk, then_bytes(lr, seq![ob(Opcode::GREATER)]));
            }
            emit_op(chunk, Opcode::NOT, Ghost(c0), Ghost(then_bytes(lr, seq![ob(Opcode::GREATER)])));
            assert(then_bytes(then_bytes(lr, seq![ob(Opcode::GREATER)]), seq![ob(Opcode::NOT)]) =~= then_bytes(lr, binop_code(*operator)));
        },
        BinOp::Ge => {
            emit_op(chunk, Opcode::LESS, Ghost(c0), Ghost(lr));
            proof {
                lemma_emitted_lens(c0, *chunk, then_bytes(lr, seq![ob(Opcode::LESS)]));
            }
            emit_op(chunk, Opcode::NOT, Ghost(c0), Ghost(then_bytes(lr, seq![ob(Opcode::LESS)])));
            assert(then_bytes(then_bytes(lr, seq![ob(Opcode::LESS)]), seq![ob(Opcode::NOT)]) =~= then_bytes(lr, binop_code(*operator)));
        },
        BinOp::Ne => {
            emit_op(chunk, Opcode::EQUAL, Ghost(c0), Ghost(lr));
            proof {
                lemma_emitted_lens(c0, *chunk, then_bytes(lr, seq![ob(Opcode::EQUAL)]));
            }
            emit_op(chunk, Opcode::NOT, Ghost(c0), Ghost(then_bytes(lr, seq![ob(Opcode::EQUAL)])));
            assert(then_bytes(then_bytes(lr, seq![ob(Opcode::EQUAL)]), seq![ob(Opcode::NOT)]) =~= then_bytes(lr, binop_code(*operator)));
        },
        BinOp::And => emit_op(chunk, Opcode::AND, Ghost(c0), Ghost(lr)),
        BinOp::Or => emit_op(chunk, Opcode::OR, Ghost(c0), Ghost(lr)),
        BinOp::Dot => {},
    }
}

/// Compiles an expression of one kind.
#[verifier::rlimit(50)]
fn emit_call(e: &Expr, chunk: &mut ChunkMut, locals: &Vec<Local>)
    requires
        e is Call,
        gen_expr(*e, locals_view(locals@), old(chunk).constants@.len()) is Some,
        old(chunk).code_view().len() + gen_expr(*e, locals_view(locals@), old(chunk).constants@.len())->Some_0.0.len()
            <= usize::MAX,
    ensures
        chunk_emitted(*old(chunk), *final(chunk), gen_expr(*e, locals_view(locals@), old(chunk).constants@.len())->Some_0),
    decreases *e, 0int, 1int,
{
    let ghost lv = locals_view(locals@);
    let ghost nc = chunk.constants@.len();
    let ghost c0 = *chunk;
    match e {
        Expr::Call { function: Ident(name), arguments } => {
            proof {
                lemma_gen_call(*e, lv, nc);
            }
            let ghost f = gen_ident(name@, lv, nc)->Some_0;
            emit_ident(name, chunk, locals);
            let ghost c1 = *chunk;
            proof {
                lemma_emitted_lens(c0, c1, f);
                assert(arguments@.subrange(0, arguments@.len() as int) =~= arguments@);
            }
            emit_exprs(arguments, 0, chunk, locals);
            let ghost a = gen_exprs(arguments@, lv, nc + f.1.len())->Some_0;
            proof {
                lemma_emitted_lens(c1, *chunk, a);
                lemma_join_emitted(c0, c1, *chunk, f, a);
            }
            emit_op_byte(chunk, Opcode::CALL, arguments.len() as u8, Ghost(c0), Ghost(join(f, a)));
        },
        _ => vstd::pervasive::unreached(),
    }
}

/// Compiles an expression of one kind.
#[verifier::rlimit(50)]
fn emit_instance(e: &Expr, chunk: &mut ChunkMut, locals: &Vec<Local>)
    requires
        e is Instance,
        gen_expr(*e, locals_view(locals@), old(chunk).constants@.len()) is Some,
        old(chunk).code_view().len() + gen_expr(*e, locals_view(locals@), old(chunk).constants@.len())->Some_0.0.len()
            <= usize::MAX,
    ensures
        chunk_emitted(*old(chunk), *final(chunk), gen_expr(*e, locals_view(locals@), old(chunk).constants@.len())->Some_0),
    decreases *e, 0int, 1int,
{
    let ghost lv = locals_view(locals@);
    let ghost nc = chunk.constants@.len();
    let ghost c0 = *chunk;
    match e {
        Expr::Instance { class: Ident(name), properties } => {
            proof {
                lemma_gen_instance(*e, lv, nc);
                assert(properties@.subrange(0, properties@.len() as int) =~= properties@);
            }
            let ghost p = gen_props(properties@, lv, nc)->Some_0;
            emit_props(properties, 0, chunk, locals);
            let ghost c1 = *chunk;
            proof {
                lemma_emitted_lens(c0, c1, p);
            }
            let ghost c = gen_ident(name@, lv, nc + p.1.len())->Some_0;
            emit_ident(name, chunk, locals);
            proof {
                lemma_emitted_lens(c1, *chunk, c);
                lemma_join_emitted(c0, c1, *chunk, p, c);
            }
            emit_op_byte(chunk, Opcode::NEW, properties.len() as u8, Ghost(c0), Ghost(join(p, c)));
        },
        _ => vstd::pervasive::unreached(),
    }
}

/// Compiles an expression of one kind.
#[verifier::rlimit(50)]
fn emit_array(e: &Expr, chunk: &mut ChunkMut, locals: &Vec<Local>)
    requires
        e is Array,
        gen_expr(*e, locals_view(locals@), old(chunk).constants@.len()) is Some,
        old(chunk).code_view().len() + gen_expr(*e, locals_view(locals@), old(chunk).constants@.len())->Some_0.0.len()
            <= usize::MAX,
    ensures
        chunk_emitted(*old(chunk), *final(chunk), gen_expr(*e, locals_view(locals@), old(chunk).constants@.len())->Some_0),
    decreases *e, 0int, 1int,
{
    let ghost lv = locals_view(locals@);
    let ghost nc = chunk.constants@.len();
    let ghost c0 = *chunk;
    match e {
        Expr::Array(entries) => {
            proof {
                lemma_gen_array(*e, lv, nc);
                assert(entries@.subrange(0, entries@.len() as int) =~= entries@);
            }
            let ghost a = gen_exprs_rev(entries@, lv, nc)->Some_0;
            emit_exprs_rev(entries, entries.len(), chunk, locals);
            proof {
                lemma_emitted_lens(c0, *chunk, a);
            }
            emit_op_byte(chunk, Opcode::ARRAY, entries.len() as u8, Ghost(c0), Ghost(a));
        },
        _ => vstd::pervasive::unreached(),
    }
}

/// Compiles an expression of one kind.
#[verifier::rlimit(50)]
fn emit_index(e: &Expr, chunk: &mut ChunkMut, locals: &Vec<Local>)
    requires
        e is Index,
        gen_expr(*e, locals_view(locals@), old(chunk).constants@.len()) is Some,
        old(chunk).code_view().len() + gen_expr(*e, locals_view(locals@), old(chunk).constants@.len())->Some_0.0.len()
            <= usize::MAX,
    ensures
        chunk_emitted(*old(chunk), *final(chunk), gen_expr(*e, locals_view(locals@), old(chunk).constants@.len())->Some_0),
    decreases *e, 0int, 1int,
{
    let ghost lv = locals_view(locals@);
    let ghost nc = chunk.constants@.len();
    let ghost c0 = *chunk;
    match e {
        Expr::Index { array, index } => {
            proof {
                lemma_gen_index(*e, lv, nc);
            }
            let ghost a = gen_expr(**array, lv, nc)->Some_0;
            emit_expr(array, chunk, locals);
            let ghost c1 = *chunk;
            proof {
                lemma_emitted_lens(c0, c1, a);
            }
            let ghost i = gen_expr(**index, lv, nc + a.1.len())->Some_0;
            emit_expr(index, chunk, locals);
            proof {
                lemma_emitted_lens(c1, *chunk, i);
                lemma_join_emitted(c0, c1, *chunk, a, i);
            }
            emit_op(chunk, Opcode::INDEX, Ghost(c0), Ghost(join(a, i)));
        },
        _ => vstd::pervasive::unreached(),
    }
}

/// Compiles an expression.
#[verifier::rlimit(50)]
fn emit_expr(e: &Expr, chunk: &mut ChunkMut, locals: &Vec<Local>)
    requires
        gen_expr(*e, locals_view(locals@), old(chunk).constants@.len()) is Some,
        old(chunk).code_view().len() + gen_expr(*e, locals_view(locals@), old(chunk).constants@.len())->Some_0.0.len()
            <= usize::MAX,
    ensures
        chunk_emitted(*old(chunk), *final(chunk), gen_expr(*e, locals_view(locals@), old(chunk).constants@.len())->Some_0),
    decreases *e, 0int, 2int,
{
    let ghost lv = locals_view(locals@);
    let ghost nc = chunk.constants@.len();
    let ghost c0 = *chunk;
    let ghost none: Emitted = (Seq::empty(), Seq::empty());
    proof {
        lemma_emitted_nothing(c0);
    }
    match e {
        Expr::Binary { .. } => emit_binary(e, chunk, locals),
        Expr::Unary { operator, operand } => {
            proof {
                lemma_gen_unary(*e, lv, nc);
            }
            let ghost o = gen_expr(**operand, lv, nc)->Some_0;
            emit_expr(operand, chunk, locals);
            proof {
                lemma_emitted_lens(c0, *chunk, o);
            }
            match operator {
                UnOp::Neg => emit_op(chunk, Opcode::NEGATE, Ghost(c0), Ghost(o)),
                UnOp::Not => emit_op(chunk, Opcode::NOT, Ghost(c0), Ghost(o)),
            }
        },
        Expr::Literal(lit) => {
            proof {
                lemma_gen_literal(*e, lv, nc);
            }
            match lit {
            Lit::Boolean(b) => {
                if *b {
                    emit_op(chunk, Opcode::TRUE, Ghost(c0), Ghost(none));
                } else {
                    emit_op(chunk, Opcode::FALSE, Ghost(c0), Ghost(none));
                }
                assert(then_bytes(none, seq![ob(Opcode::TRUE)]) =~= (seq![ob(Opcode::TRUE)], Seq::<Const>::empty()));
                assert(then_bytes(none, seq![ob(Opcode::FALSE)]) =~= (seq![ob(Opcode::FALSE)], Seq::<Const>::empty()));
            },
            Lit::Integer(i) => emit_const(chunk, Opcode::CONSTANT, Value::Integer(*i), Ghost(Const::Int(*i))),
            Lit::Real(r) => emit_const(chunk, Opcode::CONSTANT, Value::Real(*r), Ghost(Const::Real(*r))),
            Lit::String(st) => emit_const(chunk, Opcode::CONSTANT, Value::Unicode(st.clone()), Ghost(Const::Str(st@))),
            Lit::Unit => {
                emit_op(chunk, Opcode::UNIT, Ghost(c0), Ghost(none));
                assert(then_bytes(none, seq![ob(Opcode::UNIT)]) =~= (seq![ob(Opcode::UNIT)], Seq::<Const>::empty()));
            },
            }
        },
        Expr::Ident(Ident(name)) => {
            proof {
                lemma_gen_ident(*e, lv, nc);
            }
            emit_ident(name, chunk, locals)
        },
        Expr::Call { .. } => emit_call(e, chunk, locals),
        Expr::Instance { .. } => emit_instance(e, chunk, locals),
        Expr::Array(_) => emit_array(e, chunk, locals),
        Expr::Index { .. } => emit_index(e, chunk, locals),
        Expr::Pattern(_) => {
            proof {
                lemma_gen_pattern(*e, lv, nc);
            }
            vstd::pervasive::unreached()
        },
    }
}


/// What a statement compiles to, given the chunk and locals before it.
pub open spec fn stmt_result(s: Stmt, locals: Seq<Local>, scope: i32, chunk: ChunkMut) -> Option<(Emitted, Locals)> {
    gen_stmt(s, locals_view(locals), scope as int, chunk.constants@.len())
}

/// The chunk and locals after compiling: the emission appended and the
/// locals as the result says.
pub open spec fn stmt_done(c0: ChunkMut, c1: ChunkMut, l1: Seq<Local>, r: Option<(Emitted, Locals)>) -> bool {
    &&& chunk_emitted(c0, c1, r->Some_0.0)
    &&& locals_view(l1) == r->Some_0.1
}

/// The locals after popping those of a scope at its end.
fn end_scope_exec(chunk: &mut ChunkMut, locals: &mut Vec<Local>, depth: i32, Ghost(c0): Ghost<ChunkMut>, Ghost(em): Ghost<Emitted>)
    requires
        chunk_emitted(c0, *old(chunk), em),
        end_scope(em, locals_view(old(locals)@), depth as int) is Some,
        c0.code_view().len() + end_scope(em, locals_view(old(locals)@), depth as int)->Some_0.0.0.len() <= usize::MAX,
    ensures
        chunk_emitted(c0, *final(chunk), end_scope(em, locals_view(old(locals)@), depth as int)->Some_0.0),
        locals_view(final(locals)@) == end_scope(em, locals_view(old(locals)@), depth as int)->Some_0.1,
{
    let ghost l0 = locals_view(locals@);
    let ghost total = trailing(l0, depth as int);
    proof {
        lemma_emitted_lens(c0, *chunk, em);
    }
    let mut n: u8 = 0;
    loop
        invariant
            n as nat <= total,
            total <= 255,
            locals_view(locals@) == l0.subrange(0, l0.len() - n),
            l0.len() >= n,
            trailing(l0, depth as int) == total,
            trailing(locals_view(locals@), depth as int) + n == total,
        ensures
            n as nat == total,
            locals_view(locals@) == l0.subrange(0, l0.len() - n),
        decreases locals@.len(),
    {
        let ghost before = locals_view(locals@);
        match locals.pop() {
            Some(local) => {
                if local.depth >= depth {
                    proof {
                        assert(before.last().1 >= depth);
                        assert(locals_view(locals@) =~= before.drop_last());
                        assert(l0.subrange(0, l0.len() - n).drop_last() =~= l0.subrange(0, l0.len() - (n + 1)));
                    }
                    n = n + 1;
                } else {
                    locals.push(local);
                    proof {
                        assert(locals_view(locals@) =~= before);
                    }
                    break;
                }
            },
            None => {
                proof {
                    assert(before.len() == 0);
                }
                break;
            },
        }
    }
    let ghost c1 = *chunk;
    if n == 1 {
        chunk.write(Opcode::POP.to_u8());
        proof {
            assert(chunk.code_view() =~= c1.code_view() + seq![ob(Opcode::POP)]);
            lemma_then_bytes(c0, c1, *chunk, em, seq![ob(Opcode::POP)]);
        }
    } else if n > 1 {
        chunk.write_pair(Opcode::POP_N.to_u8(), n);
        proof {
            assert(chunk.code_view() =~= c1.code_view() + seq![ob(Opcode::POP_N), n]);
            lemma_then_bytes(c0, c1, *chunk, em, seq![ob(Opcode::POP_N), n]);
        }
    } else {
        proof {
            assert(chunk.code_view() =~= c1.code_view() + Seq::<u8>::empty());
            lemma_then_bytes(c0, c1, *chunk, em, Seq::empty());
        }
    }
}

/// What statements compile to, given the chunk and locals before them.
pub open spec fn stmts_result(ss: Seq<Stmt>, locals: Seq<Local>, scope: i32, chunk: ChunkMut) -> Option<(Emitted, Locals)> {
    gen_stmts(ss, locals_view(locals), scope as int, chunk.constants@.len())
}

/// Compiling succeeds, and its code fits after the chunk's code.
pub open spec fn fits(chunk: ChunkMut, r: Option<(Emitted, Locals)>) -> bool {
    &&& r is Some
    &&& chunk.code_view().len() + r->Some_0.0.0.len() <= usize::MAX
}

/// The workable function is the compiled function.
pub open spec fn function_mut_is(f: FunctionMut, fc: FuncConst) -> bool {
    &&& f.name@ == fc.name
    &&& f.arity == fc.arity
    &&& f.chunk.code_view() == fc.code
    &&& consts_emitted(Seq::empty(), f.chunk.constants@, fc.consts)
}

/// The properties of a class are the map: each name once, with its type.
pub open spec fn props_are(acc: Seq<(String, String)>, m: Map<Seq<char>, Seq<char>>) -> bool {
    &&& crate::objects::unique_keys(acc)
    &&& forall|k: Seq<char>| #[trigger] m.contains_key(k) <==> exists|i: int| 0 <= i < acc.len() && acc[i].0@ == k
    &&& forall|i: int| 0 <= i < acc.len() ==> m[(#[trigger] acc[i]).0@] == acc[i].1@
}

/// The methods of a class are the compiled functions: each name once.
pub open spec fn methods_are(acc: Seq<(String, SpecFunction)>, ms: Map<Seq<char>, FuncConst>) -> bool {
    &&& crate::objects::unique_keys(acc)
    &&& forall|k: Seq<char>| #[trigger] ms.contains_key(k) <==> exists|i: int| 0 <= i < acc.len() && acc[i].0@ == k
    &&& forall|i: int| 0 <= i < acc.len() ==> function_is(#[trigger] acc[i].1, ms[acc[i].0@])
}

/// The list after setting a name: its entry replaced if the name was in
/// the list, else appended.
pub open spec fn entry_set<V>(before: Seq<(String, V)>, after: Seq<(String, V)>, key: String, value: V) -> bool {
    ||| exists|i: int| 0 <= i < before.len() && before[i].0@ == key@ && after == before.update(i, (key, value))
    ||| (forall|i: int| 0 <= i < before.len() ==> before[i].0@ != key@) && after == before.push((key, value))
}

/// Sets the entry of a name in a list of named values.
fn set_entry<V>(entries: &mut Vec<(String, V)>, key: String, value: V)
    requires
        crate::objects::unique_keys(old(entries)@),
    ensures
        crate::objects::unique_keys(final(entries)@),
        entry_set(old(entries)@, final(entries)@, key, value),
{
    let mut i: usize = 0;
    while i < entries.len()
        invariant
            i <= entries@.len(),
            entries@ == old(entries)@,
            crate::objects::unique_keys(entries@),
            forall|j: int| 0 <= j < i ==> entries@[j].0@ != key@,
        decreases entries@.len() - i,
    {
        if entries[i].0 == key {
            let ghost before = entries@;
            entries.set(i, (key, value));
            proof {
                assert(crate::objects::unique_keys(entries@)) by {
                    assert forall|a: int, b: int| 0 <= a < b < entries@.len() implies entries@[a].0@ != entries@[b].0@ by {
                        assert(before[a].0@ != before[b].0@);
                    }
                }
            }
            return;
        }
        i = i + 1;
    }
    entries.push((key, value));
    proof {
        let before = old(entries)@;
        assert forall|a: int, b: int| 0 <= a < b < entries@.len() implies entries@[a].0@ != entries@[b].0@ by {
            if b < before.len() {
                assert(before[a].0@ != before[b].0@);
            }
        }
    }
}

/// Setting a property keeps the list and the map in step.
proof fn lemma_props_set(before: Seq<(String, String)>, after: Seq<(String, String)>, m: Map<Seq<char>, Seq<char>>, key: String, value: String)
    requires
        props_are(before, m),
        crate::objects::unique_keys(after),
        entry_set(before, after, key, value),
    ensures
        props_are(after, m.insert(key@, value@)),
{
    let m2 = m.insert(key@, value@);
    if exists|i: int| 0 <= i < before.len() && before[i].0@ == key@ && after == before.update(i, (key, value)) {
        let i = choose|i: int| 0 <= i < before.len() && before[i].0@ == key@ && after == before.update(i, (key, value));
        assert forall|k: Seq<char>| #[trigger] m2.contains_key(k) <==> exists|j: int| 0 <= j < after.len() && after[j].0@ == k by {
            if m.contains_key(k) {
                let j = choose|j: int| 0 <= j < before.len() && before[j].0@ == k;
                assert(after[j].0@ == k);
            }
            if k == key@ {
                assert(after[i].0@ == k);
            }
            if exists|j: int| 0 <= j < after.len() && after[j].0@ == k {
                let j = choose|j: int| 0 <= j < after.len() && after[j].0@ == k;
                if j != i {
                    assert(before[j].0@ == k);
                }
            }
        }
        assert forall|j: int| 0 <= j < after.len() implies m2[(#[trigger] after[j]).0@] == after[j].1@ by {
            if j != i {
                assert(before[j].0@ != before[i].0@);
                assert(m[before[j].0@] == before[j].1@);
            }
        }
    } else {
        assert forall|k: Seq<char>| #[trigger] m2.contains_key(k) <==> exists|j: int| 0 <= j < after.len() && after[j].0@ == k by {
            if m.contains_key(k) {
                let j = choose|j: int| 0 <= j < before.len() && before[j].0@ == k;
                assert(after[j].0@ == k);
            }
            if k == key@ {
                assert(after[before.len() as int].0@ == k);
            }
            if exists|j: int| 0 <= j < after.len() && after[j].0@ == k {
                let j = choose|j: int| 0 <= j < after.len() && after[j].0@ == k;
                if j < before.len() {
                    assert(before[j].0@ == k);
                }
            }
        }
        assert forall|j: int| 0 <= j < after.len() implies m2[(#[trigger] after[j]).0@] == after[j].1@ by {
            if j < before.len() {
                assert(before[j].0@ != key@);
                assert(m[before[j].0@] == before[j].1@);
            }
        }
    }
}

/// Setting a method keeps the list and the map in step.
proof fn lemma_methods_set(
    before: Seq<(String, SpecFunction)>,
    after: Seq<(String, SpecFunction)>,
    ms: Map<Seq<char>, FuncConst>,
    key: String,
    value: SpecFunction,
    fc: FuncConst,
)
    requires
        methods_are(before, ms),
        crate::objects::unique_keys(after),
        entry_set(before, after, key, value),
        function_is(value, fc),
    ensures
        methods_are(after, ms.insert(key@, fc)),
{
    let m2 = ms.insert(key@, fc);
    if exists|i: int| 0 <= i < before.len() && before[i].0@ == key@ && after == before.update(i, (key, value)) {
        let i = choose|i: int| 0 <= i < before.len() && before[i].0@ == key@ && after == before.update(i, (key, value));
        assert forall|k: Seq<char>| #[trigger] m2.contains_key(k) <==> exists|j: int| 0 <= j < after.len() && after[j].0@ == k by {
            if ms.contains_key(k) {
                let j = choose|j: int| 0 <= j < before.len() && before[j].0@ == k;
                assert(after[j].0@ == k);
            }
            if k == key@ {
                assert(after[i].0@ == k);
            }
            if exists|j: int| 0 <= j < after.len() && after[j].0@ == k {
                let j = choose|j: int| 0 <= j < after.len() && after[j].0@ == k;
                if j != i {
                    assert(before[j].0@ == k);
                }
            }
        }
        assert forall|j: int| 0 <= j < after.len() implies function_is(#[trigger] after[j].1, m2[after[j].0@]) by {
            if j != i {
                assert(before[j].0@ != before[i].0@);
                assert(function_is(before[j].1, ms[before[j].0@]));
            }
        }
    } else {
        assert forall|k: Seq<char>| #[trigger] m2.contains_key(k) <==> exists|j: int| 0 <= j < after.len() && after[j].0@ == k by {
            if ms.contains_key(k) {
                let j = choose|j: int| 0 <= j < before.len() && before[j].0@ == k;
                assert(after[j].0@ == k);
            }
            if k == key@ {
                assert(after[before.len() as int].0@ == k);
            }
            if exists|j: int| 0 <= j < after.len() && after[j].0@ == k {
                let j = choose|j: int| 0 <= j < after.len() && after[j].0@ == k;
                if j < before.len() {
                    assert(before[j].0@ == k);
                }
            }
        }
        assert forall|j: int| 0 <= j < after.len() implies function_is(#[trigger] after[j].1, m2[after[j].0@]) by {
            if j < before.len() {
                assert(before[j].0@ != key@);
                assert(function_is(before[j].1, ms[before[j].0@]));
            }
        }
    }
}

/// The properties of a class declaration, each name once, a later pair
/// taking the place of an earlier one of the same name.
fn collect_props(properties: &Vec<(Ident, Ident)>) -> (r: Vec<(String, String)>)
    ensures
        props_are(r@, ident_pairs_map(properties@)),
{
    let mut r: Vec<(String, String)> = Vec::new();
    let mut k: usize = 0;
    proof {
        assert(properties@.subrange(0, 0) =~= Seq::<(Ident, Ident)>::empty());
    }
    while k < properties.len()
        invariant
            k <= properties@.len(),
            props_are(r@, ident_pairs_map(properties@.subrange(0, k as int))),
        decreases properties@.len() - k,
    {
        let ghost before = r@;
        let ghost m = ident_pairs_map(properties@.subrange(0, k as int));
        let key = properties[k].0.0.clone();
        let value = properties[k].1.0.clone();
        set_entry(&mut r, key, value);
        proof {
            lemma_props_set(before, r@, m, key, value);
            let next = properties@.subrange(0, k + 1);
            assert(next.drop_last() =~= properties@.subrange(0, k as int));
            assert(next.last() == properties@[k as int]);
        }
        k = k + 1;
    }
    proof {
        assert(properties@.subrange(0, properties@.len() as int) =~= properties@);
    }
    r
}

/// The code after an emission replaced by other code, the constants kept.
proof fn lemma_emitted_code(c0: ChunkMut, c1: ChunkMut, c2: ChunkMut, em: Emitted, code: Seq<u8>)
    requires
        chunk_emitted(c0, c1, em),
        c2.constants@ == c1.constants@,
        c2.code_view() == c0.code_view() + code,
    ensures
        chunk_emitted(c0, c2, (code, em.1)),
{
    reveal(chunk_emitted);
}

/// Two placeholder bytes overwritten.
proof fn lemma_patch(pre: Seq<u8>, jb: Seq<u8>, post: Seq<u8>)
    requires
        jb.len() == 2,
    ensures
        (pre + seq![0u8, 0u8] + post).update(pre.len() as int, jb[0]).update(pre.len() + 1int, jb[1]) == pre + jb + post,
{
    assert((pre + seq![0u8, 0u8] + post).update(pre.len() as int, jb[0]).update(pre.len() + 1int, jb[1]) =~= pre + jb + post);
}

/// The two bytes of a jump offset, high first.
fn jump_pair(n: usize) -> (r: (u8, u8))
    ensures
        seq![r.0, r.1] == jump_bytes(n as nat),
{
    (((n % 65536) / 256) as u8, (n % 256) as u8)
}

/// Overwrites the two bytes at `pos` with the distance from just after
/// them to the end of the code.
fn patch_jump(chunk: &mut ChunkMut, pos: usize)
    requires
        pos + 2 <= old(chunk).code_view().len(),
    ensures
        final(chunk).code_view() == old(chunk).code_view().update(
            pos as int,
            jump_bytes((old(chunk).code_view().len() - pos - 2) as nat)[0],
        ).update(pos + 1, jump_bytes((old(chunk).code_view().len() - pos - 2) as nat)[1]),
        final(chunk).constants == old(chunk).constants,
{
    let d: usize = bytes_mut_len(&chunk.code) - pos - 2;
    let (hi, lo) = jump_pair(d);
    assert(seq![hi, lo][0] == hi && seq![hi, lo][1] == lo);
    bytes_mut_set(&mut chunk.code, pos, hi);
    bytes_mut_set(&mut chunk.code, pos + 1, lo);
}

/// Compiles a statement.
fn emit_stmt(s: &Stmt, chunk: &mut ChunkMut, locals: &mut Vec<Local>, scope: i32)
    requires
        fits(*old(chunk), stmt_result(*s, old(locals)@, scope, *old(chunk))),
    ensures
        stmt_done(*old(chunk), *final(chunk), final(locals)@, stmt_result(*s, old(locals)@, scope, *old(chunk))),
    decreases *s, 0int, 2int,
{
    let ghost lv = locals_view(locals@);
    let ghost nc = chunk.constants@.len();
    match s {
        Stmt::Import { package: Ident(p) } => {
            proof {
                lemma_stmt_import(*s, lv, scope as int, nc);
            }
            emit_const(chunk, Opcode::IMPORT, Value::Unicode(p.clone()), Ghost(Const::Str(p@)));
        },
        Stmt::DeclareClass { .. } => emit_declare_class(s, chunk, locals, scope),
        Stmt::Assign(..) => emit_simple(s, chunk, locals, scope),
        Stmt::LetAssign(..) => emit_simple(s, chunk, locals, scope),
        Stmt::Expr(_) => emit_simple(s, chunk, locals, scope),
        Stmt::Return(_) => emit_simple(s, chunk, locals, scope),
        Stmt::Block(block) => {
            proof {
                lemma_stmt_block(*s, lv, scope as int, nc);
            }
            emit_block(block, chunk, locals, scope);
        },
        Stmt::For { .. } => emit_for(s, chunk, locals, scope),
        Stmt::While { .. } => emit_while(s, chunk, locals, scope),
        Stmt::If { .. } => emit_if(s, chunk, locals, scope),
        Stmt::Property { .. } => {
            proof {
                lemma_stmt_property(*s, lv, scope as int, nc);
            }
            vstd::pervasive::unreached()
        },
        Stmt::DeclareFunc { .. } => emit_declare_func(s, chunk, locals, scope),
        Stmt::On { .. } => emit_on(s, chunk, locals, scope),
        Stmt::Parallel { .. } => emit_parallel(s, chunk, locals, scope),
    }
}

/// Compiles an assignment, a declaration, an expression statement or a
/// return.
#[verifier::rlimit(50)]
fn emit_simple(s: &Stmt, chunk: &mut ChunkMut, locals: &mut Vec<Local>, scope: i32)
    requires
        s is Assign || s is LetAssign || s is Expr || s is Return,
        fits(*old(chunk), stmt_result(*s, old(locals)@, scope, *old(chunk))),
    ensures
        stmt_done(*old(chunk), *final(chunk), final(locals)@, stmt_result(*s, old(locals)@, scope, *old(chunk))),
    decreases *s, 0int, 1int,
{
    let ghost lv = locals_view(locals@);
    let ghost nc = chunk.constants@.len();
    let ghost c0 = *chunk;
    match s {
        Stmt::Assign(Ident(name), value) => {
            proof {
                lemma_stmt_assign(*s, lv, scope as int, nc);
            }
            let ghost v = gen_expr(*value, lv, nc)->Some_0;
            emit_expr(value, chunk, locals);
            let ghost c1 = *chunk;
            proof {
                lemma_emitted_lens(c0, c1, v);
            }
            match find_local(locals, name) {
                Some(i) => {
                    emit_op_byte(chunk, Opcode::SET_LOCAL, i as u8, Ghost(c0), Ghost(v));
                    proof {
                        let p = local_position(lv, name@)->Some_0;
                        assert(seq![ob(Opcode::SET_LOCAL), i as u8] =~= seq![ob(Opcode::SET_LOCAL), p as u8]);
                    }
                },
                None => {
                    emit_const(chunk, Opcode::SET_GLOBAL, Value::Unicode(name.clone()), Ghost(Const::Str(name@)));
                    proof {
                        let g = with_const(Opcode::SET_GLOBAL, Const::Str(name@), nc + v.1.len())->Some_0;
                        lemma_join_emitted(c0, c1, *chunk, v, g);
                    }
                },
            }
        },
        Stmt::LetAssign(Ident(name), value) => {
            proof {
                lemma_stmt_let_assign(*s, lv, scope as int, nc);
            }
            let ghost v = gen_expr(*value, lv, nc)->Some_0;
            emit_expr(value, chunk, locals);
            let ghost c1 = *chunk;
            proof {
                lemma_emitted_lens(c0, c1, v);
            }
            if scope > 0 {
                locals.push(Local { name: name.clone(), depth: scope });
                proof {
                    assert(locals_view(locals@) =~= lv.push((name@, scope as int)));
                }
            } else {
                emit_const(chunk, Opcode::DEFINE_GLOBAL, Value::Unicode(name.clone()), Ghost(Const::Str(name@)));
                proof {
                    let g = with_const(Opcode::DEFINE_GLOBAL, Const::Str(name@), nc + v.1.len())->Some_0;
                    lemma_join_emitted(c0, c1, *chunk, v, g);
                }
            }
        },
        Stmt::Expr(e) => {
            proof {
                lemma_stmt_expr(*s, lv, scope as int, nc);
            }
            let ghost v = gen_expr(*e, lv, nc)->Some_0;
            emit_expr(e, chunk, locals);
            proof {
                lemma_emitted_lens(c0, *chunk, v);
            }
            emit_op(chunk, Opcode::POP, Ghost(c0), Ghost(v));
        },
        Stmt::Return(value) => {
            proof {
                lemma_stmt_return(*s, lv, scope as int, nc);
            }
            match value {
                Some(e) => {
                    let ghost v = gen_expr(*e, lv, nc)->Some_0;
                    emit_expr(e, chunk, locals);
                    proof {
                        lemma_emitted_lens(c0, *chunk, v);
                    }
                    emit_op(chunk, Opcode::RETURN, Ghost(c0), Ghost(v));
                },
                None => {
                    let ghost none: Emitted = (Seq::empty(), Seq::empty());
                    proof {
                        lemma_emitted_nothing(c0);
                    }
                    emit_op(chunk, Opcode::UNIT, Ghost(c0), Ghost(none));
                    proof {
                        lemma_emitted_lens(c0, *chunk, then_bytes(none, seq![ob(Opcode::UNIT)]));
                    }
                    emit_op(chunk, Opcode::RETURN, Ghost(c0), Ghost(then_bytes(none, seq![ob(Opcode::UNIT)])));
                    assert(then_bytes(then_bytes(none, seq![ob(Opcode::UNIT)]), seq![ob(Opcode::RETURN)]) =~= (
                        seq![ob(Opcode::UNIT), ob(Opcode::RETURN)],
                        Seq::<Const>::empty(),
                    ));
                },
            }
        },
        _ => vstd::pervasive::unreached(),
    }
}

/// Compiles statements one after the other.
fn emit_stmts(ss: &Vec<Stmt>, start: usize, chunk: &mut ChunkMut, locals: &mut Vec<Local>, scope: i32)
    requires
        start <= ss@.len(),
        fits(*old(chunk), stmts_result(ss@.subrange(start as int, ss@.len() as int), old(locals)@, scope, *old(chunk))),
    ensures
        stmt_done(
            *old(chunk),
            *final(chunk),
            final(locals)@,
            stmts_result(ss@.subrange(start as int, ss@.len() as int), old(locals)@, scope, *old(chunk)),
        ),
    decreases ss@, 1int, ss@.len() - start,
{
    let ghost lv = locals_view(locals@);
    let ghost nc = chunk.constants@.len();
    if start >= ss.len() {
        proof {
            lemma_emitted_nothing(*chunk);
            lemma_gen_stmts_empty(lv, scope as int, nc);
            assert(ss@.subrange(start as int, ss@.len() as int) =~= Seq::<Stmt>::empty());
        }
        return;
    }
    let ghost sub = ss@.subrange(start as int, ss@.len() as int);
    assert(sub[0] == ss@[start as int]);
    assert(sub.drop_first() =~= ss@.subrange(start + 1, ss@.len() as int));
    proof {
        lemma_gen_stmts(sub, lv, scope as int, nc);
    }
    let ghost a = gen_stmt(ss@[start as int], lv, scope as int, nc)->Some_0;
    let ghost mid = *chunk;
    emit_stmt(&ss[start], chunk, locals, scope);
    let ghost mid2 = *chunk;
    proof {
        lemma_emitted_lens(mid, mid2, a.0);
    }
    emit_stmts(ss, start + 1, chunk, locals, scope);
    proof {
        let b = gen_stmts(ss@.subrange(start + 1, ss@.len() as int), a.1, scope as int, nc + a.0.1.len())->Some_0;
        lemma_join_emitted(mid, mid2, *chunk, a.0, b.0);
    }
}

/// Compiles a block: its statements one scope deeper, then the drop of
/// the locals it declared.
fn emit_block(ss: &Vec<Stmt>, chunk: &mut ChunkMut, locals: &mut Vec<Local>, scope: i32)
    requires
        fits(*old(chunk), gen_block(ss@, locals_view(old(locals)@), scope as int, old(chunk).constants@.len())),
    ensures
        stmt_done(
            *old(chunk),
            *final(chunk),
            final(locals)@,
            gen_block(ss@, locals_view(old(locals)@), scope as int, old(chunk).constants@.len()),
        ),
    decreases ss@, 2int, 0int,
{
    let ghost lv = locals_view(locals@);
    let ghost nc = chunk.constants@.len();
    let ghost c0 = *chunk;
    proof {
        lemma_gen_block(ss@, lv, scope as int, nc);
        assert(ss@.subrange(0, ss@.len() as int) =~= ss@);
    }
    let inner: i32 = scope + 1;
    let ghost b = gen_stmts(ss@, lv, inner as int, nc)->Some_0;
    emit_stmts(ss, 0, chunk, locals, inner);
    proof {
        lemma_emitted_lens(c0, *chunk, b.0);
    }
    end_scope_exec(chunk, locals, inner, Ghost(c0), Ghost(b.0));
}

/// Compiles a `for` loop: the initializer, the condition, a jump past the
/// loop when it is false, the body and the increment, and a jump back to
/// the condition.
#[verifier::rlimit(100)]
fn emit_for(s: &Stmt, chunk: &mut ChunkMut, locals: &mut Vec<Local>, scope: i32)
    requires
        s is For,
        fits(*old(chunk), stmt_result(*s, old(locals)@, scope, *old(chunk))),
    ensures
        stmt_done(*old(chunk), *final(chunk), final(locals)@, stmt_result(*s, old(locals)@, scope, *old(chunk))),
    decreases *s, 0int, 1int,
{
    let ghost lv = locals_view(locals@);
    let ghost nc = chunk.constants@.len();
    let ghost c0 = *chunk;
    match s {
        Stmt::For { initializer, condition, increment, consequent } => {
            proof {
                lemma_stmt_for(*s, lv, scope as int, nc);
            }
            let inner: i32 = scope + 1;
            let ghost ir = gen_stmt(**initializer, lv, inner as int, nc)->Some_0;
            let ghost i = ir.0;
            emit_stmt(initializer, chunk, locals, inner);
            let ghost c1 = *chunk;
            proof {
                lemma_emitted_lens(c0, c1, i);
            }
            let loop_start = bytes_mut_len(&chunk.code);
            let ghost c = gen_expr(*condition, ir.1, nc + i.1.len())->Some_0;
            emit_expr(condition, chunk, locals);
            let ghost c2 = *chunk;
            proof {
                lemma_emitted_lens(c1, c2, c);
                lemma_join_emitted(c0, c1, c2, i, c);
            }
            chunk.write(Opcode::JUMP_IF_FALSE.to_u8());
            let plh_pos = bytes_mut_len(&chunk.code);
            chunk.write_pair(0, 0);
            chunk.write(Opcode::POP.to_u8());
            let ghost c3 = *chunk;
            let ghost head = seq![ob(Opcode::JUMP_IF_FALSE), 0u8, 0u8, ob(Opcode::POP)];
            let ghost e3 = then_bytes(join(i, c), head);
            proof {
                assert(c3.code_view() =~= c2.code_view() + head);
                lemma_then_bytes(c0, c2, c3, join(i, c), head);
                lemma_emitted_lens(c0, c3, e3);
                assert(consequent@.subrange(0, consequent@.len() as int) =~= consequent@);
            }
            let ghost br = gen_stmts(consequent@, ir.1, inner as int, nc + i.1.len() + c.1.len())->Some_0;
            let ghost b = br.0;
            emit_stmts(consequent, 0, chunk, locals, inner);
            let ghost c4 = *chunk;
            proof {
                lemma_emitted_lens(c3, c4, b);
                lemma_join_emitted(c0, c3, c4, e3, b);
            }
            let ghost incr = gen_stmt(**increment, br.1, inner as int, nc + i.1.len() + c.1.len() + b.1.len())->Some_0;
            let ghost inc = incr.0;
            emit_stmt(increment, chunk, locals, inner);
            let ghost c5 = *chunk;
            let ghost e5 = join(join(e3, b), inc);
            proof {
                lemma_emitted_lens(c4, c5, inc);
                lemma_join_emitted(c0, c4, c5, join(e3, b), inc);
            }
            chunk.write(Opcode::JUMP_BACK.to_u8());
            let jump_back: usize = bytes_mut_len(&chunk.code) - loop_start + 2;
            let (hi, lo) = jump_pair(jump_back);
            chunk.write_pair(hi, lo);
            let ghost c6 = *chunk;
            let ghost jb1 = jump_bytes(b.0.len() + inc.0.len() + 4);
            let ghost jb2 = jump_bytes(c.0.len() + b.0.len() + inc.0.len() + 7);
            let ghost pre = c2.code_view() + seq![ob(Opcode::JUMP_IF_FALSE)];
            let ghost post = seq![ob(Opcode::POP)] + b.0 + inc.0 + seq![ob(Opcode::JUMP_BACK)] + jb2;
            proof {
                assert(jump_back == c.0.len() + b.0.len() + inc.0.len() + 7);
                assert(c6.code_view() =~= pre + seq![0u8, 0u8] + post);
            }
            patch_jump(chunk, plh_pos);
            proof {
                lemma_patch(pre, jb1, post);
            }
            chunk.write(Opcode::POP.to_u8());
            proof {
                let code = i.0 + c.0 + seq![ob(Opcode::JUMP_IF_FALSE)] + jb1 + seq![ob(Opcode::POP)] + b.0 + inc.0 + seq![
                    ob(Opcode::JUMP_BACK),
                ] + jb2 + seq![ob(Opcode::POP)];
                assert(chunk.code_view() =~= c0.code_view() + code);
                lemma_emitted_code(c0, c5, *chunk, e5, code);
                assert(e5.1 =~= i.1 + c.1 + b.1 + inc.1);
            }
        },
        _ => vstd::pervasive::unreached(),
    }
}

/// Compiles a `while` loop: the condition, a jump past the loop when it is
/// false, the body as a block, and a jump back to the condition.
#[verifier::rlimit(100)]
fn emit_while(s: &Stmt, chunk: &mut ChunkMut, locals: &mut Vec<Local>, scope: i32)
    requires
        s is While,
        fits(*old(chunk), stmt_result(*s, old(locals)@, scope, *old(chunk))),
    ensures
        stmt_done(*old(chunk), *final(chunk), final(locals)@, stmt_result(*s, old(locals)@, scope, *old(chunk))),
    decreases *s, 0int, 1int,
{
    let ghost lv = locals_view(locals@);
    let ghost nc = chunk.constants@.len();
    let ghost c0 = *chunk;
    match s {
        Stmt::While { condition, consequent } => {
            proof {
                lemma_stmt_while(*s, lv, scope as int, nc);
            }
            let loop_start = bytes_mut_len(&chunk.code);
            let ghost c = gen_expr(*condition, lv, nc)->Some_0;
            emit_expr(condition, chunk, locals);
            let ghost c2 = *chunk;
            proof {
                lemma_emitted_lens(c0, c2, c);
            }
            chunk.write(Opcode::JUMP_IF_FALSE.to_u8());
            let plh_pos = bytes_mut_len(&chunk.code);
            chunk.write_pair(0, 0);
            chunk.write(Opcode::POP.to_u8());
            let ghost c3 = *chunk;
            let ghost head = seq![ob(Opcode::JUMP_IF_FALSE), 0u8, 0u8, ob(Opcode::POP)];
            let ghost e3 = then_bytes(c, head);
            proof {
                assert(c3.code_view() =~= c2.code_view() + head);
                lemma_then_bytes(c0, c2, c3, c, head);
                lemma_emitted_lens(c0, c3, e3);
            }
            let ghost br = gen_block(consequent@, lv, scope as int, nc + c.1.len())->Some_0;
            let ghost b = br.0;
            emit_block(consequent, chunk, locals, scope);
            let ghost c4 = *chunk;
            let ghost e4 = join(e3, b);
            proof {
                lemma_emitted_lens(c3, c4, b);
                lemma_join_emitted(c0, c3, c4, e3, b);
            }
            chunk.write(Opcode::JUMP_BACK.to_u8());
            let jump_back: usize = bytes_mut_len(&chunk.code) - loop_start + 2;
            let (hi, lo) = jump_pair(jump_back);
            chunk.write_pair(hi, lo);
            let ghost c6 = *chunk;
            let ghost jb1 = jump_bytes(b.0.len() + 4);
            let ghost jb2 = jump_bytes(c.0.len() + b.0.len() + 7);
            let ghost pre = c2.code_view() + seq![ob(Opcode::JUMP_IF_FALSE)];
            let ghost post = seq![ob(Opcode::POP)] + b.0 + seq![ob(Opcode::JUMP_BACK)] + jb2;
            proof {
                assert(jump_back == c.0.len() + b.0.len() + 7);
                assert(c6.code_view() =~= pre + seq![0u8, 0u8] + post);
            }
            patch_jump(chunk, plh_pos);
            proof {
                lemma_patch(pre, jb1, post);
            }
            chunk.write(Opcode::POP.to_u8());
            proof {
                let code = c.0 + seq![ob(Opcode::JUMP_IF_FALSE)] + jb1 + seq![ob(Opcode::POP)] + b.0 + seq![ob(Opcode::JUMP_BACK)]
                    + jb2 + seq![ob(Opcode::POP)];
                assert(chunk.code_view() =~= c0.code_view() + code);
                lemma_emitted_code(c0, c4, *chunk, e4, code);
                assert(e4.1 =~= c.1 + b.1);
            }
        },
        _ => vstd::pervasive::unreached(),
    }
}

/// What an `if` statement compiles to, part by part.
proof fn lemma_if_result(s: Stmt, lv: Locals, scope: int, nc: nat)
    requires
        s is If,
        gen_stmt(s, lv, scope, nc) is Some,
    ensures
        ({
            let c = gen_expr(s->If_condition, lv, nc)->Some_0;
            let tr = gen_block(s->If_consequent@, lv, scope, nc + c.1.len())->Some_0;
            let t = tr.0;
            let fr = match s->If_alternative {
                Some(alt) => gen_block(alt@, tr.1, scope, nc + c.1.len() + t.1.len())->Some_0,
                None => ((Seq::<u8>::empty(), Seq::<Const>::empty()), tr.1),
            };
            let f = fr.0;
            &&& gen_expr(s->If_condition, lv, nc) is Some
            &&& gen_block(s->If_consequent@, lv, scope, nc + c.1.len()) is Some
            &&& (s->If_alternative matches Some(alt) ==> gen_block(alt@, tr.1, scope, nc + c.1.len() + t.1.len()) is Some)
            &&& gen_stmt(s, lv, scope, nc) == Some(
                (
                    (c.0 + seq![ob(Opcode::JUMP_IF_FALSE)] + jump_bytes(t.0.len() + 4) + seq![ob(Opcode::POP)] + t.0 + seq![
                        ob(Opcode::JUMP),
                    ] + jump_bytes(f.0.len() + 1) + seq![ob(Opcode::POP)] + f.0, c.1 + t.1 + f.1),
                    fr.1,
                ),
            )
        }),
{
    lemma_stmt_if(s, lv, scope, nc);
}

/// The code of an `if` statement up to its alternative.
pub open spec fn if_then_code(c: Seq<u8>, t: Seq<u8>) -> Seq<u8> {
    c + seq![ob(Opcode::JUMP_IF_FALSE)] + jump_bytes(t.len() + 4) + seq![ob(Opcode::POP)] + t + seq![ob(Opcode::JUMP)]
}

/// Compiles the condition and consequent of an `if` statement, with the
/// jump past the alternative left to fill in; returns the position of the
/// bytes to fill.
#[verifier::rlimit(100)]
fn emit_if_then(s: &Stmt, chunk: &mut ChunkMut, locals: &mut Vec<Local>, scope: i32) -> (else_pos: usize)
    requires
        s is If,
        gen_expr(s->If_condition, locals_view(old(locals)@), old(chunk).constants@.len()) is Some,
        gen_block(
            s->If_consequent@,
            locals_view(old(locals)@),
            scope as int,
            old(chunk).constants@.len() + gen_expr(s->If_condition, locals_view(old(locals)@), old(chunk).constants@.len())->Some_0.1.len(),
        ) is Some,
        old(chunk).code_view().len() + gen_expr(s->If_condition, locals_view(old(locals)@), old(chunk).constants@.len())->Some_0.0.len()
            + gen_block(
            s->If_consequent@,
            locals_view(old(locals)@),
            scope as int,
            old(chunk).constants@.len() + gen_expr(s->If_condition, locals_view(old(locals)@), old(chunk).constants@.len())->Some_0.1.len(),
        )->Some_0.0.0.len() + 8 <= usize::MAX,
    ensures
        ({
            let c = gen_expr(s->If_condition, locals_view(old(locals)@), old(chunk).constants@.len())->Some_0;
            let t = gen_block(s->If_consequent@, locals_view(old(locals)@), scope as int, old(chunk).constants@.len() + c.1.len())->Some_0;
            &&& chunk_emitted(*old(chunk), *final(chunk), (if_then_code(c.0, t.0.0) + seq![0u8, 0u8, ob(Opcode::POP)], c.1 + t.0.1))
            &&& locals_view(final(locals)@) == t.1
            &&& else_pos == old(chunk).code_view().len() + if_then_code(c.0, t.0.0).len()
        }),
    decreases *s, 0int, 0int,
{
    let ghost lv = locals_view(locals@);
    let ghost nc = chunk.constants@.len();
    let ghost c0 = *chunk;
    match s {
        Stmt::If { condition, consequent, alternative } => {
            let ghost c = gen_expr(*condition, lv, nc)->Some_0;
            emit_expr(condition, chunk, locals);
            let ghost c1 = *chunk;
            proof {
                lemma_emitted_lens(c0, c1, c);
            }
            chunk.write(Opcode::JUMP_IF_FALSE.to_u8());
            let plh_pos = bytes_mut_len(&chunk.code);
            chunk.write_pair(0, 0);
            chunk.write(Opcode::POP.to_u8());
            let ghost c2 = *chunk;
            let ghost head = seq![ob(Opcode::JUMP_IF_FALSE), 0u8, 0u8, ob(Opcode::POP)];
            let ghost e2 = then_bytes(c, head);
            proof {
                assert(c2.code_view() =~= c1.code_view() + head);
                lemma_then_bytes(c0, c1, c2, c, head);
                lemma_emitted_lens(c0, c2, e2);
            }
            let ghost tr = gen_block(consequent@, lv, scope as int, nc + c.1.len())->Some_0;
            let ghost t = tr.0;
            emit_block(consequent, chunk, locals, scope);
            let ghost c3 = *chunk;
            let ghost e3 = join(e2, t);
            proof {
                lemma_emitted_lens(c2, c3, t);
                lemma_join_emitted(c0, c2, c3, e2, t);
            }
            chunk.write(Opcode::JUMP.to_u8());
            let else_pos = bytes_mut_len(&chunk.code);
            chunk.write_pair(0, 0);
            let ghost c4 = *chunk;
            let ghost jb1 = jump_bytes(t.0.len() + 4);
            let ghost pre1 = c1.code_view() + seq![ob(Opcode::JUMP_IF_FALSE)];
            let ghost post1 = seq![ob(Opcode::POP)] + t.0 + seq![ob(Opcode::JUMP), 0u8, 0u8];
            proof {
                assert(c4.code_view() =~= pre1 + seq![0u8, 0u8] + post1);
            }
            patch_jump(chunk, plh_pos);
            proof {
                lemma_patch(pre1, jb1, post1);
            }
            chunk.write(Opcode::POP.to_u8());
            proof {
                let code = if_then_code(c.0, t.0) + seq![0u8, 0u8, ob(Opcode::POP)];
                assert(chunk.code_view() =~= c0.code_view() + code);
                lemma_emitted_code(c0, c3, *chunk, e3, code);
                assert(e3.1 =~= c.1 + t.1);
            }
            else_pos
        },
        _ => vstd::pervasive::unreached(),
    }
}

/// The code of an `if` statement with its jump past the alternative left
/// to fill in, taken apart around the bytes to fill.
proof fn lemma_if_tail(c0: Seq<u8>, head: Seq<u8>, f: Seq<u8>, jb: Seq<u8>)
    requires
        jb.len() == 2,
    ensures
        c0 + (head + seq![0u8, 0u8, ob(Opcode::POP)]) + f == (c0 + head) + seq![0u8, 0u8] + (seq![ob(Opcode::POP)] + f),
        (c0 + head) + jb + (seq![ob(Opcode::POP)] + f) == c0 + (head + jb + seq![ob(Opcode::POP)] + f),
{
    assert(c0 + (head + seq![0u8, 0u8, ob(Opcode::POP)]) + f =~= (c0 + head) + seq![0u8, 0u8] + (seq![ob(Opcode::POP)] + f));
    assert((c0 + head) + jb + (seq![ob(Opcode::POP)] + f) =~= c0 + (head + jb + seq![ob(Opcode::POP)] + f));
}

/// The code of an `if` statement, its parts put together.
proof fn lemma_if_code(c: Seq<u8>, t: Seq<u8>, f: Seq<u8>, jb: Seq<u8>)
    ensures
        if_then_code(c, t) + jb + seq![ob(Opcode::POP)] + f == c + seq![ob(Opcode::JUMP_IF_FALSE)] + jump_bytes(t.len() + 4)
            + seq![ob(Opcode::POP)] + t + seq![ob(Opcode::JUMP)] + jb + seq![ob(Opcode::POP)] + f,
{
    assert(if_then_code(c, t) + jb + seq![ob(Opcode::POP)] + f =~= c + seq![ob(Opcode::JUMP_IF_FALSE)] + jump_bytes(t.len() + 4)
        + seq![ob(Opcode::POP)] + t + seq![ob(Opcode::JUMP)] + jb + seq![ob(Opcode::POP)] + f);
}

/// Compiles an `if` statement: the condition, a jump to the alternative
/// when it is false, the consequent as a block, a jump past the
/// alternative, and the alternative as a block.
#[verifier::rlimit(100)]
#[verifier::spinoff_prover]
fn emit_if(s: &Stmt, chunk: &mut ChunkMut, locals: &mut Vec<Local>, scope: i32)
    requires
        s is If,
        fits(*old(chunk), stmt_result(*s, old(locals)@, scope, *old(chunk))),
    ensures
        stmt_done(*old(chunk), *final(chunk), final(locals)@, stmt_result(*s, old(locals)@, scope, *old(chunk))),
    decreases *s, 0int, 1int,
{
    let ghost lv = locals_view(locals@);
    let ghost nc = chunk.constants@.len();
    let ghost c0 = *chunk;
    let ghost c = gen_expr(s->If_condition, lv, nc)->Some_0;
    let ghost tr = gen_block(s->If_consequent@, lv, scope as int, nc + c.1.len())->Some_0;
    let ghost t = tr.0;
    let ghost fr = match s->If_alternative {
        Some(alt) => gen_block(alt@, tr.1, scope as int, nc + c.1.len() + t.1.len())->Some_0,
        None => ((Seq::<u8>::empty(), Seq::<Const>::empty()), tr.1),
    };
    let ghost f = fr.0;
    let ghost total = c.0 + seq![ob(Opcode::JUMP_IF_FALSE)] + jump_bytes(t.0.len() + 4) + seq![ob(Opcode::POP)] + t.0
        + seq![ob(Opcode::JUMP)] + jump_bytes(f.0.len() + 1) + seq![ob(Opcode::POP)] + f.0;
    proof {
        lemma_if_result(*s, lv, scope as int, nc);
    }
    let else_pos = emit_if_then(s, chunk, locals, scope);
    let ghost c6 = *chunk;
    let ghost e6 = (if_then_code(c.0, t.0) + seq![0u8, 0u8, ob(Opcode::POP)], c.1 + t.1);
    proof {
        lemma_emitted_lens(c0, c6, e6);
    }
    match s {
        Stmt::If { condition, consequent, alternative } => {
            match alternative {
                Some(alt) => {
                    emit_block(alt, chunk, locals, scope);
                },
                None => {
                    proof {
                        lemma_emitted_nothing(c6);
                    }
                },
            }
            let ghost c7 = *chunk;
            proof {
                lemma_emitted_lens(c6, c7, f);
                lemma_join_emitted(c0, c6, c7, e6, f);
            }
            let ghost jb2 = jump_bytes(f.0.len() + 1);
            let ghost pre2 = c0.code_view() + if_then_code(c.0, t.0);
            let ghost post2 = seq![ob(Opcode::POP)] + f.0;
            proof {
                lemma_if_tail(c0.code_view(), if_then_code(c.0, t.0), f.0, jb2);
                assert(c7.code_view() == pre2 + seq![0u8, 0u8] + post2);
                assert(else_pos == pre2.len());
                assert(c7.code_view().len() - else_pos - 2 == f.0.len() + 1);
            }
            patch_jump(chunk, else_pos);
            proof {
                lemma_patch(pre2, jb2, post2);
                assert(chunk.code_view() == pre2 + jb2 + post2);
                lemma_if_code(c.0, t.0, f.0, jb2);
                let code = if_then_code(c.0, t.0) + jb2 + seq![ob(Opcode::POP)] + f.0;
                lemma_emitted_code(c0, c7, *chunk, join(e6, f), code);
                assert(join(e6, f).1 =~= c.1 + t.1 + f.1);
            }
        },
        _ => vstd::pervasive::unreached(),
    }
}

/// Compiles an `on` statement: the location, pushed as the current one,
/// the statements, the drop of the locals they declared, and the pop of
/// the location.
#[verifier::rlimit(50)]
fn emit_on(s: &Stmt, chunk: &mut ChunkMut, locals: &mut Vec<Local>, scope: i32)
    requires
        s is On,
        fits(*old(chunk), stmt_result(*s, old(locals)@, scope, *old(chunk))),
    ensures
        stmt_done(*old(chunk), *final(chunk), final(locals)@, stmt_result(*s, old(locals)@, scope, *old(chunk))),
    decreases *s, 0int, 1int,
{
    let ghost lv = locals_view(locals@);
    let ghost nc = chunk.constants@.len();
    let ghost c0 = *chunk;
    match s {
        Stmt::On { location, block } => {
            proof {
                lemma_stmt_on(*s, lv, scope as int, nc);
            }
            let ghost l = gen_expr(*location, lv, nc)->Some_0;
            emit_expr(location, chunk, locals);
            proof {
                lemma_emitted_lens(c0, *chunk, l);
            }
            emit_op(chunk, Opcode::LOC_PUSH, Ghost(c0), Ghost(l));
            let ghost c2 = *chunk;
            let ghost e2 = then_bytes(l, seq![ob(Opcode::LOC_PUSH)]);
            proof {
                lemma_emitted_lens(c0, c2, e2);
                assert(block@.subrange(0, block@.len() as int) =~= block@);
            }
            let ghost br = gen_stmts(block@, lv, scope as int, nc + l.1.len())->Some_0;
            emit_stmts(block, 0, chunk, locals, scope);
            let ghost c3 = *chunk;
            let ghost e3 = join(e2, br.0);
            proof {
                lemma_emitted_lens(c2, c3, br.0);
                lemma_join_emitted(c0, c2, c3, e2, br.0);
            }
            end_scope_exec(chunk, locals, scope, Ghost(c0), Ghost(e3));
            let ghost pop = pop_code(trailing(br.1, scope as int))->Some_0;
            proof {
                lemma_emitted_lens(c0, *chunk, then_bytes(e3, pop));
            }
            emit_op(chunk, Opcode::LOC_POP, Ghost(c0), Ghost(then_bytes(e3, pop)));
            proof {
                assert(then_bytes(then_bytes(e3, pop), seq![ob(Opcode::LOC_POP)]) =~= (
                    l.0 + seq![ob(Opcode::LOC_PUSH)] + br.0.0 + pop + seq![ob(Opcode::LOC_POP)],
                    l.1 + br.0.1,
                ));
            }
        },
        _ => vstd::pervasive::unreached(),
    }
}

/// Compiles a function body in a chunk of its own, the function itself and
/// its parameters its first locals, and ends it with a return of the unit
/// value.
fn compile_body(block: &Vec<Stmt>, scope: i32, params: &[Ident], name: String) -> (r: FunctionMut)
    requires
        gen_function(block@, scope as int, params@, name@) is Some,
    ensures
        function_mut_is(r, gen_function(block@, scope as int, params@, name@)->Some_0),
    decreases block@, 2int, 0int,
{
    let mut locals: Vec<Local> = Vec::new();
    locals.push(Local { name: String::from_str("func"), depth: scope });
    proof {
        assert(locals_view(locals@) =~= function_locals(params@.subrange(0, 0), scope as int));
    }
    let mut k: usize = 0;
    while k < params.len()
        invariant
            k <= params@.len(),
            locals_view(locals@) == function_locals(params@.subrange(0, k as int), scope as int),
        decreases params@.len() - k,
    {
        let ghost before = locals_view(locals@);
        locals.push(Local { name: params[k].0.clone(), depth: scope });
        proof {
            assert(locals_view(locals@) =~= before.push((params@[k as int].0@, scope as int)));
            assert(params@.subrange(0, k + 1) =~= params@.subrange(0, k as int).push(params@[k as int]));
            assert(params@.subrange(0, k + 1).map_values(|p: Ident| (p.0@, scope as int)) =~= params@.subrange(0, k as int).map_values(
                |p: Ident| (p.0@, scope as int),
            ).push((params@[k as int].0@, scope as int)));
            assert(locals_view(locals@) =~= function_locals(params@.subrange(0, k + 1), scope as int));
        }
        k = k + 1;
    }
    let mut chunk = ChunkMut::empty();
    proof {
        lemma_gen_function(block@, scope as int, params@, name@);
        assert(params@.subrange(0, params@.len() as int) =~= params@);
        assert(block@.subrange(0, block@.len() as int) =~= block@);
    }
    let ghost em = gen_stmts(block@, function_locals(params@, scope as int), scope as int, 0)->Some_0.0;
    let ghost c0 = chunk;
    emit_stmts(block, 0, &mut chunk, &mut locals, scope);
    proof {
        lemma_emitted(c0, chunk, em);
    }
    chunk.write_pair(Opcode::UNIT.to_u8(), Opcode::RETURN.to_u8());
    let r = FunctionMut::new(name, params.len() as u8, chunk);
    proof {
        assert(r.chunk.code_view() =~= em.0 + seq![ob(Opcode::UNIT), ob(Opcode::RETURN)]);
        assert forall|j: int| 0 <= j < em.1.len() implies value_is(#[trigger] r.chunk.constants@[0 + j], em.1[j]) by {
            assert(r.chunk.constants@[c0.constants@.len() + j] == r.chunk.constants@[0 + j]);
        }
    }
    r
}

/// Compiles one branch of a `parallel` statement as a nameless function
/// without parameters.
fn compile_branch(stmt: &Stmt, scope: i32) -> (r: FunctionMut)
    requires
        gen_stmt(*stmt, function_locals(Seq::empty(), scope as int), scope as int, 0) matches Some((em, _)) && fn_const(
            Seq::empty(),
            0,
            em,
        ) is Some,
    ensures
        function_mut_is(r, fn_const(Seq::empty(), 0, gen_stmt(*stmt, function_locals(Seq::empty(), scope as int), scope as int, 0)->Some_0.0)->Some_0),
    decreases *stmt, 0int, 3int,
{
    let mut locals: Vec<Local> = Vec::new();
    locals.push(Local { name: String::from_str("func"), depth: scope });
    proof {
        assert(locals_view(locals@) =~= function_locals(Seq::empty(), scope as int));
    }
    let mut chunk = ChunkMut::empty();
    let ghost em = gen_stmt(*stmt, function_locals(Seq::empty(), scope as int), scope as int, 0)->Some_0.0;
    let ghost c0 = chunk;
    emit_stmt(stmt, &mut chunk, &mut locals, scope);
    proof {
        lemma_emitted(c0, chunk, em);
    }
    chunk.write_pair(Opcode::UNIT.to_u8(), Opcode::RETURN.to_u8());
    let r = FunctionMut::new(String::new(), 0, chunk);
    proof {
        assert(r.chunk.code_view() =~= em.0 + seq![ob(Opcode::UNIT), ob(Opcode::RETURN)]);
        assert(r.name@ =~= Seq::<char>::empty());
        assert forall|j: int| 0 <= j < em.1.len() implies value_is(#[trigger] r.chunk.constants@[0 + j], em.1[j]) by {
            assert(r.chunk.constants@[c0.constants@.len() + j] == r.chunk.constants@[0 + j]);
        }
    }
    r
}

/// The portable form of a compiled function is that function.
proof fn lemma_into_spec(f: FunctionMut, sf: SpecFunction, fc: FuncConst)
    requires
        function_mut_is(f, fc),
        sf.name == f.name,
        sf.arity == f.arity,
        sf.bytecode.code@ == f.chunk.code_view(),
        sf.bytecode.constants == f.chunk.constants,
    ensures
        function_is(sf, fc),
{
    assert forall|j: int| 0 <= j < fc.consts.len() implies value_is(#[trigger] sf.bytecode.constants@[j], fc.consts[j]) by {
        assert(sf.bytecode.constants@[0 + j] == sf.bytecode.constants@[j]);
    }
}

/// Compiles a function declaration: the function, one scope deeper, as a
/// constant, defined as a global of its name.
#[verifier::rlimit(50)]
fn emit_declare_func(s: &Stmt, chunk: &mut ChunkMut, locals: &mut Vec<Local>, scope: i32)
    requires
        s is DeclareFunc,
        fits(*old(chunk), stmt_result(*s, old(locals)@, scope, *old(chunk))),
    ensures
        stmt_done(*old(chunk), *final(chunk), final(locals)@, stmt_result(*s, old(locals)@, scope, *old(chunk))),
    decreases *s, 0int, 1int,
{
    let ghost lv = locals_view(locals@);
    let ghost nc = chunk.constants@.len();
    let ghost c0 = *chunk;
    match s {
        Stmt::DeclareFunc { ident: Ident(name), params, body } => {
            proof {
                lemma_stmt_declare_func(*s, lv, scope as int, nc);
            }
            let inner: i32 = scope + 1;
            let ghost fc = gen_function(body@, inner as int, params@, name@)->Some_0;
            let f = compile_body(body, inner, params.as_slice(), name.clone());
            let sf = f.into_spec();
            proof {
                lemma_into_spec(f, sf, fc);
            }
            emit_const(chunk, Opcode::CONSTANT, Value::Function(sf), Ghost(Const::Func(fc)));
            let ghost c1 = *chunk;
            let ghost e1 = with_const(Opcode::CONSTANT, Const::Func(fc), nc)->Some_0;
            proof {
                lemma_emitted_lens(c0, c1, e1);
            }
            emit_const(chunk, Opcode::DEFINE_GLOBAL, Value::Unicode(name.clone()), Ghost(Const::Str(name@)));
            proof {
                let d = with_const(Opcode::DEFINE_GLOBAL, Const::Str(name@), nc + 1)->Some_0;
                lemma_join_emitted(c0, c1, *chunk, e1, d);
            }
        },
        _ => vstd::pervasive::unreached(),
    }
}

/// Compiles the methods of a class from `start` on, each at depth 1, and
/// sets them in `acc` by name.
#[verifier::rlimit(30)]
fn emit_methods(
    methods: &Vec<(Ident, Stmt)>,
    start: usize,
    acc: &mut Vec<(String, SpecFunction)>,
    Ghost(ms): Ghost<Map<Seq<char>, FuncConst>>,
)
    requires
        start <= methods@.len(),
        methods_are(old(acc)@, ms),
        gen_methods(methods@.subrange(start as int, methods@.len() as int), ms) is Some,
    ensures
        methods_are(final(acc)@, gen_methods(methods@.subrange(start as int, methods@.len() as int), ms)->Some_0),
    decreases methods@, 1int, methods@.len() - start,
{
    let ghost sub = methods@.subrange(start as int, methods@.len() as int);
    proof {
        lemma_gen_methods(sub, ms);
    }
    if start >= methods.len() {
        return;
    }
    assert(sub[0] == methods@[start as int]);
    assert(sub.drop_first() =~= methods@.subrange(start + 1, methods@.len() as int));
    match &methods[start].1 {
        Stmt::DeclareFunc { ident: Ident(fname), params, body } => {
            let ghost fc = gen_function(body@, 1, params@, fname@)->Some_0;
            let f = compile_body(body, 1, params.as_slice(), fname.clone());
            let sf = f.into_spec();
            proof {
                lemma_into_spec(f, sf, fc);
            }
            let key = methods[start].0.0.clone();
            let ghost before = acc@;
            set_entry(acc, key, sf);
            proof {
                lemma_methods_set(before, acc@, ms, key, sf, fc);
            }
            emit_methods(methods, start + 1, acc, Ghost(ms.insert(key@, fc)));
        },
        _ => vstd::pervasive::unreached(),
    }
}

/// Compiles a class declaration: the class, its methods compiled, as a
/// constant, defined as a global of its name.
#[verifier::rlimit(50)]
fn emit_declare_class(s: &Stmt, chunk: &mut ChunkMut, locals: &mut Vec<Local>, scope: i32)
    requires
        s is DeclareClass,
        fits(*old(chunk), stmt_result(*s, old(locals)@, scope, *old(chunk))),
    ensures
        stmt_done(*old(chunk), *final(chunk), final(locals)@, stmt_result(*s, old(locals)@, scope, *old(chunk))),
    decreases *s, 0int, 1int,
{
    let ghost lv = locals_view(locals@);
    let ghost nc = chunk.constants@.len();
    let ghost c0 = *chunk;
    match s {
        Stmt::DeclareClass { ident: Ident(name), properties, methods } => {
            proof {
                lemma_stmt_declare_class(*s, lv, scope as int, nc);
                assert(methods@.subrange(0, methods@.len() as int) =~= methods@);
            }
            let mut ms: Vec<(String, SpecFunction)> = Vec::new();
            emit_methods(methods, 0, &mut ms, Ghost(Map::empty()));
            let props = collect_props(properties);
            let ghost mm = gen_methods(methods@, Map::empty())->Some_0;
            let ghost cc = Const::Class { name: name@, properties: ident_pairs_map(properties@), methods: mm };
            let class = SpecClass { name: name.clone(), properties: props, methods: ms };
            proof {
                assert(value_is(Value::Class(class), cc));
            }
            emit_const(chunk, Opcode::CLASS, Value::Class(class), Ghost(cc));
            let ghost c1 = *chunk;
            let ghost e1 = with_const(Opcode::CLASS, cc, nc)->Some_0;
            proof {
                lemma_emitted_lens(c0, c1, e1);
            }
            emit_const(chunk, Opcode::DEFINE_GLOBAL, Value::Unicode(name.clone()), Ghost(Const::Str(name@)));
            proof {
                let d = with_const(Opcode::DEFINE_GLOBAL, Const::Str(name@), nc + 1)->Some_0;
                lemma_join_emitted(c0, c1, *chunk, e1, d);
            }
        },
        _ => vstd::pervasive::unreached(),
    }
}

/// Compiles the branches of a `parallel` statement up to `end`, the last
/// first, each pushed as a function constant.
fn emit_branches(blocks: &Vec<Stmt>, end: usize, chunk: &mut ChunkMut, scope: i32)
    requires
        end <= blocks@.len(),
        gen_branches(blocks@.subrange(0, end as int), scope as int, old(chunk).constants@.len()) is Some,
        old(chunk).code_view().len() + gen_branches(blocks@.subrange(0, end as int), scope as int, old(chunk).constants@.len())->Some_0.0.len()
            <= usize::MAX,
    ensures
        chunk_emitted(*old(chunk), *final(chunk), gen_branches(blocks@.subrange(0, end as int), scope as int, old(chunk).constants@.len())->Some_0),
    decreases blocks@, 1int, end,
{
    let ghost nc = chunk.constants@.len();
    let ghost sub = blocks@.subrange(0, end as int);
    proof {
        lemma_gen_branches(sub, scope as int, nc);
    }
    if end == 0 {
        proof {
            lemma_emitted_nothing(*chunk);
        }
        return;
    }
    assert(sub.last() == blocks@[end - 1]);
    assert(sub.drop_last() =~= blocks@.subrange(0, end - 1));
    let ghost em = gen_stmt(blocks@[end - 1], function_locals(Seq::empty(), scope as int), scope as int, 0)->Some_0.0;
    let ghost fc = fn_const(Seq::empty(), 0, em)->Some_0;
    let f = compile_branch(&blocks[end - 1], scope);
    let sf = f.into_spec();
    proof {
        lemma_into_spec(f, sf, fc);
    }
    let ghost c0 = *chunk;
    emit_const(chunk, Opcode::CONSTANT, Value::Function(sf), Ghost(Const::Func(fc)));
    let ghost c1 = *chunk;
    let ghost e1 = with_const(Opcode::CONSTANT, Const::Func(fc), nc)->Some_0;
    proof {
        lemma_emitted_lens(c0, c1, e1);
    }
    emit_branches(blocks, end - 1, chunk, scope);
    proof {
        let rest = gen_branches(blocks@.subrange(0, end - 1), scope as int, nc + 1)->Some_0;
        lemma_join_emitted(c0, c1, *chunk, e1, rest);
    }
}

/// Compiles a `parallel` statement: its branches as functions, the last
/// first, and the instruction that runs them; the array of their results
/// is then declared, or dropped.
#[verifier::rlimit(50)]
fn emit_parallel(s: &Stmt, chunk: &mut ChunkMut, locals: &mut Vec<Local>, scope: i32)
    requires
        s is Parallel,
        fits(*old(chunk), stmt_result(*s, old(locals)@, scope, *old(chunk))),
    ensures
        stmt_done(*old(chunk), *final(chunk), final(locals)@, stmt_result(*s, old(locals)@, scope, *old(chunk))),
    decreases *s, 0int, 1int,
{
    let ghost lv = locals_view(locals@);
    let ghost nc = chunk.constants@.len();
    let ghost c0 = *chunk;
    match s {
        Stmt::Parallel { let_assign, blocks } => {
            proof {
                lemma_stmt_parallel(*s, lv, scope as int, nc);
                assert(blocks@.subrange(0, blocks@.len() as int) =~= blocks@);
            }
            let ghost bs = gen_branches(blocks@, scope as int, nc)->Some_0;
            emit_branches(blocks, blocks.len(), chunk, scope);
            proof {
                lemma_emitted_lens(c0, *chunk, bs);
            }
            let block_n: u8 = blocks.len() as u8;
            emit_op_byte(chunk, Opcode::PARALLEL, block_n, Ghost(c0), Ghost(bs));
            let ghost c1 = *chunk;
            let ghost par = then_bytes(bs, seq![ob(Opcode::PARALLEL), blocks@.len() as u8]);
            proof {
                lemma_emitted_lens(c0, c1, par);
            }
            match let_assign {
                Some(Ident(name)) => {
                    if scope > 0 {
                        locals.push(Local { name: name.clone(), depth: scope });
                        proof {
                            assert(locals_view(locals@) =~= lv.push((name@, scope as int)));
                        }
                    } else {
                        emit_const(chunk, Opcode::DEFINE_GLOBAL, Value::Unicode(name.clone()), Ghost(Const::Str(name@)));
                        proof {
                            let d = with_const(Opcode::DEFINE_GLOBAL, Const::Str(name@), nc + bs.1.len())->Some_0;
                            lemma_join_emitted(c0, c1, *chunk, par, d);
                        }
                    }
                },
                None => {
                    emit_op(chunk, Opcode::POP, Ghost(c0), Ghost(par));
                },
            }
        },
        _ => vstd::pervasive::unreached(),
    }
}

/// The main function a program compiles to: the code of its statements at
/// the top level, with no locals; `None` where compiling fails or the code
/// would not fit in memory.
pub open spec fn gen_program(program: Seq<Stmt>) -> Option<FuncConst> {
    match gen_stmts(program, Seq::empty(), 0, 0) {
        None => None,
        Some((em, _)) => if em.0.len() > usize::MAX {
            None
        } else {
            Some(FuncConst { name: "main"@, arity: 0, code: em.0, consts: em.1 })
        },
    }
}

/// Compiles a program into its main function.
pub fn compile(program: Vec<Stmt>) -> (r: FunctionMut)
    requires
        gen_program(program@) is Some,
    ensures
        function_mut_is(r, gen_program(program@)->Some_0),
{
    let mut chunk = ChunkMut::empty();
    let mut locals: Vec<Local> = Vec::new();
    let ghost c0 = chunk;
    let ghost em = gen_stmts(program@, Seq::empty(), 0, 0)->Some_0.0;
    proof {
        assert(locals_view(locals@) =~= Seq::<(Seq<char>, int)>::empty());
        assert(program@.subrange(0, program@.len() as int) =~= program@);
    }
    emit_stmts(&program, 0, &mut chunk, &mut locals, 0);
    proof {
        lemma_emitted(c0, chunk, em);
        assert(chunk.code_view() =~= em.0);
    }
    let r = FunctionMut::main(chunk);
    proof {
        assert forall|j: int| 0 <= j < em.1.len() implies value_is(#[trigger] r.chunk.constants@[0 + j], em.1[j]) by {
            assert(r.chunk.constants@[c0.constants@.len() + j] == r.chunk.constants@[0 + j]);
        }
    }
    r
}

/// Compiles a function: its body in a chunk of its own, the function itself
/// and its parameters its first locals at the given depth, ending with a
/// return of the unit value.
pub fn compile_function(block: Vec<Stmt>, scope: i32, params: &[Ident], name: String) -> (r: FunctionMut)
    requires
        gen_function(block@, scope as int, params@, name@) is Some,
    ensures
        function_mut_is(r, gen_function(block@, scope as int, params@, name@)->Some_0),
{
    compile_body(&block, scope, params, name)
}

/// Compiles a statement, appending its code and constants to the chunk and
/// updating the locals.
pub fn stmt_to_opcodes(stmt: Stmt, chunk: &mut ChunkMut, locals: &mut Vec<Local>, scope: i32)
    requires
        fits(*old(chunk), stmt_result(stmt, old(locals)@, scope, *old(chunk))),
    ensures
        stmt_done(*old(chunk), *final(chunk), final(locals)@, stmt_result(stmt, old(locals)@, scope, *old(chunk))),
{
    emit_stmt(&stmt, chunk, locals, scope);
}

/// Compiles an expression, appending its code and constants to the chunk.
pub fn expr_to_opcodes(expr: Expr, chunk: &mut ChunkMut, locals: &mut Vec<Local>, scope: i32)
    requires
        gen_expr(expr, locals_view(old(locals)@), old(chunk).constants@.len()) is Some,
        old(chunk).code_view().len() + gen_expr(expr, locals_view(old(locals)@), old(chunk).constants@.len())->Some_0.0.len()
            <= usize::MAX,
    ensures
        final(locals)@ == old(locals)@,
        chunk_emitted(*old(chunk), *final(chunk), gen_expr(expr, locals_view(old(locals)@), old(chunk).constants@.len())->Some_0),
{
    emit_expr(&expr, chunk, locals);
}


/// A binary expression compiles to its left operand's code, then its right
/// operand's, then the instructions of its operator's meaning: `&&` ends in
/// the AND instruction, `||` in OR, the arithmetic operators in ADD,
/// SUBSTRACT, MULTIPLY and DIVIDE, `==`, `<` and `>` in EQUAL, LESS and
/// GREATER, and `!=`, `>=` and `<=` in the comparison they negate followed
/// by NOT.
pub proof fn law_binary_code(e: Expr, locals: Seq<(Seq<char>, int)>, nc: nat)
    requires
        e is Binary,
        !(e->Binary_operator is Dot),
        gen_expr(e, locals, nc) is Some,
    ensures
        ({
            let code = gen_expr(e, locals, nc)->Some_0.0;
            let l = gen_expr(*e->Binary_lhs_operand, locals, nc)->Some_0;
            let r = gen_expr(*e->Binary_rhs_operand, locals, nc + l.1.len())->Some_0;
            let ops: Seq<Opcode> = match e->Binary_operator {
                BinOp::And => seq![Opcode::AND],
                BinOp::Or => seq![Opcode::OR],
                BinOp::Add => seq![Opcode::ADD],
                BinOp::Sub => seq![Opcode::SUBSTRACT],
                BinOp::Mul => seq![Opcode::MULTIPLY],
                BinOp::Div => seq![Opcode::DIVIDE],
                BinOp::Eq => seq![Opcode::EQUAL],
                BinOp::Lt => seq![Opcode::LESS],
                BinOp::Gt => seq![Opcode::GREATER],
                BinOp::Ne => seq![Opcode::EQUAL, Opcode::NOT],
                BinOp::Ge => seq![Opcode::LESS, Opcode::NOT],
                BinOp::Le => seq![Opcode::GREATER, Opcode::NOT],
                BinOp::Dot => Seq::empty(),
            };
            &&& gen_expr(*e->Binary_lhs_operand, locals, nc) is Some
            &&& gen_expr(*e->Binary_rhs_operand, locals, nc + l.1.len()) is Some
            &&& code.len() == l.0.len() + r.0.len() + ops.len()
            &&& code.subrange(0, l.0.len() as int) == l.0
            &&& code.subrange(l.0.len() as int, (l.0.len() + r.0.len()) as int) == r.0
            &&& forall|i: int| 0 <= i < ops.len() ==> opcode_of_byte(#[trigger] code[l.0.len() + r.0.len() + i]) == Some(
                ops[i],
            )
        }),
{
    reveal(gen_expr);
    let l = gen_expr(*e->Binary_lhs_operand, locals, nc)->Some_0;
    let r = gen_expr(*e->Binary_rhs_operand, locals, nc + l.1.len())->Some_0;
    let code = gen_expr(e, locals, nc)->Some_0.0;
    assert(code =~= l.0 + r.0 + binop_code(e->Binary_operator));
    assert(code.subrange(0, l.0.len() as int) =~= l.0);
    assert(code.subrange(l.0.len() as int, (l.0.len() + r.0.len()) as int) =~= r.0);
    crate::bytecode::law_opcode_byte_roundtrip(Opcode::AND, 0);
    crate::bytecode::law_opcode_byte_roundtrip(Opcode::OR, 0);
    crate::bytecode::law_opcode_byte_roundtrip(Opcode::ADD, 0);
    crate::bytecode::law_opcode_byte_roundtrip(Opcode::SUBSTRACT, 0);
    crate::bytecode::law_opcode_byte_roundtrip(Opcode::MULTIPLY, 0);
    crate::bytecode::law_opcode_byte_roundtrip(Opcode::DIVIDE, 0);
    crate::bytecode::law_opcode_byte_roundtrip(Opcode::EQUAL, 0);
    crate::bytecode::law_opcode_byte_roundtrip(Opcode::LESS, 0);
    crate::bytecode::law_opcode_byte_roundtrip(Opcode::GREATER, 0);
    crate::bytecode::law_opcode_byte_roundtrip(Opcode::NOT, 0);
}

/// The conjunction of two boolean literals compiles to the instructions
/// that push the two booleans, in order, and then AND.
pub proof fn law_boolean_and_code(a: bool, b: bool, locals: Seq<(Seq<char>, int)>, nc: nat)
    ensures
        ({
            let e = Expr::Binary {
                operator: BinOp::And,
                lhs_operand: Box::new(Expr::Literal(Lit::Boolean(a))),
                rhs_operand: Box::new(Expr::Literal(Lit::Boolean(b))),
            };
            &&& gen_expr(e, locals, nc) is Some
            &&& gen_expr(e, locals, nc)->Some_0.0.len() == 3
            &&& opcode_of_byte(gen_expr(e, locals, nc)->Some_0.0[0]) == Some(if a { Opcode::TRUE } else { Opcode::FALSE })
            &&& opcode_of_byte(gen_expr(e, locals, nc)->Some_0.0[1]) == Some(if b { Opcode::TRUE } else { Opcode::FALSE })
            &&& opcode_of_byte(gen_expr(e, locals, nc)->Some_0.0[2]) == Some(Opcode::AND)
        }),
{
    let e = Expr::Binary {
        operator: BinOp::And,
        lhs_operand: Box::new(Expr::Literal(Lit::Boolean(a))),
        rhs_operand: Box::new(Expr::Literal(Lit::Boolean(b))),
    };
    reveal(gen_expr);
    law_binary_code(e, locals, nc);
    crate::bytecode::law_opcode_byte_roundtrip(Opcode::TRUE, 0);
    crate::bytecode::law_opcode_byte_roundtrip(Opcode::FALSE, 0);
    let code = gen_expr(e, locals, nc)->Some_0.0;
}

/// A unary expression compiles to its operand's code followed by one
/// instruction: NEGATE for `-`, NOT for `!`.
pub proof fn law_unary_code(e: Expr, locals: Seq<(Seq<char>, int)>, nc: nat)
    requires
        e is Unary,
        gen_expr(e, locals, nc) is Some,
    ensures
        ({
            let code = gen_expr(e, locals, nc)->Some_0.0;
            let o = gen_expr(*e->Unary_operand, locals, nc)->Some_0;
            &&& gen_expr(*e->Unary_operand, locals, nc) is Some
            &&& code.len() == o.0.len() + 1
            &&& code.subrange(0, o.0.len() as int) == o.0
            &&& opcode_of_byte(code[o.0.len() as int]) == Some(
                if e->Unary_operator is Neg { Opcode::NEGATE } else { Opcode::NOT },
            )
        }),
{
    reveal(gen_expr);
    let o = gen_expr(*e->Unary_operand, locals, nc)->Some_0;
    let code = gen_expr(e, locals, nc)->Some_0.0;
    assert(code.subrange(0, o.0.len() as int) =~= o.0);
    crate::bytecode::law_opcode_byte_roundtrip(Opcode::NEGATE, 0);
    crate::bytecode::law_opcode_byte_roundtrip(Opcode::NOT, 0);
}

} // verus!
