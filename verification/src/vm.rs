//! The machine: its state, and the instructions that change it.
//!
//! The machine runs one instruction per `step`. Where an instruction needs
//! work that the library does not do itself (arithmetic on real numbers, a
//! builtin or external call, running parallel branches), the step stops and
//! says what is needed; the caller does it and hands the result back.

use crate::builtins::{builtin_prepared, prepare_call, BuiltinError, BuiltinFunction, BuiltinRequest};
use crate::bytecode::{opcode_of_byte, BytecodeError, FunctionMut, Opcode};
use crate::heap::DEFAULT_HEAP_SIZE;
use crate::frames::{
    byte_at, frame_code, frame_constants, frames_last, frames_len, frames_new, frames_pop, frames_push, frames_view, read_error,
    CallFrame, CallFrameError, Frames,
};
use crate::globals::{pairs_map, str_eq, Globals};
use crate::heap::{Handle, Heap, HeapError};
use crate::objects::{common_type, object_type, Array, Class, Instance, Object, ObjectError};
use crate::packages::{PackageIndex, PackageInfo};
use crate::text::{decimal, decimal_string, quoted_list, quoted_list_string};
use crate::stack::{boolean_slot, const_value, integer_slot, normalize, real_eq, slot_type, slot_value_type, Slot, Stack, StackError};
use crate::convert::{class_freezable, fext_copy, fext_same, slot_convertible, slot_value, value_loadable, value_loaded};
use crate::objects::unique_keys;
use crate::value::{FunctionExt, Parameter, Value};
use vstd::prelude::*;

verus! {

/// The errors of the machine.
#[derive(Debug)]
#[allow(inconsistent_fields)]
pub enum VmError {
    /// An array wants more elements than the stack holds.
    ArrayArityError { got: u8, expected: u8 },
    /// A value that is not a number was negated.
    NotNegatable { target: String },
    /// Two values that are not both numbers were compared.
    NotComparable { lhs: String, rhs: String },
    /// Two values that are not both numbers or both strings were added.
    NotAddable { lhs: String, rhs: String },
    /// Two values that are not both numbers were subtracted.
    NotSubtractable { lhs: String, rhs: String },
    /// Two values that are not both numbers were multiplied.
    NotMultiplicable { lhs: String, rhs: String },
    /// Two values that are not both numbers were divided.
    NotDivisible { lhs: String, rhs: String },
    /// A value that is not an array was indexed.
    IllegalIndexError { target: String },
    /// A property of a value that is not an instance was asked for.
    IllegalDotError { target: String },
    /// A method of a value that is not an instance was asked for.
    MethodDotError { target: String },
    /// A property name is not a string.
    IllegalPropertyError { target: String },
    /// A package name is not a string.
    IllegalImportError { target: String },
    /// A value that is not a class was instantiated.
    IllegalNewError { target: String },
    /// A return outside any function.
    IllegalReturnError,
    /// A byte that encodes no instruction.
    UndefinedOpcodeError { opcode: u8 },
    /// An import of a package that is not in the index.
    UndefinedImportError { package: String },
    /// A package without an image digest offers a function.
    PackageWithoutDigest { package: String, function: String },
    /// A package offers a function whose name is already a global.
    DuplicateFunctionImport { package: String, function: String },
    /// A package offers a type whose name is already a global.
    DuplicateTypeImport { package: String, type_ident: String },
    /// A global's name is not a string.
    IllegalGlobalIdentifierError { target: String },
    /// A global that is not defined.
    UndefinedGlobalError { identifier: String },
    /// An instance lacks the property asked for.
    UndefinedPropertyError { instance: String, property: String },
    /// A class lacks the method asked for.
    UndefinedMethodError { class: String, method: String },
    /// A method of the `Service` class that it does not have.
    IllegalServiceMethod { method: String },
    /// An array index lies beyond the array.
    ArrayOutOfBoundsError { index: usize, max: usize },
    /// The results of parallel branches are not all of one type.
    ArrayTypeError { err: ObjectError },
    /// An instruction could not be read.
    CallFrameInstrError { err: CallFrameError },
    /// A one-byte operand could not be read.
    CallFrame8bitError { what: String, err: CallFrameError },
    /// A two-byte operand could not be read.
    CallFrame16bitError { what: String, err: CallFrameError },
    /// A constant operand could not be read.
    CallFrameConstError { what: String, err: CallFrameError },
    /// A value could not be read from the stack.
    StackReadError { what: String, err: StackError },
    /// A value could not be put in a slot.
    SlotCreateError { what: String, err: StackError },
    /// An object could not be put on the heap.
    HeapAllocError { what: String, err: HeapError },
    /// A function or class could not be put on the heap.
    HeapFreezeError { what: String, err: BytecodeError },
    /// An array could not be made.
    ObjectError { err: ObjectError },
    /// A builtin call failed.
    BuiltinCallError { builtin: BuiltinFunction, err: BuiltinError },
    /// The result of a parallel branch could not be put in a slot.
    BranchResultError { result: Value, err: StackError },
}

/// Options of a machine.
#[derive(Debug, Clone, Copy, PartialEq, Eq, Structural)]
pub struct VmOptions {
    /// After the main function, drop its frame and the slot it left.
    pub clear_after_main: bool,
    /// A return from the outermost frame stops the machine.
    pub global_return_halts: bool,
}

impl Default for Vm {
    fn default() -> (r: Vm)
        ensures
            r.frames().len() == 0,
            r.stack().len() == 0,
            r.uses_const(),
            r.locations().len() == 0,
            r.index().packages@.len() == 0,
            !r.options().clear_after_main,
            !r.options().global_return_halts,
            r.wf(),
            registered(Map::empty(), r.globals()),
    {
        match Vm::new_with(None, None) {
            Ok(vm) => vm,
            Err(_) => vstd::pervasive::unreached(),
        }
    }
}

impl Default for VmOptions {
    fn default() -> (r: VmOptions)
        ensures
            !r.clear_after_main,
            !r.global_return_halts,
    {
        VmOptions { clear_after_main: false, global_return_halts: false }
    }
}

/// A number taken off the stack for real arithmetic.
#[derive(Debug, Clone, Copy, PartialEq, Eq, Structural)]
pub enum Number {
    Integer(i64),
    /// The IEEE-754 binary64 bit pattern of a real number.
    Real(u64),
}

/// An arithmetic or comparison on real numbers.
#[derive(Debug, Clone, Copy, PartialEq, Eq, Structural)]
pub enum RealOp {
    Add,
    Subtract,
    Multiply,
    Divide,
    /// Whether the left-hand side is greater.
    Greater,
    /// Whether the left-hand side is less.
    Less,
}

/// Real-number work the caller must do: compute `lhs op rhs` in binary64
/// arithmetic (an integer operand converted to binary64 first), and push the
/// result, a real for arithmetic and a boolean for a comparison.
#[derive(Debug, Clone, Copy, PartialEq, Eq, Structural)]
pub struct RealTask {
    pub op: RealOp,
    pub lhs: Number,
    pub rhs: Number,
}

/// How a slot is read back by `Stack::pop` on a stack that may use constant
/// slots.
pub open spec fn read_slot(s: Slot, use_const: bool) -> Slot {
    if use_const {
        normalize(s)
    } else {
        s
    }
}

/// The number a popped slot holds, if it is one.
pub open spec fn number_of(s: Slot) -> Option<Number> {
    match s {
        Slot::Integer(i) => Some(Number::Integer(i)),
        Slot::Real(b) => Some(Number::Real(b)),
        _ => None,
    }
}

/// The boolean a slot holds, if it is one.
pub open spec fn bool_of(s: Slot) -> Option<bool> {
    match s {
        Slot::True => Some(true),
        Slot::False => Some(false),
        _ => None,
    }
}

/// The constant that the frame's next byte indexes, if both exist.
pub open spec fn const_operand(f: CallFrame) -> Option<Slot> {
    match byte_at(f, f.ip as int) {
        Some(b) => if (b as int) < frame_constants(f)->0.len() { Some(frame_constants(f)->0[b as int]) } else { None },
        None => None,
    }
}

/// The stack after a return from a frame whose slots begin at `offset`: the
/// slots from there are dropped, and the old top slot, if any, is pushed.
pub open spec fn returned(s: Seq<Slot>, offset: int) -> Seq<Slot> {
    if s.len() == 0 {
        s
    } else {
        let rest = s.drop_last();
        let kept = if offset < rest.len() { rest.subrange(0, offset) } else { rest };
        kept.push(s.last())
    }
}

/// Whether `b` can be the outcome of comparing two slots for equality: two
/// slots of the same kind with the same contents are equal, real numbers as
/// binary64 numbers are; two object handles are equal where they point to the
/// same object, which only equal objects can be.
pub open spec fn equal_outcome(lhs: Slot, rhs: Slot, b: bool) -> bool {
    match (lhs, rhs) {
        (Slot::Object(l), Slot::Object(r)) => b ==> l.obj() == r.obj(),
        (Slot::Real(l), Slot::Real(r)) => b == real_eq(l, r),
        (Slot::BuiltIn(l), Slot::BuiltIn(r)) => b == (l == r),
        (Slot::Integer(l), Slot::Integer(r)) => b == (l == r),
        (Slot::ConstMinusOne, Slot::ConstMinusOne) | (Slot::ConstMinusTwo, Slot::ConstMinusTwo)
        | (Slot::ConstOne, Slot::ConstOne) | (Slot::ConstTwo, Slot::ConstTwo) | (Slot::ConstZero, Slot::ConstZero)
        | (Slot::False, Slot::False) | (Slot::True, Slot::True) | (Slot::Unit, Slot::Unit) => b,
        _ => !b,
    }
}

/// Compares two real numbers, given as bit patterns, as binary64 numbers.
pub fn reals_equal(a: u64, b: u64) -> (r: bool)
    ensures
        r == real_eq(a, b),
{
    let a_nan = (a & 0x7ff0_0000_0000_0000u64) == 0x7ff0_0000_0000_0000u64 && (a & 0x000f_ffff_ffff_ffffu64) != 0;
    let b_nan = (b & 0x7ff0_0000_0000_0000u64) == 0x7ff0_0000_0000_0000u64 && (b & 0x000f_ffff_ffff_ffffu64) != 0;
    let a_zero = (a & 0x7fff_ffff_ffff_ffffu64) == 0;
    let b_zero = (b & 0x7fff_ffff_ffff_ffffu64) == 0;
    !a_nan && !b_nan && (a == b || (a_zero && b_zero))
}

/// Compares two slots for equality.
pub fn slots_equal(lhs: &Slot, rhs: &Slot) -> (r: bool)
    ensures
        equal_outcome(*lhs, *rhs, r),
{
    match (lhs, rhs) {
        (Slot::BuiltIn(l), Slot::BuiltIn(r)) => *l == *r,
        (Slot::ConstMinusOne, Slot::ConstMinusOne) => true,
        (Slot::ConstMinusTwo, Slot::ConstMinusTwo) => true,
        (Slot::ConstOne, Slot::ConstOne) => true,
        (Slot::ConstTwo, Slot::ConstTwo) => true,
        (Slot::ConstZero, Slot::ConstZero) => true,
        (Slot::False, Slot::False) => true,
        (Slot::Integer(l), Slot::Integer(r)) => *l == *r,
        (Slot::Real(l), Slot::Real(r)) => reals_equal(*l, *r),
        (Slot::True, Slot::True) => true,
        (Slot::Unit, Slot::Unit) => true,
        (Slot::Object(l), Slot::Object(r)) => l.same_object(r),
        _ => false,
    }
}


/// Truncating integer division, rounding toward zero.
pub open spec fn trunc_div(a: int, b: int) -> int {
    let q = vstd::math::abs(a) / vstd::math::abs(b);
    if (a < 0) == (b < 0) {
        q as int
    } else {
        -q
    }
}

/// The result of integer arithmetic.
pub open spec fn int_arith(op: RealOp, a: int, b: int) -> int {
    match op {
        RealOp::Add => a + b,
        RealOp::Subtract => a - b,
        RealOp::Multiply => a * b,
        RealOp::Divide => trunc_div(a, b),
        _ => 0,
    }
}

/// Integer arithmetic that neither divides by zero nor overflows.
pub open spec fn int_arith_defined(op: RealOp, a: int, b: int) -> bool {
    &&& (op is Divide ==> b != 0)
    &&& i64::MIN <= int_arith(op, a, b) <= i64::MAX
}

/// Two operands, as popped, on which arithmetic does not overflow or divide
/// by zero.
pub open spec fn arith_defined(op: RealOp, lhs: Slot, rhs: Slot) -> bool {
    match (lhs, rhs) {
        (Slot::Integer(a), Slot::Integer(b)) => int_arith_defined(op, a as int, b as int),
        _ => true,
    }
}

/// The operation is one of the four of arithmetic.
pub open spec fn is_arith(op: RealOp) -> bool {
    op is Add || op is Subtract || op is Multiply || op is Divide
}

/// The error an arithmetic instruction gives on operands that are not both
/// numbers: addition names their slot types, the others the types of the
/// values they turn into.
pub open spec fn arith_error(op: RealOp, lhs: Slot, rhs: Slot, e: VmError) -> bool {
    match op {
        RealOp::Add => e matches VmError::NotAddable { lhs: l, rhs: r } && l@ == slot_type(lhs) && r@ == slot_type(rhs),
        RealOp::Subtract => e matches VmError::NotSubtractable { lhs: l, rhs: r } && l@ == slot_value_type(lhs)
            && r@ == slot_value_type(rhs),
        RealOp::Multiply => e matches VmError::NotMultiplicable { lhs: l, rhs: r } && l@ == slot_value_type(lhs)
            && r@ == slot_value_type(rhs),
        _ => e matches VmError::NotDivisible { lhs: l, rhs: r } && l@ == slot_value_type(lhs)
            && r@ == slot_value_type(rhs),
    }
}

/// Computes integer arithmetic.
pub fn int_arith_exec(op: RealOp, a: i64, b: i64) -> (r: i64)
    requires
        is_arith(op),
        int_arith_defined(op, a as int, b as int),
    ensures
        r == int_arith(op, a as int, b as int),
{
    match op {
        RealOp::Add => a + b,
        RealOp::Subtract => a - b,
        RealOp::Multiply => a * b,
        _ => {
            let q = a.checked_div(b);
            assert(q is Some);
            q.unwrap()
        },
    }
}


/// The heap after the object was put on it under the handle: it holds the
/// object, and nothing it did not hold before besides.
pub open spec fn heap_allocated(before: Heap<Object>, after: Heap<Object>, h: Handle<Object>, obj: Object) -> bool {
    &&& h.obj() == obj
    &&& after.wf()
    &&& after.max() == before.max()
    &&& after.objects().contains(obj)
    &&& after.objects().len() <= before.objects().len() + 1
    &&& forall|o: Object| #[trigger] after.objects().contains(o) ==> o == obj || before.objects().contains(o)
}

/// The heap after an allocation that failed: it was full and is unchanged.
pub open spec fn heap_full(before: Heap<Object>, after: Heap<Object>, err: HeapError) -> bool {
    &&& err == HeapError::OutOfMemoryError { capacity: before.max() as usize }
    &&& after.wf()
    &&& after.max() == before.max()
    &&& after.objects() == before.objects()
    &&& before.objects().len() >= before.max()
}

/// The outcome of putting `obj` on the heap, reported as `r`.
pub open spec fn alloc_outcome(
    before: Heap<Object>,
    after: Heap<Object>,
    obj: Object,
    what: Seq<char>,
    r: Result<Handle<Object>, VmError>,
) -> bool {
    &&& before.objects().len() < before.max() ==> r is Ok
    &&& match r {
        Ok(h) => heap_allocated(before, after, h, obj),
        Err(e) => e matches VmError::HeapAllocError { what: w, err } && w@ == what && heap_full(before, after, err),
    }
}


/// The string that a constant operand names, or the type name to report
/// where it is no string: that of the value a non-object slot turns into, or
/// that of the object.
pub open spec fn name_operand(c: Slot) -> Result<Seq<char>, Seq<char>> {
    match c {
        Slot::Object(h) => match h.obj() {
            Object::String(s) => Ok(s@),
            o => Err(object_type(o)),
        },
        _ => Err(slot_value_type(c)),
    }
}

/// Reads the string that a constant operand names.
pub fn string_operand(c: &Slot) -> (r: Result<String, String>)
    ensures
        match name_operand(*c) {
            Ok(n) => r matches Ok(s) && s@ == n,
            Err(t) => r matches Err(s) && s@ == t,
        },
{
    match c {
        Slot::Object(h) => match h.get() {
            Object::String(s) => Ok(s.clone()),
            o => Err(o.data_type()),
        },
        _ => Err(c.value_type()),
    }
}

/// The integer a popped slot is read as, if it is one.
pub open spec fn integer_read(s: Slot, use_const: bool) -> Option<i64> {
    match s {
        Slot::Integer(n) => Some(n),
        _ => if use_const && const_value(s) is Some {
            const_value(s)
        } else {
            None
        },
    }
}

/// The method that a `GET_METHOD` on an instance of the class finds: the
/// `Service` class answers two method names with builtins; another class
/// answers with its method of that name.
pub open spec fn method_of(c: Class, m: Seq<char>) -> Option<Slot> {
    if c.name()@ == "Service"@ {
        if m == "waitUntilStarted"@ {
            Some(Slot::BuiltIn(BuiltinFunction::WaitUntilStarted))
        } else if m == "waitUntilDone"@ {
            Some(Slot::BuiltIn(BuiltinFunction::WaitUntilDone))
        } else {
            None
        }
    } else if pairs_map(c.methods()).contains_key(m) {
        Some(pairs_map(c.methods())[m])
    } else {
        None
    }
}


/// What reading a property of the object in `target` by the constant
/// operand `p` gives: the property's value, or the error to report.
pub open spec fn property_outcome(target: Handle<Object>, p: Slot, r: Result<Slot, VmError>) -> bool {
    match p {
        Slot::Object(hp) => match target.obj() {
            Object::Instance(inst) => match hp.obj() {
                Object::String(name) => if pairs_map(inst.properties()).contains_key(name@) {
                    r == Ok::<Slot, VmError>(pairs_map(inst.properties())[name@])
                } else {
                    r matches Err(VmError::UndefinedPropertyError { instance, property }) && instance@ == inst.class_name()
                        && property@ == name@
                },
                o => r matches Err(VmError::IllegalPropertyError { target: t }) && t@ == object_type(o),
            },
            o => r matches Err(VmError::IllegalDotError { target: t }) && t@ == object_type(o),
        },
        _ => r matches Err(VmError::IllegalPropertyError { target: t }) && t@ == slot_value_type(p),
    }
}

/// What asking the object in `target` for the method that the constant
/// operand `m` names gives: the method, or the error to report.
pub open spec fn method_outcome(target: Handle<Object>, m: Slot, r: Result<Slot, VmError>) -> bool {
    match m {
        Slot::Object(hm) => match target.obj() {
            Object::Instance(inst) => match hm.obj() {
                Object::String(name) => match inst.class().obj() {
                    Object::Class(c) => match method_of(c, name@) {
                        Some(method) => r == Ok::<Slot, VmError>(method),
                        None => if c.name()@ == "Service"@ {
                            r matches Err(VmError::IllegalServiceMethod { method }) && method@ == name@
                        } else {
                            r matches Err(VmError::UndefinedMethodError { class, method }) && class@ == c.name()@
                                && method@ == name@
                        },
                    },
                    _ => false,
                },
                o => r matches Err(VmError::IllegalPropertyError { target: t }) && t@ == object_type(o),
            },
            o => r matches Err(VmError::MethodDotError { target: t }) && t@ == object_type(o),
        },
        _ => r matches Err(VmError::IllegalPropertyError { target: t }) && t@ == slot_value_type(m),
    }
}

/// Looks up a name in a list of pairs with distinct names.
pub fn lookup_pair(pairs: &Vec<(String, Slot)>, name: &String) -> (r: Option<Slot>)
    requires
        crate::objects::unique_keys(pairs@),
    ensures
        match r {
            Some(s) => pairs_map(pairs@).contains_key(name@) && pairs_map(pairs@)[name@] == s,
            None => !pairs_map(pairs@).contains_key(name@),
        },
{
    let mut i: usize = 0;
    while i < pairs.len()
        invariant
            i <= pairs@.len(),
            crate::objects::unique_keys(pairs@),
            forall|j: int| 0 <= j < i ==> pairs@[j].0@ != name@,
        decreases pairs@.len() - i,
    {
        if pairs[i].0 == *name {
            proof {
                crate::globals::lemma_pairs_map_index(pairs@, i as int);
            }
            return Some(pairs[i].1.duplicate());
        }
        i = i + 1;
    }
    proof {
        crate::globals::lemma_pairs_map_dom(pairs@, name@);
    }
    None
}


/// Reads the property that `p` names of the object behind `target`.
pub fn property_of(target: &Handle<Object>, p: &Slot) -> (r: Result<Slot, VmError>)
    ensures
        property_outcome(*target, *p, r),
{
    let hp = match p {
        Slot::Object(hp) => hp,
        _ => {
            return Err(VmError::IllegalPropertyError { target: p.value_type() });
        },
    };
    let inst = match target.get() {
        Object::Instance(inst) => inst,
        o => {
            return Err(VmError::IllegalDotError { target: o.data_type() });
        },
    };
    let name = match hp.get() {
        Object::String(name) => name,
        o => {
            return Err(VmError::IllegalPropertyError { target: o.data_type() });
        },
    };
    inst.instance_wf();
    match lookup_pair(inst.get_properties(), name) {
        Some(v) => Ok(v),
        None => Err(VmError::UndefinedPropertyError { instance: inst.get_class_name(), property: name.clone() }),
    }
}

/// Finds the method that `m` names of the object behind `target`.
pub fn method_of_object(target: &Handle<Object>, m: &Slot) -> (r: Result<Slot, VmError>)
    ensures
        method_outcome(*target, *m, r),
{
    let hm = match m {
        Slot::Object(hm) => hm,
        _ => {
            return Err(VmError::IllegalPropertyError { target: m.value_type() });
        },
    };
    let inst = match target.get() {
        Object::Instance(inst) => inst,
        o => {
            return Err(VmError::MethodDotError { target: o.data_type() });
        },
    };
    let name = match hm.get() {
        Object::String(name) => name,
        o => {
            return Err(VmError::IllegalPropertyError { target: o.data_type() });
        },
    };
    let class = match inst.get_class().get() {
        Object::Class(c) => c,
        _ => vstd::pervasive::unreached(),
    };
    let class_name = class.get_name();
    if str_eq(class_name.as_str(), "Service") {
        if str_eq(name.as_str(), "waitUntilStarted") {
            Ok(Slot::BuiltIn(BuiltinFunction::WaitUntilStarted))
        } else if str_eq(name.as_str(), "waitUntilDone") {
            Ok(Slot::BuiltIn(BuiltinFunction::WaitUntilDone))
        } else {
            Err(VmError::IllegalServiceMethod { method: name.clone() })
        }
    } else {
        class.methods_wf();
        match lookup_pair(class.get_methods(), name) {
            Some(v) => Ok(v),
            None => Err(VmError::UndefinedMethodError { class: class_name.clone(), method: name.clone() }),
        }
    }
}


/// The `n` top slots of `s`, bottom first, as pops read them.
pub open spec fn top_slots(s: Seq<Slot>, n: nat, use_const: bool) -> Seq<Slot> {
    Seq::new(n, |i: int| read_slot(s[s.len() - n + i], use_const))
}

/// Pops the properties of a `NEW`: `k` pairs of a name on top of a value.
/// Gives the stack left and either the properties, later pairs taking the
/// place of earlier ones of the same name, or the type name of a name slot
/// that is no string; `None` where the stack runs out first.
pub open spec fn scan_properties(s: Seq<Slot>, k: nat, m: Map<Seq<char>, Slot>, use_const: bool) -> Option<
    (Seq<Slot>, Result<Map<Seq<char>, Slot>, Seq<char>>),
>
    decreases k,
{
    if k == 0 {
        Some((s, Ok(m)))
    } else if s.len() == 0 {
        None
    } else {
        let key = read_slot(s.last(), use_const);
        match key {
            Slot::Object(_) => if s.len() < 2 {
                None
            } else {
                let rest = s.drop_last().drop_last();
                match name_operand(key) {
                    Ok(name) => scan_properties(rest, (k - 1) as nat, m.insert(name, read_slot(s[s.len() - 2], use_const)), use_const),
                    Err(t) => Some((rest, Err(t))),
                }
            },
            _ => Some((s.drop_last(), Err(name_operand(key)->Err_0))),
        }
    }
}


/// What a call instruction leaves for the caller to do.
#[derive(Debug)]
pub enum CallStep {
    /// A program function was entered: its code runs next.
    Entered(Handle<Object>),
    /// A builtin for the caller to perform; `complete_call` takes its value.
    Builtin(BuiltinFunction, BuiltinRequest),
    /// An external function for the caller to run with the named arguments,
    /// at the innermost location if there is one; `complete_call` takes its
    /// value.
    External { function: FunctionExt, arguments: Vec<(String, Value)>, location: Option<String> },
}

/// Each slot turns into the value at its place.
pub open spec fn values_of(slots: Seq<Slot>, vals: Seq<Value>) -> bool {
    &&& vals.len() == slots.len()
    &&& forall|i: int| 0 <= i < slots.len() ==> slot_value(#[trigger] slots[i], vals[i])
}

/// Every slot turns into a value.
pub open spec fn all_convertible(slots: Seq<Slot>) -> bool {
    forall|i: int| 0 <= i < slots.len() ==> slot_convertible(#[trigger] slots[i])
}

/// The stack holds a callable slot under `arity` arguments, and the
/// arguments of a builtin or external function turn into values.
pub open spec fn call_ready(s: Seq<Slot>, arity: nat, use_const: bool) -> bool {
    &&& s.len() >= arity + 1
    &&& match s[s.len() - arity - 1] {
        Slot::BuiltIn(_) => all_convertible(top_slots(s, arity, use_const)),
        Slot::Object(h) => h.obj() is Function || (h.obj() is FunctionExt && all_convertible(
            top_slots(s, arity, use_const),
        )),
        _ => false,
    }
}

/// The named arguments of an external call: each parameter, as far as there
/// are arguments, with the value at its place.
pub open spec fn named_arguments(params: Seq<Parameter>, vals: Seq<Value>, named: Seq<(String, Value)>) -> bool {
    &&& named.len() == if params.len() < vals.len() { params.len() } else { vals.len() }
    &&& forall|i: int| 0 <= i < named.len() ==> (#[trigger] named[i]).0@ == params[i].name@ && named[i].1 == vals[i]
}

/// The location string of the innermost location, if there is one.
pub open spec fn location_of(locations: Seq<Handle<Object>>, location: Option<String>) -> bool {
    if locations.len() == 0 {
        location is None
    } else {
        location matches Some(l) && locations.last().obj() matches Object::String(st) && l@ == st@
    }
}


/// The names of a package's functions.
pub open spec fn function_names(p: PackageInfo) -> Seq<Seq<char>> {
    p.functions@.map_values(|f: (String, Vec<Parameter>)| f.0@)
}

/// The names of a package's types.
pub open spec fn type_names(p: PackageInfo) -> Seq<Seq<char>> {
    p.types@.map_values(|t: String| t@)
}

/// Two parameter lists say the same.
pub open spec fn params_same(a: Seq<Parameter>, b: Seq<Parameter>) -> bool {
    &&& a.len() == b.len()
    &&& forall|i: int| 0 <= i < a.len() ==> (#[trigger] a[i]).name@ == b[i].name@ && a[i].data_type@ == b[i].data_type@
}

/// The external function that importing the package makes of its `k`th
/// function.
pub open spec fn imported_function(p: PackageInfo, k: int, fe: FunctionExt) -> bool {
    &&& fe.name@ == p.functions@[k].0@
    &&& fe.detached == p.detached
    &&& p.digest matches Some(d) && fe.digest@ == d@
    &&& fe.package@ == p.name@
    &&& fe.kind@ == p.kind@
    &&& fe.version@ == p.version@
    &&& params_same(fe.parameters@, p.functions@[k].1@)
}

/// None of the names is defined, and none occurs twice.
pub open spec fn names_fresh(g: Map<Seq<char>, Slot>, names: Seq<Seq<char>>) -> bool {
    &&& forall|i: int| 0 <= i < names.len() ==> !g.contains_key(#[trigger] names[i])
    &&& forall|i: int, j: int| 0 <= i < j < names.len() ==> names[i] != names[j]
}

/// The globals after importing the package: the old ones, each function as
/// an external function and each type as a class without methods.
pub open spec fn imported_globals(before: Map<Seq<char>, Slot>, p: PackageInfo, after: Map<Seq<char>, Slot>) -> bool {
    &&& forall|k: Seq<char>| #[trigger] after.contains_key(k) <==> before.contains_key(k) || function_names(p).contains(k)
        || type_names(p).contains(k)
    &&& forall|k: Seq<char>| #[trigger] before.contains_key(k) ==> after[k] == before[k]
    &&& forall|i: int| 0 <= i < p.functions@.len() ==> function_slot(p, i, #[trigger] after[function_names(p)[i]])
    &&& forall|i: int| 0 <= i < p.types@.len() ==> type_slot(type_names(p)[i], #[trigger] after[type_names(p)[i]])
}

/// The slot holds the external function that importing the package makes
/// of its `k`th function.
pub open spec fn function_slot(p: PackageInfo, k: int, s: Slot) -> bool {
    s matches Slot::Object(h) && h.obj() matches Object::FunctionExt(fe) && imported_function(p, k, fe)
}

/// The slot holds a class of the name without methods.
pub open spec fn type_slot(name: Seq<char>, s: Slot) -> bool {
    s matches Slot::Object(h) && h.obj() matches Object::Class(c) && c.name()@ == name && c.methods().len() == 0
}

/// The messages an import reports about a package's functions.
pub open spec fn functions_message(p: PackageInfo) -> Seq<char> {
    if p.functions@.len() == 0 {
        "Package '"@ + p.name@ + "' provides no functions"@
    } else {
        "Package '"@ + p.name@ + "' provides "@ + decimal(p.functions@.len()) + " functions: "@ + quoted_list(
            function_names(p),
        )
    }
}

/// The message an import reports about a package's types.
pub open spec fn types_message(p: PackageInfo) -> Seq<char> {
    if p.types@.len() == 0 {
        "Package '"@ + p.name@ + "' provides no custom types"@
    } else {
        "Package '"@ + p.name@ + "' provides "@ + decimal(p.types@.len()) + " custom types: "@ + quoted_list(type_names(p))
    }
}

/// The messages a successful import reports.
pub open spec fn import_messages(p: PackageInfo) -> Seq<Seq<char>> {
    seq![functions_message(p), types_message(p), "Imported package '"@ + p.name@ + "' successfully"@]
}

/// A copy of a parameter list.
pub fn copy_parameters(params: &Vec<Parameter>) -> (r: Vec<Parameter>)
    ensures
        params_same(r@, params@),
{
    let mut out: Vec<Parameter> = Vec::new();
    let mut i: usize = 0;
    while i < params.len()
        invariant
            i <= params@.len(),
            out@.len() == i,
            forall|k: int| 0 <= k < i ==> (#[trigger] out@[k]).name@ == params@[k].name@
                && out@[k].data_type@ == params@[k].data_type@,
        decreases params@.len() - i,
    {
        out.push(Parameter { name: params[i].name.clone(), data_type: params[i].data_type.clone() });
        i = i + 1;
    }
    out
}

/// Writes the message about a package's functions.
fn functions_message_string(p: &PackageInfo) -> (r: String)
    ensures
        r@ == functions_message(*p),
{
    let mut s = String::from_str("Package '");
    s.append(p.name.as_str());
    if p.functions.len() == 0 {
        s.append("' provides no functions");
    } else {
        let mut names: Vec<String> = Vec::new();
        let mut i: usize = 0;
        while i < p.functions.len()
            invariant
                i <= p.functions@.len(),
                names@.len() == i,
                forall|k: int| 0 <= k < i ==> (#[trigger] names@[k])@ == p.functions@[k].0@,
            decreases p.functions@.len() - i,
        {
            names.push(p.functions[i].0.clone());
            i = i + 1;
        }
        assert(names@.map_values(|s: String| s@) =~= function_names(*p));
        s.append("' provides ");
        s.append(decimal_string(p.functions.len() as u64).as_str());
        s.append(" functions: ");
        s.append(quoted_list_string(&names).as_str());
    }
    s
}

/// Writes the message about a package's types.
fn types_message_string(p: &PackageInfo) -> (r: String)
    ensures
        r@ == types_message(*p),
{
    let mut s = String::from_str("Package '");
    s.append(p.name.as_str());
    if p.types.len() == 0 {
        s.append("' provides no custom types");
    } else {
        let mut names: Vec<String> = Vec::new();
        let mut i: usize = 0;
        while i < p.types.len()
            invariant
                i <= p.types@.len(),
                names@.len() == i,
                forall|k: int| 0 <= k < i ==> (#[trigger] names@[k])@ == p.types@[k]@,
            decreases p.types@.len() - i,
        {
            names.push(p.types[i].clone());
            i = i + 1;
        }
        assert(names@.map_values(|s: String| s@) =~= type_names(*p));
        s.append("' provides ");
        s.append(decimal_string(p.types.len() as u64).as_str());
        s.append(" custom types: ");
        s.append(quoted_list_string(&names).as_str());
    }
    s
}


/// The first package of the name in the list.
pub open spec fn package_named(ps: Seq<PackageInfo>, name: Seq<char>) -> Option<PackageInfo>
    decreases ps.len(),
{
    if ps.len() == 0 {
        None
    } else if ps[0].name@ == name {
        Some(ps[0])
    } else {
        package_named(ps.drop_first(), name)
    }
}

/// The error an import of the package may end in, with its cause: a
/// package without a digest offers functions, a name is defined already or
/// twice, or the heap filled up.
pub open spec fn import_error(p: PackageInfo, g: Map<Seq<char>, Slot>, room: bool, e: VmError) -> bool {
    let fnames = function_names(p);
    let tnames = type_names(p);
    match e {
        VmError::PackageWithoutDigest { package, function } => p.digest is None && fnames.len() > 0 && package@ == p.name@
            && function@ == fnames[0],
        VmError::DuplicateFunctionImport { package, function } => package@ == p.name@ && exists|k: int|
            0 <= k < fnames.len() && fnames[k] == function@ && (g.contains_key(fnames[k]) || exists|j: int|
                0 <= j < k && fnames[j] == fnames[k]) && names_fresh(g, (fnames + tnames).subrange(0, k)),
        VmError::DuplicateTypeImport { package, type_ident } => package@ == p.name@ && exists|k: int|
            0 <= k < tnames.len() && tnames[k] == type_ident@ && (g.contains_key(tnames[k]) || fnames.contains(tnames[k])
                || exists|j: int| 0 <= j < k && tnames[j] == tnames[k]) && names_fresh(
                g,
                (fnames + tnames).subrange(0, fnames.len() + k),
            ),
        VmError::HeapAllocError { .. } => !room,
        _ => false,
    }
}

/// The messages are the old ones followed by the new ones.
pub open spec fn messages_added(before: Seq<String>, after: Seq<String>, added: Seq<Seq<char>>) -> bool {
    &&& after.len() == before.len() + added.len()
    &&& forall|i: int| 0 <= i < before.len() ==> after[i] == before[i]
    &&& forall|i: int| 0 <= i < added.len() ==> (#[trigger] after[before.len() + i])@ == added[i]
}


/// A package list without a package of the name has no first such package.
pub proof fn lemma_package_named_none(ps: Seq<PackageInfo>, name: Seq<char>)
    requires
        forall|i: int| 0 <= i < ps.len() ==> ps[i].name@ != name,
    ensures
        package_named(ps, name) is None,
    decreases ps.len(),
{
    if ps.len() > 0 {
        assert forall|i: int| 0 <= i < ps.drop_first().len() implies ps.drop_first()[i].name@ != name by {
            assert(ps.drop_first()[i] == ps[i + 1]);
        }
        lemma_package_named_none(ps.drop_first(), name);
    }
}

/// The first package of the name is the one that no earlier package of the
/// name precedes.
pub proof fn lemma_package_named_some(ps: Seq<PackageInfo>, name: Seq<char>, p: PackageInfo)
    requires
        exists|i: int| 0 <= i < ps.len() && ps[i] == p && p.name@ == name
            && forall|j: int| 0 <= j < i ==> ps[j].name@ != name,
    ensures
        package_named(ps, name) == Some(p),
    decreases ps.len(),
{
    let i = choose|i: int| 0 <= i < ps.len() && ps[i] == p && p.name@ == name
        && forall|j: int| 0 <= j < i ==> ps[j].name@ != name;
    if i > 0 {
        assert(ps.drop_first()[i - 1] == p);
        assert forall|j: int| 0 <= j < i - 1 implies ps.drop_first()[j].name@ != name by {
            assert(ps.drop_first()[j] == ps[j + 1]);
        }
        lemma_package_named_some(ps.drop_first(), name, p);
    }
}


/// Whether a value can be put in a slot once the named classes are
/// globals: as `value_loadable`, with a struct's class among the names.
pub open spec fn loadable_with(v: Value, classes: Set<Seq<char>>) -> bool
    decreases v,
{
    match v {
        Value::Boolean(_) | Value::Integer(_) | Value::Real(_) | Value::Unit | Value::Unicode(_)
        | Value::FunctionExt(_) => true,
        Value::Class(sc) => class_freezable(sc),
        Value::Struct { data_type, properties } => {
            &&& classes.contains(data_type@)
            &&& unique_keys(properties@)
            &&& forall|i: int| 0 <= i < properties@.len() ==> loadable_with(#[trigger] properties@[i].1, classes)
        },
        Value::Array { entries, .. } => forall|i: int| 0 <= i < entries@.len() ==> loadable_with(#[trigger] entries@[i], classes),
        Value::Function(_) => false,
    }
}

/// The globals hold a class under each of the names.
pub open spec fn classes_defined(g: Map<Seq<char>, Slot>, classes: Set<Seq<char>>) -> bool {
    forall|c: Seq<char>| #[trigger] classes.contains(c) ==> g.contains_key(c) && is_class_slot(g[c])
}

/// The slot holds a class.
pub open spec fn is_class_slot(s: Slot) -> bool {
    s matches Slot::Object(h) && h.obj() is Class
}

/// A value that can be put in a slot once the named classes are globals
/// can be put in one when they are.
pub proof fn lemma_loadable_with(v: Value, classes: Set<Seq<char>>, g: Map<Seq<char>, Slot>)
    requires
        loadable_with(v, classes),
        classes_defined(g, classes),
    ensures
        value_loadable(v, g),
    decreases v,
{
    match v {
        Value::Struct { data_type, properties } => {
            assert forall|i: int| 0 <= i < properties@.len() implies value_loadable(#[trigger] properties@[i].1, g) by {
                lemma_loadable_with(properties@[i].1, classes, g);
            }
        },
        Value::Array { entries, .. } => {
            assert forall|i: int| 0 <= i < entries@.len() implies value_loadable(#[trigger] entries@[i], g) by {
                lemma_loadable_with(entries@[i], classes, g);
            }
        },
        _ => {},
    }
}

/// A value put in a slot under some globals stays so under globals that
/// agree on the named classes.
pub proof fn lemma_loaded_stable(v: Value, classes: Set<Seq<char>>, g1: Map<Seq<char>, Slot>, g2: Map<Seq<char>, Slot>, s: Slot)
    requires
        loadable_with(v, classes),
        value_loaded(v, g1, s),
        forall|c: Seq<char>| #[trigger] classes.contains(c) ==> g2[c] == g1[c],
    ensures
        value_loaded(v, g2, s),
    decreases v,
{
    match v {
        Value::Struct { data_type, properties } => {
            let h = s->Object_0;
            let ins = h.obj()->Instance_0;
            assert forall|i: int| 0 <= i < properties@.len() implies {
                &&& #[trigger] ins.properties()[i].0@ == properties@[i].0@
                &&& value_loaded(properties@[i].1, g2, ins.properties()[i].1)
            } by {
                assert(ins.properties()[i].0@ == properties@[i].0@);
                lemma_loaded_stable(properties@[i].1, classes, g1, g2, ins.properties()[i].1);
            }
        },
        Value::Array { entries, .. } => {
            let h = s->Object_0;
            let a = h.obj()->Array_0;
            assert forall|i: int| 0 <= i < entries@.len() implies value_loaded(#[trigger] entries@[i], g2, a.elements@[i]) by {
                lemma_loaded_stable(entries@[i], classes, g1, g2, a.elements@[i]);
            }
        },
        _ => {},
    }
}

/// The state a machine hands to the machines of parallel branches: its
/// globals as values, and its options.
#[derive(Debug)]
pub struct VmState {
    pub globals: Vec<(String, Value)>,
    pub options: VmOptions,
}

/// The names of the globals that are classes.
pub open spec fn state_classes(gs: Seq<(String, Value)>) -> Set<Seq<char>> {
    Set::new(|n: Seq<char>| exists|i: int| 0 <= i < gs.len() && gs[i].0@ == n && gs[i].1 is Class)
}

/// The globals of a state can be put in slots: each name once, and each
/// struct of a class among them.
pub open spec fn state_loadable(gs: Seq<(String, Value)>) -> bool {
    &&& unique_keys(gs)
    &&& forall|i: int| 0 <= i < gs.len() ==> loadable_with(#[trigger] gs[i].1, state_classes(gs))
}

/// The globals hold each value of the state under its name.
pub open spec fn state_loaded(gs: Seq<(String, Value)>, g: Map<Seq<char>, Slot>) -> bool {
    &&& forall|k: Seq<char>| #[trigger] g.contains_key(k) <==> exists|i: int| 0 <= i < gs.len() && gs[i].0@ == k
    &&& forall|i: int| 0 <= i < gs.len() ==> value_loaded(#[trigger] gs[i].1, g, g[gs[i].0@])
}

impl VmState {
    /// Puts the state's globals in slots, the classes first, so that a
    /// struct finds its class.
    #[verifier::loop_isolation(false)]
    pub fn get_globals(&self, heap: &mut Heap<Object>) -> (r: Result<Globals, VmError>)
        requires
            old(heap).wf(),
            state_loadable(self.globals@),
        ensures
            final(heap).wf(),
            final(heap).max() == old(heap).max(),
            match r {
                Ok(g) => state_loaded(self.globals@, g@),
                Err(e) => e matches VmError::SlotCreateError { what, .. } && what@ == "a global"@,
            },
    {
        let gs = &self.globals;
        let ghost classes = state_classes(gs@);
        let mut globals = Globals::new();
        let mut i: usize = 0;
        while i < gs.len()
            invariant
                i <= gs@.len(),
                heap.wf(),
                heap.max() == old(heap).max(),
                state_loadable(gs@),
                forall|k: Seq<char>| #[trigger] globals@.contains_key(k) <==> exists|j: int|
                    0 <= j < i && gs@[j].0@ == k && gs@[j].1 is Class,
                forall|j: int| 0 <= j < i && gs@[j].1 is Class ==> value_loaded(#[trigger] gs@[j].1, globals@, globals@[gs@[j].0@]),
            decreases gs@.len() - i,
        {
            if let Value::Class(_) = &gs[i].1 {
                let slot = match crate::convert::value_to_slot(&gs[i].1, &globals, heap) {
                    Ok(s) => s,
                    Err(err) => {
                        return Err(VmError::SlotCreateError { what: String::from_str("a global"), err });
                    },
                };
                let ghost before = globals@;
                globals.insert(gs[i].0.clone(), slot);
                proof {
                    assert forall|j: int| 0 <= j < i + 1 && gs@[j].1 is Class implies value_loaded(
                        #[trigger] gs@[j].1,
                        globals@,
                        globals@[gs@[j].0@],
                    ) by {
                        if j < i {
                            assert(gs@[j].0@ != gs@[i as int].0@);
                        }
                    }
                }
            }
            i = i + 1;
        }
        proof {
            assert forall|c: Seq<char>| #[trigger] classes.contains(c) implies globals@.contains_key(c) && is_class_slot(
                globals@[c],
            ) by {
                let j = choose|j: int| 0 <= j < gs@.len() && gs@[j].0@ == c && gs@[j].1 is Class;
                assert(value_loaded(gs@[j].1, globals@, globals@[gs@[j].0@]));
            }
        }
        let ghost gc = globals@;
        let mut i: usize = 0;
        while i < gs.len()
            invariant
                i <= gs@.len(),
                heap.wf(),
                heap.max() == old(heap).max(),
                state_loadable(gs@),
                classes_defined(globals@, classes),
                forall|c: Seq<char>| #[trigger] classes.contains(c) ==> globals@[c] == gc[c],
                forall|k: Seq<char>| #[trigger] globals@.contains_key(k) <==> exists|j: int|
                    0 <= j < gs@.len() && gs@[j].0@ == k && (j < i || gs@[j].1 is Class),
                forall|j: int| 0 <= j < gs@.len() && (j < i || gs@[j].1 is Class) ==> value_loaded(
                    #[trigger] gs@[j].1,
                    globals@,
                    globals@[gs@[j].0@],
                ),
            decreases gs@.len() - i,
        {
            if let Value::Class(_) = &gs[i].1 {
            } else {
                proof {
                    lemma_loadable_with(gs@[i as int].1, classes, globals@);
                }
                let slot = match crate::convert::value_to_slot(&gs[i].1, &globals, heap) {
                    Ok(s) => s,
                    Err(err) => {
                        return Err(VmError::SlotCreateError { what: String::from_str("a global"), err });
                    },
                };
                let ghost before = globals@;
                globals.insert(gs[i].0.clone(), slot);
                proof {
                    assert(!classes.contains(gs@[i as int].0@)) by {
                        if classes.contains(gs@[i as int].0@) {
                            let j = choose|j: int| 0 <= j < gs@.len() && gs@[j].0@ == gs@[i as int].0@ && gs@[j].1 is Class;
                            assert(j != i);
                        }
                    }
                    assert forall|j: int| 0 <= j < gs@.len() && (j < i + 1 || gs@[j].1 is Class) implies value_loaded(
                        #[trigger] gs@[j].1,
                        globals@,
                        globals@[gs@[j].0@],
                    ) by {
                        if j != i {
                            assert(gs@[j].0@ != gs@[i as int].0@);
                            lemma_loaded_stable(gs@[j].1, classes, before, globals@, before[gs@[j].0@]);
                        } else {
                            lemma_loaded_stable(gs@[j].1, classes, before, globals@, slot);
                        }
                    }
                }
            }
            i = i + 1;
        }
        Ok(globals)
    }
}


/// A slot that a `PARALLEL` can run as a branch: a function whose
/// constants turn back into values.
pub open spec fn branch_slot(s: Slot) -> bool {
    s matches Slot::Object(h) && h.obj() matches Object::Function(f) && f.unfreezable()
}


/// The slot holds the function that the branch was taken from.
pub open spec fn branch_taken(s: Slot, branch: FunctionMut) -> bool {
    s matches Slot::Object(h) && h.obj() matches Object::Function(f) && branch.unfrozen_from(f)
}

/// The slot holds an array of the results' slots.
pub open spec fn results_array(s: Slot, results: Seq<Value>, g: Map<Seq<char>, Slot>) -> bool {
    s matches Slot::Object(h) && h.obj() matches Object::Array(a) && a.elements@.len() == results.len()
        && forall|i: int| 0 <= i < results.len() ==> value_loaded(#[trigger] results[i], g, a.elements@[i])
}

/// An error that ending a `PARALLEL` may give.
pub open spec fn parallel_error(e: VmError) -> bool {
    ||| e is BranchResultError
    ||| e is ArrayTypeError
    ||| e matches VmError::HeapAllocError { what, .. } && what@ == "an Array with parallel branch results"@
}


/// The globals after the builtins were registered: the class `Service` and
/// the function `print`.
pub open spec fn registered(before: Map<Seq<char>, Slot>, after: Map<Seq<char>, Slot>) -> bool {
    exists|s: Slot| #[trigger] type_slot("Service"@, s)
        && after == before.insert("Service"@, s).insert("print"@, Slot::BuiltIn(BuiltinFunction::Print))
}

/// Registers the builtins: the class `Service`, a new object on the heap,
/// and the function `print`.
fn register(globals: &mut Globals, heap: &mut Heap<Object>) -> (r: Result<(), VmError>)
    requires
        old(heap).wf(),
    ensures
        final(heap).wf(),
        final(heap).max() == old(heap).max(),
        old(heap).objects().len() < old(heap).max() ==> r is Ok,
        match r {
            Ok(_) => registered(old(globals)@, final(globals)@),
            Err(e) => e matches VmError::HeapAllocError { what, .. } && what@ == "the Service class"@
                && final(globals)@ == old(globals)@,
        },
{
    let service = crate::builtins::BuiltinClass::Service.name();
    let class = Class::new(service.clone(), Vec::new());
    let h = match heap.allocate(Object::Class(class)) {
        Ok(h) => h,
        Err(err) => {
            return Err(VmError::HeapAllocError { what: String::from_str("the Service class"), err });
        },
    };
    let ghost s = Slot::Object(h);
    assert(type_slot("Service"@, s));
    globals.insert(service, Slot::Object(h));
    globals.insert(String::from_str("print"), Slot::BuiltIn(BuiltinFunction::Print));
    proof {
        reveal_strlit("print");
    }
    Ok(())
}


/// The slot `k` places below the top of `s`, as a pop reads it.
pub open spec fn peek_in(s: Seq<Slot>, k: int, use_const: bool) -> Slot {
    read_slot(s[s.len() - 1 - k], use_const)
}

/// What running one instruction leaves for the caller to do.
#[derive(Debug)]
pub enum Step {
    /// Nothing: the next instruction may run.
    Continue,
    /// The innermost frame's code is done: the run ends.
    Finished,
    /// The outermost frame returned and the options say to stop.
    Halted,
    /// Real-number work whose result the caller pushes with
    /// `complete_real` or `complete_comparison`.
    Real(RealTask),
    /// A call; see `CallStep`.
    Call(CallStep),
    /// A package was imported; the messages are for the client.
    Imported(Vec<String>),
    /// Branches to run side by side; `complete_parallel` takes their values.
    Parallel(Vec<FunctionMut>),
}

/// The instruction can run on a machine whose innermost frame is `f`,
/// just past the instruction's byte, with the stack `s` and the locations
/// `locs`: it will not run out of stack, overflow, or meet a slot it cannot
/// handle.
pub open spec fn ready(op: Opcode, f: CallFrame, s: Seq<Slot>, uc: bool, locs: Seq<Handle<Object>>) -> bool {
    let operand = byte_at(f, f.ip as int);
    match op {
        Opcode::ADD => s.len() >= 2 && arith_defined(RealOp::Add, peek_in(s, 1, uc), peek_in(s, 0, uc)),
        Opcode::SUBSTRACT => s.len() >= 2 && arith_defined(RealOp::Subtract, peek_in(s, 1, uc), peek_in(s, 0, uc)),
        Opcode::MULTIPLY => s.len() >= 2 && arith_defined(RealOp::Multiply, peek_in(s, 1, uc), peek_in(s, 0, uc)),
        Opcode::DIVIDE => s.len() >= 2 && arith_defined(RealOp::Divide, peek_in(s, 1, uc), peek_in(s, 0, uc)),
        Opcode::AND | Opcode::OR | Opcode::EQUAL | Opcode::GREATER | Opcode::LESS | Opcode::INDEX => s.len() >= 2,
        Opcode::NOT | Opcode::POP | Opcode::LOC_PUSH | Opcode::DOT | Opcode::GET_METHOD | Opcode::GET_PROPERTY
        | Opcode::DEFINE_GLOBAL | Opcode::SET_GLOBAL => s.len() >= 1,
        Opcode::NEGATE => s.len() >= 1 && peek_in(s, 0, uc) != Slot::Integer(i64::MIN),
        Opcode::CALL => {
            &&& locs.len() > 0 ==> locs.last().obj() is String
            &&& operand matches Some(arity) ==> call_ready(s, arity as nat, uc)
        },
        Opcode::GET_LOCAL | Opcode::SET_LOCAL => operand matches Some(i) ==> f.stack_offset + i < s.len(),
        Opcode::JUMP => f.ip <= usize::MAX - 0x10002,
        Opcode::JUMP_BACK => jump_back_ok(f),
        Opcode::JUMP_IF_FALSE => s.len() >= 1 && f.ip <= usize::MAX - 0x10002,
        Opcode::NEW => match operand {
            Some(n) => s.len() > 0 && match s.last() {
                Slot::Object(h) => h.obj() is Class ==> scan_properties(s.drop_last(), n as nat, Map::empty(), uc) is Some,
                _ => true,
            },
            None => true,
        },
        Opcode::PARALLEL => operand matches Some(n) ==> n <= s.len() && forall|i: int|
            0 <= i < n ==> branch_slot(#[trigger] s[s.len() - 1 - i]),
        _ => true,
    }
}

/// `JUMP_BACK` in the frame stays within its code's start: the offset in
/// the two bytes after the instruction, where they are there, reaches back
/// no further than the code's first byte.
pub open spec fn jump_back_ok(f: CallFrame) -> bool {
    &&& f.ip <= usize::MAX - 2
    &&& match (byte_at(f, f.ip as int), byte_at(f, f.ip + 1)) {
        (Some(b1), Some(b2)) => b1 * 256 + b2 <= f.ip + 2,
        _ => true,
    }
}

/// The arithmetic or comparison result a step stands for.
pub open spec fn real_of(r: Result<Step, VmError>) -> Result<Option<RealTask>, VmError> {
    match r {
        Ok(Step::Real(t)) => Ok(Some(t)),
        Ok(_) => Ok(None),
        Err(e) => Err(e),
    }
}

/// The plain result a step stands for.
pub open spec fn unit_of(r: Result<Step, VmError>) -> Result<(), VmError> {
    match r {
        Ok(_) => Ok(()),
        Err(e) => Err(e),
    }
}

/// The call a step stands for.
pub open spec fn call_of(r: Result<Step, VmError>) -> Result<CallStep, VmError> {
    match r {
        Ok(Step::Call(c)) => Ok(c),
        Ok(_) => arbitrary(),
        Err(e) => Err(e),
    }
}

/// The branches a step stands for.
pub open spec fn branches_of(r: Result<Step, VmError>) -> Result<Vec<FunctionMut>, VmError> {
    match r {
        Ok(Step::Parallel(b)) => Ok(b),
        Ok(_) => arbitrary(),
        Err(e) => Err(e),
    }
}

/// What running the instruction `op` does, from the machine `pre` just past
/// the instruction's byte to the machine `post`, giving the step `r`: what
/// the instruction's own function states.
pub open spec fn step_effect(op: Opcode, pre: &Vm, post: &Vm, r: Result<Step, VmError>) -> bool {
    match op {
        Opcode::ADD => Vm::op_add_effect(pre, post, real_of(r)),
        Opcode::SUBSTRACT => Vm::op_substract_effect(pre, post, real_of(r)),
        Opcode::MULTIPLY => Vm::op_multiply_effect(pre, post, real_of(r)),
        Opcode::DIVIDE => Vm::op_divide_effect(pre, post, real_of(r)),
        Opcode::GREATER => Vm::op_greater_effect(pre, post, real_of(r)),
        Opcode::LESS => Vm::op_less_effect(pre, post, real_of(r)),
        Opcode::AND => Vm::op_and_effect(pre, post, unit_of(r)),
        Opcode::ARRAY => Vm::op_array_effect(pre, post, unit_of(r)),
        Opcode::CALL => Vm::op_call_effect(pre, post, call_of(r)),
        Opcode::CLASS => Vm::op_class_effect(pre, post, unit_of(r)),
        Opcode::CONSTANT => Vm::op_constant_effect(pre, post, unit_of(r)),
        Opcode::DEFINE_GLOBAL => Vm::op_define_global_effect(pre, post, unit_of(r)),
        Opcode::DOT => Vm::op_dot_effect(pre, post, unit_of(r)),
        Opcode::EQUAL => Vm::op_equal_effect(pre, post, unit_of(r)),
        Opcode::FALSE => Vm::op_false_effect(pre, post),
        Opcode::GET_GLOBAL => Vm::op_get_global_effect(pre, post, unit_of(r)),
        Opcode::GET_LOCAL => Vm::op_get_local_effect(pre, post, unit_of(r)),
        Opcode::GET_METHOD => Vm::op_get_method_effect(pre, post, unit_of(r)),
        Opcode::GET_PROPERTY => Vm::op_get_property_effect(pre, post, unit_of(r)),
        Opcode::IMPORT => match r {
            Ok(Step::Imported(m)) => Vm::op_import_effect(pre, post, Seq::empty(), m@, Ok(())),
            Ok(_) => false,
            Err(e) => exists|m: Seq<String>| #[trigger] Vm::op_import_effect(pre, post, Seq::empty(), m, Err(e)),
        },
        Opcode::INDEX => Vm::op_index_effect(pre, post, unit_of(r)),
        Opcode::JUMP => Vm::op_jump_effect(pre, post, unit_of(r)),
        Opcode::JUMP_BACK => Vm::op_jump_back_effect(pre, post, unit_of(r)),
        Opcode::JUMP_IF_FALSE => Vm::op_jump_if_false_effect(pre, post, unit_of(r)),
        Opcode::LOC => Vm::op_loc_effect(pre, post),
        Opcode::LOC_POP => Vm::op_loc_pop_effect(pre, post),
        Opcode::LOC_PUSH => Vm::op_loc_push_effect(pre, post, unit_of(r)),
        Opcode::NEGATE => Vm::op_negate_effect(pre, post, unit_of(r)),
        Opcode::NEW => Vm::op_new_effect(pre, post, unit_of(r)),
        Opcode::NOT => Vm::op_not_effect(pre, post, unit_of(r)),
        Opcode::OR => Vm::op_or_effect(pre, post, unit_of(r)),
        Opcode::PARALLEL => Vm::op_parallel_effect(pre, post, branches_of(r)),
        Opcode::POP => Vm::op_pop_effect(pre, post, unit_of(r)),
        Opcode::POP_N => Vm::op_pop_n_effect(pre, post, unit_of(r)),
        Opcode::RETURN => {
            &&& Vm::op_return_effect(pre, post, unit_of(r))
            &&& r is Ok ==> (r == Ok::<Step, VmError>(Step::Halted) <==> (post.options().global_return_halts
                && post.frames().len() == 0))
        },
        Opcode::SET_GLOBAL => Vm::op_set_global_effect(pre, post, false, unit_of(r)),
        Opcode::SET_LOCAL => Vm::op_set_local_effect(pre, post, unit_of(r)),
        Opcode::TRUE => Vm::op_true_effect(pre, post),
        Opcode::UNIT => Vm::op_unit_effect(pre, post),
    }
}

/// The kind of step an instruction can give.
pub open spec fn step_kind(op: Opcode, r: Result<Step, VmError>) -> bool {
    match r {
        Ok(Step::Real(_)) => op is ADD || op is SUBSTRACT || op is MULTIPLY || op is DIVIDE || op is GREATER || op is LESS,
        Ok(Step::Call(_)) => op is CALL,
        Ok(Step::Imported(_)) => op is IMPORT,
        Ok(Step::Parallel(_)) => op is PARALLEL,
        Ok(Step::Halted) => op is RETURN,
        Ok(Step::Finished) => false,
        _ => true,
    }
}

/// The machine.
pub struct Vm {
    frames: Frames,
    globals: Globals,
    heap: Heap<Object>,
    locations: Vec<Handle<Object>>,
    package_index: PackageIndex,
    options: VmOptions,
    stack: Stack,
}

impl Vm {
    /// The call frames, innermost last.
    pub closed spec fn frames(&self) -> Seq<CallFrame> {
        frames_view(self.frames)
    }

    /// The global variables.
    pub closed spec fn globals(&self) -> Map<Seq<char>, Slot> {
        self.globals@
    }

    /// The heap.
    pub closed spec fn heap(&self) -> Heap<Object> {
        self.heap
    }

    /// The heap has room for a function with these constants: for the
    /// objects its constants take when frozen, and for the function itself.
    pub open spec fn room_for(&self, constants: Seq<Value>) -> bool {
        self.heap().objects().len() + crate::convert::constants_allocs(constants, constants.len()) + 1
            <= self.heap().max()
    }

    /// The stack of locations to run jobs at, innermost last.
    pub closed spec fn locations(&self) -> Seq<Handle<Object>> {
        self.locations@
    }

    /// The packages the machine can import.
    pub closed spec fn index(&self) -> PackageIndex {
        self.package_index
    }

    /// The options.
    pub closed spec fn options(&self) -> VmOptions {
        self.options
    }

    /// The value stack.
    pub closed spec fn stack(&self) -> Seq<Slot> {
        self.stack@
    }

    /// Whether the value stack uses constant slots for the integers -2 to 2.
    pub closed spec fn uses_const(&self) -> bool {
        self.stack.uses_const()
    }

    /// The machine's heap holds no more objects than it may.
    pub open spec fn wf(&self) -> bool {
        self.heap().wf()
    }

    /// The innermost frame.
    pub open spec fn top(&self) -> CallFrame {
        self.frames().last()
    }

    /// The slot `k` places below the top of the stack, as a pop reads it.
    pub open spec fn peek(&self, k: int) -> Slot {
        read_slot(self.stack()[self.stack().len() - 1 - k], self.uses_const())
    }

    /// The two machines differ at most in their stacks.
    pub open spec fn same_but_stack(&self, other: &Vm) -> bool {
        &&& self.frames() == other.frames()
        &&& self.same_but_stack_frames(other)
    }

    /// The two machines differ at most in their stacks and heaps.
    pub open spec fn same_but_stack_heap(&self, other: &Vm) -> bool {
        &&& self.frames() == other.frames()
        &&& self.globals() == other.globals()
        &&& self.locations() == other.locations()
        &&& self.index() == other.index()
        &&& self.options() == other.options()
        &&& self.uses_const() == other.uses_const()
    }

    /// The two machines differ at most in their heaps and globals.
    pub open spec fn same_but_heap_globals(&self, other: &Vm) -> bool {
        &&& self.frames() == other.frames()
        &&& self.stack() == other.stack()
        &&& self.locations() == other.locations()
        &&& self.index() == other.index()
        &&& self.options() == other.options()
        &&& self.uses_const() == other.uses_const()
    }

    /// The two machines differ at most in their stacks and frames.
    pub open spec fn same_but_stack_frames(&self, other: &Vm) -> bool {
        &&& self.globals() == other.globals()
        &&& self.heap() == other.heap()
        &&& self.locations() == other.locations()
        &&& self.index() == other.index()
        &&& self.options() == other.options()
        &&& self.uses_const() == other.uses_const()
    }

    /// The machine is `before` with the byte at the innermost frame's
    /// instruction pointer read: that pointer moved one byte on, the rest
    /// unchanged.
    pub open spec fn fetched_from(&self, before: &Vm) -> bool {
        &&& self.frames() == before.frames_at(before.top().ip + 1)
        &&& self.stack() == before.stack()
        &&& self.same_but_stack_frames(before)
    }

    /// The frames after the innermost one moved its instruction pointer to `ip`.
    pub open spec fn frames_at(&self, ip: int) -> Seq<CallFrame> {
        self.frames().update(
            self.frames().len() - 1,
            CallFrame { function: self.top().function, ip: ip as usize, stack_offset: self.top().stack_offset },
        )
    }

    /// Reads the byte at the innermost frame's instruction pointer.
    fn frame_u8(&mut self, what: &str) -> (r: Result<u8, VmError>)
        requires
            old(self).frames().len() > 0,
        ensures
            final(self).same_but_stack_frames(old(self)),
            final(self).stack() == old(self).stack(),
            match byte_at(old(self).top(), old(self).top().ip as int) {
                Some(b) => r == Ok::<u8, VmError>(b) && final(self).frames() == old(self).frames_at(old(self).top().ip + 1),
                None => r matches Err(VmError::CallFrame8bitError { what: w, err }) && w@ == what@
                    && read_error(old(self).top(), old(self).top().ip as int, err)
                    && final(self).frames() == old(self).frames_at(old(self).top().ip as int),
            },
    {
        let mut frame = frames_pop(&mut self.frames).unwrap();
        let r = frame.read_u8();
        frames_push(&mut self.frames, frame);
        proof {
            assert(self.frames() =~= old(self).frames_at(frame.ip as int));
        }
        match r {
            Ok(b) => Ok(b),
            Err(err) => Err(VmError::CallFrame8bitError { what: String::from_str(what), err }),
        }
    }

    /// Reads the two bytes at the innermost frame's instruction pointer as a
    /// big-endian number.
    fn frame_u16(&mut self, what: &str) -> (r: Result<u16, VmError>)
        requires
            old(self).frames().len() > 0,
        ensures
            final(self).same_but_stack_frames(old(self)),
            final(self).stack() == old(self).stack(),
            final(self).frames().len() == old(self).frames().len(),
            match (byte_at(old(self).top(), old(self).top().ip as int), byte_at(old(self).top(), old(self).top().ip + 1)) {
                (Some(b1), Some(b2)) => r == Ok::<u16, VmError>((b1 as u16 * 256 + b2 as u16) as u16)
                    && final(self).frames() == old(self).frames_at(old(self).top().ip + 2),
                _ => r matches Err(VmError::CallFrame16bitError { what: w, .. }) && w@ == what@,
            },
    {
        let mut frame = frames_pop(&mut self.frames).unwrap();
        let r = frame.read_u16();
        frames_push(&mut self.frames, frame);
        proof {
            assert(self.frames() =~= old(self).frames_at(frame.ip as int));
        }
        match r {
            Ok(b) => Ok(b),
            Err(err) => Err(VmError::CallFrame16bitError { what: String::from_str(what), err }),
        }
    }

    /// Reads the constant that the byte at the innermost frame's instruction
    /// pointer indexes.
    fn frame_const(&mut self, what: &str) -> (r: Result<Slot, VmError>)
        requires
            old(self).frames().len() > 0,
        ensures
            final(self).same_but_stack_frames(old(self)),
            final(self).stack() == old(self).stack(),
            final(self).frames().len() == old(self).frames().len(),
            match byte_at(old(self).top(), old(self).top().ip as int) {
                Some(b) => {
                    let consts = frame_constants(old(self).top())->0;
                    if (b as int) < consts.len() {
                        r == Ok::<Slot, VmError>(consts[b as int])
                            && final(self).frames() == old(self).frames_at(old(self).top().ip + 1)
                    } else {
                        r matches Err(VmError::CallFrameConstError { what: w, err: CallFrameError::ConstOutOfBounds { index, max } })
                            && w@ == what@ && index == b && max == consts.len()
                    }
                },
                None => r matches Err(VmError::CallFrameConstError { what: w, err }) && w@ == what@
                    && read_error(old(self).top(), old(self).top().ip as int, err),
            },
    {
        let mut frame = frames_pop(&mut self.frames).unwrap();
        let r = frame.read_constant();
        frames_push(&mut self.frames, frame);
        proof {
            assert(self.frames() =~= old(self).frames_at(frame.ip as int));
        }
        match r {
            Ok(s) => Ok(s),
            Err(err) => Err(VmError::CallFrameConstError { what: String::from_str(what), err }),
        }
    }

    /// Returns where the innermost frame's slots begin on the stack.
    fn frame_stack_offset(&mut self) -> (r: usize)
        requires
            old(self).frames().len() > 0,
        ensures
            final(self).same_but_stack(old(self)),
            final(self).stack() == old(self).stack(),
            r == old(self).top().stack_offset,
    {
        let frame = frames_pop(&mut self.frames).unwrap();
        let offset = frame.stack_offset;
        frames_push(&mut self.frames, frame);
        proof {
            assert(frames_view(self.frames) =~= frames_view(old(self).frames));
        }
        offset
    }

    /// Moves the innermost frame's instruction pointer.
    fn set_top_ip(&mut self, ip: usize)
        requires
            old(self).frames().len() > 0,
        ensures
            final(self).same_but_stack_frames(old(self)),
            final(self).stack() == old(self).stack(),
            final(self).frames() == old(self).frames_at(ip as int),
    {
        let mut frame = frames_pop(&mut self.frames).unwrap();
        frame.ip = ip;
        frames_push(&mut self.frames, frame);
        proof {
            assert(self.frames() =~= old(self).frames_at(ip as int));
        }
    }

    /// Returns the innermost frame's instruction pointer.
    fn top_ip(&mut self) -> (r: usize)
        requires
            old(self).frames().len() > 0,
        ensures
            final(self).same_but_stack(old(self)),
            final(self).stack() == old(self).stack(),
            r == old(self).top().ip,
    {
        let frame = frames_pop(&mut self.frames).unwrap();
        let ip = frame.ip;
        frames_push(&mut self.frames, frame);
        proof {
            assert(frames_view(self.frames) =~= frames_view(old(self).frames));
        }
        ip
    }

    /// What `op_pop_n` does: the machine before, the machine after and its result.
    pub open spec fn op_pop_n_effect(pre: &Vm, post: &Vm, r: Result<(), VmError>) -> bool {
        &&& post.same_but_stack_frames(pre)
        &&& match byte_at(pre.top(), pre.top().ip as int) {
                    Some(x) => {
                        &&& r is Ok
                        &&& post.frames() == pre.frames_at(pre.top().ip + 1)
                        &&& post.stack() == (if pre.stack().len() >= x {
                            pre.stack().subrange(0, pre.stack().len() - x)
                        } else {
                            Seq::<Slot>::empty()
                        })
                    },
                    None => r is Err && post.stack() == pre.stack(),
                }
    }

    /// Pops the number of slots that the operand byte gives, or every slot
    /// where there are fewer.
    pub fn op_pop_n(&mut self) -> (r: Result<(), VmError>)
        requires
            old(self).frames().len() > 0,
        ensures
            Self::op_pop_n_effect(old(self), final(self), r),
    {
        let x = self.frame_u8("the number of stack items to pop")? as usize;
        let len = self.stack.len();
        let index = if len >= x { len - x } else { 0 };
        self.stack.clear_from(index);
        proof {
            if old(self).stack().len() < x {
                assert(old(self).stack().subrange(0, 0) =~= Seq::<Slot>::empty());
                assert(self.stack() =~= Seq::<Slot>::empty());
            } else {
                assert(self.stack() =~= old(self).stack().subrange(0, old(self).stack().len() - x));
            }
            assert(self.frames() == old(self).frames_at(old(self).top().ip + 1));
            assert(self.same_but_stack_frames(old(self)));
        }
        Ok(())
    }

    /// What `op_and` does: the machine before, the machine after and its result.
    pub open spec fn op_and_effect(pre: &Vm, post: &Vm, r: Result<(), VmError>) -> bool {
        &&& post.same_but_stack(pre)
        &&& match (bool_of(pre.stack().last()), bool_of(pre.stack()[pre.stack().len() - 2])) {
                    (Some(rhs), Some(lhs)) => r is Ok
                        && post.stack() == pre.stack().drop_last().drop_last().push(boolean_slot(lhs && rhs)),
                    _ => r matches Err(VmError::StackReadError { what, .. }) && what@ == "a boolean value"@,
                }
    }

    /// Pops two booleans and pushes whether both are true.
    pub fn op_and(&mut self) -> (r: Result<(), VmError>)
        requires
            old(self).stack().len() >= 2,
        ensures
            Self::op_and_effect(old(self), final(self), r),
    {
        let rhs = match self.stack.pop_boolean() {
            Ok(b) => b,
            Err(err) => {
                return Err(VmError::StackReadError { what: String::from_str("a boolean value"), err });
            },
        };
        let lhs = match self.stack.pop_boolean() {
            Ok(b) => b,
            Err(err) => {
                return Err(VmError::StackReadError { what: String::from_str("a boolean value"), err });
            },
        };
        self.stack.push_boolean(lhs && rhs);
        Ok(())
    }

    /// What `op_or` does: the machine before, the machine after and its result.
    pub open spec fn op_or_effect(pre: &Vm, post: &Vm, r: Result<(), VmError>) -> bool {
        &&& post.same_but_stack(pre)
        &&& match (bool_of(pre.stack().last()), bool_of(pre.stack()[pre.stack().len() - 2])) {
                    (Some(rhs), Some(lhs)) => r is Ok
                        && post.stack() == pre.stack().drop_last().drop_last().push(boolean_slot(lhs || rhs)),
                    _ => r matches Err(VmError::StackReadError { what, .. }) && what@ == "a boolean"@,
                }
    }

    /// Pops two booleans and pushes whether either is true.
    pub fn op_or(&mut self) -> (r: Result<(), VmError>)
        requires
            old(self).stack().len() >= 2,
        ensures
            Self::op_or_effect(old(self), final(self), r),
    {
        let rhs = match self.stack.pop_boolean() {
            Ok(b) => b,
            Err(err) => {
                return Err(VmError::StackReadError { what: String::from_str("a boolean"), err });
            },
        };
        let lhs = match self.stack.pop_boolean() {
            Ok(b) => b,
            Err(err) => {
                return Err(VmError::StackReadError { what: String::from_str("a boolean"), err });
            },
        };
        self.stack.push_boolean(lhs || rhs);
        Ok(())
    }

    /// What `op_not` does: the machine before, the machine after and its result.
    pub open spec fn op_not_effect(pre: &Vm, post: &Vm, r: Result<(), VmError>) -> bool {
        &&& post.same_but_stack(pre)
        &&& match bool_of(pre.stack().last()) {
                    Some(b) => r is Ok && post.stack() == pre.stack().drop_last().push(boolean_slot(!b)),
                    None => r matches Err(VmError::StackReadError { what, .. }) && what@ == "a boolean"@
                        && post.stack() == pre.stack().drop_last(),
                }
    }

    /// Pops a boolean and pushes its negation.
    pub fn op_not(&mut self) -> (r: Result<(), VmError>)
        requires
            old(self).stack().len() >= 1,
        ensures
            Self::op_not_effect(old(self), final(self), r),
    {
        let value = match self.stack.pop_boolean() {
            Ok(b) => b,
            Err(err) => {
                return Err(VmError::StackReadError { what: String::from_str("a boolean"), err });
            },
        };
        self.stack.push_boolean(!value);
        Ok(())
    }

    /// What `op_equal` does: the machine before, the machine after and its result.
    pub open spec fn op_equal_effect(pre: &Vm, post: &Vm, r: Result<(), VmError>) -> bool {
        &&& post.same_but_stack(pre)
        &&& r is Ok
        &&& exists|b: bool| {
                    &&& equal_outcome(pre.peek(1), pre.peek(0), b)
                    &&& post.stack() == pre.stack().drop_last().drop_last().push(boolean_slot(b))
                }
    }

    /// Pops two slots and pushes whether they are equal.
    pub fn op_equal(&mut self) -> (r: Result<(), VmError>)
        requires
            old(self).stack().len() >= 2,
        ensures
            Self::op_equal_effect(old(self), final(self), r),
    {
        let rhs = self.stack.pop().unwrap();
        let lhs = self.stack.pop().unwrap();
        let b = slots_equal(&lhs, &rhs);
        self.stack.push_boolean(b);
        Ok(())
    }

    /// What `op_negate` does: the machine before, the machine after and its result.
    pub open spec fn op_negate_effect(pre: &Vm, post: &Vm, r: Result<(), VmError>) -> bool {
        &&& post.same_but_stack(pre)
        &&& match pre.peek(0) {
                    Slot::Integer(i) => r is Ok && post.stack() == pre.stack().drop_last().push(Slot::Integer(-i as i64)),
                    Slot::Real(b) => r is Ok
                        && post.stack() == pre.stack().drop_last().push(Slot::Real(b ^ 0x8000_0000_0000_0000u64)),
                    s => r matches Err(VmError::NotNegatable { target }) && target@ == slot_type(s)
                        && post.stack() == pre.stack().drop_last(),
                }
    }

    /// Pops a number and pushes its negation: an integer slot for an integer
    /// (never a constant slot), a real with its sign flipped for a real.
    pub fn op_negate(&mut self) -> (r: Result<(), VmError>)
        requires
            old(self).stack().len() >= 1,
            old(self).peek(0) != Slot::Integer(i64::MIN),
        ensures
            Self::op_negate_effect(old(self), final(self), r),
    {
        let value = self.stack.pop().unwrap();
        let value = match value {
            Slot::Integer(i) => Slot::Integer(-i),
            Slot::Real(b) => Slot::Real(b ^ 0x8000_0000_0000_0000u64),
            _ => {
                return Err(VmError::NotNegatable { target: value.data_type() });
            },
        };
        self.stack.push(value);
        Ok(())
    }

    /// What `op_jump` does: the machine before, the machine after and its result.
    pub open spec fn op_jump_effect(pre: &Vm, post: &Vm, r: Result<(), VmError>) -> bool {
        &&& post.same_but_stack_frames(pre)
        &&& post.stack() == pre.stack()
        &&& match (byte_at(pre.top(), pre.top().ip as int), byte_at(pre.top(), pre.top().ip + 1)) {
                    (Some(b1), Some(b2)) => r is Ok
                        && post.frames() == pre.frames_at(pre.top().ip + 2 + b1 * 256 + b2),
                    _ => r is Err,
                }
    }

    /// Jumps forward by the two-byte operand, counted from after it.
    pub fn op_jump(&mut self) -> (r: Result<(), VmError>)
        requires
            old(self).frames().len() > 0,
            old(self).top().ip <= usize::MAX - 0x10002,
        ensures
            Self::op_jump_effect(old(self), final(self), r),
    {
        let offset = self.frame_u16("a jump offset")?;
        let ip = self.top_ip();
        self.set_top_ip(ip + offset as usize);
        proof {
            assert(self.frames() =~= old(self).frames_at(ip + offset));
        }
        Ok(())
    }

    /// What `op_jump_back` does: the machine before, the machine after and its result.
    pub open spec fn op_jump_back_effect(pre: &Vm, post: &Vm, r: Result<(), VmError>) -> bool {
        &&& post.same_but_stack_frames(pre)
        &&& post.stack() == pre.stack()
        &&& match (byte_at(pre.top(), pre.top().ip as int), byte_at(pre.top(), pre.top().ip + 1)) {
                    (Some(b1), Some(b2)) => r is Ok
                        && post.frames() == pre.frames_at(pre.top().ip + 2 - (b1 * 256 + b2)),
                    _ => r is Err,
                }
    }

    /// Jumps backward by the two-byte operand, counted from after it.
    pub fn op_jump_back(&mut self) -> (r: Result<(), VmError>)
        requires
            old(self).frames().len() > 0,
            jump_back_ok(old(self).top()),
        ensures
            Self::op_jump_back_effect(old(self), final(self), r),
    {
        let offset = self.frame_u16("a (backwards) jump offset")?;
        let ip = self.top_ip();
        self.set_top_ip(ip - offset as usize);
        proof {
            assert(self.frames() =~= old(self).frames_at(ip - offset));
        }
        Ok(())
    }

    /// What `op_jump_if_false` does: the machine before, the machine after and its result.
    pub open spec fn op_jump_if_false_effect(pre: &Vm, post: &Vm, r: Result<(), VmError>) -> bool {
        &&& post.same_but_stack_frames(pre)
        &&& post.stack() == pre.stack()
        &&& match bool_of(pre.stack().last()) {
                    Some(false) => match (
                        byte_at(pre.top(), pre.top().ip as int),
                        byte_at(pre.top(), pre.top().ip + 1),
                    ) {
                        (Some(b1), Some(b2)) => r is Ok
                            && post.frames() == pre.frames_at(pre.top().ip + 2 + b1 * 256 + b2),
                        _ => r is Err,
                    },
                    Some(true) => r is Ok && post.frames() == pre.frames_at(pre.top().ip + 2),
                    None => r matches Err(VmError::StackReadError { what, .. }) && what@ == "a jump value"@
                        && post.frames() == pre.frames(),
                }
    }

    /// Jumps forward by the two-byte operand where the boolean on top of the
    /// stack is false, and steps over the operand otherwise; the boolean stays.
    pub fn op_jump_if_false(&mut self) -> (r: Result<(), VmError>)
        requires
            old(self).frames().len() > 0,
            old(self).stack().len() > 0,
            old(self).top().ip <= usize::MAX - 0x10002,
        ensures
            Self::op_jump_if_false_effect(old(self), final(self), r),
    {
        let truthy = match self.stack.peek_boolean() {
            Ok(b) => b,
            Err(err) => {
                return Err(VmError::StackReadError { what: String::from_str("a jump value"), err });
            },
        };
        if !truthy {
            return self.op_jump();
        }
        let ip = self.top_ip();
        self.set_top_ip(ip + 2);
        Ok(())
    }

    /// What `op_get_local` does: the machine before, the machine after and its result.
    pub open spec fn op_get_local_effect(pre: &Vm, post: &Vm, r: Result<(), VmError>) -> bool {
        &&& post.same_but_stack_frames(pre)
        &&& match byte_at(pre.top(), pre.top().ip as int) {
                    Some(i) => r is Ok && post.frames() == pre.frames_at(pre.top().ip + 1)
                        && post.stack() == pre.stack().push(pre.stack()[pre.top().stack_offset + i]),
                    None => r is Err && post.stack() == pre.stack(),
                }
    }

    /// Pushes a copy of the local variable whose index, from the innermost
    /// frame's first slot, the operand byte gives.
    pub fn op_get_local(&mut self) -> (r: Result<(), VmError>)
        requires
            old(self).frames().len() > 0,
            byte_at(old(self).top(), old(self).top().ip as int) matches Some(i)
                ==> old(self).top().stack_offset + i < old(self).stack().len(),
        ensures
            Self::op_get_local_effect(old(self), final(self), r),
    {
        let index = self.frame_u8("a local variable offset")? as usize;
        assert(self.top().stack_offset == old(self).top().stack_offset);
        assert(byte_at(old(self).top(), old(self).top().ip as int) == Some(index as u8));
        assert(old(self).top().stack_offset + index < old(self).stack().len());
        let offset = self.frame_stack_offset();
        let _len = self.stack.len();
        self.stack.copy_push(offset + index);
        Ok(())
    }

    /// What `op_set_local` does: the machine before, the machine after and its result.
    pub open spec fn op_set_local_effect(pre: &Vm, post: &Vm, r: Result<(), VmError>) -> bool {
        &&& post.same_but_stack_frames(pre)
        &&& match byte_at(pre.top(), pre.top().ip as int) {
                    Some(i) => r is Ok && post.frames() == pre.frames_at(pre.top().ip + 1)
                        && post.stack() == crate::stack::swap_removed(pre.stack(), pre.top().stack_offset + i),
                    None => r is Err && post.stack() == pre.stack(),
                }
    }

    /// Moves the top slot into the local variable whose index, from the
    /// innermost frame's first slot, the operand byte gives.
    pub fn op_set_local(&mut self) -> (r: Result<(), VmError>)
        requires
            old(self).frames().len() > 0,
            byte_at(old(self).top(), old(self).top().ip as int) matches Some(i)
                ==> old(self).top().stack_offset + i < old(self).stack().len(),
        ensures
            Self::op_set_local_effect(old(self), final(self), r),
    {
        let index = self.frame_u8("a local variable index")? as usize;
        assert(self.top().stack_offset == old(self).top().stack_offset);
        assert(byte_at(old(self).top(), old(self).top().ip as int) == Some(index as u8));
        assert(old(self).top().stack_offset + index < old(self).stack().len());
        let offset = self.frame_stack_offset();
        let _len = self.stack.len();
        self.stack.copy_pop(offset + index);
        Ok(())
    }

    /// What `op_loc` does: the machine before, the machine after.
    pub open spec fn op_loc_effect(pre: &Vm, post: &Vm) -> bool {
        &&& post.frames() == pre.frames()
        &&& post.globals() == pre.globals()
        &&& post.heap() == pre.heap()
        &&& post.index() == pre.index()
        &&& post.options() == pre.options()
        &&& post.uses_const() == pre.uses_const()
        &&& pre.locations().len() == 0 ==> post.locations() == pre.locations()
                    && post.stack() == pre.stack().push(Slot::Unit)
        &&& pre.locations().len() > 0 ==> post.locations() == pre.locations().drop_last()
                    && post.stack() == pre.stack().push(Slot::Object(pre.locations().last()))
    }

    /// Pops the innermost location and pushes it, or the unit value where
    /// there is none.
    pub fn op_loc(&mut self)
        ensures
            Self::op_loc_effect(old(self), final(self)),
    {
        let location = match self.locations.pop() {
            Some(h) => Slot::Object(h),
            None => Slot::Unit,
        };
        self.stack.push(location);
    }

    /// What `op_loc_pop` does: the machine before, the machine after.
    pub open spec fn op_loc_pop_effect(pre: &Vm, post: &Vm) -> bool {
        &&& post.frames() == pre.frames()
        &&& post.globals() == pre.globals()
        &&& post.heap() == pre.heap()
        &&& post.index() == pre.index()
        &&& post.options() == pre.options()
        &&& post.uses_const() == pre.uses_const()
        &&& post.stack() == pre.stack()
        &&& pre.locations().len() == 0 ==> post.locations() == pre.locations()
        &&& pre.locations().len() > 0 ==> post.locations() == pre.locations().drop_last()
    }

    /// Pops the innermost location.
    pub fn op_loc_pop(&mut self)
        ensures
            Self::op_loc_pop_effect(old(self), final(self)),
    {
        let _ = self.locations.pop();
    }

    /// What `op_loc_push` does: the machine before, the machine after and its result.
    pub open spec fn op_loc_push_effect(pre: &Vm, post: &Vm, r: Result<(), VmError>) -> bool {
        &&& post.frames() == pre.frames()
        &&& post.globals() == pre.globals()
        &&& post.heap() == pre.heap()
        &&& post.index() == pre.index()
        &&& post.options() == pre.options()
        &&& post.uses_const() == pre.uses_const()
        &&& post.stack() == pre.stack().drop_last()
        &&& match pre.stack().last() {
                    Slot::Object(h) => r is Ok && post.locations() == pre.locations().push(h),
                    _ => r matches Err(VmError::StackReadError { what, .. }) && what@ == "a location object"@
                        && post.locations() == pre.locations(),
                }
    }

    /// Pops an object and makes it the innermost location.
    pub fn op_loc_push(&mut self) -> (r: Result<(), VmError>)
        requires
            old(self).stack().len() > 0,
        ensures
            Self::op_loc_push_effect(old(self), final(self), r),
    {
        let location = match self.stack.pop_object() {
            Ok(h) => h,
            Err(err) => {
                return Err(VmError::StackReadError { what: String::from_str("a location object"), err });
            },
        };
        self.locations.push(location);
        Ok(())
    }

    /// What `op_constant` does: the machine before, the machine after and its result.
    pub open spec fn op_constant_effect(pre: &Vm, post: &Vm, r: Result<(), VmError>) -> bool {
        &&& post.same_but_stack_frames(pre)
        &&& post.frames().len() == pre.frames().len()
        &&& match const_operand(pre.top()) {
                    Some(c) => r is Ok && post.stack() == pre.stack().push(c)
                        && post.frames() == pre.frames_at(pre.top().ip + 1),
                    None => r is Err && post.stack() == pre.stack(),
                }
    }

    /// Pushes the constant that the operand byte indexes.
    pub fn op_constant(&mut self) -> (r: Result<(), VmError>)
        requires
            old(self).frames().len() > 0,
        ensures
            Self::op_constant_effect(old(self), final(self), r),
    {
        let constant = self.frame_const("a constant")?;
        self.stack.push(constant);
        Ok(())
    }

    /// What `op_class` does: the machine before, the machine after and its result.
    pub open spec fn op_class_effect(pre: &Vm, post: &Vm, r: Result<(), VmError>) -> bool {
        &&& post.same_but_stack_frames(pre)
        &&& post.frames().len() == pre.frames().len()
        &&& match const_operand(pre.top()) {
                    Some(c) => r is Ok && post.stack() == pre.stack().push(c)
                        && post.frames() == pre.frames_at(pre.top().ip + 1),
                    None => r is Err && post.stack() == pre.stack(),
                }
    }

    /// Pushes the class constant that the operand byte indexes.
    pub fn op_class(&mut self) -> (r: Result<(), VmError>)
        requires
            old(self).frames().len() > 0,
        ensures
            Self::op_class_effect(old(self), final(self), r),
    {
        let class = self.frame_const("a class")?;
        self.stack.push(class);
        Ok(())
    }

    /// What `op_return` does: the machine before, the machine after and its result.
    pub open spec fn op_return_effect(pre: &Vm, post: &Vm, r: Result<(), VmError>) -> bool {
        &&& post.same_but_stack_frames(pre)
        &&& pre.frames().len() == 1 && !pre.options().global_return_halts ==> r
                    == Err::<(), VmError>(VmError::IllegalReturnError) && post.frames() == pre.frames()
                    && post.stack() == pre.stack()
        &&& !(pre.frames().len() == 1 && !pre.options().global_return_halts) ==> r is Ok
        &&& pre.frames().len() == 0 ==> post.frames() == pre.frames() && post.stack() == pre.stack()
        &&& !(pre.frames().len() == 1 && !pre.options().global_return_halts) && pre.frames().len() > 0 ==> {
                    &&& post.frames() == pre.frames().drop_last()
                    &&& post.stack() == returned(pre.stack(), pre.top().stack_offset as int)
                }
    }

    /// Returns from the innermost frame: its slots are dropped from the
    /// stack, except the top one, the return value, which takes their place.
    ///
    /// Fails with `IllegalReturnError` in the outermost frame, unless a
    /// return there stops the machine.
    pub fn op_return(&mut self) -> (r: Result<(), VmError>)
        ensures
            Self::op_return_effect(old(self), final(self), r),
    {
        if frames_len(&self.frames) == 1 && !self.options.global_return_halts {
            return Err(VmError::IllegalReturnError);
        }
        if let Some(frame) = frames_pop(&mut self.frames) {
            let return_value = self.stack.try_pop();
            self.stack.clear_from(frame.stack_offset);
            self.stack.try_push(return_value);
        }
        Ok(())
    }

    /// What `op_true` does: the machine before, the machine after.
    pub open spec fn op_true_effect(pre: &Vm, post: &Vm) -> bool {
        &&& post.same_but_stack(pre)
        &&& post.stack() == pre.stack().push(Slot::True)
    }

    /// Pushes `true`.
    pub fn op_true(&mut self)
        ensures
            Self::op_true_effect(old(self), final(self)),
    {
        self.stack.push(Slot::True);
    }

    /// What `op_false` does: the machine before, the machine after.
    pub open spec fn op_false_effect(pre: &Vm, post: &Vm) -> bool {
        &&& post.same_but_stack(pre)
        &&& post.stack() == pre.stack().push(Slot::False)
    }

    /// Pushes `false`.
    pub fn op_false(&mut self)
        ensures
            Self::op_false_effect(old(self), final(self)),
    {
        self.stack.push(Slot::False);
    }

    /// What `op_unit` does: the machine before, the machine after.
    pub open spec fn op_unit_effect(pre: &Vm, post: &Vm) -> bool {
        &&& post.same_but_stack(pre)
        &&& post.stack() == pre.stack().push(Slot::Unit)
    }

    /// Pushes the unit value.
    pub fn op_unit(&mut self)
        ensures
            Self::op_unit_effect(old(self), final(self)),
    {
        self.stack.push(Slot::Unit);
    }

    /// What `op_pop` does: the machine before, the machine after and its result.
    pub open spec fn op_pop_effect(pre: &Vm, post: &Vm, r: Result<(), VmError>) -> bool {
        &&& post.same_but_stack(pre)
        &&& post.stack() == pre.stack().drop_last()
        &&& r is Ok
    }

    /// Pops the top slot.
    pub fn op_pop(&mut self) -> (r: Result<(), VmError>)
        requires
            old(self).stack().len() > 0,
        ensures
            Self::op_pop_effect(old(self), final(self), r),
    {
        let _ = self.stack.pop();
        Ok(())
    }

    /// Pops the two top slots, right-hand side first.
    fn pop_operands(&mut self) -> (r: (Slot, Slot))
        requires
            old(self).stack().len() >= 2,
        ensures
            final(self).same_but_stack(old(self)),
            final(self).stack() == old(self).stack().drop_last().drop_last(),
            r.0 == old(self).peek(1),
            r.1 == old(self).peek(0),
    {
        let rhs = self.stack.pop().unwrap();
        let lhs = self.stack.pop().unwrap();
        (lhs, rhs)
    }

    /// Pops two numbers and pushes the result of integer arithmetic on them;
    /// where either is a real, hands the arithmetic to the caller.
    fn arith(&mut self, op: RealOp) -> (r: Result<Option<RealTask>, VmError>)
        requires
            is_arith(op),
            old(self).stack().len() >= 2,
            arith_defined(op, old(self).peek(1), old(self).peek(0)),
        ensures
            final(self).same_but_stack(old(self)),
            ({
                let base = old(self).stack().drop_last().drop_last();
                match (number_of(old(self).peek(1)), number_of(old(self).peek(0))) {
                    (Some(Number::Integer(a)), Some(Number::Integer(b))) => r == Ok::<Option<RealTask>, VmError>(None)
                        && final(self).stack() == base.push(
                        integer_slot(int_arith(op, a as int, b as int) as i64, old(self).uses_const()),
                    ),
                    (Some(x), Some(y)) => r == Ok::<Option<RealTask>, VmError>(Some(RealTask { op, lhs: x, rhs: y }))
                        && final(self).stack() == base,
                    _ => r matches Err(e) && arith_error(op, old(self).peek(1), old(self).peek(0), e)
                        && final(self).stack() == base,
                }
            }),
    {
        let (lhs, rhs) = self.pop_operands();
        match (lhs, rhs) {
            (Slot::Integer(a), Slot::Integer(b)) => {
                let v = int_arith_exec(op, a, b);
                self.stack.push_integer(v);
                Ok(None)
            },
            (Slot::Integer(a), Slot::Real(b)) => Ok(Some(RealTask { op, lhs: Number::Integer(a), rhs: Number::Real(b) })),
            (Slot::Real(a), Slot::Integer(b)) => Ok(Some(RealTask { op, lhs: Number::Real(a), rhs: Number::Integer(b) })),
            (Slot::Real(a), Slot::Real(b)) => Ok(Some(RealTask { op, lhs: Number::Real(a), rhs: Number::Real(b) })),
            (lhs, rhs) => {
                let e = match op {
                    RealOp::Add => VmError::NotAddable { lhs: lhs.data_type(), rhs: rhs.data_type() },
                    RealOp::Subtract => VmError::NotSubtractable { lhs: lhs.value_type(), rhs: rhs.value_type() },
                    RealOp::Multiply => VmError::NotMultiplicable { lhs: lhs.value_type(), rhs: rhs.value_type() },
                    _ => VmError::NotDivisible { lhs: lhs.value_type(), rhs: rhs.value_type() },
                };
                Err(e)
            },
        }
    }

    /// What `op_substract` does: the machine before, the machine after and its result.
    pub open spec fn op_substract_effect(pre: &Vm, post: &Vm, r: Result<Option<RealTask>, VmError>) -> bool {
        &&& post.same_but_stack(pre)
        &&& ({
                    let base = pre.stack().drop_last().drop_last();
                    match (number_of(pre.peek(1)), number_of(pre.peek(0))) {
                        (Some(Number::Integer(a)), Some(Number::Integer(b))) => r == Ok::<Option<RealTask>, VmError>(None)
                            && post.stack() == base.push(integer_slot((a - b) as i64, pre.uses_const())),
                        (Some(x), Some(y)) => r == Ok::<Option<RealTask>, VmError>(
                            Some(RealTask { op: RealOp::Subtract, lhs: x, rhs: y }),
                        ) && post.stack() == base,
                        _ => r matches Err(VmError::NotSubtractable { lhs, rhs }) && lhs@ == slot_value_type(pre.peek(1))
                            && rhs@ == slot_value_type(pre.peek(0)) && post.stack() == base,
                    }
                })
    }

    /// Pops two numbers and pushes their difference.
    pub fn op_substract(&mut self) -> (r: Result<Option<RealTask>, VmError>)
        requires
            old(self).stack().len() >= 2,
            arith_defined(RealOp::Subtract, old(self).peek(1), old(self).peek(0)),
        ensures
            Self::op_substract_effect(old(self), final(self), r),
    {
        self.arith(RealOp::Subtract)
    }

    /// What `op_multiply` does: the machine before, the machine after and its result.
    pub open spec fn op_multiply_effect(pre: &Vm, post: &Vm, r: Result<Option<RealTask>, VmError>) -> bool {
        &&& post.same_but_stack(pre)
        &&& ({
                    let base = pre.stack().drop_last().drop_last();
                    match (number_of(pre.peek(1)), number_of(pre.peek(0))) {
                        (Some(Number::Integer(a)), Some(Number::Integer(b))) => r == Ok::<Option<RealTask>, VmError>(None)
                            && post.stack() == base.push(integer_slot((a * b) as i64, pre.uses_const())),
                        (Some(x), Some(y)) => r == Ok::<Option<RealTask>, VmError>(
                            Some(RealTask { op: RealOp::Multiply, lhs: x, rhs: y }),
                        ) && post.stack() == base,
                        _ => r matches Err(VmError::NotMultiplicable { lhs, rhs }) && lhs@ == slot_value_type(pre.peek(1))
                            && rhs@ == slot_value_type(pre.peek(0)) && post.stack() == base,
                    }
                })
    }

    /// Pops two numbers and pushes their product.
    pub fn op_multiply(&mut self) -> (r: Result<Option<RealTask>, VmError>)
        requires
            old(self).stack().len() >= 2,
            arith_defined(RealOp::Multiply, old(self).peek(1), old(self).peek(0)),
        ensures
            Self::op_multiply_effect(old(self), final(self), r),
    {
        self.arith(RealOp::Multiply)
    }

    /// What `op_divide` does: the machine before, the machine after and its result.
    pub open spec fn op_divide_effect(pre: &Vm, post: &Vm, r: Result<Option<RealTask>, VmError>) -> bool {
        &&& post.same_but_stack(pre)
        &&& ({
                    let base = pre.stack().drop_last().drop_last();
                    match (number_of(pre.peek(1)), number_of(pre.peek(0))) {
                        (Some(Number::Integer(a)), Some(Number::Integer(b))) => r == Ok::<Option<RealTask>, VmError>(None)
                            && post.stack() == base.push(
                            integer_slot(trunc_div(a as int, b as int) as i64, pre.uses_const()),
                        ),
                        (Some(x), Some(y)) => r == Ok::<Option<RealTask>, VmError>(
                            Some(RealTask { op: RealOp::Divide, lhs: x, rhs: y }),
                        ) && post.stack() == base,
                        _ => r matches Err(VmError::NotDivisible { lhs, rhs }) && lhs@ == slot_value_type(pre.peek(1))
                            && rhs@ == slot_value_type(pre.peek(0)) && post.stack() == base,
                    }
                })
    }

    /// Pops two numbers and pushes their quotient; two integers are divided
    /// rounding toward zero.
    pub fn op_divide(&mut self) -> (r: Result<Option<RealTask>, VmError>)
        requires
            old(self).stack().len() >= 2,
            arith_defined(RealOp::Divide, old(self).peek(1), old(self).peek(0)),
        ensures
            Self::op_divide_effect(old(self), final(self), r),
    {
        self.arith(RealOp::Divide)
    }

    /// Puts an object on the heap.
    fn alloc_object(&mut self, obj: Object, what: &str) -> (r: Result<Handle<Object>, VmError>)
        requires
            old(self).wf(),
        ensures
            final(self).same_but_stack_heap(old(self)),
            final(self).stack() == old(self).stack(),
            final(self).wf(),
            alloc_outcome(old(self).heap(), final(self).heap(), obj, what@, r),
    {
        match self.heap.allocate(obj) {
            Ok(h) => Ok(h),
            Err(err) => Err(VmError::HeapAllocError { what: String::from_str(what), err }),
        }
    }

    /// What `op_add` does: the machine before, the machine after and its result.
    pub open spec fn op_add_effect(pre: &Vm, post: &Vm, r: Result<Option<RealTask>, VmError>) -> bool {
        &&& post.same_but_stack_heap(pre)
        &&& post.wf()
        &&& ({
                    let base = pre.stack().drop_last().drop_last();
                    let (lhs, rhs) = (pre.peek(1), pre.peek(0));
                    match (lhs, rhs) {
                        (Slot::Object(hl), Slot::Object(hr)) => match (hl.obj(), hr.obj()) {
                            (Object::String(a), Object::String(b)) => {
                                &&& pre.heap().objects().len() < pre.heap().max() ==> r is Ok
                                &&& match r {
                                    Ok(t) => {
                                        &&& t is None
                                        &&& post.stack().drop_last() == base
                                        &&& post.stack().len() == base.len() + 1
                                        &&& post.stack().last() matches Slot::Object(h)
                                            && h.obj() matches Object::String(c) && c@ == a@ + b@
                                            && heap_allocated(pre.heap(), post.heap(), h, h.obj())
                                    },
                                    Err(e) => e matches VmError::HeapAllocError { what, err } && what@ == "a concatenated string"@
                                        && heap_full(pre.heap(), post.heap(), err) && post.stack() == base,
                                }
                            },
                            _ => r matches Err(VmError::NotAddable { lhs: l, rhs: rr }) && l@ == slot_type(lhs)
                                && rr@ == slot_type(rhs) && post.stack() == base && post.heap() == pre.heap(),
                        },
                        _ => post.heap() == pre.heap() && match (number_of(lhs), number_of(rhs)) {
                            (Some(Number::Integer(a)), Some(Number::Integer(b))) => r == Ok::<Option<RealTask>, VmError>(None)
                                && post.stack() == base.push(integer_slot((a + b) as i64, pre.uses_const())),
                            (Some(x), Some(y)) => r == Ok::<Option<RealTask>, VmError>(
                                Some(RealTask { op: RealOp::Add, lhs: x, rhs: y }),
                            ) && post.stack() == base,
                            _ => r matches Err(VmError::NotAddable { lhs: l, rhs: rr }) && l@ == slot_type(lhs)
                                && rr@ == slot_type(rhs) && post.stack() == base,
                        },
                    }
                })
    }

    /// Pops two numbers and pushes their sum, or two strings and pushes
    /// their concatenation, a new string on the heap.
    pub fn op_add(&mut self) -> (r: Result<Option<RealTask>, VmError>)
        requires
            old(self).wf(),
            old(self).stack().len() >= 2,
            arith_defined(RealOp::Add, old(self).peek(1), old(self).peek(0)),
        ensures
            Self::op_add_effect(old(self), final(self), r),
    {
        let both_objects = match (self.stack.get(self.stack.len() - 2), self.stack.get(self.stack.len() - 1)) {
            (Slot::Object(_), Slot::Object(_)) => true,
            _ => false,
        };
        if !both_objects {
            return self.arith(RealOp::Add);
        }
        let (lhs, rhs) = self.pop_operands();
        let (hl, hr) = match (lhs, rhs) {
            (Slot::Object(hl), Slot::Object(hr)) => (hl, hr),
            _ => vstd::pervasive::unreached(),
        };
        match (hl.get(), hr.get()) {
            (Object::String(a), Object::String(b)) => {
                let mut c = a.clone();
                c.append(b.as_str());
                let h = match self.alloc_object(Object::String(c), "a concatenated string") {
                    Ok(h) => h,
                    Err(e) => {
                        return Err(e);
                    },
                };
                self.stack.push_object(h);
                proof {
                    assert(self.stack().drop_last() =~= old(self).stack().drop_last().drop_last());
                }
                Ok(None)
            },
            (a, b) => Err(VmError::NotAddable { lhs: a.data_type(), rhs: b.data_type() }),
        }
    }

    /// What `op_greater` does: the machine before, the machine after and its result.
    pub open spec fn op_greater_effect(pre: &Vm, post: &Vm, r: Result<Option<RealTask>, VmError>) -> bool {
        &&& post.same_but_stack(pre)
        &&& ({
                    let base = pre.stack().drop_last().drop_last();
                    let (lhs, rhs) = (pre.peek(1), pre.peek(0));
                    match (number_of(lhs), number_of(rhs)) {
                        (Some(Number::Integer(a)), Some(Number::Integer(b))) => r == Ok::<Option<RealTask>, VmError>(None)
                            && post.stack() == base.push(boolean_slot(a > b)),
                        (Some(x), Some(y)) => r == Ok::<Option<RealTask>, VmError>(
                            Some(RealTask { op: RealOp::Greater, lhs: x, rhs: y }),
                        ) && post.stack() == base,
                        _ => r matches Err(VmError::NotComparable { lhs: l, rhs: rr }) && l@ == slot_type(lhs)
                            && rr@ == slot_type(rhs) && post.stack() == base,
                    }
                })
    }

    /// Pops two numbers and pushes whether the left-hand one, the one below
    /// the top, is the greater.
    pub fn op_greater(&mut self) -> (r: Result<Option<RealTask>, VmError>)
        requires
            old(self).stack().len() >= 2,
        ensures
            Self::op_greater_effect(old(self), final(self), r),
    {
        let (lhs, rhs) = self.pop_operands();
        match (rhs, lhs) {
            (Slot::Integer(b), Slot::Integer(a)) => {
                self.stack.push_boolean(a > b);
                Ok(None)
            },
            (Slot::Integer(b), Slot::Real(a)) => Ok(Some(RealTask { op: RealOp::Greater, lhs: Number::Real(a), rhs: Number::Integer(b) })),
            (Slot::Real(b), Slot::Integer(a)) => Ok(Some(RealTask { op: RealOp::Greater, lhs: Number::Integer(a), rhs: Number::Real(b) })),
            (Slot::Real(b), Slot::Real(a)) => Ok(Some(RealTask { op: RealOp::Greater, lhs: Number::Real(a), rhs: Number::Real(b) })),
            (rhs, lhs) => Err(VmError::NotComparable { rhs: rhs.data_type(), lhs: lhs.data_type() }),
        }
    }

    /// What `op_less` does: the machine before, the machine after and its result.
    pub open spec fn op_less_effect(pre: &Vm, post: &Vm, r: Result<Option<RealTask>, VmError>) -> bool {
        &&& post.same_but_stack(pre)
        &&& ({
                    let base = pre.stack().drop_last().drop_last();
                    let (lhs, rhs) = (pre.peek(1), pre.peek(0));
                    match (number_of(lhs), number_of(rhs)) {
                        (Some(Number::Integer(a)), Some(Number::Integer(b))) => r == Ok::<Option<RealTask>, VmError>(None)
                            && post.stack() == base.push(boolean_slot(a < b)),
                        (Some(x), Some(y)) => r == Ok::<Option<RealTask>, VmError>(
                            Some(RealTask { op: RealOp::Less, lhs: x, rhs: y }),
                        ) && post.stack() == base,
                        _ => r matches Err(VmError::NotComparable { lhs: l, rhs: rr }) && l@ == slot_type(lhs)
                            && rr@ == slot_type(rhs) && post.stack() == base,
                    }
                })
    }

    /// Pops two numbers and pushes whether the left-hand one, the one below
    /// the top, is the lesser.
    pub fn op_less(&mut self) -> (r: Result<Option<RealTask>, VmError>)
        requires
            old(self).stack().len() >= 2,
        ensures
            Self::op_less_effect(old(self), final(self), r),
    {
        let (lhs, rhs) = self.pop_operands();
        match (rhs, lhs) {
            (Slot::Integer(b), Slot::Integer(a)) => {
                self.stack.push_boolean(a < b);
                Ok(None)
            },
            (Slot::Integer(b), Slot::Real(a)) => Ok(Some(RealTask { op: RealOp::Less, lhs: Number::Real(a), rhs: Number::Integer(b) })),
            (Slot::Real(b), Slot::Integer(a)) => Ok(Some(RealTask { op: RealOp::Less, lhs: Number::Integer(a), rhs: Number::Real(b) })),
            (Slot::Real(b), Slot::Real(a)) => Ok(Some(RealTask { op: RealOp::Less, lhs: Number::Real(a), rhs: Number::Real(b) })),
            (rhs, lhs) => Err(VmError::NotComparable { rhs: rhs.data_type(), lhs: lhs.data_type() }),
        }
    }

    /// What `op_get_global` does: the machine before, the machine after and its result.
    pub open spec fn op_get_global_effect(pre: &Vm, post: &Vm, r: Result<(), VmError>) -> bool {
        &&& post.same_but_stack_frames(pre)
        &&& post.frames().len() == pre.frames().len()
        &&& match const_operand(pre.top()) {
                    Some(c) => post.frames() == pre.frames_at(pre.top().ip + 1) && match name_operand(c) {
                        Ok(name) => if pre.globals().contains_key(name) {
                            r is Ok && post.stack() == pre.stack().push(pre.globals()[name])
                        } else {
                            r matches Err(VmError::UndefinedGlobalError { identifier }) && identifier@ == name
                                && post.stack() == pre.stack()
                        },
                        Err(t) => r matches Err(VmError::IllegalGlobalIdentifierError { target }) && target@ == t
                            && post.stack() == pre.stack(),
                    },
                    None => r is Err && post.stack() == pre.stack(),
                }
    }

    /// Pushes the value of the global that the constant operand names.
    pub fn op_get_global(&mut self) -> (r: Result<(), VmError>)
        requires
            old(self).frames().len() > 0,
        ensures
            Self::op_get_global_effect(old(self), final(self), r),
    {
        let identifier = self.frame_const("a global identifier")?;
        let name = match string_operand(&identifier) {
            Ok(name) => name,
            Err(target) => {
                return Err(VmError::IllegalGlobalIdentifierError { target });
            },
        };
        let value = match self.globals.get(name.as_str()) {
            Some(v) => v.duplicate(),
            None => {
                return Err(VmError::UndefinedGlobalError { identifier: name });
            },
        };
        self.stack.push(value);
        Ok(())
    }

    /// What `op_set_global` does: the machine before, the machine after and its result.
    pub open spec fn op_set_global_effect(pre: &Vm, post: &Vm, create_if_not_exists: bool, r: Result<(), VmError>) -> bool {
        &&& post.heap() == pre.heap()
        &&& post.locations() == pre.locations()
        &&& post.index() == pre.index()
        &&& post.options() == pre.options()
        &&& post.uses_const() == pre.uses_const()
        &&& post.frames().len() == pre.frames().len()
        &&& match const_operand(pre.top()) {
                    Some(c) => {
                        &&& post.frames() == pre.frames_at(pre.top().ip + 1)
                        &&& post.stack() == pre.stack().drop_last()
                        &&& match name_operand(c) {
                            Ok(name) => if create_if_not_exists || pre.globals().contains_key(name) {
                                r is Ok && post.globals() == pre.globals().insert(name, pre.peek(0))
                            } else {
                                r matches Err(VmError::UndefinedGlobalError { identifier }) && identifier@ == name
                                    && post.globals() == pre.globals()
                            },
                            Err(t) => r matches Err(VmError::IllegalGlobalIdentifierError { target }) && target@ == t
                                && post.globals() == pre.globals(),
                        }
                    },
                    None => r is Err && post.stack() == pre.stack() && post.globals() == pre.globals(),
                }
    }

    /// Pops a value into the global that the constant operand names; the
    /// global must exist unless `create_if_not_exists`.
    pub fn op_set_global(&mut self, create_if_not_exists: bool) -> (r: Result<(), VmError>)
        requires
            old(self).frames().len() > 0,
            old(self).stack().len() > 0,
        ensures
            Self::op_set_global_effect(old(self), final(self), create_if_not_exists, r),
    {
        let identifier = self.frame_const("a global identifier")?;
        let value = self.stack.pop().unwrap();
        let name = match string_operand(&identifier) {
            Ok(name) => name,
            Err(target) => {
                return Err(VmError::IllegalGlobalIdentifierError { target });
            },
        };
        if create_if_not_exists || self.globals.contains_key(name.as_str()) {
            self.globals.insert(name, value);
            Ok(())
        } else {
            Err(VmError::UndefinedGlobalError { identifier: name })
        }
    }

    /// What `op_define_global` does: the machine before, the machine after and its result.
    pub open spec fn op_define_global_effect(pre: &Vm, post: &Vm, r: Result<(), VmError>) -> bool {
        &&& post.heap() == pre.heap()
        &&& post.locations() == pre.locations()
        &&& post.index() == pre.index()
        &&& post.options() == pre.options()
        &&& post.uses_const() == pre.uses_const()
        &&& post.frames().len() == pre.frames().len()
        &&& match const_operand(pre.top()) {
                    Some(c) => {
                        &&& post.frames() == pre.frames_at(pre.top().ip + 1)
                        &&& post.stack() == pre.stack().drop_last()
                        &&& match name_operand(c) {
                            Ok(name) => r is Ok && post.globals() == pre.globals().insert(name, pre.peek(0)),
                            Err(t) => r matches Err(VmError::IllegalGlobalIdentifierError { target }) && target@ == t
                                && post.globals() == pre.globals(),
                        }
                    },
                    None => r is Err && post.stack() == pre.stack() && post.globals() == pre.globals(),
                }
    }

    /// Pops a value into the global that the constant operand names,
    /// creating it where it does not exist.
    pub fn op_define_global(&mut self) -> (r: Result<(), VmError>)
        requires
            old(self).frames().len() > 0,
            old(self).stack().len() > 0,
        ensures
            Self::op_define_global_effect(old(self), final(self), r),
    {
        self.op_set_global(true)
    }

    /// What `op_index` does: the machine before, the machine after and its result.
    pub open spec fn op_index_effect(pre: &Vm, post: &Vm, r: Result<(), VmError>) -> bool {
        &&& post.same_but_stack(pre)
        &&& match integer_read(pre.stack().last(), pre.uses_const()) {
                    None => r matches Err(VmError::StackReadError { what, .. }) && what@ == "an array index"@
                        && post.stack() == pre.stack().drop_last(),
                    Some(i) => {
                        let base = pre.stack().drop_last().drop_last();
                        match pre.stack()[pre.stack().len() - 2] {
                            Slot::Object(h) => match h.obj() {
                                Object::Array(a) => if 0 <= i < a.elements@.len() {
                                    r is Ok && post.stack() == base.push(a.elements@[i as int])
                                } else {
                                    r == Err::<(), VmError>(
                                        VmError::ArrayOutOfBoundsError { index: i as usize, max: a.elements@.len() as usize },
                                    ) && post.stack() == base
                                },
                                o => r matches Err(VmError::IllegalIndexError { target }) && target@ == object_type(o)
                                    && post.stack() == base,
                            },
                            _ => r matches Err(VmError::StackReadError { what, .. }) && what@ == "an array handle"@
                                && post.stack() == base,
                        }
                    },
                }
    }

    /// Pops an index and an array, and pushes the array's element there.
    pub fn op_index(&mut self) -> (r: Result<(), VmError>)
        requires
            old(self).stack().len() >= 2,
        ensures
            Self::op_index_effect(old(self), final(self), r),
    {
        let index = match self.stack.pop_integer() {
            Ok(i) => i,
            Err(err) => {
                return Err(VmError::StackReadError { what: String::from_str("an array index"), err });
            },
        };
        let handle = match self.stack.pop_object() {
            Ok(h) => h,
            Err(err) => {
                return Err(VmError::StackReadError { what: String::from_str("an array handle"), err });
            },
        };
        match handle.get() {
            Object::Array(a) => {
                if 0 <= index && (index as u64) < (a.elements.len() as u64) {
                    let element = a.elements[index as usize].duplicate();
                    self.stack.push(element);
                    Ok(())
                } else {
                    assert(!(0 <= index < a.elements@.len()));
                    Err(VmError::ArrayOutOfBoundsError { index: index as usize, max: a.elements.len() })
                }
            },
            o => Err(VmError::IllegalIndexError { target: o.data_type() }),
        }
    }

    /// Reads a property of an object, popped from the stack, by the
    /// constant operand.
    fn read_property(&mut self, what: &str) -> (r: Result<(), VmError>)
        requires
            old(self).frames().len() > 0,
            old(self).stack().len() > 0,
        ensures
            final(self).same_but_stack_frames(old(self)),
            final(self).frames().len() == old(self).frames().len(),
            match old(self).peek(0) {
                Slot::Object(h) => match const_operand(old(self).top()) {
                    Some(p) => {
                        &&& final(self).frames() == old(self).frames_at(old(self).top().ip + 1)
                        &&& exists|res: Result<Slot, VmError>| {
                            &&& #[trigger] property_outcome(h, p, res)
                            &&& match res {
                                Ok(v) => r is Ok && final(self).stack() == old(self).stack().drop_last().push(v),
                                Err(e) => r == Err::<(), VmError>(e) && final(self).stack() == old(self).stack().drop_last(),
                            }
                        }
                    },
                    None => r is Err && final(self).stack() == old(self).stack().drop_last(),
                },
                s => r matches Err(VmError::IllegalDotError { target }) && target@ == slot_value_type(s)
                    && final(self).stack() == old(self).stack().drop_last() && final(self).frames() == old(self).frames(),
            },
    {
        let slot = self.stack.pop().unwrap();
        let object = match slot.as_object() {
            Some(h) => h,
            None => {
                return Err(VmError::IllegalDotError { target: slot.value_type() });
            },
        };
        let property = self.frame_const(what)?;
        let res = property_of(&object, &property);
        match res {
            Ok(v) => {
                self.stack.push(v);
                Ok(())
            },
            Err(e) => Err(e),
        }
    }

    /// What `op_dot` does: the machine before, the machine after and its result.
    pub open spec fn op_dot_effect(pre: &Vm, post: &Vm, r: Result<(), VmError>) -> bool {
        &&& post.same_but_stack_frames(pre)
        &&& post.frames().len() == pre.frames().len()
        &&& match pre.peek(0) {
                    Slot::Object(h) => match const_operand(pre.top()) {
                        Some(p) => {
                            &&& post.frames() == pre.frames_at(pre.top().ip + 1)
                            &&& exists|res: Result<Slot, VmError>| {
                                &&& #[trigger] property_outcome(h, p, res)
                                &&& match res {
                                    Ok(v) => r is Ok && post.stack() == pre.stack().drop_last().push(v),
                                    Err(e) => r == Err::<(), VmError>(e) && post.stack() == pre.stack().drop_last(),
                                }
                            }
                        },
                        None => r is Err && post.stack() == pre.stack().drop_last(),
                    },
                    s => r matches Err(VmError::IllegalDotError { target }) && target@ == slot_value_type(s)
                        && post.stack() == pre.stack().drop_last() && post.frames() == pre.frames(),
                }
    }

    /// Pops an instance and pushes the value of its property that the
    /// constant operand names.
    pub fn op_dot(&mut self) -> (r: Result<(), VmError>)
        requires
            old(self).frames().len() > 0,
            old(self).stack().len() > 0,
        ensures
            Self::op_dot_effect(old(self), final(self), r),
    {
        self.read_property("a property")
    }

    /// What `op_get_property` does: the machine before, the machine after and its result.
    pub open spec fn op_get_property_effect(pre: &Vm, post: &Vm, r: Result<(), VmError>) -> bool {
        &&& post.same_but_stack_frames(pre)
        &&& post.frames().len() == pre.frames().len()
        &&& match pre.peek(0) {
                    Slot::Object(h) => match const_operand(pre.top()) {
                        Some(p) => {
                            &&& post.frames() == pre.frames_at(pre.top().ip + 1)
                            &&& exists|res: Result<Slot, VmError>| {
                                &&& #[trigger] property_outcome(h, p, res)
                                &&& match res {
                                    Ok(v) => r is Ok && post.stack() == pre.stack().drop_last().push(v),
                                    Err(e) => r == Err::<(), VmError>(e) && post.stack() == pre.stack().drop_last(),
                                }
                            }
                        },
                        None => r is Err && post.stack() == pre.stack().drop_last(),
                    },
                    s => r matches Err(VmError::IllegalDotError { target }) && target@ == slot_value_type(s)
                        && post.stack() == pre.stack().drop_last() && post.frames() == pre.frames(),
                }
    }

    /// Pops an instance and pushes the value of its property that the
    /// constant operand names.
    pub fn op_get_property(&mut self) -> (r: Result<(), VmError>)
        requires
            old(self).frames().len() > 0,
            old(self).stack().len() > 0,
        ensures
            Self::op_get_property_effect(old(self), final(self), r),
    {
        self.read_property("an instance property")
    }

    /// What `op_get_method` does: the machine before, the machine after and its result.
    pub open spec fn op_get_method_effect(pre: &Vm, post: &Vm, r: Result<(), VmError>) -> bool {
        &&& post.same_but_stack_frames(pre)
        &&& post.frames().len() == pre.frames().len()
        &&& match pre.peek(0) {
                    Slot::Object(h) => match const_operand(pre.top()) {
                        Some(m) => {
                            &&& post.frames() == pre.frames_at(pre.top().ip + 1)
                            &&& exists|res: Result<Slot, VmError>| {
                                &&& #[trigger] method_outcome(h, m, res)
                                &&& match res {
                                    Ok(v) => r is Ok && post.stack() == pre.stack().drop_last().push(v).push(
                                        Slot::Object(h),
                                    ),
                                    Err(e) => r == Err::<(), VmError>(e) && post.stack() == pre.stack().drop_last(),
                                }
                            }
                        },
                        None => r is Err && post.stack() == pre.stack().drop_last(),
                    },
                    s => r matches Err(VmError::MethodDotError { target }) && target@ == slot_value_type(s)
                        && post.stack() == pre.stack().drop_last() && post.frames() == pre.frames(),
                }
    }

    /// Pops an instance and pushes the method that the constant operand
    /// names, then the instance again, ready for a call.
    pub fn op_get_method(&mut self) -> (r: Result<(), VmError>)
        requires
            old(self).frames().len() > 0,
            old(self).stack().len() > 0,
        ensures
            Self::op_get_method_effect(old(self), final(self), r),
    {
        let slot = self.stack.pop().unwrap();
        let object = match slot.as_object() {
            Some(h) => h,
            None => {
                return Err(VmError::MethodDotError { target: slot.value_type() });
            },
        };
        let method = self.frame_const("a method name")?;
        let res = method_of_object(&object, &method);
        match res {
            Ok(v) => {
                self.stack.push(v);
                self.stack.push(slot);
                Ok(())
            },
            Err(e) => Err(e),
        }
    }

    /// What `op_array` does: the machine before, the machine after and its result.
    pub open spec fn op_array_effect(pre: &Vm, post: &Vm, r: Result<(), VmError>) -> bool {
        &&& post.globals() == pre.globals()
        &&& post.locations() == pre.locations()
        &&& post.index() == pre.index()
        &&& post.options() == pre.options()
        &&& post.uses_const() == pre.uses_const()
        &&& post.wf()
        &&& post.frames().len() == pre.frames().len()
        &&& match byte_at(pre.top(), pre.top().ip as int) {
                    None => r is Err && post.stack() == pre.stack() && post.heap() == pre.heap(),
                    Some(n) => if n > pre.stack().len() {
                        &&& post.frames() == pre.frames_at(pre.top().ip + 1)
                        &&& r == Err::<(), VmError>(VmError::ArrayArityError { got: pre.stack().len() as u8, expected: n })
                        &&& post.stack().len() == 0
                        &&& post.heap() == pre.heap()
                    } else {
                        let s = pre.stack();
                        let elements = top_slots(s, n as nat, pre.uses_const());
                        let base = s.subrange(0, s.len() - n);
                        &&& post.frames() == pre.frames_at(pre.top().ip + 1)
                        &&& match common_type(elements) {
                            None => r matches Err(VmError::ObjectError { .. }) && post.stack() == base
                                && post.heap() == pre.heap(),
                            Some(t) => {
                                &&& pre.heap().objects().len() < pre.heap().max() ==> r is Ok
                                &&& match r {
                                    Ok(_) => {
                                        &&& post.stack().len() == base.len() + 1
                                        &&& post.stack().drop_last() == base
                                        &&& post.stack().last() matches Slot::Object(h)
                                            && h.obj() matches Object::Array(a) && a.elements@ == elements
                                            && a.element_type@ == t
                                            && heap_allocated(pre.heap(), post.heap(), h, h.obj())
                                    },
                                    Err(e) => e matches VmError::HeapAllocError { what, err } && what@ == "a new array"@
                                        && heap_full(pre.heap(), post.heap(), err) && post.stack() == base,
                                }
                            },
                        }
                    },
                }
    }

    /// Pops the number of slots that the operand byte gives and pushes an
    /// array of them, a new object on the heap; the slot that was deepest
    /// is the first element.
    pub fn op_array(&mut self) -> (r: Result<(), VmError>)
        requires
            old(self).wf(),
            old(self).frames().len() > 0,
        ensures
            Self::op_array_effect(old(self), final(self), r),
    {
        let n = self.frame_u8("the number of elements in an Array")?;
        if (n as usize) > self.stack.len() {
            let got = self.stack.len() as u8;
            self.stack.clear();
            return Err(VmError::ArrayArityError { got, expected: n });
        }
        let ghost s = self.stack();
        let ghost uc = self.uses_const();
        let ghost mid = *self;
        let mut popped: Vec<Slot> = Vec::new();
        let mut i: u8 = 0;
        while i < n
            invariant
                i <= n,
                n <= s.len(),
                self.uses_const() == uc,
                self.stack() == s.subrange(0, s.len() - i),
                popped@.len() == i,
                forall|j: int| 0 <= j < i ==> popped@[j] == read_slot(s[s.len() - 1 - j], uc),
                self.same_but_stack(&mid),
            decreases n - i,
        {
            let v = self.stack.pop().unwrap();
            popped.push(v);
            i = i + 1;
        }
        let mut elements: Vec<Slot> = Vec::new();
        let mut j: usize = popped.len();
        while j > 0
            invariant
                j <= popped@.len(),
                popped@.len() == n,
                elements@.len() == n - j,
                forall|k: int| 0 <= k < n - j ==> elements@[k] == popped@[n - 1 - k],
            decreases j,
        {
            j = j - 1;
            elements.push(popped[j].duplicate());
        }
        proof {
            assert(elements@ =~= top_slots(s, n as nat, uc));
        }
        let array = match Array::new(elements) {
            Ok(a) => a,
            Err(err) => {
                return Err(VmError::ObjectError { err });
            },
        };
        let h = self.alloc_object(Object::Array(array), "a new array")?;
        self.stack.push(Slot::Object(h));
        proof {
            assert(self.stack().drop_last() =~= s.subrange(0, s.len() - n));
        }
        Ok(())
    }

    /// What `op_new` does: the machine before, the machine after and its result.
    pub open spec fn op_new_effect(pre: &Vm, post: &Vm, r: Result<(), VmError>) -> bool {
        &&& post.globals() == pre.globals()
        &&& post.locations() == pre.locations()
        &&& post.index() == pre.index()
        &&& post.options() == pre.options()
        &&& post.uses_const() == pre.uses_const()
        &&& post.wf()
        &&& post.frames().len() == pre.frames().len()
        &&& match byte_at(pre.top(), pre.top().ip as int) {
                    None => r is Err && post.stack() == pre.stack() && post.heap() == pre.heap(),
                    Some(n) => {
                        &&& post.frames() == pre.frames_at(pre.top().ip + 1)
                        &&& match pre.stack().last() {
                            Slot::Object(hc) => match hc.obj() {
                                Object::Class(c) => {
                                    let (rest, scanned) = scan_properties(
                                        pre.stack().drop_last(),
                                        n as nat,
                                        Map::empty(),
                                        pre.uses_const(),
                                    )->Some_0;
                                    match scanned {
                                        Ok(m) => {
                                            &&& pre.heap().objects().len() < pre.heap().max() ==> r is Ok
                                            &&& match r {
                                                Ok(_) => {
                                                    &&& post.stack().len() == rest.len() + 1
                                                    &&& post.stack().drop_last() == rest
                                                    &&& post.stack().last() matches Slot::Object(h)
                                                        && h.obj() matches Object::Instance(inst) && inst.class() == hc
                                                        && pairs_map(inst.properties()) == m
                                                        && heap_allocated(pre.heap(), post.heap(), h, h.obj())
                                                },
                                                Err(e) => e matches VmError::HeapAllocError { what, err }
                                                    && what@ == "a new Instance of Class '"@ + c.name()@ + "'"@
                                                    && heap_full(pre.heap(), post.heap(), err)
                                                    && post.stack() == rest,
                                            }
                                        },
                                        Err(t) => r matches Err(VmError::IllegalPropertyError { target }) && target@ == t
                                            && post.stack() == rest && post.heap() == pre.heap(),
                                    }
                                },
                                o => r matches Err(VmError::IllegalNewError { target }) && target@ == object_type(o)
                                    && post.stack() == pre.stack().drop_last()
                                    && post.heap() == pre.heap(),
                            },
                            _ => r matches Err(VmError::StackReadError { what, .. }) && what@ == "a class"@
                                && post.stack() == pre.stack().drop_last()
                                && post.heap() == pre.heap(),
                        }
                    },
                }
    }

    /// Pops a class and the number of name and value pairs that the operand
    /// byte gives, and pushes an instance of the class with those
    /// properties, a new object on the heap.
    #[verifier::loop_isolation(false)]
    pub fn op_new(&mut self) -> (r: Result<(), VmError>)
        requires
            old(self).wf(),
            old(self).frames().len() > 0,
            byte_at(old(self).top(), old(self).top().ip as int) is Some ==> old(self).stack().len() > 0,
            match (byte_at(old(self).top(), old(self).top().ip as int), old(self).stack().last()) {
                (Some(n), Slot::Object(h)) => h.obj() is Class ==> scan_properties(
                    old(self).stack().drop_last(),
                    n as nat,
                    Map::empty(),
                    old(self).uses_const(),
                ) is Some,
                _ => true,
            },
        ensures
            Self::op_new_effect(old(self), final(self), r),
    {
        let n = self.frame_u8("the number of properties")?;
        let class_handle = match self.stack.pop_object() {
            Ok(h) => h,
            Err(err) => {
                return Err(VmError::StackReadError { what: String::from_str("a class"), err });
            },
        };
        let class_name = match class_handle.get() {
            Object::Class(c) => c.get_name().clone(),
            o => {
                return Err(VmError::IllegalNewError { target: o.data_type() });
            },
        };
        let ghost s = self.stack();
        let ghost uc = self.uses_const();
        let ghost mid = *self;
        let mut props = Globals::new();
        let mut i: u8 = 0;
        while i < n
            invariant
                i <= n,
                self.uses_const() == uc,
                self.same_but_stack(&mid),
                scan_properties(self.stack(), (n - i) as nat, props@, uc) == scan_properties(s, n as nat, Map::empty(), uc),
                scan_properties(s, n as nat, Map::empty(), uc) is Some,
            decreases n - i,
        {
            let key = self.stack.pop().unwrap();
            let kh = match key.as_object() {
                Some(h) => h,
                None => {
                    return Err(VmError::IllegalPropertyError { target: key.value_type() });
                },
            };
            let value = self.stack.pop().unwrap();
            let name = match kh.get() {
                Object::String(k) => k.clone(),
                o => {
                    return Err(VmError::IllegalPropertyError { target: o.data_type() });
                },
            };
            props.insert(name, value);
            i = i + 1;
        }
        let props = props.into_pairs();
        let instance = Instance::new(class_handle, props);
        let what = crate::objects::join3("a new Instance of Class '", class_name.as_str(), "'");
        let h = self.alloc_object(Object::Instance(instance), what.as_str())?;
        let ghost rest = self.stack();
        self.stack.push_object(h);
        proof {
            assert(self.stack().drop_last() =~= rest);
        }
        Ok(())
    }

    /// Pops `arity` slots and turns them into values, deepest first.
    fn pop_arguments(&mut self, arity: u8) -> (r: Vec<Value>)
        requires
            old(self).stack().len() >= arity,
            all_convertible(top_slots(old(self).stack(), arity as nat, old(self).uses_const())),
        ensures
            final(self).same_but_stack(old(self)),
            final(self).stack() == old(self).stack().subrange(0, old(self).stack().len() - arity),
            values_of(top_slots(old(self).stack(), arity as nat, old(self).uses_const()), r@),
    {
        let ghost s = self.stack();
        let ghost uc = self.uses_const();
        let mut popped: Vec<Value> = Vec::new();
        let mut i: u8 = 0;
        while i < arity
            invariant
                i <= arity,
                arity <= s.len(),
                self.uses_const() == uc,
                self.same_but_stack(old(self)),
                self.stack() == s.subrange(0, s.len() - i),
                all_convertible(top_slots(s, arity as nat, uc)),
                popped@.len() == i,
                forall|j: int| 0 <= j < i ==> slot_value(read_slot(s[s.len() - 1 - j], uc), #[trigger] popped@[j]),
            decreases arity - i,
        {
            let slot = self.stack.pop().unwrap();
            assert(top_slots(s, arity as nat, uc)[arity - 1 - i] == slot);
            popped.push(slot.into_value());
            i = i + 1;
        }
        let mut values: Vec<Value> = Vec::new();
        while popped.len() > 0
            invariant
                popped@.len() + values@.len() == arity,
                forall|j: int| 0 <= j < popped@.len() ==> slot_value(read_slot(s[s.len() - 1 - j], uc), #[trigger] popped@[j]),
                forall|k: int| 0 <= k < values@.len() ==> slot_value(read_slot(s[s.len() - arity + k], uc), #[trigger] values@[k]),
            decreases popped@.len(),
        {
            let ghost k = values@.len();
            let v = popped.pop().unwrap();
            values.push(v);
            assert(slot_value(read_slot(s[s.len() - arity + k], uc), values@[k as int]));
        }
        values
    }

    /// What `op_call` does: the machine before, the machine after and its result.
    pub open spec fn op_call_effect(pre: &Vm, post: &Vm, r: Result<CallStep, VmError>) -> bool {
        &&& post.same_but_stack_frames(pre)
        &&& match byte_at(pre.top(), pre.top().ip as int) {
                    None => r is Err && post.stack() == pre.stack() && post.frames().len() == pre.frames().len(),
                    Some(arity) => {
                        let s = pre.stack();
                        let first = s.len() - arity - 1;
                        let args = top_slots(s, arity as nat, pre.uses_const());
                        let frames = pre.frames_at(pre.top().ip + 1);
                        match s[first] {
                            Slot::BuiltIn(b) => {
                                &&& post.frames() == frames
                                &&& post.stack() == s.subrange(0, first + 1)
                                &&& exists|vals: Seq<Value>, prepared: Result<BuiltinRequest, BuiltinError>| {
                                    &&& values_of(args, vals)
                                    &&& #[trigger] builtin_prepared(b, vals, prepared)
                                    &&& match prepared {
                                        Ok(req) => r == Ok::<CallStep, VmError>(CallStep::Builtin(b, req)),
                                        Err(err) => r == Err::<CallStep, VmError>(VmError::BuiltinCallError { builtin: b, err }),
                                    }
                                }
                            },
                            Slot::Object(h) => match h.obj() {
                                Object::Function(_) => {
                                    &&& post.stack() == s
                                    &&& post.frames() == frames.push(
                                        CallFrame { function: h, ip: 0, stack_offset: if first > 1 { first as usize } else { 1 } },
                                    )
                                    &&& r == Ok::<CallStep, VmError>(CallStep::Entered(h))
                                },
                                Object::FunctionExt(f) => {
                                    &&& post.frames() == frames
                                    &&& post.stack() == s.subrange(0, first + 1)
                                    &&& r matches Ok(CallStep::External { function, arguments, location })
                                        && fext_same(f, function) && location_of(pre.locations(), location)
                                        && exists|vals: Seq<Value>| #[trigger] values_of(args, vals)
                                            && named_arguments(f.parameters@, vals, arguments@)
                                },
                                _ => false,
                            },
                            _ => false,
                        }
                    },
                }
    }

    /// Calls the function under the number of arguments that the operand
    /// byte gives: a program function gets a frame of its own, whose slots
    /// begin at the function's slot, or at 1 where the function lies at the
    /// bottom; a builtin's or external function's arguments are popped and
    /// handed to the caller with the function to perform.
    pub fn op_call(&mut self) -> (r: Result<CallStep, VmError>)
        requires
            old(self).frames().len() > 0,
            old(self).locations().len() > 0 ==> old(self).locations().last().obj() is String,
            byte_at(old(self).top(), old(self).top().ip as int) matches Some(arity) ==> call_ready(
                old(self).stack(),
                arity as nat,
                old(self).uses_const(),
            ),
        ensures
            Self::op_call_effect(old(self), final(self), r),
    {
        let arity = self.frame_u8("a function arity")?;
        let len = self.stack.len();
        let first = len - (arity as usize + 1);
        let location: Option<String> = match self.locations.last() {
            Some(h) => match h.get() {
                Object::String(st) => Some(st.clone()),
                _ => vstd::pervasive::unreached(),
            },
            None => None,
        };
        let function = self.stack.get(first).duplicate();
        match function {
            Slot::BuiltIn(b) => {
                let arguments = self.pop_arguments(arity);
                let ghost vals = arguments@;
                let prepared = prepare_call(b, arguments);
                match prepared {
                    Ok(req) => Ok(CallStep::Builtin(b, req)),
                    Err(err) => Err(VmError::BuiltinCallError { builtin: b, err }),
                }
            },
            Slot::Object(h) => match h.get() {
                Object::Function(_) => {
                    let offset = if first > 1 { first } else { 1 };
                    frames_push(&mut self.frames, CallFrame::new(h.share(), offset));
                    Ok(CallStep::Entered(h))
                },
                Object::FunctionExt(f) => {
                    let function = fext_copy(f);
                    let values = self.pop_arguments(arity);
                    let ghost vals = values@;
                    let mut arguments: Vec<(String, Value)> = Vec::new();
                    let mut values = values;
                    let mut rev: Vec<Value> = Vec::new();
                    while values.len() > 0
                        invariant
                            values@.len() + rev@.len() == vals.len(),
                            forall|k: int| 0 <= k < values@.len() ==> values@[k] == vals[k],
                            forall|k: int| 0 <= k < rev@.len() ==> rev@[k] == vals[vals.len() - 1 - k],
                        decreases values@.len(),
                    {
                        let v = values.pop().unwrap();
                        rev.push(v);
                    }
                    let mut i: usize = 0;
                    let n = if function.parameters.len() < rev.len() { function.parameters.len() } else { rev.len() };
                    while i < n
                        invariant
                            i <= n,
                            n <= function.parameters@.len(),
                            n <= vals.len(),
                            rev@.len() == vals.len() - i,
                            forall|k: int| 0 <= k < rev@.len() ==> rev@[k] == vals[vals.len() - 1 - k],
                            arguments@.len() == i,
                            forall|k: int| 0 <= k < i ==> (#[trigger] arguments@[k]).0@ == function.parameters@[k].name@
                                && arguments@[k].1 == vals[k],
                        decreases n - i,
                    {
                        let v = rev.pop().unwrap();
                        arguments.push((function.parameters[i].name.clone(), v));
                        i = i + 1;
                    }
                    Ok(CallStep::External { function, arguments, location })
                },
                _ => vstd::pervasive::unreached(),
            },
            _ => vstd::pervasive::unreached(),
        }
    }

    /// What `op_import` does: the machine before, the machine after and its result.
    pub open spec fn op_import_effect(pre: &Vm, post: &Vm, msgs_before: Seq<String>, msgs_after: Seq<String>, r: Result<(), VmError>) -> bool {
        &&& post.stack() == pre.stack()
        &&& post.locations() == pre.locations()
        &&& post.index() == pre.index()
        &&& post.options() == pre.options()
        &&& post.uses_const() == pre.uses_const()
        &&& post.frames().len() == pre.frames().len()
        &&& post.wf()
        &&& post.heap().max() == pre.heap().max()
        &&& forall|k: Seq<char>| #[trigger] pre.globals().contains_key(k) ==> post.globals().contains_key(k)
                    && post.globals()[k] == pre.globals()[k]
        &&& match const_operand(pre.top()) {
                    None => r is Err && post.globals() == pre.globals() && msgs_after == msgs_before,
                    Some(c) => {
                        &&& post.frames() == pre.frames_at(pre.top().ip + 1)
                        &&& match name_operand(c) {
                            Err(t) => r matches Err(VmError::IllegalImportError { target }) && target@ == t
                                && post.globals() == pre.globals() && msgs_after == msgs_before,
                            Ok(pn) => match package_named(pre.index().packages@, pn) {
                                None => r matches Err(VmError::UndefinedImportError { package }) && package@ == pn
                                    && post.globals() == pre.globals() && msgs_after == msgs_before,
                                Some(p) => {
                                    let names = function_names(p) + type_names(p);
                                    let room = pre.heap().objects().len() + names.len() < pre.heap().max();
                                    &&& (p.functions@.len() == 0 || p.digest is Some) && names_fresh(pre.globals(), names)
                                        && room ==> r is Ok
                                    &&& r is Ok ==> imported_globals(pre.globals(), p, post.globals())
                                        && messages_added(msgs_before, msgs_after, import_messages(p))
                                    &&& r matches Err(e) ==> import_error(p, pre.globals(), room, e) && (msgs_after
                                        == msgs_before || messages_added(msgs_before, msgs_after, seq![functions_message(p)]))
                                },
                            },
                        }
                    },
                }
    }

    /// Imports the package that the constant operand names: each of its
    /// functions becomes a global external function and each of its types
    /// a global class without methods. The messages for the client are
    /// added to `messages`.
    #[verifier::rlimit(50)]
    #[verifier::loop_isolation(false)]
    pub fn op_import(&mut self, messages: &mut Vec<String>) -> (r: Result<(), VmError>)
        requires
            old(self).wf(),
            old(self).frames().len() > 0,
        ensures
            Self::op_import_effect(old(self), final(self), old(messages)@, final(messages)@, r),
    {
        let name_slot = self.frame_const("a package identifier")?;
        let pn = match string_operand(&name_slot) {
            Ok(n) => n,
            Err(target) => {
                return Err(VmError::IllegalImportError { target });
            },
        };
        let package = match self.package_index.get(&pn) {
            Some(p) => p,
            None => {
                proof {
                    lemma_package_named_none(self.package_index.packages@, pn@);
                }
                return Err(VmError::UndefinedImportError { package: pn });
            },
        };
        proof {
            lemma_package_named_some(self.package_index.packages@, pn@, *package);
        }
        let ghost p = *package;
        let ghost mid = *self;
        let ghost g0 = self.globals@;
        let ghost h0 = self.heap.objects().len();
        let ghost fnames = function_names(p);
        let ghost tnames = type_names(p);
        let ghost m0 = messages@;
        let mut i: usize = 0;
        while i < package.functions.len()
            invariant
                i <= p.functions@.len(),
                *package == p,
                p.name@ == pn@,
                fnames == function_names(p),
                tnames == type_names(p),
                self.heap.wf(),
                self.heap.max() == old(self).heap().max(),
                self.heap.objects().len() <= h0 + i,
                h0 == old(self).heap().objects().len(),
                g0 == old(self).globals(),
                i > 0 ==> p.digest is Some,
                self.same_but_heap_globals(&mid),
                forall|k: Seq<char>| #[trigger] self.globals@.contains_key(k) <==> g0.contains_key(k) || exists|j: int|
                    0 <= j < i && fnames[j] == k,
                forall|k: Seq<char>| #[trigger] g0.contains_key(k) ==> self.globals@[k] == g0[k],
                forall|k: int| 0 <= k < i ==> function_slot(p, k, #[trigger] self.globals@[fnames[k]]),
                names_fresh(g0, fnames.subrange(0, i as int)),
            decreases p.functions@.len() - i,
        {
            let digest = match &package.digest {
                Some(d) => d.clone(),
                None => {
                    return Err(VmError::PackageWithoutDigest { package: pn.clone(), function: package.functions[i].0.clone() });
                },
            };
            let fname = &package.functions[i].0;
            let fe = FunctionExt {
                name: fname.clone(),
                detached: package.detached,
                digest,
                package: pn.clone(),
                kind: package.kind.clone(),
                version: package.version.clone(),
                parameters: copy_parameters(&package.functions[i].1),
            };
            let h = match self.heap.allocate(Object::FunctionExt(fe)) {
                Ok(h) => h,
                Err(err) => {
                    return Err(VmError::HeapAllocError { what: String::from_str("an external function call"), err });
                },
            };
            if self.globals.contains_key(fname.as_str()) {
                proof {
                    assert(fnames[i as int] == fname@);
                    assert((fnames + tnames)[i as int] == fname@);
                    assert((fnames + tnames).subrange(0, i as int) =~= fnames.subrange(0, i as int));
                    if !g0.contains_key(fname@) {
                        let j = choose|j: int| 0 <= j < i && fnames[j] == fname@;
                        assert((fnames + tnames)[j] == fname@);
                    }
                }
                return Err(VmError::DuplicateFunctionImport { package: pn.clone(), function: fname.clone() });
            }
            let ghost before = self.globals@;
            self.globals.insert(fname.clone(), Slot::Object(h));
            proof {
                assert(fnames[i as int] == fname@);
                assert forall|k: int| 0 <= k < i + 1 implies function_slot(p, k, #[trigger] self.globals@[fnames[k]]) by {
                    if k < i {
                        assert(fnames[k] != fname@);
                    }
                }
                assert(fnames.subrange(0, i + 1).drop_last() =~= fnames.subrange(0, i as int));
                assert forall|a: int| 0 <= a < i + 1 implies !g0.contains_key(#[trigger] fnames.subrange(0, i + 1)[a]) by {
                    if a < i {
                        assert(fnames.subrange(0, i + 1)[a] == fnames.subrange(0, i as int)[a]);
                    }
                }
                let next = fnames.subrange(0, i + 1);
                assert forall|a: int, b: int| 0 <= a < b < i + 1 implies #[trigger] next[a] != #[trigger] next[b] by {
                    if b < i {
                        assert(fnames.subrange(0, i + 1)[a] == fnames.subrange(0, i as int)[a]);
                        assert(fnames.subrange(0, i + 1)[b] == fnames.subrange(0, i as int)[b]);
                    }
                }
            }
            i = i + 1;
        }
        proof {
            assert(fnames + tnames.subrange(0, 0) =~= fnames.subrange(0, i as int));
        }
        messages.push(functions_message_string(package));
        let ghost m1 = messages@;
        let mut t: usize = 0;
        while t < package.types.len()
            invariant
                t <= p.types@.len(),
                *package == p,
                p.name@ == pn@,
                fnames == function_names(p),
                tnames == type_names(p),
                messages@ == m1,
                messages_added(m0, m1, seq![functions_message(p)]),
                self.same_but_heap_globals(&mid),
                self.heap.wf(),
                self.heap.max() == old(self).heap().max(),
                self.heap.objects().len() <= h0 + fnames.len() + t,
                h0 == old(self).heap().objects().len(),
                g0 == old(self).globals(),
                p.functions@.len() == 0 || p.digest is Some,
                forall|k: Seq<char>| #[trigger] self.globals@.contains_key(k) <==> g0.contains_key(k) || fnames.contains(k)
                    || exists|j: int| 0 <= j < t && tnames[j] == k,
                forall|k: Seq<char>| #[trigger] g0.contains_key(k) ==> self.globals@[k] == g0[k],
                forall|k: int| 0 <= k < fnames.len() ==> function_slot(p, k, #[trigger] self.globals@[fnames[k]]),
                forall|k: int| 0 <= k < t ==> type_slot(tnames[k], #[trigger] self.globals@[tnames[k]]),
                names_fresh(g0, fnames + tnames.subrange(0, t as int)),
            decreases p.types@.len() - t,
        {
            let tname = &package.types[t];
            let what = crate::objects::join3("Class '", tname.as_str(), "'");
            let class = Class::new(tname.clone(), Vec::new());
            let h = match self.heap.allocate(Object::Class(class)) {
                Ok(h) => h,
                Err(err) => {
                    return Err(VmError::HeapAllocError { what, err });
                },
            };
            if self.globals.contains_key(tname.as_str()) {
                proof {
                    let all = fnames + tnames;
                    let at = fnames.len() + t;
                    assert(tnames[t as int] == tname@);
                    assert(all[at] == tname@);
                    assert(all.subrange(0, at as int) =~= fnames + tnames.subrange(0, t as int));
                    if !g0.contains_key(tname@) {
                        if fnames.contains(tname@) {
                            let j = choose|j: int| 0 <= j < fnames.len() && fnames[j] == tname@;
                            assert(all[j] == tname@);
                        } else {
                            let j = choose|j: int| 0 <= j < t && tnames[j] == tname@;
                            assert(all[fnames.len() + j] == tname@);
                        }
                    }
                }
                return Err(VmError::DuplicateTypeImport { package: pn.clone(), type_ident: tname.clone() });
            }
            self.globals.insert(tname.clone(), Slot::Object(h));
            proof {
                assert(tnames[t as int] == tname@);
                assert forall|k: int| 0 <= k < fnames.len() implies function_slot(p, k, #[trigger] self.globals@[fnames[k]]) by {
                    assert(fnames.contains(fnames[k]));
                    assert(fnames[k] != tname@);
                }
                assert forall|k: int| 0 <= k < t + 1 implies type_slot(tnames[k], #[trigger] self.globals@[tnames[k]]) by {
                    if k < t {
                        assert(tnames[k] != tname@);
                    }
                }
                let prev = fnames + tnames.subrange(0, t as int);
                let next = fnames + tnames.subrange(0, t + 1);
                assert(next.drop_last() =~= prev);
                assert forall|a: int| 0 <= a < next.len() implies !g0.contains_key(#[trigger] next[a]) by {
                    if a < next.len() - 1 {
                        assert(next[a] == prev[a]);
                    }
                }
                assert forall|a: int, b: int| 0 <= a < b < next.len() implies #[trigger] next[a] != #[trigger] next[b] by {
                    assert(next[a] == prev[a]);
                    if b < next.len() - 1 {
                        assert(next[b] == prev[b]);
                    } else if a < fnames.len() {
                        assert(fnames.contains(next[a]));
                    } else {
                        assert(tnames[a - fnames.len()] == next[a]);
                    }
                }
            }
            t = t + 1;
        }
        messages.push(types_message_string(package));
        let mut last = String::from_str("Imported package '");
        last.append(pn.as_str());
        last.append("' successfully");
        messages.push(last);
        proof {
            assert(tnames.subrange(0, t as int) =~= tnames);
        }
        Ok(())
    }

    /// Ends a builtin or external call: the function's slot, on top, makes
    /// way for the slot of the value the call returned.
    pub fn complete_call(&mut self, value: Value) -> (r: Result<(), VmError>)
        requires
            old(self).wf(),
            old(self).stack().len() > 0,
            value_loadable(value, old(self).globals()),
        ensures
            final(self).same_but_stack_heap(old(self)),
            final(self).wf(),
            final(self).heap().max() == old(self).heap().max(),
            match r {
                Ok(_) => final(self).stack().len() == old(self).stack().len() && final(self).stack().drop_last()
                    == old(self).stack().drop_last() && value_loaded(value, old(self).globals(), final(self).stack().last()),
                Err(e) => e matches VmError::SlotCreateError { what, .. } && what@ == "the result of a function call"@
                    && final(self).stack() == old(self).stack().drop_last(),
            },
    {
        let _ = self.stack.pop();
        match crate::convert::value_to_slot(&value, &self.globals, &mut self.heap) {
            Ok(slot) => {
                self.stack.push(slot);
                Ok(())
            },
            Err(err) => Err(VmError::SlotCreateError { what: String::from_str("the result of a function call"), err }),
        }
    }

    /// Returns whether a value can be put in a slot on this machine, as
    /// `complete_call` and `complete_parallel` need: every struct in it is
    /// of a class that a global holds.
    pub fn can_load(&self, value: &Value) -> (r: bool)
        ensures
            r == value_loadable(*value, self.globals()),
    {
        crate::convert::check_loadable(value, &self.globals)
    }

    /// Returns whether every global turns into a value, as `capture_state`
    /// needs: no global holds a program function but as a method of a
    /// class.
    pub fn can_capture(&self) -> (r: bool)
        ensures
            r == forall|k: Seq<char>| #[trigger] self.globals().contains_key(k) ==> slot_convertible(self.globals()[k]),
    {
        let pairs = self.globals.pairs();
        let mut i: usize = 0;
        while i < pairs.len()
            invariant
                pairs_map(pairs@) == self.globals(),
                unique_keys(pairs@),
                i <= pairs@.len(),
                forall|j: int| 0 <= j < i ==> slot_convertible(#[trigger] pairs@[j].1),
            decreases pairs@.len() - i,
        {
            if !crate::convert::check_convertible(&pairs[i].1) {
                proof {
                    crate::globals::lemma_pairs_map_index(pairs@, i as int);
                }
                return false;
            }
            i = i + 1;
        }
        proof {
            assert forall|k: Seq<char>| #[trigger] self.globals().contains_key(k) implies slot_convertible(self.globals()[k]) by {
                crate::globals::lemma_pairs_map_dom(pairs@, k);
                let j = choose|j: int| 0 <= j < pairs@.len() && pairs@[j].0@ == k;
                crate::globals::lemma_pairs_map_index(pairs@, j);
            }
        }
        true
    }

    /// Pushes the result of real-number work that an instruction handed
    /// to the caller: a real, given as its bit pattern, for arithmetic.
    pub fn complete_real(&mut self, bits: u64)
        ensures
            final(self).same_but_stack(old(self)),
            final(self).stack() == old(self).stack().push(Slot::Real(bits)),
    {
        self.stack.push_real(bits);
    }

    /// Pushes the result of a comparison that an instruction handed to the
    /// caller.
    pub fn complete_comparison(&mut self, b: bool)
        ensures
            final(self).same_but_stack(old(self)),
            final(self).stack() == old(self).stack().push(boolean_slot(b)),
    {
        self.stack.push_boolean(b);
    }

    /// What `op_parallel` does: the machine before, the machine after and its result.
    pub open spec fn op_parallel_effect(pre: &Vm, post: &Vm, r: Result<Vec<FunctionMut>, VmError>) -> bool {
        &&& post.same_but_stack_frames(pre)
        &&& post.frames().len() == pre.frames().len()
        &&& match byte_at(pre.top(), pre.top().ip as int) {
                    None => r is Err && post.stack() == pre.stack(),
                    Some(n) => {
                        &&& post.frames() == pre.frames_at(pre.top().ip + 1)
                        &&& post.stack() == pre.stack().subrange(0, pre.stack().len() - n)
                        &&& r matches Ok(branches) && branches@.len() == n && forall|i: int| 0 <= i < n
                            ==> branch_taken(#[trigger] pre.stack()[pre.stack().len() - 1 - i], branches@[i])
                    },
                }
    }

    /// Pops the number of function handles that the operand byte gives and
    /// returns the functions, taken apart, top first: the branches to run
    /// side by side, each in a machine of its own.
    pub fn op_parallel(&mut self) -> (r: Result<Vec<FunctionMut>, VmError>)
        requires
            old(self).frames().len() > 0,
            byte_at(old(self).top(), old(self).top().ip as int) matches Some(n) ==> n <= old(self).stack().len()
                && forall|i: int| 0 <= i < n ==> branch_slot(#[trigger] old(self).stack()[old(self).stack().len() - 1 - i]),
        ensures
            Self::op_parallel_effect(old(self), final(self), r),
    {
        let n = self.frame_u8("the number of parallel branches")?;
        let ghost s = self.stack();
        let ghost mid = *self;
        let mut branches: Vec<FunctionMut> = Vec::new();
        let mut i: u8 = 0;
        while i < n
            invariant
                i <= n,
                n <= s.len(),
                forall|j: int| 0 <= j < n ==> branch_slot(#[trigger] s[s.len() - 1 - j]),
                self.same_but_stack(&mid),
                self.stack() == s.subrange(0, s.len() - i),
                branches@.len() == i,
                forall|j: int| 0 <= j < i ==> branch_taken(#[trigger] s[s.len() - 1 - j], branches@[j]),
            decreases n - i,
        {
            assert(branch_slot(s[s.len() - 1 - i]));
            let h = match self.stack.pop_object() {
                Ok(h) => h,
                Err(_) => vstd::pervasive::unreached(),
            };
            match h.get() {
                Object::Function(f) => {
                    branches.push(f.unfreeze_copy());
                },
                _ => vstd::pervasive::unreached(),
            }
            i = i + 1;
        }
        Ok(branches)
    }

    /// Ends a `PARALLEL`: pushes an array of the branches' results, a new
    /// object on the heap.
    pub fn complete_parallel(&mut self, results: Vec<Value>) -> (r: Result<(), VmError>)
        requires
            old(self).wf(),
            forall|i: int| 0 <= i < results@.len() ==> value_loadable(#[trigger] results@[i], old(self).globals()),
        ensures
            final(self).same_but_stack_heap(old(self)),
            final(self).wf(),
            final(self).heap().max() == old(self).heap().max(),
            match r {
                Ok(_) => {
                    &&& final(self).stack().len() == old(self).stack().len() + 1
                    &&& final(self).stack().drop_last() == old(self).stack()
                    &&& results_array(final(self).stack().last(), results@, old(self).globals())
                },
                Err(e) => final(self).stack() == old(self).stack() && parallel_error(e),
            },
    {
        let mut slots: Vec<Slot> = Vec::new();
        let mut i: usize = 0;
        while i < results.len()
            invariant
                i <= results@.len(),
                self.heap.wf(),
                self.heap.max() == old(self).heap().max(),
                self.globals@ == old(self).globals(),
                self.same_but_stack_heap(old(self)),
                self.stack() == old(self).stack(),
                forall|j: int| 0 <= j < results@.len() ==> value_loadable(#[trigger] results@[j], old(self).globals()),
                slots@.len() == i,
                forall|j: int| 0 <= j < i ==> value_loaded(#[trigger] results@[j], old(self).globals(), slots@[j]),
            decreases results@.len() - i,
        {
            match crate::convert::value_to_slot(&results[i], &self.globals, &mut self.heap) {
                Ok(slot) => {
                    slots.push(slot);
                },
                Err(err) => {
                    let mut results = results;
                    let result = results.swap_remove(i);
                    return Err(VmError::BranchResultError { result, err });
                },
            }
            i = i + 1;
        }
        let array = match Array::new(slots) {
            Ok(a) => a,
            Err(err) => {
                return Err(VmError::ArrayTypeError { err });
            },
        };
        let h = self.alloc_object(Object::Array(array), "an Array with parallel branch results")?;
        self.stack.push_object(h);
        Ok(())
    }

    /// Makes a machine of its parts and registers the builtins in its
    /// globals.
    pub fn new(
        frames: Frames,
        globals: Globals,
        heap: Heap<Object>,
        locations: Vec<Handle<Object>>,
        package_index: PackageIndex,
        options: VmOptions,
        stack: Stack,
    ) -> (r: Result<Vm, VmError>)
        requires
            heap.wf(),
        ensures
            heap.objects().len() < heap.max() ==> r is Ok,
            match r {
                Ok(vm) => {
                    &&& vm.frames() == frames_view(frames)
                    &&& registered(globals@, vm.globals())
                    &&& vm.wf()
                    &&& vm.heap().max() == heap.max()
                    &&& vm.locations() == locations@
                    &&& vm.index() == package_index
                    &&& vm.options() == options
                    &&& vm.stack() == stack@
                    &&& vm.uses_const() == stack.uses_const()
                },
                Err(e) => e matches VmError::HeapAllocError { what, .. } && what@ == "the Service class"@,
            },
    {
        let mut globals = globals;
        let mut heap = heap;
        register(&mut globals, &mut heap)?;
        Ok(Vm { frames, globals, heap, locations, package_index, options, stack })
    }

    /// Makes a machine with the globals of the state, and its options.
    pub fn new_with_state(package_index: Option<PackageIndex>, state: VmState) -> (r: Result<Vm, VmError>)
        requires
            state_loadable(state.globals@),
        ensures
            match r {
                Ok(vm) => {
                    &&& vm.frames().len() == 0
                    &&& vm.stack().len() == 0
                    &&& vm.uses_const()
                    &&& vm.locations().len() == 0
                    &&& vm.options() == state.options
                    &&& vm.wf()
                    &&& vm.heap().max() == crate::heap::DEFAULT_HEAP_SIZE
                    &&& match package_index {
                        Some(i) => vm.index() == i,
                        None => vm.index().packages@.len() == 0,
                    }
                    &&& exists|g: Map<Seq<char>, Slot>| state_loaded(state.globals@, g) && #[trigger] registered(g, vm.globals())
                },
                Err(e) => {
                    ||| e matches VmError::SlotCreateError { what, .. } && what@ == "a global"@
                    ||| e matches VmError::HeapAllocError { what, .. } && what@ == "the Service class"@
                },
            },
    {
        let package_index = match package_index {
            Some(i) => i,
            None => PackageIndex::default(),
        };
        let mut heap: Heap<Object> = Heap::default();
        let globals = state.get_globals(&mut heap)?;
        let ghost g = globals@;
        let r = Vm::new(frames_new(), globals, heap, Vec::new(), package_index, state.options, Stack::default());
        r
    }

    /// Makes a machine with no globals but the builtins, with the given
    /// package index and options, or the empty index and the default
    /// options.
    pub fn new_with(package_index: Option<PackageIndex>, options: Option<VmOptions>) -> (r: Result<Vm, VmError>)
        ensures
            r matches Ok(vm) && vm.frames().len() == 0 && vm.stack().len() == 0 && vm.uses_const()
                && vm.locations().len() == 0 && vm.wf() && registered(Map::empty(), vm.globals())
                && vm.options() == (match options {
                Some(o) => o,
                None => VmOptions { clear_after_main: false, global_return_halts: false },
            }) && match package_index {
                Some(i) => vm.index() == i,
                None => vm.index().packages@.len() == 0,
            },
    {
        let options = match options {
            Some(o) => o,
            None => VmOptions::default(),
        };
        let package_index = match package_index {
            Some(i) => i,
            None => PackageIndex::default(),
        };
        let heap: Heap<Object> = Heap::default();
        Vm::new(frames_new(), Globals::new(), heap, Vec::new(), package_index, options, Stack::default())
    }

    /// The globals as values, with the options: the state for the machines
    /// of parallel branches.
    pub fn capture_state(&self) -> (r: VmState)
        requires
            forall|k: Seq<char>| #[trigger] self.globals().contains_key(k) ==> slot_convertible(self.globals()[k]),
        ensures
            r.options == self.options(),
            unique_keys(r.globals@),
            forall|k: Seq<char>| #[trigger] self.globals().contains_key(k) <==> exists|i: int|
                0 <= i < r.globals@.len() && r.globals@[i].0@ == k,
            forall|i: int| 0 <= i < r.globals@.len() ==> slot_value(self.globals()[(#[trigger] r.globals@[i]).0@], r.globals@[i].1),
    {
        let pairs = self.globals.pairs();
        let mut out: Vec<(String, Value)> = Vec::new();
        let mut i: usize = 0;
        while i < pairs.len()
            invariant
                i <= pairs@.len(),
                crate::globals::pairs_map(pairs@) == self.globals(),
                unique_keys(pairs@),
                forall|k: Seq<char>| #[trigger] self.globals().contains_key(k) ==> slot_convertible(self.globals()[k]),
                out@.len() == i,
                forall|j: int| 0 <= j < i ==> (#[trigger] out@[j]).0@ == pairs@[j].0@ && slot_value(pairs@[j].1, out@[j].1),
            decreases pairs@.len() - i,
        {
            proof {
                crate::globals::lemma_pairs_map_index(pairs@, i as int);
            }
            let v = pairs[i].1.duplicate().into_value();
            out.push((pairs[i].0.clone(), v));
            i = i + 1;
        }
        proof {
            assert forall|a: int, b: int| 0 <= a < b < out@.len() implies out@[a].0@ != out@[b].0@ by {
                assert(pairs@[a].0@ != pairs@[b].0@);
            }
            assert forall|k: Seq<char>| #[trigger] self.globals().contains_key(k) <==> exists|j: int|
                0 <= j < out@.len() && out@[j].0@ == k by {
                crate::globals::lemma_pairs_map_dom(pairs@, k);
                if self.globals().contains_key(k) {
                    let j = choose|j: int| 0 <= j < pairs@.len() && pairs@[j].0@ == k;
                    assert(out@[j].0@ == k);
                }
            }
            assert forall|j: int| 0 <= j < out@.len() implies slot_value(self.globals()[(#[trigger] out@[j]).0@], out@[j].1) by {
                crate::globals::lemma_pairs_map_index(pairs@, j);
            }
        }
        VmState { globals: out, options: self.options }
    }

    /// Puts the function on the heap and enters it as the outermost frame,
    /// whose slots begin at 1, over the function's own slot; returns the
    /// handle to it.
    fn begin(&mut self, function: FunctionMut) -> (r: Result<Handle<Object>, VmError>)
        requires
            old(self).wf(),
            old(self).frames().len() == 0,
            old(self).stack().len() == 0,
            crate::convert::constants_freezable(function.chunk.constants@),
        ensures
            final(self).globals() == old(self).globals(),
            final(self).locations() == old(self).locations(),
            final(self).index() == old(self).index(),
            final(self).options() == old(self).options(),
            final(self).uses_const() == old(self).uses_const(),
            final(self).wf(),
            final(self).heap().max() == old(self).heap().max(),
            old(self).room_for(function.chunk.constants@) ==> r is Ok,
            match r {
                Ok(h) => {
                    &&& crate::convert::function_frozen(
                        function.name@,
                        function.arity,
                        function.chunk.code_view(),
                        function.chunk.constants@,
                        h.obj(),
                    )
                    &&& final(self).stack() == seq![Slot::Object(h)]
                    &&& final(self).frames() == seq![CallFrame { function: h, ip: 0, stack_offset: 1 }]
                },
                Err(e) => {
                    &&& final(self).frames().len() == 0
                    &&& final(self).stack().len() == 0
                    &&& {
                        ||| e matches VmError::HeapFreezeError { what, .. } && what@ == "the main function"@
                        ||| e matches VmError::HeapAllocError { what, .. } && what@ == "the main function"@
                    }
                },
            },
    {
        let f = match function.freeze(&mut self.heap) {
            Ok(f) => f,
            Err(err) => {
                return Err(VmError::HeapFreezeError { what: String::from_str("the main function"), err });
            },
        };
        let ghost fo = Object::Function(f);
        let h = match self.heap.allocate(Object::Function(f)) {
            Ok(h) => h,
            Err(err) => {
                return Err(VmError::HeapAllocError { what: String::from_str("the main function"), err });
            },
        };
        self.stack.push_object(h.share());
        frames_push(&mut self.frames, CallFrame::new(h.share(), 1));
        proof {
            assert(self.stack() =~= seq![Slot::Object(h)]);
            assert(self.frames() =~= seq![CallFrame { function: h, ip: 0, stack_offset: 1 }]);
        }
        Ok(h)
    }

    /// Starts the program's main function: it goes on the heap and becomes
    /// the outermost frame; `step` then runs it.
    pub fn begin_main(&mut self, function: FunctionMut) -> (r: Result<Handle<Object>, VmError>)
        requires
            old(self).wf(),
            old(self).frames().len() == 0,
            old(self).stack().len() == 0,
            crate::convert::constants_freezable(function.chunk.constants@),
        ensures
            final(self).globals() == old(self).globals(),
            final(self).locations() == old(self).locations(),
            final(self).index() == old(self).index(),
            final(self).options() == old(self).options(),
            final(self).uses_const() == old(self).uses_const(),
            final(self).wf(),
            old(self).room_for(function.chunk.constants@) ==> r is Ok,
            match r {
                Ok(h) => {
                    &&& crate::convert::function_frozen(
                        function.name@,
                        function.arity,
                        function.chunk.code_view(),
                        function.chunk.constants@,
                        h.obj(),
                    )
                    &&& final(self).stack() == seq![Slot::Object(h)]
                    &&& final(self).frames() == seq![CallFrame { function: h, ip: 0, stack_offset: 1 }]
                },
                Err(e) => {
                    &&& final(self).frames().len() == 0
                    &&& final(self).stack().len() == 0
                    &&& {
                        ||| e matches VmError::HeapFreezeError { what, .. } && what@ == "the main function"@
                        ||| e matches VmError::HeapAllocError { what, .. } && what@ == "the main function"@
                    }
                },
            },
    {
        self.begin(function)
    }

    /// Starts a nullary function whose value is wanted: a return from its
    /// outermost frame stops the machine.
    pub fn begin_anonymous(&mut self, function: FunctionMut) -> (r: Result<Handle<Object>, VmError>)
        requires
            old(self).wf(),
            old(self).frames().len() == 0,
            old(self).stack().len() == 0,
            function.arity == 0,
            crate::convert::constants_freezable(function.chunk.constants@),
        ensures
            final(self).globals() == old(self).globals(),
            final(self).locations() == old(self).locations(),
            final(self).index() == old(self).index(),
            final(self).options() == (VmOptions { global_return_halts: true, ..old(self).options() }),
            final(self).uses_const() == old(self).uses_const(),
            final(self).wf(),
            old(self).room_for(function.chunk.constants@) ==> r is Ok,
            match r {
                Ok(h) => {
                    &&& crate::convert::function_frozen(
                        function.name@,
                        function.arity,
                        function.chunk.code_view(),
                        function.chunk.constants@,
                        h.obj(),
                    )
                    &&& final(self).stack() == seq![Slot::Object(h)]
                    &&& final(self).frames() == seq![CallFrame { function: h, ip: 0, stack_offset: 1 }]
                },
                Err(e) => {
                    &&& final(self).frames().len() == 0
                    &&& final(self).stack().len() == 0
                    &&& {
                        ||| e matches VmError::HeapFreezeError { what, .. } && what@ == "the main function"@
                        ||| e matches VmError::HeapAllocError { what, .. } && what@ == "the main function"@
                    }
                },
            },
    {
        self.options.global_return_halts = true;
        self.begin(function)
    }

    /// After the main function ran: where the options say so, drops its
    /// frame and the slot on top of the stack.
    pub fn finish_main(&mut self)
        requires
            old(self).options().clear_after_main ==> old(self).stack().len() > 0,
        ensures
            final(self).same_but_stack_frames(old(self)),
            old(self).options().clear_after_main ==> final(self).stack() == old(self).stack().drop_last()
                && final(self).frames() == (if old(self).frames().len() > 0 {
                old(self).frames().drop_last()
            } else {
                old(self).frames()
            }),
            !old(self).options().clear_after_main ==> final(self).stack() == old(self).stack() && final(self).frames()
                == old(self).frames(),
    {
        if self.options.clear_after_main {
            let _ = frames_pop(&mut self.frames);
            let _ = self.stack.pop();
        }
    }

    /// The value an anonymous function left: the one slot on the stack,
    /// or the unit value where there is not exactly one.
    pub fn anonymous_result(&mut self) -> (r: Value)
        requires
            old(self).stack().len() == 1 ==> slot_convertible(old(self).peek(0)),
        ensures
            final(self).same_but_stack(old(self)),
            old(self).stack().len() == 1 ==> slot_value(old(self).peek(0), r) && final(self).stack().len() == 0,
            old(self).stack().len() != 1 ==> r is Unit && final(self).stack() == old(self).stack(),
    {
        if self.stack.len() == 1 {
            self.stack.pop().unwrap().into_value()
        } else {
            Value::Unit
        }
    }

    /// The innermost frame just past the byte at its instruction pointer.
    pub open spec fn next_frame(&self) -> CallFrame {
        CallFrame { function: self.top().function, ip: (self.top().ip + 1) as usize, stack_offset: self.top().stack_offset }
    }

    /// Runs the instruction at the innermost frame's instruction pointer.
    ///
    /// Past the end of the code the run is finished; a byte that encodes no
    /// instruction is an error.
    #[verifier::rlimit(60)]
    pub fn step(&mut self) -> (r: Result<Step, VmError>)
        requires
            old(self).wf(),
            old(self).frames().len() > 0,
            old(self).top().ip < usize::MAX,
            match byte_at(old(self).top(), old(self).top().ip as int) {
                Some(b) => match opcode_of_byte(b) {
                    Some(op) => ready(op, old(self).next_frame(), old(self).stack(), old(self).uses_const(), old(self).locations()),
                    None => true,
                },
                None => true,
            },
        ensures
            final(self).wf(),
            match byte_at(old(self).top(), old(self).top().ip as int) {
                None => {
                    &&& frame_code(old(self).top()) is Some ==> r == Ok::<Step, VmError>(Step::Finished)
                    &&& frame_code(old(self).top()) is None ==> r is Err
                    &&& final(self).stack() == old(self).stack()
                },
                Some(b) => match opcode_of_byte(b) {
                    None => r == Err::<Step, VmError>(VmError::UndefinedOpcodeError { opcode: b }),
                    Some(op) => step_kind(op, r) && exists|mid: Vm|
                        #[trigger] mid.fetched_from(old(self)) && step_effect(op, &mid, final(self), r),
                },
            },
    {
        let ghost before = *self;
        let byte = match self.frame_u8("an instruction") {
            Ok(b) => b,
            Err(VmError::CallFrame8bitError { err: CallFrameError::IPOutOfBounds { .. }, .. }) => {
                return Ok(Step::Finished);
            },
            Err(e) => {
                return Err(e);
            },
        };
        let op = match Opcode::from_u8(byte) {
            Some(op) => op,
            None => {
                return Err(VmError::UndefinedOpcodeError { opcode: byte });
            },
        };
        assert(self.top() == before.next_frame());
        assert(self.stack() == before.stack());
        let ghost mid = *self;
        proof {
            assert(mid.fetched_from(&before));
        }
        let r: Result<Step, VmError> = match op {
            Opcode::ADD => match self.op_add() {
                Ok(Some(t)) => Ok(Step::Real(t)),
                Ok(None) => Ok(Step::Continue),
                Err(e) => Err(e),
            },
            Opcode::SUBSTRACT => match self.op_substract() {
                Ok(Some(t)) => Ok(Step::Real(t)),
                Ok(None) => Ok(Step::Continue),
                Err(e) => Err(e),
            },
            Opcode::MULTIPLY => match self.op_multiply() {
                Ok(Some(t)) => Ok(Step::Real(t)),
                Ok(None) => Ok(Step::Continue),
                Err(e) => Err(e),
            },
            Opcode::DIVIDE => match self.op_divide() {
                Ok(Some(t)) => Ok(Step::Real(t)),
                Ok(None) => Ok(Step::Continue),
                Err(e) => Err(e),
            },
            Opcode::GREATER => match self.op_greater() {
                Ok(Some(t)) => Ok(Step::Real(t)),
                Ok(None) => Ok(Step::Continue),
                Err(e) => Err(e),
            },
            Opcode::LESS => match self.op_less() {
                Ok(Some(t)) => Ok(Step::Real(t)),
                Ok(None) => Ok(Step::Continue),
                Err(e) => Err(e),
            },
            Opcode::AND => match self.op_and() {
                Ok(()) => Ok(Step::Continue),
                Err(e) => Err(e),
            },
            Opcode::ARRAY => match self.op_array() {
                Ok(()) => Ok(Step::Continue),
                Err(e) => Err(e),
            },
            Opcode::CLASS => match self.op_class() {
                Ok(()) => Ok(Step::Continue),
                Err(e) => Err(e),
            },
            Opcode::CONSTANT => match self.op_constant() {
                Ok(()) => Ok(Step::Continue),
                Err(e) => Err(e),
            },
            Opcode::DEFINE_GLOBAL => match self.op_define_global() {
                Ok(()) => Ok(Step::Continue),
                Err(e) => Err(e),
            },
            Opcode::DOT => match self.op_dot() {
                Ok(()) => Ok(Step::Continue),
                Err(e) => Err(e),
            },
            Opcode::EQUAL => match self.op_equal() {
                Ok(()) => Ok(Step::Continue),
                Err(e) => Err(e),
            },
            Opcode::GET_GLOBAL => match self.op_get_global() {
                Ok(()) => Ok(Step::Continue),
                Err(e) => Err(e),
            },
            Opcode::GET_LOCAL => match self.op_get_local() {
                Ok(()) => Ok(Step::Continue),
                Err(e) => Err(e),
            },
            Opcode::GET_METHOD => match self.op_get_method() {
                Ok(()) => Ok(Step::Continue),
                Err(e) => Err(e),
            },
            Opcode::GET_PROPERTY => match self.op_get_property() {
                Ok(()) => Ok(Step::Continue),
                Err(e) => Err(e),
            },
            Opcode::INDEX => match self.op_index() {
                Ok(()) => Ok(Step::Continue),
                Err(e) => Err(e),
            },
            Opcode::JUMP => match self.op_jump() {
                Ok(()) => Ok(Step::Continue),
                Err(e) => Err(e),
            },
            Opcode::JUMP_BACK => match self.op_jump_back() {
                Ok(()) => Ok(Step::Continue),
                Err(e) => Err(e),
            },
            Opcode::JUMP_IF_FALSE => match self.op_jump_if_false() {
                Ok(()) => Ok(Step::Continue),
                Err(e) => Err(e),
            },
            Opcode::LOC_PUSH => match self.op_loc_push() {
                Ok(()) => Ok(Step::Continue),
                Err(e) => Err(e),
            },
            Opcode::NEGATE => match self.op_negate() {
                Ok(()) => Ok(Step::Continue),
                Err(e) => Err(e),
            },
            Opcode::NEW => match self.op_new() {
                Ok(()) => Ok(Step::Continue),
                Err(e) => Err(e),
            },
            Opcode::NOT => match self.op_not() {
                Ok(()) => Ok(Step::Continue),
                Err(e) => Err(e),
            },
            Opcode::OR => match self.op_or() {
                Ok(()) => Ok(Step::Continue),
                Err(e) => Err(e),
            },
            Opcode::POP => match self.op_pop() {
                Ok(()) => Ok(Step::Continue),
                Err(e) => Err(e),
            },
            Opcode::POP_N => match self.op_pop_n() {
                Ok(()) => Ok(Step::Continue),
                Err(e) => Err(e),
            },
            Opcode::SET_LOCAL => match self.op_set_local() {
                Ok(()) => Ok(Step::Continue),
                Err(e) => Err(e),
            },
            Opcode::FALSE => {
                self.op_false();
                Ok(Step::Continue)
            },
            Opcode::LOC => {
                self.op_loc();
                Ok(Step::Continue)
            },
            Opcode::LOC_POP => {
                self.op_loc_pop();
                Ok(Step::Continue)
            },
            Opcode::TRUE => {
                self.op_true();
                Ok(Step::Continue)
            },
            Opcode::UNIT => {
                self.op_unit();
                Ok(Step::Continue)
            },
            Opcode::CALL => match self.op_call() {
                Ok(c) => Ok(Step::Call(c)),
                Err(e) => Err(e),
            },
            Opcode::PARALLEL => match self.op_parallel() {
                Ok(b) => Ok(Step::Parallel(b)),
                Err(e) => Err(e),
            },
            Opcode::IMPORT => {
                let mut messages: Vec<String> = Vec::new();
                let ghost m0 = messages@;
                let ri = self.op_import(&mut messages);
                proof {
                    assert(m0 =~= Seq::<String>::empty());
                }
                match ri {
                    Ok(()) => Ok(Step::Imported(messages)),
                    Err(e) => {
                        proof {
                            assert(Vm::op_import_effect(&mid, self, Seq::empty(), messages@, Err(e)));
                        }
                        Err(e)
                    },
                }
            },
            Opcode::RETURN => match self.op_return() {
                Ok(()) => {
                    if self.options.global_return_halts && frames_len(&self.frames) == 0 {
                        Ok(Step::Halted)
                    } else {
                        Ok(Step::Continue)
                    }
                },
                Err(e) => Err(e),
            },
            Opcode::SET_GLOBAL => match self.op_set_global(false) {
                Ok(()) => Ok(Step::Continue),
                Err(e) => Err(e),
            },
        };
        proof {
            assert(mid.fetched_from(&before));
        }
        r
    }
}

/// Negating a boolean twice, as `NOT` does, gives back the slot it
/// started from.
pub proof fn law_not_twice(s: Slot)
    requires
        bool_of(s) is Some,
    ensures
        bool_of(boolean_slot(!bool_of(s)->Some_0)) == Some(!bool_of(s)->Some_0),
        boolean_slot(!bool_of(boolean_slot(!bool_of(s)->Some_0))->Some_0) == s,
{
}

/// Negating a number twice, as `NEGATE` does, gives back the number: an
/// integer other than the smallest, whose negation overflows, and a real,
/// whose sign bit flips twice.
pub proof fn law_negate_twice(i: i64, bits: u64)
    requires
        i != i64::MIN,
    ensures
        -((-i) as i64) == i,
        (bits ^ 0x8000_0000_0000_0000u64) ^ 0x8000_0000_0000_0000u64 == bits,
{
    assert((bits ^ 0x8000_0000_0000_0000u64) ^ 0x8000_0000_0000_0000u64 == bits) by (bit_vector);
}

/// Reads a slot as a pop reads it, on a stack that uses constant slots or
/// not.
fn read_slot_exec(s: &Slot, use_const: bool) -> (r: Slot)
    ensures
        r == read_slot(*s, use_const),
{
    if use_const {
        match s {
            Slot::ConstMinusTwo => Slot::Integer(-2),
            Slot::ConstMinusOne => Slot::Integer(-1),
            Slot::ConstZero => Slot::Integer(0),
            Slot::ConstOne => Slot::Integer(1),
            Slot::ConstTwo => Slot::Integer(2),
            _ => s.duplicate(),
        }
    } else {
        s.duplicate()
    }
}

/// Returns whether arithmetic on the operands neither overflows nor
/// divides by zero.
fn arith_ok(op: RealOp, lhs: &Slot, rhs: &Slot) -> (r: bool)
    requires
        is_arith(op),
    ensures
        r == arith_defined(op, *lhs, *rhs),
{
    match (lhs, rhs) {
        (Slot::Integer(a), Slot::Integer(b)) => match op {
            RealOp::Add => a.checked_add(*b).is_some(),
            RealOp::Subtract => a.checked_sub(*b).is_some(),
            RealOp::Multiply => a.checked_mul(*b).is_some(),
            _ => a.checked_div(*b).is_some(),
        },
        _ => true,
    }
}

/// The byte of the frame's code at the position, if there is one.
fn code_byte(f: &CallFrame, i: usize) -> (r: Option<u8>)
    ensures
        r == byte_at(*f, i as int),
{
    match f.function.get() {
        Object::Function(func) => {
            if i < crate::buffers::bytes_len(&func.chunk.code) {
                Some(crate::buffers::bytes_get(&func.chunk.code, i))
            } else {
                None
            }
        },
        _ => None,
    }
}

/// Whether `JUMP_BACK` in the frame stays within its code's start.
fn jump_back_ready(f: &CallFrame) -> (r: bool)
    ensures
        r == jump_back_ok(*f),
{
    if f.ip > usize::MAX - 2 {
        false
    } else {
        match (code_byte(f, f.ip), code_byte(f, f.ip + 1)) {
            (Some(b1), Some(b2)) => (b1 as usize) * 256 + (b2 as usize) <= f.ip + 2,
            _ => true,
        }
    }
}

/// The properties of a `NEW` can be popped: the stack does not run out
/// before `k` pairs of a name and a value are read, or before a name that
/// is no string.
pub open spec fn scan_ok(s: Seq<Slot>, k: nat, use_const: bool) -> bool
    decreases k,
{
    if k == 0 {
        true
    } else if s.len() == 0 {
        false
    } else {
        match read_slot(s.last(), use_const) {
            Slot::Object(h) => if s.len() < 2 {
                false
            } else {
                match h.obj() {
                    Object::String(_) => scan_ok(s.drop_last().drop_last(), (k - 1) as nat, use_const),
                    _ => true,
                }
            },
            _ => true,
        }
    }
}

/// Whether popping the properties of a `NEW` succeeds does not depend on
/// the properties read so far.
proof fn lemma_scan_ok(s: Seq<Slot>, k: nat, m: Map<Seq<char>, Slot>, use_const: bool)
    ensures
        scan_properties(s, k, m, use_const) is Some <==> scan_ok(s, k, use_const),
    decreases k,
{
    if k > 0 && s.len() > 0 {
        let key = read_slot(s.last(), use_const);
        if key is Object && s.len() >= 2 {
            match name_operand(key) {
                Ok(name) => lemma_scan_ok(
                    s.drop_last().drop_last(),
                    (k - 1) as nat,
                    m.insert(name, read_slot(s[s.len() - 2], use_const)),
                    use_const,
                ),
                Err(_) => {},
            }
        }
    }
}

impl Vm {
    /// The slot `k` places from the top, as a pop reads it.
    fn peek_read(&self, k: usize) -> (r: Slot)
        requires
            k < self.stack().len(),
        ensures
            r == peek_in(self.stack(), k as int, self.uses_const()),
    {
        let s = self.stack.get(self.stack.len() - 1 - k);
        read_slot_exec(s, self.stack.uses_consts())
    }

    /// Whether the top `n` slots, as pops read them, all turn into values.
    fn top_convertible(&self, n: usize) -> (r: bool)
        requires
            n <= self.stack().len(),
        ensures
            r == all_convertible(top_slots(self.stack(), n as nat, self.uses_const())),
    {
        let ghost t = top_slots(self.stack(), n as nat, self.uses_const());
        let mut i: usize = 0;
        while i < n
            invariant
                n <= self.stack().len(),
                t == top_slots(self.stack(), n as nat, self.uses_const()),
                i <= n,
                forall|j: int| 0 <= j < i ==> slot_convertible(#[trigger] t[j]),
            decreases n - i,
        {
            let slot = self.peek_read(n - 1 - i);
            assert(slot == t[i as int]);
            if !crate::convert::check_convertible(&slot) {
                return false;
            }
            i = i + 1;
        }
        true
    }

    /// Whether two operands are on the stack and the arithmetic on them is
    /// defined.
    fn arith_ready(&self, op: RealOp) -> (r: bool)
        requires
            is_arith(op),
        ensures
            r == (self.stack().len() >= 2 && arith_defined(
                op,
                peek_in(self.stack(), 1, self.uses_const()),
                peek_in(self.stack(), 0, self.uses_const()),
            )),
    {
        if self.stack.len() < 2 {
            return false;
        }
        let lhs = self.peek_read(1);
        let rhs = self.peek_read(0);
        arith_ok(op, &lhs, &rhs)
    }

    /// Whether a call of the arity finds what it needs on the stack.
    fn call_ready_exec(&self, arity: usize) -> (r: bool)
        ensures
            r == call_ready(self.stack(), arity as nat, self.uses_const()),
    {
        let len = self.stack.len();
        if len < 1 || len - 1 < arity {
            return false;
        }
        match self.stack.get(len - arity - 1) {
            Slot::BuiltIn(_) => self.top_convertible(arity),
            Slot::Object(h) => match h.get() {
                Object::Function(_) => true,
                Object::FunctionExt(_) => self.top_convertible(arity),
                _ => false,
            },
            _ => false,
        }
    }

    /// Whether the properties of a `NEW` of `n` pairs can be popped from
    /// below the class on top.
    fn new_ready(&self, n: u8) -> (r: bool)
        requires
            self.stack().len() > 0,
        ensures
            r == scan_ok(self.stack().drop_last(), n as nat, self.uses_const()),
    {
        let ghost s = self.stack();
        let ghost uc = self.uses_const();
        let mut rem: usize = self.stack.len() - 1;
        let mut k: u8 = n;
        proof {
            assert(s.subrange(0, rem as int) =~= s.drop_last());
        }
        while k > 0
            invariant
                s == self.stack(),
                uc == self.uses_const(),
                rem < s.len(),
                scan_ok(s.drop_last(), n as nat, uc) == scan_ok(s.subrange(0, rem as int), k as nat, uc),
            decreases k,
        {
            let ghost sub = s.subrange(0, rem as int);
            if rem == 0 {
                return false;
            }
            let key = read_slot_exec(self.stack.get(rem - 1), self.stack.uses_consts());
            assert(sub.last() == s[rem - 1]);
            match &key {
                Slot::Object(h) => {
                    if rem < 2 {
                        return false;
                    }
                    match h.get() {
                        Object::String(_) => {
                            proof {
                                assert(sub.drop_last().drop_last() =~= s.subrange(0, rem - 2));
                            }
                            rem = rem - 2;
                            k = k - 1;
                        },
                        _ => {
                            return true;
                        },
                    }
                },
                _ => {
                    return true;
                },
            }
        }
        true
    }

    /// Whether the top `n` slots all hold functions whose constants turn
    /// into values, as `PARALLEL` needs of its branches.
    fn branches_ready(&self, n: u8) -> (r: bool)
        ensures
            r == (n <= self.stack().len() && forall|i: int|
                0 <= i < n ==> branch_slot(#[trigger] self.stack()[self.stack().len() - 1 - i])),
    {
        let len = self.stack.len();
        if (n as usize) > len {
            return false;
        }
        let mut i: usize = 0;
        while i < n as usize
            invariant
                len == self.stack().len(),
                n <= len,
                i <= n,
                forall|j: int| 0 <= j < i ==> branch_slot(#[trigger] self.stack()[self.stack().len() - 1 - j]),
            decreases n - i,
        {
            let ok = match self.stack.get(len - 1 - i) {
                Slot::Object(h) => match h.get() {
                    Object::Function(f) => {
                        let mut all = true;
                        let mut j: usize = 0;
                        while j < f.chunk.constants.len()
                            invariant
                                j <= f.chunk.constants@.len(),
                                all == forall|k: int| 0 <= k < j ==> slot_convertible(#[trigger] f.chunk.constants@[k]),
                            decreases f.chunk.constants@.len() - j,
                        {
                            if !crate::convert::check_convertible(&f.chunk.constants[j]) {
                                all = false;
                            }
                            j = j + 1;
                        }
                        all
                    },
                    _ => false,
                },
                _ => false,
            };
            if !ok {
                return false;
            }
            i = i + 1;
        }
        true
    }

    /// Whether `NEGATE` finds an operand whose negation is defined.
    fn negate_ready(&self) -> (r: bool)
        ensures
            r == (self.stack().len() >= 1 && peek_in(self.stack(), 0, self.uses_const()) != Slot::Integer(i64::MIN)),
    {
        if self.stack.len() < 1 {
            return false;
        }
        match self.peek_read(0) {
            Slot::Integer(i) => i != i64::MIN,
            _ => true,
        }
    }

    /// Whether `CALL`, with the operand byte if there is one, can run: the
    /// current location is a string, and the callee and its arguments are
    /// on the stack.
    fn call_arm_ready(&self, operand: Option<u8>) -> (r: bool)
        ensures
            r == ({
                &&& self.locations().len() > 0 ==> self.locations().last().obj() is String
                &&& operand matches Some(arity) ==> call_ready(self.stack(), arity as nat, self.uses_const())
            }),
    {
        let loc_ok = if self.locations.len() > 0 {
            match self.locations[self.locations.len() - 1].get() {
                Object::String(_) => true,
                _ => false,
            }
        } else {
            true
        };
        loc_ok && match operand {
            Some(arity) => self.call_ready_exec(arity as usize),
            None => true,
        }
    }

    /// Whether `NEW`, with the operand byte if there is one, can pop its
    /// class and properties.
    fn new_arm_ready(&self, operand: Option<u8>) -> (r: bool)
        ensures
            r == match operand {
                Some(n) => self.stack().len() > 0 && match self.stack().last() {
                    Slot::Object(h) => h.obj() is Class ==> scan_properties(
                        self.stack().drop_last(),
                        n as nat,
                        Map::empty(),
                        self.uses_const(),
                    ) is Some,
                    _ => true,
                },
                None => true,
            },
    {
        let len = self.stack.len();
        match operand {
            Some(n) => len > 0 && match self.stack.get(len - 1) {
                Slot::Object(h) => match h.get() {
                    Object::Class(_) => {
                        let ok = self.new_ready(n);
                        proof {
                            lemma_scan_ok(self.stack().drop_last(), n as nat, Map::empty(), self.uses_const());
                        }
                        ok
                    },
                    _ => true,
                },
                _ => true,
            },
            None => true,
        }
    }

    /// Whether the instruction can run, just past its byte in the innermost
    /// frame `f`, on this machine.
    #[verifier::rlimit(40)]
    fn ready_exec(&self, op: Opcode, f: &CallFrame) -> (r: bool)
        ensures
            r == ready(op, *f, self.stack(), self.uses_const(), self.locations()),
    {
        let len = self.stack.len();
        let operand = code_byte(f, f.ip);
        match op {
            Opcode::ADD => self.arith_ready(RealOp::Add),
            Opcode::SUBSTRACT => self.arith_ready(RealOp::Subtract),
            Opcode::MULTIPLY => self.arith_ready(RealOp::Multiply),
            Opcode::DIVIDE => self.arith_ready(RealOp::Divide),
            Opcode::AND | Opcode::OR | Opcode::EQUAL | Opcode::GREATER | Opcode::LESS | Opcode::INDEX => len >= 2,
            Opcode::NOT | Opcode::POP | Opcode::LOC_PUSH | Opcode::DOT | Opcode::GET_METHOD | Opcode::GET_PROPERTY
            | Opcode::DEFINE_GLOBAL | Opcode::SET_GLOBAL => len >= 1,
            Opcode::NEGATE => self.negate_ready(),
            Opcode::CALL => self.call_arm_ready(operand),
            Opcode::GET_LOCAL | Opcode::SET_LOCAL => match operand {
                Some(i) => f.stack_offset < len && (i as usize) < len - f.stack_offset,
                None => true,
            },
            Opcode::JUMP => f.ip <= usize::MAX - 0x10002,
            Opcode::JUMP_BACK => jump_back_ready(f),
            Opcode::JUMP_IF_FALSE => len >= 1 && f.ip <= usize::MAX - 0x10002,
            Opcode::NEW => self.new_arm_ready(operand),
            Opcode::PARALLEL => match operand {
                Some(n) => self.branches_ready(n),
                None => true,
            },
            _ => true,
        }
    }

    /// Returns whether `step` may run: there is an innermost frame, and the
    /// instruction at its pointer, if any, can run on this machine.
    pub fn can_step(&self) -> (r: bool)
        ensures
            r == (self.frames().len() > 0 && self.top().ip < usize::MAX && match byte_at(self.top(), self.top().ip as int) {
                Some(b) => match opcode_of_byte(b) {
                    Some(op) => ready(op, self.next_frame(), self.stack(), self.uses_const(), self.locations()),
                    None => true,
                },
                None => true,
            }),
    {
        let top = match frames_last(&self.frames) {
            Some(f) => f,
            None => {
                return false;
            },
        };
        if top.ip == usize::MAX {
            return false;
        }
        match code_byte(top, top.ip) {
            Some(b) => match Opcode::from_u8(b) {
                Some(op) => {
                    let next = CallFrame { function: top.function.share(), ip: top.ip + 1, stack_offset: top.stack_offset };
                    proof {
                        top.function.lemma_ext(&next.function);
                    }
                    self.ready_exec(op, &next)
                },
                None => true,
            },
            None => true,
        }
    }
}


/// AND pushes the conjunction of its two boolean operands: true exactly
/// when both are true, in place of the two.
pub proof fn law_and_is_conjunction(pre: Vm, post: Vm, r: Result<(), VmError>)
    requires
        Vm::op_and_effect(&pre, &post, r),
        pre.stack().len() >= 2,
        pre.stack()[pre.stack().len() - 2] == Slot::True || pre.stack()[pre.stack().len() - 2] == Slot::False,
        pre.stack().last() == Slot::True || pre.stack().last() == Slot::False,
    ensures
        r is Ok,
        post.stack().len() == pre.stack().len() - 1,
        post.stack().drop_last() == pre.stack().drop_last().drop_last(),
        post.stack().last() == Slot::True || post.stack().last() == Slot::False,
        post.stack().last() == Slot::True <==> (pre.stack()[pre.stack().len() - 2] == Slot::True
            && pre.stack().last() == Slot::True),
{
    assert(post.stack().drop_last() =~= pre.stack().drop_last().drop_last());
}

/// OR pushes the disjunction of its two boolean operands: false exactly
/// when both are false, in place of the two.
pub proof fn law_or_is_disjunction(pre: Vm, post: Vm, r: Result<(), VmError>)
    requires
        Vm::op_or_effect(&pre, &post, r),
        pre.stack().len() >= 2,
        pre.stack()[pre.stack().len() - 2] == Slot::True || pre.stack()[pre.stack().len() - 2] == Slot::False,
        pre.stack().last() == Slot::True || pre.stack().last() == Slot::False,
    ensures
        r is Ok,
        post.stack().len() == pre.stack().len() - 1,
        post.stack().drop_last() == pre.stack().drop_last().drop_last(),
        post.stack().last() == Slot::True || post.stack().last() == Slot::False,
        post.stack().last() == Slot::False <==> (pre.stack()[pre.stack().len() - 2] == Slot::False
            && pre.stack().last() == Slot::False),
{
    assert(post.stack().drop_last() =~= pre.stack().drop_last().drop_last());
}

/// NOT pushes the negation of its boolean operand in its place.
pub proof fn law_not_is_negation(pre: Vm, post: Vm, r: Result<(), VmError>)
    requires
        Vm::op_not_effect(&pre, &post, r),
        pre.stack().len() >= 1,
        pre.stack().last() == Slot::True || pre.stack().last() == Slot::False,
    ensures
        r is Ok,
        post.stack().len() == pre.stack().len(),
        post.stack().drop_last() == pre.stack().drop_last(),
        post.stack().last() == Slot::True <==> pre.stack().last() == Slot::False,
        post.stack().last() == Slot::False <==> pre.stack().last() == Slot::True,
{
    assert(post.stack().drop_last() =~= pre.stack().drop_last());
}

/// Real numbers compare as binary64 numbers do: equal bit patterns are
/// equal unless they are not-a-number, the two zeroes are equal, two
/// numbers of different signs that are not both zero are unequal, and
/// equality is symmetric.
pub proof fn law_real_equality(a: u64, b: u64)
    ensures
        real_eq(a, b) ==> a == b || ((a & 0x7fff_ffff_ffff_ffffu64) == 0 && (b & 0x7fff_ffff_ffff_ffffu64) == 0),
        (a >> 63u64) != (b >> 63u64) && (a & 0x7fff_ffff_ffff_ffffu64) != 0 ==> !real_eq(a, b),
        !((a & 0x7ff0_0000_0000_0000u64) == 0x7ff0_0000_0000_0000u64 && (a & 0x000f_ffff_ffff_ffffu64) != 0)
            ==> real_eq(a, a),
        (a & 0x7ff0_0000_0000_0000u64) == 0x7ff0_0000_0000_0000u64 && (a & 0x000f_ffff_ffff_ffffu64) != 0
            ==> !real_eq(a, b),
        real_eq(a, b) == real_eq(b, a),
{
}

/// EQUAL on two real numbers pushes whether they are equal as binary64
/// numbers: true only where the bit patterns agree or both are zero, false
/// where the signs differ and the numbers are not both zero, and true for a
/// number that is not not-a-number compared with itself.
pub proof fn law_equal_reals(pre: Vm, post: Vm, r: Result<(), VmError>, a: u64, b: u64)
    requires
        Vm::op_equal_effect(&pre, &post, r),
        pre.stack().len() >= 2,
        pre.peek(1) == Slot::Real(a),
        pre.peek(0) == Slot::Real(b),
    ensures
        r is Ok,
        post.stack().len() == pre.stack().len() - 1,
        post.stack().last() == Slot::True || post.stack().last() == Slot::False,
        post.stack().last() == Slot::True ==> a == b || ((a & 0x7fff_ffff_ffff_ffffu64) == 0
            && (b & 0x7fff_ffff_ffff_ffffu64) == 0),
        (a >> 63u64) != (b >> 63u64) && (a & 0x7fff_ffff_ffff_ffffu64) != 0 ==> post.stack().last() == Slot::False,
        a == b && !((a & 0x7ff0_0000_0000_0000u64) == 0x7ff0_0000_0000_0000u64 && (a & 0x000f_ffff_ffff_ffffu64)
            != 0) ==> post.stack().last() == Slot::True,
{
    let eq = choose|eq: bool|
        {
            &&& equal_outcome(pre.peek(1), pre.peek(0), eq)
            &&& post.stack() == pre.stack().drop_last().drop_last().push(boolean_slot(eq))
        };
    law_real_equality(a, b);
}

/// JUMP_BACK lands where the disassembly shows its target: on the offset of
/// the jump plus three, less its operand.
pub proof fn law_jump_back_lands_on_target(pre: Vm, post: Vm, r: Result<(), VmError>, code: Seq<u8>, pos: int)
    requires
        pre.frames().len() > 0,
        frame_code(pre.top()) == Some(code),
        0 <= pos,
        pre.top().ip == pos + 1,
        pos + 2 < code.len(),
        (code[pos + 1] as int * 256 + code[pos + 2] as int) < 0x8000,
        (code[pos + 1] as int * 256 + code[pos + 2] as int) <= pos + 3,
        pos + 3 <= usize::MAX,
        Vm::op_jump_back_effect(&pre, &post, r),
    ensures
        r is Ok,
        post.frames().len() == pre.frames().len(),
        post.top().ip == pos + 3 - (code[pos + 1] as int * 256 + code[pos + 2] as int),
        crate::disasm::operand_at(code, pos, Opcode::JUMP_BACK) == crate::disasm::Operand::Jump(post.top().ip as i128),
{
    crate::disasm::law_jump_back_target(code, pos);
    let v = code[pos + 1] as int * 256 + code[pos + 2] as int;
    assert(byte_at(pre.top(), pre.top().ip as int) == Some(code[pos + 1]));
    assert(byte_at(pre.top(), pre.top().ip + 1) == Some(code[pos + 2]));
    assert(post.frames() == pre.frames_at(pre.top().ip + 2 - v));
    assert(post.top().ip == (pos + 3 - v) as usize);
}


/// ADD on two integers pushes their sum in their place; the slot reads
/// back as that integer.
pub proof fn law_integer_sum(pre: Vm, post: Vm, r: Result<Option<RealTask>, VmError>, a: i64, b: i64)
    requires
        Vm::op_add_effect(&pre, &post, r),
        pre.stack().len() >= 2,
        pre.peek(1) == Slot::Integer(a),
        pre.peek(0) == Slot::Integer(b),
        i64::MIN <= a + b <= i64::MAX,
    ensures
        r == Ok::<Option<RealTask>, VmError>(None),
        post.stack().len() == pre.stack().len() - 1,
        post.stack().drop_last() == pre.stack().drop_last().drop_last(),
        post.peek(0) == Slot::Integer((a + b) as i64),
{
    assert(post.stack().drop_last() =~= pre.stack().drop_last().drop_last());
}

/// SUBSTRACT on two integers pushes the left-hand one, the one below the
/// top, less the top one.
pub proof fn law_integer_difference(pre: Vm, post: Vm, r: Result<Option<RealTask>, VmError>, a: i64, b: i64)
    requires
        Vm::op_substract_effect(&pre, &post, r),
        pre.stack().len() >= 2,
        pre.peek(1) == Slot::Integer(a),
        pre.peek(0) == Slot::Integer(b),
        i64::MIN <= a - b <= i64::MAX,
    ensures
        r == Ok::<Option<RealTask>, VmError>(None),
        post.stack().len() == pre.stack().len() - 1,
        post.stack().drop_last() == pre.stack().drop_last().drop_last(),
        post.peek(0) == Slot::Integer((a - b) as i64),
{
    assert(post.stack().drop_last() =~= pre.stack().drop_last().drop_last());
}

/// MULTIPLY on two integers pushes their product.
pub proof fn law_integer_product(pre: Vm, post: Vm, r: Result<Option<RealTask>, VmError>, a: i64, b: i64)
    requires
        Vm::op_multiply_effect(&pre, &post, r),
        pre.stack().len() >= 2,
        pre.peek(1) == Slot::Integer(a),
        pre.peek(0) == Slot::Integer(b),
        i64::MIN <= a * b <= i64::MAX,
    ensures
        r == Ok::<Option<RealTask>, VmError>(None),
        post.stack().len() == pre.stack().len() - 1,
        post.stack().drop_last() == pre.stack().drop_last().drop_last(),
        post.peek(0) == Slot::Integer((a * b) as i64),
{
    assert(post.stack().drop_last() =~= pre.stack().drop_last().drop_last());
}

/// GREATER on two integers pushes true exactly when the left-hand one, the
/// one below the top, is greater than the top one.
pub proof fn law_integer_greater(pre: Vm, post: Vm, r: Result<Option<RealTask>, VmError>, a: i64, b: i64)
    requires
        Vm::op_greater_effect(&pre, &post, r),
        pre.stack().len() >= 2,
        pre.peek(1) == Slot::Integer(a),
        pre.peek(0) == Slot::Integer(b),
    ensures
        r == Ok::<Option<RealTask>, VmError>(None),
        post.stack().len() == pre.stack().len() - 1,
        post.stack().drop_last() == pre.stack().drop_last().drop_last(),
        post.stack().last() == Slot::True || post.stack().last() == Slot::False,
        post.stack().last() == Slot::True <==> a > b,
{
    assert(post.stack().drop_last() =~= pre.stack().drop_last().drop_last());
}

/// LESS on two integers pushes true exactly when the left-hand one, the one
/// below the top, is less than the top one.
pub proof fn law_integer_less(pre: Vm, post: Vm, r: Result<Option<RealTask>, VmError>, a: i64, b: i64)
    requires
        Vm::op_less_effect(&pre, &post, r),
        pre.stack().len() >= 2,
        pre.peek(1) == Slot::Integer(a),
        pre.peek(0) == Slot::Integer(b),
    ensures
        r == Ok::<Option<RealTask>, VmError>(None),
        post.stack().len() == pre.stack().len() - 1,
        post.stack().drop_last() == pre.stack().drop_last().drop_last(),
        post.stack().last() == Slot::True || post.stack().last() == Slot::False,
        post.stack().last() == Slot::True <==> a < b,
{
    assert(post.stack().drop_last() =~= pre.stack().drop_last().drop_last());
}

/// EQUAL on two integers pushes true exactly when they are the same integer.
pub proof fn law_integer_equality(pre: Vm, post: Vm, r: Result<(), VmError>, a: i64, b: i64)
    requires
        Vm::op_equal_effect(&pre, &post, r),
        pre.stack().len() >= 2,
        pre.peek(1) == Slot::Integer(a),
        pre.peek(0) == Slot::Integer(b),
    ensures
        r is Ok,
        post.stack().len() == pre.stack().len() - 1,
        post.stack().drop_last() == pre.stack().drop_last().drop_last(),
        post.stack().last() == Slot::True || post.stack().last() == Slot::False,
        post.stack().last() == Slot::True <==> a == b,
{
    let eq = choose|eq: bool|
        {
            &&& equal_outcome(pre.peek(1), pre.peek(0), eq)
            &&& post.stack() == pre.stack().drop_last().drop_last().push(boolean_slot(eq))
        };
    assert(post.stack().drop_last() =~= pre.stack().drop_last().drop_last());
}

/// NEGATE turns an integer into its opposite, and a real into the number of
/// the same magnitude with the other sign.
pub proof fn law_negation(pre: Vm, post: Vm, r: Result<(), VmError>)
    requires
        Vm::op_negate_effect(&pre, &post, r),
        pre.stack().len() >= 1,
        pre.peek(0) is Integer || pre.peek(0) is Real,
        pre.peek(0) != Slot::Integer(i64::MIN),
    ensures
        r is Ok,
        post.stack().len() == pre.stack().len(),
        post.stack().drop_last() == pre.stack().drop_last(),
        pre.peek(0) matches Slot::Integer(i) ==> post.peek(0) == Slot::Integer((-i) as i64),
        pre.peek(0) matches Slot::Real(x) ==> post.peek(0) matches Slot::Real(y) && (y >> 63u64) != (x >> 63u64)
            && (y & 0x7fff_ffff_ffff_ffffu64) == (x & 0x7fff_ffff_ffff_ffffu64),
{
    assert(post.stack().drop_last() =~= pre.stack().drop_last());
    match pre.peek(0) {
        Slot::Real(x) => {
            let y = x ^ 0x8000_0000_0000_0000u64;
            assert((y >> 63u64) != (x >> 63u64) && (y & 0x7fff_ffff_ffff_ffffu64) == (x & 0x7fff_ffff_ffff_ffffu64))
                by (bit_vector)
                requires
                    y == x ^ 0x8000_0000_0000_0000u64,
            ;
        },
        _ => {},
    }
}

/// JUMP lands where the disassembly shows its target: on the offset of the
/// jump plus three, plus its operand.
pub proof fn law_jump_lands_on_target(pre: Vm, post: Vm, r: Result<(), VmError>, code: Seq<u8>, pos: int)
    requires
        pre.frames().len() > 0,
        frame_code(pre.top()) == Some(code),
        0 <= pos,
        pre.top().ip == pos + 1,
        pos + 2 < code.len(),
        (code[pos + 1] as int * 256 + code[pos + 2] as int) < 0x8000,
        pos + 3 + (code[pos + 1] as int * 256 + code[pos + 2] as int) <= usize::MAX,
        Vm::op_jump_effect(&pre, &post, r),
    ensures
        r is Ok,
        post.stack() == pre.stack(),
        post.frames().len() == pre.frames().len(),
        post.top().ip == pos + 3 + (code[pos + 1] as int * 256 + code[pos + 2] as int),
        crate::disasm::operand_at(code, pos, Opcode::JUMP) == crate::disasm::Operand::Jump(post.top().ip as i128),
{
    crate::disasm::law_jump_target(code, pos);
    assert(byte_at(pre.top(), pre.top().ip as int) == Some(code[pos + 1]));
    assert(byte_at(pre.top(), pre.top().ip + 1) == Some(code[pos + 2]));
}

/// JUMP_IF_FALSE leaves the boolean in place; on false it lands where the
/// disassembly shows its target, on true on the instruction after it.
pub proof fn law_jump_if_false_lands(pre: Vm, post: Vm, r: Result<(), VmError>, code: Seq<u8>, pos: int)
    requires
        pre.frames().len() > 0,
        frame_code(pre.top()) == Some(code),
        0 <= pos,
        pre.top().ip == pos + 1,
        pos + 2 < code.len(),
        (code[pos + 1] as int * 256 + code[pos + 2] as int) < 0x8000,
        pos + 3 + (code[pos + 1] as int * 256 + code[pos + 2] as int) <= usize::MAX,
        pre.stack().len() > 0,
        pre.stack().last() == Slot::True || pre.stack().last() == Slot::False,
        Vm::op_jump_if_false_effect(&pre, &post, r),
    ensures
        r is Ok,
        post.stack() == pre.stack(),
        post.frames().len() == pre.frames().len(),
        pre.stack().last() == Slot::False ==> post.top().ip == pos + 3 + (code[pos + 1] as int * 256 + code[pos + 2] as int)
            && crate::disasm::operand_at(code, pos, Opcode::JUMP_IF_FALSE) == crate::disasm::Operand::Jump(
            post.top().ip as i128,
        ),
        pre.stack().last() == Slot::True ==> post.top().ip == pos + 3,
{
    crate::disasm::law_jump_target(code, pos);
    assert(byte_at(pre.top(), pre.top().ip as int) == Some(code[pos + 1]));
    assert(byte_at(pre.top(), pre.top().ip + 1) == Some(code[pos + 2]));
}

/// DIVIDE on two integers pushes their quotient rounded toward zero: the
/// left-hand one, the one below the top, is the quotient times the top one
/// plus a remainder smaller than the divisor that is zero or has the sign of
/// the dividend.
#[verifier::spinoff_prover]
pub proof fn law_integer_quotient(pre: Vm, post: Vm, r: Result<Option<RealTask>, VmError>, a: i64, b: i64)
    requires
        Vm::op_divide_effect(&pre, &post, r),
        pre.stack().len() >= 2,
        pre.peek(1) == Slot::Integer(a),
        pre.peek(0) == Slot::Integer(b),
        b != 0,
        !(a == i64::MIN && b == -1),
    ensures
        r == Ok::<Option<RealTask>, VmError>(None),
        post.stack().len() == pre.stack().len() - 1,
        post.stack().drop_last() == pre.stack().drop_last().drop_last(),
        post.peek(0) matches Slot::Integer(q) && ({
            let rem = a - q * b;
            &&& a >= 0 ==> 0 <= rem && rem < vstd::math::abs(b as int)
            &&& a < 0 ==> 0 - vstd::math::abs(b as int) < rem && rem <= 0
        }),
{
    assert(post.stack().drop_last() =~= pre.stack().drop_last().drop_last());
    let ai = a as int;
    let bi = b as int;
    let na = vstd::math::abs(ai) as int;
    let nb = vstd::math::abs(bi) as int;
    let qa = na / nb;
    let ra = na % nb;
    vstd::arithmetic::div_mod::lemma_fundamental_div_mod(na, nb);
    assert(0 <= ra < nb);
    assert(na == qa * nb + ra) by (nonlinear_arith)
        requires na == nb * qa + ra;
    assert(0 <= qa <= na) by {
        vstd::arithmetic::div_mod::lemma_div_pos_is_pos(na, nb);
        vstd::arithmetic::div_mod::lemma_div_is_ordered_by_denominator(na, 1, nb);
    }
    let q = trunc_div(ai, bi);
    if (ai < 0) == (bi < 0) {
        assert(q == qa);
        if ai >= 0 {
            assert(q * bi == qa * nb);
        } else {
            assert(q * bi == 0 - qa * nb) by (nonlinear_arith)
                requires q == qa, bi == 0 - nb;
        }
    } else {
        assert(q == 0 - qa);
        if ai >= 0 {
            assert(q * bi == qa * nb) by (nonlinear_arith)
                requires q == 0 - qa, bi == 0 - nb;
        } else {
            assert(q * bi == 0 - qa * nb) by (nonlinear_arith)
                requires q == 0 - qa, bi == nb;
        }
    }
    if nb >= 2 {
        vstd::arithmetic::div_mod::lemma_div_is_ordered_by_denominator(na, 2, nb);
    }
    assert(ai >= 0 ==> q * bi == qa * nb);
    assert(ai < 0 ==> q * bi == 0 - qa * nb);
    assert(i64::MIN <= q <= i64::MAX);
    assert(post.stack().last() == integer_slot(q as i64, pre.uses_const()));
    assert(post.peek(0) == Slot::Integer(q as i64));
    if ai >= 0 {
        assert(ai - q * bi == ra) by {
            assert(na == ai);
        }
    } else {
        assert(ai - q * bi == 0 - ra) by {
            assert(na == 0 - ai);
        }
    }
}

} // verus!
