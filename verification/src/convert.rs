//! Turning slots into values and back.

use crate::buffers::{bytes_mut_freeze, bytes_mut_from_slice, bytes_to_vec, bytes_view};
use crate::bytecode::{BytecodeError, Chunk};
use crate::heap::Heap;
use crate::objects::{unique_keys, Class, Function, Object};
use crate::globals::Globals;
use crate::objects::{common_type, Array, Instance};
use crate::stack::{boolean_slot, Slot, StackError};
use crate::value::{Bytecode, FunctionExt, Parameter, SpecClass, SpecFunction, Value};
use vstd::prelude::*;

verus! {

broadcast use crate::heap::lemma_handle_decreases, crate::objects::lemma_class_decreases,
    crate::objects::lemma_instance_decreases;

/// Two external-function descriptions say the same.
pub open spec fn fext_same(a: FunctionExt, b: FunctionExt) -> bool {
    &&& a.name@ == b.name@
    &&& a.detached == b.detached
    &&& a.digest@ == b.digest@
    &&& a.package@ == b.package@
    &&& a.kind@ == b.kind@
    &&& a.version@ == b.version@
    &&& a.parameters@.len() == b.parameters@.len()
    &&& forall|i: int| 0 <= i < a.parameters@.len() ==> {
        &&& #[trigger] a.parameters@[i].name@ == b.parameters@[i].name@
        &&& a.parameters@[i].data_type@ == b.parameters@[i].data_type@
    }
}

/// The value a slot turns into: the slot `s` turns into the value `v`.
///
/// Constant slots turn into their integers, a builtin into the unit value,
/// strings, arrays and external functions into their values, an instance
/// into a struct of its class's name and properties, and a class into its
/// portable form. A program function turns into no value.
pub open spec fn slot_value(s: Slot, v: Value) -> bool
    decreases s, 1int,
{
    match s {
        Slot::BuiltIn(_) => v is Unit,
        Slot::ConstMinusOne => v == Value::Integer(-1i64),
        Slot::ConstMinusTwo => v == Value::Integer(-2i64),
        Slot::ConstOne => v == Value::Integer(1i64),
        Slot::ConstTwo => v == Value::Integer(2i64),
        Slot::ConstZero => v == Value::Integer(0i64),
        Slot::False => v == Value::Boolean(false),
        Slot::True => v == Value::Boolean(true),
        Slot::Integer(i) => v == Value::Integer(i),
        Slot::Real(b) => v == Value::Real(b),
        Slot::Unit => v is Unit,
        Slot::Object(h) => object_value(h.obj(), v),
    }
}

/// The value an object turns into.
pub open spec fn object_value(o: Object, v: Value) -> bool
    decreases o, 0int,
{
    match o {
        Object::String(st) => v matches Value::Unicode(u) && u@ == st@,
        Object::FunctionExt(f) => v matches Value::FunctionExt(g) && fext_same(f, g),
        Object::Array(a) => match v {
            Value::Array { data_type, entries } => {
                &&& data_type@ == a.element_type@
                &&& entries@.len() == a.elements@.len()
                &&& forall|i: int| 0 <= i < entries@.len() ==> slot_value(#[trigger] a.elements@[i], entries@[i])
            },
            _ => false,
        },
        Object::Instance(ins) => match v {
            Value::Struct { data_type, properties } => {
                &&& data_type@ == ins.class_name()
                &&& properties@.len() == ins.properties().len()
                &&& forall|i: int| 0 <= i < properties@.len() ==> {
                    &&& #[trigger] properties@[i].0@ == ins.properties()[i].0@
                    &&& slot_value(ins.properties()[i].1, properties@[i].1)
                }
            },
            _ => false,
        },
        Object::Class(c) => match v {
            Value::Class(sc) => {
                &&& sc.name@ == c.name()@
                &&& sc.properties@.len() == 0
                &&& sc.methods@.len() == c.methods().len()
                &&& forall|i: int| 0 <= i < sc.methods@.len() ==> {
                    &&& #[trigger] sc.methods@[i].0@ == c.methods()[i].0@
                    &&& c.methods()[i].1 matches Slot::Object(mh) && function_value(mh.obj(), sc.methods@[i].1)
                }
            },
            _ => false,
        },
        Object::Function(f) => false,
    }
}

/// The portable form of a program function: its arity, name, code, and
/// constants turned into values.
pub open spec fn function_value(o: Object, sf: SpecFunction) -> bool
    decreases o, 0int,
{
    match o {
        Object::Function(f) => {
            &&& sf.arity == f.arity
            &&& sf.name@ == f.name@
            &&& sf.bytecode.code@ == f.chunk.code_view()
            &&& sf.bytecode.constants@.len() == f.chunk.constants@.len()
            &&& forall|j: int| 0 <= j < sf.bytecode.constants@.len()
                ==> slot_value(#[trigger] f.chunk.constants@[j], sf.bytecode.constants@[j])
        },
        _ => false,
    }
}

/// Whether a slot turns into a value: it holds no program function, except
/// as a method of a class.
pub open spec fn slot_convertible(s: Slot) -> bool
    decreases s, 1int,
{
    match s {
        Slot::Object(h) => object_convertible(h.obj()),
        _ => true,
    }
}

/// Whether an object turns into a value.
pub open spec fn object_convertible(o: Object) -> bool
    decreases o, 0int,
{
    match o {
        Object::String(_) | Object::FunctionExt(_) => true,
        Object::Array(a) => forall|i: int| 0 <= i < a.elements@.len() ==> slot_convertible(#[trigger] a.elements@[i]),
        Object::Instance(ins) => forall|i: int| 0 <= i < ins.properties().len()
            ==> slot_convertible(#[trigger] ins.properties()[i].1),
        Object::Class(c) => forall|i: int| 0 <= i < c.methods().len()
            ==> (#[trigger] c.methods()[i].1 matches Slot::Object(mh) && function_convertible(mh.obj())),
        Object::Function(_) => false,
    }
}

/// Whether a program function's constants all turn into values.
pub open spec fn function_convertible(o: Object) -> bool
    decreases o, 0int,
{
    match o {
        Object::Function(f) => forall|j: int| 0 <= j < f.chunk.constants@.len()
            ==> slot_convertible(#[trigger] f.chunk.constants@[j]),
        _ => false,
    }
}

/// Returns whether a slot turns into a value: whether it holds no program
/// function but as a method of a class.
pub fn check_convertible(s: &Slot) -> (r: bool)
    ensures
        r == slot_convertible(*s),
    decreases *s, 1int,
{
    match s {
        Slot::Object(h) => check_object_convertible(h.get()),
        _ => true,
    }
}

/// Returns whether an object turns into a value.
#[verifier::loop_isolation(false)]
fn check_object_convertible(o: &Object) -> (r: bool)
    ensures
        r == object_convertible(*o),
    decreases *o, 0int,
{
    match o {
        Object::String(_) => true,
        Object::FunctionExt(_) => true,
        Object::Array(a) => {
            let mut i: usize = 0;
            while i < a.elements.len()
                invariant
                    *o == Object::Array(*a),
                    i <= a.elements@.len(),
                    forall|j: int| 0 <= j < i ==> slot_convertible(#[trigger] a.elements@[j]),
                decreases a.elements@.len() - i,
            {
                if !check_convertible(&a.elements[i]) {
                    return false;
                }
                i = i + 1;
            }
            true
        },
        Object::Instance(ins) => {
            let props = ins.get_properties();
            let mut i: usize = 0;
            while i < props.len()
                invariant
                    *o == Object::Instance(*ins),
                    props@ == ins.properties(),
                    i <= props@.len(),
                    forall|j: int| 0 <= j < i ==> slot_convertible(#[trigger] ins.properties()[j].1),
                decreases props@.len() - i,
            {
                assert(props@[i as int] == ins.properties()[i as int]);
                if !check_convertible(&props[i].1) {
                    return false;
                }
                i = i + 1;
            }
            true
        },
        Object::Class(c) => {
            let methods = c.get_methods();
            let mut i: usize = 0;
            while i < methods.len()
                invariant
                    *o == Object::Class(*c),
                    methods@ == c.methods(),
                    i <= methods@.len(),
                    forall|j: int| 0 <= j < i ==> (#[trigger] c.methods()[j].1 matches Slot::Object(mh) && function_convertible(
                        mh.obj(),
                    )),
                decreases methods@.len() - i,
            {
                assert(methods@[i as int] == c.methods()[i as int]);
                match &methods[i].1 {
                    Slot::Object(mh) => {
                        if !check_function_convertible(mh.get()) {
                            return false;
                        }
                    },
                    _ => {
                        return false;
                    },
                }
                i = i + 1;
            }
            true
        },
        Object::Function(_) => false,
    }
}

/// Returns whether a program function's constants all turn into values.
#[verifier::loop_isolation(false)]
fn check_function_convertible(o: &Object) -> (r: bool)
    ensures
        r == function_convertible(*o),
    decreases *o, 0int,
{
    match o {
        Object::Function(f) => {
            let mut j: usize = 0;
            while j < f.chunk.constants.len()
                invariant
                    *o == Object::Function(*f),
                    j <= f.chunk.constants@.len(),
                    forall|k: int| 0 <= k < j ==> slot_convertible(#[trigger] f.chunk.constants@[k]),
                decreases f.chunk.constants@.len() - j,
            {
                if !check_convertible(&f.chunk.constants[j]) {
                    return false;
                }
                j = j + 1;
            }
            true
        },
        _ => false,
    }
}

/// A copy of an external-function description.
pub fn fext_copy(f: &FunctionExt) -> (r: FunctionExt)
    ensures
        fext_same(*f, r),
{
    let mut parameters: Vec<Parameter> = Vec::new();
    let mut i: usize = 0;
    while i < f.parameters.len()
        invariant
            i <= f.parameters@.len(),
            parameters@.len() == i,
            forall|k: int| 0 <= k < i ==> {
                &&& #[trigger] f.parameters@[k].name@ == parameters@[k].name@
                &&& f.parameters@[k].data_type@ == parameters@[k].data_type@
            },
        decreases f.parameters@.len() - i,
    {
        let p = &f.parameters[i];
        parameters.push(Parameter { name: p.name.clone(), data_type: p.data_type.clone() });
        assert(parameters@[i as int].name@ == f.parameters@[i as int].name@);
        i = i + 1;
    }
    FunctionExt {
        name: f.name.clone(),
        detached: f.detached,
        digest: f.digest.clone(),
        package: f.package.clone(),
        kind: f.kind.clone(),
        version: f.version.clone(),
        parameters,
    }
}

/// Turns a slot into its value.
pub fn slot_to_value(s: &Slot) -> (v: Value)
    requires
        slot_convertible(*s),
    ensures
        slot_value(*s, v),
    decreases *s, 1int,
{
    match s {
        Slot::BuiltIn(_) => Value::Unit,
        Slot::ConstMinusOne => Value::Integer(-1),
        Slot::ConstMinusTwo => Value::Integer(-2),
        Slot::ConstOne => Value::Integer(1),
        Slot::ConstTwo => Value::Integer(2),
        Slot::ConstZero => Value::Integer(0),
        Slot::False => Value::Boolean(false),
        Slot::Integer(i) => Value::Integer(*i),
        Slot::Real(r) => Value::Real(*r),
        Slot::True => Value::Boolean(true),
        Slot::Unit => Value::Unit,
        Slot::Object(h) => object_to_value(h.get()),
    }
}

/// Turns an object into its value.
#[verifier::loop_isolation(false)]
pub fn object_to_value(o: &Object) -> (v: Value)
    requires
        object_convertible(*o),
    ensures
        object_value(*o, v),
    decreases *o, 0int,
{
    match o {
        Object::String(st) => {
            let u = st.clone();
            let v = Value::Unicode(u);
            assert(object_value(*o, v));
            v
        },
        Object::FunctionExt(f) => {
            let v = Value::FunctionExt(fext_copy(f));
            assert(object_value(*o, v));
            v
        },
        Object::Array(a) => {
            let mut entries: Vec<Value> = Vec::new();
            let mut i: usize = 0;
            while i < a.elements.len()
                invariant
                    *o == Object::Array(*a),
                    i <= a.elements@.len(),
                    entries@.len() == i,
                    forall|k: int| 0 <= k < a.elements@.len() ==> slot_convertible(#[trigger] a.elements@[k]),
                    forall|k: int| 0 <= k < i ==> slot_value(#[trigger] a.elements@[k], entries@[k]),
                decreases a.elements@.len() - i,
            {
                proof {
                    assert(decreases_to!(a.elements => a.elements@[i as int]));
                }
                let v = slot_to_value(&a.elements[i]);
                entries.push(v);
                i = i + 1;
            }
            let v = Value::Array { data_type: a.element_type.clone(), entries };
            assert(object_value(*o, v));
            v
        },
        Object::Instance(ins) => {
            let props = ins.get_properties();
            let mut properties: Vec<(String, Value)> = Vec::new();
            let mut i: usize = 0;
            while i < props.len()
                invariant
                    *o == Object::Instance(*ins),
                    props@ == ins.properties(),
                    i <= props@.len(),
                    properties@.len() == i,
                    forall|k: int| 0 <= k < props@.len() ==> slot_convertible(#[trigger] props@[k].1),
                    forall|k: int| 0 <= k < i ==> {
                        &&& #[trigger] properties@[k].0@ == props@[k].0@
                        &&& slot_value(props@[k].1, properties@[k].1)
                    },
                decreases props@.len() - i,
            {
                proof {
                    crate::objects::lemma_instance_decreases(*ins, i as int);
                }
                let v = slot_to_value(&props[i].1);
                properties.push((props[i].0.clone(), v));
                i = i + 1;
            }
            let v = Value::Struct { data_type: ins.get_class_name(), properties };
            assert(object_value(*o, v));
            v
        },
        Object::Class(c) => {
            let ms = c.get_methods();
            let mut methods: Vec<(String, SpecFunction)> = Vec::new();
            let mut i: usize = 0;
            while i < ms.len()
                invariant
                    *o == Object::Class(*c),
                    ms@ == c.methods(),
                    i <= ms@.len(),
                    methods@.len() == i,
                    forall|k: int| 0 <= k < ms@.len()
                        ==> (#[trigger] ms@[k].1 matches Slot::Object(mh) && function_convertible(mh.obj())),
                    forall|k: int| 0 <= k < i ==> {
                        &&& #[trigger] methods@[k].0@ == ms@[k].0@
                        &&& ms@[k].1 matches Slot::Object(mh) && function_value(mh.obj(), methods@[k].1)
                    },
                decreases ms@.len() - i,
            {
                match &ms[i].1 {
                    Slot::Object(mh) => {
                        proof {
                            crate::objects::lemma_class_decreases(*c, i as int);
                            assert(decreases_to!(ms@[i as int].1 => *mh));
                        }
                        let sf = function_to_spec(mh.get());
                        methods.push((ms[i].0.clone(), sf));
                    },
                    _ => {
                        assert(false);
                    },
                }
                i = i + 1;
            }
            let v = Value::Class(SpecClass { name: c.get_name().clone(), properties: Vec::new(), methods });
            assert(object_value(*o, v));
            v
        },
        Object::Function(_) => {
            assert(false);
            Value::Unit
        },
    }
}

/// Turns a program function into its portable form.
#[verifier::loop_isolation(false)]
pub fn function_to_spec(o: &Object) -> (sf: SpecFunction)
    requires
        function_convertible(*o),
    ensures
        function_value(*o, sf),
    decreases *o, 0int,
{
    match o {
        Object::Function(f) => {
            let mut constants: Vec<Value> = Vec::new();
            let mut j: usize = 0;
            while j < f.chunk.constants.len()
                invariant
                    *o == Object::Function(*f),
                    j <= f.chunk.constants@.len(),
                    constants@.len() == j,
                    forall|k: int| 0 <= k < f.chunk.constants@.len() ==> slot_convertible(#[trigger] f.chunk.constants@[k]),
                    forall|k: int| 0 <= k < j ==> slot_value(#[trigger] f.chunk.constants@[k], constants@[k]),
                decreases f.chunk.constants@.len() - j,
            {
                proof {
                    assert(decreases_to!(f.chunk.constants => f.chunk.constants@[j as int]));
                }
                let v = slot_to_value(&f.chunk.constants[j]);
                constants.push(v);
                j = j + 1;
            }
            SpecFunction {
                arity: f.arity,
                name: f.name.clone(),
                bytecode: Bytecode { code: bytes_to_vec(&f.chunk.code), constants },
            }
        },
        _ => {
            assert(false);
            SpecFunction { arity: 0, name: String::new(), bytecode: Bytecode { code: Vec::new(), constants: Vec::new() } }
        },
    }
}

/// Whether a constant of workable code can be frozen: a boolean, integer,
/// real, string, function or class, whose own constants can be frozen.
pub open spec fn constant_freezable(v: Value) -> bool
    decreases v, 2int,
{
    match v {
        Value::Boolean(_) | Value::Integer(_) | Value::Real(_) | Value::Unicode(_) => true,
        Value::Function(sf) => constants_freezable(sf.bytecode.constants@),
        Value::Class(sc) => class_freezable(sc),
        _ => false,
    }
}

/// Whether every constant of a list can be frozen.
pub open spec fn constants_freezable(c: Seq<Value>) -> bool
    decreases c, 1int,
{
    forall|i: int| 0 <= i < c.len() ==> constant_freezable(#[trigger] c[i])
}

/// Whether a class can be frozen: its methods are named once each and their
/// constants can be frozen.
pub open spec fn class_freezable(sc: SpecClass) -> bool
    decreases sc, 1int,
{
    &&& unique_keys(sc.methods@)
    &&& forall|i: int| 0 <= i < sc.methods@.len() ==> constants_freezable(#[trigger] sc.methods@[i].1.bytecode.constants@)
}

/// The number of objects freezing a constant puts on the heap: one for a
/// string, and for a function or class one more than its own constants and
/// methods need.
pub open spec fn constant_allocs(v: Value) -> nat
    decreases v, 0nat,
{
    match v {
        Value::Unicode(_) => 1,
        Value::Function(sf) => constants_allocs(sf.bytecode.constants@, sf.bytecode.constants@.len()) + 1,
        Value::Class(sc) => methods_allocs(sc.methods@, sc.methods@.len()) + 1,
        _ => 0,
    }
}

/// The number of objects freezing the first `n` constants puts on the heap.
pub open spec fn constants_allocs(c: Seq<Value>, n: nat) -> nat
    decreases c, n,
{
    if n == 0 || n > c.len() {
        0
    } else {
        constants_allocs(c, (n - 1) as nat) + constant_allocs(c[n - 1])
    }
}

/// The number of objects freezing the first `n` methods of a class puts on
/// the heap: each method's constants and the method itself.
pub open spec fn methods_allocs(m: Seq<(String, SpecFunction)>, n: nat) -> nat
    decreases m, n,
{
    if n == 0 || n > m.len() {
        0
    } else {
        methods_allocs(m, (n - 1) as nat) + constants_allocs(
            m[n - 1].1.bytecode.constants@,
            m[n - 1].1.bytecode.constants@.len(),
        ) + 1
    }
}

/// Freezing more constants never takes fewer objects.
proof fn lemma_constants_allocs_grow(c: Seq<Value>, i: nat, j: nat)
    requires
        i <= j <= c.len(),
    ensures
        constants_allocs(c, i) <= constants_allocs(c, j),
    decreases j - i,
{
    if i < j {
        lemma_constants_allocs_grow(c, i, (j - 1) as nat);
    }
}

/// Freezing more methods never takes fewer objects.
proof fn lemma_methods_allocs_grow(m: Seq<(String, SpecFunction)>, i: nat, j: nat)
    requires
        i <= j <= m.len(),
    ensures
        methods_allocs(m, i) <= methods_allocs(m, j),
    decreases j - i,
{
    if i < j {
        lemma_methods_allocs_grow(m, i, (j - 1) as nat);
    }
}

/// The slot a constant is frozen into: `s` is the frozen form of `v`.
pub open spec fn constant_frozen(v: Value, s: Slot) -> bool
    decreases v, 2int,
{
    match v {
        Value::Boolean(b) => s == boolean_slot(b),
        Value::Integer(i) => s == Slot::Integer(i),
        Value::Real(b) => s == Slot::Real(b),
        Value::Unicode(u) => s matches Slot::Object(h) && h.obj() matches Object::String(st) && st@ == u@,
        Value::Function(sf) => s matches Slot::Object(h)
            && function_frozen(sf.name@, sf.arity, sf.bytecode.code@, sf.bytecode.constants@, h.obj()),
        Value::Class(sc) => s matches Slot::Object(h) && h.obj() matches Object::Class(c) && class_frozen(sc, c),
        _ => false,
    }
}

/// Every slot is the frozen form of the constant at its position.
pub open spec fn constants_frozen(c: Seq<Value>, s: Seq<Slot>) -> bool
    decreases c, 1int,
{
    &&& s.len() == c.len()
    &&& forall|i: int| 0 <= i < c.len() ==> constant_frozen(#[trigger] c[i], s[i])
}

/// The object is the frozen form of a function with the given name, arity,
/// code and constants.
pub open spec fn function_frozen(name: Seq<char>, arity: u8, code: Seq<u8>, consts: Seq<Value>, o: Object) -> bool
    decreases consts, 2int,
{
    match o {
        Object::Function(f) => {
            &&& f.name@ == name
            &&& f.arity == arity
            &&& f.chunk.code_view() == code
            &&& constants_frozen(consts, f.chunk.constants@)
        },
        _ => false,
    }
}

/// The class is the frozen form of the portable class: the same name, and
/// each method frozen under its name.
pub open spec fn class_frozen(sc: SpecClass, c: Class) -> bool
    decreases sc, 1int,
{
    &&& c.name()@ == sc.name@
    &&& c.methods().len() == sc.methods@.len()
    &&& forall|i: int| 0 <= i < sc.methods@.len() ==> {
        &&& #[trigger] c.methods()[i].0@ == sc.methods@[i].0@
        &&& c.methods()[i].1 matches Slot::Object(mh) && function_frozen(
            sc.methods@[i].1.name@,
            sc.methods@[i].1.arity,
            sc.methods@[i].1.bytecode.code@,
            sc.methods@[i].1.bytecode.constants@,
            mh.obj(),
        )
    }
}

/// Puts an object on the heap, as a slot.
pub fn alloc_slot(heap: &mut Heap<Object>, o: Object) -> (r: Result<Slot, BytecodeError>)
    requires
        old(heap).wf(),
    ensures
        final(heap).wf(),
        final(heap).max() == old(heap).max(),
        final(heap).objects().len() <= old(heap).objects().len() + 1,
        old(heap).objects().len() < old(heap).max() ==> r is Ok,
        match r {
            Ok(s) => s matches Slot::Object(h) && h.obj() == o,
            Err(e) => e is HeapAllocateError,
        },
{
    match heap.allocate(o) {
        Ok(h) => Ok(Slot::Object(h)),
        Err(err) => Err(BytecodeError::HeapAllocateError { err }),
    }
}

/// Freezes one constant onto the heap.
pub fn freeze_constant(v: &Value, heap: &mut Heap<Object>) -> (r: Result<Slot, BytecodeError>)
    requires
        old(heap).wf(),
        constant_freezable(*v),
    ensures
        final(heap).wf(),
        final(heap).max() == old(heap).max(),
        final(heap).objects().len() <= old(heap).objects().len() + constant_allocs(*v),
        old(heap).objects().len() + constant_allocs(*v) <= old(heap).max() ==> r is Ok,
        match r {
            Ok(s) => constant_frozen(*v, s),
            Err(e) => e is HeapAllocateError,
        },
    decreases *v, 2int,
{
    match v {
        Value::Boolean(b) => Ok(if *b { Slot::True } else { Slot::False }),
        Value::Integer(i) => Ok(Slot::Integer(*i)),
        Value::Real(b) => Ok(Slot::Real(*b)),
        Value::Unicode(u) => alloc_slot(heap, Object::String(u.clone())),
        Value::Function(sf) => {
            let f = freeze_function_parts(&sf.name, sf.arity, sf.bytecode.code.as_slice(), &sf.bytecode.constants, heap)?;
            alloc_slot(heap, Object::Function(f))
        },
        Value::Class(sc) => {
            let c = freeze_spec_class(sc, heap)?;
            alloc_slot(heap, Object::Class(c))
        },
        _ => {
            assert(false);
            Ok(Slot::Unit)
        },
    }
}

/// Freezes a list of constants onto the heap, in order.
pub fn freeze_constants(c: &Vec<Value>, heap: &mut Heap<Object>) -> (r: Result<Vec<Slot>, BytecodeError>)
    requires
        old(heap).wf(),
        constants_freezable(c@),
    ensures
        final(heap).wf(),
        final(heap).max() == old(heap).max(),
        final(heap).objects().len() <= old(heap).objects().len() + constants_allocs(c@, c@.len()),
        old(heap).objects().len() + constants_allocs(c@, c@.len()) <= old(heap).max() ==> r is Ok,
        match r {
            Ok(s) => constants_frozen(c@, s@),
            Err(e) => e is HeapAllocateError,
        },
    decreases c@, 1int,
{
    let mut out: Vec<Slot> = Vec::new();
    let mut i: usize = 0;
    while i < c.len()
        invariant
            i <= c@.len(),
            out@.len() == i,
            heap.wf(),
            heap.max() == old(heap).max(),
            heap.objects().len() <= old(heap).objects().len() + constants_allocs(c@, i as nat),
            constants_freezable(c@),
            forall|k: int| 0 <= k < i ==> constant_frozen(#[trigger] c@[k], out@[k]),
        decreases c@.len() - i,
    {
        proof {
            assert(constant_freezable(c@[i as int]));
            lemma_constants_allocs_grow(c@, (i + 1) as nat, c@.len());
        }
        let s = freeze_constant(&c[i], heap)?;
        out.push(s);
        i = i + 1;
    }
    Ok(out)
}

/// Freezes a function, given by its parts, onto the heap.
pub fn freeze_function_parts(
    name: &String,
    arity: u8,
    code: &[u8],
    consts: &Vec<Value>,
    heap: &mut Heap<Object>,
) -> (r: Result<Function, BytecodeError>)
    requires
        old(heap).wf(),
        constants_freezable(consts@),
    ensures
        final(heap).wf(),
        final(heap).max() == old(heap).max(),
        final(heap).objects().len() <= old(heap).objects().len() + constants_allocs(consts@, consts@.len()),
        old(heap).objects().len() + constants_allocs(consts@, consts@.len()) <= old(heap).max() ==> r is Ok,
        match r {
            Ok(f) => function_frozen(name@, arity, code@, consts@, Object::Function(f)),
            Err(e) => e is HeapAllocateError,
        },
    decreases consts@, 2int,
{
    let constants = freeze_constants(consts, heap)?;
    let code = bytes_mut_freeze(bytes_mut_from_slice(code));
    Ok(Function::new(name.clone(), arity, Chunk { code, constants }))
}

/// Freezes a portable class onto the heap: its methods are frozen and put
/// on the heap; its property list is not kept.
pub fn freeze_spec_class(sc: &SpecClass, heap: &mut Heap<Object>) -> (r: Result<Class, BytecodeError>)
    requires
        old(heap).wf(),
        class_freezable(*sc),
    ensures
        final(heap).wf(),
        final(heap).max() == old(heap).max(),
        final(heap).objects().len() <= old(heap).objects().len() + methods_allocs(sc.methods@, sc.methods@.len()),
        old(heap).objects().len() + methods_allocs(sc.methods@, sc.methods@.len()) <= old(heap).max() ==> r is Ok,
        match r {
            Ok(c) => class_frozen(*sc, c),
            Err(e) => e is HeapAllocateError,
        },
    decreases *sc, 1int,
{
    let mut methods: Vec<(String, Slot)> = Vec::new();
    let mut i: usize = 0;
    while i < sc.methods.len()
        invariant
            i <= sc.methods@.len(),
            methods@.len() == i,
            heap.wf(),
            heap.max() == old(heap).max(),
            heap.objects().len() <= old(heap).objects().len() + methods_allocs(sc.methods@, i as nat),
            class_freezable(*sc),
            forall|k: int| 0 <= k < i ==> {
                &&& #[trigger] methods@[k].0@ == sc.methods@[k].0@
                &&& methods@[k].1 matches Slot::Object(mh) && function_frozen(
                    sc.methods@[k].1.name@,
                    sc.methods@[k].1.arity,
                    sc.methods@[k].1.bytecode.code@,
                    sc.methods@[k].1.bytecode.constants@,
                    mh.obj(),
                )
            },
        decreases sc.methods@.len() - i,
    {
        let (mname, sf) = (&sc.methods[i].0, &sc.methods[i].1);
        proof {
            assert(constants_freezable(sc.methods@[i as int].1.bytecode.constants@));
            lemma_methods_allocs_grow(sc.methods@, (i + 1) as nat, sc.methods@.len());
        }
        let f = freeze_function_parts(&sf.name, sf.arity, sf.bytecode.code.as_slice(), &sf.bytecode.constants, heap)?;
        let slot = alloc_slot(heap, Object::Function(f))?;
        methods.push((mname.clone(), slot));
        i = i + 1;
    }
    proof {
        assert forall|a: int, b: int| 0 <= a < b < methods@.len() implies methods@[a].0@ != methods@[b].0@ by {
            assert(sc.methods@[a].0@ != sc.methods@[b].0@);
        }
        assert forall|k: int| 0 <= k < methods@.len() implies crate::objects::is_function_slot(#[trigger] methods@[k].1) by {
            assert(methods@[k].0@ == sc.methods@[k].0@);
        }
    }
    let c = Class::new(sc.name.clone(), methods);
    assert(class_frozen(*sc, c)) by {
        assert forall|k: int| 0 <= k < sc.methods@.len() implies {
            &&& #[trigger] c.methods()[k].0@ == sc.methods@[k].0@
            &&& c.methods()[k].1 matches Slot::Object(mh) && function_frozen(
                sc.methods@[k].1.name@,
                sc.methods@[k].1.arity,
                sc.methods@[k].1.bytecode.code@,
                sc.methods@[k].1.bytecode.constants@,
                mh.obj(),
            )
        } by {
            assert(methods@[k].0@ == sc.methods@[k].0@);
        }
    }
    Ok(c)
}

/// Whether a value can be put in a slot: it holds no program function,
/// every struct names a class that is a global, with each property once,
/// and every class can be frozen.
pub open spec fn value_loadable(v: Value, g: Map<Seq<char>, Slot>) -> bool
    decreases v,
{
    match v {
        Value::Boolean(_) | Value::Integer(_) | Value::Real(_) | Value::Unit | Value::Unicode(_)
        | Value::FunctionExt(_) => true,
        Value::Class(sc) => class_freezable(sc),
        Value::Struct { data_type, properties } => {
            &&& g.contains_key(data_type@)
            &&& g[data_type@] matches Slot::Object(h) && h.obj() is Class
            &&& unique_keys(properties@)
            &&& forall|i: int| 0 <= i < properties@.len() ==> value_loadable(#[trigger] properties@[i].1, g)
        },
        Value::Array { entries, .. } => forall|i: int| 0 <= i < entries@.len() ==> value_loadable(#[trigger] entries@[i], g),
        Value::Function(_) => false,
    }
}

/// The slot a value is put in: `s` holds `v`, where structs find their class
/// among the globals `g`.
pub open spec fn value_loaded(v: Value, g: Map<Seq<char>, Slot>, s: Slot) -> bool
    decreases v,
{
    match v {
        Value::Boolean(b) => s == boolean_slot(b),
        Value::Integer(i) => s == Slot::Integer(i),
        Value::Real(b) => s == Slot::Real(b),
        Value::Unit => s == Slot::Unit,
        Value::Unicode(u) => s matches Slot::Object(h) && h.obj() matches Object::String(st) && st@ == u@,
        Value::FunctionExt(f) => s matches Slot::Object(h) && h.obj() matches Object::FunctionExt(f2) && fext_same(f, f2),
        Value::Class(sc) => s matches Slot::Object(h) && h.obj() matches Object::Class(c) && class_frozen(sc, c),
        Value::Struct { data_type, properties } => match s {
            Slot::Object(h) => match h.obj() {
                Object::Instance(ins) => {
                    &&& g[data_type@] == Slot::Object(ins.class())
                    &&& ins.properties().len() == properties@.len()
                    &&& forall|i: int| 0 <= i < properties@.len() ==> {
                        &&& #[trigger] ins.properties()[i].0@ == properties@[i].0@
                        &&& value_loaded(properties@[i].1, g, ins.properties()[i].1)
                    }
                },
                _ => false,
            },
            _ => false,
        },
        Value::Array { entries, .. } => match s {
            Slot::Object(h) => match h.obj() {
                Object::Array(a) => {
                    &&& a.elements@.len() == entries@.len()
                    &&& forall|i: int| 0 <= i < entries@.len() ==> value_loaded(#[trigger] entries@[i], g, a.elements@[i])
                    &&& common_type(a.elements@) == Some(a.element_type@)
                },
                _ => false,
            },
            _ => false,
        },
        Value::Function(_) => false,
    }
}


/// Whether no name occurs twice in a list of pairs.
pub fn has_unique_keys<V>(s: &Vec<(String, V)>) -> (r: bool)
    ensures
        r == unique_keys(s@),
{
    let mut i: usize = 0;
    while i < s.len()
        invariant
            i <= s@.len(),
            forall|a: int, b: int| 0 <= a < b < s@.len() && a < i ==> s@[a].0@ != s@[b].0@,
        decreases s@.len() - i,
    {
        let mut j: usize = i + 1;
        while j < s.len()
            invariant
                i < s@.len(),
                i + 1 <= j <= s@.len(),
                forall|a: int, b: int| 0 <= a < b < s@.len() && a < i ==> s@[a].0@ != s@[b].0@,
                forall|b: int| i < b < j ==> s@[i as int].0@ != s@[b].0@,
            decreases s@.len() - j,
        {
            if s[i].0 == s[j].0 {
                return false;
            }
            j = j + 1;
        }
        i = i + 1;
    }
    true
}

/// Whether a constant of workable code can be frozen.
pub fn check_constant_freezable(v: &Value) -> (r: bool)
    ensures
        r == constant_freezable(*v),
    decreases *v, 2int,
{
    match v {
        Value::Boolean(_) | Value::Integer(_) | Value::Real(_) | Value::Unicode(_) => true,
        Value::Function(sf) => check_constants_freezable(&sf.bytecode.constants),
        Value::Class(sc) => check_class_freezable(sc),
        _ => false,
    }
}

/// Whether every constant of a list can be frozen.
pub fn check_constants_freezable(c: &Vec<Value>) -> (r: bool)
    ensures
        r == constants_freezable(c@),
    decreases c@, 1int,
{
    let mut i: usize = 0;
    while i < c.len()
        invariant
            i <= c@.len(),
            forall|j: int| 0 <= j < i ==> constant_freezable(#[trigger] c@[j]),
        decreases c@.len() - i,
    {
        assert(decreases_to!(c@ => c@[i as int]));
        if !check_constant_freezable(&c[i]) {
            return false;
        }
        i = i + 1;
    }
    true
}

/// Whether a class can be frozen.
pub fn check_class_freezable(sc: &SpecClass) -> (r: bool)
    ensures
        r == class_freezable(*sc),
    decreases *sc, 1int,
{
    if !has_unique_keys(&sc.methods) {
        return false;
    }
    let mut i: usize = 0;
    while i < sc.methods.len()
        invariant
            i <= sc.methods@.len(),
            forall|j: int| 0 <= j < i ==> constants_freezable(#[trigger] sc.methods@[j].1.bytecode.constants@),
        decreases sc.methods@.len() - i,
    {
        if !check_constants_freezable(&sc.methods[i].1.bytecode.constants) {
            return false;
        }
        i = i + 1;
    }
    true
}

/// Whether a value can be put in a slot, given the globals.
#[verifier::loop_isolation(false)]
pub fn check_loadable(v: &Value, g: &Globals) -> (r: bool)
    ensures
        r == value_loadable(*v, g@),
    decreases *v,
{
    match v {
        Value::Boolean(_) | Value::Integer(_) | Value::Real(_) | Value::Unit | Value::Unicode(_) | Value::FunctionExt(_) => true,
        Value::Class(sc) => check_class_freezable(sc),
        Value::Struct { data_type, properties } => {
            let is_class = match g.get(data_type.as_str()) {
                Some(Slot::Object(h)) => match h.get() {
                    Object::Class(_) => true,
                    _ => false,
                },
                _ => false,
            };
            if !is_class || !has_unique_keys(properties) {
                return false;
            }
            let mut i: usize = 0;
            while i < properties.len()
                invariant
                    i <= properties@.len(),
                    forall|j: int| 0 <= j < i ==> value_loadable(#[trigger] properties@[j].1, g@),
                decreases properties@.len() - i,
            {
                assert(decreases_to!(*v => properties@[i as int].1)) by {
                    assert(decreases_to!(*v => *properties));
                    assert(decreases_to!(*properties => properties@));
                    assert(decreases_to!(properties@ => properties@[i as int]));
                }
                if !check_loadable(&properties[i].1, g) {
                    return false;
                }
                i = i + 1;
            }
            true
        },
        Value::Array { entries, .. } => {
            let mut i: usize = 0;
            while i < entries.len()
                invariant
                    i <= entries@.len(),
                    forall|j: int| 0 <= j < i ==> value_loadable(#[trigger] entries@[j], g@),
                decreases entries@.len() - i,
            {
                assert(decreases_to!(*v => entries@[i as int])) by {
                    assert(decreases_to!(*v => *entries));
                    assert(decreases_to!(*entries => entries@));
                }
                if !check_loadable(&entries[i], g) {
                    return false;
                }
                i = i + 1;
            }
            true
        },
        Value::Function(_) => false,
    }
}

/// Puts an object on the heap, as a slot, naming what it is on failure.
fn alloc_named(heap: &mut Heap<Object>, o: Object, what: &str) -> (r: Result<Slot, StackError>)
    requires
        old(heap).wf(),
    ensures
        final(heap).wf(),
        final(heap).max() == old(heap).max(),
        final(heap).objects().len() <= old(heap).objects().len() + 1,
        old(heap).objects().len() < old(heap).max() ==> r is Ok,
        match r {
            Ok(s) => s matches Slot::Object(h) && h.obj() == o,
            Err(e) => e matches StackError::HeapAllocError { what: w, .. } && w@ == what@,
        },
{
    match heap.allocate(o) {
        Ok(h) => Ok(Slot::Object(h)),
        Err(err) => Err(StackError::HeapAllocError { what: String::from_str(what), err }),
    }
}

/// Puts a value in a slot, allocating its strings, functions, classes,
/// instances and arrays on the heap.
///
/// Fails when the heap is full, or when the elements of an array are not
/// all of one type.
pub fn value_to_slot(value: &Value, globals: &Globals, heap: &mut Heap<Object>) -> (r: Result<Slot, StackError>)
    requires
        old(heap).wf(),
        value_loadable(*value, globals@),
    ensures
        final(heap).wf(),
        final(heap).max() == old(heap).max(),
        *value is Boolean || *value is Integer || *value is Real || *value is Unit ==> r is Ok && *final(heap) == *old(heap),
        *value is Unicode || *value is FunctionExt ==> (old(heap).objects().len() < old(heap).max() ==> r is Ok),
        *value is Unicode ==> final(heap).objects().len() <= old(heap).objects().len() + 1 && (r matches Err(e) ==> e matches StackError::HeapAllocError { what, .. } && what@ == "a String"@),
        *value matches Value::Class(sc) ==> (old(heap).objects().len() + methods_allocs(sc.methods@, sc.methods@.len()) + 1
            <= old(heap).max() ==> r is Ok),
        match r {
            Ok(s) => value_loaded(*value, globals@, s),
            Err(e) => e is HeapAllocError || e is HeapFreezeError || e is ArrayTypeError,
        },
    decreases *value,
{
    match value {
        Value::Unicode(u) => alloc_named(heap, Object::String(u.clone()), "a String"),
        Value::Boolean(b) => Ok(if *b { Slot::True } else { Slot::False }),
        Value::Integer(i) => Ok(Slot::Integer(*i)),
        Value::Real(b) => Ok(Slot::Real(*b)),
        Value::Unit => Ok(Slot::Unit),
        Value::FunctionExt(f) => alloc_named(heap, Object::FunctionExt(fext_copy(f)), "an external Function (FunctionExt)"),
        Value::Class(sc) => {
            let class = match freeze_spec_class(sc, heap) {
                Ok(c) => c,
                Err(err) => {
                    return Err(StackError::HeapFreezeError { what: String::from_str("a Class"), err });
                },
            };
            alloc_named(heap, Object::Class(class), "a Class")
        },
        Value::Struct { data_type, properties } => {
            let mut props: Vec<(String, Slot)> = Vec::new();
            let mut i: usize = 0;
            while i < properties.len()
                invariant
                    *value == (Value::Struct { data_type: *data_type, properties: *properties }),
                    i <= properties@.len(),
                    props@.len() == i,
                    heap.wf(),
                    heap.max() == old(heap).max(),
                    value_loadable(*value, globals@),
                    forall|k: int| 0 <= k < i ==> {
                        &&& #[trigger] props@[k].0@ == properties@[k].0@
                        &&& value_loaded(properties@[k].1, globals@, props@[k].1)
                    },
                decreases properties@.len() - i,
            {
                proof {
                    assert(value_loadable(properties@[i as int].1, globals@));
                    assert(decreases_to!(*properties => properties@[i as int]));
                }
                let slot = value_to_slot(&properties[i].1, globals, heap)?;
                props.push((properties[i].0.clone(), slot));
                i = i + 1;
            }
            let class = match globals.get(data_type.as_str()) {
                Some(Slot::Object(h)) => h.share(),
                _ => {
                    assert(false);
                    return Ok(Slot::Unit);
                },
            };
            proof {
                assert forall|a: int, b: int| 0 <= a < b < props@.len() implies props@[a].0@ != props@[b].0@ by {
                    assert(properties@[a].0@ != properties@[b].0@);
                }
            }
            let instance = Instance::new(class, props);
            alloc_named(heap, Object::Instance(instance), "an Instance of a Struct")
        },
        Value::Array { entries, .. } => {
            let mut elements: Vec<Slot> = Vec::new();
            let mut i: usize = 0;
            while i < entries.len()
                invariant
                    value matches Value::Array { entries: e, .. } && e == *entries,
                    i <= entries@.len(),
                    elements@.len() == i,
                    heap.wf(),
                    heap.max() == old(heap).max(),
                    value_loadable(*value, globals@),
                    forall|k: int| 0 <= k < i ==> value_loaded(#[trigger] entries@[k], globals@, elements@[k]),
                decreases entries@.len() - i,
            {
                proof {
                    assert(value_loadable(entries@[i as int], globals@));
                    assert(decreases_to!(*entries => entries@[i as int]));
                }
                let slot = value_to_slot(&entries[i], globals, heap)?;
                elements.push(slot);
                i = i + 1;
            }
            let array = match Array::new(elements) {
                Ok(a) => a,
                Err(err) => {
                    return Err(StackError::ArrayTypeError { err });
                },
            };
            alloc_named(heap, Object::Array(array), "an Array")
        },
        Value::Function(_) => {
            assert(false);
            Ok(Slot::Unit)
        },
    }
}

impl Slot {
    /// Puts a value in a slot; see `value_to_slot`.
    pub fn from_value(value: Value, globals: &Globals, heap: &mut Heap<Object>) -> (r: Result<Slot, StackError>)
        requires
            old(heap).wf(),
            value_loadable(value, globals@),
        ensures
            final(heap).wf(),
            final(heap).max() == old(heap).max(),
            value is Boolean || value is Integer || value is Real || value is Unit ==> r is Ok && *final(heap) == *old(heap),
            value is Unicode || value is FunctionExt ==> (old(heap).objects().len() < old(heap).max() ==> r is Ok),
            value is Unicode ==> final(heap).objects().len() <= old(heap).objects().len() + 1 && (r matches Err(e) ==> e matches StackError::HeapAllocError { what, .. } && what@ == "a String"@),
            value matches Value::Class(sc) ==> (old(heap).objects().len() + methods_allocs(sc.methods@, sc.methods@.len()) + 1
                <= old(heap).max() ==> r is Ok),
            match r {
                Ok(s) => value_loaded(value, globals@, s),
                Err(e) => e is HeapAllocError || e is HeapFreezeError || e is ArrayTypeError,
            },
    {
        value_to_slot(&value, globals, heap)
    }

    /// Turns the slot into its value.
    pub fn into_value(self) -> (v: Value)
        requires
            slot_convertible(self),
        ensures
            slot_value(self, v),
    {
        slot_to_value(&self)
    }
}

} // verus!
