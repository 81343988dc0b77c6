//! Values that travel through the machine: a value put in a slot turns
//! back into itself.
use crate::convert::{slot_value, value_loaded};
use crate::objects::Object;
use crate::stack::{slot_value_type, Slot};
use crate::value::Value;
use vstd::prelude::*;

verus! {

broadcast use crate::heap::lemma_handle_decreases, crate::objects::lemma_class_decreases,
    crate::objects::lemma_instance_decreases;

/// Whether a value, put in a slot with the globals `g`, turns back into
/// itself: it holds no class or program function, every struct names a
/// global that holds a class of that very name, and every array's type is
/// that of its entries (`unit` where it has none).
pub open spec fn roundtrips(v: Value, g: Map<Seq<char>, Slot>) -> bool
    decreases v,
{
    match v {
        Value::Boolean(_) | Value::Integer(_) | Value::Real(_) | Value::Unit | Value::Unicode(_)
        | Value::FunctionExt(_) => true,
        Value::Struct { data_type, properties } => {
            &&& g[data_type@] matches Slot::Object(h) && h.obj() matches Object::Class(c) && c.name()@ == data_type@
            &&& forall|i: int| 0 <= i < properties@.len() ==> roundtrips(#[trigger] properties@[i].1, g)
        },
        Value::Array { data_type, entries } => {
            &&& forall|i: int| 0 <= i < entries@.len() ==> roundtrips(#[trigger] entries@[i], g)
            &&& data_type@ == if entries@.len() == 0 {
                "unit"@
            } else {
                loaded_type(entries@[0])
            }
        },
        Value::Class(_) | Value::Function(_) => false,
    }
}

/// The type of the slot a value is put in.
pub open spec fn loaded_type(v: Value) -> Seq<char> {
    match v {
        Value::Boolean(_) => "boolean"@,
        Value::Integer(_) => "integer"@,
        Value::Real(_) => "real"@,
        Value::Unit => "unit"@,
        Value::Unicode(_) => "string"@,
        Value::FunctionExt(_) => "FunctionExt"@,
        Value::Struct { data_type, .. } => data_type@,
        Value::Array { data_type, .. } => data_type@,
        Value::Class(_) => "Class"@,
        Value::Function(_) => "Function"@,
    }
}

/// A value put in a slot turns back into that value (by `Slot::from_value`
/// and then `Slot::into_value`), and the slot has the value's type. This
/// holds of booleans, numbers, the unit, strings and external functions,
/// and of structs and arrays made of them, where each struct names a global
/// that holds a class of that name and each array's type is that of its
/// entries.
pub proof fn law_value_roundtrip(v: Value, g: Map<Seq<char>, Slot>, s: Slot)
    requires
        value_loaded(v, g, s),
        roundtrips(v, g),
    ensures
        slot_value(s, v),
        slot_value_type(s) == loaded_type(v),
    decreases v,
{
    match v {
        Value::Struct { data_type, properties } => {
            let ins = match s {
                Slot::Object(h) => match h.obj() {
                    Object::Instance(ins) => ins,
                    _ => arbitrary(),
                },
                _ => arbitrary(),
            };
            assert forall|i: int| 0 <= i < properties@.len() implies {
                &&& #[trigger] properties@[i].0@ == ins.properties()[i].0@
                &&& slot_value(ins.properties()[i].1, properties@[i].1)
            } by {
                assert(ins.properties()[i].0@ == properties@[i].0@);
                law_value_roundtrip(properties@[i].1, g, ins.properties()[i].1);
            }
        },
        Value::Array { data_type, entries } => {
            let a = match s {
                Slot::Object(h) => match h.obj() {
                    Object::Array(a) => a,
                    _ => arbitrary(),
                },
                _ => arbitrary(),
            };
            assert forall|i: int| 0 <= i < entries@.len() implies slot_value(#[trigger] a.elements@[i], entries@[i]) by {
                law_value_roundtrip(entries@[i], g, a.elements@[i]);
            }
            if entries@.len() > 0 {
                law_value_roundtrip(entries@[0], g, a.elements@[0]);
            }
        },
        _ => {},
    }
}

} // verus!
