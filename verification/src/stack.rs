//! The value stack of the machine and the slots it holds.

use crate::builtins::BuiltinFunction;
use crate::bytecode::BytecodeError;
use crate::heap::{Handle, HeapError};
use crate::objects::{object_type, Object, ObjectError};
use vstd::prelude::*;

verus! {

/// The number of slots a stack made by `Stack::default` reserves.
pub const STACK_MAX: usize = 256;

/// The errors of the stack.
#[allow(inconsistent_fields)]
#[derive(Debug)]
pub enum StackError {
    /// The top slot is not of the type that was asked for.
    UnexpectedType { got: String, expected: String },
    /// The stack was empty where a slot was asked for.
    EmptyStackError { what: String },
    /// An index lies beyond the stack.
    OutOfBoundsError { i: usize, capacity: usize },
    /// A constant slot was met on a stack that does not use constant slots.
    NotUsingConstOpts { slot: Slot },
    /// The elements of an array are not all of one type.
    ArrayTypeError { err: ObjectError },
    /// An object could not be put on the heap.
    HeapAllocError { what: String, err: HeapError },
    /// A class could not be put on the heap.
    HeapFreezeError { what: String, err: BytecodeError },
}

/// One slot of the stack.
#[derive(Debug)]
pub enum Slot {
    /// A builtin function.
    BuiltIn(BuiltinFunction),
    /// The integer -1.
    ConstMinusOne,
    /// The integer -2.
    ConstMinusTwo,
    /// The integer 1.
    ConstOne,
    /// The integer 2.
    ConstTwo,
    /// The integer 0.
    ConstZero,
    /// The boolean false.
    False,
    /// An integer.
    Integer(i64),
    /// A real number, as its IEEE-754 binary64 bit pattern.
    Real(u64),
    /// The boolean true.
    True,
    /// The unit value.
    Unit,
    /// An object on the heap.
    Object(Handle<Object>),
}

/// The name of a builtin, as the machine shows it.
pub open spec fn builtin_text(b: BuiltinFunction) -> Seq<char> {
    match b {
        BuiltinFunction::Undefined => "Undefined"@,
        BuiltinFunction::Print => "Print"@,
        BuiltinFunction::WaitUntilStarted => "WaitUntilStarted"@,
        BuiltinFunction::WaitUntilDone => "WaitUntilDone"@,
    }
}

/// The text that shows a slot in a disassembly: the slot's kind, with its
/// integer, the bit pattern of its real, its builtin, or the type of its
/// object in brackets.
pub open spec fn slot_debug(s: Slot) -> Seq<char> {
    match s {
        Slot::BuiltIn(b) => "BuiltIn("@ + builtin_text(b) + ")"@,
        Slot::ConstMinusOne => "ConstMinusOne"@,
        Slot::ConstMinusTwo => "ConstMinusTwo"@,
        Slot::ConstOne => "ConstOne"@,
        Slot::ConstTwo => "ConstTwo"@,
        Slot::ConstZero => "ConstZero"@,
        Slot::False => "False"@,
        Slot::Integer(i) => "Integer("@ + crate::text::signed_decimal(i as int) + ")"@,
        Slot::Real(b) => "Real("@ + crate::text::decimal(b as nat) + ")"@,
        Slot::True => "True"@,
        Slot::Unit => "Unit"@,
        Slot::Object(h) => "Object("@ + object_type(h.obj()) + ")"@,
    }
}

/// The integer a constant slot stands for.
pub open spec fn const_value(s: Slot) -> Option<i64> {
    match s {
        Slot::ConstMinusTwo => Some(-2i64),
        Slot::ConstMinusOne => Some(-1i64),
        Slot::ConstZero => Some(0i64),
        Slot::ConstOne => Some(1i64),
        Slot::ConstTwo => Some(2i64),
        _ => None,
    }
}

/// The slot a value is read as: a constant slot becomes its integer.
pub open spec fn normalize(s: Slot) -> Slot {
    match const_value(s) {
        Some(i) => Slot::Integer(i),
        None => s,
    }
}

/// The name of a slot's type.
pub open spec fn slot_type(s: Slot) -> Seq<char> {
    match s {
        Slot::BuiltIn(_) => "BuiltIn"@,
        Slot::ConstMinusOne | Slot::ConstMinusTwo | Slot::ConstOne | Slot::ConstTwo | Slot::ConstZero => "Integer"@,
        Slot::False | Slot::True => "Boolean"@,
        Slot::Integer(_) => "Integer"@,
        Slot::Real(_) => "Real"@,
        Slot::Unit => "Unit"@,
        Slot::Object(h) => object_type(h.obj()),
    }
}

/// The name of the type of the value a slot turns into.
pub open spec fn slot_value_type(s: Slot) -> Seq<char> {
    match s {
        Slot::BuiltIn(_) | Slot::Unit => "unit"@,
        Slot::ConstMinusOne | Slot::ConstMinusTwo | Slot::ConstOne | Slot::ConstTwo | Slot::ConstZero => "integer"@,
        Slot::False | Slot::True => "boolean"@,
        Slot::Integer(_) => "integer"@,
        Slot::Real(_) => "real"@,
        Slot::Object(h) => match h.obj() {
            Object::Array(a) => a.element_type@,
            Object::Class(_) => "Class"@,
            Object::Function(_) => "Function"@,
            Object::FunctionExt(_) => "FunctionExt"@,
            Object::Instance(i) => i.class_name(),
            Object::String(_) => "string"@,
        },
    }
}

/// Whether two real numbers, given as bit patterns, are equal: neither is
/// not-a-number, and they are the same number (the two zeroes are equal).
pub open spec fn real_eq(a: u64, b: u64) -> bool {
    let a_nan = (a & 0x7ff0_0000_0000_0000u64) == 0x7ff0_0000_0000_0000u64 && (a & 0x000f_ffff_ffff_ffffu64) != 0;
    let b_nan = (b & 0x7ff0_0000_0000_0000u64) == 0x7ff0_0000_0000_0000u64 && (b & 0x000f_ffff_ffff_ffffu64) != 0;
    let a_zero = (a & 0x7fff_ffff_ffff_ffffu64) == 0;
    let b_zero = (b & 0x7fff_ffff_ffff_ffffu64) == 0;
    !a_nan && !b_nan && (a == b || (a_zero && b_zero))
}

impl Slot {
    /// A copy of the slot; a copied object slot points to the same object.
    pub fn duplicate(&self) -> (r: Slot)
        ensures
            r == *self,
    {
        match self {
            Slot::BuiltIn(b) => Slot::BuiltIn(*b),
            Slot::ConstMinusOne => Slot::ConstMinusOne,
            Slot::ConstMinusTwo => Slot::ConstMinusTwo,
            Slot::ConstOne => Slot::ConstOne,
            Slot::ConstTwo => Slot::ConstTwo,
            Slot::ConstZero => Slot::ConstZero,
            Slot::False => Slot::False,
            Slot::Integer(i) => Slot::Integer(*i),
            Slot::Real(r) => Slot::Real(*r),
            Slot::True => Slot::True,
            Slot::Unit => Slot::Unit,
            Slot::Object(h) => Slot::Object(h.share()),
        }
    }

    /// The handle, if the slot holds an object.
    pub fn as_object(&self) -> (r: Option<Handle<Object>>)
        ensures
            match *self {
                Slot::Object(h) => r == Some(h),
                _ => r is None,
            },
    {
        match self {
            Slot::Object(handle) => Some(handle.share()),
            _ => None,
        }
    }

    /// Returns the text that shows the slot in a disassembly.
    pub fn debug_text(&self) -> (r: String)
        ensures
            r@ == slot_debug(*self),
    {
        let (head, inner): (&str, Option<String>) = match self {
            Slot::BuiltIn(b) => (
                "BuiltIn(",
                Some(
                    String::from_str(
                        match b {
                            BuiltinFunction::Undefined => "Undefined",
                            BuiltinFunction::Print => "Print",
                            BuiltinFunction::WaitUntilStarted => "WaitUntilStarted",
                            BuiltinFunction::WaitUntilDone => "WaitUntilDone",
                        },
                    ),
                ),
            ),
            Slot::ConstMinusOne => ("ConstMinusOne", None),
            Slot::ConstMinusTwo => ("ConstMinusTwo", None),
            Slot::ConstOne => ("ConstOne", None),
            Slot::ConstTwo => ("ConstTwo", None),
            Slot::ConstZero => ("ConstZero", None),
            Slot::False => ("False", None),
            Slot::Integer(i) => ("Integer(", Some(crate::text::signed_decimal_string(*i as i128))),
            Slot::Real(b) => ("Real(", Some(crate::text::decimal_string(*b))),
            Slot::True => ("True", None),
            Slot::Unit => ("Unit", None),
            Slot::Object(h) => ("Object(", Some(h.get().data_type())),
        };
        let mut out = String::from_str(head);
        match inner {
            Some(t) => {
                out.append(t.as_str());
                out.append(")");
            },
            None => {},
        }
        proof {
            reveal_strlit(")");
        }
        out
    }

    /// Returns the name of the slot's type.
    pub fn data_type(&self) -> (r: String)
        ensures
            r@ == slot_type(*self),
    {
        match self {
            Slot::BuiltIn(_) => String::from_str("BuiltIn"),
            Slot::ConstMinusOne | Slot::ConstMinusTwo | Slot::ConstOne | Slot::ConstTwo | Slot::ConstZero => String::from_str("Integer"),
            Slot::False | Slot::True => String::from_str("Boolean"),
            Slot::Integer(_) => String::from_str("Integer"),
            Slot::Real(_) => String::from_str("Real"),
            Slot::Unit => String::from_str("Unit"),
            Slot::Object(h) => h.get().data_type(),
        }
    }

    /// Returns the name of the type of the value the slot turns into.
    pub fn value_type(&self) -> (r: String)
        ensures
            r@ == slot_value_type(*self),
    {
        match self {
            Slot::BuiltIn(_) | Slot::Unit => String::from_str("unit"),
            Slot::ConstMinusOne | Slot::ConstMinusTwo | Slot::ConstOne | Slot::ConstTwo | Slot::ConstZero => String::from_str("integer"),
            Slot::False | Slot::True => String::from_str("boolean"),
            Slot::Integer(_) => String::from_str("integer"),
            Slot::Real(_) => String::from_str("real"),
            Slot::Object(h) => match h.get() {
                Object::Array(a) => a.element_type.clone(),
                Object::Class(_) => String::from_str("Class"),
                Object::Function(_) => String::from_str("Function"),
                Object::FunctionExt(_) => String::from_str("FunctionExt"),
                Object::Instance(i) => i.get_class_name(),
                Object::String(_) => String::from_str("string"),
            },
        }
    }
}

/// The slot an integer is pushed as: a constant slot for -2 to 2 on a stack
/// that uses constant slots, an integer slot otherwise.
pub open spec fn integer_slot(i: i64, use_const: bool) -> Slot {
    if use_const && i == -2 {
        Slot::ConstMinusTwo
    } else if use_const && i == -1 {
        Slot::ConstMinusOne
    } else if use_const && i == 0 {
        Slot::ConstZero
    } else if use_const && i == 1 {
        Slot::ConstOne
    } else if use_const && i == 2 {
        Slot::ConstTwo
    } else {
        Slot::Integer(i)
    }
}

/// The slot a boolean is pushed as.
pub open spec fn boolean_slot(b: bool) -> Slot {
    if b {
        Slot::True
    } else {
        Slot::False
    }
}

/// The stack of the machine.
#[derive(Debug)]
pub struct Stack {
    inner: Vec<Slot>,
    use_const: bool,
}

impl View for Stack {
    type V = Seq<Slot>;

    closed spec fn view(&self) -> Seq<Slot> {
        self.inner@
    }
}

/// The stack after `swap_remove`: the slot at the index is replaced by the
/// top slot, which is removed.
pub open spec fn swap_removed(s: Seq<Slot>, index: int) -> Seq<Slot> {
    s.update(index, s.last()).drop_last()
}

impl Stack {
    /// Whether the stack stores the integers -2 to 2 as constant slots.
    pub closed spec fn uses_const(&self) -> bool {
        self.use_const
    }

    /// Makes an empty stack that reserves room for `size` slots.
    pub fn new(size: usize, use_const: bool) -> (r: Stack)
        ensures
            r@ == Seq::<Slot>::empty(),
            r.uses_const() == use_const,
    {
        Stack { inner: Vec::with_capacity(size), use_const }
    }

    /// Returns the slot at the index.
    pub fn get(&self, index: usize) -> (r: &Slot)
        requires
            index < self@.len(),
        ensures
            *r == self@[index as int],
    {
        &self.inner[index]
    }

    /// Returns the object handle at the index.
    pub fn get_object(&self, index: usize) -> (r: Result<Handle<Object>, StackError>)
        requires
            index < self@.len(),
        ensures
            match self@[index as int] {
                Slot::Object(h) => r == Ok::<Handle<Object>, StackError>(h),
                s => r matches Err(StackError::UnexpectedType { got, expected })
                    && got@ == slot_type(s) && expected@ == "Object"@,
            },
    {
        match &self.inner[index] {
            Slot::Object(h) => Ok(h.share()),
            s => Err(StackError::UnexpectedType { got: s.data_type(), expected: String::from_str("Object") }),
        }
    }

    /// Returns the boolean on top of the stack, leaving it there.
    pub fn peek_boolean(&mut self) -> (r: Result<bool, StackError>)
        requires
            old(self)@.len() > 0,
        ensures
            final(self)@ == old(self)@,
            final(self).uses_const() == old(self).uses_const(),
            match old(self)@.last() {
                Slot::False => r == Ok::<bool, StackError>(false),
                Slot::True => r == Ok::<bool, StackError>(true),
                s => r matches Err(StackError::UnexpectedType { got, expected })
                    && got@ == slot_type(s) && expected@ == "Boolean"@,
            },
    {
        let top = &self.inner[self.inner.len() - 1];
        match top {
            Slot::False => Ok(false),
            Slot::True => Ok(true),
            _ => Err(StackError::UnexpectedType { expected: String::from_str("Boolean"), got: top.data_type() }),
        }
    }

    /// Removes and returns the top slot, or returns `None` on an empty stack.
    pub fn try_pop(&mut self) -> (r: Option<Slot>)
        ensures
            final(self).uses_const() == old(self).uses_const(),
            old(self)@.len() == 0 ==> r is None && final(self)@ == old(self)@,
            old(self)@.len() > 0 ==> r == Some(old(self)@.last()) && final(self)@ == old(self)@.drop_last(),
    {
        self.inner.pop()
    }

    /// Removes and returns the top slot; on a stack that uses constant slots,
    /// a constant slot is returned as an integer slot.
    pub fn pop(&mut self) -> (r: Result<Slot, StackError>)
        requires
            old(self)@.len() > 0,
        ensures
            final(self)@ == old(self)@.drop_last(),
            final(self).uses_const() == old(self).uses_const(),
            r == Ok::<Slot, StackError>(if old(self).uses_const() { normalize(old(self)@.last()) } else { old(self)@.last() }),
    {
        let slot = self.inner.pop().unwrap();
        if !self.use_const {
            return Ok(slot);
        }
        match slot {
            Slot::ConstMinusOne => Ok(Slot::Integer(-1)),
            Slot::ConstMinusTwo => Ok(Slot::Integer(-2)),
            Slot::ConstOne => Ok(Slot::Integer(1)),
            Slot::ConstTwo => Ok(Slot::Integer(2)),
            Slot::ConstZero => Ok(Slot::Integer(0)),
            slot => Ok(slot),
        }
    }

    /// Removes the slot at the index: the top slot takes its place.
    pub fn copy_pop(&mut self, index: usize)
        requires
            index < old(self)@.len(),
        ensures
            final(self)@ == swap_removed(old(self)@, index as int),
            final(self).uses_const() == old(self).uses_const(),
    {
        self.inner.swap_remove(index);
        assert(self.inner@ =~= swap_removed(old(self)@, index as int));
    }

    /// Removes the top slot and returns it as a boolean.
    pub fn pop_boolean(&mut self) -> (r: Result<bool, StackError>)
        requires
            old(self)@.len() > 0,
        ensures
            final(self)@ == old(self)@.drop_last(),
            final(self).uses_const() == old(self).uses_const(),
            match old(self)@.last() {
                Slot::False => r == Ok::<bool, StackError>(false),
                Slot::True => r == Ok::<bool, StackError>(true),
                s => r matches Err(StackError::UnexpectedType { got, expected })
                    && got@ == slot_type(s) && expected@ == "Boolean"@,
            },
    {
        let slot = self.inner.pop().unwrap();
        match slot {
            Slot::False => Ok(false),
            Slot::True => Ok(true),
            _ => Err(StackError::UnexpectedType { expected: String::from_str("Boolean"), got: slot.data_type() }),
        }
    }

    /// Removes the top slot and returns it as an integer. A constant slot
    /// is an integer only on a stack that uses constant slots.
    pub fn pop_integer(&mut self) -> (r: Result<i64, StackError>)
        requires
            old(self)@.len() > 0,
        ensures
            final(self)@ == old(self)@.drop_last(),
            final(self).uses_const() == old(self).uses_const(),
            match old(self)@.last() {
                Slot::Integer(n) => r == Ok::<i64, StackError>(n),
                Slot::ConstMinusTwo | Slot::ConstMinusOne | Slot::ConstZero | Slot::ConstOne | Slot::ConstTwo => {
                    if old(self).uses_const() {
                        r == Ok::<i64, StackError>(const_value(old(self)@.last())->0)
                    } else {
                        r == Err::<i64, StackError>(StackError::NotUsingConstOpts { slot: old(self)@.last() })
                    }
                },
                s => r matches Err(StackError::UnexpectedType { got, expected })
                    && got@ == slot_type(s) && expected@ == "Integer"@,
            },
    {
        let slot = self.inner.pop().unwrap();
        match slot {
            Slot::Integer(n) => Ok(n),
            Slot::ConstMinusTwo => if self.use_const { Ok(-2) } else { Err(StackError::NotUsingConstOpts { slot }) },
            Slot::ConstMinusOne => if self.use_const { Ok(-1) } else { Err(StackError::NotUsingConstOpts { slot }) },
            Slot::ConstZero => if self.use_const { Ok(0) } else { Err(StackError::NotUsingConstOpts { slot }) },
            Slot::ConstOne => if self.use_const { Ok(1) } else { Err(StackError::NotUsingConstOpts { slot }) },
            Slot::ConstTwo => if self.use_const { Ok(2) } else { Err(StackError::NotUsingConstOpts { slot }) },
            _ => Err(StackError::UnexpectedType { expected: String::from_str("Integer"), got: slot.data_type() }),
        }
    }

    /// Removes the top slot and returns it as a real number (its bit pattern).
    pub fn pop_real(&mut self) -> (r: Result<u64, StackError>)
        requires
            old(self)@.len() > 0,
        ensures
            final(self)@ == old(self)@.drop_last(),
            final(self).uses_const() == old(self).uses_const(),
            match old(self)@.last() {
                Slot::Real(n) => r == Ok::<u64, StackError>(n),
                s => r matches Err(StackError::UnexpectedType { got, expected })
                    && got@ == slot_type(s) && expected@ == "Real"@,
            },
    {
        let slot = self.inner.pop().unwrap();
        match slot {
            Slot::Real(n) => Ok(n),
            _ => Err(StackError::UnexpectedType { expected: String::from_str("Real"), got: slot.data_type() }),
        }
    }

    /// Removes the top slot and returns it as an object handle.
    pub fn pop_object(&mut self) -> (r: Result<Handle<Object>, StackError>)
        requires
            old(self)@.len() > 0,
        ensures
            final(self)@ == old(self)@.drop_last(),
            final(self).uses_const() == old(self).uses_const(),
            match old(self)@.last() {
                Slot::Object(h) => r == Ok::<Handle<Object>, StackError>(h),
                s => r matches Err(StackError::UnexpectedType { got, expected })
                    && got@ == slot_type(s) && expected@ == "Object"@,
            },
    {
        let slot = self.inner.pop().unwrap();
        match slot {
            Slot::Object(h) => Ok(h),
            _ => Err(StackError::UnexpectedType { expected: String::from_str("Object"), got: slot.data_type() }),
        }
    }

    /// Removes the top slot and checks that it is the unit value.
    pub fn pop_unit(&mut self) -> (r: Result<(), StackError>)
        requires
            old(self)@.len() > 0,
        ensures
            final(self)@ == old(self)@.drop_last(),
            final(self).uses_const() == old(self).uses_const(),
            match old(self)@.last() {
                Slot::Unit => r == Ok::<(), StackError>(()),
                s => r matches Err(StackError::UnexpectedType { got, expected })
                    && got@ == slot_type(s) && expected@ == "Unit"@,
            },
    {
        let slot = self.inner.pop().unwrap();
        match slot {
            Slot::Unit => Ok(()),
            _ => Err(StackError::UnexpectedType { expected: String::from_str("Unit"), got: slot.data_type() }),
        }
    }

    /// Pushes the slot, if there is one.
    pub fn try_push(&mut self, slot: Option<Slot>)
        ensures
            final(self).uses_const() == old(self).uses_const(),
            match slot {
                Some(s) => final(self)@ == old(self)@.push(s),
                None => final(self)@ == old(self)@,
            },
    {
        if let Some(slot) = slot {
            self.inner.push(slot)
        }
    }

    /// Pushes the slot.
    pub fn push(&mut self, slot: Slot)
        ensures
            final(self)@ == old(self)@.push(slot),
            final(self).uses_const() == old(self).uses_const(),
    {
        self.inner.push(slot);
    }

    /// Pushes a copy of the slot at the index.
    pub fn copy_push(&mut self, index: usize)
        requires
            index < old(self)@.len(),
        ensures
            final(self)@ == old(self)@.push(old(self)@[index as int]),
            final(self).uses_const() == old(self).uses_const(),
    {
        let elem = self.inner[index].duplicate();
        self.inner.push(elem);
    }

    /// Pushes a boolean.
    pub fn push_boolean(&mut self, boolean: bool)
        ensures
            final(self)@ == old(self)@.push(boolean_slot(boolean)),
            final(self).uses_const() == old(self).uses_const(),
    {
        let slot = if boolean { Slot::True } else { Slot::False };
        self.inner.push(slot);
    }

    /// Pushes an integer; on a stack that uses constant slots, -2 to 2 are
    /// pushed as constant slots.
    pub fn push_integer(&mut self, integer: i64)
        ensures
            final(self)@ == old(self)@.push(integer_slot(integer, old(self).uses_const())),
            final(self).uses_const() == old(self).uses_const(),
    {
        let slot = if self.use_const {
            match integer {
                -2 => Slot::ConstMinusTwo,
                -1 => Slot::ConstMinusOne,
                0 => Slot::ConstZero,
                1 => Slot::ConstOne,
                2 => Slot::ConstTwo,
                n => Slot::Integer(n),
            }
        } else {
            Slot::Integer(integer)
        };
        self.inner.push(slot);
    }

    /// Pushes a real number, given as its bit pattern.
    pub fn push_real(&mut self, bits: u64)
        ensures
            final(self)@ == old(self)@.push(Slot::Real(bits)),
            final(self).uses_const() == old(self).uses_const(),
    {
        self.inner.push(Slot::Real(bits));
    }

    /// Pushes an object handle.
    pub fn push_object(&mut self, object: Handle<Object>)
        ensures
            final(self)@ == old(self)@.push(Slot::Object(object)),
            final(self).uses_const() == old(self).uses_const(),
    {
        self.inner.push(Slot::Object(object));
    }

    /// Pushes the unit value.
    pub fn push_unit(&mut self)
        ensures
            final(self)@ == old(self)@.push(Slot::Unit),
            final(self).uses_const() == old(self).uses_const(),
    {
        self.inner.push(Slot::Unit);
    }

    /// Removes every slot.
    pub fn clear(&mut self)
        ensures
            final(self)@ == Seq::<Slot>::empty(),
            final(self).uses_const() == old(self).uses_const(),
    {
        self.inner.clear();
    }

    /// Removes the slots from the index on; those below it stay.
    pub fn clear_from(&mut self, index: usize)
        ensures
            final(self)@ == (if index < old(self)@.len() { old(self)@.subrange(0, index as int) } else { old(self)@ }),
            final(self).uses_const() == old(self).uses_const(),
    {
        self.inner.truncate(index);
    }

    /// Returns whether the stack uses constant slots for small integers.
    pub fn uses_consts(&self) -> (r: bool)
        ensures
            r == self.uses_const(),
    {
        self.use_const
    }

    /// Returns the number of slots.
    pub fn len(&self) -> (r: usize)
        ensures
            r == self@.len(),
    {
        self.inner.len()
    }

    /// Returns whether the stack holds no slot.
    pub fn is_empty(&self) -> (r: bool)
        ensures
            r == (self@.len() == 0),
    {
        self.inner.len() == 0
    }
}

impl Default for Stack {
    fn default() -> (r: Stack)
        ensures
            r@ == Seq::<Slot>::empty(),
            r.uses_const(),
    {
        Stack::new(STACK_MAX, true)
    }
}

/// An integer pushed on a stack comes back unchanged when the slot is
/// popped as an integer (by `pop_integer`): it is an integer slot, or a
/// constant slot of that integer on a stack that uses constant slots.
/// Popped as a slot (by `pop`), it comes back as an integer slot.
pub proof fn law_integer_roundtrip(i: i64, use_const: bool)
    ensures
        integer_slot(i, use_const) == Slot::Integer(i)
            || (use_const && const_value(integer_slot(i, use_const)) == Some(i)),
        (if use_const { normalize(integer_slot(i, use_const)) } else { integer_slot(i, use_const) }) == Slot::Integer(i),
{
}

} // verus!
