//! The bytecode of the machine: its instructions, chunks of code with their
//! constants, and the workable and frozen forms of functions and classes.

use crate::buffers::{
    bytes_mut_extend, bytes_mut_freeze, bytes_mut_from_bytes, bytes_mut_from_slice, bytes_mut_new, bytes_mut_put_u8,
    bytes_mut_to_vec, bytes_mut_view, bytes_view,
};
use crate::convert::{
    alloc_slot, constant_frozen, constants_freezable, constants_frozen, freeze_constants, function_frozen, slot_convertible,
    slot_to_value, slot_value,
};
use crate::heap::Heap;
use crate::objects::{unique_keys, Class, Function, Object};
use crate::heap::HeapError;
use crate::stack::Slot;
use crate::value::{Bytecode, SpecClass, SpecFunction, Value};
use bytes::{Bytes, BytesMut};
use vstd::prelude::*;

verus! {

/// The errors of bytecode.
#[derive(Debug, PartialEq, Eq)]
pub enum BytecodeError {
    /// A byte that encodes no instruction stands where an instruction should.
    UnknownInstruction { instruction: u8 },
    /// An object could not be put on the heap.
    HeapAllocateError { err: HeapError },
}

/// The instructions of the machine.
#[allow(non_camel_case_types)]
#[derive(Debug, Clone, Copy, PartialEq, Eq, Structural)]
pub enum Opcode {
    /// Performs an arithmetic add on the top two items on the stack.
    ADD,
    /// Performs a logical conjunction on the top two items on the stack.
    AND,
    /// Creates an Array on the heap from the last N elements on the stack.
    ARRAY,
    /// Performs a function call, possibly external if the function on top of the stack is.
    CALL,
    /// Creates a new class type on the stack
    CLASS,
    /// Moves a constant from the callframe to the stack
    CONSTANT,
    /// Creates a new global with its identifier in the callframe and its new value on the top of the stack.
    DEFINE_GLOBAL,
    /// Performs an division add on the top two items on the stack.
    DIVIDE,
    /// Access the value of a property from an instance.
    DOT,
    /// Checks if the top two values on the stack are equal to each other.
    EQUAL,
    /// Pushes a simple False boolean onto the stack.
    FALSE,
    /// Returns the value of the given global variable.
    GET_GLOBAL,
    /// Returns the value of the given local variable.
    GET_LOCAL,
    /// Returns a method belonging to an instance.
    GET_METHOD,
    /// Access the value of a property from an instance.
    GET_PROPERTY,
    /// Checks if the top two values on the stack if the lefthandside is larger than the righthandside.
    GREATER,
    /// Imports the functions and types of a package into global memory.
    IMPORT,
    /// Indexes a given array and returns the value of the referred element.
    INDEX,
    /// Moves the instruction pointer in the current frame _forward_.
    JUMP,
    /// Moves the instruction pointer in the current frame _backward_.
    JUMP_BACK,
    /// Moves the instruction pointer in the current frame _forward_ if the top value on the stack is false.
    JUMP_IF_FALSE,
    /// Checks if the top two values on the stack if the lefthandside is smaller than the righthandside.
    LESS,
    /// Pops the top location off the location stack, returning it on the stack.
    LOC,
    /// Pops the top location off the location stack, not returning anything.
    LOC_POP,
    /// Pushes the top value of the stack to the location stack.
    LOC_PUSH,
    /// Performs an arithmetic multiplication on the top two items on the stack.
    MULTIPLY,
    /// Performs an arithmetic negation on the top item on the stack.
    NEGATE,
    /// Instantiates a given Object.
    NEW,
    /// Performs a logical not-operation on the top item on the stack.
    NOT,
    /// Performs a logical disjunction on the top two items on the stack.
    OR,
    /// Runs functions as parallel branches and collects their results in an array.
    PARALLEL,
    /// Pops the top value off the stack.
    POP,
    /// Pops the top N values off the stack.
    POP_N,
    /// Pops the current frame from the callstack, returning to the calling function.
    RETURN,
    /// Sets the value for a global variable.
    SET_GLOBAL,
    /// Sets the value for a local variable.
    SET_LOCAL,
    /// Performs an arithmetic subtraction on the top two items on the stack.
    SUBSTRACT,
    /// Pushes a simple True boolean onto the stack.
    TRUE,
    /// Pushes a simple Unit (void value) onto the stack.
    UNIT,
}

/// The byte that encodes an instruction.
pub open spec fn opcode_byte(op: Opcode) -> u8 {
    match op {
        Opcode::ADD => 1,
        Opcode::AND => 2,
        Opcode::ARRAY => 3,
        Opcode::CALL => 4,
        Opcode::CLASS => 5,
        Opcode::CONSTANT => 6,
        Opcode::DEFINE_GLOBAL => 7,
        Opcode::DIVIDE => 8,
        Opcode::DOT => 9,
        Opcode::EQUAL => 10,
        Opcode::FALSE => 11,
        Opcode::GET_GLOBAL => 12,
        Opcode::GET_LOCAL => 13,
        Opcode::GET_METHOD => 38,
        Opcode::GET_PROPERTY => 39,
        Opcode::GREATER => 14,
        Opcode::IMPORT => 15,
        Opcode::INDEX => 16,
        Opcode::JUMP => 17,
        Opcode::JUMP_BACK => 18,
        Opcode::JUMP_IF_FALSE => 19,
        Opcode::LESS => 20,
        Opcode::LOC => 37,
        Opcode::LOC_POP => 21,
        Opcode::LOC_PUSH => 22,
        Opcode::MULTIPLY => 23,
        Opcode::NEGATE => 24,
        Opcode::NEW => 25,
        Opcode::NOT => 26,
        Opcode::OR => 27,
        Opcode::PARALLEL => 28,
        Opcode::POP => 29,
        Opcode::POP_N => 30,
        Opcode::RETURN => 31,
        Opcode::SET_GLOBAL => 32,
        Opcode::SET_LOCAL => 33,
        Opcode::SUBSTRACT => 34,
        Opcode::TRUE => 35,
        Opcode::UNIT => 36,
    }
}

/// The instruction a byte encodes, if any.
pub open spec fn opcode_of_byte(b: u8) -> Option<Opcode> {
    if b == 1 {
        Some(Opcode::ADD)
    } else if b == 2 {
        Some(Opcode::AND)
    } else if b == 3 {
        Some(Opcode::ARRAY)
    } else if b == 4 {
        Some(Opcode::CALL)
    } else if b == 5 {
        Some(Opcode::CLASS)
    } else if b == 6 {
        Some(Opcode::CONSTANT)
    } else if b == 7 {
        Some(Opcode::DEFINE_GLOBAL)
    } else if b == 8 {
        Some(Opcode::DIVIDE)
    } else if b == 9 {
        Some(Opcode::DOT)
    } else if b == 10 {
        Some(Opcode::EQUAL)
    } else if b == 11 {
        Some(Opcode::FALSE)
    } else if b == 12 {
        Some(Opcode::GET_GLOBAL)
    } else if b == 13 {
        Some(Opcode::GET_LOCAL)
    } else if b == 38 {
        Some(Opcode::GET_METHOD)
    } else if b == 39 {
        Some(Opcode::GET_PROPERTY)
    } else if b == 14 {
        Some(Opcode::GREATER)
    } else if b == 15 {
        Some(Opcode::IMPORT)
    } else if b == 16 {
        Some(Opcode::INDEX)
    } else if b == 17 {
        Some(Opcode::JUMP)
    } else if b == 18 {
        Some(Opcode::JUMP_BACK)
    } else if b == 19 {
        Some(Opcode::JUMP_IF_FALSE)
    } else if b == 20 {
        Some(Opcode::LESS)
    } else if b == 37 {
        Some(Opcode::LOC)
    } else if b == 21 {
        Some(Opcode::LOC_POP)
    } else if b == 22 {
        Some(Opcode::LOC_PUSH)
    } else if b == 23 {
        Some(Opcode::MULTIPLY)
    } else if b == 24 {
        Some(Opcode::NEGATE)
    } else if b == 25 {
        Some(Opcode::NEW)
    } else if b == 26 {
        Some(Opcode::NOT)
    } else if b == 27 {
        Some(Opcode::OR)
    } else if b == 28 {
        Some(Opcode::PARALLEL)
    } else if b == 29 {
        Some(Opcode::POP)
    } else if b == 30 {
        Some(Opcode::POP_N)
    } else if b == 31 {
        Some(Opcode::RETURN)
    } else if b == 32 {
        Some(Opcode::SET_GLOBAL)
    } else if b == 33 {
        Some(Opcode::SET_LOCAL)
    } else if b == 34 {
        Some(Opcode::SUBSTRACT)
    } else if b == 35 {
        Some(Opcode::TRUE)
    } else if b == 36 {
        Some(Opcode::UNIT)
    } else {
        None
    }
}

/// The name under which an instruction is shown.
pub open spec fn opcode_name(op: Opcode) -> Seq<char> {
    match op {
        Opcode::ADD => "OP_ADD"@,
        Opcode::AND => "OP_AND"@,
        Opcode::ARRAY => "OP_ARRAY"@,
        Opcode::CALL => "OP_CALL"@,
        Opcode::CLASS => "OP_CLASS"@,
        Opcode::CONSTANT => "OP_CONSTANT"@,
        Opcode::DEFINE_GLOBAL => "OP_DEFINE_GLOBAL"@,
        Opcode::DIVIDE => "OP_DIVIDE"@,
        Opcode::DOT => "OP_DOT"@,
        Opcode::EQUAL => "OP_EQUAL"@,
        Opcode::FALSE => "OP_FALSE"@,
        Opcode::GET_GLOBAL => "OP_GET_GLOBAL"@,
        Opcode::GET_LOCAL => "OP_GET_LOCAL"@,
        Opcode::GET_METHOD => "OP_GET_METHOD"@,
        Opcode::GET_PROPERTY => "OP_GET_PROPERTY"@,
        Opcode::GREATER => "OP_GREATER"@,
        Opcode::IMPORT => "OP_IMPORT"@,
        Opcode::INDEX => "OP_INDEX"@,
        Opcode::JUMP => "OP_JUMP"@,
        Opcode::JUMP_BACK => "OP_JUMP_BACK"@,
        Opcode::JUMP_IF_FALSE => "OP_JUMP_IF_FALSE"@,
        Opcode::LESS => "OP_LESS"@,
        Opcode::LOC => "OP_LOC"@,
        Opcode::LOC_POP => "OP_LOC_POP"@,
        Opcode::LOC_PUSH => "OP_LOC_PUSH"@,
        Opcode::MULTIPLY => "OP_MULTIPLY"@,
        Opcode::NEGATE => "OP_NEGATE"@,
        Opcode::NEW => "OP_NEW"@,
        Opcode::NOT => "OP_NOT"@,
        Opcode::OR => "OP_OR"@,
        Opcode::PARALLEL => "OP_PARALLEL"@,
        Opcode::POP => "OP_POP"@,
        Opcode::POP_N => "OP_POP_N"@,
        Opcode::RETURN => "OP_RETURN"@,
        Opcode::SET_GLOBAL => "OP_SET_GLOBAL"@,
        Opcode::SET_LOCAL => "OP_SET_LOCAL"@,
        Opcode::SUBSTRACT => "OP_SUBSTRACT"@,
        Opcode::TRUE => "OP_TRUE"@,
        Opcode::UNIT => "OP_UNIT"@,
    }
}

/// How an instruction's operand bytes are read.
#[derive(Debug, Clone, Copy, PartialEq, Eq, Structural)]
pub enum OperandKind {
    /// No operand.
    Nothing,
    /// One byte that indexes the constants.
    Constant,
    /// One byte.
    Byte,
    /// Two bytes, big-endian, of a forward jump.
    Forward,
    /// Two bytes, big-endian, of a backward jump.
    Backward,
}

/// How an instruction's operand bytes are read.
pub open spec fn operand_kind(op: Opcode) -> OperandKind {
    match op {
        Opcode::ADD => OperandKind::Nothing,
        Opcode::AND => OperandKind::Nothing,
        Opcode::DIVIDE => OperandKind::Nothing,
        Opcode::EQUAL => OperandKind::Nothing,
        Opcode::FALSE => OperandKind::Nothing,
        Opcode::GREATER => OperandKind::Nothing,
        Opcode::INDEX => OperandKind::Nothing,
        Opcode::LESS => OperandKind::Nothing,
        Opcode::LOC => OperandKind::Nothing,
        Opcode::LOC_POP => OperandKind::Nothing,
        Opcode::LOC_PUSH => OperandKind::Nothing,
        Opcode::MULTIPLY => OperandKind::Nothing,
        Opcode::NEGATE => OperandKind::Nothing,
        Opcode::NOT => OperandKind::Nothing,
        Opcode::OR => OperandKind::Nothing,
        Opcode::POP => OperandKind::Nothing,
        Opcode::RETURN => OperandKind::Nothing,
        Opcode::SUBSTRACT => OperandKind::Nothing,
        Opcode::TRUE => OperandKind::Nothing,
        Opcode::UNIT => OperandKind::Nothing,
        Opcode::CLASS => OperandKind::Constant,
        Opcode::CONSTANT => OperandKind::Constant,
        Opcode::DEFINE_GLOBAL => OperandKind::Constant,
        Opcode::DOT => OperandKind::Constant,
        Opcode::GET_GLOBAL => OperandKind::Constant,
        Opcode::GET_METHOD => OperandKind::Constant,
        Opcode::GET_PROPERTY => OperandKind::Constant,
        Opcode::IMPORT => OperandKind::Constant,
        Opcode::ARRAY => OperandKind::Byte,
        Opcode::CALL => OperandKind::Byte,
        Opcode::GET_LOCAL => OperandKind::Byte,
        Opcode::NEW => OperandKind::Byte,
        Opcode::PARALLEL => OperandKind::Byte,
        Opcode::POP_N => OperandKind::Byte,
        Opcode::SET_GLOBAL => OperandKind::Byte,
        Opcode::SET_LOCAL => OperandKind::Byte,
        Opcode::JUMP | Opcode::JUMP_IF_FALSE => OperandKind::Forward,
        Opcode::JUMP_BACK => OperandKind::Backward,
    }
}

impl Opcode {
    /// Returns the byte that encodes the instruction.
    pub fn to_u8(&self) -> (r: u8)
        ensures
            r == opcode_byte(*self),
    {
        match self {
            Opcode::ADD => 0x01,
            Opcode::AND => 0x02,
            Opcode::ARRAY => 0x03,
            Opcode::CALL => 0x04,
            Opcode::CLASS => 0x05,
            Opcode::CONSTANT => 0x06,
            Opcode::DEFINE_GLOBAL => 0x07,
            Opcode::DIVIDE => 0x08,
            Opcode::DOT => 0x09,
            Opcode::EQUAL => 0x0A,
            Opcode::FALSE => 0x0B,
            Opcode::GET_GLOBAL => 0x0C,
            Opcode::GET_LOCAL => 0x0D,
            Opcode::GET_METHOD => 0x26,
            Opcode::GET_PROPERTY => 0x27,
            Opcode::GREATER => 0x0E,
            Opcode::IMPORT => 0x0F,
            Opcode::INDEX => 0x10,
            Opcode::JUMP => 0x11,
            Opcode::JUMP_BACK => 0x12,
            Opcode::JUMP_IF_FALSE => 0x13,
            Opcode::LESS => 0x14,
            Opcode::LOC => 0x25,
            Opcode::LOC_POP => 0x15,
            Opcode::LOC_PUSH => 0x16,
            Opcode::MULTIPLY => 0x17,
            Opcode::NEGATE => 0x18,
            Opcode::NEW => 0x19,
            Opcode::NOT => 0x1A,
            Opcode::OR => 0x1B,
            Opcode::PARALLEL => 0x1C,
            Opcode::POP => 0x1D,
            Opcode::POP_N => 0x1E,
            Opcode::RETURN => 0x1F,
            Opcode::SET_GLOBAL => 0x20,
            Opcode::SET_LOCAL => 0x21,
            Opcode::SUBSTRACT => 0x22,
            Opcode::TRUE => 0x23,
            Opcode::UNIT => 0x24,
        }
    }

    /// Returns the instruction a byte encodes, or `None` for a byte that encodes none.
    pub fn from_u8(b: u8) -> (r: Option<Opcode>)
        ensures
            r == opcode_of_byte(b),
    {
        match b {
            0x01 => Some(Opcode::ADD),
            0x02 => Some(Opcode::AND),
            0x03 => Some(Opcode::ARRAY),
            0x04 => Some(Opcode::CALL),
            0x05 => Some(Opcode::CLASS),
            0x06 => Some(Opcode::CONSTANT),
            0x07 => Some(Opcode::DEFINE_GLOBAL),
            0x08 => Some(Opcode::DIVIDE),
            0x09 => Some(Opcode::DOT),
            0x0A => Some(Opcode::EQUAL),
            0x0B => Some(Opcode::FALSE),
            0x0C => Some(Opcode::GET_GLOBAL),
            0x0D => Some(Opcode::GET_LOCAL),
            0x26 => Some(Opcode::GET_METHOD),
            0x27 => Some(Opcode::GET_PROPERTY),
            0x0E => Some(Opcode::GREATER),
            0x0F => Some(Opcode::IMPORT),
            0x10 => Some(Opcode::INDEX),
            0x11 => Some(Opcode::JUMP),
            0x12 => Some(Opcode::JUMP_BACK),
            0x13 => Some(Opcode::JUMP_IF_FALSE),
            0x14 => Some(Opcode::LESS),
            0x25 => Some(Opcode::LOC),
            0x15 => Some(Opcode::LOC_POP),
            0x16 => Some(Opcode::LOC_PUSH),
            0x17 => Some(Opcode::MULTIPLY),
            0x18 => Some(Opcode::NEGATE),
            0x19 => Some(Opcode::NEW),
            0x1A => Some(Opcode::NOT),
            0x1B => Some(Opcode::OR),
            0x1C => Some(Opcode::PARALLEL),
            0x1D => Some(Opcode::POP),
            0x1E => Some(Opcode::POP_N),
            0x1F => Some(Opcode::RETURN),
            0x20 => Some(Opcode::SET_GLOBAL),
            0x21 => Some(Opcode::SET_LOCAL),
            0x22 => Some(Opcode::SUBSTRACT),
            0x23 => Some(Opcode::TRUE),
            0x24 => Some(Opcode::UNIT),
            _ => None,
        }
    }

    /// Returns the name under which the instruction is shown.
    pub fn name(&self) -> (r: &'static str)
        ensures
            r@ == opcode_name(*self),
    {
        match self {
            Opcode::ADD => "OP_ADD",
            Opcode::AND => "OP_AND",
            Opcode::ARRAY => "OP_ARRAY",
            Opcode::CALL => "OP_CALL",
            Opcode::CLASS => "OP_CLASS",
            Opcode::CONSTANT => "OP_CONSTANT",
            Opcode::DEFINE_GLOBAL => "OP_DEFINE_GLOBAL",
            Opcode::DIVIDE => "OP_DIVIDE",
            Opcode::DOT => "OP_DOT",
            Opcode::EQUAL => "OP_EQUAL",
            Opcode::FALSE => "OP_FALSE",
            Opcode::GET_GLOBAL => "OP_GET_GLOBAL",
            Opcode::GET_LOCAL => "OP_GET_LOCAL",
            Opcode::GET_METHOD => "OP_GET_METHOD",
            Opcode::GET_PROPERTY => "OP_GET_PROPERTY",
            Opcode::GREATER => "OP_GREATER",
            Opcode::IMPORT => "OP_IMPORT",
            Opcode::INDEX => "OP_INDEX",
            Opcode::JUMP => "OP_JUMP",
            Opcode::JUMP_BACK => "OP_JUMP_BACK",
            Opcode::JUMP_IF_FALSE => "OP_JUMP_IF_FALSE",
            Opcode::LESS => "OP_LESS",
            Opcode::LOC => "OP_LOC",
            Opcode::LOC_POP => "OP_LOC_POP",
            Opcode::LOC_PUSH => "OP_LOC_PUSH",
            Opcode::MULTIPLY => "OP_MULTIPLY",
            Opcode::NEGATE => "OP_NEGATE",
            Opcode::NEW => "OP_NEW",
            Opcode::NOT => "OP_NOT",
            Opcode::OR => "OP_OR",
            Opcode::PARALLEL => "OP_PARALLEL",
            Opcode::POP => "OP_POP",
            Opcode::POP_N => "OP_POP_N",
            Opcode::RETURN => "OP_RETURN",
            Opcode::SET_GLOBAL => "OP_SET_GLOBAL",
            Opcode::SET_LOCAL => "OP_SET_LOCAL",
            Opcode::SUBSTRACT => "OP_SUBSTRACT",
            Opcode::TRUE => "OP_TRUE",
            Opcode::UNIT => "OP_UNIT",
        }
    }

    /// Returns how the instruction's operand bytes are read.
    pub fn operand_kind(&self) -> (r: OperandKind)
        ensures
            r == operand_kind(*self),
    {
        match self {
            Opcode::ADD => OperandKind::Nothing,
            Opcode::AND => OperandKind::Nothing,
            Opcode::DIVIDE => OperandKind::Nothing,
            Opcode::EQUAL => OperandKind::Nothing,
            Opcode::FALSE => OperandKind::Nothing,
            Opcode::GREATER => OperandKind::Nothing,
            Opcode::INDEX => OperandKind::Nothing,
            Opcode::LESS => OperandKind::Nothing,
            Opcode::LOC => OperandKind::Nothing,
            Opcode::LOC_POP => OperandKind::Nothing,
            Opcode::LOC_PUSH => OperandKind::Nothing,
            Opcode::MULTIPLY => OperandKind::Nothing,
            Opcode::NEGATE => OperandKind::Nothing,
            Opcode::NOT => OperandKind::Nothing,
            Opcode::OR => OperandKind::Nothing,
            Opcode::POP => OperandKind::Nothing,
            Opcode::RETURN => OperandKind::Nothing,
            Opcode::SUBSTRACT => OperandKind::Nothing,
            Opcode::TRUE => OperandKind::Nothing,
            Opcode::UNIT => OperandKind::Nothing,
            Opcode::CLASS => OperandKind::Constant,
            Opcode::CONSTANT => OperandKind::Constant,
            Opcode::DEFINE_GLOBAL => OperandKind::Constant,
            Opcode::DOT => OperandKind::Constant,
            Opcode::GET_GLOBAL => OperandKind::Constant,
            Opcode::GET_METHOD => OperandKind::Constant,
            Opcode::GET_PROPERTY => OperandKind::Constant,
            Opcode::IMPORT => OperandKind::Constant,
            Opcode::ARRAY => OperandKind::Byte,
            Opcode::CALL => OperandKind::Byte,
            Opcode::GET_LOCAL => OperandKind::Byte,
            Opcode::NEW => OperandKind::Byte,
            Opcode::PARALLEL => OperandKind::Byte,
            Opcode::POP_N => OperandKind::Byte,
            Opcode::SET_GLOBAL => OperandKind::Byte,
            Opcode::SET_LOCAL => OperandKind::Byte,
            Opcode::JUMP | Opcode::JUMP_IF_FALSE => OperandKind::Forward,
            Opcode::JUMP_BACK => OperandKind::Backward,
        }
    }
}

/// Frozen code: the bytes of the instructions and the constants as slots.
#[derive(Debug)]
pub struct Chunk {
    pub code: Bytes,
    pub constants: Vec<Slot>,
}

impl Chunk {
    /// The chunk's instruction bytes.
    pub open spec fn code_view(&self) -> Seq<u8> {
        bytes_view(self.code)
    }

    /// Every constant can be turned back into a value.
    pub open spec fn unfreezable(&self) -> bool {
        forall|j: int| 0 <= j < self.constants@.len() ==> slot_convertible(#[trigger] self.constants@[j])
    }

    /// Takes the chunk apart into workable code: the same bytes, writable,
    /// and the constants turned into values.
    pub fn unfreeze(self) -> (r: ChunkMut)
        requires
            self.unfreezable(),
        ensures
            r.unfrozen_from(self),
    {
        self.unfreeze_copy()
    }

    /// As `unfreeze`, on a borrowed chunk.
    pub fn unfreeze_copy(&self) -> (r: ChunkMut)
        requires
            self.unfreezable(),
        ensures
            r.unfrozen_from(*self),
    {
        let mut constants: Vec<Value> = Vec::new();
        let mut j: usize = 0;
        while j < self.constants.len()
            invariant
                j <= self.constants@.len(),
                constants@.len() == j,
                self.unfreezable(),
                forall|k: int| 0 <= k < j ==> slot_value(#[trigger] self.constants@[k], constants@[k]),
            decreases self.constants@.len() - j,
        {
            let v = slot_to_value(&self.constants[j]);
            constants.push(v);
            j = j + 1;
        }
        ChunkMut { code: bytes_mut_from_bytes(&self.code), constants }
    }
}

/// Workable code: a growable buffer of instruction bytes and the constants
/// as values.
#[derive(Debug)]
pub struct ChunkMut {
    pub code: BytesMut,
    pub constants: Vec<Value>,
}

impl ChunkMut {
    /// The chunk's instruction bytes.
    pub open spec fn code_view(&self) -> Seq<u8> {
        bytes_mut_view(self.code)
    }

    /// This chunk is the given frozen chunk taken apart.
    pub open spec fn unfrozen_from(&self, c: Chunk) -> bool {
        &&& self.code_view() == c.code_view()
        &&& self.constants@.len() == c.constants@.len()
        &&& forall|j: int| 0 <= j < c.constants@.len() ==> slot_value(#[trigger] c.constants@[j], self.constants@[j])
    }

    /// Freezes the chunk: its bytes become immutable and its constants are
    /// put in slots, strings, functions and classes on the heap.
    pub fn freeze(self, heap: &mut Heap<Object>) -> (r: Result<Chunk, BytecodeError>)
        requires
            old(heap).wf(),
            constants_freezable(self.constants@),
        ensures
            final(heap).wf(),
            final(heap).max() == old(heap).max(),
            final(heap).objects().len() <= old(heap).objects().len() + crate::convert::constants_allocs(
                self.constants@,
                self.constants@.len(),
            ),
            old(heap).objects().len() + crate::convert::constants_allocs(self.constants@, self.constants@.len())
                <= old(heap).max() ==> r is Ok,
            match r {
                Ok(c) => c.code_view() == self.code_view() && constants_frozen(self.constants@, c.constants@),
                Err(e) => e is HeapAllocateError,
            },
    {
        let constants = freeze_constants(&self.constants, heap)?;
        Ok(Chunk { code: bytes_mut_freeze(self.code), constants })
    }

    /// Makes a chunk of the code and constants.
    pub fn new(code: BytesMut, constants: Vec<Value>) -> (r: ChunkMut)
        ensures
            r.code == code,
            r.constants == constants,
    {
        ChunkMut { code, constants }
    }

    /// Makes an empty chunk.
    pub fn empty() -> (r: ChunkMut)
        ensures
            r.code_view() == Seq::<u8>::empty(),
            r.constants@ == Seq::<Value>::empty(),
    {
        ChunkMut { code: bytes_mut_new(), constants: Vec::new() }
    }

    /// Appends a byte to the code.
    pub fn write(&mut self, byte: u8)
        requires
            old(self).code_view().len() < usize::MAX,
        ensures
            final(self).code_view() == old(self).code_view().push(byte),
            final(self).constants == old(self).constants,
    {
        bytes_mut_put_u8(&mut self.code, byte);
    }

    /// Appends two bytes to the code.
    pub fn write_pair(&mut self, byte1: u8, byte2: u8)
        requires
            old(self).code_view().len() + 2 <= usize::MAX,
        ensures
            final(self).code_view() == old(self).code_view().push(byte1).push(byte2),
            final(self).constants == old(self).constants,
    {
        self.write(byte1);
        self.write(byte2);
    }

    /// Appends bytes to the code.
    pub fn write_bytes(&mut self, bytes: &[u8])
        requires
            old(self).code_view().len() + bytes@.len() <= usize::MAX,
        ensures
            final(self).code_view() == old(self).code_view() + bytes@,
            final(self).constants == old(self).constants,
    {
        bytes_mut_extend(&mut self.code, bytes);
    }

    /// Appends a constant and returns the byte that indexes it: its position,
    /// modulo 256.
    ///
    /// The position plus one must not be a multiple of 256: there the index
    /// computation underflows.
    pub fn add_constant(&mut self, value: Value) -> (r: u8)
        requires
            (old(self).constants@.len() + 1) % 256 != 0,
        ensures
            final(self).constants@ == old(self).constants@.push(value),
            final(self).code == old(self).code,
            r == old(self).constants@.len() % 256,
    {
        self.constants.push(value);
        ((self.constants.len() - 1) % 256) as u8
    }
}

impl Default for ChunkMut {
    fn default() -> (r: ChunkMut)
        ensures
            r.code_view() == Seq::<u8>::empty(),
            r.constants@ == Seq::<Value>::empty(),
    {
        ChunkMut::empty()
    }
}

/// A workable function: its arity, code and name.
#[derive(Debug)]
pub struct FunctionMut {
    pub arity: u8,
    pub chunk: ChunkMut,
    pub name: String,
}

impl FunctionMut {
    /// Makes the main function of a program: no parameters, named `main`.
    pub fn main(chunk: ChunkMut) -> (r: FunctionMut)
        ensures
            r.arity == 0,
            r.chunk == chunk,
            r.name@ == "main"@,
    {
        FunctionMut { arity: 0, chunk, name: String::from_str("main") }
    }

    /// Makes a function.
    pub fn new(name: String, arity: u8, chunk: ChunkMut) -> (r: FunctionMut)
        ensures
            r.name == name,
            r.arity == arity,
            r.chunk == chunk,
    {
        FunctionMut { arity, chunk, name }
    }
}

impl FunctionMut {
    /// This function is the given frozen function taken apart.
    pub open spec fn unfrozen_from(&self, f: Function) -> bool {
        &&& self.name@ == f.name@
        &&& self.arity == f.arity
        &&& self.chunk.unfrozen_from(f.chunk)
    }

    /// Freezes the function onto the heap.
    pub fn freeze(self, heap: &mut Heap<Object>) -> (r: Result<Function, BytecodeError>)
        requires
            old(heap).wf(),
            constants_freezable(self.chunk.constants@),
        ensures
            final(heap).wf(),
            final(heap).max() == old(heap).max(),
            final(heap).objects().len() <= old(heap).objects().len() + crate::convert::constants_allocs(
                self.chunk.constants@,
                self.chunk.constants@.len(),
            ),
            old(heap).objects().len() + crate::convert::constants_allocs(
                self.chunk.constants@,
                self.chunk.constants@.len(),
            ) <= old(heap).max() ==> r is Ok,
            match r {
                Ok(f) => function_frozen(self.name@, self.arity, self.chunk.code_view(), self.chunk.constants@, Object::Function(f)),
                Err(e) => e is HeapAllocateError,
            },
    {
        let FunctionMut { arity, chunk, name } = self;
        let chunk = chunk.freeze(heap)?;
        Ok(Function::new(name, arity, chunk))
    }

    /// Makes a workable function of a portable one.
    pub fn from_spec(f: SpecFunction) -> (r: FunctionMut)
        ensures
            r.name == f.name,
            r.arity == f.arity,
            r.chunk.code_view() == f.bytecode.code@,
            r.chunk.constants == f.bytecode.constants,
    {
        let SpecFunction { arity, name, bytecode } = f;
        let Bytecode { code, constants } = bytecode;
        FunctionMut::new(name, arity, ChunkMut::new(bytes_mut_from_slice(code.as_slice()), constants))
    }

    /// Makes a portable function of a workable one.
    pub fn into_spec(self) -> (r: SpecFunction)
        ensures
            r.name == self.name,
            r.arity == self.arity,
            r.bytecode.code@ == self.chunk.code_view(),
            r.bytecode.constants == self.chunk.constants,
    {
        let FunctionMut { arity, chunk, name } = self;
        let ChunkMut { code, constants } = chunk;
        SpecFunction { arity, name, bytecode: Bytecode { code: bytes_mut_to_vec(&code), constants } }
    }
}

/// A workable class: its name, its properties (name and type) and methods.
#[derive(Debug)]
pub struct ClassMut {
    pub name: String,
    pub properties: Vec<(String, String)>,
    pub methods: Vec<(String, FunctionMut)>,
}

impl ClassMut {
    /// Makes a class.
    pub fn new(name: String, properties: Vec<(String, String)>, methods: Vec<(String, FunctionMut)>) -> (r: ClassMut)
        ensures
            r.name == name,
            r.properties == properties,
            r.methods == methods,
    {
        ClassMut { name, properties, methods }
    }

    /// Freezes the class onto the heap: each method is frozen and put on the
    /// heap; the property list is not kept.
    pub fn freeze(self, heap: &mut Heap<Object>) -> (r: Result<Class, BytecodeError>)
        requires
            old(heap).wf(),
            unique_keys(self.methods@),
            forall|i: int| 0 <= i < self.methods@.len() ==> constants_freezable(#[trigger] self.methods@[i].1.chunk.constants@),
        ensures
            final(heap).wf(),
            final(heap).max() == old(heap).max(),
            match r {
                Ok(c) => {
                    &&& c.name() == self.name
                    &&& c.methods().len() == self.methods@.len()
                    &&& forall|i: int| 0 <= i < self.methods@.len() ==> {
                        &&& #[trigger] c.methods()[i].0@ == self.methods@[i].0@
                        &&& c.methods()[i].1 matches Slot::Object(mh) && function_frozen(
                            self.methods@[i].1.name@,
                            self.methods@[i].1.arity,
                            self.methods@[i].1.chunk.code_view(),
                            self.methods@[i].1.chunk.constants@,
                            mh.obj(),
                        )
                    }
                },
                Err(e) => e is HeapAllocateError,
            },
    {
        let ClassMut { name, properties, methods } = self;
        let ghost orig = methods@;
        let mut methods = methods;
        let mut out: Vec<(String, Slot)> = Vec::new();
        // Freeze the methods from the last to the first.
        while methods.len() > 0
            invariant
                heap.wf(),
                heap.max() == old(heap).max(),
                methods@ == orig.subrange(0, methods@.len() as int),
                methods@.len() + out@.len() == orig.len(),
                forall|i: int| 0 <= i < orig.len() ==> constants_freezable(#[trigger] orig[i].1.chunk.constants@),
                forall|k: int| 0 <= k < out@.len() ==> {
                    &&& #[trigger] out@[k].0@ == orig[orig.len() - 1 - k].0@
                    &&& out@[k].1 matches Slot::Object(mh) && function_frozen(
                        orig[orig.len() - 1 - k].1.name@,
                        orig[orig.len() - 1 - k].1.arity,
                        orig[orig.len() - 1 - k].1.chunk.code_view(),
                        orig[orig.len() - 1 - k].1.chunk.constants@,
                        mh.obj(),
                    )
                },
            decreases methods@.len(),
        {
            let ghost idx = methods@.len() - 1;
            let (k, v) = methods.pop().unwrap();
            proof {
                assert(orig[idx] == (k, v));
                assert(constants_freezable(orig[idx].1.chunk.constants@));
            }
            let function = v.freeze(heap)?;
            let slot = alloc_slot(heap, Object::Function(function))?;
            let ghost old_out = out@;
            out.push((k, slot));
            proof {
                let last = out@.len() - 1;
                assert forall|j: int| 0 <= j < last implies #[trigger] out@[j] == old_out[j] by {}
                assert forall|j: int| 0 <= j < last implies {
                    &&& #[trigger] out@[j].0@ == orig[orig.len() - 1 - j].0@
                    &&& out@[j].1 matches Slot::Object(mh) && function_frozen(
                        orig[orig.len() - 1 - j].1.name@,
                        orig[orig.len() - 1 - j].1.arity,
                        orig[orig.len() - 1 - j].1.chunk.code_view(),
                        orig[orig.len() - 1 - j].1.chunk.constants@,
                        mh.obj(),
                    )
                } by {
                    assert(old_out[j].0@ == orig[orig.len() - 1 - j].0@);
                }
                assert(orig.len() - 1 - last == idx);
                assert(out@[last].0@ == orig[idx].0@);
                assert(out@[last].1 matches Slot::Object(mh) && function_frozen(
                    orig[idx].1.name@,
                    orig[idx].1.arity,
                    orig[idx].1.chunk.code_view(),
                    orig[idx].1.chunk.constants@,
                    mh.obj(),
                ));
            }
        }
        // Put them back in order.
        let mut ordered: Vec<(String, Slot)> = Vec::new();
        let ghost rev = out@;
        while out.len() > 0
            invariant
                out@ == rev.subrange(0, out@.len() as int),
                ordered@.len() + out@.len() == rev.len(),
                forall|k: int| 0 <= k < ordered@.len() ==> #[trigger] ordered@[k] == rev[rev.len() - 1 - k],
            decreases out@.len(),
        {
            let e = out.pop().unwrap();
            ordered.push(e);
        }
        proof {
            assert forall|a: int, b: int| 0 <= a < b < ordered@.len() implies ordered@[a].0@ != ordered@[b].0@ by {
                assert(ordered@[a] == rev[rev.len() - 1 - a]);
                assert(ordered@[b] == rev[rev.len() - 1 - b]);
                assert(orig[a].0@ != orig[b].0@);
            }
            assert forall|k: int| 0 <= k < ordered@.len() implies crate::objects::is_function_slot(#[trigger] ordered@[k].1) by {
                assert(ordered@[k] == rev[rev.len() - 1 - k]);
                assert(rev[rev.len() - 1 - k].0@ == orig[orig.len() - 1 - (rev.len() - 1 - k)].0@);
            }
        }
        let c = Class::new(name, ordered);
        proof {
            assert forall|i: int| 0 <= i < orig.len() implies {
                &&& #[trigger] c.methods()[i].0@ == orig[i].0@
                &&& c.methods()[i].1 matches Slot::Object(mh) && function_frozen(
                    orig[i].1.name@,
                    orig[i].1.arity,
                    orig[i].1.chunk.code_view(),
                    orig[i].1.chunk.constants@,
                    mh.obj(),
                )
            } by {
                assert(ordered@[i] == rev[rev.len() - 1 - i]);
                assert(rev[rev.len() - 1 - i].0@ == orig[orig.len() - 1 - (rev.len() - 1 - i)].0@);
            }
        }
        Ok(c)
    }

    /// Makes a workable class of a portable one.
    pub fn from_spec(c: SpecClass) -> (r: ClassMut)
        ensures
            r.name == c.name,
            r.properties == c.properties,
            r.methods@.len() == c.methods@.len(),
            forall|i: int| 0 <= i < c.methods@.len() ==> {
                &&& #[trigger] r.methods@[i].0 == c.methods@[i].0
                &&& r.methods@[i].1.name == c.methods@[i].1.name
                &&& r.methods@[i].1.arity == c.methods@[i].1.arity
                &&& r.methods@[i].1.chunk.code_view() == c.methods@[i].1.bytecode.code@
                &&& r.methods@[i].1.chunk.constants == c.methods@[i].1.bytecode.constants
            },
    {
        let SpecClass { name, properties, methods } = c;
        let ghost orig = methods@;
        let mut methods = methods;
        let mut rev: Vec<(String, FunctionMut)> = Vec::new();
        while methods.len() > 0
            invariant
                methods@ == orig.subrange(0, methods@.len() as int),
                methods@.len() + rev@.len() == orig.len(),
                forall|k: int| 0 <= k < rev@.len() ==> {
                    &&& #[trigger] rev@[k].0 == orig[orig.len() - 1 - k].0
                    &&& rev@[k].1.name == orig[orig.len() - 1 - k].1.name
                    &&& rev@[k].1.arity == orig[orig.len() - 1 - k].1.arity
                    &&& rev@[k].1.chunk.code_view() == orig[orig.len() - 1 - k].1.bytecode.code@
                    &&& rev@[k].1.chunk.constants == orig[orig.len() - 1 - k].1.bytecode.constants
                },
            decreases methods@.len(),
        {
            let ghost idx = methods@.len() - 1;
            let (k, f) = methods.pop().unwrap();
            proof {
                assert(orig[idx] == (k, f));
            }
            rev.push((k, FunctionMut::from_spec(f)));
            proof {
                assert(rev@[rev@.len() - 1].0 == orig[orig.len() - 1 - (rev@.len() - 1)].0);
            }
        }
        let mut out: Vec<(String, FunctionMut)> = Vec::new();
        let ghost r2 = rev@;
        while rev.len() > 0
            invariant
                rev@ == r2.subrange(0, rev@.len() as int),
                out@.len() + rev@.len() == r2.len(),
                forall|k: int| 0 <= k < out@.len() ==> #[trigger] out@[k] == r2[r2.len() - 1 - k],
            decreases rev@.len(),
        {
            let e = rev.pop().unwrap();
            out.push(e);
        }
        proof {
            assert forall|i: int| 0 <= i < orig.len() implies {
                &&& #[trigger] out@[i].0 == orig[i].0
                &&& out@[i].1.name == orig[i].1.name
                &&& out@[i].1.arity == orig[i].1.arity
                &&& out@[i].1.chunk.code_view() == orig[i].1.bytecode.code@
                &&& out@[i].1.chunk.constants == orig[i].1.bytecode.constants
            } by {
                assert(out@[i] == r2[r2.len() - 1 - i]);
                assert(r2[r2.len() - 1 - i].0 == orig[orig.len() - 1 - (r2.len() - 1 - i)].0);
            }
        }
        ClassMut::new(name, properties, out)
    }
}

/// The byte of an instruction decodes to that instruction, and a byte that
/// decodes to an instruction is that instruction's byte.
pub proof fn law_opcode_byte_roundtrip(op: Opcode, b: u8)
    ensures
        opcode_of_byte(opcode_byte(op)) == Some(op),
        opcode_of_byte(b) == Some(op) ==> opcode_byte(op) == b,
{
}

/// A constant that a chunk holds as a plain value: a boolean, an integer,
/// a real or a string.
pub open spec fn plain_constant(v: Value) -> bool {
    v is Boolean || v is Integer || v is Real || v is Unicode
}

/// Two values are the same: equal, or strings of the same text.
pub open spec fn same_value(a: Value, b: Value) -> bool {
    match (a, b) {
        (Value::Unicode(x), Value::Unicode(y)) => x@ == y@,
        _ => a == b,
    }
}

/// Unfreezing a frozen chunk gives back its code and constants: where a
/// workable chunk `cm` whose constants are booleans, integers, reals and
/// strings froze into `c` (as `ChunkMut::freeze` states), `c` can be
/// unfrozen, and any `u` that `Chunk::unfreeze` gives for it has the same
/// code and the same constants.
pub proof fn law_chunk_roundtrip(cm: ChunkMut, c: Chunk, u: ChunkMut)
    requires
        forall|j: int| 0 <= j < cm.constants@.len() ==> plain_constant(#[trigger] cm.constants@[j]),
        c.code_view() == cm.code_view(),
        constants_frozen(cm.constants@, c.constants@),
        u.unfrozen_from(c),
    ensures
        c.unfreezable(),
        u.code_view() == cm.code_view(),
        u.constants@.len() == cm.constants@.len(),
        forall|j: int| 0 <= j < cm.constants@.len() ==> same_value(#[trigger] u.constants@[j], cm.constants@[j]),
{
    assert forall|j: int| 0 <= j < c.constants@.len() implies slot_convertible(#[trigger] c.constants@[j]) by {
        assert(constant_frozen(cm.constants@[j], c.constants@[j]));
        assert(plain_constant(cm.constants@[j]));
    }
    assert forall|j: int| 0 <= j < cm.constants@.len() implies same_value(#[trigger] u.constants@[j], cm.constants@[j]) by {
        assert(constant_frozen(cm.constants@[j], c.constants@[j]));
        assert(slot_value(c.constants@[j], u.constants@[j]));
        assert(plain_constant(cm.constants@[j]));
    }
}

} // verus!
