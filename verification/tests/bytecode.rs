use brane_vm::bytecode::{BytecodeError, ChunkMut, Opcode, OperandKind};
use brane_vm::disasm::{Instruction, Operand};
use brane_vm::heap::{Heap, HeapError};
use brane_vm::objects::Object;
use brane_vm::value::Value;

#[test]
fn every_opcode_byte_decodes_back() {
    for b in 0u8..=255 {
        if let Some(op) = Opcode::from_u8(b) {
            assert_eq!(op.to_u8(), b);
        }
    }
    assert_eq!(Opcode::from_u8(Opcode::PARALLEL.to_u8()), Some(Opcode::PARALLEL));
    assert_eq!(Opcode::from_u8(0), None);
    assert_eq!(Opcode::from_u8(200), None);
}

#[test]
fn opcode_bytes_and_names() {
    assert_eq!(Opcode::ADD.to_u8(), 1);
    assert_eq!(Opcode::UNIT.to_u8(), 36);
    assert_eq!(Opcode::GET_PROPERTY.to_u8(), 39);
    assert_eq!(Opcode::JUMP_IF_FALSE.name(), "OP_JUMP_IF_FALSE");
    assert_eq!(Opcode::CONSTANT.operand_kind(), OperandKind::Constant);
    assert_eq!(Opcode::JUMP_BACK.operand_kind(), OperandKind::Backward);
    assert_eq!(Opcode::POP.operand_kind(), OperandKind::Nothing);
}

#[test]
fn chunk_writes_and_indexes_constants() {
    let mut chunk = ChunkMut::default();
    chunk.write(Opcode::TRUE.to_u8());
    chunk.write_pair(1, 2);
    chunk.write_bytes(&[3, 4]);
    assert_eq!(chunk.code.to_vec(), vec![Opcode::TRUE.to_u8(), 1, 2, 3, 4]);
    assert_eq!(chunk.add_constant(Value::Integer(5)), 0);
    assert_eq!(chunk.add_constant(Value::Unit), 1);
    assert_eq!(chunk.constants.len(), 2);
}

#[test]
fn freezing_keeps_code_and_decodes_jumps() {
    let mut chunk = ChunkMut::default();
    chunk.write(Opcode::TRUE.to_u8());
    chunk.write(Opcode::JUMP_IF_FALSE.to_u8());
    chunk.write_pair(0, 1);
    chunk.write(Opcode::POP.to_u8());
    chunk.write(Opcode::UNIT.to_u8());
    let mut heap: Heap<Object> = Heap::default();
    let frozen = chunk.freeze(&mut heap).unwrap();
    let instrs = frozen.decode().unwrap();
    assert_eq!(
        instrs,
        vec![
            Instruction { offset: 0, opcode: Opcode::TRUE, operand: Operand::Nothing },
            Instruction { offset: 1, opcode: Opcode::JUMP_IF_FALSE, operand: Operand::Jump(5) },
            Instruction { offset: 4, opcode: Opcode::POP, operand: Operand::Nothing },
            Instruction { offset: 5, opcode: Opcode::UNIT, operand: Operand::Nothing },
        ]
    );
    let text = frozen.disassemble().unwrap();
    assert_eq!(text.lines().count(), 4);
}

#[test]
fn unknown_byte_fails_to_decode() {
    let mut chunk = ChunkMut::default();
    chunk.write(Opcode::UNIT.to_u8());
    chunk.write(200);
    let mut heap: Heap<Object> = Heap::default();
    let frozen = chunk.freeze(&mut heap).unwrap();
    assert_eq!(frozen.decode(), Err(BytecodeError::UnknownInstruction { instruction: 200 }));
}

#[test]
fn freezing_a_string_constant_needs_room_on_the_heap() {
    let mut chunk = ChunkMut::default();
    chunk.add_constant(Value::Unicode("s".to_string()));
    let mut heap: Heap<Object> = Heap::new(0);
    assert_eq!(
        chunk.freeze(&mut heap).err(),
        Some(BytecodeError::HeapAllocateError { err: HeapError::OutOfMemoryError { capacity: 0 } })
    );
}

#[test]
fn unfreezing_gives_back_code_and_constants() {
    let mut chunk = ChunkMut::default();
    chunk.write_pair(Opcode::CONSTANT.to_u8(), 0);
    chunk.add_constant(Value::Integer(9));
    chunk.add_constant(Value::Unicode("t".to_string()));
    let mut heap: Heap<Object> = Heap::default();
    let frozen = chunk.freeze(&mut heap).unwrap();
    let back = frozen.unfreeze_copy();
    assert_eq!(back.code.to_vec(), vec![Opcode::CONSTANT.to_u8(), 0]);
    assert!(matches!(back.constants[0], Value::Integer(9)));
    assert!(matches!(&back.constants[1], Value::Unicode(s) if s == "t"));
}
