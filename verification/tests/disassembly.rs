use brane_vm::bytecode::{ChunkMut, Opcode};
use brane_vm::heap::Heap;
use brane_vm::objects::Object;
use brane_vm::stack::Slot;
use brane_vm::value::Value;

fn disassemble(chunk: ChunkMut) -> String {
    let mut heap: Heap<Object> = Heap::default();
    chunk.freeze(&mut heap).unwrap().disassemble().unwrap()
}

#[test]
fn plain_instructions_show_offset_and_name() {
    let mut chunk = ChunkMut::default();
    chunk.write(Opcode::ADD.to_u8());
    chunk.write(Opcode::RETURN.to_u8());
    assert_eq!(disassemble(chunk), "0000 OP_ADD\n0001 OP_RETURN\n");
}

#[test]
fn byte_operands_are_right_aligned() {
    let mut chunk = ChunkMut::default();
    chunk.write_pair(Opcode::POP_N.to_u8(), 255);
    assert_eq!(disassemble(chunk), "0000 OP_POP_N          255 | \n");
}

#[test]
fn constants_and_jumps_show_their_operands() {
    let mut chunk = ChunkMut::default();
    chunk.write_pair(Opcode::CONSTANT.to_u8(), 0);
    chunk.write(Opcode::JUMP_IF_FALSE.to_u8());
    chunk.write_pair(0, 1);
    chunk.add_constant(Value::Integer(9));
    assert_eq!(disassemble(chunk), "0000 OP_CONSTANT         0 | Integer(9)\n0002 OP_JUMP_IF_FALSE    2 -> 6\n");
}

#[test]
fn slots_show_their_kind_and_contents() {
    assert_eq!(Slot::Integer(-12).debug_text(), "Integer(-12)");
    assert_eq!(Slot::True.debug_text(), "True");
    assert_eq!(Slot::ConstMinusTwo.debug_text(), "ConstMinusTwo");
    assert_eq!(Slot::Real(1.5f64.to_bits()).debug_text(), format!("Real({})", 1.5f64.to_bits()));
    let mut heap: Heap<Object> = Heap::default();
    let h = heap.allocate(Object::String("s".to_string())).unwrap();
    assert_eq!(Slot::Object(h).debug_text(), "Object(String)");
}
