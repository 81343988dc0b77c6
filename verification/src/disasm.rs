//! Decoding a chunk of code into its instructions, and showing them as text.

use crate::buffers::{bytes_get, bytes_len, bytes_view};
use crate::bytecode::{opcode_name, opcode_of_byte, operand_kind, BytecodeError, Chunk, Opcode, OperandKind};
use crate::stack::{slot_debug, Slot};
use crate::text::{
    decimal, decimal_string, pad_end, pad_end_string, pad_start, pad_start_string, signed_decimal, signed_decimal_string,
};
use vstd::prelude::*;

verus! {

/// The operand of a decoded instruction.
#[derive(Debug, Clone, Copy, PartialEq, Eq, Structural)]
pub enum Operand {
    /// No operand.
    Nothing,
    /// The index of a constant.
    Constant(u8),
    /// A byte.
    Byte(u8),
    /// The offset a jump lands on.
    Jump(i128),
}

/// An instruction, decoded: where it stands, what it is, and its operand.
#[derive(Debug, Clone, Copy, PartialEq, Eq, Structural)]
pub struct Instruction {
    pub offset: usize,
    pub opcode: Opcode,
    pub operand: Operand,
}

/// Two bytes, big-endian, read as a signed 16-bit number.
pub open spec fn signed16(hi: u8, lo: u8) -> int {
    let v = hi as int * 256 + lo as int;
    if v < 32768 {
        v
    } else {
        v - 65536
    }
}

/// The operand of the instruction at `pos`.
pub open spec fn operand_at(code: Seq<u8>, pos: int, op: Opcode) -> Operand {
    match operand_kind(op) {
        OperandKind::Nothing => Operand::Nothing,
        OperandKind::Constant => Operand::Constant(code[pos + 1]),
        OperandKind::Byte => Operand::Byte(code[pos + 1]),
        OperandKind::Forward => Operand::Jump((pos + 3 + signed16(code[pos + 1], code[pos + 2])) as i128),
        OperandKind::Backward => Operand::Jump((pos + 3 - signed16(code[pos + 1], code[pos + 2])) as i128),
    }
}

/// The number of operand bytes of an operand kind.
pub open spec fn kind_len(k: OperandKind) -> nat {
    match k {
        OperandKind::Nothing => 0,
        OperandKind::Constant | OperandKind::Byte => 1,
        OperandKind::Forward | OperandKind::Backward => 2,
    }
}

/// The instructions from `pos` on, or the first byte that stands where an
/// instruction should and encodes none.
pub open spec fn decode_from(code: Seq<u8>, pos: int) -> Result<Seq<Instruction>, u8>
    decreases code.len() - pos,
{
    if pos < 0 || pos >= code.len() {
        Ok(Seq::empty())
    } else {
        match opcode_of_byte(code[pos]) {
            None => Err(code[pos]),
            Some(op) => {
                let after = pos + 1 + kind_len(operand_kind(op));
                let next = if after > code.len() { code.len() as int } else { after };
                match decode_from(code, next) {
                    Ok(rest) => Ok(seq![Instruction { offset: pos as usize, opcode: op, operand: operand_at(code, pos, op) }] + rest),
                    Err(b) => Err(b),
                }
            },
        }
    }
}

/// The code can be decoded without reading past its end or overflowing a
/// jump target: every instruction's operand bytes are there, and no backward
/// jump has the operand 0x8000.
pub open spec fn well_formed_from(code: Seq<u8>, pos: int) -> bool
    decreases code.len() - pos,
{
    if pos < 0 || pos >= code.len() {
        true
    } else {
        match opcode_of_byte(code[pos]) {
            None => true,
            Some(op) => {
                let after = pos + 1 + kind_len(operand_kind(op));
                let next = if after > code.len() { code.len() as int } else { after };
                &&& after <= code.len()
                &&& (operand_kind(op) == OperandKind::Backward ==> !(code[pos + 1] == 0x80 && code[pos + 2] == 0))
                &&& well_formed_from(code, next)
            },
        }
    }
}

/// The text that shows an instruction's offset: four digits at least,
/// padded with zeroes, and a space.
pub open spec fn offset_text(offset: usize) -> Seq<char> {
    pad_start(decimal(offset as nat), 4, '0') + " "@
}

/// The text that shows an instruction name with a one-byte operand: the
/// name padded to sixteen characters, the operand right-aligned in four,
/// and a bar.
pub open spec fn operand_text(name: Seq<char>, operand: u8) -> Seq<char> {
    pad_end(name, 16) + " "@ + pad_start(decimal(operand as nat), 4, ' ') + " | "@
}

/// The line that shows a jump: the name padded to sixteen characters, the
/// offset right-aligned in four, and the target.
pub open spec fn jump_text(name: Seq<char>, offset: usize, target: i128) -> Seq<char> {
    pad_end(name, 16) + " "@ + pad_start(decimal(offset as nat), 4, ' ') + " -> "@ + signed_decimal(target as int)
        + "\n"@
}

/// Writes the text that shows an instruction's offset.
fn offset_string(offset: usize) -> (r: String)
    ensures
        r@ == offset_text(offset),
{
    let d = decimal_string(offset as u64);
    let mut out = pad_start_string(d.as_str(), 4, true);
    out.append(" ");
    out
}

/// Writes the text that shows an instruction name with a one-byte operand.
fn operand_string(name: &str, operand: u8) -> (r: String)
    ensures
        r@ == operand_text(name@, operand),
{
    let mut out = pad_end_string(name, 16);
    out.append(" ");
    let d = decimal_string(operand as u64);
    let p = pad_start_string(d.as_str(), 4, false);
    out.append(p.as_str());
    out.append(" | ");
    out
}

/// Writes the line that shows a jump.
fn jump_string(name: &str, offset: usize, target: i128) -> (r: String)
    ensures
        r@ == jump_text(name@, offset, target),
{
    let mut out = pad_end_string(name, 16);
    out.append(" ");
    let d = decimal_string(offset as u64);
    let p = pad_start_string(d.as_str(), 4, false);
    out.append(p.as_str());
    out.append(" -> ");
    let t = signed_decimal_string(target);
    out.append(t.as_str());
    out.append("\n");
    out
}

/// The line that shows an instruction of a chunk with the constants
/// `consts`: its offset, its name, and its operand; a constant's line ends
/// with the text of the constant where the index names one.
pub open spec fn line_text(ins: Instruction, consts: Seq<Slot>) -> Seq<char> {
    offset_text(ins.offset) + match ins.operand {
        Operand::Nothing => opcode_name(ins.opcode) + "\n"@,
        Operand::Constant(c) => operand_text(opcode_name(ins.opcode), c) + (if (c as nat) < consts.len() {
            slot_debug(consts[c as int]) + "\n"@
        } else {
            Seq::empty()
        }),
        Operand::Byte(b) => operand_text(opcode_name(ins.opcode), b) + "\n"@,
        Operand::Jump(t) => jump_text(opcode_name(ins.opcode), ins.offset, t),
    }
}

/// The text of a list of instructions of a chunk with the constants
/// `consts`.
pub open spec fn render(instrs: Seq<Instruction>, consts: Seq<Slot>) -> Seq<char>
    decreases instrs.len(),
{
    if instrs.len() == 0 {
        Seq::empty()
    } else {
        render(instrs.drop_last(), consts) + line_text(instrs.last(), consts)
    }
}

impl Chunk {
    /// The chunk's code decodes without reading past its end.
    pub open spec fn decodable(&self) -> bool {
        well_formed_from(self.code_view(), 0)
    }

    /// Decodes the chunk's code into its instructions.
    ///
    /// Fails with `UnknownInstruction` at the first byte that stands where an
    /// instruction should and encodes none.
    pub fn decode(&self) -> (r: Result<Vec<Instruction>, BytecodeError>)
        requires
            self.decodable(),
        ensures
            match decode_from(self.code_view(), 0) {
                Ok(instrs) => r matches Ok(v) && v@ == instrs,
                Err(b) => r == Err::<Vec<Instruction>, BytecodeError>(BytecodeError::UnknownInstruction { instruction: b }),
            },
    {
        let n = bytes_len(&self.code);
        let mut out: Vec<Instruction> = Vec::new();
        let mut pos: usize = 0;
        let ghost code = self.code_view();
        while pos < n
            invariant
                n == code.len(),
                code == self.code_view(),
                pos <= n,
                well_formed_from(code, pos as int),
                decode_from(code, 0) == (match decode_from(code, pos as int) {
                    Ok(rest) => Ok(out@ + rest),
                    Err(b) => Err::<Seq<Instruction>, u8>(b),
                }),
            decreases n - pos,
        {
            let byte = bytes_get(&self.code, pos);
            let op = match Opcode::from_u8(byte) {
                Some(op) => op,
                None => {
                    return Err(BytecodeError::UnknownInstruction { instruction: byte });
                },
            };
            let operand = match op.operand_kind() {
                OperandKind::Nothing => Operand::Nothing,
                OperandKind::Constant => Operand::Constant(bytes_get(&self.code, pos + 1)),
                OperandKind::Byte => Operand::Byte(bytes_get(&self.code, pos + 1)),
                OperandKind::Forward | OperandKind::Backward => {
                    let hi = bytes_get(&self.code, pos + 1);
                    let lo = bytes_get(&self.code, pos + 2);
                    let v: i128 = hi as i128 * 256 + lo as i128;
                    let s: i128 = if v < 32768 { v } else { v - 65536 };
                    if let OperandKind::Forward = op.operand_kind() {
                        Operand::Jump(pos as i128 + 3 + s)
                    } else {
                        Operand::Jump(pos as i128 + 3 - s)
                    }
                },
            };
            let ins = Instruction { offset: pos, opcode: op, operand };
            let next: usize = pos + 1 + match op.operand_kind() {
                OperandKind::Nothing => 0,
                OperandKind::Constant | OperandKind::Byte => 1,
                OperandKind::Forward | OperandKind::Backward => 2,
            };
            proof {
                assert(ins == Instruction { offset: pos, opcode: op, operand: operand_at(code, pos as int, op) });
                assert(decode_from(code, pos as int) == match decode_from(code, next as int) {
                    Ok(rest) => Ok(seq![ins] + rest),
                    Err(b) => Err::<Seq<Instruction>, u8>(b),
                });
                match decode_from(code, next as int) {
                    Ok(rest) => {
                        assert(out@.push(ins) + rest =~= out@ + (seq![ins] + rest));
                    },
                    Err(_) => {},
                }
            }
            out.push(ins);
            pos = next;
        }
        proof {
            assert(out@ + Seq::<Instruction>::empty() =~= out@);
        }
        Ok(out)
    }

    /// Shows the chunk's code as text, one line per instruction: its offset,
    /// its name and its operand; a constant's line ends with the text of
    /// the constant (`Slot::debug_text`) where the index names one.
    ///
    /// Fails with `UnknownInstruction` at the first byte that stands where an
    /// instruction should and encodes none.
    pub fn disassemble(&self) -> (r: Result<String, BytecodeError>)
        requires
            self.decodable(),
        ensures
            match decode_from(self.code_view(), 0) {
                Ok(instrs) => r matches Ok(text) && text@ == render(instrs, self.constants@),
                Err(b) => r == Err::<String, BytecodeError>(BytecodeError::UnknownInstruction { instruction: b }),
            },
    {
        let instrs = self.decode()?;
        let mut text = String::new();
        let mut i: usize = 0;
        while i < instrs.len()
            invariant
                i <= instrs@.len(),
                text@ == render(instrs@.subrange(0, i as int), self.constants@),
            decreases instrs@.len() - i,
        {
            let ins = instrs[i];
            let name = ins.opcode.name();
            let mut line = offset_string(ins.offset);
            match ins.operand {
                Operand::Nothing => {
                    line.append(name);
                    line.append("\n");
                },
                Operand::Constant(c) => {
                    let op = operand_string(name, c);
                    line.append(op.as_str());
                    if (c as usize) < self.constants.len() {
                        let mut dl = self.constants[c as usize].debug_text();
                        dl.append("\n");
                        line.append(dl.as_str());
                    }
                },
                Operand::Byte(b) => {
                    let op = operand_string(name, b);
                    line.append(op.as_str());
                    line.append("\n");
                },
                Operand::Jump(t) => {
                    let j = jump_string(name, ins.offset, t);
                    line.append(j.as_str());
                },
            }
            assert(line@ == line_text(ins, self.constants@));
            text.append(line.as_str());
            proof {
                let sub = instrs@.subrange(0, i as int + 1);
                assert(sub.drop_last() =~= instrs@.subrange(0, i as int));
                assert(sub.last() == ins);
            }
            i = i + 1;
        }
        proof {
            assert(instrs@.subrange(0, instrs@.len() as int) =~= instrs@);
        }
        Ok(text)
    }
}


/// A backward jump decodes to the instruction it lands on: the offset
/// just past its two operand bytes, less the operand. Its target is never
/// after the jump itself.
pub proof fn law_jump_back_target(code: Seq<u8>, pos: int)
    requires
        0 <= pos,
        pos + 2 < code.len(),
        (code[pos + 1] as int * 256 + code[pos + 2] as int) < 0x8000,
    ensures
        operand_at(code, pos, Opcode::JUMP_BACK) == Operand::Jump(
            (pos + 3 - (code[pos + 1] as int * 256 + code[pos + 2] as int)) as i128,
        ),
        pos + 3 - (code[pos + 1] as int * 256 + code[pos + 2] as int) <= pos + 3,
{
}

/// A forward jump decodes to the offset just past its two operand bytes,
/// plus the operand.
pub proof fn law_jump_target(code: Seq<u8>, pos: int)
    requires
        0 <= pos,
        pos + 2 < code.len(),
        (code[pos + 1] as int * 256 + code[pos + 2] as int) < 0x8000,
    ensures
        operand_at(code, pos, Opcode::JUMP) == Operand::Jump(
            (pos + 3 + (code[pos + 1] as int * 256 + code[pos + 2] as int)) as i128,
        ),
        operand_at(code, pos, Opcode::JUMP_IF_FALSE) == Operand::Jump(
            (pos + 3 + (code[pos + 1] as int * 256 + code[pos + 2] as int)) as i128,
        ),
{
}

} // verus!
