//! Call frames: a running function, where it is in its code, and where its
//! slots begin on the stack; and the list of frames of a machine.

use crate::heap::Handle;
use crate::objects::{object_type, Object};
use crate::stack::Slot;
use smallvec::SmallVec;
use vstd::prelude::*;

verus! {

/// The errors of call frames.
#[derive(Debug)]
pub enum CallFrameError {
    /// The instruction pointer lies past the end of the code.
    IPOutOfBounds { ip: usize, max: usize },
    /// A constant index lies past the end of the constants.
    ConstOutOfBounds { index: usize, max: usize },
    /// The frame's function handle does not point to a function.
    IllegalFunctionError { target: String },
}

/// A call frame.
#[derive(Debug)]
pub struct CallFrame {
    /// The function that runs.
    pub function: Handle<Object>,
    /// The offset of the next byte of its code to read.
    pub ip: usize,
    /// Where the function's slots begin on the stack.
    pub stack_offset: usize,
}

/// The code of the frame's function, if it is a function.
pub open spec fn frame_code(f: CallFrame) -> Option<Seq<u8>> {
    match f.function.obj() {
        Object::Function(func) => Some(func.chunk.code_view()),
        _ => None,
    }
}

/// The constants of the frame's function, if it is a function.
pub open spec fn frame_constants(f: CallFrame) -> Option<Seq<Slot>> {
    match f.function.obj() {
        Object::Function(func) => Some(func.chunk.constants@),
        _ => None,
    }
}

/// The byte at the instruction pointer, if there is one.
pub open spec fn byte_at(f: CallFrame, ip: int) -> Option<u8> {
    match frame_code(f) {
        Some(code) => if 0 <= ip < code.len() { Some(code[ip]) } else { None },
        None => None,
    }
}

/// The error of reading past the end of the frame's code at `ip`, or of a
/// frame whose handle is no function.
pub open spec fn read_error(f: CallFrame, ip: int, e: CallFrameError) -> bool {
    match frame_code(f) {
        Some(code) => e == CallFrameError::IPOutOfBounds { ip: ip as usize, max: code.len() as usize },
        None => e matches CallFrameError::IllegalFunctionError { target } && target@ == object_type(f.function.obj()),
    }
}

impl CallFrame {
    /// Makes a frame at the start of the function's code.
    pub fn new(function: Handle<Object>, stack_offset: usize) -> (r: CallFrame)
        ensures
            r.function == function,
            r.ip == 0,
            r.stack_offset == stack_offset,
    {
        CallFrame { function, ip: 0, stack_offset }
    }

    /// A copy of the frame, whose handle points to the same function.
    pub fn duplicate(&self) -> (r: CallFrame)
        ensures
            r == *self,
    {
        CallFrame { function: self.function.share(), ip: self.ip, stack_offset: self.stack_offset }
    }

    /// Reads the byte at the instruction pointer and moves past it.
    pub fn read_u8(&mut self) -> (r: Result<u8, CallFrameError>)
        ensures
            final(self).function == old(self).function,
            final(self).stack_offset == old(self).stack_offset,
            match byte_at(*old(self), old(self).ip as int) {
                Some(b) => r == Ok::<u8, CallFrameError>(b) && final(self).ip == old(self).ip + 1,
                None => r matches Err(e) && read_error(*old(self), old(self).ip as int, e) && final(self).ip == old(self).ip,
            },
    {
        let function = match self.function.get() {
            Object::Function(function) => function,
            object => {
                return Err(CallFrameError::IllegalFunctionError { target: object.data_type() });
            },
        };
        let len = crate::buffers::bytes_len(&function.chunk.code);
        if self.ip >= len {
            return Err(CallFrameError::IPOutOfBounds { ip: self.ip, max: len });
        }
        let byte = crate::buffers::bytes_get(&function.chunk.code, self.ip);
        self.ip = self.ip + 1;
        Ok(byte)
    }

    /// Reads the two bytes at the instruction pointer as a big-endian
    /// 16-bit number and moves past them. Where only the first byte is
    /// there, the pointer moves past it before the error.
    pub fn read_u16(&mut self) -> (r: Result<u16, CallFrameError>)
        ensures
            final(self).function == old(self).function,
            final(self).stack_offset == old(self).stack_offset,
            match (byte_at(*old(self), old(self).ip as int), byte_at(*old(self), old(self).ip + 1)) {
                (Some(b1), Some(b2)) => r == Ok::<u16, CallFrameError>((b1 as u16 * 256 + b2 as u16) as u16)
                    && final(self).ip == old(self).ip + 2,
                (Some(_), None) => r matches Err(e) && read_error(*old(self), old(self).ip + 1, e)
                    && final(self).ip == old(self).ip + 1,
                (None, _) => r matches Err(e) && read_error(*old(self), old(self).ip as int, e)
                    && final(self).ip == old(self).ip,
            },
    {
        let b1 = self.read_u8()?;
        let b2 = self.read_u8()?;
        Ok(b1 as u16 * 256 + b2 as u16)
    }

    /// Reads the byte at the instruction pointer as the index of a constant,
    /// and returns that constant; moves past the byte only where the constant
    /// exists.
    pub fn read_constant(&mut self) -> (r: Result<Slot, CallFrameError>)
        ensures
            final(self).function == old(self).function,
            final(self).stack_offset == old(self).stack_offset,
            match byte_at(*old(self), old(self).ip as int) {
                Some(b) => {
                    let consts = frame_constants(*old(self))->0;
                    if (b as int) < consts.len() {
                        r == Ok::<Slot, CallFrameError>(consts[b as int]) && final(self).ip == old(self).ip + 1
                    } else {
                        r == Err::<Slot, CallFrameError>(CallFrameError::ConstOutOfBounds { index: b as usize, max: consts.len() as usize })
                            && final(self).ip == old(self).ip
                    }
                },
                None => r matches Err(e) && read_error(*old(self), old(self).ip as int, e) && final(self).ip == old(self).ip,
            },
    {
        let function = match self.function.get() {
            Object::Function(function) => function,
            object => {
                return Err(CallFrameError::IllegalFunctionError { target: object.data_type() });
            },
        };
        let len = crate::buffers::bytes_len(&function.chunk.code);
        if self.ip >= len {
            return Err(CallFrameError::IPOutOfBounds { ip: self.ip, max: len });
        }
        let index = crate::buffers::bytes_get(&function.chunk.code, self.ip) as usize;
        if index >= function.chunk.constants.len() {
            return Err(CallFrameError::ConstOutOfBounds { index, max: function.chunk.constants.len() });
        }
        let constant = function.chunk.constants[index].duplicate();
        self.ip = self.ip + 1;
        Ok(constant)
    }
}

/// The frames of a machine, innermost last.
#[verifier::external_body]
#[derive(Debug)]
pub struct Frames {
    inner: SmallVec<[CallFrame; 64]>,
}

/// The frames held, innermost last.
pub uninterp spec fn frames_view(f: Frames) -> Seq<CallFrame>;

/// `SmallVec::new`: no frames.
#[verifier::external_body]
pub(crate) fn frames_new() -> (r: Frames)
    ensures
        frames_view(r) == Seq::<CallFrame>::empty(),
{
    Frames { inner: SmallVec::new() }
}

/// `SmallVec::push`: adds a frame at the end.
#[verifier::external_body]
pub(crate) fn frames_push(f: &mut Frames, frame: CallFrame)
    ensures
        frames_view(*final(f)) == frames_view(*old(f)).push(frame),
{
    f.inner.push(frame)
}

/// `SmallVec::pop`: removes and returns the last frame, if any.
#[verifier::external_body]
pub(crate) fn frames_pop(f: &mut Frames) -> (r: Option<CallFrame>)
    ensures
        frames_view(*old(f)).len() == 0 ==> r is None && frames_view(*final(f)) == frames_view(*old(f)),
        frames_view(*old(f)).len() > 0 ==> r == Some(frames_view(*old(f)).last())
            && frames_view(*final(f)) == frames_view(*old(f)).drop_last(),
{
    f.inner.pop()
}

/// `SmallVec::len`: the number of frames.
#[verifier::external_body]
pub(crate) fn frames_len(f: &Frames) -> (r: usize)
    ensures
        r == frames_view(*f).len(),
{
    f.inner.len()
}

/// `SmallVec::last` (through its slice): the last frame, if any.
#[verifier::external_body]
pub(crate) fn frames_last(f: &Frames) -> (r: Option<&CallFrame>)
    ensures
        match r {
            Some(c) => frames_view(*f).len() > 0 && *c == frames_view(*f).last(),
            None => frames_view(*f).len() == 0,
        },
{
    f.inner.last()
}

} // verus!
