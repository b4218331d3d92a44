//! The instruction set: decoding an opcode and its operands from a method's bytecode.
use vstd::prelude::*;
use crate::error::RuntimeError;
use crate::utils::be_u16;

verus! {

/// A decoded instruction with its operands.
#[allow(inconsistent_fields)]
#[derive(Debug, Clone, Copy, PartialEq, Eq, Structural)]
pub enum OpCode {
    Nop,
    IconstM1,
    Iconst0,
    Iconst1,
    Iconst2,
    Iconst3,
    Iconst4,
    Iconst5,
    Lconst0,
    Lconst1,
    Bipush { byte: i8 },
    Sipush { value: i16 },
    Ldc { index: u8 },
    Ldc2w { index: u16 },
    Iload { index: u8 },
    Lload { index: u8 },
    Iload0,
    Iload1,
    Iload2,
    Iload3,
    Lload0,
    Lload1,
    Lload2,
    Lload3,
    Aload0,
    Aload1,
    Aload2,
    Aload3,
    Iaload,
    Caload,
    Istore { index: u8 },
    Lstore { index: u8 },
    Istore0,
    Istore1,
    Istore2,
    Istore3,
    Lstore0,
    Lstore1,
    Lstore2,
    Lstore3,
    Astore0,
    Astore1,
    Astore2,
    Astore3,
    Iastore,
    Castore,
    Pop,
    Dup,
    Iadd,
    Ladd,
    Isub,
    Lsub,
    Imul,
    Lmul,
    Idiv,
    Ldiv,
    Irem,
    Ineg,
    Ishl,
    Lshl,
    Iushr,
    Iand,
    Ior,
    Iinc { index: u8, immediate: i8 },
    I2l,
    L2i,
    I2b,
    I2c,
    Lcmp,
    IfEq { offset: i16 },
    IfNe { offset: i16 },
    IfLt { offset: i16 },
    IfGe { offset: i16 },
    IfGt { offset: i16 },
    IfLe { offset: i16 },
    IfICmpEq { offset: i16 },
    IfICmpNe { offset: i16 },
    IfICmpLt { offset: i16 },
    IfICmpGe { offset: i16 },
    IfICmpGt { offset: i16 },
    IfICmpLe { offset: i16 },
    Goto { offset: i16 },
    Ireturn,
    Areturn,
    Return,
    GetStatic { index: u16 },
    PutStatic { index: u16 },
    GetField { index: u16 },
    PutField { index: u16 },
    InvokeVirtual { index: u16 },
    InvokeSpecial { index: u16 },
    InvokeStatic { index: u16 },
    New { index: u16 },
    NewArray { atype: u8 },
    ArrayLength,
    IfNull { offset: i16 },
    IfNonNull { offset: i16 },
}

/// The number of operand bytes that follow the opcode byte.
pub open spec fn operand_width(op: OpCode) -> nat {
    match op {
        OpCode::Bipush { .. } | OpCode::Ldc { .. } | OpCode::Iload { .. } | OpCode::Lload { .. } | OpCode::Istore { .. } | OpCode::Lstore { .. } | OpCode::NewArray { .. } => 1,
        OpCode::Sipush { .. } | OpCode::Ldc2w { .. } | OpCode::Iinc { .. } | OpCode::IfEq { .. } | OpCode::IfNe { .. } | OpCode::IfLt { .. } | OpCode::IfGe { .. } | OpCode::IfGt { .. } | OpCode::IfLe { .. } | OpCode::IfICmpEq { .. } | OpCode::IfICmpNe { .. } | OpCode::IfICmpLt { .. } | OpCode::IfICmpGe { .. } | OpCode::IfICmpGt { .. } | OpCode::IfICmpLe { .. } | OpCode::Goto { .. } | OpCode::GetStatic { .. } | OpCode::PutStatic { .. } | OpCode::GetField { .. } | OpCode::PutField { .. } | OpCode::InvokeVirtual { .. } | OpCode::InvokeSpecial { .. } | OpCode::InvokeStatic { .. } | OpCode::New { .. } | OpCode::IfNull { .. } | OpCode::IfNonNull { .. } => 2,
        _ => 0,
    }
}

/// The instruction at `pc` with the opcode byte `b`, its operands read from `code`.
pub open spec fn instruction(b: u8, code: Seq<u8>, pc: int) -> Option<OpCode> {
    if b == 0x00 {
        Some(OpCode::Nop)
    } else if b == 0x02 {
        Some(OpCode::IconstM1)
    } else if b == 0x03 {
        Some(OpCode::Iconst0)
    } else if b == 0x04 {
        Some(OpCode::Iconst1)
    } else if b == 0x05 {
        Some(OpCode::Iconst2)
    } else if b == 0x06 {
        Some(OpCode::Iconst3)
    } else if b == 0x07 {
        Some(OpCode::Iconst4)
    } else if b == 0x08 {
        Some(OpCode::Iconst5)
    } else if b == 0x09 {
        Some(OpCode::Lconst0)
    } else if b == 0x0a {
        Some(OpCode::Lconst1)
    } else if b == 0x10 {
        Some(OpCode::Bipush { byte: code[pc + 1] as i8 })
    } else if b == 0x11 {
        Some(OpCode::Sipush { value: be_u16(code, pc + 1) as i16 })
    } else if b == 0x12 {
        Some(OpCode::Ldc { index: code[pc + 1] })
    } else if b == 0x14 {
        Some(OpCode::Ldc2w { index: be_u16(code, pc + 1) })
    } else if b == 0x15 {
        Some(OpCode::Iload { index: code[pc + 1] })
    } else if b == 0x16 {
        Some(OpCode::Lload { index: code[pc + 1] })
    } else if b == 0x1a {
        Some(OpCode::Iload0)
    } else if b == 0x1b {
        Some(OpCode::Iload1)
    } else if b == 0x1c {
        Some(OpCode::Iload2)
    } else if b == 0x1d {
        Some(OpCode::Iload3)
    } else if b == 0x1e {
        Some(OpCode::Lload0)
    } else if b == 0x1f {
        Some(OpCode::Lload1)
    } else if b == 0x20 {
        Some(OpCode::Lload2)
    } else if b == 0x21 {
        Some(OpCode::Lload3)
    } else if b == 0x2a {
        Some(OpCode::Aload0)
    } else if b == 0x2b {
        Some(OpCode::Aload1)
    } else if b == 0x2c {
        Some(OpCode::Aload2)
    } else if b == 0x2d {
        Some(OpCode::Aload3)
    } else if b == 0x2e {
        Some(OpCode::Iaload)
    } else if b == 0x34 {
        Some(OpCode::Caload)
    } else if b == 0x36 {
        Some(OpCode::Istore { index: code[pc + 1] })
    } else if b == 0x37 {
        Some(OpCode::Lstore { index: code[pc + 1] })
    } else if b == 0x3b {
        Some(OpCode::Istore0)
    } else if b == 0x3c {
        Some(OpCode::Istore1)
    } else if b == 0x3d {
        Some(OpCode::Istore2)
    } else if b == 0x3e {
        Some(OpCode::Istore3)
    } else if b == 0x3f {
        Some(OpCode::Lstore0)
    } else if b == 0x40 {
        Some(OpCode::Lstore1)
    } else if b == 0x41 {
        Some(OpCode::Lstore2)
    } else if b == 0x42 {
        Some(OpCode::Lstore3)
    } else if b == 0x4b {
        Some(OpCode::Astore0)
    } else if b == 0x4c {
        Some(OpCode::Astore1)
    } else if b == 0x4d {
        Some(OpCode::Astore2)
    } else if b == 0x4e {
        Some(OpCode::Astore3)
    } else if b == 0x4f {
        Some(OpCode::Iastore)
    } else if b == 0x55 {
        Some(OpCode::Castore)
    } else if b == 0x57 {
        Some(OpCode::Pop)
    } else if b == 0x59 {
        Some(OpCode::Dup)
    } else if b == 0x60 {
        Some(OpCode::Iadd)
    } else if b == 0x61 {
        Some(OpCode::Ladd)
    } else if b == 0x64 {
        Some(OpCode::Isub)
    } else if b == 0x65 {
        Some(OpCode::Lsub)
    } else if b == 0x68 {
        Some(OpCode::Imul)
    } else if b == 0x69 {
        Some(OpCode::Lmul)
    } else if b == 0x6c {
        Some(OpCode::Idiv)
    } else if b == 0x6d {
        Some(OpCode::Ldiv)
    } else if b == 0x70 {
        Some(OpCode::Irem)
    } else if b == 0x74 {
        Some(OpCode::Ineg)
    } else if b == 0x78 {
        Some(OpCode::Ishl)
    } else if b == 0x79 {
        Some(OpCode::Lshl)
    } else if b == 0x7c {
        Some(OpCode::Iushr)
    } else if b == 0x7e {
        Some(OpCode::Iand)
    } else if b == 0x80 {
        Some(OpCode::Ior)
    } else if b == 0x84 {
        Some(OpCode::Iinc { index: code[pc + 1], immediate: code[pc + 2] as i8 })
    } else if b == 0x85 {
        Some(OpCode::I2l)
    } else if b == 0x88 {
        Some(OpCode::L2i)
    } else if b == 0x91 {
        Some(OpCode::I2b)
    } else if b == 0x92 {
        Some(OpCode::I2c)
    } else if b == 0x94 {
        Some(OpCode::Lcmp)
    } else if b == 0x99 {
        Some(OpCode::IfEq { offset: be_u16(code, pc + 1) as i16 })
    } else if b == 0x9a {
        Some(OpCode::IfNe { offset: be_u16(code, pc + 1) as i16 })
    } else if b == 0x9b {
        Some(OpCode::IfLt { offset: be_u16(code, pc + 1) as i16 })
    } else if b == 0x9c {
        Some(OpCode::IfGe { offset: be_u16(code, pc + 1) as i16 })
    } else if b == 0x9d {
        Some(OpCode::IfGt { offset: be_u16(code, pc + 1) as i16 })
    } else if b == 0x9e {
        Some(OpCode::IfLe { offset: be_u16(code, pc + 1) as i16 })
    } else if b == 0x9f {
        Some(OpCode::IfICmpEq { offset: be_u16(code, pc + 1) as i16 })
    } else if b == 0xa0 {
        Some(OpCode::IfICmpNe { offset: be_u16(code, pc + 1) as i16 })
    } else if b == 0xa1 {
        Some(OpCode::IfICmpLt { offset: be_u16(code, pc + 1) as i16 })
    } else if b == 0xa2 {
        Some(OpCode::IfICmpGe { offset: be_u16(code, pc + 1) as i16 })
    } else if b == 0xa3 {
        Some(OpCode::IfICmpGt { offset: be_u16(code, pc + 1) as i16 })
    } else if b == 0xa4 {
        Some(OpCode::IfICmpLe { offset: be_u16(code, pc + 1) as i16 })
    } else if b == 0xa7 {
        Some(OpCode::Goto { offset: be_u16(code, pc + 1) as i16 })
    } else if b == 0xac {
        Some(OpCode::Ireturn)
    } else if b == 0xb0 {
        Some(OpCode::Areturn)
    } else if b == 0xb1 {
        Some(OpCode::Return)
    } else if b == 0xb2 {
        Some(OpCode::GetStatic { index: be_u16(code, pc + 1) })
    } else if b == 0xb3 {
        Some(OpCode::PutStatic { index: be_u16(code, pc + 1) })
    } else if b == 0xb4 {
        Some(OpCode::GetField { index: be_u16(code, pc + 1) })
    } else if b == 0xb5 {
        Some(OpCode::PutField { index: be_u16(code, pc + 1) })
    } else if b == 0xb6 {
        Some(OpCode::InvokeVirtual { index: be_u16(code, pc + 1) })
    } else if b == 0xb7 {
        Some(OpCode::InvokeSpecial { index: be_u16(code, pc + 1) })
    } else if b == 0xb8 {
        Some(OpCode::InvokeStatic { index: be_u16(code, pc + 1) })
    } else if b == 0xbb {
        Some(OpCode::New { index: be_u16(code, pc + 1) })
    } else if b == 0xbc {
        Some(OpCode::NewArray { atype: code[pc + 1] })
    } else if b == 0xbe {
        Some(OpCode::ArrayLength)
    } else if b == 0xc6 {
        Some(OpCode::IfNull { offset: be_u16(code, pc + 1) as i16 })
    } else if b == 0xc7 {
        Some(OpCode::IfNonNull { offset: be_u16(code, pc + 1) as i16 })
    } else {
        None
    }
}

/// The instruction at `pc`, where its opcode is known and its operands lie within `code`.
pub open spec fn decode(code: Seq<u8>, pc: int) -> Result<OpCode, RuntimeError> {
    if !(0 <= pc < code.len()) {
        Err(RuntimeError::UnsupportedOpcode)
    } else {
        match instruction(code[pc], code, pc) {
            Some(op) => if pc + 1 + operand_width(op) <= code.len() {
                Ok(op)
            } else {
                Err(RuntimeError::UnsupportedOpcode)
            },
            None => Err(RuntimeError::UnsupportedOpcode),
        }
    }
}

/// The byte at `i`, or zero past the end.
fn byte_at(code: &[u8], i: usize) -> (r: u8)
    ensures
        i < code@.len() ==> r == code@[i as int],
{
    if i < code.len() {
        code[i]
    } else {
        0
    }
}

/// The big-endian `u16` at `i`, or zero where it does not fit.
fn u16_at(code: &[u8], i: usize) -> (r: u16)
    ensures
        i + 2 <= code@.len() ==> r == be_u16(code@, i as int),
{
    if i < code.len() && code.len() - i >= 2 {
        crate::utils::slice_as_u16(code, i)
    } else {
        0
    }
}

impl OpCode {
    /// The number of operand bytes that follow the opcode byte.
    pub fn width(&self) -> (r: usize)
        ensures
            r == operand_width(*self),
    {
        match self {
            OpCode::Bipush { .. } | OpCode::Ldc { .. } | OpCode::Iload { .. } | OpCode::Lload { .. } | OpCode::Istore { .. } | OpCode::Lstore { .. } | OpCode::NewArray { .. } => 1,
            OpCode::Sipush { .. } | OpCode::Ldc2w { .. } | OpCode::Iinc { .. } | OpCode::IfEq { .. } | OpCode::IfNe { .. } | OpCode::IfLt { .. } | OpCode::IfGe { .. } | OpCode::IfGt { .. } | OpCode::IfLe { .. } | OpCode::IfICmpEq { .. } | OpCode::IfICmpNe { .. } | OpCode::IfICmpLt { .. } | OpCode::IfICmpGe { .. } | OpCode::IfICmpGt { .. } | OpCode::IfICmpLe { .. } | OpCode::Goto { .. } | OpCode::GetStatic { .. } | OpCode::PutStatic { .. } | OpCode::GetField { .. } | OpCode::PutField { .. } | OpCode::InvokeVirtual { .. } | OpCode::InvokeSpecial { .. } | OpCode::InvokeStatic { .. } | OpCode::New { .. } | OpCode::IfNull { .. } | OpCode::IfNonNull { .. } => 2,
            _ => 0,
        }
    }

    /// Decode the instruction at `pc` in `code`.
    pub fn from(code: &[u8], pc: usize) -> (r: Result<OpCode, RuntimeError>)
        ensures
            r == decode(code@, pc as int),
    {
        if pc >= code.len() {
            return Err(RuntimeError::UnsupportedOpcode);
        }
        let a = if pc < usize::MAX { byte_at(code, pc + 1) } else { 0 };
        let w = if pc < usize::MAX { u16_at(code, pc + 1) } else { 0 };
        let op = match code[pc] {
            0x00 => OpCode::Nop,
            0x02 => OpCode::IconstM1,
            0x03 => OpCode::Iconst0,
            0x04 => OpCode::Iconst1,
            0x05 => OpCode::Iconst2,
            0x06 => OpCode::Iconst3,
            0x07 => OpCode::Iconst4,
            0x08 => OpCode::Iconst5,
            0x09 => OpCode::Lconst0,
            0x0a => OpCode::Lconst1,
            0x10 => OpCode::Bipush { byte: a as i8 },
            0x11 => OpCode::Sipush { value: w as i16 },
            0x12 => OpCode::Ldc { index: a },
            0x14 => OpCode::Ldc2w { index: w },
            0x15 => OpCode::Iload { index: a },
            0x16 => OpCode::Lload { index: a },
            0x1a => OpCode::Iload0,
            0x1b => OpCode::Iload1,
            0x1c => OpCode::Iload2,
            0x1d => OpCode::Iload3,
            0x1e => OpCode::Lload0,
            0x1f => OpCode::Lload1,
            0x20 => OpCode::Lload2,
            0x21 => OpCode::Lload3,
            0x2a => OpCode::Aload0,
            0x2b => OpCode::Aload1,
            0x2c => OpCode::Aload2,
            0x2d => OpCode::Aload3,
            0x2e => OpCode::Iaload,
            0x34 => OpCode::Caload,
            0x36 => OpCode::Istore { index: a },
            0x37 => OpCode::Lstore { index: a },
            0x3b => OpCode::Istore0,
            0x3c => OpCode::Istore1,
            0x3d => OpCode::Istore2,
            0x3e => OpCode::Istore3,
            0x3f => OpCode::Lstore0,
            0x40 => OpCode::Lstore1,
            0x41 => OpCode::Lstore2,
            0x42 => OpCode::Lstore3,
            0x4b => OpCode::Astore0,
            0x4c => OpCode::Astore1,
            0x4d => OpCode::Astore2,
            0x4e => OpCode::Astore3,
            0x4f => OpCode::Iastore,
            0x55 => OpCode::Castore,
            0x57 => OpCode::Pop,
            0x59 => OpCode::Dup,
            0x60 => OpCode::Iadd,
            0x61 => OpCode::Ladd,
            0x64 => OpCode::Isub,
            0x65 => OpCode::Lsub,
            0x68 => OpCode::Imul,
            0x69 => OpCode::Lmul,
            0x6c => OpCode::Idiv,
            0x6d => OpCode::Ldiv,
            0x70 => OpCode::Irem,
            0x74 => OpCode::Ineg,
            0x78 => OpCode::Ishl,
            0x79 => OpCode::Lshl,
            0x7c => OpCode::Iushr,
            0x7e => OpCode::Iand,
            0x80 => OpCode::Ior,
            0x84 => OpCode::Iinc { index: a, immediate: (if pc < usize::MAX - 1 { byte_at(code, pc + 2) } else { 0 }) as i8 },
            0x85 => OpCode::I2l,
            0x88 => OpCode::L2i,
            0x91 => OpCode::I2b,
            0x92 => OpCode::I2c,
            0x94 => OpCode::Lcmp,
            0x99 => OpCode::IfEq { offset: w as i16 },
            0x9a => OpCode::IfNe { offset: w as i16 },
            0x9b => OpCode::IfLt { offset: w as i16 },
            0x9c => OpCode::IfGe { offset: w as i16 },
            0x9d => OpCode::IfGt { offset: w as i16 },
            0x9e => OpCode::IfLe { offset: w as i16 },
            0x9f => OpCode::IfICmpEq { offset: w as i16 },
            0xa0 => OpCode::IfICmpNe { offset: w as i16 },
            0xa1 => OpCode::IfICmpLt { offset: w as i16 },
            0xa2 => OpCode::IfICmpGe { offset: w as i16 },
            0xa3 => OpCode::IfICmpGt { offset: w as i16 },
            0xa4 => OpCode::IfICmpLe { offset: w as i16 },
            0xa7 => OpCode::Goto { offset: w as i16 },
            0xac => OpCode::Ireturn,
            0xb0 => OpCode::Areturn,
            0xb1 => OpCode::Return,
            0xb2 => OpCode::GetStatic { index: w },
            0xb3 => OpCode::PutStatic { index: w },
            0xb4 => OpCode::GetField { index: w },
            0xb5 => OpCode::PutField { index: w },
            0xb6 => OpCode::InvokeVirtual { index: w },
            0xb7 => OpCode::InvokeSpecial { index: w },
            0xb8 => OpCode::InvokeStatic { index: w },
            0xbb => OpCode::New { index: w },
            0xbc => OpCode::NewArray { atype: a },
            0xbe => OpCode::ArrayLength,
            0xc6 => OpCode::IfNull { offset: w as i16 },
            0xc7 => OpCode::IfNonNull { offset: w as i16 },
            _ => return Err(RuntimeError::UnsupportedOpcode),
        };
        if op.width() > code.len() - pc - 1 {
            return Err(RuntimeError::UnsupportedOpcode);
        }
        Ok(op)
    }
}

} // verus!
