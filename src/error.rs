//! The traps that abort execution.
use vstd::prelude::*;

verus! {

/// A categorical trap. Execution stops at the first one; none is recovered from.
#[derive(Debug, Clone, Copy, PartialEq, Eq, Structural)]
pub enum RuntimeError {
    /// Bad magic number, unknown constant tag, or truncated input.
    MalformedClassFile,
    /// A class, field or method could not be resolved.
    LinkError,
    /// `main([Ljava/lang/String;)V` is missing or not static.
    NoSuchEntry,
    /// A constant of the wrong kind, a non-array where an array is needed,
    /// an index out of range, or an invalid heap reference.
    IllegalOperand,
    /// A native call to a method with no registered implementation.
    NoNativeImpl,
    /// 64-bit arithmetic requested where it is not available. Long arithmetic here is
    /// computed the same way on every target, so no instruction raises it.
    UnsupportedArch,
    /// An operand stack that underflows or overflows, or a local slot out of range.
    StackFault,
    /// An integer division or remainder by zero.
    DivisionByZero,
    /// The heap holds as many objects as a 32-bit reference can name.
    HeapExhausted,
    /// An opcode outside the supported set, or a pc outside the method's code.
    UnsupportedOpcode,
}

} // verus!
