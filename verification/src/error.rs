//! The two error strata of the machine.
//!
//! [`VmError`] covers recoverable errors surfaced through the linker's result
//! channel: a missing class, a member that cannot be resolved, a malformed
//! descriptor or class file. [`Fatal`] covers errors that abort
//! interpretation immediately; it names the opcode and the program counter at
//! which the machine stopped.

use vstd::prelude::*;

verus! {

/// A recoverable error surfaced through the linker's result channel.
#[derive(Debug, Clone, PartialEq, Eq)]
pub enum VmError {
    /// The named class is not among the loaded class files.
    ClassNotFound(String),
    /// The named static field could not be resolved.
    FieldNotFound(String),
    /// The named method could not be resolved.
    MethodNotFound(String),
    /// A type or method descriptor string does not follow the single-letter
    /// encoding.
    BadDescriptor(String),
    /// The constant-pool entry at this index is absent or not of the variant
    /// the use demands.
    BadConstantPoolEntry(u16),
    /// The class file does not begin with `0xCAFEBABE`.
    BadMagic(u32),
    /// The class file ended before a record could be read in full.
    TruncatedClassFile,
    /// A constant-pool tag this decoder does not know.
    UnknownConstantPoolTag(u8),
    /// A byte sequence that should have been a string is not valid UTF-8.
    BadUtf8,
}

/// Why the interpreter aborted.
#[derive(Debug, Clone, PartialEq, Eq)]
pub enum FatalKind {
    /// A pop was requested on an empty operand-stack region.
    StackUnderflow,
    /// The popped value's variant does not match what the instruction
    /// demands.
    TypeMismatch,
    /// A stack-manipulation instruction met a value of the wrong category.
    CategoryMismatch,
    /// The program counter left the code region, or a branch target would.
    PcOutOfRange,
    /// Integer division or remainder by zero.
    DivisionByZero,
    /// An opcode outside the supported subset.
    UnsupportedOpcode,
    /// A load or store named a local-variable slot that does not exist.
    BadLocalIndex,
    /// A native method whose descriptor declares a result returned none.
    MissingReturnValue,
    /// Symbolic resolution failed in the middle of execution.
    Resolution(VmError),
    /// A `putstatic` value whose variant does not match the field's type.
    FieldTypeMismatch,
    /// The step bound of the interpreter was exhausted.
    StepLimit,
}

/// A fatal interpreter error: the diagnostic names the program counter of
/// the faulting instruction and its opcode byte.
#[derive(Debug, Clone, PartialEq, Eq)]
pub struct Fatal {
    /// Program counter of the instruction that faulted.
    pub pc: usize,
    /// The opcode byte fetched at `pc`.
    pub opcode: u8,
    pub kind: FatalKind,
}

} // verus!
