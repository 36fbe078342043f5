//! Per-invocation activation records.
//!
//! A frame owns the invoked method's local variables and remembers where the
//! caller's operand-stack region ends (`base_pointer`), where execution
//! resumes after return (`return_pc`), and which class's constant pool
//! symbolic references are resolved against (`class_name`). The `flags` word
//! carries the [`FRAME_CLINIT`] bit on class-initialization frames so the
//! interpreter can recognize them when they return.

use vstd::prelude::*;

use crate::value::Value;

verus! {

/// Flag bit marking a frame pushed by the class-initialization trampoline.
pub const FRAME_CLINIT: u32 = 1;

/// A per-invocation activation record.
pub struct Frame {
    pub locals: Vec<Value>,
    /// Operand-stack depth at frame entry; the frame's own operand-stack
    /// region begins immediately above it.
    pub base_pointer: usize,
    pub stack_pointer: usize,
    /// Absolute index into the code region to resume at after return.
    pub return_pc: usize,
    /// The class whose constant pool this frame's symbolic references use.
    pub class_name: String,
    pub flags: u32,
}

/// How the `FRAME_CLINIT` bit reads on the two flag words the
/// constructors produce.
proof fn lemma_clinit_flag()
    by (bit_vector)
    ensures
        0u32 & 1u32 != 1u32,
        1u32 & 1u32 == 1u32,
{
}

impl Frame {
    /// The frame is a class-initialization frame.
    pub open spec fn is_clinit(self) -> bool {
        self.flags & FRAME_CLINIT == FRAME_CLINIT
    }

    /// The bottommost frame of a run: all pointers zero.
    pub fn new_main(class_name: String) -> (r: Frame)
        ensures
            r.locals@ == Seq::<Value>::empty(),
            r.base_pointer == 0,
            r.stack_pointer == 0,
            r.return_pc == 0,
            r.class_name@ == class_name@,
            r.flags == 0,
            !r.is_clinit(),
    {
        let r = Frame {
            locals: Vec::new(),
            base_pointer: 0,
            stack_pointer: 0,
            return_pc: 0,
            class_name,
            flags: 0,
        };
        proof {
            lemma_clinit_flag();
        }
        r
    }

    /// A frame for an ordinary invocation: base and stack pointer both start
    /// at the caller's operand-stack depth, so this frame's operand-stack
    /// region begins empty immediately above the caller's.
    pub fn new(stack: usize, return_pc: usize, class_name: String) -> (r: Frame)
        ensures
            r.locals@ == Seq::<Value>::empty(),
            r.base_pointer == stack,
            r.stack_pointer == stack,
            r.return_pc == return_pc,
            r.class_name@ == class_name@,
            r.flags == 0,
            !r.is_clinit(),
    {
        let r = Frame {
            locals: Vec::new(),
            base_pointer: stack,
            stack_pointer: stack,
            return_pc,
            class_name,
            flags: 0,
        };
        proof {
            lemma_clinit_flag();
        }
        r
    }

    /// A frame for a `<clinit>` invocation, marked so the interpreter sets
    /// the class initialized when it returns.
    pub fn new_clinit(stack: usize, return_pc: usize, class_name: String) -> (r: Frame)
        ensures
            r.locals@ == Seq::<Value>::empty(),
            r.base_pointer == stack,
            r.stack_pointer == stack,
            r.return_pc == return_pc,
            r.class_name@ == class_name@,
            r.flags == FRAME_CLINIT,
            r.is_clinit(),
    {
        let r = Frame {
            locals: Vec::new(),
            base_pointer: stack,
            stack_pointer: stack,
            return_pc,
            class_name,
            flags: FRAME_CLINIT,
        };
        proof {
            lemma_clinit_flag();
        }
        r
    }
}

} // verus!
