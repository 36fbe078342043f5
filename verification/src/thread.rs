//! The interpreter: a fetch/decode/execute loop over the linked code
//! region.
//!
//! A thread owns its operand stack and call-frame stack and the linker it
//! executes against. Each step fetches the opcode at the program counter,
//! decodes it, performs its effect, and advances. Typed pops are the
//! machine's runtime type check: a popped value whose variant does not
//! match what the instruction demands aborts the run with a diagnostic
//! naming the opcode and the program counter. Integer wrap-around and
//! oversized shift counts are recorded as [`Warning`]s and never alter
//! control flow.

use vstd::prelude::*;
use vstd::string::*;

use crate::byte_stream::{be_u16, be_u32};
use crate::error::{Fatal, FatalKind, VmError};
use crate::frame::Frame;
use crate::host::{FloatBinOp, FloatOrder, VmHost};
use crate::instructions::{spec_decode, Instruction};
use crate::runtime::{spec_member_ref, spec_ref_class_name, Runtime, SetStaticOutcome};
use crate::runtime_pool::{Method, RuntimePool};
use crate::value::Value;

verus! {

/// A non-fatal condition the interpreter recorded and ran past.
#[derive(Debug, Clone, Copy, PartialEq, Eq, Structural)]
pub enum WarningKind {
    /// Integer arithmetic wrapped around.
    ArithmeticWrap,
    /// A shift count had bits above the masked range.
    OversizedShift,
}

/// One recorded warning: what happened and at which program counter.
#[derive(Debug, Clone, Copy, PartialEq, Eq, Structural)]
pub struct Warning {
    pub pc: usize,
    pub kind: WarningKind,
}

/// What one interpreter step did.
#[derive(Debug, Clone, Copy, PartialEq, Eq, Structural)]
pub enum StepOutcome {
    /// Execution continues at the new program counter.
    Continue,
    /// A `return` left the bottommost frame: the run is over with this
    /// exit code.
    Finished(usize),
}

/// The slot vector after a store to slot `i`: grown with `Null` up to `i`
/// first, where `i` lies beyond the current length.
pub open spec fn spec_locals_set(l: Seq<Value>, i: int, v: Value) -> Seq<Value> {
    if i < l.len() {
        l.update(i, v)
    } else {
        l + Seq::new((i - l.len()) as nat, |_k: int| Value::Null) + seq![v]
    }
}

/// The stack cut back to depth `n`; shorter stacks stay as they are.
pub open spec fn spec_truncated(s: Seq<Value>, n: int) -> Seq<Value> {
    if n < s.len() {
        s.subrange(0, n)
    } else {
        s
    }
}

/// The two-operand integer operations, shared by the 32-bit and 64-bit
/// instruction families.
#[derive(Debug, Clone, Copy, PartialEq, Eq, Structural)]
pub enum BinOp {
    Add,
    Sub,
    Mul,
    Div,
    Rem,
    And,
    Or,
    Xor,
    Shl,
    Shr,
    Ushr,
}

/// Whether the operation is a division or remainder, whose zero divisor is
/// fatal.
pub open spec fn bin_is_div(k: BinOp) -> bool {
    k == BinOp::Div || k == BinOp::Rem
}

/// Truncated (round-toward-zero) integer division.
pub open spec fn trunc_div_int(x: int, d: int) -> int
    recommends
        d != 0,
{
    if x == 0 {
        0
    } else if x > 0 && d > 0 {
        x / d
    } else if x < 0 && d < 0 {
        (x * -1) / (d * -1)
    } else if x < 0 {
        ((x * -1) / d) * -1
    } else {
        (x / (d * -1)) * -1
    }
}

/// Truncated remainder: the counterpart of `trunc_div_int`, with the sign
/// of the dividend.
pub open spec fn trunc_rem_int(x: int, d: int) -> int
    recommends
        d != 0,
{
    if x == 0 {
        0
    } else if x > 0 && d > 0 {
        x % d
    } else if x < 0 && d < 0 {
        ((x * -1) % (d * -1)) * -1
    } else if x < 0 {
        ((x * -1) % d) * -1
    } else {
        x % (d * -1)
    }
}

/// `ishl`: shift counts are masked to their low five bits.
pub open spec fn spec_ishl(v: i32, s: i32) -> i32 {
    v << ((s & 0x1f) as u32)
}

/// `ishr`: arithmetic right shift with a masked count.
pub open spec fn spec_ishr(v: i32, s: i32) -> i32 {
    v >> ((s & 0x1f) as u32)
}

/// `iushr`: the left operand is treated as unsigned.
pub open spec fn spec_iushr(v: i32, s: i32) -> i32 {
    ((v as u32) >> ((s & 0x1f) as u32)) as i32
}

/// `lshl`: long shift counts are masked to their low six bits.
pub open spec fn spec_lshl(v: i64, s: i64) -> i64 {
    v << ((s & 0x3f) as u64)
}

/// `lshr`: arithmetic right shift with a masked count.
pub open spec fn spec_lshr(v: i64, s: i64) -> i64 {
    v >> ((s & 0x3f) as u64)
}

/// `lushr`: the left operand is treated as unsigned.
pub open spec fn spec_lushr(v: i64, s: i64) -> i64 {
    ((v as u64) >> ((s & 0x3f) as u64)) as i64
}

/// The 32-bit result of one two-operand integer instruction.
pub open spec fn int_bin(k: BinOp, a: i32, b: i32) -> i32
    recommends
        !(bin_is_div(k) && b == 0),
{
    match k {
        BinOp::Add => vstd::wrapping::i32_specs::wrapping_add(a, b),
        BinOp::Sub => vstd::wrapping::i32_specs::wrapping_sub(a, b),
        BinOp::Mul => vstd::wrapping::i32_specs::wrapping_mul(a, b),
        BinOp::Div => if a == i32::MIN && b == -1 {
            i32::MIN
        } else {
            trunc_div_int(a as int, b as int) as i32
        },
        BinOp::Rem => if a == i32::MIN && b == -1 {
            0
        } else {
            trunc_rem_int(a as int, b as int) as i32
        },
        BinOp::And => a & b,
        BinOp::Or => a | b,
        BinOp::Xor => a ^ b,
        BinOp::Shl => spec_ishl(a, b),
        BinOp::Shr => spec_ishr(a, b),
        BinOp::Ushr => spec_iushr(a, b),
    }
}

/// The warning, if any, a 32-bit two-operand instruction records.
pub open spec fn int_bin_warn(k: BinOp, a: i32, b: i32) -> Option<WarningKind> {
    match k {
        BinOp::Add => if a + b > i32::MAX || a + b < i32::MIN {
            Some(WarningKind::ArithmeticWrap)
        } else {
            None
        },
        BinOp::Sub => if a - b > i32::MAX || a - b < i32::MIN {
            Some(WarningKind::ArithmeticWrap)
        } else {
            None
        },
        BinOp::Mul => if a * b > i32::MAX || a * b < i32::MIN {
            Some(WarningKind::ArithmeticWrap)
        } else {
            None
        },
        BinOp::Div => if a == i32::MIN && b == -1 {
            Some(WarningKind::ArithmeticWrap)
        } else {
            None
        },
        BinOp::Rem => if a == i32::MIN && b == -1 {
            Some(WarningKind::ArithmeticWrap)
        } else {
            None
        },
        BinOp::And => None,
        BinOp::Or => None,
        BinOp::Xor => None,
        BinOp::Shl | BinOp::Shr | BinOp::Ushr => if b & !0x1f != 0 {
            Some(WarningKind::OversizedShift)
        } else {
            None
        },
    }
}

/// The 64-bit result of one two-operand integer instruction.
pub open spec fn long_bin(k: BinOp, a: i64, b: i64) -> i64
    recommends
        !(bin_is_div(k) && b == 0),
{
    match k {
        BinOp::Add => vstd::wrapping::i64_specs::wrapping_add(a, b),
        BinOp::Sub => vstd::wrapping::i64_specs::wrapping_sub(a, b),
        BinOp::Mul => vstd::wrapping::i64_specs::wrapping_mul(a, b),
        BinOp::Div => if a == i64::MIN && b == -1 {
            i64::MIN
        } else {
            trunc_div_int(a as int, b as int) as i64
        },
        BinOp::Rem => if a == i64::MIN && b == -1 {
            0
        } else {
            trunc_rem_int(a as int, b as int) as i64
        },
        BinOp::And => a & b,
        BinOp::Or => a | b,
        BinOp::Xor => a ^ b,
        BinOp::Shl => spec_lshl(a, b),
        BinOp::Shr => spec_lshr(a, b),
        BinOp::Ushr => spec_lushr(a, b),
    }
}

/// The warning, if any, a 64-bit two-operand instruction records.
pub open spec fn long_bin_warn(k: BinOp, a: i64, b: i64) -> Option<WarningKind> {
    match k {
        BinOp::Add => if a + b > i64::MAX || a + b < i64::MIN {
            Some(WarningKind::ArithmeticWrap)
        } else {
            None
        },
        BinOp::Sub => if a - b > i64::MAX || a - b < i64::MIN {
            Some(WarningKind::ArithmeticWrap)
        } else {
            None
        },
        BinOp::Mul => if a * b > i64::MAX || a * b < i64::MIN {
            Some(WarningKind::ArithmeticWrap)
        } else {
            None
        },
        BinOp::Div => if a == i64::MIN && b == -1 {
            Some(WarningKind::ArithmeticWrap)
        } else {
            None
        },
        BinOp::Rem => if a == i64::MIN && b == -1 {
            Some(WarningKind::ArithmeticWrap)
        } else {
            None
        },
        BinOp::And => None,
        BinOp::Or => None,
        BinOp::Xor => None,
        BinOp::Shl | BinOp::Shr | BinOp::Ushr => if b & !0x3f != 0 {
            Some(WarningKind::OversizedShift)
        } else {
            None
        },
    }
}

/// Truncated division of values drawn from `[-bound, bound)` stays in
/// that range, except for `-bound / -1`.
pub proof fn lemma_trunc_div_in_range(x: int, d: int, bound: int)
    requires
        bound >= 2,
        -bound <= x < bound,
        -bound <= d < bound,
        d != 0,
        !(x == -bound && d == -1),
    ensures
        -bound <= trunc_div_int(x, d) < bound,
{
    if x == 0 {
    } else if x > 0 && d > 0 {
        vstd::arithmetic::div_mod::lemma_div_pos_is_pos(x, d);
        vstd::arithmetic::div_mod::lemma_div_nonincreasing(x, d);
    } else if x < 0 && d < 0 {
        let xa = x * -1;
        let da = d * -1;
        vstd::arithmetic::div_mod::lemma_div_pos_is_pos(xa, da);
        vstd::arithmetic::div_mod::lemma_div_nonincreasing(xa, da);
        if da == 1 {
            vstd::arithmetic::div_mod::lemma_fundamental_div_mod(xa, 1);
            vstd::arithmetic::div_mod::lemma_mod_division_less_than_divisor(xa, 1);
        } else {
            vstd::arithmetic::div_mod::lemma_div_is_ordered_by_denominator(xa, 2, da);
            vstd::arithmetic::div_mod::lemma_div_is_ordered(xa, bound, 2);
            vstd::arithmetic::div_mod::lemma_div_decreases(bound, 2);
        }
    } else if x < 0 {
        let xa = x * -1;
        vstd::arithmetic::div_mod::lemma_div_pos_is_pos(xa, d);
        vstd::arithmetic::div_mod::lemma_div_nonincreasing(xa, d);
    } else {
        let da = d * -1;
        vstd::arithmetic::div_mod::lemma_div_pos_is_pos(x, da);
        vstd::arithmetic::div_mod::lemma_div_nonincreasing(x, da);
    }
}

/// Shift masking: a shift by `s` equals a shift by `s & 0x1F`, for all
/// three 32-bit shift instructions.
pub proof fn lemma_int_shift_masked(v: i32, s: i32)
    by (bit_vector)
    ensures
        spec_ishl(v, s) == spec_ishl(v, s & 0x1f),
        spec_ishr(v, s) == spec_ishr(v, s & 0x1f),
        spec_iushr(v, s) == spec_iushr(v, s & 0x1f),
{
}

/// Shift masking for longs: a shift by `s` equals a shift by `s & 0x3F`.
pub proof fn lemma_long_shift_masked(v: i64, s: i64)
    by (bit_vector)
    ensures
        spec_lshl(v, s) == spec_lshl(v, s & 0x3f),
        spec_lshr(v, s) == spec_lshr(v, s & 0x3f),
        spec_lushr(v, s) == spec_lushr(v, s & 0x3f),
{
}


/// The slot kinds the typed load and store families distinguish.
#[derive(Debug, Clone, Copy, PartialEq, Eq, Structural)]
pub enum SlotKind {
    KInt,
    KLong,
    KFloat,
    KDouble,
    KRef,
}

/// Whether a value's variant fits a slot kind; reference slots accept the
/// null reference and return addresses as well.
pub open spec fn slot_matches(kind: SlotKind, v: Value) -> bool {
    match kind {
        SlotKind::KInt => v is Int,
        SlotKind::KLong => v is Long,
        SlotKind::KFloat => v is Float,
        SlotKind::KDouble => v is Double,
        SlotKind::KRef => v is Reference || v is Null || v is ReturnAddress,
    }
}

/// How many values an `<op>return` instruction hands back to the caller.
pub open spec fn return_arity(i: Instruction) -> Option<int> {
    match i {
        Instruction::Return => Some(0),
        Instruction::IReturn => Some(1),
        Instruction::LReturn => Some(1),
        Instruction::FReturn => Some(1),
        Instruction::DReturn => Some(1),
        Instruction::AReturn => Some(1),
        _ => None,
    }
}

/// Executable check of [`slot_matches`].
fn value_has_kind(v: &Value, kind: SlotKind) -> (r: bool)
    ensures
        r == slot_matches(kind, *v),
{
    match kind {
        SlotKind::KInt => match v {
            Value::Int(_) => true,
            _ => false,
        },
        SlotKind::KLong => match v {
            Value::Long(_) => true,
            _ => false,
        },
        SlotKind::KFloat => match v {
            Value::Float(_) => true,
            _ => false,
        },
        SlotKind::KDouble => match v {
            Value::Double(_) => true,
            _ => false,
        },
        SlotKind::KRef => match v {
            Value::Reference => true,
            Value::Null => true,
            Value::ReturnAddress => true,
            _ => false,
        },
    }
}

/// The runtime, the frame stack and the initializer record are untouched.
pub open spec fn same_rt_frames(pre: Thread, post: Thread) -> bool {
    &&& post.runtime == pre.runtime
    &&& post.frames == pre.frames
    &&& post.clinit_started == pre.clinit_started
    &&& post.native_calls == pre.native_calls
}

/// `post` is `pre` with local slot `i` of the active frame set to `v`
/// (growing the slot vector with `Null` first where needed) and nothing
/// else of any frame changed.
pub open spec fn frames_set_local(pre: Seq<Frame>, post: Seq<Frame>, i: int, v: Value) -> bool {
    &&& pre.len() > 0
    &&& post.len() == pre.len()
    &&& (forall|j: int| 0 <= j < pre.len() - 1 ==> post[j] == pre[j])
    &&& ({
        let f0 = pre.last();
        let f1 = post.last();
        &&& f1.locals@ == spec_locals_set(f0.locals@, i, v)
        &&& f1.base_pointer == f0.base_pointer
        &&& f1.stack_pointer == f0.stack_pointer
        &&& f1.return_pc == f0.return_pc
        &&& f1.class_name == f0.class_name
        &&& f1.flags == f0.flags
    })
}


/// The exact effect of one constant, load, store or stack-manipulation
/// instruction: what it demands of the operand stack and locals, and the
/// state it leaves.
pub open spec fn spec_effect_data(pre: Thread, post: Thread, instr: Instruction, pc: usize) -> bool {
    match instr {
        Instruction::IConstM1 => ({
            &&& same_rt_frames(pre, post)
            &&& post.warnings == pre.warnings
            &&& post.stack@ == pre.stack@.push(Value::Int(-1i32))
            &&& post.pc == pc + 1
        }),
        Instruction::IConst0 => ({
            &&& same_rt_frames(pre, post)
            &&& post.warnings == pre.warnings
            &&& post.stack@ == pre.stack@.push(Value::Int(0))
            &&& post.pc == pc + 1
        }),
        Instruction::IConst1 => ({
            &&& same_rt_frames(pre, post)
            &&& post.warnings == pre.warnings
            &&& post.stack@ == pre.stack@.push(Value::Int(1))
            &&& post.pc == pc + 1
        }),
        Instruction::IConst2 => ({
            &&& same_rt_frames(pre, post)
            &&& post.warnings == pre.warnings
            &&& post.stack@ == pre.stack@.push(Value::Int(2))
            &&& post.pc == pc + 1
        }),
        Instruction::IConst3 => ({
            &&& same_rt_frames(pre, post)
            &&& post.warnings == pre.warnings
            &&& post.stack@ == pre.stack@.push(Value::Int(3))
            &&& post.pc == pc + 1
        }),
        Instruction::IConst4 => ({
            &&& same_rt_frames(pre, post)
            &&& post.warnings == pre.warnings
            &&& post.stack@ == pre.stack@.push(Value::Int(4))
            &&& post.pc == pc + 1
        }),
        Instruction::IConst5 => ({
            &&& same_rt_frames(pre, post)
            &&& post.warnings == pre.warnings
            &&& post.stack@ == pre.stack@.push(Value::Int(5))
            &&& post.pc == pc + 1
        }),
        Instruction::LConst0 => ({
            &&& same_rt_frames(pre, post)
            &&& post.warnings == pre.warnings
            &&& post.stack@ == pre.stack@.push(Value::Long(0))
            &&& post.pc == pc + 1
        }),
        Instruction::LConst1 => ({
            &&& same_rt_frames(pre, post)
            &&& post.warnings == pre.warnings
            &&& post.stack@ == pre.stack@.push(Value::Long(1))
            &&& post.pc == pc + 1
        }),
        Instruction::FConst0 => ({
            &&& same_rt_frames(pre, post)
            &&& post.warnings == pre.warnings
            &&& post.stack@ == pre.stack@.push(Value::Float(0))
            &&& post.pc == pc + 1
        }),
        Instruction::FConst1 => ({
            &&& same_rt_frames(pre, post)
            &&& post.warnings == pre.warnings
            &&& post.stack@ == pre.stack@.push(Value::Float(0x3F80_0000))
            &&& post.pc == pc + 1
        }),
        Instruction::FConst2 => ({
            &&& same_rt_frames(pre, post)
            &&& post.warnings == pre.warnings
            &&& post.stack@ == pre.stack@.push(Value::Float(0x4000_0000))
            &&& post.pc == pc + 1
        }),
        Instruction::DConst0 => ({
            &&& same_rt_frames(pre, post)
            &&& post.warnings == pre.warnings
            &&& post.stack@ == pre.stack@.push(Value::Double(0))
            &&& post.pc == pc + 1
        }),
        Instruction::DConst1 => ({
            &&& same_rt_frames(pre, post)
            &&& post.warnings == pre.warnings
            &&& post.stack@ == pre.stack@.push(Value::Double(0x3FF0_0000_0000_0000))
            &&& post.pc == pc + 1
        }),
        Instruction::Nop => ({
            &&& same_rt_frames(pre, post)
            &&& post.warnings == pre.warnings
            &&& post.stack == pre.stack
            &&& post.pc == pc + 1
        }),
        Instruction::BiPush => ({
            let code = pre.runtime.code();
            &&& pc + 2 <= code.len()
            &&& same_rt_frames(pre, post)
            &&& post.warnings == pre.warnings
            &&& post.stack@ == pre.stack@.push(Value::Int(code[pc + 1] as i8 as i32))
            &&& post.pc == pc + 2
        }),
        Instruction::SiPush => ({
            let code = pre.runtime.code();
            &&& pc + 3 <= code.len()
            &&& same_rt_frames(pre, post)
            &&& post.warnings == pre.warnings
            &&& post.stack@ == pre.stack@.push(Value::Int(be_u16(code, pc + 1) as i16 as i32))
            &&& post.pc == pc + 3
        }),
        Instruction::ILoad => ({
            let code = pre.runtime.code();
            &&& pc + 2 <= code.len()
            &&& pre.frames@.len() > 0
            &&& ({
                let l = pre.frames@.last().locals@;
                let idx = code[pc + 1] as int;
                &&& idx < l.len()
                &&& slot_matches(SlotKind::KInt, l[idx])
                &&& post.stack@ == pre.stack@.push(l[idx])
            })
            &&& same_rt_frames(pre, post)
            &&& post.warnings == pre.warnings
            &&& post.pc == pc + 2
        }),
        Instruction::IStore => ({
            let code = pre.runtime.code();
            let s = pre.stack@;
            &&& pc + 2 <= code.len()
            &&& s.len() > 0
            &&& slot_matches(SlotKind::KInt, s.last())
            &&& post.stack@ == s.drop_last()
            &&& frames_set_local(pre.frames@, post.frames@, code[pc + 1] as int, s.last())
            &&& post.runtime == pre.runtime
            &&& post.clinit_started == pre.clinit_started
            &&& post.native_calls == pre.native_calls
            &&& post.warnings == pre.warnings
            &&& post.pc == pc + 2
        }),
        Instruction::ILoad0 => ({
            let l = pre.frames@.last().locals@;
            &&& pre.frames@.len() > 0
            &&& 0 < l.len()
            &&& slot_matches(SlotKind::KInt, l[0])
            &&& same_rt_frames(pre, post)
            &&& post.warnings == pre.warnings
            &&& post.stack@ == pre.stack@.push(l[0])
            &&& post.pc == pc + 1
        }),
        Instruction::IStore0 => ({
            let s = pre.stack@;
            &&& s.len() > 0
            &&& slot_matches(SlotKind::KInt, s.last())
            &&& post.stack@ == s.drop_last()
            &&& frames_set_local(pre.frames@, post.frames@, 0, s.last())
            &&& post.runtime == pre.runtime
            &&& post.clinit_started == pre.clinit_started
            &&& post.native_calls == pre.native_calls
            &&& post.warnings == pre.warnings
            &&& post.pc == pc + 1
        }),
        Instruction::ILoad1 => ({
            let l = pre.frames@.last().locals@;
            &&& pre.frames@.len() > 0
            &&& 1 < l.len()
            &&& slot_matches(SlotKind::KInt, l[1])
            &&& same_rt_frames(pre, post)
            &&& post.warnings == pre.warnings
            &&& post.stack@ == pre.stack@.push(l[1])
            &&& post.pc == pc + 1
        }),
        Instruction::IStore1 => ({
            let s = pre.stack@;
            &&& s.len() > 0
            &&& slot_matches(SlotKind::KInt, s.last())
            &&& post.stack@ == s.drop_last()
            &&& frames_set_local(pre.frames@, post.frames@, 1, s.last())
            &&& post.runtime == pre.runtime
            &&& post.clinit_started == pre.clinit_started
            &&& post.native_calls == pre.native_calls
            &&& post.warnings == pre.warnings
            &&& post.pc == pc + 1
        }),
        Instruction::ILoad2 => ({
            let l = pre.frames@.last().locals@;
            &&& pre.frames@.len() > 0
            &&& 2 < l.len()
            &&& slot_matches(SlotKind::KInt, l[2])
            &&& same_rt_frames(pre, post)
            &&& post.warnings == pre.warnings
            &&& post.stack@ == pre.stack@.push(l[2])
            &&& post.pc == pc + 1
        }),
        Instruction::IStore2 => ({
            let s = pre.stack@;
            &&& s.len() > 0
            &&& slot_matches(SlotKind::KInt, s.last())
            &&& post.stack@ == s.drop_last()
            &&& frames_set_local(pre.frames@, post.frames@, 2, s.last())
            &&& post.runtime == pre.runtime
            &&& post.clinit_started == pre.clinit_started
            &&& post.native_calls == pre.native_calls
            &&& post.warnings == pre.warnings
            &&& post.pc == pc + 1
        }),
        Instruction::ILoad3 => ({
            let l = pre.frames@.last().locals@;
            &&& pre.frames@.len() > 0
            &&& 3 < l.len()
            &&& slot_matches(SlotKind::KInt, l[3])
            &&& same_rt_frames(pre, post)
            &&& post.warnings == pre.warnings
            &&& post.stack@ == pre.stack@.push(l[3])
            &&& post.pc == pc + 1
        }),
        Instruction::IStore3 => ({
            let s = pre.stack@;
            &&& s.len() > 0
            &&& slot_matches(SlotKind::KInt, s.last())
            &&& post.stack@ == s.drop_last()
            &&& frames_set_local(pre.frames@, post.frames@, 3, s.last())
            &&& post.runtime == pre.runtime
            &&& post.clinit_started == pre.clinit_started
            &&& post.native_calls == pre.native_calls
            &&& post.warnings == pre.warnings
            &&& post.pc == pc + 1
        }),
        Instruction::LLoad => ({
            let code = pre.runtime.code();
            &&& pc + 2 <= code.len()
            &&& pre.frames@.len() > 0
            &&& ({
                let l = pre.frames@.last().locals@;
                let idx = code[pc + 1] as int;
                &&& idx < l.len()
                &&& slot_matches(SlotKind::KLong, l[idx])
                &&& post.stack@ == pre.stack@.push(l[idx])
            })
            &&& same_rt_frames(pre, post)
            &&& post.warnings == pre.warnings
            &&& post.pc == pc + 2
        }),
        Instruction::LStore => ({
            let code = pre.runtime.code();
            let s = pre.stack@;
            &&& pc + 2 <= code.len()
            &&& s.len() > 0
            &&& slot_matches(SlotKind::KLong, s.last())
            &&& post.stack@ == s.drop_last()
            &&& frames_set_local(pre.frames@, post.frames@, code[pc + 1] as int, s.last())
            &&& post.runtime == pre.runtime
            &&& post.clinit_started == pre.clinit_started
            &&& post.native_calls == pre.native_calls
            &&& post.warnings == pre.warnings
            &&& post.pc == pc + 2
        }),
        Instruction::LLoad0 => ({
            let l = pre.frames@.last().locals@;
            &&& pre.frames@.len() > 0
            &&& 0 < l.len()
            &&& slot_matches(SlotKind::KLong, l[0])
            &&& same_rt_frames(pre, post)
            &&& post.warnings == pre.warnings
            &&& post.stack@ == pre.stack@.push(l[0])
            &&& post.pc == pc + 1
        }),
        Instruction::LStore0 => ({
            let s = pre.stack@;
            &&& s.len() > 0
            &&& slot_matches(SlotKind::KLong, s.last())
            &&& post.stack@ == s.drop_last()
            &&& frames_set_local(pre.frames@, post.frames@, 0, s.last())
            &&& post.runtime == pre.runtime
            &&& post.clinit_started == pre.clinit_started
            &&& post.native_calls == pre.native_calls
            &&& post.warnings == pre.warnings
            &&& post.pc == pc + 1
        }),
        Instruction::LLoad1 => ({
            let l = pre.frames@.last().locals@;
            &&& pre.frames@.len() > 0
            &&& 1 < l.len()
            &&& slot_matches(SlotKind::KLong, l[1])
            &&& same_rt_frames(pre, post)
            &&& post.warnings == pre.warnings
            &&& post.stack@ == pre.stack@.push(l[1])
            &&& post.pc == pc + 1
        }),
        Instruction::LStore1 => ({
            let s = pre.stack@;
            &&& s.len() > 0
            &&& slot_matches(SlotKind::KLong, s.last())
            &&& post.stack@ == s.drop_last()
            &&& frames_set_local(pre.frames@, post.frames@, 1, s.last())
            &&& post.runtime == pre.runtime
            &&& post.clinit_started == pre.clinit_started
            &&& post.native_calls == pre.native_calls
            &&& post.warnings == pre.warnings
            &&& post.pc == pc + 1
        }),
        Instruction::LLoad2 => ({
            let l = pre.frames@.last().locals@;
            &&& pre.frames@.len() > 0
            &&& 2 < l.len()
            &&& slot_matches(SlotKind::KLong, l[2])
            &&& same_rt_frames(pre, post)
            &&& post.warnings == pre.warnings
            &&& post.stack@ == pre.stack@.push(l[2])
            &&& post.pc == pc + 1
        }),
        Instruction::LStore2 => ({
            let s = pre.stack@;
            &&& s.len() > 0
            &&& slot_matches(SlotKind::KLong, s.last())
            &&& post.stack@ == s.drop_last()
            &&& frames_set_local(pre.frames@, post.frames@, 2, s.last())
            &&& post.runtime == pre.runtime
            &&& post.clinit_started == pre.clinit_started
            &&& post.native_calls == pre.native_calls
            &&& post.warnings == pre.warnings
            &&& post.pc == pc + 1
        }),
        Instruction::LLoad3 => ({
            let l = pre.frames@.last().locals@;
            &&& pre.frames@.len() > 0
            &&& 3 < l.len()
            &&& slot_matches(SlotKind::KLong, l[3])
            &&& same_rt_frames(pre, post)
            &&& post.warnings == pre.warnings
            &&& post.stack@ == pre.stack@.push(l[3])
            &&& post.pc == pc + 1
        }),
        Instruction::LStore3 => ({
            let s = pre.stack@;
            &&& s.len() > 0
            &&& slot_matches(SlotKind::KLong, s.last())
            &&& post.stack@ == s.drop_last()
            &&& frames_set_local(pre.frames@, post.frames@, 3, s.last())
            &&& post.runtime == pre.runtime
            &&& post.clinit_started == pre.clinit_started
            &&& post.native_calls == pre.native_calls
            &&& post.warnings == pre.warnings
            &&& post.pc == pc + 1
        }),
        Instruction::FLoad => ({
            let code = pre.runtime.code();
            &&& pc + 2 <= code.len()
            &&& pre.frames@.len() > 0
            &&& ({
                let l = pre.frames@.last().locals@;
                let idx = code[pc + 1] as int;
                &&& idx < l.len()
                &&& slot_matches(SlotKind::KFloat, l[idx])
                &&& post.stack@ == pre.stack@.push(l[idx])
            })
            &&& same_rt_frames(pre, post)
            &&& post.warnings == pre.warnings
            &&& post.pc == pc + 2
        }),
        Instruction::FStore => ({
            let code = pre.runtime.code();
            let s = pre.stack@;
            &&& pc + 2 <= code.len()
            &&& s.len() > 0
            &&& slot_matches(SlotKind::KFloat, s.last())
            &&& post.stack@ == s.drop_last()
            &&& frames_set_local(pre.frames@, post.frames@, code[pc + 1] as int, s.last())
            &&& post.runtime == pre.runtime
            &&& post.clinit_started == pre.clinit_started
            &&& post.native_calls == pre.native_calls
            &&& post.warnings == pre.warnings
            &&& post.pc == pc + 2
        }),
        Instruction::FLoad0 => ({
            let l = pre.frames@.last().locals@;
            &&& pre.frames@.len() > 0
            &&& 0 < l.len()
            &&& slot_matches(SlotKind::KFloat, l[0])
            &&& same_rt_frames(pre, post)
            &&& post.warnings == pre.warnings
            &&& post.stack@ == pre.stack@.push(l[0])
            &&& post.pc == pc + 1
        }),
        Instruction::FStore0 => ({
            let s = pre.stack@;
            &&& s.len() > 0
            &&& slot_matches(SlotKind::KFloat, s.last())
            &&& post.stack@ == s.drop_last()
            &&& frames_set_local(pre.frames@, post.frames@, 0, s.last())
            &&& post.runtime == pre.runtime
            &&& post.clinit_started == pre.clinit_started
            &&& post.native_calls == pre.native_calls
            &&& post.warnings == pre.warnings
            &&& post.pc == pc + 1
        }),
        Instruction::FLoad1 => ({
            let l = pre.frames@.last().locals@;
            &&& pre.frames@.len() > 0
            &&& 1 < l.len()
            &&& slot_matches(SlotKind::KFloat, l[1])
            &&& same_rt_frames(pre, post)
            &&& post.warnings == pre.warnings
            &&& post.stack@ == pre.stack@.push(l[1])
            &&& post.pc == pc + 1
        }),
        Instruction::FStore1 => ({
            let s = pre.stack@;
            &&& s.len() > 0
            &&& slot_matches(SlotKind::KFloat, s.last())
            &&& post.stack@ == s.drop_last()
            &&& frames_set_local(pre.frames@, post.frames@, 1, s.last())
            &&& post.runtime == pre.runtime
            &&& post.clinit_started == pre.clinit_started
            &&& post.native_calls == pre.native_calls
            &&& post.warnings == pre.warnings
            &&& post.pc == pc + 1
        }),
        Instruction::FLoad2 => ({
            let l = pre.frames@.last().locals@;
            &&& pre.frames@.len() > 0
            &&& 2 < l.len()
            &&& slot_matches(SlotKind::KFloat, l[2])
            &&& same_rt_frames(pre, post)
            &&& post.warnings == pre.warnings
            &&& post.stack@ == pre.stack@.push(l[2])
            &&& post.pc == pc + 1
        }),
        Instruction::FStore2 => ({
            let s = pre.stack@;
            &&& s.len() > 0
            &&& slot_matches(SlotKind::KFloat, s.last())
            &&& post.stack@ == s.drop_last()
            &&& frames_set_local(pre.frames@, post.frames@, 2, s.last())
            &&& post.runtime == pre.runtime
            &&& post.clinit_started == pre.clinit_started
            &&& post.native_calls == pre.native_calls
            &&& post.warnings == pre.warnings
            &&& post.pc == pc + 1
        }),
        Instruction::FLoad3 => ({
            let l = pre.frames@.last().locals@;
            &&& pre.frames@.len() > 0
            &&& 3 < l.len()
            &&& slot_matches(SlotKind::KFloat, l[3])
            &&& same_rt_frames(pre, post)
            &&& post.warnings == pre.warnings
            &&& post.stack@ == pre.stack@.push(l[3])
            &&& post.pc == pc + 1
        }),
        Instruction::FStore3 => ({
            let s = pre.stack@;
            &&& s.len() > 0
            &&& slot_matches(SlotKind::KFloat, s.last())
            &&& post.stack@ == s.drop_last()
            &&& frames_set_local(pre.frames@, post.frames@, 3, s.last())
            &&& post.runtime == pre.runtime
            &&& post.clinit_started == pre.clinit_started
            &&& post.native_calls == pre.native_calls
            &&& post.warnings == pre.warnings
            &&& post.pc == pc + 1
        }),
        Instruction::DLoad => ({
            let code = pre.runtime.code();
            &&& pc + 2 <= code.len()
            &&& pre.frames@.len() > 0
            &&& ({
                let l = pre.frames@.last().locals@;
                let idx = code[pc + 1] as int;
                &&& idx < l.len()
                &&& slot_matches(SlotKind::KDouble, l[idx])
                &&& post.stack@ == pre.stack@.push(l[idx])
            })
            &&& same_rt_frames(pre, post)
            &&& post.warnings == pre.warnings
            &&& post.pc == pc + 2
        }),
        Instruction::DStore => ({
            let code = pre.runtime.code();
            let s = pre.stack@;
            &&& pc + 2 <= code.len()
            &&& s.len() > 0
            &&& slot_matches(SlotKind::KDouble, s.last())
            &&& post.stack@ == s.drop_last()
            &&& frames_set_local(pre.frames@, post.frames@, code[pc + 1] as int, s.last())
            &&& post.runtime == pre.runtime
            &&& post.clinit_started == pre.clinit_started
            &&& post.native_calls == pre.native_calls
            &&& post.warnings == pre.warnings
            &&& post.pc == pc + 2
        }),
        Instruction::DLoad0 => ({
            let l = pre.frames@.last().locals@;
            &&& pre.frames@.len() > 0
            &&& 0 < l.len()
            &&& slot_matches(SlotKind::KDouble, l[0])
            &&& same_rt_frames(pre, post)
            &&& post.warnings == pre.warnings
            &&& post.stack@ == pre.stack@.push(l[0])
            &&& post.pc == pc + 1
        }),
        Instruction::DStore0 => ({
            let s = pre.stack@;
            &&& s.len() > 0
            &&& slot_matches(SlotKind::KDouble, s.last())
            &&& post.stack@ == s.drop_last()
            &&& frames_set_local(pre.frames@, post.frames@, 0, s.last())
            &&& post.runtime == pre.runtime
            &&& post.clinit_started == pre.clinit_started
            &&& post.native_calls == pre.native_calls
            &&& post.warnings == pre.warnings
            &&& post.pc == pc + 1
        }),
        Instruction::DLoad1 => ({
            let l = pre.frames@.last().locals@;
            &&& pre.frames@.len() > 0
            &&& 1 < l.len()
            &&& slot_matches(SlotKind::KDouble, l[1])
            &&& same_rt_frames(pre, post)
            &&& post.warnings == pre.warnings
            &&& post.stack@ == pre.stack@.push(l[1])
            &&& post.pc == pc + 1
        }),
        Instruction::DStore1 => ({
            let s = pre.stack@;
            &&& s.len() > 0
            &&& slot_matches(SlotKind::KDouble, s.last())
            &&& post.stack@ == s.drop_last()
            &&& frames_set_local(pre.frames@, post.frames@, 1, s.last())
            &&& post.runtime == pre.runtime
            &&& post.clinit_started == pre.clinit_started
            &&& post.native_calls == pre.native_calls
            &&& post.warnings == pre.warnings
            &&& post.pc == pc + 1
        }),
        Instruction::DLoad2 => ({
            let l = pre.frames@.last().locals@;
            &&& pre.frames@.len() > 0
            &&& 2 < l.len()
            &&& slot_matches(SlotKind::KDouble, l[2])
            &&& same_rt_frames(pre, post)
            &&& post.warnings == pre.warnings
            &&& post.stack@ == pre.stack@.push(l[2])
            &&& post.pc == pc + 1
        }),
        Instruction::DStore2 => ({
            let s = pre.stack@;
            &&& s.len() > 0
            &&& slot_matches(SlotKind::KDouble, s.last())
            &&& post.stack@ == s.drop_last()
            &&& frames_set_local(pre.frames@, post.frames@, 2, s.last())
            &&& post.runtime == pre.runtime
            &&& post.clinit_started == pre.clinit_started
            &&& post.native_calls == pre.native_calls
            &&& post.warnings == pre.warnings
            &&& post.pc == pc + 1
        }),
        Instruction::DLoad3 => ({
            let l = pre.frames@.last().locals@;
            &&& pre.frames@.len() > 0
            &&& 3 < l.len()
            &&& slot_matches(SlotKind::KDouble, l[3])
            &&& same_rt_frames(pre, post)
            &&& post.warnings == pre.warnings
            &&& post.stack@ == pre.stack@.push(l[3])
            &&& post.pc == pc + 1
        }),
        Instruction::DStore3 => ({
            let s = pre.stack@;
            &&& s.len() > 0
            &&& slot_matches(SlotKind::KDouble, s.last())
            &&& post.stack@ == s.drop_last()
            &&& frames_set_local(pre.frames@, post.frames@, 3, s.last())
            &&& post.runtime == pre.runtime
            &&& post.clinit_started == pre.clinit_started
            &&& post.native_calls == pre.native_calls
            &&& post.warnings == pre.warnings
            &&& post.pc == pc + 1
        }),
        Instruction::ALoad => ({
            let code = pre.runtime.code();
            &&& pc + 2 <= code.len()
            &&& pre.frames@.len() > 0
            &&& ({
                let l = pre.frames@.last().locals@;
                let idx = code[pc + 1] as int;
                &&& idx < l.len()
                &&& slot_matches(SlotKind::KRef, l[idx])
                &&& post.stack@ == pre.stack@.push(l[idx])
            })
            &&& same_rt_frames(pre, post)
            &&& post.warnings == pre.warnings
            &&& post.pc == pc + 2
        }),
        Instruction::AStore => ({
            let code = pre.runtime.code();
            let s = pre.stack@;
            &&& pc + 2 <= code.len()
            &&& s.len() > 0
            &&& slot_matches(SlotKind::KRef, s.last())
            &&& post.stack@ == s.drop_last()
            &&& frames_set_local(pre.frames@, post.frames@, code[pc + 1] as int, s.last())
            &&& post.runtime == pre.runtime
            &&& post.clinit_started == pre.clinit_started
            &&& post.native_calls == pre.native_calls
            &&& post.warnings == pre.warnings
            &&& post.pc == pc + 2
        }),
        Instruction::ALoad0 => ({
            let l = pre.frames@.last().locals@;
            &&& pre.frames@.len() > 0
            &&& 0 < l.len()
            &&& slot_matches(SlotKind::KRef, l[0])
            &&& same_rt_frames(pre, post)
            &&& post.warnings == pre.warnings
            &&& post.stack@ == pre.stack@.push(l[0])
            &&& post.pc == pc + 1
        }),
        Instruction::AStore0 => ({
            let s = pre.stack@;
            &&& s.len() > 0
            &&& slot_matches(SlotKind::KRef, s.last())
            &&& post.stack@ == s.drop_last()
            &&& frames_set_local(pre.frames@, post.frames@, 0, s.last())
            &&& post.runtime == pre.runtime
            &&& post.clinit_started == pre.clinit_started
            &&& post.native_calls == pre.native_calls
            &&& post.warnings == pre.warnings
            &&& post.pc == pc + 1
        }),
        Instruction::ALoad1 => ({
            let l = pre.frames@.last().locals@;
            &&& pre.frames@.len() > 0
            &&& 1 < l.len()
            &&& slot_matches(SlotKind::KRef, l[1])
            &&& same_rt_frames(pre, post)
            &&& post.warnings == pre.warnings
            &&& post.stack@ == pre.stack@.push(l[1])
            &&& post.pc == pc + 1
        }),
        Instruction::AStore1 => ({
            let s = pre.stack@;
            &&& s.len() > 0
            &&& slot_matches(SlotKind::KRef, s.last())
            &&& post.stack@ == s.drop_last()
            &&& frames_set_local(pre.frames@, post.frames@, 1, s.last())
            &&& post.runtime == pre.runtime
            &&& post.clinit_started == pre.clinit_started
            &&& post.native_calls == pre.native_calls
            &&& post.warnings == pre.warnings
            &&& post.pc == pc + 1
        }),
        Instruction::ALoad2 => ({
            let l = pre.frames@.last().locals@;
            &&& pre.frames@.len() > 0
            &&& 2 < l.len()
            &&& slot_matches(SlotKind::KRef, l[2])
            &&& same_rt_frames(pre, post)
            &&& post.warnings == pre.warnings
            &&& post.stack@ == pre.stack@.push(l[2])
            &&& post.pc == pc + 1
        }),
        Instruction::AStore2 => ({
            let s = pre.stack@;
            &&& s.len() > 0
            &&& slot_matches(SlotKind::KRef, s.last())
            &&& post.stack@ == s.drop_last()
            &&& frames_set_local(pre.frames@, post.frames@, 2, s.last())
            &&& post.runtime == pre.runtime
            &&& post.clinit_started == pre.clinit_started
            &&& post.native_calls == pre.native_calls
            &&& post.warnings == pre.warnings
            &&& post.pc == pc + 1
        }),
        Instruction::ALoad3 => ({
            let l = pre.frames@.last().locals@;
            &&& pre.frames@.len() > 0
            &&& 3 < l.len()
            &&& slot_matches(SlotKind::KRef, l[3])
            &&& same_rt_frames(pre, post)
            &&& post.warnings == pre.warnings
            &&& post.stack@ == pre.stack@.push(l[3])
            &&& post.pc == pc + 1
        }),
        Instruction::AStore3 => ({
            let s = pre.stack@;
            &&& s.len() > 0
            &&& slot_matches(SlotKind::KRef, s.last())
            &&& post.stack@ == s.drop_last()
            &&& frames_set_local(pre.frames@, post.frames@, 3, s.last())
            &&& post.runtime == pre.runtime
            &&& post.clinit_started == pre.clinit_started
            &&& post.native_calls == pre.native_calls
            &&& post.warnings == pre.warnings
            &&& post.pc == pc + 1
        }),
        Instruction::Pop => ({
            let s = pre.stack@;
            &&& s.len() >= 1
            &&& s.last().spec_is_category1()
            &&& post.stack@ == s.drop_last()
            &&& same_rt_frames(pre, post)
            &&& post.warnings == pre.warnings
            &&& post.pc == pc + 1
        }),
        Instruction::Pop2 => ({
            let s = pre.stack@;
            &&& s.len() >= 1
            &&& (if s.last().spec_is_category1() {
                &&& s.len() >= 2
                &&& s.drop_last().last().spec_is_category1()
                &&& post.stack@ == s.drop_last().drop_last()
            } else {
                post.stack@ == s.drop_last()
            })
            &&& same_rt_frames(pre, post)
            &&& post.warnings == pre.warnings
            &&& post.pc == pc + 1
        }),
        Instruction::Swap => ({
            let s = pre.stack@;
            &&& s.len() >= 2
            &&& s.last().spec_is_category1()
            &&& s.drop_last().last().spec_is_category1()
            &&& post.stack@ == s.drop_last().drop_last().push(s.last()).push(
                s.drop_last().last(),
            )
            &&& same_rt_frames(pre, post)
            &&& post.warnings == pre.warnings
            &&& post.pc == pc + 1
        }),
        Instruction::Dup => ({
            let s = pre.stack@;
            &&& s.len() >= 1
            &&& s.last().spec_is_category1()
            &&& post.stack@ == s.drop_last().push(s.last()).push(s.last())
            &&& same_rt_frames(pre, post)
            &&& post.warnings == pre.warnings
            &&& post.pc == pc + 1
        }),
        Instruction::DupX1 => ({
            let s = pre.stack@;
            &&& s.len() >= 2
            &&& s.last().spec_is_category1()
            &&& s.drop_last().last().spec_is_category1()
            &&& ({
                let v1 = s.last();
                let v2 = s.drop_last().last();
                post.stack@ == s.drop_last().drop_last().push(v1).push(v2).push(v1)
            })
            &&& same_rt_frames(pre, post)
            &&& post.warnings == pre.warnings
            &&& post.pc == pc + 1
        }),
        Instruction::DupX2 => ({
            let s = pre.stack@;
            &&& s.len() >= 2
            &&& s.last().spec_is_category1()
            &&& ({
                let v1 = s.last();
                let v2 = s.drop_last().last();
                if v2.spec_is_category1() {
                    &&& s.len() >= 3
                    &&& s.drop_last().drop_last().last().spec_is_category1()
                    &&& ({
                        let v3 = s.drop_last().drop_last().last();
                        post.stack@ == s.drop_last().drop_last().drop_last().push(v1).push(
                            v3,
                        ).push(v2).push(v1)
                    })
                } else {
                    post.stack@ == s.drop_last().drop_last().push(v1).push(v2).push(v1)
                }
            })
            &&& same_rt_frames(pre, post)
            &&& post.warnings == pre.warnings
            &&& post.pc == pc + 1
        }),
        Instruction::Dup2 => ({
            let s = pre.stack@;
            &&& s.len() >= 1
            &&& ({
                let v1 = s.last();
                if v1.spec_is_category1() {
                    &&& s.len() >= 2
                    &&& s.drop_last().last().spec_is_category1()
                    &&& ({
                        let v2 = s.drop_last().last();
                        post.stack@ == s.drop_last().drop_last().push(v2).push(v1).push(
                            v2,
                        ).push(v1)
                    })
                } else {
                    post.stack@ == s.drop_last().push(v1).push(v1)
                }
            })
            &&& same_rt_frames(pre, post)
            &&& post.warnings == pre.warnings
            &&& post.pc == pc + 1
        }),
        Instruction::Dup2X1 => ({
            let s = pre.stack@;
            &&& s.len() >= 1
            &&& ({
                let v1 = s.last();
                if v1.spec_is_category1() {
                    &&& s.len() >= 3
                    &&& s.drop_last().last().spec_is_category1()
                    &&& s.drop_last().drop_last().last().spec_is_category1()
                    &&& ({
                        let v2 = s.drop_last().last();
                        let v3 = s.drop_last().drop_last().last();
                        post.stack@ == s.drop_last().drop_last().drop_last().push(v2).push(
                            v1,
                        ).push(v3).push(v2).push(v1)
                    })
                } else {
                    &&& s.len() >= 2
                    &&& s.drop_last().last().spec_is_category1()
                    &&& ({
                        let v2 = s.drop_last().last();
                        post.stack@ == s.drop_last().drop_last().push(v1).push(v2).push(v1)
                    })
                }
            })
            &&& same_rt_frames(pre, post)
            &&& post.warnings == pre.warnings
            &&& post.pc == pc + 1
        }),
        Instruction::Dup2X2 => ({
            let s = pre.stack@;
            &&& s.len() >= 2
            &&& ({
                let v1 = s.last();
                let v2 = s.drop_last().last();
                if v1.spec_is_category1() {
                    &&& v2.spec_is_category1()
                    &&& s.len() >= 3
                    &&& ({
                        let v3 = s.drop_last().drop_last().last();
                        if v3.spec_is_category1() {
                            &&& s.len() >= 4
                            &&& s.drop_last().drop_last().drop_last().last().spec_is_category1()
                            &&& ({
                                let v4 = s.drop_last().drop_last().drop_last().last();
                                post.stack@ == s.drop_last().drop_last().drop_last().drop_last().push(
                                    v2,
                                ).push(v1).push(v4).push(v3).push(v2).push(v1)
                            })
                        } else {
                            post.stack@ == s.drop_last().drop_last().drop_last().push(v2).push(
                                v1,
                            ).push(v3).push(v2).push(v1)
                        }
                    })
                } else {
                    if v2.spec_is_category1() {
                        &&& s.len() >= 3
                        &&& s.drop_last().drop_last().last().spec_is_category1()
                        &&& ({
                            let v3 = s.drop_last().drop_last().last();
                            post.stack@ == s.drop_last().drop_last().drop_last().push(v1).push(
                                v3,
                            ).push(v2).push(v1)
                        })
                    } else {
                        post.stack@ == s.drop_last().drop_last().push(v1).push(v2).push(v1)
                    }
                }
            })
            &&& same_rt_frames(pre, post)
            &&& post.warnings == pre.warnings
            &&& post.pc == pc + 1
        }),
        _ => false,
    }
}

/// The exact effect of one integer arithmetic, logic, shift, comparison
/// or integer-conversion instruction, including which warning it records.
pub open spec fn spec_effect_alu(pre: Thread, post: Thread, instr: Instruction, pc: usize) -> bool {
    match instr {
        Instruction::IAdd => ({
            let s = pre.stack@;
            &&& s.len() >= 2
            &&& s.last() is Int
            &&& s.drop_last().last() is Int
            &&& !(bin_is_div(BinOp::Add) && s.last() == Value::Int(0))
            &&& ({
                let b = s.last()->Int_0;
                let a = s.drop_last().last()->Int_0;
                &&& post.stack@ == s.drop_last().drop_last().push(
                    Value::Int(int_bin(BinOp::Add, a, b)),
                )
                &&& post.warnings@ == (match int_bin_warn(BinOp::Add, a, b) {
                    Some(w) => pre.warnings@.push(Warning { pc, kind: w }),
                    None => pre.warnings@,
                })
            })
            &&& same_rt_frames(pre, post)
            &&& post.pc == pc + 1
        }),
        Instruction::ISub => ({
            let s = pre.stack@;
            &&& s.len() >= 2
            &&& s.last() is Int
            &&& s.drop_last().last() is Int
            &&& !(bin_is_div(BinOp::Sub) && s.last() == Value::Int(0))
            &&& ({
                let b = s.last()->Int_0;
                let a = s.drop_last().last()->Int_0;
                &&& post.stack@ == s.drop_last().drop_last().push(
                    Value::Int(int_bin(BinOp::Sub, a, b)),
                )
                &&& post.warnings@ == (match int_bin_warn(BinOp::Sub, a, b) {
                    Some(w) => pre.warnings@.push(Warning { pc, kind: w }),
                    None => pre.warnings@,
                })
            })
            &&& same_rt_frames(pre, post)
            &&& post.pc == pc + 1
        }),
        Instruction::IMul => ({
            let s = pre.stack@;
            &&& s.len() >= 2
            &&& s.last() is Int
            &&& s.drop_last().last() is Int
            &&& !(bin_is_div(BinOp::Mul) && s.last() == Value::Int(0))
            &&& ({
                let b = s.last()->Int_0;
                let a = s.drop_last().last()->Int_0;
                &&& post.stack@ == s.drop_last().drop_last().push(
                    Value::Int(int_bin(BinOp::Mul, a, b)),
                )
                &&& post.warnings@ == (match int_bin_warn(BinOp::Mul, a, b) {
                    Some(w) => pre.warnings@.push(Warning { pc, kind: w }),
                    None => pre.warnings@,
                })
            })
            &&& same_rt_frames(pre, post)
            &&& post.pc == pc + 1
        }),
        Instruction::IDiv => ({
            let s = pre.stack@;
            &&& s.len() >= 2
            &&& s.last() is Int
            &&& s.drop_last().last() is Int
            &&& !(bin_is_div(BinOp::Div) && s.last() == Value::Int(0))
            &&& ({
                let b = s.last()->Int_0;
                let a = s.drop_last().last()->Int_0;
                &&& post.stack@ == s.drop_last().drop_last().push(
                    Value::Int(int_bin(BinOp::Div, a, b)),
                )
                &&& post.warnings@ == (match int_bin_warn(BinOp::Div, a, b) {
                    Some(w) => pre.warnings@.push(Warning { pc, kind: w }),
                    None => pre.warnings@,
                })
            })
            &&& same_rt_frames(pre, post)
            &&& post.pc == pc + 1
        }),
        Instruction::IRem => ({
            let s = pre.stack@;
            &&& s.len() >= 2
            &&& s.last() is Int
            &&& s.drop_last().last() is Int
            &&& !(bin_is_div(BinOp::Rem) && s.last() == Value::Int(0))
            &&& ({
                let b = s.last()->Int_0;
                let a = s.drop_last().last()->Int_0;
                &&& post.stack@ == s.drop_last().drop_last().push(
                    Value::Int(int_bin(BinOp::Rem, a, b)),
                )
                &&& post.warnings@ == (match int_bin_warn(BinOp::Rem, a, b) {
                    Some(w) => pre.warnings@.push(Warning { pc, kind: w }),
                    None => pre.warnings@,
                })
            })
            &&& same_rt_frames(pre, post)
            &&& post.pc == pc + 1
        }),
        Instruction::IAnd => ({
            let s = pre.stack@;
            &&& s.len() >= 2
            &&& s.last() is Int
            &&& s.drop_last().last() is Int
            &&& !(bin_is_div(BinOp::And) && s.last() == Value::Int(0))
            &&& ({
                let b = s.last()->Int_0;
                let a = s.drop_last().last()->Int_0;
                &&& post.stack@ == s.drop_last().drop_last().push(
                    Value::Int(int_bin(BinOp::And, a, b)),
                )
                &&& post.warnings@ == (match int_bin_warn(BinOp::And, a, b) {
                    Some(w) => pre.warnings@.push(Warning { pc, kind: w }),
                    None => pre.warnings@,
                })
            })
            &&& same_rt_frames(pre, post)
            &&& post.pc == pc + 1
        }),
        Instruction::IOr => ({
            let s = pre.stack@;
            &&& s.len() >= 2
            &&& s.last() is Int
            &&& s.drop_last().last() is Int
            &&& !(bin_is_div(BinOp::Or) && s.last() == Value::Int(0))
            &&& ({
                let b = s.last()->Int_0;
                let a = s.drop_last().last()->Int_0;
                &&& post.stack@ == s.drop_last().drop_last().push(
                    Value::Int(int_bin(BinOp::Or, a, b)),
                )
                &&& post.warnings@ == (match int_bin_warn(BinOp::Or, a, b) {
                    Some(w) => pre.warnings@.push(Warning { pc, kind: w }),
                    None => pre.warnings@,
                })
            })
            &&& same_rt_frames(pre, post)
            &&& post.pc == pc + 1
        }),
        Instruction::IXOr => ({
            let s = pre.stack@;
            &&& s.len() >= 2
            &&& s.last() is Int
            &&& s.drop_last().last() is Int
            &&& !(bin_is_div(BinOp::Xor) && s.last() == Value::Int(0))
            &&& ({
                let b = s.last()->Int_0;
                let a = s.drop_last().last()->Int_0;
                &&& post.stack@ == s.drop_last().drop_last().push(
                    Value::Int(int_bin(BinOp::Xor, a, b)),
                )
                &&& post.warnings@ == (match int_bin_warn(BinOp::Xor, a, b) {
                    Some(w) => pre.warnings@.push(Warning { pc, kind: w }),
                    None => pre.warnings@,
                })
            })
            &&& same_rt_frames(pre, post)
            &&& post.pc == pc + 1
        }),
        Instruction::IShl => ({
            let s = pre.stack@;
            &&& s.len() >= 2
            &&& s.last() is Int
            &&& s.drop_last().last() is Int
            &&& !(bin_is_div(BinOp::Shl) && s.last() == Value::Int(0))
            &&& ({
                let b = s.last()->Int_0;
                let a = s.drop_last().last()->Int_0;
                &&& post.stack@ == s.drop_last().drop_last().push(
                    Value::Int(int_bin(BinOp::Shl, a, b)),
                )
                &&& post.warnings@ == (match int_bin_warn(BinOp::Shl, a, b) {
                    Some(w) => pre.warnings@.push(Warning { pc, kind: w }),
                    None => pre.warnings@,
                })
            })
            &&& same_rt_frames(pre, post)
            &&& post.pc == pc + 1
        }),
        Instruction::IShr => ({
            let s = pre.stack@;
            &&& s.len() >= 2
            &&& s.last() is Int
            &&& s.drop_last().last() is Int
            &&& !(bin_is_div(BinOp::Shr) && s.last() == Value::Int(0))
            &&& ({
                let b = s.last()->Int_0;
                let a = s.drop_last().last()->Int_0;
                &&& post.stack@ == s.drop_last().drop_last().push(
                    Value::Int(int_bin(BinOp::Shr, a, b)),
                )
                &&& post.warnings@ == (match int_bin_warn(BinOp::Shr, a, b) {
                    Some(w) => pre.warnings@.push(Warning { pc, kind: w }),
                    None => pre.warnings@,
                })
            })
            &&& same_rt_frames(pre, post)
            &&& post.pc == pc + 1
        }),
        Instruction::IUShr => ({
            let s = pre.stack@;
            &&& s.len() >= 2
            &&& s.last() is Int
            &&& s.drop_last().last() is Int
            &&& !(bin_is_div(BinOp::Ushr) && s.last() == Value::Int(0))
            &&& ({
                let b = s.last()->Int_0;
                let a = s.drop_last().last()->Int_0;
                &&& post.stack@ == s.drop_last().drop_last().push(
                    Value::Int(int_bin(BinOp::Ushr, a, b)),
                )
                &&& post.warnings@ == (match int_bin_warn(BinOp::Ushr, a, b) {
                    Some(w) => pre.warnings@.push(Warning { pc, kind: w }),
                    None => pre.warnings@,
                })
            })
            &&& same_rt_frames(pre, post)
            &&& post.pc == pc + 1
        }),
        Instruction::LAdd => ({
            let s = pre.stack@;
            &&& s.len() >= 2
            &&& s.last() is Long
            &&& s.drop_last().last() is Long
            &&& !(bin_is_div(BinOp::Add) && s.last() == Value::Long(0))
            &&& ({
                let b = s.last()->Long_0;
                let a = s.drop_last().last()->Long_0;
                &&& post.stack@ == s.drop_last().drop_last().push(
                    Value::Long(long_bin(BinOp::Add, a, b)),
                )
                &&& post.warnings@ == (match long_bin_warn(BinOp::Add, a, b) {
                    Some(w) => pre.warnings@.push(Warning { pc, kind: w }),
                    None => pre.warnings@,
                })
            })
            &&& same_rt_frames(pre, post)
            &&& post.pc == pc + 1
        }),
        Instruction::LSub => ({
            let s = pre.stack@;
            &&& s.len() >= 2
            &&& s.last() is Long
            &&& s.drop_last().last() is Long
            &&& !(bin_is_div(BinOp::Sub) && s.last() == Value::Long(0))
            &&& ({
                let b = s.last()->Long_0;
                let a = s.drop_last().last()->Long_0;
                &&& post.stack@ == s.drop_last().drop_last().push(
                    Value::Long(long_bin(BinOp::Sub, a, b)),
                )
                &&& post.warnings@ == (match long_bin_warn(BinOp::Sub, a, b) {
                    Some(w) => pre.warnings@.push(Warning { pc, kind: w }),
                    None => pre.warnings@,
                })
            })
            &&& same_rt_frames(pre, post)
            &&& post.pc == pc + 1
        }),
        Instruction::LMul => ({
            let s = pre.stack@;
            &&& s.len() >= 2
            &&& s.last() is Long
            &&& s.drop_last().last() is Long
            &&& !(bin_is_div(BinOp::Mul) && s.last() == Value::Long(0))
            &&& ({
                let b = s.last()->Long_0;
                let a = s.drop_last().last()->Long_0;
                &&& post.stack@ == s.drop_last().drop_last().push(
                    Value::Long(long_bin(BinOp::Mul, a, b)),
                )
                &&& post.warnings@ == (match long_bin_warn(BinOp::Mul, a, b) {
                    Some(w) => pre.warnings@.push(Warning { pc, kind: w }),
                    None => pre.warnings@,
                })
            })
            &&& same_rt_frames(pre, post)
            &&& post.pc == pc + 1
        }),
        Instruction::LDiv => ({
            let s = pre.stack@;
            &&& s.len() >= 2
            &&& s.last() is Long
            &&& s.drop_last().last() is Long
            &&& !(bin_is_div(BinOp::Div) && s.last() == Value::Long(0))
            &&& ({
                let b = s.last()->Long_0;
                let a = s.drop_last().last()->Long_0;
                &&& post.stack@ == s.drop_last().drop_last().push(
                    Value::Long(long_bin(BinOp::Div, a, b)),
                )
                &&& post.warnings@ == (match long_bin_warn(BinOp::Div, a, b) {
                    Some(w) => pre.warnings@.push(Warning { pc, kind: w }),
                    None => pre.warnings@,
                })
            })
            &&& same_rt_frames(pre, post)
            &&& post.pc == pc + 1
        }),
        Instruction::LRem => ({
            let s = pre.stack@;
            &&& s.len() >= 2
            &&& s.last() is Long
            &&& s.drop_last().last() is Long
            &&& !(bin_is_div(BinOp::Rem) && s.last() == Value::Long(0))
            &&& ({
                let b = s.last()->Long_0;
                let a = s.drop_last().last()->Long_0;
                &&& post.stack@ == s.drop_last().drop_last().push(
                    Value::Long(long_bin(BinOp::Rem, a, b)),
                )
                &&& post.warnings@ == (match long_bin_warn(BinOp::Rem, a, b) {
                    Some(w) => pre.warnings@.push(Warning { pc, kind: w }),
                    None => pre.warnings@,
                })
            })
            &&& same_rt_frames(pre, post)
            &&& post.pc == pc + 1
        }),
        Instruction::LAnd => ({
            let s = pre.stack@;
            &&& s.len() >= 2
            &&& s.last() is Long
            &&& s.drop_last().last() is Long
            &&& !(bin_is_div(BinOp::And) && s.last() == Value::Long(0))
            &&& ({
                let b = s.last()->Long_0;
                let a = s.drop_last().last()->Long_0;
                &&& post.stack@ == s.drop_last().drop_last().push(
                    Value::Long(long_bin(BinOp::And, a, b)),
                )
                &&& post.warnings@ == (match long_bin_warn(BinOp::And, a, b) {
                    Some(w) => pre.warnings@.push(Warning { pc, kind: w }),
                    None => pre.warnings@,
                })
            })
            &&& same_rt_frames(pre, post)
            &&& post.pc == pc + 1
        }),
        Instruction::LOr => ({
            let s = pre.stack@;
            &&& s.len() >= 2
            &&& s.last() is Long
            &&& s.drop_last().last() is Long
            &&& !(bin_is_div(BinOp::Or) && s.last() == Value::Long(0))
            &&& ({
                let b = s.last()->Long_0;
                let a = s.drop_last().last()->Long_0;
                &&& post.stack@ == s.drop_last().drop_last().push(
                    Value::Long(long_bin(BinOp::Or, a, b)),
                )
                &&& post.warnings@ == (match long_bin_warn(BinOp::Or, a, b) {
                    Some(w) => pre.warnings@.push(Warning { pc, kind: w }),
                    None => pre.warnings@,
                })
            })
            &&& same_rt_frames(pre, post)
            &&& post.pc == pc + 1
        }),
        Instruction::LXOr => ({
            let s = pre.stack@;
            &&& s.len() >= 2
            &&& s.last() is Long
            &&& s.drop_last().last() is Long
            &&& !(bin_is_div(BinOp::Xor) && s.last() == Value::Long(0))
            &&& ({
                let b = s.last()->Long_0;
                let a = s.drop_last().last()->Long_0;
                &&& post.stack@ == s.drop_last().drop_last().push(
                    Value::Long(long_bin(BinOp::Xor, a, b)),
                )
                &&& post.warnings@ == (match long_bin_warn(BinOp::Xor, a, b) {
                    Some(w) => pre.warnings@.push(Warning { pc, kind: w }),
                    None => pre.warnings@,
                })
            })
            &&& same_rt_frames(pre, post)
            &&& post.pc == pc + 1
        }),
        Instruction::LShl => ({
            let s = pre.stack@;
            &&& s.len() >= 2
            &&& s.last() is Long
            &&& s.drop_last().last() is Long
            &&& !(bin_is_div(BinOp::Shl) && s.last() == Value::Long(0))
            &&& ({
                let b = s.last()->Long_0;
                let a = s.drop_last().last()->Long_0;
                &&& post.stack@ == s.drop_last().drop_last().push(
                    Value::Long(long_bin(BinOp::Shl, a, b)),
                )
                &&& post.warnings@ == (match long_bin_warn(BinOp::Shl, a, b) {
                    Some(w) => pre.warnings@.push(Warning { pc, kind: w }),
                    None => pre.warnings@,
                })
            })
            &&& same_rt_frames(pre, post)
            &&& post.pc == pc + 1
        }),
        Instruction::LShr => ({
            let s = pre.stack@;
            &&& s.len() >= 2
            &&& s.last() is Long
            &&& s.drop_last().last() is Long
            &&& !(bin_is_div(BinOp::Shr) && s.last() == Value::Long(0))
            &&& ({
                let b = s.last()->Long_0;
                let a = s.drop_last().last()->Long_0;
                &&& post.stack@ == s.drop_last().drop_last().push(
                    Value::Long(long_bin(BinOp::Shr, a, b)),
                )
                &&& post.warnings@ == (match long_bin_warn(BinOp::Shr, a, b) {
                    Some(w) => pre.warnings@.push(Warning { pc, kind: w }),
                    None => pre.warnings@,
                })
            })
            &&& same_rt_frames(pre, post)
            &&& post.pc == pc + 1
        }),
        Instruction::LUShr => ({
            let s = pre.stack@;
            &&& s.len() >= 2
            &&& s.last() is Long
            &&& s.drop_last().last() is Long
            &&& !(bin_is_div(BinOp::Ushr) && s.last() == Value::Long(0))
            &&& ({
                let b = s.last()->Long_0;
                let a = s.drop_last().last()->Long_0;
                &&& post.stack@ == s.drop_last().drop_last().push(
                    Value::Long(long_bin(BinOp::Ushr, a, b)),
                )
                &&& post.warnings@ == (match long_bin_warn(BinOp::Ushr, a, b) {
                    Some(w) => pre.warnings@.push(Warning { pc, kind: w }),
                    None => pre.warnings@,
                })
            })
            &&& same_rt_frames(pre, post)
            &&& post.pc == pc + 1
        }),
        Instruction::INeg => ({
            let s = pre.stack@;
            &&& s.len() >= 1
            &&& s.last() is Int
            &&& post.stack@ == s.drop_last().push(Value::Int(vstd::wrapping::i32_specs::wrapping_sub(0, s.last()->Int_0)))
            &&& same_rt_frames(pre, post)
            &&& post.warnings == pre.warnings
            &&& post.pc == pc + 1
        }),
        Instruction::LNeg => ({
            let s = pre.stack@;
            &&& s.len() >= 1
            &&& s.last() is Long
            &&& post.stack@ == s.drop_last().push(Value::Long(vstd::wrapping::i64_specs::wrapping_sub(0, s.last()->Long_0)))
            &&& same_rt_frames(pre, post)
            &&& post.warnings == pre.warnings
            &&& post.pc == pc + 1
        }),
        Instruction::I2B => ({
            let s = pre.stack@;
            &&& s.len() >= 1
            &&& s.last() is Int
            &&& post.stack@ == s.drop_last().push(Value::Byte(s.last()->Int_0 as i8))
            &&& same_rt_frames(pre, post)
            &&& post.warnings == pre.warnings
            &&& post.pc == pc + 1
        }),
        Instruction::I2C => ({
            let s = pre.stack@;
            &&& s.len() >= 1
            &&& s.last() is Int
            &&& post.stack@ == s.drop_last().push(Value::Char(s.last()->Int_0 as i16))
            &&& same_rt_frames(pre, post)
            &&& post.warnings == pre.warnings
            &&& post.pc == pc + 1
        }),
        Instruction::I2S => ({
            let s = pre.stack@;
            &&& s.len() >= 1
            &&& s.last() is Int
            &&& post.stack@ == s.drop_last().push(Value::Short(s.last()->Int_0 as i16))
            &&& same_rt_frames(pre, post)
            &&& post.warnings == pre.warnings
            &&& post.pc == pc + 1
        }),
        Instruction::I2L => ({
            let s = pre.stack@;
            &&& s.len() >= 1
            &&& s.last() is Int
            &&& post.stack@ == s.drop_last().push(Value::Long(s.last()->Int_0 as i64))
            &&& same_rt_frames(pre, post)
            &&& post.warnings == pre.warnings
            &&& post.pc == pc + 1
        }),
        Instruction::L2I => ({
            let s = pre.stack@;
            &&& s.len() >= 1
            &&& s.last() is Long
            &&& post.stack@ == s.drop_last().push(Value::Int(s.last()->Long_0 as i32))
            &&& same_rt_frames(pre, post)
            &&& post.warnings == pre.warnings
            &&& post.pc == pc + 1
        }),
        Instruction::LCmp => ({
            let s = pre.stack@;
            &&& s.len() >= 2
            &&& s.last() is Long
            &&& s.drop_last().last() is Long
            &&& ({
                let b = s.last()->Long_0;
                let a = s.drop_last().last()->Long_0;
                post.stack@ == s.drop_last().drop_last().push(
                    Value::Int(
                        if a == b {
                            0i32
                        } else if a > b {
                            1i32
                        } else {
                            -1i32
                        },
                    ),
                )
            })
            &&& same_rt_frames(pre, post)
            &&& post.warnings == pre.warnings
            &&& post.pc == pc + 1
        }),
        Instruction::IInc => ({
            let code = pre.runtime.code();
            &&& pc + 3 <= code.len()
            &&& pre.frames@.len() > 0
            &&& ({
                let idx = code[pc + 1] as int;
                let delta = code[pc + 2] as i8 as i32;
                let l = pre.frames@.last().locals@;
                &&& idx < l.len()
                &&& l[idx] is Int
                &&& ({
                    let cur = l[idx]->Int_0;
                    &&& frames_set_local(
                        pre.frames@,
                        post.frames@,
                        idx,
                        Value::Int(vstd::wrapping::i32_specs::wrapping_add(cur, delta)),
                    )
                    &&& post.warnings@ == (if cur + delta > i32::MAX || cur + delta < i32::MIN {
                        pre.warnings@.push(Warning { pc, kind: WarningKind::ArithmeticWrap })
                    } else {
                        pre.warnings@
                    })
                })
            })
            &&& post.stack == pre.stack
            &&& post.runtime == pre.runtime
            &&& post.clinit_started == pre.clinit_started
            &&& post.native_calls == pre.native_calls
            &&& post.pc == pc + 3
        }),
        _ => false,
    }
}

/// The effect of one floating-point instruction: the stack shape and the
/// variant discipline are exact; the numeric value of a result is the
/// embedder's and is not constrained here.
pub open spec fn spec_effect_float(pre: Thread, post: Thread, instr: Instruction, pc: usize) -> bool {
    match instr {
        Instruction::I2F => ({
            let s = pre.stack@;
            &&& s.len() >= 1
            &&& s.last() is Int
            &&& post.stack@ == s.drop_last().push(post.stack@.last())
            &&& post.stack@.last() is Float
            &&& same_rt_frames(pre, post)
            &&& post.warnings == pre.warnings
            &&& post.pc == pc + 1
        }),
        Instruction::I2D => ({
            let s = pre.stack@;
            &&& s.len() >= 1
            &&& s.last() is Int
            &&& post.stack@ == s.drop_last().push(post.stack@.last())
            &&& post.stack@.last() is Double
            &&& same_rt_frames(pre, post)
            &&& post.warnings == pre.warnings
            &&& post.pc == pc + 1
        }),
        Instruction::L2F => ({
            let s = pre.stack@;
            &&& s.len() >= 1
            &&& s.last() is Long
            &&& post.stack@ == s.drop_last().push(post.stack@.last())
            &&& post.stack@.last() is Float
            &&& same_rt_frames(pre, post)
            &&& post.warnings == pre.warnings
            &&& post.pc == pc + 1
        }),
        Instruction::L2D => ({
            let s = pre.stack@;
            &&& s.len() >= 1
            &&& s.last() is Long
            &&& post.stack@ == s.drop_last().push(post.stack@.last())
            &&& post.stack@.last() is Double
            &&& same_rt_frames(pre, post)
            &&& post.warnings == pre.warnings
            &&& post.pc == pc + 1
        }),
        Instruction::F2I => ({
            let s = pre.stack@;
            &&& s.len() >= 1
            &&& s.last() is Float
            &&& post.stack@ == s.drop_last().push(post.stack@.last())
            &&& post.stack@.last() is Int
            &&& same_rt_frames(pre, post)
            &&& post.warnings == pre.warnings
            &&& post.pc == pc + 1
        }),
        Instruction::F2L => ({
            let s = pre.stack@;
            &&& s.len() >= 1
            &&& s.last() is Float
            &&& post.stack@ == s.drop_last().push(post.stack@.last())
            &&& post.stack@.last() is Long
            &&& same_rt_frames(pre, post)
            &&& post.warnings == pre.warnings
            &&& post.pc == pc + 1
        }),
        Instruction::F2D => ({
            let s = pre.stack@;
            &&& s.len() >= 1
            &&& s.last() is Float
            &&& post.stack@ == s.drop_last().push(post.stack@.last())
            &&& post.stack@.last() is Double
            &&& same_rt_frames(pre, post)
            &&& post.warnings == pre.warnings
            &&& post.pc == pc + 1
        }),
        Instruction::D2I => ({
            let s = pre.stack@;
            &&& s.len() >= 1
            &&& s.last() is Double
            &&& post.stack@ == s.drop_last().push(post.stack@.last())
            &&& post.stack@.last() is Int
            &&& same_rt_frames(pre, post)
            &&& post.warnings == pre.warnings
            &&& post.pc == pc + 1
        }),
        Instruction::D2L => ({
            let s = pre.stack@;
            &&& s.len() >= 1
            &&& s.last() is Double
            &&& post.stack@ == s.drop_last().push(post.stack@.last())
            &&& post.stack@.last() is Long
            &&& same_rt_frames(pre, post)
            &&& post.warnings == pre.warnings
            &&& post.pc == pc + 1
        }),
        Instruction::D2F => ({
            let s = pre.stack@;
            &&& s.len() >= 1
            &&& s.last() is Double
            &&& post.stack@ == s.drop_last().push(post.stack@.last())
            &&& post.stack@.last() is Float
            &&& same_rt_frames(pre, post)
            &&& post.warnings == pre.warnings
            &&& post.pc == pc + 1
        }),
        Instruction::FAdd => ({
            let s = pre.stack@;
            &&& s.len() >= 2
            &&& s.last() is Float
            &&& s.drop_last().last() is Float
            &&& post.stack@ == s.drop_last().drop_last().push(post.stack@.last())
            &&& post.stack@.last() is Float
            &&& same_rt_frames(pre, post)
            &&& post.warnings == pre.warnings
            &&& post.pc == pc + 1
        }),
        Instruction::FSub => ({
            let s = pre.stack@;
            &&& s.len() >= 2
            &&& s.last() is Float
            &&& s.drop_last().last() is Float
            &&& post.stack@ == s.drop_last().drop_last().push(post.stack@.last())
            &&& post.stack@.last() is Float
            &&& same_rt_frames(pre, post)
            &&& post.warnings == pre.warnings
            &&& post.pc == pc + 1
        }),
        Instruction::FMul => ({
            let s = pre.stack@;
            &&& s.len() >= 2
            &&& s.last() is Float
            &&& s.drop_last().last() is Float
            &&& post.stack@ == s.drop_last().drop_last().push(post.stack@.last())
            &&& post.stack@.last() is Float
            &&& same_rt_frames(pre, post)
            &&& post.warnings == pre.warnings
            &&& post.pc == pc + 1
        }),
        Instruction::FDiv => ({
            let s = pre.stack@;
            &&& s.len() >= 2
            &&& s.last() is Float
            &&& s.drop_last().last() is Float
            &&& post.stack@ == s.drop_last().drop_last().push(post.stack@.last())
            &&& post.stack@.last() is Float
            &&& same_rt_frames(pre, post)
            &&& post.warnings == pre.warnings
            &&& post.pc == pc + 1
        }),
        Instruction::FRem => ({
            let s = pre.stack@;
            &&& s.len() >= 2
            &&& s.last() is Float
            &&& s.drop_last().last() is Float
            &&& post.stack@ == s.drop_last().drop_last().push(post.stack@.last())
            &&& post.stack@.last() is Float
            &&& same_rt_frames(pre, post)
            &&& post.warnings == pre.warnings
            &&& post.pc == pc + 1
        }),
        Instruction::FNeg => ({
            let s = pre.stack@;
            &&& s.len() >= 1
            &&& s.last() is Float
            &&& post.stack@ == s.drop_last().push(post.stack@.last())
            &&& post.stack@.last() is Float
            &&& same_rt_frames(pre, post)
            &&& post.warnings == pre.warnings
            &&& post.pc == pc + 1
        }),
        Instruction::DAdd => ({
            let s = pre.stack@;
            &&& s.len() >= 2
            &&& s.last() is Double
            &&& s.drop_last().last() is Double
            &&& post.stack@ == s.drop_last().drop_last().push(post.stack@.last())
            &&& post.stack@.last() is Double
            &&& same_rt_frames(pre, post)
            &&& post.warnings == pre.warnings
            &&& post.pc == pc + 1
        }),
        Instruction::DSub => ({
            let s = pre.stack@;
            &&& s.len() >= 2
            &&& s.last() is Double
            &&& s.drop_last().last() is Double
            &&& post.stack@ == s.drop_last().drop_last().push(post.stack@.last())
            &&& post.stack@.last() is Double
            &&& same_rt_frames(pre, post)
            &&& post.warnings == pre.warnings
            &&& post.pc == pc + 1
        }),
        Instruction::DMul => ({
            let s = pre.stack@;
            &&& s.len() >= 2
            &&& s.last() is Double
            &&& s.drop_last().last() is Double
            &&& post.stack@ == s.drop_last().drop_last().push(post.stack@.last())
            &&& post.stack@.last() is Double
            &&& same_rt_frames(pre, post)
            &&& post.warnings == pre.warnings
            &&& post.pc == pc + 1
        }),
        Instruction::DDiv => ({
            let s = pre.stack@;
            &&& s.len() >= 2
            &&& s.last() is Double
            &&& s.drop_last().last() is Double
            &&& post.stack@ == s.drop_last().drop_last().push(post.stack@.last())
            &&& post.stack@.last() is Double
            &&& same_rt_frames(pre, post)
            &&& post.warnings == pre.warnings
            &&& post.pc == pc + 1
        }),
        Instruction::DRem => ({
            let s = pre.stack@;
            &&& s.len() >= 2
            &&& s.last() is Double
            &&& s.drop_last().last() is Double
            &&& post.stack@ == s.drop_last().drop_last().push(post.stack@.last())
            &&& post.stack@.last() is Double
            &&& same_rt_frames(pre, post)
            &&& post.warnings == pre.warnings
            &&& post.pc == pc + 1
        }),
        Instruction::DNeg => ({
            let s = pre.stack@;
            &&& s.len() >= 1
            &&& s.last() is Double
            &&& post.stack@ == s.drop_last().push(post.stack@.last())
            &&& post.stack@.last() is Double
            &&& same_rt_frames(pre, post)
            &&& post.warnings == pre.warnings
            &&& post.pc == pc + 1
        }),
        Instruction::FCmpl => ({
            let s = pre.stack@;
            &&& s.len() >= 2
            &&& s.last() is Float
            &&& s.drop_last().last() is Float
            &&& post.stack@ == s.drop_last().drop_last().push(post.stack@.last())
            &&& (post.stack@.last() matches Value::Int(c) && -1 <= c <= 1)
            &&& same_rt_frames(pre, post)
            &&& post.warnings == pre.warnings
            &&& post.pc == pc + 1
        }),
        Instruction::FCmpg => ({
            let s = pre.stack@;
            &&& s.len() >= 2
            &&& s.last() is Float
            &&& s.drop_last().last() is Float
            &&& post.stack@ == s.drop_last().drop_last().push(post.stack@.last())
            &&& (post.stack@.last() matches Value::Int(c) && -1 <= c <= 1)
            &&& same_rt_frames(pre, post)
            &&& post.warnings == pre.warnings
            &&& post.pc == pc + 1
        }),
        Instruction::DCmpl => ({
            let s = pre.stack@;
            &&& s.len() >= 2
            &&& s.last() is Double
            &&& s.drop_last().last() is Double
            &&& post.stack@ == s.drop_last().drop_last().push(post.stack@.last())
            &&& (post.stack@.last() matches Value::Int(c) && -1 <= c <= 1)
            &&& same_rt_frames(pre, post)
            &&& post.warnings == pre.warnings
            &&& post.pc == pc + 1
        }),
        Instruction::DCmpg => ({
            let s = pre.stack@;
            &&& s.len() >= 2
            &&& s.last() is Double
            &&& s.drop_last().last() is Double
            &&& post.stack@ == s.drop_last().drop_last().push(post.stack@.last())
            &&& (post.stack@.last() matches Value::Int(c) && -1 <= c <= 1)
            &&& same_rt_frames(pre, post)
            &&& post.warnings == pre.warnings
            &&& post.pc == pc + 1
        }),
        _ => false,
    }
}

/// The exact effect of one branch instruction: operands popped, and the
/// program counter moved to `pc + offset` (relative to the opcode's own
/// address) when the condition holds, else past the instruction.
pub open spec fn spec_effect_branch(pre: Thread, post: Thread, instr: Instruction, pc: usize) -> bool {
    match instr {
        Instruction::Goto => ({
            let code = pre.runtime.code();
            let off = be_u16(code, pc + 1) as i16 as int;
            &&& pc + 3 <= code.len()
            &&& post.stack == pre.stack
            &&& same_rt_frames(pre, post)
            &&& post.warnings == pre.warnings
            &&& 0 <= pc + off < code.len()
            &&& post.pc == pc + off
        }),
        Instruction::GotoW => ({
            let code = pre.runtime.code();
            let off = be_u32(code, pc + 1) as i32 as int;
            &&& pc + 5 <= code.len()
            &&& post.stack == pre.stack
            &&& same_rt_frames(pre, post)
            &&& post.warnings == pre.warnings
            &&& 0 <= pc + off < code.len()
            &&& post.pc == pc + off
        }),
        Instruction::ICmpEq => ({
            let code = pre.runtime.code();
            let off = be_u16(code, pc + 1) as i16 as int;
            let s = pre.stack@;
            &&& pc + 3 <= code.len()
            &&& s.len() >= 2
            &&& s.last() is Int
            &&& s.drop_last().last() is Int
            &&& post.stack@ == s.drop_last().drop_last()
            &&& same_rt_frames(pre, post)
            &&& post.warnings == pre.warnings
            &&& ({
                let b = s.last()->Int_0;
                let a = s.drop_last().last()->Int_0;
                if a == b {
                    &&& 0 <= pc + off < code.len()
                    &&& post.pc == pc + off
                } else {
                    post.pc == pc + 3
                }
            })
        }),
        Instruction::ICmpNe => ({
            let code = pre.runtime.code();
            let off = be_u16(code, pc + 1) as i16 as int;
            let s = pre.stack@;
            &&& pc + 3 <= code.len()
            &&& s.len() >= 2
            &&& s.last() is Int
            &&& s.drop_last().last() is Int
            &&& post.stack@ == s.drop_last().drop_last()
            &&& same_rt_frames(pre, post)
            &&& post.warnings == pre.warnings
            &&& ({
                let b = s.last()->Int_0;
                let a = s.drop_last().last()->Int_0;
                if a != b {
                    &&& 0 <= pc + off < code.len()
                    &&& post.pc == pc + off
                } else {
                    post.pc == pc + 3
                }
            })
        }),
        Instruction::ICmpLt => ({
            let code = pre.runtime.code();
            let off = be_u16(code, pc + 1) as i16 as int;
            let s = pre.stack@;
            &&& pc + 3 <= code.len()
            &&& s.len() >= 2
            &&& s.last() is Int
            &&& s.drop_last().last() is Int
            &&& post.stack@ == s.drop_last().drop_last()
            &&& same_rt_frames(pre, post)
            &&& post.warnings == pre.warnings
            &&& ({
                let b = s.last()->Int_0;
                let a = s.drop_last().last()->Int_0;
                if a < b {
                    &&& 0 <= pc + off < code.len()
                    &&& post.pc == pc + off
                } else {
                    post.pc == pc + 3
                }
            })
        }),
        Instruction::ICmpGe => ({
            let code = pre.runtime.code();
            let off = be_u16(code, pc + 1) as i16 as int;
            let s = pre.stack@;
            &&& pc + 3 <= code.len()
            &&& s.len() >= 2
            &&& s.last() is Int
            &&& s.drop_last().last() is Int
            &&& post.stack@ == s.drop_last().drop_last()
            &&& same_rt_frames(pre, post)
            &&& post.warnings == pre.warnings
            &&& ({
                let b = s.last()->Int_0;
                let a = s.drop_last().last()->Int_0;
                if a >= b {
                    &&& 0 <= pc + off < code.len()
                    &&& post.pc == pc + off
                } else {
                    post.pc == pc + 3
                }
            })
        }),
        Instruction::ICmpGt => ({
            let code = pre.runtime.code();
            let off = be_u16(code, pc + 1) as i16 as int;
            let s = pre.stack@;
            &&& pc + 3 <= code.len()
            &&& s.len() >= 2
            &&& s.last() is Int
            &&& s.drop_last().last() is Int
            &&& post.stack@ == s.drop_last().drop_last()
            &&& same_rt_frames(pre, post)
            &&& post.warnings == pre.warnings
            &&& ({
                let b = s.last()->Int_0;
                let a = s.drop_last().last()->Int_0;
                if a > b {
                    &&& 0 <= pc + off < code.len()
                    &&& post.pc == pc + off
                } else {
                    post.pc == pc + 3
                }
            })
        }),
        Instruction::ICmpLe => ({
            let code = pre.runtime.code();
            let off = be_u16(code, pc + 1) as i16 as int;
            let s = pre.stack@;
            &&& pc + 3 <= code.len()
            &&& s.len() >= 2
            &&& s.last() is Int
            &&& s.drop_last().last() is Int
            &&& post.stack@ == s.drop_last().drop_last()
            &&& same_rt_frames(pre, post)
            &&& post.warnings == pre.warnings
            &&& ({
                let b = s.last()->Int_0;
                let a = s.drop_last().last()->Int_0;
                if a <= b {
                    &&& 0 <= pc + off < code.len()
                    &&& post.pc == pc + off
                } else {
                    post.pc == pc + 3
                }
            })
        }),
        Instruction::IEq => ({
            let code = pre.runtime.code();
            let off = be_u16(code, pc + 1) as i16 as int;
            let s = pre.stack@;
            &&& pc + 3 <= code.len()
            &&& s.len() >= 1
            &&& s.last() is Int
            &&& post.stack@ == s.drop_last()
            &&& same_rt_frames(pre, post)
            &&& post.warnings == pre.warnings
            &&& ({
                let a = s.last()->Int_0;
                if a == 0 {
                    &&& 0 <= pc + off < code.len()
                    &&& post.pc == pc + off
                } else {
                    post.pc == pc + 3
                }
            })
        }),
        Instruction::INe => ({
            let code = pre.runtime.code();
            let off = be_u16(code, pc + 1) as i16 as int;
            let s = pre.stack@;
            &&& pc + 3 <= code.len()
            &&& s.len() >= 1
            &&& s.last() is Int
            &&& post.stack@ == s.drop_last()
            &&& same_rt_frames(pre, post)
            &&& post.warnings == pre.warnings
            &&& ({
                let a = s.last()->Int_0;
                if a != 0 {
                    &&& 0 <= pc + off < code.len()
                    &&& post.pc == pc + off
                } else {
                    post.pc == pc + 3
                }
            })
        }),
        Instruction::ILt => ({
            let code = pre.runtime.code();
            let off = be_u16(code, pc + 1) as i16 as int;
            let s = pre.stack@;
            &&& pc + 3 <= code.len()
            &&& s.len() >= 1
            &&& s.last() is Int
            &&& post.stack@ == s.drop_last()
            &&& same_rt_frames(pre, post)
            &&& post.warnings == pre.warnings
            &&& ({
                let a = s.last()->Int_0;
                if a < 0 {
                    &&& 0 <= pc + off < code.len()
                    &&& post.pc == pc + off
                } else {
                    post.pc == pc + 3
                }
            })
        }),
        Instruction::IGe => ({
            let code = pre.runtime.code();
            let off = be_u16(code, pc + 1) as i16 as int;
            let s = pre.stack@;
            &&& pc + 3 <= code.len()
            &&& s.len() >= 1
            &&& s.last() is Int
            &&& post.stack@ == s.drop_last()
            &&& same_rt_frames(pre, post)
            &&& post.warnings == pre.warnings
            &&& ({
                let a = s.last()->Int_0;
                if a >= 0 {
                    &&& 0 <= pc + off < code.len()
                    &&& post.pc == pc + off
                } else {
                    post.pc == pc + 3
                }
            })
        }),
        Instruction::IGt => ({
            let code = pre.runtime.code();
            let off = be_u16(code, pc + 1) as i16 as int;
            let s = pre.stack@;
            &&& pc + 3 <= code.len()
            &&& s.len() >= 1
            &&& s.last() is Int
            &&& post.stack@ == s.drop_last()
            &&& same_rt_frames(pre, post)
            &&& post.warnings == pre.warnings
            &&& ({
                let a = s.last()->Int_0;
                if a > 0 {
                    &&& 0 <= pc + off < code.len()
                    &&& post.pc == pc + off
                } else {
                    post.pc == pc + 3
                }
            })
        }),
        Instruction::ILe => ({
            let code = pre.runtime.code();
            let off = be_u16(code, pc + 1) as i16 as int;
            let s = pre.stack@;
            &&& pc + 3 <= code.len()
            &&& s.len() >= 1
            &&& s.last() is Int
            &&& post.stack@ == s.drop_last()
            &&& same_rt_frames(pre, post)
            &&& post.warnings == pre.warnings
            &&& ({
                let a = s.last()->Int_0;
                if a <= 0 {
                    &&& 0 <= pc + off < code.len()
                    &&& post.pc == pc + off
                } else {
                    post.pc == pc + 3
                }
            })
        }),
        Instruction::IfNull => ({
            let code = pre.runtime.code();
            let off = be_u16(code, pc + 1) as i16 as int;
            let s = pre.stack@;
            &&& pc + 3 <= code.len()
            &&& s.len() >= 1
            &&& post.stack@ == s.drop_last()
            &&& same_rt_frames(pre, post)
            &&& post.warnings == pre.warnings
            &&& (if s.last() is Null {
                &&& 0 <= pc + off < code.len()
                &&& post.pc == pc + off
            } else {
                post.pc == pc + 3
            })
        }),
        Instruction::IfNotNull => ({
            let code = pre.runtime.code();
            let off = be_u16(code, pc + 1) as i16 as int;
            let s = pre.stack@;
            &&& pc + 3 <= code.len()
            &&& s.len() >= 1
            &&& post.stack@ == s.drop_last()
            &&& same_rt_frames(pre, post)
            &&& post.warnings == pre.warnings
            &&& (if s.last() is Reference {
                &&& 0 <= pc + off < code.len()
                &&& post.pc == pc + off
            } else {
                post.pc == pc + 3
            })
        }),
        _ => false,
    }
}


/// The constant-push instructions (and `nop`).
pub open spec fn is_const_instr(i: Instruction) -> bool {
    match i {
        Instruction::IConstM1 => true,
        Instruction::IConst0 => true,
        Instruction::IConst1 => true,
        Instruction::IConst2 => true,
        Instruction::IConst3 => true,
        Instruction::IConst4 => true,
        Instruction::IConst5 => true,
        Instruction::LConst0 => true,
        Instruction::LConst1 => true,
        Instruction::FConst0 => true,
        Instruction::FConst1 => true,
        Instruction::FConst2 => true,
        Instruction::DConst0 => true,
        Instruction::DConst1 => true,
        Instruction::Nop => true,
        Instruction::BiPush => true,
        Instruction::SiPush => true,
        _ => false,
    }
}

/// The typed local-variable loads.
pub open spec fn is_load_instr(i: Instruction) -> bool {
    match i {
        Instruction::ILoad => true,
        Instruction::ILoad0 => true,
        Instruction::ILoad1 => true,
        Instruction::ILoad2 => true,
        Instruction::ILoad3 => true,
        Instruction::LLoad => true,
        Instruction::LLoad0 => true,
        Instruction::LLoad1 => true,
        Instruction::LLoad2 => true,
        Instruction::LLoad3 => true,
        Instruction::FLoad => true,
        Instruction::FLoad0 => true,
        Instruction::FLoad1 => true,
        Instruction::FLoad2 => true,
        Instruction::FLoad3 => true,
        Instruction::DLoad => true,
        Instruction::DLoad0 => true,
        Instruction::DLoad1 => true,
        Instruction::DLoad2 => true,
        Instruction::DLoad3 => true,
        Instruction::ALoad => true,
        Instruction::ALoad0 => true,
        Instruction::ALoad1 => true,
        Instruction::ALoad2 => true,
        Instruction::ALoad3 => true,
        _ => false,
    }
}

/// The typed local-variable stores.
pub open spec fn is_store_instr(i: Instruction) -> bool {
    match i {
        Instruction::IStore => true,
        Instruction::IStore0 => true,
        Instruction::IStore1 => true,
        Instruction::IStore2 => true,
        Instruction::IStore3 => true,
        Instruction::LStore => true,
        Instruction::LStore0 => true,
        Instruction::LStore1 => true,
        Instruction::LStore2 => true,
        Instruction::LStore3 => true,
        Instruction::FStore => true,
        Instruction::FStore0 => true,
        Instruction::FStore1 => true,
        Instruction::FStore2 => true,
        Instruction::FStore3 => true,
        Instruction::DStore => true,
        Instruction::DStore0 => true,
        Instruction::DStore1 => true,
        Instruction::DStore2 => true,
        Instruction::DStore3 => true,
        Instruction::AStore => true,
        Instruction::AStore0 => true,
        Instruction::AStore1 => true,
        Instruction::AStore2 => true,
        Instruction::AStore3 => true,
        _ => false,
    }
}

/// The typed local-variable loads and stores.
pub open spec fn is_local_instr(i: Instruction) -> bool {
    match i {
        Instruction::ILoad => true,
        Instruction::IStore => true,
        Instruction::ILoad0 => true,
        Instruction::ILoad1 => true,
        Instruction::ILoad2 => true,
        Instruction::ILoad3 => true,
        Instruction::IStore0 => true,
        Instruction::IStore1 => true,
        Instruction::IStore2 => true,
        Instruction::IStore3 => true,
        Instruction::LLoad => true,
        Instruction::LStore => true,
        Instruction::LLoad0 => true,
        Instruction::LLoad1 => true,
        Instruction::LLoad2 => true,
        Instruction::LLoad3 => true,
        Instruction::LStore0 => true,
        Instruction::LStore1 => true,
        Instruction::LStore2 => true,
        Instruction::LStore3 => true,
        Instruction::FLoad => true,
        Instruction::FStore => true,
        Instruction::FLoad0 => true,
        Instruction::FLoad1 => true,
        Instruction::FLoad2 => true,
        Instruction::FLoad3 => true,
        Instruction::FStore0 => true,
        Instruction::FStore1 => true,
        Instruction::FStore2 => true,
        Instruction::FStore3 => true,
        Instruction::DLoad => true,
        Instruction::DStore => true,
        Instruction::DLoad0 => true,
        Instruction::DLoad1 => true,
        Instruction::DLoad2 => true,
        Instruction::DLoad3 => true,
        Instruction::DStore0 => true,
        Instruction::DStore1 => true,
        Instruction::DStore2 => true,
        Instruction::DStore3 => true,
        Instruction::ALoad => true,
        Instruction::AStore => true,
        Instruction::ALoad0 => true,
        Instruction::ALoad1 => true,
        Instruction::ALoad2 => true,
        Instruction::ALoad3 => true,
        Instruction::AStore0 => true,
        Instruction::AStore1 => true,
        Instruction::AStore2 => true,
        Instruction::AStore3 => true,
        _ => false,
    }
}

/// The operand-stack manipulation instructions.
pub open spec fn is_stack_instr(i: Instruction) -> bool {
    match i {
        Instruction::Pop => true,
        Instruction::Pop2 => true,
        Instruction::Swap => true,
        Instruction::Dup => true,
        Instruction::DupX1 => true,
        Instruction::DupX2 => true,
        Instruction::Dup2 => true,
        Instruction::Dup2X1 => true,
        Instruction::Dup2X2 => true,
        _ => false,
    }
}


/// The operand-stack, local and operand-byte conditions under which a
/// constant, load, store or stack-manipulation instruction must succeed.
pub open spec fn spec_can_data(pre: Thread, instr: Instruction, pc: usize) -> bool {
    match instr {
        Instruction::IConstM1 => true,
        Instruction::IConst0 => true,
        Instruction::IConst1 => true,
        Instruction::IConst2 => true,
        Instruction::IConst3 => true,
        Instruction::IConst4 => true,
        Instruction::IConst5 => true,
        Instruction::LConst0 => true,
        Instruction::LConst1 => true,
        Instruction::FConst0 => true,
        Instruction::FConst1 => true,
        Instruction::FConst2 => true,
        Instruction::DConst0 => true,
        Instruction::DConst1 => true,
        Instruction::Nop => true,
        Instruction::BiPush => pc + 2 <= pre.runtime.code().len(),
        Instruction::SiPush => pc + 3 <= pre.runtime.code().len(),
        Instruction::ILoad => ({
            let code = pre.runtime.code();
            &&& pc + 2 <= code.len()
            &&& ({
                let l = pre.frames@.last().locals@;
                let idx = code[pc + 1] as int;
                &&& idx < l.len()
                &&& slot_matches(SlotKind::KInt, l[idx])
            })
        }),
        Instruction::IStore => ({
            let code = pre.runtime.code();
            let s = pre.stack@;
            &&& pc + 2 <= code.len()
            &&& s.len() > 0
            &&& slot_matches(SlotKind::KInt, s.last())
        }),
        Instruction::ILoad0 => ({
            let l = pre.frames@.last().locals@;
            &&& 0 < l.len()
            &&& slot_matches(SlotKind::KInt, l[0])
        }),
        Instruction::IStore0 => ({
            let s = pre.stack@;
            &&& s.len() > 0
            &&& slot_matches(SlotKind::KInt, s.last())
        }),
        Instruction::ILoad1 => ({
            let l = pre.frames@.last().locals@;
            &&& 1 < l.len()
            &&& slot_matches(SlotKind::KInt, l[1])
        }),
        Instruction::IStore1 => ({
            let s = pre.stack@;
            &&& s.len() > 0
            &&& slot_matches(SlotKind::KInt, s.last())
        }),
        Instruction::ILoad2 => ({
            let l = pre.frames@.last().locals@;
            &&& 2 < l.len()
            &&& slot_matches(SlotKind::KInt, l[2])
        }),
        Instruction::IStore2 => ({
            let s = pre.stack@;
            &&& s.len() > 0
            &&& slot_matches(SlotKind::KInt, s.last())
        }),
        Instruction::ILoad3 => ({
            let l = pre.frames@.last().locals@;
            &&& 3 < l.len()
            &&& slot_matches(SlotKind::KInt, l[3])
        }),
        Instruction::IStore3 => ({
            let s = pre.stack@;
            &&& s.len() > 0
            &&& slot_matches(SlotKind::KInt, s.last())
        }),
        Instruction::LLoad => ({
            let code = pre.runtime.code();
            &&& pc + 2 <= code.len()
            &&& ({
                let l = pre.frames@.last().locals@;
                let idx = code[pc + 1] as int;
                &&& idx < l.len()
                &&& slot_matches(SlotKind::KLong, l[idx])
            })
        }),
        Instruction::LStore => ({
            let code = pre.runtime.code();
            let s = pre.stack@;
            &&& pc + 2 <= code.len()
            &&& s.len() > 0
            &&& slot_matches(SlotKind::KLong, s.last())
        }),
        Instruction::LLoad0 => ({
            let l = pre.frames@.last().locals@;
            &&& 0 < l.len()
            &&& slot_matches(SlotKind::KLong, l[0])
        }),
        Instruction::LStore0 => ({
            let s = pre.stack@;
            &&& s.len() > 0
            &&& slot_matches(SlotKind::KLong, s.last())
        }),
        Instruction::LLoad1 => ({
            let l = pre.frames@.last().locals@;
            &&& 1 < l.len()
            &&& slot_matches(SlotKind::KLong, l[1])
        }),
        Instruction::LStore1 => ({
            let s = pre.stack@;
            &&& s.len() > 0
            &&& slot_matches(SlotKind::KLong, s.last())
        }),
        Instruction::LLoad2 => ({
            let l = pre.frames@.last().locals@;
            &&& 2 < l.len()
            &&& slot_matches(SlotKind::KLong, l[2])
        }),
        Instruction::LStore2 => ({
            let s = pre.stack@;
            &&& s.len() > 0
            &&& slot_matches(SlotKind::KLong, s.last())
        }),
        Instruction::LLoad3 => ({
            let l = pre.frames@.last().locals@;
            &&& 3 < l.len()
            &&& slot_matches(SlotKind::KLong, l[3])
        }),
        Instruction::LStore3 => ({
            let s = pre.stack@;
            &&& s.len() > 0
            &&& slot_matches(SlotKind::KLong, s.last())
        }),
        Instruction::FLoad => ({
            let code = pre.runtime.code();
            &&& pc + 2 <= code.len()
            &&& ({
                let l = pre.frames@.last().locals@;
                let idx = code[pc + 1] as int;
                &&& idx < l.len()
                &&& slot_matches(SlotKind::KFloat, l[idx])
            })
        }),
        Instruction::FStore => ({
            let code = pre.runtime.code();
            let s = pre.stack@;
            &&& pc + 2 <= code.len()
            &&& s.len() > 0
            &&& slot_matches(SlotKind::KFloat, s.last())
        }),
        Instruction::FLoad0 => ({
            let l = pre.frames@.last().locals@;
            &&& 0 < l.len()
            &&& slot_matches(SlotKind::KFloat, l[0])
        }),
        Instruction::FStore0 => ({
            let s = pre.stack@;
            &&& s.len() > 0
            &&& slot_matches(SlotKind::KFloat, s.last())
        }),
        Instruction::FLoad1 => ({
            let l = pre.frames@.last().locals@;
            &&& 1 < l.len()
            &&& slot_matches(SlotKind::KFloat, l[1])
        }),
        Instruction::FStore1 => ({
            let s = pre.stack@;
            &&& s.len() > 0
            &&& slot_matches(SlotKind::KFloat, s.last())
        }),
        Instruction::FLoad2 => ({
            let l = pre.frames@.last().locals@;
            &&& 2 < l.len()
            &&& slot_matches(SlotKind::KFloat, l[2])
        }),
        Instruction::FStore2 => ({
            let s = pre.stack@;
            &&& s.len() > 0
            &&& slot_matches(SlotKind::KFloat, s.last())
        }),
        Instruction::FLoad3 => ({
            let l = pre.frames@.last().locals@;
            &&& 3 < l.len()
            &&& slot_matches(SlotKind::KFloat, l[3])
        }),
        Instruction::FStore3 => ({
            let s = pre.stack@;
            &&& s.len() > 0
            &&& slot_matches(SlotKind::KFloat, s.last())
        }),
        Instruction::DLoad => ({
            let code = pre.runtime.code();
            &&& pc + 2 <= code.len()
            &&& ({
                let l = pre.frames@.last().locals@;
                let idx = code[pc + 1] as int;
                &&& idx < l.len()
                &&& slot_matches(SlotKind::KDouble, l[idx])
            })
        }),
        Instruction::DStore => ({
            let code = pre.runtime.code();
            let s = pre.stack@;
            &&& pc + 2 <= code.len()
            &&& s.len() > 0
            &&& slot_matches(SlotKind::KDouble, s.last())
        }),
        Instruction::DLoad0 => ({
            let l = pre.frames@.last().locals@;
            &&& 0 < l.len()
            &&& slot_matches(SlotKind::KDouble, l[0])
        }),
        Instruction::DStore0 => ({
            let s = pre.stack@;
            &&& s.len() > 0
            &&& slot_matches(SlotKind::KDouble, s.last())
        }),
        Instruction::DLoad1 => ({
            let l = pre.frames@.last().locals@;
            &&& 1 < l.len()
            &&& slot_matches(SlotKind::KDouble, l[1])
        }),
        Instruction::DStore1 => ({
            let s = pre.stack@;
            &&& s.len() > 0
            &&& slot_matches(SlotKind::KDouble, s.last())
        }),
        Instruction::DLoad2 => ({
            let l = pre.frames@.last().locals@;
            &&& 2 < l.len()
            &&& slot_matches(SlotKind::KDouble, l[2])
        }),
        Instruction::DStore2 => ({
            let s = pre.stack@;
            &&& s.len() > 0
            &&& slot_matches(SlotKind::KDouble, s.last())
        }),
        Instruction::DLoad3 => ({
            let l = pre.frames@.last().locals@;
            &&& 3 < l.len()
            &&& slot_matches(SlotKind::KDouble, l[3])
        }),
        Instruction::DStore3 => ({
            let s = pre.stack@;
            &&& s.len() > 0
            &&& slot_matches(SlotKind::KDouble, s.last())
        }),
        Instruction::ALoad => ({
            let code = pre.runtime.code();
            &&& pc + 2 <= code.len()
            &&& ({
                let l = pre.frames@.last().locals@;
                let idx = code[pc + 1] as int;
                &&& idx < l.len()
                &&& slot_matches(SlotKind::KRef, l[idx])
            })
        }),
        Instruction::AStore => ({
            let code = pre.runtime.code();
            let s = pre.stack@;
            &&& pc + 2 <= code.len()
            &&& s.len() > 0
            &&& slot_matches(SlotKind::KRef, s.last())
        }),
        Instruction::ALoad0 => ({
            let l = pre.frames@.last().locals@;
            &&& 0 < l.len()
            &&& slot_matches(SlotKind::KRef, l[0])
        }),
        Instruction::AStore0 => ({
            let s = pre.stack@;
            &&& s.len() > 0
            &&& slot_matches(SlotKind::KRef, s.last())
        }),
        Instruction::ALoad1 => ({
            let l = pre.frames@.last().locals@;
            &&& 1 < l.len()
            &&& slot_matches(SlotKind::KRef, l[1])
        }),
        Instruction::AStore1 => ({
            let s = pre.stack@;
            &&& s.len() > 0
            &&& slot_matches(SlotKind::KRef, s.last())
        }),
        Instruction::ALoad2 => ({
            let l = pre.frames@.last().locals@;
            &&& 2 < l.len()
            &&& slot_matches(SlotKind::KRef, l[2])
        }),
        Instruction::AStore2 => ({
            let s = pre.stack@;
            &&& s.len() > 0
            &&& slot_matches(SlotKind::KRef, s.last())
        }),
        Instruction::ALoad3 => ({
            let l = pre.frames@.last().locals@;
            &&& 3 < l.len()
            &&& slot_matches(SlotKind::KRef, l[3])
        }),
        Instruction::AStore3 => ({
            let s = pre.stack@;
            &&& s.len() > 0
            &&& slot_matches(SlotKind::KRef, s.last())
        }),
        Instruction::Pop => ({
            let s = pre.stack@;
            s.len() >= 1 && s.last().spec_is_category1()
        }),
        Instruction::Pop2 => ({
            let s = pre.stack@;
            &&& s.len() >= 1
            &&& (s.last().spec_is_category1() ==> s.len() >= 2
                && s.drop_last().last().spec_is_category1())
        }),
        Instruction::Swap => ({
            let s = pre.stack@;
            s.len() >= 2 && s.last().spec_is_category1()
                && s.drop_last().last().spec_is_category1()
        }),
        Instruction::Dup => ({
            let s = pre.stack@;
            s.len() >= 1 && s.last().spec_is_category1()
        }),
        Instruction::DupX1 => ({
            let s = pre.stack@;
            s.len() >= 2 && s.last().spec_is_category1()
                && s.drop_last().last().spec_is_category1()
        }),
        Instruction::DupX2 => ({
            let s = pre.stack@;
            &&& s.len() >= 2
            &&& s.last().spec_is_category1()
            &&& (s.drop_last().last().spec_is_category1() ==> s.len() >= 3
                && s.drop_last().drop_last().last().spec_is_category1())
        }),
        Instruction::Dup2 => ({
            let s = pre.stack@;
            &&& s.len() >= 1
            &&& (s.last().spec_is_category1() ==> s.len() >= 2
                && s.drop_last().last().spec_is_category1())
        }),
        Instruction::Dup2X1 => ({
            let s = pre.stack@;
            &&& s.len() >= 1
            &&& (if s.last().spec_is_category1() {
                &&& s.len() >= 3
                &&& s.drop_last().last().spec_is_category1()
                &&& s.drop_last().drop_last().last().spec_is_category1()
            } else {
                s.len() >= 2 && s.drop_last().last().spec_is_category1()
            })
        }),
        Instruction::Dup2X2 => ({
            let s = pre.stack@;
            &&& s.len() >= 2
            &&& (if s.last().spec_is_category1() {
                &&& s.drop_last().last().spec_is_category1()
                &&& s.len() >= 3
                &&& (s.drop_last().drop_last().last().spec_is_category1() ==> s.len() >= 4
                    && s.drop_last().drop_last().drop_last().last().spec_is_category1())
            } else {
                s.drop_last().last().spec_is_category1() ==> s.len() >= 3
                    && s.drop_last().drop_last().last().spec_is_category1()
            })
        }),
        _ => false,
    }
}

/// The conditions under which an integer instruction must succeed: typed
/// operands present and, for division and remainder, a nonzero divisor.
pub open spec fn spec_can_alu(pre: Thread, instr: Instruction, pc: usize) -> bool {
    match instr {
        Instruction::IAdd => ({
            let s = pre.stack@;
            &&& s.len() >= 2
            &&& s.last() is Int
            &&& s.drop_last().last() is Int
            &&& !(bin_is_div(BinOp::Add) && s.last() == Value::Int(0))
        }),
        Instruction::ISub => ({
            let s = pre.stack@;
            &&& s.len() >= 2
            &&& s.last() is Int
            &&& s.drop_last().last() is Int
            &&& !(bin_is_div(BinOp::Sub) && s.last() == Value::Int(0))
        }),
        Instruction::IMul => ({
            let s = pre.stack@;
            &&& s.len() >= 2
            &&& s.last() is Int
            &&& s.drop_last().last() is Int
            &&& !(bin_is_div(BinOp::Mul) && s.last() == Value::Int(0))
        }),
        Instruction::IDiv => ({
            let s = pre.stack@;
            &&& s.len() >= 2
            &&& s.last() is Int
            &&& s.drop_last().last() is Int
            &&& !(bin_is_div(BinOp::Div) && s.last() == Value::Int(0))
        }),
        Instruction::IRem => ({
            let s = pre.stack@;
            &&& s.len() >= 2
            &&& s.last() is Int
            &&& s.drop_last().last() is Int
            &&& !(bin_is_div(BinOp::Rem) && s.last() == Value::Int(0))
        }),
        Instruction::IAnd => ({
            let s = pre.stack@;
            &&& s.len() >= 2
            &&& s.last() is Int
            &&& s.drop_last().last() is Int
            &&& !(bin_is_div(BinOp::And) && s.last() == Value::Int(0))
        }),
        Instruction::IOr => ({
            let s = pre.stack@;
            &&& s.len() >= 2
            &&& s.last() is Int
            &&& s.drop_last().last() is Int
            &&& !(bin_is_div(BinOp::Or) && s.last() == Value::Int(0))
        }),
        Instruction::IXOr => ({
            let s = pre.stack@;
            &&& s.len() >= 2
            &&& s.last() is Int
            &&& s.drop_last().last() is Int
            &&& !(bin_is_div(BinOp::Xor) && s.last() == Value::Int(0))
        }),
        Instruction::IShl => ({
            let s = pre.stack@;
            &&& s.len() >= 2
            &&& s.last() is Int
            &&& s.drop_last().last() is Int
            &&& !(bin_is_div(BinOp::Shl) && s.last() == Value::Int(0))
        }),
        Instruction::IShr => ({
            let s = pre.stack@;
            &&& s.len() >= 2
            &&& s.last() is Int
            &&& s.drop_last().last() is Int
            &&& !(bin_is_div(BinOp::Shr) && s.last() == Value::Int(0))
        }),
        Instruction::IUShr => ({
            let s = pre.stack@;
            &&& s.len() >= 2
            &&& s.last() is Int
            &&& s.drop_last().last() is Int
            &&& !(bin_is_div(BinOp::Ushr) && s.last() == Value::Int(0))
        }),
        Instruction::LAdd => ({
            let s = pre.stack@;
            &&& s.len() >= 2
            &&& s.last() is Long
            &&& s.drop_last().last() is Long
            &&& !(bin_is_div(BinOp::Add) && s.last() == Value::Long(0))
        }),
        Instruction::LSub => ({
            let s = pre.stack@;
            &&& s.len() >= 2
            &&& s.last() is Long
            &&& s.drop_last().last() is Long
            &&& !(bin_is_div(BinOp::Sub) && s.last() == Value::Long(0))
        }),
        Instruction::LMul => ({
            let s = pre.stack@;
            &&& s.len() >= 2
            &&& s.last() is Long
            &&& s.drop_last().last() is Long
            &&& !(bin_is_div(BinOp::Mul) && s.last() == Value::Long(0))
        }),
        Instruction::LDiv => ({
            let s = pre.stack@;
            &&& s.len() >= 2
            &&& s.last() is Long
            &&& s.drop_last().last() is Long
            &&& !(bin_is_div(BinOp::Div) && s.last() == Value::Long(0))
        }),
        Instruction::LRem => ({
            let s = pre.stack@;
            &&& s.len() >= 2
            &&& s.last() is Long
            &&& s.drop_last().last() is Long
            &&& !(bin_is_div(BinOp::Rem) && s.last() == Value::Long(0))
        }),
        Instruction::LAnd => ({
            let s = pre.stack@;
            &&& s.len() >= 2
            &&& s.last() is Long
            &&& s.drop_last().last() is Long
            &&& !(bin_is_div(BinOp::And) && s.last() == Value::Long(0))
        }),
        Instruction::LOr => ({
            let s = pre.stack@;
            &&& s.len() >= 2
            &&& s.last() is Long
            &&& s.drop_last().last() is Long
            &&& !(bin_is_div(BinOp::Or) && s.last() == Value::Long(0))
        }),
        Instruction::LXOr => ({
            let s = pre.stack@;
            &&& s.len() >= 2
            &&& s.last() is Long
            &&& s.drop_last().last() is Long
            &&& !(bin_is_div(BinOp::Xor) && s.last() == Value::Long(0))
        }),
        Instruction::LShl => ({
            let s = pre.stack@;
            &&& s.len() >= 2
            &&& s.last() is Long
            &&& s.drop_last().last() is Long
            &&& !(bin_is_div(BinOp::Shl) && s.last() == Value::Long(0))
        }),
        Instruction::LShr => ({
            let s = pre.stack@;
            &&& s.len() >= 2
            &&& s.last() is Long
            &&& s.drop_last().last() is Long
            &&& !(bin_is_div(BinOp::Shr) && s.last() == Value::Long(0))
        }),
        Instruction::LUShr => ({
            let s = pre.stack@;
            &&& s.len() >= 2
            &&& s.last() is Long
            &&& s.drop_last().last() is Long
            &&& !(bin_is_div(BinOp::Ushr) && s.last() == Value::Long(0))
        }),
        Instruction::INeg => ({
            let s = pre.stack@;
            s.len() >= 1 && s.last() is Int
        }),
        Instruction::I2B => ({
            let s = pre.stack@;
            s.len() >= 1 && s.last() is Int
        }),
        Instruction::I2C => ({
            let s = pre.stack@;
            s.len() >= 1 && s.last() is Int
        }),
        Instruction::I2S => ({
            let s = pre.stack@;
            s.len() >= 1 && s.last() is Int
        }),
        Instruction::I2L => ({
            let s = pre.stack@;
            s.len() >= 1 && s.last() is Int
        }),
        Instruction::LNeg => ({
            let s = pre.stack@;
            s.len() >= 1 && s.last() is Long
        }),
        Instruction::L2I => ({
            let s = pre.stack@;
            s.len() >= 1 && s.last() is Long
        }),
        Instruction::LCmp => ({
            let s = pre.stack@;
            s.len() >= 2 && s.last() is Long && s.drop_last().last() is Long
        }),
        Instruction::IInc => ({
            let code = pre.runtime.code();
            &&& pc + 3 <= code.len()
            &&& ({
                let l = pre.frames@.last().locals@;
                let idx = code[pc + 1] as int;
                &&& idx < l.len()
                &&& l[idx] is Int
            })
        }),
        _ => false,
    }
}

/// The conditions under which a floating-point instruction must succeed:
/// operands of the right variant present.
pub open spec fn spec_can_float(pre: Thread, instr: Instruction, pc: usize) -> bool {
    match instr {
        Instruction::I2F => ({
            let s = pre.stack@;
            s.len() >= 1 && s.last() is Int
        }),
        Instruction::I2D => ({
            let s = pre.stack@;
            s.len() >= 1 && s.last() is Int
        }),
        Instruction::L2F => ({
            let s = pre.stack@;
            s.len() >= 1 && s.last() is Long
        }),
        Instruction::L2D => ({
            let s = pre.stack@;
            s.len() >= 1 && s.last() is Long
        }),
        Instruction::F2I => ({
            let s = pre.stack@;
            s.len() >= 1 && s.last() is Float
        }),
        Instruction::F2L => ({
            let s = pre.stack@;
            s.len() >= 1 && s.last() is Float
        }),
        Instruction::F2D => ({
            let s = pre.stack@;
            s.len() >= 1 && s.last() is Float
        }),
        Instruction::D2I => ({
            let s = pre.stack@;
            s.len() >= 1 && s.last() is Double
        }),
        Instruction::D2L => ({
            let s = pre.stack@;
            s.len() >= 1 && s.last() is Double
        }),
        Instruction::D2F => ({
            let s = pre.stack@;
            s.len() >= 1 && s.last() is Double
        }),
        Instruction::FNeg => ({
            let s = pre.stack@;
            s.len() >= 1 && s.last() is Float
        }),
        Instruction::DNeg => ({
            let s = pre.stack@;
            s.len() >= 1 && s.last() is Double
        }),
        Instruction::FAdd => ({
            let s = pre.stack@;
            s.len() >= 2 && s.last() is Float && s.drop_last().last() is Float
        }),
        Instruction::FSub => ({
            let s = pre.stack@;
            s.len() >= 2 && s.last() is Float && s.drop_last().last() is Float
        }),
        Instruction::FMul => ({
            let s = pre.stack@;
            s.len() >= 2 && s.last() is Float && s.drop_last().last() is Float
        }),
        Instruction::FDiv => ({
            let s = pre.stack@;
            s.len() >= 2 && s.last() is Float && s.drop_last().last() is Float
        }),
        Instruction::FRem => ({
            let s = pre.stack@;
            s.len() >= 2 && s.last() is Float && s.drop_last().last() is Float
        }),
        Instruction::DAdd => ({
            let s = pre.stack@;
            s.len() >= 2 && s.last() is Double && s.drop_last().last() is Double
        }),
        Instruction::DSub => ({
            let s = pre.stack@;
            s.len() >= 2 && s.last() is Double && s.drop_last().last() is Double
        }),
        Instruction::DMul => ({
            let s = pre.stack@;
            s.len() >= 2 && s.last() is Double && s.drop_last().last() is Double
        }),
        Instruction::DDiv => ({
            let s = pre.stack@;
            s.len() >= 2 && s.last() is Double && s.drop_last().last() is Double
        }),
        Instruction::DRem => ({
            let s = pre.stack@;
            s.len() >= 2 && s.last() is Double && s.drop_last().last() is Double
        }),
        Instruction::FCmpl => ({
            let s = pre.stack@;
            s.len() >= 2 && s.last() is Float && s.drop_last().last() is Float
        }),
        Instruction::FCmpg => ({
            let s = pre.stack@;
            s.len() >= 2 && s.last() is Float && s.drop_last().last() is Float
        }),
        Instruction::DCmpl => ({
            let s = pre.stack@;
            s.len() >= 2 && s.last() is Double && s.drop_last().last() is Double
        }),
        Instruction::DCmpg => ({
            let s = pre.stack@;
            s.len() >= 2 && s.last() is Double && s.drop_last().last() is Double
        }),
        _ => false,
    }
}

/// The conditions under which a branch must succeed: operand bytes and
/// typed operands present, and the target inside the code region whenever
/// it would be taken.
pub open spec fn spec_can_branch(pre: Thread, instr: Instruction, pc: usize) -> bool {
    match instr {
        Instruction::Goto => ({
            let code = pre.runtime.code();
            let off = be_u16(code, pc + 1) as i16 as int;
            &&& pc + 3 <= code.len()
            &&& 0 <= pc + off < code.len()
        }),
        Instruction::GotoW => ({
            let code = pre.runtime.code();
            let off = be_u32(code, pc + 1) as i32 as int;
            &&& pc + 5 <= code.len()
            &&& 0 <= pc + off < code.len()
        }),
        Instruction::ICmpEq => ({
            let code = pre.runtime.code();
            let off = be_u16(code, pc + 1) as i16 as int;
            let s = pre.stack@;
            &&& pc + 3 <= code.len()
            &&& s.len() >= 2
            &&& s.last() is Int
            &&& s.drop_last().last() is Int
            &&& ({
                let b = s.last()->Int_0;
                let a = s.drop_last().last()->Int_0;
                (a == b) ==> 0 <= pc + off < code.len()
            })
        }),
        Instruction::ICmpNe => ({
            let code = pre.runtime.code();
            let off = be_u16(code, pc + 1) as i16 as int;
            let s = pre.stack@;
            &&& pc + 3 <= code.len()
            &&& s.len() >= 2
            &&& s.last() is Int
            &&& s.drop_last().last() is Int
            &&& ({
                let b = s.last()->Int_0;
                let a = s.drop_last().last()->Int_0;
                (a != b) ==> 0 <= pc + off < code.len()
            })
        }),
        Instruction::ICmpLt => ({
            let code = pre.runtime.code();
            let off = be_u16(code, pc + 1) as i16 as int;
            let s = pre.stack@;
            &&& pc + 3 <= code.len()
            &&& s.len() >= 2
            &&& s.last() is Int
            &&& s.drop_last().last() is Int
            &&& ({
                let b = s.last()->Int_0;
                let a = s.drop_last().last()->Int_0;
                (a < b) ==> 0 <= pc + off < code.len()
            })
        }),
        Instruction::ICmpGe => ({
            let code = pre.runtime.code();
            let off = be_u16(code, pc + 1) as i16 as int;
            let s = pre.stack@;
            &&& pc + 3 <= code.len()
            &&& s.len() >= 2
            &&& s.last() is Int
            &&& s.drop_last().last() is Int
            &&& ({
                let b = s.last()->Int_0;
                let a = s.drop_last().last()->Int_0;
                (a >= b) ==> 0 <= pc + off < code.len()
            })
        }),
        Instruction::ICmpGt => ({
            let code = pre.runtime.code();
            let off = be_u16(code, pc + 1) as i16 as int;
            let s = pre.stack@;
            &&& pc + 3 <= code.len()
            &&& s.len() >= 2
            &&& s.last() is Int
            &&& s.drop_last().last() is Int
            &&& ({
                let b = s.last()->Int_0;
                let a = s.drop_last().last()->Int_0;
                (a > b) ==> 0 <= pc + off < code.len()
            })
        }),
        Instruction::ICmpLe => ({
            let code = pre.runtime.code();
            let off = be_u16(code, pc + 1) as i16 as int;
            let s = pre.stack@;
            &&& pc + 3 <= code.len()
            &&& s.len() >= 2
            &&& s.last() is Int
            &&& s.drop_last().last() is Int
            &&& ({
                let b = s.last()->Int_0;
                let a = s.drop_last().last()->Int_0;
                (a <= b) ==> 0 <= pc + off < code.len()
            })
        }),
        Instruction::IEq => ({
            let code = pre.runtime.code();
            let off = be_u16(code, pc + 1) as i16 as int;
            let s = pre.stack@;
            &&& pc + 3 <= code.len()
            &&& s.len() >= 1
            &&& s.last() is Int
            &&& ({
                let a = s.last()->Int_0;
                (a == 0) ==> 0 <= pc + off < code.len()
            })
        }),
        Instruction::INe => ({
            let code = pre.runtime.code();
            let off = be_u16(code, pc + 1) as i16 as int;
            let s = pre.stack@;
            &&& pc + 3 <= code.len()
            &&& s.len() >= 1
            &&& s.last() is Int
            &&& ({
                let a = s.last()->Int_0;
                (a != 0) ==> 0 <= pc + off < code.len()
            })
        }),
        Instruction::ILt => ({
            let code = pre.runtime.code();
            let off = be_u16(code, pc + 1) as i16 as int;
            let s = pre.stack@;
            &&& pc + 3 <= code.len()
            &&& s.len() >= 1
            &&& s.last() is Int
            &&& ({
                let a = s.last()->Int_0;
                (a < 0) ==> 0 <= pc + off < code.len()
            })
        }),
        Instruction::IGe => ({
            let code = pre.runtime.code();
            let off = be_u16(code, pc + 1) as i16 as int;
            let s = pre.stack@;
            &&& pc + 3 <= code.len()
            &&& s.len() >= 1
            &&& s.last() is Int
            &&& ({
                let a = s.last()->Int_0;
                (a >= 0) ==> 0 <= pc + off < code.len()
            })
        }),
        Instruction::IGt => ({
            let code = pre.runtime.code();
            let off = be_u16(code, pc + 1) as i16 as int;
            let s = pre.stack@;
            &&& pc + 3 <= code.len()
            &&& s.len() >= 1
            &&& s.last() is Int
            &&& ({
                let a = s.last()->Int_0;
                (a > 0) ==> 0 <= pc + off < code.len()
            })
        }),
        Instruction::ILe => ({
            let code = pre.runtime.code();
            let off = be_u16(code, pc + 1) as i16 as int;
            let s = pre.stack@;
            &&& pc + 3 <= code.len()
            &&& s.len() >= 1
            &&& s.last() is Int
            &&& ({
                let a = s.last()->Int_0;
                (a <= 0) ==> 0 <= pc + off < code.len()
            })
        }),
        Instruction::IfNull => ({
            let code = pre.runtime.code();
            let off = be_u16(code, pc + 1) as i16 as int;
            let s = pre.stack@;
            &&& pc + 3 <= code.len()
            &&& s.len() >= 1
            &&& (s.last() is Null ==> 0 <= pc + off < code.len())
        }),
        Instruction::IfNotNull => ({
            let code = pre.runtime.code();
            let off = be_u16(code, pc + 1) as i16 as int;
            let s = pre.stack@;
            &&& pc + 3 <= code.len()
            &&& s.len() >= 1
            &&& (s.last() is Reference ==> 0 <= pc + off < code.len())
        }),
        _ => false,
    }
}

/// Instructions of the supported subset that the interpreter executes;
/// the array opcodes decode but are outside this core.
pub open spec fn spec_supported(i: Instruction) -> bool {
    match i {
        Instruction::CALoad => false,
        Instruction::BALoad => false,
        Instruction::SALoad => false,
        Instruction::IALoad => false,
        Instruction::LALoad => false,
        Instruction::FALoad => false,
        Instruction::DALoad => false,
        Instruction::CAStore => false,
        Instruction::BAStore => false,
        Instruction::SAStore => false,
        Instruction::IAStore => false,
        Instruction::LAStore => false,
        Instruction::FAStore => false,
        Instruction::DAStore => false,
        Instruction::NewArray => false,
        Instruction::ArrayLength => false,
        _ => true,
    }
}

/// The two invocation instructions.
pub open spec fn is_invoke_instr(i: Instruction) -> bool {
    i == Instruction::InvokeStatic || i == Instruction::InvokeSpecial
}

/// A member reference's owner is what its `Class` entry resolves to.
pub proof fn lemma_member_ref_owner(cf: crate::classfile::ClassFile, index: u16)
    ensures
        spec_member_ref(cf, index) matches Some(p) ==> spec_ref_class_name(cf, index) == Some(p.0),
{
}

/// The conditions under which a static access must succeed: the field
/// reference resolves, the owner is already in the runtime pool with that
/// field, and — for a store — a value matching the field's type is on the
/// stack. (An owner not yet linked may still succeed; that case is forced
/// at the linker's own entry points.)
pub open spec fn spec_can_static(pre: Thread, index: u16, is_put: bool) -> bool {
    let cn = pre.frames@.last().class_name@;
    &&& pre.runtime.class_files_view().contains_key(cn)
    &&& (spec_member_ref(pre.runtime.class_files_view()[cn], index) matches Some(p) && {
        &&& pre.runtime.pool_view().contains_key(p.0)
        &&& match pre.runtime.pool_view()[p.0] {
            RuntimePool::Class(c) => {
                &&& c.fields@.contains_key(p.1)
                &&& (is_put ==> pre.stack@.len() > 0 && pre.stack@.last().spec_matches_type(
                    c.fields@[p.1].ty,
                ))
            },
        }
    })
}

/// The conditions under which an invocation must reach its target: the
/// method reference resolves, the owner is already in the runtime pool
/// with that method, and enough parameter values are on the stack.
pub open spec fn spec_can_invoke(pre: Thread, index: u16) -> bool {
    let cn = pre.frames@.last().class_name@;
    &&& pre.runtime.class_files_view().contains_key(cn)
    &&& (spec_member_ref(pre.runtime.class_files_view()[cn], index) matches Some(p) && {
        &&& pre.runtime.pool_view().contains_key(p.0)
        &&& match pre.runtime.pool_view()[p.0] {
            RuntimePool::Class(c) => c.methods@.contains_key(p.1) && (match c.methods@[p.1] {
                Method::Java(jm) => pre.stack@.len() >= jm.params@.len(),
                Method::Native(nm) => pre.stack@.len() >= nm.params@.len(),
            }),
        }
    })
}

/// The conditions under which one step must succeed — except that an
/// invocation of a native method whose descriptor declares a result may
/// still fail fatally if the embedder withholds the value.
pub open spec fn spec_step_can(pre: Thread, ins: Instruction) -> bool {
    match ins {
        Instruction::Return => true,
        Instruction::IReturn => pre.stack@.len() >= 1 && pre.stack@.last() is Int,
        Instruction::LReturn => pre.stack@.len() >= 1 && pre.stack@.last() is Long,
        Instruction::FReturn => pre.stack@.len() >= 1 && pre.stack@.last() is Float,
        Instruction::DReturn => pre.stack@.len() >= 1 && pre.stack@.last() is Double,
        Instruction::AReturn => pre.stack@.len() >= 1 && (pre.stack@.last() is Reference
            || pre.stack@.last() is Null),
        Instruction::GetStatic => pre.pc + 3 <= pre.runtime.code().len() && spec_can_static(
            pre,
            be_u16(pre.runtime.code(), pre.pc + 1),
            false,
        ),
        Instruction::PutStatic => pre.pc + 3 <= pre.runtime.code().len() && spec_can_static(
            pre,
            be_u16(pre.runtime.code(), pre.pc + 1),
            true,
        ),
        Instruction::InvokeStatic => pre.pc + 3 <= pre.runtime.code().len() && spec_can_invoke(
            pre,
            be_u16(pre.runtime.code(), pre.pc + 1),
        ),
        Instruction::InvokeSpecial => pre.pc + 3 <= pre.runtime.code().len() && spec_can_invoke(
            pre,
            be_u16(pre.runtime.code(), pre.pc + 1),
        ),
        _ => spec_can_data(pre, ins, pre.pc) || spec_can_alu(pre, ins, pre.pc) || spec_can_float(
            pre,
            ins,
            pre.pc,
        ) || spec_can_branch(pre, ins, pre.pc),
    }
}

/// What a failed step promises of its diagnostic: the faulting program
/// counter, and the exact error wherever the machine itself decides it —
/// out-of-range program counter, unknown or unsupported opcode, zero
/// divisor — with failure impossible on a state that `spec_step_can`
/// admits, except the embedder withholding a declared native result.
pub open spec fn spec_step_err(pre: Thread, f: Fatal) -> bool {
    &&& f.pc == pre.pc
    &&& f.kind != FatalKind::StepLimit
    &&& (pre.pc >= pre.runtime.code().len() ==> f == Fatal {
        pc: pre.pc,
        opcode: 0,
        kind: FatalKind::PcOutOfRange,
    })
    &&& (pre.pc < pre.runtime.code().len() ==> ({
        let op = pre.runtime.code()[pre.pc as int];
        &&& (spec_decode(op) is None ==> f == Fatal {
            pc: pre.pc,
            opcode: op,
            kind: FatalKind::UnsupportedOpcode,
        })
        &&& (spec_decode(op) matches Some(i) ==> {
            &&& (!spec_supported(i) ==> f == Fatal {
                pc: pre.pc,
                opcode: op,
                kind: FatalKind::UnsupportedOpcode,
            })
            &&& ((i == Instruction::IDiv || i == Instruction::IRem) && pre.stack@.len() >= 2
                && pre.stack@.last() == Value::Int(0) && pre.stack@.drop_last().last() is Int
                ==> f == Fatal { pc: pre.pc, opcode: op, kind: FatalKind::DivisionByZero })
            &&& ((i == Instruction::LDiv || i == Instruction::LRem) && pre.stack@.len() >= 2
                && pre.stack@.last() == Value::Long(0) && pre.stack@.drop_last().last() is Long
                ==> f == Fatal { pc: pre.pc, opcode: op, kind: FatalKind::DivisionByZero })
            &&& (spec_supported(i) && spec_step_can(pre, i) ==> is_invoke_instr(i) && f == Fatal {
                pc: pre.pc,
                opcode: op,
                kind: FatalKind::MissingReturnValue,
            })
        })
    }))
}

/// The effect of an `<op>return` whose return value (`arity == 1`) sits on
/// top of the stack: the frame is discarded, the operand stack is cut back
/// to the frame's base pointer, the value (if any) is pushed — so the
/// caller's depth ends exactly `arity` above the base pointer — and
/// execution resumes at the frame's return address. A return from the
/// bottommost frame ends the run with exit code 0, and a returning
/// class-initialization frame marks its class initialized.
pub open spec fn spec_effect_return(pre: Thread, post: Thread, out: StepOutcome, arity: int) -> bool {
    &&& pre.frames@.len() > 0
    &&& pre.stack@.len() >= arity
    &&& ({
        let f = pre.frames@.last();
        let rest = if arity == 1 {
            pre.stack@.drop_last()
        } else {
            pre.stack@
        };
        let trunc = spec_truncated(rest, f.base_pointer as int);
        &&& post.stack@ == (if arity == 1 {
            trunc.push(pre.stack@.last())
        } else {
            trunc
        })
        &&& post.warnings == pre.warnings
        &&& post.clinit_started == pre.clinit_started
        &&& post.native_calls == pre.native_calls
        &&& (pre.frames@.len() == 1 ==> {
            &&& out == StepOutcome::Finished(0)
            &&& post.frames == pre.frames
            &&& post.pc == pre.pc
            &&& post.runtime == pre.runtime
        })
        &&& (pre.frames@.len() > 1 ==> {
            &&& out == StepOutcome::Continue
            &&& post.frames@ == pre.frames@.drop_last()
            &&& post.pc == f.return_pc
            &&& (f.is_clinit() ==> {
                &&& post.runtime.initialized_view() == pre.runtime.initialized_view().insert(
                    f.class_name@,
                    true,
                )
                &&& post.runtime.class_files_view() == pre.runtime.class_files_view()
                &&& post.runtime.pool_view() == pre.runtime.pool_view()
                &&& post.runtime.code() == pre.runtime.code()
            })
            &&& (!f.is_clinit() ==> post.runtime == pre.runtime)
        })
    })
}

/// The class-initialization trampoline as a static access sees it: the
/// stack is untouched, one `CLINIT` frame for the referenced owner — whose
/// initializer was never entered before — is pushed with the triggering
/// instruction's address as its return address, and execution continues at
/// the owner's `<clinit>` code index.
pub open spec fn spec_static_trampoline(pre: Thread, post: Thread, index: u16, cn: Seq<char>) -> bool {
    &&& post.stack == pre.stack
    &&& post.native_calls == pre.native_calls
    &&& post.frames@.len() == pre.frames@.len() + 1
    &&& (forall|i: int| 0 <= i < pre.frames@.len() ==> post.frames@[i] == pre.frames@[i])
    &&& ({
        let f = post.frames@.last();
        &&& f.is_clinit()
        &&& f.return_pc == pre.pc
        &&& f.base_pointer == pre.stack@.len()
        &&& f.locals@ == Seq::<Value>::empty()
        &&& spec_ref_class_name(post.runtime.class_files_view()[cn], index) == Some(f.class_name@)
        &&& !pre.clinit_started@.contains(f.class_name@)
        &&& post.clinit_started@ == pre.clinit_started@.insert(f.class_name@)
        &&& !post.runtime.spec_initialized(f.class_name@)
        &&& post.runtime.pool_view().contains_key(f.class_name@)
        &&& match post.runtime.pool_view()[f.class_name@] {
            RuntimePool::Class(c) => c.methods@.contains_key("<clinit>"@) && (c.methods@[
                "<clinit>"@
            ] matches Method::Java(jm) && post.pc == jm.code_index),
        }
    })
}

/// A performed `getstatic`: the referenced owner's field cell value is
/// pushed, and the owner is initialized or initializing on this thread.
pub open spec fn spec_getstatic_performed(pre: Thread, post: Thread, index: u16, cn: Seq<char>) -> bool {
    &&& post.frames == pre.frames
    &&& post.clinit_started == pre.clinit_started
    &&& post.native_calls == pre.native_calls
    &&& post.pc == pre.pc + 3
    &&& (spec_member_ref(post.runtime.class_files_view()[cn], index) matches Some(p) && {
        &&& post.runtime.pool_view().contains_key(p.0)
        &&& match post.runtime.pool_view()[p.0] {
            RuntimePool::Class(c) => c.fields@.contains_key(p.1) && post.stack@
                == pre.stack@.push(c.fields@[p.1].value),
        }
        &&& (post.runtime.spec_initialized(p.0) || exists|i: int|
            0 <= i < post.frames@.len() && (#[trigger] post.frames@[i]).is_clinit()
                && post.frames@[i].class_name@ == p.0)
    })
}

/// A performed `putstatic`: the popped value — whose variant matches the
/// field's declared type — is what the referenced owner's field cell now
/// holds, and the owner is initialized or initializing on this thread.
pub open spec fn spec_putstatic_performed(pre: Thread, post: Thread, index: u16, cn: Seq<char>) -> bool {
    &&& post.frames == pre.frames
    &&& post.clinit_started == pre.clinit_started
    &&& post.native_calls == pre.native_calls
    &&& post.pc == pre.pc + 3
    &&& pre.stack@.len() > 0
    &&& post.stack@ == pre.stack@.drop_last()
    &&& (spec_member_ref(post.runtime.class_files_view()[cn], index) matches Some(p) && {
        &&& post.runtime.pool_view().contains_key(p.0)
        &&& match post.runtime.pool_view()[p.0] {
            RuntimePool::Class(c) => {
                &&& c.fields@.contains_key(p.1)
                &&& c.fields@[p.1].value == pre.stack@.last()
                &&& pre.stack@.last().spec_matches_type(c.fields@[p.1].ty)
            },
        }
        &&& (post.runtime.spec_initialized(p.0) || exists|i: int|
            0 <= i < pre.frames@.len() && (#[trigger] pre.frames@[i]).is_clinit()
                && pre.frames@[i].class_name@ == p.0)
    })
}

/// The effect of `getstatic`/`putstatic`: resolution may load and link
/// classes (the code region only grows, initialized classes only gain),
/// and then the access either trampolines into the owner's initializer or
/// is performed.
pub open spec fn spec_effect_static(pre: Thread, post: Thread, out: StepOutcome, is_put: bool) -> bool {
    &&& out == StepOutcome::Continue
    &&& pre.frames@.len() > 0
    &&& pre.pc + 3 <= pre.runtime.code().len()
    &&& post.warnings == pre.warnings
    &&& post.runtime.class_files_view() == pre.runtime.class_files_view()
    &&& pre.runtime.code().len() <= post.runtime.code().len()
    &&& post.runtime.code().subrange(0, pre.runtime.code().len() as int) == pre.runtime.code()
    &&& (forall|k: Seq<char>|
        pre.runtime.spec_initialized(k) ==> post.runtime.spec_initialized(k))
    &&& ({
        let index = be_u16(pre.runtime.code(), pre.pc + 1);
        let cn = pre.frames@.last().class_name@;
        &&& post.runtime.class_files_view().contains_key(cn)
        &&& (spec_static_trampoline(pre, post, index, cn) || (if is_put {
            spec_putstatic_performed(pre, post, index, cn)
        } else {
            spec_getstatic_performed(pre, post, index, cn)
        }))
    })
}

/// The effect of `invokestatic`/`invokespecial`: resolution may load and
/// link classes; a Java target gets a new frame whose locals are exactly
/// the popped parameter values and whose return address is the next
/// instruction, and execution continues at its code index; a native target
/// is handed exactly the popped parameter values (recorded in
/// `native_calls`) and, when its descriptor declares a result, one value of
/// the embedder's choosing is pushed.
pub open spec fn spec_effect_invoke(pre: Thread, post: Thread, out: StepOutcome) -> bool {
    &&& out == StepOutcome::Continue
    &&& pre.frames@.len() > 0
    &&& pre.pc + 3 <= pre.runtime.code().len()
    &&& post.warnings == pre.warnings
    &&& post.clinit_started == pre.clinit_started
    &&& post.runtime.class_files_view() == pre.runtime.class_files_view()
    &&& pre.runtime.code().len() <= post.runtime.code().len()
    &&& post.runtime.code().subrange(0, pre.runtime.code().len() as int) == pre.runtime.code()
    &&& (forall|k: Seq<char>|
        pre.runtime.spec_initialized(k) ==> post.runtime.spec_initialized(k))
    &&& ({
        let index = be_u16(pre.runtime.code(), pre.pc + 1);
        let cn = pre.frames@.last().class_name@;
        &&& post.runtime.class_files_view().contains_key(cn)
        &&& (spec_member_ref(post.runtime.class_files_view()[cn], index) matches Some(p) && {
            &&& post.runtime.pool_view().contains_key(p.0)
            &&& match post.runtime.pool_view()[p.0] {
                RuntimePool::Class(c) => c.methods@.contains_key(p.1) && match c.methods@[p.1] {
                    Method::Java(jm) => ({
                        let plen = jm.params@.len();
                        &&& pre.stack@.len() >= plen
                        &&& post.native_calls == pre.native_calls
                        &&& post.stack@ == pre.stack@.subrange(0, pre.stack@.len() - plen)
                        &&& post.frames@.len() == pre.frames@.len() + 1
                        &&& (forall|i: int|
                            0 <= i < pre.frames@.len() ==> post.frames@[i] == pre.frames@[i])
                        &&& ({
                            let f = post.frames@.last();
                            &&& f.base_pointer == pre.stack@.len() - plen
                            &&& f.return_pc == pre.pc + 3
                            &&& f.class_name@ == p.0
                            &&& !f.is_clinit()
                            &&& f.locals@ == pre.stack@.subrange(
                                pre.stack@.len() - plen,
                                pre.stack@.len() as int,
                            )
                        })
                        &&& post.pc == jm.code_index
                    }),
                    Method::Native(nm) => ({
                        let plen = nm.params@.len();
                        &&& pre.stack@.len() >= plen
                        &&& post.frames == pre.frames
                        &&& post.pc == pre.pc + 3
                        &&& post.native_calls@ == pre.native_calls@.push(
                            (
                                p.0,
                                p.1,
                                pre.stack@.subrange(
                                    pre.stack@.len() - plen,
                                    pre.stack@.len() as int,
                                ),
                            ),
                        )
                        &&& match nm.return_ty {
                            Some(_) => post.stack@ == pre.stack@.subrange(
                                0,
                                pre.stack@.len() - plen,
                            ).push(post.stack@.last()),
                            None => post.stack@ == pre.stack@.subrange(
                                0,
                                pre.stack@.len() - plen,
                            ),
                        }
                    }),
                },
            }
        })
    })
}

/// What one successful step of the machine did, as a function of the
/// opcode at the pre-state's program counter: the exact operand-stack,
/// local-variable, frame, warning and program-counter effect of every
/// instruction of the supported subset. Floating-point result bits and
/// native results are the embedder's and only their variant and the stack
/// shape are fixed.
pub open spec fn spec_step_ok(pre: Thread, post: Thread, out: StepOutcome) -> bool {
    &&& pre.pc < pre.runtime.code().len()
    &&& match spec_decode(pre.runtime.code()[pre.pc as int]) {
        Some(ins) => {
            &&& spec_supported(ins)
            &&& match ins {
                Instruction::Return => spec_effect_return(pre, post, out, 0),
                Instruction::IReturn => pre.stack@.len() >= 1 && pre.stack@.last() is Int
                    && spec_effect_return(pre, post, out, 1),
                Instruction::LReturn => pre.stack@.len() >= 1 && pre.stack@.last() is Long
                    && spec_effect_return(pre, post, out, 1),
                Instruction::FReturn => pre.stack@.len() >= 1 && pre.stack@.last() is Float
                    && spec_effect_return(pre, post, out, 1),
                Instruction::DReturn => pre.stack@.len() >= 1 && pre.stack@.last() is Double
                    && spec_effect_return(pre, post, out, 1),
                Instruction::AReturn => pre.stack@.len() >= 1 && (pre.stack@.last() is Reference
                    || pre.stack@.last() is Null) && spec_effect_return(pre, post, out, 1),
                Instruction::GetStatic => spec_effect_static(pre, post, out, false),
                Instruction::PutStatic => spec_effect_static(pre, post, out, true),
                Instruction::InvokeStatic => spec_effect_invoke(pre, post, out),
                Instruction::InvokeSpecial => spec_effect_invoke(pre, post, out),
                _ => out == StepOutcome::Continue && (spec_effect_data(pre, post, ins, pre.pc)
                    || spec_effect_alu(pre, post, ins, pre.pc) || spec_effect_float(
                    pre,
                    post,
                    ins,
                    pre.pc,
                ) || spec_effect_branch(pre, post, ins, pre.pc)),
            }
        },
        None => false,
    }
}

/// `trace` witnesses that `b` arose from `a` by successful machine steps:
/// every adjacent pair is one `Continue` step, and the final pair is the
/// bottom-frame `return` that finished the run with exit code 0.
pub open spec fn is_run_trace(trace: Seq<Thread>, a: Thread, b: Thread) -> bool {
    &&& trace.len() >= 2
    &&& trace.first() == a
    &&& trace.last() == b
    &&& (forall|i: int|
        0 <= i < trace.len() - 2 ==> spec_step_ok(
            #[trigger] trace[i],
            trace[i + 1],
            StepOutcome::Continue,
        ))
    &&& spec_step_ok(trace[trace.len() - 2], trace[trace.len() - 1], StepOutcome::Finished(0))
}

/// A freshly started thread for `main_class`: empty stack and records,
/// exactly one `new_main` frame, the class linked into the pool, and the
/// program counter at its Java `main`'s code index.
pub open spec fn spec_started_thread(t0: Thread, runtime0: Runtime, main_class: Seq<char>) -> bool {
    &&& t0.stack@ == Seq::<Value>::empty()
    &&& t0.warnings@ == Seq::<Warning>::empty()
    &&& t0.native_calls@ == Seq::<(Seq<char>, Seq<char>, Seq<Value>)>::empty()
    &&& t0.clinit_started@ == Set::<Seq<char>>::empty()
    &&& t0.frames@.len() == 1
    &&& ({
        let fm = t0.frames@[0];
        &&& fm.base_pointer == 0
        &&& fm.stack_pointer == 0
        &&& fm.return_pc == 0
        &&& !fm.is_clinit()
        &&& fm.locals@ == Seq::<Value>::empty()
        &&& fm.class_name@ == main_class
    })
    &&& t0.runtime.class_files_view() == runtime0.class_files_view()
    &&& t0.runtime.pool_view().contains_key(main_class)
    &&& match t0.runtime.pool_view()[main_class] {
        RuntimePool::Class(c) => c.methods@.contains_key("main"@) && (c.methods@["main"@] matches
            Method::Java(jm) && t0.pc == jm.code_index),
    }
}

/// `trace` is a chain of successful `Continue` steps starting at `a`.
pub open spec fn is_steps_trace(trace: Seq<Thread>, a: Thread) -> bool {
    &&& trace.len() >= 1
    &&& trace.first() == a
    &&& (forall|i: int|
        0 <= i < trace.len() - 1 ==> spec_step_ok(
            #[trigger] trace[i],
            trace[i + 1],
            StepOutcome::Continue,
        ))
}

/// What a whole run's result means: `Ok(0)` is witnessed by a step trace
/// ending in the bottom-frame return; an error is witnessed by a step
/// trace reaching a state from which the next step fails with exactly
/// that diagnostic — or, for the step-limit error alone, a trace that
/// exhausted the entire step bound.
pub open spec fn spec_run_outcome(pre: Thread, post: Thread, r: Result<usize, Fatal>) -> bool {
    match r {
        Ok(c) => c == 0 && (exists|trace: Seq<Thread>| is_run_trace(trace, pre, post)),
        Err(f) => exists|trace: Seq<Thread>|
            {
                &&& is_steps_trace(trace, pre)
                &&& (if f.kind == FatalKind::StepLimit {
                    trace.last() == post && trace.len() == 0x1_0000_0000_0000_0000
                } else {
                    spec_step_err(trace.last(), f)
                })
            },
    }
}

/// Every class in `started` is initialized in `rt` or has a `CLINIT` frame
/// among `frames`.
pub open spec fn clinit_tracked_in(started: Set<Seq<char>>, rt: Runtime, frames: Seq<Frame>) -> bool {
    forall|cn: Seq<char>| #[trigger] started.contains(cn) ==> rt.spec_initialized(cn) || exists|
        i: int,
    | 0 <= i < frames.len() && (#[trigger] frames[i]).is_clinit() && frames[i].class_name@ == cn
}

/// Initializer tracking carries over to any state with the same frames and
/// started-set whose initialized classes only grew.
proof fn lemma_tracked_bridge(a: Thread, b: Thread)
    requires
        a.clinit_tracked(),
        b.clinit_started@ == a.clinit_started@,
        b.frames@.len() == a.frames@.len(),
        forall|i: int|
            0 <= i < a.frames@.len() ==> ((#[trigger] b.frames@[i]).is_clinit()
                == a.frames@[i].is_clinit() && b.frames@[i].class_name@
                == a.frames@[i].class_name@),
        forall|cn: Seq<char>| #[trigger] a.runtime.spec_initialized(cn)
            ==> b.runtime.spec_initialized(cn),
    ensures
        b.clinit_tracked(),
{
    assert forall|cn: Seq<char>| #[trigger]
        b.clinit_started@.contains(cn) implies b.runtime.spec_initialized(cn) || exists|i: int|
        0 <= i < b.frames@.len() && (#[trigger] b.frames@[i]).is_clinit()
            && b.frames@[i].class_name@ == cn by {
        assert(a.clinit_started@.contains(cn));
        if !b.runtime.spec_initialized(cn) {
            assert(!a.runtime.spec_initialized(cn));
            let j = choose|j: int|
                0 <= j < a.frames@.len() && (#[trigger] a.frames@[j]).is_clinit()
                    && a.frames@[j].class_name@ == cn;
            assert(b.frames@[j].is_clinit() && b.frames@[j].class_name@ == cn);
        }
    }
}

/// A single interpreter thread: the linker it runs against, its program
/// counter, operand stack, call-frame stack, and recorded warnings.
pub struct Thread {
    pub runtime: Runtime,
    /// Absolute byte offset into the code region.
    pub pc: usize,
    pub stack: Vec<Value>,
    pub frames: Vec<Frame>,
    pub warnings: Vec<Warning>,
    /// Every class whose `<clinit>` frame was ever entered in this run.
    pub clinit_started: Ghost<Set<Seq<char>>>,
    /// Every native invocation this run handed to the embedder: owning
    /// class, method name, and the exact parameter values passed.
    pub native_calls: Ghost<Seq<(Seq<char>, Seq<char>, Seq<Value>)>>,
}

impl Thread {
    /// Classes whose initializer was entered are either done initializing
    /// or still have their `<clinit>` frame on the stack — so an
    /// initializer is never entered twice.
    pub open spec fn clinit_tracked(self) -> bool {
        clinit_tracked_in(self.clinit_started@, self.runtime, self.frames@)
    }

    pub open spec fn wf(self) -> bool {
        &&& self.runtime.wf()
        &&& self.clinit_tracked()
    }

    /// Everything except the operand stack and the warnings is unchanged.
    pub open spec fn same_but_stack(a: Thread, b: Thread) -> bool {
        &&& a.runtime == b.runtime
        &&& a.pc == b.pc
        &&& a.frames == b.frames
        &&& a.clinit_started == b.clinit_started
        &&& a.native_calls == b.native_calls
    }

    pub fn new(runtime: Runtime, pc: usize) -> (r: Thread)
        ensures
            r.runtime == runtime,
            r.pc == pc,
            r.stack@ == Seq::<Value>::empty(),
            r.frames@ == Seq::<Frame>::empty(),
            r.warnings@ == Seq::<Warning>::empty(),
            r.clinit_started@ == Set::<Seq<char>>::empty(),
            r.native_calls@ == Seq::<(Seq<char>, Seq<char>, Seq<Value>)>::empty(),
            runtime.wf() ==> r.wf(),
    {
        Thread {
            runtime,
            pc,
            stack: Vec::new(),
            frames: Vec::new(),
            warnings: Vec::new(),
            clinit_started: Ghost(Set::empty()),
            native_calls: Ghost(Seq::empty()),
        }
    }

    /// The thread with `frame` as its only frame.
    pub fn with_frame(self, frame: Frame) -> (r: Thread)
        ensures
            r.runtime == self.runtime,
            r.pc == self.pc,
            r.stack == self.stack,
            r.warnings == self.warnings,
            r.clinit_started == self.clinit_started,
            r.native_calls == self.native_calls,
            r.frames@ == self.frames@.push(frame),
    {
        let mut t = self;
        t.frames.push(frame);
        t
    }

    /// Pushes one value onto the operand stack.
    fn push(&mut self, v: Value)
        ensures
            old(self).wf() ==> final(self).wf(),
            final(self).stack@ == old(self).stack@.push(v),
            final(self).warnings == old(self).warnings,
            Self::same_but_stack(*old(self), *final(self)),
    {
        self.stack.push(v);
        proof {
            if old(self).wf() {
                lemma_tracked_bridge(*old(self), *self);
            }
        }
    }

    /// Pops the top operand-stack value; underflow is fatal.
    fn pop_value(&mut self, pc: usize, op: u8) -> (r: Result<Value, Fatal>)
        ensures
            old(self).wf() ==> final(self).wf(),
            match r {
                Ok(v) => {
                    &&& old(self).stack@.len() > 0
                    &&& v == old(self).stack@.last()
                    &&& final(self).stack@ == old(self).stack@.drop_last()
                    &&& final(self).warnings == old(self).warnings
                    &&& Self::same_but_stack(*old(self), *final(self))
                },
                Err(f) => {
                    &&& final(self).stack@ == old(self).stack@
                    &&& final(self).warnings == old(self).warnings
                    &&& Self::same_but_stack(*old(self), *final(self))
                    &&& old(self).stack@.len() == 0
                    &&& f == (Fatal { pc, opcode: op, kind: FatalKind::StackUnderflow })
                },
            },
    {
        let r = self.stack.pop();
        proof {
            if old(self).wf() {
                lemma_tracked_bridge(*old(self), *self);
            }
        }
        match r {
            Some(v) => {
                proof {
                    assert(self.stack@ =~= old(self).stack@.drop_last());
                }
                Ok(v)
            },
            None => Err(Fatal { pc, opcode: op, kind: FatalKind::StackUnderflow }),
        }
    }

    /// Pops an `Int`; any other variant is a fatal type mismatch.
    fn pop_int(&mut self, pc: usize, op: u8) -> (r: Result<i32, Fatal>)
        ensures
            old(self).wf() ==> final(self).wf(),
            match r {
                Ok(v) => {
                    &&& old(self).stack@.len() > 0
                    &&& old(self).stack@.last() == Value::Int(v)
                    &&& final(self).stack@ == old(self).stack@.drop_last()
                    &&& final(self).warnings == old(self).warnings
                    &&& Self::same_but_stack(*old(self), *final(self))
                },
                Err(f) => {
                    &&& final(self).stack@ == old(self).stack@
                    &&& final(self).warnings == old(self).warnings
                    &&& Self::same_but_stack(*old(self), *final(self))
                    &&& f.pc == pc && f.opcode == op
                    &&& (old(self).stack@.len() == 0 && f.kind == FatalKind::StackUnderflow) || (
                    old(self).stack@.len() > 0 && !(old(self).stack@.last() is Int) && f.kind
                        == FatalKind::TypeMismatch)
                },
            },
    {
        let v = self.pop_value(pc, op)?;
        match v {
            Value::Int(i) => Ok(i),
            _ => {
                self.push(v);
                proof {
                    assert(self.stack@ =~= old(self).stack@);
                }
                Err(Fatal { pc, opcode: op, kind: FatalKind::TypeMismatch })
            },
        }
    }

    /// Pops a `Long`; any other variant is a fatal type mismatch.
    fn pop_long(&mut self, pc: usize, op: u8) -> (r: Result<i64, Fatal>)
        ensures
            old(self).wf() ==> final(self).wf(),
            match r {
                Ok(v) => {
                    &&& old(self).stack@.len() > 0
                    &&& old(self).stack@.last() == Value::Long(v)
                    &&& final(self).stack@ == old(self).stack@.drop_last()
                    &&& final(self).warnings == old(self).warnings
                    &&& Self::same_but_stack(*old(self), *final(self))
                },
                Err(f) => {
                    &&& final(self).stack@ == old(self).stack@
                    &&& final(self).warnings == old(self).warnings
                    &&& Self::same_but_stack(*old(self), *final(self))
                    &&& f.pc == pc && f.opcode == op
                    &&& (old(self).stack@.len() == 0 && f.kind == FatalKind::StackUnderflow) || (
                    old(self).stack@.len() > 0 && !(old(self).stack@.last() is Long) && f.kind
                        == FatalKind::TypeMismatch)
                },
            },
    {
        let v = self.pop_value(pc, op)?;
        match v {
            Value::Long(i) => Ok(i),
            _ => {
                self.push(v);
                proof {
                    assert(self.stack@ =~= old(self).stack@);
                }
                Err(Fatal { pc, opcode: op, kind: FatalKind::TypeMismatch })
            },
        }
    }

    /// Pops a `Float`, yielding its bit pattern.
    fn pop_float(&mut self, pc: usize, op: u8) -> (r: Result<u32, Fatal>)
        ensures
            old(self).wf() ==> final(self).wf(),
            match r {
                Ok(v) => {
                    &&& old(self).stack@.len() > 0
                    &&& old(self).stack@.last() == Value::Float(v)
                    &&& final(self).stack@ == old(self).stack@.drop_last()
                    &&& final(self).warnings == old(self).warnings
                    &&& Self::same_but_stack(*old(self), *final(self))
                },
                Err(f) => {
                    &&& final(self).stack@ == old(self).stack@
                    &&& final(self).warnings == old(self).warnings
                    &&& Self::same_but_stack(*old(self), *final(self))
                    &&& f.pc == pc && f.opcode == op
                    &&& (old(self).stack@.len() == 0 && f.kind == FatalKind::StackUnderflow) || (
                    old(self).stack@.len() > 0 && !(old(self).stack@.last() is Float) && f.kind
                        == FatalKind::TypeMismatch)
                },
            },
    {
        let v = self.pop_value(pc, op)?;
        match v {
            Value::Float(i) => Ok(i),
            _ => {
                self.push(v);
                proof {
                    assert(self.stack@ =~= old(self).stack@);
                }
                Err(Fatal { pc, opcode: op, kind: FatalKind::TypeMismatch })
            },
        }
    }

    /// Pops a `Double`, yielding its bit pattern.
    fn pop_double(&mut self, pc: usize, op: u8) -> (r: Result<u64, Fatal>)
        ensures
            old(self).wf() ==> final(self).wf(),
            match r {
                Ok(v) => {
                    &&& old(self).stack@.len() > 0
                    &&& old(self).stack@.last() == Value::Double(v)
                    &&& final(self).stack@ == old(self).stack@.drop_last()
                    &&& final(self).warnings == old(self).warnings
                    &&& Self::same_but_stack(*old(self), *final(self))
                },
                Err(f) => {
                    &&& final(self).stack@ == old(self).stack@
                    &&& final(self).warnings == old(self).warnings
                    &&& Self::same_but_stack(*old(self), *final(self))
                    &&& f.pc == pc && f.opcode == op
                    &&& (old(self).stack@.len() == 0 && f.kind == FatalKind::StackUnderflow) || (
                    old(self).stack@.len() > 0 && !(old(self).stack@.last() is Double) && f.kind
                        == FatalKind::TypeMismatch)
                },
            },
    {
        let v = self.pop_value(pc, op)?;
        match v {
            Value::Double(i) => Ok(i),
            _ => {
                self.push(v);
                proof {
                    assert(self.stack@ =~= old(self).stack@);
                }
                Err(Fatal { pc, opcode: op, kind: FatalKind::TypeMismatch })
            },
        }
    }

    /// The value of local-variable slot `index` of the active frame.
    fn get_local(&self, index: usize, pc: usize, op: u8) -> (r: Result<Value, Fatal>)
        requires
            self.frames@.len() > 0,
        ensures
            match r {
                Ok(v) => index < self.frames@.last().locals@.len() && v
                    == self.frames@.last().locals@[index as int],
                Err(f) => {
                    &&& index >= self.frames@.last().locals@.len()
                    &&& f == (Fatal { pc, opcode: op, kind: FatalKind::BadLocalIndex })
                },
            },
    {
        let fidx = self.frames.len() - 1;
        let fr = &self.frames[fidx];
        if index < fr.locals.len() {
            Ok(fr.locals[index])
        } else {
            Err(Fatal { pc, opcode: op, kind: FatalKind::BadLocalIndex })
        }
    }

    /// Writes local-variable slot `index` of the active frame, growing the
    /// slot vector with `Null` if the index is beyond its current length.
    fn set_local(&mut self, index: usize, v: Value)
        requires
            old(self).frames@.len() > 0,
        ensures
            old(self).wf() ==> final(self).wf(),
            final(self).frames@.len() == old(self).frames@.len(),
            forall|i: int|
                0 <= i < old(self).frames@.len() - 1 ==> final(self).frames@[i] == old(self).frames@[i],
            ({
                let f0 = old(self).frames@.last();
                let f1 = final(self).frames@.last();
                &&& f1.locals@ == spec_locals_set(f0.locals@, index as int, v)
                &&& f1.base_pointer == f0.base_pointer
                &&& f1.stack_pointer == f0.stack_pointer
                &&& f1.return_pc == f0.return_pc
                &&& f1.class_name == f0.class_name
                &&& f1.flags == f0.flags
            }),
            final(self).stack == old(self).stack,
            final(self).warnings == old(self).warnings,
            final(self).runtime == old(self).runtime,
            final(self).pc == old(self).pc,
            final(self).clinit_started == old(self).clinit_started,
            final(self).native_calls == old(self).native_calls,
    {
        let ghost l0 = self.frames@.last().locals@;
        let fidx = self.frames.len() - 1;
        let mut tmp: Vec<Value> = Vec::new();
        {
            let fr = &mut self.frames[fidx];
            core::mem::swap(&mut fr.locals, &mut tmp);
        }
        proof {
            assert(tmp@ =~= l0 + Seq::new((tmp@.len() - l0.len()) as nat, |_k: int| Value::Null));
        }
        while tmp.len() <= index
            invariant
                tmp@.len() >= l0.len(),
                tmp@.len() <= index + 1 || tmp@.len() == l0.len(),
                tmp@ == l0 + Seq::new((tmp@.len() - l0.len()) as nat, |_k: int| Value::Null),
            decreases index + 1 - tmp@.len(),
        {
            tmp.push(Value::Null);
            proof {
                assert(tmp@ =~= l0 + Seq::new((tmp@.len() - l0.len()) as nat, |_k: int| Value::Null));
            }
        }
        let e = &mut tmp[index];
        *e = v;
        proof {
            assert(tmp@ =~= spec_locals_set(l0, index as int, v));
        }
        {
            let fr = &mut self.frames[fidx];
            core::mem::swap(&mut fr.locals, &mut tmp);
        }
        proof {
            if old(self).wf() {
                lemma_tracked_bridge(*old(self), *self);
            }
        }
    }

    /// Executes one 32-bit two-operand instruction: pops the right then
    /// the left operand, both `Int`, pushes the result, and records the
    /// operation's warning if it has one. A zero divisor is fatal.
    #[verifier::rlimit(100)]
    #[verifier::spinoff_prover]
    fn exec_ibin(&mut self, k: BinOp, pc: usize, op: u8) -> (r: Result<(), Fatal>)
        ensures
            old(self).wf() ==> final(self).wf(),
            r is Ok <==> ({
                let s = old(self).stack@;
                &&& s.len() >= 2
                &&& s.last() is Int
                &&& s.drop_last().last() is Int
                &&& !(bin_is_div(k) && s.last() == Value::Int(0))
            }),
            r is Ok ==> ({
                let s = old(self).stack@;
                let b = s.last()->Int_0;
                let a = s.drop_last().last()->Int_0;
                &&& final(self).stack@ == s.drop_last().drop_last().push(
                    Value::Int(int_bin(k, a, b)),
                )
                &&& final(self).warnings@ == (match int_bin_warn(k, a, b) {
                    Some(w) => old(self).warnings@.push(Warning { pc, kind: w }),
                    None => old(self).warnings@,
                })
                &&& Self::same_but_stack(*old(self), *final(self))
            }),
            r matches Err(f) ==> {
                &&& Self::same_but_stack(*old(self), *final(self))
                &&& final(self).warnings == old(self).warnings
                &&& f.pc == pc && f.opcode == op
                &&& (f.kind == FatalKind::StackUnderflow || f.kind == FatalKind::TypeMismatch
                    || f.kind == FatalKind::DivisionByZero)
                &&& f.kind == FatalKind::DivisionByZero ==> bin_is_div(k)
                &&& ({
                    let s = old(self).stack@;
                    (s.len() >= 2 && s.last() is Int && s.drop_last().last() is Int) ==> (
                    bin_is_div(k) && s.last() == Value::Int(0) && f.kind
                        == FatalKind::DivisionByZero)
                })
            },
    {
        let b = self.pop_int(pc, op)?;
        let a = match self.pop_int(pc, op) {
            Ok(a) => a,
            Err(f) => {
                self.push(Value::Int(b));
                proof {
                    assert(self.stack@ =~= old(self).stack@);
                }
                return Err(f);
            },
        };
        let result: i32 = match k {
            BinOp::Add => {
                if a.checked_add(b).is_none() {
                    self.warn(pc, WarningKind::ArithmeticWrap);
                }
                a.wrapping_add(b)
            },
            BinOp::Sub => {
                if a.checked_sub(b).is_none() {
                    self.warn(pc, WarningKind::ArithmeticWrap);
                }
                a.wrapping_sub(b)
            },
            BinOp::Mul => {
                if a.checked_mul(b).is_none() {
                    self.warn(pc, WarningKind::ArithmeticWrap);
                }
                a.wrapping_mul(b)
            },
            BinOp::Div => {
                if b == 0 {
                    return Err(Fatal { pc, opcode: op, kind: FatalKind::DivisionByZero });
                }
                match a.checked_div(b) {
                    Some(q) => {
                        proof {
                            if a == i32::MIN && b == -1 {
                                vstd::arithmetic::div_mod::lemma_fundamental_div_mod(
                                    0x8000_0000,
                                    1,
                                );
                                vstd::arithmetic::div_mod::lemma_mod_division_less_than_divisor(
                                    0x8000_0000,
                                    1,
                                );
                            }
                        }
                        q
                    },
                    None => {
                        proof {
                            if !(a == i32::MIN && b == -1) {
                                lemma_trunc_div_in_range(a as int, b as int, 0x8000_0000);
                            }
                        }
                        self.warn(pc, WarningKind::ArithmeticWrap);
                        i32::MIN
                    },
                }
            },
            BinOp::Rem => {
                if b == 0 {
                    return Err(Fatal { pc, opcode: op, kind: FatalKind::DivisionByZero });
                }
                match a.checked_rem(b) {
                    Some(q) => q,
                    None => {
                        self.warn(pc, WarningKind::ArithmeticWrap);
                        0
                    },
                }
            },
            BinOp::And => a & b,
            BinOp::Or => a | b,
            BinOp::Xor => a ^ b,
            BinOp::Shl => {
                if (b & !0x1f) != 0 {
                    self.warn(pc, WarningKind::OversizedShift);
                }
                let sh = b & 0x1f;
                proof {
                    assert(0 <= b & 0x1f < 32) by (bit_vector);
                }
                a << sh
            },
            BinOp::Shr => {
                if (b & !0x1f) != 0 {
                    self.warn(pc, WarningKind::OversizedShift);
                }
                let sh = b & 0x1f;
                proof {
                    assert(0 <= b & 0x1f < 32) by (bit_vector);
                }
                a >> sh
            },
            BinOp::Ushr => {
                if (b & !0x1f) != 0 {
                    self.warn(pc, WarningKind::OversizedShift);
                }
                proof {
                    assert(0 <= b & 0x1f < 32) by (bit_vector);
                }
                let au: u32 = #[verifier::truncate] (a as u32);
                let sh: u32 = (b & 0x1f) as u32;
                let shifted: u32 = au >> sh;
                let u: i32 = #[verifier::truncate] (shifted as i32);
                proof {
                    assert(u == spec_iushr(a, b)) by (bit_vector)
                        requires
                            au == a as u32,
                            sh == (b & 0x1f) as u32,
                            shifted == au >> sh,
                            u == shifted as i32,
                    ;
                }
                u
            },
        };
        self.push(Value::Int(result));
        Ok(())
    }

    /// Executes one 64-bit two-operand instruction; the long counterpart
    /// of `exec_ibin`.
    #[verifier::rlimit(100)]
    #[verifier::spinoff_prover]
    fn exec_lbin(&mut self, k: BinOp, pc: usize, op: u8) -> (r: Result<(), Fatal>)
        ensures
            old(self).wf() ==> final(self).wf(),
            r is Ok <==> ({
                let s = old(self).stack@;
                &&& s.len() >= 2
                &&& s.last() is Long
                &&& s.drop_last().last() is Long
                &&& !(bin_is_div(k) && s.last() == Value::Long(0))
            }),
            r is Ok ==> ({
                let s = old(self).stack@;
                let b = s.last()->Long_0;
                let a = s.drop_last().last()->Long_0;
                &&& final(self).stack@ == s.drop_last().drop_last().push(
                    Value::Long(long_bin(k, a, b)),
                )
                &&& final(self).warnings@ == (match long_bin_warn(k, a, b) {
                    Some(w) => old(self).warnings@.push(Warning { pc, kind: w }),
                    None => old(self).warnings@,
                })
                &&& Self::same_but_stack(*old(self), *final(self))
            }),
            r matches Err(f) ==> {
                &&& Self::same_but_stack(*old(self), *final(self))
                &&& final(self).warnings == old(self).warnings
                &&& f.pc == pc && f.opcode == op
                &&& (f.kind == FatalKind::StackUnderflow || f.kind == FatalKind::TypeMismatch
                    || f.kind == FatalKind::DivisionByZero)
                &&& f.kind == FatalKind::DivisionByZero ==> bin_is_div(k)
                &&& ({
                    let s = old(self).stack@;
                    (s.len() >= 2 && s.last() is Long && s.drop_last().last() is Long) ==> (
                    bin_is_div(k) && s.last() == Value::Long(0) && f.kind
                        == FatalKind::DivisionByZero)
                })
            },
    {
        let b = self.pop_long(pc, op)?;
        let a = match self.pop_long(pc, op) {
            Ok(a) => a,
            Err(f) => {
                self.push(Value::Long(b));
                proof {
                    assert(self.stack@ =~= old(self).stack@);
                }
                return Err(f);
            },
        };
        let result: i64 = match k {
            BinOp::Add => {
                if a.checked_add(b).is_none() {
                    self.warn(pc, WarningKind::ArithmeticWrap);
                }
                a.wrapping_add(b)
            },
            BinOp::Sub => {
                if a.checked_sub(b).is_none() {
                    self.warn(pc, WarningKind::ArithmeticWrap);
                }
                a.wrapping_sub(b)
            },
            BinOp::Mul => {
                if a.checked_mul(b).is_none() {
                    self.warn(pc, WarningKind::ArithmeticWrap);
                }
                a.wrapping_mul(b)
            },
            BinOp::Div => {
                if b == 0 {
                    return Err(Fatal { pc, opcode: op, kind: FatalKind::DivisionByZero });
                }
                match a.checked_div(b) {
                    Some(q) => {
                        proof {
                            if a == i64::MIN && b == -1 {
                                vstd::arithmetic::div_mod::lemma_fundamental_div_mod(
                                    0x8000_0000_0000_0000,
                                    1,
                                );
                                vstd::arithmetic::div_mod::lemma_mod_division_less_than_divisor(
                                    0x8000_0000_0000_0000,
                                    1,
                                );
                            }
                        }
                        q
                    },
                    None => {
                        proof {
                            if !(a == i64::MIN && b == -1) {
                                lemma_trunc_div_in_range(
                                    a as int,
                                    b as int,
                                    0x8000_0000_0000_0000,
                                );
                            }
                        }
                        self.warn(pc, WarningKind::ArithmeticWrap);
                        i64::MIN
                    },
                }
            },
            BinOp::Rem => {
                if b == 0 {
                    return Err(Fatal { pc, opcode: op, kind: FatalKind::DivisionByZero });
                }
                match a.checked_rem(b) {
                    Some(q) => q,
                    None => {
                        self.warn(pc, WarningKind::ArithmeticWrap);
                        0
                    },
                }
            },
            BinOp::And => a & b,
            BinOp::Or => a | b,
            BinOp::Xor => a ^ b,
            BinOp::Shl => {
                if (b & !0x3f) != 0 {
                    self.warn(pc, WarningKind::OversizedShift);
                }
                let sh = b & 0x3f;
                proof {
                    assert(0 <= b & 0x3f < 64) by (bit_vector);
                }
                a << sh
            },
            BinOp::Shr => {
                if (b & !0x3f) != 0 {
                    self.warn(pc, WarningKind::OversizedShift);
                }
                let sh = b & 0x3f;
                proof {
                    assert(0 <= b & 0x3f < 64) by (bit_vector);
                }
                a >> sh
            },
            BinOp::Ushr => {
                if (b & !0x3f) != 0 {
                    self.warn(pc, WarningKind::OversizedShift);
                }
                proof {
                    assert(0 <= b & 0x3f < 64) by (bit_vector);
                }
                let au: u64 = #[verifier::truncate] (a as u64);
                let sh: u64 = (b & 0x3f) as u64;
                let shifted: u64 = au >> sh;
                let u: i64 = #[verifier::truncate] (shifted as i64);
                proof {
                    assert(u == spec_lushr(a, b)) by (bit_vector)
                        requires
                            au == a as u64,
                            sh == (b & 0x3f) as u64,
                            shifted == au >> sh,
                            u == shifted as i64,
                    ;
                }
                u
            },
        };
        self.push(Value::Long(result));
        Ok(())
    }

    /// The branch target `base + offset`, fatal when it leaves the code
    /// region.
    fn branch_target(&self, base: usize, offset: i32, pc: usize, op: u8) -> (r: Result<
        usize,
        Fatal,
    >)
        ensures
            match r {
                Ok(t) => t == base + offset && t < self.runtime.code().len(),
                Err(f) => {
                    &&& f == (Fatal { pc, opcode: op, kind: FatalKind::PcOutOfRange })
                    &&& (base + offset < 0 || base + offset >= self.runtime.code().len())
                },
            },
    {
        let n = self.runtime.instructions().len();
        if offset >= 0 {
            let off = offset as usize;
            if off < n && base < n - off {
                Ok(base + off)
            } else {
                Err(Fatal { pc, opcode: op, kind: FatalKind::PcOutOfRange })
            }
        } else {
            let back = (-(offset as i64)) as usize;
            if back <= base {
                let t = base - back;
                if t < n {
                    Ok(t)
                } else {
                    Err(Fatal { pc, opcode: op, kind: FatalKind::PcOutOfRange })
                }
            } else {
                Err(Fatal { pc, opcode: op, kind: FatalKind::PcOutOfRange })
            }
        }
    }

    /// Executes an `<op>return`: pops the current frame, truncates the
    /// operand stack back to its base pointer, pushes the return value if
    /// the instruction carries one, and resumes at the frame's return
    /// address. A class-initialization frame marks its class initialized
    /// as it leaves. A return from the bottommost frame ends the run.
    fn do_return(&mut self, pc: usize, op: u8, ret: Option<Value>) -> (r: Result<
        StepOutcome,
        Fatal,
    >)
        requires
            old(self).frames@.len() > 0,
            old(self).wf(),
        ensures
            final(self).wf(),
            r is Ok,
            final(self).warnings == old(self).warnings,
            final(self).clinit_started == old(self).clinit_started,
            final(self).native_calls == old(self).native_calls,
            final(self).runtime.class_files_view() == old(self).runtime.class_files_view(),
            final(self).runtime.pool_view() == old(self).runtime.pool_view(),
            final(self).runtime.code() == old(self).runtime.code(),
            forall|cn: Seq<char>|
                old(self).runtime.spec_initialized(cn) ==> final(self).runtime.spec_initialized(
                    cn,
                ),
            ({
                let f = old(self).frames@.last();
                let arity: int = if ret is Some {
                    1
                } else {
                    0
                };
                let trunc = spec_truncated(old(self).stack@, f.base_pointer as int);
                &&& final(self).stack@ == (match ret {
                    Some(v) => trunc.push(v),
                    None => trunc,
                })
                &&& old(self).stack@.len() >= f.base_pointer ==> final(self).stack@.len()
                    == f.base_pointer + arity
                &&& (old(self).frames@.len() == 1 ==> r == Ok::<StepOutcome, Fatal>(
                    StepOutcome::Finished(0),
                ) && final(self).frames == old(self).frames && final(self).pc == old(self).pc)
                &&& (old(self).frames@.len() > 1 ==> r == Ok::<StepOutcome, Fatal>(
                    StepOutcome::Continue,
                ) && final(self).frames@ == old(self).frames@.drop_last() && final(self).pc
                    == f.return_pc)
                &&& (old(self).frames@.len() > 1 && f.is_clinit()
                    ==> final(self).runtime.initialized_view() == old(
                    self,
                ).runtime.initialized_view().insert(f.class_name@, true))
                &&& ((old(self).frames@.len() == 1 || !f.is_clinit()) ==> final(self).runtime
                    == old(self).runtime)
            }),
    {
        let fidx = self.frames.len() - 1;
        let base = self.frames[fidx].base_pointer;
        if self.stack.len() > base {
            self.stack.truncate(base);
        }
        proof {
            assert(self.stack@ =~= spec_truncated(old(self).stack@, base as int));
        }
        match ret {
            Some(v) => {
                self.push(v);
            },
            None => {},
        }
        if self.frames.len() == 1 {
            return Ok(StepOutcome::Finished(0));
        }
        let f = match self.frames.pop() {
            Some(f) => f,
            None => {
                proof {
                    assert(false);
                }
                return Err(Fatal { pc, opcode: op, kind: FatalKind::StackUnderflow });
            },
        };
        if f.flags & crate::frame::FRAME_CLINIT == crate::frame::FRAME_CLINIT {
            self.runtime.set_class_initialized(&f.class_name);
        }
        self.pc = f.return_pc;
        proof {
            assert(self.frames@ =~= old(self).frames@.drop_last());
            assert forall|cn: Seq<char>| #[trigger]
                self.clinit_started@.contains(cn) implies self.runtime.spec_initialized(cn)
                || exists|i: int|
                0 <= i < self.frames@.len() && (#[trigger] self.frames@[i]).is_clinit()
                    && self.frames@[i].class_name@ == cn by {
                if !self.runtime.spec_initialized(cn) {
                    let j = choose|j: int|
                        0 <= j < old(self).frames@.len() && (#[trigger] old(self).frames@[j]).is_clinit() && old(self).frames@[j].class_name@ == cn;
                    assert(j < old(self).frames@.len() - 1);
                    assert(self.frames@[j].is_clinit() && self.frames@[j].class_name@ == cn);
                }
            }
        }
        Ok(StepOutcome::Continue)
    }

    /// Whether a `<clinit>` frame for `owner` is on the frame stack: the
    /// class is initializing right now.
    fn clinit_in_progress(&self, owner: &String) -> (r: bool)
        ensures
            r == exists|i: int|
                0 <= i < self.frames@.len() && (#[trigger] self.frames@[i]).is_clinit()
                    && self.frames@[i].class_name@ == owner@,
    {
        let n = self.frames.len();
        let mut i: usize = 0;
        while i < n
            invariant
                i <= n,
                n == self.frames@.len(),
                forall|j: int|
                    0 <= j < i ==> !((#[trigger] self.frames@[j]).is_clinit()
                        && self.frames@[j].class_name@ == owner@),
            decreases n - i,
        {
            let fr = &self.frames[i];
            if fr.flags & crate::frame::FRAME_CLINIT == crate::frame::FRAME_CLINIT && fr.class_name.eq(
                owner,
            ) {
                return true;
            }
            i = i + 1;
        }
        false
    }

    /// The class-initialization trampoline. The class `owner` is resolved
    /// but not yet initialized: if it has a Java `<clinit>` that is not
    /// already running, push a `CLINIT` frame whose return address is the
    /// triggering instruction itself — so that instruction re-runs on
    /// return — and answer its code index. A class without bytecode to
    /// run is marked initialized on the spot. An initializer is never
    /// entered twice: entering it records the class in `clinit_started`,
    /// and a recorded class is always either initialized or still on the
    /// frame stack.
    fn initialize_class(&mut self, ip: usize, owner: &String) -> (r: Option<usize>)
        requires
            old(self).wf(),
            old(self).runtime.pool_view().contains_key(owner@),
            !old(self).runtime.spec_initialized(owner@),
        ensures
            final(self).wf(),
            final(self).stack == old(self).stack,
            final(self).warnings == old(self).warnings,
            final(self).pc == old(self).pc,
            final(self).native_calls == old(self).native_calls,
            final(self).runtime.class_files_view() == old(self).runtime.class_files_view(),
            final(self).runtime.pool_view() == old(self).runtime.pool_view(),
            final(self).runtime.code() == old(self).runtime.code(),
            forall|cn: Seq<char>|
                old(self).runtime.spec_initialized(cn) ==> final(self).runtime.spec_initialized(
                    cn,
                ),
            final(self).runtime.initialized_view() == old(self).runtime.initialized_view()
                || final(self).runtime.initialized_view() == old(
                self,
            ).runtime.initialized_view().insert(owner@, true),
            match r {
                None => {
                    &&& final(self).frames == old(self).frames
                    &&& final(self).clinit_started == old(self).clinit_started
                    &&& (final(self).runtime.spec_initialized(owner@) || exists|i: int|
                        0 <= i < final(self).frames@.len()
                            && (#[trigger] final(self).frames@[i]).is_clinit()
                            && final(self).frames@[i].class_name@ == owner@)
                },
                Some(t) => {
                    &&& !old(self).clinit_started@.contains(owner@)
                    &&& final(self).clinit_started@ == old(self).clinit_started@.insert(owner@)
                    &&& final(self).runtime == old(self).runtime
                    &&& final(self).frames@.len() == old(self).frames@.len() + 1
                    &&& forall|i: int|
                        0 <= i < old(self).frames@.len() ==> final(self).frames@[i]
                            == old(self).frames@[i]
                    &&& ({
                        let f = final(self).frames@.last();
                        &&& f.is_clinit()
                        &&& f.class_name@ == owner@
                        &&& f.base_pointer == old(self).stack@.len()
                        &&& f.return_pc == ip
                        &&& f.locals@ == Seq::<Value>::empty()
                    })
                    &&& match old(self).runtime.pool_view()[owner@] {
                        RuntimePool::Class(c) => c.methods@.contains_key("<clinit>"@)
                            && (c.methods@["<clinit>"@] matches Method::Java(jm) && t
                            == jm.code_index),
                    }
                },
            },
    {
        let clinit_name: String = String::from_str("<clinit>");
        let has_java_clinit: bool;
        let code_index: usize;
        match self.runtime.get_method_by_name(owner, &clinit_name) {
            Some(m) => match m {
                Method::Java(jm) => {
                    has_java_clinit = true;
                    code_index = jm.code_index;
                },
                Method::Native(_) => {
                    has_java_clinit = false;
                    code_index = 0;
                },
            },
            None => {
                has_java_clinit = false;
                code_index = 0;
            },
        }
        if !has_java_clinit {
            // Nothing to run: the class counts as initialized.
            self.runtime.set_class_initialized(owner);
            proof {
                assert forall|cn: Seq<char>| #[trigger]
                    self.clinit_started@.contains(cn) implies self.runtime.spec_initialized(cn)
                    || exists|i: int|
                    0 <= i < self.frames@.len() && (#[trigger] self.frames@[i]).is_clinit()
                        && self.frames@[i].class_name@ == cn by {
                    if !old(self).runtime.spec_initialized(cn) {
                        let j = choose|j: int|
                            0 <= j < old(self).frames@.len() && (#[trigger] old(self).frames@[j]).is_clinit() && old(self).frames@[j].class_name@ == cn;
                        assert(self.frames@[j].is_clinit() && self.frames@[j].class_name@ == cn);
                    }
                }
            }
            return None;
        }
        if self.clinit_in_progress(owner) {
            // Re-entry from within the initializer itself: the triggering
            // access proceeds against the half-initialized class.
            return None;
        }
        proof {
            if self.clinit_started@.contains(owner@) {
                assert(false);
            }
        }
        let frame = Frame::new_clinit(self.stack.len(), ip, owner.clone());
        self.frames.push(frame);
        proof {
            assert(self.frames@.last().is_clinit() && self.frames@.last().class_name@ == owner@);
            self.clinit_started@ = self.clinit_started@.insert(owner@);
            assert forall|cn: Seq<char>| #[trigger]
                self.clinit_started@.contains(cn) implies self.runtime.spec_initialized(cn)
                || exists|i: int|
                0 <= i < self.frames@.len() && (#[trigger] self.frames@[i]).is_clinit()
                    && self.frames@[i].class_name@ == cn by {
                if cn == owner@ {
                    assert(self.frames@[self.frames@.len() - 1].is_clinit() && self.frames@[
                        self.frames@.len() - 1
                    ].class_name@ == cn);
                } else {
                    assert(old(self).clinit_started@.contains(cn));
                    if !self.runtime.spec_initialized(cn) {
                        let j = choose|j: int|
                            0 <= j < old(self).frames@.len() && (#[trigger] old(self).frames@[j]).is_clinit() && old(self).frames@[j].class_name@ == cn;
                        assert(self.frames@[j].is_clinit() && self.frames@[j].class_name@ == cn);
                    }
                }
            }
        }
        Some(code_index)
    }

    /// Executes `getstatic`: resolves the field reference, runs the
    /// class-initialization trampoline if the owning class is not yet
    /// initialized, and otherwise pushes the field cell's value. The value
    /// is read only once the owner is initialized or its initializer is
    /// running on this thread.
    fn op_getstatic(&mut self, index: u16, pc: usize, op: u8) -> (r: Result<Option<usize>, Fatal>)
        requires
            old(self).wf(),
            old(self).frames@.len() > 0,
        ensures
            final(self).wf(),
            final(self).frames@.len() >= old(self).frames@.len(),
            forall|i: int|
                0 <= i < old(self).frames@.len() ==> final(self).frames@[i] == old(self).frames@[i],
            final(self).warnings == old(self).warnings,
            final(self).pc == old(self).pc,
            final(self).runtime.class_files_view() == old(self).runtime.class_files_view(),
            old(self).runtime.code().len() <= final(self).runtime.code().len(),
            final(self).native_calls == old(self).native_calls,
            final(self).runtime.code().subrange(0, old(self).runtime.code().len() as int) == old(self).runtime.code(),
            forall|cn: Seq<char>|
                old(self).runtime.spec_initialized(cn) ==> final(self).runtime.spec_initialized(
                    cn,
                ),
            old(self).clinit_started@.subset_of(final(self).clinit_started@),
            match r {
                Ok(None) => {
                    let cn = old(self).frames@.last().class_name@;
                    &&& final(self).frames == old(self).frames
                    &&& final(self).clinit_started == old(self).clinit_started
                    &&& final(self).runtime.class_files_view().contains_key(cn)
                    &&& (spec_member_ref(
                        final(self).runtime.class_files_view()[cn],
                        index,
                    ) matches Some(p) && {
                        &&& final(self).runtime.pool_view().contains_key(p.0)
                        &&& match final(self).runtime.pool_view()[p.0] {
                            RuntimePool::Class(c) => c.fields@.contains_key(p.1) && final(self).stack@ == old(self).stack@.push(c.fields@[p.1].value),
                        }
                        &&& (final(self).runtime.spec_initialized(p.0) || exists|i: int|
                            0 <= i < final(self).frames@.len() && (#[trigger] final(self).frames@[i]).is_clinit() && final(self).frames@[i].class_name@ == p.0)
                    })
                },
                Ok(Some(t)) => {
                    &&& final(self).stack == old(self).stack
                    &&& final(self).frames@.len() == old(self).frames@.len() + 1
                    &&& ({
                        let f = final(self).frames@.last();
                        &&& f.is_clinit()
                        &&& f.return_pc == pc
                        &&& f.base_pointer == old(self).stack@.len()
                        &&& f.locals@ == Seq::<Value>::empty()
                        &&& !old(self).clinit_started@.contains(f.class_name@)
                        &&& final(self).clinit_started@ == old(self).clinit_started@.insert(
                            f.class_name@,
                        )
                        &&& spec_ref_class_name(
                            final(self).runtime.class_files_view()[old(self).frames@.last().class_name@],
                            index,
                        ) == Some(f.class_name@)
                        &&& old(self).runtime.class_files_view().contains_key(
                            old(self).frames@.last().class_name@,
                        )
                        &&& !final(self).runtime.spec_initialized(f.class_name@)
                        &&& final(self).runtime.pool_view().contains_key(f.class_name@)
                        &&& match final(self).runtime.pool_view()[f.class_name@] {
                            RuntimePool::Class(c) => c.methods@.contains_key("<clinit>"@) && (
                            c.methods@["<clinit>"@] matches Method::Java(jm) && t
                                == jm.code_index),
                        }
                    })
                },
                Err(f) => {
                    &&& final(self).stack == old(self).stack
                    &&& final(self).frames == old(self).frames
                    &&& f.pc == pc && f.opcode == op
                    &&& f.kind != FatalKind::StepLimit
                    &&& !spec_can_static(*old(self), index, false)
                },
            },
    {
        let fidx = self.frames.len() - 1;
        let class = self.frames[fidx].class_name.clone();
        let owner = match self.runtime.get_or_load_class_item(&class, index) {
            Some(n) => n,
            None => {
                return Err(
                    Fatal {
                        pc,
                        opcode: op,
                        kind: FatalKind::Resolution(VmError::ClassNotFound(class)),
                    },
                );
            },
        };
        proof {
            lemma_tracked_bridge(*old(self), *self);
        }
        if !self.runtime.is_class_initialized(&owner) {
            match self.initialize_class(pc, &owner) {
                Some(t) => {
                    return Ok(Some(t));
                },
                None => {},
            }
        }
        let v = match self.runtime.get_field_by_index(&class, index) {
            Some(p) => p.2.value,
            None => {
                return Err(
                    Fatal {
                        pc,
                        opcode: op,
                        kind: FatalKind::Resolution(VmError::FieldNotFound(owner)),
                    },
                );
            },
        };
        self.push(v);
        Ok(None)
    }

    /// Executes `putstatic`: resolves the field reference, runs the
    /// trampoline if the owner is uninitialized, and otherwise pops the
    /// value and stores it into the field cell after checking its variant
    /// against the field's declared type.
    #[verifier::rlimit(80)]
    #[verifier::spinoff_prover]
    fn op_putstatic(&mut self, index: u16, pc: usize, op: u8) -> (r: Result<Option<usize>, Fatal>)
        requires
            old(self).wf(),
            old(self).frames@.len() > 0,
        ensures
            final(self).wf(),
            final(self).frames@.len() >= old(self).frames@.len(),
            forall|i: int|
                0 <= i < old(self).frames@.len() ==> final(self).frames@[i] == old(self).frames@[i],
            final(self).warnings == old(self).warnings,
            final(self).pc == old(self).pc,
            final(self).runtime.class_files_view() == old(self).runtime.class_files_view(),
            old(self).runtime.code().len() <= final(self).runtime.code().len(),
            final(self).native_calls == old(self).native_calls,
            final(self).runtime.code().subrange(0, old(self).runtime.code().len() as int) == old(self).runtime.code(),
            forall|cn: Seq<char>|
                old(self).runtime.spec_initialized(cn) ==> final(self).runtime.spec_initialized(
                    cn,
                ),
            old(self).clinit_started@.subset_of(final(self).clinit_started@),
            r == Ok::<Option<usize>, Fatal>(None) ==> final(self).frames == old(self).frames
                && final(self).clinit_started == old(self).clinit_started && old(
                self,
            ).stack@.len() > 0 && final(self).stack@ == old(self).stack@.drop_last(),
            r == Ok::<Option<usize>, Fatal>(None) ==> ({
                let cn = old(self).frames@.last().class_name@;
                &&& final(self).runtime.class_files_view().contains_key(cn)
                &&& (spec_member_ref(
                    final(self).runtime.class_files_view()[cn],
                    index,
                ) matches Some(p) && {
                    &&& final(self).runtime.pool_view().contains_key(p.0)
                    &&& match final(self).runtime.pool_view()[p.0] {
                        RuntimePool::Class(c) => {
                            &&& c.fields@.contains_key(p.1)
                            &&& c.fields@[p.1].value == old(self).stack@.last()
                            &&& old(self).stack@.last().spec_matches_type(c.fields@[p.1].ty)
                        },
                    }
                    &&& (final(self).runtime.spec_initialized(p.0) || exists|i: int|
                        0 <= i < old(self).frames@.len() && (#[trigger] old(self).frames@[i]).is_clinit() && old(self).frames@[i].class_name@ == p.0)
                })
            }),
            match r {
                Ok(None) => true,
                Ok(Some(t)) => {
                    &&& final(self).stack == old(self).stack
                    &&& final(self).frames@.len() == old(self).frames@.len() + 1
                    &&& ({
                        let f = final(self).frames@.last();
                        &&& f.is_clinit()
                        &&& f.return_pc == pc
                        &&& f.base_pointer == old(self).stack@.len()
                        &&& f.locals@ == Seq::<Value>::empty()
                        &&& !old(self).clinit_started@.contains(f.class_name@)
                        &&& final(self).clinit_started@ == old(self).clinit_started@.insert(
                            f.class_name@,
                        )
                        &&& spec_ref_class_name(
                            final(self).runtime.class_files_view()[old(self).frames@.last().class_name@],
                            index,
                        ) == Some(f.class_name@)
                        &&& old(self).runtime.class_files_view().contains_key(
                            old(self).frames@.last().class_name@,
                        )
                        &&& !final(self).runtime.spec_initialized(f.class_name@)
                        &&& final(self).runtime.pool_view().contains_key(f.class_name@)
                        &&& match final(self).runtime.pool_view()[f.class_name@] {
                            RuntimePool::Class(c) => c.methods@.contains_key("<clinit>"@) && (
                            c.methods@["<clinit>"@] matches Method::Java(jm) && t
                                == jm.code_index),
                        }
                    })
                },
                Err(f) => {
                    &&& final(self).frames == old(self).frames
                    &&& f.pc == pc && f.opcode == op
                    &&& f.kind != FatalKind::StepLimit
                    &&& !spec_can_static(*old(self), index, true)
                },
            },
    {
        let fidx = self.frames.len() - 1;
        let class = self.frames[fidx].class_name.clone();
        let owner = match self.runtime.get_or_load_class_item(&class, index) {
            Some(n) => n,
            None => {
                return Err(
                    Fatal {
                        pc,
                        opcode: op,
                        kind: FatalKind::Resolution(VmError::ClassNotFound(class)),
                    },
                );
            },
        };
        proof {
            lemma_tracked_bridge(*old(self), *self);
        }
        if !self.runtime.is_class_initialized(&owner) {
            match self.initialize_class(pc, &owner) {
                Some(t) => {
                    return Ok(Some(t));
                },
                None => {},
            }
        }
        let (owner2, fname) = match self.runtime.get_field_by_index(&class, index) {
            Some(p) => (p.0, p.1),
            None => {
                return Err(
                    Fatal {
                        pc,
                        opcode: op,
                        kind: FatalKind::Resolution(VmError::FieldNotFound(owner)),
                    },
                );
            },
        };
        let value = self.pop_value(pc, op)?;
        let outcome = self.runtime.set_static_value(&owner2, &fname, value);
        proof {
            assert forall|cn: Seq<char>| #[trigger]
                old(self).runtime.spec_initialized(cn) implies self.runtime.spec_initialized(
                cn,
            ) by {}
            lemma_tracked_bridge(*old(self), *self);
        }
        match outcome {
            SetStaticOutcome::Written => Ok(None),
            SetStaticOutcome::NoSuchField => Err(
                Fatal { pc, opcode: op, kind: FatalKind::Resolution(VmError::FieldNotFound(fname)) },
            ),
            SetStaticOutcome::TypeMismatch => Err(
                Fatal { pc, opcode: op, kind: FatalKind::FieldTypeMismatch },
            ),
        }
    }

    /// Executes `invokestatic` or `invokespecial`. A Java target gets a
    /// new frame whose locals are the popped parameter values and whose
    /// return address is `ret_pc`; a native target is dispatched through
    /// the embedder, and its result value — which must exist when the
    /// descriptor declares one — is pushed.
    fn op_invoke<H: VmHost>(
        &mut self,
        host: &mut H,
        index: u16,
        pc: usize,
        ret_pc: usize,
        op: u8,
    ) -> (r: Result<Option<usize>, Fatal>)
        requires
            old(self).wf(),
            old(self).frames@.len() > 0,
        ensures
            final(self).wf(),
            final(self).frames@.len() >= old(self).frames@.len(),
            forall|i: int|
                0 <= i < old(self).frames@.len() ==> final(self).frames@[i] == old(self).frames@[i],
            final(self).warnings == old(self).warnings,
            final(self).pc == old(self).pc,
            final(self).runtime.class_files_view() == old(self).runtime.class_files_view(),
            old(self).runtime.code().len() <= final(self).runtime.code().len(),
            
            final(self).runtime.code().subrange(0, old(self).runtime.code().len() as int) == old(self).runtime.code(),
            forall|cn: Seq<char>|
                old(self).runtime.spec_initialized(cn) ==> final(self).runtime.spec_initialized(
                    cn,
                ),
            final(self).clinit_started == old(self).clinit_started,
            match r {
                Ok(Some(t)) => {
                    let cn = old(self).frames@.last().class_name@;
                    &&& final(self).runtime.class_files_view().contains_key(cn)
                    &&& (spec_member_ref(
                        final(self).runtime.class_files_view()[cn],
                        index,
                    ) matches Some(p) && final(self).runtime.pool_view().contains_key(p.0) && (
                    match final(self).runtime.pool_view()[p.0] {
                        RuntimePool::Class(c) => c.methods@.contains_key(p.1) && (c.methods@[p.1]
                            matches Method::Java(jm) && {
                            let plen = jm.params@.len();
                            &&& final(self).native_calls == old(self).native_calls
                            &&& t == jm.code_index
                            &&& old(self).stack@.len() >= plen
                            &&& final(self).stack@ == old(self).stack@.subrange(
                                0,
                                old(self).stack@.len() - plen,
                            )
                            &&& final(self).frames@.len() == old(self).frames@.len() + 1
                            &&& ({
                                let f = final(self).frames@.last();
                                &&& f.base_pointer == old(self).stack@.len() - plen
                                &&& f.return_pc == ret_pc
                                &&& f.class_name@ == p.0
                                &&& !f.is_clinit()
                                &&& f.locals@ == old(self).stack@.subrange(
                                    old(self).stack@.len() - plen,
                                    old(self).stack@.len() as int,
                                )
                            })
                        }),
                    }))
                },
                Ok(None) => {
                    let cn = old(self).frames@.last().class_name@;
                    &&& final(self).frames == old(self).frames
                    &&& final(self).runtime.class_files_view().contains_key(cn)
                    &&& (spec_member_ref(
                        final(self).runtime.class_files_view()[cn],
                        index,
                    ) matches Some(p) && final(self).runtime.pool_view().contains_key(p.0) && (
                    match final(self).runtime.pool_view()[p.0] {
                        RuntimePool::Class(c) => c.methods@.contains_key(p.1) && (c.methods@[p.1]
                            matches Method::Native(nm) && {
                            let plen = nm.params@.len();
                            &&& old(self).stack@.len() >= plen
                            &&& final(self).native_calls@ == old(self).native_calls@.push(
                                (
                                    p.0,
                                    p.1,
                                    old(self).stack@.subrange(
                                        old(self).stack@.len() - plen,
                                        old(self).stack@.len() as int,
                                    ),
                                ),
                            )
                            &&& match nm.return_ty {
                                Some(_) => final(self).stack@ == old(self).stack@.subrange(
                                    0,
                                    old(self).stack@.len() - plen,
                                ).push(final(self).stack@.last()),
                                None => final(self).stack@ == old(self).stack@.subrange(
                                    0,
                                    old(self).stack@.len() - plen,
                                ),
                            }
                        }),
                    }))
                },
                Err(f) => {
                    &&& final(self).frames == old(self).frames
                    &&& f.pc == pc && f.opcode == op
                    &&& f.kind != FatalKind::StepLimit
                    &&& (spec_can_invoke(*old(self), index) ==> f == (Fatal {
                        pc,
                        opcode: op,
                        kind: FatalKind::MissingReturnValue,
                    }))
                },
            },
    {
        let fidx = self.frames.len() - 1;
        let class = self.frames[fidx].class_name.clone();
        match self.runtime.get_or_load_class_item(&class, index) {
            Some(_n) => {},
            None => {
                return Err(
                    Fatal {
                        pc,
                        opcode: op,
                        kind: FatalKind::Resolution(VmError::ClassNotFound(class)),
                    },
                );
            },
        }
        let is_java: bool;
        let plen: usize;
        let has_ret: bool;
        let code_index: usize;
        let owner2: String;
        let mname: String;
        match self.runtime.get_method_by_index(&class, index) {
            Some((o, n, m)) => {
                owner2 = o;
                mname = n;
                match m {
                    Method::Java(jm) => {
                        is_java = true;
                        plen = jm.params.len();
                        has_ret = false;
                        code_index = jm.code_index;
                    },
                    Method::Native(nm) => {
                        is_java = false;
                        plen = nm.params.len();
                        has_ret = nm.return_ty.is_some();
                        code_index = 0;
                    },
                }
            },
            None => {
                return Err(
                    Fatal {
                        pc,
                        opcode: op,
                        kind: FatalKind::Resolution(VmError::MethodNotFound(class)),
                    },
                );
            },
        }
        if self.stack.len() < plen {
            return Err(Fatal { pc, opcode: op, kind: FatalKind::StackUnderflow });
        }
        let base = self.stack.len() - plen;
        let args = self.stack.split_off(base);
        if is_java {
            let mut fr = Frame::new(base, ret_pc, owner2);
            fr.locals = args;
            self.frames.push(fr);
            proof {
                assert forall|cn: Seq<char>| #[trigger]
                    self.clinit_started@.contains(cn) implies self.runtime.spec_initialized(cn)
                    || exists|i: int|
                    0 <= i < self.frames@.len() && (#[trigger] self.frames@[i]).is_clinit()
                        && self.frames@[i].class_name@ == cn by {
                    if !self.runtime.spec_initialized(cn) {
                        let j = choose|j: int|
                            0 <= j < old(self).frames@.len() && (#[trigger] old(self).frames@[j]).is_clinit() && old(self).frames@[j].class_name@ == cn;
                        assert(self.frames@[j].is_clinit() && self.frames@[j].class_name@ == cn);
                    }
                }
            }
            Ok(Some(code_index))
        } else {
            proof {
                self.native_calls@ = self.native_calls@.push((owner2@, mname@, args@));
            }
            let result = host.invoke_native(&owner2, &mname, &args);
            proof {
                lemma_tracked_bridge(*old(self), *self);
            }
            if has_ret {
                match result {
                    Some(v) => {
                        self.push(v);
                        proof {
                            lemma_tracked_bridge(*old(self), *self);
                        }
                    },
                    None => {
                        return Err(
                            Fatal { pc, opcode: op, kind: FatalKind::MissingReturnValue },
                        );
                    },
                }
            }
            Ok(None)
        }
    }


    /// The code byte at `at`.
    fn code_u8(&self, at: usize, pc: usize, fop: u8) -> (r: Result<u8, Fatal>)
        ensures
            match r {
                Ok(v) => at < self.runtime.code().len() && v == self.runtime.code()[at as int],
                Err(f) => at >= self.runtime.code().len() && f == (Fatal {
                    pc,
                    opcode: fop,
                    kind: FatalKind::PcOutOfRange,
                }),
            },
    {
        let code = self.runtime.instructions();
        if at < code.len() {
            Ok(code[at])
        } else {
            Err(Fatal { pc, opcode: fop, kind: FatalKind::PcOutOfRange })
        }
    }

    /// The code byte at `at`, sign-extended.
    fn code_i8(&self, at: usize, pc: usize, fop: u8) -> (r: Result<i8, Fatal>)
        ensures
            match r {
                Ok(v) => at < self.runtime.code().len() && v == self.runtime.code()[
                    at as int
                ] as i8,
                Err(f) => at >= self.runtime.code().len() && f == (Fatal {
                    pc,
                    opcode: fop,
                    kind: FatalKind::PcOutOfRange,
                }),
            },
    {
        let b = self.code_u8(at, pc, fop)?;
        let v: i8 = #[verifier::truncate] (b as i8);
        Ok(v)
    }

    /// The big-endian 16-bit operand at `at`, signed.
    fn code_i16(&self, at: usize, pc: usize, fop: u8) -> (r: Result<i16, Fatal>)
        ensures
            match r {
                Ok(v) => at + 2 <= self.runtime.code().len() && v == be_u16(
                    self.runtime.code(),
                    at as int,
                ) as i16,
                Err(f) => at + 2 > self.runtime.code().len() && f == (Fatal {
                    pc,
                    opcode: fop,
                    kind: FatalKind::PcOutOfRange,
                }),
            },
    {
        let code = self.runtime.instructions();
        if at > code.len() || code.len() - at < 2 {
            return Err(Fatal { pc, opcode: fop, kind: FatalKind::PcOutOfRange });
        }
        let hi = code[at];
        let lo = code[at + 1];
        let v: i16 = #[verifier::truncate] ((((hi as u16) * 0x100) + (lo as u16)) as i16);
        Ok(v)
    }

    /// The big-endian 16-bit operand at `at`, unsigned.
    fn code_u16(&self, at: usize, pc: usize, fop: u8) -> (r: Result<u16, Fatal>)
        ensures
            match r {
                Ok(v) => at + 2 <= self.runtime.code().len() && v == be_u16(
                    self.runtime.code(),
                    at as int,
                ),
                Err(f) => at + 2 > self.runtime.code().len() && f == (Fatal {
                    pc,
                    opcode: fop,
                    kind: FatalKind::PcOutOfRange,
                }),
            },
    {
        let code = self.runtime.instructions();
        if at > code.len() || code.len() - at < 2 {
            return Err(Fatal { pc, opcode: fop, kind: FatalKind::PcOutOfRange });
        }
        let hi = code[at];
        let lo = code[at + 1];
        Ok(((hi as u16) * 0x100) + (lo as u16))
    }

    /// The big-endian 32-bit operand at `at`, signed.
    fn code_i32(&self, at: usize, pc: usize, fop: u8) -> (r: Result<i32, Fatal>)
        ensures
            match r {
                Ok(v) => at + 4 <= self.runtime.code().len() && v == be_u32(
                    self.runtime.code(),
                    at as int,
                ) as i32,
                Err(f) => at + 4 > self.runtime.code().len() && f == (Fatal {
                    pc,
                    opcode: fop,
                    kind: FatalKind::PcOutOfRange,
                }),
            },
    {
        let code = self.runtime.instructions();
        if at > code.len() || code.len() - at < 4 {
            return Err(Fatal { pc, opcode: fop, kind: FatalKind::PcOutOfRange });
        }
        let b0 = code[at];
        let b1 = code[at + 1];
        let b2 = code[at + 2];
        let b3 = code[at + 3];
        let v: i32 = #[verifier::truncate] (((b0 as u32) * 0x100_0000 + (b1 as u32) * 0x1_0000 + (
        b2 as u32) * 0x100 + (b3 as u32)) as i32);
        Ok(v)
    }

    /// Loads local slot `index`, requiring the slot-kind the instruction
    /// demands, and pushes the value.
    fn op_load(&mut self, index: usize, kind: SlotKind, pc: usize, op: u8) -> (r: Result<(), Fatal>)
        requires
            old(self).frames@.len() > 0,
        ensures
            old(self).wf() ==> final(self).wf(),
            final(self).warnings == old(self).warnings,
            Self::same_but_stack(*old(self), *final(self)),
            match r {
                Ok(_) => {
                    let l = old(self).frames@.last().locals@;
                    &&& index < l.len()
                    &&& slot_matches(kind, l[index as int])
                    &&& final(self).stack@ == old(self).stack@.push(l[index as int])
                },
                Err(f) => {
                    &&& final(self).stack == old(self).stack
                    &&& f.pc == pc && f.opcode == op
                    &&& f.kind != FatalKind::StepLimit
                    &&& !({
                        let l = old(self).frames@.last().locals@;
                        index < l.len() && slot_matches(kind, l[index as int])
                    })
                },
            },
    {
        let v = self.get_local(index, pc, op)?;
        if !value_has_kind(&v, kind) {
            return Err(Fatal { pc, opcode: op, kind: FatalKind::TypeMismatch });
        }
        self.push(v);
        Ok(())
    }

    /// Pops a value of the demanded slot-kind and stores it into local
    /// slot `index`, growing the slot vector if needed.
    fn op_store(&mut self, index: usize, kind: SlotKind, pc: usize, op: u8) -> (r: Result<
        (),
        Fatal,
    >)
        requires
            old(self).frames@.len() > 0,
        ensures
            old(self).wf() ==> final(self).wf(),
            final(self).warnings == old(self).warnings,
            final(self).runtime == old(self).runtime,
            final(self).pc == old(self).pc,
            final(self).clinit_started == old(self).clinit_started,
            final(self).native_calls == old(self).native_calls,
            final(self).frames@.len() == old(self).frames@.len(),
            forall|i: int|
                0 <= i < old(self).frames@.len() - 1 ==> final(self).frames@[i] == old(
                    self,
                ).frames@[i],
            match r {
                Ok(_) => {
                    &&& old(self).stack@.len() > 0
                    &&& slot_matches(kind, old(self).stack@.last())
                    &&& final(self).stack@ == old(self).stack@.drop_last()
                    &&& ({
                        let f0 = old(self).frames@.last();
                        let f1 = final(self).frames@.last();
                        &&& f1.locals@ == spec_locals_set(
                            f0.locals@,
                            index as int,
                            old(self).stack@.last(),
                        )
                        &&& f1.base_pointer == f0.base_pointer
                        &&& f1.stack_pointer == f0.stack_pointer
                        &&& f1.return_pc == f0.return_pc
                        &&& f1.class_name == f0.class_name
                        &&& f1.flags == f0.flags
                    })
                },
                Err(f) => {
                    &&& final(self).stack@ == old(self).stack@
                    &&& final(self).frames == old(self).frames
                    &&& f.pc == pc && f.opcode == op
                    &&& f.kind != FatalKind::StepLimit
                    &&& !(old(self).stack@.len() > 0 && slot_matches(kind, old(self).stack@.last()))
                },
            },
    {
        let v = self.pop_value(pc, op)?;
        if !value_has_kind(&v, kind) {
            self.push(v);
            proof {
                assert(self.stack@ =~= old(self).stack@);
            }
            return Err(Fatal { pc, opcode: op, kind: FatalKind::TypeMismatch });
        }
        self.set_local(index, v);
        Ok(())
    }


    /// One fetch/decode/execute step. Fetches the opcode at the program
    /// counter, performs its effect, and advances the program counter —
    /// to the branch or call target where the instruction names one, past
    /// the instruction and its operands otherwise. An executed
    /// `<op>return` leaves the caller's operand stack exactly the
    /// descriptor's return arity above the returning frame's base pointer.
    /// A class-initialization frame is only ever pushed for a class whose
    /// initializer was never entered before in this run.
    #[verifier::rlimit(100)]
    #[verifier::spinoff_prover]
    pub fn step<H: VmHost>(&mut self, host: &mut H) -> (r: Result<StepOutcome, Fatal>)
        requires
            old(self).wf(),
            old(self).frames@.len() > 0,
        ensures
            final(self).wf(),
            final(self).frames@.len() > 0,
            final(self).runtime.class_files_view() == old(self).runtime.class_files_view(),
            old(self).runtime.code().len() <= final(self).runtime.code().len(),
            final(self).runtime.code().subrange(0, old(self).runtime.code().len() as int) == old(self).runtime.code(),
            forall|cn: Seq<char>|
                old(self).runtime.spec_initialized(cn) ==> final(self).runtime.spec_initialized(cn),
            old(self).clinit_started@.subset_of(final(self).clinit_started@),
            r matches Err(f) ==> f.pc == old(self).pc,
            r matches Err(f) ==> spec_step_err(*old(self), f),
            old(self).pc < old(self).runtime.code().len() ==> (spec_decode(
                old(self).runtime.code()[old(self).pc as int],
            ) matches Some(i) ==> ((spec_supported(i) && spec_step_can(*old(self), i)) ==> (r
                is Ok || (is_invoke_instr(i) && r == Err::<StepOutcome, Fatal>(
                Fatal {
                    pc: old(self).pc,
                    opcode: old(self).runtime.code()[old(self).pc as int],
                    kind: FatalKind::MissingReturnValue,
                },
            ))))),
            r matches Ok(StepOutcome::Finished(c)) ==> c == 0,
            r matches Ok(out) ==> spec_step_ok(*old(self), *final(self), out),
            old(self).pc >= old(self).runtime.code().len() ==> r == Err::<StepOutcome, Fatal>(
                Fatal { pc: old(self).pc, opcode: 0, kind: FatalKind::PcOutOfRange },
            ),
            (old(self).pc < old(self).runtime.code().len() && spec_decode(
                old(self).runtime.code()[old(self).pc as int],
            ) is None) ==> r == Err::<StepOutcome, Fatal>(
                Fatal {
                    pc: old(self).pc,
                    opcode: old(self).runtime.code()[old(self).pc as int],
                    kind: FatalKind::UnsupportedOpcode,
                },
            ),
            (old(self).pc < old(self).runtime.code().len() && (spec_decode(
                old(self).runtime.code()[old(self).pc as int],
            ) matches Some(i) && !spec_supported(i))) ==> r == Err::<StepOutcome, Fatal>(
                Fatal {
                    pc: old(self).pc,
                    opcode: old(self).runtime.code()[old(self).pc as int],
                    kind: FatalKind::UnsupportedOpcode,
                },
            ),
            (old(self).pc < old(self).runtime.code().len() && (spec_decode(
                old(self).runtime.code()[old(self).pc as int],
            ) matches Some(i) && (i == Instruction::IDiv || i == Instruction::IRem)
                && old(self).stack@.len() >= 2 && old(self).stack@.last() == Value::Int(0) && old(
                self,
            ).stack@.drop_last().last() is Int)) ==> r == Err::<StepOutcome, Fatal>(
                Fatal {
                    pc: old(self).pc,
                    opcode: old(self).runtime.code()[old(self).pc as int],
                    kind: FatalKind::DivisionByZero,
                },
            ),
            (old(self).pc < old(self).runtime.code().len() && (spec_decode(
                old(self).runtime.code()[old(self).pc as int],
            ) matches Some(i) && (i == Instruction::LDiv || i == Instruction::LRem)
                && old(self).stack@.len() >= 2 && old(self).stack@.last() == Value::Long(0) && old(
                self,
            ).stack@.drop_last().last() is Long)) ==> r == Err::<StepOutcome, Fatal>(
                Fatal {
                    pc: old(self).pc,
                    opcode: old(self).runtime.code()[old(self).pc as int],
                    kind: FatalKind::DivisionByZero,
                },
            ),
            forall|i: int|
                (old(self).frames@.len() <= i < final(self).frames@.len()
                    && (#[trigger] final(self).frames@[i]).is_clinit()) ==> (!old(
                    self,
                ).clinit_started@.contains(final(self).frames@[i].class_name@)
                    && final(self).clinit_started@.contains(final(self).frames@[i].class_name@)),
            (r is Ok && old(self).pc < old(self).runtime.code().len()) ==> ({
                let f = old(self).frames@.last();
                spec_decode(old(self).runtime.code()[old(self).pc as int]) matches Some(ins)
                    ==> (return_arity(ins) matches Some(ar) ==> (old(self).stack@.len()
                    >= f.base_pointer + ar ==> final(self).stack@.len() == f.base_pointer + ar))
            }),
    {
        let pc = self.pc;
        let n = self.runtime.instructions().len();
        if pc >= n {
            return Err(Fatal { pc, opcode: 0, kind: FatalKind::PcOutOfRange });
        }
        let op = self.runtime.instructions()[pc];
        let instr = match Instruction::decode(op) {
            Some(i) => i,
            None => {
                return Err(Fatal { pc, opcode: op, kind: FatalKind::UnsupportedOpcode });
            },
        };
        match instr {
            Instruction::Return => {
                self.do_return(pc, op, None)
            },
            Instruction::IReturn => {
                let v = self.pop_int(pc, op)?;
                self.do_return(pc, op, Some(Value::Int(v)))
            },
            Instruction::LReturn => {
                let v = self.pop_long(pc, op)?;
                self.do_return(pc, op, Some(Value::Long(v)))
            },
            Instruction::FReturn => {
                let v = self.pop_float(pc, op)?;
                self.do_return(pc, op, Some(Value::Float(v)))
            },
            Instruction::DReturn => {
                let v = self.pop_double(pc, op)?;
                self.do_return(pc, op, Some(Value::Double(v)))
            },
            Instruction::AReturn => {
                let v = self.pop_value(pc, op)?;
                match v {
                    Value::Reference => {},
                    Value::Null => {},
                    _ => {
                        return Err(Fatal { pc, opcode: op, kind: FatalKind::TypeMismatch });
                    },
                }
                self.do_return(pc, op, Some(v))
            },
            Instruction::GetStatic => {
                let idx = self.code_u16(pc + 1, pc, op)?;
                match self.op_getstatic(idx, pc, op)? {
                    Some(t) => {
                        self.pc = t;
                    },
                    None => {
                        self.pc = pc + 3;
                    },
                }
                Ok(StepOutcome::Continue)
            },
            Instruction::PutStatic => {
                let idx = self.code_u16(pc + 1, pc, op)?;
                match self.op_putstatic(idx, pc, op)? {
                    Some(t) => {
                        self.pc = t;
                    },
                    None => {
                        self.pc = pc + 3;
                    },
                }
                Ok(StepOutcome::Continue)
            },
            Instruction::InvokeStatic => {
                let idx = self.code_u16(pc + 1, pc, op)?;
                match self.op_invoke(host, idx, pc, pc + 3, op)? {
                    Some(t) => {
                        self.pc = t;
                    },
                    None => {
                        self.pc = pc + 3;
                    },
                }
                Ok(StepOutcome::Continue)
            },
            Instruction::InvokeSpecial => {
                let idx = self.code_u16(pc + 1, pc, op)?;
                match self.op_invoke(host, idx, pc, pc + 3, op)? {
                    Some(t) => {
                        self.pc = t;
                    },
                    None => {
                        self.pc = pc + 3;
                    },
                }
                Ok(StepOutcome::Continue)
            },
            Instruction::IConstM1 | Instruction::IConst0 | Instruction::IConst1 | Instruction::IConst2 | Instruction::IConst3 | Instruction::IConst4 | Instruction::IConst5 | Instruction::LConst0 | Instruction::LConst1 | Instruction::FConst0 | Instruction::FConst1 | Instruction::FConst2 | Instruction::DConst0 | Instruction::DConst1 | Instruction::Nop | Instruction::BiPush | Instruction::SiPush => {
                self.step_data(instr, pc, op)?;
                Ok(StepOutcome::Continue)
            },
            Instruction::ILoad | Instruction::ILoad0 | Instruction::ILoad1 | Instruction::ILoad2 | Instruction::ILoad3 | Instruction::LLoad | Instruction::LLoad0 | Instruction::LLoad1 | Instruction::LLoad2 | Instruction::LLoad3 | Instruction::FLoad | Instruction::FLoad0 | Instruction::FLoad1 | Instruction::FLoad2 | Instruction::FLoad3 | Instruction::DLoad | Instruction::DLoad0 | Instruction::DLoad1 | Instruction::DLoad2 | Instruction::DLoad3 | Instruction::ALoad | Instruction::ALoad0 | Instruction::ALoad1 | Instruction::ALoad2 | Instruction::ALoad3 => {
                self.step_local(instr, pc, op)?;
                Ok(StepOutcome::Continue)
            },
            Instruction::IStore | Instruction::IStore0 | Instruction::IStore1 | Instruction::IStore2 | Instruction::IStore3 | Instruction::LStore | Instruction::LStore0 | Instruction::LStore1 | Instruction::LStore2 | Instruction::LStore3 | Instruction::FStore | Instruction::FStore0 | Instruction::FStore1 | Instruction::FStore2 | Instruction::FStore3 | Instruction::DStore | Instruction::DStore0 | Instruction::DStore1 | Instruction::DStore2 | Instruction::DStore3 | Instruction::AStore | Instruction::AStore0 | Instruction::AStore1 | Instruction::AStore2 | Instruction::AStore3 => {
                self.step_local_store(instr, pc, op)?;
                Ok(StepOutcome::Continue)
            },
            Instruction::Pop | Instruction::Pop2 | Instruction::Swap | Instruction::Dup | Instruction::DupX1 | Instruction::DupX2 | Instruction::Dup2 | Instruction::Dup2X1 | Instruction::Dup2X2 => {
                self.step_stack(instr, pc, op)?;
                Ok(StepOutcome::Continue)
            },
            Instruction::IAdd | Instruction::ISub | Instruction::IMul | Instruction::IDiv | Instruction::IRem | Instruction::IAnd | Instruction::IOr | Instruction::IXOr | Instruction::IShl | Instruction::IShr | Instruction::IUShr | Instruction::LAdd | Instruction::LSub | Instruction::LMul | Instruction::LDiv | Instruction::LRem | Instruction::LAnd | Instruction::LOr | Instruction::LXOr | Instruction::LShl | Instruction::LShr | Instruction::LUShr | Instruction::INeg | Instruction::LNeg | Instruction::IInc | Instruction::I2B | Instruction::I2C | Instruction::I2S | Instruction::I2L | Instruction::L2I | Instruction::LCmp => {
                self.step_alu(instr, pc, op)?;
                Ok(StepOutcome::Continue)
            },
            Instruction::I2F | Instruction::I2D | Instruction::L2F | Instruction::L2D | Instruction::F2I | Instruction::F2L | Instruction::F2D | Instruction::D2I | Instruction::D2L | Instruction::D2F | Instruction::FAdd | Instruction::FSub | Instruction::FMul | Instruction::FDiv | Instruction::FRem | Instruction::FNeg | Instruction::DAdd | Instruction::DSub | Instruction::DMul | Instruction::DDiv | Instruction::DRem | Instruction::DNeg | Instruction::FCmpl | Instruction::FCmpg | Instruction::DCmpl | Instruction::DCmpg => {
                self.step_float(host, instr, pc, op)?;
                Ok(StepOutcome::Continue)
            },
            Instruction::Goto | Instruction::GotoW | Instruction::ICmpEq | Instruction::ICmpNe | Instruction::ICmpLt | Instruction::ICmpGe | Instruction::ICmpGt | Instruction::ICmpLe | Instruction::IEq | Instruction::INe | Instruction::ILt | Instruction::IGe | Instruction::IGt | Instruction::ILe | Instruction::IfNull | Instruction::IfNotNull => {
                self.step_branch(instr, pc, op)?;
                Ok(StepOutcome::Continue)
            },
            _ => Err(Fatal { pc, opcode: op, kind: FatalKind::UnsupportedOpcode }),
        }
    }


    /// Executes one instruction of this family and advances the program
    /// counter; part of [`Thread::step`].
    #[verifier::rlimit(100)]
    #[verifier::spinoff_prover]
    fn step_data(&mut self, instr: Instruction, pc: usize, op: u8) -> (r:
        Result<(), Fatal>)
        requires
            old(self).wf(),
            old(self).frames@.len() > 0,
            pc == old(self).pc,
            pc < old(self).runtime.code().len(),
        ensures
            final(self).wf(),
            final(self).frames@.len() == old(self).frames@.len(),
            final(self).runtime == old(self).runtime,
            final(self).clinit_started == old(self).clinit_started,
            r matches Err(f) ==> f.pc == pc && f.kind != FatalKind::StepLimit && (is_const_instr(instr) ==> !spec_can_data(
                *old(self),
                instr,
                pc,
            )),
            r is Ok ==> spec_effect_data(*old(self), *final(self), instr, pc),
    {
        let code_len = self.runtime.instructions().len();
        proof {
            assert(code_len == self.runtime.code().len());
        }
        match instr {
            Instruction::IConstM1 => {
                self.push(Value::Int(-1));
                self.pc = pc + 1;
                proof {
                    lemma_tracked_bridge(*old(self), *self);
                }
                Ok(())
            },
            Instruction::IConst0 => {
                self.push(Value::Int(0));
                self.pc = pc + 1;
                proof {
                    lemma_tracked_bridge(*old(self), *self);
                }
                Ok(())
            },
            Instruction::IConst1 => {
                self.push(Value::Int(1));
                self.pc = pc + 1;
                proof {
                    lemma_tracked_bridge(*old(self), *self);
                }
                Ok(())
            },
            Instruction::IConst2 => {
                self.push(Value::Int(2));
                self.pc = pc + 1;
                proof {
                    lemma_tracked_bridge(*old(self), *self);
                }
                Ok(())
            },
            Instruction::IConst3 => {
                self.push(Value::Int(3));
                self.pc = pc + 1;
                proof {
                    lemma_tracked_bridge(*old(self), *self);
                }
                Ok(())
            },
            Instruction::IConst4 => {
                self.push(Value::Int(4));
                self.pc = pc + 1;
                proof {
                    lemma_tracked_bridge(*old(self), *self);
                }
                Ok(())
            },
            Instruction::IConst5 => {
                self.push(Value::Int(5));
                self.pc = pc + 1;
                proof {
                    lemma_tracked_bridge(*old(self), *self);
                }
                Ok(())
            },
            Instruction::LConst0 => {
                self.push(Value::Long(0));
                self.pc = pc + 1;
                proof {
                    lemma_tracked_bridge(*old(self), *self);
                }
                Ok(())
            },
            Instruction::LConst1 => {
                self.push(Value::Long(1));
                self.pc = pc + 1;
                proof {
                    lemma_tracked_bridge(*old(self), *self);
                }
                Ok(())
            },
            Instruction::FConst0 => {
                self.push(Value::Float(0));
                self.pc = pc + 1;
                proof {
                    lemma_tracked_bridge(*old(self), *self);
                }
                Ok(())
            },
            Instruction::FConst1 => {
                self.push(Value::Float(0x3F80_0000));
                self.pc = pc + 1;
                proof {
                    lemma_tracked_bridge(*old(self), *self);
                }
                Ok(())
            },
            Instruction::FConst2 => {
                self.push(Value::Float(0x4000_0000));
                self.pc = pc + 1;
                proof {
                    lemma_tracked_bridge(*old(self), *self);
                }
                Ok(())
            },
            Instruction::DConst0 => {
                self.push(Value::Double(0));
                self.pc = pc + 1;
                proof {
                    lemma_tracked_bridge(*old(self), *self);
                }
                Ok(())
            },
            Instruction::DConst1 => {
                self.push(Value::Double(0x3FF0_0000_0000_0000));
                self.pc = pc + 1;
                proof {
                    lemma_tracked_bridge(*old(self), *self);
                }
                Ok(())
            },
            Instruction::Nop => {
                self.pc = pc + 1;
                proof {
                    lemma_tracked_bridge(*old(self), *self);
                }
                Ok(())
            },
            Instruction::BiPush => {
                let b = self.code_i8(pc + 1, pc, op)?;
                self.push(Value::Int(b as i32));
                self.pc = pc + 2;
                proof {
                    lemma_tracked_bridge(*old(self), *self);
                }
                Ok(())
            },
            Instruction::SiPush => {
                let v = self.code_i16(pc + 1, pc, op)?;
                self.push(Value::Int(v as i32));
                self.pc = pc + 3;
                proof {
                    lemma_tracked_bridge(*old(self), *self);
                }
                Ok(())
            },
            _ => Err(Fatal { pc, opcode: op, kind: FatalKind::UnsupportedOpcode }),
        }
    }

    /// Executes one instruction of this family and advances the program
    /// counter; part of [`Thread::step`].
    #[verifier::rlimit(100)]
    #[verifier::spinoff_prover]
    fn step_local(&mut self, instr: Instruction, pc: usize, op: u8) -> (r:
        Result<(), Fatal>)
        requires
            old(self).wf(),
            old(self).frames@.len() > 0,
            pc == old(self).pc,
            pc < old(self).runtime.code().len(),
        ensures
            final(self).wf(),
            final(self).frames@.len() == old(self).frames@.len(),
            final(self).runtime == old(self).runtime,
            final(self).clinit_started == old(self).clinit_started,
            r matches Err(f) ==> f.pc == pc && f.kind != FatalKind::StepLimit && (is_load_instr(instr) ==> !spec_can_data(
                *old(self),
                instr,
                pc,
            )),
            r is Ok ==> spec_effect_data(*old(self), *final(self), instr, pc),
    {
        let code_len = self.runtime.instructions().len();
        proof {
            assert(code_len == self.runtime.code().len());
        }
        match instr {
            Instruction::ILoad => {
                let idx = self.code_u8(pc + 1, pc, op)?;
                self.op_load(idx as usize, SlotKind::KInt, pc, op)?;
                self.pc = pc + 2;
                proof {
                    lemma_tracked_bridge(*old(self), *self);
                }
                Ok(())
            },
            Instruction::ILoad0 => {
                self.op_load(0, SlotKind::KInt, pc, op)?;
                self.pc = pc + 1;
                proof {
                    lemma_tracked_bridge(*old(self), *self);
                }
                Ok(())
            },
            Instruction::ILoad1 => {
                self.op_load(1, SlotKind::KInt, pc, op)?;
                self.pc = pc + 1;
                proof {
                    lemma_tracked_bridge(*old(self), *self);
                }
                Ok(())
            },
            Instruction::ILoad2 => {
                self.op_load(2, SlotKind::KInt, pc, op)?;
                self.pc = pc + 1;
                proof {
                    lemma_tracked_bridge(*old(self), *self);
                }
                Ok(())
            },
            Instruction::ILoad3 => {
                self.op_load(3, SlotKind::KInt, pc, op)?;
                self.pc = pc + 1;
                proof {
                    lemma_tracked_bridge(*old(self), *self);
                }
                Ok(())
            },
            Instruction::LLoad => {
                let idx = self.code_u8(pc + 1, pc, op)?;
                self.op_load(idx as usize, SlotKind::KLong, pc, op)?;
                self.pc = pc + 2;
                proof {
                    lemma_tracked_bridge(*old(self), *self);
                }
                Ok(())
            },
            Instruction::LLoad0 => {
                self.op_load(0, SlotKind::KLong, pc, op)?;
                self.pc = pc + 1;
                proof {
                    lemma_tracked_bridge(*old(self), *self);
                }
                Ok(())
            },
            Instruction::LLoad1 => {
                self.op_load(1, SlotKind::KLong, pc, op)?;
                self.pc = pc + 1;
                proof {
                    lemma_tracked_bridge(*old(self), *self);
                }
                Ok(())
            },
            Instruction::LLoad2 => {
                self.op_load(2, SlotKind::KLong, pc, op)?;
                self.pc = pc + 1;
                proof {
                    lemma_tracked_bridge(*old(self), *self);
                }
                Ok(())
            },
            Instruction::LLoad3 => {
                self.op_load(3, SlotKind::KLong, pc, op)?;
                self.pc = pc + 1;
                proof {
                    lemma_tracked_bridge(*old(self), *self);
                }
                Ok(())
            },
            Instruction::FLoad => {
                let idx = self.code_u8(pc + 1, pc, op)?;
                self.op_load(idx as usize, SlotKind::KFloat, pc, op)?;
                self.pc = pc + 2;
                proof {
                    lemma_tracked_bridge(*old(self), *self);
                }
                Ok(())
            },
            Instruction::FLoad0 => {
                self.op_load(0, SlotKind::KFloat, pc, op)?;
                self.pc = pc + 1;
                proof {
                    lemma_tracked_bridge(*old(self), *self);
                }
                Ok(())
            },
            Instruction::FLoad1 => {
                self.op_load(1, SlotKind::KFloat, pc, op)?;
                self.pc = pc + 1;
                proof {
                    lemma_tracked_bridge(*old(self), *self);
                }
                Ok(())
            },
            Instruction::FLoad2 => {
                self.op_load(2, SlotKind::KFloat, pc, op)?;
                self.pc = pc + 1;
                proof {
                    lemma_tracked_bridge(*old(self), *self);
                }
                Ok(())
            },
            Instruction::FLoad3 => {
                self.op_load(3, SlotKind::KFloat, pc, op)?;
                self.pc = pc + 1;
                proof {
                    lemma_tracked_bridge(*old(self), *self);
                }
                Ok(())
            },
            Instruction::DLoad => {
                let idx = self.code_u8(pc + 1, pc, op)?;
                self.op_load(idx as usize, SlotKind::KDouble, pc, op)?;
                self.pc = pc + 2;
                proof {
                    lemma_tracked_bridge(*old(self), *self);
                }
                Ok(())
            },
            Instruction::DLoad0 => {
                self.op_load(0, SlotKind::KDouble, pc, op)?;
                self.pc = pc + 1;
                proof {
                    lemma_tracked_bridge(*old(self), *self);
                }
                Ok(())
            },
            Instruction::DLoad1 => {
                self.op_load(1, SlotKind::KDouble, pc, op)?;
                self.pc = pc + 1;
                proof {
                    lemma_tracked_bridge(*old(self), *self);
                }
                Ok(())
            },
            Instruction::DLoad2 => {
                self.op_load(2, SlotKind::KDouble, pc, op)?;
                self.pc = pc + 1;
                proof {
                    lemma_tracked_bridge(*old(self), *self);
                }
                Ok(())
            },
            Instruction::DLoad3 => {
                self.op_load(3, SlotKind::KDouble, pc, op)?;
                self.pc = pc + 1;
                proof {
                    lemma_tracked_bridge(*old(self), *self);
                }
                Ok(())
            },
            Instruction::ALoad => {
                let idx = self.code_u8(pc + 1, pc, op)?;
                self.op_load(idx as usize, SlotKind::KRef, pc, op)?;
                self.pc = pc + 2;
                proof {
                    lemma_tracked_bridge(*old(self), *self);
                }
                Ok(())
            },
            Instruction::ALoad0 => {
                self.op_load(0, SlotKind::KRef, pc, op)?;
                self.pc = pc + 1;
                proof {
                    lemma_tracked_bridge(*old(self), *self);
                }
                Ok(())
            },
            Instruction::ALoad1 => {
                self.op_load(1, SlotKind::KRef, pc, op)?;
                self.pc = pc + 1;
                proof {
                    lemma_tracked_bridge(*old(self), *self);
                }
                Ok(())
            },
            Instruction::ALoad2 => {
                self.op_load(2, SlotKind::KRef, pc, op)?;
                self.pc = pc + 1;
                proof {
                    lemma_tracked_bridge(*old(self), *self);
                }
                Ok(())
            },
            Instruction::ALoad3 => {
                self.op_load(3, SlotKind::KRef, pc, op)?;
                self.pc = pc + 1;
                proof {
                    lemma_tracked_bridge(*old(self), *self);
                }
                Ok(())
            },
            _ => Err(Fatal { pc, opcode: op, kind: FatalKind::UnsupportedOpcode }),
        }
    }

    /// Executes one instruction of this family and advances the program
    /// counter; part of [`Thread::step`].
    #[verifier::rlimit(100)]
    #[verifier::spinoff_prover]
    fn step_local_store(&mut self, instr: Instruction, pc: usize, op: u8) -> (r:
        Result<(), Fatal>)
        requires
            old(self).wf(),
            old(self).frames@.len() > 0,
            pc == old(self).pc,
            pc < old(self).runtime.code().len(),
        ensures
            final(self).wf(),
            final(self).frames@.len() == old(self).frames@.len(),
            final(self).runtime == old(self).runtime,
            final(self).clinit_started == old(self).clinit_started,
            r matches Err(f) ==> f.pc == pc && f.kind != FatalKind::StepLimit && (is_store_instr(instr) ==> !spec_can_data(
                *old(self),
                instr,
                pc,
            )),
            r is Ok ==> spec_effect_data(*old(self), *final(self), instr, pc),
    {
        let code_len = self.runtime.instructions().len();
        proof {
            assert(code_len == self.runtime.code().len());
        }
        match instr {
            Instruction::IStore => {
                let idx = self.code_u8(pc + 1, pc, op)?;
                self.op_store(idx as usize, SlotKind::KInt, pc, op)?;
                self.pc = pc + 2;
                proof {
                    lemma_tracked_bridge(*old(self), *self);
                }
                Ok(())
            },
            Instruction::IStore0 => {
                self.op_store(0, SlotKind::KInt, pc, op)?;
                self.pc = pc + 1;
                proof {
                    lemma_tracked_bridge(*old(self), *self);
                }
                Ok(())
            },
            Instruction::IStore1 => {
                self.op_store(1, SlotKind::KInt, pc, op)?;
                self.pc = pc + 1;
                proof {
                    lemma_tracked_bridge(*old(self), *self);
                }
                Ok(())
            },
            Instruction::IStore2 => {
                self.op_store(2, SlotKind::KInt, pc, op)?;
                self.pc = pc + 1;
                proof {
                    lemma_tracked_bridge(*old(self), *self);
                }
                Ok(())
            },
            Instruction::IStore3 => {
                self.op_store(3, SlotKind::KInt, pc, op)?;
                self.pc = pc + 1;
                proof {
                    lemma_tracked_bridge(*old(self), *self);
                }
                Ok(())
            },
            Instruction::LStore => {
                let idx = self.code_u8(pc + 1, pc, op)?;
                self.op_store(idx as usize, SlotKind::KLong, pc, op)?;
                self.pc = pc + 2;
                proof {
                    lemma_tracked_bridge(*old(self), *self);
                }
                Ok(())
            },
            Instruction::LStore0 => {
                self.op_store(0, SlotKind::KLong, pc, op)?;
                self.pc = pc + 1;
                proof {
                    lemma_tracked_bridge(*old(self), *self);
                }
                Ok(())
            },
            Instruction::LStore1 => {
                self.op_store(1, SlotKind::KLong, pc, op)?;
                self.pc = pc + 1;
                proof {
                    lemma_tracked_bridge(*old(self), *self);
                }
                Ok(())
            },
            Instruction::LStore2 => {
                self.op_store(2, SlotKind::KLong, pc, op)?;
                self.pc = pc + 1;
                proof {
                    lemma_tracked_bridge(*old(self), *self);
                }
                Ok(())
            },
            Instruction::LStore3 => {
                self.op_store(3, SlotKind::KLong, pc, op)?;
                self.pc = pc + 1;
                proof {
                    lemma_tracked_bridge(*old(self), *self);
                }
                Ok(())
            },
            Instruction::FStore => {
                let idx = self.code_u8(pc + 1, pc, op)?;
                self.op_store(idx as usize, SlotKind::KFloat, pc, op)?;
                self.pc = pc + 2;
                proof {
                    lemma_tracked_bridge(*old(self), *self);
                }
                Ok(())
            },
            Instruction::FStore0 => {
                self.op_store(0, SlotKind::KFloat, pc, op)?;
                self.pc = pc + 1;
                proof {
                    lemma_tracked_bridge(*old(self), *self);
                }
                Ok(())
            },
            Instruction::FStore1 => {
                self.op_store(1, SlotKind::KFloat, pc, op)?;
                self.pc = pc + 1;
                proof {
                    lemma_tracked_bridge(*old(self), *self);
                }
                Ok(())
            },
            Instruction::FStore2 => {
                self.op_store(2, SlotKind::KFloat, pc, op)?;
                self.pc = pc + 1;
                proof {
                    lemma_tracked_bridge(*old(self), *self);
                }
                Ok(())
            },
            Instruction::FStore3 => {
                self.op_store(3, SlotKind::KFloat, pc, op)?;
                self.pc = pc + 1;
                proof {
                    lemma_tracked_bridge(*old(self), *self);
                }
                Ok(())
            },
            Instruction::DStore => {
                let idx = self.code_u8(pc + 1, pc, op)?;
                self.op_store(idx as usize, SlotKind::KDouble, pc, op)?;
                self.pc = pc + 2;
                proof {
                    lemma_tracked_bridge(*old(self), *self);
                }
                Ok(())
            },
            Instruction::DStore0 => {
                self.op_store(0, SlotKind::KDouble, pc, op)?;
                self.pc = pc + 1;
                proof {
                    lemma_tracked_bridge(*old(self), *self);
                }
                Ok(())
            },
            Instruction::DStore1 => {
                self.op_store(1, SlotKind::KDouble, pc, op)?;
                self.pc = pc + 1;
                proof {
                    lemma_tracked_bridge(*old(self), *self);
                }
                Ok(())
            },
            Instruction::DStore2 => {
                self.op_store(2, SlotKind::KDouble, pc, op)?;
                self.pc = pc + 1;
                proof {
                    lemma_tracked_bridge(*old(self), *self);
                }
                Ok(())
            },
            Instruction::DStore3 => {
                self.op_store(3, SlotKind::KDouble, pc, op)?;
                self.pc = pc + 1;
                proof {
                    lemma_tracked_bridge(*old(self), *self);
                }
                Ok(())
            },
            Instruction::AStore => {
                let idx = self.code_u8(pc + 1, pc, op)?;
                self.op_store(idx as usize, SlotKind::KRef, pc, op)?;
                self.pc = pc + 2;
                proof {
                    lemma_tracked_bridge(*old(self), *self);
                }
                Ok(())
            },
            Instruction::AStore0 => {
                self.op_store(0, SlotKind::KRef, pc, op)?;
                self.pc = pc + 1;
                proof {
                    lemma_tracked_bridge(*old(self), *self);
                }
                Ok(())
            },
            Instruction::AStore1 => {
                self.op_store(1, SlotKind::KRef, pc, op)?;
                self.pc = pc + 1;
                proof {
                    lemma_tracked_bridge(*old(self), *self);
                }
                Ok(())
            },
            Instruction::AStore2 => {
                self.op_store(2, SlotKind::KRef, pc, op)?;
                self.pc = pc + 1;
                proof {
                    lemma_tracked_bridge(*old(self), *self);
                }
                Ok(())
            },
            Instruction::AStore3 => {
                self.op_store(3, SlotKind::KRef, pc, op)?;
                self.pc = pc + 1;
                proof {
                    lemma_tracked_bridge(*old(self), *self);
                }
                Ok(())
            },
            _ => Err(Fatal { pc, opcode: op, kind: FatalKind::UnsupportedOpcode }),
        }
    }

    /// Executes one instruction of this family and advances the program
    /// counter; part of [`Thread::step`].
    #[verifier::rlimit(100)]
    #[verifier::spinoff_prover]
    fn step_stack(&mut self, instr: Instruction, pc: usize, op: u8) -> (r:
        Result<(), Fatal>)
        requires
            old(self).wf(),
            old(self).frames@.len() > 0,
            pc == old(self).pc,
            pc < old(self).runtime.code().len(),
        ensures
            final(self).wf(),
            final(self).frames@.len() == old(self).frames@.len(),
            final(self).runtime == old(self).runtime,
            final(self).clinit_started == old(self).clinit_started,
            r matches Err(f) ==> f.pc == pc && f.kind != FatalKind::StepLimit && (is_stack_instr(instr) ==> !spec_can_data(
                *old(self),
                instr,
                pc,
            )),
            r is Ok ==> spec_effect_data(*old(self), *final(self), instr, pc),
    {
        let code_len = self.runtime.instructions().len();
        proof {
            assert(code_len == self.runtime.code().len());
        }
        match instr {
            Instruction::Pop => {
                let v = self.pop_value(pc, op)?;
                if !v.is_category1() {
                    return Err(Fatal { pc, opcode: op, kind: FatalKind::CategoryMismatch });
                }
                self.pc = pc + 1;
                proof {
                    lemma_tracked_bridge(*old(self), *self);
                }
                Ok(())
            },
            Instruction::Pop2 => {
                let v = self.pop_value(pc, op)?;
                if v.is_category1() {
                    let v2 = self.pop_value(pc, op)?;
                    if !v2.is_category1() {
                        return Err(Fatal { pc, opcode: op, kind: FatalKind::CategoryMismatch });
                    }
                }
                self.pc = pc + 1;
                proof {
                    lemma_tracked_bridge(*old(self), *self);
                }
                Ok(())
            },
            Instruction::Swap => {
                let v1 = self.pop_value(pc, op)?;
                let v2 = self.pop_value(pc, op)?;
                if !v1.is_category1() || !v2.is_category1() {
                    return Err(Fatal { pc, opcode: op, kind: FatalKind::CategoryMismatch });
                }
                self.push(v1);
                self.push(v2);
                self.pc = pc + 1;
                proof {
                    lemma_tracked_bridge(*old(self), *self);
                }
                Ok(())
            },
            Instruction::Dup => {
                let v = self.pop_value(pc, op)?;
                if !v.is_category1() {
                    return Err(Fatal { pc, opcode: op, kind: FatalKind::CategoryMismatch });
                }
                self.push(v);
                self.push(v);
                self.pc = pc + 1;
                proof {
                    lemma_tracked_bridge(*old(self), *self);
                }
                Ok(())
            },
            Instruction::DupX1 => {
                let v1 = self.pop_value(pc, op)?;
                let v2 = self.pop_value(pc, op)?;
                if !v1.is_category1() || !v2.is_category1() {
                    return Err(Fatal { pc, opcode: op, kind: FatalKind::CategoryMismatch });
                }
                self.push(v1);
                self.push(v2);
                self.push(v1);
                self.pc = pc + 1;
                proof {
                    lemma_tracked_bridge(*old(self), *self);
                }
                Ok(())
            },
            Instruction::DupX2 => {
                let v1 = self.pop_value(pc, op)?;
                if !v1.is_category1() {
                    return Err(Fatal { pc, opcode: op, kind: FatalKind::CategoryMismatch });
                }
                let v2 = self.pop_value(pc, op)?;
                if v2.is_category1() {
                    let v3 = self.pop_value(pc, op)?;
                    if !v3.is_category1() {
                        return Err(Fatal { pc, opcode: op, kind: FatalKind::CategoryMismatch });
                    }
                    self.push(v1);
                    self.push(v3);
                    self.push(v2);
                    self.push(v1);
                } else {
                    self.push(v1);
                    self.push(v2);
                    self.push(v1);
                }
                self.pc = pc + 1;
                proof {
                    lemma_tracked_bridge(*old(self), *self);
                }
                Ok(())
            },
            Instruction::Dup2 => {
                let v1 = self.pop_value(pc, op)?;
                if v1.is_category1() {
                    let v2 = self.pop_value(pc, op)?;
                    if !v2.is_category1() {
                        return Err(Fatal { pc, opcode: op, kind: FatalKind::CategoryMismatch });
                    }
                    self.push(v2);
                    self.push(v1);
                    self.push(v2);
                    self.push(v1);
                } else {
                    self.push(v1);
                    self.push(v1);
                }
                self.pc = pc + 1;
                proof {
                    lemma_tracked_bridge(*old(self), *self);
                }
                Ok(())
            },
            Instruction::Dup2X1 => {
                let v1 = self.pop_value(pc, op)?;
                if v1.is_category1() {
                    let v2 = self.pop_value(pc, op)?;
                    let v3 = self.pop_value(pc, op)?;
                    if !v2.is_category1() || !v3.is_category1() {
                        return Err(Fatal { pc, opcode: op, kind: FatalKind::CategoryMismatch });
                    }
                    self.push(v2);
                    self.push(v1);
                    self.push(v3);
                    self.push(v2);
                    self.push(v1);
                } else {
                    let v2 = self.pop_value(pc, op)?;
                    if !v2.is_category1() {
                        return Err(Fatal { pc, opcode: op, kind: FatalKind::CategoryMismatch });
                    }
                    self.push(v1);
                    self.push(v2);
                    self.push(v1);
                }
                self.pc = pc + 1;
                proof {
                    lemma_tracked_bridge(*old(self), *self);
                }
                Ok(())
            },
            Instruction::Dup2X2 => {
                let v1 = self.pop_value(pc, op)?;
                if v1.is_category1() {
                    let v2 = self.pop_value(pc, op)?;
                    if !v2.is_category1() {
                        return Err(Fatal { pc, opcode: op, kind: FatalKind::CategoryMismatch });
                    }
                    let v3 = self.pop_value(pc, op)?;
                    if v3.is_category1() {
                        let v4 = self.pop_value(pc, op)?;
                        if !v4.is_category1() {
                            return Err(Fatal { pc, opcode: op, kind: FatalKind::CategoryMismatch });
                        }
                        self.push(v2);
                        self.push(v1);
                        self.push(v4);
                        self.push(v3);
                        self.push(v2);
                        self.push(v1);
                    } else {
                        self.push(v2);
                        self.push(v1);
                        self.push(v3);
                        self.push(v2);
                        self.push(v1);
                    }
                } else {
                    let v2 = self.pop_value(pc, op)?;
                    if v2.is_category1() {
                        let v3 = self.pop_value(pc, op)?;
                        if !v3.is_category1() {
                            return Err(Fatal { pc, opcode: op, kind: FatalKind::CategoryMismatch });
                        }
                        self.push(v1);
                        self.push(v3);
                        self.push(v2);
                        self.push(v1);
                    } else {
                        self.push(v1);
                        self.push(v2);
                        self.push(v1);
                    }
                }
                self.pc = pc + 1;
                proof {
                    lemma_tracked_bridge(*old(self), *self);
                }
                Ok(())
            },
            _ => Err(Fatal { pc, opcode: op, kind: FatalKind::UnsupportedOpcode }),
        }
    }

    /// Executes one instruction of this family and advances the program
    /// counter; part of [`Thread::step`].
    #[verifier::rlimit(100)]
    #[verifier::spinoff_prover]
    fn step_alu(&mut self, instr: Instruction, pc: usize, op: u8) -> (r:
        Result<(), Fatal>)
        requires
            old(self).wf(),
            old(self).frames@.len() > 0,
            pc == old(self).pc,
            pc < old(self).runtime.code().len(),
        ensures
            final(self).wf(),
            final(self).frames@.len() == old(self).frames@.len(),
            final(self).runtime == old(self).runtime,
            final(self).clinit_started == old(self).clinit_started,
            r matches Err(f) ==> f.pc == pc && f.kind != FatalKind::StepLimit && !spec_can_alu(
                *old(self),
                instr,
                pc,
            ),
            r is Ok ==> spec_effect_alu(*old(self), *final(self), instr, pc),
            ((instr == Instruction::IDiv || instr == Instruction::IRem) && old(self).stack@.len()
                >= 2 && old(self).stack@.last() == Value::Int(0)
                && old(self).stack@.drop_last().last() is Int) ==> r == Err::<(), Fatal>(
                Fatal { pc, opcode: op, kind: FatalKind::DivisionByZero },
            ),
            ((instr == Instruction::LDiv || instr == Instruction::LRem) && old(self).stack@.len()
                >= 2 && old(self).stack@.last() == Value::Long(0)
                && old(self).stack@.drop_last().last() is Long) ==> r == Err::<(), Fatal>(
                Fatal { pc, opcode: op, kind: FatalKind::DivisionByZero },
            ),
    {
        let code_len = self.runtime.instructions().len();
        proof {
            assert(code_len == self.runtime.code().len());
        }
        match instr {
            Instruction::IAdd => {
                self.exec_ibin(BinOp::Add, pc, op)?;
                self.pc = pc + 1;
                proof {
                    lemma_tracked_bridge(*old(self), *self);
                }
                Ok(())
            },
            Instruction::ISub => {
                self.exec_ibin(BinOp::Sub, pc, op)?;
                self.pc = pc + 1;
                proof {
                    lemma_tracked_bridge(*old(self), *self);
                }
                Ok(())
            },
            Instruction::IMul => {
                self.exec_ibin(BinOp::Mul, pc, op)?;
                self.pc = pc + 1;
                proof {
                    lemma_tracked_bridge(*old(self), *self);
                }
                Ok(())
            },
            Instruction::IDiv => {
                self.exec_ibin(BinOp::Div, pc, op)?;
                self.pc = pc + 1;
                proof {
                    lemma_tracked_bridge(*old(self), *self);
                }
                Ok(())
            },
            Instruction::IRem => {
                self.exec_ibin(BinOp::Rem, pc, op)?;
                self.pc = pc + 1;
                proof {
                    lemma_tracked_bridge(*old(self), *self);
                }
                Ok(())
            },
            Instruction::IAnd => {
                self.exec_ibin(BinOp::And, pc, op)?;
                self.pc = pc + 1;
                proof {
                    lemma_tracked_bridge(*old(self), *self);
                }
                Ok(())
            },
            Instruction::IOr => {
                self.exec_ibin(BinOp::Or, pc, op)?;
                self.pc = pc + 1;
                proof {
                    lemma_tracked_bridge(*old(self), *self);
                }
                Ok(())
            },
            Instruction::IXOr => {
                self.exec_ibin(BinOp::Xor, pc, op)?;
                self.pc = pc + 1;
                proof {
                    lemma_tracked_bridge(*old(self), *self);
                }
                Ok(())
            },
            Instruction::IShl => {
                self.exec_ibin(BinOp::Shl, pc, op)?;
                self.pc = pc + 1;
                proof {
                    lemma_tracked_bridge(*old(self), *self);
                }
                Ok(())
            },
            Instruction::IShr => {
                self.exec_ibin(BinOp::Shr, pc, op)?;
                self.pc = pc + 1;
                proof {
                    lemma_tracked_bridge(*old(self), *self);
                }
                Ok(())
            },
            Instruction::IUShr => {
                self.exec_ibin(BinOp::Ushr, pc, op)?;
                self.pc = pc + 1;
                proof {
                    lemma_tracked_bridge(*old(self), *self);
                }
                Ok(())
            },
            Instruction::LAdd => {
                self.exec_lbin(BinOp::Add, pc, op)?;
                self.pc = pc + 1;
                proof {
                    lemma_tracked_bridge(*old(self), *self);
                }
                Ok(())
            },
            Instruction::LSub => {
                self.exec_lbin(BinOp::Sub, pc, op)?;
                self.pc = pc + 1;
                proof {
                    lemma_tracked_bridge(*old(self), *self);
                }
                Ok(())
            },
            Instruction::LMul => {
                self.exec_lbin(BinOp::Mul, pc, op)?;
                self.pc = pc + 1;
                proof {
                    lemma_tracked_bridge(*old(self), *self);
                }
                Ok(())
            },
            Instruction::LDiv => {
                self.exec_lbin(BinOp::Div, pc, op)?;
                self.pc = pc + 1;
                proof {
                    lemma_tracked_bridge(*old(self), *self);
                }
                Ok(())
            },
            Instruction::LRem => {
                self.exec_lbin(BinOp::Rem, pc, op)?;
                self.pc = pc + 1;
                proof {
                    lemma_tracked_bridge(*old(self), *self);
                }
                Ok(())
            },
            Instruction::LAnd => {
                self.exec_lbin(BinOp::And, pc, op)?;
                self.pc = pc + 1;
                proof {
                    lemma_tracked_bridge(*old(self), *self);
                }
                Ok(())
            },
            Instruction::LOr => {
                self.exec_lbin(BinOp::Or, pc, op)?;
                self.pc = pc + 1;
                proof {
                    lemma_tracked_bridge(*old(self), *self);
                }
                Ok(())
            },
            Instruction::LXOr => {
                self.exec_lbin(BinOp::Xor, pc, op)?;
                self.pc = pc + 1;
                proof {
                    lemma_tracked_bridge(*old(self), *self);
                }
                Ok(())
            },
            Instruction::LShl => {
                self.exec_lbin(BinOp::Shl, pc, op)?;
                self.pc = pc + 1;
                proof {
                    lemma_tracked_bridge(*old(self), *self);
                }
                Ok(())
            },
            Instruction::LShr => {
                self.exec_lbin(BinOp::Shr, pc, op)?;
                self.pc = pc + 1;
                proof {
                    lemma_tracked_bridge(*old(self), *self);
                }
                Ok(())
            },
            Instruction::LUShr => {
                self.exec_lbin(BinOp::Ushr, pc, op)?;
                self.pc = pc + 1;
                proof {
                    lemma_tracked_bridge(*old(self), *self);
                }
                Ok(())
            },
            Instruction::INeg => {
                let v = self.pop_int(pc, op)?;
                self.push(Value::Int((0i32).wrapping_sub(v)));
                self.pc = pc + 1;
                proof {
                    lemma_tracked_bridge(*old(self), *self);
                }
                Ok(())
            },
            Instruction::LNeg => {
                let v = self.pop_long(pc, op)?;
                self.push(Value::Long((0i64).wrapping_sub(v)));
                self.pc = pc + 1;
                proof {
                    lemma_tracked_bridge(*old(self), *self);
                }
                Ok(())
            },
            Instruction::IInc => {
                let idx = self.code_u8(pc + 1, pc, op)?;
                let delta = self.code_i8(pc + 2, pc, op)?;
                let v = self.get_local(idx as usize, pc, op)?;
                let cur = match v {
                    Value::Int(i) => i,
                    _ => {
                        return Err(Fatal { pc, opcode: op, kind: FatalKind::TypeMismatch });
                    },
                };
                if cur.checked_add(delta as i32).is_none() {
                    self.warn(pc, WarningKind::ArithmeticWrap);
                }
                self.set_local(idx as usize, Value::Int(cur.wrapping_add(delta as i32)));
                self.pc = pc + 3;
                proof {
                    lemma_tracked_bridge(*old(self), *self);
                }
                Ok(())
            },
            Instruction::I2B => {
                let v = self.pop_int(pc, op)?;
                let b: i8 = #[verifier::truncate] (v as i8);
                self.push(Value::Byte(b));
                self.pc = pc + 1;
                proof {
                    lemma_tracked_bridge(*old(self), *self);
                }
                Ok(())
            },
            Instruction::I2C => {
                let v = self.pop_int(pc, op)?;
                let c: i16 = #[verifier::truncate] (v as i16);
                self.push(Value::Char(c));
                self.pc = pc + 1;
                proof {
                    lemma_tracked_bridge(*old(self), *self);
                }
                Ok(())
            },
            Instruction::I2S => {
                let v = self.pop_int(pc, op)?;
                let c: i16 = #[verifier::truncate] (v as i16);
                self.push(Value::Short(c));
                self.pc = pc + 1;
                proof {
                    lemma_tracked_bridge(*old(self), *self);
                }
                Ok(())
            },
            Instruction::I2L => {
                let v = self.pop_int(pc, op)?;
                self.push(Value::Long(v as i64));
                self.pc = pc + 1;
                proof {
                    lemma_tracked_bridge(*old(self), *self);
                }
                Ok(())
            },
            Instruction::L2I => {
                let v = self.pop_long(pc, op)?;
                let c: i32 = #[verifier::truncate] (v as i32);
                self.push(Value::Int(c));
                self.pc = pc + 1;
                proof {
                    lemma_tracked_bridge(*old(self), *self);
                }
                Ok(())
            },
            Instruction::LCmp => {
                let b = self.pop_long(pc, op)?;
                let a = self.pop_long(pc, op)?;
                let c: i32 = if a == b {
                    0
                } else if a > b {
                    1
                } else {
                    -1
                };
                self.push(Value::Int(c));
                self.pc = pc + 1;
                proof {
                    lemma_tracked_bridge(*old(self), *self);
                }
                Ok(())
            },
            _ => Err(Fatal { pc, opcode: op, kind: FatalKind::UnsupportedOpcode }),
        }
    }


    /// Executes one instruction of this family and advances the program
    /// counter; part of [`Thread::step`].
    #[verifier::rlimit(100)]
    #[verifier::spinoff_prover]
    fn step_float<H: VmHost>(&mut self, host: &mut H, instr: Instruction, pc: usize, op: u8) -> (r:
        Result<(), Fatal>)
        requires
            old(self).wf(),
            old(self).frames@.len() > 0,
            pc == old(self).pc,
            pc < old(self).runtime.code().len(),
        ensures
            final(self).wf(),
            final(self).frames@.len() == old(self).frames@.len(),
            final(self).runtime == old(self).runtime,
            final(self).clinit_started == old(self).clinit_started,
            r matches Err(f) ==> f.pc == pc && f.kind != FatalKind::StepLimit && !spec_can_float(
                *old(self),
                instr,
                pc,
            ),
            r is Ok ==> spec_effect_float(*old(self), *final(self), instr, pc),
    {
        let code_len = self.runtime.instructions().len();
        proof {
            assert(code_len == self.runtime.code().len());
        }
        match instr {
            Instruction::I2F => {
                let v = self.pop_int(pc, op)?;
                let w = host.f32_from_i32(v);
                self.push(Value::Float(w));
                self.pc = pc + 1;
                proof {
                    lemma_tracked_bridge(*old(self), *self);
                }
                Ok(())
            },
            Instruction::I2D => {
                let v = self.pop_int(pc, op)?;
                let w = host.f64_from_i32(v);
                self.push(Value::Double(w));
                self.pc = pc + 1;
                proof {
                    lemma_tracked_bridge(*old(self), *self);
                }
                Ok(())
            },
            Instruction::L2F => {
                let v = self.pop_long(pc, op)?;
                let w = host.f32_from_i64(v);
                self.push(Value::Float(w));
                self.pc = pc + 1;
                proof {
                    lemma_tracked_bridge(*old(self), *self);
                }
                Ok(())
            },
            Instruction::L2D => {
                let v = self.pop_long(pc, op)?;
                let w = host.f64_from_i64(v);
                self.push(Value::Double(w));
                self.pc = pc + 1;
                proof {
                    lemma_tracked_bridge(*old(self), *self);
                }
                Ok(())
            },
            Instruction::F2I => {
                let v = self.pop_float(pc, op)?;
                let w = host.i32_from_f32(v);
                self.push(Value::Int(w));
                self.pc = pc + 1;
                proof {
                    lemma_tracked_bridge(*old(self), *self);
                }
                Ok(())
            },
            Instruction::F2L => {
                let v = self.pop_float(pc, op)?;
                let w = host.i64_from_f32(v);
                self.push(Value::Long(w));
                self.pc = pc + 1;
                proof {
                    lemma_tracked_bridge(*old(self), *self);
                }
                Ok(())
            },
            Instruction::F2D => {
                let v = self.pop_float(pc, op)?;
                let w = host.f64_from_f32(v);
                self.push(Value::Double(w));
                self.pc = pc + 1;
                proof {
                    lemma_tracked_bridge(*old(self), *self);
                }
                Ok(())
            },
            Instruction::D2I => {
                let v = self.pop_double(pc, op)?;
                let w = host.i32_from_f64(v);
                self.push(Value::Int(w));
                self.pc = pc + 1;
                proof {
                    lemma_tracked_bridge(*old(self), *self);
                }
                Ok(())
            },
            Instruction::D2L => {
                let v = self.pop_double(pc, op)?;
                let w = host.i64_from_f64(v);
                self.push(Value::Long(w));
                self.pc = pc + 1;
                proof {
                    lemma_tracked_bridge(*old(self), *self);
                }
                Ok(())
            },
            Instruction::D2F => {
                let v = self.pop_double(pc, op)?;
                let w = host.f32_from_f64(v);
                self.push(Value::Float(w));
                self.pc = pc + 1;
                proof {
                    lemma_tracked_bridge(*old(self), *self);
                }
                Ok(())
            },
            Instruction::FAdd => {
                let b = self.pop_float(pc, op)?;
                let a = self.pop_float(pc, op)?;
                let w = host.f32_bin(FloatBinOp::Add, a, b);
                self.push(Value::Float(w));
                self.pc = pc + 1;
                proof {
                    lemma_tracked_bridge(*old(self), *self);
                }
                Ok(())
            },
            Instruction::FSub => {
                let b = self.pop_float(pc, op)?;
                let a = self.pop_float(pc, op)?;
                let w = host.f32_bin(FloatBinOp::Sub, a, b);
                self.push(Value::Float(w));
                self.pc = pc + 1;
                proof {
                    lemma_tracked_bridge(*old(self), *self);
                }
                Ok(())
            },
            Instruction::FMul => {
                let b = self.pop_float(pc, op)?;
                let a = self.pop_float(pc, op)?;
                let w = host.f32_bin(FloatBinOp::Mul, a, b);
                self.push(Value::Float(w));
                self.pc = pc + 1;
                proof {
                    lemma_tracked_bridge(*old(self), *self);
                }
                Ok(())
            },
            Instruction::FDiv => {
                let b = self.pop_float(pc, op)?;
                let a = self.pop_float(pc, op)?;
                let w = host.f32_bin(FloatBinOp::Div, a, b);
                self.push(Value::Float(w));
                self.pc = pc + 1;
                proof {
                    lemma_tracked_bridge(*old(self), *self);
                }
                Ok(())
            },
            Instruction::FRem => {
                let b = self.pop_float(pc, op)?;
                let a = self.pop_float(pc, op)?;
                let w = host.f32_bin(FloatBinOp::Rem, a, b);
                self.push(Value::Float(w));
                self.pc = pc + 1;
                proof {
                    lemma_tracked_bridge(*old(self), *self);
                }
                Ok(())
            },
            Instruction::FNeg => {
                let a = self.pop_float(pc, op)?;
                let w = host.f32_neg(a);
                self.push(Value::Float(w));
                self.pc = pc + 1;
                proof {
                    lemma_tracked_bridge(*old(self), *self);
                }
                Ok(())
            },
            Instruction::DAdd => {
                let b = self.pop_double(pc, op)?;
                let a = self.pop_double(pc, op)?;
                let w = host.f64_bin(FloatBinOp::Add, a, b);
                self.push(Value::Double(w));
                self.pc = pc + 1;
                proof {
                    lemma_tracked_bridge(*old(self), *self);
                }
                Ok(())
            },
            Instruction::DSub => {
                let b = self.pop_double(pc, op)?;
                let a = self.pop_double(pc, op)?;
                let w = host.f64_bin(FloatBinOp::Sub, a, b);
                self.push(Value::Double(w));
                self.pc = pc + 1;
                proof {
                    lemma_tracked_bridge(*old(self), *self);
                }
                Ok(())
            },
            Instruction::DMul => {
                let b = self.pop_double(pc, op)?;
                let a = self.pop_double(pc, op)?;
                let w = host.f64_bin(FloatBinOp::Mul, a, b);
                self.push(Value::Double(w));
                self.pc = pc + 1;
                proof {
                    lemma_tracked_bridge(*old(self), *self);
                }
                Ok(())
            },
            Instruction::DDiv => {
                let b = self.pop_double(pc, op)?;
                let a = self.pop_double(pc, op)?;
                let w = host.f64_bin(FloatBinOp::Div, a, b);
                self.push(Value::Double(w));
                self.pc = pc + 1;
                proof {
                    lemma_tracked_bridge(*old(self), *self);
                }
                Ok(())
            },
            Instruction::DRem => {
                let b = self.pop_double(pc, op)?;
                let a = self.pop_double(pc, op)?;
                let w = host.f64_bin(FloatBinOp::Rem, a, b);
                self.push(Value::Double(w));
                self.pc = pc + 1;
                proof {
                    lemma_tracked_bridge(*old(self), *self);
                }
                Ok(())
            },
            Instruction::DNeg => {
                let a = self.pop_double(pc, op)?;
                let w = host.f64_neg(a);
                self.push(Value::Double(w));
                self.pc = pc + 1;
                proof {
                    lemma_tracked_bridge(*old(self), *self);
                }
                Ok(())
            },
            Instruction::FCmpl => {
                let b = self.pop_float(pc, op)?;
                let a = self.pop_float(pc, op)?;
                let ord = host.f32_cmp(a, b);
                let c: i32 = match ord {
                    FloatOrder::Less => -1,
                    FloatOrder::Equal => 0,
                    FloatOrder::Greater => 1,
                    FloatOrder::Unordered => -1,
                };
                self.push(Value::Int(c));
                self.pc = pc + 1;
                proof {
                    lemma_tracked_bridge(*old(self), *self);
                }
                Ok(())
            },
            Instruction::FCmpg => {
                let b = self.pop_float(pc, op)?;
                let a = self.pop_float(pc, op)?;
                let ord = host.f32_cmp(a, b);
                let c: i32 = match ord {
                    FloatOrder::Less => -1,
                    FloatOrder::Equal => 0,
                    FloatOrder::Greater => 1,
                    FloatOrder::Unordered => 1,
                };
                self.push(Value::Int(c));
                self.pc = pc + 1;
                proof {
                    lemma_tracked_bridge(*old(self), *self);
                }
                Ok(())
            },
            Instruction::DCmpl => {
                let b = self.pop_double(pc, op)?;
                let a = self.pop_double(pc, op)?;
                let ord = host.f64_cmp(a, b);
                let c: i32 = match ord {
                    FloatOrder::Less => -1,
                    FloatOrder::Equal => 0,
                    FloatOrder::Greater => 1,
                    FloatOrder::Unordered => -1,
                };
                self.push(Value::Int(c));
                self.pc = pc + 1;
                proof {
                    lemma_tracked_bridge(*old(self), *self);
                }
                Ok(())
            },
            Instruction::DCmpg => {
                let b = self.pop_double(pc, op)?;
                let a = self.pop_double(pc, op)?;
                let ord = host.f64_cmp(a, b);
                let c: i32 = match ord {
                    FloatOrder::Less => -1,
                    FloatOrder::Equal => 0,
                    FloatOrder::Greater => 1,
                    FloatOrder::Unordered => 1,
                };
                self.push(Value::Int(c));
                self.pc = pc + 1;
                proof {
                    lemma_tracked_bridge(*old(self), *self);
                }
                Ok(())
            },
            _ => Err(Fatal { pc, opcode: op, kind: FatalKind::UnsupportedOpcode }),
        }
    }


    /// Executes one instruction of this family and advances the program
    /// counter; part of [`Thread::step`].
    #[verifier::rlimit(100)]
    #[verifier::spinoff_prover]
    fn step_branch(&mut self, instr: Instruction, pc: usize, op: u8) -> (r:
        Result<(), Fatal>)
        requires
            old(self).wf(),
            old(self).frames@.len() > 0,
            pc == old(self).pc,
            pc < old(self).runtime.code().len(),
        ensures
            final(self).wf(),
            final(self).frames@.len() == old(self).frames@.len(),
            final(self).runtime == old(self).runtime,
            final(self).clinit_started == old(self).clinit_started,
            r matches Err(f) ==> f.pc == pc && f.kind != FatalKind::StepLimit && !spec_can_branch(
                *old(self),
                instr,
                pc,
            ),
            r is Ok ==> spec_effect_branch(*old(self), *final(self), instr, pc),
    {
        let code_len = self.runtime.instructions().len();
        proof {
            assert(code_len == self.runtime.code().len());
        }
        match instr {
            Instruction::Goto => {
                let off = self.code_i16(pc + 1, pc, op)?;
                let t = self.branch_target(pc, off as i32, pc, op)?;
                self.pc = t;
                proof {
                    lemma_tracked_bridge(*old(self), *self);
                }
                Ok(())
            },
            Instruction::GotoW => {
                let off = self.code_i32(pc + 1, pc, op)?;
                let t = self.branch_target(pc, off, pc, op)?;
                self.pc = t;
                proof {
                    lemma_tracked_bridge(*old(self), *self);
                }
                Ok(())
            },
            Instruction::ICmpEq => {
                let off = self.code_i16(pc + 1, pc, op)?;
                let b = self.pop_int(pc, op)?;
                let a = self.pop_int(pc, op)?;
                if a == b {
                    let t = self.branch_target(pc, off as i32, pc, op)?;
                    self.pc = t;
                } else {
                    self.pc = pc + 3;
                }
                proof {
                    lemma_tracked_bridge(*old(self), *self);
                }
                Ok(())
            },
            Instruction::ICmpNe => {
                let off = self.code_i16(pc + 1, pc, op)?;
                let b = self.pop_int(pc, op)?;
                let a = self.pop_int(pc, op)?;
                if a != b {
                    let t = self.branch_target(pc, off as i32, pc, op)?;
                    self.pc = t;
                } else {
                    self.pc = pc + 3;
                }
                proof {
                    lemma_tracked_bridge(*old(self), *self);
                }
                Ok(())
            },
            Instruction::ICmpLt => {
                let off = self.code_i16(pc + 1, pc, op)?;
                let b = self.pop_int(pc, op)?;
                let a = self.pop_int(pc, op)?;
                if a < b {
                    let t = self.branch_target(pc, off as i32, pc, op)?;
                    self.pc = t;
                } else {
                    self.pc = pc + 3;
                }
                proof {
                    lemma_tracked_bridge(*old(self), *self);
                }
                Ok(())
            },
            Instruction::ICmpGe => {
                let off = self.code_i16(pc + 1, pc, op)?;
                let b = self.pop_int(pc, op)?;
                let a = self.pop_int(pc, op)?;
                if a >= b {
                    let t = self.branch_target(pc, off as i32, pc, op)?;
                    self.pc = t;
                } else {
                    self.pc = pc + 3;
                }
                proof {
                    lemma_tracked_bridge(*old(self), *self);
                }
                Ok(())
            },
            Instruction::ICmpGt => {
                let off = self.code_i16(pc + 1, pc, op)?;
                let b = self.pop_int(pc, op)?;
                let a = self.pop_int(pc, op)?;
                if a > b {
                    let t = self.branch_target(pc, off as i32, pc, op)?;
                    self.pc = t;
                } else {
                    self.pc = pc + 3;
                }
                proof {
                    lemma_tracked_bridge(*old(self), *self);
                }
                Ok(())
            },
            Instruction::ICmpLe => {
                let off = self.code_i16(pc + 1, pc, op)?;
                let b = self.pop_int(pc, op)?;
                let a = self.pop_int(pc, op)?;
                if a <= b {
                    let t = self.branch_target(pc, off as i32, pc, op)?;
                    self.pc = t;
                } else {
                    self.pc = pc + 3;
                }
                proof {
                    lemma_tracked_bridge(*old(self), *self);
                }
                Ok(())
            },
            Instruction::IEq => {
                let off = self.code_i16(pc + 1, pc, op)?;
                let a = self.pop_int(pc, op)?;
                if a == 0 {
                    let t = self.branch_target(pc, off as i32, pc, op)?;
                    self.pc = t;
                } else {
                    self.pc = pc + 3;
                }
                proof {
                    lemma_tracked_bridge(*old(self), *self);
                }
                Ok(())
            },
            Instruction::INe => {
                let off = self.code_i16(pc + 1, pc, op)?;
                let a = self.pop_int(pc, op)?;
                if a != 0 {
                    let t = self.branch_target(pc, off as i32, pc, op)?;
                    self.pc = t;
                } else {
                    self.pc = pc + 3;
                }
                proof {
                    lemma_tracked_bridge(*old(self), *self);
                }
                Ok(())
            },
            Instruction::ILt => {
                let off = self.code_i16(pc + 1, pc, op)?;
                let a = self.pop_int(pc, op)?;
                if a < 0 {
                    let t = self.branch_target(pc, off as i32, pc, op)?;
                    self.pc = t;
                } else {
                    self.pc = pc + 3;
                }
                proof {
                    lemma_tracked_bridge(*old(self), *self);
                }
                Ok(())
            },
            Instruction::IGe => {
                let off = self.code_i16(pc + 1, pc, op)?;
                let a = self.pop_int(pc, op)?;
                if a >= 0 {
                    let t = self.branch_target(pc, off as i32, pc, op)?;
                    self.pc = t;
                } else {
                    self.pc = pc + 3;
                }
                proof {
                    lemma_tracked_bridge(*old(self), *self);
                }
                Ok(())
            },
            Instruction::IGt => {
                let off = self.code_i16(pc + 1, pc, op)?;
                let a = self.pop_int(pc, op)?;
                if a > 0 {
                    let t = self.branch_target(pc, off as i32, pc, op)?;
                    self.pc = t;
                } else {
                    self.pc = pc + 3;
                }
                proof {
                    lemma_tracked_bridge(*old(self), *self);
                }
                Ok(())
            },
            Instruction::ILe => {
                let off = self.code_i16(pc + 1, pc, op)?;
                let a = self.pop_int(pc, op)?;
                if a <= 0 {
                    let t = self.branch_target(pc, off as i32, pc, op)?;
                    self.pc = t;
                } else {
                    self.pc = pc + 3;
                }
                proof {
                    lemma_tracked_bridge(*old(self), *self);
                }
                Ok(())
            },
            Instruction::IfNull => {
                let off = self.code_i16(pc + 1, pc, op)?;
                let v = self.pop_value(pc, op)?;
                match v {
                    Value::Null => {
                        let t = self.branch_target(pc, off as i32, pc, op)?;
                        self.pc = t;
                    },
                    _ => {
                        self.pc = pc + 3;
                    },
                }
                proof {
                    lemma_tracked_bridge(*old(self), *self);
                }
                Ok(())
            },
            Instruction::IfNotNull => {
                let off = self.code_i16(pc + 1, pc, op)?;
                let v = self.pop_value(pc, op)?;
                match v {
                    Value::Reference => {
                        let t = self.branch_target(pc, off as i32, pc, op)?;
                        self.pc = t;
                    },
                    _ => {
                        self.pc = pc + 3;
                    },
                }
                proof {
                    lemma_tracked_bridge(*old(self), *self);
                }
                Ok(())
            },
            _ => Err(Fatal { pc, opcode: op, kind: FatalKind::UnsupportedOpcode }),
        }
    }

    /// Records a warning.
    fn warn(&mut self, pc: usize, kind: WarningKind)
        ensures
            old(self).wf() ==> final(self).wf(),
            final(self).warnings@ == old(self).warnings@.push(Warning { pc, kind }),
            final(self).stack == old(self).stack,
            Self::same_but_stack(*old(self), *final(self)),
    {
        self.warnings.push(Warning { pc, kind });
        proof {
            if old(self).wf() {
                lemma_tracked_bridge(*old(self), *self);
            }
        }
    }
}

impl Thread {

    /// Runs a thread to completion and returns the outcome together with
    /// the thread's final state.
    fn run_to_end<H: VmHost>(thread: Thread, host: &mut H) -> (r: (Result<usize, Fatal>, Thread))
        requires
            thread.wf(),
            thread.frames@.len() > 0,
        ensures
            r.1.wf(),
            spec_run_outcome(thread, r.1, r.0),
    {
        let mut t = thread;
        let result = t.run(host);
        (result, t)
    }

    /// Interprets from the current program counter until a `return` from
    /// the bottommost frame ends the run, or a fatal error aborts it. The
    /// step bound exists only to witness termination; it is far beyond any
    /// reachable execution length.
    pub fn run<H: VmHost>(&mut self, host: &mut H) -> (r: Result<usize, Fatal>)
        requires
            old(self).wf(),
            old(self).frames@.len() > 0,
        ensures
            final(self).wf(),
            spec_run_outcome(*old(self), *final(self), r),
    {
        let mut fuel: u64 = 0xFFFF_FFFF_FFFF_FFFF;
        let ghost mut trace: Seq<Thread> = seq![*old(self)];
        loop
            invariant
                self.wf(),
                self.frames@.len() > 0,
                trace.len() >= 1,
                trace.len() == 0xFFFF_FFFF_FFFF_FFFF - fuel + 1,
                trace.first() == *old(self),
                trace.last() == *self,
                forall|i: int|
                    0 <= i < trace.len() - 1 ==> spec_step_ok(
                        #[trigger] trace[i],
                        trace[i + 1],
                        StepOutcome::Continue,
                    ),
            decreases fuel,
        {
            if fuel == 0 {
                proof {
                    assert(is_steps_trace(trace, *old(self)));
                }
                return Err(Fatal { pc: self.pc, opcode: 0, kind: FatalKind::StepLimit });
            }
            fuel = fuel - 1;
            let ghost pre = *self;
            match self.step(host) {
                Ok(StepOutcome::Continue) => {
                    proof {
                        trace = trace.push(*self);
                    }
                },
                Ok(StepOutcome::Finished(code)) => {
                    proof {
                        trace = trace.push(*self);
                        assert(is_run_trace(trace, *old(self), *self));
                    }
                    return Ok(code);
                },
                Err(f) => {
                    proof {
                        assert(is_steps_trace(trace, *old(self)));
                        assert(trace.last() == pre);
                        assert(spec_step_err(trace.last(), f));
                    }
                    return Err(f);
                },
            }
        }
    }
}

impl Runtime {
    /// Loads and links the named class, finds its `main` method, and
    /// interprets from there on a fresh thread until a clean `return`
    /// from the bottommost frame (exit code 0) or a fatal error. Returns
    /// the outcome together with the thread in its final state.
    #[verifier::rlimit(100)]
    #[verifier::spinoff_prover]
    pub fn start<H: VmHost>(runtime: Runtime, main_class: &String, host: &mut H) -> (r: (
        Result<usize, Fatal>,
        Thread,
    ))
        requires
            runtime.wf(),
        ensures
            r.1.wf(),
            !runtime.class_files_view().contains_key(main_class@) ==> (r.0 matches Err(f) && (
            f.kind matches FatalKind::Resolution(e) && e matches VmError::ClassNotFound(nm) && nm@
                == main_class@)),
            (runtime.class_files_view().contains_key(main_class@) && !crate::runtime::spec_class_linkable(
                runtime.class_files_view()[main_class@],
            )) ==> (r.0 matches Err(f) && f.kind is Resolution),
            (runtime.class_files_view().contains_key(main_class@)
                && crate::runtime::spec_class_linkable(runtime.class_files_view()[main_class@])
                && !crate::runtime::spec_has_java_main(runtime.class_files_view()[main_class@]))
                ==> (r.0 matches Err(f) && (f.kind matches FatalKind::Resolution(e) && e matches
                VmError::MethodNotFound(nm) && nm@ == "main"@)),
            (runtime.class_files_view().contains_key(main_class@)
                && crate::runtime::spec_class_linkable(runtime.class_files_view()[main_class@])
                && crate::runtime::spec_has_java_main(runtime.class_files_view()[main_class@]))
                ==> exists|t0: Thread|
                #![trigger spec_run_outcome(t0, r.1, r.0)]
                {
                    &&& spec_started_thread(t0, runtime, main_class@)
                    &&& spec_run_outcome(t0, r.1, r.0)
                },
            r.0 matches Ok(c) ==> c == 0 && exists|t0: Thread|
                #![trigger spec_run_outcome(t0, r.1, r.0)]
                {
                    &&& spec_started_thread(t0, runtime, main_class@)
                    &&& spec_run_outcome(t0, r.1, r.0)
                },
    {
        let ghost rt0 = runtime;
        let ghost cfg = runtime.class_files_view()[main_class@];
        let mut rt = runtime;
        match rt.load_class(main_class) {
            Ok(_) => {},
            Err(e) => {
                return (
                    Err(Fatal { pc: 0, opcode: 0, kind: FatalKind::Resolution(e) }),
                    Thread::new(rt, 0),
                );
            },
        }
        let name = match rt.link_class(main_class) {
            Ok(n) => n,
            Err(e) => {
                return (
                    Err(Fatal { pc: 0, opcode: 0, kind: FatalKind::Resolution(e) }),
                    Thread::new(rt, 0),
                );
            },
        };
        proof {
            if rt0.class_files_view().contains_key(main_class@)
                && crate::runtime::spec_class_linkable(cfg) {
                let rp = rt.pool_view()[main_class@];
                match rp {
                    RuntimePool::Class(c) => {
                        crate::runtime::lemma_main_record(cfg, c);
                    },
                }
            }
        }
        let main_name = String::from_str("main");
        let entry: usize;
        match rt.get_method_by_name(&name, &main_name) {
            Some(m) => match m.as_method() {
                Some(jm) => {
                    entry = jm.code_index;
                },
                None => {
                    return (
                        Err(
                            Fatal {
                                pc: 0,
                                opcode: 0,
                                kind: FatalKind::Resolution(VmError::MethodNotFound(main_name)),
                            },
                        ),
                        Thread::new(rt, 0),
                    );
                },
            },
            None => {
                return (
                    Err(
                        Fatal {
                            pc: 0,
                            opcode: 0,
                            kind: FatalKind::Resolution(VmError::MethodNotFound(main_name)),
                        },
                    ),
                    Thread::new(rt, 0),
                );
            },
        }

        let thread = Thread::new(rt, entry).with_frame(Frame::new_main(name));
        let ghost t0 = thread;
        proof {
            assert(thread.wf());
            assert(spec_started_thread(t0, rt0, main_class@));
        }
        let out = Thread::run_to_end(thread, host);
        proof {
            assert(spec_run_outcome(t0, out.1, out.0));
        }
        out
    }
}

} // verus!
