//! What the machine asks of its embedder.
//!
//! Native methods and IEEE-754 floating-point arithmetic are outside the
//! verified core: the interpreter carries float values as raw bit patterns
//! and hands every arithmetic question about them, together with every
//! native-method invocation, to an implementation of [`VmHost`]. The core
//! promises nothing about the values these methods return; it only checks
//! their variant discipline and moves them.

use vstd::prelude::*;

use crate::value::Value;

verus! {

/// How the embedder orders two floating-point values. `Unordered` reports
/// a NaN operand; the interpreter itself applies each compare
/// instruction's NaN rule to it.
#[derive(Debug, Clone, Copy, PartialEq, Eq, Structural)]
pub enum FloatOrder {
    Less,
    Equal,
    Greater,
    Unordered,
}

/// The binary floating-point operations the instruction set needs.
#[derive(Debug, Clone, Copy, PartialEq, Eq, Structural)]
pub enum FloatBinOp {
    Add,
    Sub,
    Mul,
    Div,
    Rem,
}

/// The embedder of the machine: dispatches native methods and computes
/// IEEE-754 arithmetic on raw bit patterns.
pub trait VmHost {
    /// Invokes the native method `class_name.method_name` with exactly the
    /// values the interpreter popped for its parameters; returns the
    /// method's result value, if it produced one.
    fn invoke_native(
        &mut self,
        class_name: &String,
        method_name: &String,
        params: &Vec<Value>,
    ) -> Option<Value>;

    /// A binary operation on two binary32 bit patterns.
    fn f32_bin(&mut self, op: FloatBinOp, a: u32, b: u32) -> u32;

    /// A binary operation on two binary64 bit patterns.
    fn f64_bin(&mut self, op: FloatBinOp, a: u64, b: u64) -> u64;

    fn f32_neg(&mut self, a: u32) -> u32;

    fn f64_neg(&mut self, a: u64) -> u64;

    fn f32_cmp(&mut self, a: u32, b: u32) -> FloatOrder;

    fn f64_cmp(&mut self, a: u64, b: u64) -> FloatOrder;

    fn f32_from_i32(&mut self, v: i32) -> u32;

    fn f32_from_i64(&mut self, v: i64) -> u32;

    fn f64_from_i32(&mut self, v: i32) -> u64;

    fn f64_from_i64(&mut self, v: i64) -> u64;

    fn i32_from_f32(&mut self, bits: u32) -> i32;

    fn i64_from_f32(&mut self, bits: u32) -> i64;

    fn i32_from_f64(&mut self, bits: u64) -> i32;

    fn i64_from_f64(&mut self, bits: u64) -> i64;

    fn f64_from_f32(&mut self, bits: u32) -> u64;

    fn f32_from_f64(&mut self, bits: u64) -> u32;
}

} // verus!
