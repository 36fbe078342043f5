//! Core of a bytecode virtual machine for the class-file object format that
//! begins with the magic number `0xCAFEBABE`.
//!
//! The crate decodes class files into a constant pool and member tables,
//! links them into a process-wide code region with resolved method and field
//! records, and interprets the linked instruction stream on a per-thread
//! operand stack with typed value discipline, wrap-around integer arithmetic,
//! branch instructions, static-field access and a class-initialization
//! trampoline.

pub mod byte_stream;
pub mod classfile;
pub mod error;
pub mod instructions;
pub mod frame;
pub mod host;
pub mod runtime;
pub mod runtime_pool;
pub mod table;
pub mod thread;
pub mod value;
