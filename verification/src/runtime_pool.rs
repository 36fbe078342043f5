//! Resolved per-class records: what linking turns a class file into.
//!
//! A linked class holds its methods keyed by name — each either a
//! [`JavaMethod`] whose instructions sit in the global code region, or a
//! [`NativeMethod`] dispatched through the embedder — and its static fields
//! as live value cells.

use vstd::prelude::*;

use crate::table::Table;
use crate::value::{Type, Value};

verus! {

/// A static field: its declared type and its current value. The value is
/// `Uninit` until the class's `<clinit>` writes it.
pub struct Field {
    pub ty: Type,
    pub value: Value,
}

/// A method without bytecode, dispatched through the embedder's natives.
pub struct NativeMethod {
    pub params: Vec<Type>,
    pub return_ty: Option<Type>,
}

/// A method whose instructions were appended to the global code region at
/// `code_index` and span `code_len` bytes.
pub struct JavaMethod {
    pub max_locals: u16,
    pub max_stack: u16,
    pub code_index: usize,
    pub code_len: usize,
    pub params: Vec<Type>,
    pub return_ty: Option<Type>,
}

/// A resolved method record.
pub enum Method {
    Native(NativeMethod),
    Java(JavaMethod),
}

impl Method {
    /// The record as a Java method, where it is one.
    pub fn as_method(&self) -> (r: Option<&JavaMethod>)
        ensures
            match r {
                Some(m) => *self matches Method::Java(jm) && jm == *m,
                None => *self is Native,
            },
    {
        match self {
            Method::Java(method) => Some(method),
            Method::Native(_) => None,
        }
    }
}

/// A linked class: resolved methods and live static-field cells, each keyed
/// by member name.
pub struct Class {
    pub methods: Table<Method>,
    pub fields: Table<Field>,
}

impl Class {
    pub open spec fn wf(self) -> bool {
        self.methods.wf() && self.fields.wf()
    }
}

/// An entry of the runtime pool.
pub enum RuntimePool {
    Class(Class),
}

impl RuntimePool {
    pub open spec fn wf(self) -> bool {
        match self {
            RuntimePool::Class(c) => c.wf(),
        }
    }
}

} // verus!
