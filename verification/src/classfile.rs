//! The class-file container: constant pool, member tables, attributes.
//!
//! The on-disk format is big-endian and begins with the magic number
//! `0xCAFEBABE`. The constant pool is 1-indexed; `Long` and `Double`
//! entries occupy two slots, so the slot after each of them is unusable.
//! Field and method records are uniform; their attributes are raw payloads
//! except `Code`, which is re-parsed into its structured form.

use vstd::prelude::*;
use vstd::string::*;

use crate::byte_stream::{be_u16, be_u32, ByteStream, ReaderContext, StreamRead};
use crate::error::VmError;

verus! {

/// One constant-pool entry.
pub enum ConstantPool {
    /// Slot 0, and the slot after every `Long` or `Double` entry.
    Unusable,
    Utf8(String),
    Integer(i32),
    /// IEEE-754 binary32, carried as its raw bit pattern.
    Float(u32),
    Long(i64),
    /// IEEE-754 binary64, carried as its raw bit pattern.
    Double(u64),
    Class { name_index: u16 },
    StringRef { string_index: u16 },
    FieldRef { class_index: u16, name_and_type_index: u16 },
    MethodRef { class_index: u16, name_and_type_index: u16 },
    InterfaceMethodRef { class_index: u16, name_and_type_index: u16 },
    NameAndType { name_index: u16, descriptor_index: u16 },
    MethodHandle { reference_kind: u8, reference_index: u16 },
    MethodType { descriptor_index: u16 },
    InvokeDynamic { bootstrap_method_attr_index: u16, name_and_type_index: u16 },
}

/// One entry of a `Code` attribute's exception table; parsed but unused by
/// the core.
pub struct ExceptionEntry {
    pub start_pc: u16,
    pub end_pc: u16,
    pub handler_pc: u16,
    pub catch_type: u16,
}

/// The decoded payload of a `Code` attribute.
pub struct CodeAttribute {
    pub max_stack: u16,
    pub max_locals: u16,
    /// The raw instruction bytes.
    pub instructions: Vec<u8>,
    pub exception_table: Vec<ExceptionEntry>,
    pub attributes: Vec<Attribute>,
}

/// An attribute's decoded payload: `Code` is re-parsed, everything else is
/// kept raw.
pub enum AttrInfo {
    Code(CodeAttribute),
    Raw(Vec<u8>),
}

/// A named attribute of a class, field, method or `Code` attribute.
pub struct Attribute {
    pub name_index: u16,
    pub info: AttrInfo,
}

/// A field or method record; the two share one uniform shape.
pub struct MemberInfo {
    pub access_flags: u16,
    pub name_index: u16,
    pub descriptor_index: u16,
    pub attributes: Vec<Attribute>,
}

/// The first decoded `Code` attribute in `attrs`, if any.
pub open spec fn spec_code_of(attrs: Seq<Attribute>) -> Option<CodeAttribute>
    decreases attrs.len(),
{
    if attrs.len() == 0 {
        None
    } else {
        match attrs[0].info {
            AttrInfo::Code(c) => Some(c),
            AttrInfo::Raw(_) => spec_code_of(attrs.skip(1)),
        }
    }
}

impl MemberInfo {
    /// The first decoded `Code` attribute among this member's attributes.
    pub open spec fn spec_code(&self) -> Option<CodeAttribute> {
        spec_code_of(self.attributes@)
    }

    /// The decoded `Code` attribute, where the member has one: a member
    /// without code is a native method.
    pub fn code(&self) -> (r: Option<&CodeAttribute>)
        ensures
            match r {
                Some(c) => self.spec_code() matches Some(cv) && cv == *c,
                None => self.spec_code() is None,
            },
    {
        let n = self.attributes.len();
        let mut i: usize = 0;
        proof {
            assert(self.attributes@.skip(0) =~= self.attributes@);
        }
        while i < n
            invariant
                i <= n,
                n == self.attributes@.len(),
                spec_code_of(self.attributes@) == spec_code_of(self.attributes@.skip(i as int)),
            decreases n - i,
        {
            proof {
                assert(self.attributes@.skip(i as int)[0] == self.attributes@[i as int]);
                assert(self.attributes@.skip(i as int).skip(1) =~= self.attributes@.skip(
                    i as int + 1,
                ));
            }
            match &self.attributes[i].info {
                AttrInfo::Code(c) => {
                    return Some(c);
                },
                AttrInfo::Raw(_) => {},
            }
            i = i + 1;
        }
        proof {
            assert(self.attributes@.skip(n as int).len() == 0);
        }
        None
    }
}

/// A parsed class file.
pub struct ClassFile {
    /// Always `0xCAFEBABE` in a file this decoder accepts.
    pub magic: u32,
    pub minor_version: u16,
    pub major_version: u16,
    /// 1-indexed: slot 0 is `Unusable`.
    pub constant_pool: Vec<ConstantPool>,
    pub access_flags: u16,
    pub this_class: u16,
    pub super_class: u16,
    pub interfaces: Vec<u16>,
    pub fields: Vec<MemberInfo>,
    pub methods: Vec<MemberInfo>,
    pub attributes: Vec<Attribute>,
}

/// The characters of the `Utf8` entry at 1-based pool index `i`, if that is
/// what the slot holds.
pub open spec fn cp_utf8(cf: ClassFile, i: int) -> Option<Seq<char>> {
    if 0 <= i < cf.constant_pool@.len() {
        match cf.constant_pool@[i] {
            ConstantPool::Utf8(s) => Some(s@),
            _ => None,
        }
    } else {
        None
    }
}

impl ClassFile {
    /// The pool entry at 1-based index `index`.
    pub fn pool(&self, index: usize) -> (r: &ConstantPool)
        requires
            index < self.constant_pool@.len(),
        ensures
            *r == self.constant_pool@[index as int],
    {
        &self.constant_pool[index]
    }

    /// The pool entry at 1-based index `index`, or nothing when the index
    /// is out of range.
    pub fn pool_entry(&self, index: usize) -> (r: Option<&ConstantPool>)
        ensures
            match r {
                Some(e) => index < self.constant_pool@.len() && *e == self.constant_pool@[
                    index as int
                ],
                None => index >= self.constant_pool@.len(),
            },
    {
        if index < self.constant_pool.len() {
            Some(&self.constant_pool[index])
        } else {
            None
        }
    }

    /// The string of the `Utf8` entry at `index`; an error when the slot
    /// holds anything else.
    pub fn get_str(&self, index: usize) -> (r: Result<&String, VmError>)
        ensures
            match r {
                Ok(s) => cp_utf8(*self, index as int) == Some(s@),
                Err(e) => cp_utf8(*self, index as int) is None && e matches
                    VmError::BadConstantPoolEntry(_),
            },
    {
        if index < self.constant_pool.len() {
            match &self.constant_pool[index] {
                ConstantPool::Utf8(s) => Ok(s),
                _ => Err(VmError::BadConstantPoolEntry(trunc_u16(index))),
            }
        } else {
            Err(VmError::BadConstantPoolEntry(trunc_u16(index)))
        }
    }

    /// This class's own name: `this_class` names a `Class` entry whose
    /// `name_index` names a `Utf8` entry.
    pub fn class_name(&self) -> (r: Result<&String, VmError>)
        ensures
            match r {
                Ok(s) => spec_class_name(*self) == Some(s@),
                Err(_) => spec_class_name(*self) is None,
            },
    {
        if (self.this_class as usize) < self.constant_pool.len() {
            match &self.constant_pool[self.this_class as usize] {
                ConstantPool::Class { name_index } => self.get_str(*name_index as usize),
                _ => Err(VmError::BadConstantPoolEntry(self.this_class)),
            }
        } else {
            Err(VmError::BadConstantPoolEntry(self.this_class))
        }
    }
}

/// The name this class file declares for itself, resolved through
/// `this_class`.
pub open spec fn spec_class_name(cf: ClassFile) -> Option<Seq<char>> {
    if 0 <= cf.this_class < cf.constant_pool@.len() {
        match cf.constant_pool@[cf.this_class as int] {
            ConstantPool::Class { name_index } => cp_utf8(cf, name_index as int),
            _ => None,
        }
    } else {
        None
    }
}

/// Relies on `String::from_utf8`: it succeeds exactly on valid UTF-8, and
/// the returned string's UTF-8 encoding is the input bytes.
#[verifier::external_body]
fn string_from_utf8(bytes: Vec<u8>) -> (r: Option<String>)
    ensures
        match r {
            Some(s) => vstd::utf8::valid_utf8(bytes@) && vstd::utf8::encode_utf8(s@) == bytes@,
            None => !vstd::utf8::valid_utf8(bytes@),
        },
{
    match String::from_utf8(bytes) {
        Ok(s) => Some(s),
        Err(_) => None,
    }
}

/// Reads the constant-pool section: a `u16` count, then `count - 1` usable
/// slots starting at index 1, where each `Long` or `Double` also consumes
/// the following slot.
#[verifier::loop_isolation(false)]
fn read_constant_pool<'a>(stream: &mut ByteStream<'a>, ctx: &ReaderContext) -> (r: Result<
    Vec<ConstantPool>,
    VmError,
>)
    ensures
        final(stream).data == old(stream).data,
        r matches Ok(v) ==> {
            &&& v@.len() >= 1
            &&& v@[0] is Unusable
            &&& old(stream).index + 2 <= old(stream).data@.len()
            &&& be_u16(old(stream).data@, old(stream).index as int) > 0
            &&& v@.len() >= be_u16(old(stream).data@, old(stream).index as int)
        },
        r matches Err(e) ==> !(e is BadMagic),
{
    let count = match stream.read::<u16>(ctx) {
        Ok(v) => v,
        Err(e) => {
            return Err(e);
        },
    };
    if count == 0 {
        return Err(VmError::BadConstantPoolEntry(0));
    }
    let mut pool: Vec<ConstantPool> = Vec::new();
    pool.push(ConstantPool::Unusable);
    let mut filled: usize = 1;
    while filled < count as usize
        invariant
            1 <= filled <= count as usize + 1,
            filled == pool@.len(),
            pool@[0] is Unusable,
            stream.data == old(stream).data,
        decreases count as int + 1 - filled,
    {
        let tag = match stream.read::<u8>(ctx) {
            Ok(v) => v,
            Err(e) => {
                return Err(e);
            },
        };
        if tag == 1 {
            let len = match stream.read::<u16>(ctx) {
                Ok(v) => v,
                Err(e) => {
                    return Err(e);
                },
            };
            let bytes = match stream.read_many::<u8>(len as usize, ctx) {
                Ok(v) => v,
                Err(e) => {
                    return Err(e);
                },
            };
            match string_from_utf8(bytes) {
                Some(s) => pool.push(ConstantPool::Utf8(s)),
                None => {
                    return Err(VmError::BadUtf8);
                },
            }
            filled = filled + 1;
        } else if tag == 3 {
            match stream.read::<i32>(ctx) {
                Ok(v) => pool.push(ConstantPool::Integer(v)),
                Err(e) => {
                    return Err(e);
                },
            }
            filled = filled + 1;
        } else if tag == 4 {
            match stream.read::<u32>(ctx) {
                Ok(v) => pool.push(ConstantPool::Float(v)),
                Err(e) => {
                    return Err(e);
                },
            }
            filled = filled + 1;
        } else if tag == 5 {
            match stream.read::<i64>(ctx) {
                Ok(v) => {
                    pool.push(ConstantPool::Long(v));
                    pool.push(ConstantPool::Unusable);
                    filled = filled + 2;
                },
                Err(e) => {
                    return Err(e);
                },
            }
        } else if tag == 6 {
            match stream.read::<u64>(ctx) {
                Ok(v) => {
                    pool.push(ConstantPool::Double(v));
                    pool.push(ConstantPool::Unusable);
                    filled = filled + 2;
                },
                Err(e) => {
                    return Err(e);
                },
            }
        } else if tag == 7 {
            match stream.read::<u16>(ctx) {
                Ok(v) => pool.push(ConstantPool::Class { name_index: v }),
                Err(e) => {
                    return Err(e);
                },
            }
            filled = filled + 1;
        } else if tag == 8 {
            match stream.read::<u16>(ctx) {
                Ok(v) => pool.push(ConstantPool::StringRef { string_index: v }),
                Err(e) => {
                    return Err(e);
                },
            }
            filled = filled + 1;
        } else if tag == 9 || tag == 10 || tag == 11 {
            let class_index = match stream.read::<u16>(ctx) {
                Ok(v) => v,
                Err(e) => {
                    return Err(e);
                },
            };
            let name_and_type_index = match stream.read::<u16>(ctx) {
                Ok(v) => v,
                Err(e) => {
                    return Err(e);
                },
            };
            if tag == 9 {
                pool.push(ConstantPool::FieldRef { class_index, name_and_type_index });
            } else if tag == 10 {
                pool.push(ConstantPool::MethodRef { class_index, name_and_type_index });
            } else {
                pool.push(ConstantPool::InterfaceMethodRef { class_index, name_and_type_index });
            }
            filled = filled + 1;
        } else if tag == 12 {
            let name_index = match stream.read::<u16>(ctx) {
                Ok(v) => v,
                Err(e) => {
                    return Err(e);
                },
            };
            let descriptor_index = match stream.read::<u16>(ctx) {
                Ok(v) => v,
                Err(e) => {
                    return Err(e);
                },
            };
            pool.push(ConstantPool::NameAndType { name_index, descriptor_index });
            filled = filled + 1;
        } else if tag == 15 {
            let reference_kind = match stream.read::<u8>(ctx) {
                Ok(v) => v,
                Err(e) => {
                    return Err(e);
                },
            };
            let reference_index = match stream.read::<u16>(ctx) {
                Ok(v) => v,
                Err(e) => {
                    return Err(e);
                },
            };
            pool.push(ConstantPool::MethodHandle { reference_kind, reference_index });
            filled = filled + 1;
        } else if tag == 16 {
            match stream.read::<u16>(ctx) {
                Ok(v) => pool.push(ConstantPool::MethodType { descriptor_index: v }),
                Err(e) => {
                    return Err(e);
                },
            }
            filled = filled + 1;
        } else if tag == 18 {
            let bootstrap_method_attr_index = match stream.read::<u16>(ctx) {
                Ok(v) => v,
                Err(e) => {
                    return Err(e);
                },
            };
            let name_and_type_index = match stream.read::<u16>(ctx) {
                Ok(v) => v,
                Err(e) => {
                    return Err(e);
                },
            };
            pool.push(
                ConstantPool::InvokeDynamic { bootstrap_method_attr_index, name_and_type_index },
            );
            filled = filled + 1;
        } else {
            return Err(VmError::UnknownConstantPoolTag(tag));
        }
    }
    Ok(pool)
}

/// Reads a count-prefixed attribute list without re-parsing any payload;
/// used where no `Code` attribute can appear.
#[verifier::loop_isolation(false)]
fn read_attributes_raw<'a>(stream: &mut ByteStream<'a>, ctx: &ReaderContext) -> (r: Result<
    Vec<Attribute>,
    VmError,
>)
    ensures
        final(stream).data == old(stream).data,
        r matches Err(e) ==> !(e is BadMagic),
{
    let count = match stream.read::<u16>(ctx) {
        Ok(v) => v,
        Err(e) => {
            return Err(e);
        },
    };
    let mut out: Vec<Attribute> = Vec::new();
    let mut k: usize = 0;
    while k < count as usize
        invariant
            stream.data == old(stream).data,
        decreases count as int - k,
    {
        let name_index = match stream.read::<u16>(ctx) {
            Ok(v) => v,
            Err(e) => {
                return Err(e);
            },
        };
        let length = match stream.read::<u32>(ctx) {
            Ok(v) => v,
            Err(e) => {
                return Err(e);
            },
        };
        let payload = match stream.read_many::<u8>(length as usize, ctx) {
            Ok(v) => v,
            Err(e) => {
                return Err(e);
            },
        };
        out.push(Attribute { name_index, info: AttrInfo::Raw(payload) });
        k = k + 1;
    }
    Ok(out)
}

/// Decodes a `Code` attribute's payload: `max_stack`, `max_locals`, the
/// count-prefixed instruction bytes, the exception table, and nested
/// attributes.
#[verifier::loop_isolation(false)]
fn parse_code(payload: &Vec<u8>) -> (r: Result<CodeAttribute, VmError>)
    ensures
        r matches Err(e) ==> !(e is BadMagic),
        r matches Ok(c) ==> {
            &&& payload@.len() >= 8
            &&& c.max_stack == be_u16(payload@, 0)
            &&& c.max_locals == be_u16(payload@, 2)
            &&& c.instructions@.len() == be_u32(payload@, 4)
            &&& 8 + be_u32(payload@, 4) <= payload@.len()
            &&& c.instructions@ == payload@.subrange(8, 8 + be_u32(payload@, 4) as int)
        },
{
    let ctx = ReaderContext { constant_pool: Vec::new() };
    let mut stream = ByteStream::new(payload.as_slice());
    let max_stack = match stream.read::<u16>(&ctx) {
        Ok(v) => v,
        Err(e) => {
            return Err(e);
        },
    };
    let max_locals = match stream.read::<u16>(&ctx) {
        Ok(v) => v,
        Err(e) => {
            return Err(e);
        },
    };
    let code_length = match stream.read::<u32>(&ctx) {
        Ok(v) => v,
        Err(e) => {
            return Err(e);
        },
    };
    let instructions = match stream.read_many::<u8>(code_length as usize, &ctx) {
        Ok(v) => v,
        Err(e) => {
            return Err(e);
        },
    };
    proof {
        assert(instructions@ =~= payload@.subrange(8, 8 + code_length as int));
    }
    let exception_count = match stream.read::<u16>(&ctx) {
        Ok(v) => v,
        Err(e) => {
            return Err(e);
        },
    };
    let mut exception_table: Vec<ExceptionEntry> = Vec::new();
    let mut k: usize = 0;
    while k < exception_count as usize
        decreases exception_count as int - k,
    {
        let start_pc = match stream.read::<u16>(&ctx) {
            Ok(v) => v,
            Err(e) => {
                return Err(e);
            },
        };
        let end_pc = match stream.read::<u16>(&ctx) {
            Ok(v) => v,
            Err(e) => {
                return Err(e);
            },
        };
        let handler_pc = match stream.read::<u16>(&ctx) {
            Ok(v) => v,
            Err(e) => {
                return Err(e);
            },
        };
        let catch_type = match stream.read::<u16>(&ctx) {
            Ok(v) => v,
            Err(e) => {
                return Err(e);
            },
        };
        exception_table.push(ExceptionEntry { start_pc, end_pc, handler_pc, catch_type });
        k = k + 1;
    }
    let attributes = match read_attributes_raw(&mut stream, &ctx) {
        Ok(v) => v,
        Err(e) => {
            return Err(e);
        },
    };
    Ok(CodeAttribute { max_stack, max_locals, instructions, exception_table, attributes })
}

/// Reads a count-prefixed attribute list, re-parsing each attribute whose
/// name resolves through `pool` to `Code`.
#[verifier::loop_isolation(false)]
fn read_attributes<'a>(
    stream: &mut ByteStream<'a>,
    ctx: &ReaderContext,
    pool: &Vec<ConstantPool>,
) -> (r: Result<Vec<Attribute>, VmError>)
    ensures
        final(stream).data == old(stream).data,
        r matches Err(e) ==> !(e is BadMagic),
{
    let code_name: String = String::from_str("Code");
    let count = match stream.read::<u16>(ctx) {
        Ok(v) => v,
        Err(e) => {
            return Err(e);
        },
    };
    let mut out: Vec<Attribute> = Vec::new();
    let mut k: usize = 0;
    while k < count as usize
        invariant
            stream.data == old(stream).data,
        decreases count as int - k,
    {
        let name_index = match stream.read::<u16>(ctx) {
            Ok(v) => v,
            Err(e) => {
                return Err(e);
            },
        };
        let length = match stream.read::<u32>(ctx) {
            Ok(v) => v,
            Err(e) => {
                return Err(e);
            },
        };
        let payload = match stream.read_many::<u8>(length as usize, ctx) {
            Ok(v) => v,
            Err(e) => {
                return Err(e);
            },
        };
        let is_code = if (name_index as usize) < pool.len() {
            match &pool[name_index as usize] {
                ConstantPool::Utf8(s) => s.eq(&code_name),
                _ => false,
            }
        } else {
            false
        };
        if is_code {
            match parse_code(&payload) {
                Ok(c) => out.push(Attribute { name_index, info: AttrInfo::Code(c) }),
                Err(e) => {
                    return Err(e);
                },
            }
        } else {
            out.push(Attribute { name_index, info: AttrInfo::Raw(payload) });
        }
        k = k + 1;
    }
    Ok(out)
}

/// Reads one field or method record.
fn read_member<'a>(
    stream: &mut ByteStream<'a>,
    ctx: &ReaderContext,
    pool: &Vec<ConstantPool>,
) -> (r: Result<MemberInfo, VmError>)
    ensures
        final(stream).data == old(stream).data,
        r matches Err(e) ==> !(e is BadMagic),
{
    let access_flags = match stream.read::<u16>(ctx) {
        Ok(v) => v,
        Err(e) => {
            return Err(e);
        },
    };
    let name_index = match stream.read::<u16>(ctx) {
        Ok(v) => v,
        Err(e) => {
            return Err(e);
        },
    };
    let descriptor_index = match stream.read::<u16>(ctx) {
        Ok(v) => v,
        Err(e) => {
            return Err(e);
        },
    };
    let attributes = match read_attributes(stream, ctx, pool) {
        Ok(v) => v,
        Err(e) => {
            return Err(e);
        },
    };
    Ok(MemberInfo { access_flags, name_index, descriptor_index, attributes })
}

impl ClassFile {
    /// Decodes a whole class file from the stream, in on-disk order:
    /// magic, versions, constant pool, access flags, this/super class,
    /// interfaces, fields, methods, attributes.
    #[verifier::loop_isolation(false)]
    pub fn read<'a>(stream: &mut ByteStream<'a>) -> (r: Result<ClassFile, VmError>)
        ensures
            final(stream).data == old(stream).data,
            r matches Ok(cf) ==> {
                &&& cf.magic == 0xCAFEBABE_u32
                &&& old(stream).index + 10 <= old(stream).data@.len()
                &&& be_u32(old(stream).data@, old(stream).index as int) == 0xCAFEBABE_u32
                &&& cf.minor_version == be_u16(old(stream).data@, old(stream).index + 4)
                &&& cf.major_version == be_u16(old(stream).data@, old(stream).index + 6)
                &&& cf.constant_pool@.len() >= 1
                &&& cf.constant_pool@[0] is Unusable
                &&& be_u16(old(stream).data@, old(stream).index + 8) > 0
                &&& cf.constant_pool@.len() >= be_u16(
                    old(stream).data@,
                    old(stream).index + 8,
                )
            },
            r matches Err(VmError::BadMagic(m)) ==> {
                &&& old(stream).index + 4 <= old(stream).data@.len()
                &&& m == be_u32(old(stream).data@, old(stream).index as int)
                &&& m != 0xCAFEBABE_u32
            },
            (old(stream).index + 4 <= old(stream).data@.len() && be_u32(
                old(stream).data@,
                old(stream).index as int,
            ) != 0xCAFEBABE_u32) ==> r == Err::<ClassFile, VmError>(
                VmError::BadMagic(be_u32(old(stream).data@, old(stream).index as int)),
            ),
            old(stream).index + 4 > old(stream).data@.len() ==> r == Err::<ClassFile, VmError>(
                VmError::TruncatedClassFile,
            ),
    {
        let ctx = ReaderContext { constant_pool: Vec::new() };
        let magic = match stream.read::<u32>(&ctx) {
            Ok(v) => v,
            Err(e) => {
                return Err(e);
            },
        };
        if magic != 0xCAFEBABE {
            return Err(VmError::BadMagic(magic));
        }
        let minor_version = match stream.read::<u16>(&ctx) {
            Ok(v) => v,
            Err(e) => {
                return Err(e);
            },
        };
        let major_version = match stream.read::<u16>(&ctx) {
            Ok(v) => v,
            Err(e) => {
                return Err(e);
            },
        };
        let constant_pool = match read_constant_pool(stream, &ctx) {
            Ok(v) => v,
            Err(e) => {
                return Err(e);
            },
        };
        let access_flags = match stream.read::<u16>(&ctx) {
            Ok(v) => v,
            Err(e) => {
                return Err(e);
            },
        };
        let this_class = match stream.read::<u16>(&ctx) {
            Ok(v) => v,
            Err(e) => {
                return Err(e);
            },
        };
        let super_class = match stream.read::<u16>(&ctx) {
            Ok(v) => v,
            Err(e) => {
                return Err(e);
            },
        };
        let interface_count = match stream.read::<u16>(&ctx) {
            Ok(v) => v,
            Err(e) => {
                return Err(e);
            },
        };
        let interfaces = match stream.read_many::<u16>(interface_count as usize, &ctx) {
            Ok(v) => v,
            Err(e) => {
                return Err(e);
            },
        };
        let field_count = match stream.read::<u16>(&ctx) {
            Ok(v) => v,
            Err(e) => {
                return Err(e);
            },
        };
        let mut fields: Vec<MemberInfo> = Vec::new();
        let mut k: usize = 0;
        while k < field_count as usize
            invariant
                stream.data == old(stream).data,
            decreases field_count as int - k,
        {
            match read_member(stream, &ctx, &constant_pool) {
                Ok(m) => fields.push(m),
                Err(e) => {
                    return Err(e);
                },
            }
            k = k + 1;
        }
        let method_count = match stream.read::<u16>(&ctx) {
            Ok(v) => v,
            Err(e) => {
                return Err(e);
            },
        };
        let mut methods: Vec<MemberInfo> = Vec::new();
        k = 0;
        while k < method_count as usize
            invariant
                stream.data == old(stream).data,
            decreases method_count as int - k,
        {
            match read_member(stream, &ctx, &constant_pool) {
                Ok(m) => methods.push(m),
                Err(e) => {
                    return Err(e);
                },
            }
            k = k + 1;
        }
        let attributes = match read_attributes(stream, &ctx, &constant_pool) {
            Ok(v) => v,
            Err(e) => {
                return Err(e);
            },
        };
        Ok(
            ClassFile {
                magic,
                minor_version,
                major_version,
                constant_pool,
                access_flags,
                this_class,
                super_class,
                interfaces,
                fields,
                methods,
                attributes,
            },
        )
    }
}

/// `index` narrowed to the width a pool index is reported at in errors.
fn trunc_u16(index: usize) -> (r: u16)
    ensures
        index <= u16::MAX ==> r == index,
{
    if index <= 0xFFFF {
        index as u16
    } else {
        0xFFFF
    }
}

} // verus!
