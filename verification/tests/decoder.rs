//! Class-file decoding from raw bytes.

use jvm_core::byte_stream::ByteStream;
use jvm_core::classfile::{AttrInfo, ClassFile, ConstantPool};
use jvm_core::error::VmError;

fn push_u16(out: &mut Vec<u8>, v: u16) {
    out.push((v >> 8) as u8);
    out.push(v as u8);
}

fn push_u32(out: &mut Vec<u8>, v: u32) {
    out.push((v >> 24) as u8);
    out.push((v >> 16) as u8);
    out.push((v >> 8) as u8);
    out.push(v as u8);
}

fn push_utf8(out: &mut Vec<u8>, s: &str) {
    out.push(1);
    push_u16(out, s.len() as u16);
    out.extend(s.as_bytes());
}

/// A minimal class `Test` with one method `m ()V` whose `Code` attribute
/// holds `code`.
fn class_bytes(code: &[u8]) -> Vec<u8> {
    let mut b: Vec<u8> = Vec::new();
    push_u32(&mut b, 0xCAFEBABE);
    push_u16(&mut b, 0); // minor
    push_u16(&mut b, 52); // major
    push_u16(&mut b, 7); // cp_count: six usable entries
    push_utf8(&mut b, "Test"); // 1
    b.push(7); // 2: Class { name_index: 1 }
    push_u16(&mut b, 1);
    push_utf8(&mut b, "m"); // 3
    push_utf8(&mut b, "()V"); // 4
    push_utf8(&mut b, "Code"); // 5
    b.push(5); // 6: Long (occupies two slots, so cp_count is 7)
    push_u32(&mut b, 0);
    push_u32(&mut b, 99);
    push_u16(&mut b, 0); // access flags
    push_u16(&mut b, 2); // this_class
    push_u16(&mut b, 0); // super_class
    push_u16(&mut b, 0); // interfaces
    push_u16(&mut b, 0); // fields
    push_u16(&mut b, 1); // methods
    push_u16(&mut b, 0); // access
    push_u16(&mut b, 3); // name m
    push_u16(&mut b, 4); // descriptor ()V
    push_u16(&mut b, 1); // one attribute
    push_u16(&mut b, 5); // name: Code
    let mut payload: Vec<u8> = Vec::new();
    push_u16(&mut payload, 11); // max_stack
    push_u16(&mut payload, 2); // max_locals
    push_u32(&mut payload, code.len() as u32);
    payload.extend(code);
    push_u16(&mut payload, 0); // exception table
    push_u16(&mut payload, 0); // nested attributes
    push_u32(&mut b, payload.len() as u32);
    b.extend(&payload);
    push_u16(&mut b, 0); // class attributes
    b
}

#[test]
fn decodes_a_whole_class_file() {
    let code = vec![0x03u8, 0xac];
    let bytes = class_bytes(&code);
    let mut stream = ByteStream::new(&bytes);
    let cf = ClassFile::read(&mut stream).unwrap();
    assert_eq!(cf.magic, 0xCAFEBABE);
    assert_eq!(cf.major_version, 52);
    assert_eq!(cf.this_class, 2);
    assert_eq!(cf.constant_pool.len(), 8);
    assert!(matches!(&cf.constant_pool[0], ConstantPool::Unusable));
    assert!(matches!(&cf.constant_pool[6], ConstantPool::Long(99)));
    assert!(matches!(&cf.constant_pool[7], ConstantPool::Unusable));
    assert_eq!(cf.class_name().unwrap(), "Test");
    assert_eq!(cf.methods.len(), 1);
    let m = &cf.methods[0];
    match &m.attributes[0].info {
        AttrInfo::Code(c) => {
            assert_eq!(c.max_stack, 11);
            assert_eq!(c.max_locals, 2);
            assert_eq!(c.instructions, code);
        },
        AttrInfo::Raw(_) => panic!("the Code attribute was not re-parsed"),
    }
}

#[test]
fn rejects_a_wrong_magic_number() {
    let mut bytes = class_bytes(&[0xb1]);
    bytes[0] = 0xCA;
    bytes[1] = 0xFE;
    bytes[2] = 0xBA;
    bytes[3] = 0xBF;
    let mut stream = ByteStream::new(&bytes);
    assert!(matches!(ClassFile::read(&mut stream), Err(VmError::BadMagic(0xCAFEBABF))));
}

#[test]
fn rejects_a_truncated_file() {
    let bytes = class_bytes(&[0xb1]);
    let cut = &bytes[..bytes.len() - 6];
    let mut stream = ByteStream::new(cut);
    assert!(matches!(ClassFile::read(&mut stream), Err(VmError::TruncatedClassFile)));
}

#[test]
fn big_endian_reads_combine_bytes() {
    let data = vec![0x12u8, 0x34, 0x56, 0x78, 0x9a, 0xbc, 0xde, 0xf0];
    let ctx = jvm_core::byte_stream::ReaderContext { constant_pool: vec![] };
    let mut stream = ByteStream::new(&data);
    let v: u16 = stream.read(&ctx).unwrap();
    assert_eq!(v, 0x1234);
    stream.reset();
    let v: u32 = stream.read(&ctx).unwrap();
    assert_eq!(v, 0x12345678);
    stream.reset();
    let v: u64 = stream.read(&ctx).unwrap();
    assert_eq!(v, 0x123456789abcdef0);
    stream.reset();
    let v: i16 = stream.read(&ctx).unwrap();
    assert_eq!(v, 0x1234);
    assert!(stream.has_next());
}

#[test]
fn reads_past_the_end_fail() {
    let data = vec![0x12u8];
    let ctx = jvm_core::byte_stream::ReaderContext { constant_pool: vec![] };
    let mut stream = ByteStream::new(&data);
    let r: Result<u32, VmError> = stream.read(&ctx);
    assert!(matches!(r, Err(VmError::TruncatedClassFile)));
}

#[test]
fn table_lookup_after_insert() {
    let mut t: jvm_core::table::Table<u32> = jvm_core::table::Table::new();
    assert!(!t.contains_key(&"a".to_string()));
    t.insert("a".to_string(), 1);
    t.insert("b".to_string(), 2);
    t.insert("a".to_string(), 3);
    assert_eq!(t.get(&"a".to_string()), Some(&3));
    assert_eq!(t.get(&"b".to_string()), Some(&2));
    assert_eq!(t.get(&"c".to_string()), None);
    assert_eq!(t.len(), 2);
}
