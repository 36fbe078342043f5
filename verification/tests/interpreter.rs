//! End-to-end interpreter scenarios over fabricated class files.

use jvm_core::classfile::{AttrInfo, Attribute, ClassFile, CodeAttribute, ConstantPool, MemberInfo};
use jvm_core::error::FatalKind;
use jvm_core::host::{FloatBinOp, FloatOrder, VmHost};
use jvm_core::runtime::Runtime;
use jvm_core::thread::WarningKind;
use jvm_core::value::Value;

/// A host that records native calls and computes floats with the machine's
/// own IEEE-754 arithmetic.
struct TestHost {
    calls: Vec<(String, String, Vec<Value>)>,
    native_result: Option<Value>,
}

impl TestHost {
    fn new() -> TestHost {
        TestHost { calls: Vec::new(), native_result: None }
    }
}

impl VmHost for TestHost {
    fn invoke_native(
        &mut self,
        class_name: &String,
        method_name: &String,
        params: &Vec<Value>,
    ) -> Option<Value> {
        self.calls.push((class_name.clone(), method_name.clone(), params.clone()));
        self.native_result
    }

    fn f32_bin(&mut self, op: FloatBinOp, a: u32, b: u32) -> u32 {
        let (x, y) = (f32::from_bits(a), f32::from_bits(b));
        let r = match op {
            FloatBinOp::Add => x + y,
            FloatBinOp::Sub => x - y,
            FloatBinOp::Mul => x * y,
            FloatBinOp::Div => x / y,
            FloatBinOp::Rem => x % y,
        };
        r.to_bits()
    }

    fn f64_bin(&mut self, op: FloatBinOp, a: u64, b: u64) -> u64 {
        let (x, y) = (f64::from_bits(a), f64::from_bits(b));
        let r = match op {
            FloatBinOp::Add => x + y,
            FloatBinOp::Sub => x - y,
            FloatBinOp::Mul => x * y,
            FloatBinOp::Div => x / y,
            FloatBinOp::Rem => x % y,
        };
        r.to_bits()
    }

    fn f32_neg(&mut self, a: u32) -> u32 {
        (-f32::from_bits(a)).to_bits()
    }

    fn f64_neg(&mut self, a: u64) -> u64 {
        (-f64::from_bits(a)).to_bits()
    }

    fn f32_cmp(&mut self, a: u32, b: u32) -> FloatOrder {
        let (x, y) = (f32::from_bits(a), f32::from_bits(b));
        if x < y {
            FloatOrder::Less
        } else if x == y {
            FloatOrder::Equal
        } else if x > y {
            FloatOrder::Greater
        } else {
            FloatOrder::Unordered
        }
    }

    fn f64_cmp(&mut self, a: u64, b: u64) -> FloatOrder {
        let (x, y) = (f64::from_bits(a), f64::from_bits(b));
        if x < y {
            FloatOrder::Less
        } else if x == y {
            FloatOrder::Equal
        } else if x > y {
            FloatOrder::Greater
        } else {
            FloatOrder::Unordered
        }
    }

    fn f32_from_i32(&mut self, v: i32) -> u32 {
        (v as f32).to_bits()
    }

    fn f32_from_i64(&mut self, v: i64) -> u32 {
        (v as f32).to_bits()
    }

    fn f64_from_i32(&mut self, v: i32) -> u64 {
        (v as f64).to_bits()
    }

    fn f64_from_i64(&mut self, v: i64) -> u64 {
        (v as f64).to_bits()
    }

    fn i32_from_f32(&mut self, bits: u32) -> i32 {
        f32::from_bits(bits) as i32
    }

    fn i64_from_f32(&mut self, bits: u32) -> i64 {
        f32::from_bits(bits) as i64
    }

    fn i32_from_f64(&mut self, bits: u64) -> i32 {
        f64::from_bits(bits) as i32
    }

    fn i64_from_f64(&mut self, bits: u64) -> i64 {
        f64::from_bits(bits) as i64
    }

    fn f64_from_f32(&mut self, bits: u32) -> u64 {
        (f32::from_bits(bits) as f64).to_bits()
    }

    fn f32_from_f64(&mut self, bits: u64) -> u32 {
        (f64::from_bits(bits) as f32).to_bits()
    }
}

fn java_method(name_index: u16, descriptor_index: u16, code: Vec<u8>) -> MemberInfo {
    MemberInfo {
        access_flags: 0,
        name_index,
        descriptor_index,
        attributes: vec![Attribute {
            name_index: 0,
            info: AttrInfo::Code(CodeAttribute {
                max_stack: 16,
                max_locals: 16,
                instructions: code,
                exception_table: vec![],
                attributes: vec![],
            }),
        }],
    }
}

/// A class `Test/Main` with one `main ()I` method holding `code`.
fn main_only_class(code: Vec<u8>) -> ClassFile {
    ClassFile {
        magic: 0xCAFEBABE,
        minor_version: 0,
        major_version: 52,
        constant_pool: vec![
            ConstantPool::Unusable,
            ConstantPool::Class { name_index: 2 },
            ConstantPool::Utf8("Test/Main".to_string()),
            ConstantPool::Utf8("main".to_string()),
            ConstantPool::Utf8("()I".to_string()),
        ],
        access_flags: 0,
        this_class: 1,
        super_class: 0,
        interfaces: vec![],
        fields: vec![],
        methods: vec![java_method(3, 4, code)],
        attributes: vec![],
    }
}

fn run_main(code: Vec<u8>) -> (Result<usize, jvm_core::error::Fatal>, jvm_core::thread::Thread) {
    let rt = Runtime::new(vec![main_only_class(code)]).unwrap();
    let mut host = TestHost::new();
    Runtime::start(rt, &"Test/Main".to_string(), &mut host)
}

#[test]
fn iadd_returns_seven() {
    // iconst_3; iconst_4; iadd; ireturn
    let (result, thread) = run_main(vec![0x06, 0x07, 0x60, 0xac]);
    assert_eq!(result, Ok(0));
    assert_eq!(thread.stack, vec![Value::Int(7)]);
    assert_eq!(thread.warnings, vec![]);
}

#[test]
fn ishl_sign_extends() {
    // iconst_m1; iconst_2; ishl; ireturn
    let (result, thread) = run_main(vec![0x02, 0x05, 0x78, 0xac]);
    assert_eq!(result, Ok(0));
    assert_eq!(thread.stack, vec![Value::Int(-4)]);
}

#[test]
fn if_icmpgt_takes_the_branch() {
    // iconst_5; iconst_3; if_icmpgt +6; iconst_0; ireturn; nop; iconst_1;
    // ireturn — the +6 from the branch's own address lands on iconst_1.
    let (result, thread) = run_main(vec![
        0x08, 0x06, 0xa3, 0x00, 0x06, 0x03, 0xac, 0x00, 0x04, 0xac,
    ]);
    assert_eq!(result, Ok(0));
    assert_eq!(thread.stack, vec![Value::Int(1)]);
}

#[test]
fn iadd_wraps_and_warns() {
    // Build INT_MAX as (-1 >>> 1), add 1: wraps to INT_MIN with a warning.
    let (result, thread) = run_main(vec![0x02, 0x04, 0x7c, 0x04, 0x60, 0xac]);
    assert_eq!(result, Ok(0));
    assert_eq!(thread.stack, vec![Value::Int(i32::MIN)]);
    assert_eq!(
        thread.warnings,
        vec![jvm_core::thread::Warning { pc: 4, kind: WarningKind::ArithmeticWrap }]
    );
}

#[test]
fn oversized_shift_masks_and_warns() {
    // iconst_1; bipush 33; ishl; ireturn — 1 << 33 == 1 << (33 & 0x1F) == 2.
    let (result, thread) = run_main(vec![0x04, 0x10, 0x21, 0x78, 0xac]);
    assert_eq!(result, Ok(0));
    assert_eq!(thread.stack, vec![Value::Int(2)]);
    assert_eq!(
        thread.warnings,
        vec![jvm_core::thread::Warning { pc: 3, kind: WarningKind::OversizedShift }]
    );
}

#[test]
fn ldiv_by_zero_is_fatal_and_names_the_pc() {
    // lconst_1; lconst_0; ldiv
    let (result, _thread) = run_main(vec![0x0a, 0x09, 0x6d, 0xad]);
    let fatal = result.unwrap_err();
    assert_eq!(fatal.kind, FatalKind::DivisionByZero);
    assert_eq!(fatal.pc, 2);
    assert_eq!(fatal.opcode, 0x6d);
}

#[test]
fn cross_type_pop_is_fatal() {
    // lconst_0; iconst_1; iadd — iadd meets a Long under an Int.
    let (result, _thread) = run_main(vec![0x09, 0x04, 0x60, 0xac]);
    let fatal = result.unwrap_err();
    assert_eq!(fatal.kind, FatalKind::TypeMismatch);
    assert_eq!(fatal.pc, 2);
}

#[test]
fn locals_and_iinc() {
    // bipush 5; istore_1; iinc 1, -2; iload_1; ireturn
    let (result, thread) = run_main(vec![0x10, 0x05, 0x3c, 0x84, 0x01, 0xfe, 0x1b, 0xac]);
    assert_eq!(result, Ok(0));
    assert_eq!(thread.stack, vec![Value::Int(3)]);
}

#[test]
fn long_arithmetic_and_lcmp() {
    // lconst_1; lconst_1; ladd; lconst_1; lcmp; ireturn — 2 cmp 1 == 1
    let (result, thread) = run_main(vec![0x0a, 0x0a, 0x61, 0x0a, 0x94, 0xac]);
    assert_eq!(result, Ok(0));
    assert_eq!(thread.stack, vec![Value::Int(1)]);
}

#[test]
fn float_add_through_host() {
    // fconst_1; fconst_2; fadd; freturn — bit pattern of 3.0f.
    let (result, thread) = run_main(vec![0x0c, 0x0d, 0x62, 0xae]);
    assert_eq!(result, Ok(0));
    assert_eq!(thread.stack, vec![Value::Float(3.0f32.to_bits())]);
}

#[test]
fn dup_and_swap() {
    // iconst_2; iconst_3; swap; isub; ireturn — 3 - 2 == 1
    let (result, thread) = run_main(vec![0x05, 0x06, 0x5f, 0x64, 0xac]);
    assert_eq!(result, Ok(0));
    assert_eq!(thread.stack, vec![Value::Int(1)]);
}

#[test]
fn conversions_narrow_and_widen() {
    // sipush 0x1234; i2b; ireturn — low byte 0x34 as Byte.
    let (result, thread) = run_main(vec![0x11, 0x12, 0x34, 0x91, 0xac]);
    // i2b leaves a Byte on the stack; ireturn then rejects it.
    let fatal = result.unwrap_err();
    assert_eq!(fatal.kind, FatalKind::TypeMismatch);
    assert_eq!(thread.stack.last(), Some(&Value::Byte(0x34)));
}

#[test]
fn dup2_x2_duplicates_only_the_wide_value() {
    // iconst_1; iconst_2; lconst_1; dup2_x2 — the long is inserted below
    // the two ints: [1L, 1, 2, 1L]. Consuming exactly those four leaves
    // the stack empty, so the following pop underflows at pc 8.
    let (result, _thread) = run_main(vec![
        0x04, 0x05, 0x0a, 0x5e, 0x58, 0x57, 0x57, 0x58, 0x57, 0xac,
    ]);
    let fatal = result.unwrap_err();
    assert_eq!(fatal.kind, FatalKind::StackUnderflow);
    assert_eq!(fatal.pc, 8);
}

#[test]
fn unsupported_opcode_is_fatal() {
    let (result, _thread) = run_main(vec![0xbe]);
    let fatal = result.unwrap_err();
    assert_eq!(fatal.kind, FatalKind::UnsupportedOpcode);
    assert_eq!(fatal.opcode, 0xbe);
}

#[test]
fn branch_out_of_range_is_fatal() {
    // goto -10
    let (result, _thread) = run_main(vec![0xa7, 0xff, 0xf6]);
    let fatal = result.unwrap_err();
    assert_eq!(fatal.kind, FatalKind::PcOutOfRange);
}

/// The class of the static-field and invocation scenarios: a static `X:I`,
/// a `<clinit>` that stores 42 into it, a `main` that reads it back, and a
/// native method `out (I)V`.
fn statics_class(main_code: Vec<u8>, clinit_code: Option<Vec<u8>>) -> ClassFile {
    let mut methods = vec![java_method(7, 8, main_code)];
    if let Some(code) = clinit_code {
        methods.push(java_method(9, 10, code));
    }
    // A native method record: no Code attribute.
    methods.push(MemberInfo {
        access_flags: 0x0100,
        name_index: 11,
        descriptor_index: 12,
        attributes: vec![],
    });
    ClassFile {
        magic: 0xCAFEBABE,
        minor_version: 0,
        major_version: 52,
        constant_pool: vec![
            ConstantPool::Unusable,
            ConstantPool::Class { name_index: 2 },
            ConstantPool::Utf8("Test/Main".to_string()),
            ConstantPool::FieldRef { class_index: 1, name_and_type_index: 4 },
            ConstantPool::NameAndType { name_index: 5, descriptor_index: 6 },
            ConstantPool::Utf8("X".to_string()),
            ConstantPool::Utf8("I".to_string()),
            ConstantPool::Utf8("main".to_string()),
            ConstantPool::Utf8("()I".to_string()),
            ConstantPool::Utf8("<clinit>".to_string()),
            ConstantPool::Utf8("()V".to_string()),
            ConstantPool::Utf8("out".to_string()),
            ConstantPool::Utf8("(I)V".to_string()),
            ConstantPool::MethodRef { class_index: 1, name_and_type_index: 14 },
            ConstantPool::NameAndType { name_index: 11, descriptor_index: 12 },
        ],
        access_flags: 0,
        this_class: 1,
        super_class: 0,
        interfaces: vec![],
        fields: vec![MemberInfo {
            access_flags: 0x0008,
            name_index: 5,
            descriptor_index: 6,
            attributes: vec![],
        }],
        methods,
        attributes: vec![],
    }
}

#[test]
fn clinit_runs_once_before_getstatic() {
    // <clinit>: bipush 42; putstatic #3; return
    // main: getstatic #3; ireturn
    let cf = statics_class(
        vec![0xb2, 0x00, 0x03, 0xac],
        Some(vec![0x10, 0x2a, 0xb3, 0x00, 0x03, 0xb1]),
    );
    let rt = Runtime::new(vec![cf]).unwrap();
    let mut host = TestHost::new();
    let (result, thread) = Runtime::start(rt, &"Test/Main".to_string(), &mut host);
    assert_eq!(result, Ok(0));
    assert_eq!(thread.stack, vec![Value::Int(42)]);
    assert!(thread.runtime.is_class_initialized(&"Test/Main".to_string()));
}

#[test]
fn clinit_runs_at_most_once_across_two_static_reads() {
    // <clinit>: bipush 42; putstatic #3; bipush 7; invokestatic #13; return
    // main: getstatic #3; pop; getstatic #3; ireturn
    // The native call inside <clinit> counts its invocations.
    let cf = statics_class(
        vec![0xb2, 0x00, 0x03, 0x57, 0xb2, 0x00, 0x03, 0xac],
        Some(vec![0x10, 0x2a, 0xb3, 0x00, 0x03, 0x10, 0x07, 0xb8, 0x00, 0x0d, 0xb1]),
    );
    let rt = Runtime::new(vec![cf]).unwrap();
    let mut host = TestHost::new();
    let (result, thread) = Runtime::start(rt, &"Test/Main".to_string(), &mut host);
    assert_eq!(result, Ok(0));
    assert_eq!(thread.stack, vec![Value::Int(42)]);
    assert_eq!(host.calls.len(), 1);
}

#[test]
fn putstatic_type_mismatch_is_fatal() {
    // main: lconst_0; putstatic #3 (field is I) — after <clinit>-less init.
    let cf = statics_class(vec![0x09, 0xb3, 0x00, 0x03, 0xb1], None);
    let rt = Runtime::new(vec![cf]).unwrap();
    let mut host = TestHost::new();
    let (result, _thread) = Runtime::start(rt, &"Test/Main".to_string(), &mut host);
    let fatal = result.unwrap_err();
    assert_eq!(fatal.kind, FatalKind::FieldTypeMismatch);
}

#[test]
fn invokestatic_native_observes_parameters() {
    // main: bipush 7; invokestatic #13 (out (I)V); iconst_0; ireturn
    let cf = statics_class(vec![0x10, 0x07, 0xb8, 0x00, 0x0d, 0x03, 0xac], None);
    let rt = Runtime::new(vec![cf]).unwrap();
    let mut host = TestHost::new();
    let (result, thread) = Runtime::start(rt, &"Test/Main".to_string(), &mut host);
    assert_eq!(result, Ok(0));
    assert_eq!(
        host.calls,
        vec![("Test/Main".to_string(), "out".to_string(), vec![Value::Int(7)])]
    );
    // The argument was consumed; only the final iconst_0 remains.
    assert_eq!(thread.stack, vec![Value::Int(0)]);
}

#[test]
fn invokestatic_java_grows_caller_stack_by_return_arity() {
    // main: invokestatic #13 — but redirect the MethodRef name to `main`?
    // Instead: a second Java method `out` is not possible under its (I)V
    // descriptor with a value return, so call a helper class method.
    // Here: main calls itself once? Avoid recursion: use a dedicated class.
    let cf = ClassFile {
        magic: 0xCAFEBABE,
        minor_version: 0,
        major_version: 52,
        constant_pool: vec![
            ConstantPool::Unusable,
            ConstantPool::Class { name_index: 2 },
            ConstantPool::Utf8("Test/Main".to_string()),
            ConstantPool::MethodRef { class_index: 1, name_and_type_index: 4 },
            ConstantPool::NameAndType { name_index: 5, descriptor_index: 6 },
            ConstantPool::Utf8("three".to_string()),
            ConstantPool::Utf8("()I".to_string()),
            ConstantPool::Utf8("main".to_string()),
        ],
        access_flags: 0,
        this_class: 1,
        super_class: 0,
        interfaces: vec![],
        fields: vec![],
        methods: vec![
            // main: invokestatic three; iconst_4; iadd; ireturn
            java_method(7, 6, vec![0xb8, 0x00, 0x03, 0x07, 0x60, 0xac]),
            // three: iconst_3; ireturn
            java_method(5, 6, vec![0x06, 0xac]),
        ],
        attributes: vec![],
    };
    let rt = Runtime::new(vec![cf]).unwrap();
    let mut host = TestHost::new();
    let (result, thread) = Runtime::start(rt, &"Test/Main".to_string(), &mut host);
    assert_eq!(result, Ok(0));
    assert_eq!(thread.stack, vec![Value::Int(7)]);
    assert_eq!(thread.frames.len(), 1);
}

#[test]
fn linked_code_sits_verbatim_in_the_code_region() {
    let main_code = vec![0x06u8, 0x07, 0x60, 0xac];
    let clinit_code = vec![0x10u8, 0x2a, 0xb3, 0x00, 0x03, 0xb1];
    let cf = statics_class(main_code.clone(), Some(clinit_code.clone()));
    let mut rt = Runtime::new(vec![cf]).unwrap();
    rt.link_class(&"Test/Main".to_string()).unwrap();
    let pool = rt.instructions();
    // Methods are linked in declaration order: main, <clinit>, then the
    // code-less native contributes nothing.
    let mut expected = main_code.clone();
    expected.extend(clinit_code.clone());
    assert_eq!(pool, &expected);
}

#[test]
fn missing_class_is_reported() {
    let cf = main_only_class(vec![0xb1]);
    let rt = Runtime::new(vec![cf]).unwrap();
    let mut host = TestHost::new();
    let (result, _thread) = Runtime::start(rt, &"No/Such".to_string(), &mut host);
    let fatal = result.unwrap_err();
    assert!(matches!(
        fatal.kind,
        FatalKind::Resolution(jvm_core::error::VmError::ClassNotFound(_))
    ));
}
