//! Descriptor parsing and serialization.

use jvm_core::error::VmError;
use jvm_core::instructions::Instruction;
use jvm_core::value::{Type, TypeKind};

#[test]
fn test_parse_sig() {
    let signature = "(I,Z,B)V";
    let (params, ty) = Type::parse_signature(signature).unwrap();
    assert_eq!(params, vec![Type::integer(), Type::boolean(), Type::byte()]);
    assert_eq!(ty, None);
}

#[test]
fn parse_sig_without_commas() {
    let (params, ty) = Type::parse_signature("(IZB)V").unwrap();
    assert_eq!(params, vec![Type::integer(), Type::boolean(), Type::byte()]);
    assert_eq!(ty, None);
}

#[test]
fn parse_sig_class_and_return() {
    let (params, ret) = Type::parse_signature("(Ljava/lang/String;J)I").unwrap();
    assert_eq!(
        params,
        vec![
            Type { array_dimensions: 0, kind: TypeKind::Class("java/lang/String".to_string()) },
            Type::long()
        ]
    );
    assert_eq!(ret, Some(Type::integer()));
}

#[test]
fn parse_sig_empty_params() {
    let (params, ret) = Type::parse_signature("()I").unwrap();
    assert_eq!(params, vec![]);
    assert_eq!(ret, Some(Type::integer()));
}

#[test]
fn parse_sig_rejects_missing_paren() {
    assert!(matches!(Type::parse_signature("I)V"), Err(VmError::BadDescriptor(_))));
    assert!(matches!(Type::parse_signature(""), Err(VmError::BadDescriptor(_))));
    assert!(matches!(Type::parse_signature("(I"), Err(VmError::BadDescriptor(_))));
}

#[test]
fn parse_sig_rejects_bad_letter() {
    assert!(matches!(Type::parse_signature("(X)V"), Err(VmError::BadDescriptor(_))));
}

#[test]
fn from_descriptor_parses_arrays_and_classes() {
    let t = Type::from_descriptor("[[I").unwrap();
    assert_eq!(t, Type { array_dimensions: 2, kind: TypeKind::Int });
    let t = Type::from_descriptor("Ljava/lang/Object;").unwrap();
    assert_eq!(t, Type { array_dimensions: 0, kind: TypeKind::Class("java/lang/Object".to_string()) });
    assert!(matches!(Type::from_descriptor("Lunterminated"), Err(VmError::BadDescriptor(_))));
    assert!(matches!(Type::from_descriptor(""), Err(VmError::BadDescriptor(_))));
}

#[test]
fn descriptor_round_trip() {
    let samples = vec![
        Type::boolean(),
        Type::byte(),
        Type::char(),
        Type::short(),
        Type::integer(),
        Type::long(),
        Type { array_dimensions: 3, kind: TypeKind::Double },
        Type { array_dimensions: 0, kind: TypeKind::Class("Test/Main".to_string()) },
        Type { array_dimensions: 2, kind: TypeKind::Class("java/lang/String".to_string()) },
    ];
    for t in samples {
        let s = t.to_descriptor();
        let back = Type::from_descriptor(s.as_str()).unwrap();
        assert_eq!(back, t);
    }
}

#[test]
fn formatter_prints_header_and_mnemonics() {
    let code: Vec<u8> = vec![0x06, 0x07, 0x60, 0xac];
    let out = jvm_core::instructions::format_instructions(&code);
    assert!(out.starts_with("Instructions:\n"));
    assert!(out.contains("IAdd"));
    assert!(out.contains("IReturn"));
}

#[test]
fn decode_rejects_unknown_opcode() {
    assert!(jvm_core::instructions::Instruction::decode(0xff).is_none());
    assert!(matches!(
        jvm_core::instructions::Instruction::decode(0x60),
        Some(jvm_core::instructions::Instruction::IAdd)
    ));
}

#[test]
fn operand_sizes_follow_the_table() {
    assert_eq!(Instruction::BiPush.operands_size(), 1);
    assert_eq!(Instruction::SiPush.operands_size(), 2);
    assert_eq!(Instruction::Goto.operands_size(), 2);
    assert_eq!(Instruction::GotoW.operands_size(), 4);
    assert_eq!(Instruction::IAdd.operands_size(), 0);
    assert_eq!(Instruction::InvokeStatic.operands_size(), 2);
}
