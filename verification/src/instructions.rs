//! The supported opcode set, its decode table, and an instruction-stream
//! formatter.
//!
//! Decoding is a total function from the opcode byte: bytes outside the
//! supported subset decode to nothing and the interpreter reports them as
//! unsupported.

use vstd::prelude::*;
use vstd::string::*;

verus! {

/// One opcode of the supported subset.
#[derive(Debug, Clone, Copy, PartialEq, Eq, Structural)]
pub enum Instruction {
    Nop,
    BiPush,
    SiPush,
    IConstM1,
    IConst0,
    IConst1,
    IConst2,
    IConst3,
    IConst4,
    IConst5,
    ILoad,
    ILoad0,
    ILoad1,
    ILoad2,
    ILoad3,
    IStore,
    IStore0,
    IStore1,
    IStore2,
    IStore3,
    IAdd,
    ISub,
    IMul,
    IDiv,
    IRem,
    INeg,
    IShl,
    IShr,
    IUShr,
    IAnd,
    IOr,
    IXOr,
    IInc,
    I2L,
    I2F,
    I2D,
    I2B,
    I2C,
    I2S,
    LConst0,
    LConst1,
    LLoad,
    LLoad0,
    LLoad1,
    LLoad2,
    LLoad3,
    LStore,
    LStore0,
    LStore1,
    LStore2,
    LStore3,
    LAdd,
    LSub,
    LMul,
    LDiv,
    LRem,
    LNeg,
    LShl,
    LShr,
    LUShr,
    LAnd,
    LOr,
    LXOr,
    L2I,
    L2F,
    L2D,
    FConst0,
    FConst1,
    FConst2,
    FLoad,
    FLoad0,
    FLoad1,
    FLoad2,
    FLoad3,
    FStore,
    FStore0,
    FStore1,
    FStore2,
    FStore3,
    FAdd,
    FSub,
    FMul,
    FDiv,
    FRem,
    FNeg,
    F2L,
    F2I,
    F2D,
    DConst0,
    DConst1,
    DLoad,
    DLoad0,
    DLoad1,
    DLoad2,
    DLoad3,
    DStore,
    DStore0,
    DStore1,
    DStore2,
    DStore3,
    DAdd,
    DSub,
    DMul,
    DDiv,
    DRem,
    DNeg,
    D2L,
    D2I,
    D2F,
    Dup,
    DupX1,
    DupX2,
    Dup2,
    Dup2X1,
    Dup2X2,
    Goto,
    GotoW,
    ICmpEq,
    ICmpNe,
    ICmpLt,
    ICmpGe,
    ICmpGt,
    ICmpLe,
    LCmp,
    FCmpl,
    FCmpg,
    DCmpl,
    DCmpg,
    IEq,
    INe,
    ILt,
    IGe,
    IGt,
    ILe,
    IfNull,
    IfNotNull,
    Return,
    AReturn,
    IReturn,
    LReturn,
    FReturn,
    DReturn,
    Pop,
    Pop2,
    Swap,
    ALoad,
    ALoad0,
    ALoad1,
    ALoad2,
    ALoad3,
    AStore,
    AStore0,
    AStore1,
    AStore2,
    AStore3,
    CALoad,
    BALoad,
    SALoad,
    IALoad,
    LALoad,
    FALoad,
    DALoad,
    CAStore,
    BAStore,
    SAStore,
    IAStore,
    LAStore,
    FAStore,
    DAStore,
    NewArray,
    ArrayLength,
    GetStatic,
    PutStatic,
    InvokeStatic,
    InvokeSpecial,
}

/// The decode table: which instruction, if any, an opcode byte names.
pub open spec fn spec_decode(op: u8) -> Option<Instruction> {
    if op == 0x0 {
        Some(Instruction::Nop)
    } else if op == 0x10 {
        Some(Instruction::BiPush)
    } else if op == 0x11 {
        Some(Instruction::SiPush)
    } else if op == 0x2 {
        Some(Instruction::IConstM1)
    } else if op == 0x3 {
        Some(Instruction::IConst0)
    } else if op == 0x4 {
        Some(Instruction::IConst1)
    } else if op == 0x5 {
        Some(Instruction::IConst2)
    } else if op == 0x6 {
        Some(Instruction::IConst3)
    } else if op == 0x7 {
        Some(Instruction::IConst4)
    } else if op == 0x8 {
        Some(Instruction::IConst5)
    } else if op == 0x15 {
        Some(Instruction::ILoad)
    } else if op == 0x1a {
        Some(Instruction::ILoad0)
    } else if op == 0x1b {
        Some(Instruction::ILoad1)
    } else if op == 0x1c {
        Some(Instruction::ILoad2)
    } else if op == 0x1d {
        Some(Instruction::ILoad3)
    } else if op == 0x36 {
        Some(Instruction::IStore)
    } else if op == 0x3b {
        Some(Instruction::IStore0)
    } else if op == 0x3c {
        Some(Instruction::IStore1)
    } else if op == 0x3d {
        Some(Instruction::IStore2)
    } else if op == 0x3e {
        Some(Instruction::IStore3)
    } else if op == 0x60 {
        Some(Instruction::IAdd)
    } else if op == 0x64 {
        Some(Instruction::ISub)
    } else if op == 0x68 {
        Some(Instruction::IMul)
    } else if op == 0x6c {
        Some(Instruction::IDiv)
    } else if op == 0x70 {
        Some(Instruction::IRem)
    } else if op == 0x74 {
        Some(Instruction::INeg)
    } else if op == 0x78 {
        Some(Instruction::IShl)
    } else if op == 0x7a {
        Some(Instruction::IShr)
    } else if op == 0x7c {
        Some(Instruction::IUShr)
    } else if op == 0x7e {
        Some(Instruction::IAnd)
    } else if op == 0x80 {
        Some(Instruction::IOr)
    } else if op == 0x82 {
        Some(Instruction::IXOr)
    } else if op == 0x84 {
        Some(Instruction::IInc)
    } else if op == 0x85 {
        Some(Instruction::I2L)
    } else if op == 0x86 {
        Some(Instruction::I2F)
    } else if op == 0x87 {
        Some(Instruction::I2D)
    } else if op == 0x91 {
        Some(Instruction::I2B)
    } else if op == 0x92 {
        Some(Instruction::I2C)
    } else if op == 0x93 {
        Some(Instruction::I2S)
    } else if op == 0x9 {
        Some(Instruction::LConst0)
    } else if op == 0xa {
        Some(Instruction::LConst1)
    } else if op == 0x16 {
        Some(Instruction::LLoad)
    } else if op == 0x1e {
        Some(Instruction::LLoad0)
    } else if op == 0x1f {
        Some(Instruction::LLoad1)
    } else if op == 0x20 {
        Some(Instruction::LLoad2)
    } else if op == 0x21 {
        Some(Instruction::LLoad3)
    } else if op == 0x37 {
        Some(Instruction::LStore)
    } else if op == 0x3f {
        Some(Instruction::LStore0)
    } else if op == 0x40 {
        Some(Instruction::LStore1)
    } else if op == 0x41 {
        Some(Instruction::LStore2)
    } else if op == 0x42 {
        Some(Instruction::LStore3)
    } else if op == 0x61 {
        Some(Instruction::LAdd)
    } else if op == 0x65 {
        Some(Instruction::LSub)
    } else if op == 0x69 {
        Some(Instruction::LMul)
    } else if op == 0x6d {
        Some(Instruction::LDiv)
    } else if op == 0x71 {
        Some(Instruction::LRem)
    } else if op == 0x75 {
        Some(Instruction::LNeg)
    } else if op == 0x79 {
        Some(Instruction::LShl)
    } else if op == 0x7b {
        Some(Instruction::LShr)
    } else if op == 0x7d {
        Some(Instruction::LUShr)
    } else if op == 0x7f {
        Some(Instruction::LAnd)
    } else if op == 0x81 {
        Some(Instruction::LOr)
    } else if op == 0x83 {
        Some(Instruction::LXOr)
    } else if op == 0x88 {
        Some(Instruction::L2I)
    } else if op == 0x89 {
        Some(Instruction::L2F)
    } else if op == 0x8a {
        Some(Instruction::L2D)
    } else if op == 0xb {
        Some(Instruction::FConst0)
    } else if op == 0xc {
        Some(Instruction::FConst1)
    } else if op == 0xd {
        Some(Instruction::FConst2)
    } else if op == 0x17 {
        Some(Instruction::FLoad)
    } else if op == 0x22 {
        Some(Instruction::FLoad0)
    } else if op == 0x23 {
        Some(Instruction::FLoad1)
    } else if op == 0x24 {
        Some(Instruction::FLoad2)
    } else if op == 0x25 {
        Some(Instruction::FLoad3)
    } else if op == 0x38 {
        Some(Instruction::FStore)
    } else if op == 0x43 {
        Some(Instruction::FStore0)
    } else if op == 0x44 {
        Some(Instruction::FStore1)
    } else if op == 0x45 {
        Some(Instruction::FStore2)
    } else if op == 0x46 {
        Some(Instruction::FStore3)
    } else if op == 0x62 {
        Some(Instruction::FAdd)
    } else if op == 0x66 {
        Some(Instruction::FSub)
    } else if op == 0x6a {
        Some(Instruction::FMul)
    } else if op == 0x6e {
        Some(Instruction::FDiv)
    } else if op == 0x72 {
        Some(Instruction::FRem)
    } else if op == 0x76 {
        Some(Instruction::FNeg)
    } else if op == 0x8b {
        Some(Instruction::F2L)
    } else if op == 0x8c {
        Some(Instruction::F2I)
    } else if op == 0x8d {
        Some(Instruction::F2D)
    } else if op == 0xe {
        Some(Instruction::DConst0)
    } else if op == 0xf {
        Some(Instruction::DConst1)
    } else if op == 0x18 {
        Some(Instruction::DLoad)
    } else if op == 0x26 {
        Some(Instruction::DLoad0)
    } else if op == 0x27 {
        Some(Instruction::DLoad1)
    } else if op == 0x28 {
        Some(Instruction::DLoad2)
    } else if op == 0x29 {
        Some(Instruction::DLoad3)
    } else if op == 0x39 {
        Some(Instruction::DStore)
    } else if op == 0x47 {
        Some(Instruction::DStore0)
    } else if op == 0x48 {
        Some(Instruction::DStore1)
    } else if op == 0x49 {
        Some(Instruction::DStore2)
    } else if op == 0x4a {
        Some(Instruction::DStore3)
    } else if op == 0x63 {
        Some(Instruction::DAdd)
    } else if op == 0x67 {
        Some(Instruction::DSub)
    } else if op == 0x6b {
        Some(Instruction::DMul)
    } else if op == 0x6f {
        Some(Instruction::DDiv)
    } else if op == 0x73 {
        Some(Instruction::DRem)
    } else if op == 0x77 {
        Some(Instruction::DNeg)
    } else if op == 0x8f {
        Some(Instruction::D2L)
    } else if op == 0x8e {
        Some(Instruction::D2I)
    } else if op == 0x90 {
        Some(Instruction::D2F)
    } else if op == 0x59 {
        Some(Instruction::Dup)
    } else if op == 0x5a {
        Some(Instruction::DupX1)
    } else if op == 0x5b {
        Some(Instruction::DupX2)
    } else if op == 0x5c {
        Some(Instruction::Dup2)
    } else if op == 0x5d {
        Some(Instruction::Dup2X1)
    } else if op == 0x5e {
        Some(Instruction::Dup2X2)
    } else if op == 0xa7 {
        Some(Instruction::Goto)
    } else if op == 0xc8 {
        Some(Instruction::GotoW)
    } else if op == 0x9f {
        Some(Instruction::ICmpEq)
    } else if op == 0xa0 {
        Some(Instruction::ICmpNe)
    } else if op == 0xa1 {
        Some(Instruction::ICmpLt)
    } else if op == 0xa2 {
        Some(Instruction::ICmpGe)
    } else if op == 0xa3 {
        Some(Instruction::ICmpGt)
    } else if op == 0xa4 {
        Some(Instruction::ICmpLe)
    } else if op == 0x94 {
        Some(Instruction::LCmp)
    } else if op == 0x95 {
        Some(Instruction::FCmpl)
    } else if op == 0x96 {
        Some(Instruction::FCmpg)
    } else if op == 0x97 {
        Some(Instruction::DCmpl)
    } else if op == 0x98 {
        Some(Instruction::DCmpg)
    } else if op == 0x99 {
        Some(Instruction::IEq)
    } else if op == 0x9a {
        Some(Instruction::INe)
    } else if op == 0x9b {
        Some(Instruction::ILt)
    } else if op == 0x9c {
        Some(Instruction::IGe)
    } else if op == 0x9d {
        Some(Instruction::IGt)
    } else if op == 0x9e {
        Some(Instruction::ILe)
    } else if op == 0xc6 {
        Some(Instruction::IfNull)
    } else if op == 0xc7 {
        Some(Instruction::IfNotNull)
    } else if op == 0xb1 {
        Some(Instruction::Return)
    } else if op == 0xb0 {
        Some(Instruction::AReturn)
    } else if op == 0xac {
        Some(Instruction::IReturn)
    } else if op == 0xad {
        Some(Instruction::LReturn)
    } else if op == 0xae {
        Some(Instruction::FReturn)
    } else if op == 0xaf {
        Some(Instruction::DReturn)
    } else if op == 0x57 {
        Some(Instruction::Pop)
    } else if op == 0x58 {
        Some(Instruction::Pop2)
    } else if op == 0x5f {
        Some(Instruction::Swap)
    } else if op == 0x19 {
        Some(Instruction::ALoad)
    } else if op == 0x2a {
        Some(Instruction::ALoad0)
    } else if op == 0x2b {
        Some(Instruction::ALoad1)
    } else if op == 0x2c {
        Some(Instruction::ALoad2)
    } else if op == 0x2d {
        Some(Instruction::ALoad3)
    } else if op == 0x3a {
        Some(Instruction::AStore)
    } else if op == 0x4b {
        Some(Instruction::AStore0)
    } else if op == 0x4c {
        Some(Instruction::AStore1)
    } else if op == 0x4d {
        Some(Instruction::AStore2)
    } else if op == 0x4e {
        Some(Instruction::AStore3)
    } else if op == 0x34 {
        Some(Instruction::CALoad)
    } else if op == 0x33 {
        Some(Instruction::BALoad)
    } else if op == 0x35 {
        Some(Instruction::SALoad)
    } else if op == 0x2e {
        Some(Instruction::IALoad)
    } else if op == 0x2f {
        Some(Instruction::LALoad)
    } else if op == 0x30 {
        Some(Instruction::FALoad)
    } else if op == 0x31 {
        Some(Instruction::DALoad)
    } else if op == 0x55 {
        Some(Instruction::CAStore)
    } else if op == 0x54 {
        Some(Instruction::BAStore)
    } else if op == 0x56 {
        Some(Instruction::SAStore)
    } else if op == 0x4f {
        Some(Instruction::IAStore)
    } else if op == 0x50 {
        Some(Instruction::LAStore)
    } else if op == 0x51 {
        Some(Instruction::FAStore)
    } else if op == 0x52 {
        Some(Instruction::DAStore)
    } else if op == 0xbc {
        Some(Instruction::NewArray)
    } else if op == 0xbe {
        Some(Instruction::ArrayLength)
    } else if op == 0xb2 {
        Some(Instruction::GetStatic)
    } else if op == 0xb3 {
        Some(Instruction::PutStatic)
    } else if op == 0xb8 {
        Some(Instruction::InvokeStatic)
    } else if op == 0xb7 {
        Some(Instruction::InvokeSpecial)
    } else {
        None
    }
}

/// Size in bytes of an instruction's operands.
pub open spec fn spec_operands_size(i: Instruction) -> u8 {
    match i {
        Instruction::BiPush => 1,
        Instruction::SiPush => 2,
        Instruction::ILoad => 1,
        Instruction::IStore => 1,
        Instruction::IInc => 2,
        Instruction::LLoad => 1,
        Instruction::LStore => 1,
        Instruction::FLoad => 1,
        Instruction::FStore => 1,
        Instruction::DLoad => 1,
        Instruction::DStore => 1,
        Instruction::Goto => 2,
        Instruction::GotoW => 4,
        Instruction::ICmpEq => 2,
        Instruction::ICmpNe => 2,
        Instruction::ICmpLt => 2,
        Instruction::ICmpGe => 2,
        Instruction::ICmpGt => 2,
        Instruction::ICmpLe => 2,
        Instruction::IEq => 2,
        Instruction::INe => 2,
        Instruction::ILt => 2,
        Instruction::IGe => 2,
        Instruction::IGt => 2,
        Instruction::ILe => 2,
        Instruction::IfNull => 2,
        Instruction::IfNotNull => 2,
        Instruction::ALoad => 1,
        Instruction::AStore => 1,
        Instruction::NewArray => 1,
        Instruction::GetStatic => 2,
        Instruction::PutStatic => 2,
        Instruction::InvokeStatic => 2,
        Instruction::InvokeSpecial => 2,
        _ => 0,
    }
}

impl Instruction {
    /// Decodes one opcode byte; bytes outside the supported subset give
    /// nothing.
    pub fn decode(op: u8) -> (r: Option<Instruction>)
        ensures
            r == spec_decode(op),
    {
        if op == 0x0 {
            Some(Instruction::Nop)
        } else if op == 0x10 {
            Some(Instruction::BiPush)
        } else if op == 0x11 {
            Some(Instruction::SiPush)
        } else if op == 0x2 {
            Some(Instruction::IConstM1)
        } else if op == 0x3 {
            Some(Instruction::IConst0)
        } else if op == 0x4 {
            Some(Instruction::IConst1)
        } else if op == 0x5 {
            Some(Instruction::IConst2)
        } else if op == 0x6 {
            Some(Instruction::IConst3)
        } else if op == 0x7 {
            Some(Instruction::IConst4)
        } else if op == 0x8 {
            Some(Instruction::IConst5)
        } else if op == 0x15 {
            Some(Instruction::ILoad)
        } else if op == 0x1a {
            Some(Instruction::ILoad0)
        } else if op == 0x1b {
            Some(Instruction::ILoad1)
        } else if op == 0x1c {
            Some(Instruction::ILoad2)
        } else if op == 0x1d {
            Some(Instruction::ILoad3)
        } else if op == 0x36 {
            Some(Instruction::IStore)
        } else if op == 0x3b {
            Some(Instruction::IStore0)
        } else if op == 0x3c {
            Some(Instruction::IStore1)
        } else if op == 0x3d {
            Some(Instruction::IStore2)
        } else if op == 0x3e {
            Some(Instruction::IStore3)
        } else if op == 0x60 {
            Some(Instruction::IAdd)
        } else if op == 0x64 {
            Some(Instruction::ISub)
        } else if op == 0x68 {
            Some(Instruction::IMul)
        } else if op == 0x6c {
            Some(Instruction::IDiv)
        } else if op == 0x70 {
            Some(Instruction::IRem)
        } else if op == 0x74 {
            Some(Instruction::INeg)
        } else if op == 0x78 {
            Some(Instruction::IShl)
        } else if op == 0x7a {
            Some(Instruction::IShr)
        } else if op == 0x7c {
            Some(Instruction::IUShr)
        } else if op == 0x7e {
            Some(Instruction::IAnd)
        } else if op == 0x80 {
            Some(Instruction::IOr)
        } else if op == 0x82 {
            Some(Instruction::IXOr)
        } else if op == 0x84 {
            Some(Instruction::IInc)
        } else if op == 0x85 {
            Some(Instruction::I2L)
        } else if op == 0x86 {
            Some(Instruction::I2F)
        } else if op == 0x87 {
            Some(Instruction::I2D)
        } else if op == 0x91 {
            Some(Instruction::I2B)
        } else if op == 0x92 {
            Some(Instruction::I2C)
        } else if op == 0x93 {
            Some(Instruction::I2S)
        } else if op == 0x9 {
            Some(Instruction::LConst0)
        } else if op == 0xa {
            Some(Instruction::LConst1)
        } else if op == 0x16 {
            Some(Instruction::LLoad)
        } else if op == 0x1e {
            Some(Instruction::LLoad0)
        } else if op == 0x1f {
            Some(Instruction::LLoad1)
        } else if op == 0x20 {
            Some(Instruction::LLoad2)
        } else if op == 0x21 {
            Some(Instruction::LLoad3)
        } else if op == 0x37 {
            Some(Instruction::LStore)
        } else if op == 0x3f {
            Some(Instruction::LStore0)
        } else if op == 0x40 {
            Some(Instruction::LStore1)
        } else if op == 0x41 {
            Some(Instruction::LStore2)
        } else if op == 0x42 {
            Some(Instruction::LStore3)
        } else if op == 0x61 {
            Some(Instruction::LAdd)
        } else if op == 0x65 {
            Some(Instruction::LSub)
        } else if op == 0x69 {
            Some(Instruction::LMul)
        } else if op == 0x6d {
            Some(Instruction::LDiv)
        } else if op == 0x71 {
            Some(Instruction::LRem)
        } else if op == 0x75 {
            Some(Instruction::LNeg)
        } else if op == 0x79 {
            Some(Instruction::LShl)
        } else if op == 0x7b {
            Some(Instruction::LShr)
        } else if op == 0x7d {
            Some(Instruction::LUShr)
        } else if op == 0x7f {
            Some(Instruction::LAnd)
        } else if op == 0x81 {
            Some(Instruction::LOr)
        } else if op == 0x83 {
            Some(Instruction::LXOr)
        } else if op == 0x88 {
            Some(Instruction::L2I)
        } else if op == 0x89 {
            Some(Instruction::L2F)
        } else if op == 0x8a {
            Some(Instruction::L2D)
        } else if op == 0xb {
            Some(Instruction::FConst0)
        } else if op == 0xc {
            Some(Instruction::FConst1)
        } else if op == 0xd {
            Some(Instruction::FConst2)
        } else if op == 0x17 {
            Some(Instruction::FLoad)
        } else if op == 0x22 {
            Some(Instruction::FLoad0)
        } else if op == 0x23 {
            Some(Instruction::FLoad1)
        } else if op == 0x24 {
            Some(Instruction::FLoad2)
        } else if op == 0x25 {
            Some(Instruction::FLoad3)
        } else if op == 0x38 {
            Some(Instruction::FStore)
        } else if op == 0x43 {
            Some(Instruction::FStore0)
        } else if op == 0x44 {
            Some(Instruction::FStore1)
        } else if op == 0x45 {
            Some(Instruction::FStore2)
        } else if op == 0x46 {
            Some(Instruction::FStore3)
        } else if op == 0x62 {
            Some(Instruction::FAdd)
        } else if op == 0x66 {
            Some(Instruction::FSub)
        } else if op == 0x6a {
            Some(Instruction::FMul)
        } else if op == 0x6e {
            Some(Instruction::FDiv)
        } else if op == 0x72 {
            Some(Instruction::FRem)
        } else if op == 0x76 {
            Some(Instruction::FNeg)
        } else if op == 0x8b {
            Some(Instruction::F2L)
        } else if op == 0x8c {
            Some(Instruction::F2I)
        } else if op == 0x8d {
            Some(Instruction::F2D)
        } else if op == 0xe {
            Some(Instruction::DConst0)
        } else if op == 0xf {
            Some(Instruction::DConst1)
        } else if op == 0x18 {
            Some(Instruction::DLoad)
        } else if op == 0x26 {
            Some(Instruction::DLoad0)
        } else if op == 0x27 {
            Some(Instruction::DLoad1)
        } else if op == 0x28 {
            Some(Instruction::DLoad2)
        } else if op == 0x29 {
            Some(Instruction::DLoad3)
        } else if op == 0x39 {
            Some(Instruction::DStore)
        } else if op == 0x47 {
            Some(Instruction::DStore0)
        } else if op == 0x48 {
            Some(Instruction::DStore1)
        } else if op == 0x49 {
            Some(Instruction::DStore2)
        } else if op == 0x4a {
            Some(Instruction::DStore3)
        } else if op == 0x63 {
            Some(Instruction::DAdd)
        } else if op == 0x67 {
            Some(Instruction::DSub)
        } else if op == 0x6b {
            Some(Instruction::DMul)
        } else if op == 0x6f {
            Some(Instruction::DDiv)
        } else if op == 0x73 {
            Some(Instruction::DRem)
        } else if op == 0x77 {
            Some(Instruction::DNeg)
        } else if op == 0x8f {
            Some(Instruction::D2L)
        } else if op == 0x8e {
            Some(Instruction::D2I)
        } else if op == 0x90 {
            Some(Instruction::D2F)
        } else if op == 0x59 {
            Some(Instruction::Dup)
        } else if op == 0x5a {
            Some(Instruction::DupX1)
        } else if op == 0x5b {
            Some(Instruction::DupX2)
        } else if op == 0x5c {
            Some(Instruction::Dup2)
        } else if op == 0x5d {
            Some(Instruction::Dup2X1)
        } else if op == 0x5e {
            Some(Instruction::Dup2X2)
        } else if op == 0xa7 {
            Some(Instruction::Goto)
        } else if op == 0xc8 {
            Some(Instruction::GotoW)
        } else if op == 0x9f {
            Some(Instruction::ICmpEq)
        } else if op == 0xa0 {
            Some(Instruction::ICmpNe)
        } else if op == 0xa1 {
            Some(Instruction::ICmpLt)
        } else if op == 0xa2 {
            Some(Instruction::ICmpGe)
        } else if op == 0xa3 {
            Some(Instruction::ICmpGt)
        } else if op == 0xa4 {
            Some(Instruction::ICmpLe)
        } else if op == 0x94 {
            Some(Instruction::LCmp)
        } else if op == 0x95 {
            Some(Instruction::FCmpl)
        } else if op == 0x96 {
            Some(Instruction::FCmpg)
        } else if op == 0x97 {
            Some(Instruction::DCmpl)
        } else if op == 0x98 {
            Some(Instruction::DCmpg)
        } else if op == 0x99 {
            Some(Instruction::IEq)
        } else if op == 0x9a {
            Some(Instruction::INe)
        } else if op == 0x9b {
            Some(Instruction::ILt)
        } else if op == 0x9c {
            Some(Instruction::IGe)
        } else if op == 0x9d {
            Some(Instruction::IGt)
        } else if op == 0x9e {
            Some(Instruction::ILe)
        } else if op == 0xc6 {
            Some(Instruction::IfNull)
        } else if op == 0xc7 {
            Some(Instruction::IfNotNull)
        } else if op == 0xb1 {
            Some(Instruction::Return)
        } else if op == 0xb0 {
            Some(Instruction::AReturn)
        } else if op == 0xac {
            Some(Instruction::IReturn)
        } else if op == 0xad {
            Some(Instruction::LReturn)
        } else if op == 0xae {
            Some(Instruction::FReturn)
        } else if op == 0xaf {
            Some(Instruction::DReturn)
        } else if op == 0x57 {
            Some(Instruction::Pop)
        } else if op == 0x58 {
            Some(Instruction::Pop2)
        } else if op == 0x5f {
            Some(Instruction::Swap)
        } else if op == 0x19 {
            Some(Instruction::ALoad)
        } else if op == 0x2a {
            Some(Instruction::ALoad0)
        } else if op == 0x2b {
            Some(Instruction::ALoad1)
        } else if op == 0x2c {
            Some(Instruction::ALoad2)
        } else if op == 0x2d {
            Some(Instruction::ALoad3)
        } else if op == 0x3a {
            Some(Instruction::AStore)
        } else if op == 0x4b {
            Some(Instruction::AStore0)
        } else if op == 0x4c {
            Some(Instruction::AStore1)
        } else if op == 0x4d {
            Some(Instruction::AStore2)
        } else if op == 0x4e {
            Some(Instruction::AStore3)
        } else if op == 0x34 {
            Some(Instruction::CALoad)
        } else if op == 0x33 {
            Some(Instruction::BALoad)
        } else if op == 0x35 {
            Some(Instruction::SALoad)
        } else if op == 0x2e {
            Some(Instruction::IALoad)
        } else if op == 0x2f {
            Some(Instruction::LALoad)
        } else if op == 0x30 {
            Some(Instruction::FALoad)
        } else if op == 0x31 {
            Some(Instruction::DALoad)
        } else if op == 0x55 {
            Some(Instruction::CAStore)
        } else if op == 0x54 {
            Some(Instruction::BAStore)
        } else if op == 0x56 {
            Some(Instruction::SAStore)
        } else if op == 0x4f {
            Some(Instruction::IAStore)
        } else if op == 0x50 {
            Some(Instruction::LAStore)
        } else if op == 0x51 {
            Some(Instruction::FAStore)
        } else if op == 0x52 {
            Some(Instruction::DAStore)
        } else if op == 0xbc {
            Some(Instruction::NewArray)
        } else if op == 0xbe {
            Some(Instruction::ArrayLength)
        } else if op == 0xb2 {
            Some(Instruction::GetStatic)
        } else if op == 0xb3 {
            Some(Instruction::PutStatic)
        } else if op == 0xb8 {
            Some(Instruction::InvokeStatic)
        } else if op == 0xb7 {
            Some(Instruction::InvokeSpecial)
        } else {
            None
        }
    }

    /// Returns the size of this instruction's operands in bytes.
    pub fn operands_size(&self) -> (r: u8)
        ensures
            r == spec_operands_size(*self),
    {
        match self {
            Instruction::BiPush => 1,
            Instruction::SiPush => 2,
            Instruction::ILoad => 1,
            Instruction::IStore => 1,
            Instruction::IInc => 2,
            Instruction::LLoad => 1,
            Instruction::LStore => 1,
            Instruction::FLoad => 1,
            Instruction::FStore => 1,
            Instruction::DLoad => 1,
            Instruction::DStore => 1,
            Instruction::Goto => 2,
            Instruction::GotoW => 4,
            Instruction::ICmpEq => 2,
            Instruction::ICmpNe => 2,
            Instruction::ICmpLt => 2,
            Instruction::ICmpGe => 2,
            Instruction::ICmpGt => 2,
            Instruction::ICmpLe => 2,
            Instruction::IEq => 2,
            Instruction::INe => 2,
            Instruction::ILt => 2,
            Instruction::IGe => 2,
            Instruction::IGt => 2,
            Instruction::ILe => 2,
            Instruction::IfNull => 2,
            Instruction::IfNotNull => 2,
            Instruction::ALoad => 1,
            Instruction::AStore => 1,
            Instruction::NewArray => 1,
            Instruction::GetStatic => 2,
            Instruction::PutStatic => 2,
            Instruction::InvokeStatic => 2,
            Instruction::InvokeSpecial => 2,
            _ => 0,
        }
    }

    /// The mnemonic this crate prints for the instruction.
    pub fn name(&self) -> (r: &'static str) {
        match self {
            Instruction::Nop => "Nop",
            Instruction::BiPush => "BiPush",
            Instruction::SiPush => "SiPush",
            Instruction::IConstM1 => "IConstM1",
            Instruction::IConst0 => "IConst0",
            Instruction::IConst1 => "IConst1",
            Instruction::IConst2 => "IConst2",
            Instruction::IConst3 => "IConst3",
            Instruction::IConst4 => "IConst4",
            Instruction::IConst5 => "IConst5",
            Instruction::ILoad => "ILoad",
            Instruction::ILoad0 => "ILoad0",
            Instruction::ILoad1 => "ILoad1",
            Instruction::ILoad2 => "ILoad2",
            Instruction::ILoad3 => "ILoad3",
            Instruction::IStore => "IStore",
            Instruction::IStore0 => "IStore0",
            Instruction::IStore1 => "IStore1",
            Instruction::IStore2 => "IStore2",
            Instruction::IStore3 => "IStore3",
            Instruction::IAdd => "IAdd",
            Instruction::ISub => "ISub",
            Instruction::IMul => "IMul",
            Instruction::IDiv => "IDiv",
            Instruction::IRem => "IRem",
            Instruction::INeg => "INeg",
            Instruction::IShl => "IShl",
            Instruction::IShr => "IShr",
            Instruction::IUShr => "IUShr",
            Instruction::IAnd => "IAnd",
            Instruction::IOr => "IOr",
            Instruction::IXOr => "IXOr",
            Instruction::IInc => "IInc",
            Instruction::I2L => "I2L",
            Instruction::I2F => "I2F",
            Instruction::I2D => "I2D",
            Instruction::I2B => "I2B",
            Instruction::I2C => "I2C",
            Instruction::I2S => "I2S",
            Instruction::LConst0 => "LConst0",
            Instruction::LConst1 => "LConst1",
            Instruction::LLoad => "LLoad",
            Instruction::LLoad0 => "LLoad0",
            Instruction::LLoad1 => "LLoad1",
            Instruction::LLoad2 => "LLoad2",
            Instruction::LLoad3 => "LLoad3",
            Instruction::LStore => "LStore",
            Instruction::LStore0 => "LStore0",
            Instruction::LStore1 => "LStore1",
            Instruction::LStore2 => "LStore2",
            Instruction::LStore3 => "LStore3",
            Instruction::LAdd => "LAdd",
            Instruction::LSub => "LSub",
            Instruction::LMul => "LMul",
            Instruction::LDiv => "LDiv",
            Instruction::LRem => "LRem",
            Instruction::LNeg => "LNeg",
            Instruction::LShl => "LShl",
            Instruction::LShr => "LShr",
            Instruction::LUShr => "LUShr",
            Instruction::LAnd => "LAnd",
            Instruction::LOr => "LOr",
            Instruction::LXOr => "LXOr",
            Instruction::L2I => "L2I",
            Instruction::L2F => "L2F",
            Instruction::L2D => "L2D",
            Instruction::FConst0 => "FConst0",
            Instruction::FConst1 => "FConst1",
            Instruction::FConst2 => "FConst2",
            Instruction::FLoad => "FLoad",
            Instruction::FLoad0 => "FLoad0",
            Instruction::FLoad1 => "FLoad1",
            Instruction::FLoad2 => "FLoad2",
            Instruction::FLoad3 => "FLoad3",
            Instruction::FStore => "FStore",
            Instruction::FStore0 => "FStore0",
            Instruction::FStore1 => "FStore1",
            Instruction::FStore2 => "FStore2",
            Instruction::FStore3 => "FStore3",
            Instruction::FAdd => "FAdd",
            Instruction::FSub => "FSub",
            Instruction::FMul => "FMul",
            Instruction::FDiv => "FDiv",
            Instruction::FRem => "FRem",
            Instruction::FNeg => "FNeg",
            Instruction::F2L => "F2L",
            Instruction::F2I => "F2I",
            Instruction::F2D => "F2D",
            Instruction::DConst0 => "DConst0",
            Instruction::DConst1 => "DConst1",
            Instruction::DLoad => "DLoad",
            Instruction::DLoad0 => "DLoad0",
            Instruction::DLoad1 => "DLoad1",
            Instruction::DLoad2 => "DLoad2",
            Instruction::DLoad3 => "DLoad3",
            Instruction::DStore => "DStore",
            Instruction::DStore0 => "DStore0",
            Instruction::DStore1 => "DStore1",
            Instruction::DStore2 => "DStore2",
            Instruction::DStore3 => "DStore3",
            Instruction::DAdd => "DAdd",
            Instruction::DSub => "DSub",
            Instruction::DMul => "DMul",
            Instruction::DDiv => "DDiv",
            Instruction::DRem => "DRem",
            Instruction::DNeg => "DNeg",
            Instruction::D2L => "D2L",
            Instruction::D2I => "D2I",
            Instruction::D2F => "D2F",
            Instruction::Dup => "Dup",
            Instruction::DupX1 => "DupX1",
            Instruction::DupX2 => "DupX2",
            Instruction::Dup2 => "Dup2",
            Instruction::Dup2X1 => "Dup2X1",
            Instruction::Dup2X2 => "Dup2X2",
            Instruction::Goto => "Goto",
            Instruction::GotoW => "GotoW",
            Instruction::ICmpEq => "ICmpEq",
            Instruction::ICmpNe => "ICmpNe",
            Instruction::ICmpLt => "ICmpLt",
            Instruction::ICmpGe => "ICmpGe",
            Instruction::ICmpGt => "ICmpGt",
            Instruction::ICmpLe => "ICmpLe",
            Instruction::LCmp => "LCmp",
            Instruction::FCmpl => "FCmpl",
            Instruction::FCmpg => "FCmpg",
            Instruction::DCmpl => "DCmpl",
            Instruction::DCmpg => "DCmpg",
            Instruction::IEq => "IEq",
            Instruction::INe => "INe",
            Instruction::ILt => "ILt",
            Instruction::IGe => "IGe",
            Instruction::IGt => "IGt",
            Instruction::ILe => "ILe",
            Instruction::IfNull => "IfNull",
            Instruction::IfNotNull => "IfNotNull",
            Instruction::Return => "Return",
            Instruction::AReturn => "AReturn",
            Instruction::IReturn => "IReturn",
            Instruction::LReturn => "LReturn",
            Instruction::FReturn => "FReturn",
            Instruction::DReturn => "DReturn",
            Instruction::Pop => "Pop",
            Instruction::Pop2 => "Pop2",
            Instruction::Swap => "Swap",
            Instruction::ALoad => "ALoad",
            Instruction::ALoad0 => "ALoad0",
            Instruction::ALoad1 => "ALoad1",
            Instruction::ALoad2 => "ALoad2",
            Instruction::ALoad3 => "ALoad3",
            Instruction::AStore => "AStore",
            Instruction::AStore0 => "AStore0",
            Instruction::AStore1 => "AStore1",
            Instruction::AStore2 => "AStore2",
            Instruction::AStore3 => "AStore3",
            Instruction::CALoad => "CALoad",
            Instruction::BALoad => "BALoad",
            Instruction::SALoad => "SALoad",
            Instruction::IALoad => "IALoad",
            Instruction::LALoad => "LALoad",
            Instruction::FALoad => "FALoad",
            Instruction::DALoad => "DALoad",
            Instruction::CAStore => "CAStore",
            Instruction::BAStore => "BAStore",
            Instruction::SAStore => "SAStore",
            Instruction::IAStore => "IAStore",
            Instruction::LAStore => "LAStore",
            Instruction::FAStore => "FAStore",
            Instruction::DAStore => "DAStore",
            Instruction::NewArray => "NewArray",
            Instruction::ArrayLength => "ArrayLength",
            Instruction::GetStatic => "GetStatic",
            Instruction::PutStatic => "PutStatic",
            Instruction::InvokeStatic => "InvokeStatic",
            Instruction::InvokeSpecial => "InvokeSpecial",
        }
    }
}

/// An instruction stream held for formatting.
pub struct Format<'a>(pub &'a [u8]);

impl<'a> From<&'a [u8]> for Format<'a> {
    fn from(value: &'a [u8]) -> (r: Self) {
        Format(value)
    }
}

impl<'a> vstd::std_specs::convert::FromSpecImpl<&'a [u8]> for Format<'a> {
    open spec fn obeys_from_spec() -> bool {
        true
    }

    open spec fn from_spec(v: &'a [u8]) -> Self {
        Format(v)
    }
}

impl<'a> Format<'a> {
    /// The formatted listing of the held instruction stream.
    pub fn render(&self) -> (r: String)
        ensures
            r@.len() >= 14,
            r@.subrange(0, 14) == "Instructions:\n"@,
    {
        format_instructions(self.0)
    }
}

/// The lower-case hex digit character for `d`.
pub open spec fn hex_char(d: u8) -> char {
    if d == 0 {
        '0'
    } else if d == 1 {
        '1'
    } else if d == 2 {
        '2'
    } else if d == 3 {
        '3'
    } else if d == 4 {
        '4'
    } else if d == 5 {
        '5'
    } else if d == 6 {
        '6'
    } else if d == 7 {
        '7'
    } else if d == 8 {
        '8'
    } else if d == 9 {
        '9'
    } else if d == 10 {
        'a'
    } else if d == 11 {
        'b'
    } else if d == 12 {
        'c'
    } else if d == 13 {
        'd'
    } else if d == 14 {
        'e'
    } else {
        'f'
    }
}

/// The lower-case hex digit for `d`.
fn hex_digit(d: u8) -> (r: &'static str)
    requires
        d < 16,
    ensures
        r@ == seq![hex_char(d)],
{
    proof {
        reveal_strlit("0");
        reveal_strlit("1");
        reveal_strlit("2");
        reveal_strlit("3");
        reveal_strlit("4");
        reveal_strlit("5");
        reveal_strlit("6");
        reveal_strlit("7");
        reveal_strlit("8");
        reveal_strlit("9");
        reveal_strlit("a");
        reveal_strlit("b");
        reveal_strlit("c");
        reveal_strlit("d");
        reveal_strlit("e");
        reveal_strlit("f");
    }

    if d == 0 {
        "0"
    } else if d == 1 {
        "1"
    } else if d == 2 {
        "2"
    } else if d == 3 {
        "3"
    } else if d == 4 {
        "4"
    } else if d == 5 {
        "5"
    } else if d == 6 {
        "6"
    } else if d == 7 {
        "7"
    } else if d == 8 {
        "8"
    } else if d == 9 {
        "9"
    } else if d == 10 {
        "a"
    } else if d == 11 {
        "b"
    } else if d == 12 {
        "c"
    } else if d == 13 {
        "d"
    } else if d == 14 {
        "e"
    } else {
        "f"
    }
}

/// Appends the two-digit lower-case hex form of `b`.
fn push_hex_byte(out: &mut String, b: u8)
    ensures
        final(out)@ == old(out)@ + seq![hex_char(b / 16), hex_char(b % 16)],
{
    out.append(hex_digit(b / 16));
    out.append(hex_digit(b % 16));
    proof {
        assert(out@ =~= old(out)@ + seq![hex_char(b / 16), hex_char(b % 16)]);
    }
}

/// Renders an instruction stream one instruction per line: the opcode byte
/// in hex, its mnemonic (or `??` outside the supported subset), and its
/// operand bytes. Operands cut off by the end of the stream print as `??`.
#[verifier::loop_isolation(false)]
pub fn format_instructions(data: &[u8]) -> (r: String)
    ensures
        r@.len() >= 14,
        r@.subrange(0, 14) == "Instructions:\n"@,
{
    let mut out = String::from_str("Instructions:\n");
    proof {
        reveal_strlit("Instructions:\n");
        assert(out@.subrange(0, 14) =~= "Instructions:\n"@);
    }
    let n = data.len();
    let mut i: usize = 0;
    while i < n
        invariant
            i <= n,
            n == data@.len(),
            out@.len() >= 14,
            out@.subrange(0, 14) == "Instructions:\n"@,
        decreases n - i,
    {
        let ghost out_head = out@;
        let op = data[i];
        i = i + 1;
        out.append("    ");
        push_hex_byte(&mut out, op);
        out.append(" ");
        match Instruction::decode(op) {
            Some(instr) => {
                out.append(instr.name());
                let operands = instr.operands_size();
                if operands > 0 {
                    out.append("(");
                    let mut k: u8 = 0;
                    let ghost i0 = i;
                    while k < operands
                        invariant
                            i0 <= i <= n,
                            out@.len() >= 14,
                            out@.subrange(0, 14) == "Instructions:\n"@,
                        decreases operands as int - k,
                    {
                        if i < n {
                            out.append("0x");
                            push_hex_byte(&mut out, data[i]);
                            i = i + 1;
                        } else {
                            out.append("??");
                        }
                        if k + 1 < operands {
                            out.append(", ");
                        }
                        k = k + 1;
                        proof {
                            assert(out@.subrange(0, 14) =~= "Instructions:\n"@);
                        }
                    }
                    out.append(")");
                }
            },
            None => {
                out.append("??");
            },
        }
        out.append("\n");
        proof {
            assert(out@.subrange(0, 14) =~= "Instructions:\n"@);
        }
    }
    out
}

} // verus!
