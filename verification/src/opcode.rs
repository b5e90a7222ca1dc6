//! Opcodes, mnemonics, registers and the other identifiers of the F750
//! instruction set that outlive the parsing stage.
use vstd::prelude::*;
use crate::text::{chars_of, same_chars, string_of};

verus! {

/// The opcodes of the F750 virtual machine; each has a unique byte code.
#[derive(Debug, Clone, Copy, PartialEq, Eq, Structural)]
pub enum Opcode {
    EngCall,
    Nop,
    CallReg,
    CallImm,
    Ret,
    StackAllocImm,
    StackAllocReg,
    StackFree,
    Exit,
    RetFree,
    HAllocImm,
    HAllocReg,
    HFreeImm,
    HFreeReg,
    MovRegImm,
    MovRegMem,
    MovMemImm,
    MovMemReg,
    MovRegReg,
    MovRegEngineParam,
    MovEngineParamReg,
    CmpRegReg,
    CmpRegImm,
    AddRegReg,
    AddRegImm,
    SubRegReg,
    SubRegImm,
    MulRegReg,
    MulRegImm,
    DivRegReg,
    DivRegImm,
    ModRegReg,
    ModRegImm,
    PushReg,
    PushImm,
    PopReg,
    PopMem,
    Jmp,
    JmpIfZero,
    JmpIfNotZero,
    JmpIfSign,
    JmpIfNotSign,
    JmpIfOverflow,
    JmpIfNotOverflow,
    JmpIfCarry,
    JmpIfNotCarry,
    JmpIfParity,
    JmpIfNotParity,
    JmpIfBelowEqual,
    JmpIfAbove,
    JmpIfLess,
    JmpIfGreaterEqual,
    JmpIfLessEqual,
    JmpIfGreater,
    JmpIfErr,
    JmpIfNotErr,
}

/// The opcode the bytecode format gives the byte `b`, read from the
/// format's table of opcodes by byte; `None` for a byte that encodes none.
pub open spec fn opcode_of_byte(b: u8) -> Option<Opcode> {
    if b == 0x01 {
        Some(Opcode::EngCall)
    } else if b == 0x02 {
        Some(Opcode::Nop)
    } else if b == 0x03 {
        Some(Opcode::CallReg)
    } else if b == 0x04 {
        Some(Opcode::CallImm)
    } else if b == 0x05 {
        Some(Opcode::Ret)
    } else if b == 0x06 {
        Some(Opcode::StackAllocImm)
    } else if b == 0x07 {
        Some(Opcode::StackAllocReg)
    } else if b == 0x08 {
        Some(Opcode::StackFree)
    } else if b == 0x09 {
        Some(Opcode::Exit)
    } else if b == 0x0a {
        Some(Opcode::RetFree)
    } else if b == 0x0b {
        Some(Opcode::HAllocImm)
    } else if b == 0x0c {
        Some(Opcode::HAllocReg)
    } else if b == 0x0d {
        Some(Opcode::HFreeImm)
    } else if b == 0x0e {
        Some(Opcode::HFreeReg)
    } else if b == 0x20 {
        Some(Opcode::MovRegImm)
    } else if b == 0x21 {
        Some(Opcode::MovRegMem)
    } else if b == 0x22 {
        Some(Opcode::MovMemImm)
    } else if b == 0x23 {
        Some(Opcode::MovMemReg)
    } else if b == 0x24 {
        Some(Opcode::MovRegReg)
    } else if b == 0x25 {
        Some(Opcode::MovRegEngineParam)
    } else if b == 0x26 {
        Some(Opcode::MovEngineParamReg)
    } else if b == 0x30 {
        Some(Opcode::CmpRegReg)
    } else if b == 0x31 {
        Some(Opcode::CmpRegImm)
    } else if b == 0x40 {
        Some(Opcode::AddRegReg)
    } else if b == 0x41 {
        Some(Opcode::AddRegImm)
    } else if b == 0x42 {
        Some(Opcode::SubRegReg)
    } else if b == 0x43 {
        Some(Opcode::SubRegImm)
    } else if b == 0x44 {
        Some(Opcode::MulRegReg)
    } else if b == 0x45 {
        Some(Opcode::MulRegImm)
    } else if b == 0x46 {
        Some(Opcode::DivRegReg)
    } else if b == 0x47 {
        Some(Opcode::DivRegImm)
    } else if b == 0x48 {
        Some(Opcode::ModRegReg)
    } else if b == 0x49 {
        Some(Opcode::ModRegImm)
    } else if b == 0x50 {
        Some(Opcode::PushReg)
    } else if b == 0x51 {
        Some(Opcode::PushImm)
    } else if b == 0x52 {
        Some(Opcode::PopReg)
    } else if b == 0x53 {
        Some(Opcode::PopMem)
    } else if b == 0xb0 {
        Some(Opcode::Jmp)
    } else if b == 0xb1 {
        Some(Opcode::JmpIfZero)
    } else if b == 0xb2 {
        Some(Opcode::JmpIfNotZero)
    } else if b == 0xb3 {
        Some(Opcode::JmpIfSign)
    } else if b == 0xb4 {
        Some(Opcode::JmpIfNotSign)
    } else if b == 0xb5 {
        Some(Opcode::JmpIfOverflow)
    } else if b == 0xb6 {
        Some(Opcode::JmpIfNotOverflow)
    } else if b == 0xb7 {
        Some(Opcode::JmpIfCarry)
    } else if b == 0xb8 {
        Some(Opcode::JmpIfNotCarry)
    } else if b == 0xb9 {
        Some(Opcode::JmpIfParity)
    } else if b == 0xba {
        Some(Opcode::JmpIfNotParity)
    } else if b == 0xbb {
        Some(Opcode::JmpIfBelowEqual)
    } else if b == 0xbc {
        Some(Opcode::JmpIfAbove)
    } else if b == 0xbd {
        Some(Opcode::JmpIfLess)
    } else if b == 0xbe {
        Some(Opcode::JmpIfGreaterEqual)
    } else if b == 0xbf {
        Some(Opcode::JmpIfLessEqual)
    } else if b == 0xc0 {
        Some(Opcode::JmpIfGreater)
    } else if b == 0xc1 {
        Some(Opcode::JmpIfErr)
    } else if b == 0xc2 {
        Some(Opcode::JmpIfNotErr)
    } else {
        None
    }
}

/// Each opcode is written as the byte the bytecode format gives it: reading
/// the byte an opcode is written as gives the opcode back, and a byte that
/// the format gives an opcode is the byte that opcode is written as.
pub proof fn lemma_opcode_bytes_follow_the_format(o: Opcode, b: u8)
    ensures
        opcode_of_byte(o.spec_code()) == Some(o),
        opcode_of_byte(b) == Some(o) ==> o.spec_code() == b,
{
}

impl Opcode {
    /// The byte that encodes this opcode in bytecode.
    pub open spec fn spec_code(self) -> u8 {
        match self {
            Opcode::EngCall => 0x01,
            Opcode::Nop => 0x02,
            Opcode::CallReg => 0x03,
            Opcode::CallImm => 0x04,
            Opcode::Ret => 0x05,
            Opcode::StackAllocImm => 0x06,
            Opcode::StackAllocReg => 0x07,
            Opcode::StackFree => 0x08,
            Opcode::Exit => 0x09,
            Opcode::RetFree => 0x0a,
            Opcode::HAllocImm => 0x0b,
            Opcode::HAllocReg => 0x0c,
            Opcode::HFreeImm => 0x0d,
            Opcode::HFreeReg => 0x0e,
            Opcode::MovRegImm => 0x20,
            Opcode::MovRegMem => 0x21,
            Opcode::MovMemImm => 0x22,
            Opcode::MovMemReg => 0x23,
            Opcode::MovRegReg => 0x24,
            Opcode::MovRegEngineParam => 0x25,
            Opcode::MovEngineParamReg => 0x26,
            Opcode::CmpRegReg => 0x30,
            Opcode::CmpRegImm => 0x31,
            Opcode::AddRegReg => 0x40,
            Opcode::AddRegImm => 0x41,
            Opcode::SubRegReg => 0x42,
            Opcode::SubRegImm => 0x43,
            Opcode::MulRegReg => 0x44,
            Opcode::MulRegImm => 0x45,
            Opcode::DivRegReg => 0x46,
            Opcode::DivRegImm => 0x47,
            Opcode::ModRegReg => 0x48,
            Opcode::ModRegImm => 0x49,
            Opcode::PushReg => 0x50,
            Opcode::PushImm => 0x51,
            Opcode::PopReg => 0x52,
            Opcode::PopMem => 0x53,
            Opcode::Jmp => 0xb0,
            Opcode::JmpIfZero => 0xb1,
            Opcode::JmpIfNotZero => 0xb2,
            Opcode::JmpIfSign => 0xb3,
            Opcode::JmpIfNotSign => 0xb4,
            Opcode::JmpIfOverflow => 0xb5,
            Opcode::JmpIfNotOverflow => 0xb6,
            Opcode::JmpIfCarry => 0xb7,
            Opcode::JmpIfNotCarry => 0xb8,
            Opcode::JmpIfParity => 0xb9,
            Opcode::JmpIfNotParity => 0xba,
            Opcode::JmpIfBelowEqual => 0xbb,
            Opcode::JmpIfAbove => 0xbc,
            Opcode::JmpIfLess => 0xbd,
            Opcode::JmpIfGreaterEqual => 0xbe,
            Opcode::JmpIfLessEqual => 0xbf,
            Opcode::JmpIfGreater => 0xc0,
            Opcode::JmpIfErr => 0xc1,
            Opcode::JmpIfNotErr => 0xc2,
        }
    }

    /// Returns the byte that encodes this opcode in bytecode.
    pub fn code(&self) -> (r: u8)
        ensures
            r == self.spec_code(),
    {
        match self {
            Opcode::EngCall => 0x01,
            Opcode::Nop => 0x02,
            Opcode::CallReg => 0x03,
            Opcode::CallImm => 0x04,
            Opcode::Ret => 0x05,
            Opcode::StackAllocImm => 0x06,
            Opcode::StackAllocReg => 0x07,
            Opcode::StackFree => 0x08,
            Opcode::Exit => 0x09,
            Opcode::RetFree => 0x0a,
            Opcode::HAllocImm => 0x0b,
            Opcode::HAllocReg => 0x0c,
            Opcode::HFreeImm => 0x0d,
            Opcode::HFreeReg => 0x0e,
            Opcode::MovRegImm => 0x20,
            Opcode::MovRegMem => 0x21,
            Opcode::MovMemImm => 0x22,
            Opcode::MovMemReg => 0x23,
            Opcode::MovRegReg => 0x24,
            Opcode::MovRegEngineParam => 0x25,
            Opcode::MovEngineParamReg => 0x26,
            Opcode::CmpRegReg => 0x30,
            Opcode::CmpRegImm => 0x31,
            Opcode::AddRegReg => 0x40,
            Opcode::AddRegImm => 0x41,
            Opcode::SubRegReg => 0x42,
            Opcode::SubRegImm => 0x43,
            Opcode::MulRegReg => 0x44,
            Opcode::MulRegImm => 0x45,
            Opcode::DivRegReg => 0x46,
            Opcode::DivRegImm => 0x47,
            Opcode::ModRegReg => 0x48,
            Opcode::ModRegImm => 0x49,
            Opcode::PushReg => 0x50,
            Opcode::PushImm => 0x51,
            Opcode::PopReg => 0x52,
            Opcode::PopMem => 0x53,
            Opcode::Jmp => 0xb0,
            Opcode::JmpIfZero => 0xb1,
            Opcode::JmpIfNotZero => 0xb2,
            Opcode::JmpIfSign => 0xb3,
            Opcode::JmpIfNotSign => 0xb4,
            Opcode::JmpIfOverflow => 0xb5,
            Opcode::JmpIfNotOverflow => 0xb6,
            Opcode::JmpIfCarry => 0xb7,
            Opcode::JmpIfNotCarry => 0xb8,
            Opcode::JmpIfParity => 0xb9,
            Opcode::JmpIfNotParity => 0xba,
            Opcode::JmpIfBelowEqual => 0xbb,
            Opcode::JmpIfAbove => 0xbc,
            Opcode::JmpIfLess => 0xbd,
            Opcode::JmpIfGreaterEqual => 0xbe,
            Opcode::JmpIfLessEqual => 0xbf,
            Opcode::JmpIfGreater => 0xc0,
            Opcode::JmpIfErr => 0xc1,
            Opcode::JmpIfNotErr => 0xc2,
        }
    }
}

/// The mnemonics written in source text for the opcodes.
#[derive(Debug, Clone, Copy, PartialEq, Eq, Structural)]
pub enum OpcodeMnemonic {
    EngCall,
    Nop,
    Call,
    Ret,
    StackAlloc,
    StackFree,
    Exit,
    RetFree,
    HAlloc,
    HFree,
    Mov,
    Jmp,
    JmpIfZero,
    JmpIfNotZero,
    JmpIfEqual,
    JmpIfNotEqual,
    JmpIfSign,
    JmpIfNotSign,
    JmpIfOverflow,
    JmpIfNotOverflow,
    JmpIfCarry,
    JmpIfBelow,
    JmpIfNotAboveEqual,
    JmpIfNotCarry,
    JmpIfAboveEqual,
    JmpIfNotBelow,
    JmpIfParity,
    JmpIfNotParity,
    JmpIfBelowEqual,
    JmpIfNotAbove,
    JmpIfAbove,
    JmpIfNotBelowEqual,
    JmpIfLess,
    JmpIfNotGreaterEqual,
    JmpIfGreaterEqual,
    JmpIfNotLess,
    JmpIfLessEqual,
    JmpIfNotGreater,
    JmpIfGreater,
    JmpIfNotLessEqual,
    JmpIfErr,
    JmpIfNotOk,
    JmpIfNotErr,
    JmpIfOk,
    Cmp,
    Add,
    Sub,
    Mul,
    Div,
    Mod,
    Push,
    Pop,
}

impl OpcodeMnemonic {
    /// Whether the mnemonic is one of the jumps that a conditional block may use.
    pub open spec fn spec_is_jump(self) -> bool {
        ||| self == OpcodeMnemonic::Jmp
        ||| self == OpcodeMnemonic::JmpIfZero
        ||| self == OpcodeMnemonic::JmpIfNotZero
        ||| self == OpcodeMnemonic::JmpIfEqual
        ||| self == OpcodeMnemonic::JmpIfNotEqual
        ||| self == OpcodeMnemonic::JmpIfSign
        ||| self == OpcodeMnemonic::JmpIfNotSign
        ||| self == OpcodeMnemonic::JmpIfOverflow
        ||| self == OpcodeMnemonic::JmpIfNotOverflow
        ||| self == OpcodeMnemonic::JmpIfCarry
        ||| self == OpcodeMnemonic::JmpIfNotCarry
        ||| self == OpcodeMnemonic::JmpIfParity
        ||| self == OpcodeMnemonic::JmpIfNotParity
        ||| self == OpcodeMnemonic::JmpIfBelowEqual
        ||| self == OpcodeMnemonic::JmpIfAbove
        ||| self == OpcodeMnemonic::JmpIfLess
        ||| self == OpcodeMnemonic::JmpIfGreaterEqual
        ||| self == OpcodeMnemonic::JmpIfLessEqual
        ||| self == OpcodeMnemonic::JmpIfGreater
    }

    /// Returns whether the mnemonic is a jump that a conditional block may use.
    pub fn is_jump(&self) -> (r: bool)
        ensures
            r == self.spec_is_jump(),
    {
        match self {
            OpcodeMnemonic::Jmp => true,
            OpcodeMnemonic::JmpIfZero => true,
            OpcodeMnemonic::JmpIfNotZero => true,
            OpcodeMnemonic::JmpIfEqual => true,
            OpcodeMnemonic::JmpIfNotEqual => true,
            OpcodeMnemonic::JmpIfSign => true,
            OpcodeMnemonic::JmpIfNotSign => true,
            OpcodeMnemonic::JmpIfOverflow => true,
            OpcodeMnemonic::JmpIfNotOverflow => true,
            OpcodeMnemonic::JmpIfCarry => true,
            OpcodeMnemonic::JmpIfNotCarry => true,
            OpcodeMnemonic::JmpIfParity => true,
            OpcodeMnemonic::JmpIfNotParity => true,
            OpcodeMnemonic::JmpIfBelowEqual => true,
            OpcodeMnemonic::JmpIfAbove => true,
            OpcodeMnemonic::JmpIfLess => true,
            OpcodeMnemonic::JmpIfGreaterEqual => true,
            OpcodeMnemonic::JmpIfLessEqual => true,
            OpcodeMnemonic::JmpIfGreater => true,
            _ => false,
        }
    }
}

/// The register families of the F750 virtual machine.
#[derive(Debug, Clone, Copy, PartialEq, Eq, Structural)]
pub enum Register {
    A,
    B,
    C,
    D,
    StackPointer,
    BasePointer,
    SourceIndex,
    DestinationIndex,
    InstructionPointer,
    LoopCounterA,
    LoopCounterB,
    LocalA,
    LocalB,
    LocalC,
    LocalD,
    LocalE,
    LocalF,
    LocalG,
    LocalH,
}

impl Register {
    /// The byte that encodes this register family in bytecode.
    pub open spec fn spec_code(self) -> u8 {
        match self {
            Register::A => 0x01,
            Register::B => 0x02,
            Register::C => 0x03,
            Register::D => 0x04,
            Register::StackPointer => 0x05,
            Register::BasePointer => 0x06,
            Register::SourceIndex => 0x07,
            Register::DestinationIndex => 0x08,
            Register::InstructionPointer => 0x09,
            Register::LoopCounterA => 0x0a,
            Register::LoopCounterB => 0x0b,
            Register::LocalA => 0x0c,
            Register::LocalB => 0x0d,
            Register::LocalC => 0x0e,
            Register::LocalD => 0x0f,
            Register::LocalE => 0x10,
            Register::LocalF => 0x11,
            Register::LocalG => 0x12,
            Register::LocalH => 0x13,
        }
    }

    /// Returns the byte that encodes this register family in bytecode.
    pub fn code(&self) -> (r: u8)
        ensures
            r == self.spec_code(),
    {
        match self {
            Register::A => 0x01,
            Register::B => 0x02,
            Register::C => 0x03,
            Register::D => 0x04,
            Register::StackPointer => 0x05,
            Register::BasePointer => 0x06,
            Register::SourceIndex => 0x07,
            Register::DestinationIndex => 0x08,
            Register::InstructionPointer => 0x09,
            Register::LoopCounterA => 0x0a,
            Register::LoopCounterB => 0x0b,
            Register::LocalA => 0x0c,
            Register::LocalB => 0x0d,
            Register::LocalC => 0x0e,
            Register::LocalD => 0x0f,
            Register::LocalE => 0x10,
            Register::LocalF => 0x11,
            Register::LocalG => 0x12,
            Register::LocalH => 0x13,
        }
    }

    /// The local register that holds procedure argument `index`.
    pub open spec fn spec_local_arg(index: u8) -> Option<Register> {
        match index {
            0 => Some(Register::LocalA),
            1 => Some(Register::LocalB),
            2 => Some(Register::LocalC),
            3 => Some(Register::LocalD),
            4 => Some(Register::LocalE),
            5 => Some(Register::LocalF),
            6 => Some(Register::LocalG),
            7 => Some(Register::LocalH),
            _ => None,
        }
    }

    /// Returns the local register that holds procedure argument `index`, for the first eight arguments.
    pub fn local_arg(index: u8) -> (r: Option<Register>)
        ensures
            r == Self::spec_local_arg(index),
    {
        match index {
            0 => Some(Register::LocalA),
            1 => Some(Register::LocalB),
            2 => Some(Register::LocalC),
            3 => Some(Register::LocalD),
            4 => Some(Register::LocalE),
            5 => Some(Register::LocalF),
            6 => Some(Register::LocalG),
            7 => Some(Register::LocalH),
            _ => None,
        }
    }
}

/// The compiler constructs, written after `@`.
#[derive(Debug, Clone, Copy, PartialEq, Eq, Structural)]
pub enum CompilerConstruct {
    BlockEnd,
    If,
    Else,
    ElseIf,
    InlineLoop,
    Loop,
    While,
    For,
    LoopBreak,
    LoopContinue,
    Pry,
    GetArg,
    EngineCall,
    LoadArgs,
    ProcCall,
}

impl CompilerConstruct {
    /// Whether the construct opens a block that `@end` closes.
    pub open spec fn spec_is_block_start(self) -> bool {
        ||| self == CompilerConstruct::If
        ||| self == CompilerConstruct::InlineLoop
        ||| self == CompilerConstruct::Loop
        ||| self == CompilerConstruct::While
        ||| self == CompilerConstruct::For
    }

    /// Returns whether the construct opens a block that `@end` closes.
    pub fn is_block_start(&self) -> (r: bool)
        ensures
            r == self.spec_is_block_start(),
    {
        match self {
            CompilerConstruct::If => true,
            CompilerConstruct::InlineLoop => true,
            CompilerConstruct::Loop => true,
            CompilerConstruct::While => true,
            CompilerConstruct::For => true,
            _ => false,
        }
    }
}

/// The compiler directives.
#[derive(Debug, Clone, Copy, PartialEq, Eq, Structural)]
pub enum CompilerDirective {
    Use,
    Namespace,
}

/// The reserved words of the language.
#[derive(Debug, Clone, Copy, PartialEq, Eq, Structural)]
pub enum ReservedWord {
    Const,
    Extern,
    Alias,
}

/// The flags that a comparison sets.
#[derive(Debug, Clone, Copy, PartialEq, Eq, Structural)]
pub enum ComparisonFlag {
    Zero,
    Sign,
    Overflow,
    Carry,
    Parity,
    Error,
}

impl ComparisonFlag {
    /// The bit of the flag register that holds this flag.
    pub open spec fn spec_bit(self) -> u8 {
        match self {
            ComparisonFlag::Zero => 1,
            ComparisonFlag::Sign => 2,
            ComparisonFlag::Overflow => 4,
            ComparisonFlag::Carry => 8,
            ComparisonFlag::Parity => 16,
            ComparisonFlag::Error => 32,
        }
    }

    /// Returns the bit of the flag register that holds this flag.
    pub fn bit(&self) -> (r: u8)
        ensures
            r == self.spec_bit(),
    {
        match self {
            ComparisonFlag::Zero => 1,
            ComparisonFlag::Sign => 2,
            ComparisonFlag::Overflow => 4,
            ComparisonFlag::Carry => 8,
            ComparisonFlag::Parity => 16,
            ComparisonFlag::Error => 32,
        }
    }
}

impl OpcodeMnemonic {
    /// The name that stands for each variant in source text.
    pub open spec fn spec_name(self) -> Seq<char> {
        match self {
            OpcodeMnemonic::EngCall => seq!['e', 'n', 'g', 'c', 'a', 'l', 'l'],
            OpcodeMnemonic::Nop => seq!['n', 'o', 'p'],
            OpcodeMnemonic::Call => seq!['c', 'a', 'l', 'l'],
            OpcodeMnemonic::Ret => seq!['r', 'e', 't'],
            OpcodeMnemonic::StackAlloc => seq!['s', 't', 'a', 'c', 'k', 'a', 'l', 'l', 'o', 'c'],
            OpcodeMnemonic::StackFree => seq!['s', 't', 'a', 'c', 'k', 'f', 'r', 'e', 'e'],
            OpcodeMnemonic::Exit => seq!['e', 'x', 'i', 't'],
            OpcodeMnemonic::RetFree => seq!['r', 'e', 't', 'f'],
            OpcodeMnemonic::HAlloc => seq!['m', 'a', 'l', 'l', 'o', 'c'],
            OpcodeMnemonic::HFree => seq!['f', 'r', 'e', 'e'],
            OpcodeMnemonic::Mov => seq!['m', 'o', 'v'],
            OpcodeMnemonic::Jmp => seq!['j', 'm', 'p'],
            OpcodeMnemonic::JmpIfZero => seq!['j', 'z'],
            OpcodeMnemonic::JmpIfNotZero => seq!['j', 'n', 'z'],
            OpcodeMnemonic::JmpIfEqual => seq!['j', 'e'],
            OpcodeMnemonic::JmpIfNotEqual => seq!['j', 'n', 'e'],
            OpcodeMnemonic::JmpIfSign => seq!['j', 's'],
            OpcodeMnemonic::JmpIfNotSign => seq!['j', 'n', 's'],
            OpcodeMnemonic::JmpIfOverflow => seq!['j', 'o'],
            OpcodeMnemonic::JmpIfNotOverflow => seq!['j', 'n', 'o'],
            OpcodeMnemonic::JmpIfCarry => seq!['j', 'c'],
            OpcodeMnemonic::JmpIfBelow => seq!['j', 'b'],
            OpcodeMnemonic::JmpIfNotAboveEqual => seq!['j', 'n', 'a', 'e'],
            OpcodeMnemonic::JmpIfNotCarry => seq!['j', 'n', 'c'],
            OpcodeMnemonic::JmpIfAboveEqual => seq!['j', 'a', 'e'],
            OpcodeMnemonic::JmpIfNotBelow => seq!['j', 'n', 'b'],
            OpcodeMnemonic::JmpIfParity => seq!['j', 'p'],
            OpcodeMnemonic::JmpIfNotParity => seq!['j', 'n', 'p'],
            OpcodeMnemonic::JmpIfBelowEqual => seq!['j', 'b', 'e'],
            OpcodeMnemonic::JmpIfNotAbove => seq!['j', 'n', 'a'],
            OpcodeMnemonic::JmpIfAbove => seq!['j', 'a'],
            OpcodeMnemonic::JmpIfNotBelowEqual => seq!['j', 'n', 'b', 'e'],
            OpcodeMnemonic::JmpIfLess => seq!['j', 'l'],
            OpcodeMnemonic::JmpIfNotGreaterEqual => seq!['j', 'n', 'l', 'e'],
            OpcodeMnemonic::JmpIfGreaterEqual => seq!['j', 'g', 'e'],
            OpcodeMnemonic::JmpIfNotLess => seq!['j', 'n', 'l'],
            OpcodeMnemonic::JmpIfLessEqual => seq!['j', 'l', 'e'],
            OpcodeMnemonic::JmpIfNotGreater => seq!['j', 'n', 'g'],
            OpcodeMnemonic::JmpIfGreater => seq!['j', 'g'],
            OpcodeMnemonic::JmpIfNotLessEqual => seq!['j', 'n', 'g', 'e'],
            OpcodeMnemonic::JmpIfErr => seq!['j', 'e', 'r'],
            OpcodeMnemonic::JmpIfNotOk => seq!['j', 'n', 'o', 'k'],
            OpcodeMnemonic::JmpIfNotErr => seq!['j', 'n', 'e', 'r'],
            OpcodeMnemonic::JmpIfOk => seq!['j', 'o', 'k'],
            OpcodeMnemonic::Cmp => seq!['c', 'm', 'p'],
            OpcodeMnemonic::Add => seq!['a', 'd', 'd'],
            OpcodeMnemonic::Sub => seq!['s', 'u', 'b'],
            OpcodeMnemonic::Mul => seq!['m', 'u', 'l'],
            OpcodeMnemonic::Div => seq!['d', 'i', 'v'],
            OpcodeMnemonic::Mod => seq!['m', 'o', 'd'],
            OpcodeMnemonic::Push => seq!['p', 'u', 's', 'h'],
            OpcodeMnemonic::Pop => seq!['p', 'o', 'p'],
        }
    }

    /// The variant whose name is exactly `s`, if any.
    pub open spec fn spec_from_name(s: Seq<char>) -> Option<OpcodeMnemonic> {
        if s == seq!['e', 'n', 'g', 'c', 'a', 'l', 'l'] {
            Some(OpcodeMnemonic::EngCall)
        } else if s == seq!['n', 'o', 'p'] {
            Some(OpcodeMnemonic::Nop)
        } else if s == seq!['c', 'a', 'l', 'l'] {
            Some(OpcodeMnemonic::Call)
        } else if s == seq!['r', 'e', 't'] {
            Some(OpcodeMnemonic::Ret)
        } else if s == seq!['s', 't', 'a', 'c', 'k', 'a', 'l', 'l', 'o', 'c'] {
            Some(OpcodeMnemonic::StackAlloc)
        } else if s == seq!['s', 't', 'a', 'c', 'k', 'f', 'r', 'e', 'e'] {
            Some(OpcodeMnemonic::StackFree)
        } else if s == seq!['e', 'x', 'i', 't'] {
            Some(OpcodeMnemonic::Exit)
        } else if s == seq!['r', 'e', 't', 'f'] {
            Some(OpcodeMnemonic::RetFree)
        } else if s == seq!['m', 'a', 'l', 'l', 'o', 'c'] {
            Some(OpcodeMnemonic::HAlloc)
        } else if s == seq!['f', 'r', 'e', 'e'] {
            Some(OpcodeMnemonic::HFree)
        } else if s == seq!['m', 'o', 'v'] {
            Some(OpcodeMnemonic::Mov)
        } else if s == seq!['j', 'm', 'p'] {
            Some(OpcodeMnemonic::Jmp)
        } else if s == seq!['j', 'z'] {
            Some(OpcodeMnemonic::JmpIfZero)
        } else if s == seq!['j', 'n', 'z'] {
            Some(OpcodeMnemonic::JmpIfNotZero)
        } else if s == seq!['j', 'e'] {
            Some(OpcodeMnemonic::JmpIfEqual)
        } else if s == seq!['j', 'n', 'e'] {
            Some(OpcodeMnemonic::JmpIfNotEqual)
        } else if s == seq!['j', 's'] {
            Some(OpcodeMnemonic::JmpIfSign)
        } else if s == seq!['j', 'n', 's'] {
            Some(OpcodeMnemonic::JmpIfNotSign)
        } else if s == seq!['j', 'o'] {
            Some(OpcodeMnemonic::JmpIfOverflow)
        } else if s == seq!['j', 'n', 'o'] {
            Some(OpcodeMnemonic::JmpIfNotOverflow)
        } else if s == seq!['j', 'c'] {
            Some(OpcodeMnemonic::JmpIfCarry)
        } else if s == seq!['j', 'b'] {
            Some(OpcodeMnemonic::JmpIfBelow)
        } else if s == seq!['j', 'n', 'a', 'e'] {
            Some(OpcodeMnemonic::JmpIfNotAboveEqual)
        } else if s == seq!['j', 'n', 'c'] {
            Some(OpcodeMnemonic::JmpIfNotCarry)
        } else if s == seq!['j', 'a', 'e'] {
            Some(OpcodeMnemonic::JmpIfAboveEqual)
        } else if s == seq!['j', 'n', 'b'] {
            Some(OpcodeMnemonic::JmpIfNotBelow)
        } else if s == seq!['j', 'p'] {
            Some(OpcodeMnemonic::JmpIfParity)
        } else if s == seq!['j', 'n', 'p'] {
            Some(OpcodeMnemonic::JmpIfNotParity)
        } else if s == seq!['j', 'b', 'e'] {
            Some(OpcodeMnemonic::JmpIfBelowEqual)
        } else if s == seq!['j', 'n', 'a'] {
            Some(OpcodeMnemonic::JmpIfNotAbove)
        } else if s == seq!['j', 'a'] {
            Some(OpcodeMnemonic::JmpIfAbove)
        } else if s == seq!['j', 'n', 'b', 'e'] {
            Some(OpcodeMnemonic::JmpIfNotBelowEqual)
        } else if s == seq!['j', 'l'] {
            Some(OpcodeMnemonic::JmpIfLess)
        } else if s == seq!['j', 'n', 'l', 'e'] {
            Some(OpcodeMnemonic::JmpIfNotGreaterEqual)
        } else if s == seq!['j', 'g', 'e'] {
            Some(OpcodeMnemonic::JmpIfGreaterEqual)
        } else if s == seq!['j', 'n', 'l'] {
            Some(OpcodeMnemonic::JmpIfNotLess)
        } else if s == seq!['j', 'l', 'e'] {
            Some(OpcodeMnemonic::JmpIfLessEqual)
        } else if s == seq!['j', 'n', 'g'] {
            Some(OpcodeMnemonic::JmpIfNotGreater)
        } else if s == seq!['j', 'g'] {
            Some(OpcodeMnemonic::JmpIfGreater)
        } else if s == seq!['j', 'n', 'g', 'e'] {
            Some(OpcodeMnemonic::JmpIfNotLessEqual)
        } else if s == seq!['j', 'e', 'r'] {
            Some(OpcodeMnemonic::JmpIfErr)
        } else if s == seq!['j', 'n', 'o', 'k'] {
            Some(OpcodeMnemonic::JmpIfNotOk)
        } else if s == seq!['j', 'n', 'e', 'r'] {
            Some(OpcodeMnemonic::JmpIfNotErr)
        } else if s == seq!['j', 'o', 'k'] {
            Some(OpcodeMnemonic::JmpIfOk)
        } else if s == seq!['c', 'm', 'p'] {
            Some(OpcodeMnemonic::Cmp)
        } else if s == seq!['a', 'd', 'd'] {
            Some(OpcodeMnemonic::Add)
        } else if s == seq!['s', 'u', 'b'] {
            Some(OpcodeMnemonic::Sub)
        } else if s == seq!['m', 'u', 'l'] {
            Some(OpcodeMnemonic::Mul)
        } else if s == seq!['d', 'i', 'v'] {
            Some(OpcodeMnemonic::Div)
        } else if s == seq!['m', 'o', 'd'] {
            Some(OpcodeMnemonic::Mod)
        } else if s == seq!['p', 'u', 's', 'h'] {
            Some(OpcodeMnemonic::Push)
        } else if s == seq!['p', 'o', 'p'] {
            Some(OpcodeMnemonic::Pop)
        } else {
            None
        }
    }

    /// Looks up the mnemonic written as `s` in source text.
    #[verifier::spinoff_prover]
    #[verifier::rlimit(50)]
    pub fn from_name(s: &str) -> (r: Option<OpcodeMnemonic>)
        ensures
            r == Self::spec_from_name(s@),
    {
        let v = chars_of(s);
        let name: &[char] = &['e', 'n', 'g', 'c', 'a', 'l', 'l'];
        assert(name@ =~= seq!['e', 'n', 'g', 'c', 'a', 'l', 'l']);
        if same_chars(v.as_slice(), name) {
            return Some(OpcodeMnemonic::EngCall);
        }
        let name: &[char] = &['n', 'o', 'p'];
        assert(name@ =~= seq!['n', 'o', 'p']);
        if same_chars(v.as_slice(), name) {
            return Some(OpcodeMnemonic::Nop);
        }
        let name: &[char] = &['c', 'a', 'l', 'l'];
        assert(name@ =~= seq!['c', 'a', 'l', 'l']);
        if same_chars(v.as_slice(), name) {
            return Some(OpcodeMnemonic::Call);
        }
        let name: &[char] = &['r', 'e', 't'];
        assert(name@ =~= seq!['r', 'e', 't']);
        if same_chars(v.as_slice(), name) {
            return Some(OpcodeMnemonic::Ret);
        }
        let name: &[char] = &['s', 't', 'a', 'c', 'k', 'a', 'l', 'l', 'o', 'c'];
        assert(name@ =~= seq!['s', 't', 'a', 'c', 'k', 'a', 'l', 'l', 'o', 'c']);
        if same_chars(v.as_slice(), name) {
            return Some(OpcodeMnemonic::StackAlloc);
        }
        let name: &[char] = &['s', 't', 'a', 'c', 'k', 'f', 'r', 'e', 'e'];
        assert(name@ =~= seq!['s', 't', 'a', 'c', 'k', 'f', 'r', 'e', 'e']);
        if same_chars(v.as_slice(), name) {
            return Some(OpcodeMnemonic::StackFree);
        }
        let name: &[char] = &['e', 'x', 'i', 't'];
        assert(name@ =~= seq!['e', 'x', 'i', 't']);
        if same_chars(v.as_slice(), name) {
            return Some(OpcodeMnemonic::Exit);
        }
        let name: &[char] = &['r', 'e', 't', 'f'];
        assert(name@ =~= seq!['r', 'e', 't', 'f']);
        if same_chars(v.as_slice(), name) {
            return Some(OpcodeMnemonic::RetFree);
        }
        let name: &[char] = &['m', 'a', 'l', 'l', 'o', 'c'];
        assert(name@ =~= seq!['m', 'a', 'l', 'l', 'o', 'c']);
        if same_chars(v.as_slice(), name) {
            return Some(OpcodeMnemonic::HAlloc);
        }
        let name: &[char] = &['f', 'r', 'e', 'e'];
        assert(name@ =~= seq!['f', 'r', 'e', 'e']);
        if same_chars(v.as_slice(), name) {
            return Some(OpcodeMnemonic::HFree);
        }
        let name: &[char] = &['m', 'o', 'v'];
        assert(name@ =~= seq!['m', 'o', 'v']);
        if same_chars(v.as_slice(), name) {
            return Some(OpcodeMnemonic::Mov);
        }
        let name: &[char] = &['j', 'm', 'p'];
        assert(name@ =~= seq!['j', 'm', 'p']);
        if same_chars(v.as_slice(), name) {
            return Some(OpcodeMnemonic::Jmp);
        }
        let name: &[char] = &['j', 'z'];
        assert(name@ =~= seq!['j', 'z']);
        if same_chars(v.as_slice(), name) {
            return Some(OpcodeMnemonic::JmpIfZero);
        }
        let name: &[char] = &['j', 'n', 'z'];
        assert(name@ =~= seq!['j', 'n', 'z']);
        if same_chars(v.as_slice(), name) {
            return Some(OpcodeMnemonic::JmpIfNotZero);
        }
        let name: &[char] = &['j', 'e'];
        assert(name@ =~= seq!['j', 'e']);
        if same_chars(v.as_slice(), name) {
            return Some(OpcodeMnemonic::JmpIfEqual);
        }
        let name: &[char] = &['j', 'n', 'e'];
        assert(name@ =~= seq!['j', 'n', 'e']);
        if same_chars(v.as_slice(), name) {
            return Some(OpcodeMnemonic::JmpIfNotEqual);
        }
        let name: &[char] = &['j', 's'];
        assert(name@ =~= seq!['j', 's']);
        if same_chars(v.as_slice(), name) {
            return Some(OpcodeMnemonic::JmpIfSign);
        }
        let name: &[char] = &['j', 'n', 's'];
        assert(name@ =~= seq!['j', 'n', 's']);
        if same_chars(v.as_slice(), name) {
            return Some(OpcodeMnemonic::JmpIfNotSign);
        }
        let name: &[char] = &['j', 'o'];
        assert(name@ =~= seq!['j', 'o']);
        if same_chars(v.as_slice(), name) {
            return Some(OpcodeMnemonic::JmpIfOverflow);
        }
        let name: &[char] = &['j', 'n', 'o'];
        assert(name@ =~= seq!['j', 'n', 'o']);
        if same_chars(v.as_slice(), name) {
            return Some(OpcodeMnemonic::JmpIfNotOverflow);
        }
        let name: &[char] = &['j', 'c'];
        assert(name@ =~= seq!['j', 'c']);
        if same_chars(v.as_slice(), name) {
            return Some(OpcodeMnemonic::JmpIfCarry);
        }
        let name: &[char] = &['j', 'b'];
        assert(name@ =~= seq!['j', 'b']);
        if same_chars(v.as_slice(), name) {
            return Some(OpcodeMnemonic::JmpIfBelow);
        }
        let name: &[char] = &['j', 'n', 'a', 'e'];
        assert(name@ =~= seq!['j', 'n', 'a', 'e']);
        if same_chars(v.as_slice(), name) {
            return Some(OpcodeMnemonic::JmpIfNotAboveEqual);
        }
        let name: &[char] = &['j', 'n', 'c'];
        assert(name@ =~= seq!['j', 'n', 'c']);
        if same_chars(v.as_slice(), name) {
            return Some(OpcodeMnemonic::JmpIfNotCarry);
        }
        let name: &[char] = &['j', 'a', 'e'];
        assert(name@ =~= seq!['j', 'a', 'e']);
        if same_chars(v.as_slice(), name) {
            return Some(OpcodeMnemonic::JmpIfAboveEqual);
        }
        let name: &[char] = &['j', 'n', 'b'];
        assert(name@ =~= seq!['j', 'n', 'b']);
        if same_chars(v.as_slice(), name) {
            return Some(OpcodeMnemonic::JmpIfNotBelow);
        }
        let name: &[char] = &['j', 'p'];
        assert(name@ =~= seq!['j', 'p']);
        if same_chars(v.as_slice(), name) {
            return Some(OpcodeMnemonic::JmpIfParity);
        }
        let name: &[char] = &['j', 'n', 'p'];
        assert(name@ =~= seq!['j', 'n', 'p']);
        if same_chars(v.as_slice(), name) {
            return Some(OpcodeMnemonic::JmpIfNotParity);
        }
        let name: &[char] = &['j', 'b', 'e'];
        assert(name@ =~= seq!['j', 'b', 'e']);
        if same_chars(v.as_slice(), name) {
            return Some(OpcodeMnemonic::JmpIfBelowEqual);
        }
        let name: &[char] = &['j', 'n', 'a'];
        assert(name@ =~= seq!['j', 'n', 'a']);
        if same_chars(v.as_slice(), name) {
            return Some(OpcodeMnemonic::JmpIfNotAbove);
        }
        let name: &[char] = &['j', 'a'];
        assert(name@ =~= seq!['j', 'a']);
        if same_chars(v.as_slice(), name) {
            return Some(OpcodeMnemonic::JmpIfAbove);
        }
        let name: &[char] = &['j', 'n', 'b', 'e'];
        assert(name@ =~= seq!['j', 'n', 'b', 'e']);
        if same_chars(v.as_slice(), name) {
            return Some(OpcodeMnemonic::JmpIfNotBelowEqual);
        }
        let name: &[char] = &['j', 'l'];
        assert(name@ =~= seq!['j', 'l']);
        if same_chars(v.as_slice(), name) {
            return Some(OpcodeMnemonic::JmpIfLess);
        }
        let name: &[char] = &['j', 'n', 'l', 'e'];
        assert(name@ =~= seq!['j', 'n', 'l', 'e']);
        if same_chars(v.as_slice(), name) {
            return Some(OpcodeMnemonic::JmpIfNotGreaterEqual);
        }
        let name: &[char] = &['j', 'g', 'e'];
        assert(name@ =~= seq!['j', 'g', 'e']);
        if same_chars(v.as_slice(), name) {
            return Some(OpcodeMnemonic::JmpIfGreaterEqual);
        }
        let name: &[char] = &['j', 'n', 'l'];
        assert(name@ =~= seq!['j', 'n', 'l']);
        if same_chars(v.as_slice(), name) {
            return Some(OpcodeMnemonic::JmpIfNotLess);
        }
        let name: &[char] = &['j', 'l', 'e'];
        assert(name@ =~= seq!['j', 'l', 'e']);
        if same_chars(v.as_slice(), name) {
            return Some(OpcodeMnemonic::JmpIfLessEqual);
        }
        let name: &[char] = &['j', 'n', 'g'];
        assert(name@ =~= seq!['j', 'n', 'g']);
        if same_chars(v.as_slice(), name) {
            return Some(OpcodeMnemonic::JmpIfNotGreater);
        }
        let name: &[char] = &['j', 'g'];
        assert(name@ =~= seq!['j', 'g']);
        if same_chars(v.as_slice(), name) {
            return Some(OpcodeMnemonic::JmpIfGreater);
        }
        let name: &[char] = &['j', 'n', 'g', 'e'];
        assert(name@ =~= seq!['j', 'n', 'g', 'e']);
        if same_chars(v.as_slice(), name) {
            return Some(OpcodeMnemonic::JmpIfNotLessEqual);
        }
        let name: &[char] = &['j', 'e', 'r'];
        assert(name@ =~= seq!['j', 'e', 'r']);
        if same_chars(v.as_slice(), name) {
            return Some(OpcodeMnemonic::JmpIfErr);
        }
        let name: &[char] = &['j', 'n', 'o', 'k'];
        assert(name@ =~= seq!['j', 'n', 'o', 'k']);
        if same_chars(v.as_slice(), name) {
            return Some(OpcodeMnemonic::JmpIfNotOk);
        }
        let name: &[char] = &['j', 'n', 'e', 'r'];
        assert(name@ =~= seq!['j', 'n', 'e', 'r']);
        if same_chars(v.as_slice(), name) {
            return Some(OpcodeMnemonic::JmpIfNotErr);
        }
        let name: &[char] = &['j', 'o', 'k'];
        assert(name@ =~= seq!['j', 'o', 'k']);
        if same_chars(v.as_slice(), name) {
            return Some(OpcodeMnemonic::JmpIfOk);
        }
        let name: &[char] = &['c', 'm', 'p'];
        assert(name@ =~= seq!['c', 'm', 'p']);
        if same_chars(v.as_slice(), name) {
            return Some(OpcodeMnemonic::Cmp);
        }
        let name: &[char] = &['a', 'd', 'd'];
        assert(name@ =~= seq!['a', 'd', 'd']);
        if same_chars(v.as_slice(), name) {
            return Some(OpcodeMnemonic::Add);
        }
        let name: &[char] = &['s', 'u', 'b'];
        assert(name@ =~= seq!['s', 'u', 'b']);
        if same_chars(v.as_slice(), name) {
            return Some(OpcodeMnemonic::Sub);
        }
        let name: &[char] = &['m', 'u', 'l'];
        assert(name@ =~= seq!['m', 'u', 'l']);
        if same_chars(v.as_slice(), name) {
            return Some(OpcodeMnemonic::Mul);
        }
        let name: &[char] = &['d', 'i', 'v'];
        assert(name@ =~= seq!['d', 'i', 'v']);
        if same_chars(v.as_slice(), name) {
            return Some(OpcodeMnemonic::Div);
        }
        let name: &[char] = &['m', 'o', 'd'];
        assert(name@ =~= seq!['m', 'o', 'd']);
        if same_chars(v.as_slice(), name) {
            return Some(OpcodeMnemonic::Mod);
        }
        let name: &[char] = &['p', 'u', 's', 'h'];
        assert(name@ =~= seq!['p', 'u', 's', 'h']);
        if same_chars(v.as_slice(), name) {
            return Some(OpcodeMnemonic::Push);
        }
        let name: &[char] = &['p', 'o', 'p'];
        assert(name@ =~= seq!['p', 'o', 'p']);
        if same_chars(v.as_slice(), name) {
            return Some(OpcodeMnemonic::Pop);
        }
        None
    }
}

impl Register {
    /// The name that stands for each variant in source text.
    pub open spec fn spec_name(self) -> Seq<char> {
        match self {
            Register::A => seq!['a'],
            Register::B => seq!['b'],
            Register::C => seq!['c'],
            Register::D => seq!['d'],
            Register::StackPointer => seq!['s', 'p'],
            Register::BasePointer => seq!['b', 'p'],
            Register::SourceIndex => seq!['s', 'i'],
            Register::DestinationIndex => seq!['d', 'i'],
            Register::InstructionPointer => seq!['i', 'p'],
            Register::LoopCounterA => seq!['l', 'c', 'a'],
            Register::LoopCounterB => seq!['l', 'c', 'b'],
            Register::LocalA => seq!['l', 'a'],
            Register::LocalB => seq!['l', 'b'],
            Register::LocalC => seq!['l', 'c'],
            Register::LocalD => seq!['l', 'd'],
            Register::LocalE => seq!['l', 'e'],
            Register::LocalF => seq!['l', 'f'],
            Register::LocalG => seq!['l', 'g'],
            Register::LocalH => seq!['l', 'h'],
        }
    }

    /// The variant whose name is exactly `s`, if any.
    pub open spec fn spec_from_name(s: Seq<char>) -> Option<Register> {
        if s == seq!['a'] {
            Some(Register::A)
        } else if s == seq!['b'] {
            Some(Register::B)
        } else if s == seq!['c'] {
            Some(Register::C)
        } else if s == seq!['d'] {
            Some(Register::D)
        } else if s == seq!['s', 'p'] {
            Some(Register::StackPointer)
        } else if s == seq!['b', 'p'] {
            Some(Register::BasePointer)
        } else if s == seq!['s', 'i'] {
            Some(Register::SourceIndex)
        } else if s == seq!['d', 'i'] {
            Some(Register::DestinationIndex)
        } else if s == seq!['i', 'p'] {
            Some(Register::InstructionPointer)
        } else if s == seq!['l', 'c', 'a'] {
            Some(Register::LoopCounterA)
        } else if s == seq!['l', 'c', 'b'] {
            Some(Register::LoopCounterB)
        } else if s == seq!['l', 'a'] {
            Some(Register::LocalA)
        } else if s == seq!['l', 'b'] {
            Some(Register::LocalB)
        } else if s == seq!['l', 'c'] {
            Some(Register::LocalC)
        } else if s == seq!['l', 'd'] {
            Some(Register::LocalD)
        } else if s == seq!['l', 'e'] {
            Some(Register::LocalE)
        } else if s == seq!['l', 'f'] {
            Some(Register::LocalF)
        } else if s == seq!['l', 'g'] {
            Some(Register::LocalG)
        } else if s == seq!['l', 'h'] {
            Some(Register::LocalH)
        } else {
            None
        }
    }

    /// Looks up the register family written as `s` in source text.
    #[verifier::spinoff_prover]
    #[verifier::rlimit(50)]
    pub fn from_name(s: &str) -> (r: Option<Register>)
        ensures
            r == Self::spec_from_name(s@),
    {
        let v = chars_of(s);
        let name: &[char] = &['a'];
        assert(name@ =~= seq!['a']);
        if same_chars(v.as_slice(), name) {
            return Some(Register::A);
        }
        let name: &[char] = &['b'];
        assert(name@ =~= seq!['b']);
        if same_chars(v.as_slice(), name) {
            return Some(Register::B);
        }
        let name: &[char] = &['c'];
        assert(name@ =~= seq!['c']);
        if same_chars(v.as_slice(), name) {
            return Some(Register::C);
        }
        let name: &[char] = &['d'];
        assert(name@ =~= seq!['d']);
        if same_chars(v.as_slice(), name) {
            return Some(Register::D);
        }
        let name: &[char] = &['s', 'p'];
        assert(name@ =~= seq!['s', 'p']);
        if same_chars(v.as_slice(), name) {
            return Some(Register::StackPointer);
        }
        let name: &[char] = &['b', 'p'];
        assert(name@ =~= seq!['b', 'p']);
        if same_chars(v.as_slice(), name) {
            return Some(Register::BasePointer);
        }
        let name: &[char] = &['s', 'i'];
        assert(name@ =~= seq!['s', 'i']);
        if same_chars(v.as_slice(), name) {
            return Some(Register::SourceIndex);
        }
        let name: &[char] = &['d', 'i'];
        assert(name@ =~= seq!['d', 'i']);
        if same_chars(v.as_slice(), name) {
            return Some(Register::DestinationIndex);
        }
        let name: &[char] = &['i', 'p'];
        assert(name@ =~= seq!['i', 'p']);
        if same_chars(v.as_slice(), name) {
            return Some(Register::InstructionPointer);
        }
        let name: &[char] = &['l', 'c', 'a'];
        assert(name@ =~= seq!['l', 'c', 'a']);
        if same_chars(v.as_slice(), name) {
            return Some(Register::LoopCounterA);
        }
        let name: &[char] = &['l', 'c', 'b'];
        assert(name@ =~= seq!['l', 'c', 'b']);
        if same_chars(v.as_slice(), name) {
            return Some(Register::LoopCounterB);
        }
        let name: &[char] = &['l', 'a'];
        assert(name@ =~= seq!['l', 'a']);
        if same_chars(v.as_slice(), name) {
            return Some(Register::LocalA);
        }
        let name: &[char] = &['l', 'b'];
        assert(name@ =~= seq!['l', 'b']);
        if same_chars(v.as_slice(), name) {
            return Some(Register::LocalB);
        }
        let name: &[char] = &['l', 'c'];
        assert(name@ =~= seq!['l', 'c']);
        if same_chars(v.as_slice(), name) {
            return Some(Register::LocalC);
        }
        let name: &[char] = &['l', 'd'];
        assert(name@ =~= seq!['l', 'd']);
        if same_chars(v.as_slice(), name) {
            return Some(Register::LocalD);
        }
        let name: &[char] = &['l', 'e'];
        assert(name@ =~= seq!['l', 'e']);
        if same_chars(v.as_slice(), name) {
            return Some(Register::LocalE);
        }
        let name: &[char] = &['l', 'f'];
        assert(name@ =~= seq!['l', 'f']);
        if same_chars(v.as_slice(), name) {
            return Some(Register::LocalF);
        }
        let name: &[char] = &['l', 'g'];
        assert(name@ =~= seq!['l', 'g']);
        if same_chars(v.as_slice(), name) {
            return Some(Register::LocalG);
        }
        let name: &[char] = &['l', 'h'];
        assert(name@ =~= seq!['l', 'h']);
        if same_chars(v.as_slice(), name) {
            return Some(Register::LocalH);
        }
        None
    }
}

impl CompilerConstruct {
    /// The name that stands for each variant in source text.
    pub open spec fn spec_name(self) -> Seq<char> {
        match self {
            CompilerConstruct::BlockEnd => seq!['e', 'n', 'd'],
            CompilerConstruct::If => seq!['i', 'f'],
            CompilerConstruct::Else => seq!['e', 'l', 's', 'e'],
            CompilerConstruct::ElseIf => seq!['e', 'l', 's', 'e', 'i', 'f'],
            CompilerConstruct::InlineLoop => seq!['i', 'n', 'l', 'i', 'n', 'e', '_', 'l', 'o', 'o', 'p'],
            CompilerConstruct::Loop => seq!['l', 'o', 'o', 'p'],
            CompilerConstruct::While => seq!['w', 'h', 'i', 'l', 'e'],
            CompilerConstruct::For => seq!['f', 'o', 'r'],
            CompilerConstruct::LoopBreak => seq!['b', 'r', 'e', 'a', 'k'],
            CompilerConstruct::LoopContinue => seq!['c', 'o', 'n', 't', 'i', 'n', 'u', 'e'],
            CompilerConstruct::Pry => seq!['p', 'r', 'y'],
            CompilerConstruct::GetArg => seq!['g', 'e', 't', 'a', 'r', 'g'],
            CompilerConstruct::EngineCall => seq!['e', 'n', 'g', 'c', 'a', 'l', 'l'],
            CompilerConstruct::LoadArgs => seq!['l', 'o', 'a', 'd', 'a', 'r', 'g', 's'],
            CompilerConstruct::ProcCall => seq!['c', 'a', 'l', 'l'],
        }
    }

    /// The variant whose name is exactly `s`, if any.
    pub open spec fn spec_from_name(s: Seq<char>) -> Option<CompilerConstruct> {
        if s == seq!['e', 'n', 'd'] {
            Some(CompilerConstruct::BlockEnd)
        } else if s == seq!['i', 'f'] {
            Some(CompilerConstruct::If)
        } else if s == seq!['e', 'l', 's', 'e'] {
            Some(CompilerConstruct::Else)
        } else if s == seq!['e', 'l', 's', 'e', 'i', 'f'] {
            Some(CompilerConstruct::ElseIf)
        } else if s == seq!['i', 'n', 'l', 'i', 'n', 'e', '_', 'l', 'o', 'o', 'p'] {
            Some(CompilerConstruct::InlineLoop)
        } else if s == seq!['l', 'o', 'o', 'p'] {
            Some(CompilerConstruct::Loop)
        } else if s == seq!['w', 'h', 'i', 'l', 'e'] {
            Some(CompilerConstruct::While)
        } else if s == seq!['f', 'o', 'r'] {
            Some(CompilerConstruct::For)
        } else if s == seq!['b', 'r', 'e', 'a', 'k'] {
            Some(CompilerConstruct::LoopBreak)
        } else if s == seq!['c', 'o', 'n', 't', 'i', 'n', 'u', 'e'] {
            Some(CompilerConstruct::LoopContinue)
        } else if s == seq!['p', 'r', 'y'] {
            Some(CompilerConstruct::Pry)
        } else if s == seq!['g', 'e', 't', 'a', 'r', 'g'] {
            Some(CompilerConstruct::GetArg)
        } else if s == seq!['e', 'n', 'g', 'c', 'a', 'l', 'l'] {
            Some(CompilerConstruct::EngineCall)
        } else if s == seq!['l', 'o', 'a', 'd', 'a', 'r', 'g', 's'] {
            Some(CompilerConstruct::LoadArgs)
        } else if s == seq!['c', 'a', 'l', 'l'] {
            Some(CompilerConstruct::ProcCall)
        } else {
            None
        }
    }

    /// Looks up the compiler construct written as `s` after `@`.
    #[verifier::spinoff_prover]
    #[verifier::rlimit(50)]
    pub fn from_name(s: &str) -> (r: Option<CompilerConstruct>)
        ensures
            r == Self::spec_from_name(s@),
    {
        let v = chars_of(s);
        let name: &[char] = &['e', 'n', 'd'];
        assert(name@ =~= seq!['e', 'n', 'd']);
        if same_chars(v.as_slice(), name) {
            return Some(CompilerConstruct::BlockEnd);
        }
        let name: &[char] = &['i', 'f'];
        assert(name@ =~= seq!['i', 'f']);
        if same_chars(v.as_slice(), name) {
            return Some(CompilerConstruct::If);
        }
        let name: &[char] = &['e', 'l', 's', 'e'];
        assert(name@ =~= seq!['e', 'l', 's', 'e']);
        if same_chars(v.as_slice(), name) {
            return Some(CompilerConstruct::Else);
        }
        let name: &[char] = &['e', 'l', 's', 'e', 'i', 'f'];
        assert(name@ =~= seq!['e', 'l', 's', 'e', 'i', 'f']);
        if same_chars(v.as_slice(), name) {
            return Some(CompilerConstruct::ElseIf);
        }
        let name: &[char] = &['i', 'n', 'l', 'i', 'n', 'e', '_', 'l', 'o', 'o', 'p'];
        assert(name@ =~= seq!['i', 'n', 'l', 'i', 'n', 'e', '_', 'l', 'o', 'o', 'p']);
        if same_chars(v.as_slice(), name) {
            return Some(CompilerConstruct::InlineLoop);
        }
        let name: &[char] = &['l', 'o', 'o', 'p'];
        assert(name@ =~= seq!['l', 'o', 'o', 'p']);
        if same_chars(v.as_slice(), name) {
            return Some(CompilerConstruct::Loop);
        }
        let name: &[char] = &['w', 'h', 'i', 'l', 'e'];
        assert(name@ =~= seq!['w', 'h', 'i', 'l', 'e']);
        if same_chars(v.as_slice(), name) {
            return Some(CompilerConstruct::While);
        }
        let name: &[char] = &['f', 'o', 'r'];
        assert(name@ =~= seq!['f', 'o', 'r']);
        if same_chars(v.as_slice(), name) {
            return Some(CompilerConstruct::For);
        }
        let name: &[char] = &['b', 'r', 'e', 'a', 'k'];
        assert(name@ =~= seq!['b', 'r', 'e', 'a', 'k']);
        if same_chars(v.as_slice(), name) {
            return Some(CompilerConstruct::LoopBreak);
        }
        let name: &[char] = &['c', 'o', 'n', 't', 'i', 'n', 'u', 'e'];
        assert(name@ =~= seq!['c', 'o', 'n', 't', 'i', 'n', 'u', 'e']);
        if same_chars(v.as_slice(), name) {
            return Some(CompilerConstruct::LoopContinue);
        }
        let name: &[char] = &['p', 'r', 'y'];
        assert(name@ =~= seq!['p', 'r', 'y']);
        if same_chars(v.as_slice(), name) {
            return Some(CompilerConstruct::Pry);
        }
        let name: &[char] = &['g', 'e', 't', 'a', 'r', 'g'];
        assert(name@ =~= seq!['g', 'e', 't', 'a', 'r', 'g']);
        if same_chars(v.as_slice(), name) {
            return Some(CompilerConstruct::GetArg);
        }
        let name: &[char] = &['e', 'n', 'g', 'c', 'a', 'l', 'l'];
        assert(name@ =~= seq!['e', 'n', 'g', 'c', 'a', 'l', 'l']);
        if same_chars(v.as_slice(), name) {
            return Some(CompilerConstruct::EngineCall);
        }
        let name: &[char] = &['l', 'o', 'a', 'd', 'a', 'r', 'g', 's'];
        assert(name@ =~= seq!['l', 'o', 'a', 'd', 'a', 'r', 'g', 's']);
        if same_chars(v.as_slice(), name) {
            return Some(CompilerConstruct::LoadArgs);
        }
        let name: &[char] = &['c', 'a', 'l', 'l'];
        assert(name@ =~= seq!['c', 'a', 'l', 'l']);
        if same_chars(v.as_slice(), name) {
            return Some(CompilerConstruct::ProcCall);
        }
        None
    }
}

impl CompilerDirective {
    /// The name that stands for each variant in source text.
    pub open spec fn spec_name(self) -> Seq<char> {
        match self {
            CompilerDirective::Use => seq!['u', 's', 'e'],
            CompilerDirective::Namespace => seq!['n', 'a', 'm', 'e', 's', 'p', 'a', 'c', 'e'],
        }
    }

    /// The variant whose name is exactly `s`, if any.
    pub open spec fn spec_from_name(s: Seq<char>) -> Option<CompilerDirective> {
        if s == seq!['u', 's', 'e'] {
            Some(CompilerDirective::Use)
        } else if s == seq!['n', 'a', 'm', 'e', 's', 'p', 'a', 'c', 'e'] {
            Some(CompilerDirective::Namespace)
        } else {
            None
        }
    }

    /// Looks up the compiler directive written as `s`.
    #[verifier::spinoff_prover]
    #[verifier::rlimit(50)]
    pub fn from_name(s: &str) -> (r: Option<CompilerDirective>)
        ensures
            r == Self::spec_from_name(s@),
    {
        let v = chars_of(s);
        let name: &[char] = &['u', 's', 'e'];
        assert(name@ =~= seq!['u', 's', 'e']);
        if same_chars(v.as_slice(), name) {
            return Some(CompilerDirective::Use);
        }
        let name: &[char] = &['n', 'a', 'm', 'e', 's', 'p', 'a', 'c', 'e'];
        assert(name@ =~= seq!['n', 'a', 'm', 'e', 's', 'p', 'a', 'c', 'e']);
        if same_chars(v.as_slice(), name) {
            return Some(CompilerDirective::Namespace);
        }
        None
    }
}

impl ReservedWord {
    /// The name that stands for each variant in source text.
    pub open spec fn spec_name(self) -> Seq<char> {
        match self {
            ReservedWord::Const => seq!['c', 'o', 'n', 's', 't'],
            ReservedWord::Extern => seq!['e', 'x', 't', 'e', 'r', 'n'],
            ReservedWord::Alias => seq!['s', 't', 'r', 'u', 'c', 't'],
        }
    }

    /// The variant whose name is exactly `s`, if any.
    pub open spec fn spec_from_name(s: Seq<char>) -> Option<ReservedWord> {
        if s == seq!['c', 'o', 'n', 's', 't'] {
            Some(ReservedWord::Const)
        } else if s == seq!['e', 'x', 't', 'e', 'r', 'n'] {
            Some(ReservedWord::Extern)
        } else if s == seq!['s', 't', 'r', 'u', 'c', 't'] {
            Some(ReservedWord::Alias)
        } else {
            None
        }
    }

    /// Looks up the reserved word written as `s`.
    #[verifier::spinoff_prover]
    #[verifier::rlimit(50)]
    pub fn from_name(s: &str) -> (r: Option<ReservedWord>)
        ensures
            r == Self::spec_from_name(s@),
    {
        let v = chars_of(s);
        let name: &[char] = &['c', 'o', 'n', 's', 't'];
        assert(name@ =~= seq!['c', 'o', 'n', 's', 't']);
        if same_chars(v.as_slice(), name) {
            return Some(ReservedWord::Const);
        }
        let name: &[char] = &['e', 'x', 't', 'e', 'r', 'n'];
        assert(name@ =~= seq!['e', 'x', 't', 'e', 'r', 'n']);
        if same_chars(v.as_slice(), name) {
            return Some(ReservedWord::Extern);
        }
        let name: &[char] = &['s', 't', 'r', 'u', 'c', 't'];
        assert(name@ =~= seq!['s', 't', 'r', 'u', 'c', 't']);
        if same_chars(v.as_slice(), name) {
            return Some(ReservedWord::Alias);
        }
        None
    }
}


impl OpcodeMnemonic {
    /// Returns the name that stands for the variant in source text.
    pub fn name(&self) -> (r: String)
        ensures
            r@ == self.spec_name(),
    {
        let s: &[char] = match self {
            OpcodeMnemonic::EngCall => {
                let n: &[char] = &['e', 'n', 'g', 'c', 'a', 'l', 'l'];
                assert(n@ =~= seq!['e', 'n', 'g', 'c', 'a', 'l', 'l']);
                n
            },
            OpcodeMnemonic::Nop => {
                let n: &[char] = &['n', 'o', 'p'];
                assert(n@ =~= seq!['n', 'o', 'p']);
                n
            },
            OpcodeMnemonic::Call => {
                let n: &[char] = &['c', 'a', 'l', 'l'];
                assert(n@ =~= seq!['c', 'a', 'l', 'l']);
                n
            },
            OpcodeMnemonic::Ret => {
                let n: &[char] = &['r', 'e', 't'];
                assert(n@ =~= seq!['r', 'e', 't']);
                n
            },
            OpcodeMnemonic::StackAlloc => {
                let n: &[char] = &['s', 't', 'a', 'c', 'k', 'a', 'l', 'l', 'o', 'c'];
                assert(n@ =~= seq!['s', 't', 'a', 'c', 'k', 'a', 'l', 'l', 'o', 'c']);
                n
            },
            OpcodeMnemonic::StackFree => {
                let n: &[char] = &['s', 't', 'a', 'c', 'k', 'f', 'r', 'e', 'e'];
                assert(n@ =~= seq!['s', 't', 'a', 'c', 'k', 'f', 'r', 'e', 'e']);
                n
            },
            OpcodeMnemonic::Exit => {
                let n: &[char] = &['e', 'x', 'i', 't'];
                assert(n@ =~= seq!['e', 'x', 'i', 't']);
                n
            },
            OpcodeMnemonic::RetFree => {
                let n: &[char] = &['r', 'e', 't', 'f'];
                assert(n@ =~= seq!['r', 'e', 't', 'f']);
                n
            },
            OpcodeMnemonic::HAlloc => {
                let n: &[char] = &['m', 'a', 'l', 'l', 'o', 'c'];
                assert(n@ =~= seq!['m', 'a', 'l', 'l', 'o', 'c']);
                n
            },
            OpcodeMnemonic::HFree => {
                let n: &[char] = &['f', 'r', 'e', 'e'];
                assert(n@ =~= seq!['f', 'r', 'e', 'e']);
                n
            },
            OpcodeMnemonic::Mov => {
                let n: &[char] = &['m', 'o', 'v'];
                assert(n@ =~= seq!['m', 'o', 'v']);
                n
            },
            OpcodeMnemonic::Jmp => {
                let n: &[char] = &['j', 'm', 'p'];
                assert(n@ =~= seq!['j', 'm', 'p']);
                n
            },
            OpcodeMnemonic::JmpIfZero => {
                let n: &[char] = &['j', 'z'];
                assert(n@ =~= seq!['j', 'z']);
                n
            },
            OpcodeMnemonic::JmpIfNotZero => {
                let n: &[char] = &['j', 'n', 'z'];
                assert(n@ =~= seq!['j', 'n', 'z']);
                n
            },
            OpcodeMnemonic::JmpIfEqual => {
                let n: &[char] = &['j', 'e'];
                assert(n@ =~= seq!['j', 'e']);
                n
            },
            OpcodeMnemonic::JmpIfNotEqual => {
                let n: &[char] = &['j', 'n', 'e'];
                assert(n@ =~= seq!['j', 'n', 'e']);
                n
            },
            OpcodeMnemonic::JmpIfSign => {
                let n: &[char] = &['j', 's'];
                assert(n@ =~= seq!['j', 's']);
                n
            },
            OpcodeMnemonic::JmpIfNotSign => {
                let n: &[char] = &['j', 'n', 's'];
                assert(n@ =~= seq!['j', 'n', 's']);
                n
            },
            OpcodeMnemonic::JmpIfOverflow => {
                let n: &[char] = &['j', 'o'];
                assert(n@ =~= seq!['j', 'o']);
                n
            },
            OpcodeMnemonic::JmpIfNotOverflow => {
                let n: &[char] = &['j', 'n', 'o'];
                assert(n@ =~= seq!['j', 'n', 'o']);
                n
            },
            OpcodeMnemonic::JmpIfCarry => {
                let n: &[char] = &['j', 'c'];
                assert(n@ =~= seq!['j', 'c']);
                n
            },
            OpcodeMnemonic::JmpIfBelow => {
                let n: &[char] = &['j', 'b'];
                assert(n@ =~= seq!['j', 'b']);
                n
            },
            OpcodeMnemonic::JmpIfNotAboveEqual => {
                let n: &[char] = &['j', 'n', 'a', 'e'];
                assert(n@ =~= seq!['j', 'n', 'a', 'e']);
                n
            },
            OpcodeMnemonic::JmpIfNotCarry => {
                let n: &[char] = &['j', 'n', 'c'];
                assert(n@ =~= seq!['j', 'n', 'c']);
                n
            },
            OpcodeMnemonic::JmpIfAboveEqual => {
                let n: &[char] = &['j', 'a', 'e'];
                assert(n@ =~= seq!['j', 'a', 'e']);
                n
            },
            OpcodeMnemonic::JmpIfNotBelow => {
                let n: &[char] = &['j', 'n', 'b'];
                assert(n@ =~= seq!['j', 'n', 'b']);
                n
            },
            OpcodeMnemonic::JmpIfParity => {
                let n: &[char] = &['j', 'p'];
                assert(n@ =~= seq!['j', 'p']);
                n
            },
            OpcodeMnemonic::JmpIfNotParity => {
                let n: &[char] = &['j', 'n', 'p'];
                assert(n@ =~= seq!['j', 'n', 'p']);
                n
            },
            OpcodeMnemonic::JmpIfBelowEqual => {
                let n: &[char] = &['j', 'b', 'e'];
                assert(n@ =~= seq!['j', 'b', 'e']);
                n
            },
            OpcodeMnemonic::JmpIfNotAbove => {
                let n: &[char] = &['j', 'n', 'a'];
                assert(n@ =~= seq!['j', 'n', 'a']);
                n
            },
            OpcodeMnemonic::JmpIfAbove => {
                let n: &[char] = &['j', 'a'];
                assert(n@ =~= seq!['j', 'a']);
                n
            },
            OpcodeMnemonic::JmpIfNotBelowEqual => {
                let n: &[char] = &['j', 'n', 'b', 'e'];
                assert(n@ =~= seq!['j', 'n', 'b', 'e']);
                n
            },
            OpcodeMnemonic::JmpIfLess => {
                let n: &[char] = &['j', 'l'];
                assert(n@ =~= seq!['j', 'l']);
                n
            },
            OpcodeMnemonic::JmpIfNotGreaterEqual => {
                let n: &[char] = &['j', 'n', 'l', 'e'];
                assert(n@ =~= seq!['j', 'n', 'l', 'e']);
                n
            },
            OpcodeMnemonic::JmpIfGreaterEqual => {
                let n: &[char] = &['j', 'g', 'e'];
                assert(n@ =~= seq!['j', 'g', 'e']);
                n
            },
            OpcodeMnemonic::JmpIfNotLess => {
                let n: &[char] = &['j', 'n', 'l'];
                assert(n@ =~= seq!['j', 'n', 'l']);
                n
            },
            OpcodeMnemonic::JmpIfLessEqual => {
                let n: &[char] = &['j', 'l', 'e'];
                assert(n@ =~= seq!['j', 'l', 'e']);
                n
            },
            OpcodeMnemonic::JmpIfNotGreater => {
                let n: &[char] = &['j', 'n', 'g'];
                assert(n@ =~= seq!['j', 'n', 'g']);
                n
            },
            OpcodeMnemonic::JmpIfGreater => {
                let n: &[char] = &['j', 'g'];
                assert(n@ =~= seq!['j', 'g']);
                n
            },
            OpcodeMnemonic::JmpIfNotLessEqual => {
                let n: &[char] = &['j', 'n', 'g', 'e'];
                assert(n@ =~= seq!['j', 'n', 'g', 'e']);
                n
            },
            OpcodeMnemonic::JmpIfErr => {
                let n: &[char] = &['j', 'e', 'r'];
                assert(n@ =~= seq!['j', 'e', 'r']);
                n
            },
            OpcodeMnemonic::JmpIfNotOk => {
                let n: &[char] = &['j', 'n', 'o', 'k'];
                assert(n@ =~= seq!['j', 'n', 'o', 'k']);
                n
            },
            OpcodeMnemonic::JmpIfNotErr => {
                let n: &[char] = &['j', 'n', 'e', 'r'];
                assert(n@ =~= seq!['j', 'n', 'e', 'r']);
                n
            },
            OpcodeMnemonic::JmpIfOk => {
                let n: &[char] = &['j', 'o', 'k'];
                assert(n@ =~= seq!['j', 'o', 'k']);
                n
            },
            OpcodeMnemonic::Cmp => {
                let n: &[char] = &['c', 'm', 'p'];
                assert(n@ =~= seq!['c', 'm', 'p']);
                n
            },
            OpcodeMnemonic::Add => {
                let n: &[char] = &['a', 'd', 'd'];
                assert(n@ =~= seq!['a', 'd', 'd']);
                n
            },
            OpcodeMnemonic::Sub => {
                let n: &[char] = &['s', 'u', 'b'];
                assert(n@ =~= seq!['s', 'u', 'b']);
                n
            },
            OpcodeMnemonic::Mul => {
                let n: &[char] = &['m', 'u', 'l'];
                assert(n@ =~= seq!['m', 'u', 'l']);
                n
            },
            OpcodeMnemonic::Div => {
                let n: &[char] = &['d', 'i', 'v'];
                assert(n@ =~= seq!['d', 'i', 'v']);
                n
            },
            OpcodeMnemonic::Mod => {
                let n: &[char] = &['m', 'o', 'd'];
                assert(n@ =~= seq!['m', 'o', 'd']);
                n
            },
            OpcodeMnemonic::Push => {
                let n: &[char] = &['p', 'u', 's', 'h'];
                assert(n@ =~= seq!['p', 'u', 's', 'h']);
                n
            },
            OpcodeMnemonic::Pop => {
                let n: &[char] = &['p', 'o', 'p'];
                assert(n@ =~= seq!['p', 'o', 'p']);
                n
            },
        };
        string_of(s)
    }
}

impl Register {
    /// Returns the name that stands for the variant in source text.
    pub fn name(&self) -> (r: String)
        ensures
            r@ == self.spec_name(),
    {
        let s: &[char] = match self {
            Register::A => {
                let n: &[char] = &['a'];
                assert(n@ =~= seq!['a']);
                n
            },
            Register::B => {
                let n: &[char] = &['b'];
                assert(n@ =~= seq!['b']);
                n
            },
            Register::C => {
                let n: &[char] = &['c'];
                assert(n@ =~= seq!['c']);
                n
            },
            Register::D => {
                let n: &[char] = &['d'];
                assert(n@ =~= seq!['d']);
                n
            },
            Register::StackPointer => {
                let n: &[char] = &['s', 'p'];
                assert(n@ =~= seq!['s', 'p']);
                n
            },
            Register::BasePointer => {
                let n: &[char] = &['b', 'p'];
                assert(n@ =~= seq!['b', 'p']);
                n
            },
            Register::SourceIndex => {
                let n: &[char] = &['s', 'i'];
                assert(n@ =~= seq!['s', 'i']);
                n
            },
            Register::DestinationIndex => {
                let n: &[char] = &['d', 'i'];
                assert(n@ =~= seq!['d', 'i']);
                n
            },
            Register::InstructionPointer => {
                let n: &[char] = &['i', 'p'];
                assert(n@ =~= seq!['i', 'p']);
                n
            },
            Register::LoopCounterA => {
                let n: &[char] = &['l', 'c', 'a'];
                assert(n@ =~= seq!['l', 'c', 'a']);
                n
            },
            Register::LoopCounterB => {
                let n: &[char] = &['l', 'c', 'b'];
                assert(n@ =~= seq!['l', 'c', 'b']);
                n
            },
            Register::LocalA => {
                let n: &[char] = &['l', 'a'];
                assert(n@ =~= seq!['l', 'a']);
                n
            },
            Register::LocalB => {
                let n: &[char] = &['l', 'b'];
                assert(n@ =~= seq!['l', 'b']);
                n
            },
            Register::LocalC => {
                let n: &[char] = &['l', 'c'];
                assert(n@ =~= seq!['l', 'c']);
                n
            },
            Register::LocalD => {
                let n: &[char] = &['l', 'd'];
                assert(n@ =~= seq!['l', 'd']);
                n
            },
            Register::LocalE => {
                let n: &[char] = &['l', 'e'];
                assert(n@ =~= seq!['l', 'e']);
                n
            },
            Register::LocalF => {
                let n: &[char] = &['l', 'f'];
                assert(n@ =~= seq!['l', 'f']);
                n
            },
            Register::LocalG => {
                let n: &[char] = &['l', 'g'];
                assert(n@ =~= seq!['l', 'g']);
                n
            },
            Register::LocalH => {
                let n: &[char] = &['l', 'h'];
                assert(n@ =~= seq!['l', 'h']);
                n
            },
        };
        string_of(s)
    }
}

impl CompilerConstruct {
    /// Returns the name that stands for the variant in source text.
    pub fn name(&self) -> (r: String)
        ensures
            r@ == self.spec_name(),
    {
        let s: &[char] = match self {
            CompilerConstruct::BlockEnd => {
                let n: &[char] = &['e', 'n', 'd'];
                assert(n@ =~= seq!['e', 'n', 'd']);
                n
            },
            CompilerConstruct::If => {
                let n: &[char] = &['i', 'f'];
                assert(n@ =~= seq!['i', 'f']);
                n
            },
            CompilerConstruct::Else => {
                let n: &[char] = &['e', 'l', 's', 'e'];
                assert(n@ =~= seq!['e', 'l', 's', 'e']);
                n
            },
            CompilerConstruct::ElseIf => {
                let n: &[char] = &['e', 'l', 's', 'e', 'i', 'f'];
                assert(n@ =~= seq!['e', 'l', 's', 'e', 'i', 'f']);
                n
            },
            CompilerConstruct::InlineLoop => {
                let n: &[char] = &['i', 'n', 'l', 'i', 'n', 'e', '_', 'l', 'o', 'o', 'p'];
                assert(n@ =~= seq!['i', 'n', 'l', 'i', 'n', 'e', '_', 'l', 'o', 'o', 'p']);
                n
            },
            CompilerConstruct::Loop => {
                let n: &[char] = &['l', 'o', 'o', 'p'];
                assert(n@ =~= seq!['l', 'o', 'o', 'p']);
                n
            },
            CompilerConstruct::While => {
                let n: &[char] = &['w', 'h', 'i', 'l', 'e'];
                assert(n@ =~= seq!['w', 'h', 'i', 'l', 'e']);
                n
            },
            CompilerConstruct::For => {
                let n: &[char] = &['f', 'o', 'r'];
                assert(n@ =~= seq!['f', 'o', 'r']);
                n
            },
            CompilerConstruct::LoopBreak => {
                let n: &[char] = &['b', 'r', 'e', 'a', 'k'];
                assert(n@ =~= seq!['b', 'r', 'e', 'a', 'k']);
                n
            },
            CompilerConstruct::LoopContinue => {
                let n: &[char] = &['c', 'o', 'n', 't', 'i', 'n', 'u', 'e'];
                assert(n@ =~= seq!['c', 'o', 'n', 't', 'i', 'n', 'u', 'e']);
                n
            },
            CompilerConstruct::Pry => {
                let n: &[char] = &['p', 'r', 'y'];
                assert(n@ =~= seq!['p', 'r', 'y']);
                n
            },
            CompilerConstruct::GetArg => {
                let n: &[char] = &['g', 'e', 't', 'a', 'r', 'g'];
                assert(n@ =~= seq!['g', 'e', 't', 'a', 'r', 'g']);
                n
            },
            CompilerConstruct::EngineCall => {
                let n: &[char] = &['e', 'n', 'g', 'c', 'a', 'l', 'l'];
                assert(n@ =~= seq!['e', 'n', 'g', 'c', 'a', 'l', 'l']);
                n
            },
            CompilerConstruct::LoadArgs => {
                let n: &[char] = &['l', 'o', 'a', 'd', 'a', 'r', 'g', 's'];
                assert(n@ =~= seq!['l', 'o', 'a', 'd', 'a', 'r', 'g', 's']);
                n
            },
            CompilerConstruct::ProcCall => {
                let n: &[char] = &['c', 'a', 'l', 'l'];
                assert(n@ =~= seq!['c', 'a', 'l', 'l']);
                n
            },
        };
        string_of(s)
    }
}

impl ReservedWord {
    /// Returns the name that stands for the variant in source text.
    pub fn name(&self) -> (r: String)
        ensures
            r@ == self.spec_name(),
    {
        let s: &[char] = match self {
            ReservedWord::Const => {
                let n: &[char] = &['c', 'o', 'n', 's', 't'];
                assert(n@ =~= seq!['c', 'o', 'n', 's', 't']);
                n
            },
            ReservedWord::Extern => {
                let n: &[char] = &['e', 'x', 't', 'e', 'r', 'n'];
                assert(n@ =~= seq!['e', 'x', 't', 'e', 'r', 'n']);
                n
            },
            ReservedWord::Alias => {
                let n: &[char] = &['s', 't', 'r', 'u', 'c', 't'];
                assert(n@ =~= seq!['s', 't', 'r', 'u', 'c', 't']);
                n
            },
        };
        string_of(s)
    }
}



/// Reading back the name of a construct gives the construct.
pub proof fn lemma_construct_name_roundtrip(c: CompilerConstruct)
    ensures
        CompilerConstruct::spec_from_name(c.spec_name()) == Some(c),
{
    match c {
        CompilerConstruct::BlockEnd => {
            let n = seq!['e', 'n', 'd'];
        },
        CompilerConstruct::If => {
            let n = seq!['i', 'f'];
            assert(n.len() != seq!['e', 'n', 'd'].len());
        },
        CompilerConstruct::Else => {
            let n = seq!['e', 'l', 's', 'e'];
            assert(n.len() != seq!['e', 'n', 'd'].len());
            assert(n.len() != seq!['i', 'f'].len());
        },
        CompilerConstruct::ElseIf => {
            let n = seq!['e', 'l', 's', 'e', 'i', 'f'];
            assert(n.len() != seq!['e', 'n', 'd'].len());
            assert(n.len() != seq!['i', 'f'].len());
            assert(n.len() != seq!['e', 'l', 's', 'e'].len());
        },
        CompilerConstruct::InlineLoop => {
            let n = seq!['i', 'n', 'l', 'i', 'n', 'e', '_', 'l', 'o', 'o', 'p'];
            assert(n.len() != seq!['e', 'n', 'd'].len());
            assert(n.len() != seq!['i', 'f'].len());
            assert(n.len() != seq!['e', 'l', 's', 'e'].len());
            assert(n.len() != seq!['e', 'l', 's', 'e', 'i', 'f'].len());
        },
        CompilerConstruct::Loop => {
            let n = seq!['l', 'o', 'o', 'p'];
            assert(n.len() != seq!['e', 'n', 'd'].len());
            assert(n.len() != seq!['i', 'f'].len());
            assert(n[0] != seq!['e', 'l', 's', 'e'][0]);
            assert(n.len() != seq!['e', 'l', 's', 'e', 'i', 'f'].len());
            assert(n.len() != seq!['i', 'n', 'l', 'i', 'n', 'e', '_', 'l', 'o', 'o', 'p'].len());
        },
        CompilerConstruct::While => {
            let n = seq!['w', 'h', 'i', 'l', 'e'];
            assert(n.len() != seq!['e', 'n', 'd'].len());
            assert(n.len() != seq!['i', 'f'].len());
            assert(n.len() != seq!['e', 'l', 's', 'e'].len());
            assert(n.len() != seq!['e', 'l', 's', 'e', 'i', 'f'].len());
            assert(n.len() != seq!['i', 'n', 'l', 'i', 'n', 'e', '_', 'l', 'o', 'o', 'p'].len());
            assert(n.len() != seq!['l', 'o', 'o', 'p'].len());
        },
        CompilerConstruct::For => {
            let n = seq!['f', 'o', 'r'];
            assert(n[0] != seq!['e', 'n', 'd'][0]);
            assert(n.len() != seq!['i', 'f'].len());
            assert(n.len() != seq!['e', 'l', 's', 'e'].len());
            assert(n.len() != seq!['e', 'l', 's', 'e', 'i', 'f'].len());
            assert(n.len() != seq!['i', 'n', 'l', 'i', 'n', 'e', '_', 'l', 'o', 'o', 'p'].len());
            assert(n.len() != seq!['l', 'o', 'o', 'p'].len());
            assert(n.len() != seq!['w', 'h', 'i', 'l', 'e'].len());
        },
        CompilerConstruct::LoopBreak => {
            let n = seq!['b', 'r', 'e', 'a', 'k'];
            assert(n.len() != seq!['e', 'n', 'd'].len());
            assert(n.len() != seq!['i', 'f'].len());
            assert(n.len() != seq!['e', 'l', 's', 'e'].len());
            assert(n.len() != seq!['e', 'l', 's', 'e', 'i', 'f'].len());
            assert(n.len() != seq!['i', 'n', 'l', 'i', 'n', 'e', '_', 'l', 'o', 'o', 'p'].len());
            assert(n.len() != seq!['l', 'o', 'o', 'p'].len());
            assert(n[0] != seq!['w', 'h', 'i', 'l', 'e'][0]);
            assert(n.len() != seq!['f', 'o', 'r'].len());
        },
        CompilerConstruct::LoopContinue => {
            let n = seq!['c', 'o', 'n', 't', 'i', 'n', 'u', 'e'];
            assert(n.len() != seq!['e', 'n', 'd'].len());
            assert(n.len() != seq!['i', 'f'].len());
            assert(n.len() != seq!['e', 'l', 's', 'e'].len());
            assert(n.len() != seq!['e', 'l', 's', 'e', 'i', 'f'].len());
            assert(n.len() != seq!['i', 'n', 'l', 'i', 'n', 'e', '_', 'l', 'o', 'o', 'p'].len());
            assert(n.len() != seq!['l', 'o', 'o', 'p'].len());
            assert(n.len() != seq!['w', 'h', 'i', 'l', 'e'].len());
            assert(n.len() != seq!['f', 'o', 'r'].len());
            assert(n.len() != seq!['b', 'r', 'e', 'a', 'k'].len());
        },
        CompilerConstruct::Pry => {
            let n = seq!['p', 'r', 'y'];
            assert(n[0] != seq!['e', 'n', 'd'][0]);
            assert(n.len() != seq!['i', 'f'].len());
            assert(n.len() != seq!['e', 'l', 's', 'e'].len());
            assert(n.len() != seq!['e', 'l', 's', 'e', 'i', 'f'].len());
            assert(n.len() != seq!['i', 'n', 'l', 'i', 'n', 'e', '_', 'l', 'o', 'o', 'p'].len());
            assert(n.len() != seq!['l', 'o', 'o', 'p'].len());
            assert(n.len() != seq!['w', 'h', 'i', 'l', 'e'].len());
            assert(n[0] != seq!['f', 'o', 'r'][0]);
            assert(n.len() != seq!['b', 'r', 'e', 'a', 'k'].len());
            assert(n.len() != seq!['c', 'o', 'n', 't', 'i', 'n', 'u', 'e'].len());
        },
        CompilerConstruct::GetArg => {
            let n = seq!['g', 'e', 't', 'a', 'r', 'g'];
            assert(n.len() != seq!['e', 'n', 'd'].len());
            assert(n.len() != seq!['i', 'f'].len());
            assert(n.len() != seq!['e', 'l', 's', 'e'].len());
            assert(n[0] != seq!['e', 'l', 's', 'e', 'i', 'f'][0]);
            assert(n.len() != seq!['i', 'n', 'l', 'i', 'n', 'e', '_', 'l', 'o', 'o', 'p'].len());
            assert(n.len() != seq!['l', 'o', 'o', 'p'].len());
            assert(n.len() != seq!['w', 'h', 'i', 'l', 'e'].len());
            assert(n.len() != seq!['f', 'o', 'r'].len());
            assert(n.len() != seq!['b', 'r', 'e', 'a', 'k'].len());
            assert(n.len() != seq!['c', 'o', 'n', 't', 'i', 'n', 'u', 'e'].len());
            assert(n.len() != seq!['p', 'r', 'y'].len());
        },
        CompilerConstruct::EngineCall => {
            let n = seq!['e', 'n', 'g', 'c', 'a', 'l', 'l'];
            assert(n.len() != seq!['e', 'n', 'd'].len());
            assert(n.len() != seq!['i', 'f'].len());
            assert(n.len() != seq!['e', 'l', 's', 'e'].len());
            assert(n.len() != seq!['e', 'l', 's', 'e', 'i', 'f'].len());
            assert(n.len() != seq!['i', 'n', 'l', 'i', 'n', 'e', '_', 'l', 'o', 'o', 'p'].len());
            assert(n.len() != seq!['l', 'o', 'o', 'p'].len());
            assert(n.len() != seq!['w', 'h', 'i', 'l', 'e'].len());
            assert(n.len() != seq!['f', 'o', 'r'].len());
            assert(n.len() != seq!['b', 'r', 'e', 'a', 'k'].len());
            assert(n.len() != seq!['c', 'o', 'n', 't', 'i', 'n', 'u', 'e'].len());
            assert(n.len() != seq!['p', 'r', 'y'].len());
            assert(n.len() != seq!['g', 'e', 't', 'a', 'r', 'g'].len());
        },
        CompilerConstruct::LoadArgs => {
            let n = seq!['l', 'o', 'a', 'd', 'a', 'r', 'g', 's'];
            assert(n.len() != seq!['e', 'n', 'd'].len());
            assert(n.len() != seq!['i', 'f'].len());
            assert(n.len() != seq!['e', 'l', 's', 'e'].len());
            assert(n.len() != seq!['e', 'l', 's', 'e', 'i', 'f'].len());
            assert(n.len() != seq!['i', 'n', 'l', 'i', 'n', 'e', '_', 'l', 'o', 'o', 'p'].len());
            assert(n.len() != seq!['l', 'o', 'o', 'p'].len());
            assert(n.len() != seq!['w', 'h', 'i', 'l', 'e'].len());
            assert(n.len() != seq!['f', 'o', 'r'].len());
            assert(n.len() != seq!['b', 'r', 'e', 'a', 'k'].len());
            assert(n[0] != seq!['c', 'o', 'n', 't', 'i', 'n', 'u', 'e'][0]);
            assert(n.len() != seq!['p', 'r', 'y'].len());
            assert(n.len() != seq!['g', 'e', 't', 'a', 'r', 'g'].len());
            assert(n.len() != seq!['e', 'n', 'g', 'c', 'a', 'l', 'l'].len());
        },
        CompilerConstruct::ProcCall => {
            let n = seq!['c', 'a', 'l', 'l'];
            assert(n.len() != seq!['e', 'n', 'd'].len());
            assert(n.len() != seq!['i', 'f'].len());
            assert(n[0] != seq!['e', 'l', 's', 'e'][0]);
            assert(n.len() != seq!['e', 'l', 's', 'e', 'i', 'f'].len());
            assert(n.len() != seq!['i', 'n', 'l', 'i', 'n', 'e', '_', 'l', 'o', 'o', 'p'].len());
            assert(n[0] != seq!['l', 'o', 'o', 'p'][0]);
            assert(n.len() != seq!['w', 'h', 'i', 'l', 'e'].len());
            assert(n.len() != seq!['f', 'o', 'r'].len());
            assert(n.len() != seq!['b', 'r', 'e', 'a', 'k'].len());
            assert(n.len() != seq!['c', 'o', 'n', 't', 'i', 'n', 'u', 'e'].len());
            assert(n.len() != seq!['p', 'r', 'y'].len());
            assert(n.len() != seq!['g', 'e', 't', 'a', 'r', 'g'].len());
            assert(n.len() != seq!['e', 'n', 'g', 'c', 'a', 'l', 'l'].len());
            assert(n.len() != seq!['l', 'o', 'a', 'd', 'a', 'r', 'g', 's'].len());
        },
    }
}

/// Reading back the name of a mnemonic gives the mnemonic.
pub proof fn lemma_mnemonic_name_roundtrip(m: OpcodeMnemonic)
    ensures
        OpcodeMnemonic::spec_from_name(m.spec_name()) == Some(m),
{
    match m {
        OpcodeMnemonic::EngCall => {
            let n = seq!['e', 'n', 'g', 'c', 'a', 'l', 'l'];
        },
        OpcodeMnemonic::Nop => {
            let n = seq!['n', 'o', 'p'];
            assert(n.len() != seq!['e', 'n', 'g', 'c', 'a', 'l', 'l'].len());
        },
        OpcodeMnemonic::Call => {
            let n = seq!['c', 'a', 'l', 'l'];
            assert(n.len() != seq!['e', 'n', 'g', 'c', 'a', 'l', 'l'].len());
            assert(n.len() != seq!['n', 'o', 'p'].len());
        },
        OpcodeMnemonic::Ret => {
            let n = seq!['r', 'e', 't'];
            assert(n.len() != seq!['e', 'n', 'g', 'c', 'a', 'l', 'l'].len());
            assert(n[0] != seq!['n', 'o', 'p'][0]);
            assert(n.len() != seq!['c', 'a', 'l', 'l'].len());
        },
        OpcodeMnemonic::StackAlloc => {
            let n = seq!['s', 't', 'a', 'c', 'k', 'a', 'l', 'l', 'o', 'c'];
            assert(n.len() != seq!['e', 'n', 'g', 'c', 'a', 'l', 'l'].len());
            assert(n.len() != seq!['n', 'o', 'p'].len());
            assert(n.len() != seq!['c', 'a', 'l', 'l'].len());
            assert(n.len() != seq!['r', 'e', 't'].len());
        },
        OpcodeMnemonic::StackFree => {
            let n = seq!['s', 't', 'a', 'c', 'k', 'f', 'r', 'e', 'e'];
            assert(n.len() != seq!['e', 'n', 'g', 'c', 'a', 'l', 'l'].len());
            assert(n.len() != seq!['n', 'o', 'p'].len());
            assert(n.len() != seq!['c', 'a', 'l', 'l'].len());
            assert(n.len() != seq!['r', 'e', 't'].len());
            assert(n.len() != seq!['s', 't', 'a', 'c', 'k', 'a', 'l', 'l', 'o', 'c'].len());
        },
        OpcodeMnemonic::Exit => {
            let n = seq!['e', 'x', 'i', 't'];
            assert(n.len() != seq!['e', 'n', 'g', 'c', 'a', 'l', 'l'].len());
            assert(n.len() != seq!['n', 'o', 'p'].len());
            assert(n[0] != seq!['c', 'a', 'l', 'l'][0]);
            assert(n.len() != seq!['r', 'e', 't'].len());
            assert(n.len() != seq!['s', 't', 'a', 'c', 'k', 'a', 'l', 'l', 'o', 'c'].len());
            assert(n.len() != seq!['s', 't', 'a', 'c', 'k', 'f', 'r', 'e', 'e'].len());
        },
        OpcodeMnemonic::RetFree => {
            let n = seq!['r', 'e', 't', 'f'];
            assert(n.len() != seq!['e', 'n', 'g', 'c', 'a', 'l', 'l'].len());
            assert(n.len() != seq!['n', 'o', 'p'].len());
            assert(n[0] != seq!['c', 'a', 'l', 'l'][0]);
            assert(n.len() != seq!['r', 'e', 't'].len());
            assert(n.len() != seq!['s', 't', 'a', 'c', 'k', 'a', 'l', 'l', 'o', 'c'].len());
            assert(n.len() != seq!['s', 't', 'a', 'c', 'k', 'f', 'r', 'e', 'e'].len());
            assert(n[0] != seq!['e', 'x', 'i', 't'][0]);
        },
        OpcodeMnemonic::HAlloc => {
            let n = seq!['m', 'a', 'l', 'l', 'o', 'c'];
            assert(n.len() != seq!['e', 'n', 'g', 'c', 'a', 'l', 'l'].len());
            assert(n.len() != seq!['n', 'o', 'p'].len());
            assert(n.len() != seq!['c', 'a', 'l', 'l'].len());
            assert(n.len() != seq!['r', 'e', 't'].len());
            assert(n.len() != seq!['s', 't', 'a', 'c', 'k', 'a', 'l', 'l', 'o', 'c'].len());
            assert(n.len() != seq!['s', 't', 'a', 'c', 'k', 'f', 'r', 'e', 'e'].len());
            assert(n.len() != seq!['e', 'x', 'i', 't'].len());
            assert(n.len() != seq!['r', 'e', 't', 'f'].len());
        },
        OpcodeMnemonic::HFree => {
            let n = seq!['f', 'r', 'e', 'e'];
            assert(n.len() != seq!['e', 'n', 'g', 'c', 'a', 'l', 'l'].len());
            assert(n.len() != seq!['n', 'o', 'p'].len());
            assert(n[0] != seq!['c', 'a', 'l', 'l'][0]);
            assert(n.len() != seq!['r', 'e', 't'].len());
            assert(n.len() != seq!['s', 't', 'a', 'c', 'k', 'a', 'l', 'l', 'o', 'c'].len());
            assert(n.len() != seq!['s', 't', 'a', 'c', 'k', 'f', 'r', 'e', 'e'].len());
            assert(n[0] != seq!['e', 'x', 'i', 't'][0]);
            assert(n[0] != seq!['r', 'e', 't', 'f'][0]);
            assert(n.len() != seq!['m', 'a', 'l', 'l', 'o', 'c'].len());
        },
        OpcodeMnemonic::Mov => {
            let n = seq!['m', 'o', 'v'];
            assert(n.len() != seq!['e', 'n', 'g', 'c', 'a', 'l', 'l'].len());
            assert(n[0] != seq!['n', 'o', 'p'][0]);
            assert(n.len() != seq!['c', 'a', 'l', 'l'].len());
            assert(n[0] != seq!['r', 'e', 't'][0]);
            assert(n.len() != seq!['s', 't', 'a', 'c', 'k', 'a', 'l', 'l', 'o', 'c'].len());
            assert(n.len() != seq!['s', 't', 'a', 'c', 'k', 'f', 'r', 'e', 'e'].len());
            assert(n.len() != seq!['e', 'x', 'i', 't'].len());
            assert(n.len() != seq!['r', 'e', 't', 'f'].len());
            assert(n.len() != seq!['m', 'a', 'l', 'l', 'o', 'c'].len());
            assert(n.len() != seq!['f', 'r', 'e', 'e'].len());
        },
        OpcodeMnemonic::Jmp => {
            let n = seq!['j', 'm', 'p'];
            assert(n.len() != seq!['e', 'n', 'g', 'c', 'a', 'l', 'l'].len());
            assert(n[0] != seq!['n', 'o', 'p'][0]);
            assert(n.len() != seq!['c', 'a', 'l', 'l'].len());
            assert(n[0] != seq!['r', 'e', 't'][0]);
            assert(n.len() != seq!['s', 't', 'a', 'c', 'k', 'a', 'l', 'l', 'o', 'c'].len());
            assert(n.len() != seq!['s', 't', 'a', 'c', 'k', 'f', 'r', 'e', 'e'].len());
            assert(n.len() != seq!['e', 'x', 'i', 't'].len());
            assert(n.len() != seq!['r', 'e', 't', 'f'].len());
            assert(n.len() != seq!['m', 'a', 'l', 'l', 'o', 'c'].len());
            assert(n.len() != seq!['f', 'r', 'e', 'e'].len());
            assert(n[0] != seq!['m', 'o', 'v'][0]);
        },
        OpcodeMnemonic::JmpIfZero => {
            let n = seq!['j', 'z'];
            assert(n.len() != seq!['e', 'n', 'g', 'c', 'a', 'l', 'l'].len());
            assert(n.len() != seq!['n', 'o', 'p'].len());
            assert(n.len() != seq!['c', 'a', 'l', 'l'].len());
            assert(n.len() != seq!['r', 'e', 't'].len());
            assert(n.len() != seq!['s', 't', 'a', 'c', 'k', 'a', 'l', 'l', 'o', 'c'].len());
            assert(n.len() != seq!['s', 't', 'a', 'c', 'k', 'f', 'r', 'e', 'e'].len());
            assert(n.len() != seq!['e', 'x', 'i', 't'].len());
            assert(n.len() != seq!['r', 'e', 't', 'f'].len());
            assert(n.len() != seq!['m', 'a', 'l', 'l', 'o', 'c'].len());
            assert(n.len() != seq!['f', 'r', 'e', 'e'].len());
            assert(n.len() != seq!['m', 'o', 'v'].len());
            assert(n.len() != seq!['j', 'm', 'p'].len());
        },
        OpcodeMnemonic::JmpIfNotZero => {
            let n = seq!['j', 'n', 'z'];
            assert(n.len() != seq!['e', 'n', 'g', 'c', 'a', 'l', 'l'].len());
            assert(n[0] != seq!['n', 'o', 'p'][0]);
            assert(n.len() != seq!['c', 'a', 'l', 'l'].len());
            assert(n[0] != seq!['r', 'e', 't'][0]);
            assert(n.len() != seq!['s', 't', 'a', 'c', 'k', 'a', 'l', 'l', 'o', 'c'].len());
            assert(n.len() != seq!['s', 't', 'a', 'c', 'k', 'f', 'r', 'e', 'e'].len());
            assert(n.len() != seq!['e', 'x', 'i', 't'].len());
            assert(n.len() != seq!['r', 'e', 't', 'f'].len());
            assert(n.len() != seq!['m', 'a', 'l', 'l', 'o', 'c'].len());
            assert(n.len() != seq!['f', 'r', 'e', 'e'].len());
            assert(n[0] != seq!['m', 'o', 'v'][0]);
            assert(n[1] != seq!['j', 'm', 'p'][1]);
            assert(n.len() != seq!['j', 'z'].len());
        },
        OpcodeMnemonic::JmpIfEqual => {
            let n = seq!['j', 'e'];
            assert(n.len() != seq!['e', 'n', 'g', 'c', 'a', 'l', 'l'].len());
            assert(n.len() != seq!['n', 'o', 'p'].len());
            assert(n.len() != seq!['c', 'a', 'l', 'l'].len());
            assert(n.len() != seq!['r', 'e', 't'].len());
            assert(n.len() != seq!['s', 't', 'a', 'c', 'k', 'a', 'l', 'l', 'o', 'c'].len());
            assert(n.len() != seq!['s', 't', 'a', 'c', 'k', 'f', 'r', 'e', 'e'].len());
            assert(n.len() != seq!['e', 'x', 'i', 't'].len());
            assert(n.len() != seq!['r', 'e', 't', 'f'].len());
            assert(n.len() != seq!['m', 'a', 'l', 'l', 'o', 'c'].len());
            assert(n.len() != seq!['f', 'r', 'e', 'e'].len());
            assert(n.len() != seq!['m', 'o', 'v'].len());
            assert(n.len() != seq!['j', 'm', 'p'].len());
            assert(n[1] != seq!['j', 'z'][1]);
            assert(n.len() != seq!['j', 'n', 'z'].len());
        },
        OpcodeMnemonic::JmpIfNotEqual => {
            let n = seq!['j', 'n', 'e'];
            assert(n.len() != seq!['e', 'n', 'g', 'c', 'a', 'l', 'l'].len());
            assert(n[0] != seq!['n', 'o', 'p'][0]);
            assert(n.len() != seq!['c', 'a', 'l', 'l'].len());
            assert(n[0] != seq!['r', 'e', 't'][0]);
            assert(n.len() != seq!['s', 't', 'a', 'c', 'k', 'a', 'l', 'l', 'o', 'c'].len());
            assert(n.len() != seq!['s', 't', 'a', 'c', 'k', 'f', 'r', 'e', 'e'].len());
            assert(n.len() != seq!['e', 'x', 'i', 't'].len());
            assert(n.len() != seq!['r', 'e', 't', 'f'].len());
            assert(n.len() != seq!['m', 'a', 'l', 'l', 'o', 'c'].len());
            assert(n.len() != seq!['f', 'r', 'e', 'e'].len());
            assert(n[0] != seq!['m', 'o', 'v'][0]);
            assert(n[1] != seq!['j', 'm', 'p'][1]);
            assert(n.len() != seq!['j', 'z'].len());
            assert(n[2] != seq!['j', 'n', 'z'][2]);
            assert(n.len() != seq!['j', 'e'].len());
        },
        OpcodeMnemonic::JmpIfSign => {
            let n = seq!['j', 's'];
            assert(n.len() != seq!['e', 'n', 'g', 'c', 'a', 'l', 'l'].len());
            assert(n.len() != seq!['n', 'o', 'p'].len());
            assert(n.len() != seq!['c', 'a', 'l', 'l'].len());
            assert(n.len() != seq!['r', 'e', 't'].len());
            assert(n.len() != seq!['s', 't', 'a', 'c', 'k', 'a', 'l', 'l', 'o', 'c'].len());
            assert(n.len() != seq!['s', 't', 'a', 'c', 'k', 'f', 'r', 'e', 'e'].len());
            assert(n.len() != seq!['e', 'x', 'i', 't'].len());
            assert(n.len() != seq!['r', 'e', 't', 'f'].len());
            assert(n.len() != seq!['m', 'a', 'l', 'l', 'o', 'c'].len());
            assert(n.len() != seq!['f', 'r', 'e', 'e'].len());
            assert(n.len() != seq!['m', 'o', 'v'].len());
            assert(n.len() != seq!['j', 'm', 'p'].len());
            assert(n[1] != seq!['j', 'z'][1]);
            assert(n.len() != seq!['j', 'n', 'z'].len());
            assert(n[1] != seq!['j', 'e'][1]);
            assert(n.len() != seq!['j', 'n', 'e'].len());
        },
        OpcodeMnemonic::JmpIfNotSign => {
            let n = seq!['j', 'n', 's'];
            assert(n.len() != seq!['e', 'n', 'g', 'c', 'a', 'l', 'l'].len());
            assert(n[0] != seq!['n', 'o', 'p'][0]);
            assert(n.len() != seq!['c', 'a', 'l', 'l'].len());
            assert(n[0] != seq!['r', 'e', 't'][0]);
            assert(n.len() != seq!['s', 't', 'a', 'c', 'k', 'a', 'l', 'l', 'o', 'c'].len());
            assert(n.len() != seq!['s', 't', 'a', 'c', 'k', 'f', 'r', 'e', 'e'].len());
            assert(n.len() != seq!['e', 'x', 'i', 't'].len());
            assert(n.len() != seq!['r', 'e', 't', 'f'].len());
            assert(n.len() != seq!['m', 'a', 'l', 'l', 'o', 'c'].len());
            assert(n.len() != seq!['f', 'r', 'e', 'e'].len());
            assert(n[0] != seq!['m', 'o', 'v'][0]);
            assert(n[1] != seq!['j', 'm', 'p'][1]);
            assert(n.len() != seq!['j', 'z'].len());
            assert(n[2] != seq!['j', 'n', 'z'][2]);
            assert(n.len() != seq!['j', 'e'].len());
            assert(n[2] != seq!['j', 'n', 'e'][2]);
            assert(n.len() != seq!['j', 's'].len());
        },
        OpcodeMnemonic::JmpIfOverflow => {
            let n = seq!['j', 'o'];
            assert(n.len() != seq!['e', 'n', 'g', 'c', 'a', 'l', 'l'].len());
            assert(n.len() != seq!['n', 'o', 'p'].len());
            assert(n.len() != seq!['c', 'a', 'l', 'l'].len());
            assert(n.len() != seq!['r', 'e', 't'].len());
            assert(n.len() != seq!['s', 't', 'a', 'c', 'k', 'a', 'l', 'l', 'o', 'c'].len());
            assert(n.len() != seq!['s', 't', 'a', 'c', 'k', 'f', 'r', 'e', 'e'].len());
            assert(n.len() != seq!['e', 'x', 'i', 't'].len());
            assert(n.len() != seq!['r', 'e', 't', 'f'].len());
            assert(n.len() != seq!['m', 'a', 'l', 'l', 'o', 'c'].len());
            assert(n.len() != seq!['f', 'r', 'e', 'e'].len());
            assert(n.len() != seq!['m', 'o', 'v'].len());
            assert(n.len() != seq!['j', 'm', 'p'].len());
            assert(n[1] != seq!['j', 'z'][1]);
            assert(n.len() != seq!['j', 'n', 'z'].len());
            assert(n[1] != seq!['j', 'e'][1]);
            assert(n.len() != seq!['j', 'n', 'e'].len());
            assert(n[1] != seq!['j', 's'][1]);
            assert(n.len() != seq!['j', 'n', 's'].len());
        },
        OpcodeMnemonic::JmpIfNotOverflow => {
            let n = seq!['j', 'n', 'o'];
            assert(n.len() != seq!['e', 'n', 'g', 'c', 'a', 'l', 'l'].len());
            assert(n[0] != seq!['n', 'o', 'p'][0]);
            assert(n.len() != seq!['c', 'a', 'l', 'l'].len());
            assert(n[0] != seq!['r', 'e', 't'][0]);
            assert(n.len() != seq!['s', 't', 'a', 'c', 'k', 'a', 'l', 'l', 'o', 'c'].len());
            assert(n.len() != seq!['s', 't', 'a', 'c', 'k', 'f', 'r', 'e', 'e'].len());
            assert(n.len() != seq!['e', 'x', 'i', 't'].len());
            assert(n.len() != seq!['r', 'e', 't', 'f'].len());
            assert(n.len() != seq!['m', 'a', 'l', 'l', 'o', 'c'].len());
            assert(n.len() != seq!['f', 'r', 'e', 'e'].len());
            assert(n[0] != seq!['m', 'o', 'v'][0]);
            assert(n[1] != seq!['j', 'm', 'p'][1]);
            assert(n.len() != seq!['j', 'z'].len());
            assert(n[2] != seq!['j', 'n', 'z'][2]);
            assert(n.len() != seq!['j', 'e'].len());
            assert(n[2] != seq!['j', 'n', 'e'][2]);
            assert(n.len() != seq!['j', 's'].len());
            assert(n[2] != seq!['j', 'n', 's'][2]);
            assert(n.len() != seq!['j', 'o'].len());
        },
        OpcodeMnemonic::JmpIfCarry => {
            let n = seq!['j', 'c'];
            assert(n.len() != seq!['e', 'n', 'g', 'c', 'a', 'l', 'l'].len());
            assert(n.len() != seq!['n', 'o', 'p'].len());
            assert(n.len() != seq!['c', 'a', 'l', 'l'].len());
            assert(n.len() != seq!['r', 'e', 't'].len());
            assert(n.len() != seq!['s', 't', 'a', 'c', 'k', 'a', 'l', 'l', 'o', 'c'].len());
            assert(n.len() != seq!['s', 't', 'a', 'c', 'k', 'f', 'r', 'e', 'e'].len());
            assert(n.len() != seq!['e', 'x', 'i', 't'].len());
            assert(n.len() != seq!['r', 'e', 't', 'f'].len());
            assert(n.len() != seq!['m', 'a', 'l', 'l', 'o', 'c'].len());
            assert(n.len() != seq!['f', 'r', 'e', 'e'].len());
            assert(n.len() != seq!['m', 'o', 'v'].len());
            assert(n.len() != seq!['j', 'm', 'p'].len());
            assert(n[1] != seq!['j', 'z'][1]);
            assert(n.len() != seq!['j', 'n', 'z'].len());
            assert(n[1] != seq!['j', 'e'][1]);
            assert(n.len() != seq!['j', 'n', 'e'].len());
            assert(n[1] != seq!['j', 's'][1]);
            assert(n.len() != seq!['j', 'n', 's'].len());
            assert(n[1] != seq!['j', 'o'][1]);
            assert(n.len() != seq!['j', 'n', 'o'].len());
        },
        OpcodeMnemonic::JmpIfBelow => {
            let n = seq!['j', 'b'];
            assert(n.len() != seq!['e', 'n', 'g', 'c', 'a', 'l', 'l'].len());
            assert(n.len() != seq!['n', 'o', 'p'].len());
            assert(n.len() != seq!['c', 'a', 'l', 'l'].len());
            assert(n.len() != seq!['r', 'e', 't'].len());
            assert(n.len() != seq!['s', 't', 'a', 'c', 'k', 'a', 'l', 'l', 'o', 'c'].len());
            assert(n.len() != seq!['s', 't', 'a', 'c', 'k', 'f', 'r', 'e', 'e'].len());
            assert(n.len() != seq!['e', 'x', 'i', 't'].len());
            assert(n.len() != seq!['r', 'e', 't', 'f'].len());
            assert(n.len() != seq!['m', 'a', 'l', 'l', 'o', 'c'].len());
            assert(n.len() != seq!['f', 'r', 'e', 'e'].len());
            assert(n.len() != seq!['m', 'o', 'v'].len());
            assert(n.len() != seq!['j', 'm', 'p'].len());
            assert(n[1] != seq!['j', 'z'][1]);
            assert(n.len() != seq!['j', 'n', 'z'].len());
            assert(n[1] != seq!['j', 'e'][1]);
            assert(n.len() != seq!['j', 'n', 'e'].len());
            assert(n[1] != seq!['j', 's'][1]);
            assert(n.len() != seq!['j', 'n', 's'].len());
            assert(n[1] != seq!['j', 'o'][1]);
            assert(n.len() != seq!['j', 'n', 'o'].len());
            assert(n[1] != seq!['j', 'c'][1]);
        },
        OpcodeMnemonic::JmpIfNotAboveEqual => {
            let n = seq!['j', 'n', 'a', 'e'];
            assert(n.len() != seq!['e', 'n', 'g', 'c', 'a', 'l', 'l'].len());
            assert(n.len() != seq!['n', 'o', 'p'].len());
            assert(n[0] != seq!['c', 'a', 'l', 'l'][0]);
            assert(n.len() != seq!['r', 'e', 't'].len());
            assert(n.len() != seq!['s', 't', 'a', 'c', 'k', 'a', 'l', 'l', 'o', 'c'].len());
            assert(n.len() != seq!['s', 't', 'a', 'c', 'k', 'f', 'r', 'e', 'e'].len());
            assert(n[0] != seq!['e', 'x', 'i', 't'][0]);
            assert(n[0] != seq!['r', 'e', 't', 'f'][0]);
            assert(n.len() != seq!['m', 'a', 'l', 'l', 'o', 'c'].len());
            assert(n[0] != seq!['f', 'r', 'e', 'e'][0]);
            assert(n.len() != seq!['m', 'o', 'v'].len());
            assert(n.len() != seq!['j', 'm', 'p'].len());
            assert(n.len() != seq!['j', 'z'].len());
            assert(n.len() != seq!['j', 'n', 'z'].len());
            assert(n.len() != seq!['j', 'e'].len());
            assert(n.len() != seq!['j', 'n', 'e'].len());
            assert(n.len() != seq!['j', 's'].len());
            assert(n.len() != seq!['j', 'n', 's'].len());
            assert(n.len() != seq!['j', 'o'].len());
            assert(n.len() != seq!['j', 'n', 'o'].len());
            assert(n.len() != seq!['j', 'c'].len());
            assert(n.len() != seq!['j', 'b'].len());
        },
        OpcodeMnemonic::JmpIfNotCarry => {
            let n = seq!['j', 'n', 'c'];
            assert(n.len() != seq!['e', 'n', 'g', 'c', 'a', 'l', 'l'].len());
            assert(n[0] != seq!['n', 'o', 'p'][0]);
            assert(n.len() != seq!['c', 'a', 'l', 'l'].len());
            assert(n[0] != seq!['r', 'e', 't'][0]);
            assert(n.len() != seq!['s', 't', 'a', 'c', 'k', 'a', 'l', 'l', 'o', 'c'].len());
            assert(n.len() != seq!['s', 't', 'a', 'c', 'k', 'f', 'r', 'e', 'e'].len());
            assert(n.len() != seq!['e', 'x', 'i', 't'].len());
            assert(n.len() != seq!['r', 'e', 't', 'f'].len());
            assert(n.len() != seq!['m', 'a', 'l', 'l', 'o', 'c'].len());
            assert(n.len() != seq!['f', 'r', 'e', 'e'].len());
            assert(n[0] != seq!['m', 'o', 'v'][0]);
            assert(n[1] != seq!['j', 'm', 'p'][1]);
            assert(n.len() != seq!['j', 'z'].len());
            assert(n[2] != seq!['j', 'n', 'z'][2]);
            assert(n.len() != seq!['j', 'e'].len());
            assert(n[2] != seq!['j', 'n', 'e'][2]);
            assert(n.len() != seq!['j', 's'].len());
            assert(n[2] != seq!['j', 'n', 's'][2]);
            assert(n.len() != seq!['j', 'o'].len());
            assert(n[2] != seq!['j', 'n', 'o'][2]);
            assert(n.len() != seq!['j', 'c'].len());
            assert(n.len() != seq!['j', 'b'].len());
            assert(n.len() != seq!['j', 'n', 'a', 'e'].len());
        },
        OpcodeMnemonic::JmpIfAboveEqual => {
            let n = seq!['j', 'a', 'e'];
            assert(n.len() != seq!['e', 'n', 'g', 'c', 'a', 'l', 'l'].len());
            assert(n[0] != seq!['n', 'o', 'p'][0]);
            assert(n.len() != seq!['c', 'a', 'l', 'l'].len());
            assert(n[0] != seq!['r', 'e', 't'][0]);
            assert(n.len() != seq!['s', 't', 'a', 'c', 'k', 'a', 'l', 'l', 'o', 'c'].len());
            assert(n.len() != seq!['s', 't', 'a', 'c', 'k', 'f', 'r', 'e', 'e'].len());
            assert(n.len() != seq!['e', 'x', 'i', 't'].len());
            assert(n.len() != seq!['r', 'e', 't', 'f'].len());
            assert(n.len() != seq!['m', 'a', 'l', 'l', 'o', 'c'].len());
            assert(n.len() != seq!['f', 'r', 'e', 'e'].len());
            assert(n[0] != seq!['m', 'o', 'v'][0]);
            assert(n[1] != seq!['j', 'm', 'p'][1]);
            assert(n.len() != seq!['j', 'z'].len());
            assert(n[1] != seq!['j', 'n', 'z'][1]);
            assert(n.len() != seq!['j', 'e'].len());
            assert(n[1] != seq!['j', 'n', 'e'][1]);
            assert(n.len() != seq!['j', 's'].len());
            assert(n[1] != seq!['j', 'n', 's'][1]);
            assert(n.len() != seq!['j', 'o'].len());
            assert(n[1] != seq!['j', 'n', 'o'][1]);
            assert(n.len() != seq!['j', 'c'].len());
            assert(n.len() != seq!['j', 'b'].len());
            assert(n.len() != seq!['j', 'n', 'a', 'e'].len());
            assert(n[1] != seq!['j', 'n', 'c'][1]);
        },
        OpcodeMnemonic::JmpIfNotBelow => {
            let n = seq!['j', 'n', 'b'];
            assert(n.len() != seq!['e', 'n', 'g', 'c', 'a', 'l', 'l'].len());
            assert(n[0] != seq!['n', 'o', 'p'][0]);
            assert(n.len() != seq!['c', 'a', 'l', 'l'].len());
            assert(n[0] != seq!['r', 'e', 't'][0]);
            assert(n.len() != seq!['s', 't', 'a', 'c', 'k', 'a', 'l', 'l', 'o', 'c'].len());
            assert(n.len() != seq!['s', 't', 'a', 'c', 'k', 'f', 'r', 'e', 'e'].len());
            assert(n.len() != seq!['e', 'x', 'i', 't'].len());
            assert(n.len() != seq!['r', 'e', 't', 'f'].len());
            assert(n.len() != seq!['m', 'a', 'l', 'l', 'o', 'c'].len());
            assert(n.len() != seq!['f', 'r', 'e', 'e'].len());
            assert(n[0] != seq!['m', 'o', 'v'][0]);
            assert(n[1] != seq!['j', 'm', 'p'][1]);
            assert(n.len() != seq!['j', 'z'].len());
            assert(n[2] != seq!['j', 'n', 'z'][2]);
            assert(n.len() != seq!['j', 'e'].len());
            assert(n[2] != seq!['j', 'n', 'e'][2]);
            assert(n.len() != seq!['j', 's'].len());
            assert(n[2] != seq!['j', 'n', 's'][2]);
            assert(n.len() != seq!['j', 'o'].len());
            assert(n[2] != seq!['j', 'n', 'o'][2]);
            assert(n.len() != seq!['j', 'c'].len());
            assert(n.len() != seq!['j', 'b'].len());
            assert(n.len() != seq!['j', 'n', 'a', 'e'].len());
            assert(n[2] != seq!['j', 'n', 'c'][2]);
            assert(n[1] != seq!['j', 'a', 'e'][1]);
        },
        OpcodeMnemonic::JmpIfParity => {
            let n = seq!['j', 'p'];
            assert(n.len() != seq!['e', 'n', 'g', 'c', 'a', 'l', 'l'].len());
            assert(n.len() != seq!['n', 'o', 'p'].len());
            assert(n.len() != seq!['c', 'a', 'l', 'l'].len());
            assert(n.len() != seq!['r', 'e', 't'].len());
            assert(n.len() != seq!['s', 't', 'a', 'c', 'k', 'a', 'l', 'l', 'o', 'c'].len());
            assert(n.len() != seq!['s', 't', 'a', 'c', 'k', 'f', 'r', 'e', 'e'].len());
            assert(n.len() != seq!['e', 'x', 'i', 't'].len());
            assert(n.len() != seq!['r', 'e', 't', 'f'].len());
            assert(n.len() != seq!['m', 'a', 'l', 'l', 'o', 'c'].len());
            assert(n.len() != seq!['f', 'r', 'e', 'e'].len());
            assert(n.len() != seq!['m', 'o', 'v'].len());
            assert(n.len() != seq!['j', 'm', 'p'].len());
            assert(n[1] != seq!['j', 'z'][1]);
            assert(n.len() != seq!['j', 'n', 'z'].len());
            assert(n[1] != seq!['j', 'e'][1]);
            assert(n.len() != seq!['j', 'n', 'e'].len());
            assert(n[1] != seq!['j', 's'][1]);
            assert(n.len() != seq!['j', 'n', 's'].len());
            assert(n[1] != seq!['j', 'o'][1]);
            assert(n.len() != seq!['j', 'n', 'o'].len());
            assert(n[1] != seq!['j', 'c'][1]);
            assert(n[1] != seq!['j', 'b'][1]);
            assert(n.len() != seq!['j', 'n', 'a', 'e'].len());
            assert(n.len() != seq!['j', 'n', 'c'].len());
            assert(n.len() != seq!['j', 'a', 'e'].len());
            assert(n.len() != seq!['j', 'n', 'b'].len());
        },
        OpcodeMnemonic::JmpIfNotParity => {
            let n = seq!['j', 'n', 'p'];
            assert(n.len() != seq!['e', 'n', 'g', 'c', 'a', 'l', 'l'].len());
            assert(n[0] != seq!['n', 'o', 'p'][0]);
            assert(n.len() != seq!['c', 'a', 'l', 'l'].len());
            assert(n[0] != seq!['r', 'e', 't'][0]);
            assert(n.len() != seq!['s', 't', 'a', 'c', 'k', 'a', 'l', 'l', 'o', 'c'].len());
            assert(n.len() != seq!['s', 't', 'a', 'c', 'k', 'f', 'r', 'e', 'e'].len());
            assert(n.len() != seq!['e', 'x', 'i', 't'].len());
            assert(n.len() != seq!['r', 'e', 't', 'f'].len());
            assert(n.len() != seq!['m', 'a', 'l', 'l', 'o', 'c'].len());
            assert(n.len() != seq!['f', 'r', 'e', 'e'].len());
            assert(n[0] != seq!['m', 'o', 'v'][0]);
            assert(n[1] != seq!['j', 'm', 'p'][1]);
            assert(n.len() != seq!['j', 'z'].len());
            assert(n[2] != seq!['j', 'n', 'z'][2]);
            assert(n.len() != seq!['j', 'e'].len());
            assert(n[2] != seq!['j', 'n', 'e'][2]);
            assert(n.len() != seq!['j', 's'].len());
            assert(n[2] != seq!['j', 'n', 's'][2]);
            assert(n.len() != seq!['j', 'o'].len());
            assert(n[2] != seq!['j', 'n', 'o'][2]);
            assert(n.len() != seq!['j', 'c'].len());
            assert(n.len() != seq!['j', 'b'].len());
            assert(n.len() != seq!['j', 'n', 'a', 'e'].len());
            assert(n[2] != seq!['j', 'n', 'c'][2]);
            assert(n[1] != seq!['j', 'a', 'e'][1]);
            assert(n[2] != seq!['j', 'n', 'b'][2]);
            assert(n.len() != seq!['j', 'p'].len());
        },
        OpcodeMnemonic::JmpIfBelowEqual => {
            let n = seq!['j', 'b', 'e'];
            assert(n.len() != seq!['e', 'n', 'g', 'c', 'a', 'l', 'l'].len());
            assert(n[0] != seq!['n', 'o', 'p'][0]);
            assert(n.len() != seq!['c', 'a', 'l', 'l'].len());
            assert(n[0] != seq!['r', 'e', 't'][0]);
            assert(n.len() != seq!['s', 't', 'a', 'c', 'k', 'a', 'l', 'l', 'o', 'c'].len());
            assert(n.len() != seq!['s', 't', 'a', 'c', 'k', 'f', 'r', 'e', 'e'].len());
            assert(n.len() != seq!['e', 'x', 'i', 't'].len());
            assert(n.len() != seq!['r', 'e', 't', 'f'].len());
            assert(n.len() != seq!['m', 'a', 'l', 'l', 'o', 'c'].len());
            assert(n.len() != seq!['f', 'r', 'e', 'e'].len());
            assert(n[0] != seq!['m', 'o', 'v'][0]);
            assert(n[1] != seq!['j', 'm', 'p'][1]);
            assert(n.len() != seq!['j', 'z'].len());
            assert(n[1] != seq!['j', 'n', 'z'][1]);
            assert(n.len() != seq!['j', 'e'].len());
            assert(n[1] != seq!['j', 'n', 'e'][1]);
            assert(n.len() != seq!['j', 's'].len());
            assert(n[1] != seq!['j', 'n', 's'][1]);
            assert(n.len() != seq!['j', 'o'].len());
            assert(n[1] != seq!['j', 'n', 'o'][1]);
            assert(n.len() != seq!['j', 'c'].len());
            assert(n.len() != seq!['j', 'b'].len());
            assert(n.len() != seq!['j', 'n', 'a', 'e'].len());
            assert(n[1] != seq!['j', 'n', 'c'][1]);
            assert(n[1] != seq!['j', 'a', 'e'][1]);
            assert(n[1] != seq!['j', 'n', 'b'][1]);
            assert(n.len() != seq!['j', 'p'].len());
            assert(n[1] != seq!['j', 'n', 'p'][1]);
        },
        OpcodeMnemonic::JmpIfNotAbove => {
            let n = seq!['j', 'n', 'a'];
            assert(n.len() != seq!['e', 'n', 'g', 'c', 'a', 'l', 'l'].len());
            assert(n[0] != seq!['n', 'o', 'p'][0]);
            assert(n.len() != seq!['c', 'a', 'l', 'l'].len());
            assert(n[0] != seq!['r', 'e', 't'][0]);
            assert(n.len() != seq!['s', 't', 'a', 'c', 'k', 'a', 'l', 'l', 'o', 'c'].len());
            assert(n.len() != seq!['s', 't', 'a', 'c', 'k', 'f', 'r', 'e', 'e'].len());
            assert(n.len() != seq!['e', 'x', 'i', 't'].len());
            assert(n.len() != seq!['r', 'e', 't', 'f'].len());
            assert(n.len() != seq!['m', 'a', 'l', 'l', 'o', 'c'].len());
            assert(n.len() != seq!['f', 'r', 'e', 'e'].len());
            assert(n[0] != seq!['m', 'o', 'v'][0]);
            assert(n[1] != seq!['j', 'm', 'p'][1]);
            assert(n.len() != seq!['j', 'z'].len());
            assert(n[2] != seq!['j', 'n', 'z'][2]);
            assert(n.len() != seq!['j', 'e'].len());
            assert(n[2] != seq!['j', 'n', 'e'][2]);
            assert(n.len() != seq!['j', 's'].len());
            assert(n[2] != seq!['j', 'n', 's'][2]);
            assert(n.len() != seq!['j', 'o'].len());
            assert(n[2] != seq!['j', 'n', 'o'][2]);
            assert(n.len() != seq!['j', 'c'].len());
            assert(n.len() != seq!['j', 'b'].len());
            assert(n.len() != seq!['j', 'n', 'a', 'e'].len());
            assert(n[2] != seq!['j', 'n', 'c'][2]);
            assert(n[1] != seq!['j', 'a', 'e'][1]);
            assert(n[2] != seq!['j', 'n', 'b'][2]);
            assert(n.len() != seq!['j', 'p'].len());
            assert(n[2] != seq!['j', 'n', 'p'][2]);
            assert(n[1] != seq!['j', 'b', 'e'][1]);
        },
        OpcodeMnemonic::JmpIfAbove => {
            let n = seq!['j', 'a'];
            assert(n.len() != seq!['e', 'n', 'g', 'c', 'a', 'l', 'l'].len());
            assert(n.len() != seq!['n', 'o', 'p'].len());
            assert(n.len() != seq!['c', 'a', 'l', 'l'].len());
            assert(n.len() != seq!['r', 'e', 't'].len());
            assert(n.len() != seq!['s', 't', 'a', 'c', 'k', 'a', 'l', 'l', 'o', 'c'].len());
            assert(n.len() != seq!['s', 't', 'a', 'c', 'k', 'f', 'r', 'e', 'e'].len());
            assert(n.len() != seq!['e', 'x', 'i', 't'].len());
            assert(n.len() != seq!['r', 'e', 't', 'f'].len());
            assert(n.len() != seq!['m', 'a', 'l', 'l', 'o', 'c'].len());
            assert(n.len() != seq!['f', 'r', 'e', 'e'].len());
            assert(n.len() != seq!['m', 'o', 'v'].len());
            assert(n.len() != seq!['j', 'm', 'p'].len());
            assert(n[1] != seq!['j', 'z'][1]);
            assert(n.len() != seq!['j', 'n', 'z'].len());
            assert(n[1] != seq!['j', 'e'][1]);
            assert(n.len() != seq!['j', 'n', 'e'].len());
            assert(n[1] != seq!['j', 's'][1]);
            assert(n.len() != seq!['j', 'n', 's'].len());
            assert(n[1] != seq!['j', 'o'][1]);
            assert(n.len() != seq!['j', 'n', 'o'].len());
            assert(n[1] != seq!['j', 'c'][1]);
            assert(n[1] != seq!['j', 'b'][1]);
            assert(n.len() != seq!['j', 'n', 'a', 'e'].len());
            assert(n.len() != seq!['j', 'n', 'c'].len());
            assert(n.len() != seq!['j', 'a', 'e'].len());
            assert(n.len() != seq!['j', 'n', 'b'].len());
            assert(n[1] != seq!['j', 'p'][1]);
            assert(n.len() != seq!['j', 'n', 'p'].len());
            assert(n.len() != seq!['j', 'b', 'e'].len());
            assert(n.len() != seq!['j', 'n', 'a'].len());
        },
        OpcodeMnemonic::JmpIfNotBelowEqual => {
            let n = seq!['j', 'n', 'b', 'e'];
            assert(n.len() != seq!['e', 'n', 'g', 'c', 'a', 'l', 'l'].len());
            assert(n.len() != seq!['n', 'o', 'p'].len());
            assert(n[0] != seq!['c', 'a', 'l', 'l'][0]);
            assert(n.len() != seq!['r', 'e', 't'].len());
            assert(n.len() != seq!['s', 't', 'a', 'c', 'k', 'a', 'l', 'l', 'o', 'c'].len());
            assert(n.len() != seq!['s', 't', 'a', 'c', 'k', 'f', 'r', 'e', 'e'].len());
            assert(n[0] != seq!['e', 'x', 'i', 't'][0]);
            assert(n[0] != seq!['r', 'e', 't', 'f'][0]);
            assert(n.len() != seq!['m', 'a', 'l', 'l', 'o', 'c'].len());
            assert(n[0] != seq!['f', 'r', 'e', 'e'][0]);
            assert(n.len() != seq!['m', 'o', 'v'].len());
            assert(n.len() != seq!['j', 'm', 'p'].len());
            assert(n.len() != seq!['j', 'z'].len());
            assert(n.len() != seq!['j', 'n', 'z'].len());
            assert(n.len() != seq!['j', 'e'].len());
            assert(n.len() != seq!['j', 'n', 'e'].len());
            assert(n.len() != seq!['j', 's'].len());
            assert(n.len() != seq!['j', 'n', 's'].len());
            assert(n.len() != seq!['j', 'o'].len());
            assert(n.len() != seq!['j', 'n', 'o'].len());
            assert(n.len() != seq!['j', 'c'].len());
            assert(n.len() != seq!['j', 'b'].len());
            assert(n[2] != seq!['j', 'n', 'a', 'e'][2]);
            assert(n.len() != seq!['j', 'n', 'c'].len());
            assert(n.len() != seq!['j', 'a', 'e'].len());
            assert(n.len() != seq!['j', 'n', 'b'].len());
            assert(n.len() != seq!['j', 'p'].len());
            assert(n.len() != seq!['j', 'n', 'p'].len());
            assert(n.len() != seq!['j', 'b', 'e'].len());
            assert(n.len() != seq!['j', 'n', 'a'].len());
            assert(n.len() != seq!['j', 'a'].len());
        },
        OpcodeMnemonic::JmpIfLess => {
            let n = seq!['j', 'l'];
            assert(n.len() != seq!['e', 'n', 'g', 'c', 'a', 'l', 'l'].len());
            assert(n.len() != seq!['n', 'o', 'p'].len());
            assert(n.len() != seq!['c', 'a', 'l', 'l'].len());
            assert(n.len() != seq!['r', 'e', 't'].len());
            assert(n.len() != seq!['s', 't', 'a', 'c', 'k', 'a', 'l', 'l', 'o', 'c'].len());
            assert(n.len() != seq!['s', 't', 'a', 'c', 'k', 'f', 'r', 'e', 'e'].len());
            assert(n.len() != seq!['e', 'x', 'i', 't'].len());
            assert(n.len() != seq!['r', 'e', 't', 'f'].len());
            assert(n.len() != seq!['m', 'a', 'l', 'l', 'o', 'c'].len());
            assert(n.len() != seq!['f', 'r', 'e', 'e'].len());
            assert(n.len() != seq!['m', 'o', 'v'].len());
            assert(n.len() != seq!['j', 'm', 'p'].len());
            assert(n[1] != seq!['j', 'z'][1]);
            assert(n.len() != seq!['j', 'n', 'z'].len());
            assert(n[1] != seq!['j', 'e'][1]);
            assert(n.len() != seq!['j', 'n', 'e'].len());
            assert(n[1] != seq!['j', 's'][1]);
            assert(n.len() != seq!['j', 'n', 's'].len());
            assert(n[1] != seq!['j', 'o'][1]);
            assert(n.len() != seq!['j', 'n', 'o'].len());
            assert(n[1] != seq!['j', 'c'][1]);
            assert(n[1] != seq!['j', 'b'][1]);
            assert(n.len() != seq!['j', 'n', 'a', 'e'].len());
            assert(n.len() != seq!['j', 'n', 'c'].len());
            assert(n.len() != seq!['j', 'a', 'e'].len());
            assert(n.len() != seq!['j', 'n', 'b'].len());
            assert(n[1] != seq!['j', 'p'][1]);
            assert(n.len() != seq!['j', 'n', 'p'].len());
            assert(n.len() != seq!['j', 'b', 'e'].len());
            assert(n.len() != seq!['j', 'n', 'a'].len());
            assert(n[1] != seq!['j', 'a'][1]);
            assert(n.len() != seq!['j', 'n', 'b', 'e'].len());
        },
        OpcodeMnemonic::JmpIfNotGreaterEqual => {
            let n = seq!['j', 'n', 'l', 'e'];
            assert(n.len() != seq!['e', 'n', 'g', 'c', 'a', 'l', 'l'].len());
            assert(n.len() != seq!['n', 'o', 'p'].len());
            assert(n[0] != seq!['c', 'a', 'l', 'l'][0]);
            assert(n.len() != seq!['r', 'e', 't'].len());
            assert(n.len() != seq!['s', 't', 'a', 'c', 'k', 'a', 'l', 'l', 'o', 'c'].len());
            assert(n.len() != seq!['s', 't', 'a', 'c', 'k', 'f', 'r', 'e', 'e'].len());
            assert(n[0] != seq!['e', 'x', 'i', 't'][0]);
            assert(n[0] != seq!['r', 'e', 't', 'f'][0]);
            assert(n.len() != seq!['m', 'a', 'l', 'l', 'o', 'c'].len());
            assert(n[0] != seq!['f', 'r', 'e', 'e'][0]);
            assert(n.len() != seq!['m', 'o', 'v'].len());
            assert(n.len() != seq!['j', 'm', 'p'].len());
            assert(n.len() != seq!['j', 'z'].len());
            assert(n.len() != seq!['j', 'n', 'z'].len());
            assert(n.len() != seq!['j', 'e'].len());
            assert(n.len() != seq!['j', 'n', 'e'].len());
            assert(n.len() != seq!['j', 's'].len());
            assert(n.len() != seq!['j', 'n', 's'].len());
            assert(n.len() != seq!['j', 'o'].len());
            assert(n.len() != seq!['j', 'n', 'o'].len());
            assert(n.len() != seq!['j', 'c'].len());
            assert(n.len() != seq!['j', 'b'].len());
            assert(n[2] != seq!['j', 'n', 'a', 'e'][2]);
            assert(n.len() != seq!['j', 'n', 'c'].len());
            assert(n.len() != seq!['j', 'a', 'e'].len());
            assert(n.len() != seq!['j', 'n', 'b'].len());
            assert(n.len() != seq!['j', 'p'].len());
            assert(n.len() != seq!['j', 'n', 'p'].len());
            assert(n.len() != seq!['j', 'b', 'e'].len());
            assert(n.len() != seq!['j', 'n', 'a'].len());
            assert(n.len() != seq!['j', 'a'].len());
            assert(n[2] != seq!['j', 'n', 'b', 'e'][2]);
            assert(n.len() != seq!['j', 'l'].len());
        },
        OpcodeMnemonic::JmpIfGreaterEqual => {
            let n = seq!['j', 'g', 'e'];
            assert(n.len() != seq!['e', 'n', 'g', 'c', 'a', 'l', 'l'].len());
            assert(n[0] != seq!['n', 'o', 'p'][0]);
            assert(n.len() != seq!['c', 'a', 'l', 'l'].len());
            assert(n[0] != seq!['r', 'e', 't'][0]);
            assert(n.len() != seq!['s', 't', 'a', 'c', 'k', 'a', 'l', 'l', 'o', 'c'].len());
            assert(n.len() != seq!['s', 't', 'a', 'c', 'k', 'f', 'r', 'e', 'e'].len());
            assert(n.len() != seq!['e', 'x', 'i', 't'].len());
            assert(n.len() != seq!['r', 'e', 't', 'f'].len());
            assert(n.len() != seq!['m', 'a', 'l', 'l', 'o', 'c'].len());
            assert(n.len() != seq!['f', 'r', 'e', 'e'].len());
            assert(n[0] != seq!['m', 'o', 'v'][0]);
            assert(n[1] != seq!['j', 'm', 'p'][1]);
            assert(n.len() != seq!['j', 'z'].len());
            assert(n[1] != seq!['j', 'n', 'z'][1]);
            assert(n.len() != seq!['j', 'e'].len());
            assert(n[1] != seq!['j', 'n', 'e'][1]);
            assert(n.len() != seq!['j', 's'].len());
            assert(n[1] != seq!['j', 'n', 's'][1]);
            assert(n.len() != seq!['j', 'o'].len());
            assert(n[1] != seq!['j', 'n', 'o'][1]);
            assert(n.len() != seq!['j', 'c'].len());
            assert(n.len() != seq!['j', 'b'].len());
            assert(n.len() != seq!['j', 'n', 'a', 'e'].len());
            assert(n[1] != seq!['j', 'n', 'c'][1]);
            assert(n[1] != seq!['j', 'a', 'e'][1]);
            assert(n[1] != seq!['j', 'n', 'b'][1]);
            assert(n.len() != seq!['j', 'p'].len());
            assert(n[1] != seq!['j', 'n', 'p'][1]);
            assert(n[1] != seq!['j', 'b', 'e'][1]);
            assert(n[1] != seq!['j', 'n', 'a'][1]);
            assert(n.len() != seq!['j', 'a'].len());
            assert(n.len() != seq!['j', 'n', 'b', 'e'].len());
            assert(n.len() != seq!['j', 'l'].len());
            assert(n.len() != seq!['j', 'n', 'l', 'e'].len());
        },
        OpcodeMnemonic::JmpIfNotLess => {
            let n = seq!['j', 'n', 'l'];
            assert(n.len() != seq!['e', 'n', 'g', 'c', 'a', 'l', 'l'].len());
            assert(n[0] != seq!['n', 'o', 'p'][0]);
            assert(n.len() != seq!['c', 'a', 'l', 'l'].len());
            assert(n[0] != seq!['r', 'e', 't'][0]);
            assert(n.len() != seq!['s', 't', 'a', 'c', 'k', 'a', 'l', 'l', 'o', 'c'].len());
            assert(n.len() != seq!['s', 't', 'a', 'c', 'k', 'f', 'r', 'e', 'e'].len());
            assert(n.len() != seq!['e', 'x', 'i', 't'].len());
            assert(n.len() != seq!['r', 'e', 't', 'f'].len());
            assert(n.len() != seq!['m', 'a', 'l', 'l', 'o', 'c'].len());
            assert(n.len() != seq!['f', 'r', 'e', 'e'].len());
            assert(n[0] != seq!['m', 'o', 'v'][0]);
            assert(n[1] != seq!['j', 'm', 'p'][1]);
            assert(n.len() != seq!['j', 'z'].len());
            assert(n[2] != seq!['j', 'n', 'z'][2]);
            assert(n.len() != seq!['j', 'e'].len());
            assert(n[2] != seq!['j', 'n', 'e'][2]);
            assert(n.len() != seq!['j', 's'].len());
            assert(n[2] != seq!['j', 'n', 's'][2]);
            assert(n.len() != seq!['j', 'o'].len());
            assert(n[2] != seq!['j', 'n', 'o'][2]);
            assert(n.len() != seq!['j', 'c'].len());
            assert(n.len() != seq!['j', 'b'].len());
            assert(n.len() != seq!['j', 'n', 'a', 'e'].len());
            assert(n[2] != seq!['j', 'n', 'c'][2]);
            assert(n[1] != seq!['j', 'a', 'e'][1]);
            assert(n[2] != seq!['j', 'n', 'b'][2]);
            assert(n.len() != seq!['j', 'p'].len());
            assert(n[2] != seq!['j', 'n', 'p'][2]);
            assert(n[1] != seq!['j', 'b', 'e'][1]);
            assert(n[2] != seq!['j', 'n', 'a'][2]);
            assert(n.len() != seq!['j', 'a'].len());
            assert(n.len() != seq!['j', 'n', 'b', 'e'].len());
            assert(n.len() != seq!['j', 'l'].len());
            assert(n.len() != seq!['j', 'n', 'l', 'e'].len());
            assert(n[1] != seq!['j', 'g', 'e'][1]);
        },
        OpcodeMnemonic::JmpIfLessEqual => {
            let n = seq!['j', 'l', 'e'];
            assert(n.len() != seq!['e', 'n', 'g', 'c', 'a', 'l', 'l'].len());
            assert(n[0] != seq!['n', 'o', 'p'][0]);
            assert(n.len() != seq!['c', 'a', 'l', 'l'].len());
            assert(n[0] != seq!['r', 'e', 't'][0]);
            assert(n.len() != seq!['s', 't', 'a', 'c', 'k', 'a', 'l', 'l', 'o', 'c'].len());
            assert(n.len() != seq!['s', 't', 'a', 'c', 'k', 'f', 'r', 'e', 'e'].len());
            assert(n.len() != seq!['e', 'x', 'i', 't'].len());
            assert(n.len() != seq!['r', 'e', 't', 'f'].len());
            assert(n.len() != seq!['m', 'a', 'l', 'l', 'o', 'c'].len());
            assert(n.len() != seq!['f', 'r', 'e', 'e'].len());
            assert(n[0] != seq!['m', 'o', 'v'][0]);
            assert(n[1] != seq!['j', 'm', 'p'][1]);
            assert(n.len() != seq!['j', 'z'].len());
            assert(n[1] != seq!['j', 'n', 'z'][1]);
            assert(n.len() != seq!['j', 'e'].len());
            assert(n[1] != seq!['j', 'n', 'e'][1]);
            assert(n.len() != seq!['j', 's'].len());
            assert(n[1] != seq!['j', 'n', 's'][1]);
            assert(n.len() != seq!['j', 'o'].len());
            assert(n[1] != seq!['j', 'n', 'o'][1]);
            assert(n.len() != seq!['j', 'c'].len());
            assert(n.len() != seq!['j', 'b'].len());
            assert(n.len() != seq!['j', 'n', 'a', 'e'].len());
            assert(n[1] != seq!['j', 'n', 'c'][1]);
            assert(n[1] != seq!['j', 'a', 'e'][1]);
            assert(n[1] != seq!['j', 'n', 'b'][1]);
            assert(n.len() != seq!['j', 'p'].len());
            assert(n[1] != seq!['j', 'n', 'p'][1]);
            assert(n[1] != seq!['j', 'b', 'e'][1]);
            assert(n[1] != seq!['j', 'n', 'a'][1]);
            assert(n.len() != seq!['j', 'a'].len());
            assert(n.len() != seq!['j', 'n', 'b', 'e'].len());
            assert(n.len() != seq!['j', 'l'].len());
            assert(n.len() != seq!['j', 'n', 'l', 'e'].len());
            assert(n[1] != seq!['j', 'g', 'e'][1]);
            assert(n[1] != seq!['j', 'n', 'l'][1]);
        },
        OpcodeMnemonic::JmpIfNotGreater => {
            let n = seq!['j', 'n', 'g'];
            assert(n.len() != seq!['e', 'n', 'g', 'c', 'a', 'l', 'l'].len());
            assert(n[0] != seq!['n', 'o', 'p'][0]);
            assert(n.len() != seq!['c', 'a', 'l', 'l'].len());
            assert(n[0] != seq!['r', 'e', 't'][0]);
            assert(n.len() != seq!['s', 't', 'a', 'c', 'k', 'a', 'l', 'l', 'o', 'c'].len());
            assert(n.len() != seq!['s', 't', 'a', 'c', 'k', 'f', 'r', 'e', 'e'].len());
            assert(n.len() != seq!['e', 'x', 'i', 't'].len());
            assert(n.len() != seq!['r', 'e', 't', 'f'].len());
            assert(n.len() != seq!['m', 'a', 'l', 'l', 'o', 'c'].len());
            assert(n.len() != seq!['f', 'r', 'e', 'e'].len());
            assert(n[0] != seq!['m', 'o', 'v'][0]);
            assert(n[1] != seq!['j', 'm', 'p'][1]);
            assert(n.len() != seq!['j', 'z'].len());
            assert(n[2] != seq!['j', 'n', 'z'][2]);
            assert(n.len() != seq!['j', 'e'].len());
            assert(n[2] != seq!['j', 'n', 'e'][2]);
            assert(n.len() != seq!['j', 's'].len());
            assert(n[2] != seq!['j', 'n', 's'][2]);
            assert(n.len() != seq!['j', 'o'].len());
            assert(n[2] != seq!['j', 'n', 'o'][2]);
            assert(n.len() != seq!['j', 'c'].len());
            assert(n.len() != seq!['j', 'b'].len());
            assert(n.len() != seq!['j', 'n', 'a', 'e'].len());
            assert(n[2] != seq!['j', 'n', 'c'][2]);
            assert(n[1] != seq!['j', 'a', 'e'][1]);
            assert(n[2] != seq!['j', 'n', 'b'][2]);
            assert(n.len() != seq!['j', 'p'].len());
            assert(n[2] != seq!['j', 'n', 'p'][2]);
            assert(n[1] != seq!['j', 'b', 'e'][1]);
            assert(n[2] != seq!['j', 'n', 'a'][2]);
            assert(n.len() != seq!['j', 'a'].len());
            assert(n.len() != seq!['j', 'n', 'b', 'e'].len());
            assert(n.len() != seq!['j', 'l'].len());
            assert(n.len() != seq!['j', 'n', 'l', 'e'].len());
            assert(n[1] != seq!['j', 'g', 'e'][1]);
            assert(n[2] != seq!['j', 'n', 'l'][2]);
            assert(n[1] != seq!['j', 'l', 'e'][1]);
        },
        OpcodeMnemonic::JmpIfGreater => {
            let n = seq!['j', 'g'];
            assert(n.len() != seq!['e', 'n', 'g', 'c', 'a', 'l', 'l'].len());
            assert(n.len() != seq!['n', 'o', 'p'].len());
            assert(n.len() != seq!['c', 'a', 'l', 'l'].len());
            assert(n.len() != seq!['r', 'e', 't'].len());
            assert(n.len() != seq!['s', 't', 'a', 'c', 'k', 'a', 'l', 'l', 'o', 'c'].len());
            assert(n.len() != seq!['s', 't', 'a', 'c', 'k', 'f', 'r', 'e', 'e'].len());
            assert(n.len() != seq!['e', 'x', 'i', 't'].len());
            assert(n.len() != seq!['r', 'e', 't', 'f'].len());
            assert(n.len() != seq!['m', 'a', 'l', 'l', 'o', 'c'].len());
            assert(n.len() != seq!['f', 'r', 'e', 'e'].len());
            assert(n.len() != seq!['m', 'o', 'v'].len());
            assert(n.len() != seq!['j', 'm', 'p'].len());
            assert(n[1] != seq!['j', 'z'][1]);
            assert(n.len() != seq!['j', 'n', 'z'].len());
            assert(n[1] != seq!['j', 'e'][1]);
            assert(n.len() != seq!['j', 'n', 'e'].len());
            assert(n[1] != seq!['j', 's'][1]);
            assert(n.len() != seq!['j', 'n', 's'].len());
            assert(n[1] != seq!['j', 'o'][1]);
            assert(n.len() != seq!['j', 'n', 'o'].len());
            assert(n[1] != seq!['j', 'c'][1]);
            assert(n[1] != seq!['j', 'b'][1]);
            assert(n.len() != seq!['j', 'n', 'a', 'e'].len());
            assert(n.len() != seq!['j', 'n', 'c'].len());
            assert(n.len() != seq!['j', 'a', 'e'].len());
            assert(n.len() != seq!['j', 'n', 'b'].len());
            assert(n[1] != seq!['j', 'p'][1]);
            assert(n.len() != seq!['j', 'n', 'p'].len());
            assert(n.len() != seq!['j', 'b', 'e'].len());
            assert(n.len() != seq!['j', 'n', 'a'].len());
            assert(n[1] != seq!['j', 'a'][1]);
            assert(n.len() != seq!['j', 'n', 'b', 'e'].len());
            assert(n[1] != seq!['j', 'l'][1]);
            assert(n.len() != seq!['j', 'n', 'l', 'e'].len());
            assert(n.len() != seq!['j', 'g', 'e'].len());
            assert(n.len() != seq!['j', 'n', 'l'].len());
            assert(n.len() != seq!['j', 'l', 'e'].len());
            assert(n.len() != seq!['j', 'n', 'g'].len());
        },
        OpcodeMnemonic::JmpIfNotLessEqual => {
            let n = seq!['j', 'n', 'g', 'e'];
            assert(n.len() != seq!['e', 'n', 'g', 'c', 'a', 'l', 'l'].len());
            assert(n.len() != seq!['n', 'o', 'p'].len());
            assert(n[0] != seq!['c', 'a', 'l', 'l'][0]);
            assert(n.len() != seq!['r', 'e', 't'].len());
            assert(n.len() != seq!['s', 't', 'a', 'c', 'k', 'a', 'l', 'l', 'o', 'c'].len());
            assert(n.len() != seq!['s', 't', 'a', 'c', 'k', 'f', 'r', 'e', 'e'].len());
            assert(n[0] != seq!['e', 'x', 'i', 't'][0]);
            assert(n[0] != seq!['r', 'e', 't', 'f'][0]);
            assert(n.len() != seq!['m', 'a', 'l', 'l', 'o', 'c'].len());
            assert(n[0] != seq!['f', 'r', 'e', 'e'][0]);
            assert(n.len() != seq!['m', 'o', 'v'].len());
            assert(n.len() != seq!['j', 'm', 'p'].len());
            assert(n.len() != seq!['j', 'z'].len());
            assert(n.len() != seq!['j', 'n', 'z'].len());
            assert(n.len() != seq!['j', 'e'].len());
            assert(n.len() != seq!['j', 'n', 'e'].len());
            assert(n.len() != seq!['j', 's'].len());
            assert(n.len() != seq!['j', 'n', 's'].len());
            assert(n.len() != seq!['j', 'o'].len());
            assert(n.len() != seq!['j', 'n', 'o'].len());
            assert(n.len() != seq!['j', 'c'].len());
            assert(n.len() != seq!['j', 'b'].len());
            assert(n[2] != seq!['j', 'n', 'a', 'e'][2]);
            assert(n.len() != seq!['j', 'n', 'c'].len());
            assert(n.len() != seq!['j', 'a', 'e'].len());
            assert(n.len() != seq!['j', 'n', 'b'].len());
            assert(n.len() != seq!['j', 'p'].len());
            assert(n.len() != seq!['j', 'n', 'p'].len());
            assert(n.len() != seq!['j', 'b', 'e'].len());
            assert(n.len() != seq!['j', 'n', 'a'].len());
            assert(n.len() != seq!['j', 'a'].len());
            assert(n[2] != seq!['j', 'n', 'b', 'e'][2]);
            assert(n.len() != seq!['j', 'l'].len());
            assert(n[2] != seq!['j', 'n', 'l', 'e'][2]);
            assert(n.len() != seq!['j', 'g', 'e'].len());
            assert(n.len() != seq!['j', 'n', 'l'].len());
            assert(n.len() != seq!['j', 'l', 'e'].len());
            assert(n.len() != seq!['j', 'n', 'g'].len());
            assert(n.len() != seq!['j', 'g'].len());
        },
        OpcodeMnemonic::JmpIfErr => {
            let n = seq!['j', 'e', 'r'];
            assert(n.len() != seq!['e', 'n', 'g', 'c', 'a', 'l', 'l'].len());
            assert(n[0] != seq!['n', 'o', 'p'][0]);
            assert(n.len() != seq!['c', 'a', 'l', 'l'].len());
            assert(n[0] != seq!['r', 'e', 't'][0]);
            assert(n.len() != seq!['s', 't', 'a', 'c', 'k', 'a', 'l', 'l', 'o', 'c'].len());
            assert(n.len() != seq!['s', 't', 'a', 'c', 'k', 'f', 'r', 'e', 'e'].len());
            assert(n.len() != seq!['e', 'x', 'i', 't'].len());
            assert(n.len() != seq!['r', 'e', 't', 'f'].len());
            assert(n.len() != seq!['m', 'a', 'l', 'l', 'o', 'c'].len());
            assert(n.len() != seq!['f', 'r', 'e', 'e'].len());
            assert(n[0] != seq!['m', 'o', 'v'][0]);
            assert(n[1] != seq!['j', 'm', 'p'][1]);
            assert(n.len() != seq!['j', 'z'].len());
            assert(n[1] != seq!['j', 'n', 'z'][1]);
            assert(n.len() != seq!['j', 'e'].len());
            assert(n[1] != seq!['j', 'n', 'e'][1]);
            assert(n.len() != seq!['j', 's'].len());
            assert(n[1] != seq!['j', 'n', 's'][1]);
            assert(n.len() != seq!['j', 'o'].len());
            assert(n[1] != seq!['j', 'n', 'o'][1]);
            assert(n.len() != seq!['j', 'c'].len());
            assert(n.len() != seq!['j', 'b'].len());
            assert(n.len() != seq!['j', 'n', 'a', 'e'].len());
            assert(n[1] != seq!['j', 'n', 'c'][1]);
            assert(n[1] != seq!['j', 'a', 'e'][1]);
            assert(n[1] != seq!['j', 'n', 'b'][1]);
            assert(n.len() != seq!['j', 'p'].len());
            assert(n[1] != seq!['j', 'n', 'p'][1]);
            assert(n[1] != seq!['j', 'b', 'e'][1]);
            assert(n[1] != seq!['j', 'n', 'a'][1]);
            assert(n.len() != seq!['j', 'a'].len());
            assert(n.len() != seq!['j', 'n', 'b', 'e'].len());
            assert(n.len() != seq!['j', 'l'].len());
            assert(n.len() != seq!['j', 'n', 'l', 'e'].len());
            assert(n[1] != seq!['j', 'g', 'e'][1]);
            assert(n[1] != seq!['j', 'n', 'l'][1]);
            assert(n[1] != seq!['j', 'l', 'e'][1]);
            assert(n[1] != seq!['j', 'n', 'g'][1]);
            assert(n.len() != seq!['j', 'g'].len());
            assert(n.len() != seq!['j', 'n', 'g', 'e'].len());
        },
        OpcodeMnemonic::JmpIfNotOk => {
            let n = seq!['j', 'n', 'o', 'k'];
            assert(n.len() != seq!['e', 'n', 'g', 'c', 'a', 'l', 'l'].len());
            assert(n.len() != seq!['n', 'o', 'p'].len());
            assert(n[0] != seq!['c', 'a', 'l', 'l'][0]);
            assert(n.len() != seq!['r', 'e', 't'].len());
            assert(n.len() != seq!['s', 't', 'a', 'c', 'k', 'a', 'l', 'l', 'o', 'c'].len());
            assert(n.len() != seq!['s', 't', 'a', 'c', 'k', 'f', 'r', 'e', 'e'].len());
            assert(n[0] != seq!['e', 'x', 'i', 't'][0]);
            assert(n[0] != seq!['r', 'e', 't', 'f'][0]);
            assert(n.len() != seq!['m', 'a', 'l', 'l', 'o', 'c'].len());
            assert(n[0] != seq!['f', 'r', 'e', 'e'][0]);
            assert(n.len() != seq!['m', 'o', 'v'].len());
            assert(n.len() != seq!['j', 'm', 'p'].len());
            assert(n.len() != seq!['j', 'z'].len());
            assert(n.len() != seq!['j', 'n', 'z'].len());
            assert(n.len() != seq!['j', 'e'].len());
            assert(n.len() != seq!['j', 'n', 'e'].len());
            assert(n.len() != seq!['j', 's'].len());
            assert(n.len() != seq!['j', 'n', 's'].len());
            assert(n.len() != seq!['j', 'o'].len());
            assert(n.len() != seq!['j', 'n', 'o'].len());
            assert(n.len() != seq!['j', 'c'].len());
            assert(n.len() != seq!['j', 'b'].len());
            assert(n[2] != seq!['j', 'n', 'a', 'e'][2]);
            assert(n.len() != seq!['j', 'n', 'c'].len());
            assert(n.len() != seq!['j', 'a', 'e'].len());
            assert(n.len() != seq!['j', 'n', 'b'].len());
            assert(n.len() != seq!['j', 'p'].len());
            assert(n.len() != seq!['j', 'n', 'p'].len());
            assert(n.len() != seq!['j', 'b', 'e'].len());
            assert(n.len() != seq!['j', 'n', 'a'].len());
            assert(n.len() != seq!['j', 'a'].len());
            assert(n[2] != seq!['j', 'n', 'b', 'e'][2]);
            assert(n.len() != seq!['j', 'l'].len());
            assert(n[2] != seq!['j', 'n', 'l', 'e'][2]);
            assert(n.len() != seq!['j', 'g', 'e'].len());
            assert(n.len() != seq!['j', 'n', 'l'].len());
            assert(n.len() != seq!['j', 'l', 'e'].len());
            assert(n.len() != seq!['j', 'n', 'g'].len());
            assert(n.len() != seq!['j', 'g'].len());
            assert(n[2] != seq!['j', 'n', 'g', 'e'][2]);
            assert(n.len() != seq!['j', 'e', 'r'].len());
        },
        OpcodeMnemonic::JmpIfNotErr => {
            let n = seq!['j', 'n', 'e', 'r'];
            assert(n.len() != seq!['e', 'n', 'g', 'c', 'a', 'l', 'l'].len());
            assert(n.len() != seq!['n', 'o', 'p'].len());
            assert(n[0] != seq!['c', 'a', 'l', 'l'][0]);
            assert(n.len() != seq!['r', 'e', 't'].len());
            assert(n.len() != seq!['s', 't', 'a', 'c', 'k', 'a', 'l', 'l', 'o', 'c'].len());
            assert(n.len() != seq!['s', 't', 'a', 'c', 'k', 'f', 'r', 'e', 'e'].len());
            assert(n[0] != seq!['e', 'x', 'i', 't'][0]);
            assert(n[0] != seq!['r', 'e', 't', 'f'][0]);
            assert(n.len() != seq!['m', 'a', 'l', 'l', 'o', 'c'].len());
            assert(n[0] != seq!['f', 'r', 'e', 'e'][0]);
            assert(n.len() != seq!['m', 'o', 'v'].len());
            assert(n.len() != seq!['j', 'm', 'p'].len());
            assert(n.len() != seq!['j', 'z'].len());
            assert(n.len() != seq!['j', 'n', 'z'].len());
            assert(n.len() != seq!['j', 'e'].len());
            assert(n.len() != seq!['j', 'n', 'e'].len());
            assert(n.len() != seq!['j', 's'].len());
            assert(n.len() != seq!['j', 'n', 's'].len());
            assert(n.len() != seq!['j', 'o'].len());
            assert(n.len() != seq!['j', 'n', 'o'].len());
            assert(n.len() != seq!['j', 'c'].len());
            assert(n.len() != seq!['j', 'b'].len());
            assert(n[2] != seq!['j', 'n', 'a', 'e'][2]);
            assert(n.len() != seq!['j', 'n', 'c'].len());
            assert(n.len() != seq!['j', 'a', 'e'].len());
            assert(n.len() != seq!['j', 'n', 'b'].len());
            assert(n.len() != seq!['j', 'p'].len());
            assert(n.len() != seq!['j', 'n', 'p'].len());
            assert(n.len() != seq!['j', 'b', 'e'].len());
            assert(n.len() != seq!['j', 'n', 'a'].len());
            assert(n.len() != seq!['j', 'a'].len());
            assert(n[2] != seq!['j', 'n', 'b', 'e'][2]);
            assert(n.len() != seq!['j', 'l'].len());
            assert(n[2] != seq!['j', 'n', 'l', 'e'][2]);
            assert(n.len() != seq!['j', 'g', 'e'].len());
            assert(n.len() != seq!['j', 'n', 'l'].len());
            assert(n.len() != seq!['j', 'l', 'e'].len());
            assert(n.len() != seq!['j', 'n', 'g'].len());
            assert(n.len() != seq!['j', 'g'].len());
            assert(n[2] != seq!['j', 'n', 'g', 'e'][2]);
            assert(n.len() != seq!['j', 'e', 'r'].len());
            assert(n[2] != seq!['j', 'n', 'o', 'k'][2]);
        },
        OpcodeMnemonic::JmpIfOk => {
            let n = seq!['j', 'o', 'k'];
            assert(n.len() != seq!['e', 'n', 'g', 'c', 'a', 'l', 'l'].len());
            assert(n[0] != seq!['n', 'o', 'p'][0]);
            assert(n.len() != seq!['c', 'a', 'l', 'l'].len());
            assert(n[0] != seq!['r', 'e', 't'][0]);
            assert(n.len() != seq!['s', 't', 'a', 'c', 'k', 'a', 'l', 'l', 'o', 'c'].len());
            assert(n.len() != seq!['s', 't', 'a', 'c', 'k', 'f', 'r', 'e', 'e'].len());
            assert(n.len() != seq!['e', 'x', 'i', 't'].len());
            assert(n.len() != seq!['r', 'e', 't', 'f'].len());
            assert(n.len() != seq!['m', 'a', 'l', 'l', 'o', 'c'].len());
            assert(n.len() != seq!['f', 'r', 'e', 'e'].len());
            assert(n[0] != seq!['m', 'o', 'v'][0]);
            assert(n[1] != seq!['j', 'm', 'p'][1]);
            assert(n.len() != seq!['j', 'z'].len());
            assert(n[1] != seq!['j', 'n', 'z'][1]);
            assert(n.len() != seq!['j', 'e'].len());
            assert(n[1] != seq!['j', 'n', 'e'][1]);
            assert(n.len() != seq!['j', 's'].len());
            assert(n[1] != seq!['j', 'n', 's'][1]);
            assert(n.len() != seq!['j', 'o'].len());
            assert(n[1] != seq!['j', 'n', 'o'][1]);
            assert(n.len() != seq!['j', 'c'].len());
            assert(n.len() != seq!['j', 'b'].len());
            assert(n.len() != seq!['j', 'n', 'a', 'e'].len());
            assert(n[1] != seq!['j', 'n', 'c'][1]);
            assert(n[1] != seq!['j', 'a', 'e'][1]);
            assert(n[1] != seq!['j', 'n', 'b'][1]);
            assert(n.len() != seq!['j', 'p'].len());
            assert(n[1] != seq!['j', 'n', 'p'][1]);
            assert(n[1] != seq!['j', 'b', 'e'][1]);
            assert(n[1] != seq!['j', 'n', 'a'][1]);
            assert(n.len() != seq!['j', 'a'].len());
            assert(n.len() != seq!['j', 'n', 'b', 'e'].len());
            assert(n.len() != seq!['j', 'l'].len());
            assert(n.len() != seq!['j', 'n', 'l', 'e'].len());
            assert(n[1] != seq!['j', 'g', 'e'][1]);
            assert(n[1] != seq!['j', 'n', 'l'][1]);
            assert(n[1] != seq!['j', 'l', 'e'][1]);
            assert(n[1] != seq!['j', 'n', 'g'][1]);
            assert(n.len() != seq!['j', 'g'].len());
            assert(n.len() != seq!['j', 'n', 'g', 'e'].len());
            assert(n[1] != seq!['j', 'e', 'r'][1]);
            assert(n.len() != seq!['j', 'n', 'o', 'k'].len());
            assert(n.len() != seq!['j', 'n', 'e', 'r'].len());
        },
        OpcodeMnemonic::Cmp => {
            let n = seq!['c', 'm', 'p'];
            assert(n.len() != seq!['e', 'n', 'g', 'c', 'a', 'l', 'l'].len());
            assert(n[0] != seq!['n', 'o', 'p'][0]);
            assert(n.len() != seq!['c', 'a', 'l', 'l'].len());
            assert(n[0] != seq!['r', 'e', 't'][0]);
            assert(n.len() != seq!['s', 't', 'a', 'c', 'k', 'a', 'l', 'l', 'o', 'c'].len());
            assert(n.len() != seq!['s', 't', 'a', 'c', 'k', 'f', 'r', 'e', 'e'].len());
            assert(n.len() != seq!['e', 'x', 'i', 't'].len());
            assert(n.len() != seq!['r', 'e', 't', 'f'].len());
            assert(n.len() != seq!['m', 'a', 'l', 'l', 'o', 'c'].len());
            assert(n.len() != seq!['f', 'r', 'e', 'e'].len());
            assert(n[0] != seq!['m', 'o', 'v'][0]);
            assert(n[0] != seq!['j', 'm', 'p'][0]);
            assert(n.len() != seq!['j', 'z'].len());
            assert(n[0] != seq!['j', 'n', 'z'][0]);
            assert(n.len() != seq!['j', 'e'].len());
            assert(n[0] != seq!['j', 'n', 'e'][0]);
            assert(n.len() != seq!['j', 's'].len());
            assert(n[0] != seq!['j', 'n', 's'][0]);
            assert(n.len() != seq!['j', 'o'].len());
            assert(n[0] != seq!['j', 'n', 'o'][0]);
            assert(n.len() != seq!['j', 'c'].len());
            assert(n.len() != seq!['j', 'b'].len());
            assert(n.len() != seq!['j', 'n', 'a', 'e'].len());
            assert(n[0] != seq!['j', 'n', 'c'][0]);
            assert(n[0] != seq!['j', 'a', 'e'][0]);
            assert(n[0] != seq!['j', 'n', 'b'][0]);
            assert(n.len() != seq!['j', 'p'].len());
            assert(n[0] != seq!['j', 'n', 'p'][0]);
            assert(n[0] != seq!['j', 'b', 'e'][0]);
            assert(n[0] != seq!['j', 'n', 'a'][0]);
            assert(n.len() != seq!['j', 'a'].len());
            assert(n.len() != seq!['j', 'n', 'b', 'e'].len());
            assert(n.len() != seq!['j', 'l'].len());
            assert(n.len() != seq!['j', 'n', 'l', 'e'].len());
            assert(n[0] != seq!['j', 'g', 'e'][0]);
            assert(n[0] != seq!['j', 'n', 'l'][0]);
            assert(n[0] != seq!['j', 'l', 'e'][0]);
            assert(n[0] != seq!['j', 'n', 'g'][0]);
            assert(n.len() != seq!['j', 'g'].len());
            assert(n.len() != seq!['j', 'n', 'g', 'e'].len());
            assert(n[0] != seq!['j', 'e', 'r'][0]);
            assert(n.len() != seq!['j', 'n', 'o', 'k'].len());
            assert(n.len() != seq!['j', 'n', 'e', 'r'].len());
            assert(n[0] != seq!['j', 'o', 'k'][0]);
        },
        OpcodeMnemonic::Add => {
            let n = seq!['a', 'd', 'd'];
            assert(n.len() != seq!['e', 'n', 'g', 'c', 'a', 'l', 'l'].len());
            assert(n[0] != seq!['n', 'o', 'p'][0]);
            assert(n.len() != seq!['c', 'a', 'l', 'l'].len());
            assert(n[0] != seq!['r', 'e', 't'][0]);
            assert(n.len() != seq!['s', 't', 'a', 'c', 'k', 'a', 'l', 'l', 'o', 'c'].len());
            assert(n.len() != seq!['s', 't', 'a', 'c', 'k', 'f', 'r', 'e', 'e'].len());
            assert(n.len() != seq!['e', 'x', 'i', 't'].len());
            assert(n.len() != seq!['r', 'e', 't', 'f'].len());
            assert(n.len() != seq!['m', 'a', 'l', 'l', 'o', 'c'].len());
            assert(n.len() != seq!['f', 'r', 'e', 'e'].len());
            assert(n[0] != seq!['m', 'o', 'v'][0]);
            assert(n[0] != seq!['j', 'm', 'p'][0]);
            assert(n.len() != seq!['j', 'z'].len());
            assert(n[0] != seq!['j', 'n', 'z'][0]);
            assert(n.len() != seq!['j', 'e'].len());
            assert(n[0] != seq!['j', 'n', 'e'][0]);
            assert(n.len() != seq!['j', 's'].len());
            assert(n[0] != seq!['j', 'n', 's'][0]);
            assert(n.len() != seq!['j', 'o'].len());
            assert(n[0] != seq!['j', 'n', 'o'][0]);
            assert(n.len() != seq!['j', 'c'].len());
            assert(n.len() != seq!['j', 'b'].len());
            assert(n.len() != seq!['j', 'n', 'a', 'e'].len());
            assert(n[0] != seq!['j', 'n', 'c'][0]);
            assert(n[0] != seq!['j', 'a', 'e'][0]);
            assert(n[0] != seq!['j', 'n', 'b'][0]);
            assert(n.len() != seq!['j', 'p'].len());
            assert(n[0] != seq!['j', 'n', 'p'][0]);
            assert(n[0] != seq!['j', 'b', 'e'][0]);
            assert(n[0] != seq!['j', 'n', 'a'][0]);
            assert(n.len() != seq!['j', 'a'].len());
            assert(n.len() != seq!['j', 'n', 'b', 'e'].len());
            assert(n.len() != seq!['j', 'l'].len());
            assert(n.len() != seq!['j', 'n', 'l', 'e'].len());
            assert(n[0] != seq!['j', 'g', 'e'][0]);
            assert(n[0] != seq!['j', 'n', 'l'][0]);
            assert(n[0] != seq!['j', 'l', 'e'][0]);
            assert(n[0] != seq!['j', 'n', 'g'][0]);
            assert(n.len() != seq!['j', 'g'].len());
            assert(n.len() != seq!['j', 'n', 'g', 'e'].len());
            assert(n[0] != seq!['j', 'e', 'r'][0]);
            assert(n.len() != seq!['j', 'n', 'o', 'k'].len());
            assert(n.len() != seq!['j', 'n', 'e', 'r'].len());
            assert(n[0] != seq!['j', 'o', 'k'][0]);
            assert(n[0] != seq!['c', 'm', 'p'][0]);
        },
        OpcodeMnemonic::Sub => {
            let n = seq!['s', 'u', 'b'];
            assert(n.len() != seq!['e', 'n', 'g', 'c', 'a', 'l', 'l'].len());
            assert(n[0] != seq!['n', 'o', 'p'][0]);
            assert(n.len() != seq!['c', 'a', 'l', 'l'].len());
            assert(n[0] != seq!['r', 'e', 't'][0]);
            assert(n.len() != seq!['s', 't', 'a', 'c', 'k', 'a', 'l', 'l', 'o', 'c'].len());
            assert(n.len() != seq!['s', 't', 'a', 'c', 'k', 'f', 'r', 'e', 'e'].len());
            assert(n.len() != seq!['e', 'x', 'i', 't'].len());
            assert(n.len() != seq!['r', 'e', 't', 'f'].len());
            assert(n.len() != seq!['m', 'a', 'l', 'l', 'o', 'c'].len());
            assert(n.len() != seq!['f', 'r', 'e', 'e'].len());
            assert(n[0] != seq!['m', 'o', 'v'][0]);
            assert(n[0] != seq!['j', 'm', 'p'][0]);
            assert(n.len() != seq!['j', 'z'].len());
            assert(n[0] != seq!['j', 'n', 'z'][0]);
            assert(n.len() != seq!['j', 'e'].len());
            assert(n[0] != seq!['j', 'n', 'e'][0]);
            assert(n.len() != seq!['j', 's'].len());
            assert(n[0] != seq!['j', 'n', 's'][0]);
            assert(n.len() != seq!['j', 'o'].len());
            assert(n[0] != seq!['j', 'n', 'o'][0]);
            assert(n.len() != seq!['j', 'c'].len());
            assert(n.len() != seq!['j', 'b'].len());
            assert(n.len() != seq!['j', 'n', 'a', 'e'].len());
            assert(n[0] != seq!['j', 'n', 'c'][0]);
            assert(n[0] != seq!['j', 'a', 'e'][0]);
            assert(n[0] != seq!['j', 'n', 'b'][0]);
            assert(n.len() != seq!['j', 'p'].len());
            assert(n[0] != seq!['j', 'n', 'p'][0]);
            assert(n[0] != seq!['j', 'b', 'e'][0]);
            assert(n[0] != seq!['j', 'n', 'a'][0]);
            assert(n.len() != seq!['j', 'a'].len());
            assert(n.len() != seq!['j', 'n', 'b', 'e'].len());
            assert(n.len() != seq!['j', 'l'].len());
            assert(n.len() != seq!['j', 'n', 'l', 'e'].len());
            assert(n[0] != seq!['j', 'g', 'e'][0]);
            assert(n[0] != seq!['j', 'n', 'l'][0]);
            assert(n[0] != seq!['j', 'l', 'e'][0]);
            assert(n[0] != seq!['j', 'n', 'g'][0]);
            assert(n.len() != seq!['j', 'g'].len());
            assert(n.len() != seq!['j', 'n', 'g', 'e'].len());
            assert(n[0] != seq!['j', 'e', 'r'][0]);
            assert(n.len() != seq!['j', 'n', 'o', 'k'].len());
            assert(n.len() != seq!['j', 'n', 'e', 'r'].len());
            assert(n[0] != seq!['j', 'o', 'k'][0]);
            assert(n[0] != seq!['c', 'm', 'p'][0]);
            assert(n[0] != seq!['a', 'd', 'd'][0]);
        },
        OpcodeMnemonic::Mul => {
            let n = seq!['m', 'u', 'l'];
            assert(n.len() != seq!['e', 'n', 'g', 'c', 'a', 'l', 'l'].len());
            assert(n[0] != seq!['n', 'o', 'p'][0]);
            assert(n.len() != seq!['c', 'a', 'l', 'l'].len());
            assert(n[0] != seq!['r', 'e', 't'][0]);
            assert(n.len() != seq!['s', 't', 'a', 'c', 'k', 'a', 'l', 'l', 'o', 'c'].len());
            assert(n.len() != seq!['s', 't', 'a', 'c', 'k', 'f', 'r', 'e', 'e'].len());
            assert(n.len() != seq!['e', 'x', 'i', 't'].len());
            assert(n.len() != seq!['r', 'e', 't', 'f'].len());
            assert(n.len() != seq!['m', 'a', 'l', 'l', 'o', 'c'].len());
            assert(n.len() != seq!['f', 'r', 'e', 'e'].len());
            assert(n[1] != seq!['m', 'o', 'v'][1]);
            assert(n[0] != seq!['j', 'm', 'p'][0]);
            assert(n.len() != seq!['j', 'z'].len());
            assert(n[0] != seq!['j', 'n', 'z'][0]);
            assert(n.len() != seq!['j', 'e'].len());
            assert(n[0] != seq!['j', 'n', 'e'][0]);
            assert(n.len() != seq!['j', 's'].len());
            assert(n[0] != seq!['j', 'n', 's'][0]);
            assert(n.len() != seq!['j', 'o'].len());
            assert(n[0] != seq!['j', 'n', 'o'][0]);
            assert(n.len() != seq!['j', 'c'].len());
            assert(n.len() != seq!['j', 'b'].len());
            assert(n.len() != seq!['j', 'n', 'a', 'e'].len());
            assert(n[0] != seq!['j', 'n', 'c'][0]);
            assert(n[0] != seq!['j', 'a', 'e'][0]);
            assert(n[0] != seq!['j', 'n', 'b'][0]);
            assert(n.len() != seq!['j', 'p'].len());
            assert(n[0] != seq!['j', 'n', 'p'][0]);
            assert(n[0] != seq!['j', 'b', 'e'][0]);
            assert(n[0] != seq!['j', 'n', 'a'][0]);
            assert(n.len() != seq!['j', 'a'].len());
            assert(n.len() != seq!['j', 'n', 'b', 'e'].len());
            assert(n.len() != seq!['j', 'l'].len());
            assert(n.len() != seq!['j', 'n', 'l', 'e'].len());
            assert(n[0] != seq!['j', 'g', 'e'][0]);
            assert(n[0] != seq!['j', 'n', 'l'][0]);
            assert(n[0] != seq!['j', 'l', 'e'][0]);
            assert(n[0] != seq!['j', 'n', 'g'][0]);
            assert(n.len() != seq!['j', 'g'].len());
            assert(n.len() != seq!['j', 'n', 'g', 'e'].len());
            assert(n[0] != seq!['j', 'e', 'r'][0]);
            assert(n.len() != seq!['j', 'n', 'o', 'k'].len());
            assert(n.len() != seq!['j', 'n', 'e', 'r'].len());
            assert(n[0] != seq!['j', 'o', 'k'][0]);
            assert(n[0] != seq!['c', 'm', 'p'][0]);
            assert(n[0] != seq!['a', 'd', 'd'][0]);
            assert(n[0] != seq!['s', 'u', 'b'][0]);
        },
        OpcodeMnemonic::Div => {
            let n = seq!['d', 'i', 'v'];
            assert(n.len() != seq!['e', 'n', 'g', 'c', 'a', 'l', 'l'].len());
            assert(n[0] != seq!['n', 'o', 'p'][0]);
            assert(n.len() != seq!['c', 'a', 'l', 'l'].len());
            assert(n[0] != seq!['r', 'e', 't'][0]);
            assert(n.len() != seq!['s', 't', 'a', 'c', 'k', 'a', 'l', 'l', 'o', 'c'].len());
            assert(n.len() != seq!['s', 't', 'a', 'c', 'k', 'f', 'r', 'e', 'e'].len());
            assert(n.len() != seq!['e', 'x', 'i', 't'].len());
            assert(n.len() != seq!['r', 'e', 't', 'f'].len());
            assert(n.len() != seq!['m', 'a', 'l', 'l', 'o', 'c'].len());
            assert(n.len() != seq!['f', 'r', 'e', 'e'].len());
            assert(n[0] != seq!['m', 'o', 'v'][0]);
            assert(n[0] != seq!['j', 'm', 'p'][0]);
            assert(n.len() != seq!['j', 'z'].len());
            assert(n[0] != seq!['j', 'n', 'z'][0]);
            assert(n.len() != seq!['j', 'e'].len());
            assert(n[0] != seq!['j', 'n', 'e'][0]);
            assert(n.len() != seq!['j', 's'].len());
            assert(n[0] != seq!['j', 'n', 's'][0]);
            assert(n.len() != seq!['j', 'o'].len());
            assert(n[0] != seq!['j', 'n', 'o'][0]);
            assert(n.len() != seq!['j', 'c'].len());
            assert(n.len() != seq!['j', 'b'].len());
            assert(n.len() != seq!['j', 'n', 'a', 'e'].len());
            assert(n[0] != seq!['j', 'n', 'c'][0]);
            assert(n[0] != seq!['j', 'a', 'e'][0]);
            assert(n[0] != seq!['j', 'n', 'b'][0]);
            assert(n.len() != seq!['j', 'p'].len());
            assert(n[0] != seq!['j', 'n', 'p'][0]);
            assert(n[0] != seq!['j', 'b', 'e'][0]);
            assert(n[0] != seq!['j', 'n', 'a'][0]);
            assert(n.len() != seq!['j', 'a'].len());
            assert(n.len() != seq!['j', 'n', 'b', 'e'].len());
            assert(n.len() != seq!['j', 'l'].len());
            assert(n.len() != seq!['j', 'n', 'l', 'e'].len());
            assert(n[0] != seq!['j', 'g', 'e'][0]);
            assert(n[0] != seq!['j', 'n', 'l'][0]);
            assert(n[0] != seq!['j', 'l', 'e'][0]);
            assert(n[0] != seq!['j', 'n', 'g'][0]);
            assert(n.len() != seq!['j', 'g'].len());
            assert(n.len() != seq!['j', 'n', 'g', 'e'].len());
            assert(n[0] != seq!['j', 'e', 'r'][0]);
            assert(n.len() != seq!['j', 'n', 'o', 'k'].len());
            assert(n.len() != seq!['j', 'n', 'e', 'r'].len());
            assert(n[0] != seq!['j', 'o', 'k'][0]);
            assert(n[0] != seq!['c', 'm', 'p'][0]);
            assert(n[0] != seq!['a', 'd', 'd'][0]);
            assert(n[0] != seq!['s', 'u', 'b'][0]);
            assert(n[0] != seq!['m', 'u', 'l'][0]);
        },
        OpcodeMnemonic::Mod => {
            let n = seq!['m', 'o', 'd'];
            assert(n.len() != seq!['e', 'n', 'g', 'c', 'a', 'l', 'l'].len());
            assert(n[0] != seq!['n', 'o', 'p'][0]);
            assert(n.len() != seq!['c', 'a', 'l', 'l'].len());
            assert(n[0] != seq!['r', 'e', 't'][0]);
            assert(n.len() != seq!['s', 't', 'a', 'c', 'k', 'a', 'l', 'l', 'o', 'c'].len());
            assert(n.len() != seq!['s', 't', 'a', 'c', 'k', 'f', 'r', 'e', 'e'].len());
            assert(n.len() != seq!['e', 'x', 'i', 't'].len());
            assert(n.len() != seq!['r', 'e', 't', 'f'].len());
            assert(n.len() != seq!['m', 'a', 'l', 'l', 'o', 'c'].len());
            assert(n.len() != seq!['f', 'r', 'e', 'e'].len());
            assert(n[2] != seq!['m', 'o', 'v'][2]);
            assert(n[0] != seq!['j', 'm', 'p'][0]);
            assert(n.len() != seq!['j', 'z'].len());
            assert(n[0] != seq!['j', 'n', 'z'][0]);
            assert(n.len() != seq!['j', 'e'].len());
            assert(n[0] != seq!['j', 'n', 'e'][0]);
            assert(n.len() != seq!['j', 's'].len());
            assert(n[0] != seq!['j', 'n', 's'][0]);
            assert(n.len() != seq!['j', 'o'].len());
            assert(n[0] != seq!['j', 'n', 'o'][0]);
            assert(n.len() != seq!['j', 'c'].len());
            assert(n.len() != seq!['j', 'b'].len());
            assert(n.len() != seq!['j', 'n', 'a', 'e'].len());
            assert(n[0] != seq!['j', 'n', 'c'][0]);
            assert(n[0] != seq!['j', 'a', 'e'][0]);
            assert(n[0] != seq!['j', 'n', 'b'][0]);
            assert(n.len() != seq!['j', 'p'].len());
            assert(n[0] != seq!['j', 'n', 'p'][0]);
            assert(n[0] != seq!['j', 'b', 'e'][0]);
            assert(n[0] != seq!['j', 'n', 'a'][0]);
            assert(n.len() != seq!['j', 'a'].len());
            assert(n.len() != seq!['j', 'n', 'b', 'e'].len());
            assert(n.len() != seq!['j', 'l'].len());
            assert(n.len() != seq!['j', 'n', 'l', 'e'].len());
            assert(n[0] != seq!['j', 'g', 'e'][0]);
            assert(n[0] != seq!['j', 'n', 'l'][0]);
            assert(n[0] != seq!['j', 'l', 'e'][0]);
            assert(n[0] != seq!['j', 'n', 'g'][0]);
            assert(n.len() != seq!['j', 'g'].len());
            assert(n.len() != seq!['j', 'n', 'g', 'e'].len());
            assert(n[0] != seq!['j', 'e', 'r'][0]);
            assert(n.len() != seq!['j', 'n', 'o', 'k'].len());
            assert(n.len() != seq!['j', 'n', 'e', 'r'].len());
            assert(n[0] != seq!['j', 'o', 'k'][0]);
            assert(n[0] != seq!['c', 'm', 'p'][0]);
            assert(n[0] != seq!['a', 'd', 'd'][0]);
            assert(n[0] != seq!['s', 'u', 'b'][0]);
            assert(n[1] != seq!['m', 'u', 'l'][1]);
            assert(n[0] != seq!['d', 'i', 'v'][0]);
        },
        OpcodeMnemonic::Push => {
            let n = seq!['p', 'u', 's', 'h'];
            assert(n.len() != seq!['e', 'n', 'g', 'c', 'a', 'l', 'l'].len());
            assert(n.len() != seq!['n', 'o', 'p'].len());
            assert(n[0] != seq!['c', 'a', 'l', 'l'][0]);
            assert(n.len() != seq!['r', 'e', 't'].len());
            assert(n.len() != seq!['s', 't', 'a', 'c', 'k', 'a', 'l', 'l', 'o', 'c'].len());
            assert(n.len() != seq!['s', 't', 'a', 'c', 'k', 'f', 'r', 'e', 'e'].len());
            assert(n[0] != seq!['e', 'x', 'i', 't'][0]);
            assert(n[0] != seq!['r', 'e', 't', 'f'][0]);
            assert(n.len() != seq!['m', 'a', 'l', 'l', 'o', 'c'].len());
            assert(n[0] != seq!['f', 'r', 'e', 'e'][0]);
            assert(n.len() != seq!['m', 'o', 'v'].len());
            assert(n.len() != seq!['j', 'm', 'p'].len());
            assert(n.len() != seq!['j', 'z'].len());
            assert(n.len() != seq!['j', 'n', 'z'].len());
            assert(n.len() != seq!['j', 'e'].len());
            assert(n.len() != seq!['j', 'n', 'e'].len());
            assert(n.len() != seq!['j', 's'].len());
            assert(n.len() != seq!['j', 'n', 's'].len());
            assert(n.len() != seq!['j', 'o'].len());
            assert(n.len() != seq!['j', 'n', 'o'].len());
            assert(n.len() != seq!['j', 'c'].len());
            assert(n.len() != seq!['j', 'b'].len());
            assert(n[0] != seq!['j', 'n', 'a', 'e'][0]);
            assert(n.len() != seq!['j', 'n', 'c'].len());
            assert(n.len() != seq!['j', 'a', 'e'].len());
            assert(n.len() != seq!['j', 'n', 'b'].len());
            assert(n.len() != seq!['j', 'p'].len());
            assert(n.len() != seq!['j', 'n', 'p'].len());
            assert(n.len() != seq!['j', 'b', 'e'].len());
            assert(n.len() != seq!['j', 'n', 'a'].len());
            assert(n.len() != seq!['j', 'a'].len());
            assert(n[0] != seq!['j', 'n', 'b', 'e'][0]);
            assert(n.len() != seq!['j', 'l'].len());
            assert(n[0] != seq!['j', 'n', 'l', 'e'][0]);
            assert(n.len() != seq!['j', 'g', 'e'].len());
            assert(n.len() != seq!['j', 'n', 'l'].len());
            assert(n.len() != seq!['j', 'l', 'e'].len());
            assert(n.len() != seq!['j', 'n', 'g'].len());
            assert(n.len() != seq!['j', 'g'].len());
            assert(n[0] != seq!['j', 'n', 'g', 'e'][0]);
            assert(n.len() != seq!['j', 'e', 'r'].len());
            assert(n[0] != seq!['j', 'n', 'o', 'k'][0]);
            assert(n[0] != seq!['j', 'n', 'e', 'r'][0]);
            assert(n.len() != seq!['j', 'o', 'k'].len());
            assert(n.len() != seq!['c', 'm', 'p'].len());
            assert(n.len() != seq!['a', 'd', 'd'].len());
            assert(n.len() != seq!['s', 'u', 'b'].len());
            assert(n.len() != seq!['m', 'u', 'l'].len());
            assert(n.len() != seq!['d', 'i', 'v'].len());
            assert(n.len() != seq!['m', 'o', 'd'].len());
        },
        OpcodeMnemonic::Pop => {
            let n = seq!['p', 'o', 'p'];
            assert(n.len() != seq!['e', 'n', 'g', 'c', 'a', 'l', 'l'].len());
            assert(n[0] != seq!['n', 'o', 'p'][0]);
            assert(n.len() != seq!['c', 'a', 'l', 'l'].len());
            assert(n[0] != seq!['r', 'e', 't'][0]);
            assert(n.len() != seq!['s', 't', 'a', 'c', 'k', 'a', 'l', 'l', 'o', 'c'].len());
            assert(n.len() != seq!['s', 't', 'a', 'c', 'k', 'f', 'r', 'e', 'e'].len());
            assert(n.len() != seq!['e', 'x', 'i', 't'].len());
            assert(n.len() != seq!['r', 'e', 't', 'f'].len());
            assert(n.len() != seq!['m', 'a', 'l', 'l', 'o', 'c'].len());
            assert(n.len() != seq!['f', 'r', 'e', 'e'].len());
            assert(n[0] != seq!['m', 'o', 'v'][0]);
            assert(n[0] != seq!['j', 'm', 'p'][0]);
            assert(n.len() != seq!['j', 'z'].len());
            assert(n[0] != seq!['j', 'n', 'z'][0]);
            assert(n.len() != seq!['j', 'e'].len());
            assert(n[0] != seq!['j', 'n', 'e'][0]);
            assert(n.len() != seq!['j', 's'].len());
            assert(n[0] != seq!['j', 'n', 's'][0]);
            assert(n.len() != seq!['j', 'o'].len());
            assert(n[0] != seq!['j', 'n', 'o'][0]);
            assert(n.len() != seq!['j', 'c'].len());
            assert(n.len() != seq!['j', 'b'].len());
            assert(n.len() != seq!['j', 'n', 'a', 'e'].len());
            assert(n[0] != seq!['j', 'n', 'c'][0]);
            assert(n[0] != seq!['j', 'a', 'e'][0]);
            assert(n[0] != seq!['j', 'n', 'b'][0]);
            assert(n.len() != seq!['j', 'p'].len());
            assert(n[0] != seq!['j', 'n', 'p'][0]);
            assert(n[0] != seq!['j', 'b', 'e'][0]);
            assert(n[0] != seq!['j', 'n', 'a'][0]);
            assert(n.len() != seq!['j', 'a'].len());
            assert(n.len() != seq!['j', 'n', 'b', 'e'].len());
            assert(n.len() != seq!['j', 'l'].len());
            assert(n.len() != seq!['j', 'n', 'l', 'e'].len());
            assert(n[0] != seq!['j', 'g', 'e'][0]);
            assert(n[0] != seq!['j', 'n', 'l'][0]);
            assert(n[0] != seq!['j', 'l', 'e'][0]);
            assert(n[0] != seq!['j', 'n', 'g'][0]);
            assert(n.len() != seq!['j', 'g'].len());
            assert(n.len() != seq!['j', 'n', 'g', 'e'].len());
            assert(n[0] != seq!['j', 'e', 'r'][0]);
            assert(n.len() != seq!['j', 'n', 'o', 'k'].len());
            assert(n.len() != seq!['j', 'n', 'e', 'r'].len());
            assert(n[0] != seq!['j', 'o', 'k'][0]);
            assert(n[0] != seq!['c', 'm', 'p'][0]);
            assert(n[0] != seq!['a', 'd', 'd'][0]);
            assert(n[0] != seq!['s', 'u', 'b'][0]);
            assert(n[0] != seq!['m', 'u', 'l'][0]);
            assert(n[0] != seq!['d', 'i', 'v'][0]);
            assert(n[0] != seq!['m', 'o', 'd'][0]);
            assert(n.len() != seq!['p', 'u', 's', 'h'].len());
        },
    }
}

/// Reading back the name of a register gives the register.
pub proof fn lemma_register_name_roundtrip(r: Register)
    ensures
        Register::spec_from_name(r.spec_name()) == Some(r),
{
    match r {
        Register::A => {
            let n = seq!['a'];
        },
        Register::B => {
            let n = seq!['b'];
            assert(n[0] != seq!['a'][0]);
        },
        Register::C => {
            let n = seq!['c'];
            assert(n[0] != seq!['a'][0]);
            assert(n[0] != seq!['b'][0]);
        },
        Register::D => {
            let n = seq!['d'];
            assert(n[0] != seq!['a'][0]);
            assert(n[0] != seq!['b'][0]);
            assert(n[0] != seq!['c'][0]);
        },
        Register::StackPointer => {
            let n = seq!['s', 'p'];
            assert(n.len() != seq!['a'].len());
            assert(n.len() != seq!['b'].len());
            assert(n.len() != seq!['c'].len());
            assert(n.len() != seq!['d'].len());
        },
        Register::BasePointer => {
            let n = seq!['b', 'p'];
            assert(n.len() != seq!['a'].len());
            assert(n.len() != seq!['b'].len());
            assert(n.len() != seq!['c'].len());
            assert(n.len() != seq!['d'].len());
            assert(n[0] != seq!['s', 'p'][0]);
        },
        Register::SourceIndex => {
            let n = seq!['s', 'i'];
            assert(n.len() != seq!['a'].len());
            assert(n.len() != seq!['b'].len());
            assert(n.len() != seq!['c'].len());
            assert(n.len() != seq!['d'].len());
            assert(n[1] != seq!['s', 'p'][1]);
            assert(n[0] != seq!['b', 'p'][0]);
        },
        Register::DestinationIndex => {
            let n = seq!['d', 'i'];
            assert(n.len() != seq!['a'].len());
            assert(n.len() != seq!['b'].len());
            assert(n.len() != seq!['c'].len());
            assert(n.len() != seq!['d'].len());
            assert(n[0] != seq!['s', 'p'][0]);
            assert(n[0] != seq!['b', 'p'][0]);
            assert(n[0] != seq!['s', 'i'][0]);
        },
        Register::InstructionPointer => {
            let n = seq!['i', 'p'];
            assert(n.len() != seq!['a'].len());
            assert(n.len() != seq!['b'].len());
            assert(n.len() != seq!['c'].len());
            assert(n.len() != seq!['d'].len());
            assert(n[0] != seq!['s', 'p'][0]);
            assert(n[0] != seq!['b', 'p'][0]);
            assert(n[0] != seq!['s', 'i'][0]);
            assert(n[0] != seq!['d', 'i'][0]);
        },
        Register::LoopCounterA => {
            let n = seq!['l', 'c', 'a'];
            assert(n.len() != seq!['a'].len());
            assert(n.len() != seq!['b'].len());
            assert(n.len() != seq!['c'].len());
            assert(n.len() != seq!['d'].len());
            assert(n.len() != seq!['s', 'p'].len());
            assert(n.len() != seq!['b', 'p'].len());
            assert(n.len() != seq!['s', 'i'].len());
            assert(n.len() != seq!['d', 'i'].len());
            assert(n.len() != seq!['i', 'p'].len());
        },
        Register::LoopCounterB => {
            let n = seq!['l', 'c', 'b'];
            assert(n.len() != seq!['a'].len());
            assert(n.len() != seq!['b'].len());
            assert(n.len() != seq!['c'].len());
            assert(n.len() != seq!['d'].len());
            assert(n.len() != seq!['s', 'p'].len());
            assert(n.len() != seq!['b', 'p'].len());
            assert(n.len() != seq!['s', 'i'].len());
            assert(n.len() != seq!['d', 'i'].len());
            assert(n.len() != seq!['i', 'p'].len());
            assert(n[2] != seq!['l', 'c', 'a'][2]);
        },
        Register::LocalA => {
            let n = seq!['l', 'a'];
            assert(n.len() != seq!['a'].len());
            assert(n.len() != seq!['b'].len());
            assert(n.len() != seq!['c'].len());
            assert(n.len() != seq!['d'].len());
            assert(n[0] != seq!['s', 'p'][0]);
            assert(n[0] != seq!['b', 'p'][0]);
            assert(n[0] != seq!['s', 'i'][0]);
            assert(n[0] != seq!['d', 'i'][0]);
            assert(n[0] != seq!['i', 'p'][0]);
            assert(n.len() != seq!['l', 'c', 'a'].len());
            assert(n.len() != seq!['l', 'c', 'b'].len());
        },
        Register::LocalB => {
            let n = seq!['l', 'b'];
            assert(n.len() != seq!['a'].len());
            assert(n.len() != seq!['b'].len());
            assert(n.len() != seq!['c'].len());
            assert(n.len() != seq!['d'].len());
            assert(n[0] != seq!['s', 'p'][0]);
            assert(n[0] != seq!['b', 'p'][0]);
            assert(n[0] != seq!['s', 'i'][0]);
            assert(n[0] != seq!['d', 'i'][0]);
            assert(n[0] != seq!['i', 'p'][0]);
            assert(n.len() != seq!['l', 'c', 'a'].len());
            assert(n.len() != seq!['l', 'c', 'b'].len());
            assert(n[1] != seq!['l', 'a'][1]);
        },
        Register::LocalC => {
            let n = seq!['l', 'c'];
            assert(n.len() != seq!['a'].len());
            assert(n.len() != seq!['b'].len());
            assert(n.len() != seq!['c'].len());
            assert(n.len() != seq!['d'].len());
            assert(n[0] != seq!['s', 'p'][0]);
            assert(n[0] != seq!['b', 'p'][0]);
            assert(n[0] != seq!['s', 'i'][0]);
            assert(n[0] != seq!['d', 'i'][0]);
            assert(n[0] != seq!['i', 'p'][0]);
            assert(n.len() != seq!['l', 'c', 'a'].len());
            assert(n.len() != seq!['l', 'c', 'b'].len());
            assert(n[1] != seq!['l', 'a'][1]);
            assert(n[1] != seq!['l', 'b'][1]);
        },
        Register::LocalD => {
            let n = seq!['l', 'd'];
            assert(n.len() != seq!['a'].len());
            assert(n.len() != seq!['b'].len());
            assert(n.len() != seq!['c'].len());
            assert(n.len() != seq!['d'].len());
            assert(n[0] != seq!['s', 'p'][0]);
            assert(n[0] != seq!['b', 'p'][0]);
            assert(n[0] != seq!['s', 'i'][0]);
            assert(n[0] != seq!['d', 'i'][0]);
            assert(n[0] != seq!['i', 'p'][0]);
            assert(n.len() != seq!['l', 'c', 'a'].len());
            assert(n.len() != seq!['l', 'c', 'b'].len());
            assert(n[1] != seq!['l', 'a'][1]);
            assert(n[1] != seq!['l', 'b'][1]);
            assert(n[1] != seq!['l', 'c'][1]);
        },
        Register::LocalE => {
            let n = seq!['l', 'e'];
            assert(n.len() != seq!['a'].len());
            assert(n.len() != seq!['b'].len());
            assert(n.len() != seq!['c'].len());
            assert(n.len() != seq!['d'].len());
            assert(n[0] != seq!['s', 'p'][0]);
            assert(n[0] != seq!['b', 'p'][0]);
            assert(n[0] != seq!['s', 'i'][0]);
            assert(n[0] != seq!['d', 'i'][0]);
            assert(n[0] != seq!['i', 'p'][0]);
            assert(n.len() != seq!['l', 'c', 'a'].len());
            assert(n.len() != seq!['l', 'c', 'b'].len());
            assert(n[1] != seq!['l', 'a'][1]);
            assert(n[1] != seq!['l', 'b'][1]);
            assert(n[1] != seq!['l', 'c'][1]);
            assert(n[1] != seq!['l', 'd'][1]);
        },
        Register::LocalF => {
            let n = seq!['l', 'f'];
            assert(n.len() != seq!['a'].len());
            assert(n.len() != seq!['b'].len());
            assert(n.len() != seq!['c'].len());
            assert(n.len() != seq!['d'].len());
            assert(n[0] != seq!['s', 'p'][0]);
            assert(n[0] != seq!['b', 'p'][0]);
            assert(n[0] != seq!['s', 'i'][0]);
            assert(n[0] != seq!['d', 'i'][0]);
            assert(n[0] != seq!['i', 'p'][0]);
            assert(n.len() != seq!['l', 'c', 'a'].len());
            assert(n.len() != seq!['l', 'c', 'b'].len());
            assert(n[1] != seq!['l', 'a'][1]);
            assert(n[1] != seq!['l', 'b'][1]);
            assert(n[1] != seq!['l', 'c'][1]);
            assert(n[1] != seq!['l', 'd'][1]);
            assert(n[1] != seq!['l', 'e'][1]);
        },
        Register::LocalG => {
            let n = seq!['l', 'g'];
            assert(n.len() != seq!['a'].len());
            assert(n.len() != seq!['b'].len());
            assert(n.len() != seq!['c'].len());
            assert(n.len() != seq!['d'].len());
            assert(n[0] != seq!['s', 'p'][0]);
            assert(n[0] != seq!['b', 'p'][0]);
            assert(n[0] != seq!['s', 'i'][0]);
            assert(n[0] != seq!['d', 'i'][0]);
            assert(n[0] != seq!['i', 'p'][0]);
            assert(n.len() != seq!['l', 'c', 'a'].len());
            assert(n.len() != seq!['l', 'c', 'b'].len());
            assert(n[1] != seq!['l', 'a'][1]);
            assert(n[1] != seq!['l', 'b'][1]);
            assert(n[1] != seq!['l', 'c'][1]);
            assert(n[1] != seq!['l', 'd'][1]);
            assert(n[1] != seq!['l', 'e'][1]);
            assert(n[1] != seq!['l', 'f'][1]);
        },
        Register::LocalH => {
            let n = seq!['l', 'h'];
            assert(n.len() != seq!['a'].len());
            assert(n.len() != seq!['b'].len());
            assert(n.len() != seq!['c'].len());
            assert(n.len() != seq!['d'].len());
            assert(n[0] != seq!['s', 'p'][0]);
            assert(n[0] != seq!['b', 'p'][0]);
            assert(n[0] != seq!['s', 'i'][0]);
            assert(n[0] != seq!['d', 'i'][0]);
            assert(n[0] != seq!['i', 'p'][0]);
            assert(n.len() != seq!['l', 'c', 'a'].len());
            assert(n.len() != seq!['l', 'c', 'b'].len());
            assert(n[1] != seq!['l', 'a'][1]);
            assert(n[1] != seq!['l', 'b'][1]);
            assert(n[1] != seq!['l', 'c'][1]);
            assert(n[1] != seq!['l', 'd'][1]);
            assert(n[1] != seq!['l', 'e'][1]);
            assert(n[1] != seq!['l', 'f'][1]);
            assert(n[1] != seq!['l', 'g'][1]);
        },
    }
}

/// Reading back a reserved word gives it.
pub proof fn lemma_reserved_word_name_roundtrip(w: ReservedWord)
    ensures
        ReservedWord::spec_from_name(w.spec_name()) == Some(w),
{
    match w {
        ReservedWord::Const => {
            let n = seq!['c', 'o', 'n', 's', 't'];
        },
        ReservedWord::Extern => {
            let n = seq!['e', 'x', 't', 'e', 'r', 'n'];
            assert(n.len() != seq!['c', 'o', 'n', 's', 't'].len());
        },
        ReservedWord::Alias => {
            let n = seq!['s', 't', 'r', 'u', 'c', 't'];
            assert(n.len() != seq!['c', 'o', 'n', 's', 't'].len());
            assert(n[0] != seq!['e', 'x', 't', 'e', 'r', 'n'][0]);
        },
    }
}


} // verus!
