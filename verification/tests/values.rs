use f750c::bytecode::{BytecodeStream, F750_MAGIC, F750_VERSION};
use f750c::opcode::{CompilerConstruct, OpcodeMnemonic, Opcode, Register, ReservedWord};
use f750c::semantic::{
    SemanticBindingDef, SemanticDeref, SemanticDerefKind, SemanticImmediateType, SemanticLiteral, SemanticOperand,
    SemanticRepr, SemanticSymbol,
};
use f750c::util::{random_internal_label, trim_after};
use f750c::value::{DataType, DataTypeLiteral, RegisterSpec, RegisterSpecError, RegisterWidth, SymbolName};

#[test]
fn stream_writes_little_endian_integers() {
    let mut s = BytecodeStream::new(16);
    s.write_u8(1);
    s.write_u16(0x0203);
    s.write_u32(0x04050607);
    s.write_i8(-1);
    s.write_i16(-2);
    assert_eq!(s.bytes_ref(), &[1, 3, 2, 7, 6, 5, 4, 0xff, 0xfe, 0xff]);
    let mut t = BytecodeStream::new(0);
    t.write_u64(1);
    t.write_i32(-1);
    t.write_i64(2);
    t.write_bytes(&[9, 9]);
    assert_eq!(
        t.into_bytes(),
        vec![1, 0, 0, 0, 0, 0, 0, 0, 0xff, 0xff, 0xff, 0xff, 2, 0, 0, 0, 0, 0, 0, 0, 9, 9]
    );
}

#[test]
fn varints_are_leb128() {
    let mut s = BytecodeStream::new(0);
    s.write_varint64(0);
    s.write_varint64(127);
    s.write_varint64(128);
    s.write_varint64(300);
    assert_eq!(s.into_bytes(), vec![0, 127, 0x80, 0x01, 0xac, 0x02]);
    let mut s = BytecodeStream::new(0);
    s.write_varint64(u64::MAX);
    assert_eq!(s.into_bytes(), vec![0xff, 0xff, 0xff, 0xff, 0xff, 0xff, 0xff, 0xff, 0xff, 0x01]);
}

#[test]
fn cstrings_end_in_zero() {
    let mut s = BytecodeStream::new(0);
    s.write_cstr("hé");
    assert_eq!(s.into_bytes(), vec![b'h', 0xc3, 0xa9, 0]);
}

#[test]
fn opcodes_are_written_by_code() {
    let mut s = BytecodeStream::new(0);
    s.write_opcode(Opcode::Nop);
    assert_eq!(s.into_bytes(), vec![Opcode::Nop.code()]);
    assert_eq!(F750_MAGIC, 0xF750_0721);
    assert_eq!(F750_VERSION, 1);
}

#[test]
fn register_specs() {
    let a = RegisterSpec::parse("a64").unwrap();
    assert_eq!(a, RegisterSpec::qword(Register::A));
    assert_eq!(RegisterSpec::parse("sp16").unwrap(), RegisterSpec::word(Register::StackPointer));
    assert_eq!(RegisterSpec::parse("la8").unwrap(), RegisterSpec::byte(Register::LocalA));
    assert_eq!(RegisterSpec::parse("bp32").unwrap(), RegisterSpec::dword(Register::BasePointer));
    assert_eq!(RegisterSpec::new(Register::C, RegisterWidth::Word).to_string(), "c16");
    assert!(matches!(RegisterSpec::parse("a"), Err(RegisterSpecError::WidthNotSpecified(ref s)) if s == "a"));
    assert!(matches!(RegisterSpec::parse("zz64"), Err(RegisterSpecError::NoSuchRegister(ref s)) if s == "zz"));
    assert!(matches!(RegisterSpec::parse("a7"), Err(RegisterSpecError::NoSuchWidth(ref s)) if s == "7"));
}

#[test]
fn register_spec_text_reads_back() {
    for r in [Register::A, Register::StackPointer, Register::LoopCounterB, Register::LocalH] {
        for w in [RegisterWidth::Byte, RegisterWidth::Word, RegisterWidth::Dword, RegisterWidth::Qword] {
            let spec = RegisterSpec::new(r, w);
            assert_eq!(RegisterSpec::parse(&spec.to_string()).unwrap(), spec);
        }
    }
}

#[test]
fn local_argument_registers() {
    assert_eq!(Register::local_arg(0), Some(Register::LocalA));
    assert_eq!(Register::local_arg(7), Some(Register::LocalH));
    assert_eq!(Register::local_arg(8), None);
}

#[test]
fn names_read_back() {
    for m in [OpcodeMnemonic::Mov, OpcodeMnemonic::JmpIfNotLessEqual, OpcodeMnemonic::RetFree, OpcodeMnemonic::Pop] {
        assert_eq!(OpcodeMnemonic::from_name(&m.name()), Some(m));
    }
    assert_eq!(OpcodeMnemonic::RetFree.name(), "retf");
    assert_eq!(CompilerConstruct::from_name("elseif"), Some(CompilerConstruct::ElseIf));
    assert_eq!(CompilerConstruct::ProcCall.name(), "call");
    assert_eq!(Register::from_name("lcb"), Some(Register::LoopCounterB));
    assert_eq!(ReservedWord::from_name("struct"), Some(ReservedWord::Alias));
    assert_eq!(DataType::from_name("dword"), Some(DataType::Dword));
    assert_eq!(DataType::from_name("Dword"), None);
    assert_eq!(RegisterWidth::from_name("16"), Some(RegisterWidth::Word));
}

#[test]
fn jump_mnemonics() {
    assert!(OpcodeMnemonic::Jmp.is_jump());
    assert!(OpcodeMnemonic::JmpIfGreater.is_jump());
    // the jumps on the engine's result flags are not counted
    assert!(!OpcodeMnemonic::JmpIfOk.is_jump());
    assert!(!OpcodeMnemonic::Cmp.is_jump());
    assert!(CompilerConstruct::If.is_block_start());
    assert!(!CompilerConstruct::Else.is_block_start());
}

#[test]
fn data_types() {
    assert_eq!(DataType::Byte.size(), 1);
    assert_eq!(DataType::Float.size(), 4);
    assert_eq!(DataType::Double.size(), 8);
    assert!(DataType::Double.is_floating_point());
    assert!(!DataType::Qword.is_floating_point());
    assert!(matches!(
        DataType::Byte.as_int_literal_typed(300),
        Ok(SemanticLiteral::Typed(DataTypeLiteral::Byte(44)))
    ));
    assert!(matches!(
        DataType::Word.as_int_literal_typed(-1),
        Ok(SemanticLiteral::Typed(DataTypeLiteral::Word(0xffff)))
    ));
    assert!(DataType::Float.as_int_literal_typed(1).is_err());
    assert!(matches!(DataType::Double.as_float_literal_typed("2.5"), Ok(SemanticLiteral::Typed(DataTypeLiteral::Double(ref t))) if t == "2.5"));
    assert!(DataType::Qword.as_float_literal_typed("2.5").is_err());
    assert_eq!(DataType::from(DataTypeLiteral::Word(3)), DataType::Word);
}

#[test]
fn literal_values_and_sizes() {
    assert_eq!(DataTypeLiteral::Dword(12).value_string(), "12");
    assert_eq!(DataTypeLiteral::Double("0.25".to_string()).value_string(), "0.25");
    assert_eq!(DataTypeLiteral::Qword(5).as_int(), Some(5));
    assert_eq!(DataTypeLiteral::Float("1".to_string()).as_int(), None);
    assert_eq!(SemanticLiteral::String("héllo".to_string()).size(), 6);
    assert_eq!(SemanticLiteral::UntypedInteger(-3).size(), 8);
    assert!(matches!(SemanticLiteral::UntypedInteger(-1).to_data_type(), DataTypeLiteral::Qword(u64::MAX)));
    let def = SemanticBindingDef {
        name: "b".to_string(),
        constant: true,
        values: vec![SemanticLiteral::String("ab".to_string()), SemanticLiteral::Typed(DataTypeLiteral::Word(1))],
    };
    assert_eq!(def.total_size(), 4);
    assert_eq!(def.to_string(), "const b: \"ab\", word 1");
}

#[test]
fn written_forms() {
    let sym = SemanticSymbol { name: SymbolName { name: "x".to_string(), namespace: Some("m".to_string()) }, external: true };
    assert_eq!(sym.name.to_string(), "m::x");
    assert_eq!(sym.name.format_offset(-4), "m::x-4");
    assert_eq!(sym.name.format_offset(0), "m::x");
    let deref = SemanticDeref { kind: SemanticDerefKind::Binding(sym.clone()), offset: 3 };
    assert_eq!(deref.to_string(), "(extern) &m::x+3");
    assert_eq!(SemanticDerefKind::Address(255).to_string(), "&0xff");
    assert_eq!(SemanticImmediateType::ConstDerefBinding(sym.clone()).to_string(), "(extern) &const m::x");
    assert_eq!(SemanticImmediateType::Label(sym.clone(), 2).to_string(), "(extern) _m::x+2");
    assert_eq!(SemanticLiteral::UntypedFloating("1.50".to_string()).to_string(), "(double) 1.50");
    assert_eq!(SemanticOperand::Mnemonic(OpcodeMnemonic::JmpIfZero).to_string(), "jz");
    assert_eq!(SemanticRepr::Label(sym).to_string(), "(extern) _m::x:");
    let from: SemanticSymbol = "loop".to_string().into();
    assert_eq!(from.name.name, "loop");
    assert_eq!(from.name.namespace, None);
    assert_eq!(SemanticImmediateType::from_u64_untyped(u64::MAX).to_string(), "(qword) -1");
}

#[test]
fn symbol_names() {
    let n = SymbolName::new("x", None);
    let q = n.with_current_module("game");
    assert_eq!(q, SymbolName { name: "x".to_string(), namespace: Some("game".to_string()) });
    assert_eq!(q.with_current_module("other"), q);
    assert!(q.same_as(&q.clone()));
    assert!(!q.same_as(&n));
}

#[test]
fn trim_after_cuts_at_the_delimiter() {
    assert_eq!(trim_after("mov a64 ; comment", ';'), "mov a64 ");
    assert_eq!(trim_after("nothing here", ';'), "nothing here");
    assert_eq!(trim_after(";x", ';'), "");
}

#[test]
fn internal_labels_are_fresh_hex() {
    let a = random_internal_label();
    let b = random_internal_label();
    assert_eq!(a.len(), 32);
    assert!(a.chars().all(|c| c.is_ascii_digit() || ('a'..='f').contains(&c)));
    assert_ne!(a, b);
}
