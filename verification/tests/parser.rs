use f750c::opcode::{CompilerConstruct, OpcodeMnemonic, Register};
use f750c::parser::{parse_source, ParseError};
use f750c::semantic::{
    SemanticDerefKind, SemanticImmediateType, SemanticLiteral, SemanticOperand, SemanticRepr,
};
use f750c::tokenizer::{tokenize_line, Token};
use f750c::value::{DataTypeLiteral, RegisterWidth};

fn lines(src: &[&str]) -> Vec<Vec<Token>> {
    src.iter().map(|l| tokenize_line(l).unwrap()).collect()
}

#[test]
fn parses_instructions_and_operands() {
    let parsed = parse_source(&lines(&["mov a64, &bp64+16", "push 7", "ret"])).unwrap();
    assert_eq!(parsed.len(), 3);
    match &parsed[0] {
        SemanticRepr::Instruction(ins) => {
            assert_eq!(ins.opcode, OpcodeMnemonic::Mov);
            assert_eq!(ins.operands.len(), 2);
            match &ins.operands[0] {
                SemanticOperand::Register(r) => {
                    assert_eq!(r.register, Register::A);
                    assert_eq!(r.width, RegisterWidth::Qword);
                }
                other => panic!("unexpected {other:?}"),
            }
            match &ins.operands[1] {
                SemanticOperand::Deref(d) => {
                    assert_eq!(d.offset, 16);
                    assert!(matches!(d.kind, SemanticDerefKind::Register(r) if r.register == Register::BasePointer));
                }
                other => panic!("unexpected {other:?}"),
            }
        }
        other => panic!("unexpected {other:?}"),
    }
    assert_eq!(parsed[1].to_string(), "push (qword) 7");
    assert_eq!(parsed[2].to_string(), "ret ");
}

#[test]
fn parses_labels_and_label_operands() {
    let parsed = parse_source(&lines(&["_start:", "jmp _start+2", "call _lib::entry"])).unwrap();
    match &parsed[0] {
        SemanticRepr::Label(l) => {
            assert_eq!(l.name.name, "start");
            assert_eq!(l.name.namespace, None);
            assert!(!l.external);
        }
        other => panic!("unexpected {other:?}"),
    }
    assert_eq!(parsed[0].to_string(), "_start:");
    assert_eq!(parsed[1].to_string(), "jmp _start+2");
    match &parsed[2] {
        SemanticRepr::Instruction(ins) => match &ins.operands[0] {
            SemanticOperand::Immediate(SemanticImmediateType::Label(s, 0)) => {
                assert_eq!(s.name.name, "entry");
                assert_eq!(s.name.namespace.as_deref(), Some("lib"));
            }
            other => panic!("unexpected {other:?}"),
        },
        other => panic!("unexpected {other:?}"),
    }
}

#[test]
fn data_section_holds_binding_definitions() {
    let parsed = parse_source(&lines(&[".data:", "limit: qword 10", "msg: \"hi\", 0", "_main:", "nop"])).unwrap();
    assert!(matches!(&parsed[0], SemanticRepr::SpecialSection(s) if s == ".data"));
    match &parsed[1] {
        SemanticRepr::BindingDef(def) => {
            assert_eq!(def.name, "limit");
            assert!(!def.constant);
            assert_eq!(def.values.len(), 1);
            assert!(matches!(def.values[0], SemanticLiteral::Typed(DataTypeLiteral::Qword(10))));
        }
        other => panic!("unexpected {other:?}"),
    }
    match &parsed[2] {
        SemanticRepr::BindingDef(def) => {
            assert_eq!(def.values.len(), 2);
            assert!(matches!(&def.values[0], SemanticLiteral::String(s) if s == "hi"));
            // after a string, integers are bytes
            assert!(matches!(def.values[1], SemanticLiteral::Typed(DataTypeLiteral::Byte(0))));
        }
        other => panic!("unexpected {other:?}"),
    }
    assert_eq!(parsed[2].to_string(), "msg: \"hi\", byte 0");
    assert!(matches!(&parsed[3], SemanticRepr::Label(_)));
    assert!(matches!(&parsed[4], SemanticRepr::Instruction(_)));
}

#[test]
fn parses_compiler_constructs() {
    let parsed = parse_source(&lines(&["@if a64, 5, jg", "@end"])).unwrap();
    match &parsed[0] {
        SemanticRepr::CompilerConstruct(c) => {
            assert_eq!(c.opcode, CompilerConstruct::If);
            assert_eq!(c.operands.len(), 3);
            assert!(matches!(c.operands[2], SemanticOperand::Mnemonic(OpcodeMnemonic::JmpIfGreater)));
        }
        other => panic!("unexpected {other:?}"),
    }
    assert_eq!(parsed[0].to_string(), "@if a64, (qword) 5, jg");
    assert!(matches!(&parsed[1], SemanticRepr::CompilerConstruct(c) if c.opcode == CompilerConstruct::BlockEnd && c.operands.is_empty()));
}

#[test]
fn engine_parameters_and_bindings() {
    let parsed = parse_source(&lines(&["mov a64, #health", "mov b64, counter+8", "mov c64, &counter"])).unwrap();
    assert_eq!(parsed[0].to_string(), "mov a64, #health");
    assert_eq!(parsed[1].to_string(), "mov b64, counter+8");
    assert_eq!(parsed[2].to_string(), "mov c64, &counter");
}

#[test]
fn errors_report_their_line() {
    let err = parse_source(&lines(&["nop", "frobnicate a64"])).unwrap_err();
    assert_eq!(err.line_count, 2);
    assert!(matches!(err.kind, ParseError::UnexpectedToken(_)));
    assert_eq!(err.line, tokenize_line("frobnicate a64").unwrap());
}

#[test]
fn invalid_label_is_refused() {
    let err = parse_source(&lines(&["start:"])).unwrap_err();
    assert!(matches!(err.kind, ParseError::InvalidLabel(ref s) if s == "start"));
    assert_eq!(err.line_count, 1);
}

#[test]
fn dereferenced_address_zero_is_refused() {
    let err = parse_source(&lines(&["mov a64, &0"])).unwrap_err();
    assert!(matches!(err.kind, ParseError::ZeroAddressNotAllowed));
    let ok = parse_source(&lines(&["mov a64, &0x10"])).unwrap();
    assert_eq!(ok[0].to_string(), "mov a64, &0x10");
}

#[test]
fn register_offset_without_deref_is_refused() {
    let err = parse_source(&lines(&["mov a64+1, 2"])).unwrap_err();
    assert!(matches!(err.kind, ParseError::NonDerefOffsetNotAllowed));
}

#[test]
fn a_word_that_is_no_register_is_a_binding() {
    let parsed = parse_source(&lines(&["mov a7, 2"])).unwrap();
    assert_eq!(parsed[0].to_string(), "mov a7, (qword) 2");
}

#[test]
fn const_keyword_marks_a_constant_binding() {
    let parsed = parse_source(&lines(&[".data:", "const x: 5"])).unwrap();
    match &parsed[1] {
        SemanticRepr::BindingDef(def) => {
            assert_eq!(def.name, "x");
            assert!(def.constant);
            assert_eq!(def.values.len(), 1);
            assert!(matches!(def.values[0], SemanticLiteral::UntypedInteger(5)));
        }
        other => panic!("unexpected {other:?}"),
    }
    let parsed = parse_source(&lines(&["mov a64, &const x"])).unwrap();
    match &parsed[0] {
        SemanticRepr::Instruction(ins) => {
            assert!(matches!(&ins.operands[1], SemanticOperand::Immediate(SemanticImmediateType::ConstDerefBinding(s)) if s.name.name == "x"));
        }
        other => panic!("unexpected {other:?}"),
    }
}
