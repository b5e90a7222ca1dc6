use f750c::bytecode::{BytecodeStream, F750_MAGIC, F750_VERSION};
use f750c::compiler::{program_fits, CompilerError};
use f750c::opcode::OpcodeMnemonic;
use f750c::value::SymbolName;
use f750c::pipeline::{compile_modules, parse_module, write_file_header, ModuleFailure};
use f750c::parser::ParseError;
use f750c::semantic::{
    SemanticImmediateType, SemanticInstruction, SemanticLiteral, SemanticOperand, SemanticRepr, SemanticSymbol,
};
use indexmap::IndexMap;
use f750c::util::{label_from_uuid_text, module_name_for};

#[test]
fn modules_are_tokenized_and_parsed() {
    let lines = vec!["_main:".to_string(), "nop".to_string()];
    let parsed = parse_module(&lines).unwrap();
    assert_eq!(parsed.len(), 2);
    assert!(matches!(&parsed[0], SemanticRepr::Label(_)));
    assert!(matches!(&parsed[1], SemanticRepr::Instruction(_)));
}

#[test]
fn module_failures_name_their_step() {
    let lines = vec!["nop".to_string(), "\"open".to_string(), "\"also".to_string()];
    match parse_module(&lines) {
        Err(ModuleFailure::Tokenize { line, error }) => {
            assert_eq!(line, 1);
            assert!(matches!(error, ParseError::UnterminatedQuote));
        }
        _ => panic!("expected a tokenize failure"),
    }
    let lines = vec!["nop".to_string(), "frobnicate a64".to_string()];
    match parse_module(&lines) {
        Err(ModuleFailure::Parse(d)) => assert_eq!(d.line_count, 2),
        _ => panic!("expected a parse failure"),
    }
}

#[test]
fn header_is_magic_then_version() {
    let mut stream = BytecodeStream::new(0);
    write_file_header(&mut stream);
    let mut expected = F750_MAGIC.to_le_bytes().to_vec();
    expected.extend(F750_VERSION.to_le_bytes());
    assert_eq!(stream.into_bytes(), expected);
}

#[test]
fn module_names_follow_their_paths() {
    assert_eq!(module_name_for("game", "player.f750", "f750"), "game.player");
    assert_eq!(module_name_for("game", "chars\\ryu.f750", "f750"), "game.chars.ryu");
}

#[test]
fn labels_are_uuid_digits_without_hyphens() {
    assert_eq!(
        label_from_uuid_text("550e8400-e29b-41d4-a716-446655440000"),
        "550e8400e29b41d4a716446655440000"
    );
}

fn encode(t: &String, double: bool) -> Vec<u8> {
    if double {
        t.parse::<f64>().unwrap().to_be_bytes().to_vec()
    } else {
        t.parse::<f32>().unwrap().to_be_bytes().to_vec()
    }
}

#[test]
fn programs_are_lowered_and_written() {
    let mut modules = IndexMap::new();
    let lines: Vec<String> = [".data:", "x: qword 1", "_main:", "mov a64, x", "jmp _main"].iter().map(|s| s.to_string()).collect();
    modules.insert("game".to_string(), parse_module(&lines).unwrap());
    let stream = compile_modules(&mut modules, &encode).unwrap();
    let bytes = stream.into_bytes();
    let mut header = F750_MAGIC.to_le_bytes().to_vec();
    header.extend(F750_VERSION.to_le_bytes());
    assert!(bytes.starts_with(&header));
    match (&modules["game"][3], &modules["game"][4]) {
        (SemanticRepr::Instruction(mov), SemanticRepr::Instruction(jmp)) => {
            assert!(matches!(
                mov.operands[1],
                SemanticOperand::Immediate(SemanticImmediateType::Literal(SemanticLiteral::UntypedInteger(0)))
            ));
            assert!(matches!(
                jmp.operands[0],
                SemanticOperand::Immediate(SemanticImmediateType::Literal(SemanticLiteral::UntypedInteger(0)))
            ));
        }
        _ => panic!("expected instructions"),
    }
}

#[test]
fn program_errors_come_from_the_tables() {
    let mut modules = IndexMap::new();
    let lines: Vec<String> = ["jmp _nowhere"].iter().map(|s| s.to_string()).collect();
    modules.insert("game".to_string(), parse_module(&lines).unwrap());
    assert!(matches!(compile_modules(&mut modules, &encode), Err(CompilerError::UndefinedLabel(_))));
}

#[test]
fn programs_fit_unless_an_external_symbol_has_no_namespace() {
    let mut modules = IndexMap::new();
    let lines: Vec<String> = [".data:", "x: qword 1", "_main:", "mov a64, x"].iter().map(|s| s.to_string()).collect();
    modules.insert("game".to_string(), parse_module(&lines).unwrap());
    assert!(program_fits(&modules));

    let bare = SemanticSymbol { name: SymbolName { name: "far".to_string(), namespace: None }, external: true };
    let jump = SemanticRepr::Instruction(SemanticInstruction {
        opcode: OpcodeMnemonic::Jmp,
        operands: vec![SemanticOperand::Immediate(SemanticImmediateType::Label(bare, 0))],
    });
    modules.insert("lib".to_string(), vec![jump]);
    assert!(!program_fits(&modules));
}
