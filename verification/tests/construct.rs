use f750c::construct::{expand_construct_source, source_expands_safely, ConstructExpansionError};
use f750c::opcode::CompilerConstruct;
use f750c::parser::parse_source;
use f750c::opcode::Register;
use f750c::semantic::{
    SemanticCompilerConstruct, SemanticImmediateType, SemanticLiteral, SemanticOperand, SemanticRepr,
};
use f750c::value::RegisterSpec;
use f750c::tokenizer::tokenize_line;

fn parse(src: &[&str]) -> Vec<SemanticRepr> {
    let tokens: Vec<_> = src.iter().map(|l| tokenize_line(l).unwrap()).collect();
    parse_source(&tokens).unwrap()
}

fn texts(lines: &[SemanticRepr]) -> Vec<String> {
    lines.iter().map(|l| l.to_string()).collect()
}

fn is_label_id(s: &str) -> bool {
    s.len() == 32 && s.chars().all(|c| c.is_ascii_hexdigit() && !c.is_ascii_uppercase())
}

#[test]
fn pry_writes_through_the_source_index() {
    let out = expand_construct_source(&parse(&["@pry counter, 5"])).unwrap();
    assert_eq!(texts(&out), vec!["mov si64, counter", "mov &si64, (qword) 5"]);
}

#[test]
fn getarg_reads_the_stack_frame() {
    let out = expand_construct_source(&parse(&["@getarg a64, 8"])).unwrap();
    assert_eq!(texts(&out), vec!["mov a64, &bp64+24"]);
}

#[test]
fn engcall_loads_the_parameter_and_pushes_arguments() {
    let out = expand_construct_source(&parse(&["@engcall #spawn, 1, b64"])).unwrap();
    assert_eq!(texts(&out), vec!["mov a64, #spawn", "push (qword) 1", "push b64"]);
}

#[test]
fn ordinary_lines_are_kept() {
    let src = parse(&["_start:", "nop", "ret"]);
    let out = expand_construct_source(&src).unwrap();
    assert_eq!(texts(&out), texts(&src));
}

#[test]
fn if_block_becomes_jumps_and_labels() {
    let out = expand_construct_source(&parse(&["@if a64, 5, jg", "push a64", "@else", "push 0", "@end", "ret"])).unwrap();
    let t = texts(&out);
    assert_eq!(t.len(), 11);
    assert_eq!(t[0], "cmp a64, (qword) 5");
    let id = t[1].strip_prefix("jg __cg_if_").unwrap().to_string();
    assert!(is_label_id(&id));
    assert_eq!(t[2], format!("jmp __cg_else_{id}"));
    assert_eq!(t[3], format!("__cg_if_{id}:"));
    assert_eq!(t[4], "push a64");
    assert_eq!(t[5], format!("jmp __cg_endif_{id}"));
    assert_eq!(t[6], format!("__cg_else_{id}:"));
    assert_eq!(t[7], "push (qword) 0");
    assert_eq!(t[8], format!("jmp __cg_endif_{id}"));
    assert_eq!(t[9], format!("__cg_endif_{id}:"));
    assert_eq!(t[10], "ret ");
    assert!(out.iter().all(|l| !matches!(l, SemanticRepr::CompilerConstruct(_))));
}

#[test]
fn elseif_parts_get_numbered_labels() {
    let out = expand_construct_source(&parse(&[
        "@if a64, 1, je",
        "push 1",
        "@elseif a64, 2, je",
        "push 2",
        "@elseif a64, 3, je",
        "push 3",
        "@end",
    ]))
    .unwrap();
    let t = texts(&out);
    let id = t[1].strip_prefix("je __cg_if_").unwrap().to_string();
    assert_eq!(t[2], "cmp a64, (qword) 2");
    assert_eq!(t[3], format!("je __cg_elif_{id}_0"));
    assert_eq!(t[4], "cmp a64, (qword) 3");
    assert_eq!(t[5], format!("je __cg_elif_{id}_1"));
    assert_eq!(t[6], format!("__cg_if_{id}:"));
    assert_eq!(t[9], format!("__cg_elif_{id}_0:"));
    assert_eq!(t[12], format!("__cg_elif_{id}_1:"));
    assert_eq!(t.last().unwrap(), &format!("__cg_endif_{id}:"));
}

#[test]
fn nested_blocks_draw_their_own_ids() {
    let out = expand_construct_source(&parse(&["@if a64, 1, je", "@if b64, 2, je", "nop", "@end", "@end"])).unwrap();
    let t = texts(&out);
    let outer = t[1].strip_prefix("je __cg_if_").unwrap().to_string();
    assert_eq!(t[2], format!("__cg_if_{outer}:"));
    assert_eq!(t[3], "cmp b64, (qword) 2");
    let inner = t[4].strip_prefix("je __cg_if_").unwrap().to_string();
    assert!(is_label_id(&inner));
    assert_ne!(inner, outer);
    assert!(out.iter().all(|l| !matches!(l, SemanticRepr::CompilerConstruct(_))));
}

#[test]
fn unterminated_block_is_refused() {
    let err = expand_construct_source(&parse(&["@if a64, 1, je", "nop"])).unwrap_err();
    assert!(matches!(err.error, ConstructExpansionError::UnterminatedBlock { start_line: 0, .. }));
    assert_eq!(err.line, 0);
    let err = expand_construct_source(&parse(&["@if a64, 1, je"])).unwrap_err();
    assert!(matches!(err.error, ConstructExpansionError::UnterminatedBlock { start_line: 0, .. }));
}

#[test]
fn constructs_are_refused_in_the_data_section() {
    // the parser reads every line after `.data` as a definition, so the
    // lines are put together here
    let mut src = parse(&[".data:"]);
    src.extend(parse(&["@pry x, 1"]));
    let err = expand_construct_source(&src).unwrap_err();
    assert!(matches!(err.error, ConstructExpansionError::ConstructInDataSection));
    assert_eq!(err.line, 1);
    // a label closes the data section
    let mut src = parse(&[".data:", "_code:"]);
    src.extend(parse(&["@pry x, 1"]));
    assert!(expand_construct_source(&src).is_ok());
}

#[test]
fn else_outside_a_block_is_refused() {
    let err = expand_construct_source(&parse(&["nop", "@else"])).unwrap_err();
    assert!(matches!(err.error, ConstructExpansionError::InvalidConstruct(CompilerConstruct::Else)));
    assert_eq!(err.line, 2);
}

#[test]
fn a_second_else_is_refused() {
    let err = expand_construct_source(&parse(&["@if a64, 1, je", "@else", "@else", "@end"])).unwrap_err();
    assert!(matches!(err.error, ConstructExpansionError::InvalidConstruct(CompilerConstruct::Else)));
}

#[test]
fn statement_operands_are_checked() {
    let err = expand_construct_source(&parse(&["@if a64, 1", "@end"])).unwrap_err();
    assert!(matches!(
        err.error,
        ConstructExpansionError::ExpectedExactOperands { opcode: CompilerConstruct::If, expected: 3 }
    ));
    let err = expand_construct_source(&parse(&["@if a64, 1, add", "@end"])).unwrap_err();
    assert!(matches!(err.error, ConstructExpansionError::InvalidOperand { index: 2, .. }));
}

#[test]
fn single_construct_errors() {
    let err = expand_construct_source(&parse(&["@pry counter"])).unwrap_err();
    assert!(matches!(
        err.error,
        ConstructExpansionError::ExpectedExactOperands { opcode: CompilerConstruct::Pry, expected: 2 }
    ));
    assert_eq!(err.line, 1);
    let err = expand_construct_source(&parse(&["@pry a64, 1"])).unwrap_err();
    assert!(matches!(err.error, ConstructExpansionError::InvalidOperand { index: 0, .. }));
    let err = expand_construct_source(&parse(&["@engcall"])).unwrap_err();
    assert!(matches!(
        err.error,
        ConstructExpansionError::MinimumOperands { opcode: CompilerConstruct::EngineCall, minimum: 1 }
    ));
    let err = expand_construct_source(&parse(&["@getarg a64, float 1.5"])).unwrap_err();
    assert!(matches!(err.error, ConstructExpansionError::InvalidOperand { index: 1, .. }));
    let err = expand_construct_source(&parse(&["@loop"])).unwrap_err();
    assert!(matches!(err.error, ConstructExpansionError::UnterminatedBlock { .. }));
}

#[test]
fn only_if_blocks_can_be_read() {
    let err = expand_construct_source(&parse(&["@loop", "nop", "@end"])).unwrap_err();
    assert!(matches!(err.error, ConstructExpansionError::InvalidConstruct(CompilerConstruct::Loop)));
}

#[test]
fn getarg_argument_numbers_are_checked_before_expansion() {
    assert!(source_expands_safely(&parse(&["@getarg a64, 8", "nop"])));
    let string_arg = SemanticRepr::CompilerConstruct(SemanticCompilerConstruct {
        opcode: CompilerConstruct::GetArg,
        operands: vec![
            SemanticOperand::Register(RegisterSpec::qword(Register::A)),
            SemanticOperand::Immediate(SemanticImmediateType::Literal(SemanticLiteral::String("x".to_string()))),
        ],
    });
    assert!(!source_expands_safely(&[string_arg]));
    assert!(!source_expands_safely(&parse(&["@getarg a64, 9223372036854775800"])));
    // a floating point argument number is refused by the expansion itself
    assert!(source_expands_safely(&parse(&["@getarg a64, float 1.5"])));
}

#[test]
fn invalid_operands_give_their_reason() {
    let err = expand_construct_source(&parse(&["@engcall #hit, 5, &a64"])).unwrap_err();
    match err.error {
        ConstructExpansionError::InvalidOperand { index, reason, .. } => {
            assert_eq!(index, 2);
            assert_eq!(reason, "For parameter 2 '&a64': Expected an immediate or a register.");
        }
        other => panic!("unexpected {other:?}"),
    }
    let err = expand_construct_source(&parse(&["@pry counter+1, 5"])).unwrap_err();
    match err.error {
        ConstructExpansionError::InvalidOperand { index, reason, .. } => {
            assert_eq!(index, 0);
            assert_eq!(reason, "This binding must not have an offset.");
        }
        other => panic!("unexpected {other:?}"),
    }
}
