use f750c::bytecode::BytecodeStream;
use f750c::compiler::{BindingTable, CompilerError, LabelTable};
use f750c::parser::parse_source;
use f750c::semantic::{
    SemanticBindingDef, SemanticDeref, SemanticDerefKind, SemanticImmediateType, SemanticInstruction, SemanticLiteral, SemanticOperand, SemanticRepr,
    SemanticSymbol,
};
use f750c::opcode::OpcodeMnemonic;
use f750c::tokenizer::tokenize_line;
use f750c::value::{RegisterSpec, SymbolName};
use f750c::opcode::Register;
use indexmap::IndexMap;

fn parse(src: &[&str]) -> Vec<SemanticRepr> {
    let tokens: Vec<_> = src.iter().map(|l| tokenize_line(l).unwrap()).collect();
    parse_source(&tokens).unwrap()
}

fn name(ns: &str, n: &str) -> SymbolName {
    SymbolName { name: n.to_string(), namespace: Some(ns.to_string()) }
}

fn local(n: &str) -> SemanticSymbol {
    SemanticSymbol { name: SymbolName { name: n.to_string(), namespace: None }, external: false }
}

fn encode(t: &String, double: bool) -> Vec<u8> {
    if double {
        t.parse::<f64>().unwrap().to_be_bytes().to_vec()
    } else {
        t.parse::<f32>().unwrap().to_be_bytes().to_vec()
    }
}

fn cstr(s: &str) -> Vec<u8> {
    let mut v = s.as_bytes().to_vec();
    v.push(0);
    v
}

fn def(n: &str, constant: bool, values: Vec<SemanticLiteral>) -> SemanticRepr {
    SemanticRepr::BindingDef(SemanticBindingDef { name: n.to_string(), constant, values })
}

fn mov_a(op: SemanticOperand) -> SemanticRepr {
    SemanticRepr::Instruction(SemanticInstruction {
        opcode: OpcodeMnemonic::Mov,
        operands: vec![SemanticOperand::Register(RegisterSpec::qword(Register::A)), op],
    })
}

fn const_deref(n: &str) -> SemanticOperand {
    SemanticOperand::Immediate(SemanticImmediateType::ConstDerefBinding(local(n)))
}

#[test]
fn bindings_are_laid_out_in_order() {
    let mut modules = IndexMap::new();
    modules.insert(
        "game".to_string(),
        parse(&[".data:", "hp: qword 100", "title: \"ab\", 0", "_main:", "mov a64, hp", "mov b64, &title"]),
    );
    let table = BindingTable::parse_and_lower(&mut modules).unwrap();
    assert_eq!(table.get_offset(&name("game", "hp")), Some(Some(0)));
    assert_eq!(table.get_offset(&name("game", "title")), Some(Some(8)));
    assert_eq!(table.get_offset(&name("game", "missing")), None);
    assert!(matches!(table.get_offset_or_err(&name("game", "missing")), Err(CompilerError::UndefinedBinding(_))));
    assert_eq!(table.get_offset_or_err(&name("game", "title")).unwrap(), Some(8));
    assert_eq!(table.get_entry(&name("game", "hp")).unwrap().to_string(), "hp: qword 100");
    assert!(table.get_entry(&name("other", "hp")).is_none());
    assert!(table.get_entry_or_err(&name("other", "hp")).is_err());

    let mut stream = BytecodeStream::new(0);
    table.serialize(&mut stream, &encode);
    let mut expected = vec![8u8, 0];
    expected.extend(cstr("game"));
    expected.extend(cstr("hp"));
    expected.push(0);
    expected.extend([4u8, 1]);
    expected.extend(cstr("title"));
    expected.push(8);
    expected.push(11);
    expected.extend([0, 0, 0, 0, 0, 0, 0, 100]);
    expected.extend([b'a', b'b', 0]);
    assert_eq!(stream.into_bytes(), expected);
}

#[test]
fn floating_point_values_are_written_big_endian() {
    let mut modules = IndexMap::new();
    modules.insert("m".to_string(), parse(&[".data:", "ratio: double 0.5, float 1.5"]));
    let table = BindingTable::parse_and_lower(&mut modules).unwrap();
    let mut stream = BytecodeStream::new(0);
    table.serialize(&mut stream, &encode);
    let bytes = stream.into_bytes();
    let mut tail = 0.5f64.to_be_bytes().to_vec();
    tail.extend(1.5f32.to_be_bytes());
    assert!(bytes.ends_with(&tail));
    assert_eq!(bytes[bytes.len() - tail.len() - 1], 12);
}

#[test]
fn constant_dereferences_are_inlined() {
    let mut modules = IndexMap::new();
    modules.insert(
        "game".to_string(),
        vec![
            SemanticRepr::SpecialSection(".data".to_string()),
            def("k", true, vec![SemanticLiteral::UntypedInteger(7)]),
            def("v", false, vec![SemanticLiteral::UntypedInteger(1)]),
            mov_a(const_deref("k")),
        ],
    );
    let table = BindingTable::parse_and_lower(&mut modules).unwrap();
    assert_eq!(modules["game"][3].to_string(), "mov a64, (qword) 7");
    // the inlined binding takes no room in the data section
    assert_eq!(table.get_offset(&name("game", "k")), Some(None));
    assert_eq!(table.get_offset(&name("game", "v")), Some(Some(0)));
}

#[test]
fn binding_errors() {
    let run = |lines: Vec<SemanticRepr>| {
        let mut modules = IndexMap::new();
        modules.insert("game".to_string(), lines);
        BindingTable::parse_and_lower(&mut modules).unwrap_err()
    };
    let e = run(parse(&[".data:", "x: 1", "x: 2"]));
    assert!(matches!(e, CompilerError::DuplicateBindingDef(ref n) if *n == name("game", "x")));
    let e = run(parse(&[".data:", ".data:"]));
    assert!(matches!(e, CompilerError::DuplicateDataSection));
    let e = run(vec![def("x", false, vec![SemanticLiteral::UntypedInteger(1)])]);
    assert!(matches!(e, CompilerError::BindingDefInNonDataSection));
    let e = run(parse(&["mov a64, nothere"]));
    assert!(matches!(e, CompilerError::UndefinedBinding(ref n) if *n == name("game", "nothere")));
    let dynamic = SemanticOperand::Immediate(SemanticImmediateType::Binding(local("k"), 0));
    let e = run(vec![
        SemanticRepr::SpecialSection(".data".to_string()),
        def("k", true, vec![SemanticLiteral::UntypedInteger(7)]),
        mov_a(const_deref("k")),
        mov_a(dynamic.clone()),
    ]);
    assert!(matches!(e, CompilerError::MixedDynamicDerefOfConstantBinding(_)));
    let e = run(vec![
        SemanticRepr::SpecialSection(".data".to_string()),
        def("k", true, vec![SemanticLiteral::UntypedInteger(7)]),
        mov_a(dynamic),
        mov_a(const_deref("k")),
    ]);
    assert!(matches!(e, CompilerError::MixedConstDerefOfConstantBinding(_)));
    let e = run(vec![
        SemanticRepr::SpecialSection(".data".to_string()),
        def("k", false, vec![SemanticLiteral::UntypedInteger(7)]),
        mov_a(const_deref("k")),
    ]);
    assert!(matches!(e, CompilerError::ConstDerefOfNonConstantBinding(_)));
    let e = run(vec![
        SemanticRepr::SpecialSection(".data".to_string()),
        def("k", true, vec![SemanticLiteral::UntypedInteger(7), SemanticLiteral::UntypedInteger(8)]),
        mov_a(const_deref("k")),
    ]);
    assert!(matches!(e, CompilerError::ConstDerefWithMultipleValues(_)));
}

#[test]
fn labels_get_instruction_addresses() {
    let mut modules = IndexMap::new();
    modules.insert("game".to_string(), parse(&["_start:", "nop", "jmp _end", "_end:", "ret"]));
    modules.insert("lib".to_string(), parse(&["_entry:", "jmp _game::start"]));
    let table = LabelTable::parse(&modules).unwrap();
    let mut stream = BytecodeStream::new(0);
    table.serialize(&mut stream);
    let mut expected = vec![4u8, 0];
    expected.extend(cstr("game"));
    expected.extend(cstr("start"));
    expected.push(0);
    expected.extend([0u8, 1]);
    expected.extend(cstr("end"));
    expected.push(2);
    expected.extend([6u8, 2]);
    expected.extend(cstr("lib"));
    expected.extend(cstr("entry"));
    expected.push(3);
    assert_eq!(stream.into_bytes(), expected);
}

#[test]
fn label_errors() {
    let mut modules = IndexMap::new();
    modules.insert("game".to_string(), parse(&["nop", "jmp _nowhere"]));
    let e = LabelTable::parse(&modules).unwrap_err();
    assert!(matches!(e, CompilerError::UndefinedLabel(ref n) if *n == name("game", "nowhere")));

    let qualified = SemanticRepr::Label(SemanticSymbol { name: name("game", "a"), external: false });
    let mut modules = IndexMap::new();
    modules.insert("game".to_string(), vec![qualified.clone(), qualified]);
    let e = LabelTable::parse(&modules).unwrap_err();
    assert!(matches!(e, CompilerError::DuplicateLabel(ref n) if *n == name("game", "a")));

    // a label written without its module, defined twice in one module
    let mut modules = IndexMap::new();
    modules.insert("game".to_string(), parse(&["_a:", "nop", "_a:"]));
    let e = LabelTable::parse(&modules).unwrap_err();
    assert!(matches!(e, CompilerError::DuplicateLabel(ref n) if *n == name("game", "a")));

    // the same label in two modules is no duplicate
    let mut modules = IndexMap::new();
    modules.insert("game".to_string(), parse(&["_a:"]));
    modules.insert("lib".to_string(), parse(&["_a:"]));
    assert!(LabelTable::parse(&modules).is_ok());
}

#[test]
fn binding_references_become_addresses() {
    let mut modules = IndexMap::new();
    modules.insert(
        "game".to_string(),
        parse(&[".data:", "hp: qword 100", "title: \"ab\", 0", "_main:", "mov a64, hp", "mov b64, &title+2", "mov c64, title+3"]),
    );
    BindingTable::parse_and_lower(&mut modules).unwrap();
    let operand = |line: usize| match &modules["game"][line] {
        SemanticRepr::Instruction(ins) => ins.operands[1].clone(),
        _ => panic!("not an instruction"),
    };
    assert!(matches!(
        operand(4),
        SemanticOperand::Immediate(SemanticImmediateType::Literal(SemanticLiteral::UntypedInteger(0)))
    ));
    assert!(matches!(
        operand(5),
        SemanticOperand::Deref(SemanticDeref { kind: SemanticDerefKind::Address(8), offset: 2 })
    ));
    assert!(matches!(
        operand(6),
        SemanticOperand::Immediate(SemanticImmediateType::Literal(SemanticLiteral::UntypedInteger(11)))
    ));
}

#[test]
fn label_references_become_addresses() {
    let mut modules = IndexMap::new();
    modules.insert("game".to_string(), parse(&["nop", "_loop:", "nop", "jmp _loop", "jmp _loop+2"]));
    let table = LabelTable::parse(&modules).unwrap();
    table.lower_labels(&mut modules);
    let operand = |line: usize| match &modules["game"][line] {
        SemanticRepr::Instruction(ins) => ins.operands[0].clone(),
        _ => panic!("not an instruction"),
    };
    assert!(matches!(
        operand(3),
        SemanticOperand::Immediate(SemanticImmediateType::Literal(SemanticLiteral::UntypedInteger(1)))
    ));
    assert!(matches!(
        operand(4),
        SemanticOperand::Immediate(SemanticImmediateType::Literal(SemanticLiteral::UntypedInteger(3)))
    ));
}

#[test]
fn external_binding_references_are_kept() {
    let external = SemanticSymbol { name: name("lib", "shared"), external: true };
    let reference = SemanticOperand::Immediate(SemanticImmediateType::Binding(external, 4));
    let mut modules = IndexMap::new();
    modules.insert("game".to_string(), vec![mov_a(reference)]);
    let table = BindingTable::parse_and_lower(&mut modules).unwrap();
    assert_eq!(table.get_offset(&name("lib", "shared")), Some(None));
    match &modules["game"][0] {
        SemanticRepr::Instruction(ins) => assert!(matches!(
            &ins.operands[1],
            SemanticOperand::Immediate(SemanticImmediateType::Binding(s, 4)) if s.external && s.name == name("lib", "shared")
        )),
        _ => panic!("not an instruction"),
    }
}
