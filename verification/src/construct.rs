//! Compiler construct expansion: every `@construct` line is replaced by
//! the ordinary instructions and labels it stands for.
use vstd::prelude::*;
use crate::opcode::{CompilerConstruct, OpcodeMnemonic, Register};
use crate::semantic::{
    SemanticCompilerConstruct, SemanticCompilerConstructV, SemanticDeref, SemanticDerefKind,
    SemanticDerefKindV, SemanticDerefV, SemanticImmediateType, SemanticImmediateTypeV,
    SemanticInstruction, SemanticInstructionV, SemanticLiteralV, SemanticOperand,
    SemanticOperandV, SemanticRepr, SemanticReprV, SemanticSymbol, SemanticSymbolV,
    operands_view, reprs_view,
};
use crate::text::{chars_of, push_str, string_of, unsigned_text, decimal_digits};
use crate::value::{RegisterSpec, SymbolNameV};
use crate::util::{random_internal_label, is_lower_hex};

verus! {

/// Why a compiler construct could not be expanded.
#[derive(Debug, Clone)]
pub enum ConstructExpansionError {
    /// The construct is not allowed where it stands.
    InvalidConstruct(CompilerConstruct),
    /// Compiler constructs are not allowed in the data section.
    ConstructInDataSection,
    /// The construct takes exactly `expected` operands.
    ExpectedExactOperands { opcode: CompilerConstruct, expected: usize },
    /// The construct takes at least `minimum` operands.
    MinimumOperands { opcode: CompilerConstruct, minimum: usize },
    /// The operand at `index` is not of the kind the construct takes.
    InvalidOperand { index: usize, operand: SemanticOperand, reason: String },
    /// The block opened at `start_line` is not closed by `@end`.
    UnterminatedBlock { start_line: usize, start_construct: SemanticCompilerConstruct },
}

/// The mathematical model of a [`ConstructExpansionError`].
pub enum ConstructExpansionErrorV {
    InvalidConstruct(CompilerConstruct),
    ConstructInDataSection,
    ExpectedExactOperands { opcode: CompilerConstruct, expected: nat },
    MinimumOperands { opcode: CompilerConstruct, minimum: nat },
    InvalidOperand { index: nat, operand: SemanticOperandV, reason: Seq<char> },
    UnterminatedBlock { start_line: nat, start_construct: SemanticCompilerConstructV },
}

impl View for ConstructExpansionError {
    type V = ConstructExpansionErrorV;

    open spec fn view(&self) -> ConstructExpansionErrorV {
        match self {
            ConstructExpansionError::InvalidConstruct(c) => ConstructExpansionErrorV::InvalidConstruct(*c),
            ConstructExpansionError::ConstructInDataSection => ConstructExpansionErrorV::ConstructInDataSection,
            ConstructExpansionError::ExpectedExactOperands { opcode, expected } =>
                ConstructExpansionErrorV::ExpectedExactOperands { opcode: *opcode, expected: *expected as nat },
            ConstructExpansionError::MinimumOperands { opcode, minimum } =>
                ConstructExpansionErrorV::MinimumOperands { opcode: *opcode, minimum: *minimum as nat },
            ConstructExpansionError::InvalidOperand { index, operand, reason } =>
                ConstructExpansionErrorV::InvalidOperand { index: *index as nat, operand: operand@, reason: reason@ },
            ConstructExpansionError::UnterminatedBlock { start_line, start_construct } =>
                ConstructExpansionErrorV::UnterminatedBlock {
                    start_line: *start_line as nat,
                    start_construct: start_construct@,
                },
        }
    }
}

/// An expansion error, with the line it concerns and a line number.
#[derive(Debug, Clone)]
pub struct ConstructExpansionErrorDetails {
    pub error: ConstructExpansionError,
    pub source: SemanticRepr,
    pub line: usize,
}

/// The mathematical model of a [`ConstructExpansionErrorDetails`].
pub struct ConstructExpansionErrorDetailsV {
    pub error: ConstructExpansionErrorV,
    pub source: SemanticReprV,
    pub line: nat,
}

impl View for ConstructExpansionErrorDetails {
    type V = ConstructExpansionErrorDetailsV;

    open spec fn view(&self) -> ConstructExpansionErrorDetailsV {
        ConstructExpansionErrorDetailsV { error: self.error@, source: self.source@, line: self.line as nat }
    }
}

/// An error together with the line it concerns and its number.
pub open spec fn details(
    error: ConstructExpansionErrorV,
    source: SemanticReprV,
    line: int,
) -> ConstructExpansionErrorDetailsV {
    ConstructExpansionErrorDetailsV { error, source, line: line as nat }
}

impl ConstructExpansionError {
    /// Attaches the line it concerns and its number.
    pub fn into_details(self, source: &SemanticRepr, line: usize) -> (r: ConstructExpansionErrorDetails)
        ensures
            r@ == details(self@, source@, line as int),
    {
        ConstructExpansionErrorDetails { error: self, source: source.duplicate(), line }
    }
}

impl SemanticCompilerConstruct {
    /// Checks that the construct has exactly `n` operands.
    pub fn expect_exact_operands(&self, n: usize) -> (r: Result<(), ConstructExpansionError>)
        ensures
            match r {
                Ok(()) => self@.operands.len() == n,
                Err(e) => self@.operands.len() != n && e@ == ConstructExpansionErrorV::ExpectedExactOperands {
                    opcode: self.opcode,
                    expected: n as nat,
                },
            },
    {
        if self.operands.len() != n {
            return Err(ConstructExpansionError::ExpectedExactOperands { opcode: self.opcode, expected: n });
        }
        Ok(())
    }

    /// The error naming operand `index` as invalid, for `reason`.
    pub fn invalid_operand_error(&self, index: usize, reason: &str) -> (r: Result<(), ConstructExpansionError>)
        requires
            index < self@.operands.len(),
        ensures
            match r {
                Ok(()) => false,
                Err(e) => e@ == ConstructExpansionErrorV::InvalidOperand {
                    index: index as nat,
                    operand: self@.operands[index as int],
                    reason: reason@,
                },
            },
    {
        Err(ConstructExpansionError::InvalidOperand {
            index,
            operand: self.operands[index].duplicate(),
            reason: string_of(chars_of(reason).as_slice()),
        })
    }
}

// ---------------------------------------------------------------------
// Single constructs.

/// An instruction line.
pub open spec fn instr(opcode: OpcodeMnemonic, operands: Seq<SemanticOperandV>) -> SemanticReprV {
    SemanticReprV::Instruction(SemanticInstructionV { opcode, operands })
}

/// The 64-bit view of a register, as an operand.
pub open spec fn qword_operand(r: Register) -> SemanticOperandV {
    SemanticOperandV::Register(RegisterSpec { register: r, width: crate::value::RegisterWidth::Qword })
}

/// The memory at the address held in a register, as an operand.
pub open spec fn deref_register(r: Register, offset: i64) -> SemanticOperandV {
    SemanticOperandV::Deref(SemanticDerefV {
        kind: SemanticDerefKindV::Register(RegisterSpec { register: r, width: crate::value::RegisterWidth::Qword }),
        offset,
    })
}

/// An invalid-operand error for operand `i` of `c`, for `reason`.
pub open spec fn invalid_operand(c: SemanticCompilerConstructV, i: int, reason: Seq<char>) -> ConstructExpansionErrorV {
    ConstructExpansionErrorV::InvalidOperand { index: i as nat, operand: c.operands[i], reason }
}

/// `@pry <binding>, <value>`: writes a value to a binding's memory through
/// the source index register.
pub open spec fn spec_expand_pry(c: SemanticCompilerConstructV) -> Result<Seq<SemanticReprV>, ConstructExpansionErrorV> {
    if c.operands.len() != 2 {
        Err(ConstructExpansionErrorV::ExpectedExactOperands { opcode: c.opcode, expected: 2 })
    } else {
        match c.operands[0] {
            SemanticOperandV::Immediate(SemanticImmediateTypeV::Binding(binding, offset)) => if offset != 0 {
                Err(invalid_operand(c, 0, "This binding must not have an offset."@))
            } else if !(c.operands[1] is Immediate || c.operands[1] is Register) {
                Err(invalid_operand(c, 1, "Expected an immediate value or a register."@))
            } else {
                Ok(seq![
                    instr(OpcodeMnemonic::Mov, seq![
                        qword_operand(Register::SourceIndex),
                        SemanticOperandV::Immediate(SemanticImmediateTypeV::Binding(binding, 0)),
                    ]),
                    instr(OpcodeMnemonic::Mov, seq![deref_register(Register::SourceIndex, 0), c.operands[1]]),
                ])
            },
            _ => Err(invalid_operand(c, 0, "Expected a binding as the first operand."@)),
        }
    }
}

/// Whether expanding `c` stays clear of the failures the expansion cannot
/// report: `@getarg` reads a string literal as a number, or its offset
/// `16 + n` leaves the 64-bit range; or the written form of the first bad
/// argument of an `@engcall`, which its error message holds, cannot be
/// written (a dereference offset that cannot be negated).
pub open spec fn expands_safely(c: SemanticCompilerConstructV) -> bool {
    &&& (c.opcode == CompilerConstruct::GetArg && c.operands.len() == 2 && c.operands[0] is Register ==>
        match c.operands[1] {
            SemanticOperandV::Immediate(SemanticImmediateTypeV::Literal(lit)) => {
                &&& !(lit is String)
                &&& (!lit.to_data_type().data_type().spec_is_floating_point()
                    ==> lit.to_data_type().as_int()->0 <= i64::MAX - 16)
            },
            _ => true,
        })
    &&& (c.opcode == CompilerConstruct::EngineCall && c.operands.len() >= 1 && c.operands[0] is EngineParam ==>
        match first_bad_engcall_arg(c.operands) {
            Some(i) => c.operands[i].printable(),
            None => true,
        })
}

/// The reason given for argument `i` of an `@engcall`, `op`, that is
/// neither an immediate nor a register.
pub open spec fn engcall_reason(i: int, op: SemanticOperandV) -> Seq<char> {
    "For parameter "@ + decimal_digits(i as nat) + " '"@ + op.text() + "': Expected an immediate or a register."@
}

/// `@getarg <register>, <n>`: loads procedure argument `n` from the stack
/// frame (base pointer plus `16 + n`).
pub open spec fn spec_expand_getarg(c: SemanticCompilerConstructV) -> Result<Seq<SemanticReprV>, ConstructExpansionErrorV> {
    if c.operands.len() != 2 {
        Err(ConstructExpansionErrorV::ExpectedExactOperands { opcode: c.opcode, expected: 2 })
    } else {
        match c.operands[0] {
            SemanticOperandV::Register(reg) => match c.operands[1] {
                SemanticOperandV::Immediate(SemanticImmediateTypeV::Literal(lit)) =>
                    if lit.to_data_type().data_type().spec_is_floating_point() {
                        Err(invalid_operand(c, 1, "This literal must not be a integer value."@))
                    } else {
                        Ok(seq![instr(OpcodeMnemonic::Mov, seq![
                            SemanticOperandV::Register(reg),
                            deref_register(Register::BasePointer, (16 + lit.to_data_type().as_int()->0) as i64),
                        ])])
                    },
                _ => Err(invalid_operand(c, 1, "Expected a literal as the second operand."@)),
            },
            _ => Err(invalid_operand(c, 0, "Expected a register as the first operand."@)),
        }
    }
}

/// The index of the first operand after the first that is neither an
/// immediate nor a register, if any.
pub open spec fn first_bad_engcall_arg(ops: Seq<SemanticOperandV>) -> Option<int>
    decreases ops.len(),
{
    if ops.len() <= 1 {
        None
    } else {
        match first_bad_engcall_arg(ops.drop_last()) {
            Some(i) => Some(i),
            None => if ops.last() is Immediate || ops.last() is Register {
                None
            } else {
                Some(ops.len() - 1)
            },
        }
    }
}

/// The `push` instructions for the operands after the first.
pub open spec fn push_args(ops: Seq<SemanticOperandV>) -> Seq<SemanticReprV>
    decreases ops.len(),
{
    if ops.len() <= 1 {
        Seq::empty()
    } else {
        push_args(ops.drop_last()).push(instr(OpcodeMnemonic::Push, seq![ops.last()]))
    }
}

/// `@engcall #param, args...`: loads the engine parameter into `a64` and
/// pushes each argument.
pub open spec fn spec_expand_engcall(c: SemanticCompilerConstructV) -> Result<Seq<SemanticReprV>, ConstructExpansionErrorV> {
    if c.operands.len() < 1 {
        Err(ConstructExpansionErrorV::MinimumOperands { opcode: c.opcode, minimum: 1 })
    } else {
        match c.operands[0] {
            SemanticOperandV::EngineParam(p) => match first_bad_engcall_arg(c.operands) {
                Some(i) => Err(invalid_operand(c, i, engcall_reason(i, c.operands[i]))),
                None => Ok(seq![instr(OpcodeMnemonic::Mov, seq![qword_operand(Register::A), SemanticOperandV::EngineParam(p)])]
                    + push_args(c.operands)),
            },
            _ => Err(invalid_operand(c, 0, "Expected an engine parameter as the first operand."@)),
        }
    }
}

/// The lines a non-block construct expands to.
pub open spec fn spec_expand_single(c: SemanticCompilerConstructV) -> Result<Seq<SemanticReprV>, ConstructExpansionErrorV> {
    match c.opcode {
        CompilerConstruct::Pry => spec_expand_pry(c),
        CompilerConstruct::GetArg => spec_expand_getarg(c),
        CompilerConstruct::EngineCall => spec_expand_engcall(c),
        _ => Err(ConstructExpansionErrorV::InvalidConstruct(c.opcode)),
    }
}

/// `@getarg r, n` with an integer argument number `n` loads the word at
/// `16 + n` bytes past the base pointer into `r`: the offset is the integer
/// sum, for every number whose sum stays in the 64-bit range.
pub proof fn lemma_getarg_offset_is_sum(reg: RegisterSpec, lit: SemanticLiteralV, v: i64)
    requires
        !(lit is String),
        !lit.to_data_type().data_type().spec_is_floating_point(),
        lit.to_data_type().as_int() == Some(v),
        v <= i64::MAX - 16,
    ensures
        spec_expand_single(SemanticCompilerConstructV {
            opcode: CompilerConstruct::GetArg,
            operands: seq![
                SemanticOperandV::Register(reg),
                SemanticOperandV::Immediate(SemanticImmediateTypeV::Literal(lit)),
            ],
        }) matches Ok(lines) && lines.len() == 1 && lines[0] == SemanticReprV::Instruction(SemanticInstructionV {
            opcode: OpcodeMnemonic::Mov,
            operands: seq![
                SemanticOperandV::Register(reg),
                SemanticOperandV::Deref(SemanticDerefV {
                    kind: SemanticDerefKindV::Register(RegisterSpec {
                        register: Register::BasePointer,
                        width: crate::value::RegisterWidth::Qword,
                    }),
                    offset: (16 + v) as i64,
                }),
            ],
        }),
        (16 + v) as i64 == 16 + v,
{
}

/// An untyped integer argument number `n` of `@getarg` is read as itself:
/// the offset is `16 + n`.
pub proof fn lemma_getarg_untyped_offset(reg: RegisterSpec, n: i64)
    requires
        n <= i64::MAX - 16,
    ensures
        spec_expand_single(SemanticCompilerConstructV {
            opcode: CompilerConstruct::GetArg,
            operands: seq![
                SemanticOperandV::Register(reg),
                SemanticOperandV::Immediate(SemanticImmediateTypeV::Literal(SemanticLiteralV::UntypedInteger(n))),
            ],
        }) matches Ok(lines) && lines.len() == 1 && lines[0] == SemanticReprV::Instruction(SemanticInstructionV {
            opcode: OpcodeMnemonic::Mov,
            operands: seq![
                SemanticOperandV::Register(reg),
                SemanticOperandV::Deref(SemanticDerefV {
                    kind: SemanticDerefKindV::Register(RegisterSpec {
                        register: Register::BasePointer,
                        width: crate::value::RegisterWidth::Qword,
                    }),
                    offset: (16 + n) as i64,
                }),
            ],
        }),
{
    let lit = SemanticLiteralV::UntypedInteger(n);
    assert((n as u64) as i64 == n) by (bit_vector);
    lemma_getarg_offset_is_sum(reg, lit, n);
}

fn operands1(a: SemanticOperand) -> (r: Vec<SemanticOperand>)
    ensures
        operands_view(r@) == seq![a@],
{
    let mut v: Vec<SemanticOperand> = Vec::new();
    v.push(a);
    assert(operands_view(v@) =~= seq![a@]);
    v
}

fn operands2(a: SemanticOperand, b: SemanticOperand) -> (r: Vec<SemanticOperand>)
    ensures
        operands_view(r@) == seq![a@, b@],
{
    let mut v: Vec<SemanticOperand> = Vec::new();
    v.push(a);
    v.push(b);
    assert(operands_view(v@) =~= seq![a@, b@]);
    v
}

fn push_instruction(out: &mut Vec<SemanticRepr>, opcode: OpcodeMnemonic, operands: Vec<SemanticOperand>)
    ensures
        reprs_view(final(out)@) == reprs_view(old(out)@).push(instr(opcode, operands_view(operands@))),
{
    out.push(SemanticRepr::Instruction(SemanticInstruction { opcode, operands }));
    assert(reprs_view(out@) =~= reprs_view(old(out)@).push(instr(opcode, operands_view(operands@))));
}

fn expand_construct_pry(construct: &SemanticCompilerConstruct, out: &mut Vec<SemanticRepr>) -> (r: Result<(), ConstructExpansionError>)
    ensures
        match r {
            Ok(()) => spec_expand_pry(construct@) matches Ok(lines) && reprs_view(final(out)@) == reprs_view(old(out)@) + lines,
            Err(e) => spec_expand_pry(construct@) == Err::<Seq<SemanticReprV>, _>(e@) && final(out)@ == old(out)@,
        },
{
    construct.expect_exact_operands(2)?;
    let arg0 = &construct.operands[0];
    let binding = match arg0 {
        SemanticOperand::Immediate(SemanticImmediateType::Binding(binding, offset)) => {
            if *offset != 0 {
                return construct.invalid_operand_error(0, "This binding must not have an offset.");
            }
            binding
        },
        _ => {
            return construct.invalid_operand_error(0, "Expected a binding as the first operand.");
        },
    };
    let arg1 = &construct.operands[1];
    if !(arg1.is_immediate() || arg1.is_register()) {
        return construct.invalid_operand_error(1, "Expected an immediate value or a register.");
    }
    let ghost before = reprs_view(out@);
    push_instruction(out, OpcodeMnemonic::Mov, operands2(
        SemanticOperand::Register(RegisterSpec::qword(Register::SourceIndex)),
        SemanticOperand::Immediate(SemanticImmediateType::Binding(binding.duplicate(), 0)),
    ));
    push_instruction(out, OpcodeMnemonic::Mov, operands2(
        SemanticOperand::Deref(SemanticDeref {
            kind: SemanticDerefKind::Register(RegisterSpec::qword(Register::SourceIndex)),
            offset: 0,
        }),
        arg1.duplicate(),
    ));
    proof {
        let lines = spec_expand_pry(construct@)->Ok_0;
        assert(reprs_view(out@) =~= before + lines);
    }
    Ok(())
}

fn expand_construct_getarg(construct: &SemanticCompilerConstruct, out: &mut Vec<SemanticRepr>) -> (r: Result<(), ConstructExpansionError>)
    requires
        construct@.opcode == CompilerConstruct::GetArg,
        expands_safely(construct@),
    ensures
        match r {
            Ok(()) => spec_expand_getarg(construct@) matches Ok(lines) && reprs_view(final(out)@) == reprs_view(old(out)@) + lines,
            Err(e) => spec_expand_getarg(construct@) == Err::<Seq<SemanticReprV>, _>(e@) && final(out)@ == old(out)@,
        },
{
    construct.expect_exact_operands(2)?;
    let reg = match &construct.operands[0] {
        SemanticOperand::Register(reg) => *reg,
        _ => {
            return construct.invalid_operand_error(0, "Expected a register as the first operand.");
        },
    };
    let lit = match &construct.operands[1] {
        SemanticOperand::Immediate(SemanticImmediateType::Literal(lit)) => lit,
        _ => {
            return construct.invalid_operand_error(1, "Expected a literal as the second operand.");
        },
    };
    let typed = lit.to_data_type();
    if typed.data_type().is_floating_point() {
        return construct.invalid_operand_error(1, "This literal must not be a integer value.");
    }
    let offset_amount = match typed.as_int() {
        Some(v) => v,
        None => 0,
    };
    let ghost before = reprs_view(out@);
    push_instruction(out, OpcodeMnemonic::Mov, operands2(
        SemanticOperand::Register(reg),
        SemanticOperand::Deref(SemanticDeref {
            kind: SemanticDerefKind::Register(RegisterSpec::qword(Register::BasePointer)),
            offset: 16 + offset_amount,
        }),
    ));
    proof {
        let lines = spec_expand_getarg(construct@)->Ok_0;
        assert(reprs_view(out@) =~= before + lines);
    }
    Ok(())
}

/// The reason given for argument `i` of an `@engcall`, `operand`, that is
/// neither an immediate nor a register.
fn engcall_argument_reason(i: usize, operand: &SemanticOperand) -> (r: String)
    requires
        operand@.printable(),
    ensures
        r@ == engcall_reason(i as int, operand@),
{
    let mut out: Vec<char> = Vec::new();
    push_str(&mut out, "For parameter ");
    push_str(&mut out, unsigned_text(i as u64).as_str());
    push_str(&mut out, " '");
    push_str(&mut out, operand.to_string().as_str());
    push_str(&mut out, "': Expected an immediate or a register.");
    assert(out@ =~= engcall_reason(i as int, operand@));
    string_of(out.as_slice())
}

proof fn lemma_first_bad_prefix(ops: Seq<SemanticOperandV>, i: int)
    requires
        1 <= i <= ops.len(),
        forall|j: int| 1 <= j < i ==> (#[trigger] ops[j] is Immediate || ops[j] is Register),
    ensures
        first_bad_engcall_arg(ops.subrange(0, i)) is None,
        i < ops.len() && !(ops[i] is Immediate || ops[i] is Register) ==> first_bad_engcall_arg(ops.subrange(0, i + 1)) == Some(i),
        i == ops.len() ==> first_bad_engcall_arg(ops) is None,
    decreases i,
{
    if i > 1 {
        lemma_first_bad_prefix(ops, i - 1);
        assert(ops.subrange(0, i).drop_last() =~= ops.subrange(0, i - 1));
    }
    if i < ops.len() {
        assert(ops.subrange(0, i + 1).drop_last() =~= ops.subrange(0, i));
    }
    if i == ops.len() {
        assert(ops.subrange(0, i) =~= ops);
    }
}

fn expand_construct_engcall(construct: &SemanticCompilerConstruct, out: &mut Vec<SemanticRepr>) -> (r: Result<(), ConstructExpansionError>)
    requires
        construct@.opcode == CompilerConstruct::EngineCall,
        expands_safely(construct@),
    ensures
        match r {
            Ok(()) => spec_expand_engcall(construct@) matches Ok(lines) && reprs_view(final(out)@) == reprs_view(old(out)@) + lines,
            Err(e) => spec_expand_engcall(construct@) == Err::<Seq<SemanticReprV>, _>(e@) && final(out)@ == old(out)@,
        },
{
    if construct.operands.len() < 1 {
        return Err(ConstructExpansionError::MinimumOperands { opcode: construct.opcode, minimum: 1 });
    }
    let engine_param = match &construct.operands[0] {
        SemanticOperand::EngineParam(p) => p,
        _ => {
            return construct.invalid_operand_error(0, "Expected an engine parameter as the first operand.");
        },
    };
    let ghost ops = construct@.operands;
    assert(ops[0] == construct.operands@[0]@);
    let mut i: usize = 1;
    while i < construct.operands.len()
        invariant
            ops == construct@.operands,
            construct@.opcode == CompilerConstruct::EngineCall,
            expands_safely(construct@),
            ops[0] is EngineParam,
            1 <= i <= ops.len(),
            forall|j: int| 1 <= j < i ==> (#[trigger] ops[j] is Immediate || ops[j] is Register),
        decreases ops.len() - i,
    {
        let operand = &construct.operands[i];
        assert(ops[i as int] == construct.operands@[i as int]@);
        if !(operand.is_immediate() || operand.is_register()) {
            proof {
                lemma_first_bad_prefix(ops, i as int);
                assert(first_bad_engcall_arg(ops.subrange(0, i + 1)) == Some(i as int));
                lemma_first_bad_extends(ops, i as int + 1);
                assert(first_bad_engcall_arg(ops) == Some(i as int));
            }
            let reason = engcall_argument_reason(i, operand);
            return Err(ConstructExpansionError::InvalidOperand {
                index: i,
                operand: operand.duplicate(),
                reason,
            });
        }
        i += 1;
    }
    proof {
        lemma_first_bad_prefix(ops, ops.len() as int);
    }
    let ghost before = reprs_view(out@);
    push_instruction(out, OpcodeMnemonic::Mov, operands2(
        SemanticOperand::Register(RegisterSpec::qword(Register::A)),
        SemanticOperand::EngineParam(engine_param.clone()),
    ));
    let ghost mid = reprs_view(out@);
    let mut k: usize = 1;
    while k < construct.operands.len()
        invariant
            ops == construct@.operands,
            1 <= k <= ops.len(),
            reprs_view(out@) == mid + push_args(ops.subrange(0, k as int)),
        decreases ops.len() - k,
    {
        proof {
            assert(ops.subrange(0, k + 1).drop_last() =~= ops.subrange(0, k as int));
            assert(ops[k as int] == construct.operands@[k as int]@);
        }
        push_instruction(out, OpcodeMnemonic::Push, operands1(construct.operands[k].duplicate()));
        proof {
            assert(reprs_view(out@) =~= mid + push_args(ops.subrange(0, k + 1)));
        }
        k += 1;
    }
    proof {
        assert(ops.subrange(0, ops.len() as int) =~= ops);
        let lines = spec_expand_engcall(construct@)->Ok_0;
        assert(reprs_view(out@) =~= before + lines);
    }
    Ok(())
}

proof fn lemma_first_bad_extends(ops: Seq<SemanticOperandV>, n: int)
    requires
        2 <= n <= ops.len(),
        first_bad_engcall_arg(ops.subrange(0, n)) is Some,
    ensures
        first_bad_engcall_arg(ops) == first_bad_engcall_arg(ops.subrange(0, n)),
    decreases ops.len() - n,
{
    if n < ops.len() {
        assert(ops.subrange(0, n + 1).drop_last() =~= ops.subrange(0, n));
        lemma_first_bad_extends(ops, n + 1);
    } else {
        assert(ops.subrange(0, n) =~= ops);
    }
}

/// Expands a non-block construct into `out`.
fn expand_construct_single(construct: &SemanticCompilerConstruct, out: &mut Vec<SemanticRepr>) -> (r: Result<(), ConstructExpansionError>)
    requires
        expands_safely(construct@),
    ensures
        match r {
            Ok(()) => spec_expand_single(construct@) matches Ok(lines) && reprs_view(final(out)@) == reprs_view(old(out)@) + lines,
            Err(e) => spec_expand_single(construct@) == Err::<Seq<SemanticReprV>, _>(e@) && final(out)@ == old(out)@,
        },
{
    match construct.opcode {
        CompilerConstruct::Pry => expand_construct_pry(construct, out),
        CompilerConstruct::GetArg => expand_construct_getarg(construct, out),
        CompilerConstruct::EngineCall => expand_construct_engcall(construct, out),
        _ => Err(ConstructExpansionError::InvalidConstruct(construct.opcode)),
    }
}


// ---------------------------------------------------------------------
// Conditional blocks.

/// The error for statement operands (of `@if` or `@elseif`) that are not
/// `<immediate or register>, <immediate or register>, <jump mnemonic>`.
pub open spec fn spec_validate_statement(args: Seq<SemanticOperandV>) -> Option<ConstructExpansionErrorV> {
    if args.len() != 3 {
        Some(ConstructExpansionErrorV::ExpectedExactOperands { opcode: CompilerConstruct::If, expected: 3 })
    } else if !(args[0] is Immediate || args[0] is Register) {
        Some(ConstructExpansionErrorV::InvalidOperand { index: 0, operand: args[0], reason: "Expected an immediate value or a register."@ })
    } else if !(args[1] is Immediate || args[1] is Register) {
        Some(ConstructExpansionErrorV::InvalidOperand { index: 1, operand: args[1], reason: "Expected an immediate value or a register."@ })
    } else {
        match args[2] {
            SemanticOperandV::Mnemonic(m) => if m.spec_is_jump() {
                None
            } else {
                Some(ConstructExpansionErrorV::InvalidOperand { index: 2, operand: args[2], reason: "Expected a jump mnemonic."@ })
            },
            _ => Some(ConstructExpansionErrorV::InvalidOperand { index: 2, operand: args[2], reason: "Expected a jump mnemonic."@ }),
        }
    }
}

/// A block construct.
#[derive(Debug)]
pub enum BlockConstruct {
    Conditional(BlockConstructConditional),
}

/// A line of a block's body: an ordinary line or a nested block.
#[derive(Debug)]
pub enum BlockBodyLine {
    Line(SemanticRepr),
    NestedBlock(BlockConstruct),
}

/// An `@if` block with its `@elseif` and `@else` parts.
#[derive(Debug)]
pub struct BlockConstructConditional {
    pub if_statement: SemanticCompilerConstruct,
    pub if_body: Vec<BlockBodyLine>,
    pub else_if_statements: Vec<(SemanticCompilerConstruct, Vec<BlockBodyLine>)>,
    pub else_statement: Option<Vec<BlockBodyLine>>,
}

/// The mathematical model of a [`BlockBodyLine`].
pub enum BlockBodyLineV {
    Line(SemanticReprV),
    NestedBlock(BlockConstructV),
}

/// The mathematical model of a [`BlockConstruct`].
pub enum BlockConstructV {
    Conditional(ConditionalV),
}

/// The mathematical model of a [`BlockConstructConditional`].
pub struct ConditionalV {
    pub if_statement: SemanticCompilerConstructV,
    pub if_body: Seq<BlockBodyLineV>,
    pub else_ifs: Seq<(SemanticCompilerConstructV, Seq<BlockBodyLineV>)>,
    pub else_body: Option<Seq<BlockBodyLineV>>,
}

pub open spec fn line_view(l: BlockBodyLine) -> BlockBodyLineV
    decreases l,
{
    match l {
        BlockBodyLine::Line(r) => BlockBodyLineV::Line(r@),
        BlockBodyLine::NestedBlock(b) => BlockBodyLineV::NestedBlock(block_view(b)),
    }
}

pub open spec fn block_view(b: BlockConstruct) -> BlockConstructV
    decreases b,
{
    match b {
        BlockConstruct::Conditional(c) => BlockConstructV::Conditional(conditional_view(c)),
    }
}

pub open spec fn conditional_view(c: BlockConstructConditional) -> ConditionalV
    decreases c,
{
    ConditionalV {
        if_statement: c.if_statement@,
        if_body: body_view(c.if_body@),
        else_ifs: else_ifs_view(c.else_if_statements@),
        else_body: match c.else_statement {
            Some(v) => Some(body_view(v@)),
            None => None,
        },
    }
}

pub open spec fn body_view(s: Seq<BlockBodyLine>) -> Seq<BlockBodyLineV>
    decreases s,
{
    if s.len() == 0 {
        Seq::empty()
    } else {
        body_view(s.drop_last()).push(line_view(s.last()))
    }
}

pub open spec fn else_ifs_view(s: Seq<(SemanticCompilerConstruct, Vec<BlockBodyLine>)>) -> Seq<(SemanticCompilerConstructV, Seq<BlockBodyLineV>)>
    decreases s,
{
    if s.len() == 0 {
        Seq::empty()
    } else {
        else_ifs_view(s.drop_last()).push((s.last().0@, body_view(s.last().1@)))
    }
}

impl View for BlockBodyLine {
    type V = BlockBodyLineV;

    open spec fn view(&self) -> BlockBodyLineV {
        line_view(*self)
    }
}

impl View for BlockConstruct {
    type V = BlockConstructV;

    open spec fn view(&self) -> BlockConstructV {
        block_view(*self)
    }
}

impl View for BlockConstructConditional {
    type V = ConditionalV;

    open spec fn view(&self) -> ConditionalV {
        conditional_view(*self)
    }
}

pub proof fn lemma_body_view(s: Seq<BlockBodyLine>)
    ensures
        body_view(s).len() == s.len(),
        forall|i: int| 0 <= i < s.len() ==> #[trigger] body_view(s)[i] == line_view(s[i]),
    decreases s.len(),
{
    if s.len() > 0 {
        lemma_body_view(s.drop_last());
    }
}

pub proof fn lemma_else_ifs_view(s: Seq<(SemanticCompilerConstruct, Vec<BlockBodyLine>)>)
    ensures
        else_ifs_view(s).len() == s.len(),
        forall|i: int| 0 <= i < s.len() ==> #[trigger] else_ifs_view(s)[i] == (s[i].0@, body_view(s[i].1@)),
    decreases s.len(),
{
    if s.len() > 0 {
        lemma_else_ifs_view(s.drop_last());
    }
}

/// Whether every statement of the block (and of the blocks nested in it)
/// passed validation, so that its jumps can be written.
pub open spec fn block_valid(b: BlockConstructV) -> bool
    decreases b,
{
    match b {
        BlockConstructV::Conditional(c) => {
            &&& spec_validate_statement(c.if_statement.operands) is None
            &&& body_valid(c.if_body)
            &&& else_ifs_valid(c.else_ifs)
            &&& match c.else_body {
                Some(body) => body_valid(body),
                None => true,
            }
        },
    }
}

pub open spec fn body_valid(s: Seq<BlockBodyLineV>) -> bool
    decreases s,
{
    if s.len() == 0 {
        true
    } else {
        body_valid(s.drop_last()) && match s.last() {
            BlockBodyLineV::Line(_) => true,
            BlockBodyLineV::NestedBlock(b) => block_valid(b),
        }
    }
}

pub open spec fn else_ifs_valid(s: Seq<(SemanticCompilerConstructV, Seq<BlockBodyLineV>)>) -> bool
    decreases s,
{
    if s.len() == 0 {
        true
    } else {
        &&& else_ifs_valid(s.drop_last())
        &&& spec_validate_statement(s.last().0.operands) is None
        &&& body_valid(s.last().1)
    }
}

/// The number of labels ids a block's expansion draws: one per block,
/// nested blocks included.
pub open spec fn block_ids(b: BlockConstructV) -> nat
    decreases b,
{
    match b {
        BlockConstructV::Conditional(c) => 1 + body_ids(c.if_body) + else_ifs_ids(c.else_ifs) + match c.else_body {
            Some(body) => body_ids(body),
            None => 0,
        },
    }
}

pub open spec fn body_ids(s: Seq<BlockBodyLineV>) -> nat
    decreases s,
{
    if s.len() == 0 {
        0
    } else {
        body_ids(s.drop_last()) + match s.last() {
            BlockBodyLineV::Line(_) => 0,
            BlockBodyLineV::NestedBlock(b) => block_ids(b),
        }
    }
}

pub open spec fn else_ifs_ids(s: Seq<(SemanticCompilerConstructV, Seq<BlockBodyLineV>)>) -> nat
    decreases s,
{
    if s.len() == 0 {
        0
    } else {
        else_ifs_ids(s.drop_last()) + body_ids(s.last().1)
    }
}

/// A label symbol with an unqualified name.
pub open spec fn label_symbol(name: Seq<char>) -> SemanticSymbolV {
    SemanticSymbolV { name: SymbolNameV { name, namespace: None }, external: false }
}

pub open spec fn if_label(id: Seq<char>) -> Seq<char> {
    seq!['_', 'c', 'g', '_', 'i', 'f', '_'] + id
}

pub open spec fn elif_label(id: Seq<char>, i: nat) -> Seq<char> {
    seq!['_', 'c', 'g', '_', 'e', 'l', 'i', 'f', '_'] + id + seq!['_'] + decimal_digits(i)
}

pub open spec fn else_label(id: Seq<char>) -> Seq<char> {
    seq!['_', 'c', 'g', '_', 'e', 'l', 's', 'e', '_'] + id
}

pub open spec fn endif_label(id: Seq<char>) -> Seq<char> {
    seq!['_', 'c', 'g', '_', 'e', 'n', 'd', 'i', 'f', '_'] + id
}

/// An operand naming a label, without offset.
pub open spec fn label_operand(sym: SemanticSymbolV) -> SemanticOperandV {
    SemanticOperandV::Immediate(SemanticImmediateTypeV::Label(sym, 0))
}

/// A jump to a label.
pub open spec fn jump_to(sym: SemanticSymbolV) -> SemanticReprV {
    instr(OpcodeMnemonic::Jmp, seq![label_operand(sym)])
}

/// The comparison and conditional jump a statement stands for.
pub open spec fn statement_jump(c: SemanticCompilerConstructV, target: SemanticSymbolV) -> Seq<SemanticReprV> {
    let m = match c.operands[2] {
        SemanticOperandV::Mnemonic(m) => m,
        _ => OpcodeMnemonic::Jmp,
    };
    seq![
        instr(OpcodeMnemonic::Cmp, seq![c.operands[0], c.operands[1]]),
        instr(m, seq![label_operand(target)]),
    ]
}

/// The jumps of the `@elseif` statements of the block with label id `id`.
pub open spec fn else_if_jumps(s: Seq<(SemanticCompilerConstructV, Seq<BlockBodyLineV>)>, id: Seq<char>) -> Seq<SemanticReprV>
    decreases s.len(),
{
    if s.len() == 0 {
        Seq::empty()
    } else {
        else_if_jumps(s.drop_last(), id) + statement_jump(s.last().0, label_symbol(elif_label(id, (s.len() - 1) as nat)))
    }
}

/// The lines a block expands to, given the label ids it draws, in the
/// order it draws them (its own first, then those of its nested blocks).
pub open spec fn expand_block(b: BlockConstructV, ids: Seq<Seq<char>>) -> Seq<SemanticReprV>
    decreases b,
{
    match b {
        BlockConstructV::Conditional(c) => {
            let id = ids[0];
            let if_sym = label_symbol(if_label(id));
            let else_sym = label_symbol(else_label(id));
            let end_sym = label_symbol(endif_label(id));
            let n_if = body_ids(c.if_body) as int;
            let n_elifs = else_ifs_ids(c.else_ifs) as int;
            let jumps = statement_jump(c.if_statement, if_sym) + else_if_jumps(c.else_ifs, id) + if c.else_body is Some {
                seq![jump_to(else_sym)]
            } else {
                Seq::empty()
            };
            let if_part = seq![SemanticReprV::Label(if_sym)] + expand_body(c.if_body, ids.subrange(1, 1 + n_if))
                + seq![jump_to(end_sym)];
            let elif_part = expand_else_ifs(c.else_ifs, id, ids.subrange(1 + n_if, 1 + n_if + n_elifs), end_sym);
            let else_part = match c.else_body {
                Some(body) => seq![SemanticReprV::Label(else_sym)] + expand_body(
                    body,
                    ids.subrange(1 + n_if + n_elifs, ids.len() as int),
                ) + seq![jump_to(end_sym)],
                None => Seq::empty(),
            };
            jumps + if_part + elif_part + else_part + seq![SemanticReprV::Label(end_sym)]
        },
    }
}

/// The lines a block body expands to, given the label ids its nested
/// blocks draw, in order.
pub open spec fn expand_body(s: Seq<BlockBodyLineV>, ids: Seq<Seq<char>>) -> Seq<SemanticReprV>
    decreases s,
{
    if s.len() == 0 {
        Seq::empty()
    } else {
        let k = body_ids(s.drop_last());
        expand_body(s.drop_last(), ids.subrange(0, k as int)) + match s.last() {
            BlockBodyLineV::Line(l) => seq![l],
            BlockBodyLineV::NestedBlock(b) => expand_block(b, ids.subrange(k as int, ids.len() as int)),
        }
    }
}

/// The labelled bodies of the `@elseif` parts, each ending in a jump to `end`.
pub open spec fn expand_else_ifs(
    s: Seq<(SemanticCompilerConstructV, Seq<BlockBodyLineV>)>,
    id: Seq<char>,
    ids: Seq<Seq<char>>,
    end: SemanticSymbolV,
) -> Seq<SemanticReprV>
    decreases s,
{
    if s.len() == 0 {
        Seq::empty()
    } else {
        let k = else_ifs_ids(s.drop_last());
        expand_else_ifs(s.drop_last(), id, ids.subrange(0, k as int), end) + seq![
            SemanticReprV::Label(label_symbol(elif_label(id, (s.len() - 1) as nat))),
        ] + expand_body(s.last().1, ids.subrange(k as int, ids.len() as int)) + seq![jump_to(end)]
    }
}

/// Whether `id` has the form of a generated label id: 32 lowercase
/// hexadecimal digits.
pub open spec fn is_label_id(id: Seq<char>) -> bool {
    id.len() == 32 && forall|i: int| 0 <= i < 32 ==> is_lower_hex(#[trigger] id[i])
}

/// Whether every id of `ids` has the form of a generated label id.
pub open spec fn all_label_ids(ids: Seq<Seq<char>>) -> bool {
    forall|i: int| 0 <= i < ids.len() ==> is_label_id(#[trigger] ids[i])
}


pub proof fn lemma_body_valid(s: Seq<BlockBodyLineV>)
    requires
        body_valid(s),
    ensures
        forall|i: int| 0 <= i < s.len() ==> match #[trigger] s[i] {
            BlockBodyLineV::NestedBlock(b) => block_valid(b),
            _ => true,
        },
    decreases s.len(),
{
    if s.len() > 0 {
        lemma_body_valid(s.drop_last());
        assert forall|i: int| 0 <= i < s.len() implies match #[trigger] s[i] {
            BlockBodyLineV::NestedBlock(b) => block_valid(b),
            _ => true,
        } by {
            if i < s.len() - 1 {
                assert(s[i] == s.drop_last()[i]);
            }
        }
    }
}

pub proof fn lemma_else_ifs_valid(s: Seq<(SemanticCompilerConstructV, Seq<BlockBodyLineV>)>)
    requires
        else_ifs_valid(s),
    ensures
        forall|i: int| 0 <= i < s.len() ==> spec_validate_statement((#[trigger] s[i]).0.operands) is None && body_valid(s[i].1),
    decreases s.len(),
{
    if s.len() > 0 {
        lemma_else_ifs_valid(s.drop_last());
        assert forall|i: int| 0 <= i < s.len() implies spec_validate_statement((#[trigger] s[i]).0.operands) is None && body_valid(s[i].1) by {
            if i < s.len() - 1 {
                assert(s[i] == s.drop_last()[i]);
            }
        }
    }
}

/// Builds the label symbol `prefix ++ id ++ suffix`.
fn make_label(prefix: &[char], id: &[char], suffix: &[char]) -> (r: SemanticSymbol)
    ensures
        r@ == label_symbol(prefix@ + id@ + suffix@),
{
    let mut v: Vec<char> = Vec::new();
    for i in 0..prefix.len()
        invariant
            v@ == prefix@.subrange(0, i as int),
    {
        v.push(prefix[i]);
        assert(prefix@.subrange(0, i + 1) =~= prefix@.subrange(0, i as int).push(prefix@[i as int]));
    }
    for i in 0..id.len()
        invariant
            v@ == prefix@ + id@.subrange(0, i as int),
    {
        v.push(id[i]);
        assert(prefix@ + id@.subrange(0, i + 1) =~= (prefix@ + id@.subrange(0, i as int)).push(id@[i as int]));
    }
    for i in 0..suffix.len()
        invariant
            v@ == prefix@ + id@ + suffix@.subrange(0, i as int),
    {
        v.push(suffix[i]);
        assert(prefix@ + id@ + suffix@.subrange(0, i + 1) =~= (prefix@ + id@ + suffix@.subrange(0, i as int)).push(suffix@[i as int]));
    }
    proof {
        assert(prefix@.subrange(0, prefix@.len() as int) =~= prefix@);
        assert(id@.subrange(0, id@.len() as int) =~= id@);
        assert(suffix@.subrange(0, suffix@.len() as int) =~= suffix@);
    }
    let name = string_of(v.as_slice());
    SemanticSymbol::local(name.as_str())
}

/// The label `_cg_elif_<id>_<i>`.
fn make_elif_label(id: &[char], i: usize) -> (r: SemanticSymbol)
    ensures
        r@ == label_symbol(elif_label(id@, i as nat)),
{
    let digits = unsigned_text(i as u64);
    let dv = chars_of(digits.as_str());
    let mut suffix: Vec<char> = Vec::new();
    suffix.push('_');
    for k in 0..dv.len()
        invariant
            suffix@ == seq!['_'] + dv@.subrange(0, k as int),
    {
        suffix.push(dv[k]);
        assert(seq!['_'] + dv@.subrange(0, k + 1) =~= (seq!['_'] + dv@.subrange(0, k as int)).push(dv@[k as int]));
    }
    assert(dv@.subrange(0, dv@.len() as int) =~= dv@);
    let prefix: &[char] = &['_', 'c', 'g', '_', 'e', 'l', 'i', 'f', '_'];
    assert(prefix@ =~= seq!['_', 'c', 'g', '_', 'e', 'l', 'i', 'f', '_']);
    let r = make_label(prefix, id, suffix.as_slice());
    assert(prefix@ + id@ + suffix@ =~= elif_label(id@, i as nat));
    r
}

/// Appends the comparison and conditional jump of a validated statement.
fn push_statement_jump(out: &mut Vec<SemanticRepr>, construct: &SemanticCompilerConstruct, target: &SemanticSymbol)
    requires
        spec_validate_statement(construct@.operands) is None,
    ensures
        reprs_view(final(out)@) == reprs_view(old(out)@) + statement_jump(construct@, target@),
{
    let operands = &construct.operands;
    assert(construct@.operands[0] == operands@[0]@ && construct@.operands[1] == operands@[1]@ && construct@.operands[2] == operands@[2]@);
    let ghost before = reprs_view(out@);
    push_instruction(out, OpcodeMnemonic::Cmp, operands2(operands[0].duplicate(), operands[1].duplicate()));
    let mnemonic = match &operands[2] {
        SemanticOperand::Mnemonic(m) => *m,
        _ => OpcodeMnemonic::Jmp,
    };
    push_instruction(out, mnemonic, operands1(SemanticOperand::Immediate(SemanticImmediateType::Label(target.duplicate(), 0))));
    assert(reprs_view(out@) =~= before + statement_jump(construct@, target@));
}

/// Appends a jump to `target`.
fn push_jump(out: &mut Vec<SemanticRepr>, target: &SemanticSymbol)
    ensures
        reprs_view(final(out)@) == reprs_view(old(out)@).push(jump_to(target@)),
{
    push_instruction(out, OpcodeMnemonic::Jmp, operands1(SemanticOperand::Immediate(SemanticImmediateType::Label(target.duplicate(), 0))));
}

/// Appends a label line.
fn push_label(out: &mut Vec<SemanticRepr>, label: &SemanticSymbol)
    ensures
        reprs_view(final(out)@) == reprs_view(old(out)@).push(SemanticReprV::Label(label@)),
{
    out.push(SemanticRepr::Label(label.duplicate()));
    assert(reprs_view(out@) =~= reprs_view(old(out)@).push(SemanticReprV::Label(label@)));
}

/// The lines a body line expands to, given the label ids it draws.
pub open spec fn expand_line(l: BlockBodyLineV, ids: Seq<Seq<char>>) -> Seq<SemanticReprV> {
    match l {
        BlockBodyLineV::Line(r) => seq![r],
        BlockBodyLineV::NestedBlock(b) => expand_block(b, ids),
    }
}

/// The number of label ids a body line draws.
pub open spec fn line_ids(l: BlockBodyLineV) -> nat {
    match l {
        BlockBodyLineV::Line(_) => 0,
        BlockBodyLineV::NestedBlock(b) => block_ids(b),
    }
}

proof fn lemma_expand_body_push(prefix: Seq<BlockBodyLineV>, l: BlockBodyLineV, ids: Seq<Seq<char>>, new_ids: Seq<Seq<char>>)
    requires
        ids.len() == body_ids(prefix),
        new_ids.len() == line_ids(l),
    ensures
        body_ids(prefix.push(l)) == ids.len() + new_ids.len(),
        expand_body(prefix.push(l), ids + new_ids) == expand_body(prefix, ids) + expand_line(l, new_ids),
{
    let next = prefix.push(l);
    let all = ids + new_ids;
    assert(next.drop_last() =~= prefix);
    assert(all.subrange(0, ids.len() as int) =~= ids);
    assert(all.subrange(ids.len() as int, all.len() as int) =~= new_ids);
}

proof fn lemma_expand_else_ifs_push(
    prefix: Seq<(SemanticCompilerConstructV, Seq<BlockBodyLineV>)>,
    e: (SemanticCompilerConstructV, Seq<BlockBodyLineV>),
    id: Seq<char>,
    ids: Seq<Seq<char>>,
    new_ids: Seq<Seq<char>>,
    end: SemanticSymbolV,
)
    requires
        ids.len() == else_ifs_ids(prefix),
        new_ids.len() == body_ids(e.1),
    ensures
        else_ifs_ids(prefix.push(e)) == ids.len() + new_ids.len(),
        expand_else_ifs(prefix.push(e), id, ids + new_ids, end) == expand_else_ifs(prefix, id, ids, end) + seq![
            SemanticReprV::Label(label_symbol(elif_label(id, prefix.len()))),
        ] + expand_body(e.1, new_ids) + seq![jump_to(end)],
        else_if_jumps(prefix.push(e), id) == else_if_jumps(prefix, id) + statement_jump(e.0, label_symbol(elif_label(id, prefix.len()))),
{
    let next = prefix.push(e);
    let all = ids + new_ids;
    assert(next.drop_last() =~= prefix);
    assert(all.subrange(0, ids.len() as int) =~= ids);
    assert(all.subrange(ids.len() as int, all.len() as int) =~= new_ids);
}

proof fn lemma_else_if_jumps_push(
    prefix: Seq<(SemanticCompilerConstructV, Seq<BlockBodyLineV>)>,
    e: (SemanticCompilerConstructV, Seq<BlockBodyLineV>),
    id: Seq<char>,
)
    ensures
        else_if_jumps(prefix.push(e), id) == else_if_jumps(prefix, id) + statement_jump(e.0, label_symbol(elif_label(id, prefix.len()))),
{
    assert(prefix.push(e).drop_last() =~= prefix);
}

/// The expansion of a conditional block, part by part.
proof fn lemma_expand_conditional(
    cv: ConditionalV,
    idv: Seq<char>,
    if_ids: Seq<Seq<char>>,
    elif_ids: Seq<Seq<char>>,
    else_ids: Seq<Seq<char>>,
)
    requires
        if_ids.len() == body_ids(cv.if_body),
        elif_ids.len() == else_ifs_ids(cv.else_ifs),
    ensures
        ({
            let all = seq![idv] + if_ids + elif_ids + else_ids;
            let if_sym = label_symbol(if_label(idv));
            let else_sym = label_symbol(else_label(idv));
            let end_sym = label_symbol(endif_label(idv));
            expand_block(BlockConstructV::Conditional(cv), all) == statement_jump(cv.if_statement, if_sym)
                + else_if_jumps(cv.else_ifs, idv) + (if cv.else_body is Some {
                seq![jump_to(else_sym)]
            } else {
                Seq::empty()
            }) + (seq![SemanticReprV::Label(if_sym)] + expand_body(cv.if_body, if_ids) + seq![jump_to(end_sym)])
                + expand_else_ifs(cv.else_ifs, idv, elif_ids, end_sym) + (match cv.else_body {
                Some(body) => seq![SemanticReprV::Label(else_sym)] + expand_body(body, else_ids) + seq![jump_to(end_sym)],
                None => Seq::empty(),
            }) + seq![SemanticReprV::Label(end_sym)]
        }),
{
    let all = seq![idv] + if_ids + elif_ids + else_ids;
    let n_if = if_ids.len() as int;
    let n_el = elif_ids.len() as int;
    assert(all[0] == idv);
    assert(all.subrange(1, 1 + n_if) =~= if_ids);
    assert(all.subrange(1 + n_if, 1 + n_if + n_el) =~= elif_ids);
    assert(all.subrange(1 + n_if + n_el, all.len() as int) =~= else_ids);
}

proof fn lemma_body_view_push(body: Seq<BlockBodyLine>, j: int)
    requires
        0 <= j < body.len(),
    ensures
        body_view(body.subrange(0, j + 1)) == body_view(body.subrange(0, j)).push(line_view(body[j])),
{
    assert(body.subrange(0, j + 1).drop_last() =~= body.subrange(0, j));
}

proof fn lemma_else_ifs_view_push(v: Seq<(SemanticCompilerConstruct, Vec<BlockBodyLine>)>, j: int)
    requires
        0 <= j < v.len(),
    ensures
        else_ifs_view(v.subrange(0, j + 1)) == else_ifs_view(v.subrange(0, j)).push((v[j].0@, body_view(v[j].1@))),
{
    assert(v.subrange(0, j + 1).drop_last() =~= v.subrange(0, j));
}

proof fn lemma_all_label_ids_concat(a: Seq<Seq<char>>, b: Seq<Seq<char>>)
    requires
        all_label_ids(a),
        all_label_ids(b),
    ensures
        all_label_ids(a + b),
{
    assert forall|k: int| 0 <= k < (a + b).len() implies is_label_id(#[trigger] (a + b)[k]) by {
        if k < a.len() {
            assert((a + b)[k] == a[k]);
        } else {
            assert((a + b)[k] == b[k - a.len()]);
        }
    }
}

/// Appends the labelled body `body`, ending in a jump to `end`; returns
/// the label ids its nested blocks drew.
fn push_body(
    out: &mut Vec<SemanticRepr>,
    start_label: &SemanticSymbol,
    body: &Vec<BlockBodyLine>,
    end_label: &SemanticSymbol,
) -> (ids: Ghost<Seq<Seq<char>>>)
    requires
        body_valid(body_view(body@)),
    ensures
        ids@.len() == body_ids(body_view(body@)),
        all_label_ids(ids@),
        reprs_view(final(out)@) == reprs_view(old(out)@) + seq![SemanticReprV::Label(start_label@)]
            + expand_body(body_view(body@), ids@) + seq![jump_to(end_label@)],
    decreases body@,
{
    push_label(out, start_label);
    let ghost base = reprs_view(out@);
    let ghost mut ids: Seq<Seq<char>> = Seq::empty();
    let ghost bv = body_view(body@);
    proof {
        lemma_body_view(body@);
        lemma_body_valid(bv);
        assert(body@.subrange(0, 0) =~= Seq::<BlockBodyLine>::empty());
        assert(reprs_view(out@) =~= base + expand_body(body_view(body@.subrange(0, 0)), ids));
    }
    for j in 0..body.len()
        invariant
            bv == body_view(body@),
            bv.len() == body@.len(),
            forall|i: int| 0 <= i < body@.len() ==> #[trigger] bv[i] == line_view(body@[i]),
            forall|i: int| 0 <= i < bv.len() ==> match #[trigger] bv[i] {
                BlockBodyLineV::NestedBlock(b) => block_valid(b),
                _ => true,
            },
            ids.len() == body_ids(body_view(body@.subrange(0, j as int))),
            all_label_ids(ids),
            reprs_view(out@) == base + expand_body(body_view(body@.subrange(0, j as int)), ids),
    {
        let ghost prefix = body_view(body@.subrange(0, j as int));
        let ghost before = reprs_view(out@);
        let ghost lv = bv[j as int];
        proof {
            lemma_body_view_push(body@, j as int);
        }
        let ghost new_ids: Seq<Seq<char>>;
        match &body[j] {
            BlockBodyLine::Line(line) => {
                out.push(line.duplicate());
                proof {
                    new_ids = Seq::empty();
                    assert(reprs_view(out@) =~= before + expand_line(lv, new_ids));
                }
            },
            BlockBodyLine::NestedBlock(block) => {
                assert(lv == BlockBodyLineV::NestedBlock(block_view(*block)));
                let Ghost(got) = block.expand(out);
                proof {
                    new_ids = got;
                }
            },
        }
        proof {
            lemma_expand_body_push(prefix, lv, ids, new_ids);
            lemma_all_label_ids_concat(ids, new_ids);
            ids = ids + new_ids;
        }
    }
    proof {
        assert(body@.subrange(0, body@.len() as int) =~= body@);
    }
    push_jump(out, end_label);
    assert(reprs_view(out@) =~= reprs_view(old(out)@) + seq![SemanticReprV::Label(start_label@)]
        + expand_body(body_view(body@), ids) + seq![jump_to(end_label@)]);
    Ghost(ids)
}

/// Appends the jumps of the `@elseif` statements.
fn push_else_if_jumps(out: &mut Vec<SemanticRepr>, else_ifs: &Vec<(SemanticCompilerConstruct, Vec<BlockBodyLine>)>, id: &[char])
    requires
        else_ifs_valid(else_ifs_view(else_ifs@)),
    ensures
        reprs_view(final(out)@) == reprs_view(old(out)@) + else_if_jumps(else_ifs_view(else_ifs@), id@),
{
    let ghost start = reprs_view(out@);
    let ghost ev = else_ifs_view(else_ifs@);
    proof {
        lemma_else_ifs_view(else_ifs@);
        lemma_else_ifs_valid(ev);
        assert(else_ifs@.subrange(0, 0) =~= Seq::<(SemanticCompilerConstruct, Vec<BlockBodyLine>)>::empty());
        assert(reprs_view(out@) =~= start + else_if_jumps(else_ifs_view(else_ifs@.subrange(0, 0)), id@));
    }
    for i in 0..else_ifs.len()
        invariant
            ev == else_ifs_view(else_ifs@),
            ev.len() == else_ifs@.len(),
            forall|k: int| 0 <= k < ev.len() ==> #[trigger] ev[k] == (else_ifs@[k].0@, body_view(else_ifs@[k].1@)),
            forall|k: int| 0 <= k < ev.len() ==> spec_validate_statement((#[trigger] ev[k]).0.operands) is None && body_valid(ev[k].1),
            reprs_view(out@) == start + else_if_jumps(else_ifs_view(else_ifs@.subrange(0, i as int)), id@),
    {
        let elif_symbol = make_elif_label(id, i);
        let ghost prefix = else_ifs_view(else_ifs@.subrange(0, i as int));
        let ghost e = ev[i as int];
        let ghost before = reprs_view(out@);
        proof {
            lemma_else_ifs_view_push(else_ifs@, i as int);
            assert(prefix.len() == i) by {
                lemma_else_ifs_view(else_ifs@.subrange(0, i as int));
            }
        }
        push_statement_jump(out, &else_ifs[i].0, &elif_symbol);
        proof {
            lemma_else_if_jumps_push(prefix, e, id@);
            assert(reprs_view(out@) =~= before + statement_jump(e.0, label_symbol(elif_label(id@, prefix.len()))));
        }
    }
    assert(else_ifs@.subrange(0, else_ifs@.len() as int) =~= else_ifs@);
}

/// Appends the labelled bodies of the `@elseif` parts; returns the label
/// ids their nested blocks drew.
fn push_else_if_bodies(
    out: &mut Vec<SemanticRepr>,
    else_ifs: &Vec<(SemanticCompilerConstruct, Vec<BlockBodyLine>)>,
    id: &[char],
    end_label: &SemanticSymbol,
) -> (ids: Ghost<Seq<Seq<char>>>)
    requires
        else_ifs_valid(else_ifs_view(else_ifs@)),
    ensures
        ids@.len() == else_ifs_ids(else_ifs_view(else_ifs@)),
        all_label_ids(ids@),
        reprs_view(final(out)@) == reprs_view(old(out)@) + expand_else_ifs(else_ifs_view(else_ifs@), id@, ids@, end_label@),
    decreases else_ifs@,
{
    let ghost start = reprs_view(out@);
    let ghost ev = else_ifs_view(else_ifs@);
    let ghost mut ids: Seq<Seq<char>> = Seq::empty();
    proof {
        lemma_else_ifs_view(else_ifs@);
        lemma_else_ifs_valid(ev);
        assert(else_ifs@.subrange(0, 0) =~= Seq::<(SemanticCompilerConstruct, Vec<BlockBodyLine>)>::empty());
        assert(reprs_view(out@) =~= start + expand_else_ifs(else_ifs_view(else_ifs@.subrange(0, 0)), id@, ids, end_label@));
    }
    for i in 0..else_ifs.len()
        invariant
            ev == else_ifs_view(else_ifs@),
            ev.len() == else_ifs@.len(),
            forall|k: int| 0 <= k < ev.len() ==> #[trigger] ev[k] == (else_ifs@[k].0@, body_view(else_ifs@[k].1@)),
            forall|k: int| 0 <= k < ev.len() ==> spec_validate_statement((#[trigger] ev[k]).0.operands) is None && body_valid(ev[k].1),
            ids.len() == else_ifs_ids(else_ifs_view(else_ifs@.subrange(0, i as int))),
            all_label_ids(ids),
            reprs_view(out@) == start + expand_else_ifs(else_ifs_view(else_ifs@.subrange(0, i as int)), id@, ids, end_label@),
    {
        let elif_symbol = make_elif_label(id, i);
        let ghost prefix = else_ifs_view(else_ifs@.subrange(0, i as int));
        let ghost e = ev[i as int];
        let ghost before = reprs_view(out@);
        proof {
            lemma_else_ifs_view_push(else_ifs@, i as int);
            assert(prefix.len() == i) by {
                lemma_else_ifs_view(else_ifs@.subrange(0, i as int));
            }
        }
        let Ghost(got) = push_body(out, &elif_symbol, &else_ifs[i].1, end_label);
        proof {
            lemma_expand_else_ifs_push(prefix, e, id@, ids, got, end_label@);
            lemma_all_label_ids_concat(ids, got);
            ids = ids + got;
        }
    }
    assert(else_ifs@.subrange(0, else_ifs@.len() as int) =~= else_ifs@);
    Ghost(ids)
}

impl BlockConstruct {
    /// Appends the lines the block expands to; returns the label ids drawn.
    pub fn expand(&self, out: &mut Vec<SemanticRepr>) -> (ids: Ghost<Seq<Seq<char>>>)
        requires
            block_valid(self@),
        ensures
            ids@.len() == block_ids(self@),
            all_label_ids(ids@),
            reprs_view(final(out)@) == reprs_view(old(out)@) + expand_block(self@, ids@),
        decreases self,
    {
        match self {
            BlockConstruct::Conditional(c) => c.expand(out),
        }
    }
}

impl BlockConstructConditional {
    /// Appends the lines the block expands to: the statement jumps, each
    /// labelled body ending in a jump to the end label, and the end label.
    /// Its own label id is drawn first, then those of nested blocks.
    #[verifier::spinoff_prover]
    #[verifier::rlimit(80)]
    pub fn expand(&self, out: &mut Vec<SemanticRepr>) -> (ids: Ghost<Seq<Seq<char>>>)
        requires
            block_valid(BlockConstructV::Conditional(self@)),
        ensures
            ids@.len() == block_ids(BlockConstructV::Conditional(self@)),
            all_label_ids(ids@),
            reprs_view(final(out)@) == reprs_view(old(out)@) + expand_block(BlockConstructV::Conditional(self@), ids@),
        decreases self,
    {
        let ghost cv = self@;
        let ghost start = reprs_view(out@);
        assert(cv.if_body == body_view(self.if_body@));
        assert(cv.else_ifs == else_ifs_view(self.else_if_statements@));
        assert(spec_validate_statement(cv.if_statement.operands) is None);
        assert(body_valid(cv.if_body));
        assert(else_ifs_valid(cv.else_ifs));
        let id_text = random_internal_label();
        let id = chars_of(id_text.as_str());
        let ghost idv = id@;
        let if_prefix: &[char] = &['_', 'c', 'g', '_', 'i', 'f', '_'];
        let else_prefix: &[char] = &['_', 'c', 'g', '_', 'e', 'l', 's', 'e', '_'];
        let end_prefix: &[char] = &['_', 'c', 'g', '_', 'e', 'n', 'd', 'i', 'f', '_'];
        let empty: &[char] = &[];
        proof {
            assert(if_prefix@ + idv + empty@ =~= if_label(idv));
            assert(else_prefix@ + idv + empty@ =~= else_label(idv));
            assert(end_prefix@ + idv + empty@ =~= endif_label(idv));
        }
        let if_symbol = make_label(if_prefix, id.as_slice(), empty);
        let else_symbol = make_label(else_prefix, id.as_slice(), empty);
        let endif_symbol = make_label(end_prefix, id.as_slice(), empty);
        push_statement_jump(out, &self.if_statement, &if_symbol);
        let ghost s1 = reprs_view(out@);
        push_else_if_jumps(out, &self.else_if_statements, id.as_slice());
        let ghost s2 = reprs_view(out@);
        if self.else_statement.is_some() {
            push_jump(out, &else_symbol);
        }
        let ghost s3 = reprs_view(out@);
        let Ghost(if_ids) = push_body(out, &if_symbol, &self.if_body, &endif_symbol);
        let ghost s4 = reprs_view(out@);
        let Ghost(elif_ids) = push_else_if_bodies(out, &self.else_if_statements, id.as_slice(), &endif_symbol);
        let ghost s5 = reprs_view(out@);
        let ghost mut else_ids: Seq<Seq<char>> = Seq::empty();
        if let Some(body) = &self.else_statement {
            let Ghost(got) = push_body(out, &else_symbol, body, &endif_symbol);
            proof {
                else_ids = got;
            }
        }
        let ghost s6 = reprs_view(out@);
        push_label(out, &endif_symbol);
        let ghost all = seq![idv] + if_ids + elif_ids + else_ids;
        proof {
            lemma_expand_conditional(cv, idv, if_ids, elif_ids, else_ids);
            let else_part: Seq<SemanticReprV> = match cv.else_body {
                Some(body) => seq![SemanticReprV::Label(else_symbol@)] + expand_body(body, else_ids) + seq![jump_to(endif_symbol@)],
                None => Seq::empty(),
            };
            assert(s6 == s5 + else_part);
            assert(reprs_view(out@) =~= start + expand_block(BlockConstructV::Conditional(cv), all));
            assert(is_label_id(idv));
            assert(all_label_ids(seq![idv]));
            lemma_all_label_ids_concat(seq![idv], if_ids);
            lemma_all_label_ids_concat(seq![idv] + if_ids, elif_ids);
            lemma_all_label_ids_concat(seq![idv] + if_ids + elif_ids, else_ids);
        }
        Ghost(all)
    }
}


// ---------------------------------------------------------------------
// Reading conditional blocks.

/// The state of a conditional block being read.
pub struct ConditionalBuilderV {
    pub if_body: Seq<BlockBodyLineV>,
    pub elifs: Seq<(SemanticCompilerConstructV, Seq<BlockBodyLineV>)>,
    pub cur_elif: Option<SemanticCompilerConstructV>,
    pub cur_elif_body: Seq<BlockBodyLineV>,
    pub has_else: bool,
    pub else_body: Seq<BlockBodyLineV>,
}

/// A builder with nothing read yet.
pub open spec fn empty_conditional_builder() -> ConditionalBuilderV {
    ConditionalBuilderV {
        if_body: Seq::empty(),
        elifs: Seq::empty(),
        cur_elif: None,
        cur_elif_body: Seq::empty(),
        has_else: false,
        else_body: Seq::empty(),
    }
}

/// Adds a line to the part being read: the current `@elseif` part if
/// there is one, else the `@else` part once it has begun, else the `@if`
/// part.
pub open spec fn builder_push_line(b: ConditionalBuilderV, l: BlockBodyLineV) -> ConditionalBuilderV {
    if b.cur_elif is Some {
        ConditionalBuilderV { cur_elif_body: b.cur_elif_body.push(l), ..b }
    } else if b.has_else {
        ConditionalBuilderV { else_body: b.else_body.push(l), ..b }
    } else {
        ConditionalBuilderV { if_body: b.if_body.push(l), ..b }
    }
}

/// Closes the current `@elseif` part, if any, and opens one for `c`.
pub open spec fn builder_next_elif(b: ConditionalBuilderV, c: SemanticCompilerConstructV) -> ConditionalBuilderV {
    let b1 = match b.cur_elif {
        Some(s) => ConditionalBuilderV { elifs: b.elifs.push((s, b.cur_elif_body)), cur_elif_body: Seq::empty(), ..b },
        None => b,
    };
    ConditionalBuilderV { cur_elif: Some(c), ..b1 }
}

/// The block read, with `if_statement` as its statement.
pub open spec fn builder_build(b: ConditionalBuilderV, if_statement: SemanticCompilerConstructV) -> ConditionalV {
    ConditionalV {
        if_statement,
        if_body: b.if_body,
        else_ifs: match b.cur_elif {
            Some(s) => b.elifs.push((s, b.cur_elif_body)),
            None => b.elifs,
        },
        else_body: if b.has_else { Some(b.else_body) } else { None },
    }
}

/// Whether every part read so far is valid.
pub open spec fn builder_valid(b: ConditionalBuilderV) -> bool {
    &&& body_valid(b.if_body)
    &&& else_ifs_valid(b.elifs)
    &&& match b.cur_elif {
        Some(s) => spec_validate_statement(s.operands) is None,
        None => true,
    }
    &&& body_valid(b.cur_elif_body)
    &&& body_valid(b.else_body)
}

/// Collects the parts of a conditional block as its lines are read.
#[derive(Debug)]
pub struct ConditionalBlockBuilder {
    if_body: Vec<BlockBodyLine>,
    elif_statements: Vec<(SemanticCompilerConstruct, Vec<BlockBodyLine>)>,
    cur_elif_statement: Option<SemanticCompilerConstruct>,
    cur_elif_body: Vec<BlockBodyLine>,
    has_else: bool,
    else_body: Vec<BlockBodyLine>,
}

impl View for ConditionalBlockBuilder {
    type V = ConditionalBuilderV;

    closed spec fn view(&self) -> ConditionalBuilderV {
        ConditionalBuilderV {
            if_body: body_view(self.if_body@),
            elifs: else_ifs_view(self.elif_statements@),
            cur_elif: match self.cur_elif_statement {
                Some(s) => Some(s@),
                None => None,
            },
            cur_elif_body: body_view(self.cur_elif_body@),
            has_else: self.has_else,
            else_body: body_view(self.else_body@),
        }
    }
}

proof fn lemma_body_view_of_push(v: Seq<BlockBodyLine>, x: BlockBodyLine)
    ensures
        body_view(v.push(x)) == body_view(v).push(line_view(x)),
{
    assert(v.push(x).drop_last() =~= v);
}

proof fn lemma_else_ifs_view_of_push(v: Seq<(SemanticCompilerConstruct, Vec<BlockBodyLine>)>, x: (SemanticCompilerConstruct, Vec<BlockBodyLine>))
    ensures
        else_ifs_view(v.push(x)) == else_ifs_view(v).push((x.0@, body_view(x.1@))),
{
    assert(v.push(x).drop_last() =~= v);
}

impl ConditionalBlockBuilder {
    /// A builder with nothing read yet.
    pub fn new() -> (r: Self)
        ensures
            r@ == empty_conditional_builder(),
    {
        let r = ConditionalBlockBuilder {
            if_body: Vec::new(),
            elif_statements: Vec::new(),
            cur_elif_statement: None,
            cur_elif_body: Vec::new(),
            has_else: false,
            else_body: Vec::new(),
        };
        proof {
            assert(r@.if_body =~= Seq::<BlockBodyLineV>::empty());
            assert(r@.elifs =~= Seq::<(SemanticCompilerConstructV, Seq<BlockBodyLineV>)>::empty());
        }
        r
    }

    /// Returns the block read, with `if_statement` as its statement.
    pub fn build(self, if_statement: &SemanticCompilerConstruct) -> (r: BlockConstructConditional)
        ensures
            r@ == builder_build(self@, if_statement@),
    {
        let mut elif_statements = self.elif_statements;
        let ghost before = elif_statements@;
        match self.cur_elif_statement {
            Some(s) => {
                let ghost sv = s@;
                let ghost bodyv = body_view(self.cur_elif_body@);
                let pair = (s, self.cur_elif_body);
                elif_statements.push(pair);
                proof {
                    lemma_else_ifs_view_of_push(before, pair);
                }
            },
            None => {},
        }
        let else_statement = if self.has_else {
            Some(self.else_body)
        } else {
            None
        };
        BlockConstructConditional {
            if_statement: if_statement.duplicate(),
            if_body: self.if_body,
            else_if_statements: elif_statements,
            else_statement,
        }
    }

    /// Adds a line to the part being read.
    pub fn push_line(&mut self, line: BlockBodyLine)
        ensures
            final(self)@ == builder_push_line(old(self)@, line@),
    {
        if self.cur_elif_statement.is_some() {
            proof {
                lemma_body_view_of_push(self.cur_elif_body@, line);
            }
            self.cur_elif_body.push(line);
        } else if self.has_else {
            proof {
                lemma_body_view_of_push(self.else_body@, line);
            }
            self.else_body.push(line);
        } else {
            proof {
                lemma_body_view_of_push(self.if_body@, line);
            }
            self.if_body.push(line);
        }
    }

    /// Closes the current `@elseif` part, if any, and opens one for `elif_statement`.
    pub fn next_elif(&mut self, elif_statement: SemanticCompilerConstruct)
        ensures
            final(self)@ == builder_next_elif(old(self)@, elif_statement@),
    {
        if let Some(cur) = self.cur_elif_statement.take() {
            let mut body: Vec<BlockBodyLine> = Vec::new();
            core::mem::swap(&mut body, &mut self.cur_elif_body);
            let ghost before = self.elif_statements@;
            let pair = (cur, body);
            self.elif_statements.push(pair);
            proof {
                lemma_else_ifs_view_of_push(before, pair);
                assert(body_view(self.cur_elif_body@) =~= Seq::<BlockBodyLineV>::empty());
            }
        }
        self.cur_elif_statement = Some(elif_statement);
    }

    /// Returns whether the `@else` part has begun.
    pub fn is_else(&self) -> (r: bool)
        ensures
            r == self@.has_else,
    {
        self.has_else
    }

    fn set_else(&mut self)
        ensures
            final(self)@ == (ConditionalBuilderV { has_else: true, ..old(self)@ }),
    {
        self.has_else = true;
    }
}

// ---------------------------------------------------------------------
// Reading blocks from source lines.

/// Adds each of `lines`, in order, to the part being read.
pub open spec fn builder_push_lines(b: ConditionalBuilderV, lines: Seq<SemanticReprV>) -> ConditionalBuilderV
    decreases lines.len(),
{
    if lines.len() == 0 {
        b
    } else {
        builder_push_line(builder_push_lines(b, lines.drop_last()), BlockBodyLineV::Line(lines.last()))
    }
}

/// The error that ends a block that `@end` never closes.
pub open spec fn unterminated(sl: int, c: SemanticCompilerConstructV) -> ConstructExpansionErrorDetailsV {
    details(
        ConstructExpansionErrorV::UnterminatedBlock { start_line: sl as nat, start_construct: c },
        SemanticReprV::CompilerConstruct(c),
        sl,
    )
}

/// Reads the block that the construct `c` opens from `src`, the lines
/// that follow it; `sl` is the line number that errors about the block
/// itself report. The result is the block and the number of lines it
/// took, its `@end` included. Only `@if` blocks can be read.
pub open spec fn spec_parse_block(src: Seq<SemanticReprV>, sl: int, c: SemanticCompilerConstructV) -> Result<(BlockConstructV, nat), ConstructExpansionErrorDetailsV>
    decreases src.len(), 2int, 0int,
{
    if c.opcode != CompilerConstruct::If {
        Err(details(ConstructExpansionErrorV::InvalidConstruct(c.opcode), SemanticReprV::CompilerConstruct(c), sl))
    } else {
        match spec_parse_conditional(src, sl, c) {
            Ok((cv, k)) => Ok((BlockConstructV::Conditional(cv), k)),
            Err(e) => Err(e),
        }
    }
}

/// Reads the `@if` block opened by `c` from `src`: its statement is
/// checked first, then its lines are read.
pub open spec fn spec_parse_conditional(src: Seq<SemanticReprV>, sl: int, c: SemanticCompilerConstructV) -> Result<(ConditionalV, nat), ConstructExpansionErrorDetailsV>
    decreases src.len(), 1int, 0int,
{
    match spec_validate_statement(c.operands) {
        Some(e) => Err(details(e, SemanticReprV::CompilerConstruct(c), sl)),
        None => spec_read_conditional(src, sl, c, 0, empty_conditional_builder()),
    }
}

/// Reads the lines of an `@if` block from index `i` on, with `b` holding
/// what was read before. A line that is no construct goes into the part
/// being read; a nested block is read whole; `@else` and `@elseif` open
/// new parts; other constructs are expanded in place; `@end` closes the
/// block. Error line numbers count from `sl`.
pub open spec fn spec_read_conditional(
    src: Seq<SemanticReprV>,
    sl: int,
    c: SemanticCompilerConstructV,
    i: int,
    b: ConditionalBuilderV,
) -> Result<(ConditionalV, nat), ConstructExpansionErrorDetailsV>
    decreases src.len(), 0int, src.len() - i,
{
    if i < 0 || i >= src.len() {
        Err(unterminated(sl, c))
    } else {
        let line = src[i];
        match line {
            SemanticReprV::CompilerConstruct(c2) => if c2.opcode == CompilerConstruct::BlockEnd {
                Ok((builder_build(b, c), (i + 1) as nat))
            } else if c2.opcode.spec_is_block_start() {
                match spec_parse_block(src.subrange(i + 1, src.len() as int), sl + i + 1, c2) {
                    Ok((nb, k)) => if i + 1 + k > src.len() {
                        // never taken: a nested block ends within the lines it is read from
                        Err(unterminated(sl, c))
                    } else {
                        spec_read_conditional(src, sl, c, i + 1 + k, builder_push_line(b, BlockBodyLineV::NestedBlock(nb)))
                    },
                    Err(e) => Err(e),
                }
            } else if c2.opcode == CompilerConstruct::Else {
                if b.has_else {
                    Err(details(ConstructExpansionErrorV::InvalidConstruct(c2.opcode), line, sl + i))
                } else if c2.operands.len() != 0 {
                    Err(details(
                        ConstructExpansionErrorV::ExpectedExactOperands { opcode: CompilerConstruct::Else, expected: 0 },
                        line,
                        sl + i,
                    ))
                } else {
                    spec_read_conditional(src, sl, c, i + 1, ConditionalBuilderV { has_else: true, ..b })
                }
            } else if c2.opcode == CompilerConstruct::ElseIf {
                if b.has_else {
                    Err(details(ConstructExpansionErrorV::InvalidConstruct(c2.opcode), line, sl + i))
                } else {
                    match spec_validate_statement(c2.operands) {
                        Some(e) => Err(details(e, SemanticReprV::CompilerConstruct(c2), sl)),
                        None => spec_read_conditional(src, sl, c, i + 1, builder_next_elif(b, c2)),
                    }
                }
            } else {
                match spec_expand_single(c2) {
                    Ok(lines) => spec_read_conditional(src, sl, c, i + 1, builder_push_lines(b, lines)),
                    Err(e) => Err(details(e, line, sl + i)),
                }
            },
            _ => spec_read_conditional(src, sl, c, i + 1, builder_push_line(b, BlockBodyLineV::Line(line))),
        }
    }
}

/// Whether every construct among `src` expands safely.
pub open spec fn all_expand_safely(src: Seq<SemanticReprV>) -> bool {
    forall|i: int| 0 <= i < src.len() ==> match #[trigger] src[i] {
        SemanticReprV::CompilerConstruct(c) => expands_safely(c),
        _ => true,
    }
}

fn getarg_expands_safely(c: &SemanticCompilerConstruct) -> (r: bool)
    ensures
        r == (c@.opcode == CompilerConstruct::GetArg && c@.operands.len() == 2 && c@.operands[0] is Register ==>
            match c@.operands[1] {
                SemanticOperandV::Immediate(SemanticImmediateTypeV::Literal(lit)) => {
                    &&& !(lit is String)
                    &&& (!lit.to_data_type().data_type().spec_is_floating_point()
                        ==> lit.to_data_type().as_int()->0 <= i64::MAX - 16)
                },
                _ => true,
            }),
{
    if !(c.opcode == CompilerConstruct::GetArg && c.operands.len() == 2 && c.operands[0].is_register()) {
        return true;
    }
    proof {
        assert(c@.operands[0] == c.operands@[0]@);
        assert(c@.operands[1] == c.operands@[1]@);
    }
    match &c.operands[1] {
        SemanticOperand::Immediate(SemanticImmediateType::Literal(lit)) => {
            if let crate::semantic::SemanticLiteral::String(_) = lit {
                return false;
            }
            let typed = lit.to_data_type();
            if typed.data_type().is_floating_point() {
                true
            } else {
                match typed.as_int() {
                    Some(n) => n <= i64::MAX - 16,
                    None => false,
                }
            }
        },
        _ => true,
    }
}

fn engcall_expands_safely(c: &SemanticCompilerConstruct) -> (r: bool)
    ensures
        r == (c@.opcode == CompilerConstruct::EngineCall && c@.operands.len() >= 1 && c@.operands[0] is EngineParam ==>
            match first_bad_engcall_arg(c@.operands) {
                Some(i) => c@.operands[i].printable(),
                None => true,
            }),
{
    if !(c.opcode == CompilerConstruct::EngineCall && c.operands.len() >= 1) {
        return true;
    }
    let ghost ops = c@.operands;
    assert(ops[0] == c.operands@[0]@);
    match &c.operands[0] {
        SemanticOperand::EngineParam(_) => {},
        _ => {
            return true;
        },
    }
    let mut i: usize = 1;
    while i < c.operands.len()
        invariant
            ops == c@.operands,
            c@.opcode == CompilerConstruct::EngineCall,
            ops[0] is EngineParam,
            1 <= i <= ops.len(),
            forall|j: int| 1 <= j < i ==> (#[trigger] ops[j] is Immediate || ops[j] is Register),
        decreases ops.len() - i,
    {
        let operand = &c.operands[i];
        assert(ops[i as int] == c.operands@[i as int]@);
        if !(operand.is_immediate() || operand.is_register()) {
            proof {
                lemma_first_bad_prefix(ops, i as int);
                assert(first_bad_engcall_arg(ops.subrange(0, i + 1)) == Some(i as int));
                lemma_first_bad_extends(ops, i as int + 1);
                assert(first_bad_engcall_arg(ops) == Some(i as int));
            }
            return match operand {
                SemanticOperand::Deref(d) => d.offset != i64::MIN,
                _ => true,
            };
        }
        i += 1;
    }
    proof {
        lemma_first_bad_prefix(ops, ops.len() as int);
    }
    true
}

fn construct_expands_safely(c: &SemanticCompilerConstruct) -> (r: bool)
    ensures
        r == expands_safely(c@),
{
    getarg_expands_safely(c) && engcall_expands_safely(c)
}

/// Returns whether every compiler construct among `source` can be
/// expanded without leaving what the expansion can write: no `@getarg`
/// reads its argument number from a string, no argument number moves
/// the frame address past the 64-bit range, and no `@engcall` argument
/// that is refused has a dereference offset that cannot be written.
pub fn source_expands_safely(source: &[SemanticRepr]) -> (r: bool)
    ensures
        r == all_expand_safely(reprs_view(source@)),
{
    let ghost src = reprs_view(source@);
    for i in 0..source.len()
        invariant
            src == reprs_view(source@),
            forall|j: int| 0 <= j < i ==> match #[trigger] src[j] {
                SemanticReprV::CompilerConstruct(c) => expands_safely(c),
                _ => true,
            },
    {
        assert(src[i as int] == source@[i as int]@);
        if let SemanticRepr::CompilerConstruct(c) = &source[i] {
            if !construct_expands_safely(c) {
                return false;
            }
        }
    }
    true
}

/// Whether a body line is valid.
pub open spec fn line_valid(l: BlockBodyLineV) -> bool {
    match l {
        BlockBodyLineV::Line(_) => true,
        BlockBodyLineV::NestedBlock(b) => block_valid(b),
    }
}

proof fn lemma_builder_push_valid(b: ConditionalBuilderV, l: BlockBodyLineV)
    requires
        builder_valid(b),
        line_valid(l),
    ensures
        builder_valid(builder_push_line(b, l)),
{
    assert(b.cur_elif_body.push(l).drop_last() =~= b.cur_elif_body);
    assert(b.else_body.push(l).drop_last() =~= b.else_body);
    assert(b.if_body.push(l).drop_last() =~= b.if_body);
}

proof fn lemma_builder_next_elif_valid(b: ConditionalBuilderV, c: SemanticCompilerConstructV)
    requires
        builder_valid(b),
        spec_validate_statement(c.operands) is None,
    ensures
        builder_valid(builder_next_elif(b, c)),
{
    if let Some(s) = b.cur_elif {
        assert(b.elifs.push((s, b.cur_elif_body)).drop_last() =~= b.elifs);
    }
}

proof fn lemma_builder_build_valid(b: ConditionalBuilderV, c: SemanticCompilerConstructV)
    requires
        builder_valid(b),
        spec_validate_statement(c.operands) is None,
    ensures
        block_valid(BlockConstructV::Conditional(builder_build(b, c))),
{
    if let Some(s) = b.cur_elif {
        assert(b.elifs.push((s, b.cur_elif_body)).drop_last() =~= b.elifs);
    }
}

proof fn lemma_builder_push_lines_step(b: ConditionalBuilderV, lines: Seq<SemanticReprV>, k: int)
    requires
        0 <= k < lines.len(),
    ensures
        builder_push_lines(b, lines.subrange(0, k + 1)) == builder_push_line(
            builder_push_lines(b, lines.subrange(0, k)),
            BlockBodyLineV::Line(lines[k]),
        ),
{
    assert(lines.subrange(0, k + 1).drop_last() =~= lines.subrange(0, k));
}

proof fn lemma_reprs_view_subrange(v: Seq<SemanticRepr>, a: int, b: int)
    requires
        0 <= a <= b <= v.len(),
    ensures
        reprs_view(v.subrange(a, b)) == reprs_view(v).subrange(a, b),
{
    assert(reprs_view(v.subrange(a, b)) =~= reprs_view(v).subrange(a, b));
}

proof fn lemma_all_expand_safely_subrange(src: Seq<SemanticReprV>, a: int)
    requires
        0 <= a <= src.len(),
        all_expand_safely(src),
    ensures
        all_expand_safely(src.subrange(a, src.len() as int)),
{
    let sub = src.subrange(a, src.len() as int);
    assert forall|j: int| 0 <= j < sub.len() implies match #[trigger] sub[j] {
        SemanticReprV::CompilerConstruct(c) => expands_safely(c),
        _ => true,
    } by {
        assert(sub[j] == src[a + j]);
    }
}

impl BlockConstructConditional {
    /// Checks the operands of an `@if` or `@elseif` statement: an
    /// immediate or register, another, and a jump mnemonic.
    fn validate_statement_args(args: &[SemanticOperand]) -> (r: Result<(), ConstructExpansionError>)
        ensures
            match r {
                Ok(()) => spec_validate_statement(operands_view(args@)) is None,
                Err(e) => spec_validate_statement(operands_view(args@)) == Some(e@),
            },
    {
        let ghost ops = operands_view(args@);
        if args.len() != 3 {
            return Err(ConstructExpansionError::ExpectedExactOperands { opcode: CompilerConstruct::If, expected: 3 });
        }
        assert(ops[0] == args@[0]@ && ops[1] == args@[1]@ && ops[2] == args@[2]@);
        if !args[0].is_immediate_or_register() {
            return Err(ConstructExpansionError::InvalidOperand {
                index: 0,
                operand: args[0].duplicate(),
                reason: string_of(chars_of("Expected an immediate value or a register.").as_slice()),
            });
        }
        if !args[1].is_immediate_or_register() {
            return Err(ConstructExpansionError::InvalidOperand {
                index: 1,
                operand: args[1].duplicate(),
                reason: string_of(chars_of("Expected an immediate value or a register.").as_slice()),
            });
        }
        let jump = match &args[2] {
            SemanticOperand::Mnemonic(m) => m.is_jump(),
            _ => false,
        };
        if !jump {
            return Err(ConstructExpansionError::InvalidOperand {
                index: 2,
                operand: args[2].duplicate(),
                reason: string_of(chars_of("Expected a jump mnemonic.").as_slice()),
            });
        }
        Ok(())
    }
}

impl BlockConstructConditional {
    /// Reads an `@if` block from `source`, the lines after the `@if` line
    /// `construct`, up to and including its `@end`; returns the block and
    /// the number of lines it took. Error line numbers count from
    /// `source_line`.
    #[verifier::rlimit(80)]
    fn parse(source: &[SemanticRepr], source_line: usize, construct: &SemanticCompilerConstruct) -> (r: Result<(Self, usize), ConstructExpansionErrorDetails>)
        requires
            source_line + source@.len() <= usize::MAX,
            all_expand_safely(reprs_view(source@)),
        ensures
            match r {
                Ok((b, k)) => {
                    &&& spec_parse_conditional(reprs_view(source@), source_line as int, construct@) == Ok::<_, ConstructExpansionErrorDetailsV>((b@, k as nat))
                    &&& block_valid(BlockConstructV::Conditional(b@))
                    &&& 1 <= k <= source@.len()
                },
                Err(e) => spec_parse_conditional(reprs_view(source@), source_line as int, construct@) == Err::<(ConditionalV, nat), _>(e@),
            },
        decreases source@.len(), 1int,
    {
        let ghost src = reprs_view(source@);
        let ghost sl = source_line as int;
        let ghost c = construct@;
        match Self::validate_statement_args(construct.operands.as_slice()) {
            Err(e) => {
                return Err(e.into_details(&SemanticRepr::CompilerConstruct(construct.duplicate()), source_line));
            },
            Ok(()) => {},
        }
        let mut builder = ConditionalBlockBuilder::new();
        let mut i: usize = 0;
        while i < source.len()
            invariant
                src == reprs_view(source@),
                sl == source_line as int,
                c == construct@,
                source_line + source@.len() <= usize::MAX,
                all_expand_safely(src),
                spec_validate_statement(c.operands) is None,
                0 <= i <= source@.len(),
                builder_valid(builder@),
                spec_read_conditional(src, sl, c, i as int, builder@) == spec_parse_conditional(src, sl, c),
            decreases source@.len() - i,
        {
            let line = &source[i];
            assert(src[i as int] == line@);
            let ghost b = builder@;
            match line {
                SemanticRepr::CompilerConstruct(c2) => {
                    if matches!(c2.opcode, CompilerConstruct::BlockEnd) {
                        proof {
                            lemma_builder_build_valid(b, c);
                        }
                        return Ok((builder.build(construct), i + 1));
                    } else if c2.opcode.is_block_start() {
                        let rest = vstd::slice::slice_subrange(source, i + 1, source.len());
                        proof {
                            lemma_reprs_view_subrange(source@, i + 1, source@.len() as int);
                            lemma_all_expand_safely_subrange(src, i + 1);
                        }
                        match parse_block_body(rest, source_line + i + 1, c2) {
                            Err(e) => {
                                return Err(e);
                            },
                            Ok((nested, offset)) => {
                                let ghost nv = nested@;
                                proof {
                                    lemma_builder_push_valid(b, BlockBodyLineV::NestedBlock(nv));
                                }
                                builder.push_line(BlockBodyLine::NestedBlock(nested));
                                i = i + offset + 1;
                            },
                        }
                    } else if matches!(c2.opcode, CompilerConstruct::Else) {
                        if builder.is_else() {
                            return Err(ConstructExpansionError::InvalidConstruct(c2.opcode).into_details(line, source_line + i));
                        }
                        if c2.operands.len() != 0 {
                            return Err(ConstructExpansionError::ExpectedExactOperands {
                                opcode: CompilerConstruct::Else,
                                expected: 0,
                            }.into_details(line, source_line + i));
                        }
                        builder.set_else();
                        i += 1;
                    } else if matches!(c2.opcode, CompilerConstruct::ElseIf) {
                        if builder.is_else() {
                            return Err(ConstructExpansionError::InvalidConstruct(c2.opcode).into_details(line, source_line + i));
                        }
                        match Self::validate_statement_args(c2.operands.as_slice()) {
                            Err(e) => {
                                return Err(e.into_details(&SemanticRepr::CompilerConstruct(c2.duplicate()), source_line));
                            },
                            Ok(()) => {},
                        }
                        proof {
                            lemma_builder_next_elif_valid(b, c2@);
                        }
                        builder.next_elif(c2.duplicate());
                        i += 1;
                    } else {
                        let mut single_buf: Vec<SemanticRepr> = Vec::new();
                        match expand_construct_single(c2, &mut single_buf) {
                            Err(e) => {
                                return Err(e.into_details(line, source_line + i));
                            },
                            Ok(()) => {},
                        }
                        let ghost lines = reprs_view(single_buf@);
                        proof {
                            assert(lines =~= Seq::<SemanticReprV>::empty() + lines);
                            assert(lines.subrange(0, 0) =~= Seq::<SemanticReprV>::empty());
                        }
                        let mut k: usize = 0;
                        while k < single_buf.len()
                            invariant
                                lines == reprs_view(single_buf@),
                                0 <= k <= single_buf@.len(),
                                builder_valid(builder@),
                                builder@ == builder_push_lines(b, lines.subrange(0, k as int)),
                            decreases single_buf@.len() - k,
                        {
                            proof {
                                lemma_builder_push_lines_step(b, lines, k as int);
                                assert(lines[k as int] == single_buf@[k as int]@);
                                lemma_builder_push_valid(builder@, BlockBodyLineV::Line(lines[k as int]));
                            }
                            builder.push_line(BlockBodyLine::Line(single_buf[k].duplicate()));
                            k += 1;
                        }
                        assert(lines.subrange(0, lines.len() as int) =~= lines);
                        i += 1;
                    }
                },
                _ => {
                    proof {
                        lemma_builder_push_valid(b, BlockBodyLineV::Line(line@));
                    }
                    builder.push_line(BlockBodyLine::Line(line.duplicate()));
                    i += 1;
                },
            }
        }
        Err(ConstructExpansionError::UnterminatedBlock {
            start_line: source_line,
            start_construct: construct.duplicate(),
        }.into_details(&SemanticRepr::CompilerConstruct(construct.duplicate()), source_line))
    }
}

/// Reads the block that `construct` opens from `source`, the lines after
/// it; only `@if` opens a block that can be read.
fn parse_block_body(source: &[SemanticRepr], source_line: usize, construct: &SemanticCompilerConstruct) -> (r: Result<(BlockConstruct, usize), ConstructExpansionErrorDetails>)
    requires
        source_line + source@.len() <= usize::MAX,
        all_expand_safely(reprs_view(source@)),
    ensures
        match r {
            Ok((b, k)) => {
                &&& spec_parse_block(reprs_view(source@), source_line as int, construct@) == Ok::<_, ConstructExpansionErrorDetailsV>((b@, k as nat))
                &&& block_valid(b@)
                &&& 1 <= k <= source@.len()
            },
            Err(e) => spec_parse_block(reprs_view(source@), source_line as int, construct@) == Err::<(BlockConstructV, nat), _>(e@),
        },
    decreases source@.len(), 2int,
{
    match construct.opcode {
        CompilerConstruct::If => match BlockConstructConditional::parse(source, source_line, construct) {
            Ok((block, offset)) => Ok((BlockConstruct::Conditional(block), offset)),
            Err(e) => Err(e),
        },
        _ => Err(ConstructExpansionError::InvalidConstruct(construct.opcode).into_details(
            &SemanticRepr::CompilerConstruct(construct.duplicate()),
            source_line,
        )),
    }
}

// ---------------------------------------------------------------------
// Expanding a whole source.

/// Each line of `lines` as a body line.
pub open spec fn as_body_lines(lines: Seq<SemanticReprV>) -> Seq<BlockBodyLineV> {
    lines.map_values(|l: SemanticReprV| BlockBodyLineV::Line(l))
}

/// Whether the data section is open after `line`, given whether it was
/// open before: `.data` opens it, a label or an instruction closes it.
pub open spec fn data_section_after(line: SemanticReprV, data: bool) -> bool {
    match line {
        SemanticReprV::SpecialSection(name) => if name == crate::parser::data_section_label() {
            true
        } else {
            data
        },
        SemanticReprV::Label(_) => false,
        SemanticReprV::Instruction(_) => false,
        _ => data,
    }
}

/// Walks the source lines from index `i`, with `data` telling whether the
/// data section is open and `acc` holding what was read before. Each line
/// that is no construct is kept, each block is read whole, and each other
/// construct is replaced by the lines it expands to. The result is the
/// body whose expansion is the expanded source.
pub open spec fn spec_source_body(
    src: Seq<SemanticReprV>,
    i: int,
    data: bool,
    acc: Seq<BlockBodyLineV>,
) -> Result<Seq<BlockBodyLineV>, ConstructExpansionErrorDetailsV>
    decreases src.len() - i,
{
    if i < 0 || i >= src.len() {
        Ok(acc)
    } else {
        let line = src[i];
        let open = data_section_after(line, data);
        match line {
            SemanticReprV::CompilerConstruct(c) => if open {
                Err(details(ConstructExpansionErrorV::ConstructInDataSection, line, i))
            } else if c.opcode.spec_is_block_start() {
                if i + 1 >= src.len() {
                    Err(unterminated(i, c))
                } else {
                    match spec_parse_block(src.subrange(i + 1, src.len() as int), i, c) {
                        Ok((b, k)) => if i + 1 + k > src.len() {
                            // never taken: a block ends within the lines it is read from
                            Err(unterminated(i, c))
                        } else {
                            spec_source_body(src, i + 1 + k, open, acc.push(BlockBodyLineV::NestedBlock(b)))
                        },
                        Err(e) => Err(e),
                    }
                }
            } else {
                match spec_expand_single(c) {
                    Ok(lines) => spec_source_body(src, i + 1, open, acc + as_body_lines(lines)),
                    Err(e) => Err(details(e, line, i + 1)),
                }
            },
            _ => spec_source_body(src, i + 1, open, acc.push(BlockBodyLineV::Line(line))),
        }
    }
}

/// The body whose expansion is the expanded source `src`, or the first
/// error met.
pub open spec fn spec_expand_source(src: Seq<SemanticReprV>) -> Result<Seq<BlockBodyLineV>, ConstructExpansionErrorDetailsV> {
    spec_source_body(src, 0, false, Seq::empty())
}

proof fn lemma_expand_body_lines(acc: Seq<BlockBodyLineV>, lines: Seq<SemanticReprV>, ids: Seq<Seq<char>>)
    requires
        ids.len() == body_ids(acc),
    ensures
        body_ids(acc + as_body_lines(lines)) == body_ids(acc),
        body_valid(acc + as_body_lines(lines)) == body_valid(acc),
        expand_body(acc + as_body_lines(lines), ids) == expand_body(acc, ids) + lines,
    decreases lines.len(),
{
    let all = acc + as_body_lines(lines);
    if lines.len() == 0 {
        assert(all =~= acc);
        assert(expand_body(acc, ids) + lines =~= expand_body(acc, ids));
    } else {
        let front = lines.drop_last();
        lemma_expand_body_lines(acc, front, ids);
        assert(all.drop_last() =~= acc + as_body_lines(front));
        assert(all.last() == BlockBodyLineV::Line(lines.last()));
        assert(ids.subrange(0, ids.len() as int) =~= ids);
        assert(expand_body(acc, ids) + lines =~= expand_body(acc, ids) + front + seq![lines.last()]);
    }
}

/// Replaces every compiler construct of `source` by the lines it stands
/// for: blocks become comparisons, jumps and fresh labels, the other
/// constructs their instruction sequences. Constructs are refused in the
/// data section. The labels of each block carry an id drawn at random.
pub fn expand_construct_source(source: &[SemanticRepr]) -> (r: Result<Vec<SemanticRepr>, ConstructExpansionErrorDetails>)
    requires
        all_expand_safely(reprs_view(source@)),
    ensures
        match r {
            Ok(v) => {
                &&& spec_expand_source(reprs_view(source@)) matches Ok(body)
                &&& body_valid(body)
                &&& exists|ids: Seq<Seq<char>>| {
                    &&& ids.len() == body_ids(body)
                    &&& all_label_ids(ids)
                    &&& #[trigger] expand_body(body, ids) == reprs_view(v@)
                }
            },
            Err(e) => spec_expand_source(reprs_view(source@)) == Err::<Seq<BlockBodyLineV>, _>(e@),
        },
{
    let ghost src = reprs_view(source@);
    let mut ret: Vec<SemanticRepr> = Vec::new();
    let mut data_section = false;
    let mut i: usize = 0;
    let ghost mut acc: Seq<BlockBodyLineV> = Seq::empty();
    let ghost mut ids: Seq<Seq<char>> = Seq::empty();
    proof {
        assert(reprs_view(ret@) =~= expand_body(acc, ids));
    }
    while i < source.len()
        invariant
            src == reprs_view(source@),
            all_expand_safely(src),
            0 <= i <= source@.len(),
            spec_source_body(src, i as int, data_section, acc) == spec_expand_source(src),
            body_valid(acc),
            ids.len() == body_ids(acc),
            all_label_ids(ids),
            reprs_view(ret@) == expand_body(acc, ids),
        decreases source@.len() - i,
    {
        let line = &source[i];
        assert(src[i as int] == line@);
        match line {
            SemanticRepr::SpecialSection(name) => {
                let v = chars_of(name.as_str());
                let is_data = crate::text::same_chars(v.as_slice(), &['.', 'd', 'a', 't', 'a']);
                proof {
                    let lit: &[char] = &['.', 'd', 'a', 't', 'a'];
                    assert(lit@ =~= crate::parser::data_section_label());
                }
                if is_data {
                    data_section = true;
                }
            },
            SemanticRepr::Label(_) => {
                data_section = false;
            },
            SemanticRepr::Instruction(_) => {
                data_section = false;
            },
            _ => {},
        }
        match line {
            SemanticRepr::CompilerConstruct(construct) => {
                if data_section {
                    return Err(ConstructExpansionError::ConstructInDataSection.into_details(line, i));
                }
                if construct.opcode.is_block_start() {
                    if i + 1 >= source.len() {
                        return Err(ConstructExpansionError::UnterminatedBlock {
                            start_line: i,
                            start_construct: construct.duplicate(),
                        }.into_details(line, i));
                    }
                    let rest = vstd::slice::slice_subrange(source, i + 1, source.len());
                    proof {
                        lemma_reprs_view_subrange(source@, i + 1, source@.len() as int);
                        lemma_all_expand_safely_subrange(src, i + 1);
                    }
                    match parse_block_body(rest, i, construct) {
                        Err(e) => {
                            return Err(e);
                        },
                        Ok((block_body, offset)) => {
                            let ghost bv = block_body@;
                            let Ghost(new_ids) = block_body.expand(&mut ret);
                            proof {
                                lemma_expand_body_push(acc, BlockBodyLineV::NestedBlock(bv), ids, new_ids);
                                lemma_all_label_ids_concat(ids, new_ids);
                                assert(acc.push(BlockBodyLineV::NestedBlock(bv)).drop_last() =~= acc);
                                acc = acc.push(BlockBodyLineV::NestedBlock(bv));
                                ids = ids + new_ids;
                            }
                            i = i + offset + 1;
                        },
                    }
                } else {
                    let ghost before = reprs_view(ret@);
                    let result = expand_construct_single(construct, &mut ret);
                    i += 1;
                    match result {
                        Err(e) => {
                            return Err(e.into_details(line, i));
                        },
                        Ok(()) => {
                            proof {
                                let lines = spec_expand_single(construct@)->Ok_0;
                                lemma_expand_body_lines(acc, lines, ids);
                                acc = acc + as_body_lines(lines);
                            }
                        },
                    }
                }
            },
            _ => {
                let ghost lv = BlockBodyLineV::Line(line@);
                proof {
                    lemma_expand_body_push(acc, lv, ids, Seq::empty());
                    assert(ids + Seq::<Seq<char>>::empty() =~= ids);
                    assert(acc.push(lv).drop_last() =~= acc);
                    acc = acc.push(lv);
                }
                ret.push(line.duplicate());
                assert(reprs_view(ret@) =~= expand_body(acc, ids));
                i += 1;
            },
        }
    }
    assert(expand_body(acc, ids) == reprs_view(ret@));
    Ok(ret)
}


// ---------------------------------------------------------------------
// Expansion leaves no construct.

/// Whether none of `lines` is a compiler construct.
pub open spec fn no_construct(lines: Seq<SemanticReprV>) -> bool {
    forall|i: int| 0 <= i < lines.len() ==> !(#[trigger] lines[i] is CompilerConstruct)
}

/// Whether no line of the block (nor of the blocks nested in it) is a
/// compiler construct.
pub open spec fn block_free(b: BlockConstructV) -> bool
    decreases b,
{
    match b {
        BlockConstructV::Conditional(c) => {
            &&& body_free(c.if_body)
            &&& else_ifs_free(c.else_ifs)
            &&& match c.else_body {
                Some(body) => body_free(body),
                None => true,
            }
        },
    }
}

pub open spec fn body_free(s: Seq<BlockBodyLineV>) -> bool
    decreases s,
{
    if s.len() == 0 {
        true
    } else {
        body_free(s.drop_last()) && match s.last() {
            BlockBodyLineV::Line(l) => !(l is CompilerConstruct),
            BlockBodyLineV::NestedBlock(b) => block_free(b),
        }
    }
}

pub open spec fn else_ifs_free(s: Seq<(SemanticCompilerConstructV, Seq<BlockBodyLineV>)>) -> bool
    decreases s,
{
    if s.len() == 0 {
        true
    } else {
        else_ifs_free(s.drop_last()) && body_free(s.last().1)
    }
}

proof fn lemma_no_construct_concat(a: Seq<SemanticReprV>, b: Seq<SemanticReprV>)
    requires
        no_construct(a),
        no_construct(b),
    ensures
        no_construct(a + b),
{
    assert forall|i: int| 0 <= i < (a + b).len() implies !(#[trigger] (a + b)[i] is CompilerConstruct) by {
        if i < a.len() {
            assert((a + b)[i] == a[i]);
        } else {
            assert((a + b)[i] == b[i - a.len()]);
        }
    }
}

proof fn lemma_else_if_jumps_free(s: Seq<(SemanticCompilerConstructV, Seq<BlockBodyLineV>)>, id: Seq<char>)
    ensures
        no_construct(else_if_jumps(s, id)),
    decreases s.len(),
{
    if s.len() > 0 {
        lemma_else_if_jumps_free(s.drop_last(), id);
        let j = statement_jump(s.last().0, label_symbol(elif_label(id, (s.len() - 1) as nat)));
        assert(no_construct(j));
        lemma_no_construct_concat(else_if_jumps(s.drop_last(), id), j);
    }
}

proof fn lemma_block_expansion_free(b: BlockConstructV, ids: Seq<Seq<char>>)
    requires
        block_free(b),
    ensures
        no_construct(expand_block(b, ids)),
    decreases b,
{
    match b {
        BlockConstructV::Conditional(c) => {
            let id = ids[0];
            let if_sym = label_symbol(if_label(id));
            let else_sym = label_symbol(else_label(id));
            let end_sym = label_symbol(endif_label(id));
            let n_if = body_ids(c.if_body) as int;
            let n_elifs = else_ifs_ids(c.else_ifs) as int;
            let j1 = statement_jump(c.if_statement, if_sym);
            assert(no_construct(j1));
            lemma_else_if_jumps_free(c.else_ifs, id);
            let j3: Seq<SemanticReprV> = if c.else_body is Some { seq![jump_to(else_sym)] } else { Seq::empty() };
            assert(no_construct(j3));
            lemma_no_construct_concat(j1, else_if_jumps(c.else_ifs, id));
            lemma_no_construct_concat(j1 + else_if_jumps(c.else_ifs, id), j3);
            let body_if = expand_body(c.if_body, ids.subrange(1, 1 + n_if));
            lemma_body_expansion_free(c.if_body, ids.subrange(1, 1 + n_if));
            let head: Seq<SemanticReprV> = seq![SemanticReprV::Label(if_sym)];
            let tail: Seq<SemanticReprV> = seq![jump_to(end_sym)];
            assert(no_construct(head));
            assert(no_construct(tail));
            lemma_no_construct_concat(head, body_if);
            lemma_no_construct_concat(head + body_if, tail);
            lemma_else_ifs_expansion_free(c.else_ifs, id, ids.subrange(1 + n_if, 1 + n_if + n_elifs), end_sym);
            let else_part: Seq<SemanticReprV> = match c.else_body {
                Some(body) => seq![SemanticReprV::Label(else_sym)] + expand_body(body, ids.subrange(1 + n_if + n_elifs, ids.len() as int))
                    + seq![jump_to(end_sym)],
                None => Seq::empty(),
            };
            if let Some(body) = c.else_body {
                let eb = expand_body(body, ids.subrange(1 + n_if + n_elifs, ids.len() as int));
                lemma_body_expansion_free(body, ids.subrange(1 + n_if + n_elifs, ids.len() as int));
                let eh: Seq<SemanticReprV> = seq![SemanticReprV::Label(else_sym)];
                assert(no_construct(eh));
                lemma_no_construct_concat(eh, eb);
                lemma_no_construct_concat(eh + eb, tail);
            }
            assert(no_construct(else_part));
            let end: Seq<SemanticReprV> = seq![SemanticReprV::Label(end_sym)];
            assert(no_construct(end));
            let a = j1 + else_if_jumps(c.else_ifs, id) + j3;
            let bb = head + body_if + tail;
            let cc = expand_else_ifs(c.else_ifs, id, ids.subrange(1 + n_if, 1 + n_if + n_elifs), end_sym);
            lemma_no_construct_concat(a, bb);
            lemma_no_construct_concat(a + bb, cc);
            lemma_no_construct_concat(a + bb + cc, else_part);
            lemma_no_construct_concat(a + bb + cc + else_part, end);
        },
    }
}

proof fn lemma_body_expansion_free(s: Seq<BlockBodyLineV>, ids: Seq<Seq<char>>)
    requires
        body_free(s),
    ensures
        no_construct(expand_body(s, ids)),
    decreases s,
{
    if s.len() > 0 {
        let k = body_ids(s.drop_last());
        lemma_body_expansion_free(s.drop_last(), ids.subrange(0, k as int));
        let rest: Seq<SemanticReprV> = match s.last() {
            BlockBodyLineV::Line(l) => seq![l],
            BlockBodyLineV::NestedBlock(b) => expand_block(b, ids.subrange(k as int, ids.len() as int)),
        };
        match s.last() {
            BlockBodyLineV::Line(l) => {
                assert(no_construct(rest));
            },
            BlockBodyLineV::NestedBlock(b) => {
                lemma_block_expansion_free(b, ids.subrange(k as int, ids.len() as int));
            },
        }
        lemma_no_construct_concat(expand_body(s.drop_last(), ids.subrange(0, k as int)), rest);
    }
}

proof fn lemma_else_ifs_expansion_free(
    s: Seq<(SemanticCompilerConstructV, Seq<BlockBodyLineV>)>,
    id: Seq<char>,
    ids: Seq<Seq<char>>,
    end: SemanticSymbolV,
)
    requires
        else_ifs_free(s),
    ensures
        no_construct(expand_else_ifs(s, id, ids, end)),
    decreases s,
{
    if s.len() > 0 {
        let k = else_ifs_ids(s.drop_last());
        lemma_else_ifs_expansion_free(s.drop_last(), id, ids.subrange(0, k as int), end);
        let front = expand_else_ifs(s.drop_last(), id, ids.subrange(0, k as int), end);
        let head: Seq<SemanticReprV> = seq![SemanticReprV::Label(label_symbol(elif_label(id, (s.len() - 1) as nat)))];
        let body = expand_body(s.last().1, ids.subrange(k as int, ids.len() as int));
        let tail: Seq<SemanticReprV> = seq![jump_to(end)];
        lemma_body_expansion_free(s.last().1, ids.subrange(k as int, ids.len() as int));
        assert(no_construct(head));
        assert(no_construct(tail));
        lemma_no_construct_concat(front, head);
        lemma_no_construct_concat(front + head, body);
        lemma_no_construct_concat(front + head + body, tail);
    }
}

proof fn lemma_push_args_free(ops: Seq<SemanticOperandV>)
    ensures
        no_construct(push_args(ops)),
    decreases ops.len(),
{
    if ops.len() > 1 {
        lemma_push_args_free(ops.drop_last());
        let p: Seq<SemanticReprV> = seq![instr(OpcodeMnemonic::Push, seq![ops.last()])];
        assert(no_construct(p));
        lemma_no_construct_concat(push_args(ops.drop_last()), p);
    }
}

proof fn lemma_single_expansion_free(c: SemanticCompilerConstructV)
    ensures
        spec_expand_single(c) matches Ok(lines) ==> no_construct(lines),
{
    if c.opcode == CompilerConstruct::EngineCall && c.operands.len() >= 1 {
        if let SemanticOperandV::EngineParam(p) = c.operands[0] {
            let head: Seq<SemanticReprV> = seq![instr(OpcodeMnemonic::Mov, seq![qword_operand(Register::A), SemanticOperandV::EngineParam(p)])];
            assert(no_construct(head));
            lemma_push_args_free(c.operands);
            lemma_no_construct_concat(head, push_args(c.operands));
        }
    }
}

/// What a builder collected has no construct line.
pub open spec fn builder_free(b: ConditionalBuilderV) -> bool {
    &&& body_free(b.if_body)
    &&& else_ifs_free(b.elifs)
    &&& body_free(b.cur_elif_body)
    &&& body_free(b.else_body)
}

/// Whether a body line is no construct line and holds none.
pub open spec fn line_free(l: BlockBodyLineV) -> bool {
    match l {
        BlockBodyLineV::Line(r) => !(r is CompilerConstruct),
        BlockBodyLineV::NestedBlock(b) => block_free(b),
    }
}

proof fn lemma_body_free_push(s: Seq<BlockBodyLineV>, l: BlockBodyLineV)
    requires
        body_free(s),
        line_free(l),
    ensures
        body_free(s.push(l)),
{
    assert(s.push(l).drop_last() =~= s);
}

proof fn lemma_builder_push_free(b: ConditionalBuilderV, l: BlockBodyLineV)
    requires
        builder_free(b),
        line_free(l),
    ensures
        builder_free(builder_push_line(b, l)),
{
    lemma_body_free_push(b.cur_elif_body, l);
    lemma_body_free_push(b.else_body, l);
    lemma_body_free_push(b.if_body, l);
}

proof fn lemma_builder_push_lines_free(b: ConditionalBuilderV, lines: Seq<SemanticReprV>)
    requires
        builder_free(b),
        no_construct(lines),
    ensures
        builder_free(builder_push_lines(b, lines)),
    decreases lines.len(),
{
    if lines.len() > 0 {
        assert forall|i: int| 0 <= i < lines.drop_last().len() implies !(#[trigger] lines.drop_last()[i] is CompilerConstruct) by {
            assert(lines.drop_last()[i] == lines[i]);
        }
        lemma_builder_push_lines_free(b, lines.drop_last());
        assert(!(lines[lines.len() - 1] is CompilerConstruct));
        lemma_builder_push_free(builder_push_lines(b, lines.drop_last()), BlockBodyLineV::Line(lines.last()));
    }
}

proof fn lemma_builder_next_elif_free(b: ConditionalBuilderV, c: SemanticCompilerConstructV)
    requires
        builder_free(b),
    ensures
        builder_free(builder_next_elif(b, c)),
{
    if let Some(s) = b.cur_elif {
        assert(b.elifs.push((s, b.cur_elif_body)).drop_last() =~= b.elifs);
    }
}

proof fn lemma_builder_build_free(b: ConditionalBuilderV, c: SemanticCompilerConstructV)
    requires
        builder_free(b),
    ensures
        block_free(BlockConstructV::Conditional(builder_build(b, c))),
{
    if let Some(s) = b.cur_elif {
        assert(b.elifs.push((s, b.cur_elif_body)).drop_last() =~= b.elifs);
    }
}

proof fn lemma_parse_block_free(src: Seq<SemanticReprV>, sl: int, c: SemanticCompilerConstructV)
    ensures
        spec_parse_block(src, sl, c) matches Ok((b, _)) ==> block_free(b),
    decreases src.len(), 2int, 0int,
{
    if c.opcode == CompilerConstruct::If {
        lemma_parse_conditional_free(src, sl, c);
    }
}

proof fn lemma_parse_conditional_free(src: Seq<SemanticReprV>, sl: int, c: SemanticCompilerConstructV)
    ensures
        spec_parse_conditional(src, sl, c) matches Ok((cv, _)) ==> block_free(BlockConstructV::Conditional(cv)),
    decreases src.len(), 1int, 0int,
{
    if spec_validate_statement(c.operands) is None {
        let b = empty_conditional_builder();
        assert(builder_free(b));
        lemma_read_conditional_free(src, sl, c, 0, b);
    }
}

proof fn lemma_read_conditional_free(src: Seq<SemanticReprV>, sl: int, c: SemanticCompilerConstructV, i: int, b: ConditionalBuilderV)
    requires
        builder_free(b),
    ensures
        spec_read_conditional(src, sl, c, i, b) matches Ok((cv, _)) ==> block_free(BlockConstructV::Conditional(cv)),
    decreases src.len(), 0int, src.len() - i,
{
    if 0 <= i < src.len() {
        let line = src[i];
        match line {
            SemanticReprV::CompilerConstruct(c2) => if c2.opcode == CompilerConstruct::BlockEnd {
                lemma_builder_build_free(b, c);
            } else if c2.opcode.spec_is_block_start() {
                lemma_parse_block_free(src.subrange(i + 1, src.len() as int), sl + i + 1, c2);
                if let Ok((nb, k)) = spec_parse_block(src.subrange(i + 1, src.len() as int), sl + i + 1, c2) {
                    if i + 1 + k <= src.len() {
                        lemma_builder_push_free(b, BlockBodyLineV::NestedBlock(nb));
                        lemma_read_conditional_free(src, sl, c, i + 1 + k, builder_push_line(b, BlockBodyLineV::NestedBlock(nb)));
                    }
                }
            } else if c2.opcode == CompilerConstruct::Else {
                lemma_read_conditional_free(src, sl, c, i + 1, ConditionalBuilderV { has_else: true, ..b });
            } else if c2.opcode == CompilerConstruct::ElseIf {
                lemma_builder_next_elif_free(b, c2);
                lemma_read_conditional_free(src, sl, c, i + 1, builder_next_elif(b, c2));
            } else {
                lemma_single_expansion_free(c2);
                if let Ok(lines) = spec_expand_single(c2) {
                    lemma_builder_push_lines_free(b, lines);
                    lemma_read_conditional_free(src, sl, c, i + 1, builder_push_lines(b, lines));
                }
            },
            _ => {
                lemma_builder_push_free(b, BlockBodyLineV::Line(line));
                lemma_read_conditional_free(src, sl, c, i + 1, builder_push_line(b, BlockBodyLineV::Line(line)));
            },
        }
    }
}

proof fn lemma_body_free_lines(acc: Seq<BlockBodyLineV>, lines: Seq<SemanticReprV>)
    requires
        body_free(acc),
        no_construct(lines),
    ensures
        body_free(acc + as_body_lines(lines)),
    decreases lines.len(),
{
    if lines.len() == 0 {
        assert(acc + as_body_lines(lines) =~= acc);
    } else {
        let front = lines.drop_last();
        assert forall|i: int| 0 <= i < front.len() implies !(#[trigger] front[i] is CompilerConstruct) by {
            assert(front[i] == lines[i]);
        }
        lemma_body_free_lines(acc, front);
        assert((acc + as_body_lines(lines)).drop_last() =~= acc + as_body_lines(front));
        assert(!(lines[lines.len() - 1] is CompilerConstruct));
    }
}

proof fn lemma_source_body_free(src: Seq<SemanticReprV>, i: int, data: bool, acc: Seq<BlockBodyLineV>)
    requires
        body_free(acc),
    ensures
        spec_source_body(src, i, data, acc) matches Ok(body) ==> body_free(body),
    decreases src.len() - i,
{
    if 0 <= i < src.len() {
        let line = src[i];
        let open = data_section_after(line, data);
        match line {
            SemanticReprV::CompilerConstruct(c) => if !open {
                if c.opcode.spec_is_block_start() {
                    if i + 1 < src.len() {
                        lemma_parse_block_free(src.subrange(i + 1, src.len() as int), i, c);
                        if let Ok((b, k)) = spec_parse_block(src.subrange(i + 1, src.len() as int), i, c) {
                            if i + 1 + k <= src.len() {
                                lemma_body_free_push(acc, BlockBodyLineV::NestedBlock(b));
                                lemma_source_body_free(src, i + 1 + k, open, acc.push(BlockBodyLineV::NestedBlock(b)));
                            }
                        }
                    }
                } else {
                    lemma_single_expansion_free(c);
                    if let Ok(lines) = spec_expand_single(c) {
                        lemma_body_free_lines(acc, lines);
                        lemma_source_body_free(src, i + 1, open, acc + as_body_lines(lines));
                    }
                }
            },
            _ => {
                lemma_body_free_push(acc, BlockBodyLineV::Line(line));
                lemma_source_body_free(src, i + 1, open, acc.push(BlockBodyLineV::Line(line)));
            },
        }
    }
}

/// When a source expands, what it expands to holds no compiler construct,
/// whatever label ids its blocks draw.
pub proof fn lemma_expansion_eliminates_constructs(src: Seq<SemanticReprV>, ids: Seq<Seq<char>>)
    requires
        spec_expand_source(src) is Ok,
    ensures
        no_construct(expand_body(spec_expand_source(src)->Ok_0, ids)),
{
    assert(body_free(Seq::<BlockBodyLineV>::empty()));
    lemma_source_body_free(src, 0, false, Seq::empty());
    lemma_body_expansion_free(spec_expand_source(src)->Ok_0, ids);
}

} // verus!
