//! The semantic representation of parsed F750 source lines.
use vstd::prelude::*;
use crate::opcode::{CompilerConstruct, OpcodeMnemonic};
use crate::bytecode::{BytecodeStream, float_encoding, spec_u64_to_be_bytes};
use crate::value::float_chunk;
use crate::text::{
    decimal_digits, decimal_text, hex_digits, int_text, lower_hex_text, push_str, string_of, unsigned_text,
};
use crate::value::{
    DataType, DataTypeLiteral, DataTypeLiteralV, RegisterSpec, SymbolName, SymbolNameV,
};

verus! {

/// A symbol (the name of a label or a binding), and whether it is defined
/// outside the sources being compiled.
#[derive(Debug, Clone, PartialEq, Eq, Hash)]
pub struct SemanticSymbol {
    pub name: SymbolName,
    pub external: bool,
}

/// The mathematical model of a [`SemanticSymbol`].
pub struct SemanticSymbolV {
    pub name: SymbolNameV,
    pub external: bool,
}

impl View for SemanticSymbol {
    type V = SemanticSymbolV;

    open spec fn view(&self) -> SemanticSymbolV {
        SemanticSymbolV { name: self.name@, external: self.external }
    }
}

impl SemanticSymbol {
    /// Builds a symbol.
    pub fn new(name: SymbolName, external: bool) -> (r: Self)
        ensures
            r.name == name,
            r.external == external,
    {
        SemanticSymbol { name, external }
    }

    /// The symbol for an unqualified local name.
    pub fn local(name: &str) -> (r: Self)
        ensures
            r@ == (SemanticSymbolV {
                name: SymbolNameV { name: name@, namespace: None },
                external: false,
            }),
    {
        SemanticSymbol { name: SymbolName::new(name, None), external: false }
    }

    /// Returns a copy of the symbol.
    pub fn duplicate(&self) -> (r: Self)
        ensures
            r@ == self@,
    {
        SemanticSymbol { name: self.name.duplicate(), external: self.external }
    }
}

/// A literal value as written in source text; unlike [`DataTypeLiteral`] it
/// may be a string, or an integer or floating point value of no stated type.
#[derive(Debug, Clone)]
pub enum SemanticLiteral {
    UntypedInteger(i64),
    /// A floating point value, held as the text it was written with.
    UntypedFloating(String),
    Typed(DataTypeLiteral),
    String(String),
}

/// The mathematical model of a [`SemanticLiteral`].
pub enum SemanticLiteralV {
    UntypedInteger(i64),
    UntypedFloating(Seq<char>),
    Typed(DataTypeLiteralV),
    String(Seq<char>),
}

impl View for SemanticLiteral {
    type V = SemanticLiteralV;

    open spec fn view(&self) -> SemanticLiteralV {
        match self {
            SemanticLiteral::UntypedInteger(i) => SemanticLiteralV::UntypedInteger(*i),
            SemanticLiteral::UntypedFloating(t) => SemanticLiteralV::UntypedFloating(t@),
            SemanticLiteral::Typed(t) => SemanticLiteralV::Typed(t@),
            SemanticLiteral::String(s) => SemanticLiteralV::String(s@),
        }
    }
}

impl SemanticLiteralV {
    /// The number of bytes the literal occupies when packed; a string
    /// occupies its UTF-8 encoding.
    pub open spec fn size(self) -> nat {
        match self {
            SemanticLiteralV::UntypedInteger(_) => 8,
            SemanticLiteralV::UntypedFloating(_) => 8,
            SemanticLiteralV::Typed(t) => t.data_type().spec_size(),
            SemanticLiteralV::String(s) => (vstd::utf8::encode_utf8(s).len() as usize) as nat,
        }
    }

    /// The typed literal a non-string literal stands for: untyped integers
    /// are 64-bit integers and untyped floating point values are doubles.
    pub open spec fn to_data_type(self) -> DataTypeLiteralV
        recommends
            !(self is String),
    {
        match self {
            SemanticLiteralV::UntypedInteger(i) => DataTypeLiteralV::Qword(i as u64),
            SemanticLiteralV::UntypedFloating(t) => DataTypeLiteralV::Double(t),
            SemanticLiteralV::Typed(t) => t,
            SemanticLiteralV::String(_) => DataTypeLiteralV::Byte(0),
        }
    }
}

impl SemanticLiteralV {
    /// The text and width of a floating point literal: `true` for a
    /// double; an untyped floating point value is a double.
    pub open spec fn float_part(self) -> Option<(Seq<char>, bool)> {
        match self {
            SemanticLiteralV::UntypedFloating(t) => Some((t, true)),
            SemanticLiteralV::Typed(t) => t.float_part(),
            _ => None,
        }
    }

    /// The bytes the literal packs to: integers big-endian, a string as
    /// UTF-8, and a floating point value as `float_bytes`.
    pub open spec fn packed(self, float_bytes: Seq<u8>) -> Seq<u8> {
        match self {
            SemanticLiteralV::UntypedInteger(i) => spec_u64_to_be_bytes(i as u64),
            SemanticLiteralV::UntypedFloating(_) => float_bytes,
            SemanticLiteralV::Typed(t) => t.packed(float_bytes),
            SemanticLiteralV::String(s) => vstd::utf8::encode_utf8(s),
        }
    }
}

/// The values packed side by side, the floating point part of the `k`-th
/// given by `chunks[k]`.
pub open spec fn literals_packed(values: Seq<SemanticLiteralV>, chunks: Seq<Seq<u8>>) -> Seq<u8>
    decreases values.len(),
{
    if values.len() == 0 {
        Seq::empty()
    } else {
        literals_packed(values.drop_last(), chunks.drop_last()) + values.last().packed(chunks.last())
    }
}

/// Whether `chunks` may stand for the floating point parts of `values`:
/// one per value, each an encoding `encode` may give.
pub open spec fn chunks_valid<F: Fn(&String, bool) -> Vec<u8>>(encode: F, values: Seq<SemanticLiteralV>, chunks: Seq<Seq<u8>>) -> bool {
    &&& chunks.len() == values.len()
    &&& forall|k: int| 0 <= k < values.len() ==> float_chunk(encode, #[trigger] values[k].float_part(), chunks[k])
}

impl SemanticLiteral {
    /// Writes the literal's bytes: integers big-endian, a string as UTF-8;
    /// `encode_float` gives the bytes of a floating point value from its
    /// text.
    pub fn serialize<F: Fn(&String, bool) -> Vec<u8>>(&self, stream: &mut BytecodeStream, encode_float: &F)
        requires
            forall|t: &String, d: bool| encode_float.requires((t, d)),
        ensures
            exists|fb: Seq<u8>| float_chunk(*encode_float, self@.float_part(), fb)
                && final(stream)@ == old(stream)@ + self@.packed(fb),
    {
        match self {
            SemanticLiteral::UntypedInteger(i) => {
                stream.write_be_u64(*i as u64);
                let ghost fb = Seq::<u8>::empty();
                assert(float_chunk(*encode_float, self@.float_part(), fb));
                assert(stream@ == old(stream)@ + self@.packed(fb));
            },
            SemanticLiteral::UntypedFloating(t) => {
                stream.write_float(t, true, encode_float);
                let ghost fb = choose|b: Seq<u8>| float_encoding(*encode_float, t@, true, b) && stream@ == old(stream)@ + b;
                assert(float_chunk(*encode_float, self@.float_part(), fb));
                assert(stream@ == old(stream)@ + self@.packed(fb));
            },
            SemanticLiteral::Typed(t) => {
                t.serialize(stream, encode_float);
            },
            SemanticLiteral::String(s) => {
                stream.write_bytes(s.as_str().as_bytes());
                let ghost fb = Seq::<u8>::empty();
                assert(float_chunk(*encode_float, self@.float_part(), fb));
                assert(stream@ == old(stream)@ + self@.packed(fb));
            },
        }
    }

    /// Returns a copy of the literal.
    pub fn duplicate(&self) -> (r: Self)
        ensures
            r@ == self@,
    {
        match self {
            SemanticLiteral::UntypedInteger(i) => SemanticLiteral::UntypedInteger(*i),
            SemanticLiteral::UntypedFloating(t) => SemanticLiteral::UntypedFloating(t.clone()),
            SemanticLiteral::Typed(t) => SemanticLiteral::Typed(t.duplicate()),
            SemanticLiteral::String(s) => SemanticLiteral::String(s.clone()),
        }
    }

    /// Returns the number of bytes the literal occupies when packed.
    pub fn size(&self) -> (r: usize)
        ensures
            r == self@.size(),
    {
        match self {
            SemanticLiteral::UntypedInteger(_) => DataType::Qword.size(),
            SemanticLiteral::UntypedFloating(_) => DataType::Double.size(),
            SemanticLiteral::Typed(t) => t.size(),
            SemanticLiteral::String(s) => s.as_str().len(),
        }
    }

    /// Returns the typed literal this literal stands for; a string literal has none.
    pub fn to_data_type(&self) -> (r: DataTypeLiteral)
        requires
            !(self@ is String),
        ensures
            r@ == self@.to_data_type(),
    {
        match self {
            SemanticLiteral::UntypedInteger(i) => DataTypeLiteral::Qword(*i as u64),
            SemanticLiteral::UntypedFloating(t) => DataTypeLiteral::Double(t.clone()),
            SemanticLiteral::Typed(t) => t.duplicate(),
            SemanticLiteral::String(_) => DataTypeLiteral::Byte(0),
        }
    }
}

/// Copies a vector of literals.
pub fn duplicate_literals(v: &Vec<SemanticLiteral>) -> (r: Vec<SemanticLiteral>)
    ensures
        r@.map_values(|l: SemanticLiteral| l@) == v@.map_values(|l: SemanticLiteral| l@),
{
    let mut r: Vec<SemanticLiteral> = Vec::new();
    for i in 0..v.len()
        invariant
            r@.len() == i,
            forall|j: int| 0 <= j < i ==> #[trigger] r@[j]@ == v@[j]@,
    {
        r.push(v[i].duplicate());
    }
    assert(r@.map_values(|l: SemanticLiteral| l@) =~= v@.map_values(|l: SemanticLiteral| l@));
    r
}

/// The definition of a binding in the `.data` section.
#[derive(Debug, Clone)]
pub struct SemanticBindingDef {
    /// The name of the binding.
    pub name: String,
    /// Whether this is a constant binding, which cannot be written.
    pub constant: bool,
    /// The values of the binding, packed side by side in order.
    pub values: Vec<SemanticLiteral>,
}

/// The mathematical model of a [`SemanticBindingDef`].
pub struct SemanticBindingDefV {
    pub name: Seq<char>,
    pub constant: bool,
    pub values: Seq<SemanticLiteralV>,
}

impl View for SemanticBindingDef {
    type V = SemanticBindingDefV;

    open spec fn view(&self) -> SemanticBindingDefV {
        SemanticBindingDefV {
            name: self.name@,
            constant: self.constant,
            values: self.values@.map_values(|l: SemanticLiteral| l@),
        }
    }
}

/// The total packed size of a sequence of literals.
pub open spec fn literals_size(values: Seq<SemanticLiteralV>) -> nat
    decreases values.len(),
{
    if values.len() == 0 {
        0
    } else {
        literals_size(values.drop_last()) + values.last().size()
    }
}

impl SemanticBindingDef {
    /// Writes the values packed side by side; `encode_float` gives the
    /// bytes of a floating point value from its text.
    pub fn serialize<F: Fn(&String, bool) -> Vec<u8>>(&self, stream: &mut BytecodeStream, encode_float: &F)
        requires
            forall|t: &String, d: bool| encode_float.requires((t, d)),
        ensures
            exists|chunks: Seq<Seq<u8>>| chunks_valid(*encode_float, self@.values, chunks)
                && final(stream)@ == old(stream)@ + literals_packed(self@.values, chunks),
    {
        let ghost vals = self@.values;
        let ghost mut chunks: Seq<Seq<u8>> = Seq::empty();
        proof {
            assert(vals.subrange(0, 0) =~= Seq::<SemanticLiteralV>::empty());
            assert(stream@ =~= old(stream)@ + literals_packed(vals.subrange(0, 0), chunks));
        }
        for i in 0..self.values.len()
            invariant
                vals == self@.values,
                vals.len() == self.values@.len(),
                forall|t: &String, d: bool| encode_float.requires((t, d)),
                chunks_valid(*encode_float, vals.subrange(0, i as int), chunks),
                stream@ == old(stream)@ + literals_packed(vals.subrange(0, i as int), chunks),
        {
            let ghost before = stream@;
            self.values[i].serialize(stream, encode_float);
            proof {
                let fb = choose|fb: Seq<u8>| float_chunk(*encode_float, self.values@[i as int]@.float_part(), fb)
                    && stream@ == before + self.values@[i as int]@.packed(fb);
                assert(vals[i as int] == self.values@[i as int]@);
                let next = chunks.push(fb);
                assert(vals.subrange(0, i + 1).drop_last() =~= vals.subrange(0, i as int));
                assert(next.drop_last() =~= chunks);
                assert forall|k: int| 0 <= k < i + 1 implies float_chunk(*encode_float, #[trigger] vals.subrange(0, i + 1)[k].float_part(), next[k]) by {
                    if k < i {
                        assert(vals.subrange(0, i + 1)[k] == vals.subrange(0, i as int)[k]);
                    }
                }
                assert(stream@ =~= old(stream)@ + literals_packed(vals.subrange(0, i + 1), next));
                chunks = next;
            }
        }
        assert(vals.subrange(0, vals.len() as int) =~= vals);
    }

    /// Returns a copy of the definition.
    pub fn duplicate(&self) -> (r: Self)
        ensures
            r@ == self@,
    {
        SemanticBindingDef {
            name: self.name.clone(),
            constant: self.constant,
            values: duplicate_literals(&self.values),
        }
    }

    /// Returns the sum of the sizes of the values.
    pub fn total_size(&self) -> (r: usize)
        requires
            literals_size(self@.values) <= usize::MAX,
        ensures
            r == literals_size(self@.values),
    {
        let mut total: usize = 0;
        let ghost vals = self@.values;
        for i in 0..self.values.len()
            invariant
                vals == self@.values,
                literals_size(vals) <= usize::MAX,
                total == literals_size(vals.subrange(0, i as int)),
        {
            proof {
                assert(vals.subrange(0, i + 1).drop_last() =~= vals.subrange(0, i as int));
                lemma_literals_size_prefix(vals, i + 1);
            }
            total = total + self.values[i].size();
        }
        assert(vals.subrange(0, vals.len() as int) =~= vals);
        total
    }
}

/// The size of a prefix never exceeds the size of the whole.
pub proof fn lemma_literals_size_prefix(values: Seq<SemanticLiteralV>, n: int)
    requires
        0 <= n <= values.len(),
    ensures
        literals_size(values.subrange(0, n)) <= literals_size(values),
    decreases values.len() - n,
{
    if n < values.len() {
        lemma_literals_size_prefix(values, n + 1);
        assert(values.subrange(0, n + 1).drop_last() =~= values.subrange(0, n));
    } else {
        assert(values.subrange(0, n) =~= values);
    }
}

/// A location in memory that an operand reads or writes.
#[derive(Debug, Clone)]
pub enum SemanticDerefKind {
    /// The memory at the address of a variable binding (`&myBinding`).
    Binding(SemanticSymbol),
    /// The memory at the address held in a register (`&sp64`).
    Register(RegisterSpec),
    /// The memory at a fixed address (`&0x12345678`).
    Address(u64),
}

/// The mathematical model of a [`SemanticDerefKind`].
pub enum SemanticDerefKindV {
    Binding(SemanticSymbolV),
    Register(RegisterSpec),
    Address(u64),
}

impl View for SemanticDerefKind {
    type V = SemanticDerefKindV;

    open spec fn view(&self) -> SemanticDerefKindV {
        match self {
            SemanticDerefKind::Binding(s) => SemanticDerefKindV::Binding(s@),
            SemanticDerefKind::Register(r) => SemanticDerefKindV::Register(*r),
            SemanticDerefKind::Address(a) => SemanticDerefKindV::Address(*a),
        }
    }
}

/// A memory access, with a byte offset from the location.
#[derive(Debug, Clone)]
pub struct SemanticDeref {
    pub kind: SemanticDerefKind,
    pub offset: i64,
}

/// The mathematical model of a [`SemanticDeref`].
pub struct SemanticDerefV {
    pub kind: SemanticDerefKindV,
    pub offset: i64,
}

impl View for SemanticDeref {
    type V = SemanticDerefV;

    open spec fn view(&self) -> SemanticDerefV {
        SemanticDerefV { kind: self.kind@, offset: self.offset }
    }
}

/// A value the compiler can inline.
#[derive(Debug, Clone)]
pub enum SemanticImmediateType {
    /// A literal value (`42`, `0.5`).
    Literal(SemanticLiteral),
    /// A label (`_start`), resolved to an address plus an offset.
    Label(SemanticSymbol, i64),
    /// A variable binding, resolved to its address plus an offset.
    Binding(SemanticSymbol, i64),
    /// A constant binding (`&const MyBinding`), inlined to its value.
    ConstDerefBinding(SemanticSymbol),
}

/// The mathematical model of a [`SemanticImmediateType`].
pub enum SemanticImmediateTypeV {
    Literal(SemanticLiteralV),
    Label(SemanticSymbolV, i64),
    Binding(SemanticSymbolV, i64),
    ConstDerefBinding(SemanticSymbolV),
}

impl View for SemanticImmediateType {
    type V = SemanticImmediateTypeV;

    open spec fn view(&self) -> SemanticImmediateTypeV {
        match self {
            SemanticImmediateType::Literal(l) => SemanticImmediateTypeV::Literal(l@),
            SemanticImmediateType::Label(s, o) => SemanticImmediateTypeV::Label(s@, *o),
            SemanticImmediateType::Binding(s, o) => SemanticImmediateTypeV::Binding(s@, *o),
            SemanticImmediateType::ConstDerefBinding(s) => SemanticImmediateTypeV::ConstDerefBinding(s@),
        }
    }
}

impl SemanticImmediateType {
    /// An untyped integer literal holding the bits of `value`.
    pub fn from_u64_untyped(value: u64) -> (r: Self)
        ensures
            r@ == SemanticImmediateTypeV::Literal(SemanticLiteralV::UntypedInteger(value as i64)),
    {
        SemanticImmediateType::Literal(SemanticLiteral::UntypedInteger(value as i64))
    }
}

/// An operand of an instruction or compiler construct.
#[derive(Debug, Clone)]
pub enum SemanticOperand {
    /// A value the compiler can inline.
    Immediate(SemanticImmediateType),
    /// A register view, not dereferenced.
    Register(RegisterSpec),
    /// A memory access.
    Deref(SemanticDeref),
    /// An engine parameter (`#name`).
    EngineParam(String),
    /// An opcode mnemonic; only compiler constructs take these.
    Mnemonic(OpcodeMnemonic),
}

/// The mathematical model of a [`SemanticOperand`].
pub enum SemanticOperandV {
    Immediate(SemanticImmediateTypeV),
    Register(RegisterSpec),
    Deref(SemanticDerefV),
    EngineParam(Seq<char>),
    Mnemonic(OpcodeMnemonic),
}

impl View for SemanticOperand {
    type V = SemanticOperandV;

    open spec fn view(&self) -> SemanticOperandV {
        match self {
            SemanticOperand::Immediate(i) => SemanticOperandV::Immediate(i@),
            SemanticOperand::Register(r) => SemanticOperandV::Register(*r),
            SemanticOperand::Deref(d) => SemanticOperandV::Deref(d@),
            SemanticOperand::EngineParam(p) => SemanticOperandV::EngineParam(p@),
            SemanticOperand::Mnemonic(m) => SemanticOperandV::Mnemonic(*m),
        }
    }
}

/// The models of a sequence of operands.
pub open spec fn operands_view(v: Seq<SemanticOperand>) -> Seq<SemanticOperandV> {
    v.map_values(|o: SemanticOperand| o@)
}

/// A use of a symbol defined outside the sources being compiled.
#[derive(Debug, Clone)]
pub struct ExternalSymbolUsage {
    pub name: SymbolName,
    pub is_deref: bool,
}

impl ExternalSymbolUsage {
    /// Builds a usage record.
    pub fn new(name: SymbolName, is_deref: bool) -> (r: Self)
        ensures
            r.name == name,
            r.is_deref == is_deref,
    {
        ExternalSymbolUsage { name, is_deref }
    }
}

impl SemanticOperandV {
    /// The external symbol the operand names, and whether it is dereferenced.
    pub open spec fn external_symbol(self) -> Option<(SymbolNameV, bool)> {
        match self {
            SemanticOperandV::Immediate(SemanticImmediateTypeV::Label(s, _)) =>
                if s.external { Some((s.name, false)) } else { None },
            SemanticOperandV::Immediate(SemanticImmediateTypeV::Binding(s, _)) =>
                if s.external { Some((s.name, false)) } else { None },
            SemanticOperandV::Deref(SemanticDerefV { kind: SemanticDerefKindV::Binding(s), .. }) =>
                if s.external { Some((s.name, true)) } else { None },
            _ => None,
        }
    }
}

impl SemanticOperand {
    /// Returns a copy of the operand.
    pub fn duplicate(&self) -> (r: Self)
        ensures
            r@ == self@,
    {
        match self {
            SemanticOperand::Immediate(i) => SemanticOperand::Immediate(
                match i {
                    SemanticImmediateType::Literal(l) => SemanticImmediateType::Literal(l.duplicate()),
                    SemanticImmediateType::Label(s, o) => SemanticImmediateType::Label(s.duplicate(), *o),
                    SemanticImmediateType::Binding(s, o) => SemanticImmediateType::Binding(s.duplicate(), *o),
                    SemanticImmediateType::ConstDerefBinding(s) => SemanticImmediateType::ConstDerefBinding(
                        s.duplicate(),
                    ),
                },
            ),
            SemanticOperand::Register(r) => SemanticOperand::Register(*r),
            SemanticOperand::Deref(d) => SemanticOperand::Deref(
                SemanticDeref {
                    kind: match &d.kind {
                        SemanticDerefKind::Binding(s) => SemanticDerefKind::Binding(s.duplicate()),
                        SemanticDerefKind::Register(r) => SemanticDerefKind::Register(*r),
                        SemanticDerefKind::Address(a) => SemanticDerefKind::Address(*a),
                    },
                    offset: d.offset,
                },
            ),
            SemanticOperand::EngineParam(p) => SemanticOperand::EngineParam(p.clone()),
            SemanticOperand::Mnemonic(m) => SemanticOperand::Mnemonic(*m),
        }
    }

    /// Returns whether the operand is an immediate value.
    pub fn is_immediate(&self) -> (r: bool)
        ensures
            r == (self@ is Immediate),
    {
        match self {
            SemanticOperand::Immediate(_) => true,
            _ => false,
        }
    }

    /// Returns whether the operand is a register.
    pub fn is_register(&self) -> (r: bool)
        ensures
            r == (self@ is Register),
    {
        match self {
            SemanticOperand::Register(_) => true,
            _ => false,
        }
    }

    /// Returns whether the operand is a memory access.
    pub fn is_deref(&self) -> (r: bool)
        ensures
            r == (self@ is Deref),
    {
        match self {
            SemanticOperand::Deref(_) => true,
            _ => false,
        }
    }

    /// Returns whether the operand is an engine parameter.
    pub fn is_engine_param(&self) -> (r: bool)
        ensures
            r == (self@ is EngineParam),
    {
        match self {
            SemanticOperand::EngineParam(_) => true,
            _ => false,
        }
    }

    /// Returns whether the operand is a mnemonic.
    pub fn is_mnemonic(&self) -> (r: bool)
        ensures
            r == (self@ is Mnemonic),
    {
        match self {
            SemanticOperand::Mnemonic(_) => true,
            _ => false,
        }
    }

    /// Returns whether the operand is an immediate value or a register.
    pub fn is_immediate_or_register(&self) -> (r: bool)
        ensures
            r == (self@ is Immediate || self@ is Register),
    {
        self.is_immediate() || self.is_register()
    }

    /// Returns the external symbol the operand names, if any, with whether
    /// it is dereferenced.
    pub fn get_external_symbol(&self) -> (r: Option<ExternalSymbolUsage>)
        ensures
            match r {
                Some(u) => self@.external_symbol() == Some((u.name@, u.is_deref)),
                None => self@.external_symbol() is None,
            },
    {
        let (symbol, is_deref): (&SemanticSymbol, bool) = match self {
            SemanticOperand::Immediate(SemanticImmediateType::Label(s, _)) => (s, false),
            SemanticOperand::Immediate(SemanticImmediateType::Binding(s, _)) => (s, false),
            SemanticOperand::Deref(SemanticDeref { kind: SemanticDerefKind::Binding(s), .. }) => (s, true),
            _ => return None,
        };
        if !symbol.external {
            return None;
        }
        Some(ExternalSymbolUsage::new(symbol.name.duplicate(), is_deref))
    }
}

/// Copies a vector of operands.
pub fn duplicate_operands(v: &Vec<SemanticOperand>) -> (r: Vec<SemanticOperand>)
    ensures
        operands_view(r@) == operands_view(v@),
{
    let mut r: Vec<SemanticOperand> = Vec::new();
    for i in 0..v.len()
        invariant
            r@.len() == i,
            forall|j: int| 0 <= j < i ==> #[trigger] r@[j]@ == v@[j]@,
    {
        r.push(v[i].duplicate());
    }
    assert(operands_view(r@) =~= operands_view(v@));
    r
}

/// An instruction: a mnemonic and its operands.
#[derive(Debug, Clone)]
pub struct SemanticInstruction {
    pub opcode: OpcodeMnemonic,
    pub operands: Vec<SemanticOperand>,
}

/// The mathematical model of a [`SemanticInstruction`].
pub struct SemanticInstructionV {
    pub opcode: OpcodeMnemonic,
    pub operands: Seq<SemanticOperandV>,
}

impl View for SemanticInstruction {
    type V = SemanticInstructionV;

    open spec fn view(&self) -> SemanticInstructionV {
        SemanticInstructionV { opcode: self.opcode, operands: operands_view(self.operands@) }
    }
}

/// A compiler construct (`@name`) and its operands.
#[derive(Debug, Clone)]
pub struct SemanticCompilerConstruct {
    pub opcode: CompilerConstruct,
    pub operands: Vec<SemanticOperand>,
}

/// The mathematical model of a [`SemanticCompilerConstruct`].
pub struct SemanticCompilerConstructV {
    pub opcode: CompilerConstruct,
    pub operands: Seq<SemanticOperandV>,
}

impl View for SemanticCompilerConstruct {
    type V = SemanticCompilerConstructV;

    open spec fn view(&self) -> SemanticCompilerConstructV {
        SemanticCompilerConstructV { opcode: self.opcode, operands: operands_view(self.operands@) }
    }
}

impl SemanticCompilerConstruct {
    /// Returns a copy of the construct.
    pub fn duplicate(&self) -> (r: Self)
        ensures
            r@ == self@,
    {
        SemanticCompilerConstruct { opcode: self.opcode, operands: duplicate_operands(&self.operands) }
    }
}

/// One parsed line of F750 source.
#[derive(Debug, Clone)]
pub enum SemanticRepr {
    /// The start of a special section, such as `.data`.
    SpecialSection(String),
    /// A binding definition.
    BindingDef(SemanticBindingDef),
    /// A label.
    Label(SemanticSymbol),
    /// An instruction.
    Instruction(SemanticInstruction),
    /// A compiler construct.
    CompilerConstruct(SemanticCompilerConstruct),
}

/// The mathematical model of a [`SemanticRepr`].
pub enum SemanticReprV {
    SpecialSection(Seq<char>),
    BindingDef(SemanticBindingDefV),
    Label(SemanticSymbolV),
    Instruction(SemanticInstructionV),
    CompilerConstruct(SemanticCompilerConstructV),
}

impl View for SemanticRepr {
    type V = SemanticReprV;

    open spec fn view(&self) -> SemanticReprV {
        match self {
            SemanticRepr::SpecialSection(s) => SemanticReprV::SpecialSection(s@),
            SemanticRepr::BindingDef(d) => SemanticReprV::BindingDef(d@),
            SemanticRepr::Label(s) => SemanticReprV::Label(s@),
            SemanticRepr::Instruction(i) => SemanticReprV::Instruction(i@),
            SemanticRepr::CompilerConstruct(c) => SemanticReprV::CompilerConstruct(c@),
        }
    }
}

/// The models of a sequence of lines.
pub open spec fn reprs_view(v: Seq<SemanticRepr>) -> Seq<SemanticReprV> {
    v.map_values(|r: SemanticRepr| r@)
}

impl SemanticRepr {
    /// Returns a copy of the line.
    pub fn duplicate(&self) -> (r: Self)
        ensures
            r@ == self@,
    {
        match self {
            SemanticRepr::SpecialSection(s) => SemanticRepr::SpecialSection(s.clone()),
            SemanticRepr::BindingDef(d) => SemanticRepr::BindingDef(d.duplicate()),
            SemanticRepr::Label(s) => SemanticRepr::Label(s.duplicate()),
            SemanticRepr::Instruction(i) => SemanticRepr::Instruction(
                SemanticInstruction { opcode: i.opcode, operands: duplicate_operands(&i.operands) },
            ),
            SemanticRepr::CompilerConstruct(c) => SemanticRepr::CompilerConstruct(c.duplicate()),
        }
    }
}

/// Copies a slice of lines.
pub fn duplicate_reprs(v: &[SemanticRepr]) -> (r: Vec<SemanticRepr>)
    ensures
        reprs_view(r@) == reprs_view(v@),
{
    let mut r: Vec<SemanticRepr> = Vec::new();
    for i in 0..v.len()
        invariant
            r@.len() == i,
            forall|j: int| 0 <= j < i ==> #[trigger] r@[j]@ == v@[j]@,
    {
        r.push(v[i].duplicate());
    }
    assert(reprs_view(r@) =~= reprs_view(v@));
    r
}

/// A cursor over a sequence of lines.
#[derive(Debug, Clone)]
pub struct SemanticReprStream {
    lines: Vec<SemanticRepr>,
    cur: usize,
}

impl SemanticReprStream {
    /// The lines of the stream.
    pub closed spec fn lines(&self) -> Seq<SemanticReprV> {
        reprs_view(self.lines@)
    }

    /// The position of the cursor.
    pub closed spec fn position(&self) -> nat {
        self.cur as nat
    }

    /// A stream over a copy of `lines`, positioned at the first line.
    pub fn from(lines: &[SemanticRepr]) -> (r: Self)
        ensures
            r.lines() == reprs_view(lines@),
            r.position() == 0,
    {
        SemanticReprStream { lines: duplicate_reprs(lines), cur: 0 }
    }

    /// Returns the lines of the stream.
    pub fn into_inner(self) -> (r: Vec<SemanticRepr>)
        ensures
            reprs_view(r@) == self.lines(),
    {
        self.lines
    }

    /// Returns whether lines remain after the cursor.
    pub fn has_more(&self) -> (r: bool)
        ensures
            r == (self.position() < self.lines().len()),
    {
        self.cur < self.lines.len()
    }

    /// Returns the line at the cursor, if any.
    pub fn peek(&self) -> (r: Option<&SemanticRepr>)
        ensures
            match r {
                Some(line) => self.position() < self.lines().len() && line@ == self.lines()[self.position() as int],
                None => self.position() >= self.lines().len(),
            },
    {
        if self.cur < self.lines.len() {
            Some(&self.lines[self.cur])
        } else {
            None
        }
    }
}


// ---------------------------------------------------------------------
// Written forms.

/// `(extern) ` before the written form of an external symbol.
pub open spec fn extern_prefix(external: bool) -> Seq<char> {
    if external {
        seq!['(', 'e', 'x', 't', 'e', 'r', 'n', ')', ' ']
    } else {
        Seq::empty()
    }
}

impl SemanticLiteralV {
    /// The written form: `(qword) n`, `(double) x`, the data type and the
    /// value, or the string in quotes.
    pub open spec fn text(self) -> Seq<char> {
        match self {
            SemanticLiteralV::UntypedInteger(i) => seq!['(', 'q', 'w', 'o', 'r', 'd', ')', ' '] + decimal_text(i as int),
            SemanticLiteralV::UntypedFloating(t) => seq!['(', 'd', 'o', 'u', 'b', 'l', 'e', ')', ' '] + t,
            SemanticLiteralV::Typed(t) => t.data_type().spec_name() + seq![' '] + t.value_text(),
            SemanticLiteralV::String(s) => seq!['"'] + s + seq!['"'],
        }
    }
}

impl SemanticDerefKindV {
    /// The written form: `&binding`, `&register` or `&0xaddress`.
    pub open spec fn text(self) -> Seq<char> {
        match self {
            SemanticDerefKindV::Binding(b) => extern_prefix(b.external) + seq!['&'] + b.name.text(),
            SemanticDerefKindV::Register(r) => seq!['&'] + r.text(),
            SemanticDerefKindV::Address(a) => seq!['&', '0', 'x'] + hex_digits(a as nat),
        }
    }
}

impl SemanticDerefV {
    /// The written form: the kind, then `+n` or `-n` for a nonzero offset.
    pub open spec fn text(self) -> Seq<char> {
        if self.offset == 0 {
            self.kind.text()
        } else if self.offset > 0 {
            self.kind.text() + seq!['+'] + decimal_digits(self.offset as nat)
        } else {
            self.kind.text() + decimal_text(self.offset as int)
        }
    }
}

impl SemanticImmediateTypeV {
    /// The written form: a literal, `_label` with its offset, a binding
    /// with its offset, or `&const binding`.
    pub open spec fn text(self) -> Seq<char> {
        match self {
            SemanticImmediateTypeV::Literal(lit) => lit.text(),
            SemanticImmediateTypeV::Label(l, offset) => extern_prefix(l.external) + seq!['_'] + l.name.offset_text(offset),
            SemanticImmediateTypeV::Binding(b, offset) => b.name.offset_text(offset),
            SemanticImmediateTypeV::ConstDerefBinding(b) =>
                extern_prefix(b.external) + seq!['&', 'c', 'o', 'n', 's', 't', ' '] + b.name.text(),
        }
    }
}

impl SemanticOperandV {
    /// The written form of the operand.
    pub open spec fn text(self) -> Seq<char> {
        match self {
            SemanticOperandV::Immediate(i) => i.text(),
            SemanticOperandV::Register(r) => r.text(),
            SemanticOperandV::Deref(d) => d.text(),
            SemanticOperandV::EngineParam(p) => seq!['#'] + p,
            SemanticOperandV::Mnemonic(m) => m.spec_name(),
        }
    }

    /// Whether the operand can be written: a dereference's offset can be
    /// negated.
    pub open spec fn printable(self) -> bool {
        match self {
            SemanticOperandV::Deref(d) => d.offset != i64::MIN,
            _ => true,
        }
    }
}

/// The written forms of operands, separated by `, `.
pub open spec fn operands_text(ops: Seq<SemanticOperandV>) -> Seq<char>
    decreases ops.len(),
{
    if ops.len() == 0 {
        Seq::empty()
    } else if ops.len() == 1 {
        ops[0].text()
    } else {
        operands_text(ops.drop_last()) + seq![',', ' '] + ops.last().text()
    }
}

/// Whether every operand can be written.
pub open spec fn operands_printable(ops: Seq<SemanticOperandV>) -> bool {
    forall|i: int| 0 <= i < ops.len() ==> (#[trigger] ops[i]).printable()
}

/// The written forms of literals, separated by `, `.
pub open spec fn literals_text(values: Seq<SemanticLiteralV>) -> Seq<char>
    decreases values.len(),
{
    if values.len() == 0 {
        Seq::empty()
    } else if values.len() == 1 {
        values[0].text()
    } else {
        literals_text(values.drop_last()) + seq![',', ' '] + values.last().text()
    }
}

impl SemanticInstructionV {
    /// The written form: the mnemonic, a space, and the operands.
    pub open spec fn text(self) -> Seq<char> {
        self.opcode.spec_name() + seq![' '] + operands_text(self.operands)
    }
}

impl SemanticCompilerConstructV {
    /// The written form: `@`, the construct's name, a space, and the
    /// operands.
    pub open spec fn text(self) -> Seq<char> {
        seq!['@'] + self.opcode.spec_name() + seq![' '] + operands_text(self.operands)
    }
}

impl SemanticBindingDefV {
    /// The written form: `const ` for a constant binding, the name, `: `,
    /// and the values.
    pub open spec fn text(self) -> Seq<char> {
        (if self.constant { seq!['c', 'o', 'n', 's', 't', ' '] } else { Seq::empty() }) + self.name + seq![':', ' ']
            + literals_text(self.values)
    }
}

impl SemanticReprV {
    /// The written form of the line.
    pub open spec fn text(self) -> Seq<char> {
        match self {
            SemanticReprV::SpecialSection(s) => s,
            SemanticReprV::BindingDef(d) => d.text(),
            SemanticReprV::Label(l) => extern_prefix(l.external) + seq!['_'] + l.name.text() + seq![':'],
            SemanticReprV::Instruction(i) => i.text(),
            SemanticReprV::CompilerConstruct(c) => c.text(),
        }
    }

    /// Whether the line can be written: the offsets of its dereferences
    /// can be negated.
    pub open spec fn printable(self) -> bool {
        match self {
            SemanticReprV::Instruction(i) => operands_printable(i.operands),
            SemanticReprV::CompilerConstruct(c) => operands_printable(c.operands),
            _ => true,
        }
    }
}

fn write_extern_prefix(out: &mut Vec<char>, external: bool)
    ensures
        final(out)@ == old(out)@ + extern_prefix(external),
{
    if external {
        push_str(out, "(extern) ");
        proof {
            reveal_strlit("(extern) ");
        }
    }
    assert(out@ =~= old(out)@ + extern_prefix(external));
}

impl SemanticLiteral {
    /// Appends the written form.
    pub fn write_text(&self, out: &mut Vec<char>)
        ensures
            final(out)@ == old(out)@ + self@.text(),
    {
        match self {
            SemanticLiteral::UntypedInteger(i) => {
                push_str(out, "(qword) ");
                push_str(out, int_text(*i).as_str());
                proof {
                    reveal_strlit("(qword) ");
                }
            },
            SemanticLiteral::UntypedFloating(t) => {
                push_str(out, "(double) ");
                push_str(out, t.as_str());
                proof {
                    reveal_strlit("(double) ");
                }
            },
            SemanticLiteral::Typed(t) => {
                push_str(out, t.data_type().name().as_str());
                out.push(' ');
                push_str(out, t.value_string().as_str());
            },
            SemanticLiteral::String(v) => {
                out.push('"');
                push_str(out, v.as_str());
                out.push('"');
            },
        }
        assert(out@ =~= old(out)@ + self@.text());
    }

    /// Returns the written form.
    pub fn to_string(&self) -> (r: String)
        ensures
            r@ == self@.text(),
    {
        let mut out: Vec<char> = Vec::new();
        self.write_text(&mut out);
        assert(out@ =~= self@.text());
        string_of(out.as_slice())
    }
}

impl SemanticDerefKind {
    /// Appends the written form.
    pub fn write_text(&self, out: &mut Vec<char>)
        ensures
            final(out)@ == old(out)@ + self@.text(),
    {
        match self {
            SemanticDerefKind::Binding(b) => {
                write_extern_prefix(out, b.external);
                out.push('&');
                push_str(out, b.name.to_string().as_str());
            },
            SemanticDerefKind::Register(r) => {
                out.push('&');
                push_str(out, r.to_string().as_str());
            },
            SemanticDerefKind::Address(a) => {
                push_str(out, "&0x");
                proof {
                    reveal_strlit("&0x");
                }
                push_str(out, lower_hex_text(*a).as_str());
            },
        }
        assert(out@ =~= old(out)@ + self@.text());
    }

    /// Returns the written form.
    pub fn to_string(&self) -> (r: String)
        ensures
            r@ == self@.text(),
    {
        let mut out: Vec<char> = Vec::new();
        self.write_text(&mut out);
        assert(out@ =~= self@.text());
        string_of(out.as_slice())
    }
}

impl SemanticDeref {
    /// Appends the written form.
    pub fn write_text(&self, out: &mut Vec<char>)
        requires
            self.offset != i64::MIN,
        ensures
            final(out)@ == old(out)@ + self@.text(),
    {
        self.kind.write_text(out);
        if self.offset > 0 {
            out.push('+');
            push_str(out, unsigned_text(self.offset as u64).as_str());
        } else if self.offset < 0 {
            push_str(out, int_text(self.offset).as_str());
        }
        assert(out@ =~= old(out)@ + self@.text());
    }

    /// Returns the written form.
    pub fn to_string(&self) -> (r: String)
        requires
            self.offset != i64::MIN,
        ensures
            r@ == self@.text(),
    {
        let mut out: Vec<char> = Vec::new();
        self.write_text(&mut out);
        assert(out@ =~= self@.text());
        string_of(out.as_slice())
    }
}

impl SemanticImmediateType {
    /// Appends the written form.
    pub fn write_text(&self, out: &mut Vec<char>)
        ensures
            final(out)@ == old(out)@ + self@.text(),
    {
        match self {
            SemanticImmediateType::Literal(lit) => lit.write_text(out),
            SemanticImmediateType::Label(l, offset) => {
                write_extern_prefix(out, l.external);
                out.push('_');
                push_str(out, l.name.format_offset(*offset).as_str());
            },
            SemanticImmediateType::Binding(b, offset) => {
                push_str(out, b.name.format_offset(*offset).as_str());
            },
            SemanticImmediateType::ConstDerefBinding(b) => {
                write_extern_prefix(out, b.external);
                push_str(out, "&const ");
                proof {
                    reveal_strlit("&const ");
                }
                push_str(out, b.name.to_string().as_str());
            },
        }
        assert(out@ =~= old(out)@ + self@.text());
    }

    /// Returns the written form.
    pub fn to_string(&self) -> (r: String)
        ensures
            r@ == self@.text(),
    {
        let mut out: Vec<char> = Vec::new();
        self.write_text(&mut out);
        assert(out@ =~= self@.text());
        string_of(out.as_slice())
    }
}

impl SemanticOperand {
    /// Appends the written form.
    pub fn write_text(&self, out: &mut Vec<char>)
        requires
            self@.printable(),
        ensures
            final(out)@ == old(out)@ + self@.text(),
    {
        match self {
            SemanticOperand::Immediate(i) => i.write_text(out),
            SemanticOperand::Register(r) => push_str(out, r.to_string().as_str()),
            SemanticOperand::Deref(d) => d.write_text(out),
            SemanticOperand::EngineParam(p) => {
                out.push('#');
                push_str(out, p.as_str());
            },
            SemanticOperand::Mnemonic(m) => push_str(out, m.name().as_str()),
        }
        assert(out@ =~= old(out)@ + self@.text());
    }

    /// Returns the written form.
    pub fn to_string(&self) -> (r: String)
        requires
            self@.printable(),
        ensures
            r@ == self@.text(),
    {
        let mut out: Vec<char> = Vec::new();
        self.write_text(&mut out);
        assert(out@ =~= self@.text());
        string_of(out.as_slice())
    }
}

/// Appends the written forms of operands, separated by `, `.
fn write_operands(out: &mut Vec<char>, ops: &Vec<SemanticOperand>)
    requires
        operands_printable(operands_view(ops@)),
    ensures
        final(out)@ == old(out)@ + operands_text(operands_view(ops@)),
{
    let ghost v = operands_view(ops@);
    for i in 0..ops.len()
        invariant
            v == operands_view(ops@),
            operands_printable(v),
            out@ == old(out)@ + operands_text(v.subrange(0, i as int)),
    {
        proof {
            assert(v[i as int] == ops@[i as int]@);
            assert(v.subrange(0, i + 1).drop_last() =~= v.subrange(0, i as int));
            assert(v.subrange(0, i + 1).last() == v[i as int]);
            assert(v[i as int].printable());
        }
        let ghost before = out@;
        if i > 0 {
            out.push(',');
            out.push(' ');
        }
        ops[i].write_text(out);
        proof {
            if i == 0 {
                assert(v.subrange(0, 1)[0] == v[0]);
            }
            assert(out@ =~= old(out)@ + operands_text(v.subrange(0, i + 1)));
        }
    }
    assert(v.subrange(0, v.len() as int) =~= v);
}

/// Appends the written forms of literals, separated by `, `.
fn write_literals(out: &mut Vec<char>, values: &Vec<SemanticLiteral>)
    ensures
        final(out)@ == old(out)@ + literals_text(values@.map_values(|l: SemanticLiteral| l@)),
{
    let ghost v = values@.map_values(|l: SemanticLiteral| l@);
    for i in 0..values.len()
        invariant
            v == values@.map_values(|l: SemanticLiteral| l@),
            out@ == old(out)@ + literals_text(v.subrange(0, i as int)),
    {
        proof {
            assert(v[i as int] == values@[i as int]@);
            assert(v.subrange(0, i + 1).drop_last() =~= v.subrange(0, i as int));
            assert(v.subrange(0, i + 1).last() == v[i as int]);
        }
        if i > 0 {
            out.push(',');
            out.push(' ');
        }
        values[i].write_text(out);
        proof {
            if i == 0 {
                assert(v.subrange(0, 1)[0] == v[0]);
            }
            assert(out@ =~= old(out)@ + literals_text(v.subrange(0, i + 1)));
        }
    }
    assert(v.subrange(0, v.len() as int) =~= v);
}

impl SemanticInstruction {
    /// Returns the written form: the mnemonic, a space, and the operands.
    pub fn to_string(&self) -> (r: String)
        requires
            operands_printable(self@.operands),
        ensures
            r@ == self@.text(),
    {
        let mut out: Vec<char> = Vec::new();
        push_str(&mut out, self.opcode.name().as_str());
        out.push(' ');
        write_operands(&mut out, &self.operands);
        assert(out@ =~= self@.text());
        string_of(out.as_slice())
    }
}

impl SemanticCompilerConstruct {
    /// Returns the written form: `@`, the construct's name, a space, and
    /// the operands.
    pub fn to_string(&self) -> (r: String)
        requires
            operands_printable(self@.operands),
        ensures
            r@ == self@.text(),
    {
        let mut out: Vec<char> = Vec::new();
        out.push('@');
        push_str(&mut out, self.opcode.name().as_str());
        out.push(' ');
        write_operands(&mut out, &self.operands);
        assert(out@ =~= self@.text());
        string_of(out.as_slice())
    }
}

impl SemanticBindingDef {
    /// Returns the written form: `const ` for a constant binding, the
    /// name, `: `, and the values.
    pub fn to_string(&self) -> (r: String)
        ensures
            r@ == self@.text(),
    {
        let mut out: Vec<char> = Vec::new();
        if self.constant {
            push_str(&mut out, "const ");
            proof {
                reveal_strlit("const ");
            }
        }
        push_str(&mut out, self.name.as_str());
        out.push(':');
        out.push(' ');
        write_literals(&mut out, &self.values);
        assert(out@ =~= self@.text());
        string_of(out.as_slice())
    }
}

impl SemanticRepr {
    /// Returns the written form of the line.
    pub fn to_string(&self) -> (r: String)
        requires
            self@.printable(),
        ensures
            r@ == self@.text(),
    {
        match self {
            SemanticRepr::SpecialSection(s) => s.clone(),
            SemanticRepr::BindingDef(d) => d.to_string(),
            SemanticRepr::Label(l) => {
                let mut out: Vec<char> = Vec::new();
                write_extern_prefix(&mut out, l.external);
                out.push('_');
                push_str(&mut out, l.name.to_string().as_str());
                out.push(':');
                assert(out@ =~= self@.text());
                string_of(out.as_slice())
            },
            SemanticRepr::Instruction(i) => i.to_string(),
            SemanticRepr::CompilerConstruct(c) => c.to_string(),
        }
    }
}


impl From<String> for SemanticSymbol {
    /// The local symbol with the unqualified name `name`.
    fn from(name: String) -> (r: SemanticSymbol) {
        SemanticSymbol { name: SymbolName { name, namespace: None }, external: false }
    }
}

impl vstd::std_specs::convert::FromSpecImpl<String> for SemanticSymbol {
    open spec fn obeys_from_spec() -> bool {
        true
    }

    open spec fn from_spec(v: String) -> SemanticSymbol {
        SemanticSymbol { name: SymbolName { name: v, namespace: None }, external: false }
    }
}

} // verus!
