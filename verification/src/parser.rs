//! Parsing of tokenized lines into their semantic representation.
use vstd::prelude::*;
use crate::opcode::{CompilerConstruct, OpcodeMnemonic, ReservedWord};
use crate::semantic::{
    SemanticBindingDef, SemanticBindingDefV, SemanticCompilerConstruct, SemanticCompilerConstructV,
    SemanticDeref, SemanticDerefKind, SemanticDerefKindV, SemanticDerefV, SemanticImmediateType,
    SemanticImmediateTypeV, SemanticInstruction, SemanticInstructionV, SemanticLiteral,
    SemanticLiteralV, SemanticOperand, SemanticOperandV, SemanticRepr, SemanticReprV,
    SemanticSymbol, SemanticSymbolV, operands_view,
};
use crate::text::{chars_of, decimal_text, int_text, push_str, string_of, string_of_range};
use crate::tokenizer::{Token, TokenStream, TokenV, drop_whitespace, lemma_drop_whitespace, tokens_view};
use crate::value::{
    DataType, RegisterSpec, RegisterSpecError, RegisterSpecErrorV, SymbolName, SymbolNameV,
    spec_parse_register_spec,
};

verus! {

/// A parse error, with the number (from 1) and the tokens of the line it occurred on.
#[derive(Debug, Clone)]
pub struct ParseErrorDetails {
    pub kind: ParseError,
    pub line_count: usize,
    pub line: Vec<Token>,
}

/// The result of a parsing step.
pub type ParseResult<T> = Result<T, ParseError>;

/// Why a line could not be parsed.
#[derive(Debug, Clone)]
pub enum ParseError {
    UnterminatedQuote,
    UnexpectedToken(String),
    UnexpectedEOL,
    InvalidLabel(String),
    InvalidDataTypeForLiteral(String, DataType),
    InvalidRegisterSpec(RegisterSpecError),
    ConstantRegisterDerefNotAllowed,
    LabelDerefNotAllowed,
    DerefNotAllowed,
    OffsetNotAllowed,
    ConstantDerefNotAllowed,
    NonDerefOffsetNotAllowed,
    ConstantBindingDerefOffsetNotAllowed,
    ZeroAddressNotAllowed,
}

/// The mathematical model of a [`ParseError`]; the message of an
/// unexpected-token error is not modelled.
pub enum ParseErrorV {
    UnterminatedQuote,
    UnexpectedToken,
    UnexpectedEOL,
    InvalidLabel(Seq<char>),
    InvalidDataTypeForLiteral(Seq<char>, DataType),
    InvalidRegisterSpec(RegisterSpecErrorV),
    ConstantRegisterDerefNotAllowed,
    LabelDerefNotAllowed,
    DerefNotAllowed,
    OffsetNotAllowed,
    ConstantDerefNotAllowed,
    NonDerefOffsetNotAllowed,
    ConstantBindingDerefOffsetNotAllowed,
    ZeroAddressNotAllowed,
}

impl View for ParseError {
    type V = ParseErrorV;

    open spec fn view(&self) -> ParseErrorV {
        match self {
            ParseError::UnterminatedQuote => ParseErrorV::UnterminatedQuote,
            ParseError::UnexpectedToken(_) => ParseErrorV::UnexpectedToken,
            ParseError::UnexpectedEOL => ParseErrorV::UnexpectedEOL,
            ParseError::InvalidLabel(s) => ParseErrorV::InvalidLabel(s@),
            ParseError::InvalidDataTypeForLiteral(s, d) => ParseErrorV::InvalidDataTypeForLiteral(s@, *d),
            ParseError::InvalidRegisterSpec(e) => ParseErrorV::InvalidRegisterSpec(e@),
            ParseError::ConstantRegisterDerefNotAllowed => ParseErrorV::ConstantRegisterDerefNotAllowed,
            ParseError::LabelDerefNotAllowed => ParseErrorV::LabelDerefNotAllowed,
            ParseError::DerefNotAllowed => ParseErrorV::DerefNotAllowed,
            ParseError::OffsetNotAllowed => ParseErrorV::OffsetNotAllowed,
            ParseError::ConstantDerefNotAllowed => ParseErrorV::ConstantDerefNotAllowed,
            ParseError::NonDerefOffsetNotAllowed => ParseErrorV::NonDerefOffsetNotAllowed,
            ParseError::ConstantBindingDerefOffsetNotAllowed => ParseErrorV::ConstantBindingDerefOffsetNotAllowed,
            ParseError::ZeroAddressNotAllowed => ParseErrorV::ZeroAddressNotAllowed,
        }
    }
}


/// The text `const`, which marks a constant binding.
pub open spec fn const_word() -> Seq<char> {
    seq!['c', 'o', 'n', 's', 't']
}

/// Whether `t` marks a constant: the `const` keyword, or the word `const`.
pub open spec fn is_const_marker(t: TokenV) -> bool {
    t == TokenV::Keyword(ReservedWord::Const) || t == TokenV::Token(const_word())
}

// ---------------------------------------------------------------------
// Reading tokens, as the parser's specification sees it.

/// The next token that is not whitespace and the tokens after it.
pub open spec fn next_nw(rest: Seq<TokenV>) -> Result<(TokenV, Seq<TokenV>), ParseErrorV> {
    let d = drop_whitespace(rest);
    if d.len() > 0 {
        Ok((d[0], d.drop_first()))
    } else {
        Err(ParseErrorV::UnexpectedEOL)
    }
}

/// The next token that is not whitespace, if any.
pub open spec fn peek_nw(rest: Seq<TokenV>) -> Option<TokenV> {
    let d = drop_whitespace(rest);
    if d.len() > 0 {
        Some(d[0])
    } else {
        None
    }
}

/// The tokens after the next one, which must be `t`.
pub open spec fn expect_token(rest: Seq<TokenV>, t: TokenV) -> Result<Seq<TokenV>, ParseErrorV> {
    if rest.len() == 0 {
        Err(ParseErrorV::UnexpectedEOL)
    } else if rest[0] == t {
        Ok(rest.drop_first())
    } else {
        Err(ParseErrorV::UnexpectedToken)
    }
}

/// The tokens after the next non-whitespace one, which must be `t`.
pub open spec fn expect_nw(rest: Seq<TokenV>, t: TokenV) -> Result<Seq<TokenV>, ParseErrorV> {
    let d = drop_whitespace(rest);
    if d.len() == 0 {
        Err(ParseErrorV::UnexpectedEOL)
    } else if d[0] == t {
        Ok(d.drop_first())
    } else {
        Err(ParseErrorV::UnexpectedToken)
    }
}

pub proof fn lemma_next_nw_shrinks(rest: Seq<TokenV>)
    ensures
        next_nw(rest) matches Ok((_, r)) ==> r.len() < rest.len(),
        expect_nw(rest, TokenV::Colon) matches Ok(r) ==> r.len() < rest.len(),
{
    lemma_drop_whitespace(rest);
}

// ---------------------------------------------------------------------
// Operands.

/// The state of an operand being read: the operands finished so far, and
/// the dereference marks and offset gathered for the next one.
pub struct BuilderV {
    pub operands: Seq<SemanticOperandV>,
    pub deref: bool,
    pub const_deref: bool,
    pub offset: i64,
}

/// A builder with no operands and no marks.
pub open spec fn empty_builder() -> BuilderV {
    BuilderV { operands: Seq::empty(), deref: false, const_deref: false, offset: 0 }
}

/// `b` with its marks and offset cleared.
pub open spec fn builder_reset(b: BuilderV) -> BuilderV {
    BuilderV { operands: b.operands, deref: false, const_deref: false, offset: 0 }
}

/// `b` with `op` finished.
pub open spec fn builder_push(b: BuilderV, op: SemanticOperandV) -> BuilderV {
    BuilderV { operands: b.operands.push(op), deref: false, const_deref: false, offset: 0 }
}

/// `b` with its offset set to `offset`.
pub open spec fn builder_with_offset(b: BuilderV, offset: i64) -> BuilderV {
    BuilderV { operands: b.operands, deref: b.deref, const_deref: b.const_deref, offset }
}

/// Finishes `op`, which takes no dereference and no offset.
pub open spec fn builder_push_flat(b: BuilderV, op: SemanticOperandV) -> Result<BuilderV, ParseErrorV> {
    if b.deref || b.const_deref {
        Err(ParseErrorV::DerefNotAllowed)
    } else if b.offset != 0 {
        Err(ParseErrorV::OffsetNotAllowed)
    } else {
        Ok(builder_push(b, op))
    }
}

/// Finishes a register operand.
pub open spec fn builder_register(b: BuilderV, reg: RegisterSpec) -> Result<BuilderV, ParseErrorV> {
    if b.deref {
        if b.const_deref {
            Err(ParseErrorV::ConstantRegisterDerefNotAllowed)
        } else {
            Ok(builder_push(b, SemanticOperandV::Deref(SemanticDerefV {
                kind: SemanticDerefKindV::Register(reg),
                offset: b.offset,
            })))
        }
    } else if b.offset != 0 {
        Err(ParseErrorV::NonDerefOffsetNotAllowed)
    } else {
        Ok(builder_push(b, SemanticOperandV::Register(reg)))
    }
}

/// Finishes a binding operand.
pub open spec fn builder_binding(b: BuilderV, sym: SemanticSymbolV) -> Result<BuilderV, ParseErrorV> {
    if b.deref {
        if b.const_deref {
            if b.offset != 0 {
                Err(ParseErrorV::ConstantBindingDerefOffsetNotAllowed)
            } else {
                Ok(builder_push(b, SemanticOperandV::Immediate(SemanticImmediateTypeV::ConstDerefBinding(sym))))
            }
        } else {
            Ok(builder_push(b, SemanticOperandV::Deref(SemanticDerefV {
                kind: SemanticDerefKindV::Binding(sym),
                offset: b.offset,
            })))
        }
    } else {
        Ok(builder_push(b, SemanticOperandV::Immediate(SemanticImmediateTypeV::Binding(sym, b.offset))))
    }
}

/// Finishes a label operand.
pub open spec fn builder_label(b: BuilderV, sym: SemanticSymbolV) -> Result<BuilderV, ParseErrorV> {
    if b.deref || b.const_deref {
        Err(ParseErrorV::LabelDerefNotAllowed)
    } else {
        Ok(builder_push(b, SemanticOperandV::Immediate(SemanticImmediateTypeV::Label(sym, b.offset))))
    }
}

/// Finishes an integer operand: a literal, or a fixed address when dereferenced.
pub open spec fn builder_int(b: BuilderV, value: i64) -> Result<BuilderV, ParseErrorV> {
    if b.deref {
        if b.const_deref {
            Err(ParseErrorV::ConstantDerefNotAllowed)
        } else if b.offset != 0 {
            Err(ParseErrorV::NonDerefOffsetNotAllowed)
        } else if value == 0 {
            Err(ParseErrorV::ZeroAddressNotAllowed)
        } else {
            Ok(builder_push(b, SemanticOperandV::Deref(SemanticDerefV {
                kind: SemanticDerefKindV::Address(value as u64),
                offset: 0,
            })))
        }
    } else {
        Ok(builder_push(b, SemanticOperandV::Immediate(SemanticImmediateTypeV::Literal(
            SemanticLiteralV::UntypedInteger(value),
        ))))
    }
}

/// Collects the properties of operands as they are read, and builds them.
#[derive(Debug, Default)]
pub struct OperandsBuilder {
    operands: Vec<SemanticOperand>,
    deref: bool,
    const_deref: bool,
    offset: i64,
}

impl View for OperandsBuilder {
    type V = BuilderV;

    closed spec fn view(&self) -> BuilderV {
        BuilderV {
            operands: operands_view(self.operands@),
            deref: self.deref,
            const_deref: self.const_deref,
            offset: self.offset,
        }
    }
}

impl OperandsBuilder {
    /// A builder with no operands and no marks.
    pub fn new() -> (r: Self)
        ensures
            r@ == empty_builder(),
    {
        let r = OperandsBuilder { operands: Vec::new(), deref: false, const_deref: false, offset: 0 };
        assert(r@.operands =~= Seq::<SemanticOperandV>::empty());
        r
    }

    /// Clears the marks and the offset.
    pub fn reset(&mut self)
        ensures
            final(self)@ == builder_reset(old(self)@),
    {
        self.deref = false;
        self.const_deref = false;
        self.offset = 0;
    }

    fn push_next(&mut self, operand: SemanticOperand)
        ensures
            final(self)@ == builder_push(old(self)@, operand@),
    {
        self.operands.push(operand);
        self.reset();
        assert(self@.operands =~= old(self)@.operands.push(operand@));
    }

    fn ensure_flat(&self) -> (r: Result<(), ParseError>)
        ensures
            match r {
                Ok(()) => !self@.deref && !self@.const_deref && self@.offset == 0,
                Err(e) => if self@.deref || self@.const_deref {
                    e@ == ParseErrorV::DerefNotAllowed
                } else {
                    self@.offset != 0 && e@ == ParseErrorV::OffsetNotAllowed
                },
            },
    {
        if self.deref || self.const_deref {
            return Err(ParseError::DerefNotAllowed);
        }
        if self.offset != 0 {
            return Err(ParseError::OffsetNotAllowed);
        }
        Ok(())
    }

    /// Finishes `operand`, which must come without a dereference or an offset.
    pub fn push_next_flat(&mut self, operand: SemanticOperand) -> (r: Result<(), ParseError>)
        ensures
            match r {
                Ok(()) => builder_push_flat(old(self)@, operand@) == Ok::<_, ParseErrorV>(final(self)@),
                Err(e) => builder_push_flat(old(self)@, operand@) == Err::<BuilderV, _>(e@) && final(self)@ == old(self)@,
            },
    {
        self.ensure_flat()?;
        self.push_next(operand);
        Ok(())
    }

    /// Finishes a register operand, dereferenced or not.
    pub fn finalize_register(&mut self, reg: RegisterSpec) -> (r: Result<(), ParseError>)
        ensures
            match r {
                Ok(()) => builder_register(old(self)@, reg) == Ok::<_, ParseErrorV>(final(self)@),
                Err(e) => builder_register(old(self)@, reg) == Err::<BuilderV, _>(e@) && final(self)@ == old(self)@,
            },
    {
        if self.deref {
            if self.const_deref {
                return Err(ParseError::ConstantRegisterDerefNotAllowed);
            }
            let offset = self.offset;
            self.push_next(SemanticOperand::Deref(SemanticDeref {
                kind: SemanticDerefKind::Register(reg),
                offset,
            }));
        } else {
            if self.offset != 0 {
                return Err(ParseError::NonDerefOffsetNotAllowed);
            }
            self.push_next(SemanticOperand::Register(reg));
        }
        Ok(())
    }

    /// Finishes a binding operand: its address, its memory, or (with
    /// `&const`) its inlined value.
    pub fn finalize_binding(&mut self, symbol: SemanticSymbol) -> (r: Result<(), ParseError>)
        ensures
            match r {
                Ok(()) => builder_binding(old(self)@, symbol@) == Ok::<_, ParseErrorV>(final(self)@),
                Err(e) => builder_binding(old(self)@, symbol@) == Err::<BuilderV, _>(e@) && final(self)@ == old(self)@,
            },
    {
        let offset = self.offset;
        if self.deref {
            if self.const_deref {
                if offset != 0 {
                    return Err(ParseError::ConstantBindingDerefOffsetNotAllowed);
                }
                self.push_next(SemanticOperand::Immediate(SemanticImmediateType::ConstDerefBinding(symbol)));
            } else {
                self.push_next(SemanticOperand::Deref(SemanticDeref {
                    kind: SemanticDerefKind::Binding(symbol),
                    offset,
                }));
            }
        } else {
            self.push_next(SemanticOperand::Immediate(SemanticImmediateType::Binding(symbol, offset)));
        }
        Ok(())
    }

    /// Finishes a label operand, which cannot be dereferenced.
    pub fn finalize_label(&mut self, symbol: SemanticSymbol) -> (r: Result<(), ParseError>)
        ensures
            match r {
                Ok(()) => builder_label(old(self)@, symbol@) == Ok::<_, ParseErrorV>(final(self)@),
                Err(e) => builder_label(old(self)@, symbol@) == Err::<BuilderV, _>(e@) && final(self)@ == old(self)@,
            },
    {
        if self.deref || self.const_deref {
            return Err(ParseError::LabelDerefNotAllowed);
        }
        let offset = self.offset;
        self.push_next(SemanticOperand::Immediate(SemanticImmediateType::Label(symbol, offset)));
        Ok(())
    }

    /// Finishes an integer operand: a literal, or a fixed nonzero address
    /// when dereferenced.
    pub fn finalize_int_literal(&mut self, value: i64) -> (r: Result<(), ParseError>)
        ensures
            match r {
                Ok(()) => builder_int(old(self)@, value) == Ok::<_, ParseErrorV>(final(self)@),
                Err(e) => builder_int(old(self)@, value) == Err::<BuilderV, _>(e@) && final(self)@ == old(self)@,
            },
    {
        if self.deref {
            if self.const_deref {
                return Err(ParseError::ConstantDerefNotAllowed);
            }
            if self.offset != 0 {
                return Err(ParseError::NonDerefOffsetNotAllowed);
            }
            if value == 0 {
                return Err(ParseError::ZeroAddressNotAllowed);
            }
            self.push_next(SemanticOperand::Deref(SemanticDeref {
                kind: SemanticDerefKind::Address(value as u64),
                offset: 0,
            }));
        } else {
            self.push_next(SemanticOperand::Immediate(SemanticImmediateType::Literal(
                SemanticLiteral::UntypedInteger(value),
            )));
        }
        Ok(())
    }

    /// Returns the finished operands.
    pub fn into_operands(self) -> (r: Vec<SemanticOperand>)
        ensures
            operands_view(r@) == self@.operands,
    {
        self.operands
    }
}


/// Formats the message of an unexpected-token error: `context`, then the
/// found token's `Debug` form, with `format!`.
#[verifier::external_body]
pub(crate) fn unexpected_message(context: &str, found: &Token) -> String {
    format!("{}, found {:?}", context, found)
}

/// The memory offset written after an operand (`+ n`, or a negative
/// literal), and the tokens after it; zero when none is written.
pub open spec fn spec_token_offset(rest: Seq<TokenV>) -> Result<(i64, Seq<TokenV>), ParseErrorV> {
    match peek_nw(rest) {
        Some(TokenV::Offset) => {
            let r1 = drop_whitespace(rest).drop_first();
            match next_nw(r1) {
                Ok((TokenV::IntLiteral(n), r2)) => Ok((n, r2)),
                Ok(_) => Err(ParseErrorV::UnexpectedToken),
                Err(e) => Err(e),
            }
        },
        Some(TokenV::IntLiteral(n)) => if n < 0 {
            Ok((n, drop_whitespace(rest).drop_first()))
        } else {
            Ok((0, rest))
        },
        _ => Ok((0, rest)),
    }
}

/// A symbol `first`, or `first::second` when a namespace separator follows,
/// and the tokens after it.
pub open spec fn spec_symbol(first: Seq<char>, rest: Seq<TokenV>) -> Result<(SemanticSymbolV, Seq<TokenV>), ParseErrorV> {
    match peek_nw(rest) {
        Some(TokenV::NamespaceSeparator) => {
            let r1 = drop_whitespace(rest).drop_first();
            match next_nw(r1) {
                Ok((TokenV::Token(second), r2)) => Ok((
                    SemanticSymbolV {
                        name: SymbolNameV { name: second, namespace: Some(first) },
                        external: false,
                    },
                    r2,
                )),
                Ok(_) => Err(ParseErrorV::UnexpectedToken),
                Err(e) => Err(e),
            }
        },
        _ => Ok((
            SemanticSymbolV { name: SymbolNameV { name: first, namespace: None }, external: false },
            rest,
        )),
    }
}

/// The literal of data type `dt` written as the token `tok`.
pub open spec fn spec_typed_literal(dt: DataType, tok: TokenV) -> Result<SemanticLiteralV, ParseErrorV> {
    match tok {
        TokenV::IntLiteral(n) => if dt.spec_is_floating_point() {
            dt.spec_float_literal(decimal_text(n as int))
        } else {
            dt.spec_int_literal(n)
        },
        TokenV::FloatLiteral(t) => dt.spec_float_literal(t),
        _ => Err(ParseErrorV::UnexpectedToken),
    }
}

pub proof fn lemma_rest_shrinks(rest: Seq<TokenV>, first: Seq<char>)
    ensures
        spec_token_offset(rest) matches Ok((_, r)) ==> r.len() <= rest.len(),
        spec_symbol(first, rest) matches Ok((_, r)) ==> r.len() <= rest.len(),
{
    lemma_drop_whitespace(rest);
    if drop_whitespace(rest).len() > 0 {
        lemma_drop_whitespace(drop_whitespace(rest).drop_first());
    }
}

/// Reads the memory offset written after an operand; zero when none is.
fn parse_token_offset(stream: &mut TokenStream) -> (r: Result<i64, ParseError>)
    requires
        old(stream).wf(),
    ensures
        final(stream).wf(),
        final(stream).position() + final(stream).rest().len() == old(stream).position() + old(stream).rest().len(),
        match r {
            Ok(n) => spec_token_offset(old(stream).rest()) == Ok::<_, ParseErrorV>((n, final(stream).rest())),
            Err(e) => spec_token_offset(old(stream).rest()) == Err::<(i64, Seq<TokenV>), _>(e@),
        },
{
    let token = match stream.peek_non_whitespace() {
        None => return Ok(0),
        Some(t) => t.duplicate(),
    };
    match token {
        Token::Offset => {
            stream.next_non_whitespace_or_err()?;
            let offset_token = stream.next_non_whitespace_or_err()?;
            match offset_token {
                Token::IntLiteral(n) => Ok(n),
                _ => Err(ParseError::UnexpectedToken(
                    unexpected_message("Expected an integer literal for offset", &offset_token),
                )),
            }
        },
        Token::IntLiteral(n) => {
            if n < 0 {
                stream.next_non_whitespace_or_err()?;
                Ok(n)
            } else {
                Ok(0)
            }
        },
        _ => Ok(0),
    }
}

/// Reads a symbol `first` or `first::second`.
fn parse_semantic_symbol(first: &str, stream: &mut TokenStream) -> (r: Result<SemanticSymbol, ParseError>)
    requires
        old(stream).wf(),
    ensures
        final(stream).wf(),
        match r {
            Ok(s) => spec_symbol(first@, old(stream).rest()) == Ok::<_, ParseErrorV>((s@, final(stream).rest())),
            Err(e) => spec_symbol(first@, old(stream).rest()) == Err::<(SemanticSymbolV, Seq<TokenV>), _>(e@),
        },
{
    let is_ns = match stream.peek_non_whitespace() {
        Some(Token::NamespaceSeparator) => true,
        _ => false,
    };
    if is_ns {
        stream.next_non_whitespace_or_err()?;
        let second = stream.next_non_whitespace_or_err()?;
        match second {
            Token::Token(name) => Ok(SemanticSymbol {
                name: SymbolName { name, namespace: Some(string_of(chars_of(first).as_slice())) },
                external: false,
            }),
            _ => Err(ParseError::UnexpectedToken(unexpected_message(
                "Expected a label or binding name after namespace separator",
                &second,
            ))),
        }
    } else {
        Ok(SemanticSymbol::local(first))
    }
}


/// The lowercase name of a data type, for messages.
fn data_type_name(dt: DataType) -> (r: &'static str)
    ensures
        r@ == dt.spec_name(),
{
    match dt {
        DataType::Byte => {
            proof {
                reveal_strlit("byte");
            }
            "byte"
        },
        DataType::Word => {
            proof {
                reveal_strlit("word");
            }
            "word"
        },
        DataType::Dword => {
            proof {
                reveal_strlit("dword");
            }
            "dword"
        },
        DataType::Qword => {
            proof {
                reveal_strlit("qword");
            }
            "qword"
        },
        DataType::Float => {
            proof {
                reveal_strlit("float");
            }
            "float"
        },
        DataType::Double => {
            proof {
                reveal_strlit("double");
            }
            "double"
        },
    }
}

/// Formats the message for a token that should have been a literal of the
/// data type named `dt_name`, with `format!` and the token's `Debug` form.
#[verifier::external_body]
fn literal_for_type_message(dt_name: &str, found: &Token) -> String {
    format!("Expected a literal value for data type {}, found {:?}", dt_name, found)
}

/// Reads the literal of data type `dt` written as the token `tok`.
fn typed_literal(dt: DataType, tok: &Token) -> (r: Result<SemanticLiteral, ParseError>)
    ensures
        match r {
            Ok(l) => spec_typed_literal(dt, tok@) == Ok::<_, ParseErrorV>(l@),
            Err(e) => spec_typed_literal(dt, tok@) == Err::<SemanticLiteralV, _>(e@),
        },
{
    match tok {
        Token::IntLiteral(n) => {
            if dt.is_floating_point() {
                let t = int_text(*n);
                dt.as_float_literal_typed(t.as_str())
            } else {
                dt.as_int_literal_typed(*n)
            }
        },
        Token::FloatLiteral(t) => dt.as_float_literal_typed(t.as_str()),
        _ => Err(ParseError::UnexpectedToken(literal_for_type_message(data_type_name(dt), tok))),
    }
}

/// The effect of an operand word `t` (a mnemonic when `allow`, a register,
/// a data type and its literal, a label or a binding), with the tokens
/// after it.
pub open spec fn spec_word_operand(t: Seq<char>, r: Seq<TokenV>, b: BuilderV, allow: bool) -> Result<(Seq<TokenV>, BuilderV), ParseErrorV> {
    if allow && OpcodeMnemonic::spec_from_name(t) is Some {
        match builder_push_flat(b, SemanticOperandV::Mnemonic(OpcodeMnemonic::spec_from_name(t)->0)) {
            Ok(b1) => Ok((r, b1)),
            Err(e) => Err(e),
        }
    } else {
        match spec_parse_register_spec(t) {
            Ok(reg) => match spec_token_offset(r) {
                Ok((off, r1)) => match builder_register(builder_with_offset(b, off), reg) {
                    Ok(b1) => Ok((r1, b1)),
                    Err(e) => Err(e),
                },
                Err(e) => Err(e),
            },
            Err(_) => match DataType::spec_from_name(t) {
                Some(dt) => match next_nw(r) {
                    Ok((tok, r1)) => match spec_typed_literal(dt, tok) {
                        Ok(lit) => match builder_push_flat(
                            b,
                            SemanticOperandV::Immediate(SemanticImmediateTypeV::Literal(lit)),
                        ) {
                            Ok(b1) => match spec_token_offset(r1) {
                                Ok((off, r2)) => Ok((r2, builder_with_offset(b1, off))),
                                Err(e) => Err(e),
                            },
                            Err(e) => Err(e),
                        },
                        Err(e) => Err(e),
                    },
                    Err(e) => Err(e),
                },
                None => if t.len() > 0 && t[0] == '_' {
                    if t.len() == 1 {
                        Err(ParseErrorV::InvalidLabel(t))
                    } else {
                        match spec_symbol(t.drop_first(), r) {
                            Ok((sym, r1)) => match spec_token_offset(r1) {
                                Ok((off, r2)) => match builder_label(builder_with_offset(b, off), sym) {
                                    Ok(b1) => Ok((r2, b1)),
                                    Err(e) => Err(e),
                                },
                                Err(e) => Err(e),
                            },
                            Err(e) => Err(e),
                        }
                    }
                } else {
                    match spec_symbol(t, r) {
                        Ok((sym, r1)) => match spec_token_offset(r1) {
                            Ok((off, r2)) => match builder_binding(builder_with_offset(b, off), sym) {
                                Ok(b1) => Ok((r2, b1)),
                                Err(e) => Err(e),
                            },
                            Err(e) => Err(e),
                        },
                        Err(e) => Err(e),
                    }
                },
            },
        }
    }
}

/// One step of reading operands: the effect of the next non-whitespace
/// token (and what follows it), with the tokens after it.
pub open spec fn spec_arg_step(rest: Seq<TokenV>, b: BuilderV, allow: bool) -> Result<(Seq<TokenV>, BuilderV), ParseErrorV> {
    match next_nw(rest) {
        Err(e) => Err(e),
        Ok((tok, r)) => match tok {
            TokenV::Separator => Ok((r, builder_reset(b))),
            TokenV::Deref => if b.deref {
                Err(ParseErrorV::UnexpectedToken)
            } else {
                let b1 = BuilderV { operands: b.operands, deref: true, const_deref: b.const_deref, offset: b.offset };
                match peek_nw(r) {
                    Some(t) => if is_const_marker(t) {
                        let b2 = BuilderV { operands: b.operands, deref: true, const_deref: true, offset: b.offset };
                        match expect_token(drop_whitespace(r).drop_first(), TokenV::Whitespace) {
                            Ok(r2) => Ok((r2, b2)),
                            Err(e) => Err(e),
                        }
                    } else {
                        Ok((r, b1))
                    },
                    None => Ok((r, b1)),
                }
            },
            TokenV::Hashtag => match next_nw(r) {
                Ok((TokenV::Token(name), r1)) => match builder_push_flat(b, SemanticOperandV::EngineParam(name)) {
                    Ok(b1) => Ok((r1, b1)),
                    Err(e) => Err(e),
                },
                Ok(_) => Err(ParseErrorV::UnexpectedToken),
                Err(e) => Err(e),
            },
            TokenV::Token(t) => spec_word_operand(t, r, b, allow),
            TokenV::IntLiteral(n) => match builder_int(b, n) {
                Ok(b1) => Ok((r, b1)),
                Err(e) => Err(e),
            },
            TokenV::FloatLiteral(t) => match builder_push_flat(
                b,
                SemanticOperandV::Immediate(SemanticImmediateTypeV::Literal(SemanticLiteralV::UntypedFloating(t))),
            ) {
                Ok(b1) => Ok((r, b1)),
                Err(e) => Err(e),
            },
            _ => Err(ParseErrorV::UnexpectedToken),
        },
    }
}

/// The operands read from `rest`, starting from builder `b`.
pub open spec fn spec_args_loop(rest: Seq<TokenV>, b: BuilderV, allow: bool) -> Result<Seq<SemanticOperandV>, ParseErrorV>
    decreases rest.len(),
{
    if rest.len() == 0 {
        Ok(b.operands)
    } else {
        match spec_arg_step(rest, b, allow) {
            Ok((r, b1)) => if r.len() < rest.len() {
                spec_args_loop(r, b1, allow)
            } else {
                Ok(b1.operands)
            },
            Err(e) => Err(e),
        }
    }
}

/// The operands of an instruction or construct written as `rest`.
pub open spec fn spec_parse_arguments(rest: Seq<TokenV>, allow: bool) -> Result<Seq<SemanticOperandV>, ParseErrorV> {
    spec_args_loop(rest, empty_builder(), allow)
}

pub proof fn lemma_word_operand_shrinks(t: Seq<char>, r: Seq<TokenV>, b: BuilderV, allow: bool)
    ensures
        spec_word_operand(t, r, b, allow) matches Ok((r2, _)) ==> r2.len() <= r.len(),
{
    lemma_rest_shrinks(r, t);
    lemma_next_nw_shrinks(r);
    if t.len() > 0 {
        lemma_rest_shrinks(r, t.drop_first());
    }
    match next_nw(r) {
        Ok((_, r1)) => {
            lemma_rest_shrinks(r1, t);
        },
        _ => {},
    }
    match spec_symbol(t, r) {
        Ok((_, r1)) => {
            lemma_rest_shrinks(r1, t);
        },
        _ => {},
    }
    if t.len() > 0 {
        match spec_symbol(t.drop_first(), r) {
            Ok((_, r1)) => {
                lemma_rest_shrinks(r1, t);
            },
            _ => {},
        }
    }
}

pub proof fn lemma_arg_step_shrinks(rest: Seq<TokenV>, b: BuilderV, allow: bool)
    ensures
        spec_arg_step(rest, b, allow) matches Ok((r, _)) ==> r.len() < rest.len(),
{
    lemma_next_nw_shrinks(rest);
    match next_nw(rest) {
        Ok((tok, r)) => {
            lemma_next_nw_shrinks(r);
            lemma_drop_whitespace(r);
            match tok {
                TokenV::Token(t) => {
                    lemma_word_operand_shrinks(t, r, b, allow);
                },
                _ => {},
            }
        },
        _ => {},
    }
}

/// Reads the operand that begins with the word `token`.
fn parse_word_operand(
    builder: &mut OperandsBuilder,
    token: String,
    stream: &mut TokenStream,
    allow_mnemonic_as_operand: bool,
) -> (r: Result<(), ParseError>)
    requires
        old(stream).wf(),
    ensures
        final(stream).wf(),
        match r {
            Ok(()) => spec_word_operand(token@, old(stream).rest(), old(builder)@, allow_mnemonic_as_operand)
                == Ok::<_, ParseErrorV>((final(stream).rest(), final(builder)@)),
            Err(e) => spec_word_operand(token@, old(stream).rest(), old(builder)@, allow_mnemonic_as_operand)
                == Err::<(Seq<TokenV>, BuilderV), _>(e@),
        },
{
    if allow_mnemonic_as_operand {
        if let Some(mnemonic) = OpcodeMnemonic::from_name(token.as_str()) {
            return builder.push_next_flat(SemanticOperand::Mnemonic(mnemonic));
        }
    }
    match RegisterSpec::parse(token.as_str()) {
        Ok(register) => {
            builder.offset = parse_token_offset(stream)?;
            return builder.finalize_register(register);
        },
        Err(_) => {},
    }
    if let Some(dt) = DataType::from_name(token.as_str()) {
        let next = stream.next_non_whitespace_or_err()?;
        let lit = typed_literal(dt, &next)?;
        builder.push_next_flat(SemanticOperand::Immediate(SemanticImmediateType::Literal(lit)))?;
        builder.offset = parse_token_offset(stream)?;
        return Ok(());
    }
    let v = chars_of(token.as_str());
    if v.len() > 0 && v[0] == crate::tokenizer::ATOM_UNDERLINE {
        if v.len() == 1 {
            return Err(ParseError::InvalidLabel(token));
        }
        let label_name = string_of_range(v.as_slice(), 1, v.len());
        assert(label_name@ =~= token@.drop_first());
        let symbol = parse_semantic_symbol(label_name.as_str(), stream)?;
        builder.offset = parse_token_offset(stream)?;
        return builder.finalize_label(symbol);
    }
    let symbol = parse_semantic_symbol(token.as_str(), stream)?;
    builder.offset = parse_token_offset(stream)?;
    builder.finalize_binding(symbol)
}


/// Formats a constant message as a `String`.
fn message(text: &str) -> (r: String)
    ensures
        r@ == text@,
{
    string_of(chars_of(text).as_slice())
}

/// Reads the next operand element from the stream into the builder.
fn parse_argument_step(
    builder: &mut OperandsBuilder,
    stream: &mut TokenStream,
    allow_mnemonic_as_operand: bool,
) -> (r: Result<(), ParseError>)
    requires
        old(stream).wf(),
    ensures
        final(stream).wf(),
        match r {
            Ok(()) => spec_arg_step(old(stream).rest(), old(builder)@, allow_mnemonic_as_operand)
                == Ok::<_, ParseErrorV>((final(stream).rest(), final(builder)@)),
            Err(e) => spec_arg_step(old(stream).rest(), old(builder)@, allow_mnemonic_as_operand)
                == Err::<(Seq<TokenV>, BuilderV), _>(e@),
        },
{
    let next = stream.next_non_whitespace_or_err()?;
    match next {
        Token::Separator => {
            builder.reset();
            Ok(())
        },
        Token::Deref => {
            if builder.deref {
                return Err(ParseError::UnexpectedToken(
                    message("Unexpected dereference after another dereference"),
                ));
            }
            builder.deref = true;
            let is_const = match stream.peek_non_whitespace() {
                Some(Token::Token(s)) => {
                    let v = chars_of(s.as_str());
                    crate::text::same_chars(v.as_slice(), &['c', 'o', 'n', 's', 't'])
                },
                Some(Token::Keyword(ReservedWord::Const)) => true,
                _ => false,
            };
            proof {
                let lit: &[char] = &['c', 'o', 'n', 's', 't'];
                assert(lit@ =~= const_word());
            }
            if is_const {
                stream.next_non_whitespace_or_err()?;
                builder.const_deref = true;
                stream.expect(Token::Whitespace)?;
            }
            Ok(())
        },
        Token::Hashtag => {
            let next = stream.next_non_whitespace_or_err()?;
            match next {
                Token::Token(param_name) => builder.push_next_flat(SemanticOperand::EngineParam(param_name)),
                _ => Err(ParseError::UnexpectedToken(
                    unexpected_message("Expected an engine parameter name after '#'", &next),
                )),
            }
        },
        Token::Token(token) => parse_word_operand(builder, token, stream, allow_mnemonic_as_operand),
        Token::IntLiteral(n) => builder.finalize_int_literal(n),
        Token::FloatLiteral(t) => builder.push_next_flat(
            SemanticOperand::Immediate(SemanticImmediateType::Literal(SemanticLiteral::UntypedFloating(t))),
        ),
        _ => Err(ParseError::UnexpectedToken(unexpected_message(
            "Expected a register, label, binding, or literal as operand",
            &next,
        ))),
    }
}

/// Reads the operands of an instruction or compiler construct; mnemonics
/// are operands only when `allow_mnemonic_as_operand` is set.
fn parse_arguments(stream: &mut TokenStream, allow_mnemonic_as_operand: bool) -> (r: Result<Vec<SemanticOperand>, ParseError>)
    requires
        old(stream).wf(),
    ensures
        final(stream).wf(),
        match r {
            Ok(ops) => spec_parse_arguments(old(stream).rest(), allow_mnemonic_as_operand)
                == Ok::<_, ParseErrorV>(operands_view(ops@)) && final(stream).rest().len() == 0,
            Err(e) => spec_parse_arguments(old(stream).rest(), allow_mnemonic_as_operand)
                == Err::<Seq<SemanticOperandV>, _>(e@),
        },
{
    let mut builder = OperandsBuilder::new();
    while stream.has_more()
        invariant
            stream.wf(),
            spec_parse_arguments(old(stream).rest(), allow_mnemonic_as_operand)
                == spec_args_loop(stream.rest(), builder@, allow_mnemonic_as_operand),
        decreases stream.rest().len(),
    {
        proof {
            lemma_arg_step_shrinks(stream.rest(), builder@, allow_mnemonic_as_operand);
        }
        parse_argument_step(&mut builder, stream, allow_mnemonic_as_operand)?;
    }
    Ok(builder.into_operands())
}


// ---------------------------------------------------------------------
// Binding values.

/// The values of a binding read from `rest`, after the values `acc`; in
/// byte mode (after a string) integers are bytes.
pub open spec fn spec_values_loop(rest: Seq<TokenV>, acc: Seq<SemanticLiteralV>, byte_mode: bool) -> Result<Seq<SemanticLiteralV>, ParseErrorV>
    decreases rest.len(),
{
    if rest.len() == 0 {
        Ok(acc)
    } else {
        match next_nw(rest) {
            Err(e) => Err(e),
            Ok((tok, r)) => if r.len() >= rest.len() {
                Ok(acc)
            } else {
                match tok {
                    TokenV::Separator => {
                        proof {
                            lemma_drop_whitespace(r);
                        }
                        spec_values_loop(drop_whitespace(r), acc, byte_mode)
                    },
                    TokenV::IntLiteral(n) => spec_values_loop(
                        r,
                        acc.push(if byte_mode {
                            SemanticLiteralV::Typed(crate::value::DataTypeLiteralV::Byte(#[verifier::truncate] (n as u8)))
                        } else {
                            SemanticLiteralV::UntypedInteger(n)
                        }),
                        byte_mode,
                    ),
                    TokenV::FloatLiteral(t) => spec_values_loop(r, acc.push(SemanticLiteralV::UntypedFloating(t)), byte_mode),
                    TokenV::QuotedString(q) => spec_values_loop(r, acc.push(SemanticLiteralV::String(q)), true),
                    TokenV::Token(t) => match DataType::spec_from_name(t) {
                        Some(dt) => match next_nw(r) {
                            Ok((t2, r2)) => match spec_typed_literal(dt, t2) {
                                Ok(lit) => if r2.len() < rest.len() {
                                    spec_values_loop(r2, acc.push(lit), byte_mode)
                                } else {
                                    Ok(acc)
                                },
                                Err(e) => Err(e),
                            },
                            Err(e) => Err(e),
                        },
                        None => Err(ParseErrorV::UnexpectedToken),
                    },
                    _ => Err(ParseErrorV::UnexpectedToken),
                }
            },
        }
    }
}

/// The values of a binding written as `rest`.
pub open spec fn spec_binding_values(rest: Seq<TokenV>) -> Result<Seq<SemanticLiteralV>, ParseErrorV> {
    spec_values_loop(drop_whitespace(rest), Seq::empty(), false)
}

proof fn lemma_values_after_string(rest: Seq<TokenV>, acc: Seq<SemanticLiteralV>, byte_mode: bool)
    requires
        forall|i: int| 0 <= i < acc.len() && (#[trigger] acc[i]) is String ==> byte_mode,
        forall|i: int, j: int| 0 <= i < j < acc.len() && (#[trigger] acc[i]) is String ==> !((#[trigger] acc[j]) is UntypedInteger),
    ensures
        spec_values_loop(rest, acc, byte_mode) matches Ok(vals) ==> {
            &&& vals.len() >= acc.len()
            &&& forall|i: int, j: int| 0 <= i < j < vals.len() && (#[trigger] vals[i]) is String ==> !((#[trigger] vals[j]) is UntypedInteger)
        },
    decreases rest.len(),
{
    if rest.len() > 0 {
        match next_nw(rest) {
            Ok((tok, r)) => if r.len() < rest.len() {
                match tok {
                    TokenV::Separator => {
                        lemma_drop_whitespace(r);
                        lemma_values_after_string(drop_whitespace(r), acc, byte_mode);
                    },
                    TokenV::IntLiteral(n) => {
                        let v = if byte_mode {
                            SemanticLiteralV::Typed(crate::value::DataTypeLiteralV::Byte(#[verifier::truncate] (n as u8)))
                        } else {
                            SemanticLiteralV::UntypedInteger(n)
                        };
                        let a2 = acc.push(v);
                        assert forall|i: int| 0 <= i < a2.len() && (#[trigger] a2[i]) is String implies byte_mode by {
                            if i < acc.len() {
                                assert(a2[i] == acc[i]);
                            }
                        }
                        assert forall|i: int, j: int| 0 <= i < j < a2.len() && (#[trigger] a2[i]) is String implies !((#[trigger] a2[j]) is UntypedInteger) by {
                            assert(a2[i] == acc[i]);
                            if j < acc.len() {
                                assert(a2[j] == acc[j]);
                            }
                        }
                        lemma_values_after_string(r, a2, byte_mode);
                    },
                    TokenV::FloatLiteral(t) => {
                        let a2 = acc.push(SemanticLiteralV::UntypedFloating(t));
                        assert forall|i: int| 0 <= i < a2.len() && (#[trigger] a2[i]) is String implies byte_mode by {
                            if i < acc.len() {
                                assert(a2[i] == acc[i]);
                            }
                        }
                        assert forall|i: int, j: int| 0 <= i < j < a2.len() && (#[trigger] a2[i]) is String implies !((#[trigger] a2[j]) is UntypedInteger) by {
                            assert(a2[i] == acc[i]);
                            if j < acc.len() {
                                assert(a2[j] == acc[j]);
                            }
                        }
                        lemma_values_after_string(r, a2, byte_mode);
                    },
                    TokenV::QuotedString(q) => {
                        let a2 = acc.push(SemanticLiteralV::String(q));
                        assert forall|i: int, j: int| 0 <= i < j < a2.len() && (#[trigger] a2[i]) is String implies !((#[trigger] a2[j]) is UntypedInteger) by {
                            assert(a2[i] == acc[i]);
                            if j < acc.len() {
                                assert(a2[j] == acc[j]);
                            }
                        }
                        lemma_values_after_string(r, a2, true);
                    },
                    TokenV::Token(t) => match DataType::spec_from_name(t) {
                        Some(dt) => match next_nw(r) {
                            Ok((t2, r2)) => match spec_typed_literal(dt, t2) {
                                Ok(lit) => if r2.len() < rest.len() {
                                    assert(!(lit is UntypedInteger) && !(lit is String)) by {
                                        lemma_typed_literal_is_typed(dt, t2);
                                    }
                                    let a2 = acc.push(lit);
                                    assert forall|i: int| 0 <= i < a2.len() && (#[trigger] a2[i]) is String implies byte_mode by {
                                        if i < acc.len() {
                                            assert(a2[i] == acc[i]);
                                        }
                                    }
                                    assert forall|i: int, j: int| 0 <= i < j < a2.len() && (#[trigger] a2[i]) is String implies !((#[trigger] a2[j]) is UntypedInteger) by {
                                        assert(a2[i] == acc[i]);
                                        if j < acc.len() {
                                            assert(a2[j] == acc[j]);
                                        }
                                    }
                                    lemma_values_after_string(r2, a2, byte_mode);
                                },
                                Err(_) => {},
                            },
                            Err(_) => {},
                        },
                        None => {},
                    },
                    _ => {},
                }
            },
            Err(_) => {},
        }
    }
}

proof fn lemma_typed_literal_is_typed(dt: DataType, tok: TokenV)
    ensures
        spec_typed_literal(dt, tok) matches Ok(lit) ==> !(lit is UntypedInteger) && !(lit is String),
{
}

/// In the values of a binding, no untyped integer follows a string: once a
/// quoted string has been read, every integer written after it on the line
/// is a byte, not only the first.
pub proof fn lemma_no_untyped_integer_after_string(rest: Seq<TokenV>)
    ensures
        spec_binding_values(rest) matches Ok(vals) ==>
            forall|i: int, j: int| 0 <= i < j < vals.len() && (#[trigger] vals[i]) is String ==> !((#[trigger] vals[j]) is UntypedInteger),
{
    lemma_values_after_string(drop_whitespace(rest), Seq::empty(), false);
}

/// The tokens `, n1, n2, ...` that write the integers `ns` as further
/// values of a binding.
pub open spec fn int_value_tokens(ns: Seq<i64>) -> Seq<TokenV>
    decreases ns.len(),
{
    if ns.len() == 0 {
        Seq::empty()
    } else {
        seq![TokenV::Separator, TokenV::IntLiteral(ns[0])] + int_value_tokens(ns.drop_first())
    }
}

/// The byte each of the integers `ns` is read as.
pub open spec fn bytes_of_ints(ns: Seq<i64>) -> Seq<SemanticLiteralV> {
    ns.map_values(|n: i64| SemanticLiteralV::Typed(crate::value::DataTypeLiteralV::Byte(#[verifier::truncate] (n as u8))))
}

proof fn lemma_ints_in_byte_mode(ns: Seq<i64>, acc: Seq<SemanticLiteralV>)
    ensures
        spec_values_loop(int_value_tokens(ns), acc, true) == Ok::<_, ParseErrorV>(acc + bytes_of_ints(ns)),
    decreases ns.len(),
{
    if ns.len() == 0 {
        assert(acc + bytes_of_ints(ns) =~= acc);
    } else {
        let rest = int_value_tokens(ns);
        let tail = int_value_tokens(ns.drop_first());
        assert(rest[0] == TokenV::Separator);
        assert(drop_whitespace(rest) == rest);
        let r = rest.drop_first();
        assert(r =~= seq![TokenV::IntLiteral(ns[0])] + tail);
        assert(drop_whitespace(r) == r);
        assert(r.drop_first() =~= tail);
        let b = SemanticLiteralV::Typed(crate::value::DataTypeLiteralV::Byte(#[verifier::truncate] (ns[0] as u8)));
        assert(next_nw(rest) == Ok::<_, ParseErrorV>((TokenV::Separator, r)));
        assert(spec_values_loop(rest, acc, true) == spec_values_loop(r, acc, true));
        assert(next_nw(r) == Ok::<_, ParseErrorV>((TokenV::IntLiteral(ns[0]), tail)));
        assert(spec_values_loop(r, acc, true) == spec_values_loop(tail, acc.push(b), true));
        lemma_ints_in_byte_mode(ns.drop_first(), acc.push(b));
        assert(bytes_of_ints(ns) =~= seq![b] + bytes_of_ints(ns.drop_first()));
        assert(acc.push(b) + bytes_of_ints(ns.drop_first()) =~= acc + bytes_of_ints(ns));
    }
}

/// A binding written as a string followed by integers holds the string,
/// then each integer as a byte, all of them: `"s", n1, ..., nk` gives
/// `String(s), Byte(n1), ..., Byte(nk)` (each integer truncated to 8 bits).
pub proof fn lemma_string_then_integers_are_bytes(q: Seq<char>, ns: Seq<i64>)
    ensures
        spec_binding_values(seq![TokenV::QuotedString(q)] + int_value_tokens(ns))
            == Ok::<_, ParseErrorV>(seq![SemanticLiteralV::String(q)] + bytes_of_ints(ns)),
{
    let rest = seq![TokenV::QuotedString(q)] + int_value_tokens(ns);
    assert(drop_whitespace(rest) == rest);
    assert(rest.drop_first() =~= int_value_tokens(ns));
    lemma_ints_in_byte_mode(ns, seq![SemanticLiteralV::String(q)]);
}

/// The message for a word that should have been a data type.
fn data_type_expected_message(word: &str) -> (r: String)
    ensures
        r@ == "Expected a data type preceding literal value, found "@ + word@,
{
    let mut out: Vec<char> = Vec::new();
    push_str(&mut out, "Expected a data type preceding literal value, found ");
    push_str(&mut out, word);
    assert(out@ =~= "Expected a data type preceding literal value, found "@ + word@);
    string_of(out.as_slice())
}

/// Reads the comma-separated values of a binding definition.
fn parse_binding_values(stream: &mut TokenStream) -> (r: Result<Vec<SemanticLiteral>, ParseError>)
    requires
        old(stream).wf(),
    ensures
        final(stream).wf(),
        match r {
            Ok(vals) => spec_binding_values(old(stream).rest())
                == Ok::<_, ParseErrorV>(vals@.map_values(|l: SemanticLiteral| l@)),
            Err(e) => spec_binding_values(old(stream).rest()) == Err::<Seq<SemanticLiteralV>, _>(e@),
        },
{
    let mut ret: Vec<SemanticLiteral> = Vec::new();
    stream.skip_whitespace();
    let mut byte_mode = false;
    assert(ret@.map_values(|l: SemanticLiteral| l@) =~= Seq::<SemanticLiteralV>::empty());
    while stream.has_more()
        invariant
            stream.wf(),
            spec_binding_values(old(stream).rest())
                == spec_values_loop(stream.rest(), ret@.map_values(|l: SemanticLiteral| l@), byte_mode),
        decreases stream.rest().len(),
    {
        let ghost rest0 = stream.rest();
        let ghost acc = ret@.map_values(|l: SemanticLiteral| l@);
        proof {
            lemma_next_nw_shrinks(rest0);
        }
        let next = stream.next_non_whitespace_or_err()?;
        match next {
            Token::Separator => {
                stream.skip_whitespace();
                proof {
                    lemma_drop_whitespace(drop_whitespace(rest0).drop_first());
                }
            },
            Token::IntLiteral(n) => {
                if byte_mode {
                    ret.push(SemanticLiteral::Typed(crate::value::DataTypeLiteral::Byte(n as u8)));
                } else {
                    ret.push(SemanticLiteral::UntypedInteger(n));
                }
                assert(ret@.map_values(|l: SemanticLiteral| l@) =~= acc.push(ret@.last()@));
            },
            Token::FloatLiteral(t) => {
                ret.push(SemanticLiteral::UntypedFloating(t));
                assert(ret@.map_values(|l: SemanticLiteral| l@) =~= acc.push(ret@.last()@));
            },
            Token::QuotedString(q) => {
                byte_mode = true;
                ret.push(SemanticLiteral::String(q));
                assert(ret@.map_values(|l: SemanticLiteral| l@) =~= acc.push(ret@.last()@));
            },
            Token::Token(word) => {
                match DataType::from_name(word.as_str()) {
                    Some(dt) => {
                        let ghost r1 = stream.rest();
                        proof {
                            lemma_next_nw_shrinks(r1);
                        }
                        let next = stream.next_non_whitespace_or_err()?;
                        let lit = typed_literal(dt, &next)?;
                        ret.push(lit);
                        assert(ret@.map_values(|l: SemanticLiteral| l@) =~= acc.push(ret@.last()@));
                    },
                    None => {
                        return Err(ParseError::UnexpectedToken(data_type_expected_message(word.as_str())));
                    },
                }
            },
            _ => {
                return Err(ParseError::UnexpectedToken(unexpected_message(
                    "Expected a data type, literal, or comma separator in literal value",
                    &next,
                )));
            },
        }
    }
    Ok(ret)
}


// ---------------------------------------------------------------------
// Lines.

/// The context a line is parsed in: binding definitions are read only in
/// the `.data` section.
#[derive(Debug, Clone, Copy, PartialEq, Eq, Structural)]
pub enum ParseLineContext {
    /// Any line.
    General,
    /// A line of the `.data` section, read as a binding definition.
    BindingDef,
}

/// The text `.data`, which opens the data section.
pub open spec fn data_section_label() -> Seq<char> {
    seq!['.', 'd', 'a', 't', 'a']
}

/// A binding definition line, `[const] name: values`.
pub open spec fn spec_binding_def_line(rest: Seq<TokenV>) -> Result<SemanticReprV, ParseErrorV> {
    match next_nw(rest) {
        Ok((t0, r1)) => {
            let head: Result<(Seq<char>, bool, Seq<TokenV>), ParseErrorV> = if is_const_marker(t0) {
                match next_nw(r1) {
                    Ok((TokenV::Token(name), r2)) => Ok((name, true, r2)),
                    Ok(_) => Err(ParseErrorV::UnexpectedToken),
                    Err(e) => Err(e),
                }
            } else {
                match t0 {
                    TokenV::Token(t) => Ok((t, false, r1)),
                    _ => Err(ParseErrorV::UnexpectedToken),
                }
            };
            match head {
                Ok((name, constant, r2)) => match expect_nw(r2, TokenV::Colon) {
                    Ok(r3) => match spec_binding_values(r3) {
                        Ok(values) => Ok(SemanticReprV::BindingDef(SemanticBindingDefV { name, constant, values })),
                        Err(e) => Err(e),
                    },
                    Err(e) => Err(e),
                },
                Err(e) => Err(e),
            }
        },
        Err(e) => Err(e),
    }
}

/// A compiler construct line, after its `@`.
pub open spec fn spec_construct_line(rest: Seq<TokenV>) -> Result<SemanticReprV, ParseErrorV> {
    match next_nw(rest) {
        Ok((TokenV::Token(name), r1)) => match CompilerConstruct::spec_from_name(name) {
            Some(c) => if r1.len() == 0 {
                Ok(SemanticReprV::CompilerConstruct(SemanticCompilerConstructV { opcode: c, operands: Seq::empty() }))
            } else {
                match spec_parse_arguments(r1, true) {
                    Ok(ops) => Ok(SemanticReprV::CompilerConstruct(SemanticCompilerConstructV { opcode: c, operands: ops })),
                    Err(e) => Err(e),
                }
            },
            None => Err(ParseErrorV::UnexpectedToken),
        },
        Ok(_) => Err(ParseErrorV::UnexpectedToken),
        Err(e) => Err(e),
    }
}

/// A label line (`_name:`) or an instruction line.
pub open spec fn spec_label_or_instruction(rest: Seq<TokenV>) -> Result<SemanticReprV, ParseErrorV> {
    match next_nw(rest) {
        Ok((TokenV::Token(first), r1)) => if r1.len() > 0 && r1[0] is Colon {
            if first.len() >= 2 && first[0] == '_' {
                Ok(SemanticReprV::Label(SemanticSymbolV {
                    name: SymbolNameV { name: first.drop_first(), namespace: None },
                    external: false,
                }))
            } else {
                Err(ParseErrorV::InvalidLabel(first))
            }
        } else {
            match OpcodeMnemonic::spec_from_name(first) {
                Some(m) => if r1.len() == 0 {
                    Ok(SemanticReprV::Instruction(SemanticInstructionV { opcode: m, operands: Seq::empty() }))
                } else {
                    match expect_token(r1, TokenV::Whitespace) {
                        Ok(r2) => match spec_parse_arguments(r2, false) {
                            Ok(ops) => Ok(SemanticReprV::Instruction(SemanticInstructionV { opcode: m, operands: ops })),
                            Err(e) => Err(e),
                        },
                        Err(e) => Err(e),
                    }
                },
                None => Err(ParseErrorV::UnexpectedToken),
            }
        },
        Ok(_) => Err(ParseErrorV::UnexpectedToken),
        Err(e) => Err(e),
    }
}

/// The name of the special section that `tokens` opens: a first word
/// starting with `.`.
pub open spec fn special_section_name(tokens: Seq<TokenV>) -> Option<Seq<char>> {
    if tokens.len() > 0 {
        match tokens[0] {
            TokenV::Token(s) => if s.len() > 0 && s[0] == '.' { Some(s) } else { None },
            _ => None,
        }
    } else {
        None
    }
}

/// The semantic representation of the tokenized line `tokens`, read in
/// context `ctx`.
pub open spec fn spec_parse_line(tokens: Seq<TokenV>, ctx: ParseLineContext) -> Result<SemanticReprV, ParseErrorV> {
    if special_section_name(tokens) is Some {
        match expect_token(tokens.drop_first(), TokenV::Colon) {
            Ok(_) => Ok(SemanticReprV::SpecialSection(special_section_name(tokens)->0)),
            Err(e) => Err(e),
        }
    } else if ctx == ParseLineContext::BindingDef && !(tokens.len() == 2 && tokens[1] is Colon) {
        spec_binding_def_line(tokens)
    } else if tokens.len() > 0 && tokens[0] is Annotation {
        spec_construct_line(tokens.drop_first())
    } else {
        spec_label_or_instruction(tokens)
    }
}

#[verifier::external_body]
fn special_section_message(found: &Token) -> String {
    format!("Expected an identifier after '.' for a special section, found {:?}", found)
}

/// The message for a compiler construct name that names none.
fn unknown_construct_message(name: &str) -> (r: String)
    ensures
        r@ == "Unknown compiler construct: "@ + name@,
{
    let mut out: Vec<char> = Vec::new();
    push_str(&mut out, "Unknown compiler construct: ");
    push_str(&mut out, name);
    assert(out@ =~= "Unknown compiler construct: "@ + name@);
    string_of(out.as_slice())
}

#[verifier::external_body]
fn unknown_instruction_message(first: &str) -> String {
    format!("Expected an instruction mnemonic, found {:?} (is '{}' a valid instruction?)", first, first)
}

/// Parses a tokenized line into its semantic representation; in the
/// binding definition context every line but a label is read as a binding.
fn parse_line(tokens: &[Token], ctx: ParseLineContext) -> (r: Result<SemanticRepr, ParseError>)
    ensures
        match r {
            Ok(p) => spec_parse_line(tokens_view(tokens@), ctx) == Ok::<_, ParseErrorV>(p@),
            Err(e) => spec_parse_line(tokens_view(tokens@), ctx) == Err::<SemanticReprV, _>(e@),
        },
{
    let mut stream = TokenStream::new(tokens);
    let ghost all = tokens_view(tokens@);
    // special section
    let special = match stream.peek() {
        Some(Token::Token(s)) => {
            let v = chars_of(s.as_str());
            v.len() > 0 && v[0] == crate::tokenizer::CHAR_DOT
        },
        _ => false,
    };
    if special {
        let next = stream.next_or_err()?;
        let s = match next {
            Token::Token(s) => s,
            _ => {
                return Err(ParseError::UnexpectedToken(special_section_message(&next)));
            },
        };
        stream.expect(Token::Colon)?;
        return Ok(SemanticRepr::SpecialSection(s));
    }
    let is_label = tokens.len() == 2 && match &tokens[1] {
        Token::Colon => true,
        _ => false,
    };
    if ctx == ParseLineContext::BindingDef && !is_label {
        let first = stream.next_non_whitespace_or_err()?;
        let first_is_const = match &first {
            Token::Keyword(ReservedWord::Const) => true,
            _ => false,
        };
        let (binding_name, is_constant) = match first {
            Token::Keyword(_) if first_is_const => {
                let name = stream.next_non_whitespace_or_err()?;
                match name {
                    Token::Token(s) => (s, true),
                    _ => {
                        return Err(ParseError::UnexpectedToken(unexpected_message(
                            "Expected an identifier for a binding definition",
                            &name,
                        )));
                    },
                }
            },
            Token::Token(token) => {
                let v = chars_of(token.as_str());
                let is_const_word = crate::text::same_chars(v.as_slice(), &['c', 'o', 'n', 's', 't']);
                proof {
                    let lit: &[char] = &['c', 'o', 'n', 's', 't'];
                    assert(lit@ =~= const_word());
                }
                if is_const_word {
                    let name = stream.next_non_whitespace_or_err()?;
                    match name {
                        Token::Token(s) => (s, true),
                        _ => {
                            return Err(ParseError::UnexpectedToken(unexpected_message(
                                "Expected an identifier for a binding definition",
                                &name,
                            )));
                        },
                    }
                } else {
                    (token, false)
                }
            },
            _ => {
                return Err(ParseError::UnexpectedToken(unexpected_message(
                    "Expected an identifier or a modifier at the start of a binding definition",
                    &first,
                )));
            },
        };
        stream.expect_non_whitespace(Token::Colon)?;
        let values = parse_binding_values(&mut stream)?;
        return Ok(SemanticRepr::BindingDef(SemanticBindingDef {
            name: binding_name,
            constant: is_constant,
            values,
        }));
    }
    // compiler construct
    let annotation = match stream.peek() {
        Some(Token::Annotation) => true,
        _ => false,
    };
    if annotation {
        stream.next_or_err()?;
        let next = stream.next_non_whitespace_or_err()?;
        let construct_name = match next {
            Token::Token(name) => name,
            _ => {
                return Err(ParseError::UnexpectedToken(unexpected_message(
                    "Expected a compiler construct name after '@'",
                    &next,
                )));
            },
        };
        let construct = match CompilerConstruct::from_name(construct_name.as_str()) {
            Some(c) => c,
            None => {
                return Err(ParseError::UnexpectedToken(unknown_construct_message(construct_name.as_str())));
            },
        };
        if !stream.has_more() {
            let r = SemanticCompilerConstruct { opcode: construct, operands: Vec::new() };
            assert(r@.operands =~= Seq::<SemanticOperandV>::empty());
            return Ok(SemanticRepr::CompilerConstruct(r));
        }
        let operands = parse_arguments(&mut stream, true)?;
        return Ok(SemanticRepr::CompilerConstruct(SemanticCompilerConstruct { opcode: construct, operands }));
    }
    // labels and instructions
    let first = stream.next_non_whitespace_or_err()?;
    let first = match first {
        Token::Token(s) => s,
        _ => {
            return Err(ParseError::UnexpectedToken(unexpected_message(
                "Expected an label (starts with underscore(_)) or an instruction at the start of a new line",
                &first,
            )));
        },
    };
    let colon_next = match stream.peek() {
        Some(Token::Colon) => true,
        _ => false,
    };
    if colon_next {
        let v = chars_of(first.as_str());
        if v.len() < 2 || v[0] != crate::tokenizer::ATOM_UNDERLINE {
            return Err(ParseError::InvalidLabel(first));
        }
        let name = string_of_range(v.as_slice(), 1, v.len());
        assert(name@ =~= first@.drop_first());
        return Ok(SemanticRepr::Label(SemanticSymbol::local(name.as_str())));
    }
    let instruction = match OpcodeMnemonic::from_name(first.as_str()) {
        Some(m) => m,
        None => {
            return Err(ParseError::UnexpectedToken(unknown_instruction_message(first.as_str())));
        },
    };
    if !stream.has_more() {
        let r = SemanticInstruction { opcode: instruction, operands: Vec::new() };
        assert(r@.operands =~= Seq::<SemanticOperandV>::empty());
        return Ok(SemanticRepr::Instruction(r));
    }
    stream.expect(Token::Whitespace)?;
    let operands = parse_arguments(&mut stream, false)?;
    Ok(SemanticRepr::Instruction(SemanticInstruction { opcode: instruction, operands }))
}


/// The context for the line after a line parsed as `p` in context `ctx`:
/// the binding context ends at any line that is not a binding definition,
/// and a `.data` section line opens it.
pub open spec fn next_context(ctx: ParseLineContext, p: SemanticReprV) -> ParseLineContext {
    let c1 = if ctx == ParseLineContext::BindingDef && !(p is BindingDef) {
        ParseLineContext::General
    } else {
        ctx
    };
    match p {
        SemanticReprV::SpecialSection(s) => if c1 == ParseLineContext::General && s == data_section_label() {
            ParseLineContext::BindingDef
        } else {
            c1
        },
        _ => c1,
    }
}

/// Parses the lines from index `i` on, in context `ctx`, after the lines
/// `acc`; an error carries the number (from 1) of the failing line.
pub open spec fn spec_source_loop(
    lines: Seq<Seq<TokenV>>,
    i: int,
    ctx: ParseLineContext,
    acc: Seq<SemanticReprV>,
) -> Result<Seq<SemanticReprV>, (ParseErrorV, int)>
    decreases lines.len() - i,
{
    if i < 0 || i >= lines.len() {
        Ok(acc)
    } else {
        match spec_parse_line(lines[i], ctx) {
            Ok(p) => spec_source_loop(lines, i + 1, next_context(ctx, p), acc.push(p)),
            Err(e) => Err((e, i + 1)),
        }
    }
}

/// The semantic representation of the tokenized lines of a source file.
pub open spec fn spec_parse_source(lines: Seq<Seq<TokenV>>) -> Result<Seq<SemanticReprV>, (ParseErrorV, int)> {
    spec_source_loop(lines, 0, ParseLineContext::General, Seq::empty())
}

/// The models of tokenized lines.
pub open spec fn lines_view(source: Seq<Vec<Token>>) -> Seq<Seq<TokenV>> {
    source.map_values(|l: Vec<Token>| tokens_view(l@))
}

/// Copies a tokenized line.
pub fn duplicate_tokens(v: &[Token]) -> (r: Vec<Token>)
    ensures
        tokens_view(r@) == tokens_view(v@),
{
    let mut r: Vec<Token> = Vec::new();
    for i in 0..v.len()
        invariant
            r@.len() == i,
            forall|j: int| 0 <= j < i ==> #[trigger] r@[j]@ == v@[j]@,
    {
        r.push(v[i].duplicate());
    }
    assert(tokens_view(r@) =~= tokens_view(v@));
    r
}

/// Parses the tokenized lines of a source file. Binding definitions are
/// read in the lines that follow a `.data` section line, up to the first
/// line that is not one. An error names the failing line by its number
/// (from 1) and holds its tokens.
pub fn parse_source(source: &[Vec<Token>]) -> (r: Result<Vec<SemanticRepr>, ParseErrorDetails>)
    ensures
        match r {
            Ok(reprs) => spec_parse_source(lines_view(source@)) == Ok::<_, (ParseErrorV, int)>(
                crate::semantic::reprs_view(reprs@),
            ),
            Err(d) => {
                &&& spec_parse_source(lines_view(source@)) == Err::<Seq<SemanticReprV>, _>((d.kind@, d.line_count as int))
                &&& 1 <= d.line_count <= source@.len()
                &&& tokens_view(d.line@) == tokens_view(source@[d.line_count - 1]@)
            },
        },
{
    let mut ctx = ParseLineContext::General;
    let mut ret: Vec<SemanticRepr> = Vec::new();
    let ghost lines = lines_view(source@);
    assert(crate::semantic::reprs_view(ret@) =~= Seq::<SemanticReprV>::empty());
    for i in 0..source.len()
        invariant
            lines == lines_view(source@),
            spec_parse_source(lines) == spec_source_loop(lines, i as int, ctx, crate::semantic::reprs_view(ret@)),
    {
        let line = &source[i];
        assert(lines[i as int] == tokens_view(line@));
        let parsed_line = match parse_line(line.as_slice(), ctx) {
            Ok(p) => p,
            Err(e) => {
                return Err(ParseErrorDetails { kind: e, line_count: i + 1, line: duplicate_tokens(line.as_slice()) });
            },
        };
        let ghost acc = crate::semantic::reprs_view(ret@);
        let ghost pv = parsed_line@;
        if ctx == ParseLineContext::BindingDef && !matches!(parsed_line, SemanticRepr::BindingDef(_)) {
            ctx = ParseLineContext::General;
        }
        if ctx == ParseLineContext::General {
            if let SemanticRepr::SpecialSection(s) = &parsed_line {
                let v = chars_of(s.as_str());
                let is_data = crate::text::same_chars(v.as_slice(), &['.', 'd', 'a', 't', 'a']);
                proof {
                    let lit: &[char] = &['.', 'd', 'a', 't', 'a'];
                    assert(lit@ =~= data_section_label());
                }
                if is_data {
                    ctx = ParseLineContext::BindingDef;
                }
            }
        }
        ret.push(parsed_line);
        assert(crate::semantic::reprs_view(ret@) =~= acc.push(pv));
    }
    Ok(ret)
}

} // verus!
