//! Data types, typed literals, register specifications and symbol names of
//! the F750 language.
use vstd::prelude::*;
use crate::opcode::Register;
use crate::parser::ParseError;
use crate::semantic::SemanticLiteral;
use crate::text::{
    chars_of, same_chars, string_of, string_of_range, int_text, decimal_text, decimal_digits, unsigned_text,
    push_str,
};
use crate::bytecode::{
    BytecodeStream, float_encoding, spec_u16_to_be_bytes, spec_u32_to_be_bytes, spec_u64_to_be_bytes,
};

verus! {

/// The data types of the F750 language.
///
/// Integer types are unsigned in their representation; they may hold signed
/// values in two's complement form.
#[derive(Debug, Clone, Copy, PartialEq, Eq, Structural)]
pub enum DataType {
    /// An 8-bit unsigned integer.
    Byte,
    /// A 16-bit unsigned integer.
    Word,
    /// A 32-bit unsigned integer.
    Dword,
    /// A 64-bit unsigned integer.
    Qword,
    /// A 32-bit IEEE-754 floating point number.
    Float,
    /// A 64-bit IEEE-754 floating point number.
    Double,
}

impl DataType {
    /// Whether this is a floating point type.
    pub open spec fn spec_is_floating_point(self) -> bool {
        self == DataType::Float || self == DataType::Double
    }

    /// The size in bytes of a value of this type.
    pub open spec fn spec_size(self) -> nat {
        match self {
            DataType::Byte => 1,
            DataType::Word => 2,
            DataType::Dword => 4,
            DataType::Qword => 8,
            DataType::Float => 4,
            DataType::Double => 8,
        }
    }

    /// Returns whether this data type is a floating point type (`Float` or `Double`).
    pub fn is_floating_point(&self) -> (r: bool)
        ensures
            r == self.spec_is_floating_point(),
    {
        match self {
            DataType::Float | DataType::Double => true,
            _ => false,
        }
    }

    /// Returns the size in bytes of a value of this type.
    pub fn size(&self) -> (r: usize)
        ensures
            r == self.spec_size(),
    {
        match self {
            DataType::Byte => 1,
            DataType::Word => 2,
            DataType::Dword => 4,
            DataType::Qword => 8,
            DataType::Float => 4,
            DataType::Double => 8,
        }
    }

    /// The literal that `as_int_literal_typed` gives for `value`.
    pub open spec fn spec_int_literal(self, value: i64) -> Result<
        crate::semantic::SemanticLiteralV,
        crate::parser::ParseErrorV,
    > {
        match self {
            DataType::Byte => Ok(
                crate::semantic::SemanticLiteralV::Typed(DataTypeLiteralV::Byte(value as u8)),
            ),
            DataType::Word => Ok(
                crate::semantic::SemanticLiteralV::Typed(DataTypeLiteralV::Word(value as u16)),
            ),
            DataType::Dword => Ok(
                crate::semantic::SemanticLiteralV::Typed(DataTypeLiteralV::Dword(value as u32)),
            ),
            DataType::Qword => Ok(
                crate::semantic::SemanticLiteralV::Typed(DataTypeLiteralV::Qword(value as u64)),
            ),
            _ => Err(
                crate::parser::ParseErrorV::InvalidDataTypeForLiteral(
                    decimal_text(value as int),
                    self,
                ),
            ),
        }
    }

    /// Converts an integer to a typed literal of this data type, keeping the
    /// low bits that fit; fails with `InvalidDataTypeForLiteral` for the
    /// floating point types.
    pub fn as_int_literal_typed(&self, value: i64) -> (r: Result<SemanticLiteral, ParseError>)
        ensures
            match r {
                Ok(lit) => self.spec_int_literal(value) == Ok::<_, crate::parser::ParseErrorV>(lit@),
                Err(e) => self.spec_int_literal(value) == Err::<crate::semantic::SemanticLiteralV, _>(e@),
            },
    {
        match self {
            DataType::Byte => Ok(SemanticLiteral::Typed(DataTypeLiteral::Byte(value as u8))),
            DataType::Word => Ok(SemanticLiteral::Typed(DataTypeLiteral::Word(value as u16))),
            DataType::Dword => Ok(SemanticLiteral::Typed(DataTypeLiteral::Dword(value as u32))),
            DataType::Qword => Ok(SemanticLiteral::Typed(DataTypeLiteral::Qword(value as u64))),
            _ => Err(ParseError::InvalidDataTypeForLiteral(int_text(value), *self)),
        }
    }

    /// The literal that `as_float_literal_typed` gives for the floating
    /// point value written as `text`.
    pub open spec fn spec_float_literal(self, text: Seq<char>) -> Result<
        crate::semantic::SemanticLiteralV,
        crate::parser::ParseErrorV,
    > {
        match self {
            DataType::Float => Ok(
                crate::semantic::SemanticLiteralV::Typed(DataTypeLiteralV::Float(text)),
            ),
            DataType::Double => Ok(
                crate::semantic::SemanticLiteralV::Typed(DataTypeLiteralV::Double(text)),
            ),
            _ => Err(crate::parser::ParseErrorV::InvalidDataTypeForLiteral(text, self)),
        }
    }

    /// Converts a floating point value, given by its source text, to a typed
    /// literal of this data type; fails with `InvalidDataTypeForLiteral` for
    /// the integer types.
    pub fn as_float_literal_typed(&self, value: &str) -> (r: Result<SemanticLiteral, ParseError>)
        ensures
            match r {
                Ok(lit) => self.spec_float_literal(value@) == Ok::<_, crate::parser::ParseErrorV>(lit@),
                Err(e) => self.spec_float_literal(value@) == Err::<crate::semantic::SemanticLiteralV, _>(e@),
            },
    {
        let text = string_of(chars_of(value).as_slice());
        match self {
            DataType::Float => Ok(SemanticLiteral::Typed(DataTypeLiteral::Float(text))),
            DataType::Double => Ok(SemanticLiteral::Typed(DataTypeLiteral::Double(text))),
            _ => Err(ParseError::InvalidDataTypeForLiteral(text, *self)),
        }
    }
}

/// A literal value of a specific data type.
///
/// Floating point values are held as the decimal text they were written
/// with; a `Float` holds the value that text denotes as a 64-bit float,
/// narrowed to 32 bits.
#[derive(Debug, Clone, PartialEq)]
pub enum DataTypeLiteral {
    Byte(u8),
    Word(u16),
    Dword(u32),
    Qword(u64),
    Float(String),
    Double(String),
}

/// The mathematical model of a [`DataTypeLiteral`].
pub enum DataTypeLiteralV {
    Byte(u8),
    Word(u16),
    Dword(u32),
    Qword(u64),
    Float(Seq<char>),
    Double(Seq<char>),
}

impl View for DataTypeLiteral {
    type V = DataTypeLiteralV;

    open spec fn view(&self) -> DataTypeLiteralV {
        match self {
            DataTypeLiteral::Byte(v) => DataTypeLiteralV::Byte(*v),
            DataTypeLiteral::Word(v) => DataTypeLiteralV::Word(*v),
            DataTypeLiteral::Dword(v) => DataTypeLiteralV::Dword(*v),
            DataTypeLiteral::Qword(v) => DataTypeLiteralV::Qword(*v),
            DataTypeLiteral::Float(t) => DataTypeLiteralV::Float(t@),
            DataTypeLiteral::Double(t) => DataTypeLiteralV::Double(t@),
        }
    }
}

impl DataTypeLiteralV {
    /// The data type of the literal.
    pub open spec fn data_type(self) -> DataType {
        match self {
            DataTypeLiteralV::Byte(_) => DataType::Byte,
            DataTypeLiteralV::Word(_) => DataType::Word,
            DataTypeLiteralV::Dword(_) => DataType::Dword,
            DataTypeLiteralV::Qword(_) => DataType::Qword,
            DataTypeLiteralV::Float(_) => DataType::Float,
            DataTypeLiteralV::Double(_) => DataType::Double,
        }
    }

    /// The integer value of an integer literal, read as a signed 64-bit value.
    pub open spec fn as_int(self) -> Option<i64> {
        match self {
            DataTypeLiteralV::Byte(v) => Some(v as i64),
            DataTypeLiteralV::Word(v) => Some(v as i64),
            DataTypeLiteralV::Dword(v) => Some(v as i64),
            DataTypeLiteralV::Qword(v) => Some(v as i64),
            _ => None,
        }
    }
}

impl DataTypeLiteralV {
    /// The text and width of a floating point literal: `true` for a double.
    pub open spec fn float_part(self) -> Option<(Seq<char>, bool)> {
        match self {
            DataTypeLiteralV::Float(t) => Some((t, false)),
            DataTypeLiteralV::Double(t) => Some((t, true)),
            _ => None,
        }
    }

    /// The bytes the literal packs to, big-endian; a floating point
    /// literal packs to `float_bytes`, the encoding of its value.
    pub open spec fn packed(self, float_bytes: Seq<u8>) -> Seq<u8> {
        match self {
            DataTypeLiteralV::Byte(v) => seq![v],
            DataTypeLiteralV::Word(v) => spec_u16_to_be_bytes(v),
            DataTypeLiteralV::Dword(v) => spec_u32_to_be_bytes(v),
            DataTypeLiteralV::Qword(v) => spec_u64_to_be_bytes(v),
            DataTypeLiteralV::Float(_) => float_bytes,
            DataTypeLiteralV::Double(_) => float_bytes,
        }
    }
}

/// Whether `bytes` may stand for the floating point part of a literal
/// whose float part is `part`: an encoding `encode` may give, or nothing
/// when there is no float part.
pub open spec fn float_chunk<F: Fn(&String, bool) -> Vec<u8>>(encode: F, part: Option<(Seq<char>, bool)>, bytes: Seq<u8>) -> bool {
    match part {
        Some((t, d)) => float_encoding(encode, t, d, bytes),
        None => bytes == Seq::<u8>::empty(),
    }
}

impl DataTypeLiteral {
    /// Writes the literal's bytes, big-endian; `encode_float` gives the
    /// bytes of a floating point value from its text.
    pub fn serialize<F: Fn(&String, bool) -> Vec<u8>>(&self, stream: &mut BytecodeStream, encode_float: &F)
        requires
            forall|t: &String, d: bool| encode_float.requires((t, d)),
        ensures
            exists|fb: Seq<u8>| float_chunk(*encode_float, self@.float_part(), fb)
                && final(stream)@ == old(stream)@ + self@.packed(fb),
    {
        match self {
            DataTypeLiteral::Byte(v) => {
                stream.write_u8(*v);
                let ghost fb = Seq::<u8>::empty();
                assert(float_chunk(*encode_float, self@.float_part(), fb));
                assert(self@.packed(fb) == seq![*v]);
                assert(stream@ =~= old(stream)@ + self@.packed(fb));
            },
            DataTypeLiteral::Word(v) => {
                stream.write_be_u16(*v);
                assert(float_chunk(*encode_float, self@.float_part(), Seq::<u8>::empty()));
            },
            DataTypeLiteral::Dword(v) => {
                stream.write_be_u32(*v);
                assert(float_chunk(*encode_float, self@.float_part(), Seq::<u8>::empty()));
            },
            DataTypeLiteral::Qword(v) => {
                stream.write_be_u64(*v);
                assert(float_chunk(*encode_float, self@.float_part(), Seq::<u8>::empty()));
            },
            DataTypeLiteral::Float(t) => {
                stream.write_float(t, false, encode_float);
                let ghost fb = choose|b: Seq<u8>| float_encoding(*encode_float, t@, false, b) && stream@ == old(stream)@ + b;
                assert(float_chunk(*encode_float, self@.float_part(), fb));
                assert(stream@ == old(stream)@ + self@.packed(fb));
            },
            DataTypeLiteral::Double(t) => {
                stream.write_float(t, true, encode_float);
                let ghost fb = choose|b: Seq<u8>| float_encoding(*encode_float, t@, true, b) && stream@ == old(stream)@ + b;
                assert(float_chunk(*encode_float, self@.float_part(), fb));
                assert(stream@ == old(stream)@ + self@.packed(fb));
            },
        }
    }

    /// Returns a copy of the literal.
    pub fn duplicate(&self) -> (r: DataTypeLiteral)
        ensures
            r@ == self@,
    {
        match self {
            DataTypeLiteral::Byte(v) => DataTypeLiteral::Byte(*v),
            DataTypeLiteral::Word(v) => DataTypeLiteral::Word(*v),
            DataTypeLiteral::Dword(v) => DataTypeLiteral::Dword(*v),
            DataTypeLiteral::Qword(v) => DataTypeLiteral::Qword(*v),
            DataTypeLiteral::Float(t) => DataTypeLiteral::Float(t.clone()),
            DataTypeLiteral::Double(t) => DataTypeLiteral::Double(t.clone()),
        }
    }

    /// Returns the size in bytes of the literal.
    pub fn size(&self) -> (r: usize)
        ensures
            r == self@.data_type().spec_size(),
    {
        self.data_type().size()
    }

    /// Returns the data type of the literal.
    pub fn data_type(&self) -> (r: DataType)
        ensures
            r == self@.data_type(),
    {
        match self {
            DataTypeLiteral::Byte(_) => DataType::Byte,
            DataTypeLiteral::Word(_) => DataType::Word,
            DataTypeLiteral::Dword(_) => DataType::Dword,
            DataTypeLiteral::Qword(_) => DataType::Qword,
            DataTypeLiteral::Float(_) => DataType::Float,
            DataTypeLiteral::Double(_) => DataType::Double,
        }
    }

    /// Returns the value of an integer literal as a signed 64-bit value, or
    /// `None` for a floating point literal.
    pub fn as_int(&self) -> (r: Option<i64>)
        ensures
            r == self@.as_int(),
    {
        match self {
            DataTypeLiteral::Byte(v) => Some(*v as i64),
            DataTypeLiteral::Word(v) => Some(*v as i64),
            DataTypeLiteral::Dword(v) => Some(*v as i64),
            DataTypeLiteral::Qword(v) => Some(*v as i64),
            _ => None,
        }
    }
}

/// The width of a register view.
#[derive(Debug, Clone, Copy, PartialEq, Eq, Structural)]
pub enum RegisterWidth {
    /// An 8-bit view into a register.
    Byte,
    /// A 16-bit view into a register.
    Word,
    /// A 32-bit view into a register.
    Dword,
    /// A 64-bit view into a register.
    Qword,
}

/// A register family together with the width of the view into it; `a64`
/// stands for family `a` seen at 64 bits.
#[derive(Debug, Clone, Copy, PartialEq, Eq, Structural)]
pub struct RegisterSpec {
    /// The register family.
    pub register: Register,
    /// The width of the view.
    pub width: RegisterWidth,
}

impl RegisterSpec {
    /// Builds a register specification.
    pub fn new(register: Register, width: RegisterWidth) -> (r: Self)
        ensures
            r.register == register,
            r.width == width,
    {
        RegisterSpec { register, width }
    }

    /// The 64-bit view of `register`.
    pub fn qword(register: Register) -> (r: Self)
        ensures
            r == (RegisterSpec { register, width: RegisterWidth::Qword }),
    {
        Self::new(register, RegisterWidth::Qword)
    }

    /// The 32-bit view of `register`.
    pub fn dword(register: Register) -> (r: Self)
        ensures
            r == (RegisterSpec { register, width: RegisterWidth::Dword }),
    {
        Self::new(register, RegisterWidth::Dword)
    }

    /// The 16-bit view of `register`.
    pub fn word(register: Register) -> (r: Self)
        ensures
            r == (RegisterSpec { register, width: RegisterWidth::Word }),
    {
        Self::new(register, RegisterWidth::Word)
    }

    /// The 8-bit view of `register`.
    pub fn byte(register: Register) -> (r: Self)
        ensures
            r == (RegisterSpec { register, width: RegisterWidth::Byte }),
    {
        Self::new(register, RegisterWidth::Byte)
    }
}

/// Why a register specification could not be read.
#[derive(Debug, Clone)]
pub enum RegisterSpecError {
    /// The text holds no digit, so no width follows the family.
    WidthNotSpecified(String),
    /// The text before the first digit names no register family.
    NoSuchRegister(String),
    /// The text from the first digit on names no width.
    NoSuchWidth(String),
}

/// The mathematical model of a [`RegisterSpecError`].
pub enum RegisterSpecErrorV {
    WidthNotSpecified(Seq<char>),
    NoSuchRegister(Seq<char>),
    NoSuchWidth(Seq<char>),
}

impl View for RegisterSpecError {
    type V = RegisterSpecErrorV;

    open spec fn view(&self) -> RegisterSpecErrorV {
        match self {
            RegisterSpecError::WidthNotSpecified(s) => RegisterSpecErrorV::WidthNotSpecified(s@),
            RegisterSpecError::NoSuchRegister(s) => RegisterSpecErrorV::NoSuchRegister(s@),
            RegisterSpecError::NoSuchWidth(s) => RegisterSpecErrorV::NoSuchWidth(s@),
        }
    }
}

impl RegisterSpecError {
    /// Returns a copy of the error.
    pub fn duplicate(&self) -> (r: RegisterSpecError)
        ensures
            r@ == self@,
    {
        match self {
            RegisterSpecError::WidthNotSpecified(s) => RegisterSpecError::WidthNotSpecified(s.clone()),
            RegisterSpecError::NoSuchRegister(s) => RegisterSpecError::NoSuchRegister(s.clone()),
            RegisterSpecError::NoSuchWidth(s) => RegisterSpecError::NoSuchWidth(s.clone()),
        }
    }
}

/// Whether `c` is an ASCII decimal digit.
pub open spec fn is_ascii_digit(c: char) -> bool {
    '0' <= c <= '9'
}

/// The index of the first ASCII digit of `s`, if any.
pub open spec fn first_digit(s: Seq<char>) -> Option<int>
    decreases s.len(),
{
    if s.len() == 0 {
        None
    } else if is_ascii_digit(s[0]) {
        Some(0)
    } else {
        match first_digit(s.drop_first()) {
            Some(i) => Some(i + 1),
            None => None,
        }
    }
}

/// The result of reading `s` as a register specification.
pub open spec fn spec_parse_register_spec(s: Seq<char>) -> Result<RegisterSpec, RegisterSpecErrorV> {
    match first_digit(s) {
        None => Err(RegisterSpecErrorV::WidthNotSpecified(s)),
        Some(i) => {
            let name = s.subrange(0, i);
            let width = s.subrange(i, s.len() as int);
            match Register::spec_from_name(name) {
                None => Err(RegisterSpecErrorV::NoSuchRegister(name)),
                Some(register) => match RegisterWidth::spec_from_name(width) {
                    None => Err(RegisterSpecErrorV::NoSuchWidth(width)),
                    Some(width) => Ok(RegisterSpec { register, width }),
                },
            }
        },
    }
}

proof fn lemma_first_digit(s: Seq<char>, i: int)
    requires
        0 <= i <= s.len(),
        forall|j: int| 0 <= j < i ==> !is_ascii_digit(#[trigger] s[j]),
    ensures
        i < s.len() && is_ascii_digit(s[i]) ==> first_digit(s) == Some(i),
        i == s.len() ==> first_digit(s) is None,
    decreases i,
{
    if i > 0 {
        lemma_first_digit(s.drop_first(), i - 1);
    } else if s.len() > 0 {
    }
}

impl RegisterSpec {
    /// Reads a register specification such as `a64` or `sp16`: the text
    /// before the first digit names the family, the rest the width.
    pub fn parse(register_str: &str) -> (r: Result<RegisterSpec, RegisterSpecError>)
        ensures
            match r {
                Ok(spec) => spec_parse_register_spec(register_str@) == Ok::<_, RegisterSpecErrorV>(spec),
                Err(e) => spec_parse_register_spec(register_str@) == Err::<RegisterSpec, _>(e@),
            },
    {
        let v = chars_of(register_str);
        let mut i: usize = 0;
        while i < v.len() && !('0' <= v[i] && v[i] <= '9')
            invariant
                0 <= i <= v@.len(),
                forall|j: int| 0 <= j < i ==> !is_ascii_digit(#[trigger] v@[j]),
            decreases v@.len() - i,
        {
            i += 1;
        }
        proof {
            lemma_first_digit(v@, i as int);
        }
        if i == v.len() {
            return Err(RegisterSpecError::WidthNotSpecified(string_of(v.as_slice())));
        }
        let name = string_of_range(v.as_slice(), 0, i);
        assert(name@ =~= v@.subrange(0, i as int));
        let register = match Register::from_name(name.as_str()) {
            Some(reg) => reg,
            None => return Err(RegisterSpecError::NoSuchRegister(name)),
        };
        let width_text = string_of_range(v.as_slice(), i, v.len());
        assert(width_text@ =~= v@.subrange(i as int, v@.len() as int));
        let width = match RegisterWidth::from_name(width_text.as_str()) {
            Some(w) => w,
            None => return Err(RegisterSpecError::NoSuchWidth(width_text)),
        };
        Ok(RegisterSpec { register, width })
    }
}

/// A symbol name, with the namespace (module) it belongs to when known.
#[derive(Debug, Clone, PartialEq, Eq, Hash)]
pub struct SymbolName {
    /// The bare name.
    pub name: String,
    /// The namespace, if the name is qualified.
    pub namespace: Option<String>,
}

/// The mathematical model of a [`SymbolName`].
pub struct SymbolNameV {
    pub name: Seq<char>,
    pub namespace: Option<Seq<char>>,
}

impl View for SymbolName {
    type V = SymbolNameV;

    open spec fn view(&self) -> SymbolNameV {
        SymbolNameV {
            name: self.name@,
            namespace: match self.namespace {
                Some(ns) => Some(ns@),
                None => None,
            },
        }
    }
}

impl SymbolNameV {
    /// The written form of the name: `namespace::name`, or the bare name.
    pub open spec fn text(self) -> Seq<char> {
        match self.namespace {
            Some(ns) => ns + seq![':', ':'] + self.name,
            None => self.name,
        }
    }

    /// The name seen from module `module`: an unqualified name belongs to it.
    pub open spec fn with_current_module(self, module: Seq<char>) -> SymbolNameV {
        match self.namespace {
            Some(_) => self,
            None => SymbolNameV { name: self.name, namespace: Some(module) },
        }
    }
}

impl SymbolName {
    /// Builds a symbol name from its parts.
    pub fn new(name: &str, namespace: Option<&str>) -> (r: SymbolName)
        ensures
            r@.name == name@,
            r@.namespace == match namespace {
                Some(ns) => Some(ns@),
                None => None::<Seq<char>>,
            },
    {
        let name = string_of(chars_of(name).as_slice());
        let namespace = match namespace {
            Some(ns) => Some(string_of(chars_of(ns).as_slice())),
            None => None,
        };
        SymbolName { name, namespace }
    }

    /// Returns a copy of the name.
    pub fn duplicate(&self) -> (r: SymbolName)
        ensures
            r@ == self@,
    {
        SymbolName {
            name: self.name.clone(),
            namespace: match &self.namespace {
                Some(ns) => Some(ns.clone()),
                None => None,
            },
        }
    }

    /// Returns the written form of the name: `namespace::name`, or the bare
    /// name.
    pub fn to_string(&self) -> (r: String)
        ensures
            r@ == self@.text(),
    {
        let mut v: Vec<char> = Vec::new();
        if let Some(ns) = &self.namespace {
            let n = chars_of(ns.as_str());
            for i in 0..n.len()
                invariant
                    v@ == n@.subrange(0, i as int),
            {
                v.push(n[i]);
                assert(n@.subrange(0, i + 1) =~= n@.subrange(0, i as int).push(n@[i as int]));
            }
            assert(n@.subrange(0, n@.len() as int) =~= n@);
            v.push(':');
            v.push(':');
        }
        let ghost head = v@;
        let b = chars_of(self.name.as_str());
        for i in 0..b.len()
            invariant
                v@ == head + b@.subrange(0, i as int),
        {
            v.push(b[i]);
            assert(head + b@.subrange(0, i + 1) =~= (head + b@.subrange(0, i as int)).push(b@[i as int]));
        }
        assert(b@.subrange(0, b@.len() as int) =~= b@);
        assert(v@ =~= self@.text());
        string_of(v.as_slice())
    }

    /// Returns whether the two names are the same: same bare name and same
    /// namespace.
    pub fn same_as(&self, other: &SymbolName) -> (r: bool)
        ensures
            r == (self@ == other@),
    {
        let a = chars_of(self.name.as_str());
        let b = chars_of(other.name.as_str());
        if !crate::text::same_chars(a.as_slice(), b.as_slice()) {
            return false;
        }
        match (&self.namespace, &other.namespace) {
            (Some(x), Some(y)) => {
                let xa = chars_of(x.as_str());
                let ya = chars_of(y.as_str());
                crate::text::same_chars(xa.as_slice(), ya.as_slice())
            },
            (None, None) => true,
            _ => false,
        }
    }

    /// The name as seen from module `module`: an unqualified name is placed
    /// in that module; a qualified one keeps its namespace.
    pub fn with_current_module(&self, module: &str) -> (r: SymbolName)
        ensures
            r@ == self@.with_current_module(module@),
    {
        match &self.namespace {
            Some(_) => self.duplicate(),
            None => SymbolName {
                name: self.name.clone(),
                namespace: Some(string_of(chars_of(module).as_slice())),
            },
        }
    }
}

impl DataType {
    /// The name that stands for each variant in source text.
    pub open spec fn spec_name(self) -> Seq<char> {
        match self {
            DataType::Byte => seq!['b', 'y', 't', 'e'],
            DataType::Word => seq!['w', 'o', 'r', 'd'],
            DataType::Dword => seq!['d', 'w', 'o', 'r', 'd'],
            DataType::Qword => seq!['q', 'w', 'o', 'r', 'd'],
            DataType::Float => seq!['f', 'l', 'o', 'a', 't'],
            DataType::Double => seq!['d', 'o', 'u', 'b', 'l', 'e'],
        }
    }

    /// The variant whose name is exactly `s`, if any.
    pub open spec fn spec_from_name(s: Seq<char>) -> Option<DataType> {
        if s == seq!['b', 'y', 't', 'e'] {
            Some(DataType::Byte)
        } else if s == seq!['w', 'o', 'r', 'd'] {
            Some(DataType::Word)
        } else if s == seq!['d', 'w', 'o', 'r', 'd'] {
            Some(DataType::Dword)
        } else if s == seq!['q', 'w', 'o', 'r', 'd'] {
            Some(DataType::Qword)
        } else if s == seq!['f', 'l', 'o', 'a', 't'] {
            Some(DataType::Float)
        } else if s == seq!['d', 'o', 'u', 'b', 'l', 'e'] {
            Some(DataType::Double)
        } else {
            None
        }
    }

    /// Looks up the data type written as `s` in source text.
    #[verifier::spinoff_prover]
    #[verifier::rlimit(50)]
    pub fn from_name(s: &str) -> (r: Option<DataType>)
        ensures
            r == Self::spec_from_name(s@),
    {
        let v = chars_of(s);
        let name: &[char] = &['b', 'y', 't', 'e'];
        assert(name@ =~= seq!['b', 'y', 't', 'e']);
        if same_chars(v.as_slice(), name) {
            return Some(DataType::Byte);
        }
        let name: &[char] = &['w', 'o', 'r', 'd'];
        assert(name@ =~= seq!['w', 'o', 'r', 'd']);
        if same_chars(v.as_slice(), name) {
            return Some(DataType::Word);
        }
        let name: &[char] = &['d', 'w', 'o', 'r', 'd'];
        assert(name@ =~= seq!['d', 'w', 'o', 'r', 'd']);
        if same_chars(v.as_slice(), name) {
            return Some(DataType::Dword);
        }
        let name: &[char] = &['q', 'w', 'o', 'r', 'd'];
        assert(name@ =~= seq!['q', 'w', 'o', 'r', 'd']);
        if same_chars(v.as_slice(), name) {
            return Some(DataType::Qword);
        }
        let name: &[char] = &['f', 'l', 'o', 'a', 't'];
        assert(name@ =~= seq!['f', 'l', 'o', 'a', 't']);
        if same_chars(v.as_slice(), name) {
            return Some(DataType::Float);
        }
        let name: &[char] = &['d', 'o', 'u', 'b', 'l', 'e'];
        assert(name@ =~= seq!['d', 'o', 'u', 'b', 'l', 'e']);
        if same_chars(v.as_slice(), name) {
            return Some(DataType::Double);
        }
        None
    }
}

impl RegisterWidth {
    /// The name that stands for each variant in source text.
    pub open spec fn spec_name(self) -> Seq<char> {
        match self {
            RegisterWidth::Byte => seq!['8'],
            RegisterWidth::Word => seq!['1', '6'],
            RegisterWidth::Dword => seq!['3', '2'],
            RegisterWidth::Qword => seq!['6', '4'],
        }
    }

    /// The variant whose name is exactly `s`, if any.
    pub open spec fn spec_from_name(s: Seq<char>) -> Option<RegisterWidth> {
        if s == seq!['8'] {
            Some(RegisterWidth::Byte)
        } else if s == seq!['1', '6'] {
            Some(RegisterWidth::Word)
        } else if s == seq!['3', '2'] {
            Some(RegisterWidth::Dword)
        } else if s == seq!['6', '4'] {
            Some(RegisterWidth::Qword)
        } else {
            None
        }
    }

    /// Looks up the register width written as `s` after a register family.
    #[verifier::spinoff_prover]
    #[verifier::rlimit(50)]
    pub fn from_name(s: &str) -> (r: Option<RegisterWidth>)
        ensures
            r == Self::spec_from_name(s@),
    {
        let v = chars_of(s);
        let name: &[char] = &['8'];
        assert(name@ =~= seq!['8']);
        if same_chars(v.as_slice(), name) {
            return Some(RegisterWidth::Byte);
        }
        let name: &[char] = &['1', '6'];
        assert(name@ =~= seq!['1', '6']);
        if same_chars(v.as_slice(), name) {
            return Some(RegisterWidth::Word);
        }
        let name: &[char] = &['3', '2'];
        assert(name@ =~= seq!['3', '2']);
        if same_chars(v.as_slice(), name) {
            return Some(RegisterWidth::Dword);
        }
        let name: &[char] = &['6', '4'];
        assert(name@ =~= seq!['6', '4']);
        if same_chars(v.as_slice(), name) {
            return Some(RegisterWidth::Qword);
        }
        None
    }
}
impl DataType {
    /// Returns the name that stands for the variant in source text.
    pub fn name(&self) -> (r: String)
        ensures
            r@ == self.spec_name(),
    {
        let s: &[char] = match self {
            DataType::Byte => {
                let n: &[char] = &['b', 'y', 't', 'e'];
                assert(n@ =~= seq!['b', 'y', 't', 'e']);
                n
            },
            DataType::Word => {
                let n: &[char] = &['w', 'o', 'r', 'd'];
                assert(n@ =~= seq!['w', 'o', 'r', 'd']);
                n
            },
            DataType::Dword => {
                let n: &[char] = &['d', 'w', 'o', 'r', 'd'];
                assert(n@ =~= seq!['d', 'w', 'o', 'r', 'd']);
                n
            },
            DataType::Qword => {
                let n: &[char] = &['q', 'w', 'o', 'r', 'd'];
                assert(n@ =~= seq!['q', 'w', 'o', 'r', 'd']);
                n
            },
            DataType::Float => {
                let n: &[char] = &['f', 'l', 'o', 'a', 't'];
                assert(n@ =~= seq!['f', 'l', 'o', 'a', 't']);
                n
            },
            DataType::Double => {
                let n: &[char] = &['d', 'o', 'u', 'b', 'l', 'e'];
                assert(n@ =~= seq!['d', 'o', 'u', 'b', 'l', 'e']);
                n
            },
        };
        string_of(s)
    }
}

impl RegisterWidth {
    /// Returns the name that stands for the variant in source text.
    pub fn name(&self) -> (r: String)
        ensures
            r@ == self.spec_name(),
    {
        let s: &[char] = match self {
            RegisterWidth::Byte => {
                let n: &[char] = &['8'];
                assert(n@ =~= seq!['8']);
                n
            },
            RegisterWidth::Word => {
                let n: &[char] = &['1', '6'];
                assert(n@ =~= seq!['1', '6']);
                n
            },
            RegisterWidth::Dword => {
                let n: &[char] = &['3', '2'];
                assert(n@ =~= seq!['3', '2']);
                n
            },
            RegisterWidth::Qword => {
                let n: &[char] = &['6', '4'];
                assert(n@ =~= seq!['6', '4']);
                n
            },
        };
        string_of(s)
    }
}


/// Reading back the name of a data type gives the data type.
pub proof fn lemma_data_type_name_roundtrip(t: DataType)
    ensures
        DataType::spec_from_name(t.spec_name()) == Some(t),
{
    match t {
        DataType::Byte => {
            let n = seq!['b', 'y', 't', 'e'];
        },
        DataType::Word => {
            let n = seq!['w', 'o', 'r', 'd'];
            assert(n[0] != seq!['b', 'y', 't', 'e'][0]);
        },
        DataType::Dword => {
            let n = seq!['d', 'w', 'o', 'r', 'd'];
            assert(n.len() != seq!['b', 'y', 't', 'e'].len());
            assert(n.len() != seq!['w', 'o', 'r', 'd'].len());
        },
        DataType::Qword => {
            let n = seq!['q', 'w', 'o', 'r', 'd'];
            assert(n.len() != seq!['b', 'y', 't', 'e'].len());
            assert(n.len() != seq!['w', 'o', 'r', 'd'].len());
            assert(n[0] != seq!['d', 'w', 'o', 'r', 'd'][0]);
        },
        DataType::Float => {
            let n = seq!['f', 'l', 'o', 'a', 't'];
            assert(n.len() != seq!['b', 'y', 't', 'e'].len());
            assert(n.len() != seq!['w', 'o', 'r', 'd'].len());
            assert(n[0] != seq!['d', 'w', 'o', 'r', 'd'][0]);
            assert(n[0] != seq!['q', 'w', 'o', 'r', 'd'][0]);
        },
        DataType::Double => {
            let n = seq!['d', 'o', 'u', 'b', 'l', 'e'];
            assert(n.len() != seq!['b', 'y', 't', 'e'].len());
            assert(n.len() != seq!['w', 'o', 'r', 'd'].len());
            assert(n.len() != seq!['d', 'w', 'o', 'r', 'd'].len());
            assert(n.len() != seq!['q', 'w', 'o', 'r', 'd'].len());
            assert(n.len() != seq!['f', 'l', 'o', 'a', 't'].len());
        },
    }
}

/// Reading back the name of a register width gives the width.
pub proof fn lemma_register_width_name_roundtrip(w: RegisterWidth)
    ensures
        RegisterWidth::spec_from_name(w.spec_name()) == Some(w),
{
    match w {
        RegisterWidth::Byte => {
            let n = seq!['8'];
        },
        RegisterWidth::Word => {
            let n = seq!['1', '6'];
            assert(n.len() != seq!['8'].len());
        },
        RegisterWidth::Dword => {
            let n = seq!['3', '2'];
            assert(n.len() != seq!['8'].len());
            assert(n[0] != seq!['1', '6'][0]);
        },
        RegisterWidth::Qword => {
            let n = seq!['6', '4'];
            assert(n.len() != seq!['8'].len());
            assert(n[0] != seq!['1', '6'][0]);
            assert(n[0] != seq!['3', '2'][0]);
        },
    }
}



impl DataTypeLiteralV {
    /// The value as text: decimal for an integer, the text it was written
    /// with for a floating point value.
    pub open spec fn value_text(self) -> Seq<char> {
        match self {
            DataTypeLiteralV::Byte(v) => decimal_digits(v as nat),
            DataTypeLiteralV::Word(v) => decimal_digits(v as nat),
            DataTypeLiteralV::Dword(v) => decimal_digits(v as nat),
            DataTypeLiteralV::Qword(v) => decimal_digits(v as nat),
            DataTypeLiteralV::Float(t) => t,
            DataTypeLiteralV::Double(t) => t,
        }
    }
}

impl DataTypeLiteral {
    /// Returns the value as text: decimal for an integer, the text it was
    /// written with for a floating point value.
    pub fn value_string(&self) -> (r: String)
        ensures
            r@ == self@.value_text(),
    {
        match self {
            DataTypeLiteral::Byte(v) => unsigned_text(*v as u64),
            DataTypeLiteral::Word(v) => unsigned_text(*v as u64),
            DataTypeLiteral::Dword(v) => unsigned_text(*v as u64),
            DataTypeLiteral::Qword(v) => unsigned_text(*v),
            DataTypeLiteral::Float(t) => t.clone(),
            DataTypeLiteral::Double(t) => t.clone(),
        }
    }
}

impl RegisterSpec {
    /// The written form: the register's name followed by the width, as in `a64`.
    pub open spec fn text(self) -> Seq<char> {
        self.register.spec_name() + self.width.spec_name()
    }

    /// Returns the written form: the register's name followed by the
    /// width, as in `a64`.
    pub fn to_string(&self) -> (r: String)
        ensures
            r@ == self.text(),
    {
        let mut out: Vec<char> = Vec::new();
        push_str(&mut out, self.register.name().as_str());
        push_str(&mut out, self.width.name().as_str());
        string_of(out.as_slice())
    }
}

impl SymbolNameV {
    /// The written form with an offset: the name alone for offset zero,
    /// else followed by `+n` or `-n`.
    pub open spec fn offset_text(self, offset: i64) -> Seq<char> {
        if offset == 0 {
            self.text()
        } else if offset > 0 {
            self.text() + seq!['+'] + decimal_digits(offset as nat)
        } else {
            self.text() + decimal_text(offset as int)
        }
    }
}

impl SymbolName {
    /// Returns the written form with an offset: the name alone for offset
    /// zero, else followed by `+n` or `-n`.
    pub fn format_offset(&self, offset: i64) -> (r: String)
        ensures
            r@ == self@.offset_text(offset),
    {
        let mut out: Vec<char> = Vec::new();
        push_str(&mut out, self.to_string().as_str());
        if offset > 0 {
            out.push('+');
            push_str(&mut out, unsigned_text(offset as u64).as_str());
        } else if offset < 0 {
            push_str(&mut out, int_text(offset).as_str());
        }
        assert(out@ =~= self@.offset_text(offset));
        string_of(out.as_slice())
    }
}


impl From<DataTypeLiteral> for DataType {
    /// The data type of the literal.
    fn from(value: DataTypeLiteral) -> (r: DataType) {
        value.data_type()
    }
}

impl vstd::std_specs::convert::FromSpecImpl<DataTypeLiteral> for DataType {
    open spec fn obeys_from_spec() -> bool {
        true
    }

    open spec fn from_spec(v: DataTypeLiteral) -> DataType {
        v@.data_type()
    }
}


/// Placing a name in a module a second time changes nothing: the first
/// placement qualifies it.
pub proof fn lemma_with_current_module_idempotent(name: SymbolNameV, m1: Seq<char>, m2: Seq<char>)
    ensures
        name.with_current_module(m1).with_current_module(m2) == name.with_current_module(m1),
        name.with_current_module(m1).namespace is Some,
{
}


proof fn lemma_register_name_has_no_digit(r: Register)
    ensures
        forall|j: int| 0 <= j < r.spec_name().len() ==> !is_ascii_digit(#[trigger] r.spec_name()[j]),
{
    match r {
        Register::A => {
            let n = seq!['a'];
            assert(n[0] == 'a');
        },
        Register::B => {
            let n = seq!['b'];
            assert(n[0] == 'b');
        },
        Register::C => {
            let n = seq!['c'];
            assert(n[0] == 'c');
        },
        Register::D => {
            let n = seq!['d'];
            assert(n[0] == 'd');
        },
        Register::StackPointer => {
            let n = seq!['s', 'p'];
            assert(n[0] == 's');
            assert(n[1] == 'p');
        },
        Register::BasePointer => {
            let n = seq!['b', 'p'];
            assert(n[0] == 'b');
            assert(n[1] == 'p');
        },
        Register::SourceIndex => {
            let n = seq!['s', 'i'];
            assert(n[0] == 's');
            assert(n[1] == 'i');
        },
        Register::DestinationIndex => {
            let n = seq!['d', 'i'];
            assert(n[0] == 'd');
            assert(n[1] == 'i');
        },
        Register::InstructionPointer => {
            let n = seq!['i', 'p'];
            assert(n[0] == 'i');
            assert(n[1] == 'p');
        },
        Register::LoopCounterA => {
            let n = seq!['l', 'c', 'a'];
            assert(n[0] == 'l');
            assert(n[1] == 'c');
            assert(n[2] == 'a');
        },
        Register::LoopCounterB => {
            let n = seq!['l', 'c', 'b'];
            assert(n[0] == 'l');
            assert(n[1] == 'c');
            assert(n[2] == 'b');
        },
        Register::LocalA => {
            let n = seq!['l', 'a'];
            assert(n[0] == 'l');
            assert(n[1] == 'a');
        },
        Register::LocalB => {
            let n = seq!['l', 'b'];
            assert(n[0] == 'l');
            assert(n[1] == 'b');
        },
        Register::LocalC => {
            let n = seq!['l', 'c'];
            assert(n[0] == 'l');
            assert(n[1] == 'c');
        },
        Register::LocalD => {
            let n = seq!['l', 'd'];
            assert(n[0] == 'l');
            assert(n[1] == 'd');
        },
        Register::LocalE => {
            let n = seq!['l', 'e'];
            assert(n[0] == 'l');
            assert(n[1] == 'e');
        },
        Register::LocalF => {
            let n = seq!['l', 'f'];
            assert(n[0] == 'l');
            assert(n[1] == 'f');
        },
        Register::LocalG => {
            let n = seq!['l', 'g'];
            assert(n[0] == 'l');
            assert(n[1] == 'g');
        },
        Register::LocalH => {
            let n = seq!['l', 'h'];
            assert(n[0] == 'l');
            assert(n[1] == 'h');
        },
    }
}

/// The written form of a register specification reads back as it.
pub proof fn lemma_register_spec_text_roundtrip(spec: RegisterSpec)
    ensures
        spec_parse_register_spec(spec.text()) == Ok::<RegisterSpec, RegisterSpecErrorV>(spec),
{
    let name = spec.register.spec_name();
    let width = spec.width.spec_name();
    let s = name + width;
    lemma_register_name_has_no_digit(spec.register);
    assert forall|j: int| 0 <= j < name.len() implies !is_ascii_digit(#[trigger] s[j]) by {
        assert(s[j] == name[j]);
    }
    assert(is_ascii_digit(s[name.len() as int])) by {
        assert(s[name.len() as int] == width[0]);
    }
    lemma_first_digit(s, name.len() as int);
    assert(s.subrange(0, name.len() as int) =~= name);
    assert(s.subrange(name.len() as int, s.len() as int) =~= width);
    crate::opcode::lemma_register_name_roundtrip(spec.register);
    lemma_register_width_name_roundtrip(spec.width);
}

} // verus!
