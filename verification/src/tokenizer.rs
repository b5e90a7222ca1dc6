//! Tokenization: each line of F750 source becomes a sequence of tokens,
//! which the parser then reads.
use vstd::prelude::*;
use crate::opcode::ReservedWord;
use crate::parser::{ParseError, ParseErrorV};
use crate::text::{chars_of, string_of, string_of_range};
use crate::token::{spec_is_special_atom, is_special_atom};
use std::collections::VecDeque;

verus! {

pub const ATOM_COMMENT: char = ';';
pub const ATOM_WHITESPACE: char = ' ';
pub const ATOM_SEPARATOR: char = ',';
pub const ATOM_COLON: char = ':';
pub const ATOM_QUOTE: char = '"';
pub const ATOM_UNDERLINE: char = '_';
pub const ATOM_PLUS: char = '+';
pub const ATOM_DEREF: char = '&';
pub const ATOM_HASHTAG: char = '#';
pub const ATOM_AT: char = '@';
pub const CHAR_DOT: char = '.';

/// A token of a source line.
#[derive(Debug, Clone, PartialEq)]
pub enum Token {
    Whitespace,
    Separator,
    Colon,
    Offset,
    Deref,
    Hashtag,
    Annotation,
    /// The namespace separator `::`.
    NamespaceSeparator,
    IntLiteral(i64),
    /// A floating point literal, held as the text it was written with.
    FloatLiteral(String),
    /// A string literal; the text between the quotes.
    QuotedString(String),
    Keyword(ReservedWord),
    /// Any other word: identifiers, labels, binding names.
    Token(String),
}

/// The mathematical model of a [`Token`].
pub enum TokenV {
    Whitespace,
    Separator,
    Colon,
    Offset,
    Deref,
    Hashtag,
    Annotation,
    NamespaceSeparator,
    IntLiteral(i64),
    FloatLiteral(Seq<char>),
    QuotedString(Seq<char>),
    Keyword(ReservedWord),
    Token(Seq<char>),
}

impl View for Token {
    type V = TokenV;

    open spec fn view(&self) -> TokenV {
        match self {
            Token::Whitespace => TokenV::Whitespace,
            Token::Separator => TokenV::Separator,
            Token::Colon => TokenV::Colon,
            Token::Offset => TokenV::Offset,
            Token::Deref => TokenV::Deref,
            Token::Hashtag => TokenV::Hashtag,
            Token::Annotation => TokenV::Annotation,
            Token::NamespaceSeparator => TokenV::NamespaceSeparator,
            Token::IntLiteral(v) => TokenV::IntLiteral(*v),
            Token::FloatLiteral(t) => TokenV::FloatLiteral(t@),
            Token::QuotedString(s) => TokenV::QuotedString(s@),
            Token::Keyword(k) => TokenV::Keyword(*k),
            Token::Token(s) => TokenV::Token(s@),
        }
    }
}

/// The models of a sequence of tokens.
pub open spec fn tokens_view(v: Seq<Token>) -> Seq<TokenV> {
    v.map_values(|t: Token| t@)
}

impl Token {
    /// Returns a copy of the token.
    pub fn duplicate(&self) -> (r: Token)
        ensures
            r@ == self@,
    {
        match self {
            Token::Whitespace => Token::Whitespace,
            Token::Separator => Token::Separator,
            Token::Colon => Token::Colon,
            Token::Offset => Token::Offset,
            Token::Deref => Token::Deref,
            Token::Hashtag => Token::Hashtag,
            Token::Annotation => Token::Annotation,
            Token::NamespaceSeparator => Token::NamespaceSeparator,
            Token::IntLiteral(v) => Token::IntLiteral(*v),
            Token::FloatLiteral(t) => Token::FloatLiteral(t.clone()),
            Token::QuotedString(s) => Token::QuotedString(s.clone()),
            Token::Keyword(k) => Token::Keyword(*k),
            Token::Token(s) => Token::Token(s.clone()),
        }
    }

    /// Returns whether two tokens are equal.
    pub fn same_as(&self, other: &Token) -> (r: bool)
        ensures
            r == (self@ == other@),
    {
        match (self, other) {
            (Token::Whitespace, Token::Whitespace) => true,
            (Token::Separator, Token::Separator) => true,
            (Token::Colon, Token::Colon) => true,
            (Token::Offset, Token::Offset) => true,
            (Token::Deref, Token::Deref) => true,
            (Token::Hashtag, Token::Hashtag) => true,
            (Token::Annotation, Token::Annotation) => true,
            (Token::NamespaceSeparator, Token::NamespaceSeparator) => true,
            (Token::IntLiteral(a), Token::IntLiteral(b)) => *a == *b,
            (Token::FloatLiteral(a), Token::FloatLiteral(b)) => a.eq(b),
            (Token::QuotedString(a), Token::QuotedString(b)) => a.eq(b),
            (Token::Keyword(a), Token::Keyword(b)) => *a == *b,
            (Token::Token(a), Token::Token(b)) => a.eq(b),
            _ => false,
        }
    }

    /// Returns whether the token is whitespace.
    pub fn is_whitespace(&self) -> (r: bool)
        ensures
            r == (self@ is Whitespace),
    {
        match self {
            Token::Whitespace => true,
            _ => false,
        }
    }
}

// ---------------------------------------------------------------------
// Words: integers, floating point values, keywords.

/// Names the result of `parse_int::parse::<i64>` on the text `s`, with an
/// error taken as `None`.
pub uninterp spec fn parse_int_i64(s: Seq<char>) -> Option<i64>;

/// The number of `-` characters in `s`.
pub open spec fn minus_count(s: Seq<char>) -> nat
    decreases s.len(),
{
    if s.len() == 0 {
        0
    } else {
        minus_count(s.drop_last()) + if s.last() == '-' { 1nat } else { 0nat }
    }
}

/// Calls `parse_int::parse::<i64>`, which reads decimal, `0x`, `0o` and
/// `0b` integers with `_` separators and an optional sign. The result is
/// named, not described. `parse_int` negates its result when the text
/// starts with `-`; that negation overflows (and panics) when the digits
/// carry a second `-` and denote `i64::MIN`, so texts with two or more
/// `-` are not admitted.
#[verifier::external_body]
fn parse_int_call(s: &str) -> (r: Option<i64>)
    requires
        minus_count(s@) < 2,
    ensures
        r == parse_int_i64(s@),
{
    parse_int::parse::<i64>(s).ok()
}

/// Whether `c` is an ASCII decimal digit.
pub open spec fn is_digit(c: char) -> bool {
    '0' <= c <= '9'
}

/// Whether every character of `s` is a decimal digit.
pub open spec fn all_digits(s: Seq<char>) -> bool {
    forall|i: int| 0 <= i < s.len() ==> is_digit(#[trigger] s[i])
}

/// The number of `.` characters in `s`.
pub open spec fn dot_count(s: Seq<char>) -> nat
    decreases s.len(),
{
    if s.len() == 0 {
        0
    } else {
        dot_count(s.drop_last()) + if s.last() == '.' { 1nat } else { 0nat }
    }
}

/// `s` without a leading `+` or `-`.
pub open spec fn strip_sign(s: Seq<char>) -> Seq<char> {
    if s.len() > 0 && (s[0] == '+' || s[0] == '-') {
        s.drop_first()
    } else {
        s
    }
}

/// Whether `s` spells `lower` ignoring ASCII case; `upper` is `lower` in capitals.
pub open spec fn equal_ignoring_case(s: Seq<char>, lower: Seq<char>, upper: Seq<char>) -> bool {
    &&& s.len() == lower.len()
    &&& forall|i: int| 0 <= i < s.len() ==> (#[trigger] s[i] == lower[i] || s[i] == upper[i])
}

/// The index of the first `e` or `E` of `s`, or its length.
pub open spec fn exponent_start(s: Seq<char>) -> int
    decreases s.len(),
{
    if s.len() == 0 {
        0
    } else if s[0] == 'e' || s[0] == 'E' {
        0
    } else {
        exponent_start(s.drop_first()) + 1
    }
}

/// A mantissa: digits with at most one `.`, and at least one digit.
pub open spec fn is_mantissa(m: Seq<char>) -> bool {
    &&& forall|i: int| 0 <= i < m.len() ==> (is_digit(#[trigger] m[i]) || m[i] == '.')
    &&& dot_count(m) <= 1
    &&& exists|i: int| 0 <= i < m.len() && is_digit(#[trigger] m[i])
}

/// An exponent after the `e`: an optional sign and at least one digit.
pub open spec fn is_exponent(x: Seq<char>) -> bool {
    strip_sign(x).len() > 0 && all_digits(strip_sign(x))
}

/// A decimal number, with an optional exponent.
pub open spec fn is_number(r: Seq<char>) -> bool {
    let e = exponent_start(r);
    is_mantissa(r.subrange(0, e)) && (e == r.len() || is_exponent(r.subrange(e + 1, r.len() as int)))
}

/// Whether `s` is text that Rust's `f64::from_str` accepts, following its
/// documented grammar: an optional sign, then `inf`, `infinity`, `nan`
/// (in any case) or a decimal number with an optional exponent.
pub open spec fn is_float_text(s: Seq<char>) -> bool {
    let r = strip_sign(s);
    ||| equal_ignoring_case(r, seq!['i', 'n', 'f'], seq!['I', 'N', 'F'])
    ||| equal_ignoring_case(
        r,
        seq!['i', 'n', 'f', 'i', 'n', 'i', 't', 'y'],
        seq!['I', 'N', 'F', 'I', 'N', 'I', 'T', 'Y'],
    )
    ||| equal_ignoring_case(r, seq!['n', 'a', 'n'], seq!['N', 'A', 'N'])
    ||| is_number(r)
}

/// The token a plain word stands for: an integer when `parse_int` reads it
/// (words with two or more `-` are not given to `parse_int`), else a
/// floating point value when the text is one, else a reserved word, else
/// a plain token.
pub open spec fn classify_word(w: Seq<char>) -> TokenV {
    if minus_count(w) < 2 && parse_int_i64(w) is Some {
        TokenV::IntLiteral(parse_int_i64(w)->0)
    } else if is_float_text(w) {
        TokenV::FloatLiteral(w)
    } else if ReservedWord::spec_from_name(w) is Some {
        TokenV::Keyword(ReservedWord::spec_from_name(w)->0)
    } else {
        TokenV::Token(w)
    }
}

fn count_minus(v: &[char]) -> (r: usize)
    ensures
        r == minus_count(v@),
{
    let mut n: usize = 0;
    for i in 0..v.len()
        invariant
            n == minus_count(v@.subrange(0, i as int)),
            n <= i,
    {
        proof {
            assert(v@.subrange(0, i + 1).drop_last() =~= v@.subrange(0, i as int));
        }
        if v[i] == '-' {
            n += 1;
        }
    }
    assert(v@.subrange(0, v@.len() as int) =~= v@);
    n
}

fn ignoring_case_equal(v: &[char], lo: usize, lower: &[char], upper: &[char]) -> (r: bool)
    requires
        lo <= v@.len(),
        lower@.len() == upper@.len(),
    ensures
        r == equal_ignoring_case(v@.subrange(lo as int, v@.len() as int), lower@, upper@),
{
    if v.len() - lo != lower.len() {
        return false;
    }
    let n = v.len();
    let mut i: usize = 0;
    while i < lower.len()
        invariant
            n == v@.len(),
            lo + lower@.len() == n,
            lower@.len() == upper@.len(),
            lo <= v@.len(),
            0 <= i <= lower@.len(),
            forall|j: int| 0 <= j < i ==> (v@[lo + j] == lower@[j] || v@[lo + j] == upper@[j]),
        decreases lower@.len() - i,
    {
        if v[lo + i] != lower[i] && v[lo + i] != upper[i] {
            proof {
                let s = v@.subrange(lo as int, v@.len() as int);
                assert(s[i as int] == v@[lo + i]);
            }
            return false;
        }
        i += 1;
    }
    true
}

proof fn lemma_exponent_start(s: Seq<char>, i: int)
    requires
        0 <= i <= s.len(),
        forall|j: int| 0 <= j < i ==> (s[j] != 'e' && s[j] != 'E'),
    ensures
        i < s.len() && (s[i] == 'e' || s[i] == 'E') ==> exponent_start(s) == i,
        i == s.len() ==> exponent_start(s) == i,
    decreases i,
{
    if i > 0 {
        lemma_exponent_start(s.drop_first(), i - 1);
    }
}

/// Whether `v[lo..hi]` is a mantissa.
fn check_mantissa(v: &[char], lo: usize, hi: usize) -> (r: bool)
    requires
        lo <= hi <= v@.len(),
    ensures
        r == is_mantissa(v@.subrange(lo as int, hi as int)),
{
    let ghost m = v@.subrange(lo as int, hi as int);
    let mut dots: usize = 0;
    let mut digit = false;
    let mut i = lo;
    while i < hi
        invariant
            lo <= i <= hi <= v@.len(),
            m == v@.subrange(lo as int, hi as int),
            forall|j: int| 0 <= j < i - lo ==> (is_digit(#[trigger] m[j]) || m[j] == '.'),
            dots == dot_count(m.subrange(0, i - lo)),
            dots <= 1,
            digit == exists|j: int| 0 <= j < i - lo && is_digit(#[trigger] m[j]),
        decreases hi - i,
    {
        let c = v[i];
        proof {
            assert(m.subrange(0, i - lo + 1).drop_last() =~= m.subrange(0, i - lo));
            assert(m[i - lo] == c);
        }
        if c == '.' {
            if dots == 1 {
                proof {
                    lemma_dot_count_prefix(m, i - lo + 1);
                }
                return false;
            }
            dots += 1;
        } else if '0' <= c && c <= '9' {
            digit = true;
        } else {
            return false;
        }
        i += 1;
    }
    assert(m.subrange(0, m.len() as int) =~= m);
    digit
}

proof fn lemma_dot_count_prefix(s: Seq<char>, n: int)
    requires
        0 <= n <= s.len(),
    ensures
        dot_count(s.subrange(0, n)) <= dot_count(s),
    decreases s.len() - n,
{
    if n < s.len() {
        lemma_dot_count_prefix(s, n + 1);
        assert(s.subrange(0, n + 1).drop_last() =~= s.subrange(0, n));
    } else {
        assert(s.subrange(0, n) =~= s);
    }
}

/// Whether `v[lo..]` is an exponent.
fn check_exponent(v: &[char], lo: usize) -> (r: bool)
    requires
        lo <= v@.len(),
    ensures
        r == is_exponent(v@.subrange(lo as int, v@.len() as int)),
{
    let ghost x = v@.subrange(lo as int, v@.len() as int);
    let mut i = lo;
    if i < v.len() && (v[i] == '+' || v[i] == '-') {
        i += 1;
    }
    proof {
        assert(strip_sign(x) =~= v@.subrange(i as int, v@.len() as int));
    }
    if i == v.len() {
        return false;
    }
    let start = i;
    while i < v.len()
        invariant
            lo <= start <= i <= v@.len(),
            x == v@.subrange(lo as int, v@.len() as int),
            strip_sign(x) == v@.subrange(start as int, v@.len() as int),
            forall|j: int| start <= j < i ==> is_digit(#[trigger] v@[j]),
        decreases v@.len() - i,
    {
        if !('0' <= v[i] && v[i] <= '9') {
            proof {
                let d = v@.subrange(start as int, v@.len() as int);
                assert(d[i - start] == v@[i as int]);
            }
            return false;
        }
        i += 1;
    }
    proof {
        let d = v@.subrange(start as int, v@.len() as int);
        assert forall|j: int| 0 <= j < d.len() implies is_digit(#[trigger] d[j]) by {
            assert(d[j] == v@[start + j]);
        }
    }
    true
}

/// Returns whether `w` is text that `f64::from_str` accepts.
pub fn float_text(w: &[char]) -> (r: bool)
    ensures
        r == is_float_text(w@),
{
    let lo: usize = if w.len() > 0 && (w[0] == '+' || w[0] == '-') { 1 } else { 0 };
    let ghost r = w@.subrange(lo as int, w@.len() as int);
    assert(strip_sign(w@) =~= r);
    if ignoring_case_equal(w, lo, &['i', 'n', 'f'], &['I', 'N', 'F']) {
        assert(seq!['i', 'n', 'f'] =~= (&['i', 'n', 'f'])@);
        return true;
    }
    proof {
        let a: &[char] = &['i', 'n', 'f'];
        let b: &[char] = &['I', 'N', 'F'];
        assert(a@ =~= seq!['i', 'n', 'f']);
        assert(b@ =~= seq!['I', 'N', 'F']);
    }
    let a2: &[char] = &['i', 'n', 'f', 'i', 'n', 'i', 't', 'y'];
    let b2: &[char] = &['I', 'N', 'F', 'I', 'N', 'I', 'T', 'Y'];
    assert(a2@ =~= seq!['i', 'n', 'f', 'i', 'n', 'i', 't', 'y']);
    assert(b2@ =~= seq!['I', 'N', 'F', 'I', 'N', 'I', 'T', 'Y']);
    if ignoring_case_equal(w, lo, a2, b2) {
        return true;
    }
    let a3: &[char] = &['n', 'a', 'n'];
    let b3: &[char] = &['N', 'A', 'N'];
    assert(a3@ =~= seq!['n', 'a', 'n']);
    assert(b3@ =~= seq!['N', 'A', 'N']);
    if ignoring_case_equal(w, lo, a3, b3) {
        return true;
    }
    let mut e = lo;
    while e < w.len() && w[e] != 'e' && w[e] != 'E'
        invariant
            lo <= e <= w@.len(),
            r == w@.subrange(lo as int, w@.len() as int),
            forall|j: int| 0 <= j < e - lo ==> (r[j] != 'e' && r[j] != 'E'),
        decreases w@.len() - e,
    {
        e += 1;
    }
    proof {
        lemma_exponent_start(r, e - lo);
        assert(r.subrange(0, e - lo) =~= w@.subrange(lo as int, e as int));
    }
    if !check_mantissa(w, lo, e) {
        return false;
    }
    if e == w.len() {
        return true;
    }
    proof {
        assert(r.subrange(e - lo + 1, r.len() as int) =~= w@.subrange(e + 1, w@.len() as int));
    }
    check_exponent(w, e + 1)
}

/// Returns the token that the plain word `w` stands for.
/// The token a plain word `w` stands for, given what `parse_int` read from
/// it (`None` where it read no integer or was not asked): that integer,
/// else a floating point value when the text is one, else a reserved word,
/// else a plain token.
pub open spec fn classify_parsed(w: Seq<char>, parsed: Option<i64>) -> TokenV {
    match parsed {
        Some(v) => TokenV::IntLiteral(v),
        None => if is_float_text(w) {
            TokenV::FloatLiteral(w)
        } else if ReservedWord::spec_from_name(w) is Some {
            TokenV::Keyword(ReservedWord::spec_from_name(w)->0)
        } else {
            TokenV::Token(w)
        },
    }
}

/// Returns the token the plain word `w` stands for, given what `parse_int`
/// read from it.
pub fn classify_parsed_word(w: &[char], parsed: Option<i64>) -> (r: Token)
    ensures
        r@ == classify_parsed(w@, parsed),
{
    if let Some(v) = parsed {
        return Token::IntLiteral(v);
    }
    let text = string_of(w);
    if float_text(w) {
        return Token::FloatLiteral(text);
    }
    if let Some(k) = ReservedWord::from_name(text.as_str()) {
        return Token::Keyword(k);
    }
    Token::Token(text)
}

fn classify(w: &[char]) -> (r: Token)
    ensures
        r@ == classify_word(w@),
{
    let parsed = if count_minus(w) < 2 {
        let text = string_of(w);
        parse_int_call(text.as_str())
    } else {
        None
    };
    classify_parsed_word(w, parsed)
}


// ---------------------------------------------------------------------
// Lines.

/// Whether `c` ends a plain word: a special atom, or the `;` that begins
/// a comment.
pub open spec fn ends_word(c: char) -> bool {
    spec_is_special_atom(c) || c == ATOM_COMMENT
}

/// The index of the first character at or after `i` that ends a plain word,
/// or the length of `l`.
pub open spec fn word_end(l: Seq<char>, i: int) -> int
    decreases l.len() - i,
{
    if i >= l.len() {
        i
    } else if ends_word(l[i]) {
        i
    } else {
        word_end(l, i + 1)
    }
}

/// The index of the first `"` at or after `i`, if any.
pub open spec fn quote_end(l: Seq<char>, i: int) -> Option<int>
    decreases l.len() - i,
{
    if i >= l.len() {
        None
    } else if l[i] == '"' {
        Some(i)
    } else {
        quote_end(l, i + 1)
    }
}

pub proof fn lemma_word_end_bound(l: Seq<char>, i: int)
    ensures
        word_end(l, i) >= i,
        i <= l.len() ==> word_end(l, i) <= l.len(),
    decreases l.len() - i,
{
    if i < l.len() && !ends_word(l[i]) {
        lemma_word_end_bound(l, i + 1);
    }
}

pub proof fn lemma_quote_end_bound(l: Seq<char>, i: int)
    ensures
        quote_end(l, i) matches Some(j) ==> i <= j < l.len() && l[j] == '"',
    decreases l.len() - i,
{
    if i < l.len() && l[i] != '"' {
        lemma_quote_end_bound(l, i + 1);
    }
}

proof fn lemma_word_end(l: Seq<char>, s: int, k: int)
    requires
        0 <= s <= k <= l.len(),
        forall|j: int| s <= j < k ==> !ends_word(#[trigger] l[j]),
        k == l.len() || ends_word(l[k]),
    ensures
        word_end(l, s) == k,
    decreases k - s,
{
    if s < k {
        lemma_word_end(l, s + 1, k);
    }
}

proof fn lemma_quote_end(l: Seq<char>, s: int, k: int)
    requires
        0 <= s <= k <= l.len(),
        forall|j: int| s <= j < k ==> #[trigger] l[j] != '"',
    ensures
        k < l.len() && l[k] == '"' ==> quote_end(l, s) == Some(k),
        k == l.len() ==> quote_end(l, s) is None,
    decreases k - s,
{
    if s < k {
        lemma_quote_end(l, s + 1, k);
    }
}

/// Tokenizes the rest of line `l` from character index `i`, after the
/// tokens `acc`.
pub open spec fn lex(l: Seq<char>, i: int, acc: Seq<TokenV>) -> Result<Seq<TokenV>, ParseErrorV>
    decreases l.len() - i,
{
    if i < 0 || i >= l.len() {
        Ok(acc)
    } else {
        let c = l[i];
        if c == ATOM_COMMENT {
            Ok(acc)
        } else if c == ATOM_WHITESPACE || c == '\t' {
            lex(l, i + 1, acc.push(TokenV::Whitespace))
        } else if c == ATOM_SEPARATOR {
            lex(l, i + 1, acc.push(TokenV::Separator))
        } else if c == ATOM_COLON {
            if i + 1 < l.len() && l[i + 1] == ATOM_COLON {
                lex(l, i + 2, acc.push(TokenV::NamespaceSeparator))
            } else {
                lex(l, i + 1, acc.push(TokenV::Colon))
            }
        } else if c == ATOM_PLUS {
            lex(l, i + 1, acc.push(TokenV::Offset))
        } else if c == ATOM_DEREF {
            lex(l, i + 1, acc.push(TokenV::Deref))
        } else if c == ATOM_HASHTAG {
            lex(l, i + 1, acc.push(TokenV::Hashtag))
        } else if c == ATOM_AT {
            lex(l, i + 1, acc.push(TokenV::Annotation))
        } else if c == ATOM_QUOTE {
            proof {
                lemma_quote_end_bound(l, i + 1);
            }
            match quote_end(l, i + 1) {
                Some(j) => lex(l, j + 1, acc.push(TokenV::QuotedString(l.subrange(i + 1, j)))),
                None => Err(ParseErrorV::UnterminatedQuote),
            }
        } else {
            proof {
                lemma_word_end_bound(l, i + 1);
            }
            let k = word_end(l, i + 1);
            lex(l, k, acc.push(classify_word(l.subrange(i, k))))
        }
    }
}

proof fn lemma_word_end_before_comment(l: Seq<char>, x: Seq<char>, j: int)
    requires
        0 <= j <= l.len(),
    ensures
        word_end(l + seq![ATOM_COMMENT] + x, j) == word_end(l, j),
        word_end(l, j) <= l.len(),
    decreases l.len() - j,
{
    let big = l + seq![ATOM_COMMENT] + x;
    assert(big[l.len() as int] == ATOM_COMMENT);
    if j < l.len() {
        assert(big[j] == l[j]);
        if !ends_word(l[j]) {
            lemma_word_end_before_comment(l, x, j + 1);
        }
    }
}

proof fn lemma_quote_end_before_comment(l: Seq<char>, x: Seq<char>, j: int)
    requires
        0 <= j <= l.len(),
        quote_end(l, j) is Some,
    ensures
        quote_end(l + seq![ATOM_COMMENT] + x, j) == quote_end(l, j),
    decreases l.len() - j,
{
    let big = l + seq![ATOM_COMMENT] + x;
    if j < l.len() {
        assert(big[j] == l[j]);
        if l[j] != '"' {
            lemma_quote_end_before_comment(l, x, j + 1);
        }
    }
}

proof fn lemma_lex_before_comment(l: Seq<char>, x: Seq<char>, i: int, acc: Seq<TokenV>)
    requires
        0 <= i <= l.len(),
        lex(l, i, acc) is Ok,
    ensures
        lex(l + seq![ATOM_COMMENT] + x, i, acc) == lex(l, i, acc),
    decreases l.len() - i,
{
    let big = l + seq![ATOM_COMMENT] + x;
    assert(big[l.len() as int] == ATOM_COMMENT);
    if i < l.len() {
        let c = l[i];
        assert(big[i] == c);
        if c == ATOM_COMMENT {
        } else if c == ATOM_WHITESPACE || c == '\t' || c == ATOM_SEPARATOR || c == ATOM_PLUS || c == ATOM_DEREF
            || c == ATOM_HASHTAG || c == ATOM_AT {
            lemma_lex_before_comment(l, x, i + 1, acc.push(
                if c == ATOM_WHITESPACE || c == '\t' {
                    TokenV::Whitespace
                } else if c == ATOM_SEPARATOR {
                    TokenV::Separator
                } else if c == ATOM_PLUS {
                    TokenV::Offset
                } else if c == ATOM_DEREF {
                    TokenV::Deref
                } else if c == ATOM_HASHTAG {
                    TokenV::Hashtag
                } else {
                    TokenV::Annotation
                },
            ));
        } else if c == ATOM_COLON {
            if i + 1 < l.len() && l[i + 1] == ATOM_COLON {
                assert(big[i + 1] == ATOM_COLON);
                lemma_lex_before_comment(l, x, i + 2, acc.push(TokenV::NamespaceSeparator));
            } else {
                assert(big[i + 1] == if i + 1 < l.len() { l[i + 1] } else { ATOM_COMMENT });
                lemma_lex_before_comment(l, x, i + 1, acc.push(TokenV::Colon));
            }
        } else if c == ATOM_QUOTE {
            lemma_quote_end_bound(l, i + 1);
            lemma_quote_end_before_comment(l, x, i + 1);
            let q = quote_end(l, i + 1)->0;
            assert(big.subrange(i + 1, q) =~= l.subrange(i + 1, q));
            lemma_lex_before_comment(l, x, q + 1, acc.push(TokenV::QuotedString(l.subrange(i + 1, q))));
        } else {
            lemma_word_end_before_comment(l, x, i + 1);
            lemma_word_end_bound(l, i + 1);
            let w = word_end(l, i + 1);
            assert(big.subrange(i, w) =~= l.subrange(i, w));
            lemma_lex_before_comment(l, x, w, acc.push(classify_word(l.subrange(i, w))));
        }
    }
}

/// A comment never changes how a line is tokenized: whatever text `x`
/// follows a `;` appended to a line that tokenizes (so that the `;` stands
/// outside any quoted text), the line tokenizes as it does without them.
pub proof fn lemma_comment_ends_line(l: Seq<char>, x: Seq<char>)
    requires
        spec_tokenize_line(l) is Ok,
    ensures
        spec_tokenize_line(l + seq![ATOM_COMMENT] + x) == spec_tokenize_line(l),
{
    lemma_lex_before_comment(l, x, 0, Seq::empty());
}

/// A line that cannot be tokenized holds an unterminated quote: that is the
/// tokenizer's only error.
pub proof fn lemma_tokenize_error_is_unterminated_quote(l: Seq<char>)
    ensures
        spec_tokenize_line(l) is Err ==> spec_tokenize_line(l) == Err::<Seq<TokenV>, ParseErrorV>(ParseErrorV::UnterminatedQuote),
{
    lemma_lex_errors(l, 0, Seq::empty());
}

proof fn lemma_lex_errors(l: Seq<char>, i: int, acc: Seq<TokenV>)
    ensures
        lex(l, i, acc) is Err ==> lex(l, i, acc) == Err::<Seq<TokenV>, ParseErrorV>(ParseErrorV::UnterminatedQuote),
    decreases l.len() - i,
{
    if 0 <= i < l.len() {
        let c = l[i];
        if c == ATOM_COMMENT {
        } else if c == ATOM_WHITESPACE || c == '\t' || c == ATOM_SEPARATOR || c == ATOM_PLUS || c == ATOM_DEREF
            || c == ATOM_HASHTAG || c == ATOM_AT {
            lemma_lex_errors(l, i + 1, acc.push(
                if c == ATOM_WHITESPACE || c == '\t' {
                    TokenV::Whitespace
                } else if c == ATOM_SEPARATOR {
                    TokenV::Separator
                } else if c == ATOM_PLUS {
                    TokenV::Offset
                } else if c == ATOM_DEREF {
                    TokenV::Deref
                } else if c == ATOM_HASHTAG {
                    TokenV::Hashtag
                } else {
                    TokenV::Annotation
                },
            ));
        } else if c == ATOM_COLON {
            if i + 1 < l.len() && l[i + 1] == ATOM_COLON {
                lemma_lex_errors(l, i + 2, acc.push(TokenV::NamespaceSeparator));
            } else {
                lemma_lex_errors(l, i + 1, acc.push(TokenV::Colon));
            }
        } else if c == ATOM_QUOTE {
            lemma_quote_end_bound(l, i + 1);
            match quote_end(l, i + 1) {
                Some(q) => lemma_lex_errors(l, q + 1, acc.push(TokenV::QuotedString(l.subrange(i + 1, q)))),
                None => {},
            }
        } else {
            lemma_word_end_bound(l, i + 1);
            let w = word_end(l, i + 1);
            lemma_lex_errors(l, w, acc.push(classify_word(l.subrange(i, w))));
        }
    }
}

/// `t` without its trailing whitespace tokens.
pub open spec fn trim_trailing_whitespace(t: Seq<TokenV>) -> Seq<TokenV>
    decreases t.len(),
{
    if t.len() > 0 && t.last() is Whitespace {
        trim_trailing_whitespace(t.drop_last())
    } else {
        t
    }
}

/// The tokens of line `l`, or why it cannot be tokenized.
pub open spec fn spec_tokenize_line(l: Seq<char>) -> Result<Seq<TokenV>, ParseErrorV> {
    match lex(l, 0, Seq::empty()) {
        Ok(t) => Ok(trim_trailing_whitespace(t)),
        Err(e) => Err(e),
    }
}

/// Tokenizes one line of source text. Tokenization stops at the first `;`
/// outside a quoted text, wherever it stands (the rest is a comment); spaces and tabs become whitespace tokens, `::` the
/// namespace separator, the atoms `,` `:` `+` `&` `#` `@` their tokens, a
/// quoted text a string token, and any other word is read as an integer,
/// a floating point value, a reserved word or a plain token. Trailing
/// whitespace tokens are dropped. Fails on an unterminated quote.
pub fn tokenize_line(line: &str) -> (r: Result<Vec<Token>, ParseError>)
    ensures
        match r {
            Ok(t) => spec_tokenize_line(line@) == Ok::<_, ParseErrorV>(tokens_view(t@)),
            Err(e) => spec_tokenize_line(line@) == Err::<Seq<TokenV>, _>(e@),
        },
{
    let v = chars_of(line);
    let n = v.len();
    let mut ret: Vec<Token> = Vec::new();
    let mut i: usize = 0;
    assert(v@.subrange(0, 0) =~= Seq::<char>::empty());
    assert(tokens_view(ret@) =~= Seq::<TokenV>::empty());
    while i < n
        invariant
            n == v@.len(),
            v@ == line@,
            i <= n,
            lex(v@, 0, Seq::empty()) == lex(v@, i as int, tokens_view(ret@)),
        ensures
            lex(v@, 0, Seq::empty()) == Ok::<_, ParseErrorV>(tokens_view(ret@)),
        decreases n - i,
    {
        let ghost acc = tokens_view(ret@);
        let c = v[i];
        if c == ATOM_COMMENT {
            break;
        }
        let single: Option<Token> = if c == ATOM_WHITESPACE || c == '\t' {
            Some(Token::Whitespace)
        } else if c == ATOM_SEPARATOR {
            Some(Token::Separator)
        } else if c == ATOM_PLUS {
            Some(Token::Offset)
        } else if c == ATOM_DEREF {
            Some(Token::Deref)
        } else if c == ATOM_HASHTAG {
            Some(Token::Hashtag)
        } else if c == ATOM_AT {
            Some(Token::Annotation)
        } else {
            None
        };
        if let Some(t) = single {
            ret.push(t);
            proof {
                assert(tokens_view(ret@) =~= acc.push(t@));
            }
            i += 1;
        } else if c == ATOM_COLON {
            if i + 1 < n && v[i + 1] == ATOM_COLON {
                ret.push(Token::NamespaceSeparator);
                proof {
                    assert(tokens_view(ret@) =~= acc.push(TokenV::NamespaceSeparator));
                }
                i += 2;
            } else {
                ret.push(Token::Colon);
                proof {
                    assert(tokens_view(ret@) =~= acc.push(TokenV::Colon));
                }
                i += 1;
            }
        } else if c == ATOM_QUOTE {
            let mut j = i + 1;
            while j < n && v[j] != ATOM_QUOTE
                invariant
                    n == v@.len(),
                    i < j <= n,
                    forall|k: int| i + 1 <= k < j ==> #[trigger] v@[k] != '"',
                decreases n - j,
            {
                j += 1;
            }
            proof {
                lemma_quote_end(v@, i + 1, j as int);
            }
            if j == n {
                return Err(ParseError::UnterminatedQuote);
            }
            let text = string_of_range(v.as_slice(), i + 1, j);
            ret.push(Token::QuotedString(text));
            proof {
                assert(tokens_view(ret@) =~= acc.push(TokenV::QuotedString(v@.subrange(i + 1, j as int))));
            }
            i = j + 1;
        } else {
            let mut k = i + 1;
            while k < n && !is_special_atom(v[k], false) && v[k] != ATOM_COMMENT
                invariant
                    n == v@.len(),
                    i < k <= n,
                    forall|j: int| i + 1 <= j < k ==> !ends_word(#[trigger] v@[j]),
                decreases n - k,
            {
                k += 1;
            }
            proof {
                lemma_word_end(v@, i + 1, k as int);
            }
            let word = vstd::slice::slice_subrange(v.as_slice(), i, k);
            let t = classify(word);
            ret.push(t);
            proof {
                assert(tokens_view(ret@) =~= acc.push(classify_word(v@.subrange(i as int, k as int))));
            }
            i = k;
        }
    }
    let ghost full = tokens_view(ret@);
    while ret.len() > 0 && ret[ret.len() - 1].is_whitespace()
        invariant
            trim_trailing_whitespace(full) == trim_trailing_whitespace(tokens_view(ret@)),
        decreases ret@.len(),
    {
        let ghost before = tokens_view(ret@);
        ret.pop();
        proof {
            assert(tokens_view(ret@) =~= before.drop_last());
        }
    }
    Ok(ret)
}


// ---------------------------------------------------------------------
// Token streams.

/// `s` without its leading whitespace tokens.
pub open spec fn drop_whitespace(s: Seq<TokenV>) -> Seq<TokenV>
    decreases s.len(),
{
    if s.len() > 0 && s[0] is Whitespace {
        drop_whitespace(s.drop_first())
    } else {
        s
    }
}

pub proof fn lemma_drop_whitespace(s: Seq<TokenV>)
    ensures
        drop_whitespace(s).len() <= s.len(),
        drop_whitespace(s).len() > 0 ==> !(drop_whitespace(s)[0] is Whitespace),
        drop_whitespace(s) == s.subrange(s.len() - drop_whitespace(s).len(), s.len() as int),
    decreases s.len(),
{
    if s.len() > 0 && s[0] is Whitespace {
        lemma_drop_whitespace(s.drop_first());
        let d = drop_whitespace(s.drop_first());
        assert(s.drop_first().subrange(s.len() - 1 - d.len(), s.len() - 1) =~= s.subrange(
            s.len() - d.len(),
            s.len() as int,
        ));
    } else {
        assert(s.subrange(0, s.len() as int) =~= s);
    }
}

/// Formats the message of an unexpected-token error naming the expected
/// and the found token, with `format!` and the tokens' `Debug` forms.
#[verifier::external_body]
pub(crate) fn expected_found_message(expected: &Token, found: &Token) -> String {
    format!("Expected {:?}, found {:?}", expected, found)
}

/// A stream of tokens that the parser consumes from the front.
#[derive(Debug)]
pub struct TokenStream {
    tokens: VecDeque<Token>,
    /// The number of tokens consumed so far.
    pub cur: usize,
}

impl TokenStream {
    /// The number of tokens consumed so far.
    pub closed spec fn position(&self) -> nat {
        self.cur as nat
    }

    /// The tokens not consumed yet.
    pub closed spec fn rest(&self) -> Seq<TokenV> {
        tokens_view(self.tokens@)
    }

    /// The stream's counter and the tokens left can still be counted in a `usize`.
    pub closed spec fn wf(&self) -> bool {
        self.cur + self.tokens@.len() <= usize::MAX
    }

    /// A stream over a copy of `tokens`.
    pub fn new(tokens: &[Token]) -> (r: Self)
        ensures
            r.rest() == tokens_view(tokens@),
            r.position() == 0,
            r.wf(),
    {
        let mut d: VecDeque<Token> = VecDeque::new();
        for i in 0..tokens.len()
            invariant
                d@.len() == i,
                forall|j: int| 0 <= j < i ==> #[trigger] d@[j]@ == tokens@[j]@,
        {
            d.push_back(tokens[i].duplicate());
        }
        assert(tokens_view(d@) =~= tokens_view(tokens@));
        TokenStream { tokens: d, cur: 0 }
    }

    /// Returns the next token without consuming it.
    pub fn peek(&self) -> (r: Option<&Token>)
        ensures
            match r {
                Some(t) => self.rest().len() > 0 && t@ == self.rest()[0],
                None => self.rest().len() == 0,
            },
    {
        if self.tokens.len() > 0 {
            Some(&self.tokens[0])
        } else {
            None
        }
    }

    /// Returns the token `n` places ahead without consuming anything.
    pub fn peek_n(&self, n: usize) -> (r: Option<&Token>)
        ensures
            match r {
                Some(t) => n < self.rest().len() && t@ == self.rest()[n as int],
                None => n >= self.rest().len(),
            },
    {
        if n < self.tokens.len() {
            Some(&self.tokens[n])
        } else {
            None
        }
    }

    /// Returns the next token that is not whitespace, consuming nothing.
    pub fn peek_non_whitespace(&self) -> (r: Option<&Token>)
        ensures
            match r {
                Some(t) => drop_whitespace(self.rest()).len() > 0 && t@ == drop_whitespace(self.rest())[0],
                None => drop_whitespace(self.rest()).len() == 0,
            },
    {
        let mut i: usize = 0;
        assert(self.rest().subrange(0, self.rest().len() as int) =~= self.rest());
        while i < self.tokens.len() && self.tokens[i].is_whitespace()
            invariant
                0 <= i <= self.rest().len(),
                self.tokens@.len() == self.rest().len(),
                drop_whitespace(self.rest()) == drop_whitespace(self.rest().subrange(i as int, self.rest().len() as int)),
            decreases self.rest().len() - i,
        {
            proof {
                let t = self.rest().subrange(i as int, self.rest().len() as int);
                assert(t.drop_first() =~= self.rest().subrange(i + 1, self.rest().len() as int));
            }
            i += 1;
        }
        if i < self.tokens.len() {
            Some(&self.tokens[i])
        } else {
            None
        }
    }

    /// Consumes and returns the next token.
    pub fn next(&mut self) -> (r: Option<Token>)
        requires
            old(self).wf(),
        ensures
            final(self).wf(),
            match r {
                Some(t) => {
                    &&& old(self).rest().len() > 0
                    &&& t@ == old(self).rest()[0]
                    &&& final(self).rest() == old(self).rest().drop_first()
                    &&& final(self).position() == old(self).position() + 1
                },
                None => {
                    &&& old(self).rest().len() == 0
                    &&& final(self).rest() == old(self).rest()
                    &&& final(self).position() == old(self).position()
                },
            },
    {
        let ghost before = self.tokens@;
        let token = self.tokens.pop_front();
        if token.is_some() {
            self.cur += 1;
        }
        proof {
            if token.is_some() {
                assert(tokens_view(self.tokens@) =~= tokens_view(before).drop_first());
            }
        }
        token
    }

    /// Consumes and returns the next token; fails with `UnexpectedEOL` when
    /// none is left.
    pub fn next_or_err(&mut self) -> (r: Result<Token, ParseError>)
        requires
            old(self).wf(),
        ensures
            final(self).wf(),
            match r {
                Ok(t) => {
                    &&& old(self).rest().len() > 0
                    &&& t@ == old(self).rest()[0]
                    &&& final(self).rest() == old(self).rest().drop_first()
                    &&& final(self).position() == old(self).position() + 1
                },
                Err(e) => {
                    &&& old(self).rest().len() == 0
                    &&& e@ == ParseErrorV::UnexpectedEOL
                    &&& final(self).rest() == old(self).rest()
                    &&& final(self).position() == old(self).position()
                },
            },
    {
        match self.next() {
            Some(t) => Ok(t),
            None => Err(ParseError::UnexpectedEOL),
        }
    }

    /// Consumes whitespace and then the next token, which it returns.
    pub fn next_non_whitespace(&mut self) -> (r: Option<Token>)
        requires
            old(self).wf(),
        ensures
            final(self).wf(),
            final(self).position() + final(self).rest().len() == old(self).position() + old(self).rest().len(),
            match r {
                Some(t) => {
                    &&& drop_whitespace(old(self).rest()).len() > 0
                    &&& t@ == drop_whitespace(old(self).rest())[0]
                    &&& final(self).rest() == drop_whitespace(old(self).rest()).drop_first()
                },
                None => {
                    &&& drop_whitespace(old(self).rest()).len() == 0
                    &&& final(self).rest().len() == 0
                },
            },
    {
        loop
            invariant
                self.wf(),
                self.position() + self.rest().len() == old(self).position() + old(self).rest().len(),
                drop_whitespace(old(self).rest()) == drop_whitespace(self.rest()),
            decreases self.rest().len(),
        {
            let ghost before = self.rest();
            match self.next() {
                Some(token) => {
                    if !token.is_whitespace() {
                        return Some(token);
                    }
                },
                None => {
                    return None;
                },
            }
        }
    }

    /// Consumes whitespace and then the next token, which it returns; fails
    /// with `UnexpectedEOL` when no such token is left.
    pub fn next_non_whitespace_or_err(&mut self) -> (r: Result<Token, ParseError>)
        requires
            old(self).wf(),
        ensures
            final(self).wf(),
            final(self).position() + final(self).rest().len() == old(self).position() + old(self).rest().len(),
            match r {
                Ok(t) => {
                    &&& drop_whitespace(old(self).rest()).len() > 0
                    &&& t@ == drop_whitespace(old(self).rest())[0]
                    &&& final(self).rest() == drop_whitespace(old(self).rest()).drop_first()
                },
                Err(e) => {
                    &&& drop_whitespace(old(self).rest()).len() == 0
                    &&& e@ == ParseErrorV::UnexpectedEOL
                    &&& final(self).rest().len() == 0
                },
            },
    {
        match self.next_non_whitespace() {
            Some(t) => Ok(t),
            None => Err(ParseError::UnexpectedEOL),
        }
    }

    /// Consumes the next token and checks that it equals `expected`; fails
    /// with `UnexpectedEOL` when none is left and `UnexpectedToken` when it differs.
    pub fn expect(&mut self, expected: Token) -> (r: Result<(), ParseError>)
        requires
            old(self).wf(),
        ensures
            final(self).wf(),
            final(self).position() + final(self).rest().len() == old(self).position() + old(self).rest().len(),
            final(self).rest() == if old(self).rest().len() > 0 { old(self).rest().drop_first() } else { old(self).rest() },
            match r {
                Ok(()) => old(self).rest().len() > 0 && old(self).rest()[0] == expected@,
                Err(e) => if old(self).rest().len() == 0 {
                    e@ == ParseErrorV::UnexpectedEOL
                } else {
                    old(self).rest()[0] != expected@ && e@ == ParseErrorV::UnexpectedToken
                },
            },
    {
        let token = self.next_or_err()?;
        if !token.same_as(&expected) {
            return Err(ParseError::UnexpectedToken(expected_found_message(&expected, &token)));
        }
        Ok(())
    }

    /// Consumes whitespace and the next token, and checks that it equals
    /// `expected`; fails with `UnexpectedEOL` when no such token is left and
    /// `UnexpectedToken` when it differs.
    pub fn expect_non_whitespace(&mut self, expected: Token) -> (r: Result<(), ParseError>)
        requires
            old(self).wf(),
        ensures
            final(self).wf(),
            final(self).position() + final(self).rest().len() == old(self).position() + old(self).rest().len(),
            final(self).rest() == if drop_whitespace(old(self).rest()).len() > 0 {
                drop_whitespace(old(self).rest()).drop_first()
            } else {
                Seq::empty()
            },
            match r {
                Ok(()) => drop_whitespace(old(self).rest()).len() > 0 && drop_whitespace(old(self).rest())[0] == expected@,
                Err(e) => if drop_whitespace(old(self).rest()).len() == 0 {
                    e@ == ParseErrorV::UnexpectedEOL
                } else {
                    drop_whitespace(old(self).rest())[0] != expected@ && e@ == ParseErrorV::UnexpectedToken
                },
            },
    {
        let token = self.next_non_whitespace_or_err()?;
        if !token.same_as(&expected) {
            return Err(ParseError::UnexpectedToken(expected_found_message(&expected, &token)));
        }
        Ok(())
    }

    /// Consumes the whitespace tokens at the front of the stream.
    pub fn skip_whitespace(&mut self)
        requires
            old(self).wf(),
        ensures
            final(self).wf(),
            final(self).position() + final(self).rest().len() == old(self).position() + old(self).rest().len(),
            final(self).rest() == drop_whitespace(old(self).rest()),
    {
        loop
            invariant
                self.wf(),
                self.position() + self.rest().len() == old(self).position() + old(self).rest().len(),
                drop_whitespace(old(self).rest()) == drop_whitespace(self.rest()),
            decreases self.rest().len(),
        {
            let is_ws = match self.peek() {
                Some(t) => t.is_whitespace(),
                None => false,
            };
            if !is_ws {
                return;
            }
            self.next();
        }
    }

    /// Returns whether tokens remain.
    pub fn has_more(&self) -> (r: bool)
        ensures
            r == (self.rest().len() > 0),
    {
        self.tokens.len() > 0
    }
}


impl TokenV {
    /// The written form of the token.
    pub open spec fn text(self) -> Seq<char> {
        match self {
            TokenV::Whitespace => seq![' '],
            TokenV::Separator => seq![','],
            TokenV::Colon => seq![':'],
            TokenV::Offset => seq!['+'],
            TokenV::Deref => seq!['&'],
            TokenV::Hashtag => seq!['#'],
            TokenV::Annotation => seq!['@'],
            TokenV::NamespaceSeparator => seq![':', ':'],
            TokenV::IntLiteral(v) => crate::text::decimal_text(v as int),
            TokenV::FloatLiteral(t) => t,
            TokenV::QuotedString(s) => seq!['"'] + s + seq!['"'],
            TokenV::Keyword(w) => w.spec_name(),
            TokenV::Token(s) => s,
        }
    }
}

impl Token {
    /// Returns the written form of the token; a floating point literal is
    /// written as the text it was read from.
    pub fn to_string(&self) -> (r: String)
        ensures
            r@ == self@.text(),
    {
        let mut out: Vec<char> = Vec::new();
        match self {
            Token::Whitespace => out.push(' '),
            Token::Separator => out.push(','),
            Token::Colon => out.push(':'),
            Token::Offset => out.push('+'),
            Token::Deref => out.push('&'),
            Token::Hashtag => out.push('#'),
            Token::Annotation => out.push('@'),
            Token::NamespaceSeparator => {
                out.push(':');
                out.push(':');
            },
            Token::IntLiteral(v) => crate::text::push_str(&mut out, crate::text::int_text(*v).as_str()),
            Token::FloatLiteral(t) => crate::text::push_str(&mut out, t.as_str()),
            Token::QuotedString(q) => {
                out.push('"');
                crate::text::push_str(&mut out, q.as_str());
                out.push('"');
            },
            Token::Keyword(w) => crate::text::push_str(&mut out, w.name().as_str()),
            Token::Token(t) => crate::text::push_str(&mut out, t.as_str()),
        }
        assert(out@ =~= self@.text());
        string_of(out.as_slice())
    }
}

} // verus!
