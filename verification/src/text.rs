//! Character-level helpers shared by the lexer and parser.
use vstd::prelude::*;

verus! {

/// Collects the characters of `s` in order.
pub fn chars_of(s: &str) -> (v: Vec<char>)
    ensures
        v@ == s@,
{
    let mut v: Vec<char> = Vec::new();
    for c in it: s.chars()
        invariant
            v@ == it.seq().take(it.index() as int),
            it.seq() == s@,
    {
        v.push(c);
    }
    v
}

/// Builds a `String` holding exactly the given characters.
///
/// Calls `FromIterator<char>` for `String`, whose documented result is the
/// concatenation of the characters in order.
#[verifier::external_body]
pub(crate) fn string_of(v: &[char]) -> (s: String)
    ensures
        s@ == v@,
{
    v.iter().collect()
}

/// Builds a `String` from the characters of `v` in `lo..hi`.
pub fn string_of_range(v: &[char], lo: usize, hi: usize) -> (s: String)
    requires
        lo <= hi <= v@.len(),
    ensures
        s@ == v@.subrange(lo as int, hi as int),
{
    string_of(vstd::slice::slice_subrange(v, lo, hi))
}

/// Compares two character slices element by element.
pub fn same_chars(a: &[char], b: &[char]) -> (r: bool)
    ensures
        r == (a@ == b@),
{
    if a.len() != b.len() {
        return false;
    }
    let mut i: usize = 0;
    while i < a.len()
        invariant
            a@.len() == b@.len(),
            0 <= i <= a@.len(),
            forall|j: int| 0 <= j < i ==> a@[j] == b@[j],
        decreases a@.len() - i,
    {
        if a[i] != b[i] {
            return false;
        }
        i += 1;
    }
    assert(a@ =~= b@);
    true
}


/// The decimal digit character for `d`.
pub open spec fn digit_char(d: int) -> char {
    if d == 0 { '0' } else if d == 1 { '1' } else if d == 2 { '2' } else if d == 3 { '3' }
    else if d == 4 { '4' } else if d == 5 { '5' } else if d == 6 { '6' } else if d == 7 { '7' }
    else if d == 8 { '8' } else { '9' }
}

/// The decimal digits of `n`, most significant first, without leading zeros.
pub open spec fn decimal_digits(n: nat) -> Seq<char>
    decreases n,
{
    if n < 10 {
        seq![digit_char(n as int)]
    } else {
        decimal_digits(n / 10).push(digit_char((n % 10) as int))
    }
}

/// The decimal text of an integer, with a leading `-` when it is negative.
pub open spec fn decimal_text(v: int) -> Seq<char> {
    if v < 0 {
        seq!['-'] + decimal_digits((-v) as nat)
    } else {
        decimal_digits(v as nat)
    }
}

fn digit_of(d: u64) -> (c: char)
    requires
        d < 10,
    ensures
        c == digit_char(d as int),
{
    if d == 0 { '0' } else if d == 1 { '1' } else if d == 2 { '2' } else if d == 3 { '3' }
    else if d == 4 { '4' } else if d == 5 { '5' } else if d == 6 { '6' } else if d == 7 { '7' }
    else if d == 8 { '8' } else { '9' }
}

/// The decimal digits of `n`.
fn digits_u64(n: u64) -> (out: Vec<char>)
    ensures
        out@ == decimal_digits(n as nat),
{
    let mut n = n;
    let ghost n0: nat = n as nat;
    let mut rev: Vec<char> = Vec::new();
    while n >= 10
        invariant
            decimal_digits(n0) =~= decimal_digits(n as nat) + rev@.reverse(),
        decreases n,
    {
        let d = n % 10;
        let c = digit_of(d);
        proof {
            assert(decimal_digits(n as nat) == decimal_digits((n / 10) as nat).push(c));
            assert(rev@.push(c).reverse() =~= seq![c] + rev@.reverse());
        }
        rev.push(c);
        n = n / 10;
    }
    let mut out: Vec<char> = Vec::new();
    out.push(digit_of(n));
    let mut i = rev.len();
    while i > 0
        invariant
            i <= rev@.len(),
            out@ =~= seq![digit_char(n as int)] + rev@.subrange(i as int, rev@.len() as int).reverse(),
        decreases i,
    {
        i -= 1;
        proof {
            assert(rev@.subrange(i as int, rev@.len() as int).reverse() =~= rev@.subrange(
                (i + 1) as int,
                rev@.len() as int,
            ).reverse().push(rev@[i as int]));
        }
        out.push(rev[i]);
    }
    proof {
        assert(rev@.subrange(0, rev@.len() as int) =~= rev@);
        assert(decimal_digits(n as nat) == seq![digit_char(n as int)]);
    }
    out
}

/// Writes `v` in decimal, as `u64`'s `Display` does.
pub fn unsigned_text(v: u64) -> (s: String)
    ensures
        s@ == decimal_digits(v as nat),
{
    string_of(digits_u64(v).as_slice())
}

/// Writes `v` in decimal, as `i64`'s `Display` does.
pub fn int_text(v: i64) -> (s: String)
    ensures
        s@ == decimal_text(v as int),
{
    let neg = v < 0;
    let n: u64 = if neg { (0u64).wrapping_sub(v as u64) } else { v as u64 };
    proof {
        if neg {
            assert(n == -(v as int)) by (bit_vector)
                requires v < 0, n == (0u64).wrapping_sub(v as u64);
        }
    }
    let digits = digits_u64(n);
    if neg {
        let mut out: Vec<char> = Vec::new();
        out.push('-');
        for i in 0..digits.len()
            invariant
                out@ == seq!['-'] + digits@.subrange(0, i as int),
        {
            out.push(digits[i]);
            assert(digits@.subrange(0, i + 1) =~= digits@.subrange(0, i as int).push(digits@[i as int]));
            assert(out@ =~= seq!['-'] + digits@.subrange(0, i + 1));
        }
        assert(digits@.subrange(0, digits@.len() as int) =~= digits@);
        string_of(out.as_slice())
    } else {
        string_of(digits.as_slice())
    }
}


/// Appends the characters of `s`.
pub fn push_str(out: &mut Vec<char>, s: &str)
    ensures
        final(out)@ == old(out)@ + s@,
{
    let v = chars_of(s);
    push_chars(out, v.as_slice());
}

/// Appends the characters `s`.
pub fn push_chars(out: &mut Vec<char>, s: &[char])
    ensures
        final(out)@ == old(out)@ + s@,
{
    for i in 0..s.len()
        invariant
            out@ == old(out)@ + s@.subrange(0, i as int),
    {
        out.push(s[i]);
        assert(old(out)@ + s@.subrange(0, i + 1) =~= (old(out)@ + s@.subrange(0, i as int)).push(s@[i as int]));
    }
    assert(s@.subrange(0, s@.len() as int) =~= s@);
}

/// The lowercase hexadecimal digit character for `d`.
pub open spec fn hex_digit_char(d: int) -> char {
    if d < 10 {
        digit_char(d)
    } else if d == 10 { 'a' } else if d == 11 { 'b' } else if d == 12 { 'c' } else if d == 13 { 'd' }
    else if d == 14 { 'e' } else { 'f' }
}

/// The lowercase hexadecimal digits of `n`, most significant first,
/// without leading zeros.
pub open spec fn hex_digits(n: nat) -> Seq<char>
    decreases n,
{
    if n < 16 {
        seq![hex_digit_char(n as int)]
    } else {
        hex_digits(n / 16).push(hex_digit_char((n % 16) as int))
    }
}

fn hex_digit_of(d: u64) -> (c: char)
    requires
        d < 16,
    ensures
        c == hex_digit_char(d as int),
{
    if d < 10 {
        digit_of(d)
    } else if d == 10 { 'a' } else if d == 11 { 'b' } else if d == 12 { 'c' } else if d == 13 { 'd' }
    else if d == 14 { 'e' } else { 'f' }
}

/// Writes `v` in lowercase hexadecimal, as `u64`'s `LowerHex` does.
pub fn lower_hex_text(v: u64) -> (s: String)
    ensures
        s@ == hex_digits(v as nat),
{
    let mut n = v;
    let ghost n0: nat = v as nat;
    let mut rev: Vec<char> = Vec::new();
    while n >= 16
        invariant
            hex_digits(n0) =~= hex_digits(n as nat) + rev@.reverse(),
        decreases n,
    {
        let c = hex_digit_of(n % 16);
        proof {
            assert(hex_digits(n as nat) == hex_digits((n / 16) as nat).push(c));
            assert(rev@.push(c).reverse() =~= seq![c] + rev@.reverse());
        }
        rev.push(c);
        n = n / 16;
    }
    let mut out: Vec<char> = Vec::new();
    out.push(hex_digit_of(n));
    let mut i = rev.len();
    while i > 0
        invariant
            i <= rev@.len(),
            out@ =~= seq![hex_digit_char(n as int)] + rev@.subrange(i as int, rev@.len() as int).reverse(),
        decreases i,
    {
        i -= 1;
        proof {
            assert(rev@.subrange(i as int, rev@.len() as int).reverse() =~= rev@.subrange(
                (i + 1) as int,
                rev@.len() as int,
            ).reverse().push(rev@[i as int]));
        }
        out.push(rev[i]);
    }
    proof {
        assert(rev@.subrange(0, rev@.len() as int) =~= rev@);
        assert(hex_digits(n as nat) == seq![hex_digit_char(n as int)]);
    }
    string_of(out.as_slice())
}

} // verus!
