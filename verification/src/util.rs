//! Small text utilities.
use vstd::prelude::*;
use uuid::Uuid;
use crate::text::{chars_of, string_of, string_of_range};

verus! {

/// The prefix of `s` before the first occurrence of `d`, or all of `s`.
pub open spec fn spec_trim_after(s: Seq<char>, d: char) -> Seq<char>
    decreases s.len(),
{
    if s.len() == 0 {
        s
    } else if s[0] == d {
        Seq::empty()
    } else {
        seq![s[0]] + spec_trim_after(s.drop_first(), d)
    }
}

proof fn lemma_trim_after(s: Seq<char>, d: char, i: int)
    requires
        0 <= i <= s.len(),
        forall|j: int| 0 <= j < i ==> s[j] != d,
    ensures
        i < s.len() && s[i] == d ==> spec_trim_after(s, d) == s.subrange(0, i),
        i == s.len() ==> spec_trim_after(s, d) == s,
    decreases i,
{
    if i > 0 {
        lemma_trim_after(s.drop_first(), d, i - 1);
        assert(seq![s[0]] + s.drop_first().subrange(0, i - 1) =~= s.subrange(0, i));
        assert(seq![s[0]] + s.drop_first() =~= s);
    } else if s.len() > 0 {
        assert(s.subrange(0, 0) =~= Seq::<char>::empty());
    }
}

/// Returns the part of `string` before the first occurrence of `delimeter`,
/// or all of it when the delimiter does not occur.
pub fn trim_after(string: &str, delimeter: char) -> (r: String)
    ensures
        r@ == spec_trim_after(string@, delimeter),
{
    let v = chars_of(string);
    let mut i: usize = 0;
    while i < v.len() && v[i] != delimeter
        invariant
            0 <= i <= v@.len(),
            forall|j: int| 0 <= j < i ==> v@[j] != delimeter,
        decreases v@.len() - i,
    {
        i += 1;
    }
    proof {
        lemma_trim_after(v@, delimeter, i as int);
    }
    if i == v.len() {
        string_of(v.as_slice())
    } else {
        string_of_range(v.as_slice(), 0, i)
    }
}

#[verifier::external_type_specification]
#[verifier::external_body]
pub struct ExUuid(Uuid);

/// Whether `c` is a lowercase hexadecimal digit.
pub open spec fn is_lower_hex(c: char) -> bool {
    ('0' <= c <= '9') || ('a' <= c <= 'f')
}

/// Whether `s` has the hyphenated form of a UUID: 36 characters, hyphens
/// at indices 8, 13, 18 and 23, lowercase hexadecimal digits elsewhere.
pub open spec fn is_hyphenated_uuid(s: Seq<char>) -> bool {
    &&& s.len() == 36
    &&& forall|i: int|
        0 <= i < 36 ==> if i == 8 || i == 13 || i == 18 || i == 23 {
            s[i] == '-'
        } else {
            is_lower_hex(#[trigger] s[i])
        }
}

/// Calls `Uuid::now_v7`, which builds a version 7 UUID from the current
/// time and random bits. Nothing is claimed of the value.
#[verifier::external_body]
fn fresh_uuid() -> Uuid {
    Uuid::now_v7()
}

/// Calls `Uuid`'s `Display`, which writes the lowercase hyphenated form
/// (8-4-4-4-12 hexadecimal digits).
#[verifier::external_body]
fn uuid_text(u: &Uuid) -> (s: String)
    ensures
        is_hyphenated_uuid(s@),
{
    u.to_string()
}

/// `s` without its `-` characters.
pub open spec fn without_hyphens(s: Seq<char>) -> Seq<char> {
    s.filter(|c: char| c != '-')
}

/// The label text made from the hyphenated text of a UUID: its 32
/// hexadecimal digits, in order, without the hyphens.
pub fn label_from_uuid_text(text: &str) -> (r: String)
    requires
        is_hyphenated_uuid(text@),
    ensures
        r@ == without_hyphens(text@),
        r@.len() == 32,
        forall|i: int| 0 <= i < 32 ==> is_lower_hex(#[trigger] r@[i]),
{
    let v = chars_of(text);
    let mut out: Vec<char> = Vec::new();
    for i in 0..v.len()
        invariant
            v@ == text@,
            v@.len() == 36,
            is_hyphenated_uuid(v@),
            out@ == without_hyphens(v@.subrange(0, i as int)),
            forall|j: int| 0 <= j < out@.len() ==> is_lower_hex(#[trigger] out@[j]),
    {
        proof {
            assert(v@.subrange(0, i + 1) =~= v@.subrange(0, i as int).push(v@[i as int]));
            reveal_with_fuel(Seq::filter, 1);
            assert(v@.subrange(0, i + 1).drop_last() =~= v@.subrange(0, i as int));
        }
        if v[i] != '-' {
            out.push(v[i]);
        }
    }
    proof {
        assert(v@.subrange(0, 36) =~= v@);
        lemma_hyphen_count(v@);
    }
    string_of(out.as_slice())
}

/// Returns a fresh label text: a new time-ordered UUID, drawn by the uuid
/// crate, written as 32 lowercase hexadecimal digits without hyphens.
pub fn random_internal_label() -> (r: String)
    ensures
        exists|u: Seq<char>| is_hyphenated_uuid(u) && r@ == without_hyphens(u),
        r@.len() == 32,
        forall|i: int| 0 <= i < 32 ==> is_lower_hex(#[trigger] r@[i]),
{
    let id = fresh_uuid();
    let text = uuid_text(&id);
    label_from_uuid_text(text.as_str())
}

/// `s` with every occurrence of the non-empty `pat`, taken from left to
/// right without overlap, replaced by `rep`.
pub open spec fn replace_all(s: Seq<char>, pat: Seq<char>, rep: Seq<char>) -> Seq<char>
    decreases s.len(),
{
    if pat.len() == 0 || s.len() < pat.len() {
        s
    } else if s.subrange(0, pat.len() as int) == pat {
        rep + replace_all(s.subrange(pat.len() as int, s.len() as int), pat, rep)
    } else {
        seq![s[0]] + replace_all(s.drop_first(), pat, rep)
    }
}

/// Returns `s` with every occurrence of `pat` replaced by `rep`, as
/// `str::replace` does for a non-empty pattern.
fn replace_text(s: &[char], pat: &[char], rep: &[char]) -> (r: Vec<char>)
    requires
        pat@.len() > 0,
    ensures
        r@ == replace_all(s@, pat@, rep@),
{
    let n = s.len();
    let p = pat.len();
    let mut out: Vec<char> = Vec::new();
    let mut i: usize = 0;
    assert(s@.subrange(0, n as int) =~= s@);
    while i < n
        invariant
            n == s@.len(),
            p == pat@.len(),
            p > 0,
            i <= n,
            replace_all(s@, pat@, rep@) == out@ + replace_all(s@.subrange(i as int, n as int), pat@, rep@),
        decreases n - i,
    {
        let ghost rest = s@.subrange(i as int, n as int);
        if n - i >= p && crate::text::same_chars(vstd::slice::slice_subrange(s, i, i + p), pat) {
            assert(rest.subrange(0, p as int) =~= s@.subrange(i as int, i + p));
            assert(rest.subrange(p as int, rest.len() as int) =~= s@.subrange(i + p, n as int));
            let ghost before = out@;
            for j in 0..rep.len()
                invariant
                    out@ == before + rep@.subrange(0, j as int),
            {
                out.push(rep[j]);
                assert(out@ =~= before + rep@.subrange(0, j + 1));
            }
            assert(rep@.subrange(0, rep@.len() as int) =~= rep@);
            assert(out@ + replace_all(s@.subrange(i + p, n as int), pat@, rep@)
                =~= before + (rep@ + replace_all(s@.subrange(i + p, n as int), pat@, rep@)));
            i = i + p;
        } else {
            if n - i >= p {
                assert(rest.subrange(0, p as int) =~= s@.subrange(i as int, i + p));
            }
            assert(rest.drop_first() =~= s@.subrange(i + 1, n as int));
            let ghost before = out@;
            out.push(s[i]);
            assert(out@ + replace_all(s@.subrange(i + 1, n as int), pat@, rep@)
                =~= before + (seq![s@[i as int]] + replace_all(s@.subrange(i + 1, n as int), pat@, rep@)));
            i = i + 1;
        }
    }
    assert(s@.subrange(n as int, n as int) =~= Seq::<char>::empty());
    assert(out@ + Seq::<char>::empty() =~= out@);
    out
}

/// The name of the module read from the file at `relative` (its path
/// below the input directory) with the file extension `extension`, in
/// the program named `program`: `program`, a `.`, and the path with each
/// `.extension` removed and each backslash turned into `.`.
pub open spec fn spec_module_name(program: Seq<char>, relative: Seq<char>, extension: Seq<char>) -> Seq<char> {
    program + seq!['.'] + replace_all(replace_all(relative, seq!['.'] + extension, Seq::empty()), seq!['\\'], seq!['.'])
}

/// Returns the name of the module read from the file at `relative` with
/// the extension `extension`, in the program named `program`.
pub fn module_name_for(program: &str, relative: &str, extension: &str) -> (r: String)
    ensures
        r@ == spec_module_name(program@, relative@, extension@),
{
    let mut pat: Vec<char> = Vec::new();
    pat.push('.');
    let ext = chars_of(extension);
    for j in 0..ext.len()
        invariant
            pat@ == seq!['.'] + ext@.subrange(0, j as int),
    {
        pat.push(ext[j]);
        assert(pat@ =~= seq!['.'] + ext@.subrange(0, j + 1));
    }
    assert(ext@.subrange(0, ext@.len() as int) =~= ext@);
    let rel = chars_of(relative);
    let empty: Vec<char> = Vec::new();
    let step = replace_text(rel.as_slice(), pat.as_slice(), empty.as_slice());
    let backslash: Vec<char> = vec!['\\'];
    let dot: Vec<char> = vec!['.'];
    assert(backslash@ =~= seq!['\\']);
    assert(dot@ =~= seq!['.']);
    assert(empty@ =~= Seq::<char>::empty());
    let tail = replace_text(step.as_slice(), backslash.as_slice(), dot.as_slice());
    let mut out = chars_of(program);
    let ghost head = out@;
    out.push('.');
    for j in 0..tail.len()
        invariant
            out@ == head + seq!['.'] + tail@.subrange(0, j as int),
    {
        out.push(tail[j]);
        assert(out@ =~= head + seq!['.'] + tail@.subrange(0, j + 1));
    }
    assert(tail@.subrange(0, tail@.len() as int) =~= tail@);
    string_of(out.as_slice())
}

/// The number of hyphens among the first `k` characters of a hyphenated UUID.
spec fn hyphens_before(k: int) -> int {
    if k > 23 { 4 } else if k > 18 { 3 } else if k > 13 { 2 } else if k > 8 { 1 } else { 0 }
}

proof fn lemma_hyphen_prefix(s: Seq<char>, k: int)
    requires
        is_hyphenated_uuid(s),
        0 <= k <= 36,
    ensures
        without_hyphens(s.subrange(0, k)).len() == k - hyphens_before(k),
    decreases k,
{
    reveal_with_fuel(Seq::filter, 1);
    if k > 0 {
        lemma_hyphen_prefix(s, k - 1);
        assert(s.subrange(0, k).drop_last() =~= s.subrange(0, k - 1));
        let c = s[k - 1];
        if k - 1 == 8 || k - 1 == 13 || k - 1 == 18 || k - 1 == 23 {
            assert(c == '-');
        } else {
            assert(is_lower_hex(c));
        }
    } else {
        assert(s.subrange(0, 0) =~= Seq::<char>::empty());
    }
}

proof fn lemma_hyphen_count(s: Seq<char>)
    requires
        is_hyphenated_uuid(s),
    ensures
        without_hyphens(s).len() == 32,
{
    lemma_hyphen_prefix(s, 36);
    assert(s.subrange(0, 36) =~= s);
}

} // verus!
