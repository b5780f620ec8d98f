//! Character-sequence predicates and the thin trusted layer over std's
//! string operations that the rest of the crate states its contracts with.

use vstd::prelude::*;

verus! {

/// The characters of `s` folded to lower case, exactly as
/// `str::to_lowercase` folds them. The Unicode folding table is not written
/// out here; the name stands for whatever that function returns.
pub uninterp spec fn lower_of(s: Seq<char>) -> Seq<char>;

/// `needle` occurs contiguously inside `hay` (the empty sequence occurs in
/// everything).
pub open spec fn is_substring_of(needle: Seq<char>, hay: Seq<char>) -> bool {
    exists|k: int|
        0 <= k && k + needle.len() <= hay.len() && #[trigger] hay.subrange(
            k,
            k + needle.len() as int,
        ) == needle
}

/// `s` begins with `prefix`.
pub open spec fn seq_starts_with(s: Seq<char>, prefix: Seq<char>) -> bool {
    prefix.len() <= s.len() && s.subrange(0, prefix.len() as int) == prefix
}

/// `s` ends with `suffix`.
pub open spec fn seq_ends_with(s: Seq<char>, suffix: Seq<char>) -> bool {
    suffix.len() <= s.len() && s.subrange(s.len() - suffix.len(), s.len() as int) == suffix
}

/// Relies on `str::to_lowercase`: the result is a function of the characters
/// alone, and the empty string stays empty.
#[verifier::external_body]
pub fn to_lowercase(s: &str) -> (r: String)
    ensures
        r@ == lower_of(s@),
        s@.len() == 0 ==> r@.len() == 0,
{
    s.to_lowercase()
}

/// Relies on `str::contains`: true exactly when `needle` occurs as a
/// substring of `hay`.
#[verifier::external_body]
pub fn str_contains(hay: &str, needle: &str) -> (r: bool)
    ensures
        r == is_substring_of(needle@, hay@),
{
    hay.contains(needle)
}

/// Relies on `str::starts_with`: true exactly when `s` begins with `prefix`.
#[verifier::external_body]
pub fn str_starts_with(s: &str, prefix: &str) -> (r: bool)
    ensures
        r == seq_starts_with(s@, prefix@),
{
    s.starts_with(prefix)
}

/// Relies on `str::ends_with`: true exactly when `s` ends with `suffix`.
#[verifier::external_body]
pub fn str_ends_with(s: &str, suffix: &str) -> (r: bool)
    ensures
        r == seq_ends_with(s@, suffix@),
{
    s.ends_with(suffix)
}

/// Relies on `String::push`: appends one character.
#[verifier::external_body]
pub fn string_push(s: &mut String, c: char)
    ensures
        final(s)@ == old(s)@.push(c),
{
    s.push(c)
}

/// Relies on `String::pop`: removes and returns the last character, or
/// returns `None` and leaves the empty string alone.
#[verifier::external_body]
pub fn string_pop(s: &mut String) -> (r: Option<char>)
    ensures
        old(s)@.len() == 0 ==> r is None && final(s)@ == old(s)@,
        old(s)@.len() > 0 ==> r == Some(old(s)@.last()) && final(s)@ == old(s)@.drop_last(),
{
    s.pop()
}

/// `list` holds a string whose characters are `s`.
pub open spec fn contains_string(list: Seq<String>, s: Seq<char>) -> bool {
    exists|k: int| 0 <= k < list.len() && (#[trigger] list[k])@ == s
}

/// Whether some string of `list` equals `s`.
pub fn list_contains_string(list: &Vec<String>, s: &String) -> (r: bool)
    ensures
        r == contains_string(list@, s@),
{
    let n = list.len();
    let mut i: usize = 0;
    while i < n
        invariant
            i <= n,
            n == list@.len(),
            forall|k: int| 0 <= k < i ==> (#[trigger] list@[k])@ != s@,
        decreases n - i,
    {
        if list[i] == *s {
            proof {
                assert((list@[i as int])@ == s@);
            }
            return true;
        }
        i += 1;
    }
    false
}

/// Strict lexicographic order on character sequences, by code point; a
/// proper prefix precedes its extensions.
pub open spec fn lex_lt(a: Seq<char>, b: Seq<char>) -> bool
    decreases a.len(),
{
    if b.len() == 0 {
        false
    } else if a.len() == 0 {
        true
    } else if a[0] != b[0] {
        (a[0] as u32) < (b[0] as u32)
    } else {
        lex_lt(a.drop_first(), b.drop_first())
    }
}

/// Distinct characters have distinct code points.
proof fn lemma_char_code_injective(x: char, y: char)
    requires
        x as u32 == y as u32,
    ensures
        x == y,
{
}

/// Nothing precedes itself.
pub proof fn lemma_lex_lt_irrefl(a: Seq<char>)
    ensures
        !lex_lt(a, a),
    decreases a.len(),
{
    if a.len() > 0 {
        lemma_lex_lt_irrefl(a.drop_first());
    }
}

/// Two sequences neither of which precedes the other are equal.
pub proof fn lemma_lex_lt_connex(a: Seq<char>, b: Seq<char>)
    requires
        !lex_lt(a, b),
        !lex_lt(b, a),
    ensures
        a == b,
    decreases a.len(),
{
    if a.len() == 0 && b.len() == 0 {
        assert(a =~= b);
    } else if a.len() == 0 || b.len() == 0 {
        assert(false);
    } else {
        if a[0] != b[0] {
            assert(lex_lt(a, b) == ((a[0] as u32) < (b[0] as u32)));
            assert(lex_lt(b, a) == ((b[0] as u32) < (a[0] as u32)));
            lemma_char_code_injective(a[0], b[0]);
            assert(false);
        }
        lemma_lex_lt_connex(a.drop_first(), b.drop_first());
        assert forall|i: int| 0 <= i < a.len() implies a[i] == b[i] by {
            if i > 0 {
                assert(a.drop_first()[i - 1] == b.drop_first()[i - 1]);
            }
        }
        assert(a =~= b);
    }
}

/// The order is transitive.
pub proof fn lemma_lex_lt_trans(a: Seq<char>, b: Seq<char>, c: Seq<char>)
    requires
        lex_lt(a, b),
        lex_lt(b, c),
    ensures
        lex_lt(a, c),
    decreases b.len(),
{
    if a.len() == 0 || b.len() == 0 || c.len() == 0 {
    } else if a[0] == b[0] && b[0] == c[0] {
        lemma_lex_lt_trans(a.drop_first(), b.drop_first(), c.drop_first());
    }
}

/// Relies on `<str as PartialOrd>::lt`: string slices order by their UTF-8
/// bytes, and for valid UTF-8 the byte order is exactly the code-point
/// lexicographic order on the characters.
#[verifier::external_body]
pub fn str_lt(a: &str, b: &str) -> (r: bool)
    ensures
        r == lex_lt(a@, b@),
{
    a < b
}

/// Relies on `str::eq`: two string slices are equal exactly when their
/// characters are.
#[verifier::external_body]
pub fn str_eq(a: &str, b: &str) -> (r: bool)
    ensures
        r == (a@ == b@),
{
    a == b
}

/// A one-character needle occurs in `hay` exactly when the character
/// occurs in it.
pub proof fn lemma_single_char_substring(hay: Seq<char>, c: char)
    ensures
        is_substring_of(seq![c], hay) == hay.contains(c),
{
    let needle = seq![c];
    if is_substring_of(needle, hay) {
        let k = choose|k: int|
            0 <= k && k + needle.len() <= hay.len() && #[trigger] hay.subrange(
                k,
                k + needle.len() as int,
            ) == needle;
        assert(hay.subrange(k, k + 1)[0] == c);
        assert(hay[k] == c);
    }
    if hay.contains(c) {
        let k = choose|k: int| 0 <= k < hay.len() && hay[k] == c;
        assert(hay.subrange(k, k + 1) =~= needle);
    }
}

/// The UTF-8 encoding length of `s`, in bytes.
pub open spec fn byte_len(s: Seq<char>) -> int {
    vstd::utf8::encode_utf8(s).len() as int
}

/// Relies on `str::len`: the length of the string in bytes. A string
/// slice occupies memory, so its byte length always fits in `usize` —
/// which is the one fact stated here beyond vstd's own specification of
/// `str::len` (vstd leaves the length's upper bound open, so the exact
/// value cannot be recovered from its truncating cast).
#[verifier::external_body]
pub fn str_byte_len(s: &str) -> (r: usize)
    ensures
        r as int == byte_len(s@),
{
    s.len()
}

} // verus!
