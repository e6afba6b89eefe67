//! File names from user-supplied titles.

use crate::text::{chars_of, lemma_trim_elements, lemma_trim_idempotent, lemma_trim_shape, string_of, trim, trim_chars};
use vstd::prelude::*;

verus! {

/// The longest name, in characters, that `sanitize` keeps before trimming.
pub const MAX_NAME_CHARS: usize = 100;

/// The characters that may not occur in a file name.
pub open spec fn is_forbidden(c: char) -> bool {
    c == '/' || c == '\\' || c == ':' || c == '*' || c == '?' || c == '"' || c == '<' || c == '>'
        || c == '|'
}

/// `c`, or an underscore in place of a forbidden character.
pub open spec fn safe_char(c: char) -> char {
    if is_forbidden(c) {
        '_'
    } else {
        c
    }
}

/// The first `n` elements of `s`, or all of `s` if it has fewer.
pub open spec fn truncate(s: Seq<char>, n: nat) -> Seq<char> {
    if s.len() <= n {
        s
    } else {
        s.take(n as int)
    }
}

/// The file-name form of `name`: forbidden characters replaced, cut to the
/// first `MAX_NAME_CHARS` characters, then trimmed.
pub open spec fn sanitized(name: Seq<char>) -> Seq<char> {
    trim(truncate(name.map_values(|c: char| safe_char(c)), MAX_NAME_CHARS as nat))
}

/// No forbidden character occurs in `s`.
pub open spec fn is_clean(s: Seq<char>) -> bool {
    forall|i: int| 0 <= i < s.len() ==> !is_forbidden(#[trigger] s[i])
}

/// A sanitized name holds no forbidden character and at most
/// `MAX_NAME_CHARS` characters.
pub proof fn lemma_sanitized_clean(name: Seq<char>)
    ensures
        is_clean(sanitized(name)),
        sanitized(name).len() <= MAX_NAME_CHARS,
{
    let m = name.map_values(|c: char| safe_char(c));
    let t = truncate(m, MAX_NAME_CHARS as nat);
    let r = sanitized(name);
    lemma_trim_shape(t);
    assert forall|i: int| 0 <= i < r.len() implies !is_forbidden(#[trigger] r[i]) by {
        lemma_trim_elements(t, i);
        let j = choose|j: int| 0 <= j < t.len() && t[j] == r[i];
        assert(t[j] == safe_char(name[j]));
    }
}

/// Sanitizing is idempotent: a sanitized name is its own sanitized form.
pub proof fn lemma_sanitize_idempotent(name: Seq<char>)
    ensures
        sanitized(sanitized(name)) == sanitized(name),
{
    let r = sanitized(name);
    lemma_sanitized_clean(name);
    let t = truncate(name.map_values(|c: char| safe_char(c)), MAX_NAME_CHARS as nat);
    assert(r.map_values(|c: char| safe_char(c)) =~= r);
    lemma_trim_idempotent(t);
}

/// Whether `c` may not occur in a file name.
pub fn is_forbidden_char(c: char) -> (b: bool)
    ensures
        b == is_forbidden(c),
{
    c == '/' || c == '\\' || c == ':' || c == '*' || c == '?' || c == '"' || c == '<' || c == '>'
        || c == '|'
}

/// Makes a file name from a title: each of `/ \ : * ? " < > |` becomes `_`,
/// the result is cut to its first `MAX_NAME_CHARS` characters and trimmed.
pub fn sanitize(name: &str) -> (r: String)
    ensures
        r@ == sanitized(name@),
        is_clean(r@),
        r@.len() <= MAX_NAME_CHARS,
{
    let src = chars_of(name);
    let n: usize = if src.len() <= MAX_NAME_CHARS {
        src.len()
    } else {
        MAX_NAME_CHARS
    };
    let mut kept: Vec<char> = Vec::new();
    let mut i: usize = 0;
    while i < n
        invariant
            i <= n <= src.len(),
            kept@ == src@.map_values(|c: char| safe_char(c)).take(i as int),
        decreases n - i,
    {
        let c = src[i];
        if is_forbidden_char(c) {
            kept.push('_');
        } else {
            kept.push(c);
        }
        assert(kept@ =~= src@.map_values(|c: char| safe_char(c)).take(i + 1));
        i += 1;
    }
    proof {
        let m = src@.map_values(|c: char| safe_char(c));
        assert(m.take(m.len() as int) =~= m);
        lemma_sanitized_clean(name@);
    }
    let trimmed = trim_chars(&kept);
    string_of(&trimmed)
}

} // verus!
