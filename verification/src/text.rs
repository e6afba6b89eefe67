//! Character sequences: the model every text operation of this crate is
//! stated over, and the executable helpers that work on `Vec<char>`.

use vstd::prelude::*;

verus! {

/// `String::push` appends one character to the end of the string.
pub assume_specification[ String::push ](s: &mut String, c: char)
    ensures
        final(s)@ == old(s)@.push(c),
;

/// Unicode white space: the characters that trimming removes.
pub open spec fn is_space(c: char) -> bool {
    let n = c as u32;
    ||| 0x09 <= n <= 0x0D
    ||| n == 0x20
    ||| n == 0x85
    ||| n == 0xA0
    ||| n == 0x1680
    ||| 0x2000 <= n <= 0x200A
    ||| n == 0x2028
    ||| n == 0x2029
    ||| n == 0x202F
    ||| n == 0x205F
    ||| n == 0x3000
}

/// `s` without its leading white space.
pub open spec fn trim_start(s: Seq<char>) -> Seq<char>
    decreases s.len(),
{
    if s.len() > 0 && is_space(s[0]) {
        trim_start(s.skip(1))
    } else {
        s
    }
}

/// `s` without its trailing white space.
pub open spec fn trim_end(s: Seq<char>) -> Seq<char>
    decreases s.len(),
{
    if s.len() > 0 && is_space(s.last()) {
        trim_end(s.drop_last())
    } else {
        s
    }
}

/// `s` without leading and trailing white space.
pub open spec fn trim(s: Seq<char>) -> Seq<char> {
    trim_end(trim_start(s))
}

/// `pat` occurs in `s` starting at index `i`.
pub open spec fn occurs_at(s: Seq<char>, i: int, pat: Seq<char>) -> bool {
    &&& 0 <= i
    &&& i + pat.len() <= s.len()
    &&& s.subrange(i, i + pat.len()) == pat
}

/// `pat` occurs somewhere in `s`.
pub open spec fn contains_seq(s: Seq<char>, pat: Seq<char>) -> bool {
    exists|i: int| occurs_at(s, i, pat)
}

/// `s` with every occurrence of `pat` replaced by `rep`, scanning from the
/// left; occurrences do not overlap. An empty pattern replaces nothing.
pub open spec fn replace_all(s: Seq<char>, pat: Seq<char>, rep: Seq<char>) -> Seq<char>
    decreases s.len(),
{
    if pat.len() == 0 || s.len() == 0 {
        s
    } else if occurs_at(s, 0, pat) {
        rep + replace_all(s.skip(pat.len() as int), pat, rep)
    } else {
        seq![s[0]] + replace_all(s.skip(1), pat, rep)
    }
}

/// `trim_start` leaves a suffix of `s` that does not begin with white space.
pub proof fn lemma_trim_start_shape(s: Seq<char>)
    ensures
        trim_start(s).len() <= s.len(),
        trim_start(s) == s.skip(s.len() - trim_start(s).len()),
        trim_start(s).len() > 0 ==> !is_space(trim_start(s)[0]),
    decreases s.len(),
{
    if s.len() > 0 && is_space(s[0]) {
        lemma_trim_start_shape(s.skip(1));
        let r = trim_start(s.skip(1));
        assert(s.skip(1).skip(s.skip(1).len() - r.len()) =~= s.skip(s.len() - r.len()));
    } else {
        assert(s.skip(0) =~= s);
    }
}

/// `trim_end` leaves a prefix of `s` that does not end with white space.
pub proof fn lemma_trim_end_shape(s: Seq<char>)
    ensures
        trim_end(s).len() <= s.len(),
        trim_end(s) == s.take(trim_end(s).len() as int),
        trim_end(s).len() > 0 ==> !is_space(trim_end(s).last()),
    decreases s.len(),
{
    if s.len() > 0 && is_space(s.last()) {
        lemma_trim_end_shape(s.drop_last());
        let r = trim_end(s.drop_last());
        assert(s.drop_last().take(r.len() as int) =~= s.take(r.len() as int));
    } else {
        assert(s.take(s.len() as int) =~= s);
    }
}

/// Trimming is a range of the input, free of white space at both ends.
pub proof fn lemma_trim_shape(s: Seq<char>)
    ensures
        trim(s).len() <= s.len(),
        trim(s).len() > 0 ==> !is_space(trim(s)[0]) && !is_space(trim(s).last()),
        exists|a: int|
            0 <= a && a + trim(s).len() <= s.len() && trim(s) == #[trigger] s.subrange(
                a,
                a + trim(s).len(),
            ),
{
    let u = trim_start(s);
    lemma_trim_start_shape(s);
    lemma_trim_end_shape(u);
    let t = trim(s);
    let a = s.len() - u.len();
    assert(t =~= s.subrange(a, a + t.len()));
}

/// Trimming twice is trimming once.
pub proof fn lemma_trim_idempotent(s: Seq<char>)
    ensures
        trim(trim(s)) == trim(s),
{
    lemma_trim_shape(s);
}

/// Every element of a trimmed sequence is an element of the input.
pub proof fn lemma_trim_elements(s: Seq<char>, i: int)
    requires
        0 <= i < trim(s).len(),
    ensures
        s.contains(trim(s)[i]),
{
    lemma_trim_shape(s);
    let a = choose|a: int|
        0 <= a && a + trim(s).len() <= s.len() && trim(s) == #[trigger] s.subrange(
            a,
            a + trim(s).len(),
        );
    assert(s[a + i] == trim(s)[i]);
}

/// Whether `c` is Unicode white space.
pub fn is_whitespace(c: char) -> (b: bool)
    ensures
        b == is_space(c),
{
    let n: u32 = c as u32;
    (0x09 <= n && n <= 0x0D) || n == 0x20 || n == 0x85 || n == 0xA0 || n == 0x1680 || (0x2000 <= n
        && n <= 0x200A) || n == 0x2028 || n == 0x2029 || n == 0x202F || n == 0x205F || n == 0x3000
}

/// The characters of `s`, in order.
pub fn chars_of(s: &str) -> (v: Vec<char>)
    ensures
        v@ == s@,
{
    let mut v: Vec<char> = Vec::new();
    for c in it: s.chars()
        invariant
            v@ == it.seq().take(it.index() as int),
            it.seq() == s@,
    {
        v.push(c);
    }
    v
}

/// The string made of the characters of `v`, in order.
pub fn string_of(v: &Vec<char>) -> (s: String)
    ensures
        s@ == v@,
{
    let mut s = String::new();
    let mut i: usize = 0;
    while i < v.len()
        invariant
            i <= v.len(),
            s@ == v@.take(i as int),
        decreases v.len() - i,
    {
        s.push(v[i]);
        i += 1;
    }
    s
}

/// Appends the characters of `src` to `out`.
pub fn push_all(out: &mut Vec<char>, src: &Vec<char>)
    ensures
        final(out)@ == old(out)@ + src@,
{
    let mut i: usize = 0;
    while i < src.len()
        invariant
            i <= src.len(),
            out@ == old(out)@ + src@.take(i as int),
        decreases src.len() - i,
    {
        out.push(src[i]);
        i += 1;
    }
}

/// Appends the characters of `s` to `out`.
pub fn push_str(out: &mut Vec<char>, s: &str)
    ensures
        final(out)@ == old(out)@ + s@,
{
    for c in it: s.chars()
        invariant
            out@ == old(out)@ + it.seq().take(it.index() as int),
            it.seq() == s@,
    {
        out.push(c);
    }
}

/// The characters of `src` from index `from` up to, not including, `to`.
pub(crate) fn slice_of(src: &Vec<char>, from: usize, to: usize) -> (r: Vec<char>)
    requires
        from <= to <= src.len(),
    ensures
        r@ == src@.subrange(from as int, to as int),
{
    let mut r: Vec<char> = Vec::new();
    let mut i: usize = from;
    while i < to
        invariant
            from <= i <= to <= src.len(),
            r@ == src@.subrange(from as int, i as int),
        decreases to - i,
    {
        r.push(src[i]);
        i += 1;
    }
    r
}

/// Trims white space from both ends of `src`.
pub fn trim_chars(src: &Vec<char>) -> (r: Vec<char>)
    ensures
        r@ == trim(src@),
{
    let mut a: usize = 0;
    assert(src@.skip(0) =~= src@);
    while a < src.len() && is_whitespace(src[a])
        invariant
            a <= src.len(),
            trim_start(src@) == trim_start(src@.skip(a as int)),
        decreases src.len() - a,
    {
        assert(src@.skip(a as int).skip(1) =~= src@.skip(a + 1));
        a += 1;
    }
    let mut b: usize = src.len();
    assert(src@.skip(a as int) =~= src@.subrange(a as int, b as int));
    while b > a && is_whitespace(src[b - 1])
        invariant
            a <= b <= src.len(),
            trim(src@) == trim_end(src@.subrange(a as int, b as int)),
        decreases b,
    {
        assert(src@.subrange(a as int, b as int).drop_last() =~= src@.subrange(
            a as int,
            b - 1,
        ));
        b -= 1;
    }
    slice_of(src, a, b)
}

/// Whether `pat` occurs in `src` starting at index `i`.
pub fn matches_at(src: &Vec<char>, i: usize, pat: &Vec<char>) -> (b: bool)
    ensures
        b == occurs_at(src@, i as int, pat@),
{
    if pat.len() > src.len() || i > src.len() - pat.len() {
        return false;
    }
    let mut k: usize = 0;
    while k < pat.len()
        invariant
            k <= pat.len(),
            i + pat.len() <= src.len(),
            src@.subrange(i as int, i + k) == pat@.take(k as int),
        decreases pat.len() - k,
    {
        if src[i + k] != pat[k] {
            assert(src@.subrange(i as int, i + pat.len())[k as int] != pat@[k as int]);
            return false;
        }
        assert(src@.subrange(i as int, i + k + 1) =~= src@.subrange(i as int, i + k).push(
            src@[i + k],
        ));
        assert(pat@.take(k + 1) =~= pat@.take(k as int).push(pat@[k as int]));
        k += 1;
    }
    assert(pat@.take(pat.len() as int) =~= pat@);
    true
}

/// Whether `a` and `b` hold the same characters.
pub fn equal_chars(a: &Vec<char>, b: &Vec<char>) -> (r: bool)
    ensures
        r == (a@ == b@),
{
    if a.len() != b.len() {
        return false;
    }
    let mut i: usize = 0;
    while i < a.len()
        invariant
            i <= a.len(),
            a.len() == b.len(),
            forall|j: int| 0 <= j < i ==> a@[j] == b@[j],
        decreases a.len() - i,
    {
        if a[i] != b[i] {
            return false;
        }
        i += 1;
    }
    assert(a@ =~= b@);
    true
}

/// Whether `a` and `b` are the same text.
pub fn same_text(a: &str, b: &str) -> (r: bool)
    ensures
        r == (a@ == b@),
{
    equal_chars(&chars_of(a), &chars_of(b))
}

/// Whether `pat` occurs somewhere in `src`.
pub fn contains_chars(src: &Vec<char>, pat: &Vec<char>) -> (b: bool)
    ensures
        b == contains_seq(src@, pat@),
{
    let mut i: usize = 0;
    while i <= src.len()
        invariant
            i <= src.len() + 1,
            forall|j: int| 0 <= j < i ==> !occurs_at(src@, j, pat@),
        decreases src.len() + 1 - i,
    {
        if matches_at(src, i, pat) {
            return true;
        }
        if i == src.len() {
            return false;
        }
        i += 1;
    }
    false
}

/// Replaces every occurrence of `pat` in `src` by `rep`.
pub fn replace_chars(src: &Vec<char>, pat: &Vec<char>, rep: &Vec<char>) -> (r: Vec<char>)
    ensures
        r@ == replace_all(src@, pat@, rep@),
{
    let mut out: Vec<char> = Vec::new();
    if pat.len() == 0 {
        push_all(&mut out, src);
        return out;
    }
    let mut i: usize = 0;
    assert(src@.skip(0) =~= src@);
    while i < src.len()
        invariant
            i <= src.len(),
            pat.len() > 0,
            replace_all(src@, pat@, rep@) == out@ + replace_all(src@.skip(i as int), pat@, rep@),
        decreases src.len() - i,
    {
        let ghost rest = src@.skip(i as int);
        let ghost before = out@;
        if matches_at(src, i, pat) {
            assert(rest.subrange(0, pat.len() as int) =~= src@.subrange(
                i as int,
                i + pat.len(),
            ));
            assert(rest.skip(pat.len() as int) =~= src@.skip(i + pat.len()));
            push_all(&mut out, rep);
            i += pat.len();
            assert(out@ + replace_all(src@.skip(i as int), pat@, rep@) =~= before + (rep@
                + replace_all(src@.skip(i as int), pat@, rep@)));
        } else {
            assert(!occurs_at(rest, 0, pat@)) by {
                if occurs_at(rest, 0, pat@) {
                    assert(rest.subrange(0, pat.len() as int) =~= src@.subrange(
                        i as int,
                        i + pat.len(),
                    ));
                }
            }
            assert(rest.skip(1) =~= src@.skip(i + 1));
            out.push(src[i]);
            i += 1;
            assert(out@ + replace_all(src@.skip(i as int), pat@, rep@) =~= before + (seq![
                rest[0],
            ] + replace_all(src@.skip(i as int), pat@, rep@)));
        }
    }
    assert(out@ + Seq::<char>::empty() =~= out@);
    out
}

} // verus!
