//! Best-effort Markdown from HTML text: literal substitutions in a fixed
//! order, then every remaining tag removed, blank lines collapsed, and the
//! whole trimmed.

use crate::text::{
    chars_of, lemma_trim_shape, push_all, replace_all, replace_chars, string_of, trim, trim_chars,
};
use vstd::prelude::*;

verus! {

/// Line breaks: `<br>`, `<br/>` and `<br />` become a line break.
pub open spec fn with_line_breaks(s: Seq<char>) -> Seq<char> {
    let a = replace_all(s, "<br>"@, "\n"@);
    let b = replace_all(a, "<br/>"@, "\n"@);
    replace_all(b, "<br />"@, "\n"@)
}

/// Paragraphs and divisions: `</p>` becomes a blank line, `<p>` and `<div>`
/// vanish, `</div>` becomes a line break.
pub open spec fn with_blocks(s: Seq<char>) -> Seq<char> {
    let a = replace_all(s, "</p>"@, "\n\n"@);
    let b = replace_all(a, "<p>"@, ""@);
    let c = replace_all(b, "<div>"@, ""@);
    replace_all(c, "</div>"@, "\n"@)
}

/// Emphasis: `<strong>` and `<b>`, opening or closing, become `**`; `<em>`
/// and `<i>` become `_`.
pub open spec fn with_emphasis(s: Seq<char>) -> Seq<char> {
    let a = replace_all(s, "<strong>"@, "**"@);
    let b = replace_all(a, "</strong>"@, "**"@);
    let c = replace_all(b, "<b>"@, "**"@);
    let d = replace_all(c, "</b>"@, "**"@);
    let e = replace_all(d, "<em>"@, "_"@);
    let f = replace_all(e, "</em>"@, "_"@);
    let g = replace_all(f, "<i>"@, "_"@);
    replace_all(g, "</i>"@, "_"@)
}

/// Named entities: `&nbsp;`, `&amp;`, `&lt;`, `&gt;` and `&quot;` become the
/// characters they name, in this order.
pub open spec fn with_entities(s: Seq<char>) -> Seq<char> {
    let a = replace_all(s, "&nbsp;"@, " "@);
    let b = replace_all(a, "&amp;"@, "&"@);
    let c = replace_all(b, "&lt;"@, "<"@);
    let d = replace_all(c, "&gt;"@, ">"@);
    replace_all(d, "&quot;"@, "\""@)
}

/// All the literal substitutions, in their order: line breaks, blocks,
/// emphasis, entities.
pub open spec fn substituted(s: Seq<char>) -> Seq<char> {
    with_entities(with_emphasis(with_blocks(with_line_breaks(s))))
}

/// The index of the first `c` in `s`, or the length of `s` if there is none.
pub open spec fn index_of(s: Seq<char>, c: char) -> nat
    decreases s.len(),
{
    if s.len() == 0 || s[0] == c {
        0
    } else {
        1 + index_of(s.skip(1), c)
    }
}

/// `s` without its tags. A tag is a `<`, the characters up to the next `>`,
/// and that `>`; a `<` with no `>` after it stays.
pub open spec fn without_tags(s: Seq<char>) -> Seq<char>
    decreases s.len(),
{
    if s.len() == 0 {
        s
    } else if s[0] == '<' && index_of(s, '>') < s.len() {
        without_tags(s.skip(index_of(s, '>') as int + 1))
    } else {
        seq![s[0]] + without_tags(s.skip(1))
    }
}

/// `s` with every line break dropped that has two or more line breaks
/// directly before it, where `run` line breaks stand directly before `s`.
pub open spec fn collapsed_after(s: Seq<char>, run: nat) -> Seq<char>
    decreases s.len(),
{
    if s.len() == 0 {
        s
    } else if s[0] == '\n' {
        (if run < 2 {
            seq!['\n']
        } else {
            Seq::empty()
        }) + collapsed_after(s.skip(1), run + 1)
    } else {
        seq![s[0]] + collapsed_after(s.skip(1), 0)
    }
}

/// `s` with every run of three or more line breaks cut down to two.
pub open spec fn collapsed(s: Seq<char>) -> Seq<char> {
    collapsed_after(s, 0)
}

/// The Markdown that stripping makes of `html`.
pub open spec fn stripped(html: Seq<char>) -> Seq<char> {
    trim(collapsed(without_tags(substituted(html))))
}

/// `c` does not occur in `s`.
pub open spec fn lacks(s: Seq<char>, c: char) -> bool {
    forall|i: int| 0 <= i < s.len() ==> #[trigger] s[i] != c
}

/// Somewhere in `s` a `<` stands before a `>`.
pub open spec fn has_tag_span(s: Seq<char>) -> bool {
    exists|i: int, j: int| 0 <= i < j < s.len() && #[trigger] s[i] == '<' && #[trigger] s[j] == '>'
}

/// `index_of` finds the first occurrence.
pub proof fn lemma_index_of(s: Seq<char>, c: char)
    ensures
        index_of(s, c) <= s.len(),
        index_of(s, c) < s.len() ==> s[index_of(s, c) as int] == c,
        forall|k: int| 0 <= k < index_of(s, c) ==> #[trigger] s[k] != c,
    decreases s.len(),
{
    if s.len() == 0 || s[0] == c {
    } else {
        lemma_index_of(s.skip(1), c);
        assert forall|k: int| 0 <= k < index_of(s, c) implies #[trigger] s[k] != c by {
            if k > 0 {
                assert(s.skip(1)[k - 1] == s[k]);
            }
        }
    }
}

/// The first occurrence is where `index_of` says.
pub proof fn lemma_index_of_is(s: Seq<char>, c: char, j: int)
    requires
        0 <= j <= s.len(),
        j < s.len() ==> s[j] == c,
        forall|k: int| 0 <= k < j ==> #[trigger] s[k] != c,
    ensures
        index_of(s, c) == j,
    decreases j,
{
    if j > 0 {
        assert(s[0] != c);
        assert forall|k: int| 0 <= k < j - 1 implies #[trigger] s.skip(1)[k] != c by {
            assert(s.skip(1)[k] == s[k + 1]);
        }
        lemma_index_of_is(s.skip(1), c, j - 1);
    }
}

/// A sequence without `>` has no tag to remove.
pub proof fn lemma_without_tags_unclosed(s: Seq<char>)
    requires
        lacks(s, '>'),
    ensures
        without_tags(s) == s,
    decreases s.len(),
{
    if s.len() > 0 {
        lemma_index_of_is(s, '>', s.len() as int);
        assert(lacks(s.skip(1), '>')) by {
            assert forall|i: int| 0 <= i < s.skip(1).len() implies #[trigger] s.skip(1)[i]
                != '>' by {
                assert(s.skip(1)[i] == s[i + 1]);
            }
        }
        lemma_without_tags_unclosed(s.skip(1));
        assert(seq![s[0]] + s.skip(1) =~= s);
    }
}

/// After tags are removed no `<` stands before a `>`.
pub proof fn lemma_without_tags_clean(s: Seq<char>)
    ensures
        !has_tag_span(without_tags(s)),
    decreases s.len(),
{
    if s.len() == 0 {
    } else if s[0] == '<' && index_of(s, '>') < s.len() {
        lemma_index_of(s, '>');
        lemma_without_tags_clean(s.skip(index_of(s, '>') as int + 1));
    } else {
        let rest = without_tags(s.skip(1));
        let r = without_tags(s);
        lemma_without_tags_clean(s.skip(1));
        assert(r == seq![s[0]] + rest);
        if s[0] == '<' {
            lemma_index_of(s, '>');
            assert(lacks(s.skip(1), '>')) by {
                assert forall|i: int| 0 <= i < s.skip(1).len() implies #[trigger] s.skip(1)[i]
                    != '>' by {
                    assert(s.skip(1)[i] == s[i + 1]);
                }
            }
            lemma_without_tags_unclosed(s.skip(1));
        }
        assert forall|i: int, j: int| 0 <= i < j < r.len() implies !(#[trigger] r[i] == '<'
            && #[trigger] r[j] == '>') by {
            if r[i] == '<' && r[j] == '>' {
                assert(rest[j - 1] == r[j]);
                if i > 0 {
                    assert(rest[i - 1] == r[i]);
                }
            }
        }
    }
}

/// Collapsing blank lines brings in no `>`.
pub proof fn lemma_collapsed_lacks(s: Seq<char>, run: nat)
    requires
        lacks(s, '>'),
    ensures
        lacks(collapsed_after(s, run), '>'),
    decreases s.len(),
{
    if s.len() > 0 {
        let rest = s.skip(1);
        let next: nat = if s[0] == '\n' {
            run + 1
        } else {
            0
        };
        assert(lacks(rest, '>')) by {
            assert forall|i: int| 0 <= i < rest.len() implies #[trigger] rest[i] != '>' by {
                assert(rest[i] == s[i + 1]);
            }
        }
        lemma_collapsed_lacks(rest, next);
        let tail = collapsed_after(rest, next);
        let r = collapsed_after(s, run);
        assert forall|i: int| 0 <= i < r.len() implies #[trigger] r[i] != '>' by {
            if r.len() == tail.len() {
                assert(r =~= tail);
            } else {
                assert(r =~= seq![s[0]] + tail);
                if i > 0 {
                    assert(r[i] == tail[i - 1]);
                }
            }
        }
    }
}

/// Collapsing blank lines puts no `<` before a `>`.
pub proof fn lemma_collapsed_clean(s: Seq<char>, run: nat)
    requires
        !has_tag_span(s),
    ensures
        !has_tag_span(collapsed_after(s, run)),
    decreases s.len(),
{
    if s.len() > 0 {
        let rest = s.skip(1);
        let next: nat = if s[0] == '\n' {
            run + 1
        } else {
            0
        };
        assert(!has_tag_span(rest)) by {
            if has_tag_span(rest) {
                let (i, j) = choose|i: int, j: int|
                    0 <= i < j < rest.len() && #[trigger] rest[i] == '<' && #[trigger] rest[j]
                        == '>';
                assert(s[i + 1] == '<' && s[j + 1] == '>');
            }
        }
        lemma_collapsed_clean(rest, next);
        let tail = collapsed_after(rest, next);
        let r = collapsed_after(s, run);
        if s[0] == '<' {
            assert(lacks(rest, '>')) by {
                assert forall|i: int| 0 <= i < rest.len() implies #[trigger] rest[i] != '>' by {
                    if rest[i] == '>' {
                        assert(s[0] == '<' && s[i + 1] == '>');
                    }
                }
            }
            lemma_collapsed_lacks(rest, next);
        }
        assert forall|i: int, j: int| 0 <= i < j < r.len() implies !(#[trigger] r[i] == '<'
            && #[trigger] r[j] == '>') by {
            if r[i] == '<' && r[j] == '>' {
                if r.len() == tail.len() {
                    assert(r =~= tail);
                } else {
                    assert(r =~= seq![s[0]] + tail);
                    assert(tail[j - 1] == r[j]);
                    if i > 0 {
                        assert(tail[i - 1] == r[i]);
                    }
                }
            }
        }
    }
}

/// `n` line breaks.
pub open spec fn line_breaks(n: nat) -> Seq<char> {
    Seq::new(n, |i: int| '\n')
}

/// How many of `n` line breaks stay when `run` line breaks stand directly
/// before them: as many as fill the run up to two.
pub open spec fn kept_breaks(n: nat, run: nat) -> nat {
    if run >= 2 {
        0
    } else if n <= 2 - run {
        n
    } else {
        (2 - run) as nat
    }
}

/// Collapsing works on whole runs: of `n` line breaks before something
/// else, all stay if `n` is at most two, and two stay if it is more.
pub proof fn lemma_collapsed_run(n: nat, run: nat, rest: Seq<char>)
    requires
        rest.len() == 0 || rest[0] != '\n',
    ensures
        collapsed_after(line_breaks(n) + rest, run) == line_breaks(kept_breaks(n, run))
            + collapsed_after(rest, 0),
        collapsed(line_breaks(n) + rest) == line_breaks(
            if n >= 3 {
                2
            } else {
                n
            },
        ) + collapsed(rest),
    decreases n, run,
{
    let s = line_breaks(n) + rest;
    if n == 0 {
        assert(s =~= rest);
        assert(line_breaks(0) + collapsed_after(rest, 0) =~= collapsed_after(rest, 0));
        if rest.len() > 0 {
            assert(collapsed_after(rest, run) == collapsed_after(rest, 0));
        }
    } else {
        assert(s[0] == '\n');
        assert(s.skip(1) =~= line_breaks((n - 1) as nat) + rest);
        lemma_collapsed_run((n - 1) as nat, run + 1, rest);
        let tail = line_breaks(kept_breaks((n - 1) as nat, run + 1)) + collapsed_after(rest, 0);
        if run < 2 {
            assert(seq!['\n'] + tail =~= line_breaks(kept_breaks(n, run)) + collapsed_after(
                rest,
                0,
            ));
        } else {
            assert(Seq::<char>::empty() + tail =~= line_breaks(kept_breaks(n, run))
                + collapsed_after(rest, 0));
        }
    }
    if run != 0 {
        lemma_collapsed_run(n, 0, rest);
    }
}

/// Trimming puts no `<` before a `>`.
pub proof fn lemma_trim_clean(s: Seq<char>)
    requires
        !has_tag_span(s),
    ensures
        !has_tag_span(trim(s)),
{
    lemma_trim_shape(s);
    let t = trim(s);
    let a = choose|a: int| 0 <= a && a + t.len() <= s.len() && t == #[trigger] s.subrange(a, a + t.len());
    if has_tag_span(t) {
        let (i, j) = choose|i: int, j: int|
            0 <= i < j < t.len() && #[trigger] t[i] == '<' && #[trigger] t[j] == '>';
        assert(s[a + i] == '<' && s[a + j] == '>');
    }
}

/// What stripping returns holds nothing shaped like a tag: no `<` with a
/// `>` anywhere after it.
pub proof fn lemma_stripped_has_no_tag(html: Seq<char>)
    ensures
        !has_tag_span(stripped(html)),
{
    let a = without_tags(substituted(html));
    lemma_without_tags_clean(substituted(html));
    lemma_collapsed_clean(a, 0);
    lemma_trim_clean(collapsed(a));
}

/// Replaces every occurrence of `pat` in `src` by `rep`.
fn substitute(src: Vec<char>, pat: &str, rep: &str) -> (r: Vec<char>)
    ensures
        r@ == replace_all(src@, pat@, rep@),
{
    let p = chars_of(pat);
    let q = chars_of(rep);
    replace_chars(&src, &p, &q)
}

/// Applies the literal substitutions in their order.
fn substitute_all(src: Vec<char>) -> (r: Vec<char>)
    ensures
        r@ == substituted(src@),
{
    let s = substitute(src, "<br>", "\n");
    let s = substitute(s, "<br/>", "\n");
    let s = substitute(s, "<br />", "\n");
    let s = substitute(s, "</p>", "\n\n");
    let s = substitute(s, "<p>", "");
    let s = substitute(s, "<div>", "");
    let s = substitute(s, "</div>", "\n");
    let s = substitute(s, "<strong>", "**");
    let s = substitute(s, "</strong>", "**");
    let s = substitute(s, "<b>", "**");
    let s = substitute(s, "</b>", "**");
    let s = substitute(s, "<em>", "_");
    let s = substitute(s, "</em>", "_");
    let s = substitute(s, "<i>", "_");
    let s = substitute(s, "</i>", "_");
    let s = substitute(s, "&nbsp;", " ");
    let s = substitute(s, "&amp;", "&");
    let s = substitute(s, "&lt;", "<");
    let s = substitute(s, "&gt;", ">");
    substitute(s, "&quot;", "\"")
}

/// Removes every tag from `src`.
fn remove_tags(src: &Vec<char>) -> (r: Vec<char>)
    ensures
        r@ == without_tags(src@),
{
    let mut out: Vec<char> = Vec::new();
    let mut i: usize = 0;
    assert(src@.skip(0) =~= src@);
    while i < src.len()
        invariant
            i <= src.len(),
            without_tags(src@) == out@ + without_tags(src@.skip(i as int)),
        decreases src.len() - i,
    {
        let ghost rest = src@.skip(i as int);
        let ghost before = out@;
        if src[i] == '<' {
            let mut j: usize = i + 1;
            while j < src.len() && src[j] != '>'
                invariant
                    i < j <= src.len(),
                    src@[i as int] == '<',
                    forall|k: int| i <= k < j ==> #[trigger] src@[k] != '>',
                decreases src.len() - j,
            {
                j += 1;
            }
            proof {
                assert forall|k: int| 0 <= k < j - i implies #[trigger] rest[k] != '>' by {
                    assert(rest[k] == src@[i + k]);
                }
                lemma_index_of_is(rest, '>', j - i);
            }
            if j < src.len() {
                assert(rest.skip(j - i + 1) =~= src@.skip(j + 1));
                i = j + 1;
            } else {
                proof {
                    assert(lacks(rest, '>'));
                    lemma_without_tags_unclosed(rest);
                }
                let tail = crate::text::slice_of(src, i, src.len());
                assert(tail@ =~= rest);
                push_all(&mut out, &tail);
                return out;
            }
        } else {
            assert(rest.skip(1) =~= src@.skip(i + 1));
            out.push(src[i]);
            i += 1;
            assert(out@ + without_tags(src@.skip(i as int)) =~= before + (seq![rest[0]]
                + without_tags(src@.skip(i as int))));
        }
    }
    assert(out@ + Seq::<char>::empty() =~= out@);
    out
}

/// Cuts every run of three or more line breaks down to two.
fn collapse_newlines(src: &Vec<char>) -> (r: Vec<char>)
    ensures
        r@ == collapsed(src@),
{
    let mut out: Vec<char> = Vec::new();
    let mut i: usize = 0;
    let mut run: usize = 0;
    assert(src@.skip(0) =~= src@);
    while i < src.len()
        invariant
            i <= src.len(),
            run <= i,
            collapsed(src@) == out@ + collapsed_after(src@.skip(i as int), run as nat),
        decreases src.len() - i,
    {
        let ghost rest = src@.skip(i as int);
        let ghost before = out@;
        let ghost run_before = run as nat;
        assert(rest.skip(1) =~= src@.skip(i + 1));
        if src[i] == '\n' {
            if run < 2 {
                out.push('\n');
            }
            run += 1;
        } else {
            out.push(src[i]);
            run = 0;
        }
        i += 1;
        assert(out@ + collapsed_after(src@.skip(i as int), run as nat) =~= before
            + collapsed_after(rest, run_before));
    }
    assert(out@ + Seq::<char>::empty() =~= out@);
    out
}

/// Makes Markdown of HTML text, as well as literal substitutions can:
/// line breaks, paragraphs, bold, italic and five named entities are
/// rewritten, then every remaining tag is removed, runs of blank lines are
/// cut to one, and the result is trimmed. Never fails. The result holds no
/// `<` with a `>` after it.
pub fn strip(html: &str) -> (r: String)
    ensures
        r@ == stripped(html@),
        !has_tag_span(r@),
{
    let src = chars_of(html);
    let replaced = substitute_all(src);
    let bare = remove_tags(&replaced);
    let spaced = collapse_newlines(&bare);
    let trimmed = trim_chars(&spaced);
    proof {
        lemma_stripped_has_no_tag(html@);
    }
    string_of(&trimmed)
}

} // verus!
