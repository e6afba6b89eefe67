//! JSON text to a value. The grammar is stated as functions from a position
//! in the text to what stands there and how many characters it takes; the
//! parser is proved to compute exactly those.

use crate::text::{chars_of, matches_at, occurs_at, slice_of, string_of};
use vstd::prelude::*;

verus! {

/// `char::from_u32` gives the character with the code `i`, or `None` where
/// `i` is a surrogate or above the last code point.
pub assume_specification[ char::from_u32 ](i: u32) -> (r: Option<char>)
    ensures
        r == char_of(i as int),
;

/// How deep arrays and objects may nest.
pub const MAX_DEPTH: usize = 128;

/// A JSON value. A number keeps the characters it was written with.
#[derive(Debug, PartialEq, Eq)]
pub enum Json {
    Null,
    Bool(bool),
    Number(String),
    Text(String),
    Array(Vec<Json>),
    Object(Vec<(String, Json)>),
}

/// What a `Json` value holds, as plain sequences.
pub enum JsonModel {
    Null,
    Bool(bool),
    Number(Seq<char>),
    Text(Seq<char>),
    Array(Seq<JsonModel>),
    Object(Seq<(Seq<char>, JsonModel)>),
}

/// The model of a value.
pub open spec fn json_model(json: Json) -> JsonModel
    decreases json,
{
    match json {
        Json::Null => JsonModel::Null,
        Json::Bool(b) => JsonModel::Bool(b),
        Json::Number(n) => JsonModel::Number(n@),
        Json::Text(t) => JsonModel::Text(t@),
        Json::Array(items) => JsonModel::Array(
            Seq::new(
                items@.len(),
                |i: int|
                    if 0 <= i < items@.len() {
                        json_model(items@[i])
                    } else {
                        JsonModel::Null
                    },
            ),
        ),
        Json::Object(members) => JsonModel::Object(
            Seq::new(
                members@.len(),
                |i: int|
                    if 0 <= i < members@.len() {
                        (members@[i].0@, json_model(members@[i].1))
                    } else {
                        (Seq::empty(), JsonModel::Null)
                    },
            ),
        ),
    }
}

impl View for Json {
    type V = JsonModel;

    open spec fn view(&self) -> JsonModel {
        json_model(*self)
    }
}

/// The models of `items`, in order.
pub open spec fn items_model(items: Seq<Json>) -> Seq<JsonModel> {
    Seq::new(items.len(), |i: int| items[i]@)
}

/// The models of `members`, in order.
pub open spec fn members_model(members: Seq<(String, Json)>) -> Seq<(Seq<char>, JsonModel)> {
    Seq::new(members.len(), |i: int| (members[i].0@, members[i].1@))
}

/// The model of an array is the models of its items.
pub proof fn lemma_array_model(items: Vec<Json>)
    ensures
        Json::Array(items)@ == JsonModel::Array(items_model(items@)),
{
    assert(Json::Array(items)@->Array_0 =~= items_model(items@));
}

/// The model of an object is the models of its members.
pub proof fn lemma_object_model(members: Vec<(String, Json)>)
    ensures
        Json::Object(members)@ == JsonModel::Object(members_model(members@)),
{
    assert(Json::Object(members)@->Object_0 =~= members_model(members@));
}

/// The character with code `i`, if `i` is a Unicode scalar value.
pub open spec fn char_of(i: int) -> Option<char> {
    if 0 <= i <= 0xD7FF || 0xE000 <= i <= 0x10FFFF {
        Some(i as char)
    } else {
        None
    }
}

/// The character `c` stands at `pos`.
pub open spec fn has(s: Seq<char>, pos: int, c: char) -> bool {
    0 <= pos < s.len() && s[pos] == c
}

/// The white space that JSON allows between tokens.
pub open spec fn is_json_space(c: char) -> bool {
    c == ' ' || c == '\t' || c == '\n' || c == '\r'
}

/// A decimal digit.
pub open spec fn is_digit(c: char) -> bool {
    '0' <= c <= '9'
}

/// The number of white-space characters that stand at `pos`.
pub open spec fn space_run(s: Seq<char>, pos: int) -> nat
    decreases s.len() - pos,
{
    if 0 <= pos < s.len() && is_json_space(s[pos]) {
        1 + space_run(s, pos + 1)
    } else {
        0
    }
}

/// The number of digits that stand at `pos`.
pub open spec fn digit_run(s: Seq<char>, pos: int) -> nat
    decreases s.len() - pos,
{
    if 0 <= pos < s.len() && is_digit(s[pos]) {
        1 + digit_run(s, pos + 1)
    } else {
        0
    }
}

/// The length of the fraction at `pos`: nothing, or a point and at least
/// one digit. `None` where a point stands without a digit.
pub open spec fn fraction_len(s: Seq<char>, pos: int) -> Option<nat> {
    if has(s, pos, '.') {
        if digit_run(s, pos + 1) > 0 {
            Some(1 + digit_run(s, pos + 1))
        } else {
            None
        }
    } else {
        Some(0)
    }
}

/// The length of the exponent at `pos`: nothing, or `e` or `E`, an optional
/// sign and at least one digit. `None` where the digits are missing.
pub open spec fn exponent_len(s: Seq<char>, pos: int) -> Option<nat> {
    if has(s, pos, 'e') || has(s, pos, 'E') {
        let sign: nat = if has(s, pos + 1, '+') || has(s, pos + 1, '-') {
            1
        } else {
            0
        };
        if digit_run(s, pos + 1 + sign) > 0 {
            Some(1 + sign + digit_run(s, pos + 1 + sign))
        } else {
            None
        }
    } else {
        Some(0)
    }
}

/// The length of the number at `pos`: an optional minus, then `0` or digits
/// that do not begin with `0`, then a fraction, then an exponent.
pub open spec fn number_len(s: Seq<char>, pos: int) -> Option<nat> {
    let sign: nat = if has(s, pos, '-') {
        1
    } else {
        0
    };
    let whole: nat = if has(s, pos + sign, '0') {
        1
    } else {
        digit_run(s, pos + sign)
    };
    if whole == 0 {
        None
    } else {
        match fraction_len(s, pos + sign + whole) {
            None => None,
            Some(fraction) => match exponent_len(s, pos + sign + whole + fraction) {
                None => None,
                Some(exponent) => Some(sign + whole + fraction + exponent),
            },
        }
    }
}

/// The value of a hexadecimal digit.
pub open spec fn hex_value(c: char) -> Option<int> {
    if '0' <= c <= '9' {
        Some(c as int - '0' as int)
    } else if 'a' <= c <= 'f' {
        Some(c as int - 'a' as int + 10)
    } else if 'A' <= c <= 'F' {
        Some(c as int - 'A' as int + 10)
    } else {
        None
    }
}

/// The value of the four hexadecimal digits at `pos`.
pub open spec fn hex4(s: Seq<char>, pos: int) -> Option<int> {
    if 0 <= pos && pos + 4 <= s.len() {
        match (hex_value(s[pos]), hex_value(s[pos + 1]), hex_value(s[pos + 2]), hex_value(s[pos + 3])) {
            (Some(a), Some(b), Some(c), Some(d)) => Some(((a * 16 + b) * 16 + c) * 16 + d),
            _ => None,
        }
    } else {
        None
    }
}

/// The character that the escape at `pos`, just after a backslash, stands
/// for, and its length. A `\u` escape of a high surrogate must be followed
/// by one of a low surrogate: the two make one character. A surrogate alone
/// is refused.
pub open spec fn escape_at(s: Seq<char>, pos: int) -> Option<(char, nat)> {
    if !(0 <= pos < s.len()) {
        None
    } else if s[pos] == '"' {
        Some(('"', 1))
    } else if s[pos] == '\\' {
        Some(('\\', 1))
    } else if s[pos] == '/' {
        Some(('/', 1))
    } else if s[pos] == 'b' {
        Some(('\u{8}', 1))
    } else if s[pos] == 'f' {
        Some(('\u{c}', 1))
    } else if s[pos] == 'n' {
        Some(('\n', 1))
    } else if s[pos] == 'r' {
        Some(('\r', 1))
    } else if s[pos] == 't' {
        Some(('\t', 1))
    } else if s[pos] == 'u' {
        match hex4(s, pos + 1) {
            None => None,
            Some(first) => if 0xD800 <= first <= 0xDBFF {
                if has(s, pos + 5, '\\') && has(s, pos + 6, 'u') {
                    match hex4(s, pos + 7) {
                        None => None,
                        Some(second) => if 0xDC00 <= second <= 0xDFFF {
                            Some(
                                (
                                    (0x10000 + (first - 0xD800) * 0x400 + (second - 0xDC00)) as char,
                                    11,
                                ),
                            )
                        } else {
                            None
                        },
                    }
                } else {
                    None
                }
            } else {
                match char_of(first) {
                    None => None,
                    Some(c) => Some((c, 5)),
                }
            },
        }
    } else {
        None
    }
}

/// `prefix` and `k` characters put before what a parser found.
pub open spec fn after(prefix: Seq<char>, k: nat, found: Option<(Seq<char>, nat)>) -> Option<
    (Seq<char>, nat),
> {
    match found {
        Some((rest, n)) => Some((prefix + rest, k + n)),
        None => None,
    }
}

/// The text of the string whose first character, after the opening quote,
/// stands at `pos`, and its length with the closing quote. Control
/// characters are refused.
pub open spec fn text_at(s: Seq<char>, pos: int) -> Option<(Seq<char>, nat)>
    decreases s.len() - pos,
{
    if !(0 <= pos < s.len()) {
        None
    } else if s[pos] == '"' {
        Some((Seq::empty(), 1))
    } else if s[pos] == '\\' {
        match escape_at(s, pos + 1) {
            None => None,
            Some((c, n)) => after(seq![c], 1 + n, text_at(s, pos + 1 + n)),
        }
    } else if (s[pos] as u32) < 0x20 {
        None
    } else {
        after(seq![s[pos]], 1, text_at(s, pos + 1))
    }
}

/// `prefix` and `k` characters put before the items that a parser found.
pub open spec fn after_items(
    prefix: Seq<JsonModel>,
    k: nat,
    found: Option<(Seq<JsonModel>, nat)>,
) -> Option<(Seq<JsonModel>, nat)> {
    match found {
        Some((rest, n)) => Some((prefix + rest, k + n)),
        None => None,
    }
}

/// `prefix` and `k` characters put before the members that a parser found.
pub open spec fn after_members(
    prefix: Seq<(Seq<char>, JsonModel)>,
    k: nat,
    found: Option<(Seq<(Seq<char>, JsonModel)>, nat)>,
) -> Option<(Seq<(Seq<char>, JsonModel)>, nat)> {
    match found {
        Some((rest, n)) => Some((prefix + rest, k + n)),
        None => None,
    }
}

/// The value that begins at `pos`, and its length. Arrays and objects may
/// nest `depth` deep.
pub open spec fn value_at(s: Seq<char>, pos: int, depth: nat) -> Option<(JsonModel, nat)>
    decreases s.len() - pos, 0nat,
{
    if !(0 <= pos < s.len()) {
        None
    } else if s[pos] == '"' {
        match text_at(s, pos + 1) {
            Some((text, n)) => Some((JsonModel::Text(text), 1 + n)),
            None => None,
        }
    } else if s[pos] == '[' {
        if depth == 0 {
            None
        } else if has(s, pos + 1 + space_run(s, pos + 1), ']') {
            Some((JsonModel::Array(Seq::empty()), 2 + space_run(s, pos + 1)))
        } else {
            match items_at(s, pos + 1, (depth - 1) as nat) {
                Some((items, n)) => Some((JsonModel::Array(items), 1 + n)),
                None => None,
            }
        }
    } else if s[pos] == '{' {
        if depth == 0 {
            None
        } else if has(s, pos + 1 + space_run(s, pos + 1), '}') {
            Some((JsonModel::Object(Seq::empty()), 2 + space_run(s, pos + 1)))
        } else {
            match members_at(s, pos + 1, (depth - 1) as nat) {
                Some((members, n)) => Some((JsonModel::Object(members), 1 + n)),
                None => None,
            }
        }
    } else if occurs_at(s, pos, "null"@) {
        Some((JsonModel::Null, "null"@.len()))
    } else if occurs_at(s, pos, "true"@) {
        Some((JsonModel::Bool(true), "true"@.len()))
    } else if occurs_at(s, pos, "false"@) {
        Some((JsonModel::Bool(false), "false"@.len()))
    } else {
        match number_len(s, pos) {
            Some(n) => Some((JsonModel::Number(s.subrange(pos, pos + n)), n)),
            None => None,
        }
    }
}

/// The items of an array from `pos`, where the first of them begins after
/// white space, up to the closing bracket, and their length with it.
pub open spec fn items_at(s: Seq<char>, pos: int, depth: nat) -> Option<(Seq<JsonModel>, nat)>
    decreases s.len() - pos, 1nat,
{
    let a = space_run(s, pos);
    if !(0 <= pos && pos + a < s.len()) {
        None
    } else {
        match value_at(s, pos + a, depth) {
            None => None,
            Some((item, n)) => {
                let b = space_run(s, pos + a + n);
                let q = pos + a + n + b;
                if has(s, q, ',') {
                    after_items(seq![item], a + n + b + 1, items_at(s, q + 1, depth))
                } else if has(s, q, ']') {
                    Some((seq![item], a + n + b + 1))
                } else {
                    None
                }
            },
        }
    }
}

/// The members of an object from `pos`, where the first of them begins
/// after white space, up to the closing brace, and their length with it. A
/// member is a string, a colon and a value.
pub open spec fn members_at(s: Seq<char>, pos: int, depth: nat) -> Option<
    (Seq<(Seq<char>, JsonModel)>, nat),
>
    decreases s.len() - pos, 1nat,
{
    let a = space_run(s, pos);
    if !(0 <= pos && has(s, pos + a, '"')) {
        None
    } else {
        match text_at(s, pos + a + 1) {
            None => None,
            Some((key, k)) => {
                let b = space_run(s, pos + a + 1 + k);
                let colon = pos + a + 1 + k + b;
                let c = space_run(s, colon + 1);
                if !(has(s, colon, ':') && colon + 1 + c < s.len()) {
                    None
                } else {
                    match value_at(s, colon + 1 + c, depth) {
                        None => None,
                        Some((value, n)) => {
                            let d = space_run(s, colon + 1 + c + n);
                            let q = colon + 1 + c + n + d;
                            let len = a + 1 + k + b + 1 + c + n + d + 1;
                            if has(s, q, ',') {
                                after_members(seq![(key, value)], len, members_at(s, q + 1, depth))
                            } else if has(s, q, '}') {
                                Some((seq![(key, value)], len))
                            } else {
                                None
                            }
                        },
                    }
                }
            },
        }
    }
}

/// The value that `s` is the JSON text of: one value, with white space at
/// most around it.
pub open spec fn parsed(s: Seq<char>) -> Option<JsonModel> {
    let a = space_run(s, 0);
    match value_at(s, a as int, MAX_DEPTH as nat) {
        None => None,
        Some((value, n)) => if a + n + space_run(s, (a + n) as int) == s.len() {
            Some(value)
        } else {
            None
        },
    }
}

/// Whether `c` is JSON white space.
fn is_space_char(c: char) -> (b: bool)
    ensures
        b == is_json_space(c),
{
    c == ' ' || c == '\t' || c == '\n' || c == '\r'
}

/// Whether `c` is a decimal digit.
fn is_digit_char(c: char) -> (b: bool)
    ensures
        b == is_digit(c),
{
    '0' <= c && c <= '9'
}

/// The position after the white space at `pos`.
fn skip_space(src: &Vec<char>, pos: usize) -> (end: usize)
    requires
        pos <= src.len(),
    ensures
        end == pos + space_run(src@, pos as int),
        end <= src.len(),
{
    let mut i: usize = pos;
    while i < src.len() && is_space_char(src[i])
        invariant
            pos <= i <= src.len(),
            pos + space_run(src@, pos as int) == i + space_run(src@, i as int),
        decreases src.len() - i,
    {
        i += 1;
    }
    i
}

/// The position after the digits at `pos`.
fn skip_digits(src: &Vec<char>, pos: usize) -> (end: usize)
    requires
        pos <= src.len(),
    ensures
        end == pos + digit_run(src@, pos as int),
        end <= src.len(),
{
    let mut i: usize = pos;
    while i < src.len() && is_digit_char(src[i])
        invariant
            pos <= i <= src.len(),
            pos + digit_run(src@, pos as int) == i + digit_run(src@, i as int),
        decreases src.len() - i,
    {
        i += 1;
    }
    i
}

/// Whether `c` stands at `pos`.
fn has_char(src: &Vec<char>, pos: usize, c: char) -> (b: bool)
    ensures
        b == has(src@, pos as int, c),
{
    pos < src.len() && src[pos] == c
}

/// The position after the fraction at `pos`.
fn scan_fraction(src: &Vec<char>, pos: usize) -> (r: Option<usize>)
    requires
        pos <= src.len(),
    ensures
        match r {
            Some(end) => pos <= end <= src.len() && fraction_len(src@, pos as int) == Some(
                (end - pos) as nat,
            ),
            None => fraction_len(src@, pos as int) is None,
        },
{
    if has_char(src, pos, '.') {
        let end = skip_digits(src, pos + 1);
        if end == pos + 1 {
            None
        } else {
            Some(end)
        }
    } else {
        Some(pos)
    }
}

/// The position after the exponent at `pos`.
fn scan_exponent(src: &Vec<char>, pos: usize) -> (r: Option<usize>)
    requires
        pos <= src.len(),
    ensures
        match r {
            Some(end) => pos <= end <= src.len() && exponent_len(src@, pos as int) == Some(
                (end - pos) as nat,
            ),
            None => exponent_len(src@, pos as int) is None,
        },
{
    if has_char(src, pos, 'e') || has_char(src, pos, 'E') {
        let digits: usize = if has_char(src, pos + 1, '+') || has_char(src, pos + 1, '-') {
            pos + 2
        } else {
            pos + 1
        };
        let end = skip_digits(src, digits);
        if end == digits {
            None
        } else {
            Some(end)
        }
    } else {
        Some(pos)
    }
}

/// The position after the number at `pos`, if one stands there.
fn scan_number(src: &Vec<char>, pos: usize) -> (r: Option<usize>)
    requires
        pos <= src.len(),
    ensures
        match r {
            Some(end) => pos < end <= src.len() && number_len(src@, pos as int) == Some(
                (end - pos) as nat,
            ),
            None => number_len(src@, pos as int) is None,
        },
{
    let whole_start: usize = if has_char(src, pos, '-') {
        pos + 1
    } else {
        pos
    };
    let whole_end: usize = if has_char(src, whole_start, '0') {
        whole_start + 1
    } else {
        skip_digits(src, whole_start)
    };
    if whole_end == whole_start {
        return None;
    }
    match scan_fraction(src, whole_end) {
        None => None,
        Some(fraction_end) => scan_exponent(src, fraction_end),
    }
}

/// The value of a hexadecimal digit.
fn hex_digit(c: char) -> (r: Option<u32>)
    ensures
        match r {
            Some(v) => hex_value(c) == Some(v as int) && v < 16,
            None => hex_value(c) is None,
        },
{
    let n: u32 = c as u32;
    if '0' <= c && c <= '9' {
        Some(n - 0x30)
    } else if 'a' <= c && c <= 'f' {
        Some(n - 0x61 + 10)
    } else if 'A' <= c && c <= 'F' {
        Some(n - 0x41 + 10)
    } else {
        None
    }
}

/// The value of the four hexadecimal digits at `pos`.
fn scan_hex4(src: &Vec<char>, pos: usize) -> (r: Option<u32>)
    ensures
        match r {
            Some(v) => hex4(src@, pos as int) == Some(v as int) && v <= 0xFFFF,
            None => hex4(src@, pos as int) is None,
        },
{
    if src.len() < 4 || pos > src.len() - 4 {
        return None;
    }
    let a = hex_digit(src[pos]);
    let b = hex_digit(src[pos + 1]);
    let c = hex_digit(src[pos + 2]);
    let d = hex_digit(src[pos + 3]);
    match (a, b, c, d) {
        (Some(a), Some(b), Some(c), Some(d)) => Some(((a * 16 + b) * 16 + c) * 16 + d),
        _ => None,
    }
}

/// The character of the escape at `pos` and the position after it.
fn scan_escape(src: &Vec<char>, pos: usize) -> (r: Option<(char, usize)>)
    ensures
        match r {
            Some((c, end)) => pos < end <= src.len() && escape_at(src@, pos as int) == Some(
                (c, (end - pos) as nat),
            ),
            None => escape_at(src@, pos as int) is None,
        },
{
    if pos >= src.len() {
        return None;
    }
    let e = src[pos];
    if e == '"' {
        Some(('"', pos + 1))
    } else if e == '\\' {
        Some(('\\', pos + 1))
    } else if e == '/' {
        Some(('/', pos + 1))
    } else if e == 'b' {
        Some(('\u{8}', pos + 1))
    } else if e == 'f' {
        Some(('\u{c}', pos + 1))
    } else if e == 'n' {
        Some(('\n', pos + 1))
    } else if e == 'r' {
        Some(('\r', pos + 1))
    } else if e == 't' {
        Some(('\t', pos + 1))
    } else if e == 'u' {
        match scan_hex4(src, pos + 1) {
            None => None,
            Some(first) => {
                if 0xD800 <= first && first <= 0xDBFF {
                    if has_char(src, pos + 5, '\\') && has_char(src, pos + 6, 'u') {
                        match scan_hex4(src, pos + 7) {
                            None => None,
                            Some(second) => {
                                if 0xDC00 <= second && second <= 0xDFFF {
                                    let code: u32 = 0x10000 + (first - 0xD800) * 0x400 + (second
                                        - 0xDC00);
                                    match char::from_u32(code) {
                                        Some(c) => Some((c, pos + 11)),
                                        None => None,
                                    }
                                } else {
                                    None
                                }
                            },
                        }
                    } else {
                        None
                    }
                } else {
                    match char::from_u32(first) {
                        Some(c) => Some((c, pos + 5)),
                        None => None,
                    }
                }
            },
        }
    } else {
        None
    }
}

/// The text of the string that begins, after its opening quote, at `start`,
/// and the position after its closing quote.
fn scan_text(src: &Vec<char>, start: usize) -> (r: Option<(Vec<char>, usize)>)
    requires
        start <= src.len(),
    ensures
        match r {
            Some((text, end)) => start < end <= src.len() && text_at(src@, start as int) == Some(
                (text@, (end - start) as nat),
            ),
            None => text_at(src@, start as int) is None,
        },
{
    let mut text: Vec<char> = Vec::new();
    let mut i: usize = start;
    assert(Seq::<char>::empty() + Seq::<char>::empty() =~= Seq::<char>::empty());
    loop
        invariant
            start <= i <= src.len(),
            text_at(src@, start as int) == after(
                text@,
                (i - start) as nat,
                text_at(src@, i as int),
            ),
        decreases src.len() - i,
    {
        if i >= src.len() {
            return None;
        }
        let c = src[i];
        let ghost before = text@;
        if c == '"' {
            assert(before + Seq::<char>::empty() =~= before);
            return Some((text, i + 1));
        } else if c == '\\' {
            match scan_escape(src, i + 1) {
                None => {
                    return None;
                },
                Some((e, end)) => {
                    text.push(e);
                    proof {
                        let found = text_at(src@, end as int);
                        if let Some((rest, n)) = found {
                            assert(before + (seq![e] + rest) =~= text@ + rest);
                        }
                    }
                    i = end;
                },
            }
        } else if (c as u32) < 0x20 {
            return None;
        } else {
            text.push(c);
            proof {
                let found = text_at(src@, i + 1);
                if let Some((rest, n)) = found {
                    assert(before + (seq![c] + rest) =~= text@ + rest);
                }
            }
            i += 1;
        }
    }
}

/// The value that begins at `pos` and the position after it.
fn parse_value(src: &Vec<char>, pos: usize, depth: usize) -> (r: Option<(Json, usize)>)
    requires
        pos <= src.len(),
    ensures
        match r {
            Some((json, end)) => pos < end <= src.len() && value_at(
                src@,
                pos as int,
                depth as nat,
            ) == Some((json@, (end - pos) as nat)),
            None => value_at(src@, pos as int, depth as nat) is None,
        },
    decreases depth, 0nat,
{
    if pos >= src.len() {
        return None;
    }
    let c = src[pos];
    if c == '"' {
        match scan_text(src, pos + 1) {
            Some((text, end)) => Some((Json::Text(string_of(&text)), end)),
            None => None,
        }
    } else if c == '[' {
        if depth == 0 {
            return None;
        }
        let p = skip_space(src, pos + 1);
        if has_char(src, p, ']') {
            let items: Vec<Json> = Vec::new();
            proof {
                lemma_array_model(items);
                assert(items_model(items@) =~= Seq::<JsonModel>::empty());
            }
            Some((Json::Array(items), p + 1))
        } else {
            match parse_items(src, pos + 1, depth - 1) {
                Some((items, end)) => {
                    proof {
                        lemma_array_model(items);
                    }
                    Some((Json::Array(items), end))
                },
                None => None,
            }
        }
    } else if c == '{' {
        if depth == 0 {
            return None;
        }
        let p = skip_space(src, pos + 1);
        if has_char(src, p, '}') {
            let members: Vec<(String, Json)> = Vec::new();
            proof {
                lemma_object_model(members);
                assert(members_model(members@) =~= Seq::<(Seq<char>, JsonModel)>::empty());
            }
            Some((Json::Object(members), p + 1))
        } else {
            match parse_members(src, pos + 1, depth - 1) {
                Some((members, end)) => {
                    proof {
                        lemma_object_model(members);
                    }
                    Some((Json::Object(members), end))
                },
                None => None,
            }
        }
    } else {
        let null = chars_of("null");
        let yes = chars_of("true");
        let no = chars_of("false");
        proof {
            reveal_strlit("null");
            reveal_strlit("true");
            reveal_strlit("false");
        }
        if matches_at(src, pos, &null) {
            Some((Json::Null, pos + null.len()))
        } else if matches_at(src, pos, &yes) {
            Some((Json::Bool(true), pos + yes.len()))
        } else if matches_at(src, pos, &no) {
            Some((Json::Bool(false), pos + no.len()))
        } else {
            match scan_number(src, pos) {
                Some(end) => {
                    let digits = slice_of(src, pos, end);
                    Some((Json::Number(string_of(&digits)), end))
                },
                None => None,
            }
        }
    }
}

/// The items of an array from `pos` and the position after its closing
/// bracket.
fn parse_items(src: &Vec<char>, pos: usize, depth: usize) -> (r: Option<(Vec<Json>, usize)>)
    requires
        pos <= src.len(),
    ensures
        match r {
            Some((items, end)) => pos < end <= src.len() && items_at(
                src@,
                pos as int,
                depth as nat,
            ) == Some((items_model(items@), (end - pos) as nat)),
            None => items_at(src@, pos as int, depth as nat) is None,
        },
    decreases depth, 1nat,
{
    let mut items: Vec<Json> = Vec::new();
    let mut i: usize = pos;
    assert(items_model(items@) =~= Seq::<JsonModel>::empty());
    assert(Seq::<JsonModel>::empty() + Seq::<JsonModel>::empty() =~= Seq::<JsonModel>::empty());
    loop
        invariant
            pos <= i <= src.len(),
            items_at(src@, pos as int, depth as nat) == after_items(
                items_model(items@),
                (i - pos) as nat,
                items_at(src@, i as int, depth as nat),
            ),
        decreases src.len() - i,
    {
        let p = skip_space(src, i);
        if p >= src.len() {
            return None;
        }
        match parse_value(src, p, depth) {
            None => {
                return None;
            },
            Some((item, end)) => {
                let q = skip_space(src, end);
                let ghost before = items_model(items@);
                let ghost model = item@;
                items.push(item);
                assert(items_model(items@) =~= before + seq![model]);
                if has_char(src, q, ',') {
                    proof {
                        let found = items_at(src@, q + 1, depth as nat);
                        if let Some((rest, n)) = found {
                            assert(before + (seq![model] + rest) =~= items_model(items@) + rest);
                        }
                    }
                    i = q + 1;
                } else if has_char(src, q, ']') {
                    return Some((items, q + 1));
                } else {
                    return None;
                }
            },
        }
    }
}

/// The members of an object from `pos` and the position after its closing
/// brace.
fn parse_members(src: &Vec<char>, pos: usize, depth: usize) -> (r: Option<
    (Vec<(String, Json)>, usize),
>)
    requires
        pos <= src.len(),
    ensures
        match r {
            Some((members, end)) => pos < end <= src.len() && members_at(
                src@,
                pos as int,
                depth as nat,
            ) == Some((members_model(members@), (end - pos) as nat)),
            None => members_at(src@, pos as int, depth as nat) is None,
        },
    decreases depth, 1nat,
{
    let mut members: Vec<(String, Json)> = Vec::new();
    let mut i: usize = pos;
    assert(members_model(members@) =~= Seq::<(Seq<char>, JsonModel)>::empty());
    assert(Seq::<(Seq<char>, JsonModel)>::empty() + Seq::<(Seq<char>, JsonModel)>::empty()
        =~= Seq::<(Seq<char>, JsonModel)>::empty());
    loop
        invariant
            pos <= i <= src.len(),
            members_at(src@, pos as int, depth as nat) == after_members(
                members_model(members@),
                (i - pos) as nat,
                members_at(src@, i as int, depth as nat),
            ),
        decreases src.len() - i,
    {
        let p = skip_space(src, i);
        if !has_char(src, p, '"') {
            return None;
        }
        match scan_text(src, p + 1) {
            None => {
                return None;
            },
            Some((key, key_end)) => {
                let colon = skip_space(src, key_end);
                if !has_char(src, colon, ':') {
                    return None;
                }
                let start = skip_space(src, colon + 1);
                if start >= src.len() {
                    return None;
                }
                match parse_value(src, start, depth) {
                    None => {
                        return None;
                    },
                    Some((value, end)) => {
                        let q = skip_space(src, end);
                        let ghost before = members_model(members@);
                        let ghost model = (key@, value@);
                        members.push((string_of(&key), value));
                        assert(members_model(members@) =~= before + seq![model]);
                        if has_char(src, q, ',') {
                            proof {
                                let found = members_at(src@, q + 1, depth as nat);
                                if let Some((rest, n)) = found {
                                    assert(before + (seq![model] + rest) =~= members_model(
                                        members@,
                                    ) + rest);
                                }
                            }
                            i = q + 1;
                        } else if has_char(src, q, '}') {
                            return Some((members, q + 1));
                        } else {
                            return None;
                        }
                    },
                }
            },
        }
    }
}

/// Reads JSON text: `Some` of the value where `text` is one JSON value with
/// at most white space around it, nested no deeper than `MAX_DEPTH`; `None`
/// for any other text.
pub fn parse(text: &str) -> (r: Option<Json>)
    ensures
        match r {
            Some(json) => parsed(text@) == Some(json@),
            None => parsed(text@) is None,
        },
{
    let src = chars_of(text);
    let start = skip_space(&src, 0);
    match parse_value(&src, start, MAX_DEPTH) {
        None => None,
        Some((json, end)) => {
            let rest = skip_space(&src, end);
            if rest == src.len() {
                Some(json)
            } else {
                None
            }
        },
    }
}

} // verus!
