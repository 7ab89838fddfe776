//! The JSON layer of the sample capabilities: parsed values are
//! carried opaquely through serde_json behind trusted wrappers, while
//! the text this crate emits itself — quoted strings and string
//! arrays — is built here and proved against the JSON escaping rules.

use vstd::prelude::*;
use vstd::string::StringExecFns;
use crate::strutil::push_char;

verus! {

#[verifier::external_type_specification]
#[verifier::external_body]
pub struct ExValue(serde_json::Value);

#[verifier::external_type_specification]
#[verifier::external_body]
pub struct ExJsonError(serde_json::Error);

/// The six shapes a JSON value can have.
#[derive(Clone, Copy, Debug, PartialEq, Eq, Structural)]
pub enum JsonKind {
    Null,
    Boolean,
    Number,
    Text,
    Array,
    Object,
}

/// Relies on `serde_json::from_str`: parse a JSON document.
#[verifier::external_body]
pub fn json_parse(s: &str) -> (r: Result<serde_json::Value, serde_json::Error>) {
    serde_json::from_str(s)
}

/// Relies on serde_json's `Display` for its error: the rendered
/// parse-failure message.
#[verifier::external_body]
pub fn json_error_message(e: &serde_json::Error) -> (r: String) {
    e.to_string()
}

/// Relies on `serde_json::Value::get`: the value under a key of an
/// object, or nothing for other shapes and absent keys.
#[verifier::external_body]
pub fn json_get<'a>(v: &'a serde_json::Value, key: &str) -> (r: Option<&'a serde_json::Value>) {
    v.get(key)
}

/// Relies on `serde_json::Value::as_str`: the owned text of a JSON
/// string value, or nothing for other shapes.
#[verifier::external_body]
pub fn json_as_str(v: &serde_json::Value) -> (r: Option<String>) {
    v.as_str().map(|s| s.to_owned())
}

/// Relies on the shape of `serde_json::Value`: one arm per variant.
#[verifier::external_body]
pub fn json_kind(v: &serde_json::Value) -> (r: JsonKind) {
    match v {
        serde_json::Value::Null => JsonKind::Null,
        serde_json::Value::Bool(_) => JsonKind::Boolean,
        serde_json::Value::Number(_) => JsonKind::Number,
        serde_json::Value::String(_) => JsonKind::Text,
        serde_json::Value::Array(_) => JsonKind::Array,
        serde_json::Value::Object(_) => JsonKind::Object,
    }
}

/// Relies on `serde_json::Map::keys`: the keys of an object value, in
/// the map's order, or nothing for other shapes.
#[verifier::external_body]
pub fn json_object_keys(v: &serde_json::Value) -> (r: Option<Vec<String>>) {
    match v {
        serde_json::Value::Object(m) => Some(m.keys().cloned().collect()),
        _ => None,
    }
}

/// Relies on the shape of `serde_json::Value` and on slice indexing:
/// the element of an array value, or nothing.
#[verifier::external_body]
pub fn json_array_get<'a>(v: &'a serde_json::Value, i: usize) -> (r: Option<
    &'a serde_json::Value,
>) {
    match v {
        serde_json::Value::Array(a) => a.get(i),
        _ => None,
    }
}

/// Relies on `serde_json::to_string`: the minified text of a value.
#[verifier::external_body]
pub fn json_to_string(v: &serde_json::Value) -> (r: Result<String, serde_json::Error>) {
    serde_json::to_string(v)
}

/// Relies on `serde_json::to_string_pretty`: the indented text of a
/// value.
#[verifier::external_body]
pub fn json_to_string_pretty(v: &serde_json::Value) -> (r: Result<String, serde_json::Error>) {
    serde_json::to_string_pretty(v)
}

/// The lowercase hexadecimal digit of a value below sixteen.
pub open spec fn hex_digit(n: int) -> char {
    if n == 0 {
        '0'
    } else if n == 1 {
        '1'
    } else if n == 2 {
        '2'
    } else if n == 3 {
        '3'
    } else if n == 4 {
        '4'
    } else if n == 5 {
        '5'
    } else if n == 6 {
        '6'
    } else if n == 7 {
        '7'
    } else if n == 8 {
        '8'
    } else if n == 9 {
        '9'
    } else if n == 10 {
        'a'
    } else if n == 11 {
        'b'
    } else if n == 12 {
        'c'
    } else if n == 13 {
        'd'
    } else if n == 14 {
        'e'
    } else {
        'f'
    }
}

/// How one character reads inside a JSON string literal: quote and
/// backslash are escaped, the five short control escapes are used
/// where they exist, other control characters take the \u00 form, and
/// everything else stands as itself.
pub open spec fn json_escaped_char(c: char) -> Seq<char> {
    if c == '"' {
        seq!['\\', '"']
    } else if c == '\\' {
        seq!['\\', '\\']
    } else if c == '\u{8}' {
        seq!['\\', 'b']
    } else if c == '\t' {
        seq!['\\', 't']
    } else if c == '\n' {
        seq!['\\', 'n']
    } else if c == '\u{c}' {
        seq!['\\', 'f']
    } else if c == '\r' {
        seq!['\\', 'r']
    } else if (c as u32) < 32 {
        seq!['\\', 'u', '0', '0', hex_digit((c as u32 / 16) as int), hex_digit(
            (c as u32 % 16) as int,
        )]
    } else {
        seq![c]
    }
}

/// A character sequence escaped for a JSON string literal.
pub open spec fn json_escaped(s: Seq<char>) -> Seq<char>
    decreases s.len(),
{
    if s.len() == 0 {
        Seq::empty()
    } else {
        json_escaped(s.drop_last()) + json_escaped_char(s.last())
    }
}

/// A JSON string literal: the escaped characters between quotes.
pub open spec fn json_quoted(s: Seq<char>) -> Seq<char> {
    seq!['"'] + json_escaped(s) + seq!['"']
}

/// A JSON array of string literals, as serde_json minifies it.
pub open spec fn json_string_array_text(items: Seq<Seq<char>>) -> Seq<char>
    decreases items.len(),
{
    if items.len() == 0 {
        seq!['[', ']']
    } else if items.len() == 1 {
        seq!['['] + json_quoted(items[0]) + seq![']']
    } else {
        json_string_array_text(items.drop_last()).drop_last() + seq![','] + json_quoted(
            items.last(),
        ) + seq![']']
    }
}

/// Append the escaped reading of one character.
fn push_escaped(out: &mut String, c: char)
    ensures
        final(out)@ == old(out)@ + json_escaped_char(c),
{
    let u = c as u32;
    if c == '"' {
        push_char(out, '\\');
        push_char(out, '"');
    } else if c == '\\' {
        push_char(out, '\\');
        push_char(out, '\\');
    } else if u == 8 {
        push_char(out, '\\');
        push_char(out, 'b');
    } else if u == 9 {
        push_char(out, '\\');
        push_char(out, 't');
    } else if u == 10 {
        push_char(out, '\\');
        push_char(out, 'n');
    } else if u == 12 {
        push_char(out, '\\');
        push_char(out, 'f');
    } else if u == 13 {
        push_char(out, '\\');
        push_char(out, 'r');
    } else if u < 32 {
        push_char(out, '\\');
        push_char(out, 'u');
        push_char(out, '0');
        push_char(out, '0');
        push_char(out, hex_digit_exec(u / 16));
        push_char(out, hex_digit_exec(u % 16));
    } else {
        push_char(out, c);
    }
    proof {
        assert(final(out)@ =~= old(out)@ + json_escaped_char(c));
    }
}

/// The lowercase hexadecimal digit of a value below sixteen.
fn hex_digit_exec(n: u32) -> (r: char)
    requires
        n < 16,
    ensures
        r == hex_digit(n as int),
{
    if n == 0 {
        '0'
    } else if n == 1 {
        '1'
    } else if n == 2 {
        '2'
    } else if n == 3 {
        '3'
    } else if n == 4 {
        '4'
    } else if n == 5 {
        '5'
    } else if n == 6 {
        '6'
    } else if n == 7 {
        '7'
    } else if n == 8 {
        '8'
    } else if n == 9 {
        '9'
    } else if n == 10 {
        'a'
    } else if n == 11 {
        'b'
    } else if n == 12 {
        'c'
    } else if n == 13 {
        'd'
    } else if n == 14 {
        'e'
    } else {
        'f'
    }
}

/// Write a string as a JSON string literal, with serde_json's
/// escaping.
pub fn json_quote(s: &str) -> (r: String)
    ensures
        r@ == json_quoted(s@),
{
    let n = s.unicode_len();
    let mut out = String::new();
    push_char(&mut out, '"');
    let mut i: usize = 0;
    while i < n
        invariant
            i <= n,
            n == s@.len(),
            out@ == seq!['"'] + json_escaped(s@.subrange(0, i as int)),
        decreases n - i,
    {
        let ghost pre = s@.subrange(0, i as int);
        let ghost cur = s@.subrange(0, i + 1 as int);
        proof {
            assert(cur.drop_last() =~= pre);
            assert(cur.last() == s@[i as int]);
        }
        push_escaped(&mut out, s.get_char(i));
        i = i + 1;
        proof {
            assert(out@ =~= seq!['"'] + json_escaped(cur));
        }
    }
    push_char(&mut out, '"');
    proof {
        assert(s@.subrange(0, n as int) =~= s@);
        assert(out@ =~= json_quoted(s@));
    }
    out
}

/// Write a list of strings as a JSON array of string literals, as
/// serde_json would minify it.
pub fn json_string_array(items: &Vec<String>) -> (r: String)
    ensures
        r@ == json_string_array_text(items.deep_view()),
{
    if items.len() == 0 {
        let mut out = String::new();
        push_char(&mut out, '[');
        push_char(&mut out, ']');
        proof {
            assert(items.deep_view().len() == 0);
            assert(out@ =~= json_string_array_text(items.deep_view()));
        }
        return out;
    }
    let mut out = String::new();
    push_char(&mut out, '[');
    let mut i: usize = 0;
    while i < items.len()
        invariant
            items@.len() > 0,
            i <= items@.len(),
            items.deep_view().len() == items@.len(),
            forall|j: int| 0 <= j < items@.len() ==> items.deep_view()[j] == items@[j]@,
            i == 0 ==> out@ == seq!['['],
            i > 0 ==> out@ == json_string_array_text(
                items.deep_view().subrange(0, i as int),
            ).drop_last(),
        decreases items@.len() - i,
    {
        let ghost pre = items.deep_view().subrange(0, i as int);
        let ghost cur = items.deep_view().subrange(0, i + 1 as int);
        proof {
            assert(cur.drop_last() =~= pre);
            assert(cur.last() == items.deep_view()[i as int]);
            if i > 0 && pre.len() == 1 {
                assert(json_string_array_text(pre) == seq!['['] + json_quoted(pre[0]) + seq![
                    ']',
                ]);
            }
        }
        if i > 0 {
            push_char(&mut out, ',');
        }
        let quoted = json_quote(items[i].as_str());
        let out2 = out.concat(quoted.as_str());
        out = out2;
        i = i + 1;
        proof {
            if i == 1 {
                assert(out@ =~= (seq!['['] + json_quoted(cur[0]) + seq![']']).drop_last());
            } else {
                assert(out@ =~= (json_string_array_text(pre).drop_last() + seq![',']
                    + json_quoted(cur.last()) + seq![']']).drop_last());
                assert(out@ =~= json_string_array_text(cur).drop_last());
            }
        }
    }
    let ghost full = items.deep_view();
    push_char(&mut out, ']');
    proof {
        assert(full.subrange(0, full.len() as int) =~= full);
        assert(out@ =~= json_string_array_text(full).drop_last().push(']'));
        assert(json_string_array_text(full).len() > 0 && json_string_array_text(full).last()
            == ']') by {
            lemma_array_text_shape(full);
        }
        assert(out@ =~= json_string_array_text(full));
    }
    out
}

/// A string-array text is nonempty and closes with a bracket.
proof fn lemma_array_text_shape(items: Seq<Seq<char>>)
    ensures
        json_string_array_text(items).len() > 0,
        json_string_array_text(items).last() == ']',
    decreases items.len(),
{
    if items.len() > 1 {
        lemma_array_text_shape(items.drop_last());
    }
}

} // verus!
