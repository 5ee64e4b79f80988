//! JSON text, as serde_json writes and reads it.

use crate::crypto::hex_digit;
use crate::text::{decimal, decimal_text, opt_text, text_rows, texts};
use vstd::prelude::*;
use vstd::string::*;

verus! {

/// What stands for one character inside a JSON string.
pub open spec fn json_char(c: char) -> Seq<char> {
    if c == '"' {
        seq!['\\', '"']
    } else if c == '\\' {
        seq!['\\', '\\']
    } else if c == '\u{8}' {
        seq!['\\', 'b']
    } else if c == '\t' {
        seq!['\\', 't']
    } else if c == '\n' {
        seq!['\\', 'n']
    } else if c == '\u{c}' {
        seq!['\\', 'f']
    } else if c == '\r' {
        seq!['\\', 'r']
    } else if !(c >= ' ') {
        seq!['\\', 'u', '0', '0', hex_digit(c as int / 16), hex_digit(c as int % 16)]
    } else {
        seq![c]
    }
}

/// What stands for a text inside a JSON string.
pub open spec fn json_chars(s: Seq<char>) -> Seq<char>
    decreases s.len(),
{
    if s.len() == 0 {
        Seq::empty()
    } else {
        json_char(s[0]) + json_chars(s.drop_first())
    }
}

/// The JSON string literal of a text.
#[verifier::opaque]
pub open spec fn json_string(s: Seq<char>) -> Seq<char> {
    seq!['"'] + json_chars(s) + seq!['"']
}

/// `serde_json::to_string` of a string: in quotes, with the quote, the backslash and
/// the control characters below the blank escaped and nothing else. Writing a string
/// to memory cannot fail.
#[verifier::external_body]
pub(crate) fn quote(s: &str) -> (r: String)
    ensures
        r@ == json_string(s@),
{
    serde_json::to_string(s).expect("a string is always JSON")
}

/// Whether some quote in a text is not escaped.
pub open spec fn has_bare_quote(t: Seq<char>) -> bool
    decreases t.len(),
{
    if t.len() == 0 {
        false
    } else if t[0] == '\\' {
        t.len() > 1 && has_bare_quote(t.skip(2))
    } else {
        t[0] == '"' || has_bare_quote(t.skip(1))
    }
}

proof fn control_digits(c: char)
    requires
        !(c >= ' '),
    ensures
        hex_digit(c as int / 16) != '"' && hex_digit(c as int / 16) != '\\',
        hex_digit(c as int % 16) != '"' && hex_digit(c as int % 16) != '\\',
{
    let n = c as int;
    assert(0 <= n < 32);
    assert(0 <= n / 16 < 2 && 0 <= n % 16 < 16);
    assert(hex_digit(n / 16) as int == 48 + n / 16);
    assert(hex_digit(n % 16) as int == 48 + n % 16 || hex_digit(n % 16) as int == 87 + n % 16);
}

/// Nothing in a text can end the literal it stands in: between the two quotes of a
/// JSON string no quote is bare.
pub proof fn a_literal_stays_closed(s: Seq<char>)
    ensures
        !has_bare_quote(json_chars(s)),
    decreases s.len(),
{
    if s.len() > 0 {
        let c = s[0];
        let rest = json_chars(s.drop_first());
        a_literal_stays_closed(s.drop_first());
        let all = json_char(c) + rest;
        if json_char(c).len() == 1 {
            assert(all.skip(1) =~= rest);
        } else if json_char(c).len() == 2 {
            assert(all.skip(2) =~= rest);
        } else {
            let tail = all.skip(2);
            assert(tail.skip(1).skip(1).skip(1).skip(1) =~= rest);
            assert(tail[0] == '0' && tail.skip(1)[0] == '0');
            let x = hex_digit(c as int / 16);
            let y = hex_digit(c as int % 16);
            assert(tail.skip(1).skip(1)[0] == x && tail.skip(1).skip(1).skip(1)[0] == y);
            assert(!(c >= ' '));
            control_digits(c);
            reveal_with_fuel(has_bare_quote, 6);
        }
    }
}

/// Whether a character stands for itself inside a JSON string.
pub open spec fn is_plain(c: char) -> bool {
    c != '"' && c != '\\' && c >= ' '
}

/// A text of plain characters stands for itself.
pub proof fn plain_is_itself(s: Seq<char>)
    requires
        forall|i: int| 0 <= i < s.len() ==> is_plain(#[trigger] s[i]),
    ensures
        json_chars(s) == s,
    decreases s.len(),
{
    if s.len() > 0 {
        let rest = s.drop_first();
        assert forall|i: int| 0 <= i < rest.len() implies is_plain(#[trigger] rest[i]) by {
            assert(rest[i] == s[i + 1]);
        }
        plain_is_itself(rest);
        assert(is_plain(s[0]));
        assert(json_char(s[0]) =~= seq![s[0]]);
        assert(json_chars(s) =~= s);
    } else {
        assert(json_chars(s) =~= s);
    }
}

/// The text of an object's member, when a text is a JSON object that has it as a
/// string.
pub uninterp spec fn json_member_str(json: Seq<char>, key: Seq<char>) -> Option<Seq<char>>;

/// Whether a text holds characters that stand for themselves inside a JSON string,
/// and no others.
pub open spec fn all_plain(s: Seq<char>) -> bool {
    forall|i: int| 0 <= i < s.len() ==> is_plain(#[trigger] s[i])
}

/// The object of one string under one name.
pub open spec fn json_single(key: Seq<char>, value: Seq<char>) -> Seq<char> {
    json_object(seq![(key, json_string(value))])
}

/// `serde_json::from_str` to a value, `Value::get` by key, and `Value::as_str`. In an
/// object of a single string, that string stands under its name and nothing under
/// another.
#[verifier::external_body]
pub(crate) fn member_str(json: &str, key: &str) -> (r: Option<String>)
    ensures
        opt_text(r) == json_member_str(json@, key@),
        forall|k: Seq<char>, v: Seq<char>| #[trigger]
            json_single(k, v) == json@ && all_plain(k) ==> opt_text(r) == if k == key@ {
                Some(v)
            } else {
                None
            },
{
    let value = serde_json::from_str::<serde_json::Value>(json).ok()?;
    Some(value.get(key)?.as_str()?.to_string())
}

/// A flag of an object, when a text is a JSON object that has it as a boolean.
pub uninterp spec fn json_member_bool(json: Seq<char>, key: Seq<char>) -> Option<bool>;

/// `serde_json::from_str` to a value, `Value::get` by key, and `Value::as_bool`.
#[verifier::external_body]
pub(crate) fn member_bool(json: &str, key: &str) -> (r: Option<bool>)
    ensures
        r == json_member_bool(json@, key@),
{
    serde_json::from_str::<serde_json::Value>(json).ok()?.get(key)?.as_bool()
}

/// An array's item at an index, when a text is a JSON array that has a string
/// there.
pub uninterp spec fn json_item_str(json: Seq<char>, index: nat) -> Option<Seq<char>>;

/// `serde_json::from_str` to a value, `Value::get` by index, and `Value::as_str`.
#[verifier::external_body]
pub(crate) fn item_str(json: &str, index: usize) -> (r: Option<String>)
    ensures
        opt_text(r) == json_item_str(json@, index as nat),
{
    let value = serde_json::from_str::<serde_json::Value>(json).ok()?;
    Some(value.get(index)?.as_str()?.to_string())
}

/// An array's item at an index, when a text is a JSON array that has a boolean
/// there.
pub uninterp spec fn json_item_bool(json: Seq<char>, index: nat) -> Option<bool>;

/// `serde_json::from_str` to a value, `Value::get` by index, and `Value::as_bool`.
#[verifier::external_body]
pub(crate) fn item_bool(json: &str, index: usize) -> (r: Option<bool>)
    ensures
        r == json_item_bool(json@, index as nat),
{
    serde_json::from_str::<serde_json::Value>(json).ok()?.get(index)?.as_bool()
}

/// The JSON text of an array's item at an index.
pub uninterp spec fn json_item_text(json: Seq<char>, index: nat) -> Option<Seq<char>>;

/// `serde_json::from_str` to a value, `Value::get` by index, and the item written
/// again.
#[verifier::external_body]
pub(crate) fn item_text(json: &str, index: usize) -> (r: Option<String>)
    ensures
        opt_text(r) == json_item_text(json@, index as nat),
{
    Some(serde_json::from_str::<serde_json::Value>(json).ok()?.get(index)?.to_string())
}

/// The text at a place in a JSON document, where there is one.
pub uninterp spec fn json_at_str(body: Seq<u8>, pointer: Seq<char>) -> Option<Seq<char>>;

/// `serde_json::from_slice` to a value, `Value::pointer`, and `Value::as_str`.
#[verifier::external_body]
pub(crate) fn pointer_str(body: &[u8], pointer: &str) -> (r: Option<String>)
    ensures
        opt_text(r) == json_at_str(body@, pointer@),
{
    let value = serde_json::from_slice::<serde_json::Value>(body).ok()?;
    Some(value.pointer(pointer)?.as_str()?.to_string())
}

/// The whole number at a place in a JSON document, where there is one.
pub uninterp spec fn json_at_int(body: Seq<u8>, pointer: Seq<char>) -> Option<i64>;

/// `serde_json::from_slice` to a value, `Value::pointer`, and `Value::as_i64`.
#[verifier::external_body]
pub(crate) fn pointer_int(body: &[u8], pointer: &str) -> (r: Option<i64>)
    ensures
        r == json_at_int(body@, pointer@),
{
    serde_json::from_slice::<serde_json::Value>(body).ok()?.pointer(pointer)?.as_i64()
}

/// The JSON text of what stands at a place in a JSON document.
pub uninterp spec fn json_at_text(body: Seq<u8>, pointer: Seq<char>) -> Option<Seq<char>>;

/// `serde_json::from_slice` to a value, `Value::pointer`, and what is there written
/// again. The empty place is the whole document.
#[verifier::external_body]
pub(crate) fn pointer_text(body: &[u8], pointer: &str) -> (r: Option<String>)
    ensures
        opt_text(r) == json_at_text(body@, pointer@),
{
    let value = serde_json::from_slice::<serde_json::Value>(body).ok()?;
    Some(value.pointer(pointer)?.to_string())
}

/// One member of a JSON object: its quoted name, a colon and its value's text.
pub open spec fn json_member(field: (Seq<char>, Seq<char>)) -> Seq<char> {
    "\""@ + field.0 + "\":"@ + field.1
}

/// The first `n` members, with commas between them.
pub open spec fn json_members(fields: Seq<(Seq<char>, Seq<char>)>, n: int) -> Seq<char>
    decreases n,
{
    if n <= 0 {
        Seq::empty()
    } else if n == 1 {
        json_member(fields[0])
    } else {
        json_members(fields, n - 1) + ","@ + json_member(fields[n - 1])
    }
}

/// A JSON object of members in the given order. The names need no escaping.
pub open spec fn json_object(fields: Seq<(Seq<char>, Seq<char>)>) -> Seq<char> {
    "{"@ + json_members(fields, fields.len() as int) + "}"@
}

/// The views of named texts.
pub open spec fn field_views(fields: Seq<(&str, String)>) -> Seq<(Seq<char>, Seq<char>)> {
    fields.map_values(|f: (&str, String)| (f.0@, f.1@))
}

/// Writes a JSON object out of named texts.
pub fn object(fields: &Vec<(&str, String)>) -> (r: String)
    ensures
        r@ == json_object(field_views(fields@)),
{
    let ghost views = field_views(fields@);
    let mut out: String = "{".to_owned();
    let ghost before = out@;
    let mut i: usize = 0;
    while i < fields.len()
        invariant
            i <= fields@.len(),
            views == field_views(fields@),
            out@ =~= before + json_members(views, i as int),
        decreases fields@.len() - i,
    {
        if i > 0 {
            out.append(",");
        }
        out.append("\"");
        out.append(fields[i].0);
        out.append("\":");
        out.append(fields[i].1.as_str());
        i = i + 1;
        assert(views[i - 1] == (fields@[i - 1].0@, fields@[i - 1].1@));
    }
    out.append("}");
    out
}

/// The first `n` texts of a list, with commas between them.
pub open spec fn comma_joined(items: Seq<Seq<char>>, n: int) -> Seq<char>
    decreases n,
{
    if n <= 0 {
        Seq::empty()
    } else if n == 1 {
        items[0]
    } else {
        comma_joined(items, n - 1) + ","@ + items[n - 1]
    }
}

/// A JSON array of texts that are JSON already.
pub open spec fn json_array(items: Seq<Seq<char>>) -> Seq<char> {
    "["@ + comma_joined(items, items.len() as int) + "]"@
}

/// Writes a JSON array out of texts that are JSON already.
pub fn array(items: &Vec<String>) -> (r: String)
    ensures
        r@ == json_array(texts(items@)),
{
    let ghost views = texts(items@);
    let mut out: String = "[".to_owned();
    let ghost before = out@;
    let mut i: usize = 0;
    while i < items.len()
        invariant
            i <= items@.len(),
            views == texts(items@),
            out@ =~= before + comma_joined(views, i as int),
        decreases items@.len() - i,
    {
        if i > 0 {
            out.append(",");
        }
        out.append(items[i].as_str());
        i = i + 1;
    }
    out.append("]");
    out
}

/// The JSON array of a list of strings.
pub open spec fn json_strings(items: Seq<Seq<char>>) -> Seq<char> {
    json_array(items.map_values(|s: Seq<char>| json_string(s)))
}

/// Writes a JSON array of strings.
pub fn strings_text(items: &Vec<String>) -> (r: String)
    ensures
        r@ == json_strings(texts(items@)),
{
    let mut quoted: Vec<String> = Vec::new();
    let mut i: usize = 0;
    while i < items.len()
        invariant
            i <= items@.len(),
            quoted@.len() == i,
            forall|j: int| 0 <= j < i ==> (#[trigger] quoted@[j])@ == json_string(items@[j]@),
        decreases items@.len() - i,
    {
        quoted.push(quote(items[i].as_str()));
        i = i + 1;
    }
    assert(texts(quoted@) =~= texts(items@).map_values(|s: Seq<char>| json_string(s)));
    array(&quoted)
}

/// The JSON array of a list of numbers.
pub open spec fn json_numbers(items: Seq<u16>) -> Seq<char> {
    json_array(items.map_values(|n: u16| decimal(n as nat)))
}

/// Writes a JSON array of numbers.
pub fn numbers_text(items: &Vec<u16>) -> (r: String)
    ensures
        r@ == json_numbers(items@),
{
    let mut digits: Vec<String> = Vec::new();
    let mut i: usize = 0;
    while i < items.len()
        invariant
            i <= items@.len(),
            digits@.len() == i,
            forall|j: int| 0 <= j < i ==> (#[trigger] digits@[j])@ == decimal(items@[j] as nat),
        decreases items@.len() - i,
    {
        digits.push(decimal_text(items[i] as u64));
        i = i + 1;
    }
    assert(texts(digits@) =~= items@.map_values(|n: u16| decimal(n as nat)));
    array(&digits)
}

/// The JSON array of arrays of strings of some rows.
#[verifier::opaque]
pub open spec fn json_rows(rows: Seq<Seq<Seq<char>>>) -> Seq<char> {
    json_array(rows.map_values(|row: Seq<Seq<char>>| json_strings(row)))
}

/// Writes a JSON array of arrays of strings.
pub fn rows_text(rows: &Vec<Vec<String>>) -> (r: String)
    ensures
        r@ == json_rows(text_rows(rows@)),
{
    let mut lines: Vec<String> = Vec::new();
    let mut i: usize = 0;
    while i < rows.len()
        invariant
            i <= rows@.len(),
            lines@.len() == i,
            forall|j: int|
                0 <= j < i ==> (#[trigger] lines@[j])@ == json_strings(texts(rows@[j]@)),
        decreases rows@.len() - i,
    {
        lines.push(strings_text(&rows[i]));
        i = i + 1;
    }
    proof {
        reveal(json_rows);
    }
    assert(texts(lines@) =~= text_rows(rows@).map_values(
        |row: Seq<Seq<char>>| json_strings(row),
    ));
    array(&lines)
}

} // verus!
