//! JSON values as the library reads them (parsed by serde_json), field
//! lookup in them, and their compact text as serde_json writes it.
use vstd::prelude::*;
use crate::text::{chars_of, str_eq, string_of};

verus! {

/// A JSON value. Numbers are kept as the text serde_json displays for them;
/// an object keeps its members in serde_json's order, each key once.
pub enum JsonValue {
    Null,
    Bool(bool),
    Number(String),
    Str(String),
    Array(Vec<JsonValue>),
    Object(Vec<(String, JsonValue)>),
}

// ---------------------------------------------------------------------------
// Compact text
// ---------------------------------------------------------------------------

/// A lower-case hexadecimal digit.
pub open spec fn hex_digit(d: nat) -> char {
    if d < 10 {
        (d + 48) as char
    } else {
        (d + 87) as char
    }
}

/// How serde_json writes one character inside a string literal: quote and
/// backslash escaped with a backslash, backspace, tab, line feed, form feed
/// and carriage return as `\b \t \n \f \r`, other characters below `0x20`
/// as `\u00` and two lower-case hex digits, everything else as itself.
pub open spec fn escape_char(c: char) -> Seq<char> {
    if c == '"' {
        seq!['\\', '"']
    } else if c == '\\' {
        seq!['\\', '\\']
    } else if c == '\x08' {
        seq!['\\', 'b']
    } else if c == '\t' {
        seq!['\\', 't']
    } else if c == '\n' {
        seq!['\\', 'n']
    } else if c == '\x0c' {
        seq!['\\', 'f']
    } else if c == '\r' {
        seq!['\\', 'r']
    } else if (c as u32) < 0x20 {
        seq!['\\', 'u', '0', '0', hex_digit((c as u32) as nat / 16), hex_digit((c as u32) as nat % 16)]
    } else {
        seq![c]
    }
}

/// The escaped characters of a string.
pub open spec fn escaped(s: Seq<char>) -> Seq<char>
    decreases s.len(),
{
    if s.len() == 0 {
        Seq::empty()
    } else {
        escaped(s.drop_last()) + escape_char(s.last())
    }
}

/// A JSON string literal.
pub open spec fn quoted(s: Seq<char>) -> Seq<char> {
    seq!['"'] + escaped(s) + seq!['"']
}

/// The compact text of a value, as serde_json's `to_string` writes it.
pub open spec fn json_text(v: JsonValue) -> Seq<char>
    decreases v,
{
    match v {
        JsonValue::Null => seq!['n', 'u', 'l', 'l'],
        JsonValue::Bool(b) => if b {
            seq!['t', 'r', 'u', 'e']
        } else {
            seq!['f', 'a', 'l', 's', 'e']
        },
        JsonValue::Number(t) => t@,
        JsonValue::Str(s) => quoted(s@),
        JsonValue::Array(items) => seq!['['] + items_text(items@) + seq![']'],
        JsonValue::Object(members) => seq!['{'] + members_text(members@) + seq!['}'],
    }
}

/// Array elements, separated by commas.
pub open spec fn items_text(items: Seq<JsonValue>) -> Seq<char>
    decreases items,
{
    if items.len() == 0 {
        Seq::empty()
    } else {
        let before = items_text(items.drop_last());
        (if items.len() == 1 {
            before
        } else {
            before + seq![',']
        }) + json_text(items.last())
    }
}

/// Object members as `"key":value`, separated by commas.
pub open spec fn members_text(members: Seq<(String, JsonValue)>) -> Seq<char>
    decreases members,
{
    if members.len() == 0 {
        Seq::empty()
    } else {
        let before = members_text(members.drop_last());
        (if members.len() == 1 {
            before
        } else {
            before + seq![',']
        }) + quoted(members.last().0@) + seq![':'] + json_text(members.last().1)
    }
}

spec fn byte_char(b: u8) -> char {
    b as char
}

/// Strings as the elements of a JSON array: their literals separated by
/// commas.
pub open spec fn quoted_list(items: Seq<Seq<char>>) -> Seq<char>
    decreases items.len(),
{
    if items.len() == 0 {
        Seq::empty()
    } else {
        let before = quoted_list(items.drop_last());
        (if items.len() == 1 {
            before
        } else {
            before + seq![',']
        }) + quoted(items.last())
    }
}

fn hex_char(d: u32) -> (c: char)
    requires
        d < 16,
    ensures
        c == hex_digit(d as nat),
{
    if d < 10 {
        ((d + 48) as u8) as char
    } else {
        ((d + 87) as u8) as char
    }
}

fn push_all(out: &mut Vec<char>, s: &[char])
    ensures
        final(out)@ == old(out)@ + s@,
{
    let mut i: usize = 0;
    while i < s.len()
        invariant
            i <= s@.len(),
            out@ == old(out)@ + s@.take(i as int),
        decreases s@.len() - i,
    {
        out.push(s[i]);
        i = i + 1;
        assert(s@.take(i as int) == s@.take((i - 1) as int).push(s@[i - 1]));
    }
    assert(s@.take(s@.len() as int) == s@);
}

/// Appends the escaped characters of `s`.
fn write_escaped(out: &mut Vec<char>, s: &str)
    ensures
        final(out)@ == old(out)@ + escaped(s@),
{
    let cs = chars_of(s);
    let mut i: usize = 0;
    while i < cs.len()
        invariant
            i <= cs@.len(),
            cs@ == s@,
            out@ == old(out)@ + escaped(cs@.take(i as int)),
        decreases cs@.len() - i,
    {
        let c = cs[i];
        let ghost before = out@;
        if c == '"' {
            push_all(out, &['\\', '"']);
        } else if c == '\\' {
            push_all(out, &['\\', '\\']);
        } else if c == '\x08' {
            push_all(out, &['\\', 'b']);
        } else if c == '\t' {
            push_all(out, &['\\', 't']);
        } else if c == '\n' {
            push_all(out, &['\\', 'n']);
        } else if c == '\x0c' {
            push_all(out, &['\\', 'f']);
        } else if c == '\r' {
            push_all(out, &['\\', 'r']);
        } else if (c as u32) < 0x20 {
            let code = c as u32;
            let hi = hex_char(code / 16);
            let lo = hex_char(code % 16);
            push_all(out, &['\\', 'u', '0', '0', hi, lo]);
        } else {
            out.push(c);
        }
        assert(out@ == before + escape_char(c));
        assert(cs@.take((i + 1) as int).drop_last() == cs@.take(i as int));
        assert(cs@.take((i + 1) as int).last() == c);
        i = i + 1;
    }
    assert(cs@.take(cs@.len() as int) == cs@);
}

/// Appends the compact text of a value.
fn write_json(out: &mut Vec<char>, v: &JsonValue)
    ensures
        final(out)@ == old(out)@ + json_text(*v),
    decreases v,
{
    match v {
        JsonValue::Null => push_all(out, &['n', 'u', 'l', 'l']),
        JsonValue::Bool(b) => {
            if *b {
                push_all(out, &['t', 'r', 'u', 'e']);
            } else {
                push_all(out, &['f', 'a', 'l', 's', 'e']);
            }
        },
        JsonValue::Number(t) => {
            let cs = chars_of(t.as_str());
            push_all(out, cs.as_slice());
        },
        JsonValue::Str(s) => {
            out.push('"');
            write_escaped(out, s.as_str());
            out.push('"');
        },
        JsonValue::Array(items) => {
            let ghost start = out@;
            out.push('[');
            let mut i: usize = 0;
            while i < items.len()
                invariant
                    i <= items@.len(),
                    out@ == start + seq!['['] + items_text(items@.take(i as int)),
                    *v == JsonValue::Array(*items),
                decreases items@.len() - i,
            {
                let ghost mid = out@;
                if i > 0 {
                    out.push(',');
                }
                proof {
                    assert(decreases_to!(*v => (*v)->Array_0));
                    assert((*v)->Array_0 == *items);
                    assert(decreases_to!(*items => items@));
                    assert(decreases_to!(items@ => items@[i as int]));
                }
                write_json(out, &items[i]);
                let ghost t = items@.take((i + 1) as int);
                assert(t.drop_last() == items@.take(i as int));
                assert(t.last() == items@[i as int]);
                i = i + 1;
            }
            assert(items@.take(items@.len() as int) == items@);
            out.push(']');
        },
        JsonValue::Object(members) => {
            let ghost start = out@;
            out.push('{');
            let mut i: usize = 0;
            while i < members.len()
                invariant
                    i <= members@.len(),
                    out@ == start + seq!['{'] + members_text(members@.take(i as int)),
                    *v == JsonValue::Object(*members),
                decreases members@.len() - i,
            {
                if i > 0 {
                    out.push(',');
                }
                let (key, value) = &members[i];
                out.push('"');
                write_escaped(out, key.as_str());
                out.push('"');
                out.push(':');
                proof {
                    assert(decreases_to!(*v => (*v)->Object_0));
                    assert((*v)->Object_0 == *members);
                    assert(decreases_to!(*members => members@));
                    assert(decreases_to!(members@ => members@[i as int]));
                    assert(decreases_to!(members@[i as int] => members@[i as int].1));
                }
                write_json(out, value);
                let ghost t = members@.take((i + 1) as int);
                assert(t.drop_last() == members@.take(i as int));
                assert(t.last() == members@[i as int]);
                i = i + 1;
            }
            assert(members@.take(members@.len() as int) == members@);
            out.push('}');
        },
    }
}

/// The compact text of a value, as `json_text` states it.
pub fn json_value_text(v: &JsonValue) -> (r: String)
    ensures
        r@ == json_text(*v),
{
    let mut out: Vec<char> = Vec::new();
    write_json(&mut out, v);
    assert(out@ == json_text(*v));
    string_of(&out)
}


// ---------------------------------------------------------------------------
// Reading
// ---------------------------------------------------------------------------

/// serde_json's value type.
#[verifier::external_type_specification]
#[verifier::external_body]
pub struct ExSerdeJsonValue(serde_json::Value);

/// What serde_json's `from_slice` reads from `bytes` as a value, taken
/// variant for variant as a library value; `None` when the bytes are not
/// JSON.
pub uninterp spec fn json_parse(bytes: Seq<u8>) -> Option<JsonValue>;

/// Parses JSON text with serde_json's `from_slice` into a `serde_json::Value`
/// and takes it as a library value. The contract claims only that the result
/// is a function of the bytes (`json_parse`); what serde_json accepts and how
/// it reads it is left to serde_json.
#[verifier::external_body]
pub(crate) fn parse_json(bytes: &[u8]) -> (r: Option<JsonValue>)
    ensures
        r == json_parse(bytes@),
{
    match serde_json::from_slice::<serde_json::Value>(bytes) {
        Ok(v) => Some(json_value_of(&v)),
        Err(_) => None,
    }
}

/// A `serde_json::Value` as a library value, variant for variant: a number
/// as its display text, an object's members in the map's order. Only
/// `parse_json` uses it, and `parse_json`'s contract covers it.
#[verifier::external_body]
fn json_value_of(v: &serde_json::Value) -> JsonValue {
    match v {
        serde_json::Value::Null => JsonValue::Null,
        serde_json::Value::Bool(b) => JsonValue::Bool(*b),
        serde_json::Value::Number(n) => JsonValue::Number(n.to_string()),
        serde_json::Value::String(t) => JsonValue::Str(t.clone()),
        serde_json::Value::Array(a) => JsonValue::Array(a.iter().map(json_value_of).collect()),
        serde_json::Value::Object(o) => JsonValue::Object(
            o.iter().map(|(k, x)| (k.clone(), json_value_of(x))).collect(),
        ),
    }
}

/// The value of the first member named `key`.
pub open spec fn member(members: Seq<(String, JsonValue)>, key: Seq<char>) -> Option<JsonValue>
    decreases members.len(),
{
    if members.len() == 0 {
        None
    } else if members[0].0@ == key {
        Some(members[0].1)
    } else {
        member(members.drop_first(), key)
    }
}

/// A field of an object (serde_json's `Value::get` with a key); `None` for
/// anything but an object.
pub open spec fn field(v: JsonValue, key: Seq<char>) -> Option<JsonValue> {
    match v {
        JsonValue::Object(members) => member(members@, key),
        _ => None,
    }
}

/// A field that holds a string, as text (`get` then `as_str`).
pub open spec fn str_field(v: JsonValue, key: Seq<char>) -> Option<Seq<char>> {
    match field(v, key) {
        Some(JsonValue::Str(t)) => Some(t@),
        _ => None,
    }
}

/// Looks a field up, as `field` states.
pub fn get_field<'a>(v: &'a JsonValue, key: &str) -> (r: Option<&'a JsonValue>)
    ensures
        match r {
            Some(x) => field(*v, key@) == Some(*x),
            None => field(*v, key@) is None,
        },
{
    match v {
        JsonValue::Object(members) => {
            let mut i: usize = 0;
            assert(members@.skip(0) =~= members@);
            while i < members.len()
                invariant
                    i <= members@.len(),
                    *v == JsonValue::Object(*members),
                    member(members@, key@) == member(members@.skip(i as int), key@),
                decreases members@.len() - i,
            {
                let (k, x) = &members[i];
                assert(members@.skip(i as int)[0] == members@[i as int]);
                assert(k@ == members@[i as int].0@ && *x == members@[i as int].1);
                if str_eq(k.as_str(), key) {
                    return Some(x);
                }
                assert(members@.skip(i as int).drop_first() == members@.skip(i + 1));
                i = i + 1;
            }
            assert(members@.skip(members@.len() as int).len() == 0);
            None
        },
        _ => None,
    }
}

/// Whether a field holds exactly the string `want`, as `str_field` states.
pub fn field_is_str(v: &JsonValue, key: &str, want: &str) -> (r: bool)
    ensures
        r == (str_field(*v, key@) == Some(want@)),
{
    match get_field(v, key) {
        Some(JsonValue::Str(t)) => str_eq(t.as_str(), want),
        _ => false,
    }
}

} // verus!
