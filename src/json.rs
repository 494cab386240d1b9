use vstd::prelude::*;

use crate::text::{signed_decimal, signed_decimal_text};
use crate::value::{
    group_value_models, json_entries_model, json_items_model, JsonModel, JsonNumber, JsonValue,
};

verus! {

broadcast use vstd::std_specs::vec::group_vec_axioms, vstd::seq::group_seq_axioms, group_value_models;

/// The lowercase hexadecimal digit for `d`, where `d < 16`.
pub open spec fn hex_digit(d: int) -> char {
    seq!['0', '1', '2', '3', '4', '5', '6', '7', '8', '9', 'a', 'b', 'c', 'd', 'e', 'f'][d]
}

/// How serde_json writes one character inside a string literal: `"` and `\`
/// behind a backslash, the short escapes for backspace, tab, line feed, form
/// feed and carriage return, any other control character as `\u00XX`, and
/// every other character as it is.
pub open spec fn escaped(c: char) -> Seq<char> {
    let n = c as u32 as int;
    if c == '"' {
        seq!['\\', '"']
    } else if c == '\\' {
        seq!['\\', '\\']
    } else if n == 8 {
        seq!['\\', 'b']
    } else if n == 9 {
        seq!['\\', 't']
    } else if n == 10 {
        seq!['\\', 'n']
    } else if n == 12 {
        seq!['\\', 'f']
    } else if n == 13 {
        seq!['\\', 'r']
    } else if n < 32 {
        seq!['\\', 'u', '0', '0', hex_digit(n / 16), hex_digit(n % 16)]
    } else {
        seq![c]
    }
}

/// The characters of `s`, each escaped.
pub open spec fn escaped_text(s: Seq<char>) -> Seq<char>
    decreases s.len(),
{
    if s.len() == 0 {
        Seq::empty()
    } else {
        escaped_text(s.drop_last()) + escaped(s.last())
    }
}

/// The quoted JSON string literal that serde_json writes for a string.
pub open spec fn json_quoted(s: Seq<char>) -> Seq<char> {
    seq!['"'] + escaped_text(s) + seq!['"']
}

/// Relies on `serde_json::to_string` on a `str`: a quote, each character
/// escaped by serde_json's table (`ser.rs`, `ESCAPE` and
/// `write_char_escape`), a quote. Writing into memory does not fail.
#[verifier::external_body]
fn quote(s: &str) -> (r: String)
    ensures
        r@ == json_quoted(s@),
{
    serde_json::to_string(s).unwrap_or_default()
}

/// The parts, with a comma between each two.
pub open spec fn comma_joined(parts: Seq<Seq<char>>) -> Seq<char>
    decreases parts.len(),
{
    if parts.len() == 0 {
        Seq::empty()
    } else if parts.len() == 1 {
        parts[0]
    } else {
        comma_joined(parts.drop_last()) + ","@ + parts.last()
    }
}

/// The texts of the items of an array.
pub open spec fn item_texts(items: Seq<JsonModel>) -> Seq<Seq<char>>
    decreases items,
{
    Seq::new(
        items.len(),
        |i: int|
            if 0 <= i < items.len() {
                json_text(items[i])
            } else {
                Seq::empty()
            },
    )
}

/// The texts of the members of an object: key, colon, value.
pub open spec fn member_texts(entries: Seq<(Seq<char>, JsonModel)>) -> Seq<Seq<char>>
    decreases entries,
{
    Seq::new(
        entries.len(),
        |i: int|
            if 0 <= i < entries.len() {
                json_quoted(entries[i].0) + ":"@ + json_text(entries[i].1)
            } else {
                Seq::empty()
            },
    )
}

/// The compact JSON text of a value: no whitespace, members in their order.
pub open spec fn json_text(v: JsonModel) -> Seq<char>
    decreases v,
{
    match v {
        JsonModel::String(s) => json_quoted(s),
        JsonModel::Integer(i) => signed_decimal(i),
        JsonModel::Float(t) => t,
        JsonModel::Bool(b) => if b {
            "true"@
        } else {
            "false"@
        },
        JsonModel::Array(items) => "["@ + comma_joined(item_texts(items)) + "]"@,
        JsonModel::Object(entries) => "{"@ + comma_joined(member_texts(entries)) + "}"@,
        JsonModel::Null => "null"@,
    }
}

/// Appending one more part to a comma-joined text.
pub proof fn lemma_comma_joined_push(parts: Seq<Seq<char>>, i: int)
    requires
        0 <= i < parts.len(),
    ensures
        comma_joined(parts.subrange(0, i + 1)) == if i == 0 {
            parts[0]
        } else {
            comma_joined(parts.subrange(0, i)) + ","@ + parts[i]
        },
{
    assert(parts.subrange(0, i + 1).drop_last() =~= parts.subrange(0, i));
}

/// Writes the compact JSON text of `value`.
pub fn to_json(value: &JsonValue) -> (r: String)
    ensures
        r@ == json_text(value@),
    decreases value,
{
    proof {
        reveal_strlit("true");
        reveal_strlit("false");
        reveal_strlit("null");
        reveal_strlit("[");
        reveal_strlit("]");
        reveal_strlit("{");
        reveal_strlit("}");
        reveal_strlit(",");
        reveal_strlit(":");
    }
    match value {
        JsonValue::String(s) => quote(s.as_str()),
        JsonValue::Number(JsonNumber::Integer(i)) => signed_decimal_text(*i),
        JsonValue::Number(JsonNumber::Float(t)) => t.clone(),
        JsonValue::Bool(b) => {
            let mut r = String::new();
            if *b {
                r.append("true");
            } else {
                r.append("false");
            }
            r
        },
        JsonValue::Null => {
            let mut r = String::new();
            r.append("null");
            r
        },
        JsonValue::Array(items) => {
            let texts = Ghost(item_texts(json_items_model(items)));
            assert(value@ == JsonModel::Array(json_items_model(items)));
            let mut r = String::new();
            r.append("[");
            let mut i: usize = 0;
            while i < items.len()
                invariant
                    *value is Array,
                    value->Array_0 == *items,
                    texts@ == item_texts(json_items_model(items)),
                    texts@.len() == items.len(),
                    i <= items.len(),
                    r@ == "["@ + comma_joined(texts@.subrange(0, i as int)),
                decreases items.len() - i,
            {
                proof {
                    assert(decreases_to!(*value => value->Array_0));
                    assert(decreases_to!(value->Array_0 => items[i as int]));
                    lemma_comma_joined_push(texts@, i as int);
                }
                let part = to_json(&items[i]);
                assert(part@ == texts@[i as int]);
                if i > 0 {
                    r.append(",");
                }
                r.append(part.as_str());
                i = i + 1;
                assert(r@ =~= "["@ + comma_joined(texts@.subrange(0, i as int)));
            }
            r.append("]");
            assert(texts@.subrange(0, i as int) =~= texts@);
            r
        },
        JsonValue::Object(entries) => {
            let texts = Ghost(member_texts(json_entries_model(entries)));
            assert(value@ == JsonModel::Object(json_entries_model(entries)));
            let mut r = String::new();
            r.append("{");
            let mut i: usize = 0;
            while i < entries.len()
                invariant
                    *value is Object,
                    value->Object_0 == *entries,
                    texts@ == member_texts(json_entries_model(entries)),
                    texts@.len() == entries.len(),
                    i <= entries.len(),
                    r@ == "{"@ + comma_joined(texts@.subrange(0, i as int)),
                decreases entries.len() - i,
            {
                proof {
                    assert(decreases_to!(*value => value->Object_0));
                    assert(decreases_to!(value->Object_0 => entries[i as int]));
                    assert(decreases_to!(entries[i as int] => entries[i as int].1));
                    lemma_comma_joined_push(texts@, i as int);
                }
                let key = quote(entries[i].0.as_str());
                let part = to_json(&entries[i].1);
                if i > 0 {
                    r.append(",");
                }
                r.append(key.as_str());
                r.append(":");
                r.append(part.as_str());
                i = i + 1;
                assert(r@ =~= "{"@ + comma_joined(texts@.subrange(0, i as int)));
            }
            r.append("}");
            assert(texts@.subrange(0, i as int) =~= texts@);
            r
        },
    }
}

} // verus!
