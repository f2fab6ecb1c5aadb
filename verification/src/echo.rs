//! How a JSON value reads where a refusal quotes it: compact JSON text.
//!
//! A number with a fraction reads as it was received; one that was computed
//! here has no text and is only called a number.
use serde_json::Value;
use vstd::prelude::*;

use crate::json::{field_views, view_of_arr, view_of_obj, views, Json, JsonV};
use crate::text::{dec, decimal, integer_dec, integer_decimal};

verus! {

/// A hexadecimal digit, in lower case.
pub open spec fn hex_char(n: nat) -> char {
    "0123456789abcdef"@[n as int]
}

/// A character as it stands in a JSON string: quotes, backslashes and control
/// characters are escaped, every other character stands for itself.
pub open spec fn escaped(c: char) -> Seq<char> {
    if c == '"' {
        seq!['\\', '"']
    } else if c == '\\' {
        seq!['\\', '\\']
    } else if c == '\u{8}' {
        seq!['\\', 'b']
    } else if c == '\t' {
        seq!['\\', 't']
    } else if c == '\n' {
        seq!['\\', 'n']
    } else if c == '\u{c}' {
        seq!['\\', 'f']
    } else if c == '\r' {
        seq!['\\', 'r']
    } else if (c as nat) <= 0x1f {
        seq!['\\', 'u', '0', '0', hex_char(c as nat / 16), hex_char(c as nat % 16)]
    } else {
        seq![c]
    }
}

/// The characters of a text as they stand in a JSON string.
pub open spec fn escapes(s: Seq<char>) -> Seq<char>
    decreases s.len(),
{
    if s.len() == 0 {
        Seq::empty()
    } else {
        escapes(s.drop_last()) + escaped(s.last())
    }
}

/// A text as a JSON string.
pub open spec fn json_string(s: Seq<char>) -> Seq<char> {
    seq!['"'] + escapes(s) + seq!['"']
}

/// The `Display` of a `serde_json::Value` that holds a string: the text in
/// quotes, with quotes, backslashes and control characters escaped.
#[verifier::external_body]
pub(crate) fn string_text(s: &str) -> (r: String)
    ensures
        r@ == json_string(s@),
{
    Value::from(s).to_string()
}

/// A value as compact JSON text.
pub open spec fn json_text(v: JsonV) -> Seq<char>
    decreases v, 0nat,
{
    match v {
        JsonV::Null => "null"@,
        JsonV::Bool(b) => if b {
            "true"@
        } else {
            "false"@
        },
        JsonV::Uint(n) => dec(n as nat),
        JsonV::Int(n) => integer_dec(n as int),
        JsonV::Decimal { text, .. } => text,
        JsonV::Float(_) => "a number"@,
        JsonV::Float32(_) => "a number"@,
        JsonV::Str(s) => json_string(s),
        JsonV::Arr(items) => "["@ + items_text(items, items.len()) + "]"@,
        JsonV::Obj(fields) => "{"@ + fields_text(fields, fields.len()) + "}"@,
    }
}

/// The first `n` items, with commas between them.
pub open spec fn items_text(items: Seq<JsonV>, n: nat) -> Seq<char>
    decreases items, n,
{
    if n == 0 || n > items.len() {
        Seq::empty()
    } else {
        items_text(items, (n - 1) as nat) + comma(n) + json_text(items[n - 1])
    }
}

/// The first `n` fields, with commas between them.
pub open spec fn fields_text(fields: Seq<(Seq<char>, JsonV)>, n: nat) -> Seq<char>
    decreases fields, n,
{
    if n == 0 || n > fields.len() {
        Seq::empty()
    } else {
        proof {
            assert(decreases_to!(fields => fields[n - 1]));
            assert(decreases_to!(fields[n - 1] => fields[n - 1].1));
        }
        fields_text(fields, (n - 1) as nat) + comma(n) + json_string(fields[n - 1].0)
            + ":"@ + json_text(fields[n - 1].1)
    }
}

/// What stands before the `n`th part.
pub open spec fn comma(n: nat) -> Seq<char> {
    if n > 1 {
        ","@
    } else {
        Seq::empty()
    }
}

/// A value as compact JSON text.
pub fn quote_json(v: &Json) -> (r: String)
    ensures
        r@ == json_text(v@),
    decreases v,
{
    match v {
        Json::Null => "null".to_owned(),
        Json::Bool(b) => if *b {
            "true".to_owned()
        } else {
            "false".to_owned()
        },
        Json::Uint(n) => decimal(*n),
        Json::Int(n) => integer_decimal(*n),
        Json::Decimal { text, .. } => text.clone(),
        Json::Float(_) => "a number".to_owned(),
        Json::Float32(_) => "a number".to_owned(),
        Json::Str(s) => string_text(s.as_str()),
        Json::Arr(items) => {
            let ghost all = views(items@);
            let mut out = "[".to_owned();
            let mut i: usize = 0;
            while i < items.len()
                invariant
                    i <= items.len(),
                    *v == Json::Arr(*items),
                    all == views(items@),
                    out@ == "["@ + items_text(all, i as nat),
                decreases items.len() - i,
            {
                proof {
                    assert(decreases_to!(*v => v->Arr_0));
                    assert(decreases_to!(items => items@));
                    assert(decreases_to!(items@ => items@[i as int]));
                    assert(all[i as int] == items@[i as int]@);
                }
                if i > 0 {
                    out = out.concat(",");
                }
                out = out.concat(quote_json(&items[i]).as_str());
                assert(out@ =~= "["@ + items_text(all, (i + 1) as nat));
                i = i + 1;
            }
            proof {
                view_of_arr(*items);
            }
            out.concat("]")
        },
        Json::Obj(fields) => {
            let ghost all = field_views(fields@);
            let mut out = "{".to_owned();
            let mut i: usize = 0;
            while i < fields.len()
                invariant
                    i <= fields.len(),
                    *v == Json::Obj(*fields),
                    all == field_views(fields@),
                    out@ == "{"@ + fields_text(all, i as nat),
                decreases fields.len() - i,
            {
                proof {
                    assert(decreases_to!(*v => v->Obj_0));
                    assert(decreases_to!(fields => fields@));
                    assert(decreases_to!(fields@ => fields@[i as int]));
                    assert(decreases_to!(fields@[i as int] => fields@[i as int].1));
                    assert(all[i as int] == (fields@[i as int].0@, fields@[i as int].1@));
                }
                if i > 0 {
                    out = out.concat(",");
                }
                out = out.concat(string_text(fields[i].0.as_str()).as_str()).concat(":").concat(
                    quote_json(&fields[i].1).as_str(),
                );
                assert(out@ =~= "{"@ + fields_text(all, (i + 1) as nat));
                i = i + 1;
            }
            proof {
                view_of_obj(*fields);
            }
            out.concat("}")
        },
    }
}

/// The most characters of a value that a refusal quotes.
pub const ECHO_LEN: usize = 64;

/// A text, cut where it is longer than a refusal quotes.
pub open spec fn bounded(t: Seq<char>) -> Seq<char> {
    if t.len() <= ECHO_LEN {
        t
    } else {
        t.take(ECHO_LEN as int) + "\u{2026}"@
    }
}

/// A text, cut where it is longer than a refusal quotes.
pub fn cut(t: String) -> (r: String)
    ensures
        r@ == bounded(t@),
{
    if t.as_str().unicode_len() <= ECHO_LEN {
        return t;
    }
    let head = t.as_str().substring_char(0, ECHO_LEN);
    assert(head@ =~= t@.take(ECHO_LEN as int));
    head.to_owned().concat("\u{2026}")
}

/// However long a value is, what a refusal quotes of it is short; a short
/// value is quoted whole.
pub proof fn quotes_are_short(t: Seq<char>)
    ensures
        bounded(t).len() <= ECHO_LEN + 1,
        t.len() <= ECHO_LEN ==> bounded(t) == t,
{
    reveal_strlit("\u{2026}");
}

/// What is cut ends in an ellipsis after its first `ECHO_LEN` characters.
pub proof fn a_cut_quote_starts_as_the_value(t: Seq<char>)
    requires
        t.len() > 64,
    ensures
        bounded(t).len() == 65,
        bounded(t).take(64) == t.take(64),
        bounded(t)[64] == '\u{2026}',
{
    reveal_strlit("\u{2026}");
}

/// Quoted lists and objects are in brackets, with their parts in order.
pub proof fn lists_are_quoted_in_order(a: JsonV, b: JsonV, k: Seq<char>, x: u64)
    ensures
        json_text(JsonV::Arr(seq![a, b])) == "["@ + json_text(a) + ","@ + json_text(b) + "]"@,
        json_text(JsonV::Obj(seq![(k, a)])) == "{"@ + json_string(k) + ":"@ + json_text(a) + "}"@,
        json_text(JsonV::Uint(x)) == dec(x as nat),
        json_text(JsonV::Str(k)) == json_string(k),
        json_text(JsonV::Bool(true)) == "true"@,
        json_text(JsonV::Bool(false)) == "false"@,
        json_text(JsonV::Null) == "null"@,
{
    let two = seq![a, b];
    assert(items_text(two, 0) == Seq::<char>::empty());
    assert(items_text(two, 1) =~= json_text(a));
    assert(items_text(two, 2) =~= json_text(a) + ","@ + json_text(b));
    assert(json_text(JsonV::Arr(two)) == "["@ + items_text(two, two.len()) + "]"@);
    assert("["@ + (json_text(a) + ","@ + json_text(b)) + "]"@ =~= "["@ + json_text(a) + ","@
        + json_text(b) + "]"@);
    let one = seq![(k, a)];
    assert(fields_text(one, 0) == Seq::<char>::empty());
    assert(fields_text(one, 1) =~= json_string(k) + ":"@ + json_text(a));
    assert(json_text(JsonV::Obj(one)) == "{"@ + fields_text(one, one.len()) + "}"@);
    assert("{"@ + (json_string(k) + ":"@ + json_text(a)) + "}"@ =~= "{"@ + json_string(k) + ":"@
        + json_text(a) + "}"@);
}

} // verus!
