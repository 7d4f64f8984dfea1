//! JSON text: reading it into a document and writing a document out.
//!
//! Reading is left to `serde_json`. Writing is done here, but for the quoting of strings:
//! the members of an object are written in the order in which the document holds them,
//! which for an entity is the order of its fields, and `serde_json`'s own document type
//! keeps its members in the order of their keys.

use vstd::prelude::*;
use vstd::string::StringExecFns;
use crate::json::{Json, JsonView, items_view, members_view};

verus! {

/// `serde_json::Value`. Nothing of what a value holds is known here.
/// `serde_json::Value`. What a value holds is known here only through [`value_view`].
#[verifier::external_type_specification]
#[verifier::external_body]
pub struct ExValue(serde_json::Value);

/// The document that a value of `serde_json` holds. The members of an object stand in the
/// order in which `serde_json`'s map walks them, which is the order of their keys.
pub uninterp spec fn value_view(v: serde_json::Value) -> JsonView;

/// What `serde_json::from_str` makes of a text: the document that the value it gives
/// holds, or the text of the error that it gives.
pub uninterp spec fn json_parsed(text: Seq<char>) -> Result<JsonView, Seq<char>>;

/// `serde_json::from_str`, for a `serde_json::Value`, with an error turned into its
/// `Display` text. The result is a function of the text alone, which [`json_parsed`] names.
#[verifier::external_body]
fn parse_value(text: &str) -> (r: Result<serde_json::Value, String>)
    ensures
        match r {
            Ok(v) => json_parsed(text@) == Ok::<JsonView, Seq<char>>(value_view(v)),
            Err(m) => json_parsed(text@) == Err::<JsonView, Seq<char>>(m@),
        },
{
    match serde_json::from_str::<serde_json::Value>(text) {
        Ok(v) => Ok(v),
        Err(e) => Err(e.to_string()),
    }
}

/// `serde_json::Value::as_bool`: the boolean that the value holds, if it holds one.
#[verifier::external_body]
fn value_as_bool(v: &serde_json::Value) -> (r: Option<bool>)
    ensures
        r == match value_view(*v) {
            JsonView::Bool(b) => Some(b),
            _ => None,
        },
{
    v.as_bool()
}

/// `serde_json::Value::as_u64`: the integer that the value holds, if it holds one that
/// fits 64 bits without a sign.
#[verifier::external_body]
fn value_as_u64(v: &serde_json::Value) -> (r: Option<u64>)
    ensures
        r == match value_view(*v) {
            JsonView::Number(n) => if 0 <= n <= u64::MAX {
                Some(n as u64)
            } else {
                None
            },
            _ => None,
        },
{
    v.as_u64()
}

/// `serde_json::Value::as_i64`: the integer that the value holds, if it holds one that
/// fits 64 bits with a sign.
#[verifier::external_body]
fn value_as_i64(v: &serde_json::Value) -> (r: Option<i64>)
    ensures
        r == match value_view(*v) {
            JsonView::Number(n) => if i64::MIN <= n <= i64::MAX {
                Some(n as i64)
            } else {
                None
            },
            _ => None,
        },
{
    v.as_i64()
}

/// `serde_json::Value::as_number`, and the `Display` text of the number: a text exactly
/// for a number. An integer that a value holds fits 64 bits, with or without a sign; for
/// any other number the text is what the document keeps.
#[verifier::external_body]
fn value_number_text(v: &serde_json::Value) -> (r: Option<String>)
    ensures
        match value_view(*v) {
            JsonView::Number(n) => r is Some && i64::MIN <= n <= u64::MAX,
            JsonView::Decimal(t) => r matches Some(s) && s@ == t,
            _ => r is None,
        },
{
    match v.as_number() {
        Some(n) => Some(n.to_string()),
        None => None,
    }
}

/// `serde_json::Value::as_str`: the string that the value holds, if it holds one.
#[verifier::external_body]
fn value_as_str<'a>(v: &'a serde_json::Value) -> (r: Option<&'a str>)
    ensures
        match value_view(*v) {
            JsonView::String(s) => r matches Some(x) && x@ == s,
            _ => r is None,
        },
{
    v.as_str()
}

/// `serde_json::Value::as_array`: the items of the array that the value holds, if it
/// holds one.
#[verifier::external_body]
fn value_as_array<'a>(v: &'a serde_json::Value) -> (r: Option<&'a Vec<serde_json::Value>>)
    ensures
        match value_view(*v) {
            JsonView::Array(items) => r matches Some(a) && a@.len() == items.len() && forall|
                i: int,
            | 0 <= i < items.len() ==> value_view(#[trigger] a@[i]) == items[i],
            _ => r is None,
        },
{
    v.as_array()
}

/// `serde_json::Value::as_object`, and the members that `serde_json::Map::iter` walks, in
/// its order: the members of the object that the value holds, if it holds one.
#[verifier::external_body]
fn value_members<'a>(v: &'a serde_json::Value) -> (r: Option<
    Vec<(&'a String, &'a serde_json::Value)>,
>)
    ensures
        match value_view(*v) {
            JsonView::Object(members) => r matches Some(m) && m@.len() == members.len()
                && forall|i: int|
                0 <= i < members.len() ==> (#[trigger] m@[i]).0@ == members[i].0 && value_view(
                    *m@[i].1,
                ) == members[i].1,
            _ => r is None,
        },
{
    match v.as_object() {
        Some(o) => Some(o.iter().collect()),
        None => None,
    }
}

/// The hexadecimal digit, in lower case, that stands for a number below sixteen.
pub open spec fn hex_digit(d: int) -> char {
    if d == 0 {
        '0'
    } else if d == 1 {
        '1'
    } else if d == 2 {
        '2'
    } else if d == 3 {
        '3'
    } else if d == 4 {
        '4'
    } else if d == 5 {
        '5'
    } else if d == 6 {
        '6'
    } else if d == 7 {
        '7'
    } else if d == 8 {
        '8'
    } else if d == 9 {
        '9'
    } else if d == 10 {
        'a'
    } else if d == 11 {
        'b'
    } else if d == 12 {
        'c'
    } else if d == 13 {
        'd'
    } else if d == 14 {
        'e'
    } else {
        'f'
    }
}

/// How a character is written within a JSON string: the double quote and the backslash
/// after a backslash; backspace, tab, line feed, form feed and carriage return as a
/// backslash and a letter; any other character below the space as `\u00` and two
/// hexadecimal digits; every other character as it is.
pub open spec fn escaped(c: char) -> Seq<char> {
    let n = c as u32;
    if n == 0x22 {
        seq!['\\', '"']
    } else if n == 0x5c {
        seq!['\\', '\\']
    } else if n == 0x08 {
        seq!['\\', 'b']
    } else if n == 0x09 {
        seq!['\\', 't']
    } else if n == 0x0a {
        seq!['\\', 'n']
    } else if n == 0x0c {
        seq!['\\', 'f']
    } else if n == 0x0d {
        seq!['\\', 'r']
    } else if n < 0x20 {
        seq!['\\', 'u', '0', '0', hex_digit((n / 16) as int), hex_digit((n % 16) as int)]
    } else {
        seq![c]
    }
}

/// The characters of a string, each as it is written within a JSON string.
pub open spec fn escaped_text(s: Seq<char>) -> Seq<char>
    decreases s.len(),
{
    if s.len() == 0 {
        Seq::empty()
    } else {
        escaped_text(s.drop_last()) + escaped(s.last())
    }
}

/// The text of a JSON string: the string between double quotes, with its characters
/// escaped.
pub open spec fn json_quoted(s: Seq<char>) -> Seq<char> {
    seq!['"'] + escaped_text(s) + seq!['"']
}

/// `serde_json::to_string`, for a string: the string between double quotes, with the
/// characters escaped that its table of escapes names.
#[verifier::external_body]
fn quote(s: &str) -> (r: String)
    ensures
        r@ == json_quoted(s@),
{
    match serde_json::to_string(s) {
        Ok(t) => t,
        Err(_) => String::new(),
    }
}

/// Why a text is no JSON document.
#[derive(Debug, Clone, PartialEq, Eq)]
pub struct SyntaxError {
    /// What the reader says of the text.
    pub message: String,
}

/// What the reading of a text gave, by its view.
pub open spec fn parsed_view(parsed: Result<Json, SyntaxError>) -> Result<JsonView, Seq<char>> {
    match parsed {
        Ok(j) => Ok(j.deep_view()),
        Err(e) => Err(e.message@),
    }
}

/// The document that a value of `serde_json` holds.
#[verifier::loop_isolation(false)]
fn from_value(v: &serde_json::Value) -> (j: Json)
    ensures
        j.deep_view() == value_view(*v),
    decreases value_view(*v),
{
    if let Some(b) = value_as_bool(v) {
        return Json::Bool(b);
    }
    if let Some(n) = value_as_u64(v) {
        return Json::Number(n as i128);
    }
    if let Some(n) = value_as_i64(v) {
        return Json::Number(n as i128);
    }
    if let Some(t) = value_number_text(v) {
        return Json::Decimal(t);
    }
    if let Some(s) = value_as_str(v) {
        return Json::String(s.to_owned());
    }
    if let Some(items) = value_as_array(v) {
        let ghost view = value_view(*v)->Array_0;
        let mut out: Vec<Json> = Vec::new();
        let mut i: usize = 0;
        while i < items.len()
            invariant
                i <= items.len(),
                out.len() == i,
                forall|k: int| 0 <= k < i ==> (#[trigger] out[k]).deep_view() == view[k],
            decreases items.len() - i,
        {
            assert(value_view(items@[i as int]) == view[i as int]);
            out.push(from_value(&items[i]));
            i += 1;
        }
        assert(items_view(out) =~= view);
        return Json::Array(out);
    }
    if let Some(members) = value_members(v) {
        let ghost view = value_view(*v)->Object_0;
        let mut out: Vec<(String, Json)> = Vec::new();
        let mut i: usize = 0;
        while i < members.len()
            invariant
                i <= members.len(),
                out.len() == i,
                forall|k: int|
                    0 <= k < i ==> (#[trigger] out[k]).0@ == view[k].0 && out[k].1.deep_view()
                        == view[k].1,
            decreases members.len() - i,
        {
            assert(members@[i as int].0@ == view[i as int].0);
            assert(value_view(*members@[i as int].1) == view[i as int].1);
            out.push((members[i].0.clone(), from_value(members[i].1)));
            i += 1;
        }
        assert(members_view(out) =~= view);
        return Json::Object(out);
    }
    Json::Null
}

/// The digit that stands for a number below ten.
pub open spec fn digit(d: int) -> Seq<char> {
    if d == 0 {
        "0"@
    } else if d == 1 {
        "1"@
    } else if d == 2 {
        "2"@
    } else if d == 3 {
        "3"@
    } else if d == 4 {
        "4"@
    } else if d == 5 {
        "5"@
    } else if d == 6 {
        "6"@
    } else if d == 7 {
        "7"@
    } else if d == 8 {
        "8"@
    } else {
        "9"@
    }
}

/// The decimal digits of a natural number, without leading zeros.
pub open spec fn decimal_nat(n: nat) -> Seq<char>
    decreases n,
{
    if n < 10 {
        digit(n as int)
    } else {
        decimal_nat(n / 10) + digit((n % 10) as int)
    }
}

/// The decimal spelling of an integer.
pub open spec fn decimal(n: int) -> Seq<char> {
    if n < 0 {
        "-"@ + decimal_nat((-n) as nat)
    } else {
        decimal_nat(n as nat)
    }
}

/// The texts of the items of an array, with commas between them.
pub open spec fn items_text(items: Seq<JsonView>) -> Seq<char>
    decreases items, 0nat,
{
    if items.len() == 0 {
        Seq::empty()
    } else if items.len() == 1 {
        json_text(items[0])
    } else {
        items_text(items.drop_last()) + ","@ + json_text(items.last())
    }
}

/// The text of a member of an object: its key, quoted, a colon, and its value.
pub open spec fn member_text(member: (Seq<char>, JsonView)) -> Seq<char>
    decreases member, 0nat,
{
    json_quoted(member.0) + ":"@ + json_text(member.1)
}

/// The texts of the members of an object, with commas between them.
pub open spec fn members_text(members: Seq<(Seq<char>, JsonView)>) -> Seq<char>
    decreases members, 1nat,
{
    if members.len() == 0 {
        Seq::empty()
    } else if members.len() == 1 {
        member_text(members[0])
    } else {
        members_text(members.drop_last()) + ","@ + member_text(members.last())
    }
}

/// The compact text of a document: no space stands between its parts.
pub open spec fn json_text(j: JsonView) -> Seq<char>
    decreases j, 2nat,
{
    match j {
        JsonView::Null => "null"@,
        JsonView::Bool(b) => if b {
            "true"@
        } else {
            "false"@
        },
        JsonView::Number(n) => decimal(n),
        JsonView::Decimal(s) => s,
        JsonView::String(s) => json_quoted(s),
        JsonView::Array(items) => "["@ + items_text(items) + "]"@,
        JsonView::Object(members) => "{"@ + members_text(members) + "}"@,
    }
}

/// The digit that stands for a number below ten.
fn digit_str(d: u128) -> (s: &'static str)
    requires
        d < 10,
    ensures
        s@ == digit(d as int),
{
    if d == 0 {
        "0"
    } else if d == 1 {
        "1"
    } else if d == 2 {
        "2"
    } else if d == 3 {
        "3"
    } else if d == 4 {
        "4"
    } else if d == 5 {
        "5"
    } else if d == 6 {
        "6"
    } else if d == 7 {
        "7"
    } else if d == 8 {
        "8"
    } else {
        "9"
    }
}

/// Appends the decimal digits of a number to a text.
pub fn write_decimal_nat(out: &mut String, n: u128)
    ensures
        final(out)@ == old(out)@ + decimal_nat(n as nat),
    decreases n,
{
    if n >= 10 {
        write_decimal_nat(out, n / 10);
    }
    out.append(digit_str(n % 10));
    assert(out@ =~= old(out)@ + decimal_nat(n as nat));
}

/// Appends the decimal spelling of an integer to a text.
fn write_decimal(out: &mut String, n: i128)
    ensures
        final(out)@ == old(out)@ + decimal(n as int),
{
    if n < 0 {
        out.append("-");
        let m: u128 = (-(n + 1)) as u128 + 1;
        write_decimal_nat(out, m);
        assert(out@ =~= old(out)@ + decimal(n as int));
    } else {
        write_decimal_nat(out, n as u128);
    }
}

/// Appends the compact text of a document to a text.
fn write_json(out: &mut String, j: &Json)
    ensures
        final(out)@ == old(out)@ + json_text(j.deep_view()),
    decreases j,
{
    match j {
        Json::Null => out.append("null"),
        Json::Bool(b) => if *b {
            out.append("true")
        } else {
            out.append("false")
        },
        Json::Number(n) => write_decimal(out, *n),
        Json::Decimal(s) => out.append(s.as_str()),
        Json::String(s) => {
            let q = quote(s.as_str());
            out.append(q.as_str());
        },
        Json::Array(items) => {
            out.append("[");
            let ghost start = out@;
            let ghost view = items_view(*items);
            let mut i: usize = 0;
            assert(view.take(0) =~= Seq::empty());
            assert(out@ =~= start + items_text(view.take(0)));
            while i < items.len()
                invariant
                    i <= items.len(),
                    view == items_view(*items),
                    out@ == start + items_text(view.take(i as int)),
                    decreases_to!(j => *items),
                decreases items.len() - i,
            {
                if i > 0 {
                    out.append(",");
                }
                write_json(out, &items[i]);
                proof {
                    let next = view.take(i + 1);
                    assert(next.drop_last() =~= view.take(i as int));
                    assert(next.last() == items[i as int].deep_view());
                    assert(next[0] == view[0]);
                    assert(out@ =~= start + items_text(next));
                }
                i += 1;
            }
            assert(view.take(i as int) =~= view);
            out.append("]");
            assert(out@ =~= old(out)@ + json_text(j.deep_view()));
        },
        Json::Object(members) => {
            out.append("{");
            let ghost start = out@;
            let ghost view = members_view(*members);
            let mut i: usize = 0;
            assert(view.take(0) =~= Seq::empty());
            assert(out@ =~= start + members_text(view.take(0)));
            while i < members.len()
                invariant
                    i <= members.len(),
                    view == members_view(*members),
                    out@ == start + members_text(view.take(i as int)),
                    decreases_to!(j => *members),
                decreases members.len() - i,
            {
                if i > 0 {
                    out.append(",");
                }
                let q = quote(members[i].0.as_str());
                out.append(q.as_str());
                out.append(":");
                write_json(out, &members[i].1);
                proof {
                    let next = view.take(i + 1);
                    assert(next.drop_last() =~= view.take(i as int));
                    assert(next.last() == (members[i as int].0@, members[i as int].1.deep_view()));
                    assert(next[0] == view[0]);
                    let mt = member_text(next.last());
                    assert(mt == json_quoted(members[i as int].0@) + ":"@ + json_text(
                        members[i as int].1.deep_view(),
                    ));
                    if i == 0 {
                        assert(members_text(next) == mt);
                    } else {
                        assert(members_text(next) == members_text(next.drop_last()) + ","@ + mt);
                    }
                    assert(out@ =~= start + members_text(next));
                }
                i += 1;
            }
            assert(view.take(i as int) =~= view);
            out.append("}");
            assert(out@ =~= old(out)@ + json_text(j.deep_view()));
        },
    }
}

impl Json {
    /// Reads a JSON text.
    ///
    /// The reading is done by `serde_json`: the result is the document that it makes of the
    /// text, or its error. In a document that was read, the members of an object stand in
    /// the order of their keys, and of a key that the text wrote twice the last value is
    /// kept.
    pub fn parse(text: &str) -> (r: Result<Json, SyntaxError>)
        ensures
            parsed_view(r) == json_parsed(text@),
    {
        match parse_value(text) {
            Ok(v) => Ok(from_value(&v)),
            Err(message) => Err(SyntaxError { message }),
        }
    }

    /// Writes the document as compact JSON text.
    pub fn to_text(&self) -> (r: String)
        ensures
            r@ == json_text(self.deep_view()),
    {
        let mut out = String::new();
        write_json(&mut out, self);
        assert(out@ =~= json_text(self.deep_view()));
        out
    }
}

} // verus!
