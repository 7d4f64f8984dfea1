//! Decoding and encoding of the scalar shapes that every entity is made of.

use vstd::prelude::*;
use crate::error::{DecodeError, DecodeErrorView, decoded, some};
use crate::flags::{FlagSet, dec_flag_items, dec_flags, lemma_dec_flag_items_fails};
use crate::json::{Json, JsonView, find, items_view, lemma_lookup_push, lookup, members_view};
use crate::stmt::LogFlag;
use crate::token::{Flag, decode_token};

verus! {

/// The value under `key`, unless it is absent or `null`.
pub open spec fn optional(members: Seq<(Seq<char>, JsonView)>, key: Seq<char>) -> Option<JsonView> {
    match lookup(members, key) {
        Some(JsonView::Null) => None,
        Some(v) => Some(v),
        None => None,
    }
}

/// The member list with `key: value` appended where there is a value.
pub open spec fn with_opt(
    members: Seq<(Seq<char>, JsonView)>,
    key: Seq<char>,
    value: Option<JsonView>,
) -> Seq<(Seq<char>, JsonView)> {
    match value {
        Some(v) => members.push((key, v)),
        None => members,
    }
}

/// Appending a member that may be absent changes the lookup of a key only where the key
/// was absent and the member is there.
pub broadcast proof fn lemma_with_opt(
    members: Seq<(Seq<char>, JsonView)>,
    key: Seq<char>,
    value: Option<JsonView>,
    other: Seq<char>,
)
    ensures
        #[trigger] lookup(with_opt(members, key, value), other) == match lookup(members, other) {
            Some(v) => Some(v),
            None => if key == other {
                value
            } else {
                None
            },
        },
{
    broadcast use lemma_lookup_push;
}

/// The string that a wire value holds.
pub open spec fn dec_string(j: JsonView) -> Result<Seq<char>, DecodeErrorView> {
    match j {
        JsonView::String(s) => Ok(s),
        _ => Err(DecodeErrorView::shape()),
    }
}

/// The boolean that a wire value holds.
pub open spec fn dec_bool(j: JsonView) -> Result<bool, DecodeErrorView> {
    match j {
        JsonView::Bool(b) => Ok(b),
        _ => Err(DecodeErrorView::shape()),
    }
}

/// The integer that a wire value holds, where it lies between `low` and `high`.
pub open spec fn dec_int(j: JsonView, low: int, high: int) -> Result<int, DecodeErrorView> {
    match j {
        JsonView::Number(n) => if low <= n <= high {
            Ok(n)
        } else {
            Err(DecodeErrorView::shape())
        },
        _ => Err(DecodeErrorView::shape()),
    }
}

/// The number that a wire value holds, where it fits 32 bits without a sign.
pub open spec fn dec_u32(j: JsonView) -> Result<u32, DecodeErrorView> {
    match dec_int(j, 0, u32::MAX as int) {
        Ok(n) => Ok(n as u32),
        Err(e) => Err(e),
    }
}

/// The value under `key`, unless it is absent or `null`.
pub fn present<'a>(members: &'a Vec<(String, Json)>, key: &str) -> (r: Option<&'a Json>)
    ensures
        match r {
            Some(v) => optional(members_view(*members), key@) == Some(v.deep_view())
                && decreases_to!(*members => *v),
            None => optional(members_view(*members), key@) is None,
        },
{
    match find(members, key) {
        Some(v) => match v {
            Json::Null => None,
            _ => Some(v),
        },
        None => None,
    }
}

/// Decodes a string.
pub fn decode_string(j: &Json) -> (r: Result<String, DecodeError>)
    ensures
        decoded(r, dec_string(j.deep_view())),
{
    match j {
        Json::String(s) => Ok(s.clone()),
        _ => Err(DecodeError::shape()),
    }
}

/// Decodes a boolean.
pub fn decode_bool(j: &Json) -> (r: Result<bool, DecodeError>)
    ensures
        decoded(r, dec_bool(j.deep_view())),
{
    match j {
        Json::Bool(b) => Ok(*b),
        _ => Err(DecodeError::shape()),
    }
}

/// Decodes a number of 32 bits without a sign.
pub fn decode_u32(j: &Json) -> (r: Result<u32, DecodeError>)
    ensures
        decoded(r, dec_u32(j.deep_view())),
{
    match j {
        Json::Number(n) => if 0 <= *n && *n <= 0xffff_ffff {
            Ok(*n as u32)
        } else {
            Err(DecodeError::shape())
        },
        _ => Err(DecodeError::shape()),
    }
}

} // verus!

verus! {

/// The number that a wire value holds, where it fits 8 bits without a sign.
pub open spec fn dec_u8(j: JsonView) -> Result<u8, DecodeErrorView> {
    match dec_int(j, 0, u8::MAX as int) {
        Ok(n) => Ok(n as u8),
        Err(e) => Err(e),
    }
}

/// The number that a wire value holds, where it fits 16 bits without a sign.
pub open spec fn dec_u16(j: JsonView) -> Result<u16, DecodeErrorView> {
    match dec_int(j, 0, u16::MAX as int) {
        Ok(n) => Ok(n as u16),
        Err(e) => Err(e),
    }
}

/// The number that a wire value holds, where it fits 64 bits without a sign.
pub open spec fn dec_u64(j: JsonView) -> Result<u64, DecodeErrorView> {
    match dec_int(j, 0, u64::MAX as int) {
        Ok(n) => Ok(n as u64),
        Err(e) => Err(e),
    }
}

/// The number that a wire value holds, where it fits 32 bits with a sign.
pub open spec fn dec_i32(j: JsonView) -> Result<i32, DecodeErrorView> {
    match dec_int(j, i32::MIN as int, i32::MAX as int) {
        Ok(n) => Ok(n as i32),
        Err(e) => Err(e),
    }
}

/// Decodes a number of 8 bits without a sign.
pub fn decode_u8(j: &Json) -> (r: Result<u8, DecodeError>)
    ensures
        decoded(r, dec_u8(j.deep_view())),
{
    match j {
        Json::Number(n) => if 0 <= *n && *n <= 0xff {
            Ok(*n as u8)
        } else {
            Err(DecodeError::shape())
        },
        _ => Err(DecodeError::shape()),
    }
}

/// Decodes a number of 16 bits without a sign.
pub fn decode_u16(j: &Json) -> (r: Result<u16, DecodeError>)
    ensures
        decoded(r, dec_u16(j.deep_view())),
{
    match j {
        Json::Number(n) => if 0 <= *n && *n <= 0xffff {
            Ok(*n as u16)
        } else {
            Err(DecodeError::shape())
        },
        _ => Err(DecodeError::shape()),
    }
}

/// Decodes a number of 64 bits without a sign.
pub fn decode_u64(j: &Json) -> (r: Result<u64, DecodeError>)
    ensures
        decoded(r, dec_u64(j.deep_view())),
{
    match j {
        Json::Number(n) => if 0 <= *n && *n <= 0xffff_ffff_ffff_ffff {
            Ok(*n as u64)
        } else {
            Err(DecodeError::shape())
        },
        _ => Err(DecodeError::shape()),
    }
}

/// Decodes a number of 32 bits with a sign.
pub fn decode_i32(j: &Json) -> (r: Result<i32, DecodeError>)
    ensures
        decoded(r, dec_i32(j.deep_view())),
{
    match j {
        Json::Number(n) => if -0x8000_0000 <= *n && *n <= 0x7fff_ffff {
            Ok(*n as i32)
        } else {
            Err(DecodeError::shape())
        },
        _ => Err(DecodeError::shape()),
    }
}

/// The strings that a wire value lists: none for `null`, one for a bare string, and the
/// items of an array of strings in their order.
pub open spec fn dec_strings(j: JsonView) -> Result<Seq<Seq<char>>, DecodeErrorView> {
    match j {
        JsonView::Null => Ok(Seq::empty()),
        JsonView::String(s) => Ok(seq![s]),
        JsonView::Array(items) => dec_string_items(items),
        _ => Err(DecodeErrorView::shape()),
    }
}

/// The strings that the items of an array hold; the first item that holds none decides
/// the failure.
pub open spec fn dec_string_items(items: Seq<JsonView>) -> Result<Seq<Seq<char>>, DecodeErrorView>
    decreases items.len(),
{
    if items.len() == 0 {
        Ok(Seq::empty())
    } else {
        match dec_string_items(items.drop_last()) {
            Ok(vs) => match dec_string(items.last()) {
                Ok(v) => Ok(vs.push(v)),
                Err(e) => Err(e.under_index(items.len() - 1)),
            },
            Err(e) => Err(e),
        }
    }
}

/// The same, with an empty list told apart: it is no value at all.
pub open spec fn dec_opt_strings(j: JsonView) -> Result<Option<Seq<Seq<char>>>, DecodeErrorView> {
    match dec_strings(j) {
        Ok(v) => if v.len() == 0 {
            Ok(None)
        } else {
            Ok(Some(v))
        },
        Err(e) => Err(e),
    }
}

/// The canonical wire form of a list of strings: always an array.
pub open spec fn enc_strings(v: Seq<Seq<char>>) -> JsonView {
    JsonView::Array(Seq::new(v.len(), |i: int| JsonView::String(v[i])))
}

/// A list that failed to decode up to some item fails as a whole in the same way.
pub proof fn lemma_dec_string_items_fails(items: Seq<JsonView>, i: int)
    requires
        0 <= i < items.len(),
        dec_string_items(items.take(i + 1)) is Err,
    ensures
        dec_string_items(items) == dec_string_items(items.take(i + 1)),
    decreases items.len(),
{
    if i + 1 < items.len() {
        assert(items.drop_last().take(i + 1) =~= items.take(i + 1));
        lemma_dec_string_items_fails(items.drop_last(), i);
    } else {
        assert(items.take(i + 1) =~= items);
    }
}

/// Decoding the canonical form of a list of strings gives the list back.
pub proof fn lemma_strings_round_trip(v: Seq<Seq<char>>)
    ensures
        dec_strings(enc_strings(v)) == Ok::<Seq<Seq<char>>, DecodeErrorView>(v),
    decreases v.len(),
{
    let items = enc_strings(v)->Array_0;
    if v.len() > 0 {
        lemma_strings_round_trip(v.drop_last());
        assert(items.drop_last() =~= enc_strings(v.drop_last())->Array_0);
        assert(v.drop_last().push(v.last()) =~= v);
    } else {
        assert(v =~= Seq::empty());
    }
}

/// A bare string decodes as the array that holds it alone.
pub proof fn lemma_single_string_is_list(s: Seq<char>)
    ensures
        dec_strings(JsonView::String(s)) == dec_strings(JsonView::Array(seq![JsonView::String(s)])),
{
    let items = seq![JsonView::String(s)];
    assert(items.drop_last() =~= Seq::empty());
    assert(Seq::<Seq<char>>::empty().push(s) =~= seq![s]);
    reveal_with_fuel(dec_string_items, 2);
}

/// Decodes `null`, a string or an array of strings into a list of strings.
pub fn single_string_to_vec(j: &Json) -> (r: Result<Vec<String>, DecodeError>)
    ensures
        decoded(r, dec_strings(j.deep_view())),
{
    match j {
        Json::Null => {
            let out: Vec<String> = Vec::new();
            assert(out.deep_view() =~= Seq::empty());
            Ok(out)
        },
        Json::String(s) => {
            let mut out: Vec<String> = Vec::new();
            out.push(s.clone());
            assert(out.deep_view() =~= seq![s@]);
            Ok(out)
        },
        Json::Array(items) => {
            let mut out: Vec<String> = Vec::new();
            let ghost view = items_view(*items);
            assert(view.take(0) =~= Seq::empty());
            assert(out.deep_view() =~= Seq::empty());
            let mut i: usize = 0;
            while i < items.len()
                invariant
                    i <= items.len(),
                    view == items_view(*items),
                    j.deep_view() == JsonView::Array(view),
                    dec_string_items(view.take(i as int)) == Ok::<Seq<Seq<char>>, DecodeErrorView>(
                        out.deep_view(),
                    ),
                decreases items.len() - i,
            {
                proof {
                    assert(view.take(i + 1).drop_last() =~= view.take(i as int));
                    assert(view.take(i + 1).last() == items[i as int].deep_view());
                }
                match decode_string(&items[i]) {
                    Ok(v) => {
                        let ghost before = out.deep_view();
                        out.push(v);
                        assert(out.deep_view() =~= before.push(v@));
                    },
                    Err(e) => {
                        proof {
                            lemma_dec_string_items_fails(view, i as int);
                        }
                        return Err(e.under_index(i));
                    },
                }
                i += 1;
            }
            assert(view.take(i as int) =~= view);
            Ok(out)
        },
        _ => Err(DecodeError::shape()),
    }
}

/// Decodes `null`, a string or an array of strings into a list of strings, or into nothing
/// where the list is empty.
pub fn single_string_to_option_vec(j: &Json) -> (r: Result<Option<Vec<String>>, DecodeError>)
    ensures
        decoded(r, dec_opt_strings(j.deep_view())),
{
    match single_string_to_vec(j) {
        Ok(value) => if value.len() == 0 {
            Ok(None)
        } else {
            Ok(Some(value))
        },
        Err(err) => Err(err),
    }
}

/// Encodes a list of strings in its canonical form, an array.
pub fn encode_strings(v: &Vec<String>) -> (j: Json)
    ensures
        j.deep_view() == enc_strings(v.deep_view()),
{
    let mut out: Vec<Json> = Vec::new();
    let mut i: usize = 0;
    while i < v.len()
        invariant
            i <= v.len(),
            out.len() == i,
            forall|k: int| 0 <= k < i ==> out[k].deep_view() == JsonView::String(v[k]@),
        decreases v.len() - i,
    {
        out.push(Json::String(v[i].clone()));
        i += 1;
    }
    assert(items_view(out) =~= enc_strings(v.deep_view())->Array_0);
    Json::Array(out)
}

/// Copies a list of strings.
pub fn clone_strings(v: &Vec<String>) -> (r: Vec<String>)
    ensures
        r.deep_view() == v.deep_view(),
{
    let mut out: Vec<String> = Vec::new();
    let mut i: usize = 0;
    while i < v.len()
        invariant
            i <= v.len(),
            out.len() == i,
            forall|k: int| 0 <= k < i ==> out[k]@ == v[k]@,
        decreases v.len() - i,
    {
        out.push(v[i].clone());
        i += 1;
    }
    assert(out.deep_view() =~= v.deep_view());
    out
}

/// The wire form of a counter that may be unset: an unset one is written as zero.
pub open spec fn enc_none_to_zero(x: Option<u64>) -> JsonView {
    match x {
        Some(v) => JsonView::Number(v as int),
        None => JsonView::Number(0),
    }
}

/// Encodes a counter that may be unset, an unset one as `0`.
pub fn serialize_none_to_zero(x: &Option<u64>) -> (j: Json)
    ensures
        j.deep_view() == enc_none_to_zero(*x),
{
    match x {
        Some(v) => Json::Number(*v as i128),
        None => Json::Number(0),
    }
}

/// Keeps a wire value as it is.
pub fn decode_json(j: &Json) -> (r: Result<Json, DecodeError>)
    ensures
        decoded(r, Ok::<JsonView, DecodeErrorView>(j.deep_view())),
{
    Ok(j.clone())
}

/// Decodes a string or an array of strings into the set of the options that they name.
///
/// An option named twice counts once. A string that names no option is an error that
/// cites the string.
pub fn deserialize_flags<T: Flag>(j: &Json) -> (r: Result<FlagSet<T>, DecodeError>)
    ensures
        decoded(r, dec_flags::<T>(j.deep_view())),
{
    match j {
        Json::String(s) => match T::parse(s.as_str()) {
            Some(f) => {
                let mut h = FlagSet::new();
                h.insert(f);
                Ok(h)
            },
            None => Err(DecodeError::unknown(s.as_str())),
        },
        Json::Array(items) => {
            let mut h = FlagSet::new();
            let ghost view = items_view(*items);
            assert(view.take(0) =~= Seq::empty());
            let mut i: usize = 0;
            while i < items.len()
                invariant
                    i <= items.len(),
                    view == items_view(*items),
                    j.deep_view() == JsonView::Array(view),
                    dec_flag_items::<T>(view.take(i as int)) == Ok::<Set<T>, DecodeErrorView>(
                        h.deep_view(),
                    ),
                decreases items.len() - i,
            {
                proof {
                    assert(view.take(i + 1).drop_last() =~= view.take(i as int));
                    assert(view.take(i + 1).last() == items[i as int].deep_view());
                }
                match decode_token::<T>(&items[i]) {
                    Ok(f) => {
                        h.insert(f);
                    },
                    Err(e) => {
                        proof {
                            lemma_dec_flag_items_fails::<T>(view, i as int);
                        }
                        return Err(e.under_index(i));
                    },
                }
                i += 1;
            }
            assert(view.take(i as int) =~= view);
            Ok(h)
        },
        _ => Err(DecodeError::shape()),
    }
}

/// What a wire value decodes to where a set of options may be absent: `null` is no set.
pub open spec fn dec_opt_flags<T: Flag>(j: JsonView) -> Result<Option<Set<T>>, DecodeErrorView> {
    match j {
        JsonView::Null => Ok(None),
        _ => some(dec_flags::<T>(j)),
    }
}

/// Decodes `null`, a string or an array of strings into a set of what a log message
/// includes, or into nothing for `null`.
pub fn single_string_to_option_hashset_logflag(j: &Json) -> (r: Result<
    Option<FlagSet<LogFlag>>,
    DecodeError,
>)
    ensures
        decoded(r, dec_opt_flags::<LogFlag>(j.deep_view())),
{
    match j {
        Json::Null => Ok(None),
        _ => match deserialize_flags::<LogFlag>(j) {
            Ok(h) => Ok(Some(h)),
            Err(e) => Err(e),
        },
    }
}

} // verus!
