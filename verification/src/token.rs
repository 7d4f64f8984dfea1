//! Names with a fixed spelling on the wire.

use vstd::prelude::*;
use crate::error::{DecodeError, DecodeErrorView};
use crate::json::{Json, JsonView};

verus! {

/// A closed set of names, each with one spelling on the wire.
pub trait Token: Sized + Copy {
    /// The spelling of this name.
    spec fn text(self) -> Seq<char>;

    /// The name that `s` spells, if any.
    spec fn from_text(s: Seq<char>) -> Option<Self>;

    /// Each name is spelled in one way, and a spelling names one thing.
    proof fn lemma_text(self)
        ensures
            Self::from_text(self.text()) == Some(self),
    ;

/// The name that a spelling names is spelled so.
    proof fn lemma_from_text(s: Seq<char>)
        ensures
            Self::from_text(s) matches Some(t) ==> t.text() == s,
    ;

/// The spelling of this name.
    fn as_str(&self) -> (s: &'static str)
        ensures
            s@ == self.text(),
    ;

/// The name that `s` spells, if any.
    fn parse(s: &str) -> (r: Option<Self>)
        ensures
            r == Self::from_text(s@),
    ;
}

/// A closed set of names of options, of which several may be chosen together. The names
/// stand in a fixed order, in which a set of them is written.
pub trait Flag: Token {
    /// How many names the set has.
    spec fn count() -> nat;

    /// The place of this name in the order.
    spec fn index(self) -> nat;

    /// The name at a place.
    spec fn at(i: nat) -> Self;

    /// Places and names correspond one to one.
    proof fn lemma_index(self)
        ensures
            self.index() < Self::count(),
            Self::at(self.index()) == self,
    ;

/// The name at a place has that place.
    proof fn lemma_at(i: nat)
        requires
            i < Self::count(),
        ensures
            Self::at(i).index() == i,
    ;

/// How many names the set has.
    fn size() -> (n: usize)
        ensures
            n == Self::count(),
    ;

/// The place of this name in the order.
    fn ordinal(&self) -> (i: usize)
        ensures
            i == self.index(),
    ;

/// The name at a place.
    fn nth(i: usize) -> (t: Self)
        requires
            i < Self::count(),
        ensures
            t == Self::at(i as nat),
    ;
}

/// The wire form of a name: its spelling as a string.
pub open spec fn enc_token<T: Token>(t: T) -> JsonView {
    JsonView::String(t.text())
}

/// The name that a wire value spells.
pub open spec fn dec_token<T: Token>(j: JsonView) -> Result<T, DecodeErrorView> {
    match j {
        JsonView::String(s) => match T::from_text(s) {
            Some(t) => Ok(t),
            None => Err(DecodeErrorView::unknown(s)),
        },
        _ => Err(DecodeErrorView::shape()),
    }
}

/// Decoding the wire form of a name gives the name back.
pub proof fn lemma_token_round_trip<T: Token>(t: T)
    ensures
        dec_token::<T>(enc_token(t)) == Ok::<T, DecodeErrorView>(t),
{
    t.lemma_text();
}

/// Encodes a name as its spelling.
pub fn encode_token<T: Token>(t: &T) -> (j: Json)
    ensures
        j.deep_view() == enc_token(*t),
{
    Json::String(t.as_str().to_owned())
}

/// Decodes the name that a wire value spells. A string that spells none is an error
/// that cites the string.
pub fn decode_token<T: Token>(j: &Json) -> (r: Result<T, DecodeError>)
    ensures
        match r {
            Ok(t) => dec_token::<T>(j.deep_view()) == Ok::<T, DecodeErrorView>(t),
            Err(e) => dec_token::<T>(j.deep_view()) == Err::<T, DecodeErrorView>(e.deep_view()),
        },
{
    match j {
        Json::String(s) => match T::parse(s.as_str()) {
            Some(t) => Ok(t),
            None => Err(DecodeError::unknown(s.as_str())),
        },
        _ => Err(DecodeError::shape()),
    }
}

} // verus!
