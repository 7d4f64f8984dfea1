//! Documents as wire text.

use vstd::prelude::*;
use crate::error::{DecodeError, DecodeErrorView};
use crate::json::{Json, JsonView};
use crate::schema::{Nftables, NftablesView};
use crate::wire::{SyntaxError, json_parsed, json_text, parsed_view};

verus! {

/// Why a text could not be read as a document.
#[derive(Debug, Clone, PartialEq, Eq)]
pub enum TextError {
    /// The text is no JSON.
    Syntax(SyntaxError),
    /// The text is JSON, but no document: the error says where and why.
    Decode(DecodeError),
}

/// The mathematical value of a [`TextError`].
pub ghost enum TextErrorView {
    Syntax(Seq<char>),
    Decode(DecodeErrorView),
}

impl DeepView for TextError {
    type V = TextErrorView;

    open spec fn deep_view(&self) -> TextErrorView {
        match self {
            TextError::Syntax(e) => TextErrorView::Syntax(e.message@),
            TextError::Decode(e) => TextErrorView::Decode(e.deep_view()),
        }
    }
}

/// What reading a text is to return where its JSON, if it is any, is `parsed`.
pub open spec fn decoded_text(
    parsed: Result<JsonView, Seq<char>>,
) -> Result<NftablesView, TextErrorView> {
    match parsed {
        Ok(j) => match NftablesView::from_wire(j) {
            Ok(d) => Ok(d),
            Err(e) => Err(TextErrorView::Decode(e)),
        },
        Err(message) => Err(TextErrorView::Syntax(message)),
    }
}

/// Whether `r` is what [`decoded_text`] gives for `parsed`.
pub open spec fn decodes_as(
    r: Result<Nftables, TextError>,
    parsed: Result<JsonView, Seq<char>>,
) -> bool {
    match r {
        Ok(d) => decoded_text(parsed) == Ok::<NftablesView, TextErrorView>(d.deep_view()),
        Err(e) => decoded_text(parsed) == Err::<NftablesView, TextErrorView>(e.deep_view()),
    }
}

/// Decodes a document from what the reading of its text gave.
pub fn decode_parsed(parsed: Result<Json, SyntaxError>) -> (r: Result<Nftables, TextError>)
    ensures
        decodes_as(r, parsed_view(parsed)),
{
    match parsed {
        Ok(j) => match Nftables::decode(&j) {
            Ok(d) => Ok(d),
            Err(e) => Err(TextError::Decode(e)),
        },
        Err(e) => Err(TextError::Syntax(e)),
    }
}

/// Decodes a document from its wire text: what [`decoded_text`] gives for what the
/// reading of the text as JSON gives.
pub fn decode(text: &str) -> (r: Result<Nftables, TextError>)
    ensures
        decodes_as(r, json_parsed(text@)),
{
    decode_parsed(Json::parse(text))
}

/// Encodes a document as its canonical wire text.
pub fn encode(doc: &Nftables) -> (text: String)
    ensures
        text@ == json_text(doc.deep_view().to_wire()),
{
    doc.encode().to_text()
}

} // verus!
