//! A typed model of the nftables JSON rule language, with a verified codec.
//!
//! A ruleset document is an ordered sequence of objects and commands ([`schema`]). Rules
//! hold statements ([`stmt`]), and statements hold expressions ([`expr`]). Each type of the
//! model has a wire form, a JSON value ([`json`]), and is decoded from JSON by its shape:
//! many members may be written as one value or as an array of values ([`visitor`],
//! [`flags`]), and which kind an object is shows in its one key. [`batch`] assembles a
//! document from commands, [`codec`] reads and writes documents as text ([`wire`]), and
//! [`helper`] plans the calls of the `nft` executable that get or apply a ruleset.
//!
//! Each type has a mathematical value, its view, and what encoding and decoding do is
//! stated over views: `to_wire` is the wire form of a value, `from_wire` what a JSON value
//! decodes to, and `lemma_round_trip` shows that decoding the wire form of a value gives the
//! value back, for every value that `canonical` admits.

pub mod text;
pub mod error;
pub mod json;
pub mod wire;
pub mod token;
pub mod visitor;
pub mod flags;
pub mod types;
pub mod expr;
pub mod stmt;
pub mod schema;
pub mod batch;
pub mod codec;
pub mod helper;
pub mod cli;
