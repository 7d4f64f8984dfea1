//! The command line: what its arguments ask for.

use vstd::prelude::*;
use crate::codec::{TextError, decodes_as};
use crate::wire::json_parsed;
use crate::schema::Nftables;
use crate::text::same_text;

verus! {

/// Where the JSON schema is written where no path is given.
pub const DEFAULT_SCHEMA_PATH: &'static str = "./nftables.schema.json";

/// What the arguments of the command line ask for.
#[derive(Debug, Clone, PartialEq, Eq)]
pub enum Command {
    /// Write the JSON schema of a document to the file at this path.
    Schema(String),
    /// Read a document from the standard input and print what it decodes to.
    DeserializeStdin,
    /// Nothing that is known: the first argument is no command.
    Unknown(String),
}

/// The mathematical value of a [`Command`].
pub ghost enum CommandView {
    Schema(Seq<char>),
    DeserializeStdin,
    Unknown(Seq<char>),
}

impl DeepView for Command {
    type V = CommandView;

    open spec fn deep_view(&self) -> CommandView {
        match self {
            Command::Schema(p) => CommandView::Schema(p@),
            Command::DeserializeStdin => CommandView::DeserializeStdin,
            Command::Unknown(c) => CommandView::Unknown(c@),
        }
    }
}

/// What a list of arguments asks for: without arguments, to read the standard input;
/// with `schema` first, to write the schema, to the path that follows or to the default
/// one; with anything else first, nothing that is known.
pub open spec fn command_of(args: Seq<Seq<char>>) -> CommandView {
    if args.len() == 0 {
        CommandView::DeserializeStdin
    } else if args[0] == "schema"@ {
        if args.len() > 1 {
            CommandView::Schema(args[1])
        } else {
            CommandView::Schema("./nftables.schema.json"@)
        }
    } else {
        CommandView::Unknown(args[0])
    }
}

/// The arguments of the command, given all those of the process: the first, which is the
/// path of the program itself, is left out.
pub fn collect_command_args(all: Vec<String>) -> (args: Vec<String>)
    ensures
        args.deep_view() == if all.len() == 0 {
            Seq::empty()
        } else {
            all.deep_view().skip(1)
        },
{
    let mut args: Vec<String> = Vec::new();
    let mut i: usize = 1;
    assert(args.deep_view() =~= Seq::empty());
    if all.len() == 0 {
        return args;
    }
    assert(all.deep_view().skip(1).take(0) =~= Seq::empty());
    while i < all.len()
        invariant
            1 <= i <= all.len(),
            args.deep_view() == all.deep_view().skip(1).take(i - 1),
        decreases all.len() - i,
    {
        let ghost before = args.deep_view();
        args.push(all[i].clone());
        assert(args.deep_view() =~= before.push(all[i as int]@));
        assert(all.deep_view().skip(1).take(i as int) =~= all.deep_view().skip(1).take(i - 1).push(
            all[i as int]@,
        ));
        i += 1;
    }
    assert(all.deep_view().skip(1).take(i - 1) =~= all.deep_view().skip(1));
    args
}

/// Says what the arguments of the command line ask for.
pub fn handle_args(args: Vec<String>) -> (command: Command)
    ensures
        command.deep_view() == command_of(args.deep_view()),
{
    if args.len() == 0 {
        return Command::DeserializeStdin;
    }
    assert(args.deep_view()[0] == args[0]@);
    if same_text(args[0].as_str(), "schema") {
        if args.len() > 1 {
            assert(args.deep_view()[1] == args[1]@);
            Command::Schema(args[1].clone())
        } else {
            Command::Schema(DEFAULT_SCHEMA_PATH.to_owned())
        }
    } else {
        Command::Unknown(args[0].clone())
    }
}

/// Decodes the document that was read from the standard input: what decoding gives for
/// what the reading of the text as JSON gives.
pub fn deserialize_stdin(buffer: &str) -> (r: Result<Nftables, TextError>)
    ensures
        decodes_as(r, json_parsed(buffer@)),
{
    crate::codec::decode(buffer)
}

} // verus!
