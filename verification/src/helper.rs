//! Calls of the `nft` executable: what to run, and what to make of the outcome.
//!
//! Nothing is run here. Each of the functions named after a task gives the call that does
//! the task; whoever runs it hands the outcome to [`finish`].

use vstd::prelude::*;
use crate::codec::{TextError, TextErrorView, decode_parsed, decoded_text, encode};
use crate::json::{Json, JsonView};
use crate::schema::{Nftables, NftablesView};
use crate::wire::{SyntaxError, json_parsed, json_text, parsed_view};

verus! {

/// The `nft` executable that is called where none is given: it is searched in `PATH`.
pub const NFT_EXECUTABLE: &'static str = "nft";

/// What is made of the output of a call that succeeded.
#[derive(Debug, Clone, Copy, PartialEq, Eq)]
pub enum NftExpect {
    /// Nothing: that the call succeeded is all.
    Nothing,
    /// The output as text.
    Text,
    /// The ruleset that the output spells.
    Ruleset,
}

/// A call of the `nft` executable.
#[derive(Debug, Clone, PartialEq, Eq)]
pub struct NftCall {
    /// The program to run.
    pub program: String,
    /// Its arguments, in their order.
    pub args: Vec<String>,
    /// What to write to its standard input, if anything.
    pub stdin: Option<String>,
    /// What the call is for, in words, for an error message.
    pub hint: String,
    /// What to make of its output.
    pub expect: NftExpect,
}

/// The mathematical value of an [`NftCall`].
pub ghost struct NftCallView {
    pub program: Seq<char>,
    pub args: Seq<Seq<char>>,
    pub stdin: Option<Seq<char>>,
    pub hint: Seq<char>,
    pub expect: NftExpect,
}

impl DeepView for NftCall {
    type V = NftCallView;

    open spec fn deep_view(&self) -> NftCallView {
        NftCallView {
            program: self.program@,
            args: self.args.deep_view(),
            stdin: self.stdin.deep_view(),
            hint: self.hint@,
            expect: self.expect,
        }
    }
}

/// What came of running a call.
#[derive(Debug, Clone, PartialEq, Eq)]
pub enum NftOutcome {
    /// The program could not be run, or not be talked to.
    NotRun { reason: String },
    /// The program ran and ended.
    Exited { success: bool, stdout: Vec<u8>, stderr: Vec<u8> },
}

/// What a call gave.
#[derive(Debug, Clone, PartialEq, Eq)]
pub enum NftResult {
    /// The call succeeded; nothing was asked of its output.
    Done,
    /// The output of the call.
    Text(String),
    /// The ruleset that the output of the call spells.
    Ruleset(Nftables),
}

/// The mathematical value of an [`NftResult`].
pub ghost enum NftResultView {
    Done,
    Text(Seq<char>),
    Ruleset(NftablesView),
}

impl DeepView for NftResult {
    type V = NftResultView;

    open spec fn deep_view(&self) -> NftResultView {
        match self {
            NftResult::Done => NftResultView::Done,
            NftResult::Text(t) => NftResultView::Text(t@),
            NftResult::Ruleset(d) => NftResultView::Ruleset(d.deep_view()),
        }
    }
}

/// An error of a call of `nft`.
#[derive(Debug, Clone, PartialEq, Eq)]
pub enum NftExecutableError {
    /// The program could not be run.
    NftExecution { program: String, inner: String },
    /// The output of the program is no UTF-8: only so many of its bytes, from the start,
    /// are.
    NftOutputEncoding { program: String, valid_up_to: usize },
    /// The output of the program is no ruleset.
    NftInvalidJson(TextError),
    /// The program ran and did not succeed.
    NftFailed { program: String, hint: String, stdout: String, stderr: String },
}

/// The mathematical value of an [`NftExecutableError`].
pub ghost enum NftExecutableErrorView {
    NftExecution { program: Seq<char>, inner: Seq<char> },
    NftOutputEncoding { program: Seq<char>, valid_up_to: int },
    NftInvalidJson(TextErrorView),
    NftFailed { program: Seq<char>, hint: Seq<char>, stdout: Seq<char>, stderr: Seq<char> },
}

impl DeepView for NftExecutableError {
    type V = NftExecutableErrorView;

    open spec fn deep_view(&self) -> NftExecutableErrorView {
        match self {
            NftExecutableError::NftExecution { program, inner } => {
                NftExecutableErrorView::NftExecution { program: program@, inner: inner@ }
            },
            NftExecutableError::NftOutputEncoding { program, valid_up_to } => {
                NftExecutableErrorView::NftOutputEncoding {
                    program: program@,
                    valid_up_to: *valid_up_to as int,
                }
            },
            NftExecutableError::NftInvalidJson(e) => NftExecutableErrorView::NftInvalidJson(
                e.deep_view(),
            ),
            NftExecutableError::NftFailed { program, hint, stdout, stderr } => {
                NftExecutableErrorView::NftFailed {
                    program: program@,
                    hint: hint@,
                    stdout: stdout@,
                    stderr: stderr@,
                }
            },
        }
    }
}

/// Whether the first `n` of the bytes are UTF-8 and no more of them are: `n` is the
/// greatest length of a start of the bytes that is UTF-8.
pub open spec fn valid_up_to(bytes: Seq<u8>, n: int) -> bool {
    &&& 0 <= n <= bytes.len()
    &&& vstd::utf8::valid_utf8(bytes.take(n))
    &&& forall|m: int| n < m <= bytes.len() ==> !vstd::utf8::valid_utf8(#[trigger] bytes.take(m))
}

/// The greatest length of a start of the bytes that is UTF-8.
pub open spec fn valid_length(bytes: Seq<u8>) -> int {
    choose|n: int| valid_up_to(bytes, n)
}

/// There is one greatest length of a start that is UTF-8, at most.
pub proof fn lemma_valid_length(bytes: Seq<u8>, n: int)
    requires
        valid_up_to(bytes, n),
    ensures
        valid_length(bytes) == n,
{
    let c = valid_length(bytes);
    if c < n {
        assert(!vstd::utf8::valid_utf8(bytes.take(n)));
    }
    if n < c {
        assert(!vstd::utf8::valid_utf8(bytes.take(c)));
    }
}

/// `String::from_utf8`, with its error turned into what `Utf8Error::valid_up_to` says of
/// it. It gives a string exactly for bytes that are UTF-8, and the string is the text that
/// the bytes encode; for other bytes it gives the greatest length of a start of them that
/// is UTF-8.
#[verifier::external_body]
fn from_utf8(bytes: Vec<u8>) -> (r: Result<String, usize>)
    ensures
        r is Ok <==> vstd::utf8::valid_utf8(bytes@),
        r matches Ok(s) ==> s@ == vstd::utf8::decode_utf8(bytes@),
        r matches Err(n) ==> valid_up_to(bytes@, n as int),
{
    match String::from_utf8(bytes) {
        Ok(s) => Ok(s),
        Err(e) => Err(e.utf8_error().valid_up_to()),
    }
}

/// The name of the program that a call runs: the one given, or `nft`.
pub open spec fn program_name(program: Option<Seq<char>>) -> Seq<char> {
    match program {
        Some(p) => p,
        None => "nft"@,
    }
}

/// The arguments of a call that gets the current ruleset: `-j`, then the arguments
/// given, or `list ruleset` where none is given.
pub open spec fn get_args(args: Seq<Seq<char>>) -> Seq<Seq<char>> {
    if args.len() > 0 {
        seq!["-j"@] + args
    } else {
        seq!["-j"@, "list"@, "ruleset"@]
    }
}

/// The arguments of a call that applies a ruleset: the arguments given, then `-j -f -`.
pub open spec fn apply_args(args: Seq<Seq<char>>) -> Seq<Seq<char>> {
    args + seq!["-j"@, "-f"@, "-"@]
}

/// The name of the program to run: the one given, or `nft`.
fn program_or_default(program: Option<&str>) -> (p: String)
    ensures
        p@ == program_name(
            match program {
                Some(s) => Some(s@),
                None => None,
            },
        ),
{
    match program {
        Some(p) => p.to_owned(),
        None => NFT_EXECUTABLE.to_owned(),
    }
}

/// Appends copies of the strings of `more` to `out`.
fn extend(out: &mut Vec<String>, more: &Vec<String>)
    ensures
        final(out).deep_view() == old(out).deep_view() + more.deep_view(),
{
    let mut i: usize = 0;
    assert(more.deep_view().take(0) =~= Seq::empty());
    assert(out.deep_view() =~= old(out).deep_view() + more.deep_view().take(0));
    while i < more.len()
        invariant
            i <= more.len(),
            out.deep_view() == old(out).deep_view() + more.deep_view().take(i as int),
        decreases more.len() - i,
    {
        let ghost before = out.deep_view();
        out.push(more[i].clone());
        assert(out.deep_view() =~= before.push(more[i as int]@));
        assert(more.deep_view().take(i + 1) =~= more.deep_view().take(i as int).push(
            more[i as int]@,
        ));
        assert(out.deep_view() =~= old(out).deep_view() + more.deep_view().take(i + 1));
        i += 1;
    }
    assert(more.deep_view().take(i as int) =~= more.deep_view());
}

/// Appends a copy of `s` to `out`.
fn push_str(out: &mut Vec<String>, s: &str)
    ensures
        final(out).deep_view() == old(out).deep_view().push(s@),
{
    let ghost before = out.deep_view();
    out.push(s.to_owned());
    assert(out.deep_view() =~= before.push(s@));
}

/// The call that gets the current ruleset as text, with a custom `nft` and custom
/// arguments.
///
/// Where `program` is given, that program is called in place of `nft`. Where `args` is
/// not empty, these arguments are used in place of `list ruleset`. The argument `-j` is
/// always put first.
pub fn get_current_ruleset_raw(program: Option<&str>, args: &Vec<String>) -> (call: NftCall)
    ensures
        call.deep_view() == (NftCallView {
            program: program_name(
                match program {
                    Some(s) => Some(s@),
                    None => None,
                },
            ),
            args: get_args(args.deep_view()),
            stdin: None,
            hint: "getting the current ruleset"@,
            expect: NftExpect::Text,
        }),
{
    let mut all: Vec<String> = Vec::new();
    assert(all.deep_view() =~= Seq::empty());
    push_str(&mut all, "-j");
    if args.len() > 0 {
        extend(&mut all, args);
        assert(all.deep_view() =~= seq!["-j"@] + args.deep_view());
    } else {
        push_str(&mut all, "list");
        push_str(&mut all, "ruleset");
        assert(all.deep_view() =~= seq!["-j"@, "list"@, "ruleset"@]);
    }
    NftCall {
        program: program_or_default(program),
        args: all,
        stdin: None,
        hint: "getting the current ruleset".to_owned(),
        expect: NftExpect::Text,
    }
}

/// The call that gets the current ruleset, with a custom `nft` and custom arguments.
///
/// It is the call of [`get_current_ruleset_raw`], with its output read as a ruleset.
pub fn get_current_ruleset_with_args(program: Option<&str>, args: &Vec<String>) -> (call: NftCall)
    ensures
        call.deep_view() == (NftCallView {
            program: program_name(
                match program {
                    Some(s) => Some(s@),
                    None => None,
                },
            ),
            args: get_args(args.deep_view()),
            stdin: None,
            hint: "getting the current ruleset"@,
            expect: NftExpect::Ruleset,
        }),
{
    let raw = get_current_ruleset_raw(program, args);
    NftCall {
        program: raw.program,
        args: raw.args,
        stdin: raw.stdin,
        hint: raw.hint,
        expect: NftExpect::Ruleset,
    }
}

/// The call that gets the ruleset that is currently active in the kernel: the default
/// `nft` with the default arguments.
pub fn get_current_ruleset() -> (call: NftCall)
    ensures
        call.deep_view() == (NftCallView {
            program: "nft"@,
            args: seq!["-j"@, "list"@, "ruleset"@],
            stdin: None,
            hint: "getting the current ruleset"@,
            expect: NftExpect::Ruleset,
        }),
{
    let none: Vec<String> = Vec::new();
    assert(none.deep_view() =~= Seq::empty());
    get_current_ruleset_with_args(None, &none)
}

/// The call that applies a ruleset given as text, with a custom `nft` and custom
/// arguments.
///
/// Where `program` is given, that program is called in place of `nft`. The arguments
/// given are put before `-j -f -`, which are always there. The output of the call is
/// kept as text.
pub fn apply_ruleset_raw(
    payload: &str,
    program: Option<&str>,
    args: &Vec<String>,
) -> (call: NftCall)
    ensures
        call.deep_view() == (NftCallView {
            program: program_name(
                match program {
                    Some(s) => Some(s@),
                    None => None,
                },
            ),
            args: apply_args(args.deep_view()),
            stdin: Some(payload@),
            hint: "applying ruleset"@,
            expect: NftExpect::Text,
        }),
{
    let mut all: Vec<String> = Vec::new();
    assert(all.deep_view() =~= Seq::empty());
    extend(&mut all, args);
    push_str(&mut all, "-j");
    push_str(&mut all, "-f");
    push_str(&mut all, "-");
    assert(all.deep_view() =~= apply_args(args.deep_view()));
    NftCall {
        program: program_or_default(program),
        args: all,
        stdin: Some(payload.to_owned()),
        hint: "applying ruleset".to_owned(),
        expect: NftExpect::Text,
    }
}

/// The call that applies a ruleset, with a custom `nft` and custom arguments.
///
/// It is the call of [`apply_ruleset_raw`] for the wire text of the ruleset, with
/// nothing made of its output.
pub fn apply_ruleset_with_args(
    nftables: &Nftables,
    program: Option<&str>,
    args: &Vec<String>,
) -> (call: NftCall)
    ensures
        call.deep_view() == (NftCallView {
            program: program_name(
                match program {
                    Some(s) => Some(s@),
                    None => None,
                },
            ),
            args: apply_args(args.deep_view()),
            stdin: Some(json_text(nftables.deep_view().to_wire())),
            hint: "applying ruleset"@,
            expect: NftExpect::Nothing,
        }),
{
    let payload = encode(nftables);
    let raw = apply_ruleset_raw(payload.as_str(), program, args);
    NftCall {
        program: raw.program,
        args: raw.args,
        stdin: raw.stdin,
        hint: raw.hint,
        expect: NftExpect::Nothing,
    }
}

/// The call that applies a ruleset to the kernel: the default `nft` with the default
/// arguments.
pub fn apply_ruleset(nftables: &Nftables) -> (call: NftCall)
    ensures
        call.deep_view() == (NftCallView {
            program: "nft"@,
            args: seq!["-j"@, "-f"@, "-"@],
            stdin: Some(json_text(nftables.deep_view().to_wire())),
            hint: "applying ruleset"@,
            expect: NftExpect::Nothing,
        }),
{
    let none: Vec<String> = Vec::new();
    assert(none.deep_view() =~= Seq::empty());
    assert(apply_args(Seq::empty()) =~= seq!["-j"@, "-f"@, "-"@]);
    apply_ruleset_with_args(nftables, None, &none)
}

/// The call that applies a ruleset and gets back the ruleset as it was processed, with a
/// custom `nft` and custom arguments.
///
/// This is done with `nft --echo`, which is put after the arguments given. The ruleset
/// that comes back holds the handles of its rules, by which they can be referred to
/// later.
pub fn apply_and_return_ruleset_with_args(
    nftables: &Nftables,
    program: Option<&str>,
    args: &Vec<String>,
) -> (call: NftCall)
    ensures
        call.deep_view() == (NftCallView {
            program: program_name(
                match program {
                    Some(s) => Some(s@),
                    None => None,
                },
            ),
            args: apply_args(args.deep_view().push("--echo"@)),
            stdin: Some(json_text(nftables.deep_view().to_wire())),
            hint: "applying ruleset"@,
            expect: NftExpect::Ruleset,
        }),
{
    let payload = encode(nftables);
    let mut with_echo: Vec<String> = Vec::new();
    assert(with_echo.deep_view() =~= Seq::empty());
    extend(&mut with_echo, args);
    push_str(&mut with_echo, "--echo");
    assert(with_echo.deep_view() =~= args.deep_view().push("--echo"@));
    let raw = apply_ruleset_raw(payload.as_str(), program, &with_echo);
    NftCall {
        program: raw.program,
        args: raw.args,
        stdin: raw.stdin,
        hint: raw.hint,
        expect: NftExpect::Ruleset,
    }
}

/// The call that applies a ruleset to the kernel and gets back the ruleset as it was
/// processed: the default `nft` with the default arguments.
pub fn apply_and_return_ruleset(nftables: &Nftables) -> (call: NftCall)
    ensures
        call.deep_view() == (NftCallView {
            program: "nft"@,
            args: seq!["--echo"@, "-j"@, "-f"@, "-"@],
            stdin: Some(json_text(nftables.deep_view().to_wire())),
            hint: "applying ruleset"@,
            expect: NftExpect::Ruleset,
        }),
{
    let none: Vec<String> = Vec::new();
    assert(none.deep_view() =~= Seq::empty());
    assert(apply_args(Seq::<Seq<char>>::empty().push("--echo"@)) =~= seq![
        "--echo"@,
        "-j"@,
        "-f"@,
        "-"@,
    ]);
    apply_and_return_ruleset_with_args(nftables, None, &none)
}

/// The text that the bytes of an output spell, where they are UTF-8; else the error that
/// says how many of them, from the start, are.
pub open spec fn output_text(program: Seq<char>, bytes: Seq<u8>) -> Result<
    Seq<char>,
    NftExecutableErrorView,
> {
    if vstd::utf8::valid_utf8(bytes) {
        Ok(vstd::utf8::decode_utf8(bytes))
    } else {
        Err(
            NftExecutableErrorView::NftOutputEncoding {
                program,
                valid_up_to: valid_length(bytes),
            },
        )
    }
}

/// The output of a call, as text.
pub fn read_output(program: &str, bytes: Vec<u8>) -> (r: Result<String, NftExecutableError>)
    ensures
        match r {
            Ok(s) => output_text(program@, bytes@) == Ok::<Seq<char>, NftExecutableErrorView>(s@),
            Err(e) => output_text(program@, bytes@) == Err::<Seq<char>, NftExecutableErrorView>(
                e.deep_view(),
            ),
        },
{
    let ghost view = bytes@;
    match from_utf8(bytes) {
        Ok(s) => Ok(s),
        Err(n) => {
            proof {
                lemma_valid_length(view, n as int);
            }
            Err(NftExecutableError::NftOutputEncoding { program: program.to_owned(), valid_up_to: n })
        },
    }
}

/// The standard output of a call, where the call succeeded.
///
/// A program that could not be run is an error. Of one that ran, the standard output is
/// read first, and is an error where it is no UTF-8. Where the program did not succeed,
/// the error holds both outputs, unless the error output is no UTF-8, which is then the
/// error.
pub open spec fn outcome_text(call: NftCallView, outcome: NftOutcome) -> Result<
    Seq<char>,
    NftExecutableErrorView,
> {
    match outcome {
        NftOutcome::NotRun { reason } => Err(
            NftExecutableErrorView::NftExecution { program: call.program, inner: reason@ },
        ),
        NftOutcome::Exited { success, stdout, stderr } => match output_text(
            call.program,
            stdout@,
        ) {
            Ok(out) => if success {
                Ok(out)
            } else {
                match output_text(call.program, stderr@) {
                    Ok(err) => Err(
                        NftExecutableErrorView::NftFailed {
                            program: call.program,
                            hint: call.hint,
                            stdout: out,
                            stderr: err,
                        },
                    ),
                    Err(e) => Err(e),
                }
            },
            Err(e) => Err(e),
        },
    }
}

/// Reads the outcome of a call: its standard output, where the call succeeded.
pub fn read_outcome(call: &NftCall, outcome: NftOutcome) -> (r: Result<String, NftExecutableError>)
    ensures
        match r {
            Ok(s) => outcome_text(call.deep_view(), outcome) == Ok::<
                Seq<char>,
                NftExecutableErrorView,
            >(s@),
            Err(e) => outcome_text(call.deep_view(), outcome) == Err::<
                Seq<char>,
                NftExecutableErrorView,
            >(e.deep_view()),
        },
{
    match outcome {
        NftOutcome::NotRun { reason } => Err(
            NftExecutableError::NftExecution { program: call.program.clone(), inner: reason },
        ),
        NftOutcome::Exited { success, stdout, stderr } => {
            let out = match read_output(call.program.as_str(), stdout) {
                Ok(s) => s,
                Err(e) => return Err(e),
            };
            if success {
                Ok(out)
            } else {
                let err = match read_output(call.program.as_str(), stderr) {
                    Ok(s) => s,
                    Err(e) => return Err(e),
                };
                Err(
                    NftExecutableError::NftFailed {
                        program: call.program.clone(),
                        hint: call.hint.clone(),
                        stdout: out,
                        stderr: err,
                    },
                )
            }
        },
    }
}

/// What a call gave, where its standard output is `text` and the JSON that the text
/// spells, if it spells any, is `parsed`.
pub open spec fn result_of(
    expect: NftExpect,
    text: Seq<char>,
    parsed: Result<JsonView, Seq<char>>,
) -> Result<NftResultView, NftExecutableErrorView> {
    match expect {
        NftExpect::Nothing => Ok(NftResultView::Done),
        NftExpect::Text => Ok(NftResultView::Text(text)),
        NftExpect::Ruleset => match decoded_text(parsed) {
            Ok(d) => Ok(NftResultView::Ruleset(d)),
            Err(e) => Err(NftExecutableErrorView::NftInvalidJson(e)),
        },
    }
}

/// A call that asks for a ruleset gives a canonical document back where the JSON that
/// its output spells is the wire form of that document; nothing is changed or left out,
/// and the commands keep their number and their order.
pub proof fn lemma_ruleset_comes_back(v: NftablesView, text: Seq<char>)
    requires
        v.canonical(),
    ensures
        result_of(NftExpect::Ruleset, text, Ok(v.to_wire())) == Ok::<
            NftResultView,
            NftExecutableErrorView,
        >(NftResultView::Ruleset(v)),
{
    v.lemma_round_trip();
}

/// Whether `r` is what a call with the outcome `outcome` gives, where the JSON that its
/// standard output spells is `parsed`.
pub open spec fn finishes_as(
    r: Result<NftResult, NftExecutableError>,
    call: NftCallView,
    outcome: NftOutcome,
    parsed: Result<JsonView, Seq<char>>,
) -> bool {
    let expected = match outcome_text(call, outcome) {
        Ok(text) => result_of(call.expect, text, parsed),
        Err(e) => Err(e),
    };
    match r {
        Ok(v) => expected == Ok::<NftResultView, NftExecutableErrorView>(v.deep_view()),
        Err(e) => expected == Err::<NftResultView, NftExecutableErrorView>(e.deep_view()),
    }
}

/// Makes of the standard output of a call that succeeded what the call asks for, where
/// the reading of the output as JSON gave `parsed`.
pub fn interpret(
    expect: NftExpect,
    text: String,
    parsed: Result<Json, SyntaxError>,
) -> (r: Result<NftResult, NftExecutableError>)
    ensures
        match r {
            Ok(v) => result_of(expect, text@, parsed_view(parsed)) == Ok::<
                NftResultView,
                NftExecutableErrorView,
            >(v.deep_view()),
            Err(e) => result_of(expect, text@, parsed_view(parsed)) == Err::<
                NftResultView,
                NftExecutableErrorView,
            >(e.deep_view()),
        },
{
    match expect {
        NftExpect::Nothing => Ok(NftResult::Done),
        NftExpect::Text => Ok(NftResult::Text(text)),
        NftExpect::Ruleset => match decode_parsed(parsed) {
            Ok(d) => Ok(NftResult::Ruleset(d)),
            Err(e) => Err(NftExecutableError::NftInvalidJson(e)),
        },
    }
}

/// What the reading as JSON gives of the standard output of a call that succeeded; of no
/// matter where the call ended in an error.
pub open spec fn output_parsed(call: NftCallView, outcome: NftOutcome) -> Result<
    JsonView,
    Seq<char>,
> {
    match outcome_text(call, outcome) {
        Ok(text) => json_parsed(text),
        Err(_) => Err(Seq::empty()),
    }
}

/// Ends a call: what it gave, or the error that it ended in. Where the call asks for a
/// ruleset, its standard output is read as JSON and decoded.
pub fn finish(call: &NftCall, outcome: NftOutcome) -> (r: Result<NftResult, NftExecutableError>)
    ensures
        finishes_as(r, call.deep_view(), outcome, output_parsed(call.deep_view(), outcome)),
{
    let text = match read_outcome(call, outcome) {
        Ok(text) => text,
        Err(e) => return Err(e),
    };
    let parsed = Json::parse(text.as_str());
    interpret(call.expect, text, parsed)
}

} // verus!
