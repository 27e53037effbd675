//! What a call hands to the guest and what it makes of the run's outcome.

use crate::runtime::decode_text;
use vstd::prelude::*;
use vstd::utf8::{decode_utf8, encode_utf8, valid_utf8};

verus! {

/// Why a call gave no output.
#[derive(Debug, PartialEq, Eq)]
pub enum CallError {
    /// No module is registered under the name.
    UnknownModule { name: String },
    /// The module could not be instantiated, or it did not run to completion.
    Execution { cause: String },
    /// The module ran to completion, but what it wrote is not UTF-8 text.
    Decode,
}

/// How one run of a module ended, as the runtime reports it.
#[derive(Debug, PartialEq, Eq)]
pub enum RunOutcome {
    /// The entry point returned; the bytes are all that the guest wrote to its
    /// standard output.
    Completed(Vec<u8>),
    /// The runtime gave up: the arguments were refused, the module could not be
    /// instantiated, or the guest trapped. The text describes the cause.
    Failed(String),
    /// The entry point returned, but the output sink was still shared and could
    /// not be drained.
    SinkShared,
}

/// The cause reported when the output sink is still shared after a run.
pub open spec fn spec_sink_shared_cause() -> Seq<char> {
    "output sink is still shared after the run"@
}

/// What the guest reads from its standard input: the argument at index 1, and
/// nothing where there is none.
pub open spec fn spec_stdin_payload(args: Seq<String>) -> Seq<char> {
    if args.len() > 1 {
        args[1]@
    } else {
        Seq::empty()
    }
}

/// The result of a call whose run ended in `outcome`, with strings as their
/// views: the decoded output, or the views of the error's fields.
pub open spec fn spec_conclude(outcome: RunOutcome) -> Result<Seq<char>, CallFailure> {
    match outcome {
        RunOutcome::Completed(bytes) => if valid_utf8(bytes@) {
            Ok(decode_utf8(bytes@))
        } else {
            Err(CallFailure::Decode)
        },
        RunOutcome::Failed(cause) => Err(CallFailure::Execution(cause@)),
        RunOutcome::SinkShared => Err(CallFailure::Execution(spec_sink_shared_cause())),
    }
}

/// A `CallError` with its strings as sequences of characters.
pub ghost enum CallFailure {
    UnknownModule(Seq<char>),
    Execution(Seq<char>),
    Decode,
}

impl View for CallError {
    type V = CallFailure;

    open spec fn view(&self) -> CallFailure {
        match *self {
            CallError::UnknownModule { name } => CallFailure::UnknownModule(name@),
            CallError::Execution { cause } => CallFailure::Execution(cause@),
            CallError::Decode => CallFailure::Decode,
        }
    }
}

/// The result of a call with its strings as sequences of characters.
pub open spec fn result_view(result: Result<String, CallError>) -> Result<Seq<char>, CallFailure> {
    match result {
        Ok(text) => Ok(text@),
        Err(error) => Err(error@),
    }
}

/// The text that starts the message of an unknown module.
pub open spec fn spec_unknown_module_prefix() -> Seq<char> {
    "unknown module "@
}

/// The message of a decoding error.
pub open spec fn spec_decode_message() -> Seq<char> {
    "captured output is not valid UTF-8"@
}

impl CallFailure {
    /// The message that describes the failure to an operator.
    pub open spec fn message(self) -> Seq<char> {
        match self {
            CallFailure::UnknownModule(name) => spec_unknown_module_prefix() + name,
            CallFailure::Execution(cause) => cause,
            CallFailure::Decode => spec_decode_message(),
        }
    }
}

impl CallError {
    /// The message that describes the error to an operator.
    pub fn message(&self) -> (text: String)
        ensures
            text@ == self@.message(),
    {
        match self {
            CallError::UnknownModule { name } => String::from_str("unknown module ").concat(
                name.as_str(),
            ),
            CallError::Execution { cause } => cause.clone(),
            CallError::Decode => String::from_str("captured output is not valid UTF-8"),
        }
    }
}

/// The argument list of a call that is given a command and its argument.
pub fn command_args(command: String, command_arg: String) -> (args: Vec<String>)
    ensures
        args@ == seq![command, command_arg],
{
    let mut args: Vec<String> = Vec::new();
    args.push(command);
    args.push(command_arg);
    args
}

/// The output of a call for a caller that takes a failure as absence.
pub fn output_or_absent(result: Result<String, CallError>) -> (output: Option<String>)
    ensures
        output == match result {
            Ok(text) => Some(text),
            Err(_) => None::<String>,
        },
{
    match result {
        Ok(text) => Some(text),
        Err(_) => None,
    }
}

/// The bytes that `args` take in the memory of a guest: each argument in UTF-8,
/// with a zero byte behind it.
pub open spec fn spec_args_size(args: Seq<String>) -> nat
    decreases args.len(),
{
    if args.len() == 0 {
        0
    } else {
        spec_args_size(args.drop_last()) + encode_utf8(args.last()@).len() + 1
    }
}

/// The greatest size of an argument list that a guest can address: a guest counts
/// the bytes of its arguments in 32 bits.
pub open spec fn spec_args_limit() -> nat {
    0xffff_ffff
}

/// True when a guest can address the argument list `args`.
pub open spec fn spec_args_fit(args: Seq<String>) -> bool {
    spec_args_size(args) <= spec_args_limit()
}

/// The cause reported for an argument list that no guest can address.
pub open spec fn spec_oversized_cause() -> Seq<char> {
    "argument list exceeds the size that a guest can address"@
}

/// The first arguments of a list take no more bytes than the whole list.
pub proof fn lemma_args_size_grows(args: Seq<String>, upto: int)
    requires
        0 <= upto <= args.len(),
    ensures
        spec_args_size(args.take(upto)) <= spec_args_size(args),
    decreases args.len() - upto,
{
    if upto < args.len() {
        lemma_args_size_grows(args, upto + 1);
        assert(args.take(upto + 1).drop_last() == args.take(upto));
    } else {
        assert(args.take(upto) == args);
    }
}

/// True when a guest can address the argument list `args`.
pub fn args_fit(args: &Vec<String>) -> (fit: bool)
    ensures
        fit == spec_args_fit(args@),
{
    let mut total: u64 = 0;
    let mut i: usize = 0;
    while i < args.len()
        invariant
            i <= args.len(),
            total == spec_args_size(args@.take(i as int)),
            total <= 0xffff_ffff,
        decreases args.len() - i,
    {
        let len: usize = args[i].as_str().as_bytes().len();
        proof {
            let next = args@.take(i + 1);
            assert(next.drop_last() == args@.take(i as int));
            assert(next.last() == args@[i as int]);
            assert(spec_args_size(next) == total + len + 1);
            lemma_args_size_grows(args@, i + 1);
        }
        if len >= 0xffff_ffff || total + (len as u64) + 1 > 0xffff_ffff {
            return false;
        }
        total = total + (len as u64) + 1;
        i = i + 1;
    }
    assert(args@.take(i as int) == args@);
    true
}

/// The payload for the guest's standard input.
pub fn stdin_payload(args: &Vec<String>) -> (payload: String)
    ensures
        payload@ == spec_stdin_payload(args@),
{
    if args.len() > 1 {
        args[1].clone()
    } else {
        String::new()
    }
}

/// Decodes what a guest wrote to its standard output. Output that is not
/// well-formed UTF-8 is an error: no part of it is returned.
pub fn decode_output(bytes: Vec<u8>) -> (result: Result<String, CallError>)
    ensures
        result is Ok <==> valid_utf8(bytes@),
        result_view(result) == spec_conclude(RunOutcome::Completed(bytes)),
{
    match decode_text(bytes) {
        Ok(text) => Ok(text),
        Err(_) => Err(CallError::Decode),
    }
}

/// The cause reported for a module that exports no entry point.
pub open spec fn spec_no_entry_cause() -> Seq<char> {
    "module exports no entry point"@
}

/// How a run ended, from what the runtime returned: `ran` is the result of the
/// run, with the cause as text where it failed, and `drained` the bytes of the
/// output sink, if it could be drained. Of a run that failed no output is kept.
pub open spec fn spec_outcome_of(ran: Result<(), String>, drained: Option<Vec<u8>>) -> RunOutcome {
    match ran {
        Err(cause) => RunOutcome::Failed(cause),
        Ok(()) => match drained {
            Some(bytes) => RunOutcome::Completed(bytes),
            None => RunOutcome::SinkShared,
        },
    }
}

/// How a run ended, from what the runtime returned of it.
pub fn outcome_of(ran: Result<(), String>, drained: Option<Vec<u8>>) -> (outcome: RunOutcome)
    ensures
        outcome == spec_outcome_of(ran, drained),
{
    match ran {
        Err(cause) => RunOutcome::Failed(cause),
        Ok(()) => match drained {
            Some(bytes) => RunOutcome::Completed(bytes),
            None => RunOutcome::SinkShared,
        },
    }
}

/// The result of the call whose run ended in `outcome`.
pub fn conclude(outcome: RunOutcome) -> (result: Result<String, CallError>)
    ensures
        result_view(result) == spec_conclude(outcome),
{
    match outcome {
        RunOutcome::Completed(bytes) => decode_output(bytes),
        RunOutcome::Failed(cause) => Err(CallError::Execution { cause }),
        RunOutcome::SinkShared => Err(
            CallError::Execution { cause: "output sink is still shared after the run".to_owned() },
        ),
    }
}

} // verus!
