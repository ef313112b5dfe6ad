use crate::error::Error;
use crate::text::{trim, trimmed};
use vstd::prelude::*;
use vstd::utf8::{decode_utf8, valid_utf8};

verus! {

/// How one run of the revision-control tool ended.
#[derive(Debug)]
pub enum Execution {
    /// The tool could not be started. Holds the reason.
    NotStarted(String),
    /// The tool ran and ended.
    Finished {
        /// Whether it ended with the status of success.
        success: bool,
        /// What it printed.
        stdout: Vec<u8>,
        /// What it printed as errors.
        stderr: Vec<u8>,
    },
}

/// The text that `String::from_utf8_lossy` makes of bytes.
pub uninterp spec fn lossy_decoded(bytes: Seq<u8>) -> Seq<char>;

/// The text in which the error of `String::from_utf8` describes itself, for
/// bytes that are not UTF-8.
pub uninterp spec fn utf8_error_text(bytes: Seq<u8>) -> Seq<char>;

/// Calls `String::from_utf8_lossy` of the standard library and copies what it
/// returns. The contract gives that text a name, and says what the
/// documentation says of bytes that are UTF-8: they are decoded as they are.
#[verifier::external_body]
fn decode_lossy(bytes: &Vec<u8>) -> (text: String)
    ensures
        text@ == lossy_decoded(bytes@),
        valid_utf8(bytes@) ==> text@ == decode_utf8(bytes@),
{
    String::from_utf8_lossy(bytes).into_owned()
}

/// Calls `String::from_utf8` of the standard library. The contract says that
/// it succeeds exactly on bytes that are UTF-8, with the text that they
/// encode, and gives a name to the text of its error.
#[verifier::external_body]
fn decode_strict(bytes: Vec<u8>) -> (text: Result<String, String>)
    ensures
        match text {
            Ok(decoded) => valid_utf8(bytes@) && decoded@ == decode_utf8(bytes@),
            Err(reason) => !valid_utf8(bytes@) && reason@ == utf8_error_text(bytes@),
        },
{
    match String::from_utf8(bytes) {
        Ok(decoded) => Ok(decoded),
        Err(e) => Err(e.to_string()),
    }
}

/// The error of a run that did not succeed, if it is one: the reason why the
/// tool did not start, or what a failed run printed as errors.
pub open spec fn run_failure(run: Execution) -> Option<Seq<char>> {
    match run {
        Execution::NotStarted(reason) => Some(reason@),
        Execution::Finished { success, stdout, stderr } => if success {
            None
        } else {
            Some(lossy_decoded(stderr@))
        },
    }
}

/// What a run printed, where it succeeded.
pub open spec fn run_output(run: Execution) -> Seq<u8> {
    match run {
        Execution::NotStarted(_) => Seq::empty(),
        Execution::Finished { success, stdout, stderr } => stdout@,
    }
}

/// The result is the command error with this text.
pub open spec fn is_command_error<T>(result: Result<T, Error>, text: Seq<char>) -> bool {
    match result {
        Err(Error::GitCommandError(message)) => message@ == text,
        _ => false,
    }
}

/// The answer that decoded output gives to a read-only request: the text,
/// trimmed, or the command error with the reason why it is no text.
pub fn text_answer(decoded: Result<String, String>) -> (result: Result<String, Error>)
    ensures
        match decoded {
            Ok(text) => result is Ok && result->Ok_0@ == trimmed(text@),
            Err(reason) => is_command_error(result, reason@),
        },
{
    match decoded {
        Ok(text) => Ok(trim(text.as_str())),
        Err(reason) => Err(Error::GitCommandError(reason)),
    }
}

/// The answer that decoded output gives to a request for content: the text
/// as it is, or the command error with the reason why it is no text.
pub fn content_answer(decoded: Result<String, String>) -> (result: Result<Option<String>, Error>)
    ensures
        match decoded {
            Ok(text) => result == Ok::<Option<String>, Error>(Some(text)),
            Err(reason) => is_command_error(result, reason@),
        },
{
    match decoded {
        Ok(text) => Ok(Some(text)),
        Err(reason) => Err(Error::GitCommandError(reason)),
    }
}

/// What a run printed, where it succeeded; else its failure.
pub fn run_bytes(run: Execution) -> (result: Result<Vec<u8>, Error>)
    ensures
        match run_failure(run) {
            Some(text) => is_command_error(result, text),
            None => result is Ok && result->Ok_0@ == run_output(run),
        },
{
    match run {
        Execution::NotStarted(reason) => Err(Error::GitCommandError(reason)),
        Execution::Finished { success, stdout, stderr } => {
            if success {
                Ok(stdout)
            } else {
                Err(Error::GitCommandError(decode_lossy(&stderr)))
            }
        },
    }
}

/// The answer to a request that returns nothing: success where the run
/// succeeded, else its failure.
pub fn run_status(run: Execution) -> (result: Result<(), Error>)
    ensures
        match run_failure(run) {
            Some(text) => is_command_error(result, text),
            None => result is Ok,
        },
{
    match run_bytes(run) {
        Ok(_) => Ok(()),
        Err(e) => Err(e),
    }
}

/// The answer to a read-only request: the trimmed text that a successful
/// run printed. A run that failed gives its failure, and output that is not
/// UTF-8 gives a command error that says so.
pub fn run_text(run: Execution) -> (result: Result<String, Error>)
    ensures
        match run_failure(run) {
            Some(text) => is_command_error(result, text),
            None => if valid_utf8(run_output(run)) {
                result is Ok && result->Ok_0@ == trimmed(decode_utf8(run_output(run)))
            } else {
                is_command_error(result, utf8_error_text(run_output(run)))
            },
        },
{
    match run_bytes(run) {
        Ok(stdout) => text_answer(decode_strict(stdout)),
        Err(e) => Err(e),
    }
}

/// The answer to a request for the content of a file at a ref: the text
/// that a successful run printed, as it is; `None` where the run ended with
/// a failure status. A tool that did not start gives its failure, and
/// content that is not UTF-8 gives a command error that says so.
pub fn run_content(run: Execution) -> (result: Result<Option<String>, Error>)
    ensures
        match run {
            Execution::NotStarted(reason) => is_command_error(result, reason@),
            Execution::Finished { success, stdout, stderr } => if !success {
                result is Ok && result->Ok_0 is None
            } else if valid_utf8(stdout@) {
                result is Ok && result->Ok_0 is Some && result->Ok_0->Some_0@ == decode_utf8(
                    stdout@,
                )
            } else {
                is_command_error(result, utf8_error_text(stdout@))
            },
        },
{
    match run {
        Execution::NotStarted(reason) => Err(Error::GitCommandError(reason)),
        Execution::Finished { success, stdout, stderr } => {
            if !success {
                Ok(None)
            } else {
                content_answer(decode_strict(stdout))
            }
        },
    }
}

} // verus!
