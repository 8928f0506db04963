//! Create iCalendar documents for Norwegian mailbox delivery dates.
use std::io;
use std::path::PathBuf;
use vstd::prelude::*;
use vstd::string::*;

pub mod bring_client;
pub mod calendar;
pub mod date;
pub mod text;

verus! {

/// An error as the user is told of it: what went wrong, a colon and a space,
/// and the path that it went wrong at.
pub open spec fn error_at_path(error: Seq<char>, path: Seq<char>) -> Seq<char> {
    error + ": "@ + path
}

/// Joins what went wrong and the path that it went wrong at.
pub fn describe_error(error: &str, path: &str) -> (message: String)
    ensures
        message@ == error_at_path(error@, path@),
{
    let mut message = String::new();
    message.append(error);
    message.append(": ");
    message.append(path);
    message
}

/// What the user is told when reading or writing `path` failed with `err`.
/// The words for the error and the way the path is quoted are the standard
/// library's, and may differ from one machine to the next.
#[inline]
#[must_use]
pub fn io_error_to_string(err: &io::Error, path: &PathBuf) -> (message: String)
    ensures
        exists|error: Seq<char>, quoted: Seq<char>| message@ == #[trigger] error_at_path(error, quoted),
{
    let error = error_text(err);
    let quoted = quoted_path(path);
    describe_error(error.as_str(), quoted.as_str())
}

/// An error of input or output, as the standard library holds it.
#[verifier::external_type_specification]
#[verifier::external_body]
pub struct ExIoError(io::Error);

/// A path in the file system, as the standard library holds it.
#[verifier::external_type_specification]
#[verifier::external_body]
pub struct ExPathBuf(PathBuf);

/// `Display` of the standard library's `io::Error`, written to a string.
/// Nothing is claimed of the words.
#[verifier::external_body]
fn error_text(err: &io::Error) -> String {
    format!("{err}")
}

/// `Debug` of the standard library's `PathBuf`, written to a string: the path
/// in quotes. Nothing is claimed of the text.
#[verifier::external_body]
fn quoted_path(path: &PathBuf) -> String {
    format!("{path:?}")
}

} // verus!
