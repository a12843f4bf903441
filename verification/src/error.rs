//! The one error type of the front end: a failure of input or output, or a
//! fault in the source text with the line it was found on.

use crate::text::{append_decimal, decimal};
use vstd::prelude::*;

verus! {

/// `std::io::ErrorKind`, the kind of a failure of input or output. Its
/// values are carried through as they are: nothing is claimed of what one
/// holds.
#[verifier::external_type_specification]
#[verifier::external_body]
pub struct ExErrorKind(std::io::ErrorKind);

/// The name under which `std::io::ErrorKind` prints `kind` through `Debug`:
/// the variant's name, such as `NotFound`.
pub uninterp spec fn io_kind_name(kind: std::io::ErrorKind) -> Seq<char>;

/// Formats `kind` with std's `Debug` for `std::io::ErrorKind`. The text
/// depends on the kind alone; the contract gives it the name
/// [`io_kind_name`] and claims nothing more of it.
#[verifier::external_body]
fn io_kind_text(kind: &std::io::ErrorKind) -> (name: String)
    ensures
        name@ == io_kind_name(*kind),
{
    format!("{:?}", kind)
}

/// An error as contracts see it: the view of an [`RLoxError`].
pub enum ErrorView {
    IO { kind: std::io::ErrorKind },
    Source { line: nat, location: Seq<char>, message: Seq<char> },
}

/// The diagnostic line of a failure of input or output of the kind that is
/// called `kind_name`.
pub open spec fn io_text(kind_name: Seq<char>) -> Seq<char> {
    "IO error: "@ + kind_name
}

/// The diagnostic line of a fault in the source.
pub open spec fn source_text(line: nat, location: Seq<char>, message: Seq<char>) -> Seq<char> {
    "["@ + decimal(line) + "] Error "@ + location + ": "@ + message
}

impl ErrorView {
    /// The diagnostic line of an error: `[line] Error location: message`
    /// for a fault in the source, the kind's name behind `IO error: ` for a
    /// failure of input or output.
    pub open spec fn text(self) -> Seq<char> {
        match self {
            ErrorView::IO { kind } => io_text(io_kind_name(kind)),
            ErrorView::Source { line, location, message } => source_text(line, location, message),
        }
    }
}

/// The diagnostic line of a failure of input or output of the kind that is
/// called `kind_name`.
pub fn io_diagnostic(kind_name: &str) -> (text: String)
    ensures
        text@ == io_text(kind_name@),
{
    String::from_str("IO error: ").concat(kind_name)
}

/// The diagnostic line of a fault in the source: `[line] Error location:
/// message`.
pub fn source_diagnostic(line: usize, location: &str, message: &str) -> (text: String)
    ensures
        text@ == source_text(line as nat, location@, message@),
{
    let mut text = String::from_str("[");
    append_decimal(&mut text, line);
    text.append("] Error ");
    text.append(location);
    text.append(": ");
    text.append(message);
    text
}

/// What can go wrong between the source text and its syntax tree.
#[derive(Debug, PartialEq)]
pub enum RLoxError {
    /// Reading the source failed.
    IO { kind: std::io::ErrorKind },
    /// The source text is at fault on `line`; `location` says where on the
    /// line and may be empty.
    Source { line: usize, location: String, message: String },
}

impl View for RLoxError {
    type V = ErrorView;

    open spec fn view(&self) -> ErrorView {
        match self {
            RLoxError::IO { kind } => ErrorView::IO { kind: *kind },
            RLoxError::Source { line, location, message } => ErrorView::Source {
                line: *line as nat,
                location: location@,
                message: message@,
            },
        }
    }
}

impl RLoxError {
    /// A fault in the source text on `line`, at `location`.
    pub fn source(line: usize, location: String, message: String) -> (error: Self)
        ensures
            error == (RLoxError::Source { line, location, message }),
    {
        RLoxError::Source { line, location, message }
    }

    /// The diagnostic line of this error.
    pub fn to_string(&self) -> (text: String)
        ensures
            text@ == self@.text(),
    {
        match self {
            RLoxError::IO { kind } => io_diagnostic(io_kind_text(kind).as_str()),
            RLoxError::Source { line, location, message } => source_diagnostic(
                *line,
                location.as_str(),
                message.as_str(),
            ),
        }
    }
}

/// A result whose error is an [`RLoxError`].
pub type RLoxResult<T> = Result<T, RLoxError>;

} // verus!
