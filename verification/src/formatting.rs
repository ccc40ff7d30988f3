//! Why a text could not be formatted, for both dialects.

use vstd::prelude::*;
use vstd::string::*;

verus! {

/// The error text for a source that has syntax errors.
pub const SYNTAX_ERROR: &'static str = "Parsing failed due to syntax errors.";

/// What the error text of a failed formatting begins with.
pub const FORMAT_ERROR_PREFIX: &'static str = "Formatting failed: ";

/// Why a text could not be formatted.
#[derive(Debug)]
pub enum FormatError {
    /// The text has syntax errors.
    Syntax,
    /// The formatter gave up, with this message.
    Format(String),
    /// The printer gave up, with this message.
    Print(String),
}

/// Why a text could not be formatted, with the messages as characters.
pub enum FormatFailure {
    Syntax,
    Format(Seq<char>),
    Print(Seq<char>),
}

impl View for FormatError {
    type V = FormatFailure;

    open spec fn view(&self) -> FormatFailure {
        match self {
            FormatError::Syntax => FormatFailure::Syntax,
            FormatError::Format(message) => FormatFailure::Format(message@),
            FormatError::Print(message) => FormatFailure::Print(message@),
        }
    }
}

/// The error text for a failure.
pub open spec fn failure_text(e: FormatFailure) -> Seq<char> {
    match e {
        FormatFailure::Syntax => SYNTAX_ERROR@,
        FormatFailure::Format(message) => FORMAT_ERROR_PREFIX@ + message,
        FormatFailure::Print(message) => message,
    }
}

/// The error text for a failure.
pub fn describe(e: FormatError) -> (r: String)
    ensures
        r@ == failure_text(e@),
{
    match e {
        FormatError::Syntax => SYNTAX_ERROR.to_owned(),
        FormatError::Format(message) => FORMAT_ERROR_PREFIX.to_owned().concat(message.as_str()),
        FormatError::Print(message) => message,
    }
}

/// What formatting returns for what the formatter makes of a text: the text
/// it prints, or the error text of the failure.
pub open spec fn outcome_text(formatted: Result<Seq<char>, FormatFailure>) -> Result<
    Seq<char>,
    Seq<char>,
> {
    match formatted {
        Ok(code) => Ok(code),
        Err(e) => Err(failure_text(e)),
    }
}

} // verus!
