//! Canonical formatting of a stylesheet, and the test for it.

use crate::formatting::{describe, outcome_text, FormatError, FormatFailure};
use crate::text::{same_when_trimmed, trimmed};
use biome_formatter::{IndentStyle, IndentWidth};
use biome_css_formatter::context::CssFormatOptions;
use biome_css_formatter::format_node;
use biome_css_parser::{parse_css, CssParserOptions};
use biome_css_syntax::CssFileSource;
use vstd::prelude::*;

verus! {

/// What the formatter prints for a text read as a stylesheet, indented
/// with spaces at the default width; or why it prints nothing.
pub uninterp spec fn formatted_css(source_code: Seq<char>) -> Result<Seq<char>, FormatFailure>;

/// Trusted: `parse_css`, `format_node` and `Formatted::print`, with space
/// indentation at the default width. The result is a function of the text
/// alone; a text with syntax errors is not formatted.
#[verifier::external_body]
fn format_stylesheet(source_code: &str) -> (r: Result<String, FormatError>)
    ensures
        formatted_css(source_code@) == match r {
            Ok(code) => Ok::<Seq<char>, FormatFailure>(code@),
            Err(e) => Err(e@),
        },
{
    let parsed = parse_css(source_code, CssParserOptions::default());
    if parsed.has_errors() {
        return Err(FormatError::Syntax);
    }
    let plain = CssFormatOptions::new(CssFileSource::default());
    let style = plain.with_indent_style(IndentStyle::Space);
    let options = style.with_indent_width(IndentWidth::default());
    match format_node(options, &parsed.syntax()) {
        Err(e) => Err(FormatError::Format(e.to_string())),
        Ok(formatted) => match formatted.print() {
            Ok(printed) => Ok(printed.into_code()),
            Err(e) => Err(FormatError::Print(e.to_string())),
        },
    }
}

/// What `format` returns for a text.
pub open spec fn format_text(source_code: Seq<char>) -> Result<Seq<char>, Seq<char>> {
    outcome_text(formatted_css(source_code))
}

/// Formats a text. Fails with a message where the text has syntax errors or
/// the formatter gives up.
pub fn format(source_code: &str) -> (r: Result<String, String>)
    ensures
        match format_text(source_code@) {
            Ok(code) => r is Ok && r->Ok_0@ == code,
            Err(message) => r is Err && r->Err_0@ == message,
        },
{
    match format_stylesheet(source_code) {
        Ok(code) => Ok(code),
        Err(e) => Err(describe(e)),
    }
}

/// Whether a text reads as the formatter would print it, white space at
/// either end aside. Fails as `format` does.
pub fn is_formatted(source_code: &str) -> (r: Result<bool, String>)
    ensures
        match format_text(source_code@) {
            Ok(code) => r == Ok::<bool, String>(trimmed(code) == trimmed(source_code@)),
            Err(message) => r is Err && r->Err_0@ == message,
        },
{
    match format(source_code) {
        Ok(code) => Ok(same_when_trimmed(code.as_str(), source_code)),
        Err(message) => Err(message),
    }
}

} // verus!
