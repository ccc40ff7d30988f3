//! Canonical formatting of an ECMAScript module, and the test for it.

use crate::formatting::{describe, outcome_text, FormatError, FormatFailure};
use crate::text::{same_when_trimmed, trimmed};
use biome_formatter::{IndentStyle, IndentWidth};
use biome_js_formatter::context::JsFormatOptions;
use biome_js_formatter::format_node;
use biome_js_parser::{parse, JsParserOptions};
use biome_js_syntax::{JsFileSource, ModuleKind};
use vstd::prelude::*;

verus! {

/// What the formatter prints for a text read as an ECMAScript module, indented
/// with spaces at the default width; or why it prints nothing.
pub uninterp spec fn formatted_js(source_code: Seq<char>) -> Result<Seq<char>, FormatFailure>;

/// Trusted: `parse`, `format_node` and `Formatted::print`, with space
/// indentation at the default width. The result is a function of the text
/// alone; a text with syntax errors is not formatted.
#[verifier::external_body]
fn format_module(source_code: &str) -> (r: Result<String, FormatError>)
    ensures
        formatted_js(source_code@) == match r {
            Ok(code) => Ok::<Seq<char>, FormatFailure>(code@),
            Err(e) => Err(e@),
        },
{
    let source = JsFileSource::default().with_module_kind(ModuleKind::Module);
    let parsed = parse(source_code, source, JsParserOptions::default());
    if parsed.has_errors() {
        return Err(FormatError::Syntax);
    }
    let style = JsFormatOptions::new(source).with_indent_style(IndentStyle::Space);
    let options = style.with_indent_width(IndentWidth::default());
    match format_node(options, &parsed.syntax()) {
        Err(e) => Err(FormatError::Format(e.to_string())),
        Ok(formatted) => match formatted.print() {
            Ok(printed) => Ok(printed.into_code()),
            Err(e) => Err(FormatError::Print(e.to_string())),
        },
    }
}

/// What `format` returns for a text.
pub open spec fn format_text(source_code: Seq<char>) -> Result<Seq<char>, Seq<char>> {
    outcome_text(formatted_js(source_code))
}

/// Formats a text. Fails with a message where the text has syntax errors or
/// the formatter gives up.
pub fn format(source_code: &str) -> (r: Result<String, String>)
    ensures
        match format_text(source_code@) {
            Ok(code) => r is Ok && r->Ok_0@ == code,
            Err(message) => r is Err && r->Err_0@ == message,
        },
{
    match format_module(source_code) {
        Ok(code) => Ok(code),
        Err(e) => Err(describe(e)),
    }
}

/// Whether a text reads as the formatter would print it, white space at
/// either end aside. Fails as `format` does.
pub fn is_formatted(source_code: &str) -> (r: Result<bool, String>)
    ensures
        match format_text(source_code@) {
            Ok(code) => r == Ok::<bool, String>(trimmed(code) == trimmed(source_code@)),
            Err(message) => r is Err && r->Err_0@ == message,
        },
{
    match format(source_code) {
        Ok(code) => Ok(same_when_trimmed(code.as_str(), source_code)),
        Err(message) => Err(message),
    }
}

} // verus!
