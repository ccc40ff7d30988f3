//! Parsing and writing of stylesheets.

use crate::parsers::css::ast::{imported_hrefs, is_insertion, ImportInserter};
use crate::text::strings;
use swc_common::comments::SingleThreadedComments;
use swc_common::input::SourceFileInput;
use swc_common::sync::Lrc;
use swc_common::{FileName, SourceMap};
use swc_css_ast::{Rule, Stylesheet};
use swc_css_parser::lexer::Lexer;
use swc_css_parser::parser::{Parser, ParserConfig};
use vstd::prelude::*;

verus! {

/// The error text of `parse`.
pub const PARSE_ERROR: &'static str = "Failed to parse CSS";

/// A stylesheet with the comments found beside it and the source map that
/// its positions refer to.
///
/// A value is made by `parse` and changed only by the functions of this
/// library, so its tree is always what the parser built from one text, with
/// import rules as this library makes them in front. That is what the code
/// generator is handed; a tree put together by hand is not.
pub struct ParsedStylesheet {
    stylesheet: Stylesheet,
    comments: SingleThreadedComments,
    cm: Lrc<SourceMap>,
}

/// What the parser makes of a text read as a stylesheet: the tree, the
/// comments found and the source map that the positions refer to; or nothing
/// where the text is no stylesheet.
pub uninterp spec fn parsed_stylesheet(text: Seq<char>) -> Option<
    (Stylesheet, SingleThreadedComments, Lrc<SourceMap>),
>;

/// What the code generator writes for one rule, unminified; or nothing where
/// it gives up.
pub uninterp spec fn rule_text(rule: Rule) -> Option<Seq<char>>;

/// Trusted: `Lexer::new`, `Parser::new` and `Parser::parse_all`, on a new
/// source map that holds the text as one file. The result is a function of the
/// text alone.
#[verifier::external_body]
fn parse_text(file_content: &str) -> (r: Option<ParsedStylesheet>)
    ensures
        parsed_stylesheet(file_content@) == match r {
            Some(parsed) => Some((parsed.stylesheet, parsed.comments, parsed.cm)),
            None => None::<(Stylesheet, SingleThreadedComments, Lrc<SourceMap>)>,
        },
{
    let cm: Lrc<SourceMap> = Default::default();
    let fm = cm.new_source_file(FileName::Anon.into(), file_content.to_string());
    let comments = SingleThreadedComments::default();
    let lexer = Lexer::new(SourceFileInput::from(&*fm), Some(&comments), ParserConfig::default());
    let parsed = Parser::new(lexer, ParserConfig::default()).parse_all();
    match parsed {
        Ok(stylesheet) => Some(ParsedStylesheet { stylesheet, comments, cm }),
        Err(_) => None,
    }
}

/// Trusted: `CodeGenerator::emit` on one rule of a stylesheet, into a string,
/// unminified. The result is a function of the rule.
///
/// The code generator stops on a block whose opening token is no bracket,
/// which can be put together by hand. A `ParsedStylesheet` holds no such
/// block: the parser opens a block at `{`, `(` or `[` only, and the import
/// rules that this library adds hold no block.
#[verifier::external_body]
pub(crate) fn emit_rule(parsed: &ParsedStylesheet, index: usize) -> (r: Option<String>)
    requires
        index < parsed.sheet().rules@.len(),
    ensures
        rule_text(parsed.sheet().rules@[index as int]) == match r {
            Some(text) => Some(text@),
            None => None::<Seq<char>>,
        },
{
    let mut text = String::new();
    let writer = swc_css_codegen::writer::basic::BasicCssWriter::new(
        &mut text,
        None,
        Default::default(),
    );
    let config = swc_css_codegen::CodegenConfig { minify: false };
    let mut generator = swc_css_codegen::CodeGenerator::new(writer, config);
    match swc_css_codegen::Emit::emit(&mut generator, &parsed.stylesheet.rules[index]) {
        Ok(()) => Some(text),
        Err(_) => None,
    }
}

impl ParsedStylesheet {
    /// The tree.
    pub closed spec fn sheet(self) -> Stylesheet {
        self.stylesheet
    }

    /// The comments found beside the tree.
    pub closed spec fn notes(self) -> SingleThreadedComments {
        self.comments
    }

    /// The source map that the positions of the tree refer to.
    pub closed spec fn map(self) -> Lrc<SourceMap> {
        self.cm
    }

    /// The tree, to read.
    pub fn stylesheet(&self) -> (r: &Stylesheet)
        ensures
            *r == self.sheet(),
    {
        &self.stylesheet
    }

    /// The comments, to read.
    pub fn comments(&self) -> (r: &SingleThreadedComments)
        ensures
            *r == self.notes(),
    {
        &self.comments
    }

    /// The tree, and nothing else.
    pub fn into_stylesheet(self) -> (r: Stylesheet)
        ensures
            r == self.sheet(),
    {
        self.stylesheet
    }

    /// Puts the imports that the lines of the pass ask for in front of the
    /// stylesheet, as `ImportInserter::insert_into` does.
    pub fn insert_imports(&mut self, inserter: &mut ImportInserter)
        ensures
            final(self).notes() == old(self).notes(),
            final(self).map() == old(self).map(),
            final(self).sheet().span == old(self).sheet().span,
            is_insertion(
                old(self).sheet().rules@,
                strings(old(inserter).existing_imports@),
                strings(old(inserter).new_import_strings@),
                final(self).sheet().rules@,
            ),
            final(inserter).new_import_strings@.len() == 0,
            strings(final(inserter).existing_imports@) == strings(old(inserter).existing_imports@)
                + imported_hrefs(old(self).sheet().rules@),
    {
        inserter.insert_into(&mut self.stylesheet);
    }
}

/// Parses a text as a stylesheet.
pub fn parse(file_content: &str) -> (r: Result<ParsedStylesheet, String>)
    ensures
        match r {
            Ok(parsed) => parsed_stylesheet(file_content@) == Some(
                (parsed.sheet(), parsed.notes(), parsed.map()),
            ),
            Err(message) => parsed_stylesheet(file_content@) is None && message@ == PARSE_ERROR@,
        },
{
    match parse_text(file_content) {
        Some(parsed) => Ok(parsed),
        None => Err(PARSE_ERROR.to_owned()),
    }
}

} // verus!
