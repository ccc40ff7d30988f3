//! Parsing, emission and the test for a repeated import.

use crate::parsers::javascript::ast::{
    all_imports, insert_imports, kinds_walked, objects_passed, remove_imports, walk_for_kinds,
    walk_for_objects, with_imports, without_imports, NodeCounter, ObjectExtender,
    NOT_AN_IMPORT_ERROR, PARSE_IMPORTS_ERROR,
};
use crate::parsers::javascript::names::{same_specifier, specifier_units};
use crate::parsers::javascript::phoenix::{hooks_passed, walk_for_hooks, HookExtender};
use crate::source::{atom_text, same_atom};
use crate::text::{replace_all, replaced};
use swc_common::comments::SingleThreadedComments;
use swc_common::sync::Lrc;
use swc_atoms::Atom;
use swc_common::{FileName, SourceMap, Span};
use swc_ecma_ast::{ImportDecl, ImportSpecifier, Module, ModuleDecl, ModuleItem};
use swc_ecma_codegen::text_writer::JsWriter;
use swc_ecma_codegen::{Config, Emitter};
use swc_ecma_parser::{Lexer, Parser, StringInput, Syntax};
use vstd::prelude::*;

verus! {

/// The error text of `parse`.
pub const PARSE_MODULE_ERROR: &'static str = "Failed to parse module";

/// The error text of an operation whose source text does not parse.
pub const PARSE_CONTENT_ERROR: &'static str = "Failed to parse JavaScript content";

/// The error text of an emission that the code generator gave up.
pub const EMIT_ERROR: &'static str = "Failed to emit module";

/// The error text of an emission that is no valid UTF-8.
pub const UTF8_ERROR: &'static str = "Invalid UTF-8";

/// Why a tree could not be turned back into text.
#[derive(Debug, Clone, Copy, PartialEq, Eq, Structural)]
pub enum EmitError {
    /// The code generator reported an error.
    Emit,
    /// The bytes written are no valid UTF-8.
    Utf8,
}

/// A module with the comments found beside it and the source map that its
/// positions refer to.
///
/// A value is made by `parse` and changed only by the functions of this
/// library, so its tree is always what the parser built from one text, with
/// the edits of the passes in it: import declarations parsed into the same
/// source map, and entries that stand at the dummy span. That is what the code
/// generator is handed; a tree put together by hand is not.
pub struct ParsedModule {
    module: Module,
    comments: SingleThreadedComments,
    cm: Lrc<SourceMap>,
}

/// What the parser makes of a text read as an ECMAScript module: the tree, the
/// comments found and the source map that the positions refer to; or nothing
/// where the text is no module.
pub uninterp spec fn parsed_module(text: Seq<char>) -> Option<
    (Module, SingleThreadedComments, Lrc<SourceMap>),
>;

/// What the parser makes of a text that is read as a further file of a source
/// map: the items of the text, or nothing where the text is no module; and the
/// source map with the text in it. Comments of the text are not kept.
pub uninterp spec fn parsed_beside(cm: Lrc<SourceMap>, text: Seq<char>) -> (
    Option<Seq<ModuleItem>>,
    Lrc<SourceMap>,
);

/// What the code generator writes, unminified and with `\n` between lines, for
/// the module that has the given items, span and interpreter line, with the
/// comments found beside it.
pub uninterp spec fn emitted_module(
    body: Seq<ModuleItem>,
    span: Span,
    shebang: Option<Atom>,
    comments: SingleThreadedComments,
    cm: Lrc<SourceMap>,
) -> Result<Seq<char>, EmitError>;

/// Trusted: `Lexer::new`, `Parser::new_from` and `Parser::parse_module`, on a
/// new source map that holds the text as one file. The result is a function of
/// the text alone.
#[verifier::external_body]
fn parse_text(file_content: &str) -> (r: Option<ParsedModule>)
    ensures
        parsed_module(file_content@) == match r {
            Some(parsed) => Some((parsed.module, parsed.comments, parsed.cm)),
            None => None::<(Module, SingleThreadedComments, Lrc<SourceMap>)>,
        },
{
    let cm: Lrc<SourceMap> = Default::default();
    let name = FileName::Custom("virtual_file.js".into());
    let fm = cm.new_source_file(name.into(), file_content.to_string());
    let comments = SingleThreadedComments::default();
    let syntax = Syntax::Es(Default::default());
    let lexer = Lexer::new(syntax, Default::default(), StringInput::from(&*fm), Some(&comments));
    let parsed = Parser::new_from(lexer).parse_module();
    match parsed {
        Ok(module) => Some(ParsedModule { module, comments, cm }),
        Err(_) => None,
    }
}

/// Trusted: `SourceMap::new_source_file`, then `Lexer::new`,
/// `Parser::new_from` and `Parser::parse_module` without a place for comments.
/// The text becomes a further file of the module's source map, so the items
/// that come back have their positions in that map; the map is the only part
/// of the module that changes. The result is a function of the map and the
/// text.
#[verifier::external_body]
fn parse_beside(parsed: &mut ParsedModule, text: &str) -> (r: Option<Vec<ModuleItem>>)
    ensures
        final(parsed).module == old(parsed).module,
        final(parsed).comments == old(parsed).comments,
        parsed_beside(old(parsed).cm, text@) == (
            match r {
                Some(items) => Some(items@),
                None => None::<Seq<ModuleItem>>,
            },
            final(parsed).cm,
        ),
{
    let name = FileName::Custom("virtual_file.js".into());
    let fm = parsed.cm.new_source_file(name.into(), text.to_string());
    let syntax = Syntax::Es(Default::default());
    let lexer = Lexer::new(syntax, Default::default(), StringInput::from(&*fm), None);
    match Parser::new_from(lexer).parse_module() {
        Ok(module) => Some(module.body),
        Err(_) => None,
    }
}

/// Trusted: `Emitter::emit_module` into a buffer, then `String::from_utf8`.
/// The module is used up: the code generator takes the comments out as it
/// writes them. The result is a function of what the tree holds, its comments
/// and its source map.
///
/// The code generator stops on some trees that can be put together by hand:
/// on a default specifier in a list of exports, on an import of a namespace
/// beside more than one other name, and on positions that lie in no file of
/// the source map or inside a character. A `ParsedModule` holds no such tree:
/// the parser builds none under the syntax used here, every position it sets
/// lies in the one source map, and what the passes add stands at the dummy
/// span, which is looked up nowhere.
#[verifier::external_body]
fn emit_text(parsed: ParsedModule) -> (r: Result<String, EmitError>)
    ensures
        emitted_module(
            parsed.module.body@,
            parsed.module.span,
            parsed.module.shebang,
            parsed.comments,
            parsed.cm,
        ) == match r {
            Ok(text) => Ok::<Seq<char>, EmitError>(text@),
            Err(e) => Err(e),
        },
{
    let mut buf = vec![];
    let wr = JsWriter::new(parsed.cm.clone(), "\n", &mut buf, None);
    let cfg = Config::default().with_minify(false);
    let comments = Some(&parsed.comments as &dyn swc_common::comments::Comments);
    let mut emitter = Emitter { cfg, cm: parsed.cm.clone(), comments, wr };
    let written = emitter.emit_module(&parsed.module);
    match written {
        Ok(()) => String::from_utf8(buf).map_err(|_| EmitError::Utf8),
        Err(_) => Err(EmitError::Emit),
    }
}

/// The error text for a failed emission.
pub open spec fn emit_error_text(e: EmitError) -> Seq<char> {
    match e {
        EmitError::Emit => EMIT_ERROR@,
        EmitError::Utf8 => UTF8_ERROR@,
    }
}

/// The outcome of emitting the items `body` in place of the items of `module`,
/// as `code_gen_from_ast_module` reports it.
pub open spec fn generated(
    module: Module,
    body: Seq<ModuleItem>,
    comments: SingleThreadedComments,
    cm: Lrc<SourceMap>,
) -> Result<Seq<char>, Seq<char>> {
    match emitted_module(body, module.span, module.shebang, comments, cm) {
        Ok(text) => Ok(text),
        Err(e) => Err(emit_error_text(e)),
    }
}

/// The characters of a text result, on either side.
pub open spec fn result_text(r: Result<String, String>) -> Result<Seq<char>, Seq<char>> {
    match r {
        Ok(text) => Ok(text@),
        Err(text) => Err(text@),
    }
}

/// The passes that a module can be handed to.
pub enum Pass<'a> {
    /// Works on the hooks of the socket.
    Hooks(HookExtender<'a>),
    /// Extends the object literal of a named variable.
    Objects(ObjectExtender<'a>),
    /// Counts nodes.
    Kinds(NodeCounter),
}

/// Whether a traversal of `module` by the pass `before` leaves the module
/// `walked` and the pass `after`: the pass is of the same kind, and has done
/// what a pass of its kind does.
pub open spec fn traversed(module: Module, before: Pass, walked: Module, after: Pass) -> bool {
    match before {
        Pass::Hooks(b) => after is Hooks && hooks_passed(module, b, walked, after->Hooks_0),
        Pass::Objects(b) => after is Objects && objects_passed(module, b, walked, after->Objects_0),
        Pass::Kinds(b) => {
            &&& after is Kinds
            &&& after->Kinds_0.operation == b.operation
            &&& after->Kinds_0.seen@ == kinds_walked(module, b.seen@, b.operation)
        },
    }
}

/// What an insertion of import lines makes of a body, or why it makes
/// nothing: the lines do not parse, or they hold something else than import
/// declarations.
pub open spec fn body_with_lines(body: Seq<ModuleItem>, lines: Option<Seq<ModuleItem>>) -> Result<
    Seq<ModuleItem>,
    Seq<char>,
> {
    match lines {
        None => Err(PARSE_IMPORTS_ERROR@),
        Some(items) => if all_imports(items) {
            Ok(with_imports(body, items))
        } else {
            Err(NOT_AN_IMPORT_ERROR@)
        },
    }
}

impl ParsedModule {
    /// The tree.
    pub closed spec fn tree(self) -> Module {
        self.module
    }

    /// The comments found beside the tree.
    pub closed spec fn notes(self) -> SingleThreadedComments {
        self.comments
    }

    /// The source map that the positions of the tree refer to.
    pub closed spec fn map(self) -> Lrc<SourceMap> {
        self.cm
    }

    /// The tree, to read.
    pub fn module(&self) -> (r: &Module)
        ensures
            *r == self.tree(),
    {
        &self.module
    }

    /// The items of the tree, and nothing else.
    pub fn into_body(self) -> (r: Vec<ModuleItem>)
        ensures
            r == self.tree().body,
    {
        self.module.body
    }

    /// Hands the tree to a pass that works on the hooks of the socket.
    pub fn visit_hooks(&mut self, pass: &mut HookExtender)
        ensures
            final(self).notes() == old(self).notes(),
            final(self).map() == old(self).map(),
            hooks_passed(old(self).tree(), *old(pass), final(self).tree(), *final(pass)),
    {
        walk_for_hooks(&mut self.module, pass);
    }

    /// Hands the tree to a pass that extends a named object literal.
    pub fn visit_objects(&mut self, pass: &mut ObjectExtender)
        ensures
            final(self).notes() == old(self).notes(),
            final(self).map() == old(self).map(),
            objects_passed(old(self).tree(), *old(pass), final(self).tree(), *final(pass)),
    {
        walk_for_objects(&mut self.module, pass);
    }

    /// Hands the tree to a counter. The counter leaves the tree as it is.
    pub fn visit_kinds(&mut self, pass: &mut NodeCounter)
        ensures
            *final(self) == *old(self),
            final(pass).operation == old(pass).operation,
            final(pass).seen@ == kinds_walked(old(self).tree(), old(pass).seen@, old(pass).operation),
    {
        walk_for_kinds(&mut self.module, pass);
    }

    /// Hands the tree to a pass.
    pub fn visit(&mut self, pass: &mut Pass)
        ensures
            final(self).notes() == old(self).notes(),
            final(self).map() == old(self).map(),
            traversed(old(self).tree(), *old(pass), final(self).tree(), *final(pass)),
    {
        match pass {
            Pass::Hooks(pass) => {
                self.visit_hooks(pass);
            },
            Pass::Objects(pass) => {
                self.visit_objects(pass);
            },
            Pass::Kinds(pass) => {
                self.visit_kinds(pass);
            },
        }
    }

    /// Reads `import_lines` as a further file of this module's source map and
    /// inserts its import declarations into the tree, as `insert_imports`
    /// does. Nothing is inserted where the lines do not parse or hold
    /// something else than import declarations; the result says which.
    pub fn insert_imports_from(&mut self, import_lines: &str) -> (r: Result<(), String>)
        ensures
            final(self).notes() == old(self).notes(),
            final(self).map() == parsed_beside(old(self).map(), import_lines@).1,
            final(self).tree().span == old(self).tree().span,
            final(self).tree().shebang == old(self).tree().shebang,
            match body_with_lines(
                old(self).tree().body@,
                parsed_beside(old(self).map(), import_lines@).0,
            ) {
                Ok(body) => r is Ok && final(self).tree().body@ == body,
                Err(message) => {
                    &&& r is Err
                    &&& r->Err_0@ == message
                    &&& final(self).tree().body@ == old(self).tree().body@
                },
            },
    {
        let imports = match parse_beside(self, import_lines) {
            Some(imports) => imports,
            None => {
                return Err(PARSE_IMPORTS_ERROR.to_owned());
            },
        };
        if insert_imports(&mut self.module.body, imports) {
            Ok(())
        } else {
            Err(NOT_AN_IMPORT_ERROR.to_owned())
        }
    }

    /// Removes from the tree every import declaration of a module that
    /// `named` imports, as `remove_imports` does.
    pub fn remove_imports_of(&mut self, named: &Vec<ModuleItem>)
        ensures
            final(self).notes() == old(self).notes(),
            final(self).map() == old(self).map(),
            final(self).tree().span == old(self).tree().span,
            final(self).tree().shebang == old(self).tree().shebang,
            final(self).tree().body@ == without_imports(old(self).tree().body@, named@),
    {
        remove_imports(&mut self.module.body, named);
    }
}

/// What `parse` makes of a text, as one value.
pub open spec fn is_parsed(parsed: ParsedModule, text: Seq<char>) -> bool {
    parsed_module(text) == Some((parsed.tree(), parsed.notes(), parsed.map()))
}

/// Parses a text as an ECMAScript module.
pub fn parse(file_content: &str) -> (r: Result<ParsedModule, String>)
    ensures
        match r {
            Ok(parsed) => is_parsed(parsed, file_content@),
            Err(message) => parsed_module(file_content@) is None && message@ == PARSE_MODULE_ERROR@,
        },
{
    match parse_text(file_content) {
        Some(parsed) => Ok(parsed),
        None => Err(PARSE_MODULE_ERROR.to_owned()),
    }
}

/// What is written for a module.
pub open spec fn written(parsed: ParsedModule) -> Result<Seq<char>, Seq<char>> {
    generated(parsed.tree(), parsed.tree().body@, parsed.notes(), parsed.map())
}

/// Turns a module back into text, with the comments that were found beside
/// it. The module is used up.
pub fn code_gen_from_ast_module(parsed: ParsedModule) -> (r: Result<String, String>)
    ensures
        result_text(r) == written(parsed),
{
    match emit_text(parsed) {
        Ok(text) => Ok(text),
        Err(EmitError::Emit) => Err(EMIT_ERROR.to_owned()),
        Err(EmitError::Utf8) => Err(UTF8_ERROR.to_owned()),
    }
}

/// Parses the source text, hands the module to the pass and turns what the
/// pass leaves of it back into text. The pass holds afterwards what it found.
///
/// Fails where the text does not parse, and then leaves the pass alone, and
/// where the module cannot be written.
pub fn code_gen_from_ast_vist(file_content: &str, visitor: &mut Pass) -> (r: Result<String, String>)
    ensures
        match parsed_module(file_content@) {
            None => {
                &&& result_text(r) == Err::<Seq<char>, Seq<char>>(PARSE_CONTENT_ERROR@)
                &&& *final(visitor) == *old(visitor)
            },
            Some((module, comments, cm)) => exists|walked: Module|
                {
                    &&& #[trigger] traversed(module, *old(visitor), walked, *final(visitor))
                    &&& result_text(r) == generated(walked, walked.body@, comments, cm)
                },
        },
{
    let mut parsed = match parse(file_content) {
        Ok(parsed) => parsed,
        Err(_) => {
            return Err(PARSE_CONTENT_ERROR.to_owned());
        },
    };
    let ghost before = parsed;
    parsed.visit(visitor);
    proof {
        assert(traversed(before.tree(), *old(visitor), parsed.tree(), *visitor));
    }
    code_gen_from_ast_module(parsed)
}

/// The module specifier of an item, where the item is an import declaration.
pub open spec fn import_source(item: ModuleItem) -> Option<Seq<u8>> {
    match item {
        ModuleItem::ModuleDecl(ModuleDecl::Import(decl)) => Some(specifier_units(decl.src.value)),
        _ => None,
    }
}

/// Whether `body` holds an import declaration of the module that `source`
/// names.
pub open spec fn imports_source(body: Seq<ModuleItem>, source: Seq<u8>) -> bool {
    exists|i: int| 0 <= i < body.len() && #[trigger] import_source(body[i]) == Some(source)
}

/// Whether `new_import` repeats an import of `body`: it is an import
/// declaration and `body` imports the same module. The names that either
/// declaration binds play no part.
pub open spec fn is_repeated_import(new_import: ModuleItem, body: Seq<ModuleItem>) -> bool {
    match import_source(new_import) {
        Some(source) => imports_source(body, source),
        None => false,
    }
}

/// The import declaration that an item is, if it is one.
pub fn as_import(item: &ModuleItem) -> (r: Option<&ImportDecl>)
    ensures
        match r {
            Some(decl) => item == ModuleItem::ModuleDecl(ModuleDecl::Import(*decl)),
            None => import_source(*item) is None,
        },
{
    match item {
        ModuleItem::ModuleDecl(ModuleDecl::Import(decl)) => Some(decl),
        _ => None,
    }
}

/// Whether `new_import` repeats an import that `body` already holds. Two
/// import declarations repeat each other exactly when their module specifiers
/// are equal, character for character.
pub fn is_duplicate_import(new_import: &ModuleItem, body: &[ModuleItem]) -> (r: bool)
    ensures
        r == is_repeated_import(*new_import, body@),
{
    match as_import(new_import) {
        None => false,
        Some(new_decl) => {
            let mut i: usize = 0;
            while i < body.len()
                invariant
                    i <= body@.len(),
                    import_source(*new_import) == Some(specifier_units(new_decl.src.value)),
                    forall|j: int|
                        0 <= j < i ==> #[trigger] import_source(body@[j]) != import_source(
                            *new_import,
                        ),
                decreases body@.len() - i,
            {
                match as_import(&body[i]) {
                    Some(existing) => {
                        if same_specifier(&new_decl.src.value, &existing.src.value) {
                            return true;
                        }
                    },
                    None => {},
                }
                i = i + 1;
            }
            false
        },
    }
}

/// The local name that an import specifier binds.
pub open spec fn bound_name(spec: ImportSpecifier) -> Seq<char> {
    match spec {
        ImportSpecifier::Named(named) => atom_text(named.local.sym),
        ImportSpecifier::Default(default) => atom_text(default.local.sym),
        ImportSpecifier::Namespace(star) => atom_text(star.local.sym),
    }
}

/// Whether two import specifiers are of the same kind: both named, both the
/// default or both a namespace.
pub open spec fn same_kind(a: ImportSpecifier, b: ImportSpecifier) -> bool {
    ||| a is Named && b is Named
    ||| a is Default && b is Default
    ||| a is Namespace && b is Namespace
}

/// Whether two import specifiers bind the same local name in the same way.
pub fn specifier_equals(new_spec: &ImportSpecifier, existing_spec: &ImportSpecifier) -> (r: bool)
    ensures
        r == (same_kind(*new_spec, *existing_spec) && bound_name(*new_spec) == bound_name(
            *existing_spec,
        )),
{
    match (new_spec, existing_spec) {
        (ImportSpecifier::Named(new_named), ImportSpecifier::Named(existing_named)) => same_atom(
            &new_named.local.sym,
            &existing_named.local.sym,
        ),
        (ImportSpecifier::Default(new_named), ImportSpecifier::Default(existing_named)) => same_atom(
            &new_named.local.sym,
            &existing_named.local.sym,
        ),
        (
            ImportSpecifier::Namespace(new_named),
            ImportSpecifier::Namespace(existing_named),
        ) => same_atom(&new_named.local.sym, &existing_named.local.sym),
        _ => false,
    }
}

/// Whether a declaration binds a local name in the way of `spec`.
pub open spec fn binds(decl: ImportDecl, spec: ImportSpecifier) -> bool {
    exists|i: int|
        0 <= i < decl.specifiers@.len() && same_kind(spec, #[trigger] decl.specifiers@[i])
            && bound_name(spec) == bound_name(decl.specifiers@[i])
}

/// Whether `existing` binds every local name that `new_decl` binds, each in
/// the same way.
pub open spec fn covers(existing: ImportDecl, new_decl: ImportDecl) -> bool {
    forall|j: int|
        0 <= j < new_decl.specifiers@.len() ==> binds(existing, #[trigger] new_decl.specifiers@[j])
}

/// The index of the first import declaration of the module that `source`
/// names, or the number of items where there is none.
pub open spec fn first_import_of(body: Seq<ModuleItem>, source: Seq<u8>) -> int
    decreases body.len(),
{
    if body.len() == 0 || import_source(body[0]) == Some(source) {
        0
    } else {
        1 + first_import_of(body.skip(1), source)
    }
}

/// Whether `new_import` repeats an import of `body` in part only: `body`
/// imports its module, and the first declaration that does lacks a name that
/// `new_import` binds. Insertion skips such an import like any other repeat;
/// this test is for a caller who wants to know.
pub open spec fn is_partial_repeat(new_import: ModuleItem, body: Seq<ModuleItem>) -> bool {
    match new_import {
        ModuleItem::ModuleDecl(ModuleDecl::Import(new_decl)) => {
            let at = first_import_of(body, specifier_units(new_decl.src.value));
            &&& 0 <= at < body.len()
            &&& match body[at] {
                ModuleItem::ModuleDecl(ModuleDecl::Import(existing)) => !covers(existing, new_decl),
                _ => false,
            }
        },
        _ => false,
    }
}

/// The first import of a module is where it is said to be.
pub proof fn lemma_first_import_of(body: Seq<ModuleItem>, source: Seq<u8>)
    ensures
        0 <= first_import_of(body, source) <= body.len(),
        forall|i: int|
            0 <= i < first_import_of(body, source) ==> #[trigger] import_source(body[i]) != Some(
                source,
            ),
        first_import_of(body, source) < body.len() ==> import_source(
            body[first_import_of(body, source)],
        ) == Some(source),
    decreases body.len(),
{
    if body.len() > 0 && import_source(body[0]) != Some(source) {
        lemma_first_import_of(body.skip(1), source);
        let k = first_import_of(body.skip(1), source);
        assert forall|i: int| 0 <= i < 1 + k implies #[trigger] import_source(body[i]) != Some(
            source,
        ) by {
            if i > 0 {
                assert(body.skip(1)[i - 1] == body[i]);
            }
        }
        if k < body.skip(1).len() {
            assert(body.skip(1)[k] == body[1 + k]);
        }
    }
}

/// Whether a declaration binds a local name in the way of `spec`.
pub fn binds_specifier(decl: &ImportDecl, spec: &ImportSpecifier) -> (r: bool)
    ensures
        r == binds(*decl, *spec),
{
    let mut i: usize = 0;
    while i < decl.specifiers.len()
        invariant
            i <= decl.specifiers@.len(),
            forall|j: int|
                0 <= j < i ==> !(same_kind(*spec, #[trigger] decl.specifiers@[j]) && bound_name(
                    *spec,
                ) == bound_name(decl.specifiers@[j])),
        decreases decl.specifiers@.len() - i,
    {
        if specifier_equals(spec, &decl.specifiers[i]) {
            return true;
        }
        i = i + 1;
    }
    false
}

/// Whether `existing` binds every local name that `new_decl` binds.
pub fn covers_import(existing: &ImportDecl, new_decl: &ImportDecl) -> (r: bool)
    ensures
        r == covers(*existing, *new_decl),
{
    let mut j: usize = 0;
    while j < new_decl.specifiers.len()
        invariant
            j <= new_decl.specifiers@.len(),
            forall|k: int| 0 <= k < j ==> binds(*existing, #[trigger] new_decl.specifiers@[k]),
        decreases new_decl.specifiers@.len() - j,
    {
        if !binds_specifier(existing, &new_decl.specifiers[j]) {
            return false;
        }
        j = j + 1;
    }
    true
}

/// Whether `new_import` repeats an import of `body` in part only: see
/// `is_partial_repeat`.
pub fn is_partial_duplicate_import(new_import: &ModuleItem, body: &[ModuleItem]) -> (r: bool)
    ensures
        r == is_partial_repeat(*new_import, body@),
{
    match as_import(new_import) {
        None => false,
        Some(new_decl) => {
            let ghost source = specifier_units(new_decl.src.value);
            proof {
                lemma_first_import_of(body@, source);
            }
            let mut i: usize = 0;
            while i < body.len()
                invariant
                    i <= body@.len(),
                    source == specifier_units(new_decl.src.value),
                    *new_import == ModuleItem::ModuleDecl(ModuleDecl::Import(*new_decl)),
                    i <= first_import_of(body@, source) <= body@.len(),
                    first_import_of(body@, source) < body@.len() ==> import_source(
                        body@[first_import_of(body@, source)],
                    ) == Some(source),
                    forall|j: int|
                        0 <= j < first_import_of(body@, source) ==> #[trigger] import_source(
                            body@[j],
                        ) != Some(source),
                decreases body@.len() - i,
            {
                match as_import(&body[i]) {
                    Some(existing) => {
                        if same_specifier(&new_decl.src.value, &existing.src.value) {
                            return !covers_import(existing, new_decl);
                        }
                    },
                    None => {},
                }
                i = i + 1;
            }
            false
        },
    }
}

/// Replaces every run of four spaces, counted from the left, by one tab.
pub fn replace_four_spaces_with_tab(input: &str) -> (r: String)
    ensures
        r@ == replaced(input@, seq![' ', ' ', ' ', ' '], seq!['\t']),
{
    proof {
        reveal_strlit("    ");
        reveal_strlit("\t");
        assert("    "@ =~= seq![' ', ' ', ' ', ' ']);
        assert("\t"@ =~= seq!['\t']);
    }
    replace_all(input, "    ", "\t")
}

} // verus!
