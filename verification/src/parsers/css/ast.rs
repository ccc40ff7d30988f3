//! The imports of a stylesheet, and its text with the comments in place.

use crate::parsers::css::helpers::{
    emit_rule, parse, parsed_stylesheet, rule_text, ParsedStylesheet, PARSE_ERROR,
};
use crate::source::{
    atom_is, atom_of, atom_string, atom_text, dummy_span, leading_at, leading_texts,
    new_dummy_span, trailing_at, trailing_texts,
};
use crate::text::{
    begins_with, contains_text, lemma_occurs_in_longer, lemma_trimmed_occurs, lines_of, occurs_in,
    same_text, starts_with_text, strings,
    strip_both, strip_prefixes, strip_trailing, text_lines, trim, trimmed, without_leading,
    without_prefixes, without_trailing,
};
use swc_common::comments::SingleThreadedComments;
use swc_common::Span;
use swc_css_ast::{
    AtRule, AtRuleName, AtRulePrelude, ComponentValue, Declaration, DeclarationName, Ident,
    ImportHref, ImportPrelude, PseudoClassSelector, PseudoElementSelector, Rule, Str, Stylesheet,
    UrlValue,
};
use swc_css_visit::{Visit, VisitMut, VisitWith};
use vstd::prelude::*;
use vstd::string::*;

verus! {

/// The error text of an operation whose stylesheet does not parse.
pub const PARSE_CONTENT_ERROR: &'static str = "Failed to parse CSS content";

/// The error text of an emission that the code generator gave up.
pub const GENERATE_ERROR: &'static str = "Failed to generate CSS";

// The query.

/// The address that an import names, where it names one as a string: in
/// `@import "file.css"` and in `@import url("file.css")` it is `file.css`.
pub open spec fn href_text(node: ImportPrelude) -> Option<Seq<char>> {
    match *node.href {
        ImportHref::Url(url) => match url.value {
            Some(value) => match *value {
                UrlValue::Str(s) => Some(atom_text(s.value)),
                _ => None,
            },
            None => None,
        },
        ImportHref::Str(s) => Some(atom_text(s.value)),
    }
}

/// The address that an import names, copied.
pub fn href_of(node: &ImportPrelude) -> (r: Option<String>)
    ensures
        match r {
            Some(text) => href_text(*node) == Some(text@),
            None => href_text(*node) is None,
        },
{
    match &*node.href {
        ImportHref::Url(url) => match &url.value {
            Some(value) => match &**value {
                UrlValue::Str(s) => Some(atom_string(&s.value)),
                _ => None,
            },
            None => None,
        },
        ImportHref::Str(s) => Some(atom_string(&s.value)),
    }
}

/// The pass that looks for the import of one address.
pub struct ImportChecker<'a> {
    pub search_import: &'a str,
    pub found: bool,
}

impl<'a> ImportChecker<'a> {
    /// Looks at one import: the address is found where this import names it,
    /// and stays found once it is.
    pub fn check(&mut self, node: &ImportPrelude)
        ensures
            final(self).search_import@ == old(self).search_import@,
            final(self).found == (old(self).found || href_text(*node) == Some(
                old(self).search_import@,
            )),
    {
        match &*node.href {
            ImportHref::Url(url) => match &url.value {
                Some(value) => match &**value {
                    UrlValue::Str(s) => {
                        if atom_is(&s.value, self.search_import) {
                            self.found = true;
                        }
                    },
                    _ => {},
                },
                None => {},
            },
            ImportHref::Str(s) => {
                if atom_is(&s.value, self.search_import) {
                    self.found = true;
                }
            },
        }
    }
}

/// The imports that stand below an import, in its address, its layer and its
/// conditions, in the order in which a traversal meets them.
pub uninterp spec fn imports_below(node: ImportPrelude) -> Seq<ImportPrelude>;

/// Whether one of the imports names the address `search`.
pub open spec fn names_address(imports: Seq<ImportPrelude>, search: Seq<char>) -> bool {
    exists|i: int| 0 <= i < imports.len() && href_text(#[trigger] imports[i]) == Some(search)
}

/// Trusted: `VisitWith::visit_children_with` on an import. The traversal
/// hands every import that stands below this one to `visit_import_prelude`.
/// So, by `check`, the pass has found its address in the end where it had
/// before or one of those imports names it.
#[verifier::external_body]
fn descend_import(node: &ImportPrelude, checker: &mut ImportChecker)
    ensures
        final(checker).search_import@ == old(checker).search_import@,
        final(checker).found == (old(checker).found || exists|i: int|
            0 <= i < imports_below(*node).len() && href_text(#[trigger] imports_below(*node)[i])
                == Some(old(checker).search_import@)),
{
    node.visit_children_with(checker)
}

impl Visit for ImportChecker<'_> {
    /// Looks at one import and at the imports below it: the address is found
    /// where it was before, where this import names it and where one below it
    /// does.
    fn visit_import_prelude(&mut self, node: &ImportPrelude)
        ensures
            final(self).search_import@ == old(self).search_import@,
            final(self).found == (old(self).found || href_text(*node) == Some(
                old(self).search_import@,
            ) || names_address(imports_below(*node), old(self).search_import@)),
    {
        self.check(node);
        descend_import(node, self)
    }
}

/// The imports that a stylesheet holds at any depth, in the order in which a
/// traversal meets them.
pub uninterp spec fn imports_of(stylesheet: Stylesheet) -> Seq<ImportPrelude>;

/// Trusted: `VisitWith::visit_with` on a stylesheet, with an `ImportChecker`.
/// The traversal hands every import of the stylesheet to
/// `visit_import_prelude`. So, by `check`, the pass has found its address in
/// the end where it had before or one of the imports names it.
#[verifier::external_body]
fn walk_for_import(stylesheet: &Stylesheet, checker: &mut ImportChecker)
    ensures
        final(checker).search_import@ == old(checker).search_import@,
        final(checker).found == (old(checker).found || exists|i: int|
            0 <= i < imports_of(*stylesheet).len() && href_text(
                #[trigger] imports_of(*stylesheet)[i],
            ) == Some(old(checker).search_import@)),
{
    stylesheet.visit_with(checker)
}

/// Says whether the stylesheet imports the address `import`, as a string or
/// as a `url(..)` of a string. Fails where the text does not parse.
pub fn is_imported_from_ast(file_content: &str, import: &str) -> (r: Result<bool, String>)
    ensures
        match parsed_stylesheet(file_content@) {
            None => r is Err && r->Err_0@ == PARSE_CONTENT_ERROR@,
            Some((stylesheet, _, _)) => r == Ok::<bool, String>(
                names_address(imports_of(stylesheet), import@),
            ),
        },
{
    let parsed = match parse(file_content) {
        Ok(parsed) => parsed,
        Err(_) => {
            return Err(PARSE_CONTENT_ERROR.to_owned());
        },
    };
    let mut checker = ImportChecker { search_import: import, found: false };
    walk_for_import(parsed.stylesheet(), &mut checker);
    Ok(checker.found)
}

// The insertion.

/// The address that a rule imports, where the rule is an import that names one
/// as a string.
pub open spec fn rule_href(rule: Rule) -> Option<Seq<char>> {
    match rule {
        Rule::AtRule(at_rule) => match at_rule.prelude {
            Some(prelude) => match *prelude {
                AtRulePrelude::ImportPrelude(import) => href_text(import),
                _ => None,
            },
            None => None,
        },
        _ => None,
    }
}

/// The addresses that the rules import, in the order of the rules.
pub open spec fn imported_hrefs(rules: Seq<Rule>) -> Seq<Seq<char>>
    decreases rules.len(),
{
    if rules.len() == 0 {
        Seq::empty()
    } else {
        let earlier = imported_hrefs(rules.drop_last());
        match rule_href(rules.last()) {
            Some(href) => earlier.push(href),
            None => earlier,
        }
    }
}

/// The address that a line asks for: the line without a leading `@import`,
/// the white space around what follows, a closing `;` and double quotes at
/// either end.
pub open spec fn cleaned(line: Seq<char>) -> Seq<char> {
    let bare = trimmed(without_prefixes(line, "@import"@));
    without_trailing(without_leading(without_trailing(bare, ';'), '"'), '"')
}

/// The addresses among the lines, cleaned, in the order given and with repeats
/// kept, that are not known yet.
pub open spec fn fresh_hrefs(known: Seq<Seq<char>>, lines: Seq<Seq<char>>) -> Seq<Seq<char>>
    decreases lines.len(),
{
    if lines.len() == 0 {
        Seq::empty()
    } else {
        let earlier = fresh_hrefs(known, lines.drop_last());
        let href = cleaned(lines.last());
        if known.contains(href) {
            earlier
        } else {
            earlier.push(href)
        }
    }
}

/// Whether `rule` is the rule `@import "href";` as this module makes it: all
/// of it at the dummy span, with no layer, no condition and no block.
pub open spec fn is_import_rule(rule: Rule, href: Seq<char>) -> bool {
    match rule {
        Rule::AtRule(at_rule) => {
            &&& at_rule.span == dummy_span()
            &&& at_rule.block is None
            &&& match at_rule.name {
                AtRuleName::Ident(name) => {
                    &&& atom_text(name.value) == "import"@
                    &&& name.span == dummy_span()
                    &&& name.raw is None
                },
                _ => false,
            }
            &&& match at_rule.prelude {
                Some(prelude) => match *prelude {
                    AtRulePrelude::ImportPrelude(import) => {
                        &&& import.span == dummy_span()
                        &&& import.layer_name is None
                        &&& import.import_conditions is None
                        &&& match *import.href {
                            ImportHref::Str(s) => {
                                &&& atom_text(s.value) == href
                                &&& s.span == dummy_span()
                                &&& s.raw is None
                            },
                            _ => false,
                        }
                    },
                    _ => false,
                },
                None => false,
            }
        },
        _ => false,
    }
}

/// Whether `after` holds the rules `before` with the imports that `lines` ask
/// for in front: one new rule for each address that neither `known` nor the
/// imports of `before` hold, in the order of the lines, then every rule of
/// `before` in its place.
pub open spec fn is_insertion(
    before: Seq<Rule>,
    known: Seq<Seq<char>>,
    lines: Seq<Seq<char>>,
    after: Seq<Rule>,
) -> bool {
    let fresh = fresh_hrefs(known + imported_hrefs(before), lines);
    &&& after.len() == fresh.len() + before.len()
    &&& forall|j: int| 0 <= j < fresh.len() ==> is_import_rule(#[trigger] after[j], fresh[j])
    &&& forall|i: int| 0 <= i < before.len() ==> #[trigger] after[fresh.len() + i] == before[i]
}

/// The address that a rule imports, copied.
pub fn rule_import(rule: &Rule) -> (r: Option<String>)
    ensures
        match r {
            Some(text) => rule_href(*rule) == Some(text@),
            None => rule_href(*rule) is None,
        },
{
    match rule {
        Rule::AtRule(at_rule) => match &at_rule.prelude {
            Some(prelude) => match &**prelude {
                AtRulePrelude::ImportPrelude(import) => href_of(import),
                _ => None,
            },
            None => None,
        },
        _ => None,
    }
}

/// The address that a line asks for.
pub fn clean_import(line: &str) -> (r: &str)
    ensures
        r@ == cleaned(line@),
{
    proof {
        reveal_strlit("@import");
    }
    let bare = trim(strip_prefixes(line, "@import"));
    strip_both(strip_trailing(bare, ';'), '"')
}

/// Whether the list holds the text.
pub fn holds_text(list: &Vec<String>, text: &str) -> (r: bool)
    ensures
        r == strings(list@).contains(text@),
{
    let mut i: usize = 0;
    while i < list.len()
        invariant
            i <= list@.len(),
            forall|j: int| 0 <= j < i ==> strings(list@)[j] != text@,
        decreases list@.len() - i,
    {
        if same_text(list[i].as_str(), text) {
            assert(strings(list@)[i as int] == text@);
            return true;
        }
        i = i + 1;
    }
    false
}

/// The rule `@import "href";`.
pub fn import_rule(href: &str) -> (r: Rule)
    ensures
        is_import_rule(r, href@),
{
    let address = Str { span: new_dummy_span(), value: atom_of(href), raw: None };
    let import = ImportPrelude {
        span: new_dummy_span(),
        href: Box::new(ImportHref::Str(address)),
        layer_name: None,
        import_conditions: None,
    };
    let name = Ident { span: new_dummy_span(), value: atom_of("import"), raw: None };
    Rule::AtRule(
        Box::new(
            AtRule {
                span: new_dummy_span(),
                name: AtRuleName::Ident(name),
                prelude: Some(Box::new(AtRulePrelude::ImportPrelude(import))),
                block: None,
            },
        ),
    )
}

/// The pass that puts new imports in front of a stylesheet.
pub struct ImportInserter {
    /// The lines that ask for an import.
    pub new_import_strings: Vec<String>,
    /// The addresses that are known to be imported.
    pub existing_imports: Vec<String>,
}

impl ImportInserter {
    /// Notes the addresses that the rules import.
    pub fn note_existing(&mut self, rules: &Vec<Rule>)
        ensures
            final(self).new_import_strings == old(self).new_import_strings,
            strings(final(self).existing_imports@) == strings(old(self).existing_imports@)
                + imported_hrefs(rules@),
    {
        let ghost known = strings(self.existing_imports@);
        let mut i: usize = 0;
        proof {
            assert(rules@.take(0) =~= Seq::<Rule>::empty());
            assert(strings(self.existing_imports@) =~= known + imported_hrefs(rules@.take(0)));
        }
        while i < rules.len()
            invariant
                i <= rules@.len(),
                self.new_import_strings == old(self).new_import_strings,
                known == strings(old(self).existing_imports@),
                strings(self.existing_imports@) == known + imported_hrefs(rules@.take(i as int)),
            decreases rules@.len() - i,
        {
            proof {
                assert(rules@.take(i + 1).drop_last() =~= rules@.take(i as int));
                assert(rules@.take(i + 1).last() == rules@[i as int]);
            }
            match rule_import(&rules[i]) {
                Some(href) => {
                    let ghost earlier = strings(self.existing_imports@);
                    self.existing_imports.push(href);
                    assert(strings(self.existing_imports@) =~= earlier.push(href@));
                },
                None => {},
            }
            i = i + 1;
        }
        proof {
            assert(rules@.take(i as int) =~= rules@);
        }
    }

    /// Puts in front of the stylesheet one import for each address that the
    /// lines of this pass ask for and that neither the pass knows nor the
    /// stylesheet imports. The new imports stand in the order of the lines; an
    /// address that two lines ask for comes twice. The pass is left without
    /// lines, and knows the imports that the stylesheet had.
    pub fn insert_into(&mut self, stylesheet: &mut Stylesheet)
        ensures
            final(stylesheet).span == old(stylesheet).span,
            is_insertion(
                old(stylesheet).rules@,
                strings(old(self).existing_imports@),
                strings(old(self).new_import_strings@),
                final(stylesheet).rules@,
            ),
            final(self).new_import_strings@.len() == 0,
            strings(final(self).existing_imports@) == strings(old(self).existing_imports@)
                + imported_hrefs(old(stylesheet).rules@),
    {
        self.note_existing(&stylesheet.rules);
        let ghost before = stylesheet.rules@;
        let ghost known = strings(self.existing_imports@);
        let ghost lines = strings(self.new_import_strings@);
        let mut new_rules: Vec<Rule> = Vec::new();
        let mut i: usize = 0;
        proof {
            assert(lines.take(0) =~= Seq::<Seq<char>>::empty());
        }
        while i < self.new_import_strings.len()
            invariant
                i <= self.new_import_strings@.len(),
                lines == strings(self.new_import_strings@),
                known == strings(self.existing_imports@),
                self.new_import_strings == old(self).new_import_strings,
                stylesheet.rules@ == before,
                stylesheet.span == old(stylesheet).span,
                new_rules@.len() == fresh_hrefs(known, lines.take(i as int)).len(),
                forall|j: int|
                    0 <= j < new_rules@.len() ==> is_import_rule(
                        #[trigger] new_rules@[j],
                        fresh_hrefs(known, lines.take(i as int))[j],
                    ),
            decreases self.new_import_strings@.len() - i,
        {
            proof {
                assert(lines.take(i + 1).drop_last() =~= lines.take(i as int));
                assert(lines.take(i + 1).last() == self.new_import_strings@[i as int]@);
            }
            let href = clean_import(self.new_import_strings[i].as_str());
            if !holds_text(&self.existing_imports, href) {
                let ghost earlier = new_rules@;
                new_rules.push(import_rule(href));
                assert forall|j: int| 0 <= j < new_rules@.len() implies is_import_rule(
                    #[trigger] new_rules@[j],
                    fresh_hrefs(known, lines.take(i + 1))[j],
                ) by {
                    if j < earlier.len() {
                        assert(new_rules@[j] == earlier[j]);
                    }
                }
            }
            i = i + 1;
        }
        proof {
            assert(lines.take(i as int) =~= lines);
        }
        let ghost fresh = new_rules@;
        new_rules.append(&mut stylesheet.rules);
        stylesheet.rules = new_rules;
        self.new_import_strings = Vec::new();
        proof {
            assert forall|i: int| 0 <= i < before.len() implies #[trigger] stylesheet.rules@[fresh.len()
                + i] == before[i] by {}
            assert forall|j: int| 0 <= j < fresh.len() implies is_import_rule(
                #[trigger] stylesheet.rules@[j],
                fresh_hrefs(known, lines)[j],
            ) by {
                assert(stylesheet.rules@[j] == fresh[j]);
            }
        }
    }
}

impl VisitMut for ImportInserter {
    /// Puts the imports that the lines of this pass ask for in front of the
    /// stylesheet: what `insert_into` does. The rules of the stylesheet are
    /// not gone into.
    fn visit_mut_stylesheet(&mut self, stylesheet: &mut Stylesheet)
        ensures
            final(stylesheet).span == old(stylesheet).span,
            is_insertion(
                old(stylesheet).rules@,
                strings(old(self).existing_imports@),
                strings(old(self).new_import_strings@),
                final(stylesheet).rules@,
            ),
            final(self).new_import_strings@.len() == 0,
            strings(final(self).existing_imports@) == strings(old(self).existing_imports@)
                + imported_hrefs(old(stylesheet).rules@),
    {
        self.insert_into(stylesheet)
    }
}

/// The lines that a text asks imports with: its lines without the white
/// space around them, the empty ones left out, and of each line only the first
/// copy.
pub open spec fn asked_lines(import_lines: Seq<char>) -> Seq<Seq<char>> {
    first_copies(solid_lines(lines_of(import_lines)))
}

/// The lines without the white space around them, the empty ones left out.
pub open spec fn solid_lines(lines: Seq<Seq<char>>) -> Seq<Seq<char>>
    decreases lines.len(),
{
    if lines.len() == 0 {
        Seq::empty()
    } else {
        let earlier = solid_lines(lines.drop_last());
        let line = trimmed(lines.last());
        if line.len() == 0 {
            earlier
        } else {
            earlier.push(line)
        }
    }
}

/// Of each text its first copy only, in the order given.
pub open spec fn first_copies(texts: Seq<Seq<char>>) -> Seq<Seq<char>>
    decreases texts.len(),
{
    if texts.len() == 0 {
        Seq::empty()
    } else {
        let earlier = first_copies(texts.drop_last());
        if earlier.contains(texts.last()) {
            earlier
        } else {
            earlier.push(texts.last())
        }
    }
}

/// The lines that a text asks imports with.
pub fn import_lines_of(import_lines: &str) -> (r: Vec<String>)
    ensures
        strings(r@) == asked_lines(import_lines@),
{
    let lines = text_lines(import_lines);
    let ghost all = strings(lines@);
    let mut asked: Vec<String> = Vec::new();
    let mut i: usize = 0;
    proof {
        assert(all.take(0) =~= Seq::<Seq<char>>::empty());
        assert(strings(asked@) =~= Seq::<Seq<char>>::empty());
    }
    while i < lines.len()
        invariant
            i <= lines@.len(),
            all == strings(lines@),
            strings(asked@) == first_copies(solid_lines(all.take(i as int))),
        decreases lines@.len() - i,
    {
        proof {
            assert(all.take(i + 1).drop_last() =~= all.take(i as int));
            assert(all.take(i + 1).last() == lines@[i as int]@);
        }
        let line = trim(lines[i].as_str());
        proof {
            let solid = solid_lines(all.take(i as int));
            assert(solid.push(line@).drop_last() =~= solid);
            assert(solid.push(line@).last() == line@);
        }
        if !line.is_empty() && !holds_text(&asked, line) {
            let ghost earlier = strings(asked@);
            asked.push(line.to_owned());
            assert(strings(asked@) =~= earlier.push(line@));
        }
        i = i + 1;
    }
    proof {
        assert(all.take(i as int) =~= all);
    }
    asked
}

// The text of a stylesheet, with the comments in place.

/// A comment as it is put behind a line.
pub open spec fn inline(text: Seq<char>) -> Seq<char> {
    " /* "@ + text + " */"@
}

/// One note for each comment: what the comment belongs to, and the comment as
/// it is put behind a line.
pub open spec fn notes_for(anchor: Seq<char>, texts: Seq<Seq<char>>) -> Seq<
    (Seq<char>, Seq<char>),
> {
    Seq::new(texts.len(), |i: int| (anchor, inline(texts[i])))
}

/// The characters of the notes.
pub open spec fn notes_of(notes: Seq<(String, String)>) -> Seq<(Seq<char>, Seq<char>)> {
    Seq::new(notes.len(), |i: int| (notes[i].0@, notes[i].1@))
}

/// The name of the property that a declaration sets.
pub open spec fn property_name(decl: Declaration) -> Seq<char> {
    match decl.name {
        DeclarationName::Ident(name) => atom_text(name.value),
        DeclarationName::DashedIdent(name) => atom_text(name.value),
    }
}

/// The span of a value, as `Spanned::span` gives it.
pub uninterp spec fn component_span(value: ComponentValue) -> Span;

/// Trusted: `Spanned::span` on a component value.
#[verifier::external_body]
fn span_of_component(value: &ComponentValue) -> (r: Span)
    ensures
        r == component_span(*value),
{
    swc_common::Spanned::span(value)
}

/// The pass that collects the comments that belong behind a line of a rule,
/// each with what it belongs to: the name of a property, a selector that
/// begins with a colon, or nothing.
pub struct InlineCommentCollector<'a> {
    pub comments: &'a SingleThreadedComments,
    pub collected_comments: Vec<(String, String)>,
}

impl<'a> InlineCommentCollector<'a> {
    /// Notes the comments with the given texts for `anchor`.
    pub fn note(&mut self, anchor: &str, texts: &Vec<String>)
        ensures
            final(self).comments == old(self).comments,
            notes_of(final(self).collected_comments@) == notes_of(old(self).collected_comments@)
                + notes_for(anchor@, strings(texts@)),
    {
        let ghost before = notes_of(self.collected_comments@);
        let mut i: usize = 0;
        proof {
            assert(notes_of(self.collected_comments@) =~= before + notes_for(
                anchor@,
                strings(texts@).take(0),
            ));
        }
        while i < texts.len()
            invariant
                i <= texts@.len(),
                self.comments == old(self).comments,
                before == notes_of(old(self).collected_comments@),
                notes_of(self.collected_comments@) == before + notes_for(
                    anchor@,
                    strings(texts@).take(i as int),
                ),
            decreases texts@.len() - i,
        {
            let comment = " /* ".to_owned().concat(texts[i].as_str()).concat(" */");
            let ghost earlier = notes_of(self.collected_comments@);
            self.collected_comments.push((anchor.to_owned(), comment));
            proof {
                assert(strings(texts@)[i as int] == texts@[i as int]@);
                assert(comment@ == inline(texts@[i as int]@));
                assert(notes_of(self.collected_comments@) =~= earlier.push(
                    (anchor@, inline(texts@[i as int]@)),
                ));
                assert(notes_for(anchor@, strings(texts@).take(i + 1)) =~= notes_for(
                    anchor@,
                    strings(texts@).take(i as int),
                ).push((anchor@, inline(texts@[i as int]@))));
                assert(notes_of(self.collected_comments@) =~= before + notes_for(
                    anchor@,
                    strings(texts@).take(i + 1),
                ));
            }
            i = i + 1;
        }
        proof {
            assert(strings(texts@).take(i as int) =~= strings(texts@));
        }
    }

    /// Notes the comments behind a declaration for the property that it sets.
    pub fn note_declaration(&mut self, decl: &Declaration)
        ensures
            final(self).comments == old(self).comments,
            notes_of(final(self).collected_comments@) == notes_of(old(self).collected_comments@)
                + notes_for(property_name(*decl), trailing_texts(*old(self).comments, decl.span.hi)),
    {
        let property = match &decl.name {
            DeclarationName::Ident(name) => atom_string(&name.value),
            DeclarationName::DashedIdent(name) => atom_string(&name.value),
        };
        let texts = trailing_at(self.comments, decl.span.hi);
        self.note(property.as_str(), &texts);
    }

    /// Notes the comments behind a value, for nothing in particular.
    pub fn note_component_value(&mut self, node: &ComponentValue)
        ensures
            final(self).comments == old(self).comments,
            notes_of(final(self).collected_comments@) == notes_of(old(self).collected_comments@)
                + notes_for(
                Seq::empty(),
                trailing_texts(*old(self).comments, component_span(*node).hi),
            ),
    {
        let texts = trailing_at(self.comments, span_of_component(node).hi);
        proof {
            reveal_strlit("");
            assert(""@ =~= Seq::<char>::empty());
        }
        self.note("", &texts);
    }

    /// Notes the comments in front of and behind a pseudo-element for its
    /// selector, `::name`.
    pub fn note_pseudo_element(&mut self, node: &PseudoElementSelector)
        ensures
            final(self).comments == old(self).comments,
            notes_of(final(self).collected_comments@) == notes_of(old(self).collected_comments@)
                + notes_for(
                "::"@ + atom_text(node.name.value),
                comments_around(*old(self).comments, node.span),
            ),
    {
        let selector = "::".to_owned().concat(atom_string(&node.name.value).as_str());
        let leading = leading_at(self.comments, node.span.lo);
        let trailing = trailing_at(self.comments, node.span.hi);
        let ghost before = notes_of(self.collected_comments@);
        self.note(selector.as_str(), &leading);
        self.note(selector.as_str(), &trailing);
        proof {
            assert(notes_of(self.collected_comments@) =~= before + notes_for(
                selector@,
                strings(leading@) + strings(trailing@),
            ));
        }
    }

    /// Notes the comments behind a pseudo-class for its selector, `:name`.
    pub fn note_pseudo_class(&mut self, node: &PseudoClassSelector)
        ensures
            final(self).comments == old(self).comments,
            notes_of(final(self).collected_comments@) == notes_of(old(self).collected_comments@)
                + notes_for(
                ":"@ + atom_text(node.name.value),
                trailing_texts(*old(self).comments, node.span.hi),
            ),
    {
        let selector = ":".to_owned().concat(atom_string(&node.name.value).as_str());
        let texts = trailing_at(self.comments, node.span.hi);
        self.note(selector.as_str(), &texts);
    }
}

/// The comments in front of a span, then those behind it.
pub open spec fn comments_around(comments: SingleThreadedComments, span: Span) -> Seq<Seq<char>> {
    leading_texts(comments, span.lo) + trailing_texts(comments, span.hi)
}

/// The notes that are taken at the values, one value after the other.
pub open spec fn value_notes(values: Seq<ComponentValue>, comments: SingleThreadedComments) -> Seq<
    (Seq<char>, Seq<char>),
>
    decreases values.len(),
{
    if values.len() == 0 {
        Seq::empty()
    } else {
        value_notes(values.drop_last(), comments) + notes_at(Noted::Value(values.last()), comments)
    }
}

/// The declarations, values, pseudo-elements and pseudo-classes that stand
/// below a pseudo-element and that a traversal meets, in its order, where the
/// traversal goes below no value and below a declaration only into its
/// values.
pub uninterp spec fn noted_in_pseudo_element(node: PseudoElementSelector) -> Seq<Noted>;

/// The same for what stands below a pseudo-class.
pub uninterp spec fn noted_in_pseudo_class(node: PseudoClassSelector) -> Seq<Noted>;

/// Trusted: `VisitWith::visit_with` on the values of a declaration. The
/// traversal hands each value, in their order, to `visit_component_value`,
/// which goes no further. So, by `note_component_value`, the pass holds in the
/// end what it held, and behind that the notes taken at the values.
#[verifier::external_body]
fn descend_declaration(decl: &Declaration, collector: &mut InlineCommentCollector)
    ensures
        final(collector).comments == old(collector).comments,
        notes_of(final(collector).collected_comments@) == notes_of(
            old(collector).collected_comments@,
        ) + value_notes(decl.value@, *old(collector).comments),
{
    decl.value.visit_with(collector)
}

/// Trusted: `VisitWith::visit_children_with` on a pseudo-element. The
/// traversal hands the nodes below it to the methods of the pass. So, by the
/// `note_..` functions, the pass holds in the end what it held, and behind
/// that the notes taken at those nodes in their order.
#[verifier::external_body]
fn descend_pseudo_element(node: &PseudoElementSelector, collector: &mut InlineCommentCollector)
    ensures
        final(collector).comments == old(collector).comments,
        notes_of(final(collector).collected_comments@) == notes_of(
            old(collector).collected_comments@,
        ) + notes_at_all(noted_in_pseudo_element(*node), *old(collector).comments),
{
    node.visit_children_with(collector)
}

/// Trusted: `VisitWith::visit_children_with` on a pseudo-class. The traversal
/// hands the nodes below it to the methods of the pass. So, by the `note_..`
/// functions, the pass holds in the end what it held, and behind that the
/// notes taken at those nodes in their order.
#[verifier::external_body]
fn descend_pseudo_class(node: &PseudoClassSelector, collector: &mut InlineCommentCollector)
    ensures
        final(collector).comments == old(collector).comments,
        notes_of(final(collector).collected_comments@) == notes_of(
            old(collector).collected_comments@,
        ) + notes_at_all(noted_in_pseudo_class(*node), *old(collector).comments),
{
    node.visit_children_with(collector)
}

impl Visit for InlineCommentCollector<'_> {
    /// Notes the comments behind a declaration for its property, then those
    /// behind each of its values for nothing in particular.
    fn visit_declaration(&mut self, decl: &Declaration)
        ensures
            final(self).comments == old(self).comments,
            notes_of(final(self).collected_comments@) == notes_of(old(self).collected_comments@)
                + notes_at(Noted::Declaration(*decl), *old(self).comments) + value_notes(
                decl.value@,
                *old(self).comments,
            ),
    {
        self.note_declaration(decl);
        descend_declaration(decl, self)
    }

    /// Notes the comments behind a value, and goes no further.
    fn visit_component_value(&mut self, node: &ComponentValue)
        ensures
            final(self).comments == old(self).comments,
            notes_of(final(self).collected_comments@) == notes_of(old(self).collected_comments@)
                + notes_at(Noted::Value(*node), *old(self).comments),
    {
        self.note_component_value(node);
    }

    /// Notes the comments around a pseudo-element for its selector, then what
    /// is to be noted below it.
    fn visit_pseudo_element_selector(&mut self, node: &PseudoElementSelector)
        ensures
            final(self).comments == old(self).comments,
            notes_of(final(self).collected_comments@) == notes_of(old(self).collected_comments@)
                + notes_at(Noted::PseudoElement(*node), *old(self).comments) + notes_at_all(
                noted_in_pseudo_element(*node),
                *old(self).comments,
            ),
    {
        self.note_pseudo_element(node);
        descend_pseudo_element(node, self)
    }

    /// Notes the comments behind a pseudo-class for its selector, then what is
    /// to be noted below it.
    fn visit_pseudo_class_selector(&mut self, node: &PseudoClassSelector)
        ensures
            final(self).comments == old(self).comments,
            notes_of(final(self).collected_comments@) == notes_of(old(self).collected_comments@)
                + notes_at(Noted::PseudoClass(*node), *old(self).comments) + notes_at_all(
                noted_in_pseudo_class(*node),
                *old(self).comments,
            ),
    {
        self.note_pseudo_class(node);
        descend_pseudo_class(node, self)
    }
}

/// A node that comments are collected at.
pub enum Noted {
    Declaration(Declaration),
    Value(ComponentValue),
    PseudoElement(PseudoElementSelector),
    PseudoClass(PseudoClassSelector),
}

/// The declarations, values, pseudo-elements and pseudo-classes of a rule
/// that a traversal meets, in its order, where the traversal goes below no
/// value and below a declaration only into its values.
pub uninterp spec fn noted_nodes(rule: Rule) -> Seq<Noted>;

/// The notes that are taken at one node.
pub open spec fn notes_at(node: Noted, comments: SingleThreadedComments) -> Seq<
    (Seq<char>, Seq<char>),
> {
    match node {
        Noted::Declaration(decl) => notes_for(
            property_name(decl),
            trailing_texts(comments, decl.span.hi),
        ),
        Noted::Value(value) => notes_for(
            Seq::empty(),
            trailing_texts(comments, component_span(value).hi),
        ),
        Noted::PseudoElement(node) => notes_for(
            "::"@ + atom_text(node.name.value),
            comments_around(comments, node.span),
        ),
        Noted::PseudoClass(node) => notes_for(
            ":"@ + atom_text(node.name.value),
            trailing_texts(comments, node.span.hi),
        ),
    }
}

/// The notes that are taken at the nodes, one node after the other.
pub open spec fn notes_at_all(nodes: Seq<Noted>, comments: SingleThreadedComments) -> Seq<
    (Seq<char>, Seq<char>),
>
    decreases nodes.len(),
{
    if nodes.len() == 0 {
        Seq::empty()
    } else {
        notes_at_all(nodes.drop_last(), comments) + notes_at(nodes.last(), comments)
    }
}

/// The notes of a rule: those taken at its nodes.
pub open spec fn notes_walked(rule: Rule, comments: SingleThreadedComments) -> Seq<
    (Seq<char>, Seq<char>),
> {
    notes_at_all(noted_nodes(rule), comments)
}

/// Trusted: `VisitWith::visit_with` on a rule, with an
/// `InlineCommentCollector`. The traversal hands the declarations, values,
/// pseudo-elements and pseudo-classes of the rule to the methods of the pass,
/// which goes on below a declaration into its values only and below a value
/// not at all. So, by the `note_..` functions, the pass holds in the end what
/// it held, and behind that the notes taken at those nodes in their order.
#[verifier::external_body]
fn walk_for_notes(rule: &Rule, collector: &mut InlineCommentCollector)
    ensures
        final(collector).comments == old(collector).comments,
        notes_of(final(collector).collected_comments@) == notes_of(
            old(collector).collected_comments@,
        ) + notes_at_all(noted_nodes(*rule), *old(collector).comments),
{
    rule.visit_with(collector)
}

/// What is looked for in a line for a note: a selector as it is, the name of a
/// property with the colon that follows it.
pub open spec fn needle(anchor: Seq<char>) -> Seq<char> {
    if begins_with(anchor, ":"@) {
        anchor
    } else {
        anchor + ":"@
    }
}

/// The index of the first line in which `part` occurs, or the number of lines
/// where it occurs in none.
pub open spec fn first_holding(lines: Seq<Seq<char>>, part: Seq<char>) -> int
    decreases lines.len(),
{
    if lines.len() == 0 || occurs_in(part, lines[0]) {
        0
    } else {
        1 + first_holding(lines.skip(1), part)
    }
}

/// The lines after one note is placed: its comment goes behind the first line
/// that holds what the note belongs to, unless that line holds the comment
/// already. A note that belongs to no line is dropped.
pub open spec fn place_one(lines: Seq<Seq<char>>, note: (Seq<char>, Seq<char>)) -> Seq<Seq<char>> {
    let at = first_holding(lines, needle(note.0));
    if 0 <= at < lines.len() && !occurs_in(trimmed(note.1), lines[at]) {
        lines.update(at, lines[at] + note.1)
    } else {
        lines
    }
}

/// The lines after all notes are placed, the last note first.
pub open spec fn placed(lines: Seq<Seq<char>>, notes: Seq<(Seq<char>, Seq<char>)>) -> Seq<Seq<char>>
    decreases notes.len(),
{
    if notes.len() == 0 {
        lines
    } else {
        placed(place_one(lines, notes.last()), notes.drop_last())
    }
}

/// The first line that holds `part` is where it is said to be.
pub proof fn lemma_first_holding(lines: Seq<Seq<char>>, part: Seq<char>)
    ensures
        0 <= first_holding(lines, part) <= lines.len(),
        forall|i: int| 0 <= i < first_holding(lines, part) ==> !occurs_in(part, #[trigger] lines[i]),
        first_holding(lines, part) < lines.len() ==> occurs_in(
            part,
            lines[first_holding(lines, part)],
        ),
    decreases lines.len(),
{
    if lines.len() > 0 && !occurs_in(part, lines[0]) {
        lemma_first_holding(lines.skip(1), part);
        let k = first_holding(lines.skip(1), part);
        assert forall|i: int| 0 <= i < 1 + k implies !occurs_in(part, #[trigger] lines[i]) by {
            if i > 0 {
                assert(lines.skip(1)[i - 1] == lines[i]);
            }
        }
        if k < lines.skip(1).len() {
            assert(lines.skip(1)[k] == lines[1 + k]);
        }
    }
}

/// An index that no line before it holds `part` at, and that is the end or a
/// line that holds `part`, is the first that holds it.
pub proof fn lemma_first_holding_is(lines: Seq<Seq<char>>, part: Seq<char>, k: int)
    requires
        0 <= k <= lines.len(),
        forall|i: int| 0 <= i < k ==> !occurs_in(part, #[trigger] lines[i]),
        k < lines.len() ==> occurs_in(part, lines[k]),
    ensures
        first_holding(lines, part) == k,
{
    lemma_first_holding(lines, part);
    let f = first_holding(lines, part);
    if f < k {
        assert(!occurs_in(part, lines[f]));
    }
}

/// No comment comes to stand twice in one line: a note that is placed again
/// changes nothing.
pub proof fn lemma_placed_once(lines: Seq<Seq<char>>, note: (Seq<char>, Seq<char>))
    ensures
        place_one(place_one(lines, note), note) == place_one(lines, note),
{
    let part = needle(note.0);
    let at = first_holding(lines, part);
    lemma_first_holding(lines, part);
    if 0 <= at < lines.len() && !occurs_in(trimmed(note.1), lines[at]) {
        let once = lines.update(at, lines[at] + note.1);
        lemma_occurs_in_longer(part, lines[at], note.1);
        assert forall|i: int| 0 <= i < at implies !occurs_in(part, #[trigger] once[i]) by {
            assert(once[i] == lines[i]);
        }
        lemma_first_holding_is(once, part, at);
        lemma_trimmed_occurs(lines[at], note.1);
    }
}

/// The index of the first line in which `part` occurs, or the number of lines.
pub fn find_line(lines: &Vec<String>, part: &str) -> (r: usize)
    ensures
        r == first_holding(strings(lines@), part@),
        r <= lines@.len(),
{
    proof {
        lemma_first_holding(strings(lines@), part@);
    }
    let mut i: usize = 0;
    while i < lines.len()
        invariant
            i <= lines@.len(),
            i <= first_holding(strings(lines@), part@) <= lines@.len(),
            first_holding(strings(lines@), part@) < lines@.len() ==> occurs_in(
                part@,
                strings(lines@)[first_holding(strings(lines@), part@)],
            ),
            forall|j: int|
                0 <= j < first_holding(strings(lines@), part@) ==> !occurs_in(
                    part@,
                    #[trigger] strings(lines@)[j],
                ),
        decreases lines@.len() - i,
    {
        if contains_text(lines[i].as_str(), part) {
            assert(strings(lines@)[i as int] == lines@[i as int]@);
            return i;
        }
        assert(strings(lines@)[i as int] == lines@[i as int]@);
        i = i + 1;
    }
    i
}

/// Places one note: see `place_one`.
pub fn place_comment(lines: &mut Vec<String>, anchor: &str, comment: &str)
    ensures
        strings(final(lines)@) == place_one(strings(old(lines)@), (anchor@, comment@)),
{
    let at = if starts_with_text(anchor, ":") {
        find_line(lines, anchor)
    } else {
        find_line(lines, anchor.to_owned().concat(":").as_str())
    };
    if at < lines.len() {
        let ghost before = strings(lines@);
        assert(before[at as int] == lines@[at as int]@);
        if !contains_text(lines[at].as_str(), trim(comment)) {
            let line = &mut lines[at];
            line.append(comment);
            assert(strings(lines@) =~= before.update(at as int, before[at as int] + comment@));
        }
    }
}

/// Places the notes in the lines, the last note first: see `place_one`. No
/// comment comes to stand twice in one line.
pub fn place_comments(lines: &mut Vec<String>, notes: &Vec<(String, String)>)
    ensures
        strings(final(lines)@) == placed(strings(old(lines)@), notes_of(notes@)),
{
    let ghost all = notes_of(notes@);
    let mut i: usize = notes.len();
    proof {
        assert(all.take(i as int) =~= all);
    }
    while i > 0
        invariant
            i <= notes@.len(),
            all == notes_of(notes@),
            placed(strings(lines@), all.take(i as int)) == placed(strings(old(lines)@), all),
        decreases i,
    {
        proof {
            assert(all.take(i as int).drop_last() =~= all.take(i - 1));
            assert(all.take(i as int).last() == (notes@[i - 1].0@, notes@[i - 1].1@));
        }
        place_comment(lines, notes[i - 1].0.as_str(), notes[i - 1].1.as_str());
        i = i - 1;
    }
}

/// The span of a rule.
pub open spec fn rule_span(rule: Rule) -> Span {
    match rule {
        Rule::QualifiedRule(rule) => rule.span,
        Rule::AtRule(rule) => rule.span,
        Rule::ListOfComponentValues(list) => list.span,
    }
}

/// The texts, each followed by a line feed.
pub open spec fn each_on_a_line(texts: Seq<Seq<char>>) -> Seq<char>
    decreases texts.len(),
{
    if texts.len() == 0 {
        Seq::empty()
    } else {
        each_on_a_line(texts.drop_last()) + texts.last() + seq!['\n']
    }
}

/// The lines with a line feed between each two.
pub open spec fn joined(lines: Seq<Seq<char>>) -> Seq<char>
    decreases lines.len(),
{
    if lines.len() == 0 {
        Seq::empty()
    } else if lines.len() == 1 {
        lines[0]
    } else {
        joined(lines.drop_last()) + seq!['\n'] + lines.last()
    }
}

/// What is written for one rule: the comments in front of it on lines of
/// their own, the lines of the rule with its inline comments placed, and the
/// comments behind it on lines of their own.
pub open spec fn rule_block(rule: Rule, comments: SingleThreadedComments) -> Option<Seq<char>> {
    match rule_text(rule) {
        None => None,
        Some(text) => Some(
            each_on_a_line(leading_texts(comments, rule_span(rule).lo)) + joined(
                placed(lines_of(text), notes_walked(rule, comments)),
            ) + seq!['\n'] + each_on_a_line(trailing_texts(comments, rule_span(rule).hi)),
        ),
    }
}

/// What is written for the rules, one after the other; nothing where the code
/// generator gives up on one of them.
pub open spec fn rule_blocks(rules: Seq<Rule>, comments: SingleThreadedComments) -> Option<
    Seq<char>,
>
    decreases rules.len(),
{
    if rules.len() == 0 {
        Some(Seq::empty())
    } else {
        match (rule_blocks(rules.drop_last(), comments), rule_block(rules.last(), comments)) {
            (Some(earlier), Some(block)) => Some(earlier + block),
            _ => None,
        }
    }
}

/// The text of a stylesheet with its comments: what is written for its rules,
/// without the white space at either end.
pub open spec fn stylesheet_text(rules: Seq<Rule>, comments: SingleThreadedComments) -> Result<
    Seq<char>,
    Seq<char>,
> {
    match rule_blocks(rules, comments) {
        Some(text) => Ok(trimmed(text)),
        None => Err(GENERATE_ERROR@),
    }
}

/// The span of a rule.
pub fn span_of_rule(rule: &Rule) -> (r: Span)
    ensures
        r == rule_span(*rule),
{
    match rule {
        Rule::QualifiedRule(rule) => rule.span,
        Rule::AtRule(rule) => rule.span,
        Rule::ListOfComponentValues(list) => list.span,
    }
}

/// Appends each text and a line feed behind it.
pub fn push_lines(output: &mut String, texts: &Vec<String>)
    ensures
        final(output)@ == old(output)@ + each_on_a_line(strings(texts@)),
{
    let ghost all = strings(texts@);
    let mut i: usize = 0;
    proof {
        assert(all.take(0) =~= Seq::<Seq<char>>::empty());
        assert(output@ =~= old(output)@ + each_on_a_line(all.take(0)));
    }
    while i < texts.len()
        invariant
            i <= texts@.len(),
            all == strings(texts@),
            output@ == old(output)@ + each_on_a_line(all.take(i as int)),
        decreases texts@.len() - i,
    {
        proof {
            assert(all.take(i + 1).drop_last() =~= all.take(i as int));
            assert(all.take(i + 1).last() == texts@[i as int]@);
            reveal_strlit("\n");
            assert("\n"@ =~= seq!['\n']);
        }
        let ghost earlier = output@;
        output.append(texts[i].as_str());
        output.append("\n");
        assert(output@ =~= old(output)@ + each_on_a_line(all.take(i + 1)));
        i = i + 1;
    }
    proof {
        assert(all.take(i as int) =~= all);
    }
}

/// Appends the lines with a line feed between each two.
pub fn push_joined(output: &mut String, lines: &Vec<String>)
    ensures
        final(output)@ == old(output)@ + joined(strings(lines@)),
{
    let ghost all = strings(lines@);
    let mut i: usize = 0;
    proof {
        assert(all.take(0) =~= Seq::<Seq<char>>::empty());
        assert(output@ =~= old(output)@ + joined(all.take(0)));
    }
    while i < lines.len()
        invariant
            i <= lines@.len(),
            all == strings(lines@),
            output@ == old(output)@ + joined(all.take(i as int)),
        decreases lines@.len() - i,
    {
        proof {
            assert(all.take(i + 1).drop_last() =~= all.take(i as int));
            assert(all.take(i + 1).last() == lines@[i as int]@);
            assert(all.take(i + 1)[0] == all[0]);
            reveal_strlit("\n");
            assert("\n"@ =~= seq!['\n']);
        }
        if i > 0 {
            output.append("\n");
        }
        output.append(lines[i].as_str());
        assert(output@ =~= old(output)@ + joined(all.take(i + 1)));
        i = i + 1;
    }
    proof {
        assert(all.take(i as int) =~= all);
    }
}

/// Writes one rule of a stylesheet behind `output`: see `rule_block`. Says
/// whether the code generator wrote the rule; where it did not, `output` is as
/// it was.
pub fn push_rule(output: &mut String, parsed: &ParsedStylesheet, index: usize) -> (r: bool)
    requires
        index < parsed.sheet().rules@.len(),
    ensures
        match rule_block(parsed.sheet().rules@[index as int], parsed.notes()) {
            Some(block) => r && final(output)@ == old(output)@ + block,
            None => !r && final(output)@ == old(output)@,
        },
{
    let text = match emit_rule(parsed, index) {
        Some(text) => text,
        None => {
            return false;
        },
    };
    let rule = &parsed.stylesheet().rules[index];
    let comments = parsed.comments();
    let span = span_of_rule(rule);
    let leading = leading_at(comments, span.lo);
    push_lines(output, &leading);
    let mut collector = InlineCommentCollector { comments, collected_comments: Vec::new() };
    proof {
        assert(notes_of(collector.collected_comments@) =~= Seq::<(Seq<char>, Seq<char>)>::empty());
    }
    walk_for_notes(rule, &mut collector);
    proof {
        assert(notes_of(collector.collected_comments@) =~= notes_walked(*rule, *comments));
    }
    let mut lines = text_lines(text.as_str());
    place_comments(&mut lines, &collector.collected_comments);
    push_joined(output, &lines);
    proof {
        reveal_strlit("\n");
        assert("\n"@ =~= seq!['\n']);
    }
    output.append("\n");
    let trailing = trailing_at(comments, span.hi);
    push_lines(output, &trailing);
    proof {
        assert(output@ =~= old(output)@ + rule_block(*rule, *comments)->Some_0);
    }
    true
}

/// Writes a stylesheet with its comments. A comment in front of a rule or
/// behind it gets a line of its own there. A comment that belongs behind a
/// declaration or a pseudo-selector goes to the end of the first line of the
/// rule that holds the property's name with its colon, or the selector; where
/// no line holds it the comment is dropped, and no line gets one comment
/// twice.
///
/// Fails where the code generator gives up on a rule.
pub fn generate_css_with_comments(parsed: &ParsedStylesheet) -> (r: Result<String, String>)
    ensures
        match stylesheet_text(parsed.sheet().rules@, parsed.notes()) {
            Ok(text) => r is Ok && r->Ok_0@ == text,
            Err(message) => r is Err && r->Err_0@ == message,
        },
{
    let stylesheet = parsed.stylesheet();
    let ghost comments = parsed.notes();
    let mut output = String::new();
    let mut i: usize = 0;
    proof {
        assert(stylesheet.rules@.take(0) =~= Seq::<Rule>::empty());
    }
    while i < stylesheet.rules.len()
        invariant
            i <= stylesheet.rules@.len(),
            *stylesheet == parsed.sheet(),
            comments == parsed.notes(),
            rule_blocks(stylesheet.rules@.take(i as int), comments) == Some(output@),
        decreases stylesheet.rules@.len() - i,
    {
        proof {
            assert(stylesheet.rules@.take(i + 1).drop_last() =~= stylesheet.rules@.take(i as int));
            assert(stylesheet.rules@.take(i + 1).last() == stylesheet.rules@[i as int]);
        }
        if !push_rule(&mut output, parsed, i) {
            proof {
                lemma_blocks_fail(stylesheet.rules@, comments, i as int + 1);
            }
            return Err(GENERATE_ERROR.to_owned());
        }
        i = i + 1;
    }
    proof {
        assert(stylesheet.rules@.take(i as int) =~= stylesheet.rules@);
    }
    Ok(trim(output.as_str()).to_owned())
}

/// Where nothing is written for the first `n` rules, nothing is written for
/// all of them.
proof fn lemma_blocks_fail(rules: Seq<Rule>, comments: SingleThreadedComments, n: int)
    requires
        0 <= n <= rules.len(),
        rule_blocks(rules.take(n), comments) is None,
    ensures
        rule_blocks(rules, comments) is None,
    decreases rules.len() - n,
{
    if n < rules.len() {
        assert(rules.take(n + 1).drop_last() =~= rules.take(n));
        lemma_blocks_fail(rules, comments, n + 1);
    } else {
        assert(rules.take(n) =~= rules);
    }
}

/// What `insert_import_to_ast` returns for a stylesheet and import lines.
pub open spec fn inserted_text(
    file_content: Seq<char>,
    import_lines: Seq<char>,
    r: Result<Seq<char>, Seq<char>>,
) -> bool {
    match parsed_stylesheet(file_content) {
        None => r == Err::<Seq<char>, Seq<char>>(PARSE_ERROR@),
        Some((stylesheet, comments, _)) => exists|rules: Seq<Rule>|
            {
                &&& is_insertion(stylesheet.rules@, Seq::empty(), asked_lines(import_lines), rules)
                &&& r == stylesheet_text(rules, comments)
            },
    }
}

/// Puts an import in front of the stylesheet for each address that the lines
/// of `import_lines` ask for and the stylesheet does not import yet, and
/// returns the new text with the comments of the old one. A line asks as
/// `@import "file.css";`, with or without `@import`, quotes and `;`. A line
/// that comes twice counts once.
///
/// Fails where the stylesheet does not parse or cannot be written.
pub fn insert_import_to_ast(file_content: &str, import_lines: &str) -> (r: Result<String, String>)
    ensures
        inserted_text(
            file_content@,
            import_lines@,
            match r {
                Ok(text) => Ok(text@),
                Err(message) => Err(message@),
            },
        ),
{
    let mut parsed = match parse(file_content) {
        Ok(parsed) => parsed,
        Err(message) => {
            return Err(message);
        },
    };
    let mut inserter = ImportInserter {
        new_import_strings: import_lines_of(import_lines),
        existing_imports: Vec::new(),
    };
    proof {
        assert(strings(inserter.existing_imports@) =~= Seq::<Seq<char>>::empty());
    }
    parsed.insert_imports(&mut inserter);
    generate_css_with_comments(&parsed)
}

} // verus!
