//! Imports, statistics and named object literals of a JavaScript module.

use crate::parsers::javascript::declarators::{
    declares, declares_name, find_declaring, first_declaring, first_target, first_target_below,
    has_initial_object, initial_object, lemma_first_declaring, same_but_declarator, with_target,
    with_target_below,
};
use crate::parsers::javascript::entries::{extend_props, is_extension, texts};
use crate::parsers::javascript::helpers::{
    as_import, body_with_lines, code_gen_from_ast_module, generated, import_source,
    imports_source, is_duplicate_import, is_repeated_import, parse, parsed_beside, parsed_module,
    result_text, PARSE_CONTENT_ERROR,
};
use swc_ecma_ast::{
    Class, DebuggerStmt, Decl, Expr, Function, ImportDecl, Module, ModuleItem, Stmt, ThrowStmt,
    TryStmt, VarDecl, VarDeclKind, VarDeclarator,
};
use swc_ecma_visit::{VisitMut, VisitMutWith};
use vstd::prelude::*;

verus! {

/// What a pass over the tree is meant to do.
#[derive(Debug, Clone, Copy, PartialEq, Eq, Structural)]
pub enum Operation {
    Add,
    Edit,
    Delete,
    Read,
    Replace,
}

/// The message of a search that found its target.
pub const FOUND_MESSAGE: &'static str = "The requested item was successfully found and applied.";

/// The message of a search that met no target, where no other reason is given.
pub const NOT_FOUND_MESSAGE: &'static str =
    "Unfortunately, the item you are looking for does not exist or has already been deleted.";

/// The message of a search that met a target of the wrong shape, where no other
/// reason is given.
pub const FOUND_ERROR_MESSAGE: &'static str =
    "The requested item was found, but an error occurred while modifying it. It might not match the type you require.";

/// How a search for one target in the tree ended.
#[derive(Debug, PartialEq, Eq)]
pub enum FindCondition {
    /// The target is there and has the expected shape.
    Found,
    /// No target is there. The reason may be empty.
    NotFound(String),
    /// The target is there, with another shape than expected. The reason may be
    /// empty.
    FoundError(String),
}

/// How a search ended, with the reason as characters.
pub enum Finding {
    Found,
    NotFound(Seq<char>),
    FoundError(Seq<char>),
}

impl View for FindCondition {
    type V = Finding;

    open spec fn view(&self) -> Finding {
        match self {
            FindCondition::Found => Finding::Found,
            FindCondition::NotFound(reason) => Finding::NotFound(reason@),
            FindCondition::FoundError(reason) => Finding::FoundError(reason@),
        }
    }
}

impl Finding {
    /// The sentence to show for this outcome.
    pub open spec fn message_text(self) -> Seq<char> {
        match self {
            Finding::Found => FOUND_MESSAGE@,
            Finding::NotFound(reason) => if reason.len() == 0 {
                NOT_FOUND_MESSAGE@
            } else {
                reason
            },
            Finding::FoundError(reason) => if reason.len() == 0 {
                FOUND_ERROR_MESSAGE@
            } else {
                reason
            },
        }
    }

    /// Whether the search is still open: no declaration of the target was met
    /// yet. The first one met closes it, whatever its shape.
    pub open spec fn is_open(self) -> bool {
        self is NotFound
    }

    /// The state in which every search begins.
    pub open spec fn start() -> Finding {
        Finding::NotFound(Seq::empty())
    }
}

impl FindCondition {
    /// The state in which every search begins: nothing found, no reason given.
    pub fn start() -> (r: FindCondition)
        ensures
            r@ == Finding::start(),
    {
        FindCondition::NotFound(String::new())
    }

    /// Whether the search is still open.
    pub fn is_open(&self) -> (r: bool)
        ensures
            r == self@.is_open(),
    {
        match self {
            FindCondition::NotFound(_) => true,
            _ => false,
        }
    }

    /// Whether the target was found in the expected shape.
    pub fn is_found(&self) -> (r: bool)
        ensures
            r == (self@ is Found),
    {
        match self {
            FindCondition::Found => true,
            _ => false,
        }
    }

    /// The sentence to show for this outcome: the reason it carries, or a
    /// standard sentence where it carries none.
    pub fn message(&self) -> (r: &str)
        ensures
            r@ == self@.message_text(),
    {
        match self {
            FindCondition::Found => FOUND_MESSAGE,
            FindCondition::NotFound(reason) => {
                if reason.as_str().is_empty() {
                    NOT_FOUND_MESSAGE
                } else {
                    reason.as_str()
                }
            },
            FindCondition::FoundError(reason) => {
                if reason.as_str().is_empty() {
                    FOUND_ERROR_MESSAGE
                } else {
                    reason.as_str()
                }
            },
        }
    }
}

/// What an operation returns after its search: the text that was written
/// where the target was found, else the message of how the search ended.
pub open spec fn search_outcome(finding: Finding, written: Result<Seq<char>, Seq<char>>) -> Result<
    Seq<char>,
    Seq<char>,
> {
    if finding is Found {
        written
    } else {
        Err(finding.message_text())
    }
}

/// What an operation returns after its search: see `search_outcome`.
pub fn outcome_of(find: &FindCondition, written: Result<String, String>) -> (r: Result<
    String,
    String,
>)
    ensures
        result_text(r) == search_outcome(find@, result_text(written)),
{
    if find.is_found() {
        written
    } else {
        Err(find.message().to_owned())
    }
}

/// A search that ends with a target of the wrong shape gives an error, never a
/// text, whatever was written.
pub proof fn lemma_wrong_shape_gives_an_error(
    finding: Finding,
    written: Result<Seq<char>, Seq<char>>,
)
    requires
        finding is FoundError,
    ensures
        search_outcome(finding, written) is Err,
        search_outcome(finding, written)->Err_0 == finding.message_text(),
{
}

// Imports.

/// The error text of an operation whose import lines do not parse.
pub const PARSE_IMPORTS_ERROR: &'static str = "Failed to parse imports";

/// The error text of an insertion whose lines hold something else than import
/// declarations.
pub const NOT_AN_IMPORT_ERROR: &'static str = "Expected import declarations only";

/// Where a new import declaration goes: behind the last import declaration of
/// `body`, or in front of everything where `body` imports nothing.
pub open spec fn insertion_point(body: Seq<ModuleItem>) -> int
    decreases body.len(),
{
    if body.len() == 0 {
        0
    } else if import_source(body.last()) is Some {
        body.len() as int
    } else {
        insertion_point(body.drop_last())
    }
}

/// `body` after the insertion of one candidate: unchanged where the candidate
/// repeats an import, else with the candidate at the insertion point.
pub open spec fn with_import(body: Seq<ModuleItem>, candidate: ModuleItem) -> Seq<ModuleItem> {
    if is_repeated_import(candidate, body) {
        body
    } else {
        body.insert(insertion_point(body), candidate)
    }
}

/// `body` after the insertion of the candidates, one after the other in the
/// order given.
pub open spec fn with_imports(body: Seq<ModuleItem>, candidates: Seq<ModuleItem>) -> Seq<
    ModuleItem,
>
    decreases candidates.len(),
{
    if candidates.len() == 0 {
        body
    } else {
        with_import(with_imports(body, candidates.drop_last()), candidates.last())
    }
}

/// Whether every item is an import declaration.
pub open spec fn all_imports(items: Seq<ModuleItem>) -> bool {
    forall|i: int| 0 <= i < items.len() ==> (#[trigger] import_source(items[i])) is Some
}

/// Whether `item` is an import declaration of a module that `named` imports.
pub open spec fn is_named_import(item: ModuleItem, named: Seq<ModuleItem>) -> bool {
    is_repeated_import(item, named)
}

/// `body` without the import declarations of the modules that `named` imports.
pub open spec fn without_imports(body: Seq<ModuleItem>, named: Seq<ModuleItem>) -> Seq<ModuleItem> {
    body.filter(|item: ModuleItem| !is_named_import(item, named))
}

/// Whether `candidates` holds an import declaration and `body` already imports
/// the module of each import declaration in it.
pub open spec fn all_imported(body: Seq<ModuleItem>, candidates: Seq<ModuleItem>) -> bool {
    &&& exists|j: int| 0 <= j < candidates.len() && (#[trigger] import_source(candidates[j])) is Some
    &&& forall|j: int|
        0 <= j < candidates.len() && (#[trigger] import_source(candidates[j])) is Some
            ==> is_repeated_import(candidates[j], body)
}

/// The index at which a new import declaration goes.
pub fn find_insertion_point(body: &Vec<ModuleItem>) -> (r: usize)
    ensures
        r == insertion_point(body@),
        r <= body@.len(),
{
    let mut i: usize = body.len();
    proof {
        assert(body@.take(i as int) =~= body@);
    }
    while i > 0
        invariant
            i <= body@.len(),
            insertion_point(body@) == insertion_point(body@.take(i as int)),
        decreases i,
    {
        proof {
            assert(body@.take(i as int).last() == body@[i - 1]);
            assert(body@.take(i as int).drop_last() =~= body@.take(i - 1));
        }
        if as_import(&body[i - 1]).is_some() {
            return i;
        }
        i = i - 1;
    }
    proof {
        assert(body@.take(0).len() == 0);
    }
    0
}

/// Whether every item is an import declaration.
pub fn only_imports(items: &Vec<ModuleItem>) -> (r: bool)
    ensures
        r == all_imports(items@),
{
    let mut i: usize = 0;
    while i < items.len()
        invariant
            i <= items@.len(),
            forall|j: int| 0 <= j < i ==> (#[trigger] import_source(items@[j])) is Some,
        decreases items@.len() - i,
    {
        if as_import(&items[i]).is_none() {
            return false;
        }
        i = i + 1;
    }
    true
}

/// Inserts the candidates into `body`, one after the other: a candidate whose
/// module `body` imports by then is dropped, any other goes behind the last
/// import declaration that `body` holds by then. So new imports end up
/// together, in the order given, behind the imports that were there.
///
/// Nothing is inserted unless every candidate is an import declaration; the
/// result says whether that was so.
pub fn insert_imports(body: &mut Vec<ModuleItem>, candidates: Vec<ModuleItem>) -> (r: bool)
    ensures
        r == all_imports(candidates@),
        r ==> final(body)@ == with_imports(old(body)@, candidates@),
        !r ==> final(body)@ == old(body)@,
{
    if !only_imports(&candidates) {
        return false;
    }
    let ghost before = body@;
    let ghost all = candidates@;
    let mut rest = candidates;
    let ghost mut done: int = 0;
    while rest.len() > 0
        invariant
            before == old(body)@,
            0 <= done <= all.len(),
            rest@ == all.skip(done),
            body@ == with_imports(before, all.take(done)),
        decreases rest@.len(),
    {
        let candidate = rest.remove(0);
        proof {
            assert(candidate == all[done]);
            assert(all.take(done + 1).drop_last() =~= all.take(done));
            assert(all.take(done + 1).last() == all[done]);
            assert(rest@ =~= all.skip(done + 1));
        }
        if !is_duplicate_import(&candidate, body.as_slice()) {
            let at = find_insertion_point(body);
            body.insert(at, candidate);
        }
        proof {
            done = done + 1;
        }
    }
    proof {
        assert(all.take(done) =~= all);
    }
    true
}

/// Removes from `body` every import declaration of a module that `named`
/// imports. All other items keep their order.
pub fn remove_imports(body: &mut Vec<ModuleItem>, named: &Vec<ModuleItem>)
    ensures
        final(body)@ == without_imports(old(body)@, named@),
{
    let ghost before = body@;
    let ghost keep = |item: ModuleItem| !is_named_import(item, named@);
    let ghost mut done: int = 0;
    let mut kept: usize = 0;
    while kept < body.len()
        invariant
            before == old(body)@,
            keep == (|item: ModuleItem| !is_named_import(item, named@)),
            0 <= done <= before.len(),
            kept == before.take(done).filter(keep).len(),
            body@ == before.take(done).filter(keep) + before.skip(done),
        decreases body@.len() - kept,
    {
        proof {
            reveal(Seq::filter);
            assert(body@[kept as int] == before.skip(done)[0]);
            assert(before.take(done + 1).drop_last() =~= before.take(done));
            assert(before.take(done + 1).last() == before[done]);
        }
        if is_duplicate_import(&body[kept], named.as_slice()) {
            body.remove(kept);
            assert(body@ =~= before.take(done + 1).filter(keep) + before.skip(done + 1));
        } else {
            assert(body@ =~= before.take(done + 1).filter(keep) + before.skip(done + 1));
            kept = kept + 1;
        }
        proof {
            done = done + 1;
        }
    }
    proof {
        assert(before.skip(done).len() == 0);
        assert(before.take(done) =~= before);
        assert(body@ =~= before.filter(keep));
    }
}

/// Whether `candidates` holds an import declaration and `body` already imports
/// the module of every import declaration in it.
pub fn imports_all(body: &Vec<ModuleItem>, candidates: &Vec<ModuleItem>) -> (r: bool)
    ensures
        r == all_imported(body@, candidates@),
{
    let mut seen = false;
    let mut j: usize = 0;
    while j < candidates.len()
        invariant
            j <= candidates@.len(),
            seen == exists|k: int| 0 <= k < j && (#[trigger] import_source(candidates@[k])) is Some,
            forall|k: int|
                0 <= k < j && (#[trigger] import_source(candidates@[k])) is Some
                    ==> is_repeated_import(candidates@[k], body@),
        decreases candidates@.len() - j,
    {
        if as_import(&candidates[j]).is_some() {
            if !is_duplicate_import(&candidates[j], body.as_slice()) {
                return false;
            }
            seen = true;
        }
        j = j + 1;
    }
    seen
}

/// After its own insertion a candidate repeats an import of the body.
proof fn lemma_with_import_holds(body: Seq<ModuleItem>, candidate: ModuleItem)
    requires
        import_source(candidate) is Some,
    ensures
        is_repeated_import(candidate, with_import(body, candidate)),
{
    if !is_repeated_import(candidate, body) {
        lemma_insertion_point_bounds(body);
        let at = insertion_point(body);
        assert(with_import(body, candidate)[at] == candidate);
    }
}

/// The insertion point lies within the body or at its end.
proof fn lemma_insertion_point_bounds(body: Seq<ModuleItem>)
    ensures
        0 <= insertion_point(body) <= body.len(),
    decreases body.len(),
{
    if body.len() > 0 && !(import_source(body.last()) is Some) {
        lemma_insertion_point_bounds(body.drop_last());
    }
}

/// An insertion takes no import away.
proof fn lemma_with_import_keeps(body: Seq<ModuleItem>, candidate: ModuleItem, source: Seq<u8>)
    requires
        imports_source(body, source),
    ensures
        imports_source(with_import(body, candidate), source),
{
    if !is_repeated_import(candidate, body) {
        lemma_insertion_point_bounds(body);
        let at = insertion_point(body);
        let i = choose|i: int| 0 <= i < body.len() && #[trigger] import_source(body[i]) == Some(source);
        let after = with_import(body, candidate);
        if i < at {
            assert(after[i] == body[i]);
        } else {
            assert(after[i + 1] == body[i]);
        }
    }
}

/// After a batch of insertions every candidate of the batch repeats an import
/// of the body.
proof fn lemma_with_imports_holds(body: Seq<ModuleItem>, candidates: Seq<ModuleItem>, j: int)
    requires
        all_imports(candidates),
        0 <= j < candidates.len(),
    ensures
        is_repeated_import(candidates[j], with_imports(body, candidates)),
    decreases candidates.len(),
{
    let earlier = with_imports(body, candidates.drop_last());
    assert(import_source(candidates[j]) is Some);
    assert(import_source(candidates[candidates.len() - 1]) is Some);
    if j == candidates.len() - 1 {
        lemma_with_import_holds(earlier, candidates.last());
    } else {
        assert forall|k: int| 0 <= k < candidates.drop_last().len() implies (#[trigger] import_source(
            candidates.drop_last()[k],
        )) is Some by {
            assert(candidates.drop_last()[k] == candidates[k]);
        }
        lemma_with_imports_holds(body, candidates.drop_last(), j);
        assert(candidates.drop_last()[j] == candidates[j]);
        lemma_with_import_keeps(earlier, candidates.last(), import_source(candidates[j])->Some_0);
    }
}

/// Candidates that all repeat imports of the body change nothing.
proof fn lemma_repeats_change_nothing(body: Seq<ModuleItem>, candidates: Seq<ModuleItem>)
    requires
        forall|j: int|
            0 <= j < candidates.len() ==> is_repeated_import(#[trigger] candidates[j], body),
    ensures
        with_imports(body, candidates) == body,
    decreases candidates.len(),
{
    if candidates.len() > 0 {
        assert forall|j: int| 0 <= j < candidates.drop_last().len() implies is_repeated_import(
            #[trigger] candidates.drop_last()[j],
            body,
        ) by {
            assert(candidates.drop_last()[j] == candidates[j]);
        }
        lemma_repeats_change_nothing(body, candidates.drop_last());
        assert(is_repeated_import(candidates[candidates.len() - 1], body));
    }
}

/// Insertion is idempotent: inserting the same import declarations a second
/// time leaves the items as the first insertion made them.
pub proof fn lemma_insertion_settles(body: Seq<ModuleItem>, candidates: Seq<ModuleItem>)
    requires
        all_imports(candidates),
    ensures
        with_imports(with_imports(body, candidates), candidates) == with_imports(body, candidates),
{
    let once = with_imports(body, candidates);
    assert forall|j: int| 0 <= j < candidates.len() implies is_repeated_import(
        #[trigger] candidates[j],
        once,
    ) by {
        lemma_with_imports_holds(body, candidates, j);
    }
    lemma_repeats_change_nothing(once, candidates);
}

/// Behind the insertion point stands no import declaration.
proof fn lemma_no_import_behind(body: Seq<ModuleItem>, i: int)
    requires
        insertion_point(body) <= i < body.len(),
    ensures
        import_source(body[i]) is None,
    decreases body.len(),
{
    lemma_insertion_point_bounds(body);
    if !(import_source(body.last()) is Some) {
        if i < body.len() - 1 {
            lemma_no_import_behind(body.drop_last(), i);
            assert(body.drop_last()[i] == body[i]);
        } else {
            assert(body[i] == body.last());
        }
    }
}

/// An index with an import declaration in front of it and none behind it is
/// the insertion point.
proof fn lemma_insertion_point_is(body: Seq<ModuleItem>, at: int)
    requires
        0 <= at <= body.len(),
        at > 0 ==> import_source(body[at - 1]) is Some,
        forall|i: int| at <= i < body.len() ==> (#[trigger] import_source(body[i])) is None,
    ensures
        insertion_point(body) == at,
    decreases body.len(),
{
    if body.len() > 0 {
        if at < body.len() {
            assert(import_source(body[body.len() - 1]) is None);
            assert forall|i: int| at <= i < body.drop_last().len() implies (#[trigger] import_source(
                body.drop_last()[i],
            )) is None by {
                assert(body.drop_last()[i] == body[i]);
            }
            if at > 0 {
                assert(body.drop_last()[at - 1] == body[at - 1]);
            }
            lemma_insertion_point_is(body.drop_last(), at);
        }
    }
}

/// A batch of new imports stays together: import declarations of modules that
/// the body does not import, no two of one module, end up in the order given
/// right behind the last import of the body, with everything else of the body
/// around them as it was.
pub proof fn lemma_batch_stays_together(body: Seq<ModuleItem>, candidates: Seq<ModuleItem>)
    requires
        all_imports(candidates),
        forall|j: int| 0 <= j < candidates.len() ==> !is_repeated_import(#[trigger] candidates[j], body),
        forall|j: int, k: int|
            0 <= j < k < candidates.len() ==> import_source(candidates[j]) != import_source(
                candidates[k],
            ),
    ensures
        with_imports(body, candidates) == body.take(insertion_point(body)) + candidates + body.skip(
            insertion_point(body),
        ),
    decreases candidates.len(),
{
    lemma_insertion_point_bounds(body);
    let at = insertion_point(body);
    if candidates.len() == 0 {
        assert(body.take(at) + candidates + body.skip(at) =~= body);
    } else {
        let earlier = candidates.drop_last();
        let last = candidates.last();
        assert forall|j: int| 0 <= j < earlier.len() implies (#[trigger] import_source(
            earlier[j],
        )) is Some by {
            assert(earlier[j] == candidates[j]);
        }
        assert forall|j: int| 0 <= j < earlier.len() implies !is_repeated_import(
            #[trigger] earlier[j],
            body,
        ) by {
            assert(earlier[j] == candidates[j]);
        }
        assert forall|j: int, k: int| 0 <= j < k < earlier.len() implies import_source(earlier[j])
            != import_source(earlier[k]) by {
            assert(earlier[j] == candidates[j] && earlier[k] == candidates[k]);
        }
        lemma_batch_stays_together(body, earlier);
        let grown = body.take(at) + earlier + body.skip(at);
        assert(import_source(candidates[candidates.len() - 1]) is Some);
        assert(!is_repeated_import(candidates[candidates.len() - 1], body));
        let source = import_source(last)->Some_0;
        // The last candidate repeats nothing in what has grown so far.
        assert forall|i: int| 0 <= i < grown.len() implies #[trigger] import_source(grown[i])
            != Some(source) by {
            if i < at {
                assert(grown[i] == body[i]);
            } else if i < at + earlier.len() {
                assert(grown[i] == candidates[i - at]);
            } else {
                assert(grown[i] == body[i - earlier.len()]);
            }
        }
        // It goes behind the candidates before it.
        let behind = at + earlier.len();
        assert forall|i: int| behind <= i < grown.len() implies (#[trigger] import_source(
            grown[i],
        )) is None by {
            assert(grown[i] == body[i - earlier.len()]);
            lemma_no_import_behind(body, i - earlier.len());
        }
        if behind > 0 {
            if earlier.len() > 0 {
                assert(grown[behind - 1] == candidates[earlier.len() - 1]);
            } else {
                assert(grown[behind - 1] == body[at - 1]);
                lemma_import_in_front(body);
            }
        }
        lemma_insertion_point_is(grown, behind);
        assert(grown.insert(behind, last) =~= body.take(at) + candidates + body.skip(at));
    }
}

/// In front of an insertion point that is not the start stands an import
/// declaration.
proof fn lemma_import_in_front(body: Seq<ModuleItem>)
    ensures
        insertion_point(body) > 0 ==> import_source(body[insertion_point(body) - 1]) is Some,
    decreases body.len(),
{
    if body.len() > 0 && !(import_source(body.last()) is Some) {
        lemma_import_in_front(body.drop_last());
        lemma_insertion_point_bounds(body.drop_last());
    }
}

/// Removal keeps the order of what stays: of the items before one item, that
/// item and the items behind it, each part is thinned out by itself, and the
/// parts stay in their order.
pub proof fn lemma_removal_keeps_order(
    front: Seq<ModuleItem>,
    item: ModuleItem,
    back: Seq<ModuleItem>,
    named: Seq<ModuleItem>,
)
    ensures
        without_imports(front + seq![item] + back, named) == without_imports(front, named) + (
        if is_named_import(item, named) {
            Seq::<ModuleItem>::empty()
        } else {
            seq![item]
        }) + without_imports(back, named),
{
    let keep = |item: ModuleItem| !is_named_import(item, named);
    Seq::filter_distributes_over_add(front + seq![item], back, keep);
    Seq::filter_distributes_over_add(front, seq![item], keep);
    reveal_with_fuel(Seq::filter, 2);
    assert(seq![item].drop_last() =~= Seq::<ModuleItem>::empty());
    assert(seq![item].filter(keep) =~= if is_named_import(item, named) {
        Seq::<ModuleItem>::empty()
    } else {
        seq![item]
    });
}

/// What `insert_import_to_ast` returns for a source text and import lines.
/// The lines are read as a further file of the source map of the text.
pub open spec fn inserted_text(file_content: Seq<char>, import_lines: Seq<char>) -> Result<
    Seq<char>,
    Seq<char>,
> {
    match parsed_module(file_content) {
        None => Err(PARSE_CONTENT_ERROR@),
        Some((module, comments, cm)) => match body_with_lines(
            module.body@,
            parsed_beside(cm, import_lines).0,
        ) {
            Ok(body) => generated(module, body, comments, parsed_beside(cm, import_lines).1),
            Err(message) => Err(message),
        },
    }
}

/// What `remove_import_from_ast` returns for a source text and the import
/// lines that name the modules to drop.
pub open spec fn removed_text(file_content: Seq<char>, modules: Seq<char>) -> Result<
    Seq<char>,
    Seq<char>,
> {
    match parsed_module(file_content) {
        None => Err(PARSE_CONTENT_ERROR@),
        Some((module, comments, cm)) => match parsed_module(modules) {
            None => Err(PARSE_IMPORTS_ERROR@),
            Some((named, _, _)) => generated(
                module,
                without_imports(module.body@, named.body@),
                comments,
                cm,
            ),
        },
    }
}

/// Whether both texts parse and the source text already imports every module
/// that the import lines import, of which there is at least one.
pub open spec fn is_imported_text(file_content: Seq<char>, module_name: Seq<char>) -> bool {
    match parsed_module(file_content) {
        None => false,
        Some((module, _, _)) => match parsed_module(module_name) {
            None => false,
            Some((candidates, _, _)) => all_imported(module.body@, candidates.body@),
        },
    }
}

/// Says whether the source text already imports every module that the given
/// import lines import: `Ok(true)` where it does and the lines hold at least
/// one import declaration, `Err(false)` in every other case, a text that does
/// not parse included.
pub fn is_module_imported_from_ast(file_content: &str, module_name: &str) -> (r: Result<bool, bool>)
    ensures
        r == if is_imported_text(file_content@, module_name@) {
            Ok::<bool, bool>(true)
        } else {
            Err::<bool, bool>(false)
        },
{
    let parsed = match parse(file_content) {
        Ok(parsed) => parsed,
        Err(_) => {
            return Err(false);
        },
    };
    let candidates = match parse(module_name) {
        Ok(parsed) => parsed,
        Err(_) => {
            return Err(false);
        },
    };
    if imports_all(&parsed.module().body, &candidates.module().body) {
        Ok(true)
    } else {
        Err(false)
    }
}

/// Adds the import declarations of `import_lines` to the source text and
/// returns the new text. A declaration whose module the text imports already is
/// skipped, whatever names it binds; the others go, in the order given, behind
/// the last import of the text, or to its top where it imports nothing.
///
/// Fails, and returns no text, where the source text or the lines do not parse
/// or the lines hold anything but import declarations.
pub fn insert_import_to_ast(file_content: &str, import_lines: &str) -> (r: Result<String, String>)
    ensures
        result_text(r) == inserted_text(file_content@, import_lines@),
{
    let mut parsed = match parse(file_content) {
        Ok(parsed) => parsed,
        Err(_) => {
            return Err(PARSE_CONTENT_ERROR.to_owned());
        },
    };
    match parsed.insert_imports_from(import_lines) {
        Ok(()) => code_gen_from_ast_module(parsed),
        Err(message) => Err(message),
    }
}

/// Removes from the source text every import declaration of a module that
/// `modules`, itself a text of import declarations, imports, and returns the
/// new text. Everything else stays in its order.
///
/// Fails where either text does not parse.
pub fn remove_import_from_ast(file_content: &str, modules: &str) -> (r: Result<String, String>)
    ensures
        result_text(r) == removed_text(file_content@, modules@),
{
    let mut parsed = match parse(file_content) {
        Ok(parsed) => parsed,
        Err(_) => {
            return Err(PARSE_CONTENT_ERROR.to_owned());
        },
    };
    let named = match parse(modules) {
        Ok(parsed) => parsed,
        Err(_) => {
            return Err(PARSE_IMPORTS_ERROR.to_owned());
        },
    };
    parsed.remove_imports_of(&named.module().body);
    code_gen_from_ast_module(parsed)
}

// Statistics.

/// The kinds of node that the statistics count. `Function` is the node of a
/// declared function, a function expression or a method.
#[derive(Debug, Clone, Copy, PartialEq, Eq, Structural)]
pub enum NodeKind {
    Function,
    Class,
    Debugger,
    Import,
    Try,
    Throw,
}

/// How many nodes of six kinds a module holds, nested ones included.
#[derive(Debug)]
pub struct ASTStatistics {
    pub functions: usize,
    pub classes: usize,
    pub debuggers: usize,
    pub imports: usize,
    pub trys: usize,
    pub throws: usize,
    pub operation: Operation,
}

impl Default for ASTStatistics {
    fn default() -> (r: Self)
        ensures
            r.functions == 0,
            r.classes == 0,
            r.debuggers == 0,
            r.imports == 0,
            r.trys == 0,
            r.throws == 0,
            r.operation == Operation::Read,
    {
        Self {
            functions: 0,
            classes: 0,
            debuggers: 0,
            imports: 0,
            trys: 0,
            throws: 0,
            operation: Operation::Read,
        }
    }
}

/// How often `kind` occurs in `seen`.
pub open spec fn count_of(seen: Seq<NodeKind>, kind: NodeKind) -> nat
    decreases seen.len(),
{
    if seen.len() == 0 {
        0
    } else {
        count_of(seen.drop_last(), kind) + if seen.last() == kind {
            1nat
        } else {
            0nat
        }
    }
}

/// No kind occurs more often than there are nodes.
pub proof fn lemma_count_bounded(seen: Seq<NodeKind>, kind: NodeKind)
    ensures
        count_of(seen, kind) <= seen.len(),
    decreases seen.len(),
{
    if seen.len() > 0 {
        lemma_count_bounded(seen.drop_last(), kind);
    }
}

/// The pass that collects the statistics: it notes the kind of every counted
/// node in the order in which the traversal meets them.
pub struct NodeCounter {
    pub seen: Vec<NodeKind>,
    pub operation: Operation,
}

impl NodeCounter {
    /// A counter that has met nothing yet.
    pub fn new() -> (r: NodeCounter)
        ensures
            r.seen@ == Seq::<NodeKind>::empty(),
            r.operation == Operation::Read,
    {
        NodeCounter { seen: Vec::new(), operation: Operation::Read }
    }

    /// Notes one node of the given kind. Only a reading pass counts.
    pub fn record(&mut self, kind: NodeKind)
        ensures
            final(self).operation == old(self).operation,
            final(self).seen@ == if old(self).operation == Operation::Read {
                old(self).seen@.push(kind)
            } else {
                old(self).seen@
            },
    {
        if matches!(self.operation, Operation::Read) {
            self.seen.push(kind);
        }
    }

    /// How often each kind was met.
    pub fn tally(&self) -> (r: ASTStatistics)
        ensures
            r.functions == count_of(self.seen@, NodeKind::Function),
            r.classes == count_of(self.seen@, NodeKind::Class),
            r.debuggers == count_of(self.seen@, NodeKind::Debugger),
            r.imports == count_of(self.seen@, NodeKind::Import),
            r.trys == count_of(self.seen@, NodeKind::Try),
            r.throws == count_of(self.seen@, NodeKind::Throw),
            r.operation == self.operation,
    {
        let mut stats = ASTStatistics::default();
        stats.operation = self.operation;
        let mut i: usize = 0;
        while i < self.seen.len()
            invariant
                i <= self.seen@.len(),
                stats.operation == self.operation,
                stats.functions == count_of(self.seen@.take(i as int), NodeKind::Function),
                stats.classes == count_of(self.seen@.take(i as int), NodeKind::Class),
                stats.debuggers == count_of(self.seen@.take(i as int), NodeKind::Debugger),
                stats.imports == count_of(self.seen@.take(i as int), NodeKind::Import),
                stats.trys == count_of(self.seen@.take(i as int), NodeKind::Try),
                stats.throws == count_of(self.seen@.take(i as int), NodeKind::Throw),
            decreases self.seen@.len() - i,
        {
            proof {
                let next = self.seen@.take(i + 1);
                assert(next.drop_last() =~= self.seen@.take(i as int));
                assert(next.last() == self.seen@[i as int]);
                lemma_count_bounded(self.seen@.take(i as int), NodeKind::Function);
                lemma_count_bounded(self.seen@.take(i as int), NodeKind::Class);
                lemma_count_bounded(self.seen@.take(i as int), NodeKind::Debugger);
                lemma_count_bounded(self.seen@.take(i as int), NodeKind::Import);
                lemma_count_bounded(self.seen@.take(i as int), NodeKind::Try);
                lemma_count_bounded(self.seen@.take(i as int), NodeKind::Throw);
            }
            match self.seen[i] {
                NodeKind::Function => {
                    stats.functions = stats.functions + 1;
                },
                NodeKind::Class => {
                    stats.classes = stats.classes + 1;
                },
                NodeKind::Debugger => {
                    stats.debuggers = stats.debuggers + 1;
                },
                NodeKind::Import => {
                    stats.imports = stats.imports + 1;
                },
                NodeKind::Try => {
                    stats.trys = stats.trys + 1;
                },
                NodeKind::Throw => {
                    stats.throws = stats.throws + 1;
                },
            }
            i = i + 1;
        }
        proof {
            assert(self.seen@.take(i as int) =~= self.seen@);
        }
        stats
    }
}

/// The kinds of the counted nodes that stand below a function, in the order in
/// which a traversal meets them.
pub uninterp spec fn kinds_in_function(node: Function) -> Seq<NodeKind>;

/// The kinds of the counted nodes that stand below a class, in the order in
/// which a traversal meets them.
pub uninterp spec fn kinds_in_class(node: Class) -> Seq<NodeKind>;

/// The kinds of the counted nodes that stand below an import declaration, in the order in
/// which a traversal meets them.
pub uninterp spec fn kinds_in_import(node: ImportDecl) -> Seq<NodeKind>;

/// The kinds of the counted nodes that stand below a try statement, in the order in
/// which a traversal meets them.
pub uninterp spec fn kinds_in_try(node: TryStmt) -> Seq<NodeKind>;

/// The kinds of the counted nodes that stand below a throw statement, in the order in
/// which a traversal meets them.
pub uninterp spec fn kinds_in_throw(node: ThrowStmt) -> Seq<NodeKind>;

/// What a counter has noted after it met a node of the kind `kind` with the
/// counted nodes `below` below it: where it reads, the kind and then those
/// kinds behind what it had noted; else what it had noted.
pub open spec fn counted_at(
    seen: Seq<NodeKind>,
    operation: Operation,
    kind: NodeKind,
    below: Seq<NodeKind>,
) -> Seq<NodeKind> {
    if operation == Operation::Read {
        seen.push(kind) + below
    } else {
        seen
    }
}

/// Trusted: `VisitMutWith::visit_mut_children_with` on a function. The
/// traversal hands every counted node below it, once, to the method of the
/// counter for its kind, and changes nothing itself. So, by `record`, a
/// counter that reads notes their kinds in that order behind what it had
/// noted; any other counter notes nothing; and the node stays as it was.
#[verifier::external_body]
fn descend_function(node: &mut Function, counter: &mut NodeCounter)
    ensures
        *final(node) == *old(node),
        final(counter).operation == old(counter).operation,
        final(counter).seen@ == if old(counter).operation == Operation::Read {
            old(counter).seen@ + kinds_in_function(*old(node))
        } else {
            old(counter).seen@
        },
{
    node.visit_mut_children_with(counter)
}

/// Trusted: `VisitMutWith::visit_mut_children_with` on a class. The
/// traversal hands every counted node below it, once, to the method of the
/// counter for its kind, and changes nothing itself. So, by `record`, a
/// counter that reads notes their kinds in that order behind what it had
/// noted; any other counter notes nothing; and the node stays as it was.
#[verifier::external_body]
fn descend_class(node: &mut Class, counter: &mut NodeCounter)
    ensures
        *final(node) == *old(node),
        final(counter).operation == old(counter).operation,
        final(counter).seen@ == if old(counter).operation == Operation::Read {
            old(counter).seen@ + kinds_in_class(*old(node))
        } else {
            old(counter).seen@
        },
{
    node.visit_mut_children_with(counter)
}

/// Trusted: `VisitMutWith::visit_mut_children_with` on a debugger statement. Below it
/// stands its span and nothing else, so the traversal calls the counter for
/// nothing: the counter and the node stay as they were.
#[verifier::external_body]
fn descend_debugger(node: &mut DebuggerStmt, counter: &mut NodeCounter)
    ensures
        *final(node) == *old(node),
        final(counter).operation == old(counter).operation,
        final(counter).seen@ == old(counter).seen@,
{
    node.visit_mut_children_with(counter)
}

/// Trusted: `VisitMutWith::visit_mut_children_with` on an import declaration. The
/// traversal hands every counted node below it, once, to the method of the
/// counter for its kind, and changes nothing itself. So, by `record`, a
/// counter that reads notes their kinds in that order behind what it had
/// noted; any other counter notes nothing; and the node stays as it was.
#[verifier::external_body]
fn descend_import(node: &mut ImportDecl, counter: &mut NodeCounter)
    ensures
        *final(node) == *old(node),
        final(counter).operation == old(counter).operation,
        final(counter).seen@ == if old(counter).operation == Operation::Read {
            old(counter).seen@ + kinds_in_import(*old(node))
        } else {
            old(counter).seen@
        },
{
    node.visit_mut_children_with(counter)
}

/// Trusted: `VisitMutWith::visit_mut_children_with` on a try statement. The
/// traversal hands every counted node below it, once, to the method of the
/// counter for its kind, and changes nothing itself. So, by `record`, a
/// counter that reads notes their kinds in that order behind what it had
/// noted; any other counter notes nothing; and the node stays as it was.
#[verifier::external_body]
fn descend_try(node: &mut TryStmt, counter: &mut NodeCounter)
    ensures
        *final(node) == *old(node),
        final(counter).operation == old(counter).operation,
        final(counter).seen@ == if old(counter).operation == Operation::Read {
            old(counter).seen@ + kinds_in_try(*old(node))
        } else {
            old(counter).seen@
        },
{
    node.visit_mut_children_with(counter)
}

/// Trusted: `VisitMutWith::visit_mut_children_with` on a throw statement. The
/// traversal hands every counted node below it, once, to the method of the
/// counter for its kind, and changes nothing itself. So, by `record`, a
/// counter that reads notes their kinds in that order behind what it had
/// noted; any other counter notes nothing; and the node stays as it was.
#[verifier::external_body]
fn descend_throw(node: &mut ThrowStmt, counter: &mut NodeCounter)
    ensures
        *final(node) == *old(node),
        final(counter).operation == old(counter).operation,
        final(counter).seen@ == if old(counter).operation == Operation::Read {
            old(counter).seen@ + kinds_in_throw(*old(node))
        } else {
            old(counter).seen@
        },
{
    node.visit_mut_children_with(counter)
}

impl VisitMut for NodeCounter {
    /// Counts a function, then what is to be counted below it.
    fn visit_mut_function(&mut self, node: &mut Function)
        ensures
            *final(node) == *old(node),
            final(self).operation == old(self).operation,
            final(self).seen@ == counted_at(
                old(self).seen@,
                old(self).operation,
                NodeKind::Function,
                kinds_in_function(*old(node)),
            ),
    {
        self.record(NodeKind::Function);
        descend_function(node, self);
        proof {
            assert(self.seen@ =~= counted_at(
                old(self).seen@,
                old(self).operation,
                NodeKind::Function,
                kinds_in_function(*old(node)),
            ));
        }
    }

    /// Counts a class, then what is to be counted below it.
    fn visit_mut_class(&mut self, node: &mut Class)
        ensures
            *final(node) == *old(node),
            final(self).operation == old(self).operation,
            final(self).seen@ == counted_at(
                old(self).seen@,
                old(self).operation,
                NodeKind::Class,
                kinds_in_class(*old(node)),
            ),
    {
        self.record(NodeKind::Class);
        descend_class(node, self);
        proof {
            assert(self.seen@ =~= counted_at(
                old(self).seen@,
                old(self).operation,
                NodeKind::Class,
                kinds_in_class(*old(node)),
            ));
        }
    }

    /// Counts a debugger statement, then what is to be counted below it.
    fn visit_mut_debugger_stmt(&mut self, node: &mut DebuggerStmt)
        ensures
            *final(node) == *old(node),
            final(self).operation == old(self).operation,
            final(self).seen@ == counted_at(
                old(self).seen@,
                old(self).operation,
                NodeKind::Debugger,
                Seq::empty(),
            ),
    {
        self.record(NodeKind::Debugger);
        descend_debugger(node, self);
        proof {
            assert(self.seen@ =~= counted_at(
                old(self).seen@,
                old(self).operation,
                NodeKind::Debugger,
                Seq::empty(),
            ));
        }
    }

    /// Counts an import declaration, then what is to be counted below it.
    fn visit_mut_import_decl(&mut self, node: &mut ImportDecl)
        ensures
            *final(node) == *old(node),
            final(self).operation == old(self).operation,
            final(self).seen@ == counted_at(
                old(self).seen@,
                old(self).operation,
                NodeKind::Import,
                kinds_in_import(*old(node)),
            ),
    {
        self.record(NodeKind::Import);
        descend_import(node, self);
        proof {
            assert(self.seen@ =~= counted_at(
                old(self).seen@,
                old(self).operation,
                NodeKind::Import,
                kinds_in_import(*old(node)),
            ));
        }
    }

    /// Counts a try statement, then what is to be counted below it.
    fn visit_mut_try_stmt(&mut self, node: &mut TryStmt)
        ensures
            *final(node) == *old(node),
            final(self).operation == old(self).operation,
            final(self).seen@ == counted_at(
                old(self).seen@,
                old(self).operation,
                NodeKind::Try,
                kinds_in_try(*old(node)),
            ),
    {
        self.record(NodeKind::Try);
        descend_try(node, self);
        proof {
            assert(self.seen@ =~= counted_at(
                old(self).seen@,
                old(self).operation,
                NodeKind::Try,
                kinds_in_try(*old(node)),
            ));
        }
    }

    /// Counts a throw statement, then what is to be counted below it.
    fn visit_mut_throw_stmt(&mut self, node: &mut ThrowStmt)
        ensures
            *final(node) == *old(node),
            final(self).operation == old(self).operation,
            final(self).seen@ == counted_at(
                old(self).seen@,
                old(self).operation,
                NodeKind::Throw,
                kinds_in_throw(*old(node)),
            ),
    {
        self.record(NodeKind::Throw);
        descend_throw(node, self);
        proof {
            assert(self.seen@ =~= counted_at(
                old(self).seen@,
                old(self).operation,
                NodeKind::Throw,
                kinds_in_throw(*old(node)),
            ));
        }
    }
}

/// The kinds of the counted nodes of a module: one for each `Function`,
/// `Class`, `DebuggerStmt`, `ImportDecl`, `TryStmt` and `ThrowStmt` node that
/// the tree holds at any depth, in the order in which a traversal meets them.
/// A `Function` node stands behind a declared function, a function expression
/// and a method; an arrow function and a constructor have none.
pub uninterp spec fn counted_kinds(module: Module) -> Seq<NodeKind>;

/// What a counter has noted after a traversal of the module: what it had
/// noted, and where it reads, the kinds of the counted nodes of the module
/// behind that.
pub open spec fn kinds_walked(module: Module, seen: Seq<NodeKind>, operation: Operation) -> Seq<
    NodeKind,
> {
    if operation == Operation::Read {
        seen + counted_kinds(module)
    } else {
        seen
    }
}

/// Trusted: `VisitMutWith::visit_mut_with` on a module, with a counter. The
/// traversal hands every function, class, debugger statement, import
/// declaration, try statement and throw statement of the module, once, to the
/// method of the counter for its kind, and changes nothing itself. So, by
/// `record`, a counter that reads notes their kinds in that order behind what
/// it had noted, and any other counter notes nothing; the module stays as it
/// was.
#[verifier::external_body]
pub(crate) fn walk_for_kinds(module: &mut Module, counter: &mut NodeCounter)
    ensures
        *final(module) == *old(module),
        final(counter).operation == old(counter).operation,
        final(counter).seen@ == if old(counter).operation == Operation::Read {
            old(counter).seen@ + counted_kinds(*old(module))
        } else {
            old(counter).seen@
        },
{
    module.visit_mut_with(counter)
}

/// Whether `stats` holds, for each kind, how often it occurs in `seen`.
pub open spec fn is_tally(stats: ASTStatistics, seen: Seq<NodeKind>) -> bool {
    &&& stats.functions == count_of(seen, NodeKind::Function)
    &&& stats.classes == count_of(seen, NodeKind::Class)
    &&& stats.debuggers == count_of(seen, NodeKind::Debugger)
    &&& stats.imports == count_of(seen, NodeKind::Import)
    &&& stats.trys == count_of(seen, NodeKind::Try)
    &&& stats.throws == count_of(seen, NodeKind::Throw)
    &&& stats.operation == Operation::Read
}

/// Counts the functions, classes, debugger statements, import declarations,
/// try statements and throw statements of the source text, once each, however
/// deep they are nested: a function in a class counts as a function, and the
/// class as a class. Fails where the text does not parse.
pub fn statistics_from_ast(file_content: &str) -> (r: Result<ASTStatistics, String>)
    ensures
        match parsed_module(file_content@) {
            None => r is Err && r->Err_0@ == PARSE_CONTENT_ERROR@,
            Some((module, _, _)) => r is Ok && is_tally(r->Ok_0, counted_kinds(module)),
        },
{
    let mut parsed = match parse(file_content) {
        Ok(parsed) => parsed,
        Err(_) => {
            return Err(PARSE_CONTENT_ERROR.to_owned());
        },
    };
    let mut counter = NodeCounter::new();
    parsed.visit_kinds(&mut counter);
    proof {
        let made = parsed_module(file_content@)->Some_0;
        assert(counter.seen@ =~= counted_kinds(made.0));
    }
    Ok(counter.tally())
}

// Named object literals.

/// The pass that extends the object literal which a named variable is
/// initialised with.
pub struct ObjectExtender<'a> {
    pub target_var_name: &'a str,
    pub new_properties: Vec<&'a str>,
    pub operation: Operation,
    pub find: FindCondition,
}

/// Whether a declarator after extension is the one before it but for the
/// entries of its object literal.
pub open spec fn same_but_props(before: VarDeclarator, after: VarDeclarator) -> bool {
    &&& after.span == before.span
    &&& after.name == before.name
    &&& after.definite == before.definite
    &&& initial_object(before) is Some
    &&& initial_object(after) is Some
    &&& initial_object(after)->Some_0.span == initial_object(before)->Some_0.span
}

impl<'a> ObjectExtender<'a> {
    /// A pass that looks for the variable `target_var_name` and has met
    /// nothing yet.
    pub fn new(target_var_name: &'a str, new_properties: Vec<&'a str>) -> (r: Self)
        ensures
            r.target_var_name@ == target_var_name@,
            r.new_properties@ == new_properties@,
            r.operation == Operation::Edit,
            r.find@ == Finding::start(),
    {
        Self {
            target_var_name,
            new_properties,
            operation: Operation::Edit,
            find: FindCondition::start(),
        }
    }

    /// Whether the pass still looks for its target.
    pub open spec fn is_searching(self) -> bool {
        self.operation == Operation::Edit && self.find@.is_open()
    }

    /// Whether the pass stops at this declarator: it still looks for its
    /// target, and the declarator binds the target's name.
    pub open spec fn meets(self, d: VarDeclarator) -> bool {
        self.is_searching() && declares(d, self.target_var_name@)
    }

    /// What the pass does at the declarator it stops at. Where the declarator
    /// is initialised with an object literal, the target is found and the
    /// literal extended: a key that the literal holds, as a shorthand entry, as
    /// the key of a value or as a spread, is not added again. Any other
    /// declarator of that name, one without initialiser included, has the
    /// wrong shape and is left alone.
    pub open spec fn settles(
        before: Self,
        d_before: VarDeclarator,
        after: Self,
        d_after: VarDeclarator,
    ) -> bool {
        &&& after.target_var_name@ == before.target_var_name@
        &&& after.new_properties@ == before.new_properties@
        &&& after.operation == before.operation
        &&& match initial_object(d_before) {
            None => after.find@ == Finding::FoundError(Seq::empty()) && d_after == d_before,
            Some(object) => {
                &&& after.find@ == Finding::Found
                &&& same_but_props(d_before, d_after)
                &&& is_extension(
                    object.props@,
                    texts(before.new_properties@),
                    true,
                    initial_object(d_after)->Some_0.props@,
                )
            },
        }
    }

    /// Visits one declarator: see `settles`. A declarator that the pass does
    /// not stop at is left alone, and so is the pass.
    pub fn visit_declarator(&mut self, decl: &mut VarDeclarator)
        ensures
            if old(self).meets(*old(decl)) {
                Self::settles(*old(self), *old(decl), *final(self), *final(decl))
            } else {
                *final(self) == *old(self) && *final(decl) == *old(decl)
            },
    {
        if !matches!(self.operation, Operation::Edit) || !self.find.is_open() {
            return ;
        }
        if !declares_name(decl, self.target_var_name) {
            return ;
        }
        if !has_initial_object(decl) {
            self.find = FindCondition::FoundError(String::new());
            return ;
        }
        self.find = FindCondition::Found;
        match &mut decl.init {
            Some(init) => match &mut **init {
                Expr::Object(object) => {
                    extend_props(&mut object.props, &self.new_properties, true);
                },
                _ => {},
            },
            None => {},
        }
    }

    /// Whether the pass still looks for its target.
    pub fn searching(&self) -> (r: bool)
        ensures
            r == self.is_searching(),
    {
        matches!(self.operation, Operation::Edit) && self.find.is_open()
    }

    /// Visits the declarators of one declaration, in their order. The first
    /// one that binds the target's name decides the search; all others are
    /// left alone, and so are all where the pass looks for nothing or none
    /// binds the name.
    pub fn visit_declarators(&mut self, decls: &mut Vec<VarDeclarator>)
        ensures
            final(decls)@.len() == old(decls)@.len(),
            ({
                let k = first_declaring(old(decls)@, old(self).target_var_name@);
                if old(self).is_searching() && k < old(decls)@.len() {
                    &&& Self::settles(*old(self), old(decls)@[k], *final(self), final(decls)@[k])
                    &&& forall|i: int|
                        0 <= i < old(decls)@.len() && i != k ==> final(decls)@[i] == old(decls)@[i]
                } else {
                    *final(self) == *old(self) && *final(decls) == *old(decls)
                }
            }),
    {
        if !self.searching() {
            return ;
        }
        let k = find_declaring(decls, self.target_var_name);
        if k < decls.len() {
            proof {
                lemma_first_declaring(decls@, self.target_var_name@);
            }
            self.visit_declarator(&mut decls[k]);
        }
    }
}

/// A target of the wrong shape is reported and never passed over: where the
/// declarator that the pass stops at is not initialised with an object
/// literal, be it with a function, the search ends as an error of shape, and
/// the declarator stays as it was.
pub proof fn lemma_wrong_shape_is_reported(
    before: ObjectExtender,
    d_before: VarDeclarator,
    after: ObjectExtender,
    d_after: VarDeclarator,
)
    requires
        ObjectExtender::settles(before, d_before, after, d_after),
        initial_object(d_before) is None,
    ensures
        after.find@ is FoundError,
        !(after.find@ is Found),
        d_after == d_before,
{
}

/// Trusted: `VisitMutWith::visit_mut_children_with` on a variable declaration.
/// The traversal hands every variable declaration that stands below this one,
/// in the patterns and initialisers of its declarators, to
/// `visit_mut_var_decl`, one that holds another before the one it holds, and
/// changes nothing itself. So a pass that still looks for its target acts,
/// by `visit_declarators`, on the first declarator below that binds the
/// target's name and on no other; a pass that looks for nothing changes
/// nothing.
#[verifier::external_body]
fn descend_for_objects(var_decl: &mut VarDecl, visitor: &mut ObjectExtender)
    ensures
        match first_target_below(*old(var_decl), old(visitor).target_var_name@) {
            Some(d) => if old(visitor).is_searching() {
                exists|d2: VarDeclarator|
                    {
                        &&& #[trigger] ObjectExtender::settles(*old(visitor), d, *final(visitor), d2)
                        &&& *final(var_decl) == with_target_below(
                            *old(var_decl),
                            old(visitor).target_var_name@,
                            d2,
                        )
                    }
            } else {
                *final(visitor) == *old(visitor) && *final(var_decl) == *old(var_decl)
            },
            None => *final(visitor) == *old(visitor) && *final(var_decl) == *old(var_decl),
        },
{
    var_decl.visit_mut_children_with(visitor)
}

/// What a pass does at one variable declaration and below it. A pass that
/// looks for nothing changes nothing. One that looks for its target stops at
/// the first declarator of the declaration that binds the target's name, and
/// does there what `settles` says; where none of them binds it, it stops in
/// the same way at the first declarator that binds it below the declaration,
/// in a pattern or an initialiser.
/// Nothing else changes.
pub open spec fn objects_visited(
    before: ObjectExtender,
    decl_before: VarDecl,
    after: ObjectExtender,
    decl_after: VarDecl,
) -> bool {
    let k = first_declaring(decl_before.decls@, before.target_var_name@);
    if !before.is_searching() {
        after == before && decl_after == decl_before
    } else if k < decl_before.decls@.len() {
        &&& ObjectExtender::settles(before, decl_before.decls@[k], after, decl_after.decls@[k])
        &&& same_but_declarator(decl_before, k, decl_after)
    } else {
        match first_target_below(decl_before, before.target_var_name@) {
            Some(d) => exists|d2: VarDeclarator|
                {
                    &&& #[trigger] ObjectExtender::settles(before, d, after, d2)
                    &&& decl_after == with_target_below(decl_before, before.target_var_name@, d2)
                },
            None => after == before && decl_after == decl_before,
        }
    }
}

impl VisitMut for ObjectExtender<'_> {
    /// Visits one variable declaration, then what stands below it: see
    /// `objects_visited`.
    fn visit_mut_var_decl(&mut self, var_decl: &mut VarDecl)
        ensures
            objects_visited(*old(self), *old(var_decl), *final(self), *final(var_decl)),
    {
        proof {
            lemma_first_declaring(var_decl.decls@, self.target_var_name@);
        }
        self.visit_declarators(&mut var_decl.decls);
        descend_for_objects(var_decl, self)
    }
}

/// Whether a traversal of `module` by the pass `before` leaves the module
/// `walked` and the pass `after`. A pass that still looks for its target stops
/// at the first declarator of the module that binds the target's name, and
/// does there what `settles` says. Nothing else changes; nothing changes at
/// all where the pass looks for nothing, no declarator binds the name, or the
/// pass leaves the declarator as it was.
pub open spec fn objects_passed(
    module: Module,
    before: ObjectExtender,
    walked: Module,
    after: ObjectExtender,
) -> bool {
    match first_target(module, before.target_var_name@) {
        Some(d) => if before.is_searching() {
            exists|d2: VarDeclarator|
                {
                    &&& #[trigger] ObjectExtender::settles(before, d, after, d2)
                    &&& walked == with_target(module, before.target_var_name@, d2)
                    &&& d2 == d ==> walked == module
                    &&& first_target(walked, before.target_var_name@) == Some(d2)
                }
        } else {
            after == before && walked == module
        },
        None => after == before && walked == module,
    }
}

/// Trusted: `VisitMutWith::visit_mut_with` on a module, with an
/// `ObjectExtender`. The traversal hands every variable declaration of the
/// module to `visit_mut_var_decl`, one that holds another before the one it
/// holds, and changes nothing itself. So the pass meets the declarators in
/// that order, and by `visit_declarators` acts on the first that binds its
/// target's name and on no other; where it leaves that declarator as it was,
/// the module is as it was. What it leaves of the declarator binds the name as
/// before, so it is still the first that does.
#[verifier::external_body]
pub(crate) fn walk_for_objects(module: &mut Module, visitor: &mut ObjectExtender)
    ensures
        match first_target(*old(module), old(visitor).target_var_name@) {
            Some(d) => if old(visitor).is_searching() {
                exists|d2: VarDeclarator|
                    {
                        &&& #[trigger] ObjectExtender::settles(*old(visitor), d, *final(visitor), d2)
                        &&& *final(module) == with_target(
                            *old(module),
                            old(visitor).target_var_name@,
                            d2,
                        )
                        &&& d2 == d ==> *final(module) == *old(module)
                        &&& first_target(*final(module), old(visitor).target_var_name@) == Some(d2)
                    }
            } else {
                *final(visitor) == *old(visitor) && *final(module) == *old(module)
            },
            None => *final(visitor) == *old(visitor) && *final(module) == *old(module),
        },
{
    module.visit_mut_with(visitor)
}

/// Whether `r` is what `extend_var_object_property_by_names_to_ast` returns:
/// an error where the text does not parse, where no declarator binds the name
/// and where the first that does is not initialised with an object literal;
/// else what is written for the module with that declarator's literal
/// extended.
pub open spec fn is_extended_object_text(
    file_content: Seq<char>,
    var_name: Seq<char>,
    names: Seq<Seq<char>>,
    r: Result<Seq<char>, Seq<char>>,
) -> bool {
    match parsed_module(file_content) {
        None => r == Err::<Seq<char>, Seq<char>>(PARSE_CONTENT_ERROR@),
        Some((module, comments, cm)) => match first_target(module, var_name) {
            None => r == Err::<Seq<char>, Seq<char>>(NOT_FOUND_MESSAGE@),
            Some(d) => match initial_object(d) {
                None => r == Err::<Seq<char>, Seq<char>>(FOUND_ERROR_MESSAGE@),
                Some(object) => exists|d2: VarDeclarator|
                    {
                        &&& #[trigger] same_but_props(d, d2)
                        &&& is_extension(
                            object.props@,
                            names,
                            true,
                            initial_object(d2)->Some_0.props@,
                        )
                        &&& r == generated(
                            with_target(module, var_name, d2),
                            with_target(module, var_name, d2).body@,
                            comments,
                            cm,
                        )
                    },
            },
        },
    }
}

/// Extends the object literal that the variable `var_name` is initialised
/// with by the entries that `object_names` asks for and the literal lacks, and
/// returns the new text. The first declaration of that name decides, wherever
/// it stands.
///
/// Fails where the text does not parse, where no declaration binds the name,
/// and where the first one that does is not initialised with an object
/// literal.
pub fn extend_var_object_property_by_names_to_ast(
    file_content: &str,
    var_name: &str,
    object_names: Vec<&str>,
) -> (r: Result<String, String>)
    ensures
        is_extended_object_text(
            file_content@,
            var_name@,
            texts(object_names@),
            result_text(r),
        ),
{
    let mut parsed = match parse(file_content) {
        Ok(parsed) => parsed,
        Err(_) => {
            return Err(PARSE_CONTENT_ERROR.to_owned());
        },
    };
    let mut object_extender = ObjectExtender::new(var_name, object_names);
    let ghost before = object_extender;
    parsed.visit_objects(&mut object_extender);
    let ghost module = parsed.tree();
    let written = code_gen_from_ast_module(parsed);
    proof {
        let made = parsed_module(file_content@)->Some_0;
        match first_target(made.0, var_name@) {
            Some(d) => {
                let d2 = choose|d2: VarDeclarator|
                    {
                        &&& #[trigger] ObjectExtender::settles(before, d, object_extender, d2)
                        &&& module == with_target(made.0, var_name@, d2)
                    };
                if initial_object(d) is Some {
                    assert(same_but_props(d, d2));
                }
            },
            None => {},
        }
    }
    outcome_of(&object_extender.find, written)
}

/// Whether an item is a `let` declaration at the top of the module that binds
/// the plain identifier `name`.
pub open spec fn binds_with_let(item: ModuleItem, name: Seq<char>) -> bool {
    match item {
        ModuleItem::Stmt(Stmt::Decl(Decl::Var(var_decl))) => {
            &&& var_decl.kind is Let
            &&& exists|i: int| 0 <= i < var_decl.decls@.len() && declares(#[trigger] var_decl.decls@[i], name)
        },
        _ => false,
    }
}

/// Whether some item of `body` is a `let` declaration that binds `name`.
pub open spec fn has_let_binding(body: Seq<ModuleItem>, name: Seq<char>) -> bool {
    exists|i: int| 0 <= i < body.len() && binds_with_let(#[trigger] body[i], name)
}

/// Whether one of the declarators binds the plain identifier `name`.
pub fn binds_name(decls: &Vec<VarDeclarator>, name: &str) -> (r: bool)
    ensures
        r == exists|i: int| 0 <= i < decls@.len() && declares(#[trigger] decls@[i], name@),
{
    let mut i: usize = 0;
    while i < decls.len()
        invariant
            i <= decls@.len(),
            forall|j: int| 0 <= j < i ==> !declares(#[trigger] decls@[j], name@),
        decreases decls@.len() - i,
    {
        if declares_name(&decls[i], name) {
            return true;
        }
        i = i + 1;
    }
    false
}

/// Whether an item is a `let` declaration that binds `name`.
pub fn item_binds_with_let(item: &ModuleItem, name: &str) -> (r: bool)
    ensures
        r == binds_with_let(*item, name@),
{
    match item {
        ModuleItem::Stmt(Stmt::Decl(Decl::Var(var_decl))) => {
            match var_decl.kind {
                VarDeclKind::Let => binds_name(&var_decl.decls, name),
                _ => false,
            }
        },
        _ => false,
    }
}

/// Whether the module declares `variable_name` with `let` at its top level.
pub fn contains_let_binding(body: &Vec<ModuleItem>, variable_name: &str) -> (r: bool)
    ensures
        r == has_let_binding(body@, variable_name@),
{
    let mut i: usize = 0;
    while i < body.len()
        invariant
            i <= body@.len(),
            forall|j: int| 0 <= j < i ==> !binds_with_let(#[trigger] body@[j], variable_name@),
        decreases body@.len() - i,
    {
        if item_binds_with_let(&body[i], variable_name) {
            return true;
        }
        i = i + 1;
    }
    false
}

/// Says whether the source text declares `variable_name` with `let` at its
/// top level: `Ok(true)` where it does, `Err(false)` where it does not or the
/// text does not parse.
pub fn contains_variable_from_ast(file_content: &str, variable_name: &str) -> (r: Result<
    bool,
    bool,
>)
    ensures
        r == match parsed_module(file_content@) {
            Some((module, _, _)) => if has_let_binding(module.body@, variable_name@) {
                Ok::<bool, bool>(true)
            } else {
                Err::<bool, bool>(false)
            },
            None => Err::<bool, bool>(false),
        },
{
    let parsed = match parse(file_content) {
        Ok(parsed) => parsed,
        Err(_) => {
            return Err(false);
        },
    };
    if contains_let_binding(&parsed.module().body, variable_name) {
        Ok(true)
    } else {
        Err(false)
    }
}

} // verus!
