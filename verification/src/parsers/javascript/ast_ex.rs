//! The operations as a host calls them: with owned strings, with names put in
//! order, and with the statistics as a plain record.

use crate::parsers::javascript::ast::{
    count_of, counted_kinds, extend_var_object_property_by_names_to_ast,
    is_extended_object_text, statistics_from_ast, ASTStatistics, NodeKind, Operation,
};
use crate::parsers::javascript::entries::texts;
use crate::parsers::javascript::helpers::{parsed_module, result_text, PARSE_CONTENT_ERROR};
use crate::parsers::javascript::phoenix::{
    extend_hook_object_to_ast, is_hooks_text, remove_objects_of_hooks_from_ast,
};
use crate::text::{same_text, strings};
use vstd::prelude::*;

verus! {

/// The six counts of a module, without the pass that made them.
#[derive(Debug)]
pub struct ASTStatisticsResult {
    pub functions: usize,
    pub classes: usize,
    pub debuggers: usize,
    pub imports: usize,
    pub trys: usize,
    pub throws: usize,
}

/// What a request for statistics answers: the counts, or why there are none.
#[derive(Debug)]
pub enum ASTStatisticsResultType {
    Statistics(ASTStatisticsResult),
    Error(String),
}

/// Whether the record holds the counts of the statistics.
pub open spec fn same_counts(record: ASTStatisticsResult, stats: ASTStatistics) -> bool {
    &&& record.functions == stats.functions
    &&& record.classes == stats.classes
    &&& record.debuggers == stats.debuggers
    &&& record.imports == stats.imports
    &&& record.trys == stats.trys
    &&& record.throws == stats.throws
}

/// Whether the record holds, for each kind, how often it occurs in `seen`.
pub open spec fn is_record_of(record: ASTStatisticsResult, seen: Seq<NodeKind>) -> bool {
    &&& record.functions == count_of(seen, NodeKind::Function)
    &&& record.classes == count_of(seen, NodeKind::Class)
    &&& record.debuggers == count_of(seen, NodeKind::Debugger)
    &&& record.imports == count_of(seen, NodeKind::Import)
    &&& record.trys == count_of(seen, NodeKind::Try)
    &&& record.throws == count_of(seen, NodeKind::Throw)
}

/// The counts of the statistics as a plain record.
pub fn statistics_record(stats: &ASTStatistics) -> (r: ASTStatisticsResult)
    ensures
        same_counts(r, *stats),
{
    ASTStatisticsResult {
        imports: stats.imports,
        classes: stats.classes,
        debuggers: stats.debuggers,
        functions: stats.functions,
        throws: stats.throws,
        trys: stats.trys,
    }
}

/// The statistics of a source text as a host gets them: the counts, or the
/// message of the failure.
pub fn statistics_answer(file_content: &str) -> (r: ASTStatisticsResultType)
    ensures
        match parsed_module(file_content@) {
            None => r is Error && r->Error_0@ == PARSE_CONTENT_ERROR@,
            Some((module, _, _)) => r is Statistics && is_record_of(
                r->Statistics_0,
                counted_kinds(module),
            ),
        },
{
    match statistics_from_ast(file_content) {
        Ok(stats) => ASTStatisticsResultType::Statistics(statistics_record(&stats)),
        Err(message) => ASTStatisticsResultType::Error(message),
    }
}

// Names in order.

/// Whether `a` comes before `b` in the order of strings: at the first place
/// where they differ `a` has the smaller character, or `a` ends there and `b`
/// does not.
pub open spec fn text_less(a: Seq<char>, b: Seq<char>) -> bool
    decreases a.len(),
{
    if b.len() == 0 {
        false
    } else if a.len() == 0 {
        true
    } else if a[0] != b[0] {
        (a[0] as int) < (b[0] as int)
    } else {
        text_less(a.skip(1), b.skip(1))
    }
}

/// Whether each text comes before the next.
pub open spec fn is_increasing(list: Seq<Seq<char>>) -> bool {
    forall|i: int, j: int| 0 <= i < j < list.len() ==> text_less(list[i], list[j])
}

/// Trusted: `<` on `str`. Strings are ordered by their characters from the
/// left, a character by its code point, and a string comes before every
/// longer string that begins with it.
#[verifier::external_body]
fn comes_before(a: &str, b: &str) -> (r: bool)
    ensures
        r == text_less(a@, b@),
{
    a < b
}

/// No text comes before itself.
pub proof fn lemma_less_is_strict(a: Seq<char>)
    ensures
        !text_less(a, a),
    decreases a.len(),
{
    if a.len() > 0 {
        lemma_less_is_strict(a.skip(1));
    }
}

/// The order passes on: what comes before a text comes before all that the
/// text comes before.
pub proof fn lemma_less_passes_on(a: Seq<char>, b: Seq<char>, c: Seq<char>)
    requires
        text_less(a, b),
        text_less(b, c),
    ensures
        text_less(a, c),
    decreases a.len(),
{
    if a.len() > 0 && a[0] == b[0] && b[0] == c[0] {
        lemma_less_passes_on(a.skip(1), b.skip(1), c.skip(1));
    }
}

/// Of two different texts one comes before the other.
pub proof fn lemma_less_or_greater(a: Seq<char>, b: Seq<char>)
    requires
        a != b,
    ensures
        text_less(a, b) || text_less(b, a),
    decreases a.len(),
{
    if a.len() > 0 && b.len() > 0 {
        if a[0] == b[0] {
            if a.skip(1) == b.skip(1) {
                assert(a =~= seq![a[0]] + a.skip(1));
                assert(b =~= seq![b[0]] + b.skip(1));
            }
            lemma_less_or_greater(a.skip(1), b.skip(1));
        }
    } else if a.len() == 0 && b.len() == 0 {
        assert(a =~= b);
    }
}

/// A list with one more text holds what the list held, and that text.
pub proof fn lemma_holds_after_insert(list: Seq<Seq<char>>, at: int, text: Seq<char>, t: Seq<char>)
    requires
        0 <= at <= list.len(),
    ensures
        list.insert(at, text).contains(t) <==> (list.contains(t) || t == text),
{
    let grown = list.insert(at, text);
    if grown.contains(t) {
        let h = choose|h: int| 0 <= h < grown.len() && grown[h] == t;
        if h < at {
            assert(list[h] == t);
        } else if h > at {
            assert(list[h - 1] == t);
        }
    }
    if list.contains(t) {
        let h = choose|h: int| 0 <= h < list.len() && list[h] == t;
        if h < at {
            assert(grown[h] == t);
        } else {
            assert(grown[h + 1] == t);
        }
    }
    if t == text {
        assert(grown[at] == t);
    }
}

/// Whether two strings hold the same characters.
fn same_string(a: &String, b: &String) -> (r: bool)
    ensures
        r == (a@ == b@),
{
    same_text(a.as_str(), b.as_str())
}

/// The names in the order of strings, each once.
pub fn unique_sorted(names: Vec<String>) -> (r: Vec<String>)
    ensures
        is_increasing(strings(r@)),
        forall|t: Seq<char>| strings(r@).contains(t) <==> strings(names@).contains(t),
{
    let ghost all = strings(names@);
    let mut rest = names;
    let mut sorted: Vec<String> = Vec::new();
    let ghost mut done: int = 0;
    while rest.len() > 0
        invariant
            0 <= done <= all.len(),
            strings(rest@) == all.skip(done),
            is_increasing(strings(sorted@)),
            forall|t: Seq<char>| strings(sorted@).contains(t) <==> all.take(done).contains(t),
        decreases rest@.len(),
    {
        let ghost old_rest = rest@;
        proof {
            assert(strings(old_rest).len() == old_rest.len());
        }
        let name = rest.remove(0);
        proof {
            assert(strings(old_rest)[0] == old_rest[0]@);
            assert(all.skip(done)[0] == all[done]);
            assert(all[done] == name@);
            assert forall|i: int| 0 <= i < rest@.len() implies strings(rest@)[i] == #[trigger] all.skip(
                done + 1,
            )[i] by {
                assert(rest@[i] == old_rest[i + 1]);
                assert(strings(old_rest)[i + 1] == all.skip(done)[i + 1]);
            }
            assert(strings(rest@) =~= all.skip(done + 1));
            assert(all.take(done + 1) =~= all.take(done).push(name@));
        }
        let ghost held = strings(sorted@);
        let mut at: usize = 0;
        while at < sorted.len() && comes_before(sorted[at].as_str(), name.as_str())
            invariant
                at <= sorted@.len(),
                held == strings(sorted@),
                forall|i: int| 0 <= i < at ==> text_less(#[trigger] held[i], name@),
            decreases sorted@.len() - at,
        {
            assert(held[at as int] == sorted@[at as int]@);
            at = at + 1;
        }
        let known = at < sorted.len() && same_string(&sorted[at], &name);
        proof {
            lemma_holds_after_insert(all.take(done), done, name@, name@);
            assert(all.take(done).insert(done, name@) =~= all.take(done + 1));
            assert forall|t: Seq<char>| all.take(done + 1).contains(t) <==> (held.contains(t) || t
                == name@) by {
                lemma_holds_after_insert(all.take(done), done, name@, t);
            }
        }
        if known {
            proof {
                assert(held[at as int] == name@);
            }
        } else {
            sorted.insert(at, name);
            proof {
                let now = strings(sorted@);
                let text = now[at as int];
                assert(text == name@);
                assert(now =~= held.insert(at as int, text));
                if at < held.len() {
                    assert(held[at as int] == sorted@[at + 1]@);
                    lemma_less_or_greater(held[at as int], text);
                }
                assert forall|i: int, j: int| 0 <= i < j < now.len() implies text_less(
                    now[i],
                    now[j],
                ) by {
                    if j < at {
                        assert(now[i] == held[i] && now[j] == held[j]);
                    } else if j == at {
                        assert(now[i] == held[i]);
                    } else if i == at {
                        assert(now[j] == held[j - 1]);
                        if j - 1 > at {
                            lemma_less_passes_on(text, held[at as int], held[j - 1]);
                        }
                    } else if i < at {
                        assert(now[i] == held[i] && now[j] == held[j - 1]);
                    } else {
                        assert(now[i] == held[i - 1] && now[j] == held[j - 1]);
                    }
                }
                assert forall|t: Seq<char>| now.contains(t) <==> all.take(done + 1).contains(t) by {
                    lemma_holds_after_insert(held, at as int, text, t);
                }
            }
        }
        proof {
            done = done + 1;
        }
    }
    proof {
        assert(all.take(done) =~= all);
    }
    sorted
}

/// The strings as borrowed texts.
pub fn as_texts(names: &Vec<String>) -> (r: Vec<&str>)
    ensures
        texts(r@) == strings(names@),
{
    let mut borrowed: Vec<&str> = Vec::new();
    let mut i: usize = 0;
    while i < names.len()
        invariant
            i <= names@.len(),
            borrowed@.len() == i,
            texts(borrowed@) == strings(names@).take(i as int),
        decreases names@.len() - i,
    {
        let ghost earlier = borrowed@;
        borrowed.push(names[i].as_str());
        proof {
            assert forall|j: int| 0 <= j < borrowed@.len() implies texts(borrowed@)[j]
                == #[trigger] strings(names@).take(i + 1)[j] by {
                if j < i {
                    assert(borrowed@[j] == earlier[j]);
                    assert(texts(earlier)[j] == strings(names@).take(i as int)[j]);
                }
            }
            assert(texts(borrowed@) =~= strings(names@).take(i + 1));
        }
        i = i + 1;
    }
    proof {
        assert(strings(names@).take(i as int) =~= strings(names@));
    }
    borrowed
}

/// Extends the hooks of the socket by the given names, put in order and each
/// taken once.
pub fn extend_hooks_by_names(file_content: &str, names: Vec<String>) -> (r: Result<String, String>)
    ensures
        exists|ordered: Seq<Seq<char>>|
            {
                &&& is_increasing(ordered)
                &&& forall|t: Seq<char>| ordered.contains(t) <==> strings(names@).contains(t)
                &&& is_hooks_text(file_content@, ordered, Operation::Edit, result_text(r))
            },
{
    let ordered = unique_sorted(names);
    extend_hook_object_to_ast(file_content, as_texts(&ordered))
}

/// Removes the given names from the hooks of the socket.
pub fn remove_hooks_by_names(file_content: &str, object_names: Vec<String>) -> (r: Result<
    String,
    String,
>)
    ensures
        is_hooks_text(
            file_content@,
            strings(object_names@),
            Operation::Delete,
            result_text(r),
        ),
{
    remove_objects_of_hooks_from_ast(file_content, as_texts(&object_names))
}

/// Extends the object literal of the variable `var_name` by the given names,
/// put in order and each taken once.
pub fn extend_var_object_by_names(
    file_content: &str,
    var_name: &str,
    object_names: Vec<String>,
) -> (r: Result<String, String>)
    ensures
        exists|ordered: Seq<Seq<char>>|
            {
                &&& is_increasing(ordered)
                &&& forall|t: Seq<char>| ordered.contains(t) <==> strings(object_names@).contains(t)
                &&& is_extended_object_text(file_content@, var_name@, ordered, result_text(r))
            },
{
    let ordered = unique_sorted(object_names);
    extend_var_object_property_by_names_to_ast(file_content, var_name, as_texts(&ordered))
}

} // verus!
