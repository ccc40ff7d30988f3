//! Operations on text that the parsers share.
//!
//! Each executable function here hands its work to one function of the standard
//! library and states, over the characters of its arguments, what that function
//! is documented to return.

use vstd::prelude::*;

verus! {

/// The characters of each of the given strings.
pub open spec fn strings(list: Seq<String>) -> Seq<Seq<char>> {
    Seq::new(list.len(), |i: int| list[i]@)
}

/// `text` with every occurrence of `from` replaced by `to`. Occurrences are
/// found from the left and do not overlap.
pub open spec fn replaced(text: Seq<char>, from: Seq<char>, to: Seq<char>) -> Seq<char>
    recommends
        from.len() > 0,
    decreases text.len(),
{
    if from.len() == 0 || text.len() < from.len() {
        text
    } else if text.take(from.len() as int) == from {
        to + replaced(text.skip(from.len() as int), from, to)
    } else {
        seq![text[0]] + replaced(text.skip(1), from, to)
    }
}

/// Trusted: `str::replace` with a string pattern. The result is the text with
/// every match of the pattern, found from the left and not overlapping,
/// replaced.
#[verifier::external_body]
pub(crate) fn replace_all(text: &str, from: &str, to: &str) -> (r: String)
    requires
        from@.len() > 0,
    ensures
        r@ == replaced(text@, from@, to@),
{
    text.replace(from, to)
}

/// Trusted: `==` on `str`. Two strings are equal exactly when they hold the
/// same characters.
#[verifier::external_body]
pub(crate) fn same_text(a: &str, b: &str) -> (r: bool)
    ensures
        r == (a@ == b@),
{
    a == b
}

/// Whether a character has Unicode's `White_Space` property, which is what
/// `char::is_whitespace` tests: the controls from tab to carriage return, the
/// space, next line, the no-break space, the ogham space mark, the spaces
/// from en quad to hair space, the line and the paragraph separator, the
/// narrow no-break space, the medium mathematical space and the ideographic
/// space.
pub open spec fn is_white_space(c: char) -> bool {
    let code = c as int;
    ||| 0x0009 <= code <= 0x000D
    ||| code == 0x0020
    ||| code == 0x0085
    ||| code == 0x00A0
    ||| code == 0x1680
    ||| 0x2000 <= code <= 0x200A
    ||| code == 0x2028
    ||| code == 0x2029
    ||| code == 0x202F
    ||| code == 0x205F
    ||| code == 0x3000
}

/// `text` without the white space at its start.
pub open spec fn trimmed_start(text: Seq<char>) -> Seq<char>
    decreases text.len(),
{
    if text.len() > 0 && is_white_space(text[0]) {
        trimmed_start(text.skip(1))
    } else {
        text
    }
}

/// `text` without the white space at its end.
pub open spec fn trimmed_end(text: Seq<char>) -> Seq<char>
    decreases text.len(),
{
    if text.len() > 0 && is_white_space(text.last()) {
        trimmed_end(text.drop_last())
    } else {
        text
    }
}

/// `text` without the white space at its start and at its end.
pub open spec fn trimmed(text: Seq<char>) -> Seq<char> {
    trimmed_end(trimmed_start(text))
}

/// Trusted: `str::trim`. The result is the text without its leading and
/// trailing white space, where white space is what `White_Space` says.
#[verifier::external_body]
pub(crate) fn trim(text: &str) -> (r: &str)
    ensures
        r@ == trimmed(text@),
{
    text.trim()
}

/// Whether two texts are equal but for white space at their ends.
pub fn same_when_trimmed(a: &str, b: &str) -> (r: bool)
    ensures
        r == (trimmed(a@) == trimmed(b@)),
{
    same_text(trim(a), trim(b))
}

/// Whether `part` occurs in `text` as a run of neighbouring characters.
pub open spec fn occurs_in(part: Seq<char>, text: Seq<char>) -> bool {
    exists|i: int|
        0 <= i <= text.len() - part.len() && #[trigger] text.subrange(i, i + part.len()) == part
}

/// Whether `text` begins with `prefix`.
pub open spec fn begins_with(text: Seq<char>, prefix: Seq<char>) -> bool {
    prefix.len() <= text.len() && text.take(prefix.len() as int) == prefix
}

/// `text` without every copy of `prefix` that it begins with.
pub open spec fn without_prefixes(text: Seq<char>, prefix: Seq<char>) -> Seq<char>
    decreases text.len(),
{
    if prefix.len() > 0 && begins_with(text, prefix) {
        without_prefixes(text.skip(prefix.len() as int), prefix)
    } else {
        text
    }
}

/// `text` without every `c` that it begins with.
pub open spec fn without_leading(text: Seq<char>, c: char) -> Seq<char>
    decreases text.len(),
{
    if text.len() > 0 && text[0] == c {
        without_leading(text.skip(1), c)
    } else {
        text
    }
}

/// `text` without every `c` that it ends with.
pub open spec fn without_trailing(text: Seq<char>, c: char) -> Seq<char>
    decreases text.len(),
{
    if text.len() > 0 && text.last() == c {
        without_trailing(text.drop_last(), c)
    } else {
        text
    }
}

/// The index of the first line feed in `text`, or its length where it holds
/// none.
pub open spec fn first_line_feed(text: Seq<char>) -> int
    decreases text.len(),
{
    if text.len() == 0 || text[0] == '\n' {
        0
    } else {
        1 + first_line_feed(text.skip(1))
    }
}

/// A line without the carriage return that it ends with, if it ends with one.
pub open spec fn without_carriage_return(line: Seq<char>) -> Seq<char> {
    if line.len() > 0 && line.last() == '\r' {
        line.drop_last()
    } else {
        line
    }
}

/// The lines of a text. A line ends with a line feed, or with a carriage
/// return and a line feed; neither belongs to the line. What stands behind the
/// last line feed is a line too, unless it is empty.
pub open spec fn lines_of(text: Seq<char>) -> Seq<Seq<char>>
    decreases text.len(),
{
    if text.len() == 0 {
        Seq::empty()
    } else {
        let end = first_line_feed(text);
        if 0 <= end < text.len() {
            seq![without_carriage_return(text.take(end))] + lines_of(text.skip(end + 1))
        } else {
            seq![text]
        }
    }
}

/// What is left of a text without white space at its start is the end of the
/// text.
pub proof fn lemma_trimmed_start_is_end(text: Seq<char>)
    ensures
        trimmed_start(text).len() <= text.len(),
        trimmed_start(text) == text.skip(text.len() - trimmed_start(text).len()),
    decreases text.len(),
{
    if text.len() > 0 && is_white_space(text[0]) {
        lemma_trimmed_start_is_end(text.skip(1));
        let rest = trimmed_start(text.skip(1));
        assert(text.skip(1).skip(text.skip(1).len() - rest.len()) =~= text.skip(
            text.len() - rest.len(),
        ));
    } else {
        assert(text.skip(0) =~= text);
    }
}

/// What is left of a text without white space at its end is the start of the
/// text.
pub proof fn lemma_trimmed_end_is_start(text: Seq<char>)
    ensures
        trimmed_end(text).len() <= text.len(),
        trimmed_end(text) == text.take(trimmed_end(text).len() as int),
    decreases text.len(),
{
    if text.len() > 0 && is_white_space(text.last()) {
        lemma_trimmed_end_is_start(text.drop_last());
        let rest = trimmed_end(text.drop_last());
        assert(text.drop_last().take(rest.len() as int) =~= text.take(rest.len() as int));
    } else {
        assert(text.take(text.len() as int) =~= text);
    }
}

/// A text without the white space at its ends occurs in the text, and so in
/// every text that ends with it.
pub proof fn lemma_trimmed_occurs(front: Seq<char>, text: Seq<char>)
    ensures
        occurs_in(trimmed(text), front + text),
{
    lemma_trimmed_start_is_end(text);
    let inner = trimmed_start(text);
    lemma_trimmed_end_is_start(inner);
    let core = trimmed(text);
    let from = front.len() + (text.len() - inner.len());
    assert((front + text).subrange(from, from + core.len()) =~= core);
}

/// What occurs in a text occurs in the text with more behind it.
pub proof fn lemma_occurs_in_longer(part: Seq<char>, text: Seq<char>, more: Seq<char>)
    requires
        occurs_in(part, text),
    ensures
        occurs_in(part, text + more),
{
    let i = choose|i: int|
        0 <= i <= text.len() - part.len() && #[trigger] text.subrange(i, i + part.len()) == part;
    assert((text + more).subrange(i, i + part.len()) =~= part);
}

/// Trusted: `str::contains` with a string pattern. The result is whether the
/// pattern occurs in the text.
#[verifier::external_body]
pub(crate) fn contains_text(text: &str, part: &str) -> (r: bool)
    ensures
        r == occurs_in(part@, text@),
{
    text.contains(part)
}

/// Trusted: `str::starts_with` with a string pattern. The result is whether
/// the text begins with the pattern.
#[verifier::external_body]
pub(crate) fn starts_with_text(text: &str, prefix: &str) -> (r: bool)
    ensures
        r == begins_with(text@, prefix@),
{
    text.starts_with(prefix)
}

/// Trusted: `str::trim_start_matches` with a string pattern. The result is
/// the text with every leading copy of the pattern removed.
#[verifier::external_body]
pub(crate) fn strip_prefixes<'a>(text: &'a str, prefix: &str) -> (r: &'a str)
    requires
        prefix@.len() > 0,
    ensures
        r@ == without_prefixes(text@, prefix@),
{
    text.trim_start_matches(prefix)
}

/// Trusted: `str::trim_end_matches` with a character. The result is the text
/// with every trailing copy of the character removed.
#[verifier::external_body]
pub(crate) fn strip_trailing(text: &str, c: char) -> (r: &str)
    ensures
        r@ == without_trailing(text@, c),
{
    text.trim_end_matches(c)
}

/// Trusted: `str::trim_matches` with a character. The result is the text with
/// every leading and every trailing copy of the character removed.
#[verifier::external_body]
pub(crate) fn strip_both(text: &str, c: char) -> (r: &str)
    ensures
        r@ == without_trailing(without_leading(text@, c), c),
{
    text.trim_matches(c)
}

/// Trusted: `str::lines`, each line copied. The result holds the lines of the
/// text in their order.
#[verifier::external_body]
pub(crate) fn text_lines(text: &str) -> (r: Vec<String>)
    ensures
        strings(r@) == lines_of(text@),
{
    text.lines().map(String::from).collect()
}

} // verus!
