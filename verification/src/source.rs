//! What both dialects share: positions in a source text, interned strings
//! and the comments that a parser finds beside a tree.
//!
//! Verified code never looks inside an interned string: it compares them and
//! makes new ones through the functions below, and contracts speak of an
//! interned string by the characters it holds.

use crate::text::strings;
use swc_atoms::Atom;
use swc_common::comments::{Comments, SingleThreadedComments};
use swc_common::{BytePos, Span};
use vstd::prelude::*;

verus! {

// Positions, with their fields.
#[verifier::external_type_specification]
pub struct ExSpan(Span);

#[verifier::external_type_specification]
pub struct ExBytePos(BytePos);

// Values that are only carried through.
#[verifier::external_type_specification]
#[verifier::external_body]
pub struct ExSyntaxContext(swc_common::SyntaxContext);

#[verifier::external_type_specification]
#[verifier::external_body]
pub struct ExAtom(Atom);

#[verifier::external_type_specification]
#[verifier::external_body]
pub struct ExWtf8Atom(swc_atoms::Wtf8Atom);

#[verifier::external_type_specification]
#[verifier::external_body]
pub struct ExSingleThreadedComments(SingleThreadedComments);

#[verifier::external_type_specification]
#[verifier::external_body]
pub struct ExSourceMap(swc_common::SourceMap);

/// The characters that an interned string holds.
pub uninterp spec fn atom_text(a: Atom) -> Seq<char>;

/// The texts of the comments that stand in front of the position `pos`, in
/// their order.
pub uninterp spec fn leading_texts(comments: SingleThreadedComments, pos: BytePos) -> Seq<
    Seq<char>,
>;

/// The texts of the comments that stand behind the position `pos`, in their
/// order.
pub uninterp spec fn trailing_texts(comments: SingleThreadedComments, pos: BytePos) -> Seq<
    Seq<char>,
>;

/// The span of a node that no source text stands behind.
pub open spec fn dummy_span() -> Span {
    Span { lo: BytePos(0), hi: BytePos(0) }
}

/// The span of a node that no source text stands behind.
pub fn new_dummy_span() -> (r: Span)
    ensures
        r == dummy_span(),
{
    Span { lo: BytePos(0), hi: BytePos(0) }
}

/// Trusted: `Atom::as_str` and `str`'s `==`. The result is whether the interned
/// string holds exactly the characters of `text`.
#[verifier::external_body]
pub(crate) fn atom_is(a: &Atom, text: &str) -> (r: bool)
    ensures
        r == (atom_text(*a) == text@),
{
    a.as_str() == text
}

/// Trusted: `Atom`'s `==`. Two interned strings are equal exactly when they
/// hold the same characters.
#[verifier::external_body]
pub(crate) fn same_atom(a: &Atom, b: &Atom) -> (r: bool)
    ensures
        r == (atom_text(*a) == atom_text(*b)),
{
    a == b
}

/// Trusted: `Atom::as_str`, copied. The string holds the characters of the
/// interned string.
#[verifier::external_body]
pub(crate) fn atom_string(a: &Atom) -> (r: String)
    ensures
        r@ == atom_text(*a),
{
    a.as_str().to_owned()
}

/// Trusted: `Atom::from` a string. The interned string holds the characters of
/// `text`.
#[verifier::external_body]
pub(crate) fn atom_of(text: &str) -> (r: Atom)
    ensures
        atom_text(r) == text@,
{
    Atom::from(text)
}

/// Trusted: `Comments::get_leading`. The comments in front of a position, each
/// by its text; none where the parser noted none there.
#[verifier::external_body]
pub(crate) fn leading_at(comments: &SingleThreadedComments, pos: BytePos) -> (r: Vec<String>)
    ensures
        strings(r@) == leading_texts(*comments, pos),
{
    let found = comments.get_leading(pos).unwrap_or_default();
    found.into_iter().map(|comment| comment.text.to_string()).collect()
}

/// Trusted: `Comments::get_trailing`. The comments behind a position, each by
/// its text; none where the parser noted none there.
#[verifier::external_body]
pub(crate) fn trailing_at(comments: &SingleThreadedComments, pos: BytePos) -> (r: Vec<String>)
    ensures
        strings(r@) == trailing_texts(*comments, pos),
{
    let found = comments.get_trailing(pos).unwrap_or_default();
    found.into_iter().map(|comment| comment.text.to_string()).collect()
}

} // verus!
