//! Module specifiers and new identifiers.

use crate::source::{atom_text, dummy_span};
use swc_atoms::Wtf8Atom;
use swc_ecma_ast::{Ident, IdentName};
use vstd::prelude::*;

verus! {

/// The bytes that a module specifier holds. A specifier is a string literal of
/// the source and so may hold an unpaired surrogate, which no `char` can stand
/// for; its bytes tell two specifiers apart exactly.
pub uninterp spec fn specifier_units(a: Wtf8Atom) -> Seq<u8>;

/// Trusted: `Wtf8Atom`'s `==`. Two specifiers are equal exactly when they hold
/// the same bytes.
#[verifier::external_body]
pub(crate) fn same_specifier(a: &Wtf8Atom, b: &Wtf8Atom) -> (r: bool)
    ensures
        r == (specifier_units(*a) == specifier_units(*b)),
{
    a == b
}

/// Trusted: `Ident::new` with `DUMMY_SP` and `SyntaxContext::empty()`. The
/// identifier reads `name`, is not optional and has the dummy span.
#[verifier::external_body]
pub(crate) fn fresh_ident(name: &str) -> (r: Ident)
    ensures
        atom_text(r.sym) == name@,
        !r.optional,
        r.span == dummy_span(),
{
    Ident::new(name.into(), swc_common::DUMMY_SP, swc_common::SyntaxContext::empty())
}

/// Trusted: `IdentName::new` with `DUMMY_SP`. The key reads `name` and has the
/// dummy span.
#[verifier::external_body]
pub(crate) fn fresh_key(name: &str) -> (r: IdentName)
    ensures
        atom_text(r.sym) == name@,
        r.span == dummy_span(),
{
    IdentName::new(name.into(), swc_common::DUMMY_SP)
}

} // verus!
