//! What a variable declarator binds, and to what.

use crate::source::{atom_is, atom_text};
use swc_ecma_ast::{Expr, Module, ObjectLit, Pat, VarDecl, VarDeclarator};
use vstd::prelude::*;

verus! {

/// The name that a declarator binds, where it binds a plain identifier and no
/// pattern.
pub open spec fn declared_name(d: VarDeclarator) -> Option<Seq<char>> {
    match d.name {
        Pat::Ident(binding) => Some(atom_text(binding.id.sym)),
        _ => None,
    }
}

/// Whether a declarator binds the plain identifier `name`. Names are compared
/// as text: the scope in which the declarator stands plays no part.
pub open spec fn declares(d: VarDeclarator, name: Seq<char>) -> bool {
    declared_name(d) == Some(name)
}

/// The first declarator of the module that binds the plain identifier `name`;
/// none where no declarator binds it. Variable declarations count in the order
/// in which a traversal meets them, wherever they stand: a declaration before
/// those that it holds in the patterns and initialisers of its declarators,
/// and before those that stand behind it. The declarators of one declaration
/// count in their own order.
pub uninterp spec fn first_target(module: Module, name: Seq<char>) -> Option<VarDeclarator>;

/// The module with the first declarator that binds `name` replaced by `d`, and
/// nothing else changed.
pub uninterp spec fn with_target(module: Module, name: Seq<char>, d: VarDeclarator) -> Module;

/// The first declarator that binds the plain identifier `name` among the
/// variable declarations that stand below a declaration, in the patterns and
/// initialisers of its declarators; none where none of them binds it. They
/// count in the order in which a traversal meets them, as for a module. The
/// declarators of the declaration itself do not count.
pub uninterp spec fn first_target_below(var_decl: VarDecl, name: Seq<char>) -> Option<
    VarDeclarator,
>;

/// The declaration with the first declarator below it that binds `name`
/// replaced by `d`, and nothing else changed.
pub uninterp spec fn with_target_below(var_decl: VarDecl, name: Seq<char>, d: VarDeclarator) -> VarDecl;

/// Whether `after` is the declaration `before` but for its declarator at the
/// index `k`.
pub open spec fn same_but_declarator(before: VarDecl, k: int, after: VarDecl) -> bool {
    &&& after.span == before.span
    &&& after.ctxt == before.ctxt
    &&& after.kind == before.kind
    &&& after.declare == before.declare
    &&& after.decls@.len() == before.decls@.len()
    &&& forall|i: int| 0 <= i < before.decls@.len() && i != k ==> after.decls@[i] == before.decls@[i]
}

/// The index of the first declarator that binds `name`, or the number of
/// declarators where none does.
pub open spec fn first_declaring(decls: Seq<VarDeclarator>, name: Seq<char>) -> int
    decreases decls.len(),
{
    if decls.len() == 0 {
        0
    } else if declares(decls[0], name) {
        0
    } else {
        1 + first_declaring(decls.skip(1), name)
    }
}

/// The object literal that a declarator is initialised with, if it is
/// initialised with one.
pub open spec fn initial_object(d: VarDeclarator) -> Option<ObjectLit> {
    match d.init {
        Some(init) => match *init {
            Expr::Object(object) => Some(object),
            _ => None,
        },
        None => None,
    }
}

/// Whether a declarator binds the plain identifier `name`.
pub fn declares_name(d: &VarDeclarator, name: &str) -> (r: bool)
    ensures
        r == declares(*d, name@),
{
    match &d.name {
        Pat::Ident(binding) => atom_is(&binding.id.sym, name),
        _ => false,
    }
}

/// The index of the first declarator that binds `name`, or the number of
/// declarators where none does.
pub fn find_declaring(decls: &Vec<VarDeclarator>, name: &str) -> (r: usize)
    ensures
        r == first_declaring(decls@, name@),
        r <= decls@.len(),
{
    let mut i: usize = 0;
    while i < decls.len()
        invariant
            i <= decls@.len(),
            forall|j: int| 0 <= j < i ==> !declares(#[trigger] decls@[j], name@),
        decreases decls@.len() - i,
    {
        if declares_name(&decls[i], name) {
            proof {
                lemma_first_declaring_is(decls@, name@, i as int);
            }
            return i;
        }
        i = i + 1;
    }
    proof {
        lemma_first_declaring_is(decls@, name@, i as int);
    }
    i
}

/// Whether a declarator is initialised with an object literal.
pub fn has_initial_object(d: &VarDeclarator) -> (r: bool)
    ensures
        r == (initial_object(*d) is Some),
{
    match &d.init {
        Some(init) => match &**init {
            Expr::Object(_) => true,
            _ => false,
        },
        None => false,
    }
}

/// The first declarator that binds `name` is where it is said to be: none
/// before it binds the name, and it does unless it is the end.
pub proof fn lemma_first_declaring(decls: Seq<VarDeclarator>, name: Seq<char>)
    ensures
        0 <= first_declaring(decls, name) <= decls.len(),
        forall|i: int| 0 <= i < first_declaring(decls, name) ==> !declares(#[trigger] decls[i], name),
        first_declaring(decls, name) < decls.len() ==> declares(
            decls[first_declaring(decls, name)],
            name,
        ),
    decreases decls.len(),
{
    if decls.len() > 0 && !declares(decls[0], name) {
        lemma_first_declaring(decls.skip(1), name);
        let k = first_declaring(decls.skip(1), name);
        assert forall|i: int| 0 <= i < 1 + k implies !declares(#[trigger] decls[i], name) by {
            if i > 0 {
                assert(decls.skip(1)[i - 1] == decls[i]);
            }
        }
        if k < decls.skip(1).len() {
            assert(decls.skip(1)[k] == decls[1 + k]);
        }
    }
}

/// An index that no declarator before it binds the name at, and that is the
/// end or binds the name itself, is the first that binds it.
pub proof fn lemma_first_declaring_is(decls: Seq<VarDeclarator>, name: Seq<char>, k: int)
    requires
        0 <= k <= decls.len(),
        forall|i: int| 0 <= i < k ==> !declares(#[trigger] decls[i], name),
        k < decls.len() ==> declares(decls[k], name),
    ensures
        first_declaring(decls, name) == k,
{
    lemma_first_declaring(decls, name);
    let f = first_declaring(decls, name);
    if f < k {
        assert(!declares(decls[f], name));
    }
}

} // verus!
