//! The `hooks` object of a Phoenix LiveView socket.
//!
//! The target is the variable `liveSocket`, initialised by
//! `new LiveSocket(.., { .. })`: a constructor call whose last argument is an
//! object literal, the options. The entry `hooks: { .. }` of the options is
//! what gets extended or thinned out; where the options lack it, it is added as
//! their last entry first.

use crate::parsers::javascript::ast::{
    outcome_of, FindCondition, Finding, Operation, FOUND_ERROR_MESSAGE, NOT_FOUND_MESSAGE,
};
use crate::parsers::javascript::declarators::{
    declares, declares_name, find_declaring, first_declaring, first_target, first_target_below,
    lemma_first_declaring, same_but_declarator, with_target, with_target_below,
};
use crate::parsers::javascript::entries::{
    extend_props, is_extension, lemma_extension_settles, remove_props, texts, without,
};
use crate::parsers::javascript::helpers::{
    code_gen_from_ast_module, generated, parse, parsed_module, result_text, PARSE_CONTENT_ERROR,
};
use crate::parsers::javascript::names::fresh_key;
use crate::source::{atom_is, atom_text, dummy_span};
use swc_common::{BytePos, Span};
use swc_ecma_ast::{
    Expr, KeyValueProp, Module, NewExpr, ObjectLit, Prop, PropName, PropOrSpread, VarDecl,
    VarDeclarator,
};
use swc_ecma_visit::{VisitMut, VisitMutWith};
use vstd::prelude::*;

verus! {

/// The variable that holds the socket.
pub const TARGET_VARIABLE: &'static str = "liveSocket";

/// The constructor that the socket is made with.
pub const CONSTRUCTOR: &'static str = "LiveSocket";

/// The key of the options under which the hooks stand.
pub const HOOKS_KEY: &'static str = "hooks";

/// The reason given where the variable is not initialised by the constructor.
pub const NOT_CONSTRUCTED_MESSAGE: &'static str =
    "The variable was found, but it is not initialised with a call of the expected constructor.";

// The hooks among the options.

/// Whether an entry of the options is the hooks object: the key `hooks` with
/// an object literal as its value.
pub open spec fn is_hooks_object(p: PropOrSpread) -> bool {
    match p {
        PropOrSpread::Prop(prop) => match *prop {
            Prop::KeyValue(pair) => match pair.key {
                PropName::Ident(key) => atom_text(key.sym) == HOOKS_KEY@ && (*pair.value is Object),
                _ => false,
            },
            _ => false,
        },
        _ => false,
    }
}

/// The entries of the hooks object.
pub open spec fn hooks_props(p: PropOrSpread) -> Seq<PropOrSpread>
    recommends
        is_hooks_object(p),
{
    match p {
        PropOrSpread::Prop(prop) => match *prop {
            Prop::KeyValue(pair) => match *pair.value {
                Expr::Object(object) => object.props@,
                _ => Seq::empty(),
            },
            _ => Seq::empty(),
        },
        _ => Seq::empty(),
    }
}

/// The index of the first hooks object among the options, or their number
/// where they hold none.
pub open spec fn hooks_index(props: Seq<PropOrSpread>) -> int
    decreases props.len(),
{
    if props.len() == 0 {
        0
    } else if is_hooks_object(props[0]) {
        0
    } else {
        1 + hooks_index(props.skip(1))
    }
}

/// The entries that the hooks hold: those of the first hooks object, or none
/// where the options hold no hooks object.
pub open spec fn hooks_before(props: Seq<PropOrSpread>) -> Seq<PropOrSpread> {
    let h = hooks_index(props);
    if h < props.len() {
        hooks_props(props[h])
    } else {
        Seq::empty()
    }
}

/// Whether `after` is the hooks object `before` but for its entries: the same
/// key in front of an object literal at the same place.
pub open spec fn same_shell(before: PropOrSpread, after: PropOrSpread) -> bool {
    match (before, after) {
        (PropOrSpread::Prop(b), PropOrSpread::Prop(a)) => match (*b, *a) {
            (Prop::KeyValue(kb), Prop::KeyValue(ka)) => {
                &&& ka.key == kb.key
                &&& match (*kb.value, *ka.value) {
                    (Expr::Object(ob), Expr::Object(oa)) => oa.span == ob.span,
                    _ => false,
                }
            },
            _ => false,
        },
        _ => false,
    }
}

/// Whether `p` is a hooks object as this module makes it: the key `hooks` in
/// front of an object literal, both at the dummy span.
pub open spec fn is_new_shell(p: PropOrSpread) -> bool {
    match p {
        PropOrSpread::Prop(prop) => match *prop {
            Prop::KeyValue(pair) => {
                &&& match pair.key {
                    PropName::Ident(key) => atom_text(key.sym) == HOOKS_KEY@ && key.span
                        == dummy_span(),
                    _ => false,
                }
                &&& match *pair.value {
                    Expr::Object(object) => object.span == dummy_span(),
                    _ => false,
                }
            },
            _ => false,
        },
        _ => false,
    }
}

/// Whether `after` holds the options `before` with nothing changed but the
/// entries of the hooks: every other option is where it was, and the hooks
/// object is the old one, or a new one behind all options where there was
/// none.
pub open spec fn same_but_hooks(before: Seq<PropOrSpread>, after: Seq<PropOrSpread>) -> bool {
    let h = hooks_index(before);
    &&& 0 <= h <= before.len()
    &&& after.len() == if h < before.len() {
        before.len()
    } else {
        before.len() + 1
    }
    &&& forall|i: int| 0 <= i < before.len() && i != h ==> after[i] == before[i]
    &&& is_hooks_object(after[h])
    &&& if h < before.len() {
        same_shell(before[h], after[h])
    } else {
        is_new_shell(after[h])
    }
}

/// What an operation makes of the options: an edit extends the hooks by the
/// names, a deletion removes the names from them, and both add the hooks where
/// they are missing; any other operation leaves the options alone.
pub open spec fn hooks_edited(
    operation: Operation,
    names: Seq<Seq<char>>,
    before: Seq<PropOrSpread>,
    after: Seq<PropOrSpread>,
) -> bool {
    match operation {
        Operation::Edit => {
            &&& same_but_hooks(before, after)
            &&& is_extension(
                hooks_before(before),
                names,
                false,
                hooks_props(after[hooks_index(before)]),
            )
        },
        Operation::Delete => {
            &&& same_but_hooks(before, after)
            &&& hooks_props(after[hooks_index(before)]) == without(hooks_before(before), names)
        },
        _ => after == before,
    }
}

/// The first hooks object is where it is said to be.
pub proof fn lemma_hooks_index(props: Seq<PropOrSpread>)
    ensures
        0 <= hooks_index(props) <= props.len(),
        forall|i: int| 0 <= i < hooks_index(props) ==> !is_hooks_object(#[trigger] props[i]),
        hooks_index(props) < props.len() ==> is_hooks_object(props[hooks_index(props)]),
    decreases props.len(),
{
    if props.len() > 0 && !is_hooks_object(props[0]) {
        lemma_hooks_index(props.skip(1));
        let k = hooks_index(props.skip(1));
        assert forall|i: int| 0 <= i < 1 + k implies !is_hooks_object(#[trigger] props[i]) by {
            if i > 0 {
                assert(props.skip(1)[i - 1] == props[i]);
            }
        }
        if k < props.skip(1).len() {
            assert(props.skip(1)[k] == props[1 + k]);
        }
    }
}

/// An index that no hooks object stands in front of, and that holds one, is
/// where the first hooks object is.
pub proof fn lemma_hooks_index_is(props: Seq<PropOrSpread>, k: int)
    requires
        0 <= k < props.len(),
        forall|i: int| 0 <= i < k ==> !is_hooks_object(#[trigger] props[i]),
        is_hooks_object(props[k]),
    ensures
        hooks_index(props) == k,
{
    lemma_hooks_index(props);
    let h = hooks_index(props);
    if h < k {
        assert(!is_hooks_object(props[h]));
    }
}

/// Extension of the hooks has set semantics across calls: where options that
/// were extended by some names are extended by the same names again, the hooks
/// hold the entries that they held, in their order, and every other option
/// stays too. No shorthand entry and no spread is added a second time,
/// whatever repeats the names hold.
pub proof fn lemma_hooks_extension_settles(
    names: Seq<Seq<char>>,
    before: Seq<PropOrSpread>,
    once: Seq<PropOrSpread>,
    twice: Seq<PropOrSpread>,
)
    requires
        hooks_edited(Operation::Edit, names, before, once),
        hooks_edited(Operation::Edit, names, once, twice),
    ensures
        hooks_index(once) == hooks_index(before),
        twice.len() == once.len(),
        forall|i: int| 0 <= i < once.len() && i != hooks_index(once) ==> twice[i] == once[i],
        hooks_props(twice[hooks_index(once)]) == hooks_props(once[hooks_index(once)]),
{
    let h = hooks_index(before);
    lemma_hooks_index(before);
    assert forall|i: int| 0 <= i < h implies !is_hooks_object(#[trigger] once[i]) by {
        assert(once[i] == before[i]);
    }
    lemma_hooks_index_is(once, h);
    lemma_extension_settles(
        hooks_before(before),
        names,
        false,
        hooks_props(once[h]),
        hooks_props(twice[h]),
    );
}

/// Whether an entry of the options is the hooks object.
pub fn is_hooks(p: &PropOrSpread) -> (r: bool)
    ensures
        r == is_hooks_object(*p),
{
    match p {
        PropOrSpread::Prop(prop) => match &**prop {
            Prop::KeyValue(pair) => match &pair.key {
                PropName::Ident(key) => {
                    if atom_is(&key.sym, HOOKS_KEY) {
                        match &*pair.value {
                            Expr::Object(_) => true,
                            _ => false,
                        }
                    } else {
                        false
                    }
                },
                _ => false,
            },
            _ => false,
        },
        _ => false,
    }
}

/// The index of the first hooks object among the options, or their number.
pub fn find_hooks(props: &Vec<PropOrSpread>) -> (h: usize)
    ensures
        h == hooks_index(props@),
        h <= props@.len(),
        h < props@.len() ==> is_hooks_object(props@[h as int]),
{
    proof {
        lemma_hooks_index(props@);
    }
    let mut i: usize = 0;
    while i < props.len()
        invariant
            i <= props@.len(),
            i <= hooks_index(props@) <= props@.len(),
            hooks_index(props@) < props@.len() ==> is_hooks_object(props@[hooks_index(props@)]),
            forall|j: int| 0 <= j < hooks_index(props@) ==> !is_hooks_object(#[trigger] props@[j]),
        decreases props@.len() - i,
    {
        if is_hooks(&props[i]) {
            return i;
        }
        i = i + 1;
    }
    i
}

/// Makes sure that the options hold a hooks object, and says where: the first
/// one they hold, or `hooks: {}` added behind all of them.
pub fn ensure_hooks(props: &mut Vec<PropOrSpread>) -> (h: usize)
    ensures
        h == hooks_index(old(props)@),
        h < final(props)@.len(),
        same_but_hooks(old(props)@, final(props)@),
        hooks_props(final(props)@[h as int]) == hooks_before(old(props)@),
{
    let h = find_hooks(props);
    if h == props.len() {
        let object = ObjectLit { span: Span { lo: BytePos(0), hi: BytePos(0) }, props: Vec::new() };
        let pair = KeyValueProp {
            key: PropName::Ident(fresh_key(HOOKS_KEY)),
            value: Box::new(Expr::Object(object)),
        };
        props.push(PropOrSpread::Prop(Box::new(Prop::KeyValue(pair))));
    }
    h
}

// The pass.

/// The pass that looks for the socket and works on its hooks.
pub struct HookExtender<'a> {
    pub target_var_name: &'a str,
    pub new_objects: Vec<&'a str>,
    pub operation: Operation,
    pub find: FindCondition,
}

/// The constructor call that a declarator is initialised with, if it is
/// initialised with `new LiveSocket(..)`.
pub open spec fn constructed(d: VarDeclarator) -> Option<NewExpr> {
    match d.init {
        Some(init) => match *init {
            Expr::New(call) => match *call.callee {
                Expr::Ident(callee) => if atom_text(callee.sym) == CONSTRUCTOR@ {
                    Some(call)
                } else {
                    None
                },
                _ => None,
            },
            _ => None,
        },
        None => None,
    }
}

/// The options of a constructor call: its last argument, if that is an object
/// literal.
pub open spec fn trailing_object(call: NewExpr) -> Option<ObjectLit> {
    match call.args {
        Some(args) => if args@.len() > 0 {
            match *args@.last().expr {
                Expr::Object(object) => Some(object),
                _ => None,
            }
        } else {
            None
        },
        None => None,
    }
}

/// The options that a declarator hands to the constructor.
pub open spec fn options_of(d: VarDeclarator) -> Option<ObjectLit> {
    match constructed(d) {
        Some(call) => trailing_object(call),
        None => None,
    }
}

/// Whether `after` is the declarator `before` with nothing changed but the
/// entries of its options.
pub open spec fn same_but_options(before: VarDeclarator, after: VarDeclarator) -> bool {
    &&& after.span == before.span
    &&& after.name == before.name
    &&& after.definite == before.definite
    &&& constructed(before) is Some
    &&& constructed(after) is Some
    &&& options_of(before) is Some
    &&& options_of(after) is Some
    &&& {
        let b = constructed(before)->Some_0;
        let a = constructed(after)->Some_0;
        &&& a.span == b.span
        &&& a.ctxt == b.ctxt
        &&& a.callee == b.callee
        &&& a.type_args == b.type_args
        &&& a.args->Some_0@.len() == b.args->Some_0@.len()
        &&& forall|i: int|
            0 <= i < b.args->Some_0@.len() - 1 ==> a.args->Some_0@[i] == b.args->Some_0@[i]
        &&& a.args->Some_0@.last().spread == b.args->Some_0@.last().spread
        &&& options_of(after)->Some_0.span == options_of(before)->Some_0.span
    }
}

/// The shape of a declarator that binds the target's name.
#[derive(Debug, Clone, Copy, PartialEq, Eq, Structural)]
pub enum Shape {
    /// Not initialised by the constructor.
    NotConstructed,
    /// Initialised by the constructor, without options.
    NoOptions,
    /// Initialised by the constructor, with options.
    Options,
}

/// The shape of a declarator.
pub open spec fn shape_of(d: VarDeclarator) -> Shape {
    match constructed(d) {
        None => Shape::NotConstructed,
        Some(call) => match trailing_object(call) {
            None => Shape::NoOptions,
            Some(_) => Shape::Options,
        },
    }
}

/// Whether a constructor call has options.
pub fn has_options(call: &NewExpr) -> (r: bool)
    ensures
        r == (trailing_object(*call) is Some),
{
    match &call.args {
        Some(args) => {
            let n = args.len();
            if n > 0 {
                match &*args[n - 1].expr {
                    Expr::Object(_) => true,
                    _ => false,
                }
            } else {
                false
            }
        },
        None => false,
    }
}

/// The shape of a declarator.
pub fn classify(d: &VarDeclarator) -> (r: Shape)
    ensures
        r == shape_of(*d),
{
    match &d.init {
        Some(init) => match &**init {
            Expr::New(call) => match &*call.callee {
                Expr::Ident(callee) => {
                    if atom_is(&callee.sym, CONSTRUCTOR) {
                        if has_options(call) {
                            Shape::Options
                        } else {
                            Shape::NoOptions
                        }
                    } else {
                        Shape::NotConstructed
                    }
                },
                _ => Shape::NotConstructed,
            },
            _ => Shape::NotConstructed,
        },
        None => Shape::NotConstructed,
    }
}

impl<'a> HookExtender<'a> {
    /// A pass that looks for the variable `target_var_name`, to extend its
    /// hooks by `new_objects`, and has met nothing yet.
    pub fn new(target_var_name: &'a str, new_objects: Vec<&'a str>) -> (r: Self)
        ensures
            r.target_var_name@ == target_var_name@,
            r.new_objects@ == new_objects@,
            r.operation == Operation::Edit,
            r.find@ == Finding::start(),
    {
        Self {
            target_var_name,
            new_objects,
            find: FindCondition::start(),
            operation: Operation::Edit,
        }
    }

    /// Whether the pass still looks for its target. A pass that edits, deletes
    /// or only reads does, until it has met a declaration of the target.
    pub open spec fn is_searching(self) -> bool {
        &&& self.operation == Operation::Edit || self.operation == Operation::Delete
            || self.operation == Operation::Read
        &&& self.find@.is_open()
    }

    /// Whether the pass stops at this declarator.
    pub open spec fn meets(self, d: VarDeclarator) -> bool {
        self.is_searching() && declares(d, self.target_var_name@)
    }

    /// What the pass does at the declarator it stops at. A declarator that
    /// hands options to the constructor is the target: it is found, and its
    /// hooks are worked on as the operation says. One that is not initialised
    /// by the constructor, or hands it no options, has the wrong shape and is
    /// left alone: for the first the pass gives its own reason, for the second
    /// none, so that the standard sentence for a wrong shape is shown.
    pub open spec fn settles(
        before: Self,
        d_before: VarDeclarator,
        after: Self,
        d_after: VarDeclarator,
    ) -> bool {
        &&& after.target_var_name@ == before.target_var_name@
        &&& after.new_objects@ == before.new_objects@
        &&& after.operation == before.operation
        &&& match shape_of(d_before) {
            Shape::NotConstructed => {
                &&& after.find@ == Finding::FoundError(NOT_CONSTRUCTED_MESSAGE@)
                &&& d_after == d_before
            },
            Shape::NoOptions => {
                &&& after.find@ == Finding::FoundError(Seq::empty())
                &&& d_after == d_before
            },
            Shape::Options => {
                &&& after.find@ == Finding::Found
                &&& if before.operation == Operation::Read {
                    d_after == d_before
                } else {
                    &&& same_but_options(d_before, d_after)
                    &&& hooks_edited(
                        before.operation,
                        texts(before.new_objects@),
                        options_of(d_before)->Some_0.props@,
                        options_of(d_after)->Some_0.props@,
                    )
                }
            },
        }
    }

    /// Extends the hooks of the options by the names of this pass that they
    /// lack. Where the options hold no hooks object, `hooks: {}` becomes their
    /// last entry first. A name is compared with the shorthand entries and the
    /// spreads that the hooks held when the call began, so a name that comes
    /// twice is added twice.
    pub fn extend_or_create_hooks(&mut self, obj_expr: &mut ObjectLit)
        ensures
            *final(self) == *old(self),
            final(obj_expr).span == old(obj_expr).span,
            hooks_edited(
                Operation::Edit,
                texts(old(self).new_objects@),
                old(obj_expr).props@,
                final(obj_expr).props@,
            ),
    {
        let h = ensure_hooks(&mut obj_expr.props);
        match &mut obj_expr.props[h] {
            PropOrSpread::Prop(prop) => match &mut **prop {
                Prop::KeyValue(pair) => match &mut *pair.value {
                    Expr::Object(hooks) => {
                        extend_props(&mut hooks.props, &self.new_objects, false);
                    },
                    _ => {},
                },
                _ => {},
            },
            _ => {},
        }
    }

    /// Removes from the hooks of the options the shorthand entries and
    /// spreads that `objects_to_remove` names. Options without a hooks object
    /// are left alone.
    pub fn remove_objects_from_hooks(
        &mut self,
        obj_expr: &mut ObjectLit,
        objects_to_remove: Vec<&str>,
    )
        ensures
            *final(self) == *old(self),
            final(obj_expr).span == old(obj_expr).span,
            if hooks_index(old(obj_expr).props@) < old(obj_expr).props@.len() {
                hooks_edited(
                    Operation::Delete,
                    texts(objects_to_remove@),
                    old(obj_expr).props@,
                    final(obj_expr).props@,
                )
            } else {
                final(obj_expr).props@ == old(obj_expr).props@
            },
    {
        let h = find_hooks(&obj_expr.props);
        if h < obj_expr.props.len() {
            remove_at(&mut obj_expr.props, h, &objects_to_remove);
        }
    }

    /// Does to the options what the operation of this pass says.
    fn apply(&mut self, obj_expr: &mut ObjectLit)
        requires
            old(self).operation == Operation::Edit || old(self).operation == Operation::Delete,
        ensures
            *final(self) == *old(self),
            final(obj_expr).span == old(obj_expr).span,
            hooks_edited(
                old(self).operation,
                texts(old(self).new_objects@),
                old(obj_expr).props@,
                final(obj_expr).props@,
            ),
    {
        match self.operation {
            Operation::Delete => {
                let h = ensure_hooks(&mut obj_expr.props);
                let ghost ensured = obj_expr.props@;
                remove_at(&mut obj_expr.props, h, &self.new_objects);
                proof {
                    let before = old(obj_expr).props@;
                    let after = obj_expr.props@;
                    assert forall|i: int| 0 <= i < before.len() && i != h implies after[i]
                        == before[i] by {
                        assert(after[i] == ensured[i]);
                    }
                }
            },
            _ => {
                self.extend_or_create_hooks(obj_expr);
            },
        }
    }

    /// Visits one declarator: see `settles`. A declarator that the pass does
    /// not stop at is left alone, and so is the pass.
    pub fn visit_declarator(&mut self, decl: &mut VarDeclarator)
        ensures
            if old(self).meets(*old(decl)) {
                Self::settles(*old(self), *old(decl), *final(self), *final(decl))
            } else {
                *final(self) == *old(self) && *final(decl) == *old(decl)
            },
    {
        let acts = matches!(self.operation, Operation::Edit | Operation::Delete | Operation::Read);
        if !acts || !self.find.is_open() {
            return ;
        }
        if !declares_name(decl, self.target_var_name) {
            return ;
        }
        match classify(decl) {
            Shape::NotConstructed => {
                self.find = FindCondition::FoundError(NOT_CONSTRUCTED_MESSAGE.to_owned());
            },
            Shape::NoOptions => {
                self.find = FindCondition::FoundError(String::new());
            },
            Shape::Options => {
                self.find = FindCondition::Found;
                if matches!(self.operation, Operation::Read) {
                    return ;
                }
                match &mut decl.init {
                    Some(init) => match &mut **init {
                        Expr::New(call) => match &mut call.args {
                            Some(args) => {
                                let last = args.len() - 1;
                                match &mut *args[last].expr {
                                    Expr::Object(options) => {
                                        self.apply(options);
                                    },
                                    _ => {},
                                }
                            },
                            None => {},
                        },
                        _ => {},
                    },
                    None => {},
                }
            },
        }
    }

    /// Whether the pass still looks for its target.
    pub fn searching(&self) -> (r: bool)
        ensures
            r == self.is_searching(),
    {
        let acts = matches!(self.operation, Operation::Edit | Operation::Delete | Operation::Read);
        acts && self.find.is_open()
    }

    /// Visits the declarators of one declaration, in their order. The first
    /// one that binds the target's name decides the search; all others are
    /// left alone, and so are all where the pass looks for nothing or none
    /// binds the name.
    pub fn visit_declarators(&mut self, decls: &mut Vec<VarDeclarator>)
        ensures
            final(decls)@.len() == old(decls)@.len(),
            ({
                let k = first_declaring(old(decls)@, old(self).target_var_name@);
                if old(self).is_searching() && k < old(decls)@.len() {
                    &&& Self::settles(*old(self), old(decls)@[k], *final(self), final(decls)@[k])
                    &&& forall|i: int|
                        0 <= i < old(decls)@.len() && i != k ==> final(decls)@[i] == old(decls)@[i]
                } else {
                    *final(self) == *old(self) && *final(decls) == *old(decls)
                }
            }),
    {
        if !self.searching() {
            return ;
        }
        let k = find_declaring(decls, self.target_var_name);
        if k < decls.len() {
            proof {
                lemma_first_declaring(decls@, self.target_var_name@);
            }
            self.visit_declarator(&mut decls[k]);
        }
    }
}

/// Removes the named entries from the hooks object at index `h`.
fn remove_at(props: &mut Vec<PropOrSpread>, h: usize, names: &Vec<&str>)
    requires
        h < old(props)@.len(),
        is_hooks_object(old(props)@[h as int]),
    ensures
        final(props)@.len() == old(props)@.len(),
        forall|i: int| 0 <= i < old(props)@.len() && i != h ==> final(props)@[i] == old(props)@[i],
        is_hooks_object(final(props)@[h as int]),
        same_shell(old(props)@[h as int], final(props)@[h as int]),
        hooks_props(final(props)@[h as int]) == without(
            hooks_props(old(props)@[h as int]),
            texts(names@),
        ),
{
    match &mut props[h] {
        PropOrSpread::Prop(prop) => match &mut **prop {
            Prop::KeyValue(pair) => match &mut *pair.value {
                Expr::Object(hooks) => {
                    remove_props(&mut hooks.props, names);
                },
                _ => {},
            },
            _ => {},
        },
        _ => {},
    }
}

/// Trusted: `VisitMutWith::visit_mut_children_with` on a variable declaration.
/// The traversal hands every variable declaration that stands below this one,
/// in the patterns and initialisers of its declarators, to
/// `visit_mut_var_decl`, one that holds another before the one it holds, and
/// changes nothing itself. So a pass that still looks for its target acts,
/// by `visit_declarators`, on the first declarator below that binds the
/// target's name and on no other; a pass that looks for nothing changes
/// nothing.
#[verifier::external_body]
fn descend_for_hooks(var_decl: &mut VarDecl, visitor: &mut HookExtender)
    ensures
        match first_target_below(*old(var_decl), old(visitor).target_var_name@) {
            Some(d) => if old(visitor).is_searching() {
                exists|d2: VarDeclarator|
                    {
                        &&& #[trigger] HookExtender::settles(*old(visitor), d, *final(visitor), d2)
                        &&& *final(var_decl) == with_target_below(
                            *old(var_decl),
                            old(visitor).target_var_name@,
                            d2,
                        )
                    }
            } else {
                *final(visitor) == *old(visitor) && *final(var_decl) == *old(var_decl)
            },
            None => *final(visitor) == *old(visitor) && *final(var_decl) == *old(var_decl),
        },
{
    var_decl.visit_mut_children_with(visitor)
}

/// What a pass does at one variable declaration and below it. A pass that
/// looks for nothing changes nothing. One that looks for its target stops at
/// the first declarator of the declaration that binds the target's name, and
/// does there what `settles` says; where none of them binds it, it stops in
/// the same way at the first declarator that binds it below the declaration,
/// in a pattern or an initialiser.
/// Nothing else changes.
pub open spec fn hooks_visited(
    before: HookExtender,
    decl_before: VarDecl,
    after: HookExtender,
    decl_after: VarDecl,
) -> bool {
    let k = first_declaring(decl_before.decls@, before.target_var_name@);
    if !before.is_searching() {
        after == before && decl_after == decl_before
    } else if k < decl_before.decls@.len() {
        &&& HookExtender::settles(before, decl_before.decls@[k], after, decl_after.decls@[k])
        &&& same_but_declarator(decl_before, k, decl_after)
    } else {
        match first_target_below(decl_before, before.target_var_name@) {
            Some(d) => exists|d2: VarDeclarator|
                {
                    &&& #[trigger] HookExtender::settles(before, d, after, d2)
                    &&& decl_after == with_target_below(decl_before, before.target_var_name@, d2)
                },
            None => after == before && decl_after == decl_before,
        }
    }
}

impl VisitMut for HookExtender<'_> {
    /// Visits one variable declaration, then what stands below it: see
    /// `hooks_visited`.
    fn visit_mut_var_decl(&mut self, var_decl: &mut VarDecl)
        ensures
            hooks_visited(*old(self), *old(var_decl), *final(self), *final(var_decl)),
    {
        proof {
            lemma_first_declaring(var_decl.decls@, self.target_var_name@);
        }
        self.visit_declarators(&mut var_decl.decls);
        descend_for_hooks(var_decl, self)
    }
}

/// Whether a traversal of `module` by the pass `before` leaves the module
/// `walked` and the pass `after`. A pass that still looks for its target stops
/// at the first declarator of the module that binds the target's name, and
/// does there what `settles` says. Nothing else changes; nothing changes at
/// all where the pass looks for nothing, no declarator binds the name, or the
/// pass leaves the declarator as it was.
pub open spec fn hooks_passed(
    module: Module,
    before: HookExtender,
    walked: Module,
    after: HookExtender,
) -> bool {
    match first_target(module, before.target_var_name@) {
        Some(d) => if before.is_searching() {
            exists|d2: VarDeclarator|
                {
                    &&& #[trigger] HookExtender::settles(before, d, after, d2)
                    &&& walked == with_target(module, before.target_var_name@, d2)
                    &&& d2 == d ==> walked == module
                    &&& first_target(walked, before.target_var_name@) == Some(d2)
                }
        } else {
            after == before && walked == module
        },
        None => after == before && walked == module,
    }
}

/// Trusted: `VisitMutWith::visit_mut_with` on a module, with a
/// `HookExtender`. The traversal hands every variable declaration of the
/// module to `visit_mut_var_decl`, one that holds another before the one it
/// holds, and changes nothing itself. So the pass meets the declarators in
/// that order, and by `visit_declarators` acts on the first that binds its
/// target's name and on no other; where it leaves that declarator as it was,
/// the module is as it was. What it leaves of the declarator binds the name as
/// before, so it is still the first that does.
#[verifier::external_body]
pub(crate) fn walk_for_hooks(module: &mut Module, visitor: &mut HookExtender)
    ensures
        match first_target(*old(module), old(visitor).target_var_name@) {
            Some(d) => if old(visitor).is_searching() {
                exists|d2: VarDeclarator|
                    {
                        &&& #[trigger] HookExtender::settles(*old(visitor), d, *final(visitor), d2)
                        &&& *final(module) == with_target(
                            *old(module),
                            old(visitor).target_var_name@,
                            d2,
                        )
                        &&& d2 == d ==> *final(module) == *old(module)
                        &&& first_target(*final(module), old(visitor).target_var_name@) == Some(d2)
                    }
            } else {
                *final(visitor) == *old(visitor) && *final(module) == *old(module)
            },
            None => *final(visitor) == *old(visitor) && *final(module) == *old(module),
        },
{
    module.visit_mut_with(visitor)
}

/// What an operation makes of the declarator that is the socket: an edit and
/// a deletion change the entries of its hooks and nothing else, a reading
/// changes nothing.
pub open spec fn socket_edited(
    operation: Operation,
    names: Seq<Seq<char>>,
    d: VarDeclarator,
    d2: VarDeclarator,
) -> bool {
    if operation == Operation::Read {
        d2 == d
    } else {
        &&& same_but_options(d, d2)
        &&& hooks_edited(
            operation,
            names,
            options_of(d)->Some_0.props@,
            options_of(d2)->Some_0.props@,
        )
    }
}

/// Whether `r` is what a pass over the source text for the socket's hooks
/// returns: an error where the text does not parse, where no declarator binds
/// `liveSocket` and where the first that does is not initialised by the
/// constructor or hands it no options; else what is written for the module
/// with the hooks of that declarator worked on as the operation says.
pub open spec fn is_hooks_text(
    file_content: Seq<char>,
    names: Seq<Seq<char>>,
    operation: Operation,
    r: Result<Seq<char>, Seq<char>>,
) -> bool {
    match parsed_module(file_content) {
        None => r == Err::<Seq<char>, Seq<char>>(PARSE_CONTENT_ERROR@),
        Some((module, comments, cm)) => match first_target(module, TARGET_VARIABLE@) {
            None => r == Err::<Seq<char>, Seq<char>>(NOT_FOUND_MESSAGE@),
            Some(d) => match shape_of(d) {
                Shape::NotConstructed => r == Err::<Seq<char>, Seq<char>>(NOT_CONSTRUCTED_MESSAGE@),
                Shape::NoOptions => r == Err::<Seq<char>, Seq<char>>(FOUND_ERROR_MESSAGE@),
                Shape::Options => exists|d2: VarDeclarator|
                    {
                        &&& #[trigger] socket_edited(operation, names, d, d2)
                        &&& r == generated(
                            with_target(module, TARGET_VARIABLE@, d2),
                            with_target(module, TARGET_VARIABLE@, d2).body@,
                            comments,
                            cm,
                        )
                    },
            },
        },
    }
}

/// Whether the source text parses and holds the socket in its expected shape:
/// the first declarator that binds `liveSocket` hands options to the
/// constructor.
pub open spec fn holds_socket(file_content: Seq<char>) -> bool {
    match parsed_module(file_content) {
        None => false,
        Some((module, _, _)) => match first_target(module, TARGET_VARIABLE@) {
            None => false,
            Some(d) => shape_of(d) == Shape::Options,
        },
    }
}

/// The hooks of the socket after an edit of the declarator that is the socket.
pub open spec fn socket_hooks(d: VarDeclarator) -> Seq<PropOrSpread> {
    hooks_before(options_of(d)->Some_0.props@)
}

/// Extension has set semantics across passes: where a pass that extends the
/// hooks has found the socket in a module, and a second pass with the same
/// names goes over what the first has left, the second finds the socket too,
/// and leaves in its hooks the entries that the first left there, in their
/// order. No entry is added a second time, whatever repeats the names hold.
pub proof fn lemma_hooks_pass_settles(
    module: Module,
    first: HookExtender,
    once: Module,
    first_done: HookExtender,
    second: HookExtender,
    twice: Module,
    second_done: HookExtender,
)
    requires
        first.operation == Operation::Edit,
        second.operation == Operation::Edit,
        first.find@.is_open(),
        second.find@.is_open(),
        second.target_var_name@ == first.target_var_name@,
        second.new_objects@ == first.new_objects@,
        hooks_passed(module, first, once, first_done),
        hooks_passed(once, second, twice, second_done),
        first_done.find@ is Found,
    ensures
        second_done.find@ is Found,
        first_target(once, first.target_var_name@) is Some,
        first_target(twice, first.target_var_name@) is Some,
        socket_hooks(first_target(twice, first.target_var_name@)->Some_0) == socket_hooks(
            first_target(once, first.target_var_name@)->Some_0,
        ),
{
    let name = first.target_var_name@;
    let names = texts(first.new_objects@);
    let d = first_target(module, name)->Some_0;
    let d2 = choose|d2: VarDeclarator|
        {
            &&& #[trigger] HookExtender::settles(first, d, first_done, d2)
            &&& once == with_target(module, name, d2)
            &&& (d2 == d ==> once == module)
            &&& first_target(once, name) == Some(d2)
        };
    let d3 = choose|d3: VarDeclarator|
        {
            &&& #[trigger] HookExtender::settles(second, d2, second_done, d3)
            &&& twice == with_target(once, name, d3)
            &&& (d3 == d2 ==> twice == once)
            &&& first_target(twice, name) == Some(d3)
        };
    let before = options_of(d)->Some_0.props@;
    let left = options_of(d2)->Some_0.props@;
    let last = options_of(d3)->Some_0.props@;
    lemma_hooks_extension_settles(names, before, left, last);
    lemma_hooks_index(left);
    lemma_hooks_index(before);
    let h = hooks_index(before);
    assert forall|i: int| 0 <= i < h implies !is_hooks_object(#[trigger] last[i]) by {
        assert(last[i] == left[i]);
    }
    lemma_hooks_index_is(last, h);
}

/// The reason that this module gives is not empty, so it is shown as it is.
pub proof fn lemma_reasons_are_shown()
    ensures
        Finding::FoundError(NOT_CONSTRUCTED_MESSAGE@).message_text() == NOT_CONSTRUCTED_MESSAGE@,
{
    reveal_strlit(
        "The variable was found, but it is not initialised with a call of the expected constructor.",
    );
}

/// A caller can tell the failures apart by their messages: that the text does
/// not parse, that nothing binds the name, that what binds it is not made by
/// the constructor, and that the constructor is handed no options.
pub proof fn lemma_failures_are_told_apart()
    ensures
        PARSE_CONTENT_ERROR@ != NOT_FOUND_MESSAGE@,
        PARSE_CONTENT_ERROR@ != FOUND_ERROR_MESSAGE@,
        PARSE_CONTENT_ERROR@ != NOT_CONSTRUCTED_MESSAGE@,
        NOT_FOUND_MESSAGE@ != FOUND_ERROR_MESSAGE@,
        NOT_FOUND_MESSAGE@ != NOT_CONSTRUCTED_MESSAGE@,
        NOT_CONSTRUCTED_MESSAGE@ != FOUND_ERROR_MESSAGE@,
{
    reveal_strlit("Failed to parse JavaScript content");
    reveal_strlit(
        "Unfortunately, the item you are looking for does not exist or has already been deleted.",
    );
    reveal_strlit(
        "The requested item was found, but an error occurred while modifying it. It might not match the type you require.",
    );
    reveal_strlit(
        "The variable was found, but it is not initialised with a call of the expected constructor.",
    );
    assert(PARSE_CONTENT_ERROR@[0] == 'F');
    assert(NOT_FOUND_MESSAGE@[0] == 'U');
    assert(FOUND_ERROR_MESSAGE@[0] == 'T' && FOUND_ERROR_MESSAGE@[4] == 'r');
    assert(NOT_CONSTRUCTED_MESSAGE@[0] == 'T' && NOT_CONSTRUCTED_MESSAGE@[4] == 'v');
}

/// Runs one pass for the socket's hooks over the source text.
fn run(file_content: &str, names: Vec<&str>, operation: Operation) -> (r: Result<String, String>)
    requires
        operation == Operation::Edit || operation == Operation::Delete,
    ensures
        is_hooks_text(file_content@, texts(names@), operation, result_text(r)),
{
    let mut parsed = match parse(file_content) {
        Ok(parsed) => parsed,
        Err(_) => {
            return Err(PARSE_CONTENT_ERROR.to_owned());
        },
    };
    let mut hook_extender = HookExtender::new(TARGET_VARIABLE, names);
    hook_extender.operation = operation;
    let ghost before = hook_extender;
    parsed.visit_hooks(&mut hook_extender);
    let ghost module = parsed.tree();
    let written = code_gen_from_ast_module(parsed);
    proof {
        lemma_reasons_are_shown();
        let made = parsed_module(file_content@)->Some_0;
        match first_target(made.0, TARGET_VARIABLE@) {
            Some(d) => {
                let d2 = choose|d2: VarDeclarator|
                    {
                        &&& #[trigger] HookExtender::settles(before, d, hook_extender, d2)
                        &&& module == with_target(made.0, TARGET_VARIABLE@, d2)
                    };
                if shape_of(d) == Shape::Options {
                    assert(socket_edited(operation, texts(names@), d, d2));
                }
            },
            None => {},
        }
    }
    outcome_of(&hook_extender.find, written)
}

/// Adds to the hooks of the socket the entries that `new_objects` asks for
/// and the hooks lack, and returns the new text. A name stands for a shorthand
/// entry, or with three leading dots for a spread.
///
/// Fails, with the reason as the message, where the text does not parse, where
/// no declaration binds `liveSocket`, and where the first one that does is not
/// initialised by `new LiveSocket(..)` or hands it no options.
pub fn extend_hook_object_to_ast(file_content: &str, new_objects: Vec<&str>) -> (r: Result<
    String,
    String,
>)
    ensures
        is_hooks_text(file_content@, texts(new_objects@), Operation::Edit, result_text(r)),
{
    run(file_content, new_objects, Operation::Edit)
}

/// Says whether the source text holds the socket in its expected shape:
/// `Ok(true)` where it does, `Err(false)` where it does not or the text does
/// not parse. The text is only read.
pub fn find_live_socket_node_from_ast(file_content: &str) -> (r: Result<bool, bool>)
    ensures
        r == if holds_socket(file_content@) {
            Ok::<bool, bool>(true)
        } else {
            Err::<bool, bool>(false)
        },
{
    let mut parsed = match parse(file_content) {
        Ok(parsed) => parsed,
        Err(_) => {
            return Err(false);
        },
    };
    let mut hook_extender = HookExtender::new(TARGET_VARIABLE, Vec::new());
    hook_extender.operation = Operation::Read;
    let ghost before = hook_extender;
    parsed.visit_hooks(&mut hook_extender);
    if hook_extender.find.is_found() {
        Ok(true)
    } else {
        Err(false)
    }
}

/// Removes from the hooks of the socket the shorthand entries and spreads
/// that `objects_to_remove` names, and returns the new text. The entries that
/// stay keep their order.
///
/// Fails as `extend_hook_object_to_ast` does.
pub fn remove_objects_of_hooks_from_ast(file_content: &str, objects_to_remove: Vec<&str>) -> (r:
    Result<String, String>)
    ensures
        is_hooks_text(
            file_content@,
            texts(objects_to_remove@),
            Operation::Delete,
            result_text(r),
        ),
{
    run(file_content, objects_to_remove, Operation::Delete)
}

} // verus!
