//! Entries of an object literal: shorthand names and spreads.
//!
//! A caller names an entry by a string: `Hooks` for the shorthand entry and
//! `...Hooks` for the spread. The two never compare equal. Extension appends the
//! named entries that the literal lacks; removal drops the named entries that it
//! holds. Both leave every other entry where it was.

use crate::parsers::javascript::names::fresh_ident;
use crate::source::{atom_is, atom_text, dummy_span};
use swc_common::{BytePos, Span};
use swc_ecma_ast::{Expr, Prop, PropName, PropOrSpread, SpreadElement};
use vstd::prelude::*;

verus! {

/// What an entry is known by: its name, and whether it is a spread.
pub struct EntryKey {
    pub spread: bool,
    pub name: Seq<char>,
}

/// An entry that a caller asks for.
#[derive(Debug, PartialEq, Eq)]
pub enum PropertyEntry {
    /// `name`, short for `name: name`.
    Shorthand(String),
    /// `...name`.
    Spread(String),
}

impl View for PropertyEntry {
    type V = EntryKey;

    open spec fn view(&self) -> EntryKey {
        match self {
            PropertyEntry::Shorthand(name) => EntryKey { spread: false, name: name@ },
            PropertyEntry::Spread(name) => EntryKey { spread: true, name: name@ },
        }
    }
}

/// Whether a requested name begins with the three dots that mark a spread.
pub open spec fn has_spread_marker(name: Seq<char>) -> bool {
    name.len() >= 3 && name[0] == '.' && name[1] == '.' && name[2] == '.'
}

/// The entry that a requested name stands for.
pub open spec fn key_of_name(name: Seq<char>) -> EntryKey {
    if has_spread_marker(name) {
        EntryKey { spread: true, name: name.skip(3) }
    } else {
        EntryKey { spread: false, name }
    }
}

/// The characters of each of the given strings.
pub open spec fn texts(names: Seq<&str>) -> Seq<Seq<char>> {
    Seq::new(names.len(), |i: int| names[i]@)
}

/// Whether `p` is the node that is appended for the entry `key`: a shorthand
/// entry or the spread of an identifier, which reads the entry's name and lies
/// at the dummy span.
pub open spec fn is_entry_node(p: PropOrSpread, key: EntryKey) -> bool {
    match p {
        PropOrSpread::Prop(prop) => match *prop {
            Prop::Shorthand(ident) => {
                &&& !key.spread
                &&& atom_text(ident.sym) == key.name
                &&& !ident.optional
                &&& ident.span == dummy_span()
            },
            _ => false,
        },
        PropOrSpread::Spread(spread) => match *spread.expr {
            Expr::Ident(ident) => {
                &&& key.spread
                &&& spread.dot3_token == dummy_span()
                &&& atom_text(ident.sym) == key.name
                &&& !ident.optional
                &&& ident.span == dummy_span()
            },
            _ => false,
        },
    }
}

/// What an existing entry is known by, if it is one that can be named.
///
/// A shorthand entry and the spread of a plain identifier always can. With
/// `named_values`, an entry `key: value` whose key is an identifier counts as
/// holding the plain name `key`.
pub open spec fn entry_key(p: PropOrSpread, named_values: bool) -> Option<EntryKey> {
    match p {
        PropOrSpread::Prop(prop) => match *prop {
            Prop::Shorthand(ident) => Some(EntryKey { spread: false, name: atom_text(ident.sym) }),
            Prop::KeyValue(pair) => match pair.key {
                PropName::Ident(key) => if named_values {
                    Some(EntryKey { spread: false, name: atom_text(key.sym) })
                } else {
                    None
                },
                _ => None,
            },
            _ => None,
        },
        PropOrSpread::Spread(spread) => match *spread.expr {
            Expr::Ident(ident) => Some(EntryKey { spread: true, name: atom_text(ident.sym) }),
            _ => None,
        },
    }
}

/// Whether some entry of `props` is known by `key`.
pub open spec fn holds_key(props: Seq<PropOrSpread>, key: EntryKey, named_values: bool) -> bool {
    exists|i: int| 0 <= i < props.len() && #[trigger] entry_key(props[i], named_values) == Some(key)
}

/// The entries among `names`, in the order given and with repeats kept, that
/// `props` does not hold.
pub open spec fn missing_keys(
    props: Seq<PropOrSpread>,
    names: Seq<Seq<char>>,
    named_values: bool,
) -> Seq<EntryKey>
    decreases names.len(),
{
    if names.len() == 0 {
        Seq::empty()
    } else {
        let earlier = missing_keys(props, names.drop_last(), named_values);
        let key = key_of_name(names.last());
        if holds_key(props, key, named_values) {
            earlier
        } else {
            earlier.push(key)
        }
    }
}

/// Whether `after` is `before` extended by `names`: every entry it had, then
/// one new node for each requested entry that it lacked.
pub open spec fn is_extension(
    before: Seq<PropOrSpread>,
    names: Seq<Seq<char>>,
    named_values: bool,
    after: Seq<PropOrSpread>,
) -> bool {
    let missing = missing_keys(before, names, named_values);
    &&& after.len() == before.len() + missing.len()
    &&& forall|i: int| 0 <= i < before.len() ==> after[i] == before[i]
    &&& forall|j: int|
        0 <= j < missing.len() ==> is_entry_node(#[trigger] after[before.len() + j], missing[j])
}

/// Whether `names` asks for the entry `p`.
pub open spec fn is_listed(p: PropOrSpread, names: Seq<Seq<char>>) -> bool {
    exists|j: int| 0 <= j < names.len() && entry_key(p, false) == Some(#[trigger] key_of_name(names[j]))
}

/// `props` after removal of `names`: the entries that `names` does not ask for,
/// in their old order.
pub open spec fn without(props: Seq<PropOrSpread>, names: Seq<Seq<char>>) -> Seq<PropOrSpread> {
    props.filter(|p: PropOrSpread| !is_listed(p, names))
}

impl PropertyEntry {
    /// Reads a requested name: three leading dots ask for the spread of what
    /// follows them, anything else for the shorthand entry of that name.
    pub fn from_name(name: &str) -> (r: PropertyEntry)
        ensures
            r@ == key_of_name(name@),
    {
        let length = name.unicode_len();
        if length >= 3 && name.get_char(0) == '.' && name.get_char(1) == '.' && name.get_char(2)
            == '.' {
            let rest = name.substring_char(3, length);
            assert(rest@ =~= name@.skip(3));
            PropertyEntry::Spread(rest.to_owned())
        } else {
            PropertyEntry::Shorthand(name.to_owned())
        }
    }

    /// The node to append for this entry.
    pub fn to_node(&self) -> (r: PropOrSpread)
        ensures
            is_entry_node(r, self@),
    {
        match self {
            PropertyEntry::Shorthand(name) => PropOrSpread::Prop(
                Box::new(Prop::Shorthand(fresh_ident(name.as_str()))),
            ),
            PropertyEntry::Spread(name) => PropOrSpread::Spread(
                SpreadElement {
                    dot3_token: Span { lo: BytePos(0), hi: BytePos(0) },
                    expr: Box::new(Expr::Ident(fresh_ident(name.as_str()))),
                },
            ),
        }
    }

    /// Whether the existing entry `p` is the one that `self` asks for.
    pub fn names_entry(&self, p: &PropOrSpread, named_values: bool) -> (r: bool)
        ensures
            r == (entry_key(*p, named_values) == Some(self@)),
    {
        match p {
            PropOrSpread::Prop(prop) => match &**prop {
                Prop::Shorthand(ident) => match self {
                    PropertyEntry::Shorthand(name) => atom_is(&ident.sym, name.as_str()),
                    PropertyEntry::Spread(_) => false,
                },
                Prop::KeyValue(pair) => match &pair.key {
                    PropName::Ident(key) => match self {
                        PropertyEntry::Shorthand(name) => named_values && atom_is(
                            &key.sym,
                            name.as_str(),
                        ),
                        PropertyEntry::Spread(_) => false,
                    },
                    _ => false,
                },
                _ => false,
            },
            PropOrSpread::Spread(spread) => match &*spread.expr {
                Expr::Ident(ident) => match self {
                    PropertyEntry::Shorthand(_) => false,
                    PropertyEntry::Spread(name) => atom_is(&ident.sym, name.as_str()),
                },
                _ => false,
            },
        }
    }

    /// Whether one of the first `limit` entries of `props` is the one that
    /// `self` asks for.
    pub fn is_held(&self, props: &Vec<PropOrSpread>, limit: usize, named_values: bool) -> (r: bool)
        requires
            limit <= props@.len(),
        ensures
            r == holds_key(props@.take(limit as int), self@, named_values),
    {
        let mut i: usize = 0;
        while i < limit
            invariant
                i <= limit <= props@.len(),
                forall|j: int|
                    0 <= j < i ==> #[trigger] entry_key(props@[j], named_values) != Some(self@),
            decreases limit - i,
        {
            if self.names_entry(&props[i], named_values) {
                assert(props@.take(limit as int)[i as int] == props@[i as int]);
                return true;
            }
            i = i + 1;
        }
        assert forall|j: int| 0 <= j < props@.take(limit as int).len() implies #[trigger] entry_key(
            props@.take(limit as int)[j],
            named_values,
        ) != Some(self@) by {
            assert(props@.take(limit as int)[j] == props@[j]);
        }
        false
    }
}

/// Appends to `props`, in the order given, a node for each of `names` whose
/// entry `props` did not hold when the call began. A name given twice is
/// appended twice.
pub fn extend_props(props: &mut Vec<PropOrSpread>, names: &Vec<&str>, named_values: bool)
    ensures
        is_extension(old(props)@, texts(names@), named_values, final(props)@),
{
    let ghost before = props@;
    let ghost wanted = texts(names@);
    let existing = props.len();
    let mut i: usize = 0;
    while i < names.len()
        invariant
            i <= names@.len(),
            before == old(props)@,
            wanted == texts(names@),
            existing == before.len(),
            is_extension(before, wanted.take(i as int), named_values, props@),
        decreases names@.len() - i,
    {
        let entry = PropertyEntry::from_name(names[i]);
        let ghost earlier = missing_keys(before, wanted.take(i as int), named_values);
        let ghost held = props@;
        proof {
            assert(wanted.take(i + 1).drop_last() =~= wanted.take(i as int));
            assert(wanted.take(i + 1).last() == names@[i as int]@);
            assert(props@.take(existing as int) =~= before);
        }
        if !entry.is_held(props, existing, named_values) {
            let node = entry.to_node();
            props.push(node);
            assert forall|j: int| 0 <= j < earlier.push(entry@).len() implies is_entry_node(
                #[trigger] props@[before.len() + j],
                earlier.push(entry@)[j],
            ) by {
                if j < earlier.len() {
                    assert(props@[before.len() + j] == held[before.len() + j]);
                }
            }
        }
        i = i + 1;
    }
    assert(wanted.take(i as int) =~= wanted);
}

/// A new node is known by the entry it was made for, however keys are read.
pub proof fn lemma_entry_node_key(p: PropOrSpread, key: EntryKey, named_values: bool)
    requires
        is_entry_node(p, key),
    ensures
        entry_key(p, named_values) == Some(key),
{
}

/// Each requested entry is either held already or among the missing ones.
proof fn lemma_missing_covers(
    props: Seq<PropOrSpread>,
    names: Seq<Seq<char>>,
    named_values: bool,
    j: int,
)
    requires
        0 <= j < names.len(),
    ensures
        holds_key(props, key_of_name(names[j]), named_values) || missing_keys(
            props,
            names,
            named_values,
        ).contains(key_of_name(names[j])),
    decreases names.len(),
{
    let earlier = missing_keys(props, names.drop_last(), named_values);
    let key = key_of_name(names.last());
    if j == names.len() - 1 {
        if !holds_key(props, key, named_values) {
            assert(earlier.push(key)[earlier.len() as int] == key);
        }
    } else {
        lemma_missing_covers(props, names.drop_last(), named_values, j);
        assert(names.drop_last()[j] == names[j]);
        let wanted = key_of_name(names[j]);
        if earlier.contains(wanted) {
            let m = choose|m: int| 0 <= m < earlier.len() && earlier[m] == wanted;
            assert(earlier.push(key)[m] == wanted);
        }
    }
}

/// Where every requested entry is held, none is missing.
proof fn lemma_nothing_missing(props: Seq<PropOrSpread>, names: Seq<Seq<char>>, named_values: bool)
    requires
        forall|j: int|
            0 <= j < names.len() ==> holds_key(props, #[trigger] key_of_name(names[j]), named_values),
    ensures
        missing_keys(props, names, named_values).len() == 0,
    decreases names.len(),
{
    if names.len() > 0 {
        assert forall|j: int| 0 <= j < names.drop_last().len() implies holds_key(
            props,
            #[trigger] key_of_name(names.drop_last()[j]),
            named_values,
        ) by {
            assert(names.drop_last()[j] == names[j]);
        }
        lemma_nothing_missing(props, names.drop_last(), named_values);
        assert(holds_key(props, key_of_name(names[names.len() - 1]), named_values));
    }
}

/// After an extension every requested entry is held.
pub proof fn lemma_extension_holds_all(
    before: Seq<PropOrSpread>,
    names: Seq<Seq<char>>,
    named_values: bool,
    after: Seq<PropOrSpread>,
    j: int,
)
    requires
        is_extension(before, names, named_values, after),
        0 <= j < names.len(),
    ensures
        holds_key(after, key_of_name(names[j]), named_values),
{
    let key = key_of_name(names[j]);
    let missing = missing_keys(before, names, named_values);
    lemma_missing_covers(before, names, named_values, j);
    if holds_key(before, key, named_values) {
        let i = choose|i: int|
            0 <= i < before.len() && #[trigger] entry_key(before[i], named_values) == Some(key);
        assert(after[i] == before[i]);
    } else {
        let m = choose|m: int| 0 <= m < missing.len() && missing[m] == key;
        lemma_entry_node_key(after[before.len() + m], key, named_values);
    }
}

/// Extension has set semantics across calls: a second extension by the same
/// names finds every entry in place and appends nothing, whatever repeats the
/// names hold.
pub proof fn lemma_extension_settles(
    before: Seq<PropOrSpread>,
    names: Seq<Seq<char>>,
    named_values: bool,
    once: Seq<PropOrSpread>,
    twice: Seq<PropOrSpread>,
)
    requires
        is_extension(before, names, named_values, once),
        is_extension(once, names, named_values, twice),
    ensures
        twice == once,
{
    assert forall|j: int| 0 <= j < names.len() implies holds_key(
        once,
        #[trigger] key_of_name(names[j]),
        named_values,
    ) by {
        lemma_extension_holds_all(before, names, named_values, once, j);
    }
    lemma_nothing_missing(once, names, named_values);
    assert(twice =~= once);
}

/// Within one call nothing is merged: where `before` holds none of the
/// requested entries, the extension appends one node for every name given,
/// repeats included.
pub proof fn lemma_extension_keeps_repeats(
    before: Seq<PropOrSpread>,
    names: Seq<Seq<char>>,
    named_values: bool,
)
    requires
        forall|j: int|
            0 <= j < names.len() ==> !holds_key(before, #[trigger] key_of_name(names[j]), named_values),
    ensures
        missing_keys(before, names, named_values) == Seq::new(
            names.len(),
            |j: int| key_of_name(names[j]),
        ),
    decreases names.len(),
{
    if names.len() > 0 {
        assert forall|j: int| 0 <= j < names.drop_last().len() implies !holds_key(
            before,
            #[trigger] key_of_name(names.drop_last()[j]),
            named_values,
        ) by {
            assert(names.drop_last()[j] == names[j]);
        }
        lemma_extension_keeps_repeats(before, names.drop_last(), named_values);
        assert(!holds_key(before, key_of_name(names[names.len() - 1]), named_values));
    }
    assert(missing_keys(before, names, named_values) =~= Seq::new(
        names.len(),
        |j: int| key_of_name(names[j]),
    ));
}

/// Whether `names` asks for the existing entry `p`.
pub fn is_named(p: &PropOrSpread, names: &Vec<&str>) -> (r: bool)
    ensures
        r == is_listed(*p, texts(names@)),
{
    let mut j: usize = 0;
    while j < names.len()
        invariant
            j <= names@.len(),
            forall|k: int|
                0 <= k < j ==> entry_key(*p, false) != Some(
                    #[trigger] key_of_name(texts(names@)[k]),
                ),
        decreases names@.len() - j,
    {
        let entry = PropertyEntry::from_name(names[j]);
        if entry.names_entry(p, false) {
            assert(texts(names@)[j as int] == names@[j as int]@);
            return true;
        }
        assert(texts(names@)[j as int] == names@[j as int]@);
        j = j + 1;
    }
    false
}

/// Removes from `props` every entry that `names` asks for. The entries that
/// stay keep their order.
pub fn remove_props(props: &mut Vec<PropOrSpread>, names: &Vec<&str>)
    ensures
        final(props)@ == without(old(props)@, texts(names@)),
{
    let ghost before = props@;
    let ghost wanted = texts(names@);
    let ghost keep = |p: PropOrSpread| !is_listed(p, wanted);
    let ghost mut done: int = 0;
    let mut kept: usize = 0;
    while kept < props.len()
        invariant
            before == old(props)@,
            wanted == texts(names@),
            keep == (|p: PropOrSpread| !is_listed(p, wanted)),
            0 <= done <= before.len(),
            kept == before.take(done).filter(keep).len(),
            props@ == before.take(done).filter(keep) + before.skip(done),
        decreases props@.len() - kept,
    {
        proof {
            reveal(Seq::filter);
            assert(props@[kept as int] == before.skip(done)[0]);
            assert(before.take(done + 1).drop_last() =~= before.take(done));
            assert(before.take(done + 1).last() == before[done]);
        }
        if is_named(&props[kept], names) {
            props.remove(kept);
            assert(props@ =~= before.take(done + 1).filter(keep) + before.skip(done + 1));
        } else {
            assert(props@ =~= before.take(done + 1).filter(keep) + before.skip(done + 1));
            kept = kept + 1;
        }
        proof {
            done = done + 1;
        }
    }
    proof {
        assert(before.skip(done).len() == 0);
        assert(before.take(done) =~= before);
        assert(props@ =~= before.filter(keep));
    }
}

} // verus!
