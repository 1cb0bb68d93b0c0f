//! Taking forms apart: the argument lists of special forms and built-in
//! functions, and the typed values inside them.
//!
//! An argument list is a list form. A function of fixed arity takes a list
//! of exactly that length; one with a rest takes at least that many. Where a
//! sequence is asked for, a list, a vector and `nil` (as the empty sequence)
//! will do. Whatever does not fit is an `InvalidArgument`.

use crate::form::{
    entry_views, lemma_collection_views, names, views, Atom, Form, FormKind, FormView, Ident,
    KindView,
};
use crate::{Error, ErrorView};
use vstd::prelude::*;

verus! {

/// The same items, last first.
pub fn reversed<T>(items: Vec<T>) -> (r: Vec<T>)
    ensures
        r@ == items@.reverse(),
{
    let mut items = items;
    let mut r: Vec<T> = Vec::new();
    let ghost all = items@;
    while items.len() > 0
        invariant
            items@.len() + r@.len() == all.len(),
            items@ == all.take(items@.len() as int),
            forall|i: int| 0 <= i < r@.len() ==> r@[i] == all[all.len() - 1 - i],
        decreases items.len(),
    {
        let item = items.pop().unwrap();
        r.push(item);
    }
    assert(r@ =~= all.reverse());
    r
}

/// The arguments left over after the fixed ones.
#[derive(Debug)]
pub struct Rest {
    pub values: Vec<Form>,
}

impl Rest {
    pub fn new(values: Vec<Form>) -> (rest: Rest)
        ensures
            rest.values == values,
    {
        Rest { values }
    }

    /// The left-over arguments as a list form.
    pub fn into_form(self) -> (form: Form)
        ensures
            form@ == FormView::list(views(self.values@)),
    {
        Form::list(self.values)
    }
}

/// The items of a list; a vector or anything else has none.
pub open spec fn list_items(form: FormView) -> Option<Seq<FormView>> {
    match form.kind {
        KindView::List(items) => Some(items),
        _ => None,
    }
}

/// The items of a form taken as a sequence: those of a list or a vector,
/// none at all for `nil`.
pub open spec fn sequence_items(form: FormView) -> Option<Seq<FormView>> {
    match form.kind {
        KindView::Nil => Some(Seq::empty()),
        KindView::List(items) => Some(items),
        KindView::Vector(items) => Some(items),
        _ => None,
    }
}

/// The arguments of a call of fixed arity `n`: the items of a list of
/// exactly that length.
pub open spec fn exactly(form: FormView, n: nat) -> Option<Seq<FormView>> {
    match list_items(form) {
        Some(items) => if items.len() == n {
            Some(items)
        } else {
            None
        },
        None => None,
    }
}

/// The arguments of a call with `n` fixed arguments and a rest: the items of
/// a list of at least that length.
pub open spec fn at_least(form: FormView, n: nat) -> Option<Seq<FormView>> {
    match list_items(form) {
        Some(items) => if items.len() >= n {
            Some(items)
        } else {
            None
        },
        None => None,
    }
}

/// The one argument of a call of arity one.
pub fn take_1(form: Form) -> (r: Result<Form, Error>)
    ensures
        match r {
            Ok(a) => exactly(form@, 1) == Some(seq![a@]),
            Err(e) => exactly(form@, 1) is None && e@ == ErrorView::InvalidArgument,
        },
{
    proof {
        lemma_collection_views(form.kind);
    }
    match form.kind {
        FormKind::List(items) => {
            let mut items = items;
            if items.len() != 1 {
                return Err(Error::InvalidArgument);
            }
            let a = items.pop().unwrap();
            assert(form@.kind->List_0 =~= seq![a@]);
            Ok(a)
        },
        _ => Err(Error::InvalidArgument),
    }
}

/// The two arguments of a call of arity two.
pub fn take_2(form: Form) -> (r: Result<(Form, Form), Error>)
    ensures
        match r {
            Ok((a, b)) => exactly(form@, 2) == Some(seq![a@, b@]),
            Err(e) => exactly(form@, 2) is None && e@ == ErrorView::InvalidArgument,
        },
{
    proof {
        lemma_collection_views(form.kind);
    }
    match form.kind {
        FormKind::List(items) => {
            let mut items = items;
            if items.len() != 2 {
                return Err(Error::InvalidArgument);
            }
            let b = items.pop().unwrap();
            let a = items.pop().unwrap();
            assert(form@.kind->List_0 =~= seq![a@, b@]);
            Ok((a, b))
        },
        _ => Err(Error::InvalidArgument),
    }
}

/// The three arguments of a call of arity three.
pub fn take_3(form: Form) -> (r: Result<(Form, Form, Form), Error>)
    ensures
        match r {
            Ok((a, b, c)) => exactly(form@, 3) == Some(seq![a@, b@, c@]),
            Err(e) => exactly(form@, 3) is None && e@ == ErrorView::InvalidArgument,
        },
{
    proof {
        lemma_collection_views(form.kind);
    }
    match form.kind {
        FormKind::List(items) => {
            let mut items = items;
            if items.len() != 3 {
                return Err(Error::InvalidArgument);
            }
            let c = items.pop().unwrap();
            let b = items.pop().unwrap();
            let a = items.pop().unwrap();
            assert(form@.kind->List_0 =~= seq![a@, b@, c@]);
            Ok((a, b, c))
        },
        _ => Err(Error::InvalidArgument),
    }
}

/// The first `n` arguments of a call, and the rest.
pub fn take_with_rest(form: Form, n: usize) -> (r: Result<(Vec<Form>, Rest), Error>)
    ensures
        match r {
            Ok((fixed, rest)) => at_least(form@, n as nat) == Some(
                views(fixed@) + views(rest.values@),
            ) && fixed@.len() == n,
            Err(e) => at_least(form@, n as nat) is None && e@ == ErrorView::InvalidArgument,
        },
{
    proof {
        lemma_collection_views(form.kind);
    }
    match form.kind {
        FormKind::List(items) => {
            if items.len() < n {
                return Err(Error::InvalidArgument);
            }
            let ghost all = views(items@);
            let mut fixed = items;
            let tail = fixed.split_off(n);
            assert(all =~= views(fixed@) + views(tail@));
            Ok((fixed, Rest::new(tail)))
        },
        _ => Err(Error::InvalidArgument),
    }
}

/// The items of a form taken as a sequence.
pub fn into_forms(form: Form) -> (r: Result<Vec<Form>, Error>)
    ensures
        match r {
            Ok(items) => sequence_items(form@) == Some(views(items@)),
            Err(e) => sequence_items(form@) is None && e@ == ErrorView::InvalidArgument,
        },
{
    proof {
        lemma_collection_views(form.kind);
    }
    match form.kind {
        FormKind::Nil => {
            let items: Vec<Form> = Vec::new();
            assert(views(items@) =~= Seq::empty());
            Ok(items)
        },
        FormKind::List(items) => Ok(items),
        FormKind::Vector(items) => Ok(items),
        _ => Err(Error::InvalidArgument),
    }
}

/// The integer that a form holds.
pub open spec fn integer_of(form: FormView) -> Option<i64> {
    match form.kind {
        KindView::Integer(n) => Some(n),
        _ => None,
    }
}

/// The integer that a form holds.
pub fn into_int(form: &Form) -> (r: Result<i64, Error>)
    ensures
        match r {
            Ok(n) => integer_of(form@) == Some(n),
            Err(e) => integer_of(form@) is None && e@ == ErrorView::InvalidArgument,
        },
{
    match &form.kind {
        FormKind::Integer(n) => Ok(*n),
        _ => Err(Error::InvalidArgument),
    }
}

/// The integers that a sequence of forms holds, where each holds one.
pub open spec fn integers_of(items: Seq<FormView>) -> Option<Seq<i64>> {
    if forall|i: int| 0 <= i < items.len() ==> (#[trigger] items[i]).kind is Integer {
        Some(Seq::new(items.len(), |i: int| items[i].kind->Integer_0))
    } else {
        None
    }
}

/// The integers of a form taken as a sequence of integers.
pub open spec fn integer_sequence(form: FormView) -> Option<Seq<i64>> {
    match sequence_items(form) {
        Some(items) => integers_of(items),
        None => None,
    }
}

/// The integers of a form taken as a sequence of integers.
pub fn into_ints(form: Form) -> (r: Result<Vec<i64>, Error>)
    ensures
        match r {
            Ok(ints) => integer_sequence(form@) == Some(ints@),
            Err(e) => integer_sequence(form@) is None && e@ == ErrorView::InvalidArgument,
        },
{
    let items = into_forms(form)?;
    let mut ints: Vec<i64> = Vec::new();
    let mut i: usize = 0;
    while i < items.len()
        invariant
            i <= items.len(),
            ints@.len() == i,
            sequence_items(form@) == Some(views(items@)),
            forall|j: int| 0 <= j < i ==> (#[trigger] views(items@)[j]).kind == KindView::Integer(ints@[j]),
        decreases items.len() - i,
    {
        match into_int(&items[i]) {
            Ok(n) => ints.push(n),
            Err(e) => {
                assert(!(views(items@)[i as int].kind is Integer));
                return Err(e);
            },
        }
        i += 1;
    }
    assert(integers_of(views(items@))->0 =~= ints@);
    Ok(ints)
}

/// The name of the symbol that a form holds.
pub fn into_ident(form: Form) -> (r: Result<Ident, Error>)
    ensures
        match r {
            Ok(ident) => form@.symbol_name() == Some(ident.name@),
            Err(e) => form@.symbol_name() is None && e@ == ErrorView::InvalidArgument,
        },
{
    match form.kind {
        FormKind::Symbol(ident) => Ok(ident),
        _ => Err(Error::InvalidArgument),
    }
}

/// The names that a sequence of forms holds, where each is a symbol.
pub open spec fn symbols_of(items: Seq<FormView>) -> Option<Seq<Seq<char>>> {
    if forall|i: int| 0 <= i < items.len() ==> (#[trigger] items[i]).kind is Symbol {
        Some(Seq::new(items.len(), |i: int| items[i].kind->Symbol_0))
    } else {
        None
    }
}

/// The names of a form taken as a sequence of symbols.
pub open spec fn symbol_sequence(form: FormView) -> Option<Seq<Seq<char>>> {
    match sequence_items(form) {
        Some(items) => symbols_of(items),
        None => None,
    }
}

/// The names of a form taken as a sequence of symbols.
pub fn into_idents(form: Form) -> (r: Result<Vec<Ident>, Error>)
    ensures
        match r {
            Ok(idents) => symbol_sequence(form@) == Some(names(idents@)),
            Err(e) => symbol_sequence(form@) is None && e@ == ErrorView::InvalidArgument,
        },
{
    let items = into_forms(form)?;
    let ghost all = views(items@);
    let mut items = reversed(items);
    let mut idents: Vec<Ident> = Vec::new();
    while items.len() > 0
        invariant
            items@.len() + idents@.len() == all.len(),
            sequence_items(form@) == Some(all),
            forall|j: int| 0 <= j < items@.len() ==> (#[trigger] items@[j])@ == all[all.len() - 1 - j],
            forall|j: int|
                0 <= j < idents@.len() ==> (#[trigger] all[j]).kind == KindView::Symbol(
                    idents@[j].name@,
                ),
        decreases items.len(),
    {
        let ghost k = idents@.len() as int;
        let item = items.pop().unwrap();
        assert(item@ == all[k]);
        match into_ident(item) {
            Ok(ident) => idents.push(ident),
            Err(e) => {
                assert(!(all[k].kind is Symbol));
                return Err(e);
            },
        }
    }
    assert(symbols_of(all)->0 =~= names(idents@));
    Ok(idents)
}

/// The text of the string that a form holds.
pub open spec fn string_of(form: FormView) -> Option<Seq<char>> {
    match form.kind {
        KindView::String(text) => Some(text),
        _ => None,
    }
}

/// The text of the string that a form holds.
pub fn into_string(form: Form) -> (r: Result<String, Error>)
    ensures
        match r {
            Ok(text) => string_of(form@) == Some(text@),
            Err(e) => string_of(form@) is None && e@ == ErrorView::InvalidArgument,
        },
{
    match form.kind {
        FormKind::String(text) => Ok(text),
        _ => Err(Error::InvalidArgument),
    }
}

/// The cell that a form holds.
pub open spec fn atom_of(form: FormView) -> Option<Atom> {
    match form.kind {
        KindView::Atom(atom) => Some(atom),
        _ => None,
    }
}

/// The cell that a form holds.
pub fn into_atom(form: &Form) -> (r: Result<Atom, Error>)
    ensures
        match r {
            Ok(atom) => atom_of(form@) == Some(atom),
            Err(e) => atom_of(form@) is None && e@ == ErrorView::InvalidArgument,
        },
{
    match &form.kind {
        FormKind::Atom(atom) => Ok(*atom),
        _ => Err(Error::InvalidArgument),
    }
}

/// The entries of the map that a form holds.
pub open spec fn entries_of(form: FormView) -> Option<Seq<(FormView, FormView)>> {
    match form.kind {
        KindView::HashMap(entries) => Some(entries),
        _ => None,
    }
}

/// The entries of the map that a form holds.
pub fn into_entries(form: Form) -> (r: Result<Vec<(Form, Form)>, Error>)
    ensures
        match r {
            Ok(entries) => entries_of(form@) == Some(entry_views(entries@)),
            Err(e) => entries_of(form@) is None && e@ == ErrorView::InvalidArgument,
        },
{
    proof {
        lemma_collection_views(form.kind);
    }
    match form.kind {
        FormKind::HashMap(entries) => Ok(entries),
        _ => Err(Error::InvalidArgument),
    }
}

/// The form that an optional form stands for: itself, or `nil`.
pub fn from_option(value: Option<Form>) -> (form: Form)
    ensures
        form@ == match value {
            Some(f) => f@,
            None => FormView::nil(),
        },
{
    match value {
        Some(f) => f,
        None => Form::nil(),
    }
}

} // verus!
