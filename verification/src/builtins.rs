//! The built-in functions.
//!
//! Each takes its arguments, already evaluated, as one list form. A function
//! of fixed arity takes exactly that many; whatever does not fit is an
//! `InvalidArgument`. Sums, differences and products wrap around at 64 bits.

use crate::convert::{
    at_least, atom_of, entries_of, exactly, integer_of, integer_sequence, into_atom, into_entries,
    into_forms, into_int, into_ints, into_string, list_items, sequence_items, string_of, take_1,
    take_2, take_with_rest,
};
use crate::env::{Env, Store, StoreView};
use crate::eval::{done, failed, outcome, result_view, Budget, Outcome, Step};
use crate::form::{
    entry_views, find_key, first_key, insert_pairs, items_of, lemma_collection_views, put_pairs,
    same, views, Atom, Form, FormKind, FormView, KindView,
};
use crate::format::{render, render_items, write_form, write_items, ATOM_DEPTH};
use crate::reader::{chars_of, read_spec, read_str};
use crate::{Error, ErrorView};
use vstd::prelude::*;

verus! {

/// The built-in functions, by what they do.
#[derive(Clone, Copy, Debug, PartialEq, Eq, Structural)]
pub enum Primitive {
    Plus,
    Minus,
    Times,
    Divide,
    ListOf,
    IsList,
    IsEmpty,
    Count,
    Equal,
    Less,
    LessEq,
    Greater,
    GreaterEq,
    PrStr,
    Str,
    Prn,
    Println,
    ReadString,
    Slurp,
    NewAtom,
    IsAtom,
    Deref,
    Reset,
    Swap,
    Cons,
    Concat,
    ToVec,
    Nth,
    First,
    Rest,
    Apply,
    MapOver,
    IsNil,
    IsTrue,
    IsFalse,
    ToSymbol,
    IsSymbol,
    ToKeyword,
    IsKeyword,
    VectorOf,
    IsVector,
    IsSequential,
    Throw,
    HashMapOf,
    IsMap,
    Assoc,
    Dissoc,
    Get,
    Contains,
    Keys,
    Vals,
    Readline,
    TimeMs,
    Meta,
    WithMeta,
    IsFn,
    IsString,
    IsNumber,
    IsMacro,
    SeqOf,
    Conj,
}

/// The result of a function that leaves the store as it is.
pub open spec fn pure(value: Result<FormView, ErrorView>, store: StoreView) -> Outcome {
    Step { value, store }
}

/// The one argument of a function of arity one.
pub open spec fn one(params: FormView) -> Option<FormView> {
    match exactly(params, 1) {
        Some(args) => Some(args[0]),
        None => None,
    }
}

/// The two arguments of a function of arity two.
pub open spec fn two(params: FormView) -> Option<(FormView, FormView)> {
    match exactly(params, 2) {
        Some(args) => Some((args[0], args[1])),
        None => None,
    }
}

/// The two integer arguments of a function of arity two.
pub open spec fn two_ints(params: FormView) -> Option<(i64, i64)> {
    match two(params) {
        Some((a, b)) => match (integer_of(a), integer_of(b)) {
            (Some(x), Some(y)) => Some((x, y)),
            _ => None,
        },
        None => None,
    }
}

pub open spec fn invalid() -> Result<FormView, ErrorView> {
    Err(ErrorView::InvalidArgument)
}

/// The sum of `acc` and the integers from index `from` on, wrapping.
pub open spec fn sum_from(ints: Seq<i64>, from: int, acc: i64) -> i64
    decreases ints.len() - from,
{
    if 0 <= from < ints.len() {
        sum_from(ints, from + 1, acc.wrapping_add(ints[from]))
    } else {
        acc
    }
}

/// `acc` less each of the integers from index `from` on, wrapping.
pub open spec fn difference_from(ints: Seq<i64>, from: int, acc: i64) -> i64
    decreases ints.len() - from,
{
    if 0 <= from < ints.len() {
        difference_from(ints, from + 1, acc.wrapping_sub(ints[from]))
    } else {
        acc
    }
}

/// The product of `acc` and the integers from index `from` on, wrapping.
pub open spec fn product_from(ints: Seq<i64>, from: int, acc: i64) -> i64
    decreases ints.len() - from,
{
    if 0 <= from < ints.len() {
        product_from(ints, from + 1, acc.wrapping_mul(ints[from]))
    } else {
        acc
    }
}

/// `(+ a ..)`: the sum, `0` for no argument.
pub open spec fn plus_spec(params: FormView) -> Result<FormView, ErrorView> {
    match integer_sequence(params) {
        Some(ints) => Ok(FormView::integer(sum_from(ints, 0, 0))),
        None => invalid(),
    }
}

/// `(- a b ..)`: `a` less each of the others, `0` for no argument.
pub open spec fn minus_spec(params: FormView) -> Result<FormView, ErrorView> {
    match integer_sequence(params) {
        Some(ints) => Ok(
            FormView::integer(
                if ints.len() == 0 {
                    0
                } else {
                    difference_from(ints, 1, ints[0])
                },
            ),
        ),
        None => invalid(),
    }
}

/// `(* a ..)`: the product, `1` for no argument.
pub open spec fn times_spec(params: FormView) -> Result<FormView, ErrorView> {
    match integer_sequence(params) {
        Some(ints) => Ok(FormView::integer(product_from(ints, 0, 1))),
        None => invalid(),
    }
}

/// `(/ a b)`: the quotient, rounded toward zero. A zero divisor, and the one
/// quotient that does not fit 64 bits, are an `InvalidArgument`.
pub open spec fn divide_spec(params: FormView) -> Result<FormView, ErrorView> {
    match two_ints(params) {
        Some((a, b)) => match a.checked_div(b) {
            Some(q) => Ok(FormView::integer(q)),
            None => invalid(),
        },
        None => invalid(),
    }
}

/// The four comparisons of two integers.
pub open spec fn compare_spec(p: Primitive, params: FormView) -> Result<FormView, ErrorView> {
    match two_ints(params) {
        Some((a, b)) => Ok(
            FormView::boolean(
                match p {
                    Primitive::Less => a < b,
                    Primitive::LessEq => a <= b,
                    Primitive::Greater => a > b,
                    _ => a >= b,
                },
            ),
        ),
        None => invalid(),
    }
}

/// `(= a b)`: structural equality.
pub open spec fn equal_spec(params: FormView) -> Result<FormView, ErrorView> {
    match two(params) {
        Some((a, b)) => Ok(FormView::boolean(same(a, b))),
        None => invalid(),
    }
}

/// What each of the questions about one form asks.
pub open spec fn holds(p: Primitive, form: FormView) -> bool {
    match p {
        Primitive::IsList => form.kind is List,
        Primitive::IsAtom => form.kind is Atom,
        Primitive::IsNil => form.kind is Nil,
        Primitive::IsTrue => form.kind == KindView::Boolean(true),
        Primitive::IsFalse => form.kind == KindView::Boolean(false),
        Primitive::IsSymbol => form.kind is Symbol,
        Primitive::IsKeyword => form.kind is Keyword,
        Primitive::IsVector => form.kind is Vector,
        Primitive::IsSequential => items_of(form.kind) is Some,
        Primitive::IsMap => form.kind is HashMap,
        Primitive::IsFn => crate::eval::is_function(form) || form.kind is NativeFn,
        Primitive::IsString => form.kind is String,
        Primitive::IsNumber => form.kind is Integer,
        _ => crate::eval::is_macro(form),
    }
}

/// Whether a built-in function is a question about one form.
pub open spec fn is_question(p: Primitive) -> bool {
    p == Primitive::IsList || p == Primitive::IsAtom || p == Primitive::IsNil || p
        == Primitive::IsTrue || p == Primitive::IsFalse || p == Primitive::IsSymbol || p
        == Primitive::IsKeyword || p == Primitive::IsVector || p == Primitive::IsSequential || p
        == Primitive::IsMap || p == Primitive::IsFn || p == Primitive::IsString || p
        == Primitive::IsNumber || p == Primitive::IsMacro
}

/// A question about one form: `true` or `false`.
pub open spec fn question_spec(p: Primitive, params: FormView) -> Result<FormView, ErrorView> {
    match one(params) {
        Some(form) => Ok(FormView::boolean(holds(p, form))),
        None => invalid(),
    }
}

pub fn plus(params: Form) -> (r: Result<Form, Error>)
    ensures
        result_view(r) == plus_spec(params@),
{
    let ints = into_ints(params)?;
    let mut acc: i64 = 0;
    let mut i: usize = 0;
    while i < ints.len()
        invariant
            i <= ints.len(),
            sum_from(ints@, 0, 0) == sum_from(ints@, i as int, acc),
        decreases ints.len() - i,
    {
        acc = acc.wrapping_add(ints[i]);
        i = i + 1;
    }
    Ok(Form::integer(acc))
}

pub fn minus(params: Form) -> (r: Result<Form, Error>)
    ensures
        result_view(r) == minus_spec(params@),
{
    let ints = into_ints(params)?;
    if ints.len() == 0 {
        return Ok(Form::integer(0));
    }
    let mut acc: i64 = ints[0];
    let mut i: usize = 1;
    while i < ints.len()
        invariant
            1 <= i <= ints.len(),
            difference_from(ints@, 1, ints@[0]) == difference_from(ints@, i as int, acc),
        decreases ints.len() - i,
    {
        acc = acc.wrapping_sub(ints[i]);
        i = i + 1;
    }
    Ok(Form::integer(acc))
}

pub fn times(params: Form) -> (r: Result<Form, Error>)
    ensures
        result_view(r) == times_spec(params@),
{
    let ints = into_ints(params)?;
    let mut acc: i64 = 1;
    let mut i: usize = 0;
    while i < ints.len()
        invariant
            i <= ints.len(),
            product_from(ints@, 0, 1) == product_from(ints@, i as int, acc),
        decreases ints.len() - i,
    {
        acc = acc.wrapping_mul(ints[i]);
        i = i + 1;
    }
    Ok(Form::integer(acc))
}

/// The two integer arguments of a function of arity two.
fn take_two_ints(params: Form) -> (r: Result<(i64, i64), Error>)
    ensures
        match r {
            Ok(pair) => two_ints(params@) == Some(pair),
            Err(e) => two_ints(params@) is None && e@ == ErrorView::InvalidArgument,
        },
{
    let (a, b) = take_2(params)?;
    let x = into_int(&a)?;
    let y = into_int(&b)?;
    Ok((x, y))
}

pub fn divide(params: Form) -> (r: Result<Form, Error>)
    ensures
        result_view(r) == divide_spec(params@),
{
    let (a, b) = take_two_ints(params)?;
    match a.checked_div(b) {
        Some(q) => Ok(Form::integer(q)),
        None => Err(Error::InvalidArgument),
    }
}

fn compare(p: Primitive, params: Form) -> (r: Result<Form, Error>)
    ensures
        result_view(r) == compare_spec(p, params@),
{
    let (a, b) = take_two_ints(params)?;
    Ok(
        Form::boolean(
            match p {
                Primitive::Less => a < b,
                Primitive::LessEq => a <= b,
                Primitive::Greater => a > b,
                _ => a >= b,
            },
        ),
    )
}

pub fn eq(params: Form) -> (r: Result<Form, Error>)
    ensures
        result_view(r) == equal_spec(params@),
{
    let (a, b) = take_2(params)?;
    Ok(Form::boolean(a.eq(&b)))
}

fn answer(p: Primitive, form: &Form) -> (r: bool)
    ensures
        r == holds(p, form@),
{
    match p {
        Primitive::IsList => form.is_list(),
        Primitive::IsAtom => form.is_atom(),
        Primitive::IsNil => form.is_nil(),
        Primitive::IsTrue => matches!(form.kind, FormKind::Boolean(true)),
        Primitive::IsFalse => matches!(form.kind, FormKind::Boolean(false)),
        Primitive::IsSymbol => form.is_symbol(),
        Primitive::IsKeyword => form.is_keyword(),
        Primitive::IsVector => form.is_vector(),
        Primitive::IsSequential => form.is_sequential(),
        Primitive::IsMap => form.is_hash_map(),
        Primitive::IsFn => form.is_user_fn() || form.is_native_fn(),
        Primitive::IsString => form.is_string(),
        Primitive::IsNumber => form.is_number(),
        _ => form.is_macro(),
    }
}

fn question(p: Primitive, params: Form) -> (r: Result<Form, Error>)
    ensures
        result_view(r) == question_spec(p, params@),
{
    let form = take_1(params)?;
    Ok(Form::boolean(answer(p, &form)))
}

/// `(empty? xs)`: whether a sequence has no item.
pub open spec fn is_empty_spec(params: FormView) -> Result<FormView, ErrorView> {
    match one(params) {
        Some(form) => match sequence_items(form) {
            Some(items) => Ok(FormView::boolean(items.len() == 0)),
            None => invalid(),
        },
        None => invalid(),
    }
}

/// `(count xs)`: the number of items of a sequence.
pub open spec fn count_spec(params: FormView) -> Result<FormView, ErrorView> {
    match one(params) {
        Some(form) => match sequence_items(form) {
            Some(items) => if items.len() <= i64::MAX {
                Ok(FormView::integer(items.len() as i64))
            } else {
                Err(ErrorView::NumberConversion)
            },
            None => invalid(),
        },
        None => invalid(),
    }
}

/// `(cons x xs)`: the list of `x` and then the items of `xs`.
pub open spec fn cons_spec(params: FormView) -> Result<FormView, ErrorView> {
    match two(params) {
        Some((x, xs)) => match sequence_items(xs) {
            Some(items) => Ok(FormView::list(seq![x] + items)),
            None => invalid(),
        },
        None => invalid(),
    }
}

/// The items of the sequences from index `from` on, after `items`.
pub open spec fn concat_from(lists: Seq<FormView>, from: int, items: Seq<FormView>) -> Option<
    Seq<FormView>,
>
    decreases lists.len() - from,
{
    if 0 <= from < lists.len() {
        match sequence_items(lists[from]) {
            Some(more) => concat_from(lists, from + 1, items + more),
            None => None,
        }
    } else {
        Some(items)
    }
}

/// `(concat xs ..)`: the list of the items of all the sequences.
pub open spec fn concat_spec(params: FormView) -> Result<FormView, ErrorView> {
    match sequence_items(params) {
        Some(lists) => match concat_from(lists, 0, Seq::empty()) {
            Some(items) => Ok(FormView::list(items)),
            None => invalid(),
        },
        None => invalid(),
    }
}

/// `(vec xs)`: the vector of the items of a sequence.
pub open spec fn vec_spec(params: FormView) -> Result<FormView, ErrorView> {
    match one(params) {
        Some(form) => match sequence_items(form) {
            Some(items) => Ok(FormView::vector(items)),
            None => invalid(),
        },
        None => invalid(),
    }
}

/// `(nth xs i)`: the item at index `i`. A negative index is a
/// `NumberConversion`, one past the end an `IndexOutOfRange`.
pub open spec fn nth_spec(params: FormView) -> Result<FormView, ErrorView> {
    match two(params) {
        Some((xs, i)) => match (sequence_items(xs), integer_of(i)) {
            (Some(items), Some(index)) => if index < 0 || index > usize::MAX {
                Err(ErrorView::NumberConversion)
            } else if index < items.len() {
                Ok(items[index as int])
            } else {
                Err(ErrorView::IndexOutOfRange(index as usize))
            },
            _ => invalid(),
        },
        None => invalid(),
    }
}

/// Whether a form is `nil` or a list or vector without items.
pub open spec fn nothing_in(form: FormView) -> bool {
    form.kind is Nil || (items_of(form.kind) matches Some(items) && items.len() == 0)
}

/// `(first xs)`: `nil` for `nil` and for an empty list or vector, the first
/// item of any other list.
pub open spec fn first_spec(params: FormView) -> Result<FormView, ErrorView> {
    match one(params) {
        Some(form) => if nothing_in(form) {
            Ok(FormView::nil())
        } else {
            match list_items(form) {
                Some(items) => Ok(items[0]),
                None => invalid(),
            }
        },
        None => invalid(),
    }
}

/// `(rest xs)`: the empty list for `nil` and for an empty list or vector,
/// the list of all items but the first of any other list.
pub open spec fn rest_spec(params: FormView) -> Result<FormView, ErrorView> {
    match one(params) {
        Some(form) => if nothing_in(form) {
            Ok(FormView::list(Seq::empty()))
        } else {
            match list_items(form) {
                Some(items) => Ok(FormView::list(items.skip(1))),
                None => invalid(),
            }
        },
        None => invalid(),
    }
}

/// `(vector x ..)`: the vector of the arguments.
pub open spec fn vector_spec(params: FormView) -> Result<FormView, ErrorView> {
    match sequence_items(params) {
        Some(items) => Ok(FormView::vector(items)),
        None => invalid(),
    }
}

/// The characters of a text, each as a string of its own.
pub open spec fn letters(text: Seq<char>) -> Seq<FormView> {
    Seq::new(text.len(), |i: int| FormView::string(seq![text[i]]))
}

/// `(seq x)`: the items of a list or vector, or the characters of a string,
/// as a list; `nil` where there are none, and for `nil`.
pub open spec fn seq_spec(params: FormView) -> Result<FormView, ErrorView> {
    match one(params) {
        Some(form) => match form.kind {
            KindView::Nil => Ok(FormView::nil()),
            KindView::List(items) => if items.len() == 0 {
                Ok(FormView::nil())
            } else {
                Ok(FormView::list(items))
            },
            KindView::Vector(items) => if items.len() == 0 {
                Ok(FormView::nil())
            } else {
                Ok(FormView::list(items))
            },
            KindView::String(text) => if text.len() == 0 {
                Ok(FormView::nil())
            } else {
                Ok(FormView::list(letters(text)))
            },
            _ => invalid(),
        },
        None => invalid(),
    }
}

/// `(conj xs x ..)`: a list with each `x` put in front in turn, or a vector
/// with them added at the end.
pub open spec fn conj_spec(params: FormView) -> Result<FormView, ErrorView> {
    match at_least(params, 1) {
        Some(args) => match args[0].kind {
            KindView::List(items) => Ok(FormView::list(args.skip(1).reverse() + items)),
            KindView::Vector(items) => Ok(FormView::vector(items + args.skip(1))),
            _ => invalid(),
        },
        None => invalid(),
    }
}

/// `(symbol s)`: the symbol named by a string.
pub open spec fn symbol_spec(params: FormView) -> Result<FormView, ErrorView> {
    match one(params) {
        Some(form) => match string_of(form) {
            Some(text) => Ok(FormView::symbol(text)),
            None => invalid(),
        },
        None => invalid(),
    }
}

/// `(keyword s)`: the keyword named by a string; a keyword is itself.
pub open spec fn keyword_spec(params: FormView) -> Result<FormView, ErrorView> {
    match one(params) {
        Some(form) => match form.kind {
            KindView::String(text) => Ok(FormView::keyword(text)),
            KindView::Keyword(_) => Ok(form),
            _ => invalid(),
        },
        None => invalid(),
    }
}

/// `(throw x)`: fails with `x`.
pub open spec fn throw_spec(params: FormView) -> Result<FormView, ErrorView> {
    match one(params) {
        Some(form) => Err(ErrorView::UserError(form)),
        None => invalid(),
    }
}

/// `(meta x)`: the metadata of `x`, or `nil`.
pub open spec fn meta_spec(params: FormView) -> Result<FormView, ErrorView> {
    match one(params) {
        Some(form) => match form.meta {
            Some(m) => Ok(*m),
            None => Ok(FormView::nil()),
        },
        None => invalid(),
    }
}

/// Whether a form can carry metadata: collections and functions can.
pub open spec fn takes_meta(form: FormView) -> bool {
    form.kind is List || form.kind is Vector || form.kind is HashMap || crate::eval::is_function(
        form,
    ) || form.kind is NativeFn
}

/// `(with-meta x m)`: `x` with the metadata `m`.
pub open spec fn with_meta_spec(params: FormView) -> Result<FormView, ErrorView> {
    match two(params) {
        Some((target, m)) => if takes_meta(target) {
            Ok(FormView { kind: target.kind, meta: Some(Box::new(m)) })
        } else {
            invalid()
        },
        None => invalid(),
    }
}

pub fn list(params: Form) -> (r: Result<Form, Error>)
    ensures
        result_view(r) == Ok::<FormView, ErrorView>(params@),
{
    Ok(params)
}

pub fn is_empty(params: Form) -> (r: Result<Form, Error>)
    ensures
        result_view(r) == is_empty_spec(params@),
{
    let form = take_1(params)?;
    let items = into_forms(form)?;
    Ok(Form::boolean(items.len() == 0))
}

pub fn count(params: Form) -> (r: Result<Form, Error>)
    ensures
        result_view(r) == count_spec(params@),
{
    let form = take_1(params)?;
    let items = into_forms(form)?;
    let n = items.len();
    if n as u128 <= i64::MAX as u128 {
        Ok(Form::integer(n as i64))
    } else {
        Err(Error::NumberConversion)
    }
}

pub fn cons(params: Form) -> (r: Result<Form, Error>)
    ensures
        result_view(r) == cons_spec(params@),
{
    let (x, xs) = take_2(params)?;
    let mut items = into_forms(xs)?;
    let ghost tail = views(items@);
    items.insert(0, x);
    assert(views(items@) =~= seq![x@] + tail);
    Ok(Form::list(items))
}

pub fn concat(params: Form) -> (r: Result<Form, Error>)
    ensures
        result_view(r) == concat_spec(params@),
{
    let lists = into_forms(params)?;
    let ghost all = views(lists@);
    let mut todo = crate::convert::reversed(lists);
    let mut items: Vec<Form> = Vec::new();
    assert(views(items@) =~= Seq::empty());
    while todo.len() > 0
        invariant
            todo@.len() <= all.len(),
            sequence_items(params@) == Some(all),
            forall|j: int|
                0 <= j < todo@.len() ==> (#[trigger] todo@[j])@ == all[all.len() - 1 - j],
            concat_from(all, 0, Seq::empty()) == concat_from(
                all,
                all.len() - todo@.len(),
                views(items@),
            ),
        decreases todo.len(),
    {
        let ghost before = views(items@);
        let one_list = todo.pop().unwrap();
        let mut more = into_forms(one_list)?;
        let ghost added = views(more@);
        items.append(&mut more);
        assert(views(items@) =~= before + added);
    }
    Ok(Form::list(items))
}

pub fn vec_(params: Form) -> (r: Result<Form, Error>)
    ensures
        result_view(r) == vec_spec(params@),
{
    let form = take_1(params)?;
    let items = into_forms(form)?;
    Ok(Form::vector(items))
}

pub fn nth(params: Form) -> (r: Result<Form, Error>)
    ensures
        result_view(r) == nth_spec(params@),
{
    let (xs, i) = take_2(params)?;
    let index = into_int(&i);
    let items = into_forms(xs)?;
    let index = index?;
    if index < 0 || index as u128 > usize::MAX as u128 {
        return Err(Error::NumberConversion);
    }
    let index = index as usize;
    if index < items.len() {
        Ok(items[index].clone())
    } else {
        Err(Error::IndexOutOfRange(index))
    }
}

fn has_nothing(form: &Form) -> (r: bool)
    ensures
        r == nothing_in(form@),
{
    form.is_nil() || form.is_empty_sequential()
}

pub fn first(params: Form) -> (r: Result<Form, Error>)
    ensures
        result_view(r) == first_spec(params@),
{
    let form = take_1(params)?;
    if has_nothing(&form) {
        return Ok(Form::nil());
    }
    proof {
        lemma_collection_views(form.kind);
    }
    match form.kind {
        FormKind::List(items) => Ok(items[0].clone()),
        _ => Err(Error::InvalidArgument),
    }
}

pub fn rest(params: Form) -> (r: Result<Form, Error>)
    ensures
        result_view(r) == rest_spec(params@),
{
    let form = take_1(params)?;
    if has_nothing(&form) {
        return Ok(Form::empty_list());
    }
    proof {
        lemma_collection_views(form.kind);
    }
    match form.kind {
        FormKind::List(items) => {
            let mut items = items;
            let ghost all = views(items@);
            let _ = items.remove(0);
            assert(views(items@) =~= all.skip(1));
            Ok(Form::list(items))
        },
        _ => Err(Error::InvalidArgument),
    }
}

pub fn vector(params: Form) -> (r: Result<Form, Error>)
    ensures
        result_view(r) == vector_spec(params@),
{
    let items = into_forms(params)?;
    Ok(Form::vector(items))
}

pub fn seq(params: Form) -> (r: Result<Form, Error>)
    ensures
        result_view(r) == seq_spec(params@),
{
    let form = take_1(params)?;
    proof {
        lemma_collection_views(form.kind);
    }
    match form.kind {
        FormKind::Nil => Ok(Form::nil()),
        FormKind::List(items) => if items.len() == 0 {
            Ok(Form::nil())
        } else {
            Ok(Form::list(items))
        },
        FormKind::Vector(items) => if items.len() == 0 {
            Ok(Form::nil())
        } else {
            Ok(Form::list(items))
        },
        FormKind::String(text) => {
            let chars = chars_of(text.as_str());
            if chars.len() == 0 {
                return Ok(Form::nil());
            }
            let mut items: Vec<Form> = Vec::new();
            let mut i: usize = 0;
            while i < chars.len()
                invariant
                    i <= chars.len(),
                    items@.len() == i,
                    forall|j: int|
                        0 <= j < i ==> (#[trigger] items@[j])@ == FormView::string(
                            seq![chars@[j]],
                        ),
                decreases chars.len() - i,
            {
                let mut one_char = String::new();
                one_char.push(chars[i]);
                assert(one_char@ =~= seq![chars@[i as int]]);
                items.push(Form::string(one_char.as_str()));
                i = i + 1;
            }
            assert(views(items@) =~= letters(text@));
            Ok(Form::list(items))
        },
        _ => Err(Error::InvalidArgument),
    }
}

pub fn conj(params: Form) -> (r: Result<Form, Error>)
    ensures
        result_view(r) == conj_spec(params@),
{
    let (fixed, rest) = take_with_rest(params, 1)?;
    let ghost given = views(fixed@) + views(rest.values@);
    let ghost added = views(rest.values@);
    assert(added =~= given.skip(1));
    let mut fixed = fixed;
    let collection = fixed.pop().unwrap();
    proof {
        lemma_collection_views(collection.kind);
    }
    match collection.kind {
        FormKind::List(items) => {
            let mut items = items;
            let ghost old_items = views(items@);
            let mut front = crate::convert::reversed(rest.values);
            assert(views(front@) =~= added.reverse());
            front.append(&mut items);
            assert(views(front@) =~= added.reverse() + old_items);
            Ok(Form::list(front))
        },
        FormKind::Vector(items) => {
            let mut items = items;
            let ghost old_items = views(items@);
            let mut more = rest.values;
            items.append(&mut more);
            assert(views(items@) =~= old_items + added);
            Ok(Form::vector(items))
        },
        _ => Err(Error::InvalidArgument),
    }
}

pub fn symbol(params: Form) -> (r: Result<Form, Error>)
    ensures
        result_view(r) == symbol_spec(params@),
{
    let form = take_1(params)?;
    let text = into_string(form)?;
    Ok(Form::symbol(text.as_str()))
}

pub fn keyword(params: Form) -> (r: Result<Form, Error>)
    ensures
        result_view(r) == keyword_spec(params@),
{
    let form = take_1(params)?;
    match form.kind {
        FormKind::String(text) => Ok(Form::keyword(text.as_str())),
        FormKind::Keyword(text) => Ok(Form { kind: FormKind::Keyword(text), meta: form.meta }),
        _ => Err(Error::InvalidArgument),
    }
}

pub fn throw(params: Form) -> (r: Result<Form, Error>)
    ensures
        result_view(r) == throw_spec(params@),
{
    let form = take_1(params)?;
    Err(Error::UserError(form))
}

pub fn meta(params: Form) -> (r: Result<Form, Error>)
    ensures
        result_view(r) == meta_spec(params@),
{
    let form = take_1(params)?;
    match form.meta {
        Some(m) => Ok(*m),
        None => Ok(Form::nil()),
    }
}

pub fn with_meta(params: Form) -> (r: Result<Form, Error>)
    ensures
        result_view(r) == with_meta_spec(params@),
{
    let (target, m) = take_2(params)?;
    if target.is_list() || target.is_vector() || target.is_hash_map() || target.is_user_fn()
        || target.is_native_fn() {
        Ok(Form { kind: target.kind, meta: Some(Box::new(m)) })
    } else {
        Err(Error::InvalidArgument)
    }
}

/// `(hash-map k v ..)`: the map of the keys and values, put in turn.
pub open spec fn hash_map_spec(params: FormView) -> Result<FormView, ErrorView> {
    match sequence_items(params) {
        Some(items) => if items.len() % 2 == 1 {
            invalid()
        } else {
            Ok(FormView::hash_map(put_pairs(items, 0, Seq::empty())))
        },
        None => invalid(),
    }
}

/// `(assoc m k v ..)`: the map `m` with the keys and values put in turn.
pub open spec fn assoc_spec(params: FormView) -> Result<FormView, ErrorView> {
    match at_least(params, 1) {
        Some(args) => match entries_of(args[0]) {
            Some(entries) => if (args.len() - 1) % 2 == 0 {
                Ok(FormView::hash_map(put_pairs(args.skip(1), 0, entries)))
            } else {
                invalid()
            },
            None => invalid(),
        },
        None => invalid(),
    }
}

/// The map without the first entry whose key equals `key`.
pub open spec fn without(entries: Seq<(FormView, FormView)>, key: FormView) -> Seq<
    (FormView, FormView),
> {
    match first_key(entries, key) {
        Some(i) => entries.remove(i),
        None => entries,
    }
}

/// The map without each of the keys from index `from` on, taken out in turn.
pub open spec fn without_all(
    entries: Seq<(FormView, FormView)>,
    keys: Seq<FormView>,
    from: int,
) -> Seq<(FormView, FormView)>
    decreases keys.len() - from,
{
    if 0 <= from < keys.len() {
        without_all(without(entries, keys[from]), keys, from + 1)
    } else {
        entries
    }
}

/// `(dissoc m k ..)`: the map `m` without the keys.
pub open spec fn dissoc_spec(params: FormView) -> Result<FormView, ErrorView> {
    match at_least(params, 1) {
        Some(args) => match entries_of(args[0]) {
            Some(entries) => Ok(FormView::hash_map(without_all(entries, args.skip(1), 0))),
            None => invalid(),
        },
        None => invalid(),
    }
}

/// The map and the key of a function that takes the two.
pub open spec fn map_and_key(params: FormView) -> Option<(Seq<(FormView, FormView)>, FormView)> {
    match two(params) {
        Some((m, key)) => match entries_of(m) {
            Some(entries) => Some((entries, key)),
            None => None,
        },
        None => None,
    }
}

/// `(get m k)`: the value under the key, or `nil`.
pub open spec fn get_spec(params: FormView) -> Result<FormView, ErrorView> {
    match map_and_key(params) {
        Some((entries, key)) => match first_key(entries, key) {
            Some(i) => Ok(entries[i].1),
            None => Ok(FormView::nil()),
        },
        None => invalid(),
    }
}

/// `(contains? m k)`: whether the map has the key.
pub open spec fn contains_spec(params: FormView) -> Result<FormView, ErrorView> {
    match map_and_key(params) {
        Some((entries, key)) => Ok(FormView::boolean(first_key(entries, key) is Some)),
        None => invalid(),
    }
}

/// The entries of the one argument, which is a map.
pub open spec fn one_map(params: FormView) -> Option<Seq<(FormView, FormView)>> {
    match one(params) {
        Some(m) => entries_of(m),
        None => None,
    }
}

/// `(keys m)`: the keys, in the order of the entries.
pub open spec fn keys_spec(params: FormView) -> Result<FormView, ErrorView> {
    match one_map(params) {
        Some(entries) => Ok(FormView::list(Seq::new(entries.len(), |i: int| entries[i].0))),
        None => invalid(),
    }
}

/// `(vals m)`: the values, in the order of the entries.
pub open spec fn vals_spec(params: FormView) -> Result<FormView, ErrorView> {
    match one_map(params) {
        Some(entries) => Ok(FormView::list(Seq::new(entries.len(), |i: int| entries[i].1))),
        None => invalid(),
    }
}

pub fn hash_map(params: Form) -> (r: Result<Form, Error>)
    ensures
        result_view(r) == hash_map_spec(params@),
{
    let items = into_forms(params)?;
    if items.len() % 2 == 1 {
        return Err(Error::InvalidArgument);
    }
    let empty: Vec<(Form, Form)> = Vec::new();
    assert(entry_views(empty@) =~= Seq::empty());
    Ok(Form::hash_map(insert_pairs(empty, items)))
}

/// The map that is the first argument, and the other arguments.
fn take_map_and_rest(params: Form) -> (r: Result<(Vec<(Form, Form)>, Vec<Form>), Error>)
    ensures
        match r {
            Ok((entries, rest)) => at_least(params@, 1) matches Some(args) && entries_of(args[0])
                == Some(entry_views(entries@)) && views(rest@) == args.skip(1),
            Err(e) => e@ == ErrorView::InvalidArgument && !(at_least(params@, 1) matches Some(args)
                && entries_of(args[0]) is Some),
        },
{
    let (fixed, rest) = take_with_rest(params, 1)?;
    let ghost given = views(fixed@) + views(rest.values@);
    assert(views(rest.values@) =~= given.skip(1));
    let mut fixed = fixed;
    let m = fixed.pop().unwrap();
    let entries = into_entries(m)?;
    Ok((entries, rest.values))
}

pub fn assoc(params: Form) -> (r: Result<Form, Error>)
    ensures
        result_view(r) == assoc_spec(params@),
{
    let (entries, rest) = take_map_and_rest(params)?;
    if rest.len() % 2 == 0 {
        Ok(Form::hash_map(insert_pairs(entries, rest)))
    } else {
        Err(Error::InvalidArgument)
    }
}

pub fn dissoc(params: Form) -> (r: Result<Form, Error>)
    ensures
        result_view(r) == dissoc_spec(params@),
{
    let (entries, keys) = take_map_and_rest(params)?;
    let ghost start = entry_views(entries@);
    let mut entries = entries;
    let mut i: usize = 0;
    while i < keys.len()
        invariant
            i <= keys.len(),
            without_all(start, views(keys@), 0) == without_all(
                entry_views(entries@),
                views(keys@),
                i as int,
            ),
        decreases keys.len() - i,
    {
        let ghost before = entry_views(entries@);
        match find_key(&entries, &keys[i]) {
            Some(j) => {
                let _ = entries.remove(j);
                assert(entry_views(entries@) =~= before.remove(j as int));
            },
            None => {},
        }
        i = i + 1;
    }
    Ok(Form::hash_map(entries))
}

fn take_map_and_key(params: Form) -> (r: Result<(Vec<(Form, Form)>, Form), Error>)
    ensures
        match r {
            Ok((entries, key)) => map_and_key(params@) == Some((entry_views(entries@), key@)),
            Err(e) => e@ == ErrorView::InvalidArgument && map_and_key(params@) is None,
        },
{
    let (m, key) = take_2(params)?;
    let entries = into_entries(m)?;
    Ok((entries, key))
}

pub fn get(params: Form) -> (r: Result<Form, Error>)
    ensures
        result_view(r) == get_spec(params@),
{
    let (entries, key) = take_map_and_key(params)?;
    match find_key(&entries, &key) {
        Some(i) => Ok(entries[i].1.clone()),
        None => Ok(Form::nil()),
    }
}

pub fn contains(params: Form) -> (r: Result<Form, Error>)
    ensures
        result_view(r) == contains_spec(params@),
{
    let (entries, key) = take_map_and_key(params)?;
    Ok(Form::boolean(find_key(&entries, &key).is_some()))
}

fn take_one_map(params: Form) -> (r: Result<Vec<(Form, Form)>, Error>)
    ensures
        match r {
            Ok(entries) => one_map(params@) == Some(entry_views(entries@)),
            Err(e) => e@ == ErrorView::InvalidArgument && one_map(params@) is None,
        },
{
    let m = take_1(params)?;
    into_entries(m)
}

pub fn keys(params: Form) -> (r: Result<Form, Error>)
    ensures
        result_view(r) == keys_spec(params@),
{
    let entries = take_one_map(params)?;
    let mut items: Vec<Form> = Vec::new();
    let mut i: usize = 0;
    while i < entries.len()
        invariant
            i <= entries.len(),
            items@.len() == i,
            forall|j: int| 0 <= j < i ==> (#[trigger] items@[j])@ == entry_views(entries@)[j].0,
        decreases entries.len() - i,
    {
        items.push(entries[i].0.clone());
        i = i + 1;
    }
    assert(views(items@) =~= Seq::new(
        entry_views(entries@).len(),
        |i: int| entry_views(entries@)[i].0,
    ));
    Ok(Form::list(items))
}

pub fn vals(params: Form) -> (r: Result<Form, Error>)
    ensures
        result_view(r) == vals_spec(params@),
{
    let entries = take_one_map(params)?;
    let mut items: Vec<Form> = Vec::new();
    let mut i: usize = 0;
    while i < entries.len()
        invariant
            i <= entries.len(),
            items@.len() == i,
            forall|j: int| 0 <= j < i ==> (#[trigger] items@[j])@ == entry_views(entries@)[j].1,
        decreases entries.len() - i,
    {
        items.push(entries[i].1.clone());
        i = i + 1;
    }
    assert(views(items@) =~= Seq::new(
        entry_views(entries@).len(),
        |i: int| entry_views(entries@)[i].1,
    ));
    Ok(Form::list(items))
}

/// The forms from index `from` on, each as text for display, one after the
/// other.
pub open spec fn display_all(items: Seq<FormView>, from: int, store: StoreView) -> Seq<char>
    decreases items.len() - from,
{
    if 0 <= from < items.len() {
        render(items[from], store, false, ATOM_DEPTH as nat) + display_all(items, from + 1, store)
    } else {
        Seq::empty()
    }
}

/// `(pr-str x ..)`: the arguments printed readably, separated by spaces.
pub open spec fn pr_str_spec(params: FormView, store: StoreView) -> Result<FormView, ErrorView> {
    match sequence_items(params) {
        Some(items) => Ok(
            FormView::string(render_items(items, 0, store, true, ATOM_DEPTH as nat)),
        ),
        None => invalid(),
    }
}

/// `(str x ..)`: the arguments printed for display, one after the other.
pub open spec fn str_spec(params: FormView, store: StoreView) -> Result<FormView, ErrorView> {
    match sequence_items(params) {
        Some(items) => Ok(FormView::string(display_all(items, 0, store))),
        None => invalid(),
    }
}

/// `(prn x ..)` and `(println x ..)`: the arguments, separated by spaces, as
/// one more printed line; readably for `prn`, for display for `println`.
pub open spec fn print_spec(params: FormView, store: StoreView, readably: bool) -> Outcome {
    match sequence_items(params) {
        Some(items) => done(
            FormView::nil(),
            store.print(render_items(items, 0, store, readably, ATOM_DEPTH as nat)),
        ),
        None => failed(ErrorView::InvalidArgument, store),
    }
}

/// The text of the one argument, which is a string.
pub open spec fn one_string(params: FormView) -> Option<Seq<char>> {
    match one(params) {
        Some(form) => string_of(form),
        None => None,
    }
}

/// `(read-string s)`: the form that the text holds.
pub open spec fn read_string_spec(params: FormView) -> Result<FormView, ErrorView> {
    match one_string(params) {
        Some(text) => read_spec(text),
        None => invalid(),
    }
}

/// `(slurp path)`: the text of the file, where the host has handed it in.
pub open spec fn slurp_spec(params: FormView, store: StoreView) -> Result<FormView, ErrorView> {
    match one_string(params) {
        Some(path) => if store.files.contains_key(path) {
            Ok(FormView::string(store.files[path]))
        } else {
            Err(ErrorView::FileNotLoaded(path))
        },
        None => invalid(),
    }
}

/// `(atom x)`: a new cell that holds `x`.
pub open spec fn atom_spec(params: FormView, store: StoreView) -> Outcome {
    match one(params) {
        Some(form) => done(
            FormView::of(KindView::Atom(store.next_atom())),
            store.with_atom(form),
        ),
        None => failed(ErrorView::InvalidArgument, store),
    }
}

/// `(deref a)`: what the cell holds.
pub open spec fn deref_spec(params: FormView, store: StoreView) -> Result<FormView, ErrorView> {
    match one(params) {
        Some(form) => match atom_of(form) {
            Some(atom) => match store.deref(atom) {
                Some(held) => Ok(held),
                None => invalid(),
            },
            None => invalid(),
        },
        None => invalid(),
    }
}

/// `(reset! a x)`: puts `x` into the cell; the result is `x`.
pub open spec fn reset_spec(params: FormView, store: StoreView) -> Outcome {
    match two(params) {
        Some((a, x)) => match atom_of(a) {
            Some(atom) => if store.deref(atom) is Some {
                done(x, store.assign(atom, x))
            } else {
                failed(ErrorView::InvalidArgument, store)
            },
            None => failed(ErrorView::InvalidArgument, store),
        },
        None => failed(ErrorView::InvalidArgument, store),
    }
}

pub fn pr_str(params: Form, store: &Store) -> (r: Result<Form, Error>)
    ensures
        result_view(r) == pr_str_spec(params@, store@),
{
    let items = into_forms(params)?;
    let mut text = String::new();
    write_items(&mut text, &items, store, true, ATOM_DEPTH);
    assert(text@ =~= render_items(views(items@), 0, store@, true, ATOM_DEPTH as nat));
    Ok(Form::string(text.as_str()))
}

pub fn str_(params: Form, store: &Store) -> (r: Result<Form, Error>)
    ensures
        result_view(r) == str_spec(params@, store@),
{
    let items = into_forms(params)?;
    let mut text = String::new();
    let mut i: usize = 0;
    while i < items.len()
        invariant
            i <= items.len(),
            display_all(views(items@), 0, store@) == text@ + display_all(
                views(items@),
                i as int,
                store@,
            ),
        decreases items.len() - i,
    {
        let ghost before = text@;
        write_form(&mut text, &items[i], store, false, ATOM_DEPTH);
        assert(text@ + display_all(views(items@), i + 1, store@) =~= before + display_all(
            views(items@),
            i as int,
            store@,
        ));
        i = i + 1;
    }
    assert(text@ =~= display_all(views(items@), 0, store@));
    Ok(Form::string(text.as_str()))
}

fn print(params: Form, store: &mut Store, readably: bool) -> (r: Result<Form, Error>)
    ensures
        outcome(r, final(store)@) == print_spec(params@, old(store)@, readably),
{
    let items = into_forms(params)?;
    let mut text = String::new();
    write_items(&mut text, &items, store, readably, ATOM_DEPTH);
    assert(text@ =~= render_items(views(items@), 0, store@, readably, ATOM_DEPTH as nat));
    store.print(text);
    Ok(Form::nil())
}

pub fn prn(params: Form, store: &mut Store) -> (r: Result<Form, Error>)
    ensures
        outcome(r, final(store)@) == print_spec(params@, old(store)@, true),
{
    print(params, store, true)
}

pub fn println_(params: Form, store: &mut Store) -> (r: Result<Form, Error>)
    ensures
        outcome(r, final(store)@) == print_spec(params@, old(store)@, false),
{
    print(params, store, false)
}

fn take_one_string(params: Form) -> (r: Result<String, Error>)
    ensures
        match r {
            Ok(text) => one_string(params@) == Some(text@),
            Err(e) => e@ == ErrorView::InvalidArgument && one_string(params@) is None,
        },
{
    let form = take_1(params)?;
    into_string(form)
}

pub fn read_string(params: Form, store: &Store) -> (r: Result<Form, Error>)
    ensures
        result_view(r) == read_string_spec(params@),
{
    let text = take_one_string(params)?;
    read_str(text.as_str(), store.escapes())
}

pub fn slurp(params: Form, store: &Store) -> (r: Result<Form, Error>)
    ensures
        result_view(r) == slurp_spec(params@, store@),
{
    let path = take_one_string(params)?;
    match store.file(path.as_str()) {
        Some(text) => Ok(Form::string(text.as_str())),
        None => Err(Error::FileNotLoaded(path)),
    }
}

pub fn atom(params: Form, store: &mut Store) -> (r: Result<Form, Error>)
    ensures
        outcome(r, final(store)@) == atom_spec(params@, old(store)@),
{
    let form = take_1(params)?;
    Ok(Form::atom(Atom::new(form, store)))
}

pub fn deref(params: Form, store: &Store) -> (r: Result<Form, Error>)
    ensures
        result_view(r) == deref_spec(params@, store@),
{
    let form = take_1(params)?;
    let cell = into_atom(&form)?;
    match cell.get(store) {
        Some(held) => Ok(held),
        None => Err(Error::InvalidArgument),
    }
}

pub fn reset(params: Form, store: &mut Store) -> (r: Result<Form, Error>)
    ensures
        outcome(r, final(store)@) == reset_spec(params@, old(store)@),
{
    let (a, x) = take_2(params)?;
    let cell = into_atom(&a)?;
    if cell.get(store).is_none() {
        return Err(Error::InvalidArgument);
    }
    cell.set(store, x.clone());
    Ok(x)
}

pub fn readline(params: Form) -> (r: Result<Form, Error>)
    ensures
        result_view(r) == invalid(),
{
    Err(Error::InvalidArgument)
}

/// `nix::errno::Errno`, why a system call failed.
#[verifier::external_type_specification]
#[verifier::external_body]
pub struct ExErrno(nix::errno::Errno);

/// `nix::time::clock_gettime` on the monotonic clock: the seconds and the
/// nanoseconds of the reading. Nothing is promised of them.
#[verifier::external_body]
fn monotonic_clock() -> Result<(i64, i64), nix::errno::Errno> {
    nix::time::clock_gettime(nix::time::ClockId::CLOCK_MONOTONIC).map(
        |reading| (reading.tv_sec() as i64, reading.tv_nsec() as i64),
    )
}

/// A reading of the clock in milliseconds, wrapping at 64 bits.
pub open spec fn millis_of(seconds: i64, nanos: i64) -> i64 {
    match nanos.checked_div(1_000_000) {
        Some(part) => seconds.wrapping_mul(1000).wrapping_add(part),
        None => seconds.wrapping_mul(1000),
    }
}

/// A reading of the clock in milliseconds.
pub fn millis(seconds: i64, nanos: i64) -> (ms: i64)
    ensures
        ms == millis_of(seconds, nanos),
{
    match nanos.checked_div(1_000_000) {
        Some(part) => seconds.wrapping_mul(1000).wrapping_add(part),
        None => seconds.wrapping_mul(1000),
    }
}

/// The store after an attempt to read the clock: with the reading, in
/// milliseconds, as the time that the program sees, or as it was where the
/// attempt failed.
pub open spec fn recorded(store: StoreView, reading: Result<(i64, i64), nix::errno::Errno>) -> StoreView {
    match reading {
        Ok((seconds, nanos)) => StoreView { clock: millis_of(seconds, nanos), ..store },
        Err(_) => store,
    }
}

/// Takes what an attempt to read the clock gave. A reading, in seconds and
/// nanoseconds, becomes the time that the program sees; a failure is a
/// `Clock` error and changes nothing.
pub fn record_reading(store: &mut Store, reading: Result<(i64, i64), nix::errno::Errno>) -> (r:
    Result<(), Error>)
    ensures
        final(store)@ == recorded(old(store)@, reading),
        match reading {
            Ok(_) => r is Ok,
            Err(_) => r matches Err(e) && e@ == ErrorView::Clock,
        },
{
    match reading {
        Ok((seconds, nanos)) => {
            store.set_clock(millis(seconds, nanos));
            Ok(())
        },
        Err(_) => Err(Error::Clock),
    }
}

/// Reads the monotonic clock and sets the time that the program sees.
/// Nothing else in the store changes; where the clock cannot be read,
/// nothing changes at all.
pub fn sync_clock(store: &mut Store) -> (r: Result<(), Error>)
    ensures
        final(store)@ == (StoreView { clock: final(store)@.clock, ..old(store)@ }),
        r matches Err(e) ==> e@ == ErrorView::Clock && final(store)@ == old(store)@,
{
    record_reading(store, monotonic_clock())
}

/// `(time-ms)`: the time, in milliseconds, when the clock was last read.
pub fn time_ms(params: Form, store: &Store) -> (r: Result<Form, Error>)
    ensures
        result_view(r) == Ok::<FormView, ErrorView>(FormView::integer(store@.clock)),
{
    Ok(Form::integer(store.clock()))
}

/// What a built-in function that does not call back into the evaluator
/// gives on a list of arguments, and the store it leaves. (The three that do
/// call back are not functions of this kind: for them this is an
/// `InvalidArgument`.)
pub open spec fn simple_spec(p: Primitive, params: FormView, store: StoreView) -> Outcome {
    if is_question(p) {
        pure(question_spec(p, params), store)
    } else {
        match p {
            Primitive::Plus => pure(plus_spec(params), store),
            Primitive::Minus => pure(minus_spec(params), store),
            Primitive::Times => pure(times_spec(params), store),
            Primitive::Divide => pure(divide_spec(params), store),
            Primitive::ListOf => done(params, store),
            Primitive::IsEmpty => pure(is_empty_spec(params), store),
            Primitive::Count => pure(count_spec(params), store),
            Primitive::Equal => pure(equal_spec(params), store),
            Primitive::Less => pure(compare_spec(p, params), store),
            Primitive::LessEq => pure(compare_spec(p, params), store),
            Primitive::Greater => pure(compare_spec(p, params), store),
            Primitive::GreaterEq => pure(compare_spec(p, params), store),
            Primitive::PrStr => pure(pr_str_spec(params, store), store),
            Primitive::Str => pure(str_spec(params, store), store),
            Primitive::Prn => print_spec(params, store, true),
            Primitive::Println => print_spec(params, store, false),
            Primitive::ReadString => pure(read_string_spec(params), store),
            Primitive::Slurp => pure(slurp_spec(params, store), store),
            Primitive::NewAtom => atom_spec(params, store),
            Primitive::Deref => pure(deref_spec(params, store), store),
            Primitive::Reset => reset_spec(params, store),
            Primitive::Cons => pure(cons_spec(params), store),
            Primitive::Concat => pure(concat_spec(params), store),
            Primitive::ToVec => pure(vec_spec(params), store),
            Primitive::Nth => pure(nth_spec(params), store),
            Primitive::First => pure(first_spec(params), store),
            Primitive::Rest => pure(rest_spec(params), store),
            Primitive::ToSymbol => pure(symbol_spec(params), store),
            Primitive::ToKeyword => pure(keyword_spec(params), store),
            Primitive::VectorOf => pure(vector_spec(params), store),
            Primitive::Throw => pure(throw_spec(params), store),
            Primitive::HashMapOf => pure(hash_map_spec(params), store),
            Primitive::Assoc => pure(assoc_spec(params), store),
            Primitive::Dissoc => pure(dissoc_spec(params), store),
            Primitive::Get => pure(get_spec(params), store),
            Primitive::Contains => pure(contains_spec(params), store),
            Primitive::Keys => pure(keys_spec(params), store),
            Primitive::Vals => pure(vals_spec(params), store),
            Primitive::TimeMs => done(FormView::integer(store.clock), store),
            Primitive::Meta => pure(meta_spec(params), store),
            Primitive::WithMeta => pure(with_meta_spec(params), store),
            Primitive::SeqOf => pure(seq_spec(params), store),
            Primitive::Conj => pure(conj_spec(params), store),
            _ => failed(ErrorView::InvalidArgument, store),
        }
    }
}

fn asks(p: Primitive) -> (r: bool)
    ensures
        r == is_question(p),
{
    matches!(
        p,
        Primitive::IsList | Primitive::IsAtom | Primitive::IsNil | Primitive::IsTrue
            | Primitive::IsFalse | Primitive::IsSymbol | Primitive::IsKeyword | Primitive::IsVector
            | Primitive::IsSequential | Primitive::IsMap | Primitive::IsFn | Primitive::IsString
            | Primitive::IsNumber | Primitive::IsMacro
    )
}

/// Applies a built-in function that does not call back into the evaluator.
pub fn apply_simple(p: Primitive, params: Form, store: &mut Store) -> (r: Result<Form, Error>)
    ensures
        outcome(r, final(store)@) == simple_spec(p, params@, old(store)@),
{
    if asks(p) {
        return question(p, params);
    }
    match p {
        Primitive::Plus => plus(params),
        Primitive::Minus => minus(params),
        Primitive::Times => times(params),
        Primitive::Divide => divide(params),
        Primitive::ListOf => list(params),
        Primitive::IsEmpty => is_empty(params),
        Primitive::Count => count(params),
        Primitive::Equal => eq(params),
        Primitive::Less => compare(p, params),
        Primitive::LessEq => compare(p, params),
        Primitive::Greater => compare(p, params),
        Primitive::GreaterEq => compare(p, params),
        Primitive::PrStr => pr_str(params, store),
        Primitive::Str => str_(params, store),
        Primitive::Prn => prn(params, store),
        Primitive::Println => println_(params, store),
        Primitive::ReadString => read_string(params, store),
        Primitive::Slurp => slurp(params, store),
        Primitive::NewAtom => atom(params, store),
        Primitive::Deref => deref(params, store),
        Primitive::Reset => reset(params, store),
        Primitive::Cons => cons(params),
        Primitive::Concat => concat(params),
        Primitive::ToVec => vec_(params),
        Primitive::Nth => nth(params),
        Primitive::First => first(params),
        Primitive::Rest => rest(params),
        Primitive::ToSymbol => symbol(params),
        Primitive::ToKeyword => keyword(params),
        Primitive::VectorOf => vector(params),
        Primitive::Throw => throw(params),
        Primitive::HashMapOf => hash_map(params),
        Primitive::Assoc => assoc(params),
        Primitive::Dissoc => dissoc(params),
        Primitive::Get => get(params),
        Primitive::Contains => contains(params),
        Primitive::Keys => keys(params),
        Primitive::Vals => vals(params),
        Primitive::TimeMs => time_ms(params, store),
        Primitive::Meta => meta(params),
        Primitive::WithMeta => with_meta(params),
        Primitive::SeqOf => seq(params),
        Primitive::Conj => conj(params),
        _ => Err(Error::InvalidArgument),
    }
}


impl Primitive {
    /// The name under which the function is installed.
    pub open spec fn name_spec(self) -> Seq<char> {
        match self {
        Primitive::Plus => "+"@,
        Primitive::Minus => "-"@,
        Primitive::Times => "*"@,
        Primitive::Divide => "/"@,
        Primitive::ListOf => "list"@,
        Primitive::IsList => "list?"@,
        Primitive::IsEmpty => "empty?"@,
        Primitive::Count => "count"@,
        Primitive::Equal => "="@,
        Primitive::Less => "<"@,
        Primitive::LessEq => "<="@,
        Primitive::Greater => ">"@,
        Primitive::GreaterEq => ">="@,
        Primitive::PrStr => "pr-str"@,
        Primitive::Str => "str"@,
        Primitive::Prn => "prn"@,
        Primitive::Println => "println"@,
        Primitive::ReadString => "read-string"@,
        Primitive::Slurp => "slurp"@,
        Primitive::NewAtom => "atom"@,
        Primitive::IsAtom => "atom?"@,
        Primitive::Deref => "deref"@,
        Primitive::Reset => "reset!"@,
        Primitive::Swap => "swap!"@,
        Primitive::Cons => "cons"@,
        Primitive::Concat => "concat"@,
        Primitive::ToVec => "vec"@,
        Primitive::Nth => "nth"@,
        Primitive::First => "first"@,
        Primitive::Rest => "rest"@,
        Primitive::Apply => "apply"@,
        Primitive::MapOver => "map"@,
        Primitive::IsNil => "nil?"@,
        Primitive::IsTrue => "true?"@,
        Primitive::IsFalse => "false?"@,
        Primitive::ToSymbol => "symbol"@,
        Primitive::IsSymbol => "symbol?"@,
        Primitive::ToKeyword => "keyword"@,
        Primitive::IsKeyword => "keyword?"@,
        Primitive::VectorOf => "vector"@,
        Primitive::IsVector => "vector?"@,
        Primitive::IsSequential => "sequential?"@,
        Primitive::Throw => "throw"@,
        Primitive::HashMapOf => "hash-map"@,
        Primitive::IsMap => "map?"@,
        Primitive::Assoc => "assoc"@,
        Primitive::Dissoc => "dissoc"@,
        Primitive::Get => "get"@,
        Primitive::Contains => "contains?"@,
        Primitive::Keys => "keys"@,
        Primitive::Vals => "vals"@,
        Primitive::Readline => "readline"@,
        Primitive::TimeMs => "time-ms"@,
        Primitive::Meta => "meta"@,
        Primitive::WithMeta => "with-meta"@,
        Primitive::IsFn => "fn?"@,
        Primitive::IsString => "string?"@,
        Primitive::IsNumber => "number?"@,
        Primitive::IsMacro => "macro?"@,
        Primitive::SeqOf => "seq"@,
        Primitive::Conj => "conj"@,
        }
    }

    /// The name under which the function is installed.
    pub fn name(self) -> (name: &'static str)
        ensures
            name@ == self.name_spec(),
    {
        match self {
        Primitive::Plus => "+",
        Primitive::Minus => "-",
        Primitive::Times => "*",
        Primitive::Divide => "/",
        Primitive::ListOf => "list",
        Primitive::IsList => "list?",
        Primitive::IsEmpty => "empty?",
        Primitive::Count => "count",
        Primitive::Equal => "=",
        Primitive::Less => "<",
        Primitive::LessEq => "<=",
        Primitive::Greater => ">",
        Primitive::GreaterEq => ">=",
        Primitive::PrStr => "pr-str",
        Primitive::Str => "str",
        Primitive::Prn => "prn",
        Primitive::Println => "println",
        Primitive::ReadString => "read-string",
        Primitive::Slurp => "slurp",
        Primitive::NewAtom => "atom",
        Primitive::IsAtom => "atom?",
        Primitive::Deref => "deref",
        Primitive::Reset => "reset!",
        Primitive::Swap => "swap!",
        Primitive::Cons => "cons",
        Primitive::Concat => "concat",
        Primitive::ToVec => "vec",
        Primitive::Nth => "nth",
        Primitive::First => "first",
        Primitive::Rest => "rest",
        Primitive::Apply => "apply",
        Primitive::MapOver => "map",
        Primitive::IsNil => "nil?",
        Primitive::IsTrue => "true?",
        Primitive::IsFalse => "false?",
        Primitive::ToSymbol => "symbol",
        Primitive::IsSymbol => "symbol?",
        Primitive::ToKeyword => "keyword",
        Primitive::IsKeyword => "keyword?",
        Primitive::VectorOf => "vector",
        Primitive::IsVector => "vector?",
        Primitive::IsSequential => "sequential?",
        Primitive::Throw => "throw",
        Primitive::HashMapOf => "hash-map",
        Primitive::IsMap => "map?",
        Primitive::Assoc => "assoc",
        Primitive::Dissoc => "dissoc",
        Primitive::Get => "get",
        Primitive::Contains => "contains?",
        Primitive::Keys => "keys",
        Primitive::Vals => "vals",
        Primitive::Readline => "readline",
        Primitive::TimeMs => "time-ms",
        Primitive::Meta => "meta",
        Primitive::WithMeta => "with-meta",
        Primitive::IsFn => "fn?",
        Primitive::IsString => "string?",
        Primitive::IsNumber => "number?",
        Primitive::IsMacro => "macro?",
        Primitive::SeqOf => "seq",
        Primitive::Conj => "conj",
        }
    }
}

/// The form of a built-in function.
pub open spec fn native(p: Primitive) -> FormView {
    FormView::of(KindView::NativeFn(p))
}

/// How many built-in functions there are.
pub const PRIMITIVES: usize = 61;

/// The built-in functions, in the order in which they are installed.
pub open spec fn primitive_at(i: int) -> Primitive {
    if i == 0 {
        Primitive::Plus
    } else if i == 1 {
        Primitive::Minus
    } else if i == 2 {
        Primitive::Times
    } else if i == 3 {
        Primitive::Divide
    } else if i == 4 {
        Primitive::ListOf
    } else if i == 5 {
        Primitive::IsList
    } else if i == 6 {
        Primitive::IsEmpty
    } else if i == 7 {
        Primitive::Count
    } else if i == 8 {
        Primitive::Equal
    } else if i == 9 {
        Primitive::Less
    } else if i == 10 {
        Primitive::LessEq
    } else if i == 11 {
        Primitive::Greater
    } else if i == 12 {
        Primitive::GreaterEq
    } else if i == 13 {
        Primitive::PrStr
    } else if i == 14 {
        Primitive::Str
    } else if i == 15 {
        Primitive::Prn
    } else if i == 16 {
        Primitive::Println
    } else if i == 17 {
        Primitive::ReadString
    } else if i == 18 {
        Primitive::Slurp
    } else if i == 19 {
        Primitive::NewAtom
    } else if i == 20 {
        Primitive::IsAtom
    } else if i == 21 {
        Primitive::Deref
    } else if i == 22 {
        Primitive::Reset
    } else if i == 23 {
        Primitive::Swap
    } else if i == 24 {
        Primitive::Cons
    } else if i == 25 {
        Primitive::Concat
    } else if i == 26 {
        Primitive::ToVec
    } else if i == 27 {
        Primitive::Nth
    } else if i == 28 {
        Primitive::First
    } else if i == 29 {
        Primitive::Rest
    } else if i == 30 {
        Primitive::Apply
    } else if i == 31 {
        Primitive::MapOver
    } else if i == 32 {
        Primitive::IsNil
    } else if i == 33 {
        Primitive::IsTrue
    } else if i == 34 {
        Primitive::IsFalse
    } else if i == 35 {
        Primitive::ToSymbol
    } else if i == 36 {
        Primitive::IsSymbol
    } else if i == 37 {
        Primitive::ToKeyword
    } else if i == 38 {
        Primitive::IsKeyword
    } else if i == 39 {
        Primitive::VectorOf
    } else if i == 40 {
        Primitive::IsVector
    } else if i == 41 {
        Primitive::IsSequential
    } else if i == 42 {
        Primitive::Throw
    } else if i == 43 {
        Primitive::HashMapOf
    } else if i == 44 {
        Primitive::IsMap
    } else if i == 45 {
        Primitive::Assoc
    } else if i == 46 {
        Primitive::Dissoc
    } else if i == 47 {
        Primitive::Get
    } else if i == 48 {
        Primitive::Contains
    } else if i == 49 {
        Primitive::Keys
    } else if i == 50 {
        Primitive::Vals
    } else if i == 51 {
        Primitive::Readline
    } else if i == 52 {
        Primitive::TimeMs
    } else if i == 53 {
        Primitive::Meta
    } else if i == 54 {
        Primitive::WithMeta
    } else if i == 55 {
        Primitive::IsFn
    } else if i == 56 {
        Primitive::IsString
    } else if i == 57 {
        Primitive::IsNumber
    } else if i == 58 {
        Primitive::IsMacro
    } else if i == 59 {
        Primitive::SeqOf
    } else if i == 60 {
        Primitive::Conj
    } else {
        Primitive::Conj
    }
}

/// The built-in function of a given place in the order.
pub fn primitive(i: usize) -> (p: Primitive)
    ensures
        p == primitive_at(i as int),
{
    if i == 0 {
        Primitive::Plus
    } else if i == 1 {
        Primitive::Minus
    } else if i == 2 {
        Primitive::Times
    } else if i == 3 {
        Primitive::Divide
    } else if i == 4 {
        Primitive::ListOf
    } else if i == 5 {
        Primitive::IsList
    } else if i == 6 {
        Primitive::IsEmpty
    } else if i == 7 {
        Primitive::Count
    } else if i == 8 {
        Primitive::Equal
    } else if i == 9 {
        Primitive::Less
    } else if i == 10 {
        Primitive::LessEq
    } else if i == 11 {
        Primitive::Greater
    } else if i == 12 {
        Primitive::GreaterEq
    } else if i == 13 {
        Primitive::PrStr
    } else if i == 14 {
        Primitive::Str
    } else if i == 15 {
        Primitive::Prn
    } else if i == 16 {
        Primitive::Println
    } else if i == 17 {
        Primitive::ReadString
    } else if i == 18 {
        Primitive::Slurp
    } else if i == 19 {
        Primitive::NewAtom
    } else if i == 20 {
        Primitive::IsAtom
    } else if i == 21 {
        Primitive::Deref
    } else if i == 22 {
        Primitive::Reset
    } else if i == 23 {
        Primitive::Swap
    } else if i == 24 {
        Primitive::Cons
    } else if i == 25 {
        Primitive::Concat
    } else if i == 26 {
        Primitive::ToVec
    } else if i == 27 {
        Primitive::Nth
    } else if i == 28 {
        Primitive::First
    } else if i == 29 {
        Primitive::Rest
    } else if i == 30 {
        Primitive::Apply
    } else if i == 31 {
        Primitive::MapOver
    } else if i == 32 {
        Primitive::IsNil
    } else if i == 33 {
        Primitive::IsTrue
    } else if i == 34 {
        Primitive::IsFalse
    } else if i == 35 {
        Primitive::ToSymbol
    } else if i == 36 {
        Primitive::IsSymbol
    } else if i == 37 {
        Primitive::ToKeyword
    } else if i == 38 {
        Primitive::IsKeyword
    } else if i == 39 {
        Primitive::VectorOf
    } else if i == 40 {
        Primitive::IsVector
    } else if i == 41 {
        Primitive::IsSequential
    } else if i == 42 {
        Primitive::Throw
    } else if i == 43 {
        Primitive::HashMapOf
    } else if i == 44 {
        Primitive::IsMap
    } else if i == 45 {
        Primitive::Assoc
    } else if i == 46 {
        Primitive::Dissoc
    } else if i == 47 {
        Primitive::Get
    } else if i == 48 {
        Primitive::Contains
    } else if i == 49 {
        Primitive::Keys
    } else if i == 50 {
        Primitive::Vals
    } else if i == 51 {
        Primitive::Readline
    } else if i == 52 {
        Primitive::TimeMs
    } else if i == 53 {
        Primitive::Meta
    } else if i == 54 {
        Primitive::WithMeta
    } else if i == 55 {
        Primitive::IsFn
    } else if i == 56 {
        Primitive::IsString
    } else if i == 57 {
        Primitive::IsNumber
    } else if i == 58 {
        Primitive::IsMacro
    } else if i == 59 {
        Primitive::SeqOf
    } else if i == 60 {
        Primitive::Conj
    } else {
        Primitive::Conj
    }
}

/// Each built-in function under its name.
pub open spec fn native_bindings() -> Seq<(Seq<char>, FormView)> {
    Seq::new(PRIMITIVES as nat, |i: int| (primitive_at(i).name_spec(), native(primitive_at(i))))
}

/// The store with every built-in function bound in `env` under its name,
/// and the name of the host language under `*host-language*`.
pub open spec fn installed(store: StoreView, env: Env) -> StoreView {
    crate::env::bind_all(store, env, native_bindings(), 0).bind(
        env,
        "*host-language*"@,
        FormView::string("rust.2"@),
    )
}

fn install(env: Env, store: &mut Store, p: Primitive)
    ensures
        final(store)@ == old(store)@.bind(env, p.name_spec(), native(p)),
{
    env.set(store, p.name(), Form::native_fn(p));
}

/// The definition of `not`, in the language itself.
pub open spec fn not_source() -> Seq<char> {
    "(def! not (fn* (a) (if a false true)))"@
}

/// The definition of `load-file`, in the language itself.
pub open spec fn load_file_source() -> Seq<char> {
    "(def! load-file (fn* (f) (eval (read-string (str \"(do \" (slurp f) \"\\nnil)\")))))"@
}

/// The definition of the macro `cond`, in the language itself.
pub open spec fn cond_source() -> Seq<char> {
    "(defmacro! cond (fn* (& xs) (if (> (count xs) 0) (list 'if (first xs) (if (> (count xs) 1) (nth xs 1) (throw \"odd number of forms to cond\")) (cons 'cond (rest (rest xs)))))))"@
}

/// The store after the built-in functions are installed in `env` and the
/// three definitions written in the language itself are read and evaluated
/// there, each within `budget`; or the first error on the way.
pub open spec fn populate_spec(store: StoreView, env: Env, budget: Budget) -> Step<()> {
    let first = crate::eval_text_spec(not_source(), env, installed(store, env), budget);
    match first.value {
        Ok(_) => {
            let second = crate::eval_text_spec(load_file_source(), env, first.store, budget);
            match second.value {
                Ok(_) => {
                    let third = crate::eval_text_spec(cond_source(), env, second.store, budget);
                    match third.value {
                        Ok(_) => done((), third.store),
                        Err(e) => failed(e, third.store),
                    }
                },
                Err(e) => failed(e, second.store),
            }
        },
        Err(e) => failed(e, first.store),
    }
}

/// Installs the built-in functions in `env`, and with them `not`,
/// `load-file` and `cond`, which are written in the language itself.
pub fn populate(env: Env, store: &mut Store, budget: Budget) -> (r: Result<(), Error>)
    ensures
        (Step::<()> {
            value: match r {
                Ok(_) => Ok(()),
                Err(e) => Err(e@),
            },
            store: final(store)@,
        }) == populate_spec(old(store)@, env, budget),
{
    let ghost start = store@;
    let mut i: usize = 0;
    while i < PRIMITIVES
        invariant
            i <= PRIMITIVES,
            start == old(store)@,
            crate::env::bind_all(start, env, native_bindings(), 0) == crate::env::bind_all(
                store@,
                env,
                native_bindings(),
                i as int,
            ),
        decreases PRIMITIVES - i,
    {
        install(env, store, primitive(i));
        i = i + 1;
    }
    env.set(store, "*host-language*", Form::string("rust.2"));
    let _ = crate::eval_str("(def! not (fn* (a) (if a false true)))", env, store, budget)?;
    let _ = crate::eval_str(
        "(def! load-file (fn* (f) (eval (read-string (str \"(do \" (slurp f) \"\\nnil)\")))))",
        env,
        store,
        budget,
    )?;
    let _ = crate::eval_str(
        "(defmacro! cond (fn* (& xs) (if (> (count xs) 0) (list 'if (first xs) (if (> (count xs) 1) (nth xs 1) (throw \"odd number of forms to cond\")) (cons 'cond (rest (rest xs)))))))",
        env,
        store,
        budget,
    )?;
    Ok(())
}

} // verus!
