//! The universal value type of the language, its mathematical model, and
//! structural equality.

use crate::builtins::Primitive;
use crate::env::Env;
use crate::Error;
use itertools::Itertools;
use vstd::prelude::*;
use vstd::std_specs::cmp::PartialEqSpecImpl;
use vstd::string::StringSliceAdditionalSpecFns;
use vstd::utf8::encode_utf8;

verus! {

/// An identifier.
#[derive(Debug)]
pub struct Ident {
    pub name: String,
}

impl Ident {
    pub fn from_str(name: &str) -> (ident: Ident)
        ensures
            ident.name@ == name@,
    {
        Ident { name: name.to_owned() }
    }
}

impl Clone for Ident {
    fn clone(&self) -> (copy: Ident)
        ensures
            copy == *self,
    {
        Ident { name: self.name.clone() }
    }
}

/// A handle to a mutable cell of a store. Every holder of the same handle
/// sees the same cell.
#[derive(Clone, Copy, Debug, PartialEq, Eq, Structural)]
pub struct Atom {
    pub id: usize,
}

/// A value of the language: a kind, and for some kinds a piece of metadata.
#[derive(Debug)]
pub struct Form {
    pub kind: FormKind,
    pub meta: Option<Box<Form>>,
}

#[derive(Debug)]
pub enum FormKind {
    Nil,
    Boolean(bool),
    Symbol(Ident),
    Integer(i64),
    String(String),
    Keyword(String),
    List(Vec<Form>),
    Vector(Vec<Form>),
    /// Entries in the order in which their keys were first inserted.
    HashMap(Vec<(Form, Form)>),
    NativeFn(Primitive),
    UserFn { binds: Vec<Ident>, bind_rest: Option<Ident>, body: Box<Form>, env: Env, is_macro: bool },
    Atom(Atom),
}

/// The mathematical model of a [`Form`].
pub ghost struct FormView {
    pub kind: KindView,
    pub meta: Option<Box<FormView>>,
}

/// The mathematical model of a [`FormKind`].
pub ghost enum KindView {
    Nil,
    Boolean(bool),
    Symbol(Seq<char>),
    Integer(i64),
    String(Seq<char>),
    Keyword(Seq<char>),
    List(Seq<FormView>),
    Vector(Seq<FormView>),
    HashMap(Seq<(FormView, FormView)>),
    NativeFn(Primitive),
    UserFn {
        binds: Seq<Seq<char>>,
        bind_rest: Option<Seq<char>>,
        body: Box<FormView>,
        env: Env,
        is_macro: bool,
    },
    Atom(Atom),
}

/// The model of a form.
pub open spec fn form_view(form: Form) -> FormView {
    FormView { kind: kind_view(form.kind), meta: meta_view(form.meta) }
}

/// The model of a piece of metadata.
pub open spec fn meta_view(meta: Option<Box<Form>>) -> Option<Box<FormView>>
    decreases meta,
{
    match meta {
        Some(m) => Some(Box::new(FormView { kind: kind_view(m.kind), meta: meta_view(m.meta) })),
        None => None,
    }
}

/// The model of a kind.
pub open spec fn kind_view(kind: FormKind) -> KindView
    decreases kind,
{
    match kind {
        FormKind::Nil => KindView::Nil,
        FormKind::Boolean(b) => KindView::Boolean(b),
        FormKind::Symbol(ident) => KindView::Symbol(ident.name@),
        FormKind::Integer(n) => KindView::Integer(n),
        FormKind::String(s) => KindView::String(s@),
        FormKind::Keyword(s) => KindView::Keyword(s@),
        FormKind::List(v) => KindView::List(
            Seq::new(
                v@.len(),
                |i: int|
                    if 0 <= i < v@.len() {
                        FormView { kind: kind_view(v@[i].kind), meta: meta_view(v@[i].meta) }
                    } else {
                        arbitrary()
                    },
            ),
        ),
        FormKind::Vector(v) => KindView::Vector(
            Seq::new(
                v@.len(),
                |i: int|
                    if 0 <= i < v@.len() {
                        FormView { kind: kind_view(v@[i].kind), meta: meta_view(v@[i].meta) }
                    } else {
                        arbitrary()
                    },
            ),
        ),
        FormKind::HashMap(v) => KindView::HashMap(
            Seq::new(
                v@.len(),
                |i: int|
                    if 0 <= i < v@.len() {
                        (
                            FormView {
                                kind: kind_view(v@[i].0.kind),
                                meta: meta_view(v@[i].0.meta),
                            },
                            FormView {
                                kind: kind_view(v@[i].1.kind),
                                meta: meta_view(v@[i].1.meta),
                            },
                        )
                    } else {
                        arbitrary()
                    },
            ),
        ),
        FormKind::NativeFn(p) => KindView::NativeFn(p),
        FormKind::UserFn { binds, bind_rest, body, env, is_macro } => KindView::UserFn {
            binds: names(binds@),
            bind_rest: match bind_rest {
                Some(ident) => Some(ident.name@),
                None => None,
            },
            body: Box::new(FormView { kind: kind_view(body.kind), meta: meta_view(body.meta) }),
            env,
            is_macro,
        },
        FormKind::Atom(atom) => KindView::Atom(atom),
    }
}

impl View for Form {
    type V = FormView;

    open spec fn view(&self) -> FormView {
        form_view(*self)
    }
}

impl View for FormKind {
    type V = KindView;

    open spec fn view(&self) -> KindView {
        kind_view(*self)
    }
}

/// The names of a sequence of identifiers.
pub open spec fn names(idents: Seq<Ident>) -> Seq<Seq<char>> {
    Seq::new(idents.len(), |i: int| idents[i].name@)
}

/// The models of a sequence of forms.
pub open spec fn views(forms: Seq<Form>) -> Seq<FormView> {
    Seq::new(forms.len(), |i: int| forms[i]@)
}

/// The models of a sequence of entries.
pub open spec fn entry_views(entries: Seq<(Form, Form)>) -> Seq<(FormView, FormView)> {
    Seq::new(entries.len(), |i: int| (entries[i].0@, entries[i].1@))
}

/// What the model of each collection kind is, in terms of `views`.
pub proof fn lemma_collection_views(kind: FormKind)
    ensures
        kind matches FormKind::List(v) ==> kind@ == KindView::List(views(v@)),
        kind matches FormKind::Vector(v) ==> kind@ == KindView::Vector(views(v@)),
        kind matches FormKind::HashMap(v) ==> kind@ == KindView::HashMap(entry_views(v@)),
{
    match kind {
        FormKind::List(v) => {
            assert(kind@->List_0 =~= views(v@));
        },
        FormKind::Vector(v) => {
            assert(kind@->Vector_0 =~= views(v@));
        },
        FormKind::HashMap(v) => {
            assert(kind@->HashMap_0 =~= entry_views(v@));
        },
        _ => {},
    }
}


fn clone_idents(idents: &Vec<Ident>) -> (copy: Vec<Ident>)
    ensures
        copy@ == idents@,
{
    let mut copy: Vec<Ident> = Vec::new();
    let mut i: usize = 0;
    while i < idents.len()
        invariant
            i <= idents.len(),
            copy@ == idents@.take(i as int),
        decreases idents.len() - i,
    {
        copy.push(idents[i].clone());
        i += 1;
    }
    assert(idents@.take(idents.len() as int) == idents@);
    copy
}

fn clone_forms(forms: &Vec<Form>) -> (copy: Vec<Form>)
    ensures
        views(copy@) == views(forms@),
    decreases forms, 1nat,
{
    let mut copy: Vec<Form> = Vec::new();
    let mut i: usize = 0;
    while i < forms.len()
        invariant
            i <= forms.len(),
            copy.len() == i,
            forall|j: int| 0 <= j < i ==> copy@[j]@ == forms@[j]@,
        decreases forms.len() - i,
    {
        copy.push(forms[i].clone());
        i += 1;
    }
    assert(views(copy@) =~= views(forms@));
    copy
}

fn clone_entries(entries: &Vec<(Form, Form)>) -> (copy: Vec<(Form, Form)>)
    ensures
        entry_views(copy@) == entry_views(entries@),
    decreases entries, 1nat,
{
    let mut copy: Vec<(Form, Form)> = Vec::new();
    let mut i: usize = 0;
    while i < entries.len()
        invariant
            i <= entries.len(),
            copy.len() == i,
            forall|j: int|
                0 <= j < i ==> copy@[j].0@ == entries@[j].0@ && copy@[j].1@ == entries@[j].1@,
        decreases entries.len() - i,
    {
        let key = entries[i].0.clone();
        let value = entries[i].1.clone();
        copy.push((key, value));
        i += 1;
    }
    assert(entry_views(copy@) =~= entry_views(entries@));
    copy
}

impl Clone for FormKind {
    /// A deep copy. Handles are copied as handles: the copy of an atom is
    /// the same cell, the copy of a closure shares its scope.
    fn clone(&self) -> (copy: FormKind)
        ensures
            copy@ == self@,
        decreases self, 0nat,
    {
        match self {
            FormKind::Nil => FormKind::Nil,
            FormKind::Boolean(b) => FormKind::Boolean(*b),
            FormKind::Symbol(ident) => FormKind::Symbol(ident.clone()),
            FormKind::Integer(n) => FormKind::Integer(*n),
            FormKind::String(s) => FormKind::String(s.clone()),
            FormKind::Keyword(s) => FormKind::Keyword(s.clone()),
            FormKind::List(v) => {
                let copy = FormKind::List(clone_forms(v));
                proof {
                    lemma_collection_views(copy);
                    lemma_collection_views(*self);
                }
                copy
            },
            FormKind::Vector(v) => {
                let copy = FormKind::Vector(clone_forms(v));
                proof {
                    lemma_collection_views(copy);
                    lemma_collection_views(*self);
                }
                copy
            },
            FormKind::HashMap(v) => {
                let copy = FormKind::HashMap(clone_entries(v));
                proof {
                    lemma_collection_views(copy);
                    lemma_collection_views(*self);
                }
                copy
            },
            FormKind::NativeFn(p) => FormKind::NativeFn(*p),
            FormKind::UserFn { binds, bind_rest, body, env, is_macro } => FormKind::UserFn {
                binds: clone_idents(binds),
                bind_rest: match bind_rest {
                    Some(ident) => Some(ident.clone()),
                    None => None,
                },
                body: Box::new((&**body).clone()),
                env: *env,
                is_macro: *is_macro,
            },
            FormKind::Atom(atom) => FormKind::Atom(*atom),
        }
    }
}

impl Clone for Form {
    /// A deep copy, metadata included.
    fn clone(&self) -> (copy: Form)
        ensures
            copy@ == self@,
        decreases self, 1nat,
    {
        Form {
            kind: self.kind.clone(),
            meta: match &self.meta {
                Some(m) => Some(Box::new((&**m).clone())),
                None => None,
            },
        }
    }
}


/// The items of a list or a vector.
pub open spec fn items_of(kind: KindView) -> Option<Seq<FormView>> {
    match kind {
        KindView::List(items) => Some(items),
        KindView::Vector(items) => Some(items),
        _ => None,
    }
}

/// Structural equality of kinds. Scalars, symbols and text are equal when
/// they hold the same value; a list and a vector are interchangeable and are
/// equal when they have the same length and equal items throughout; two maps
/// are equal when they have the same number of entries and each key of the
/// first is found in the second with an equal value. Functions and atoms are
/// equal to nothing, themselves included.
pub open spec fn same_kind(a: KindView, b: KindView) -> bool
    decreases a, 0nat,
{
    match a {
        KindView::Nil => b is Nil,
        KindView::Boolean(x) => b == KindView::Boolean(x),
        KindView::Symbol(x) => b == KindView::Symbol(x),
        KindView::Integer(x) => b == KindView::Integer(x),
        KindView::String(x) => b == KindView::String(x),
        KindView::Keyword(x) => b == KindView::Keyword(x),
        KindView::List(x) => match items_of(b) {
            Some(y) => same_items(x, y),
            None => false,
        },
        KindView::Vector(x) => match items_of(b) {
            Some(y) => same_items(x, y),
            None => false,
        },
        KindView::HashMap(x) => match b {
            KindView::HashMap(y) => same_entries(x, y),
            _ => false,
        },
        KindView::NativeFn(_) => false,
        KindView::UserFn { .. } => false,
        KindView::Atom(_) => false,
    }
}

/// Two sequences of the same length whose items are equal throughout.
pub open spec fn same_items(x: Seq<FormView>, y: Seq<FormView>) -> bool
    decreases x, 0nat,
{
    x.len() == y.len() && forall|i: int|
        0 <= i < x.len() ==> same_kind((#[trigger] x[i]).kind, y[i].kind)
}

/// Two maps with the same number of entries, each entry of the first found
/// in the second.
pub open spec fn same_entries(x: Seq<(FormView, FormView)>, y: Seq<(FormView, FormView)>) -> bool
    decreases x, 0nat,
{
    x.len() == y.len() && forall|i: int| 0 <= i < x.len() ==> entry_in(#[trigger] x[i], y)
}

/// The first entry of `entries` whose key equals that of `entry` has a value
/// equal to that of `entry`.
pub open spec fn entry_in(entry: (FormView, FormView), entries: Seq<(FormView, FormView)>) -> bool
    decreases entry, 0nat,
{
    match first_key_from(entries, entry.0, 0) {
        Some(j) => same_kind(entry.1.kind, entries[j].1.kind),
        None => false,
    }
}

/// The index of the first entry at or after `start` whose key equals `key`,
/// if there is one.
pub open spec fn first_key_from(
    entries: Seq<(FormView, FormView)>,
    key: FormView,
    start: int,
) -> Option<int>
    decreases key, entries.len() - start,
{
    if start < 0 || start >= entries.len() {
        None
    } else if same_kind(key.kind, entries[start].0.kind) {
        Some(start)
    } else {
        first_key_from(entries, key, start + 1)
    }
}

/// The index of the first entry whose key equals `key`, if there is one.
pub open spec fn first_key(entries: Seq<(FormView, FormView)>, key: FormView) -> Option<int> {
    first_key_from(entries, key, 0)
}

/// Structural equality of forms: that of their kinds. Metadata plays no part.
pub open spec fn same(a: FormView, b: FormView) -> bool {
    same_kind(a.kind, b.kind)
}

fn eq_items(x: &Vec<Form>, y: &Vec<Form>) -> (r: bool)
    ensures
        r == same_items(views(x@), views(y@)),
    decreases x, 1nat,
{
    if x.len() != y.len() {
        return false;
    }
    let mut i: usize = 0;
    while i < x.len()
        invariant
            i <= x.len(),
            x.len() == y.len(),
            forall|j: int|
                0 <= j < i ==> same_kind((#[trigger] views(x@)[j]).kind, views(y@)[j].kind),
        decreases x.len() - i,
    {
        if !x[i].kind.eq(&y[i].kind) {
            assert(!same_kind(views(x@)[i as int].kind, views(y@)[i as int].kind));
            return false;
        }
        i += 1;
    }
    true
}

/// The index of the first entry whose key equals `key`.
pub fn find_key(entries: &Vec<(Form, Form)>, key: &Form) -> (found: Option<usize>)
    ensures
        match found {
            Some(j) => first_key(entry_views(entries@), key@) == Some(j as int)
                && j < entries.len(),
            None => first_key(entry_views(entries@), key@) is None,
        },
    decreases key, 1nat,
{
    let mut i: usize = 0;
    while i < entries.len()
        invariant
            i <= entries.len(),
            first_key(entry_views(entries@), key@) == first_key_from(
                entry_views(entries@),
                key@,
                i as int,
            ),
        decreases entries.len() - i,
    {
        if key.kind.eq(&entries[i].0.kind) {
            return Some(i);
        }
        i += 1;
    }
    None
}

fn eq_entries(x: &Vec<(Form, Form)>, y: &Vec<(Form, Form)>) -> (r: bool)
    ensures
        r == same_entries(entry_views(x@), entry_views(y@)),
    decreases x, 1nat,
{
    if x.len() != y.len() {
        return false;
    }
    let ghost xs = entry_views(x@);
    let ghost ys = entry_views(y@);
    let mut i: usize = 0;
    while i < x.len()
        invariant
            i <= x.len(),
            x.len() == y.len(),
            xs == entry_views(x@),
            ys == entry_views(y@),
            forall|k: int| 0 <= k < i ==> entry_in(#[trigger] xs[k], ys),
        decreases x.len() - i,
    {
        let matched = match find_key(y, &x[i].0) {
            Some(j) => x[i].1.kind.eq(&y[j].1.kind),
            None => false,
        };
        assert(matched == entry_in(xs[i as int], ys));
        if !matched {
            return false;
        }
        i += 1;
    }
    true
}

impl PartialEq for FormKind {
    fn eq(&self, other: &FormKind) -> (r: bool)
        decreases self, 0nat,
    {
        proof {
            lemma_collection_views(*self);
            lemma_collection_views(*other);
        }
        match (self, other) {
            (FormKind::Nil, FormKind::Nil) => true,
            (FormKind::Boolean(a), FormKind::Boolean(b)) => *a == *b,
            (FormKind::Symbol(a), FormKind::Symbol(b)) => a.name == b.name,
            (FormKind::Integer(a), FormKind::Integer(b)) => *a == *b,
            (FormKind::String(a), FormKind::String(b)) => *a == *b,
            (FormKind::Keyword(a), FormKind::Keyword(b)) => *a == *b,
            (FormKind::List(a), FormKind::List(b)) => eq_items(a, b),
            (FormKind::List(a), FormKind::Vector(b)) => eq_items(a, b),
            (FormKind::Vector(a), FormKind::List(b)) => eq_items(a, b),
            (FormKind::Vector(a), FormKind::Vector(b)) => eq_items(a, b),
            (FormKind::HashMap(a), FormKind::HashMap(b)) => eq_entries(a, b),
            (_, _) => false,
        }
    }
}

impl PartialEqSpecImpl for FormKind {
    open spec fn obeys_eq_spec() -> bool {
        true
    }

    open spec fn eq_spec(&self, other: &FormKind) -> bool {
        same_kind(self@, other@)
    }
}

impl PartialEq for Form {
    fn eq(&self, other: &Form) -> (r: bool) {
        self.kind.eq(&other.kind)
    }
}

impl PartialEqSpecImpl for Form {
    open spec fn obeys_eq_spec() -> bool {
        true
    }

    open spec fn eq_spec(&self, other: &Form) -> bool {
        same(self@, other@)
    }
}


/// A list and a vector are equal when their items are, one by one, and in
/// either order of the two.
pub proof fn law_list_equals_vector(
    x: Seq<FormView>,
    y: Seq<FormView>,
    list_meta: Option<Box<FormView>>,
    vector_meta: Option<Box<FormView>>,
)
    requires
        same_items(x, y),
    ensures
        same(
            FormView { kind: KindView::List(x), meta: list_meta },
            FormView { kind: KindView::Vector(y), meta: vector_meta },
        ),
        same(
            FormView { kind: KindView::Vector(x), meta: vector_meta },
            FormView { kind: KindView::List(y), meta: list_meta },
        ),
{
}

/// A function, built in or user-defined, is equal to no form, itself
/// included.
pub proof fn law_function_equals_nothing(f: FormView, other: FormView)
    requires
        f.kind is NativeFn || f.kind is UserFn,
    ensures
        !same(f, other),
        !same(other, f),
        !same(f, f),
{
}

impl FormView {
    /// The form of the given kind without metadata.
    pub open spec fn of(kind: KindView) -> FormView {
        FormView { kind, meta: None }
    }

    pub open spec fn nil() -> FormView {
        FormView::of(KindView::Nil)
    }

    pub open spec fn boolean(value: bool) -> FormView {
        FormView::of(KindView::Boolean(value))
    }

    pub open spec fn integer(value: i64) -> FormView {
        FormView::of(KindView::Integer(value))
    }

    pub open spec fn symbol(name: Seq<char>) -> FormView {
        FormView::of(KindView::Symbol(name))
    }

    pub open spec fn string(text: Seq<char>) -> FormView {
        FormView::of(KindView::String(text))
    }

    pub open spec fn keyword(text: Seq<char>) -> FormView {
        FormView::of(KindView::Keyword(text))
    }

    pub open spec fn list(items: Seq<FormView>) -> FormView {
        FormView::of(KindView::List(items))
    }

    pub open spec fn vector(items: Seq<FormView>) -> FormView {
        FormView::of(KindView::Vector(items))
    }

    pub open spec fn hash_map(entries: Seq<(FormView, FormView)>) -> FormView {
        FormView::of(KindView::HashMap(entries))
    }

    /// The name of a symbol.
    pub open spec fn symbol_name(self) -> Option<Seq<char>> {
        match self.kind {
            KindView::Symbol(name) => Some(name),
            _ => None,
        }
    }

    /// The name at the head of a list, where the head is a symbol.
    pub open spec fn fn_name(self) -> Option<Seq<char>> {
        match self.kind {
            KindView::List(items) => if items.len() > 0 {
                items[0].symbol_name()
            } else {
                None
            },
            _ => None,
        }
    }

    /// Everything but `nil` and `false` counts as true.
    pub open spec fn truthy(self) -> bool {
        !(self.kind is Nil) && self.kind != KindView::Boolean(false)
    }
}

impl Form {
    pub fn is_nil(&self) -> (r: bool)
        ensures
            r == (self@.kind is Nil),
    {
        matches!(self.kind, FormKind::Nil)
    }

    pub fn is_boolean(&self) -> (r: bool)
        ensures
            r == (self@.kind is Boolean),
    {
        matches!(self.kind, FormKind::Boolean(_))
    }

    pub fn is_symbol(&self) -> (r: bool)
        ensures
            r == (self@.kind is Symbol),
    {
        matches!(self.kind, FormKind::Symbol(_))
    }

    pub fn is_number(&self) -> (r: bool)
        ensures
            r == (self@.kind is Integer),
    {
        matches!(self.kind, FormKind::Integer(_))
    }

    pub fn is_string(&self) -> (r: bool)
        ensures
            r == (self@.kind is String),
    {
        matches!(self.kind, FormKind::String(_))
    }

    pub fn is_keyword(&self) -> (r: bool)
        ensures
            r == (self@.kind is Keyword),
    {
        matches!(self.kind, FormKind::Keyword(_))
    }

    pub fn is_list(&self) -> (r: bool)
        ensures
            r == (self@.kind is List),
    {
        matches!(self.kind, FormKind::List(_))
    }

    pub fn is_vector(&self) -> (r: bool)
        ensures
            r == (self@.kind is Vector),
    {
        matches!(self.kind, FormKind::Vector(_))
    }

    pub fn is_hash_map(&self) -> (r: bool)
        ensures
            r == (self@.kind is HashMap),
    {
        matches!(self.kind, FormKind::HashMap(_))
    }

    pub fn is_native_fn(&self) -> (r: bool)
        ensures
            r == (self@.kind is NativeFn),
    {
        matches!(self.kind, FormKind::NativeFn(_))
    }

    pub fn is_atom(&self) -> (r: bool)
        ensures
            r == (self@.kind is Atom),
    {
        matches!(self.kind, FormKind::Atom(_))
    }

    pub fn nil() -> (form: Form)
        ensures
            form@ == FormView::nil(),
    {
        Form { kind: FormKind::Nil, meta: None }
    }

    pub fn boolean(value: bool) -> (form: Form)
        ensures
            form@ == FormView::boolean(value),
    {
        Form { kind: FormKind::Boolean(value), meta: None }
    }

    pub fn symbol(name: &str) -> (form: Form)
        ensures
            form@ == FormView::symbol(name@),
    {
        Form { kind: FormKind::Symbol(Ident::from_str(name)), meta: None }
    }

    pub fn integer(value: i64) -> (form: Form)
        ensures
            form@ == FormView::integer(value),
    {
        Form { kind: FormKind::Integer(value), meta: None }
    }

    pub fn string(value: &str) -> (form: Form)
        ensures
            form@ == FormView::string(value@),
    {
        Form { kind: FormKind::String(value.to_owned()), meta: None }
    }

    pub fn keyword(value: &str) -> (form: Form)
        ensures
            form@ == FormView::keyword(value@),
    {
        Form { kind: FormKind::Keyword(value.to_owned()), meta: None }
    }

    pub fn list(value: Vec<Form>) -> (form: Form)
        ensures
            form@ == FormView::list(views(value@)),
            form.kind == FormKind::List(value),
    {
        let form = Form { kind: FormKind::List(value), meta: None };
        proof {
            lemma_collection_views(form.kind);
        }
        form
    }

    pub fn is_empty_list(&self) -> (r: bool)
        ensures
            r == (self@.kind matches KindView::List(items) && items.len() == 0),
    {
        proof {
            lemma_collection_views(self.kind);
        }
        match &self.kind {
            FormKind::List(inner) => inner.len() == 0,
            _ => false,
        }
    }

    pub fn vector(value: Vec<Form>) -> (form: Form)
        ensures
            form@ == FormView::vector(views(value@)),
            form.kind == FormKind::Vector(value),
    {
        let form = Form { kind: FormKind::Vector(value), meta: None };
        proof {
            lemma_collection_views(form.kind);
        }
        form
    }

    /// A map with the given entries, in their order. Nothing is checked of
    /// the keys: where two are equal, the first is the one that is found.
    pub fn hash_map(value: Vec<(Form, Form)>) -> (form: Form)
        ensures
            form@ == FormView::hash_map(entry_views(value@)),
            form.kind == FormKind::HashMap(value),
    {
        let form = Form { kind: FormKind::HashMap(value), meta: None };
        proof {
            lemma_collection_views(form.kind);
        }
        form
    }

    pub fn native_fn(f: Primitive) -> (form: Form)
        ensures
            form@ == FormView::of(KindView::NativeFn(f)),
    {
        Form { kind: FormKind::NativeFn(f), meta: None }
    }

    pub fn user_fn(binds: Vec<Ident>, bind_rest: Option<Ident>, body: Form, env: Env) -> (form:
        Form)
        ensures
            form@ == FormView::of(
                KindView::UserFn {
                    binds: names(binds@),
                    bind_rest: match bind_rest {
                        Some(ident) => Some(ident.name@),
                        None => None,
                    },
                    body: Box::new(body@),
                    env,
                    is_macro: false,
                },
            ),
    {
        Form {
            kind: FormKind::UserFn { binds, bind_rest, body: Box::new(body), env, is_macro: false },
            meta: None,
        }
    }

    pub fn atom(atom: Atom) -> (form: Form)
        ensures
            form@ == FormView::of(KindView::Atom(atom)),
    {
        Form { kind: FormKind::Atom(atom), meta: None }
    }

    pub fn macro_(binds: Vec<Ident>, bind_rest: Option<Ident>, body: Form, env: Env) -> (form:
        Form)
        ensures
            form@ == FormView::of(
                KindView::UserFn {
                    binds: names(binds@),
                    bind_rest: match bind_rest {
                        Some(ident) => Some(ident.name@),
                        None => None,
                    },
                    body: Box::new(body@),
                    env,
                    is_macro: true,
                },
            ),
    {
        Form {
            kind: FormKind::UserFn { binds, bind_rest, body: Box::new(body), env, is_macro: true },
            meta: None,
        }
    }

    /// The items of a list or a vector, to be walked as often as needed.
    pub fn iter(&self) -> (r: Result<&Vec<Form>, Error>)
        ensures
            match r {
                Ok(items) => items_of(self@.kind) == Some(views(items@)),
                Err(e) => e@ == crate::ErrorView::NotIterable && items_of(self@.kind) is None,
            },
    {
        proof {
            lemma_collection_views(self.kind);
        }
        match &self.kind {
            FormKind::List(inner) => Ok(inner),
            FormKind::Vector(inner) => Ok(inner),
            _ => Err(Error::NotIterable),
        }
    }

    /// The items of a list or a vector, to be changed in place.
    pub fn iter_mut(&mut self) -> (r: Result<&mut Vec<Form>, Error>)
        ensures
            match r {
                Ok(items) => {
                    &&& items_of(old(self)@.kind) == Some(views(items@))
                    &&& final(self).meta == old(self).meta
                    &&& old(self).kind is List ==> final(self).kind == FormKind::List(*final(items))
                    &&& old(self).kind is Vector ==> final(self).kind == FormKind::Vector(
                        *final(items),
                    )
                },
                Err(e) => e@ == crate::ErrorView::NotIterable && items_of(old(self)@.kind) is None
                    && *final(self) == *old(self),
            },
    {
        proof {
            lemma_collection_views(self.kind);
        }
        match &mut self.kind {
            FormKind::List(inner) => Ok(inner),
            FormKind::Vector(inner) => Ok(inner),
            _ => Err(Error::NotIterable),
        }
    }

    /// The items of a list or a vector, by value.
    pub fn try_into_iter(self) -> (r: Result<Vec<Form>, Error>)
        ensures
            match r {
                Ok(items) => items_of(self@.kind) == Some(views(items@)),
                Err(e) => e@ == crate::ErrorView::NotIterable && items_of(self@.kind) is None,
            },
    {
        proof {
            lemma_collection_views(self.kind);
        }
        match self.kind {
            FormKind::List(inner) => Ok(inner),
            FormKind::Vector(inner) => Ok(inner),
            _ => Err(Error::NotIterable),
        }
    }

    pub fn is_symbol_named(&self, test: &str) -> (r: bool)
        ensures
            r == (self@.kind == KindView::Symbol(test@)),
    {
        match &self.kind {
            FormKind::Symbol(ident) => str_eq(ident.name.as_str(), test),
            _ => false,
        }
    }

    pub fn is_sequential(&self) -> (r: bool)
        ensures
            r == (items_of(self@.kind) is Some),
    {
        matches!(self.kind, FormKind::List(_) | FormKind::Vector(_))
    }

    pub fn is_empty_sequential(&self) -> (r: bool)
        ensures
            r == (items_of(self@.kind) matches Some(items) && items.len() == 0),
    {
        proof {
            lemma_collection_views(self.kind);
        }
        match &self.kind {
            FormKind::List(inner) => inner.len() == 0,
            FormKind::Vector(inner) => inner.len() == 0,
            _ => false,
        }
    }

    pub fn empty_list() -> (form: Form)
        ensures
            form@ == FormView::list(Seq::empty()),
    {
        let form = Form::list(Vec::new());
        assert(views(Seq::<Form>::empty()) =~= Seq::<FormView>::empty());
        form
    }

    pub fn is_macro(&self) -> (r: bool)
        ensures
            r == (self@.kind matches KindView::UserFn { is_macro, .. } && is_macro),
    {
        match &self.kind {
            FormKind::UserFn { is_macro, .. } => *is_macro,
            _ => false,
        }
    }

    pub fn is_user_fn(&self) -> (r: bool)
        ensures
            r == (self@.kind matches KindView::UserFn { is_macro, .. } && !is_macro),
    {
        match &self.kind {
            FormKind::UserFn { is_macro, .. } => !*is_macro,
            _ => false,
        }
    }

    /// The name of a symbol.
    pub fn as_symbol_name(&self) -> (r: Option<&str>)
        ensures
            match r {
                Some(name) => self@.symbol_name() == Some(name@),
                None => self@.symbol_name() is None,
            },
    {
        match &self.kind {
            FormKind::Symbol(ident) => Some(ident.name.as_str()),
            _ => None,
        }
    }

    /// The name at the head of a list, where the head is a symbol.
    pub fn as_fn_name(&self) -> (r: Option<&str>)
        ensures
            match r {
                Some(name) => self@.fn_name() == Some(name@),
                None => self@.fn_name() is None,
            },
    {
        proof {
            lemma_collection_views(self.kind);
        }
        match &self.kind {
            FormKind::List(inner) => if inner.len() > 0 {
                inner[0].as_symbol_name()
            } else {
                None
            },
            _ => None,
        }
    }

    /// The items of a list or a vector.
    pub fn as_slice(&self) -> (r: Option<&[Form]>)
        ensures
            match r {
                Some(items) => items_of(self@.kind) == Some(views(items@)),
                None => items_of(self@.kind) is None,
            },
    {
        proof {
            lemma_collection_views(self.kind);
        }
        match &self.kind {
            FormKind::List(inner) => Some(inner.as_slice()),
            FormKind::Vector(inner) => Some(inner.as_slice()),
            _ => None,
        }
    }

    /// Whether the form counts as true: everything but `nil` and `false` does.
    pub fn truthy(&self) -> (r: bool)
        ensures
            r == self@.truthy(),
    {
        !matches!(self.kind, FormKind::Nil | FormKind::Boolean(false))
    }
}

/// The map with `key` bound to `value`: in place of the first entry with an
/// equal key, or at the end where there is none.
pub open spec fn put(entries: Seq<(FormView, FormView)>, key: FormView, value: FormView) -> Seq<
    (FormView, FormView),
> {
    match first_key(entries, key) {
        Some(i) => entries.update(i, (key, value)),
        None => entries.push((key, value)),
    }
}

/// Where the search for a key finds an entry, the entry is in range and no
/// earlier entry from `start` on has an equal key; where it finds none, no
/// entry from `start` on has an equal key.
pub proof fn lemma_first_key_from(entries: Seq<(FormView, FormView)>, key: FormView, start: int)
    requires
        0 <= start,
    ensures
        match first_key_from(entries, key, start) {
            Some(j) => start <= j < entries.len() && same(key, entries[j].0) && forall|k: int|
                start <= k < j ==> !same(key, (#[trigger] entries[k]).0),
            None => forall|k: int|
                start <= k < entries.len() ==> !same(key, (#[trigger] entries[k]).0),
        },
    decreases entries.len() - start,
{
    if start < entries.len() && !same_kind(key.kind, entries[start].0.kind) {
        lemma_first_key_from(entries, key, start + 1);
    }
}

/// The search for a key finds the first entry with an equal key.
pub proof fn lemma_first_key_is(
    entries: Seq<(FormView, FormView)>,
    key: FormView,
    start: int,
    j: int,
)
    requires
        0 <= start <= j < entries.len(),
        same(key, entries[j].0),
        forall|k: int| start <= k < j ==> !same(key, (#[trigger] entries[k]).0),
    ensures
        first_key_from(entries, key, start) == Some(j),
    decreases j - start,
{
    if start < j {
        assert(!same(key, entries[start].0));
        lemma_first_key_is(entries, key, start + 1, j);
    }
}

/// What is put into a map under a key is what is found under that key
/// afterwards, and the map has one entry more or as many as before. This
/// holds of every key that is equal to itself: of all but those that are or
/// hold a function or an atom.
pub proof fn law_put_then_find(entries: Seq<(FormView, FormView)>, key: FormView, value: FormView)
    requires
        same(key, key),
    ensures
        first_key(put(entries, key, value), key) matches Some(i) && put(entries, key, value)[i].1
            == value,
        put(entries, key, value).len() == entries.len() || put(entries, key, value).len()
            == entries.len() + 1,
{
    let after = put(entries, key, value);
    lemma_first_key_from(entries, key, 0);
    match first_key(entries, key) {
        Some(i) => {
            assert forall|k: int| 0 <= k < i implies !same(key, (#[trigger] after[k]).0) by {
                assert(after[k] == entries[k]);
            }
            lemma_first_key_is(after, key, 0, i);
        },
        None => {
            let i = entries.len() as int;
            assert forall|k: int| 0 <= k < i implies !same(key, (#[trigger] after[k]).0) by {
                assert(after[k] == entries[k]);
            }
            lemma_first_key_is(after, key, 0, i);
        },
    }
}

/// Binds `key` to `value` in a map: in place of the first entry with an equal
/// key, or at the end where there is none.
pub fn insert_entry(entries: &mut Vec<(Form, Form)>, key: Form, value: Form)
    ensures
        entry_views(final(entries)@) == put(entry_views(old(entries)@), key@, value@),
{
    match find_key(entries, &key) {
        Some(i) => {
            entries[i] = (key, value);
        },
        None => {
            entries.push((key, value));
        },
    }
    assert(entry_views(entries@) =~= put(entry_views(old(entries)@), key@, value@));
}

/// What a text feeds to a hash: its bytes in UTF-8, then `0xff`.
pub open spec fn text_hash(text: Seq<char>) -> Seq<u8> {
    encode_utf8(text) + seq![0xffu8]
}

/// What an integer feeds to a hash: its eight bytes, lowest first.
pub open spec fn integer_hash(n: i64) -> Seq<u8> {
    Seq::new(8, |i: int| (((n as u64) >> ((8 * i) as u64)) & 0xff) as u8)
}

/// What a kind feeds to a hash: a zero byte, a byte for the variant, and
/// then what the variant holds. A text feeds its bytes; an integer its eight
/// bytes; a list or vector, for each item, a zero byte and the item; a map,
/// for each entry, a zero byte, the key, a one byte and the value. Functions
/// and atoms feed nothing but their variant. Metadata plays no part.
pub open spec fn kind_hash(kind: KindView) -> Seq<u8>
    decreases kind, 0nat,
{
    seq![0u8] + match kind {
        KindView::Nil => seq![0x00u8],
        KindView::Boolean(b) => seq![0x01u8, if b {
            1u8
        } else {
            0u8
        }],
        KindView::Symbol(name) => seq![0x02u8] + text_hash(name),
        KindView::Integer(n) => seq![0x03u8] + integer_hash(n),
        KindView::String(text) => seq![0x05u8] + text_hash(text),
        KindView::Keyword(text) => seq![0x06u8] + text_hash(text),
        KindView::List(items) => seq![0x07u8] + items_hash(items, 0),
        KindView::Vector(items) => seq![0x08u8] + items_hash(items, 0),
        KindView::HashMap(entries) => seq![0x09u8] + entries_hash(entries, 0),
        KindView::NativeFn(_) => seq![0x0Au8],
        KindView::UserFn { .. } => seq![0x0Bu8],
        KindView::Atom(_) => seq![0x0Cu8],
    }
}

/// What the items from index `from` on feed to a hash.
pub open spec fn items_hash(items: Seq<FormView>, from: int) -> Seq<u8>
    decreases items, items.len() - from,
{
    if 0 <= from < items.len() {
        seq![0u8] + kind_hash(items[from].kind) + items_hash(items, from + 1)
    } else {
        Seq::empty()
    }
}

/// What the entries from index `from` on feed to a hash.
pub open spec fn entries_hash(entries: Seq<(FormView, FormView)>, from: int) -> Seq<u8>
    decreases entries, entries.len() - from,
{
    if 0 <= from < entries.len() {
        seq![0u8] + kind_hash(entries[from].0.kind) + seq![1u8] + kind_hash(entries[from].1.kind)
            + entries_hash(entries, from + 1)
    } else {
        Seq::empty()
    }
}

fn hash_text(text: &str, state: &mut Vec<u8>)
    ensures
        final(state)@ == old(state)@ + text_hash(text@),
{
    let bytes = text.as_bytes();
    state.extend_from_slice(bytes);
    assert(state@ =~= old(state)@ + encode_utf8(text@));
    state.push(0xff);
    assert(state@ =~= old(state)@ + text_hash(text@));
}

fn hash_integer(n: i64, state: &mut Vec<u8>)
    ensures
        final(state)@ == old(state)@ + integer_hash(n),
{
    let bits = n as u64;
    let mut i: u64 = 0;
    while i < 8
        invariant
            i <= 8,
            bits == n as u64,
            state@ == old(state)@ + integer_hash(n).take(i as int),
        decreases 8 - i,
    {
        let byte = ((bits >> (8 * i)) & 0xff) as u8;
        state.push(byte);
        assert(state@ =~= old(state)@ + integer_hash(n).take(i + 1));
        i = i + 1;
    }
    assert(integer_hash(n).take(8) =~= integer_hash(n));
}

fn hash_items(items: &Vec<Form>, state: &mut Vec<u8>)
    ensures
        final(state)@ == old(state)@ + items_hash(views(items@), 0),
    decreases items, 1nat,
{
    let ghost all = views(items@);
    let mut i: usize = 0;
    while i < items.len()
        invariant
            i <= items.len(),
            all == views(items@),
            old(state)@ + items_hash(all, 0) == state@ + items_hash(all, i as int),
        decreases items.len() - i,
    {
        let ghost before = state@;
        state.push(0);
        items[i].kind.hash(state);
        assert(state@ + items_hash(all, i + 1) =~= before + items_hash(all, i as int));
        i = i + 1;
    }
    assert(state@ =~= old(state)@ + items_hash(all, 0));
}

fn hash_entries(entries: &Vec<(Form, Form)>, state: &mut Vec<u8>)
    ensures
        final(state)@ == old(state)@ + entries_hash(entry_views(entries@), 0),
    decreases entries, 1nat,
{
    let ghost all = entry_views(entries@);
    let mut i: usize = 0;
    while i < entries.len()
        invariant
            i <= entries.len(),
            all == entry_views(entries@),
            old(state)@ + entries_hash(all, 0) == state@ + entries_hash(all, i as int),
        decreases entries.len() - i,
    {
        let ghost before = state@;
        state.push(0);
        entries[i].0.kind.hash(state);
        state.push(1);
        entries[i].1.kind.hash(state);
        assert(state@ + entries_hash(all, i + 1) =~= before + entries_hash(all, i as int));
        i = i + 1;
    }
    assert(state@ =~= old(state)@ + entries_hash(all, 0));
}

impl FormKind {
    /// Feeds the kind to a hash, as bytes at the end of `state`.
    pub fn hash(&self, state: &mut Vec<u8>)
        ensures
            final(state)@ == old(state)@ + kind_hash(self@),
        decreases self, 0nat,
    {
        proof {
            lemma_collection_views(*self);
        }
        state.push(0x00);
        match self {
            FormKind::Nil => {
                state.push(0x00);
            },
            FormKind::Boolean(b) => {
                state.push(0x01);
                state.push(
                    if *b {
                        1
                    } else {
                        0
                    },
                );
            },
            FormKind::Symbol(ident) => {
                state.push(0x02);
                hash_text(ident.name.as_str(), state);
            },
            FormKind::Integer(n) => {
                state.push(0x03);
                hash_integer(*n, state);
            },
            FormKind::String(text) => {
                state.push(0x05);
                hash_text(text.as_str(), state);
            },
            FormKind::Keyword(text) => {
                state.push(0x06);
                hash_text(text.as_str(), state);
            },
            FormKind::List(items) => {
                state.push(0x07);
                hash_items(items, state);
            },
            FormKind::Vector(items) => {
                state.push(0x08);
                hash_items(items, state);
            },
            FormKind::HashMap(entries) => {
                state.push(0x09);
                hash_entries(entries, state);
            },
            FormKind::NativeFn(_) => {
                state.push(0x0A);
            },
            FormKind::UserFn { .. } => {
                state.push(0x0B);
            },
            FormKind::Atom(_) => {
                state.push(0x0C);
            },
        }
        assert(state@ =~= old(state)@ + kind_hash(self@));
    }
}

impl Form {
    /// Feeds the form to a hash: its kind, as bytes at the end of `state`.
    pub fn hash(&self, state: &mut Vec<u8>)
        ensures
            final(state)@ == old(state)@ + kind_hash(self@.kind),
    {
        self.kind.hash(state)
    }
}

/// `Itertools::tuples` for pairs: the items two by two, in their order. A
/// last item without a partner is left out.
#[verifier::external_body]
fn pairs(items: Vec<Form>) -> (r: Vec<(Form, Form)>)
    ensures
        r@.len() == items@.len() / 2,
        forall|i: int| 0 <= i < r@.len() ==> #[trigger] r@[i] == (items@[2 * i], items@[2 * i + 1]),
{
    items.into_iter().tuples().collect()
}

/// The map `entries` after each key and value of `items`, from index `from`
/// on, is put into it in turn.
pub open spec fn put_pairs(
    items: Seq<FormView>,
    from: int,
    entries: Seq<(FormView, FormView)>,
) -> Seq<(FormView, FormView)>
    decreases items.len() - from,
{
    if 0 <= from && from + 1 < items.len() {
        put_pairs(items, from + 2, put(entries, items[from], items[from + 1]))
    } else {
        entries
    }
}

/// Puts each key and value of `items` into the map `entries`, in turn.
pub fn insert_pairs(entries: Vec<(Form, Form)>, items: Vec<Form>) -> (r: Vec<(Form, Form)>)
    ensures
        entry_views(r@) == put_pairs(views(items@), 0, entry_views(entries@)),
{
    let ghost all = views(items@);
    let ghost goal = put_pairs(all, 0, entry_views(entries@));
    let mut todo = crate::convert::reversed(pairs(items));
    let ghost count = todo@.len();
    let mut entries = entries;
    while todo.len() > 0
        invariant
            count == all.len() / 2,
            todo@.len() <= count,
            forall|j: int|
                0 <= j < todo@.len() ==> (#[trigger] todo@[j]).0@ == all[2 * (count - 1 - j)]
                    && todo@[j].1@ == all[2 * (count - 1 - j) + 1],
            goal == put_pairs(all, 2 * (count - todo@.len()), entry_views(entries@)),
        decreases todo.len(),
    {
        let (key, value) = todo.pop().unwrap();
        insert_entry(&mut entries, key, value);
    }
    entries
}

/// Whether two string slices hold the same text.
pub fn str_eq(a: &str, b: &str) -> (r: bool)
    ensures
        r == (a@ == b@),
{
    let x = a.as_bytes();
    let y = b.as_bytes();
    proof {
        vstd::utf8::encode_utf8_decode_utf8(a@);
        vstd::utf8::encode_utf8_decode_utf8(b@);
    }
    if x.len() != y.len() {
        return false;
    }
    let mut i: usize = 0;
    while i < x.len()
        invariant
            i <= x.len(),
            x.len() == y.len(),
            x@ == encode_utf8(a@),
            y@ == encode_utf8(b@),
            forall|j: int| 0 <= j < i ==> x@[j] == y@[j],
        decreases x.len() - i,
    {
        if x[i] != y[i] {
            return false;
        }
        i = i + 1;
    }
    assert(x@ =~= y@);
    true
}

} // verus!
