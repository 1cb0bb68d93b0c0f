//! The evaluator: special forms, macro expansion, function application, and
//! the loop that runs tail calls without growing the stack.
//!
//! What a program means is written down once, as the spec function
//! [`eval_spec`] and its helpers, over the models of forms and stores. The
//! executable [`eval`] is proved to compute exactly that.
//!
//! Evaluation is bounded by a [`Budget`], so that every evaluation ends. Each
//! turn of the evaluation loop and each call of a function takes one unit of
//! `fuel` from what the evaluation at hand has left. An evaluation that is
//! not in tail position starts with the fuel that its parent has left at that
//! point, and with one level of `depth` less; what it uses of either is not
//! taken from the parent. So fuel bounds the length of every chain of tail
//! calls and nested evaluations, and depth bounds how far evaluations nest,
//! which is what the stack has to hold. A tail call takes fuel and no depth.

use crate::builtins::{simple_spec, Primitive};
use crate::convert::{
    at_least, atom_of, exactly, into_forms, into_ident, into_idents, list_items, reversed,
    sequence_items, symbol_sequence, take_2, take_3,
};
use crate::env::{bind_all, lemma_binding_is_found, Env, Store, StoreView};
use crate::form::{
    entry_views, insert_entry, items_of, lemma_collection_views, names, put, str_eq, views, Form,
    FormKind, FormView, KindView,
};
use crate::{Error, ErrorView};
use vstd::prelude::*;

verus! {

/// How much evaluation may still be done.
#[derive(Clone, Copy, Debug, PartialEq, Eq, Structural)]
pub struct Budget {
    /// How many more turns of the evaluation loop and calls of functions may
    /// follow one another.
    pub fuel: u64,
    /// How many more levels evaluations may nest.
    pub depth: u64,
}

impl Budget {
    pub fn new(fuel: u64, depth: u64) -> (budget: Budget)
        ensures
            budget == (Budget { fuel, depth }),
    {
        Budget { fuel, depth }
    }

    /// The budget after one unit of fuel is spent.
    pub open spec fn spent(self) -> Budget {
        Budget { fuel: (self.fuel - 1) as u64, depth: self.depth }
    }

    /// The budget one level further in.
    pub open spec fn nested(self) -> Budget {
        Budget { fuel: self.fuel, depth: (self.depth - 1) as u64 }
    }
}

/// A result together with the store that the computation left behind.
pub ghost struct Step<T> {
    pub value: Result<T, ErrorView>,
    pub store: StoreView,
}

/// The outcome of evaluating a form.
pub type Outcome = Step<FormView>;

pub open spec fn done<T>(value: T, store: StoreView) -> Step<T> {
    Step { value: Ok(value), store }
}

pub open spec fn failed<T>(error: ErrorView, store: StoreView) -> Step<T> {
    Step { value: Err(error), store }
}

/// The forms that the evaluator handles itself.
#[derive(Clone, Copy, Debug, PartialEq, Eq, Structural)]
pub enum Special {
    Def,
    DefMacro,
    Let,
    Do,
    If,
    Fn,
    Eval,
    Quote,
    Quasiquote,
    QuasiquoteExpand,
    MacroExpand,
}

/// The special form that a head symbol names.
pub open spec fn special_named(name: Seq<char>) -> Option<Special> {
    if name == "def!"@ {
        Some(Special::Def)
    } else if name == "defmacro!"@ {
        Some(Special::DefMacro)
    } else if name == "let*"@ {
        Some(Special::Let)
    } else if name == "do"@ {
        Some(Special::Do)
    } else if name == "if"@ {
        Some(Special::If)
    } else if name == "fn*"@ {
        Some(Special::Fn)
    } else if name == "eval"@ {
        Some(Special::Eval)
    } else if name == "quote"@ {
        Some(Special::Quote)
    } else if name == "quasiquote"@ {
        Some(Special::Quasiquote)
    } else if name == "quasiquoteexpand"@ {
        Some(Special::QuasiquoteExpand)
    } else if name == "macroexpand"@ {
        Some(Special::MacroExpand)
    } else {
        None
    }
}

/// The special form that a list is, by its head symbol.
pub open spec fn special_form(form: FormView) -> Option<Special> {
    match form.fn_name() {
        Some(name) => special_named(name),
        None => None,
    }
}

/// A list of one symbol and one form, as the reader writes `'x` and its kin.
pub open spec fn tagged(name: Seq<char>, form: FormView) -> FormView {
    FormView::list(seq![FormView::symbol(name), form])
}

/// A list of one symbol and two forms.
pub open spec fn tagged2(name: Seq<char>, first: FormView, second: FormView) -> FormView {
    FormView::list(seq![FormView::symbol(name), first, second])
}

/// The expansion of a quasiquote template.
///
/// `(unquote x)` stands for `x`. The empty list stands for itself. Any other
/// list or vector is folded from the right: an item `(splice-unquote x)`
/// gives `(concat x rest)`, any other item gives `(cons expansion rest)`; a
/// vector is wrapped in `(vec ..)`. A symbol or a map is quoted. Everything
/// else stands for itself.
pub open spec fn quasi(template: FormView) -> Result<FormView, ErrorView>
    decreases template, 0nat,
{
    if template.fn_name() == Some("unquote"@) {
        match exactly(template, 2) {
            Some(args) => Ok(args[1]),
            None => Err(ErrorView::InvalidArgument),
        }
    } else {
        match template.kind {
            KindView::List(items) => if items.len() == 0 {
                Ok(template)
            } else {
                quasi_fold(items, items.len() as int, FormView::list(Seq::empty()))
            },
            KindView::Vector(items) => match quasi_fold(
                items,
                items.len() as int,
                FormView::list(Seq::empty()),
            ) {
                Ok(folded) => Ok(tagged("vec"@, folded)),
                Err(e) => Err(e),
            },
            KindView::Symbol(_) => Ok(tagged("quote"@, template)),
            KindView::HashMap(_) => Ok(tagged("quote"@, template)),
            _ => Ok(template),
        }
    }
}

/// The right fold of [`quasi`] over the first `upto` items, onto `rest`.
pub open spec fn quasi_fold(items: Seq<FormView>, upto: int, rest: FormView) -> Result<
    FormView,
    ErrorView,
>
    decreases items, upto,
{
    if upto <= 0 || upto > items.len() {
        Ok(rest)
    } else {
        let item = items[upto - 1];
        if item.fn_name() == Some("splice-unquote"@) {
            match exactly(item, 2) {
                Some(args) => quasi_fold(items, upto - 1, tagged2("concat"@, args[1], rest)),
                None => Err(ErrorView::InvalidArgument),
            }
        } else {
            match quasi(item) {
                Ok(expanded) => quasi_fold(items, upto - 1, tagged2("cons"@, expanded, rest)),
                Err(e) => Err(e),
            }
        }
    }
}

/// Where the parameter list of a function divides: the index of the first
/// `&` at or after `from`, or the length where there is none.
pub open spec fn ampersand(params: Seq<Seq<char>>, from: int) -> int
    decreases params.len() - from,
{
    if from < 0 || from >= params.len() {
        params.len() as int
    } else if params[from] == "&"@ {
        from
    } else {
        ampersand(params, from + 1)
    }
}

/// The closure that `(fn* params body)` makes in the scope `closure`.
pub open spec fn closure_of(params: Seq<Seq<char>>, body: FormView, closure: Env) -> FormView {
    let split = ampersand(params, 0);
    FormView::of(
        KindView::UserFn {
            binds: params.take(split),
            bind_rest: if split + 1 < params.len() {
                Some(params[split + 1])
            } else {
                None
            },
            body: Box::new(body),
            env: closure,
            is_macro: false,
        },
    )
}

/// `(fn* params body)`: a closure over a new child scope of `env`. The
/// parameters are symbols; those before a `&` are bound one by one, the one
/// after it takes the remaining arguments.
pub open spec fn fn_spec(form: FormView, env: Env, store: StoreView) -> Outcome {
    match exactly(form, 3) {
        Some(args) => match symbol_sequence(args[1]) {
            Some(params) => done(
                closure_of(params, args[2], store.next_env()),
                store.with_scope(Some(env)),
            ),
            None => failed(ErrorView::InvalidArgument, store),
        },
        None => failed(ErrorView::InvalidArgument, store),
    }
}

/// `(quote x)`: `x`, as it stands.
pub open spec fn quoted(form: FormView) -> Result<FormView, ErrorView> {
    match exactly(form, 2) {
        Some(args) => Ok(args[1]),
        None => Err(ErrorView::InvalidArgument),
    }
}

/// `(quasiquote x)` and `(quasiquoteexpand x)`: the expansion of `x`.
pub open spec fn quasiquote_spec(form: FormView) -> Result<FormView, ErrorView> {
    match exactly(form, 2) {
        Some(args) => quasi(args[1]),
        None => Err(ErrorView::InvalidArgument),
    }
}

/// A user-defined function that is not a macro.
pub open spec fn is_function(form: FormView) -> bool {
    form.kind matches KindView::UserFn { is_macro, .. } && !is_macro
}

/// A user-defined function that is a macro.
pub open spec fn is_macro(form: FormView) -> bool {
    form.kind matches KindView::UserFn { is_macro, .. } && is_macro
}

/// The same closure, flagged as a macro; any other form as it is.
pub open spec fn as_macro(form: FormView) -> FormView {
    match form.kind {
        KindView::UserFn { binds, bind_rest, body, env, is_macro } => FormView {
            kind: KindView::UserFn { binds, bind_rest, body, env, is_macro: true },
            meta: form.meta,
        },
        _ => form,
    }
}

/// The macro that a list calls: its head is a symbol that the chain of `env`
/// binds to a macro.
pub open spec fn macro_called(form: FormView, env: Env, store: StoreView) -> Option<FormView> {
    match form.fn_name() {
        Some(name) => match store.lookup(env, name) {
            Some(found) => if is_macro(found) {
                Some(found)
            } else {
                None
            },
            None => None,
        },
        None => None,
    }
}

/// The names and values that a call binds one by one.
pub open spec fn paired(binds: Seq<Seq<char>>, args: Seq<FormView>) -> Seq<(Seq<char>, FormView)> {
    Seq::new(binds.len(), |i: int| (binds[i], args[i]))
}

/// Binding the parameters of a closure to `args` in a new child of its scope.
/// Each parameter takes one argument. Too few arguments are an
/// `InvalidArgument`, and then the store is untouched. Arguments beyond the
/// parameters go, as a list, to the rest parameter, or nowhere where there
/// is none. The result is the body and the new scope.
pub open spec fn bind_params(f: FormView, args: Seq<FormView>, store: StoreView) -> Step<
    (FormView, Env),
> {
    match f.kind {
        KindView::UserFn { binds, bind_rest, body, env, is_macro } => {
            if args.len() < binds.len() {
                failed(ErrorView::InvalidArgument, store)
            } else {
                let frame = store.next_env();
                let bound = bind_all(store.with_scope(Some(env)), frame, paired(binds, args), 0);
                let all = match bind_rest {
                    Some(name) => bound.bind(
                        frame,
                        name,
                        FormView::list(args.skip(binds.len() as int)),
                    ),
                    None => bound,
                };
                done((*body, frame), all)
            }
        },
        _ => failed(ErrorView::InvalidArgument, store),
    }
}

/// What evaluating `form` in the scope `env` gives, and the store it leaves,
/// within `budget`.
pub open spec fn eval_spec(form: FormView, env: Env, store: StoreView, budget: Budget) -> Outcome
    decreases budget.fuel, 0nat, 0nat,
{
    if budget.fuel == 0 {
        failed(ErrorView::OutOfFuel, store)
    } else {
        let expansion = expand_spec(form, env, store, budget.spent());
        match expansion.value {
            Err(_) => expansion,
            Ok(expanded) => dispatch_spec(expanded, env, expansion.store, budget.spent()),
        }
    }
}

/// One turn of the evaluation loop on a form that macro expansion has
/// already been through. `budget` is what is left after the turn is paid.
pub open spec fn dispatch_spec(form: FormView, env: Env, store: StoreView, budget: Budget) -> Outcome
    decreases budget.fuel, 9nat, 0nat,
{
    match list_items(form) {
        None => eval_ast_spec(form, env, store, budget),
        Some(items) => if items.len() == 0 {
            done(form, store)
        } else {
            match special_form(form) {
                Some(Special::Def) => def_spec(form, env, store, budget, false),
                Some(Special::DefMacro) => def_spec(form, env, store, budget, true),
                Some(Special::Let) => {
                    let bound = let_spec(form, env, store, budget);
                    match bound.value {
                        Ok((body, scope)) => eval_spec(body, scope, bound.store, budget),
                        Err(e) => failed(e, bound.store),
                    }
                },
                Some(Special::Do) => {
                    let last = do_spec(form, env, store, budget);
                    match last.value {
                        Ok(tail) => eval_spec(tail, env, last.store, budget),
                        Err(_) => last,
                    }
                },
                Some(Special::If) => {
                    let chosen = if_spec(form, env, store, budget);
                    match chosen.value {
                        Ok(branch) => eval_spec(branch, env, chosen.store, budget),
                        Err(_) => chosen,
                    }
                },
                Some(Special::Fn) => fn_spec(form, env, store),
                Some(Special::Eval) => {
                    let code = eval_arg_spec(form, env, store, budget);
                    match code.value {
                        Ok(made) => eval_spec(made, code.store.root(env), code.store, budget),
                        Err(_) => code,
                    }
                },
                Some(Special::Quote) => Step { value: quoted(form), store },
                Some(Special::Quasiquote) => match quasiquote_spec(form) {
                    Ok(expanded) => eval_spec(expanded, env, store, budget),
                    Err(e) => failed(e, store),
                },
                Some(Special::QuasiquoteExpand) => Step { value: quasiquote_spec(form), store },
                Some(Special::MacroExpand) => match exactly(form, 2) {
                    Some(args) => expand_spec(args[1], env, store, budget),
                    None => failed(ErrorView::InvalidArgument, store),
                },
                None => {
                    let call = eval_items_spec(items, 0, Seq::empty(), env, store, budget);
                    match call.value {
                        Ok(values) => {
                            let f = values[0];
                            let args = values.skip(1);
                            if is_function(f) {
                                let frame = bind_params(f, args, call.store);
                                match frame.value {
                                    Ok((body, scope)) => eval_spec(
                                        body,
                                        scope,
                                        frame.store,
                                        budget,
                                    ),
                                    Err(e) => failed(e, frame.store),
                                }
                            } else {
                                match f.kind {
                                    KindView::NativeFn(p) => native_spec(
                                        p,
                                        FormView::list(args),
                                        call.store,
                                        budget,
                                    ),
                                    _ => failed(ErrorView::InvalidApply, call.store),
                                }
                            }
                        },
                        Err(e) => failed(e, call.store),
                    }
                },
            }
        },
    }
}

/// An evaluation that is not in tail position: one level further in.
pub open spec fn nested_spec(form: FormView, env: Env, store: StoreView, budget: Budget) -> Outcome
    decreases budget.fuel, 1nat, 0nat,
{
    if budget.depth == 0 {
        failed(ErrorView::TooDeep, store)
    } else {
        eval_spec(form, env, store, budget.nested())
    }
}

/// Macro expansion: as long as the form is a call of a macro, the macro is
/// applied to the unevaluated arguments and its result takes the form's
/// place. Each application spends one unit of fuel.
pub open spec fn expand_spec(form: FormView, env: Env, store: StoreView, budget: Budget) -> Outcome
    decreases budget.fuel, 8nat, 0nat,
{
    match macro_called(form, env, store) {
        None => done(form, store),
        Some(m) => if budget.fuel == 0 {
            failed(ErrorView::OutOfFuel, store)
        } else {
            let applied = call_spec(
                m,
                FormView::list(form.kind->List_0.skip(1)),
                store,
                budget.spent(),
            );
            match applied.value {
                Ok(expanded) => expand_spec(expanded, env, applied.store, budget.spent()),
                Err(_) => applied,
            }
        },
    }
}

/// Calling a function, built in or user-defined, macro or not, on a list of
/// arguments that are already evaluated. The call spends one unit of fuel;
/// the body of a user-defined function is evaluated one level further in.
pub open spec fn call_spec(f: FormView, params: FormView, store: StoreView, budget: Budget) -> Outcome
    decreases budget.fuel, 2nat, 0nat,
{
    match f.kind {
        KindView::NativeFn(p) => if budget.fuel == 0 {
            failed(ErrorView::OutOfFuel, store)
        } else {
            native_spec(p, params, store, budget.spent())
        },
        KindView::UserFn { .. } => if budget.fuel == 0 {
            failed(ErrorView::OutOfFuel, store)
        } else {
            match list_items(params) {
                Some(args) => {
                    let frame = bind_params(f, args, store);
                    match frame.value {
                        Ok((body, scope)) => nested_spec(body, scope, frame.store, budget.spent()),
                        Err(e) => failed(e, frame.store),
                    }
                },
                None => failed(ErrorView::InvalidArgument, store),
            }
        },
        _ => failed(ErrorView::NotCallable, store),
    }
}

/// Evaluating a form as data. A symbol is looked up. A list, a vector or a
/// map has each of its parts evaluated, left to right, and is built again
/// from the results. Everything else is its own value.
pub open spec fn eval_ast_spec(form: FormView, env: Env, store: StoreView, budget: Budget) -> Outcome
    decreases budget.fuel, 5nat, 0nat,
{
    match form.kind {
        KindView::Symbol(name) => match store.lookup(env, name) {
            Some(value) => done(value, store),
            None => failed(ErrorView::UnknownSymbol(name), store),
        },
        KindView::List(items) => {
            let all = eval_items_spec(items, 0, Seq::empty(), env, store, budget);
            match all.value {
                Ok(values) => done(FormView::list(values), all.store),
                Err(e) => failed(e, all.store),
            }
        },
        KindView::Vector(items) => {
            let all = eval_items_spec(items, 0, Seq::empty(), env, store, budget);
            match all.value {
                Ok(values) => done(FormView::vector(values), all.store),
                Err(e) => failed(e, all.store),
            }
        },
        KindView::HashMap(entries) => {
            let all = eval_entries_spec(entries, 0, Seq::empty(), env, store, budget);
            match all.value {
                Ok(values) => done(FormView::hash_map(values), all.store),
                Err(e) => failed(e, all.store),
            }
        },
        _ => done(form, store),
    }
}

/// The values of the items from index `from` on, after `values`, each
/// evaluated in the store that the one before it left.
pub open spec fn eval_items_spec(
    items: Seq<FormView>,
    from: int,
    values: Seq<FormView>,
    env: Env,
    store: StoreView,
    budget: Budget,
) -> Step<Seq<FormView>>
    decreases budget.fuel, 3nat, items.len() - from,
{
    if from < 0 || from >= items.len() {
        done(values, store)
    } else {
        let one = nested_spec(items[from], env, store, budget);
        match one.value {
            Ok(value) => eval_items_spec(items, from + 1, values.push(value), env, one.store, budget),
            Err(e) => failed(e, one.store),
        }
    }
}

/// The entries from index `from` on, after `values`: key, then value, each
/// evaluated in the store that the one before it left, and put into the map
/// built so far.
pub open spec fn eval_entries_spec(
    entries: Seq<(FormView, FormView)>,
    from: int,
    values: Seq<(FormView, FormView)>,
    env: Env,
    store: StoreView,
    budget: Budget,
) -> Step<Seq<(FormView, FormView)>>
    decreases budget.fuel, 3nat, entries.len() - from,
{
    if from < 0 || from >= entries.len() {
        done(values, store)
    } else {
        let key = nested_spec(entries[from].0, env, store, budget);
        match key.value {
            Ok(k) => {
                let value = nested_spec(entries[from].1, env, key.store, budget);
                match value.value {
                    Ok(v) => eval_entries_spec(
                        entries,
                        from + 1,
                        put(values, k, v),
                        env,
                        value.store,
                        budget,
                    ),
                    Err(e) => failed(e, value.store),
                }
            },
            Err(e) => failed(e, key.store),
        }
    }
}

/// `(def! name value)`: the value is evaluated and bound to the name in
/// `env` itself; the result is that value. For `defmacro!` a closure is
/// flagged as a macro before it is bound.
pub open spec fn def_spec(
    form: FormView,
    env: Env,
    store: StoreView,
    budget: Budget,
    flag: bool,
) -> Outcome
    decreases budget.fuel, 5nat, 0nat,
{
    match exactly(form, 3) {
        Some(args) => match args[1].symbol_name() {
            Some(name) => {
                let made = nested_spec(args[2], env, store, budget);
                match made.value {
                    Ok(value) => {
                        let bound = if flag {
                            as_macro(value)
                        } else {
                            value
                        };
                        done(bound, made.store.bind(env, name, bound))
                    },
                    Err(_) => made,
                }
            },
            None => failed(ErrorView::InvalidArgument, store),
        },
        None => failed(ErrorView::InvalidArgument, store),
    }
}

/// `(let* (name value ..) body)`: a new child scope of `env`, in which each
/// value is evaluated and bound in turn, so that it sees the names before
/// it. The result is the body, not yet evaluated, and the new scope.
pub open spec fn let_spec(form: FormView, env: Env, store: StoreView, budget: Budget) -> Step<
    (FormView, Env),
>
    decreases budget.fuel, 5nat, 0nat,
{
    match exactly(form, 3) {
        Some(args) => match sequence_items(args[1]) {
            Some(bindings) => {
                let scope = store.next_env();
                let bound = let_bindings_spec(
                    bindings,
                    0,
                    scope,
                    store.with_scope(Some(env)),
                    budget,
                );
                match bound.value {
                    Ok(_) => done((args[2], scope), bound.store),
                    Err(e) => failed(e, bound.store),
                }
            },
            None => failed(ErrorView::InvalidArgument, store),
        },
        None => failed(ErrorView::InvalidArgument, store),
    }
}

/// The bindings of a `let*` from index `from` on: a name, then its value.
pub open spec fn let_bindings_spec(
    bindings: Seq<FormView>,
    from: int,
    scope: Env,
    store: StoreView,
    budget: Budget,
) -> Step<()>
    decreases budget.fuel, 3nat, bindings.len() - from,
{
    if from < 0 || from >= bindings.len() {
        done((), store)
    } else {
        match bindings[from].symbol_name() {
            Some(name) => if from + 1 < bindings.len() {
                let made = nested_spec(bindings[from + 1], scope, store, budget);
                match made.value {
                    Ok(value) => let_bindings_spec(
                        bindings,
                        from + 2,
                        scope,
                        made.store.bind(scope, name, value),
                        budget,
                    ),
                    Err(e) => failed(e, made.store),
                }
            } else {
                failed(ErrorView::InvalidArgument, store)
            },
            None => failed(ErrorView::InvalidArgument, store),
        }
    }
}

/// `(do a b .. z)`: `a`, `b` and so on are evaluated for what they do to the
/// store. The result is `z`, not yet evaluated, or `nil` for `(do)`.
pub open spec fn do_spec(form: FormView, env: Env, store: StoreView, budget: Budget) -> Outcome
    decreases budget.fuel, 5nat, 0nat,
{
    match list_items(form) {
        Some(items) => do_items_spec(items, 1, env, store, budget),
        None => failed(ErrorView::InvalidArgument, store),
    }
}

/// The items of a `do` from index `from` on.
pub open spec fn do_items_spec(
    items: Seq<FormView>,
    from: int,
    env: Env,
    store: StoreView,
    budget: Budget,
) -> Outcome
    decreases budget.fuel, 3nat, items.len() - from,
{
    if from < 1 || from >= items.len() {
        done(FormView::nil(), store)
    } else if from == items.len() - 1 {
        done(items[from], store)
    } else {
        let one = nested_spec(items[from], env, store, budget);
        match one.value {
            Ok(_) => do_items_spec(items, from + 1, env, one.store, budget),
            Err(_) => one,
        }
    }
}

/// `(if test then else)`: the test is evaluated; the result is `then` where
/// it counts as true and `else` where it does not, neither yet evaluated. A
/// missing `else` is `nil`.
pub open spec fn if_spec(form: FormView, env: Env, store: StoreView, budget: Budget) -> Outcome
    decreases budget.fuel, 5nat, 0nat,
{
    match list_items(form) {
        Some(items) => if items.len() == 3 || items.len() == 4 {
            let test = nested_spec(items[1], env, store, budget);
            match test.value {
                Ok(value) => if value.truthy() {
                    done(items[2], test.store)
                } else if items.len() == 4 {
                    done(items[3], test.store)
                } else {
                    done(FormView::nil(), test.store)
                },
                Err(_) => test,
            }
        } else {
            failed(ErrorView::InvalidArgument, store)
        },
        None => failed(ErrorView::InvalidArgument, store),
    }
}

/// `(eval x)`, first half: `x` is evaluated in `env`. Its value is the code
/// that is then evaluated in the outermost scope.
pub open spec fn eval_arg_spec(form: FormView, env: Env, store: StoreView, budget: Budget) -> Outcome
    decreases budget.fuel, 5nat, 0nat,
{
    match exactly(form, 2) {
        Some(args) => nested_spec(args[1], env, store, budget),
        None => failed(ErrorView::InvalidArgument, store),
    }
}

/// Applying a built-in function to a list of arguments. Three of them call
/// back into the evaluator; the others are in [`simple_spec`].
pub open spec fn native_spec(p: Primitive, params: FormView, store: StoreView, budget: Budget) -> Outcome
    decreases budget.fuel, 7nat, 0nat,
{
    match p {
        Primitive::Swap => swap_spec(params, store, budget),
        Primitive::Apply => apply_spec(params, store, budget),
        Primitive::MapOver => match exactly(params, 2) {
            Some(args) => match sequence_items(args[1]) {
                Some(items) => {
                    let all = map_items_spec(args[0], items, 0, Seq::empty(), store, budget);
                    match all.value {
                        Ok(values) => done(FormView::list(values), all.store),
                        Err(e) => failed(e, all.store),
                    }
                },
                None => failed(ErrorView::InvalidArgument, store),
            },
            None => failed(ErrorView::InvalidArgument, store),
        },
        _ => simple_spec(p, params, store),
    }
}

/// `(swap! atom f x ..)`: the cell is emptied to `nil`, `f` is called on what
/// it held and on `x ..`, and the result goes into the cell and is the
/// result. Where the call fails the cell stays `nil`.
pub open spec fn swap_spec(params: FormView, store: StoreView, budget: Budget) -> Outcome
    decreases budget.fuel, 6nat, 0nat,
{
    match at_least(params, 2) {
        Some(args) => match atom_of(args[0]) {
            Some(atom) => match store.deref(atom) {
                Some(held) => {
                    let called = call_spec(
                        args[1],
                        FormView::list(seq![held] + args.skip(2)),
                        store.assign(atom, FormView::nil()),
                        budget,
                    );
                    match called.value {
                        Ok(value) => done(value, called.store.assign(atom, value)),
                        Err(_) => called,
                    }
                },
                None => failed(ErrorView::InvalidArgument, store),
            },
            None => failed(ErrorView::InvalidArgument, store),
        },
        None => failed(ErrorView::InvalidArgument, store),
    }
}

/// `(apply f x .. xs)`: `f` called on `x ..` followed by the items of the
/// list or vector `xs`.
pub open spec fn apply_spec(params: FormView, store: StoreView, budget: Budget) -> Outcome
    decreases budget.fuel, 6nat, 0nat,
{
    match at_least(params, 1) {
        Some(args) => if args.len() < 2 {
            failed(ErrorView::InvalidArgument, store)
        } else {
            match items_of(args.last().kind) {
                Some(spread) => call_spec(
                    args[0],
                    FormView::list(args.subrange(1, args.len() - 1) + spread),
                    store,
                    budget,
                ),
                None => failed(ErrorView::NotIterable, store),
            }
        },
        None => failed(ErrorView::InvalidArgument, store),
    }
}

/// The results of calling `f` on each item from index `from` on, after
/// `values`.
pub open spec fn map_items_spec(
    f: FormView,
    items: Seq<FormView>,
    from: int,
    values: Seq<FormView>,
    store: StoreView,
    budget: Budget,
) -> Step<Seq<FormView>>
    decreases budget.fuel, 3nat, items.len() - from,
{
    if from < 0 || from >= items.len() {
        done(values, store)
    } else {
        let one = call_spec(f, FormView::list(seq![items[from]]), store, budget);
        match one.value {
            Ok(value) => map_items_spec(f, items, from + 1, values.push(value), one.store, budget),
            Err(e) => failed(e, one.store),
        }
    }
}


/// No two special forms have the same name.
pub proof fn lemma_special_names()
    ensures
        special_named("def!"@) == Some(Special::Def),
        special_named("defmacro!"@) == Some(Special::DefMacro),
        special_named("let*"@) == Some(Special::Let),
        special_named("do"@) == Some(Special::Do),
        special_named("if"@) == Some(Special::If),
        special_named("fn*"@) == Some(Special::Fn),
        special_named("eval"@) == Some(Special::Eval),
        special_named("quote"@) == Some(Special::Quote),
        special_named("quasiquote"@) == Some(Special::Quasiquote),
        special_named("quasiquoteexpand"@) == Some(Special::QuasiquoteExpand),
        special_named("macroexpand"@) == Some(Special::MacroExpand),
{
    reveal_strlit("def!");
    reveal_strlit("defmacro!");
    reveal_strlit("let*");
    reveal_strlit("do");
    reveal_strlit("if");
    reveal_strlit("fn*");
    reveal_strlit("eval");
    reveal_strlit("quote");
    reveal_strlit("quasiquote");
    reveal_strlit("quasiquoteexpand");
    reveal_strlit("macroexpand");
    assert("def!"@.len() == 4 && "def!"@[0] == 'd');
    assert("defmacro!"@.len() == 9 && "defmacro!"@[0] == 'd');
    assert("let*"@.len() == 4 && "let*"@[0] == 'l');
    assert("do"@.len() == 2 && "do"@[0] == 'd');
    assert("if"@.len() == 2 && "if"@[0] == 'i');
    assert("fn*"@.len() == 3 && "fn*"@[0] == 'f');
    assert("eval"@.len() == 4 && "eval"@[0] == 'e');
    assert("quote"@.len() == 5 && "quote"@[0] == 'q');
    assert("quasiquote"@.len() == 10 && "quasiquote"@[0] == 'q');
    assert("quasiquoteexpand"@.len() == 16 && "quasiquoteexpand"@[0] == 'q');
    assert("macroexpand"@.len() == 11 && "macroexpand"@[0] == 'm');
}

/// Quoting is the identity: `(quote x)` evaluates to `x`, whatever `x` is,
/// and leaves the store as it was. It takes one unit of fuel, and holds
/// wherever the name `quote` is not bound to a macro on the chain of `env`.
pub proof fn law_quote_is_identity(x: FormView, env: Env, store: StoreView, budget: Budget)
    requires
        budget.fuel > 0,
        macro_called(tagged("quote"@, x), env, store) is None,
    ensures
        eval_spec(tagged("quote"@, x), env, store, budget) == done(x, store),
{
    lemma_special_names();
    let form = tagged("quote"@, x);
    assert(form.fn_name() == Some("quote"@));
    assert(expand_spec(form, env, store, budget.spent()) == done(form, store));
    assert(exactly(form, 2) == Some(seq![FormView::symbol("quote"@), x]));
}

/// The form `(fn* (x) x)`.
pub open spec fn identity_source() -> FormView {
    FormView::list(
        seq![
            FormView::symbol("fn*"@),
            FormView::list(seq![FormView::symbol("x"@)]),
            FormView::symbol("x"@),
        ],
    )
}

/// The identity function: `(fn* (x) x)` evaluates to a function which,
/// called on any one argument, gives that argument back. Making it takes one
/// unit of fuel, calling it two units and one level of depth; the name `fn*`
/// must not be bound to a macro on the chain of `env`.
pub proof fn law_identity_function(
    v: FormView,
    env: Env,
    store: StoreView,
    making: Budget,
    calling: Budget,
)
    requires
        making.fuel > 0,
        calling.fuel >= 2,
        calling.depth >= 1,
        store.scopes.len() + 2 <= usize::MAX,
        macro_called(identity_source(), env, store) is None,
    ensures
        ({
            let made = eval_spec(identity_source(), env, store, making);
            &&& made.value matches Ok(f)
            &&& is_function(f)
            &&& call_spec(f, FormView::list(seq![v]), made.store, calling).value == Ok::<
                FormView,
                ErrorView,
            >(v)
        }),
{
    lemma_special_names();
    reveal_strlit("x");
    reveal_strlit("&");
    assert("x"@.len() == 1 && "x"@[0] == 'x');
    assert("&"@.len() == 1 && "&"@[0] == '&');
    let form = identity_source();
    assert(form.fn_name() == Some("fn*"@));
    assert(expand_spec(form, env, store, making.spent()) == done(form, store));
    let params = seq!["x"@];
    assert(exactly(form, 3) == Some(form.kind->List_0));
    assert(symbol_sequence(form.kind->List_0[1]) == Some(params)) by {
        let items = seq![FormView::symbol("x"@)];
        assert(sequence_items(form.kind->List_0[1]) == Some(items));
        assert(crate::convert::symbols_of(items)->0 =~= params);
    }
    assert(ampersand(params, 1) == 1);
    assert(ampersand(params, 0) == 1);
    assert(params.take(1) =~= params);
    let closure = store.next_env();
    let opened = store.with_scope(Some(env));
    let made = eval_spec(form, env, store, making);
    assert(made == fn_spec(form, env, store));
    let f = made.value->Ok_0;
    assert(f == closure_of(params, FormView::symbol("x"@), closure));
    let args = seq![v];
    let frame = opened.next_env();
    let framed = opened.with_scope(Some(closure));
    let pairs = paired(params, args);
    let bound = framed.bind(frame, "x"@, v);
    assert(bind_all(bound, frame, pairs, 1) == bound);
    assert(bind_all(framed, frame, pairs, 0) == bound);
    assert(bind_params(f, args, opened) == done((FormView::symbol("x"@), frame), bound));
    lemma_binding_is_found(framed, frame, "x"@, v, "x"@);
    let body = FormView::symbol("x"@);
    let inner = calling.spent().nested();
    assert(expand_spec(body, frame, bound, inner.spent()) == done(body, bound));
    assert(eval_ast_spec(body, frame, bound, inner.spent()) == done(v, bound));
    assert(dispatch_spec(body, frame, bound, inner.spent()) == done(v, bound));
    assert(eval_spec(body, frame, bound, inner) == done(v, bound));
    assert(nested_spec(body, frame, bound, calling.spent()) == done(v, bound));
}

/// A symbol that no scope on the chain binds is an `UnknownSymbol` of that
/// name, and the store stays as it was.
pub proof fn law_unbound_symbol_is_unknown(
    name: Seq<char>,
    env: Env,
    store: StoreView,
    budget: Budget,
)
    requires
        budget.fuel > 0,
        store.lookup(env, name) is None,
    ensures
        eval_spec(FormView::symbol(name), env, store, budget) == failed::<FormView>(
            ErrorView::UnknownSymbol(name),
            store,
        ),
{
    let form = FormView::symbol(name);
    assert(expand_spec(form, env, store, budget.spent()) == done(form, store));
    assert(dispatch_spec(form, env, store, budget.spent()) == eval_ast_spec(
        form,
        env,
        store,
        budget.spent(),
    ));
}

/// A symbol evaluates to what the nearest scope on the chain binds it to.
pub proof fn law_bound_symbol_is_its_value(
    name: Seq<char>,
    env: Env,
    store: StoreView,
    budget: Budget,
)
    requires
        budget.fuel > 0,
        store.lookup(env, name) is Some,
    ensures
        eval_spec(FormView::symbol(name), env, store, budget) == done(
            store.lookup(env, name)->0,
            store,
        ),
{
    let form = FormView::symbol(name);
    assert(expand_spec(form, env, store, budget.spent()) == done(form, store));
    assert(dispatch_spec(form, env, store, budget.spent()) == eval_ast_spec(
        form,
        env,
        store,
        budget.spent(),
    ));
}

/// The bindings of a `let*` see the ones before them: after the first name
/// is bound to its value, the value of the second is evaluated in the same
/// scope, in the store that has the first binding.
pub proof fn law_let_sees_earlier_bindings(
    first: Seq<char>,
    first_value: FormView,
    second: Seq<char>,
    second_value: FormView,
    scope: Env,
    store: StoreView,
    budget: Budget,
)
    requires
        nested_spec(first_value, scope, store, budget).value is Ok,
    ensures
        ({
            let one = nested_spec(first_value, scope, store, budget);
            let seen = one.store.bind(scope, first, one.value->Ok_0);
            let two = nested_spec(second_value, scope, seen, budget);
            let_bindings_spec(
                seq![
                    FormView::symbol(first),
                    first_value,
                    FormView::symbol(second),
                    second_value,
                ],
                0,
                scope,
                store,
                budget,
            ) == match two.value {
                Ok(value) => done((), two.store.bind(scope, second, value)),
                Err(e) => failed(e, two.store),
            }
        }),
{
    let bindings = seq![
        FormView::symbol(first),
        first_value,
        FormView::symbol(second),
        second_value,
    ];
    let one = nested_spec(first_value, scope, store, budget);
    let seen = one.store.bind(scope, first, one.value->Ok_0);
    let two = nested_spec(second_value, scope, seen, budget);
    assert(let_bindings_spec(bindings, 0, scope, store, budget) == let_bindings_spec(
        bindings,
        2,
        scope,
        seen,
        budget,
    ));
    match two.value {
        Ok(value) => {
            assert(let_bindings_spec(bindings, 4, scope, two.store.bind(scope, second, value), budget)
                == done((), two.store.bind(scope, second, value)));
        },
        Err(_) => {},
    }
}

/// A call of a user-defined function is a tail call: once the items of the
/// call are evaluated and the parameters bound, the whole evaluation is that
/// of the body, in the new scope, with one unit of fuel less and with the
/// same depth. However long a chain of such calls is, it nests no deeper.
pub proof fn law_call_is_a_tail_call(form: FormView, env: Env, store: StoreView, budget: Budget)
    requires
        budget.fuel > 0,
        list_items(form) matches Some(items) && items.len() > 0,
        macro_called(form, env, store) is None,
        special_form(form) is None,
        eval_items_spec(
            list_items(form)->0,
            0,
            Seq::empty(),
            env,
            store,
            budget.spent(),
        ).value matches Ok(values) && is_function(values[0]),
    ensures
        ({
            let call = eval_items_spec(
                list_items(form)->0,
                0,
                Seq::empty(),
                env,
                store,
                budget.spent(),
            );
            let values = call.value->Ok_0;
            let frame = bind_params(values[0], values.skip(1), call.store);
            eval_spec(form, env, store, budget) == match frame.value {
                Ok((body, scope)) => eval_spec(body, scope, frame.store, budget.spent()),
                Err(e) => failed(e, frame.store),
            }
        }),
{
    assert(expand_spec(form, env, store, budget.spent()) == done(form, store));
    assert(eval_spec(form, env, store, budget) == dispatch_spec(form, env, store, budget.spent()));
}

/// Evaluating items adds one value for each item.
pub proof fn lemma_eval_items_len(
    items: Seq<FormView>,
    from: int,
    values: Seq<FormView>,
    env: Env,
    store: StoreView,
    budget: Budget,
)
    requires
        0 <= from <= items.len(),
    ensures
        eval_items_spec(items, from, values, env, store, budget).value matches Ok(all)
            ==> all.len() == values.len() + items.len() - from,
    decreases items.len() - from,
{
    if from < items.len() {
        let one = nested_spec(items[from], env, store, budget);
        match one.value {
            Ok(value) => {
                lemma_eval_items_len(items, from + 1, values.push(value), env, one.store, budget);
            },
            Err(_) => {},
        }
    }
}

/// The model of what an evaluation returned and left behind.
pub open spec fn outcome(r: Result<Form, Error>, store: StoreView) -> Outcome {
    Step {
        value: match r {
            Ok(form) => Ok(form@),
            Err(e) => Err(e@),
        },
        store,
    }
}

/// The model of a result that is a form.
pub open spec fn result_view(r: Result<Form, Error>) -> Result<FormView, ErrorView> {
    match r {
        Ok(form) => Ok(form@),
        Err(e) => Err(e@),
    }
}

/// The model of a step that gives a sequence of forms.
pub open spec fn step_forms(r: Result<Vec<Form>, Error>, store: StoreView) -> Step<Seq<FormView>> {
    Step {
        value: match r {
            Ok(forms) => Ok(views(forms@)),
            Err(e) => Err(e@),
        },
        store,
    }
}

/// The model of a step that gives a form to evaluate and the scope for it.
pub open spec fn step_frame(r: Result<(Form, Env), Error>, store: StoreView) -> Step<
    (FormView, Env),
> {
    Step {
        value: match r {
            Ok((form, env)) => Ok((form@, env)),
            Err(e) => Err(e@),
        },
        store,
    }
}

/// The special form that a list is, by its head symbol.
pub fn special(form: &Form) -> (r: Option<Special>)
    ensures
        r == special_form(form@),
{
    match form.as_fn_name() {
        Some(name) => {
            if str_eq(name, "def!") {
                Some(Special::Def)
            } else if str_eq(name, "defmacro!") {
                Some(Special::DefMacro)
            } else if str_eq(name, "let*") {
                Some(Special::Let)
            } else if str_eq(name, "do") {
                Some(Special::Do)
            } else if str_eq(name, "if") {
                Some(Special::If)
            } else if str_eq(name, "fn*") {
                Some(Special::Fn)
            } else if str_eq(name, "eval") {
                Some(Special::Eval)
            } else if str_eq(name, "quote") {
                Some(Special::Quote)
            } else if str_eq(name, "quasiquote") {
                Some(Special::Quasiquote)
            } else if str_eq(name, "quasiquoteexpand") {
                Some(Special::QuasiquoteExpand)
            } else if str_eq(name, "macroexpand") {
                Some(Special::MacroExpand)
            } else {
                None
            }
        },
        None => None,
    }
}

fn tag(name: &str, form: Form) -> (r: Form)
    ensures
        r@ == tagged(name@, form@),
{
    let mut items: Vec<Form> = Vec::new();
    items.push(Form::symbol(name));
    items.push(form);
    assert(views(items@) =~= seq![FormView::symbol(name@), form@]);
    Form::list(items)
}

fn tag2(name: &str, first: Form, second: Form) -> (r: Form)
    ensures
        r@ == tagged2(name@, first@, second@),
{
    let mut items: Vec<Form> = Vec::new();
    items.push(Form::symbol(name));
    items.push(first);
    items.push(second);
    assert(views(items@) =~= seq![FormView::symbol(name@), first@, second@]);
    Form::list(items)
}

/// The second of the two items of a list.
fn second_of_two(form: &Form) -> (r: Result<Form, Error>)
    ensures
        result_view(r) == match exactly(form@, 2) {
            Some(args) => Ok::<FormView, ErrorView>(args[1]),
            None => Err(ErrorView::InvalidArgument),
        },
{
    proof {
        lemma_collection_views(form.kind);
    }
    match &form.kind {
        FormKind::List(items) => {
            if items.len() == 2 {
                Ok(items[1].clone())
            } else {
                Err(Error::InvalidArgument)
            }
        },
        _ => Err(Error::InvalidArgument),
    }
}

fn quasi_items(items: &Vec<Form>) -> (r: Result<Form, Error>)
    ensures
        result_view(r) == quasi_fold(
            views(items@),
            items@.len() as int,
            FormView::list(Seq::empty()),
        ),
    decreases items, 1nat,
{
    let mut rest = Form::empty_list();
    let mut upto: usize = items.len();
    while upto > 0
        invariant
            upto <= items.len(),
            quasi_fold(views(items@), items@.len() as int, FormView::list(Seq::empty()))
                == quasi_fold(views(items@), upto as int, rest@),
        decreases upto,
    {
        let item = &items[upto - 1];
        let is_splice = match item.as_fn_name() {
            Some(name) => str_eq(name, "splice-unquote"),
            None => false,
        };
        if is_splice {
            let arg = second_of_two(item)?;
            rest = tag2("concat", arg, rest);
        } else {
            let expanded = quasiquote_(item)?;
            rest = tag2("cons", expanded, rest);
        }
        upto = upto - 1;
    }
    Ok(rest)
}

/// The expansion of a quasiquote template.
pub fn quasiquote_(form: &Form) -> (r: Result<Form, Error>)
    ensures
        result_view(r) == quasi(form@),
    decreases form, 0nat,
{
    proof {
        lemma_collection_views(form.kind);
    }
    let is_unquote = match form.as_fn_name() {
        Some(name) => str_eq(name, "unquote"),
        None => false,
    };
    if is_unquote {
        return second_of_two(form);
    }
    match &form.kind {
        FormKind::List(items) => {
            if items.len() == 0 {
                Ok(form.clone())
            } else {
                quasi_items(items)
            }
        },
        FormKind::Vector(items) => {
            let folded = quasi_items(items)?;
            Ok(tag("vec", folded))
        },
        FormKind::Symbol(_) => Ok(tag("quote", form.clone())),
        FormKind::HashMap(_) => Ok(tag("quote", form.clone())),
        _ => Ok(form.clone()),
    }
}

/// `(quasiquote x)`: the expansion of `x`, to be evaluated.
pub fn quasiquote(form: &Form) -> (r: Result<Form, Error>)
    ensures
        result_view(r) == quasiquote_spec(form@),
{
    let template = second_of_two(form)?;
    quasiquote_(&template)
}

/// `(quasiquoteexpand x)`: the expansion of `x`, as the result.
pub fn quasiquoteexpand(form: &Form) -> (r: Result<Form, Error>)
    ensures
        result_view(r) == quasiquote_spec(form@),
{
    let template = second_of_two(form)?;
    quasiquote_(&template)
}

/// `(quote x)`: `x`, as it stands.
pub fn quote(form: Form) -> (r: Result<Form, Error>)
    ensures
        result_view(r) == quoted(form@),
{
    let (_, quoted) = take_2(form)?;
    Ok(quoted)
}


/// `(fn* params body)`: a closure over a new child scope of `env`.
pub fn fn_(form: Form, env: Env, store: &mut Store) -> (r: Result<Form, Error>)
    ensures
        outcome(r, final(store)@) == fn_spec(form@, env, old(store)@),
{
    let (_, params, body) = take_3(form)?;
    let idents = into_idents(params)?;
    let ghost all = names(idents@);
    let mut split: usize = 0;
    while split < idents.len() && !str_eq(idents[split].name.as_str(), "&")
        invariant
            split <= idents.len(),
            all == names(idents@),
            ampersand(all, 0) == ampersand(all, split as int),
        decreases idents.len() - split,
    {
        split = split + 1;
    }
    let mut binds = idents;
    let mut tail = binds.split_off(split);
    let bind_rest = if tail.len() > 1 {
        Some(tail.swap_remove(1))
    } else {
        None
    };
    assert(names(binds@) =~= all.take(split as int));
    let closure = Env::new_with(&env, store);
    Ok(Form::user_fn(binds, bind_rest, body, closure))
}

/// Binds the parameters of the closure `f` to `args` in a new child of its
/// scope, and hands out its body and that scope.
pub fn apply_user_fn(f: Form, args: Vec<Form>, store: &mut Store) -> (r: Result<
    (Form, Env),
    Error,
>)
    ensures
        step_frame(r, final(store)@) == bind_params(f@, views(args@), old(store)@),
{
    match f.kind {
        FormKind::UserFn { binds, bind_rest, body, env, is_macro } => {
            if args.len() < binds.len() {
                return Err(Error::InvalidArgument);
            }
            let ghost pairs = paired(names(binds@), views(args@));
            let ghost given = views(args@);
            let n = binds.len();
            let mut fixed = args;
            let rest = fixed.split_off(n);
            assert(views(rest@) =~= given.skip(n as int));
            let frame = Env::new_with(&env, store);
            let ghost opened = store@;
            let mut i: usize = 0;
            while i < n
                invariant
                    i <= n,
                    n == binds@.len(),
                    n == fixed@.len(),
                    pairs.len() == n,
                    forall|j: int|
                        0 <= j < n ==> (#[trigger] pairs[j]) == (binds@[j].name@, fixed@[j]@),
                    bind_all(opened, frame, pairs, 0) == bind_all(store@, frame, pairs, i as int),
                decreases n - i,
            {
                frame.set(store, binds[i].name.as_str(), fixed[i].clone());
                i = i + 1;
            }
            match bind_rest {
                Some(ident) => {
                    frame.set(store, ident.name.as_str(), Form::list(rest));
                },
                None => {},
            }
            Ok((*body, frame))
        },
        _ => Err(Error::InvalidArgument),
    }
}

/// The macro that a list calls, if it calls one.
pub fn as_macro_call(form: &Form, env: Env, store: &Store) -> (r: Option<Form>)
    ensures
        match r {
            Some(m) => macro_called(form@, env, store@) == Some(m@),
            None => macro_called(form@, env, store@) is None,
        },
{
    match form.as_fn_name() {
        Some(name) => match env.get(store, name) {
            Ok(found) => if found.is_macro() {
                Some(found)
            } else {
                None
            },
            Err(_) => None,
        },
        None => None,
    }
}

/// The same closure, flagged as a macro; any other form as it is.
pub fn into_macro(form: Form) -> (r: Form)
    ensures
        r@ == as_macro(form@),
{
    match form.kind {
        FormKind::UserFn { binds, bind_rest, body, env, is_macro } => Form {
            kind: FormKind::UserFn { binds, bind_rest, body, env, is_macro: true },
            meta: form.meta,
        },
        kind => Form { kind, meta: form.meta },
    }
}


/// The model of a step that gives the entries of a map.
pub open spec fn step_entries(r: Result<Vec<(Form, Form)>, Error>, store: StoreView) -> Step<
    Seq<(FormView, FormView)>,
> {
    Step {
        value: match r {
            Ok(entries) => Ok(entry_views(entries@)),
            Err(e) => Err(e@),
        },
        store,
    }
}

/// Evaluates a form that is not in tail position: one level further in.
fn nested(form: Form, env: Env, store: &mut Store, budget: Budget) -> (r: Result<Form, Error>)
    ensures
        outcome(r, final(store)@) == nested_spec(form@, env, old(store)@, budget),
    decreases budget.fuel, 1nat, 0nat,
{
    if budget.depth == 0 {
        return Err(Error::TooDeep);
    }
    eval(form, env, store, Budget { fuel: budget.fuel, depth: budget.depth - 1 })
}

/// Evaluates each item, left to right.
fn eval_items(items: Vec<Form>, env: Env, store: &mut Store, budget: Budget) -> (r: Result<
    Vec<Form>,
    Error,
>)
    ensures
        step_forms(r, final(store)@) == eval_items_spec(
            views(items@),
            0,
            Seq::empty(),
            env,
            old(store)@,
            budget,
        ),
    decreases budget.fuel, 3nat, items@.len(),
{
    let ghost all = views(items@);
    let ghost goal = eval_items_spec(all, 0, Seq::empty(), env, store@, budget);
    let mut todo = reversed(items);
    let mut values: Vec<Form> = Vec::new();
    assert(views(values@) =~= Seq::empty());
    while todo.len() > 0
        invariant
            todo@.len() + values@.len() == all.len(),
            forall|j: int|
                0 <= j < todo@.len() ==> (#[trigger] todo@[j])@ == all[all.len() - 1 - j],
            goal == eval_items_spec(all, 0, Seq::empty(), env, old(store)@, budget),
            goal == eval_items_spec(all, values@.len() as int, views(values@), env, store@, budget),
            all == views(items@),
        decreases todo.len(),
    {
        let ghost before = views(values@);
        let item = todo.pop().unwrap();
        let value = nested(item, env, store, budget)?;
        values.push(value);
        assert(views(values@) =~= before.push(value@));
    }
    Ok(values)
}

/// Evaluates each entry, key then value, and builds the map again.
fn eval_entries(
    entries: Vec<(Form, Form)>,
    env: Env,
    store: &mut Store,
    budget: Budget,
) -> (r: Result<Vec<(Form, Form)>, Error>)
    ensures
        step_entries(r, final(store)@) == eval_entries_spec(
            entry_views(entries@),
            0,
            Seq::empty(),
            env,
            old(store)@,
            budget,
        ),
    decreases budget.fuel, 3nat, entries@.len(),
{
    let ghost all = entry_views(entries@);
    let ghost goal = eval_entries_spec(all, 0, Seq::empty(), env, store@, budget);
    let mut todo = reversed(entries);
    let mut values: Vec<(Form, Form)> = Vec::new();
    let ghost mut from: int = 0;
    assert(entry_views(values@) =~= Seq::empty());
    while todo.len() > 0
        invariant
            todo@.len() + from == all.len(),
            0 <= from,
            forall|j: int|
                0 <= j < todo@.len() ==> (#[trigger] todo@[j]).0@ == all[all.len() - 1 - j].0
                    && todo@[j].1@ == all[all.len() - 1 - j].1,
            goal == eval_entries_spec(all, 0, Seq::empty(), env, old(store)@, budget),
            goal == eval_entries_spec(all, from, entry_views(values@), env, store@, budget),
            all == entry_views(entries@),
        decreases todo.len(),
    {
        let (key, value) = todo.pop().unwrap();
        let k = nested(key, env, store, budget)?;
        let v = nested(value, env, store, budget)?;
        insert_entry(&mut values, k, v);
        proof {
            from = from + 1;
        }
    }
    Ok(values)
}

/// Evaluates a form as data.
pub fn eval_ast(form: Form, env: Env, store: &mut Store, budget: Budget) -> (r: Result<
    Form,
    Error,
>)
    ensures
        outcome(r, final(store)@) == eval_ast_spec(form@, env, old(store)@, budget),
    decreases budget.fuel, 5nat, 0nat,
{
    proof {
        lemma_collection_views(form.kind);
    }
    match form.kind {
        FormKind::Symbol(ident) => env.get(store, ident.name.as_str()),
        FormKind::List(items) => {
            let values = eval_items(items, env, store, budget)?;
            Ok(Form::list(values))
        },
        FormKind::Vector(items) => {
            let values = eval_items(items, env, store, budget)?;
            Ok(Form::vector(values))
        },
        FormKind::HashMap(entries) => {
            let values = eval_entries(entries, env, store, budget)?;
            Ok(Form::hash_map(values))
        },
        kind => Ok(Form { kind, meta: form.meta }),
    }
}

/// `(def! name value)` and `(defmacro! name value)`.
fn def(form: Form, env: Env, store: &mut Store, budget: Budget, flag: bool) -> (r: Result<
    Form,
    Error,
>)
    ensures
        outcome(r, final(store)@) == def_spec(form@, env, old(store)@, budget, flag),
    decreases budget.fuel, 5nat, 0nat,
{
    let (_, symbol, value) = take_3(form)?;
    let ident = into_ident(symbol)?;
    let made = nested(value, env, store, budget)?;
    let bound = if flag {
        into_macro(made)
    } else {
        made
    };
    env.set(store, ident.name.as_str(), bound.clone());
    Ok(bound)
}

/// The bindings of a `let*`, made one after the other in `scope`.
fn let_bindings(bindings: Vec<Form>, scope: Env, store: &mut Store, budget: Budget) -> (r:
    Result<(), Error>)
    ensures
        (Step::<()> {
            value: match r {
                Ok(_) => Ok(()),
                Err(e) => Err(e@),
            },
            store: final(store)@,
        }) == let_bindings_spec(views(bindings@), 0, scope, old(store)@, budget),
    decreases budget.fuel, 3nat, bindings@.len(),
{
    let ghost all = views(bindings@);
    let ghost goal = let_bindings_spec(all, 0, scope, store@, budget);
    let mut todo = reversed(bindings);
    while todo.len() > 0
        invariant
            todo@.len() <= all.len(),
            forall|j: int|
                0 <= j < todo@.len() ==> (#[trigger] todo@[j])@ == all[all.len() - 1 - j],
            goal == let_bindings_spec(all, 0, scope, old(store)@, budget),
            goal == let_bindings_spec(all, all.len() - todo@.len(), scope, store@, budget),
            all == views(bindings@),
        decreases todo.len(),
    {
        let symbol = todo.pop().unwrap();
        let ident = into_ident(symbol)?;
        let value = match todo.pop() {
            Some(value) => value,
            None => {
                return Err(Error::InvalidArgument);
            },
        };
        let made = nested(value, scope, store, budget)?;
        scope.set(store, ident.name.as_str(), made);
    }
    Ok(())
}

/// `(let* (name value ..) body)`: the body and the scope to evaluate it in.
fn let_(form: Form, env: Env, store: &mut Store, budget: Budget) -> (r: Result<
    (Form, Env),
    Error,
>)
    ensures
        step_frame(r, final(store)@) == let_spec(form@, env, old(store)@, budget),
    decreases budget.fuel, 5nat, 0nat,
{
    let (_, bindings, body) = take_3(form)?;
    let bindings = into_forms(bindings)?;
    let scope = Env::new_with(&env, store);
    let_bindings(bindings, scope, store, budget)?;
    Ok((body, scope))
}

/// `(do a b .. z)`: evaluates all but the last, and hands out the last.
fn do_(form: Form, env: Env, store: &mut Store, budget: Budget) -> (r: Result<Form, Error>)
    ensures
        outcome(r, final(store)@) == do_spec(form@, env, old(store)@, budget),
    decreases budget.fuel, 5nat, 0nat,
{
    proof {
        lemma_collection_views(form.kind);
    }
    let ghost goal = do_spec(form@, env, store@, budget);
    let items = match form.kind {
        FormKind::List(items) => items,
        _ => {
            return Err(Error::InvalidArgument);
        },
    };
    let ghost all = views(items@);
    let mut todo = reversed(items);
    if todo.len() > 0 {
        let _ = todo.pop();
    }
    while todo.len() > 1
        invariant
            todo@.len() < all.len() || all.len() == 0,
            all.len() == 0 ==> todo@.len() == 0,
            forall|j: int|
                0 <= j < todo@.len() ==> (#[trigger] todo@[j])@ == all[all.len() - 1 - j],
            goal == do_items_spec(all, all.len() - todo@.len(), env, store@, budget)
                || all.len() == 0,
            all.len() == 0 ==> goal == done(FormView::nil(), store@),
            goal == do_spec(form@, env, old(store)@, budget),
        decreases todo.len(),
    {
        let item = todo.pop().unwrap();
        let _ = nested(item, env, store, budget)?;
    }
    match todo.pop() {
        Some(last) => Ok(last),
        None => Ok(Form::nil()),
    }
}

/// `(if test then else)`: evaluates the test and hands out the branch.
fn if_(form: Form, env: Env, store: &mut Store, budget: Budget) -> (r: Result<Form, Error>)
    ensures
        outcome(r, final(store)@) == if_spec(form@, env, old(store)@, budget),
    decreases budget.fuel, 5nat, 0nat,
{
    proof {
        lemma_collection_views(form.kind);
    }
    let mut items = match form.kind {
        FormKind::List(items) => items,
        _ => {
            return Err(Error::InvalidArgument);
        },
    };
    if items.len() != 3 && items.len() != 4 {
        return Err(Error::InvalidArgument);
    }
    let on_false = if items.len() == 4 {
        items.pop().unwrap()
    } else {
        Form::nil()
    };
    let on_true = items.pop().unwrap();
    let test = items.pop().unwrap();
    let value = nested(test, env, store, budget)?;
    if value.truthy() {
        Ok(on_true)
    } else {
        Ok(on_false)
    }
}

/// `(eval x)`, first half: the value of `x`, which is the code to run.
fn eval_(form: Form, env: Env, store: &mut Store, budget: Budget) -> (r: Result<Form, Error>)
    ensures
        outcome(r, final(store)@) == eval_arg_spec(form@, env, old(store)@, budget),
    decreases budget.fuel, 5nat, 0nat,
{
    let (_, code) = take_2(form)?;
    nested(code, env, store, budget)
}

/// Expands the form as long as it is a call of a macro.
pub fn macro_expand(form: Form, env: Env, store: &mut Store, budget: Budget) -> (r: Result<
    Form,
    Error,
>)
    ensures
        outcome(r, final(store)@) == expand_spec(form@, env, old(store)@, budget),
    decreases budget.fuel, 8nat, 0nat,
{
    let ghost goal = expand_spec(form@, env, store@, budget);
    let mut current = form;
    let mut fuel = budget.fuel;
    loop
        invariant
            fuel <= budget.fuel,
            goal == expand_spec(form@, env, old(store)@, budget),
            goal == expand_spec(current@, env, store@, Budget { fuel, depth: budget.depth }),
        decreases fuel,
    {
        let m = match as_macro_call(&current, env, store) {
            Some(m) => m,
            None => {
                return Ok(current);
            },
        };
        if fuel == 0 {
            return Err(Error::OutOfFuel);
        }
        fuel = fuel - 1;
        proof {
            lemma_collection_views(current.kind);
        }
        let mut args = match current.kind {
            FormKind::List(items) => items,
            _ => {
                return Err(Error::InvalidArgument);
            },
        };
        let ghost all = views(args@);
        let _ = args.remove(0);
        assert(views(args@) =~= all.skip(1));
        current = call(m, Form::list(args), store, Budget { fuel, depth: budget.depth })?;
    }
}

/// Calls a function, built in or user-defined, on a list of arguments that
/// are already evaluated.
pub fn call(f: Form, params: Form, store: &mut Store, budget: Budget) -> (r: Result<Form, Error>)
    ensures
        outcome(r, final(store)@) == call_spec(f@, params@, old(store)@, budget),
    decreases budget.fuel, 2nat, 0nat,
{
    proof {
        lemma_collection_views(params.kind);
    }
    match &f.kind {
        FormKind::NativeFn(p) => {
            if budget.fuel == 0 {
                return Err(Error::OutOfFuel);
            }
            apply_native_fn(*p, params, store, Budget { fuel: budget.fuel - 1, depth: budget.depth })
        },
        FormKind::UserFn { .. } => {
            if budget.fuel == 0 {
                return Err(Error::OutOfFuel);
            }
            let args = match params.kind {
                FormKind::List(items) => items,
                _ => {
                    return Err(Error::InvalidArgument);
                },
            };
            let (body, scope) = apply_user_fn(f, args, store)?;
            nested(body, scope, store, Budget { fuel: budget.fuel - 1, depth: budget.depth })
        },
        _ => Err(Error::NotCallable),
    }
}

/// Applies a built-in function to a list of arguments.
pub fn apply_native_fn(p: Primitive, params: Form, store: &mut Store, budget: Budget) -> (r:
    Result<Form, Error>)
    ensures
        outcome(r, final(store)@) == native_spec(p, params@, old(store)@, budget),
    decreases budget.fuel, 7nat, 0nat,
{
    match p {
        Primitive::Swap => swap(params, store, budget),
        Primitive::Apply => apply(params, store, budget),
        Primitive::MapOver => map(params, store, budget),
        _ => crate::builtins::apply_simple(p, params, store),
    }
}

/// `(swap! atom f x ..)`.
fn swap(params: Form, store: &mut Store, budget: Budget) -> (r: Result<Form, Error>)
    ensures
        outcome(r, final(store)@) == swap_spec(params@, old(store)@, budget),
    decreases budget.fuel, 6nat, 0nat,
{
    let (fixed, rest) = crate::convert::take_with_rest(params, 2)?;
    let ghost given = views(fixed@) + views(rest.values@);
    let atom = crate::convert::into_atom(&fixed[0])?;
    let held = match atom.get(store) {
        Some(held) => held,
        None => {
            return Err(Error::InvalidArgument);
        },
    };
    atom.set(store, Form::nil());
    let mut fixed = fixed;
    let f = fixed.pop().unwrap();
    let mut args: Vec<Form> = Vec::new();
    args.push(held);
    let mut more = rest.values;
    args.append(&mut more);
    assert(views(args@) =~= seq![held@] + given.skip(2));
    let value = call(f, Form::list(args), store, budget)?;
    atom.set(store, value.clone());
    Ok(value)
}

/// `(apply f x .. xs)`.
fn apply(params: Form, store: &mut Store, budget: Budget) -> (r: Result<Form, Error>)
    ensures
        outcome(r, final(store)@) == apply_spec(params@, old(store)@, budget),
    decreases budget.fuel, 6nat, 0nat,
{
    let (fixed, rest) = crate::convert::take_with_rest(params, 1)?;
    let ghost given = views(fixed@) + views(rest.values@);
    let mut fixed = fixed;
    let f = fixed.pop().unwrap();
    let mut args = rest.values;
    let last = match args.pop() {
        Some(last) => last,
        None => {
            return Err(Error::InvalidArgument);
        },
    };
    assert(last@ == given.last());
    let mut spread = last.try_into_iter()?;
    let ghost front = views(args@);
    let ghost back = views(spread@);
    args.append(&mut spread);
    assert(views(args@) =~= given.subrange(1, given.len() - 1) + back);
    call(f, Form::list(args), store, budget)
}

/// `(map f xs)`.
fn map(params: Form, store: &mut Store, budget: Budget) -> (r: Result<Form, Error>)
    ensures
        outcome(r, final(store)@) == native_spec(Primitive::MapOver, params@, old(store)@, budget),
    decreases budget.fuel, 6nat, 0nat,
{
    let (f, list) = take_2(params)?;
    let items = into_forms(list)?;
    let ghost all = views(items@);
    let ghost goal = map_items_spec(f@, all, 0, Seq::empty(), store@, budget);
    let mut todo = reversed(items);
    let mut values: Vec<Form> = Vec::new();
    assert(views(values@) =~= Seq::empty());
    while todo.len() > 0
        invariant
            todo@.len() + values@.len() == all.len(),
            forall|j: int|
                0 <= j < todo@.len() ==> (#[trigger] todo@[j])@ == all[all.len() - 1 - j],
            goal == map_items_spec(f@, all, 0, Seq::empty(), old(store)@, budget),
            goal == map_items_spec(
                f@,
                all,
                values@.len() as int,
                views(values@),
                store@,
                budget,
            ),
            exactly(params@, 2) == Some(seq![f@, list@]),
            sequence_items(list@) == Some(all),
        decreases todo.len(),
    {
        let ghost before = views(values@);
        let item = todo.pop().unwrap();
        let mut one: Vec<Form> = Vec::new();
        one.push(item);
        assert(views(one@) =~= seq![item@]);
        let value = call(f.clone(), Form::list(one), store, budget)?;
        values.push(value);
        assert(views(values@) =~= before.push(value@));
    }
    Ok(Form::list(values))
}

/// Evaluates `form` in the scope `env`, within `budget`.
///
/// Tail positions (the body of a `let*`, the last form of a `do`, the chosen
/// branch of an `if`, the expansion of a `quasiquote`, the code of an `eval`
/// and the body of a called closure) are run by the loop of this function,
/// not by a call of it.
pub fn eval(form: Form, env: Env, store: &mut Store, budget: Budget) -> (r: Result<Form, Error>)
    ensures
        outcome(r, final(store)@) == eval_spec(form@, env, old(store)@, budget),
    decreases budget.fuel, 0nat, 0nat,
{
    let ghost goal = eval_spec(form@, env, store@, budget);
    let mut current = form;
    let mut scope = env;
    let mut fuel = budget.fuel;
    loop
        invariant
            fuel <= budget.fuel,
            goal == eval_spec(form@, env, old(store)@, budget),
            goal == eval_spec(current@, scope, store@, Budget { fuel, depth: budget.depth }),
        decreases fuel,
    {
        if fuel == 0 {
            return Err(Error::OutOfFuel);
        }
        fuel = fuel - 1;
        let left = Budget { fuel, depth: budget.depth };
        current = macro_expand(current, scope, store, left)?;
        assert(goal == dispatch_spec(current@, scope, store@, left));
        proof {
            lemma_collection_views(current.kind);
        }
        if !current.is_list() {
            return eval_ast(current, scope, store, left);
        }
        if current.is_empty_list() {
            return Ok(current);
        }
        match special(&current) {
            Some(Special::Def) => {
                return def(current, scope, store, left, false);
            },
            Some(Special::DefMacro) => {
                return def(current, scope, store, left, true);
            },
            Some(Special::Let) => {
                let (body, inner) = let_(current, scope, store, left)?;
                current = body;
                scope = inner;
            },
            Some(Special::Do) => {
                current = do_(current, scope, store, left)?;
            },
            Some(Special::If) => {
                current = if_(current, scope, store, left)?;
            },
            Some(Special::Fn) => {
                return fn_(current, scope, store);
            },
            Some(Special::Eval) => {
                current = eval_(current, scope, store, left)?;
                scope = scope.root(store);
            },
            Some(Special::Quote) => {
                return quote(current);
            },
            Some(Special::Quasiquote) => {
                current = quasiquote(&current)?;
            },
            Some(Special::QuasiquoteExpand) => {
                return quasiquoteexpand(&current);
            },
            Some(Special::MacroExpand) => {
                let (_, arg) = take_2(current)?;
                return macro_expand(arg, scope, store, left);
            },
            None => {
                let items = match current.kind {
                    FormKind::List(items) => items,
                    _ => {
                        return Err(Error::InvalidApply);
                    },
                };
                proof {
                    lemma_eval_items_len(views(items@), 0, Seq::empty(), scope, store@, left);
                }
                let mut values = eval_items(items, scope, store, left)?;
                let ghost all = views(values@);
                let f = values.remove(0);
                assert(views(values@) =~= all.skip(1));
                if f.is_user_fn() {
                    let (body, frame) = apply_user_fn(f, values, store)?;
                    current = body;
                    scope = frame;
                } else {
                    match f.kind {
                        FormKind::NativeFn(p) => {
                            return apply_native_fn(p, Form::list(values), store, left);
                        },
                        _ => {
                            return Err(Error::InvalidApply);
                        },
                    }
                }
            },
        }
    }
}


impl Form {
    /// Calls this form as a function on a list of arguments that are already
    /// evaluated. A form that is no function is `NotCallable`.
    pub fn call(self, params: Form, store: &mut Store, budget: Budget) -> (r: Result<Form, Error>)
        ensures
            outcome(r, final(store)@) == call_spec(self@, params@, old(store)@, budget),
    {
        call(self, params, store, budget)
    }
}

} // verus!
