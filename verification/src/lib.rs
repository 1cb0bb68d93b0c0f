//! A small Lisp: a reader, a universal form type, lexical environments kept in
//! a store, and an evaluator that runs tail calls in a loop.
//!
//! Every value is a [`Form`]. Scopes and mutable cells live in a [`Store`]
//! and are addressed by handle ([`Env`], [`form::Atom`]), so that closures
//! can share a scope and several holders can share a cell. Evaluation is
//! bounded by a [`Budget`] of fuel and nesting depth.
//!
//! Each type has a mathematical model (its view), and what the library
//! computes is stated over these models: [`reader::read_spec`] for the
//! reader, [`eval::eval_spec`] for the evaluator, [`format::render`] for the
//! printer, [`form::same`] for equality.
//!
//! The library does no input or output. What a program prints is queued in
//! the store for the host to take; the files it may read and the time it
//! sees are what the host has put into the store.

pub mod builtins;
pub mod convert;
pub mod env;
pub mod eval;
pub mod form;
pub mod format;
pub mod ptr;
pub mod reader;

pub use crate::env::{Env, Store};
pub use crate::eval::{eval, Budget};
pub use crate::form::{Form, FormKind};
pub use crate::format::pr_str;
pub use crate::reader::read_str;

use crate::env::StoreView;
use crate::eval::{eval_spec, failed, outcome, Outcome};
use crate::form::FormView;
use crate::format::{decimal, number_to_string, render, ATOM_DEPTH};
use crate::reader::read_spec;
use vstd::prelude::*;
use vstd::string::StringExecFns;

verus! {

/// Everything that can go wrong while reading or evaluating.
#[derive(Debug)]
pub enum Error {
    /// The input ended inside a form, or held more than one form.
    Eof,
    /// A list was opened and never closed.
    UnbalancedList,
    /// No scope on the chain binds the name.
    UnknownSymbol(String),
    /// A token that should be a number does not parse as one.
    InvalidNumber(String),
    /// Wrong number, shape or type of arguments.
    InvalidArgument,
    /// The head of an application is not a function.
    InvalidApply,
    /// A value that is not a function was called.
    NotCallable,
    /// An integer does not fit where it is needed.
    NumberConversion,
    /// A form that is neither a list nor a vector was iterated.
    NotIterable,
    /// A value thrown by the program.
    UserError(Form),
    /// An index past the end of a sequence.
    IndexOutOfRange(usize),
    /// A file that the host has not handed to the store.
    FileNotLoaded(String),
    /// The searchers that escape strings could not be built.
    Patterns,
    /// The clock could not be read.
    Clock,
    /// The evaluation used up its fuel.
    OutOfFuel,
    /// The evaluation nested deeper than its limit.
    TooDeep,
}

/// The mathematical model of an [`Error`].
pub ghost enum ErrorView {
    Eof,
    UnbalancedList,
    UnknownSymbol(Seq<char>),
    InvalidNumber(Seq<char>),
    InvalidArgument,
    InvalidApply,
    NotCallable,
    NumberConversion,
    NotIterable,
    UserError(FormView),
    IndexOutOfRange(usize),
    FileNotLoaded(Seq<char>),
    Patterns,
    Clock,
    OutOfFuel,
    TooDeep,
}

impl View for Error {
    type V = ErrorView;

    open spec fn view(&self) -> ErrorView {
        match self {
            Error::Eof => ErrorView::Eof,
            Error::UnbalancedList => ErrorView::UnbalancedList,
            Error::UnknownSymbol(name) => ErrorView::UnknownSymbol(name@),
            Error::InvalidNumber(token) => ErrorView::InvalidNumber(token@),
            Error::InvalidArgument => ErrorView::InvalidArgument,
            Error::InvalidApply => ErrorView::InvalidApply,
            Error::NotCallable => ErrorView::NotCallable,
            Error::NumberConversion => ErrorView::NumberConversion,
            Error::NotIterable => ErrorView::NotIterable,
            Error::UserError(form) => ErrorView::UserError(form@),
            Error::IndexOutOfRange(index) => ErrorView::IndexOutOfRange(*index),
            Error::FileNotLoaded(path) => ErrorView::FileNotLoaded(path@),
            Error::Patterns => ErrorView::Patterns,
            Error::Clock => ErrorView::Clock,
            Error::OutOfFuel => ErrorView::OutOfFuel,
            Error::TooDeep => ErrorView::TooDeep,
        }
    }
}


/// What an error says of itself.
pub open spec fn message_spec(error: ErrorView, store: StoreView) -> Seq<char> {
    match error {
        ErrorView::Eof => "unexpected end of input"@,
        ErrorView::UnbalancedList => "unbalanced list"@,
        ErrorView::UnknownSymbol(name) => name + " not found"@,
        ErrorView::InvalidNumber(token) => "invalid number "@ + token,
        ErrorView::InvalidArgument => "invalid argument"@,
        ErrorView::InvalidApply => "tried to apply something that's not a function"@,
        ErrorView::NotCallable => "tried to call something that's not a function"@,
        ErrorView::NumberConversion => "could not convert integer"@,
        ErrorView::NotIterable => "attempted to iterate non-iterable Form"@,
        ErrorView::UserError(form) => "uncaught "@ + render(form, store, true, ATOM_DEPTH as nat),
        ErrorView::IndexOutOfRange(index) => "index out of range: "@ + decimal(index as int),
        ErrorView::FileNotLoaded(path) => "file not loaded: "@ + path,
        ErrorView::Patterns => "could not build the escape patterns"@,
        ErrorView::Clock => "could not read the clock"@,
        ErrorView::OutOfFuel => "out of fuel"@,
        ErrorView::TooDeep => "nested too deep"@,
    }
}

impl Error {
    /// What the error says of itself. A thrown value is printed readably, as
    /// it stands in `store`.
    pub fn message(&self, store: &Store) -> (text: String)
        ensures
            text@ == message_spec(self@, store@),
    {
        match self {
            Error::Eof => String::from_str("unexpected end of input"),
            Error::UnbalancedList => String::from_str("unbalanced list"),
            Error::UnknownSymbol(name) => {
                let mut text = name.clone();
                text.append(" not found");
                text
            },
            Error::InvalidNumber(token) => {
                let mut text = String::from_str("invalid number ");
                text.append(token.as_str());
                text
            },
            Error::InvalidArgument => String::from_str("invalid argument"),
            Error::InvalidApply => String::from_str(
                "tried to apply something that's not a function",
            ),
            Error::NotCallable => String::from_str("tried to call something that's not a function"),
            Error::NumberConversion => String::from_str("could not convert integer"),
            Error::NotIterable => String::from_str("attempted to iterate non-iterable Form"),
            Error::UserError(form) => {
                let mut text = String::from_str("uncaught ");
                crate::format::write_form(&mut text, form, store, true, ATOM_DEPTH);
                text
            },
            Error::IndexOutOfRange(index) => {
                let mut text = String::from_str("index out of range: ");
                let number = number_to_string(*index as i128);
                text.append(number.as_str());
                text
            },
            Error::FileNotLoaded(path) => {
                let mut text = String::from_str("file not loaded: ");
                text.append(path.as_str());
                text
            },
            Error::Patterns => String::from_str("could not build the escape patterns"),
            Error::Clock => String::from_str("could not read the clock"),
            Error::OutOfFuel => String::from_str("out of fuel"),
            Error::TooDeep => String::from_str("nested too deep"),
        }
    }
}

/// What reading the one form of a text and evaluating it gives.
pub open spec fn eval_text_spec(text: Seq<char>, env: Env, store: StoreView, budget: Budget) -> Outcome {
    match read_spec(text) {
        Ok(form) => eval_spec(form, env, store, budget),
        Err(e) => failed(e, store),
    }
}

/// Reads the one form of a text and evaluates it in `env`.
pub fn eval_str(text: &str, env: Env, store: &mut Store, budget: Budget) -> (r: Result<Form, Error>)
    ensures
        outcome(r, final(store)@) == eval_text_spec(text@, env, old(store)@, budget),
{
    let form = read_str(text, store.escapes())?;
    eval(form, env, store, budget)
}

} // verus!
