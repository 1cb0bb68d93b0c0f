use risp::builtins::Primitive;
use risp::env::{Env, Store};
use risp::form::{Atom, Ident};
use risp::format::{
    display_str, escape_unprintable, int_to_string, number_to_string, quote_text, write_form,
    write_items, Escapes,
};
use risp::{pr_str, Error, Form};

fn store() -> Store {
    Store::new(Escapes::new().unwrap())
}

#[test]
fn scalars_print_as_they_read() {
    let store = store();
    assert_eq!(pr_str(&Form::nil(), &store), "nil");
    assert_eq!(pr_str(&Form::boolean(true), &store), "true");
    assert_eq!(pr_str(&Form::boolean(false), &store), "false");
    assert_eq!(pr_str(&Form::integer(-12), &store), "-12");
    assert_eq!(pr_str(&Form::symbol("abc"), &store), "abc");
    assert_eq!(pr_str(&Form::keyword("kw"), &store), ":kw");
}

#[test]
fn strings_are_escaped_when_read_back_is_wanted() {
    let store = store();
    let text = Form::string("a\"b\\c\nd");
    assert_eq!(pr_str(&text, &store), "\"a\\\"b\\\\c\\nd\"");
    assert_eq!(display_str(&text, &store), "a\"b\\c\nd");
    assert_eq!(pr_str(&Form::string(""), &store), "\"\"");
}

#[test]
fn escaping_replaces_backslash_newline_and_quote() {
    let escapes = Escapes::new().unwrap();
    assert_eq!(escape_unprintable("plain", &escapes), "plain");
    assert_eq!(escape_unprintable("a\\b", &escapes), "a\\\\b");
    assert_eq!(escape_unprintable("a\nb", &escapes), "a\\nb");
    assert_eq!(escape_unprintable("a\"b", &escapes), "a\\\"b");
    assert_eq!(escapes.escape("\\\n\""), "\\\\\\n\\\"");
    assert_eq!(escapes.unescape("a\\\\nb"), "a\\nb");
    assert_eq!(escapes.unescape("a\\nb"), "a\nb");
    assert_eq!(escapes.unescape("\\\"x\\\""), "\"x\"");
    assert_eq!(escapes.unescape(&escapes.escape("mix \\ \n \" end")), "mix \\ \n \" end");
    assert_eq!(quote_text("a\\nb"), "\"a\\nb\"");
}

#[test]
fn collections_print_between_their_brackets() {
    let store = store();
    let list = Form::list(vec![Form::integer(1), Form::string("two"), Form::symbol("three")]);
    assert_eq!(pr_str(&list, &store), "(1 \"two\" three)");
    assert_eq!(display_str(&list, &store), "(1 two three)");
    assert_eq!(pr_str(&Form::list(vec![]), &store), "()");
    assert_eq!(pr_str(&Form::vector(vec![Form::integer(1), Form::list(vec![])]), &store), "[1 ()]");
    let map = Form::hash_map(vec![
        (Form::keyword("a"), Form::integer(1)),
        (Form::string("b"), Form::vector(vec![])),
    ]);
    assert_eq!(pr_str(&map, &store), "{:a 1 \"b\" []}");
    assert_eq!(display_str(&map, &store), "{:a 1 b []}");
    assert_eq!(pr_str(&Form::hash_map(vec![]), &store), "{}");
}

#[test]
fn functions_print_as_tags() {
    let store = store();
    assert_eq!(pr_str(&Form::native_fn(Primitive::Plus), &store), "#<native>");
    let f = Form::user_fn(vec![Ident::from_str("x")], None, Form::nil(), Env { id: 0 });
    assert_eq!(pr_str(&f, &store), "#<function>");
    let m = Form::macro_(vec![], None, Form::nil(), Env { id: 0 });
    assert_eq!(pr_str(&m, &store), "#<macro>");
}

#[test]
fn atoms_print_what_they_hold() {
    let mut store = store();
    let atom = Atom::new(Form::string("in"), &mut store);
    assert_eq!(pr_str(&Form::atom(atom), &store), "(atom \"in\")");
    assert_eq!(display_str(&Form::atom(atom), &store), "in");
    assert_eq!(pr_str(&Form::atom(Atom { id: 99 }), &store), "#<atom>");
}

#[test]
fn an_atom_that_holds_itself_is_cut_off() {
    let mut store = store();
    let atom = Atom::new(Form::nil(), &mut store);
    atom.set(&mut store, Form::atom(atom));
    let text = pr_str(&Form::atom(atom), &store);
    assert_eq!(text, format!("{}#<atom>{}", "(atom ".repeat(16), ")".repeat(16)));
    assert_eq!(display_str(&Form::atom(atom), &store), "#<atom>");
}

#[test]
fn integers_print_in_decimal() {
    assert_eq!(int_to_string(0), "0");
    assert_eq!(int_to_string(7), "7");
    assert_eq!(int_to_string(-7), "-7");
    assert_eq!(int_to_string(10), "10");
    assert_eq!(int_to_string(1234567890), "1234567890");
    assert_eq!(int_to_string(i64::MAX), "9223372036854775807");
    assert_eq!(int_to_string(i64::MIN), "-9223372036854775808");
    assert_eq!(number_to_string(18446744073709551615), "18446744073709551615");
}

#[test]
fn writing_appends() {
    let store = store();
    let mut out = String::from("> ");
    write_form(&mut out, &Form::integer(5), &store, true, 4);
    assert_eq!(out, "> 5");
    write_items(&mut out, &vec![Form::string("a"), Form::nil()], &store, true, 4);
    assert_eq!(out, "> 5\"a\" nil");
    let mut none = String::new();
    write_items(&mut none, &vec![], &store, true, 4);
    assert_eq!(none, "");
}

#[test]
fn errors_say_what_went_wrong() {
    let store = store();
    assert_eq!(Error::Eof.message(&store), "unexpected end of input");
    assert_eq!(Error::UnbalancedList.message(&store), "unbalanced list");
    assert_eq!(Error::UnknownSymbol("x".to_string()).message(&store), "x not found");
    assert_eq!(Error::InvalidNumber("1x".to_string()).message(&store), "invalid number 1x");
    assert_eq!(Error::InvalidArgument.message(&store), "invalid argument");
    assert_eq!(
        Error::InvalidApply.message(&store),
        "tried to apply something that's not a function"
    );
    assert_eq!(
        Error::NotCallable.message(&store),
        "tried to call something that's not a function"
    );
    assert_eq!(Error::NumberConversion.message(&store), "could not convert integer");
    assert_eq!(Error::NotIterable.message(&store), "attempted to iterate non-iterable Form");
    assert_eq!(Error::UserError(Form::string("boom")).message(&store), "uncaught \"boom\"");
    assert_eq!(Error::IndexOutOfRange(12).message(&store), "index out of range: 12");
    assert_eq!(Error::FileNotLoaded("a.mal".to_string()).message(&store), "file not loaded: a.mal");
    assert_eq!(Error::Patterns.message(&store), "could not build the escape patterns");
    assert_eq!(Error::Clock.message(&store), "could not read the clock");
    assert_eq!(Error::OutOfFuel.message(&store), "out of fuel");
    assert_eq!(Error::TooDeep.message(&store), "nested too deep");
}
