use risp::convert::{
    from_option, into_atom, into_entries, into_forms, into_ident, into_idents, into_int,
    into_ints, into_string, reversed, take_1, take_2, take_3, take_with_rest, Rest,
};
use risp::form::Atom;
use risp::{Error, Form};

fn ints(values: &[i64]) -> Vec<Form> {
    values.iter().map(|n| Form::integer(*n)).collect()
}

#[test]
fn reversed_turns_the_order_round() {
    assert_eq!(reversed(vec![1, 2, 3]), vec![3, 2, 1]);
    assert_eq!(reversed(Vec::<u8>::new()), Vec::<u8>::new());
}

#[test]
fn fixed_arity_takes_exactly_that_many() {
    assert!(take_1(Form::list(ints(&[1]))).unwrap() == Form::integer(1));
    assert!(matches!(take_1(Form::list(ints(&[]))), Err(Error::InvalidArgument)));
    assert!(matches!(take_1(Form::list(ints(&[1, 2]))), Err(Error::InvalidArgument)));
    assert!(matches!(take_1(Form::vector(ints(&[1]))), Err(Error::InvalidArgument)));
    assert!(matches!(take_1(Form::nil()), Err(Error::InvalidArgument)));
    let (a, b) = take_2(Form::list(ints(&[1, 2]))).unwrap();
    assert!(a == Form::integer(1) && b == Form::integer(2));
    assert!(matches!(take_2(Form::list(ints(&[1]))), Err(Error::InvalidArgument)));
    assert!(matches!(take_2(Form::list(ints(&[1, 2, 3]))), Err(Error::InvalidArgument)));
    let (a, b, c) = take_3(Form::list(ints(&[1, 2, 3]))).unwrap();
    assert!(a == Form::integer(1) && b == Form::integer(2) && c == Form::integer(3));
    assert!(matches!(take_3(Form::list(ints(&[1, 2]))), Err(Error::InvalidArgument)));
    assert!(matches!(take_3(Form::vector(ints(&[1, 2, 3]))), Err(Error::InvalidArgument)));
}

#[test]
fn a_rest_takes_what_is_left() {
    let (fixed, rest) = take_with_rest(Form::list(ints(&[1, 2, 3, 4])), 1).unwrap();
    assert_eq!(fixed.len(), 1);
    assert!(fixed[0] == Form::integer(1));
    assert!(rest.into_form() == Form::list(ints(&[2, 3, 4])));
    let (fixed, rest) = take_with_rest(Form::list(ints(&[1, 2])), 2).unwrap();
    assert_eq!(fixed.len(), 2);
    assert!(rest.values.is_empty());
    assert!(matches!(take_with_rest(Form::list(ints(&[1])), 2), Err(Error::InvalidArgument)));
    assert!(matches!(take_with_rest(Form::nil(), 0), Err(Error::InvalidArgument)));
    assert!(Rest::new(ints(&[7])).values[0] == Form::integer(7));
}

#[test]
fn sequences_are_lists_vectors_and_nil() {
    assert_eq!(into_forms(Form::list(ints(&[1, 2]))).unwrap().len(), 2);
    assert_eq!(into_forms(Form::vector(ints(&[1, 2, 3]))).unwrap().len(), 3);
    assert!(into_forms(Form::nil()).unwrap().is_empty());
    assert!(matches!(into_forms(Form::integer(1)), Err(Error::InvalidArgument)));
    assert!(matches!(into_forms(Form::string("ab")), Err(Error::InvalidArgument)));
}

#[test]
fn typed_values_come_out_of_their_kinds() {
    assert_eq!(into_int(&Form::integer(5)).unwrap(), 5);
    assert!(matches!(into_int(&Form::string("5")), Err(Error::InvalidArgument)));
    assert_eq!(into_ints(Form::list(ints(&[1, -2]))).unwrap(), vec![1, -2]);
    assert_eq!(into_ints(Form::nil()).unwrap(), Vec::<i64>::new());
    assert!(matches!(
        into_ints(Form::list(vec![Form::integer(1), Form::nil()])),
        Err(Error::InvalidArgument)
    ));
    assert!(matches!(into_ints(Form::integer(1)), Err(Error::InvalidArgument)));
    assert_eq!(into_ident(Form::symbol("s")).unwrap().name, "s");
    assert!(matches!(into_ident(Form::keyword("s")), Err(Error::InvalidArgument)));
    let idents = into_idents(Form::vector(vec![Form::symbol("a"), Form::symbol("b")])).unwrap();
    assert_eq!(idents.len(), 2);
    assert_eq!(idents[0].name, "a");
    assert_eq!(idents[1].name, "b");
    assert!(matches!(
        into_idents(Form::list(vec![Form::symbol("a"), Form::integer(1)])),
        Err(Error::InvalidArgument)
    ));
    assert_eq!(into_string(Form::string("text")).unwrap(), "text");
    assert!(matches!(into_string(Form::symbol("text")), Err(Error::InvalidArgument)));
    assert_eq!(into_atom(&Form::atom(Atom { id: 4 })).unwrap(), Atom { id: 4 });
    assert!(matches!(into_atom(&Form::nil()), Err(Error::InvalidArgument)));
    assert_eq!(
        into_entries(Form::hash_map(vec![(Form::nil(), Form::nil())])).unwrap().len(),
        1
    );
    assert!(matches!(into_entries(Form::list(vec![])), Err(Error::InvalidArgument)));
    assert!(from_option(None) == Form::nil());
    assert!(from_option(Some(Form::integer(1))) == Form::integer(1));
}
