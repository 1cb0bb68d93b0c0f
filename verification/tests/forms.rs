use risp::builtins::Primitive;
use risp::env::Env;
use risp::form::{find_key, insert_entry, insert_pairs, Atom, Ident};
use risp::{Error, Form, FormKind};

fn ints(values: &[i64]) -> Vec<Form> {
    values.iter().map(|n| Form::integer(*n)).collect()
}

fn closure() -> Form {
    Form::user_fn(vec![Ident::from_str("x")], None, Form::symbol("x"), Env { id: 0 })
}

#[test]
fn list_equals_vector_with_equal_items() {
    assert!(Form::list(ints(&[1, 2, 3])) == Form::vector(ints(&[1, 2, 3])));
    assert!(Form::vector(ints(&[1, 2, 3])) == Form::list(ints(&[1, 2, 3])));
    assert!(Form::list(vec![]) == Form::vector(vec![]));
    assert!(Form::list(ints(&[1, 2])) != Form::vector(ints(&[1, 2, 3])));
    assert!(Form::list(ints(&[1, 2, 4])) != Form::vector(ints(&[1, 2, 3])));
}

#[test]
fn nested_sequences_compare_item_by_item() {
    let a = Form::list(vec![Form::vector(ints(&[1])), Form::string("s")]);
    let b = Form::vector(vec![Form::list(ints(&[1])), Form::string("s")]);
    assert!(a == b);
}

#[test]
fn functions_equal_nothing() {
    let native = Form::native_fn(Primitive::Plus);
    assert!(native != native.clone());
    assert!(!(native == native));
    let f = closure();
    assert!(!(f == f));
    assert!(f != Form::nil());
    assert!(Form::nil() != f);
    let m = Form::macro_(vec![], None, Form::nil(), Env { id: 0 });
    assert!(!(m == m));
}

#[test]
fn atoms_equal_nothing() {
    let a = Form::atom(Atom { id: 0 });
    assert!(!(a == a));
}

#[test]
fn a_list_that_holds_a_function_is_not_equal_to_itself() {
    let a = Form::list(vec![closure()]);
    assert!(!(a == a));
}

#[test]
fn scalars_compare_by_value() {
    assert!(Form::nil() == Form::nil());
    assert!(Form::boolean(true) == Form::boolean(true));
    assert!(Form::boolean(true) != Form::boolean(false));
    assert!(Form::integer(7) == Form::integer(7));
    assert!(Form::integer(7) != Form::integer(8));
    assert!(Form::symbol("a") == Form::symbol("a"));
    assert!(Form::symbol("a") != Form::symbol("b"));
    assert!(Form::string("a") == Form::string("a"));
    assert!(Form::keyword("a") == Form::keyword("a"));
    assert!(Form::string("a") != Form::keyword("a"));
    assert!(Form::string("a") != Form::symbol("a"));
    assert!(Form::nil() != Form::boolean(false));
    assert!(Form::integer(0) != Form::nil());
}

#[test]
fn metadata_plays_no_part_in_equality() {
    let plain = Form::list(ints(&[1]));
    let mut tagged = Form::list(ints(&[1]));
    tagged.meta = Some(Box::new(Form::string("about")));
    assert!(plain == tagged);
}

#[test]
fn maps_compare_without_regard_to_order() {
    let a = Form::hash_map(vec![
        (Form::keyword("a"), Form::integer(1)),
        (Form::keyword("b"), Form::integer(2)),
    ]);
    let b = Form::hash_map(vec![
        (Form::keyword("b"), Form::integer(2)),
        (Form::keyword("a"), Form::integer(1)),
    ]);
    let c = Form::hash_map(vec![
        (Form::keyword("b"), Form::integer(2)),
        (Form::keyword("a"), Form::integer(3)),
    ]);
    let d = Form::hash_map(vec![(Form::keyword("a"), Form::integer(1))]);
    assert!(a == b);
    assert!(a != c);
    assert!(a != d);
    assert!(a != Form::list(vec![]));
}

#[test]
fn predicates_tell_the_kinds_apart() {
    assert!(Form::nil().is_nil());
    assert!(!Form::integer(0).is_nil());
    assert!(Form::boolean(false).is_boolean());
    assert!(Form::symbol("s").is_symbol());
    assert!(Form::integer(1).is_number());
    assert!(Form::string("s").is_string());
    assert!(Form::keyword("k").is_keyword());
    assert!(Form::list(vec![]).is_list());
    assert!(!Form::vector(vec![]).is_list());
    assert!(Form::vector(vec![]).is_vector());
    assert!(Form::hash_map(vec![]).is_hash_map());
    assert!(Form::native_fn(Primitive::Cons).is_native_fn());
    assert!(Form::atom(Atom { id: 3 }).is_atom());
    assert!(Form::list(vec![]).is_empty_list());
    assert!(!Form::vector(vec![]).is_empty_list());
    assert!(!Form::list(ints(&[1])).is_empty_list());
    assert!(Form::empty_list().is_empty_list());
    assert!(Form::vector(vec![]).is_sequential());
    assert!(Form::list(vec![]).is_sequential());
    assert!(!Form::nil().is_sequential());
    assert!(Form::vector(vec![]).is_empty_sequential());
    assert!(!Form::vector(ints(&[1])).is_empty_sequential());
    assert!(Form::symbol("abc").is_symbol_named("abc"));
    assert!(!Form::symbol("abc").is_symbol_named("abd"));
    assert!(!Form::string("abc").is_symbol_named("abc"));
    assert!(closure().is_user_fn());
    assert!(!closure().is_macro());
    let m = Form::macro_(vec![], None, Form::nil(), Env { id: 0 });
    assert!(m.is_macro());
    assert!(!m.is_user_fn());
}

#[test]
fn truthiness() {
    assert!(!Form::nil().truthy());
    assert!(!Form::boolean(false).truthy());
    assert!(Form::boolean(true).truthy());
    assert!(Form::integer(0).truthy());
    assert!(Form::string("").truthy());
    assert!(Form::list(vec![]).truthy());
}

#[test]
fn iteration_is_for_lists_and_vectors() {
    let list = Form::list(ints(&[1, 2]));
    assert_eq!(list.iter().unwrap().len(), 2);
    assert_eq!(list.iter().unwrap().len(), 2);
    assert!(list.as_slice().unwrap()[1] == Form::integer(2));
    let vector = Form::vector(ints(&[5]));
    assert!(vector.try_into_iter().unwrap()[0] == Form::integer(5));
    assert!(matches!(Form::nil().iter(), Err(Error::NotIterable)));
    assert!(matches!(Form::string("abc").try_into_iter(), Err(Error::NotIterable)));
    assert!(Form::integer(1).as_slice().is_none());
    let mut changing = Form::list(ints(&[1, 2]));
    changing.iter_mut().unwrap().push(Form::integer(3));
    assert!(changing == Form::list(ints(&[1, 2, 3])));
    assert!(matches!(Form::nil().iter_mut(), Err(Error::NotIterable)));
}

#[test]
fn names_of_symbols_and_heads() {
    assert_eq!(Form::symbol("abc").as_symbol_name(), Some("abc"));
    assert_eq!(Form::string("abc").as_symbol_name(), None);
    let call = Form::list(vec![Form::symbol("f"), Form::integer(1)]);
    assert_eq!(call.as_fn_name(), Some("f"));
    assert_eq!(Form::list(vec![]).as_fn_name(), None);
    assert_eq!(Form::list(ints(&[1])).as_fn_name(), None);
    assert_eq!(Form::vector(vec![Form::symbol("f")]).as_fn_name(), None);
}

#[test]
fn clone_is_deep_and_equal() {
    let original = Form::list(vec![
        Form::vector(ints(&[1, 2])),
        Form::hash_map(vec![(Form::keyword("k"), Form::string("v"))]),
        Form::symbol("s"),
    ]);
    let copy = original.clone();
    assert!(copy == original);
    assert_eq!(Ident::from_str("abc").clone().name, "abc");
}

#[test]
fn map_entries_are_found_by_equal_keys() {
    let mut entries = vec![
        (Form::keyword("a"), Form::integer(1)),
        (Form::list(ints(&[1])), Form::integer(2)),
    ];
    assert_eq!(find_key(&entries, &Form::keyword("a")), Some(0));
    assert_eq!(find_key(&entries, &Form::vector(ints(&[1]))), Some(1));
    assert_eq!(find_key(&entries, &Form::keyword("z")), None);
    insert_entry(&mut entries, Form::keyword("a"), Form::integer(10));
    assert_eq!(entries.len(), 2);
    assert!(entries[0].1 == Form::integer(10));
    insert_entry(&mut entries, Form::keyword("c"), Form::integer(3));
    assert_eq!(entries.len(), 3);
    assert!(entries[2].0 == Form::keyword("c"));
}

#[test]
fn pairs_are_taken_two_by_two_in_order() {
    let entries = insert_pairs(
        vec![],
        vec![
            Form::keyword("a"),
            Form::integer(1),
            Form::keyword("b"),
            Form::integer(2),
            Form::keyword("a"),
            Form::integer(3),
        ],
    );
    assert_eq!(entries.len(), 2);
    assert!(entries[0].0 == Form::keyword("a"));
    assert!(entries[0].1 == Form::integer(3));
    assert!(entries[1].0 == Form::keyword("b"));
    assert!(entries[1].1 == Form::integer(2));
}

fn hashed(form: &Form) -> Vec<u8> {
    let mut state = Vec::new();
    form.hash(&mut state);
    state
}

#[test]
fn hash_feeds_tag_and_contents() {
    assert_eq!(hashed(&Form::nil()), vec![0, 0]);
    assert_eq!(hashed(&Form::boolean(true)), vec![0, 1, 1]);
    assert_eq!(hashed(&Form::symbol("ab")), vec![0, 2, b'a', b'b', 0xff]);
    assert_eq!(hashed(&Form::integer(258)), vec![0, 3, 2, 1, 0, 0, 0, 0, 0, 0]);
    assert_eq!(hashed(&Form::integer(-1)), vec![0, 3, 255, 255, 255, 255, 255, 255, 255, 255]);
    assert_eq!(hashed(&Form::string("é")), vec![0, 5, 0xc3, 0xa9, 0xff]);
    assert_eq!(hashed(&Form::keyword("k")), vec![0, 6, b'k', 0xff]);
    assert_eq!(hashed(&Form::list(vec![Form::nil()])), vec![0, 7, 0, 0, 0]);
    assert_eq!(hashed(&Form::vector(vec![Form::nil()])), vec![0, 8, 0, 0, 0]);
    assert_eq!(
        hashed(&Form::hash_map(vec![(Form::nil(), Form::boolean(false))])),
        vec![0, 9, 0, 0, 0, 1, 0, 1, 0]
    );
    assert_eq!(hashed(&Form::native_fn(Primitive::Plus)), vec![0, 0x0a]);
    assert_eq!(hashed(&closure()), vec![0, 0x0b]);
    assert_eq!(hashed(&Form::atom(Atom { id: 9 })), vec![0, 0x0c]);
    let mut state = vec![7u8];
    FormKind::Nil.hash(&mut state);
    assert_eq!(state, vec![7, 0, 0]);
}

#[test]
fn equal_scalars_hash_alike() {
    assert_eq!(hashed(&Form::string("abc")), hashed(&Form::string("abc")));
    assert_ne!(hashed(&Form::string("abc")), hashed(&Form::symbol("abc")));
    assert_ne!(hashed(&Form::integer(1)), hashed(&Form::integer(2)));
}
