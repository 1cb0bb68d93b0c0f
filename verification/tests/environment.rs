use risp::env::{Env, Store};
use risp::form::Atom;
use risp::format::Escapes;
use risp::{Error, Form};

fn store() -> Store {
    Store::new(Escapes::new().unwrap())
}

#[test]
fn a_binding_is_found_again() {
    let mut store = store();
    let env = Env::new(&mut store);
    env.set(&mut store, "x", Form::integer(1));
    assert!(env.get(&store, "x").unwrap() == Form::integer(1));
    env.set(&mut store, "x", Form::integer(2));
    assert!(env.get(&store, "x").unwrap() == Form::integer(2));
}

#[test]
fn an_unbound_name_is_unknown() {
    let mut store = store();
    let env = Env::new(&mut store);
    match env.get(&store, "missing") {
        Err(Error::UnknownSymbol(name)) => assert_eq!(name, "missing"),
        other => panic!("{:?}", other),
    }
}

#[test]
fn a_child_shadows_and_does_not_overwrite() {
    let mut store = store();
    let parent = Env::new(&mut store);
    parent.set(&mut store, "x", Form::integer(1));
    parent.set(&mut store, "y", Form::integer(5));
    let child = Env::new_with(&parent, &mut store);
    assert!(child.get(&store, "x").unwrap() == Form::integer(1));
    child.set(&mut store, "x", Form::integer(2));
    assert!(child.get(&store, "x").unwrap() == Form::integer(2));
    assert!(child.get(&store, "y").unwrap() == Form::integer(5));
    assert!(parent.get(&store, "x").unwrap() == Form::integer(1));
}

#[test]
fn a_child_sees_what_the_parent_binds_later() {
    let mut store = store();
    let parent = Env::new(&mut store);
    let child = Env::new_with(&parent, &mut store);
    parent.set(&mut store, "late", Form::integer(3));
    assert!(child.get(&store, "late").unwrap() == Form::integer(3));
}

#[test]
fn siblings_do_not_see_each_other() {
    let mut store = store();
    let parent = Env::new(&mut store);
    let one = Env::new_with(&parent, &mut store);
    let two = Env::new_with(&parent, &mut store);
    one.set(&mut store, "x", Form::integer(1));
    assert!(matches!(two.get(&store, "x"), Err(Error::UnknownSymbol(_))));
}

#[test]
fn root_is_the_outermost_scope() {
    let mut store = store();
    let root = Env::new(&mut store);
    let other = Env::new(&mut store);
    let child = Env::new_with(&root, &mut store);
    let grandchild = Env::new_with(&child, &mut store);
    assert_eq!(grandchild.root(&store), root);
    assert_eq!(child.root(&store), root);
    assert_eq!(root.root(&store), root);
    assert_eq!(other.root(&store), other);
}

#[test]
fn handles_are_given_out_in_order() {
    let mut store = store();
    assert_eq!(Env::new(&mut store), Env { id: 0 });
    assert_eq!(Env::new(&mut store), Env { id: 1 });
    assert_eq!(Env::new_with(&Env { id: 0 }, &mut store), Env { id: 2 });
}

#[test]
fn a_handle_of_no_scope_binds_and_finds_nothing() {
    let mut store = store();
    let stray = Env { id: 7 };
    stray.set(&mut store, "x", Form::integer(1));
    assert!(matches!(stray.get(&store, "x"), Err(Error::UnknownSymbol(_))));
    assert_eq!(stray.root(&store), stray);
    let orphan = Env::new_with(&stray, &mut store);
    assert_eq!(orphan.root(&store), orphan);
}

#[test]
fn extend_binds_in_order() {
    let mut store = store();
    let env = Env::new(&mut store);
    env.extend(
        &mut store,
        vec![
            ("a".to_string(), Form::integer(1)),
            ("b".to_string(), Form::integer(2)),
            ("a".to_string(), Form::integer(3)),
        ],
    );
    assert!(env.get(&store, "a").unwrap() == Form::integer(3));
    assert!(env.get(&store, "b").unwrap() == Form::integer(2));
}

#[test]
fn atoms_hold_what_was_put_in_last() {
    let mut store = store();
    let a = Atom::new(Form::integer(1), &mut store);
    let b = Atom::new(Form::integer(2), &mut store);
    assert_eq!(a, Atom { id: 0 });
    assert_eq!(b, Atom { id: 1 });
    assert!(a.get(&store).unwrap() == Form::integer(1));
    let alias = a;
    alias.set(&mut store, Form::string("new"));
    assert!(a.get(&store).unwrap() == Form::string("new"));
    assert!(b.get(&store).unwrap() == Form::integer(2));
    assert!(Atom { id: 9 }.get(&store).is_none());
    Atom { id: 9 }.set(&mut store, Form::nil());
    assert!(Atom { id: 9 }.get(&store).is_none());
}

#[test]
fn output_is_handed_out_once() {
    let mut store = store();
    store.print("one".to_string());
    store.print("two".to_string());
    assert_eq!(store.take_output(), vec!["one".to_string(), "two".to_string()]);
    assert!(store.take_output().is_empty());
}

#[test]
fn files_are_what_the_host_handed_in() {
    let mut store = store();
    assert!(store.file("a.mal").is_none());
    store.load_file("a.mal", "(+ 1 2)");
    assert_eq!(store.file("a.mal"), Some("(+ 1 2)".to_string()));
    store.load_file("a.mal", "3");
    assert_eq!(store.file("a.mal"), Some("3".to_string()));
}

#[test]
fn the_clock_is_what_was_set() {
    let mut store = store();
    assert_eq!(store.clock(), 0);
    store.set_clock(1234);
    assert_eq!(store.clock(), 1234);
}

#[test]
fn the_searchers_are_those_of_the_store() {
    let mut store = store();
    let env = Env::new(&mut store);
    env.set(&mut store, "x", Form::nil());
    assert_eq!(store.escapes().escape("a\"b"), "a\\\"b");
    assert_eq!(store.escapes().unescape("a\\nb"), "a\nb");
}
