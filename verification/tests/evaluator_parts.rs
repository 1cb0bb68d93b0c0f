use risp::builtins::{populate, Primitive};
use risp::eval::{
    apply_native_fn, apply_user_fn, as_macro_call, call, eval_ast, fn_, into_macro, macro_expand,
    quasiquote, quasiquote_, quasiquoteexpand, quote, special, Special,
};
use risp::form::Ident;
use risp::format::Escapes;
use risp::{eval, pr_str, read_str, Budget, Env, Error, Form, Store};

fn setup() -> (Store, Env) {
    let mut store = Store::new(Escapes::new().unwrap());
    let env = Env::new(&mut store);
    populate(env, &mut store, Budget::new(10_000, 100)).unwrap();
    (store, env)
}

fn read(store: &Store, text: &str) -> Form {
    read_str(text, store.escapes()).unwrap()
}

fn budget() -> Budget {
    Budget::new(100_000, 100)
}

#[test]
fn special_forms_are_known_by_their_head() {
    let (store, _) = setup();
    let cases = [
        ("(def! a 1)", Some(Special::Def)),
        ("(defmacro! a 1)", Some(Special::DefMacro)),
        ("(let* () 1)", Some(Special::Let)),
        ("(do)", Some(Special::Do)),
        ("(if 1 2)", Some(Special::If)),
        ("(fn* () 1)", Some(Special::Fn)),
        ("(eval 1)", Some(Special::Eval)),
        ("(quote 1)", Some(Special::Quote)),
        ("(quasiquote 1)", Some(Special::Quasiquote)),
        ("(quasiquoteexpand 1)", Some(Special::QuasiquoteExpand)),
        ("(macroexpand 1)", Some(Special::MacroExpand)),
        ("(defn a 1)", None),
        ("(+ 1 2)", None),
        ("()", None),
        ("[def! a 1]", None),
        ("def!", None),
        ("(\"def!\" a 1)", None),
    ];
    for (text, expected) in cases {
        assert_eq!(special(&read(&store, text)), expected, "for {}", text);
    }
}

#[test]
fn evaluating_as_data() {
    let (mut store, env) = setup();
    env.set(&mut store, "x", Form::integer(5));
    let show = |form: Form, store: &Store| pr_str(&form, store);
    let symbol = eval_ast(Form::symbol("x"), env, &mut store, budget()).unwrap();
    assert_eq!(show(symbol, &store), "5");
    let list = read(&store, "(x (+ x 1))");
    let list = eval_ast(list, env, &mut store, budget()).unwrap();
    assert_eq!(show(list, &store), "(5 6)");
    let vector = read(&store, "[x]");
    let vector = eval_ast(vector, env, &mut store, budget()).unwrap();
    assert_eq!(show(vector, &store), "[5]");
    let other = eval_ast(Form::string("x"), env, &mut store, budget()).unwrap();
    assert_eq!(show(other, &store), "\"x\"");
    assert!(matches!(
        eval_ast(Form::symbol("y"), env, &mut store, budget()),
        Err(Error::UnknownSymbol(_))
    ));
}

#[test]
fn quoting_helpers() {
    let (store, _) = setup();
    assert!(quote(read(&store, "(quote (a b))")).unwrap() == read(&store, "(a b)"));
    assert!(matches!(quote(read(&store, "(quote)")), Err(Error::InvalidArgument)));
    assert!(quasiquote_(&read(&store, "(a (unquote b))")).unwrap()
        == read(&store, "(cons (quote a) (cons b ()))"));
    assert!(quasiquote(&read(&store, "(quasiquote (a))")).unwrap()
        == read(&store, "(cons (quote a) ())"));
    assert!(quasiquoteexpand(&read(&store, "(quasiquoteexpand [(splice-unquote a)])")).unwrap()
        == read(&store, "(vec (concat a ()))"));
    assert!(matches!(
        quasiquote_(&read(&store, "(a (splice-unquote))")),
        Err(Error::InvalidArgument)
    ));
}

#[test]
fn making_and_calling_a_closure() {
    let (mut store, env) = setup();
    let source = read(&store, "(fn* (a & more) (cons a more))");
    let f = fn_(source, env, &mut store).unwrap();
    assert!(f.is_user_fn());
    let args = vec![Form::integer(1), Form::integer(2), Form::integer(3)];
    let (body, frame) = apply_user_fn(f.clone(), args, &mut store).unwrap();
    assert!(body == read(&store, "(cons a more)"));
    assert!(frame.get(&store, "a").unwrap() == Form::integer(1));
    assert!(frame.get(&store, "more").unwrap() == read(&store, "(2 3)"));
    assert!(frame.get(&store, "cons").unwrap().is_native_fn());
    assert!(matches!(apply_user_fn(f.clone(), vec![], &mut store), Err(Error::InvalidArgument)));
    assert!(matches!(
        apply_user_fn(Form::integer(1), vec![], &mut store),
        Err(Error::InvalidArgument)
    ));
    let result = call(f.clone(), read(&store, "(7 8)"), &mut store, budget()).unwrap();
    assert!(result == read(&store, "(7 8)"));
    let result = f.clone().call(read(&store, "(9)"), &mut store, budget()).unwrap();
    assert!(result == read(&store, "(9)"));
    assert!(matches!(
        call(f, Form::integer(1), &mut store, budget()),
        Err(Error::InvalidArgument)
    ));
    assert!(matches!(
        call(Form::nil(), Form::list(vec![]), &mut store, budget()),
        Err(Error::NotCallable)
    ));
}

#[test]
fn a_closure_without_rest_drops_what_is_left_over() {
    let (mut store, env) = setup();
    let f = Form::user_fn(vec![Ident::from_str("a")], None, Form::symbol("a"), env);
    let (_, frame) =
        apply_user_fn(f, vec![Form::integer(1), Form::integer(2)], &mut store).unwrap();
    assert!(frame.get(&store, "a").unwrap() == Form::integer(1));
}

#[test]
fn natives_are_applied_by_name() {
    let (mut store, _) = setup();
    let args = read(&store, "(1 2 3)");
    let sum = apply_native_fn(Primitive::Plus, args, &mut store, budget()).unwrap();
    assert!(sum == Form::integer(6));
    let args = read(&store, "(1)");
    let result = call(Form::native_fn(Primitive::ListOf), args, &mut store, budget()).unwrap();
    assert!(result == read(&store, "(1)"));
    assert!(matches!(
        call(Form::native_fn(Primitive::ListOf), Form::nil(), &mut store, Budget::new(0, 5)),
        Err(Error::OutOfFuel)
    ));
}

#[test]
fn macro_calls_are_recognised_and_expanded() {
    let (mut store, env) = setup();
    let unless = read(&store, "(defmacro! unless (fn* (p a b) `(if ~p ~b ~a)))");
    eval(unless, env, &mut store, budget()).unwrap();
    let form = read(&store, "(unless x 1 2)");
    assert!(as_macro_call(&form, env, &store).unwrap().is_macro());
    assert!(as_macro_call(&read(&store, "(not x)"), env, &store).is_none());
    assert!(as_macro_call(&read(&store, "(nobody x)"), env, &store).is_none());
    assert!(as_macro_call(&read(&store, "unless"), env, &store).is_none());
    assert!(as_macro_call(&read(&store, "[unless x 1 2]"), env, &store).is_none());
    let expanded = macro_expand(form, env, &mut store, budget()).unwrap();
    assert!(expanded == read(&store, "(if x 2 1)"));
    let plain = macro_expand(read(&store, "(+ 1 2)"), env, &mut store, budget()).unwrap();
    assert!(plain == read(&store, "(+ 1 2)"));
}

#[test]
fn flagging_a_closure_as_a_macro() {
    let (_, env) = setup();
    let f = Form::user_fn(vec![], None, Form::nil(), env);
    assert!(into_macro(f).is_macro());
    assert!(into_macro(Form::integer(1)) == Form::integer(1));
}
