use nix::errno::Errno;
use risp::builtins::{
    millis, populate, primitive, record_reading, sync_clock, Primitive, PRIMITIVES,
};
use risp::format::Escapes;
use risp::{eval_str, pr_str, Budget, Env, Error, Form, Store};

fn setup() -> (Store, Env) {
    let mut store = Store::new(Escapes::new().unwrap());
    let env = Env::new(&mut store);
    populate(env, &mut store, Budget::new(10_000, 100)).unwrap();
    (store, env)
}

fn run(store: &mut Store, env: Env, text: &str) -> Result<Form, Error> {
    eval_str(text, env, store, Budget::new(1_000_000, 200))
}

fn check(cases: &[(&str, &str)]) {
    let (mut store, env) = setup();
    for (text, expected) in cases {
        let form = match run(&mut store, env, text) {
            Ok(form) => form,
            Err(e) => panic!("{} failed: {:?}", text, e),
        };
        assert_eq!(pr_str(&form, &store), *expected, "for {}", text);
    }
}

fn invalid(texts: &[&str]) {
    let (mut store, env) = setup();
    for text in texts {
        assert!(
            matches!(run(&mut store, env, text), Err(Error::InvalidArgument)),
            "for {}",
            text
        );
    }
}

#[test]
fn arithmetic() {
    check(&[
        ("(+)", "0"),
        ("(+ 1 2 3)", "6"),
        ("(+ 9223372036854775807 1)", "-9223372036854775808"),
        ("(-)", "0"),
        ("(- 5)", "5"),
        ("(- 10 3 2)", "5"),
        ("(- -9223372036854775808 1)", "9223372036854775807"),
        ("(*)", "1"),
        ("(* 2 3 4)", "24"),
        ("(* 4611686018427387904 2)", "-9223372036854775808"),
        ("(/ 7 2)", "3"),
        ("(/ -7 2)", "-3"),
        ("(/ 7 -2)", "-3"),
    ]);
    invalid(&[
        "(+ 1 \"a\")",
        "(- nil)",
        "(/ 1 0)",
        "(/ -9223372036854775808 -1)",
        "(/ 1)",
        "(/ 1 2 3)",
        "(/ 1 :a)",
    ]);
}

#[test]
fn comparisons() {
    check(&[
        ("(< 1 2)", "true"),
        ("(< 2 2)", "false"),
        ("(<= 2 2)", "true"),
        ("(<= 3 2)", "false"),
        ("(> 3 2)", "true"),
        ("(> 2 2)", "false"),
        ("(>= 2 2)", "true"),
        ("(>= 1 2)", "false"),
        ("(= 1 1)", "true"),
        ("(= 1 2)", "false"),
        ("(= (list 1 2) [1 2])", "true"),
        ("(= \"a\" :a)", "false"),
        ("(= + +)", "false"),
        ("(= {:a 1} {:a 1})", "true"),
    ]);
    invalid(&["(< 1)", "(< 1 2 3)", "(> 1 nil)", "(= 1)", "(= 1 2 3)"]);
}

#[test]
fn questions() {
    check(&[
        ("(list? (list))", "true"),
        ("(list? [])", "false"),
        ("(atom? (atom 1))", "true"),
        ("(atom? 1)", "false"),
        ("(nil? nil)", "true"),
        ("(nil? false)", "false"),
        ("(true? true)", "true"),
        ("(true? 1)", "false"),
        ("(false? false)", "true"),
        ("(false? nil)", "false"),
        ("(symbol? 'a)", "true"),
        ("(symbol? :a)", "false"),
        ("(keyword? :a)", "true"),
        ("(keyword? \"a\")", "false"),
        ("(vector? [1])", "true"),
        ("(vector? '(1))", "false"),
        ("(sequential? [1])", "true"),
        ("(sequential? '(1))", "true"),
        ("(sequential? nil)", "false"),
        ("(map? {})", "true"),
        ("(map? [])", "false"),
        ("(fn? +)", "true"),
        ("(fn? (fn* () 1))", "true"),
        ("(fn? cond)", "false"),
        ("(fn? 1)", "false"),
        ("(string? \"\")", "true"),
        ("(string? 'a)", "false"),
        ("(number? 1)", "true"),
        ("(number? \"1\")", "false"),
        ("(macro? cond)", "true"),
        ("(macro? not)", "false"),
    ]);
    invalid(&["(nil?)", "(nil? 1 2)", "(list?)", "(macro? 1 2)"]);
}

#[test]
fn sequences() {
    check(&[
        ("(list)", "()"),
        ("(list 1 (list 2) \"3\")", "(1 (2) \"3\")"),
        ("(empty? (list))", "true"),
        ("(empty? nil)", "true"),
        ("(empty? [1])", "false"),
        ("(count (list 1 2 3))", "3"),
        ("(count nil)", "0"),
        ("(count [])", "0"),
        ("(cons 1 (list 2 3))", "(1 2 3)"),
        ("(cons 1 [2])", "(1 2)"),
        ("(cons 1 nil)", "(1)"),
        ("(concat)", "()"),
        ("(concat (list 1) [2 3] nil (list))", "(1 2 3)"),
        ("(vec (list 1 2))", "[1 2]"),
        ("(vec nil)", "[]"),
        ("(nth (list 10 20 30) 1)", "20"),
        ("(nth [10 20 30] 2)", "30"),
        ("(first (list 1 2))", "1"),
        ("(first nil)", "nil"),
        ("(first (list))", "nil"),
        ("(first [])", "nil"),
        ("(rest (list 1 2 3))", "(2 3)"),
        ("(rest (list 1))", "()"),
        ("(rest nil)", "()"),
        ("(rest [])", "()"),
        ("(vector)", "[]"),
        ("(vector 1 2)", "[1 2]"),
        ("(seq nil)", "nil"),
        ("(seq (list))", "nil"),
        ("(seq [])", "nil"),
        ("(seq \"\")", "nil"),
        ("(seq (list 1 2))", "(1 2)"),
        ("(seq [1 2])", "(1 2)"),
        ("(seq \"aé\")", "(\"a\" \"é\")"),
        ("(conj (list 1 2) 3 4)", "(4 3 1 2)"),
        ("(conj [1 2] 3 4)", "[1 2 3 4]"),
        ("(conj (list))", "()"),
    ]);
    invalid(&[
        "(empty? 1)",
        "(count 1)",
        "(cons 1 2)",
        "(cons 1)",
        "(concat (list 1) 2)",
        "(vec 1)",
        "(nth (list 1))",
        "(nth 1 0)",
        "(first 1)",
        "(first [1 2])",
        "(rest [1 2])",
        "(rest 1)",
        "(seq 1)",
        "(conj nil 1)",
        "(conj)",
    ]);
}

#[test]
fn indexing_errors() {
    let (mut store, env) = setup();
    assert!(matches!(
        run(&mut store, env, "(nth (list 1 2) 2)"),
        Err(Error::IndexOutOfRange(2))
    ));
    assert!(matches!(
        run(&mut store, env, "(nth (list 1 2) -1)"),
        Err(Error::NumberConversion)
    ));
}

#[test]
fn symbols_keywords_and_throw() {
    check(&[
        ("(symbol \"abc\")", "abc"),
        ("(keyword \"abc\")", ":abc"),
        ("(keyword :abc)", ":abc"),
    ]);
    invalid(&["(symbol 'abc)", "(symbol)", "(keyword 1)", "(keyword)", "(throw)"]);
    let (mut store, env) = setup();
    match run(&mut store, env, "(throw {:code 7})") {
        Err(Error::UserError(form)) => assert_eq!(pr_str(&form, &store), "{:code 7}"),
        other => panic!("{:?}", other),
    }
}

#[test]
fn maps() {
    check(&[
        ("(hash-map)", "{}"),
        ("(hash-map :a 1 :b 2)", "{:a 1 :b 2}"),
        ("(hash-map :a 1 :a 2)", "{:a 2}"),
        ("(assoc {:a 1} :b 2 :a 3)", "{:a 3 :b 2}"),
        ("(assoc {})", "{}"),
        ("(dissoc {:a 1 :b 2 :c 3} :b :z)", "{:a 1 :c 3}"),
        ("(dissoc {:a 1})", "{:a 1}"),
        ("(get {:a 1} :a)", "1"),
        ("(get {:a 1} :b)", "nil"),
        ("(get {(list 1) 2} [1])", "2"),
        ("(contains? {:a nil} :a)", "true"),
        ("(contains? {:a nil} :b)", "false"),
        ("(keys {:a 1 :b 2})", "(:a :b)"),
        ("(vals {:a 1 :b 2})", "(1 2)"),
        ("(keys {})", "()"),
    ]);
    invalid(&[
        "(hash-map :a)",
        "(assoc {} :a)",
        "(assoc nil :a 1)",
        "(assoc)",
        "(dissoc nil :a)",
        "(get nil :a)",
        "(get {})",
        "(contains? [] 1)",
        "(keys nil)",
        "(vals)",
    ]);
}

#[test]
fn printing_to_strings() {
    check(&[
        ("(pr-str)", "\"\""),
        ("(pr-str 1 \"a\" :k)", "\"1 \\\"a\\\" :k\""),
        ("(str)", "\"\""),
        ("(str 1 \"a\" :k (list \"b\"))", "\"1a:k(b)\""),
        ("(pr-str (atom \"x\"))", "\"(atom \\\"x\\\")\""),
        ("(str (atom \"x\"))", "\"x\""),
    ]);
}

#[test]
fn printing_queues_lines() {
    let (mut store, env) = setup();
    assert!(run(&mut store, env, "(prn 1 \"a\")").unwrap() == Form::nil());
    assert!(run(&mut store, env, "(println 1 \"a\")").unwrap() == Form::nil());
    assert!(run(&mut store, env, "(prn)").unwrap() == Form::nil());
    assert_eq!(store.take_output(), vec!["1 \"a\"", "1 a", ""]);
}

#[test]
fn reading_strings_and_files() {
    check(&[
        ("(read-string \"(1 2 (3))\")", "(1 2 (3))"),
        ("(read-string \"7 ; seven\")", "7"),
    ]);
    invalid(&["(read-string 7)", "(read-string)", "(slurp 1)", "(readline)", "(readline \">\")"]);
    let (mut store, env) = setup();
    assert!(matches!(run(&mut store, env, "(read-string \"(1\")"), Err(Error::UnbalancedList)));
    assert!(matches!(run(&mut store, env, "(read-string \"\")"), Err(Error::Eof)));
    match run(&mut store, env, "(slurp \"lib.mal\")") {
        Err(Error::FileNotLoaded(path)) => assert_eq!(path, "lib.mal"),
        other => panic!("{:?}", other),
    }
    store.load_file("lib.mal", "(def! seven 7)\n(def! eight (+ seven 1))");
    assert!(run(&mut store, env, "(slurp \"lib.mal\")").unwrap()
        == Form::string("(def! seven 7)\n(def! eight (+ seven 1))"));
    assert!(run(&mut store, env, "(load-file \"lib.mal\")").unwrap() == Form::nil());
    assert!(run(&mut store, env, "eight").unwrap() == Form::integer(8));
}

#[test]
fn atoms() {
    check(&[
        ("(def! a (atom 1))", "(atom 1)"),
        ("(deref a)", "1"),
        ("@a", "1"),
        ("(reset! a (list 1 2))", "(1 2)"),
        ("@a", "(1 2)"),
        ("(reset! a 5)", "5"),
        ("(swap! a + 1 2)", "8"),
        ("@a", "8"),
        ("(swap! a (fn* (x) (* x 2)))", "16"),
        ("@a", "16"),
        ("(def! b a)", "(atom 16)"),
        ("(reset! b 0)", "0"),
        ("@a", "0"),
    ]);
    invalid(&[
        "(atom)",
        "(atom 1 2)",
        "(deref 1)",
        "(deref)",
        "(reset! 1 2)",
        "(reset! (atom 1))",
        "(swap! 1 +)",
        "(swap! (atom 1))",
    ]);
}

#[test]
fn a_failed_swap_leaves_nil() {
    let (mut store, env) = setup();
    run(&mut store, env, "(def! a (atom 1))").unwrap();
    assert!(matches!(run(&mut store, env, "(swap! a (fn* (x) (throw x)))"), Err(Error::UserError(_))));
    assert!(run(&mut store, env, "@a").unwrap() == Form::nil());
    assert!(matches!(run(&mut store, env, "(swap! a 7)"), Err(Error::NotCallable)));
}

#[test]
fn apply_and_map_call_back() {
    check(&[
        ("(apply + (list 1 2 3))", "6"),
        ("(apply + 1 2 [3 4])", "10"),
        ("(apply (fn* (a & more) (count more)) 1 (list 2 3))", "2"),
        ("(apply list (list))", "()"),
        ("(map (fn* (x) (* x x)) (list 1 2 3))", "(1 4 9)"),
        ("(map first [(list 1) (list 2)])", "(1 2)"),
        ("(map + nil)", "()"),
    ]);
    invalid(&["(apply +)", "(apply)", "(map +)", "(map + 1)", "(map)"]);
    let (mut store, env) = setup();
    assert!(matches!(run(&mut store, env, "(apply + 1 2)"), Err(Error::NotIterable)));
    assert!(matches!(run(&mut store, env, "(apply 1 (list))"), Err(Error::NotCallable)));
    assert!(matches!(run(&mut store, env, "(map 1 (list 1))"), Err(Error::NotCallable)));
}

#[test]
fn metadata() {
    check(&[
        ("(meta [1])", "nil"),
        ("(meta (with-meta [1] {:a 1}))", "{:a 1}"),
        ("(with-meta [1] {:a 1})", "[1]"),
        ("(meta (with-meta (fn* () 1) 7))", "7"),
        ("(meta (with-meta + 7))", "7"),
        ("(meta ^{:doc \"d\"} (list 1))", "{:doc \"d\"}"),
        ("(meta 1)", "nil"),
    ]);
    invalid(&["(with-meta 1 2)", "(with-meta \"s\" 2)", "(with-meta [1])", "(meta)"]);
}

#[test]
fn the_clock_is_read_by_the_host() {
    let (mut store, env) = setup();
    store.set_clock(1500);
    assert!(run(&mut store, env, "(time-ms)").unwrap() == Form::integer(1500));
    sync_clock(&mut store).unwrap();
    let first = store.clock();
    sync_clock(&mut store).unwrap();
    assert!(store.clock() >= first);
    assert!(first > 0);
}

#[test]
fn a_reading_becomes_the_time_and_a_failure_changes_nothing() {
    let (mut store, env) = setup();
    assert!(record_reading(&mut store, Ok((12, 345_678_901))).is_ok());
    assert_eq!(store.clock(), 12345);
    assert!(run(&mut store, env, "(time-ms)").unwrap() == Form::integer(12345));
    assert!(matches!(record_reading(&mut store, Err(Errno::EINVAL)), Err(Error::Clock)));
    assert_eq!(store.clock(), 12345);
}

#[test]
fn milliseconds_from_a_reading() {
    assert_eq!(millis(0, 0), 0);
    assert_eq!(millis(2, 999_999), 2000);
    assert_eq!(millis(2, 1_000_000), 2001);
    assert_eq!(millis(12, 345_678_901), 12345);
    assert_eq!(millis(i64::MAX, 0), i64::MAX.wrapping_mul(1000));
}

#[test]
fn every_primitive_is_installed_under_its_name() {
    let (store, env) = setup();
    assert_eq!(PRIMITIVES, 61);
    let mut seen: Vec<&str> = Vec::new();
    for i in 0..PRIMITIVES {
        let p = primitive(i);
        let name = p.name();
        assert!(!seen.contains(&name), "{} twice", name);
        seen.push(name);
        match env.get(&store, name) {
            Ok(form) => assert!(form.is_native_fn(), "{}", name),
            Err(e) => panic!("{}: {:?}", name, e),
        }
    }
    assert_eq!(primitive(0), Primitive::Plus);
    assert_eq!(Primitive::Plus.name(), "+");
    assert_eq!(Primitive::Swap.name(), "swap!");
    assert_eq!(Primitive::Conj.name(), "conj");
    assert!(env.get(&store, "*host-language*").unwrap() == Form::string("rust.2"));
    assert!(env.get(&store, "not").unwrap().is_user_fn());
    assert!(env.get(&store, "load-file").unwrap().is_user_fn());
    assert!(env.get(&store, "cond").unwrap().is_macro());
}
