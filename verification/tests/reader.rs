use nom::branch::alt;
use nom::bytes::complete::{escaped, is_not, tag, take_while1};
use nom::character::complete::one_of;
use nom::combinator::{iterator, recognize};
use nom::multi::fold_many0;
use nom::sequence::{delimited, preceded};
use nom::IResult;
use risp::format::{int_to_string, Escapes};
use risp::reader::{
    chars_of, is_whitespace, parse_int, read_atom, read_form, read_list, text_of, tokenize,
    tokens_of, Bracket, Token,
};
use risp::{pr_str, read_str, Error, Form, Store};

fn read(text: &str) -> Result<Form, Error> {
    read_str(text, &Escapes::new().unwrap())
}

fn reads_as(text: &str) -> String {
    let store = Store::new(Escapes::new().unwrap());
    pr_str(&read(text).unwrap(), &store)
}

fn tokens(text: &str) -> (Vec<String>, bool) {
    tokens_of(&chars_of(text))
}

fn blank(c: char) -> bool {
    c.is_whitespace() || c == ','
}

fn grammar_whitespace(input: &str) -> IResult<&str, &str> {
    take_while1(blank)(input)
}

fn grammar_comment(input: &str) -> IResult<&str, &str> {
    recognize(preceded(tag(";"), is_not("\n\r")))(input)
}

fn grammar_ignored(input: &str) -> IResult<&str, ()> {
    fold_many0(alt((grammar_whitespace, grammar_comment)), || (), |_, _| ())(input)
}

fn grammar_special(input: &str) -> IResult<&str, &str> {
    alt((tag("~@"), recognize(one_of("[]{}()'`~^@"))))(input)
}

fn grammar_string(input: &str) -> IResult<&str, &str> {
    alt((
        tag("\"\""),
        recognize(delimited(
            tag("\""),
            escaped(is_not("\\\""), '\\', one_of("n\\\"")),
            tag("\""),
        )),
    ))(input)
}

fn grammar_atom(input: &str) -> IResult<&str, &str> {
    is_not("[]{}()'\"`,; \t\n\r")(input)
}

fn grammar_token(input: &str) -> IResult<&str, &str> {
    delimited(
        grammar_ignored,
        alt((grammar_special, grammar_string, grammar_atom)),
        grammar_ignored,
    )(input)
}

fn grammar_tokens(input: &str) -> (Vec<String>, bool) {
    let mut parser = iterator(input, grammar_token);
    let found: Vec<String> = (&mut parser).map(String::from).collect();
    let complete = matches!(parser.finish(), Ok(("", ())));
    (found, complete)
}

#[test]
fn tokens_agree_with_the_combinator_grammar() {
    let inputs = [
        "",
        " ",
        "abc",
        "(+ 1 2)",
        "  ( + 1,2 ) ",
        "[1 {2 3}]",
        "'a `b ~c ~@d @e ^f",
        "~@",
        "~ @",
        "\"\"",
        "\"abc\"",
        "\"a\\\"b\"",
        "\"a\\nb\"",
        "\"a\\\\\"",
        "\"a\\tb\"",
        "\"abc",
        "\"abc\\",
        "\"",
        "\"\\",
        "a\"b\"",
        "; comment",
        "1 ; comment\n2",
        "1 ;\n2",
        "1 ;",
        ";",
        ";;",
        "; a\r\n; b\n3",
        "a;b",
        "a,b,,c",
        "x\u{a0}y",
        "\u{a0}x",
        "\u{2003}(a\u{2003}b)",
        "a~b a@b a^b",
        "-12 +3 1.5 :kw",
        "(def! not (fn* (a) (if a false true)))",
        "(1 2",
        "1 2)",
        "\t\n\r x",
        "é λ 日本",
        "\"é\\\"λ\"",
        "())",
        "{\"a\" 1}",
        "(a \"b c\" d)",
        "\"a\" \"b",
        "a \"\" b",
        "\"\"\"",
        "\"\\n\"",
        "'",
    ];
    for input in inputs {
        assert_eq!(tokens(input), grammar_tokens(input), "on {:?}", input);
    }
}

#[test]
fn tokens_of_a_call() {
    let (found, complete) = tokens(" (+ 1,\"two\" ) ; done");
    assert_eq!(found, vec!["(", "+", "1", "\"two\"", ")"]);
    assert!(complete);
}

#[test]
fn one_token_at_a_time() {
    let chars = chars_of("  ab  cd");
    assert_eq!(tokenize(&chars, 0), Some(Token { start: 2, end: 4, next: 6 }));
    assert_eq!(tokenize(&chars, 6), Some(Token { start: 6, end: 8, next: 8 }));
    assert_eq!(tokenize(&chars, 8), None);
    assert_eq!(tokenize(&chars, 100), None);
    assert_eq!(text_of(&chars, 2, 4), "ab");
}

#[test]
fn white_space_and_commas_separate() {
    assert!(is_whitespace(' '));
    assert!(is_whitespace('\n'));
    assert!(is_whitespace('\t'));
    assert!(is_whitespace(','));
    assert!(is_whitespace('\u{a0}'));
    assert!(is_whitespace('\u{3000}'));
    assert!(!is_whitespace('a'));
    assert!(!is_whitespace(';'));
    assert!(!is_whitespace('0'));
}

#[test]
fn chars_are_those_of_the_text() {
    assert_eq!(chars_of("aé日"), vec!['a', 'é', '日']);
    assert!(chars_of("").is_empty());
}

#[test]
fn integers_are_signed_decimal() {
    let parse = |text: &str| parse_int(&chars_of(text));
    assert_eq!(parse("0"), Some(0));
    assert_eq!(parse("42"), Some(42));
    assert_eq!(parse("-42"), Some(-42));
    assert_eq!(parse("+42"), Some(42));
    assert_eq!(parse("007"), Some(7));
    assert_eq!(parse("-0"), Some(0));
    assert_eq!(parse("9223372036854775807"), Some(i64::MAX));
    assert_eq!(parse("-9223372036854775808"), Some(i64::MIN));
    assert_eq!(parse("9223372036854775808"), None);
    assert_eq!(parse("-9223372036854775809"), None);
    assert_eq!(parse("99999999999999999999999999999999999999999999"), None);
    assert_eq!(parse(""), None);
    assert_eq!(parse("-"), None);
    assert_eq!(parse("+"), None);
    assert_eq!(parse("1a"), None);
    assert_eq!(parse("a1"), None);
    assert_eq!(parse("1.5"), None);
    assert_eq!(parse("--1"), None);
    assert_eq!(parse("١"), None);
}

#[test]
fn integers_agree_with_the_standard_parser() {
    for text in ["0", "-1", "+1", "12345", "-", "+", "", "1_0", " 1", "9223372036854775808",
        "-9223372036854775808", "000000000000000000000000001", "+-1", "1e3"] {
        assert_eq!(parse_int(&chars_of(text)), text.parse::<i64>().ok(), "on {:?}", text);
    }
}

#[test]
fn atoms_read_by_their_shape() {
    let escapes = Escapes::new().unwrap();
    let atom = |text: &str| read_atom(text, &escapes).unwrap();
    assert!(atom("nil") == Form::nil());
    assert!(atom("true") == Form::boolean(true));
    assert!(atom("false") == Form::boolean(false));
    assert!(atom("-7") == Form::integer(-7));
    assert!(atom("\"a\\nb\"") == Form::string("a\nb"));
    assert!(atom("\"a\\\\n\"") == Form::string("a\\n"));
    assert!(atom("\"say \\\"hi\\\"\"") == Form::string("say \"hi\""));
    assert!(atom("\"\"") == Form::string(""));
    assert!(atom(":key") == Form::keyword("key"));
    assert!(atom(":1") == Form::keyword("1"));
    assert!(atom("abc") == Form::symbol("abc"));
    assert!(atom("nil?") == Form::symbol("nil?"));
    assert!(atom(")") == Form::symbol(")"));
    assert!(atom("-") == Form::symbol("-"));
    assert!(atom("+") == Form::symbol("+"));
    assert!(atom("-a") == Form::symbol("-a"));
    assert!(atom("a1") == Form::symbol("a1"));
    assert!(atom(".5") == Form::symbol(".5"));
}

#[test]
fn what_looks_like_a_number_must_be_one() {
    let escapes = Escapes::new().unwrap();
    for text in ["1.5", "12abc", "-1x", "+2.", "9223372036854775808", "-9223372036854775809", "1+"] {
        match read_atom(text, &escapes) {
            Err(Error::InvalidNumber(token)) => assert_eq!(token, text),
            other => panic!("{}: {:?}", text, other),
        }
    }
    assert!(matches!(read("(+ 1 2.5)"), Err(Error::Eof)));
    assert!(matches!(read("2.5"), Err(Error::InvalidNumber(_))));
    assert!(matches!(read("[1 2x]"), Err(Error::Eof)));
}

#[test]
fn forms_read_and_print_back() {
    assert_eq!(reads_as("  (+ 1 2)  "), "(+ 1 2)");
    assert_eq!(reads_as("[1,2,3]"), "[1 2 3]");
    assert_eq!(reads_as("{:a 1 :b (2 3)}"), "{:a 1 :b (2 3)}");
    assert_eq!(reads_as("{:a 1 :a 2}"), "{:a 2}");
    assert_eq!(reads_as("()"), "()");
    assert_eq!(reads_as("(()())"), "(() ())");
    assert_eq!(reads_as("\"a\\\"b\\\\c\\nd\""), "\"a\\\"b\\\\c\\nd\"");
    assert_eq!(reads_as("nil"), "nil");
    assert_eq!(reads_as("abc ; trailing"), "abc");
    assert_eq!(reads_as("; leading\n abc"), "abc");
}

#[test]
fn reader_macros_expand() {
    assert_eq!(reads_as("'a"), "(quote a)");
    assert_eq!(reads_as("`(a ~b ~@c)"), "(quasiquote (a (unquote b) (splice-unquote c)))");
    assert_eq!(reads_as("@a"), "(deref a)");
    assert_eq!(reads_as("^{:a 1} [1 2]"), "(with-meta [1 2] {:a 1})");
    assert_eq!(reads_as("''a"), "(quote (quote a))");
}

#[test]
fn truncated_and_surplus_input_is_an_error() {
    assert!(matches!(read(""), Err(Error::Eof)));
    assert!(matches!(read("   "), Err(Error::Eof)));
    assert!(matches!(read("; only a comment"), Err(Error::Eof)));
    assert!(matches!(read("1 2"), Err(Error::Eof)));
    assert!(matches!(read("(1 2) 3"), Err(Error::Eof)));
    assert!(matches!(read("\"abc"), Err(Error::Eof)));
    assert!(matches!(read("(1 \"abc"), Err(Error::Eof)));
    assert!(matches!(read("\"a\\tb\""), Err(Error::Eof)));
    assert!(matches!(read("'"), Err(Error::Eof)));
    assert!(matches!(read("^a"), Err(Error::Eof)));
    assert!(matches!(read("^"), Err(Error::Eof)));
    assert!(matches!(read("1 ;"), Err(Error::Eof)));
    assert!(matches!(read("(1 2"), Err(Error::UnbalancedList)));
    assert!(matches!(read("[1 (2 3)"), Err(Error::UnbalancedList)));
    assert!(matches!(read("{:a 1"), Err(Error::UnbalancedList)));
    assert!(matches!(read("(1 2]"), Err(Error::UnbalancedList)));
    assert!(matches!(read("'(1"), Err(Error::UnbalancedList)));
    assert!(matches!(read("{:a}"), Err(Error::InvalidArgument)));
    assert!(matches!(read("({:a 1 :b})"), Err(Error::Eof)));
    assert!(matches!(read("{:a} 1"), Err(Error::Eof)));
}

#[test]
fn a_lone_closing_bracket_is_a_symbol() {
    assert!(read(")").unwrap() == Form::symbol(")"));
}

#[test]
fn forms_are_read_from_a_token_index() {
    let escapes = Escapes::new().unwrap();
    let (found, _) = tokens("a (b c) d");
    let (form, next) = read_form(&found, 1, &escapes);
    assert!(form.unwrap().unwrap() == Form::list(vec![Form::symbol("b"), Form::symbol("c")]));
    assert_eq!(next, 5);
    let (form, next) = read_form(&found, 5, &escapes);
    assert!(form.unwrap().unwrap() == Form::symbol("d"));
    assert_eq!(next, 6);
    let (form, next) = read_form(&found, 6, &escapes);
    assert!(form.is_none());
    assert_eq!(next, 6);
}

#[test]
fn collections_are_built_by_their_bracket() {
    let items = || vec![Form::keyword("a"), Form::integer(1)];
    assert!(read_list(Bracket::Round, items()).unwrap().is_list());
    assert!(read_list(Bracket::Square, items()).unwrap().is_vector());
    assert!(read_list(Bracket::Curly, items()).unwrap().is_hash_map());
    assert!(matches!(
        read_list(Bracket::Curly, vec![Form::keyword("a")]),
        Err(Error::InvalidArgument)
    ));
}

#[test]
fn printed_integers_read_back() {
    for n in [0, 1, -1, 9, 10, -10, 123456789, i64::MAX, i64::MIN] {
        assert_eq!(parse_int(&chars_of(&int_to_string(n))), Some(n));
    }
}
