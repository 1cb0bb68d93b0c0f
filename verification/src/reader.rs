//! The reader: from text to tokens, and from tokens to a form.
//!
//! Between tokens, white space, commas and comments are skipped; a comment
//! runs from a `;` to the end of its line and is not empty. A token is `~@`,
//! one of the characters ``[]{}()'`~^@``, a string between double quotes, or
//! a run of other characters. Reading takes exactly one form: nothing, more
//! than one form, or text that is no token is an error.

use crate::eval::{tagged, tagged2};
use crate::form::{entry_views, insert_pairs, put_pairs, str_eq, views, Form, FormView};
use crate::format::{decimal, digit, digits, unescaped, Escapes};
use crate::{Error, ErrorView};
use vstd::prelude::*;

verus! {

/// Whether a character has the Unicode property `White_Space`, as
/// `char::is_whitespace` tells.
pub uninterp spec fn unicode_whitespace(c: char) -> bool;

/// `char::is_whitespace`: whether the character has the Unicode property
/// `White_Space`.
#[verifier::external_body]
fn has_white_space(c: char) -> (r: bool)
    ensures
        r == unicode_whitespace(c),
{
    c.is_whitespace()
}

/// What separates tokens: white space and the comma.
pub open spec fn blank(c: char) -> bool {
    unicode_whitespace(c) || c == ','
}

/// Whether a character separates tokens.
pub fn is_whitespace(c: char) -> (r: bool)
    ensures
        r == blank(c),
{
    has_white_space(c) || c == ','
}

pub open spec fn line_end(c: char) -> bool {
    c == '\n' || c == '\r'
}

/// The characters that are tokens by themselves.
pub open spec fn special_char(c: char) -> bool {
    c == '[' || c == ']' || c == '{' || c == '}' || c == '(' || c == ')' || c == '\'' || c == '`'
        || c == '~' || c == '^' || c == '@'
}

/// The characters that end a run of ordinary characters.
pub open spec fn atom_stop(c: char) -> bool {
    c == '[' || c == ']' || c == '{' || c == '}' || c == '(' || c == ')' || c == '\'' || c == '"'
        || c == '`' || c == ',' || c == ';' || c == ' ' || c == '\t' || c == '\n' || c == '\r'
}

/// The characters that may follow a backslash inside a string.
pub open spec fn escapable(c: char) -> bool {
    c == 'n' || c == '\\' || c == '"'
}

/// Where the next token can start: the first position at or after `pos`
/// that is neither blank nor inside a comment. A `;` starts a comment only
/// where a character other than a line end follows it.
pub open spec fn skip_ignored(s: Seq<char>, pos: int, in_comment: bool) -> int
    decreases s.len() - pos, (if in_comment {
        1nat
    } else {
        0nat
    }),
{
    if pos < 0 || pos >= s.len() {
        pos
    } else if in_comment {
        if line_end(s[pos]) {
            skip_ignored(s, pos, false)
        } else {
            skip_ignored(s, pos + 1, true)
        }
    } else if blank(s[pos]) {
        skip_ignored(s, pos + 1, false)
    } else if s[pos] == ';' && pos + 1 < s.len() && !line_end(s[pos + 1]) {
        skip_ignored(s, pos + 2, true)
    } else {
        pos
    }
}

/// Where a run of ordinary characters ends.
pub open spec fn atom_end(s: Seq<char>, from: int) -> int
    decreases s.len() - from,
{
    if 0 <= from < s.len() && !atom_stop(s[from]) {
        atom_end(s, from + 1)
    } else {
        from
    }
}

/// Where a string ends whose text goes on at `from`: behind the first double
/// quote that no backslash escapes. There is no such place where the text
/// runs out first, or where a backslash is followed by anything but `n`, a
/// backslash or a double quote.
pub open spec fn string_end(s: Seq<char>, from: int) -> Option<int>
    decreases s.len() - from,
{
    if from < 0 || from >= s.len() {
        None
    } else if s[from] == '"' {
        Some(from + 1)
    } else if s[from] == '\\' {
        if from + 1 < s.len() && escapable(s[from + 1]) {
            string_end(s, from + 2)
        } else {
            None
        }
    } else {
        string_end(s, from + 1)
    }
}

/// Where the token that starts at `pos` ends, if one starts there.
pub open spec fn token_end(s: Seq<char>, pos: int) -> Option<int> {
    if pos < 0 || pos >= s.len() {
        None
    } else if s[pos] == '~' && pos + 1 < s.len() && s[pos + 1] == '@' {
        Some(pos + 2)
    } else if special_char(s[pos]) {
        Some(pos + 1)
    } else if s[pos] == '"' {
        string_end(s, pos + 1)
    } else if atom_stop(s[pos]) {
        None
    } else {
        Some(atom_end(s, pos + 1))
    }
}

/// One token: where it starts, where it ends, and where the search for the
/// next one begins.
#[derive(Clone, Copy, Debug, PartialEq, Eq, Structural)]
pub struct Token {
    pub start: usize,
    pub end: usize,
    pub next: usize,
}

/// The token at or after `pos`, if there is one.
pub open spec fn token_at(s: Seq<char>, pos: int) -> Option<Token> {
    let start = skip_ignored(s, pos, false);
    match token_end(s, start) {
        Some(end) => Some(
            Token {
                start: start as usize,
                end: end as usize,
                next: skip_ignored(s, end, false) as usize,
            },
        ),
        None => None,
    }
}

/// The tokens of a text and the position at which no further token was found.
pub ghost struct Lexed {
    pub tokens: Seq<Seq<char>>,
    pub rest: int,
}

/// The tokens from `pos` on, after `tokens`. (The test that the search has
/// moved on never fails, as `lemma_token_at` shows: it is here so that the
/// definition ends.)
pub open spec fn lex(s: Seq<char>, pos: int, tokens: Seq<Seq<char>>) -> Lexed
    decreases s.len() - pos,
{
    match token_at(s, pos) {
        Some(token) => if pos < token.next <= s.len() {
            lex(s, token.next as int, tokens.push(s.subrange(token.start as int, token.end as int)))
        } else {
            Lexed { tokens, rest: pos }
        },
        None => Lexed { tokens, rest: pos },
    }
}

/// Skipping never goes back and never leaves the text.
pub proof fn lemma_skip_ignored(s: Seq<char>, pos: int, in_comment: bool)
    requires
        0 <= pos <= s.len(),
    ensures
        pos <= skip_ignored(s, pos, in_comment) <= s.len(),
    decreases s.len() - pos, (if in_comment {
        1nat
    } else {
        0nat
    }),
{
    if pos < s.len() {
        if in_comment {
            if line_end(s[pos]) {
                lemma_skip_ignored(s, pos, false);
            } else {
                lemma_skip_ignored(s, pos + 1, true);
            }
        } else if blank(s[pos]) {
            lemma_skip_ignored(s, pos + 1, false);
        } else if s[pos] == ';' && pos + 1 < s.len() && !line_end(s[pos + 1]) {
            lemma_skip_ignored(s, pos + 2, true);
        }
    }
}

/// A run of ordinary characters ends inside the text, at or after its start.
pub proof fn lemma_atom_end(s: Seq<char>, from: int)
    requires
        0 <= from <= s.len(),
    ensures
        from <= atom_end(s, from) <= s.len(),
    decreases s.len() - from,
{
    if from < s.len() && !atom_stop(s[from]) {
        lemma_atom_end(s, from + 1);
    }
}

/// A string ends inside the text, after where its text went on.
pub proof fn lemma_string_end(s: Seq<char>, from: int)
    requires
        0 <= from,
    ensures
        string_end(s, from) matches Some(end) ==> from < end <= s.len(),
    decreases s.len() - from,
{
    if from < s.len() && s[from] != '"' {
        if s[from] == '\\' {
            if from + 1 < s.len() && escapable(s[from + 1]) {
                lemma_string_end(s, from + 2);
            }
        } else {
            lemma_string_end(s, from + 1);
        }
    }
}

/// A token is not empty, lies inside the text, and the search goes on behind
/// it.
pub proof fn lemma_token_at(s: Seq<char>, pos: int)
    requires
        0 <= pos <= s.len() <= usize::MAX,
    ensures
        token_at(s, pos) matches Some(token) ==> pos <= token.start < token.end <= token.next
            <= s.len() && token_end(s, token.start as int) == Some(token.end as int)
            && token.start == skip_ignored(s, pos, false) && token.next == skip_ignored(
            s,
            token.end as int,
            false,
        ),
{
    lemma_skip_ignored(s, pos, false);
    let start = skip_ignored(s, pos, false);
    match token_end(s, start) {
        Some(end) => {
            if s[start] == '"' {
                lemma_string_end(s, start + 1);
            } else if !(s[start] == '~' && start + 1 < s.len() && s[start + 1] == '@')
                && !special_char(s[start]) {
                lemma_atom_end(s, start + 1);
            }
            lemma_skip_ignored(s, end, false);
        },
        None => {},
    }
}

fn skip(input: &Vec<char>, pos: usize) -> (r: usize)
    requires
        pos <= input.len(),
    ensures
        r == skip_ignored(input@, pos as int, false),
        pos <= r <= input.len(),
{
    let mut at: usize = pos;
    let mut in_comment = false;
    proof {
        lemma_skip_ignored(input@, pos as int, false);
    }
    loop
        invariant
            pos <= at <= input.len(),
            skip_ignored(input@, pos as int, false) == skip_ignored(input@, at as int, in_comment),
        decreases input.len() - at, (if in_comment {
            1nat
        } else {
            0nat
        }),
    {
        if at >= input.len() {
            return at;
        }
        let c = input[at];
        if in_comment {
            if c == '\n' || c == '\r' {
                in_comment = false;
            } else {
                at = at + 1;
            }
        } else if is_whitespace(c) {
            at = at + 1;
        } else if c == ';' && at + 1 < input.len() && !(input[at + 1] == '\n' || input[at + 1]
            == '\r') {
            at = at + 2;
            in_comment = true;
        } else {
            return at;
        }
    }
}

fn is_special(c: char) -> (r: bool)
    ensures
        r == special_char(c),
{
    c == '[' || c == ']' || c == '{' || c == '}' || c == '(' || c == ')' || c == '\'' || c == '`'
        || c == '~' || c == '^' || c == '@'
}

fn is_atom_stop(c: char) -> (r: bool)
    ensures
        r == atom_stop(c),
{
    c == '[' || c == ']' || c == '{' || c == '}' || c == '(' || c == ')' || c == '\'' || c == '"'
        || c == '`' || c == ',' || c == ';' || c == ' ' || c == '\t' || c == '\n' || c == '\r'
}

/// Where a string ends whose text goes on at `from`.
fn parse_string(input: &Vec<char>, from: usize) -> (r: Option<usize>)
    requires
        from <= input.len(),
    ensures
        match r {
            Some(end) => string_end(input@, from as int) == Some(end as int) && from < end
                <= input.len(),
            None => string_end(input@, from as int) is None,
        },
{
    let mut at: usize = from;
    proof {
        lemma_string_end(input@, from as int);
    }
    loop
        invariant
            from <= at <= input.len(),
            string_end(input@, from as int) == string_end(input@, at as int),
            string_end(input@, from as int) matches Some(end) ==> from < end <= input.len(),
        decreases input.len() - at,
    {
        if at >= input.len() {
            return None;
        }
        let c = input[at];
        if c == '"' {
            return Some(at + 1);
        } else if c == '\\' {
            if at + 1 < input.len() && (input[at + 1] == 'n' || input[at + 1] == '\\' || input[at
                + 1] == '"') {
                at = at + 2;
            } else {
                return None;
            }
        } else {
            at = at + 1;
        }
    }
}

/// Where a run of ordinary characters ends.
fn parse_atom(input: &Vec<char>, from: usize) -> (r: usize)
    requires
        from <= input.len(),
    ensures
        r == atom_end(input@, from as int),
        from <= r <= input.len(),
{
    let mut at: usize = from;
    while at < input.len() && !is_atom_stop(input[at])
        invariant
            from <= at <= input.len(),
            atom_end(input@, from as int) == atom_end(input@, at as int),
        decreases input.len() - at,
    {
        at = at + 1;
    }
    at
}

/// The token at or after `pos`, if there is one.
pub fn tokenize(input: &Vec<char>, pos: usize) -> (r: Option<Token>)
    ensures
        r == token_at(input@, pos as int),
        r matches Some(token) ==> pos <= token.start < token.end <= token.next <= input.len(),
{
    if pos > input.len() {
        return None;
    }
    proof {
        lemma_token_at(input@, pos as int);
    }
    let start = skip(input, pos);
    if start >= input.len() {
        return None;
    }
    let c = input[start];
    let end = if c == '~' && start + 1 < input.len() && input[start + 1] == '@' {
        start + 2
    } else if is_special(c) {
        start + 1
    } else if c == '"' {
        match parse_string(input, start + 1) {
            Some(end) => end,
            None => {
                return None;
            },
        }
    } else if is_atom_stop(c) {
        return None;
    } else {
        parse_atom(input, start + 1)
    };
    let next = skip(input, end);
    Some(Token { start, end, next })
}

/// The characters of a text.
pub fn chars_of(input: &str) -> (chars: Vec<char>)
    ensures
        chars@ == input@,
{
    let mut chars: Vec<char> = Vec::new();
    for c in it: input.chars()
        invariant
            chars@ == it.seq().take(it.index()),
            it.seq() == input@,
    {
        chars.push(c);
    }
    chars
}

/// The text of a range of characters.
pub fn text_of(chars: &Vec<char>, start: usize, end: usize) -> (text: String)
    requires
        start <= end <= chars.len(),
    ensures
        text@ == chars@.subrange(start as int, end as int),
{
    let mut text = String::new();
    let mut i: usize = start;
    while i < end
        invariant
            start <= i <= end <= chars.len(),
            text@ == chars@.subrange(start as int, i as int),
        decreases end - i,
    {
        text.push(chars[i]);
        assert(chars@.subrange(start as int, i + 1) =~= chars@.subrange(start as int, i as int).push(
            chars@[i as int],
        ));
        i = i + 1;
    }
    text
}

/// The views of a sequence of texts.
pub open spec fn texts(tokens: Seq<String>) -> Seq<Seq<char>> {
    Seq::new(tokens.len(), |i: int| tokens[i]@)
}

/// The tokens of a text, and whether the whole text was taken.
pub fn tokens_of(input: &Vec<char>) -> (r: (Vec<String>, bool))
    ensures
        texts(r.0@) == lex(input@, 0, Seq::empty()).tokens,
        r.1 == (lex(input@, 0, Seq::empty()).rest == input@.len()),
{
    let mut tokens: Vec<String> = Vec::new();
    let mut pos: usize = 0;
    assert(texts(tokens@) =~= Seq::empty());
    loop
        invariant
            pos <= input.len(),
            lex(input@, 0, Seq::empty()) == lex(input@, pos as int, texts(tokens@)),
        decreases input.len() - pos,
    {
        match tokenize(input, pos) {
            Some(token) => {
                let ghost before = texts(tokens@);
                let text = text_of(input, token.start, token.end);
                tokens.push(text);
                assert(texts(tokens@) =~= before.push(text@));
                pos = token.next;
            },
            None => {
                return (tokens, pos == input.len());
            },
        }
    }
}


pub open spec fn is_digit(c: char) -> bool {
    '0' <= c <= '9'
}

/// The number that the first `upto` digits write in decimal.
pub open spec fn number_value(digits: Seq<char>, upto: int) -> int
    decreases upto,
{
    if upto <= 0 {
        0
    } else {
        10 * number_value(digits, upto - 1) + (digits[upto - 1] as int - '0' as int)
    }
}

/// Whether every character is a decimal digit.
pub open spec fn all_digits(digits: Seq<char>) -> bool {
    forall|i: int| 0 <= i < digits.len() ==> is_digit(#[trigger] digits[i])
}

/// The digits of a token: the token without its sign.
pub open spec fn unsigned_part(token: Seq<char>) -> Seq<char> {
    if token.len() > 0 && (token[0] == '-' || token[0] == '+') {
        token.skip(1)
    } else {
        token
    }
}

/// The integer of the given sign and digits, where the digits are some, are
/// all digits, and the whole lies within the range of 64 bits.
pub open spec fn integer_from(negative: bool, digits: Seq<char>) -> Option<i64> {
    if digits.len() == 0 || !all_digits(digits) {
        None
    } else {
        let size = number_value(digits, digits.len() as int);
        let n = if negative {
            -size
        } else {
            size
        };
        if i64::MIN <= n <= i64::MAX {
            Some(n as i64)
        } else {
            None
        }
    }
}

/// The integer that a token writes: an optional `+` or `-`, then one or more
/// decimal digits, the whole within the range of 64 bits.
pub open spec fn integer_token(token: Seq<char>) -> Option<i64> {
    integer_from(token.len() > 0 && token[0] == '-', unsigned_part(token))
}

/// More digits never write a smaller number.
pub proof fn lemma_number_value_grows(digits: Seq<char>, i: int, j: int)
    requires
        0 <= i <= j <= digits.len(),
        all_digits(digits),
    ensures
        0 <= number_value(digits, i) <= number_value(digits, j),
    decreases j,
{
    if i < j {
        lemma_number_value_grows(digits, i, j - 1);
        assert(is_digit(digits[j - 1]));
    } else if i > 0 {
        lemma_number_value_grows(digits, i - 1, i - 1);
        assert(is_digit(digits[i - 1]));
    }
}

/// The digits that the printer writes for a number are digits, at least one
/// of them, and write that number.
pub proof fn lemma_digits_write_their_number(n: nat)
    ensures
        digits(n).len() > 0,
        all_digits(digits(n)),
        number_value(digits(n), digits(n).len() as int) == n,
    decreases n,
{
    let last = (n % 10) as int;
    assert(is_digit(digit(last)) && digit(last) as int - '0' as int == last);
    if n >= 10 {
        lemma_digits_write_their_number(n / 10);
        let front = digits(n / 10);
        let all = digits(n);
        assert(all == front.push(digit(last)));
        assert(all[all.len() - 1] == digit(last));
        assert(forall|i: int| 0 <= i < front.len() ==> all[i] == front[i]);
        assert(all_digits(all)) by {
            assert forall|i: int| 0 <= i < all.len() implies is_digit(#[trigger] all[i]) by {
                if i < front.len() {
                    assert(is_digit(front[i]));
                }
            }
        }
        lemma_number_value_prefix(all, front, front.len() as int);
        assert(number_value(all, all.len() as int) == 10 * number_value(all, all.len() - 1) + last);
    } else {
        assert(number_value(digits(n), 0) == 0);
    }
}

/// The number that the first digits write depends on those digits alone.
pub proof fn lemma_number_value_prefix(a: Seq<char>, b: Seq<char>, upto: int)
    requires
        0 <= upto <= a.len(),
        upto <= b.len(),
        forall|i: int| 0 <= i < upto ==> a[i] == b[i],
    ensures
        number_value(a, upto) == number_value(b, upto),
    decreases upto,
{
    if upto > 0 {
        lemma_number_value_prefix(a, b, upto - 1);
    }
}

/// What the printer writes for an integer, the reader takes back as that
/// integer.
pub proof fn law_printed_integer_reads_back(n: i64)
    ensures
        integer_token(decimal(n as int)) == Some(n),
{
    let size: nat = if n < 0 {
        (-(n as int)) as nat
    } else {
        n as nat
    };
    lemma_digits_write_their_number(size);
    let text = decimal(n as int);
    if n < 0 {
        assert(text[0] == '-');
        assert(text.skip(1) =~= digits(size));
    } else {
        assert(is_digit(digits(size)[0]));
        assert(text == digits(size));
    }
}

/// The integer that a token writes, if it writes one.
pub fn parse_int(token: &Vec<char>) -> (r: Option<i64>)
    ensures
        r == integer_token(token@),
{
    let n = token.len();
    if n == 0 {
        return None;
    }
    let negative = token[0] == '-';
    let first: usize = if negative || token[0] == '+' {
        1
    } else {
        0
    };
    if first >= n {
        return None;
    }
    let ghost digits = unsigned_part(token@);
    assert(token@.skip(0) =~= token@);
    assert(digits == token@.skip(first as int));
    let mut size: i128 = 0;
    let mut i: usize = first;
    while i < n
        invariant
            first <= i <= n,
            n == token.len(),
            first <= 1,
            n > 0,
            negative == (token@[0] == '-'),
            (first == 1) == (token@[0] == '-' || token@[0] == '+'),
            digits == token@.skip(first as int),
            digits == unsigned_part(token@),
            forall|k: int| 0 <= k < i - first ==> is_digit(#[trigger] digits[k]),
            size == number_value(digits, i - first),
            0 <= size <= 0x8000_0000_0000_0000,
        decreases n - i,
    {
        let c = token[i];
        if !('0' <= c && c <= '9') {
            assert(!is_digit(digits[i - first]));
            return None;
        }
        let d = (c as u32 - '0' as u32) as i128;
        let ghost before = size;
        size = size * 10 + d;
        i = i + 1;
        assert(size == number_value(digits, i - first));
        if size > 0x8000_0000_0000_0000 {
            proof {
                if all_digits(digits) {
                    lemma_number_value_grows(digits, i - first, digits.len() as int);
                }
            }
            return None;
        }
    }
    if negative {
        Some((-size) as i64)
    } else if size == 0x8000_0000_0000_0000 {
        None
    } else {
        Some(size as i64)
    }
}


/// What reading one form gave, and the index of the token after it.
pub ghost struct Parsed {
    pub form: Option<Result<FormView, ErrorView>>,
    pub next: int,
}

/// What reading the items of a collection gave, and the index of the token
/// after its closing bracket.
pub ghost struct ParsedItems {
    pub items: Result<Seq<FormView>, ErrorView>,
    pub next: int,
}

/// The kinds of collection that the reader knows.
#[derive(Clone, Copy, Debug, PartialEq, Eq, Structural)]
pub enum Bracket {
    Round,
    Square,
    Curly,
}

/// The text inside the quotes of a string token.
pub open spec fn inside_quotes(token: Seq<char>) -> Seq<char> {
    if token.len() >= 2 {
        token.subrange(1, token.len() - 1)
    } else {
        Seq::empty()
    }
}

/// Whether a token looks like a number: it starts with a digit, or with a
/// sign and then a digit.
pub open spec fn looks_numeric(token: Seq<char>) -> bool {
    (token.len() > 0 && is_digit(token[0])) || (token.len() > 1 && (token[0] == '-' || token[0]
        == '+') && is_digit(token[1]))
}

/// The form that a token is by itself: `nil`, `true`, `false`, an integer, a
/// string, a keyword, or else a symbol. A token that looks like a number and
/// is no integer is an `InvalidNumber`.
pub open spec fn atom_token(token: Seq<char>) -> Result<FormView, ErrorView> {
    if token == "nil"@ {
        Ok(FormView::nil())
    } else if token == "true"@ {
        Ok(FormView::boolean(true))
    } else if token == "false"@ {
        Ok(FormView::boolean(false))
    } else {
        match integer_token(token) {
            Some(n) => Ok(FormView::integer(n)),
            None => if looks_numeric(token) {
                Err(ErrorView::InvalidNumber(token))
            } else if token.len() > 0 && token[0] == '"' {
                Ok(FormView::string(unescaped(inside_quotes(token))))
            } else if token.len() > 0 && token[0] == ':' {
                Ok(FormView::keyword(token.skip(1)))
            } else {
                Ok(FormView::symbol(token))
            },
        }
    }
}

/// The name that a reader macro stands for.
pub open spec fn reader_macro_name(token: Seq<char>) -> Option<Seq<char>> {
    if token == "'"@ {
        Some("quote"@)
    } else if token == "`"@ {
        Some("quasiquote"@)
    } else if token == "~"@ {
        Some("unquote"@)
    } else if token == "~@"@ {
        Some("splice-unquote"@)
    } else if token == "@"@ {
        Some("deref"@)
    } else {
        None
    }
}

/// The bracket that a token opens.
pub open spec fn opening(token: Seq<char>) -> Option<Bracket> {
    if token == "("@ {
        Some(Bracket::Round)
    } else if token == "["@ {
        Some(Bracket::Square)
    } else if token == "{"@ {
        Some(Bracket::Curly)
    } else {
        None
    }
}

/// The token that closes a bracket.
pub open spec fn closing(bracket: Bracket) -> Seq<char> {
    match bracket {
        Bracket::Round => ")"@,
        Bracket::Square => "]"@,
        Bracket::Curly => "}"@,
    }
}

/// The collection of the given bracket with the given items. A map takes
/// its items as keys and values in turn, and an odd number of them is an
/// `InvalidArgument`.
pub open spec fn collection(bracket: Bracket, items: Seq<FormView>) -> Result<FormView, ErrorView> {
    match bracket {
        Bracket::Round => Ok(FormView::list(items)),
        Bracket::Square => Ok(FormView::vector(items)),
        Bracket::Curly => if items.len() % 2 == 1 {
            Err(ErrorView::InvalidArgument)
        } else {
            Ok(FormView::hash_map(put_pairs(items, 0, Seq::empty())))
        },
    }
}

/// The form that starts at token `pos`, if there is a token there. (The
/// tests that `next` has moved on never fail, as `lemma_read_form_advances`
/// shows: they are here so that the definition ends.)
pub open spec fn read_form_spec(tokens: Seq<Seq<char>>, pos: int) -> Parsed
    decreases tokens.len() - pos, 1nat,
{
    if pos < 0 || pos >= tokens.len() {
        Parsed { form: None, next: pos }
    } else {
        let token = tokens[pos];
        match opening(token) {
            Some(bracket) => {
                let inner = read_items_spec(tokens, pos + 1, closing(bracket), Seq::empty());
                Parsed {
                    form: Some(
                        match inner.items {
                            Ok(items) => collection(bracket, items),
                            Err(e) => Err(e),
                        },
                    ),
                    next: inner.next,
                }
            },
            None => match reader_macro_name(token) {
                Some(name) => {
                    let inner = read_form_spec(tokens, pos + 1);
                    Parsed {
                        form: Some(
                            match inner.form {
                                Some(Ok(form)) => Ok(tagged(name, form)),
                                Some(Err(e)) => Err(e),
                                None => Err(ErrorView::Eof),
                            },
                        ),
                        next: inner.next,
                    }
                },
                None => if token == "^"@ {
                    let meta = read_form_spec(tokens, pos + 1);
                    match meta.form {
                        Some(Ok(m)) => if pos < meta.next <= tokens.len() {
                            let target = read_form_spec(tokens, meta.next);
                            Parsed {
                                form: Some(
                                    match target.form {
                                        Some(Ok(form)) => Ok(tagged2("with-meta"@, form, m)),
                                        Some(Err(e)) => Err(e),
                                        None => Err(ErrorView::Eof),
                                    },
                                ),
                                next: target.next,
                            }
                        } else {
                            Parsed { form: Some(Err(ErrorView::Eof)), next: meta.next }
                        },
                        Some(Err(e)) => Parsed { form: Some(Err(e)), next: meta.next },
                        None => Parsed { form: Some(Err(ErrorView::Eof)), next: meta.next },
                    }
                } else {
                    Parsed { form: Some(atom_token(token)), next: pos + 1 }
                },
            },
        }
    }
}

/// The items from token `pos` up to the closing token, after `items`. Running
/// out of tokens first is an `UnbalancedList`.
pub open spec fn read_items_spec(
    tokens: Seq<Seq<char>>,
    pos: int,
    close: Seq<char>,
    items: Seq<FormView>,
) -> ParsedItems
    decreases tokens.len() - pos, 2nat,
{
    if pos < 0 || pos >= tokens.len() {
        ParsedItems { items: Err(ErrorView::UnbalancedList), next: pos }
    } else if tokens[pos] == close {
        ParsedItems { items: Ok(items), next: pos + 1 }
    } else {
        let one = read_form_spec(tokens, pos);
        match one.form {
            Some(Ok(form)) => if pos < one.next <= tokens.len() {
                read_items_spec(tokens, one.next, close, items.push(form))
            } else {
                ParsedItems { items: Err(ErrorView::UnbalancedList), next: one.next }
            },
            Some(Err(e)) => ParsedItems { items: Err(e), next: one.next },
            None => ParsedItems { items: Err(ErrorView::UnbalancedList), next: one.next },
        }
    }
}

/// A form that was read ends after where it started, inside the tokens.
pub proof fn lemma_read_form_advances(tokens: Seq<Seq<char>>, pos: int)
    requires
        0 <= pos,
    ensures
        read_form_spec(tokens, pos).form matches Some(Ok(_)) ==> pos < read_form_spec(
            tokens,
            pos,
        ).next <= tokens.len(),
    decreases tokens.len() - pos, 1nat,
{
    if pos < tokens.len() {
        let token = tokens[pos];
        match opening(token) {
            Some(bracket) => {
                lemma_read_items_advance(tokens, pos + 1, closing(bracket), Seq::empty());
            },
            None => match reader_macro_name(token) {
                Some(name) => {
                    lemma_read_form_advances(tokens, pos + 1);
                },
                None => {
                    if token == "^"@ {
                        lemma_read_form_advances(tokens, pos + 1);
                        let meta = read_form_spec(tokens, pos + 1);
                        if meta.form matches Some(Ok(_)) {
                            lemma_read_form_advances(tokens, meta.next);
                        }
                    }
                },
            },
        }
    }
}

/// The items of a collection that was read end after where they started,
/// inside the tokens.
pub proof fn lemma_read_items_advance(
    tokens: Seq<Seq<char>>,
    pos: int,
    close: Seq<char>,
    items: Seq<FormView>,
)
    requires
        0 <= pos,
    ensures
        read_items_spec(tokens, pos, close, items).items is Ok ==> pos < read_items_spec(
            tokens,
            pos,
            close,
            items,
        ).next <= tokens.len(),
    decreases tokens.len() - pos, 2nat,
{
    if pos < tokens.len() && tokens[pos] != close {
        lemma_read_form_advances(tokens, pos);
        let one = read_form_spec(tokens, pos);
        match one.form {
            Some(Ok(form)) => {
                lemma_read_items_advance(tokens, one.next, close, items.push(form));
            },
            _ => {},
        }
    }
}

/// The one form that a text holds. No form at all, tokens after the form,
/// and text that is no token are all an `Eof`.
pub open spec fn read_spec(input: Seq<char>) -> Result<FormView, ErrorView> {
    let lexed = lex(input, 0, Seq::empty());
    let parsed = read_form_spec(lexed.tokens, 0);
    match parsed.form {
        None => Err(ErrorView::Eof),
        Some(r) => if parsed.next < lexed.tokens.len() {
            Err(ErrorView::Eof)
        } else if lexed.rest != input.len() {
            Err(ErrorView::Eof)
        } else {
            r
        },
    }
}


/// The model of what the reader hands back for one form.
pub open spec fn parsed_of(r: (Option<Result<Form, Error>>, usize)) -> Parsed {
    Parsed {
        form: match r.0 {
            Some(Ok(form)) => Some(Ok(form@)),
            Some(Err(e)) => Some(Err(e@)),
            None => None,
        },
        next: r.1 as int,
    }
}

/// The model of what the reader hands back for the items of a collection.
pub open spec fn parsed_items_of(r: (Result<Vec<Form>, Error>, usize)) -> ParsedItems {
    ParsedItems {
        items: match r.0 {
            Ok(items) => Ok(views(items@)),
            Err(e) => Err(e@),
        },
        next: r.1 as int,
    }
}

fn digit_at(chars: &Vec<char>, i: usize) -> (r: bool)
    ensures
        r == (i < chars.len() && is_digit(chars@[i as int])),
{
    i < chars.len() && '0' <= chars[i] && chars[i] <= '9'
}

/// The form that a token is by itself.
pub fn read_atom(token: &str, escapes: &Escapes) -> (r: Result<Form, Error>)
    ensures
        crate::eval::result_view(r) == atom_token(token@),
{
    if str_eq(token, "nil") {
        return Ok(Form::nil());
    }
    if str_eq(token, "true") {
        return Ok(Form::boolean(true));
    }
    if str_eq(token, "false") {
        return Ok(Form::boolean(false));
    }
    let chars = chars_of(token);
    match parse_int(&chars) {
        Some(n) => Ok(Form::integer(n)),
        None => {
            if digit_at(&chars, 0) || (chars.len() > 1 && (chars[0] == '-' || chars[0] == '+')
                && digit_at(&chars, 1)) {
                Err(Error::InvalidNumber(token.to_owned()))
            } else if chars.len() > 0 && chars[0] == '"' {
                let inner = if chars.len() >= 2 {
                    text_of(&chars, 1, chars.len() - 1)
                } else {
                    String::new()
                };
                let text = escapes.unescape(inner.as_str());
                Ok(Form::string(text.as_str()))
            } else if chars.len() > 0 && chars[0] == ':' {
                let name = text_of(&chars, 1, chars.len());
                Ok(Form::keyword(name.as_str()))
            } else {
                Ok(Form::symbol(token))
            }
        },
    }
}

fn reader_macro(token: &str) -> (r: Option<&'static str>)
    ensures
        match r {
            Some(name) => reader_macro_name(token@) == Some(name@),
            None => reader_macro_name(token@) is None,
        },
{
    if str_eq(token, "'") {
        Some("quote")
    } else if str_eq(token, "`") {
        Some("quasiquote")
    } else if str_eq(token, "~") {
        Some("unquote")
    } else if str_eq(token, "~@") {
        Some("splice-unquote")
    } else if str_eq(token, "@") {
        Some("deref")
    } else {
        None
    }
}

fn opening_bracket(token: &str) -> (r: Option<Bracket>)
    ensures
        r == opening(token@),
{
    if str_eq(token, "(") {
        Some(Bracket::Round)
    } else if str_eq(token, "[") {
        Some(Bracket::Square)
    } else if str_eq(token, "{") {
        Some(Bracket::Curly)
    } else {
        None
    }
}

fn is_closing(token: &str, bracket: Bracket) -> (r: bool)
    ensures
        r == (token@ == closing(bracket)),
{
    match bracket {
        Bracket::Round => str_eq(token, ")"),
        Bracket::Square => str_eq(token, "]"),
        Bracket::Curly => str_eq(token, "}"),
    }
}

fn tag_form(name: &str, form: Form) -> (r: Form)
    ensures
        r@ == tagged(name@, form@),
{
    let mut items: Vec<Form> = Vec::new();
    items.push(Form::symbol(name));
    items.push(form);
    assert(views(items@) =~= seq![FormView::symbol(name@), form@]);
    Form::list(items)
}

fn tag_meta(form: Form, meta: Form) -> (r: Form)
    ensures
        r@ == tagged2("with-meta"@, form@, meta@),
{
    let mut items: Vec<Form> = Vec::new();
    items.push(Form::symbol("with-meta"));
    items.push(form);
    items.push(meta);
    assert(views(items@) =~= seq![FormView::symbol("with-meta"@), form@, meta@]);
    Form::list(items)
}

/// The collection of the given bracket with the given items.
pub fn read_list(bracket: Bracket, items: Vec<Form>) -> (r: Result<Form, Error>)
    ensures
        crate::eval::result_view(r) == collection(bracket, views(items@)),
{
    match bracket {
        Bracket::Round => Ok(Form::list(items)),
        Bracket::Square => Ok(Form::vector(items)),
        Bracket::Curly => {
            if items.len() % 2 == 1 {
                Err(Error::InvalidArgument)
            } else {
                let empty: Vec<(Form, Form)> = Vec::new();
                assert(entry_views(empty@) =~= Seq::empty());
                Ok(Form::hash_map(insert_pairs(empty, items)))
            }
        },
    }
}

/// Reads the form that starts at token `pos`.
pub fn read_form(tokens: &Vec<String>, pos: usize, escapes: &Escapes) -> (r: (
    Option<Result<Form, Error>>,
    usize,
))
    ensures
        parsed_of(r) == read_form_spec(texts(tokens@), pos as int),
    decreases tokens.len() - pos, 1nat,
{
    if pos >= tokens.len() {
        return (None, pos);
    }
    let token = tokens[pos].as_str();
    assert(texts(tokens@)[pos as int] == token@);
    match opening_bracket(token) {
        Some(bracket) => {
            let (items, next) = read_items(tokens, pos + 1, bracket, escapes);
            let form = match items {
                Ok(items) => read_list(bracket, items),
                Err(e) => Err(e),
            };
            (Some(form), next)
        },
        None => match reader_macro(token) {
            Some(name) => {
                let (inner, next) = read_form(tokens, pos + 1, escapes);
                let form = match inner {
                    Some(Ok(form)) => Ok(tag_form(name, form)),
                    Some(Err(e)) => Err(e),
                    None => Err(Error::Eof),
                };
                (Some(form), next)
            },
            None => {
                if str_eq(token, "^") {
                    let (meta, after) = read_form(tokens, pos + 1, escapes);
                    match meta {
                        Some(Ok(m)) => {
                            proof {
                                lemma_read_form_advances(texts(tokens@), pos + 1);
                            }
                            let (target, next) = read_form(tokens, after, escapes);
                            let form = match target {
                                Some(Ok(form)) => Ok(tag_meta(form, m)),
                                Some(Err(e)) => Err(e),
                                None => Err(Error::Eof),
                            };
                            (Some(form), next)
                        },
                        Some(Err(e)) => (Some(Err(e)), after),
                        None => (Some(Err(Error::Eof)), after),
                    }
                } else {
                    (Some(read_atom(token, escapes)), pos + 1)
                }
            },
        },
    }
}

/// Reads items up to the closing bracket.
fn read_items(tokens: &Vec<String>, pos: usize, bracket: Bracket, escapes: &Escapes) -> (r: (
    Result<Vec<Form>, Error>,
    usize,
))
    ensures
        parsed_items_of(r) == read_items_spec(
            texts(tokens@),
            pos as int,
            closing(bracket),
            Seq::empty(),
        ),
    decreases tokens.len() - pos, 3nat,
{
    let ghost goal = read_items_spec(texts(tokens@), pos as int, closing(bracket), Seq::empty());
    let mut items: Vec<Form> = Vec::new();
    let mut at: usize = pos;
    assert(views(items@) =~= Seq::empty());
    loop
        invariant
            pos <= at,
            goal == read_items_spec(texts(tokens@), pos as int, closing(bracket), Seq::empty()),
            goal == read_items_spec(texts(tokens@), at as int, closing(bracket), views(items@)),
        decreases tokens.len() - at,
    {
        if at >= tokens.len() {
            return (Err(Error::UnbalancedList), at);
        }
        assert(texts(tokens@)[at as int] == tokens@[at as int]@);
        if is_closing(tokens[at].as_str(), bracket) {
            return (Ok(items), at + 1);
        }
        let (one, next) = read_form(tokens, at, escapes);
        match one {
            Some(Ok(form)) => {
                proof {
                    lemma_read_form_advances(texts(tokens@), at as int);
                }
                let ghost before = views(items@);
                items.push(form);
                assert(views(items@) =~= before.push(form@));
                at = next;
            },
            Some(Err(e)) => {
                return (Err(e), next);
            },
            None => {
                return (Err(Error::UnbalancedList), next);
            },
        }
    }
}

/// Reads the one form that a text holds.
pub fn read_str(input: &str, escapes: &Escapes) -> (r: Result<Form, Error>)
    ensures
        crate::eval::result_view(r) == read_spec(input@),
{
    let chars = chars_of(input);
    let (tokens, complete) = tokens_of(&chars);
    let (form, next) = read_form(&tokens, 0, escapes);
    match form {
        None => Err(Error::Eof),
        Some(r) => {
            if next < tokens.len() {
                Err(Error::Eof)
            } else if !complete {
                Err(Error::Eof)
            } else {
                r
            }
        },
    }
}

} // verus!
