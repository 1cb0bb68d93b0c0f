//! Printing forms: readably, so that the reader takes the text back, or for
//! display, with strings as they are.

use crate::env::{Store, StoreView};
use crate::form::{entry_views, lemma_collection_views, views, Form, FormKind, FormView, KindView};
use crate::Error;
use aho_corasick::{AhoCorasick, BuildError};
use vstd::prelude::*;
use vstd::string::StringExecFns;

verus! {

/// `aho_corasick::AhoCorasick`, a searcher for several patterns at once.
/// Nothing inside it is seen here.
#[verifier::external_type_specification]
#[verifier::external_body]
pub struct ExAhoCorasick(AhoCorasick);

/// `aho_corasick::BuildError`, why a searcher could not be built.
#[verifier::external_type_specification]
#[verifier::external_body]
pub struct ExBuildError(BuildError);

/// The patterns that a searcher was built from, in their order.
pub uninterp spec fn patterns_of(searcher: AhoCorasick) -> Seq<Seq<char>>;

/// Whether a searcher has the configuration that `AhoCorasick::new` gives:
/// standard match semantics, and searches that may start anywhere in the
/// text.
pub uninterp spec fn default_built(searcher: AhoCorasick) -> bool;

/// The text in which each match of one of `patterns`, as `find_iter` of a
/// searcher built from them by `AhoCorasick::new` reports them, is replaced by
/// the replacement of the same index.
pub uninterp spec fn replaced(
    patterns: Seq<Seq<char>>,
    replacements: Seq<Seq<char>>,
    text: Seq<char>,
) -> Seq<char>;

/// `AhoCorasick::new` on three patterns. The searcher it gives, where it
/// gives one, is built from these patterns, in this order, with the default
/// configuration.
#[verifier::external_body]
fn build_searcher(first: &str, second: &str, third: &str) -> (r: Result<AhoCorasick, BuildError>)
    ensures
        r matches Ok(searcher) ==> patterns_of(searcher) == seq![first@, second@, third@]
            && default_built(searcher),
{
    AhoCorasick::new([first, second, third])
}

/// `AhoCorasick::replace_all` with three replacements: every match in `text`
/// is replaced by the replacement that has the index of the pattern that
/// matched. It panics where the number of replacements is not that of the
/// patterns, or where the searcher cannot start a search anywhere in the
/// text; a searcher of the default configuration can.
#[verifier::external_body]
fn replace_each(searcher: &AhoCorasick, text: &str, first: &str, second: &str, third: &str) -> (r:
    String)
    requires
        patterns_of(*searcher).len() == 3,
        default_built(*searcher),
    ensures
        r@ == replaced(patterns_of(*searcher), seq![first@, second@, third@], text@),
{
    searcher.replace_all(text, &[first, second, third])
}

/// `String::push` appends one character.
pub assume_specification[ std::string::String::push ](text: &mut std::string::String, c: char)
    ensures
        final(text)@ == old(text)@.push(c),
;

/// What takes the place of a backslash, a line feed and a double quote
/// inside a printed string, and what the reader puts back for them.
pub open spec fn plain() -> Seq<Seq<char>> {
    seq!["\\"@, "\n"@, "\""@]
}

pub open spec fn escapes() -> Seq<Seq<char>> {
    seq!["\\\\"@, "\\n"@, "\\\""@]
}

/// A text with each backslash, line feed and double quote escaped.
pub open spec fn escaped(text: Seq<char>) -> Seq<char> {
    replaced(plain(), escapes(), text)
}

/// A text with each escape of a backslash, a line feed and a double quote
/// put back.
pub open spec fn unescaped(text: Seq<char>) -> Seq<char> {
    replaced(escapes(), plain(), text)
}

/// The two searchers that escape and unescape the text of strings.
pub struct Escapes {
    escaper: AhoCorasick,
    unescaper: AhoCorasick,
}

impl Escapes {
    #[verifier::type_invariant]
    spec fn wf(self) -> bool {
        &&& patterns_of(self.escaper) == plain()
        &&& default_built(self.escaper)
        &&& patterns_of(self.unescaper) == escapes()
        &&& default_built(self.unescaper)
    }

    /// Builds the two searchers. `Patterns` where one cannot be built.
    pub fn new() -> (r: Result<Escapes, Error>)
        ensures
            r matches Err(e) ==> e@ == crate::ErrorView::Patterns,
    {
        let escaper = match build_searcher("\\", "\n", "\"") {
            Ok(searcher) => searcher,
            Err(_) => {
                return Err(Error::Patterns);
            },
        };
        let unescaper = match build_searcher("\\\\", "\\n", "\\\"") {
            Ok(searcher) => searcher,
            Err(_) => {
                return Err(Error::Patterns);
            },
        };
        Ok(Escapes { escaper, unescaper })
    }

    /// The text with each backslash, line feed and double quote escaped.
    pub fn escape(&self, text: &str) -> (r: String)
        ensures
            r@ == escaped(text@),
    {
        proof {
            use_type_invariant(self);
        }
        replace_each(&self.escaper, text, "\\\\", "\\n", "\\\"")
    }

    /// The text with each escape put back.
    pub fn unescape(&self, text: &str) -> (r: String)
        ensures
            r@ == unescaped(text@),
    {
        proof {
            use_type_invariant(self);
        }
        replace_each(&self.unescaper, text, "\\", "\n", "\"")
    }
}

/// The text of a string as it is printed readably: escaped, between double
/// quotes.
pub open spec fn quoted_text(escaped: Seq<char>) -> Seq<char> {
    "\""@ + escaped + "\""@
}

/// Puts an escaped text between double quotes.
pub fn quote_text(escaped: &str) -> (r: String)
    ensures
        r@ == quoted_text(escaped@),
{
    let mut r = String::from_str("\"");
    r.append(escaped);
    r.append("\"");
    r
}

/// The text of a string as it is printed readably.
pub fn escape_unprintable(text: &str, escapes: &Escapes) -> (r: String)
    ensures
        r@ == escaped(text@),
{
    escapes.escape(text)
}

/// The character of a decimal digit.
pub open spec fn digit(d: int) -> char {
    if d == 0 {
        '0'
    } else if d == 1 {
        '1'
    } else if d == 2 {
        '2'
    } else if d == 3 {
        '3'
    } else if d == 4 {
        '4'
    } else if d == 5 {
        '5'
    } else if d == 6 {
        '6'
    } else if d == 7 {
        '7'
    } else if d == 8 {
        '8'
    } else {
        '9'
    }
}

/// The decimal digits of a natural number, without leading zeros.
pub open spec fn digits(n: nat) -> Seq<char>
    decreases n,
{
    if n < 10 {
        seq![digit(n as int)]
    } else {
        digits(n / 10).push(digit((n % 10) as int))
    }
}

/// An integer in decimal, with a minus sign where it is negative.
pub open spec fn decimal(n: int) -> Seq<char> {
    if n < 0 {
        seq!['-'] + digits((-n) as nat)
    } else {
        digits(n as nat)
    }
}

fn digit_char(d: u8) -> (c: char)
    requires
        d < 10,
    ensures
        c == digit(d as int),
{
    if d == 0 {
        '0'
    } else if d == 1 {
        '1'
    } else if d == 2 {
        '2'
    } else if d == 3 {
        '3'
    } else if d == 4 {
        '4'
    } else if d == 5 {
        '5'
    } else if d == 6 {
        '6'
    } else if d == 7 {
        '7'
    } else if d == 8 {
        '8'
    } else {
        '9'
    }
}

/// An integer in decimal.
pub fn int_to_string(n: i64) -> (r: String)
    ensures
        r@ == decimal(n as int),
{
    number_to_string(n as i128)
}

/// An integer of up to 65 bits in decimal.
pub fn number_to_string(wide: i128) -> (r: String)
    requires
        -0x1_0000_0000_0000_0000 <= wide <= 0x1_0000_0000_0000_0000,
    ensures
        r@ == decimal(wide as int),
{
    let mut low: Vec<char> = Vec::new();
    let size: i128 = if wide < 0 {
        -wide
    } else {
        wide
    };
    let mut rest: i128 = size;
    while rest >= 10
        invariant
            0 <= rest <= size,
            digits(size as nat) == digits(rest as nat) + low@.reverse(),
        decreases rest,
    {
        let d = (rest % 10) as u8;
        low.push(digit_char(d));
        let ghost before = rest;
        rest = rest / 10;
        assert(digits(before as nat) == digits(rest as nat).push(digit(d as int)));
        assert(digits(size as nat) =~= digits(rest as nat) + low@.reverse());
    }
    low.push(digit_char(rest as u8));
    assert(digits(size as nat) =~= low@.reverse());
    let mut r = String::new();
    if wide < 0 {
        r.push('-');
    }
    let ghost sign = r@;
    let mut i: usize = low.len();
    while i > 0
        invariant
            i <= low.len(),
            r@ == sign + low@.reverse().take(low.len() - i),
        decreases i,
    {
        i = i - 1;
        r.push(low[i]);
        assert(r@ =~= sign + low@.reverse().take(low.len() - i));
    }
    assert(low@.reverse().take(low.len() as int) =~= low@.reverse());
    assert(r@ =~= decimal(wide as int));
    r
}

/// How many atoms inside atoms are printed before the printer gives up.
pub const ATOM_DEPTH: usize = 16;

/// A form as text. Readably, a string is escaped and quoted and an atom is
/// written `(atom x)`; for display, a string is its text and an atom is what
/// it holds. The items of a collection are separated by one space. An atom
/// nested more than `depth` atoms deep, or one that is not of this store, is
/// written `#<atom>`.
pub open spec fn render(form: FormView, store: StoreView, readably: bool, depth: nat) -> Seq<char>
    decreases depth, form, 0nat,
{
    match form.kind {
        KindView::Nil => "nil"@,
        KindView::Boolean(b) => if b {
            "true"@
        } else {
            "false"@
        },
        KindView::Symbol(name) => name,
        KindView::Integer(n) => decimal(n as int),
        KindView::String(text) => if readably {
            quoted_text(escaped(text))
        } else {
            text
        },
        KindView::Keyword(text) => ":"@ + text,
        KindView::List(items) => "("@ + render_items(items, 0, store, readably, depth) + ")"@,
        KindView::Vector(items) => "["@ + render_items(items, 0, store, readably, depth) + "]"@,
        KindView::HashMap(entries) => "{"@ + render_entries(entries, 0, store, readably, depth)
            + "}"@,
        KindView::NativeFn(_) => "#<native>"@,
        KindView::UserFn { is_macro, .. } => if is_macro {
            "#<macro>"@
        } else {
            "#<function>"@
        },
        KindView::Atom(atom) => match store.deref(atom) {
            Some(held) => if depth > 0 {
                if readably {
                    "(atom "@ + render(held, store, readably, (depth - 1) as nat) + ")"@
                } else {
                    render(held, store, readably, (depth - 1) as nat)
                }
            } else {
                "#<atom>"@
            },
            None => "#<atom>"@,
        },
    }
}

/// The items from index `from` on, each but the very first after a space.
pub open spec fn render_items(
    items: Seq<FormView>,
    from: int,
    store: StoreView,
    readably: bool,
    depth: nat,
) -> Seq<char>
    decreases depth, items, items.len() - from,
{
    if from < 0 || from >= items.len() {
        Seq::empty()
    } else {
        (if from > 0 {
            " "@
        } else {
            Seq::empty()
        }) + render(items[from], store, readably, depth) + render_items(
            items,
            from + 1,
            store,
            readably,
            depth,
        )
    }
}

/// The entries from index `from` on, key then value, each but the very first
/// key after a space.
pub open spec fn render_entries(
    entries: Seq<(FormView, FormView)>,
    from: int,
    store: StoreView,
    readably: bool,
    depth: nat,
) -> Seq<char>
    decreases depth, entries, entries.len() - from,
{
    if from < 0 || from >= entries.len() {
        Seq::empty()
    } else {
        (if from > 0 {
            " "@
        } else {
            Seq::empty()
        }) + render(entries[from].0, store, readably, depth) + " "@ + render(
            entries[from].1,
            store,
            readably,
            depth,
        ) + render_entries(entries, from + 1, store, readably, depth)
    }
}

/// Writes the items, separated by spaces.
pub fn write_items(out: &mut String, values: &Vec<Form>, store: &Store, readably: bool, depth: usize)
    ensures
        final(out)@ == old(out)@ + render_items(views(values@), 0, store@, readably, depth as nat),
    decreases depth, values, 1nat,
{
    let ghost begun = out@;
    let ghost all = views(values@);
    let mut i: usize = 0;
    while i < values.len()
        invariant
            i <= values.len(),
            all == views(values@),
            begun + render_items(all, 0, store@, readably, depth as nat) == out@ + render_items(
                all,
                i as int,
                store@,
                readably,
                depth as nat,
            ),
        decreases values.len() - i,
    {
        let ghost before = out@;
        if i > 0 {
            out.append(" ");
        }
        write_form(out, &values[i], store, readably, depth);
        assert(out@ + render_items(all, i + 1, store@, readably, depth as nat) =~= before
            + render_items(all, i as int, store@, readably, depth as nat));
        i = i + 1;
    }
    assert(out@ =~= begun + render_items(all, 0, store@, readably, depth as nat));
}

/// Writes the items between `start` and `end`, separated by spaces.
fn write_list(
    out: &mut String,
    start: &str,
    end: &str,
    values: &Vec<Form>,
    store: &Store,
    readably: bool,
    depth: usize,
)
    ensures
        final(out)@ == old(out)@ + start@ + render_items(
            views(values@),
            0,
            store@,
            readably,
            depth as nat,
        ) + end@,
    decreases depth, values, 2nat,
{
    out.append(start);
    write_items(out, values, store, readably, depth);
    out.append(end);
}

/// Writes the entries of a map between braces.
fn write_entries(
    out: &mut String,
    entries: &Vec<(Form, Form)>,
    store: &Store,
    readably: bool,
    depth: usize,
)
    ensures
        final(out)@ == old(out)@ + "{"@ + render_entries(
            entry_views(entries@),
            0,
            store@,
            readably,
            depth as nat,
        ) + "}"@,
    decreases depth, entries, 1nat,
{
    out.append("{");
    let ghost begun = out@;
    let ghost all = entry_views(entries@);
    let mut i: usize = 0;
    while i < entries.len()
        invariant
            i <= entries.len(),
            all == entry_views(entries@),
            begun + render_entries(all, 0, store@, readably, depth as nat) == out@
                + render_entries(all, i as int, store@, readably, depth as nat),
        decreases entries.len() - i,
    {
        let ghost before = out@;
        if i > 0 {
            out.append(" ");
        }
        write_form(out, &entries[i].0, store, readably, depth);
        out.append(" ");
        write_form(out, &entries[i].1, store, readably, depth);
        assert(out@ + render_entries(all, i + 1, store@, readably, depth as nat) =~= before
            + render_entries(all, i as int, store@, readably, depth as nat));
        i = i + 1;
    }
    out.append("}");
    assert(out@ =~= old(out)@ + "{"@ + render_entries(all, 0, store@, readably, depth as nat)
        + "}"@);
}

/// Writes a form at the end of `out`.
pub fn write_form(out: &mut String, form: &Form, store: &Store, readably: bool, depth: usize)
    ensures
        final(out)@ == old(out)@ + render(form@, store@, readably, depth as nat),
    decreases depth, form, 0nat,
{
    proof {
        lemma_collection_views(form.kind);
    }
    match &form.kind {
        FormKind::Nil => out.append("nil"),
        FormKind::Boolean(b) => if *b {
            out.append("true")
        } else {
            out.append("false")
        },
        FormKind::Symbol(ident) => out.append(ident.name.as_str()),
        FormKind::Integer(n) => {
            let text = int_to_string(*n);
            out.append(text.as_str())
        },
        FormKind::String(text) => {
            if readably {
                let inner = escape_unprintable(text.as_str(), store.escapes());
                let quoted = quote_text(inner.as_str());
                out.append(quoted.as_str())
            } else {
                out.append(text.as_str())
            }
        },
        FormKind::Keyword(text) => {
            out.append(":");
            out.append(text.as_str());
            assert(out@ =~= old(out)@ + (":"@ + text@));
        },
        FormKind::List(values) => {
            write_list(out, "(", ")", values, store, readably, depth);
            assert(out@ =~= old(out)@ + render(form@, store@, readably, depth as nat));
        },
        FormKind::Vector(values) => {
            write_list(out, "[", "]", values, store, readably, depth);
            assert(out@ =~= old(out)@ + render(form@, store@, readably, depth as nat));
        },
        FormKind::HashMap(entries) => {
            write_entries(out, entries, store, readably, depth);
            assert(out@ =~= old(out)@ + render(form@, store@, readably, depth as nat));
        },
        FormKind::NativeFn(_) => out.append("#<native>"),
        FormKind::UserFn { is_macro, .. } => if *is_macro {
            out.append("#<macro>")
        } else {
            out.append("#<function>")
        },
        FormKind::Atom(atom) => {
            match atom.get(store) {
                Some(held) => {
                    if depth > 0 {
                        if readably {
                            out.append("(atom ");
                            write_form(out, &held, store, readably, depth - 1);
                            out.append(")");
                            assert(out@ =~= old(out)@ + render(
                                form@,
                                store@,
                                readably,
                                depth as nat,
                            ));
                        } else {
                            write_form(out, &held, store, readably, depth - 1);
                        }
                    } else {
                        out.append("#<atom>")
                    }
                },
                None => out.append("#<atom>"),
            }
        },
    }
}

/// The form as text that the reader takes back.
pub fn pr_str(input: &Form, store: &Store) -> (text: String)
    ensures
        text@ == render(input@, store@, true, ATOM_DEPTH as nat),
{
    let mut text = String::new();
    write_form(&mut text, input, store, true, ATOM_DEPTH);
    assert(text@ =~= render(input@, store@, true, ATOM_DEPTH as nat));
    text
}

/// The form as text for display.
pub fn display_str(input: &Form, store: &Store) -> (text: String)
    ensures
        text@ == render(input@, store@, false, ATOM_DEPTH as nat),
{
    let mut text = String::new();
    write_form(&mut text, input, store, false, ATOM_DEPTH);
    assert(text@ =~= render(input@, store@, false, ATOM_DEPTH as nat));
    text
}

} // verus!
