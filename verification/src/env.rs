//! Lexical scopes and mutable cells, kept in a store and addressed by
//! handle.
//!
//! A scope maps names to forms and may have a parent. Closures and call
//! frames hold handles to scopes, so several of them can share one scope and
//! see each other's bindings. Nothing is ever removed from a store: a handle,
//! once given out, stays good.

use crate::form::{Atom, Form, FormView};
use crate::format::Escapes;
use crate::{Error, ErrorView};
use vstd::hash_map::StringHashMap;
use vstd::prelude::*;

verus! {

/// A handle to one scope of a [`Store`].
#[derive(Clone, Copy, Debug, PartialEq, Eq, Structural)]
pub struct Env {
    pub id: usize,
}

struct Scope {
    data: StringHashMap<Form>,
    parent: Option<usize>,
}

/// The scopes and cells of a running program, the lines it has printed and
/// the files that the host has handed in.
pub struct Store {
    scopes: Vec<Scope>,
    atoms: Vec<Form>,
    output: Vec<String>,
    files: StringHashMap<String>,
    clock: i64,
    escapes: Escapes,
}

/// The mathematical model of a scope.
pub ghost struct ScopeView {
    pub data: Map<Seq<char>, FormView>,
    pub parent: Option<usize>,
}

/// The mathematical model of a [`Store`].
pub ghost struct StoreView {
    pub scopes: Seq<ScopeView>,
    pub atoms: Seq<FormView>,
    pub output: Seq<Seq<char>>,
    pub files: Map<Seq<char>, Seq<char>>,
    /// The time, in milliseconds, when the clock was last read.
    pub clock: i64,
    /// The searchers with which the text of strings is escaped and
    /// unescaped.
    pub escapes: Escapes,
}

impl StoreView {
    /// The store that holds nothing but its searchers.
    pub open spec fn empty(escapes: Escapes) -> StoreView {
        StoreView {
            scopes: Seq::empty(),
            atoms: Seq::empty(),
            output: Seq::empty(),
            files: Map::empty(),
            clock: 0,
            escapes,
        }
    }

    /// The handle that the next new scope gets.
    pub open spec fn next_env(self) -> Env {
        Env { id: self.scopes.len() as usize }
    }

    /// The store with one more scope, empty, under `parent`. A parent that
    /// is not a scope of this store counts as none.
    pub open spec fn with_scope(self, parent: Option<Env>) -> StoreView {
        let link = match parent {
            Some(p) => if p.id < self.scopes.len() {
                Some(p.id)
            } else {
                None
            },
            None => None,
        };
        StoreView { scopes: self.scopes.push(ScopeView { data: Map::empty(), parent: link }), ..self }
    }

    /// The store with `name` bound to `value` in the scope `env` itself. A
    /// handle that is not of this store changes nothing.
    pub open spec fn bind(self, env: Env, name: Seq<char>, value: FormView) -> StoreView {
        if env.id < self.scopes.len() {
            let scope = self.scopes[env.id as int];
            StoreView {
                scopes: self.scopes.update(
                    env.id as int,
                    ScopeView { data: scope.data.insert(name, value), ..scope },
                ),
                ..self
            }
        } else {
            self
        }
    }

    /// What `name` is bound to in the nearest scope that binds it, from `env`
    /// outward.
    pub open spec fn lookup(self, env: Env, name: Seq<char>) -> Option<FormView>
        decreases env.id,
    {
        if env.id >= self.scopes.len() {
            None
        } else if self.scopes[env.id as int].data.contains_key(name) {
            Some(self.scopes[env.id as int].data[name])
        } else {
            match self.scopes[env.id as int].parent {
                Some(p) => if p < env.id {
                    self.lookup(Env { id: p }, name)
                } else {
                    None
                },
                None => None,
            }
        }
    }

    /// The outermost scope on the chain of `env`.
    pub open spec fn root(self, env: Env) -> Env
        decreases env.id,
    {
        if env.id >= self.scopes.len() {
            env
        } else {
            match self.scopes[env.id as int].parent {
                Some(p) => if p < env.id {
                    self.root(Env { id: p })
                } else {
                    env
                },
                None => env,
            }
        }
    }

    /// The handle that the next new cell gets.
    pub open spec fn next_atom(self) -> Atom {
        Atom { id: self.atoms.len() as usize }
    }

    /// The store with one more cell, holding `value`.
    pub open spec fn with_atom(self, value: FormView) -> StoreView {
        StoreView { atoms: self.atoms.push(value), ..self }
    }

    /// What the cell holds, if it is a cell of this store.
    pub open spec fn deref(self, atom: Atom) -> Option<FormView> {
        if atom.id < self.atoms.len() {
            Some(self.atoms[atom.id as int])
        } else {
            None
        }
    }

    /// The store with `value` in the cell. A handle that is not of this
    /// store changes nothing.
    pub open spec fn assign(self, atom: Atom, value: FormView) -> StoreView {
        if atom.id < self.atoms.len() {
            StoreView { atoms: self.atoms.update(atom.id as int, value), ..self }
        } else {
            self
        }
    }

    /// The store with one more printed line.
    pub open spec fn print(self, line: Seq<char>) -> StoreView {
        StoreView { output: self.output.push(line), ..self }
    }

    /// The store with the text of a file at `path`.
    pub open spec fn with_file(self, path: Seq<char>, text: Seq<char>) -> StoreView {
        StoreView { files: self.files.insert(path, text), ..self }
    }
}

impl Scope {
    spec fn model(self) -> ScopeView {
        ScopeView { data: self.data@.map_values(|f: Form| f@), parent: self.parent }
    }
}

impl View for Store {
    type V = StoreView;

    closed spec fn view(&self) -> StoreView {
        StoreView {
            scopes: Seq::new(self.scopes@.len(), |i: int| self.scopes@[i].model()),
            atoms: Seq::new(self.atoms@.len(), |i: int| self.atoms@[i]@),
            output: Seq::new(self.output@.len(), |i: int| self.output@[i]@),
            files: self.files@.map_values(|s: String| s@),
            clock: self.clock,
            escapes: self.escapes,
        }
    }
}

impl Store {
    /// A store with no scope, no cell, no output and no file.
    pub fn new(escapes: Escapes) -> (store: Store)
        ensures
            store@ == StoreView::empty(escapes),
    {
        let store = Store {
            scopes: Vec::new(),
            atoms: Vec::new(),
            output: Vec::new(),
            files: StringHashMap::new(),
            clock: 0,
            escapes,
        };
        assert(store@.scopes =~= Seq::empty());
        assert(store@.atoms =~= Seq::empty());
        assert(store@.output =~= Seq::empty());
        assert(store@.files =~= Map::empty());
        assert(store@.escapes == escapes);
        store
    }

    fn bind(&mut self, env: Env, key: &str, value: Form)
        ensures
            final(self)@ == old(self)@.bind(env, key@, value@),
    {
        if env.id < self.scopes.len() {
            let ghost before = self.scopes@[env.id as int];
            self.scopes[env.id].data.insert(key.to_owned(), value);
            assert(self.scopes@[env.id as int].model().data =~= before.model().data.insert(
                key@,
                value@,
            ));
            assert(self@.scopes =~= old(self)@.bind(env, key@, value@).scopes);
            assert(self@.atoms =~= old(self)@.atoms);
            assert(self@.output =~= old(self)@.output);
        }
    }

    fn lookup(&self, env: Env, key: &str) -> (found: Option<Form>)
        ensures
            match found {
                Some(form) => self@.lookup(env, key@) == Some(form@),
                None => self@.lookup(env, key@) is None,
            },
    {
        let mut id = env.id;
        loop
            invariant
                self@.lookup(env, key@) == self@.lookup(Env { id }, key@),
            decreases id,
        {
            if id >= self.scopes.len() {
                return None;
            }
            let scope = &self.scopes[id];
            match scope.data.get(key) {
                Some(form) => {
                    return Some(form.clone());
                },
                None => {},
            }
            match scope.parent {
                Some(p) => {
                    if p < id {
                        id = p;
                    } else {
                        return None;
                    }
                },
                None => {
                    return None;
                },
            }
        }
    }

    fn outermost(&self, env: Env) -> (root: Env)
        ensures
            root == self@.root(env),
    {
        let mut id = env.id;
        loop
            invariant
                self@.root(env) == self@.root(Env { id }),
            decreases id,
        {
            if id >= self.scopes.len() {
                return Env { id };
            }
            match self.scopes[id].parent {
                Some(p) => {
                    if p < id {
                        id = p;
                    } else {
                        return Env { id };
                    }
                },
                None => {
                    return Env { id };
                },
            }
        }
    }

    fn add_atom(&mut self, value: Form) -> (atom: Atom)
        ensures
            atom == old(self)@.next_atom(),
            final(self)@ == old(self)@.with_atom(value@),
    {
        let id = self.atoms.len();
        self.atoms.push(value);
        assert(self@.scopes =~= old(self)@.scopes);
        assert(self@.atoms =~= old(self)@.with_atom(value@).atoms);
        assert(self@.output =~= old(self)@.output);
        Atom { id }
    }

    fn read_atom(&self, atom: Atom) -> (value: Option<Form>)
        ensures
            match value {
                Some(form) => self@.deref(atom) == Some(form@),
                None => self@.deref(atom) is None,
            },
    {
        if atom.id < self.atoms.len() {
            Some(self.atoms[atom.id].clone())
        } else {
            None
        }
    }

    fn write_atom(&mut self, atom: Atom, value: Form)
        ensures
            final(self)@ == old(self)@.assign(atom, value@),
    {
        if atom.id < self.atoms.len() {
            self.atoms[atom.id] = value;
            assert(self@.scopes =~= old(self)@.scopes);
            assert(self@.atoms =~= old(self)@.assign(atom, value@).atoms);
            assert(self@.output =~= old(self)@.output);
        }
    }

    /// The searchers that escape and unescape the text of strings: the ones
    /// that the store was made with.
    pub fn escapes(&self) -> (escapes: &Escapes)
        ensures
            *escapes == self@.escapes,
    {
        &self.escapes
    }

    /// The time, in milliseconds, when the clock was last read.
    pub fn clock(&self) -> (ms: i64)
        ensures
            ms == self@.clock,
    {
        self.clock
    }

    /// Sets the time that the program sees.
    pub fn set_clock(&mut self, ms: i64)
        ensures
            final(self)@ == (StoreView { clock: ms, ..old(self)@ }),
    {
        self.clock = ms;
        assert(self@.scopes =~= old(self)@.scopes);
        assert(self@.atoms =~= old(self)@.atoms);
        assert(self@.output =~= old(self)@.output);
    }

    /// Adds a line to what the program has printed.
    pub fn print(&mut self, line: String)
        ensures
            final(self)@ == old(self)@.print(line@),
    {
        self.output.push(line);
        assert(self@.scopes =~= old(self)@.scopes);
        assert(self@.atoms =~= old(self)@.atoms);
        assert(self@.output =~= old(self)@.print(line@).output);
    }

    /// Hands out the lines printed so far, oldest first, and forgets them.
    pub fn take_output(&mut self) -> (lines: Vec<String>)
        ensures
            lines@.len() == old(self)@.output.len(),
            forall|i: int| 0 <= i < lines@.len() ==> (#[trigger] lines@[i])@ == old(self)@.output[i],
            final(self)@ == (StoreView { output: Seq::empty(), ..old(self)@ }),
    {
        let mut lines: Vec<String> = Vec::new();
        std::mem::swap(&mut lines, &mut self.output);
        assert(self@.scopes =~= old(self)@.scopes);
        assert(self@.atoms =~= old(self)@.atoms);
        assert(self@.output =~= Seq::empty());
        lines
    }

    /// Makes the text of a file known to the program under `path`.
    pub fn load_file(&mut self, path: &str, text: &str)
        ensures
            final(self)@ == old(self)@.with_file(path@, text@),
    {
        self.files.insert(path.to_owned(), text.to_owned());
        assert(self@.scopes =~= old(self)@.scopes);
        assert(self@.atoms =~= old(self)@.atoms);
        assert(self@.output =~= old(self)@.output);
        assert(self@.files =~= old(self)@.with_file(path@, text@).files);
    }

    /// The text of the file at `path`, if the host has handed it in.
    pub fn file(&self, path: &str) -> (text: Option<String>)
        ensures
            match text {
                Some(t) => self@.files.contains_key(path@) && self@.files[path@] == t@,
                None => !self@.files.contains_key(path@),
            },
    {
        match self.files.get(path) {
            Some(t) => Some(t.clone()),
            None => None,
        }
    }

    fn add_scope(&mut self, parent: Option<Env>) -> (env: Env)
        ensures
            env == old(self)@.next_env(),
            final(self)@ == old(self)@.with_scope(parent),
    {
        let id = self.scopes.len();
        let link = match parent {
            Some(p) => if p.id < id {
                Some(p.id)
            } else {
                None
            },
            None => None,
        };
        let scope = Scope { data: StringHashMap::new(), parent: link };
        assert(scope.model().data =~= Map::empty());
        self.scopes.push(scope);
        assert(self@.scopes =~= old(self)@.with_scope(parent).scopes);
        assert(self@.atoms =~= old(self)@.atoms);
        assert(self@.output =~= old(self)@.output);
        Env { id }
    }
}

impl Env {
    /// A new scope without a parent.
    pub fn new(store: &mut Store) -> (env: Env)
        ensures
            env == old(store)@.next_env(),
            final(store)@ == old(store)@.with_scope(None),
    {
        store.add_scope(None)
    }

    /// A new scope under `parent`.
    pub fn new_with(parent: &Env, store: &mut Store) -> (env: Env)
        ensures
            env == old(store)@.next_env(),
            final(store)@ == old(store)@.with_scope(Some(*parent)),
    {
        store.add_scope(Some(*parent))
    }

    /// Binds `key` to `value` in this scope, over what it was bound to
    /// here. No ancestor is touched.
    pub fn set(&self, store: &mut Store, key: &str, value: Form)
        ensures
            final(store)@ == old(store)@.bind(*self, key@, value@),
    {
        store.bind(*self, key, value)
    }

    /// What `key` is bound to in the nearest scope that binds it, from this
    /// one outward.
    pub fn get(&self, store: &Store, key: &str) -> (r: Result<Form, Error>)
        ensures
            match r {
                Ok(form) => store@.lookup(*self, key@) == Some(form@),
                Err(e) => store@.lookup(*self, key@) is None && e@ == ErrorView::UnknownSymbol(
                    key@,
                ),
            },
    {
        match store.lookup(*self, key) {
            Some(form) => Ok(form),
            None => Err(Error::UnknownSymbol(key.to_owned())),
        }
    }

    /// The outermost scope on the chain of this one.
    pub fn root(&self, store: &Store) -> (root: Env)
        ensures
            root == store@.root(*self),
    {
        store.outermost(*self)
    }

    /// Binds each name to its form in this scope, in the order given.
    pub fn extend(&self, store: &mut Store, items: Vec<(String, Form)>)
        ensures
            final(store)@ == bind_all(old(store)@, *self, bindings_view(items@), 0),
    {
        let ghost all = bindings_view(items@);
        let ghost mut done: int = 0;
        let mut items = crate::convert::reversed(items);
        while items.len() > 0
            invariant
                0 <= done <= all.len(),
                items@.len() == all.len() - done,
                forall|i: int|
                    0 <= i < items@.len() ==> (#[trigger] items@[i]).0@ == all[all.len() - 1 - i].0
                        && items@[i].1@ == all[all.len() - 1 - i].1,
                bind_all(old(store)@, *self, all, 0) == bind_all(store@, *self, all, done),
            decreases items.len(),
        {
            let (key, value) = items.pop().unwrap();
            store.bind(*self, key.as_str(), value);
            proof {
                done = done + 1;
            }
        }
    }
}

impl Atom {
    /// A new cell that holds `form`.
    pub fn new(form: Form, store: &mut Store) -> (atom: Atom)
        ensures
            atom == old(store)@.next_atom(),
            final(store)@ == old(store)@.with_atom(form@),
    {
        store.add_atom(form)
    }

    /// A copy of what the cell holds; nothing for a handle that is not of
    /// this store.
    pub fn get(&self, store: &Store) -> (value: Option<Form>)
        ensures
            match value {
                Some(form) => store@.deref(*self) == Some(form@),
                None => store@.deref(*self) is None,
            },
    {
        store.read_atom(*self)
    }

    /// Puts `form` in the cell, for every holder of the handle to see.
    pub fn set(&self, store: &mut Store, form: Form)
        ensures
            final(store)@ == old(store)@.assign(*self, form@),
    {
        store.write_atom(*self, form)
    }
}

/// The models of a sequence of bindings.
pub open spec fn bindings_view(items: Seq<(String, Form)>) -> Seq<(Seq<char>, FormView)> {
    Seq::new(items.len(), |i: int| (items[i].0@, items[i].1@))
}

/// The store after binding, in `env`, each of `items` from index `from` on.
pub open spec fn bind_all(
    store: StoreView,
    env: Env,
    items: Seq<(Seq<char>, FormView)>,
    from: int,
) -> StoreView
    decreases items.len() - from,
{
    if 0 <= from < items.len() {
        bind_all(store.bind(env, items[from].0, items[from].1), env, items, from + 1)
    } else {
        store
    }
}


/// A new scope changes no lookup that starts in a scope that was there
/// before.
pub proof fn lemma_new_scope_is_invisible(
    store: StoreView,
    parent: Option<Env>,
    from: Env,
    key: Seq<char>,
)
    requires
        from.id < store.scopes.len(),
    ensures
        store.with_scope(parent).lookup(from, key) == store.lookup(from, key),
    decreases from.id,
{
    match store.scopes[from.id as int].parent {
        Some(p) => {
            if p < from.id {
                lemma_new_scope_is_invisible(store, parent, Env { id: p }, key);
            }
        },
        None => {},
    }
}

/// A binding made in a scope changes no lookup that starts in an older scope.
pub proof fn lemma_binding_is_invisible_below(
    store: StoreView,
    env: Env,
    name: Seq<char>,
    value: FormView,
    from: Env,
    key: Seq<char>,
)
    requires
        from.id < env.id,
    ensures
        store.bind(env, name, value).lookup(from, key) == store.lookup(from, key),
    decreases from.id,
{
    if from.id < store.scopes.len() {
        match store.scopes[from.id as int].parent {
            Some(p) => {
                if p < from.id {
                    lemma_binding_is_invisible_below(store, env, name, value, Env { id: p }, key);
                }
            },
            None => {},
        }
    }
}

/// A binding is found again from the scope it was made in, and changes the
/// lookup of no other name from there.
pub proof fn lemma_binding_is_found(
    store: StoreView,
    env: Env,
    name: Seq<char>,
    value: FormView,
    key: Seq<char>,
)
    requires
        env.id < store.scopes.len(),
    ensures
        store.bind(env, name, value).lookup(env, name) == Some(value),
        key != name ==> store.bind(env, name, value).lookup(env, key) == store.lookup(env, key),
{
    if key != name {
        match store.scopes[env.id as int].parent {
            Some(p) => {
                if p < env.id {
                    lemma_binding_is_invisible_below(store, env, name, value, Env { id: p }, key);
                }
            },
            None => {},
        }
    }
}

/// Shadowing: a binding made in a new child scope is what the child sees
/// under that name, whatever the parent binds it to; the parent's own
/// lookups, of that name and of every other, are what they were before the
/// child existed; and every other name the child sees as the parent does.
pub proof fn law_child_binding_shadows(
    store: StoreView,
    parent: Env,
    name: Seq<char>,
    value: FormView,
    key: Seq<char>,
)
    requires
        parent.id < store.scopes.len() <= usize::MAX,
    ensures
        ({
            let child = store.next_env();
            let after = store.with_scope(Some(parent)).bind(child, name, value);
            &&& after.lookup(child, name) == Some(value)
            &&& after.lookup(parent, key) == store.lookup(parent, key)
            &&& key != name ==> after.lookup(child, key) == store.lookup(parent, key)
        }),
{
    let child = store.next_env();
    let grown = store.with_scope(Some(parent));
    let after = grown.bind(child, name, value);
    lemma_binding_is_found(grown, child, name, value, key);
    lemma_binding_is_invisible_below(grown, child, name, value, parent, key);
    lemma_new_scope_is_invisible(store, Some(parent), parent, key);
}

/// A cell is shared by its handle: what is put into it through one copy of
/// the handle is what every copy gives afterwards, and no other cell, no
/// scope, and nothing else in the store changes.
pub proof fn law_cell_is_shared(store: StoreView, atom: Atom, alias: Atom, other: Atom, value: FormView)
    requires
        atom.id < store.atoms.len(),
        alias == atom,
        other != atom,
    ensures
        store.assign(atom, value).deref(alias) == Some(value),
        store.assign(atom, value).deref(other) == store.deref(other),
        store.assign(atom, value).scopes == store.scopes,
        store.assign(atom, value).output == store.output,
{
}

} // verus!
