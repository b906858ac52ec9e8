//! The compiler's symbol table: nested scopes of names, each name bound to
//! a storage class and an index.

use vstd::prelude::*;

verus! {

/// Where a name lives at run time.
#[derive(Clone, Copy, Debug, PartialEq, Eq, Structural)]
pub enum Scope {
    Global,
    Local,
    Builtin,
    Free,
    Function,
}

impl Scope {
    /// The lower-case name of the scope.
    pub open spec fn label_text(self) -> Seq<char> {
        match self {
            Scope::Global => "global"@,
            Scope::Local => "local"@,
            Scope::Builtin => "builtin"@,
            Scope::Free => "free"@,
            Scope::Function => "function"@,
        }
    }

    /// The lower-case name of the scope.
    pub fn label(&self) -> (s: &'static str)
        ensures
            s@ == self.label_text(),
    {
        match self {
            Scope::Global => "global",
            Scope::Local => "local",
            Scope::Builtin => "builtin",
            Scope::Free => "free",
            Scope::Function => "function",
        }
    }

    /// Whether a name of this scope is reached from an inner function as it
    /// is, without being captured.
    pub open spec fn is_shared(self) -> bool {
        self == Scope::Global || self == Scope::Builtin
    }
}

/// A resolved name.
#[derive(Clone, Debug, PartialEq)]
pub struct Symbol {
    pub name: String,
    pub scope: Scope,
    pub index: usize,
}

/// The mathematical value of a [`Symbol`].
pub struct SymbolView {
    pub name: Seq<char>,
    pub scope: Scope,
    pub index: usize,
}

impl View for Symbol {
    type V = SymbolView;

    open spec fn view(&self) -> SymbolView {
        SymbolView { name: self.name@, scope: self.scope, index: self.index }
    }
}

impl Symbol {
    pub fn new(name: String, scope: Scope, index: usize) -> (s: Symbol)
        ensures
            s@ == (SymbolView { name: name@, scope, index }),
    {
        Symbol { name, scope, index }
    }

    /// A copy of this symbol.
    pub fn duplicate(&self) -> (s: Symbol)
        ensures
            s@ == self@,
    {
        Symbol { name: self.name.clone(), scope: self.scope, index: self.index }
    }
}

/// The views of the symbols of `v`, in order.
pub open spec fn symbol_views(v: Seq<Symbol>) -> Seq<SymbolView> {
    v.map_values(|s: Symbol| s@)
}

/// The place of the first symbol named `name` at or after `from`.
pub open spec fn name_index(store: Seq<SymbolView>, name: Seq<char>, from: int) -> Option<int>
    decreases store.len() - from,
{
    if from < 0 || from >= store.len() {
        None
    } else if store[from].name == name {
        Some(from)
    } else {
        name_index(store, name, from + 1)
    }
}

/// The mathematical value of a [`SymbolTable`].
pub struct TableModel {
    /// The bindings, oldest first. A name is bound once: its first entry
    /// is its binding.
    pub store: Seq<SymbolView>,
    /// How many names have been defined in this scope.
    pub definitions: usize,
    /// The symbols of enclosing scopes that this scope captures, in the
    /// order in which they were first resolved.
    pub frees: Seq<SymbolView>,
    /// The enclosing scope, if any.
    pub outer: Option<Box<TableModel>>,
}

impl TableModel {
    /// An outermost scope with nothing defined.
    pub open spec fn empty() -> TableModel {
        TableModel { store: Seq::empty(), definitions: 0, frees: Seq::empty(), outer: None }
    }

    /// An empty scope inside this one.
    pub open spec fn enclosed(self) -> TableModel {
        TableModel {
            store: Seq::empty(),
            definitions: 0,
            frees: Seq::empty(),
            outer: Some(Box::new(self)),
        }
    }

    /// What this scope itself binds `name` to.
    pub open spec fn find(self, name: Seq<char>) -> Option<SymbolView> {
        match name_index(self.store, name, 0) {
            Some(i) => Some(self.store[i]),
            None => None,
        }
    }

    /// This scope with the name of `s` bound to `s`, in place of what the
    /// name was bound to before.
    pub open spec fn bind(self, s: SymbolView) -> TableModel {
        TableModel {
            store: match name_index(self.store, s.name, 0) {
                Some(i) => self.store.update(i, s),
                None => self.store.push(s),
            },
            ..self
        }
    }

    /// The symbol that defining `name` here gives: global in an outermost
    /// scope, local in a nested one, with the next index.
    pub open spec fn fresh(self, name: Seq<char>) -> SymbolView {
        SymbolView {
            name,
            scope: if self.outer is None {
                Scope::Global
            } else {
                Scope::Local
            },
            index: self.definitions,
        }
    }

    /// This scope after `name` has been defined in it.
    pub open spec fn define(self, name: Seq<char>) -> TableModel {
        TableModel { definitions: (self.definitions + 1) as usize, ..self.bind(self.fresh(name)) }
    }

    /// The free symbol that capturing `original` here gives.
    pub open spec fn captured_as(self, original: SymbolView) -> SymbolView {
        SymbolView { name: original.name, scope: Scope::Free, index: self.frees.len() as usize }
    }

    /// This scope after it has captured `original`.
    pub open spec fn define_free(self, original: SymbolView) -> TableModel {
        TableModel {
            frees: self.frees.push(original),
            ..self.bind(self.captured_as(original))
        }
    }

    /// What resolving `name` in this scope gives, looking outward.
    ///
    /// A name bound here is given as bound. A name found further out is
    /// given as it is if it is global or builtin; otherwise it is
    /// captured, and is given as a free symbol whose index is the next
    /// place among this scope's captures.
    pub open spec fn resolved(self, name: Seq<char>) -> Option<SymbolView>
        decreases self,
    {
        match self.find(name) {
            Some(s) => Some(s),
            None => match self.outer {
                Some(o) => match o.resolved(name) {
                    Some(s) => if s.scope.is_shared() {
                        Some(s)
                    } else {
                        Some(self.captured_as(s))
                    },
                    None => None,
                },
                None => None,
            },
        }
    }

    /// The symbol that resolving `name` captures from the enclosing
    /// scopes, if it captures one.
    pub open spec fn captures(self, name: Seq<char>) -> Option<SymbolView> {
        if self.find(name) is None && self.outer is Some && self.outer.unwrap().resolved(name)
            is Some && !self.outer.unwrap().resolved(name).unwrap().scope.is_shared() {
            self.outer.unwrap().resolved(name)
        } else {
            None
        }
    }

    /// This scope after `name` has been resolved in it: it has captured
    /// what resolving captures, and is else as before. The enclosing
    /// scopes never change.
    pub open spec fn resolve(self, name: Seq<char>) -> TableModel {
        match self.captures(name) {
            Some(original) => self.define_free(original),
            None => self,
        }
    }
}

/// One scope of names, inside the scope `outer` if there is one.
#[derive(Debug)]
pub struct SymbolTable {
    pub outer: Option<Box<SymbolTable>>,
    pub store: Vec<Symbol>,
    pub num_definitions: usize,
    free_symbols: Vec<Symbol>,
}

impl SymbolTable {
    /// The mathematical value of the table.
    pub closed spec fn model(&self) -> TableModel
        decreases self,
    {
        TableModel {
            store: symbol_views(self.store@),
            definitions: self.num_definitions,
            frees: symbol_views(self.free_symbols@),
            outer: match self.outer {
                Some(o) => Some(Box::new(o.model())),
                None => None,
            },
        }
    }

    /// An outermost scope with nothing defined.
    pub fn new() -> (t: SymbolTable)
        ensures
            t.model() == TableModel::empty(),
    {
        let t = SymbolTable {
            outer: None,
            store: Vec::new(),
            num_definitions: 0,
            free_symbols: Vec::new(),
        };
        assert(t.model().store =~= Seq::empty());
        assert(t.model().frees =~= Seq::empty());
        t
    }

    /// An empty scope inside `outer`.
    pub fn new_enclosed(outer: SymbolTable) -> (t: SymbolTable)
        ensures
            t.model() == outer.model().enclosed(),
    {
        let t = SymbolTable {
            outer: Some(Box::new(outer)),
            store: Vec::new(),
            num_definitions: 0,
            free_symbols: Vec::new(),
        };
        assert(t.model().store =~= Seq::empty());
        assert(t.model().frees =~= Seq::empty());
        t
    }

    /// The enclosing scope, if there is one; the scope itself is let go.
    pub fn leave(self) -> (o: Option<SymbolTable>)
        ensures
            match o {
                Some(t) => Some(Box::new(t.model())),
                None => None,
            } == self.model().outer,
    {
        match self.outer {
            Some(o) => Some(*o),
            None => None,
        }
    }

    /// Whether this is an outermost scope.
    pub fn is_outermost(&self) -> (b: bool)
        ensures
            b == self.model().outer is None,
    {
        self.outer.is_none()
    }

    /// How many names have been defined in this scope.
    pub fn definitions(&self) -> (n: usize)
        ensures
            n == self.model().definitions,
    {
        self.num_definitions
    }

    /// The symbols that this scope captures, in order.
    pub fn captured(&self) -> (r: Vec<Symbol>)
        ensures
            symbol_views(r@) == self.model().frees,
    {
        let mut r: Vec<Symbol> = Vec::new();
        let mut i: usize = 0;
        while i < self.free_symbols.len()
            invariant
                i <= self.free_symbols.len(),
                symbol_views(r@) == symbol_views(self.free_symbols@).take(i as int),
            decreases self.free_symbols.len() - i,
        {
            let ghost before = r@;
            let s = self.free_symbols[i].duplicate();
            r.push(s);
            assert(symbol_views(r@) =~= symbol_views(before).push(s@));
            assert(symbol_views(self.free_symbols@).take(i + 1) =~= symbol_views(
                self.free_symbols@,
            ).take(i as int).push(symbol_views(self.free_symbols@)[i as int]));
            i += 1;
        }
        assert(symbol_views(self.free_symbols@).take(self.free_symbols@.len() as int)
            =~= symbol_views(self.free_symbols@));
        r
    }

    fn position(&self, name: &String) -> (r: Option<usize>)
        ensures
            match r {
                Some(i) => Some(i as int),
                None => None,
            } == name_index(self.model().store, name@, 0),
            r is Some ==> r.unwrap() < self.store@.len(),
    {
        let mut i: usize = 0;
        while i < self.store.len()
            invariant
                i <= self.store.len(),
                name_index(self.model().store, name@, 0) == name_index(
                    self.model().store,
                    name@,
                    i as int,
                ),
            decreases self.store.len() - i,
        {
            if self.store[i].name == *name {
                return Some(i);
            }
            i += 1;
        }
        None
    }

    /// Binds the name of `symbol` to it.
    fn bind(&mut self, symbol: Symbol)
        ensures
            final(self).model() == old(self).model().bind(symbol@),
    {
        match self.position(&symbol.name) {
            Some(i) => {
                self.store[i] = symbol;
                assert(self.model().store =~= old(self).model().bind(symbol@).store);
            },
            None => {
                self.store.push(symbol);
                assert(self.model().store =~= old(self).model().bind(symbol@).store);
            },
        }
    }

    /// This scope's own binding of `name`.
    fn lookup(&self, name: &String) -> (r: Option<Symbol>)
        ensures
            match r {
                Some(s) => Some(s@),
                None => None,
            } == self.model().find(name@),
    {
        match self.position(name) {
            Some(i) => Some(self.store[i].duplicate()),
            None => None,
        }
    }

    /// Defines `name` in this scope: global in an outermost scope, local in
    /// a nested one, with the next free index.
    pub fn define(&mut self, name: String) -> (symbol: Symbol)
        requires
            old(self).model().definitions < usize::MAX,
        ensures
            symbol@ == old(self).model().fresh(name@),
            final(self).model() == old(self).model().define(name@),
    {
        let scope = if self.outer.is_none() {
            Scope::Global
        } else {
            Scope::Local
        };
        let symbol = Symbol::new(name, scope, self.num_definitions);
        self.bind(symbol.duplicate());
        self.num_definitions += 1;
        symbol
    }

    /// Binds `name` to the builtin of the given index.
    pub fn define_builtin(&mut self, index: usize, name: String) -> (symbol: Symbol)
        ensures
            symbol@ == (SymbolView { name: name@, scope: Scope::Builtin, index }),
            final(self).model() == old(self).model().bind(symbol@),
    {
        let symbol = Symbol::new(name, Scope::Builtin, index);
        self.bind(symbol.duplicate());
        symbol
    }

    /// Captures `original`, a symbol of an enclosing scope: records it as
    /// the next capture of this scope and binds its name to a free symbol
    /// with that place as index.
    pub fn define_free(&mut self, original: Symbol) -> (symbol: Symbol)
        ensures
            symbol@ == old(self).model().captured_as(original@),
            final(self).model() == old(self).model().define_free(original@),
    {
        let symbol = Symbol::new(original.name.clone(), Scope::Free, self.free_symbols.len());
        self.free_symbols.push(original);
        assert(self.model().frees =~= old(self).model().frees.push(original@));
        self.bind(symbol.duplicate());
        symbol
    }

    /// Binds `name` to the function being compiled, so that its body can
    /// refer to it.
    pub fn define_function_name(&mut self, name: String) -> (symbol: Symbol)
        ensures
            symbol@ == (SymbolView { name: name@, scope: Scope::Function, index: 0 }),
            final(self).model() == old(self).model().bind(symbol@),
    {
        let symbol = Symbol::new(name, Scope::Function, 0);
        self.bind(symbol.duplicate());
        symbol
    }

    /// What resolving `name` in this scope would give, without capturing
    /// anything.
    fn peek_resolve(&self, name: &String) -> (r: Option<Symbol>)
        ensures
            match r {
                Some(s) => Some(s@),
                None => None,
            } == self.model().resolved(name@),
        decreases self,
    {
        match self.lookup(name) {
            Some(s) => Some(s),
            None => match &self.outer {
                Some(o) => match o.peek_resolve(name) {
                    Some(s) => match s.scope {
                        Scope::Global | Scope::Builtin => Some(s),
                        _ => Some(Symbol::new(s.name, Scope::Free, self.free_symbols.len())),
                    },
                    None => None,
                },
                None => None,
            },
        }
    }

    /// Resolves `name`, looking outward from this scope.
    ///
    /// Gives `None` if no scope binds the name. A name that is found in an
    /// enclosing scope and is neither global nor builtin is captured: it
    /// becomes the next capture of this scope, and the name is bound here to
    /// the free symbol that is returned. Nothing else changes, and the
    /// enclosing scopes never do.
    pub fn resolve(&mut self, name: &str) -> (r: Option<Symbol>)
        ensures
            match r {
                Some(s) => Some(s@),
                None => None,
            } == old(self).model().resolved(name@),
            final(self).model() == old(self).model().resolve(name@),
    {
        let key = String::from_str(name);
        match self.lookup(&key) {
            Some(s) => Some(s),
            None => {
                let found = match &self.outer {
                    Some(o) => o.peek_resolve(&key),
                    None => None,
                };
                match found {
                    Some(s) => match s.scope {
                        Scope::Global | Scope::Builtin => Some(s),
                        _ => Some(self.define_free(s)),
                    },
                    None => None,
                }
            },
        }
    }
}

/// A name bound in a scope is bound to a symbol of that name.
pub proof fn lemma_find_name(t: TableModel, name: Seq<char>)
    ensures
        t.find(name) is Some ==> t.find(name).unwrap().name == name,
{
    lemma_name_index(t.store, name, 0);
}

proof fn lemma_name_index(store: Seq<SymbolView>, name: Seq<char>, from: int)
    requires
        0 <= from,
    ensures
        name_index(store, name, from) is Some ==> from <= name_index(store, name, from).unwrap()
            < store.len() && store[name_index(store, name, from).unwrap()].name == name,
    decreases store.len() - from,
{
    if from < store.len() && store[from].name != name {
        lemma_name_index(store, name, from + 1);
    }
}

/// A name resolves to a symbol of that name.
pub proof fn lemma_resolved_name(t: TableModel, name: Seq<char>)
    ensures
        t.resolved(name) is Some ==> t.resolved(name).unwrap().name == name,
    decreases t,
{
    lemma_find_name(t, name);
    if t.find(name) is None && t.outer is Some {
        lemma_resolved_name(*t.outer.unwrap(), name);
    }
}

} // verus!
