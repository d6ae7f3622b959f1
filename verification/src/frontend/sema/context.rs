use vstd::prelude::*;
use crate::frontend::parser::ast::{Type, Visibility};
use crate::frontend::sema::names::NameMap;
use crate::frontend::sema::scopes::{ScopeArena, ScopeKind, ScopeView, enclosing_loop, visible, arena_wf, parent_of};
use crate::frontend::sema::symbols::{SymbolTable, Symbol, SymbolKind, SymbolView, fn_symbol, var_symbol, with_id};
use crate::frontend::text::push_str;

verus! {

/// What analysis knows at a point of the program: the scopes, the one it is in, the
/// symbols, and the functions by their full (module-qualified) names.
#[derive(Debug)]
pub struct Context {
    pub scopes: ScopeArena,
    pub current_scope: usize,
    pub symbols: SymbolTable,
    pub functions: NameMap,
}

/// The mathematical model of a [`Context`].
pub struct ContextView {
    pub scopes: Seq<ScopeView>,
    pub current: int,
    pub symbols: Seq<SymbolView>,
    pub functions: Map<Seq<char>, usize>,
}

impl View for Context {
    type V = ContextView;

    open spec fn view(&self) -> ContextView {
        ContextView {
            scopes: self.scopes.all(),
            current: self.current_scope as int,
            symbols: self.symbols.entries(),
            functions: self.functions@,
        }
    }
}

/// The context before anything is declared: one global scope, no symbols.
pub open spec fn initial_context() -> ContextView {
    ContextView {
        scopes: seq![ScopeView { id: 0, parent: None, kind: ScopeKind::Global, symbols: Map::empty() }],
        current: 0,
        symbols: Seq::empty(),
        functions: Map::empty(),
    }
}

impl ContextView {
    pub open spec fn in_loop(self) -> bool {
        enclosing_loop(self.scopes, self.current) is Some
    }

    /// The symbol that `mangled` names as a function.
    pub open spec fn func(self, mangled: Seq<char>) -> Option<SymbolView> {
        if self.functions.contains_key(mangled) && self.functions[mangled] < self.symbols.len() {
            Some(self.symbols[self.functions[mangled] as int])
        } else {
            None
        }
    }

    /// The symbol that `name` stands for in the current scope.
    pub open spec fn var(self, name: Seq<char>) -> Option<SymbolView> {
        match visible(self.scopes, self.current, name) {
            Some(i) => if i < self.symbols.len() {
                Some(self.symbols[i as int])
            } else {
                None
            },
            None => None,
        }
    }

    /// The function that a call of `name` in module `module_name` means: first the
    /// module's own function of that name, then a visible symbol that is a function.
    pub open spec fn find_func(self, name: Seq<char>, module_name: Seq<char>) -> Option<SymbolView> {
        match self.func(module_name + "."@ + name) {
            Some(s) => Some(s),
            None => match self.var(name) {
                Some(s) => if s.kind == SymbolKind::Function {
                    Some(s)
                } else {
                    None
                },
                None => None,
            },
        }
    }

    /// Declares `s` under the next symbol id in the current scope.
    pub open spec fn declare(self, name: Seq<char>, s: SymbolView) -> ContextView {
        let id = self.symbols.len() as usize;
        ContextView {
            scopes: self.scopes.update(
                self.current,
                ScopeView { symbols: self.scopes[self.current].symbols.insert(name, id), ..self.scopes[self.current] },
            ),
            symbols: self.symbols.push(with_id(s, id)),
            ..self
        }
    }

    /// Binds `name` to symbol `id` in the current scope.
    pub open spec fn bind(self, name: Seq<char>, id: usize) -> ContextView {
        ContextView {
            scopes: self.scopes.update(
                self.current,
                ScopeView { symbols: self.scopes[self.current].symbols.insert(name, id), ..self.scopes[self.current] },
            ),
            ..self
        }
    }

    pub open spec fn add_var(self, name: Seq<char>, ty: Type, mutable: bool) -> ContextView {
        self.declare(name, var_symbol(name, ty, mutable))
    }

    pub open spec fn add_func(self, name: Seq<char>, mangled: Seq<char>, params: Seq<Type>, ret_type: Type, visibility: Visibility, module: Seq<char>) -> ContextView {
        let c = self.declare(name, fn_symbol(name, mangled, params, ret_type, visibility, module));
        ContextView { functions: c.functions.insert(mangled, self.symbols.len() as usize), ..c }
    }

    pub open spec fn push_scope(self, kind: ScopeKind) -> ContextView {
        ContextView {
            scopes: self.scopes.push(
                ScopeView { id: self.scopes.len() as usize, parent: Some(self.current as usize), kind, symbols: Map::empty() },
            ),
            current: self.scopes.len() as int,
            ..self
        }
    }

    pub open spec fn pop_scope(self) -> ContextView {
        match crate::frontend::sema::scopes::parent_of(self.scopes, self.current) {
            Some(p) => ContextView { current: p as int, ..self },
            None => self,
        }
    }
}

impl Context {
    /// The scopes are consistent, the current one exists, and there is room for more
    /// scopes and symbols.
    pub open spec fn wf(&self) -> bool {
        &&& self.scopes.wf()
        &&& self.symbols.wf()
        &&& self.functions.wf()
        &&& 0 <= self.current_scope < self.scopes.all().len()
    }

    pub fn new() -> (c: Self)
        ensures
            c.wf(),
            c@ == initial_context(),
    {
        let mut scopes = ScopeArena::new();
        let current_scope = scopes.add_scope(None, ScopeKind::Global);
        Self { scopes, current_scope, symbols: SymbolTable::new(), functions: NameMap::new() }
    }

    pub fn in_loop(&self) -> (r: bool)
        requires
            self.wf(),
        ensures
            r == self@.in_loop(),
    {
        self.scopes.get_loop(self.current_scope).is_some()
    }

    /// Enters a new scope of `kind` inside the current one.
    pub fn push_scope(&mut self, kind: ScopeKind) -> (id: usize)
        requires
            old(self).wf(),
        ensures
            final(self).wf(),
            final(self)@ == old(self)@.push_scope(kind),
            id == old(self)@.scopes.len(),
    {
        let parent = self.current_scope;
        let scope = self.scopes.add_scope(Some(parent), kind);
        self.current_scope = scope;
        scope
    }

    /// Leaves the current scope for its parent, if it has one; returns the scope left.
    pub fn pop_scope(&mut self) -> (old_scope: usize)
        requires
            old(self).wf(),
        ensures
            final(self).wf(),
            final(self)@ == old(self)@.pop_scope(),
            old_scope == old(self).current_scope,
    {
        let old_scope = self.current_scope;
        if let Some(parent) = self.scopes.get_parent(old_scope) {
            self.current_scope = parent;
        }
        old_scope
    }

    /// Declares a function: under `name` in the current scope, and under `mangled` among
    /// the functions.
    pub fn add_func(
        &mut self,
        name: &str,
        mangled: &str,
        params: Vec<Type>,
        ret_type: Type,
        visibility: Visibility,
        module: &str,
    ) -> (id: usize)
        requires
            old(self).wf(),
        ensures
            final(self).wf(),
            final(self)@ == old(self)@.add_func(name@, mangled@, params@, ret_type, visibility, module@),
            id == old(self)@.symbols.len(),
    {
        let func = Symbol::new_fn(name, mangled, params, ret_type, visibility, module);
        let id = self.symbols.insert(func);
        self.scopes.add_symbol(self.current_scope, name, id);
        self.functions.insert(mangled.to_owned(), id);
        proof {
            assert(self@.scopes =~= old(self)@.add_func(name@, mangled@, params@, ret_type, visibility, module@).scopes);
        }
        id
    }

    /// The function whose full name is `mangled`.
    pub fn get_func(&self, mangled: &str) -> (r: Option<&Symbol>)
        requires
            self.wf(),
        ensures
            match r {
                Some(s) => self@.func(mangled@) == Some(s@),
                None => self@.func(mangled@) is None,
            },
    {
        match self.functions.get(mangled) {
            Some(i) => self.symbols.get(i),
            None => None,
        }
    }

    /// The function that a call of `name` in module `module_name` means.
    pub fn find_func(&self, name: &str, module_name: &str) -> (r: Option<&Symbol>)
        requires
            self.wf(),
        ensures
            match r {
                Some(s) => self@.find_func(name@, module_name@) == Some(s@),
                None => self@.find_func(name@, module_name@) is None,
            },
    {
        let mut full = module_name.to_owned();
        push_str(&mut full, ".");
        push_str(&mut full, name);
        if let Some(symbol) = self.get_func(full.as_str()) {
            return Some(symbol);
        }
        if let Some(id) = self.scopes.lookup_visible(self.current_scope, name) {
            if let Some(symbol) = self.symbols.get(id) {
                if symbol.kind == SymbolKind::Function {
                    return Some(symbol);
                }
            }
        }
        None
    }

    /// Declares a variable in the current scope.
    pub fn add_var(&mut self, name: &str, ty: Type, mutable: bool) -> (id: usize)
        requires
            old(self).wf(),
        ensures
            final(self).wf(),
            final(self)@ == old(self)@.add_var(name@, ty, mutable),
            id == old(self)@.symbols.len(),
    {
        let var = Symbol::new_var(name, ty, mutable);
        let id = self.symbols.insert(var);
        self.scopes.add_symbol(self.current_scope, name, id);
        proof {
            assert(self@.scopes =~= old(self)@.add_var(name@, ty, mutable).scopes);
        }
        id
    }

    /// The symbol that `name` stands for in the current scope.
    pub fn get_var(&self, name: &str) -> (r: Option<&Symbol>)
        requires
            self.wf(),
        ensures
            match r {
                Some(s) => self@.var(name@) == Some(s@),
                None => self@.var(name@) is None,
            },
    {
        match self.scopes.lookup_visible(self.current_scope, name) {
            Some(i) => self.symbols.get(i),
            None => None,
        }
    }
}

// ---------------------------------------------------------------------------
// Laws of scopes and declarations.
// ---------------------------------------------------------------------------

impl ContextView {
    /// The scopes are consistent, the current one exists, and ids fit in `usize`.
    pub open spec fn valid(self) -> bool {
        &&& arena_wf(self.scopes)
        &&& 0 <= self.current < self.scopes.len()
        &&& self.scopes.len() < usize::MAX
        &&& self.symbols.len() < usize::MAX
        &&& forall|j: int, k: Seq<char>| 0 <= j < self.scopes.len() && #[trigger] self.scopes[j].symbols.contains_key(k)
            ==> self.scopes[j].symbols[k] < self.symbols.len()
    }
}

proof fn lemma_visible_prefix(s1: Seq<ScopeView>, s2: Seq<ScopeView>, id: int, name: Seq<char>)
    requires
        s1.len() <= s2.len(),
        forall|j: int| 0 <= j < s1.len() ==> #[trigger] s2[j] == s1[j],
        0 <= id < s1.len(),
    ensures
        visible(s2, id, name) == visible(s1, id, name),
    decreases id,
{
    match parent_of(s1, id) {
        Some(p) => if 0 <= p < id {
            lemma_visible_prefix(s1, s2, p as int, name);
        },
        None => {},
    }
}

/// Entering a scope and leaving it again comes back to the scope one was in; the scope
/// entered stays in the arena.
pub proof fn law_push_pop(c: ContextView, kind: ScopeKind)
    requires
        c.valid(),
    ensures
        c.push_scope(kind).pop_scope() == (ContextView { scopes: c.push_scope(kind).scopes, ..c }),
{
}

/// A variable just declared is what its name stands for.
pub proof fn law_declared_visible(c: ContextView, name: Seq<char>, ty: Type, mutable: bool)
    requires
        c.valid(),
    ensures
        c.add_var(name, ty, mutable).var(name) == Some(with_id(var_symbol(name, ty, mutable), c.symbols.len() as usize)),
{
}

/// A function just declared is what its full name names.
pub proof fn law_function_declared(
    c: ContextView,
    name: Seq<char>,
    mangled: Seq<char>,
    params: Seq<Type>,
    ret_type: Type,
    visibility: Visibility,
    module: Seq<char>,
)
    requires
        c.valid(),
    ensures
        c.add_func(name, mangled, params, ret_type, visibility, module).func(mangled)
            == Some(with_id(fn_symbol(name, mangled, params, ret_type, visibility, module), c.symbols.len() as usize)),
{
}

/// A variable declared in a scope is no longer visible once the scope is left: names
/// stand for what they stood for before it was entered.
pub proof fn law_scope_exit_hides(c: ContextView, kind: ScopeKind, name: Seq<char>, ty: Type, mutable: bool, other: Seq<char>)
    requires
        c.valid(),
    ensures
        c.push_scope(kind).add_var(name, ty, mutable).pop_scope().var(other) == c.var(other),
{
    let d = c.push_scope(kind).add_var(name, ty, mutable).pop_scope();
    assert(d.current == c.current);
    assert forall|j: int| 0 <= j < c.scopes.len() implies #[trigger] d.scopes[j] == c.scopes[j] by {}
    lemma_visible_prefix(c.scopes, d.scopes, c.current, other);
    lemma_visible_bound(c.scopes, c.current, other, c.symbols.len());
}

proof fn lemma_visible_bound(s: Seq<ScopeView>, id: int, name: Seq<char>, n: nat)
    requires
        0 <= id < s.len(),
        forall|j: int, k: Seq<char>| 0 <= j < s.len() && #[trigger] s[j].symbols.contains_key(k) ==> s[j].symbols[k] < n,
    ensures
        visible(s, id, name) matches Some(i) ==> i < n,
    decreases id,
{
    match parent_of(s, id) {
        Some(p) => if 0 <= p < id {
            lemma_visible_bound(s, p as int, name, n);
        },
        None => {},
    }
}

} // verus!
