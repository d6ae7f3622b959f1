use vstd::prelude::*;
use crate::frontend::sema::names::NameMap;

verus! {

#[derive(Debug, PartialEq, Eq, Structural, Clone, Copy)]
pub enum ScopeKind {
    Global,
    Module,
    Local,
    Loop,
}

/// A region of the program with the names declared in it.
#[derive(Debug)]
pub struct Scope {
    pub id: usize,
    pub parent: Option<usize>,
    pub kind: ScopeKind,
    pub symbols: NameMap,
}

/// The mathematical model of a [`Scope`].
pub struct ScopeView {
    pub id: usize,
    pub parent: Option<usize>,
    pub kind: ScopeKind,
    pub symbols: Map<Seq<char>, usize>,
}

impl View for Scope {
    type V = ScopeView;

    open spec fn view(&self) -> ScopeView {
        ScopeView { id: self.id, parent: self.parent, kind: self.kind, symbols: self.symbols@ }
    }
}

/// All scopes of a program; a scope is known by its index.
#[derive(Debug)]
pub struct ScopeArena {
    pub scopes: Vec<Scope>,
}

pub open spec fn scopes_view(s: Seq<Scope>) -> Seq<ScopeView> {
    s.map_values(|x: Scope| x@)
}

/// Each scope knows its own index, and its parent comes before it.
pub open spec fn arena_wf(s: Seq<ScopeView>) -> bool {
    forall|i: int| 0 <= i < s.len() ==> {
        &&& (#[trigger] s[i]).id == i
        &&& (s[i].parent matches Some(p) ==> p < i)
    }
}

pub open spec fn parent_of(s: Seq<ScopeView>, id: int) -> Option<usize> {
    if 0 <= id < s.len() {
        s[id].parent
    } else {
        None
    }
}

/// The nearest loop scope that encloses `id` (or is `id`).
pub open spec fn enclosing_loop(s: Seq<ScopeView>, id: int) -> Option<usize>
    decreases id,
{
    if 0 <= id < s.len() && s[id].kind == ScopeKind::Loop {
        Some(id as usize)
    } else {
        match parent_of(s, id) {
            Some(p) => if 0 <= p < id {
                enclosing_loop(s, p as int)
            } else {
                None
            },
            None => None,
        }
    }
}

/// What `name` stands for in scope `id` or the nearest enclosing scope that declares it.
pub open spec fn visible(s: Seq<ScopeView>, id: int, name: Seq<char>) -> Option<usize>
    decreases id,
{
    if 0 <= id < s.len() && s[id].symbols.contains_key(name) {
        Some(s[id].symbols[name])
    } else {
        match parent_of(s, id) {
            Some(p) => if 0 <= p < id {
                visible(s, p as int, name)
            } else {
                None
            },
            None => None,
        }
    }
}

impl ScopeArena {
    /// The scopes, as mathematical values.
    pub open spec fn all(&self) -> Seq<ScopeView> {
        scopes_view(self.scopes@)
    }

    pub open spec fn wf(&self) -> bool {
        &&& arena_wf(self.all())
        &&& forall|i: int| 0 <= i < self.scopes@.len() ==> (#[trigger] self.scopes@[i]).symbols.wf()
    }

    pub fn new() -> (a: Self)
        ensures
            a.wf(),
            a.all() == Seq::<ScopeView>::empty(),
    {
        let a = Self { scopes: Vec::new() };
        proof {
            assert(a.all() =~= Seq::<ScopeView>::empty());
        }
        a
    }

    /// Adds an empty scope with `parent`, and returns its index.
    pub fn add_scope(&mut self, parent: Option<usize>, kind: ScopeKind) -> (id: usize)
        requires
            old(self).wf(),
            parent matches Some(p) ==> p < old(self).all().len(),
        ensures
            final(self).wf(),
            id == old(self).all().len(),
            final(self).all() == old(self).all().push(
                ScopeView { id, parent, kind, symbols: Map::empty() },
            ),
    {
        let id = self.scopes.len();
        let scope = Scope { id, parent, kind, symbols: NameMap::new() };
        proof {
            assert(scopes_view(self.scopes@.push(scope)) =~= scopes_view(self.scopes@).push(scope@));
        }
        self.scopes.push(scope);
        id
    }

    pub fn get(&self, id: usize) -> (r: Option<&Scope>)
        ensures
            match r {
                Some(s) => id < self.all().len() && s@ == self.all()[id as int],
                None => id >= self.all().len(),
            },
    {
        if id < self.scopes.len() {
            Some(&self.scopes[id])
        } else {
            None
        }
    }

    pub fn get_mut(&mut self, id: usize) -> (r: Option<&mut Scope>)
        ensures
            match r {
                Some(s) => id < old(self).all().len() && (*s)@ == old(self).all()[id as int]
                    && final(self).all() == old(self).all().update(id as int, (*final(s))@)
                    && (forall|i: int| 0 <= i < final(self).scopes@.len() && i != id ==> (#[trigger] final(self).scopes@[i]).symbols == old(self).scopes@[i].symbols),
                None => id >= old(self).all().len() && final(self).all() == old(self).all() && final(self).scopes == old(self).scopes,
            },
    {
        if id < self.scopes.len() {
            Some(&mut self.scopes[id])
        } else {
            None
        }
    }

    pub fn get_parent(&self, id: usize) -> (r: Option<usize>)
        ensures
            r == parent_of(self.all(), id as int),
    {
        if id < self.scopes.len() {
            self.scopes[id].parent
        } else {
            None
        }
    }

    /// The nearest loop scope that encloses `start`.
    pub fn get_loop(&self, start: usize) -> (r: Option<usize>)
        requires
            self.wf(),
        ensures
            r == enclosing_loop(self.all(), start as int),
    {
        let mut current = Some(start);
        while current.is_some()
            invariant
                self.wf(),
                current matches Some(id) ==> enclosing_loop(self.all(), id as int) == enclosing_loop(self.all(), start as int),
                current is None ==> enclosing_loop(self.all(), start as int) is None,
            decreases match current { Some(id) => id as int + 1, None => 0 },
        {
            let id = current.unwrap();
            if id < self.scopes.len() {
                if self.scopes[id].kind == ScopeKind::Loop {
                    return Some(id);
                }
            }
            current = self.get_parent(id);
        }
        None
    }

    /// Declares `name` in scope `id` as the symbol `symbol`.
    pub fn add_symbol(&mut self, id: usize, name: &str, symbol: usize)
        requires
            old(self).wf(),
            id < old(self).all().len(),
        ensures
            final(self).wf(),
            final(self).all() == old(self).all().update(
                id as int,
                ScopeView { symbols: old(self).all()[id as int].symbols.insert(name@, symbol), ..old(self).all()[id as int] },
            ),
    {
        let ghost before = self.scopes@;
        let mut scope = self.scopes.remove(id);
        scope.symbols.insert(name.to_owned(), symbol);
        self.scopes.insert(id, scope);
        proof {
            assert(self.scopes@ =~= before.update(id as int, scope));
            assert(scopes_view(self.scopes@) =~= scopes_view(before).update(id as int, scope@));
        }
    }

    /// What `name` stands for in scope `id` itself.
    pub fn lookup(&self, id: usize, name: &str) -> (r: Option<usize>)
        requires
            self.wf(),
            id < self.all().len(),
        ensures
            r == (if self.all()[id as int].symbols.contains_key(name@) {
                Some(self.all()[id as int].symbols[name@])
            } else {
                None
            }),
    {
        self.scopes[id].symbols.get(name)
    }

    /// What `name` stands for as seen from scope `start`.
    pub fn lookup_visible(&self, start: usize, name: &str) -> (r: Option<usize>)
        requires
            self.wf(),
            start < self.all().len(),
        ensures
            r == visible(self.all(), start as int, name@),
    {
        let mut current = Some(start);
        while current.is_some()
            invariant
                self.wf(),
                current matches Some(id) ==> id < self.all().len() && visible(self.all(), id as int, name@) == visible(self.all(), start as int, name@),
                current is None ==> visible(self.all(), start as int, name@) is None,
            decreases match current { Some(id) => id as int + 1, None => 0 },
        {
            let id = current.unwrap();
            if let Some(symbol) = self.lookup(id, name) {
                return Some(symbol);
            }
            current = self.get_parent(id);
        }
        None
    }
}

} // verus!
