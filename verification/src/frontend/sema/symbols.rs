use vstd::prelude::*;
use crate::frontend::parser::ast::{Type, Visibility};

verus! {

/// The symbols of a program, each known by its index.
#[derive(Debug)]
pub struct SymbolTable {
    pub symbols: Vec<Symbol>,
    next_id: usize,
}

#[derive(Debug, PartialEq, Eq, Structural, Clone, Copy)]
pub enum SymbolKind {
    Function,
    Variable,
}

/// A function or a variable: for a function, `ty` is its return type.
#[derive(Debug)]
pub struct Symbol {
    pub id: usize,
    pub name: String,
    pub kind: SymbolKind,
    pub ty: Type,
    pub mangled: String,
    pub params: Vec<Type>,
    pub mutable: bool,
    pub visibility: Visibility,
    pub module: String,
}

/// The mathematical model of a [`Symbol`].
pub struct SymbolView {
    pub id: usize,
    pub name: Seq<char>,
    pub kind: SymbolKind,
    pub ty: Type,
    pub mangled: Seq<char>,
    pub params: Seq<Type>,
    pub mutable: bool,
    pub visibility: Visibility,
    pub module: Seq<char>,
}

impl View for Symbol {
    type V = SymbolView;

    open spec fn view(&self) -> SymbolView {
        SymbolView {
            id: self.id,
            name: self.name@,
            kind: self.kind,
            ty: self.ty,
            mangled: self.mangled@,
            params: self.params@,
            mutable: self.mutable,
            visibility: self.visibility,
            module: self.module@,
        }
    }
}

pub open spec fn symbols_view(s: Seq<Symbol>) -> Seq<SymbolView> {
    s.map_values(|x: Symbol| x@)
}

/// A function symbol as [`Symbol::new_fn`] makes it, before it gets an id.
pub open spec fn fn_symbol(name: Seq<char>, mangled: Seq<char>, params: Seq<Type>, ret_type: Type, visibility: Visibility, module: Seq<char>) -> SymbolView {
    SymbolView {
        id: 0,
        name,
        kind: SymbolKind::Function,
        ty: ret_type,
        mangled,
        params,
        mutable: false,
        visibility,
        module,
    }
}

/// A variable symbol as [`Symbol::new_var`] makes it, before it gets an id.
pub open spec fn var_symbol(name: Seq<char>, ty: Type, mutable: bool) -> SymbolView {
    SymbolView {
        id: 0,
        name,
        kind: SymbolKind::Variable,
        ty,
        mangled: Seq::empty(),
        params: Seq::empty(),
        mutable,
        visibility: Visibility::Private,
        module: Seq::empty(),
    }
}

pub open spec fn with_id(s: SymbolView, id: usize) -> SymbolView {
    SymbolView { id, ..s }
}

impl SymbolTable {
    /// The symbols, as mathematical values.
    pub closed spec fn entries(&self) -> Seq<SymbolView> {
        symbols_view(self.symbols@)
    }

    /// The id that the next symbol gets is the number of symbols so far.
    pub closed spec fn wf(&self) -> bool {
        self.next_id == self.symbols@.len()
    }

    pub fn new() -> (t: Self)
        ensures
            t.wf(),
            t.entries() == Seq::<SymbolView>::empty(),
    {
        let t = Self { symbols: Vec::new(), next_id: 0 };
        proof {
            assert(t.entries() =~= Seq::<SymbolView>::empty());
        }
        t
    }

    /// Adds `symbol` under the next id, which it returns.
    pub fn insert(&mut self, symbol: Symbol) -> (id: usize)
        requires
            old(self).wf(),
        ensures
            final(self).wf(),
            id == old(self).entries().len(),
            final(self).entries() == old(self).entries().push(with_id(symbol@, id)),
    {
        let mut symbol = symbol;
        let id = self.next_id;
        symbol.id = id;
        proof {
            assert(symbols_view(self.symbols@.push(symbol)) =~= symbols_view(self.symbols@).push(symbol@));
        }
        self.symbols.push(symbol);
        self.next_id = self.symbols.len();
        id
    }

    pub fn get(&self, id: usize) -> (r: Option<&Symbol>)
        ensures
            match r {
                Some(s) => id < self.entries().len() && s@ == self.entries()[id as int],
                None => id >= self.entries().len(),
            },
    {
        if id < self.symbols.len() {
            Some(&self.symbols[id])
        } else {
            None
        }
    }

    pub fn get_mut(&mut self, id: usize) -> (r: Option<&mut Symbol>)
        requires
            old(self).wf(),
        ensures
            match r {
                Some(s) => id < old(self).entries().len() && (*s)@ == old(self).entries()[id as int]
                    && final(self).wf()
                    && final(self).entries() == old(self).entries().update(id as int, (*final(s))@),
                None => id >= old(self).entries().len() && final(self).entries() == old(self).entries() && final(self).wf(),
            },
    {
        if id < self.symbols.len() {
            Some(&mut self.symbols[id])
        } else {
            None
        }
    }
}

impl Symbol {
    pub fn new_fn(
        name: &str,
        mangled: &str,
        params: Vec<Type>,
        ret_type: Type,
        visibility: Visibility,
        module: &str,
    ) -> (s: Self)
        ensures
            s@ == fn_symbol(name@, mangled@, params@, ret_type, visibility, module@),
    {
        Self {
            id: 0,
            name: name.to_owned(),
            kind: SymbolKind::Function,
            ty: ret_type,
            mangled: mangled.to_owned(),
            params,
            mutable: false,
            visibility,
            module: module.to_owned(),
        }
    }

    pub fn new_var(name: &str, ty: Type, mutable: bool) -> (s: Self)
        ensures
            s@ == var_symbol(name@, ty, mutable),
    {
        Self {
            id: 0,
            name: name.to_owned(),
            kind: SymbolKind::Variable,
            ty,
            mangled: String::new(),
            params: Vec::new(),
            mutable,
            visibility: Visibility::Private,
            module: String::new(),
        }
    }
}

} // verus!
