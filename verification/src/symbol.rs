//! The symbol table: what each top-level name declares.
use vstd::prelude::*;
use crate::ast::{ClassDecl, ConstantDecl, Decl, FuncDecl, RecordDecl, Type, TypeV, VarDecl, type_of_name};
use crate::token::token_text;

verus! {

/// What a name declares.
#[derive(Debug)]
pub enum Symbol<'a> {
    Class(&'a ClassDecl),
    Function(&'a FuncDecl),
    Constant(&'a ConstantDecl),
    Variable(&'a VarDecl),
    Record(&'a RecordDecl),
}

/// The view of a symbol: the kind of declaration and the declaration itself.
pub enum SymbolV {
    Class(ClassDecl),
    Function(FuncDecl),
    Constant(ConstantDecl),
    Variable(VarDecl),
    Record(RecordDecl),
}

impl<'a> View for Symbol<'a> {
    type V = SymbolV;

    open spec fn view(&self) -> SymbolV {
        match *self {
            Symbol::Class(c) => SymbolV::Class(*c),
            Symbol::Function(f) => SymbolV::Function(*f),
            Symbol::Constant(c) => SymbolV::Constant(*c),
            Symbol::Variable(v) => SymbolV::Variable(*v),
            Symbol::Record(r) => SymbolV::Record(*r),
        }
    }
}

/// The type a symbol has: a class or record is its own type, a function has its return
/// type (`void` when it declares none), a constant or variable has its declared type.
pub open spec fn symbol_type(s: Symbol) -> TypeV {
    match s {
        Symbol::Class(c) => type_of_name(token_text(c.name)),
        Symbol::Function(f) => match f.ty {
            Some(t) => type_of_name(token_text(t.name)),
            None => TypeV::Void,
        },
        Symbol::Constant(c) => type_of_name(token_text(c.ty.name)),
        Symbol::Variable(v) => type_of_name(token_text(v.ty.name)),
        Symbol::Record(r) => type_of_name(token_text(r.name)),
    }
}

impl<'a> Symbol<'a> {
    /// The class a class symbol declares.
    pub fn class(&self) -> (r: &'a ClassDecl)
        requires
            *self is Class,
        ensures
            *self == Symbol::Class(r),
    {
        match self {
            Symbol::Class(cls) => cls,
            _ => vstd::pervasive::unreached(),
        }
    }

    /// The function a function symbol declares.
    pub fn function(&self) -> (r: &'a FuncDecl)
        requires
            *self is Function,
        ensures
            *self == Symbol::Function(r),
    {
        match self {
            Symbol::Function(fun) => fun,
            _ => vstd::pervasive::unreached(),
        }
    }

    /// The record a record symbol declares.
    pub fn record(&self) -> (r: &'a RecordDecl)
        requires
            *self is Record,
        ensures
            *self == Symbol::Record(r),
    {
        match self {
            Symbol::Record(rec) => rec,
            _ => vstd::pervasive::unreached(),
        }
    }

    /// The type of the symbol.
    pub fn ty(&self) -> (r: Type)
        ensures
            r@ == symbol_type(*self),
    {
        match self {
            Symbol::Class(cls) => Type::from_token(&cls.name),
            Symbol::Function(fun) => Type::from_annotation(&fun.ty),
            Symbol::Constant(c) => Type::from_token(&c.ty.name),
            Symbol::Variable(v) => Type::from_token(&v.ty.name),
            Symbol::Record(r) => Type::from_token(&r.name),
        }
    }

    pub fn copy(&self) -> (r: Symbol<'a>)
        ensures
            r == *self,
    {
        match self {
            Symbol::Class(c) => Symbol::Class(c),
            Symbol::Function(f) => Symbol::Function(f),
            Symbol::Constant(c) => Symbol::Constant(c),
            Symbol::Variable(v) => Symbol::Variable(v),
            Symbol::Record(r) => Symbol::Record(r),
        }
    }
}

/// The symbols of a list of entries, later entries for a name replacing earlier ones.
pub open spec fn entries_map<'a>(s: Seq<(String, Symbol<'a>)>) -> Map<Seq<char>, SymbolV>
    decreases s.len(),
{
    if s.len() == 0 {
        Map::empty()
    } else {
        entries_map(s.drop_last()).insert(s.last().0@, s.last().1@)
    }
}

/// A table from names to symbols.
#[derive(Debug)]
pub struct SymbolTable<'a> {
    entries: Vec<(String, Symbol<'a>)>,
}

impl<'a> View for SymbolTable<'a> {
    type V = Map<Seq<char>, SymbolV>;

    closed spec fn view(&self) -> Map<Seq<char>, SymbolV> {
        entries_map(self.entries@)
    }
}

proof fn lemma_entries_absent<'a>(s: Seq<(String, Symbol<'a>)>, k: Seq<char>)
    requires
        forall|j: int| 0 <= j < s.len() ==> (#[trigger] s[j]).0@ != k,
    ensures
        !entries_map(s).dom().contains(k),
    decreases s.len(),
{
    if s.len() > 0 {
        lemma_entries_absent(s.drop_last(), k);
    }
}

proof fn lemma_entries_last<'a>(s: Seq<(String, Symbol<'a>)>, i: int, k: Seq<char>)
    requires
        0 <= i < s.len(),
        s[i].0@ == k,
        forall|j: int| i < j < s.len() ==> (#[trigger] s[j]).0@ != k,
    ensures
        entries_map(s).dom().contains(k),
        entries_map(s)[k] == s[i].1@,
    decreases s.len(),
{
    if i < s.len() - 1 {
        lemma_entries_last(s.drop_last(), i, k);
    }
}

/// The symbols that a sequence of declarations declares, in order (a later declaration of
/// a name replaces an earlier one).
pub open spec fn declared(decls: Seq<Decl>) -> Map<Seq<char>, SymbolV>
    decreases decls.len(),
{
    if decls.len() == 0 {
        Map::empty()
    } else {
        declared(decls.drop_last()).insert(decl_name(decls.last()), decl_symbol(decls.last()))
    }
}

/// A name declared in a list of declarations stands for the symbol of its last declaration
/// there; so a program's declaration of a name shadows a built-in one.
pub proof fn law_last_declaration_wins(decls: Seq<Decl>, i: int)
    requires
        0 <= i < decls.len(),
        forall|j: int| i < j < decls.len() ==> decl_name(#[trigger] decls[j]) != decl_name(decls[i]),
    ensures
        declared(decls).dom().contains(decl_name(decls[i])),
        declared(decls)[decl_name(decls[i])] == decl_symbol(decls[i]),
    decreases decls.len(),
{
    if i < decls.len() - 1 {
        assert forall|j: int| i < j < decls.drop_last().len() implies decl_name(#[trigger] decls.drop_last()[j]) != decl_name(decls.drop_last()[i]) by {
            assert(decls.drop_last()[j] == decls[j]);
        }
        law_last_declaration_wins(decls.drop_last(), i);
        assert(decl_name(decls[decls.len() - 1]) != decl_name(decls[i]));
    }
}

/// Every declaration is entered under the text of its own name token, whatever kind of
/// declaration it is: a declaration that no later one of the same name shadows is found by
/// that name, and stands for itself.
pub proof fn law_declared_by_name(decls: Seq<Decl>, i: int)
    requires
        0 <= i < decls.len(),
        forall|j: int| i < j < decls.len() ==> decl_name(#[trigger] decls[j]) != decl_name(decls[i]),
    ensures
        ({
            let name = match decls[i] {
                Decl::Function(fun) => token_text(fun.name),
                Decl::Constant(con) => token_text(con.name),
                Decl::Class(cls) => token_text(cls.name),
                Decl::Record(rec) => token_text(rec.name),
            };
            let symbol = match decls[i] {
                Decl::Function(f) => SymbolV::Function(f),
                Decl::Constant(c) => SymbolV::Constant(c),
                Decl::Class(c) => SymbolV::Class(c),
                Decl::Record(r) => SymbolV::Record(r),
            };
            declared(decls).dom().contains(name) && declared(decls)[name] == symbol
        }),
{
    law_last_declaration_wins(decls, i);
}

/// A name that no declaration of a list declares stands for nothing.
pub proof fn law_undeclared(decls: Seq<Decl>, name: Seq<char>)
    requires
        forall|j: int| 0 <= j < decls.len() ==> decl_name(#[trigger] decls[j]) != name,
    ensures
        !declared(decls).dom().contains(name),
    decreases decls.len(),
{
    if decls.len() > 0 {
        assert forall|j: int| 0 <= j < decls.drop_last().len() implies decl_name(#[trigger] decls.drop_last()[j]) != name by {
            assert(decls.drop_last()[j] == decls[j]);
        }
        law_undeclared(decls.drop_last(), name);
        assert(decl_name(decls[decls.len() - 1]) != name);
    }
}

/// The name a declaration declares.
pub open spec fn decl_name(d: Decl) -> Seq<char> {
    match d {
        Decl::Function(f) => token_text(f.name),
        Decl::Constant(c) => token_text(c.name),
        Decl::Class(c) => token_text(c.name),
        Decl::Record(r) => token_text(r.name),
    }
}

/// The symbol a declaration declares.
pub open spec fn decl_symbol(d: Decl) -> SymbolV {
    match d {
        Decl::Function(f) => SymbolV::Function(f),
        Decl::Constant(c) => SymbolV::Constant(c),
        Decl::Class(c) => SymbolV::Class(c),
        Decl::Record(r) => SymbolV::Record(r),
    }
}

impl<'a> SymbolTable<'a> {
    pub fn new() -> (r: Self)
        ensures
            r@ == Map::<Seq<char>, SymbolV>::empty(),
    {
        SymbolTable { entries: Vec::new() }
    }

    /// Declares `name` as `symbol`, replacing what it declared before.
    pub fn insert(&mut self, name: String, symbol: Symbol<'a>)
        ensures
            final(self)@ == old(self)@.insert(name@, symbol@),
    {
        let ghost before = self.entries@;
        self.entries.push((name, symbol));
        assert(self.entries@.drop_last() == before);
    }

    /// The symbol that `name` declares, if any.
    pub fn get(&self, name: &str) -> (r: Option<&Symbol<'a>>)
        ensures
            match r {
                Some(s) => self@.dom().contains(name@) && self@[name@] == s@,
                None => !self@.dom().contains(name@),
            },
    {
        let mut i = self.entries.len();
        while i > 0
            invariant
                i <= self.entries@.len(),
                forall|j: int| i <= j < self.entries@.len() ==> (#[trigger] self.entries@[j]).0@ != name@,
            decreases i,
        {
            i = i - 1;
            if crate::text::str_equal(self.entries[i].0.as_str(), name) {
                proof { lemma_entries_last(self.entries@, i as int, name@); }
                return Some(&self.entries[i].1);
            }
        }
        proof { lemma_entries_absent(self.entries@, name@); }
        None
    }

    /// Declares what `decl` declares.
    pub fn visit(&mut self, decl: &'a Decl)
        ensures
            final(self)@ == old(self)@.insert(decl_name(*decl), decl_symbol(*decl)),
    {
        match decl {
            Decl::Function(fun) => func(fun, self),
            Decl::Constant(c) => constant(c, self),
            Decl::Class(cls) => class(cls, self),
            Decl::Record(r) => record(r, self),
        }
    }

    /// The table of the built-in declarations followed by the program's declarations.
    pub fn from(builtins: &'a Vec<Decl>, nodes: &'a Vec<Decl>) -> (r: Self)
        ensures
            r@ == declared(builtins@ + nodes@),
    {
        let mut table = SymbolTable::new();
        let mut i: usize = 0;
        while i < builtins.len()
            invariant
                i <= builtins.len(),
                table@ == declared(builtins@.take(i as int)),
            decreases builtins.len() - i,
        {
            table.visit(&builtins[i]);
            proof { assert(builtins@.take(i + 1).drop_last() == builtins@.take(i as int)); }
            i = i + 1;
        }
        proof { assert(builtins@.take(i as int) == builtins@ + nodes@.take(0)); }
        let mut n: usize = 0;
        while n < nodes.len()
            invariant
                n <= nodes.len(),
                table@ == declared(builtins@ + nodes@.take(n as int)),
            decreases nodes.len() - n,
        {
            table.visit(&nodes[n]);
            proof { assert((builtins@ + nodes@.take(n + 1)).drop_last() == builtins@ + nodes@.take(n as int)); }
            n = n + 1;
        }
        proof { assert(builtins@ + nodes@.take(n as int) == builtins@ + nodes@); }
        table
    }
}

fn func<'a>(fun: &'a FuncDecl, table: &mut SymbolTable<'a>)
    ensures
        final(table)@ == old(table)@.insert(token_text(fun.name), SymbolV::Function(*fun)),
{
    table.insert(fun.name.text(), Symbol::Function(fun));
}

fn constant<'a>(c: &'a ConstantDecl, table: &mut SymbolTable<'a>)
    ensures
        final(table)@ == old(table)@.insert(token_text(c.name), SymbolV::Constant(*c)),
{
    table.insert(c.name.text(), Symbol::Constant(c));
}

fn class<'a>(cls: &'a ClassDecl, table: &mut SymbolTable<'a>)
    ensures
        final(table)@ == old(table)@.insert(token_text(cls.name), SymbolV::Class(*cls)),
{
    table.insert(cls.name.text(), Symbol::Class(cls));
}

fn record<'a>(r: &'a RecordDecl, table: &mut SymbolTable<'a>)
    ensures
        final(table)@ == old(table)@.insert(token_text(r.name), SymbolV::Record(*r)),
{
    table.insert(r.name.text(), Symbol::Record(r));
}

} // verus!
