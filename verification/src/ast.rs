//! The syntax tree that the parser builds, and its mathematical view.
//!
//! Every node that holds a `Vec` has a view in which the vector is a `Seq`
//! of views; the parser's contracts speak of these views.
use vstd::prelude::*;
use crate::token::{Token, token_text};

verus! {

// ----------------------------------------------------------------------
// Types and bindings
// ----------------------------------------------------------------------

/// A type as written in the source: a name and its type arguments (`Vec<int>`).
#[derive(Debug)]
pub struct TypeRef {
    pub name: Token,
    pub params: Vec<TypeRef>,
}

/// The view of a written type.
pub enum TypeRefV {
    Named { name: Token, params: Seq<TypeRefV> },
}

/// A type parameter of a class or function, with an optional bound.
#[derive(Debug)]
pub struct TypeParameter {
    pub name: Token,
    pub bound: Option<Token>,
}

impl TypeParameter {
    pub fn new(name: Token, bound: Option<Token>) -> (r: Self)
        ensures
            r == (TypeParameter { name, bound }),
    {
        TypeParameter { name, bound }
    }
}

/// A function parameter.
#[derive(Debug)]
pub struct Param {
    pub name: Token,
    pub ty: TypeRef,
}

/// A field of a class or record.
#[derive(Debug)]
pub struct Field {
    pub name: Token,
    pub ty: TypeRef,
}

/// The view of a parameter or field: its name and its type.
pub struct BindingV {
    pub name: Token,
    pub ty: TypeRefV,
}

impl Param {
    pub fn new(name: Token, ty: TypeRef) -> (r: Self)
        ensures
            r.name == name,
            r.ty == ty,
    {
        Param { name, ty }
    }
}

impl Field {
    pub fn new(name: Token, ty: TypeRef) -> (r: Self)
        ensures
            r.name == name,
            r.ty == ty,
    {
        Field { name, ty }
    }
}

// ----------------------------------------------------------------------
// Expressions
// ----------------------------------------------------------------------

/// A literal value with the token it was read from.
#[derive(Debug)]
pub struct Literal<T> {
    pub value: T,
    pub token: Token,
}

impl<T> Literal<T> {
    pub fn new(value: T, token: Token) -> (r: Self)
        ensures
            r.value == value,
            r.token == token,
    {
        Literal { value, token }
    }
}

impl Literal<i64> {
    pub fn integer(value: i64, token: Token) -> (r: Expr)
        ensures
            r == Expr::Int(Literal { value, token }),
    {
        Expr::Int(Literal::new(value, token))
    }
}

impl Literal<String> {
    /// A string literal; its value is the lexeme, quotes included.
    pub fn string(value: String, token: Token) -> (r: Expr)
        ensures
            r == Expr::Str(Literal { value, token }),
    {
        Expr::Str(Literal::new(value, token))
    }

    /// A floating-point literal, held as its lexeme.
    pub fn float(value: String, token: Token) -> (r: Expr)
        ensures
            r == Expr::Float(Literal { value, token }),
    {
        Expr::Float(Literal::new(value, token))
    }
}

impl Literal<bool> {
    pub fn bool(value: bool, token: Token) -> (r: Expr)
        ensures
            r == Expr::Bool(Literal { value, token }),
    {
        Expr::Bool(Literal::new(value, token))
    }
}

#[derive(Debug)]
pub struct Ident {
    pub name: Token,
}

impl Ident {
    pub fn wrapped(name: Token) -> (r: Expr)
        ensures
            r == Expr::Ident(Ident { name }),
    {
        Expr::Ident(Ident { name })
    }
}

#[derive(Debug)]
pub struct Binary {
    pub left: Box<Expr>,
    pub op: Token,
    pub right: Box<Expr>,
}

impl Binary {
    pub fn wrapped(left: Expr, op: Token, right: Expr) -> (r: Expr)
        ensures
            r@ == ExprV::Binary(Box::new(left@), op, Box::new(right@)),
    {
        Expr::Binary(Binary { left: Box::new(left), op, right: Box::new(right) })
    }
}

#[derive(Debug)]
pub struct Unary {
    pub op: Token,
    pub expr: Box<Expr>,
}

impl Unary {
    pub fn wrapped(op: Token, expr: Expr) -> (r: Expr)
        ensures
            r@ == ExprV::Unary(op, Box::new(expr@)),
    {
        Expr::Unary(Unary { op, expr: Box::new(expr) })
    }
}

#[derive(Debug)]
pub struct Call {
    pub left: Box<Expr>,
    pub args: Vec<Expr>,
    pub parens: (Token, Token),
    pub delimiters: Vec<Token>,
}

impl Call {
    pub fn new(left: Box<Expr>, args: Vec<Expr>, parens: (Token, Token), delimiters: Vec<Token>) -> (r: Self)
        ensures
            r.left == left,
            r.args == args,
            r.parens == parens,
            r.delimiters == delimiters,
    {
        Call { left, args, parens, delimiters }
    }

    pub fn wrapped(left: Expr, args: Vec<Expr>, parens: (Token, Token), delimiters: Vec<Token>) -> (r: Expr)
        ensures
            r@ == (ExprV::Call {
                left: Box::new(left@),
                args: view_exprs(args@),
                parens,
                delimiters: delimiters@,
            }),
    {
        Expr::Call(Call::new(Box::new(left), args, parens, delimiters))
    }
}

/// A chain of member accesses `a.b.c`, numbered so that later passes can find it.
#[derive(Debug)]
pub struct Access {
    pub chain: Vec<Expr>,
    pub id: usize,
}

impl Access {
    pub fn wrapped(chain: Vec<Expr>, id: usize) -> (r: Expr)
        ensures
            r@ == (ExprV::Access { chain: view_exprs(chain@), id }),
    {
        Expr::Access(Access { chain, id })
    }
}

/// One `name: value` of a record initializer.
#[derive(Debug)]
pub struct Initializer {
    pub name: Token,
    pub expr: Expr,
}

impl Initializer {
    pub fn new(name: Token, expr: Expr) -> (r: Self)
        ensures
            r.name == name,
            r.expr == expr,
    {
        Initializer { name, expr }
    }
}

/// A record initializer `Name:init(field: value, ...)`.
#[derive(Debug)]
pub struct Init {
    pub name: Token,
    pub initializers: Vec<Initializer>,
    pub parens: (Token, Token),
}

impl Init {
    pub fn wrapped(name: Token, initializers: Vec<Initializer>, parens: (Token, Token)) -> (r: Expr)
        ensures
            r@ == (ExprV::Init { name, initializers: view_inits(initializers@), parens }),
    {
        Expr::Init(Init { name, initializers, parens })
    }
}

/// A range `[start, end]`.
#[derive(Debug)]
pub struct Range {
    pub start: Box<Expr>,
    pub end: Box<Expr>,
    pub brackets: (Token, Token),
}

impl Range {
    pub fn wrapped(start: Expr, end: Expr, brackets: (Token, Token)) -> (r: Expr)
        ensures
            r@ == ExprV::Range(Box::new(start@), Box::new(end@), brackets),
    {
        Expr::Range(Range { start: Box::new(start), end: Box::new(end), brackets })
    }
}

#[derive(Debug)]
pub enum Expr {
    Int(Literal<i64>),
    Float(Literal<String>),
    Str(Literal<String>),
    Bool(Literal<bool>),
    Ident(Ident),
    Binary(Binary),
    Unary(Unary),
    Call(Call),
    Access(Access),
    Init(Init),
    Range(Range),
}

/// The view of an expression.
pub enum ExprV {
    Int(Literal<i64>),
    Float(Literal<String>),
    Str(Literal<String>),
    Bool(Literal<bool>),
    Ident(Ident),
    Binary(Box<ExprV>, Token, Box<ExprV>),
    Unary(Token, Box<ExprV>),
    Call { left: Box<ExprV>, args: Seq<ExprV>, parens: (Token, Token), delimiters: Seq<Token> },
    Access { chain: Seq<ExprV>, id: usize },
    Init { name: Token, initializers: Seq<(Token, ExprV)>, parens: (Token, Token) },
    Range(Box<ExprV>, Box<ExprV>, (Token, Token)),
}

// ----------------------------------------------------------------------
// Statements and declarations
// ----------------------------------------------------------------------

#[derive(Debug)]
pub struct VarDecl {
    pub name: Token,
    pub ty: TypeRef,
    pub expr: Expr,
}

impl VarDecl {
    pub fn wrapped(name: Token, ty: TypeRef, expr: Expr) -> (r: Stmt)
        ensures
            r@ == (StmtV::Var { name, ty: ty@, expr: expr@ }),
    {
        Stmt::Var(VarDecl { name, ty, expr })
    }
}

#[derive(Debug)]
pub struct Assign {
    pub target: Expr,
    pub expr: Expr,
}

impl Assign {
    pub fn wrapped(target: Expr, expr: Expr) -> (r: Stmt)
        ensures
            r@ == (StmtV::Assign { target: target@, expr: expr@ }),
    {
        Stmt::Assign(Assign { target, expr })
    }
}

#[derive(Debug)]
pub struct Return {
    pub expr: Expr,
    pub keyword: Token,
}

impl Return {
    pub fn wrapped(expr: Expr, keyword: Token) -> (r: Stmt)
        ensures
            r@ == (StmtV::Return { expr: expr@, keyword }),
    {
        Stmt::Return(Return { expr, keyword })
    }
}

#[derive(Debug)]
pub struct If {
    pub condition: Expr,
    pub is: Vec<Stmt>,
    pub otherwise: Vec<Stmt>,
}

impl If {
    pub fn wrapped(condition: Expr, is: Vec<Stmt>, otherwise: Vec<Stmt>) -> (r: Stmt)
        ensures
            r@ == (StmtV::If {
                condition: condition@,
                is: view_stmts(is@),
                otherwise: view_stmts(otherwise@),
            }),
    {
        Stmt::If(If { condition, is, otherwise })
    }
}

#[derive(Debug)]
pub struct While {
    pub condition: Expr,
    pub body: Vec<Stmt>,
}

impl While {
    pub fn wrapped(condition: Expr, body: Vec<Stmt>) -> (r: Stmt)
        ensures
            r@ == (StmtV::While { condition: condition@, body: view_stmts(body@) }),
    {
        Stmt::While(While { condition, body })
    }
}

#[derive(Debug)]
pub struct For {
    pub index: Token,
    pub range: Expr,
    pub body: Vec<Stmt>,
}

impl For {
    pub fn wrapped(index: Token, range: Expr, body: Vec<Stmt>) -> (r: Stmt)
        ensures
            r@ == (StmtV::For { index, range: range@, body: view_stmts(body@) }),
    {
        Stmt::For(For { index, range, body })
    }
}

#[derive(Debug)]
pub enum Stmt {
    Var(VarDecl),
    Assign(Assign),
    Return(Return),
    If(If),
    While(While),
    For(For),
    Expr(Expr),
}

/// The view of a statement.
pub enum StmtV {
    Var { name: Token, ty: TypeRefV, expr: ExprV },
    Assign { target: ExprV, expr: ExprV },
    Return { expr: ExprV, keyword: Token },
    If { condition: ExprV, is: Seq<StmtV>, otherwise: Seq<StmtV> },
    While { condition: ExprV, body: Seq<StmtV> },
    For { index: Token, range: ExprV, body: Seq<StmtV> },
    Expr(ExprV),
}

#[derive(Debug)]
pub struct FuncDecl {
    pub name: Token,
    pub params: Vec<Param>,
    pub ty: Option<TypeRef>,
    pub type_params: Vec<TypeParameter>,
    pub body: Vec<Stmt>,
    pub external: bool,
    pub id: usize,
}

/// The view of a function declaration.
pub struct FuncDeclV {
    pub name: Token,
    pub params: Seq<BindingV>,
    pub ty: Option<TypeRefV>,
    pub type_params: Seq<TypeParameter>,
    pub body: Seq<StmtV>,
    pub external: bool,
    pub id: usize,
}

impl FuncDecl {
    pub fn new(
        name: Token,
        params: Vec<Param>,
        ty: Option<TypeRef>,
        type_params: Vec<TypeParameter>,
        body: Vec<Stmt>,
        external: bool,
        id: usize,
    ) -> (r: Self)
        ensures
            r == (FuncDecl { name, params, ty, type_params, body, external, id }),
    {
        FuncDecl { name, params, ty, type_params, body, external, id }
    }

    pub fn wrapped(
        name: Token,
        params: Vec<Param>,
        ty: Option<TypeRef>,
        type_params: Vec<TypeParameter>,
        body: Vec<Stmt>,
        external: bool,
        id: usize,
    ) -> (r: Decl)
        ensures
            r@ == DeclV::Function((FuncDecl { name, params, ty, type_params, body, external, id })@),
    {
        Decl::Function(Self::new(name, params, ty, type_params, body, external, id))
    }
}

#[derive(Debug)]
pub struct ConstantDecl {
    pub name: Token,
    pub ty: TypeRef,
    pub expr: Expr,
}

impl ConstantDecl {
    pub fn wrapped(name: Token, ty: TypeRef, expr: Expr) -> (r: Decl)
        ensures
            r@ == (DeclV::Constant { name, ty: ty@, expr: expr@ }),
    {
        Decl::Constant(ConstantDecl { name, ty, expr })
    }
}

#[derive(Debug)]
pub struct ClassDecl {
    pub name: Token,
    pub fields: Vec<Field>,
    pub methods: Vec<FuncDecl>,
    pub parent: Option<Token>,
    pub type_params: Option<Vec<TypeParameter>>,
}

impl ClassDecl {
    pub fn wrapped(
        name: Token,
        fields: Vec<Field>,
        methods: Vec<FuncDecl>,
        parent: Option<Token>,
        type_params: Option<Vec<TypeParameter>>,
    ) -> (r: Decl)
        ensures
            r@ == (DeclV::Class {
                name,
                fields: view_fields(fields@),
                methods: view_funcs(methods@),
                parent,
                type_params: match type_params { Some(v) => Some(v@), None => None },
            }),
    {
        Decl::Class(ClassDecl { name, fields, methods, parent, type_params })
    }
}

#[derive(Debug)]
pub struct RecordDecl {
    pub name: Token,
    pub fields: Vec<Field>,
}

impl RecordDecl {
    pub fn wrapped(name: Token, fields: Vec<Field>) -> (r: Decl)
        ensures
            r@ == (DeclV::Record { name, fields: view_fields(fields@) }),
    {
        Decl::Record(RecordDecl { name, fields })
    }
}

#[derive(Debug)]
pub enum Decl {
    Function(FuncDecl),
    Constant(ConstantDecl),
    Class(ClassDecl),
    Record(RecordDecl),
}

/// The view of a declaration.
pub enum DeclV {
    Function(FuncDeclV),
    Constant { name: Token, ty: TypeRefV, expr: ExprV },
    Class {
        name: Token,
        fields: Seq<BindingV>,
        methods: Seq<FuncDeclV>,
        parent: Option<Token>,
        type_params: Option<Seq<TypeParameter>>,
    },
    Record { name: Token, fields: Seq<BindingV> },
}

// ----------------------------------------------------------------------
// Views
// ----------------------------------------------------------------------

pub open spec fn view_types(s: Seq<TypeRef>) -> Seq<TypeRefV>
    decreases s,
{
    if s.len() == 0 {
        Seq::empty()
    } else {
        view_types(s.drop_last()).push(s.last().view())
    }
}

impl View for TypeRef {
    type V = TypeRefV;

    open spec fn view(&self) -> TypeRefV
        decreases self,
    {
        TypeRefV::Named { name: self.name, params: view_types(self.params@) }
    }
}

pub open spec fn view_params(s: Seq<Param>) -> Seq<BindingV>
    decreases s.len(),
{
    if s.len() == 0 {
        Seq::empty()
    } else {
        view_params(s.drop_last()).push(BindingV { name: s.last().name, ty: s.last().ty@ })
    }
}

pub open spec fn view_fields(s: Seq<Field>) -> Seq<BindingV>
    decreases s.len(),
{
    if s.len() == 0 {
        Seq::empty()
    } else {
        view_fields(s.drop_last()).push(BindingV { name: s.last().name, ty: s.last().ty@ })
    }
}

pub open spec fn view_exprs(s: Seq<Expr>) -> Seq<ExprV>
    decreases s,
{
    if s.len() == 0 {
        Seq::empty()
    } else {
        view_exprs(s.drop_last()).push(s.last().view())
    }
}

pub open spec fn view_inits(s: Seq<Initializer>) -> Seq<(Token, ExprV)>
    decreases s,
{
    if s.len() == 0 {
        Seq::empty()
    } else {
        view_inits(s.drop_last()).push((s.last().name, s.last().expr.view()))
    }
}

impl View for Expr {
    type V = ExprV;

    open spec fn view(&self) -> ExprV
        decreases self,
    {
        match self {
            Expr::Int(l) => ExprV::Int(*l),
            Expr::Float(l) => ExprV::Float(*l),
            Expr::Str(l) => ExprV::Str(*l),
            Expr::Bool(l) => ExprV::Bool(*l),
            Expr::Ident(i) => ExprV::Ident(*i),
            Expr::Binary(b) => ExprV::Binary(Box::new((*b.left).view()), b.op, Box::new((*b.right).view())),
            Expr::Unary(u) => ExprV::Unary(u.op, Box::new((*u.expr).view())),
            Expr::Call(c) => ExprV::Call {
                left: Box::new((*c.left).view()),
                args: view_exprs(c.args@),
                parens: c.parens,
                delimiters: c.delimiters@,
            },
            Expr::Access(a) => ExprV::Access { chain: view_exprs(a.chain@), id: a.id },
            Expr::Init(i) => ExprV::Init {
                name: i.name,
                initializers: view_inits(i.initializers@),
                parens: i.parens,
            },
            Expr::Range(r) => ExprV::Range(Box::new((*r.start).view()), Box::new((*r.end).view()), r.brackets),
        }
    }
}

pub open spec fn view_stmts(s: Seq<Stmt>) -> Seq<StmtV>
    decreases s,
{
    if s.len() == 0 {
        Seq::empty()
    } else {
        view_stmts(s.drop_last()).push(s.last().view())
    }
}

impl View for Stmt {
    type V = StmtV;

    open spec fn view(&self) -> StmtV
        decreases self,
    {
        match self {
            Stmt::Var(v) => StmtV::Var { name: v.name, ty: v.ty@, expr: v.expr@ },
            Stmt::Assign(a) => StmtV::Assign { target: a.target@, expr: a.expr@ },
            Stmt::Return(r) => StmtV::Return { expr: r.expr@, keyword: r.keyword },
            Stmt::If(i) => StmtV::If {
                condition: i.condition@,
                is: view_stmts(i.is@),
                otherwise: view_stmts(i.otherwise@),
            },
            Stmt::While(w) => StmtV::While { condition: w.condition@, body: view_stmts(w.body@) },
            Stmt::For(f) => StmtV::For { index: f.index, range: f.range@, body: view_stmts(f.body@) },
            Stmt::Expr(e) => StmtV::Expr(e@),
        }
    }
}

impl View for FuncDecl {
    type V = FuncDeclV;

    open spec fn view(&self) -> FuncDeclV {
        FuncDeclV {
            name: self.name,
            params: view_params(self.params@),
            ty: match self.ty { Some(t) => Some(t@), None => None },
            type_params: self.type_params@,
            body: view_stmts(self.body@),
            external: self.external,
            id: self.id,
        }
    }
}

pub open spec fn view_funcs(s: Seq<FuncDecl>) -> Seq<FuncDeclV>
    decreases s.len(),
{
    if s.len() == 0 {
        Seq::empty()
    } else {
        view_funcs(s.drop_last()).push(s.last()@)
    }
}

impl View for Decl {
    type V = DeclV;

    open spec fn view(&self) -> DeclV {
        match self {
            Decl::Function(f) => DeclV::Function(f@),
            Decl::Constant(c) => DeclV::Constant { name: c.name, ty: c.ty@, expr: c.expr@ },
            Decl::Class(c) => DeclV::Class {
                name: c.name,
                fields: view_fields(c.fields@),
                methods: view_funcs(c.methods@),
                parent: c.parent,
                type_params: match c.type_params { Some(v) => Some(v@), None => None },
            },
            Decl::Record(r) => DeclV::Record { name: r.name, fields: view_fields(r.fields@) },
        }
    }
}

pub open spec fn view_decls(s: Seq<Decl>) -> Seq<DeclV>
    decreases s.len(),
{
    if s.len() == 0 {
        Seq::empty()
    } else {
        view_decls(s.drop_last()).push(s.last()@)
    }
}

/// Viewing a concatenation of expressions is concatenating the views.
pub proof fn lemma_view_exprs_concat(a: Seq<Expr>, b: Seq<Expr>)
    ensures
        view_exprs(a + b) == view_exprs(a) + view_exprs(b),
    decreases b.len(),
{
    if b.len() == 0 {
        assert(a + b == a);
        assert(view_exprs(a) + view_exprs(b) == view_exprs(a));
    } else {
        assert((a + b).drop_last() == a + b.drop_last());
        lemma_view_exprs_concat(a, b.drop_last());
        assert(view_exprs(a) + view_exprs(b) == (view_exprs(a) + view_exprs(b.drop_last())).push(b.last()@));
    }
}

/// Viewing expressions pointwise.
pub proof fn lemma_view_exprs_index(s: Seq<Expr>, i: int)
    requires
        0 <= i < s.len(),
    ensures
        view_exprs(s).len() == s.len(),
        view_exprs(s)[i] == s[i]@,
    decreases s.len(),
{
    assert(view_exprs(s) == view_exprs(s.drop_last()).push(s.last()@));
    lemma_view_exprs_len(s.drop_last());
    if i < s.len() - 1 {
        lemma_view_exprs_index(s.drop_last(), i);
    }
}

pub proof fn lemma_view_exprs_len(s: Seq<Expr>)
    ensures
        view_exprs(s).len() == s.len(),
    decreases s.len(),
{
    if s.len() > 0 {
        lemma_view_exprs_len(s.drop_last());
        assert(view_exprs(s) == view_exprs(s.drop_last()).push(s.last()@));
    } else {
        assert(view_exprs(s) == Seq::<ExprV>::empty());
    }
}


pub proof fn lemma_view_inits_len(s: Seq<Initializer>)
    ensures
        view_inits(s).len() == s.len(),
    decreases s.len(),
{
    if s.len() > 0 {
        lemma_view_inits_len(s.drop_last());
        assert(view_inits(s) == view_inits(s.drop_last()).push((s.last().name, s.last().expr@)));
    } else {
        assert(view_inits(s) == Seq::<(Token, ExprV)>::empty());
    }
}

pub proof fn lemma_view_inits_index(s: Seq<Initializer>, i: int)
    requires
        0 <= i < s.len(),
    ensures
        view_inits(s).len() == s.len(),
        view_inits(s)[i] == (s[i].name, s[i].expr@),
    decreases s.len(),
{
    lemma_view_inits_len(s);
    assert(view_inits(s) == view_inits(s.drop_last()).push((s.last().name, s.last().expr@)));
    lemma_view_inits_len(s.drop_last());
    if i < s.len() - 1 {
        lemma_view_inits_index(s.drop_last(), i);
    }
}

pub proof fn lemma_view_stmts_len(s: Seq<Stmt>)
    ensures
        view_stmts(s).len() == s.len(),
    decreases s.len(),
{
    if s.len() > 0 {
        lemma_view_stmts_len(s.drop_last());
        assert(view_stmts(s) == view_stmts(s.drop_last()).push(s.last()@));
    } else {
        assert(view_stmts(s) == Seq::<StmtV>::empty());
    }
}

pub proof fn lemma_view_stmts_index(s: Seq<Stmt>, i: int)
    requires
        0 <= i < s.len(),
    ensures
        view_stmts(s).len() == s.len(),
        view_stmts(s)[i] == s[i]@,
    decreases s.len(),
{
    lemma_view_stmts_len(s);
    assert(view_stmts(s) == view_stmts(s.drop_last()).push(s.last()@));
    lemma_view_stmts_len(s.drop_last());
    if i < s.len() - 1 {
        lemma_view_stmts_index(s.drop_last(), i);
    }
}

pub proof fn lemma_view_decls_len(s: Seq<Decl>)
    ensures
        view_decls(s).len() == s.len(),
    decreases s.len(),
{
    if s.len() > 0 {
        lemma_view_decls_len(s.drop_last());
        assert(view_decls(s) == view_decls(s.drop_last()).push(s.last()@));
    } else {
        assert(view_decls(s) == Seq::<DeclV>::empty());
    }
}

pub proof fn lemma_view_decls_index(s: Seq<Decl>, i: int)
    requires
        0 <= i < s.len(),
    ensures
        view_decls(s).len() == s.len(),
        view_decls(s)[i] == s[i]@,
    decreases s.len(),
{
    lemma_view_decls_len(s);
    assert(view_decls(s) == view_decls(s.drop_last()).push(s.last()@));
    lemma_view_decls_len(s.drop_last());
    if i < s.len() - 1 {
        lemma_view_decls_index(s.drop_last(), i);
    }
}

pub proof fn lemma_view_params_len(s: Seq<Param>)
    ensures
        view_params(s).len() == s.len(),
    decreases s.len(),
{
    if s.len() > 0 {
        lemma_view_params_len(s.drop_last());
        assert(view_params(s) == view_params(s.drop_last()).push(BindingV { name: s.last().name, ty: s.last().ty@ }));
    } else {
        assert(view_params(s) == Seq::<BindingV>::empty());
    }
}

pub proof fn lemma_view_params_index(s: Seq<Param>, i: int)
    requires
        0 <= i < s.len(),
    ensures
        view_params(s).len() == s.len(),
        view_params(s)[i] == (BindingV { name: s[i].name, ty: s[i].ty@ }),
    decreases s.len(),
{
    lemma_view_params_len(s);
    assert(view_params(s) == view_params(s.drop_last()).push(BindingV { name: s.last().name, ty: s.last().ty@ }));
    lemma_view_params_len(s.drop_last());
    if i < s.len() - 1 {
        lemma_view_params_index(s.drop_last(), i);
    }
}

// ----------------------------------------------------------------------
// Copies
// ----------------------------------------------------------------------

impl Literal<i64> {
    pub fn copy(&self) -> (r: Self)
        ensures
            r == *self,
    {
        Literal { value: self.value, token: self.token.clone() }
    }
}

impl Literal<bool> {
    pub fn copy(&self) -> (r: Self)
        ensures
            r == *self,
    {
        Literal { value: self.value, token: self.token.clone() }
    }
}

impl Literal<String> {
    pub fn copy(&self) -> (r: Self)
        ensures
            r == *self,
    {
        Literal { value: self.value.clone(), token: self.token.clone() }
    }
}

fn clone_tokens(v: &Vec<Token>) -> (r: Vec<Token>)
    ensures
        r@ == v@,
{
    let mut r: Vec<Token> = Vec::new();
    let mut i: usize = 0;
    while i < v.len()
        invariant
            i <= v.len(),
            r@ == v@.take(i as int),
        decreases v.len() - i,
    {
        r.push(v[i].clone());
        i = i + 1;
        assert(r@ == v@.take(i as int));
    }
    assert(v@.take(v.len() as int) == v@);
    r
}

/// A deep copy of a sequence of expressions.
pub fn clone_exprs(v: &Vec<Expr>) -> (r: Vec<Expr>)
    ensures
        view_exprs(r@) == view_exprs(v@),
    decreases v,
{
    let mut r: Vec<Expr> = Vec::new();
    let mut i: usize = 0;
    while i < v.len()
        invariant
            i <= v.len(),
            view_exprs(r@) == view_exprs(v@.take(i as int)),
        decreases v.len() - i,
    {
        assert(decreases_to!(v => v@[i as int]));
        let e = clone_expr(&v[i]);
        let ghost old_r = r@;
        r.push(e);
        proof {
            assert(r@.drop_last() == old_r);
            assert(v@.take(i as int + 1).drop_last() == v@.take(i as int));
        }
        i = i + 1;
    }
    assert(v@.take(v.len() as int) == v@);
    r
}

fn clone_inits(v: &Vec<Initializer>) -> (r: Vec<Initializer>)
    ensures
        view_inits(r@) == view_inits(v@),
    decreases v,
{
    let mut r: Vec<Initializer> = Vec::new();
    let mut i: usize = 0;
    while i < v.len()
        invariant
            i <= v.len(),
            view_inits(r@) == view_inits(v@.take(i as int)),
        decreases v.len() - i,
    {
        assert(decreases_to!(v => v@[i as int].expr));
        let e = clone_expr(&v[i].expr);
        let ghost old_r = r@;
        r.push(Initializer { name: v[i].name.clone(), expr: e });
        proof {
            assert(r@.drop_last() == old_r);
            assert(v@.take(i as int + 1).drop_last() == v@.take(i as int));
        }
        i = i + 1;
    }
    assert(v@.take(v.len() as int) == v@);
    r
}

/// A deep copy of an expression.
pub fn clone_expr(e: &Expr) -> (r: Expr)
    ensures
        r@ == e@,
    decreases e,
{
    match e {
        Expr::Int(l) => Expr::Int(l.copy()),
        Expr::Float(l) => Expr::Float(l.copy()),
        Expr::Str(l) => Expr::Str(l.copy()),
        Expr::Bool(l) => Expr::Bool(l.copy()),
        Expr::Ident(i) => Expr::Ident(Ident { name: i.name.clone() }),
        Expr::Binary(b) => {
            let left = clone_expr(&b.left);
            let right = clone_expr(&b.right);
            Expr::Binary(Binary { left: Box::new(left), op: b.op.clone(), right: Box::new(right) })
        },
        Expr::Unary(u) => {
            let inner = clone_expr(&u.expr);
            Expr::Unary(Unary { op: u.op.clone(), expr: Box::new(inner) })
        },
        Expr::Call(c) => {
            let left = clone_expr(&c.left);
            let args = clone_exprs(&c.args);
            Expr::Call(Call {
                left: Box::new(left),
                args,
                parens: (c.parens.0.clone(), c.parens.1.clone()),
                delimiters: clone_tokens(&c.delimiters),
            })
        },
        Expr::Access(a) => {
            let chain = clone_exprs(&a.chain);
            Expr::Access(Access { chain, id: a.id })
        },
        Expr::Init(i) => {
            let inits = clone_inits(&i.initializers);
            Expr::Init(Init {
                name: i.name.clone(),
                initializers: inits,
                parens: (i.parens.0.clone(), i.parens.1.clone()),
            })
        },
        Expr::Range(r) => {
            let start = clone_expr(&r.start);
            let end = clone_expr(&r.end);
            Expr::Range(Range {
                start: Box::new(start),
                end: Box::new(end),
                brackets: (r.brackets.0.clone(), r.brackets.1.clone()),
            })
        },
    }
}

// ----------------------------------------------------------------------
// Semantic types
// ----------------------------------------------------------------------

/// The type a name denotes.
#[derive(Debug, Clone, PartialEq, Eq)]
pub enum Type {
    Str,
    Int,
    Float,
    Bool,
    Void,
    UserDefined(String),
}

/// The view of a semantic type.
pub enum TypeV {
    Str,
    Int,
    Float,
    Bool,
    Void,
    UserDefined(Seq<char>),
}

impl View for Type {
    type V = TypeV;

    open spec fn view(&self) -> TypeV {
        match self {
            Type::Str => TypeV::Str,
            Type::Int => TypeV::Int,
            Type::Float => TypeV::Float,
            Type::Bool => TypeV::Bool,
            Type::Void => TypeV::Void,
            Type::UserDefined(s) => TypeV::UserDefined(s@),
        }
    }
}

/// The type named by a type name: the five built-in names, or a user-defined type.
pub open spec fn type_of_name(name: Seq<char>) -> TypeV {
    if name == "str"@ {
        TypeV::Str
    } else if name == "int"@ {
        TypeV::Int
    } else if name == "float"@ {
        TypeV::Float
    } else if name == "bool"@ {
        TypeV::Bool
    } else if name == "void"@ {
        TypeV::Void
    } else {
        TypeV::UserDefined(name)
    }
}

impl Type {
    /// The type that a token names.
    pub fn from_token(token: &Token) -> (r: Type)
        ensures
            r@ == type_of_name(token_text(*token)),
    {
        let name = token.text();
        if crate::text::str_equal(name.as_str(), "str") {
            Type::Str
        } else if crate::text::str_equal(name.as_str(), "int") {
            Type::Int
        } else if crate::text::str_equal(name.as_str(), "float") {
            Type::Float
        } else if crate::text::str_equal(name.as_str(), "bool") {
            Type::Bool
        } else if crate::text::str_equal(name.as_str(), "void") {
            Type::Void
        } else {
            Type::UserDefined(name)
        }
    }

    /// The type that an optional type annotation names: `void` when there is none.
    pub fn from_annotation(ty: &Option<TypeRef>) -> (r: Type)
        ensures
            r@ == match ty {
                Some(t) => type_of_name(token_text(t.name)),
                None => TypeV::Void,
            },
    {
        match ty {
            Some(t) => Type::from_token(&t.name),
            None => Type::Void,
        }
    }
}

} // verus!
