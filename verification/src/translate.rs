//! A tree intermediate representation and the translation of syntax trees into it.
use vstd::prelude::*;
use crate::token::{Kind, Token, token_text};
use crate::ast::{
    ExprV, StmtV, DeclV, FuncDeclV, BindingV, Literal, Ident, FuncDecl, Decl, Initializer,
    view_exprs, view_inits, view_stmts, view_decls, view_params, lemma_view_exprs_index,
    lemma_view_inits_index, lemma_view_stmts_index, lemma_view_decls_index, lemma_view_params_index,
};
use crate::ast::Expr as AstExpr;
use crate::ast::Stmt as AstStmt;
use crate::ast::{lemma_view_stmts_len, lemma_view_decls_len};
use crate::text::{decimal, push_decimal};

verus! {

/// A comparison.
#[derive(Debug, Clone, Copy, PartialEq, Eq, Structural)]
pub enum RelOp {
    Equal,
    NotEqual,
    Less,
    Greater,
    LessEqual,
    GreaterEqual,
}

/// A binary operation.
#[derive(Debug, Clone, Copy, PartialEq, Eq, Structural)]
pub enum BinOp {
    Plus,
    Minus,
    Mul,
    Div,
    Xor,
    Cmp(RelOp),
}

/// The token kinds that denote a binary operation.
pub open spec fn is_binop_kind(kind: Kind) -> bool {
    match kind {
        Kind::Plus | Kind::Minus | Kind::Star | Kind::Slash | Kind::BangEqual | Kind::EqualEqual
        | Kind::Greater | Kind::GreaterEqual | Kind::Less | Kind::LessEqual => true,
        _ => false,
    }
}

/// The binary operation a token kind denotes.
pub open spec fn binop_of(kind: Kind) -> BinOp {
    match kind {
        Kind::Plus => BinOp::Plus,
        Kind::Minus => BinOp::Minus,
        Kind::Star => BinOp::Mul,
        Kind::Slash => BinOp::Div,
        Kind::BangEqual => BinOp::Cmp(RelOp::NotEqual),
        Kind::EqualEqual => BinOp::Cmp(RelOp::Equal),
        Kind::Greater => BinOp::Cmp(RelOp::Greater),
        Kind::GreaterEqual => BinOp::Cmp(RelOp::GreaterEqual),
        Kind::Less => BinOp::Cmp(RelOp::Less),
        _ => BinOp::Cmp(RelOp::LessEqual),
    }
}

impl BinOp {
    /// The binary operation a token kind denotes.
    pub fn from_kind(kind: Kind) -> (r: BinOp)
        requires
            is_binop_kind(kind),
        ensures
            r == binop_of(kind),
    {
        match kind {
            Kind::Plus => BinOp::Plus,
            Kind::Minus => BinOp::Minus,
            Kind::Star => BinOp::Mul,
            Kind::Slash => BinOp::Div,
            Kind::BangEqual => BinOp::Cmp(RelOp::NotEqual),
            Kind::EqualEqual => BinOp::Cmp(RelOp::Equal),
            Kind::Greater => BinOp::Cmp(RelOp::Greater),
            Kind::GreaterEqual => BinOp::Cmp(RelOp::GreaterEqual),
            Kind::Less => BinOp::Cmp(RelOp::Less),
            _ => BinOp::Cmp(RelOp::LessEqual),
        }
    }
}

/// Names of temporaries.
pub struct Temp;

/// Names of labels.
pub struct Label;

/// The name of temporary number `id`.
pub open spec fn temp_name(id: nat) -> Seq<char> {
    seq!['T'] + decimal(id)
}

/// The name of label number `id`.
pub open spec fn label_name(id: nat) -> Seq<char> {
    seq!['L'] + decimal(id)
}

/// Temporaries with distinct numbers have distinct names, and so do labels; no temporary
/// is named like a label.
pub proof fn law_names_distinct(a: nat, b: nat)
    ensures
        (temp_name(a) == temp_name(b)) == (a == b),
        (label_name(a) == label_name(b)) == (a == b),
        temp_name(a) != label_name(b),
{
    crate::text::law_decimal_injective(a, b);
    if temp_name(a) == temp_name(b) {
        assert(temp_name(a).drop_first() == decimal(a));
        assert(temp_name(b).drop_first() == decimal(b));
    }
    if label_name(a) == label_name(b) {
        assert(label_name(a).drop_first() == decimal(a));
        assert(label_name(b).drop_first() == decimal(b));
    }
    assert(temp_name(a)[0] != label_name(b)[0]);
}

impl Temp {
    /// The name of temporary number `id`: `T` and the number.
    #[allow(clippy::new_ret_no_self)]
    pub fn new(id: usize) -> (r: String)
        ensures
            r@ == temp_name(id as nat),
    {
        proof { reveal_strlit("T"); }
        let mut s = String::from_str("T");
        push_decimal(&mut s, id as u64);
        s
    }
}

impl Label {
    /// The name of label number `id`: `L` and the number.
    #[allow(clippy::new_ret_no_self)]
    pub fn new(id: usize) -> (r: String)
        ensures
            r@ == label_name(id as nat),
    {
        proof { reveal_strlit("L"); }
        let mut s = String::from_str("L");
        push_decimal(&mut s, id as u64);
        s
    }
}

/// An expression of the intermediate representation.
#[derive(Debug)]
pub enum Expr {
    ConstInt(i64),
    /// A floating-point constant, held as its literal.
    ConstFloat(String),
    Temp(String),
    Binary { op: BinOp, left: Box<Expr>, right: Box<Expr> },
    Mem(Box<Expr>),
    Call(String, Vec<Expr>),
    /// Evaluates `stmt`, then `expr`.
    ESeq { stmt: Box<Stmt>, expr: Box<Expr>, id: usize },
}

/// A statement of the intermediate representation.
#[derive(Debug)]
pub enum Stmt {
    /// Moves `expr` into the location specified by `target` (a temporary or a memory offset in the frame)
    Move { target: Box<Expr>, expr: Box<Expr> },
    Expr(Box<Expr>),
    Label(String),
    /// Evaluates `left`, then `right`
    Sequence { left: Box<Stmt>, right: Option<Box<Stmt>> },
    Jump(String),
    Noop,
    CJump { op: BinOp, condition: Box<Expr>, t: String, f: String },
}

/// The view of an intermediate expression.
pub enum IExpr {
    ConstInt(i64),
    ConstFloat(Seq<char>),
    Temp(Seq<char>),
    Binary { op: BinOp, left: Box<IExpr>, right: Box<IExpr> },
    Mem(Box<IExpr>),
    Call(Seq<char>, Seq<IExpr>),
    ESeq { stmt: Box<IStmt>, expr: Box<IExpr>, id: usize },
}

/// The view of an intermediate statement.
pub enum IStmt {
    Move { target: Box<IExpr>, expr: Box<IExpr> },
    Expr(Box<IExpr>),
    Label(Seq<char>),
    Sequence { left: Box<IStmt>, right: Option<Box<IStmt>> },
    Jump(Seq<char>),
    Noop,
    CJump { op: BinOp, condition: Box<IExpr>, t: Seq<char>, f: Seq<char> },
}

pub open spec fn iexprs(s: Seq<Expr>) -> Seq<IExpr>
    decreases s,
{
    if s.len() == 0 {
        Seq::empty()
    } else {
        iexprs(s.drop_last()).push(s.last().view())
    }
}

impl View for Expr {
    type V = IExpr;

    open spec fn view(&self) -> IExpr
        decreases self,
    {
        match self {
            Expr::ConstInt(i) => IExpr::ConstInt(*i),
            Expr::ConstFloat(s) => IExpr::ConstFloat(s@),
            Expr::Temp(t) => IExpr::Temp(t@),
            Expr::Binary { op, left, right } => IExpr::Binary {
                op: *op,
                left: Box::new((**left).view()),
                right: Box::new((**right).view()),
            },
            Expr::Mem(e) => IExpr::Mem(Box::new((**e).view())),
            Expr::Call(name, args) => IExpr::Call(name@, iexprs(args@)),
            Expr::ESeq { stmt, expr, id } => IExpr::ESeq {
                stmt: Box::new((**stmt).view()),
                expr: Box::new((**expr).view()),
                id: *id,
            },
        }
    }
}

impl View for Stmt {
    type V = IStmt;

    open spec fn view(&self) -> IStmt
        decreases self,
    {
        match self {
            Stmt::Move { target, expr } => IStmt::Move {
                target: Box::new((**target).view()),
                expr: Box::new((**expr).view()),
            },
            Stmt::Expr(e) => IStmt::Expr(Box::new((**e).view())),
            Stmt::Label(l) => IStmt::Label(l@),
            Stmt::Sequence { left, right } => IStmt::Sequence {
                left: Box::new((**left).view()),
                right: match right {
                    Some(r) => Some(Box::new((**r).view())),
                    None => None,
                },
            },
            Stmt::Jump(l) => IStmt::Jump(l@),
            Stmt::Noop => IStmt::Noop,
            Stmt::CJump { op, condition, t, f } => IStmt::CJump {
                op: *op,
                condition: Box::new((**condition).view()),
                t: t@,
                f: f@,
            },
        }
    }
}

pub open spec fn istmts(s: Seq<Stmt>) -> Seq<IStmt>
    decreases s,
{
    if s.len() == 0 {
        Seq::empty()
    } else {
        istmts(s.drop_last()).push(s.last().view())
    }
}

pub proof fn lemma_istmts_len(s: Seq<Stmt>)
    ensures
        istmts(s).len() == s.len(),
    decreases s.len(),
{
    if s.len() > 0 {
        lemma_istmts_len(s.drop_last());
        assert(istmts(s) == istmts(s.drop_last()).push(s.last()@));
    } else {
        assert(istmts(s) == Seq::<IStmt>::empty());
    }
}

pub proof fn lemma_istmts_index(s: Seq<Stmt>, i: int)
    requires
        0 <= i < s.len(),
    ensures
        istmts(s)[i] == s[i]@,
    decreases s.len(),
{
    assert(istmts(s) == istmts(s.drop_last()).push(s.last()@));
    lemma_istmts_len(s.drop_last());
    if i < s.len() - 1 {
        lemma_istmts_index(s.drop_last(), i);
    }
}


pub proof fn lemma_iexprs_len(s: Seq<Expr>)
    ensures
        iexprs(s).len() == s.len(),
    decreases s.len(),
{
    if s.len() > 0 {
        lemma_iexprs_len(s.drop_last());
        assert(iexprs(s) == iexprs(s.drop_last()).push(s.last()@));
    } else {
        assert(iexprs(s) == Seq::<IExpr>::empty());
    }
}

pub proof fn lemma_iexprs_index(s: Seq<Expr>, i: int)
    requires
        0 <= i < s.len(),
    ensures
        iexprs(s)[i] == s[i]@,
    decreases s.len(),
{
    assert(iexprs(s) == iexprs(s.drop_last()).push(s.last()@));
    lemma_iexprs_len(s.drop_last());
    if i < s.len() - 1 {
        lemma_iexprs_index(s.drop_last(), i);
    }
}

pub proof fn lemma_iexprs_concat(a: Seq<Expr>, b: Seq<Expr>)
    ensures
        iexprs(a + b) == iexprs(a) + iexprs(b),
    decreases b.len(),
{
    if b.len() == 0 {
        assert(a + b == a);
        assert(iexprs(b) == Seq::<IExpr>::empty());
        assert(iexprs(a) + iexprs(b) == iexprs(a));
    } else {
        assert((a + b).drop_last() == a + b.drop_last());
        lemma_iexprs_concat(a, b.drop_last());
        assert(iexprs(a + b) == iexprs(a + b.drop_last()).push(b.last()@));
        assert(iexprs(b) == iexprs(b.drop_last()).push(b.last()@));
        assert(iexprs(a) + iexprs(b) == (iexprs(a) + iexprs(b.drop_last())).push(b.last()@));
    }
}


pub proof fn lemma_istmts_concat(a: Seq<Stmt>, b: Seq<Stmt>)
    ensures
        istmts(a + b) == istmts(a) + istmts(b),
    decreases b.len(),
{
    if b.len() == 0 {
        assert(a + b == a);
        assert(istmts(b) == Seq::<IStmt>::empty());
        assert(istmts(a) + istmts(b) == istmts(a));
    } else {
        assert((a + b).drop_last() == a + b.drop_last());
        lemma_istmts_concat(a, b.drop_last());
        assert(istmts(a + b) == istmts(a + b.drop_last()).push(b.last()@));
        assert(istmts(b) == istmts(b.drop_last()).push(b.last()@));
        assert(istmts(a) + istmts(b) == (istmts(a) + istmts(b.drop_last())).push(b.last()@));
    }
}

/// The comparison a condition tests: its comparison operator, or equality for a constant.
pub open spec fn condition_of(e: IExpr) -> Option<RelOp> {
    match e {
        IExpr::Binary { op: BinOp::Cmp(rel), .. } => Some(rel),
        IExpr::ConstInt(_) => Some(RelOp::Equal),
        _ => None,
    }
}

impl Expr {
    /// The statement-expression numbered `id` that evaluates `stmt`, then `expr`.
    pub fn eseq(stmt: Box<Stmt>, expr: Box<Expr>, id: usize) -> (r: Expr)
        ensures
            r@ == (IExpr::ESeq { stmt: Box::new((*stmt)@), expr: Box::new((*expr)@), id }),
    {
        Expr::ESeq { stmt, expr, id }
    }

    /// The comparison a condition tests: its comparison operator, or equality for a constant.
    pub fn condition(&self) -> (r: Option<RelOp>)
        ensures
            r == condition_of(self@),
    {
        match self {
            Expr::Binary { op: BinOp::Cmp(rel), .. } => Some(*rel),
            Expr::ConstInt(_) => Some(RelOp::Equal),
            _ => None,
        }
    }

    /// The name of a temporary.
    pub fn temp(&self) -> (r: Option<String>)
        ensures
            match self@ {
                IExpr::Temp(t) => r is Some && r->0@ == t,
                _ => r is None,
            },
    {
        match self {
            Expr::Temp(t) => Some(t.clone()),
            _ => None,
        }
    }

    /// The value of an integer constant.
    pub fn integer(&self) -> (r: Option<i64>)
        ensures
            match self@ {
                IExpr::ConstInt(i) => r == Some(i),
                _ => r is None,
            },
    {
        match self {
            Expr::ConstInt(i) => Some(*i),
            _ => None,
        }
    }

    /// The parts of a binary operation.
    pub fn binary(self) -> (r: Option<(BinOp, Box<Expr>, Box<Expr>)>)
        ensures
            match self@ {
                IExpr::Binary { op, left, right } => r is Some && (r->0).0 == op && (*(r->0).1)@ == *left && (*(r->0).2)@ == *right,
                _ => r is None,
            },
    {
        match self {
            Expr::Binary { op, left, right } => Some((op, left, right)),
            _ => None,
        }
    }
}

/// The label a labelled statement starts with.
pub open spec fn label_of(s: IStmt) -> Option<Seq<char>>
    decreases s,
{
    match s {
        IStmt::Sequence { left, .. } => label_of(*left),
        IStmt::Label(l) => Some(l),
        _ => None,
    }
}

impl Stmt {
    /// The label the statement starts with.
    pub fn label(&self) -> (r: String)
        requires
            label_of(self@) is Some,
        ensures
            r@ == label_of(self@)->0,
        decreases self,
    {
        match self {
            Stmt::Sequence { left, .. } => left.label(),
            Stmt::Label(label) => label.clone(),
            _ => vstd::pervasive::unreached(),
        }
    }
}

/// A sequence of statements as one statement: nothing, the statement itself, or the first
/// followed by the rest.
pub open spec fn seq_of(s: Seq<IStmt>) -> IStmt
    decreases s.len(),
{
    if s.len() == 0 {
        IStmt::Noop
    } else if s.len() == 1 {
        s[0]
    } else {
        IStmt::Sequence { left: Box::new(s[0]), right: Some(Box::new(seq_of(s.drop_first()))) }
    }
}


// ----------------------------------------------------------------------
// Frames
// ----------------------------------------------------------------------

/// The register that holds the frame's base address.
pub open spec fn frame_register() -> Seq<char> {
    "rbp"@
}

/// The register a function returns its value in.
pub open spec fn return_register() -> Seq<char> {
    "rax"@
}

/// The size of a machine word, in bytes.
pub open spec fn word() -> int {
    8
}

/// The view of a frame: its locals with their offsets from the frame register, and the
/// number of bytes they take.
pub struct FrameV {
    pub locals: Seq<(Seq<char>, i64)>,
    pub size: i64,
}

/// The offset of the last local called `name`.
pub open spec fn local_offset(locals: Seq<(Seq<char>, i64)>, name: Seq<char>) -> Option<i64>
    decreases locals.len(),
{
    if locals.len() == 0 {
        None
    } else if locals.last().0 == name {
        Some(locals.last().1)
    } else {
        local_offset(locals.drop_last(), name)
    }
}

/// Reserves `words` words for `name` below what the frame holds; the local's offset is the
/// first of them (the highest address).
pub open spec fn frame_alloc(f: FrameV, name: Seq<char>, words: nat) -> Option<(FrameV, i64)> {
    if 0 <= f.size && f.size + word() * words <= i64::MAX && f.size + word() <= i64::MAX {
        let begin = -(f.size + word());
        Some((FrameV { locals: f.locals.push((name, begin as i64)), size: (f.size + word() * words) as i64 }, begin as i64))
    } else {
        None
    }
}

/// A frame with one more word for each of `params`, in order.
pub open spec fn frame_with_params(f: FrameV, params: Seq<BindingV>) -> Option<FrameV>
    decreases params.len(),
{
    if params.len() == 0 {
        Some(f)
    } else {
        match frame_alloc(f, token_text(params[0].name), 1) {
            None => None,
            Some((f2, _)) => frame_with_params(f2, params.drop_first()),
        }
    }
}

/// The frame of a function: one word for each parameter, in order.
pub open spec fn frame_of_params(params: Seq<BindingV>) -> Option<FrameV> {
    frame_with_params(FrameV { locals: Seq::empty(), size: 0 }, params)
}

/// The memory word at `offset` from the frame register.
pub open spec fn slot(offset: i64) -> IExpr {
    IExpr::Mem(Box::new(IExpr::Binary {
        op: BinOp::Plus,
        left: Box::new(IExpr::Temp(frame_register())),
        right: Box::new(IExpr::ConstInt(offset)),
    }))
}

// ----------------------------------------------------------------------
// Translation
// ----------------------------------------------------------------------

/// The state of a translation: the frames of the functions translated so far (the current
/// function's frame last), the current function, and the next numbers for temporaries,
/// labels and statement-expressions.
pub struct TState {
    pub frames: Seq<(usize, FrameV)>,
    pub function: Option<usize>,
    pub temps: usize,
    pub labels: usize,
    pub eseqs: usize,
    pub accesses: Seq<(usize, Seq<char>)>,
    pub records: Seq<(Seq<char>, Seq<(Seq<char>, Seq<char>)>)>,
}

pub open spec fn bump(n: usize) -> usize {
    if n == usize::MAX { 0 } else { (n + 1) as usize }
}

/// The current function's frame.
pub open spec fn current_frame(ts: TState) -> Option<FrameV> {
    if ts.function is Some && ts.frames.len() > 0 {
        Some(ts.frames.last().1)
    } else {
        None
    }
}

pub open spec fn with_frame(ts: TState, f: FrameV) -> TState {
    TState { frames: ts.frames.update(ts.frames.len() - 1, (ts.frames.last().0, f)), ..ts }
}

/// A memory-to-memory move is not supported: the source goes through a fresh temporary.
pub open spec fn t_fix(ts: TState, e: IExpr) -> (TState, IExpr) {
    let temp = temp_name(ts.temps as nat);
    (
        TState { temps: bump(ts.temps), eseqs: bump(ts.eseqs), ..ts },
        IExpr::ESeq {
            stmt: Box::new(IStmt::Move { target: Box::new(IExpr::Temp(temp)), expr: Box::new(e) }),
            expr: Box::new(IExpr::Temp(temp)),
            id: ts.eseqs,
        },
    )
}

/// The right operand of a binary operation, or the source of a move, whose other side is
/// `left`: when both are memory words, the source word is first read into a fresh temporary
/// (for a statement-expression whose value is a memory word, after its statement), and the
/// temporary stands in its place.
pub open spec fn t_checked(ts: TState, left: IExpr, right: IExpr) -> (TState, IExpr) {
    match (left, right) {
        (IExpr::Mem(_), IExpr::Mem(_)) => t_fix(ts, right),
        (IExpr::Mem(_), IExpr::ESeq { stmt, expr, id }) => match *expr {
            IExpr::Mem(_) => {
                let (ts1, fixed) = t_fix(ts, *expr);
                (ts1, IExpr::ESeq { stmt, expr: Box::new(fixed), id })
            },
            _ => (ts, IExpr::ESeq { stmt, expr, id }),
        },
        (_, r) => (ts, r),
    }
}

pub open spec fn t_binary(ts: TState, op: BinOp, left: IExpr, right: IExpr) -> (TState, IExpr) {
    let (ts1, r) = t_checked(ts, left, right);
    (ts1, IExpr::Binary { op, left: Box::new(left), right: Box::new(r) })
}

pub open spec fn t_move(ts: TState, target: IExpr, expr: IExpr) -> (TState, IStmt) {
    let (ts1, r) = t_checked(ts, target, expr);
    (ts1, IStmt::Move { target: Box::new(target), expr: Box::new(r) })
}

/// Whether `right`, read where `left` is, would take a value from memory straight into
/// memory: `left` is a memory word, and so is `right` or the value of the statement-expression
/// `right`.
pub open spec fn memory_to_memory(left: IExpr, right: IExpr) -> bool {
    &&& left is Mem
    &&& (right is Mem || (right matches IExpr::ESeq { expr, .. } && *expr is Mem))
}

/// A move or a binary operation never takes a value from memory straight into memory: such a
/// source is first copied into a fresh temporary.
pub proof fn law_no_memory_to_memory(ts: TState, op: BinOp, left: IExpr, right: IExpr)
    ensures
        t_move(ts, left, right).1 matches IStmt::Move { target, expr } && *target == left
            && !memory_to_memory(*target, *expr),
        t_binary(ts, op, left, right).1 matches IExpr::Binary { op: o, left: l, right: r } && o == op
            && *l == left && !memory_to_memory(*l, *r),
{
}

// ----------------------------------------------------------------------
// Records and field access
// ----------------------------------------------------------------------

/// Whether a type name names a built-in type rather than a record.
pub open spec fn builtin_type(name: Seq<char>) -> bool {
    !(crate::ast::type_of_name(name) is UserDefined)
}

/// The fields (name and type name) of the last record called `name`.
pub open spec fn record_fields(
    records: Seq<(Seq<char>, Seq<(Seq<char>, Seq<char>)>)>,
    name: Seq<char>,
) -> Option<Seq<(Seq<char>, Seq<char>)>>
    decreases records.len(),
{
    if records.len() == 0 {
        None
    } else if records.last().0 == name {
        Some(records.last().1)
    } else {
        record_fields(records.drop_last(), name)
    }
}

/// The fields of record `name` with the fields of nested records in their place, in order;
/// `None` where a field's type is neither built in nor a record, or records nest deeper than
/// `fuel` (they then nest without end).
pub open spec fn flat_fields(
    records: Seq<(Seq<char>, Seq<(Seq<char>, Seq<char>)>)>,
    name: Seq<char>,
    fuel: nat,
) -> Option<Seq<Seq<char>>>
    decreases fuel, 0nat, 0nat,
{
    if fuel == 0 {
        None
    } else {
        match record_fields(records, name) {
            None => None,
            Some(fs) => flat_list(records, fs, (fuel - 1) as nat),
        }
    }
}

/// The flattened fields of a list of fields, in order.
pub open spec fn flat_list(
    records: Seq<(Seq<char>, Seq<(Seq<char>, Seq<char>)>)>,
    fs: Seq<(Seq<char>, Seq<char>)>,
    fuel: nat,
) -> Option<Seq<Seq<char>>>
    decreases fuel, 1nat, fs.len(),
{
    if fs.len() == 0 {
        Some(Seq::empty())
    } else {
        let first = if builtin_type(fs[0].1) { Some(seq![fs[0].0]) } else { flat_fields(records, fs[0].1, fuel) };
        match first {
            None => None,
            Some(a) => match flat_list(records, fs.drop_first(), fuel) {
                None => None,
                Some(b) => Some(a + b),
            },
        }
    }
}

/// The record that access `id` reads a field of: its last entry.
pub open spec fn access_record(accesses: Seq<(usize, Seq<char>)>, id: usize) -> Option<Seq<char>>
    decreases accesses.len(),
{
    if accesses.len() == 0 {
        None
    } else if accesses.last().0 == id {
        Some(accesses.last().1)
    } else {
        access_record(accesses.drop_last(), id)
    }
}

/// The position of the first field called `name`.
pub open spec fn field_index(flat: Seq<Seq<char>>, name: Seq<char>) -> Option<nat>
    decreases flat.len(),
{
    if flat.len() == 0 {
        None
    } else if flat[0] == name {
        Some(0)
    } else {
        match field_index(flat.drop_first(), name) {
            None => None,
            Some(i) => Some(i + 1),
        }
    }
}

/// The name an identifier expression stands for.
pub open spec fn ident_name(e: ExprV) -> Option<Seq<char>> {
    match e {
        ExprV::Ident(i) => Some(token_text(i.name)),
        _ => None,
    }
}

/// The word of field `index` of a record of `count` words whose start offset the temporary
/// `temp` holds: an initializer stores the fields upward from `count - 1` words below the
/// start offset.
pub open spec fn field_word(temp: Seq<char>, index: nat, count: nat) -> IExpr {
    IExpr::Mem(Box::new(IExpr::Binary {
        op: BinOp::Plus,
        left: Box::new(IExpr::Temp(frame_register())),
        right: Box::new(IExpr::Binary {
            op: BinOp::Plus,
            left: Box::new(IExpr::Temp(temp)),
            right: Box::new(IExpr::ConstInt((word() * index - word() * (count - 1)) as i64)),
        }),
    }))
}

/// The translation of a field access `parent. ... .last`: the record of the access is
/// flattened, the field called `last` is found, the start offset held by the local `parent`
/// is read into a fresh temporary, and the value is the field's word.
pub open spec fn t_access(ts: TState, chain: Seq<ExprV>, id: usize) -> Option<(TState, IExpr)> {
    let temp = temp_name(ts.temps as nat);
    if chain.len() == 0 {
        None
    } else {
        match (current_frame(ts), access_record(ts.accesses, id), ident_name(chain[0]), ident_name(chain.last())) {
            (Some(f), Some(rec), Some(parent), Some(last)) => match flat_fields(ts.records, rec, ts.records.len()) {
                None => None,
                Some(flat) => match (field_index(flat, last), local_offset(f.locals, parent)) {
                    (Some(index), Some(off)) => if flat.len() * word() <= i64::MAX {
                        Some((
                            TState { temps: bump(ts.temps), eseqs: bump(ts.eseqs), ..ts },
                            IExpr::ESeq {
                                stmt: Box::new(IStmt::Move { target: Box::new(IExpr::Temp(temp)), expr: Box::new(slot(off)) }),
                                expr: Box::new(field_word(temp, index, flat.len())),
                                id: ts.eseqs,
                            },
                        ))
                    } else {
                        None
                    },
                    _ => None,
                },
            },
            _ => None,
        }
    }
}

/// The translation of an expression, or `None` where translation is not defined (a string
/// literal, a field access whose record, field or local is unknown, a range, a call of something other than a name, a name that
/// is not a local of the current function, an empty initializer, a frame that outgrows
/// the offsets).
pub open spec fn t_expr(ts: TState, e: ExprV) -> Option<(TState, IExpr)>
    decreases e,
{
    match e {
        ExprV::Bool(l) => Some((ts, IExpr::ConstInt(if l.value { 1 } else { 0 }))),
        ExprV::Float(l) => Some((ts, IExpr::ConstFloat(l.value@))),
        ExprV::Int(l) => Some((ts, IExpr::ConstInt(l.value))),
        ExprV::Str(_) => None,
        ExprV::Binary(left, op, right) => if is_binop_kind(op.kind) {
            match t_expr(ts, *left) {
                None => None,
                Some((ts1, l)) => match t_expr(ts1, *right) {
                    None => None,
                    Some((ts2, r)) => Some(t_binary(ts2, binop_of(op.kind), l, r)),
                },
            }
        } else {
            None
        },
        ExprV::Unary(op, inner) => if op.kind == Kind::Minus {
            match t_expr(ts, *inner) {
                None => None,
                Some((ts1, v)) => Some((ts1, IExpr::Binary {
                    op: BinOp::Minus,
                    left: Box::new(IExpr::ConstInt(0)),
                    right: Box::new(v),
                })),
            }
        } else if op.kind == Kind::Bang {
            match t_expr(ts, *inner) {
                None => None,
                Some((ts1, v)) => Some((ts1, IExpr::Binary {
                    op: BinOp::Xor,
                    left: Box::new(v),
                    right: Box::new(IExpr::ConstInt(1)),
                })),
            }
        } else {
            None
        },
        ExprV::Call { left, args, .. } => match *left {
            ExprV::Ident(i) => match t_exprs(ts, args) {
                None => None,
                Some((ts1, vs)) => Some((ts1, IExpr::Call(token_text(i.name), vs))),
            },
            _ => None,
        },
        ExprV::Ident(i) => match current_frame(ts) {
            None => None,
            Some(f) => match local_offset(f.locals, token_text(i.name)) {
                None => None,
                Some(off) => Some((ts, slot(off))),
            },
        },
        ExprV::Access { chain, id } => t_access(ts, chain, id),
        ExprV::Range(..) => None,
        ExprV::Init { initializers, .. } => match t_flatten(ts, initializers) {
            None => None,
            Some((ts1, values)) => t_init(ts1, values),
        },
    }
}

/// The translations of expressions, left to right.
pub open spec fn t_exprs(ts: TState, es: Seq<ExprV>) -> Option<(TState, Seq<IExpr>)>
    decreases es,
{
    if es.len() == 0 {
        Some((ts, Seq::empty()))
    } else {
        match t_expr(ts, es[0]) {
            None => None,
            Some((ts1, v)) => match t_exprs(ts1, es.drop_first()) {
                None => None,
                Some((ts2, vs)) => Some((ts2, seq![v] + vs)),
            },
        }
    }
}

/// The values of an initializer, nested initializers flattened in place.
pub open spec fn t_flatten(ts: TState, inits: Seq<(Token, ExprV)>) -> Option<(TState, Seq<IExpr>)>
    decreases inits,
{
    if inits.len() == 0 {
        Some((ts, Seq::empty()))
    } else {
        let first = match inits[0].1 {
            ExprV::Init { initializers, .. } => t_flatten(ts, initializers),
            other => match t_expr(ts, other) {
                None => None,
                Some((ts1, v)) => Some((ts1, seq![v])),
            },
        };
        match first {
            None => None,
            Some((ts1, vs)) => match t_flatten(ts1, inits.drop_first()) {
                None => None,
                Some((ts2, ws)) => Some((ts2, vs + ws)),
            },
        }
    }
}

/// Stores the values of an initializer in a fresh block of the frame and gives the
/// block's offset.
pub open spec fn t_init(ts: TState, values: Seq<IExpr>) -> Option<(TState, IExpr)> {
    let name = temp_name(ts.temps as nat);
    let ts1 = TState { temps: bump(ts.temps), ..ts };
    match current_frame(ts1) {
        None => None,
        Some(f) => match frame_alloc(f, name, values.len()) {
            None => None,
            Some((f2, begin)) => {
                let n = values.len();
                if n >= 1 && begin - word() * (n - 1) >= i64::MIN && word() * (n - 1) <= usize::MAX {
                    let end = begin - word() * (n - 1);
                    let (ts2, stmts) = t_stores(with_frame(ts1, f2), end, values);
                    Some((ts2, IExpr::ESeq {
                        stmt: Box::new(seq_of(stmts)),
                        expr: Box::new(IExpr::ConstInt(begin)),
                        id: ts.function->0,
                    }))
                } else {
                    None
                }
            },
        },
    }
}

/// The moves of `values` to consecutive words from `offset` up.
pub open spec fn t_stores(ts: TState, offset: int, values: Seq<IExpr>) -> (TState, Seq<IStmt>)
    decreases values.len(),
{
    if values.len() == 0 {
        (ts, Seq::empty())
    } else {
        let target = IExpr::Binary {
            op: BinOp::Plus,
            left: Box::new(IExpr::Temp(frame_register())),
            right: Box::new(IExpr::ConstInt(offset as i64)),
        };
        let (ts1, m) = t_move(ts, target, values[0]);
        let (ts2, ms) = t_stores(ts1, offset + word(), values.drop_first());
        (ts2, seq![m] + ms)
    }
}

/// The condition of a branch: an integer literal `i` tests `i == 0`.
pub open spec fn t_condition(ts: TState, c: ExprV) -> Option<(TState, IExpr)> {
    match c {
        ExprV::Int(l) => Some((ts, IExpr::Binary {
            op: BinOp::Cmp(RelOp::Equal),
            left: Box::new(IExpr::ConstInt(l.value)),
            right: Box::new(IExpr::ConstInt(0)),
        })),
        _ => t_expr(ts, c),
    }
}

pub open spec fn next_label(ts: TState) -> (TState, Seq<char>) {
    (TState { labels: bump(ts.labels), ..ts }, label_name(ts.labels as nat))
}

/// The translation of a statement, or `None` where it is not defined (a `for` loop, a
/// condition that is not a comparison or a constant, a variable outside a function, or an
/// expression whose translation is not defined).
pub open spec fn t_stmt(ts: TState, s: StmtV) -> Option<(TState, IStmt)>
    decreases s,
{
    match s {
        StmtV::If { condition, is, otherwise } => match t_condition(ts, condition) {
            None => None,
            Some((ts1, c)) => match condition_of(c) {
                None => None,
                Some(rel) => {
                    let (ts2, t) = next_label(ts1);
                    let (ts3, f) = next_label(ts2);
                    let (ts4, done) = next_label(ts3);
                    match t_stmts(ts4, is) {
                        None => None,
                        Some((ts5, iss)) => match t_stmts(ts5, otherwise) {
                            None => None,
                            Some((ts6, oss)) => Some((ts6, IStmt::Sequence {
                                left: Box::new(IStmt::Sequence {
                                    left: Box::new(IStmt::Sequence {
                                        left: Box::new(IStmt::Sequence {
                                            left: Box::new(IStmt::CJump {
                                                op: BinOp::Cmp(rel),
                                                condition: Box::new(c),
                                                t,
                                                f,
                                            }),
                                            right: Some(Box::new(IStmt::Sequence {
                                                left: Box::new(IStmt::Label(t)),
                                                right: Some(Box::new(seq_of(iss))),
                                            })),
                                        }),
                                        right: Some(Box::new(IStmt::Jump(done))),
                                    }),
                                    right: Some(Box::new(IStmt::Sequence {
                                        left: Box::new(IStmt::Label(f)),
                                        right: Some(Box::new(seq_of(oss))),
                                    })),
                                }),
                                right: Some(Box::new(IStmt::Label(done))),
                            })),
                        },
                    }
                },
            },
        },
        StmtV::While { condition, body } => match t_condition(ts, condition) {
            None => None,
            Some((ts1, c)) => match condition_of(c) {
                None => None,
                Some(rel) => {
                    let (ts2, t) = next_label(ts1);
                    let (ts3, f) = next_label(ts2);
                    let (ts4, test) = next_label(ts3);
                    match t_stmts(ts4, body) {
                        None => None,
                        Some((ts5, bs)) => Some((ts5, IStmt::Sequence {
                            left: Box::new(IStmt::Sequence {
                                left: Box::new(IStmt::Sequence {
                                    left: Box::new(IStmt::Label(test)),
                                    right: Some(Box::new(IStmt::CJump {
                                        op: BinOp::Cmp(rel),
                                        condition: Box::new(c),
                                        t,
                                        f,
                                    })),
                                }),
                                right: Some(Box::new(IStmt::Sequence {
                                    left: Box::new(IStmt::Label(t)),
                                    right: Some(Box::new(seq_of(bs.push(IStmt::Jump(test))))),
                                })),
                            }),
                            right: Some(Box::new(IStmt::Label(f))),
                        })),
                    }
                },
            },
        },
        StmtV::Assign { target, expr } => match t_expr(ts, target) {
            None => None,
            Some((ts1, t)) => match t_expr(ts1, expr) {
                None => None,
                Some((ts2, e)) => Some(t_move(ts2, t, e)),
            },
        },
        StmtV::Expr(e) => match t_expr(ts, e) {
            None => None,
            Some((ts1, v)) => Some((ts1, IStmt::Expr(Box::new(v)))),
        },
        StmtV::Return { expr, .. } => match t_expr(ts, expr) {
            None => None,
            Some((ts1, v)) => Some(t_move(ts1, IExpr::Temp(return_register()), v)),
        },
        StmtV::Var { name, expr, .. } => match current_frame(ts) {
            None => None,
            Some(f) => match frame_alloc(f, token_text(name), 1) {
                None => None,
                Some((f2, off)) => match t_expr(with_frame(ts, f2), expr) {
                    None => None,
                    Some((ts1, v)) => Some(t_move(ts1, slot(off), v)),
                },
            },
        },
        StmtV::For { .. } => None,
    }
}

/// The translations of statements, in order.
pub open spec fn t_stmts(ts: TState, ss: Seq<StmtV>) -> Option<(TState, Seq<IStmt>)>
    decreases ss,
{
    if ss.len() == 0 {
        Some((ts, Seq::empty()))
    } else {
        match t_stmt(ts, ss[0]) {
            None => None,
            Some((ts1, v)) => match t_stmts(ts1, ss.drop_first()) {
                None => None,
                Some((ts2, vs)) => Some((ts2, seq![v] + vs)),
            },
        }
    }
}

/// The translation of a declaration: a function is its label followed by its body, in a
/// fresh frame; a record is nothing; constants and classes have no translation.
pub open spec fn t_decl(ts: TState, d: DeclV) -> Option<(TState, IStmt)> {
    match d {
        DeclV::Function(f) => match frame_of_params(f.params) {
            None => None,
            Some(frame) => {
                let ts1 = TState { frames: ts.frames.push((f.id, frame)), function: Some(f.id), ..ts };
                match t_stmts(ts1, f.body) {
                    None => None,
                    Some((ts2, body)) => Some((ts2, seq_of(seq![IStmt::Label(token_text(f.name))] + body))),
                }
            },
        },
        DeclV::Record { .. } => Some((ts, IStmt::Noop)),
        DeclV::Constant { .. } => None,
        DeclV::Class { .. } => None,
    }
}

/// The translations of declarations, in order.
pub open spec fn t_decls(ts: TState, ds: Seq<DeclV>) -> Option<(TState, Seq<IStmt>)>
    decreases ds.len(),
{
    if ds.len() == 0 {
        Some((ts, Seq::empty()))
    } else {
        match t_decl(ts, ds[0]) {
            None => None,
            Some((ts1, v)) => match t_decls(ts1, ds.drop_first()) {
                None => None,
                Some((ts2, vs)) => Some((ts2, seq![v] + vs)),
            },
        }
    }
}


// ----------------------------------------------------------------------
// Evaluation of straight-line code
// ----------------------------------------------------------------------

/// A machine on which straight-line code of the intermediate representation runs: the
/// values of the temporaries, and the values of the memory words by address.
pub struct Machine {
    pub temps: Map<Seq<char>, int>,
    pub memory: Map<int, int>,
}

/// The machine with temporary `t` set to `v`.
pub open spec fn set_temp(m: Machine, t: Seq<char>, v: int) -> Machine {
    Machine { temps: m.temps.insert(t, v), ..m }
}

/// The quotient of `a` by a nonzero `b`, rounded toward zero.
pub open spec fn quotient(a: int, b: int) -> int {
    let q = (if a < 0 { -a } else { a }) / (if b < 0 { -b } else { b });
    if (a < 0) == (b < 0) { q } else { -q }
}

/// The result of a binary operation: integer arithmetic, a comparison as 1 or 0, and the
/// exclusive or of two truth values (0 or 1); undefined for a division by zero and for an
/// exclusive or of other values.
pub open spec fn apply_op(op: BinOp, a: int, b: int) -> Option<int> {
    match op {
        BinOp::Plus => Some(a + b),
        BinOp::Minus => Some(a - b),
        BinOp::Mul => Some(a * b),
        BinOp::Div => if b == 0 { None } else { Some(quotient(a, b)) },
        BinOp::Xor => if (a == 0 || a == 1) && (b == 0 || b == 1) {
            Some(if a != b { 1 } else { 0 })
        } else {
            None
        },
        BinOp::Cmp(rel) => Some(if match rel {
            RelOp::Equal => a == b,
            RelOp::NotEqual => a != b,
            RelOp::Less => a < b,
            RelOp::Greater => a > b,
            RelOp::LessEqual => a <= b,
            RelOp::GreaterEqual => a >= b,
        } { 1 } else { 0 }),
    }
}

/// The machine after evaluating an expression, and its value: operands left to right, the
/// statement of a statement-expression before its value. Undefined for an unset temporary
/// or memory word, for an undefined operation, and for calls and floating-point constants,
/// which straight-line code does not model.
pub open spec fn eval_expr(m: Machine, e: IExpr) -> Option<(Machine, int)>
    decreases e,
{
    match e {
        IExpr::ConstInt(i) => Some((m, i as int)),
        IExpr::Temp(t) => if m.temps.dom().contains(t) { Some((m, m.temps[t])) } else { None },
        IExpr::Binary { op, left, right } => match eval_expr(m, *left) {
            None => None,
            Some((m1, a)) => match eval_expr(m1, *right) {
                None => None,
                Some((m2, b)) => match apply_op(op, a, b) {
                    None => None,
                    Some(v) => Some((m2, v)),
                },
            },
        },
        IExpr::Mem(address) => match eval_expr(m, *address) {
            None => None,
            Some((m1, a)) => if m1.memory.dom().contains(a) { Some((m1, m1.memory[a])) } else { None },
        },
        IExpr::ESeq { stmt, expr, .. } => match exec_stmt(m, *stmt) {
            None => None,
            Some(m1) => eval_expr(m1, *expr),
        },
        _ => None,
    }
}

/// The machine after running a statement: a move evaluates its source, then stores the
/// value in its target temporary, or in the memory word at its target's address (a memory
/// word's address, or an address expression); a sequence runs its left part, then its right.
/// Labels and no-ops change nothing; jumps leave straight-line code and are undefined here.
pub open spec fn exec_stmt(m: Machine, s: IStmt) -> Option<Machine>
    decreases s,
{
    match s {
        IStmt::Move { target, expr } => match eval_expr(m, *expr) {
            None => None,
            Some((m1, v)) => match *target {
                IExpr::Temp(t) => Some(set_temp(m1, t, v)),
                IExpr::Mem(address) => match eval_expr(m1, *address) {
                    None => None,
                    Some((m2, a)) => Some(Machine { memory: m2.memory.insert(a, v), ..m2 }),
                },
                IExpr::Binary { .. } => match eval_expr(m1, *target) {
                    None => None,
                    Some((m2, a)) => Some(Machine { memory: m2.memory.insert(a, v), ..m2 }),
                },
                _ => None,
            },
        },
        IStmt::Expr(e) => match eval_expr(m, *e) {
            None => None,
            Some((m1, _)) => Some(m1),
        },
        IStmt::Sequence { left, right } => match exec_stmt(m, *left) {
            None => None,
            Some(m1) => match right {
                None => Some(m1),
                Some(r) => exec_stmt(m1, *r),
            },
        },
        IStmt::Label(_) | IStmt::Noop => Some(m),
        _ => None,
    }
}

/// A negation evaluates to the negated value of its operand, and a logical not of a truth
/// value (0 or 1) to the other truth value; the operand's effects are those of the whole.
pub proof fn law_unary_values(ts: TState, op: Token, e: ExprV, m: Machine)
    ensures
        op.kind == Kind::Minus ==> (t_expr(ts, ExprV::Unary(op, Box::new(e))) matches Some((ts1, v)) ==> (
        t_expr(ts, e) matches Some((ts2, w)) && ts1 == ts2 && (eval_expr(m, w) matches Some((m1, x))
            ==> eval_expr(m, v) == Some((m1, -x))))),
        op.kind == Kind::Bang ==> (t_expr(ts, ExprV::Unary(op, Box::new(e))) matches Some((ts1, v)) ==> (
        t_expr(ts, e) matches Some((ts2, w)) && ts1 == ts2 && (eval_expr(m, w) matches Some((m1, x))
            ==> ((x == 0 || x == 1) ==> eval_expr(m, v) == Some((m1, 1 - x)))))),
{
    if let Some((ts2, w)) = t_expr(ts, e) {
        if let Some((m1, x)) = eval_expr(m, w) {
            let neg = IExpr::Binary { op: BinOp::Minus, left: Box::new(IExpr::ConstInt(0)), right: Box::new(w) };
            assert(eval_expr(m, IExpr::ConstInt(0)) == Some((m, 0int)));
            assert(eval_expr(m, neg) == Some((m1, -x)));
            let not = IExpr::Binary { op: BinOp::Xor, left: Box::new(w), right: Box::new(IExpr::ConstInt(1)) };
            assert(eval_expr(m1, IExpr::ConstInt(1)) == Some((m1, 1int)));
            if x == 0 || x == 1 {
                assert(eval_expr(m, not) == Some((m1, 1 - x)));
            }
        }
    }
}

/// Reading a value through a fresh temporary gives the same value, with the same effects,
/// and the temporary set to the value.
pub proof fn law_fix_keeps_value(ts: TState, e: IExpr, m: Machine)
    ensures
        eval_expr(m, e) matches Some((m1, v)) ==> eval_expr(m, t_fix(ts, e).1) == Some(
            (set_temp(m1, temp_name(ts.temps as nat), v), v),
        ),
{
    let t = temp_name(ts.temps as nat);
    let mv = IStmt::Move { target: Box::new(IExpr::Temp(t)), expr: Box::new(e) };
    if let Some((m1, v)) = eval_expr(m, e) {
        assert(exec_stmt(m, mv) == Some(set_temp(m1, t, v)));
        assert(set_temp(m1, t, v).temps.dom().contains(t));
        assert(eval_expr(set_temp(m1, t, v), IExpr::Temp(t)) == Some((set_temp(m1, t, v), v)));
    }
}

/// The checked source of a move or a binary operation evaluates to the value of the source
/// itself, with the same effects (the statement of a statement-expression included); when
/// the source was read through a fresh temporary, that temporary is set to the value too.
pub proof fn law_checked_keeps_value(ts: TState, left: IExpr, right: IExpr, m: Machine)
    ensures
        eval_expr(m, right) matches Some((m1, v)) ==> {
            let checked = eval_expr(m, t_checked(ts, left, right).1);
            ||| checked == Some((m1, v))
            ||| checked == Some((set_temp(m1, temp_name(ts.temps as nat), v), v))
        },
{
    match (left, right) {
        (IExpr::Mem(_), IExpr::Mem(_)) => law_fix_keeps_value(ts, right, m),
        (IExpr::Mem(_), IExpr::ESeq { stmt, expr, id }) => {
            if *expr is Mem {
                if let Some(ms) = exec_stmt(m, *stmt) {
                    law_fix_keeps_value(ts, *expr, ms);
                }
            }
        },
        _ => {},
    }
}

// ----------------------------------------------------------------------
// No moves from memory to memory
// ----------------------------------------------------------------------

/// Whether no move or binary operation in an expression takes a value from memory straight
/// into memory.
pub open spec fn expr_checked(e: IExpr) -> bool
    decreases e,
{
    match e {
        IExpr::Binary { left, right, .. } => !memory_to_memory(*left, *right) && expr_checked(*left)
            && expr_checked(*right),
        IExpr::Mem(inner) => expr_checked(*inner),
        IExpr::Call(_, args) => exprs_checked(args),
        IExpr::ESeq { stmt, expr, .. } => stmt_checked(*stmt) && expr_checked(*expr),
        _ => true,
    }
}

/// Whether every expression of a list is checked.
pub open spec fn exprs_checked(es: Seq<IExpr>) -> bool
    decreases es,
{
    if es.len() == 0 {
        true
    } else {
        expr_checked(es[0]) && exprs_checked(es.drop_first())
    }
}

/// Whether no move or binary operation in a statement takes a value from memory straight
/// into memory.
pub open spec fn stmt_checked(s: IStmt) -> bool
    decreases s,
{
    match s {
        IStmt::Move { target, expr } => !memory_to_memory(*target, *expr) && expr_checked(*target)
            && expr_checked(*expr),
        IStmt::Expr(e) => expr_checked(*e),
        IStmt::Sequence { left, right } => stmt_checked(*left) && match right {
            Some(r) => stmt_checked(*r),
            None => true,
        },
        IStmt::CJump { condition, .. } => expr_checked(*condition),
        _ => true,
    }
}

/// Whether every statement of a list is checked.
pub open spec fn stmts_checked(ss: Seq<IStmt>) -> bool {
    forall|i: int| 0 <= i < ss.len() ==> stmt_checked(#[trigger] ss[i])
}

proof fn lemma_leaves_checked()
    ensures
        forall|i: i64| #[trigger] expr_checked(IExpr::ConstInt(i)),
        forall|t: Seq<char>| #[trigger] expr_checked(IExpr::Temp(t)),
        forall|o: i64| #[trigger] expr_checked(slot(o)),
{
    assert forall|o: i64| #[trigger] expr_checked(slot(o)) by {
        let b = IExpr::Binary {
            op: BinOp::Plus,
            left: Box::new(IExpr::Temp(frame_register())),
            right: Box::new(IExpr::ConstInt(o)),
        };
        assert(expr_checked(IExpr::Temp(frame_register())));
        assert(expr_checked(IExpr::ConstInt(o)));
        assert(expr_checked(b));
        assert(slot(o) == IExpr::Mem(Box::new(b)));
    }
}

proof fn lemma_exprs_checked_one(v: IExpr)
    requires
        expr_checked(v),
    ensures
        exprs_checked(seq![v]),
{
    assert(seq![v].drop_first() == Seq::<IExpr>::empty());
    assert(exprs_checked(Seq::<IExpr>::empty()));
}

proof fn lemma_exprs_checked_concat(a: Seq<IExpr>, b: Seq<IExpr>)
    requires
        exprs_checked(a),
        exprs_checked(b),
    ensures
        exprs_checked(a + b),
    decreases a.len(),
{
    if a.len() > 0 {
        assert((a + b).drop_first() == a.drop_first() + b);
        lemma_exprs_checked_concat(a.drop_first(), b);
    } else {
        assert(a + b == b);
    }
}

proof fn lemma_exprs_checked_index(a: Seq<IExpr>, i: int)
    requires
        exprs_checked(a),
        0 <= i < a.len(),
    ensures
        expr_checked(a[i]),
    decreases a.len(),
{
    if i > 0 {
        lemma_exprs_checked_index(a.drop_first(), i - 1);
    }
}

proof fn lemma_seq_of_checked(s: Seq<IStmt>)
    requires
        stmts_checked(s),
    ensures
        stmt_checked(seq_of(s)),
    decreases s.len(),
{
    if s.len() > 1 {
        assert(stmt_checked(s[0]));
        assert(stmts_checked(s.drop_first())) by {
            assert forall|i: int| 0 <= i < s.drop_first().len() implies stmt_checked(#[trigger] s.drop_first()[i]) by {
                assert(s.drop_first()[i] == s[i + 1]);
            }
        }
        lemma_seq_of_checked(s.drop_first());
    } else if s.len() == 1 {
        assert(stmt_checked(s[0]));
    }
}

proof fn lemma_stmts_checked_concat(a: Seq<IStmt>, b: Seq<IStmt>)
    requires
        stmts_checked(a),
        stmts_checked(b),
    ensures
        stmts_checked(a + b),
{
    assert forall|i: int| 0 <= i < (a + b).len() implies stmt_checked(#[trigger] (a + b)[i]) by {
        if i < a.len() {
            assert((a + b)[i] == a[i]);
        } else {
            assert((a + b)[i] == b[i - a.len()]);
        }
    }
}

proof fn lemma_fix_checked(ts: TState, e: IExpr)
    requires
        expr_checked(e),
    ensures
        expr_checked(t_fix(ts, e).1),
{
    let temp = temp_name(ts.temps as nat);
    let m = IStmt::Move { target: Box::new(IExpr::Temp(temp)), expr: Box::new(e) };
    assert(expr_checked(IExpr::Temp(temp)));
    assert(stmt_checked(m));
}

proof fn lemma_checked_pair(ts: TState, left: IExpr, right: IExpr)
    requires
        expr_checked(left),
        expr_checked(right),
    ensures
        expr_checked(t_checked(ts, left, right).1),
        !memory_to_memory(left, t_checked(ts, left, right).1),
{
    match (left, right) {
        (IExpr::Mem(_), IExpr::Mem(inner)) => lemma_fix_checked(ts, right),
        (IExpr::Mem(_), IExpr::ESeq { stmt, expr, id }) => {
            if *expr is Mem {
                lemma_fix_checked(ts, *expr);
                assert(stmt_checked(*stmt));
            }
        },
        _ => {},
    }
}

proof fn lemma_stores_checked(ts: TState, offset: int, values: Seq<IExpr>)
    requires
        exprs_checked(values),
    ensures
        stmts_checked(t_stores(ts, offset, values).1),
    decreases values.len(),
{
    if values.len() > 0 {
        let target = IExpr::Binary {
            op: BinOp::Plus,
            left: Box::new(IExpr::Temp(frame_register())),
            right: Box::new(IExpr::ConstInt(offset as i64)),
        };
        lemma_exprs_checked_index(values, 0);
        assert(expr_checked(IExpr::Temp(frame_register())));
        assert(expr_checked(IExpr::ConstInt(offset as i64)));
        assert(expr_checked(target));
        lemma_checked_pair(ts, target, values[0]);
        let (ts1, m) = t_move(ts, target, values[0]);
        lemma_stores_checked(ts1, offset + word(), values.drop_first());
        let ms = t_stores(ts1, offset + word(), values.drop_first()).1;
        assert(stmts_checked(seq![m]));
        lemma_stmts_checked_concat(seq![m], ms);
    }
}

proof fn lemma_access_shape_checked(temp: Seq<char>, off: i64, index: nat, count: nat, id: usize)
    ensures
        expr_checked(IExpr::ESeq {
            stmt: Box::new(IStmt::Move { target: Box::new(IExpr::Temp(temp)), expr: Box::new(slot(off)) }),
            expr: Box::new(field_word(temp, index, count)),
            id,
        }),
{
    lemma_leaves_checked();
    let k = (word() * index - word() * (count - 1)) as i64;
    let inner = IExpr::Binary { op: BinOp::Plus, left: Box::new(IExpr::Temp(temp)), right: Box::new(IExpr::ConstInt(k)) };
    assert(expr_checked(IExpr::Temp(temp)));
    assert(expr_checked(IExpr::ConstInt(k)));
    assert(expr_checked(inner));
    let b = IExpr::Binary { op: BinOp::Plus, left: Box::new(IExpr::Temp(frame_register())), right: Box::new(inner) };
    assert(expr_checked(IExpr::Temp(frame_register())));
    assert(expr_checked(b));
    assert(expr_checked(IExpr::Mem(Box::new(b))));
    assert(field_word(temp, index, count) == IExpr::Mem(Box::new(b)));
    assert(expr_checked(slot(off)));
    assert(stmt_checked(IStmt::Move { target: Box::new(IExpr::Temp(temp)), expr: Box::new(slot(off)) }));
}

proof fn lemma_access_checked(ts: TState, chain: Seq<ExprV>, id: usize)
    ensures
        t_access(ts, chain, id) matches Some((_, v)) ==> expr_checked(v),
{
    let temp = temp_name(ts.temps as nat);
    if chain.len() > 0 {
        if let (Some(f), Some(rec), Some(parent), Some(last)) = (current_frame(ts), access_record(ts.accesses, id), ident_name(chain[0]), ident_name(chain.last())) {
            if let Some(flat) = flat_fields(ts.records, rec, ts.records.len()) {
                if let (Some(index), Some(off)) = (field_index(flat, last), local_offset(f.locals, parent)) {
                    lemma_access_shape_checked(temp, off, index, flat.len(), ts.eseqs);
                }
            }
        }
    }
}

/// A translated expression is checked.
pub proof fn lemma_t_expr_checked(ts: TState, e: ExprV)
    ensures
        t_expr(ts, e) matches Some((_, v)) ==> expr_checked(v),
    decreases e,
{
    lemma_leaves_checked();
    match e {
        ExprV::Binary(left, op, right) => {
            lemma_t_expr_checked(ts, *left);
            if let Some((ts1, l)) = t_expr(ts, *left) {
                lemma_t_expr_checked(ts1, *right);
                if let Some((ts2, r)) = t_expr(ts1, *right) {
                    lemma_checked_pair(ts2, l, r);
                }
            }
        },
        ExprV::Access { chain, id } => lemma_access_checked(ts, chain, id),
        ExprV::Unary(op, inner) => {
            lemma_t_expr_checked(ts, *inner);
            assert(expr_checked(IExpr::ConstInt(0)));
            assert(expr_checked(IExpr::ConstInt(1)));
        },
        ExprV::Ident(i) => {
            if let Some(f) = current_frame(ts) {
                if let Some(off) = local_offset(f.locals, token_text(i.name)) {
                    assert(expr_checked(slot(off)));
                }
            }
        },
        ExprV::Call { left, args, .. } => {
            lemma_t_exprs_checked(ts, args);
        },
        ExprV::Init { initializers, .. } => {
            lemma_t_flatten_checked(ts, initializers);
            if let Some((ts1, values)) = t_flatten(ts, initializers) {
                let name = temp_name(ts1.temps as nat);
                let ts2 = TState { temps: bump(ts1.temps), ..ts1 };
                if let Some(f) = current_frame(ts2) {
                    if let Some((f2, begin)) = frame_alloc(f, name, values.len()) {
                        let n = values.len();
                        if n >= 1 {
                            let end = begin - word() * (n - 1);
                            lemma_stores_checked(with_frame(ts2, f2), end, values);
                            lemma_seq_of_checked(t_stores(with_frame(ts2, f2), end, values).1);
                            assert(expr_checked(IExpr::ConstInt(begin)));
                        }
                    }
                }
            }
        },
        _ => {},
    }
}

/// Translated expressions are checked.
pub proof fn lemma_t_exprs_checked(ts: TState, es: Seq<ExprV>)
    ensures
        t_exprs(ts, es) matches Some((_, vs)) ==> exprs_checked(vs),
    decreases es,
{
    if es.len() > 0 {
        lemma_t_expr_checked(ts, es[0]);
        if let Some((ts1, v)) = t_expr(ts, es[0]) {
            lemma_t_exprs_checked(ts1, es.drop_first());
            if let Some((ts2, vs)) = t_exprs(ts1, es.drop_first()) {
                assert((seq![v] + vs).drop_first() == vs);
            }
        }
    }
}

/// The flattened values of an initializer are checked.
pub proof fn lemma_t_flatten_checked(ts: TState, inits: Seq<(Token, ExprV)>)
    ensures
        t_flatten(ts, inits) matches Some((_, vs)) ==> exprs_checked(vs),
    decreases inits,
{
    if inits.len() > 0 {
        let first = match inits[0].1 {
            ExprV::Init { initializers, .. } => t_flatten(ts, initializers),
            other => match t_expr(ts, other) {
                None => None,
                Some((ts1, v)) => Some((ts1, seq![v])),
            },
        };
        match inits[0].1 {
            ExprV::Init { initializers, .. } => {
                assert(decreases_to!(inits => inits[0]));
                lemma_t_flatten_checked(ts, initializers);
            },
            other => {
                lemma_t_expr_checked(ts, other);
                if let Some((ts1, v)) = t_expr(ts, other) {
                    lemma_exprs_checked_one(v);
                }
            },
        }
        if let Some((ts1, vs)) = first {
            lemma_t_flatten_checked(ts1, inits.drop_first());
            if let Some((ts2, ws)) = t_flatten(ts1, inits.drop_first()) {
                lemma_exprs_checked_concat(vs, ws);
            }
        }
    }
}

proof fn lemma_t_condition_checked(ts: TState, c: ExprV)
    ensures
        t_condition(ts, c) matches Some((_, v)) ==> expr_checked(v),
{
    lemma_leaves_checked();
    lemma_t_expr_checked(ts, c);
    if let ExprV::Int(l) = c {
        assert(expr_checked(IExpr::ConstInt(l.value)));
        assert(expr_checked(IExpr::ConstInt(0)));
    }
}

/// A translated statement is checked.
pub proof fn lemma_t_stmt_checked(ts: TState, s: StmtV)
    ensures
        t_stmt(ts, s) matches Some((_, v)) ==> stmt_checked(v),
    decreases s,
{
    lemma_leaves_checked();
    match s {
        StmtV::If { condition, is, otherwise } => {
            lemma_t_condition_checked(ts, condition);
            if let Some((ts1, c)) = t_condition(ts, condition) {
                let (ts2, t) = next_label(ts1);
                let (ts3, f) = next_label(ts2);
                let (ts4, done) = next_label(ts3);
                lemma_t_stmts_checked(ts4, is);
                if let Some((ts5, iss)) = t_stmts(ts4, is) {
                    lemma_t_stmts_checked(ts5, otherwise);
                    lemma_seq_of_checked(iss);
                    if let Some((ts6, oss)) = t_stmts(ts5, otherwise) {
                        lemma_seq_of_checked(oss);
                        if let Some(rel) = condition_of(c) {
                            let cj = IStmt::CJump { op: BinOp::Cmp(rel), condition: Box::new(c), t, f };
                            let a1 = IStmt::Sequence { left: Box::new(IStmt::Label(t)), right: Some(Box::new(seq_of(iss))) };
                            let a2 = IStmt::Sequence { left: Box::new(cj), right: Some(Box::new(a1)) };
                            let a3 = IStmt::Sequence { left: Box::new(a2), right: Some(Box::new(IStmt::Jump(done))) };
                            let a4 = IStmt::Sequence { left: Box::new(IStmt::Label(f)), right: Some(Box::new(seq_of(oss))) };
                            let a5 = IStmt::Sequence { left: Box::new(a3), right: Some(Box::new(a4)) };
                            assert(stmt_checked(cj));
                            assert(stmt_checked(IStmt::Label(t)));
                            assert(stmt_checked(IStmt::Label(f)));
                            assert(stmt_checked(IStmt::Label(done)));
                            assert(stmt_checked(IStmt::Jump(done)));
                            assert(stmt_checked(a1));
                            assert(stmt_checked(a2));
                            assert(stmt_checked(a3));
                            assert(stmt_checked(a4));
                            assert(stmt_checked(a5));
                            assert(stmt_checked(IStmt::Sequence { left: Box::new(a5), right: Some(Box::new(IStmt::Label(done))) }));
                        }
                    }
                }
            }
        },
        StmtV::While { condition, body } => {
            lemma_t_condition_checked(ts, condition);
            if let Some((ts1, c)) = t_condition(ts, condition) {
                let (ts2, t) = next_label(ts1);
                let (ts3, f) = next_label(ts2);
                let (ts4, test) = next_label(ts3);
                lemma_t_stmts_checked(ts4, body);
                if let Some((ts5, bs)) = t_stmts(ts4, body) {
                    assert(stmt_checked(IStmt::Jump(test)));
                    assert(stmts_checked(bs.push(IStmt::Jump(test)))) by {
                        assert forall|i: int| 0 <= i < bs.push(IStmt::Jump(test)).len() implies stmt_checked(#[trigger] bs.push(IStmt::Jump(test))[i]) by {
                            if i < bs.len() {
                                assert(bs.push(IStmt::Jump(test))[i] == bs[i]);
                            }
                        }
                    }
                    lemma_seq_of_checked(bs.push(IStmt::Jump(test)));
                    if let Some(rel) = condition_of(c) {
                        let cj = IStmt::CJump { op: BinOp::Cmp(rel), condition: Box::new(c), t, f };
                        let a1 = IStmt::Sequence { left: Box::new(IStmt::Label(test)), right: Some(Box::new(cj)) };
                        let a2 = IStmt::Sequence { left: Box::new(IStmt::Label(t)), right: Some(Box::new(seq_of(bs.push(IStmt::Jump(test))))) };
                        let a3 = IStmt::Sequence { left: Box::new(a1), right: Some(Box::new(a2)) };
                        assert(stmt_checked(cj));
                        assert(stmt_checked(IStmt::Label(test)));
                        assert(stmt_checked(IStmt::Label(t)));
                        assert(stmt_checked(IStmt::Label(f)));
                        assert(stmt_checked(a1));
                        assert(stmt_checked(a2));
                        assert(stmt_checked(a3));
                        assert(stmt_checked(IStmt::Sequence { left: Box::new(a3), right: Some(Box::new(IStmt::Label(f))) }));
                    }
                }
            }
        },
        StmtV::Assign { target, expr } => {
            lemma_t_expr_checked(ts, target);
            if let Some((ts1, t)) = t_expr(ts, target) {
                lemma_t_expr_checked(ts1, expr);
                if let Some((ts2, e)) = t_expr(ts1, expr) {
                    lemma_checked_pair(ts2, t, e);
                }
            }
        },
        StmtV::Expr(e) => lemma_t_expr_checked(ts, e),
        StmtV::Return { expr, .. } => {
            lemma_t_expr_checked(ts, expr);
            if let Some((ts1, v)) = t_expr(ts, expr) {
                lemma_checked_pair(ts1, IExpr::Temp(return_register()), v);
                assert(expr_checked(IExpr::Temp(return_register())));
            }
        },
        StmtV::Var { name, expr, .. } => {
            if let Some(f) = current_frame(ts) {
                if let Some((f2, off)) = frame_alloc(f, token_text(name), 1) {
                    lemma_t_expr_checked(with_frame(ts, f2), expr);
                    if let Some((ts1, v)) = t_expr(with_frame(ts, f2), expr) {
                        assert(expr_checked(slot(off)));
                        lemma_checked_pair(ts1, slot(off), v);
                    }
                }
            }
        },
        StmtV::For { .. } => {},
    }
}

/// Translated statements are checked.
pub proof fn lemma_t_stmts_checked(ts: TState, ss: Seq<StmtV>)
    ensures
        t_stmts(ts, ss) matches Some((_, vs)) ==> stmts_checked(vs),
    decreases ss,
{
    if ss.len() > 0 {
        lemma_t_stmt_checked(ts, ss[0]);
        if let Some((ts1, v)) = t_stmt(ts, ss[0]) {
            lemma_t_stmts_checked(ts1, ss.drop_first());
            if let Some((ts2, vs)) = t_stmts(ts1, ss.drop_first()) {
                assert(stmts_checked(seq![v]));
                lemma_stmts_checked_concat(seq![v], vs);
            }
        }
    }
}

/// No statement of a translated program moves a value from memory straight into memory, and
/// no binary operation in it takes both operands from memory: the translation copies such a
/// source into a temporary first.
pub proof fn law_translation_checked(ts: TState, ds: Seq<DeclV>)
    ensures
        t_decls(ts, ds) matches Some((_, ir)) ==> stmts_checked(ir),
    decreases ds.len(),
{
    if ds.len() > 0 {
        match ds[0] {
            DeclV::Function(f) => {
                if let Some(frame) = frame_of_params(f.params) {
                    let ts1 = TState { frames: ts.frames.push((f.id, frame)), function: Some(f.id), ..ts };
                    lemma_t_stmts_checked(ts1, f.body);
                    if let Some((ts2, body)) = t_stmts(ts1, f.body) {
                        let all = seq![IStmt::Label(token_text(f.name))] + body;
                        assert(stmts_checked(all)) by {
                            assert(stmts_checked(seq![IStmt::Label(token_text(f.name))]));
                            lemma_stmts_checked_concat(seq![IStmt::Label(token_text(f.name))], body);
                        }
                        lemma_seq_of_checked(all);
                    }
                }
            },
            _ => {},
        }
        if let Some((ts1, v)) = t_decl(ts, ds[0]) {
            law_translation_checked(ts1, ds.drop_first());
            if let Some((ts2, vs)) = t_decls(ts1, ds.drop_first()) {
                assert(stmts_checked(seq![v]));
                lemma_stmts_checked_concat(seq![v], vs);
            }
        }
    }
}

// ----------------------------------------------------------------------
// Fresh labels
// ----------------------------------------------------------------------

/// The labels that a statement defines, in order.
pub open spec fn stmt_labels(s: IStmt) -> Seq<Seq<char>>
    decreases s,
{
    match s {
        IStmt::Label(l) => seq![l],
        IStmt::Sequence { left, right } => stmt_labels(*left) + match right {
            Some(r) => stmt_labels(*r),
            None => Seq::empty(),
        },
        _ => Seq::empty(),
    }
}

/// The labels that statements define, in order.
pub open spec fn stmts_labels(ss: Seq<IStmt>) -> Seq<Seq<char>>
    decreases ss.len(),
{
    if ss.len() == 0 {
        Seq::empty()
    } else {
        stmt_labels(ss[0]) + stmts_labels(ss.drop_first())
    }
}

/// How many labels the translation of a statement draws.
pub open spec fn label_demand(s: StmtV) -> nat
    decreases s,
{
    match s {
        StmtV::If { is, otherwise, .. } => 3 + label_demands(is) + label_demands(otherwise),
        StmtV::While { body, .. } => 3 + label_demands(body),
        _ => 0,
    }
}

/// How many labels the translation of statements draws.
pub open spec fn label_demands(ss: Seq<StmtV>) -> nat
    decreases ss,
{
    if ss.len() == 0 {
        0
    } else {
        label_demand(ss[0]) + label_demands(ss.drop_first())
    }
}

/// The numbers from `lo` (inclusive) to `hi` (exclusive).
pub open spec fn numbers(lo: int, hi: int) -> Set<nat> {
    Set::new(|k: nat| lo <= k < hi)
}

/// The number of a label named by `label_name`.
pub open spec fn label_number(l: Seq<char>) -> nat {
    crate::text::digits_value(l.drop_first())
}

/// Whether no label occurs twice in `ls`, and each is the label numbered by a member of `nums`.
pub open spec fn fresh_in(ls: Seq<Seq<char>>, nums: Set<nat>) -> bool {
    &&& forall|i: int, j: int| 0 <= i < ls.len() && 0 <= j < ls.len() && i != j ==> ls[i] != ls[j]
    &&& forall|i: int| 0 <= i < ls.len() ==> nums.contains(label_number(#[trigger] ls[i]))
        && ls[i] == label_name(label_number(ls[i]))
}

proof fn lemma_label_number(k: nat)
    ensures
        label_number(label_name(k)) == k,
{
    crate::text::law_decimal_roundtrip(k);
    assert(label_name(k).drop_first() == decimal(k));
}

proof fn lemma_fresh_one(k: nat, nums: Set<nat>)
    requires
        nums.contains(k),
    ensures
        fresh_in(seq![label_name(k)], nums),
{
    lemma_label_number(k);
    assert(seq![label_name(k)][0] == label_name(k));
}

proof fn lemma_fresh_empty(nums: Set<nat>)
    ensures
        fresh_in(Seq::empty(), nums),
{
}

proof fn lemma_fresh_widen(a: Seq<Seq<char>>, small: Set<nat>, large: Set<nat>)
    requires
        fresh_in(a, small),
        small.subset_of(large),
    ensures
        fresh_in(a, large),
{
}

proof fn lemma_fresh_concat(a: Seq<Seq<char>>, b: Seq<Seq<char>>, na: Set<nat>, nb: Set<nat>)
    requires
        fresh_in(a, na),
        fresh_in(b, nb),
        na.disjoint(nb),
    ensures
        fresh_in(a + b, na.union(nb)),
{
    let c = a + b;
    assert forall|i: int| 0 <= i < c.len() implies na.union(nb).contains(label_number(#[trigger] c[i]))
        && c[i] == label_name(label_number(c[i])) by {
        if i < a.len() {
            assert(c[i] == a[i]);
        } else {
            assert(c[i] == b[i - a.len()]);
        }
    }
    assert forall|i: int, j: int| 0 <= i < c.len() && 0 <= j < c.len() && i != j implies c[i] != c[j] by {
        if i < a.len() && j < a.len() {
            assert(c[i] == a[i] && c[j] == a[j]);
        } else if i >= a.len() && j >= a.len() {
            assert(c[i] == b[i - a.len()] && c[j] == b[j - a.len()]);
        } else if i < a.len() {
            assert(c[i] == a[i] && c[j] == b[j - a.len()]);
            assert(na.contains(label_number(a[i])));
            assert(nb.contains(label_number(b[j - a.len()])));
        } else {
            assert(c[j] == a[j] && c[i] == b[i - a.len()]);
            assert(na.contains(label_number(a[j])));
            assert(nb.contains(label_number(b[i - a.len()])));
        }
    }
}

proof fn lemma_stmts_labels_concat(a: Seq<IStmt>, b: Seq<IStmt>)
    ensures
        stmts_labels(a + b) == stmts_labels(a) + stmts_labels(b),
    decreases a.len(),
{
    if a.len() == 0 {
        assert(a + b == b);
    } else {
        assert((a + b)[0] == a[0]);
        assert((a + b).drop_first() == a.drop_first() + b);
        lemma_stmts_labels_concat(a.drop_first(), b);
    }
}

proof fn lemma_seq_of_labels(ss: Seq<IStmt>)
    ensures
        stmt_labels(seq_of(ss)) == stmts_labels(ss),
    decreases ss.len(),
{
    if ss.len() == 1 {
        assert(ss.drop_first().len() == 0);
        assert(stmts_labels(ss.drop_first()) == Seq::<Seq<char>>::empty());
        assert(stmts_labels(ss) =~= stmt_labels(ss[0]));
    } else if ss.len() > 1 {
        lemma_seq_of_labels(ss.drop_first());
    }
}

proof fn lemma_t_expr_labels(ts: TState, e: ExprV)
    ensures
        t_expr(ts, e) matches Some((ts2, _)) ==> ts2.labels == ts.labels,
    decreases e,
{
    match e {
        ExprV::Binary(left, op, right) => {
            lemma_t_expr_labels(ts, *left);
            if let Some((ts1, l)) = t_expr(ts, *left) {
                lemma_t_expr_labels(ts1, *right);
            }
        },
        ExprV::Unary(_, inner) => lemma_t_expr_labels(ts, *inner),
        ExprV::Call { args, .. } => lemma_t_exprs_labels(ts, args),
        ExprV::Init { initializers, .. } => {
            lemma_t_flatten_labels(ts, initializers);
            if let Some((ts1, values)) = t_flatten(ts, initializers) {
                let name = temp_name(ts1.temps as nat);
                let ts2 = TState { temps: bump(ts1.temps), ..ts1 };
                if let Some(f) = current_frame(ts2) {
                    if let Some((f2, begin)) = frame_alloc(f, name, values.len()) {
                        let n = values.len();
                        if n >= 1 {
                            let end = begin - word() * (n - 1);
                            lemma_t_stores_labels(with_frame(ts2, f2), end, values);
                        }
                    }
                }
            }
        },
        _ => {},
    }
}

proof fn lemma_t_exprs_labels(ts: TState, es: Seq<ExprV>)
    ensures
        t_exprs(ts, es) matches Some((ts2, _)) ==> ts2.labels == ts.labels,
    decreases es,
{
    if es.len() > 0 {
        lemma_t_expr_labels(ts, es[0]);
        if let Some((ts1, v)) = t_expr(ts, es[0]) {
            lemma_t_exprs_labels(ts1, es.drop_first());
        }
    }
}

proof fn lemma_t_flatten_labels(ts: TState, inits: Seq<(Token, ExprV)>)
    ensures
        t_flatten(ts, inits) matches Some((ts2, _)) ==> ts2.labels == ts.labels,
    decreases inits,
{
    if inits.len() > 0 {
        let first = match inits[0].1 {
            ExprV::Init { initializers, .. } => t_flatten(ts, initializers),
            other => match t_expr(ts, other) {
                None => None,
                Some((ts1, v)) => Some((ts1, seq![v])),
            },
        };
        match inits[0].1 {
            ExprV::Init { initializers, .. } => {
                assert(decreases_to!(inits => inits[0]));
                lemma_t_flatten_labels(ts, initializers);
            },
            other => lemma_t_expr_labels(ts, other),
        }
        if let Some((ts1, vs)) = first {
            lemma_t_flatten_labels(ts1, inits.drop_first());
        }
    }
}

proof fn lemma_t_stores_labels(ts: TState, offset: int, values: Seq<IExpr>)
    ensures
        t_stores(ts, offset, values).0.labels == ts.labels,
    decreases values.len(),
{
    if values.len() > 0 {
        let target = IExpr::Binary {
            op: BinOp::Plus,
            left: Box::new(IExpr::Temp(frame_register())),
            right: Box::new(IExpr::ConstInt(offset as i64)),
        };
        let (ts1, m) = t_move(ts, target, values[0]);
        lemma_t_stores_labels(ts1, offset + word(), values.drop_first());
    }
}

#[verifier::rlimit(50)]
/// The labels a translated statement defines are fresh: each is drawn from the label counter
/// while the statement is translated, and none is defined twice.
pub proof fn lemma_t_stmt_labels(ts: TState, s: StmtV)
    requires
        ts.labels + label_demand(s) <= usize::MAX,
    ensures
        t_stmt(ts, s) matches Some((ts2, v)) ==> ts2.labels == ts.labels + label_demand(s)
            && fresh_in(stmt_labels(v), numbers(ts.labels as int, ts2.labels as int)),
    decreases s,
{
    let n = ts.labels as int;
    match s {
        StmtV::If { condition, is, otherwise } => {
            lemma_t_expr_labels(ts, condition);
            if let Some((ts1, c)) = t_condition(ts, condition) {
                let (ts2, t) = next_label(ts1);
                let (ts3, f) = next_label(ts2);
                let (ts4, done) = next_label(ts3);
                assert(ts4.labels == n + 3);
                lemma_t_stmts_labels(ts4, is);
                if let Some((ts5, iss)) = t_stmts(ts4, is) {
                    lemma_t_stmts_labels(ts5, otherwise);
                    if let Some((ts6, oss)) = t_stmts(ts5, otherwise) {
                        if let Some(rel) = condition_of(c) {
                            let m1 = n + 3 + label_demands(is);
                            let m = ts6.labels as int;
                            lemma_seq_of_labels(iss);
                            lemma_seq_of_labels(oss);
                            let cj = IStmt::CJump { op: BinOp::Cmp(rel), condition: Box::new(c), t, f };
                            let a1 = IStmt::Sequence { left: Box::new(IStmt::Label(t)), right: Some(Box::new(seq_of(iss))) };
                            let a2 = IStmt::Sequence { left: Box::new(cj), right: Some(Box::new(a1)) };
                            let a3 = IStmt::Sequence { left: Box::new(a2), right: Some(Box::new(IStmt::Jump(done))) };
                            let a4 = IStmt::Sequence { left: Box::new(IStmt::Label(f)), right: Some(Box::new(seq_of(oss))) };
                            let a5 = IStmt::Sequence { left: Box::new(a3), right: Some(Box::new(a4)) };
                            let a6 = IStmt::Sequence { left: Box::new(a5), right: Some(Box::new(IStmt::Label(done))) };
                            assert(stmt_labels(IStmt::Label(t)) == seq![t]);
                            assert(stmt_labels(IStmt::Label(f)) == seq![f]);
                            assert(stmt_labels(IStmt::Label(done)) == seq![done]);
                            assert(stmt_labels(IStmt::Jump(done)) == Seq::<Seq<char>>::empty());
                            assert(stmt_labels(a1) == seq![t] + stmts_labels(iss));
                            assert(stmt_labels(cj) == Seq::<Seq<char>>::empty());
                            assert(stmt_labels(a2) =~= stmt_labels(a1));
                            assert(stmt_labels(a3) =~= stmt_labels(a2));
                            assert(stmt_labels(a4) == seq![f] + stmts_labels(oss));
                            assert(stmt_labels(a5) == stmt_labels(a3) + stmt_labels(a4));
                            assert(stmt_labels(a6) == stmt_labels(a3) + stmt_labels(a4) + seq![done]);
                            let s_t = numbers(n, n + 1);
                            let s_f = numbers(n + 1, n + 2);
                            let s_d = numbers(n + 2, n + 3);
                            let s_i = numbers(n + 3, m1);
                            let s_o = numbers(m1, m);
                            lemma_fresh_one(n as nat, s_t);
                            lemma_fresh_one((n + 1) as nat, s_f);
                            lemma_fresh_one((n + 2) as nat, s_d);
                            lemma_fresh_concat(seq![t], stmts_labels(iss), s_t, s_i);
                            lemma_fresh_concat(seq![f], stmts_labels(oss), s_f, s_o);
                            lemma_fresh_concat(stmt_labels(a3), stmt_labels(a4), s_t.union(s_i), s_f.union(s_o));
                            lemma_fresh_concat(
                                stmt_labels(a3) + stmt_labels(a4),
                                seq![done],
                                s_t.union(s_i).union(s_f.union(s_o)),
                                s_d,
                            );
                            lemma_fresh_widen(
                                stmt_labels(a6),
                                s_t.union(s_i).union(s_f.union(s_o)).union(s_d),
                                numbers(n, m),
                            );
                        }
                    }
                }
            }
        },
        StmtV::While { condition, body } => {
            lemma_t_expr_labels(ts, condition);
            if let Some((ts1, c)) = t_condition(ts, condition) {
                let (ts2, t) = next_label(ts1);
                let (ts3, f) = next_label(ts2);
                let (ts4, test) = next_label(ts3);
                assert(ts4.labels == n + 3);
                lemma_t_stmts_labels(ts4, body);
                if let Some((ts5, bs)) = t_stmts(ts4, body) {
                    if let Some(rel) = condition_of(c) {
                        let m = ts5.labels as int;
                        let body_all = bs.push(IStmt::Jump(test));
                        lemma_seq_of_labels(body_all);
                        assert(body_all == bs + seq![IStmt::Jump(test)]);
                        lemma_stmts_labels_concat(bs, seq![IStmt::Jump(test)]);
                        assert(stmts_labels(seq![IStmt::Jump(test)]) =~= Seq::<Seq<char>>::empty()) by {
                            let one = seq![IStmt::Jump(test)];
                            assert(one[0] == IStmt::Jump(test));
                            assert(one.drop_first().len() == 0);
                            assert(stmts_labels(one.drop_first()) == Seq::<Seq<char>>::empty());
                            assert(stmt_labels(IStmt::Jump(test)) == Seq::<Seq<char>>::empty());
                        }
                        assert(stmts_labels(body_all) =~= stmts_labels(bs));
                        let cj = IStmt::CJump { op: BinOp::Cmp(rel), condition: Box::new(c), t, f };
                        let a1 = IStmt::Sequence { left: Box::new(IStmt::Label(test)), right: Some(Box::new(cj)) };
                        let a2 = IStmt::Sequence { left: Box::new(IStmt::Label(t)), right: Some(Box::new(seq_of(body_all))) };
                        let a3 = IStmt::Sequence { left: Box::new(a1), right: Some(Box::new(a2)) };
                        let a4 = IStmt::Sequence { left: Box::new(a3), right: Some(Box::new(IStmt::Label(f))) };
                        assert(stmt_labels(cj) == Seq::<Seq<char>>::empty());
                        assert(stmt_labels(IStmt::Label(test)) == seq![test]);
                        assert(stmt_labels(IStmt::Label(t)) == seq![t]);
                        assert(stmt_labels(IStmt::Label(f)) == seq![f]);
                        assert(stmt_labels(a1) =~= seq![test]);
                        assert(stmt_labels(a2) == seq![t] + stmts_labels(bs));
                        assert(stmt_labels(a3) == stmt_labels(a1) + stmt_labels(a2));
                        assert(stmt_labels(a4) == stmt_labels(a1) + stmt_labels(a2) + seq![f]);
                        let s_t = numbers(n, n + 1);
                        let s_f = numbers(n + 1, n + 2);
                        let s_x = numbers(n + 2, n + 3);
                        let s_b = numbers(n + 3, m);
                        lemma_fresh_one(n as nat, s_t);
                        lemma_fresh_one((n + 1) as nat, s_f);
                        lemma_fresh_one((n + 2) as nat, s_x);
                        lemma_fresh_concat(seq![t], stmts_labels(bs), s_t, s_b);
                        lemma_fresh_concat(seq![test], stmt_labels(a2), s_x, s_t.union(s_b));
                        lemma_fresh_concat(stmt_labels(a1) + stmt_labels(a2), seq![f], s_x.union(s_t.union(s_b)), s_f);
                        lemma_fresh_widen(stmt_labels(a4), s_x.union(s_t.union(s_b)).union(s_f), numbers(n, m));
                    }
                }
            }
        },
        StmtV::Assign { target, expr } => {
            lemma_t_expr_labels(ts, target);
            if let Some((ts1, t)) = t_expr(ts, target) {
                lemma_t_expr_labels(ts1, expr);
            }
        },
        StmtV::Expr(e) => lemma_t_expr_labels(ts, e),
        StmtV::Return { expr, .. } => lemma_t_expr_labels(ts, expr),
        StmtV::Var { name, expr, .. } => {
            if let Some(f) = current_frame(ts) {
                if let Some((f2, off)) = frame_alloc(f, token_text(name), 1) {
                    lemma_t_expr_labels(with_frame(ts, f2), expr);
                }
            }
        },
        StmtV::For { .. } => {},
    }
}

/// The labels that translated statements define are fresh.
pub proof fn lemma_t_stmts_labels(ts: TState, ss: Seq<StmtV>)
    requires
        ts.labels + label_demands(ss) <= usize::MAX,
    ensures
        t_stmts(ts, ss) matches Some((ts2, vs)) ==> ts2.labels == ts.labels + label_demands(ss)
            && fresh_in(stmts_labels(vs), numbers(ts.labels as int, ts2.labels as int)),
    decreases ss,
{
    if ss.len() == 0 {
        lemma_fresh_empty(numbers(ts.labels as int, ts.labels as int));
    } else {
        lemma_t_stmt_labels(ts, ss[0]);
        if let Some((ts1, v)) = t_stmt(ts, ss[0]) {
            lemma_t_stmts_labels(ts1, ss.drop_first());
            if let Some((ts2, vs)) = t_stmts(ts1, ss.drop_first()) {
                assert((seq![v] + vs)[0] == v);
                assert((seq![v] + vs).drop_first() == vs);
                lemma_fresh_concat(
                    stmt_labels(v),
                    stmts_labels(vs),
                    numbers(ts.labels as int, ts1.labels as int),
                    numbers(ts1.labels as int, ts2.labels as int),
                );
                lemma_fresh_widen(
                    stmts_labels(seq![v] + vs),
                    numbers(ts.labels as int, ts1.labels as int).union(numbers(ts1.labels as int, ts2.labels as int)),
                    numbers(ts.labels as int, ts2.labels as int),
                );
            }
        }
    }
}

/// How many labels the translation of a declaration draws.
pub open spec fn decl_label_demand(d: DeclV) -> nat {
    match d {
        DeclV::Function(f) => label_demands(f.body),
        _ => 0,
    }
}

/// How many labels the translation of declarations draws.
pub open spec fn decls_label_demand(ds: Seq<DeclV>) -> nat
    decreases ds.len(),
{
    if ds.len() == 0 {
        0
    } else {
        decl_label_demand(ds[0]) + decls_label_demand(ds.drop_first())
    }
}

/// The labels defined inside translated declarations, in order, each declaration's first
/// label (a function's own name) left out.
pub open spec fn body_labels(ir: Seq<IStmt>) -> Seq<Seq<char>>
    decreases ir.len(),
{
    if ir.len() == 0 {
        Seq::empty()
    } else {
        let l = stmt_labels(ir[0]);
        (if l.len() > 0 { l.drop_first() } else { l }) + body_labels(ir.drop_first())
    }
}

/// The labels that the translation of a program draws for its control flow are fresh: they
/// are numbered consecutively from the label counter on, and none is defined twice (a
/// function's own label is its name and is not counted among them). This holds as long as
/// the counter does not pass the largest machine number.
pub proof fn law_fresh_labels(ts: TState, ds: Seq<DeclV>)
    requires
        ts.labels + decls_label_demand(ds) <= usize::MAX,
    ensures
        t_decls(ts, ds) matches Some((ts2, ir)) ==> ts2.labels == ts.labels + decls_label_demand(ds)
            && fresh_in(body_labels(ir), numbers(ts.labels as int, ts2.labels as int)),
    decreases ds.len(),
{
    if ds.len() == 0 {
        lemma_fresh_empty(numbers(ts.labels as int, ts.labels as int));
    } else {
        if let Some((ts1, v)) = t_decl(ts, ds[0]) {
            let l = stmt_labels(v);
            let own = if l.len() > 0 { l.drop_first() } else { l };
            match ds[0] {
                DeclV::Function(f) => {
                    let frame = frame_of_params(f.params)->0;
                    let tsf = TState { frames: ts.frames.push((f.id, frame)), function: Some(f.id), ..ts };
                    lemma_t_stmts_labels(tsf, f.body);
                    let body = (t_stmts(tsf, f.body)->0).1;
                    let all = seq![IStmt::Label(token_text(f.name))] + body;
                    lemma_seq_of_labels(all);
                    lemma_stmts_labels_concat(seq![IStmt::Label(token_text(f.name))], body);
                    assert(stmts_labels(seq![IStmt::Label(token_text(f.name))]) =~= seq![token_text(f.name)]) by {
                        let one = seq![IStmt::Label(token_text(f.name))];
                        assert(one[0] == IStmt::Label(token_text(f.name)));
                        assert(one.drop_first().len() == 0);
                        assert(stmts_labels(one.drop_first()) == Seq::<Seq<char>>::empty());
                    }
                    assert(own =~= stmts_labels(body));
                },
                DeclV::Record { .. } => {
                    assert(own =~= Seq::<Seq<char>>::empty());
                    lemma_fresh_empty(numbers(ts.labels as int, ts1.labels as int));
                },
                _ => {},
            }
            law_fresh_labels(ts1, ds.drop_first());
            if let Some((ts2, vs)) = t_decls(ts1, ds.drop_first()) {
                let ir = seq![v] + vs;
                assert(ir[0] == v);
                assert(ir.drop_first() == vs);
                lemma_fresh_concat(
                    own,
                    body_labels(vs),
                    numbers(ts.labels as int, ts1.labels as int),
                    numbers(ts1.labels as int, ts2.labels as int),
                );
                lemma_fresh_widen(
                    body_labels(ir),
                    numbers(ts.labels as int, ts1.labels as int).union(numbers(ts1.labels as int, ts2.labels as int)),
                    numbers(ts.labels as int, ts2.labels as int),
                );
            }
        }
    }
}

// ----------------------------------------------------------------------
// Executable frames and translator
// ----------------------------------------------------------------------

/// The locals of a frame, each with its offset from the frame register, and the number of
/// bytes they take.
#[derive(Debug)]
pub struct Frame {
    pub locals: Vec<(String, i64)>,
    pub size: i64,
}

pub open spec fn locals_view(l: Seq<(String, i64)>) -> Seq<(Seq<char>, i64)> {
    Seq::new(l.len(), |i: int| (l[i].0@, l[i].1))
}

impl View for Frame {
    type V = FrameV;

    open spec fn view(&self) -> FrameV {
        FrameV { locals: locals_view(self.locals@), size: self.size }
    }
}

fn frame_reg() -> (r: String)
    ensures
        r@ == frame_register(),
{
    String::from_str("rbp")
}

fn slot_expr(offset: i64) -> (r: Expr)
    ensures
        r@ == slot(offset),
{
    let base = Expr::Temp(frame_reg());
    let off = Expr::ConstInt(offset);
    assert(base@ == IExpr::Temp(frame_register()));
    assert(off@ == IExpr::ConstInt(offset));
    let sum = Expr::Binary { op: BinOp::Plus, left: Box::new(base), right: Box::new(off) };
    assert(sum@ == (IExpr::Binary {
        op: BinOp::Plus,
        left: Box::new(IExpr::Temp(frame_register())),
        right: Box::new(IExpr::ConstInt(offset)),
    }));
    Expr::Mem(Box::new(sum))
}

impl Frame {
    /// The size of a word, in bytes.
    pub fn word_size() -> (r: usize)
        ensures
            r == word(),
    {
        8
    }

    /// The frame of a function: a word for each parameter.
    pub fn new(function: &FuncDecl) -> (r: Frame)
        requires
            frame_of_params(view_params(function.params@)) is Some,
        ensures
            r@ == frame_of_params(view_params(function.params@))->0,
    {
        let mut frame = Frame { locals: Vec::new(), size: 0 };
        let ghost ps = view_params(function.params@);
        proof {
            assert(locals_view(frame.locals@) =~= Seq::<(Seq<char>, i64)>::empty());
            assert(ps.skip(0) == ps);
        }
        let mut i: usize = 0;
        while i < function.params.len()
            invariant
                i <= function.params.len(),
                ps == view_params(function.params@),
                frame_of_params(ps) == frame_with_params(frame@, ps.skip(i as int)),
                frame_of_params(ps) is Some,
            decreases function.params.len() - i,
        {
            proof {
                lemma_view_params_index(function.params@, i as int);
                assert(ps.skip(i as int)[0] == ps[i as int]);
                assert(ps.skip(i as int).drop_first() == ps.skip(i + 1));
            }
            frame.reserve(function.params[i].name.text(), 1);
            i = i + 1;
        }
        proof {
            crate::ast::lemma_view_params_len(function.params@);
            assert(ps.skip(i as int).len() == 0);
        }
        frame
    }

    /// Reserves `words` words for `name`, giving the offset of the first.
    fn reserve(&mut self, name: String, words: usize) -> (r: i64)
        requires
            frame_alloc(old(self)@, name@, words as nat) is Some,
        ensures
            (final(self)@, r) == frame_alloc(old(self)@, name@, words as nat)->0,
    {
        let begin = -(self.size + 8);
        self.size = self.size + 8 * (words as i64);
        let ghost before = self.locals@;
        self.locals.push((name, begin));
        proof {
            assert(locals_view(self.locals@) =~= locals_view(before).push((name@, begin)));
        }
        begin
    }

    /// Reserves `words` words for `name`, giving the memory word of the first.
    pub fn allocate(&mut self, name: String, words: usize) -> (r: Expr)
        requires
            frame_alloc(old(self)@, name@, words as nat) is Some,
        ensures
            final(self)@ == (frame_alloc(old(self)@, name@, words as nat)->0).0,
            r@ == slot((frame_alloc(old(self)@, name@, words as nat)->0).1),
    {
        let begin = self.reserve(name, words);
        slot_expr(begin)
    }

    /// The offset of the local `name`, if the frame has one.
    pub fn get_offset(&self, name: &str) -> (r: Option<i64>)
        ensures
            r == local_offset(self@.locals, name@),
    {
        let ghost v = locals_view(self.locals@);
        let mut i = self.locals.len();
        proof { assert(v.take(i as int) == v); }
        while i > 0
            invariant
                i <= self.locals@.len(),
                v == locals_view(self.locals@),
                local_offset(v, name@) == local_offset(v.take(i as int), name@),
            decreases i,
        {
            proof {
                assert(v.take(i as int).last() == v[i - 1]);
                assert(v.take(i as int).drop_last() == v.take(i - 1));
            }
            if crate::text::str_equal(self.locals[i - 1].0.as_str(), name) {
                return Some(self.locals[i - 1].1);
            }
            i = i - 1;
        }
        None
    }

    /// The memory word of the local `name`.
    pub fn get(&self, name: &str) -> (r: Expr)
        requires
            local_offset(self@.locals, name@) is Some,
        ensures
            r@ == slot(local_offset(self@.locals, name@)->0),
    {
        let offset = self.get_offset(name).unwrap();
        slot_expr(offset)
    }
}

/// A sequence of statements as one statement (see `seq_of`).
pub fn sequence(stmts: Vec<Stmt>) -> (r: Stmt)
    ensures
        r@ == seq_of(istmts(stmts@)),
{
    let ghost all = istmts(stmts@);
    let ghost n = stmts@.len();
    proof { lemma_istmts_len(stmts@); }
    let mut rest = stmts;
    if rest.len() == 0 {
        return Stmt::Noop;
    }
    let last = rest.pop().unwrap();
    proof { lemma_istmts_index(stmts@, n - 1); }
    let mut acc = last;
    proof { assert(all.subrange(n - 1, n as int) == seq![all[n - 1]]); }
    while rest.len() > 0
        invariant
            rest@ == stmts@.take(rest@.len() as int),
            rest@.len() < n,
            n == stmts@.len(),
            all == istmts(stmts@),
            all.len() == n,
            acc@ == seq_of(all.subrange(rest@.len() as int, n as int)),
        decreases rest@.len(),
    {
        let k = rest.len() - 1;
        let s = rest.pop().unwrap();
        proof {
            lemma_istmts_index(stmts@, k as int);
            let sub = all.subrange(k as int, n as int);
            assert(sub[0] == all[k as int]);
            assert(sub.drop_first() == all.subrange(k + 1, n as int));
            assert(rest@ == stmts@.take(k as int));
        }
        acc = Stmt::Sequence { left: Box::new(s), right: Some(Box::new(acc)) };
    }
    proof { assert(all.subrange(0, n as int) == all); }
    acc
}

/// Translates syntax trees into the intermediate representation, one frame per function.
pub struct Translator {
    pub functions: Vec<(usize, Frame)>,
    function: Option<usize>,
    temps: usize,
    labels: usize,
    eseqs: usize,
    accesses: Vec<(usize, String)>,
    records: Vec<(String, Vec<(String, String)>)>,
}

/// The view of the record each field access reads.
pub open spec fn accesses_view(v: Seq<(usize, String)>) -> Seq<(usize, Seq<char>)> {
    Seq::new(v.len(), |i: int| (v[i].0, v[i].1@))
}

/// The view of a list of fields (name, type name).
pub open spec fn fields_view(v: Seq<(String, String)>) -> Seq<(Seq<char>, Seq<char>)> {
    Seq::new(v.len(), |i: int| (v[i].0@, v[i].1@))
}

/// The view of the records' layouts.
pub open spec fn records_view(v: Seq<(String, Vec<(String, String)>)>) -> Seq<(Seq<char>, Seq<(Seq<char>, Seq<char>)>)> {
    Seq::new(v.len(), |i: int| (v[i].0@, fields_view(v[i].1@)))
}

pub open spec fn frames_view(v: Seq<(usize, Frame)>) -> Seq<(usize, FrameV)> {
    Seq::new(v.len(), |i: int| (v[i].0, v[i].1@))
}

impl View for Translator {
    type V = TState;

    closed spec fn view(&self) -> TState {
        TState {
            frames: frames_view(self.functions@),
            function: self.function,
            temps: self.temps,
            labels: self.labels,
            eseqs: self.eseqs,
            accesses: accesses_view(self.accesses@),
            records: records_view(self.records@),
        }
    }
}

/// The view of a list of names.
pub open spec fn names_of(v: Seq<String>) -> Seq<Seq<char>> {
    Seq::new(v.len(), |i: int| v[i]@)
}

/// Whether a type name names a built-in type.
fn is_builtin_type(name: &str) -> (r: bool)
    ensures
        r == builtin_type(name@),
{
    crate::text::str_equal(name, "str") || crate::text::str_equal(name, "int")
        || crate::text::str_equal(name, "float") || crate::text::str_equal(name, "bool")
        || crate::text::str_equal(name, "void")
}

/// The position of the last record called `name`.
fn find_record(records: &Vec<(String, Vec<(String, String)>)>, name: &str) -> (r: Option<usize>)
    ensures
        match record_fields(records_view(records@), name@) {
            Some(fs) => r is Some && r->0 < records@.len() && fields_view(records@[r->0 as int].1@) == fs,
            None => r is None,
        },
{
    let ghost all = records_view(records@);
    let mut i = records.len();
    assert(all.take(i as int) =~= all);
    while i > 0
        invariant
            i <= records@.len(),
            all == records_view(records@),
            record_fields(all, name@) == record_fields(all.take(i as int), name@),
        decreases i,
    {
        let ghost prefix = all.take(i as int);
        i = i - 1;
        assert(prefix.drop_last() =~= all.take(i as int));
        if crate::text::str_equal(records[i].0.as_str(), name) {
            return Some(i);
        }
    }
    None
}

/// The record that access `id` reads: the position of its last entry.
fn find_access(accesses: &Vec<(usize, String)>, id: usize) -> (r: Option<usize>)
    ensures
        match access_record(accesses_view(accesses@), id) {
            Some(rec) => r is Some && r->0 < accesses@.len() && accesses@[r->0 as int].1@ == rec,
            None => r is None,
        },
{
    let ghost all = accesses_view(accesses@);
    let mut i = accesses.len();
    assert(all.take(i as int) =~= all);
    while i > 0
        invariant
            i <= accesses@.len(),
            all == accesses_view(accesses@),
            access_record(all, id) == access_record(all.take(i as int), id),
        decreases i,
    {
        let ghost prefix = all.take(i as int);
        i = i - 1;
        assert(prefix.drop_last() =~= all.take(i as int));
        if accesses[i].0 == id {
            return Some(i);
        }
    }
    None
}

proof fn lemma_field_index(flat: Seq<Seq<char>>, name: Seq<char>, i: int)
    requires
        0 <= i <= flat.len(),
        forall|j: int| 0 <= j < i ==> flat[j] != name,
    ensures
        i < flat.len() && flat[i] == name ==> field_index(flat, name) == Some(i as nat),
        i == flat.len() ==> field_index(flat, name) is None,
    decreases flat.len(),
{
    if i > 0 {
        assert forall|j: int| 0 <= j < i - 1 implies flat.drop_first()[j] != name by {
            assert(flat.drop_first()[j] == flat[j + 1]);
        }
        lemma_field_index(flat.drop_first(), name, i - 1);
        assert(flat[0] != name);
    }
}

/// The flattened fields of record `name`.
fn flat_fields_exec(records: &Vec<(String, Vec<(String, String)>)>, name: &str, fuel: usize) -> (r: Vec<String>)
    requires
        flat_fields(records_view(records@), name@, fuel as nat) is Some,
    ensures
        flat_fields(records_view(records@), name@, fuel as nat) == Some(names_of(r@)),
    decreases fuel, 0nat, 0nat,
{
    if fuel == 0 {
        vstd::pervasive::unreached()
    } else {
        match find_record(records, name) {
            Some(k) => flat_list_exec(records, &records[k].1, fuel - 1),
            None => vstd::pervasive::unreached(),
        }
    }
}

/// The flattened fields of a list of fields.
fn flat_list_exec(records: &Vec<(String, Vec<(String, String)>)>, fs: &Vec<(String, String)>, fuel: usize) -> (r: Vec<String>)
    requires
        flat_list(records_view(records@), fields_view(fs@), fuel as nat) is Some,
    ensures
        flat_list(records_view(records@), fields_view(fs@), fuel as nat) == Some(names_of(r@)),
    decreases fuel, 1nat, fs@.len(),
{
    let ghost rv = records_view(records@);
    let ghost all = fields_view(fs@);
    let mut out: Vec<String> = Vec::new();
    let mut i: usize = 0;
    assert(all.skip(0) =~= all);
    assert(names_of(out@) =~= Seq::<Seq<char>>::empty());
    while i < fs.len()
        invariant
            i <= fs.len(),
            rv == records_view(records@),
            all == fields_view(fs@),
            flat_list(rv, all, fuel as nat) is Some,
            flat_list(rv, all, fuel as nat) == match flat_list(rv, all.skip(i as int), fuel as nat) {
                Some(b) => Some(names_of(out@) + b),
                None => None,
            },
        decreases fs.len() - i,
    {
        let ghost rest = all.skip(i as int);
        assert(rest[0] == (fs@[i as int].0@, fs@[i as int].1@));
        assert(rest.drop_first() =~= all.skip(i + 1));
        let ghost before = names_of(out@);
        if is_builtin_type(fs[i].1.as_str()) {
            out.push(fs[i].0.clone());
            assert(names_of(out@) =~= before + seq![fs@[i as int].0@]);
        } else {
            let mut nested = flat_fields_exec(records, fs[i].1.as_str(), fuel);
            let ghost nv = names_of(nested@);
            out.append(&mut nested);
            assert(names_of(out@) =~= before + nv);
        }
        proof {
            let tail = flat_list(rv, all.skip(i + 1), fuel as nat);
            if tail is Some {
                assert(names_of(out@) + tail->0 =~= before + ((names_of(out@).skip(before.len() as int)) + tail->0));
            }
        }
        i = i + 1;
    }
    assert(all.skip(i as int).len() == 0);
    assert(names_of(out@) + Seq::<Seq<char>>::empty() =~= names_of(out@));
    out
}

pub open spec fn prefixed<T>(a: Seq<T>, o: Option<(TState, Seq<T>)>) -> Option<(TState, Seq<T>)> {
    match o {
        Some((t, vs)) => Some((t, a + vs)),
        None => None,
    }
}

impl Translator {
    /// A translator that knows, for each field access, the record whose field it reads
    /// (`accesses`, by the access's number), and the layout of each record: its fields with
    /// their type names (`records`).
    pub fn new(accesses: Vec<(usize, String)>, records: Vec<(String, Vec<(String, String)>)>) -> (r: Self)
        ensures
            r@ == (TState {
                frames: Seq::empty(),
                function: None,
                temps: 0,
                labels: 0,
                eseqs: 0,
                accesses: accesses_view(accesses@),
                records: records_view(records@),
            }),
    {
        let r = Translator { functions: Vec::new(), function: None, temps: 0, labels: 0, eseqs: 0, accesses, records };
        assert(frames_view(r.functions@) =~= Seq::<(usize, FrameV)>::empty());
        r
    }

    /// The frame of each function translated so far.
    pub fn functions(&self) -> (r: &Vec<(usize, Frame)>)
        ensures
            frames_view(r@) == self@.frames,
    {
        &self.functions
    }

    /// The number of the next temporary.
    pub fn temps(&self) -> (r: usize)
        ensures
            r == self@.temps,
    {
        self.temps
    }

    /// The frame of the function being translated.
    pub fn frame(&self) -> (r: &Frame)
        requires
            current_frame(self@) is Some,
        ensures
            r@ == current_frame(self@)->0,
    {
        &self.functions[self.functions.len() - 1].1
    }

    fn fresh_temp(&mut self) -> (r: String)
        ensures
            r@ == temp_name(old(self)@.temps as nat),
            final(self)@ == (TState { temps: bump(old(self)@.temps), ..old(self)@ }),
    {
        let r = Temp::new(self.temps);
        self.temps = if self.temps == usize::MAX { 0 } else { self.temps + 1 };
        r
    }

    fn fresh_label(&mut self) -> (r: String)
        ensures
            (final(self)@, r@) == next_label(old(self)@),
    {
        let r = Label::new(self.labels);
        self.labels = if self.labels == usize::MAX { 0 } else { self.labels + 1 };
        r
    }

    fn fix(&mut self, expr: Box<Expr>) -> (r: Expr)
        ensures
            (final(self)@, r@) == t_fix(old(self)@, (*expr)@),
    {
        let temp = self.fresh_temp();
        let id = self.eseqs;
        self.eseqs = if id == usize::MAX { 0 } else { id + 1 };
        let target = Expr::Temp(temp.clone());
        assert(target@ == IExpr::Temp(temp@));
        let mv = Stmt::Move { target: Box::new(target), expr };
        assert(mv@ == (IStmt::Move { target: Box::new(IExpr::Temp(temp@)), expr: Box::new((*expr)@) }));
        let value = Expr::Temp(temp);
        assert(value@ == IExpr::Temp(temp@));
        Expr::ESeq { stmt: Box::new(mv), expr: Box::new(value), id }
    }

    fn checked(&mut self, left: &Expr, right: Expr) -> (r: Expr)
        ensures
            (final(self)@, r@) == t_checked(old(self)@, left@, right@),
    {
        let ghost rv = right@;
        match (left, right) {
            (Expr::Mem(_), Expr::Mem(inner)) => {
                let right = Expr::Mem(inner);
                assert(right@ == rv);
                self.fix(Box::new(right))
            },
            (Expr::Mem(_), Expr::ESeq { stmt, expr, id }) => {
                assert(rv == (IExpr::ESeq { stmt: Box::new((*stmt)@), expr: Box::new((*expr)@), id }));
                if matches!(*expr, Expr::Mem(_)) {
                    assert((*expr)@ is Mem);
                    let fixed = self.fix(expr);
                    let r = Expr::ESeq { stmt, expr: Box::new(fixed), id };
                    r
                } else {
                    assert(!((*expr)@ is Mem));
                    Expr::ESeq { stmt, expr, id }
                }
            },
            (l, r) => {
                assert(!(l@ is Mem) || !(r@ is Mem || r@ is ESeq));
                r
            },
        }
    }


    fn translate_expr(&mut self, e: &AstExpr) -> (r: Expr)
        requires
            t_expr(old(self)@, e@) is Some,
        ensures
            t_expr(old(self)@, e@) == Some((final(self)@, r@)),
        decreases e,
    {
        match e {
            AstExpr::Bool(l) => {
                let v: i64 = if l.value { 1 } else { 0 };
                assert(e@ == ExprV::Bool(*l));
                assert(t_expr(old(self)@, e@) == Some((old(self)@, IExpr::ConstInt(v))));
                Expr::ConstInt(v)
            },
            AstExpr::Float(l) => Expr::ConstFloat(l.value.clone()),
            AstExpr::Int(l) => Expr::ConstInt(l.value),
            AstExpr::Binary(b) => {
                let op = BinOp::from_kind(b.op.kind);
                let left = self.translate_expr(&b.left);
                let right = self.translate_expr(&b.right);
                self.checked_binary(op, Box::new(left), right)
            },
            AstExpr::Unary(u) => {
                if u.op.kind == Kind::Minus {
                    let zero = Expr::ConstInt(0);
                    assert(zero@ == IExpr::ConstInt(0));
                    let inner = self.translate_expr(&u.expr);
                    Expr::Binary { op: BinOp::Minus, left: Box::new(zero), right: Box::new(inner) }
                } else {
                    let inner = self.translate_expr(&u.expr);
                    let one = Expr::ConstInt(1);
                    assert(one@ == IExpr::ConstInt(1));
                    Expr::Binary { op: BinOp::Xor, left: Box::new(inner), right: Box::new(one) }
                }
            },
            AstExpr::Call(c) => {
                if let AstExpr::Ident(ident) = &*c.left {
                    let name = ident.name.text();
                    let args = self.translate_exprs(&c.args);
                    Expr::Call(name, args)
                } else {
                    proof { assert(!((*c.left)@ is Ident)); }
                    vstd::pervasive::unreached()
                }
            },
            AstExpr::Ident(ident) => {
                let name = ident.name.text();
                self.frame().get(name.as_str())
            },
            AstExpr::Init(init) => {
                let values = self.flatten(&init.initializers);
                self.init(values)
            },
            AstExpr::Access(a) => {
                assert(e@ == ExprV::Access { chain: view_exprs(a.chain@), id: a.id });
                self.translate_access(&a.chain, a.id)
            },
            _ => vstd::pervasive::unreached(),
        }
    }

    fn translate_access(&mut self, chain: &Vec<AstExpr>, id: usize) -> (r: Expr)
        requires
            t_access(old(self)@, view_exprs(chain@), id) is Some,
        ensures
            t_access(old(self)@, view_exprs(chain@), id) == Some((final(self)@, r@)),
    {
        let ghost ts = self@;
        let ghost cv = view_exprs(chain@);
        proof {
            crate::ast::lemma_view_exprs_len(chain@);
            crate::ast::lemma_view_exprs_index(chain@, 0);
            crate::ast::lemma_view_exprs_index(chain@, chain@.len() - 1);
        }
        let parent = match &chain[0] {
            AstExpr::Ident(i) => i.name.text(),
            _ => vstd::pervasive::unreached(),
        };
        let last = match &chain[chain.len() - 1] {
            AstExpr::Ident(i) => i.name.text(),
            _ => vstd::pervasive::unreached(),
        };
        let k = match find_access(&self.accesses, id) {
            Some(k) => k,
            None => vstd::pervasive::unreached(),
        };
        let flat = flat_fields_exec(&self.records, self.accesses[k].1.as_str(), self.records.len());
        let ghost fv = names_of(flat@);
        let mut index: usize = 0;
        while index < flat.len() && !crate::text::str_equal(flat[index].as_str(), last.as_str())
            invariant
                index <= flat.len(),
                fv == names_of(flat@),
                forall|j: int| 0 <= j < index ==> fv[j] != last@,
            decreases flat.len() - index,
        {
            index = index + 1;
        }
        proof { lemma_field_index(fv, last@, index as int); }
        proof {
            assert(ident_name(cv[0]) == Some(parent@));
            assert(ident_name(cv.last()) == Some(last@));
            assert(access_record(ts.accesses, id) == Some(self.accesses@[k as int].1@));
            assert(ts.records.len() == self.records@.len());
            assert(flat_fields(ts.records, self.accesses@[k as int].1@, ts.records.len()) == Some(fv));
        }
        let off = match self.frame().get_offset(parent.as_str()) {
            Some(off) => off,
            None => vstd::pervasive::unreached(),
        };
        proof {
            assert(field_index(fv, last@) == Some(index as nat));
            assert(local_offset(current_frame(ts)->0.locals, parent@) == Some(off));
        }
        let count = flat.len();
        assert(fv.len() == count);
        assert(index < count);
        assert(count * 8 <= i64::MAX);
        let idx = index as i64;
        let cnt = count as i64;
        let disp: i64 = 8 * idx - 8 * (cnt - 1);
        let temp = self.fresh_temp();
        let eid = self.eseqs;
        self.eseqs = if eid == usize::MAX { 0 } else { eid + 1 };
        let target = Expr::Temp(temp.clone());
        assert(target@ == IExpr::Temp(temp@));
        let source = slot_expr(off);
        let read = Stmt::Move { target: Box::new(target), expr: Box::new(source) };
        assert(read@ == IStmt::Move { target: Box::new(IExpr::Temp(temp@)), expr: Box::new(slot(off)) });
        let t = Expr::Temp(temp);
        let c = Expr::ConstInt(disp);
        let fp = Expr::Temp(frame_reg());
        assert(t@ == IExpr::Temp(temp@));
        assert(c@ == IExpr::ConstInt(disp));
        assert(fp@ == IExpr::Temp(frame_register()));
        let inner = Expr::Binary { op: BinOp::Plus, left: Box::new(t), right: Box::new(c) };
        assert(inner@ == IExpr::Binary { op: BinOp::Plus, left: Box::new(IExpr::Temp(temp@)), right: Box::new(IExpr::ConstInt(disp)) });
        let ghost iv = inner@;
        let address = Expr::Binary { op: BinOp::Plus, left: Box::new(fp), right: Box::new(inner) };
        assert(address@ == IExpr::Binary { op: BinOp::Plus, left: Box::new(IExpr::Temp(frame_register())), right: Box::new(iv) });
        let field = Expr::Mem(Box::new(address));
        assert(field@ == IExpr::Mem(Box::new(address@)));
        assert(disp as int == word() * index - word() * (count - 1));
        assert(field@ == field_word(temp@, index as nat, count as nat));
        Expr::ESeq { stmt: Box::new(read), expr: Box::new(field), id: eid }
    }

    fn translate_exprs(&mut self, es: &Vec<AstExpr>) -> (r: Vec<Expr>)
        requires
            t_exprs(old(self)@, view_exprs(es@)) is Some,
        ensures
            t_exprs(old(self)@, view_exprs(es@)) == Some((final(self)@, iexprs(r@))),
        decreases es,
    {
        let ghost all = view_exprs(es@);
        let mut out: Vec<Expr> = Vec::new();
        let mut i: usize = 0;
        proof {
            assert(all.skip(0) == all);
            assert(iexprs(out@) == Seq::<IExpr>::empty());
            assert(Seq::<IExpr>::empty() + t_exprs(self@, all).unwrap().1 == t_exprs(self@, all).unwrap().1);
        }
        while i < es.len()
            invariant
                i <= es.len(),
                all == view_exprs(es@),
                t_exprs(old(self)@, all) is Some,
                t_exprs(old(self)@, all) == prefixed(iexprs(out@), t_exprs(self@, all.skip(i as int))),
            decreases es.len() - i,
        {
            proof {
                crate::ast::lemma_view_exprs_index(es@, i as int);
                assert(all.skip(i as int)[0] == es@[i as int]@);
                assert(all.skip(i as int).drop_first() == all.skip(i + 1));
                assert(decreases_to!(es => es@[i as int]));
            }
            let ghost before = out@;
            let ghost rest = t_exprs(self@, all.skip(i as int));
            let x = self.translate_expr(&es[i]);
            out.push(x);
            proof {
                assert(out@.drop_last() == before);
                assert(iexprs(out@) == iexprs(before).push(x@));
                let tail = t_exprs(self@, all.skip(i + 1));
                if tail is Some {
                    assert(iexprs(before) + (seq![x@] + (tail->0).1) == iexprs(out@) + (tail->0).1);
                }
            }
            i = i + 1;
        }
        proof {
            crate::ast::lemma_view_exprs_len(es@);
            assert(all.skip(i as int).len() == 0);
            assert(iexprs(out@) + Seq::<IExpr>::empty() == iexprs(out@));
        }
        out
    }

    fn flatten(&mut self, inits: &Vec<Initializer>) -> (r: Vec<Expr>)
        requires
            t_flatten(old(self)@, view_inits(inits@)) is Some,
        ensures
            t_flatten(old(self)@, view_inits(inits@)) == Some((final(self)@, iexprs(r@))),
        decreases inits,
    {
        let ghost all = view_inits(inits@);
        let mut out: Vec<Expr> = Vec::new();
        let mut i: usize = 0;
        proof {
            assert(all.skip(0) == all);
            assert(iexprs(out@) == Seq::<IExpr>::empty());
            assert(Seq::<IExpr>::empty() + t_flatten(self@, all).unwrap().1 == t_flatten(self@, all).unwrap().1);
        }
        while i < inits.len()
            invariant
                i <= inits.len(),
                all == view_inits(inits@),
                t_flatten(old(self)@, all) is Some,
                t_flatten(old(self)@, all) == prefixed(iexprs(out@), t_flatten(self@, all.skip(i as int))),
            decreases inits.len() - i,
        {
            proof {
                crate::ast::lemma_view_inits_index(inits@, i as int);
                assert(all.skip(i as int)[0] == (inits@[i as int].name, inits@[i as int].expr@));
                assert(all.skip(i as int).drop_first() == all.skip(i + 1));
            }
            let ghost before = out@;
            match &inits[i].expr {
                AstExpr::Init(nested) => {
                    assert(decreases_to!(inits => inits@[i as int].expr));
                    let mut vs = self.flatten(&nested.initializers);
                    let ghost vsv = vs@;
                    out.append(&mut vs);
                    proof {
                        lemma_iexprs_concat(before, vsv);
                        let tail = t_flatten(self@, all.skip(i + 1));
                        if tail is Some {
                            assert(iexprs(before) + (iexprs(vsv) + (tail->0).1) == iexprs(out@) + (tail->0).1);
                        }
                    }
                },
                other => {
                    assert(decreases_to!(inits => inits@[i as int].expr));
                    let x = self.translate_expr(other);
                    out.push(x);
                    proof {
                        assert(out@.drop_last() == before);
                        assert(iexprs(out@) == iexprs(before).push(x@));
                        let tail = t_flatten(self@, all.skip(i + 1));
                        if tail is Some {
                            assert(iexprs(before) + (seq![x@] + (tail->0).1) == iexprs(out@) + (tail->0).1);
                        }
                    }
                },
            }
            i = i + 1;
        }
        proof {
            crate::ast::lemma_view_inits_len(inits@);
            assert(all.skip(i as int).len() == 0);
            assert(iexprs(out@) + Seq::<IExpr>::empty() == iexprs(out@));
        }
        out
    }

    /// Stores initializer values in a fresh block of the current frame.
    fn init(&mut self, values: Vec<Expr>) -> (r: Expr)
        requires
            t_init(old(self)@, iexprs(values@)) is Some,
        ensures
            t_init(old(self)@, iexprs(values@)) == Some((final(self)@, r@)),
    {
        let ghost s0 = self@;
        let ghost vals = iexprs(values@);
        proof { lemma_iexprs_len(values@); }
        let name = self.fresh_temp();
        let id = self.function.unwrap();
        let n = values.len();
        let ghost s1 = self@;
        let (fid, mut frame) = self.functions.pop().unwrap();
        proof {
            assert(frame@ == s1.frames.last().1);
        }
        let begin = frame.reserve(name, n);
        let ghost fv = frame@;
        let ghost before_push = self.functions@;
        self.functions.push((fid, frame));
        proof {
            assert(frames_view(self.functions@) =~= s1.frames.update(s1.frames.len() - 1, (s1.frames.last().0, frame@)));
        }
        proof {
            let f = current_frame(s1)->0;
            assert(frame_alloc(f, name@, n as nat) is Some);
            assert(begin == (frame_alloc(f, name@, n as nat)->0).1);
            assert(n >= 1);
        }
        let end = begin - (((n - 1) * 8) as i64);
        let ghost s2 = self@;
        let mut stmts: Vec<Stmt> = Vec::new();
        let mut rest = values;
        let ghost all = rest@;
        let mut index: usize = 0;
        proof {
            assert(vals.skip(0) == vals);
            assert(istmts(stmts@) == Seq::<IStmt>::empty());
            assert(Seq::<IStmt>::empty() + t_stores(s2, end as int, vals).1 == t_stores(s2, end as int, vals).1);
        }
        while index < n
            invariant
                index <= n,
                n == all.len(),
                vals == iexprs(all),
                vals.len() == n,
                rest@ == all.skip(index as int),
                end as int == begin - 8 * (n - 1),
                begin <= -8,
                8 * (n - 1) <= usize::MAX,
                8 * (n - 1) <= i64::MAX,
                t_stores(s2, end as int, vals) == (
                    t_stores(self@, end + 8 * index, vals.skip(index as int)).0,
                    istmts(stmts@) + t_stores(self@, end + 8 * index, vals.skip(index as int)).1,
                ),
            decreases n - index,
        {
            let v = rest.remove(0);
            proof {
                lemma_iexprs_index(all, index as int);
                assert(vals.skip(index as int)[0] == v@);
                assert(vals.skip(index as int).drop_first() == vals.skip(index + 1));
                assert(rest@ == all.skip(index + 1));
            }
            assert(index * 8 <= 8 * (n - 1)) by (nonlinear_arith)
                requires
                    index < n;
            let offset = end + ((index * 8) as i64);
            let base = Expr::Temp(frame_reg());
            let off = Expr::ConstInt(offset);
            assert(base@ == IExpr::Temp(frame_register()));
            assert(off@ == IExpr::ConstInt(offset));
            let target = Expr::Binary { op: BinOp::Plus, left: Box::new(base), right: Box::new(off) };
            assert(target@ == (IExpr::Binary {
                op: BinOp::Plus,
                left: Box::new(IExpr::Temp(frame_register())),
                right: Box::new(IExpr::ConstInt((end + 8 * index) as i64)),
            }));
            let ghost before = stmts@;
            let m = self.checked_move(Box::new(target), v);
            stmts.push(m);
            proof {
                assert(stmts@.drop_last() == before);
                assert(istmts(stmts@) == istmts(before).push(m@));
                let tail = t_stores(self@, end + 8 * (index + 1), vals.skip(index + 1));
                assert(istmts(before) + (seq![m@] + tail.1) == istmts(stmts@) + tail.1);
            }
            index = index + 1;
        }
        proof {
            assert(vals.skip(index as int).len() == 0);
            assert(istmts(stmts@) + Seq::<IStmt>::empty() == istmts(stmts@));
        }
        let body = sequence(stmts);
        let value = Expr::ConstInt(begin);
        assert(value@ == IExpr::ConstInt(begin));
        proof {
            assert(s2 == with_frame(s1, fv));
            assert(s1 == (TState { temps: bump(s0.temps), ..s0 }));
            assert(id == s0.function->0);
            assert(t_stores(s2, end as int, vals) == (self@, istmts(stmts@)));
        }
        Expr::ESeq { stmt: Box::new(body), expr: Box::new(value), id }
    }


    fn translate_condition(&mut self, c: &AstExpr) -> (r: Expr)
        requires
            t_condition(old(self)@, c@) is Some,
        ensures
            t_condition(old(self)@, c@) == Some((final(self)@, r@)),
    {
        match c {
            AstExpr::Int(l) => {
                let left = Expr::ConstInt(l.value);
                let right = Expr::ConstInt(0);
                assert(left@ == IExpr::ConstInt(l.value));
                assert(right@ == IExpr::ConstInt(0));
                Expr::Binary { op: BinOp::Cmp(RelOp::Equal), left: Box::new(left), right: Box::new(right) }
            },
            other => self.translate_expr(other),
        }
    }

    fn translate_stmt(&mut self, s: &AstStmt) -> (r: Stmt)
        requires
            t_stmt(old(self)@, s@) is Some,
        ensures
            t_stmt(old(self)@, s@) == Some((final(self)@, r@)),
        decreases s,
    {
        match s {
            AstStmt::If(c) => {
                let condition = self.translate_condition(&c.condition);
                let rel = condition.condition().unwrap();
                let t = self.fresh_label();
                let f = self.fresh_label();
                let done = self.fresh_label();
                let is = self.translate_stmts(&c.is);
                let otherwise = self.translate_stmts(&c.otherwise);
                let is = sequence(is);
                let otherwise = sequence(otherwise);
                let ghost (cv, isv, ov) = (condition@, is@, otherwise@);
                let ghost (tv, fv, dv) = (t@, f@, done@);
                let cj = Stmt::CJump { op: BinOp::Cmp(rel), condition: Box::new(condition), t: t.clone(), f: f.clone() };
                assert(cj@ == (IStmt::CJump { op: BinOp::Cmp(rel), condition: Box::new(cv), t: tv, f: fv }));
                let lt = Stmt::Label(t);
                assert(lt@ == IStmt::Label(tv));
                let a = Stmt::Sequence { left: Box::new(lt), right: Some(Box::new(is)) };
                assert(a@ == (IStmt::Sequence { left: Box::new(IStmt::Label(tv)), right: Some(Box::new(isv)) }));
                let ghost av = a@;
                let b = Stmt::Sequence { left: Box::new(cj), right: Some(Box::new(a)) };
                assert(b@ == (IStmt::Sequence {
                    left: Box::new(IStmt::CJump { op: BinOp::Cmp(rel), condition: Box::new(cv), t: tv, f: fv }),
                    right: Some(Box::new(av)),
                }));
                let ghost bv = b@;
                let jd = Stmt::Jump(done.clone());
                assert(jd@ == IStmt::Jump(dv));
                let c1 = Stmt::Sequence { left: Box::new(b), right: Some(Box::new(jd)) };
                assert(c1@ == (IStmt::Sequence { left: Box::new(bv), right: Some(Box::new(IStmt::Jump(dv))) }));
                let ghost c1v = c1@;
                let lf = Stmt::Label(f);
                assert(lf@ == IStmt::Label(fv));
                let d = Stmt::Sequence { left: Box::new(lf), right: Some(Box::new(otherwise)) };
                assert(d@ == (IStmt::Sequence { left: Box::new(IStmt::Label(fv)), right: Some(Box::new(ov)) }));
                let ghost d1v = d@;
                let e1 = Stmt::Sequence { left: Box::new(c1), right: Some(Box::new(d)) };
                assert(e1@ == (IStmt::Sequence { left: Box::new(c1v), right: Some(Box::new(d1v)) }));
                let ghost e1v = e1@;
                let ld = Stmt::Label(done);
                assert(ld@ == IStmt::Label(dv));
                let r = Stmt::Sequence { left: Box::new(e1), right: Some(Box::new(ld)) };
                assert(r@ == (IStmt::Sequence { left: Box::new(e1v), right: Some(Box::new(IStmt::Label(dv))) }));
                r
            },
            AstStmt::While(w) => {
                let condition = self.translate_condition(&w.condition);
                let rel = condition.condition().unwrap();
                let t = self.fresh_label();
                let f = self.fresh_label();
                let test = self.translate_test_label();
                let mut body = self.translate_stmts(&w.body);
                let ghost bodyv = body@;
                let jump = Stmt::Jump(test.clone());
                body.push(jump);
                proof {
                    assert(body@.drop_last() == bodyv);
                    assert(istmts(body@) == istmts(bodyv).push(IStmt::Jump(test@)));
                }
                let body = sequence(body);
                let ghost (cv, bv, tv, fv, sv) = (condition@, body@, t@, f@, test@);
                let lt = Stmt::Label(test);
                assert(lt@ == IStmt::Label(sv));
                let cj = Stmt::CJump { op: BinOp::Cmp(rel), condition: Box::new(condition), t: t.clone(), f: f.clone() };
                assert(cj@ == (IStmt::CJump { op: BinOp::Cmp(rel), condition: Box::new(cv), t: tv, f: fv }));
                let a = Stmt::Sequence { left: Box::new(lt), right: Some(Box::new(cj)) };
                assert(a@ == (IStmt::Sequence {
                    left: Box::new(IStmt::Label(sv)),
                    right: Some(Box::new(IStmt::CJump { op: BinOp::Cmp(rel), condition: Box::new(cv), t: tv, f: fv })),
                }));
                let ghost av = a@;
                let ltt = Stmt::Label(t);
                assert(ltt@ == IStmt::Label(tv));
                let b = Stmt::Sequence { left: Box::new(ltt), right: Some(Box::new(body)) };
                assert(b@ == (IStmt::Sequence { left: Box::new(IStmt::Label(tv)), right: Some(Box::new(bv)) }));
                let ghost b1v = b@;
                let c1 = Stmt::Sequence { left: Box::new(a), right: Some(Box::new(b)) };
                assert(c1@ == (IStmt::Sequence { left: Box::new(av), right: Some(Box::new(b1v)) }));
                let ghost c1v = c1@;
                let lf = Stmt::Label(f);
                assert(lf@ == IStmt::Label(fv));
                let r = Stmt::Sequence { left: Box::new(c1), right: Some(Box::new(lf)) };
                assert(r@ == (IStmt::Sequence { left: Box::new(c1v), right: Some(Box::new(IStmt::Label(fv))) }));
                r
            },
            AstStmt::Assign(a) => {
                let target = self.translate_expr(&a.target);
                let expr = self.translate_expr(&a.expr);
                self.checked_move(Box::new(target), expr)
            },
            AstStmt::Expr(e) => {
                let v = self.translate_expr(e);
                Stmt::Expr(Box::new(v))
            },
            AstStmt::Return(ret) => {
                let target = Expr::Temp(String::from_str("rax"));
                assert(target@ == IExpr::Temp(return_register()));
                let v = self.translate_expr(&ret.expr);
                self.checked_move(Box::new(target), v)
            },
            AstStmt::Var(var) => {
                let ghost s0 = self@;
                let name = var.name.text();
                let (fid, mut frame) = self.functions.pop().unwrap();
                proof { assert(frame@ == s0.frames.last().1); }
                let target = frame.allocate(name, 1);
                let ghost fv = frame@;
                self.functions.push((fid, frame));
                proof {
                    assert(frames_view(self.functions@) =~= s0.frames.update(s0.frames.len() - 1, (s0.frames.last().0, fv)));
                    assert(self@ == with_frame(s0, fv));
                }
                let expr = self.translate_expr(&var.expr);
                self.checked_move(Box::new(target), expr)
            },
            AstStmt::For(_) => vstd::pervasive::unreached(),
        }
    }

    fn translate_test_label(&mut self) -> (r: String)
        ensures
            (final(self)@, r@) == next_label(old(self)@),
    {
        self.fresh_label()
    }

    fn translate_stmts(&mut self, ss: &Vec<AstStmt>) -> (r: Vec<Stmt>)
        requires
            t_stmts(old(self)@, view_stmts(ss@)) is Some,
        ensures
            t_stmts(old(self)@, view_stmts(ss@)) == Some((final(self)@, istmts(r@))),
        decreases ss,
    {
        let ghost all = view_stmts(ss@);
        let mut out: Vec<Stmt> = Vec::new();
        let mut i: usize = 0;
        proof {
            assert(all.skip(0) == all);
            assert(istmts(out@) == Seq::<IStmt>::empty());
            assert(Seq::<IStmt>::empty() + t_stmts(self@, all).unwrap().1 == t_stmts(self@, all).unwrap().1);
        }
        while i < ss.len()
            invariant
                i <= ss.len(),
                all == view_stmts(ss@),
                t_stmts(old(self)@, all) is Some,
                t_stmts(old(self)@, all) == prefixed(istmts(out@), t_stmts(self@, all.skip(i as int))),
            decreases ss.len() - i,
        {
            proof {
                crate::ast::lemma_view_stmts_index(ss@, i as int);
                assert(all.skip(i as int)[0] == ss@[i as int]@);
                assert(all.skip(i as int).drop_first() == all.skip(i + 1));
                assert(decreases_to!(ss => ss@[i as int]));
            }
            let ghost before = out@;
            let x = self.translate_stmt(&ss[i]);
            out.push(x);
            proof {
                assert(out@.drop_last() == before);
                assert(istmts(out@) == istmts(before).push(x@));
                let tail = t_stmts(self@, all.skip(i + 1));
                if tail is Some {
                    assert(istmts(before) + (seq![x@] + (tail->0).1) == istmts(out@) + (tail->0).1);
                }
            }
            i = i + 1;
        }
        proof {
            lemma_view_stmts_len(ss@);
            assert(all.skip(i as int).len() == 0);
            assert(istmts(out@) + Seq::<IStmt>::empty() == istmts(out@));
        }
        out
    }

    fn translate_decl(&mut self, d: &Decl) -> (r: Stmt)
        requires
            t_decl(old(self)@, d@) is Some,
        ensures
            t_decl(old(self)@, d@) == Some((final(self)@, r@)),
    {
        match d {
            Decl::Function(function) => {
                let frame = Frame::new(function);
                let ghost before = self.functions@;
                self.functions.push((function.id, frame));
                self.function = Some(function.id);
                proof {
                    assert(frames_view(self.functions@) =~= frames_view(before).push((function.id, frame@)));
                }
                let mut stmts: Vec<Stmt> = Vec::new();
                let label = Stmt::Label(function.name.text());
                let ghost lv = label@;
                stmts.push(label);
                let mut body = self.translate_stmts(&function.body);
                let ghost bv = body@;
                stmts.append(&mut body);
                proof {
                    assert(stmts@ == seq![label] + bv);
                    assert(istmts(seq![label]) == seq![lv]) by {
                        assert(seq![label].drop_last() == Seq::<Stmt>::empty());
                        assert(istmts(Seq::<Stmt>::empty()) == Seq::<IStmt>::empty());
                    }
                    lemma_istmts_concat(seq![label], bv);
                }
                sequence(stmts)
            },
            Decl::Record(_) => Stmt::Noop,
            _ => vstd::pervasive::unreached(),
        }
    }

    /// Translates declarations in order, each function into its label followed by its
    /// body; a record is nothing.
    pub fn translate(&mut self, ast: &[Decl]) -> (r: Vec<Stmt>)
        requires
            t_decls(old(self)@, view_decls(ast@)) is Some,
        ensures
            t_decls(old(self)@, view_decls(ast@)) == Some((final(self)@, istmts(r@))),
    {
        let ghost all = view_decls(ast@);
        let mut out: Vec<Stmt> = Vec::new();
        let mut i: usize = 0;
        proof {
            assert(all.skip(0) == all);
            assert(istmts(out@) == Seq::<IStmt>::empty());
            assert(Seq::<IStmt>::empty() + t_decls(self@, all).unwrap().1 == t_decls(self@, all).unwrap().1);
        }
        while i < ast.len()
            invariant
                i <= ast.len(),
                all == view_decls(ast@),
                t_decls(old(self)@, all) is Some,
                t_decls(old(self)@, all) == prefixed(istmts(out@), t_decls(self@, all.skip(i as int))),
            decreases ast.len() - i,
        {
            proof {
                crate::ast::lemma_view_decls_index(ast@, i as int);
                assert(all.skip(i as int)[0] == ast@[i as int]@);
                assert(all.skip(i as int).drop_first() == all.skip(i + 1));
            }
            let ghost before = out@;
            let x = self.translate_decl(&ast[i]);
            out.push(x);
            proof {
                assert(out@.drop_last() == before);
                assert(istmts(out@) == istmts(before).push(x@));
                let tail = t_decls(self@, all.skip(i + 1));
                if tail is Some {
                    assert(istmts(before) + (seq![x@] + (tail->0).1) == istmts(out@) + (tail->0).1);
                }
            }
            i = i + 1;
        }
        proof {
            lemma_view_decls_len(ast@);
            assert(all.skip(i as int).len() == 0);
            assert(istmts(out@) + Seq::<IStmt>::empty() == istmts(out@));
        }
        out
    }

    fn checked_binary(&mut self, op: BinOp, left: Box<Expr>, right: Expr) -> (r: Expr)
        ensures
            (final(self)@, r@) == t_binary(old(self)@, op, (*left)@, right@),
    {
        let right = self.checked(&left, right);
        Expr::Binary { op, left, right: Box::new(right) }
    }

    fn checked_move(&mut self, target: Box<Expr>, expr: Expr) -> (r: Stmt)
        ensures
            (final(self)@, r@) == t_move(old(self)@, (*target)@, expr@),
    {
        let expr = self.checked(&target, expr);
        Stmt::Move { target, expr: Box::new(expr) }
    }
}

} // verus!
