//! The grammar of Kyanite, stated over a parser state.
//!
//! Each `p_` function takes the state before a piece of input is parsed and returns the
//! state after it with the result: a view of the syntax tree, or the error. The parser
//! in `parse` is proved to follow these functions exactly.
use vstd::prelude::*;
use crate::token::{Kind, Span, Token, token_text, kind_text};
use crate::ast::{TypeRefV, TypeParameter, BindingV, ExprV, StmtV, FuncDeclV, DeclV, Literal, Ident};
use crate::error::{ErrorV, source_line, default_filename};
use crate::text::{digits_value, all_digits, has_char};

verus! {

/// The view of a parse error.
pub enum ParseErrorV {
    UnexpectedEof(Span),
    Expected(Kind, Span, Kind),
    Unhandled(Kind, Span, Seq<Kind>),
}

/// The state of the parser: the source lines, the tokens still to read, the errors
/// reported so far, the last token read, the panic flag, and the next numbers to give
/// to a function and to an access chain.
pub struct PState {
    pub lines: Seq<Seq<char>>,
    pub tokens: Seq<Token>,
    pub errors: Seq<ErrorV>,
    pub previous: Option<Token>,
    pub panic: bool,
    pub functions: usize,
    pub accesses: usize,
}

pub type Outcome<T> = (PState, Result<T, ParseErrorV>);

// ----------------------------------------------------------------------
// Well-formed input
// ----------------------------------------------------------------------

/// A literal token's text is `true`, `false`, a string (opening quote), a number with a
/// point, or a run of digits whose value fits in an `i64`.
pub open spec fn literal_wf(t: Token) -> bool {
    t.kind == Kind::Literal ==> {
        &&& t.lexeme is Some
        &&& token_text(t).len() > 0
        &&& {
            let s = token_text(t);
            ||| s == "true"@
            ||| s == "false"@
            ||| s[0] == '"'
            ||| has_char(s, '.')
            ||| (all_digits(s) && digits_value(s) <= i64::MAX)
        }
    }
}

/// Every token is well formed.
pub open spec fn tokens_wf(tokens: Seq<Token>) -> bool {
    forall|i: int| 0 <= i < tokens.len() ==> literal_wf(#[trigger] tokens[i])
}

/// A token has been read, or one is left to read.
pub open spec fn live(st: PState) -> bool {
    st.previous is Some || st.tokens.len() > 0
}

/// A token has been read, or none is left to read.
pub open spec fn settled(st: PState) -> bool {
    st.previous is Some || st.tokens.len() == 0
}

/// `b` follows `a`: the same source; the tokens of `b` are those of `a` with some read from
/// the front; the errors of `a` are the first errors of `b`.
pub open spec fn follows(a: PState, b: PState) -> bool {
    &&& b.lines == a.lines
    &&& b.tokens.len() <= a.tokens.len()
    &&& b.tokens == a.tokens.skip(a.tokens.len() - b.tokens.len())
    &&& (settled(a) ==> settled(b))
    &&& a.errors.len() <= b.errors.len()
    &&& b.errors.take(a.errors.len() as int) == a.errors
}

pub broadcast proof fn lemma_follows_refl(a: PState)
    ensures
        #[trigger] follows(a, a),
{
    assert(a.tokens.skip(0) == a.tokens);
    assert(a.errors.take(a.errors.len() as int) == a.errors);
}

pub proof fn lemma_follows_same_tokens(a: PState, b: PState)
    requires
        a.lines == b.lines,
        a.tokens == b.tokens,
        a.previous == b.previous,
        a.errors.len() <= b.errors.len(),
        b.errors.take(a.errors.len() as int) =~= a.errors,
    ensures
        follows(a, b),
{
    assert(a.tokens.skip(0) == a.tokens);
}

pub broadcast proof fn lemma_follows_trans(a: PState, b: PState, c: PState)
    requires
        #[trigger] follows(a, b),
        #[trigger] follows(b, c),
    ensures
        follows(a, c),
{
    assert(c.tokens == a.tokens.skip(a.tokens.len() - c.tokens.len()));
    assert(c.errors.take(a.errors.len() as int) == c.errors.take(b.errors.len() as int).take(a.errors.len() as int));
}


// ----------------------------------------------------------------------
// Token-level steps
// ----------------------------------------------------------------------

pub open spec fn next_id(n: usize) -> usize {
    if n == usize::MAX { 0 } else { (n + 1) as usize }
}

pub open spec fn p_peek(st: PState) -> Result<Token, ParseErrorV> {
    if st.tokens.len() > 0 {
        Ok(st.tokens[0])
    } else {
        Err(ParseErrorV::UnexpectedEof(Span { line: 0, column: 0, length: 0 }))
    }
}

/// The kind of the next token, when there is one.
pub open spec fn next_is(st: PState, k: Kind) -> bool {
    st.tokens.len() > 0 && st.tokens[0].kind == k
}

pub open spec fn p_advance(st: PState) -> (PState, Option<Token>) {
    if st.tokens.len() > 0 {
        (PState { tokens: st.tokens.drop_first(), previous: Some(st.tokens[0]), ..st }, Some(st.tokens[0]))
    } else {
        (PState { previous: None, ..st }, None)
    }
}

pub open spec fn p_consume(st: PState, kind: Kind) -> Outcome<Token> {
    if st.tokens.len() == 0 {
        (st, Err(ParseErrorV::Expected(kind, st.previous->0.span, Kind::Eof)))
    } else {
        let t = st.tokens[0];
        let st1 = p_advance(st).0;
        if t.kind == kind {
            (st1, Ok(t))
        } else {
            (st1, Err(ParseErrorV::Expected(kind, t.span, t.kind)))
        }
    }
}

// ----------------------------------------------------------------------
// Diagnostics
// ----------------------------------------------------------------------

/// The heading of a parse error's diagnostic.
pub open spec fn heading_text(e: ParseErrorV) -> Seq<char> {
    match e {
        ParseErrorV::UnexpectedEof(_) => "unexpected EOF"@,
        ParseErrorV::Expected(k, _, found) => "expected "@ + kind_text(k) + " but found "@ + kind_text(found),
        ParseErrorV::Unhandled(k, _, _) => "unexpected "@ + kind_text(k),
    }
}

/// The kinds, each in backquotes, separated by commas.
pub open spec fn kinds_list(ks: Seq<Kind>) -> Seq<char>
    decreases ks.len(),
{
    if ks.len() == 0 {
        Seq::empty()
    } else if ks.len() == 1 {
        "`"@ + kind_text(ks[0]) + "`"@
    } else {
        kinds_list(ks.drop_last()) + ", "@ + "`"@ + kind_text(ks.last()) + "`"@
    }
}

/// The explanation under the caret of a parse error's diagnostic.
pub open spec fn detail_text(e: ParseErrorV) -> Seq<char> {
    match e {
        ParseErrorV::Expected(k, _, _) => "expected "@ + kind_text(k) + " here"@,
        ParseErrorV::Unhandled(_, _, ks) => "expected one of "@ + kinds_list(ks) + " here"@,
        ParseErrorV::UnexpectedEof(_) => "unexpected end of file"@,
    }
}

pub open spec fn error_span(e: ParseErrorV) -> Span {
    match e {
        ParseErrorV::UnexpectedEof(s) => s,
        ParseErrorV::Expected(_, s, _) => s,
        ParseErrorV::Unhandled(_, s, _) => s,
    }
}

/// The diagnostic reported for a parse error.
pub open spec fn diagnostic(lines: Seq<Seq<char>>, e: ParseErrorV) -> ErrorV {
    ErrorV {
        filename: default_filename(),
        heading: heading_text(e),
        line: source_line(lines, error_span(e).line as nat),
        span: error_span(e),
        text: detail_text(e),
    }
}

pub open spec fn p_error(st: PState, e: ParseErrorV) -> PState {
    PState { panic: true, errors: st.errors.push(diagnostic(st.lines, e)), ..st }
}

/// Skipping tokens until a statement boundary: the last token read was `;`, the next
/// token starts a new line, or the next token starts a declaration.
pub open spec fn p_sync_loop(st: PState) -> PState
    decreases st.tokens.len(),
{
    if st.tokens.len() == 0 {
        st
    } else if st.previous->0.kind == Kind::Semicolon || st.previous->0.span.line < st.tokens[0].span.line {
        st
    } else if st.tokens[0].kind == Kind::Let || st.tokens[0].kind == Kind::Fun || st.tokens[0].kind == Kind::Const {
        st
    } else {
        p_sync_loop(p_advance(st).0)
    }
}

pub open spec fn p_synchronize(st: PState, stmt: bool) -> PState {
    let st0 = PState { panic: false, ..st };
    let st1 = if stmt { p_advance(st0).0 } else { st0 };
    p_sync_loop(st1)
}

// ----------------------------------------------------------------------
// Types
// ----------------------------------------------------------------------

pub open spec fn p_ty(st: PState) -> Outcome<TypeRefV>
    decreases st.tokens.len(), 0nat,
{
    let (s1, r1) = p_consume(st, Kind::Identifier);
    match r1 {
        Err(e) => (s1, Err(e)),
        Ok(base) => match p_peek(s1) {
            Err(e) => (s1, Err(e)),
            Ok(t) => if t.kind == Kind::Less {
                let (s2, r2) = p_consume(s1, Kind::Less);
                match r2 {
                    Err(e) => (s2, Err(e)),
                    Ok(_) => if s2.tokens.len() < st.tokens.len() {
                        let (s3, r3) = p_ty_args(s2, Seq::empty());
                        match r3 {
                            Err(e) => (s3, Err(e)),
                            Ok(params) => (s3, Ok(TypeRefV::Named { name: base, params })),
                        }
                    } else {
                        (s2, Err(ParseErrorV::UnexpectedEof(t.span)))
                    },
                }
            } else {
                (s1, Ok(TypeRefV::Named { name: base, params: Seq::empty() }))
            },
        },
    }
}

/// The type arguments after `<`, up to and including `>`.
pub open spec fn p_ty_args(st: PState, acc: Seq<TypeRefV>) -> Outcome<Seq<TypeRefV>>
    decreases st.tokens.len(), 1nat,
{
    match p_peek(st) {
        Err(e) => (st, Err(e)),
        Ok(t) => if t.kind == Kind::Greater {
            let (s1, r1) = p_consume(st, Kind::Greater);
            match r1 {
                Err(e) => (s1, Err(e)),
                Ok(_) => (s1, Ok(acc)),
            }
        } else {
            let (s1, r1) = p_ty(st);
            match r1 {
                Err(e) => (s1, Err(e)),
                Ok(ty) => match p_peek(s1) {
                    Err(e) => (s1, Err(e)),
                    Ok(t1) => {
                        let (s2, r2) = if t1.kind != Kind::Greater {
                            p_consume(s1, Kind::Comma)
                        } else {
                            (s1, Ok(t1))
                        };
                        match r2 {
                            Err(e) => (s2, Err(e)),
                            Ok(_) => if s2.tokens.len() < st.tokens.len() {
                                p_ty_args(s2, acc.push(ty))
                            } else {
                                (s2, Err(ParseErrorV::UnexpectedEof(t.span)))
                            },
                        }
                    },
                },
            }
        },
    }
}

/// Type parameters `<T: Bound, U>`.
pub open spec fn p_type_parameters(st: PState) -> Outcome<Seq<TypeParameter>> {
    let (s1, r1) = p_consume(st, Kind::Less);
    match r1 {
        Err(e) => (s1, Err(e)),
        Ok(_) => p_type_params_loop(s1, Seq::empty()),
    }
}

pub open spec fn p_type_params_loop(st: PState, acc: Seq<TypeParameter>) -> Outcome<Seq<TypeParameter>>
    decreases st.tokens.len(),
{
    match p_peek(st) {
        Err(e) => (st, Err(e)),
        Ok(t) => if t.kind == Kind::Greater {
            let (s1, r1) = p_consume(st, Kind::Greater);
            match r1 {
                Err(e) => (s1, Err(e)),
                Ok(_) => (s1, Ok(acc)),
            }
        } else {
            let (s1, r1) = p_consume(st, Kind::Identifier);
            match r1 {
                Err(e) => (s1, Err(e)),
                Ok(name) => match p_peek(s1) {
                    Err(e) => (s1, Err(e)),
                    Ok(t1) => {
                        let (s2, rb) = if !(t1.kind == Kind::Comma || t1.kind == Kind::Greater) {
                            let (sa, ra) = p_consume(s1, Kind::Colon);
                            match ra {
                                Err(e) => (sa, Err(e)),
                                Ok(_) => {
                                    let (sb, rb) = p_consume(sa, Kind::Identifier);
                                    match rb {
                                        Err(e) => (sb, Err(e)),
                                        Ok(b) => (sb, Ok(Some(b))),
                                    }
                                },
                            }
                        } else {
                            (s1, Ok(None))
                        };
                        match rb {
                            Err(e) => (s2, Err(e)),
                            Ok(bound) => match p_peek(s2) {
                                Err(e) => (s2, Err(e)),
                                Ok(t2) => {
                                    let (s3, r3) = if t2.kind != Kind::Greater {
                                        p_consume(s2, Kind::Comma)
                                    } else {
                                        (s2, Ok(t2))
                                    };
                                    match r3 {
                                        Err(e) => (s3, Err(e)),
                                        Ok(_) => if s3.tokens.len() < st.tokens.len() {
                                            p_type_params_loop(s3, acc.push(TypeParameter { name, bound }))
                                        } else {
                                            (s3, Err(ParseErrorV::UnexpectedEof(t.span)))
                                        },
                                    }
                                },
                            },
                        }
                    },
                },
            }
        },
    }
}

/// Parameters up to (not including) `)`; in a method, the first parameter's type is the class.
pub open spec fn p_params_loop(st: PState, method: Option<Token>, index: nat, acc: Seq<BindingV>) -> Outcome<Seq<BindingV>>
    decreases st.tokens.len(),
{
    match p_peek(st) {
        Err(e) => (st, Err(e)),
        Ok(t) => if t.kind == Kind::RightParen {
            (st, Ok(acc))
        } else {
            let (s1, r1) = p_consume(st, Kind::Identifier);
            match r1 {
                Err(e) => (s1, Err(e)),
                Ok(name) => {
                    let (s2, r2, index2) = if method is Some && index == 0 {
                        (s1, Ok(TypeRefV::Named { name: method->0, params: Seq::empty() }), 1nat)
                    } else {
                        let (sa, ra) = p_consume(s1, Kind::Colon);
                        match ra {
                            Err(e) => (sa, Err(e), index),
                            Ok(_) => {
                                let (sb, rb) = p_ty(sa);
                                (sb, rb, index)
                            },
                        }
                    };
                    match r2 {
                        Err(e) => (s2, Err(e)),
                        Ok(ty) => match p_peek(s2) {
                            Err(e) => (s2, Err(e)),
                            Ok(t2) => {
                                let (s3, r3) = if t2.kind != Kind::RightParen {
                                    p_consume(s2, Kind::Comma)
                                } else {
                                    (s2, Ok(t2))
                                };
                                match r3 {
                                    Err(e) => (s3, Err(e)),
                                    Ok(_) => if s3.tokens.len() < st.tokens.len() {
                                        p_params_loop(s3, method, index2, acc.push(BindingV { name, ty }))
                                    } else {
                                        (s3, Err(ParseErrorV::UnexpectedEof(t.span)))
                                    },
                                }
                            },
                        },
                    }
                },
            }
        },
    }
}

pub open spec fn ends_fields(k: Kind) -> bool {
    k == Kind::RightBrace || k == Kind::Fun
}

/// Fields up to (not including) `}` or the first method.
pub open spec fn p_fields_loop(st: PState, acc: Seq<BindingV>) -> Outcome<Seq<BindingV>>
    decreases st.tokens.len(),
{
    match p_peek(st) {
        Err(e) => (st, Err(e)),
        Ok(t) => if ends_fields(t.kind) {
            (st, Ok(acc))
        } else {
            let (s1, r1) = p_consume(st, Kind::Identifier);
            match r1 {
                Err(e) => (s1, Err(e)),
                Ok(name) => {
                    let (sa, ra) = p_consume(s1, Kind::Colon);
                    match ra {
                        Err(e) => (sa, Err(e)),
                        Ok(_) => {
                            let (s2, r2) = p_ty(sa);
                            match r2 {
                                Err(e) => (s2, Err(e)),
                                Ok(ty) => match p_peek(s2) {
                                    Err(e) => (s2, Err(e)),
                                    Ok(t2) => {
                                        let (s3, r3) = if !ends_fields(t2.kind) {
                                            p_consume(s2, Kind::Comma)
                                        } else {
                                            (s2, Ok(t2))
                                        };
                                        match r3 {
                                            Err(e) => (s3, Err(e)),
                                            Ok(_) => if s3.tokens.len() < st.tokens.len() {
                                                p_fields_loop(s3, acc.push(BindingV { name, ty }))
                                            } else {
                                                (s3, Err(ParseErrorV::UnexpectedEof(t.span)))
                                            },
                                        }
                                    },
                                },
                            }
                        },
                    }
                },
            }
        },
    }
}




// ----------------------------------------------------------------------
// Expressions
// ----------------------------------------------------------------------

/// The error that a step no parse can reach gives (a sub-parse that succeeded without
/// reading a token).
pub open spec fn stalled() -> ParseErrorV {
    ParseErrorV::UnexpectedEof(Span { line: 0, column: 0, length: 0 })
}

pub open spec fn p_expression(st: PState) -> Outcome<ExprV>
    decreases st.tokens.len(), 15nat,
{
    p_level(4, st)
}

/// The operators of the binary precedence levels: 4 equality, 3 comparison, 2 terms,
/// 1 factors.
pub open spec fn level_op(n: nat, k: Kind) -> bool {
    if n == 4 {
        k == Kind::BangEqual || k == Kind::EqualEqual
    } else if n == 3 {
        k == Kind::Greater || k == Kind::GreaterEqual || k == Kind::Less || k == Kind::LessEqual
    } else if n == 2 {
        k == Kind::Minus || k == Kind::Plus
    } else {
        k == Kind::Slash || k == Kind::Star
    }
}

/// Operator precedence: `*` and `/` bind tightest (level 1, factors), then `+` and `-`
/// (level 2, terms), then the comparisons `<`, `<=`, `>`, `>=` (level 3), then `==` and `!=`
/// (level 4); each binary operator belongs to exactly one level.
pub proof fn law_precedence(k: Kind)
    ensures
        level_op(1, k) <==> (k == Kind::Star || k == Kind::Slash),
        level_op(2, k) <==> (k == Kind::Plus || k == Kind::Minus),
        level_op(3, k) <==> (k == Kind::Less || k == Kind::LessEqual || k == Kind::Greater
            || k == Kind::GreaterEqual),
        level_op(4, k) <==> (k == Kind::EqualEqual || k == Kind::BangEqual),
        !(level_op(1, k) && level_op(2, k)),
        !(level_op(2, k) && level_op(3, k)),
        !(level_op(3, k) && level_op(4, k)),
        !(level_op(1, k) && level_op(3, k)),
        !(level_op(1, k) && level_op(4, k)),
        !(level_op(2, k) && level_op(4, k)),
{
}

/// An operand of level `n`: the next level down, or a unary expression below level 1.
pub open spec fn p_operand(n: nat, st: PState) -> Outcome<ExprV>
    decreases st.tokens.len(), 2 * n + 5,
{
    if n <= 1 {
        p_unary(st)
    } else {
        p_level((n - 1) as nat, st)
    }
}

/// A left-associative chain of operands of level `n`.
pub open spec fn p_level(n: nat, st: PState) -> Outcome<ExprV>
    decreases st.tokens.len(), 2 * n + 6,
{
    let (s1, r1) = p_operand(n, st);
    match r1 {
        Err(e) => (s1, Err(e)),
        Ok(left) => if s1.tokens.len() < st.tokens.len() {
            p_level_tail(n, s1, left)
        } else {
            (s1, Err(stalled()))
        },
    }
}

pub open spec fn p_level_tail(n: nat, st: PState, left: ExprV) -> Outcome<ExprV>
    decreases st.tokens.len(), 0nat,
{
    match p_peek(st) {
        Err(e) => (st, Err(e)),
        Ok(t) => if level_op(n, t.kind) {
            let (s1, op) = p_advance(st);
            if s1.tokens.len() < st.tokens.len() {
                let (s2, r2) = p_operand(n, s1);
                match r2 {
                    Err(e) => (s2, Err(e)),
                    Ok(right) => if s2.tokens.len() < st.tokens.len() {
                        p_level_tail(n, s2, ExprV::Binary(Box::new(left), op->0, Box::new(right)))
                    } else {
                        (s2, Err(stalled()))
                    },
                }
            } else {
                (s1, Err(stalled()))
            }
        } else {
            (st, Ok(left))
        },
    }
}

pub open spec fn p_unary(st: PState) -> Outcome<ExprV>
    decreases st.tokens.len(), 4nat,
{
    match p_peek(st) {
        Err(e) => (st, Err(e)),
        Ok(t) => if t.kind == Kind::Bang || t.kind == Kind::Minus {
            let (s1, op) = p_advance(st);
            if s1.tokens.len() < st.tokens.len() {
                let (s2, r2) = p_unary(s1);
                match r2 {
                    Err(e) => (s2, Err(e)),
                    Ok(right) => (s2, Ok(ExprV::Unary(op->0, Box::new(right)))),
                }
            } else {
                (s1, Err(stalled()))
            }
        } else {
            p_access(st)
        },
    }
}

pub open spec fn p_access(st: PState) -> Outcome<ExprV>
    decreases st.tokens.len(), 3nat,
{
    let (s1, r1) = p_call(st);
    match r1 {
        Err(e) => (s1, Err(e)),
        Ok(item) => if s1.tokens.len() < st.tokens.len() {
            p_access_tail(s1, item, Seq::empty())
        } else {
            (s1, Err(stalled()))
        },
    }
}

/// An access chain ends: `item.rest...`. When its last link is a call `m(args)`, the
/// whole is a call of the chain with the chain up to `m` as first argument.
pub open spec fn p_finish_access(st: PState, item: ExprV, rest: Seq<ExprV>) -> Outcome<ExprV> {
    let full = seq![item] + rest;
    let a = st.accesses;
    match rest.last() {
        ExprV::Call { left, args, parens, delimiters } => (
            PState { accesses: next_id(next_id(a)), ..st },
            Ok(ExprV::Call {
                left: Box::new(ExprV::Access { chain: full, id: a }),
                args: seq![ExprV::Access { chain: full.drop_last(), id: next_id(a) }] + args,
                parens,
                delimiters,
            }),
        ),
        _ => (PState { accesses: next_id(a), ..st }, Ok(ExprV::Access { chain: full, id: a })),
    }
}

pub open spec fn p_access_tail(st: PState, item: ExprV, rest: Seq<ExprV>) -> Outcome<ExprV>
    decreases st.tokens.len(), 0nat,
{
    match p_peek(st) {
        Err(e) => (st, Err(e)),
        Ok(t) => if t.kind != Kind::Dot {
            (st, Ok(item))
        } else {
            let (s1, r1) = p_consume(st, Kind::Dot);
            match r1 {
                Err(e) => (s1, Err(e)),
                Ok(_) => if s1.tokens.len() < st.tokens.len() {
                    let (s2, r2) = p_call(s1);
                    match r2 {
                        Err(e) => (s2, Err(e)),
                        Ok(el) => match p_peek(s2) {
                            Err(e) => (s2, Err(e)),
                            Ok(t2) => if t2.kind != Kind::Dot {
                                p_finish_access(s2, item, rest.push(el))
                            } else if s2.tokens.len() < st.tokens.len() {
                                p_access_tail(s2, item, rest.push(el))
                            } else {
                                (s2, Err(stalled()))
                            },
                        },
                    }
                } else {
                    (s1, Err(stalled()))
                },
            }
        },
    }
}

pub open spec fn p_call(st: PState) -> Outcome<ExprV>
    decreases st.tokens.len(), 2nat,
{
    let (s1, r1) = p_primary(st);
    match r1 {
        Err(e) => (s1, Err(e)),
        Ok(left) => match p_peek(s1) {
            Err(e) => (s1, Err(e)),
            Ok(t) => if t.kind == Kind::LeftParen {
                let (s2, r2) = p_consume(s1, Kind::LeftParen);
                match r2 {
                    Err(e) => (s2, Err(e)),
                    Ok(open) => if s2.tokens.len() < st.tokens.len() {
                        let (s3, r3) = p_call_args(s2);
                        match r3 {
                            Err(e) => (s3, Err(e)),
                            Ok(ad) => {
                                let (s4, r4) = p_consume(s3, Kind::RightParen);
                                match r4 {
                                    Err(e) => (s4, Err(e)),
                                    Ok(close) => (s4, Ok(ExprV::Call {
                                        left: Box::new(left),
                                        args: ad.0,
                                        parens: (open, close),
                                        delimiters: ad.1,
                                    })),
                                }
                            },
                        }
                    } else {
                        (s2, Err(stalled()))
                    },
                }
            } else {
                (s1, Ok(left))
            },
        },
    }
}

/// The arguments of a call, with the commas between them.
pub open spec fn p_call_args(st: PState) -> Outcome<(Seq<ExprV>, Seq<Token>)>
    decreases st.tokens.len(), 16nat,
{
    match p_peek(st) {
        Err(e) => (st, Err(e)),
        Ok(t) => if t.kind == Kind::RightParen {
            (st, Ok((Seq::empty(), Seq::empty())))
        } else {
            let (s1, r1) = p_expression(st);
            match r1 {
                Err(e) => (s1, Err(e)),
                Ok(a) => if s1.tokens.len() < st.tokens.len() {
                    p_call_args_tail(s1, seq![a], Seq::empty())
                } else {
                    (s1, Err(stalled()))
                },
            }
        },
    }
}

pub open spec fn p_call_args_tail(st: PState, args: Seq<ExprV>, delimiters: Seq<Token>) -> Outcome<(Seq<ExprV>, Seq<Token>)>
    decreases st.tokens.len(), 0nat,
{
    match p_peek(st) {
        Err(e) => (st, Err(e)),
        Ok(t) => if t.kind == Kind::Comma {
            let (s1, r1) = p_consume(st, Kind::Comma);
            match r1 {
                Err(e) => (s1, Err(e)),
                Ok(c) => if s1.tokens.len() < st.tokens.len() {
                    let (s2, r2) = p_expression(s1);
                    match r2 {
                        Err(e) => (s2, Err(e)),
                        Ok(a) => if s2.tokens.len() < st.tokens.len() {
                            p_call_args_tail(s2, args.push(a), delimiters.push(c))
                        } else {
                            (s2, Err(stalled()))
                        },
                    }
                } else {
                    (s1, Err(stalled()))
                },
            }
        } else {
            (st, Ok((args, delimiters)))
        },
    }
}

/// The expression a well-formed literal token stands for.
pub open spec fn p_literal(tok: Token) -> ExprV {
    let s = token_text(tok);
    if s == "true"@ || s == "false"@ {
        ExprV::Bool(Literal { value: s == "true"@, token: tok })
    } else if s[0] == '"' {
        ExprV::Str(Literal { value: tok.lexeme->0, token: tok })
    } else if has_char(s, '.') {
        ExprV::Float(Literal { value: tok.lexeme->0, token: tok })
    } else {
        ExprV::Int(Literal { value: digits_value(s) as i64, token: tok })
    }
}

pub open spec fn primary_expected() -> Seq<Kind> {
    seq![Kind::Identifier, Kind::Literal, Kind::LeftParen]
}

pub open spec fn p_primary(st: PState) -> Outcome<ExprV>
    decreases st.tokens.len(), 1nat,
{
    match p_peek(st) {
        Err(e) => (st, Err(e)),
        Ok(t) => if t.kind == Kind::LeftParen {
            let (s1, r1) = p_consume(st, Kind::LeftParen);
            match r1 {
                Err(e) => (s1, Err(e)),
                Ok(_) => if s1.tokens.len() < st.tokens.len() {
                    let (s2, r2) = p_expression(s1);
                    match r2 {
                        Err(e) => (s2, Err(e)),
                        Ok(e) => {
                            let (s3, r3) = p_consume(s2, Kind::RightParen);
                            match r3 {
                                Err(err) => (s3, Err(err)),
                                Ok(_) => (s3, Ok(e)),
                            }
                        },
                    }
                } else {
                    (s1, Err(stalled()))
                },
            }
        } else if t.kind == Kind::Literal {
            let (s1, tok) = p_advance(st);
            (s1, Ok(p_literal(tok->0)))
        } else if t.kind == Kind::Identifier {
            let (s1, name) = p_advance(st);
            match p_peek(s1) {
                Err(e) => (s1, Err(e)),
                Ok(t1) => if t1.kind == Kind::Colon {
                    if s1.tokens.len() < st.tokens.len() {
                        p_init(s1, name->0)
                    } else {
                        (s1, Err(stalled()))
                    }
                } else {
                    (s1, Ok(ExprV::Ident(Ident { name: name->0 })))
                },
            }
        } else {
            (st, Err(ParseErrorV::Unhandled(t.kind, t.span, primary_expected())))
        },
    }
}

/// A record initializer after its name: `:init(field: value, ...)`.
pub open spec fn p_init(st: PState, name: Token) -> Outcome<ExprV>
    decreases st.tokens.len(), 0nat,
{
    let (s1, r1) = p_consume(st, Kind::Colon);
    match r1 {
        Err(e) => (s1, Err(e)),
        Ok(_) => {
            let (s2, r2) = p_consume(s1, Kind::Init);
            match r2 {
                Err(e) => (s2, Err(e)),
                Ok(_) => {
                    let (s3, r3) = p_consume(s2, Kind::LeftParen);
                    match r3 {
                        Err(e) => (s3, Err(e)),
                        Ok(open) => if s3.tokens.len() < st.tokens.len() {
                            p_init_loop(s3, name, open, Seq::empty())
                        } else {
                            (s3, Err(stalled()))
                        },
                    }
                },
            }
        },
    }
}

pub open spec fn p_init_loop(st: PState, name: Token, open: Token, acc: Seq<(Token, ExprV)>) -> Outcome<ExprV>
    decreases st.tokens.len(), 0nat,
{
    match p_peek(st) {
        Err(e) => (st, Err(e)),
        Ok(t) => if t.kind == Kind::RightParen {
            let (s1, r1) = p_consume(st, Kind::RightParen);
            match r1 {
                Err(e) => (s1, Err(e)),
                Ok(close) => (s1, Ok(ExprV::Init { name, initializers: acc, parens: (open, close) })),
            }
        } else {
            let (s1, r1) = p_consume(st, Kind::Identifier);
            match r1 {
                Err(e) => (s1, Err(e)),
                Ok(field) => {
                    let (s2, r2) = p_consume(s1, Kind::Colon);
                    match r2 {
                        Err(e) => (s2, Err(e)),
                        Ok(_) => if s2.tokens.len() < st.tokens.len() {
                            let (s3, r3) = p_expression(s2);
                            match r3 {
                                Err(e) => (s3, Err(e)),
                                Ok(v) => match p_peek(s3) {
                                    Err(e) => (s3, Err(e)),
                                    Ok(t3) => {
                                        let (s4, r4) = if t3.kind != Kind::RightParen {
                                            p_consume(s3, Kind::Comma)
                                        } else {
                                            (s3, Ok(t3))
                                        };
                                        match r4 {
                                            Err(e) => (s4, Err(e)),
                                            Ok(_) => if s4.tokens.len() < st.tokens.len() {
                                                p_init_loop(s4, name, open, acc.push((field, v)))
                                            } else {
                                                (s4, Err(stalled()))
                                            },
                                        }
                                    },
                                },
                            }
                        } else {
                            (s2, Err(stalled()))
                        },
                    }
                },
            }
        },
    }
}


// ----------------------------------------------------------------------
// Statements
// ----------------------------------------------------------------------

pub open spec fn p_range(st: PState) -> Outcome<ExprV> {
    let (s1, r1) = p_consume(st, Kind::LeftBracket);
    match r1 {
        Err(e) => (s1, Err(e)),
        Ok(left) => {
            let (s2, r2) = p_expression(s1);
            match r2 {
                Err(e) => (s2, Err(e)),
                Ok(start) => {
                    let (s3, r3) = p_consume(s2, Kind::Comma);
                    match r3 {
                        Err(e) => (s3, Err(e)),
                        Ok(_) => {
                            let (s4, r4) = p_expression(s3);
                            match r4 {
                                Err(e) => (s4, Err(e)),
                                Ok(end) => {
                                    let (s5, r5) = p_consume(s4, Kind::RightBracket);
                                    match r5 {
                                        Err(e) => (s5, Err(e)),
                                        Ok(right) => (s5, Ok(ExprV::Range(Box::new(start), Box::new(end), (left, right)))),
                                    }
                                },
                            }
                        },
                    }
                },
            }
        },
    }
}

pub open spec fn p_statement(st: PState) -> Outcome<StmtV>
    decreases st.tokens.len(), 2nat,
{
    match p_peek(st) {
        Err(e) => (st, Err(e)),
        Ok(t) => if t.kind == Kind::Let {
            p_declaration(st)
        } else if t.kind == Kind::If {
            p_condition(st)
        } else if t.kind == Kind::For {
            p_for(st)
        } else if t.kind == Kind::While {
            p_while(st)
        } else if t.kind == Kind::Return {
            let (s1, r1) = p_consume(st, Kind::Return);
            match r1 {
                Err(e) => (s1, Err(e)),
                Ok(keyword) => {
                    let (s2, r2) = p_expression(s1);
                    match r2 {
                        Err(e) => (s2, Err(e)),
                        Ok(expr) => {
                            let (s3, r3) = p_consume(s2, Kind::Semicolon);
                            match r3 {
                                Err(e) => (s3, Err(e)),
                                Ok(_) => (s3, Ok(StmtV::Return { expr, keyword })),
                            }
                        },
                    }
                },
            }
        } else {
            p_assignment(st)
        },
    }
}

pub open spec fn p_declaration(st: PState) -> Outcome<StmtV>
    decreases st.tokens.len(), 1nat,
{
    let (s1, r1) = p_consume(st, Kind::Let);
    match r1 {
        Err(e) => (s1, Err(e)),
        Ok(_) => {
            let (s2, r2) = p_consume(s1, Kind::Identifier);
            match r2 {
                Err(e) => (s2, Err(e)),
                Ok(name) => {
                    let (s3, r3) = p_consume(s2, Kind::Colon);
                    match r3 {
                        Err(e) => (s3, Err(e)),
                        Ok(_) => {
                            let (s4, r4) = p_ty(s3);
                            match r4 {
                                Err(e) => (s4, Err(e)),
                                Ok(ty) => {
                                    let (s5, r5) = p_consume(s4, Kind::Equal);
                                    match r5 {
                                        Err(e) => (s5, Err(e)),
                                        Ok(_) => {
                                            let (s6, r6) = p_expression(s5);
                                            match r6 {
                                                Err(e) => (s6, Err(e)),
                                                Ok(expr) => {
                                                    let (s7, r7) = p_consume(s6, Kind::Semicolon);
                                                    match r7 {
                                                        Err(e) => (s7, Err(e)),
                                                        Ok(_) => (s7, Ok(StmtV::Var { name, ty, expr })),
                                                    }
                                                },
                                            }
                                        },
                                    }
                                },
                            }
                        },
                    }
                },
            }
        },
    }
}

pub open spec fn p_condition(st: PState) -> Outcome<StmtV>
    decreases st.tokens.len(), 1nat,
{
    let (s1, r1) = p_consume(st, Kind::If);
    match r1 {
        Err(e) => (s1, Err(e)),
        Ok(_) => {
            let (s2, r2) = p_expression(s1);
            match r2 {
                Err(e) => (s2, Err(e)),
                Ok(condition) => if s2.tokens.len() < st.tokens.len() {
                    let (s3, r3) = p_block(s2);
                    match r3 {
                        Err(e) => (s3, Err(e)),
                        Ok(is) => match p_peek(s3) {
                            Err(e) => (s3, Err(e)),
                            Ok(t) => if t.kind == Kind::Else {
                                let (s4, r4) = p_consume(s3, Kind::Else);
                                match r4 {
                                    Err(e) => (s4, Err(e)),
                                    Ok(_) => if s4.tokens.len() < st.tokens.len() {
                                        let (s5, r5) = p_block(s4);
                                        match r5 {
                                            Err(e) => (s5, Err(e)),
                                            Ok(otherwise) => (s5, Ok(StmtV::If { condition, is, otherwise })),
                                        }
                                    } else {
                                        (s4, Err(stalled()))
                                    },
                                }
                            } else {
                                (s3, Ok(StmtV::If { condition, is, otherwise: Seq::empty() }))
                            },
                        },
                    }
                } else {
                    (s2, Err(stalled()))
                },
            }
        },
    }
}

pub open spec fn p_for(st: PState) -> Outcome<StmtV>
    decreases st.tokens.len(), 1nat,
{
    let (s1, r1) = p_consume(st, Kind::For);
    match r1 {
        Err(e) => (s1, Err(e)),
        Ok(_) => {
            let (s2, r2) = p_consume(s1, Kind::Identifier);
            match r2 {
                Err(e) => (s2, Err(e)),
                Ok(index) => {
                    let (s3, r3) = p_consume(s2, Kind::In);
                    match r3 {
                        Err(e) => (s3, Err(e)),
                        Ok(_) => {
                            let (s4, r4) = p_range(s3);
                            match r4 {
                                Err(e) => (s4, Err(e)),
                                Ok(range) => if s4.tokens.len() < st.tokens.len() {
                                    let (s5, r5) = p_block(s4);
                                    match r5 {
                                        Err(e) => (s5, Err(e)),
                                        Ok(body) => (s5, Ok(StmtV::For { index, range, body })),
                                    }
                                } else {
                                    (s4, Err(stalled()))
                                },
                            }
                        },
                    }
                },
            }
        },
    }
}

pub open spec fn p_while(st: PState) -> Outcome<StmtV>
    decreases st.tokens.len(), 1nat,
{
    let (s1, r1) = p_consume(st, Kind::While);
    match r1 {
        Err(e) => (s1, Err(e)),
        Ok(_) => {
            let (s2, r2) = p_expression(s1);
            match r2 {
                Err(e) => (s2, Err(e)),
                Ok(condition) => if s2.tokens.len() < st.tokens.len() {
                    let (s3, r3) = p_block(s2);
                    match r3 {
                        Err(e) => (s3, Err(e)),
                        Ok(body) => (s3, Ok(StmtV::While { condition, body })),
                    }
                } else {
                    (s2, Err(stalled()))
                },
            }
        },
    }
}

pub open spec fn p_assignment(st: PState) -> Outcome<StmtV>
    decreases st.tokens.len(), 1nat,
{
    let (s1, r1) = p_expression(st);
    match r1 {
        Err(e) => (s1, Err(e)),
        Ok(item) => match p_peek(s1) {
            Err(e) => (s1, Err(e)),
            Ok(t) => if t.kind == Kind::Equal {
                let (s2, r2) = p_consume(s1, Kind::Equal);
                match r2 {
                    Err(e) => (s2, Err(e)),
                    Ok(_) => {
                        let (s3, r3) = p_expression(s2);
                        match r3 {
                            Err(e) => (s3, Err(e)),
                            Ok(right) => {
                                let (s4, r4) = p_consume(s3, Kind::Semicolon);
                                match r4 {
                                    Err(e) => (s4, Err(e)),
                                    Ok(_) => (s4, Ok(StmtV::Assign { target: item, expr: right })),
                                }
                            },
                        }
                    },
                }
            } else {
                let (s2, r2) = p_consume(s1, Kind::Semicolon);
                match r2 {
                    Err(e) => (s2, Err(e)),
                    Ok(_) => (s2, Ok(StmtV::Expr(item))),
                }
            },
        },
    }
}

/// A block `{ statement... }`; a statement that fails is reported, the parser skips to
/// the next statement boundary, and the block goes on.
pub open spec fn p_block(st: PState) -> Outcome<Seq<StmtV>>
    decreases st.tokens.len(), 0nat,
{
    let (s1, r1) = p_consume(st, Kind::LeftBrace);
    match r1 {
        Err(e) => (s1, Err(e)),
        Ok(_) => if s1.tokens.len() < st.tokens.len() {
            p_block_loop(s1, Seq::empty())
        } else {
            (s1, Err(stalled()))
        },
    }
}

pub open spec fn p_block_loop(st: PState, acc: Seq<StmtV>) -> Outcome<Seq<StmtV>>
    decreases st.tokens.len(), 3nat,
{
    match p_peek(st) {
        Err(e) => (st, Err(e)),
        Ok(t) => if t.kind == Kind::RightBrace {
            let (s1, r1) = p_consume(st, Kind::RightBrace);
            match r1 {
                Err(e) => (s1, Err(e)),
                Ok(_) => (s1, Ok(acc)),
            }
        } else {
            let (s1, r1) = p_statement(st);
            let (s2, acc2) = match r1 {
                Ok(stmt) => (s1, acc.push(stmt)),
                Err(e) => (p_synchronize(p_error(s1, e), true), acc),
            };
            if s2.tokens.len() < st.tokens.len() {
                p_block_loop(s2, acc2)
            } else {
                (s2, Err(stalled()))
            }
        },
    }
}

// ----------------------------------------------------------------------
// Declarations
// ----------------------------------------------------------------------

/// A function `[extern] fun name[<T...>](params)[: type] { body }`; an external function
/// has no body. In a method, `method` is the class's name.
pub open spec fn p_function(st: PState, method: Option<Token>, external: bool) -> Outcome<FuncDeclV> {
    let (s0, r0) = if external {
        p_consume(st, Kind::Extern)
    } else {
        (st, Ok(Token { kind: Kind::Fun, lexeme: None, span: Span { line: 0, column: 0, length: 0 } }))
    };
    match r0 {
        Err(e) => (s0, Err(e)),
        Ok(_) => {
            let (s1, r1) = p_consume(s0, Kind::Fun);
            match r1 {
                Err(e) => (s1, Err(e)),
                Ok(_) => {
                    let (s2, r2) = p_consume(s1, Kind::Identifier);
                    match r2 {
                        Err(e) => (s2, Err(e)),
                        Ok(name) => match p_peek(s2) {
                            Err(e) => (s2, Err(e)),
                            Ok(t2) => {
                                let (s3, r3) = if t2.kind == Kind::Less {
                                    p_type_parameters(s2)
                                } else {
                                    (s2, Ok(Seq::empty()))
                                };
                                match r3 {
                                    Err(e) => (s3, Err(e)),
                                    Ok(tp) => {
                                        let (s4, r4) = p_consume(s3, Kind::LeftParen);
                                        match r4 {
                                            Err(e) => (s4, Err(e)),
                                            Ok(_) => {
                                                let (s5, r5) = p_params_loop(s4, method, 0, Seq::empty());
                                                match r5 {
                                                    Err(e) => (s5, Err(e)),
                                                    Ok(params) => {
                                                        let (s6, r6) = p_consume(s5, Kind::RightParen);
                                                        match r6 {
                                                            Err(e) => (s6, Err(e)),
                                                            Ok(_) => p_function_rest(s6, name, tp, params, external),
                                                        }
                                                    },
                                                }
                                            },
                                        }
                                    },
                                }
                            },
                        },
                    }
                },
            }
        },
    }
}

/// The rest of a function after its parameters: the optional return type and the body.
pub open spec fn p_function_rest(
    st: PState,
    name: Token,
    type_params: Seq<TypeParameter>,
    params: Seq<BindingV>,
    external: bool,
) -> Outcome<FuncDeclV> {
    match p_peek(st) {
        Err(e) => (st, Err(e)),
        Ok(t) => {
            let (s1, r1) = if t.kind == Kind::Colon {
                let (sa, ra) = p_consume(st, Kind::Colon);
                match ra {
                    Err(e) => (sa, Err(e)),
                    Ok(_) => {
                        let (sb, rb) = p_ty(sa);
                        match rb {
                            Err(e) => (sb, Err(e)),
                            Ok(ty) => (sb, Ok(Some(ty))),
                        }
                    },
                }
            } else {
                (st, Ok(None))
            };
            match r1 {
                Err(e) => (s1, Err(e)),
                Ok(ty) => {
                    let (s2, r2) = if external {
                        (s1, Ok(Seq::empty()))
                    } else {
                        p_block(s1)
                    };
                    match r2 {
                        Err(e) => (s2, Err(e)),
                        Ok(body) => (
                            PState { functions: next_id(s2.functions), ..s2 },
                            Ok(FuncDeclV { name, params, ty, type_params, body, external, id: s2.functions }),
                        ),
                    }
                },
            }
        },
    }
}

pub open spec fn p_constant(st: PState) -> Outcome<DeclV> {
    let (s1, r1) = p_consume(st, Kind::Const);
    match r1 {
        Err(e) => (s1, Err(e)),
        Ok(_) => {
            let (s2, r2) = p_consume(s1, Kind::Identifier);
            match r2 {
                Err(e) => (s2, Err(e)),
                Ok(name) => {
                    let (s3, r3) = p_consume(s2, Kind::Colon);
                    match r3 {
                        Err(e) => (s3, Err(e)),
                        Ok(_) => {
                            let (s4, r4) = p_ty(s3);
                            match r4 {
                                Err(e) => (s4, Err(e)),
                                Ok(ty) => {
                                    let (s5, r5) = p_consume(s4, Kind::Equal);
                                    match r5 {
                                        Err(e) => (s5, Err(e)),
                                        Ok(_) => {
                                            let (s6, r6) = p_expression(s5);
                                            match r6 {
                                                Err(e) => (s6, Err(e)),
                                                Ok(expr) => {
                                                    let (s7, r7) = p_consume(s6, Kind::Semicolon);
                                                    match r7 {
                                                        Err(e) => (s7, Err(e)),
                                                        Ok(_) => (s7, Ok(DeclV::Constant { name, ty, expr })),
                                                    }
                                                },
                                            }
                                        },
                                    }
                                },
                            }
                        },
                    }
                },
            }
        },
    }
}

/// A class `class Name[<T...>][: Parent] { fields methods }`.
pub open spec fn p_class(st: PState) -> Outcome<DeclV> {
    let (s1, r1) = p_consume(st, Kind::Class);
    match r1 {
        Err(e) => (s1, Err(e)),
        Ok(_) => {
            let (s2, r2) = p_consume(s1, Kind::Identifier);
            match r2 {
                Err(e) => (s2, Err(e)),
                Ok(name) => match p_peek(s2) {
                    Err(e) => (s2, Err(e)),
                    Ok(t2) => {
                        let (s3, r3) = if t2.kind == Kind::Less {
                            let (sa, ra) = p_type_parameters(s2);
                            match ra {
                                Err(e) => (sa, Err(e)),
                                Ok(tp) => (sa, Ok(Some(tp))),
                            }
                        } else {
                            (s2, Ok(None))
                        };
                        match r3 {
                            Err(e) => (s3, Err(e)),
                            Ok(tp) => match p_peek(s3) {
                                Err(e) => (s3, Err(e)),
                                Ok(t3) => {
                                    let (s4, r4) = if t3.kind == Kind::Colon {
                                        let (sa, ra) = p_consume(s3, Kind::Colon);
                                        match ra {
                                            Err(e) => (sa, Err(e)),
                                            Ok(_) => {
                                                let (sb, rb) = p_consume(sa, Kind::Identifier);
                                                match rb {
                                                    Err(e) => (sb, Err(e)),
                                                    Ok(p) => (sb, Ok(Some(p))),
                                                }
                                            },
                                        }
                                    } else {
                                        (s3, Ok(None))
                                    };
                                    match r4 {
                                        Err(e) => (s4, Err(e)),
                                        Ok(parent) => {
                                            let (s5, r5) = p_consume(s4, Kind::LeftBrace);
                                            match r5 {
                                                Err(e) => (s5, Err(e)),
                                                Ok(_) => {
                                                    let (s6, r6) = p_fields_loop(s5, Seq::empty());
                                                    match r6 {
                                                        Err(e) => (s6, Err(e)),
                                                        Ok(fields) => {
                                                            let (s7, r7) = p_methods_loop(s6, name, Seq::empty());
                                                            match r7 {
                                                                Err(e) => (s7, Err(e)),
                                                                Ok(methods) => (s7, Ok(DeclV::Class {
                                                                    name,
                                                                    fields,
                                                                    methods,
                                                                    parent,
                                                                    type_params: tp,
                                                                })),
                                                            }
                                                        },
                                                    }
                                                },
                                            }
                                        },
                                    }
                                },
                            },
                        }
                    },
                },
            }
        },
    }
}

/// The methods of a class, up to and including `}`.
pub open spec fn p_methods_loop(st: PState, class: Token, acc: Seq<FuncDeclV>) -> Outcome<Seq<FuncDeclV>>
    decreases st.tokens.len(),
{
    match p_peek(st) {
        Err(e) => (st, Err(e)),
        Ok(t) => if t.kind == Kind::RightBrace {
            let (s1, r1) = p_consume(st, Kind::RightBrace);
            match r1 {
                Err(e) => (s1, Err(e)),
                Ok(_) => (s1, Ok(acc)),
            }
        } else {
            let (s1, r1) = p_function(st, Some(class), false);
            match r1 {
                Err(e) => (s1, Err(e)),
                Ok(f) => if s1.tokens.len() < st.tokens.len() {
                    p_methods_loop(s1, class, acc.push(f))
                } else {
                    (s1, Err(stalled()))
                },
            }
        },
    }
}

pub open spec fn toplevel_expected() -> Seq<Kind> {
    seq![Kind::Fun, Kind::Const]
}

/// One declaration at the top level, chosen by its first token.
pub open spec fn p_toplevel(st: PState, t: Token) -> Outcome<DeclV> {
    if t.kind == Kind::Class {
        p_class(st)
    } else if t.kind == Kind::Fun || t.kind == Kind::Extern {
        let (s1, r1) = p_function(st, None, t.kind == Kind::Extern);
        match r1 {
            Err(e) => (s1, Err(e)),
            Ok(f) => (s1, Ok(DeclV::Function(f))),
        }
    } else if t.kind == Kind::Const {
        p_constant(st)
    } else {
        let (s1, tok) = p_advance(st);
        (s1, Err(ParseErrorV::Unhandled(tok->0.kind, tok->0.span, toplevel_expected())))
    }
}

/// Declarations up to the end of the input (or an end-of-file token); a declaration that
/// fails is reported and the parser skips to the next declaration boundary.
pub open spec fn p_parse_loop(st: PState, acc: Seq<DeclV>) -> (PState, Seq<DeclV>)
    decreases st.tokens.len(),
{
    match p_peek(st) {
        Err(_) => (st, acc),
        Ok(t) => if t.kind == Kind::Eof {
            (st, acc)
        } else {
            let (s1, r1) = p_toplevel(st, t);
            let (s2, acc2) = match r1 {
                Ok(d) => (s1, acc.push(d)),
                Err(e) => (p_synchronize(p_error(s1, e), false), acc),
            };
            if s2.tokens.len() < st.tokens.len() {
                p_parse_loop(s2, acc2)
            } else {
                (s2, acc2)
            }
        },
    }
}

/// The whole input: the declarations, and the state at the end (whose errors decide
/// whether the parse succeeded).
pub open spec fn p_parse(st: PState) -> (PState, Seq<DeclV>) {
    p_parse_loop(st, Seq::empty())
}

} // verus!
