//! A recursive-descent parser from tokens to declarations, with error recovery.
//!
//! The grammar is stated as spec functions over a parser state (`PState`): each one
//! returns the state after it and its result. Every parsing method of `Parser` is proved
//! to do exactly what the spec function of the same name says.
use vstd::prelude::*;
use std::collections::VecDeque;
use crate::token::{Kind, Span, Token, token_text, kind_text};
use crate::ast::{
    TypeRef, TypeRefV, TypeParameter, Param, Field, BindingV, Literal, Ident, Binary, Unary, Call,
    Access, Initializer, Init, Range, Expr, ExprV, VarDecl, Assign, Return, If, While, For, Stmt,
    StmtV, FuncDecl, FuncDeclV, ConstantDecl, ClassDecl, Decl, DeclV, view_types, view_params,
    view_fields, view_exprs, view_inits, view_stmts, view_funcs, view_decls, clone_exprs, clone_expr,
    lemma_view_exprs_concat,
};
use crate::error::{PreciseError, ErrorV, Source, lines_view};
use crate::grammar::{
    Outcome, PState, ParseErrorV, detail_text, diagnostic, follows, heading_text, kinds_list, lemma_follows_refl, lemma_follows_same_tokens, lemma_follows_trans, level_op, literal_wf, live, next_is, p_access, p_access_tail, p_advance, p_assignment, p_block, p_block_loop, p_call, p_call_args, p_call_args_tail, p_class, p_condition, p_constant, p_consume, p_declaration, p_error, p_expression, p_fields_loop, p_finish_access, p_for, p_function, p_function_rest, p_init, p_init_loop, p_level, p_level_tail, p_literal, p_methods_loop, p_operand, p_params_loop, p_parse, p_parse_loop, p_peek, p_primary, p_range, p_statement, p_sync_loop, p_synchronize, p_toplevel, p_ty, p_ty_args, p_type_parameters, p_type_params_loop, p_unary, p_while, settled, stalled, tokens_wf,
};
use crate::text::{digits_value, all_digits, has_char, parse_digits, contains_char, str_equal};

verus! {

broadcast use {lemma_follows_trans, lemma_follows_refl};

/// Why a piece of the input could not be parsed.
#[derive(Debug)]
pub enum ParseError {
    UnexpectedEof(Span),
    /// (expected, where, found)
    Expected(Kind, Span, Kind),
    /// (found, where, what would have been accepted)
    Unhandled(Kind, Span, Vec<Kind>),
}

impl View for ParseError {
    type V = ParseErrorV;

    open spec fn view(&self) -> ParseErrorV {
        match self {
            ParseError::UnexpectedEof(s) => ParseErrorV::UnexpectedEof(*s),
            ParseError::Expected(k, s, f) => ParseErrorV::Expected(*k, *s, *f),
            ParseError::Unhandled(k, s, ks) => ParseErrorV::Unhandled(*k, *s, ks@),
        }
    }
}

pub struct Parser<'a> {
    source: &'a Source,
    tokens: VecDeque<Token>,
    errors: Vec<PreciseError>,
    previous: Option<Token>,
    panic: bool,
    functions: usize,
    accesses: usize,
}

pub open spec fn errors_view(errors: Seq<PreciseError>) -> Seq<ErrorV> {
    Seq::new(errors.len(), |i: int| errors[i]@)
}

impl<'a> View for Parser<'a> {
    type V = PState;

    closed spec fn view(&self) -> PState {
        PState {
            lines: lines_view(self.source.lines@),
            tokens: self.tokens@,
            errors: errors_view(self.errors@),
            previous: self.previous,
            panic: self.panic,
            functions: self.functions,
            accesses: self.accesses,
        }
    }
}

pub open spec fn vtok(r: Result<Token, ParseError>) -> Result<Token, ParseErrorV> {
    match r {
        Ok(t) => Ok(t),
        Err(e) => Err(e@),
    }
}


pub open spec fn vres<T: View>(r: Result<T, ParseError>) -> Result<T::V, ParseErrorV> {
    match r {
        Ok(t) => Ok(t@),
        Err(e) => Err(e@),
    }
}

pub open spec fn vvec<T>(r: Result<Vec<T>, ParseError>) -> Result<Seq<T>, ParseErrorV> {
    match r {
        Ok(t) => Ok(t@),
        Err(e) => Err(e@),
    }
}

pub open spec fn vparams(r: Result<Vec<Param>, ParseError>) -> Result<Seq<BindingV>, ParseErrorV> {
    match r {
        Ok(t) => Ok(view_params(t@)),
        Err(e) => Err(e@),
    }
}

pub open spec fn vfields(r: Result<Vec<Field>, ParseError>) -> Result<Seq<BindingV>, ParseErrorV> {
    match r {
        Ok(t) => Ok(view_fields(t@)),
        Err(e) => Err(e@),
    }
}

pub open spec fn wrap_named(base: Token, o: Outcome<Seq<TypeRefV>>) -> Outcome<TypeRefV> {
    match o.1 {
        Ok(params) => (o.0, Ok(TypeRefV::Named { name: base, params })),
        Err(e) => (o.0, Err(e)),
    }
}


pub open spec fn vargs(r: Result<(Vec<Expr>, Vec<Token>), ParseError>) -> Result<(Seq<ExprV>, Seq<Token>), ParseErrorV> {
    match r {
        Ok(t) => Ok((view_exprs(t.0@), t.1@)),
        Err(e) => Err(e@),
    }
}

fn is_level_op(n: usize, k: Kind) -> (r: bool)
    ensures
        r == level_op(n as nat, k),
{
    if n == 4 {
        matches!(k, Kind::BangEqual | Kind::EqualEqual)
    } else if n == 3 {
        matches!(k, Kind::Greater | Kind::GreaterEqual | Kind::Less | Kind::LessEqual)
    } else if n == 2 {
        matches!(k, Kind::Minus | Kind::Plus)
    } else {
        matches!(k, Kind::Slash | Kind::Star)
    }
}

/// The expression a well-formed literal token stands for.
fn literal(token: Token) -> (r: Expr)
    requires
        token.kind == Kind::Literal,
        literal_wf(token),
    ensures
        r@ == p_literal(token),
{
    let lexeme = token.text();
    let text = lexeme.as_str();
    proof {
        reveal_strlit("true");
        reveal_strlit("false");
    }
    if str_equal(text, "true") || str_equal(text, "false") {
        let value = str_equal(text, "true");
        Literal::bool(value, token)
    } else if text.get_char(0) == '"' {
        Literal::string(lexeme, token)
    } else if contains_char(text, '.') {
        Literal::float(lexeme, token)
    } else {
        let value = parse_digits(text);
        Literal::integer(value, token)
    }
}

proof fn lemma_view_one(e: Expr)
    ensures
        view_exprs(seq![e]) == seq![e@],
{
    assert(seq![e].drop_last() == Seq::<Expr>::empty());
    assert(view_exprs(Seq::<Expr>::empty()) == Seq::<ExprV>::empty());
    assert(view_exprs(seq![e]) == view_exprs(seq![e].drop_last()).push(e@));
}


pub open spec fn vstmts(r: Result<Vec<Stmt>, ParseError>) -> Result<Seq<StmtV>, ParseErrorV> {
    match r {
        Ok(t) => Ok(view_stmts(t@)),
        Err(e) => Err(e@),
    }
}

pub open spec fn vfunc(r: Result<Decl, ParseError>) -> Result<FuncDeclV, ParseErrorV> {
    match r {
        Ok(Decl::Function(f)) => Ok(f@),
        Ok(_) => Err(stalled()),
        Err(e) => Err(e@),
    }
}

pub open spec fn wrap_class(
    name: Token,
    fields: Seq<BindingV>,
    parent: Option<Token>,
    type_params: Option<Seq<TypeParameter>>,
    o: Outcome<Seq<FuncDeclV>>,
) -> Outcome<DeclV> {
    match o.1 {
        Err(e) => (o.0, Err(e)),
        Ok(methods) => (o.0, Ok(DeclV::Class { name, fields, methods, parent, type_params })),
    }
}

pub open spec fn tp_view(tp: Option<Vec<TypeParameter>>) -> Option<Seq<TypeParameter>> {
    match tp {
        Some(v) => Some(v@),
        None => None,
    }
}

/// What the whole parse gives: the declarations when no error was reported, else the
/// diagnostics.
pub open spec fn parse_result(old: PState, r: Result<Vec<Decl>, &Vec<PreciseError>>, last: PState) -> bool {
    &&& last == p_parse(old).0
    &&& match r {
        Ok(v) => last.errors.len() == 0 && view_decls(v@) == p_parse(old).1,
        Err(es) => last.errors.len() > 0 && errors_view(es@) == last.errors,
    }
}

impl<'a> Parser<'a> {
    /// A parser over `tokens` of `source`, with no error reported.
    pub fn new(source: &'a Source, tokens: VecDeque<Token>) -> (r: Self)
        requires
            tokens_wf(tokens@),
        ensures
            r.wf(),
            r@ == (PState {
                lines: lines_view(source.lines@),
                tokens: tokens@,
                errors: Seq::empty(),
                previous: None,
                panic: false,
                functions: 0,
                accesses: 0,
            }),
    {
        let r = Self {
            source,
            tokens,
            panic: false,
            errors: Vec::new(),
            previous: None,
            functions: 0,
            accesses: 0,
        };
        assert(errors_view(r.errors@) =~= Seq::<ErrorV>::empty());
        r
    }

    /// The tokens left to read are well formed.
    pub closed spec fn wf(&self) -> bool {
        tokens_wf(self.tokens@)
    }

    pub fn eof(&self) -> (r: bool)
        ensures
            r == (self@.tokens.len() == 0),
    {
        self.tokens.len() == 0
    }

    pub fn peek(&self) -> (r: Result<&Token, ParseError>)
        ensures
            match r {
                Ok(t) => p_peek(self@) == Ok::<Token, ParseErrorV>(*t),
                Err(e) => p_peek(self@) == Err::<Token, ParseErrorV>(e@),
            },
    {
        let span = if self.previous.is_some() {
            if self.eof() {
                return Err(ParseError::UnexpectedEof(Span::new(0, 0, 0)));
            }
            match &self.previous {
                Some(p) => p.span,
                None => Span::new(0, 0, 0),
            }
        } else {
            Span::new(0, 0, 0)
        };
        if self.tokens.len() > 0 {
            Ok(&self.tokens[0])
        } else {
            Err(ParseError::UnexpectedEof(span))
        }
    }

    fn advance(&mut self) -> (r: Option<Token>)
        requires
            old(self).wf(),
        ensures
            final(self).wf(),
            follows(old(self)@, final(self)@),
            (final(self)@, r) == p_advance(old(self)@),
    {
        let previous = self.tokens.pop_front();
        self.previous = match &previous {
            Some(t) => Some(t.clone()),
            None => None,
        };
        proof {
            if old(self)@.tokens.len() > 0 {
                assert(self.tokens@ == old(self)@.tokens.drop_first());
                assert forall|i: int| 0 <= i < self.tokens@.len() implies literal_wf(#[trigger] self.tokens@[i]) by {
                    assert(self.tokens@[i] == old(self)@.tokens[i + 1]);
                }
                assert(old(self)@.tokens.skip(1) == old(self)@.tokens.drop_first());
            } else {
                assert(old(self)@.tokens.skip(0) == old(self)@.tokens);
            }
            assert(self@.errors.take(old(self)@.errors.len() as int) =~= old(self)@.errors);
        }
        previous
    }

    fn consume(&mut self, kind: Kind) -> (r: Result<Token, ParseError>)
        requires
            old(self).wf(),
            live(old(self)@),
        ensures
            final(self).wf(),
            live(final(self)@),
            follows(old(self)@, final(self)@),
            (final(self)@, vtok(r)) == p_consume(old(self)@, kind),
    {
        if self.eof() {
            proof { lemma_follows_refl(self@); }
            let span = match &self.previous {
                Some(p) => p.span,
                None => Span::new(0, 0, 0),
            };
            return Err(ParseError::Expected(kind, span, Kind::Eof));
        }
        let token = match self.advance() {
            Some(t) => t,
            None => return Err(ParseError::UnexpectedEof(Span::new(0, 0, 0))),
        };
        assert(old(self)@.tokens.skip(1) == old(self)@.tokens.drop_first());
        if token.kind == kind {
            Ok(token)
        } else {
            Err(ParseError::Expected(kind, token.span, token.kind))
        }
    }


    fn ty(&mut self) -> (r: Result<TypeRef, ParseError>)
        requires
            old(self).wf(),
            live(old(self)@),
        ensures
            final(self).wf(),
            follows(old(self)@, final(self)@),
            r is Ok ==> live(final(self)@) && final(self)@.tokens.len() < old(self)@.tokens.len(),
            (final(self)@, vres(r)) == p_ty(old(self)@),
        decreases old(self)@.tokens.len(),
    {
        let base = self.consume(Kind::Identifier)?;
        if self.peek()?.kind == Kind::Less {
            let ghost s1 = self@;
            self.consume(Kind::Less)?;
            let mut params: Vec<TypeRef> = Vec::new();
            loop
                invariant
                    self.wf(),
                    live(self@),
                    follows(old(self)@, self@),
                    self@.tokens.len() < old(self)@.tokens.len(),
                    p_ty(old(self)@) == wrap_named(base, p_ty_args(self@, view_types(params@))),
                decreases self@.tokens.len(),
            {
                let ghost s0 = self@;
                if self.peek()?.kind == Kind::Greater {
                    self.consume(Kind::Greater)?;
                    return Ok(TypeRef { name: base, params });
                }
                let t = self.ty()?;
                let ghost s2 = self@;
                let ghost before = params@;
                params.push(t);
                if self.peek()?.kind != Kind::Greater {
                    self.consume(Kind::Comma)?;
                }
                proof {
                    lemma_follows_refl(s2);
                    assert(params@.drop_last() == before);
                }
            }
        } else {
            proof { assert(view_types(Seq::<TypeRef>::empty()) == Seq::<TypeRefV>::empty()); }
            Ok(TypeRef { name: base, params: Vec::new() })
        }
    }


    fn type_parameters(&mut self) -> (r: Result<Vec<TypeParameter>, ParseError>)
        requires
            old(self).wf(),
            live(old(self)@),
        ensures
            final(self).wf(),
            follows(old(self)@, final(self)@),
            r is Ok ==> live(final(self)@) && final(self)@.tokens.len() < old(self)@.tokens.len(),
            (final(self)@, vvec(r)) == p_type_parameters(old(self)@),
    {
        let mut tp: Vec<TypeParameter> = Vec::new();
        self.consume(Kind::Less)?;
        loop
            invariant
                self.wf(),
                live(self@),
                follows(old(self)@, self@),
                self@.tokens.len() < old(self)@.tokens.len(),
                p_type_parameters(old(self)@) == p_type_params_loop(self@, tp@),
            decreases self@.tokens.len(),
        {
            if self.peek()?.kind == Kind::Greater {
                self.consume(Kind::Greater)?;
                return Ok(tp);
            }
            let ghost s0 = self@;
            let name = self.consume(Kind::Identifier)?;
            let ghost s1 = self@;
            let next = self.peek()?.kind;
            let bound = if !matches!(next, Kind::Comma | Kind::Greater) {
                self.consume(Kind::Colon)?;
                Some(self.consume(Kind::Identifier)?)
            } else {
                None
            };
            let ghost s2 = self@;
            proof { lemma_follows_refl(s1); lemma_follows_refl(s2); }
            if self.peek()?.kind != Kind::Greater {
                self.consume(Kind::Comma)?;
            }
            tp.push(TypeParameter::new(name, bound));
        }
    }

    fn params(&mut self, method: &Option<Token>) -> (r: Result<Vec<Param>, ParseError>)
        requires
            old(self).wf(),
            live(old(self)@),
        ensures
            final(self).wf(),
            follows(old(self)@, final(self)@),
            r is Ok ==> live(final(self)@),
            (final(self)@, vparams(r)) == p_params_loop(old(self)@, *method, 0, Seq::empty()),
    {
        let mut params: Vec<Param> = Vec::new();
        let mut index: usize = 0;
        proof { lemma_follows_refl(self@); }
        loop
            invariant
                self.wf(),
                live(self@),
                follows(old(self)@, self@),
                index <= 1,
                p_params_loop(old(self)@, *method, 0, Seq::empty())
                    == p_params_loop(self@, *method, index as nat, view_params(params@)),
            decreases self@.tokens.len(),
        {
            if self.peek()?.kind == Kind::RightParen {
                return Ok(params);
            }
            let ghost s0 = self@;
            let name = self.consume(Kind::Identifier)?;
            let ghost s1 = self@;
            let ty = if method.is_some() && index == 0 {
                index += 1;
                TypeRef { name: method.as_ref().unwrap().clone(), params: Vec::new() }
            } else {
                self.consume(Kind::Colon)?;
                self.ty()?
            };
            let ghost s2 = self@;
            proof {
                lemma_follows_refl(s2);
                assert(view_types(Seq::<TypeRef>::empty()) == Seq::<TypeRefV>::empty());
            }
            let ghost before = params@;
            params.push(Param::new(name, ty));
            if self.peek()?.kind != Kind::RightParen {
                self.consume(Kind::Comma)?;
            }
            proof {
                assert(params@.drop_last() == before);
            }
        }
    }

    fn fields(&mut self) -> (r: Result<Vec<Field>, ParseError>)
        requires
            old(self).wf(),
            live(old(self)@),
        ensures
            final(self).wf(),
            follows(old(self)@, final(self)@),
            r is Ok ==> live(final(self)@),
            (final(self)@, vfields(r)) == p_fields_loop(old(self)@, Seq::empty()),
    {
        let mut fields: Vec<Field> = Vec::new();
        proof { lemma_follows_refl(self@); }
        loop
            invariant
                self.wf(),
                live(self@),
                follows(old(self)@, self@),
                p_fields_loop(old(self)@, Seq::empty()) == p_fields_loop(self@, view_fields(fields@)),
            decreases self@.tokens.len(),
        {
            if matches!(self.peek()?.kind, Kind::RightBrace | Kind::Fun) {
                return Ok(fields);
            }
            let name = self.consume(Kind::Identifier)?;
            self.consume(Kind::Colon)?;
            let ty = self.ty()?;
            let ghost s2 = self@;
            proof { lemma_follows_refl(s2); }
            let ghost before = fields@;
            fields.push(Field::new(name, ty));
            if !matches!(self.peek()?.kind, Kind::RightBrace | Kind::Fun) {
                self.consume(Kind::Comma)?;
            }
            proof {
                assert(fields@.drop_last() == before);
            }
        }
    }


    fn expression(&mut self) -> (r: Result<Expr, ParseError>)
        requires
            old(self).wf(),
            live(old(self)@),
        ensures
            final(self).wf(),
            follows(old(self)@, final(self)@),
            r is Ok ==> live(final(self)@) && final(self)@.tokens.len() < old(self)@.tokens.len(),
            (final(self)@, vres(r)) == p_expression(old(self)@),
        decreases old(self)@.tokens.len(), 15nat,
    {
        self.level(4)
    }

    /// An operand of precedence level `n`.
    fn operand(&mut self, n: usize) -> (r: Result<Expr, ParseError>)
        requires
            old(self).wf(),
            live(old(self)@),
            1 <= n <= 4,
        ensures
            final(self).wf(),
            follows(old(self)@, final(self)@),
            r is Ok ==> live(final(self)@) && final(self)@.tokens.len() < old(self)@.tokens.len(),
            (final(self)@, vres(r)) == p_operand(n as nat, old(self)@),
        decreases old(self)@.tokens.len(), 2 * n + 5,
    {
        if n <= 1 {
            self.unary()
        } else {
            self.level(n - 1)
        }
    }

    /// A left-associative chain at precedence level `n` (4: `==` `!=`; 3: `<` `<=` `>`
    /// `>=`; 2: `+` `-`; 1: `*` `/`).
    fn level(&mut self, n: usize) -> (r: Result<Expr, ParseError>)
        requires
            old(self).wf(),
            live(old(self)@),
            1 <= n <= 4,
        ensures
            final(self).wf(),
            follows(old(self)@, final(self)@),
            r is Ok ==> live(final(self)@) && final(self)@.tokens.len() < old(self)@.tokens.len(),
            (final(self)@, vres(r)) == p_level(n as nat, old(self)@),
        decreases old(self)@.tokens.len(), 2 * n + 6,
    {
        let mut expr = self.operand(n)?;
        loop
            invariant
                self.wf(),
                live(self@),
                follows(old(self)@, self@),
                1 <= n <= 4,
                self@.tokens.len() < old(self)@.tokens.len(),
                p_level(n as nat, old(self)@) == p_level_tail(n as nat, self@, expr@),
            decreases self@.tokens.len(),
        {
            let kind = self.peek()?.kind;
            if !is_level_op(n, kind) {
                return Ok(expr);
            }
            let ghost s0 = self@;
            let operator = self.advance().unwrap();
            proof { assert(s0.tokens.skip(1) == s0.tokens.drop_first()); }
            let right = self.operand(n)?;
            expr = Binary::wrapped(expr, operator, right);
        }
    }

    fn unary(&mut self) -> (r: Result<Expr, ParseError>)
        requires
            old(self).wf(),
            live(old(self)@),
        ensures
            final(self).wf(),
            follows(old(self)@, final(self)@),
            r is Ok ==> live(final(self)@) && final(self)@.tokens.len() < old(self)@.tokens.len(),
            (final(self)@, vres(r)) == p_unary(old(self)@),
        decreases old(self)@.tokens.len(), 4nat,
    {
        match self.peek()?.kind {
            Kind::Bang | Kind::Minus => {
                let ghost s0 = self@;
                let operator = self.advance().unwrap();
                proof { assert(s0.tokens.skip(1) == s0.tokens.drop_first()); }
                let right = self.unary()?;
                Ok(Unary::wrapped(operator, right))
            },
            _ => self.access(),
        }
    }

    fn access(&mut self) -> (r: Result<Expr, ParseError>)
        requires
            old(self).wf(),
            live(old(self)@),
        ensures
            final(self).wf(),
            follows(old(self)@, final(self)@),
            r is Ok ==> live(final(self)@) && final(self)@.tokens.len() < old(self)@.tokens.len(),
            (final(self)@, vres(r)) == p_access(old(self)@),
        decreases old(self)@.tokens.len(), 3nat,
    {
        let item = self.call()?;
        let mut rest: Vec<Expr> = Vec::new();
        loop
            invariant
                self.wf(),
                live(self@),
                follows(old(self)@, self@),
                self@.tokens.len() < old(self)@.tokens.len(),
                p_access(old(self)@) == p_access_tail(self@, item@, view_exprs(rest@)),
            decreases self@.tokens.len(),
        {
            if self.peek()?.kind != Kind::Dot {
                return Ok(item);
            }
            self.consume(Kind::Dot)?;
            let el = self.call()?;
            let ghost before = rest@;
            rest.push(el);
            proof { assert(rest@.drop_last() == before); }
            if self.peek()?.kind != Kind::Dot {
                return Ok(self.finish_access(item, rest));
            }
        }
    }

    /// Builds the expression of a finished access chain `item.rest...`.
    fn finish_access(&mut self, item: Expr, rest: Vec<Expr>) -> (r: Expr)
        requires
            old(self).wf(),
            live(old(self)@),
            rest.len() > 0,
        ensures
            final(self).wf(),
            live(final(self)@),
            final(self)@.tokens == old(self)@.tokens,
            final(self)@.lines == old(self)@.lines,
            final(self)@.previous == old(self)@.previous,
            (final(self)@, Ok::<ExprV, ParseErrorV>(r@)) == p_finish_access(old(self)@, item@, view_exprs(rest@)),
    {
        let ghost rv = view_exprs(rest@);
        let ghost iv = item@;
        let ghost item0 = item;
        let ghost rest0 = rest@;
        let mut rest = rest;
        let el = rest.pop().unwrap();
        let mut chain = rest;
        proof {
            assert(rest0.drop_last() == chain@);
            assert(view_exprs(rest0) == view_exprs(chain@).push(el@));
        }
        chain.insert(0, item);
        proof {
            assert(chain@ == seq![item0] + rest0.drop_last());
            lemma_view_exprs_concat(seq![item0], rest0.drop_last());
            lemma_view_one(item0);
            assert(view_exprs(chain@) == seq![iv] + rv.drop_last());
        }
        let copy = clone_expr(&el);
        let ghost elv = el@;
        assert(rv.last() == elv);
        match el {
            Expr::Call(call) => {
                let mut whole = clone_exprs(&chain);
                let ghost wbefore = whole@;
                whole.push(copy);
                proof {
                    assert(whole@.drop_last() == wbefore);
                    assert(view_exprs(whole@) == (seq![iv] + rv.drop_last()).push(rv.last()));
                    assert((seq![iv] + rv.drop_last()).push(rv.last()) =~= seq![iv] + rv);
                }
                let first = self.accesses;
                self.accesses = if first == usize::MAX { 0 } else { first + 1 };
                let whole_access = Access::wrapped(whole, first);
                let second = self.accesses;
                self.accesses = if second == usize::MAX { 0 } else { second + 1 };
                let inner = Access::wrapped(chain, second);
                let mut args: Vec<Expr> = Vec::new();
                args.push(inner);
                let ghost a0 = args@;
                let mut tail = call.args;
                let ghost tv = tail@;
                args.append(&mut tail);
                proof {
                    assert(args@ == a0 + tv);
                    lemma_view_exprs_concat(a0, tv);
                    lemma_view_one(a0[0]);
                    assert(seq![iv] + rv.drop_last() =~= (seq![iv] + rv).drop_last());
                    assert(elv == (ExprV::Call {
                        left: Box::new((*call.left)@),
                        args: view_exprs(tv),
                        parens: call.parens,
                        delimiters: call.delimiters@,
                    }));
                    assert(view_exprs(args@) == seq![inner@] + view_exprs(tv));
                    assert(inner@ == (ExprV::Access { chain: (seq![iv] + rv).drop_last(), id: second }));
                    assert(whole_access@ == (ExprV::Access { chain: seq![iv] + rv, id: first }));
                }
                Call::wrapped(whole_access, args, call.parens, call.delimiters)
            },
            other => {
                let ghost cbefore = chain@;
                chain.push(other);
                proof {
                    assert(chain@.drop_last() == cbefore);
                    assert((seq![iv] + rv.drop_last()).push(rv.last()) =~= seq![iv] + rv);
                }
                let id = self.accesses;
                self.accesses = if id == usize::MAX { 0 } else { id + 1 };
                Access::wrapped(chain, id)
            },
        }
    }

    fn call(&mut self) -> (r: Result<Expr, ParseError>)
        requires
            old(self).wf(),
            live(old(self)@),
        ensures
            final(self).wf(),
            follows(old(self)@, final(self)@),
            r is Ok ==> live(final(self)@) && final(self)@.tokens.len() < old(self)@.tokens.len(),
            (final(self)@, vres(r)) == p_call(old(self)@),
        decreases old(self)@.tokens.len(), 2nat,
    {
        let mut left = self.primary()?;
        if self.peek()?.kind == Kind::LeftParen {
            let open = self.consume(Kind::LeftParen)?;
            let (args, delimiters) = self.call_args()?;
            let close = self.consume(Kind::RightParen)?;
            left = Call::wrapped(left, args, (open, close), delimiters);
        }
        proof { lemma_follows_refl(self@); }
        Ok(left)
    }

    /// The arguments of a call and the commas between them, up to (not including) `)`.
    fn call_args(&mut self) -> (r: Result<(Vec<Expr>, Vec<Token>), ParseError>)
        requires
            old(self).wf(),
            live(old(self)@),
        ensures
            final(self).wf(),
            follows(old(self)@, final(self)@),
            r is Ok ==> live(final(self)@),
            (final(self)@, vargs(r)) == p_call_args(old(self)@),
        decreases old(self)@.tokens.len(), 16nat,
    {
        let mut args: Vec<Expr> = Vec::new();
        let mut delimiters: Vec<Token> = Vec::new();
        proof { lemma_follows_refl(self@); }
        if self.peek()?.kind != Kind::RightParen {
            let first = self.expression()?;
            args.push(first);
            proof { lemma_view_one(first); assert(args@ == seq![first]); }
            loop
                invariant
                    self.wf(),
                    live(self@),
                    follows(old(self)@, self@),
                    self@.tokens.len() < old(self)@.tokens.len(),
                    p_call_args(old(self)@) == p_call_args_tail(self@, view_exprs(args@), delimiters@),
                decreases self@.tokens.len(),
            {
                if self.peek()?.kind != Kind::Comma {
                    return Ok((args, delimiters));
                }
                let comma = self.consume(Kind::Comma)?;
                let arg = self.expression()?;
                let ghost before = args@;
                delimiters.push(comma);
                args.push(arg);
                proof { assert(args@.drop_last() == before); }
            }
        }
        Ok((args, delimiters))
    }

    fn primary(&mut self) -> (r: Result<Expr, ParseError>)
        requires
            old(self).wf(),
            live(old(self)@),
        ensures
            final(self).wf(),
            follows(old(self)@, final(self)@),
            r is Ok ==> live(final(self)@) && final(self)@.tokens.len() < old(self)@.tokens.len(),
            (final(self)@, vres(r)) == p_primary(old(self)@),
        decreases old(self)@.tokens.len(), 1nat,
    {
        match self.peek()?.kind {
            Kind::LeftParen => {
                self.consume(Kind::LeftParen)?;
                let expr = self.expression()?;
                self.consume(Kind::RightParen)?;
                Ok(expr)
            },
            Kind::Literal => {
                let ghost s0 = self@;
                let token = self.advance().unwrap();
                proof {
                    assert(s0.tokens.skip(1) == s0.tokens.drop_first());
                    assert(literal_wf(s0.tokens[0]));
                }
                Ok(literal(token))
            },
            Kind::Identifier => {
                let ghost s0 = self@;
                let name = self.advance().unwrap();
                proof { assert(s0.tokens.skip(1) == s0.tokens.drop_first()); }
                if self.peek()?.kind == Kind::Colon {
                    self.init(name)
                } else {
                    Ok(Ident::wrapped(name))
                }
            },
            _ => {
                proof { lemma_follows_refl(self@); }
                let found = self.peek()?;
                Err(ParseError::Unhandled(found.kind, found.span, vec![Kind::Identifier, Kind::Literal, Kind::LeftParen]))
            },
        }
    }

    /// A record initializer after its name: `:init(field: value, ...)`.
    fn init(&mut self, name: Token) -> (r: Result<Expr, ParseError>)
        requires
            old(self).wf(),
            live(old(self)@),
        ensures
            final(self).wf(),
            follows(old(self)@, final(self)@),
            r is Ok ==> live(final(self)@) && final(self)@.tokens.len() < old(self)@.tokens.len(),
            (final(self)@, vres(r)) == p_init(old(self)@, name),
        decreases old(self)@.tokens.len(), 0nat,
    {
        self.consume(Kind::Colon)?;
        self.consume(Kind::Init)?;
        let open = self.consume(Kind::LeftParen)?;
        let mut initializers: Vec<Initializer> = Vec::new();
        loop
            invariant
                self.wf(),
                live(self@),
                follows(old(self)@, self@),
                self@.tokens.len() < old(self)@.tokens.len(),
                p_init(old(self)@, name) == p_init_loop(self@, name, open, view_inits(initializers@)),
            decreases self@.tokens.len(),
        {
            if self.peek()?.kind == Kind::RightParen {
                let close = self.consume(Kind::RightParen)?;
                return Ok(Init::wrapped(name, initializers, (open, close)));
            }
            let field = self.consume(Kind::Identifier)?;
            self.consume(Kind::Colon)?;
            let value = self.expression()?;
            let ghost s3 = self@;
            let ghost before = initializers@;
            initializers.push(Initializer::new(field, value));
            proof {
                lemma_follows_refl(s3);
                assert(initializers@.drop_last() == before);
            }
            if self.peek()?.kind != Kind::RightParen {
                self.consume(Kind::Comma)?;
            }
        }
    }

    fn statement(&mut self) -> (r: Result<Stmt, ParseError>)
        requires
            old(self).wf(),
            live(old(self)@),
        ensures
            final(self).wf(),
            follows(old(self)@, final(self)@),
            r is Ok ==> live(final(self)@) && final(self)@.tokens.len() < old(self)@.tokens.len(),
            (final(self)@, vres(r)) == p_statement(old(self)@),
        decreases old(self)@.tokens.len(), 2nat,
    {
        match self.peek()?.kind {
            Kind::Let => self.declaration(),
            Kind::If => self.condition(),
            Kind::For => self.for_loop(),
            Kind::While => self.while_loop(),
            Kind::Return => {
                let keyword = self.consume(Kind::Return)?;
                let expr = self.expression()?;
                self.consume(Kind::Semicolon)?;
                Ok(Return::wrapped(expr, keyword))
            },
            _ => self.assignment(),
        }
    }

    fn declaration(&mut self) -> (r: Result<Stmt, ParseError>)
        requires
            old(self).wf(),
            live(old(self)@),
        ensures
            final(self).wf(),
            follows(old(self)@, final(self)@),
            r is Ok ==> live(final(self)@) && final(self)@.tokens.len() < old(self)@.tokens.len(),
            (final(self)@, vres(r)) == p_declaration(old(self)@),
        decreases old(self)@.tokens.len(), 1nat,
    {
        self.consume(Kind::Let)?;
        let name = self.consume(Kind::Identifier)?;
        self.consume(Kind::Colon)?;
        let ty = self.ty()?;
        self.consume(Kind::Equal)?;
        let expr = self.expression()?;
        self.consume(Kind::Semicolon)?;
        Ok(VarDecl::wrapped(name, ty, expr))
    }

    fn condition(&mut self) -> (r: Result<Stmt, ParseError>)
        requires
            old(self).wf(),
            live(old(self)@),
        ensures
            final(self).wf(),
            follows(old(self)@, final(self)@),
            r is Ok ==> live(final(self)@) && final(self)@.tokens.len() < old(self)@.tokens.len(),
            (final(self)@, vres(r)) == p_condition(old(self)@),
        decreases old(self)@.tokens.len(), 1nat,
    {
        self.consume(Kind::If)?;
        let condition = self.expression()?;
        let is = self.block()?;
        if self.peek()?.kind == Kind::Else {
            self.consume(Kind::Else)?;
            let otherwise = self.block()?;
            Ok(If::wrapped(condition, is, otherwise))
        } else {
            proof { assert(view_stmts(Seq::<Stmt>::empty()) == Seq::<StmtV>::empty()); }
            Ok(If::wrapped(condition, is, Vec::new()))
        }
    }

    fn for_loop(&mut self) -> (r: Result<Stmt, ParseError>)
        requires
            old(self).wf(),
            live(old(self)@),
        ensures
            final(self).wf(),
            follows(old(self)@, final(self)@),
            r is Ok ==> live(final(self)@) && final(self)@.tokens.len() < old(self)@.tokens.len(),
            (final(self)@, vres(r)) == p_for(old(self)@),
        decreases old(self)@.tokens.len(), 1nat,
    {
        self.consume(Kind::For)?;
        let index = self.consume(Kind::Identifier)?;
        self.consume(Kind::In)?;
        let range = self.range()?;
        let block = self.block()?;
        Ok(For::wrapped(index, range, block))
    }

    fn while_loop(&mut self) -> (r: Result<Stmt, ParseError>)
        requires
            old(self).wf(),
            live(old(self)@),
        ensures
            final(self).wf(),
            follows(old(self)@, final(self)@),
            r is Ok ==> live(final(self)@) && final(self)@.tokens.len() < old(self)@.tokens.len(),
            (final(self)@, vres(r)) == p_while(old(self)@),
        decreases old(self)@.tokens.len(), 1nat,
    {
        self.consume(Kind::While)?;
        let condition = self.expression()?;
        let block = self.block()?;
        Ok(While::wrapped(condition, block))
    }

    fn assignment(&mut self) -> (r: Result<Stmt, ParseError>)
        requires
            old(self).wf(),
            live(old(self)@),
        ensures
            final(self).wf(),
            follows(old(self)@, final(self)@),
            r is Ok ==> live(final(self)@) && final(self)@.tokens.len() < old(self)@.tokens.len(),
            (final(self)@, vres(r)) == p_assignment(old(self)@),
        decreases old(self)@.tokens.len(), 1nat,
    {
        let item = self.expression()?;
        if self.peek()?.kind == Kind::Equal {
            self.consume(Kind::Equal)?;
            let right = self.expression()?;
            self.consume(Kind::Semicolon)?;
            Ok(Assign::wrapped(item, right))
        } else {
            self.consume(Kind::Semicolon)?;
            Ok(Stmt::Expr(item))
        }
    }

    fn range(&mut self) -> (r: Result<Expr, ParseError>)
        requires
            old(self).wf(),
            live(old(self)@),
        ensures
            final(self).wf(),
            follows(old(self)@, final(self)@),
            r is Ok ==> live(final(self)@) && final(self)@.tokens.len() < old(self)@.tokens.len(),
            (final(self)@, vres(r)) == p_range(old(self)@),
    {
        let left = self.consume(Kind::LeftBracket)?;
        let start = self.expression()?;
        self.consume(Kind::Comma)?;
        let end = self.expression()?;
        let right = self.consume(Kind::RightBracket)?;
        Ok(Range::wrapped(start, end, (left, right)))
    }

    fn block(&mut self) -> (r: Result<Vec<Stmt>, ParseError>)
        requires
            old(self).wf(),
            live(old(self)@),
        ensures
            final(self).wf(),
            follows(old(self)@, final(self)@),
            r is Ok ==> live(final(self)@) && final(self)@.tokens.len() < old(self)@.tokens.len(),
            (final(self)@, vstmts(r)) == p_block(old(self)@),
        decreases old(self)@.tokens.len(), 0nat,
    {
        self.consume(Kind::LeftBrace)?;
        let mut stmts: Vec<Stmt> = Vec::new();
        loop
            invariant
                self.wf(),
                follows(old(self)@, self@),
                self@.tokens.len() < old(self)@.tokens.len(),
                p_block(old(self)@) == p_block_loop(self@, view_stmts(stmts@)),
            decreases self@.tokens.len(),
        {
            if self.peek()?.kind == Kind::RightBrace {
                self.consume(Kind::RightBrace)?;
                return Ok(stmts);
            }
            let ghost s0 = self@;
            match self.statement() {
                Ok(stmt) => {
                    let ghost before = stmts@;
                    stmts.push(stmt);
                    proof { assert(stmts@.drop_last() == before); }
                },
                Err(e) => {
                    self.error(&e);
                    self.synchronize(true);
                },
            }
            proof { assert(self@.tokens.len() < s0.tokens.len()); }
        }
    }

    #[verifier::rlimit(40)]
    fn function(&mut self, method: &Option<Token>, external: bool) -> (r: Result<Decl, ParseError>)
        requires
            old(self).wf(),
            live(old(self)@),
        ensures
            final(self).wf(),
            follows(old(self)@, final(self)@),
            r is Ok ==> live(final(self)@),
            next_is(old(self)@, if external { Kind::Extern } else { Kind::Fun }) ==> settled(final(self)@) && final(self)@.tokens.len() < old(self)@.tokens.len(),
            r matches Ok(Decl::Function(_)) || r is Err,
            (final(self)@, vfunc(r)) == p_function(old(self)@, *method, external),
    {
        if external {
            self.consume(Kind::Extern)?;
        }
        self.consume(Kind::Fun)?;
        let name = self.consume(Kind::Identifier)?;
        let type_params = if self.peek()?.kind == Kind::Less {
            self.type_parameters()?
        } else {
            Vec::new()
        };
        self.consume(Kind::LeftParen)?;
        let params = self.params(method)?;
        self.consume(Kind::RightParen)?;
        self.function_rest(name, type_params, params, external)
    }

    /// The rest of a function after its parameters: the return type and the body.
    fn function_rest(&mut self, name: Token, type_params: Vec<TypeParameter>, params: Vec<Param>, external: bool) -> (r: Result<Decl, ParseError>)
        requires
            old(self).wf(),
            live(old(self)@),
        ensures
            final(self).wf(),
            follows(old(self)@, final(self)@),
            r is Ok ==> live(final(self)@),
            r matches Ok(Decl::Function(_)) || r is Err,
            (final(self)@, vfunc(r)) == p_function_rest(old(self)@, name, type_params@, view_params(params@), external),
    {
        let mut ty: Option<TypeRef> = None;
        if self.peek()?.kind == Kind::Colon {
            self.consume(Kind::Colon)?;
            ty = Some(self.ty()?);
        }
        let body = if external {
            proof { assert(view_stmts(Seq::<Stmt>::empty()) == Seq::<StmtV>::empty()); }
            Vec::new()
        } else {
            self.block()?
        };
        let id = self.functions;
        let ghost s0 = self@;
        self.functions = if id == usize::MAX { 0 } else { id + 1 };
        proof { lemma_follows_same_tokens(s0, self@); }
        Ok(FuncDecl::wrapped(name, params, ty, type_params, body, external, id))
    }

    fn constant(&mut self) -> (r: Result<Decl, ParseError>)
        requires
            old(self).wf(),
            live(old(self)@),
        ensures
            final(self).wf(),
            follows(old(self)@, final(self)@),
            r is Ok ==> live(final(self)@),
            next_is(old(self)@, Kind::Const) ==> settled(final(self)@) && final(self)@.tokens.len() < old(self)@.tokens.len(),
            (final(self)@, vres(r)) == p_constant(old(self)@),
    {
        self.consume(Kind::Const)?;
        let name = self.consume(Kind::Identifier)?;
        self.consume(Kind::Colon)?;
        let ty = self.ty()?;
        self.consume(Kind::Equal)?;
        let value = self.expression()?;
        self.consume(Kind::Semicolon)?;
        Ok(ConstantDecl::wrapped(name, ty, value))
    }

    fn class(&mut self) -> (r: Result<Decl, ParseError>)
        requires
            old(self).wf(),
            live(old(self)@),
        ensures
            final(self).wf(),
            follows(old(self)@, final(self)@),
            r is Ok ==> live(final(self)@),
            next_is(old(self)@, Kind::Class) ==> settled(final(self)@) && final(self)@.tokens.len() < old(self)@.tokens.len(),
            (final(self)@, vres(r)) == p_class(old(self)@),
    {
        self.consume(Kind::Class)?;
        let name = self.consume(Kind::Identifier)?;
        let type_params = if self.peek()?.kind == Kind::Less {
            Some(self.type_parameters()?)
        } else {
            None
        };
        let parent = if self.peek()?.kind == Kind::Colon {
            self.consume(Kind::Colon)?;
            Some(self.consume(Kind::Identifier)?)
        } else {
            None
        };
        self.consume(Kind::LeftBrace)?;
        let fields = self.fields()?;
        let mut methods: Vec<FuncDecl> = Vec::new();
        loop
            invariant
                self.wf(),
                live(self@),
                follows(old(self)@, self@),
                settled(self@),
                self@.tokens.len() < old(self)@.tokens.len(),
                p_class(old(self)@) == wrap_class(
                    name,
                    view_fields(fields@),
                    parent,
                    tp_view(type_params),
                    p_methods_loop(self@, name, view_funcs(methods@)),
                ),
            decreases self@.tokens.len(),
        {
            if self.peek()?.kind == Kind::RightBrace {
                self.consume(Kind::RightBrace)?;
                return Ok(ClassDecl::wrapped(name, fields, methods, parent, type_params));
            }
            let ghost s0 = self@;
            match self.function(&Some(name.clone()), false)? {
                Decl::Function(fun) => {
                    let ghost before = methods@;
                    methods.push(fun);
                    proof { assert(methods@.drop_last() == before); }
                },
                _ => {
                    proof { assert(false); }
                    return Err(ParseError::UnexpectedEof(Span::new(0, 0, 0)));
                },
            }
        }
    }


    /// Parses declarations until the end of the input. Each error is reported as a
    /// diagnostic and parsing resumes at the next declaration; the declarations are
    /// returned when no error was reported, the diagnostics otherwise. Parsing only reads
    /// tokens from the front of the input and never drops a diagnostic reported before.
    pub fn parse(&mut self) -> (r: Result<Vec<Decl>, &Vec<PreciseError>>)
        requires
            old(self).wf(),
        ensures
            parse_result(old(self)@, r, final(self)@),
            follows(old(self)@, final(self)@),
    {
        let mut nodes: Vec<Decl> = Vec::new();
        proof { assert(view_decls(Seq::<Decl>::empty()) == Seq::<DeclV>::empty()); }
        loop
            invariant
                self.wf(),
                follows(old(self)@, self@),
                self@.lines == old(self)@.lines,
                p_parse(old(self)@) == p_parse_loop(self@, view_decls(nodes@)),
            decreases self@.tokens.len(),
        {
            let kind = match self.peek() {
                Ok(token) => token.kind,
                Err(_) => return self.outcome(nodes),
            };
            let ghost s0 = self@;
            let result = match kind {
                Kind::Class => self.class(),
                Kind::Fun => self.function(&None, false),
                Kind::Extern => self.function(&None, true),
                Kind::Const => self.constant(),
                Kind::Eof => return self.outcome(nodes),
                _ => {
                    let token = self.advance().unwrap();
                    proof { assert(s0.tokens.skip(1) == s0.tokens.drop_first()); }
                    Err(ParseError::Unhandled(token.kind, token.span, vec![Kind::Fun, Kind::Const]))
                },
            };
            proof {
                assert(settled(self@));
                assert(self@.tokens.len() < s0.tokens.len());
                assert((self@, vres(result)) == p_toplevel(s0, s0.tokens[0]));
            }
            match result {
                Ok(node) => {
                    let ghost before = nodes@;
                    nodes.push(node);
                    proof { assert(nodes@.drop_last() == before); }
                },
                Err(e) => {
                    self.error(&e);
                    self.synchronize(false);
                },
            }
        }
    }

    fn outcome(&self, nodes: Vec<Decl>) -> (r: Result<Vec<Decl>, &Vec<PreciseError>>)
        ensures
            match r {
                Ok(v) => self@.errors.len() == 0 && v == nodes,
                Err(es) => self@.errors.len() > 0 && errors_view(es@) == self@.errors,
            },
    {
        if self.errors.len() == 0 {
            Ok(nodes)
        } else {
            Err(&self.errors)
        }
    }

    /// The diagnostics reported so far.
    pub fn errors(&self) -> (r: &Vec<PreciseError>)
        ensures
            errors_view(r@) == self@.errors,
    {
        &self.errors
    }

    fn error(&mut self, e: &ParseError)
        requires
            old(self).wf(),
        ensures
            final(self).wf(),
            follows(old(self)@, final(self)@),
            final(self)@ == p_error(old(self)@, e@),
    {
        self.panic = true;
        let span = match e {
            ParseError::Unhandled(_, span, _) => *span,
            ParseError::UnexpectedEof(span) => *span,
            ParseError::Expected(_, span, _) => *span,
        };
        let detail = detail_string(e);
        let heading = heading_string(e);
        let error = PreciseError::new(self.source.line(span.line), span, heading, detail);
        let ghost old_errors = self.errors@;
        self.errors.push(error);
        assert(errors_view(self.errors@) =~= errors_view(old_errors).push(diagnostic(old(self)@.lines, e@)));
        proof { lemma_follows_same_tokens(old(self)@, self@); }
    }

    fn synchronize(&mut self, stmt: bool)
        requires
            old(self).wf(),
            stmt || settled(old(self)@),
        ensures
            final(self).wf(),
            follows(old(self)@, final(self)@),
            stmt ==> final(self)@.tokens.len() < old(self)@.tokens.len() || old(self)@.tokens.len() == 0,
            final(self)@ == p_synchronize(old(self)@, stmt),
    {
        self.panic = false;
        proof { lemma_follows_refl(self@); }
        if stmt {
            self.advance();
            assert(old(self)@.tokens.len() > 0 ==> old(self)@.tokens.skip(1) == old(self)@.tokens.drop_first());
        }
        let ghost start = self@;
        while !self.eof()
            invariant
                self.wf(),
                follows(old(self)@, self@),
                self@.tokens.len() > 0 ==> self@.previous is Some,
                stmt ==> self@.tokens.len() < old(self)@.tokens.len() || old(self)@.tokens.len() == 0,
                p_sync_loop(self@) == p_sync_loop(start),
                p_synchronize(old(self)@, stmt) == p_sync_loop(start),
            decreases self@.tokens.len(),
        {
            let prev_kind = self.previous.as_ref().unwrap().kind;
            let prev_line = self.previous.as_ref().unwrap().span.line;
            let next_line = self.peek().unwrap().span.line;
            if prev_kind == Kind::Semicolon || prev_line < next_line {
                return;
            }
            let next_kind = self.peek().unwrap().kind;
            if matches!(next_kind, Kind::Let | Kind::Fun | Kind::Const) {
                return;
            }
            let ghost before = self@;
            self.advance();
            proof {
                assert(before.tokens.skip(1) == before.tokens.drop_first());
                lemma_follows_trans(old(self)@, before, self@);
            }
        }
    }
}

fn heading_string(e: &ParseError) -> (r: String)
    ensures
        r@ == heading_text(e@),
{
    match e {
        ParseError::UnexpectedEof(_) => String::from_str("unexpected EOF"),
        ParseError::Expected(k, _, found) => {
            let mut s = String::from_str("expected ");
            s.append(k.text());
            s.append(" but found ");
            s.append(found.text());
            s
        },
        ParseError::Unhandled(k, _, _) => {
            let mut s = String::from_str("unexpected ");
            s.append(k.text());
            s
        },
    }
}

fn detail_string(e: &ParseError) -> (r: String)
    ensures
        r@ == detail_text(e@),
{
    match e {
        ParseError::Expected(expected, _, _) => {
            let mut s = String::from_str("expected ");
            s.append(expected.text());
            s.append(" here");
            s
        },
        ParseError::Unhandled(_, _, expected) => {
            let mut s = String::from_str("expected one of ");
            let list = kinds_string(expected);
            s.append(list.as_str());
            s.append(" here");
            s
        },
        ParseError::UnexpectedEof(_) => String::from_str("unexpected end of file"),
    }
}

fn kinds_string(ks: &Vec<Kind>) -> (r: String)
    ensures
        r@ == kinds_list(ks@),
{
    let mut s = String::new();
    let mut i: usize = 0;
    while i < ks.len()
        invariant
            i <= ks.len(),
            s@ == kinds_list(ks@.take(i as int)),
        decreases ks.len() - i,
    {
        if i > 0 {
            s.append(", ");
        }
        s.append("`");
        s.append(ks[i].text());
        s.append("`");
        proof {
            let t = ks@.take(i + 1);
            assert(t.drop_last() == ks@.take(i as int));
            assert(t.last() == ks@[i as int]);
            if i == 0 {
                assert(ks@.take(0).len() == 0);
            }
        }
        i = i + 1;
    }
    assert(ks@.take(ks.len() as int) == ks@);
    s
}

} // verus!
