//! Tokens as the lexer hands them to the parser.
use vstd::prelude::*;

verus! {

/// The kind of a token.
#[derive(Clone, Copy, Debug, PartialEq, Eq, Structural)]
pub enum Kind {
    LeftParen,
    RightParen,
    LeftBrace,
    RightBrace,
    LeftBracket,
    RightBracket,
    Comma,
    Dot,
    Colon,
    Semicolon,
    Minus,
    Plus,
    Slash,
    Star,
    Bang,
    BangEqual,
    Equal,
    EqualEqual,
    Greater,
    GreaterEqual,
    Less,
    LessEqual,
    Identifier,
    Literal,
    Class,
    Fun,
    Extern,
    Const,
    Let,
    If,
    Else,
    For,
    In,
    While,
    Return,
    Init,
    Eof,
}

/// How a token kind reads in a diagnostic.
pub open spec fn kind_text(k: Kind) -> Seq<char> {
    match k {
        Kind::LeftParen => "("@,
        Kind::RightParen => ")"@,
        Kind::LeftBrace => "{"@,
        Kind::RightBrace => "}"@,
        Kind::LeftBracket => "["@,
        Kind::RightBracket => "]"@,
        Kind::Comma => ","@,
        Kind::Dot => "."@,
        Kind::Colon => ":"@,
        Kind::Semicolon => ";"@,
        Kind::Minus => "-"@,
        Kind::Plus => "+"@,
        Kind::Slash => "/"@,
        Kind::Star => "*"@,
        Kind::Bang => "!"@,
        Kind::BangEqual => "!="@,
        Kind::Equal => "="@,
        Kind::EqualEqual => "=="@,
        Kind::Greater => ">"@,
        Kind::GreaterEqual => ">="@,
        Kind::Less => "<"@,
        Kind::LessEqual => "<="@,
        Kind::Identifier => "identifier"@,
        Kind::Literal => "literal"@,
        Kind::Class => "class"@,
        Kind::Fun => "fun"@,
        Kind::Extern => "extern"@,
        Kind::Const => "const"@,
        Kind::Let => "let"@,
        Kind::If => "if"@,
        Kind::Else => "else"@,
        Kind::For => "for"@,
        Kind::In => "in"@,
        Kind::While => "while"@,
        Kind::Return => "return"@,
        Kind::Init => "init"@,
        Kind::Eof => "EOF"@,
    }
}

impl Kind {
    /// How this kind reads in a diagnostic.
    pub fn text(&self) -> (r: &'static str)
        ensures
            r@ == kind_text(*self),
    {
        match self {
            Kind::LeftParen => "(",
            Kind::RightParen => ")",
            Kind::LeftBrace => "{",
            Kind::RightBrace => "}",
            Kind::LeftBracket => "[",
            Kind::RightBracket => "]",
            Kind::Comma => ",",
            Kind::Dot => ".",
            Kind::Colon => ":",
            Kind::Semicolon => ";",
            Kind::Minus => "-",
            Kind::Plus => "+",
            Kind::Slash => "/",
            Kind::Star => "*",
            Kind::Bang => "!",
            Kind::BangEqual => "!=",
            Kind::Equal => "=",
            Kind::EqualEqual => "==",
            Kind::Greater => ">",
            Kind::GreaterEqual => ">=",
            Kind::Less => "<",
            Kind::LessEqual => "<=",
            Kind::Identifier => "identifier",
            Kind::Literal => "literal",
            Kind::Class => "class",
            Kind::Fun => "fun",
            Kind::Extern => "extern",
            Kind::Const => "const",
            Kind::Let => "let",
            Kind::If => "if",
            Kind::Else => "else",
            Kind::For => "for",
            Kind::In => "in",
            Kind::While => "while",
            Kind::Return => "return",
            Kind::Init => "init",
            Kind::Eof => "EOF",
        }
    }
}

/// A position in the source: line and column (both counted from one) and length.
#[derive(Clone, Copy, Debug, PartialEq, Eq, Structural)]
pub struct Span {
    pub line: usize,
    pub column: usize,
    pub length: usize,
}

impl Span {
    pub fn new(line: usize, column: usize, length: usize) -> (r: Span)
        ensures
            r == (Span { line, column, length }),
    {
        Span { line, column, length }
    }
}

/// A token: its kind, the text it was read from, and where it stands.
#[derive(Debug)]
pub struct Token {
    pub kind: Kind,
    pub lexeme: Option<String>,
    pub span: Span,
}

impl Token {
    pub fn new(kind: Kind, lexeme: Option<String>, span: Span) -> (r: Token)
        ensures
            r == (Token { kind, lexeme, span }),
    {
        Token { kind, lexeme, span }
    }

    /// The token's text (empty when it has none).
    pub fn text(&self) -> (r: String)
        ensures
            r@ == token_text(*self),
            self.lexeme is Some ==> r == self.lexeme->0,
    {
        match &self.lexeme {
            Some(s) => s.clone(),
            None => String::new(),
        }
    }
}

/// The text of a token (empty when it has none).
pub open spec fn token_text(t: Token) -> Seq<char> {
    match t.lexeme {
        Some(s) => s@,
        None => Seq::empty(),
    }
}

impl Clone for Token {
    fn clone(&self) -> (r: Self)
        ensures
            r == *self,
    {
        let lexeme = match &self.lexeme {
            Some(s) => Some(s.clone()),
            None => None,
        };
        Token { kind: self.kind, lexeme, span: self.span }
    }
}

} // verus!
