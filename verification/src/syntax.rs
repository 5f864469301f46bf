//! Tokens, source spans and syntax errors of `.theoria` source text.

use vstd::prelude::*;

verus! {

/// A half-open byte range `[start, end)` of the source text.
#[derive(Clone, Copy, Debug, PartialEq, Eq, Hash, Structural)]
pub struct Span {
    /// First byte of the range.
    pub start: u32,
    /// One past the last byte of the range.
    pub end: u32,
}

impl Span {
    /// The range `[start, end)`.
    pub fn new(start: u32, end: u32) -> (r: Span)
        ensures
            r == (Span { start, end }),
    {
        Span { start, end }
    }

    /// The smallest range covering both `a` and `b`.
    pub fn covering(a: Span, b: Span) -> (r: Span)
        ensures
            r == covering(a, b),
    {
        Span {
            start: if a.start <= b.start { a.start } else { b.start },
            end: if a.end >= b.end { a.end } else { b.end },
        }
    }

    /// The empty range at `at`, used by the synthetic layout tokens.
    pub fn empty(at: u32) -> (r: Span)
        ensures
            r == (Span { start: at, end: at }),
    {
        Span { start: at, end: at }
    }
}

/// The smallest range covering both `a` and `b`.
pub open spec fn covering(a: Span, b: Span) -> Span {
    Span {
        start: if a.start <= b.start { a.start } else { b.start },
        end: if a.end >= b.end { a.end } else { b.end },
    }
}

/// The lexical category of a token.
#[derive(Clone, Copy, Debug, PartialEq, Eq, Hash, Structural)]
pub enum TokenKind {
    /// An identifier or keyword; keywords are recognised by the parser.
    Ident,
    /// A natural number literal.
    Nat,
    /// A decimal literal with a fraction or an exponent.
    Float,
    /// A string literal, quotes included.
    Str,
    /// The lambda introducer `λ`.
    Lambda,
    /// `(`
    LParen,
    /// `)`
    RParen,
    /// `[`
    LBracket,
    /// `]`
    RBracket,
    /// `{`
    LBrace,
    /// `}`
    RBrace,
    /// `,`
    Comma,
    /// `:`
    Colon,
    /// `.`
    Dot,
    /// `;`
    Semicolon,
    /// `->`
    Arrow,
    /// `+`
    Plus,
    /// `-`
    Minus,
    /// `*`
    Star,
    /// `/`
    Slash,
    /// `^`
    Caret,
    /// `=`
    Eq,
    /// `==`
    EqEq,
    /// `!=`
    BangEq,
    /// `<`
    Lt,
    /// `<=`
    LtEq,
    /// `>`
    Gt,
    /// `>=`
    GtEq,
    /// The end of a logical line.
    Newline,
    /// The start of a more deeply indented block.
    Indent,
    /// The end of an indented block.
    Dedent,
    /// The end of the input.
    Eof,
}

/// A token: its category and where it stands in the source.
#[derive(Clone, Copy, Debug, PartialEq, Eq, Hash, Structural)]
pub struct Token {
    /// The category.
    pub kind: TokenKind,
    /// The source range.
    pub span: Span,
}

impl Token {
    /// A token of `kind` at `span`.
    pub fn new(kind: TokenKind, span: Span) -> (r: Token)
        ensures
            r == (Token { kind, span }),
    {
        Token { kind, span }
    }
}

/// What went wrong, for a [`SyntaxError`].
#[derive(Clone, Copy, Debug, PartialEq, Eq, Hash, Structural)]
pub enum ErrorKind {
    /// A character that starts no token.
    LexError,
    /// A malformed numeric literal.
    InvalidLiteral,
    /// A malformed string literal.
    InvalidString,
    /// Inconsistent or tabbed indentation.
    Indentation,
    /// A token the grammar does not allow here.
    UnexpectedToken,
    /// The input ended where the grammar needs more.
    UnexpectedEof,
    /// A form the language reserves but does not support yet.
    NotImplemented,
}

/// A syntax error: where, what kind, and a message for the user.
#[derive(Debug, PartialEq, Eq)]
pub struct SyntaxError {
    /// The offending source range.
    pub span: Span,
    /// The category of the error.
    pub kind: ErrorKind,
    /// A human-readable description.
    pub message: String,
}

/// The abstract value of a [`SyntaxError`].
pub struct SyntaxErrorV {
    /// The offending source range.
    pub span: Span,
    /// The category of the error.
    pub kind: ErrorKind,
    /// The message text.
    pub message: Seq<char>,
}

impl View for SyntaxError {
    type V = SyntaxErrorV;

    open spec fn view(&self) -> SyntaxErrorV {
        SyntaxErrorV { span: self.span, kind: self.kind, message: self.message@ }
    }
}

impl SyntaxError {
    /// An error of `kind` at `span` with `message`.
    pub fn new(span: Span, kind: ErrorKind, message: String) -> (r: SyntaxError)
        ensures
            r@ == (SyntaxErrorV { span, kind, message: message@ }),
    {
        SyntaxError { span, kind, message }
    }
}

} // verus!
