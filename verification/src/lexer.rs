//! The lexer: source text to tokens, in two passes.
//!
//! The first pass scans the bytes left to right and emits tokens for
//! literals, identifiers, punctuation and operators. A newline inside an
//! unclosed bracket continues the line; one at bracket depth zero ends it
//! with a `Newline` token. Comments (`--` to the end of the line) emit
//! nothing.
//!
//! The second pass inserts the synthetic `Indent`, `Dedent`, trailing
//! `Newline` and `Eof` tokens that encode the block structure. Blank and
//! comment-only lines never touch the indentation stack, and a tab in a
//! line's leading whitespace is an [`ErrorKind::Indentation`] error.
//!
//! Both passes are specified over the UTF-8 bytes of the source
//! ([`raw_tokens`] and [`layout`]) and the functions here are proved to
//! compute exactly those results.

use vstd::prelude::*;
use crate::syntax::{ErrorKind, Span, SyntaxError, SyntaxErrorV, Token, TokenKind};
use crate::text::string_of;
use vstd::string::StringSliceAdditionalSpecFns;

verus! {

// ---------------------------------------------------------------------------
// Byte classes
// ---------------------------------------------------------------------------

/// The byte ` `.
pub const SPACE: u8 = 32;
/// The byte a tab.
pub const TAB: u8 = 9;
/// The byte a carriage return.
pub const CR: u8 = 13;
/// The byte a newline.
pub const LF: u8 = 10;
/// The byte `-`.
pub const MINUS: u8 = 45;
/// The byte `>`.
pub const GT: u8 = 62;
/// The byte `=`.
pub const EQ: u8 = 61;
/// The byte `!`.
pub const BANG: u8 = 33;
/// The byte `<`.
pub const LT: u8 = 60;
/// The byte `(`.
pub const LPAREN: u8 = 40;
/// The byte `)`.
pub const RPAREN: u8 = 41;
/// The byte `[`.
pub const LBRACKET: u8 = 91;
/// The byte `]`.
pub const RBRACKET: u8 = 93;
/// The byte `{`.
pub const LBRACE: u8 = 123;
/// The byte `}`.
pub const RBRACE: u8 = 125;
/// The byte `,`.
pub const COMMA: u8 = 44;
/// The byte `:`.
pub const COLON: u8 = 58;
/// The byte `.`.
pub const DOT: u8 = 46;
/// The byte `;`.
pub const SEMI: u8 = 59;
/// The byte `+`.
pub const PLUS: u8 = 43;
/// The byte `*`.
pub const STAR: u8 = 42;
/// The byte `/`.
pub const SLASH: u8 = 47;
/// The byte `^`.
pub const CARET: u8 = 94;
/// The byte a double quote.
pub const QUOTE: u8 = 34;
/// The byte a backslash.
pub const BACKSLASH: u8 = 92;
/// The byte `_`.
pub const UNDERSCORE: u8 = 95;
/// The byte `0`.
pub const DIGIT_0: u8 = 48;
/// The byte `9`.
pub const DIGIT_9: u8 = 57;
/// The byte `A`.
pub const UPPER_A: u8 = 65;
/// The byte `Z`.
pub const UPPER_Z: u8 = 90;
/// The byte `a`.
pub const LOWER_A: u8 = 97;
/// The byte `z`.
pub const LOWER_Z: u8 = 122;
/// The byte `e`.
pub const LOWER_E: u8 = 101;
/// The byte `E`.
pub const UPPER_E: u8 = 69;
/// The byte `n`.
pub const LOWER_N: u8 = 110;
/// The byte `t`.
pub const LOWER_T: u8 = 116;
/// The byte `r`.
pub const LOWER_R: u8 = 114;
/// The byte the first byte of `λ` in UTF-8.
pub const LAMBDA_LEAD: u8 = 206;
/// The byte the second byte of `λ` in UTF-8.
pub const LAMBDA_TRAIL: u8 = 187;

/// An ASCII decimal digit.
pub open spec fn is_digit(c: u8) -> bool {
    DIGIT_0 <= c <= DIGIT_9
}

/// A byte that may start an identifier.
pub open spec fn is_ident_start(c: u8) -> bool {
    (UPPER_A <= c <= UPPER_Z) || (LOWER_A <= c <= LOWER_Z) || c == UNDERSCORE
}

/// A byte that may continue an identifier.
pub open spec fn is_ident_continue(c: u8) -> bool {
    is_ident_start(c) || is_digit(c)
}

/// `b[i]` exists and is `c`.
pub open spec fn byte_is(b: Seq<u8>, i: int, c: u8) -> bool {
    0 <= i < b.len() && b[i] == c
}

/// `b[i]` exists and is a digit.
pub open spec fn digit_at(b: Seq<u8>, i: int) -> bool {
    0 <= i < b.len() && is_digit(b[i])
}

/// The range `[s, e)` as a [`Span`].
pub open spec fn span_of(s: int, e: int) -> Span {
    Span { start: s as u32, end: e as u32 }
}

/// A token of `kind` over `[s, e)`.
pub open spec fn tok(kind: TokenKind, s: int, e: int) -> Token {
    Token { kind, span: span_of(s, e) }
}

/// A syntax error of `kind` over `[s, e)`.
pub open spec fn err_at(s: int, e: int, kind: ErrorKind, message: Seq<char>) -> SyntaxErrorV {
    SyntaxErrorV { span: span_of(s, e), kind, message }
}

// ---------------------------------------------------------------------------
// Runs of bytes
// ---------------------------------------------------------------------------

/// The end of the run of digits starting at `i`.
pub open spec fn digits_end(b: Seq<u8>, i: int) -> int
    decreases b.len() - i,
{
    if digit_at(b, i) {
        digits_end(b, i + 1)
    } else {
        i
    }
}

/// The end of the run of identifier bytes starting at `i`.
pub open spec fn ident_end(b: Seq<u8>, i: int) -> int
    decreases b.len() - i,
{
    if 0 <= i < b.len() && is_ident_continue(b[i]) {
        ident_end(b, i + 1)
    } else {
        i
    }
}

/// The position of the first newline at or after `i`, or the end.
pub open spec fn line_end(b: Seq<u8>, i: int) -> int
    decreases b.len() - i,
{
    if 0 <= i < b.len() && b[i] != LF {
        line_end(b, i + 1)
    } else {
        i
    }
}

proof fn lemma_digits_end(b: Seq<u8>, i: int)
    requires
        0 <= i <= b.len(),
    ensures
        i <= digits_end(b, i) <= b.len(),
    decreases b.len() - i,
{
    if digit_at(b, i) {
        lemma_digits_end(b, i + 1);
    }
}

proof fn lemma_ident_end(b: Seq<u8>, i: int)
    requires
        0 <= i <= b.len(),
    ensures
        i <= ident_end(b, i) <= b.len(),
    decreases b.len() - i,
{
    if 0 <= i < b.len() && is_ident_continue(b[i]) {
        lemma_ident_end(b, i + 1);
    }
}

proof fn lemma_line_end(b: Seq<u8>, i: int)
    requires
        0 <= i <= b.len(),
    ensures
        i <= line_end(b, i) <= b.len(),
    decreases b.len() - i,
{
    if 0 <= i < b.len() && b[i] != LF {
        lemma_line_end(b, i + 1);
    }
}

// ---------------------------------------------------------------------------
// Numbers and strings
// ---------------------------------------------------------------------------

/// The numeric literal starting at the digit `b[start]`: its token and the
/// position after it, or the error for a trailing underscore.
///
/// A literal is a run of digits, optionally a fraction (`.` and at least
/// one digit) and optionally an exponent (`e` or `E`, an optional sign and
/// at least one digit). With a fraction or an exponent it is a `Float`.
pub open spec fn number_token(b: Seq<u8>, start: int) -> Result<(Token, int), SyntaxErrorV> {
    let p = digits_end(b, start);
    let frac = byte_is(b, p, DOT) && digit_at(b, p + 1);
    let q = if frac { digits_end(b, p + 1) } else { p };
    let has_e = byte_is(b, q, LOWER_E) || byte_is(b, q, UPPER_E);
    let j = if byte_is(b, q + 1, PLUS) || byte_is(b, q + 1, MINUS) { q + 2 } else { q + 1 };
    let exp = has_e && digit_at(b, j);
    let r = if exp { digits_end(b, j) } else { q };
    if byte_is(b, r, UNDERSCORE) {
        Err(err_at(start, r + 1, ErrorKind::InvalidLiteral, "numeric literals may not contain underscores"@))
    } else {
        Ok((tok(if frac || exp { TokenKind::Float } else { TokenKind::Nat }, start, r), r))
    }
}

/// How a string literal's body ends.
pub enum StrStop {
    /// The closing quote; the position after it.
    Closed(int),
    /// A newline or the end of the input at this position.
    Unterminated(int),
    /// An unknown escape whose backslash is at this position.
    BadEscape(int),
}

/// A byte that may follow a backslash in a string literal.
pub open spec fn is_escape(c: u8) -> bool {
    c == LOWER_N || c == LOWER_T || c == LOWER_R || c == BACKSLASH || c == QUOTE
}

/// Scan a string literal's body from `i`.
pub open spec fn string_stop(b: Seq<u8>, i: int) -> StrStop
    decreases b.len() - i,
{
    if i < 0 || i >= b.len() {
        StrStop::Unterminated(i)
    } else if b[i] == QUOTE {
        StrStop::Closed(i + 1)
    } else if b[i] == LF {
        StrStop::Unterminated(i)
    } else if b[i] == BACKSLASH {
        if 0 <= i + 1 < b.len() && is_escape(b[i + 1]) {
            string_stop(b, i + 2)
        } else {
            StrStop::BadEscape(i)
        }
    } else {
        string_stop(b, i + 1)
    }
}

pub proof fn lemma_string_stop(b: Seq<u8>, i: int)
    requires
        0 <= i <= b.len(),
    ensures
        match string_stop(b, i) {
            StrStop::Closed(e) => i < e <= b.len(),
            StrStop::Unterminated(p) => i <= p <= b.len(),
            StrStop::BadEscape(p) => i <= p && p + 1 <= b.len(),
        },
    decreases b.len() - i,
{
    if 0 <= i < b.len() && b[i] != QUOTE && b[i] != LF {
        if b[i] == BACKSLASH {
            if 0 <= i + 1 < b.len() && is_escape(b[i + 1]) {
                lemma_string_stop(b, i + 2);
            }
        } else {
            lemma_string_stop(b, i + 1);
        }
    }
}

/// The string literal whose opening quote is `b[start]`: its token and the
/// position after it, or the error.
pub open spec fn string_token(b: Seq<u8>, start: int) -> Result<(Token, int), SyntaxErrorV> {
    match string_stop(b, start + 1) {
        StrStop::Closed(e) => Ok((tok(TokenKind::Str, start, e), e)),
        StrStop::Unterminated(p) => Err(
            err_at(start, p, ErrorKind::InvalidString, "unterminated string literal"@),
        ),
        StrStop::BadEscape(p) => Err(err_at(start, p + 2, ErrorKind::InvalidString, "unknown string escape"@)),
    }
}

// ---------------------------------------------------------------------------
// The first pass
// ---------------------------------------------------------------------------

/// One step of the first pass at `i`, with `depth` unclosed brackets.
pub enum StepV {
    /// Nothing emitted; continue at the position with the depth.
    Skip(int, nat),
    /// Emit the token; continue at the position with the depth.
    Emit(Token, int, nat),
    /// Stop with the error.
    Fail(SyntaxErrorV),
}

/// The kind of a two-byte operator starting at `i`, if one does.
pub open spec fn pair_kind(b: Seq<u8>, i: int) -> Option<TokenKind> {
    let c = b[i];
    if c == MINUS && byte_is(b, i + 1, GT) {
        Some(TokenKind::Arrow)
    } else if c == EQ && byte_is(b, i + 1, EQ) {
        Some(TokenKind::EqEq)
    } else if c == BANG && byte_is(b, i + 1, EQ) {
        Some(TokenKind::BangEq)
    } else if c == LT && byte_is(b, i + 1, EQ) {
        Some(TokenKind::LtEq)
    } else if c == GT && byte_is(b, i + 1, EQ) {
        Some(TokenKind::GtEq)
    } else if c == LAMBDA_LEAD && byte_is(b, i + 1, LAMBDA_TRAIL) {
        Some(TokenKind::Lambda)
    } else {
        None
    }
}

/// The kind of a one-byte punctuation or operator token.
pub open spec fn single_kind(c: u8) -> Option<TokenKind> {
    if c == COMMA {
        Some(TokenKind::Comma)
    } else if c == COLON {
        Some(TokenKind::Colon)
    } else if c == DOT {
        Some(TokenKind::Dot)
    } else if c == SEMI {
        Some(TokenKind::Semicolon)
    } else if c == PLUS {
        Some(TokenKind::Plus)
    } else if c == MINUS {
        Some(TokenKind::Minus)
    } else if c == STAR {
        Some(TokenKind::Star)
    } else if c == SLASH {
        Some(TokenKind::Slash)
    } else if c == CARET {
        Some(TokenKind::Caret)
    } else if c == EQ {
        Some(TokenKind::Eq)
    } else if c == LT {
        Some(TokenKind::Lt)
    } else if c == GT {
        Some(TokenKind::Gt)
    } else {
        None
    }
}

/// The kind of an opening bracket.
pub open spec fn open_kind(c: u8) -> Option<TokenKind> {
    if c == LPAREN {
        Some(TokenKind::LParen)
    } else if c == LBRACKET {
        Some(TokenKind::LBracket)
    } else if c == LBRACE {
        Some(TokenKind::LBrace)
    } else {
        None
    }
}

/// The kind of a closing bracket.
pub open spec fn close_kind(c: u8) -> Option<TokenKind> {
    if c == RPAREN {
        Some(TokenKind::RParen)
    } else if c == RBRACKET {
        Some(TokenKind::RBracket)
    } else if c == RBRACE {
        Some(TokenKind::RBrace)
    } else {
        None
    }
}

/// What the first pass does at `i < b.len()`.
pub open spec fn step(b: Seq<u8>, i: int, depth: nat) -> StepV {
    let c = b[i];
    if c == SPACE || c == TAB || c == CR {
        StepV::Skip(i + 1, depth)
    } else if c == LF {
        if depth == 0 {
            StepV::Emit(tok(TokenKind::Newline, i, i + 1), i + 1, depth)
        } else {
            StepV::Skip(i + 1, depth)
        }
    } else if c == MINUS && byte_is(b, i + 1, MINUS) {
        StepV::Skip(line_end(b, i + 2), depth)
    } else if pair_kind(b, i) is Some {
        StepV::Emit(tok(pair_kind(b, i)->0, i, i + 2), i + 2, depth)
    } else if open_kind(c) is Some {
        StepV::Emit(tok(open_kind(c)->0, i, i + 1), i + 1, depth + 1)
    } else if close_kind(c) is Some {
        StepV::Emit(tok(close_kind(c)->0, i, i + 1), i + 1, if depth > 0 { (depth - 1) as nat } else { 0 })
    } else if single_kind(c) is Some {
        StepV::Emit(tok(single_kind(c)->0, i, i + 1), i + 1, depth)
    } else if c == BANG {
        StepV::Fail(err_at(i, i + 1, ErrorKind::LexError, "unexpected `!` (did you mean `!=`?)"@))
    } else if c == QUOTE {
        match string_token(b, i) {
            Ok((t, e)) => StepV::Emit(t, e, depth),
            Err(x) => StepV::Fail(x),
        }
    } else if is_digit(c) {
        match number_token(b, i) {
            Ok((t, e)) => StepV::Emit(t, e, depth),
            Err(x) => StepV::Fail(x),
        }
    } else if is_ident_start(c) {
        StepV::Emit(tok(TokenKind::Ident, i, ident_end(b, i)), ident_end(b, i), depth)
    } else {
        StepV::Fail(err_at(i, i + 1, ErrorKind::LexError, "unexpected character"@))
    }
}

/// Every step moves forward and stays within the input; an emitted token
/// starts where the step does and ends where the next step starts.
pub proof fn lemma_step_advances(b: Seq<u8>, i: int, depth: nat)
    requires
        0 <= i < b.len(),
    ensures
        match step(b, i, depth) {
            StepV::Skip(j, _) => i < j <= b.len(),
            StepV::Emit(t, j, _) => i < j <= b.len() && t.span == span_of(i, j),
            StepV::Fail(_) => true,
        },
{
    let c = b[i];
    if c == MINUS && byte_is(b, i + 1, MINUS) {
        lemma_line_end(b, i + 2);
    } else if c == QUOTE {
        lemma_string_stop(b, i + 1);
    } else if is_digit(c) {
        assert(digits_end(b, i) == digits_end(b, i + 1));
        lemma_digits_end(b, i + 1);
        let p = digits_end(b, i);
        if byte_is(b, p, DOT) && digit_at(b, p + 1) {
            lemma_digits_end(b, p + 1);
        }
        let frac = byte_is(b, p, DOT) && digit_at(b, p + 1);
        let q = if frac { digits_end(b, p + 1) } else { p };
        let j = if byte_is(b, q + 1, PLUS) || byte_is(b, q + 1, MINUS) { q + 2 } else { q + 1 };
        if digit_at(b, j) {
            lemma_digits_end(b, j);
        }
    } else if is_ident_start(c) {
        assert(ident_end(b, i) == ident_end(b, i + 1));
        lemma_ident_end(b, i + 1);
    }
}

/// The first pass from `i` with `depth` unclosed brackets: the tokens it
/// emits, or the first error.
pub open spec fn lex_from(b: Seq<u8>, i: int, depth: nat) -> Result<Seq<Token>, SyntaxErrorV>
    decreases b.len() - i,
{
    if i < 0 || i >= b.len() {
        Ok(Seq::empty())
    } else {
        proof {
            lemma_step_advances(b, i, depth);
        }
        match step(b, i, depth) {
            StepV::Skip(j, d) => lex_from(b, j, d),
            StepV::Emit(t, j, d) => then_tokens(seq![t], lex_from(b, j, d)),
            StepV::Fail(e) => Err(e),
        }
    }
}

/// `r` with `pre` in front of its tokens.
pub open spec fn then_tokens(pre: Seq<Token>, r: Result<Seq<Token>, SyntaxErrorV>) -> Result<
    Seq<Token>,
    SyntaxErrorV,
> {
    match r {
        Ok(s) => Ok(pre + s),
        Err(e) => Err(e),
    }
}

proof fn lemma_then_assoc(p: Seq<Token>, q: Seq<Token>, r: Result<Seq<Token>, SyntaxErrorV>)
    ensures
        then_tokens(p, then_tokens(q, r)) == then_tokens(p + q, r),
{
    if let Ok(s) = r {
        assert(p + (q + s) =~= (p + q) + s);
    }
}

/// The raw tokens of source bytes `b`.
pub open spec fn raw_tokens(b: Seq<u8>) -> Result<Seq<Token>, SyntaxErrorV> {
    lex_from(b, 0, 0)
}

// ---------------------------------------------------------------------------
// The first pass, computed
// ---------------------------------------------------------------------------

fn is_digit_byte(c: u8) -> (r: bool)
    ensures
        r == is_digit(c),
{
    DIGIT_0 <= c && c <= DIGIT_9
}

fn is_ident_start_byte(c: u8) -> (r: bool)
    ensures
        r == is_ident_start(c),
{
    (UPPER_A <= c && c <= UPPER_Z) || (LOWER_A <= c && c <= LOWER_Z) || c == UNDERSCORE
}

/// Whether `c` may continue an identifier.
pub fn is_ident_continue_byte(c: u8) -> (r: bool)
    ensures
        r == is_ident_continue(c),
{
    is_ident_start_byte(c) || is_digit_byte(c)
}

fn scan_digits(bytes: &[u8], i: usize) -> (r: usize)
    requires
        i <= bytes@.len(),
    ensures
        r == digits_end(bytes@, i as int),
{
    let n = bytes.len();
    let mut j = i;
    while j < n && is_digit_byte(bytes[j])
        invariant
            n == bytes@.len(),
            i <= j <= n,
            digits_end(bytes@, i as int) == digits_end(bytes@, j as int),
        decreases n - j,
    {
        j += 1;
    }
    j
}

fn pair_kind_at(bytes: &[u8], i: usize) -> (r: Option<TokenKind>)
    requires
        i < bytes@.len(),
    ensures
        r == pair_kind(bytes@, i as int),
{
    let n = bytes.len();
    let c = bytes[i];
    let next_is = |d: u8| -> (r: bool)
        ensures
            r == byte_is(bytes@, i + 1, d),
        { i + 1 < n && bytes[i + 1] == d };
    if c == MINUS && next_is(GT) {
        Some(TokenKind::Arrow)
    } else if c == EQ && next_is(EQ) {
        Some(TokenKind::EqEq)
    } else if c == BANG && next_is(EQ) {
        Some(TokenKind::BangEq)
    } else if c == LT && next_is(EQ) {
        Some(TokenKind::LtEq)
    } else if c == GT && next_is(EQ) {
        Some(TokenKind::GtEq)
    } else if c == LAMBDA_LEAD && next_is(LAMBDA_TRAIL) {
        Some(TokenKind::Lambda)
    } else {
        None
    }
}

fn single_kind_of(c: u8) -> (r: Option<TokenKind>)
    ensures
        r == single_kind(c),
{
    if c == COMMA {
        Some(TokenKind::Comma)
    } else if c == COLON {
        Some(TokenKind::Colon)
    } else if c == DOT {
        Some(TokenKind::Dot)
    } else if c == SEMI {
        Some(TokenKind::Semicolon)
    } else if c == PLUS {
        Some(TokenKind::Plus)
    } else if c == MINUS {
        Some(TokenKind::Minus)
    } else if c == STAR {
        Some(TokenKind::Star)
    } else if c == SLASH {
        Some(TokenKind::Slash)
    } else if c == CARET {
        Some(TokenKind::Caret)
    } else if c == EQ {
        Some(TokenKind::Eq)
    } else if c == LT {
        Some(TokenKind::Lt)
    } else if c == GT {
        Some(TokenKind::Gt)
    } else {
        None
    }
}

fn open_kind_of(c: u8) -> (r: Option<TokenKind>)
    ensures
        r == open_kind(c),
{
    if c == LPAREN {
        Some(TokenKind::LParen)
    } else if c == LBRACKET {
        Some(TokenKind::LBracket)
    } else if c == LBRACE {
        Some(TokenKind::LBrace)
    } else {
        None
    }
}

fn close_kind_of(c: u8) -> (r: Option<TokenKind>)
    ensures
        r == close_kind(c),
{
    if c == RPAREN {
        Some(TokenKind::RParen)
    } else if c == RBRACKET {
        Some(TokenKind::RBracket)
    } else if c == RBRACE {
        Some(TokenKind::RBrace)
    } else {
        None
    }
}

/// The span `[s, e)` of offsets that fit in a `u32`.
fn span_at(s: usize, e: usize) -> (r: Span)
    requires
        s <= e <= u32::MAX,
    ensures
        r == span_of(s as int, e as int),
{
    Span::new(s as u32, e as u32)
}

/// Lex the numeric literal starting at the digit `bytes[start]`, push its
/// token and return the position after it.
fn lex_number(bytes: &[u8], start: usize, out: &mut Vec<Token>) -> (r: Result<usize, SyntaxError>)
    requires
        start < bytes@.len() < u32::MAX,
        is_digit(bytes@[start as int]),
    ensures
        match number_token(bytes@, start as int) {
            Ok((t, e)) => r == Ok::<usize, SyntaxError>(e as usize) && final(out)@ == old(out)@.push(t),
            Err(x) => r is Err && r->Err_0@ == x && final(out)@ == old(out)@,
        },
{
    let n = bytes.len();
    proof {
        lemma_step_advances(bytes@, start as int, 0);
        lemma_digits_end(bytes@, start as int);
    }
    let p = scan_digits(bytes, start);
    let frac = p < n && bytes[p] == DOT && p + 1 < n && is_digit_byte(bytes[p + 1]);
    let q = if frac { scan_digits(bytes, p + 1) } else { p };
    proof {
        if frac {
            lemma_digits_end(bytes@, p + 1);
        }
    }
    let has_e = q < n && (bytes[q] == LOWER_E || bytes[q] == UPPER_E);
    let j = if q + 1 < n && (bytes[q + 1] == PLUS || bytes[q + 1] == MINUS) { q + 2 } else { q + 1 };
    let exp = has_e && j < n && is_digit_byte(bytes[j]);
    let r = if exp { scan_digits(bytes, j) } else { q };
    proof {
        if exp {
            lemma_digits_end(bytes@, j as int);
        }
    }
    if r < n && bytes[r] == UNDERSCORE {
        return Err(
            SyntaxError::new(
                span_at(start, r + 1),
                ErrorKind::InvalidLiteral,
                string_of("numeric literals may not contain underscores"),
            ),
        );
    }
    let kind = if frac || exp { TokenKind::Float } else { TokenKind::Nat };
    out.push(Token::new(kind, span_at(start, r)));
    Ok(r)
}

fn is_escape_byte(c: u8) -> (r: bool)
    ensures
        r == is_escape(c),
{
    c == LOWER_N || c == LOWER_T || c == LOWER_R || c == BACKSLASH || c == QUOTE
}

/// Lex the string literal whose opening quote is `bytes[start]`, push its
/// token and return the position after it.
fn lex_string(bytes: &[u8], start: usize, out: &mut Vec<Token>) -> (r: Result<usize, SyntaxError>)
    requires
        start < bytes@.len() < u32::MAX,
    ensures
        match string_token(bytes@, start as int) {
            Ok((t, e)) => r == Ok::<usize, SyntaxError>(e as usize) && final(out)@ == old(out)@.push(t),
            Err(x) => r is Err && r->Err_0@ == x && final(out)@ == old(out)@,
        },
{
    let n = bytes.len();
    let mut i = start + 1;
    proof {
        lemma_string_stop(bytes@, i as int);
    }
    loop
        invariant
            n == bytes@.len() < u32::MAX,
            start < i <= n,
            string_stop(bytes@, start + 1) == string_stop(bytes@, i as int),
            out@ == old(out)@,
        decreases n - i,
    {
        if i >= n {
            return Err(
                SyntaxError::new(span_at(start, i), ErrorKind::InvalidString, string_of("unterminated string literal")),
            );
        }
        let c = bytes[i];
        if c == QUOTE {
            i += 1;
            out.push(Token::new(TokenKind::Str, span_at(start, i)));
            return Ok(i);
        }
        if c == LF {
            return Err(
                SyntaxError::new(span_at(start, i), ErrorKind::InvalidString, string_of("unterminated string literal")),
            );
        }
        if c == BACKSLASH {
            if i + 1 < n && is_escape_byte(bytes[i + 1]) {
                i += 2;
            } else {
                return Err(
                    SyntaxError::new(span_at(start, i + 2), ErrorKind::InvalidString, string_of("unknown string escape")),
                );
            }
        } else {
            i += 1;
        }
    }
}

/// What one step of the first pass did: the next position and depth it
/// returned and the token it pushed, as [`step`] prescribes.
pub open spec fn step_done(
    b: Seq<u8>,
    i: int,
    depth: nat,
    before: Seq<Token>,
    after: Seq<Token>,
    r: Result<(usize, usize), SyntaxError>,
) -> bool {
    match step(b, i, depth) {
        StepV::Skip(j, d) => r is Ok && r->Ok_0.0 == j && r->Ok_0.1 == d && after == before,
        StepV::Emit(t, j, d) => r is Ok && r->Ok_0.0 == j && r->Ok_0.1 == d && after == before.push(t),
        StepV::Fail(e) => r is Err && r->Err_0@ == e && after == before,
    }
}

/// One step of the first pass at `i` with `depth` unclosed brackets.
fn lex_step(bytes: &[u8], i: usize, depth: usize, out: &mut Vec<Token>) -> (r: Result<(usize, usize), SyntaxError>)
    requires
        i < bytes@.len() < u32::MAX,
        depth <= i,
    ensures
        step_done(bytes@, i as int, depth as nat, old(out)@, final(out)@, r),
{
    let n = bytes.len();
    let c = bytes[i];
    proof {
        lemma_step_advances(bytes@, i as int, depth as nat);
    }
    if c == SPACE || c == TAB || c == CR {
        return Ok((i + 1, depth));
    }
    if c == LF {
        if depth == 0 {
            out.push(Token::new(TokenKind::Newline, span_at(i, i + 1)));
        }
        return Ok((i + 1, depth));
    }
    if c == MINUS && i + 1 < n && bytes[i + 1] == MINUS {
        let mut j = i + 2;
        while j < n && bytes[j] != LF
            invariant
                n == bytes@.len(),
                i + 2 <= j <= n,
                line_end(bytes@, i + 2) == line_end(bytes@, j as int),
            decreases n - j,
        {
            j += 1;
        }
        return Ok((j, depth));
    }
    if let Some(k) = pair_kind_at(bytes, i) {
        out.push(Token::new(k, span_at(i, i + 2)));
        return Ok((i + 2, depth));
    }
    if let Some(k) = open_kind_of(c) {
        out.push(Token::new(k, span_at(i, i + 1)));
        return Ok((i + 1, depth + 1));
    }
    if let Some(k) = close_kind_of(c) {
        out.push(Token::new(k, span_at(i, i + 1)));
        let d = if depth > 0 { depth - 1 } else { 0 };
        return Ok((i + 1, d));
    }
    if let Some(k) = single_kind_of(c) {
        out.push(Token::new(k, span_at(i, i + 1)));
        return Ok((i + 1, depth));
    }
    if c == BANG {
        return Err(
            SyntaxError::new(
                span_at(i, i + 1),
                ErrorKind::LexError,
                string_of("unexpected `!` (did you mean `!=`?)"),
            ),
        );
    }
    if c == QUOTE {
        return match lex_string(bytes, i, out) {
            Ok(e) => Ok((e, depth)),
            Err(x) => Err(x),
        };
    }
    if is_digit_byte(c) {
        return match lex_number(bytes, i, out) {
            Ok(e) => Ok((e, depth)),
            Err(x) => Err(x),
        };
    }
    if is_ident_start_byte(c) {
        let mut j = i;
        while j < n && is_ident_continue_byte(bytes[j])
            invariant
                n == bytes@.len(),
                i <= j <= n,
                ident_end(bytes@, i as int) == ident_end(bytes@, j as int),
            decreases n - j,
        {
            j += 1;
        }
        out.push(Token::new(TokenKind::Ident, span_at(i, j)));
        return Ok((j, depth));
    }
    Err(SyntaxError::new(span_at(i, i + 1), ErrorKind::LexError, string_of("unexpected character")))
}

proof fn lemma_emit(out: Seq<Token>, t: Token, r: Result<Seq<Token>, SyntaxErrorV>)
    ensures
        then_tokens(out, then_tokens(seq![t], r)) == then_tokens(out.push(t), r),
{
    lemma_then_assoc(out, seq![t], r);
    assert(out + seq![t] =~= out.push(t));
}

/// The first pass alone: the raw tokens of `source`, without the layout
/// tokens, or the first lexical error.
pub fn lex_raw(source: &str) -> (r: Result<Vec<Token>, SyntaxError>)
    requires
        source.spec_bytes().len() < u32::MAX,
    ensures
        match raw_tokens(source.spec_bytes()) {
            Ok(ts) => r is Ok && r->Ok_0@ == ts,
            Err(e) => r is Err && r->Err_0@ == e,
        },
{
    let bytes = source.as_bytes();
    let n = bytes.len();
    let mut out: Vec<Token> = Vec::new();
    let mut i: usize = 0;
    let mut depth: usize = 0;
    assert(out@ + Seq::<Token>::empty() =~= Seq::<Token>::empty());
    while i < n
        invariant
            n == bytes@.len() < u32::MAX,
            bytes@ == source.spec_bytes(),
            i <= n,
            depth <= i,
            raw_tokens(bytes@) == then_tokens(out@, lex_from(bytes@, i as int, depth as nat)),
        decreases n - i,
    {
        let ghost before = out@;
        proof {
            lemma_step_advances(bytes@, i as int, depth as nat);
        }
        match lex_step(bytes, i, depth, &mut out) {
            Ok((j, d)) => {
                proof {
                    match step(bytes@, i as int, depth as nat) {
                        StepV::Emit(t, _, _) => {
                            lemma_emit(before, t, lex_from(bytes@, j as int, d as nat));
                        },
                        _ => {},
                    }
                }
                i = j;
                depth = d;
            },
            Err(e) => {
                return Err(e);
            },
        }
    }
    proof {
        assert(out@ + Seq::<Token>::empty() =~= out@);
    }
    Ok(out)
}

// ---------------------------------------------------------------------------
// The second pass: layout
// ---------------------------------------------------------------------------

/// The offset at which the line containing `off` starts.
pub open spec fn line_start(b: Seq<u8>, off: int) -> int
    decreases off,
{
    if off <= 0 {
        0
    } else if b[off - 1] == LF {
        off
    } else {
        line_start(b, off - 1)
    }
}

/// The number of spaces from `k` up to the first other byte or `off`, or
/// `None` when that other byte is a tab.
pub open spec fn indent_width(b: Seq<u8>, k: int, off: int) -> Option<nat>
    decreases off - k,
{
    if k >= off {
        Some(0)
    } else if b[k] == SPACE {
        plus_width(indent_width(b, k + 1, off), 1)
    } else if b[k] == TAB {
        None
    } else {
        Some(0)
    }
}

/// `w` widened by `c`.
pub open spec fn plus_width(w: Option<nat>, c: nat) -> Option<nat> {
    match w {
        Some(x) => Some(x + c),
        None => None,
    }
}

/// The column of the token at `off`: the leading spaces of its line, or
/// the error for a tab among them.
pub open spec fn leading_column_of(b: Seq<u8>, off: int) -> Result<u32, SyntaxErrorV> {
    match indent_width(b, line_start(b, off), off) {
        Some(w) => Ok(w as u32),
        None => Err(
            err_at(
                off,
                off,
                ErrorKind::Indentation,
                "tab characters are not allowed in leading whitespace; use spaces"@,
            ),
        ),
    }
}

/// How many levels at the top of `stack` lie deeper than `col`.
pub open spec fn pops(stack: Seq<u32>, col: u32) -> nat
    decreases stack.len(),
{
    if stack.len() == 0 {
        0
    } else if stack.last() > col {
        1 + pops(stack.drop_last(), col)
    } else {
        0
    }
}

/// `n` copies of `t`.
pub open spec fn repeat_tok(t: Token, n: nat) -> Seq<Token> {
    Seq::new(n, |_k: int| t)
}

/// The tokens that close the stream: a `Newline` unless the raw stream
/// already ends with one, a `Dedent` for each open block, and `Eof`, all
/// at the end of the input.
pub open spec fn layout_finish(b: Seq<u8>, raw: Seq<Token>, stack: Seq<u32>) -> Seq<Token> {
    let end = span_of(b.len() as int, b.len() as int);
    let nl = if raw.len() == 0 || raw.last().kind != TokenKind::Newline {
        seq![Token { kind: TokenKind::Newline, span: end }]
    } else {
        Seq::empty()
    };
    nl + repeat_tok(Token { kind: TokenKind::Dedent, span: end }, (stack.len() - 1) as nat) + seq![
        Token { kind: TokenKind::Eof, span: end },
    ]
}

/// The second pass over `raw[k..]`, with the stack of open indentation
/// columns and whether the next token starts a line.
///
/// A token that starts a line deeper than the innermost block opens a new
/// one (`Indent`); one that starts shallower closes blocks (`Dedent`) until
/// its column is reached, which must be the column of an open block.
pub open spec fn layout(
    b: Seq<u8>,
    raw: Seq<Token>,
    k: int,
    stack: Seq<u32>,
    at_start: bool,
) -> Result<Seq<Token>, SyntaxErrorV>
    decreases raw.len() - k,
{
    if k < 0 || k >= raw.len() {
        Ok(layout_finish(b, raw, stack))
    } else {
        let t = raw[k];
        let at = Span { start: t.span.start, end: t.span.start };
        if t.kind == TokenKind::Newline {
            then_tokens(seq![t], layout(b, raw, k + 1, stack, true))
        } else if !at_start {
            then_tokens(seq![t], layout(b, raw, k + 1, stack, false))
        } else {
            match leading_column_of(b, t.span.start as int) {
                Err(e) => Err(e),
                Ok(col) => {
                    if col > stack.last() {
                        then_tokens(
                            seq![Token { kind: TokenKind::Indent, span: at }, t],
                            layout(b, raw, k + 1, stack.push(col), false),
                        )
                    } else if col < stack.last() {
                        let n = pops(stack, col);
                        let rest = stack.take(stack.len() - n);
                        if rest.last() != col {
                            Err(
                                SyntaxErrorV {
                                    span: at,
                                    kind: ErrorKind::Indentation,
                                    message: "unindent does not match any outer indent level"@,
                                },
                            )
                        } else {
                            then_tokens(
                                repeat_tok(Token { kind: TokenKind::Dedent, span: at }, n).push(t),
                                layout(b, raw, k + 1, rest, false),
                            )
                        }
                    } else {
                        then_tokens(seq![t], layout(b, raw, k + 1, stack, false))
                    }
                },
            }
        }
    }
}

/// The whole second pass: the stack starts at column zero.
pub open spec fn layout_tokens(b: Seq<u8>, raw: Seq<Token>) -> Result<Seq<Token>, SyntaxErrorV> {
    layout(b, raw, 0, seq![0u32], true)
}

/// Both passes over the source bytes `b`.
pub open spec fn lexed(b: Seq<u8>) -> Result<Seq<Token>, SyntaxErrorV> {
    match raw_tokens(b) {
        Ok(raw) => layout_tokens(b, raw),
        Err(e) => Err(e),
    }
}

/// Every token of `s` starts within the first `len` bytes.
pub open spec fn starts_within(s: Seq<Token>, len: int) -> bool {
    forall|q: int| 0 <= q < s.len() ==> (#[trigger] s[q]).span.start <= len
}

proof fn lemma_lex_from_spans(b: Seq<u8>, i: int, depth: nat)
    requires
        0 <= i,
        b.len() < u32::MAX,
    ensures
        lex_from(b, i, depth) is Ok ==> starts_within(lex_from(b, i, depth)->Ok_0, b.len() as int),
    decreases b.len() - i,
{
    if i < b.len() {
        lemma_step_advances(b, i, depth);
        match step(b, i, depth) {
            StepV::Skip(j, d) => {
                lemma_lex_from_spans(b, j, d);
            },
            StepV::Emit(t, j, d) => {
                lemma_lex_from_spans(b, j, d);
                if lex_from(b, j, d) is Ok {
                    let s = lex_from(b, j, d)->Ok_0;
                    assert forall|q: int| 0 <= q < (seq![t] + s).len() implies (#[trigger] (seq![t] + s)[q]).span.start
                        <= b.len() by {
                        if q > 0 {
                            assert((seq![t] + s)[q] == s[q - 1]);
                        }
                    }
                }
            },
            StepV::Fail(_) => {},
        }
    }
}

/// The leading column of the token at `offset`.
fn leading_column(bytes: &[u8], offset: u32) -> (r: Result<u32, SyntaxError>)
    requires
        offset <= bytes@.len() < u32::MAX,
    ensures
        match leading_column_of(bytes@, offset as int) {
            Ok(c) => r == Ok::<u32, SyntaxError>(c),
            Err(e) => r is Err && r->Err_0@ == e,
        },
{
    let off = offset as usize;
    let mut ls = off;
    while ls > 0 && bytes[ls - 1] != LF
        invariant
            ls <= off <= bytes@.len(),
            line_start(bytes@, off as int) == line_start(bytes@, ls as int),
        decreases ls,
    {
        ls -= 1;
    }
    let mut col: u32 = 0;
    let mut k = ls;
    while k < off && bytes[k] == SPACE
        invariant
            ls <= k <= off <= bytes@.len() < u32::MAX,
            line_start(bytes@, off as int) == ls,
            col == k - ls,
            indent_width(bytes@, ls as int, off as int) == plus_width(indent_width(bytes@, k as int, off as int), col as nat),
        decreases off - k,
    {
        proof {
            assert(indent_width(bytes@, k as int, off as int) == plus_width(indent_width(bytes@, k + 1, off as int), 1));
            match indent_width(bytes@, k + 1, off as int) {
                Some(w) => {},
                None => {},
            }
        }
        col += 1;
        k += 1;
    }
    if k < off && bytes[k] == TAB {
        return Err(
            SyntaxError::new(
                Span::empty(offset),
                ErrorKind::Indentation,
                string_of("tab characters are not allowed in leading whitespace; use spaces"),
            ),
        );
    }
    Ok(col)
}

proof fn lemma_pops_bound(stack: Seq<u32>, col: u32)
    requires
        stack.len() >= 1,
        stack[0] <= col,
    ensures
        pops(stack, col) < stack.len(),
    decreases stack.len(),
{
    if stack.len() > 1 && stack.last() > col {
        lemma_pops_bound(stack.drop_last(), col);
    }
}

/// Insert the layout tokens into the raw token stream `raw` of `source`:
/// `Indent` and `Dedent` where the indentation of a line's first token
/// opens or closes blocks, and the closing `Newline`, `Dedent`s and `Eof`.
///
/// Blank lines and comment-only lines surface in `raw` as bare `Newline`
/// tokens and never touch the indentation stack.
pub fn apply_indentation(source: &str, raw: Vec<Token>) -> (r: Result<Vec<Token>, SyntaxError>)
    requires
        source.spec_bytes().len() < u32::MAX,
        forall|q: int|
            0 <= q < raw@.len() && (#[trigger] raw@[q]).kind != TokenKind::Newline ==> raw@[q].span.start
                <= source.spec_bytes().len(),
    ensures
        match layout_tokens(source.spec_bytes(), raw@) {
            Ok(ts) => r is Ok && r->Ok_0@ == ts,
            Err(e) => r is Err && r->Err_0@ == e,
        },
{
    let bytes = source.as_bytes();
    let n = raw.len();
    let mut out: Vec<Token> = Vec::new();
    let mut stack: Vec<u32> = Vec::new();
    stack.push(0);
    assert(stack@ =~= seq![0u32]);
    let mut at_line_start = true;
    let mut k: usize = 0;
    assert(out@ + Seq::<Token>::empty() =~= Seq::<Token>::empty());
    while k < n
        invariant
            bytes@ == source.spec_bytes(),
            bytes@.len() < u32::MAX,
            n == raw@.len(),
            k <= n,
            forall|q: int|
                0 <= q < raw@.len() && (#[trigger] raw@[q]).kind != TokenKind::Newline ==> raw@[q].span.start
                    <= bytes@.len(),
            stack@.len() >= 1,
            stack@[0] == 0,
            layout_tokens(bytes@, raw@) == then_tokens(out@, layout(bytes@, raw@, k as int, stack@, at_line_start)),
        decreases n - k,
    {
        let t = raw[k];
        let ghost before = out@;
        if t.kind == TokenKind::Newline {
            proof {
                lemma_emit(before, t, layout(bytes@, raw@, k + 1, stack@, true));
            }
            out.push(t);
            at_line_start = true;
        } else if !at_line_start {
            proof {
                lemma_emit(before, t, layout(bytes@, raw@, k + 1, stack@, false));
            }
            out.push(t);
        } else {
            let col = match leading_column(bytes, t.span.start) {
                Ok(c) => c,
                Err(e) => {
                    return Err(e);
                },
            };
            let top = stack[stack.len() - 1];
            if col > top {
                stack.push(col);
                out.push(Token::new(TokenKind::Indent, Span::empty(t.span.start)));
                out.push(t);
                proof {
                    let at = Span { start: t.span.start, end: t.span.start };
                    lemma_then_assoc(
                        before,
                        seq![Token { kind: TokenKind::Indent, span: at }, t],
                        layout(bytes@, raw@, k + 1, stack@, false),
                    );
                    assert(before + seq![Token { kind: TokenKind::Indent, span: at }, t] =~= out@);
                }
            } else if col < top {
                let ghost s0 = stack@;
                let ghost dedent = Token { kind: TokenKind::Dedent, span: Span { start: t.span.start, end: t.span.start } };
                let ghost mut p: nat = 0;
                assert(out@ =~= before + repeat_tok(dedent, 0));
                assert(s0.take(s0.len() - 0) =~= s0);
                while stack[stack.len() - 1] > col
                    invariant
                        stack@.len() >= 1,
                        stack@[0] == 0,
                        s0.len() >= 1,
                        p < s0.len(),
                        stack@ == s0.take(s0.len() - p),
                        pops(s0, col) == p + pops(stack@, col),
                        out@ == before + repeat_tok(dedent, p),
                        dedent == (Token { kind: TokenKind::Dedent, span: Span { start: t.span.start, end: t.span.start } }),
                    decreases stack.len(),
                {
                    let ghost cur = stack@;
                    stack.pop();
                    out.push(Token::new(TokenKind::Dedent, Span::empty(t.span.start)));
                    proof {
                        assert(stack@ =~= s0.take(s0.len() - (p + 1)));
                        assert(pops(cur, col) == 1 + pops(cur.drop_last(), col));
                        assert(repeat_tok(dedent, p).push(dedent) =~= repeat_tok(dedent, p + 1));
                        p = p + 1;
                    }
                }
                if stack[stack.len() - 1] != col {
                    return Err(
                        SyntaxError::new(
                            Span::empty(t.span.start),
                            ErrorKind::Indentation,
                            string_of("unindent does not match any outer indent level"),
                        ),
                    );
                }
                out.push(t);
                proof {
                    lemma_then_assoc(
                        before,
                        repeat_tok(dedent, p).push(t),
                        layout(bytes@, raw@, k + 1, stack@, false),
                    );
                    assert(before + repeat_tok(dedent, p).push(t) =~= out@);
                }
            } else {
                proof {
                    lemma_emit(before, t, layout(bytes@, raw@, k + 1, stack@, false));
                }
                out.push(t);
            }
            at_line_start = false;
        }
        k += 1;
    }
    let ghost before_end = out@;
    let ghost s1 = stack@;
    let end = bytes.len() as u32;
    if n == 0 || raw[n - 1].kind != TokenKind::Newline {
        out.push(Token::new(TokenKind::Newline, Span::empty(end)));
    }
    let ghost after_nl = out@;
    let ghost dedent_end = Token { kind: TokenKind::Dedent, span: Span { start: end, end: end } };
    assert(after_nl + repeat_tok(dedent_end, 0) =~= after_nl);
    while stack.len() > 1
        invariant
            1 <= stack@.len() <= s1.len(),
            out@ == after_nl + repeat_tok(dedent_end, (s1.len() - stack@.len()) as nat),
            dedent_end == (Token { kind: TokenKind::Dedent, span: Span { start: end, end: end } }),
        decreases stack.len(),
    {
        stack.pop();
        out.push(Token::new(TokenKind::Dedent, Span::empty(end)));
        assert(repeat_tok(dedent_end, (s1.len() - stack@.len() - 1) as nat).push(dedent_end) =~= repeat_tok(
            dedent_end,
            (s1.len() - stack@.len()) as nat,
        ));
    }
    out.push(Token::new(TokenKind::Eof, Span::empty(end)));
    proof {
        assert(out@ =~= before_end + layout_finish(bytes@, raw@, s1));
    }
    Ok(out)
}

/// Lex `source` into the token stream the parser reads: the raw tokens
/// with the layout tokens inserted. The stream always ends with `Newline`,
/// zero or more `Dedent`s and `Eof`.
///
/// Returns the first lexical or layout error.
pub fn lex(source: &str) -> (r: Result<Vec<Token>, SyntaxError>)
    requires
        source.spec_bytes().len() < u32::MAX,
    ensures
        match lexed(source.spec_bytes()) {
            Ok(ts) => r is Ok && r->Ok_0@ == ts,
            Err(e) => r is Err && r->Err_0@ == e,
        },
{
    let raw = match lex_raw(source) {
        Ok(raw) => raw,
        Err(e) => {
            return Err(e);
        },
    };
    proof {
        lemma_lex_from_spans(source.spec_bytes(), 0, 0);
        assert forall|q: int|
            0 <= q < raw@.len() && (#[trigger] raw@[q]).kind != TokenKind::Newline implies raw@[q].span.start
                <= source.spec_bytes().len() by {
            assert(starts_within(raw@, source.spec_bytes().len() as int));
        }
    }
    apply_indentation(source, raw)
}

// ---------------------------------------------------------------------------
// The shape of the stream
// ---------------------------------------------------------------------------

/// `s` ends with a `Newline` followed by zero or more `Dedent`s.
pub open spec fn newline_then_dedents(s: Seq<Token>) -> bool
    decreases s.len(),
{
    s.len() >= 1 && (s.last().kind == TokenKind::Newline || (s.last().kind == TokenKind::Dedent
        && newline_then_dedents(s.drop_last())))
}

/// `s` ends with a `Newline`, zero or more `Dedent`s and `Eof`.
pub open spec fn closes_properly(s: Seq<Token>) -> bool {
    s.len() >= 2 && s.last().kind == TokenKind::Eof && newline_then_dedents(s.drop_last())
}

proof fn lemma_dedent_tail(x: Seq<Token>, d: Token, m: nat)
    requires
        x.len() >= 1,
        x.last().kind == TokenKind::Newline,
        d.kind == TokenKind::Dedent,
    ensures
        newline_then_dedents(x + repeat_tok(d, m)),
    decreases m,
{
    if m == 0 {
        assert(x + repeat_tok(d, m) =~= x);
    } else {
        lemma_dedent_tail(x, d, (m - 1) as nat);
        assert((x + repeat_tok(d, m)).drop_last() =~= x + repeat_tok(d, (m - 1) as nat));
    }
}

/// The second pass from `k` emits some tokens, ending with `raw`'s last
/// one when there are any left, and then the closing tokens.
proof fn lemma_layout_shape(b: Seq<u8>, raw: Seq<Token>, k: int, stack: Seq<u32>, at_start: bool) -> (r: (
    Seq<Token>,
    Seq<u32>,
))
    requires
        0 <= k <= raw.len(),
    ensures
        layout(b, raw, k, stack, at_start) is Ok ==> {
            &&& layout(b, raw, k, stack, at_start)->Ok_0 == r.0 + layout_finish(b, raw, r.1)
            &&& k < raw.len() ==> r.0.len() > 0 && r.0.last() == raw.last()
            &&& k == raw.len() ==> r.0.len() == 0
        },
    decreases raw.len() - k,
{
    if k == raw.len() {
        assert(Seq::<Token>::empty() + layout_finish(b, raw, stack) =~= layout_finish(b, raw, stack));
        (Seq::empty(), stack)
    } else {
        let t = raw[k];
        let at = Span { start: t.span.start, end: t.span.start };
        let (pre, st, at2): (Seq<Token>, Seq<u32>, bool) = if t.kind == TokenKind::Newline {
            (seq![t], stack, true)
        } else if !at_start {
            (seq![t], stack, false)
        } else {
            match leading_column_of(b, t.span.start as int) {
                Err(_) => (seq![t], stack, false),
                Ok(col) => {
                    if col > stack.last() {
                        (seq![Token { kind: TokenKind::Indent, span: at }, t], stack.push(col), false)
                    } else if col < stack.last() {
                        let n = pops(stack, col);
                        (
                            repeat_tok(Token { kind: TokenKind::Dedent, span: at }, n).push(t),
                            stack.take(stack.len() - n),
                            false,
                        )
                    } else {
                        (seq![t], stack, false)
                    }
                },
            }
        };
        let (mid, fin) = lemma_layout_shape(b, raw, k + 1, st, at2);
        if layout(b, raw, k, stack, at_start) is Ok {
            assert(layout(b, raw, k, stack, at_start) == then_tokens(pre, layout(b, raw, k + 1, st, at2)));
            let rest = layout(b, raw, k + 1, st, at2)->Ok_0;
            assert(pre + rest =~= (pre + mid) + layout_finish(b, raw, fin));
            if k + 1 == raw.len() {
                assert(pre + mid =~= pre);
            }
        }
        (pre + mid, fin)
    }
}

/// The stream [`lex`] returns always ends with a `Newline`, zero or more
/// `Dedent`s and `Eof`.
pub proof fn lemma_lexed_closes(b: Seq<u8>)
    ensures
        lexed(b) is Ok ==> closes_properly(lexed(b)->Ok_0),
{
    if lexed(b) is Ok {
        let raw = raw_tokens(b)->Ok_0;
        let (mid, st) = lemma_layout_shape(b, raw, 0, seq![0u32], true);
        let s = lexed(b)->Ok_0;
        let end = span_of(b.len() as int, b.len() as int);
        let nl = if raw.len() == 0 || raw.last().kind != TokenKind::Newline {
            seq![Token { kind: TokenKind::Newline, span: end }]
        } else {
            Seq::empty()
        };
        let d = Token { kind: TokenKind::Dedent, span: end };
        let m = (st.len() - 1) as nat;
        assert(s == mid + (nl + repeat_tok(d, m) + seq![Token { kind: TokenKind::Eof, span: end }]));
        assert(s.drop_last() =~= (mid + nl) + repeat_tok(d, m));
        assert((mid + nl).last().kind == TokenKind::Newline);
        lemma_dedent_tail(mid + nl, d, m);
    }
}

} // verus!
