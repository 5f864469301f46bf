//! The parser: tokens to syntax tree, by recursive descent.
//!
//! The parser is fail-fast: the first error stops it. Each production
//! records the span from its first token to the last token it consumed,
//! so every node covers exactly the source it was built from.
//!
//! Every production is specified by a function over the token stream,
//! the source bytes and the parser state ([`PState`]): the node it
//! builds and the state after it, or the error. A state that moves
//! backwards cannot occur; the specifications guard against it so that
//! their recursion visibly terminates, and the parser proves that the
//! guards never fire.

use vstd::prelude::*;
use vstd::string::StringSliceAdditionalSpecFns;
use vstd::utf8::{decode_utf8, valid_utf8};
use crate::ast::{
    BinOp, Expr, ExprV, FieldDef, FieldDefV, FunctionDef, FunctionDefV, Hypothesis, HypothesisV, IfExpr, IfExprV,
    ImportDecl, ImportDeclV, ImportName, ImportNameV, LamParam, LamParamV, MatchArm, MatchArmV, MatchExpr,
    MatchExprV, Module, ModuleDecl, ModuleDeclV, ModuleV, Param, ParamV, Path, PathSegment, PathSegmentV, PathV,
    Pattern, PatternArg, PatternArgV, PatternV, ProofBlock, ProofBlockV, ProofStep, ProofStepKind, ProofStepKindV,
    ProofStepV, Stmt, StmtV, StructureDef, StructureDefV, TheoremDef, TheoremDefV, UnOp, expr_seq_view, expr_view,
    lam_param_seq_view, lam_param_view, match_arm_seq_view, match_arm_view, pattern_arg_seq_view, pattern_arg_view,
    param_seq_view, param_view, stmt_seq_view, stmt_view, field_def_seq_view, field_def_view, hypothesis_seq_view,
    hypothesis_view, proof_step_seq_view, proof_step_view, import_name_seq_view, import_name_view,
    path_segment_seq_view, path_segment_view, import_decl_seq_view, import_decl_view, structure_def_seq_view,
    structure_def_view, function_def_seq_view, function_def_view, theorem_def_seq_view, theorem_def_view, pattern_view,
    module_decl_view, path_view, proof_block_view, module_view, proof_step_kind_view,
};
use crate::lexer::{
    BANG, CR, DIGIT_0, DOT, LBRACKET, LF, LOWER_E, MINUS, PLUS, QUOTE, RBRACKET, SPACE, StepV, TAB, UPPER_E, byte_is,
    close_kind, digit_at, digits_end, ident_end, is_digit, is_ident_continue, is_ident_start, layout, layout_finish,
    leading_column_of, lemma_step_advances, lemma_string_stop, lex, lex_from, lexed, number_token, open_kind,
    pair_kind, pops, raw_tokens, repeat_tok, single_kind, span_of, step, tok,
};
use crate::syntax::{ErrorKind, Span, SyntaxError, SyntaxErrorV, Token, TokenKind, covering};
use crate::text::{decimal, push_decimal, string_of};
use vstd::string::{StrSliceExecFns, StringExecFns};

verus! {

// ---------------------------------------------------------------------------
// State and results
// ---------------------------------------------------------------------------

/// Where the parser stands: the index of the next token and the range of
/// the last token consumed.
pub struct PState {
    /// The index of the next token.
    pub pos: int,
    /// The range of the last token consumed.
    pub prev: Span,
}

/// The `Debug` name of a token kind, as messages show it.
#[verifier::opaque]
pub open spec fn kind_name(k: TokenKind) -> Seq<char> {
    match k {
        TokenKind::Ident => "Ident"@,
        TokenKind::Nat => "Nat"@,
        TokenKind::Float => "Float"@,
        TokenKind::Str => "Str"@,
        TokenKind::Lambda => "Lambda"@,
        TokenKind::LParen => "LParen"@,
        TokenKind::RParen => "RParen"@,
        TokenKind::LBracket => "LBracket"@,
        TokenKind::RBracket => "RBracket"@,
        TokenKind::LBrace => "LBrace"@,
        TokenKind::RBrace => "RBrace"@,
        TokenKind::Comma => "Comma"@,
        TokenKind::Colon => "Colon"@,
        TokenKind::Dot => "Dot"@,
        TokenKind::Semicolon => "Semicolon"@,
        TokenKind::Arrow => "Arrow"@,
        TokenKind::Plus => "Plus"@,
        TokenKind::Minus => "Minus"@,
        TokenKind::Star => "Star"@,
        TokenKind::Slash => "Slash"@,
        TokenKind::Caret => "Caret"@,
        TokenKind::Eq => "Eq"@,
        TokenKind::EqEq => "EqEq"@,
        TokenKind::BangEq => "BangEq"@,
        TokenKind::Lt => "Lt"@,
        TokenKind::LtEq => "LtEq"@,
        TokenKind::Gt => "Gt"@,
        TokenKind::GtEq => "GtEq"@,
        TokenKind::Newline => "Newline"@,
        TokenKind::Indent => "Indent"@,
        TokenKind::Dedent => "Dedent"@,
        TokenKind::Eof => "Eof"@,
    }
}

/// The `Debug` name of a token kind.
fn kind_str(k: TokenKind) -> (r: &'static str)
    ensures
        r@ == kind_name(k),
{
    reveal(kind_name);
    match k {
        TokenKind::Ident => "Ident",
        TokenKind::Nat => "Nat",
        TokenKind::Float => "Float",
        TokenKind::Str => "Str",
        TokenKind::Lambda => "Lambda",
        TokenKind::LParen => "LParen",
        TokenKind::RParen => "RParen",
        TokenKind::LBracket => "LBracket",
        TokenKind::RBracket => "RBracket",
        TokenKind::LBrace => "LBrace",
        TokenKind::RBrace => "RBrace",
        TokenKind::Comma => "Comma",
        TokenKind::Colon => "Colon",
        TokenKind::Dot => "Dot",
        TokenKind::Semicolon => "Semicolon",
        TokenKind::Arrow => "Arrow",
        TokenKind::Plus => "Plus",
        TokenKind::Minus => "Minus",
        TokenKind::Star => "Star",
        TokenKind::Slash => "Slash",
        TokenKind::Caret => "Caret",
        TokenKind::Eq => "Eq",
        TokenKind::EqEq => "EqEq",
        TokenKind::BangEq => "BangEq",
        TokenKind::Lt => "Lt",
        TokenKind::LtEq => "LtEq",
        TokenKind::Gt => "Gt",
        TokenKind::GtEq => "GtEq",
        TokenKind::Newline => "Newline",
        TokenKind::Indent => "Indent",
        TokenKind::Dedent => "Dedent",
        TokenKind::Eof => "Eof",
    }
}

/// The next token, or `Eof` at the end of the input once the stream is
/// exhausted.
pub open spec fn peek_tok(ts: Seq<Token>, n: int, st: PState) -> Token {
    if 0 <= st.pos < ts.len() {
        ts[st.pos]
    } else {
        Token { kind: TokenKind::Eof, span: span_of(n, n) }
    }
}

/// The state after consuming the next token; `Eof` is never consumed.
pub open spec fn bump(ts: Seq<Token>, n: int, st: PState) -> PState {
    let t = peek_tok(ts, n, st);
    PState { pos: if t.kind != TokenKind::Eof { st.pos + 1 } else { st.pos }, prev: t.span }
}

/// The text of the range `sp` of the bytes `b`, one character per byte.
pub open spec fn span_text(b: Seq<u8>, sp: Span) -> Seq<char> {
    b.subrange(sp.start as int, sp.end as int).map_values(|c: u8| c as char)
}

/// An error at `span`.
pub open spec fn err(span: Span, kind: ErrorKind, message: Seq<char>) -> SyntaxErrorV {
    SyntaxErrorV { span, kind, message }
}

/// The error at the next token.
pub open spec fn err_here(ts: Seq<Token>, n: int, st: PState, kind: ErrorKind, message: Seq<char>) -> SyntaxErrorV {
    err(peek_tok(ts, n, st).span, kind, message)
}

/// Consume a token of kind `k`.
pub open spec fn expect_s(ts: Seq<Token>, b: Seq<u8>, st: PState, k: TokenKind) -> Result<(Token, PState), SyntaxErrorV> {
    let n = b.len() as int;
    let t = peek_tok(ts, n, st);
    if t.kind == k {
        Ok((t, bump(ts, n, st)))
    } else if t.kind == TokenKind::Eof {
        Err(err(t.span, ErrorKind::UnexpectedEof, "unexpected end of input; expected "@ + kind_name(k)))
    } else {
        Err(err(t.span, ErrorKind::UnexpectedToken, "expected "@ + kind_name(k) + ", found "@ + kind_name(t.kind)))
    }
}

/// Consume an identifier: its text and range.
pub open spec fn expect_ident_s(ts: Seq<Token>, b: Seq<u8>, st: PState) -> Result<((Seq<char>, Span), PState), SyntaxErrorV> {
    let n = b.len() as int;
    let t = peek_tok(ts, n, st);
    if t.kind == TokenKind::Ident {
        Ok(((span_text(b, t.span), t.span), bump(ts, n, st)))
    } else if t.kind == TokenKind::Eof {
        Err(err(t.span, ErrorKind::UnexpectedEof, "unexpected end of input; expected an identifier"@))
    } else {
        Err(err(t.span, ErrorKind::UnexpectedToken, "expected an identifier, found "@ + kind_name(t.kind)))
    }
}

/// The next token is the identifier `kw`.
pub open spec fn at_keyword_s(ts: Seq<Token>, b: Seq<u8>, st: PState, kw: Seq<char>) -> bool {
    let t = peek_tok(ts, b.len() as int, st);
    t.kind == TokenKind::Ident && span_text(b, t.span) == kw
}

/// Consume the keyword `kw`.
pub open spec fn expect_keyword_s(ts: Seq<Token>, b: Seq<u8>, st: PState, kw: Seq<char>) -> Result<(Token, PState), SyntaxErrorV> {
    let n = b.len() as int;
    let t = peek_tok(ts, n, st);
    if at_keyword_s(ts, b, st, kw) {
        Ok((t, bump(ts, n, st)))
    } else if t.kind == TokenKind::Eof {
        Err(err(t.span, ErrorKind::UnexpectedEof, "unexpected end of input; expected keyword `"@ + kw + "`"@))
    } else {
        Err(err(t.span, ErrorKind::UnexpectedToken, "expected keyword `"@ + kw + "`"@))
    }
}

/// The words that cannot name a binding.
pub open spec fn reserved(text: Seq<char>) -> bool {
    ||| text == "Module"@
    ||| text == "Import"@
    ||| text == "Structure"@
    ||| text == "Function"@
    ||| text == "Theorem"@
    ||| text == "if"@
    ||| text == "then"@
    ||| text == "else"@
    ||| text == "let"@
    ||| text == "return"@
    ||| text == "match"@
    ||| text == "case"@
    ||| text == "Given"@
    ||| text == "Assume"@
    ||| text == "Show"@
    ||| text == "Proof"@
    ||| text == "QED"@
}

/// `text` unless it is reserved; `what` names the binding in the error.
pub open spec fn check_binding_name_s(text: Seq<char>, span: Span, what: Seq<char>) -> Result<Seq<char>, SyntaxErrorV> {
    if reserved(text) {
        Err(err(span, ErrorKind::UnexpectedToken, "`"@ + text + "` is reserved and cannot be used as "@ + what))
    } else {
        Ok(text)
    }
}

/// Consume an identifier that may name a binding.
pub open spec fn expect_binding_ident_s(ts: Seq<Token>, b: Seq<u8>, st: PState, what: Seq<char>) -> Result<((Seq<char>, Span), PState), SyntaxErrorV> {
    match expect_ident_s(ts, b, st) {
        Err(e) => Err(e),
        Ok(((text, span), s2)) => match check_binding_name_s(text, span, what) {
            Err(e) => Err(e),
            Ok(t) => Ok(((t, span), s2)),
        },
    }
}

// ---------------------------------------------------------------------------
// The input the parser reads
// ---------------------------------------------------------------------------

/// Every byte of `b` in `[s, e)` is ASCII.
pub open spec fn ascii_range(b: Seq<u8>, s: int, e: int) -> bool {
    forall|j: int| s <= j < e ==> #[trigger] b[j] < 0x80
}

/// Every byte of `b` in `[s, e)` is a decimal digit, and there is one.
pub open spec fn digits_range(b: Seq<u8>, s: int, e: int) -> bool {
    &&& s < e
    &&& forall|j: int| s <= j < e ==> is_digit(#[trigger] b[j])
}

/// The token `t` lies within the source bytes `b`, the text of a name or
/// a number is ASCII, a natural number is digits, a string literal has
/// both its quotes and a bracket is the bracket byte.
#[verifier::opaque]
pub open spec fn token_ok(t: Token, b: Seq<u8>) -> bool {
    let s = t.span.start as int;
    let e = t.span.end as int;
    &&& s <= e <= b.len()
    &&& (t.kind == TokenKind::Ident || t.kind == TokenKind::Nat || t.kind == TokenKind::Float) ==> ascii_range(b, s, e)
    &&& t.kind == TokenKind::Nat ==> digits_range(b, s, e)
    &&& t.kind == TokenKind::Str ==> s + 2 <= e
    &&& t.kind == TokenKind::LBracket ==> e == s + 1 && b[s] == LBRACKET
    &&& t.kind == TokenKind::RBracket ==> e == s + 1 && b[s] == RBRACKET
}

/// Every token of `ts` is well formed over the source bytes `b`.
pub open spec fn tokens_ok(ts: Seq<Token>, b: Seq<u8>) -> bool {
    &&& b.len() < u32::MAX
    &&& forall|k: int| 0 <= k < ts.len() ==> token_ok(#[trigger] ts[k], b)
}

/// What a well-formed token at the cursor guarantees.
proof fn lemma_peek_ok(ts: Seq<Token>, b: Seq<u8>, st: PState)
    requires
        tokens_ok(ts, b),
    ensures
        ({
            let t = peek_tok(ts, b.len() as int, st);
            let s = t.span.start as int;
            let e = t.span.end as int;
            &&& s <= e <= b.len()
            &&& (t.kind == TokenKind::Ident || t.kind == TokenKind::Nat || t.kind == TokenKind::Float)
                ==> ascii_range(b, s, e)
            &&& t.kind == TokenKind::Nat ==> digits_range(b, s, e)
            &&& t.kind == TokenKind::Str ==> s + 2 <= e
            &&& t.kind == TokenKind::LBracket ==> e == s + 1 && b[s] == LBRACKET
            &&& t.kind == TokenKind::RBracket ==> e == s + 1 && b[s] == RBRACKET
        }),
{
    reveal(token_ok);
    if 0 <= st.pos < ts.len() {
        assert(token_ok(ts[st.pos], b));
    }
}

// ---------------------------------------------------------------------------
// Text
// ---------------------------------------------------------------------------

/// `String::from_utf8`: the string whose UTF-8 encoding is `v`, or `None`
/// when `v` is not valid UTF-8.
#[verifier::external_body]
fn string_from_utf8(v: Vec<u8>) -> (r: Option<String>)
    ensures
        valid_utf8(v@) ==> r is Some && r->Some_0@ == decode_utf8(v@),
        !valid_utf8(v@) ==> r is None,
{
    String::from_utf8(v).ok()
}

/// ASCII bytes are valid UTF-8 and decode one character per byte.
proof fn lemma_ascii_decode(v: Seq<u8>)
    requires
        forall|j: int| 0 <= j < v.len() ==> #[trigger] v[j] < 0x80,
    ensures
        valid_utf8(v),
        decode_utf8(v) == v.map_values(|c: u8| c as char),
    decreases v.len(),
{
    if v.len() > 0 {
        let rest = v.subrange(1, v.len() as int);
        lemma_ascii_decode(rest);
        let b0 = v[0];
        assert(b0 & 0x7F == b0) by (bit_vector)
            requires
                b0 < 0x80,
        ;
        assert(vstd::utf8::pop_first_scalar(v) =~= rest);
        assert(v.map_values(|c: u8| c as char) =~= seq![b0 as char] + rest.map_values(|c: u8| c as char));
    }
}

// ---------------------------------------------------------------------------
// The cursor
// ---------------------------------------------------------------------------

/// The parser: a cursor over the token stream of a source text.
pub struct Parser<'a> {
    tokens: &'a [Token],
    source: &'a str,
    pos: usize,
    prev_span: Span,
}

impl<'a> Parser<'a> {
    /// The token stream.
    pub closed spec fn toks(&self) -> Seq<Token> {
        self.tokens@
    }

    /// The source bytes.
    pub closed spec fn bytes(&self) -> Seq<u8> {
        self.source.spec_bytes()
    }

    /// The current state.
    pub closed spec fn st(&self) -> PState {
        PState { pos: self.pos as int, prev: self.prev_span }
    }

    /// The parser reads a well-formed token stream of its source.
    pub closed spec fn ready(&self) -> bool {
        &&& tokens_ok(self.tokens@, self.source.spec_bytes())
        &&& self.pos <= self.tokens@.len()
    }

    /// `self` reads what `other` reads.
    pub closed spec fn same_input(&self, other: Parser<'a>) -> bool {
        self.tokens == other.tokens && self.source == other.source
    }

    /// A parser over an already-lexed token stream, at its start.
    pub fn new(tokens: &'a [Token], source: &'a str) -> (r: Self)
        ensures
            r.toks() == tokens@,
            r.bytes() == source.spec_bytes(),
            r.st() == (PState { pos: 0, prev: span_of(0, 0) }),
    {
        Parser { tokens, source, pos: 0, prev_span: Span::empty(0) }
    }

    fn peek_token(&self) -> (r: Token)
        requires
            self.ready(),
        ensures
            r == peek_tok(self.toks(), self.bytes().len() as int, self.st()),
    {
        if self.pos < self.tokens.len() {
            self.tokens[self.pos]
        } else {
            Token::new(TokenKind::Eof, Span::empty(self.source.len() as u32))
        }
    }

    fn peek(&self) -> (r: TokenKind)
        requires
            self.ready(),
        ensures
            r == peek_tok(self.toks(), self.bytes().len() as int, self.st()).kind,
    {
        self.peek_token().kind
    }

    fn peek_span(&self) -> (r: Span)
        requires
            self.ready(),
        ensures
            r == peek_tok(self.toks(), self.bytes().len() as int, self.st()).span,
    {
        self.peek_token().span
    }

    fn advance(&mut self) -> (t: Token)
        requires
            old(self).ready(),
        ensures
            final(self).ready(),
            final(self).same_input(*old(self)),
            t == peek_tok(old(self).toks(), old(self).bytes().len() as int, old(self).st()),
            final(self).st() == bump(old(self).toks(), old(self).bytes().len() as int, old(self).st()),
    {
        let t = self.peek_token();
        self.prev_span = t.span;
        if t.kind != TokenKind::Eof && self.pos < self.tokens.len() {
            self.pos += 1;
        }
        t
    }

    fn err_here(&self, kind: ErrorKind, message: String) -> (r: SyntaxError)
        requires
            self.ready(),
        ensures
            r@ == err_here(self.toks(), self.bytes().len() as int, self.st(), kind, message@),
    {
        SyntaxError::new(self.peek_span(), kind, message)
    }

    fn expect(&mut self, kind: TokenKind) -> (r: Result<Token, SyntaxError>)
        requires
            old(self).ready(),
        ensures
            final(self).ready(),
            final(self).same_input(*old(self)),
            match expect_s(old(self).toks(), old(self).bytes(), old(self).st(), kind) {
                Ok((t, s2)) => r == Ok::<Token, SyntaxError>(t) && final(self).st() == s2,
                Err(e) => r is Err && r->Err_0@ == e,
            },
    {
        let t = self.peek_token();
        if t.kind == kind {
            Ok(self.advance())
        } else if t.kind == TokenKind::Eof {
            let mut m = string_of("unexpected end of input; expected ");
            m.append(kind_str(kind));
            Err(SyntaxError::new(t.span, ErrorKind::UnexpectedEof, m))
        } else {
            let mut m = string_of("expected ");
            m.append(kind_str(kind));
            m.append(", found ");
            m.append(kind_str(t.kind));
            Err(SyntaxError::new(t.span, ErrorKind::UnexpectedToken, m))
        }
    }

    /// The text of the range `span`, which is ASCII.
    fn slice(&self, span: Span) -> (r: String)
        requires
            self.ready(),
            span.start <= span.end <= self.bytes().len(),
            ascii_range(self.bytes(), span.start as int, span.end as int),
        ensures
            r@ == span_text(self.bytes(), span),
    {
        let bytes = self.source.as_bytes();
        let mut v: Vec<u8> = Vec::new();
        let mut k = span.start as usize;
        let e = span.end as usize;
        while k < e
            invariant
                bytes@ == self.bytes(),
                span.start <= k <= e <= bytes@.len(),
                v@ == bytes@.subrange(span.start as int, k as int),
            decreases e - k,
        {
            v.push(bytes[k]);
            k += 1;
            assert(v@ =~= bytes@.subrange(span.start as int, k as int));
        }
        proof {
            lemma_ascii_decode(v@);
        }
        match string_from_utf8(v) {
            Some(s) => s,
            None => {
                proof {
                    assert(false);
                }
                String::new()
            },
        }
    }

    fn expect_ident(&mut self) -> (r: Result<(String, Span), SyntaxError>)
        requires
            old(self).ready(),
        ensures
            final(self).ready(),
            final(self).same_input(*old(self)),
            match expect_ident_s(old(self).toks(), old(self).bytes(), old(self).st()) {
                Ok(((text, span), s2)) => r is Ok && r->Ok_0.0@ == text && r->Ok_0.1 == span && final(self).st() == s2,
                Err(e) => r is Err && r->Err_0@ == e,
            },
    {
        proof {
            lemma_peek_ok(self.toks(), self.bytes(), self.st());
        }
        let t = self.peek_token();
        if t.kind == TokenKind::Ident {
            self.advance();
            let text = self.slice(t.span);
            Ok((text, t.span))
        } else if t.kind == TokenKind::Eof {
            Err(
                SyntaxError::new(
                    t.span,
                    ErrorKind::UnexpectedEof,
                    string_of("unexpected end of input; expected an identifier"),
                ),
            )
        } else {
            let mut m = string_of("expected an identifier, found ");
            m.append(kind_str(t.kind));
            Err(SyntaxError::new(t.span, ErrorKind::UnexpectedToken, m))
        }
    }

    fn at_keyword(&self, text: &str) -> (r: bool)
        requires
            self.ready(),
        ensures
            r == at_keyword_s(self.toks(), self.bytes(), self.st(), text@),
    {
        proof {
            lemma_peek_ok(self.toks(), self.bytes(), self.st());
        }
        let t = self.peek_token();
        if t.kind == TokenKind::Ident {
            let s = self.slice(t.span);
            s == string_of(text)
        } else {
            false
        }
    }

    fn expect_keyword(&mut self, text: &str) -> (r: Result<Token, SyntaxError>)
        requires
            old(self).ready(),
        ensures
            final(self).ready(),
            final(self).same_input(*old(self)),
            match expect_keyword_s(old(self).toks(), old(self).bytes(), old(self).st(), text@) {
                Ok((t, s2)) => r == Ok::<Token, SyntaxError>(t) && final(self).st() == s2,
                Err(e) => r is Err && r->Err_0@ == e,
            },
    {
        let t = self.peek_token();
        if self.at_keyword(text) {
            Ok(self.advance())
        } else if t.kind == TokenKind::Eof {
            let mut m = string_of("unexpected end of input; expected keyword `");
            m.append(text);
            m.append("`");
            Err(SyntaxError::new(t.span, ErrorKind::UnexpectedEof, m))
        } else {
            let mut m = string_of("expected keyword `");
            m.append(text);
            m.append("`");
            Err(SyntaxError::new(t.span, ErrorKind::UnexpectedToken, m))
        }
    }

    fn check_binding_name(text: String, span: Span, what: &str) -> (r: Result<String, SyntaxError>)
        ensures
            match check_binding_name_s(text@, span, what@) {
                Ok(t) => r is Ok && r->Ok_0@ == t,
                Err(e) => r is Err && r->Err_0@ == e,
            },
    {
        let words = [
            "Module", "Import", "Structure", "Function", "Theorem", "if", "then", "else", "let", "return", "match",
            "case", "Given", "Assume", "Show", "Proof", "QED",
        ];
        let mut is_reserved = false;
        let mut k: usize = 0;
        while k < 17
            invariant
                0 <= k <= 17,
                words@ == seq![
                    "Module", "Import", "Structure", "Function", "Theorem", "if", "then", "else", "let", "return",
                    "match", "case", "Given", "Assume", "Show", "Proof", "QED",
                ],
                is_reserved == exists|j: int| 0 <= j < k && text@ == (#[trigger] words@[j])@,
            decreases 17 - k,
        {
            if text == string_of(words[k]) {
                is_reserved = true;
            }
            k += 1;
        }
        proof {
            assert(is_reserved == reserved(text@)) by {
                if reserved(text@) {
                    assert(exists|j: int| 0 <= j < 17 && text@ == (#[trigger] words@[j])@);
                }
            }
        }
        if is_reserved {
            let mut m = string_of("`");
            m.append(text.as_str());
            m.append("` is reserved and cannot be used as ");
            m.append(what);
            Err(SyntaxError::new(span, ErrorKind::UnexpectedToken, m))
        } else {
            Ok(text)
        }
    }

    fn expect_binding_ident(&mut self, what: &str) -> (r: Result<(String, Span), SyntaxError>)
        requires
            old(self).ready(),
        ensures
            final(self).ready(),
            final(self).same_input(*old(self)),
            match expect_binding_ident_s(old(self).toks(), old(self).bytes(), old(self).st(), what@) {
                Ok(((text, span), s2)) => r is Ok && r->Ok_0.0@ == text && r->Ok_0.1 == span && final(self).st() == s2,
                Err(e) => r is Err && r->Err_0@ == e,
            },
    {
        let (text, span) = match self.expect_ident() {
            Ok(x) => x,
            Err(e) => {
                return Err(e);
            },
        };
        match Self::check_binding_name(text, span, what) {
            Ok(t) => Ok((t, span)),
            Err(e) => Err(e),
        }
    }
}

// ---------------------------------------------------------------------------
// Expressions: specification
// ---------------------------------------------------------------------------

/// `c` is at or after `a`, within the stream.
pub open spec fn moved(ts: Seq<Token>, a: PState, c: PState) -> bool {
    a.pos <= c.pos <= ts.len()
}

/// `c` is after `a`, within the stream.
pub open spec fn advanced(ts: Seq<Token>, a: PState, c: PState) -> bool {
    a.pos < c.pos <= ts.len()
}

/// The result of a guard that never fails: a production that ends before
/// it started.
pub open spec fn stuck() -> SyntaxErrorV {
    err(span_of(0, 0), ErrorKind::UnexpectedToken, Seq::empty())
}

/// The range an expression covers.
pub open spec fn expr_span(e: ExprV) -> Span {
    match e {
        ExprV::Ident { span, .. } => span,
        ExprV::Nat { span, .. } => span,
        ExprV::Float { span, .. } => span,
        ExprV::Str { span, .. } => span,
        ExprV::Field { span, .. } => span,
        ExprV::Index { span, .. } => span,
        ExprV::Call { span, .. } => span,
        ExprV::BinOp { span, .. } => span,
        ExprV::UnOp { span, .. } => span,
        ExprV::Paren { span, .. } => span,
        ExprV::Lam { span, .. } => span,
        ExprV::If(i) => i.span,
        ExprV::Match(m) => m.span,
    }
}

/// The state after the newlines at `st`.
pub open spec fn skip_newlines(ts: Seq<Token>, n: int, st: PState) -> PState
    decreases ts.len() - st.pos,
{
    if peek_tok(ts, n, st).kind == TokenKind::Newline && 0 <= st.pos < ts.len() {
        skip_newlines(ts, n, bump(ts, n, st))
    } else {
        st
    }
}

/// The decimal value of the ASCII digits `ds`.
pub open spec fn digits_value(ds: Seq<u8>) -> nat
    decreases ds.len(),
{
    if ds.len() == 0 {
        0
    } else {
        digits_value(ds.drop_last()) * 10 + ((ds.last() - DIGIT_0) as nat)
    }
}

/// The byte that the escape `\c` stands for.
pub open spec fn escape_byte(c: u8) -> u8 {
    if c == 0x6E {
        0x0A
    } else if c == 0x74 {
        0x09
    } else if c == 0x72 {
        0x0D
    } else {
        c
    }
}

/// The bytes of a string literal's body with its escapes resolved.
pub open spec fn unescape_bytes(body: Seq<u8>) -> Seq<u8>
    decreases body.len(),
{
    if body.len() == 0 {
        Seq::empty()
    } else if body[0] == 0x5C && body.len() >= 2 {
        seq![escape_byte(body[1])] + unescape_bytes(body.subrange(2, body.len() as int))
    } else {
        seq![body[0]] + unescape_bytes(body.subrange(1, body.len() as int))
    }
}

/// The bytes of the string literal at `sp`: its body between the quotes,
/// escapes resolved.
pub open spec fn str_bytes(b: Seq<u8>, sp: Span) -> Seq<u8> {
    unescape_bytes(b.subrange(sp.start + 1, sp.end - 1))
}

/// The comparison operator of a token kind.
pub open spec fn compare_op(k: TokenKind) -> Option<BinOp> {
    match k {
        TokenKind::EqEq => Some(BinOp::Eq),
        TokenKind::BangEq => Some(BinOp::Ne),
        TokenKind::Lt => Some(BinOp::Lt),
        TokenKind::LtEq => Some(BinOp::Le),
        TokenKind::Gt => Some(BinOp::Gt),
        TokenKind::GtEq => Some(BinOp::Ge),
        _ => None,
    }
}

/// The additive operator of a token kind.
pub open spec fn add_op(k: TokenKind) -> Option<BinOp> {
    match k {
        TokenKind::Plus => Some(BinOp::Add),
        TokenKind::Minus => Some(BinOp::Sub),
        _ => None,
    }
}

/// The multiplicative operator of a token kind.
pub open spec fn mul_op(k: TokenKind) -> Option<BinOp> {
    match k {
        TokenKind::Star => Some(BinOp::Mul),
        TokenKind::Slash => Some(BinOp::Div),
        _ => None,
    }
}

/// The binary operation node.
pub open spec fn binop_v(lhs: ExprV, op: BinOp, rhs: ExprV, span: Span) -> ExprV {
    ExprV::BinOp { lhs: Box::new(lhs), op, rhs: Box::new(rhs), span }
}

/// An expression: an `if`, a `match`, or an arrow-level expression.
pub open spec fn parse_expr_s(ts: Seq<Token>, b: Seq<u8>, st: PState) -> Result<(ExprV, PState), SyntaxErrorV>
    decreases ts.len() - st.pos, 20nat,
{
    if at_keyword_s(ts, b, st, "if"@) {
        parse_if_s(ts, b, st)
    } else if at_keyword_s(ts, b, st, "match"@) {
        parse_match_s(ts, b, st)
    } else {
        parse_arrow_s(ts, b, st)
    }
}

/// `if cond then a else b`; each part extends as far right as it can.
pub open spec fn parse_if_s(ts: Seq<Token>, b: Seq<u8>, st: PState) -> Result<(ExprV, PState), SyntaxErrorV>
    decreases ts.len() - st.pos, 19nat,
{
    match expect_keyword_s(ts, b, st, "if"@) {
        Err(e) => Err(e),
        Ok((kw, s1)) => if !advanced(ts, st, s1) {
            Err(stuck())
        } else {
            match parse_expr_s(ts, b, s1) {
                Err(e) => Err(e),
                Ok((cond, s2)) => match expect_keyword_s(ts, b, s2, "then"@) {
                    Err(e) => Err(e),
                    Ok((_, s3)) => if !advanced(ts, st, s3) {
                        Err(stuck())
                    } else {
                        match parse_expr_s(ts, b, s3) {
                            Err(e) => Err(e),
                            Ok((then_branch, s4)) => match expect_keyword_s(ts, b, s4, "else"@) {
                                Err(e) => Err(e),
                                Ok((_, s5)) => if !advanced(ts, st, s5) {
                                    Err(stuck())
                                } else {
                                    match parse_expr_s(ts, b, s5) {
                                        Err(e) => Err(e),
                                        Ok((else_branch, s6)) => Ok(
                                            (
                                                ExprV::If(
                                                    IfExprV {
                                                        cond: Box::new(cond),
                                                        then_branch: Box::new(then_branch),
                                                        else_branch: Box::new(else_branch),
                                                        span: covering(kw.span, s6.prev),
                                                    },
                                                ),
                                                s6,
                                            ),
                                        ),
                                    }
                                },
                            },
                        }
                    },
                },
            }
        },
    }
}

/// Level 1: `->`, right-associative.
pub open spec fn parse_arrow_s(ts: Seq<Token>, b: Seq<u8>, st: PState) -> Result<(ExprV, PState), SyntaxErrorV>
    decreases ts.len() - st.pos, 18nat,
{
    let start = peek_tok(ts, b.len() as int, st).span;
    match parse_compare_s(ts, b, st) {
        Err(e) => Err(e),
        Ok((lhs, s1)) => if peek_tok(ts, b.len() as int, s1).kind == TokenKind::Arrow {
            let s2 = bump(ts, b.len() as int, s1);
            if !advanced(ts, st, s2) {
                Err(stuck())
            } else {
                match parse_arrow_s(ts, b, s2) {
                    Err(e) => Err(e),
                    Ok((rhs, s3)) => Ok((binop_v(lhs, BinOp::Arrow, rhs, covering(start, s3.prev)), s3)),
                }
            }
        } else {
            Ok((lhs, s1))
        },
    }
}

/// Level 2: comparisons, which do not chain.
pub open spec fn parse_compare_s(ts: Seq<Token>, b: Seq<u8>, st: PState) -> Result<(ExprV, PState), SyntaxErrorV>
    decreases ts.len() - st.pos, 17nat,
{
    let start = peek_tok(ts, b.len() as int, st).span;
    match parse_add_s(ts, b, st) {
        Err(e) => Err(e),
        Ok((lhs, s1)) => if !moved(ts, st, s1) {
            Err(stuck())
        } else {
            compare_tail_s(ts, b, s1, lhs, start)
        },
    }
}

/// After the first operand `lhs` of a level-2 expression: a comparison
/// and its right operand, which no other comparison may follow.
pub open spec fn compare_tail_s(ts: Seq<Token>, b: Seq<u8>, st: PState, lhs: ExprV, start: Span) -> Result<
    (ExprV, PState),
    SyntaxErrorV,
>
    decreases ts.len() - st.pos, 16nat,
{
    let n = b.len() as int;
    match compare_op(peek_tok(ts, n, st).kind) {
        None => Ok((lhs, st)),
        Some(op) => {
            let s1 = bump(ts, n, st);
            if !advanced(ts, st, s1) {
                Err(stuck())
            } else {
                match parse_add_s(ts, b, s1) {
                    Err(e) => Err(e),
                    Ok((rhs, s2)) => if compare_op(peek_tok(ts, n, s2).kind) is Some {
                        Err(
                            err_here(
                                ts,
                                n,
                                s2,
                                ErrorKind::UnexpectedToken,
                                "comparison operators cannot be chained; write the conjunction explicitly"@,
                            ),
                        )
                    } else {
                        Ok((binop_v(lhs, op, rhs, covering(start, s2.prev)), s2))
                    },
                }
            }
        },
    }
}

/// Level 3: `+` and `-`, left-associative.
pub open spec fn parse_add_s(ts: Seq<Token>, b: Seq<u8>, st: PState) -> Result<(ExprV, PState), SyntaxErrorV>
    decreases ts.len() - st.pos, 16nat,
{
    let start = peek_tok(ts, b.len() as int, st).span;
    match parse_mul_s(ts, b, st) {
        Err(e) => Err(e),
        Ok((lhs, s1)) => if !moved(ts, st, s1) {
            Err(stuck())
        } else {
            add_rest_s(ts, b, s1, lhs, start)
        },
    }
}

/// The operands after the first of a level-3 expression.
pub open spec fn add_rest_s(ts: Seq<Token>, b: Seq<u8>, st: PState, lhs: ExprV, start: Span) -> Result<(ExprV, PState), SyntaxErrorV>
    decreases ts.len() - st.pos, 15nat,
{
    let n = b.len() as int;
    match add_op(peek_tok(ts, n, st).kind) {
        None => Ok((lhs, st)),
        Some(op) => {
            let s1 = bump(ts, n, st);
            if !advanced(ts, st, s1) {
                Err(stuck())
            } else {
                match parse_mul_s(ts, b, s1) {
                    Err(e) => Err(e),
                    Ok((rhs, s2)) => if !advanced(ts, st, s2) {
                        Err(stuck())
                    } else {
                        add_rest_s(ts, b, s2, binop_v(lhs, op, rhs, covering(start, s2.prev)), start)
                    },
                }
            }
        },
    }
}

/// Level 4: `*` and `/`, left-associative.
pub open spec fn parse_mul_s(ts: Seq<Token>, b: Seq<u8>, st: PState) -> Result<(ExprV, PState), SyntaxErrorV>
    decreases ts.len() - st.pos, 14nat,
{
    let start = peek_tok(ts, b.len() as int, st).span;
    match parse_pow_s(ts, b, st) {
        Err(e) => Err(e),
        Ok((lhs, s1)) => if !moved(ts, st, s1) {
            Err(stuck())
        } else {
            mul_rest_s(ts, b, s1, lhs, start)
        },
    }
}

/// The operands after the first of a level-4 expression.
pub open spec fn mul_rest_s(ts: Seq<Token>, b: Seq<u8>, st: PState, lhs: ExprV, start: Span) -> Result<(ExprV, PState), SyntaxErrorV>
    decreases ts.len() - st.pos, 13nat,
{
    let n = b.len() as int;
    match mul_op(peek_tok(ts, n, st).kind) {
        None => Ok((lhs, st)),
        Some(op) => {
            let s1 = bump(ts, n, st);
            if !advanced(ts, st, s1) {
                Err(stuck())
            } else {
                match parse_pow_s(ts, b, s1) {
                    Err(e) => Err(e),
                    Ok((rhs, s2)) => if !advanced(ts, st, s2) {
                        Err(stuck())
                    } else {
                        mul_rest_s(ts, b, s2, binop_v(lhs, op, rhs, covering(start, s2.prev)), start)
                    },
                }
            }
        },
    }
}

/// Level 5: `^`, right-associative.
pub open spec fn parse_pow_s(ts: Seq<Token>, b: Seq<u8>, st: PState) -> Result<(ExprV, PState), SyntaxErrorV>
    decreases ts.len() - st.pos, 12nat,
{
    let n = b.len() as int;
    let start = peek_tok(ts, n, st).span;
    match parse_postfix_s(ts, b, st) {
        Err(e) => Err(e),
        Ok((base, s1)) => if peek_tok(ts, n, s1).kind == TokenKind::Caret {
            let s2 = bump(ts, n, s1);
            if !advanced(ts, st, s2) {
                Err(stuck())
            } else {
                match parse_pow_s(ts, b, s2) {
                    Err(e) => Err(e),
                    Ok((exp, s3)) => Ok((binop_v(base, BinOp::Pow, exp, covering(start, s3.prev)), s3)),
                }
            }
        } else {
            Ok((base, s1))
        },
    }
}

/// Level 6: an atom followed by `.field`, `[index]` and `(args)`.
pub open spec fn parse_postfix_s(ts: Seq<Token>, b: Seq<u8>, st: PState) -> Result<(ExprV, PState), SyntaxErrorV>
    decreases ts.len() - st.pos, 11nat,
{
    match parse_atom_s(ts, b, st) {
        Err(e) => Err(e),
        Ok((e, s1)) => if !moved(ts, st, s1) {
            Err(stuck())
        } else {
            postfix_rest_s(ts, b, s1, e)
        },
    }
}

/// The postfix operations after `e`. A bracket whose content is not an
/// index followed by `]` is left for the caller (a proof step's
/// justification).
pub open spec fn postfix_rest_s(ts: Seq<Token>, b: Seq<u8>, st: PState, e: ExprV) -> Result<(ExprV, PState), SyntaxErrorV>
    decreases ts.len() - st.pos, 10nat,
{
    let n = b.len() as int;
    let t = peek_tok(ts, n, st);
    let s1 = bump(ts, n, st);
    if !advanced(ts, st, s1) {
        Ok((e, st))
    } else if t.kind == TokenKind::Dot {
        match expect_ident_s(ts, b, s1) {
            Err(x) => Err(x),
            Ok(((field, field_span), s2)) => if !advanced(ts, st, s2) {
                Err(stuck())
            } else {
                postfix_rest_s(
                    ts,
                    b,
                    s2,
                    ExprV::Field { obj: Box::new(e), field, field_span, span: covering(expr_span(e), field_span) },
                )
            },
        }
    } else if t.kind == TokenKind::LBracket {
        match parse_expr_s(ts, b, s1) {
            Err(_) => Ok((e, st)),
            Ok((index, s2)) => match expect_s(ts, b, s2, TokenKind::RBracket) {
                Err(_) => Ok((e, st)),
                Ok((_, s3)) => if !advanced(ts, st, s3) {
                    Err(stuck())
                } else {
                    postfix_rest_s(
                        ts,
                        b,
                        s3,
                        ExprV::Index { obj: Box::new(e), index: Box::new(index), span: covering(t.span, s3.prev) },
                    )
                },
            },
        }
    } else if t.kind == TokenKind::LParen {
        let args = if peek_tok(ts, n, s1).kind != TokenKind::RParen {
            parse_args_s(ts, b, s1, Seq::empty())
        } else {
            Ok((Seq::empty(), s1))
        };
        match args {
            Err(x) => Err(x),
            Ok((args, s2)) => match expect_s(ts, b, s2, TokenKind::RParen) {
                Err(x) => Err(x),
                Ok((_, s3)) => if !advanced(ts, st, s3) {
                    Err(stuck())
                } else {
                    postfix_rest_s(
                        ts,
                        b,
                        s3,
                        ExprV::Call { func: Box::new(e), args, span: covering(expr_span(e), s3.prev) },
                    )
                },
            },
        }
    } else {
        Ok((e, st))
    }
}

/// A comma-separated list of expressions, after the ones in `acc`.
pub open spec fn parse_args_s(ts: Seq<Token>, b: Seq<u8>, st: PState, acc: Seq<ExprV>) -> Result<(Seq<ExprV>, PState), SyntaxErrorV>
    decreases ts.len() - st.pos, 21nat,
{
    let n = b.len() as int;
    match parse_expr_s(ts, b, st) {
        Err(e) => Err(e),
        Ok((a, s1)) => if peek_tok(ts, n, s1).kind == TokenKind::Comma {
            let s2 = bump(ts, n, s1);
            if !advanced(ts, st, s2) {
                Err(stuck())
            } else {
                parse_args_s(ts, b, s2, acc.push(a))
            }
        } else {
            Ok((acc.push(a), s1))
        },
    }
}

/// The value of a natural number literal's digits, unless it exceeds
/// `u64::MAX`.
pub open spec fn nat_literal(ds: Seq<u8>) -> Option<u64> {
    if digits_value(ds) <= u64::MAX {
        Some(digits_value(ds) as u64)
    } else {
        None
    }
}

/// An atom: an identifier, a literal, a parenthesised expression, a
/// negation (whose operand parses at level 5, so `-x^2` is `-(x^2)`) or a
/// λ.
pub open spec fn parse_atom_s(ts: Seq<Token>, b: Seq<u8>, st: PState) -> Result<(ExprV, PState), SyntaxErrorV>
    decreases ts.len() - st.pos, 9nat,
{
    let n = b.len() as int;
    let t = peek_tok(ts, n, st);
    let s1 = bump(ts, n, st);
    if t.kind == TokenKind::Ident {
        Ok((ExprV::Ident { text: span_text(b, t.span), span: t.span }, s1))
    } else if t.kind == TokenKind::Nat {
        match nat_literal(b.subrange(t.span.start as int, t.span.end as int)) {
            Some(value) => Ok((ExprV::Nat { value, span: t.span }, s1)),
            None => Err(err(t.span, ErrorKind::InvalidLiteral, "integer literal out of range"@)),
        }
    } else if t.kind == TokenKind::Float {
        Ok((ExprV::Float { text: span_text(b, t.span), span: t.span }, s1))
    } else if t.kind == TokenKind::Str {
        if valid_utf8(str_bytes(b, t.span)) {
            Ok((ExprV::Str { value: decode_utf8(str_bytes(b, t.span)), span: t.span }, s1))
        } else {
            Err(err(t.span, ErrorKind::InvalidString, "malformed string literal"@))
        }
    } else if t.kind == TokenKind::LParen {
        if !advanced(ts, st, s1) {
            Err(stuck())
        } else {
            match parse_expr_s(ts, b, s1) {
                Err(e) => Err(e),
                Ok((inner, s2)) => match expect_s(ts, b, s2, TokenKind::RParen) {
                    Err(e) => Err(e),
                    Ok((_, s3)) => Ok((ExprV::Paren { inner: Box::new(inner), span: covering(t.span, s3.prev) }, s3)),
                },
            }
        }
    } else if t.kind == TokenKind::Minus {
        if !advanced(ts, st, s1) {
            Err(stuck())
        } else {
            match parse_pow_s(ts, b, s1) {
                Err(e) => Err(e),
                Ok((operand, s2)) => Ok(
                    (ExprV::UnOp { op: UnOp::Neg, operand: Box::new(operand), span: covering(t.span, s2.prev) }, s2),
                ),
            }
        }
    } else if t.kind == TokenKind::Lambda {
        parse_lambda_s(ts, b, st)
    } else if t.kind == TokenKind::Eof {
        Err(err(t.span, ErrorKind::UnexpectedEof, "unexpected end of input; expected an expression"@))
    } else {
        Err(err(t.span, ErrorKind::UnexpectedToken, "expected an expression, found "@ + kind_name(t.kind)))
    }
}

/// `λ (x : A) (y : B). body`, with at least one annotated parameter; the
/// body extends as far right as it can.
pub open spec fn parse_lambda_s(ts: Seq<Token>, b: Seq<u8>, st: PState) -> Result<(ExprV, PState), SyntaxErrorV>
    decreases ts.len() - st.pos, 8nat,
{
    let n = b.len() as int;
    let lam = peek_tok(ts, n, st);
    let s1 = bump(ts, n, st);
    if peek_tok(ts, n, s1).kind != TokenKind::LParen {
        Err(err_here(ts, n, s1, ErrorKind::UnexpectedToken, "expected `(` with an annotated parameter after `λ`"@))
    } else if !advanced(ts, st, s1) {
        Err(stuck())
    } else {
        match parse_lam_params_s(ts, b, s1, Seq::empty()) {
            Err(e) => Err(e),
            Ok((params, s2)) => if !advanced(ts, st, s2) {
                Err(stuck())
            } else {
                lambda_body_s(ts, b, s2, params, lam.span)
            },
        }
    }
}

/// `. body` after the parameters of the λ that starts at `lam`.
pub open spec fn lambda_body_s(
    ts: Seq<Token>,
    b: Seq<u8>,
    st: PState,
    params: Seq<LamParamV>,
    lam: Span,
) -> Result<(ExprV, PState), SyntaxErrorV>
    decreases ts.len() - st.pos, 8nat,
{
    match expect_s(ts, b, st, TokenKind::Dot) {
        Err(e) => Err(e),
        Ok((_, s3)) => if !advanced(ts, st, s3) {
            Err(stuck())
        } else {
            match parse_expr_s(ts, b, s3) {
                Err(e) => Err(e),
                Ok((body, s4)) => Ok((ExprV::Lam { params, body: Box::new(body), span: covering(lam, s4.prev) }, s4)),
            }
        },
    }
}

/// The parameters `(x : A)` of a λ, after the ones in `acc`.
pub open spec fn parse_lam_params_s(ts: Seq<Token>, b: Seq<u8>, st: PState, acc: Seq<LamParamV>) -> Result<(Seq<LamParamV>, PState), SyntaxErrorV>
    decreases ts.len() - st.pos, 7nat,
{
    let n = b.len() as int;
    match expect_s(ts, b, st, TokenKind::LParen) {
        Err(e) => Err(e),
        Ok((_, s1)) => match expect_binding_ident_s(ts, b, s1, "a parameter name"@) {
            Err(e) => Err(e),
            Ok(((name, name_span), s2)) => match expect_s(ts, b, s2, TokenKind::Colon) {
                Err(e) => Err(e),
                Ok((_, s3)) => if !advanced(ts, st, s3) {
                    Err(stuck())
                } else {
                    match parse_expr_s(ts, b, s3) {
                        Err(e) => Err(e),
                        Ok((ty, s4)) => match expect_s(ts, b, s4, TokenKind::RParen) {
                            Err(e) => Err(e),
                            Ok((_, s5)) => {
                                let p = LamParamV { name, name_span, ty, span: covering(name_span, s5.prev) };
                                if peek_tok(ts, n, s5).kind != TokenKind::LParen {
                                    Ok((acc.push(p), s5))
                                } else if !advanced(ts, st, s5) {
                                    Err(stuck())
                                } else {
                                    parse_lam_params_s(ts, b, s5, acc.push(p))
                                }
                            },
                        },
                    }
                },
            },
        },
    }
}

/// `match scrutinee:` and an indented block of `case` arms.
pub open spec fn parse_match_s(ts: Seq<Token>, b: Seq<u8>, st: PState) -> Result<(ExprV, PState), SyntaxErrorV>
    decreases ts.len() - st.pos, 19nat,
{
    let n = b.len() as int;
    match expect_keyword_s(ts, b, st, "match"@) {
        Err(e) => Err(e),
        Ok((kw, s1)) => if !advanced(ts, st, s1) {
            Err(stuck())
        } else {
            match parse_expr_s(ts, b, s1) {
                Err(e) => Err(e),
                Ok((scrutinee, s2)) => match expect_s(ts, b, s2, TokenKind::Colon) {
                    Err(e) => Err(e),
                    Ok((_, s3)) => match expect_s(ts, b, s3, TokenKind::Newline) {
                        Err(e) => Err(e),
                        Ok((_, s4)) => if peek_tok(ts, n, s4).kind != TokenKind::Indent {
                            Err(
                                err_here(
                                    ts,
                                    n,
                                    s4,
                                    ErrorKind::UnexpectedToken,
                                    "expected an indented block of `case` arms after `match ...:`"@,
                                ),
                            )
                        } else {
                            let s5 = bump(ts, n, s4);
                            if !advanced(ts, st, s5) {
                                Err(stuck())
                            } else {
                                match parse_arms_s(ts, b, s5, Seq::empty()) {
                                    Err(e) => Err(e),
                                    Ok((arms, s6)) => if arms.len() == 0 {
                                        Err(err_here(ts, n, s6, ErrorKind::UnexpectedToken, "expected at least one `case` arm"@))
                                    } else {
                                        match expect_s(ts, b, skip_newlines(ts, n, s6), TokenKind::Dedent) {
                                            Err(e) => Err(e),
                                            Ok((_, s8)) => Ok(
                                                (
                                                    ExprV::Match(
                                                        MatchExprV {
                                                            scrutinee: Box::new(scrutinee),
                                                            arms,
                                                            span: covering(kw.span, s8.prev),
                                                        },
                                                    ),
                                                    s8,
                                                ),
                                            ),
                                        }
                                    },
                                }
                            }
                        },
                    },
                },
            }
        },
    }
}

/// The arms of a `match`, after the ones in `acc`, up to the dedent;
/// blank lines between them are skipped.
pub open spec fn parse_arms_s(ts: Seq<Token>, b: Seq<u8>, st: PState, acc: Seq<MatchArmV>) -> Result<(Seq<MatchArmV>, PState), SyntaxErrorV>
    decreases ts.len() - st.pos, 6nat,
{
    let n = b.len() as int;
    let k = peek_tok(ts, n, st).kind;
    if k == TokenKind::Dedent || k == TokenKind::Eof {
        Ok((acc, st))
    } else if k == TokenKind::Newline {
        let s1 = bump(ts, n, st);
        if !advanced(ts, st, s1) {
            Err(stuck())
        } else {
            parse_arms_s(ts, b, s1, acc)
        }
    } else if at_keyword_s(ts, b, st, "case"@) {
        match parse_arm_s(ts, b, st) {
            Err(e) => Err(e),
            Ok((arm, s1)) => if !advanced(ts, st, s1) {
                Err(stuck())
            } else {
                parse_arms_s(ts, b, s1, acc.push(arm))
            },
        }
    } else {
        Err(err_here(ts, n, st, ErrorKind::UnexpectedToken, "expected `case`"@))
    }
}

/// `case pattern => body`. A body that is a block (a `match`, or an `if`
/// whose branch is one) ends at a dedent, which is left for the caller;
/// any other body ends with a newline.
pub open spec fn parse_arm_s(ts: Seq<Token>, b: Seq<u8>, st: PState) -> Result<(MatchArmV, PState), SyntaxErrorV>
    decreases ts.len() - st.pos, 5nat,
{
    let n = b.len() as int;
    match expect_keyword_s(ts, b, st, "case"@) {
        Err(e) => Err(e),
        Ok((kw, s1)) => match parse_pattern_s(ts, b, s1) {
            Err(e) => Err(e),
            Ok((pattern, s2)) => match expect_s(ts, b, s2, TokenKind::Eq) {
                Err(e) => Err(e),
                Ok((_, s3)) => match expect_s(ts, b, s3, TokenKind::Gt) {
                    Err(e) => Err(e),
                    Ok((_, s4)) => if !advanced(ts, st, s4) {
                        Err(stuck())
                    } else {
                        match parse_expr_s(ts, b, s4) {
                            Err(e) => Err(e),
                            Ok((body, s5)) => if peek_tok(ts, n, s5).kind == TokenKind::Newline {
                                let s6 = bump(ts, n, s5);
                                Ok((MatchArmV { pattern, body, span: covering(kw.span, s6.prev) }, s6))
                            } else if !(body is Match || body is If) {
                                Err(err_here(ts, n, s5, ErrorKind::UnexpectedToken, "expected Newline"@))
                            } else {
                                Ok((MatchArmV { pattern, body, span: covering(kw.span, s5.prev) }, s5))
                            },
                        }
                    },
                },
            },
        },
    }
}

// ---------------------------------------------------------------------------
// Patterns: specification
// ---------------------------------------------------------------------------

/// One argument of a constructor pattern: `_` or a variable.
pub open spec fn parse_pattern_arg_s(ts: Seq<Token>, b: Seq<u8>, st: PState) -> Result<(PatternArgV, PState), SyntaxErrorV> {
    let n = b.len() as int;
    match expect_ident_s(ts, b, st) {
        Err(e) => Err(e),
        Ok(((text, span), s1)) => if text == "_"@ {
            Ok((PatternArgV::Wildcard(span), s1))
        } else if peek_tok(ts, n, s1).kind == TokenKind::Dot {
            Err(err(span, ErrorKind::NotImplemented, "nested patterns are not supported in this delivery"@))
        } else {
            match check_binding_name_s(text, span, "a pattern variable"@) {
                Err(e) => Err(e),
                Ok(name) => Ok((PatternArgV::Var { name, name_span: span }, s1)),
            }
        },
    }
}

/// The rest of a dotted constructor name after `full`, whose last segment
/// ends at `end`.
pub open spec fn dotted_rest_s(ts: Seq<Token>, b: Seq<u8>, st: PState, full: Seq<char>, end: Span) -> Result<((Seq<char>, Span), PState), SyntaxErrorV>
    decreases ts.len() - st.pos,
{
    let n = b.len() as int;
    if peek_tok(ts, n, st).kind == TokenKind::Dot {
        let s1 = bump(ts, n, st);
        match expect_ident_s(ts, b, s1) {
            Err(e) => Err(e),
            Ok(((seg, seg_span), s2)) => if !advanced(ts, st, s2) {
                Err(stuck())
            } else {
                dotted_rest_s(ts, b, s2, full + "."@ + seg, seg_span)
            },
        }
    } else {
        Ok(((full, end), st))
    }
}

/// Comma-separated argument patterns, after the ones in `acc`.
pub open spec fn pattern_args_comma_s(ts: Seq<Token>, b: Seq<u8>, st: PState, acc: Seq<PatternArgV>) -> Result<(Seq<PatternArgV>, PState), SyntaxErrorV>
    decreases ts.len() - st.pos,
{
    let n = b.len() as int;
    match parse_pattern_arg_s(ts, b, st) {
        Err(e) => Err(e),
        Ok((a, s1)) => if peek_tok(ts, n, s1).kind == TokenKind::Comma {
            let s2 = bump(ts, n, s1);
            if !advanced(ts, st, s2) {
                Err(stuck())
            } else {
                pattern_args_comma_s(ts, b, s2, acc.push(a))
            }
        } else {
            Ok((acc.push(a), s1))
        },
    }
}

/// Space-separated argument patterns, after the ones in `acc`, up to the
/// first token that is not an identifier.
pub open spec fn pattern_args_space_s(ts: Seq<Token>, b: Seq<u8>, st: PState, acc: Seq<PatternArgV>) -> Result<(Seq<PatternArgV>, PState), SyntaxErrorV>
    decreases ts.len() - st.pos,
{
    let n = b.len() as int;
    if peek_tok(ts, n, st).kind == TokenKind::Ident {
        match parse_pattern_arg_s(ts, b, st) {
            Err(e) => Err(e),
            Ok((a, s1)) => if !advanced(ts, st, s1) {
                Err(stuck())
            } else {
                pattern_args_space_s(ts, b, s1, acc.push(a))
            },
        }
    } else {
        Ok((acc, st))
    }
}

/// One flat pattern: `_`, a variable, or a (dotted) constructor with
/// arguments in parentheses or separated by spaces.
pub open spec fn parse_pattern_s(ts: Seq<Token>, b: Seq<u8>, st: PState) -> Result<(PatternV, PState), SyntaxErrorV> {
    let n = b.len() as int;
    match expect_ident_s(ts, b, st) {
        Err(e) => Err(e),
        Ok(((text, span), s1)) => if text == "_"@ {
            Ok((PatternV::Wildcard(span), s1))
        } else if peek_tok(ts, n, s1).kind != TokenKind::Dot && peek_tok(ts, n, s1).kind != TokenKind::LParen {
            match check_binding_name_s(text, span, "a pattern variable"@) {
                Err(e) => Err(e),
                Ok(name) => Ok((PatternV::Var { name, name_span: span }, s1)),
            }
        } else {
            match dotted_rest_s(ts, b, s1, text, span) {
                Err(e) => Err(e),
                Ok(((full, end), s2)) => if peek_tok(ts, n, s2).kind == TokenKind::LParen {
                    let s3 = bump(ts, n, s2);
                    let args = if peek_tok(ts, n, s3).kind != TokenKind::RParen {
                        pattern_args_comma_s(ts, b, s3, Seq::empty())
                    } else {
                        Ok((Seq::empty(), s3))
                    };
                    match args {
                        Err(e) => Err(e),
                        Ok((args, s4)) => match expect_s(ts, b, s4, TokenKind::RParen) {
                            Err(e) => Err(e),
                            Ok((_, s5)) => {
                                let sp = Span { start: span.start, end: s5.prev.end };
                                Ok((PatternV::Constructor { name: full, name_span: sp, args, span: sp }, s5))
                            },
                        },
                    }
                } else {
                    match pattern_args_space_s(ts, b, s2, Seq::empty()) {
                        Err(e) => Err(e),
                        Ok((args, s3)) => {
                            let sp = Span { start: span.start, end: end.end };
                            Ok((PatternV::Constructor { name: full, name_span: sp, args, span: sp }, s3))
                        },
                    }
                },
            }
        },
    }
}

// ---------------------------------------------------------------------------
// Views of growing vectors
// ---------------------------------------------------------------------------

proof fn lemma_expr_seq_push(v: Seq<Expr>, x: Expr)
    ensures
        expr_seq_view(v.push(x)) == expr_seq_view(v).push(expr_view(x)),
{
    assert(v.push(x).subrange(0, v.len() as int) =~= v);
}

proof fn lemma_lam_param_seq_push(v: Seq<LamParam>, x: LamParam)
    ensures
        lam_param_seq_view(v.push(x)) == lam_param_seq_view(v).push(lam_param_view(x)),
{
    assert(v.push(x).subrange(0, v.len() as int) =~= v);
}

proof fn lemma_match_arm_seq_push(v: Seq<MatchArm>, x: MatchArm)
    ensures
        match_arm_seq_view(v.push(x)) == match_arm_seq_view(v).push(match_arm_view(x)),
{
    assert(v.push(x).subrange(0, v.len() as int) =~= v);
}

proof fn lemma_pattern_arg_seq_push(v: Seq<PatternArg>, x: PatternArg)
    ensures
        pattern_arg_seq_view(v.push(x)) == pattern_arg_seq_view(v).push(pattern_arg_view(x)),
{
    assert(v.push(x).subrange(0, v.len() as int) =~= v);
}

proof fn lemma_param_seq_push(v: Seq<Param>, x: Param)
    ensures
        param_seq_view(v.push(x)) == param_seq_view(v).push(param_view(x)),
{
    assert(v.push(x).subrange(0, v.len() as int) =~= v);
}

proof fn lemma_stmt_seq_push(v: Seq<Stmt>, x: Stmt)
    ensures
        stmt_seq_view(v.push(x)) == stmt_seq_view(v).push(stmt_view(x)),
{
    assert(v.push(x).subrange(0, v.len() as int) =~= v);
}

proof fn lemma_field_def_seq_push(v: Seq<FieldDef>, x: FieldDef)
    ensures
        field_def_seq_view(v.push(x)) == field_def_seq_view(v).push(field_def_view(x)),
{
    assert(v.push(x).subrange(0, v.len() as int) =~= v);
}

proof fn lemma_hypothesis_seq_push(v: Seq<Hypothesis>, x: Hypothesis)
    ensures
        hypothesis_seq_view(v.push(x)) == hypothesis_seq_view(v).push(hypothesis_view(x)),
{
    assert(v.push(x).subrange(0, v.len() as int) =~= v);
}

proof fn lemma_proof_step_seq_push(v: Seq<ProofStep>, x: ProofStep)
    ensures
        proof_step_seq_view(v.push(x)) == proof_step_seq_view(v).push(proof_step_view(x)),
{
    assert(v.push(x).subrange(0, v.len() as int) =~= v);
}

proof fn lemma_import_name_seq_push(v: Seq<ImportName>, x: ImportName)
    ensures
        import_name_seq_view(v.push(x)) == import_name_seq_view(v).push(import_name_view(x)),
{
    assert(v.push(x).subrange(0, v.len() as int) =~= v);
}

proof fn lemma_path_segment_seq_push(v: Seq<PathSegment>, x: PathSegment)
    ensures
        path_segment_seq_view(v.push(x)) == path_segment_seq_view(v).push(path_segment_view(x)),
{
    assert(v.push(x).subrange(0, v.len() as int) =~= v);
}

proof fn lemma_import_decl_seq_push(v: Seq<ImportDecl>, x: ImportDecl)
    ensures
        import_decl_seq_view(v.push(x)) == import_decl_seq_view(v).push(import_decl_view(x)),
{
    assert(v.push(x).subrange(0, v.len() as int) =~= v);
}

proof fn lemma_structure_def_seq_push(v: Seq<StructureDef>, x: StructureDef)
    ensures
        structure_def_seq_view(v.push(x)) == structure_def_seq_view(v).push(structure_def_view(x)),
{
    assert(v.push(x).subrange(0, v.len() as int) =~= v);
}

proof fn lemma_function_def_seq_push(v: Seq<FunctionDef>, x: FunctionDef)
    ensures
        function_def_seq_view(v.push(x)) == function_def_seq_view(v).push(function_def_view(x)),
{
    assert(v.push(x).subrange(0, v.len() as int) =~= v);
}

proof fn lemma_theorem_def_seq_push(v: Seq<TheoremDef>, x: TheoremDef)
    ensures
        theorem_def_seq_view(v.push(x)) == theorem_def_seq_view(v).push(theorem_def_view(x)),
{
    assert(v.push(x).subrange(0, v.len() as int) =~= v);
}

// ---------------------------------------------------------------------------
// Expressions: the parser
// ---------------------------------------------------------------------------

fn compare_op_of(k: TokenKind) -> (r: Option<BinOp>)
    ensures
        r == compare_op(k),
{
    match k {
        TokenKind::EqEq => Some(BinOp::Eq),
        TokenKind::BangEq => Some(BinOp::Ne),
        TokenKind::Lt => Some(BinOp::Lt),
        TokenKind::LtEq => Some(BinOp::Le),
        TokenKind::Gt => Some(BinOp::Gt),
        TokenKind::GtEq => Some(BinOp::Ge),
        _ => None,
    }
}

fn add_op_of(k: TokenKind) -> (r: Option<BinOp>)
    ensures
        r == add_op(k),
{
    match k {
        TokenKind::Plus => Some(BinOp::Add),
        TokenKind::Minus => Some(BinOp::Sub),
        _ => None,
    }
}

fn mul_op_of(k: TokenKind) -> (r: Option<BinOp>)
    ensures
        r == mul_op(k),
{
    match k {
        TokenKind::Star => Some(BinOp::Mul),
        TokenKind::Slash => Some(BinOp::Div),
        _ => None,
    }
}

/// The range an expression covers.
fn expr_span_of(e: &Expr) -> (r: Span)
    ensures
        r == expr_span(expr_view(*e)),
{
    match e {
        Expr::Ident { text, span } => {
            assert(expr_view(*e) == ExprV::Ident { text: text@, span: *span });
            *span
        },
        Expr::Nat { span, .. } => *span,
        Expr::Float { span, .. } => *span,
        Expr::Str { span, .. } => *span,
        Expr::Field { span, .. } => *span,
        Expr::Index { span, .. } => *span,
        Expr::Call { span, .. } => *span,
        Expr::BinOp { span, .. } => *span,
        Expr::UnOp { span, .. } => *span,
        Expr::Paren { span, .. } => *span,
        Expr::Lam { span, .. } => *span,
        Expr::If(i) => {
            assert(expr_view(*e) == ExprV::If(crate::ast::if_expr_view(*i)));
            i.span
        },
        Expr::Match(m) => {
            assert(expr_view(*e) == ExprV::Match(crate::ast::match_expr_view(*m)));
            m.span
        },
    }
}

fn binop(lhs: Expr, op: BinOp, rhs: Expr, span: Span) -> (r: Expr)
    ensures
        expr_view(r) == binop_v(expr_view(lhs), op, expr_view(rhs), span),
{
    Expr::BinOp { lhs: Box::new(lhs), op, rhs: Box::new(rhs), span }
}

impl<'a> Parser<'a> {
    fn parse_expr(&mut self) -> (r: Result<Expr, SyntaxError>)
        requires
            old(self).ready(),
        ensures
            final(self).ready(),
            final(self).same_input(*old(self)),
            match parse_expr_s(old(self).toks(), old(self).bytes(), old(self).st()) {
                Ok((v, s2)) => r is Ok && expr_view(r->Ok_0) == v && final(self).st() == s2,
                Err(e) => r is Err && r->Err_0@ == e,
            },
            r is Ok ==> old(self).st().pos <= final(self).st().pos,
        decreases old(self).tokens@.len() - old(self).pos, 20nat,
    {
        if self.at_keyword("if") {
            self.parse_if()
        } else if self.at_keyword("match") {
            self.parse_match()
        } else {
            self.parse_arrow()
        }
    }

    fn parse_if(&mut self) -> (r: Result<Expr, SyntaxError>)
        requires
            old(self).ready(),
        ensures
            final(self).ready(),
            final(self).same_input(*old(self)),
            match parse_if_s(old(self).toks(), old(self).bytes(), old(self).st()) {
                Ok((v, s2)) => r is Ok && expr_view(r->Ok_0) == v && final(self).st() == s2,
                Err(e) => r is Err && r->Err_0@ == e,
            },
            r is Ok ==> old(self).st().pos <= final(self).st().pos,
        decreases old(self).tokens@.len() - old(self).pos, 19nat,
    {
        let kw = match self.expect_keyword("if") {
            Ok(t) => t,
            Err(e) => {
                return Err(e);
            },
        };
        let cond = match self.parse_expr() {
            Ok(x) => x,
            Err(e) => {
                return Err(e);
            },
        };
        match self.expect_keyword("then") {
            Ok(_) => {},
            Err(e) => {
                return Err(e);
            },
        }
        let then_branch = match self.parse_expr() {
            Ok(x) => x,
            Err(e) => {
                return Err(e);
            },
        };
        match self.expect_keyword("else") {
            Ok(_) => {},
            Err(e) => {
                return Err(e);
            },
        }
        let else_branch = match self.parse_expr() {
            Ok(x) => x,
            Err(e) => {
                return Err(e);
            },
        };
        let span = Span::covering(kw.span, self.prev_span);
        let ie = IfExpr {
            cond: Box::new(cond),
            then_branch: Box::new(then_branch),
            else_branch: Box::new(else_branch),
            span,
        };
        let ghost g = ie;
        let r = Expr::If(ie);
        assert(expr_view(r) == ExprV::If(crate::ast::if_expr_view(g)));
        assert(crate::ast::if_expr_view(g) == IfExprV {
            cond: Box::new(expr_view(*g.cond)),
            then_branch: Box::new(expr_view(*g.then_branch)),
            else_branch: Box::new(expr_view(*g.else_branch)),
            span: g.span,
        });
        Ok(r)
    }

    fn parse_arrow(&mut self) -> (r: Result<Expr, SyntaxError>)
        requires
            old(self).ready(),
        ensures
            final(self).ready(),
            final(self).same_input(*old(self)),
            match parse_arrow_s(old(self).toks(), old(self).bytes(), old(self).st()) {
                Ok((v, s2)) => r is Ok && expr_view(r->Ok_0) == v && final(self).st() == s2,
                Err(e) => r is Err && r->Err_0@ == e,
            },
            r is Ok ==> old(self).st().pos <= final(self).st().pos,
        decreases old(self).tokens@.len() - old(self).pos, 18nat,
    {
        let start = self.peek_span();
        let lhs = match self.parse_compare() {
            Ok(x) => x,
            Err(e) => {
                return Err(e);
            },
        };
        if self.peek() == TokenKind::Arrow {
            self.advance();
            let rhs = match self.parse_arrow() {
                Ok(x) => x,
                Err(e) => {
                    return Err(e);
                },
            };
            let span = Span::covering(start, self.prev_span);
            Ok(binop(lhs, BinOp::Arrow, rhs, span))
        } else {
            Ok(lhs)
        }
    }

    #[verifier::spinoff_prover]
    #[verifier::rlimit(100)]
    fn parse_compare(&mut self) -> (r: Result<Expr, SyntaxError>)
        requires
            old(self).ready(),
        ensures
            final(self).ready(),
            final(self).same_input(*old(self)),
            match parse_compare_s(old(self).toks(), old(self).bytes(), old(self).st()) {
                Ok((v, s2)) => r is Ok && expr_view(r->Ok_0) == v && final(self).st() == s2,
                Err(e) => r is Err && r->Err_0@ == e,
            },
            r is Ok ==> old(self).st().pos <= final(self).st().pos,
        decreases old(self).tokens@.len() - old(self).pos, 17nat,
    {
        let ghost s0 = self.st();
        let start = self.peek_span();
        let lhs = match self.parse_add() {
            Ok(x) => x,
            Err(e) => {
                return Err(e);
            },
        };
        let ghost s1 = self.st();
        let ghost lv = expr_view(lhs);
        assert(parse_add_s(self.toks(), self.bytes(), s0) == Ok::<(ExprV, PState), SyntaxErrorV>((lv, s1)));
        assert(moved(self.toks(), s0, s1));
        assert(parse_compare_s(self.toks(), self.bytes(), s0) == compare_tail_s(self.toks(), self.bytes(), s1, lv, start));
        self.compare_tail(lhs, start)
    }

    #[verifier::spinoff_prover]
    #[verifier::rlimit(60)]
    fn compare_tail(&mut self, lhs: Expr, start: Span) -> (r: Result<Expr, SyntaxError>)
        requires
            old(self).ready(),
        ensures
            final(self).ready(),
            final(self).same_input(*old(self)),
            match compare_tail_s(old(self).toks(), old(self).bytes(), old(self).st(), expr_view(lhs), start) {
                Ok((v, s2)) => r is Ok && expr_view(r->Ok_0) == v && final(self).st() == s2,
                Err(e) => r is Err && r->Err_0@ == e,
            },
            r is Ok ==> old(self).st().pos <= final(self).st().pos,
        decreases old(self).tokens@.len() - old(self).pos, 16nat,
    {
        let op = match compare_op_of(self.peek()) {
            Some(op) => op,
            None => {
                return Ok(lhs);
            },
        };
        self.advance();
        let rhs = match self.parse_add() {
            Ok(x) => x,
            Err(e) => {
                return Err(e);
            },
        };
        if compare_op_of(self.peek()).is_some() {
            return Err(
                self.err_here(
                    ErrorKind::UnexpectedToken,
                    string_of("comparison operators cannot be chained; write the conjunction explicitly"),
                ),
            );
        }
        let span = Span::covering(start, self.prev_span);
        Ok(binop(lhs, op, rhs, span))
    }

    fn parse_add(&mut self) -> (r: Result<Expr, SyntaxError>)
        requires
            old(self).ready(),
        ensures
            final(self).ready(),
            final(self).same_input(*old(self)),
            match parse_add_s(old(self).toks(), old(self).bytes(), old(self).st()) {
                Ok((v, s2)) => r is Ok && expr_view(r->Ok_0) == v && final(self).st() == s2,
                Err(e) => r is Err && r->Err_0@ == e,
            },
            r is Ok ==> old(self).st().pos <= final(self).st().pos,
        decreases old(self).tokens@.len() - old(self).pos, 16nat,
    {
        let ghost s0 = self.st();
        let start = self.peek_span();
        let mut lhs = match self.parse_mul() {
            Ok(x) => x,
            Err(e) => {
                return Err(e);
            },
        };
        loop
            invariant
                self.ready(),
                self.same_input(*old(self)),
                s0 == old(self).st(),
                s0.pos <= self.st().pos,
                parse_add_s(self.toks(), self.bytes(), s0) == add_rest_s(self.toks(), self.bytes(), self.st(), expr_view(lhs), start),
            decreases self.tokens@.len() - self.pos,
        {
            let op = match add_op_of(self.peek()) {
                Some(op) => op,
                None => {
                    return Ok(lhs);
                },
            };
            self.advance();
            let rhs = match self.parse_mul() {
                Ok(x) => x,
                Err(e) => {
                    return Err(e);
                },
            };
            let span = Span::covering(start, self.prev_span);
            lhs = binop(lhs, op, rhs, span);
        }
    }

    fn parse_mul(&mut self) -> (r: Result<Expr, SyntaxError>)
        requires
            old(self).ready(),
        ensures
            final(self).ready(),
            final(self).same_input(*old(self)),
            match parse_mul_s(old(self).toks(), old(self).bytes(), old(self).st()) {
                Ok((v, s2)) => r is Ok && expr_view(r->Ok_0) == v && final(self).st() == s2,
                Err(e) => r is Err && r->Err_0@ == e,
            },
            r is Ok ==> old(self).st().pos <= final(self).st().pos,
        decreases old(self).tokens@.len() - old(self).pos, 14nat,
    {
        let ghost s0 = self.st();
        let start = self.peek_span();
        let mut lhs = match self.parse_pow() {
            Ok(x) => x,
            Err(e) => {
                return Err(e);
            },
        };
        loop
            invariant
                self.ready(),
                self.same_input(*old(self)),
                s0 == old(self).st(),
                s0.pos <= self.st().pos,
                parse_mul_s(self.toks(), self.bytes(), s0) == mul_rest_s(self.toks(), self.bytes(), self.st(), expr_view(lhs), start),
            decreases self.tokens@.len() - self.pos,
        {
            let op = match mul_op_of(self.peek()) {
                Some(op) => op,
                None => {
                    return Ok(lhs);
                },
            };
            self.advance();
            let rhs = match self.parse_pow() {
                Ok(x) => x,
                Err(e) => {
                    return Err(e);
                },
            };
            let span = Span::covering(start, self.prev_span);
            lhs = binop(lhs, op, rhs, span);
        }
    }

    fn parse_pow(&mut self) -> (r: Result<Expr, SyntaxError>)
        requires
            old(self).ready(),
        ensures
            final(self).ready(),
            final(self).same_input(*old(self)),
            match parse_pow_s(old(self).toks(), old(self).bytes(), old(self).st()) {
                Ok((v, s2)) => r is Ok && expr_view(r->Ok_0) == v && final(self).st() == s2,
                Err(e) => r is Err && r->Err_0@ == e,
            },
            r is Ok ==> old(self).st().pos <= final(self).st().pos,
        decreases old(self).tokens@.len() - old(self).pos, 12nat,
    {
        let start = self.peek_span();
        let base = match self.parse_postfix() {
            Ok(x) => x,
            Err(e) => {
                return Err(e);
            },
        };
        if self.peek() == TokenKind::Caret {
            self.advance();
            let exp = match self.parse_pow() {
                Ok(x) => x,
                Err(e) => {
                    return Err(e);
                },
            };
            let span = Span::covering(start, self.prev_span);
            Ok(binop(base, BinOp::Pow, exp, span))
        } else {
            Ok(base)
        }
    }

    fn parse_postfix(&mut self) -> (r: Result<Expr, SyntaxError>)
        requires
            old(self).ready(),
        ensures
            final(self).ready(),
            final(self).same_input(*old(self)),
            match parse_postfix_s(old(self).toks(), old(self).bytes(), old(self).st()) {
                Ok((v, s2)) => r is Ok && expr_view(r->Ok_0) == v && final(self).st() == s2,
                Err(e) => r is Err && r->Err_0@ == e,
            },
            r is Ok ==> old(self).st().pos <= final(self).st().pos,
        decreases old(self).tokens@.len() - old(self).pos, 11nat,
    {
        let ghost s0 = self.st();
        let mut expr = match self.parse_atom() {
            Ok(x) => x,
            Err(e) => {
                return Err(e);
            },
        };
        loop
            invariant
                self.ready(),
                self.same_input(*old(self)),
                s0 == old(self).st(),
                s0.pos <= self.st().pos,
                parse_postfix_s(self.toks(), self.bytes(), s0) == postfix_rest_s(self.toks(), self.bytes(), self.st(), expr_view(expr)),
            decreases self.tokens@.len() - self.pos,
        {
            let t = self.peek_token();
            if t.kind == TokenKind::Dot {
                self.advance();
                let (field, field_span) = match self.expect_ident() {
                    Ok(x) => x,
                    Err(e) => {
                        return Err(e);
                    },
                };
                let span = Span::covering(expr_span_of(&expr), field_span);
                expr = Expr::Field { obj: Box::new(expr), field, field_span, span };
            } else if t.kind == TokenKind::LBracket {
                let saved_pos = self.pos;
                let saved_prev = self.prev_span;
                let ghost before = self.st();
                let open = self.advance();
                let index = match self.parse_expr() {
                    Ok(x) => x,
                    Err(_) => {
                        self.pos = saved_pos;
                        self.prev_span = saved_prev;
                        assert(self.st() == before);
                        return Ok(expr);
                    },
                };
                match self.expect(TokenKind::RBracket) {
                    Ok(_) => {},
                    Err(_) => {
                        self.pos = saved_pos;
                        self.prev_span = saved_prev;
                        assert(self.st() == before);
                        return Ok(expr);
                    },
                }
                let span = Span::covering(open.span, self.prev_span);
                expr = Expr::Index { obj: Box::new(expr), index: Box::new(index), span };
            } else if t.kind == TokenKind::LParen {
                self.advance();
                let args = if self.peek() != TokenKind::RParen {
                    match self.parse_args() {
                        Ok(a) => a,
                        Err(e) => {
                            return Err(e);
                        },
                    }
                } else {
                    let v: Vec<Expr> = Vec::new();
                    assert(expr_seq_view(v@) =~= Seq::<ExprV>::empty());
                    v
                };
                match self.expect(TokenKind::RParen) {
                    Ok(_) => {},
                    Err(e) => {
                        return Err(e);
                    },
                }
                let span = Span::covering(expr_span_of(&expr), self.prev_span);
                expr = Expr::Call { func: Box::new(expr), args, span };
            } else {
                return Ok(expr);
            }
        }
    }

    fn parse_args(&mut self) -> (r: Result<Vec<Expr>, SyntaxError>)
        requires
            old(self).ready(),
        ensures
            final(self).ready(),
            final(self).same_input(*old(self)),
            match parse_args_s(old(self).toks(), old(self).bytes(), old(self).st(), Seq::empty()) {
                Ok((v, s2)) => r is Ok && expr_seq_view(r->Ok_0@) == v && final(self).st() == s2,
                Err(e) => r is Err && r->Err_0@ == e,
            },
            r is Ok ==> old(self).st().pos <= final(self).st().pos,
        decreases old(self).tokens@.len() - old(self).pos, 21nat,
    {
        let ghost s0 = self.st();
        let mut args: Vec<Expr> = Vec::new();
        assert(expr_seq_view(args@) =~= Seq::<ExprV>::empty());
        loop
            invariant
                self.ready(),
                self.same_input(*old(self)),
                s0 == old(self).st(),
                s0.pos <= self.st().pos,
                parse_args_s(self.toks(), self.bytes(), s0, Seq::empty()) == parse_args_s(
                    self.toks(),
                    self.bytes(),
                    self.st(),
                    expr_seq_view(args@),
                ),
            decreases self.tokens@.len() - self.pos,
        {
            let a = match self.parse_expr() {
                Ok(x) => x,
                Err(e) => {
                    return Err(e);
                },
            };
            proof {
                lemma_expr_seq_push(args@, a);
            }
            args.push(a);
            if self.peek() == TokenKind::Comma {
                self.advance();
            } else {
                return Ok(args);
            }
        }
    }
}

// ---------------------------------------------------------------------------
// Literals
// ---------------------------------------------------------------------------

/// A prefix of a run of digits is worth no more than the whole run.
proof fn lemma_digits_value_prefix(ds: Seq<u8>, j: int)
    requires
        0 <= j <= ds.len(),
    ensures
        digits_value(ds.subrange(0, j)) <= digits_value(ds),
    decreases ds.len() - j,
{
    if j < ds.len() {
        lemma_digits_value_prefix(ds, j + 1);
        assert(ds.subrange(0, j + 1).drop_last() =~= ds.subrange(0, j));
    } else {
        assert(ds.subrange(0, j) =~= ds);
    }
}

/// The byte that the escape `\c` stands for.
fn escape_of(c: u8) -> (r: u8)
    ensures
        r == escape_byte(c),
{
    if c == 0x6E {
        0x0A
    } else if c == 0x74 {
        0x09
    } else if c == 0x72 {
        0x0D
    } else {
        c
    }
}

impl<'a> Parser<'a> {
    /// The value of the digits in `span`, unless it exceeds `u64::MAX`.
    fn nat_value(&self, span: Span) -> (r: Option<u64>)
        requires
            self.ready(),
            span.start <= span.end <= self.bytes().len(),
            digits_range(self.bytes(), span.start as int, span.end as int),
        ensures
            r == nat_literal(self.bytes().subrange(span.start as int, span.end as int)),
    {
        let bytes = self.source.as_bytes();
        let s = span.start as usize;
        let e = span.end as usize;
        let ghost ds = bytes@.subrange(s as int, e as int);
        let mut value: u64 = 0;
        let mut k = s;
        assert(bytes@.subrange(s as int, s as int) =~= Seq::<u8>::empty());
        while k < e
            invariant
                bytes@ == self.bytes(),
                s <= k <= e <= bytes@.len(),
                ds == bytes@.subrange(s as int, e as int),
                s as int == span.start as int,
                e as int == span.end as int,
                digits_range(bytes@, s as int, e as int),
                value as nat == digits_value(bytes@.subrange(s as int, k as int)),
            decreases e - k,
        {
            assert(is_digit(bytes@[k as int]));
            let d: u8 = bytes[k] - DIGIT_0;
            let ghost next = bytes@.subrange(s as int, k + 1);
            assert(next.drop_last() =~= bytes@.subrange(s as int, k as int));
            assert(ds.subrange(0, k + 1 - s) =~= next);
            match value.checked_mul(10) {
                Some(v10) => match v10.checked_add(d as u64) {
                    Some(v) => {
                        value = v;
                    },
                    None => {
                        proof {
                            assert(digits_value(next) > u64::MAX);
                            lemma_digits_value_prefix(ds, k + 1 - s);
                        }
                        return None;
                    },
                },
                None => {
                    proof {
                        assert(digits_value(next) >= value * 10);
                        lemma_digits_value_prefix(ds, k + 1 - s);
                    }
                    return None;
                },
            }
            k += 1;
        }
        Some(value)
    }

    /// The bytes of the string literal at `span` with its escapes resolved.
    fn unescape(&self, span: Span) -> (r: Vec<u8>)
        requires
            self.ready(),
            span.start + 2 <= span.end <= self.bytes().len(),
        ensures
            r@ == str_bytes(self.bytes(), span),
    {
        let bytes = self.source.as_bytes();
        let s = span.start as usize + 1;
        let e = span.end as usize - 1;
        let mut out: Vec<u8> = Vec::new();
        let mut k = s;
        assert(out@ + unescape_bytes(bytes@.subrange(k as int, e as int)) =~= unescape_bytes(
            bytes@.subrange(s as int, e as int),
        ));
        while k < e
            invariant
                bytes@ == self.bytes(),
                s <= k <= e < bytes@.len(),
                out@ + unescape_bytes(bytes@.subrange(k as int, e as int)) == unescape_bytes(
                    bytes@.subrange(s as int, e as int),
                ),
            decreases e - k,
        {
            let ghost rest = bytes@.subrange(k as int, e as int);
            let ghost before = out@;
            if bytes[k] == 0x5C && k + 1 < e {
                out.push(escape_of(bytes[k + 1]));
                assert(rest.subrange(2, rest.len() as int) =~= bytes@.subrange(k + 2, e as int));
                assert(before + unescape_bytes(rest) =~= out@ + unescape_bytes(bytes@.subrange(k + 2, e as int)));
                k += 2;
            } else {
                out.push(bytes[k]);
                assert(rest.subrange(1, rest.len() as int) =~= bytes@.subrange(k + 1, e as int));
                assert(before + unescape_bytes(rest) =~= out@ + unescape_bytes(bytes@.subrange(k + 1, e as int)));
                k += 1;
            }
        }
        assert(unescape_bytes(bytes@.subrange(k as int, e as int)) =~= Seq::<u8>::empty());
        assert(out@ + Seq::<u8>::empty() =~= out@);
        out
    }
}

impl<'a> Parser<'a> {
    fn parse_atom(&mut self) -> (r: Result<Expr, SyntaxError>)
        requires
            old(self).ready(),
        ensures
            final(self).ready(),
            final(self).same_input(*old(self)),
            match parse_atom_s(old(self).toks(), old(self).bytes(), old(self).st()) {
                Ok((v, s2)) => r is Ok && expr_view(r->Ok_0) == v && final(self).st() == s2,
                Err(e) => r is Err && r->Err_0@ == e,
            },
            r is Ok ==> old(self).st().pos <= final(self).st().pos,
        decreases old(self).tokens@.len() - old(self).pos, 9nat,
    {
        proof {
            lemma_peek_ok(self.toks(), self.bytes(), self.st());
        }
        let t = self.peek_token();
        if t.kind == TokenKind::Ident {
            self.advance();
            let text = self.slice(t.span);
            Ok(Expr::Ident { text, span: t.span })
        } else if t.kind == TokenKind::Nat {
            self.advance();
            match self.nat_value(t.span) {
                Some(value) => Ok(Expr::Nat { value, span: t.span }),
                None => Err(
                    SyntaxError::new(t.span, ErrorKind::InvalidLiteral, string_of("integer literal out of range")),
                ),
            }
        } else if t.kind == TokenKind::Float {
            self.advance();
            let text = self.slice(t.span);
            Ok(Expr::Float { text, span: t.span })
        } else if t.kind == TokenKind::Str {
            self.advance();
            let bytes = self.unescape(t.span);
            match string_from_utf8(bytes) {
                Some(value) => Ok(Expr::Str { value, span: t.span }),
                None => Err(SyntaxError::new(t.span, ErrorKind::InvalidString, string_of("malformed string literal"))),
            }
        } else if t.kind == TokenKind::LParen {
            self.advance();
            let inner = match self.parse_expr() {
                Ok(x) => x,
                Err(e) => {
                    return Err(e);
                },
            };
            match self.expect(TokenKind::RParen) {
                Ok(_) => {},
                Err(e) => {
                    return Err(e);
                },
            }
            let span = Span::covering(t.span, self.prev_span);
            Ok(Expr::Paren { inner: Box::new(inner), span })
        } else if t.kind == TokenKind::Minus {
            self.advance();
            let operand = match self.parse_pow() {
                Ok(x) => x,
                Err(e) => {
                    return Err(e);
                },
            };
            let span = Span::covering(t.span, self.prev_span);
            Ok(Expr::UnOp { op: UnOp::Neg, operand: Box::new(operand), span })
        } else if t.kind == TokenKind::Lambda {
            self.parse_lambda()
        } else if t.kind == TokenKind::Eof {
            Err(
                SyntaxError::new(
                    t.span,
                    ErrorKind::UnexpectedEof,
                    string_of("unexpected end of input; expected an expression"),
                ),
            )
        } else {
            let mut m = string_of("expected an expression, found ");
            m.append(kind_str(t.kind));
            Err(SyntaxError::new(t.span, ErrorKind::UnexpectedToken, m))
        }
    }

    fn parse_lambda(&mut self) -> (r: Result<Expr, SyntaxError>)
        requires
            old(self).ready(),
        ensures
            final(self).ready(),
            final(self).same_input(*old(self)),
            match parse_lambda_s(old(self).toks(), old(self).bytes(), old(self).st()) {
                Ok((v, s2)) => r is Ok && expr_view(r->Ok_0) == v && final(self).st() == s2,
                Err(e) => r is Err && r->Err_0@ == e,
            },
            r is Ok ==> old(self).st().pos <= final(self).st().pos,
        decreases old(self).tokens@.len() - old(self).pos, 8nat,
    {
        let lam = self.advance();
        if self.peek() != TokenKind::LParen {
            return Err(
                self.err_here(
                    ErrorKind::UnexpectedToken,
                    string_of("expected `(` with an annotated parameter after `λ`"),
                ),
            );
        }
        let empty: Vec<LamParam> = Vec::new();
        assert(lam_param_seq_view(empty@) =~= Seq::<LamParamV>::empty());
        let params = match self.parse_lam_params(empty) {
            Ok(x) => x,
            Err(e) => {
                return Err(e);
            },
        };
        self.lambda_body(params, lam.span)
    }

    #[verifier::spinoff_prover]
    #[verifier::rlimit(100)]
    fn lambda_body(&mut self, params: Vec<LamParam>, lam: Span) -> (r: Result<Expr, SyntaxError>)
        requires
            old(self).ready(),
        ensures
            final(self).ready(),
            final(self).same_input(*old(self)),
            match lambda_body_s(old(self).toks(), old(self).bytes(), old(self).st(), lam_param_seq_view(params@), lam) {
                Ok((v, s2)) => r is Ok && expr_view(r->Ok_0) == v && final(self).st() == s2,
                Err(e) => r is Err && r->Err_0@ == e,
            },
            r is Ok ==> old(self).st().pos <= final(self).st().pos,
        decreases old(self).tokens@.len() - old(self).pos, 8nat,
    {
        match self.expect(TokenKind::Dot) {
            Ok(_) => {},
            Err(e) => {
                return Err(e);
            },
        }
        let body = match self.parse_expr() {
            Ok(x) => x,
            Err(e) => {
                return Err(e);
            },
        };
        let span = Span::covering(lam, self.prev_span);
        Ok(Expr::Lam { params, body: Box::new(body), span })
    }

    fn parse_lam_params(&mut self, acc: Vec<LamParam>) -> (r: Result<Vec<LamParam>, SyntaxError>)
        requires
            old(self).ready(),
        ensures
            final(self).ready(),
            final(self).same_input(*old(self)),
            match parse_lam_params_s(old(self).toks(), old(self).bytes(), old(self).st(), lam_param_seq_view(acc@)) {
                Ok((v, s2)) => r is Ok && lam_param_seq_view(r->Ok_0@) == v && final(self).st() == s2,
                Err(e) => r is Err && r->Err_0@ == e,
            },
            r is Ok ==> old(self).st().pos <= final(self).st().pos,
        decreases old(self).tokens@.len() - old(self).pos, 7nat,
    {
        match self.expect(TokenKind::LParen) {
            Ok(_) => {},
            Err(e) => {
                return Err(e);
            },
        }
        let (name, name_span) = match self.expect_binding_ident("a parameter name") {
            Ok(x) => x,
            Err(e) => {
                return Err(e);
            },
        };
        match self.expect(TokenKind::Colon) {
            Ok(_) => {},
            Err(e) => {
                return Err(e);
            },
        }
        let ty = match self.parse_expr() {
            Ok(x) => x,
            Err(e) => {
                return Err(e);
            },
        };
        match self.expect(TokenKind::RParen) {
            Ok(_) => {},
            Err(e) => {
                return Err(e);
            },
        }
        let span = Span::covering(name_span, self.prev_span);
        let p = LamParam { name, name_span, ty, span };
        let mut acc = acc;
        proof {
            lemma_lam_param_seq_push(acc@, p);
        }
        acc.push(p);
        if self.peek() != TokenKind::LParen {
            Ok(acc)
        } else {
            self.parse_lam_params(acc)
        }
    }

    fn skip_newlines(&mut self)
        requires
            old(self).ready(),
        ensures
            final(self).ready(),
            final(self).same_input(*old(self)),
            final(self).st() == skip_newlines(old(self).toks(), old(self).bytes().len() as int, old(self).st()),
            old(self).st().pos <= final(self).st().pos,
    {
        while self.peek() == TokenKind::Newline
            invariant
                self.ready(),
                self.same_input(*old(self)),
                old(self).st().pos <= self.st().pos,
                skip_newlines(old(self).toks(), old(self).bytes().len() as int, old(self).st()) == skip_newlines(
                    self.toks(),
                    self.bytes().len() as int,
                    self.st(),
                ),
            decreases self.tokens@.len() - self.pos,
        {
            self.advance();
        }
    }

    fn parse_match(&mut self) -> (r: Result<Expr, SyntaxError>)
        requires
            old(self).ready(),
        ensures
            final(self).ready(),
            final(self).same_input(*old(self)),
            match parse_match_s(old(self).toks(), old(self).bytes(), old(self).st()) {
                Ok((v, s2)) => r is Ok && expr_view(r->Ok_0) == v && final(self).st() == s2,
                Err(e) => r is Err && r->Err_0@ == e,
            },
            r is Ok ==> old(self).st().pos <= final(self).st().pos,
        decreases old(self).tokens@.len() - old(self).pos, 19nat,
    {
        let kw = match self.expect_keyword("match") {
            Ok(t) => t,
            Err(e) => {
                return Err(e);
            },
        };
        let scrutinee = match self.parse_expr() {
            Ok(x) => x,
            Err(e) => {
                return Err(e);
            },
        };
        match self.expect(TokenKind::Colon) {
            Ok(_) => {},
            Err(e) => {
                return Err(e);
            },
        }
        match self.expect(TokenKind::Newline) {
            Ok(_) => {},
            Err(e) => {
                return Err(e);
            },
        }
        if self.peek() != TokenKind::Indent {
            return Err(
                self.err_here(
                    ErrorKind::UnexpectedToken,
                    string_of("expected an indented block of `case` arms after `match ...:`"),
                ),
            );
        }
        self.advance();
        let empty: Vec<MatchArm> = Vec::new();
        assert(match_arm_seq_view(empty@) =~= Seq::<MatchArmV>::empty());
        let arms = match self.parse_arms(empty) {
            Ok(x) => x,
            Err(e) => {
                return Err(e);
            },
        };
        if arms.len() == 0 {
            return Err(self.err_here(ErrorKind::UnexpectedToken, string_of("expected at least one `case` arm")));
        }
        self.skip_newlines();
        match self.expect(TokenKind::Dedent) {
            Ok(_) => {},
            Err(e) => {
                return Err(e);
            },
        }
        let span = Span::covering(kw.span, self.prev_span);
        let me = MatchExpr { scrutinee: Box::new(scrutinee), arms, span };
        let ghost g = me;
        let r = Expr::Match(me);
        assert(expr_view(r) == ExprV::Match(crate::ast::match_expr_view(g)));
        assert(crate::ast::match_expr_view(g) == MatchExprV {
            scrutinee: Box::new(expr_view(*g.scrutinee)),
            arms: match_arm_seq_view(g.arms@),
            span: g.span,
        });
        Ok(r)
    }

    fn parse_arms(&mut self, acc: Vec<MatchArm>) -> (r: Result<Vec<MatchArm>, SyntaxError>)
        requires
            old(self).ready(),
        ensures
            final(self).ready(),
            final(self).same_input(*old(self)),
            match parse_arms_s(old(self).toks(), old(self).bytes(), old(self).st(), match_arm_seq_view(acc@)) {
                Ok((v, s2)) => r is Ok && match_arm_seq_view(r->Ok_0@) == v && final(self).st() == s2,
                Err(e) => r is Err && r->Err_0@ == e,
            },
            r is Ok ==> old(self).st().pos <= final(self).st().pos,
        decreases old(self).tokens@.len() - old(self).pos, 6nat,
    {
        let k = self.peek();
        if k == TokenKind::Dedent || k == TokenKind::Eof {
            Ok(acc)
        } else if k == TokenKind::Newline {
            self.advance();
            self.parse_arms(acc)
        } else if self.at_keyword("case") {
            let arm = match self.parse_match_arm() {
                Ok(x) => x,
                Err(e) => {
                    return Err(e);
                },
            };
            let mut acc = acc;
            proof {
                lemma_match_arm_seq_push(acc@, arm);
            }
            acc.push(arm);
            self.parse_arms(acc)
        } else {
            Err(self.err_here(ErrorKind::UnexpectedToken, string_of("expected `case`")))
        }
    }

    fn parse_match_arm(&mut self) -> (r: Result<MatchArm, SyntaxError>)
        requires
            old(self).ready(),
        ensures
            final(self).ready(),
            final(self).same_input(*old(self)),
            match parse_arm_s(old(self).toks(), old(self).bytes(), old(self).st()) {
                Ok((v, s2)) => r is Ok && match_arm_view(r->Ok_0) == v && final(self).st() == s2,
                Err(e) => r is Err && r->Err_0@ == e,
            },
            r is Ok ==> old(self).st().pos < final(self).st().pos,
        decreases old(self).tokens@.len() - old(self).pos, 5nat,
    {
        let kw = match self.expect_keyword("case") {
            Ok(t) => t,
            Err(e) => {
                return Err(e);
            },
        };
        let pattern = match self.parse_pattern() {
            Ok(x) => x,
            Err(e) => {
                return Err(e);
            },
        };
        match self.expect(TokenKind::Eq) {
            Ok(_) => {},
            Err(e) => {
                return Err(e);
            },
        }
        match self.expect(TokenKind::Gt) {
            Ok(_) => {},
            Err(e) => {
                return Err(e);
            },
        }
        let body = match self.parse_expr() {
            Ok(x) => x,
            Err(e) => {
                return Err(e);
            },
        };
        if self.peek() == TokenKind::Newline {
            self.advance();
        } else if !(matches!(body, Expr::Match(_)) || matches!(body, Expr::If(_))) {
            return Err(self.err_here(ErrorKind::UnexpectedToken, string_of("expected Newline")));
        }
        let span = Span::covering(kw.span, self.prev_span);
        Ok(MatchArm { pattern, body, span })
    }

    fn parse_pattern_arg(&mut self) -> (r: Result<PatternArg, SyntaxError>)
        requires
            old(self).ready(),
        ensures
            final(self).ready(),
            final(self).same_input(*old(self)),
            match parse_pattern_arg_s(old(self).toks(), old(self).bytes(), old(self).st()) {
                Ok((v, s2)) => r is Ok && pattern_arg_view(r->Ok_0) == v && final(self).st() == s2,
                Err(e) => r is Err && r->Err_0@ == e,
            },
            r is Ok ==> old(self).st().pos < final(self).st().pos,
    {
        let (text, span) = match self.expect_ident() {
            Ok(x) => x,
            Err(e) => {
                return Err(e);
            },
        };
        if text == string_of("_") {
            return Ok(PatternArg::Wildcard(span));
        }
        if self.peek() == TokenKind::Dot {
            return Err(
                SyntaxError::new(
                    span,
                    ErrorKind::NotImplemented,
                    string_of("nested patterns are not supported in this delivery"),
                ),
            );
        }
        match Self::check_binding_name(text, span, "a pattern variable") {
            Ok(name) => Ok(PatternArg::Var { name, name_span: span }),
            Err(e) => Err(e),
        }
    }

    fn dotted_rest(&mut self, full: String, end: Span) -> (r: Result<(String, Span), SyntaxError>)
        requires
            old(self).ready(),
        ensures
            final(self).ready(),
            final(self).same_input(*old(self)),
            match dotted_rest_s(old(self).toks(), old(self).bytes(), old(self).st(), full@, end) {
                Ok(((f, e2), s2)) => r is Ok && r->Ok_0.0@ == f && r->Ok_0.1 == e2 && final(self).st() == s2,
                Err(e) => r is Err && r->Err_0@ == e,
            },
            r is Ok ==> old(self).st().pos <= final(self).st().pos,
        decreases old(self).tokens@.len() - old(self).pos,
    {
        if self.peek() == TokenKind::Dot {
            self.advance();
            let (seg, seg_span) = match self.expect_ident() {
                Ok(x) => x,
                Err(e) => {
                    return Err(e);
                },
            };
            let mut full = full;
            full.append(".");
            full.append(seg.as_str());
            self.dotted_rest(full, seg_span)
        } else {
            Ok((full, end))
        }
    }

    fn pattern_args_comma(&mut self, acc: Vec<PatternArg>) -> (r: Result<Vec<PatternArg>, SyntaxError>)
        requires
            old(self).ready(),
        ensures
            final(self).ready(),
            final(self).same_input(*old(self)),
            match pattern_args_comma_s(old(self).toks(), old(self).bytes(), old(self).st(), pattern_arg_seq_view(acc@)) {
                Ok((v, s2)) => r is Ok && pattern_arg_seq_view(r->Ok_0@) == v && final(self).st() == s2,
                Err(e) => r is Err && r->Err_0@ == e,
            },
            r is Ok ==> old(self).st().pos <= final(self).st().pos,
        decreases old(self).tokens@.len() - old(self).pos,
    {
        let a = match self.parse_pattern_arg() {
            Ok(x) => x,
            Err(e) => {
                return Err(e);
            },
        };
        let mut acc = acc;
        proof {
            lemma_pattern_arg_seq_push(acc@, a);
        }
        acc.push(a);
        if self.peek() == TokenKind::Comma {
            self.advance();
            self.pattern_args_comma(acc)
        } else {
            Ok(acc)
        }
    }

    fn pattern_args_space(&mut self, acc: Vec<PatternArg>) -> (r: Result<Vec<PatternArg>, SyntaxError>)
        requires
            old(self).ready(),
        ensures
            final(self).ready(),
            final(self).same_input(*old(self)),
            match pattern_args_space_s(old(self).toks(), old(self).bytes(), old(self).st(), pattern_arg_seq_view(acc@)) {
                Ok((v, s2)) => r is Ok && pattern_arg_seq_view(r->Ok_0@) == v && final(self).st() == s2,
                Err(e) => r is Err && r->Err_0@ == e,
            },
            r is Ok ==> old(self).st().pos <= final(self).st().pos,
        decreases old(self).tokens@.len() - old(self).pos,
    {
        if self.peek() == TokenKind::Ident {
            let a = match self.parse_pattern_arg() {
                Ok(x) => x,
                Err(e) => {
                    return Err(e);
                },
            };
            let mut acc = acc;
            proof {
                lemma_pattern_arg_seq_push(acc@, a);
            }
            acc.push(a);
            self.pattern_args_space(acc)
        } else {
            Ok(acc)
        }
    }

    fn parse_pattern(&mut self) -> (r: Result<Pattern, SyntaxError>)
        requires
            old(self).ready(),
        ensures
            final(self).ready(),
            final(self).same_input(*old(self)),
            match parse_pattern_s(old(self).toks(), old(self).bytes(), old(self).st()) {
                Ok((v, s2)) => r is Ok && pattern_view(r->Ok_0) == v && final(self).st() == s2,
                Err(e) => r is Err && r->Err_0@ == e,
            },
            r is Ok ==> old(self).st().pos <= final(self).st().pos,
    {
        let (text, span) = match self.expect_ident() {
            Ok(x) => x,
            Err(e) => {
                return Err(e);
            },
        };
        if text == string_of("_") {
            return Ok(Pattern::Wildcard(span));
        }
        if self.peek() != TokenKind::Dot && self.peek() != TokenKind::LParen {
            return match Self::check_binding_name(text, span, "a pattern variable") {
                Ok(name) => Ok(Pattern::Var { name, name_span: span }),
                Err(e) => Err(e),
            };
        }
        let (full, end) = match self.dotted_rest(text, span) {
            Ok(x) => x,
            Err(e) => {
                return Err(e);
            },
        };
        if self.peek() == TokenKind::LParen {
            self.advance();
            let args = if self.peek() != TokenKind::RParen {
                let empty: Vec<PatternArg> = Vec::new();
                assert(pattern_arg_seq_view(empty@) =~= Seq::<PatternArgV>::empty());
                match self.pattern_args_comma(empty) {
                    Ok(x) => x,
                    Err(e) => {
                        return Err(e);
                    },
                }
            } else {
                let empty: Vec<PatternArg> = Vec::new();
                assert(pattern_arg_seq_view(empty@) =~= Seq::<PatternArgV>::empty());
                empty
            };
            match self.expect(TokenKind::RParen) {
                Ok(_) => {},
                Err(e) => {
                    return Err(e);
                },
            }
            let sp = Span::new(span.start, self.prev_span.end);
            Ok(Pattern::Constructor { name: full, name_span: sp, args, span: sp })
        } else {
            let empty: Vec<PatternArg> = Vec::new();
            assert(pattern_arg_seq_view(empty@) =~= Seq::<PatternArgV>::empty());
            let args = match self.pattern_args_space(empty) {
                Ok(x) => x,
                Err(e) => {
                    return Err(e);
                },
            };
            let sp = Span::new(span.start, end.end);
            Ok(Pattern::Constructor { name: full, name_span: sp, args, span: sp })
        }
    }
}

// ---------------------------------------------------------------------------
// Declarations: specification
// ---------------------------------------------------------------------------

/// `name : type`, a parameter of a function, structure or `Given` block.
pub open spec fn parse_param_s(ts: Seq<Token>, b: Seq<u8>, st: PState) -> Result<(ParamV, PState), SyntaxErrorV> {
    match expect_binding_ident_s(ts, b, st, "a parameter name"@) {
        Err(e) => Err(e),
        Ok(((name, name_span), s1)) => match expect_s(ts, b, s1, TokenKind::Colon) {
            Err(e) => Err(e),
            Ok((_, s2)) => match parse_expr_s(ts, b, s2) {
                Err(e) => Err(e),
                Ok((ty, s3)) => Ok((ParamV { name, name_span, ty, span: covering(name_span, s3.prev) }, s3)),
            },
        },
    }
}

/// Comma-separated parameters, after the ones in `acc`.
pub open spec fn params_list_s(ts: Seq<Token>, b: Seq<u8>, st: PState, acc: Seq<ParamV>) -> Result<(Seq<ParamV>, PState), SyntaxErrorV>
    decreases ts.len() - st.pos,
{
    let n = b.len() as int;
    match parse_param_s(ts, b, st) {
        Err(e) => Err(e),
        Ok((p, s1)) => if peek_tok(ts, n, s1).kind == TokenKind::Comma {
            let s2 = bump(ts, n, s1);
            if !advanced(ts, st, s2) {
                Err(stuck())
            } else {
                params_list_s(ts, b, s2, acc.push(p))
            }
        } else {
            Ok((acc.push(p), s1))
        },
    }
}

/// `( params )`.
pub open spec fn paren_params_s(ts: Seq<Token>, b: Seq<u8>, st: PState) -> Result<(Seq<ParamV>, PState), SyntaxErrorV> {
    let n = b.len() as int;
    match expect_s(ts, b, st, TokenKind::LParen) {
        Err(e) => Err(e),
        Ok((_, s1)) => {
            let ps = if peek_tok(ts, n, s1).kind != TokenKind::RParen {
                params_list_s(ts, b, s1, Seq::empty())
            } else {
                Ok((Seq::empty(), s1))
            };
            match ps {
                Err(e) => Err(e),
                Ok((params, s2)) => match expect_s(ts, b, s2, TokenKind::RParen) {
                    Err(e) => Err(e),
                    Ok((_, s3)) => Ok((params, s3)),
                },
            }
        },
    }
}

/// The rest of a dotted path after the segments `segs`, which cover `full`.
pub open spec fn path_rest_s(ts: Seq<Token>, b: Seq<u8>, st: PState, segs: Seq<PathSegmentV>, full: Span) -> Result<(PathV, PState), SyntaxErrorV>
    decreases ts.len() - st.pos,
{
    let n = b.len() as int;
    if peek_tok(ts, n, st).kind == TokenKind::Dot {
        match expect_ident_s(ts, b, bump(ts, n, st)) {
            Err(e) => Err(e),
            Ok(((text, span), s2)) => if !advanced(ts, st, s2) {
                Err(stuck())
            } else {
                path_rest_s(ts, b, s2, segs.push(PathSegmentV { text, span }), covering(full, span))
            },
        }
    } else {
        Ok((PathV { segments: segs, span: full }, st))
    }
}

/// A dotted path `A.B.C`.
pub open spec fn parse_path_s(ts: Seq<Token>, b: Seq<u8>, st: PState) -> Result<(PathV, PState), SyntaxErrorV> {
    match expect_ident_s(ts, b, st) {
        Err(e) => Err(e),
        Ok(((text, span), s1)) => path_rest_s(ts, b, s1, seq![PathSegmentV { text, span }], span),
    }
}

/// `Module path` and the end of its line.
pub open spec fn parse_module_decl_s(ts: Seq<Token>, b: Seq<u8>, st: PState) -> Result<(ModuleDeclV, PState), SyntaxErrorV> {
    match expect_keyword_s(ts, b, st, "Module"@) {
        Err(e) => Err(e),
        Ok((kw, s1)) => match parse_path_s(ts, b, s1) {
            Err(e) => Err(e),
            Ok((path, s2)) => match expect_s(ts, b, s2, TokenKind::Newline) {
                Err(e) => Err(e),
                Ok((_, s3)) => Ok((ModuleDeclV { path, span: covering(kw.span, s3.prev) }, s3)),
            },
        },
    }
}

/// Comma-separated imported names, after the ones in `acc`.
pub open spec fn import_names_s(ts: Seq<Token>, b: Seq<u8>, st: PState, acc: Seq<ImportNameV>) -> Result<(Seq<ImportNameV>, PState), SyntaxErrorV>
    decreases ts.len() - st.pos,
{
    let n = b.len() as int;
    match expect_ident_s(ts, b, st) {
        Err(e) => Err(e),
        Ok(((text, span), s1)) => if peek_tok(ts, n, s1).kind == TokenKind::Comma {
            let s2 = bump(ts, n, s1);
            if !advanced(ts, st, s2) {
                Err(stuck())
            } else {
                import_names_s(ts, b, s2, acc.push(ImportNameV { text, span }))
            }
        } else {
            Ok((acc.push(ImportNameV { text, span }), s1))
        },
    }
}

/// The optional `(names)` of an import.
pub open spec fn import_list_s(ts: Seq<Token>, b: Seq<u8>, st: PState) -> Result<(Option<Seq<ImportNameV>>, PState), SyntaxErrorV> {
    let n = b.len() as int;
    if peek_tok(ts, n, st).kind == TokenKind::LParen {
        let s1 = bump(ts, n, st);
        let names = if peek_tok(ts, n, s1).kind != TokenKind::RParen {
            import_names_s(ts, b, s1, Seq::empty())
        } else {
            Ok((Seq::empty(), s1))
        };
        match names {
            Err(e) => Err(e),
            Ok((list, s2)) => match expect_s(ts, b, s2, TokenKind::RParen) {
                Err(e) => Err(e),
                Ok((_, s3)) => Ok((Some(list), s3)),
            },
        }
    } else {
        Ok((None, st))
    }
}

/// `Import path [(names)]` and the end of its line.
pub open spec fn parse_import_decl_s(ts: Seq<Token>, b: Seq<u8>, st: PState) -> Result<(ImportDeclV, PState), SyntaxErrorV> {
    match expect_keyword_s(ts, b, st, "Import"@) {
        Err(e) => Err(e),
        Ok((kw, s1)) => match parse_path_s(ts, b, s1) {
            Err(e) => Err(e),
            Ok((path, s2)) => match import_list_s(ts, b, s2) {
                Err(e) => Err(e),
                Ok((names, s3)) => match expect_s(ts, b, s3, TokenKind::Newline) {
                    Err(e) => Err(e),
                    Ok((_, s4)) => Ok((ImportDeclV { path, names, span: covering(kw.span, s4.prev) }, s4)),
                },
            },
        },
    }
}

/// The newlines after a `return` value up to the dedent that ends the body.
pub open spec fn stmt_end_s(ts: Seq<Token>, b: Seq<u8>, st: PState) -> Result<PState, SyntaxErrorV>
    decreases ts.len() - st.pos,
{
    let n = b.len() as int;
    let k = peek_tok(ts, n, st).kind;
    if k == TokenKind::Newline {
        let s1 = bump(ts, n, st);
        if !advanced(ts, st, s1) {
            Err(stuck())
        } else {
            stmt_end_s(ts, b, s1)
        }
    } else if k == TokenKind::Dedent {
        Ok(st)
    } else {
        Err(err_here(ts, n, st, ErrorKind::UnexpectedToken, "expected Newline"@))
    }
}

/// `return value`.
pub open spec fn parse_stmt_s(ts: Seq<Token>, b: Seq<u8>, st: PState) -> Result<(StmtV, PState), SyntaxErrorV> {
    match expect_keyword_s(ts, b, st, "return"@) {
        Err(e) => Err(e),
        Ok((kw, s1)) => match parse_expr_s(ts, b, s1) {
            Err(e) => Err(e),
            Ok((value, s2)) => match stmt_end_s(ts, b, s2) {
                Err(e) => Err(e),
                Ok(s3) => Ok((StmtV::Return { value, span: covering(kw.span, s3.prev) }, s3)),
            },
        },
    }
}

/// `let name : ty = value` and the newlines after it.
pub open spec fn parse_let_stmt_s(ts: Seq<Token>, b: Seq<u8>, st: PState) -> Result<(StmtV, PState), SyntaxErrorV> {
    let n = b.len() as int;
    match expect_keyword_s(ts, b, st, "let"@) {
        Err(e) => Err(e),
        Ok((kw, s1)) => match expect_binding_ident_s(ts, b, s1, "a let binding name"@) {
            Err(e) => Err(e),
            Ok(((name, name_span), s2)) => match expect_s(ts, b, s2, TokenKind::Colon) {
                Err(e) => Err(e),
                Ok((_, s3)) => match parse_expr_s(ts, b, s3) {
                    Err(e) => Err(e),
                    Ok((ty, s4)) => match expect_s(ts, b, s4, TokenKind::Eq) {
                        Err(e) => Err(e),
                        Ok((_, s5)) => match parse_expr_s(ts, b, s5) {
                            Err(e) => Err(e),
                            Ok((value, s6)) => {
                                let s7 = skip_newlines(ts, n, s6);
                                Ok((StmtV::Let { name, name_span, ty, value, span: covering(kw.span, s7.prev) }, s7))
                            },
                        },
                    },
                },
            },
        },
    }
}

/// The `let` statements that open a function body, after the ones in
/// `acc`; blank lines are skipped.
pub open spec fn body_lets_s(ts: Seq<Token>, b: Seq<u8>, st: PState, acc: Seq<StmtV>) -> Result<(Seq<StmtV>, PState), SyntaxErrorV>
    decreases ts.len() - st.pos,
{
    let n = b.len() as int;
    let k = peek_tok(ts, n, st).kind;
    if k == TokenKind::Dedent || k == TokenKind::Eof {
        Ok((acc, st))
    } else if k == TokenKind::Newline {
        let s1 = bump(ts, n, st);
        if !advanced(ts, st, s1) {
            Err(stuck())
        } else {
            body_lets_s(ts, b, s1, acc)
        }
    } else if at_keyword_s(ts, b, st, "let"@) {
        match parse_let_stmt_s(ts, b, st) {
            Err(e) => Err(e),
            Ok((s, s1)) => if !advanced(ts, st, s1) {
                Err(stuck())
            } else {
                body_lets_s(ts, b, s1, acc.push(s))
            },
        }
    } else {
        Ok((acc, st))
    }
}

/// A function body after its indent: `let`s, one `return`, and the dedent.
pub open spec fn function_body_s(ts: Seq<Token>, b: Seq<u8>, st: PState) -> Result<(Seq<StmtV>, PState), SyntaxErrorV> {
    let n = b.len() as int;
    match body_lets_s(ts, b, st, Seq::empty()) {
        Err(e) => Err(e),
        Ok((lets, s1)) => {
            let k = peek_tok(ts, n, s1).kind;
            if k == TokenKind::Dedent || k == TokenKind::Eof {
                Err(err_here(ts, n, s1, ErrorKind::UnexpectedToken, "expected `return`"@))
            } else {
                match parse_stmt_s(ts, b, s1) {
                    Err(e) => Err(e),
                    Ok((ret, s2)) => match expect_s(ts, b, skip_newlines(ts, n, s2), TokenKind::Dedent) {
                        Err(e) => Err(e),
                        Ok((_, s3)) => Ok((lets.push(ret), s3)),
                    },
                }
            }
        },
    }
}

/// The optional `-> type` of a function.
pub open spec fn return_ty_s(ts: Seq<Token>, b: Seq<u8>, st: PState) -> Result<(Option<ExprV>, PState), SyntaxErrorV> {
    let n = b.len() as int;
    if peek_tok(ts, n, st).kind == TokenKind::Arrow {
        match parse_expr_s(ts, b, bump(ts, n, st)) {
            Err(e) => Err(e),
            Ok((t, s1)) => Ok((Some(t), s1)),
        }
    } else {
        Ok((None, st))
    }
}

/// `Function name(params) [-> type]:` and an indented body.
pub open spec fn parse_function_def_s(ts: Seq<Token>, b: Seq<u8>, st: PState) -> Result<(FunctionDefV, PState), SyntaxErrorV> {
    let n = b.len() as int;
    match expect_keyword_s(ts, b, st, "Function"@) {
        Err(e) => Err(e),
        Ok((kw, s1)) => match expect_binding_ident_s(ts, b, s1, "a function name"@) {
            Err(e) => Err(e),
            Ok(((name, name_span), s2)) => match paren_params_s(ts, b, s2) {
                Err(e) => Err(e),
                Ok((params, s3)) => match return_ty_s(ts, b, s3) {
                    Err(e) => Err(e),
                    Ok((return_ty, s4)) => match expect_s(ts, b, s4, TokenKind::Colon) {
                        Err(e) => Err(e),
                        Ok((_, s5)) => match expect_s(ts, b, s5, TokenKind::Newline) {
                            Err(e) => Err(e),
                            Ok((_, s6)) => if peek_tok(ts, n, s6).kind != TokenKind::Indent {
                                Err(err_here(ts, n, s6, ErrorKind::UnexpectedToken, "expected an indented block after `:`"@))
                            } else {
                                let s7 = bump(ts, n, s6);
                                if peek_tok(ts, n, s7).kind == TokenKind::Dedent {
                                    Err(err_here(ts, n, s7, ErrorKind::UnexpectedToken, "empty function body"@))
                                } else {
                                    match function_body_s(ts, b, s7) {
                                        Err(e) => Err(e),
                                        Ok((body, s8)) => Ok(
                                            (
                                                FunctionDefV {
                                                    name,
                                                    name_span,
                                                    params,
                                                    return_ty,
                                                    body,
                                                    span: covering(kw.span, s8.prev),
                                                },
                                                s8,
                                            ),
                                        ),
                                    }
                                }
                            },
                        },
                    },
                },
            },
        },
    }
}

/// `name : type` and the end of its line, a field of a structure.
pub open spec fn parse_field_def_s(ts: Seq<Token>, b: Seq<u8>, st: PState) -> Result<(FieldDefV, PState), SyntaxErrorV> {
    match expect_binding_ident_s(ts, b, st, "a field name"@) {
        Err(e) => Err(e),
        Ok(((name, name_span), s1)) => match expect_s(ts, b, s1, TokenKind::Colon) {
            Err(e) => Err(e),
            Ok((_, s2)) => match parse_expr_s(ts, b, s2) {
                Err(e) => Err(e),
                Ok((ty, s3)) => match expect_s(ts, b, s3, TokenKind::Newline) {
                    Err(e) => Err(e),
                    Ok((nl, s4)) => Ok(
                        (FieldDefV { name, name_span, ty, span: Span { start: name_span.start, end: nl.span.end } }, s4),
                    ),
                },
            },
        },
    }
}

/// `name : proposition` and the end of its line, a hypothesis.
pub open spec fn parse_hypothesis_s(ts: Seq<Token>, b: Seq<u8>, st: PState) -> Result<(HypothesisV, PState), SyntaxErrorV> {
    match expect_binding_ident_s(ts, b, st, "a hypothesis name"@) {
        Err(e) => Err(e),
        Ok(((name, name_span), s1)) => match expect_s(ts, b, s1, TokenKind::Colon) {
            Err(e) => Err(e),
            Ok((_, s2)) => match parse_expr_s(ts, b, s2) {
                Err(e) => Err(e),
                Ok((ty, s3)) => match expect_s(ts, b, s3, TokenKind::Newline) {
                    Err(e) => Err(e),
                    Ok((nl, s4)) => Ok(
                        (HypothesisV { name, name_span, ty, span: Span { start: name_span.start, end: nl.span.end } }, s4),
                    ),
                },
            },
        },
    }
}

/// The fields of a structure, after the ones in `acc`, up to the dedent;
/// blank lines are skipped.
pub open spec fn fields_s(ts: Seq<Token>, b: Seq<u8>, st: PState, acc: Seq<FieldDefV>) -> Result<(Seq<FieldDefV>, PState), SyntaxErrorV>
    decreases ts.len() - st.pos,
{
    let n = b.len() as int;
    let s0 = skip_newlines(ts, n, st);
    let k = peek_tok(ts, n, s0).kind;
    if k == TokenKind::Dedent || k == TokenKind::Eof {
        Ok((acc, s0))
    } else if k == TokenKind::Ident {
        match parse_field_def_s(ts, b, s0) {
            Err(e) => Err(e),
            Ok((f, s1)) => if !advanced(ts, st, s1) {
                Err(stuck())
            } else {
                fields_s(ts, b, s1, acc.push(f))
            },
        }
    } else {
        Err(err_here(ts, n, s0, ErrorKind::UnexpectedToken, "expected a field declaration or the end of the block"@))
    }
}

/// `Structure Name[(params)]:` and an indented block of fields.
pub open spec fn parse_structure_def_s(ts: Seq<Token>, b: Seq<u8>, st: PState) -> Result<(StructureDefV, PState), SyntaxErrorV> {
    let n = b.len() as int;
    match expect_keyword_s(ts, b, st, "Structure"@) {
        Err(e) => Err(e),
        Ok((kw, s1)) => match expect_binding_ident_s(ts, b, s1, "a structure name"@) {
            Err(e) => Err(e),
            Ok(((name, name_span), s2)) => {
                let ps = if peek_tok(ts, n, s2).kind == TokenKind::LParen {
                    paren_params_s(ts, b, s2)
                } else {
                    Ok((Seq::empty(), s2))
                };
                match ps {
                    Err(e) => Err(e),
                    Ok((params, s3)) => match expect_s(ts, b, s3, TokenKind::Colon) {
                        Err(e) => Err(e),
                        Ok((_, s4)) => match expect_s(ts, b, s4, TokenKind::Newline) {
                            Err(e) => Err(e),
                            Ok((_, s5)) => if peek_tok(ts, n, s5).kind != TokenKind::Indent {
                                Err(
                                    err_here(
                                        ts,
                                        n,
                                        s5,
                                        ErrorKind::UnexpectedToken,
                                        "expected an indented block of field declarations after `Structure ...:`"@,
                                    ),
                                )
                            } else {
                                match fields_s(ts, b, bump(ts, n, s5), Seq::empty()) {
                                    Err(e) => Err(e),
                                    Ok((fields, s6)) => if fields.len() == 0 {
                                        Err(
                                            err(
                                                name_span,
                                                ErrorKind::UnexpectedToken,
                                                "structure `"@ + name + "` must declare at least one field"@,
                                            ),
                                        )
                                    } else {
                                        match expect_s(ts, b, skip_newlines(ts, n, s6), TokenKind::Dedent) {
                                            Err(e) => Err(e),
                                            Ok((_, s7)) => Ok(
                                                (
                                                    StructureDefV {
                                                        name,
                                                        name_span,
                                                        params,
                                                        fields,
                                                        span: covering(kw.span, s7.prev),
                                                    },
                                                    s7,
                                                ),
                                            ),
                                        }
                                    },
                                }
                            },
                        },
                    },
                }
            },
        },
    }
}

/// The bindings of a `Given` block, after the ones in `acc`.
pub open spec fn given_s(ts: Seq<Token>, b: Seq<u8>, st: PState, acc: Seq<ParamV>) -> Result<(Seq<ParamV>, PState), SyntaxErrorV>
    decreases ts.len() - st.pos,
{
    let n = b.len() as int;
    let s0 = skip_newlines(ts, n, st);
    let k = peek_tok(ts, n, s0).kind;
    if k == TokenKind::Dedent || k == TokenKind::Eof {
        Ok((acc, s0))
    } else if k == TokenKind::Ident {
        match parse_param_s(ts, b, s0) {
            Err(e) => Err(e),
            Ok((p, s1)) => if !advanced(ts, st, s1) {
                Err(stuck())
            } else {
                given_s(ts, b, s1, acc.push(p))
            },
        }
    } else {
        Err(err_here(ts, n, s0, ErrorKind::UnexpectedToken, "expected a `name : type` binding in the Given block"@))
    }
}

/// The hypotheses of an `Assume` block, after the ones in `acc`.
pub open spec fn hyps_s(ts: Seq<Token>, b: Seq<u8>, st: PState, acc: Seq<HypothesisV>) -> Result<(Seq<HypothesisV>, PState), SyntaxErrorV>
    decreases ts.len() - st.pos,
{
    let n = b.len() as int;
    let s0 = skip_newlines(ts, n, st);
    let k = peek_tok(ts, n, s0).kind;
    if k == TokenKind::Dedent || k == TokenKind::Eof {
        Ok((acc, s0))
    } else if k == TokenKind::Ident {
        match parse_hypothesis_s(ts, b, s0) {
            Err(e) => Err(e),
            Ok((h, s1)) => if !advanced(ts, st, s1) {
                Err(stuck())
            } else {
                hyps_s(ts, b, s1, acc.push(h))
            },
        }
    } else {
        Err(
            err_here(ts, n, s0, ErrorKind::UnexpectedToken, "expected a `name : proposition` binding in the Assume block"@),
        )
    }
}

/// `: Newline Indent` opening a theorem section.
pub open spec fn section_open_s(ts: Seq<Token>, b: Seq<u8>, st: PState) -> Result<PState, SyntaxErrorV> {
    match expect_s(ts, b, st, TokenKind::Colon) {
        Err(e) => Err(e),
        Ok((_, s1)) => match expect_s(ts, b, s1, TokenKind::Newline) {
            Err(e) => Err(e),
            Ok((_, s2)) => match expect_s(ts, b, s2, TokenKind::Indent) {
                Err(e) => Err(e),
                Ok((_, s3)) => Ok(s3),
            },
        },
    }
}

/// The optional `Given:` section.
pub open spec fn given_section_s(ts: Seq<Token>, b: Seq<u8>, st: PState) -> Result<(Seq<ParamV>, PState), SyntaxErrorV> {
    let n = b.len() as int;
    if at_keyword_s(ts, b, st, "Given"@) {
        match section_open_s(ts, b, bump(ts, n, st)) {
            Err(e) => Err(e),
            Ok(s1) => match given_s(ts, b, s1, Seq::empty()) {
                Err(e) => Err(e),
                Ok((g, s2)) => match expect_s(ts, b, s2, TokenKind::Dedent) {
                    Err(e) => Err(e),
                    Ok((_, s3)) => Ok((g, skip_newlines(ts, n, s3))),
                },
            },
        }
    } else {
        Ok((Seq::empty(), st))
    }
}

/// The optional `Assume:` section.
pub open spec fn assume_section_s(ts: Seq<Token>, b: Seq<u8>, st: PState) -> Result<(Seq<HypothesisV>, PState), SyntaxErrorV> {
    let n = b.len() as int;
    if at_keyword_s(ts, b, st, "Assume"@) {
        match section_open_s(ts, b, bump(ts, n, st)) {
            Err(e) => Err(e),
            Ok(s1) => match hyps_s(ts, b, s1, Seq::empty()) {
                Err(e) => Err(e),
                Ok((h, s2)) => match expect_s(ts, b, s2, TokenKind::Dedent) {
                    Err(e) => Err(e),
                    Ok((_, s3)) => Ok((h, skip_newlines(ts, n, s3))),
                },
            },
        }
    } else {
        Ok((Seq::empty(), st))
    }
}

/// The keyword and payload of a proof step.
pub open spec fn parse_proof_step_kind_s(ts: Seq<Token>, b: Seq<u8>, st: PState) -> Result<(ProofStepKindV, PState), SyntaxErrorV> {
    let n = b.len() as int;
    let s1 = bump(ts, n, st);
    if at_keyword_s(ts, b, st, "Let"@) {
        match expect_binding_ident_s(ts, b, s1, "a step binding name"@) {
            Err(e) => Err(e),
            Ok(((name, name_span), s2)) => {
                let ty = if peek_tok(ts, n, s2).kind == TokenKind::Colon {
                    match parse_expr_s(ts, b, bump(ts, n, s2)) {
                        Err(e) => Err(e),
                        Ok((t, s3)) => Ok((Some(t), s3)),
                    }
                } else {
                    Ok((None, s2))
                };
                match ty {
                    Err(e) => Err(e),
                    Ok((ty, s3)) => match expect_s(ts, b, s3, TokenKind::Eq) {
                        Err(e) => Err(e),
                        Ok((_, s4)) => match parse_expr_s(ts, b, s4) {
                            Err(e) => Err(e),
                            Ok((value, s5)) => Ok((ProofStepKindV::Let { name, name_span, ty, value }, s5)),
                        },
                    },
                }
            },
        }
    } else if at_keyword_s(ts, b, st, "Have"@) {
        match expect_binding_ident_s(ts, b, s1, "a step binding name"@) {
            Err(e) => Err(e),
            Ok(((name, name_span), s2)) => match expect_s(ts, b, s2, TokenKind::Colon) {
                Err(e) => Err(e),
                Ok((_, s3)) => match parse_expr_s(ts, b, s3) {
                    Err(e) => Err(e),
                    Ok((ty, s4)) => match expect_s(ts, b, s4, TokenKind::Eq) {
                        Err(e) => Err(e),
                        Ok((_, s5)) => match parse_expr_s(ts, b, s5) {
                            Err(e) => Err(e),
                            Ok((proof, s6)) => Ok((ProofStepKindV::Have { name, name_span, ty, proof }, s6)),
                        },
                    },
                },
            },
        }
    } else if at_keyword_s(ts, b, st, "Exact"@) {
        match parse_expr_s(ts, b, s1) {
            Err(e) => Err(e),
            Ok((term, s2)) => Ok((ProofStepKindV::Exact { term }, s2)),
        }
    } else if at_keyword_s(ts, b, st, "From"@) {
        match expect_binding_ident_s(ts, b, s1, "a hypothesis name"@) {
            Err(e) => Err(e),
            Ok(((name, name_span), s2)) => Ok((ProofStepKindV::From { name, name_span }, s2)),
        }
    } else {
        Err(
            err_here(
                ts,
                n,
                st,
                ErrorKind::UnexpectedToken,
                "expected `Let`, `Have`, `Exact`, or `From` at the start of a proof step"@,
            ),
        )
    }
}

/// Scan a justification from `st` with `depth` brackets open: the start of
/// the closing bracket and the state after it.
pub open spec fn just_scan_s(ts: Seq<Token>, b: Seq<u8>, st: PState, depth: nat, open: Span) -> Result<(int, PState), SyntaxErrorV>
    decreases ts.len() - st.pos,
{
    let n = b.len() as int;
    let t = peek_tok(ts, n, st);
    let s1 = bump(ts, n, st);
    if t.kind == TokenKind::Eof {
        Err(err(open, ErrorKind::UnexpectedEof, "unterminated `[justification]`"@))
    } else if !advanced(ts, st, s1) {
        Err(stuck())
    } else if t.kind == TokenKind::LBracket {
        just_scan_s(ts, b, s1, depth + 1, open)
    } else if t.kind == TokenKind::RBracket {
        if depth <= 1 {
            Ok((t.span.start as int, s1))
        } else {
            just_scan_s(ts, b, s1, (depth - 1) as nat, open)
        }
    } else {
        just_scan_s(ts, b, s1, depth, open)
    }
}

/// A character that Unicode classes as white space.
pub open spec fn is_white_space(c: char) -> bool {
    let x = c as u32;
    ||| x == 32
    ||| 9 <= x <= 13
    ||| x == 0x85
    ||| x == 0xA0
    ||| x == 0x1680
    ||| 0x2000 <= x <= 0x200A
    ||| x == 0x2028
    ||| x == 0x2029
    ||| x == 0x202F
    ||| x == 0x205F
    ||| x == 0x3000
}

/// The first position at or after `i` whose character is not white space.
pub open spec fn trim_start_from(cs: Seq<char>, i: int) -> int
    decreases cs.len() - i,
{
    if 0 <= i < cs.len() && is_white_space(cs[i]) {
        trim_start_from(cs, i + 1)
    } else {
        i
    }
}

/// The end of `cs[lo..j]` without its trailing white space.
pub open spec fn trim_end_from(cs: Seq<char>, lo: int, j: int) -> int
    decreases j,
{
    if 0 <= lo < j <= cs.len() && is_white_space(cs[j - 1]) {
        trim_end_from(cs, lo, j - 1)
    } else {
        j
    }
}

/// `cs` without leading and trailing white space.
pub open spec fn trim_ws(cs: Seq<char>) -> Seq<char> {
    let lo = trim_start_from(cs, 0);
    cs.subrange(lo, trim_end_from(cs, lo, cs.len() as int))
}

/// `[ text ]`: the text between the brackets, trimmed; brackets nest.
pub open spec fn parse_justification_s(ts: Seq<Token>, b: Seq<u8>, st: PState) -> Result<(Seq<char>, PState), SyntaxErrorV> {
    match expect_s(ts, b, st, TokenKind::LBracket) {
        Err(e) => Err(e),
        Ok((open, s1)) => match just_scan_s(ts, b, s1, 1, open.span) {
            Err(e) => Err(e),
            Ok((end, s2)) => {
                let start = open.span.end as int;
                if start <= end && valid_utf8(b.subrange(start, end)) {
                    Ok((trim_ws(decode_utf8(b.subrange(start, end))), s2))
                } else {
                    Err(err(open.span, ErrorKind::InvalidString, "malformed justification text"@))
                }
            },
        },
    }
}

/// `N. kind [justification]` and the end of its line.
pub open spec fn parse_proof_step_s(ts: Seq<Token>, b: Seq<u8>, st: PState) -> Result<(ProofStepV, PState), SyntaxErrorV> {
    let n = b.len() as int;
    let t = peek_tok(ts, n, st);
    let v = digits_value(b.subrange(t.span.start as int, t.span.end as int));
    if v > u32::MAX {
        Err(err(t.span, ErrorKind::InvalidLiteral, "step number out of range"@))
    } else {
        match expect_s(ts, b, bump(ts, n, st), TokenKind::Dot) {
            Err(e) => Err(e),
            Ok((_, s2)) => match parse_proof_step_kind_s(ts, b, s2) {
                Err(e) => Err(e),
                Ok((kind, s3)) => {
                    let j = if peek_tok(ts, n, s3).kind == TokenKind::LBracket {
                        match parse_justification_s(ts, b, s3) {
                            Err(e) => Err(e),
                            Ok((text, s4)) => Ok((Some(text), s4)),
                        }
                    } else {
                        Ok((None, s3))
                    };
                    match j {
                        Err(e) => Err(e),
                        Ok((justification, s4)) => match expect_s(ts, b, s4, TokenKind::Newline) {
                            Err(e) => Err(e),
                            Ok((nl, s5)) => Ok(
                                (
                                    ProofStepV {
                                        number: v as u32,
                                        number_span: t.span,
                                        kind,
                                        justification,
                                        span: Span { start: t.span.start, end: nl.span.end },
                                    },
                                    s5,
                                ),
                            ),
                        },
                    }
                },
            },
        }
    }
}

/// The numbered steps of a proof, after the ones in `acc`; the next must be
/// numbered `expected`.
pub open spec fn steps_s(ts: Seq<Token>, b: Seq<u8>, st: PState, acc: Seq<ProofStepV>, expected: nat) -> Result<(Seq<ProofStepV>, PState), SyntaxErrorV>
    decreases ts.len() - st.pos,
{
    let n = b.len() as int;
    let s0 = skip_newlines(ts, n, st);
    let k = peek_tok(ts, n, s0).kind;
    if k == TokenKind::Dedent || k == TokenKind::Eof {
        Ok((acc, s0))
    } else if k == TokenKind::Nat {
        match parse_proof_step_s(ts, b, s0) {
            Err(e) => Err(e),
            Ok((step, s1)) => if step.number != expected {
                Err(
                    err(
                        step.number_span,
                        ErrorKind::UnexpectedToken,
                        "expected step number "@ + decimal(expected) + ", found "@ + decimal(step.number as nat),
                    ),
                )
            } else if !advanced(ts, st, s1) {
                Err(stuck())
            } else {
                steps_s(ts, b, s1, acc.push(step), expected + 1)
            },
        }
    } else {
        Err(
            err_here(
                ts,
                n,
                s0,
                ErrorKind::UnexpectedToken,
                "expected a numbered proof step (`N. Let …` / `N. Have …` / `N. Exact …`)"@,
            ),
        )
    }
}

/// The indented block of numbered steps after `Proof:`.
pub open spec fn parse_proof_steps_s(ts: Seq<Token>, b: Seq<u8>, st: PState) -> Result<(ProofBlockV, PState), SyntaxErrorV> {
    let n = b.len() as int;
    if peek_tok(ts, n, st).kind != TokenKind::Indent {
        Err(
            err_here(
                ts,
                n,
                st,
                ErrorKind::UnexpectedToken,
                "expected an indented block of numbered proof steps after `Proof:`"@,
            ),
        )
    } else {
        match steps_s(ts, b, bump(ts, n, st), Seq::empty(), 1) {
            Err(e) => Err(e),
            Ok((steps, s1)) => if steps.len() == 0 {
                Err(err_here(ts, n, s1, ErrorKind::UnexpectedToken, "a `Proof:` block must contain at least one step"@))
            } else {
                match expect_s(ts, b, skip_newlines(ts, n, s1), TokenKind::Dedent) {
                    Err(e) => Err(e),
                    Ok((_, s2)) => Ok((ProofBlockV::Steps(steps), s2)),
                }
            },
        }
    }
}

/// `Proof:` and either a one-line term or a block of steps.
pub open spec fn proof_part_s(ts: Seq<Token>, b: Seq<u8>, st: PState) -> Result<(ProofBlockV, PState), SyntaxErrorV> {
    let n = b.len() as int;
    match expect_keyword_s(ts, b, st, "Proof"@) {
        Err(e) => Err(e),
        Ok((_, s1)) => match expect_s(ts, b, s1, TokenKind::Colon) {
            Err(e) => Err(e),
            Ok((_, s2)) => if peek_tok(ts, n, s2).kind == TokenKind::Newline {
                parse_proof_steps_s(ts, b, bump(ts, n, s2))
            } else {
                match parse_expr_s(ts, b, s2) {
                    Err(e) => Err(e),
                    Ok((e, s3)) => match expect_s(ts, b, s3, TokenKind::Newline) {
                        Err(x) => Err(x),
                        Ok((_, s4)) => Ok((ProofBlockV::Term(e), s4)),
                    },
                }
            },
        },
    }
}

/// `Show: goal`, the proof, `QED` and the dedent: the goal, the proof,
/// the end of the `QED` line and the state after the dedent.
pub open spec fn theorem_body_s(ts: Seq<Token>, b: Seq<u8>, st: PState) -> Result<((ExprV, ProofBlockV, u32), PState), SyntaxErrorV> {
    let n = b.len() as int;
    match expect_keyword_s(ts, b, st, "Show"@) {
        Err(e) => Err(e),
        Ok((_, s1)) => match expect_s(ts, b, s1, TokenKind::Colon) {
            Err(e) => Err(e),
            Ok((_, s2)) => match parse_expr_s(ts, b, s2) {
                Err(e) => Err(e),
                Ok((show, s3)) => match expect_s(ts, b, s3, TokenKind::Newline) {
                    Err(e) => Err(e),
                    Ok((_, s4)) => match proof_part_s(ts, b, s4) {
                        Err(e) => Err(e),
                        Ok((proof, s5)) => match expect_keyword_s(ts, b, s5, "QED"@) {
                            Err(e) => Err(e),
                            Ok((_, s6)) => match expect_s(ts, b, s6, TokenKind::Newline) {
                                Err(e) => Err(e),
                                Ok((nl, s7)) => match expect_s(ts, b, skip_newlines(ts, n, s7), TokenKind::Dedent) {
                                    Err(e) => Err(e),
                                    Ok((_, s8)) => Ok(((show, proof, nl.span.end), s8)),
                                },
                            },
                        },
                    },
                },
            },
        },
    }
}

/// `Theorem name:` and its indented sections.
pub open spec fn parse_theorem_def_s(ts: Seq<Token>, b: Seq<u8>, st: PState) -> Result<(TheoremDefV, PState), SyntaxErrorV> {
    let n = b.len() as int;
    match expect_keyword_s(ts, b, st, "Theorem"@) {
        Err(e) => Err(e),
        Ok((kw, s1)) => match expect_binding_ident_s(ts, b, s1, "a theorem name"@) {
            Err(e) => Err(e),
            Ok(((name, name_span), s2)) => match section_open_s(ts, b, s2) {
                Err(e) => Err(e),
                Ok(s3) => match given_section_s(ts, b, skip_newlines(ts, n, s3)) {
                    Err(e) => Err(e),
                    Ok((given, s4)) => match assume_section_s(ts, b, skip_newlines(ts, n, s4)) {
                        Err(e) => Err(e),
                        Ok((hypotheses, s5)) => match theorem_body_s(ts, b, skip_newlines(ts, n, s5)) {
                            Err(e) => Err(e),
                            Ok(((show, proof, end), s6)) => Ok(
                                (
                                    TheoremDefV {
                                        name,
                                        name_span,
                                        given,
                                        hypotheses,
                                        show,
                                        proof,
                                        span: covering(kw.span, Span { start: end, end }),
                                    },
                                    s6,
                                ),
                            ),
                        },
                    },
                },
            },
        },
    }
}

/// The top-level declarations from `st` on, after the ones collected so
/// far, up to the end of the input.
pub open spec fn module_items_s(
    ts: Seq<Token>,
    b: Seq<u8>,
    st: PState,
    decl: Option<ModuleDeclV>,
    imports: Seq<ImportDeclV>,
    structures: Seq<StructureDefV>,
    functions: Seq<FunctionDefV>,
    theorems: Seq<TheoremDefV>,
) -> Result<ModuleV, SyntaxErrorV>
    decreases ts.len() - st.pos,
{
    let n = b.len() as int;
    let t = peek_tok(ts, n, st);
    if t.kind == TokenKind::Eof {
        Ok(ModuleV { decl, imports, structures, functions, theorems, span: Span { start: 0, end: n as u32 } })
    } else if t.kind == TokenKind::Newline {
        let s1 = bump(ts, n, st);
        if !advanced(ts, st, s1) {
            Err(stuck())
        } else {
            module_items_s(ts, b, s1, decl, imports, structures, functions, theorems)
        }
    } else if at_keyword_s(ts, b, st, "Module"@) {
        if decl is Some {
            Err(err_here(ts, n, st, ErrorKind::UnexpectedToken, "duplicate Module declaration"@))
        } else {
            match parse_module_decl_s(ts, b, st) {
                Err(e) => Err(e),
                Ok((d, s1)) => if !advanced(ts, st, s1) {
                    Err(stuck())
                } else {
                    module_items_s(ts, b, s1, Some(d), imports, structures, functions, theorems)
                },
            }
        }
    } else if at_keyword_s(ts, b, st, "Import"@) {
        match parse_import_decl_s(ts, b, st) {
            Err(e) => Err(e),
            Ok((d, s1)) => if !advanced(ts, st, s1) {
                Err(stuck())
            } else {
                module_items_s(ts, b, s1, decl, imports.push(d), structures, functions, theorems)
            },
        }
    } else if at_keyword_s(ts, b, st, "Structure"@) {
        match parse_structure_def_s(ts, b, st) {
            Err(e) => Err(e),
            Ok((d, s1)) => if !advanced(ts, st, s1) {
                Err(stuck())
            } else {
                module_items_s(ts, b, s1, decl, imports, structures.push(d), functions, theorems)
            },
        }
    } else if at_keyword_s(ts, b, st, "Function"@) {
        match parse_function_def_s(ts, b, st) {
            Err(e) => Err(e),
            Ok((d, s1)) => if !advanced(ts, st, s1) {
                Err(stuck())
            } else {
                module_items_s(ts, b, s1, decl, imports, structures, functions.push(d), theorems)
            },
        }
    } else if at_keyword_s(ts, b, st, "Theorem"@) {
        match parse_theorem_def_s(ts, b, st) {
            Err(e) => Err(e),
            Ok((d, s1)) => if !advanced(ts, st, s1) {
                Err(stuck())
            } else {
                module_items_s(ts, b, s1, decl, imports, structures, functions, theorems.push(d))
            },
        }
    } else if t.kind == TokenKind::Ident {
        let text = span_text(b, t.span);
        Err(
            err(
                t.span,
                ErrorKind::NotImplemented,
                "`"@ + text
                    + "` is not yet implemented (only Module, Import, Structure, Function, and Theorem are supported in this delivery)"@,
            ),
        )
    } else {
        Err(
            err_here(
                ts,
                n,
                st,
                ErrorKind::UnexpectedToken,
                "expected a top-level Module, Import, Structure, Function, or Theorem declaration"@,
            ),
        )
    }
}

/// The module that the source bytes `b` parse to, or the first error.
pub open spec fn module_s(b: Seq<u8>) -> Result<ModuleV, SyntaxErrorV> {
    match lexed(b) {
        Err(e) => Err(e),
        Ok(ts) => module_items_s(
            ts,
            b,
            PState { pos: 0, prev: span_of(0, 0) },
            None,
            Seq::empty(),
            Seq::empty(),
            Seq::empty(),
            Seq::empty(),
        ),
    }
}

impl<'a> Parser<'a> {    fn parse_param(&mut self) -> (r: Result<Param, SyntaxError>)
        requires
            old(self).ready(),
        ensures
            final(self).ready(),
            final(self).same_input(*old(self)),
            match parse_param_s(old(self).toks(), old(self).bytes(), old(self).st()) {
                Ok((v, s2)) => r is Ok && param_view(r->Ok_0) == v && final(self).st() == s2,
                Err(e) => r is Err && r->Err_0@ == e,
            },
            r is Ok ==> old(self).st().pos < final(self).st().pos,
    {
        let (name, name_span) = match self.expect_binding_ident("a parameter name") {
            Ok(x) => x,
            Err(e) => {
                return Err(e);
            },
        };
        let _ = match self.expect(TokenKind::Colon) {
            Ok(x) => x,
            Err(e) => {
                return Err(e);
            },
        };
        let ty = match self.parse_expr() {
            Ok(x) => x,
            Err(e) => {
                return Err(e);
            },
        };
        let span = Span::covering(name_span, self.prev_span);
        Ok(Param { name, name_span, ty, span })
    }
    fn params_list(&mut self, acc: Vec<Param>) -> (r: Result<Vec<Param>, SyntaxError>)
        requires
            old(self).ready(),
        ensures
            final(self).ready(),
            final(self).same_input(*old(self)),
            match params_list_s(old(self).toks(), old(self).bytes(), old(self).st(), param_seq_view(acc@)) {
                Ok((v, s2)) => r is Ok && param_seq_view(r->Ok_0@) == v && final(self).st() == s2,
                Err(e) => r is Err && r->Err_0@ == e,
            },
            r is Ok ==> old(self).st().pos <= final(self).st().pos,
        decreases old(self).tokens@.len() - old(self).pos,
    {
        let p = match self.parse_param() {
            Ok(x) => x,
            Err(e) => {
                return Err(e);
            },
        };
        let mut acc = acc;
        proof {
            lemma_param_seq_push(acc@, p);
        }
        acc.push(p);
        if self.peek() == TokenKind::Comma {
            self.advance();
            self.params_list(acc)
        } else {
            Ok(acc)
        }
    }
    fn paren_params(&mut self) -> (r: Result<Vec<Param>, SyntaxError>)
        requires
            old(self).ready(),
        ensures
            final(self).ready(),
            final(self).same_input(*old(self)),
            match paren_params_s(old(self).toks(), old(self).bytes(), old(self).st()) {
                Ok((v, s2)) => r is Ok && param_seq_view(r->Ok_0@) == v && final(self).st() == s2,
                Err(e) => r is Err && r->Err_0@ == e,
            },
            r is Ok ==> old(self).st().pos <= final(self).st().pos,
    {
        let _ = match self.expect(TokenKind::LParen) {
            Ok(x) => x,
            Err(e) => {
                return Err(e);
            },
        };
        let empty: Vec<Param> = Vec::new();
        assert(param_seq_view(empty@) =~= Seq::<ParamV>::empty());
        let params = if self.peek() != TokenKind::RParen {
            match self.params_list(empty) {
                Ok(x) => x,
                Err(e) => {
                    return Err(e);
                },
            }
        } else {
            empty
        };
        let _ = match self.expect(TokenKind::RParen) {
            Ok(x) => x,
            Err(e) => {
                return Err(e);
            },
        };
        Ok(params)
    }
    fn path_rest(&mut self, segs: Vec<PathSegment>, full: Span) -> (r: Result<Path, SyntaxError>)
        requires
            old(self).ready(),
        ensures
            final(self).ready(),
            final(self).same_input(*old(self)),
            match path_rest_s(old(self).toks(), old(self).bytes(), old(self).st(), path_segment_seq_view(segs@), full) {
                Ok((v, s2)) => r is Ok && path_view(r->Ok_0) == v && final(self).st() == s2,
                Err(e) => r is Err && r->Err_0@ == e,
            },
            r is Ok ==> old(self).st().pos <= final(self).st().pos,
        decreases old(self).tokens@.len() - old(self).pos,
    {
        if self.peek() == TokenKind::Dot {
            self.advance();
            let (text, span) = match self.expect_ident() {
                Ok(x) => x,
                Err(e) => {
                    return Err(e);
                },
            };
            let seg = PathSegment { text, span };
            let mut segs = segs;
            proof {
                lemma_path_segment_seq_push(segs@, seg);
            }
            segs.push(seg);
            self.path_rest(segs, Span::covering(full, span))
        } else {
            Ok(Path { segments: segs, span: full })
        }
    }
    fn parse_path(&mut self) -> (r: Result<Path, SyntaxError>)
        requires
            old(self).ready(),
        ensures
            final(self).ready(),
            final(self).same_input(*old(self)),
            match parse_path_s(old(self).toks(), old(self).bytes(), old(self).st()) {
                Ok((v, s2)) => r is Ok && path_view(r->Ok_0) == v && final(self).st() == s2,
                Err(e) => r is Err && r->Err_0@ == e,
            },
            r is Ok ==> old(self).st().pos <= final(self).st().pos,
    {
        let (text, span) = match self.expect_ident() {
            Ok(x) => x,
            Err(e) => {
                return Err(e);
            },
        };
        let seg = PathSegment { text, span };
        let mut segs: Vec<PathSegment> = Vec::new();
        assert(path_segment_seq_view(segs@) =~= Seq::<PathSegmentV>::empty());
        proof {
            lemma_path_segment_seq_push(segs@, seg);
        }
        segs.push(seg);
        assert(path_segment_seq_view(segs@) =~= seq![path_segment_view(seg)]);
        self.path_rest(segs, span)
    }
    fn parse_module_decl(&mut self) -> (r: Result<ModuleDecl, SyntaxError>)
        requires
            old(self).ready(),
        ensures
            final(self).ready(),
            final(self).same_input(*old(self)),
            match parse_module_decl_s(old(self).toks(), old(self).bytes(), old(self).st()) {
                Ok((v, s2)) => r is Ok && module_decl_view(r->Ok_0) == v && final(self).st() == s2,
                Err(e) => r is Err && r->Err_0@ == e,
            },
            r is Ok ==> old(self).st().pos < final(self).st().pos,
    {
        let kw = match self.expect_keyword("Module") {
            Ok(x) => x,
            Err(e) => {
                return Err(e);
            },
        };
        let path = match self.parse_path() {
            Ok(x) => x,
            Err(e) => {
                return Err(e);
            },
        };
        let _ = match self.expect(TokenKind::Newline) {
            Ok(x) => x,
            Err(e) => {
                return Err(e);
            },
        };
        let span = Span::covering(kw.span, self.prev_span);
        Ok(ModuleDecl { path, span })
    }
    fn import_names(&mut self, acc: Vec<ImportName>) -> (r: Result<Vec<ImportName>, SyntaxError>)
        requires
            old(self).ready(),
        ensures
            final(self).ready(),
            final(self).same_input(*old(self)),
            match import_names_s(old(self).toks(), old(self).bytes(), old(self).st(), import_name_seq_view(acc@)) {
                Ok((v, s2)) => r is Ok && import_name_seq_view(r->Ok_0@) == v && final(self).st() == s2,
                Err(e) => r is Err && r->Err_0@ == e,
            },
            r is Ok ==> old(self).st().pos <= final(self).st().pos,
        decreases old(self).tokens@.len() - old(self).pos,
    {
        let (text, span) = match self.expect_ident() {
            Ok(x) => x,
            Err(e) => {
                return Err(e);
            },
        };
        let nm = ImportName { text, span };
        let mut acc = acc;
        proof {
            lemma_import_name_seq_push(acc@, nm);
        }
        acc.push(nm);
        if self.peek() == TokenKind::Comma {
            self.advance();
            self.import_names(acc)
        } else {
            Ok(acc)
        }
    }
    fn import_list(&mut self) -> (r: Result<Option<Vec<ImportName>>, SyntaxError>)
        requires
            old(self).ready(),
        ensures
            final(self).ready(),
            final(self).same_input(*old(self)),
            match import_list_s(old(self).toks(), old(self).bytes(), old(self).st()) {
                Ok((v, s2)) => r is Ok && import_names_opt_view(r->Ok_0) == v && final(self).st() == s2,
                Err(e) => r is Err && r->Err_0@ == e,
            },
            r is Ok ==> old(self).st().pos <= final(self).st().pos,
    {
        if self.peek() == TokenKind::LParen {
            self.advance();
            let empty: Vec<ImportName> = Vec::new();
            assert(import_name_seq_view(empty@) =~= Seq::<ImportNameV>::empty());
            let list = if self.peek() != TokenKind::RParen {
                match self.import_names(empty) {
                    Ok(x) => x,
                    Err(e) => {
                        return Err(e);
                    },
                }
            } else {
                empty
            };
            let _ = match self.expect(TokenKind::RParen) {
                Ok(x) => x,
                Err(e) => {
                    return Err(e);
                },
            };
            Ok(Some(list))
        } else {
            Ok(None)
        }
    }
    fn parse_import_decl(&mut self) -> (r: Result<ImportDecl, SyntaxError>)
        requires
            old(self).ready(),
        ensures
            final(self).ready(),
            final(self).same_input(*old(self)),
            match parse_import_decl_s(old(self).toks(), old(self).bytes(), old(self).st()) {
                Ok((v, s2)) => r is Ok && import_decl_view(r->Ok_0) == v && final(self).st() == s2,
                Err(e) => r is Err && r->Err_0@ == e,
            },
            r is Ok ==> old(self).st().pos < final(self).st().pos,
    {
        let kw = match self.expect_keyword("Import") {
            Ok(x) => x,
            Err(e) => {
                return Err(e);
            },
        };
        let path = match self.parse_path() {
            Ok(x) => x,
            Err(e) => {
                return Err(e);
            },
        };
        let names = match self.import_list() {
            Ok(x) => x,
            Err(e) => {
                return Err(e);
            },
        };
        let _ = match self.expect(TokenKind::Newline) {
            Ok(x) => x,
            Err(e) => {
                return Err(e);
            },
        };
        let span = Span::covering(kw.span, self.prev_span);
        Ok(ImportDecl { path, names, span })
    }
    fn stmt_end(&mut self) -> (r: Result<(), SyntaxError>)
        requires
            old(self).ready(),
        ensures
            final(self).ready(),
            final(self).same_input(*old(self)),
            match stmt_end_s(old(self).toks(), old(self).bytes(), old(self).st()) {
                Ok(s2) => r is Ok && final(self).st() == s2,
                Err(e) => r is Err && r->Err_0@ == e,
            },
            r is Ok ==> old(self).st().pos <= final(self).st().pos,
        decreases old(self).tokens@.len() - old(self).pos,
    {
        let k = self.peek();
        if k == TokenKind::Newline {
            self.advance();
            self.stmt_end()
        } else if k == TokenKind::Dedent {
            Ok(())
        } else {
            Err(self.err_here(ErrorKind::UnexpectedToken, string_of("expected Newline")))
        }
    }
    fn parse_stmt(&mut self) -> (r: Result<Stmt, SyntaxError>)
        requires
            old(self).ready(),
        ensures
            final(self).ready(),
            final(self).same_input(*old(self)),
            match parse_stmt_s(old(self).toks(), old(self).bytes(), old(self).st()) {
                Ok((v, s2)) => r is Ok && stmt_view(r->Ok_0) == v && final(self).st() == s2,
                Err(e) => r is Err && r->Err_0@ == e,
            },
            r is Ok ==> old(self).st().pos < final(self).st().pos,
    {
        let kw = match self.expect_keyword("return") {
            Ok(x) => x,
            Err(e) => {
                return Err(e);
            },
        };
        let value = match self.parse_expr() {
            Ok(x) => x,
            Err(e) => {
                return Err(e);
            },
        };
        let _ = match self.stmt_end() {
            Ok(x) => x,
            Err(e) => {
                return Err(e);
            },
        };
        let span = Span::covering(kw.span, self.prev_span);
        Ok(Stmt::Return { value, span })
    }
    fn parse_let_stmt(&mut self) -> (r: Result<Stmt, SyntaxError>)
        requires
            old(self).ready(),
        ensures
            final(self).ready(),
            final(self).same_input(*old(self)),
            match parse_let_stmt_s(old(self).toks(), old(self).bytes(), old(self).st()) {
                Ok((v, s2)) => r is Ok && stmt_view(r->Ok_0) == v && final(self).st() == s2,
                Err(e) => r is Err && r->Err_0@ == e,
            },
            r is Ok ==> old(self).st().pos < final(self).st().pos,
    {
        let kw = match self.expect_keyword("let") {
            Ok(x) => x,
            Err(e) => {
                return Err(e);
            },
        };
        let (name, name_span) = match self.expect_binding_ident("a let binding name") {
            Ok(x) => x,
            Err(e) => {
                return Err(e);
            },
        };
        let _ = match self.expect(TokenKind::Colon) {
            Ok(x) => x,
            Err(e) => {
                return Err(e);
            },
        };
        let ty = match self.parse_expr() {
            Ok(x) => x,
            Err(e) => {
                return Err(e);
            },
        };
        let _ = match self.expect(TokenKind::Eq) {
            Ok(x) => x,
            Err(e) => {
                return Err(e);
            },
        };
        let value = match self.parse_expr() {
            Ok(x) => x,
            Err(e) => {
                return Err(e);
            },
        };
        self.skip_newlines();
        let span = Span::covering(kw.span, self.prev_span);
        Ok(Stmt::Let { name, name_span, ty, value, span })
    }
    fn body_lets(&mut self, acc: Vec<Stmt>) -> (r: Result<Vec<Stmt>, SyntaxError>)
        requires
            old(self).ready(),
        ensures
            final(self).ready(),
            final(self).same_input(*old(self)),
            match body_lets_s(old(self).toks(), old(self).bytes(), old(self).st(), stmt_seq_view(acc@)) {
                Ok((v, s2)) => r is Ok && stmt_seq_view(r->Ok_0@) == v && final(self).st() == s2,
                Err(e) => r is Err && r->Err_0@ == e,
            },
            r is Ok ==> old(self).st().pos <= final(self).st().pos,
        decreases old(self).tokens@.len() - old(self).pos,
    {
        let k = self.peek();
        if k == TokenKind::Dedent || k == TokenKind::Eof {
            Ok(acc)
        } else if k == TokenKind::Newline {
            self.advance();
            self.body_lets(acc)
        } else if self.at_keyword("let") {
            let s = match self.parse_let_stmt() {
                Ok(x) => x,
                Err(e) => {
                    return Err(e);
                },
            };
            let mut acc = acc;
            proof {
                lemma_stmt_seq_push(acc@, s);
            }
            acc.push(s);
            self.body_lets(acc)
        } else {
            Ok(acc)
        }
    }
    fn function_body(&mut self) -> (r: Result<Vec<Stmt>, SyntaxError>)
        requires
            old(self).ready(),
        ensures
            final(self).ready(),
            final(self).same_input(*old(self)),
            match function_body_s(old(self).toks(), old(self).bytes(), old(self).st()) {
                Ok((v, s2)) => r is Ok && stmt_seq_view(r->Ok_0@) == v && final(self).st() == s2,
                Err(e) => r is Err && r->Err_0@ == e,
            },
            r is Ok ==> old(self).st().pos <= final(self).st().pos,
    {
        let empty: Vec<Stmt> = Vec::new();
        assert(stmt_seq_view(empty@) =~= Seq::<StmtV>::empty());
        let lets = match self.body_lets(empty) {
            Ok(x) => x,
            Err(e) => {
                return Err(e);
            },
        };
        let k = self.peek();
        if k == TokenKind::Dedent || k == TokenKind::Eof {
            return Err(self.err_here(ErrorKind::UnexpectedToken, string_of("expected `return`")));
        }
        let ret = match self.parse_stmt() {
            Ok(x) => x,
            Err(e) => {
                return Err(e);
            },
        };
        self.skip_newlines();
        let _ = match self.expect(TokenKind::Dedent) {
            Ok(x) => x,
            Err(e) => {
                return Err(e);
            },
        };
        let mut body = lets;
        proof {
            lemma_stmt_seq_push(body@, ret);
        }
        body.push(ret);
        Ok(body)
    }
    fn return_ty(&mut self) -> (r: Result<Option<Expr>, SyntaxError>)
        requires
            old(self).ready(),
        ensures
            final(self).ready(),
            final(self).same_input(*old(self)),
            match return_ty_s(old(self).toks(), old(self).bytes(), old(self).st()) {
                Ok((v, s2)) => r is Ok && expr_opt_view(r->Ok_0) == v && final(self).st() == s2,
                Err(e) => r is Err && r->Err_0@ == e,
            },
            r is Ok ==> old(self).st().pos <= final(self).st().pos,
    {
        if self.peek() == TokenKind::Arrow {
            self.advance();
            let t = match self.parse_expr() {
                Ok(x) => x,
                Err(e) => {
                    return Err(e);
                },
            };
            Ok(Some(t))
        } else {
            Ok(None)
        }
    }
    fn parse_function_def(&mut self) -> (r: Result<FunctionDef, SyntaxError>)
        requires
            old(self).ready(),
        ensures
            final(self).ready(),
            final(self).same_input(*old(self)),
            match parse_function_def_s(old(self).toks(), old(self).bytes(), old(self).st()) {
                Ok((v, s2)) => r is Ok && function_def_view(r->Ok_0) == v && final(self).st() == s2,
                Err(e) => r is Err && r->Err_0@ == e,
            },
            r is Ok ==> old(self).st().pos < final(self).st().pos,
    {
        let kw = match self.expect_keyword("Function") {
            Ok(x) => x,
            Err(e) => {
                return Err(e);
            },
        };
        let (name, name_span) = match self.expect_binding_ident("a function name") {
            Ok(x) => x,
            Err(e) => {
                return Err(e);
            },
        };
        let params = match self.paren_params() {
            Ok(x) => x,
            Err(e) => {
                return Err(e);
            },
        };
        let return_ty = match self.return_ty() {
            Ok(x) => x,
            Err(e) => {
                return Err(e);
            },
        };
        let _ = match self.expect(TokenKind::Colon) {
            Ok(x) => x,
            Err(e) => {
                return Err(e);
            },
        };
        let _ = match self.expect(TokenKind::Newline) {
            Ok(x) => x,
            Err(e) => {
                return Err(e);
            },
        };
        if self.peek() != TokenKind::Indent {
            return Err(self.err_here(ErrorKind::UnexpectedToken, string_of("expected an indented block after `:`")));
        }
        self.advance();
        if self.peek() == TokenKind::Dedent {
            return Err(self.err_here(ErrorKind::UnexpectedToken, string_of("empty function body")));
        }
        let body = match self.function_body() {
            Ok(x) => x,
            Err(e) => {
                return Err(e);
            },
        };
        let span = Span::covering(kw.span, self.prev_span);
        Ok(FunctionDef { name, name_span, params, return_ty, body, span })
    }
    fn parse_field_def(&mut self) -> (r: Result<FieldDef, SyntaxError>)
        requires
            old(self).ready(),
        ensures
            final(self).ready(),
            final(self).same_input(*old(self)),
            match parse_field_def_s(old(self).toks(), old(self).bytes(), old(self).st()) {
                Ok((v, s2)) => r is Ok && field_def_view(r->Ok_0) == v && final(self).st() == s2,
                Err(e) => r is Err && r->Err_0@ == e,
            },
            r is Ok ==> old(self).st().pos < final(self).st().pos,
    {
        let (name, name_span) = match self.expect_binding_ident("a field name") {
            Ok(x) => x,
            Err(e) => {
                return Err(e);
            },
        };
        let _ = match self.expect(TokenKind::Colon) {
            Ok(x) => x,
            Err(e) => {
                return Err(e);
            },
        };
        let ty = match self.parse_expr() {
            Ok(x) => x,
            Err(e) => {
                return Err(e);
            },
        };
        let nl = match self.expect(TokenKind::Newline) {
            Ok(x) => x,
            Err(e) => {
                return Err(e);
            },
        };
        Ok(FieldDef { name, name_span, ty, span: Span::new(name_span.start, nl.span.end) })
    }
    fn parse_hypothesis(&mut self) -> (r: Result<Hypothesis, SyntaxError>)
        requires
            old(self).ready(),
        ensures
            final(self).ready(),
            final(self).same_input(*old(self)),
            match parse_hypothesis_s(old(self).toks(), old(self).bytes(), old(self).st()) {
                Ok((v, s2)) => r is Ok && hypothesis_view(r->Ok_0) == v && final(self).st() == s2,
                Err(e) => r is Err && r->Err_0@ == e,
            },
            r is Ok ==> old(self).st().pos < final(self).st().pos,
    {
        let (name, name_span) = match self.expect_binding_ident("a hypothesis name") {
            Ok(x) => x,
            Err(e) => {
                return Err(e);
            },
        };
        let _ = match self.expect(TokenKind::Colon) {
            Ok(x) => x,
            Err(e) => {
                return Err(e);
            },
        };
        let ty = match self.parse_expr() {
            Ok(x) => x,
            Err(e) => {
                return Err(e);
            },
        };
        let nl = match self.expect(TokenKind::Newline) {
            Ok(x) => x,
            Err(e) => {
                return Err(e);
            },
        };
        Ok(Hypothesis { name, name_span, ty, span: Span::new(name_span.start, nl.span.end) })
    }
    fn fields(&mut self, acc: Vec<FieldDef>) -> (r: Result<Vec<FieldDef>, SyntaxError>)
        requires
            old(self).ready(),
        ensures
            final(self).ready(),
            final(self).same_input(*old(self)),
            match fields_s(old(self).toks(), old(self).bytes(), old(self).st(), field_def_seq_view(acc@)) {
                Ok((v, s2)) => r is Ok && field_def_seq_view(r->Ok_0@) == v && final(self).st() == s2,
                Err(e) => r is Err && r->Err_0@ == e,
            },
            r is Ok ==> old(self).st().pos <= final(self).st().pos,
        decreases old(self).tokens@.len() - old(self).pos,
    {
        self.skip_newlines();
        let k = self.peek();
        if k == TokenKind::Dedent || k == TokenKind::Eof {
            Ok(acc)
        } else if k == TokenKind::Ident {
            let x = match self.parse_field_def() {
                Ok(x) => x,
                Err(e) => {
                    return Err(e);
                },
            };
            let mut acc = acc;
            proof {
                lemma_field_def_seq_push(acc@, x);
            }
            acc.push(x);
            self.fields(acc)
        } else {
            Err(self.err_here(ErrorKind::UnexpectedToken, string_of("expected a field declaration or the end of the block")))
        }
    }
    fn given(&mut self, acc: Vec<Param>) -> (r: Result<Vec<Param>, SyntaxError>)
        requires
            old(self).ready(),
        ensures
            final(self).ready(),
            final(self).same_input(*old(self)),
            match given_s(old(self).toks(), old(self).bytes(), old(self).st(), param_seq_view(acc@)) {
                Ok((v, s2)) => r is Ok && param_seq_view(r->Ok_0@) == v && final(self).st() == s2,
                Err(e) => r is Err && r->Err_0@ == e,
            },
            r is Ok ==> old(self).st().pos <= final(self).st().pos,
        decreases old(self).tokens@.len() - old(self).pos,
    {
        self.skip_newlines();
        let k = self.peek();
        if k == TokenKind::Dedent || k == TokenKind::Eof {
            Ok(acc)
        } else if k == TokenKind::Ident {
            let x = match self.parse_param() {
                Ok(x) => x,
                Err(e) => {
                    return Err(e);
                },
            };
            let mut acc = acc;
            proof {
                lemma_param_seq_push(acc@, x);
            }
            acc.push(x);
            self.given(acc)
        } else {
            Err(self.err_here(ErrorKind::UnexpectedToken, string_of("expected a `name : type` binding in the Given block")))
        }
    }
    fn hyps(&mut self, acc: Vec<Hypothesis>) -> (r: Result<Vec<Hypothesis>, SyntaxError>)
        requires
            old(self).ready(),
        ensures
            final(self).ready(),
            final(self).same_input(*old(self)),
            match hyps_s(old(self).toks(), old(self).bytes(), old(self).st(), hypothesis_seq_view(acc@)) {
                Ok((v, s2)) => r is Ok && hypothesis_seq_view(r->Ok_0@) == v && final(self).st() == s2,
                Err(e) => r is Err && r->Err_0@ == e,
            },
            r is Ok ==> old(self).st().pos <= final(self).st().pos,
        decreases old(self).tokens@.len() - old(self).pos,
    {
        self.skip_newlines();
        let k = self.peek();
        if k == TokenKind::Dedent || k == TokenKind::Eof {
            Ok(acc)
        } else if k == TokenKind::Ident {
            let x = match self.parse_hypothesis() {
                Ok(x) => x,
                Err(e) => {
                    return Err(e);
                },
            };
            let mut acc = acc;
            proof {
                lemma_hypothesis_seq_push(acc@, x);
            }
            acc.push(x);
            self.hyps(acc)
        } else {
            Err(self.err_here(ErrorKind::UnexpectedToken, string_of("expected a `name : proposition` binding in the Assume block")))
        }
    }
    fn parse_structure_def(&mut self) -> (r: Result<StructureDef, SyntaxError>)
        requires
            old(self).ready(),
        ensures
            final(self).ready(),
            final(self).same_input(*old(self)),
            match parse_structure_def_s(old(self).toks(), old(self).bytes(), old(self).st()) {
                Ok((v, s2)) => r is Ok && structure_def_view(r->Ok_0) == v && final(self).st() == s2,
                Err(e) => r is Err && r->Err_0@ == e,
            },
            r is Ok ==> old(self).st().pos < final(self).st().pos,
    {
        let kw = match self.expect_keyword("Structure") {
            Ok(x) => x,
            Err(e) => {
                return Err(e);
            },
        };
        let (name, name_span) = match self.expect_binding_ident("a structure name") {
            Ok(x) => x,
            Err(e) => {
                return Err(e);
            },
        };
        let params = if self.peek() == TokenKind::LParen {
            match self.paren_params() {
                Ok(x) => x,
                Err(e) => {
                    return Err(e);
                },
            }
        } else {
            let empty: Vec<Param> = Vec::new();
            assert(param_seq_view(empty@) =~= Seq::<ParamV>::empty());
            empty
        };
        let _ = match self.expect(TokenKind::Colon) {
            Ok(x) => x,
            Err(e) => {
                return Err(e);
            },
        };
        let _ = match self.expect(TokenKind::Newline) {
            Ok(x) => x,
            Err(e) => {
                return Err(e);
            },
        };
        if self.peek() != TokenKind::Indent {
            return Err(
                self.err_here(
                    ErrorKind::UnexpectedToken,
                    string_of("expected an indented block of field declarations after `Structure ...:`"),
                ),
            );
        }
        self.advance();
        let empty: Vec<FieldDef> = Vec::new();
        assert(field_def_seq_view(empty@) =~= Seq::<FieldDefV>::empty());
        let fields = match self.fields(empty) {
            Ok(x) => x,
            Err(e) => {
                return Err(e);
            },
        };
        if fields.len() == 0 {
            let mut m = string_of("structure `");
            m.append(name.as_str());
            m.append("` must declare at least one field");
            return Err(SyntaxError::new(name_span, ErrorKind::UnexpectedToken, m));
        }
        self.skip_newlines();
        let _ = match self.expect(TokenKind::Dedent) {
            Ok(x) => x,
            Err(e) => {
                return Err(e);
            },
        };
        let span = Span::covering(kw.span, self.prev_span);
        Ok(StructureDef { name, name_span, params, fields, span })
    }
    fn section_open(&mut self) -> (r: Result<(), SyntaxError>)
        requires
            old(self).ready(),
        ensures
            final(self).ready(),
            final(self).same_input(*old(self)),
            match section_open_s(old(self).toks(), old(self).bytes(), old(self).st()) {
                Ok(s2) => r is Ok && final(self).st() == s2,
                Err(e) => r is Err && r->Err_0@ == e,
            },
            r is Ok ==> old(self).st().pos < final(self).st().pos,
    {
        let _ = match self.expect(TokenKind::Colon) {
            Ok(x) => x,
            Err(e) => {
                return Err(e);
            },
        };
        let _ = match self.expect(TokenKind::Newline) {
            Ok(x) => x,
            Err(e) => {
                return Err(e);
            },
        };
        let _ = match self.expect(TokenKind::Indent) {
            Ok(x) => x,
            Err(e) => {
                return Err(e);
            },
        };
        Ok(())
    }
    fn given_section(&mut self) -> (r: Result<Vec<Param>, SyntaxError>)
        requires
            old(self).ready(),
        ensures
            final(self).ready(),
            final(self).same_input(*old(self)),
            match given_section_s(old(self).toks(), old(self).bytes(), old(self).st()) {
                Ok((v, s2)) => r is Ok && param_seq_view(r->Ok_0@) == v && final(self).st() == s2,
                Err(e) => r is Err && r->Err_0@ == e,
            },
            r is Ok ==> old(self).st().pos <= final(self).st().pos,
    {
        let empty: Vec<Param> = Vec::new();
        assert(param_seq_view(empty@) =~= Seq::<ParamV>::empty());
        if self.at_keyword("Given") {
            self.advance();
            let _ = match self.section_open() {
                Ok(x) => x,
                Err(e) => {
                    return Err(e);
                },
            };
            let items = match self.given(empty) {
                Ok(x) => x,
                Err(e) => {
                    return Err(e);
                },
            };
            let _ = match self.expect(TokenKind::Dedent) {
                Ok(x) => x,
                Err(e) => {
                    return Err(e);
                },
            };
            self.skip_newlines();
            Ok(items)
        } else {
            Ok(empty)
        }
    }
    fn assume_section(&mut self) -> (r: Result<Vec<Hypothesis>, SyntaxError>)
        requires
            old(self).ready(),
        ensures
            final(self).ready(),
            final(self).same_input(*old(self)),
            match assume_section_s(old(self).toks(), old(self).bytes(), old(self).st()) {
                Ok((v, s2)) => r is Ok && hypothesis_seq_view(r->Ok_0@) == v && final(self).st() == s2,
                Err(e) => r is Err && r->Err_0@ == e,
            },
            r is Ok ==> old(self).st().pos <= final(self).st().pos,
    {
        let empty: Vec<Hypothesis> = Vec::new();
        assert(hypothesis_seq_view(empty@) =~= Seq::<HypothesisV>::empty());
        if self.at_keyword("Assume") {
            self.advance();
            let _ = match self.section_open() {
                Ok(x) => x,
                Err(e) => {
                    return Err(e);
                },
            };
            let items = match self.hyps(empty) {
                Ok(x) => x,
                Err(e) => {
                    return Err(e);
                },
            };
            let _ = match self.expect(TokenKind::Dedent) {
                Ok(x) => x,
                Err(e) => {
                    return Err(e);
                },
            };
            self.skip_newlines();
            Ok(items)
        } else {
            Ok(empty)
        }
    }
    fn parse_proof_step_kind(&mut self) -> (r: Result<ProofStepKind, SyntaxError>)
        requires
            old(self).ready(),
        ensures
            final(self).ready(),
            final(self).same_input(*old(self)),
            match parse_proof_step_kind_s(old(self).toks(), old(self).bytes(), old(self).st()) {
                Ok((v, s2)) => r is Ok && proof_step_kind_view(r->Ok_0) == v && final(self).st() == s2,
                Err(e) => r is Err && r->Err_0@ == e,
            },
            r is Ok ==> old(self).st().pos <= final(self).st().pos,
    {
        if self.at_keyword("Let") {
            self.advance();
            let (name, name_span) = match self.expect_binding_ident("a step binding name") {
                Ok(x) => x,
                Err(e) => {
                    return Err(e);
                },
            };
            let ty = if self.peek() == TokenKind::Colon {
                self.advance();
                match self.parse_expr() {
                    Ok(t) => Some(t),
                    Err(e) => {
                        return Err(e);
                    },
                }
            } else {
                None
            };
            let _ = match self.expect(TokenKind::Eq) {
                Ok(x) => x,
                Err(e) => {
                    return Err(e);
                },
            };
            let value = match self.parse_expr() {
                Ok(x) => x,
                Err(e) => {
                    return Err(e);
                },
            };
            Ok(ProofStepKind::Let { name, name_span, ty, value })
        } else if self.at_keyword("Have") {
            self.advance();
            let (name, name_span) = match self.expect_binding_ident("a step binding name") {
                Ok(x) => x,
                Err(e) => {
                    return Err(e);
                },
            };
            let _ = match self.expect(TokenKind::Colon) {
                Ok(x) => x,
                Err(e) => {
                    return Err(e);
                },
            };
            let ty = match self.parse_expr() {
                Ok(x) => x,
                Err(e) => {
                    return Err(e);
                },
            };
            let _ = match self.expect(TokenKind::Eq) {
                Ok(x) => x,
                Err(e) => {
                    return Err(e);
                },
            };
            let proof = match self.parse_expr() {
                Ok(x) => x,
                Err(e) => {
                    return Err(e);
                },
            };
            Ok(ProofStepKind::Have { name, name_span, ty, proof })
        } else if self.at_keyword("Exact") {
            self.advance();
            let term = match self.parse_expr() {
                Ok(x) => x,
                Err(e) => {
                    return Err(e);
                },
            };
            Ok(ProofStepKind::Exact { term })
        } else if self.at_keyword("From") {
            self.advance();
            let (name, name_span) = match self.expect_binding_ident("a hypothesis name") {
                Ok(x) => x,
                Err(e) => {
                    return Err(e);
                },
            };
            Ok(ProofStepKind::From { name, name_span })
        } else {
            Err(
                self.err_here(
                    ErrorKind::UnexpectedToken,
                    string_of("expected `Let`, `Have`, `Exact`, or `From` at the start of a proof step"),
                ),
            )
        }
    }
    fn just_scan(&mut self, depth: usize, open: Span) -> (r: Result<u32, SyntaxError>)
        requires
            old(self).ready(),
            1 <= depth <= old(self).st().pos,
        ensures
            final(self).ready(),
            final(self).same_input(*old(self)),
            match just_scan_s(old(self).toks(), old(self).bytes(), old(self).st(), depth as nat, open) {
                Ok((end, s2)) => r is Ok && r->Ok_0 as int == end && final(self).st() == s2,
                Err(e) => r is Err && r->Err_0@ == e,
            },
            r is Ok ==> old(self).st().pos <= final(self).st().pos,
            r is Ok ==> r->Ok_0 <= old(self).bytes().len(),
        decreases old(self).tokens@.len() - old(self).pos,
    {
        proof {
            lemma_peek_ok(self.toks(), self.bytes(), self.st());
        }
        let t = self.peek_token();
        if t.kind == TokenKind::Eof {
            return Err(SyntaxError::new(open, ErrorKind::UnexpectedEof, string_of("unterminated `[justification]`")));
        }
        self.advance();
        if t.kind == TokenKind::LBracket {
            self.just_scan(depth + 1, open)
        } else if t.kind == TokenKind::RBracket {
            if depth <= 1 {
                Ok(t.span.start)
            } else {
                self.just_scan(depth - 1, open)
            }
        } else {
            self.just_scan(depth, open)
        }
    }

    fn parse_justification(&mut self) -> (r: Result<String, SyntaxError>)
        requires
            old(self).ready(),
        ensures
            final(self).ready(),
            final(self).same_input(*old(self)),
            match parse_justification_s(old(self).toks(), old(self).bytes(), old(self).st()) {
                Ok((v, s2)) => r is Ok && r->Ok_0@ == v && final(self).st() == s2,
                Err(e) => r is Err && r->Err_0@ == e,
            },
            r is Ok ==> old(self).st().pos <= final(self).st().pos,
    {
        let open = match self.expect(TokenKind::LBracket) {
            Ok(x) => x,
            Err(e) => {
                return Err(e);
            },
        };
        let end = match self.just_scan(1, open.span) {
            Ok(x) => x,
            Err(e) => {
                return Err(e);
            },
        };
        let start = open.span.end;
        if start > end {
            return Err(SyntaxError::new(open.span, ErrorKind::InvalidString, string_of("malformed justification text")));
        }
        let bytes = self.source.as_bytes();
        let mut v: Vec<u8> = Vec::new();
        let mut k = start as usize;
        let e = end as usize;
        while k < e
            invariant
                bytes@ == self.bytes(),
                start as int <= k <= e <= bytes@.len(),
                v@ == bytes@.subrange(start as int, k as int),
            decreases e - k,
        {
            v.push(bytes[k]);
            k += 1;
            assert(v@ =~= bytes@.subrange(start as int, k as int));
        }
        match string_from_utf8(v) {
            Some(s) => Ok(trim_text(s.as_str())),
            None => Err(SyntaxError::new(open.span, ErrorKind::InvalidString, string_of("malformed justification text"))),
        }
    }
    fn parse_proof_step(&mut self) -> (r: Result<ProofStep, SyntaxError>)
        requires
            old(self).ready(),
            peek_tok(old(self).toks(), old(self).bytes().len() as int, old(self).st()).kind == TokenKind::Nat,
        ensures
            final(self).ready(),
            final(self).same_input(*old(self)),
            match parse_proof_step_s(old(self).toks(), old(self).bytes(), old(self).st()) {
                Ok((v, s2)) => r is Ok && proof_step_view(r->Ok_0) == v && final(self).st() == s2,
                Err(e) => r is Err && r->Err_0@ == e,
            },
            r is Ok ==> old(self).st().pos < final(self).st().pos,
    {
        proof {
            lemma_peek_ok(self.toks(), self.bytes(), self.st());
        }
        let num = self.peek_token();
        let number: u32 = match self.nat_value(num.span) {
            Some(v) => {
                if v > 4294967295u64 {
                    return Err(SyntaxError::new(num.span, ErrorKind::InvalidLiteral, string_of("step number out of range")));
                }
                v as u32
            },
            None => {
                return Err(SyntaxError::new(num.span, ErrorKind::InvalidLiteral, string_of("step number out of range")));
            },
        };
        self.advance();
        let _ = match self.expect(TokenKind::Dot) {
            Ok(x) => x,
            Err(e) => {
                return Err(e);
            },
        };
        let kind = match self.parse_proof_step_kind() {
            Ok(x) => x,
            Err(e) => {
                return Err(e);
            },
        };
        let justification = if self.peek() == TokenKind::LBracket {
            match self.parse_justification() {
                Ok(t) => Some(t),
                Err(e) => {
                    return Err(e);
                },
            }
        } else {
            None
        };
        let nl = match self.expect(TokenKind::Newline) {
            Ok(x) => x,
            Err(e) => {
                return Err(e);
            },
        };
        Ok(ProofStep { number, number_span: num.span, kind, justification, span: Span::new(num.span.start, nl.span.end) })
    }
    fn steps(&mut self, acc: Vec<ProofStep>, expected: u64) -> (r: Result<Vec<ProofStep>, SyntaxError>)
        requires
            old(self).ready(),
            1 <= expected <= old(self).st().pos,
        ensures
            final(self).ready(),
            final(self).same_input(*old(self)),
            match steps_s(old(self).toks(), old(self).bytes(), old(self).st(), proof_step_seq_view(acc@), expected as nat) {
                Ok((v, s2)) => r is Ok && proof_step_seq_view(r->Ok_0@) == v && final(self).st() == s2,
                Err(e) => r is Err && r->Err_0@ == e,
            },
            r is Ok ==> old(self).st().pos <= final(self).st().pos,
        decreases old(self).tokens@.len() - old(self).pos,
    {
        self.skip_newlines();
        let k = self.peek();
        if k == TokenKind::Dedent || k == TokenKind::Eof {
            Ok(acc)
        } else if k == TokenKind::Nat {
            let step = match self.parse_proof_step() {
                Ok(x) => x,
                Err(e) => {
                    return Err(e);
                },
            };
            if step.number as u64 != expected {
                let mut m = string_of("expected step number ");
                push_decimal(&mut m, expected);
                m.append(", found ");
                push_decimal(&mut m, step.number as u64);
                return Err(SyntaxError::new(step.number_span, ErrorKind::UnexpectedToken, m));
            }
            let mut acc = acc;
            proof {
                lemma_proof_step_seq_push(acc@, step);
            }
            acc.push(step);
            self.steps(acc, expected + 1)
        } else {
            Err(
                self.err_here(
                    ErrorKind::UnexpectedToken,
                    string_of("expected a numbered proof step (`N. Let …` / `N. Have …` / `N. Exact …`)"),
                ),
            )
        }
    }
    fn parse_proof_steps(&mut self) -> (r: Result<ProofBlock, SyntaxError>)
        requires
            old(self).ready(),
        ensures
            final(self).ready(),
            final(self).same_input(*old(self)),
            match parse_proof_steps_s(old(self).toks(), old(self).bytes(), old(self).st()) {
                Ok((v, s2)) => r is Ok && proof_block_view(r->Ok_0) == v && final(self).st() == s2,
                Err(e) => r is Err && r->Err_0@ == e,
            },
            r is Ok ==> old(self).st().pos <= final(self).st().pos,
    {
        if self.peek() != TokenKind::Indent {
            return Err(
                self.err_here(
                    ErrorKind::UnexpectedToken,
                    string_of("expected an indented block of numbered proof steps after `Proof:`"),
                ),
            );
        }
        self.advance();
        let empty: Vec<ProofStep> = Vec::new();
        assert(proof_step_seq_view(empty@) =~= Seq::<ProofStepV>::empty());
        let steps = match self.steps(empty, 1) {
            Ok(x) => x,
            Err(e) => {
                return Err(e);
            },
        };
        if steps.len() == 0 {
            return Err(self.err_here(ErrorKind::UnexpectedToken, string_of("a `Proof:` block must contain at least one step")));
        }
        self.skip_newlines();
        let _ = match self.expect(TokenKind::Dedent) {
            Ok(x) => x,
            Err(e) => {
                return Err(e);
            },
        };
        Ok(ProofBlock::Steps(steps))
    }
    fn proof_part(&mut self) -> (r: Result<ProofBlock, SyntaxError>)
        requires
            old(self).ready(),
        ensures
            final(self).ready(),
            final(self).same_input(*old(self)),
            match proof_part_s(old(self).toks(), old(self).bytes(), old(self).st()) {
                Ok((v, s2)) => r is Ok && proof_block_view(r->Ok_0) == v && final(self).st() == s2,
                Err(e) => r is Err && r->Err_0@ == e,
            },
            r is Ok ==> old(self).st().pos <= final(self).st().pos,
    {
        let _ = match self.expect_keyword("Proof") {
            Ok(x) => x,
            Err(e) => {
                return Err(e);
            },
        };
        let _ = match self.expect(TokenKind::Colon) {
            Ok(x) => x,
            Err(e) => {
                return Err(e);
            },
        };
        if self.peek() == TokenKind::Newline {
            self.advance();
            self.parse_proof_steps()
        } else {
            let e = match self.parse_expr() {
                Ok(x) => x,
                Err(e) => {
                    return Err(e);
                },
            };
            let _ = match self.expect(TokenKind::Newline) {
                Ok(x) => x,
                Err(e) => {
                    return Err(e);
                },
            };
            Ok(ProofBlock::Term(e))
        }
    }
    fn theorem_body(&mut self) -> (r: Result<(Expr, ProofBlock, u32), SyntaxError>)
        requires
            old(self).ready(),
        ensures
            final(self).ready(),
            final(self).same_input(*old(self)),
            match theorem_body_s(old(self).toks(), old(self).bytes(), old(self).st()) {
                Ok((v, s2)) => r is Ok && (expr_view(r->Ok_0.0), proof_block_view(r->Ok_0.1), r->Ok_0.2) == v && final(self).st() == s2,
                Err(e) => r is Err && r->Err_0@ == e,
            },
            r is Ok ==> old(self).st().pos <= final(self).st().pos,
    {
        let _ = match self.expect_keyword("Show") {
            Ok(x) => x,
            Err(e) => {
                return Err(e);
            },
        };
        let _ = match self.expect(TokenKind::Colon) {
            Ok(x) => x,
            Err(e) => {
                return Err(e);
            },
        };
        let show = match self.parse_expr() {
            Ok(x) => x,
            Err(e) => {
                return Err(e);
            },
        };
        let _ = match self.expect(TokenKind::Newline) {
            Ok(x) => x,
            Err(e) => {
                return Err(e);
            },
        };
        let proof = match self.proof_part() {
            Ok(x) => x,
            Err(e) => {
                return Err(e);
            },
        };
        let _ = match self.expect_keyword("QED") {
            Ok(x) => x,
            Err(e) => {
                return Err(e);
            },
        };
        let nl = match self.expect(TokenKind::Newline) {
            Ok(x) => x,
            Err(e) => {
                return Err(e);
            },
        };
        self.skip_newlines();
        let _ = match self.expect(TokenKind::Dedent) {
            Ok(x) => x,
            Err(e) => {
                return Err(e);
            },
        };
        Ok((show, proof, nl.span.end))
    }
    fn parse_theorem_def(&mut self) -> (r: Result<TheoremDef, SyntaxError>)
        requires
            old(self).ready(),
        ensures
            final(self).ready(),
            final(self).same_input(*old(self)),
            match parse_theorem_def_s(old(self).toks(), old(self).bytes(), old(self).st()) {
                Ok((v, s2)) => r is Ok && theorem_def_view(r->Ok_0) == v && final(self).st() == s2,
                Err(e) => r is Err && r->Err_0@ == e,
            },
            r is Ok ==> old(self).st().pos < final(self).st().pos,
    {
        let kw = match self.expect_keyword("Theorem") {
            Ok(x) => x,
            Err(e) => {
                return Err(e);
            },
        };
        let (name, name_span) = match self.expect_binding_ident("a theorem name") {
            Ok(x) => x,
            Err(e) => {
                return Err(e);
            },
        };
        let _ = match self.section_open() {
            Ok(x) => x,
            Err(e) => {
                return Err(e);
            },
        };
        self.skip_newlines();
        let given = match self.given_section() {
            Ok(x) => x,
            Err(e) => {
                return Err(e);
            },
        };
        self.skip_newlines();
        let hypotheses = match self.assume_section() {
            Ok(x) => x,
            Err(e) => {
                return Err(e);
            },
        };
        self.skip_newlines();
        let (show, proof, end) = match self.theorem_body() {
            Ok(x) => x,
            Err(e) => {
                return Err(e);
            },
        };
        let span = Span::covering(kw.span, Span::new(end, end));
        Ok(TheoremDef { name, name_span, given, hypotheses, show, proof, span })
    }
    #[verifier::spinoff_prover]
    #[verifier::rlimit(100)]
    fn module_items(
        &mut self,
        decl: Option<ModuleDecl>,
        imports: Vec<ImportDecl>,
        structures: Vec<StructureDef>,
        functions: Vec<FunctionDef>,
        theorems: Vec<TheoremDef>,
    ) -> (r: Result<Module, SyntaxError>)
        requires
            old(self).ready(),
        ensures
            match module_items_s(
                old(self).toks(),
                old(self).bytes(),
                old(self).st(),
                module_decl_opt_view(decl),
                import_decl_seq_view(imports@),
                structure_def_seq_view(structures@),
                function_def_seq_view(functions@),
                theorem_def_seq_view(theorems@),
            ) {
                Ok(m) => r is Ok && module_view(r->Ok_0) == m,
                Err(e) => r is Err && r->Err_0@ == e,
            },
        decreases old(self).tokens@.len() - old(self).pos,
    {
        let t = self.peek_token();
        if t.kind == TokenKind::Eof {
            let span = Span::new(0, self.source.len() as u32);
            return Ok(Module { decl, imports, structures, functions, theorems, span });
        }
        if t.kind == TokenKind::Newline {
            self.advance();
            return self.module_items(decl, imports, structures, functions, theorems);
        }
        if self.at_keyword("Module") {
            if decl.is_some() {
                return Err(self.err_here(ErrorKind::UnexpectedToken, string_of("duplicate Module declaration")));
            }
            let d = match self.parse_module_decl() {
                Ok(x) => x,
                Err(e) => {
                    return Err(e);
                },
            };
            return self.module_items(Some(d), imports, structures, functions, theorems);
        }
        if self.at_keyword("Import") {
            let d = match self.parse_import_decl() {
                Ok(x) => x,
                Err(e) => {
                    return Err(e);
                },
            };
            let mut imports = imports;
            proof {
                lemma_import_decl_seq_push(imports@, d);
            }
            imports.push(d);
            return self.module_items(decl, imports, structures, functions, theorems);
        }
        if self.at_keyword("Structure") {
            let d = match self.parse_structure_def() {
                Ok(x) => x,
                Err(e) => {
                    return Err(e);
                },
            };
            let mut structures = structures;
            proof {
                lemma_structure_def_seq_push(structures@, d);
            }
            structures.push(d);
            return self.module_items(decl, imports, structures, functions, theorems);
        }
        if self.at_keyword("Function") {
            let d = match self.parse_function_def() {
                Ok(x) => x,
                Err(e) => {
                    return Err(e);
                },
            };
            let mut functions = functions;
            proof {
                lemma_function_def_seq_push(functions@, d);
            }
            functions.push(d);
            return self.module_items(decl, imports, structures, functions, theorems);
        }
        if self.at_keyword("Theorem") {
            let d = match self.parse_theorem_def() {
                Ok(x) => x,
                Err(e) => {
                    return Err(e);
                },
            };
            let mut theorems = theorems;
            proof {
                lemma_theorem_def_seq_push(theorems@, d);
            }
            theorems.push(d);
            return self.module_items(decl, imports, structures, functions, theorems);
        }
        if t.kind == TokenKind::Ident {
            let (text, span) = match self.expect_ident() {
                Ok(x) => x,
                Err(e) => {
                    return Err(e);
                },
            };
            let mut m = string_of("`");
            m.append(text.as_str());
            m.append(
                "` is not yet implemented (only Module, Import, Structure, Function, and Theorem are supported in this delivery)",
            );
            return Err(SyntaxError::new(span, ErrorKind::NotImplemented, m));
        }
        Err(
            self.err_here(
                ErrorKind::UnexpectedToken,
                string_of("expected a top-level Module, Import, Structure, Function, or Theorem declaration"),
            ),
        )
    }
}

/// The view of an optional list of imported names.
pub open spec fn import_names_opt_view(o: Option<Vec<ImportName>>) -> Option<Seq<ImportNameV>> {
    match o {
        Some(l) => Some(import_name_seq_view(l@)),
        None => None,
    }
}

/// The view of an optional expression.
pub open spec fn expr_opt_view(o: Option<Expr>) -> Option<ExprV> {
    match o {
        Some(e) => Some(expr_view(e)),
        None => None,
    }
}

/// The view of an optional module declaration.
pub open spec fn module_decl_opt_view(o: Option<ModuleDecl>) -> Option<ModuleDeclV> {
    match o {
        Some(d) => Some(module_decl_view(d)),
        None => None,
    }
}

/// `true` iff `c` is Unicode white space.
fn white_space(c: char) -> (r: bool)
    ensures
        r == is_white_space(c),
{
    let x = c as u32;
    x == 32 || (9 <= x && x <= 13) || x == 0x85 || x == 0xA0 || x == 0x1680 || (0x2000 <= x && x <= 0x200A)
        || x == 0x2028 || x == 0x2029 || x == 0x202F || x == 0x205F || x == 0x3000
}

proof fn lemma_trim_start_bounds(cs: Seq<char>, i: int)
    requires
        0 <= i <= cs.len(),
    ensures
        i <= trim_start_from(cs, i) <= cs.len(),
    decreases cs.len() - i,
{
    if 0 <= i < cs.len() && is_white_space(cs[i]) {
        lemma_trim_start_bounds(cs, i + 1);
    }
}

proof fn lemma_trim_end_bounds(cs: Seq<char>, lo: int, j: int)
    requires
        0 <= lo <= j <= cs.len(),
    ensures
        lo <= trim_end_from(cs, lo, j) <= j,
    decreases j,
{
    if 0 <= lo < j <= cs.len() && is_white_space(cs[j - 1]) {
        lemma_trim_end_bounds(cs, lo, j - 1);
    }
}

/// `s` without its leading and trailing white space.
fn trim_text(s: &str) -> (r: String)
    ensures
        r@ == trim_ws(s@),
{
    let n = s.unicode_len();
    let mut i: usize = 0;
    while i < n && white_space(s.get_char(i))
        invariant
            n == s@.len(),
            i <= n,
            trim_start_from(s@, 0) == trim_start_from(s@, i as int),
        decreases n - i,
    {
        i += 1;
    }
    let mut j: usize = n;
    proof {
        lemma_trim_start_bounds(s@, i as int);
    }
    while j > i && white_space(s.get_char(j - 1))
        invariant
            n == s@.len(),
            i <= j <= n,
            trim_start_from(s@, 0) == i,
            trim_end_from(s@, i as int, n as int) == trim_end_from(s@, i as int, j as int),
        decreases j,
    {
        j -= 1;
    }
    let t = s.substring_char(i, j);
    String::from_str(t)
}

/// Parse a complete source text into a [`Module`], stopping at the first
/// error. On success the module's span covers the whole source.
pub fn parse_module(source: &str) -> (r: Result<Module, Vec<SyntaxError>>)
    requires
        source.spec_bytes().len() < u32::MAX,
    ensures
        match module_s(source.spec_bytes()) {
            Ok(m) => r is Ok && module_view(r->Ok_0) == m,
            Err(e) => r is Err && r->Err_0@.len() == 1 && r->Err_0@[0]@ == e,
        },
{
    let tokens = match lex(source) {
        Ok(t) => t,
        Err(e) => {
            return Err(vec![e]);
        },
    };
    proof {
        lemma_lexed_ok(source.spec_bytes());
    }
    let mut parser = Parser::new(tokens.as_slice(), source);
    let imports: Vec<ImportDecl> = Vec::new();
    let structures: Vec<StructureDef> = Vec::new();
    let functions: Vec<FunctionDef> = Vec::new();
    let theorems: Vec<TheoremDef> = Vec::new();
    assert(import_decl_seq_view(imports@) =~= Seq::<ImportDeclV>::empty());
    assert(structure_def_seq_view(structures@) =~= Seq::<StructureDefV>::empty());
    assert(function_def_seq_view(functions@) =~= Seq::<FunctionDefV>::empty());
    assert(theorem_def_seq_view(theorems@) =~= Seq::<TheoremDefV>::empty());
    match parser.module_items(None, imports, structures, functions, theorems) {
        Ok(m) => Ok(m),
        Err(e) => Err(vec![e]),
    }
}

// ---------------------------------------------------------------------------
// The lexer's tokens are well formed
// ---------------------------------------------------------------------------

/// Every token of `s` is well formed over `b`.
pub open spec fn all_tokens_ok(s: Seq<Token>, b: Seq<u8>) -> bool {
    forall|q: int| 0 <= q < s.len() ==> token_ok(#[trigger] s[q], b)
}

proof fn lemma_all_ok_concat(p: Seq<Token>, s: Seq<Token>, b: Seq<u8>)
    requires
        all_tokens_ok(p, b),
        all_tokens_ok(s, b),
    ensures
        all_tokens_ok(p + s, b),
{
    assert forall|q: int| 0 <= q < (p + s).len() implies token_ok(#[trigger] (p + s)[q], b) by {
        if q < p.len() {
            assert((p + s)[q] == p[q]);
        } else {
            assert((p + s)[q] == s[q - p.len()]);
        }
    }
}

proof fn lemma_digit_run(b: Seq<u8>, i: int)
    requires
        0 <= i <= b.len(),
    ensures
        i <= digits_end(b, i) <= b.len(),
        forall|k: int| i <= k < digits_end(b, i) ==> is_digit(#[trigger] b[k]),
    decreases b.len() - i,
{
    if digit_at(b, i) {
        lemma_digit_run(b, i + 1);
    }
}

proof fn lemma_ident_run(b: Seq<u8>, i: int)
    requires
        0 <= i <= b.len(),
    ensures
        i <= ident_end(b, i) <= b.len(),
        forall|k: int| i <= k < ident_end(b, i) ==> is_ident_continue(#[trigger] b[k]),
    decreases b.len() - i,
{
    if 0 <= i < b.len() && is_ident_continue(b[i]) {
        lemma_ident_run(b, i + 1);
    }
}

/// A numeric literal that the first pass emits is well formed.
proof fn lemma_number_ok(b: Seq<u8>, i: int)
    requires
        0 <= i < b.len(),
        b.len() < u32::MAX,
        is_digit(b[i]),
        number_token(b, i) is Ok,
    ensures
        token_ok(number_token(b, i)->Ok_0.0, b),
{
    reveal(token_ok);
    lemma_digit_run(b, i);
    assert(digits_end(b, i) == digits_end(b, i + 1));
    lemma_digit_run(b, i + 1);
    let p = digits_end(b, i);
    let frac = byte_is(b, p, DOT) && digit_at(b, p + 1);
    if frac {
        lemma_digit_run(b, p + 1);
    }
    let q = if frac { digits_end(b, p + 1) } else { p };
    let has_e = byte_is(b, q, LOWER_E) || byte_is(b, q, UPPER_E);
    let j = if byte_is(b, q + 1, PLUS) || byte_is(b, q + 1, MINUS) { q + 2 } else { q + 1 };
    let exp = has_e && digit_at(b, j);
    if exp {
        lemma_digit_run(b, j);
    }
    let r = if exp { digits_end(b, j) } else { q };
    assert forall|k: int| i <= k < r implies #[trigger] b[k] < 0x80 by {
        if k < p {
            assert(is_digit(b[k]));
        } else if frac && k == p {
        } else if frac && k < q {
            assert(is_digit(b[k]));
        } else if exp && k == q {
        } else if exp && k < j {
        } else {
            assert(is_digit(b[k]));
        }
    }
    if !(frac || exp) {
        assert(digits_range(b, i, r));
    }
}

/// Every token one step of the first pass emits is well formed.
proof fn lemma_step_ok(b: Seq<u8>, i: int, depth: nat)
    requires
        0 <= i < b.len(),
        b.len() < u32::MAX,
    ensures
        step(b, i, depth) matches StepV::Emit(t, _, _) ==> token_ok(t, b),
{
    lemma_step_advances(b, i, depth);
    let c = b[i];
    if let StepV::Emit(t, j, _) = step(b, i, depth) {
        if c == QUOTE && !(c == SPACE || c == TAB || c == CR || c == LF) && pair_kind(b, i) is None && open_kind(c) is None
            && close_kind(c) is None && single_kind(c) is None {
            lemma_string_stop(b, i + 1);
            reveal(token_ok);
        } else if is_digit(c) && !(c == MINUS) && pair_kind(b, i) is None && open_kind(c) is None && close_kind(c)
            is None && single_kind(c) is None && c != QUOTE {
            lemma_number_ok(b, i);
        } else if is_ident_start(c) && !is_digit(c) && pair_kind(b, i) is None && open_kind(c) is None && close_kind(c)
            is None && single_kind(c) is None && c != QUOTE && c != BANG {
            reveal(token_ok);
            lemma_ident_run(b, i);
            assert(ident_end(b, i) == ident_end(b, i + 1));
            lemma_ident_run(b, i + 1);
            assert forall|k: int| i <= k < j implies #[trigger] b[k] < 0x80 by {
                assert(is_ident_continue(b[k]));
            }
        } else {
            reveal(token_ok);
        }
    }
}

/// Every token of the first pass from `i` is well formed.
proof fn lemma_lex_from_ok(b: Seq<u8>, i: int, depth: nat)
    requires
        0 <= i,
        b.len() < u32::MAX,
    ensures
        lex_from(b, i, depth) is Ok ==> all_tokens_ok(lex_from(b, i, depth)->Ok_0, b),
    decreases b.len() - i,
{
    if i < b.len() {
        lemma_step_advances(b, i, depth);
        lemma_step_ok(b, i, depth);
        match step(b, i, depth) {
            StepV::Skip(j, d) => {
                lemma_lex_from_ok(b, j, d);
            },
            StepV::Emit(t, j, d) => {
                lemma_lex_from_ok(b, j, d);
                if lex_from(b, j, d) is Ok {
                    assert(all_tokens_ok(seq![t], b));
                    lemma_all_ok_concat(seq![t], lex_from(b, j, d)->Ok_0, b);
                }
            },
            StepV::Fail(_) => {},
        }
    } else {
        assert(all_tokens_ok(Seq::empty(), b));
    }
}

/// Every token of the second pass from `k` is well formed.
proof fn lemma_layout_ok(b: Seq<u8>, raw: Seq<Token>, k: int, stack: Seq<u32>, at_start: bool)
    requires
        b.len() < u32::MAX,
        all_tokens_ok(raw, b),
    ensures
        layout(b, raw, k, stack, at_start) is Ok ==> all_tokens_ok(layout(b, raw, k, stack, at_start)->Ok_0, b),
    decreases raw.len() - k,
{
    reveal(token_ok);
    if k < 0 || k >= raw.len() {
        let f = layout_finish(b, raw, stack);
        assert(all_tokens_ok(f, b));
    } else {
        let t = raw[k];
        assert(token_ok(t, b));
        let at = Span { start: t.span.start, end: t.span.start };
        lemma_layout_ok(b, raw, k + 1, stack, true);
        lemma_layout_ok(b, raw, k + 1, stack, false);
        if t.kind == TokenKind::Newline || !at_start {
            if layout(b, raw, k + 1, stack, t.kind == TokenKind::Newline) is Ok {
                assert(all_tokens_ok(seq![t], b));
                lemma_all_ok_concat(seq![t], layout(b, raw, k + 1, stack, t.kind == TokenKind::Newline)->Ok_0, b);
            }
        } else {
            match leading_column_of(b, t.span.start as int) {
                Err(_) => {},
                Ok(col) => {
                    if col > stack.last() {
                        lemma_layout_ok(b, raw, k + 1, stack.push(col), false);
                        let pre = seq![Token { kind: TokenKind::Indent, span: at }, t];
                        assert(all_tokens_ok(pre, b));
                        if layout(b, raw, k + 1, stack.push(col), false) is Ok {
                            lemma_all_ok_concat(pre, layout(b, raw, k + 1, stack.push(col), false)->Ok_0, b);
                        }
                    } else if col < stack.last() {
                        let n = pops(stack, col);
                        let rest = stack.take(stack.len() - n);
                        lemma_layout_ok(b, raw, k + 1, rest, false);
                        let pre = repeat_tok(Token { kind: TokenKind::Dedent, span: at }, n).push(t);
                        assert(all_tokens_ok(pre, b));
                        if layout(b, raw, k + 1, rest, false) is Ok {
                            lemma_all_ok_concat(pre, layout(b, raw, k + 1, rest, false)->Ok_0, b);
                        }
                    } else {
                        if layout(b, raw, k + 1, stack, false) is Ok {
                            assert(all_tokens_ok(seq![t], b));
                            lemma_all_ok_concat(seq![t], layout(b, raw, k + 1, stack, false)->Ok_0, b);
                        }
                    }
                },
            }
        }
    }
}

/// The tokens of lexed source text are well formed.
pub proof fn lemma_lexed_ok(b: Seq<u8>)
    requires
        b.len() < u32::MAX,
    ensures
        lexed(b) is Ok ==> tokens_ok(lexed(b)->Ok_0, b),
{
    lemma_lex_from_ok(b, 0, 0);
    if raw_tokens(b) is Ok {
        lemma_layout_ok(b, raw_tokens(b)->Ok_0, 0, seq![0u32], true);
    }
}

} // verus!
