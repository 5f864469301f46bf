use lib::lexer::{apply_indentation, lex, lex_raw};
use lib::syntax::{ErrorKind, Span, Token, TokenKind};
use lib::syntax::TokenKind as K;

fn kinds(source: &str) -> Vec<TokenKind> {
    lex_raw(source).expect("lex should succeed").into_iter().map(|t| t.kind).collect()
}

fn lexed(source: &str) -> Vec<Token> {
    lex(source).expect("lex should succeed")
}

fn text_of<'a>(source: &'a str, t: &Token) -> &'a str {
    &source[t.span.start as usize..t.span.end as usize]
}

fn ind_kinds(source: &str) -> Vec<TokenKind> {
    lexed(source).into_iter().map(|t| t.kind).collect()
}

#[test]
fn keywords_lex_as_ident_with_text() {
    let src = "Module Function return Import";
    let toks = lex_raw(src).unwrap();
    assert!(toks.iter().all(|t| t.kind == TokenKind::Ident));
    let texts: Vec<&str> = toks.iter().map(|t| text_of(src, t)).collect();
    assert_eq!(texts, vec!["Module", "Function", "return", "Import"]);
}

#[test]
fn numbers_lex() {
    assert_eq!(kinds("0"), vec![TokenKind::Nat]);
    assert_eq!(kinds("42"), vec![TokenKind::Nat]);
    assert_eq!(kinds("3.14"), vec![TokenKind::Float]);
    assert_eq!(kinds("1e-6"), vec![TokenKind::Float]);
    assert_eq!(kinds("2.5e10"), vec![TokenKind::Float]);
}

#[test]
fn underscores_in_numbers_rejected() {
    let err = lex_raw("1_000").unwrap_err();
    assert_eq!(err.kind, ErrorKind::InvalidLiteral);
}

#[test]
fn strings_lex() {
    assert_eq!(kinds(r#""""#), vec![TokenKind::Str]);
    assert_eq!(kinds(r#""hello""#), vec![TokenKind::Str]);
    assert_eq!(kinds(r#""a\nb\t\"q\"\\""#), vec![TokenKind::Str]);
}

#[test]
fn unterminated_string_errors() {
    let err = lex_raw(r#""hello"#).unwrap_err();
    assert_eq!(err.kind, ErrorKind::InvalidString);
}

#[test]
fn bad_escape_errors() {
    let err = lex_raw(r#""\q""#).unwrap_err();
    assert_eq!(err.kind, ErrorKind::InvalidString);
}

#[test]
fn comment_marker_inside_string_is_not_a_comment() {
    let toks = lex_raw(r#""a -- b""#).unwrap();
    assert_eq!(toks.len(), 1);
    assert_eq!(toks[0].kind, TokenKind::Str);
}

#[test]
fn full_line_comment_produces_no_code_tokens() {
    assert_eq!(kinds("-- hello\n"), vec![TokenKind::Newline]);
}

#[test]
fn trailing_comment_after_code() {
    assert_eq!(kinds("42 -- foo\n"), vec![TokenKind::Nat, TokenKind::Newline]);
}

#[test]
fn multi_char_operators() {
    assert_eq!(kinds("=="), vec![TokenKind::EqEq]);
    assert_eq!(kinds("!="), vec![TokenKind::BangEq]);
    assert_eq!(kinds("->"), vec![TokenKind::Arrow]);
    assert_eq!(kinds("<="), vec![TokenKind::LtEq]);
    assert_eq!(kinds(">="), vec![TokenKind::GtEq]);
    assert_eq!(kinds("="), vec![TokenKind::Eq]);
    assert_eq!(kinds("<"), vec![TokenKind::Lt]);
    assert_eq!(kinds(">"), vec![TokenKind::Gt]);
    assert_eq!(kinds("-"), vec![TokenKind::Minus]);
}

#[test]
fn lone_bang_errors() {
    let err = lex_raw("!").unwrap_err();
    assert_eq!(err.kind, ErrorKind::LexError);
}

#[test]
fn lambda_introducer_lexes() {
    assert_eq!(kinds("λ"), vec![TokenKind::Lambda]);
}

#[test]
fn other_non_ascii_rejected() {
    let err = lex_raw("→").unwrap_err();
    assert_eq!(err.kind, ErrorKind::LexError);
}

#[test]
fn single_indent_block() {
    let toks = ind_kinds("Function f():\n    return 1\n");
    assert_eq!(
        toks,
        vec![K::Ident, K::Ident, K::LParen, K::RParen, K::Colon, K::Newline, K::Indent, K::Ident, K::Nat, K::Newline, K::Dedent, K::Eof]
    );
}

#[test]
fn dedent_before_next_top_level_item() {
    let toks = ind_kinds("Function f():\n    return 1\nFunction g():\n    return 2\n");
    let dedents = toks.iter().filter(|k| **k == TokenKind::Dedent).count();
    assert_eq!(dedents, 2);
    assert_eq!(toks.last(), Some(&TokenKind::Eof));
}

#[test]
fn blank_and_comment_lines_do_not_change_indentation() {
    let toks = ind_kinds("Function f():\n    return 1\n\n    -- a comment\n    return 2\n");
    let indents = toks.iter().filter(|k| **k == TokenKind::Indent).count();
    let dedents = toks.iter().filter(|k| **k == TokenKind::Dedent).count();
    assert_eq!(indents, 1);
    assert_eq!(dedents, 1);
}

#[test]
fn tabs_in_leading_whitespace_rejected() {
    let err = lex("Function f():\n\treturn 1\n").unwrap_err();
    assert_eq!(err.kind, ErrorKind::Indentation);
}

#[test]
fn inconsistent_dedent_rejected() {
    let err = lex("Function f():\n    return 1\n   return 2\n").unwrap_err();
    assert_eq!(err.kind, ErrorKind::Indentation);
}

#[test]
fn line_continuation_inside_parens() {
    let toks = ind_kinds("Function f(a: Nat,\n b: Nat):\n    return a\n");
    assert_eq!(toks.iter().filter(|k| **k == TokenKind::Indent).count(), 1);
    assert_eq!(toks.iter().filter(|k| **k == TokenKind::Dedent).count(), 1);
}

#[test]
fn error_spans_and_messages_are_exact() {
    let err = lex_raw("x !").unwrap_err();
    assert_eq!(err.span, Span::new(2, 3));
    assert_eq!(err.message, "unexpected `!` (did you mean `!=`?)");
    let err = lex_raw("12_3").unwrap_err();
    assert_eq!(err.span, Span::new(0, 3));
    assert_eq!(err.message, "numeric literals may not contain underscores");
    let err = lex_raw("\"ab\ncd\"").unwrap_err();
    assert_eq!(err.span, Span::new(0, 3));
    assert_eq!(err.message, "unterminated string literal");
    let err = lex_raw("\"a\\q\"").unwrap_err();
    assert_eq!(err.span, Span::new(0, 4));
    assert_eq!(err.message, "unknown string escape");
    let err = lex("a:\n  b\n\tc\n").unwrap_err();
    assert_eq!(err.span, Span::empty(8));
}

#[test]
fn token_spans_cover_their_text() {
    let src = "f(x) -> 2.5e3 \"s\" λ y";
    let toks = lex_raw(src).unwrap();
    let texts: Vec<&str> = toks.iter().map(|t| text_of(src, t)).collect();
    assert_eq!(texts, vec!["f", "(", "x", ")", "->", "2.5e3", "\"s\"", "λ", "y"]);
}

#[test]
fn newlines_inside_brackets_continue_the_line() {
    assert_eq!(kinds("(\n)\n"), vec![TokenKind::LParen, TokenKind::RParen, TokenKind::Newline]);
    assert_eq!(kinds(")\n"), vec![TokenKind::RParen, TokenKind::Newline]);
}

#[test]
fn exponent_without_digits_is_not_part_of_the_number() {
    assert_eq!(kinds("1e"), vec![TokenKind::Nat, TokenKind::Ident]);
    assert_eq!(kinds("1.x"), vec![TokenKind::Nat, TokenKind::Dot, TokenKind::Ident]);
}

#[test]
fn stream_without_trailing_newline_gets_one() {
    let toks = ind_kinds("a");
    assert_eq!(toks, vec![TokenKind::Ident, TokenKind::Newline, TokenKind::Eof]);
    let toks = ind_kinds("");
    assert_eq!(toks, vec![TokenKind::Newline, TokenKind::Eof]);
}

#[test]
fn apply_indentation_closes_every_open_block() {
    let src = "a:\n  b:\n    c";
    let raw = lex_raw(src).unwrap();
    let toks: Vec<TokenKind> = apply_indentation(src, raw).unwrap().into_iter().map(|t| t.kind).collect();
    assert_eq!(
        toks,
        vec![
            K::Ident, K::Colon, K::Newline, K::Indent, K::Ident, K::Colon, K::Newline, K::Indent, K::Ident, K::Newline,
            K::Dedent, K::Dedent, K::Eof,
        ]
    );
}
