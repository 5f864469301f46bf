use lib::ast::{
    BinOp, Expr, FunctionDef, IfExpr, MatchExpr, Module, Pattern, PatternArg, ProofBlock, ProofStep, ProofStepKind, Stmt,
    TheoremDef, UnOp,
};
use lib::parser::parse_module;
use lib::syntax::{ErrorKind, SyntaxError};
fn parse(source: &str) -> Result<Module, Vec<SyntaxError>> {
    parse_module(source)
}

fn parse_one_fn(source: &str) -> FunctionDef {
    let m = parse(source).expect("parse should succeed");
    assert_eq!(m.functions.len(), 1);
    m.functions.into_iter().next().unwrap()
}

// ---- Module ------------------------------------------------------

#[test]
fn module_decl_with_multi_segment_path() {
    let m = parse("Module Standard.Geometry.Shapes\n").unwrap();
    let decl = m.decl.expect("module decl");
    let segs: Vec<&str> = decl.path.segments.iter().map(|s| s.text.as_str()).collect();
    assert_eq!(segs, vec!["Standard", "Geometry", "Shapes"]);
}

#[test]
fn empty_file_parses_to_empty_module() {
    let m = parse("").unwrap();
    assert!(m.decl.is_none());
    assert!(m.imports.is_empty());
    assert!(m.functions.is_empty());
}

// ---- Imports -----------------------------------------------------

#[test]
fn import_without_names() {
    let m = parse("Import Standard.Nat\n").unwrap();
    assert_eq!(m.imports.len(), 1);
    assert!(m.imports[0].names.is_none());
}

#[test]
fn import_with_name_list() {
    let m = parse("Import Standard.Bool (true, false)\n").unwrap();
    assert_eq!(m.imports.len(), 1);
    let names = m.imports[0].names.as_ref().expect("names");
    let texts: Vec<&str> = names.iter().map(|n| n.text.as_str()).collect();
    assert_eq!(texts, vec!["true", "false"]);
}

// ---- Functions ---------------------------------------------------

#[test]
fn function_zero_one_three_params() {
    let f = parse_one_fn("Function f():\n    return 1\n");
    assert!(f.params.is_empty());
    assert!(f.return_ty.is_none());

    let f = parse_one_fn("Function f(x: Nat):\n    return x\n");
    assert_eq!(f.params.len(), 1);
    assert_eq!(f.params[0].name, "x");

    let f = parse_one_fn("Function f(a: Nat, b: Nat, c: Nat):\n    return a\n");
    assert_eq!(f.params.len(), 3);
}

#[test]
fn function_with_and_without_return_type() {
    let f = parse_one_fn("Function f(x: Nat) -> Nat:\n    return x\n");
    assert!(f.return_ty.is_some());

    let f = parse_one_fn("Function f(x: Nat):\n    return x\n");
    assert!(f.return_ty.is_none());
}

// ---- Expressions -------------------------------------------------

fn parse_expr_only(source: &str) -> Expr {
    // Wrap in a return statement to reuse the full pipeline.
    let src = format!("Function f():\n    return {source}\n");
    let f = parse_one_fn(&src);
    assert_eq!(f.body.len(), 1);
    match f.body.into_iter().next().unwrap() {
        Stmt::Return { value, .. } => value,
        Stmt::Let { .. } => panic!("expected return"),
    }
}

#[test]
fn add_mul_precedence() {
    // 1 + 2 * 3 == BinOp(1, Add, BinOp(2, Mul, 3))
    match parse_expr_only("1 + 2 * 3") {
        Expr::BinOp {
            op: BinOp::Add,
            rhs,
            ..
        } => match *rhs {
            Expr::BinOp { op: BinOp::Mul, .. } => {}
            other => panic!("expected Mul on rhs, got {other:?}"),
        },
        other => panic!("expected Add on top, got {other:?}"),
    }
}

#[test]
fn pow_is_right_associative() {
    // 2 ^ 3 ^ 4 == 2 ^ (3 ^ 4)
    match parse_expr_only("2 ^ 3 ^ 4") {
        Expr::BinOp {
            op: BinOp::Pow,
            rhs,
            ..
        } => match *rhs {
            Expr::BinOp { op: BinOp::Pow, .. } => {}
            other => panic!("expected right-nested Pow, got {other:?}"),
        },
        other => panic!("expected Pow on top, got {other:?}"),
    }
}

#[test]
fn unary_minus_binds_looser_than_pow() {
    // -x ^ 2 == Neg(Pow(x, 2))
    match parse_expr_only("-x ^ 2") {
        Expr::UnOp {
            op: UnOp::Neg,
            operand,
            ..
        } => match *operand {
            Expr::BinOp { op: BinOp::Pow, .. } => {}
            other => panic!("expected Pow under Neg, got {other:?}"),
        },
        other => panic!("expected Neg on top, got {other:?}"),
    }
}

#[test]
fn field_index_call_chain_left_to_right() {
    // a.b[0](c) == Call(Index(Field(a, b), 0), [c])
    match parse_expr_only("a.b[0](c)") {
        Expr::Call { func, args, .. } => {
            assert_eq!(args.len(), 1);
            match *func {
                Expr::Index { .. } => {}
                other => panic!("expected Index as callee, got {other:?}"),
            }
        }
        other => panic!("expected Call on top, got {other:?}"),
    }
}

#[test]
fn chained_comparison_is_an_error() {
    assert!(parse_module("Function f():\n    return a < b < c\n").is_err());
}

// ---- Errors ------------------------------------------------------

#[test]
fn unknown_top_level_form_is_not_implemented() {
    let errs = parse_module("Foobar foo:\n").unwrap_err();
    assert_eq!(errs.len(), 1);
    assert_eq!(errs[0].kind, ErrorKind::NotImplemented);
}

// ---- Lambda --------------------------------------------------------

#[test]
fn lambda_single_param_parses() {
    match parse_expr_only("λ (x : Nat). x") {
        Expr::Lam { params, body, .. } => {
            assert_eq!(params.len(), 1);
            assert_eq!(params[0].name, "x");
            assert!(matches!(*body, Expr::Ident { .. }));
        }
        other => panic!("expected Lam, got {other:?}"),
    }
}

#[test]
fn lambda_two_params_parse() {
    match parse_expr_only("λ (x : Nat) (y : Bool). x") {
        Expr::Lam { params, .. } => {
            assert_eq!(params.len(), 2);
            assert_eq!(params[0].name, "x");
            assert_eq!(params[1].name, "y");
        }
        other => panic!("expected Lam, got {other:?}"),
    }
}

#[test]
fn lambda_body_extends_right() {
    // λ (x : Nat). x + 1  ==  Lam([x], x + 1)
    match parse_expr_only("λ (x : Nat). x + 1") {
        Expr::Lam { body, .. } => assert!(matches!(*body, Expr::BinOp { .. })),
        other => panic!("expected Lam, got {other:?}"),
    }
}

#[test]
fn lambda_missing_annotation_is_an_error() {
    assert!(parse_module("Function f():\n    return λ x . x\n").is_err());
}

#[test]
fn lambda_without_params_is_an_error() {
    assert!(parse_module("Function f():\n    return λ . x\n").is_err());
}

// ---- If expressions ------------------------------------------------

fn parse_if_only(source: &str) -> IfExpr {
    match parse_expr_only(source) {
        Expr::If(e) => e,
        other => panic!("expected If, got {other:?}"),
    }
}

fn ident_text(e: &Expr) -> &str {
    match e {
        Expr::Ident { text, .. } => text,
        other => panic!("expected Ident, got {other:?}"),
    }
}

#[test]
fn if_parses_branches() {
    let e = parse_if_only("if a then b else c");
    assert_eq!(ident_text(&e.cond), "a");
    assert_eq!(ident_text(&e.then_branch), "b");
    assert_eq!(ident_text(&e.else_branch), "c");
}

#[test]
fn if_condition_extends_right() {
    match parse_if_only("if a + 1 then b else c").cond.as_ref() {
        Expr::BinOp { op: BinOp::Add, .. } => {}
        other => panic!("expected Add condition, got {other:?}"),
    }
}

#[test]
fn if_then_branch_extends_right() {
    match parse_if_only("if a then b + 1 else c").then_branch.as_ref() {
        Expr::BinOp { op: BinOp::Add, .. } => {}
        other => panic!("expected Add then-branch, got {other:?}"),
    }
}

#[test]
fn if_else_branch_extends_right() {
    match parse_if_only("if a then b else c + 1").else_branch.as_ref() {
        Expr::BinOp { op: BinOp::Add, .. } => {}
        other => panic!("expected Add else-branch, got {other:?}"),
    }
}

#[test]
fn if_nests_in_then_branch() {
    match parse_if_only("if a then if b then x else y else z")
        .then_branch
        .as_ref()
    {
        Expr::If(_) => {}
        other => panic!("expected nested If, got {other:?}"),
    }
}

#[test]
fn if_nests_in_else_branch() {
    match parse_if_only("if a then x else if b then y else z")
        .else_branch
        .as_ref()
    {
        Expr::If(_) => {}
        other => panic!("expected nested If, got {other:?}"),
    }
}

#[test]
fn if_missing_then_is_an_error() {
    assert!(parse_module("Function f():\n    return if a\n").is_err());
}

#[test]
fn if_missing_else_is_an_error() {
    assert!(parse_module("Function f():\n    return if a then b\n").is_err());
}

#[test]
fn if_missing_condition_is_an_error() {
    assert!(parse_module("Function f():\n    return if then b else c\n").is_err());
}

// ---- Let statements ------------------------------------------------

fn parse_body_stmts(source: &str) -> Vec<Stmt> {
    let m = parse_module(source).expect("parse should succeed");
    assert_eq!(m.functions.len(), 1);
    m.functions.into_iter().next().unwrap().body
}

#[test]
fn let_then_return_parses_to_two_statements() {
    let body = parse_body_stmts("Function f() -> Nat:\n    let x : Nat = 0\n    return x\n");
    assert_eq!(body.len(), 2);
    assert!(matches!(body[0], Stmt::Let { .. }));
    assert!(matches!(body[1], Stmt::Return { .. }));
}

#[test]
fn let_without_return_is_an_error() {
    assert!(parse_module("Function f() -> Nat:\n    let x : Nat = 0\n").is_err());
}

#[test]
fn bare_return_is_a_valid_body() {
    let body = parse_body_stmts("Function f() -> Nat:\n    return 0\n");
    assert_eq!(body.len(), 1);
    assert!(matches!(body[0], Stmt::Return { .. }));
}

#[test]
fn let_missing_annotation_is_an_error() {
    assert!(parse_module("Function f() -> Nat:\n    let x = 0\n    return x\n").is_err());
}

#[test]
fn let_missing_eq_is_an_error() {
    assert!(parse_module("Function f() -> Nat:\n    let x : Nat 0\n    return x\n").is_err());
}

#[test]
fn two_lets_then_return_parse_in_order() {
    let body = parse_body_stmts(
        "Function f() -> Nat:\n    let x : Nat = 0\n    let y : Nat = x\n    return y\n",
    );
    assert_eq!(body.len(), 3);
    match &body[0] {
        Stmt::Let { name, .. } => assert_eq!(name, "x"),
        other => panic!("expected Let, got {other:?}"),
    }
    match &body[1] {
        Stmt::Let { name, .. } => assert_eq!(name, "y"),
        other => panic!("expected Let, got {other:?}"),
    }
    assert!(matches!(body[2], Stmt::Return { .. }));
}

// ---- Reserved binding names ----------------------------------------

#[test]
fn keyword_as_function_name_is_an_error() {
    assert!(parse_module("Function if() -> Nat:\n    return 0\n").is_err());
}

#[test]
fn keyword_as_let_name_is_an_error() {
    assert!(
        parse_module("Function f() -> Nat:\n    let return : Nat = 0\n    return 0\n").is_err()
    );
}

#[test]
fn match_cannot_be_a_function_name() {
    assert!(parse_module("Function match() -> Nat:\n    return 0\n").is_err());
}

#[test]
fn case_cannot_be_a_parameter_name() {
    assert!(parse_module("Function f(case : Nat) -> Nat:\n    return case\n").is_err());
}

#[test]
fn module_cannot_be_a_let_binding_name() {
    assert!(
        parse_module("Function f() -> Nat:\n    let Module : Nat = 0\n    return 0\n").is_err()
    );
}

#[test]
fn keyword_as_match_name_is_an_error() {
    assert!(parse_module("Function match() -> Nat:\n    return 0\n").is_err());
}

#[test]
fn keyword_as_parameter_name_is_an_error() {
    assert!(parse_module("Function f(case : Nat) -> Nat:\n    return case\n").is_err());
}

#[test]
fn keyword_as_module_name_is_an_error() {
    assert!(parse_module("Function Module() -> Nat:\n    return 0\n").is_err());
}

// ---- Match expressions ---------------------------------------------

/// Parse `return <match>` inside a function and return the match node.
fn parse_match_only(arms: &str) -> MatchExpr {
    let src = format!("Function f(n : Nat) -> Nat:\n    return match n:\n{arms}\n");
    let m = parse_module(&src).expect("parse should succeed");
    assert_eq!(m.functions.len(), 1);
    let mut functions = m.functions;
    let mut body = functions.remove(0).body;
    assert_eq!(body.len(), 1);
    match body.remove(0) {
        Stmt::Return { value, .. } => match value {
            Expr::Match(e) => e,
            other => panic!("expected Match, got {other:?}"),
        },
        other => panic!("expected Return, got {other:?}"),
    }
}

#[test]
fn match_two_arms_parse() {
    let m = parse_match_only("        case Nat.zero => Nat.zero\n        case Nat.succ k => k");
    assert_eq!(m.arms.len(), 2);
}

#[test]
fn match_patterns_resolve_to_nodes() {
    let m = parse_match_only("        case Nat.zero => Nat.zero\n        case Nat.succ k => k");
    match &m.arms[0].pattern {
        Pattern::Constructor { name, args, .. } => {
            assert_eq!(name, "Nat.zero");
            assert!(args.is_empty());
        }
        other => panic!("expected Constructor, got {other:?}"),
    }
    match &m.arms[1].pattern {
        Pattern::Constructor { name, args, .. } => {
            assert_eq!(name, "Nat.succ");
            assert_eq!(args.len(), 1);
        }
        other => panic!("expected Constructor, got {other:?}"),
    }
}

#[test]
fn wildcard_arm_parses() {
    let m = parse_match_only("        case _ => Nat.zero");
    assert_eq!(m.arms.len(), 1);
    assert!(matches!(m.arms[0].pattern, Pattern::Wildcard(_)));
}

#[test]
fn variable_arm_parses() {
    let m = parse_match_only("        case k => k");
    assert_eq!(m.arms.len(), 1);
    match &m.arms[0].pattern {
        Pattern::Var { name, .. } => assert_eq!(name, "k"),
        other => panic!("expected Var, got {other:?}"),
    }
}

#[test]
fn nullary_constructor_parses() {
    let m = parse_match_only("        case Nat.zero => Nat.zero");
    match &m.arms[0].pattern {
        Pattern::Constructor { args, .. } => assert!(args.is_empty()),
        other => panic!("expected Constructor, got {other:?}"),
    }
}

#[test]
fn constructor_arg_parses() {
    let m = parse_match_only("        case Nat.succ(k) => k");
    match &m.arms[0].pattern {
        Pattern::Constructor { args, .. } => match &args[..] {
            [PatternArg::Var { name, .. }] => assert_eq!(name, "k"),
            other => panic!("expected one Var arg, got {other:?}"),
        },
        other => panic!("expected Constructor, got {other:?}"),
    }
}

#[test]
fn multi_arg_constructor_parses_name_agnostically() {
    let m = parse_match_only("        case Pair(fst, snd) => fst");
    match &m.arms[0].pattern {
        Pattern::Constructor { name, args, .. } => {
            assert_eq!(name, "Pair");
            assert_eq!(args.len(), 2);
        }
        other => panic!("expected Constructor, got {other:?}"),
    }
}

#[test]
fn nested_wildcard_arg_parses() {
    let m = parse_match_only("        case Nat.succ(_) => Nat.zero");
    match &m.arms[0].pattern {
        Pattern::Constructor { args, .. } => match &args[..] {
            [PatternArg::Wildcard(_)] => {}
            other => panic!("expected one Wildcard arg, got {other:?}"),
        },
        other => panic!("expected Constructor, got {other:?}"),
    }
}

#[test]
fn compound_scrutinee_parses() {
    let src = "Function f(n : Nat) -> Nat:\n    return match n + 1:\n        case Nat.zero => Nat.zero\n        case Nat.succ k => k\n";
    let m2 = parse_module(src).expect("parse should succeed");
    let body = &m2.functions[0].body;
    match &body[0] {
        Stmt::Return {
            value: Expr::Match(e),
            ..
        } => match e.scrutinee.as_ref() {
            Expr::BinOp { op: BinOp::Add, .. } => {}
            other => panic!("expected Add scrutinee, got {other:?}"),
        },
        other => panic!("expected Return(Match), got {other:?}"),
    }
}

#[test]
fn if_scrutinee_parses() {
    let src = "Function f(c : Bool, a : Nat, b : Nat) -> Nat:\n    return match if c then a else b:\n        case Nat.zero => Nat.zero\n        case Nat.succ k => k\n";
    let m = parse_module(src).expect("parse should succeed");
    let body = &m.functions[0].body;
    match &body[0] {
        Stmt::Return {
            value: Expr::Match(e),
            ..
        } => match e.scrutinee.as_ref() {
            Expr::If(_) => {}
            other => panic!("expected If scrutinee, got {other:?}"),
        },
        other => panic!("expected Return(Match), got {other:?}"),
    }
}

#[test]
fn match_missing_colon_is_an_error() {
    assert!(parse_module("Function f(n : Nat) -> Nat:\n    return match n\n").is_err());
}

#[test]
fn match_no_arms_is_an_error() {
    // `match n:` followed by a dedent (no indented arms).
    assert!(
        parse_module("Function f(n : Nat) -> Nat:\n    return match n:\nFunction g() -> Nat:\n    return 0\n")
            .is_err()
    );
}

#[test]
fn match_missing_case_is_an_error() {
    assert!(
        parse_module(
            "Function f(n : Nat) -> Nat:\n    return match n:\n        Nat.zero => Nat.zero\n"
        )
        .is_err()
    );
}

#[test]
fn match_missing_fatarrow_is_an_error() {
    assert!(
        parse_module(
            "Function f(n : Nat) -> Nat:\n    return match n:\n        case Nat.zero Nat.zero\n"
        )
        .is_err()
    );
}

#[test]
fn nested_constructor_pattern_rejected() {
    let errs =
        parse_module("Function f(n : Nat) -> Nat:\n    return match n:\n        case Nat.succ(Nat.zero) => Nat.zero\n")
            .unwrap_err();
    assert_eq!(errs.len(), 1);
    assert_eq!(errs[0].kind, ErrorKind::NotImplemented);
}

#[test]
fn mixed_arm_indentation_is_an_error() {
    assert!(
        parse_module(
            "Function f(n : Nat) -> Nat:\n    return match n:\n        case Nat.zero => Nat.zero\n      case Nat.succ k => k\n"
        )
        .is_err()
    );
}

// ---- Structure declarations ----------------------------------------

fn parse_structures_only(src: &str) -> Module {
    parse_module(src).expect("parse should succeed")
}

#[test]
fn structure_two_nat_fields_parse() {
    let m = parse_structures_only("Structure Point2D:\n    x : Nat\n    y : Nat\n");
    assert_eq!(m.structures.len(), 1);
    let s = &m.structures[0];
    assert_eq!(s.name, "Point2D");
    assert!(s.params.is_empty());
    assert_eq!(s.fields.len(), 2);
    assert_eq!(s.fields[0].name, "x");
    assert_eq!(s.fields[1].name, "y");
}

#[test]
fn structure_with_parameter_parses() {
    let m = parse_structures_only("Structure Box(A : Type):\n    contents : A\n");
    assert_eq!(m.structures.len(), 1);
    let s = &m.structures[0];
    assert_eq!(s.name, "Box");
    assert_eq!(s.params.len(), 1);
    assert_eq!(s.params[0].name, "A");
    assert_eq!(s.fields.len(), 1);
    assert_eq!(s.fields[0].name, "contents");
}

#[test]
fn structure_recursive_field_parses() {
    let m = parse_structures_only("Structure Wrapper:\n    value : Nat\n    inner : Wrapper\n");
    assert_eq!(m.structures.len(), 1);
    assert_eq!(m.structures[0].fields.len(), 2);
}

#[test]
fn structure_field_compound_type_parses() {
    let m = parse_structures_only("Structure Endo:\n    f : Nat -> Nat\n");
    assert_eq!(m.structures.len(), 1);
    assert_eq!(m.structures[0].fields.len(), 1);
}

#[test]
fn structure_field_referencing_parameter_parses() {
    let m = parse_structures_only(
        "Structure Stream(A : Type):\n    head : A\n    tail : Stream(A)\n",
    );
    let s = &m.structures[0];
    assert_eq!(s.params.len(), 1);
    assert_eq!(s.fields.len(), 2);
}

#[test]
fn multiple_structures_parse() {
    let m = parse_structures_only(
        "Structure Point2D:\n    x : Nat\n    y : Nat\n\nStructure Wrapper:\n    value : Nat\n    inner : Wrapper\n",
    );
    assert_eq!(m.structures.len(), 2);
    assert_eq!(m.structures[0].name, "Point2D");
    assert_eq!(m.structures[1].name, "Wrapper");
}

#[test]
fn structure_followed_by_function_parses() {
    let m = parse_structures_only(
        "Structure Point2D:\n    x : Nat\n    y : Nat\n\nFunction origin() -> Point2D:\n    return Point2D.mk(0, 0)\n",
    );
    assert_eq!(m.structures.len(), 1);
    assert_eq!(m.functions.len(), 1);
    assert_eq!(m.functions[0].name, "origin");
}

#[test]
fn structure_with_no_fields_is_an_error() {
    assert!(parse_module("Structure Foo:\n").is_err());
}

#[test]
fn structure_missing_name_is_an_error() {
    assert!(parse_module("Structure :\n    x : Nat\n").is_err());
}

#[test]
fn structure_missing_colon_is_an_error() {
    assert!(parse_module("Structure Foo\n    x : Nat\n").is_err());
}

#[test]
fn structure_field_missing_colon_is_an_error() {
    assert!(parse_module("Structure Foo:\n    x = Nat\n").is_err());
}

#[test]
fn structure_name_is_reserved() {
    assert!(parse_module("Function Structure() -> Nat:\n    return 0\n").is_err());
}

// ---- Theorems ---------------------------------------------------

fn parse_theorem_only(source: &str) -> TheoremDef {
    let m = parse_module(source).expect("parse should succeed");
    assert_eq!(m.theorems.len(), 1);
    m.theorems.into_iter().next().unwrap()
}

#[test]
fn theorem_no_given_no_assume_parses() {
    let t = parse_theorem_only(
        "Theorem zero_eq_zero:\n    Show: Eq(Nat, 0, 0)\n    Proof: Eq.refl(Nat, 0)\n    QED\n",
    );
    assert_eq!(t.name, "zero_eq_zero");
    assert!(t.given.is_empty());
    assert!(t.hypotheses.is_empty());
}

#[test]
fn theorem_with_given_parses() {
    let t = parse_theorem_only(
        "Theorem refl_nat:\n    Given:\n        n : Nat\n    Show: Eq(Nat, n, n)\n    Proof: Eq.refl(Nat, n)\n    QED\n",
    );
    assert_eq!(t.given.len(), 1);
    assert_eq!(t.given[0].name, "n");
}

#[test]
fn theorem_with_two_given_parses() {
    let t = parse_theorem_only(
        "Theorem f:\n    Given:\n        a : Nat\n        b : Nat\n    Show: Eq(Nat, a, a)\n    Proof: Eq.refl(Nat, a)\n    QED\n",
    );
    assert_eq!(t.given.len(), 2);
    assert_eq!(t.given[0].name, "a");
    assert_eq!(t.given[1].name, "b");
}

#[test]
fn theorem_with_assume_parses() {
    let t = parse_theorem_only(
        "Theorem modus_ponens:\n    Assume:\n        h : P\n    Show: P\n    Proof: h\n    QED\n",
    );
    assert_eq!(t.hypotheses.len(), 1);
    assert_eq!(t.hypotheses[0].name, "h");
}

#[test]
fn theorem_with_given_and_assume_parses() {
    let t = parse_theorem_only(
        "Theorem f:\n    Given:\n        n : Nat\n    Assume:\n        h : Eq(Nat, n, 0)\n    Show: Eq(Nat, n, 0)\n    Proof: h\n    QED\n",
    );
    assert_eq!(t.given.len(), 1);
    assert_eq!(t.hypotheses.len(), 1);
}

#[test]
fn theorem_missing_show_is_an_error() {
    assert!(parse_module("Theorem f:\n    Proof: x\n    QED\n").is_err());
}

#[test]
fn theorem_missing_proof_is_an_error() {
    assert!(parse_module("Theorem f:\n    Show: P\n    QED\n").is_err());
}

#[test]
fn theorem_missing_qed_is_an_error() {
    assert!(parse_module("Theorem f:\n    Show: P\n    Proof: x\n").is_err());
}

#[test]
fn theorem_and_function_coexist() {
    let m = parse_module(
        "Function f() -> Nat:\n    return 0\n\nTheorem t:\n    Show: P\n    Proof: h\n    QED\n",
    )
    .unwrap();
    assert_eq!(m.functions.len(), 1);
    assert_eq!(m.theorems.len(), 1);
}

// ---- Declarative proof steps -----------------------------------

fn parse_theorem_only_with_steps(source: &str) -> TheoremDef {
    let m = parse_module(source).expect("parse should succeed");
    assert_eq!(m.theorems.len(), 1);
    m.theorems.into_iter().next().unwrap()
}

fn steps_of(t: &TheoremDef) -> &[ProofStep] {
    match &t.proof {
        ProofBlock::Steps(s) => s,
        ProofBlock::Term(_) => panic!("expected step block, got term"),
    }
}

#[test]
fn term_mode_proof_still_parses() {
    let t = parse_theorem_only_with_steps("Theorem t:\n    Show: P\n    Proof: h\n    QED\n");
    assert!(matches!(t.proof, ProofBlock::Term(_)));
}

#[test]
fn single_exact_step_parses() {
    let t = parse_theorem_only_with_steps(
        "Theorem t:\n    Show: P\n    Proof:\n        1. Exact h\n    QED\n",
    );
    let s = steps_of(&t);
    assert_eq!(s.len(), 1);
    assert_eq!(s[0].number, 1);
    assert!(matches!(s[0].kind, ProofStepKind::Exact { .. }));
}

#[test]
fn let_have_exact_chain_parses() {
    let t = parse_theorem_only_with_steps(
        "Theorem t:\n    Show: P\n    Proof:\n        1. Let n : Nat = 0\n        2. Have h : P = h0\n        3. Exact h\n    QED\n",
    );
    let s = steps_of(&t);
    assert_eq!(s.len(), 3);
    assert!(matches!(s[0].kind, ProofStepKind::Let { .. }));
    assert!(matches!(s[1].kind, ProofStepKind::Have { .. }));
    assert!(matches!(s[2].kind, ProofStepKind::Exact { .. }));
    assert_eq!(s[0].number, 1);
    assert_eq!(s[1].number, 2);
    assert_eq!(s[2].number, 3);
}

#[test]
fn let_without_annotation_parses() {
    let t = parse_theorem_only_with_steps(
        "Theorem t:\n    Show: P\n    Proof:\n        1. Let n = 0\n        2. Exact h\n    QED\n",
    );
    match &steps_of(&t)[0].kind {
        ProofStepKind::Let { ty, .. } => assert!(ty.is_none()),
        other => panic!("expected Let, got {other:?}"),
    }
}

#[test]
fn step_justification_parses() {
    let t = parse_theorem_only_with_steps(
        "Theorem t:\n    Show: P\n    Proof:\n        1. Exact h [by refl]\n    QED\n",
    );
    let s = steps_of(&t);
    assert_eq!(s[0].justification.as_deref(), Some("by refl"));
}

#[test]
fn non_sequential_step_number_rejected() {
    let errs = parse_module(
        "Theorem t:\n    Show: P\n    Proof:\n        1. Exact h\n        3. Exact h\n    QED\n",
    )
    .unwrap_err();
    assert_eq!(errs.len(), 1);
    assert!(errs[0].message.contains("expected step number 2"));
}

#[test]
fn step_number_not_starting_at_one_rejected() {
    let errs =
        parse_module("Theorem t:\n    Show: P\n    Proof:\n        2. Exact h\n    QED\n")
            .unwrap_err();
    assert_eq!(errs.len(), 1);
    assert!(errs[0].message.contains("expected step number 1"));
}

#[test]
fn empty_proof_block_rejected() {
    let errs = parse_module("Theorem t:\n    Show: P\n    Proof:\n    QED\n").unwrap_err();
    assert_eq!(errs.len(), 1);
    assert!(
        errs[0].message.contains("at least one step")
            || errs[0].message.contains("expected an indented block")
    );
}

#[test]
fn unknown_step_keyword_rejected() {
    let errs =
        parse_module("Theorem t:\n    Show: P\n    Proof:\n        1. Assume q\n    QED\n")
            .unwrap_err();
    assert_eq!(errs.len(), 1);
    assert!(
        errs[0]
            .message
            .contains("expected `Let`, `Have`, `Exact`, or `From`"),
        "stderr was:\n{}",
        errs[0].message
    );
}

#[test]
fn from_step_parses() {
    let t = parse_theorem_only_with_steps(
        "Theorem t:\n    Assume:\n        h : P\n    Show: P\n    Proof:\n        1. From h\n    QED\n",
    );
    match &steps_of(&t)[0].kind {
        ProofStepKind::From { name, .. } => assert_eq!(name, "h"),
        other => panic!("expected From, got {other:?}"),
    }
}

#[test]
fn from_step_with_justification_parses() {
    let t = parse_theorem_only_with_steps(
        "Theorem t:\n    Assume:\n        h : P\n    Show: P\n    Proof:\n        1. From h [by assumption]\n    QED\n",
    );
    let s = steps_of(&t);
    assert!(matches!(s[0].kind, ProofStepKind::From { .. }));
    assert_eq!(s[0].justification.as_deref(), Some("by assumption"));
}

#[test]
fn from_step_missing_name_rejected() {
    let errs = parse_module("Theorem t:\n    Show: P\n    Proof:\n        1. From\n    QED\n")
        .unwrap_err();
    assert_eq!(errs.len(), 1);
    assert!(errs[0].message.contains("identifier"));
}

#[test]
fn unterminated_justification_rejected() {
    let errs = parse_module(
        "Theorem t:\n    Show: P\n    Proof:\n        1. Exact h [by refl\n    QED\n",
    )
    .unwrap_err();
    assert_eq!(errs.len(), 1);
    assert!(errs[0].message.contains("unterminated") || errs[0].message.contains("expected"),);
}

#[test]
fn justification_text_is_trimmed_and_nests() {
    let t = parse_theorem_only_with_steps(
        "Theorem t:\n    Show: P\n    Proof:\n        1. Exact h [  by [nested] refl  ]\n    QED\n",
    );
    let s = steps_of(&t);
    assert_eq!(s[0].justification.as_deref(), Some("by [nested] refl"));
}

#[test]
fn string_literal_escapes_are_resolved() {
    match parse_expr_only("\"a\\nb\\t\\\"q\\\"\\\\\"") {
        Expr::Str { value, .. } => assert_eq!(value, "a\nb\t\"q\"\\"),
        other => panic!("expected Str, got {other:?}"),
    }
}

#[test]
fn natural_literal_keeps_its_value() {
    match parse_expr_only("18446744073709551615") {
        Expr::Nat { value, .. } => assert_eq!(value, u64::MAX),
        other => panic!("expected Nat, got {other:?}"),
    }
}

#[test]
fn natural_literal_out_of_range_is_invalid() {
    let errs = parse_module("Function f():\n    return 18446744073709551616\n").unwrap_err();
    assert_eq!(errs.len(), 1);
    assert_eq!(errs[0].kind, ErrorKind::InvalidLiteral);
    assert_eq!(errs[0].message, "integer literal out of range");
}

#[test]
fn step_number_mismatch_names_both_numbers() {
    let errs = parse_module(
        "Theorem t:\n    Show: P\n    Proof:\n        1. Exact h\n        3. Exact h\n    QED\n",
    )
    .unwrap_err();
    assert_eq!(errs[0].message, "expected step number 2, found 3");
}

#[test]
fn unknown_top_level_form_names_the_word() {
    let errs = parse_module("Foobar foo:\n").unwrap_err();
    assert_eq!(
        errs[0].message,
        "`Foobar` is not yet implemented (only Module, Import, Structure, Function, and Theorem are supported in this delivery)"
    );
    assert_eq!(errs[0].span.start, 0);
    assert_eq!(errs[0].span.end, 6);
}

#[test]
fn module_span_covers_the_source() {
    let src = "Module A.B\n\nFunction f():\n    return 1\n";
    let m = parse_module(src).unwrap();
    assert_eq!(m.span.start, 0);
    assert_eq!(m.span.end as usize, src.len());
    assert_eq!(m.decl.unwrap().path.segments.len(), 2);
}

#[test]
fn duplicate_module_declaration_is_an_error() {
    let errs = parse_module("Module A\nModule B\n").unwrap_err();
    assert_eq!(errs[0].message, "duplicate Module declaration");
}
