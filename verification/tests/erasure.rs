use std::rc::Rc;
use lib::env::{ConstantInfo, ConstantVal, DefinitionVal, LocalDecl, TerminationObligation, TheoremVal};
use lib::erasure::{erase_closed, Eraser, ErasureEnv, ErasureSort, GhostSet, LValue, PropOnlyErasureEnv};
use lib::expr::{BinderInfo, DeBruijnIndex, Expr};
use lib::infer::{TypeChecker, TypedContext};
use lib::level::Level;
use lib::name::NameId;
use lib::nbe::Transparency;
use lib::prelude::{build_prelude, Prelude};

/// A prelude extended with a proposition `P : Prop` and a proof `proof_p : P`.
fn setup() -> (Prelude, NameId, NameId) {
    let mut p = build_prelude();
    let prop_p = p.names.intern("P");
    let proof_p = p.names.intern("proof_p");
    p.env
        .add(ConstantInfo::Axiom(ConstantVal { name: prop_p, universe_params: Vec::new(), ty: Rc::new(Expr::prop()) }))
        .unwrap();
    p.env
        .add(ConstantInfo::Axiom(ConstantVal {
            name: proof_p,
            universe_params: Vec::new(),
            ty: Rc::new(Expr::Const(prop_p, Vec::new())),
        }))
        .unwrap();
    (p, prop_p, proof_p)
}

fn erase(p: &Prelude, e: &Expr) -> LValue {
    let env = PropOnlyErasureEnv;
    erase_closed(&p.env, &env, e).expect("erasure should succeed")
}

fn var(i: u32) -> Expr {
    Expr::Var(DeBruijnIndex(i))
}

fn lam(name: NameId, dom: Expr, body: Expr) -> Expr {
    Expr::lam(name, dom, body)
}

fn nat_binder_ctx(p: &mut Prelude) -> TypedContext {
    let mut ctx = TypedContext::empty();
    let nat_v = {
        let checker = TypeChecker::new(&p.env);
        checker.nbe().eval(&ctx.to_env(), &Expr::Const(p.nat, Vec::new())).unwrap()
    };
    let n = p.names.intern("n");
    ctx.push(LocalDecl::binder(n, BinderInfo::Default, Rc::new(Expr::Const(p.nat, Vec::new()))), nat_v);
    ctx
}

#[test]
fn prop_erases_to_star() {
    let (p, _, _) = setup();
    assert_eq!(erase(&p, &Expr::prop()), LValue::Star);
}

#[test]
fn type_zero_erases_to_star() {
    let (p, _, _) = setup();
    assert_eq!(erase(&p, &Expr::type0()), LValue::Star);
}

#[test]
fn pi_type_erases_to_star() {
    let (mut p, _, _) = setup();
    let u = p.names.intern("_");
    let ty = Expr::arrow(Expr::Const(p.nat, Vec::new()), Expr::Const(p.nat, Vec::new()), u);
    assert_eq!(erase(&p, &ty), LValue::Star);
}

#[test]
fn nat_zero_erases_to_const() {
    let (p, _, _) = setup();
    assert_eq!(erase(&p, &Expr::Const(p.zero, Vec::new())), LValue::Const(p.zero));
}

#[test]
fn nat_succ_erases_to_const() {
    let (p, _, _) = setup();
    assert_eq!(erase(&p, &Expr::Const(p.succ, Vec::new())), LValue::Const(p.succ));
}

#[test]
fn prop_constant_erases_to_itself() {
    let (p, prop_p, _) = setup();
    assert_eq!(erase(&p, &Expr::Const(prop_p, Vec::new())), LValue::Const(prop_p));
}

#[test]
fn proof_erases_to_star() {
    let (p, _, proof_p) = setup();
    assert_eq!(erase(&p, &Expr::Const(proof_p, Vec::new())), LValue::Star);
}

#[test]
fn variable_passes_through() {
    let (mut p, _, _) = setup();
    let ctx = nat_binder_ctx(&mut p);
    let env = PropOnlyErasureEnv;
    let eraser = Eraser::new(&p.env, &env);
    let lv = eraser.erase(&ctx, &var(0)).unwrap();
    assert_eq!(lv, LValue::Var(DeBruijnIndex(0)));
}

#[test]
fn identity_nat_erases_to_lambda() {
    let (mut p, _, _) = setup();
    let n = p.names.intern("n");
    let e = lam(n, Expr::Const(p.nat, Vec::new()), var(0));
    assert_eq!(erase(&p, &e), LValue::Lam(Box::new(LValue::Var(DeBruijnIndex(0)))));
}

#[test]
fn succ_lambda_erases_correctly() {
    let (mut p, _, _) = setup();
    let n = p.names.intern("n");
    let e = lam(n, Expr::Const(p.nat, Vec::new()), Expr::app(Expr::Const(p.succ, Vec::new()), var(0)));
    let expected = LValue::Lam(Box::new(LValue::App(
        Box::new(LValue::Const(p.succ)),
        Box::new(LValue::Var(DeBruijnIndex(0))),
    )));
    assert_eq!(erase(&p, &e), expected);
}

#[test]
fn lambda_with_proof_domain_keeps_binder() {
    let (mut p, prop_p, _) = setup();
    let proof_x = p.names.intern("p");
    let e = lam(proof_x, Expr::Const(prop_p, Vec::new()), Expr::Const(p.zero, Vec::new()));
    assert_eq!(erase(&p, &e), LValue::Lam(Box::new(LValue::Const(p.zero))));
}

#[test]
fn prop_typed_lambda_is_star() {
    let (mut p, prop_p, _) = setup();
    let proof_x = p.names.intern("p");
    let e = lam(proof_x, Expr::Const(prop_p, Vec::new()), var(0));
    assert_eq!(erase(&p, &e), LValue::Star);
}

#[test]
fn identity_over_a_type_erases_to_lambda() {
    let (mut p, _, _) = setup();
    let a_name = p.names.intern("A");
    let x_name = p.names.intern("x");
    let e = lam(a_name, Expr::type0(), lam(x_name, var(0), var(0)));
    let expected = LValue::Lam(Box::new(LValue::Lam(Box::new(LValue::Var(DeBruijnIndex(0))))));
    assert_eq!(erase(&p, &e), expected);
}

#[test]
fn application_of_consts_erases_to_app() {
    let (p, _, _) = setup();
    let e = Expr::app(Expr::Const(p.succ, Vec::new()), Expr::Const(p.zero, Vec::new()));
    let expected = LValue::App(Box::new(LValue::Const(p.succ)), Box::new(LValue::Const(p.zero)));
    assert_eq!(erase(&p, &e), expected);
}

#[test]
fn application_with_proof_argument_substitutes_star() {
    let (mut p, prop_p, proof_p) = setup();
    let x = p.names.intern("x");
    let lam_expr = lam(x, Expr::Const(prop_p, Vec::new()), Expr::Const(p.zero, Vec::new()));
    let e = Expr::app(lam_expr, Expr::Const(proof_p, Vec::new()));
    let expected = LValue::App(Box::new(LValue::Lam(Box::new(LValue::Const(p.zero)))), Box::new(LValue::Star));
    assert_eq!(erase(&p, &e), expected);
}

#[test]
fn let_erases_to_application() {
    let (mut p, _, _) = setup();
    let x = p.names.intern("x");
    let e = Expr::Let(
        x,
        Box::new(Expr::Const(p.nat, Vec::new())),
        Box::new(Expr::Const(p.zero, Vec::new())),
        Box::new(var(0)),
    );
    let expected = LValue::App(
        Box::new(LValue::Lam(Box::new(LValue::Var(DeBruijnIndex(0))))),
        Box::new(LValue::Const(p.zero)),
    );
    assert_eq!(erase(&p, &e), expected);
}

#[test]
fn ghost_marked_constant_erases_to_star() {
    let (p, _, _) = setup();
    let mut ghost = GhostSet::new();
    ghost.mark(p.nat);
    let lv = erase_closed(&p.env, &ghost, &Expr::Const(p.nat, Vec::new())).unwrap();
    assert_eq!(lv, LValue::Star);
}

#[test]
fn ghost_marked_head_marks_application_as_ghost() {
    let (p, _, _) = setup();
    let mut ghost = GhostSet::new();
    ghost.mark(p.succ);
    let e = Expr::app(Expr::Const(p.succ, Vec::new()), Expr::Const(p.zero, Vec::new()));
    let lv = erase_closed(&p.env, &ghost, &e).unwrap();
    let expected = LValue::App(Box::new(LValue::Star), Box::new(LValue::Const(p.zero)));
    assert_eq!(lv, expected);
}

#[test]
fn ghost_type_marks_inhabitants_as_ghost() {
    let (mut p, _, _) = setup();
    let ctx = nat_binder_ctx(&mut p);
    let mut ghost = GhostSet::new();
    ghost.mark(p.nat);
    let eraser = Eraser::new(&p.env, &ghost);
    let lv = eraser.erase(&ctx, &var(0)).unwrap();
    assert_eq!(lv, LValue::Star);
}

#[test]
fn ghost_set_lifecycle() {
    let mut ghost = GhostSet::new();
    assert!(ghost.is_empty());
    let name = NameId(42);
    ghost.mark(name);
    assert!(ghost.is_ghost(name));
    assert_eq!(ghost.len(), 1);
    ghost.unmark(name);
    assert!(!ghost.is_ghost(name));
    assert!(ghost.is_empty());
}

#[test]
fn erase_declaration_of_definition() {
    let (mut p, _, _) = setup();
    let id_name = p.names.intern("id");
    let n = p.names.intern("n");
    let u = p.names.intern("_");
    let ty = Expr::arrow(Expr::Const(p.nat, Vec::new()), Expr::Const(p.nat, Vec::new()), u);
    let body = lam(n, Expr::Const(p.nat, Vec::new()), var(0));
    p.env
        .add(ConstantInfo::Definition(DefinitionVal {
            base: ConstantVal { name: id_name, universe_params: Vec::new(), ty: Rc::new(ty) },
            body: Rc::new(body),
            transparency: Transparency::Semireducible,
            termination: TerminationObligation::none(),
        }))
        .unwrap();
    let info = p.env.find(id_name).unwrap();
    let env = PropOnlyErasureEnv;
    let eraser = Eraser::new(&p.env, &env);
    let result = eraser.erase_declaration(&info).unwrap();
    assert_eq!(result, Some(LValue::Lam(Box::new(LValue::Var(DeBruijnIndex(0))))));
}

#[test]
fn erase_declaration_of_theorem_is_star() {
    let (mut p, prop_p, _) = setup();
    let thm = p.names.intern("thm");
    p.env
        .add(ConstantInfo::Theorem(TheoremVal {
            base: ConstantVal { name: thm, universe_params: Vec::new(), ty: Rc::new(Expr::Const(prop_p, Vec::new())) },
            body: Rc::new(Expr::Const(prop_p, Vec::new())),
            transparency: Transparency::Irreducible,
        }))
        .unwrap();
    let info = p.env.find(thm).unwrap();
    let env = PropOnlyErasureEnv;
    let eraser = Eraser::new(&p.env, &env);
    assert_eq!(eraser.erase_declaration(&info).unwrap(), Some(LValue::Star));
}

#[test]
fn erase_declaration_of_axiom_is_none() {
    let (p, prop_p, _) = setup();
    let info = p.env.find(prop_p).unwrap();
    let env = PropOnlyErasureEnv;
    let eraser = Eraser::new(&p.env, &env);
    assert!(eraser.erase_declaration(&info).unwrap().is_none());
}

#[test]
fn erase_declaration_of_inductive_is_none() {
    let (p, _, _) = setup();
    let info = p.env.find(p.nat).unwrap();
    let env = PropOnlyErasureEnv;
    let eraser = Eraser::new(&p.env, &env);
    assert!(eraser.erase_declaration(&info).unwrap().is_none());
}

#[test]
fn lvalue_size_counts_correctly() {
    assert_eq!(LValue::Star.size(), 1);
    assert_eq!(LValue::Var(DeBruijnIndex(0)).size(), 1);
    assert_eq!(LValue::Lam(Box::new(LValue::Star)).size(), 2);
    assert_eq!(LValue::App(Box::new(LValue::Star), Box::new(LValue::Star)).size(), 3);
}

#[test]
fn is_star_free_detects_placeholders() {
    assert!(!LValue::Star.is_star_free());
    assert!(LValue::Var(DeBruijnIndex(0)).is_star_free());
    assert!(LValue::Lam(Box::new(LValue::Var(DeBruijnIndex(0)))).is_star_free());
    assert!(!LValue::Lam(Box::new(LValue::Star)).is_star_free());
    assert!(!LValue::App(Box::new(LValue::Var(DeBruijnIndex(0))), Box::new(LValue::Star)).is_star_free());
}

#[test]
fn erasure_render_produces_readable_output() {
    let (p, _, _) = setup();
    let e = Expr::app(Expr::Const(p.succ, Vec::new()), Expr::Const(p.zero, Vec::new()));
    let lv = erase(&p, &e);
    let rendered = lv.render(&p.names);
    assert!(rendered.contains("Nat.succ"));
    assert!(rendered.contains("Nat.zero"));
}

#[test]
fn display_fallback_is_nonempty() {
    assert!(!LValue::Star.describe().is_empty());
    assert!(!LValue::Lam(Box::new(LValue::Star)).describe().is_empty());
}

#[test]
fn plus_erases_to_star_free_term() {
    let (mut p, _, _) = setup();
    let plus_name = p.names.intern("plus");
    let m = p.names.intern("m");
    let n = p.names.intern("n");
    let k = p.names.intern("k");
    let rec_var = p.names.intern("rec");
    let underscore = p.names.intern("_");
    let nat_const = || Expr::Const(p.nat, Vec::new());
    let succ_const = || Expr::Const(p.succ, Vec::new());
    let rec_const = || Expr::Const(p.rec, vec![Level::zero().succ()]);
    let motive = lam(underscore, nat_const(), nat_const());
    let zero_case = var(0);
    let succ_case = lam(k, nat_const(), lam(rec_var, nat_const(), Expr::app(succ_const(), var(0))));
    let major = var(1);
    let body = rec_const().apps(vec![motive, zero_case, succ_case, major]);
    let plus_body = lam(m, nat_const(), lam(n, nat_const(), body));
    let ty = Expr::arrow(nat_const(), Expr::arrow(nat_const(), nat_const(), underscore), underscore);
    p.env
        .add(ConstantInfo::Definition(DefinitionVal {
            base: ConstantVal { name: plus_name, universe_params: Vec::new(), ty: Rc::new(ty) },
            body: Rc::new(plus_body),
            transparency: Transparency::Semireducible,
            termination: TerminationObligation::none(),
        }))
        .unwrap();
    let info = p.env.find(plus_name).unwrap();
    let env = PropOnlyErasureEnv;
    let eraser = Eraser::new(&p.env, &env);
    let lv = eraser.erase_declaration(&info).unwrap().unwrap();
    assert!(matches!(lv, LValue::Lam(_)));
}

#[test]
fn erasure_sorts_report_whether_erased() {
    assert!(ErasureSort::Prop.is_erased());
    assert!(ErasureSort::GhostData.is_erased());
    assert!(!ErasureSort::Compute.is_erased());
}

#[test]
fn describe_renders_structure_without_names() {
    let lv = LValue::App(Box::new(LValue::Lam(Box::new(LValue::Var(DeBruijnIndex(0))))), Box::new(LValue::Star));
    assert_eq!(lv.describe(), "((λ #0) ⋆)");
}

#[test]
fn deep_clone_is_equal() {
    let lv = LValue::App(Box::new(LValue::Lam(Box::new(LValue::Var(DeBruijnIndex(0))))), Box::new(LValue::Star));
    assert_eq!(lv.deep_clone(), lv);
}

#[test]
fn erase_declaration_of_a_type_valued_definition_is_star_unseen() {
    let (mut p, _, _) = setup();
    let name = p.names.intern("T");
    let x = p.names.intern("x");
    // The body is a Π whose codomain mentions a variable out of scope:
    // a type erases to ⋆ without being looked into.
    let body = Expr::Pi(BinderInfo::Default, x, Box::new(Expr::prop()), Box::new(var(7)));
    let info = ConstantInfo::Definition(DefinitionVal {
        base: ConstantVal { name, universe_params: Vec::new(), ty: Rc::new(Expr::type0()) },
        body: Rc::new(body),
        transparency: Transparency::Semireducible,
        termination: TerminationObligation::none(),
    });
    let env = PropOnlyErasureEnv;
    let eraser = Eraser::new(&p.env, &env);
    assert_eq!(eraser.erase_declaration(&info).unwrap(), Some(LValue::Star));
}
