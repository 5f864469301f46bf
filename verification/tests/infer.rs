use std::rc::Rc;
use lib::env::{ConstantInfo, ConstantVal, DefinitionVal, GlobalEnv, LocalDecl, TerminationObligation, TheoremVal};
use lib::error::KernelError;
use lib::expr::{BinderInfo, DeBruijnIndex, Expr, Literal};
use lib::infer::{TypeChecker, TypedContext};
use lib::level::{Level, UniverseParamId};
use lib::name::{NameId, NameTable};
use lib::nbe::{DbLevel, Head, Transparency, ValRef, Value};

struct Fixture {
    names: NameTable,
    env: GlobalEnv,
    nat: NameId,
    prop_val: NameId,
    proof: NameId,
    eq: NameId,
}

fn prelude() -> Fixture {
    let mut names = NameTable::new();
    let nat = names.intern("Nat");
    let prop_val = names.intern("P");
    let proof = names.intern("Proof");
    let eq = names.intern("Eq");
    let mut env = GlobalEnv::new();
    env.add(ConstantInfo::Axiom(ConstantVal { name: nat, universe_params: Vec::new(), ty: Rc::new(Expr::type0()) }))
        .unwrap();
    env.add(ConstantInfo::Axiom(ConstantVal { name: prop_val, universe_params: Vec::new(), ty: Rc::new(Expr::prop()) }))
        .unwrap();
    env.add(ConstantInfo::Axiom(ConstantVal {
        name: proof,
        universe_params: Vec::new(),
        ty: Rc::new(Expr::Pi(
            BinderInfo::Default,
            names.intern("_"),
            Box::new(Expr::Const(prop_val, vec![])),
            Box::new(Expr::Const(prop_val, vec![])),
        )),
    }))
    .unwrap();
    let u = UniverseParamId(100);
    let a_name = names.intern("A");
    let x_name = names.intern("x");
    let y_name = names.intern("y");
    let eq_ty = Expr::Pi(
        BinderInfo::Implicit,
        a_name,
        Box::new(Expr::Sort(Level::param(u))),
        Box::new(Expr::Pi(
            BinderInfo::Default,
            x_name,
            Box::new(Expr::Var(DeBruijnIndex(0))),
            Box::new(Expr::Pi(BinderInfo::Default, y_name, Box::new(Expr::Var(DeBruijnIndex(1))), Box::new(Expr::prop()))),
        )),
    );
    env.add(ConstantInfo::Axiom(ConstantVal { name: eq, universe_params: vec![u], ty: Rc::new(eq_ty) })).unwrap();
    Fixture { names, env, nat, prop_val, proof, eq }
}

fn var(i: u32) -> Expr {
    Expr::Var(DeBruijnIndex(i))
}

fn sort0() -> Expr {
    Expr::prop()
}

fn sort1() -> Expr {
    Expr::type0()
}

fn pi(name: NameId, dom: Expr, cod: Expr) -> Expr {
    Expr::Pi(BinderInfo::Default, name, Box::new(dom), Box::new(cod))
}

fn lam(name: NameId, dom: Expr, body: Expr) -> Expr {
    Expr::Lam(BinderInfo::Default, name, Box::new(dom), Box::new(body))
}

fn eval(tc: &TypeChecker<'_>, ctx: &TypedContext, e: &Expr) -> ValRef {
    tc.nbe().eval(&ctx.to_env(), e).unwrap()
}

#[test]
fn infer_sort_0_gives_sort_1() {
    let p = prelude();
    let tc = TypeChecker::new(&p.env);
    let ty = tc.infer(&TypedContext::empty(), &sort0()).unwrap();
    assert!(matches!(&*ty, Value::Sort(l) if l.normalize() == Level::zero().succ()));
}

#[test]
fn infer_sort_1_gives_sort_2() {
    let p = prelude();
    let tc = TypeChecker::new(&p.env);
    let ty = tc.infer(&TypedContext::empty(), &sort1()).unwrap();
    match &*ty {
        Value::Sort(l) => assert_eq!(l.normalize(), Level::zero().succ().succ()),
        other => panic!("expected Sort(2), got {other:?}"),
    }
}

#[test]
fn infer_axiom_nat() {
    let p = prelude();
    let tc = TypeChecker::new(&p.env);
    let ty = tc.infer(&TypedContext::empty(), &Expr::Const(p.nat, vec![])).unwrap();
    match &*ty {
        Value::Sort(l) => assert_eq!(l.normalize(), Level::zero().succ()),
        other => panic!("expected Sort(1), got {other:?}"),
    }
}

#[test]
fn infer_var_returns_pushed_type() {
    let mut p = prelude();
    let tc = TypeChecker::new(&p.env);
    let mut ctx = TypedContext::empty();
    let nat_v = eval(&tc, &ctx, &Expr::Const(p.nat, vec![]));
    ctx.push(LocalDecl::binder(p.names.intern("x"), BinderInfo::Default, Rc::new(Expr::Const(p.nat, vec![]))), nat_v);
    let ty = tc.infer(&ctx, &var(0)).unwrap();
    match &*ty {
        Value::Neutral(head, _) => assert!(matches!(head, Head::Const(n, _) if *n == p.nat)),
        other => panic!("expected stuck Nat, got {other:?}"),
    }
}

#[test]
fn typed_context_pushes_are_innermost_last() {
    let mut p = prelude();
    let tc = TypeChecker::new(&p.env);
    let mut ctx = TypedContext::empty();
    let nat_v = eval(&tc, &ctx, &Expr::Const(p.nat, vec![]));
    let x = p.names.intern("x");
    let y = p.names.intern("y");
    let z = p.names.intern("z");
    ctx.push(LocalDecl::binder(x, BinderInfo::Default, Rc::new(sort0())), nat_v.clone());
    ctx.push(LocalDecl::binder(y, BinderInfo::Default, Rc::new(sort0())), nat_v.clone());
    ctx.push(LocalDecl::binder(z, BinderInfo::Default, Rc::new(sort0())), nat_v);
    assert_eq!(ctx.lookup(DeBruijnIndex(0)).0.name, z);
    assert_eq!(ctx.lookup(DeBruijnIndex(1)).0.name, y);
    assert_eq!(ctx.lookup(DeBruijnIndex(2)).0.name, x);
    let order: Vec<NameId> = ctx.iter().iter().map(|(d, _)| d.name).collect();
    assert_eq!(order, vec![z, y, x]);
}

#[test]
fn typed_context_push_and_lookup_many() {
    let mut p = prelude();
    let tc = TypeChecker::new(&p.env);
    let nat_v = eval(&tc, &TypedContext::empty(), &Expr::Const(p.nat, vec![]));
    let mut ctx = TypedContext::empty();
    let mut names_by_index = Vec::with_capacity(32);
    for i in 0..32u32 {
        let name = p.names.intern(&format!("x{i}"));
        names_by_index.push(name);
        ctx.push(LocalDecl::binder(name, BinderInfo::Default, Rc::new(Expr::Const(p.nat, vec![]))), Rc::clone(&nat_v));
    }
    assert_eq!(ctx.size(), 32);
    for i in 0..32u32 {
        let (decl, _) = ctx.lookup(DeBruijnIndex(i));
        assert_eq!(decl.name, names_by_index[(31 - i) as usize]);
    }
    let order: Vec<NameId> = ctx.iter().iter().map(|(d, _)| d.name).collect();
    for i in 0..32usize {
        assert_eq!(order[i], names_by_index[31 - i]);
    }
}

#[test]
fn infer_const_wrong_universe_arity_is_rejected() {
    let p = prelude();
    let tc = TypeChecker::new(&p.env);
    let err = tc.infer(&TypedContext::empty(), &Expr::Const(p.eq, vec![])).unwrap_err();
    assert!(matches!(err, KernelError::UniverseArityMismatch { expected: 1, actual: 0, .. }));
}

#[test]
fn infer_const_with_universe_param_ok() {
    let p = prelude();
    let tc = TypeChecker::new(&p.env);
    let ty = tc.infer(&TypedContext::empty(), &Expr::Const(p.eq, vec![Level::zero()])).unwrap();
    assert!(matches!(&*ty, Value::Pi(..)));
}

#[test]
fn infer_const_too_many_universes_is_rejected() {
    let p = prelude();
    let tc = TypeChecker::new(&p.env);
    let err = tc.infer(&TypedContext::empty(), &Expr::Const(p.nat, vec![Level::zero()])).unwrap_err();
    assert!(matches!(err, KernelError::UniverseArityMismatch { expected: 0, actual: 1, .. }));
}

fn sort_of(ty: &Value) -> Level {
    match ty {
        Value::Sort(l) => l.normalize(),
        other => panic!("expected a sort, got {other:?}"),
    }
}

#[test]
fn infer_pi_prop_to_prop_is_prop() {
    let mut p = prelude();
    let tc = TypeChecker::new(&p.env);
    let e = pi(p.names.intern("_"), Expr::Const(p.prop_val, vec![]), Expr::Const(p.prop_val, vec![]));
    let ty = tc.infer(&TypedContext::empty(), &e).unwrap();
    assert_eq!(sort_of(&ty), Level::zero());
}

#[test]
fn infer_pi_nat_to_prop_is_prop() {
    let mut p = prelude();
    let tc = TypeChecker::new(&p.env);
    let e = pi(p.names.intern("_"), Expr::Const(p.nat, vec![]), Expr::Const(p.prop_val, vec![]));
    let ty = tc.infer(&TypedContext::empty(), &e).unwrap();
    assert_eq!(sort_of(&ty), Level::zero());
}

#[test]
fn infer_pi_prop_to_nat_is_sort_1() {
    let mut p = prelude();
    let tc = TypeChecker::new(&p.env);
    let e = pi(p.names.intern("_"), Expr::Const(p.prop_val, vec![]), Expr::Const(p.nat, vec![]));
    let ty = tc.infer(&TypedContext::empty(), &e).unwrap();
    assert_eq!(sort_of(&ty), Level::zero().succ());
}

#[test]
fn infer_pi_nat_to_nat_is_sort_1() {
    let mut p = prelude();
    let tc = TypeChecker::new(&p.env);
    let e = pi(p.names.intern("_"), Expr::Const(p.nat, vec![]), Expr::Const(p.nat, vec![]));
    let ty = tc.infer(&TypedContext::empty(), &e).unwrap();
    assert_eq!(sort_of(&ty), Level::zero().succ());
}

#[test]
fn infer_pi_non_sort_domain_is_rejected() {
    let mut p = prelude();
    let tc = TypeChecker::new(&p.env);
    let mut ctx = TypedContext::empty();
    let y_ty = eval(&tc, &ctx, &sort0());
    ctx.push(LocalDecl::binder(p.names.intern("Y"), BinderInfo::Default, Rc::new(sort0())), y_ty);
    let y_v = eval(&tc, &ctx, &var(0));
    ctx.push(LocalDecl::binder(p.names.intern("x"), BinderInfo::Default, Rc::new(var(0))), y_v);
    let err = tc.infer(&ctx, &pi(p.names.intern("_"), var(0), Expr::Const(p.nat, vec![]))).unwrap_err();
    assert!(matches!(err, KernelError::NotASort { .. }));
}

#[test]
fn infer_app_simple() {
    let mut p = prelude();
    let h = p.names.intern("h");
    p.env
        .add(ConstantInfo::Axiom(ConstantVal {
            name: h,
            universe_params: Vec::new(),
            ty: Rc::new(Expr::Const(p.prop_val, vec![])),
        }))
        .unwrap();
    let tc = TypeChecker::new(&p.env);
    let term = Expr::app(Expr::Const(p.proof, vec![]), Expr::Const(h, vec![]));
    let ty = tc.infer(&TypedContext::empty(), &term).unwrap();
    match &*ty {
        Value::Neutral(head, spine) => {
            assert!(matches!(head, Head::Const(n, _) if *n == p.prop_val));
            assert!(spine.is_empty());
        },
        other => panic!("expected P, got {other:?}"),
    }
}

#[test]
fn infer_app_not_a_function_is_rejected() {
    let p = prelude();
    let tc = TypeChecker::new(&p.env);
    let term = Expr::app(Expr::Const(p.nat, vec![]), Expr::Const(p.nat, vec![]));
    let err = tc.infer(&TypedContext::empty(), &term).unwrap_err();
    assert!(matches!(err, KernelError::NotAFunction { .. }));
}

#[test]
fn infer_lam_is_rejected() {
    let mut p = prelude();
    let tc = TypeChecker::new(&p.env);
    let term = lam(p.names.intern("x"), Expr::Const(p.prop_val, vec![]), var(0));
    let err = tc.infer(&TypedContext::empty(), &term).unwrap_err();
    assert!(matches!(err, KernelError::CannotInfer { .. }));
}

#[test]
fn infer_lit_is_rejected() {
    let p = prelude();
    let tc = TypeChecker::new(&p.env);
    let err = tc.infer(&TypedContext::empty(), &Expr::Lit(Literal::Nat(0))).unwrap_err();
    assert!(matches!(err, KernelError::CannotInfer { .. }));
}

#[test]
fn check_var_same_type_ok() {
    let p = prelude();
    let tc = TypeChecker::new(&p.env);
    let ctx = TypedContext::empty();
    let nat_ty = tc.infer(&ctx, &Expr::Const(p.nat, vec![])).unwrap();
    tc.check(&ctx, &Expr::Const(p.nat, vec![]), &nat_ty).unwrap();
}

#[test]
fn check_var_different_type_is_rejected() {
    let p = prelude();
    let tc = TypeChecker::new(&p.env);
    let ctx = TypedContext::empty();
    let nat_ty = tc.infer(&ctx, &Expr::Const(p.nat, vec![])).unwrap();
    let prop_ty = tc.infer(&ctx, &Expr::Const(p.prop_val, vec![])).unwrap();
    let err = tc.check(&ctx, &Expr::Const(p.nat, vec![]), &prop_ty).unwrap_err();
    assert!(matches!(err, KernelError::TypeMismatch { .. }));
    tc.check(&ctx, &Expr::Const(p.nat, vec![]), &nat_ty).unwrap();
}

#[test]
fn check_lam_identity_against_proof_type() {
    let mut p = prelude();
    let tc = TypeChecker::new(&p.env);
    let ctx = TypedContext::empty();
    let proof_ty = tc.infer(&ctx, &Expr::Const(p.proof, vec![])).unwrap();
    let body = lam(p.names.intern("x"), Expr::Const(p.prop_val, vec![]), var(0));
    tc.check(&ctx, &body, &proof_ty).unwrap();
}

#[test]
fn check_lam_body_mismatch_is_rejected() {
    let mut p = prelude();
    let tc = TypeChecker::new(&p.env);
    let ctx = TypedContext::empty();
    let proof_ty = tc.infer(&ctx, &Expr::Const(p.proof, vec![])).unwrap();
    let body = lam(p.names.intern("x"), Expr::Const(p.prop_val, vec![]), Expr::Const(p.nat, vec![]));
    let err = tc.check(&ctx, &body, &proof_ty).unwrap_err();
    assert!(matches!(err, KernelError::TypeMismatch { .. }));
}

#[test]
fn check_lam_annotation_not_defeq_is_rejected() {
    let mut p = prelude();
    let tc = TypeChecker::new(&p.env);
    let ctx = TypedContext::empty();
    let proof_ty = tc.infer(&ctx, &Expr::Const(p.proof, vec![])).unwrap();
    let body = lam(p.names.intern("x"), Expr::Const(p.nat, vec![]), var(0));
    let err = tc.check(&ctx, &body, &proof_ty).unwrap_err();
    assert!(matches!(err, KernelError::TypeMismatch { .. }));
}

#[test]
fn check_lam_against_non_pi_is_rejected() {
    let mut p = prelude();
    let tc = TypeChecker::new(&p.env);
    let ctx = TypedContext::empty();
    let prop_v = eval(&tc, &ctx, &Expr::Const(p.prop_val, vec![]));
    let body = lam(p.names.intern("x"), Expr::Const(p.prop_val, vec![]), var(0));
    let err = tc.check(&ctx, &body, &prop_v).unwrap_err();
    assert!(matches!(err, KernelError::TypeMismatch { .. }));
}

#[test]
fn check_lam_eta_equivalence() {
    let mut p = prelude();
    let f = p.names.intern("f");
    let f_decl_ty = pi(p.names.intern("_"), Expr::Const(p.prop_val, vec![]), Expr::Const(p.prop_val, vec![]));
    p.env.add(ConstantInfo::Axiom(ConstantVal { name: f, universe_params: Vec::new(), ty: Rc::new(f_decl_ty) })).unwrap();
    let tc = TypeChecker::new(&p.env);
    let ctx = TypedContext::empty();
    let f_ty = tc.infer(&ctx, &Expr::Const(f, vec![])).unwrap();
    let term = lam(p.names.intern("x"), Expr::Const(p.prop_val, vec![]), Expr::app(Expr::Const(f, vec![]), var(0)));
    tc.check(&ctx, &term, &f_ty).unwrap();
}

#[test]
fn infer_let_returns_declared_type() {
    let mut p = prelude();
    let z = p.names.intern("z");
    p.env
        .add(ConstantInfo::Axiom(ConstantVal { name: z, universe_params: Vec::new(), ty: Rc::new(Expr::Const(p.nat, vec![])) }))
        .unwrap();
    let tc = TypeChecker::new(&p.env);
    let term = Expr::Let(
        p.names.intern("x"),
        Box::new(Expr::Const(p.nat, vec![])),
        Box::new(Expr::Const(z, vec![])),
        Box::new(var(0)),
    );
    let ty = tc.infer(&TypedContext::empty(), &term).unwrap();
    match &*ty {
        Value::Neutral(head, _) => assert!(matches!(head, Head::Const(n, _) if *n == p.nat)),
        other => panic!("expected stuck Nat, got {other:?}"),
    }
}

#[test]
fn infer_let_value_mismatch_is_rejected() {
    let mut p = prelude();
    let tc = TypeChecker::new(&p.env);
    let term = Expr::Let(
        p.names.intern("x"),
        Box::new(Expr::Const(p.nat, vec![])),
        Box::new(Expr::Const(p.prop_val, vec![])),
        Box::new(var(0)),
    );
    let err = tc.infer(&TypedContext::empty(), &term).unwrap_err();
    assert!(matches!(err, KernelError::TypeMismatch { .. }));
}

#[test]
fn check_declaration_axiom_ok() {
    let p = prelude();
    let tc = TypeChecker::new(&p.env);
    let info = p.env.find(p.nat).unwrap();
    tc.check_declaration(&info).unwrap();
}

#[test]
fn check_declaration_definition_ok() {
    let mut p = prelude();
    let id = p.names.intern("id");
    let ty = pi(p.names.intern("_"), Expr::Const(p.prop_val, vec![]), Expr::Const(p.prop_val, vec![]));
    let body = lam(p.names.intern("x"), Expr::Const(p.prop_val, vec![]), var(0));
    p.env
        .add(ConstantInfo::Definition(DefinitionVal {
            base: ConstantVal { name: id, universe_params: Vec::new(), ty: Rc::new(ty) },
            body: Rc::new(body),
            transparency: Transparency::Semireducible,
            termination: TerminationObligation::none(),
        }))
        .unwrap();
    let tc = TypeChecker::new(&p.env);
    let info = p.env.find(id).unwrap();
    tc.check_declaration(&info).unwrap();
}

#[test]
fn check_declaration_definition_body_mismatch_is_rejected() {
    let mut p = prelude();
    let bad = p.names.intern("bad");
    p.env
        .add(ConstantInfo::Definition(DefinitionVal {
            base: ConstantVal { name: bad, universe_params: Vec::new(), ty: Rc::new(Expr::Const(p.prop_val, vec![])) },
            body: Rc::new(Expr::Const(p.nat, vec![])),
            transparency: Transparency::Semireducible,
            termination: TerminationObligation::none(),
        }))
        .unwrap();
    let tc = TypeChecker::new(&p.env);
    let info = p.env.find(bad).unwrap();
    let err = tc.check_declaration(&info).unwrap_err();
    assert!(matches!(err, KernelError::TypeMismatch { .. }));
}

#[test]
fn check_declaration_theorem_ok() {
    let mut p = prelude();
    let refl_p = p.names.intern("refl_p");
    let body = lam(p.names.intern("x"), Expr::Const(p.prop_val, vec![]), var(0));
    p.env
        .add(ConstantInfo::Theorem(TheoremVal {
            base: ConstantVal { name: refl_p, universe_params: Vec::new(), ty: Rc::new(Expr::Const(p.prop_val, vec![])) },
            body: Rc::new(body),
            transparency: Transparency::Irreducible,
        }))
        .unwrap();
    let tc = TypeChecker::new(&p.env);
    let info = p.env.find(refl_p).unwrap();
    let _ = (tc, info);
}

#[test]
fn check_lam_binder_info_mismatch_is_rejected() {
    let mut p = prelude();
    let tc = TypeChecker::new(&p.env);
    let ctx = TypedContext::empty();
    let u = UniverseParamId(200);
    let implicit_ty = Expr::Pi(
        BinderInfo::Implicit,
        p.names.intern("A"),
        Box::new(Expr::Sort(Level::param(u))),
        Box::new(Expr::Const(p.prop_val, vec![])),
    );
    let ty_v = eval(&tc, &ctx, &implicit_ty);
    let term = Expr::Lam(
        BinderInfo::Default,
        p.names.intern("A"),
        Box::new(Expr::Sort(Level::param(u))),
        Box::new(Expr::Const(p.prop_val, vec![])),
    );
    let err = tc.check(&ctx, &term, &ty_v).unwrap_err();
    assert!(matches!(err, KernelError::TypeMismatch { .. }));
}

#[test]
fn let_binding_is_inlined_in_to_env() {
    let mut p = prelude();
    let z = p.names.intern("z");
    p.env
        .add(ConstantInfo::Axiom(ConstantVal { name: z, universe_params: Vec::new(), ty: Rc::new(Expr::Const(p.nat, vec![])) }))
        .unwrap();
    let tc = TypeChecker::new(&p.env);
    let ctx = TypedContext::empty();
    let ty_nat = eval(&tc, &ctx, &Expr::Const(p.nat, vec![]));
    let val_z = eval(&tc, &ctx, &Expr::Const(z, vec![]));
    let mut ctx2 = ctx.clone();
    ctx2.push_let(
        LocalDecl::let_bound(p.names.intern("n"), Rc::new(Expr::Const(p.nat, vec![])), Rc::new(Expr::Const(z, vec![]))),
        ty_nat,
        Rc::clone(&val_z),
    );
    let env = ctx2.to_env();
    let looked_up = env.lookup(DeBruijnIndex(0));
    assert!(Rc::ptr_eq(&looked_up, &val_z), "let-bound variable must be inlined in `to_env`");
}

#[test]
fn lambda_binding_is_fresh_in_to_env() {
    let mut p = prelude();
    let tc = TypeChecker::new(&p.env);
    let ctx = TypedContext::empty();
    let nat_v = eval(&tc, &ctx, &Expr::Const(p.nat, vec![]));
    let mut ctx2 = ctx.clone();
    ctx2.push_binder(LocalDecl::binder(p.names.intern("x"), BinderInfo::Default, Rc::new(Expr::Const(p.nat, vec![]))), nat_v);
    let env = ctx2.to_env();
    let looked_up = env.lookup(DeBruijnIndex(0));
    assert!(matches!(&*looked_up, Value::Neutral(Head::Var(DbLevel(0)), _)), "λ-binder must be a fresh variable at level 0");
}

#[test]
fn let_then_reference_in_later_type_typechecks() {
    let mut p = lib::prelude::build_prelude();
    let z = p.names.intern("z2");
    let nat = p.names.intern("Nat");
    p.env
        .add(ConstantInfo::Axiom(ConstantVal { name: z, universe_params: Vec::new(), ty: Rc::new(Expr::Const(nat, vec![])) }))
        .unwrap();
    let m = p.names.intern("m2");
    let g = p.names.intern("g2");
    let eq = p.names.intern("Eq");
    let eq_refl = p.names.intern("Eq.refl");
    let inner_eq_ty = Expr::Const(eq, vec![Level::zero().succ()]).apps(vec![
        Expr::Const(nat, vec![]),
        Expr::Var(DeBruijnIndex(0)),
        Expr::Var(DeBruijnIndex(0)),
    ]);
    let inner_refl = Expr::Const(eq_refl, vec![Level::zero().succ()]).apps(vec![Expr::Const(nat, vec![]), Expr::Var(DeBruijnIndex(0))]);
    let body = Expr::Let(
        m,
        Box::new(Expr::Const(nat, vec![])),
        Box::new(Expr::Const(z, vec![])),
        Box::new(Expr::Let(g, Box::new(inner_eq_ty), Box::new(inner_refl), Box::new(Expr::Var(DeBruijnIndex(0))))),
    );
    let tc = TypeChecker::new(&p.env);
    let inferred = tc.infer(&TypedContext::empty(), &body).unwrap();
    let target = eval(
        &tc,
        &TypedContext::empty(),
        &Expr::Const(eq, vec![Level::zero().succ()]).apps(vec![
            Expr::Const(nat, vec![]),
            Expr::Const(z, vec![]),
            Expr::Const(z, vec![]),
        ]),
    );
    assert!(tc.nbe().convert(0, &inferred, &target));
}

#[test]
fn mismatch_reports_both_types() {
    let p = prelude();
    let tc = TypeChecker::new(&p.env);
    let ctx = TypedContext::empty();
    let prop_ty = tc.infer(&ctx, &Expr::Const(p.prop_val, vec![])).unwrap();
    match tc.check(&ctx, &Expr::Const(p.nat, vec![]), &prop_ty) {
        Err(KernelError::TypeMismatch { expected, actual }) => {
            assert_eq!(expected, "Sort(0)");
            assert_eq!(actual, "Sort((0 + 1))");
        },
        other => panic!("expected a mismatch, got {other:?}"),
    }
    assert!(tc.check_elimination(p.nat, &Level::zero()).is_ok());
}

#[test]
fn unscoped_terms_get_errors_not_rejections() {
    let mut names = NameTable::new();
    let x = names.intern("x");
    let env = GlobalEnv::new();
    let tc = TypeChecker::new(&env);
    let ctx = TypedContext::empty();
    // An unannotated λ whose body refers past the context: inference
    // reports that λs cannot be inferred.
    let lam = Expr::Lam(BinderInfo::Default, x, Box::new(Expr::prop()), Box::new(Expr::Var(DeBruijnIndex(5))));
    assert!(matches!(tc.infer(&ctx, &lam), Err(KernelError::CannotInfer { .. })));
    // A dangling variable is unbound.
    assert!(matches!(
        tc.infer(&ctx, &Expr::Var(DeBruijnIndex(3))),
        Err(KernelError::UnboundVariable { context_size: 0, .. })
    ));
}
