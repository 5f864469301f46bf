use std::rc::Rc;
use lib::arena::ExprArena;
use lib::env::{ConstantInfo, ConstantVal, DefinitionVal, TerminationObligation};
use lib::expr::{BinderInfo, Expr};
use lib::infer::{TypeChecker, TypedContext};
use lib::nbe::{ConstEnv, Env as NbeEnv, Nbe, Transparency, TransparencyMode};
use lib::prelude::{build_prelude, Prelude};

/// `n` as a closed kernel `Nat` term (`Nat.succ^n Nat.zero`).
fn num(p: &Prelude, n: u64) -> Expr {
    let mut e = Expr::Const(p.zero, Vec::new());
    for _ in 0..n {
        e = Expr::app(Expr::Const(p.succ, Vec::new()), e);
    }
    e
}

#[test]
fn bench_eval_of_addition_chain() {
    let n: u64 = 100;
    let p = build_prelude();
    let mut e = num(&p, 0);
    for _ in 0..n {
        e = Expr::app(Expr::app(Expr::Const(p.add, Vec::new()), e), num(&p, 1));
    }
    let nbe = Nbe::new(&p.env, TransparencyMode::Semireducible);
    let v = nbe.eval(&NbeEnv::empty(), &e).unwrap();
    let back = nbe.quote(0, &v).unwrap();
    assert_eq!(back, num(&p, n));
}

/// A `Nat -> Nat` definition `name := λ _ : Nat. body`.
fn mk_def(p: &mut Prelude, name: &str, body: Expr) -> ConstantInfo {
    let nat = p.nat;
    let id = p.names.intern(name);
    let underscore = p.names.intern("_");
    let ty = Expr::Pi(
        BinderInfo::Default,
        underscore,
        Box::new(Expr::Const(nat, Vec::new())),
        Box::new(Expr::Const(nat, Vec::new())),
    );
    let lam_body = Expr::Lam(
        BinderInfo::Default,
        underscore,
        Box::new(Expr::Const(nat, Vec::new())),
        Box::new(body),
    );
    ConstantInfo::Definition(DefinitionVal {
        base: ConstantVal { name: id, universe_params: Vec::new(), ty: Rc::new(ty) },
        body: Rc::new(lam_body),
        transparency: Transparency::Semireducible,
        termination: TerminationObligation::none(),
    })
}

#[test]
fn bench_elaboration_of_definition_chain() {
    let n: usize = 100;
    let mut p = build_prelude();
    let succ = p.succ;
    let zero = p.zero;
    let mut prev_name = p.names.intern("f0_init");
    {
        let info = mk_def(&mut p, "f0_init", Expr::app(Expr::Const(succ, Vec::new()), Expr::Const(zero, Vec::new())));
        p.env.add(info).expect("f0_init should insert");
    }
    let tc = TypeChecker::new(&p.env);
    let info = p.env.find(prev_name).unwrap();
    tc.check_declaration(&info).expect("f0_init should check");
    for i in 1..=n {
        let name = format!("f{i}");
        let body = Expr::app(
            Expr::Const(prev_name, Vec::new()),
            Expr::app(Expr::Const(succ, Vec::new()), Expr::Const(zero, Vec::new())),
        );
        let info = mk_def(&mut p, &name, body);
        let id = info.name();
        let tc = TypeChecker::new(&p.env);
        tc.check_declaration(&info).expect("benchmark definition should check");
        p.env.add(info).expect("benchmark definition should insert");
        prev_name = id;
    }
    assert_eq!(p.env.len(), 33 + 1 + n);
}

#[test]
fn bench_infer_of_a_deep_application() {
    let n: usize = 200;
    let p = build_prelude();
    let mut e = Expr::Const(p.zero, Vec::new());
    for _ in 0..n {
        e = Expr::app(Expr::Const(p.succ, Vec::new()), e);
    }
    let tc = TypeChecker::new(&p.env);
    let ctx = TypedContext::empty();
    let ty = tc.infer(&ctx, &e).expect("infer should succeed");
    let nat_v = tc.nbe().eval(&NbeEnv::empty(), &Expr::Const(p.nat, Vec::new())).unwrap();
    assert!(tc.nbe().convert(0, &ty, &nat_v));
}

#[test]
fn bench_arena_interning() {
    let n: u64 = 500;
    let p = build_prelude();
    let mut e = num(&p, 0);
    for _ in 0..n {
        e = Expr::app(Expr::Const(p.succ, Vec::new()), e);
    }
    let mut arena = ExprArena::new();
    let id1 = arena.intern(&e).expect("first intern");
    let id2 = arena.intern(&e).expect("second intern");
    assert_eq!(id1, id2, "arena intern must be idempotent");
    assert_eq!(arena.len() as u64, n + 2);
}

#[test]
fn bench_env_lookup_through_const_env() {
    let n: usize = 100_000;
    let p = build_prelude();
    let add = p.add;
    let first = p.env.lookup(add).expect("Nat.add must be present in the prelude");
    let mut last = Rc::clone(&first);
    for _ in 1..n {
        last = p.env.lookup(add).expect("Nat.add must remain present");
    }
    assert_eq!(last.name, add);
    assert!(Rc::ptr_eq(&first, &last), "lookup must return the cached declaration");
}

