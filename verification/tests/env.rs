use std::rc::Rc;
use lib::env::{
    ConstantInfo, ConstantVal, ConstructorVal, DefinitionVal, EnvError, GlobalEnv, InductiveVal, LocalContext,
    LocalDecl, RecursorRule, RecursorVal, TerminationObligation, TheoremVal,
};
use lib::expr::{BinderInfo, DeBruijnIndex, Expr};
use lib::level::{Level, UniverseParamId};
use lib::name::{NameId, NameTable};
use lib::nbe::{ConstEnv, DbLevel, Env as NbeEnv, Head, Nbe, Transparency, TransparencyMode, Value};

fn cv(name: NameId, ty: Expr) -> ConstantVal {
    ConstantVal { name, universe_params: Vec::new(), ty: Rc::new(ty) }
}

fn postulate(name: NameId, ty: Expr) -> ConstantInfo {
    ConstantInfo::Axiom(cv(name, ty))
}

fn definition(name: NameId, ty: Expr, body: Expr, transparency: Transparency) -> ConstantInfo {
    ConstantInfo::Definition(DefinitionVal {
        base: cv(name, ty),
        body: Rc::new(body),
        transparency,
        termination: TerminationObligation::none(),
    })
}

fn theorem(name: NameId, ty: Expr, body: Expr) -> ConstantInfo {
    ConstantInfo::Theorem(TheoremVal { base: cv(name, ty), body: Rc::new(body), transparency: Transparency::Irreducible })
}

fn var(idx: u32) -> Expr {
    Expr::Var(DeBruijnIndex(idx))
}

fn nat_to_nat(names: &mut NameTable, nat: NameId) -> Expr {
    Expr::Pi(
        BinderInfo::Default,
        names.intern("_"),
        Box::new(Expr::Const(nat, Vec::new())),
        Box::new(Expr::Const(nat, Vec::new())),
    )
}

#[test]
fn empty_env_is_empty() {
    let env = GlobalEnv::new();
    assert!(env.is_empty());
    assert_eq!(env.len(), 0);
}

#[test]
fn add_and_find_axiom() {
    let mut names = NameTable::new();
    let n = names.intern("P");
    let mut env = GlobalEnv::new();
    env.add(postulate(n, Expr::prop())).unwrap();
    let info = env.find(n).unwrap();
    assert!(matches!(&*info, ConstantInfo::Axiom(_)));
    assert_eq!(info.name(), n);
}

#[test]
fn duplicate_declaration_is_rejected() {
    let mut names = NameTable::new();
    let n = names.intern("P");
    let mut env = GlobalEnv::new();
    env.add(postulate(n, Expr::prop())).unwrap();
    let err = env.add(postulate(n, Expr::prop())).unwrap_err();
    assert_eq!(err, EnvError::DuplicateDeclaration(n));
    assert_eq!(env.len(), 1);
}

#[test]
fn definition_body_is_stored() {
    let mut names = NameTable::new();
    let n = names.intern("c");
    let body = Expr::Sort(Level::zero());
    let mut env = GlobalEnv::new();
    env.add(definition(n, Expr::Sort(Level::zero().succ()), body.clone(), Transparency::Semireducible)).unwrap();
    let info = env.find(n).unwrap();
    assert_eq!(info.body().map(|b| (**b).clone()), Some(body));
}

#[test]
fn theorem_is_opaque() {
    let mut names = NameTable::new();
    let n = names.intern("thm");
    let body = Expr::Sort(Level::zero());
    let mut env = GlobalEnv::new();
    env.add(theorem(n, Expr::prop(), body)).unwrap();
    let info = env.find(n).unwrap();
    assert_eq!(info.transparency(), Transparency::Irreducible);
}

fn make_inductive_block(names: &mut NameTable) -> (InductiveVal, Vec<ConstructorVal>, RecursorVal) {
    let nat = names.intern("Nat");
    let zero = names.intern("Nat.zero");
    let succ = names.intern("Nat.succ");
    let rec = names.intern("Nat.rec");
    let ind = InductiveVal {
        base: cv(nat, Expr::type0()),
        num_params: 0,
        num_indices: 0,
        all: vec![nat],
        constructors: vec![zero, succ],
        is_recursive: true,
        is_nested: false,
        is_unsafe: false,
    };
    let ctors = vec![
        ConstructorVal { base: cv(zero, Expr::type0()), inductive: nat, index: 0, num_params: 0, num_fields: 0, is_unsafe: false },
        ConstructorVal { base: cv(succ, Expr::type0()), inductive: nat, index: 1, num_params: 0, num_fields: 1, is_unsafe: false },
    ];
    let recursor = RecursorVal {
        base: cv(rec, Expr::type0()),
        all: vec![nat],
        num_params: 0,
        num_indices: 0,
        num_motives: 1,
        num_minors: 2,
        rules: vec![
            RecursorRule { constructor: zero, num_fields: 0, rhs: Rc::new(var(0)) },
            RecursorRule { constructor: succ, num_fields: 1, rhs: Rc::new(Expr::app(var(0), var(3))) },
        ],
        is_k: false,
        is_unsafe: false,
    };
    (ind, ctors, recursor)
}

#[test]
fn add_inductive_family_atomically() {
    let mut names = NameTable::new();
    let (ind, ctors, rec) = make_inductive_block(&mut names);
    let nat = ind.base.name;
    let rec_name = rec.base.name;
    let mut env = GlobalEnv::new();
    env.add_inductive(ind, ctors, rec).unwrap();
    assert!(env.find(nat).unwrap().is_inductive());
    assert!(env.find(rec_name).unwrap().is_recursor());
    assert_eq!(env.len(), 4);
}

#[test]
fn constructor_with_wrong_inductive_is_rejected() {
    let mut names = NameTable::new();
    let (ind, mut ctors, rec) = make_inductive_block(&mut names);
    let bogus = names.intern("Bogus");
    ctors[0].inductive = bogus;
    let mut env = GlobalEnv::new();
    let err = env.add_inductive(ind, ctors, rec).unwrap_err();
    assert!(matches!(err, EnvError::ConstructorBelongsToUnknownInductive { .. }));
    assert!(env.is_empty());
}

#[test]
fn constructor_index_out_of_range_is_rejected() {
    let mut names = NameTable::new();
    let (ind, mut ctors, rec) = make_inductive_block(&mut names);
    ctors[0].index = 7;
    let mut env = GlobalEnv::new();
    let err = env.add_inductive(ind, ctors, rec).unwrap_err();
    assert!(matches!(err, EnvError::ConstructorIndexOutOfRange { .. }));
    assert!(env.is_empty());
}

#[test]
fn add_inductive_rejects_non_positive() {
    let mut names = NameTable::new();
    let bad = names.intern("Bad");
    let mk = names.intern("Bad.mk");
    let x = names.intern("X");
    let mut env = GlobalEnv::new();
    env.add(postulate(x, Expr::type0())).unwrap();
    let ind = InductiveVal {
        base: cv(bad, Expr::type0()),
        num_params: 0,
        num_indices: 0,
        all: vec![bad],
        constructors: vec![mk],
        is_recursive: true,
        is_nested: false,
        is_unsafe: false,
    };
    let field = Expr::Pi(
        BinderInfo::Default,
        NameId(0),
        Box::new(Expr::Const(bad, Vec::new())),
        Box::new(Expr::Const(x, Vec::new())),
    );
    let ty = Expr::Pi(BinderInfo::Default, NameId(0), Box::new(field), Box::new(Expr::Const(bad, Vec::new())));
    let ctor = ConstructorVal { base: cv(mk, ty), inductive: bad, index: 0, num_params: 0, num_fields: 1, is_unsafe: false };
    let rec = RecursorVal {
        base: cv(names.intern("Bad.rec"), Expr::type0()),
        all: vec![bad],
        num_params: 0,
        num_indices: 0,
        num_motives: 1,
        num_minors: 0,
        rules: Vec::new(),
        is_k: false,
        is_unsafe: false,
    };
    let err = env.add_inductive(ind, vec![ctor], rec).unwrap_err();
    assert!(matches!(
        err,
        EnvError::NonPositiveInductive { inductive, constructor } if inductive == bad && constructor == 0
    ));
    assert!(env.find(bad).is_none());
}

#[test]
fn add_inductive_accepts_positive() {
    let mut names = NameTable::new();
    let (ind, ctors, rec) = make_inductive_block(&mut names);
    let mut env = GlobalEnv::new();
    env.add_inductive(ind, ctors, rec).unwrap();
    assert_eq!(env.len(), 4);
}

#[test]
fn add_inductive_rejects_duplicate_constructor_names() {
    let mut names = NameTable::new();
    let (ind, mut ctors, rec) = make_inductive_block(&mut names);
    let zero_name = ctors[0].base.name;
    ctors[1].base.name = zero_name;
    let mut env = GlobalEnv::new();
    let err = env.add_inductive(ind, ctors, rec).unwrap_err();
    assert_eq!(err, EnvError::DuplicateDeclaration(zero_name));
    assert!(env.is_empty());
}

#[test]
fn const_env_lookup_serves_cached_decl() {
    let mut names = NameTable::new();
    let (ind, ctors, rec) = make_inductive_block(&mut names);
    let succ_name = ctors[1].base.name;
    let mut env = GlobalEnv::new();
    env.add_inductive(ind, ctors, rec).unwrap();
    let decl = env.lookup(succ_name).expect("constructor must be visible");
    assert_eq!(decl.name, succ_name);
    assert!(decl.is_constructor);
    assert!(decl.body.is_none());
}

#[test]
fn add_rejects_self_recursive_non_terminating() {
    let mut names = NameTable::new();
    let f = names.intern("f");
    let n = names.intern("n");
    let nat = names.intern("Nat");
    let ty = nat_to_nat(&mut names, nat);
    let body = Expr::app(Expr::Const(f, Vec::new()), Expr::Var(DeBruijnIndex(0)));
    let mut env = GlobalEnv::new();
    env.add(postulate(nat, Expr::type0())).unwrap();
    let err = env
        .add(ConstantInfo::Definition(DefinitionVal {
            base: cv(f, ty),
            body: Rc::new(body),
            transparency: Transparency::Semireducible,
            termination: TerminationObligation::recursive(vec![n]),
        }))
        .unwrap_err();
    assert!(matches!(err, EnvError::NonTerminating { .. }));
    assert!(env.find(f).is_none());
}

#[test]
fn add_accepts_non_recursive_without_params() {
    let mut names = NameTable::new();
    let nat = names.intern("Nat");
    let id = names.intern("id");
    let x = names.intern("x");
    let ty = nat_to_nat(&mut names, nat);
    let body = Expr::lam(x, Expr::Const(nat, Vec::new()), Expr::Var(DeBruijnIndex(0)));
    let mut env = GlobalEnv::new();
    env.add(postulate(nat, Expr::type0())).unwrap();
    env.add(ConstantInfo::Definition(DefinitionVal {
        base: cv(id, ty),
        body: Rc::new(body),
        transparency: Transparency::Semireducible,
        termination: TerminationObligation::none(),
    }))
    .unwrap();
    assert!(env.find(id).is_some());
}

#[test]
fn add_rejects_recursive_with_wrong_arity() {
    let mut names = NameTable::new();
    let nat = names.intern("Nat");
    let f = names.intern("f");
    let ty = Expr::Pi(
        BinderInfo::Default,
        names.intern("_"),
        Box::new(Expr::Const(nat, Vec::new())),
        Box::new(Expr::Pi(
            BinderInfo::Default,
            names.intern("_"),
            Box::new(Expr::Const(nat, Vec::new())),
            Box::new(Expr::Const(nat, Vec::new())),
        )),
    );
    let body = Expr::Const(f, Vec::new()).apps(vec![Expr::Var(DeBruijnIndex(0)), Expr::Var(DeBruijnIndex(0))]);
    let mut env = GlobalEnv::new();
    env.add(postulate(nat, Expr::type0())).unwrap();
    let err = env
        .add(ConstantInfo::Definition(DefinitionVal {
            base: cv(f, ty),
            body: Rc::new(body),
            transparency: Transparency::Semireducible,
            termination: TerminationObligation::none(),
        }))
        .unwrap_err();
    assert!(matches!(err, EnvError::TerminationArityMismatch { expected: 2, actual: 0, .. }));
    assert!(env.find(f).is_none());
}

#[test]
fn add_block_rejects_mutual_recursion() {
    let mut names = NameTable::new();
    let nat = names.intern("Nat");
    let even = names.intern("even");
    let odd = names.intern("odd");
    let n = names.intern("n");
    let mut env = GlobalEnv::new();
    env.add(postulate(nat, Expr::type0())).unwrap();
    let ty = nat_to_nat(&mut names, nat);
    let even_body = Expr::app(Expr::Const(odd, Vec::new()), Expr::Var(DeBruijnIndex(0)));
    let odd_body = Expr::app(Expr::Const(even, Vec::new()), Expr::Var(DeBruijnIndex(0)));
    let err = env
        .add_block(vec![
            ConstantInfo::Definition(DefinitionVal {
                base: cv(even, ty.clone()),
                body: Rc::new(even_body),
                transparency: Transparency::Semireducible,
                termination: TerminationObligation::recursive(vec![n]),
            }),
            ConstantInfo::Definition(DefinitionVal {
                base: cv(odd, ty),
                body: Rc::new(odd_body),
                transparency: Transparency::Semireducible,
                termination: TerminationObligation::recursive(vec![n]),
            }),
        ])
        .unwrap_err();
    assert!(matches!(err, EnvError::NonTerminating { .. }));
    assert!(env.find(even).is_none());
    assert!(env.find(odd).is_none());
}

#[test]
fn add_block_accepts_independent_definitions() {
    let mut names = NameTable::new();
    let nat = names.intern("Nat");
    let f = names.intern("f");
    let g = names.intern("g");
    let mut env = GlobalEnv::new();
    env.add(postulate(nat, Expr::type0())).unwrap();
    let ty = nat_to_nat(&mut names, nat);
    let body = Expr::Var(DeBruijnIndex(0));
    env.add_block(vec![
        ConstantInfo::Definition(DefinitionVal {
            base: cv(f, ty.clone()),
            body: Rc::new(body.clone()),
            transparency: Transparency::Semireducible,
            termination: TerminationObligation::none(),
        }),
        ConstantInfo::Definition(DefinitionVal {
            base: cv(g, ty),
            body: Rc::new(body),
            transparency: Transparency::Semireducible,
            termination: TerminationObligation::none(),
        }),
    ])
    .unwrap();
    assert!(env.find(f).is_some());
    assert!(env.find(g).is_some());
}

#[test]
fn add_block_rejects_internal_duplicate_names() {
    let mut names = NameTable::new();
    let nat = names.intern("Nat");
    let f = names.intern("f");
    let mut env = GlobalEnv::new();
    env.add(postulate(nat, Expr::type0())).unwrap();
    let err = env.add_block(vec![postulate(f, Expr::type0()), postulate(f, Expr::type0())]).unwrap_err();
    assert_eq!(err, EnvError::DuplicateDeclaration(f));
}

#[test]
fn const_env_projects_axiom() {
    let mut names = NameTable::new();
    let n = names.intern("P");
    let mut env = GlobalEnv::new();
    env.add(postulate(n, Expr::prop())).unwrap();
    let decl = env.lookup(n).unwrap();
    assert_eq!(decl.name, n);
    assert!(decl.body.is_none());
    assert_eq!(decl.transparency, Transparency::Irreducible);
}

#[test]
fn const_env_projects_definition_body() {
    let mut names = NameTable::new();
    let n = names.intern("c");
    let body = Expr::Sort(Level::zero());
    let mut env = GlobalEnv::new();
    env.add(definition(n, Expr::Sort(Level::zero().succ()), body.clone(), Transparency::Semireducible)).unwrap();
    let decl = env.lookup(n).unwrap();
    assert_eq!(decl.body.as_ref().map(|b| (**b).clone()), Some(body));
    assert_eq!(decl.transparency, Transparency::Semireducible);
}

#[test]
fn const_env_projects_theorem_as_opaque() {
    let mut names = NameTable::new();
    let n = names.intern("thm");
    let mut env = GlobalEnv::new();
    env.add(theorem(n, Expr::prop(), Expr::prop())).unwrap();
    let decl = env.lookup(n).unwrap();
    assert!(decl.body.is_some());
    assert_eq!(decl.transparency, Transparency::Irreducible);
}

#[test]
fn local_context_push_and_lookup() {
    let mut names = NameTable::new();
    let a = names.intern("a");
    let b = names.intern("b");
    let mut ctx = LocalContext::empty();
    ctx = ctx.push(LocalDecl::binder(a, BinderInfo::Default, Rc::new(Expr::prop())));
    ctx = ctx.push(LocalDecl::binder(b, BinderInfo::Default, Rc::new(Expr::prop())));
    assert_eq!(ctx.len(), 2);
    assert_eq!(ctx.lookup(DeBruijnIndex(0)).name, b);
    assert_eq!(ctx.lookup(DeBruijnIndex(1)).name, a);
}

#[test]
fn local_context_iter_is_innermost_first() {
    let mut names = NameTable::new();
    let a = names.intern("a");
    let b = names.intern("b");
    let c = names.intern("c");
    let mut ctx = LocalContext::empty();
    ctx = ctx.push(LocalDecl::binder(a, BinderInfo::Default, Rc::new(Expr::prop())));
    ctx = ctx.push(LocalDecl::binder(b, BinderInfo::Default, Rc::new(Expr::prop())));
    ctx = ctx.push(LocalDecl::binder(c, BinderInfo::Default, Rc::new(Expr::prop())));
    let mut it = ctx.iter();
    let mut order: Vec<NameId> = Vec::new();
    while let Some(d) = it.next() {
        order.push(d.name);
    }
    assert_eq!(order, vec![c, b, a]);
}

#[test]
fn local_context_to_env_assigns_levels() {
    let mut names = NameTable::new();
    let a = names.intern("a");
    let b = names.intern("b");
    let mut ctx = LocalContext::empty();
    ctx = ctx.push(LocalDecl::binder(a, BinderInfo::Default, Rc::new(Expr::prop())));
    ctx = ctx.push(LocalDecl::binder(b, BinderInfo::Default, Rc::new(Expr::prop())));
    let env = ctx.to_env();
    match &*env.lookup(DeBruijnIndex(0)) {
        Value::Neutral(Head::Var(lvl), spine) => {
            assert_eq!(*lvl, DbLevel(1));
            assert!(spine.is_empty());
        },
        other => panic!("expected neutral var, got {other:?}"),
    }
    match &*env.lookup(DeBruijnIndex(1)) {
        Value::Neutral(Head::Var(lvl), _) => assert_eq!(*lvl, DbLevel(0)),
        other => panic!("expected neutral var, got {other:?}"),
    }
}

#[test]
fn local_context_let_bound() {
    let mut names = NameTable::new();
    let x = names.intern("x");
    let ctx = LocalContext::empty().push(LocalDecl::let_bound(x, Rc::new(Expr::prop()), Rc::new(Expr::prop())));
    assert!(ctx.lookup(DeBruijnIndex(0)).is_let());
}

#[test]
fn nbe_unfolds_definition_from_env() {
    let mut names = NameTable::new();
    let c = names.intern("c");
    let mut env = GlobalEnv::new();
    env.add(definition(c, Expr::Sort(Level::zero().succ()), Expr::Sort(Level::zero()), Transparency::Semireducible))
        .unwrap();
    let nbe = Nbe::new(&env, TransparencyMode::Semireducible);
    let term = Expr::Const(c, Vec::new());
    let value = nbe.eval(&NbeEnv::empty(), &term).unwrap();
    match &*value {
        Value::Sort(l) => assert_eq!(l.normalize(), Level::zero()),
        other => panic!("expected Sort(0), got {other:?}"),
    }
}

#[test]
fn nbe_does_not_unfold_theorem() {
    let mut names = NameTable::new();
    let t = names.intern("t");
    let mut env = GlobalEnv::new();
    env.add(theorem(t, Expr::prop(), Expr::prop())).unwrap();
    let nbe = Nbe::new(&env, TransparencyMode::Semireducible);
    let term = Expr::Const(t, Vec::new());
    let value = nbe.eval(&NbeEnv::empty(), &term).unwrap();
    match &*value {
        Value::Neutral(Head::Const(name, levels), spine) => {
            assert_eq!(*name, t);
            assert!(levels.is_empty());
            assert!(spine.is_empty());
        },
        other => panic!("expected stuck const, got {other:?}"),
    }
}

#[test]
fn nbe_does_not_unfold_axiom() {
    let mut names = NameTable::new();
    let a = names.intern("A");
    let mut env = GlobalEnv::new();
    env.add(postulate(a, Expr::prop())).unwrap();
    let nbe = Nbe::new(&env, TransparencyMode::All);
    let term = Expr::Const(a, Vec::new());
    let value = nbe.eval(&NbeEnv::empty(), &term).unwrap();
    match &*value {
        Value::Neutral(Head::Const(name, _), _) => assert_eq!(*name, a),
        other => panic!("expected stuck axiom, got {other:?}"),
    }
}

#[test]
fn nbe_universe_polymorphic_definition() {
    let mut names = NameTable::new();
    let id = names.intern("id");
    let a_name = names.intern("A");
    let x_name = names.intern("x");
    let u = UniverseParamId(42);
    let body = Expr::Lam(
        BinderInfo::Default,
        a_name,
        Box::new(Expr::Sort(Level::param(u))),
        Box::new(Expr::Lam(BinderInfo::Default, x_name, Box::new(var(0)), Box::new(var(0)))),
    );
    let ty = Expr::Pi(
        BinderInfo::Default,
        a_name,
        Box::new(Expr::Sort(Level::param(u))),
        Box::new(Expr::Pi(BinderInfo::Default, x_name, Box::new(var(0)), Box::new(var(1)))),
    );
    let mut env = GlobalEnv::new();
    env.add(ConstantInfo::Definition(DefinitionVal {
        base: ConstantVal { name: id, universe_params: vec![u], ty: Rc::new(ty) },
        body: Rc::new(body),
        transparency: Transparency::Semireducible,
        termination: TerminationObligation::none(),
    }))
    .unwrap();
    let nbe = Nbe::new(&env, TransparencyMode::Semireducible);
    let term = Expr::Const(id, vec![Level::zero()]);
    let value = nbe.eval(&NbeEnv::empty(), &term).unwrap();
    assert!(matches!(&*value, Value::Lam(_, _, _, _)));
}

#[test]
fn nbe_uses_transparency_mode() {
    let mut names = NameTable::new();
    let c = names.intern("c");
    let mut env = GlobalEnv::new();
    env.add(definition(c, Expr::Sort(Level::zero().succ()), Expr::Sort(Level::zero()), Transparency::Semireducible))
        .unwrap();
    let nbe = Nbe::new(&env, TransparencyMode::Reducible);
    let term = Expr::Const(c, Vec::new());
    let value = nbe.eval(&NbeEnv::empty(), &term).unwrap();
    assert!(matches!(&*value, Value::Neutral(Head::Const(_, _), _)));
}

#[test]
fn env_iter_lists_declarations_in_name_order() {
    let mut names = NameTable::new();
    let a = names.intern("a");
    let b = names.intern("b");
    let mut env = GlobalEnv::default();
    env.add(postulate(b, Expr::prop())).unwrap();
    env.add(postulate(a, Expr::prop())).unwrap();
    let listed: Vec<NameId> = env.iter().iter().map(|(n, _)| *n).collect();
    assert_eq!(listed, vec![a, b]);
    assert!(env.contains(a) && env.contains(b));
}
