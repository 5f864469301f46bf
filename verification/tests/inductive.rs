use std::rc::Rc;
use lib::env::{ConstantInfo, ConstantVal, ConstructorVal, EnvError, GlobalEnv, InductiveVal, RecursorRule, RecursorVal};
use lib::error::KernelError;
use lib::expr::{BinderInfo, DeBruijnIndex, Expr};
use lib::inductive::PositivityChecker;
use lib::name::{NameId, NameTable};

fn var(i: u32) -> Expr {
    Expr::Var(DeBruijnIndex(i))
}

fn cst(n: NameId) -> Expr {
    Expr::Const(n, vec![])
}

fn app(f: Expr, a: Expr) -> Expr {
    Expr::app(f, a)
}

fn pi(dom: Expr, cod: Expr) -> Expr {
    Expr::Pi(BinderInfo::Default, NameId(0), Box::new(dom), Box::new(cod))
}

fn ctor(name: NameId, ind: NameId, ty: Expr, index: u32) -> ConstructorVal {
    ConstructorVal {
        base: ConstantVal { name, universe_params: Vec::new(), ty: Rc::new(ty) },
        inductive: ind,
        index,
        num_params: 0,
        num_fields: 0,
        is_unsafe: false,
    }
}

fn ind(name: NameId, all: Vec<NameId>, ctors: Vec<NameId>, num_params: u32) -> InductiveVal {
    InductiveVal {
        base: ConstantVal { name, universe_params: Vec::new(), ty: Rc::new(Expr::type0()) },
        num_params,
        num_indices: 0,
        all,
        constructors: ctors,
        is_recursive: true,
        is_nested: false,
        is_unsafe: false,
    }
}

fn register_inductive(env: &mut GlobalEnv, name: NameId, all: Vec<NameId>, ctor_names: Vec<NameId>) -> Result<(), EnvError> {
    let ind = ind(name, all.clone(), ctor_names.clone(), 0);
    let ctors: Vec<ConstructorVal> =
        ctor_names.iter().enumerate().map(|(i, cn)| ctor(*cn, name, Expr::type0(), i as u32)).collect();
    let rec = RecursorVal {
        base: ConstantVal { name: NameId(u32::MAX), universe_params: Vec::new(), ty: Rc::new(Expr::type0()) },
        all: all.clone(),
        num_params: 0,
        num_indices: 0,
        num_motives: 1,
        num_minors: 0,
        rules: Vec::<RecursorRule>::new(),
        is_k: false,
        is_unsafe: false,
    };
    env.add_inductive(ind, ctors, rec)
}

fn nat_axiom(env: &mut GlobalEnv, nat: NameId) {
    env.add(ConstantInfo::Axiom(ConstantVal { name: nat, universe_params: Vec::new(), ty: Rc::new(Expr::type0()) }))
        .unwrap();
}

#[test]
fn strict_pos_atom_is_always_strict() {
    let env = GlobalEnv::new();
    let pc = PositivityChecker::new(&env);
    assert!(pc.strict_pos(&vec![NameId(1)], &Expr::prop()));
    assert!(pc.strict_pos(&vec![NameId(1)], &var(0)));
    assert!(pc.strict_pos(&vec![NameId(1)], &cst(NameId(1))));
    assert!(pc.strict_pos(&vec![NameId(1)], &cst(NameId(2))));
}

#[test]
fn strict_pos_bare_family_head_is_strict() {
    let env = GlobalEnv::new();
    let pc = PositivityChecker::new(&env);
    let f = NameId(1);
    assert!(pc.strict_pos(&vec![f], &cst(f)));
    assert!(pc.strict_pos(&vec![f], &app(cst(f), var(0))));
    assert!(pc.strict_pos(&vec![f], &cst(f).apps(vec![var(0), var(1)])));
}

#[test]
fn strict_pos_family_in_arrow_domain_is_rejected() {
    let env = GlobalEnv::new();
    let pc = PositivityChecker::new(&env);
    let f = NameId(1);
    assert!(!pc.strict_pos(&vec![f], &pi(cst(f), Expr::type0())));
}

#[test]
fn strict_pos_family_in_arrow_codomain_is_strict() {
    let env = GlobalEnv::new();
    let pc = PositivityChecker::new(&env);
    let f = NameId(1);
    assert!(pc.strict_pos(&vec![f], &pi(Expr::type0(), cst(f))));
}

#[test]
fn strict_pos_nested_family_at_negative_is_rejected() {
    let env = GlobalEnv::new();
    let pc = PositivityChecker::new(&env);
    let f = NameId(1);
    let e = pi(pi(cst(f), Expr::type0()), Expr::type0());
    assert!(!pc.strict_pos(&vec![f], &e));
}

#[test]
fn strict_pos_family_in_app_arg_is_strict() {
    let env = GlobalEnv::new();
    let pc = PositivityChecker::new(&env);
    let f = NameId(1);
    let g = NameId(2);
    assert!(pc.strict_pos(&vec![f], &app(cst(g), cst(f))));
    assert!(pc.strict_pos(&vec![f], &app(cst(g), app(cst(g), cst(f)))));
}

#[test]
fn strict_pos_family_in_pi_inside_app_arg_is_rejected() {
    let env = GlobalEnv::new();
    let pc = PositivityChecker::new(&env);
    let f = NameId(1);
    let g = NameId(2);
    assert!(!pc.strict_pos(&vec![f], &app(cst(g), pi(cst(f), Expr::type0()))));
}

#[test]
fn occurs_detects_every_position() {
    let env = GlobalEnv::new();
    let pc = PositivityChecker::new(&env);
    let f = NameId(1);
    let g = NameId(2);
    assert!(!pc.occurs(&vec![f], &Expr::prop()));
    assert!(!pc.occurs(&vec![f], &cst(g)));
    assert!(pc.occurs(&vec![f], &cst(f)));
    assert!(pc.occurs(&vec![f], &pi(cst(f), cst(g))));
    assert!(pc.occurs(&vec![f], &pi(cst(g), cst(f))));
    assert!(pc.occurs(&vec![f], &app(cst(g), cst(f))));
}

#[test]
fn nat_is_accepted() {
    let mut names = NameTable::new();
    let nat = names.intern("Nat");
    let zero = names.intern("Nat.zero");
    let succ = names.intern("Nat.succ");
    let mut env = GlobalEnv::new();
    register_inductive(&mut env, nat, vec![nat], vec![zero, succ]).unwrap();
    let ind = ind(nat, vec![nat], vec![zero, succ], 0);
    let ctors = vec![ctor(zero, nat, cst(nat), 0), ctor(succ, nat, pi(cst(nat), cst(nat)), 1)];
    let pc = PositivityChecker::new(&env);
    pc.check_inductive(&ind, &ctors).unwrap();
}

#[test]
fn bad_in_arrow_domain_is_rejected() {
    let mut names = NameTable::new();
    let bad = names.intern("Bad");
    let mk = names.intern("Bad.mk");
    let x = names.intern("X");
    let env = GlobalEnv::new();
    let pc = PositivityChecker::new(&env);
    let ind = ind(bad, vec![bad], vec![mk], 0);
    let ctors = vec![ctor(mk, bad, pi(pi(cst(bad), cst(x)), cst(bad)), 0)];
    match pc.check_inductive(&ind, &ctors).unwrap_err() {
        KernelError::NonPositiveInductive { inductive, constructor } => {
            assert_eq!(inductive, bad);
            assert_eq!(constructor, 0);
        },
        other => panic!("expected NonPositiveInductive, got {other:?}"),
    }
}

#[test]
fn bad_self_arrow_is_rejected() {
    let mut names = NameTable::new();
    let bad = names.intern("Bad");
    let mk = names.intern("Bad.mk");
    let env = GlobalEnv::new();
    let pc = PositivityChecker::new(&env);
    let ind = ind(bad, vec![bad], vec![mk], 0);
    let ctors = vec![ctor(mk, bad, pi(pi(cst(bad), cst(bad)), cst(bad)), 0)];
    assert!(pc.check_inductive(&ind, &ctors).is_err());
}

#[test]
fn bad_nested_in_arrow_domain_is_rejected() {
    let mut names = NameTable::new();
    let bad = names.intern("Bad");
    let mk = names.intern("Bad.mk");
    let x = names.intern("X");
    let env = GlobalEnv::new();
    let pc = PositivityChecker::new(&env);
    let ind = ind(bad, vec![bad], vec![mk], 0);
    let field = pi(pi(cst(bad), cst(x)), cst(bad));
    let ctors = vec![ctor(mk, bad, pi(field, cst(bad)), 0)];
    assert!(pc.check_inductive(&ind, &ctors).is_err());
}

#[test]
fn nested_list_occurrence_is_accepted() {
    let mut names = NameTable::new();
    let list = names.intern("List");
    let nil = names.intern("List.nil");
    let cons = names.intern("List.cons");
    let tree = names.intern("Tree");
    let node = names.intern("Tree.node");
    let mut env = GlobalEnv::new();
    register_inductive(&mut env, list, vec![list], vec![nil, cons]).unwrap();
    let pc = PositivityChecker::new(&env);
    let ind = ind(tree, vec![tree], vec![node], 0);
    let ctors = vec![ctor(node, tree, pi(app(cst(list), cst(tree)), cst(tree)), 0)];
    pc.check_inductive(&ind, &ctors).unwrap();
}

#[test]
fn nested_negative_inside_list_is_rejected() {
    let mut names = NameTable::new();
    let list = names.intern("List");
    let nil = names.intern("List.nil");
    let cons = names.intern("List.cons");
    let bad = names.intern("Bad");
    let mk = names.intern("Bad.mk");
    let nat = names.intern("Nat");
    let mut env = GlobalEnv::new();
    register_inductive(&mut env, list, vec![list], vec![nil, cons]).unwrap();
    let pc = PositivityChecker::new(&env);
    let ind = ind(bad, vec![bad], vec![mk], 0);
    let field = app(cst(list), pi(cst(bad), cst(nat)));
    let ctors = vec![ctor(mk, bad, pi(field, cst(bad)), 0)];
    assert!(pc.check_inductive(&ind, &ctors).is_err());
}

#[test]
fn deep_nesting_is_accepted() {
    let mut names = NameTable::new();
    let list = names.intern("List");
    let nil = names.intern("List.nil");
    let cons = names.intern("List.cons");
    let rose = names.intern("Rose");
    let rmk = names.intern("Rose.rose");
    let mut env = GlobalEnv::new();
    register_inductive(&mut env, list, vec![list], vec![nil, cons]).unwrap();
    let pc = PositivityChecker::new(&env);
    let ind = ind(rose, vec![rose], vec![rmk], 0);
    let field = app(cst(list), app(cst(list), cst(rose)));
    let ctors = vec![ctor(rmk, rose, pi(field, cst(rose)), 0)];
    pc.check_inductive(&ind, &ctors).unwrap();
}

#[test]
fn mutual_even_odd_is_accepted() {
    let mut names = NameTable::new();
    let even = names.intern("Even");
    let odd = names.intern("Odd");
    let zero = names.intern("Even.zero");
    let se = names.intern("Even.succ_e");
    let so = names.intern("Odd.succ_o");
    let empty = GlobalEnv::new();
    let pc = PositivityChecker::new(&empty);
    let ind_e = ind(even, vec![even, odd], vec![zero, se], 0);
    let ctors = vec![ctor(zero, even, cst(even), 0), ctor(se, even, pi(cst(odd), cst(even)), 1)];
    pc.check_inductive(&ind_e, &ctors).unwrap();
    let ind_o = ind(odd, vec![even, odd], vec![so], 0);
    let ctors_o = vec![ctor(so, odd, pi(cst(even), cst(odd)), 0)];
    pc.check_inductive(&ind_o, &ctors_o).unwrap();
}

#[test]
fn unsafe_nested_inductive_is_rejected_conservatively() {
    let mut names = NameTable::new();
    let list = names.intern("List");
    let bad = names.intern("Bad");
    let mk = names.intern("Bad.mk");
    let mut env = GlobalEnv::new();
    let mut list_ind = ind(list, vec![list], vec![], 0);
    list_ind.is_unsafe = true;
    env.add(ConstantInfo::Inductive(list_ind)).unwrap();
    let pc = PositivityChecker::new(&env);
    let ind = ind(bad, vec![bad], vec![mk], 0);
    let ctors = vec![ctor(mk, bad, pi(app(cst(list), cst(bad)), cst(bad)), 0)];
    assert!(pc.check_inductive(&ind, &ctors).is_err());
}

#[test]
fn parameters_are_skipped_in_field_check() {
    let mut names = NameTable::new();
    let vec_n = names.intern("Vec");
    let nil = names.intern("Vec.nil");
    let cons = names.intern("Vec.cons");
    let env = GlobalEnv::new();
    let pc = PositivityChecker::new(&env);
    let ind_v = ind(vec_n, vec![vec_n], vec![nil, cons], 2);
    let nil_ty = pi(Expr::type0(), pi(cst(NameId(999)), cst(vec_n)));
    let nil_c = ctor(nil, vec_n, nil_ty, 0);
    let ty_cons = pi(Expr::type0(), pi(cst(NameId(999)), pi(var(0), pi(app(cst(vec_n), var(0)), cst(vec_n)))));
    let cons_c = ctor(cons, vec_n, ty_cons, 1);
    pc.check_inductive(&ind_v, &[nil_c, cons_c]).unwrap();
}

#[test]
fn carrier_in_arrow_domain_is_rejected() {
    let mut names = NameTable::new();
    let foo = names.intern("Foo");
    let mk = names.intern("Foo.mk");
    let a = names.intern("A");
    let env = GlobalEnv::new();
    let pc = PositivityChecker::new(&env);
    let ind = ind(foo, vec![foo], vec![mk], 1);
    let ctor_ty = Expr::Pi(BinderInfo::Default, a, Box::new(Expr::type0()), Box::new(pi(pi(var(0), var(0)), cst(foo))));
    let ctors = vec![ctor(mk, foo, ctor_ty, 0)];
    assert!(pc.check_inductive(&ind, &ctors).is_err());
}

#[test]
fn carrier_in_arrow_codomain_is_accepted() {
    let mut names = NameTable::new();
    let baz = names.intern("Baz");
    let mk = names.intern("Baz.mk");
    let a = names.intern("A");
    let nat = names.intern("Nat");
    let mut env = GlobalEnv::new();
    nat_axiom(&mut env, nat);
    let pc = PositivityChecker::new(&env);
    let ind = ind(baz, vec![baz], vec![mk], 1);
    let ctor_ty = Expr::Pi(BinderInfo::Default, a, Box::new(Expr::type0()), Box::new(pi(pi(cst(nat), var(0)), cst(baz))));
    let ctors = vec![ctor(mk, baz, ctor_ty, 0)];
    pc.check_inductive(&ind, &ctors).unwrap();
}

#[test]
fn bare_carrier_field_is_accepted() {
    let mut names = NameTable::new();
    let list = names.intern("List");
    let cons = names.intern("List.cons");
    let a = names.intern("A");
    let env = GlobalEnv::new();
    let pc = PositivityChecker::new(&env);
    let ind = ind(list, vec![list], vec![cons], 1);
    let ctor_ty = Expr::Pi(
        BinderInfo::Default,
        a,
        Box::new(Expr::type0()),
        Box::new(pi(var(0), pi(app(cst(list), var(1)), cst(list)))),
    );
    let ctors = vec![ctor(cons, list, ctor_ty, 0)];
    pc.check_inductive(&ind, &ctors).unwrap();
}

#[test]
fn index_parameter_is_not_treated_as_carrier() {
    let mut names = NameTable::new();
    let vec_n = names.intern("Vec");
    let nil = names.intern("Vec.nil");
    let a = names.intern("A");
    let n = names.intern("n");
    let nat = names.intern("Nat");
    let mut env = GlobalEnv::new();
    nat_axiom(&mut env, nat);
    let pc = PositivityChecker::new(&env);
    let ind = ind(vec_n, vec![vec_n], vec![nil], 2);
    let ctor_ty = Expr::Pi(
        BinderInfo::Default,
        a,
        Box::new(Expr::type0()),
        Box::new(Expr::Pi(BinderInfo::Default, n, Box::new(cst(nat)), Box::new(cst(vec_n)))),
    );
    let ctors = vec![ctor(nil, vec_n, ctor_ty, 0)];
    pc.check_inductive(&ind, &ctors).unwrap();
}

#[test]
fn carrier_applied_negatively_is_rejected() {
    let mut names = NameTable::new();
    let foo = names.intern("Foo");
    let mk = names.intern("Foo.mk");
    let a = names.intern("A");
    let nat = names.intern("Nat");
    let mut env = GlobalEnv::new();
    nat_axiom(&mut env, nat);
    let pc = PositivityChecker::new(&env);
    let ind = ind(foo, vec![foo], vec![mk], 1);
    let ctor_ty = Expr::Pi(BinderInfo::Default, a, Box::new(Expr::type0()), Box::new(pi(pi(var(0), cst(nat)), cst(foo))));
    let ctors = vec![ctor(mk, foo, ctor_ty, 0)];
    assert!(pc.check_inductive(&ind, &ctors).is_err());
}

#[test]
fn occurs_sees_a_let_type_annotation() {
    let env = GlobalEnv::new();
    let pc = PositivityChecker::new(&env);
    let f = NameId(1);
    let e = Expr::Let(NameId(9), Box::new(cst(f)), Box::new(Expr::prop()), Box::new(Expr::prop()));
    assert!(pc.occurs(&vec![f], &e));
    assert!(!pc.strict_pos(&vec![f], &e));
}

#[test]
fn absent_family_is_strictly_positive() {
    let env = GlobalEnv::new();
    let pc = PositivityChecker::new(&env);
    let f = NameId(1);
    let e = pi(cst(NameId(2)), app(cst(NameId(3)), var(0)));
    assert!(!pc.occurs(&vec![f], &e));
    assert!(pc.strict_pos(&vec![f], &e));
}
