use lib::expr::{BinderInfo, DeBruijnIndex, Expr, Literal};
use lib::level::Level;
use lib::name::{NameId, NameTable};

fn nid(t: &mut NameTable, s: &str) -> NameId {
    t.intern(s)
}

#[test]
fn size_of_atom_is_one() {
    assert_eq!(Expr::prop().size(), 1);
    assert_eq!(Expr::Var(DeBruijnIndex::zero()).size(), 1);
}

#[test]
fn apps_left_associates() {
    let mut t = NameTable::new();
    let f = Expr::Const(nid(&mut t, "f"), Vec::new());
    let a = Expr::Const(nid(&mut t, "a"), Vec::new());
    let b = Expr::Const(nid(&mut t, "b"), Vec::new());
    let e = f.apps(vec![a, b]);
    match e {
        Expr::App(outer_f, _) => match *outer_f {
            Expr::App(_, _) => {},
            _ => panic!("inner app missing"),
        },
        _ => panic!("outer app missing"),
    }
}

#[test]
fn arrow_constructs_pi() {
    let mut t = NameTable::new();
    let n = nid(&mut t, "_");
    let e = Expr::arrow(Expr::prop(), Expr::type0(), n);
    assert!(matches!(e, Expr::Pi(BinderInfo::Default, _, _, _)));
}

#[test]
fn binder_info_predicate() {
    assert!(!BinderInfo::Default.is_implicit());
    assert!(BinderInfo::Implicit.is_implicit());
    assert!(BinderInfo::StrictImplicit.is_implicit());
    assert!(BinderInfo::Instance.is_implicit());
}

#[test]
fn debruijn_succ() {
    assert_eq!(DeBruijnIndex::zero().succ(), DeBruijnIndex(1));
}

#[test]
fn pi_arity_counts_leading_binders() {
    let mut t = NameTable::new();
    let n = nid(&mut t, "_");
    let nat = Expr::Const(nid(&mut t, "Nat"), Vec::new());
    assert_eq!(nat.pi_arity(), 0);
    assert_eq!(Expr::arrow(nat.clone(), nat.clone(), n).pi_arity(), 1);
    assert_eq!(Expr::arrow(nat.clone(), Expr::arrow(nat.clone(), nat.clone(), n), n).pi_arity(), 2);
    let lam = Expr::lam(n, nat.clone(), Expr::arrow(nat.clone(), nat.clone(), n));
    assert_eq!(lam.pi_arity(), 0);
}

#[test]
fn expr_text_of_a_small_term() {
    let e = Expr::app(Expr::Const(NameId(3), Vec::new()), Expr::Var(DeBruijnIndex(0)));
    assert_eq!(e.describe(), "(c#3 #0)");
    assert_eq!(Expr::type0().describe(), "Sort((0 + 1))");
    assert_eq!(Expr::Lit(Literal::Nat(42)).describe(), "42");
    assert_eq!(Expr::Lit(Literal::Str("hi".to_string())).describe(), "\"hi\"");
    let p = Expr::Pi(BinderInfo::Default, NameId(0), Box::new(Expr::prop()), Box::new(Expr::Var(DeBruijnIndex(0))));
    assert_eq!(p.describe(), "(Pi Sort(0) -> #0)");
}

#[test]
fn structural_copy_and_equality() {
    let e = Expr::Let(
        NameId(1),
        Box::new(Expr::Sort(Level::zero())),
        Box::new(Expr::Var(DeBruijnIndex(2))),
        Box::new(Expr::Const(NameId(5), vec![Level::zero().succ()])),
    );
    let c = e.deep_clone();
    assert!(e.same(&c));
    assert_eq!(e, c);
    assert!(!e.same(&Expr::prop()));
    assert_eq!(e.size(), 4);
}
