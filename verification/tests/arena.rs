use lib::arena::{ExprArena, ExprId, InternError};
use lib::expr::{BinderInfo, DeBruijnIndex, Expr, Literal};
use lib::level::Level;
use lib::name::{NameId, NameTable};

fn mk_names() -> NameTable {
    let mut t = NameTable::new();
    t.intern("Nat");
    t.intern("Nat.zero");
    t.intern("Nat.succ");
    t
}

fn nat_id(_t: &NameTable) -> NameId {
    NameId(0)
}

fn succ_id() -> NameId {
    NameId(2)
}

#[test]
fn expr_id_index_roundtrip() {
    let id = ExprId(42);
    assert_eq!(ExprId::from_index(id.index()), id);
}

#[test]
fn expr_id_equality_is_structural() {
    let mut arena = ExprArena::new();
    let z = arena.var(DeBruijnIndex(0));
    let z2 = arena.var(DeBruijnIndex(0));
    assert_eq!(z, z2);
    let n = arena.var(DeBruijnIndex(1));
    assert_ne!(z, n);
}

#[test]
fn intern_same_expr_twice_returns_same_id() {
    let mut arena = ExprArena::new();
    let names = mk_names();
    let e = Expr::Const(nat_id(&names), vec![]);
    let a = arena.intern(&e).unwrap();
    let b = arena.intern(&e).unwrap();
    assert_eq!(a, b);
    assert_eq!(arena.len(), 1);
}

#[test]
fn intern_structurally_equal_exprs_returns_same_id() {
    let mut arena = ExprArena::new();
    let names = mk_names();
    let e1 = Expr::app(Expr::Const(succ_id(), vec![]), Expr::Const(nat_id(&names), vec![]));
    let e2 = Expr::app(Expr::Const(succ_id(), vec![]), Expr::Const(nat_id(&names), vec![]));
    let a = arena.intern(&e1).unwrap();
    let b = arena.intern(&e2).unwrap();
    assert_eq!(a, b);
    assert_eq!(arena.len(), 3);
}

#[test]
fn intern_distinct_exprs_returns_distinct_ids() {
    let mut arena = ExprArena::new();
    let names = mk_names();
    let a = arena.intern(&Expr::Const(nat_id(&names), vec![])).unwrap();
    let b = arena.intern(&Expr::Const(succ_id(), vec![])).unwrap();
    assert_ne!(a, b);
    assert_eq!(arena.len(), 2);
}

#[test]
fn subterm_sharing_reuses_ids() {
    let mut arena = ExprArena::new();
    let names = mk_names();
    let nat = Expr::Const(nat_id(&names), vec![]);
    let succ = Expr::Const(succ_id(), vec![]);
    let z = arena.intern(&nat).unwrap();
    let succ_eid = arena.intern(&succ).unwrap();
    let sz = arena.app(succ_eid, z);
    let ssz = arena.app(succ_eid, sz);
    let sssz = arena.app(succ_eid, ssz);
    let _ = sssz;
    assert_eq!(arena.len(), 5);
}

#[test]
fn reinterning_shared_subterm_does_not_grow_arena() {
    let mut arena = ExprArena::new();
    let names = mk_names();
    let e = Expr::app(Expr::Const(succ_id(), vec![]), Expr::Const(nat_id(&names), vec![]));
    let _ = arena.intern(&e).unwrap();
    let before = arena.len();
    let _ = arena.intern(&e).unwrap();
    let _ = arena.intern(&e).unwrap();
    assert_eq!(arena.len(), before);
}

#[test]
fn to_expr_roundtrips_simple() {
    let mut arena = ExprArena::new();
    let names = mk_names();
    let e = Expr::Const(nat_id(&names), vec![]);
    let id = arena.intern(&e).unwrap();
    assert_eq!(arena.to_expr(id), e);
}

#[test]
fn to_expr_roundtrips_complex() {
    let mut arena = ExprArena::new();
    let names = mk_names();
    let nat = Expr::Const(nat_id(&names), vec![]);
    let succ = Expr::Const(succ_id(), vec![]);
    let e = Expr::Lam(
        BinderInfo::Default,
        NameId(99),
        Box::new(nat.clone()),
        Box::new(Expr::app(succ, Expr::app(Expr::Const(nat_id(&names), vec![]), Expr::Var(DeBruijnIndex(0))))),
    );
    let id = arena.intern(&e).unwrap();
    assert_eq!(arena.to_expr(id), e);
}

#[test]
fn predicates_match_variant() {
    let mut arena = ExprArena::new();
    let s = arena.sort(Level::zero());
    let v = arena.var(DeBruijnIndex(0));
    let c = arena.const_(NameId(0), vec![]);
    let f = arena.app(s, v);
    assert!(arena.data(s).is_sort());
    assert!(arena.data(v).is_var());
    assert!(arena.data(c).is_const());
    assert!(arena.data(f).is_app());
}

#[test]
fn get_app_fn_and_args_flattens_spine() {
    let mut arena = ExprArena::new();
    let f = arena.const_(NameId(1), vec![]);
    let a = arena.var(DeBruijnIndex(0));
    let b = arena.var(DeBruijnIndex(1));
    let c = arena.var(DeBruijnIndex(2));
    let full = arena.app_many(f, vec![a, b, c]);
    let (head, args) = arena.get_app_fn_and_args(full);
    assert_eq!(head, f);
    assert_eq!(args, vec![a, b, c]);
}

#[test]
fn get_app_fn_and_args_of_non_app_is_identity() {
    let mut arena = ExprArena::new();
    let v = arena.var(DeBruijnIndex(0));
    let (head, args) = arena.get_app_fn_and_args(v);
    assert_eq!(head, v);
    assert!(args.is_empty());
}

#[test]
fn depth_limit_accepts_shallow_terms() {
    let mut arena = ExprArena::with_max_depth(2);
    let names = mk_names();
    let z = Expr::Const(nat_id(&names), vec![]);
    let e = Expr::app(z.clone(), z.clone());
    assert!(arena.intern(&e).is_ok());
}

#[test]
fn depth_limit_rejects_deep_terms() {
    let mut arena = ExprArena::with_max_depth(1);
    let names = mk_names();
    let z = Expr::Const(nat_id(&names), vec![]);
    let inner = Expr::app(z.clone(), z.clone());
    let e = Expr::app(inner, z);
    let err = arena.intern(&e).unwrap_err();
    assert!(matches!(err, InternError::DepthExceeded { limit: 1, .. }));
}

#[test]
fn default_max_depth_is_ten_thousand() {
    let arena = ExprArena::new();
    assert_eq!(arena.max_depth(), ExprArena::DEFAULT_MAX_DEPTH);
    assert_eq!(ExprArena::DEFAULT_MAX_DEPTH, 10_000);
}

#[test]
fn contains_reports_membership() {
    let mut arena = ExprArena::new();
    let names = mk_names();
    let id = arena.intern(&Expr::Const(nat_id(&names), vec![])).unwrap();
    assert!(arena.contains(id));
    assert!(!arena.contains(ExprId(999)));
}

#[test]
fn arena_render_produces_readable_output() {
    let mut arena = ExprArena::new();
    let names = mk_names();
    let e = Expr::app(Expr::Const(succ_id(), vec![]), Expr::Const(nat_id(&names), vec![]));
    let id = arena.intern(&e).unwrap();
    let rendered = arena.render(id, &names);
    assert!(rendered.contains("Nat.succ"));
    assert!(rendered.contains("Nat"));
}

#[test]
fn error_display_is_nonempty() {
    let e = InternError::DepthExceeded { limit: 10, depth: 11 };
    assert!(!e.describe().is_empty());
}

#[test]
fn empty_arena_reports_empty() {
    let arena = ExprArena::new();
    assert!(arena.is_empty());
    assert_eq!(arena.len(), 0);
}

#[test]
fn default_arena_equals_new() {
    let a = ExprArena::default();
    let b = ExprArena::new();
    assert_eq!(a.len(), b.len());
    assert_eq!(a.max_depth(), b.max_depth());
}

#[test]
fn const_with_levels_dedups_by_level() {
    let mut arena = ExprArena::new();
    let id0 = arena.const_(NameId(7), vec![Level::zero()]);
    let id1 = arena.const_(NameId(7), vec![Level::zero()]);
    assert_eq!(id0, id1);
    let id2 = arena.const_(NameId(7), vec![Level::zero().succ()]);
    assert_ne!(id0, id2);
}

#[test]
fn literal_dedups_by_value() {
    let mut arena = ExprArena::new();
    let a = arena.lit(Literal::Nat(42));
    let b = arena.lit(Literal::Nat(42));
    let c = arena.lit(Literal::Nat(43));
    assert_eq!(a, b);
    assert_ne!(a, c);
}

#[test]
fn lam_dedups_by_components() {
    let mut arena = ExprArena::new();
    let names = mk_names();
    let nat = arena.const_(nat_id(&names), vec![]);
    let v = arena.var(DeBruijnIndex(0));
    let id_a = arena.lam(BinderInfo::Default, NameId(5), nat, v);
    let id_b = arena.lam(BinderInfo::Default, NameId(5), nat, v);
    assert_eq!(id_a, id_b);
    let id_c = arena.lam(BinderInfo::Implicit, NameId(5), nat, v);
    assert_ne!(id_a, id_c);
}

#[test]
fn arena_interned_term_reads_back_as_written() {
    let mut arena = ExprArena::new();
    let e = Expr::Pi(
        BinderInfo::Default,
        NameId(3),
        Box::new(Expr::Sort(Level::zero().succ())),
        Box::new(Expr::Let(
            NameId(4),
            Box::new(Expr::Var(DeBruijnIndex(0))),
            Box::new(Expr::Lit(Literal::Str("s".to_string()))),
            Box::new(Expr::Var(DeBruijnIndex(1))),
        )),
    );
    let id = arena.intern(&e).unwrap();
    assert_eq!(arena.to_expr(id), e);
    let again = arena.intern(&arena.to_expr(id)).unwrap();
    assert_eq!(again, id);
}

#[test]
fn reinterning_a_subterm_of_a_stored_term_leaves_the_arena_unchanged() {
    let mut arena = ExprArena::new();
    let inner = Expr::app(Expr::Var(DeBruijnIndex(0)), Expr::Var(DeBruijnIndex(1)));
    let outer = Expr::app(inner.clone(), Expr::Var(DeBruijnIndex(2)));
    arena.intern(&outer).unwrap();
    let before = arena.len();
    arena.intern(&inner).unwrap();
    arena.intern(&outer).unwrap();
    assert_eq!(arena.len(), before);
}
