use lib::expr::Expr;
use lib::infer::TypeChecker;
use lib::name::NameId;
use lib::nbe::{Env, Nbe, TransparencyMode};
use lib::prelude::{build_nat_prelude, build_prelude, Prelude};

/// `n` as a closed kernel `Nat` literal chain.
fn num(p: &Prelude, n: u64) -> Expr {
    let mut e = Expr::Const(p.zero, Vec::new());
    for _ in 0..n {
        e = Expr::app(Expr::Const(p.succ, Vec::new()), e);
    }
    e
}

/// Fully-applied binary operator application.
fn op2(p: &Prelude, f: NameId, a: u64, b: u64) -> Expr {
    Expr::Const(f, Vec::new()).apps(vec![num(p, a), num(p, b)])
}

/// Evaluate a closed term to its normal form.
fn normalise(p: &Prelude, e: &Expr) -> Expr {
    let nbe = Nbe::new(&p.env, TransparencyMode::Semireducible);
    let v = nbe.eval(&Env::empty(), e).unwrap();
    nbe.quote(0, &v).unwrap()
}

fn check_bool(p: &Prelude, e: &Expr, expected: bool) {
    let want = if expected { p.bool_true } else { p.bool_false };
    assert_eq!(normalise(p, e), Expr::Const(want, Vec::new()));
}

fn op1(f: NameId, a: Expr) -> Expr {
    Expr::app(Expr::Const(f, Vec::new()), a)
}

fn bool_const(p: &Prelude, b: bool) -> Expr {
    Expr::Const(if b { p.bool_true } else { p.bool_false }, Vec::new())
}

fn arith_ops(p: &Prelude) -> [NameId; 5] {
    [p.pred, p.add, p.mul, p.sub, p.pow]
}

fn cmp_ops(p: &Prelude) -> [NameId; 9] {
    [p.bool_not, p.nat_is_zero, p.nat_beq_step, p.nat_beq, p.nat_bne, p.nat_ble, p.nat_blt, p.nat_bgt, p.nat_bge]
}

#[test]
fn all_five_arith_ops_typecheck() {
    let p = build_prelude();
    let tc = TypeChecker::new(&p.env);
    for name in arith_ops(&p) {
        let info = p.env.find(name).expect("op missing");
        tc.check_declaration(&info).unwrap_or_else(|e| panic!("{name:?} failed: {e:?}"));
    }
}

#[test]
fn env_grows_by_five_plus_nine() {
    assert_eq!(build_prelude().env.len(), 33);
}

#[test]
fn ops_have_no_universe_params() {
    let p = build_prelude();
    for name in arith_ops(&p) {
        let info = p.env.find(name).unwrap();
        assert!(info.universe_params().is_empty(), "{name:?} must stay monomorphic");
    }
}

#[test]
fn pred_reduces() {
    let p = build_prelude();
    let pred_of = |n: u64| Expr::app(Expr::Const(p.pred, Vec::new()), num(&p, n));
    assert_eq!(normalise(&p, &pred_of(1)), num(&p, 0));
    assert_eq!(normalise(&p, &pred_of(0)), num(&p, 0));
}

#[test]
fn add_reduces() {
    let p = build_prelude();
    assert_eq!(normalise(&p, &op2(&p, p.add, 0, 1)), num(&p, 1));
    assert_eq!(normalise(&p, &op2(&p, p.add, 1, 0)), num(&p, 1));
    assert_eq!(normalise(&p, &op2(&p, p.add, 2, 1)), num(&p, 3));
}

#[test]
fn mul_reduces() {
    let p = build_prelude();
    assert_eq!(normalise(&p, &op2(&p, p.mul, 0, 2)), num(&p, 0));
    assert_eq!(normalise(&p, &op2(&p, p.mul, 1, 2)), num(&p, 2));
    assert_eq!(normalise(&p, &op2(&p, p.mul, 2, 2)), num(&p, 4));
}

#[test]
fn sub_reduces() {
    let p = build_prelude();
    assert_eq!(normalise(&p, &op2(&p, p.sub, 2, 0)), num(&p, 2));
    assert_eq!(normalise(&p, &op2(&p, p.sub, 2, 1)), num(&p, 1));
    assert_eq!(normalise(&p, &op2(&p, p.sub, 0, 1)), num(&p, 0));
}

#[test]
fn pow_reduces() {
    let p = build_prelude();
    assert_eq!(normalise(&p, &op2(&p, p.pow, 2, 0)), num(&p, 1));
    assert_eq!(normalise(&p, &op2(&p, p.pow, 2, 1)), num(&p, 2));
    assert_eq!(normalise(&p, &op2(&p, p.pow, 2, 2)), num(&p, 4));
}

#[test]
fn all_nine_cmp_ops_typecheck() {
    let p = build_prelude();
    let tc = TypeChecker::new(&p.env);
    for name in cmp_ops(&p) {
        let info = p.env.find(name).expect("op missing");
        tc.check_declaration(&info).unwrap_or_else(|e| panic!("{name:?} failed: {e:?}"));
    }
}

#[test]
fn cmp_ops_have_no_universe_params() {
    let p = build_prelude();
    for name in cmp_ops(&p) {
        let info = p.env.find(name).unwrap();
        assert!(info.universe_params().is_empty(), "{name:?} must stay monomorphic");
    }
}

#[test]
fn bool_not_reduces() {
    let p = build_prelude();
    check_bool(&p, &op1(p.bool_not, bool_const(&p, true)), false);
    check_bool(&p, &op1(p.bool_not, bool_const(&p, false)), true);
}

#[test]
fn nat_is_zero_reduces() {
    let p = build_prelude();
    let is_zero_of = |n: u64| op1(p.nat_is_zero, num(&p, n));
    check_bool(&p, &is_zero_of(0), true);
    check_bool(&p, &is_zero_of(1), false);
    check_bool(&p, &is_zero_of(5), false);
}

#[test]
fn nat_beq_reduces() {
    let p = build_prelude();
    let beq = |a: u64, b: u64| op2(&p, p.nat_beq, a, b);
    check_bool(&p, &beq(0, 0), true);
    check_bool(&p, &beq(0, 1), false);
    check_bool(&p, &beq(1, 0), false);
    check_bool(&p, &beq(3, 3), true);
    check_bool(&p, &beq(2, 3), false);
}

#[test]
fn nat_bne_reduces() {
    let p = build_prelude();
    let bne = |a: u64, b: u64| op2(&p, p.nat_bne, a, b);
    check_bool(&p, &bne(0, 0), false);
    check_bool(&p, &bne(0, 1), true);
}

#[test]
fn nat_ble_reduces() {
    let p = build_prelude();
    let ble = |a: u64, b: u64| op2(&p, p.nat_ble, a, b);
    check_bool(&p, &ble(0, 5), true);
    check_bool(&p, &ble(3, 3), true);
    check_bool(&p, &ble(5, 3), false);
}

#[test]
fn nat_blt_reduces() {
    let p = build_prelude();
    let blt = |a: u64, b: u64| op2(&p, p.nat_blt, a, b);
    check_bool(&p, &blt(0, 1), true);
    check_bool(&p, &blt(2, 5), true);
    check_bool(&p, &blt(3, 3), false);
    check_bool(&p, &blt(5, 2), false);
}

#[test]
fn nat_bgt_reduces() {
    let p = build_prelude();
    let bgt = |a: u64, b: u64| op2(&p, p.nat_bgt, a, b);
    check_bool(&p, &bgt(5, 2), true);
    check_bool(&p, &bgt(3, 3), false);
}

#[test]
fn nat_bge_reduces() {
    let p = build_prelude();
    let bge = |a: u64, b: u64| op2(&p, p.nat_bge, a, b);
    check_bool(&p, &bge(5, 5), true);
    check_bool(&p, &bge(2, 5), false);
}

#[test]
fn prelude_names_are_interned_in_the_table() {
    let p = build_prelude();
    assert_eq!(p.names.resolve(p.nat), "Nat");
    assert_eq!(p.names.resolve(p.zero), "Nat.zero");
    assert_eq!(p.names.resolve(p.nat_bge), "Nat.bge");
    assert_eq!(p.names.resolve(p.bool_true), "Bool.true");
}

#[test]
fn nat_prelude_is_the_same_build() {
    let a = build_prelude();
    let b = build_nat_prelude();
    assert_eq!(a.env.len(), b.env.len());
    assert_eq!(a.nat, b.nat);
    assert_eq!(a.rec_universe, b.rec_universe);
}

#[test]
fn every_prelude_declaration_typechecks() {
    let p = build_prelude();
    let tc = TypeChecker::new(&p.env);
    for name in [p.nat, p.zero, p.succ, p.rec, p.bool_true, p.bool_false] {
        let info = p.env.find(name).expect("declaration missing");
        tc.check_declaration(&info).unwrap_or_else(|e| panic!("{name:?} failed: {e:?}"));
    }
}

#[test]
fn prelude_names_are_interned_in_declaration_order() {
    let p = build_prelude();
    let expected = [
        "Nat", "Nat.zero", "Nat.succ", "Nat.rec", "Nat.pred", "Nat.add", "Nat.mul", "Nat.sub", "Nat.pow",
        "Bool.not", "Nat.is_zero", "Nat.beq_step", "Nat.beq", "Nat.bne", "Nat.ble", "Nat.blt", "Nat.bgt",
        "Nat.bge", "Bool", "Bool.true", "Bool.false", "Bool.rec", "List", "List.nil", "List.cons", "List.rec",
        "Option", "Option.none", "Option.some", "Option.rec", "Eq", "Eq.refl", "Eq.rec",
    ];
    for (k, name) in expected.iter().enumerate() {
        assert_eq!(p.names.resolve(NameId(k as u32)), *name);
    }
    assert_eq!(p.nat, NameId(0));
    assert_eq!(p.zero, NameId(1));
    assert_eq!(p.bool_name, NameId(18));
    assert_eq!(p.eq_rec, NameId(32));
    let binders = [
        "_", "motive", "zero_case", "succ_case", "n", "h", "major", "k", "m", "ih", "b", "j", "A", "x", "y",
        "refl_case", "true_case", "false_case", "nil_case", "cons_case", "xs", "l", "none_case", "some_case", "o",
    ];
    for (k, name) in binders.iter().enumerate() {
        assert_eq!(p.names.resolve(NameId(33 + k as u32)), *name);
    }
    assert_eq!(p.names.len(), 33 + binders.len());
}
