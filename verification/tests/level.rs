use lib::level::{ConstraintSet, Level, UniverseParamId, leq};

#[test]
fn zero_is_zero() {
    assert!(Level::zero().is_zero());
    assert!(!Level::zero().succ().is_zero());
}

#[test]
fn succ_normalizes() {
    let l = Level::zero().succ().succ();
    assert_eq!(l.normalize(), Level::Succ(Box::new(Level::Succ(Box::new(Level::Zero)))));
}

#[test]
fn max_with_zero_is_identity() {
    let u = Level::param(UniverseParamId(7));
    assert_eq!(Level::max(Level::zero(), u.clone()).normalize(), u);
    assert_eq!(Level::max(u.clone(), Level::zero()).normalize(), u);
}

#[test]
fn max_idempotent() {
    let u = Level::param(UniverseParamId(1));
    assert_eq!(Level::max(u.clone(), u.clone()).normalize(), u);
}

#[test]
fn imax_annihilates_at_zero() {
    let u = Level::param(UniverseParamId(2));
    assert_eq!(Level::imax(u.clone(), Level::zero()).normalize(), Level::Zero);
}

#[test]
fn imax_with_zero_left() {
    let u = Level::param(UniverseParamId(3));
    assert_eq!(Level::imax(Level::zero(), u.clone()).normalize(), u);
}

#[test]
fn normalize_is_idempotent() {
    let u = Level::param(UniverseParamId(4));
    let v = Level::param(UniverseParamId(5));
    let l = Level::max(Level::imax(u.clone(), v.clone()), Level::max(Level::zero(), u.clone()));
    let n1 = l.normalize();
    let n2 = n1.normalize();
    assert_eq!(n1, n2);
}

#[test]
fn leq_reflexive() {
    let u = Level::param(UniverseParamId(6));
    assert!(leq(&u, &u));
}

#[test]
fn leq_zero_bottom() {
    let u = Level::param(UniverseParamId(8));
    assert!(leq(&Level::zero(), &u));
    assert!(!leq(&u, &Level::zero()));
}

#[test]
fn leq_succ_congruent() {
    let u = Level::param(UniverseParamId(9));
    let v = Level::param(UniverseParamId(10));
    assert!(!leq(&u.clone().succ(), &v.clone().succ()));
    assert!(leq(&u.clone().succ(), &u.succ()));
}

#[test]
fn constraint_set_discharge() {
    let u = Level::param(UniverseParamId(11));
    let mut cs = ConstraintSet::new();
    cs.add(Level::zero(), u.clone());
    cs.add(u.clone(), u.clone());
    assert!(cs.discharge().is_ok());
    cs.add(u.clone(), Level::zero());
    assert!(cs.discharge().is_err());
}

#[test]
fn level_text_matches_the_usual_notation() {
    let u = Level::param(UniverseParamId(3));
    assert_eq!(Level::zero().describe(), "0");
    assert_eq!(Level::zero().succ().describe(), "(0 + 1)");
    assert_eq!(Level::max(u.clone(), Level::zero()).describe(), "max(u3, 0)");
    assert_eq!(Level::imax(Level::zero(), u).describe(), "imax(0, u3)");
}

#[test]
fn level_params_are_sorted_and_distinct() {
    let u = Level::param(UniverseParamId(5));
    let v = Level::param(UniverseParamId(2));
    let l = Level::max(u.clone(), Level::imax(v.clone(), u));
    assert_eq!(l.params(), vec![UniverseParamId(2), UniverseParamId(5)]);
    assert!(ConstraintSet::default().is_empty());
}
