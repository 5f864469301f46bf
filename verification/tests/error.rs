use lib::error::KernelError;
use lib::expr::DeBruijnIndex;
use lib::level::UniverseParamId;
use lib::name::NameId;

#[test]
fn display_is_nonempty_for_every_variant() {
    let variants = [
        KernelError::UniverseInconsistency { cycle: vec![] },
        KernelError::UnsolvedUniverseConstraint { message: "u ≤ v".to_string() },
        KernelError::UnknownConstant(NameId(0)),
        KernelError::UnknownName(NameId(0)),
        KernelError::UnboundVariable { index: DeBruijnIndex(3), context_size: 2 },
        KernelError::TypeMismatch { expected: "Nat".into(), actual: "Bool".into() },
        KernelError::NotAFunction { found: "Nat".into() },
        KernelError::InvalidElimination { inductive: NameId(0) },
        KernelError::NonPositiveInductive { inductive: NameId(0), constructor: 0 },
        KernelError::NonTerminating { function: NameId(0) },
        KernelError::ProofRejected { reason: "bad".into() },
        KernelError::UniverseArityMismatch { name: NameId(0), expected: 1, actual: 2 },
        KernelError::CannotInfer { reason: "λ".into() },
        KernelError::NotASort { found: "x".into() },
        KernelError::Internal("boom".into()),
    ];
    for v in variants {
        let s = v.describe();
        assert!(!s.is_empty());
    }
}

#[test]
fn error_text_names_the_offender() {
    let e = KernelError::UnknownConstant(NameId(7));
    assert!(e.describe().contains("#7"));
    let e = KernelError::UniverseInconsistency { cycle: vec![UniverseParamId(1), UniverseParamId(2)] };
    assert!(!e.describe().is_empty());
    assert_eq!(e.clone(), e);
}
