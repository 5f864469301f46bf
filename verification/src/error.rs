//! Kernel error types.
//!
//! Errors are deliberately source-independent: the kernel has no access to
//! spans, file paths, or the surface syntax.

use vstd::prelude::*;
use crate::expr::DeBruijnIndex;
use crate::level::UniverseParamId;
use crate::name::NameId;
use crate::text::{decimal, hash_decimal, push_decimal, push_hash_decimal, string_of};
use vstd::string::StringExecFns;

verus! {

/// Result alias for kernel operations.
pub type KernelResult<T> = Result<T, KernelError>;

/// All errors the kernel can produce.
#[derive(Debug, PartialEq, Eq)]
#[allow(inconsistent_fields)]
pub enum KernelError {
    /// Universe constraints formed a cycle `u < u`.
    UniverseInconsistency {
        /// The parameters participating in the cycle.
        cycle: Vec<UniverseParamId>,
    },
    /// A universe constraint could not be discharged.
    UnsolvedUniverseConstraint {
        /// Human-readable rendering of the constraint.
        message: String,
    },
    /// A constant was referenced but not found in the environment.
    UnknownConstant(NameId),
    /// A name was referenced that is not present in the environment.
    UnknownName(NameId),
    /// A bound variable referenced an index outside the local context.
    UnboundVariable {
        /// The offending index.
        index: DeBruijnIndex,
        /// The size of the context at the point of failure.
        context_size: usize,
    },
    /// Two types were expected to be definitionally equal but were not.
    TypeMismatch {
        /// Pretty-printed expected type.
        expected: String,
        /// Pretty-printed actual type.
        actual: String,
    },
    /// Application of a non-function.
    NotAFunction {
        /// Pretty-printed type of the applied term.
        found: String,
    },
    /// A `Prop`-valued elimination was attempted on a `Type`-valued
    /// inductive (the singleton elimination restriction).
    InvalidElimination {
        /// The inductive name.
        inductive: NameId,
    },
    /// An inductive declaration failed the positivity check.
    NonPositiveInductive {
        /// The offending inductive.
        inductive: NameId,
        /// The index of the constructor that failed.
        constructor: usize,
    },
    /// A recursive definition failed the termination check.
    NonTerminating {
        /// The offending function.
        function: NameId,
    },
    /// A proof term was rejected by the kernel.
    ProofRejected {
        /// Human-readable reason.
        reason: String,
    },
    /// A constant was applied to the wrong number of universe arguments.
    UniverseArityMismatch {
        /// The constant's name.
        name: NameId,
        /// Number of universe parameters expected.
        expected: usize,
        /// Number provided.
        actual: usize,
    },
    /// A term could not be inferred and requires an explicit annotation.
    CannotInfer {
        /// Why the term cannot be inferred.
        reason: String,
    },
    /// An expression that was expected to be a type is not a sort.
    NotASort {
        /// Pretty-printed representation of the offending expression.
        found: String,
    },
    /// An internal invariant was violated.
    Internal(String),
}

/// The abstract value of a [`KernelError`]: strings as character
/// sequences.
#[allow(inconsistent_fields)]
pub enum KernelErrorV {
    /// See [`KernelError::UniverseInconsistency`].
    UniverseInconsistency { cycle: Seq<UniverseParamId> },
    /// See [`KernelError::UnsolvedUniverseConstraint`].
    UnsolvedUniverseConstraint { message: Seq<char> },
    /// See [`KernelError::UnknownConstant`].
    UnknownConstant(NameId),
    /// See [`KernelError::UnknownName`].
    UnknownName(NameId),
    /// See [`KernelError::UnboundVariable`].
    UnboundVariable { index: DeBruijnIndex, context_size: usize },
    /// See [`KernelError::TypeMismatch`].
    TypeMismatch { expected: Seq<char>, actual: Seq<char> },
    /// See [`KernelError::NotAFunction`].
    NotAFunction { found: Seq<char> },
    /// See [`KernelError::InvalidElimination`].
    InvalidElimination { inductive: NameId },
    /// See [`KernelError::NonPositiveInductive`].
    NonPositiveInductive { inductive: NameId, constructor: usize },
    /// See [`KernelError::NonTerminating`].
    NonTerminating { function: NameId },
    /// See [`KernelError::ProofRejected`].
    ProofRejected { reason: Seq<char> },
    /// See [`KernelError::UniverseArityMismatch`].
    UniverseArityMismatch { name: NameId, expected: usize, actual: usize },
    /// See [`KernelError::CannotInfer`].
    CannotInfer { reason: Seq<char> },
    /// See [`KernelError::NotASort`].
    NotASort { found: Seq<char> },
    /// See [`KernelError::Internal`].
    Internal(Seq<char>),
}

impl View for KernelError {
    type V = KernelErrorV;

    open spec fn view(&self) -> KernelErrorV {
        match self {
            KernelError::UniverseInconsistency { cycle } => KernelErrorV::UniverseInconsistency { cycle: cycle@ },
            KernelError::UnsolvedUniverseConstraint { message } => KernelErrorV::UnsolvedUniverseConstraint {
                message: message@,
            },
            KernelError::UnknownConstant(n) => KernelErrorV::UnknownConstant(*n),
            KernelError::UnknownName(n) => KernelErrorV::UnknownName(*n),
            KernelError::UnboundVariable { index, context_size } => KernelErrorV::UnboundVariable {
                index: *index,
                context_size: *context_size,
            },
            KernelError::TypeMismatch { expected, actual } => KernelErrorV::TypeMismatch {
                expected: expected@,
                actual: actual@,
            },
            KernelError::NotAFunction { found } => KernelErrorV::NotAFunction { found: found@ },
            KernelError::InvalidElimination { inductive } => KernelErrorV::InvalidElimination {
                inductive: *inductive,
            },
            KernelError::NonPositiveInductive { inductive, constructor } => KernelErrorV::NonPositiveInductive {
                inductive: *inductive,
                constructor: *constructor,
            },
            KernelError::NonTerminating { function } => KernelErrorV::NonTerminating { function: *function },
            KernelError::ProofRejected { reason } => KernelErrorV::ProofRejected { reason: reason@ },
            KernelError::UniverseArityMismatch { name, expected, actual } => KernelErrorV::UniverseArityMismatch {
                name: *name,
                expected: *expected,
                actual: *actual,
            },
            KernelError::CannotInfer { reason } => KernelErrorV::CannotInfer { reason: reason@ },
            KernelError::NotASort { found } => KernelErrorV::NotASort { found: found@ },
            KernelError::Internal(m) => KernelErrorV::Internal(m@),
        }
    }
}

/// Copy a vector of universe parameters.
fn clone_params(v: &Vec<UniverseParamId>) -> (r: Vec<UniverseParamId>)
    ensures
        r@ == v@,
{
    let mut out: Vec<UniverseParamId> = Vec::new();
    let n = v.len();
    let mut k: usize = 0;
    while k < n
        invariant
            n == v@.len(),
            k <= n,
            out@ == v@.take(k as int),
        decreases n - k,
    {
        out.push(v[k]);
        assert(out@ =~= v@.take(k + 1));
        k = k + 1;
    }
    assert(v@.take(n as int) =~= v@);
    out
}

impl Clone for KernelError {
    fn clone(&self) -> (r: Self)
        ensures
            r@ == self@,
    {
        match self {
            KernelError::UniverseInconsistency { cycle } => KernelError::UniverseInconsistency {
                cycle: clone_params(cycle),
            },
            KernelError::UnsolvedUniverseConstraint { message } => KernelError::UnsolvedUniverseConstraint {
                message: message.clone(),
            },
            KernelError::UnknownConstant(n) => KernelError::UnknownConstant(*n),
            KernelError::UnknownName(n) => KernelError::UnknownName(*n),
            KernelError::UnboundVariable { index, context_size } => KernelError::UnboundVariable {
                index: *index,
                context_size: *context_size,
            },
            KernelError::TypeMismatch { expected, actual } => KernelError::TypeMismatch {
                expected: expected.clone(),
                actual: actual.clone(),
            },
            KernelError::NotAFunction { found } => KernelError::NotAFunction { found: found.clone() },
            KernelError::InvalidElimination { inductive } => KernelError::InvalidElimination {
                inductive: *inductive,
            },
            KernelError::NonPositiveInductive { inductive, constructor } => KernelError::NonPositiveInductive {
                inductive: *inductive,
                constructor: *constructor,
            },
            KernelError::NonTerminating { function } => KernelError::NonTerminating { function: *function },
            KernelError::ProofRejected { reason } => KernelError::ProofRejected { reason: reason.clone() },
            KernelError::UniverseArityMismatch { name, expected, actual } => KernelError::UniverseArityMismatch {
                name: *name,
                expected: *expected,
                actual: *actual,
            },
            KernelError::CannotInfer { reason } => KernelError::CannotInfer { reason: reason.clone() },
            KernelError::NotASort { found } => KernelError::NotASort { found: found.clone() },
            KernelError::Internal(m) => KernelError::Internal(m.clone()),
        }
    }
}

/// How a universe parameter is displayed: `u` and its number.
pub open spec fn param_text(p: UniverseParamId) -> Seq<char> {
    seq!['u'] + decimal(p.0 as nat)
}

/// The rendering of a cycle: ` → p` for each parameter.
pub open spec fn cycle_text(cycle: Seq<UniverseParamId>) -> Seq<char>
    decreases cycle.len(),
{
    if cycle.len() == 0 {
        Seq::empty()
    } else {
        cycle_text(cycle.drop_last()) + " → "@ + param_text(cycle.last())
    }
}

/// The message of an error.
pub open spec fn kernel_error_text(e: KernelErrorV) -> Seq<char> {
    match e {
        KernelErrorV::UniverseInconsistency { cycle } => "universe inconsistency: cycle"@ + cycle_text(cycle),
        KernelErrorV::UnsolvedUniverseConstraint { message } => "unsolved universe constraint: "@ + message,
        KernelErrorV::UnknownConstant(id) => "unknown constant "@ + hash_decimal(id.0 as nat),
        KernelErrorV::UnknownName(id) => "unknown name "@ + hash_decimal(id.0 as nat),
        KernelErrorV::UnboundVariable { index, context_size } => "unbound variable "@ + hash_decimal(
            index.0 as nat,
        ) + " (context has "@ + decimal(context_size as nat) + " binders)"@,
        KernelErrorV::TypeMismatch { expected, actual } => "type mismatch:\n  expected: "@ + expected
            + "\n  actual:   "@ + actual,
        KernelErrorV::NotAFunction { found } => "expected a function, found: "@ + found,
        KernelErrorV::InvalidElimination { inductive } => "cannot eliminate inductive "@ + hash_decimal(
            inductive.0 as nat,
        ) + " into a non-Prop sort"@,
        KernelErrorV::NonPositiveInductive { inductive, constructor } => "inductive "@ + hash_decimal(
            inductive.0 as nat,
        ) + " fails positivity at constructor #"@ + decimal(constructor as nat),
        KernelErrorV::NonTerminating { function } => "recursive function "@ + hash_decimal(function.0 as nat)
            + " fails the termination check"@,
        KernelErrorV::ProofRejected { reason } => "proof rejected: "@ + reason,
        KernelErrorV::UniverseArityMismatch { name, expected, actual } => "constant "@ + hash_decimal(
            name.0 as nat,
        ) + " expects "@ + decimal(expected as nat) + " universe argument(s), got "@ + decimal(actual as nat),
        KernelErrorV::CannotInfer { reason } => "cannot infer type: "@ + reason,
        KernelErrorV::NotASort { found } => "expected a sort, found: "@ + found,
        KernelErrorV::Internal(msg) => "internal kernel error: "@ + msg,
    }
}

impl KernelError {
    /// The human-readable message of the error.
    pub fn describe(&self) -> (r: String)
        ensures
            r@ == kernel_error_text(self@),
    {
        match self {
            KernelError::UniverseInconsistency { cycle } => {
                let mut s = string_of("universe inconsistency: cycle");
                let n = cycle.len();
                let mut k: usize = 0;
                assert(cycle@.take(0) =~= Seq::<UniverseParamId>::empty());
                while k < n
                    invariant
                        n == cycle@.len(),
                        k <= n,
                        s@ == "universe inconsistency: cycle"@ + cycle_text(cycle@.take(k as int)),
                    decreases n - k,
                {
                    proof { reveal_strlit("u"); }
                    s.append(" → ");
                    s.append("u");
                    push_decimal(&mut s, cycle[k].0 as u64);
                    proof {
                        assert(cycle@.take(k + 1).drop_last() =~= cycle@.take(k as int));
                        assert(cycle@.take(k + 1).last() == cycle@[k as int]);
                    }
                    assert(s@ =~= "universe inconsistency: cycle"@ + cycle_text(cycle@.take(k + 1)));
                    k = k + 1;
                }
                assert(cycle@.take(n as int) =~= cycle@);
                s
            },
            KernelError::UnsolvedUniverseConstraint { message } => {
                let mut s = string_of("unsolved universe constraint: ");
                s.append(message.as_str());
                s
            },
            KernelError::UnknownConstant(id) => {
                let mut s = string_of("unknown constant ");
                push_hash_decimal(&mut s, id.0 as u64);
                s
            },
            KernelError::UnknownName(id) => {
                let mut s = string_of("unknown name ");
                push_hash_decimal(&mut s, id.0 as u64);
                s
            },
            KernelError::UnboundVariable { index, context_size } => {
                let mut s = string_of("unbound variable ");
                push_hash_decimal(&mut s, index.0 as u64);
                s.append(" (context has ");
                push_decimal(&mut s, *context_size as u64);
                s.append(" binders)");
                s
            },
            KernelError::TypeMismatch { expected, actual } => {
                let mut s = string_of("type mismatch:\n  expected: ");
                s.append(expected.as_str());
                s.append("\n  actual:   ");
                s.append(actual.as_str());
                s
            },
            KernelError::NotAFunction { found } => {
                let mut s = string_of("expected a function, found: ");
                s.append(found.as_str());
                s
            },
            KernelError::InvalidElimination { inductive } => {
                let mut s = string_of("cannot eliminate inductive ");
                push_hash_decimal(&mut s, inductive.0 as u64);
                s.append(" into a non-Prop sort");
                s
            },
            KernelError::NonPositiveInductive { inductive, constructor } => {
                let mut s = string_of("inductive ");
                push_hash_decimal(&mut s, inductive.0 as u64);
                s.append(" fails positivity at constructor #");
                push_decimal(&mut s, *constructor as u64);
                s
            },
            KernelError::NonTerminating { function } => {
                let mut s = string_of("recursive function ");
                push_hash_decimal(&mut s, function.0 as u64);
                s.append(" fails the termination check");
                s
            },
            KernelError::ProofRejected { reason } => {
                let mut s = string_of("proof rejected: ");
                s.append(reason.as_str());
                s
            },
            KernelError::UniverseArityMismatch { name, expected, actual } => {
                let mut s = string_of("constant ");
                push_hash_decimal(&mut s, name.0 as u64);
                s.append(" expects ");
                push_decimal(&mut s, *expected as u64);
                s.append(" universe argument(s), got ");
                push_decimal(&mut s, *actual as u64);
                s
            },
            KernelError::CannotInfer { reason } => {
                let mut s = string_of("cannot infer type: ");
                s.append(reason.as_str());
                s
            },
            KernelError::NotASort { found } => {
                let mut s = string_of("expected a sort, found: ");
                s.append(found.as_str());
                s
            },
            KernelError::Internal(msg) => {
                let mut s = string_of("internal kernel error: ");
                s.append(msg.as_str());
                s
            },
        }
    }
}

} // verus!
