//! Global environment and local typing context.
//!
//! The [`GlobalEnv`] stores all top-level declarations: axioms,
//! definitions, theorems, opaque constants, inductive families, their
//! constructors and recursors. Its abstract value is a finite map from
//! names to declarations; it is consulted by the type checker, the NbE
//! engine and the termination checker.
//!
//! The [`LocalContext`] models the local binders in scope: a persistent
//! list whose head is the innermost binder.
//!
//! An inductive family, its constructors and its recursor are inserted
//! together or not at all, and a block of declarations is inserted
//! atomically: on any error the environment is unchanged. Theorem bodies
//! are retained but irreducible, so δ-unfolding never expands a proof.

use vstd::prelude::*;
use std::rc::Rc;
use crate::error::{KernelError, KernelErrorV};
use crate::expr::{BinderInfo, DeBruijnIndex, Expr, ExprV};
use crate::level::UniverseParamId;
use crate::name::NameId;
use crate::nbe::{
    ConstDecl, ConstEnv, DbLevel, Env as NbeEnv, QuotientLiftInfo, RecursorInfo, RecursorRuleInfo,
    Transparency, Value, context_env,
};
use crate::text::{decimal, hash_decimal, push_decimal, push_hash_decimal, string_of};
use vstd::string::StringExecFns;

verus! {

// ---------------------------------------------------------------------------
// Declarations
// ---------------------------------------------------------------------------

/// The header shared by every declared constant: name, universe
/// parameters and type.
#[derive(Clone, Debug)]
pub struct ConstantVal {
    /// The constant's name.
    pub name: NameId,
    /// Universe parameters introduced by the declaration, in order.
    pub universe_params: Vec<UniverseParamId>,
    /// The constant's type.
    pub ty: Rc<Expr>,
}

/// A definition with a user-controlled transparency.
#[derive(Clone, Debug)]
pub struct DefinitionVal {
    /// The declaration header.
    pub base: ConstantVal,
    /// The definition's body.
    pub body: Rc<Expr>,
    /// When δ-unfolding is permitted for this definition.
    pub transparency: Transparency,
    /// The termination obligation, checked by [`GlobalEnv::add`].
    pub termination: TerminationObligation,
}

/// A termination obligation attached to a definition: the names of its
/// parameters, in declaration order. A definition whose body mentions a
/// member of its block must supply exactly as many as its type has
/// Π-binders.
#[derive(Clone, Debug)]
pub struct TerminationObligation {
    /// The parameter names, outermost first.
    pub params: Vec<NameId>,
}

impl TerminationObligation {
    /// No obligation (a non-recursive definition with no parameters).
    pub fn none() -> (r: Self)
        ensures
            r.params@ == Seq::<NameId>::empty(),
    {
        TerminationObligation { params: Vec::new() }
    }

    /// An obligation for a definition whose body may self-recurse.
    pub fn recursive(params: Vec<NameId>) -> (r: Self)
        ensures
            r.params@ == params@,
    {
        TerminationObligation { params }
    }

    /// `true` iff no parameters are recorded.
    pub fn is_empty(&self) -> (r: bool)
        ensures
            r == (self.params@.len() == 0),
    {
        self.params.len() == 0
    }
}

impl Default for TerminationObligation {
    fn default() -> (r: Self)
        ensures
            r.params@ == Seq::<NameId>::empty(),
    {
        Self::none()
    }
}

/// A theorem: a definition whose body is a proof term.
#[derive(Clone, Debug)]
pub struct TheoremVal {
    /// The declaration header.
    pub base: ConstantVal,
    /// The proof term.
    pub body: Rc<Expr>,
    /// When δ-unfolding is permitted.
    pub transparency: Transparency,
}

/// An opaque constant: has a body, but is never unfolded.
#[derive(Clone, Debug)]
pub struct OpaqueVal {
    /// The declaration header.
    pub base: ConstantVal,
    /// The body, retained for auditing.
    pub body: Rc<Expr>,
}

/// An inductive family declaration.
#[derive(Clone, Debug)]
pub struct InductiveVal {
    /// The declaration header.
    pub base: ConstantVal,
    /// Number of uniform parameters.
    pub num_params: u32,
    /// Number of indices.
    pub num_indices: u32,
    /// All inductives of the same mutually recursive block, in order.
    pub all: Vec<NameId>,
    /// Constructors of this inductive, in declaration order.
    pub constructors: Vec<NameId>,
    /// `true` iff the inductive appears in any of its own constructors.
    pub is_recursive: bool,
    /// `true` iff the inductive appears nested inside another inductive.
    pub is_nested: bool,
    /// `true` iff this declaration was marked `unsafe`.
    pub is_unsafe: bool,
}

/// A constructor of an inductive family.
#[derive(Clone, Debug)]
pub struct ConstructorVal {
    /// The declaration header.
    pub base: ConstantVal,
    /// The inductive this constructor belongs to.
    pub inductive: NameId,
    /// Zero-based position within its inductive's declaration order.
    pub index: u32,
    /// Number of parameters copied from the inductive.
    pub num_params: u32,
    /// Number of fields.
    pub num_fields: u32,
    /// `true` iff the containing inductive was marked `unsafe`.
    pub is_unsafe: bool,
}

/// A single ι-reduction rule for a recursor.
#[derive(Clone, Debug)]
pub struct RecursorRule {
    /// The constructor this rule fires for.
    pub constructor: NameId,
    /// Number of fields the rule binds.
    pub num_fields: u32,
    /// The right-hand side of the rule.
    pub rhs: Rc<Expr>,
}

/// A recursor (eliminator) for an inductive family.
#[derive(Clone, Debug)]
pub struct RecursorVal {
    /// The declaration header.
    pub base: ConstantVal,
    /// The inductives eliminated by this recursor.
    pub all: Vec<NameId>,
    /// Number of parameters.
    pub num_params: u32,
    /// Number of indices.
    pub num_indices: u32,
    /// Number of motives.
    pub num_motives: u32,
    /// Total number of minor premises.
    pub num_minors: u32,
    /// The ι-reduction rules.
    pub rules: Vec<RecursorRule>,
    /// `true` for K-like eliminators.
    pub is_k: bool,
    /// `true` iff the containing inductive was marked `unsafe`.
    pub is_unsafe: bool,
}

/// The kind of a quotient constant.
#[derive(Clone, Copy, Debug, PartialEq, Eq, Structural)]
pub enum QuotientKind {
    /// `Quot A R` — the type former.
    Type,
    /// `Quot.mk A R a` — the constructor.
    Mk,
    /// `Quot.lift A R B f h q` — the eliminator with a β-rule.
    Lift {
        /// The `Quot.mk` this eliminator recognises.
        mk: NameId,
        /// Total number of explicit arguments.
        arity: u32,
        /// Zero-based index of the function argument.
        func_index: u32,
        /// Zero-based index of the quotient-value argument.
        major_index: u32,
    },
    /// `Quot.sound h` — the soundness axiom.
    Sound,
}

/// A quotient-related constant.
#[derive(Clone, Debug)]
pub struct QuotientVal {
    /// The declaration header.
    pub base: ConstantVal,
    /// Which quotient primitive this is.
    pub kind: QuotientKind,
}

/// The full information attached to a declared constant.
#[derive(Debug)]
pub enum ConstantInfo {
    /// A trusted, unproven constant.
    Axiom(ConstantVal),
    /// A transparent definition.
    Definition(DefinitionVal),
    /// A theorem (proof term).
    Theorem(TheoremVal),
    /// An opaque constant with a body.
    Opaque(OpaqueVal),
    /// An inductive family.
    Inductive(InductiveVal),
    /// A constructor.
    Constructor(ConstructorVal),
    /// A recursor.
    Recursor(RecursorVal),
    /// A quotient-related constant.
    Quotient(QuotientVal),
}

/// The declaration header of `i`.
pub open spec fn base_of(i: ConstantInfo) -> ConstantVal {
    match i {
        ConstantInfo::Axiom(v) => v,
        ConstantInfo::Definition(v) => v.base,
        ConstantInfo::Theorem(v) => v.base,
        ConstantInfo::Opaque(v) => v.base,
        ConstantInfo::Inductive(v) => v.base,
        ConstantInfo::Constructor(v) => v.base,
        ConstantInfo::Recursor(v) => v.base,
        ConstantInfo::Quotient(v) => v.base,
    }
}

/// The unfoldable body of `i`: present for definitions, theorems and
/// opaque constants.
pub open spec fn body_of(i: ConstantInfo) -> Option<Rc<Expr>> {
    match i {
        ConstantInfo::Definition(v) => Some(v.body),
        ConstantInfo::Theorem(v) => Some(v.body),
        ConstantInfo::Opaque(v) => Some(v.body),
        _ => None,
    }
}

/// The transparency of `i`: that of a definition or theorem, and
/// `Irreducible` for everything else.
pub open spec fn transparency_of(i: ConstantInfo) -> Transparency {
    match i {
        ConstantInfo::Definition(v) => v.transparency,
        ConstantInfo::Theorem(v) => v.transparency,
        _ => Transparency::Irreducible,
    }
}

/// `true` iff `i` is constructor-like: an inductive constructor or
/// `Quot.mk`.
pub open spec fn is_constructor_spec(i: ConstantInfo) -> bool {
    match i {
        ConstantInfo::Constructor(_) => true,
        ConstantInfo::Quotient(v) => v.kind is Mk,
        _ => false,
    }
}

/// The `Quot.lift` β-rule of `i`, if it is a lift eliminator.
pub open spec fn quotient_lift_of(i: ConstantInfo) -> Option<QuotientLiftInfo> {
    match i {
        ConstantInfo::Quotient(v) => match v.kind {
            QuotientKind::Lift { mk, arity, func_index, major_index } => Some(
                QuotientLiftInfo { mk, arity, func_index, major_index },
            ),
            _ => None,
        },
        _ => None,
    }
}

/// `true` iff `ri` is the view of the recursor `v` that ι-reduction uses.
pub open spec fn recursor_info_matches(ri: RecursorInfo, v: RecursorVal) -> bool {
    &&& ri.num_params == v.num_params
    &&& ri.num_indices == v.num_indices
    &&& ri.num_motives == v.num_motives
    &&& ri.num_minors == v.num_minors
    &&& ri.rules@.len() == v.rules@.len()
    &&& forall|k: int|
        0 <= k < v.rules@.len() ==> {
            &&& (#[trigger] ri.rules@[k]).constructor == v.rules@[k].constructor
            &&& ri.rules@[k].num_fields == v.rules@[k].num_fields
            &&& ri.rules@[k].rhs == v.rules@[k].rhs
        }
}

/// `true` iff `d` is the view of `i` that the NbE engine consumes.
pub open spec fn decl_matches(d: ConstDecl, i: ConstantInfo) -> bool {
    &&& d.name == base_of(i).name
    &&& d.universe_params@ == base_of(i).universe_params@
    &&& d.ty == base_of(i).ty
    &&& d.body == body_of(i)
    &&& d.transparency == transparency_of(i)
    &&& d.is_constructor == is_constructor_spec(i)
    &&& d.quotient_lift == quotient_lift_of(i)
    &&& match i {
        ConstantInfo::Recursor(v) => d.recursor_info is Some && recursor_info_matches(d.recursor_info->0, v),
        _ => d.recursor_info is None,
    }
}

/// Copy a vector of universe parameters.
fn copy_params(v: &Vec<UniverseParamId>) -> (r: Vec<UniverseParamId>)
    ensures
        r@ == v@,
{
    let mut out: Vec<UniverseParamId> = Vec::new();
    let n = v.len();
    let mut k: usize = 0;
    while k < n
        invariant
            n == v@.len(),
            k <= n,
            out@ == v@.take(k as int),
        decreases n - k,
    {
        out.push(v[k]);
        assert(out@ =~= v@.take(k + 1));
        k = k + 1;
    }
    assert(v@.take(n as int) =~= v@);
    out
}

/// The view of a recursor that ι-reduction uses.
fn project_recursor_info(v: &RecursorVal) -> (r: RecursorInfo)
    ensures
        recursor_info_matches(r, *v),
{
    let mut rules: Vec<RecursorRuleInfo> = Vec::new();
    let n = v.rules.len();
    let mut k: usize = 0;
    while k < n
        invariant
            n == v.rules@.len(),
            k <= n,
            rules@.len() == k,
            forall|j: int|
                0 <= j < k ==> {
                    &&& (#[trigger] rules@[j]).constructor == v.rules@[j].constructor
                    &&& rules@[j].num_fields == v.rules@[j].num_fields
                    &&& rules@[j].rhs == v.rules@[j].rhs
                },
        decreases n - k,
    {
        let r = &v.rules[k];
        rules.push(RecursorRuleInfo { constructor: r.constructor, num_fields: r.num_fields, rhs: Rc::clone(&r.rhs) });
        k = k + 1;
    }
    RecursorInfo {
        num_params: v.num_params,
        num_indices: v.num_indices,
        num_motives: v.num_motives,
        num_minors: v.num_minors,
        rules,
    }
}

impl ConstantInfo {
    /// The declaration header.
    pub fn base(&self) -> (r: &ConstantVal)
        ensures
            *r == base_of(*self),
    {
        match self {
            ConstantInfo::Axiom(v) => v,
            ConstantInfo::Definition(v) => &v.base,
            ConstantInfo::Theorem(v) => &v.base,
            ConstantInfo::Opaque(v) => &v.base,
            ConstantInfo::Inductive(v) => &v.base,
            ConstantInfo::Constructor(v) => &v.base,
            ConstantInfo::Recursor(v) => &v.base,
            ConstantInfo::Quotient(v) => &v.base,
        }
    }

    /// The constant's name.
    pub fn name(&self) -> (r: NameId)
        ensures
            r == base_of(*self).name,
    {
        self.base().name
    }

    /// The constant's type.
    pub fn ty(&self) -> (r: &Rc<Expr>)
        ensures
            *r == base_of(*self).ty,
    {
        &self.base().ty
    }

    /// The constant's universe parameters.
    pub fn universe_params(&self) -> (r: &Vec<UniverseParamId>)
        ensures
            r@ == base_of(*self).universe_params@,
    {
        &self.base().universe_params
    }

    /// The definition body, if any: present for definitions, theorems and
    /// opaque constants.
    pub fn body(&self) -> (r: Option<&Rc<Expr>>)
        ensures
            match r {
                Some(b) => body_of(*self) == Some(*b),
                None => body_of(*self) is None,
            },
    {
        match self {
            ConstantInfo::Definition(v) => Some(&v.body),
            ConstantInfo::Theorem(v) => Some(&v.body),
            ConstantInfo::Opaque(v) => Some(&v.body),
            _ => None,
        }
    }

    /// The transparency marker that governs δ-unfolding.
    pub fn transparency(&self) -> (r: Transparency)
        ensures
            r == transparency_of(*self),
    {
        match self {
            ConstantInfo::Definition(v) => v.transparency,
            ConstantInfo::Theorem(v) => v.transparency,
            _ => Transparency::Irreducible,
        }
    }

    /// Project into the lightweight [`ConstDecl`] view for the NbE engine.
    pub fn to_const_decl(&self) -> (r: ConstDecl)
        ensures
            decl_matches(r, *self),
    {
        let base = self.base();
        let quotient_lift = match self {
            ConstantInfo::Quotient(v) => match v.kind {
                QuotientKind::Lift { mk, arity, func_index, major_index } => Some(
                    QuotientLiftInfo { mk, arity, func_index, major_index },
                ),
                _ => None,
            },
            _ => None,
        };
        let body = match self.body() {
            Some(b) => Some(Rc::clone(b)),
            None => None,
        };
        let recursor_info = match self {
            ConstantInfo::Recursor(v) => Some(project_recursor_info(v)),
            _ => None,
        };
        ConstDecl {
            name: base.name,
            universe_params: copy_params(&base.universe_params),
            ty: Rc::clone(&base.ty),
            body,
            transparency: self.transparency(),
            is_constructor: self.is_constructor(),
            recursor_info,
            quotient_lift,
        }
    }

    /// `true` iff this is an inductive family.
    pub fn is_inductive(&self) -> (r: bool)
        ensures
            r == (*self is Inductive),
    {
        match self {
            ConstantInfo::Inductive(_) => true,
            _ => false,
        }
    }

    /// `true` iff this is a constructor: an inductive constructor or
    /// `Quot.mk`.
    pub fn is_constructor(&self) -> (r: bool)
        ensures
            r == is_constructor_spec(*self),
    {
        match self {
            ConstantInfo::Constructor(_) => true,
            ConstantInfo::Quotient(v) => match v.kind {
                QuotientKind::Mk => true,
                _ => false,
            },
            _ => false,
        }
    }

    /// `true` iff this is a recursor.
    pub fn is_recursor(&self) -> (r: bool)
        ensures
            r == (*self is Recursor),
    {
        match self {
            ConstantInfo::Recursor(_) => true,
            _ => false,
        }
    }

    /// `true` iff this is a quotient-related constant.
    pub fn is_quotient(&self) -> (r: bool)
        ensures
            r == (*self is Quotient),
    {
        match self {
            ConstantInfo::Quotient(_) => true,
            _ => false,
        }
    }
}

// ---------------------------------------------------------------------------
// Environment errors
// ---------------------------------------------------------------------------

/// Errors that arise when mutating the environment.
#[derive(Debug, PartialEq, Eq)]
#[allow(inconsistent_fields)]
pub enum EnvError {
    /// A declaration with the same name already exists.
    DuplicateDeclaration(NameId),
    /// A constructor references an inductive other than the one being
    /// inserted.
    ConstructorBelongsToUnknownInductive {
        /// The constructor being inserted.
        constructor: NameId,
        /// The inductive the constructor claims to belong to.
        inductive: NameId,
    },
    /// A recursor references an inductive other than the one being
    /// inserted.
    RecursorReferencesUnknownInductive {
        /// The recursor being inserted.
        recursor: NameId,
        /// The offending inductive.
        inductive: NameId,
    },
    /// A constructor index is not in `0 .. num_constructors`.
    ConstructorIndexOutOfRange {
        /// The constructor being inserted.
        constructor: NameId,
        /// The out-of-range index.
        index: u32,
        /// The number of constructors declared for the inductive.
        count: u32,
    },
    /// An inductive declaration failed the positivity check.
    NonPositiveInductive {
        /// The offending inductive.
        inductive: NameId,
        /// Zero-based index of the offending constructor.
        constructor: usize,
    },
    /// An internal invariant was violated.
    Internal(String),
    /// A definition's termination obligation was not satisfied.
    NonTerminating {
        /// The offending definition.
        function: NameId,
        /// A rendered explanation from the SCT checker.
        reason: String,
    },
    /// A definition's termination obligation did not match its arity.
    TerminationArityMismatch {
        /// The offending definition.
        function: NameId,
        /// The number of Π binders of the definition's type.
        expected: usize,
        /// The number of parameter names supplied in the obligation.
        actual: usize,
    },
}

/// The abstract value of an [`EnvError`].
#[allow(inconsistent_fields)]
pub enum EnvErrorV {
    /// See [`EnvError::DuplicateDeclaration`].
    DuplicateDeclaration(NameId),
    /// See [`EnvError::ConstructorBelongsToUnknownInductive`].
    ConstructorBelongsToUnknownInductive { constructor: NameId, inductive: NameId },
    /// See [`EnvError::RecursorReferencesUnknownInductive`].
    RecursorReferencesUnknownInductive { recursor: NameId, inductive: NameId },
    /// See [`EnvError::ConstructorIndexOutOfRange`].
    ConstructorIndexOutOfRange { constructor: NameId, index: u32, count: u32 },
    /// See [`EnvError::NonPositiveInductive`].
    NonPositiveInductive { inductive: NameId, constructor: usize },
    /// See [`EnvError::Internal`].
    Internal(Seq<char>),
    /// See [`EnvError::NonTerminating`].
    NonTerminating { function: NameId, reason: Seq<char> },
    /// See [`EnvError::TerminationArityMismatch`].
    TerminationArityMismatch { function: NameId, expected: usize, actual: usize },
}

impl View for EnvError {
    type V = EnvErrorV;

    open spec fn view(&self) -> EnvErrorV {
        match self {
            EnvError::DuplicateDeclaration(n) => EnvErrorV::DuplicateDeclaration(*n),
            EnvError::ConstructorBelongsToUnknownInductive { constructor, inductive } => {
                EnvErrorV::ConstructorBelongsToUnknownInductive { constructor: *constructor, inductive: *inductive }
            },
            EnvError::RecursorReferencesUnknownInductive { recursor, inductive } => {
                EnvErrorV::RecursorReferencesUnknownInductive { recursor: *recursor, inductive: *inductive }
            },
            EnvError::ConstructorIndexOutOfRange { constructor, index, count } => {
                EnvErrorV::ConstructorIndexOutOfRange { constructor: *constructor, index: *index, count: *count }
            },
            EnvError::NonPositiveInductive { inductive, constructor } => EnvErrorV::NonPositiveInductive {
                inductive: *inductive,
                constructor: *constructor,
            },
            EnvError::Internal(m) => EnvErrorV::Internal(m@),
            EnvError::NonTerminating { function, reason } => EnvErrorV::NonTerminating {
                function: *function,
                reason: reason@,
            },
            EnvError::TerminationArityMismatch { function, expected, actual } => {
                EnvErrorV::TerminationArityMismatch { function: *function, expected: *expected, actual: *actual }
            },
        }
    }
}

impl Clone for EnvError {
    fn clone(&self) -> (r: Self)
        ensures
            r@ == self@,
    {
        match self {
            EnvError::DuplicateDeclaration(n) => EnvError::DuplicateDeclaration(*n),
            EnvError::ConstructorBelongsToUnknownInductive { constructor, inductive } => {
                EnvError::ConstructorBelongsToUnknownInductive { constructor: *constructor, inductive: *inductive }
            },
            EnvError::RecursorReferencesUnknownInductive { recursor, inductive } => {
                EnvError::RecursorReferencesUnknownInductive { recursor: *recursor, inductive: *inductive }
            },
            EnvError::ConstructorIndexOutOfRange { constructor, index, count } => {
                EnvError::ConstructorIndexOutOfRange { constructor: *constructor, index: *index, count: *count }
            },
            EnvError::NonPositiveInductive { inductive, constructor } => EnvError::NonPositiveInductive {
                inductive: *inductive,
                constructor: *constructor,
            },
            EnvError::Internal(m) => EnvError::Internal(m.clone()),
            EnvError::NonTerminating { function, reason } => EnvError::NonTerminating {
                function: *function,
                reason: reason.clone(),
            },
            EnvError::TerminationArityMismatch { function, expected, actual } => {
                EnvError::TerminationArityMismatch { function: *function, expected: *expected, actual: *actual }
            },
        }
    }
}

/// The message of an environment error.
pub open spec fn env_error_text(e: EnvErrorV) -> Seq<char> {
    match e {
        EnvErrorV::DuplicateDeclaration(n) => "duplicate declaration for "@ + hash_decimal(n.0 as nat),
        EnvErrorV::ConstructorBelongsToUnknownInductive { constructor, inductive } => "constructor "@
            + hash_decimal(constructor.0 as nat) + " references unknown inductive "@ + hash_decimal(
            inductive.0 as nat,
        ),
        EnvErrorV::RecursorReferencesUnknownInductive { recursor, inductive } => "recursor "@ + hash_decimal(
            recursor.0 as nat,
        ) + " references unknown inductive "@ + hash_decimal(inductive.0 as nat),
        EnvErrorV::ConstructorIndexOutOfRange { constructor, index, count } => "constructor "@ + hash_decimal(
            constructor.0 as nat,
        ) + " has index "@ + decimal(index as nat) + " but inductive has "@ + decimal(count as nat)
            + " constructors"@,
        EnvErrorV::NonPositiveInductive { inductive, constructor } => "inductive "@ + hash_decimal(
            inductive.0 as nat,
        ) + " fails positivity at constructor #"@ + decimal(constructor as nat),
        EnvErrorV::Internal(msg) => "internal environment error: "@ + msg,
        EnvErrorV::NonTerminating { function, reason } => "definition "@ + hash_decimal(function.0 as nat)
            + " failed the termination check: "@ + reason,
        EnvErrorV::TerminationArityMismatch { function, expected, actual } => "definition "@ + hash_decimal(
            function.0 as nat,
        ) + " declares "@ + decimal(actual as nat) + " termination parameter(s) but its type has "@
            + decimal(expected as nat) + " Π binder(s)"@,
    }
}

impl EnvError {
    /// The human-readable message of the error.
    pub fn describe(&self) -> (r: String)
        ensures
            r@ == env_error_text(self@),
    {
        match self {
            EnvError::DuplicateDeclaration(n) => {
                let mut s = string_of("duplicate declaration for ");
                push_hash_decimal(&mut s, n.0 as u64);
                s
            },
            EnvError::ConstructorBelongsToUnknownInductive { constructor, inductive } => {
                let mut s = string_of("constructor ");
                push_hash_decimal(&mut s, constructor.0 as u64);
                s.append(" references unknown inductive ");
                push_hash_decimal(&mut s, inductive.0 as u64);
                s
            },
            EnvError::RecursorReferencesUnknownInductive { recursor, inductive } => {
                let mut s = string_of("recursor ");
                push_hash_decimal(&mut s, recursor.0 as u64);
                s.append(" references unknown inductive ");
                push_hash_decimal(&mut s, inductive.0 as u64);
                s
            },
            EnvError::ConstructorIndexOutOfRange { constructor, index, count } => {
                let mut s = string_of("constructor ");
                push_hash_decimal(&mut s, constructor.0 as u64);
                s.append(" has index ");
                push_decimal(&mut s, *index as u64);
                s.append(" but inductive has ");
                push_decimal(&mut s, *count as u64);
                s.append(" constructors");
                s
            },
            EnvError::NonPositiveInductive { inductive, constructor } => {
                let mut s = string_of("inductive ");
                push_hash_decimal(&mut s, inductive.0 as u64);
                s.append(" fails positivity at constructor #");
                push_decimal(&mut s, *constructor as u64);
                s
            },
            EnvError::Internal(msg) => {
                let mut s = string_of("internal environment error: ");
                s.append(msg.as_str());
                s
            },
            EnvError::NonTerminating { function, reason } => {
                let mut s = string_of("definition ");
                push_hash_decimal(&mut s, function.0 as u64);
                s.append(" failed the termination check: ");
                s.append(reason.as_str());
                s
            },
            EnvError::TerminationArityMismatch { function, expected, actual } => {
                let mut s = string_of("definition ");
                push_hash_decimal(&mut s, function.0 as u64);
                s.append(" declares ");
                push_decimal(&mut s, *actual as u64);
                s.append(" termination parameter(s) but its type has ");
                push_decimal(&mut s, *expected as u64);
                s.append(" Π binder(s)");
                s
            },
        }
    }
}

// ---------------------------------------------------------------------------
// GlobalEnv
// ---------------------------------------------------------------------------

/// A declaration paired with the cached [`ConstDecl`] view consumed by the
/// NbE engine.
#[derive(Debug)]
struct EnvEntry {
    info: Rc<ConstantInfo>,
    decl: Rc<ConstDecl>,
}

/// The global environment: all top-level declarations, in name order, each
/// name at most once.
#[derive(Debug)]
pub struct GlobalEnv {
    entries: Vec<EnvEntry>,
}

/// The declaration of an entry.
spec fn entry_info(e: EnvEntry) -> ConstantInfo {
    *e.info
}

/// The name of an entry.
spec fn entry_name(e: EnvEntry) -> NameId {
    base_of(*e.info).name
}

/// `true` iff the entries are sorted by strictly increasing name and each
/// cached view matches its declaration.
spec fn entries_wf(s: Seq<EnvEntry>) -> bool {
    &&& forall|i: int, j: int| 0 <= i < j < s.len() ==> (#[trigger] entry_name(s[i])).0 < (#[trigger] entry_name(s[j])).0
    &&& forall|k: int| 0 <= k < s.len() ==> decl_matches(*(#[trigger] s[k]).decl, *s[k].info)
}

/// The map from names to declarations held by the entries.
spec fn entries_map(s: Seq<EnvEntry>) -> Map<NameId, ConstantInfo>
    decreases s.len(),
{
    if s.len() == 0 {
        Map::empty()
    } else {
        entries_map(s.drop_last()).insert(entry_name(s.last()), *s.last().info)
    }
}

/// The position of `name` among the entries.
spec fn entry_index(s: Seq<EnvEntry>, name: NameId) -> Option<int>
    decreases s.len(),
{
    if s.len() == 0 {
        None
    } else if entry_name(s.last()) == name {
        Some(s.len() - 1)
    } else {
        entry_index(s.drop_last(), name)
    }
}

proof fn lemma_entry_index(s: Seq<EnvEntry>, name: NameId)
    ensures
        match entry_index(s, name) {
            Some(k) => 0 <= k < s.len() && entry_name(s[k]) == name && entries_map(s).contains_key(name)
                && entries_map(s)[name] == *s[k].info,
            None => !entries_map(s).contains_key(name) && forall|k: int| 0 <= k < s.len() ==> entry_name(#[trigger] s[k]) != name,
        },
    decreases s.len(),
{
    if s.len() > 0 {
        lemma_entry_index(s.drop_last(), name);
        if entry_name(s.last()) != name {
            match entry_index(s.drop_last(), name) {
                Some(k) => {
                    assert(s[k] == s.drop_last()[k]);
                },
                None => {
                    assert forall|k: int| 0 <= k < s.len() implies entry_name(#[trigger] s[k]) != name by {
                        if k < s.len() - 1 {
                            assert(s[k] == s.drop_last()[k]);
                        }
                    }
                },
            }
        }
    }
}

proof fn lemma_entries_map_len(s: Seq<EnvEntry>)
    requires
        entries_wf(s),
    ensures
        entries_map(s).dom().finite(),
        entries_map(s).dom().len() == s.len(),
    decreases s.len(),
{
    if s.len() > 0 {
        let t = s.drop_last();
        assert(entries_wf(t)) by {
            assert forall|i: int, j: int| 0 <= i < j < t.len() implies (#[trigger] entry_name(t[i])).0 < (#[trigger] entry_name(t[j])).0 by {
                assert(t[i] == s[i] && t[j] == s[j]);
            }
            assert forall|k: int| 0 <= k < t.len() implies decl_matches(*(#[trigger] t[k]).decl, *t[k].info) by {
                assert(t[k] == s[k]);
            }
        }
        lemma_entries_map_len(t);
        lemma_entry_index(t, entry_name(s.last()));
        assert(entry_name(s[s.len() - 1]) == entry_name(s.last()));
        if entry_index(t, entry_name(s.last())) is Some {
            let k = entry_index(t, entry_name(s.last()))->0;
            assert(t[k] == s[k]);
            assert(entry_name(s[k]).0 < entry_name(s[s.len() - 1]).0);
        }
    }
}

impl View for GlobalEnv {
    type V = Map<NameId, ConstantInfo>;

    /// The declarations, by name.
    closed spec fn view(&self) -> Map<NameId, ConstantInfo> {
        entries_map(self.entries@)
    }
}

impl GlobalEnv {
    /// The environment invariant: entries in strictly increasing name
    /// order, each with a matching cached view.
    pub closed spec fn wf(&self) -> bool {
        entries_wf(self.entries@)
    }

    /// The declarations in name order.
    pub closed spec fn ordered(&self) -> Seq<ConstantInfo> {
        self.entries@.map_values(|e: EnvEntry| *e.info)
    }

    /// The cached NbE view of `name`.
    pub closed spec fn cached_decl(&self, name: NameId) -> Option<Rc<ConstDecl>> {
        match entry_index(self.entries@, name) {
            Some(k) => Some(self.entries@[k].decl),
            None => None,
        }
    }

    /// An empty environment.
    pub fn new() -> (r: Self)
        ensures
            r.wf(),
            r@ == Map::<NameId, ConstantInfo>::empty(),
    {
        GlobalEnv { entries: Vec::new() }
    }

    /// The position of `name`, if declared.
    fn position(&self, name: NameId) -> (r: Option<usize>)
        ensures
            match r {
                Some(k) => entry_index(self.entries@, name) == Some(k as int),
                None => entry_index(self.entries@, name) is None,
            },
    {
        let mut k: usize = self.entries.len();
        assert(self.entries@.take(k as int) =~= self.entries@);
        while k > 0
            invariant
                k <= self.entries@.len(),
                entry_index(self.entries@, name) == entry_index(self.entries@.take(k as int), name),
            decreases k,
        {
            assert(self.entries@.take(k as int).drop_last() =~= self.entries@.take(k - 1));
            if self.entries[k - 1].info.name() == name {
                return Some(k - 1);
            }
            k = k - 1;
        }
        None
    }

    /// Look up a constant by name.
    pub fn find(&self, name: NameId) -> (r: Option<Rc<ConstantInfo>>)
        ensures
            match r {
                Some(i) => self@.contains_key(name) && *i == self@[name] && base_of(*i).name == name,
                None => !self@.contains_key(name),
            },
    {
        proof { lemma_entry_index(self.entries@, name); }
        match self.position(name) {
            Some(k) => Some(Rc::clone(&self.entries[k].info)),
            None => None,
        }
    }

    /// Every declaration is stored under its own name.
    pub proof fn lemma_key_is_name(&self, name: NameId)
        requires
            self@.contains_key(name),
        ensures
            base_of(self@[name]).name == name,
    {
        lemma_entry_index(self.entries@, name);
    }

    /// `true` iff the environment contains a declaration for `name`.
    pub fn contains(&self, name: NameId) -> (r: bool)
        ensures
            r == self@.contains_key(name),
    {
        proof { lemma_entry_index(self.entries@, name); }
        self.position(name).is_some()
    }

    /// Number of declarations.
    pub fn len(&self) -> (r: usize)
        requires
            self.wf(),
        ensures
            r == self@.len(),
    {
        proof { lemma_entries_map_len(self.entries@); }
        self.entries.len()
    }

    /// `true` iff the environment is empty.
    pub fn is_empty(&self) -> (r: bool)
        requires
            self.wf(),
        ensures
            r == (self@.len() == 0),
    {
        proof { lemma_entries_map_len(self.entries@); }
        self.entries.len() == 0
    }

    /// All declarations in name order.
    pub fn iter(&self) -> (r: Vec<(NameId, Rc<ConstantInfo>)>)
        ensures
            r@.len() == self.ordered().len(),
            forall|k: int| 0 <= k < r@.len() ==> {
                &&& *(#[trigger] r@[k]).1 == self.ordered()[k]
                &&& r@[k].0 == base_of(self.ordered()[k]).name
            },
    {
        let mut out: Vec<(NameId, Rc<ConstantInfo>)> = Vec::new();
        let n = self.entries.len();
        let mut k: usize = 0;
        while k < n
            invariant
                n == self.entries@.len(),
                k <= n,
                out@.len() == k,
                forall|j: int| 0 <= j < k ==> {
                    &&& *(#[trigger] out@[j]).1 == *self.entries@[j].info
                    &&& out@[j].0 == base_of(*self.entries@[j].info).name
                },
            decreases n - k,
        {
            let e = &self.entries[k];
            out.push((e.info.name(), Rc::clone(&e.info)));
            k = k + 1;
        }
        out
    }
}

impl ConstEnv for GlobalEnv {
    open spec fn decl_of(&self, name: NameId) -> Option<Rc<ConstDecl>> {
        self.cached_decl(name)
    }

    fn lookup(&self, name: NameId) -> (r: Option<Rc<ConstDecl>>) {
        proof { lemma_entry_index(self.entries@, name); }
        match self.position(name) {
            Some(k) => Some(Rc::clone(&self.entries[k].decl)),
            None => None,
        }
    }
}

impl GlobalEnv {
    /// The cached view of a declared constant is the projection of its
    /// declaration.
    pub proof fn lemma_cached_decl(&self, name: NameId)
        requires
            self.wf(),
        ensures
            self.cached_decl(name) is Some <==> self@.contains_key(name),
            self.cached_decl(name) is Some ==> decl_matches(*self.cached_decl(name)->0, self@[name]),
    {
        lemma_entry_index(self.entries@, name);
    }
}

/// With strictly increasing names, a name occurs at most once.
proof fn lemma_entries_unique(s: Seq<EnvEntry>, i: int, j: int)
    requires
        entries_wf(s),
        0 <= i < s.len(),
        0 <= j < s.len(),
        entry_name(s[i]) == entry_name(s[j]),
    ensures
        i == j,
{
    if i < j {
        assert(entry_name(s[i]).0 < entry_name(s[j]).0);
    } else if j < i {
        assert(entry_name(s[j]).0 < entry_name(s[i]).0);
    }
}

/// The map of well-formed entries: a name is declared iff some entry has
/// it, and then it maps to that entry's declaration.
proof fn lemma_entries_map_at(s: Seq<EnvEntry>, k: int)
    requires
        entries_wf(s),
        0 <= k < s.len(),
    ensures
        entries_map(s).contains_key(entry_name(s[k])),
        entries_map(s)[entry_name(s[k])] == *s[k].info,
{
    lemma_entry_index(s, entry_name(s[k]));
    let j = entry_index(s, entry_name(s[k]))->0;
    lemma_entries_unique(s, j, k);
}

impl GlobalEnv {
    /// Insert `info`, replacing any declaration of the same name.
    fn insert_entry(&mut self, info: ConstantInfo)
        requires
            old(self).wf(),
        ensures
            final(self).wf(),
            final(self)@ == old(self)@.insert(base_of(info).name, info),
    {
        let ghost s = self.entries@;
        let name = info.name();
        let decl = Rc::new(info.to_const_decl());
        let entry = EnvEntry { info: Rc::new(info), decl };
        let n = self.entries.len();
        let mut p: usize = 0;
        while p < n
            invariant
                n == self.entries@.len(),
                s == self.entries@,
                p <= n,
                forall|k: int| 0 <= k < p ==> (#[trigger] entry_name(s[k])).0 < name.0,
            ensures
                p <= n,
                forall|k: int| 0 <= k < p ==> (#[trigger] entry_name(s[k])).0 < name.0,
                p < n ==> entry_name(s[p as int]).0 >= name.0,
            decreases n - p,
        {
            if self.entries[p].info.name().0 >= name.0 {
                break;
            }
            p = p + 1;
        }
        let replace = p < n && self.entries[p].info.name().0 == name.0;
        let mut entries: Vec<EnvEntry> = Vec::new();
        std::mem::swap(&mut entries, &mut self.entries);
        if replace {
            entries.set(p, entry);
        } else {
            entries.insert(p, entry);
        }
        self.entries = entries;
        proof {
            let t = self.entries@;
            assert(entry_name(entry) == name);
            if replace {
                assert(t =~= s.update(p as int, entry));
            } else {
                assert(t =~= s.insert(p as int, entry));
            }
            // Sortedness.
            assert forall|i: int, j: int| 0 <= i < j < t.len() implies (#[trigger] entry_name(t[i])).0 < (#[trigger] entry_name(t[j])).0 by {
                if replace {
                    if i != p && j != p {
                        assert(t[i] == s[i] && t[j] == s[j]);
                    } else if i == p {
                        assert(t[j] == s[j]);
                        assert(entry_name(s[i]).0 < entry_name(s[j]).0);
                    } else {
                        assert(t[i] == s[i]);
                        assert(entry_name(s[i]).0 < entry_name(s[j]).0);
                    }
                } else {
                    if j < p {
                        assert(t[i] == s[i] && t[j] == s[j]);
                    } else if i > p {
                        assert(t[i] == s[i - 1] && t[j] == s[j - 1]);
                    } else if i == p {
                        assert(t[j] == s[j - 1]);
                        if j - 1 > p {
                            assert(entry_name(s[p as int]).0 < entry_name(s[j - 1]).0);
                        }
                    } else if j == p {
                        assert(t[i] == s[i]);
                    } else {
                        assert(t[i] == s[i] && t[j] == s[j - 1]);
                        assert(entry_name(s[p as int]).0 <= entry_name(s[j - 1]).0) by {
                            if j - 1 > p {
                                assert(entry_name(s[p as int]).0 < entry_name(s[j - 1]).0);
                            }
                        }
                    }
                }
            }
            assert forall|k: int| 0 <= k < t.len() implies decl_matches(*(#[trigger] t[k]).decl, *t[k].info) by {
                if replace {
                    if k != p {
                        assert(t[k] == s[k]);
                    }
                } else {
                    if k < p {
                        assert(t[k] == s[k]);
                    } else if k > p {
                        assert(t[k] == s[k - 1]);
                    }
                }
            }
            assert(entries_wf(t));
            // The map.
            let m0 = entries_map(s);
            let m1 = entries_map(t);
            let want = m0.insert(name, entry_info(entry));
            assert forall|x: NameId| #![trigger m1.contains_key(x)] #![trigger want.contains_key(x)]
                m1.contains_key(x) == want.contains_key(x) && (m1.contains_key(x) ==> m1[x] == want[x]) by {
                lemma_entry_index(t, x);
                lemma_entry_index(s, x);
                if x == name {
                    let q = p as int;
                    assert(t[q] == entry);
                    lemma_entries_map_at(t, q);
                } else {
                    match entry_index(s, x) {
                        Some(k) => {
                            let k2 = if replace || k < p { k } else { k + 1 };
                            if replace {
                                assert(k != p) by {
                                    if k == p {
                                        assert(entry_name(s[k]).0 == name.0);
                                    }
                                }
                            }
                            assert(t[k2] == s[k]);
                            lemma_entries_map_at(t, k2);
                        },
                        None => {
                            match entry_index(t, x) {
                                Some(k2) => {
                                    if replace {
                                        assert(k2 != p);
                                        assert(t[k2] == s[k2]);
                                    } else if k2 < p {
                                        assert(t[k2] == s[k2]);
                                    } else if k2 > p {
                                        assert(t[k2] == s[k2 - 1]);
                                    }
                                },
                                None => {},
                            }
                        },
                    }
                }
            }
            assert(m1 =~= want);
        }
    }
}

// ---------------------------------------------------------------------------
// Termination gate
// ---------------------------------------------------------------------------

/// `true` iff `e` mentions `name` as a constant.
pub open spec fn mentions(e: ExprV, name: NameId) -> bool
    decreases e,
{
    match e {
        ExprV::Const(n, _) => n == name,
        ExprV::App(f, a) => mentions(*f, name) || mentions(*a, name),
        ExprV::Pi(_, _, d, c) => mentions(*d, name) || mentions(*c, name),
        ExprV::Lam(_, _, d, c) => mentions(*d, name) || mentions(*c, name),
        ExprV::Let(_, t, v, b) => mentions(*t, name) || mentions(*v, name) || mentions(*b, name),
        _ => false,
    }
}

/// `true` iff `body` mentions `name` as a constant.
fn body_mentions_constant(body: &Expr, name: NameId) -> (r: bool)
    ensures
        r == mentions(body@, name),
    decreases body,
{
    match body {
        Expr::Const(n, _) => n.0 == name.0,
        Expr::Sort(_) | Expr::Var(_) | Expr::Lit(_) => false,
        Expr::App(f, a) => body_mentions_constant(f, name) || body_mentions_constant(a, name),
        Expr::Pi(_, _, d, c) | Expr::Lam(_, _, d, c) => body_mentions_constant(d, name) || body_mentions_constant(
            c,
            name,
        ),
        Expr::Let(_, t, v, b) => body_mentions_constant(t, name) || body_mentions_constant(v, name)
            || body_mentions_constant(b, name),
    }
}

/// The definitions among `s`, in order.
pub open spec fn defs_of(s: Seq<ConstantInfo>) -> Seq<DefinitionVal>
    decreases s.len(),
{
    if s.len() == 0 {
        Seq::empty()
    } else {
        match s.last() {
            ConstantInfo::Definition(d) => defs_of(s.drop_last()).push(d),
            _ => defs_of(s.drop_last()),
        }
    }
}

/// The names of the definitions.
pub open spec fn def_names(defs: Seq<DefinitionVal>) -> Seq<NameId> {
    defs.map_values(|d: DefinitionVal| d.base.name)
}

/// `true` iff `e` mentions one of `names`.
pub open spec fn mentions_any(e: ExprV, names: Seq<NameId>) -> bool {
    exists|k: int| 0 <= k < names.len() && mentions(e, #[trigger] names[k])
}

/// `true` iff the body of some definition mentions a definition of the
/// block.
pub open spec fn block_is_recursive(defs: Seq<DefinitionVal>) -> bool {
    exists|k: int| 0 <= k < defs.len() && mentions_any((*(#[trigger] defs[k]).body)@, def_names(defs))
}

/// The smaller of `n` and `usize::MAX`.
pub open spec fn saturate(n: nat) -> usize {
    if n > usize::MAX { usize::MAX } else { n as usize }
}

/// The first definition, at or after `k`, that mentions a block member and
/// whose obligation does not have as many parameters as its type has
/// Π-binders: its name, Π-arity and parameter count.
pub open spec fn arity_problem(defs: Seq<DefinitionVal>, k: int) -> Option<(NameId, usize, usize)>
    decreases defs.len() - k,
{
    if k < 0 || k >= defs.len() {
        None
    } else if mentions_any((*defs[k].body)@, def_names(defs)) && saturate(crate::expr::pi_arity_spec((*defs[k].base.ty)@))
        != defs[k].termination.params@.len() {
        Some(
            (
                defs[k].base.name,
                saturate(crate::expr::pi_arity_spec((*defs[k].base.ty)@)),
                defs[k].termination.params@.len() as usize,
            ),
        )
    } else {
        arity_problem(defs, k + 1)
    }
}

/// The functions of the call graph of a block: names and obligations.
pub open spec fn def_functions(defs: Seq<DefinitionVal>) -> Seq<(NameId, Vec<NameId>)> {
    defs.map_values(|d: DefinitionVal| (d.base.name, d.termination.params))
}

/// The bodies of a block.
pub open spec fn def_bodies(defs: Seq<DefinitionVal>) -> Seq<ExprV> {
    defs.map_values(|d: DefinitionVal| (*d.body)@)
}

/// The outcome of the termination gate on a block.
pub enum GateVerdict {
    /// The block passes.
    Accepted,
    /// A recursive definition's obligation disagrees with its arity.
    ArityMismatch { function: NameId, expected: usize, actual: usize },
    /// The joint size-change analysis fails; reported on the first
    /// definition.
    NonTerminating { function: NameId },
}

/// The termination gate: a block in which no definition mentions a block
/// member passes; otherwise every such definition must declare as many
/// parameters as its type has Π-binders, and the joint call graph must be
/// size-change terminating.
pub open spec fn gate_verdict(defs: Seq<DefinitionVal>) -> GateVerdict {
    if defs.len() == 0 || !block_is_recursive(defs) {
        GateVerdict::Accepted
    } else {
        match arity_problem(defs, 0) {
            Some((f, e, a)) => GateVerdict::ArityMismatch { function: f, expected: e, actual: a },
            None => if crate::termination::size_change_terminating(
                crate::termination::block_matrices(def_functions(defs), def_bodies(defs), defs.len() as int),
            ) {
                GateVerdict::Accepted
            } else {
                GateVerdict::NonTerminating { function: defs[0].base.name }
            },
        }
    }
}

/// `true` iff `r` is the outcome `v`. The explanation of a non-terminating
/// block is the rendering of the offending matrix.
pub open spec fn gate_result(r: Result<(), EnvError>, v: GateVerdict) -> bool {
    match v {
        GateVerdict::Accepted => r is Ok,
        GateVerdict::ArityMismatch { function, expected, actual } => r is Err && r->Err_0@
            == EnvErrorV::TerminationArityMismatch { function, expected, actual },
        GateVerdict::NonTerminating { function } => r is Err && r->Err_0@ is NonTerminating
            && r->Err_0@->NonTerminating_function == function,
    }
}

/// `true` iff every product of two obligation lengths fits in a `usize`.
pub open spec fn obligations_bounded(defs: Seq<DefinitionVal>) -> bool {
    forall|i: int, j: int|
        0 <= i < defs.len() && 0 <= j < defs.len() ==> (#[trigger] defs[i]).termination.params@.len()
            * (#[trigger] defs[j]).termination.params@.len() <= usize::MAX
}

/// The number of leading Π-binders of `e`, saturating at `usize::MAX`.
fn pi_arity_saturating(e: &Expr) -> (r: usize)
    ensures
        r == saturate(crate::expr::pi_arity_spec(e@)),
{
    let mut cur = e;
    let mut count: usize = 0;
    loop
        invariant
            crate::expr::pi_arity_spec(e@) == count + crate::expr::pi_arity_spec(cur@),
        decreases cur,
    {
        match cur {
            Expr::Pi(_, _, _, cod) => {
                if count == usize::MAX {
                    return usize::MAX;
                }
                count = count + 1;
                cur = cod;
            },
            _ => {
                return count;
            },
        }
    }
}

/// Copies of the definitions of a block, in order.
fn collect_defs(infos: &Vec<ConstantInfo>) -> (r: Vec<&DefinitionVal>)
    ensures
        r@.len() == defs_of(infos@).len(),
        forall|k: int| 0 <= k < r@.len() ==> *(#[trigger] r@[k]) == defs_of(infos@)[k],
{
    let mut out: Vec<&DefinitionVal> = Vec::new();
    let n = infos.len();
    let mut k: usize = 0;
    while k < n
        invariant
            n == infos@.len(),
            k <= n,
            out@.len() == defs_of(infos@.take(k as int)).len(),
            forall|j: int| 0 <= j < out@.len() ==> *(#[trigger] out@[j]) == defs_of(infos@.take(k as int))[j],
        decreases n - k,
    {
        assert(infos@.take(k + 1).drop_last() =~= infos@.take(k as int));
        assert(infos@.take(k + 1).last() == infos@[k as int]);
        match &infos[k] {
            ConstantInfo::Definition(d) => {
                out.push(d);
            },
            _ => {},
        }
        k = k + 1;
    }
    assert(infos@.take(n as int) =~= infos@);
    out
}

/// The names of a sequence of declarations.
pub open spec fn info_names(s: Seq<ConstantInfo>) -> Seq<NameId> {
    s.map_values(|i: ConstantInfo| base_of(i).name)
}

/// `true` iff no two of `names` are equal.
pub open spec fn all_distinct(names: Seq<NameId>) -> bool {
    forall|i: int, j: int| 0 <= i < names.len() && 0 <= j < names.len() && i != j ==> #[trigger] names[i] != #[trigger] names[j]
}

/// Every definition of `s` carries the name of a declaration of `s`.
#[verifier::spinoff_prover]
proof fn lemma_defs_names(s: Seq<ConstantInfo>)
    ensures
        forall|k: int| 0 <= k < defs_of(s).len() ==> exists|j: int| 0 <= j < s.len() && #[trigger] base_of(s[j]).name == (#[trigger] defs_of(s)[k]).base.name,
        all_distinct(info_names(s)) ==> all_distinct(def_names(defs_of(s))),
    decreases s.len(),
{
    if s.len() > 0 {
        let t = s.drop_last();
        lemma_defs_names(t);
        assert forall|k: int| 0 <= k < defs_of(s).len() implies exists|j: int| 0 <= j < s.len() && #[trigger] base_of(s[j]).name == (#[trigger] defs_of(s)[k]).base.name by {
            if k < defs_of(t).len() {
                assert(defs_of(s)[k] == defs_of(t)[k]) by {
                    match s.last() {
                        ConstantInfo::Definition(d) => {
                            assert(defs_of(s) == defs_of(t).push(d));
                        },
                        _ => {
                            assert(defs_of(s) == defs_of(t));
                        },
                    }
                }
                let j = choose|j: int| 0 <= j < t.len() && #[trigger] base_of(t[j]).name == defs_of(t)[k].base.name;
                assert(s[j] == t[j]);
            } else {
                match s.last() {
                    ConstantInfo::Definition(d) => {
                        assert(defs_of(s) == defs_of(t).push(d));
                        assert(defs_of(s)[k] == d);
                        assert(base_of(s[s.len() - 1]) == d.base);
                    },
                    _ => {
                        assert(defs_of(s) == defs_of(t));
                    },
                }
            }
        }
        if all_distinct(info_names(s)) {
            assert(all_distinct(info_names(t))) by {
                assert forall|i: int, j: int| 0 <= i < info_names(t).len() && 0 <= j < info_names(t).len() && i != j implies #[trigger] info_names(t)[i] != #[trigger] info_names(t)[j] by {
                    assert(info_names(t)[i] == info_names(s)[i]);
                    assert(info_names(t)[j] == info_names(s)[j]);
                }
            }
            let ds = def_names(defs_of(s));
            let dt = def_names(defs_of(t));
            assert forall|i: int, j: int| 0 <= i < ds.len() && 0 <= j < ds.len() && i != j implies #[trigger] ds[i] != #[trigger] ds[j] by {
                if i < dt.len() && j < dt.len() {
                    assert(ds[i] == dt[i] && ds[j] == dt[j]);
                } else if i < dt.len() || j < dt.len() {
                    let old_k = if i < dt.len() { i } else { j };
                    assert(defs_of(s)[old_k] == defs_of(t)[old_k]);
                    let w = choose|w: int| 0 <= w < t.len() && #[trigger] base_of(t[w]).name == defs_of(t)[old_k].base.name;
                    assert(info_names(s)[w] == base_of(t[w]).name);
                    assert(info_names(s)[s.len() - 1] == base_of(s.last()).name);
                }
            }
        }
    } else {
        assert(defs_of(s) =~= Seq::<DefinitionVal>::empty());
    }
}

proof fn lemma_block_views(
    fs1: Seq<(NameId, Vec<NameId>)>,
    fs2: Seq<(NameId, Vec<NameId>)>,
    bodies: Seq<ExprV>,
    n: int,
)
    requires
        fs1.len() == fs2.len(),
        n <= fs1.len(),
        forall|i: int| 0 <= i < fs1.len() ==> (#[trigger] fs1[i]).0 == fs2[i].0 && fs1[i].1@ == fs2[i].1@,
    ensures
        crate::termination::block_arities(fs1) == crate::termination::block_arities(fs2),
        crate::termination::block_matrices(fs1, bodies, n) == crate::termination::block_matrices(fs2, bodies, n),
    decreases n,
{
    assert(crate::termination::block_arities(fs1) =~= crate::termination::block_arities(fs2));
    if n > 0 {
        lemma_block_views(fs1, fs2, bodies, n - 1);
        if n - 1 < fs1.len() {
            assert(fs1[n - 1].1@ == fs2[n - 1].1@);
        }
    }
}

/// `true` iff some name of `names` occurs in `body`.
fn mentions_some(body: &Expr, names: &Vec<NameId>) -> (r: bool)
    ensures
        r == mentions_any(body@, names@),
{
    let n = names.len();
    let mut k: usize = 0;
    while k < n
        invariant
            n == names@.len(),
            k <= n,
            forall|j: int| 0 <= j < k ==> !mentions(body@, #[trigger] names@[j]),
        decreases n - k,
    {
        if body_mentions_constant(body, names[k]) {
            return true;
        }
        k = k + 1;
    }
    false
}

/// The termination gate for a block of declarations.
fn check_termination_block(infos: &Vec<ConstantInfo>) -> (r: Result<(), EnvError>)
    requires
        all_distinct(def_names(defs_of(infos@))),
        obligations_bounded(defs_of(infos@)),
    ensures
        gate_result(r, gate_verdict(defs_of(infos@))),
{
    let ghost ds = defs_of(infos@);
    let defs = collect_defs(infos);
    let n = defs.len();
    if n == 0 {
        return Ok(());
    }
    let mut names: Vec<NameId> = Vec::new();
    let mut k: usize = 0;
    while k < n
        invariant
            n == defs@.len(),
            n == ds.len(),
            ds == defs_of(infos@),
            forall|j: int| 0 <= j < n ==> *(#[trigger] defs@[j]) == ds[j],
            k <= n,
            names@ == def_names(ds).take(k as int),
        decreases n - k,
    {
        names.push(defs[k].base.name);
        assert(names@ =~= def_names(ds).take(k + 1));
        k = k + 1;
    }
    assert(names@ =~= def_names(ds));
    let mut any = false;
    let mut k: usize = 0;
    while k < n
        invariant
            n == defs@.len(),
            n == ds.len(),
            ds == defs_of(infos@),
            forall|j: int| 0 <= j < n ==> *(#[trigger] defs@[j]) == ds[j],
            names@ == def_names(ds),
            k <= n,
            any <==> exists|j: int| 0 <= j < k && mentions_any((*(#[trigger] ds[j]).body)@, def_names(ds)),
        decreases n - k,
    {
        if mentions_some(&defs[k].body, &names) {
            any = true;
        }
        k = k + 1;
    }
    if !any {
        return Ok(());
    }
    assert(block_is_recursive(ds));
    let mut k: usize = 0;
    while k < n
        invariant
            n == defs@.len(),
            n == ds.len(),
            ds == defs_of(infos@),
            forall|j: int| 0 <= j < n ==> *(#[trigger] defs@[j]) == ds[j],
            names@ == def_names(ds),
            block_is_recursive(ds),
            k <= n,
            arity_problem(ds, 0) == arity_problem(ds, k as int),
        decreases n - k,
    {
        let d = defs[k];
        if mentions_some(&d.body, &names) {
            let expected = pi_arity_saturating(&d.base.ty);
            let actual = d.termination.params.len();
            if expected != actual {
                assert(*d == ds[k as int]);
                assert(mentions_any((*ds[k as int].body)@, def_names(ds)));
                assert(arity_problem(ds, k as int) == Some((d.base.name, expected, actual)));
                assert(gate_verdict(ds) == (GateVerdict::ArityMismatch { function: d.base.name, expected, actual }));
                return Err(EnvError::TerminationArityMismatch { function: d.base.name, expected, actual });
            }
        }
        k = k + 1;
    }
    let mut functions: Vec<(NameId, Vec<NameId>)> = Vec::new();
    let mut bodies: Vec<Expr> = Vec::new();
    let mut k: usize = 0;
    while k < n
        invariant
            n == defs@.len(),
            n == ds.len(),
            ds == defs_of(infos@),
            forall|j: int| 0 <= j < n ==> *(#[trigger] defs@[j]) == ds[j],
            k <= n,
            functions@.len() == k,
            bodies@.len() == k,
            forall|j: int| 0 <= j < k ==> (#[trigger] functions@[j]).0 == ds[j].base.name && functions@[j].1@ == ds[j].termination.params@,
            forall|j: int| 0 <= j < k ==> (#[trigger] bodies@[j])@ == (*ds[j].body)@,
        decreases n - k,
    {
        let d = defs[k];
        let mut params: Vec<NameId> = Vec::new();
        let m = d.termination.params.len();
        let mut i: usize = 0;
        while i < m
            invariant
                m == d.termination.params@.len(),
                i <= m,
                params@ == d.termination.params@.take(i as int),
            decreases m - i,
        {
            params.push(d.termination.params[i]);
            assert(params@ =~= d.termination.params@.take(i + 1));
            i = i + 1;
        }
        assert(d.termination.params@.take(m as int) =~= d.termination.params@);
        functions.push((d.base.name, params));
        bodies.push(d.body.deep_clone());
        k = k + 1;
    }
    let ghost fs = functions@;
    let ghost bv = bodies@.map_values(|e: Expr| e@);
    proof {
        assert(bv =~= def_bodies(ds));
        lemma_block_views(fs, def_functions(ds), bv, n as int);
        assert forall|i: int, j: int| 0 <= i < fs.len() && 0 <= j < fs.len() implies (#[trigger] fs[i]).1@.len()
            * (#[trigger] fs[j]).1@.len() <= usize::MAX by {
            assert(ds[i].termination.params@.len() * ds[j].termination.params@.len() <= usize::MAX);
        }
        assert(crate::termination::distinct_names(fs)) by {
            assert forall|i: int, j: int| 0 <= i < fs.len() && 0 <= j < fs.len() && i != j implies (#[trigger] fs[i]).0 != (#[trigger] fs[j]).0 by {
                assert(def_names(ds)[i] == ds[i].base.name);
                assert(def_names(ds)[j] == ds[j].base.name);
            }
        }
    }
    let checker = crate::termination::TerminationChecker::new();
    let graph = checker.build_mutual_call_graph(functions.as_slice(), bodies.as_slice());
    match checker.check(&graph) {
        Ok(_) => Ok(()),
        Err(e) => Err(EnvError::NonTerminating { function: defs[0].base.name, reason: e.describe() }),
    }
}

/// The first name, at or after position `k`, that already occurs before
/// its position.
pub open spec fn first_repeat(names: Seq<NameId>, k: int) -> Option<NameId>
    decreases names.len() - k,
{
    if k < 0 || k >= names.len() {
        None
    } else if names.take(k).contains(names[k]) {
        Some(names[k])
    } else {
        first_repeat(names, k + 1)
    }
}

/// The first name, at or after position `k`, that `m` declares.
pub open spec fn first_declared(names: Seq<NameId>, m: Map<NameId, ConstantInfo>, k: int) -> Option<NameId>
    decreases names.len() - k,
{
    if k < 0 || k >= names.len() {
        None
    } else if m.contains_key(names[k]) {
        Some(names[k])
    } else {
        first_declared(names, m, k + 1)
    }
}

/// `m` with the declarations of `s` inserted in order.
pub open spec fn insert_all(m: Map<NameId, ConstantInfo>, s: Seq<ConstantInfo>) -> Map<NameId, ConstantInfo>
    decreases s.len(),
{
    if s.len() == 0 {
        m
    } else {
        insert_all(m, s.drop_last()).insert(base_of(s.last()).name, s.last())
    }
}

proof fn lemma_no_repeat_distinct(names: Seq<NameId>, k: int)
    requires
        0 <= k <= names.len(),
        first_repeat(names, k) is None,
        all_distinct(names.take(k)),
    ensures
        all_distinct(names),
    decreases names.len() - k,
{
    if k < names.len() {
        assert(!names.take(k).contains(names[k]));
        let t = names.take(k + 1);
        assert forall|i: int, j: int| 0 <= i < t.len() && 0 <= j < t.len() && i != j implies #[trigger] t[i] != #[trigger] t[j] by {
            if i < k && j < k {
                assert(t[i] == names.take(k)[i] && t[j] == names.take(k)[j]);
            } else if i == k {
                assert(t[j] == names.take(k)[j]);
            } else {
                assert(t[i] == names.take(k)[i]);
            }
        }
        lemma_no_repeat_distinct(names, k + 1);
    } else {
        assert(names.take(k) =~= names);
    }
}

impl GlobalEnv {
    /// Insert a block of declarations atomically. Validation, in order:
    /// a name repeated within the block, then a name already declared,
    /// then the termination gate; on any error the environment is
    /// unchanged.
    pub fn add_block(&mut self, infos: Vec<ConstantInfo>) -> (r: Result<(), EnvError>)
        requires
            old(self).wf(),
            obligations_bounded(defs_of(infos@)),
        ensures
            final(self).wf(),
            r is Err ==> final(self)@ == old(self)@,
            infos@.len() == 0 ==> r is Ok && final(self)@ == old(self)@,
            infos@.len() > 0 ==> match first_repeat(info_names(infos@), 0) {
                Some(n) => r is Err && r->Err_0@ == EnvErrorV::DuplicateDeclaration(n),
                None => match first_declared(info_names(infos@), old(self)@, 0) {
                    Some(n) => r is Err && r->Err_0@ == EnvErrorV::DuplicateDeclaration(n),
                    None => gate_result(r, gate_verdict(defs_of(infos@))),
                },
            },
            r is Ok ==> final(self)@ == insert_all(old(self)@, infos@),
    {
        let ghost names = info_names(infos@);
        let ghost m0 = self@;
        let n = infos.len();
        if n == 0 {
            assert(insert_all(m0, infos@) == m0);
            return Ok(());
        }
        let mut seen: Vec<NameId> = Vec::new();
        let mut k: usize = 0;
        while k < n
            invariant
                n == infos@.len(),
                names == info_names(infos@),
                k <= n,
                seen@ == names.take(k as int),
                first_repeat(names, 0) == first_repeat(names, k as int),
                self.wf(),
                self@ == old(self)@,
            decreases n - k,
        {
            let name = infos[k].name();
            assert(names[k as int] == name);
            let mut j: usize = 0;
            while j < k
                invariant
                    j <= k,
                    k < n,
                    n == infos@.len(),
                    names == info_names(infos@),
                    seen@ == names.take(k as int),
                    seen@.len() == k,
                    names[k as int] == name,
                    first_repeat(names, 0) == first_repeat(names, k as int),
                    self.wf(),
                    self@ == old(self)@,
                    forall|i: int| 0 <= i < j ==> seen@[i] != name,
                decreases k - j,
            {
                if seen[j] == name {
                    assert(names.take(k as int)[j as int] == name);
                    assert(names.take(k as int).contains(name));
                    assert(first_repeat(names, k as int) == Some(name));
                    return Err(EnvError::DuplicateDeclaration(name));
                }
                j = j + 1;
            }
            assert(!names.take(k as int).contains(name));
            seen.push(name);
            assert(seen@ =~= names.take(k + 1));
            k = k + 1;
        }
        assert(first_repeat(names, n as int) is None);
        let mut k: usize = 0;
        while k < n
            invariant
                n == infos@.len(),
                names == info_names(infos@),
                m0 == self@,
                m0 == old(self)@,
                self.wf(),
                first_repeat(names, 0) is None,
                k <= n,
                first_declared(names, m0, 0) == first_declared(names, m0, k as int),
            decreases n - k,
        {
            let name = infos[k].name();
            assert(names[k as int] == name);
            if self.contains(name) {
                return Err(EnvError::DuplicateDeclaration(name));
            }
            k = k + 1;
        }
        proof {
            assert(all_distinct(names.take(0)));
            lemma_no_repeat_distinct(names, 0);
            lemma_defs_names(infos@);
        }
        match check_termination_block(&infos) {
            Ok(()) => {},
            Err(e) => {
                return Err(e);
            },
        }
        let ghost all = infos@;
        let mut rest = infos;
        let mut k: usize = 0;
        assert(all.skip(0) =~= all);
        while k < n
            invariant
                n == all.len(),
                k <= n,
                rest@ == all.skip(k as int),
                self.wf(),
                self@ == insert_all(m0, all.take(k as int)),
            decreases n - k,
        {
            let info = rest.remove(0);
            assert(info == all[k as int]);
            assert(rest@ =~= all.skip(k + 1));
            self.insert_entry(info);
            assert(all.take(k + 1).drop_last() =~= all.take(k as int));
            k = k + 1;
        }
        assert(all.take(n as int) =~= all);
        Ok(())
    }

    /// Insert a single declaration: [`GlobalEnv::add_block`] with a
    /// one-element block.
    pub fn add(&mut self, info: ConstantInfo) -> (r: Result<(), EnvError>)
        requires
            old(self).wf(),
            obligations_bounded(defs_of(seq![info])),
        ensures
            final(self).wf(),
            old(self)@.contains_key(base_of(info).name) ==> r is Err && r->Err_0@ == EnvErrorV::DuplicateDeclaration(
                base_of(info).name,
            ) && final(self)@ == old(self)@,
            !old(self)@.contains_key(base_of(info).name) ==> gate_result(r, gate_verdict(defs_of(seq![info]))),
            r is Ok ==> final(self)@ == old(self)@.insert(base_of(info).name, info),
            r is Err ==> final(self)@ == old(self)@,
    {
        let ghost i = info;
        let v = vec![info];
        proof {
            let names = info_names(v@);
            assert(names.take(0) =~= Seq::<NameId>::empty());
            assert(v@.drop_last() =~= Seq::<ConstantInfo>::empty());
            assert(v@ == seq![i]);
            reveal_with_fuel(first_repeat, 2);
            reveal_with_fuel(first_declared, 2);
            reveal_with_fuel(insert_all, 2);
        }
        self.add_block(v)
    }
}

// ---------------------------------------------------------------------------
// LocalContext
// ---------------------------------------------------------------------------

/// A single local binder.
#[derive(Clone, Debug)]
pub struct LocalDecl {
    /// The binder's user-visible name.
    pub name: NameId,
    /// The binder's annotation.
    pub binder_info: BinderInfo,
    /// The binder's type, in the context before the binder.
    pub ty: Rc<Expr>,
    /// For let-bound variables, the bound value.
    pub value: Option<Rc<Expr>>,
}

impl LocalDecl {
    /// Construct a λ- or Π-binder.
    pub fn binder(name: NameId, binder_info: BinderInfo, ty: Rc<Expr>) -> (r: Self)
        ensures
            r == (LocalDecl { name, binder_info, ty, value: None }),
    {
        LocalDecl { name, binder_info, ty, value: None }
    }

    /// Construct a let-bound declaration.
    pub fn let_bound(name: NameId, ty: Rc<Expr>, value: Rc<Expr>) -> (r: Self)
        ensures
            r == (LocalDecl { name, binder_info: BinderInfo::Default, ty, value: Some(value) }),
    {
        LocalDecl { name, binder_info: BinderInfo::Default, ty, value: Some(value) }
    }

    /// `true` iff this declaration is let-bound.
    pub fn is_let(&self) -> (r: bool)
        ensures
            r == (self.value is Some),
    {
        self.value.is_some()
    }
}

/// A persistent local typing context; index 0 is the innermost binder.
#[derive(Debug)]
pub struct LocalContext(Rc<LocalContextNode>);

#[derive(Debug)]
enum LocalContextNode {
    Empty,
    Cons(LocalDecl, LocalContext),
}

/// The declarations of a context, innermost first.
pub closed spec fn context_view(c: LocalContext) -> Seq<LocalDecl>
    decreases c,
{
    match *c.0 {
        LocalContextNode::Empty => Seq::empty(),
        LocalContextNode::Cons(d, rest) => seq![d] + context_view(rest),
    }
}

impl View for LocalContext {
    type V = Seq<LocalDecl>;

    open spec fn view(&self) -> Seq<LocalDecl> {
        context_view(*self)
    }
}

impl Clone for LocalContext {
    fn clone(&self) -> (r: Self)
        ensures
            r@ == self@,
    {
        LocalContext(Rc::clone(&self.0))
    }
}

impl LocalContext {
    /// The empty context.
    pub fn empty() -> (r: Self)
        ensures
            r@ == Seq::<LocalDecl>::empty(),
    {
        LocalContext(Rc::new(LocalContextNode::Empty))
    }

    /// Push a declaration onto the front (innermost position).
    pub fn push(&self, decl: LocalDecl) -> (r: Self)
        ensures
            r@ == seq![decl] + self@,
    {
        LocalContext(Rc::new(LocalContextNode::Cons(decl, self.clone())))
    }

    /// Number of bindings.
    pub fn len(&self) -> (r: usize)
        requires
            self@.len() <= usize::MAX,
        ensures
            r == self@.len(),
        decreases self,
    {
        match &*self.0 {
            LocalContextNode::Empty => 0,
            LocalContextNode::Cons(_, rest) => 1 + rest.len(),
        }
    }

    /// `true` iff there are no bindings.
    pub fn is_empty(&self) -> (r: bool)
        ensures
            r == (self@.len() == 0),
    {
        match &*self.0 {
            LocalContextNode::Empty => true,
            LocalContextNode::Cons(_, _) => false,
        }
    }

    /// The declaration at the given de Bruijn index.
    pub fn lookup(&self, idx: DeBruijnIndex) -> (r: &LocalDecl)
        requires
            idx.0 < self@.len(),
        ensures
            *r == self@[idx.0 as int],
        decreases self,
    {
        match &*self.0 {
            LocalContextNode::Empty => {
                proof { assert(false); }
                self.lookup(idx)
            },
            LocalContextNode::Cons(decl, rest) => {
                if idx.0 == 0 {
                    decl
                } else {
                    rest.lookup(DeBruijnIndex(idx.0 - 1))
                }
            },
        }
    }

    /// An iterator over the bindings, innermost first.
    pub fn iter(&self) -> (r: LocalContextIter<'_>)
        ensures
            r@ == self@,
    {
        LocalContextIter { current: self }
    }

    /// The semantic environment of fresh neutral variables for this
    /// context: the variable at index `i` gets level `n - 1 - i`.
    pub fn to_env(&self) -> (r: NbeEnv)
        requires
            self@.len() <= usize::MAX,
        ensures
            r@ == context_env(self@.len()),
    {
        NbeEnv::of_context(self.len())
    }
}

/// An iterator over the bindings of a [`LocalContext`], innermost first.
pub struct LocalContextIter<'a> {
    current: &'a LocalContext,
}

impl<'a> View for LocalContextIter<'a> {
    type V = Seq<LocalDecl>;

    /// The bindings not yet produced.
    closed spec fn view(&self) -> Seq<LocalDecl> {
        context_view(*self.current)
    }
}

impl<'a> LocalContextIter<'a> {
    /// The next binding, if any.
    pub fn next(&mut self) -> (r: Option<&'a LocalDecl>)
        ensures
            old(self)@.len() == 0 ==> r is None && final(self)@ == old(self)@,
            old(self)@.len() > 0 ==> r == Some(&old(self)@[0]) && final(self)@ == old(self)@.drop_first(),
    {
        let cur: &'a LocalContext = self.current;
        match &*cur.0 {
            LocalContextNode::Empty => None,
            LocalContextNode::Cons(decl, rest) => {
                self.current = rest;
                assert(old(self)@.drop_first() =~= context_view(*rest));
                Some(decl)
            },
        }
    }
}

// ---------------------------------------------------------------------------
// Inductive families
// ---------------------------------------------------------------------------

/// The first constructor, at or after `k`, that belongs to another
/// inductive or whose index is not below `count`.
pub open spec fn constructor_problem(ind_name: NameId, count: u32, ctors: Seq<ConstructorVal>, k: int) -> Option<EnvErrorV>
    decreases ctors.len() - k,
{
    if k < 0 || k >= ctors.len() {
        None
    } else if ctors[k].inductive != ind_name {
        Some(EnvErrorV::ConstructorBelongsToUnknownInductive {
            constructor: ctors[k].base.name,
            inductive: ctors[k].inductive,
        })
    } else if ctors[k].index >= count {
        Some(EnvErrorV::ConstructorIndexOutOfRange { constructor: ctors[k].base.name, index: ctors[k].index, count })
    } else {
        constructor_problem(ind_name, count, ctors, k + 1)
    }
}

/// The first inductive of the recursor's `all`, at or after `k`, other
/// than `ind_name`.
pub open spec fn recursor_problem(ind_name: NameId, rec_name: NameId, all: Seq<NameId>, k: int) -> Option<EnvErrorV>
    decreases all.len() - k,
{
    if k < 0 || k >= all.len() {
        None
    } else if all[k] != ind_name {
        Some(EnvErrorV::RecursorReferencesUnknownInductive { recursor: rec_name, inductive: all[k] })
    } else {
        recursor_problem(ind_name, rec_name, all, k + 1)
    }
}

/// The names of the constructors.
pub open spec fn ctor_names(ctors: Seq<ConstructorVal>) -> Seq<NameId> {
    ctors.map_values(|c: ConstructorVal| c.base.name)
}

/// The constructors as declarations.
pub open spec fn ctor_infos(ctors: Seq<ConstructorVal>) -> Seq<ConstantInfo> {
    ctors.map_values(|c: ConstructorVal| ConstantInfo::Constructor(c))
}

/// Why an inductive family cannot be added to `m`, checked in order:
/// too many constructors, constructors of another inductive or out of
/// range, a recursor for another inductive, a name already declared or
/// repeated, and positivity. `None` if it can.
pub open spec fn inductive_problem(
    m: Map<NameId, ConstantInfo>,
    ind: InductiveVal,
    ctors: Seq<ConstructorVal>,
    rec: RecursorVal,
) -> Option<EnvErrorV> {
    let ind_name = ind.base.name;
    if ctors.len() > u32::MAX {
        Some(EnvErrorV::ConstructorIndexOutOfRange { constructor: ind_name, index: u32::MAX, count: u32::MAX })
    } else if constructor_problem(ind_name, ctors.len() as u32, ctors, 0) is Some {
        constructor_problem(ind_name, ctors.len() as u32, ctors, 0)
    } else if recursor_problem(ind_name, rec.base.name, rec.all@, 0) is Some {
        recursor_problem(ind_name, rec.base.name, rec.all@, 0)
    } else if m.contains_key(ind_name) {
        Some(EnvErrorV::DuplicateDeclaration(ind_name))
    } else if first_repeat(ctor_names(ctors), 0) is Some {
        Some(EnvErrorV::DuplicateDeclaration(first_repeat(ctor_names(ctors), 0)->0))
    } else if first_declared(ctor_names(ctors), m, 0) is Some {
        Some(EnvErrorV::DuplicateDeclaration(first_declared(ctor_names(ctors), m, 0)->0))
    } else if m.contains_key(rec.base.name) {
        Some(EnvErrorV::DuplicateDeclaration(rec.base.name))
    } else {
        match crate::inductive::first_bad_constructor(m, ind, ctors, 0) {
            Some(i) => Some(EnvErrorV::NonPositiveInductive { inductive: ind_name, constructor: i as usize }),
            None => None,
        }
    }
}

/// `m` after adding the family: the inductive, then its constructors in
/// order, then its recursor.
pub open spec fn with_inductive(
    m: Map<NameId, ConstantInfo>,
    ind: InductiveVal,
    ctors: Seq<ConstructorVal>,
    rec: RecursorVal,
) -> Map<NameId, ConstantInfo> {
    insert_all(m.insert(ind.base.name, ConstantInfo::Inductive(ind)), ctor_infos(ctors)).insert(
        rec.base.name,
        ConstantInfo::Recursor(rec),
    )
}

impl GlobalEnv {
    /// Insert an inductive family — the inductive, its constructors and its
    /// recursor — atomically: on error the environment is unchanged.
    #[verifier::loop_isolation(false)]
    pub fn add_inductive(&mut self, ind: InductiveVal, ctors: Vec<ConstructorVal>, rec: RecursorVal) -> (r: Result<(), EnvError>)
        requires
            old(self).wf(),
        ensures
            final(self).wf(),
            match inductive_problem(old(self)@, ind, ctors@, rec) {
                Some(e) => r is Err && r->Err_0@ == e && final(self)@ == old(self)@,
                None => r is Ok && final(self)@ == with_inductive(old(self)@, ind, ctors@, rec),
            },
    {
        let ghost m0 = self@;
        let ghost cs = ctors@;
        let ind_name = ind.base.name;
        if ctors.len() > 0xffff_ffff {
            return Err(EnvError::ConstructorIndexOutOfRange { constructor: ind_name, index: 0xffff_ffff, count: 0xffff_ffff });
        }
        let ctor_count = ctors.len() as u32;
        let n = ctors.len();
        let mut k: usize = 0;
        while k < n
            invariant
                n == ctors@.len(),
                n == ctor_count,
                k <= n,
                constructor_problem(ind_name, ctor_count, ctors@, 0) == constructor_problem(ind_name, ctor_count, ctors@, k as int),
            decreases n - k,
        {
            let c = &ctors[k];
            if c.inductive != ind_name {
                return Err(EnvError::ConstructorBelongsToUnknownInductive { constructor: c.base.name, inductive: c.inductive });
            }
            if c.index >= ctor_count {
                return Err(EnvError::ConstructorIndexOutOfRange { constructor: c.base.name, index: c.index, count: ctor_count });
            }
            k = k + 1;
        }
        let na = rec.all.len();
        let mut k: usize = 0;
        while k < na
            invariant
                na == rec.all@.len(),
                k <= na,
                recursor_problem(ind_name, rec.base.name, rec.all@, 0) == recursor_problem(ind_name, rec.base.name, rec.all@, k as int),
            decreases na - k,
        {
            if rec.all[k] != ind_name {
                return Err(EnvError::RecursorReferencesUnknownInductive { recursor: rec.base.name, inductive: rec.all[k] });
            }
            k = k + 1;
        }
        if self.contains(ind_name) {
            return Err(EnvError::DuplicateDeclaration(ind_name));
        }
        let ghost names = ctor_names(ctors@);
        let mut seen: Vec<NameId> = Vec::new();
        let mut k: usize = 0;
        while k < n
            invariant
                n == ctors@.len(),
                names == ctor_names(ctors@),
                k <= n,
                seen@ == names.take(k as int),
                first_repeat(names, 0) == first_repeat(names, k as int),
            decreases n - k,
        {
            let name = ctors[k].base.name;
            assert(names[k as int] == name);
            let mut j: usize = 0;
            while j < k
                invariant
                    j <= k,
                    k < n,
                    n == ctors@.len(),
                    names == ctor_names(ctors@),
                    seen@ == names.take(k as int),
                    seen@.len() == k,
                    names[k as int] == name,
                    first_repeat(names, 0) == first_repeat(names, k as int),
                    forall|i: int| 0 <= i < j ==> seen@[i] != name,
                decreases k - j,
            {
                if seen[j] == name {
                    assert(names.take(k as int)[j as int] == name);
                    assert(names.take(k as int).contains(name));
                    assert(first_repeat(names, k as int) == Some(name));
                    return Err(EnvError::DuplicateDeclaration(name));
                }
                j = j + 1;
            }
            assert(!names.take(k as int).contains(name));
            seen.push(name);
            assert(seen@ =~= names.take(k + 1));
            k = k + 1;
        }
        assert(first_repeat(names, n as int) is None);
        let mut k: usize = 0;
        while k < n
            invariant
                n == ctors@.len(),
                names == ctor_names(ctors@),
                m0 == self@,
                k <= n,
                first_declared(names, m0, 0) == first_declared(names, m0, k as int),
            decreases n - k,
        {
            let name = ctors[k].base.name;
            assert(names[k as int] == name);
            if self.contains(name) {
                return Err(EnvError::DuplicateDeclaration(name));
            }
            k = k + 1;
        }
        if self.contains(rec.base.name) {
            return Err(EnvError::DuplicateDeclaration(rec.base.name));
        }
        {
            let checker = crate::inductive::PositivityChecker::new(self);
            match checker.check_inductive(&ind, ctors.as_slice()) {
                Ok(()) => {},
                Err(KernelError::NonPositiveInductive { inductive, constructor }) => {
                    return Err(EnvError::NonPositiveInductive { inductive, constructor });
                },
                Err(_) => {
                    proof { assert(false); }
                    return Err(EnvError::Internal(crate::text::string_of("positivity check returned unexpected error")));
                },
            }
        }
        let rec_name = rec.base.name;
        self.insert_entry(ConstantInfo::Inductive(ind));
        let ghost m1 = self@;
        let ghost infos = ctor_infos(cs);
        let mut rest = ctors;
        let mut k: usize = 0;
        assert(cs.skip(0) =~= cs);
        while k < n
            invariant
                n == cs.len(),
                k <= n,
                rest@ == cs.skip(k as int),
                infos == ctor_infos(cs),
                self.wf(),
                self@ == insert_all(m1, infos.take(k as int)),
            decreases n - k,
        {
            let c = rest.remove(0);
            assert(c == cs[k as int]);
            assert(rest@ =~= cs.skip(k + 1));
            assert(infos[k as int] == ConstantInfo::Constructor(c));
            self.insert_entry(ConstantInfo::Constructor(c));
            assert(infos.take(k + 1).drop_last() =~= infos.take(k as int));
            k = k + 1;
        }
        assert(infos.take(n as int) =~= infos);
        self.insert_entry(ConstantInfo::Recursor(rec));
        Ok(())
    }
}

impl Default for GlobalEnv {
    fn default() -> (r: Self)
        ensures
            r.wf(),
            r@ == Map::<NameId, ConstantInfo>::empty(),
    {
        GlobalEnv::new()
    }
}

// ---------------------------------------------------------------------------
// Laws of the environments
// ---------------------------------------------------------------------------

/// What [`GlobalEnv::find`] answers after a successful [`GlobalEnv::add`]:
/// the added declaration under its own name, and the old answer under
/// every other name.
pub proof fn lemma_find_after_add(before: Map<NameId, ConstantInfo>, info: ConstantInfo, other: NameId)
    ensures
        before.insert(base_of(info).name, info).contains_key(base_of(info).name),
        before.insert(base_of(info).name, info)[base_of(info).name] == info,
        other != base_of(info).name ==> before.insert(base_of(info).name, info).contains_key(other)
            == before.contains_key(other),
        other != base_of(info).name && before.contains_key(other) ==> before.insert(base_of(info).name, info)[other]
            == before[other],
{
}

/// A successful [`GlobalEnv::add`] to a finite environment that lacked the
/// name grows it by exactly one declaration.
pub proof fn lemma_add_grows_by_one(before: Map<NameId, ConstantInfo>, info: ConstantInfo)
    requires
        before.dom().finite(),
        !before.contains_key(base_of(info).name),
    ensures
        before.insert(base_of(info).name, info).len() == before.len() + 1,
{
}

/// What [`LocalContext::lookup`] answers after [`LocalContext::push`]:
/// index zero is the pushed declaration and every other index shifts by
/// one.
pub proof fn lemma_lookup_after_push(ctx: Seq<LocalDecl>, decl: LocalDecl, i: int)
    requires
        0 <= i < ctx.len(),
    ensures
        (seq![decl] + ctx)[0] == decl,
        (seq![decl] + ctx)[i + 1] == ctx[i],
        (seq![decl] + ctx).len() == ctx.len() + 1,
{
}

/// Pushing `d` onto a local context puts `d` at index 0 and moves each
/// earlier declaration up by one index: after [`LocalContext::push`],
/// [`LocalContext::lookup`] at 0 gives `d` and at `i + 1` gives what it
/// gave at `i`, and the length grows by one. The pushed context is a new
/// value; the old one is unchanged.
pub proof fn lemma_local_context_push_lookup(c: Seq<LocalDecl>, d: LocalDecl)
    ensures
        (seq![d] + c).len() == c.len() + 1,
        (seq![d] + c)[0] == d,
        forall|i: int| 0 <= i < c.len() ==> #[trigger] (seq![d] + c)[i + 1] == c[i],
{
}

} // verus!
