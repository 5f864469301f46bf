//! Strict and nested positivity checker for inductive declarations.
//!
//! For each inductive `T` of a block and each constructor
//! `c : Π (x₁ : A₁) … (xₙ : Aₙ). T p⃗`, every occurrence of a family member
//! in every field type `Aᵢ` must be strictly positive: at the head of an
//! application, inside an argument of an application, or in the codomain
//! of a Π whose domain mentions no family member. A family member never
//! occurs in the domain of a Π of a field, which rejects
//! `mk : (Bad → X) → Bad`.
//!
//! Parameters whose domain is a `Sort` are carriers: they are replaced by
//! a reserved marker name, which joins the family, so carriers too must
//! occur only strictly positively. Arguments of an application whose head
//! is an `unsafe` inductive are not trusted: there the family must not
//! occur at all.

use vstd::prelude::*;
use crate::env::{ConstantInfo, ConstructorVal, GlobalEnv, InductiveVal};
use crate::error::{KernelError, KernelErrorV, KernelResult};
use crate::expr::{DeBruijnIndex, Expr, ExprV};
use crate::name::NameId;
use crate::termination::{spine_args, spine_head};

verus! {

/// The reserved name that stands for a carrier parameter after
/// substitution; the name table allocates from 0, so it is never interned
/// in practice.
pub open spec fn carrier_marker() -> NameId {
    NameId(u32::MAX)
}

/// `true` iff some family member occurs in `e`, at any position.
pub open spec fn occurs_spec(family: Seq<NameId>, e: ExprV) -> bool
    decreases e,
{
    match e {
        ExprV::Const(n, _) => family.contains(n),
        ExprV::App(f, a) => occurs_spec(family, *f) || occurs_spec(family, *a),
        ExprV::Pi(_, _, d, c) => occurs_spec(family, *d) || occurs_spec(family, *c),
        ExprV::Lam(_, _, d, c) => occurs_spec(family, *d) || occurs_spec(family, *c),
        ExprV::Let(_, t, v, b) => occurs_spec(family, *t) || occurs_spec(family, *v) || occurs_spec(family, *b),
        _ => false,
    }
}

/// `true` iff `env` declares `name` as an inductive marked `unsafe`.
pub open spec fn unsafe_inductive(env: Map<NameId, ConstantInfo>, name: NameId) -> bool {
    env.contains_key(name) && env[name] is Inductive && env[name]->Inductive_0.is_unsafe
}

/// `true` iff every occurrence of a family member in `e` is strictly
/// positive.
pub open spec fn strict_pos_spec(env: Map<NameId, ConstantInfo>, family: Seq<NameId>, e: ExprV) -> bool
    decreases e, 2int,
{
    match e {
        ExprV::App(_, _) => match spine_head(e) {
            ExprV::Const(n, _) => if unsafe_inductive(env, n) {
                !occurs_spec(family, e)
            } else {
                strict_pos_spine(env, family, e)
            },
            _ => strict_pos_spine(env, family, e),
        },
        _ => strict_pos_leaf(env, family, e),
    }
}

/// `true` iff the head and every argument of the spine `e` are strictly
/// positive.
pub open spec fn strict_pos_spine(env: Map<NameId, ConstantInfo>, family: Seq<NameId>, e: ExprV) -> bool
    decreases e, 1int,
{
    match e {
        ExprV::App(f, a) => strict_pos_spine(env, family, *f) && strict_pos_spec(env, family, *a),
        _ => strict_pos_leaf(env, family, e),
    }
}

/// Strict positivity of an expression that is not an application.
pub open spec fn strict_pos_leaf(env: Map<NameId, ConstantInfo>, family: Seq<NameId>, e: ExprV) -> bool
    decreases e, 0int,
{
    match e {
        ExprV::Pi(_, _, d, c) => !occurs_spec(family, *d) && strict_pos_spec(env, family, *c),
        ExprV::Lam(_, _, d, c) => !occurs_spec(family, *d) && strict_pos_spec(env, family, *c),
        ExprV::Let(_, t, v, b) => !occurs_spec(family, *t) && !occurs_spec(family, *v) && strict_pos_spec(
            env,
            family,
            *b,
        ),
        _ => true,
    }
}

/// `e` with every variable that refers, `depth` binders below the
/// parameter block, to a carrier parameter replaced by the marker.
pub open spec fn subst_carriers_spec(e: ExprV, depth: int, num_params: int, is_carrier: Seq<bool>) -> ExprV
    decreases e,
{
    match e {
        ExprV::Var(idx) => {
            let i = idx.0 as int;
            if depth <= i < num_params + depth && is_carrier[num_params + depth - 1 - i] {
                ExprV::Const(carrier_marker(), Seq::empty())
            } else {
                e
            }
        },
        ExprV::App(f, a) => ExprV::App(
            Box::new(subst_carriers_spec(*f, depth, num_params, is_carrier)),
            Box::new(subst_carriers_spec(*a, depth, num_params, is_carrier)),
        ),
        ExprV::Lam(i, n, d, b) => ExprV::Lam(
            i,
            n,
            Box::new(subst_carriers_spec(*d, depth, num_params, is_carrier)),
            Box::new(subst_carriers_spec(*b, depth + 1, num_params, is_carrier)),
        ),
        ExprV::Pi(i, n, d, b) => ExprV::Pi(
            i,
            n,
            Box::new(subst_carriers_spec(*d, depth, num_params, is_carrier)),
            Box::new(subst_carriers_spec(*b, depth + 1, num_params, is_carrier)),
        ),
        ExprV::Let(n, t, v, b) => ExprV::Let(
            n,
            Box::new(subst_carriers_spec(*t, depth, num_params, is_carrier)),
            Box::new(subst_carriers_spec(*v, depth, num_params, is_carrier)),
            Box::new(subst_carriers_spec(*b, depth + 1, num_params, is_carrier)),
        ),
        _ => e,
    }
}

/// The carrier classification of the first `n` parameters of `ty`, and
/// the type below them; `None` if `ty` has fewer than `n` Π-binders.
pub open spec fn classify_params(ty: ExprV, n: nat) -> Option<(Seq<bool>, ExprV)>
    decreases n,
{
    if n == 0 {
        Some((Seq::empty(), ty))
    } else {
        match ty {
            ExprV::Pi(_, _, d, c) => match classify_params(*c, (n - 1) as nat) {
                Some((cs, rest)) => Some((seq![*d is Sort] + cs, rest)),
                None => None,
            },
            _ => None,
        }
    }
}

/// `true` iff every field domain of `e`, the `depth`-th field onwards, is
/// strictly positive for the extended family once carriers are replaced.
pub open spec fn fields_ok(
    env: Map<NameId, ConstantInfo>,
    ext: Seq<NameId>,
    num_params: int,
    is_carrier: Seq<bool>,
    e: ExprV,
    depth: int,
) -> bool
    decreases e,
{
    match e {
        ExprV::Pi(_, _, d, c) => strict_pos_spec(env, ext, subst_carriers_spec(*d, depth, num_params, is_carrier))
            && fields_ok(env, ext, num_params, is_carrier, *c, depth + 1),
        _ => true,
    }
}

/// `true` iff the constructor type `ty` passes the positivity check for
/// `family` with `num_params` parameters.
pub open spec fn constructor_ok(env: Map<NameId, ConstantInfo>, family: Seq<NameId>, num_params: nat, ty: ExprV) -> bool {
    match classify_params(ty, num_params) {
        Some((cs, rest)) => fields_ok(env, family.push(carrier_marker()), num_params as int, cs, rest, 0),
        None => false,
    }
}

/// The first constructor, at or after `k`, that fails the check.
pub open spec fn first_bad_constructor(env: Map<NameId, ConstantInfo>, ind: InductiveVal, ctors: Seq<ConstructorVal>, k: int) -> Option<int>
    decreases ctors.len() - k,
{
    if k < 0 || k >= ctors.len() {
        None
    } else if !constructor_ok(env, ind.all@, ind.num_params as nat, (*ctors[k].base.ty)@) {
        Some(k)
    } else {
        first_bad_constructor(env, ind, ctors, k + 1)
    }
}

/// The verdict of the positivity check on an inductive: `Ok`, or the first
/// failing constructor.
pub open spec fn positivity_result(r: KernelResult<()>, env: Map<NameId, ConstantInfo>, ind: InductiveVal, ctors: Seq<ConstructorVal>) -> bool {
    match first_bad_constructor(env, ind, ctors, 0) {
        None => r is Ok,
        Some(i) => r is Err && r->Err_0@ == (KernelErrorV::NonPositiveInductive {
            inductive: ind.base.name,
            constructor: i as usize,
        }),
    }
}

/// The positivity checker, reading constants from an environment.
pub struct PositivityChecker<'a> {
    env: &'a GlobalEnv,
}

impl<'a> PositivityChecker<'a> {
    /// The environment the checker reads from.
    pub closed spec fn env_spec(&self) -> &'a GlobalEnv {
        self.env
    }

    /// Construct a checker over the given environment.
    pub fn new(env: &'a GlobalEnv) -> (r: Self)
        ensures
            r.env_spec() == env,
    {
        PositivityChecker { env }
    }

    /// The environment the checker reads from.
    pub fn env(&self) -> (r: &'a GlobalEnv)
        ensures
            r == self.env_spec(),
    {
        self.env
    }

    /// Verify that every constructor of `ind` satisfies the strict
    /// positivity condition for the family `ind.all`; the first failing
    /// constructor is reported.
    pub fn check_inductive(&self, ind: &InductiveVal, ctors: &[ConstructorVal]) -> (r: KernelResult<()>)
        ensures
            positivity_result(r, self.env_spec()@, *ind, ctors@),
    {
        let n = ctors.len();
        let mut i: usize = 0;
        while i < n
            invariant
                n == ctors@.len(),
                i <= n,
                first_bad_constructor(self.env_spec()@, *ind, ctors@, 0) == first_bad_constructor(
                    self.env_spec()@,
                    *ind,
                    ctors@,
                    i as int,
                ),
            decreases n - i,
        {
            if !self.check_constructor_type(&ind.all, ind.num_params as usize, &ctors[i].base.ty) {
                return Err(KernelError::NonPositiveInductive { inductive: ind.base.name, constructor: i });
            }
            i = i + 1;
        }
        Ok(())
    }

    /// Check a whole block: each inductive in turn, the first failure
    /// short-circuits.
    pub fn check_block(&self, inds: &[InductiveVal], ctors: &[ConstructorVal]) -> (r: KernelResult<()>)
        ensures
            r is Ok <==> forall|k: int| 0 <= k < inds@.len() ==> first_bad_constructor(self.env_spec()@, #[trigger] inds@[k], ctors@, 0) is None,
            r is Err ==> exists|k: int| 0 <= k < inds@.len() && positivity_result(r, self.env_spec()@, #[trigger] inds@[k], ctors@)
                && forall|j: int| 0 <= j < k ==> first_bad_constructor(self.env_spec()@, #[trigger] inds@[j], ctors@, 0) is None,
    {
        let n = inds.len();
        let mut k: usize = 0;
        while k < n
            invariant
                n == inds@.len(),
                k <= n,
                forall|j: int| 0 <= j < k ==> first_bad_constructor(self.env_spec()@, #[trigger] inds@[j], ctors@, 0) is None,
            decreases n - k,
        {
            let r = self.check_inductive(&inds[k], ctors);
            if r.is_err() {
                return r;
            }
            k = k + 1;
        }
        Ok(())
    }

    /// Check every field type of a constructor: classify the parameters,
    /// extend the family by the carrier marker, then check each field
    /// domain after replacing carriers.
    fn check_constructor_type(&self, family: &Vec<NameId>, num_params: usize, ctor_ty: &Expr) -> (r: bool)
        requires
            num_params <= u32::MAX,
        ensures
            r == constructor_ok(self.env_spec()@, family@, num_params as nat, ctor_ty@),
    {
        let mut is_carrier: Vec<bool> = Vec::new();
        let mut current: &Expr = ctor_ty;
        let mut k: usize = 0;
        while k < num_params
            invariant
                k <= num_params,
                classify_params(ctor_ty@, num_params as nat) == match classify_params(current@, (num_params - k) as nat) {
                    Some((cs, rest)) => Some((is_carrier@ + cs, rest)),
                    None => None::<(Seq<bool>, ExprV)>,
                },
                is_carrier@.len() == k,
            decreases num_params - k,
        {
            match current {
                Expr::Pi(_, _, dom, cod) => {
                    let ghost before = is_carrier@;
                    is_carrier.push(dom.is_sort());
                    proof {
                        match classify_params(cod@, (num_params - k - 1) as nat) {
                            Some((cs, rest)) => {
                                assert(before + (seq![dom@ is Sort] + cs) =~= is_carrier@ + cs);
                            },
                            None => {},
                        }
                    }
                    current = cod;
                },
                _ => {
                    return false;
                },
            }
            k = k + 1;
        }
        assert(is_carrier@ + Seq::<bool>::empty() =~= is_carrier@);
        let mut extended: Vec<NameId> = Vec::new();
        let m = family.len();
        let mut j: usize = 0;
        while j < m
            invariant
                m == family@.len(),
                j <= m,
                extended@ == family@.take(j as int),
            decreases m - j,
        {
            extended.push(family[j]);
            assert(extended@ =~= family@.take(j + 1));
            j = j + 1;
        }
        assert(family@.take(m as int) =~= family@);
        extended.push(NameId(u32::MAX));
        let ghost cs = is_carrier@;
        let mut depth: usize = 0;
        loop
            invariant
                cs == is_carrier@,
                cs.len() == num_params,
                num_params <= u32::MAX,
                extended@ == family@.push(carrier_marker()),
                constructor_ok(self.env_spec()@, family@, num_params as nat, ctor_ty@) == fields_ok(
                    self.env_spec()@,
                    extended@,
                    num_params as int,
                    cs,
                    current@,
                    depth as int,
                ),
            decreases current,
        {
            match current {
                Expr::Pi(_, _, dom, cod) => {
                    let dom_subst = substitute_carriers(dom, depth, num_params, &is_carrier);
                    if !self.strict_pos(&extended, &dom_subst) {
                        return false;
                    }
                    if depth == usize::MAX {
                        return self.fields_ok_deep(&extended, num_params, &is_carrier, cod, depth);
                    }
                    depth = depth + 1;
                    current = cod;
                },
                _ => {
                    return true;
                },
            }
        }
    }

    /// The field check below `usize::MAX` binders, where the depth no
    /// longer fits a `usize`: every remaining field domain still has to be
    /// strictly positive; none of its variables can refer to a parameter.
    fn fields_ok_deep(&self, ext: &Vec<NameId>, num_params: usize, is_carrier: &Vec<bool>, e: &Expr, depth: usize) -> (r: bool)
        requires
            depth == usize::MAX,
            is_carrier@.len() == num_params,
            num_params <= u32::MAX,
        ensures
            r == fields_ok(self.env_spec()@, ext@, num_params as int, is_carrier@, e@, depth + 1),
        decreases e, 0int,
    {
        match e {
            Expr::Pi(_, _, dom, cod) => {
                proof { lemma_subst_carriers_deep(dom@, depth + 1, num_params as int, is_carrier@); }
                self.strict_pos(ext, dom) && self.fields_ok_deep_rest(ext, num_params, is_carrier, cod, depth)
            },
            _ => true,
        }
    }

    fn fields_ok_deep_rest(&self, ext: &Vec<NameId>, num_params: usize, is_carrier: &Vec<bool>, e: &Expr, depth: usize) -> (r: bool)
        requires
            depth == usize::MAX,
            is_carrier@.len() == num_params,
            num_params <= u32::MAX,
        ensures
            r == fields_ok(self.env_spec()@, ext@, num_params as int, is_carrier@, e@, depth + 2),
        decreases e, 1int,
    {
        proof { lemma_fields_ok_deep_shift(self.env_spec()@, ext@, num_params as int, is_carrier@, e@, depth + 1); }
        self.fields_ok_deep(ext, num_params, is_carrier, e, depth)
    }

    /// `true` iff every occurrence of a family member in `e` is strictly
    /// positive.
    pub fn strict_pos(&self, family: &Vec<NameId>, e: &Expr) -> (r: bool)
        ensures
            r == strict_pos_spec(self.env_spec()@, family@, e@),
        decreases e, 2int,
    {
        match e {
            Expr::App(_, _) => {
                let head = app_head(e);
                if let Expr::Const(name, _) = head {
                    if self.is_unsafe_inductive(*name) {
                        return !self.occurs(family, e);
                    }
                }
                self.strict_pos_spine(family, e)
            },
            _ => self.strict_pos_leaf(family, e),
        }
    }

    fn strict_pos_spine(&self, family: &Vec<NameId>, e: &Expr) -> (r: bool)
        ensures
            r == strict_pos_spine(self.env_spec()@, family@, e@),
        decreases e, 1int,
    {
        match e {
            Expr::App(f, a) => self.strict_pos_spine(family, f) && self.strict_pos(family, a),
            _ => self.strict_pos_leaf(family, e),
        }
    }

    fn strict_pos_leaf(&self, family: &Vec<NameId>, e: &Expr) -> (r: bool)
        ensures
            r == strict_pos_leaf(self.env_spec()@, family@, e@),
        decreases e, 0int,
    {
        match e {
            Expr::Pi(_, _, d, c) | Expr::Lam(_, _, d, c) => !self.occurs(family, d) && self.strict_pos(family, c),
            Expr::Let(_, t, v, b) => !self.occurs(family, t) && !self.occurs(family, v) && self.strict_pos(family, b),
            _ => true,
        }
    }

    /// `true` iff `e` contains an occurrence of a family member, at any
    /// position.
    pub fn occurs(&self, family: &Vec<NameId>, e: &Expr) -> (r: bool)
        ensures
            r == occurs_spec(family@, e@),
        decreases e,
    {
        match e {
            Expr::Sort(_) | Expr::Var(_) | Expr::Lit(_) => false,
            Expr::Const(name, _) => contains_name(family, *name),
            Expr::App(f, a) => self.occurs(family, f) || self.occurs(family, a),
            Expr::Pi(_, _, d, c) => self.occurs(family, d) || self.occurs(family, c),
            Expr::Lam(_, _, d, b) => self.occurs(family, d) || self.occurs(family, b),
            Expr::Let(_, t, v, b) => self.occurs(family, t) || self.occurs(family, v) || self.occurs(family, b),
        }
    }

    /// `true` iff the environment declares `name` as an unsafe inductive.
    fn is_unsafe_inductive(&self, name: NameId) -> (r: bool)
        ensures
            r == unsafe_inductive(self.env_spec()@, name),
    {
        match self.env.find(name) {
            Some(info) => match &*info {
                ConstantInfo::Inductive(v) => v.is_unsafe,
                _ => false,
            },
            None => false,
        }
    }
}

/// `true` iff `name` is in `family`.
fn contains_name(family: &Vec<NameId>, name: NameId) -> (r: bool)
    ensures
        r == family@.contains(name),
{
    let n = family.len();
    let mut k: usize = 0;
    while k < n
        invariant
            n == family@.len(),
            k <= n,
            forall|j: int| 0 <= j < k ==> family@[j] != name,
        decreases n - k,
    {
        if family[k] == name {
            assert(family@[k as int] == name);
            return true;
        }
        k = k + 1;
    }
    false
}

/// The head of an application spine.
fn app_head(e: &Expr) -> (r: &Expr)
    ensures
        r@ == spine_head(e@),
    decreases e,
{
    match e {
        Expr::App(f, _) => app_head(f),
        _ => e,
    }
}

/// Below `usize::MAX` binders, no variable refers to a parameter, so
/// carrier substitution leaves the domain unchanged.
proof fn lemma_subst_carriers_deep(e: ExprV, depth: int, num_params: int, is_carrier: Seq<bool>)
    requires
        depth > u32::MAX,
    ensures
        subst_carriers_spec(e, depth, num_params, is_carrier) == e,
    decreases e,
{
    match e {
        ExprV::App(f, a) => {
            lemma_subst_carriers_deep(*f, depth, num_params, is_carrier);
            lemma_subst_carriers_deep(*a, depth, num_params, is_carrier);
        },
        ExprV::Lam(_, _, d, b) => {
            lemma_subst_carriers_deep(*d, depth, num_params, is_carrier);
            lemma_subst_carriers_deep(*b, depth + 1, num_params, is_carrier);
        },
        ExprV::Pi(_, _, d, b) => {
            lemma_subst_carriers_deep(*d, depth, num_params, is_carrier);
            lemma_subst_carriers_deep(*b, depth + 1, num_params, is_carrier);
        },
        ExprV::Let(_, t, v, b) => {
            lemma_subst_carriers_deep(*t, depth, num_params, is_carrier);
            lemma_subst_carriers_deep(*v, depth, num_params, is_carrier);
            lemma_subst_carriers_deep(*b, depth + 1, num_params, is_carrier);
        },
        _ => {},
    }
}

/// Below `usize::MAX` binders the field check no longer depends on the
/// depth.
proof fn lemma_fields_ok_deep_shift(
    env: Map<NameId, ConstantInfo>,
    ext: Seq<NameId>,
    num_params: int,
    is_carrier: Seq<bool>,
    e: ExprV,
    depth: int,
)
    requires
        depth > u32::MAX,
    ensures
        fields_ok(env, ext, num_params, is_carrier, e, depth + 1) == fields_ok(env, ext, num_params, is_carrier, e, depth),
    decreases e,
{
    if let ExprV::Pi(_, _, d, c) = e {
        lemma_subst_carriers_deep(*d, depth, num_params, is_carrier);
        lemma_subst_carriers_deep(*d, depth + 1, num_params, is_carrier);
        lemma_fields_ok_deep_shift(env, ext, num_params, is_carrier, *c, depth + 1);
    }
}

/// Replace every variable that refers, `depth` binders below the parameter
/// block, to a carrier parameter by the marker.
fn substitute_carriers(e: &Expr, depth: usize, num_params: usize, is_carrier: &Vec<bool>) -> (r: Expr)
    requires
        is_carrier@.len() == num_params,
    ensures
        r@ == subst_carriers_spec(e@, depth as int, num_params as int, is_carrier@),
    decreases e, 0int,
{
    match e {
        Expr::Var(idx) => {
            let i = idx.0 as usize;
            if i >= depth && i - depth < num_params {
                let param_pos = num_params - 1 - (i - depth);
                if is_carrier[param_pos] {
                    return Expr::Const(NameId(u32::MAX), Vec::new());
                }
            }
            Expr::Var(*idx)
        },
        Expr::App(f, a) => Expr::App(
            Box::new(substitute_carriers(f, depth, num_params, is_carrier)),
            Box::new(substitute_carriers(a, depth, num_params, is_carrier)),
        ),
        Expr::Lam(info, name, dom, body) => {
            let d = substitute_carriers(dom, depth, num_params, is_carrier);
            let b = substitute_carriers_under(body, depth, num_params, is_carrier);
            Expr::Lam(*info, *name, Box::new(d), Box::new(b))
        },
        Expr::Pi(info, name, dom, cod) => {
            let d = substitute_carriers(dom, depth, num_params, is_carrier);
            let c = substitute_carriers_under(cod, depth, num_params, is_carrier);
            Expr::Pi(*info, *name, Box::new(d), Box::new(c))
        },
        Expr::Let(name, ty, val, body) => {
            let t = substitute_carriers(ty, depth, num_params, is_carrier);
            let v = substitute_carriers(val, depth, num_params, is_carrier);
            let b = substitute_carriers_under(body, depth, num_params, is_carrier);
            Expr::Let(*name, Box::new(t), Box::new(v), Box::new(b))
        },
        Expr::Sort(_) | Expr::Const(_, _) | Expr::Lit(_) => e.deep_clone(),
    }
}

/// [`substitute_carriers`] one binder deeper.
fn substitute_carriers_under(e: &Expr, depth: usize, num_params: usize, is_carrier: &Vec<bool>) -> (r: Expr)
    requires
        is_carrier@.len() == num_params,
    ensures
        r@ == subst_carriers_spec(e@, depth + 1, num_params as int, is_carrier@),
    decreases e, 1int,
{
    if depth == usize::MAX {
        proof {
            assert(num_params <= usize::MAX);
            lemma_subst_carriers_beyond(e@, depth + 1, num_params as int, is_carrier@);
        }
        e.deep_clone()
    } else {
        substitute_carriers(e, depth + 1, num_params, is_carrier)
    }
}

/// Once the depth exceeds every variable index, substitution is the
/// identity.
proof fn lemma_subst_carriers_beyond(e: ExprV, depth: int, num_params: int, is_carrier: Seq<bool>)
    requires
        depth > u32::MAX,
    ensures
        subst_carriers_spec(e, depth, num_params, is_carrier) == e,
{
    lemma_subst_carriers_deep(e, depth, num_params, is_carrier);
}

/// A term in which no family member occurs is strictly positive.
pub proof fn lemma_absent_is_strictly_positive(env: Map<NameId, ConstantInfo>, family: Seq<NameId>, e: ExprV)
    requires
        !occurs_spec(family, e),
    ensures
        strict_pos_spec(env, family, e),
    decreases e, 2int,
{
    match e {
        ExprV::App(_, _) => lemma_absent_spine(env, family, e),
        _ => lemma_absent_leaf(env, family, e),
    }
}

proof fn lemma_absent_spine(env: Map<NameId, ConstantInfo>, family: Seq<NameId>, e: ExprV)
    requires
        !occurs_spec(family, e),
    ensures
        strict_pos_spine(env, family, e),
    decreases e, 1int,
{
    match e {
        ExprV::App(f, a) => {
            lemma_absent_spine(env, family, *f);
            lemma_absent_is_strictly_positive(env, family, *a);
        },
        _ => lemma_absent_leaf(env, family, e),
    }
}

proof fn lemma_absent_leaf(env: Map<NameId, ConstantInfo>, family: Seq<NameId>, e: ExprV)
    requires
        !occurs_spec(family, e),
    ensures
        strict_pos_leaf(env, family, e),
    decreases e, 0int,
{
    match e {
        ExprV::Pi(_, _, _, c) => lemma_absent_is_strictly_positive(env, family, *c),
        ExprV::Lam(_, _, _, c) => lemma_absent_is_strictly_positive(env, family, *c),
        ExprV::Let(_, _, _, b) => lemma_absent_is_strictly_positive(env, family, *b),
        _ => {},
    }
}

} // verus!
