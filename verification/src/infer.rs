//! Bidirectional type checking for the kernel.
//!
//! The checker operates over the syntactic [`Expr`] tree and produces
//! semantic [`Value`]s for inferred types:
//!
//! * [`TypeChecker::infer`] — synthesis: given a term, return its type.
//! * [`TypeChecker::check`] — checking: given a term and an expected type,
//!   verify that the term has that type.
//!
//! | Term              | Mode  | Rule                                                  |
//! |-------------------|-------|-------------------------------------------------------|
//! | `Sort(l)`         | infer | `Sort(l) : Sort(l+1)`                                 |
//! | `Var(i)`          | infer | lookup `i` in the local context                       |
//! | `Const(c, ls)`    | infer | arity check, universe-substitute, evaluate            |
//! | `App(f, a)`       | infer | `f : Π x:A. B`, check `a : A`, result `B[a/x]`        |
//! | `Lam(..)`         | infer | error: annotations required                           |
//! | `Pi(x, A, B)`     | infer | `A : Sort(u)`, `B : Sort(v)`, result `Sort(imax u v)` |
//! | `Let(x, T, v, b)` | infer | check `v : T`, push the definition, infer `b`         |
//! | `Lam(x, A, b)`    | check | match `Π x:A'. B`, check `A ≡ A'`, check `b : B[x]`   |
//! | anything else     | check | infer and convert                                     |
//!
//! Every rule is written down as a specification ([`infer_spec`],
//! [`check_spec`]) over the NbE semantics of [`crate::nbe`], and the
//! checker is proved to compute exactly that.

use vstd::prelude::*;
use std::rc::Rc;
use crate::env::{ConstantInfo, GlobalEnv, LocalDecl, base_of, body_of};
use crate::error::{KernelError, KernelErrorV, KernelResult};
use crate::expr::{BinderInfo, DeBruijnIndex, Expr, ExprV, expr_text};
use crate::level::{Level, UniverseParamId, eval_level, lemma_norm_preserves_eval, norm};
use crate::name::NameId;
use crate::nbe::{
    DbLevel, Env as NbeEnv, Nbe, TransparencyMode, ValRef, Value, ValueV, closure_apply_spec,
    convert_spec, eval_spec, fresh_var_spec, lemma_value_view_unfold, normalize_all, opt_view,
    quote_spec, subst_expr_spec, substitute_levels,
};
use crate::text::string_of;

verus! {

// ---------------------------------------------------------------------------
// Scoping
// ---------------------------------------------------------------------------

/// `true` iff every bound variable of `e` refers to one of the `n`
/// enclosing binders or to a binder inside `e`.
pub open spec fn scoped(e: ExprV, n: nat) -> bool
    decreases e,
{
    match e {
        ExprV::Var(i) => i.0 < n,
        ExprV::App(f, a) => scoped(*f, n) && scoped(*a, n),
        ExprV::Lam(_, _, a, b) => scoped(*a, n) && scoped(*b, n + 1),
        ExprV::Pi(_, _, a, b) => scoped(*a, n) && scoped(*b, n + 1),
        ExprV::Let(_, t, v, b) => scoped(*t, n) && scoped(*v, n) && scoped(*b, n + 1),
        _ => true,
    }
}

// ---------------------------------------------------------------------------
// TypedContext
// ---------------------------------------------------------------------------

/// One binder of a typed context: its declaration, its semantic type and
/// its semantic value.
#[derive(Debug)]
struct TypedEntry {
    decl: LocalDecl,
    ty: ValRef,
    value: ValRef,
}

/// A local typing context that pairs syntactic declarations with their
/// semantic types and semantic values.
///
/// The semantic type of a binder is what `infer` returns for a variable;
/// its semantic value is what evaluation binds the variable to: a fresh
/// neutral variable at the binder's level for λ- and Π-binders, the bound
/// value for a `let`. Binders are stored innermost-last: the binder at
/// position `n - 1 - i` is the one at de Bruijn index `i`.
#[derive(Debug)]
pub struct TypedContext {
    entries: Vec<TypedEntry>,
}

/// The semantic type and value of an entry.
spec fn entry_sem(e: TypedEntry) -> (ValueV, ValueV) {
    ((*e.ty)@, (*e.value)@)
}

impl View for TypedContext {
    /// The semantic type and value of each binder, outermost first.
    type V = Seq<(ValueV, ValueV)>;

    closed spec fn view(&self) -> Seq<(ValueV, ValueV)> {
        self.entries@.map_values(|e: TypedEntry| entry_sem(e))
    }
}

/// The NbE environment of a context: the binders' values, innermost first.
pub open spec fn ctx_env(ctx: Seq<(ValueV, ValueV)>) -> Seq<ValueV>
    decreases ctx.len(),
{
    if ctx.len() == 0 {
        Seq::empty()
    } else {
        seq![ctx.last().1] + ctx_env(ctx.drop_last())
    }
}

/// A copy of a declaration.
fn copy_decl(d: &LocalDecl) -> (r: LocalDecl)
    ensures
        r == *d,
{
    LocalDecl {
        name: d.name,
        binder_info: d.binder_info,
        ty: Rc::clone(&d.ty),
        value: match &d.value {
            Some(v) => Some(Rc::clone(v)),
            None => None,
        },
    }
}

impl TypedContext {
    /// The declarations, outermost first.
    pub closed spec fn decls(&self) -> Seq<LocalDecl> {
        self.entries@.map_values(|e: TypedEntry| e.decl)
    }

    /// An empty context.
    pub fn empty() -> (r: Self)
        ensures
            r@ == Seq::<(ValueV, ValueV)>::empty(),
            r.decls() == Seq::<LocalDecl>::empty(),
    {
        let r = TypedContext { entries: Vec::new() };
        assert(r@ =~= Seq::<(ValueV, ValueV)>::empty());
        assert(r.decls() =~= Seq::<LocalDecl>::empty());
        r
    }

    /// Number of binders.
    pub fn size(&self) -> (r: usize)
        ensures
            r == self@.len(),
            r == self.decls().len(),
    {
        self.entries.len()
    }

    /// `true` iff there are no binders.
    pub fn is_empty(&self) -> (r: bool)
        ensures
            r == (self@.len() == 0),
    {
        self.entries.len() == 0
    }

    /// A copy of the context.
    pub fn duplicate(&self) -> (r: Self)
        ensures
            r@ == self@,
            r.decls() == self.decls(),
    {
        let mut out: Vec<TypedEntry> = Vec::new();
        let n = self.entries.len();
        let mut k: usize = 0;
        while k < n
            invariant
                n == self.entries@.len(),
                k <= n,
                out@ == self.entries@.take(k as int),
            decreases n - k,
        {
            let e = &self.entries[k];
            out.push(TypedEntry { decl: copy_decl(&e.decl), ty: Rc::clone(&e.ty), value: Rc::clone(&e.value) });
            assert(out@ =~= self.entries@.take(k + 1));
            k = k + 1;
        }
        assert(self.entries@.take(n as int) =~= self.entries@);
        TypedContext { entries: out }
    }

    /// Push a λ- or Π-binder of semantic type `ty`. Its semantic value is
    /// a fresh neutral variable at level `self.size()`.
    pub fn push_binder(&mut self, decl: LocalDecl, ty: ValRef)
        ensures
            final(self)@ == old(self)@.push(((*ty)@, fresh_var_spec(DbLevel(old(self)@.len() as u32)))),
            final(self).decls() == old(self).decls().push(decl),
    {
        let level = DbLevel(self.entries.len() as u32);
        let value = Value::fresh_var(level);
        self.entries.push(TypedEntry { decl, ty, value });
        assert(final(self)@ =~= old(self)@.push(((*ty)@, fresh_var_spec(DbLevel(old(self)@.len() as u32)))));
        assert(final(self).decls() =~= old(self).decls().push(decl));
    }

    /// Push a let-bound declaration with semantic type `ty` and semantic
    /// value `value`.
    pub fn push_let(&mut self, decl: LocalDecl, ty: ValRef, value: ValRef)
        ensures
            final(self)@ == old(self)@.push(((*ty)@, (*value)@)),
            final(self).decls() == old(self).decls().push(decl),
    {
        self.entries.push(TypedEntry { decl, ty, value });
        assert(final(self)@ =~= old(self)@.push(((*ty)@, (*value)@)));
        assert(final(self).decls() =~= old(self).decls().push(decl));
    }

    /// Same as [`TypedContext::push_binder`].
    pub fn push(&mut self, decl: LocalDecl, ty: ValRef)
        ensures
            final(self)@ == old(self)@.push(((*ty)@, fresh_var_spec(DbLevel(old(self)@.len() as u32)))),
            final(self).decls() == old(self).decls().push(decl),
    {
        self.push_binder(decl, ty);
    }

    /// The declaration and semantic type at de Bruijn index `idx`.
    pub fn lookup(&self, idx: DeBruijnIndex) -> (r: (&LocalDecl, &ValRef))
        requires
            idx.0 < self@.len(),
        ensures
            *r.0 == self.decls()[self@.len() - 1 - idx.0],
            (**r.1)@ == self@[self@.len() - 1 - idx.0].0,
    {
        let n = self.entries.len();
        let pos = n - 1 - idx.0 as usize;
        let e = &self.entries[pos];
        (&e.decl, &e.ty)
    }

    /// The NbE environment of this context: each binder's semantic value,
    /// innermost first.
    pub fn to_env(&self) -> (r: NbeEnv)
        ensures
            r@ == ctx_env(self@),
    {
        let mut env = NbeEnv::empty();
        let n = self.entries.len();
        let mut k: usize = 0;
        while k < n
            invariant
                n == self.entries@.len(),
                k <= n,
                env@ == ctx_env(self@.take(k as int)),
            decreases n - k,
        {
            env = env.extend(Rc::clone(&self.entries[k].value));
            assert(self@.take(k + 1).drop_last() =~= self@.take(k as int));
            k = k + 1;
        }
        assert(self@.take(n as int) =~= self@);
        env
    }

    /// The `(declaration, semantic type)` pairs, innermost first.
    pub fn iter(&self) -> (r: Vec<(LocalDecl, ValRef)>)
        ensures
            r@.len() == self@.len(),
            forall|k: int| 0 <= k < r@.len() ==> (#[trigger] r@[k]).0 == self.decls()[self@.len() - 1 - k]
                && (*r@[k].1)@ == self@[self@.len() - 1 - k].0,
    {
        let mut out: Vec<(LocalDecl, ValRef)> = Vec::new();
        let n = self.entries.len();
        let mut k: usize = 0;
        while k < n
            invariant
                n == self.entries@.len(),
                n == self@.len(),
                k <= n,
                out@.len() == k,
                forall|j: int| 0 <= j < k ==> (#[trigger] out@[j]).0 == self.decls()[n - 1 - j]
                    && (*out@[j].1)@ == self@[n - 1 - j].0,
            decreases n - k,
        {
            let e = &self.entries[n - 1 - k];
            out.push((copy_decl(&e.decl), Rc::clone(&e.ty)));
            k = k + 1;
        }
        out
    }
}

impl Clone for TypedContext {
    fn clone(&self) -> (r: Self)
        ensures
            r@ == self@,
            r.decls() == self.decls(),
    {
        self.duplicate()
    }
}

impl Default for TypedContext {
    fn default() -> (r: Self)
        ensures
            r@ == Seq::<(ValueV, ValueV)>::empty(),
    {
        TypedContext::empty()
    }
}

// ---------------------------------------------------------------------------
// The typing rules
// ---------------------------------------------------------------------------

/// How a semantic value appears in a diagnostic: the text of its readback
/// at context size `level`, or `?` when the readback fails.
pub open spec fn value_text(g: &GlobalEnv, m: TransparencyMode, f: nat, level: nat, v: ValueV) -> Seq<char> {
    match quote_spec(g, m, f, level as usize, v) {
        Some(e) => expr_text(e),
        None => "?"@,
    }
}

/// The error reported when evaluation or closure application produces no
/// value.
pub open spec fn eval_failure() -> KernelErrorV {
    KernelErrorV::Internal("evaluation produced no value"@)
}

/// Why a λ-abstraction has no inferable type.
pub open spec fn lam_reason() -> Seq<char> {
    "cannot infer the type of an unannotated λ-abstraction; use `check` with an expected function type"@
}

/// Why a literal has no inferable type.
pub open spec fn lit_reason() -> Seq<char> {
    "literals must be desugared by the elaborator before reaching the kernel"@
}

/// How a binder annotation appears in a diagnostic.
pub open spec fn binder_text(i: BinderInfo) -> Seq<char> {
    match i {
        BinderInfo::Default => "Default binder"@,
        BinderInfo::Implicit => "Implicit binder"@,
        BinderInfo::StrictImplicit => "StrictImplicit binder"@,
        BinderInfo::Instance => "Instance binder"@,
    }
}

/// Evaluation of `e` in a context.
pub open spec fn ev(g: &GlobalEnv, m: TransparencyMode, f: nat, ctx: Seq<(ValueV, ValueV)>, e: ExprV) -> Option<ValueV> {
    eval_spec(g, m, f, ctx_env(ctx), e)
}

/// The context extended by a λ- or Π-binder of semantic type `ty`.
pub open spec fn push_binder_spec(ctx: Seq<(ValueV, ValueV)>, ty: ValueV) -> Seq<(ValueV, ValueV)> {
    ctx.push((ty, fresh_var_spec(DbLevel(ctx.len() as u32))))
}

/// The type of the constant `name` at universe arguments `ls`: its
/// declared type, instantiated at the normalized arguments and evaluated.
pub open spec fn infer_const_spec(g: &GlobalEnv, m: TransparencyMode, f: nat, name: NameId, ls: Seq<Level>) -> Result<ValueV, KernelErrorV> {
    if !g@.contains_key(name) {
        Err(KernelErrorV::UnknownConstant(name))
    } else {
        let info = g@[name];
        let params = base_of(info).universe_params@;
        if ls.len() != params.len() {
            Err(KernelErrorV::UniverseArityMismatch {
                name,
                expected: params.len() as usize,
                actual: ls.len() as usize,
            })
        } else {
            let ty = if params.len() == 0 {
                (*base_of(info).ty)@
            } else {
                subst_expr_spec((*base_of(info).ty)@, params, ls.map_values(|l: Level| norm(l)))
            };
            match eval_spec(g, m, f, Seq::empty(), ty) {
                Some(v) => Ok(v),
                None => Err(eval_failure()),
            }
        }
    }
}

/// Type synthesis: the type of `e` in `ctx`, or why there is none.
pub open spec fn infer_spec(g: &GlobalEnv, m: TransparencyMode, f: nat, ctx: Seq<(ValueV, ValueV)>, e: ExprV) -> Result<ValueV, KernelErrorV>
    decreases e, 0nat,
{
    let n = ctx.len();
    match e {
        ExprV::Sort(l) => Ok(ValueV::Sort(norm(Level::Succ(Box::new(l))))),
        ExprV::Var(i) => if i.0 < n {
            Ok(ctx[n - 1 - i.0].0)
        } else {
            Err(KernelErrorV::UnboundVariable { index: i, context_size: n as usize })
        },
        ExprV::Const(name, ls) => infer_const_spec(g, m, f, name, ls),
        ExprV::App(fun, a) => match infer_spec(g, m, f, ctx, *fun) {
            Err(x) => Err(x),
            Ok(fty) => match fty {
                ValueV::Pi(_, _, dom, cod) => match check_spec(g, m, f, ctx, *a, *dom) {
                    Err(x) => Err(x),
                    Ok(_) => match ev(g, m, f, ctx, *a) {
                        None => Err(eval_failure()),
                        Some(av) => match closure_apply_spec(g, m, f, cod, av) {
                            None => Err(eval_failure()),
                            Some(r) => Ok(r),
                        },
                    },
                },
                _ => Err(KernelErrorV::NotAFunction { found: value_text(g, m, f, n, fty) }),
            },
        },
        ExprV::Lam(..) => Err(KernelErrorV::CannotInfer { reason: lam_reason() }),
        ExprV::Pi(_, _, dom, cod) => match infer_spec(g, m, f, ctx, *dom) {
            Err(x) => Err(x),
            Ok(dt) => match dt {
                ValueV::Sort(u) => match ev(g, m, f, ctx, *dom) {
                    None => Err(eval_failure()),
                    Some(dv) => match infer_spec(g, m, f, push_binder_spec(ctx, dv), *cod) {
                        Err(x) => Err(x),
                        Ok(ct) => match ct {
                            ValueV::Sort(v) => Ok(ValueV::Sort(norm(Level::IMax(Box::new(u), Box::new(v))))),
                            _ => Err(KernelErrorV::NotASort { found: value_text(g, m, f, n + 1, ct) }),
                        },
                    },
                },
                _ => Err(KernelErrorV::NotASort { found: value_text(g, m, f, n, dt) }),
            },
        },
        ExprV::Let(_, t, v, b) => match infer_spec(g, m, f, ctx, *t) {
            Err(x) => Err(x),
            Ok(tt) => if !(tt is Sort) {
                Err(KernelErrorV::NotASort { found: value_text(g, m, f, n, tt) })
            } else {
                match ev(g, m, f, ctx, *t) {
                    None => Err(eval_failure()),
                    Some(tv) => match check_spec(g, m, f, ctx, *v, tv) {
                        Err(x) => Err(x),
                        Ok(_) => match ev(g, m, f, ctx, *v) {
                            None => Err(eval_failure()),
                            Some(vv) => infer_spec(g, m, f, ctx.push((tv, vv)), *b),
                        },
                    },
                }
            },
        },
        ExprV::Lit(_) => Err(KernelErrorV::CannotInfer { reason: lit_reason() }),
    }
}

/// Type checking: whether `e` has type `expected` in `ctx`, or why not.
pub open spec fn check_spec(g: &GlobalEnv, m: TransparencyMode, f: nat, ctx: Seq<(ValueV, ValueV)>, e: ExprV, expected: ValueV) -> Result<(), KernelErrorV>
    decreases e, 1nat,
{
    let n = ctx.len();
    match e {
        ExprV::Lam(info, _, dom, body) => match expected {
            ValueV::Pi(pinfo, _, dexp, cod) => if info != pinfo {
                Err(KernelErrorV::TypeMismatch { expected: binder_text(pinfo), actual: binder_text(info) })
            } else {
                match infer_spec(g, m, f, ctx, *dom) {
                    Err(x) => Err(x),
                    Ok(at) => if !(at is Sort) {
                        Err(KernelErrorV::NotASort { found: value_text(g, m, f, n, at) })
                    } else {
                        match ev(g, m, f, ctx, *dom) {
                            None => Err(eval_failure()),
                            Some(dav) => if !convert_spec(g, m, f, n as usize, dav, *dexp) {
                                Err(KernelErrorV::TypeMismatch {
                                    expected: value_text(g, m, f, n, *dexp),
                                    actual: value_text(g, m, f, n, dav),
                                })
                            } else {
                                let fresh = fresh_var_spec(DbLevel(n as u32));
                                match closure_apply_spec(g, m, f, cod, fresh) {
                                    None => Err(eval_failure()),
                                    Some(eb) => check_spec(g, m, f, push_binder_spec(ctx, *dexp), *body, eb),
                                }
                            },
                        }
                    },
                }
            },
            _ => Err(KernelErrorV::TypeMismatch {
                expected: value_text(g, m, f, n, expected),
                actual: "λ-abstraction"@,
            }),
        },
        _ => match infer_spec(g, m, f, ctx, e) {
            Err(x) => Err(x),
            Ok(inferred) => if convert_spec(g, m, f, n as usize, inferred, expected) {
                Ok(())
            } else {
                Err(KernelErrorV::TypeMismatch {
                    expected: value_text(g, m, f, n, expected),
                    actual: value_text(g, m, f, n, inferred),
                })
            },
        },
    }
}

/// The verdict on a top-level declaration: its type must have a sort as
/// its type, and its body, if any, must check against it.
pub open spec fn declaration_spec(g: &GlobalEnv, m: TransparencyMode, f: nat, info: ConstantInfo) -> Result<(), KernelErrorV> {
    let empty = Seq::<(ValueV, ValueV)>::empty();
    let ty = (*base_of(info).ty)@;
    match infer_spec(g, m, f, empty, ty) {
        Err(x) => Err(x),
        Ok(s) => if !(s is Sort) {
            Err(KernelErrorV::NotASort { found: value_text(g, m, f, 0, s) })
        } else {
            match body_of(info) {
                None => Ok(()),
                Some(b) => match ev(g, m, f, empty, ty) {
                    None => Err(eval_failure()),
                    Some(tv) => check_spec(g, m, f, empty, (*b)@, tv),
                },
            }
        },
    }
}

/// The abstract value of a synthesis result.
pub open spec fn type_result_view(r: KernelResult<ValRef>) -> Result<ValueV, KernelErrorV> {
    match r {
        Ok(v) => Ok((*v)@),
        Err(x) => Err(x@),
    }
}

/// The abstract value of a checking result.
pub open spec fn unit_result_view(r: KernelResult<()>) -> Result<(), KernelErrorV> {
    match r {
        Ok(_) => Ok(()),
        Err(x) => Err(x@),
    }
}

// ---------------------------------------------------------------------------
// TypeChecker
// ---------------------------------------------------------------------------

/// The bidirectional type checker.
pub struct TypeChecker<'a> {
    env: &'a GlobalEnv,
    nbe: Nbe<'a, GlobalEnv>,
}

/// A shared semantic sort.
fn sort_value(l: Level) -> (r: ValRef)
    ensures
        (*r)@ == ValueV::Sort(l),
{
    let r = Rc::new(Value::Sort(l));
    proof { lemma_value_view_unfold(&*r); }
    r
}

/// The internal error for an evaluation that produced no value.
fn eval_failure_error() -> (r: KernelError)
    ensures
        r@ == eval_failure(),
{
    KernelError::Internal(string_of("evaluation produced no value"))
}

/// The diagnostic text of a binder annotation.
fn binder_string(i: BinderInfo) -> (r: String)
    ensures
        r@ == binder_text(i),
{
    match i {
        BinderInfo::Default => string_of("Default binder"),
        BinderInfo::Implicit => string_of("Implicit binder"),
        BinderInfo::StrictImplicit => string_of("StrictImplicit binder"),
        BinderInfo::Instance => string_of("Instance binder"),
    }
}

impl<'a> TypeChecker<'a> {
    #[verifier::type_invariant]
    spec fn inv(self) -> bool {
        self.nbe.consts() == self.env
    }

    /// The environment checked against.
    pub closed spec fn genv(&self) -> &'a GlobalEnv {
        self.env
    }

    /// The transparency mode of the checker's NbE engine.
    pub closed spec fn mode_spec(&self) -> TransparencyMode {
        self.nbe.mode_spec()
    }

    /// The budget of each NbE call.
    pub closed spec fn budget(&self) -> nat {
        self.nbe.budget()
    }

    /// A checker with the default transparency mode (`Semireducible`).
    pub fn new(env: &'a GlobalEnv) -> (r: Self)
        ensures
            r.genv() == env,
            r.mode_spec() == TransparencyMode::Semireducible,
            r.budget() == crate::nbe::DEFAULT_FUEL,
    {
        Self::with_mode(env, TransparencyMode::Semireducible)
    }

    /// A checker with an explicit transparency mode.
    pub fn with_mode(env: &'a GlobalEnv, mode: TransparencyMode) -> (r: Self)
        ensures
            r.genv() == env,
            r.mode_spec() == mode,
            r.budget() == crate::nbe::DEFAULT_FUEL,
    {
        TypeChecker { env, nbe: Nbe::new(env, mode) }
    }

    /// The environment the checker operates on.
    pub fn env(&self) -> (r: &'a GlobalEnv)
        ensures
            r == self.genv(),
    {
        self.env
    }

    /// The underlying NbE engine.
    pub fn nbe(&self) -> (r: &Nbe<'a, GlobalEnv>)
        ensures
            r.consts() == self.genv(),
            r.mode_spec() == self.mode_spec(),
            r.budget() == self.budget(),
    {
        proof { use_type_invariant(self); }
        &self.nbe
    }

    // -----------------------------------------------------------------
    // Helpers
    // -----------------------------------------------------------------

    fn eval_in(&self, ctx: &TypedContext, e: &Expr) -> (r: Option<ValRef>)
        ensures
            opt_view(r) == ev(self.genv(), self.mode_spec(), self.budget(), ctx@, e@),
    {
        proof { use_type_invariant(self); }
        self.nbe.eval(&ctx.to_env(), e)
    }

    fn is_def_eq(&self, ctx: &TypedContext, a: &ValRef, b: &ValRef) -> (r: bool)
        ensures
            r == convert_spec(self.genv(), self.mode_spec(), self.budget(), ctx@.len() as usize, (**a)@, (**b)@),
    {
        proof { use_type_invariant(self); }
        self.nbe.convert(ctx.size(), a, b)
    }

    fn format_at(&self, level: usize, v: &ValRef) -> (r: String)
        ensures
            r@ == value_text(self.genv(), self.mode_spec(), self.budget(), level as nat, (**v)@),
    {
        proof { use_type_invariant(self); }
        match self.nbe.quote(level, v) {
            Some(e) => e.describe(),
            None => string_of("?"),
        }
    }

    fn format(&self, ctx: &TypedContext, v: &ValRef) -> (r: String)
        ensures
            r@ == value_text(self.genv(), self.mode_spec(), self.budget(), ctx@.len(), (**v)@),
    {
        self.format_at(ctx.size(), v)
    }
}

impl<'a> TypeChecker<'a> {
    // -----------------------------------------------------------------
    // Inference
    // -----------------------------------------------------------------

    /// Synthesise the type of `e` in the context `ctx`, as [`infer_spec`]
    /// gives it.
    pub fn infer(&self, ctx: &TypedContext, e: &Expr) -> (r: KernelResult<ValRef>)
        ensures
            type_result_view(r) == infer_spec(self.genv(), self.mode_spec(), self.budget(), ctx@, e@),
        decreases e, 2nat,
    {
        proof { use_type_invariant(self); }
        match e {
            Expr::Sort(l) => Ok(sort_value(l.deep_clone().succ().normalize())),
            Expr::Var(idx) => {
                if (idx.0 as usize) < ctx.size() {
                    let (_, ty) = ctx.lookup(*idx);
                    Ok(Rc::clone(ty))
                } else {
                    Err(KernelError::UnboundVariable { index: *idx, context_size: ctx.size() })
                }
            },
            Expr::Const(name, levels) => self.infer_const(*name, levels),
            Expr::App(..) => self.infer_app(ctx, e),
            Expr::Lam(..) => Err(KernelError::CannotInfer {
                reason: string_of(
                    "cannot infer the type of an unannotated λ-abstraction; use `check` with an expected function type",
                ),
            }),
            Expr::Pi(..) => self.infer_pi(ctx, e),
            Expr::Let(..) => self.infer_let(ctx, e),
            Expr::Lit(_) => Err(KernelError::CannotInfer {
                reason: string_of("literals must be desugared by the elaborator before reaching the kernel"),
            }),
        }
    }

    fn infer_const(&self, name: NameId, levels: &Vec<Level>) -> (r: KernelResult<ValRef>)
        ensures
            type_result_view(r) == infer_const_spec(self.genv(), self.mode_spec(), self.budget(), name, levels@),
    {
        proof { use_type_invariant(self); }
        let info = match self.env.find(name) {
            Some(i) => i,
            None => return Err(KernelError::UnknownConstant(name)),
        };
        let params = info.universe_params();
        if levels.len() != params.len() {
            return Err(KernelError::UniverseArityMismatch { name, expected: params.len(), actual: levels.len() });
        }
        let ty = info.ty();
        let r = if params.len() == 0 {
            self.nbe.eval(&NbeEnv::empty(), &**ty)
        } else {
            let actuals = normalize_all(levels);
            let inst = substitute_levels(&**ty, params.as_slice(), actuals.as_slice());
            self.nbe.eval(&NbeEnv::empty(), &inst)
        };
        match r {
            Some(v) => Ok(v),
            None => Err(eval_failure_error()),
        }
    }

    fn infer_app(&self, ctx: &TypedContext, e: &Expr) -> (r: KernelResult<ValRef>)
        requires
            e is App,
        ensures
            type_result_view(r) == infer_spec(self.genv(), self.mode_spec(), self.budget(), ctx@, e@),
        decreases e, 1nat,
    {
        proof { use_type_invariant(self); }
        let (f, a) = match e {
            Expr::App(f, a) => (f, a),
            _ => {
                proof { assert(false); }
                return Err(eval_failure_error());
            },
        };
        let f_ty = match self.infer(ctx, &**f) {
            Ok(v) => v,
            Err(x) => return Err(x),
        };
        proof { lemma_value_view_unfold(&*f_ty); }
        match &*f_ty {
            Value::Pi(_, _, dom, cod) => {
                match self.check(ctx, &**a, dom) {
                    Ok(()) => {},
                    Err(x) => return Err(x),
                }
                let a_v = match self.eval_in(ctx, &**a) {
                    Some(v) => v,
                    None => return Err(eval_failure_error()),
                };
                match self.nbe.apply_closure(cod, a_v) {
                    Some(r) => Ok(r),
                    None => Err(eval_failure_error()),
                }
            },
            _ => Err(KernelError::NotAFunction { found: self.format(ctx, &f_ty) }),
        }
    }

    fn infer_pi(&self, ctx: &TypedContext, e: &Expr) -> (r: KernelResult<ValRef>)
        requires
            e is Pi,
        ensures
            type_result_view(r) == infer_spec(self.genv(), self.mode_spec(), self.budget(), ctx@, e@),
        decreases e, 1nat,
    {
        proof { use_type_invariant(self); }
        let (info, name, dom, cod) = match e {
            Expr::Pi(info, name, dom, cod) => (*info, *name, dom, cod),
            _ => {
                proof { assert(false); }
                return Err(eval_failure_error());
            },
        };
        let dom_ty = match self.infer(ctx, &**dom) {
            Ok(v) => v,
            Err(x) => return Err(x),
        };
        proof { lemma_value_view_unfold(&*dom_ty); }
        let u = match &*dom_ty {
            Value::Sort(l) => l.deep_clone(),
            _ => return Err(KernelError::NotASort { found: self.format(ctx, &dom_ty) }),
        };
        let dom_v = match self.eval_in(ctx, &**dom) {
            Some(v) => v,
            None => return Err(eval_failure_error()),
        };
        let mut ctx2 = ctx.duplicate();
        ctx2.push_binder(LocalDecl::binder(name, info, Rc::new(dom.deep_clone())), dom_v);
        let cod_ty = match self.infer(&ctx2, &**cod) {
            Ok(v) => v,
            Err(x) => return Err(x),
        };
        proof { lemma_value_view_unfold(&*cod_ty); }
        let v = match &*cod_ty {
            Value::Sort(l) => l.deep_clone(),
            _ => return Err(KernelError::NotASort { found: self.format(&ctx2, &cod_ty) }),
        };
        Ok(sort_value(Level::imax(u, v).normalize()))
    }

    fn infer_let(&self, ctx: &TypedContext, e: &Expr) -> (r: KernelResult<ValRef>)
        requires
            e is Let,
        ensures
            type_result_view(r) == infer_spec(self.genv(), self.mode_spec(), self.budget(), ctx@, e@),
        decreases e, 1nat,
    {
        proof { use_type_invariant(self); }
        let (name, ty, val, body) = match e {
            Expr::Let(name, ty, val, body) => (*name, ty, val, body),
            _ => {
                proof { assert(false); }
                return Err(eval_failure_error());
            },
        };
        let ty_ty = match self.infer(ctx, &**ty) {
            Ok(v) => v,
            Err(x) => return Err(x),
        };
        proof { lemma_value_view_unfold(&*ty_ty); }
        match &*ty_ty {
            Value::Sort(_) => {},
            _ => return Err(KernelError::NotASort { found: self.format(ctx, &ty_ty) }),
        }
        let ty_v = match self.eval_in(ctx, &**ty) {
            Some(v) => v,
            None => return Err(eval_failure_error()),
        };
        match self.check(ctx, &**val, &ty_v) {
            Ok(()) => {},
            Err(x) => return Err(x),
        }
        let val_v = match self.eval_in(ctx, &**val) {
            Some(v) => v,
            None => return Err(eval_failure_error()),
        };
        let mut ctx2 = ctx.duplicate();
        ctx2.push_let(
            LocalDecl::let_bound(name, Rc::new(ty.deep_clone()), Rc::new(val.deep_clone())),
            ty_v,
            val_v,
        );
        self.infer(&ctx2, &**body)
    }

    // -----------------------------------------------------------------
    // Checking
    // -----------------------------------------------------------------

    /// Verify that `e` has type `expected` in the context `ctx`, as
    /// [`check_spec`] decides it.
    pub fn check(&self, ctx: &TypedContext, e: &Expr, expected: &ValRef) -> (r: KernelResult<()>)
        ensures
            unit_result_view(r) == check_spec(self.genv(), self.mode_spec(), self.budget(), ctx@, e@, (**expected)@),
        decreases e, 3nat,
    {
        proof { use_type_invariant(self); }
        match e {
            Expr::Lam(..) => self.check_lam(ctx, e, expected),
            _ => {
                let inferred = match self.infer(ctx, e) {
                    Ok(v) => v,
                    Err(x) => return Err(x),
                };
                if self.is_def_eq(ctx, &inferred, expected) {
                    Ok(())
                } else {
                    Err(KernelError::TypeMismatch {
                        expected: self.format(ctx, expected),
                        actual: self.format(ctx, &inferred),
                    })
                }
            },
        }
    }

    fn check_lam(&self, ctx: &TypedContext, e: &Expr, expected: &ValRef) -> (r: KernelResult<()>)
        requires
            e is Lam,
        ensures
            unit_result_view(r) == check_spec(self.genv(), self.mode_spec(), self.budget(), ctx@, e@, (**expected)@),
        decreases e, 1nat,
    {
        proof { use_type_invariant(self); }
        let (info, name, dom_annot, body) = match e {
            Expr::Lam(info, name, dom, body) => (*info, *name, dom, body),
            _ => {
                proof { assert(false); }
                return Err(eval_failure_error());
            },
        };
        proof { lemma_value_view_unfold(&**expected); }
        let (exp_info, dom_exp, cod) = match &**expected {
            Value::Pi(pi_info, _, dom, cod) => (*pi_info, dom, cod),
            _ => {
                return Err(KernelError::TypeMismatch {
                    expected: self.format(ctx, expected),
                    actual: string_of("λ-abstraction"),
                });
            },
        };
        if info != exp_info {
            return Err(KernelError::TypeMismatch { expected: binder_string(exp_info), actual: binder_string(info) });
        }
        let annot_ty = match self.infer(ctx, &**dom_annot) {
            Ok(v) => v,
            Err(x) => return Err(x),
        };
        proof { lemma_value_view_unfold(&*annot_ty); }
        match &*annot_ty {
            Value::Sort(_) => {},
            _ => return Err(KernelError::NotASort { found: self.format(ctx, &annot_ty) }),
        }
        let dom_annot_v = match self.eval_in(ctx, &**dom_annot) {
            Some(v) => v,
            None => return Err(eval_failure_error()),
        };
        if !self.is_def_eq(ctx, &dom_annot_v, dom_exp) {
            return Err(KernelError::TypeMismatch {
                expected: self.format(ctx, dom_exp),
                actual: self.format(ctx, &dom_annot_v),
            });
        }
        let fresh = Value::fresh_var(DbLevel(ctx.size() as u32));
        let mut ctx2 = ctx.duplicate();
        ctx2.push_binder(LocalDecl::binder(name, info, Rc::new(dom_annot.deep_clone())), Rc::clone(dom_exp));
        let expected_body = match self.nbe.apply_closure(cod, fresh) {
            Some(v) => v,
            None => return Err(eval_failure_error()),
        };
        self.check(&ctx2, &**body, &expected_body)
    }

    // -----------------------------------------------------------------
    // Hooks and declarations
    // -----------------------------------------------------------------

    /// The `Prop` singleton-elimination restriction. No recursor reaches
    /// this hook in this version, so every elimination is accepted.
    pub fn check_elimination(&self, inductive: NameId, motive_sort: &Level) -> (r: KernelResult<()>)
        ensures
            r is Ok,
    {
        Ok(())
    }

    /// Check a top-level declaration: its type must be a well-formed type,
    /// and its body, if any, must check against it ([`declaration_spec`]).
    pub fn check_declaration(&self, info: &ConstantInfo) -> (r: KernelResult<()>)
        ensures
            unit_result_view(r) == declaration_spec(self.genv(), self.mode_spec(), self.budget(), *info),
    {
        proof { use_type_invariant(self); }
        let ctx = TypedContext::empty();
        let ty = info.ty();
        let ty_sort = match self.infer(&ctx, &**ty) {
            Ok(v) => v,
            Err(x) => return Err(x),
        };
        proof { lemma_value_view_unfold(&*ty_sort); }
        match &*ty_sort {
            Value::Sort(_) => {},
            _ => return Err(KernelError::NotASort { found: self.format(&ctx, &ty_sort) }),
        }
        match info.body() {
            None => Ok(()),
            Some(body) => {
                let ty_v = match self.eval_in(&ctx, &**ty) {
                    Some(v) => v,
                    None => return Err(eval_failure_error()),
                };
                self.check(&ctx, &**body, &ty_v)
            },
        }
    }
}

// ---------------------------------------------------------------------------
// Laws of contexts
// ---------------------------------------------------------------------------

/// The environment of a context has one value per binder, and the value
/// at de Bruijn index `i` is the one recorded for the binder at position
/// `n - 1 - i`: for a binder pushed by [`TypedContext::push_let`] the
/// bound value, for one pushed by [`TypedContext::push_binder`] the fresh
/// variable at the context size of that push.
pub proof fn lemma_ctx_env_lookup(ctx: Seq<(ValueV, ValueV)>)
    ensures
        ctx_env(ctx).len() == ctx.len(),
        forall|i: int| 0 <= i < ctx.len() ==> #[trigger] ctx_env(ctx)[i] == ctx[ctx.len() - 1 - i].1,
    decreases ctx.len(),
{
    if ctx.len() > 0 {
        lemma_ctx_env_lookup(ctx.drop_last());
    }
}

/// Pushing a binder puts its recorded value at index 0 of the context's
/// environment and moves every other value up by one.
pub proof fn lemma_ctx_env_push(ctx: Seq<(ValueV, ValueV)>, entry: (ValueV, ValueV))
    ensures
        ctx_env(ctx.push(entry)) == seq![entry.1] + ctx_env(ctx),
        ctx_env(ctx.push(entry))[0] == entry.1,
        forall|i: int| 0 <= i < ctx.len() ==> #[trigger] ctx_env(ctx.push(entry))[i + 1] == ctx_env(ctx)[i],
{
    assert(ctx.push(entry).drop_last() =~= ctx);
    lemma_ctx_env_lookup(ctx);
}

/// A binder pushed by [`TypedContext::push_binder`] on a context of size
/// `k` is seen by evaluation, from the context it was pushed on, as the
/// fresh variable at level `k`.
pub proof fn lemma_ctx_env_binder(ctx: Seq<(ValueV, ValueV)>, ty: ValueV)
    ensures
        ctx_env(push_binder_spec(ctx, ty)) == seq![fresh_var_spec(DbLevel(ctx.len() as u32))] + ctx_env(ctx),
{
    lemma_ctx_env_push(ctx, (ty, fresh_var_spec(DbLevel(ctx.len() as u32))));
}

/// The universe of a Π-type: when `Π (x : A). B` has a type, `A` has a
/// type `Sort u`, `B` has a type `Sort v` in the context extended by `x : A`,
/// and the Π-type's type is a sort whose level means, under every
/// assignment of the universe parameters, `0` when `v` means `0` (an
/// impredicative proposition) and otherwise the larger of `u` and `v`.
pub proof fn lemma_infer_pi_universe(
    g: &GlobalEnv,
    m: TransparencyMode,
    f: nat,
    ctx: Seq<(ValueV, ValueV)>,
    info: BinderInfo,
    name: NameId,
    dom: ExprV,
    cod: ExprV,
    rho: spec_fn(UniverseParamId) -> nat,
)
    requires
        infer_spec(g, m, f, ctx, ExprV::Pi(info, name, Box::new(dom), Box::new(cod))) is Ok,
    ensures
        ({
            let r = infer_spec(g, m, f, ctx, ExprV::Pi(info, name, Box::new(dom), Box::new(cod)))->Ok_0;
            let dt = infer_spec(g, m, f, ctx, dom);
            &&& dt is Ok && dt->Ok_0 is Sort
            &&& ev(g, m, f, ctx, dom) is Some
            &&& ({
                let ct = infer_spec(g, m, f, push_binder_spec(ctx, ev(g, m, f, ctx, dom)->Some_0), cod);
                &&& ct is Ok && ct->Ok_0 is Sort
                &&& r is Sort
                &&& ({
                    let u = eval_level(dt->Ok_0->Sort_0, rho);
                    let v = eval_level(ct->Ok_0->Sort_0, rho);
                    eval_level(r->Sort_0, rho) == if v == 0 {
                        0
                    } else if u >= v {
                        u
                    } else {
                        v
                    }
                })
            })
        }),
{
    let dt = infer_spec(g, m, f, ctx, dom);
    let dv = ev(g, m, f, ctx, dom)->Some_0;
    let ct = infer_spec(g, m, f, push_binder_spec(ctx, dv), cod);
    let u = dt->Ok_0->Sort_0;
    let v = ct->Ok_0->Sort_0;
    lemma_norm_preserves_eval(Level::IMax(Box::new(u), Box::new(v)), rho);
}

/// The type of a sort is the next sort up: the level of the type of
/// `Sort l` means, under every assignment, one more than `l`.
pub proof fn lemma_infer_sort_universe(
    g: &GlobalEnv,
    m: TransparencyMode,
    f: nat,
    ctx: Seq<(ValueV, ValueV)>,
    l: Level,
    rho: spec_fn(UniverseParamId) -> nat,
)
    ensures
        infer_spec(g, m, f, ctx, ExprV::Sort(l)) is Ok,
        infer_spec(g, m, f, ctx, ExprV::Sort(l))->Ok_0 is Sort,
        eval_level(infer_spec(g, m, f, ctx, ExprV::Sort(l))->Ok_0->Sort_0, rho) == eval_level(l, rho) + 1,
{
    lemma_norm_preserves_eval(Level::Succ(Box::new(l)), rho);
}

} // verus!
