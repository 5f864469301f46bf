//! Proof erasure and Ghost Type Theory extraction.
//!
//! The extraction pass turns a kernel term into an untyped λ-term,
//! dropping anything that lives in `Prop` or in a designated ghost type.
//!
//! | Class     | Source                                     | Treatment      |
//! |-----------|--------------------------------------------|----------------|
//! | `Prop`    | terms whose type lives in `Sort 0`         | erased to `⋆`  |
//! | `Ghost`   | terms whose type is a marked ghost constant| erased to `⋆`  |
//! | `Compute` | everything else                            | retained       |
//!
//! For a term `t : T`:
//!
//! ```text
//! erase(t : T) =
//!     ⋆                         if T : Prop or T : Ghost
//!     λ x. erase(b)             if t = λ (x : A). b, otherwise
//!     erase(f) erase(a)         if t = f a, otherwise
//!     Var(i)                    if t = Var(i), otherwise
//!     Const(c)                  if t = Const(c) and c is not ghost
//!     Lit(l)                    if t = Lit(l)
//!     ⋆                         if t = Sort(_) or t = Pi(..)
//! ```
//!
//! Binders are never dropped, so the erased program has the arity of the
//! original and de Bruijn indices carry over unchanged. The whole pass is
//! specified by [`erase_spec`], over the typing rules of [`crate::infer`].

use vstd::prelude::*;
use std::collections::BTreeSet;
use std::rc::Rc;
use crate::env::{ConstantInfo, GlobalEnv, LocalDecl};
use crate::error::{KernelError, KernelErrorV, KernelResult};
use crate::expr::{DeBruijnIndex, Expr, ExprV, LitV, Literal};
use crate::infer::{
    TypeChecker, TypedContext, eval_failure, ev, infer_spec, push_binder_spec, scoped, type_result_view,
};
use crate::level::{Level, norm};
use crate::name::{NameId, NameTable};
use crate::nbe::{HeadV, Head, TransparencyMode, ValRef, Value, ValueV, lemma_value_view_unfold, opt_view, quote_spec};
use crate::text::{decimal, hash_decimal, push_decimal, push_hash_decimal, string_of};
use vstd::string::StringExecFns;

verus! {

broadcast use {vstd::laws_cmp::group_laws_cmp, vstd::std_specs::btree::group_btree_axioms};

// ---------------------------------------------------------------------------
// ErasureSort
// ---------------------------------------------------------------------------

/// The erasure class of a term.
#[derive(Clone, Copy, Debug, PartialEq, Eq, Hash, Structural)]
pub enum ErasureSort {
    /// Proof-irrelevant: the term lives in `Prop` and is erased.
    Prop,
    /// Computationally irrelevant: the term lives in a marked ghost type
    /// and is erased.
    GhostData,
    /// Computational data: retained.
    Compute,
}

impl ErasureSort {
    /// `true` iff the class is erased at extraction.
    pub fn is_erased(self) -> (r: bool)
        ensures
            r == (self is Prop || self is GhostData),
    {
        match self {
            ErasureSort::Prop | ErasureSort::GhostData => true,
            ErasureSort::Compute => false,
        }
    }
}

// ---------------------------------------------------------------------------
// ErasureEnv
// ---------------------------------------------------------------------------

/// The client's view of which constants are computationally irrelevant.
/// Clients that want to mark definitions or inductives as ghost implement
/// this trait; [`PropOnlyErasureEnv`] marks nothing and erases only proofs.
pub trait ErasureEnv {
    /// The constants marked ghost.
    spec fn ghost_spec(&self, name: NameId) -> bool;

    /// `true` iff `name` names a ghost constant.
    fn is_ghost(&self, name: NameId) -> (r: bool)
        ensures
            r == self.ghost_spec(name),
    ;
}

/// The trivial erasure environment: erases only proofs.
#[derive(Debug, Clone, Copy)]
pub struct PropOnlyErasureEnv;

impl ErasureEnv for PropOnlyErasureEnv {
    open spec fn ghost_spec(&self, name: NameId) -> bool {
        false
    }

    fn is_ghost(&self, name: NameId) -> (r: bool) {
        false
    }
}

impl Default for PropOnlyErasureEnv {
    fn default() -> (r: Self)
        ensures
            r == PropOnlyErasureEnv,
    {
        PropOnlyErasureEnv
    }
}

/// An erasure environment that marks a fixed set of names as ghost.
#[derive(Debug, Clone)]
pub struct GhostSet {
    ghosts: BTreeSet<u32>,
}

impl View for GhostSet {
    /// The raw identifiers of the marked names.
    type V = Set<u32>;

    closed spec fn view(&self) -> Set<u32> {
        self.ghosts@
    }
}

impl GhostSet {
    /// An empty ghost set.
    pub fn new() -> (r: Self)
        ensures
            r@ == Set::<u32>::empty(),
    {
        GhostSet { ghosts: BTreeSet::new() }
    }

    /// Mark a constant as ghost.
    pub fn mark(&mut self, name: NameId)
        ensures
            final(self)@ == old(self)@.insert(name.0),
    {
        self.ghosts.insert(name.0);
    }

    /// Remove a ghost marking.
    pub fn unmark(&mut self, name: NameId)
        ensures
            final(self)@ == old(self)@.remove(name.0),
    {
        self.ghosts.remove(&name.0);
    }

    /// Number of marked names.
    pub fn len(&self) -> (r: usize)
        ensures
            r == self@.len(),
    {
        self.ghosts.len()
    }

    /// `true` iff no names are marked.
    pub fn is_empty(&self) -> (r: bool)
        ensures
            r == (self@.len() == 0),
    {
        self.ghosts.len() == 0
    }
}

impl Default for GhostSet {
    fn default() -> (r: Self)
        ensures
            r@ == Set::<u32>::empty(),
    {
        GhostSet::new()
    }
}

impl ErasureEnv for GhostSet {
    open spec fn ghost_spec(&self, name: NameId) -> bool {
        self@.contains(name.0)
    }

    fn is_ghost(&self, name: NameId) -> (r: bool) {
        self.ghosts.contains(&name.0)
    }
}

// ---------------------------------------------------------------------------
// LValue — the untyped target
// ---------------------------------------------------------------------------

/// An untyped λ-term, the target of erasure. Variables are de Bruijn
/// indices, matching the source term's.
#[derive(Debug, PartialEq, Eq)]
pub enum LValue {
    /// The erased placeholder `⋆`.
    Star,
    /// A variable, by de Bruijn index.
    Var(DeBruijnIndex),
    /// A function `λ _. body`.
    Lam(Box<LValue>),
    /// An application `f a`.
    App(Box<LValue>, Box<LValue>),
    /// A reference to a top-level constant.
    Const(NameId),
    /// A literal.
    Lit(Literal),
}

/// The abstract value of an [`LValue`].
pub enum LValueV {
    /// See [`LValue::Star`].
    Star,
    /// See [`LValue::Var`].
    Var(DeBruijnIndex),
    /// See [`LValue::Lam`].
    Lam(Box<LValueV>),
    /// See [`LValue::App`].
    App(Box<LValueV>, Box<LValueV>),
    /// See [`LValue::Const`].
    Const(NameId),
    /// See [`LValue::Lit`].
    Lit(LitV),
}

/// The abstract value of `l`.
pub open spec fn lvalue_view(l: LValue) -> LValueV
    decreases l,
{
    match l {
        LValue::Star => LValueV::Star,
        LValue::Var(i) => LValueV::Var(i),
        LValue::Lam(b) => LValueV::Lam(Box::new(lvalue_view(*b))),
        LValue::App(f, a) => LValueV::App(Box::new(lvalue_view(*f)), Box::new(lvalue_view(*a))),
        LValue::Const(n) => LValueV::Const(n),
        LValue::Lit(l) => LValueV::Lit(l@),
    }
}

impl View for LValue {
    type V = LValueV;

    open spec fn view(&self) -> LValueV {
        lvalue_view(*self)
    }
}

/// Total syntactic size.
pub open spec fn lvalue_size(l: LValueV) -> nat
    decreases l,
{
    match l {
        LValueV::Lam(b) => 1 + lvalue_size(*b),
        LValueV::App(f, a) => 1 + lvalue_size(*f) + lvalue_size(*a),
        _ => 1,
    }
}

/// `true` iff the term contains no `⋆`.
pub open spec fn star_free(l: LValueV) -> bool
    decreases l,
{
    match l {
        LValueV::Star => false,
        LValueV::Lam(b) => star_free(*b),
        LValueV::App(f, a) => star_free(*f) && star_free(*a),
        _ => true,
    }
}

/// `true` iff every constant of the term is interned in a table of `n`
/// names.
pub open spec fn consts_below(l: LValueV, n: nat) -> bool
    decreases l,
{
    match l {
        LValueV::Const(c) => c.0 < n,
        LValueV::Lam(b) => consts_below(*b, n),
        LValueV::App(f, a) => consts_below(*f, n) && consts_below(*a, n),
        _ => true,
    }
}

/// The text of a literal inside a rendered term.
pub open spec fn lit_render(l: LitV) -> Seq<char> {
    match l {
        LitV::Nat(n) => decimal(n as nat),
        LitV::Str(s) => "\""@ + s + "\""@,
    }
}

/// The rendering of a term, resolving constants through the table
/// `names`: `⋆`, `#i`, the constant's name, the literal, `(λ b)` and
/// `(f a)`.
pub open spec fn render_text(l: LValueV, names: Seq<Seq<char>>) -> Seq<char>
    decreases l,
{
    match l {
        LValueV::Star => "⋆"@,
        LValueV::Var(i) => hash_decimal(i.0 as nat),
        LValueV::Const(c) => names[c.0 as int],
        LValueV::Lit(x) => lit_render(x),
        LValueV::Lam(b) => "(λ "@ + render_text(*b, names) + ")"@,
        LValueV::App(f, a) => "("@ + render_text(*f, names) + " "@ + render_text(*a, names) + ")"@,
    }
}

/// The rendering without a name table: constants as `c<n>`.
pub open spec fn plain_text(l: LValueV) -> Seq<char>
    decreases l,
{
    match l {
        LValueV::Star => "⋆"@,
        LValueV::Var(i) => hash_decimal(i.0 as nat),
        LValueV::Const(c) => "c"@ + decimal(c.0 as nat),
        LValueV::Lit(x) => lit_render(x),
        LValueV::Lam(b) => "(λ "@ + plain_text(*b) + ")"@,
        LValueV::App(f, a) => "("@ + plain_text(*f) + " "@ + plain_text(*a) + ")"@,
    }
}

/// Append the literal's text to `out`.
fn push_lit(out: &mut String, l: &Literal)
    ensures
        final(out)@ == old(out)@ + lit_render(l@),
{
    match l {
        Literal::Nat(n) => push_decimal(out, *n),
        Literal::Str(s) => {
            out.append("\"");
            out.append(s.as_str());
            out.append("\"");
            assert(final(out)@ =~= old(out)@ + lit_render(l@));
        },
    }
}

impl LValue {
    /// `true` iff the term is the erased placeholder.
    pub fn is_star(&self) -> (r: bool)
        ensures
            r == (self@ is Star),
    {
        match self {
            LValue::Star => true,
            _ => false,
        }
    }

    /// Total syntactic size.
    pub fn size(&self) -> (r: usize)
        requires
            lvalue_size(self@) <= usize::MAX,
        ensures
            r == lvalue_size(self@),
        decreases self,
    {
        match self {
            LValue::Lam(b) => 1 + b.size(),
            LValue::App(f, a) => 1 + f.size() + a.size(),
            _ => 1,
        }
    }

    /// `true` iff the erased term contains no `⋆`: nothing was erased
    /// inside it.
    pub fn is_star_free(&self) -> (r: bool)
        ensures
            r == star_free(self@),
        decreases self,
    {
        match self {
            LValue::Star => false,
            LValue::Lam(b) => b.is_star_free(),
            LValue::App(f, a) => f.is_star_free() && a.is_star_free(),
            _ => true,
        }
    }

    /// A structural copy.
    pub fn deep_clone(&self) -> (r: LValue)
        ensures
            r@ == self@,
        decreases self,
    {
        match self {
            LValue::Star => LValue::Star,
            LValue::Var(i) => LValue::Var(*i),
            LValue::Lam(b) => LValue::Lam(Box::new(b.deep_clone())),
            LValue::App(f, a) => LValue::App(Box::new(f.deep_clone()), Box::new(a.deep_clone())),
            LValue::Const(n) => LValue::Const(*n),
            LValue::Lit(l) => LValue::Lit(l.clone()),
        }
    }

    /// Render the term, resolving constants through `names`.
    pub fn render(&self, names: &NameTable) -> (r: String)
        requires
            consts_below(self@, names@.len()),
        ensures
            r@ == render_text(self@, names@),
    {
        let mut out = String::new();
        self.render_into(names, &mut out);
        assert(out@ =~= render_text(self@, names@));
        out
    }

    fn render_into(&self, names: &NameTable, out: &mut String)
        requires
            consts_below(self@, names@.len()),
        ensures
            final(out)@ == old(out)@ + render_text(self@, names@),
        decreases self,
    {
        match self {
            LValue::Star => out.append("⋆"),
            LValue::Var(idx) => push_hash_decimal(out, idx.0 as u64),
            LValue::Const(name) => out.append(names.resolve(*name)),
            LValue::Lit(l) => push_lit(out, l),
            LValue::Lam(body) => {
                out.append("(λ ");
                body.render_into(names, out);
                out.append(")");
            },
            LValue::App(f, a) => {
                out.append("(");
                f.render_into(names, out);
                out.append(" ");
                a.render_into(names, out);
                out.append(")");
            },
        }
        assert(final(out)@ =~= old(out)@ + render_text(self@, names@));
    }

    /// The rendering without a name table ([`plain_text`]).
    pub fn describe(&self) -> (r: String)
        ensures
            r@ == plain_text(self@),
    {
        let mut out = String::new();
        self.describe_into(&mut out);
        assert(out@ =~= plain_text(self@));
        out
    }

    fn describe_into(&self, out: &mut String)
        ensures
            final(out)@ == old(out)@ + plain_text(self@),
        decreases self,
    {
        match self {
            LValue::Star => out.append("⋆"),
            LValue::Var(idx) => push_hash_decimal(out, idx.0 as u64),
            LValue::Const(name) => {
                out.append("c");
                push_decimal(out, name.0 as u64);
            },
            LValue::Lit(l) => push_lit(out, l),
            LValue::Lam(body) => {
                out.append("(λ ");
                body.describe_into(out);
                out.append(")");
            },
            LValue::App(f, a) => {
                out.append("(");
                f.describe_into(out);
                out.append(" ");
                a.describe_into(out);
                out.append(")");
            },
        }
        assert(final(out)@ =~= old(out)@ + plain_text(self@));
    }
}

impl Clone for LValue {
    fn clone(&self) -> (r: Self)
        ensures
            r@ == self@,
    {
        self.deep_clone()
    }
}

// ---------------------------------------------------------------------------
// The erasure rules
// ---------------------------------------------------------------------------

/// The erasure class of the inhabitants of the semantic type `ty`: a sort
/// is computational, a type headed by a ghost constant is ghost, and
/// otherwise the type is read back and its own type inferred: a type in
/// `Sort 0` is a proposition, whose proofs are erased.
pub open spec fn classify_ty_spec<E: ErasureEnv>(
    g: &GlobalEnv,
    m: TransparencyMode,
    f: nat,
    ee: &E,
    ctx: Seq<(ValueV, ValueV)>,
    ty: ValueV,
) -> Result<ErasureSort, KernelErrorV> {
    if ty is Sort {
        Ok(ErasureSort::Compute)
    } else if ty is Neutral && ty->Neutral_0 is Const && ee.ghost_spec(ty->Neutral_0->Const_0) {
        Ok(ErasureSort::GhostData)
    } else {
        match quote_spec(g, m, f, ctx.len() as usize, ty) {
            None => Err(eval_failure()),
            Some(te) => match infer_spec(g, m, f, ctx, te) {
                Err(x) => Err(x),
                Ok(k) => if k is Sort && norm(k->Sort_0) == Level::Zero {
                    Ok(ErasureSort::Prop)
                } else {
                    Ok(ErasureSort::Compute)
                },
            },
        }
    }
}

/// The erasure class of `e`: a λ-abstraction by its body; a ghost
/// constant is ghost; otherwise by its inferred type, and computational
/// when no type can be inferred.
#[verifier::opaque]
pub open spec fn classify_spec<E: ErasureEnv>(
    g: &GlobalEnv,
    m: TransparencyMode,
    f: nat,
    ee: &E,
    ctx: Seq<(ValueV, ValueV)>,
    e: ExprV,
) -> Result<ErasureSort, KernelErrorV>
    decreases e,
{
    match e {
        ExprV::Lam(_, _, dom, body) => match ev(g, m, f, ctx, *dom) {
            None => Err(eval_failure()),
            Some(dv) => classify_spec(g, m, f, ee, push_binder_spec(ctx, dv), *body),
        },
        _ => if e is Const && ee.ghost_spec(e->Const_0) {
            Ok(ErasureSort::GhostData)
        } else {
            match infer_spec(g, m, f, ctx, e) {
                Err(_) => Ok(ErasureSort::Compute),
                Ok(ty) => classify_ty_spec(g, m, f, ee, ctx, ty),
            }
        },
    }
}

/// The erasure of `e` in `ctx`.
pub open spec fn erase_spec<E: ErasureEnv>(
    g: &GlobalEnv,
    m: TransparencyMode,
    f: nat,
    ee: &E,
    ctx: Seq<(ValueV, ValueV)>,
    e: ExprV,
) -> Result<LValueV, KernelErrorV>
    decreases e, 1nat,
{
    match e {
        ExprV::Sort(_) | ExprV::Pi(..) => Ok(LValueV::Star),
        ExprV::Lit(l) => Ok(LValueV::Lit(l)),
        _ => match classify_spec(g, m, f, ee, ctx, e) {
            Err(x) => Err(x),
            Ok(s) => if s is Prop || s is GhostData {
                Ok(LValueV::Star)
            } else {
                erase_compute_spec(g, m, f, ee, ctx, e)
            },
        },
    }
}

/// The erasure of a term classified as computational.
pub open spec fn erase_compute_spec<E: ErasureEnv>(
    g: &GlobalEnv,
    m: TransparencyMode,
    f: nat,
    ee: &E,
    ctx: Seq<(ValueV, ValueV)>,
    e: ExprV,
) -> Result<LValueV, KernelErrorV>
    decreases e, 0nat,
{
    match e {
        ExprV::Sort(_) | ExprV::Pi(..) => Ok(LValueV::Star),
        ExprV::Var(i) => Ok(LValueV::Var(i)),
        ExprV::Const(n, _) => if ee.ghost_spec(n) {
            Ok(LValueV::Star)
        } else {
            Ok(LValueV::Const(n))
        },
        ExprV::App(fun, a) => match erase_spec(g, m, f, ee, ctx, *fun) {
            Err(x) => Err(x),
            Ok(fl) => match erase_spec(g, m, f, ee, ctx, *a) {
                Err(x) => Err(x),
                Ok(al) => Ok(LValueV::App(Box::new(fl), Box::new(al))),
            },
        },
        ExprV::Lam(_, _, dom, body) => match ev(g, m, f, ctx, *dom) {
            None => Err(eval_failure()),
            Some(dv) => match erase_spec(g, m, f, ee, push_binder_spec(ctx, dv), *body) {
                Err(x) => Err(x),
                Ok(bl) => Ok(LValueV::Lam(Box::new(bl))),
            },
        },
        ExprV::Let(_, t, v, b) => match erase_spec(g, m, f, ee, ctx, *v) {
            Err(x) => Err(x),
            Ok(vl) => match ev(g, m, f, ctx, *t) {
                None => Err(eval_failure()),
                Some(tv) => match ev(g, m, f, ctx, *v) {
                    None => Err(eval_failure()),
                    Some(vv) => match erase_spec(g, m, f, ee, ctx.push((tv, vv)), *b) {
                        Err(x) => Err(x),
                        Ok(bl) => Ok(LValueV::App(Box::new(LValueV::Lam(Box::new(bl))), Box::new(vl))),
                    },
                },
            },
        },
        ExprV::Lit(l) => Ok(LValueV::Lit(l)),
    }
}

/// The abstract value of an erasure result.
pub open spec fn erase_result_view(r: KernelResult<LValue>) -> Result<LValueV, KernelErrorV> {
    match r {
        Ok(l) => Ok(l@),
        Err(x) => Err(x@),
    }
}

/// The abstract value of a classification result.
pub open spec fn sort_result_view(r: KernelResult<ErasureSort>) -> Result<ErasureSort, KernelErrorV> {
    match r {
        Ok(s) => Ok(s),
        Err(x) => Err(x@),
    }
}

// ---------------------------------------------------------------------------
// Eraser
// ---------------------------------------------------------------------------

/// The erasure pass: a type checker consulted for each subterm to decide
/// whether it is a proof, ghost or computational data.
pub struct Eraser<'a, E: ErasureEnv> {
    env: &'a GlobalEnv,
    erasure_env: &'a E,
    checker: TypeChecker<'a>,
}

impl<'a, E: ErasureEnv> Eraser<'a, E> {
    #[verifier::type_invariant]
    spec fn inv(self) -> bool {
        self.checker.genv() == self.env
    }

    /// The kernel environment.
    pub closed spec fn genv(&self) -> &'a GlobalEnv {
        self.env
    }

    /// The erasure environment.
    pub closed spec fn ghosts(&self) -> &'a E {
        self.erasure_env
    }

    /// The transparency mode of the type checker.
    pub closed spec fn mode_spec(&self) -> TransparencyMode {
        self.checker.mode_spec()
    }

    /// The budget of the type checker's NbE calls.
    pub closed spec fn budget(&self) -> nat {
        self.checker.budget()
    }

    /// Build an eraser over `env` with the default checker.
    pub fn new(env: &'a GlobalEnv, erasure_env: &'a E) -> (r: Self)
        ensures
            r.genv() == env,
            r.ghosts() == erasure_env,
            r.mode_spec() == TransparencyMode::Semireducible,
            r.budget() == crate::nbe::DEFAULT_FUEL,
    {
        Eraser { env, erasure_env, checker: TypeChecker::new(env) }
    }

    /// The kernel environment.
    pub fn env(&self) -> (r: &'a GlobalEnv)
        ensures
            r == self.genv(),
    {
        self.env
    }

    /// The erasure environment.
    pub fn erasure_env(&self) -> (r: &'a E)
        ensures
            r == self.ghosts(),
    {
        self.erasure_env
    }

    /// Evaluate `e` in `ctx`.
    fn eval_in(&self, ctx: &TypedContext, e: &Expr) -> (r: Option<ValRef>)
        ensures
            opt_view(r) == ev(self.genv(), self.mode_spec(), self.budget(), ctx@, e@),
    {
        proof { use_type_invariant(self); }
        self.checker.nbe().eval(&ctx.to_env(), e)
    }

    // -----------------------------------------------------------------
    // Public entry points
    // -----------------------------------------------------------------

    /// Erase `e` in the context `ctx`, as [`erase_spec`] describes.
    pub fn erase(&self, ctx: &TypedContext, e: &Expr) -> (r: KernelResult<LValue>)
        ensures
            erase_result_view(r) == erase_spec(self.genv(), self.mode_spec(), self.budget(), self.ghosts(), ctx@, e@),
        decreases e, 2nat,
    {
        match e {
            Expr::Sort(_) | Expr::Pi(..) => return Ok(LValue::Star),
            Expr::Lit(l) => return Ok(LValue::Lit(l.clone())),
            _ => {},
        }
        let sort = match self.classify(ctx, e) {
            Ok(s) => s,
            Err(x) => return Err(x),
        };
        if sort.is_erased() {
            return Ok(LValue::Star);
        }
        self.erase_compute(ctx, e)
    }

    /// Erase the body of a top-level declaration: `Some` of the erased
    /// body for a definition, `Some(⋆)` for a theorem, `None` for every
    /// other kind.
    pub fn erase_declaration(&self, info: &ConstantInfo) -> (r: KernelResult<Option<LValue>>)
        ensures
            match *info {
                ConstantInfo::Definition(d) => match erase_spec(
                    self.genv(),
                    self.mode_spec(),
                    self.budget(),
                    self.ghosts(),
                    Seq::empty(),
                    (*d.body)@,
                ) {
                    Ok(l) => r is Ok && r->Ok_0 is Some && r->Ok_0->Some_0@ == l,
                    Err(x) => r is Err && r->Err_0@ == x,
                },
                ConstantInfo::Theorem(_) => r is Ok && r->Ok_0 is Some && r->Ok_0->Some_0@ is Star,
                _ => r is Ok && r->Ok_0 is None,
            },
    {
        match info {
            ConstantInfo::Definition(d) => {
                let ctx = TypedContext::empty();
                match self.erase(&ctx, &d.body) {
                    Ok(l) => Ok(Some(l)),
                    Err(x) => Err(x),
                }
            },
            ConstantInfo::Theorem(_) => Ok(Some(LValue::Star)),
            _ => Ok(None),
        }
    }

    // -----------------------------------------------------------------
    // Classification
    // -----------------------------------------------------------------

    fn classify(&self, ctx: &TypedContext, e: &Expr) -> (r: KernelResult<ErasureSort>)
        ensures
            sort_result_view(r) == classify_spec(self.genv(), self.mode_spec(), self.budget(), self.ghosts(), ctx@, e@),
        decreases e,
    {
        proof {
            use_type_invariant(self);
            reveal(classify_spec);
        }
        if let Expr::Lam(info, name, dom, body) = e {
            let dom_v = match self.eval_in(ctx, &**dom) {
                Some(v) => v,
                None => return Err(KernelError::Internal(string_of("evaluation produced no value"))),
            };
            let mut ctx2 = ctx.duplicate();
            ctx2.push_binder(LocalDecl::binder(*name, *info, Rc::new(dom.deep_clone())), dom_v);
            return self.classify(&ctx2, &**body);
        }
        if let Expr::Const(name, _) = e {
            if self.erasure_env.is_ghost(*name) {
                return Ok(ErasureSort::GhostData);
            }
        }
        let ty = match self.checker.infer(ctx, e) {
            Ok(ty) => ty,
            Err(_) => return Ok(ErasureSort::Compute),
        };
        self.classify_ty(ctx, &ty)
    }

    fn classify_ty(&self, ctx: &TypedContext, ty: &ValRef) -> (r: KernelResult<ErasureSort>)
        ensures
            sort_result_view(r) == classify_ty_spec(
                self.genv(),
                self.mode_spec(),
                self.budget(),
                self.ghosts(),
                ctx@,
                (**ty)@,
            ),
    {
        proof {
            use_type_invariant(self);
            lemma_value_view_unfold(&**ty);
        }
        if let Value::Sort(_) = &**ty {
            return Ok(ErasureSort::Compute);
        }
        if let Value::Neutral(Head::Const(name, _), _) = &**ty {
            if self.erasure_env.is_ghost(*name) {
                return Ok(ErasureSort::GhostData);
            }
        }
        let ty_expr = match self.checker.nbe().quote(ctx.size(), ty) {
            Some(t) => t,
            None => return Err(KernelError::Internal(string_of("evaluation produced no value"))),
        };
        let kind = match self.checker.infer(ctx, &ty_expr) {
            Ok(k) => k,
            Err(x) => return Err(x),
        };
        proof { lemma_value_view_unfold(&*kind); }
        match &*kind {
            Value::Sort(l) => {
                if l.normalize().is_zero() {
                    Ok(ErasureSort::Prop)
                } else {
                    Ok(ErasureSort::Compute)
                }
            },
            _ => Ok(ErasureSort::Compute),
        }
    }

    // -----------------------------------------------------------------
    // Erasure of computational terms
    // -----------------------------------------------------------------

    fn erase_compute(&self, ctx: &TypedContext, e: &Expr) -> (r: KernelResult<LValue>)
        ensures
            erase_result_view(r) == erase_compute_spec(
                self.genv(),
                self.mode_spec(),
                self.budget(),
                self.ghosts(),
                ctx@,
                e@,
            ),
        decreases e, 1nat,
    {
        proof { use_type_invariant(self); }
        match e {
            Expr::Sort(_) | Expr::Pi(..) => Ok(LValue::Star),
            Expr::Var(idx) => Ok(LValue::Var(*idx)),
            Expr::Const(name, _) => {
                if self.erasure_env.is_ghost(*name) {
                    Ok(LValue::Star)
                } else {
                    Ok(LValue::Const(*name))
                }
            },
            Expr::App(f, a) => {
                let f_lv = match self.erase(ctx, &**f) {
                    Ok(l) => l,
                    Err(x) => return Err(x),
                };
                let a_lv = match self.erase(ctx, &**a) {
                    Ok(l) => l,
                    Err(x) => return Err(x),
                };
                Ok(LValue::App(Box::new(f_lv), Box::new(a_lv)))
            },
            Expr::Lam(..) => self.erase_lam(ctx, e),
            Expr::Let(..) => self.erase_let(ctx, e),
            Expr::Lit(l) => Ok(LValue::Lit(l.clone())),
        }
    }

    fn erase_lam(&self, ctx: &TypedContext, e: &Expr) -> (r: KernelResult<LValue>)
        requires
            e is Lam,
        ensures
            erase_result_view(r) == erase_compute_spec(
                self.genv(),
                self.mode_spec(),
                self.budget(),
                self.ghosts(),
                ctx@,
                e@,
            ),
        decreases e, 0nat,
    {
        proof { use_type_invariant(self); }
        match e {
            Expr::Lam(info, name, dom, body) => {
                let dom_v = match self.eval_in(ctx, &**dom) {
                    Some(v) => v,
                    None => return Err(KernelError::Internal(string_of("evaluation produced no value"))),
                };
                let mut ctx2 = ctx.duplicate();
                ctx2.push_binder(LocalDecl::binder(*name, *info, Rc::new(dom.deep_clone())), dom_v);
                let body_lv = match self.erase(&ctx2, &**body) {
                    Ok(l) => l,
                    Err(x) => return Err(x),
                };
                Ok(LValue::Lam(Box::new(body_lv)))
            },
            _ => {
                proof { assert(false); }
                Ok(LValue::Star)
            },
        }
    }

    fn erase_let(&self, ctx: &TypedContext, e: &Expr) -> (r: KernelResult<LValue>)
        requires
            e is Let,
        ensures
            erase_result_view(r) == erase_compute_spec(
                self.genv(),
                self.mode_spec(),
                self.budget(),
                self.ghosts(),
                ctx@,
                e@,
            ),
        decreases e, 0nat,
    {
        proof { use_type_invariant(self); }
        match e {
            Expr::Let(name, ty, val, body) => {
                let val_lv = match self.erase(ctx, &**val) {
                    Ok(l) => l,
                    Err(x) => return Err(x),
                };
                let ty_v = match self.eval_in(ctx, &**ty) {
                    Some(v) => v,
                    None => return Err(KernelError::Internal(string_of("evaluation produced no value"))),
                };
                let val_v = match self.eval_in(ctx, &**val) {
                    Some(v) => v,
                    None => return Err(KernelError::Internal(string_of("evaluation produced no value"))),
                };
                let mut ctx2 = ctx.duplicate();
                ctx2.push_let(
                    LocalDecl::let_bound(*name, Rc::new(ty.deep_clone()), Rc::new(val.deep_clone())),
                    ty_v,
                    val_v,
                );
                let body_lv = match self.erase(&ctx2, &**body) {
                    Ok(l) => l,
                    Err(x) => return Err(x),
                };
                let lam = LValue::Lam(Box::new(body_lv));
                assert(lam@ == LValueV::Lam(Box::new(body_lv@)));
                Ok(LValue::App(Box::new(lam), Box::new(val_lv)))
            },
            _ => {
                proof { assert(false); }
                Ok(LValue::Star)
            },
        }
    }

}

/// Erase a closed expression with a default eraser over `env`.
pub fn erase_closed<E: ErasureEnv>(env: &GlobalEnv, erasure_env: &E, e: &Expr) -> (r: KernelResult<LValue>)
    ensures
        erase_result_view(r) == erase_spec(
            env,
            TransparencyMode::Semireducible,
            crate::nbe::DEFAULT_FUEL as nat,
            erasure_env,
            Seq::empty(),
            e@,
        ),
{
    let eraser = Eraser::new(env, erasure_env);
    let ctx = TypedContext::empty();
    eraser.erase(&ctx, e)
}

// ---------------------------------------------------------------------------
// Laws of erasure
// ---------------------------------------------------------------------------

/// Every variable of `l` is bound within `n` enclosing binders (counting
/// its own λs).
pub open spec fn lvalue_scoped(l: LValueV, n: nat) -> bool
    decreases l,
{
    match l {
        LValueV::Var(i) => i.0 < n,
        LValueV::Lam(b) => lvalue_scoped(*b, n + 1),
        LValueV::App(fun, a) => lvalue_scoped(*fun, n) && lvalue_scoped(*a, n),
        _ => true,
    }
}

/// Erasure keeps the binder structure: a term whose variables are bound
/// within `n` binders erases to a term whose variables are too (indices
/// are never shifted), and a λ-abstraction erases to `⋆` or to a λ.
pub proof fn lemma_erase_scoped<E: ErasureEnv>(
    g: &GlobalEnv,
    m: TransparencyMode,
    f: nat,
    ee: &E,
    ctx: Seq<(ValueV, ValueV)>,
    e: ExprV,
    n: nat,
)
    requires
        scoped(e, n),
    ensures
        erase_spec(g, m, f, ee, ctx, e) is Ok ==> lvalue_scoped(erase_spec(g, m, f, ee, ctx, e)->Ok_0, n),
        e is Lam && erase_spec(g, m, f, ee, ctx, e) is Ok ==> {
            ||| erase_spec(g, m, f, ee, ctx, e)->Ok_0 is Star
            ||| erase_spec(g, m, f, ee, ctx, e)->Ok_0 is Lam
        },
    decreases e, 1nat,
{
    match e {
        ExprV::Sort(_) | ExprV::Pi(..) | ExprV::Lit(_) => {},
        _ => {
            lemma_erase_compute_scoped(g, m, f, ee, ctx, e, n);
        },
    }
}

/// [`lemma_erase_scoped`] for a term classified as computational.
pub proof fn lemma_erase_compute_scoped<E: ErasureEnv>(
    g: &GlobalEnv,
    m: TransparencyMode,
    f: nat,
    ee: &E,
    ctx: Seq<(ValueV, ValueV)>,
    e: ExprV,
    n: nat,
)
    requires
        scoped(e, n),
    ensures
        erase_compute_spec(g, m, f, ee, ctx, e) is Ok ==> lvalue_scoped(erase_compute_spec(g, m, f, ee, ctx, e)->Ok_0, n),
        e is Lam && erase_compute_spec(g, m, f, ee, ctx, e) is Ok ==> erase_compute_spec(g, m, f, ee, ctx, e)->Ok_0 is Lam,
    decreases e, 0nat,
{
    match e {
        ExprV::App(fun, a) => {
            lemma_erase_scoped(g, m, f, ee, ctx, *fun, n);
            lemma_erase_scoped(g, m, f, ee, ctx, *a, n);
        },
        ExprV::Lam(_, _, dom, body) => {
            match ev(g, m, f, ctx, *dom) {
                None => {},
                Some(dv) => {
                    lemma_erase_scoped(g, m, f, ee, push_binder_spec(ctx, dv), *body, n + 1);
                },
            }
        },
        ExprV::Let(_, t, v, b) => {
            lemma_erase_scoped(g, m, f, ee, ctx, *v, n);
            match (ev(g, m, f, ctx, *t), ev(g, m, f, ctx, *v)) {
                (Some(tv), Some(vv)) => {
                    lemma_erase_scoped(g, m, f, ee, ctx.push((tv, vv)), *b, n + 1);
                    let rb = erase_spec(g, m, f, ee, ctx.push((tv, vv)), *b);
                    if rb is Ok {
                        assert(lvalue_scoped(LValueV::Lam(Box::new(rb->Ok_0)), n));
                    }
                },
                _ => {},
            }
        },
        _ => {},
    }
}

} // verus!
