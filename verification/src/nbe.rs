//! Normalization by Evaluation (NbE) engine.
//!
//! Three mutually recursive services:
//!
//! 1. [`Nbe::eval`] evaluates a syntactic [`Expr`] in a semantic [`Env`]
//!    into a [`Value`];
//! 2. [`Nbe::quote`] reads a [`Value`] back into an [`Expr`] at a given
//!    context size;
//! 3. [`Nbe::convert`] decides definitional equality of two values up to
//!    β, δ, ι and η.
//!
//! Values use de Bruijn levels, terms de Bruijn indices; closures are
//! defunctionalized (a body paired with an environment), and environments
//! are persistent lists behind `Rc`.
//!
//! Evaluation of an untyped term need not terminate, so every service runs
//! on a budget: each nested call spends one unit, and a computation that
//! runs out of budget, applies a non-function or reads an unbound variable
//! fails (`None`, or `false` for conversion) instead of diverging or
//! panicking. The meaning of every service is given by the spec functions
//! of this module over the abstract values [`ValueV`].

use vstd::prelude::*;
use std::rc::Rc;
use crate::expr::{BinderInfo, DeBruijnIndex, Expr, ExprV, LitV, Literal, clone_levels, same_levels};
use crate::level::{Level, UniverseParamId, eval_level, lemma_norm_preserves_eval, norm};
use crate::name::NameId;
use crate::text::{decimal, push_decimal, string_of};
use vstd::string::StringExecFns;

verus! {

// ---------------------------------------------------------------------------
// De Bruijn levels
// ---------------------------------------------------------------------------

/// A de Bruijn level: counts binders from the outermost.
#[derive(Clone, Copy, Debug, PartialEq, Eq, Hash, PartialOrd, Ord, Structural)]
pub struct DbLevel(pub u32);

impl DbLevel {
    /// The outermost level.
    pub fn zero() -> (r: Self)
        ensures
            r.0 == 0,
    {
        DbLevel(0)
    }

    /// The next level inward.
    pub fn succ(self) -> (r: Self)
        requires
            self.0 < u32::MAX,
        ensures
            r.0 == self.0 + 1,
    {
        DbLevel(self.0 + 1)
    }

    /// Convert to `usize`.
    pub fn as_usize(self) -> (r: usize)
        ensures
            r == self.0,
    {
        self.0 as usize
    }

    /// How a level is displayed: `ℓ` and its number.
    pub fn describe(self) -> (r: String)
        ensures
            r@ == "ℓ"@ + decimal(self.0 as nat),
    {
        let mut s = string_of("ℓ");
        push_decimal(&mut s, self.0 as u64);
        s
    }
}

// ---------------------------------------------------------------------------
// Transparency
// ---------------------------------------------------------------------------

/// The transparency marker on a definition.
#[derive(Clone, Copy, Debug, PartialEq, Eq, Hash, Structural)]
pub enum Transparency {
    /// Unfolded even in the strictest mode.
    Reducible,
    /// An ordinary definition: unfolded in `Semireducible` and `All` modes.
    Semireducible,
    /// Only unfolded in `All` mode.
    Irreducible,
}

/// The transparency mode of a conversion check.
#[derive(Clone, Copy, Debug, PartialEq, Eq, Hash, Structural)]
pub enum TransparencyMode {
    /// Only reducible definitions are unfolded.
    Reducible,
    /// The default: unfolds everything except irreducible definitions.
    Semireducible,
    /// Unfolds everything.
    All,
}

/// Whether a definition with transparency `def` may be unfolded in `mode`.
pub open spec fn permits_spec(mode: TransparencyMode, def: Transparency) -> bool {
    match mode {
        TransparencyMode::Reducible => def is Reducible,
        TransparencyMode::Semireducible => !(def is Irreducible),
        TransparencyMode::All => true,
    }
}

impl TransparencyMode {
    /// Whether a definition with the given transparency may be unfolded in
    /// this mode.
    pub fn permits(self, def: Transparency) -> (r: bool)
        ensures
            r == permits_spec(self, def),
    {
        match self {
            TransparencyMode::Reducible => match def {
                Transparency::Reducible => true,
                _ => false,
            },
            TransparencyMode::Semireducible => match def {
                Transparency::Irreducible => false,
                _ => true,
            },
            TransparencyMode::All => true,
        }
    }
}

// ---------------------------------------------------------------------------
// Semantic values
// ---------------------------------------------------------------------------

/// A shared reference to a semantic value.
pub type ValRef = Rc<Value>;

/// The head of a neutral term: what evaluation got stuck on.
#[derive(Debug, PartialEq, Eq, Hash)]
#[allow(inconsistent_fields)]
pub enum Head {
    /// A local variable, identified by its de Bruijn level.
    Var(DbLevel),
    /// A constant that was not unfolded, applied to universe arguments.
    Const(NameId, Vec<Level>),
    /// A constructor, applied to universe arguments.
    Constructor(NameId, Vec<Level>),
}

/// A semantic value.
#[derive(Debug)]
pub enum Value {
    /// A universe `Sort(l)`.
    Sort(Level),
    /// A dependent function type `Π (x : A). B`.
    Pi(BinderInfo, NameId, ValRef, Closure),
    /// A lambda `λ (x : A). b`.
    Lam(BinderInfo, NameId, ValRef, Closure),
    /// A literal.
    Lit(Literal),
    /// A stuck term: `head` applied to a (possibly empty) spine.
    Neutral(Head, Vec<ValRef>),
}

/// A defunctionalized closure: a syntactic body paired with the semantic
/// environment in which to evaluate it when the closure is applied.
#[derive(Debug)]
pub struct Closure(Rc<ClosureInner>);

#[derive(Debug)]
struct ClosureInner {
    body: Expr,
    env: Env,
}

/// A persistent environment mapping de Bruijn indices to values; index 0 is
/// the most recently pushed binding.
#[derive(Debug)]
pub struct Env(Rc<EnvNode>);

#[derive(Debug)]
enum EnvNode {
    Empty,
    Cons(ValRef, Env),
}

/// The abstract head of a neutral value.
pub enum HeadV {
    /// See [`Head::Var`].
    Var(DbLevel),
    /// See [`Head::Const`].
    Const(NameId, Seq<Level>),
    /// See [`Head::Constructor`].
    Constructor(NameId, Seq<Level>),
}

/// The abstract value of a [`Value`].
pub enum ValueV {
    /// See [`Value::Sort`].
    Sort(Level),
    /// See [`Value::Pi`].
    Pi(BinderInfo, NameId, Box<ValueV>, ClosureV),
    /// See [`Value::Lam`].
    Lam(BinderInfo, NameId, Box<ValueV>, ClosureV),
    /// See [`Value::Lit`].
    Lit(LitV),
    /// See [`Value::Neutral`].
    Neutral(HeadV, Seq<ValueV>),
}

/// The abstract value of a [`Closure`]: its body and its environment.
pub struct ClosureV {
    /// The body.
    pub body: ExprV,
    /// The environment, innermost binding first.
    pub env: Seq<ValueV>,
}

impl View for Head {
    type V = HeadV;

    open spec fn view(&self) -> HeadV {
        match self {
            Head::Var(l) => HeadV::Var(*l),
            Head::Const(n, ls) => HeadV::Const(*n, ls@),
            Head::Constructor(n, ls) => HeadV::Constructor(*n, ls@),
        }
    }
}

/// The abstract value of `v`.
pub closed spec fn value_view(v: Value) -> ValueV
    decreases v, 0nat,
{
    match v {
        Value::Sort(l) => ValueV::Sort(l),
        Value::Pi(i, n, d, c) => ValueV::Pi(i, n, Box::new(value_view(*d)), closure_view(c)),
        Value::Lam(i, n, d, c) => ValueV::Lam(i, n, Box::new(value_view(*d)), closure_view(c)),
        Value::Lit(l) => ValueV::Lit(l@),
        Value::Neutral(h, sp) => ValueV::Neutral(h@, spine_view(sp@)),
    }
}

/// The abstract values of a spine.
pub closed spec fn spine_view(s: Seq<ValRef>) -> Seq<ValueV>
    decreases s, 1nat,
{
    if s.len() == 0 {
        Seq::empty()
    } else {
        spine_view(s.subrange(0, s.len() - 1)).push(value_view(*s[s.len() - 1]))
    }
}

/// The abstract value of a closure.
pub closed spec fn closure_view(c: Closure) -> ClosureV
    decreases c, 0nat,
{
    ClosureV { body: c.0.body@, env: env_view(c.0.env) }
}

/// The abstract value of an environment.
pub closed spec fn env_view(e: Env) -> Seq<ValueV>
    decreases e, 0nat,
{
    match *e.0 {
        EnvNode::Empty => Seq::empty(),
        EnvNode::Cons(v, rest) => seq![value_view(*v)] + env_view(rest),
    }
}

impl View for Value {
    type V = ValueV;

    open spec fn view(&self) -> ValueV {
        value_view(*self)
    }
}

impl View for Closure {
    type V = ClosureV;

    open spec fn view(&self) -> ClosureV {
        closure_view(*self)
    }
}

impl View for Env {
    type V = Seq<ValueV>;

    open spec fn view(&self) -> Seq<ValueV> {
        env_view(*self)
    }
}

/// The abstract values of a spine of shared values.
pub open spec fn refs_view(s: Seq<ValRef>) -> Seq<ValueV> {
    s.map_values(|r: ValRef| (*r)@)
}

proof fn lemma_spine_view(s: Seq<ValRef>)
    ensures
        spine_view(s) == refs_view(s),
    decreases s.len(),
{
    reveal_with_fuel(spine_view, 2);
    if s.len() > 0 {
        lemma_spine_view(s.subrange(0, s.len() - 1));
        assert(refs_view(s.subrange(0, s.len() - 1)).push(value_view(*s[s.len() - 1])) =~= refs_view(s));
    } else {
        assert(refs_view(s) =~= Seq::<ValueV>::empty());
    }
}

/// The neutral variable at `level`.
pub open spec fn fresh_var_spec(level: DbLevel) -> ValueV {
    ValueV::Neutral(HeadV::Var(level), Seq::empty())
}

pub(crate) proof fn lemma_value_view_unfold(v: &Value)
    ensures
        v@ == match *v {
            Value::Sort(l) => ValueV::Sort(l),
            Value::Pi(i, n, d, c) => ValueV::Pi(i, n, Box::new((*d)@), c@),
            Value::Lam(i, n, d, c) => ValueV::Lam(i, n, Box::new((*d)@), c@),
            Value::Lit(l) => ValueV::Lit(l@),
            Value::Neutral(h, sp) => ValueV::Neutral(h@, refs_view(sp@)),
        },
{
    if let Value::Neutral(_, sp) = *v {
        lemma_spine_view(sp@);
    }
}

impl Value {
    /// A fresh neutral variable at the given level.
    pub fn fresh_var(level: DbLevel) -> (r: ValRef)
        ensures
            (*r)@ == fresh_var_spec(level),
    {
        let r = Rc::new(Value::Neutral(Head::Var(level), Vec::new()));
        proof {
            lemma_value_view_unfold(&*r);
            assert(refs_view(Seq::<ValRef>::empty()) =~= Seq::<ValueV>::empty());
        }
        r
    }
}

impl Closure {
    /// Build a closure from a body and its captured environment.
    pub fn new(body: Expr, env: Env) -> (r: Self)
        ensures
            r@ == (ClosureV { body: body@, env: env@ }),
    {
        Closure(Rc::new(ClosureInner { body, env }))
    }

    /// The syntactic body of the closure.
    pub fn body(&self) -> (r: &Expr)
        ensures
            r@ == self@.body,
    {
        &self.0.body
    }

    /// The captured environment.
    pub fn env(&self) -> (r: &Env)
        ensures
            r@ == self@.env,
    {
        &self.0.env
    }
}

impl Clone for Closure {
    fn clone(&self) -> (r: Self)
        ensures
            r@ == self@,
    {
        Closure(Rc::clone(&self.0))
    }
}

impl Clone for Env {
    fn clone(&self) -> (r: Self)
        ensures
            r@ == self@,
    {
        Env(Rc::clone(&self.0))
    }
}

/// The environment of a context of size `n`: fresh variables at levels
/// `0 .. n`, the innermost (highest level) first.
pub open spec fn context_env(n: nat) -> Seq<ValueV> {
    Seq::new(n, |k: int| fresh_var_spec(DbLevel((n - 1 - k) as u32)))
}

impl Env {
    /// The empty environment.
    pub fn empty() -> (r: Self)
        ensures
            r@ == Seq::<ValueV>::empty(),
    {
        Env(Rc::new(EnvNode::Empty))
    }

    /// Push a binding onto the front (innermost position).
    pub fn extend(&self, v: ValRef) -> (r: Self)
        ensures
            r@ == seq![(*v)@] + self@,
    {
        Env(Rc::new(EnvNode::Cons(v, self.clone())))
    }

    /// Number of bindings.
    pub fn len(&self) -> (r: usize)
        requires
            self@.len() <= usize::MAX,
        ensures
            r == self@.len(),
        decreases self,
    {
        match &*self.0 {
            EnvNode::Empty => 0,
            EnvNode::Cons(_, rest) => 1 + rest.len(),
        }
    }

    /// `true` iff the environment has no bindings.
    pub fn is_empty(&self) -> (r: bool)
        ensures
            r == (self@.len() == 0),
    {
        match &*self.0 {
            EnvNode::Empty => true,
            EnvNode::Cons(_, _) => false,
        }
    }

    /// The value bound at index `i`, if any.
    fn get(&self, i: u32) -> (r: Option<ValRef>)
        ensures
            match r {
                Some(v) => i < self@.len() && (*v)@ == self@[i as int],
                None => i >= self@.len(),
            },
        decreases self,
    {
        match &*self.0 {
            EnvNode::Empty => None,
            EnvNode::Cons(v, rest) => {
                if i == 0 {
                    Some(Rc::clone(v))
                } else {
                    rest.get(i - 1)
                }
            },
        }
    }

    /// The value bound at the given de Bruijn index.
    pub fn lookup(&self, idx: DeBruijnIndex) -> (r: ValRef)
        requires
            idx.0 < self@.len(),
        ensures
            (*r)@ == self@[idx.0 as int],
    {
        match self.get(idx.0) {
            Some(v) => v,
            None => {
                proof { assert(false); }
                Value::fresh_var(DbLevel(0))
            },
        }
    }

    /// The environment of a context of size `n`: fresh neutral variables at
    /// levels `0 .. n`, with the innermost at the head.
    pub fn of_context(n: usize) -> (r: Self)
        ensures
            r@ == context_env(n as nat),
    {
        let mut env = Env::empty();
        let mut i: usize = 0;
        while i < n
            invariant
                i <= n,
                env@ == context_env(i as nat),
            decreases n - i,
        {
            let v = Value::fresh_var(DbLevel(i as u32));
            let ghost before = env@;
            env = env.extend(v);
            assert(env@ =~= context_env((i + 1) as nat));
            i = i + 1;
        }
        env
    }
}

// ---------------------------------------------------------------------------
// Universe substitution
// ---------------------------------------------------------------------------

/// The first position of `p` in `params`, at or after `k`.
pub open spec fn param_position(params: Seq<UniverseParamId>, p: UniverseParamId, k: int) -> Option<int>
    decreases params.len() - k,
{
    if k < 0 || k >= params.len() {
        None
    } else if params[k] == p {
        Some(k)
    } else {
        param_position(params, p, k + 1)
    }
}

/// `actuals[i]` for the first `i` with `params[i] = p`, when there is
/// such an actual; `Param(p)` otherwise.
pub open spec fn subst_param(params: Seq<UniverseParamId>, actuals: Seq<Level>, p: UniverseParamId) -> Level {
    match param_position(params, p, 0) {
        Some(i) => if i < actuals.len() { actuals[i] } else { Level::Param(p) },
        None => Level::Param(p),
    }
}

/// Substitute `actuals[i]` for `params[i]` in a level.
pub open spec fn subst_level_spec(l: Level, params: Seq<UniverseParamId>, actuals: Seq<Level>) -> Level
    decreases l,
{
    match l {
        Level::Zero => Level::Zero,
        Level::Param(p) => subst_param(params, actuals, p),
        Level::Succ(x) => Level::Succ(Box::new(subst_level_spec(*x, params, actuals))),
        Level::Max(a, b) => Level::Max(
            Box::new(subst_level_spec(*a, params, actuals)),
            Box::new(subst_level_spec(*b, params, actuals)),
        ),
        Level::IMax(a, b) => Level::IMax(
            Box::new(subst_level_spec(*a, params, actuals)),
            Box::new(subst_level_spec(*b, params, actuals)),
        ),
    }
}

/// Substitute `actuals[i]` for `params[i]` throughout an expression.
pub open spec fn subst_expr_spec(e: ExprV, params: Seq<UniverseParamId>, actuals: Seq<Level>) -> ExprV
    decreases e,
{
    match e {
        ExprV::Sort(l) => ExprV::Sort(subst_level_spec(l, params, actuals)),
        ExprV::Var(i) => ExprV::Var(i),
        ExprV::Const(n, ls) => ExprV::Const(n, ls.map_values(|l: Level| subst_level_spec(l, params, actuals))),
        ExprV::App(f, a) => ExprV::App(
            Box::new(subst_expr_spec(*f, params, actuals)),
            Box::new(subst_expr_spec(*a, params, actuals)),
        ),
        ExprV::Lam(i, n, a, b) => ExprV::Lam(
            i,
            n,
            Box::new(subst_expr_spec(*a, params, actuals)),
            Box::new(subst_expr_spec(*b, params, actuals)),
        ),
        ExprV::Pi(i, n, a, b) => ExprV::Pi(
            i,
            n,
            Box::new(subst_expr_spec(*a, params, actuals)),
            Box::new(subst_expr_spec(*b, params, actuals)),
        ),
        ExprV::Let(n, t, v, b) => ExprV::Let(
            n,
            Box::new(subst_expr_spec(*t, params, actuals)),
            Box::new(subst_expr_spec(*v, params, actuals)),
            Box::new(subst_expr_spec(*b, params, actuals)),
        ),
        ExprV::Lit(l) => ExprV::Lit(l),
    }
}

/// Substitute `actuals[i]` for `params[i]` in a single level.
fn subst_level(level: &Level, params: &[UniverseParamId], actuals: &[Level]) -> (r: Level)
    ensures
        r == subst_level_spec(*level, params@, actuals@),
    decreases level,
{
    match level {
        Level::Zero => Level::Zero,
        Level::Param(p) => {
            let n = params.len();
            let mut k: usize = 0;
            while k < n
                invariant
                    n == params@.len(),
                    k <= n,
                    *level == Level::Param(*p),
                    param_position(params@, *p, 0) == param_position(params@, *p, k as int),
                decreases n - k,
            {
                if params[k] == *p {
                    assert(param_position(params@, *p, k as int) == Some(k as int));
                    if k < actuals.len() {
                        assert(subst_param(params@, actuals@, *p) == actuals@[k as int]);
                        return actuals[k].deep_clone();
                    } else {
                        return Level::Param(*p);
                    }
                }
                k = k + 1;
            }
            Level::Param(*p)
        },
        Level::Succ(l) => subst_level(l, params, actuals).succ(),
        Level::Max(a, b) => Level::max(subst_level(a, params, actuals), subst_level(b, params, actuals)),
        Level::IMax(a, b) => Level::imax(subst_level(a, params, actuals), subst_level(b, params, actuals)),
    }
}

/// Substitute `actuals[i]` for `params[i]` throughout `expr`. Parameters
/// not in `params` are left untouched, as are parameters without an actual.
pub fn substitute_levels(expr: &Expr, params: &[UniverseParamId], actuals: &[Level]) -> (r: Expr)
    ensures
        r@ == subst_expr_spec(expr@, params@, actuals@),
    decreases expr,
{
    match expr {
        Expr::Sort(l) => Expr::Sort(subst_level(l, params, actuals)),
        Expr::Var(idx) => Expr::Var(*idx),
        Expr::Const(name, levels) => {
            let mut out: Vec<Level> = Vec::new();
            let n = levels.len();
            let mut k: usize = 0;
            while k < n
                invariant
                    n == levels@.len(),
                    k <= n,
                    out@ == levels@.take(k as int).map_values(|l: Level| subst_level_spec(l, params@, actuals@)),
                decreases n - k,
            {
                out.push(subst_level(&levels[k], params, actuals));
                assert(levels@.take(k + 1) =~= levels@.take(k as int).push(levels@[k as int]));
                assert(out@ =~= levels@.take(k + 1).map_values(|l: Level| subst_level_spec(l, params@, actuals@)));
                k = k + 1;
            }
            assert(levels@.take(n as int) =~= levels@);
            Expr::Const(*name, out)
        },
        Expr::App(f, a) => Expr::App(
            Box::new(substitute_levels(f, params, actuals)),
            Box::new(substitute_levels(a, params, actuals)),
        ),
        Expr::Lam(info, name, dom, body) => Expr::Lam(
            *info,
            *name,
            Box::new(substitute_levels(dom, params, actuals)),
            Box::new(substitute_levels(body, params, actuals)),
        ),
        Expr::Pi(info, name, dom, cod) => Expr::Pi(
            *info,
            *name,
            Box::new(substitute_levels(dom, params, actuals)),
            Box::new(substitute_levels(cod, params, actuals)),
        ),
        Expr::Let(name, ty, val, body) => Expr::Let(
            *name,
            Box::new(substitute_levels(ty, params, actuals)),
            Box::new(substitute_levels(val, params, actuals)),
            Box::new(substitute_levels(body, params, actuals)),
        ),
        Expr::Lit(l) => Expr::Lit(l.clone()),
    }
}

// ---------------------------------------------------------------------------
// Constant environment
// ---------------------------------------------------------------------------

/// A lightweight view of a recursor, sufficient to drive ι-reduction.
#[derive(Debug)]
pub struct RecursorInfo {
    /// Number of uniform parameters.
    pub num_params: u32,
    /// Number of indices.
    pub num_indices: u32,
    /// Number of motives (usually `1`).
    pub num_motives: u32,
    /// Number of minor premises.
    pub num_minors: u32,
    /// The ι-reduction rules, one per constructor.
    pub rules: Vec<RecursorRuleInfo>,
}

/// A single ι-reduction rule.
#[derive(Debug)]
pub struct RecursorRuleInfo {
    /// The constructor this rule fires for.
    pub constructor: NameId,
    /// Number of fields the rule binds.
    pub num_fields: u32,
    /// The right-hand side of the rule. Its context is, from outermost to
    /// innermost: parameters, motives, minors, indices, constructor fields.
    pub rhs: Rc<Expr>,
}

/// Information about a `Quot.lift`-style eliminator.
#[derive(Clone, Copy, Debug, PartialEq, Eq, Structural)]
pub struct QuotientLiftInfo {
    /// The `Quot.mk` recognised by this eliminator.
    pub mk: NameId,
    /// Total number of arguments the eliminator expects.
    pub arity: u32,
    /// Index (0-based) of the function argument.
    pub func_index: u32,
    /// Index (0-based) of the quotient-value argument.
    pub major_index: u32,
}

/// A view of a constant declaration, provided by the caller's environment.
#[derive(Debug)]
pub struct ConstDecl {
    /// The constant's name.
    pub name: NameId,
    /// Universe parameters introduced by the declaration, in order.
    pub universe_params: Vec<UniverseParamId>,
    /// The constant's type.
    pub ty: Rc<Expr>,
    /// The constant's body, if it is a definition.
    pub body: Option<Rc<Expr>>,
    /// The definition's transparency marker.
    pub transparency: Transparency,
    /// `true` iff this constant is a constructor of an inductive family.
    pub is_constructor: bool,
    /// Present iff this constant is a recursor.
    pub recursor_info: Option<RecursorInfo>,
    /// Present iff this constant has a `Quot.lift`-style β-rule.
    pub quotient_lift: Option<QuotientLiftInfo>,
}

/// Resolves constants to their declarations.
pub trait ConstEnv {
    /// The declaration of `name`, if any.
    spec fn decl_of(&self, name: NameId) -> Option<Rc<ConstDecl>>;

    /// Look up a constant declaration by name.
    fn lookup(&self, name: NameId) -> (r: Option<Rc<ConstDecl>>)
        ensures
            r == self.decl_of(name),
    ;
}

/// A constant environment containing no declarations.
#[derive(Debug, Clone, Copy)]
pub struct EmptyConstEnv;

impl ConstEnv for EmptyConstEnv {
    open spec fn decl_of(&self, name: NameId) -> Option<Rc<ConstDecl>> {
        None
    }

    fn lookup(&self, name: NameId) -> (r: Option<Rc<ConstDecl>>) {
        None
    }
}

// ---------------------------------------------------------------------------
// The meaning of evaluation, application, readback and conversion
// ---------------------------------------------------------------------------

/// The abstract value of an optional shared value.
pub open spec fn opt_view(r: Option<ValRef>) -> Option<ValueV> {
    match r {
        Some(v) => Some((*v)@),
        None => None,
    }
}

/// `env` extended, one binding after the other, by `items`: the last item
/// ends up innermost.
pub open spec fn push_all(env: Seq<ValueV>, items: Seq<ValueV>) -> Seq<ValueV>
    decreases items.len(),
{
    if items.len() == 0 {
        env
    } else {
        seq![items.last()] + push_all(env, items.drop_last())
    }
}

/// The first rule of `rules` for constructor `c`.
pub open spec fn rule_for(rules: Seq<RecursorRuleInfo>, c: NameId, k: int) -> Option<RecursorRuleInfo>
    decreases rules.len() - k,
{
    if k < 0 || k >= rules.len() {
        None
    } else if rules[k].constructor == c {
        Some(rules[k])
    } else {
        rule_for(rules, c, k + 1)
    }
}

/// `e` with the declaration's universe parameters replaced by `actuals`
/// (left alone when the declaration has none).
pub open spec fn instantiate_spec(d: ConstDecl, e: ExprV, actuals: Seq<Level>) -> ExprV {
    if d.universe_params@.len() == 0 {
        e
    } else {
        subst_expr_spec(e, d.universe_params@, actuals)
    }
}

/// Evaluation of `e` in `env` with budget `fuel`.
pub open spec fn eval_spec<C: ConstEnv>(
    consts: &C,
    mode: TransparencyMode,
    fuel: nat,
    env: Seq<ValueV>,
    e: ExprV,
) -> Option<ValueV>
    decreases fuel,
{
    if fuel == 0 {
        None
    } else {
        let f = (fuel - 1) as nat;
        match e {
            ExprV::Sort(l) => Some(ValueV::Sort(norm(l))),
            ExprV::Var(i) => if i.0 < env.len() {
                Some(env[i.0 as int])
            } else {
                None
            },
            ExprV::Const(n, ls) => eval_const_spec(consts, mode, f, n, ls),
            ExprV::App(fe, ae) => match eval_spec(consts, mode, f, env, *fe) {
                Some(fv) => match eval_spec(consts, mode, f, env, *ae) {
                    Some(av) => apply_spec(consts, mode, f, fv, av),
                    None => None,
                },
                None => None,
            },
            ExprV::Lam(i, n, d, b) => match eval_spec(consts, mode, f, env, *d) {
                Some(dv) => Some(ValueV::Lam(i, n, Box::new(dv), ClosureV { body: *b, env })),
                None => None,
            },
            ExprV::Pi(i, n, d, b) => match eval_spec(consts, mode, f, env, *d) {
                Some(dv) => Some(ValueV::Pi(i, n, Box::new(dv), ClosureV { body: *b, env })),
                None => None,
            },
            ExprV::Let(_, _, v, b) => match eval_spec(consts, mode, f, env, *v) {
                Some(vv) => eval_spec(consts, mode, f, seq![vv] + env, *b),
                None => None,
            },
            ExprV::Lit(l) => Some(ValueV::Lit(l)),
        }
    }
}

/// Evaluation of the constant `name` at universe arguments `ls`: a stuck
/// neutral unless the constant is a definition that `mode` may unfold, in
/// which case its body, instantiated at the normalized arguments.
pub open spec fn eval_const_spec<C: ConstEnv>(
    consts: &C,
    mode: TransparencyMode,
    fuel: nat,
    name: NameId,
    ls: Seq<Level>,
) -> Option<ValueV>
    decreases fuel,
{
    if fuel == 0 {
        None
    } else {
        let normalized = ls.map_values(|l: Level| norm(l));
        match consts.decl_of(name) {
            None => Some(ValueV::Neutral(HeadV::Const(name, normalized), Seq::empty())),
            Some(d) => {
                let head = if d.is_constructor {
                    HeadV::Constructor(name, normalized)
                } else {
                    HeadV::Const(name, normalized)
                };
                if !permits_spec(mode, d.transparency) {
                    Some(ValueV::Neutral(head, Seq::empty()))
                } else {
                    match d.body {
                        None => Some(ValueV::Neutral(head, Seq::empty())),
                        Some(b) => eval_spec(
                            consts,
                            mode,
                            (fuel - 1) as nat,
                            Seq::empty(),
                            instantiate_spec(*d, (*b)@, normalized),
                        ),
                    }
                }
            },
        }
    }
}

/// Application of `fv` to `av`: β for a lambda; for a neutral, ι or
/// quotient-lift reduction when one fires, a longer spine otherwise.
pub open spec fn apply_spec<C: ConstEnv>(
    consts: &C,
    mode: TransparencyMode,
    fuel: nat,
    fv: ValueV,
    av: ValueV,
) -> Option<ValueV>
    decreases fuel,
{
    if fuel == 0 {
        None
    } else {
        let f = (fuel - 1) as nat;
        match fv {
            ValueV::Lam(_, _, _, clo) => closure_apply_spec(consts, mode, f, clo, av),
            ValueV::Neutral(h, sp) => {
                let ns = sp.push(av);
                match iota_spec(consts, mode, f, h, ns) {
                    None => None,
                    Some(Some(r)) => Some(r),
                    Some(None) => match quot_lift_spec(consts, mode, f, h, ns) {
                        None => None,
                        Some(Some(r)) => Some(r),
                        Some(None) => Some(ValueV::Neutral(h, ns)),
                    },
                }
            },
            _ => None,
        }
    }
}

/// Application of a closure: its body evaluated in its environment
/// extended by the argument.
pub open spec fn closure_apply_spec<C: ConstEnv>(
    consts: &C,
    mode: TransparencyMode,
    fuel: nat,
    clo: ClosureV,
    arg: ValueV,
) -> Option<ValueV>
    decreases fuel,
{
    if fuel == 0 {
        None
    } else {
        eval_spec(consts, mode, (fuel - 1) as nat, seq![arg] + clo.env, clo.body)
    }
}

/// ι-reduction of a recursor applied to the spine `spine`: `Some(None)`
/// when no rule fires, `None` when the reduct cannot be computed.
pub open spec fn iota_spec<C: ConstEnv>(
    consts: &C,
    mode: TransparencyMode,
    fuel: nat,
    h: HeadV,
    spine: Seq<ValueV>,
) -> Option<Option<ValueV>>
    decreases fuel,
{
    if fuel == 0 {
        None
    } else {
        match h {
            HeadV::Const(rn, lv) => match consts.decl_of(rn) {
                None => Some(None),
                Some(d) => match d.recursor_info {
                    None => Some(None),
                    Some(info) => {
                        let np = info.num_params as int;
                        let prefix = np + info.num_motives + info.num_minors + info.num_indices;
                        if spine.len() != prefix + 1 {
                            Some(None)
                        } else {
                            match spine[prefix] {
                                ValueV::Neutral(HeadV::Constructor(cn, _), cargs) => match rule_for(
                                    info.rules@,
                                    cn,
                                    0,
                                ) {
                                    None => Some(None),
                                    Some(rule) => if cargs.len() != np + rule.num_fields {
                                        Some(None)
                                    } else {
                                        let env = push_all(
                                            Seq::empty(),
                                            spine.take(prefix) + cargs.skip(np),
                                        );
                                        match eval_spec(
                                            consts,
                                            mode,
                                            (fuel - 1) as nat,
                                            env,
                                            instantiate_spec(*d, (*rule.rhs)@, lv),
                                        ) {
                                            Some(v) => Some(Some(v)),
                                            None => None,
                                        }
                                    },
                                },
                                _ => Some(None),
                            }
                        }
                    },
                },
            },
            _ => Some(None),
        }
    }
}

/// `Quot.lift` β-reduction: a fully applied eliminator whose major argument
/// is `Quot.mk`-headed reduces to the function argument applied to the
/// wrapped value.
pub open spec fn quot_lift_spec<C: ConstEnv>(
    consts: &C,
    mode: TransparencyMode,
    fuel: nat,
    h: HeadV,
    spine: Seq<ValueV>,
) -> Option<Option<ValueV>>
    decreases fuel,
{
    if fuel == 0 {
        None
    } else {
        match h {
            HeadV::Const(n, _) => match consts.decl_of(n) {
                None => Some(None),
                Some(d) => match d.quotient_lift {
                    None => Some(None),
                    Some(info) => if spine.len() != info.arity {
                        Some(None)
                    } else if info.major_index >= spine.len() {
                        None
                    } else {
                        match spine[info.major_index as int] {
                            ValueV::Neutral(HeadV::Constructor(mk, _), args) => if mk == info.mk && args.len()
                                > 0 {
                                if info.func_index >= spine.len() {
                                    None
                                } else {
                                    match apply_spec(
                                        consts,
                                        mode,
                                        (fuel - 1) as nat,
                                        spine[info.func_index as int],
                                        args.last(),
                                    ) {
                                        Some(v) => Some(Some(v)),
                                        None => None,
                                    }
                                }
                            } else {
                                Some(None)
                            },
                            _ => Some(None),
                        }
                    },
                },
            },
            _ => Some(None),
        }
    }
}

/// The de Bruijn index, at context size `level`, of the variable at de
/// Bruijn level `lvl`: `level - lvl - 1` computed in `u32`, if it exists.
pub open spec fn level_to_index(level: usize, lvl: DbLevel) -> Option<u32> {
    let l = (level as u32) as int;
    if l >= lvl.0 + 1 {
        Some((l - lvl.0 - 1) as u32)
    } else {
        None
    }
}

/// Readback of `v` at context size `level`.
pub open spec fn quote_spec<C: ConstEnv>(
    consts: &C,
    mode: TransparencyMode,
    fuel: nat,
    level: usize,
    v: ValueV,
) -> Option<ExprV>
    decreases fuel, 0nat, 0nat,
{
    if fuel == 0 {
        None
    } else {
        let f = (fuel - 1) as nat;
        match v {
            ValueV::Sort(l) => Some(ExprV::Sort(l)),
            ValueV::Lit(l) => Some(ExprV::Lit(l)),
            ValueV::Pi(i, n, d, c) => match quote_spec(consts, mode, f, level, *d) {
                Some(de) => match quote_closure_spec(consts, mode, f, level, c) {
                    Some(be) => Some(ExprV::Pi(i, n, Box::new(de), Box::new(be))),
                    None => None,
                },
                None => None,
            },
            ValueV::Lam(i, n, d, c) => match quote_spec(consts, mode, f, level, *d) {
                Some(de) => match quote_closure_spec(consts, mode, f, level, c) {
                    Some(be) => Some(ExprV::Lam(i, n, Box::new(de), Box::new(be))),
                    None => None,
                },
                None => None,
            },
            ValueV::Neutral(h, sp) => {
                let head_e = match h {
                    HeadV::Var(lvl) => match level_to_index(level, lvl) {
                        Some(i) => Some(ExprV::Var(DeBruijnIndex(i))),
                        None => None,
                    },
                    HeadV::Const(n, ls) => Some(ExprV::Const(n, ls)),
                    HeadV::Constructor(n, ls) => Some(ExprV::Const(n, ls)),
                };
                match head_e {
                    Some(he) => quote_spine_spec(consts, mode, f, level, he, sp),
                    None => None,
                }
            },
        }
    }
}

/// `acc` applied to the readbacks of the spine `sp`, left to right.
pub open spec fn quote_spine_spec<C: ConstEnv>(
    consts: &C,
    mode: TransparencyMode,
    fuel: nat,
    level: usize,
    acc: ExprV,
    sp: Seq<ValueV>,
) -> Option<ExprV>
    decreases fuel, 1nat, sp.len(),
{
    if sp.len() == 0 {
        Some(acc)
    } else {
        match quote_spec(consts, mode, fuel, level, sp[0]) {
            Some(x) => quote_spine_spec(consts, mode, fuel, level, ExprV::App(Box::new(acc), Box::new(x)), sp.drop_first()),
            None => None,
        }
    }
}

/// Readback of a closure body, applied to the fresh variable at `level`.
pub open spec fn quote_closure_spec<C: ConstEnv>(
    consts: &C,
    mode: TransparencyMode,
    fuel: nat,
    level: usize,
    c: ClosureV,
) -> Option<ExprV>
    decreases fuel, 0nat, 0nat,
{
    if fuel == 0 || level == usize::MAX {
        None
    } else {
        let f = (fuel - 1) as nat;
        match closure_apply_spec(consts, mode, f, c, fresh_var_spec(DbLevel(level as u32))) {
            Some(body) => quote_spec(consts, mode, f, (level + 1) as usize, body),
            None => None,
        }
    }
}

/// Definitional equality of `a` and `b` at context size `level`: sorts up
/// to normalization, literals by value, binders componentwise, η for
/// lambdas, and neutrals by head and spine. A comparison that cannot be
/// completed within the budget answers `false`.
pub open spec fn convert_spec<C: ConstEnv>(
    consts: &C,
    mode: TransparencyMode,
    fuel: nat,
    level: usize,
    a: ValueV,
    b: ValueV,
) -> bool
    decreases fuel, 0nat, 0nat,
{
    if fuel == 0 {
        false
    } else {
        let f = (fuel - 1) as nat;
        match (a, b) {
            (ValueV::Sort(l1), ValueV::Sort(l2)) => norm(l1) == norm(l2),
            (ValueV::Lit(l1), ValueV::Lit(l2)) => l1 == l2,
            (ValueV::Pi(i1, _, d1, c1), ValueV::Pi(i2, _, d2, c2)) => i1 == i2 && convert_spec(
                consts,
                mode,
                f,
                level,
                *d1,
                *d2,
            ) && convert_closure_spec(consts, mode, f, level, c1, c2),
            (ValueV::Lam(i1, _, d1, c1), ValueV::Lam(i2, _, d2, c2)) => i1 == i2 && convert_spec(
                consts,
                mode,
                f,
                level,
                *d1,
                *d2,
            ) && convert_closure_spec(consts, mode, f, level, c1, c2),
            (ValueV::Lam(_, _, _, c1), _) => if level == usize::MAX {
                false
            } else {
                let v = fresh_var_spec(DbLevel(level as u32));
                match (closure_apply_spec(consts, mode, f, c1, v), apply_spec(consts, mode, f, b, v)) {
                    (Some(l), Some(r)) => convert_spec(consts, mode, f, (level + 1) as usize, l, r),
                    _ => false,
                }
            },
            (_, ValueV::Lam(_, _, _, c2)) => if level == usize::MAX {
                false
            } else {
                let v = fresh_var_spec(DbLevel(level as u32));
                match (apply_spec(consts, mode, f, a, v), closure_apply_spec(consts, mode, f, c2, v)) {
                    (Some(l), Some(r)) => convert_spec(consts, mode, f, (level + 1) as usize, l, r),
                    _ => false,
                }
            },
            (ValueV::Neutral(h1, s1), ValueV::Neutral(h2, s2)) => h1 == h2 && s1.len() == s2.len()
                && convert_spines_spec(consts, mode, f, level, s1, s2),
            _ => false,
        }
    }
}

/// Pointwise conversion of two spines of the same length.
pub open spec fn convert_spines_spec<C: ConstEnv>(
    consts: &C,
    mode: TransparencyMode,
    fuel: nat,
    level: usize,
    s1: Seq<ValueV>,
    s2: Seq<ValueV>,
) -> bool
    decreases fuel, 1nat, s1.len(),
{
    if s1.len() == 0 {
        true
    } else {
        convert_spec(consts, mode, fuel, level, s1[0], s2[0]) && convert_spines_spec(
            consts,
            mode,
            fuel,
            level,
            s1.drop_first(),
            s2.drop_first(),
        )
    }
}

/// Conversion of two closure bodies, applied to the fresh variable at
/// `level`.
pub open spec fn convert_closure_spec<C: ConstEnv>(
    consts: &C,
    mode: TransparencyMode,
    fuel: nat,
    level: usize,
    c1: ClosureV,
    c2: ClosureV,
) -> bool
    decreases fuel, 0nat, 0nat,
{
    if fuel == 0 || level == usize::MAX {
        false
    } else {
        let f = (fuel - 1) as nat;
        let v = fresh_var_spec(DbLevel(level as u32));
        match (closure_apply_spec(consts, mode, f, c1, v), closure_apply_spec(consts, mode, f, c2, v)) {
            (Some(l), Some(r)) => convert_spec(consts, mode, f, (level + 1) as usize, l, r),
            _ => false,
        }
    }
}

// ---------------------------------------------------------------------------
// The NbE engine
// ---------------------------------------------------------------------------

/// The budget of an engine built by [`Nbe::new`]: large enough that it is
/// never the reason a computation stops.
pub const DEFAULT_FUEL: u64 = 0xffff_ffff_ffff_ffff;

/// The NbE engine: a constant environment, a transparency mode and a budget.
pub struct Nbe<'a, C: ConstEnv> {
    consts: &'a C,
    mode: TransparencyMode,
    fuel: u64,
}

/// Copies of the levels, each normalized.
pub(crate) fn normalize_all(levels: &Vec<Level>) -> (r: Vec<Level>)
    ensures
        r@ == levels@.map_values(|l: Level| norm(l)),
{
    let mut out: Vec<Level> = Vec::new();
    let n = levels.len();
    let mut k: usize = 0;
    while k < n
        invariant
            n == levels@.len(),
            k <= n,
            out@ == levels@.take(k as int).map_values(|l: Level| norm(l)),
        decreases n - k,
    {
        out.push(levels[k].normalize());
        assert(levels@.take(k + 1) =~= levels@.take(k as int).push(levels@[k as int]));
        assert(out@ =~= levels@.take(k + 1).map_values(|l: Level| norm(l)));
        k = k + 1;
    }
    assert(levels@.take(n as int) =~= levels@);
    out
}

/// Shared copies of the values of a spine.
fn clone_spine(spine: &Vec<ValRef>) -> (r: Vec<ValRef>)
    ensures
        r@ == spine@,
{
    let mut out: Vec<ValRef> = Vec::new();
    let n = spine.len();
    let mut k: usize = 0;
    while k < n
        invariant
            n == spine@.len(),
            k <= n,
            out@ == spine@.take(k as int),
        decreases n - k,
    {
        out.push(Rc::clone(&spine[k]));
        assert(out@ =~= spine@.take(k + 1));
        k = k + 1;
    }
    assert(spine@.take(n as int) =~= spine@);
    out
}

impl Head {
    /// A structural copy.
    pub fn deep_clone(&self) -> (r: Head)
        ensures
            r@ == self@,
    {
        match self {
            Head::Var(l) => Head::Var(*l),
            Head::Const(n, ls) => Head::Const(*n, clone_levels(ls)),
            Head::Constructor(n, ls) => Head::Constructor(*n, clone_levels(ls)),
        }
    }

    /// Structural equality.
    pub fn same(&self, other: &Head) -> (r: bool)
        ensures
            r == (self@ == other@),
    {
        match (self, other) {
            (Head::Var(a), Head::Var(b)) => a.0 == b.0,
            (Head::Const(n1, l1), Head::Const(n2, l2)) => n1.0 == n2.0 && same_levels(l1, l2),
            (Head::Constructor(n1, l1), Head::Constructor(n2, l2)) => n1.0 == n2.0 && same_levels(l1, l2),
            _ => false,
        }
    }
}

impl<'a, C: ConstEnv> Nbe<'a, C> {
    /// The constant environment.
    pub closed spec fn consts(&self) -> &'a C {
        self.consts
    }

    /// The transparency mode.
    pub closed spec fn mode_spec(&self) -> TransparencyMode {
        self.mode
    }

    /// The budget of each service call.
    pub closed spec fn budget(&self) -> nat {
        self.fuel as nat
    }

    /// Construct an NbE engine with the default budget.
    pub fn new(consts: &'a C, mode: TransparencyMode) -> (r: Self)
        ensures
            r.consts() == consts,
            r.mode_spec() == mode,
            r.budget() == DEFAULT_FUEL,
    {
        Nbe { consts, mode, fuel: DEFAULT_FUEL }
    }

    /// Construct an NbE engine with the given budget.
    pub fn with_fuel(consts: &'a C, mode: TransparencyMode, fuel: u64) -> (r: Self)
        ensures
            r.consts() == consts,
            r.mode_spec() == mode,
            r.budget() == fuel,
    {
        Nbe { consts, mode, fuel }
    }

    /// The current transparency mode.
    pub fn mode(&self) -> (r: TransparencyMode)
        ensures
            r == self.mode_spec(),
    {
        self.mode
    }

    // -----------------------------------------------------------------
    // Evaluation
    // -----------------------------------------------------------------

    /// Evaluate `expr` in `env`, producing a semantic value.
    pub fn eval(&self, env: &Env, expr: &Expr) -> (r: Option<ValRef>)
        ensures
            opt_view(r) == eval_spec(self.consts(), self.mode_spec(), self.budget(), env@, expr@),
    {
        self.eval_fuel(env, expr, self.fuel)
    }

    fn eval_fuel(&self, env: &Env, expr: &Expr, fuel: u64) -> (r: Option<ValRef>)
        ensures
            opt_view(r) == eval_spec(self.consts(), self.mode_spec(), fuel as nat, env@, expr@),
        decreases fuel,
    {
        if fuel == 0 {
            return None;
        }
        let f = fuel - 1;
        match expr {
            Expr::Sort(l) => Some(Rc::new(Value::Sort(l.normalize()))),
            Expr::Var(idx) => env.get(idx.0),
            Expr::Const(name, levels) => self.eval_const(*name, levels, f),
            Expr::App(fe, ae) => {
                let fv = match self.eval_fuel(env, fe, f) {
                    Some(v) => v,
                    None => return None,
                };
                let av = match self.eval_fuel(env, ae, f) {
                    Some(v) => v,
                    None => return None,
                };
                self.apply_fuel(fv, av, f)
            },
            Expr::Lam(info, name, dom, body) => {
                let dv = match self.eval_fuel(env, dom, f) {
                    Some(v) => v,
                    None => return None,
                };
                let clo = Closure::new((**body).deep_clone(), env.clone());
                Some(Rc::new(Value::Lam(*info, *name, dv, clo)))
            },
            Expr::Pi(info, name, dom, cod) => {
                let dv = match self.eval_fuel(env, dom, f) {
                    Some(v) => v,
                    None => return None,
                };
                let clo = Closure::new((**cod).deep_clone(), env.clone());
                Some(Rc::new(Value::Pi(*info, *name, dv, clo)))
            },
            Expr::Let(_, _, val, body) => {
                let v = match self.eval_fuel(env, val, f) {
                    Some(v) => v,
                    None => return None,
                };
                let env2 = env.extend(v);
                self.eval_fuel(&env2, body, f)
            },
            Expr::Lit(l) => Some(Rc::new(Value::Lit(l.clone()))),
        }
    }

    fn eval_const(&self, name: NameId, levels: &Vec<Level>, fuel: u64) -> (r: Option<ValRef>)
        ensures
            opt_view(r) == eval_const_spec(self.consts(), self.mode_spec(), fuel as nat, name, levels@),
        decreases fuel,
    {
        if fuel == 0 {
            return None;
        }
        let normalized = normalize_all(levels);
        let decl = match self.consts.lookup(name) {
            Some(d) => d,
            None => {
                let r = Rc::new(Value::Neutral(Head::Const(name, normalized), Vec::new()));
                proof {
                    lemma_value_view_unfold(&*r);
                    assert(refs_view(Seq::<ValRef>::empty()) =~= Seq::<ValueV>::empty());
                }
                return Some(r);
            },
        };
        let head = if decl.is_constructor {
            Head::Constructor(name, clone_levels(&normalized))
        } else {
            Head::Const(name, clone_levels(&normalized))
        };
        if !self.mode.permits(decl.transparency) {
            let r = Rc::new(Value::Neutral(head, Vec::new()));
            proof {
                lemma_value_view_unfold(&*r);
                assert(refs_view(Seq::<ValRef>::empty()) =~= Seq::<ValueV>::empty());
            }
            return Some(r);
        }
        match &decl.body {
            None => {
                let r = Rc::new(Value::Neutral(head, Vec::new()));
                proof {
                    lemma_value_view_unfold(&*r);
                    assert(refs_view(Seq::<ValRef>::empty()) =~= Seq::<ValueV>::empty());
                }
                Some(r)
            },
            Some(body) => {
                if decl.universe_params.len() == 0 {
                    self.eval_fuel(&Env::empty(), &**body, fuel - 1)
                } else {
                    let inst = substitute_levels(&**body, decl.universe_params.as_slice(), normalized.as_slice());
                    self.eval_fuel(&Env::empty(), &inst, fuel - 1)
                }
            },
        }
    }
}

impl<'a, C: ConstEnv> Nbe<'a, C> {
    /// Apply a function value to an argument value. Applying a value that is
    /// neither a lambda nor neutral fails.
    pub fn apply(&self, f: ValRef, a: ValRef) -> (r: Option<ValRef>)
        ensures
            opt_view(r) == apply_spec(self.consts(), self.mode_spec(), self.budget(), (*f)@, (*a)@),
    {
        self.apply_fuel(f, a, self.fuel)
    }

    fn apply_fuel(&self, f: ValRef, a: ValRef, fuel: u64) -> (r: Option<ValRef>)
        ensures
            opt_view(r) == apply_spec(self.consts(), self.mode_spec(), fuel as nat, (*f)@, (*a)@),
        decreases fuel,
    {
        if fuel == 0 {
            return None;
        }
        proof { lemma_value_view_unfold(&*f); }
        match &*f {
            Value::Lam(_, _, _, clo) => self.closure_apply(clo, a, fuel - 1),
            Value::Neutral(head, spine) => {
                let ghost av = (*a)@;
                let mut ns = clone_spine(spine);
                ns.push(a);
                proof {
                    assert(refs_view(ns@) =~= refs_view(spine@).push(av));
                }
                match self.try_iota(head, &ns, fuel - 1) {
                    None => None,
                    Some(Some(r)) => Some(r),
                    Some(None) => match self.try_quot_lift(head, &ns, fuel - 1) {
                        None => None,
                        Some(Some(r)) => Some(r),
                        Some(None) => {
                            let r = Rc::new(Value::Neutral(head.deep_clone(), ns));
                            proof { lemma_value_view_unfold(&*r); }
                            Some(r)
                        },
                    },
                }
            },
            _ => None,
        }
    }

    fn closure_apply(&self, clo: &Closure, arg: ValRef, fuel: u64) -> (r: Option<ValRef>)
        ensures
            opt_view(r) == closure_apply_spec(self.consts(), self.mode_spec(), fuel as nat, clo@, (*arg)@),
        decreases fuel,
    {
        if fuel == 0 {
            return None;
        }
        let new_env = clo.0.env.extend(arg);
        self.eval_fuel(&new_env, &clo.0.body, fuel - 1)
    }

    /// Apply a semantic closure to an argument.
    pub fn apply_closure(&self, clo: &Closure, arg: ValRef) -> (r: Option<ValRef>)
        ensures
            opt_view(r) == closure_apply_spec(self.consts(), self.mode_spec(), self.budget(), clo@, (*arg)@),
    {
        self.closure_apply(clo, arg, self.fuel)
    }

    /// ι-reduction of a fully applied recursor whose major premise is a
    /// constructor application.
    fn try_iota(&self, head: &Head, spine: &Vec<ValRef>, fuel: u64) -> (r: Option<Option<ValRef>>)
        ensures
            match r {
                None => iota_spec(self.consts(), self.mode_spec(), fuel as nat, head@, refs_view(spine@)) is None,
                Some(None) => iota_spec(self.consts(), self.mode_spec(), fuel as nat, head@, refs_view(spine@)) == Some(
                    None::<ValueV>,
                ),
                Some(Some(v)) => iota_spec(self.consts(), self.mode_spec(), fuel as nat, head@, refs_view(spine@)) == Some(
                    Some((*v)@),
                ),
            },
        decreases fuel,
    {
        if fuel == 0 {
            return None;
        }
        let ghost sv = refs_view(spine@);
        let (rec_name, actual_levels) = match head {
            Head::Const(n, ls) => (*n, ls),
            _ => return Some(None),
        };
        let decl = match self.consts.lookup(rec_name) {
            Some(d) => d,
            None => return Some(None),
        };
        let info = match &decl.recursor_info {
            Some(i) => i,
            None => return Some(None),
        };
        let np = info.num_params as u64;
        let prefix = np + info.num_motives as u64 + info.num_minors as u64 + info.num_indices as u64;
        if spine.len() as u64 != prefix + 1 {
            return Some(None);
        }
        let prefix = prefix as usize;
        let np = np as usize;
        let major = &spine[prefix];
        assert(sv[prefix as int] == (*spine@[prefix as int])@);
        proof { lemma_value_view_unfold(&**major); }
        let (ctor_name, ctor_args) = match &**major {
            Value::Neutral(Head::Constructor(n, _), args) => (*n, args),
            _ => return Some(None),
        };
        let n_rules = info.rules.len();
        let mut k: usize = 0;
        while k < n_rules
            invariant
                n_rules == info.rules@.len(),
                k <= n_rules,
                rule_for(info.rules@, ctor_name, 0) == rule_for(info.rules@, ctor_name, k as int),
            ensures
                k <= n_rules,
                rule_for(info.rules@, ctor_name, 0) == rule_for(info.rules@, ctor_name, k as int),
                k < n_rules ==> info.rules@[k as int].constructor == ctor_name,
            decreases n_rules - k,
        {
            if info.rules[k].constructor == ctor_name {
                break;
            }
            k = k + 1;
        }
        if k == n_rules {
            return Some(None);
        }
        let rule = &info.rules[k];
        assert(rule_for(info.rules@, ctor_name, k as int) == Some(*rule));
        let ghost cv = refs_view(ctor_args@);
        if ctor_args.len() as u64 != np as u64 + rule.num_fields as u64 {
            return Some(None);
        }
        let ghost items = sv.take(prefix as int) + cv.skip(np as int);
        let mut env = Env::empty();
        let mut i: usize = 0;
        while i < prefix
            invariant
                i <= prefix,
                prefix < spine@.len(),
                sv == refs_view(spine@),
                items == sv.take(prefix as int) + cv.skip(np as int),
                env@ == push_all(Seq::empty(), items.take(i as int)),
            decreases prefix - i,
        {
            env = env.extend(Rc::clone(&spine[i]));
            proof {
                assert(items.take(i + 1).drop_last() =~= items.take(i as int));
                assert(items.take(i + 1).last() == sv[i as int]);
            }
            i = i + 1;
        }
        let nargs = ctor_args.len();
        let mut j: usize = np;
        while j < nargs
            invariant
                np <= j <= nargs,
                nargs == ctor_args@.len(),
                cv == refs_view(ctor_args@),
                items == sv.take(prefix as int) + cv.skip(np as int),
                prefix <= sv.len(),
                env@ == push_all(Seq::empty(), items.take(prefix + j - np)),
            decreases nargs - j,
        {
            env = env.extend(Rc::clone(&ctor_args[j]));
            proof {
                assert(items.take(prefix + j + 1 - np).drop_last() =~= items.take(prefix + j - np));
                assert(items.take(prefix + j + 1 - np).last() == cv[j as int]);
            }
            j = j + 1;
        }
        assert(items.take(prefix + nargs - np) =~= items);
        let result = if decl.universe_params.len() == 0 {
            self.eval_fuel(&env, &*rule.rhs, fuel - 1)
        } else {
            let inst = substitute_levels(&*rule.rhs, decl.universe_params.as_slice(), actual_levels.as_slice());
            self.eval_fuel(&env, &inst, fuel - 1)
        };
        match result {
            Some(v) => Some(Some(v)),
            None => None,
        }
    }

    /// `Quot.lift` β-reduction on a fully applied eliminator.
    fn try_quot_lift(&self, head: &Head, spine: &Vec<ValRef>, fuel: u64) -> (r: Option<Option<ValRef>>)
        ensures
            match r {
                None => quot_lift_spec(self.consts(), self.mode_spec(), fuel as nat, head@, refs_view(spine@)) is None,
                Some(None) => quot_lift_spec(self.consts(), self.mode_spec(), fuel as nat, head@, refs_view(spine@))
                    == Some(None::<ValueV>),
                Some(Some(v)) => quot_lift_spec(self.consts(), self.mode_spec(), fuel as nat, head@, refs_view(spine@))
                    == Some(Some((*v)@)),
            },
        decreases fuel,
    {
        if fuel == 0 {
            return None;
        }
        let ghost sv = refs_view(spine@);
        let name = match head {
            Head::Const(n, _) => *n,
            _ => return Some(None),
        };
        let decl = match self.consts.lookup(name) {
            Some(d) => d,
            None => return Some(None),
        };
        let info = match &decl.quotient_lift {
            Some(i) => *i,
            None => return Some(None),
        };
        if spine.len() as u64 != info.arity as u64 {
            return Some(None);
        }
        if info.major_index as usize >= spine.len() {
            return None;
        }
        let major = &spine[info.major_index as usize];
        assert(sv[info.major_index as int] == (*spine@[info.major_index as int])@);
        proof { lemma_value_view_unfold(&**major); }
        let a = match &**major {
            Value::Neutral(Head::Constructor(mk_name, _), args) => {
                if mk_name.0 == info.mk.0 && args.len() > 0 {
                    assert(refs_view(args@).last() == (*args@[args@.len() - 1])@);
                    Rc::clone(&args[args.len() - 1])
                } else {
                    return Some(None);
                }
            },
            _ => return Some(None),
        };
        if info.func_index as usize >= spine.len() {
            return None;
        }
        let f = Rc::clone(&spine[info.func_index as usize]);
        assert(sv[info.func_index as int] == (*f)@);
        match self.apply_fuel(f, a, fuel - 1) {
            Some(v) => Some(Some(v)),
            None => None,
        }
    }
}

/// The abstract value of an optional expression.
pub open spec fn opt_expr_view(r: Option<Expr>) -> Option<ExprV> {
    match r {
        Some(e) => Some(e@),
        None => None,
    }
}

impl<'a, C: ConstEnv> Nbe<'a, C> {
    // -----------------------------------------------------------------
    // Quotation / readback
    // -----------------------------------------------------------------

    /// Read back a value into a syntactic expression at the given context
    /// size.
    pub fn quote(&self, level: usize, v: &ValRef) -> (r: Option<Expr>)
        ensures
            opt_expr_view(r) == quote_spec(self.consts(), self.mode_spec(), self.budget(), level, (**v)@),
    {
        self.quote_fuel(level, v, self.fuel)
    }

    fn quote_fuel(&self, level: usize, v: &ValRef, fuel: u64) -> (r: Option<Expr>)
        ensures
            opt_expr_view(r) == quote_spec(self.consts(), self.mode_spec(), fuel as nat, level, (**v)@),
        decreases fuel, 0nat,
    {
        if fuel == 0 {
            return None;
        }
        let f = fuel - 1;
        proof { lemma_value_view_unfold(&**v); }
        match &**v {
            Value::Sort(l) => Some(Expr::Sort(l.deep_clone())),
            Value::Lit(l) => Some(Expr::Lit(l.clone())),
            Value::Pi(info, name, dom, clo) => {
                let d = match self.quote_fuel(level, dom, f) {
                    Some(e) => e,
                    None => return None,
                };
                let b = match self.quote_closure(level, clo, f) {
                    Some(e) => e,
                    None => return None,
                };
                Some(Expr::Pi(*info, *name, Box::new(d), Box::new(b)))
            },
            Value::Lam(info, name, dom, clo) => {
                let d = match self.quote_fuel(level, dom, f) {
                    Some(e) => e,
                    None => return None,
                };
                let b = match self.quote_closure(level, clo, f) {
                    Some(e) => e,
                    None => return None,
                };
                Some(Expr::Lam(*info, *name, Box::new(d), Box::new(b)))
            },
            Value::Neutral(head, spine) => {
                let head_e = match head {
                    Head::Var(lvl) => {
                        let l = level as u32;
                        if l < lvl.0 || l - lvl.0 < 1 {
                            return None;
                        }
                        Expr::Var(DeBruijnIndex(l - lvl.0 - 1))
                    },
                    Head::Const(name, levels) => Expr::Const(*name, clone_levels(levels)),
                    Head::Constructor(name, levels) => Expr::Const(*name, clone_levels(levels)),
                };
                self.quote_spine(level, head_e, spine, f)
            },
        }
    }

    /// `acc` applied to the readbacks of the spine, left to right.
    #[verifier::loop_isolation(false)]
    fn quote_spine(&self, level: usize, acc: Expr, spine: &Vec<ValRef>, fuel: u64) -> (r: Option<Expr>)
        ensures
            opt_expr_view(r) == quote_spine_spec(self.consts(), self.mode_spec(), fuel as nat, level, acc@, refs_view(spine@)),
        decreases fuel, 1nat,
    {
        let ghost sv = refs_view(spine@);
        let mut acc = acc;
        let ghost acc0 = acc@;
        let n = spine.len();
        let mut k: usize = 0;
        assert(sv.skip(0) =~= sv);
        while k < n
            invariant
                n == spine@.len(),
                sv == refs_view(spine@),
                k <= n,
                quote_spine_spec(self.consts(), self.mode_spec(), fuel as nat, level, acc0, sv)
                    == quote_spine_spec(self.consts(), self.mode_spec(), fuel as nat, level, acc@, sv.skip(k as int)),
            decreases n - k,
        {
            assert(sv.skip(k as int)[0] == (*spine@[k as int])@);
            assert(sv.skip(k as int).drop_first() =~= sv.skip(k + 1));
            assert(sv.skip(k as int).len() > 0);
            let x = match self.quote_fuel(level, &spine[k], fuel) {
                Some(e) => e,
                None => {
                    assert(quote_spine_spec(self.consts(), self.mode_spec(), fuel as nat, level, acc@, sv.skip(k as int)) is None);
                    return None;
                },
            };
            acc = Expr::app(acc, x);
            k = k + 1;
        }
        assert(sv.skip(n as int) =~= Seq::<ValueV>::empty());
        Some(acc)
    }

    /// Quote the body of a closure by applying it to a fresh variable.
    fn quote_closure(&self, level: usize, clo: &Closure, fuel: u64) -> (r: Option<Expr>)
        ensures
            opt_expr_view(r) == quote_closure_spec(self.consts(), self.mode_spec(), fuel as nat, level, clo@),
        decreases fuel, 0nat,
    {
        if fuel == 0 || level == usize::MAX {
            return None;
        }
        let v = Value::fresh_var(DbLevel(level as u32));
        let body = match self.closure_apply(clo, v, fuel - 1) {
            Some(b) => b,
            None => return None,
        };
        self.quote_fuel(level + 1, &body, fuel - 1)
    }

    // -----------------------------------------------------------------
    // Conversion
    // -----------------------------------------------------------------

    /// Decide definitional equality of two values at the given context size.
    pub fn convert(&self, level: usize, a: &ValRef, b: &ValRef) -> (r: bool)
        ensures
            r == convert_spec(self.consts(), self.mode_spec(), self.budget(), level, (**a)@, (**b)@),
    {
        self.convert_fuel(level, a, b, self.fuel)
    }

    fn convert_fuel(&self, level: usize, a: &ValRef, b: &ValRef, fuel: u64) -> (r: bool)
        ensures
            r == convert_spec(self.consts(), self.mode_spec(), fuel as nat, level, (**a)@, (**b)@),
        decreases fuel, 0nat,
    {
        if fuel == 0 {
            return false;
        }
        let f = fuel - 1;
        proof {
            lemma_value_view_unfold(&**a);
            lemma_value_view_unfold(&**b);
        }
        match (&**a, &**b) {
            (Value::Sort(l1), Value::Sort(l2)) => l1.normalize().same(&l2.normalize()),
            (Value::Lit(l1), Value::Lit(l2)) => l1.same(l2),
            (Value::Pi(i1, _, d1, c1), Value::Pi(i2, _, d2, c2)) => {
                *i1 == *i2 && self.convert_fuel(level, d1, d2, f) && self.convert_closure(level, c1, c2, f)
            },
            (Value::Lam(i1, _, d1, c1), Value::Lam(i2, _, d2, c2)) => {
                *i1 == *i2 && self.convert_fuel(level, d1, d2, f) && self.convert_closure(level, c1, c2, f)
            },
            (Value::Lam(_, _, _, c1), _) => {
                if level == usize::MAX {
                    return false;
                }
                let v = Value::fresh_var(DbLevel(level as u32));
                let lhs = self.closure_apply(c1, Rc::clone(&v), f);
                let rhs = self.apply_fuel(Rc::clone(b), v, f);
                match (lhs, rhs) {
                    (Some(l), Some(r)) => self.convert_fuel(level + 1, &l, &r, f),
                    _ => false,
                }
            },
            (_, Value::Lam(_, _, _, c2)) => {
                if level == usize::MAX {
                    return false;
                }
                let v = Value::fresh_var(DbLevel(level as u32));
                let lhs = self.apply_fuel(Rc::clone(a), Rc::clone(&v), f);
                let rhs = self.closure_apply(c2, v, f);
                match (lhs, rhs) {
                    (Some(l), Some(r)) => self.convert_fuel(level + 1, &l, &r, f),
                    _ => false,
                }
            },
            (Value::Neutral(h1, s1), Value::Neutral(h2, s2)) => {
                h1.same(h2) && s1.len() == s2.len() && self.convert_spines(level, s1, s2, f)
            },
            _ => false,
        }
    }

    /// Pointwise conversion of two spines of the same length.
    fn convert_spines(&self, level: usize, s1: &Vec<ValRef>, s2: &Vec<ValRef>, fuel: u64) -> (r: bool)
        requires
            s1@.len() == s2@.len(),
        ensures
            r == convert_spines_spec(self.consts(), self.mode_spec(), fuel as nat, level, refs_view(s1@), refs_view(s2@)),
        decreases fuel, 1nat,
    {
        let ghost v1 = refs_view(s1@);
        let ghost v2 = refs_view(s2@);
        let n = s1.len();
        let mut k: usize = 0;
        assert(v1.skip(0) =~= v1);
        assert(v2.skip(0) =~= v2);
        while k < n
            invariant
                n == s1@.len(),
                n == s2@.len(),
                v1 == refs_view(s1@),
                v2 == refs_view(s2@),
                k <= n,
                convert_spines_spec(self.consts(), self.mode_spec(), fuel as nat, level, v1, v2)
                    == convert_spines_spec(self.consts(), self.mode_spec(), fuel as nat, level, v1.skip(k as int), v2.skip(k as int)),
            decreases n - k,
        {
            assert(v1.skip(k as int)[0] == (*s1@[k as int])@);
            assert(v2.skip(k as int)[0] == (*s2@[k as int])@);
            assert(v1.skip(k as int).drop_first() =~= v1.skip(k + 1));
            assert(v2.skip(k as int).drop_first() =~= v2.skip(k + 1));
            if !self.convert_fuel(level, &s1[k], &s2[k], fuel) {
                return false;
            }
            k = k + 1;
        }
        assert(v1.skip(n as int).len() == 0);
        true
    }

    fn convert_closure(&self, level: usize, c1: &Closure, c2: &Closure, fuel: u64) -> (r: bool)
        ensures
            r == convert_closure_spec(self.consts(), self.mode_spec(), fuel as nat, level, c1@, c2@),
        decreases fuel, 0nat,
    {
        if fuel == 0 || level == usize::MAX {
            return false;
        }
        let v = Value::fresh_var(DbLevel(level as u32));
        let lhs = self.closure_apply(c1, Rc::clone(&v), fuel - 1);
        let rhs = self.closure_apply(c2, v, fuel - 1);
        match (lhs, rhs) {
            (Some(l), Some(r)) => self.convert_fuel(level + 1, &l, &r, fuel - 1),
            _ => false,
        }
    }
}

impl Default for EmptyConstEnv {
    fn default() -> (r: Self)
        ensures
            r == EmptyConstEnv,
    {
        EmptyConstEnv
    }
}

// ---------------------------------------------------------------------------
// Laws of conversion
// ---------------------------------------------------------------------------

/// Conversion is symmetric: `a ≡ b` exactly when `b ≡ a`, at every level
/// and budget.
pub proof fn lemma_convert_symmetric<C: ConstEnv>(
    consts: &C,
    mode: TransparencyMode,
    fuel: nat,
    level: usize,
    a: ValueV,
    b: ValueV,
)
    ensures
        convert_spec(consts, mode, fuel, level, a, b) == convert_spec(consts, mode, fuel, level, b, a),
    decreases fuel, 0nat, 0nat,
{
    if fuel > 0 {
        let f = (fuel - 1) as nat;
        match (a, b) {
            (ValueV::Pi(_, _, d1, c1), ValueV::Pi(_, _, d2, c2)) => {
                lemma_convert_symmetric(consts, mode, f, level, *d1, *d2);
                lemma_convert_closure_symmetric(consts, mode, f, level, c1, c2);
            },
            (ValueV::Lam(_, _, d1, c1), ValueV::Lam(_, _, d2, c2)) => {
                lemma_convert_symmetric(consts, mode, f, level, *d1, *d2);
                lemma_convert_closure_symmetric(consts, mode, f, level, c1, c2);
            },
            (ValueV::Lam(_, _, _, c1), _) => {
                if level != usize::MAX {
                    let v = fresh_var_spec(DbLevel(level as u32));
                    match (closure_apply_spec(consts, mode, f, c1, v), apply_spec(consts, mode, f, b, v)) {
                        (Some(l), Some(r)) => {
                            lemma_convert_symmetric(consts, mode, f, (level + 1) as usize, l, r);
                        },
                        _ => {},
                    }
                }
            },
            (_, ValueV::Lam(_, _, _, c2)) => {
                if level != usize::MAX {
                    let v = fresh_var_spec(DbLevel(level as u32));
                    match (apply_spec(consts, mode, f, a, v), closure_apply_spec(consts, mode, f, c2, v)) {
                        (Some(l), Some(r)) => {
                            lemma_convert_symmetric(consts, mode, f, (level + 1) as usize, l, r);
                        },
                        _ => {},
                    }
                }
            },
            (ValueV::Neutral(_, s1), ValueV::Neutral(_, s2)) => {
                if s1.len() == s2.len() {
                    lemma_convert_spines_symmetric(consts, mode, f, level, s1, s2);
                }
            },
            _ => {},
        }
    }
}

/// Pointwise conversion of two spines of one length is symmetric.
pub proof fn lemma_convert_spines_symmetric<C: ConstEnv>(
    consts: &C,
    mode: TransparencyMode,
    fuel: nat,
    level: usize,
    s1: Seq<ValueV>,
    s2: Seq<ValueV>,
)
    requires
        s1.len() == s2.len(),
    ensures
        convert_spines_spec(consts, mode, fuel, level, s1, s2) == convert_spines_spec(consts, mode, fuel, level, s2, s1),
    decreases fuel, 1nat, s1.len(),
{
    if s1.len() > 0 {
        lemma_convert_symmetric(consts, mode, fuel, level, s1[0], s2[0]);
        lemma_convert_spines_symmetric(consts, mode, fuel, level, s1.drop_first(), s2.drop_first());
    }
}

/// Conversion of two closure bodies is symmetric.
pub proof fn lemma_convert_closure_symmetric<C: ConstEnv>(
    consts: &C,
    mode: TransparencyMode,
    fuel: nat,
    level: usize,
    c1: ClosureV,
    c2: ClosureV,
)
    ensures
        convert_closure_spec(consts, mode, fuel, level, c1, c2) == convert_closure_spec(consts, mode, fuel, level, c2, c1),
    decreases fuel, 0nat, 0nat,
{
    if fuel > 0 && level != usize::MAX {
        let f = (fuel - 1) as nat;
        let v = fresh_var_spec(DbLevel(level as u32));
        match (closure_apply_spec(consts, mode, f, c1, v), closure_apply_spec(consts, mode, f, c2, v)) {
            (Some(l), Some(r)) => {
                lemma_convert_symmetric(consts, mode, f, (level + 1) as usize, l, r);
            },
            _ => {},
        }
    }
}

/// The self-comparison of `a` at `level` completes within the budget:
/// every closure met on the way applies to the fresh variable and the
/// comparison of what it gives completes in turn.
pub open spec fn self_comparison_completes<C: ConstEnv>(
    consts: &C,
    mode: TransparencyMode,
    fuel: nat,
    level: usize,
    a: ValueV,
) -> bool
    decreases fuel, 0nat, 0nat,
{
    if fuel == 0 {
        false
    } else {
        let f = (fuel - 1) as nat;
        match a {
            ValueV::Sort(_) | ValueV::Lit(_) => true,
            ValueV::Pi(_, _, d, c) | ValueV::Lam(_, _, d, c) => self_comparison_completes(consts, mode, f, level, *d)
                && closure_self_comparison_completes(consts, mode, f, level, c),
            ValueV::Neutral(_, s) => spine_self_comparison_completes(consts, mode, f, level, s),
        }
    }
}

/// [`self_comparison_completes`] for a closure: it applies to the fresh
/// variable at `level` and the comparison of the result completes.
pub open spec fn closure_self_comparison_completes<C: ConstEnv>(
    consts: &C,
    mode: TransparencyMode,
    fuel: nat,
    level: usize,
    c: ClosureV,
) -> bool
    decreases fuel, 0nat, 0nat,
{
    if fuel == 0 || level == usize::MAX {
        false
    } else {
        let f = (fuel - 1) as nat;
        match closure_apply_spec(consts, mode, f, c, fresh_var_spec(DbLevel(level as u32))) {
            Some(l) => self_comparison_completes(consts, mode, f, (level + 1) as usize, l),
            None => false,
        }
    }
}

/// [`self_comparison_completes`] for every value of a spine.
pub open spec fn spine_self_comparison_completes<C: ConstEnv>(
    consts: &C,
    mode: TransparencyMode,
    fuel: nat,
    level: usize,
    s: Seq<ValueV>,
) -> bool
    decreases fuel, 1nat, s.len(),
{
    if s.len() == 0 {
        true
    } else {
        self_comparison_completes(consts, mode, fuel, level, s[0]) && spine_self_comparison_completes(
            consts,
            mode,
            fuel,
            level,
            s.drop_first(),
        )
    }
}

/// Conversion is reflexive: a value is convertible with itself whenever
/// the comparison completes. It never fails on a mismatch of shape, head
/// or binder; only an application that produces no value, or the budget,
/// can stop it.
pub proof fn lemma_convert_reflexive<C: ConstEnv>(
    consts: &C,
    mode: TransparencyMode,
    fuel: nat,
    level: usize,
    a: ValueV,
)
    requires
        self_comparison_completes(consts, mode, fuel, level, a),
    ensures
        convert_spec(consts, mode, fuel, level, a, a),
    decreases fuel, 0nat, 0nat,
{
    let f = (fuel - 1) as nat;
    match a {
        ValueV::Pi(_, _, d, c) | ValueV::Lam(_, _, d, c) => {
            lemma_convert_reflexive(consts, mode, f, level, *d);
            lemma_convert_closure_reflexive(consts, mode, f, level, c);
        },
        ValueV::Neutral(_, s) => {
            lemma_convert_spines_reflexive(consts, mode, f, level, s);
        },
        _ => {},
    }
}

/// A closure is convertible with itself whenever its comparison completes.
pub proof fn lemma_convert_closure_reflexive<C: ConstEnv>(
    consts: &C,
    mode: TransparencyMode,
    fuel: nat,
    level: usize,
    c: ClosureV,
)
    requires
        closure_self_comparison_completes(consts, mode, fuel, level, c),
    ensures
        convert_closure_spec(consts, mode, fuel, level, c, c),
    decreases fuel, 0nat, 0nat,
{
    let f = (fuel - 1) as nat;
    let v = fresh_var_spec(DbLevel(level as u32));
    match closure_apply_spec(consts, mode, f, c, v) {
        Some(l) => {
            lemma_convert_reflexive(consts, mode, f, (level + 1) as usize, l);
        },
        None => {},
    }
}

/// A spine is convertible with itself whenever the comparison of each of
/// its values completes.
pub proof fn lemma_convert_spines_reflexive<C: ConstEnv>(
    consts: &C,
    mode: TransparencyMode,
    fuel: nat,
    level: usize,
    s: Seq<ValueV>,
)
    requires
        spine_self_comparison_completes(consts, mode, fuel, level, s),
    ensures
        convert_spines_spec(consts, mode, fuel, level, s, s),
    decreases fuel, 1nat, s.len(),
{
    if s.len() > 0 {
        lemma_convert_reflexive(consts, mode, fuel, level, s[0]);
        lemma_convert_spines_reflexive(consts, mode, fuel, level, s.drop_first());
    }
}

/// `a` holds no binder, and its neutral applications nest fewer than `d`
/// deep.
pub open spec fn binder_free_within(a: ValueV, d: nat) -> bool
    decreases d,
{
    if d == 0 {
        false
    } else {
        match a {
            ValueV::Sort(_) | ValueV::Lit(_) => true,
            ValueV::Pi(..) | ValueV::Lam(..) => false,
            ValueV::Neutral(_, s) => forall|i: int| 0 <= i < s.len() ==> binder_free_within(#[trigger] s[i], (d - 1) as nat),
        }
    }
}

/// The comparison of a binder-free value with itself completes once the
/// budget exceeds its nesting, so such a value is convertible with itself
/// at every level.
pub proof fn lemma_binder_free_reflexive<C: ConstEnv>(
    consts: &C,
    mode: TransparencyMode,
    fuel: nat,
    level: usize,
    a: ValueV,
    d: nat,
)
    requires
        binder_free_within(a, d),
        d <= fuel,
    ensures
        self_comparison_completes(consts, mode, fuel, level, a),
        convert_spec(consts, mode, fuel, level, a, a),
{
    lemma_binder_free_completes(consts, mode, fuel, level, a, d);
    lemma_convert_reflexive(consts, mode, fuel, level, a);
}

proof fn lemma_binder_free_completes<C: ConstEnv>(
    consts: &C,
    mode: TransparencyMode,
    fuel: nat,
    level: usize,
    a: ValueV,
    d: nat,
)
    requires
        binder_free_within(a, d),
        d <= fuel,
    ensures
        self_comparison_completes(consts, mode, fuel, level, a),
    decreases d, 0nat, 0nat,
{
    match a {
        ValueV::Neutral(_, s) => {
            lemma_binder_free_spine_completes(consts, mode, (fuel - 1) as nat, level, s, (d - 1) as nat);
        },
        _ => {},
    }
}

proof fn lemma_binder_free_spine_completes<C: ConstEnv>(
    consts: &C,
    mode: TransparencyMode,
    fuel: nat,
    level: usize,
    s: Seq<ValueV>,
    d: nat,
)
    requires
        forall|i: int| 0 <= i < s.len() ==> binder_free_within(#[trigger] s[i], d),
        d <= fuel,
    ensures
        spine_self_comparison_completes(consts, mode, fuel, level, s),
    decreases d, 1nat, s.len(),
{
    if s.len() > 0 {
        assert(binder_free_within(s[0], d));
        lemma_binder_free_completes(consts, mode, fuel, level, s[0], d);
        assert forall|i: int| 0 <= i < s.drop_first().len() implies binder_free_within(#[trigger] s.drop_first()[i], d) by {
            assert(s.drop_first()[i] == s[i + 1]);
        }
        lemma_binder_free_spine_completes(consts, mode, fuel, level, s.drop_first(), d);
    }
}

// ---------------------------------------------------------------------------
// Laws of environments
// ---------------------------------------------------------------------------

/// Extending an environment by `v` puts `v` at index 0 and moves each
/// earlier binding up by one index: after [`Env::extend`], [`Env::lookup`]
/// at 0 gives `v` and at `i + 1` gives what it gave at `i`, and the length
/// grows by one. The extended environment is a new value; the old one is
/// unchanged.
pub proof fn lemma_env_extend_lookup(e: Seq<ValueV>, v: ValueV)
    ensures
        (seq![v] + e).len() == e.len() + 1,
        (seq![v] + e)[0] == v,
        forall|i: int| 0 <= i < e.len() ==> #[trigger] (seq![v] + e)[i + 1] == e[i],
{
}

/// Two Π-types are convertible only when their binder annotations agree,
/// their domains are convertible and their codomains are convertible: a
/// Π-type is never equal to one over a different domain.
pub proof fn lemma_convert_pi_parts<C: ConstEnv>(
    consts: &C,
    mode: TransparencyMode,
    fuel: nat,
    level: usize,
    i1: BinderInfo,
    n1: NameId,
    d1: ValueV,
    c1: ClosureV,
    i2: BinderInfo,
    n2: NameId,
    d2: ValueV,
    c2: ClosureV,
)
    requires
        convert_spec(
            consts,
            mode,
            fuel,
            level,
            ValueV::Pi(i1, n1, Box::new(d1), c1),
            ValueV::Pi(i2, n2, Box::new(d2), c2),
        ),
    ensures
        fuel > 0,
        i1 == i2,
        convert_spec(consts, mode, (fuel - 1) as nat, level, d1, d2),
        convert_closure_spec(consts, mode, (fuel - 1) as nat, level, c1, c2),
{
}

/// Two Π-types whose domains are sorts of different meaning (under some
/// assignment of the universe parameters) are not convertible; so, for
/// instance, `Prop → A` and `Type → A` differ. Conversely, convertible
/// Π-types over sorts have domain levels equal under every assignment.
pub proof fn lemma_convert_pi_sort_domains<C: ConstEnv>(
    consts: &C,
    mode: TransparencyMode,
    fuel: nat,
    level: usize,
    i1: BinderInfo,
    n1: NameId,
    l1: Level,
    c1: ClosureV,
    i2: BinderInfo,
    n2: NameId,
    l2: Level,
    c2: ClosureV,
    rho: spec_fn(UniverseParamId) -> nat,
)
    requires
        eval_level(l1, rho) != eval_level(l2, rho),
    ensures
        !convert_spec(
            consts,
            mode,
            fuel,
            level,
            ValueV::Pi(i1, n1, Box::new(ValueV::Sort(l1)), c1),
            ValueV::Pi(i2, n2, Box::new(ValueV::Sort(l2)), c2),
        ),
{
    if convert_spec(
        consts,
        mode,
        fuel,
        level,
        ValueV::Pi(i1, n1, Box::new(ValueV::Sort(l1)), c1),
        ValueV::Pi(i2, n2, Box::new(ValueV::Sort(l2)), c2),
    ) {
        lemma_convert_pi_parts(consts, mode, fuel, level, i1, n1, ValueV::Sort(l1), c1, i2, n2, ValueV::Sort(l2), c2);
        assert(norm(l1) == norm(l2));
        lemma_norm_preserves_eval(l1, rho);
        lemma_norm_preserves_eval(l2, rho);
    }
}

/// Two λ-abstractions are convertible only when their binder annotations
/// agree, their domains are convertible and their bodies are convertible.
pub proof fn lemma_convert_lam_parts<C: ConstEnv>(
    consts: &C,
    mode: TransparencyMode,
    fuel: nat,
    level: usize,
    i1: BinderInfo,
    n1: NameId,
    d1: ValueV,
    c1: ClosureV,
    i2: BinderInfo,
    n2: NameId,
    d2: ValueV,
    c2: ClosureV,
)
    requires
        convert_spec(
            consts,
            mode,
            fuel,
            level,
            ValueV::Lam(i1, n1, Box::new(d1), c1),
            ValueV::Lam(i2, n2, Box::new(d2), c2),
        ),
    ensures
        fuel > 0,
        i1 == i2,
        convert_spec(consts, mode, (fuel - 1) as nat, level, d1, d2),
        convert_closure_spec(consts, mode, (fuel - 1) as nat, level, c1, c2),
{
}

/// Two sorts are convertible exactly when their levels have one canonical
/// form, and then their levels mean the same under every assignment.
pub proof fn lemma_convert_sorts<C: ConstEnv>(
    consts: &C,
    mode: TransparencyMode,
    fuel: nat,
    level: usize,
    l1: Level,
    l2: Level,
    rho: spec_fn(UniverseParamId) -> nat,
)
    requires
        fuel > 0,
    ensures
        convert_spec(consts, mode, fuel, level, ValueV::Sort(l1), ValueV::Sort(l2)) <==> norm(l1) == norm(l2),
        convert_spec(consts, mode, fuel, level, ValueV::Sort(l1), ValueV::Sort(l2)) ==> eval_level(l1, rho)
            == eval_level(l2, rho),
{
    lemma_norm_preserves_eval(l1, rho);
    lemma_norm_preserves_eval(l2, rho);
}

} // verus!
