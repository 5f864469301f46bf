//! Builders for the closed terms that the built-in declarations are made
//! of, each with the abstract term it produces.

use vstd::prelude::*;
use crate::expr::{BinderInfo, DeBruijnIndex, Expr, ExprV};
use crate::level::{Level, UniverseParamId};
use crate::name::NameId;

verus! {

/// `Π (n : a). b` with annotation `i`.
pub open spec fn pi_v(i: BinderInfo, n: NameId, a: ExprV, b: ExprV) -> ExprV {
    ExprV::Pi(i, n, Box::new(a), Box::new(b))
}

/// `λ (n : a). b`.
pub open spec fn lam_v(n: NameId, a: ExprV, b: ExprV) -> ExprV {
    ExprV::Lam(BinderInfo::Default, n, Box::new(a), Box::new(b))
}

/// The variable with de Bruijn index `i`.
pub open spec fn var_v(i: u32) -> ExprV {
    ExprV::Var(DeBruijnIndex(i))
}

/// `f a`.
pub open spec fn app_v(f: ExprV, a: ExprV) -> ExprV {
    ExprV::App(Box::new(f), Box::new(a))
}

/// The constant `n` at universe arguments `ls`.
pub open spec fn const_v(n: NameId, ls: Seq<Level>) -> ExprV {
    ExprV::Const(n, ls)
}

/// `Sort(u)` for a universe parameter `u`.
pub open spec fn sort_param_v(u: UniverseParamId) -> ExprV {
    ExprV::Sort(Level::Param(u))
}

/// `Prop`.
pub open spec fn prop_v() -> ExprV {
    ExprV::Sort(Level::Zero)
}

/// `Type 0`.
pub open spec fn type0_v() -> ExprV {
    ExprV::Sort(Level::Succ(Box::new(Level::Zero)))
}

/// `Π (n : a). b`.
pub fn mk_pi(i: BinderInfo, n: NameId, a: Expr, b: Expr) -> (r: Expr)
    ensures
        r@ == pi_v(i, n, a@, b@),
{
    Expr::Pi(i, n, Box::new(a), Box::new(b))
}

/// `λ (n : a). b`.
pub fn mk_lam(n: NameId, a: Expr, b: Expr) -> (r: Expr)
    ensures
        r@ == lam_v(n, a@, b@),
{
    Expr::Lam(BinderInfo::Default, n, Box::new(a), Box::new(b))
}

/// The variable with de Bruijn index `i`.
pub fn mk_var(i: u32) -> (r: Expr)
    ensures
        r@ == var_v(i),
{
    Expr::Var(DeBruijnIndex(i))
}

/// `f a`.
pub fn mk_app(f: Expr, a: Expr) -> (r: Expr)
    ensures
        r@ == app_v(f@, a@),
{
    Expr::App(Box::new(f), Box::new(a))
}

/// The constant `n` with no universe arguments.
pub fn mk_const0(n: NameId) -> (r: Expr)
    ensures
        r@ == const_v(n, Seq::empty()),
{
    let r = Expr::Const(n, Vec::new());
    assert(r@ == const_v(n, Seq::empty()));
    r
}

/// The constant `n` at the single universe argument `l`.
pub fn mk_const1(n: NameId, l: Level) -> (r: Expr)
    ensures
        r@ == const_v(n, seq![l]),
{
    let mut ls: Vec<Level> = Vec::new();
    ls.push(l);
    assert(ls@ =~= seq![l]);
    Expr::Const(n, ls)
}

/// The constant `n` at the universe arguments `a` and `b`.
pub fn mk_const2(n: NameId, a: Level, b: Level) -> (r: Expr)
    ensures
        r@ == const_v(n, seq![a, b]),
{
    let mut ls: Vec<Level> = Vec::new();
    ls.push(a);
    ls.push(b);
    assert(ls@ =~= seq![a, b]);
    Expr::Const(n, ls)
}

/// `Sort(u)` for a universe parameter `u`.
pub fn mk_sort_param(u: UniverseParamId) -> (r: Expr)
    ensures
        r@ == sort_param_v(u),
{
    Expr::Sort(Level::Param(u))
}

/// `Prop`.
pub fn mk_prop() -> (r: Expr)
    ensures
        r@ == prop_v(),
{
    Expr::Sort(Level::Zero)
}

/// `Type 0`.
pub fn mk_type0() -> (r: Expr)
    ensures
        r@ == type0_v(),
{
    Expr::Sort(Level::Succ(Box::new(Level::Zero)))
}

/// A vector holding exactly `u`.
pub fn params1(u: UniverseParamId) -> (r: Vec<UniverseParamId>)
    ensures
        r@ == seq![u],
{
    let mut v: Vec<UniverseParamId> = Vec::new();
    v.push(u);
    assert(v@ =~= seq![u]);
    v
}

/// A vector holding exactly `u` and `v`.
pub fn params2(u: UniverseParamId, v: UniverseParamId) -> (r: Vec<UniverseParamId>)
    ensures
        r@ == seq![u, v],
{
    let mut out: Vec<UniverseParamId> = Vec::new();
    out.push(u);
    out.push(v);
    assert(out@ =~= seq![u, v]);
    out
}

} // verus!
