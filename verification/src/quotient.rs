//! Built-in predicative quotient types.
//!
//! [`register_quotient`] adds the four quotient primitives to a
//! [`GlobalEnv`]:
//!
//! ```text
//! Quot.{u}      : Π {A : Sort u}. (A → A → Prop) → Sort u
//! Quot.mk.{u}   : Π {A : Sort u} (r : A → A → Prop) (a : A). Quot A r
//! Quot.lift.{u, v} : Π {A : Sort u} {r : A → A → Prop} {B : Sort v}
//!                      (f : A → B)
//!                      (h : Π (a b : A). r a b → Eq.{v} B (f a) (f b))
//!                      (q : Quot A r). B
//! Quot.sound.{u} : Π {A : Sort u} {r : A → A → Prop} {a b : A}
//!                    (h : r a b).
//!                    Eq.{u} (Quot A r) (Quot.mk A r a) (Quot.mk A r b)
//! ```
//!
//! `Quot` is predicative: `A : Sort u` and `r : A → A → Prop` give
//! `Quot A r : Sort u`, so no universe collapses and the quotient axiom
//! stays consistent with an impredicative `Prop`. The four primitives are
//! axioms wrapped in [`ConstantInfo::Quotient`]; `Quot.lift` carries the
//! β-rule `Quot.lift f h (Quot.mk r a) ≡ f a`, which the NbE engine fires
//! once all six arguments are present.

use vstd::prelude::*;
use std::rc::Rc;
use crate::env::{ConstantInfo, ConstantVal, EnvError, EnvErrorV, GlobalEnv, QuotientKind, QuotientVal, defs_of};
use crate::expr::{BinderInfo, Expr, ExprV};
use crate::level::{Level, UniverseParamId};
use crate::name::{NameId, NameTable, id_of, lemma_id_of, no_duplicates};
use crate::terms::{
    app_v, const_v, mk_app, mk_const1, mk_pi, mk_prop, mk_sort_param, mk_var, params1, params2, pi_v, prop_v,
    sort_param_v, var_v,
};

verus! {

/// Names and universe parameters of the quotient primitives registered by
/// [`register_quotient`].
#[derive(Clone, Copy, Debug, PartialEq, Eq, Structural)]
pub struct QuotientPrelude {
    /// `Quot`'s identifier.
    pub quot: NameId,
    /// `Quot.mk`'s identifier.
    pub mk: NameId,
    /// `Quot.lift`'s identifier.
    pub lift: NameId,
    /// `Quot.sound`'s identifier.
    pub sound: NameId,
    /// `Quot`'s universe parameter (shared with `Quot.mk` and `Quot.sound`).
    pub quot_u: UniverseParamId,
    /// `Quot.lift`'s codomain universe parameter.
    pub lift_v: UniverseParamId,
}

// ---------------------------------------------------------------------------
// The declared types
// ---------------------------------------------------------------------------

/// The binder names the quotient types use, as interned in a table.
#[derive(Clone, Copy)]
pub struct QuotBinders {
    pub a: NameId,
    pub r: NameId,
    pub b: NameId,
    pub us: NameId,
    pub f: NameId,
    pub h: NameId,
    pub q: NameId,
    pub x: NameId,
    pub y: NameId,
}

/// The binder names of the quotient types in the table `t`.
pub open spec fn quot_binders(t: Seq<Seq<char>>) -> QuotBinders {
    QuotBinders {
        a: id_of(t, "A"@),
        r: id_of(t, "r"@),
        b: id_of(t, "B"@),
        us: id_of(t, "_"@),
        f: id_of(t, "f"@),
        h: id_of(t, "h"@),
        q: id_of(t, "q"@),
        x: id_of(t, "x"@),
        y: id_of(t, "y"@),
    }
}

/// `A → A → Prop` where `A` is the variable just outside.
pub open spec fn relation_v(n: QuotBinders) -> ExprV {
    pi_v(BinderInfo::Default, n.us, var_v(0), pi_v(BinderInfo::Default, n.us, var_v(1), prop_v()))
}

/// `Quot.{u} : Π {A : Sort u}. (A → A → Prop) → Sort u`.
pub open spec fn quot_type_v(n: QuotBinders, u: UniverseParamId) -> ExprV {
    pi_v(
        BinderInfo::Implicit,
        n.a,
        sort_param_v(u),
        pi_v(BinderInfo::Default, n.r, relation_v(n), sort_param_v(u)),
    )
}

/// `Quot.{u} A r` with `A` and `r` at the given indices.
pub open spec fn quot_of_v(quot: NameId, u: UniverseParamId, a: u32, r: u32) -> ExprV {
    app_v(app_v(const_v(quot, seq![Level::Param(u)]), var_v(a)), var_v(r))
}

/// `Quot.mk.{u} : Π {A : Sort u} (r : A → A → Prop) (a : A). Quot A r`.
pub open spec fn mk_type_v(n: QuotBinders, quot: NameId, u: UniverseParamId) -> ExprV {
    pi_v(
        BinderInfo::Implicit,
        n.a,
        sort_param_v(u),
        pi_v(
            BinderInfo::Default,
            n.r,
            relation_v(n),
            pi_v(BinderInfo::Default, n.x, var_v(1), quot_of_v(quot, u, 2, 1)),
        ),
    )
}

/// The type of `Quot.lift`'s `h`:
/// `Π (a b : A). r a b → Eq.{v} B (f a) (f b)`.
pub open spec fn lift_h_v(n: QuotBinders, eq: NameId, v: UniverseParamId) -> ExprV {
    pi_v(
        BinderInfo::Default,
        n.a,
        var_v(3),
        pi_v(
            BinderInfo::Default,
            n.y,
            var_v(4),
            pi_v(
                BinderInfo::Default,
                n.us,
                app_v(app_v(var_v(4), var_v(1)), var_v(0)),
                app_v(
                    app_v(app_v(const_v(eq, seq![Level::Param(v)]), var_v(4)), app_v(var_v(3), var_v(2))),
                    app_v(var_v(3), var_v(1)),
                ),
            ),
        ),
    )
}

/// `Quot.lift.{u, v} : Π {A : Sort u} {r : A → A → Prop} {B : Sort v}
/// (f : A → B) (h : ..) (q : Quot A r). B`.
pub open spec fn lift_type_v(n: QuotBinders, quot: NameId, eq: NameId, u: UniverseParamId, v: UniverseParamId) -> ExprV {
    pi_v(
        BinderInfo::Implicit,
        n.a,
        sort_param_v(u),
        pi_v(
            BinderInfo::Implicit,
            n.r,
            relation_v(n),
            pi_v(
                BinderInfo::Implicit,
                n.b,
                sort_param_v(v),
                pi_v(
                    BinderInfo::Default,
                    n.f,
                    pi_v(BinderInfo::Default, n.us, var_v(2), var_v(1)),
                    pi_v(
                        BinderInfo::Default,
                        n.h,
                        lift_h_v(n, eq, v),
                        pi_v(BinderInfo::Default, n.q, quot_of_v(quot, u, 4, 3), var_v(3)),
                    ),
                ),
            ),
        ),
    )
}

/// `Quot.mk.{u} A r x` with the arguments at the given indices.
pub open spec fn mk_of_v(mk: NameId, u: UniverseParamId, a: u32, r: u32, x: u32) -> ExprV {
    app_v(app_v(app_v(const_v(mk, seq![Level::Param(u)]), var_v(a)), var_v(r)), var_v(x))
}

/// `Quot.sound.{u} : Π {A : Sort u} {r : A → A → Prop} {a b : A}
/// (h : r a b). Eq.{u} (Quot A r) (Quot.mk A r a) (Quot.mk A r b)`.
pub open spec fn sound_type_v(n: QuotBinders, quot: NameId, mk: NameId, eq: NameId, u: UniverseParamId) -> ExprV {
    pi_v(
        BinderInfo::Implicit,
        n.a,
        sort_param_v(u),
        pi_v(
            BinderInfo::Implicit,
            n.r,
            relation_v(n),
            pi_v(
                BinderInfo::Implicit,
                n.x,
                var_v(1),
                pi_v(
                    BinderInfo::Implicit,
                    n.y,
                    var_v(2),
                    pi_v(
                        BinderInfo::Default,
                        n.h,
                        app_v(app_v(var_v(2), var_v(1)), var_v(0)),
                        app_v(
                            app_v(
                                app_v(const_v(eq, seq![Level::Param(u)]), quot_of_v(quot, u, 4, 3)),
                                mk_of_v(mk, u, 4, 3, 2),
                            ),
                            mk_of_v(mk, u, 4, 3, 1),
                        ),
                    ),
                ),
            ),
        ),
    )
}

/// `true` iff `info` is the quotient primitive `name` of kind `kind`, with
/// universe parameters `params` and type `ty`.
pub open spec fn is_quotient_decl(
    info: ConstantInfo,
    name: NameId,
    params: Seq<UniverseParamId>,
    kind: QuotientKind,
    ty: ExprV,
) -> bool {
    &&& info is Quotient
    &&& info->Quotient_0.base.name == name
    &&& info->Quotient_0.base.universe_params@ == params
    &&& (*info->Quotient_0.base.ty)@ == ty
    &&& info->Quotient_0.kind == kind
}

/// The identifiers and universe parameters of the quotient primitives in
/// the table `t`.
pub open spec fn quotient_prelude_of(t: Seq<Seq<char>>, quot_u: UniverseParamId, lift_v: UniverseParamId) -> QuotientPrelude {
    QuotientPrelude {
        quot: id_of(t, "Quot"@),
        mk: id_of(t, "Quot.mk"@),
        lift: id_of(t, "Quot.lift"@),
        sound: id_of(t, "Quot.sound"@),
        quot_u,
        lift_v,
    }
}

/// The first of the four primitives' names that `m` already declares.
pub open spec fn first_taken(m: Map<NameId, ConstantInfo>, q: QuotientPrelude) -> Option<NameId> {
    if m.contains_key(q.quot) {
        Some(q.quot)
    } else if m.contains_key(q.mk) {
        Some(q.mk)
    } else if m.contains_key(q.lift) {
        Some(q.lift)
    } else if m.contains_key(q.sound) {
        Some(q.sound)
    } else {
        None
    }
}

/// `true` iff `m2` is `m` with the four primitives of `q` added, with the
/// types above.
pub open spec fn with_quotients(
    m: Map<NameId, ConstantInfo>,
    m2: Map<NameId, ConstantInfo>,
    q: QuotientPrelude,
    n: QuotBinders,
    eq: NameId,
) -> bool {
    &&& m2.dom() == m.dom().insert(q.quot).insert(q.mk).insert(q.lift).insert(q.sound)
    &&& forall|k: NameId| #[trigger] m.contains_key(k) ==> m2[k] == m[k]
    &&& is_quotient_decl(m2[q.quot], q.quot, seq![q.quot_u], QuotientKind::Type, quot_type_v(n, q.quot_u))
    &&& is_quotient_decl(m2[q.mk], q.mk, seq![q.quot_u], QuotientKind::Mk, mk_type_v(n, q.quot, q.quot_u))
    &&& is_quotient_decl(
        m2[q.lift],
        q.lift,
        seq![q.quot_u, q.lift_v],
        QuotientKind::Lift { mk: q.mk, arity: 6, func_index: 3, major_index: 5 },
        lift_type_v(n, q.quot, eq, q.quot_u, q.lift_v),
    )
    &&& is_quotient_decl(m2[q.sound], q.sound, seq![q.quot_u], QuotientKind::Sound, sound_type_v(n, q.quot, q.mk, eq, q.quot_u))
}

/// `true` iff `t2` extends `t`.
pub open spec fn extends(t: Seq<Seq<char>>, t2: Seq<Seq<char>>) -> bool {
    t.len() <= t2.len() && forall|k: int| 0 <= k < t.len() ==> #[trigger] t2[k] == t[k]
}

// ---------------------------------------------------------------------------
// Registration
// ---------------------------------------------------------------------------

/// A block holding one declaration that is not a definition has no
/// definitions.
proof fn lemma_no_defs(info: ConstantInfo)
    requires
        !(info is Definition),
    ensures
        defs_of(seq![info]) == Seq::<crate::env::DefinitionVal>::empty(),
{
    assert(seq![info].drop_last() =~= Seq::<ConstantInfo>::empty());
    assert(seq![info].last() == info);
    reveal_with_fuel(defs_of, 2);
}

/// Add a quotient primitive whose name `env` does not declare yet.
fn insert_quotient(
    env: &mut GlobalEnv,
    name: NameId,
    universe_params: Vec<UniverseParamId>,
    ty: Expr,
    kind: QuotientKind,
)
    requires
        old(env).wf(),
        !old(env)@.contains_key(name),
    ensures
        final(env).wf(),
        final(env)@.dom() == old(env)@.dom().insert(name),
        forall|k: NameId| #[trigger] old(env)@.contains_key(k) ==> final(env)@[k] == old(env)@[k],
        is_quotient_decl(final(env)@[name], name, universe_params@, kind, ty@),
{
    let info = ConstantInfo::Quotient(QuotientVal { base: ConstantVal { name, universe_params, ty: Rc::new(ty) }, kind });
    proof { lemma_no_defs(info); }
    let r = env.add(info);
    assert(r is Ok);
    assert(final(env)@.dom() =~= old(env)@.dom().insert(name));
}

/// `t[id] == s`.
pub open spec fn names_at(t: Seq<Seq<char>>, id: NameId, s: Seq<char>) -> bool {
    id.0 < t.len() && t[id.0 as int] == s
}

/// Intern `s`.
fn intern_at(names: &mut NameTable, s: &str) -> (id: NameId)
    requires
        old(names)@.len() < u32::MAX,
    ensures
        extends(old(names)@, final(names)@),
        final(names)@.len() <= old(names)@.len() + 1,
        names_at(final(names)@, id, s@),
        no_duplicates(final(names)@),
{
    names.intern(s)
}

/// Intern the names of the four primitives.
fn intern_primitives(names: &mut NameTable) -> (r: (NameId, NameId, NameId, NameId))
    requires
        old(names)@.len() + 4 < u32::MAX,
    ensures
        extends(old(names)@, final(names)@),
        final(names)@.len() <= old(names)@.len() + 4,
        names_at(final(names)@, r.0, "Quot"@),
        names_at(final(names)@, r.1, "Quot.mk"@),
        names_at(final(names)@, r.2, "Quot.lift"@),
        names_at(final(names)@, r.3, "Quot.sound"@),
{
    let quot = intern_at(names, "Quot");
    let mk = intern_at(names, "Quot.mk");
    let lift = intern_at(names, "Quot.lift");
    let sound = intern_at(names, "Quot.sound");
    (quot, mk, lift, sound)
}

/// Intern the binder names of the quotient types.
fn intern_binders(names: &mut NameTable) -> (n: QuotBinders)
    requires
        old(names)@.len() + 9 < u32::MAX,
    ensures
        extends(old(names)@, final(names)@),
        no_duplicates(final(names)@),
        names_at(final(names)@, n.a, "A"@),
        names_at(final(names)@, n.r, "r"@),
        names_at(final(names)@, n.b, "B"@),
        names_at(final(names)@, n.us, "_"@),
        names_at(final(names)@, n.f, "f"@),
        names_at(final(names)@, n.h, "h"@),
        names_at(final(names)@, n.q, "q"@),
        names_at(final(names)@, n.x, "x"@),
        names_at(final(names)@, n.y, "y"@),
{
    let a = intern_at(names, "A");
    let r = intern_at(names, "r");
    let b = intern_at(names, "B");
    let us = intern_at(names, "_");
    let f = intern_at(names, "f");
    let h = intern_at(names, "h");
    let q = intern_at(names, "q");
    let x = intern_at(names, "x");
    let y = intern_at(names, "y");
    QuotBinders { a, r, b, us, f, h, q, x, y }
}

/// `A → A → Prop`, one binder below `A`.
fn relation_expr(n: &QuotBinders) -> (e: Expr)
    ensures
        e@ == relation_v(*n),
{
    mk_pi(BinderInfo::Default, n.us, mk_var(0), mk_pi(BinderInfo::Default, n.us, mk_var(1), mk_prop()))
}

/// `Quot.{u} A r` with `A` and `r` at the given indices.
fn quot_of_expr(quot: NameId, u: UniverseParamId, a: u32, r: u32) -> (e: Expr)
    ensures
        e@ == quot_of_v(quot, u, a, r),
{
    mk_app(mk_app(mk_const1(quot, Level::Param(u)), mk_var(a)), mk_var(r))
}

/// `Quot.mk.{u} A r x` with `A`, `r` at indices 4 and 3.
fn mk_of_expr(mk: NameId, u: UniverseParamId, x: u32) -> (e: Expr)
    ensures
        e@ == mk_of_v(mk, u, 4, 3, x),
{
    mk_app(mk_app(mk_app(mk_const1(mk, Level::Param(u)), mk_var(4)), mk_var(3)), mk_var(x))
}

/// The type of `Quot`.
fn quot_type(n: &QuotBinders, u: UniverseParamId) -> (e: Expr)
    ensures
        e@ == quot_type_v(*n, u),
{
    mk_pi(BinderInfo::Implicit, n.a, mk_sort_param(u), mk_pi(BinderInfo::Default, n.r, relation_expr(n), mk_sort_param(u)))
}

/// The type of `Quot.mk`.
fn mk_type(n: &QuotBinders, quot: NameId, u: UniverseParamId) -> (e: Expr)
    ensures
        e@ == mk_type_v(*n, quot, u),
{
    mk_pi(
        BinderInfo::Implicit,
        n.a,
        mk_sort_param(u),
        mk_pi(
            BinderInfo::Default,
            n.r,
            relation_expr(n),
            mk_pi(BinderInfo::Default, n.x, mk_var(1), quot_of_expr(quot, u, 2, 1)),
        ),
    )
}

/// The type of `Quot.lift`'s `h` argument.
fn lift_h_expr(n: &QuotBinders, eq: NameId, v: UniverseParamId) -> (e: Expr)
    ensures
        e@ == lift_h_v(*n, eq, v),
{
    mk_pi(
        BinderInfo::Default,
        n.a,
        mk_var(3),
        mk_pi(
            BinderInfo::Default,
            n.y,
            mk_var(4),
            mk_pi(
                BinderInfo::Default,
                n.us,
                mk_app(mk_app(mk_var(4), mk_var(1)), mk_var(0)),
                mk_app(
                    mk_app(mk_app(mk_const1(eq, Level::Param(v)), mk_var(4)), mk_app(mk_var(3), mk_var(2))),
                    mk_app(mk_var(3), mk_var(1)),
                ),
            ),
        ),
    )
}

/// The type of `Quot.lift`.
fn lift_type(n: &QuotBinders, quot: NameId, eq: NameId, u: UniverseParamId, v: UniverseParamId) -> (e: Expr)
    ensures
        e@ == lift_type_v(*n, quot, eq, u, v),
{
    mk_pi(
        BinderInfo::Implicit,
        n.a,
        mk_sort_param(u),
        mk_pi(
            BinderInfo::Implicit,
            n.r,
            relation_expr(n),
            mk_pi(
                BinderInfo::Implicit,
                n.b,
                mk_sort_param(v),
                mk_pi(
                    BinderInfo::Default,
                    n.f,
                    mk_pi(BinderInfo::Default, n.us, mk_var(2), mk_var(1)),
                    mk_pi(
                        BinderInfo::Default,
                        n.h,
                        lift_h_expr(n, eq, v),
                        mk_pi(BinderInfo::Default, n.q, quot_of_expr(quot, u, 4, 3), mk_var(3)),
                    ),
                ),
            ),
        ),
    )
}

/// The type of `Quot.sound`.
fn sound_type(n: &QuotBinders, quot: NameId, mk: NameId, eq: NameId, u: UniverseParamId) -> (e: Expr)
    ensures
        e@ == sound_type_v(*n, quot, mk, eq, u),
{
    let cod = mk_app(
        mk_app(mk_app(mk_const1(eq, Level::Param(u)), quot_of_expr(quot, u, 4, 3)), mk_of_expr(mk, u, 2)),
        mk_of_expr(mk, u, 1),
    );
    mk_pi(
        BinderInfo::Implicit,
        n.a,
        mk_sort_param(u),
        mk_pi(
            BinderInfo::Implicit,
            n.r,
            relation_expr(n),
            mk_pi(
                BinderInfo::Implicit,
                n.x,
                mk_var(1),
                mk_pi(
                    BinderInfo::Implicit,
                    n.y,
                    mk_var(2),
                    mk_pi(BinderInfo::Default, n.h, mk_app(mk_app(mk_var(2), mk_var(1)), mk_var(0)), cod),
                ),
            ),
        ),
    )
}

/// Register the four quotient primitives in `env`.
///
/// `eq_name` names an `Eq`-like family `Eq : Π {A : Sort u}. A → A → Prop`,
/// which the types of `Quot.lift` and `Quot.sound` mention. The names are
/// interned in `names` first; if `env` already declares one of the four,
/// that name is reported and `env` is left unchanged. `quot_u` is the
/// universe parameter of all four and `lift_v` the codomain universe of
/// `Quot.lift`; the caller draws them fresh, so they differ.
pub fn register_quotient(
    env: &mut GlobalEnv,
    names: &mut NameTable,
    eq_name: NameId,
    quot_u: UniverseParamId,
    lift_v: UniverseParamId,
) -> (r: Result<QuotientPrelude, EnvError>)
    requires
        old(env).wf(),
        old(names)@.len() + 13 < u32::MAX,
        quot_u != lift_v,
    ensures
        final(env).wf(),
        extends(old(names)@, final(names)@),
        match r {
            Ok(q) => {
                &&& q == quotient_prelude_of(final(names)@, quot_u, lift_v)
                &&& first_taken(old(env)@, q) is None
                &&& with_quotients(old(env)@, final(env)@, q, quot_binders(final(names)@), eq_name)
            },
            Err(e) => {
                &&& first_taken(old(env)@, quotient_prelude_of(final(names)@, quot_u, lift_v)) is Some
                &&& e@ == EnvErrorV::DuplicateDeclaration(
                    first_taken(old(env)@, quotient_prelude_of(final(names)@, quot_u, lift_v))->0,
                )
                &&& final(env)@ == old(env)@
            },
        },
{
    let ghost t0 = names@;
    let (quot, mk, lift, sound) = intern_primitives(names);
    let ghost t1 = names@;
    let n = intern_binders(names);
    let ghost t = names@;
    proof {
        assert(extends(t0, t));
        lemma_id_of(t, "Quot"@, quot);
        lemma_id_of(t, "Quot.mk"@, mk);
        lemma_id_of(t, "Quot.lift"@, lift);
        lemma_id_of(t, "Quot.sound"@, sound);
        lemma_id_of(t, "A"@, n.a);
        lemma_id_of(t, "r"@, n.r);
        lemma_id_of(t, "B"@, n.b);
        lemma_id_of(t, "_"@, n.us);
        lemma_id_of(t, "f"@, n.f);
        lemma_id_of(t, "h"@, n.h);
        lemma_id_of(t, "q"@, n.q);
        lemma_id_of(t, "x"@, n.x);
        lemma_id_of(t, "y"@, n.y);
        reveal_strlit("Quot");
        reveal_strlit("Quot.mk");
        reveal_strlit("Quot.lift");
        reveal_strlit("Quot.sound");
        assert("Quot"@.len() == 4 && "Quot.mk"@.len() == 7 && "Quot.lift"@.len() == 9 && "Quot.sound"@.len() == 10);
        assert(t[quot.0 as int].len() == 4 && t[mk.0 as int].len() == 7);
        assert(t[lift.0 as int].len() == 9 && t[sound.0 as int].len() == 10);
        assert(quot != mk && quot != lift && quot != sound && mk != lift && mk != sound && lift != sound);
        assert(n == quot_binders(t));
    }
    let qp = QuotientPrelude { quot, mk, lift, sound, quot_u, lift_v };

    if env.contains(quot) {
        return Err(EnvError::DuplicateDeclaration(quot));
    }
    if env.contains(mk) {
        return Err(EnvError::DuplicateDeclaration(mk));
    }
    if env.contains(lift) {
        return Err(EnvError::DuplicateDeclaration(lift));
    }
    if env.contains(sound) {
        return Err(EnvError::DuplicateDeclaration(sound));
    }

    let ghost m0 = env@;
    insert_quotient(env, quot, params1(quot_u), quot_type(&n, quot_u), QuotientKind::Type);
    let ghost m1 = env@;
    insert_quotient(env, mk, params1(quot_u), mk_type(&n, quot, quot_u), QuotientKind::Mk);
    let ghost m2 = env@;
    insert_quotient(
        env,
        lift,
        params2(quot_u, lift_v),
        lift_type(&n, quot, eq_name, quot_u, lift_v),
        QuotientKind::Lift { mk, arity: 6, func_index: 3, major_index: 5 },
    );
    let ghost m3 = env@;
    insert_quotient(env, sound, params1(quot_u), sound_type(&n, quot, mk, eq_name, quot_u), QuotientKind::Sound);
    proof {
        assert(env@.dom() =~= m0.dom().insert(quot).insert(mk).insert(lift).insert(sound));
        assert(qp == quotient_prelude_of(t, quot_u, lift_v));
        assert(first_taken(m0, qp) is None);
        assert forall|k: NameId| #[trigger] m0.contains_key(k) implies env@[k] == m0[k] by {
            assert(m1.contains_key(k) && m2.contains_key(k) && m3.contains_key(k));
        }
        assert(m1.contains_key(quot) && m2.contains_key(quot) && m3.contains_key(quot));
        assert(m2.contains_key(mk) && m3.contains_key(mk));
        assert(m3.contains_key(lift));
        assert(is_quotient_decl(env@[qp.quot], qp.quot, seq![qp.quot_u], QuotientKind::Type, quot_type_v(n, qp.quot_u)));
        assert(is_quotient_decl(env@[qp.mk], qp.mk, seq![qp.quot_u], QuotientKind::Mk, mk_type_v(n, qp.quot, qp.quot_u)));
        assert(is_quotient_decl(env@[qp.sound], qp.sound, seq![qp.quot_u], QuotientKind::Sound, sound_type_v(n, qp.quot, qp.mk, eq_name, qp.quot_u)));
    }
    Ok(qp)
}

} // verus!
