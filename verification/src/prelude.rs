//! The minimal standard prelude.
//!
//! [`build_prelude`] builds a [`GlobalEnv`] holding the foundational
//! inductive families `Nat`, `Bool`, `List`, `Option` and `Eq` with their
//! constructors and recursors, the arithmetic on `Nat` (`pred`, `add`,
//! `mul`, `sub`, `pow`), `Bool.not`, and the comparisons on `Nat`
//! (`is_zero`, `beq`, `bne`, `ble`, `blt`, `bgt`, `bge`), all defined
//! through the recursors, so that no definition mentions itself.
//!
//! ```text
//! Nat      : Type 0
//! Nat.zero : Nat
//! Nat.succ : Nat -> Nat
//! Nat.rec.{u} : {motive : Nat -> Sort u}
//!             -> motive Nat.zero
//!             -> ((n : Nat) -> motive n -> motive (Nat.succ n))
//!             -> (t : Nat) -> motive t
//!
//! Bool.rec.{u}     : {motive : Bool -> Sort u} -> motive true -> motive false -> (b : Bool) -> motive b
//! List.{u}         : Type u -> Type u,    with List.nil, List.cons and List.rec.{u,v}
//! Option.{u}       : Type u -> Type u,    with Option.none, Option.some and Option.rec.{u,v}
//! Eq.{u}           : {A : Sort u} -> A -> A -> Prop,    with Eq.refl and Eq.rec.{u,v}
//! ```
//!
//! The constants' names are interned first, in a fixed order, so their
//! identifiers are fixed; the binder names of the terms follow. The
//! contract of [`build_prelude`] states every declaration exactly: its
//! type, its body or constructors, and its recursor's computation rules
//! ([`prelude_decls`]).

use vstd::prelude::*;
use std::rc::Rc;
use crate::env::{
    ConstantInfo, ConstantVal, ConstructorVal, DefinitionVal, EnvError, GlobalEnv, InductiveVal, RecursorRule,
    RecursorVal, TerminationObligation, constructor_problem, ctor_infos, ctor_names, first_declared, first_repeat,
    inductive_problem, insert_all, recursor_problem, with_inductive,
};
use crate::expr::{BinderInfo, Expr, ExprV};
use crate::inductive::{
    carrier_marker, classify_params, constructor_ok, fields_ok, first_bad_constructor, strict_pos_leaf,
    strict_pos_spec, strict_pos_spine, subst_carriers_spec,
};
use crate::level::{Level, UniverseParamId};
use crate::name::{NameId, NameTable, id_of, lemma_id_of, no_duplicates};
use crate::quotient::extends;
use crate::terms::{app_v, const_v, lam_v, pi_v, prop_v, sort_param_v, type0_v, var_v, mk_app, mk_const0, mk_const1, mk_const2, mk_lam, mk_pi, mk_prop, mk_sort_param, mk_type0, mk_var, params1, params2};
use crate::env::{base_of, defs_of, obligations_bounded, mentions, gate_verdict, block_is_recursive, mentions_any, def_names, GateVerdict};
use crate::nbe::Transparency;

verus! {

/// The value of the character at `i`, or `0` past the end.
spec fn char_at(s: Seq<char>, i: int) -> int {
    if 0 <= i < s.len() { s[i] as int } else { 0 }
}

/// A number that tells the prelude's names apart: the length, then the
/// characters at positions 0, 4, 5, 6 and 7.
spec fn name_code(s: Seq<char>) -> int {
    ((((s.len() * 0x200000 + char_at(s, 0)) * 0x200000 + char_at(s, 4)) * 0x200000 + char_at(s, 5)) * 0x200000
        + char_at(s, 6)) * 0x200000 + char_at(s, 7)
}

/// Intern a string whose code is not among `codes`, which holds the code
/// of every string in the table: it is new, so it receives the next
/// identifier.
fn intern_fresh(names: &mut NameTable, s: &str, Ghost(codes): Ghost<Set<int>>) -> (id: NameId)
    requires
        old(names)@.len() < u32::MAX,
        forall|i: int| 0 <= i < old(names)@.len() ==> codes.contains(name_code(#[trigger] old(names)@[i])),
        !codes.contains(name_code(s@)),
    ensures
        id.0 == old(names)@.len(),
        final(names)@ == old(names)@.push(s@),
        forall|i: int|
            0 <= i < final(names)@.len() ==> codes.insert(name_code(s@)).contains(name_code(#[trigger] final(names)@[i])),
{
    proof {
        if old(names)@.contains(s@) {
            let i = choose|i: int| 0 <= i < old(names)@.len() && old(names)@[i] == s@;
            assert(codes.contains(name_code(old(names)@[i])));
        }
    }
    names.intern(s)
}

/// Intern a binder name.
fn intern_keep(names: &mut NameTable, s: &str) -> (id: NameId)
    requires
        old(names)@.len() < u32::MAX,
    ensures
        extends(old(names)@, final(names)@),
        final(names)@.len() <= old(names)@.len() + 1,
        id.0 < final(names)@.len(),
        final(names)@[id.0 as int] == s@,
        no_duplicates(final(names)@),
{
    names.intern(s)
}

/// The binder names that the prelude's terms use.
#[derive(Clone, Copy, Debug, PartialEq, Eq, Structural)]
pub struct PreludeBinders {
    /// `_`
    pub us: NameId,
    /// `A`
    pub a: NameId,
    /// `b`
    pub b: NameId,
    /// `cons_case`
    pub cons_case: NameId,
    /// `false_case`
    pub false_case: NameId,
    /// `h`
    pub h: NameId,
    /// `ih`
    pub ih: NameId,
    /// `j`
    pub j: NameId,
    /// `k`
    pub k: NameId,
    /// `l`
    pub l: NameId,
    /// `m`
    pub m: NameId,
    /// `major`
    pub major: NameId,
    /// `motive`
    pub motive: NameId,
    /// `n`
    pub n: NameId,
    /// `nil_case`
    pub nil_case: NameId,
    /// `none_case`
    pub none_case: NameId,
    /// `o`
    pub o: NameId,
    /// `refl_case`
    pub refl_case: NameId,
    /// `some_case`
    pub some_case: NameId,
    /// `succ_case`
    pub succ_case: NameId,
    /// `true_case`
    pub true_case: NameId,
    /// `x`
    pub x: NameId,
    /// `xs`
    pub xs: NameId,
    /// `y`
    pub y: NameId,
    /// `zero_case`
    pub zero_case: NameId,
}

/// The identifiers of the prelude's binder names in the table `t`.
pub open spec fn prelude_binders(t: Seq<Seq<char>>) -> PreludeBinders {
    PreludeBinders {
        us: id_of(t, "_"@),
        a: id_of(t, "A"@),
        b: id_of(t, "b"@),
        cons_case: id_of(t, "cons_case"@),
        false_case: id_of(t, "false_case"@),
        h: id_of(t, "h"@),
        ih: id_of(t, "ih"@),
        j: id_of(t, "j"@),
        k: id_of(t, "k"@),
        l: id_of(t, "l"@),
        m: id_of(t, "m"@),
        major: id_of(t, "major"@),
        motive: id_of(t, "motive"@),
        n: id_of(t, "n"@),
        nil_case: id_of(t, "nil_case"@),
        none_case: id_of(t, "none_case"@),
        o: id_of(t, "o"@),
        refl_case: id_of(t, "refl_case"@),
        some_case: id_of(t, "some_case"@),
        succ_case: id_of(t, "succ_case"@),
        true_case: id_of(t, "true_case"@),
        x: id_of(t, "x"@),
        xs: id_of(t, "xs"@),
        y: id_of(t, "y"@),
        zero_case: id_of(t, "zero_case"@),
    }
}

/// Intern five binder names.
fn intern_binders_0(names: &mut NameTable) -> (r: (NameId, NameId, NameId, NameId, NameId))
    requires
        old(names)@.len() + 5 < u32::MAX,
    ensures
        extends(old(names)@, final(names)@),
        final(names)@.len() <= old(names)@.len() + 5,
        no_duplicates(final(names)@),
        r.0.0 < final(names)@.len() && final(names)@[r.0.0 as int] == "_"@,
        r.1.0 < final(names)@.len() && final(names)@[r.1.0 as int] == "motive"@,
        r.2.0 < final(names)@.len() && final(names)@[r.2.0 as int] == "zero_case"@,
        r.3.0 < final(names)@.len() && final(names)@[r.3.0 as int] == "succ_case"@,
        r.4.0 < final(names)@.len() && final(names)@[r.4.0 as int] == "n"@,
{
    let us = intern_keep(names, "_");
    let motive = intern_keep(names, "motive");
    let zero_case = intern_keep(names, "zero_case");
    let succ_case = intern_keep(names, "succ_case");
    let n = intern_keep(names, "n");
    (us, motive, zero_case, succ_case, n)
}

/// Intern five binder names.
fn intern_binders_1(names: &mut NameTable) -> (r: (NameId, NameId, NameId, NameId, NameId))
    requires
        old(names)@.len() + 5 < u32::MAX,
    ensures
        extends(old(names)@, final(names)@),
        final(names)@.len() <= old(names)@.len() + 5,
        no_duplicates(final(names)@),
        r.0.0 < final(names)@.len() && final(names)@[r.0.0 as int] == "h"@,
        r.1.0 < final(names)@.len() && final(names)@[r.1.0 as int] == "major"@,
        r.2.0 < final(names)@.len() && final(names)@[r.2.0 as int] == "k"@,
        r.3.0 < final(names)@.len() && final(names)@[r.3.0 as int] == "m"@,
        r.4.0 < final(names)@.len() && final(names)@[r.4.0 as int] == "ih"@,
{
    let h = intern_keep(names, "h");
    let major = intern_keep(names, "major");
    let k = intern_keep(names, "k");
    let m = intern_keep(names, "m");
    let ih = intern_keep(names, "ih");
    (h, major, k, m, ih)
}

/// Intern five binder names.
fn intern_binders_2(names: &mut NameTable) -> (r: (NameId, NameId, NameId, NameId, NameId))
    requires
        old(names)@.len() + 5 < u32::MAX,
    ensures
        extends(old(names)@, final(names)@),
        final(names)@.len() <= old(names)@.len() + 5,
        no_duplicates(final(names)@),
        r.0.0 < final(names)@.len() && final(names)@[r.0.0 as int] == "b"@,
        r.1.0 < final(names)@.len() && final(names)@[r.1.0 as int] == "j"@,
        r.2.0 < final(names)@.len() && final(names)@[r.2.0 as int] == "A"@,
        r.3.0 < final(names)@.len() && final(names)@[r.3.0 as int] == "x"@,
        r.4.0 < final(names)@.len() && final(names)@[r.4.0 as int] == "y"@,
{
    let b = intern_keep(names, "b");
    let j = intern_keep(names, "j");
    let a = intern_keep(names, "A");
    let x = intern_keep(names, "x");
    let y = intern_keep(names, "y");
    (b, j, a, x, y)
}

/// Intern five binder names.
fn intern_binders_3(names: &mut NameTable) -> (r: (NameId, NameId, NameId, NameId, NameId))
    requires
        old(names)@.len() + 5 < u32::MAX,
    ensures
        extends(old(names)@, final(names)@),
        final(names)@.len() <= old(names)@.len() + 5,
        no_duplicates(final(names)@),
        r.0.0 < final(names)@.len() && final(names)@[r.0.0 as int] == "refl_case"@,
        r.1.0 < final(names)@.len() && final(names)@[r.1.0 as int] == "true_case"@,
        r.2.0 < final(names)@.len() && final(names)@[r.2.0 as int] == "false_case"@,
        r.3.0 < final(names)@.len() && final(names)@[r.3.0 as int] == "nil_case"@,
        r.4.0 < final(names)@.len() && final(names)@[r.4.0 as int] == "cons_case"@,
{
    let refl_case = intern_keep(names, "refl_case");
    let true_case = intern_keep(names, "true_case");
    let false_case = intern_keep(names, "false_case");
    let nil_case = intern_keep(names, "nil_case");
    let cons_case = intern_keep(names, "cons_case");
    (refl_case, true_case, false_case, nil_case, cons_case)
}

/// Intern five binder names.
fn intern_binders_4(names: &mut NameTable) -> (r: (NameId, NameId, NameId, NameId, NameId))
    requires
        old(names)@.len() + 5 < u32::MAX,
    ensures
        extends(old(names)@, final(names)@),
        final(names)@.len() <= old(names)@.len() + 5,
        no_duplicates(final(names)@),
        r.0.0 < final(names)@.len() && final(names)@[r.0.0 as int] == "xs"@,
        r.1.0 < final(names)@.len() && final(names)@[r.1.0 as int] == "l"@,
        r.2.0 < final(names)@.len() && final(names)@[r.2.0 as int] == "none_case"@,
        r.3.0 < final(names)@.len() && final(names)@[r.3.0 as int] == "some_case"@,
        r.4.0 < final(names)@.len() && final(names)@[r.4.0 as int] == "o"@,
{
    let xs = intern_keep(names, "xs");
    let l = intern_keep(names, "l");
    let none_case = intern_keep(names, "none_case");
    let some_case = intern_keep(names, "some_case");
    let o = intern_keep(names, "o");
    (xs, l, none_case, some_case, o)
}

/// Every binder name stands at its identifier in `t`.
spec fn binders_placed(t: Seq<Seq<char>>, bs: PreludeBinders) -> bool {
    &&& bs.us.0 < t.len() && t[bs.us.0 as int] == "_"@
    &&& bs.a.0 < t.len() && t[bs.a.0 as int] == "A"@
    &&& bs.b.0 < t.len() && t[bs.b.0 as int] == "b"@
    &&& bs.cons_case.0 < t.len() && t[bs.cons_case.0 as int] == "cons_case"@
    &&& bs.false_case.0 < t.len() && t[bs.false_case.0 as int] == "false_case"@
    &&& bs.h.0 < t.len() && t[bs.h.0 as int] == "h"@
    &&& bs.ih.0 < t.len() && t[bs.ih.0 as int] == "ih"@
    &&& bs.j.0 < t.len() && t[bs.j.0 as int] == "j"@
    &&& bs.k.0 < t.len() && t[bs.k.0 as int] == "k"@
    &&& bs.l.0 < t.len() && t[bs.l.0 as int] == "l"@
    &&& bs.m.0 < t.len() && t[bs.m.0 as int] == "m"@
    &&& bs.major.0 < t.len() && t[bs.major.0 as int] == "major"@
    &&& bs.motive.0 < t.len() && t[bs.motive.0 as int] == "motive"@
    &&& bs.n.0 < t.len() && t[bs.n.0 as int] == "n"@
    &&& bs.nil_case.0 < t.len() && t[bs.nil_case.0 as int] == "nil_case"@
    &&& bs.none_case.0 < t.len() && t[bs.none_case.0 as int] == "none_case"@
    &&& bs.o.0 < t.len() && t[bs.o.0 as int] == "o"@
    &&& bs.refl_case.0 < t.len() && t[bs.refl_case.0 as int] == "refl_case"@
    &&& bs.some_case.0 < t.len() && t[bs.some_case.0 as int] == "some_case"@
    &&& bs.succ_case.0 < t.len() && t[bs.succ_case.0 as int] == "succ_case"@
    &&& bs.true_case.0 < t.len() && t[bs.true_case.0 as int] == "true_case"@
    &&& bs.x.0 < t.len() && t[bs.x.0 as int] == "x"@
    &&& bs.xs.0 < t.len() && t[bs.xs.0 as int] == "xs"@
    &&& bs.y.0 < t.len() && t[bs.y.0 as int] == "y"@
    &&& bs.zero_case.0 < t.len() && t[bs.zero_case.0 as int] == "zero_case"@
}

#[verifier::spinoff_prover]
proof fn lemma_prelude_binders(t: Seq<Seq<char>>, bs: PreludeBinders)
    requires
        no_duplicates(t),
        binders_placed(t, bs),
    ensures
        bs == prelude_binders(t),
{
    lemma_id_of(t, "_"@, bs.us);
    lemma_id_of(t, "A"@, bs.a);
    lemma_id_of(t, "b"@, bs.b);
    lemma_id_of(t, "cons_case"@, bs.cons_case);
    lemma_id_of(t, "false_case"@, bs.false_case);
    lemma_id_of(t, "h"@, bs.h);
    lemma_id_of(t, "ih"@, bs.ih);
    lemma_id_of(t, "j"@, bs.j);
    lemma_id_of(t, "k"@, bs.k);
    lemma_id_of(t, "l"@, bs.l);
    lemma_id_of(t, "m"@, bs.m);
    lemma_id_of(t, "major"@, bs.major);
    lemma_id_of(t, "motive"@, bs.motive);
    lemma_id_of(t, "n"@, bs.n);
    lemma_id_of(t, "nil_case"@, bs.nil_case);
    lemma_id_of(t, "none_case"@, bs.none_case);
    lemma_id_of(t, "o"@, bs.o);
    lemma_id_of(t, "refl_case"@, bs.refl_case);
    lemma_id_of(t, "some_case"@, bs.some_case);
    lemma_id_of(t, "succ_case"@, bs.succ_case);
    lemma_id_of(t, "true_case"@, bs.true_case);
    lemma_id_of(t, "x"@, bs.x);
    lemma_id_of(t, "xs"@, bs.xs);
    lemma_id_of(t, "y"@, bs.y);
    lemma_id_of(t, "zero_case"@, bs.zero_case);
}

proof fn lemma_extends_trans(t1: Seq<Seq<char>>, t2: Seq<Seq<char>>, t3: Seq<Seq<char>>)
    requires
        extends(t1, t2),
        extends(t2, t3),
    ensures
        extends(t1, t3),
{
    assert forall|k: int| 0 <= k < t1.len() implies #[trigger] t3[k] == t1[k] by {
        assert(t3[k] == t2[k]);
    }
}

/// Intern the binder names of the prelude's terms.
fn intern_binders(names: &mut NameTable) -> (bs: PreludeBinders)
    requires
        old(names)@.len() + 25 < u32::MAX,
    ensures
        extends(old(names)@, final(names)@),
        final(names)@.len() <= old(names)@.len() + 25,
        no_duplicates(final(names)@),
        bs == prelude_binders(final(names)@),
{
    let ghost t0 = names@;
    let (us, motive, zero_case, succ_case, n) = intern_binders_0(names);
    let ghost t1 = names@;
    let (h, major, k, m, ih) = intern_binders_1(names);
    let ghost t2 = names@;
    let (b, j, a, x, y) = intern_binders_2(names);
    let ghost t3 = names@;
    let (refl_case, true_case, false_case, nil_case, cons_case) = intern_binders_3(names);
    let ghost t4 = names@;
    let (xs, l, none_case, some_case, o) = intern_binders_4(names);
    let ghost t5 = names@;
    let bs = PreludeBinders { us, a, b, cons_case, false_case, h, ih, j, k, l, m, major, motive, n, nil_case, none_case, o, refl_case, some_case, succ_case, true_case, x, xs, y, zero_case };
    proof {
        lemma_extends_trans(t3, t4, t5);
        lemma_extends_trans(t2, t3, t5);
        lemma_extends_trans(t1, t2, t5);
        lemma_extends_trans(t0, t1, t5);
        assert(t5[us.0 as int] == t1[us.0 as int]);
        assert(t5[motive.0 as int] == t1[motive.0 as int]);
        assert(t5[zero_case.0 as int] == t1[zero_case.0 as int]);
        assert(t5[succ_case.0 as int] == t1[succ_case.0 as int]);
        assert(t5[n.0 as int] == t1[n.0 as int]);
        assert(t5[h.0 as int] == t2[h.0 as int]);
        assert(t5[major.0 as int] == t2[major.0 as int]);
        assert(t5[k.0 as int] == t2[k.0 as int]);
        assert(t5[m.0 as int] == t2[m.0 as int]);
        assert(t5[ih.0 as int] == t2[ih.0 as int]);
        assert(t5[b.0 as int] == t3[b.0 as int]);
        assert(t5[j.0 as int] == t3[j.0 as int]);
        assert(t5[a.0 as int] == t3[a.0 as int]);
        assert(t5[x.0 as int] == t3[x.0 as int]);
        assert(t5[y.0 as int] == t3[y.0 as int]);
        assert(t5[refl_case.0 as int] == t4[refl_case.0 as int]);
        assert(t5[true_case.0 as int] == t4[true_case.0 as int]);
        assert(t5[false_case.0 as int] == t4[false_case.0 as int]);
        assert(t5[nil_case.0 as int] == t4[nil_case.0 as int]);
        assert(t5[cons_case.0 as int] == t4[cons_case.0 as int]);
        assert(binders_placed(t5, bs));
        lemma_prelude_binders(t5, bs);
    }
    bs
}

/// `c` declares `name` with universe parameters `params` and type `ty`.
pub open spec fn base_is(c: ConstantVal, name: NameId, params: Seq<UniverseParamId>, ty: ExprV) -> bool {
    &&& c.name == name
    &&& c.universe_params@ == params
    &&& (*c.ty)@ == ty
}

/// `info` is the safe, non-nested inductive family `name` alone in its
/// block, with the given header, parameter and index counts and
/// constructors.
pub open spec fn inductive_is(
    info: ConstantInfo,
    name: NameId,
    params: Seq<UniverseParamId>,
    ty: ExprV,
    num_params: u32,
    num_indices: u32,
    ctors: Seq<NameId>,
    recursive: bool,
) -> bool {
    &&& info is Inductive
    &&& base_is(info->Inductive_0.base, name, params, ty)
    &&& info->Inductive_0.num_params == num_params
    &&& info->Inductive_0.num_indices == num_indices
    &&& info->Inductive_0.all@ == seq![name]
    &&& info->Inductive_0.constructors@ == ctors
    &&& info->Inductive_0.is_recursive == recursive
    &&& !info->Inductive_0.is_nested
    &&& !info->Inductive_0.is_unsafe
}

/// `info` is the safe constructor `name` of `inductive`, at position
/// `index`, with the given header and parameter and field counts.
pub open spec fn constructor_is(
    info: ConstantInfo,
    name: NameId,
    params: Seq<UniverseParamId>,
    ty: ExprV,
    inductive: NameId,
    index: u32,
    num_params: u32,
    num_fields: u32,
) -> bool {
    &&& info is Constructor
    &&& base_is(info->Constructor_0.base, name, params, ty)
    &&& info->Constructor_0.inductive == inductive
    &&& info->Constructor_0.index == index
    &&& info->Constructor_0.num_params == num_params
    &&& info->Constructor_0.num_fields == num_fields
    &&& !info->Constructor_0.is_unsafe
}

/// `info` is the safe recursor `name` of `inductive` with one motive, the
/// given header and counts, and the computation rules `rules`: for each
/// constructor in order, its name, its field count and the right-hand
/// side.
pub open spec fn recursor_is(
    info: ConstantInfo,
    name: NameId,
    params: Seq<UniverseParamId>,
    ty: ExprV,
    inductive: NameId,
    num_params: u32,
    num_indices: u32,
    rules: Seq<(NameId, u32, ExprV)>,
    is_k: bool,
) -> bool {
    &&& info is Recursor
    &&& base_is(info->Recursor_0.base, name, params, ty)
    &&& info->Recursor_0.all@ == seq![inductive]
    &&& info->Recursor_0.num_params == num_params
    &&& info->Recursor_0.num_indices == num_indices
    &&& info->Recursor_0.num_motives == 1
    &&& info->Recursor_0.num_minors == rules.len()
    &&& info->Recursor_0.rules@.len() == rules.len()
    &&& forall|k: int|
        0 <= k < rules.len() ==> {
            &&& (#[trigger] info->Recursor_0.rules@[k]).constructor == rules[k].0
            &&& info->Recursor_0.rules@[k].num_fields == rules[k].1
            &&& (*info->Recursor_0.rules@[k].rhs)@ == rules[k].2
        }
    &&& info->Recursor_0.is_k == is_k
    &&& !info->Recursor_0.is_unsafe
}

/// `info` is the transparent, monomorphic, non-recursive definition of
/// `name` with type `ty` and body `body`.
pub open spec fn def_is(info: ConstantInfo, name: NameId, ty: ExprV, body: ExprV) -> bool {
    &&& info is Definition
    &&& info->Definition_0.base.name == name
    &&& info->Definition_0.base.universe_params@.len() == 0
    &&& (*info->Definition_0.base.ty)@ == ty
    &&& (*info->Definition_0.body)@ == body
    &&& info->Definition_0.transparency == Transparency::Semireducible
    &&& info->Definition_0.termination.params@.len() == 0
}

/// `f a b c d`.
pub open spec fn apply4_v(f: ExprV, a: ExprV, b: ExprV, c: ExprV, d: ExprV) -> ExprV {
    app_v(app_v(app_v(app_v(f, a), b), c), d)
}

/// `f a b`.
pub open spec fn apply2_v(f: ExprV, a: ExprV, b: ExprV) -> ExprV {
    app_v(app_v(f, a), b)
}

/// `Π (m : A). Π (n : A). B`.
pub open spec fn binary_ty_v(m: NameId, n: NameId, a: NameId, b: NameId) -> ExprV {
    pi_v(BinderInfo::Default, m, const_v(a, Seq::empty()), pi_v(BinderInfo::Default, n, const_v(a, Seq::empty()), const_v(b, Seq::empty())))
}

/// `λ (_ : A). B`.
pub open spec fn const_motive_v(us: NameId, a: NameId, b: NameId) -> ExprV {
    lam_v(us, const_v(a, Seq::empty()), const_v(b, Seq::empty()))
}

/// `rec.{1}`.
pub open spec fn rec_at_one_v(rec: NameId) -> ExprV {
    const_v(rec, seq![Level::Succ(Box::new(Level::Zero))])
}

/// The `motive` term of the `Nat.pred` declarations.
pub open spec fn pred_motive(nat_name: NameId, zero: NameId, rec: NameId, bs: PreludeBinders) -> ExprV {
    const_motive_v(bs.us, nat_name, nat_name)
}

/// The `succ_case` term of the `Nat.pred` declarations.
pub open spec fn pred_succ_case(nat_name: NameId, zero: NameId, rec: NameId, bs: PreludeBinders) -> ExprV {
    lam_v(bs.k, const_v(nat_name, Seq::empty()), lam_v(bs.us, const_v(nat_name, Seq::empty()), var_v(1)))
}

/// The `body` term of the `Nat.pred` declarations.
pub open spec fn pred_body(nat_name: NameId, zero: NameId, rec: NameId, bs: PreludeBinders) -> ExprV {
    lam_v(bs.n, const_v(nat_name, Seq::empty()), apply4_v(rec_at_one_v(rec), pred_motive(nat_name, zero, rec, bs), const_v(zero, Seq::empty()), pred_succ_case(nat_name, zero, rec, bs), var_v(0)))
}

/// The `ty` term of the `Nat.pred` declarations.
pub open spec fn pred_ty(nat_name: NameId, zero: NameId, rec: NameId, bs: PreludeBinders) -> ExprV {
    pi_v(BinderInfo::Default, bs.n, const_v(nat_name, Seq::empty()), const_v(nat_name, Seq::empty()))
}

/// The `motive` term of the `Nat.add` declarations.
pub open spec fn add_motive(nat_name: NameId, succ: NameId, rec: NameId, bs: PreludeBinders) -> ExprV {
    const_motive_v(bs.us, nat_name, nat_name)
}

/// The `succ_case` term of the `Nat.add` declarations.
pub open spec fn add_succ_case(nat_name: NameId, succ: NameId, rec: NameId, bs: PreludeBinders) -> ExprV {
    lam_v(bs.k, const_v(nat_name, Seq::empty()), lam_v(bs.ih, const_v(nat_name, Seq::empty()), app_v(const_v(succ, Seq::empty()), var_v(0))))
}

/// The `body` term of the `Nat.add` declarations.
pub open spec fn add_body(nat_name: NameId, succ: NameId, rec: NameId, bs: PreludeBinders) -> ExprV {
    lam_v(bs.m, const_v(nat_name, Seq::empty()), lam_v(bs.n, const_v(nat_name, Seq::empty()), apply4_v(rec_at_one_v(rec), add_motive(nat_name, succ, rec, bs), var_v(0), add_succ_case(nat_name, succ, rec, bs), var_v(1))))
}

/// The `ty` term of the `Nat.add` declarations.
pub open spec fn add_ty(nat_name: NameId, succ: NameId, rec: NameId, bs: PreludeBinders) -> ExprV {
    binary_ty_v(bs.m, bs.n, nat_name, nat_name)
}

/// The `motive` term of the `Nat.mul` declarations.
pub open spec fn mul_motive(nat_name: NameId, zero: NameId, add: NameId, rec: NameId, bs: PreludeBinders) -> ExprV {
    const_motive_v(bs.us, nat_name, nat_name)
}

/// The `succ_case` term of the `Nat.mul` declarations.
pub open spec fn mul_succ_case(nat_name: NameId, zero: NameId, add: NameId, rec: NameId, bs: PreludeBinders) -> ExprV {
    lam_v(bs.k, const_v(nat_name, Seq::empty()), lam_v(bs.ih, const_v(nat_name, Seq::empty()), apply2_v(const_v(add, Seq::empty()), var_v(2), var_v(0))))
}

/// The `body` term of the `Nat.mul` declarations.
pub open spec fn mul_body(nat_name: NameId, zero: NameId, add: NameId, rec: NameId, bs: PreludeBinders) -> ExprV {
    lam_v(bs.m, const_v(nat_name, Seq::empty()), lam_v(bs.n, const_v(nat_name, Seq::empty()), apply4_v(rec_at_one_v(rec), mul_motive(nat_name, zero, add, rec, bs), const_v(zero, Seq::empty()), mul_succ_case(nat_name, zero, add, rec, bs), var_v(1))))
}

/// The `ty` term of the `Nat.mul` declarations.
pub open spec fn mul_ty(nat_name: NameId, zero: NameId, add: NameId, rec: NameId, bs: PreludeBinders) -> ExprV {
    binary_ty_v(bs.m, bs.n, nat_name, nat_name)
}

/// The `motive` term of the `Nat.sub` declarations.
pub open spec fn sub_motive(nat_name: NameId, pred: NameId, rec: NameId, bs: PreludeBinders) -> ExprV {
    const_motive_v(bs.us, nat_name, nat_name)
}

/// The `succ_case` term of the `Nat.sub` declarations.
pub open spec fn sub_succ_case(nat_name: NameId, pred: NameId, rec: NameId, bs: PreludeBinders) -> ExprV {
    lam_v(bs.us, const_v(nat_name, Seq::empty()), lam_v(bs.ih, const_v(nat_name, Seq::empty()), app_v(const_v(pred, Seq::empty()), var_v(0))))
}

/// The `body` term of the `Nat.sub` declarations.
pub open spec fn sub_body(nat_name: NameId, pred: NameId, rec: NameId, bs: PreludeBinders) -> ExprV {
    lam_v(bs.m, const_v(nat_name, Seq::empty()), lam_v(bs.n, const_v(nat_name, Seq::empty()), apply4_v(rec_at_one_v(rec), sub_motive(nat_name, pred, rec, bs), var_v(1), sub_succ_case(nat_name, pred, rec, bs), var_v(0))))
}

/// The `ty` term of the `Nat.sub` declarations.
pub open spec fn sub_ty(nat_name: NameId, pred: NameId, rec: NameId, bs: PreludeBinders) -> ExprV {
    binary_ty_v(bs.m, bs.n, nat_name, nat_name)
}

/// The `motive` term of the `Nat.pow` declarations.
pub open spec fn pow_motive(nat_name: NameId, zero: NameId, succ: NameId, mul: NameId, rec: NameId, bs: PreludeBinders) -> ExprV {
    const_motive_v(bs.us, nat_name, nat_name)
}

/// The `one` term of the `Nat.pow` declarations.
pub open spec fn pow_one(nat_name: NameId, zero: NameId, succ: NameId, mul: NameId, rec: NameId, bs: PreludeBinders) -> ExprV {
    app_v(const_v(succ, Seq::empty()), const_v(zero, Seq::empty()))
}

/// The `succ_case` term of the `Nat.pow` declarations.
pub open spec fn pow_succ_case(nat_name: NameId, zero: NameId, succ: NameId, mul: NameId, rec: NameId, bs: PreludeBinders) -> ExprV {
    lam_v(bs.us, const_v(nat_name, Seq::empty()), lam_v(bs.ih, const_v(nat_name, Seq::empty()), apply2_v(const_v(mul, Seq::empty()), var_v(3), var_v(0))))
}

/// The `body` term of the `Nat.pow` declarations.
pub open spec fn pow_body(nat_name: NameId, zero: NameId, succ: NameId, mul: NameId, rec: NameId, bs: PreludeBinders) -> ExprV {
    lam_v(bs.m, const_v(nat_name, Seq::empty()), lam_v(bs.n, const_v(nat_name, Seq::empty()), apply4_v(rec_at_one_v(rec), pow_motive(nat_name, zero, succ, mul, rec, bs), pow_one(nat_name, zero, succ, mul, rec, bs), pow_succ_case(nat_name, zero, succ, mul, rec, bs), var_v(0))))
}

/// The `ty` term of the `Nat.pow` declarations.
pub open spec fn pow_ty(nat_name: NameId, zero: NameId, succ: NameId, mul: NameId, rec: NameId, bs: PreludeBinders) -> ExprV {
    binary_ty_v(bs.m, bs.n, nat_name, nat_name)
}

/// The `motive` term of the `Bool.not` declarations.
pub open spec fn bool_not_motive(bool_name: NameId, bool_true: NameId, bool_false: NameId, bool_rec: NameId, bs: PreludeBinders) -> ExprV {
    const_motive_v(bs.us, bool_name, bool_name)
}

/// The `body` term of the `Bool.not` declarations.
pub open spec fn bool_not_body(bool_name: NameId, bool_true: NameId, bool_false: NameId, bool_rec: NameId, bs: PreludeBinders) -> ExprV {
    lam_v(bs.b, const_v(bool_name, Seq::empty()), apply4_v(rec_at_one_v(bool_rec), bool_not_motive(bool_name, bool_true, bool_false, bool_rec, bs), const_v(bool_false, Seq::empty()), const_v(bool_true, Seq::empty()), var_v(0)))
}

/// The `ty` term of the `Bool.not` declarations.
pub open spec fn bool_not_ty(bool_name: NameId, bool_true: NameId, bool_false: NameId, bool_rec: NameId, bs: PreludeBinders) -> ExprV {
    pi_v(BinderInfo::Default, bs.b, const_v(bool_name, Seq::empty()), const_v(bool_name, Seq::empty()))
}

/// The `motive` term of the `Nat.is_zero` declarations.
pub open spec fn nat_is_zero_motive(nat_name: NameId, rec: NameId, bool_name: NameId, bool_true: NameId, bool_false: NameId, bs: PreludeBinders) -> ExprV {
    const_motive_v(bs.us, nat_name, bool_name)
}

/// The `succ_case` term of the `Nat.is_zero` declarations.
pub open spec fn nat_is_zero_succ_case(nat_name: NameId, rec: NameId, bool_name: NameId, bool_true: NameId, bool_false: NameId, bs: PreludeBinders) -> ExprV {
    lam_v(bs.k, const_v(nat_name, Seq::empty()), lam_v(bs.us, const_v(bool_name, Seq::empty()), const_v(bool_false, Seq::empty())))
}

/// The `body` term of the `Nat.is_zero` declarations.
pub open spec fn nat_is_zero_body(nat_name: NameId, rec: NameId, bool_name: NameId, bool_true: NameId, bool_false: NameId, bs: PreludeBinders) -> ExprV {
    lam_v(bs.n, const_v(nat_name, Seq::empty()), apply4_v(rec_at_one_v(rec), nat_is_zero_motive(nat_name, rec, bool_name, bool_true, bool_false, bs), const_v(bool_true, Seq::empty()), nat_is_zero_succ_case(nat_name, rec, bool_name, bool_true, bool_false, bs), var_v(0)))
}

/// The `ty` term of the `Nat.is_zero` declarations.
pub open spec fn nat_is_zero_ty(nat_name: NameId, rec: NameId, bool_name: NameId, bool_true: NameId, bool_false: NameId, bs: PreludeBinders) -> ExprV {
    pi_v(BinderInfo::Default, bs.n, const_v(nat_name, Seq::empty()), const_v(bool_name, Seq::empty()))
}

/// The `motive` term of the `Nat.beq_step` declarations.
pub open spec fn nat_beq_step_motive(nat_name: NameId, rec: NameId, bool_name: NameId, bool_false: NameId, bs: PreludeBinders) -> ExprV {
    const_motive_v(bs.us, nat_name, bool_name)
}

/// The `succ_case` term of the `Nat.beq_step` declarations.
pub open spec fn nat_beq_step_succ_case(nat_name: NameId, rec: NameId, bool_name: NameId, bool_false: NameId, bs: PreludeBinders) -> ExprV {
    lam_v(bs.j, const_v(nat_name, Seq::empty()), lam_v(bs.us, const_v(bool_name, Seq::empty()), app_v(var_v(3), var_v(1))))
}

/// The `body` term of the `Nat.beq_step` declarations.
pub open spec fn nat_beq_step_body(nat_name: NameId, rec: NameId, bool_name: NameId, bool_false: NameId, bs: PreludeBinders) -> ExprV {
    lam_v(bs.ih, pi_v(BinderInfo::Default, bs.us, const_v(nat_name, Seq::empty()), const_v(bool_name, Seq::empty())), lam_v(bs.n, const_v(nat_name, Seq::empty()), apply4_v(rec_at_one_v(rec), nat_beq_step_motive(nat_name, rec, bool_name, bool_false, bs), const_v(bool_false, Seq::empty()), nat_beq_step_succ_case(nat_name, rec, bool_name, bool_false, bs), var_v(0))))
}

/// The `ty` term of the `Nat.beq_step` declarations.
pub open spec fn nat_beq_step_ty(nat_name: NameId, rec: NameId, bool_name: NameId, bool_false: NameId, bs: PreludeBinders) -> ExprV {
    pi_v(BinderInfo::Default, bs.ih, pi_v(BinderInfo::Default, bs.us, const_v(nat_name, Seq::empty()), const_v(bool_name, Seq::empty())), pi_v(BinderInfo::Default, bs.n, const_v(nat_name, Seq::empty()), const_v(bool_name, Seq::empty())))
}

/// The `motive` term of the `Nat.beq` declarations.
pub open spec fn nat_beq_motive(nat_name: NameId, rec: NameId, bool_name: NameId, nat_is_zero: NameId, nat_beq_step: NameId, bs: PreludeBinders) -> ExprV {
    lam_v(bs.us, const_v(nat_name, Seq::empty()), pi_v(BinderInfo::Default, bs.us, const_v(nat_name, Seq::empty()), const_v(bool_name, Seq::empty())))
}

/// The `succ_case` term of the `Nat.beq` declarations.
pub open spec fn nat_beq_succ_case(nat_name: NameId, rec: NameId, bool_name: NameId, nat_is_zero: NameId, nat_beq_step: NameId, bs: PreludeBinders) -> ExprV {
    lam_v(bs.k, const_v(nat_name, Seq::empty()), lam_v(bs.ih, pi_v(BinderInfo::Default, bs.us, const_v(nat_name, Seq::empty()), const_v(bool_name, Seq::empty())), app_v(const_v(nat_beq_step, Seq::empty()), var_v(0))))
}

/// The `rec_applied` term of the `Nat.beq` declarations.
pub open spec fn nat_beq_rec_applied(nat_name: NameId, rec: NameId, bool_name: NameId, nat_is_zero: NameId, nat_beq_step: NameId, bs: PreludeBinders) -> ExprV {
    apply4_v(rec_at_one_v(rec), nat_beq_motive(nat_name, rec, bool_name, nat_is_zero, nat_beq_step, bs), const_v(nat_is_zero, Seq::empty()), nat_beq_succ_case(nat_name, rec, bool_name, nat_is_zero, nat_beq_step, bs), var_v(1))
}

/// The `body` term of the `Nat.beq` declarations.
pub open spec fn nat_beq_body(nat_name: NameId, rec: NameId, bool_name: NameId, nat_is_zero: NameId, nat_beq_step: NameId, bs: PreludeBinders) -> ExprV {
    lam_v(bs.m, const_v(nat_name, Seq::empty()), lam_v(bs.n, const_v(nat_name, Seq::empty()), app_v(nat_beq_rec_applied(nat_name, rec, bool_name, nat_is_zero, nat_beq_step, bs), var_v(0))))
}

/// The `ty` term of the `Nat.beq` declarations.
pub open spec fn nat_beq_ty(nat_name: NameId, rec: NameId, bool_name: NameId, nat_is_zero: NameId, nat_beq_step: NameId, bs: PreludeBinders) -> ExprV {
    binary_ty_v(bs.m, bs.n, nat_name, bool_name)
}

/// The `beq_app` term of the `Nat.bne` declarations.
pub open spec fn nat_bne_beq_app(nat_name: NameId, bool_name: NameId, bool_not: NameId, nat_beq: NameId, bs: PreludeBinders) -> ExprV {
    apply2_v(const_v(nat_beq, Seq::empty()), var_v(1), var_v(0))
}

/// The `body` term of the `Nat.bne` declarations.
pub open spec fn nat_bne_body(nat_name: NameId, bool_name: NameId, bool_not: NameId, nat_beq: NameId, bs: PreludeBinders) -> ExprV {
    lam_v(bs.m, const_v(nat_name, Seq::empty()), lam_v(bs.n, const_v(nat_name, Seq::empty()), app_v(const_v(bool_not, Seq::empty()), nat_bne_beq_app(nat_name, bool_name, bool_not, nat_beq, bs))))
}

/// The `ty` term of the `Nat.bne` declarations.
pub open spec fn nat_bne_ty(nat_name: NameId, bool_name: NameId, bool_not: NameId, nat_beq: NameId, bs: PreludeBinders) -> ExprV {
    binary_ty_v(bs.m, bs.n, nat_name, bool_name)
}

/// The `sub_app` term of the `Nat.ble` declarations.
pub open spec fn nat_ble_sub_app(nat_name: NameId, zero: NameId, bool_name: NameId, nat_beq: NameId, sub: NameId, bs: PreludeBinders) -> ExprV {
    apply2_v(const_v(sub, Seq::empty()), var_v(1), var_v(0))
}

/// The `beq_app` term of the `Nat.ble` declarations.
pub open spec fn nat_ble_beq_app(nat_name: NameId, zero: NameId, bool_name: NameId, nat_beq: NameId, sub: NameId, bs: PreludeBinders) -> ExprV {
    apply2_v(const_v(nat_beq, Seq::empty()), nat_ble_sub_app(nat_name, zero, bool_name, nat_beq, sub, bs), const_v(zero, Seq::empty()))
}

/// The `body` term of the `Nat.ble` declarations.
pub open spec fn nat_ble_body(nat_name: NameId, zero: NameId, bool_name: NameId, nat_beq: NameId, sub: NameId, bs: PreludeBinders) -> ExprV {
    lam_v(bs.m, const_v(nat_name, Seq::empty()), lam_v(bs.n, const_v(nat_name, Seq::empty()), nat_ble_beq_app(nat_name, zero, bool_name, nat_beq, sub, bs)))
}

/// The `ty` term of the `Nat.ble` declarations.
pub open spec fn nat_ble_ty(nat_name: NameId, zero: NameId, bool_name: NameId, nat_beq: NameId, sub: NameId, bs: PreludeBinders) -> ExprV {
    binary_ty_v(bs.m, bs.n, nat_name, bool_name)
}

/// The `succ_m` term of the `Nat.blt` declarations.
pub open spec fn nat_blt_succ_m(nat_name: NameId, succ: NameId, bool_name: NameId, nat_ble: NameId, bs: PreludeBinders) -> ExprV {
    app_v(const_v(succ, Seq::empty()), var_v(1))
}

/// The `ble_app` term of the `Nat.blt` declarations.
pub open spec fn nat_blt_ble_app(nat_name: NameId, succ: NameId, bool_name: NameId, nat_ble: NameId, bs: PreludeBinders) -> ExprV {
    apply2_v(const_v(nat_ble, Seq::empty()), nat_blt_succ_m(nat_name, succ, bool_name, nat_ble, bs), var_v(0))
}

/// The `body` term of the `Nat.blt` declarations.
pub open spec fn nat_blt_body(nat_name: NameId, succ: NameId, bool_name: NameId, nat_ble: NameId, bs: PreludeBinders) -> ExprV {
    lam_v(bs.m, const_v(nat_name, Seq::empty()), lam_v(bs.n, const_v(nat_name, Seq::empty()), nat_blt_ble_app(nat_name, succ, bool_name, nat_ble, bs)))
}

/// The `ty` term of the `Nat.blt` declarations.
pub open spec fn nat_blt_ty(nat_name: NameId, succ: NameId, bool_name: NameId, nat_ble: NameId, bs: PreludeBinders) -> ExprV {
    binary_ty_v(bs.m, bs.n, nat_name, bool_name)
}

/// The `blt_app` term of the `Nat.bgt` declarations.
pub open spec fn nat_bgt_blt_app(nat_name: NameId, bool_name: NameId, nat_blt: NameId, bs: PreludeBinders) -> ExprV {
    apply2_v(const_v(nat_blt, Seq::empty()), var_v(0), var_v(1))
}

/// The `body` term of the `Nat.bgt` declarations.
pub open spec fn nat_bgt_body(nat_name: NameId, bool_name: NameId, nat_blt: NameId, bs: PreludeBinders) -> ExprV {
    lam_v(bs.m, const_v(nat_name, Seq::empty()), lam_v(bs.n, const_v(nat_name, Seq::empty()), nat_bgt_blt_app(nat_name, bool_name, nat_blt, bs)))
}

/// The `ty` term of the `Nat.bgt` declarations.
pub open spec fn nat_bgt_ty(nat_name: NameId, bool_name: NameId, nat_blt: NameId, bs: PreludeBinders) -> ExprV {
    binary_ty_v(bs.m, bs.n, nat_name, bool_name)
}

/// The `ble_app` term of the `Nat.bge` declarations.
pub open spec fn nat_bge_ble_app(nat_name: NameId, bool_name: NameId, nat_ble: NameId, bs: PreludeBinders) -> ExprV {
    apply2_v(const_v(nat_ble, Seq::empty()), var_v(0), var_v(1))
}

/// The `body` term of the `Nat.bge` declarations.
pub open spec fn nat_bge_body(nat_name: NameId, bool_name: NameId, nat_ble: NameId, bs: PreludeBinders) -> ExprV {
    lam_v(bs.m, const_v(nat_name, Seq::empty()), lam_v(bs.n, const_v(nat_name, Seq::empty()), nat_bge_ble_app(nat_name, bool_name, nat_ble, bs)))
}

/// The `ty` term of the `Nat.bge` declarations.
pub open spec fn nat_bge_ty(nat_name: NameId, bool_name: NameId, nat_ble: NameId, bs: PreludeBinders) -> ExprV {
    binary_ty_v(bs.m, bs.n, nat_name, bool_name)
}

/// The `succ_ty` term of the `Nat` declarations.
pub open spec fn nat_succ_ty(nat_name: NameId, zero: NameId, succ: NameId, rec: NameId, u: UniverseParamId, bs: PreludeBinders) -> ExprV {
    pi_v(BinderInfo::Default, bs.us, const_v(nat_name, Seq::empty()), const_v(nat_name, Seq::empty()))
}

/// The `motive_ty` term of the `Nat` declarations.
pub open spec fn nat_motive_ty(nat_name: NameId, zero: NameId, succ: NameId, rec: NameId, u: UniverseParamId, bs: PreludeBinders) -> ExprV {
    pi_v(BinderInfo::Default, bs.us, const_v(nat_name, Seq::empty()), sort_param_v(u))
}

/// The `zero_case_ty` term of the `Nat` declarations.
pub open spec fn nat_zero_case_ty(nat_name: NameId, zero: NameId, succ: NameId, rec: NameId, u: UniverseParamId, bs: PreludeBinders) -> ExprV {
    app_v(var_v(0), const_v(zero, Seq::empty()))
}

/// The `succ_case_ty` term of the `Nat` declarations.
pub open spec fn nat_succ_case_ty(nat_name: NameId, zero: NameId, succ: NameId, rec: NameId, u: UniverseParamId, bs: PreludeBinders) -> ExprV {
    pi_v(BinderInfo::Default, bs.n, const_v(nat_name, Seq::empty()), pi_v(BinderInfo::Default, bs.h, app_v(var_v(2), var_v(0)), app_v(var_v(3), app_v(const_v(succ, Seq::empty()), var_v(1)))))
}

/// The `major_ty` term of the `Nat` declarations.
pub open spec fn nat_major_ty(nat_name: NameId, zero: NameId, succ: NameId, rec: NameId, u: UniverseParamId, bs: PreludeBinders) -> ExprV {
    pi_v(BinderInfo::Default, bs.major, const_v(nat_name, Seq::empty()), app_v(var_v(3), var_v(0)))
}

/// The `rec_ty` term of the `Nat` declarations.
pub open spec fn nat_rec_ty(nat_name: NameId, zero: NameId, succ: NameId, rec: NameId, u: UniverseParamId, bs: PreludeBinders) -> ExprV {
    pi_v(BinderInfo::Implicit, bs.motive, nat_motive_ty(nat_name, zero, succ, rec, u, bs), pi_v(BinderInfo::Default, bs.zero_case, nat_zero_case_ty(nat_name, zero, succ, rec, u, bs), pi_v(BinderInfo::Default, bs.succ_case, nat_succ_case_ty(nat_name, zero, succ, rec, u, bs), nat_major_ty(nat_name, zero, succ, rec, u, bs))))
}

/// The `zero_rule_rhs` term of the `Nat` declarations.
pub open spec fn nat_zero_rule_rhs(nat_name: NameId, zero: NameId, succ: NameId, rec: NameId, u: UniverseParamId, bs: PreludeBinders) -> ExprV {
    var_v(1)
}

/// The `recursive_call` term of the `Nat` declarations.
pub open spec fn nat_recursive_call(nat_name: NameId, zero: NameId, succ: NameId, rec: NameId, u: UniverseParamId, bs: PreludeBinders) -> ExprV {
    app_v(app_v(app_v(app_v(const_v(rec, seq![Level::Param(u)]), var_v(3)), var_v(2)), var_v(1)), var_v(0))
}

/// The `succ_rule_rhs` term of the `Nat` declarations.
pub open spec fn nat_succ_rule_rhs(nat_name: NameId, zero: NameId, succ: NameId, rec: NameId, u: UniverseParamId, bs: PreludeBinders) -> ExprV {
    app_v(app_v(var_v(1), var_v(0)), nat_recursive_call(nat_name, zero, succ, rec, u, bs))
}

/// The `eq_ty` term of the `Eq` declarations.
pub open spec fn eq_eq_ty(eq: NameId, eq_refl: NameId, eq_rec: NameId, u: UniverseParamId, v: UniverseParamId, bs: PreludeBinders) -> ExprV {
    pi_v(BinderInfo::Implicit, bs.a, sort_param_v(u), pi_v(BinderInfo::Default, bs.x, var_v(0), pi_v(BinderInfo::Default, bs.y, var_v(1), prop_v())))
}

/// The `refl_ty` term of the `Eq` declarations.
pub open spec fn eq_refl_ty(eq: NameId, eq_refl: NameId, eq_rec: NameId, u: UniverseParamId, v: UniverseParamId, bs: PreludeBinders) -> ExprV {
    pi_v(BinderInfo::Implicit, bs.a, sort_param_v(u), pi_v(BinderInfo::Default, bs.x, var_v(0), app_v(apply2_v(const_v(eq, seq![Level::Param(u)]), var_v(1), var_v(0)), var_v(0))))
}

/// The `motive_ty` term of the `Eq` declarations.
pub open spec fn eq_motive_ty(eq: NameId, eq_refl: NameId, eq_rec: NameId, u: UniverseParamId, v: UniverseParamId, bs: PreludeBinders) -> ExprV {
    pi_v(BinderInfo::Default, bs.b, var_v(1), pi_v(BinderInfo::Default, bs.us, app_v(apply2_v(const_v(eq, seq![Level::Param(u)]), var_v(2), var_v(1)), var_v(0)), sort_param_v(v)))
}

/// The `refl_case_ty` term of the `Eq` declarations.
pub open spec fn eq_refl_case_ty(eq: NameId, eq_refl: NameId, eq_rec: NameId, u: UniverseParamId, v: UniverseParamId, bs: PreludeBinders) -> ExprV {
    app_v(app_v(var_v(0), var_v(1)), apply2_v(const_v(eq_refl, seq![Level::Param(u)]), var_v(2), var_v(1)))
}

/// The `h_ty` term of the `Eq` declarations.
pub open spec fn eq_h_ty(eq: NameId, eq_refl: NameId, eq_rec: NameId, u: UniverseParamId, v: UniverseParamId, bs: PreludeBinders) -> ExprV {
    app_v(apply2_v(const_v(eq, seq![Level::Param(u)]), var_v(4), var_v(3)), var_v(0))
}

/// The `eq_rec_cod` term of the `Eq` declarations.
pub open spec fn eq_eq_rec_cod(eq: NameId, eq_refl: NameId, eq_rec: NameId, u: UniverseParamId, v: UniverseParamId, bs: PreludeBinders) -> ExprV {
    app_v(app_v(var_v(3), var_v(1)), var_v(0))
}

/// The `rec_ty` term of the `Eq` declarations.
pub open spec fn eq_rec_ty(eq: NameId, eq_refl: NameId, eq_rec: NameId, u: UniverseParamId, v: UniverseParamId, bs: PreludeBinders) -> ExprV {
    pi_v(BinderInfo::Implicit, bs.a, sort_param_v(u), pi_v(BinderInfo::Implicit, bs.us, var_v(0), pi_v(BinderInfo::Implicit, bs.motive, eq_motive_ty(eq, eq_refl, eq_rec, u, v, bs), pi_v(BinderInfo::Default, bs.refl_case, eq_refl_case_ty(eq, eq_refl, eq_rec, u, v, bs), pi_v(BinderInfo::Default, bs.b, var_v(3), pi_v(BinderInfo::Default, bs.h, eq_h_ty(eq, eq_refl, eq_rec, u, v, bs), eq_eq_rec_cod(eq, eq_refl, eq_rec, u, v, bs)))))))
}

/// The `motive_ty` term of the `Bool` declarations.
pub open spec fn bool_motive_ty(bool_name: NameId, bool_true: NameId, bool_false: NameId, bool_rec: NameId, u: UniverseParamId, bs: PreludeBinders) -> ExprV {
    pi_v(BinderInfo::Default, bs.us, const_v(bool_name, Seq::empty()), sort_param_v(u))
}

/// The `true_case_ty` term of the `Bool` declarations.
pub open spec fn bool_true_case_ty(bool_name: NameId, bool_true: NameId, bool_false: NameId, bool_rec: NameId, u: UniverseParamId, bs: PreludeBinders) -> ExprV {
    app_v(var_v(0), const_v(bool_true, Seq::empty()))
}

/// The `false_case_ty` term of the `Bool` declarations.
pub open spec fn bool_false_case_ty(bool_name: NameId, bool_true: NameId, bool_false: NameId, bool_rec: NameId, u: UniverseParamId, bs: PreludeBinders) -> ExprV {
    app_v(var_v(1), const_v(bool_false, Seq::empty()))
}

/// The `major_ty` term of the `Bool` declarations.
pub open spec fn bool_major_ty(bool_name: NameId, bool_true: NameId, bool_false: NameId, bool_rec: NameId, u: UniverseParamId, bs: PreludeBinders) -> ExprV {
    pi_v(BinderInfo::Default, bs.b, const_v(bool_name, Seq::empty()), app_v(var_v(3), var_v(0)))
}

/// The `rec_ty` term of the `Bool` declarations.
pub open spec fn bool_rec_ty(bool_name: NameId, bool_true: NameId, bool_false: NameId, bool_rec: NameId, u: UniverseParamId, bs: PreludeBinders) -> ExprV {
    pi_v(BinderInfo::Implicit, bs.motive, bool_motive_ty(bool_name, bool_true, bool_false, bool_rec, u, bs), pi_v(BinderInfo::Default, bs.true_case, bool_true_case_ty(bool_name, bool_true, bool_false, bool_rec, u, bs), pi_v(BinderInfo::Default, bs.false_case, bool_false_case_ty(bool_name, bool_true, bool_false, bool_rec, u, bs), bool_major_ty(bool_name, bool_true, bool_false, bool_rec, u, bs))))
}

/// The `list_ty` term of the `List` declarations.
pub open spec fn list_list_ty(list: NameId, list_nil: NameId, list_cons: NameId, list_rec: NameId, u: UniverseParamId, v: UniverseParamId, bs: PreludeBinders) -> ExprV {
    pi_v(BinderInfo::Implicit, bs.a, sort_param_v(u), sort_param_v(u))
}

/// The `nil_ty` term of the `List` declarations.
pub open spec fn list_nil_ty(list: NameId, list_nil: NameId, list_cons: NameId, list_rec: NameId, u: UniverseParamId, v: UniverseParamId, bs: PreludeBinders) -> ExprV {
    pi_v(BinderInfo::Implicit, bs.a, sort_param_v(u), app_v(const_v(list, seq![Level::Param(u)]), var_v(0)))
}

/// The `cons_ty` term of the `List` declarations.
pub open spec fn list_cons_ty(list: NameId, list_nil: NameId, list_cons: NameId, list_rec: NameId, u: UniverseParamId, v: UniverseParamId, bs: PreludeBinders) -> ExprV {
    pi_v(BinderInfo::Implicit, bs.a, sort_param_v(u), pi_v(BinderInfo::Default, bs.x, var_v(0), pi_v(BinderInfo::Default, bs.xs, app_v(const_v(list, seq![Level::Param(u)]), var_v(1)), app_v(const_v(list, seq![Level::Param(u)]), var_v(2)))))
}

/// The `motive_ty` term of the `List` declarations.
pub open spec fn list_motive_ty(list: NameId, list_nil: NameId, list_cons: NameId, list_rec: NameId, u: UniverseParamId, v: UniverseParamId, bs: PreludeBinders) -> ExprV {
    pi_v(BinderInfo::Default, bs.us, app_v(const_v(list, seq![Level::Param(u)]), var_v(0)), sort_param_v(v))
}

/// The `nil_case_ty` term of the `List` declarations.
pub open spec fn list_nil_case_ty(list: NameId, list_nil: NameId, list_cons: NameId, list_rec: NameId, u: UniverseParamId, v: UniverseParamId, bs: PreludeBinders) -> ExprV {
    app_v(var_v(0), app_v(const_v(list_nil, seq![Level::Param(u)]), var_v(1)))
}

/// The `cons_case_ty` term of the `List` declarations.
pub open spec fn list_cons_case_ty(list: NameId, list_nil: NameId, list_cons: NameId, list_rec: NameId, u: UniverseParamId, v: UniverseParamId, bs: PreludeBinders) -> ExprV {
    pi_v(BinderInfo::Default, bs.x, var_v(2), pi_v(BinderInfo::Default, bs.xs, app_v(const_v(list, seq![Level::Param(u)]), var_v(3)), pi_v(BinderInfo::Default, bs.h, app_v(var_v(3), var_v(0)), app_v(var_v(4), app_v(apply2_v(const_v(list_cons, seq![Level::Param(u)]), var_v(5), var_v(2)), var_v(1))))))
}

/// The `major_ty` term of the `List` declarations.
pub open spec fn list_major_ty(list: NameId, list_nil: NameId, list_cons: NameId, list_rec: NameId, u: UniverseParamId, v: UniverseParamId, bs: PreludeBinders) -> ExprV {
    pi_v(BinderInfo::Default, bs.l, app_v(const_v(list, seq![Level::Param(u)]), var_v(3)), app_v(var_v(3), var_v(0)))
}

/// The `rec_ty` term of the `List` declarations.
pub open spec fn list_rec_ty(list: NameId, list_nil: NameId, list_cons: NameId, list_rec: NameId, u: UniverseParamId, v: UniverseParamId, bs: PreludeBinders) -> ExprV {
    pi_v(BinderInfo::Implicit, bs.a, sort_param_v(u), pi_v(BinderInfo::Implicit, bs.motive, list_motive_ty(list, list_nil, list_cons, list_rec, u, v, bs), pi_v(BinderInfo::Default, bs.nil_case, list_nil_case_ty(list, list_nil, list_cons, list_rec, u, v, bs), pi_v(BinderInfo::Default, bs.cons_case, list_cons_case_ty(list, list_nil, list_cons, list_rec, u, v, bs), list_major_ty(list, list_nil, list_cons, list_rec, u, v, bs)))))
}

/// The `recursive_call` term of the `List` declarations.
pub open spec fn list_recursive_call(list: NameId, list_nil: NameId, list_cons: NameId, list_rec: NameId, u: UniverseParamId, v: UniverseParamId, bs: PreludeBinders) -> ExprV {
    app_v(apply4_v(const_v(list_rec, seq![Level::Param(u), Level::Param(v)]), var_v(5), var_v(4), var_v(3), var_v(2)), var_v(0))
}

/// The `cons_rule_rhs` term of the `List` declarations.
pub open spec fn list_cons_rule_rhs(list: NameId, list_nil: NameId, list_cons: NameId, list_rec: NameId, u: UniverseParamId, v: UniverseParamId, bs: PreludeBinders) -> ExprV {
    app_v(apply2_v(var_v(2), var_v(1), var_v(0)), list_recursive_call(list, list_nil, list_cons, list_rec, u, v, bs))
}

/// The `option_ty` term of the `Option` declarations.
pub open spec fn option_option_ty(option: NameId, option_none: NameId, option_some: NameId, option_rec: NameId, u: UniverseParamId, v: UniverseParamId, bs: PreludeBinders) -> ExprV {
    pi_v(BinderInfo::Implicit, bs.a, sort_param_v(u), sort_param_v(u))
}

/// The `none_ty` term of the `Option` declarations.
pub open spec fn option_none_ty(option: NameId, option_none: NameId, option_some: NameId, option_rec: NameId, u: UniverseParamId, v: UniverseParamId, bs: PreludeBinders) -> ExprV {
    pi_v(BinderInfo::Implicit, bs.a, sort_param_v(u), app_v(const_v(option, seq![Level::Param(u)]), var_v(0)))
}

/// The `some_ty` term of the `Option` declarations.
pub open spec fn option_some_ty(option: NameId, option_none: NameId, option_some: NameId, option_rec: NameId, u: UniverseParamId, v: UniverseParamId, bs: PreludeBinders) -> ExprV {
    pi_v(BinderInfo::Implicit, bs.a, sort_param_v(u), pi_v(BinderInfo::Default, bs.x, var_v(0), app_v(const_v(option, seq![Level::Param(u)]), var_v(1))))
}

/// The `motive_ty` term of the `Option` declarations.
pub open spec fn option_motive_ty(option: NameId, option_none: NameId, option_some: NameId, option_rec: NameId, u: UniverseParamId, v: UniverseParamId, bs: PreludeBinders) -> ExprV {
    pi_v(BinderInfo::Default, bs.us, app_v(const_v(option, seq![Level::Param(u)]), var_v(0)), sort_param_v(v))
}

/// The `none_case_ty` term of the `Option` declarations.
pub open spec fn option_none_case_ty(option: NameId, option_none: NameId, option_some: NameId, option_rec: NameId, u: UniverseParamId, v: UniverseParamId, bs: PreludeBinders) -> ExprV {
    app_v(var_v(0), app_v(const_v(option_none, seq![Level::Param(u)]), var_v(1)))
}

/// The `some_case_ty` term of the `Option` declarations.
pub open spec fn option_some_case_ty(option: NameId, option_none: NameId, option_some: NameId, option_rec: NameId, u: UniverseParamId, v: UniverseParamId, bs: PreludeBinders) -> ExprV {
    pi_v(BinderInfo::Default, bs.x, var_v(2), app_v(var_v(2), apply2_v(const_v(option_some, seq![Level::Param(u)]), var_v(3), var_v(0))))
}

/// The `major_ty` term of the `Option` declarations.
pub open spec fn option_major_ty(option: NameId, option_none: NameId, option_some: NameId, option_rec: NameId, u: UniverseParamId, v: UniverseParamId, bs: PreludeBinders) -> ExprV {
    pi_v(BinderInfo::Default, bs.o, app_v(const_v(option, seq![Level::Param(u)]), var_v(3)), app_v(var_v(3), var_v(0)))
}

/// The `rec_ty` term of the `Option` declarations.
pub open spec fn option_rec_ty(option: NameId, option_none: NameId, option_some: NameId, option_rec: NameId, u: UniverseParamId, v: UniverseParamId, bs: PreludeBinders) -> ExprV {
    pi_v(BinderInfo::Implicit, bs.a, sort_param_v(u), pi_v(BinderInfo::Implicit, bs.motive, option_motive_ty(option, option_none, option_some, option_rec, u, v, bs), pi_v(BinderInfo::Default, bs.none_case, option_none_case_ty(option, option_none, option_some, option_rec, u, v, bs), pi_v(BinderInfo::Default, bs.some_case, option_some_case_ty(option, option_none, option_some, option_rec, u, v, bs), option_major_ty(option, option_none, option_some, option_rec, u, v, bs)))))
}

fn names1(a: NameId) -> (r: Vec<NameId>)
    ensures
        r@ == seq![a],
{
    let mut v: Vec<NameId> = Vec::new();
    v.push(a);
    assert(v@ =~= seq![a]);
    v
}

fn names2(a: NameId, b: NameId) -> (r: Vec<NameId>)
    ensures
        r@ == seq![a, b],
{
    let mut v: Vec<NameId> = Vec::new();
    v.push(a);
    v.push(b);
    assert(v@ =~= seq![a, b]);
    v
}

/// `Nat`, `Nat.zero`, `Nat.succ` and `Nat.rec.{u}`.
fn register_nat(
    env: &mut GlobalEnv,
    bs: &PreludeBinders,
    nat_name: NameId,
    zero: NameId,
    succ: NameId,
    rec: NameId,
    u: UniverseParamId,
)
    requires
        old(env).wf(),
        nat_name != zero && nat_name != succ && nat_name != rec && zero != succ && zero != rec && succ != rec,
        nat_name != carrier_marker(),
        !old(env)@.contains_key(nat_name),
        !old(env)@.contains_key(zero),
        !old(env)@.contains_key(succ),
        !old(env)@.contains_key(rec),
    ensures
        final(env).wf(),
        final(env)@.dom() == old(env)@.dom().insert(nat_name).insert(zero).insert(succ).insert(rec),
        forall|k: NameId| #[trigger] old(env)@.contains_key(k) ==> final(env)@[k] == old(env)@[k],
        final(env)@[rec] is Recursor,
        inductive_is(final(env)@[nat_name], nat_name, Seq::empty(), type0_v(), 0, 0, seq![zero, succ], true),
        constructor_is(final(env)@[zero], zero, Seq::empty(), const_v(nat_name, Seq::empty()), nat_name, 0, 0, 0),
        constructor_is(final(env)@[succ], succ, Seq::empty(), nat_succ_ty(nat_name, zero, succ, rec, u, *bs), nat_name, 1, 0, 1),
        recursor_is(
            final(env)@[rec],
            rec,
            seq![u],
            nat_rec_ty(nat_name, zero, succ, rec, u, *bs),
            nat_name,
            0,
            0,
            seq![(zero, 0u32, var_v(1)), (succ, 1u32, nat_succ_rule_rhs(nat_name, zero, succ, rec, u, *bs))],
            false,
        ),
{
    let underscore = bs.us;
    let motive = bs.motive;
    let zero_case = bs.zero_case;
    let succ_case = bs.succ_case;
    let n = bs.n;
    let h = bs.h;
    let major = bs.major;

    let succ_ty = mk_pi(BinderInfo::Default, underscore, mk_const0(nat_name), mk_const0(nat_name));
    let motive_ty = mk_pi(BinderInfo::Default, underscore, mk_const0(nat_name), mk_sort_param(u));
    let zero_case_ty = mk_app(mk_var(0), mk_const0(zero));
    let succ_case_ty = mk_pi(
        BinderInfo::Default,
        n,
        mk_const0(nat_name),
        mk_pi(
            BinderInfo::Default,
            h,
            mk_app(mk_var(2), mk_var(0)),
            mk_app(mk_var(3), mk_app(mk_const0(succ), mk_var(1))),
        ),
    );
    let major_ty = mk_pi(BinderInfo::Default, major, mk_const0(nat_name), mk_app(mk_var(3), mk_var(0)));
    let rec_ty = mk_pi(
        BinderInfo::Implicit,
        motive,
        motive_ty,
        mk_pi(
            BinderInfo::Default,
            zero_case,
            zero_case_ty,
            mk_pi(BinderInfo::Default, succ_case, succ_case_ty, major_ty),
        ),
    );
    let zero_rule_rhs = mk_var(1);
    let recursive_call = mk_app(
        mk_app(mk_app(mk_app(mk_const1(rec, Level::Param(u)), mk_var(3)), mk_var(2)), mk_var(1)),
        mk_var(0),
    );
    let succ_rule_rhs = mk_app(mk_app(mk_var(1), mk_var(0)), recursive_call);

    let ind = InductiveVal {
        base: ConstantVal { name: nat_name, universe_params: Vec::new(), ty: Rc::new(mk_type0()) },
        num_params: 0,
        num_indices: 0,
        all: names1(nat_name),
        constructors: names2(zero, succ),
        is_recursive: true,
        is_nested: false,
        is_unsafe: false,
    };
    let mut ctors: Vec<ConstructorVal> = Vec::new();
    ctors.push(ConstructorVal {
        base: ConstantVal { name: zero, universe_params: Vec::new(), ty: Rc::new(mk_const0(nat_name)) },
        inductive: nat_name,
        index: 0,
        num_params: 0,
        num_fields: 0,
        is_unsafe: false,
    });
    ctors.push(ConstructorVal {
        base: ConstantVal { name: succ, universe_params: Vec::new(), ty: Rc::new(succ_ty) },
        inductive: nat_name,
        index: 1,
        num_params: 0,
        num_fields: 1,
        is_unsafe: false,
    });
    let mut rules: Vec<RecursorRule> = Vec::new();
    rules.push(RecursorRule { constructor: zero, num_fields: 0, rhs: Rc::new(zero_rule_rhs) });
    rules.push(RecursorRule { constructor: succ, num_fields: 1, rhs: Rc::new(succ_rule_rhs) });
    let recursor = RecursorVal {
        base: ConstantVal { name: rec, universe_params: params1(u), ty: Rc::new(rec_ty) },
        all: names1(nat_name),
        num_params: 0,
        num_indices: 0,
        num_motives: 1,
        num_minors: 2,
        rules,
        is_k: false,
        is_unsafe: false,
    };
    proof {
        let m = env@;
        let cs = ctors@;
        reveal_with_fuel(constructor_problem, 3);
        reveal_with_fuel(recursor_problem, 2);
        reveal_with_fuel(first_repeat, 3);
        reveal_with_fuel(first_declared, 3);
        reveal_with_fuel(first_bad_constructor, 3);
        assert(ctor_names(cs) =~= seq![zero, succ]);
        assert(seq![zero, succ].take(0) =~= Seq::<NameId>::empty());
        assert(seq![zero, succ].take(1) =~= seq![zero]);
        assert(constructor_ok(m, ind.all@, 0, (*cs[0].base.ty)@));
        reveal_with_fuel(fields_ok, 2);
        assert(constructor_ok(m, ind.all@, 0, (*cs[1].base.ty)@));
        assert(inductive_problem(m, ind, cs, recursor) is None);
    }
    let ghost m0 = env@;
    let ghost cs = ctors@;
    let r = env.add_inductive(ind, ctors, recursor);
    proof {
        reveal_with_fuel(insert_all, 3);
        assert(ctor_infos(cs).drop_last().drop_last() =~= Seq::<ConstantInfo>::empty());
        assert(ctor_infos(cs).drop_last() =~= seq![ConstantInfo::Constructor(cs[0])]);
        assert(env@.dom() =~= m0.dom().insert(nat_name).insert(zero).insert(succ).insert(rec));
    }
}

// ===========================================================================
// Definitions
// ===========================================================================

/// Insert a transparent, non-recursive definition whose body does not
/// mention its own name: the termination gate passes it.
fn insert_op(env: &mut GlobalEnv, name: NameId, ty: Expr, body: Expr)
    requires
        old(env).wf(),
        !old(env)@.contains_key(name),
        !mentions(body@, name),
    ensures
        final(env).wf(),
        final(env)@.dom() == old(env)@.dom().insert(name),
        forall|k: NameId| #[trigger] old(env)@.contains_key(k) ==> final(env)@[k] == old(env)@[k],
        def_is(final(env)@[name], name, ty@, body@),
{
    let info = ConstantInfo::Definition(DefinitionVal {
        base: ConstantVal { name, universe_params: Vec::new(), ty: Rc::new(ty) },
        body: Rc::new(body),
        transparency: Transparency::Semireducible,
        termination: TerminationObligation::none(),
    });
    proof {
        let d = info->Definition_0;
        assert(seq![info].drop_last() =~= Seq::<ConstantInfo>::empty());
        reveal_with_fuel(defs_of, 2);
        assert(defs_of(seq![info]) =~= seq![d]);
        assert(def_names(seq![d]) =~= seq![name]);
        assert(!mentions_any((*d.body)@, seq![name]));
        assert(!block_is_recursive(seq![d]));
        assert(d.termination.params@.len() == 0);
        assert forall|i: int, j: int| 0 <= i < 1 && 0 <= j < 1 implies (#[trigger] seq![d][i]).termination.params@.len()
            * (#[trigger] seq![d][j]).termination.params@.len() <= usize::MAX by {
            assert(seq![d][i] == d && seq![d][j] == d);
        }
        assert(obligations_bounded(seq![d]));
    }
    let r = env.add(info);
    assert(r is Ok);
    assert(final(env)@.dom() =~= old(env)@.dom().insert(name));
}

/// `Nat.rec.{1}`: every motive of the arithmetic lands in `Sort 1`.
fn rec_at_one(rec: NameId) -> (e: Expr)
    ensures
        e@ == ExprV::Const(rec, seq![Level::Succ(Box::new(Level::Zero))]),
{
    mk_const1(rec, Level::Zero.succ())
}

/// `f a b c d`.
fn apply4(f: Expr, a: Expr, b: Expr, c: Expr, d: Expr) -> (e: Expr)
    ensures
        e@ == ExprV::App(
            Box::new(ExprV::App(Box::new(ExprV::App(Box::new(ExprV::App(Box::new(f@), Box::new(a@))), Box::new(b@))), Box::new(c@))),
            Box::new(d@),
        ),
{
    mk_app(mk_app(mk_app(mk_app(f, a), b), c), d)
}

/// `f a b`.
fn apply2(f: Expr, a: Expr, b: Expr) -> (e: Expr)
    ensures
        e@ == ExprV::App(Box::new(ExprV::App(Box::new(f@), Box::new(a@))), Box::new(b@)),
{
    mk_app(mk_app(f, a), b)
}

/// `Π (m : A). Π (n : A). B`.
fn binary_ty(m: NameId, n: NameId, a: NameId, b: NameId) -> (e: Expr)
    ensures
        e@ == ExprV::Pi(
            BinderInfo::Default,
            m,
            Box::new(ExprV::Const(a, Seq::empty())),
            Box::new(ExprV::Pi(
                BinderInfo::Default,
                n,
                Box::new(ExprV::Const(a, Seq::empty())),
                Box::new(ExprV::Const(b, Seq::empty())),
            )),
        ),
{
    mk_pi(BinderInfo::Default, m, mk_const0(a), mk_pi(BinderInfo::Default, n, mk_const0(a), mk_const0(b)))
}

/// `λ (_ : A). B`: a constant motive.
fn const_motive(us: NameId, a: NameId, b: NameId) -> (e: Expr)
    ensures
        e@ == ExprV::Lam(
            BinderInfo::Default,
            us,
            Box::new(ExprV::Const(a, Seq::empty())),
            Box::new(ExprV::Const(b, Seq::empty())),
        ),
{
    mk_lam(us, mk_const0(a), mk_const0(b))
}

/// `Nat.pred : Nat -> Nat := λ n. rec (λ_. Nat) zero (λk. λ_. k) n`.
fn register_pred(env: &mut GlobalEnv, bs: &PreludeBinders, nat_name: NameId, zero: NameId, rec: NameId, pred: NameId)
    requires
        old(env).wf(),
        !old(env)@.contains_key(pred),
        pred != nat_name && pred != zero && pred != rec,
    ensures
        final(env).wf(),
        final(env)@.dom() == old(env)@.dom().insert(pred),
        forall|k: NameId| #[trigger] old(env)@.contains_key(k) ==> final(env)@[k] == old(env)@[k],
        def_is(final(env)@[pred], pred, pred_ty(nat_name, zero, rec, *bs), pred_body(nat_name, zero, rec, *bs)),
{
    let underscore = bs.us;
    let n = bs.n;
    let k = bs.k;
    let motive = const_motive(underscore, nat_name, nat_name);
    let succ_case = mk_lam(k, mk_const0(nat_name), mk_lam(underscore, mk_const0(nat_name), mk_var(1)));
    let body = mk_lam(
        n,
        mk_const0(nat_name),
        apply4(rec_at_one(rec), motive, mk_const0(zero), succ_case, mk_var(0)),
    );
    let ty = mk_pi(BinderInfo::Default, n, mk_const0(nat_name), mk_const0(nat_name));
    proof { reveal_with_fuel(mentions, 10); }
    insert_op(env, pred, ty, body);
}


/// `Nat.add : Nat -> Nat -> Nat := λ m n. rec (λ_. Nat) n (λk ih. succ ih) m`.
fn register_add(env: &mut GlobalEnv, bs: &PreludeBinders, nat_name: NameId, succ: NameId, rec: NameId, add: NameId)
    requires
        old(env).wf(),
        !old(env)@.contains_key(add),
        add != nat_name && add != succ && add != rec,
    ensures
        final(env).wf(),
        final(env)@.dom() == old(env)@.dom().insert(add),
        forall|k: NameId| #[trigger] old(env)@.contains_key(k) ==> final(env)@[k] == old(env)@[k],
        def_is(final(env)@[add], add, add_ty(nat_name, succ, rec, *bs), add_body(nat_name, succ, rec, *bs)),
{
    let underscore = bs.us;
    let m = bs.m;
    let n = bs.n;
    let k = bs.k;
    let ih = bs.ih;
    let motive = const_motive(underscore, nat_name, nat_name);
    let succ_case = mk_lam(k, mk_const0(nat_name), mk_lam(ih, mk_const0(nat_name), mk_app(mk_const0(succ), mk_var(0))));
    let body = mk_lam(
        m,
        mk_const0(nat_name),
        mk_lam(n, mk_const0(nat_name), apply4(rec_at_one(rec), motive, mk_var(0), succ_case, mk_var(1))),
    );
    let ty = binary_ty(m, n, nat_name, nat_name);
    proof { reveal_with_fuel(mentions, 10); }
    insert_op(env, add, ty, body);
}

/// `Nat.mul : Nat -> Nat -> Nat := λ m n. rec (λ_. Nat) zero (λk ih. add n ih) m`.
fn register_mul(env: &mut GlobalEnv, bs: &PreludeBinders, nat_name: NameId, zero: NameId, add: NameId, rec: NameId, mul: NameId)
    requires
        old(env).wf(),
        !old(env)@.contains_key(mul),
        mul != nat_name && mul != zero && mul != add && mul != rec,
    ensures
        final(env).wf(),
        final(env)@.dom() == old(env)@.dom().insert(mul),
        forall|k: NameId| #[trigger] old(env)@.contains_key(k) ==> final(env)@[k] == old(env)@[k],
        def_is(final(env)@[mul], mul, mul_ty(nat_name, zero, add, rec, *bs), mul_body(nat_name, zero, add, rec, *bs)),
{
    let underscore = bs.us;
    let m = bs.m;
    let n = bs.n;
    let k = bs.k;
    let ih = bs.ih;
    let motive = const_motive(underscore, nat_name, nat_name);
    let succ_case = mk_lam(k, mk_const0(nat_name), mk_lam(ih, mk_const0(nat_name), apply2(mk_const0(add), mk_var(2), mk_var(0))));
    let body = mk_lam(
        m,
        mk_const0(nat_name),
        mk_lam(n, mk_const0(nat_name), apply4(rec_at_one(rec), motive, mk_const0(zero), succ_case, mk_var(1))),
    );
    let ty = binary_ty(m, n, nat_name, nat_name);
    proof { reveal_with_fuel(mentions, 10); }
    insert_op(env, mul, ty, body);
}

/// `Nat.sub : Nat -> Nat -> Nat := λ m n. rec (λ_. Nat) m (λ_ ih. pred ih) n`.
fn register_sub(env: &mut GlobalEnv, bs: &PreludeBinders, nat_name: NameId, pred: NameId, rec: NameId, sub: NameId)
    requires
        old(env).wf(),
        !old(env)@.contains_key(sub),
        sub != nat_name && sub != pred && sub != rec,
    ensures
        final(env).wf(),
        final(env)@.dom() == old(env)@.dom().insert(sub),
        forall|k: NameId| #[trigger] old(env)@.contains_key(k) ==> final(env)@[k] == old(env)@[k],
        def_is(final(env)@[sub], sub, sub_ty(nat_name, pred, rec, *bs), sub_body(nat_name, pred, rec, *bs)),
{
    let underscore = bs.us;
    let m = bs.m;
    let n = bs.n;
    let ih = bs.ih;
    let motive = const_motive(underscore, nat_name, nat_name);
    let succ_case = mk_lam(underscore, mk_const0(nat_name), mk_lam(ih, mk_const0(nat_name), mk_app(mk_const0(pred), mk_var(0))));
    let body = mk_lam(
        m,
        mk_const0(nat_name),
        mk_lam(n, mk_const0(nat_name), apply4(rec_at_one(rec), motive, mk_var(1), succ_case, mk_var(0))),
    );
    let ty = binary_ty(m, n, nat_name, nat_name);
    proof { reveal_with_fuel(mentions, 10); }
    insert_op(env, sub, ty, body);
}

/// `Nat.pow : Nat -> Nat -> Nat := λ m n. rec (λ_. Nat) (succ zero) (λ_ ih. mul m ih) n`.
fn register_pow(env: &mut GlobalEnv, bs: &PreludeBinders, nat_name: NameId, zero: NameId, succ: NameId, mul: NameId, rec: NameId, pow: NameId)
    requires
        old(env).wf(),
        !old(env)@.contains_key(pow),
        pow != nat_name && pow != zero && pow != succ && pow != mul && pow != rec,
    ensures
        final(env).wf(),
        final(env)@.dom() == old(env)@.dom().insert(pow),
        forall|k: NameId| #[trigger] old(env)@.contains_key(k) ==> final(env)@[k] == old(env)@[k],
        def_is(final(env)@[pow], pow, pow_ty(nat_name, zero, succ, mul, rec, *bs), pow_body(nat_name, zero, succ, mul, rec, *bs)),
{
    let underscore = bs.us;
    let m = bs.m;
    let n = bs.n;
    let ih = bs.ih;
    let motive = const_motive(underscore, nat_name, nat_name);
    let one = mk_app(mk_const0(succ), mk_const0(zero));
    let succ_case = mk_lam(underscore, mk_const0(nat_name), mk_lam(ih, mk_const0(nat_name), apply2(mk_const0(mul), mk_var(3), mk_var(0))));
    let body = mk_lam(
        m,
        mk_const0(nat_name),
        mk_lam(n, mk_const0(nat_name), apply4(rec_at_one(rec), motive, one, succ_case, mk_var(0))),
    );
    let ty = binary_ty(m, n, nat_name, nat_name);
    proof { reveal_with_fuel(mentions, 10); }
    insert_op(env, pow, ty, body);
}

/// `Bool.not : Bool -> Bool := λ b. Bool.rec (λ_. Bool) false true b`.
fn register_bool_not(env: &mut GlobalEnv, bs: &PreludeBinders, bool_name: NameId, bool_true: NameId, bool_false: NameId, bool_rec: NameId, bool_not: NameId)
    requires
        old(env).wf(),
        !old(env)@.contains_key(bool_not),
        bool_not != bool_name && bool_not != bool_true && bool_not != bool_false && bool_not != bool_rec,
    ensures
        final(env).wf(),
        final(env)@.dom() == old(env)@.dom().insert(bool_not),
        forall|k: NameId| #[trigger] old(env)@.contains_key(k) ==> final(env)@[k] == old(env)@[k],
        def_is(final(env)@[bool_not], bool_not, bool_not_ty(bool_name, bool_true, bool_false, bool_rec, *bs), bool_not_body(bool_name, bool_true, bool_false, bool_rec, *bs)),
{
    let underscore = bs.us;
    let b = bs.b;
    let motive = const_motive(underscore, bool_name, bool_name);
    let body = mk_lam(
        b,
        mk_const0(bool_name),
        apply4(rec_at_one(bool_rec), motive, mk_const0(bool_false), mk_const0(bool_true), mk_var(0)),
    );
    let ty = mk_pi(BinderInfo::Default, b, mk_const0(bool_name), mk_const0(bool_name));
    proof { reveal_with_fuel(mentions, 10); }
    insert_op(env, bool_not, ty, body);
}

/// `Nat.is_zero : Nat -> Bool := λ n. Nat.rec (λ_. Bool) true (λk _. false) n`.
fn register_nat_is_zero(env: &mut GlobalEnv, bs: &PreludeBinders, nat_name: NameId, rec: NameId, bool_name: NameId, bool_true: NameId, bool_false: NameId, nat_is_zero: NameId)
    requires
        old(env).wf(),
        !old(env)@.contains_key(nat_is_zero),
        nat_is_zero != nat_name && nat_is_zero != rec && nat_is_zero != bool_name && nat_is_zero != bool_true && nat_is_zero != bool_false,
    ensures
        final(env).wf(),
        final(env)@.dom() == old(env)@.dom().insert(nat_is_zero),
        forall|k: NameId| #[trigger] old(env)@.contains_key(k) ==> final(env)@[k] == old(env)@[k],
        def_is(final(env)@[nat_is_zero], nat_is_zero, nat_is_zero_ty(nat_name, rec, bool_name, bool_true, bool_false, *bs), nat_is_zero_body(nat_name, rec, bool_name, bool_true, bool_false, *bs)),
{
    let underscore = bs.us;
    let n = bs.n;
    let k = bs.k;
    let motive = const_motive(underscore, nat_name, bool_name);
    let succ_case = mk_lam(k, mk_const0(nat_name), mk_lam(underscore, mk_const0(bool_name), mk_const0(bool_false)));
    let body = mk_lam(
        n,
        mk_const0(nat_name),
        apply4(rec_at_one(rec), motive, mk_const0(bool_true), succ_case, mk_var(0)),
    );
    let ty = mk_pi(BinderInfo::Default, n, mk_const0(nat_name), mk_const0(bool_name));
    proof { reveal_with_fuel(mentions, 10); }
    insert_op(env, nat_is_zero, ty, body);
}

/// `Nat.beq_step : (Nat -> Bool) -> Nat -> Bool := λ ih n. Nat.rec (λ_. Bool) false (λj _. ih j) n`.
fn register_nat_beq_step(env: &mut GlobalEnv, bs: &PreludeBinders, nat_name: NameId, rec: NameId, bool_name: NameId, bool_false: NameId, nat_beq_step: NameId)
    requires
        old(env).wf(),
        !old(env)@.contains_key(nat_beq_step),
        nat_beq_step != nat_name && nat_beq_step != rec && nat_beq_step != bool_name && nat_beq_step != bool_false,
    ensures
        final(env).wf(),
        final(env)@.dom() == old(env)@.dom().insert(nat_beq_step),
        forall|k: NameId| #[trigger] old(env)@.contains_key(k) ==> final(env)@[k] == old(env)@[k],
        def_is(final(env)@[nat_beq_step], nat_beq_step, nat_beq_step_ty(nat_name, rec, bool_name, bool_false, *bs), nat_beq_step_body(nat_name, rec, bool_name, bool_false, *bs)),
{
    let underscore = bs.us;
    let ih = bs.ih;
    let n = bs.n;
    let j = bs.j;
    let motive = const_motive(underscore, nat_name, bool_name);
    let succ_case = mk_lam(j, mk_const0(nat_name), mk_lam(underscore, mk_const0(bool_name), mk_app(mk_var(3), mk_var(1))));
    let body = mk_lam(
        ih,
        mk_pi(BinderInfo::Default, underscore, mk_const0(nat_name), mk_const0(bool_name)),
        mk_lam(n, mk_const0(nat_name), apply4(rec_at_one(rec), motive, mk_const0(bool_false), succ_case, mk_var(0))),
    );
    let ty = mk_pi(
        BinderInfo::Default,
        ih,
        mk_pi(BinderInfo::Default, underscore, mk_const0(nat_name), mk_const0(bool_name)),
        mk_pi(BinderInfo::Default, n, mk_const0(nat_name), mk_const0(bool_name)),
    );
    proof { reveal_with_fuel(mentions, 10); }
    insert_op(env, nat_beq_step, ty, body);
}

/// `Nat.beq : Nat -> Nat -> Bool := λ m n. Nat.rec (λ_. Nat -> Bool) Nat.is_zero (λk ih. Nat.beq_step ih) m n`.
fn register_nat_beq(env: &mut GlobalEnv, bs: &PreludeBinders, nat_name: NameId, rec: NameId, bool_name: NameId, nat_is_zero: NameId, nat_beq_step: NameId, nat_beq: NameId)
    requires
        old(env).wf(),
        !old(env)@.contains_key(nat_beq),
        nat_beq != nat_name && nat_beq != rec && nat_beq != bool_name && nat_beq != nat_is_zero && nat_beq != nat_beq_step,
    ensures
        final(env).wf(),
        final(env)@.dom() == old(env)@.dom().insert(nat_beq),
        forall|k: NameId| #[trigger] old(env)@.contains_key(k) ==> final(env)@[k] == old(env)@[k],
        def_is(final(env)@[nat_beq], nat_beq, nat_beq_ty(nat_name, rec, bool_name, nat_is_zero, nat_beq_step, *bs), nat_beq_body(nat_name, rec, bool_name, nat_is_zero, nat_beq_step, *bs)),
{
    let underscore = bs.us;
    let m = bs.m;
    let n = bs.n;
    let k = bs.k;
    let ih = bs.ih;
    let motive = mk_lam(
        underscore,
        mk_const0(nat_name),
        mk_pi(BinderInfo::Default, underscore, mk_const0(nat_name), mk_const0(bool_name)),
    );
    let succ_case = mk_lam(
        k,
        mk_const0(nat_name),
        mk_lam(
            ih,
            mk_pi(BinderInfo::Default, underscore, mk_const0(nat_name), mk_const0(bool_name)),
            mk_app(mk_const0(nat_beq_step), mk_var(0)),
        ),
    );
    let rec_applied = apply4(rec_at_one(rec), motive, mk_const0(nat_is_zero), succ_case, mk_var(1));
    let body = mk_lam(m, mk_const0(nat_name), mk_lam(n, mk_const0(nat_name), mk_app(rec_applied, mk_var(0))));
    let ty = binary_ty(m, n, nat_name, bool_name);
    proof { reveal_with_fuel(mentions, 10); }
    insert_op(env, nat_beq, ty, body);
}

/// `Nat.bne : Nat -> Nat -> Bool := λ m n. Bool.not (Nat.beq m n)`.
fn register_nat_bne(env: &mut GlobalEnv, bs: &PreludeBinders, nat_name: NameId, bool_name: NameId, bool_not: NameId, nat_beq: NameId, nat_bne: NameId)
    requires
        old(env).wf(),
        !old(env)@.contains_key(nat_bne),
        nat_bne != nat_name && nat_bne != bool_name && nat_bne != bool_not && nat_bne != nat_beq,
    ensures
        final(env).wf(),
        final(env)@.dom() == old(env)@.dom().insert(nat_bne),
        forall|k: NameId| #[trigger] old(env)@.contains_key(k) ==> final(env)@[k] == old(env)@[k],
        def_is(final(env)@[nat_bne], nat_bne, nat_bne_ty(nat_name, bool_name, bool_not, nat_beq, *bs), nat_bne_body(nat_name, bool_name, bool_not, nat_beq, *bs)),
{
    let m = bs.m;
    let n = bs.n;
    let beq_app = apply2(mk_const0(nat_beq), mk_var(1), mk_var(0));
    let body = mk_lam(m, mk_const0(nat_name), mk_lam(n, mk_const0(nat_name), mk_app(mk_const0(bool_not), beq_app)));
    let ty = binary_ty(m, n, nat_name, bool_name);
    proof { reveal_with_fuel(mentions, 10); }
    insert_op(env, nat_bne, ty, body);
}

/// `Nat.ble : Nat -> Nat -> Bool := λ m n. Nat.beq (Nat.sub m n) Nat.zero`.
fn register_nat_ble(env: &mut GlobalEnv, bs: &PreludeBinders, nat_name: NameId, zero: NameId, bool_name: NameId, nat_beq: NameId, sub: NameId, nat_ble: NameId)
    requires
        old(env).wf(),
        !old(env)@.contains_key(nat_ble),
        nat_ble != nat_name && nat_ble != zero && nat_ble != bool_name && nat_ble != nat_beq && nat_ble != sub,
    ensures
        final(env).wf(),
        final(env)@.dom() == old(env)@.dom().insert(nat_ble),
        forall|k: NameId| #[trigger] old(env)@.contains_key(k) ==> final(env)@[k] == old(env)@[k],
        def_is(final(env)@[nat_ble], nat_ble, nat_ble_ty(nat_name, zero, bool_name, nat_beq, sub, *bs), nat_ble_body(nat_name, zero, bool_name, nat_beq, sub, *bs)),
{
    let m = bs.m;
    let n = bs.n;
    let sub_app = apply2(mk_const0(sub), mk_var(1), mk_var(0));
    let beq_app = apply2(mk_const0(nat_beq), sub_app, mk_const0(zero));
    let body = mk_lam(m, mk_const0(nat_name), mk_lam(n, mk_const0(nat_name), beq_app));
    let ty = binary_ty(m, n, nat_name, bool_name);
    proof { reveal_with_fuel(mentions, 10); }
    insert_op(env, nat_ble, ty, body);
}

/// `Nat.blt : Nat -> Nat -> Bool := λ m n. Nat.ble (Nat.succ m) n`.
fn register_nat_blt(env: &mut GlobalEnv, bs: &PreludeBinders, nat_name: NameId, succ: NameId, bool_name: NameId, nat_ble: NameId, nat_blt: NameId)
    requires
        old(env).wf(),
        !old(env)@.contains_key(nat_blt),
        nat_blt != nat_name && nat_blt != succ && nat_blt != bool_name && nat_blt != nat_ble,
    ensures
        final(env).wf(),
        final(env)@.dom() == old(env)@.dom().insert(nat_blt),
        forall|k: NameId| #[trigger] old(env)@.contains_key(k) ==> final(env)@[k] == old(env)@[k],
        def_is(final(env)@[nat_blt], nat_blt, nat_blt_ty(nat_name, succ, bool_name, nat_ble, *bs), nat_blt_body(nat_name, succ, bool_name, nat_ble, *bs)),
{
    let m = bs.m;
    let n = bs.n;
    let succ_m = mk_app(mk_const0(succ), mk_var(1));
    let ble_app = apply2(mk_const0(nat_ble), succ_m, mk_var(0));
    let body = mk_lam(m, mk_const0(nat_name), mk_lam(n, mk_const0(nat_name), ble_app));
    let ty = binary_ty(m, n, nat_name, bool_name);
    proof { reveal_with_fuel(mentions, 10); }
    insert_op(env, nat_blt, ty, body);
}

/// `Nat.bgt : Nat -> Nat -> Bool := λ m n. Nat.blt n m`.
fn register_nat_bgt(env: &mut GlobalEnv, bs: &PreludeBinders, nat_name: NameId, bool_name: NameId, nat_blt: NameId, nat_bgt: NameId)
    requires
        old(env).wf(),
        !old(env)@.contains_key(nat_bgt),
        nat_bgt != nat_name && nat_bgt != bool_name && nat_bgt != nat_blt,
    ensures
        final(env).wf(),
        final(env)@.dom() == old(env)@.dom().insert(nat_bgt),
        forall|k: NameId| #[trigger] old(env)@.contains_key(k) ==> final(env)@[k] == old(env)@[k],
        def_is(final(env)@[nat_bgt], nat_bgt, nat_bgt_ty(nat_name, bool_name, nat_blt, *bs), nat_bgt_body(nat_name, bool_name, nat_blt, *bs)),
{
    let m = bs.m;
    let n = bs.n;
    let blt_app = apply2(mk_const0(nat_blt), mk_var(0), mk_var(1));
    let body = mk_lam(m, mk_const0(nat_name), mk_lam(n, mk_const0(nat_name), blt_app));
    let ty = binary_ty(m, n, nat_name, bool_name);
    proof { reveal_with_fuel(mentions, 10); }
    insert_op(env, nat_bgt, ty, body);
}

/// `Nat.bge : Nat -> Nat -> Bool := λ m n. Nat.ble n m`.
fn register_nat_bge(env: &mut GlobalEnv, bs: &PreludeBinders, nat_name: NameId, bool_name: NameId, nat_ble: NameId, nat_bge: NameId)
    requires
        old(env).wf(),
        !old(env)@.contains_key(nat_bge),
        nat_bge != nat_name && nat_bge != bool_name && nat_bge != nat_ble,
    ensures
        final(env).wf(),
        final(env)@.dom() == old(env)@.dom().insert(nat_bge),
        forall|k: NameId| #[trigger] old(env)@.contains_key(k) ==> final(env)@[k] == old(env)@[k],
        def_is(final(env)@[nat_bge], nat_bge, nat_bge_ty(nat_name, bool_name, nat_ble, *bs), nat_bge_body(nat_name, bool_name, nat_ble, *bs)),
{
    let m = bs.m;
    let n = bs.n;
    let ble_app = apply2(mk_const0(nat_ble), mk_var(0), mk_var(1));
    let body = mk_lam(m, mk_const0(nat_name), mk_lam(n, mk_const0(nat_name), ble_app));
    let ty = binary_ty(m, n, nat_name, bool_name);
    proof { reveal_with_fuel(mentions, 10); }
    insert_op(env, nat_bge, ty, body);
}


// ===========================================================================
// Inductive families
// ===========================================================================

/// `Eq.{u} : {A : Sort u} -> A -> A -> Prop`, `Eq.refl` and `Eq.rec.{u, v}`.
fn register_eq(
    env: &mut GlobalEnv,
    bs: &PreludeBinders,
    eq: NameId,
    eq_refl: NameId,
    eq_rec: NameId,
    u: UniverseParamId,
    v: UniverseParamId,
)
    requires
        old(env).wf(),
        eq != eq_refl && eq != eq_rec && eq_refl != eq_rec,
        eq != carrier_marker(),
        !old(env)@.contains_key(eq),
        !old(env)@.contains_key(eq_refl),
        !old(env)@.contains_key(eq_rec),
    ensures
        final(env).wf(),
        final(env)@.dom() == old(env)@.dom().insert(eq).insert(eq_refl).insert(eq_rec),
        forall|k: NameId| #[trigger] old(env)@.contains_key(k) ==> final(env)@[k] == old(env)@[k],
        final(env)@[eq_rec] is Recursor,
        inductive_is(final(env)@[eq], eq, seq![u], eq_eq_ty(eq, eq_refl, eq_rec, u, v, *bs), 2, 1, seq![eq_refl], true),
        constructor_is(final(env)@[eq_refl], eq_refl, seq![u], eq_refl_ty(eq, eq_refl, eq_rec, u, v, *bs), eq, 0, 2, 0),
        recursor_is(final(env)@[eq_rec], eq_rec, seq![u, v], eq_rec_ty(eq, eq_refl, eq_rec, u, v, *bs), eq, 2, 1, seq![(eq_refl, 0u32, var_v(1))], true),
{
    let underscore = bs.us;
    let a_name = bs.a;
    let x_name = bs.x;
    let y_name = bs.y;
    let motive = bs.motive;
    let refl_case = bs.refl_case;
    let b_name = bs.b;
    let h_name = bs.h;

    let eq_ty = mk_pi(
        BinderInfo::Implicit,
        a_name,
        mk_sort_param(u),
        mk_pi(BinderInfo::Default, x_name, mk_var(0), mk_pi(BinderInfo::Default, y_name, mk_var(1), mk_prop())),
    );
    let refl_ty = mk_pi(
        BinderInfo::Implicit,
        a_name,
        mk_sort_param(u),
        mk_pi(
            BinderInfo::Default,
            x_name,
            mk_var(0),
            mk_app(apply2(mk_const1(eq, Level::Param(u)), mk_var(1), mk_var(0)), mk_var(0)),
        ),
    );
    let motive_ty = mk_pi(
        BinderInfo::Default,
        b_name,
        mk_var(1),
        mk_pi(
            BinderInfo::Default,
            underscore,
            mk_app(apply2(mk_const1(eq, Level::Param(u)), mk_var(2), mk_var(1)), mk_var(0)),
            mk_sort_param(v),
        ),
    );
    let refl_case_ty = mk_app(
        mk_app(mk_var(0), mk_var(1)),
        apply2(mk_const1(eq_refl, Level::Param(u)), mk_var(2), mk_var(1)),
    );
    let h_ty = mk_app(apply2(mk_const1(eq, Level::Param(u)), mk_var(4), mk_var(3)), mk_var(0));
    let eq_rec_cod = mk_app(mk_app(mk_var(3), mk_var(1)), mk_var(0));
    let rec_ty = mk_pi(
        BinderInfo::Implicit,
        a_name,
        mk_sort_param(u),
        mk_pi(
            BinderInfo::Implicit,
            underscore,
            mk_var(0),
            mk_pi(
                BinderInfo::Implicit,
                motive,
                motive_ty,
                mk_pi(
                    BinderInfo::Default,
                    refl_case,
                    refl_case_ty,
                    mk_pi(
                        BinderInfo::Default,
                        b_name,
                        mk_var(3),
                        mk_pi(BinderInfo::Default, h_name, h_ty, eq_rec_cod),
                    ),
                ),
            ),
        ),
    );

    let ind = InductiveVal {
        base: ConstantVal { name: eq, universe_params: params1(u), ty: Rc::new(eq_ty) },
        num_params: 2,
        num_indices: 1,
        all: names1(eq),
        constructors: names1(eq_refl),
        is_recursive: true,
        is_nested: false,
        is_unsafe: false,
    };
    let mut ctors: Vec<ConstructorVal> = Vec::new();
    ctors.push(ConstructorVal {
        base: ConstantVal { name: eq_refl, universe_params: params1(u), ty: Rc::new(refl_ty) },
        inductive: eq,
        index: 0,
        num_params: 2,
        num_fields: 0,
        is_unsafe: false,
    });
    let mut rules: Vec<RecursorRule> = Vec::new();
    rules.push(RecursorRule { constructor: eq_refl, num_fields: 0, rhs: Rc::new(mk_var(1)) });
    let recursor = RecursorVal {
        base: ConstantVal { name: eq_rec, universe_params: params2(u, v), ty: Rc::new(rec_ty) },
        all: names1(eq),
        num_params: 2,
        num_indices: 1,
        num_motives: 1,
        num_minors: 1,
        rules,
        is_k: true,
        is_unsafe: false,
    };
    proof {
        let m = env@;
        let cs = ctors@;
        reveal_with_fuel(constructor_problem, 2);
        reveal_with_fuel(recursor_problem, 2);
        reveal_with_fuel(first_repeat, 2);
        reveal_with_fuel(first_declared, 2);
        reveal_with_fuel(first_bad_constructor, 2);
        reveal_with_fuel(classify_params, 3);
        assert(ctor_names(cs) =~= seq![eq_refl]);
        assert(seq![eq_refl].take(0) =~= Seq::<NameId>::empty());
        assert(constructor_ok(m, ind.all@, 2, (*cs[0].base.ty)@));
        assert(inductive_problem(m, ind, cs, recursor) is None);
    }
    let ghost m0 = env@;
    let ghost cs = ctors@;
    let r = env.add_inductive(ind, ctors, recursor);
    proof {
        reveal_with_fuel(insert_all, 2);
        assert(ctor_infos(cs).drop_last() =~= Seq::<ConstantInfo>::empty());
        assert(env@.dom() =~= m0.dom().insert(eq).insert(eq_refl).insert(eq_rec));
    }
}

/// `Bool : Type 0`, `Bool.true`, `Bool.false` and `Bool.rec.{u}`.
fn register_bool(
    env: &mut GlobalEnv,
    bs: &PreludeBinders,
    bool_name: NameId,
    bool_true: NameId,
    bool_false: NameId,
    bool_rec: NameId,
    u: UniverseParamId,
)
    requires
        old(env).wf(),
        bool_name != bool_true && bool_name != bool_false && bool_name != bool_rec,
        bool_true != bool_false && bool_true != bool_rec && bool_false != bool_rec,
        bool_name != carrier_marker(),
        !old(env)@.contains_key(bool_name),
        !old(env)@.contains_key(bool_true),
        !old(env)@.contains_key(bool_false),
        !old(env)@.contains_key(bool_rec),
    ensures
        final(env).wf(),
        final(env)@.dom() == old(env)@.dom().insert(bool_name).insert(bool_true).insert(bool_false).insert(bool_rec),
        forall|k: NameId| #[trigger] old(env)@.contains_key(k) ==> final(env)@[k] == old(env)@[k],
        final(env)@[bool_rec] is Recursor,
        inductive_is(final(env)@[bool_name], bool_name, Seq::empty(), type0_v(), 0, 0, seq![bool_true, bool_false], false),
        constructor_is(final(env)@[bool_true], bool_true, Seq::empty(), const_v(bool_name, Seq::empty()), bool_name, 0, 0, 0),
        constructor_is(final(env)@[bool_false], bool_false, Seq::empty(), const_v(bool_name, Seq::empty()), bool_name, 1, 0, 0),
        recursor_is(
            final(env)@[bool_rec],
            bool_rec,
            seq![u],
            bool_rec_ty(bool_name, bool_true, bool_false, bool_rec, u, *bs),
            bool_name,
            0,
            0,
            seq![(bool_true, 0u32, var_v(1)), (bool_false, 0u32, var_v(0))],
            false,
        ),
{
    let underscore = bs.us;
    let motive = bs.motive;
    let true_case = bs.true_case;
    let false_case = bs.false_case;
    let b = bs.b;

    let motive_ty = mk_pi(BinderInfo::Default, underscore, mk_const0(bool_name), mk_sort_param(u));
    let true_case_ty = mk_app(mk_var(0), mk_const0(bool_true));
    let false_case_ty = mk_app(mk_var(1), mk_const0(bool_false));
    let major_ty = mk_pi(BinderInfo::Default, b, mk_const0(bool_name), mk_app(mk_var(3), mk_var(0)));
    let rec_ty = mk_pi(
        BinderInfo::Implicit,
        motive,
        motive_ty,
        mk_pi(
            BinderInfo::Default,
            true_case,
            true_case_ty,
            mk_pi(BinderInfo::Default, false_case, false_case_ty, major_ty),
        ),
    );

    let ind = InductiveVal {
        base: ConstantVal { name: bool_name, universe_params: Vec::new(), ty: Rc::new(mk_type0()) },
        num_params: 0,
        num_indices: 0,
        all: names1(bool_name),
        constructors: names2(bool_true, bool_false),
        is_recursive: false,
        is_nested: false,
        is_unsafe: false,
    };
    let mut ctors: Vec<ConstructorVal> = Vec::new();
    ctors.push(ConstructorVal {
        base: ConstantVal { name: bool_true, universe_params: Vec::new(), ty: Rc::new(mk_const0(bool_name)) },
        inductive: bool_name,
        index: 0,
        num_params: 0,
        num_fields: 0,
        is_unsafe: false,
    });
    ctors.push(ConstructorVal {
        base: ConstantVal { name: bool_false, universe_params: Vec::new(), ty: Rc::new(mk_const0(bool_name)) },
        inductive: bool_name,
        index: 1,
        num_params: 0,
        num_fields: 0,
        is_unsafe: false,
    });
    let mut rules: Vec<RecursorRule> = Vec::new();
    rules.push(RecursorRule { constructor: bool_true, num_fields: 0, rhs: Rc::new(mk_var(1)) });
    rules.push(RecursorRule { constructor: bool_false, num_fields: 0, rhs: Rc::new(mk_var(0)) });
    let recursor = RecursorVal {
        base: ConstantVal { name: bool_rec, universe_params: params1(u), ty: Rc::new(rec_ty) },
        all: names1(bool_name),
        num_params: 0,
        num_indices: 0,
        num_motives: 1,
        num_minors: 2,
        rules,
        is_k: false,
        is_unsafe: false,
    };
    proof {
        let m = env@;
        let cs = ctors@;
        reveal_with_fuel(constructor_problem, 3);
        reveal_with_fuel(recursor_problem, 2);
        reveal_with_fuel(first_repeat, 3);
        reveal_with_fuel(first_declared, 3);
        reveal_with_fuel(first_bad_constructor, 3);
        assert(ctor_names(cs) =~= seq![bool_true, bool_false]);
        assert(seq![bool_true, bool_false].take(0) =~= Seq::<NameId>::empty());
        assert(seq![bool_true, bool_false].take(1) =~= seq![bool_true]);
        assert(constructor_ok(m, ind.all@, 0, (*cs[0].base.ty)@));
        assert(constructor_ok(m, ind.all@, 0, (*cs[1].base.ty)@));
        assert(inductive_problem(m, ind, cs, recursor) is None);
    }
    let ghost m0 = env@;
    let ghost cs = ctors@;
    let r = env.add_inductive(ind, ctors, recursor);
    proof {
        reveal_with_fuel(insert_all, 3);
        assert(ctor_infos(cs).drop_last().drop_last() =~= Seq::<ConstantInfo>::empty());
        assert(ctor_infos(cs).drop_last() =~= seq![ConstantInfo::Constructor(cs[0])]);
        assert(env@.dom() =~= m0.dom().insert(bool_name).insert(bool_true).insert(bool_false).insert(bool_rec));
    }
}


/// The type of `List.cons` is strictly positive in `List`.
proof fn lemma_cons_positive(
    m: Map<NameId, ConstantInfo>,
    list: NameId,
    u: UniverseParamId,
    a_name: NameId,
    x_name: NameId,
    xs_name: NameId,
)
    requires
        list != carrier_marker(),
        !m.contains_key(list),
    ensures
        constructor_ok(
            m,
            seq![list],
            1,
            pi_v(
                BinderInfo::Implicit,
                a_name,
                sort_param_v(u),
                pi_v(
                    BinderInfo::Default,
                    x_name,
                    var_v(0),
                    pi_v(
                        BinderInfo::Default,
                        xs_name,
                        app_v(const_v(list, seq![Level::Param(u)]), var_v(1)),
                        app_v(const_v(list, seq![Level::Param(u)]), var_v(2)),
                    ),
                ),
            ),
        ),
{
    let ext = seq![list].push(carrier_marker());
    let lt = app_v(const_v(list, seq![Level::Param(u)]), var_v(1));
    let tail = pi_v(BinderInfo::Default, xs_name, lt, app_v(const_v(list, seq![Level::Param(u)]), var_v(2)));
    let rest = pi_v(BinderInfo::Default, x_name, var_v(0), tail);
    let cs = seq![true];
    reveal_with_fuel(classify_params, 2);
    assert(classify_params(pi_v(BinderInfo::Implicit, a_name, sort_param_v(u), rest), 1) == Some((cs, rest)));
    let marker = ExprV::Const(carrier_marker(), Seq::empty());
    assert(subst_carriers_spec(var_v(0), 0, 1, cs) == marker);
    assert(strict_pos_spec(m, ext, marker));
    let lt2 = app_v(const_v(list, seq![Level::Param(u)]), marker);
    reveal_with_fuel(subst_carriers_spec, 2);
    assert(subst_carriers_spec(lt, 1, 1, cs) == lt2);
    reveal_with_fuel(strict_pos_spine, 2);
    reveal_with_fuel(crate::termination::spine_head, 2);
    assert(crate::termination::spine_head(lt2) == const_v(list, seq![Level::Param(u)]));
    assert(!crate::inductive::unsafe_inductive(m, list));
    assert(strict_pos_leaf(m, ext, const_v(list, seq![Level::Param(u)])));
    assert(strict_pos_spec(m, ext, marker));
    assert(strict_pos_spine(m, ext, lt2));
    assert(strict_pos_spec(m, ext, lt2));
    reveal_with_fuel(fields_ok, 3);
    assert(fields_ok(m, ext, 1, cs, rest, 0));
}

/// `List.{u} : Type u -> Type u`, `List.nil`, `List.cons` and
/// `List.rec.{u, v}`.
#[verifier::rlimit(30)]
fn register_list(
    env: &mut GlobalEnv,
    bs: &PreludeBinders,
    list: NameId,
    list_nil: NameId,
    list_cons: NameId,
    list_rec: NameId,
    u: UniverseParamId,
    v: UniverseParamId,
)
    requires
        old(env).wf(),
        list != list_nil && list != list_cons && list != list_rec,
        list_nil != list_cons && list_nil != list_rec && list_cons != list_rec,
        list != carrier_marker(),
        !old(env)@.contains_key(list),
        !old(env)@.contains_key(list_nil),
        !old(env)@.contains_key(list_cons),
        !old(env)@.contains_key(list_rec),
    ensures
        final(env).wf(),
        final(env)@.dom() == old(env)@.dom().insert(list).insert(list_nil).insert(list_cons).insert(list_rec),
        forall|k: NameId| #[trigger] old(env)@.contains_key(k) ==> final(env)@[k] == old(env)@[k],
        final(env)@[list_rec] is Recursor,
        inductive_is(final(env)@[list], list, seq![u], list_list_ty(list, list_nil, list_cons, list_rec, u, v, *bs), 1, 0, seq![list_nil, list_cons], true),
        constructor_is(final(env)@[list_nil], list_nil, seq![u], list_nil_ty(list, list_nil, list_cons, list_rec, u, v, *bs), list, 0, 1, 0),
        constructor_is(final(env)@[list_cons], list_cons, seq![u], list_cons_ty(list, list_nil, list_cons, list_rec, u, v, *bs), list, 1, 1, 2),
        recursor_is(
            final(env)@[list_rec],
            list_rec,
            seq![u, v],
            list_rec_ty(list, list_nil, list_cons, list_rec, u, v, *bs),
            list,
            1,
            0,
            seq![(list_nil, 0u32, var_v(1)), (list_cons, 2u32, list_cons_rule_rhs(list, list_nil, list_cons, list_rec, u, v, *bs))],
            false,
        ),
{
    let underscore = bs.us;
    let a_name = bs.a;
    let motive = bs.motive;
    let nil_case = bs.nil_case;
    let cons_case = bs.cons_case;
    let x_name = bs.x;
    let xs_name = bs.xs;
    let h = bs.h;
    let l = bs.l;

    let list_ty = mk_pi(BinderInfo::Implicit, a_name, mk_sort_param(u), mk_sort_param(u));
    let nil_ty = mk_pi(BinderInfo::Implicit, a_name, mk_sort_param(u), mk_app(mk_const1(list, Level::Param(u)), mk_var(0)));
    let cons_ty = mk_pi(
        BinderInfo::Implicit,
        a_name,
        mk_sort_param(u),
        mk_pi(
            BinderInfo::Default,
            x_name,
            mk_var(0),
            mk_pi(
                BinderInfo::Default,
                xs_name,
                mk_app(mk_const1(list, Level::Param(u)), mk_var(1)),
                mk_app(mk_const1(list, Level::Param(u)), mk_var(2)),
            ),
        ),
    );
    let motive_ty = mk_pi(
        BinderInfo::Default,
        underscore,
        mk_app(mk_const1(list, Level::Param(u)), mk_var(0)),
        mk_sort_param(v),
    );
    let nil_case_ty = mk_app(mk_var(0), mk_app(mk_const1(list_nil, Level::Param(u)), mk_var(1)));
    let cons_case_ty = mk_pi(
        BinderInfo::Default,
        x_name,
        mk_var(2),
        mk_pi(
            BinderInfo::Default,
            xs_name,
            mk_app(mk_const1(list, Level::Param(u)), mk_var(3)),
            mk_pi(
                BinderInfo::Default,
                h,
                mk_app(mk_var(3), mk_var(0)),
                mk_app(mk_var(4), mk_app(apply2(mk_const1(list_cons, Level::Param(u)), mk_var(5), mk_var(2)), mk_var(1))),
            ),
        ),
    );
    let major_ty = mk_pi(
        BinderInfo::Default,
        l,
        mk_app(mk_const1(list, Level::Param(u)), mk_var(3)),
        mk_app(mk_var(3), mk_var(0)),
    );
    let rec_ty = mk_pi(
        BinderInfo::Implicit,
        a_name,
        mk_sort_param(u),
        mk_pi(
            BinderInfo::Implicit,
            motive,
            motive_ty,
            mk_pi(
                BinderInfo::Default,
                nil_case,
                nil_case_ty,
                mk_pi(BinderInfo::Default, cons_case, cons_case_ty, major_ty),
            ),
        ),
    );
    let recursive_call = mk_app(
        apply4(mk_const2(list_rec, Level::Param(u), Level::Param(v)), mk_var(5), mk_var(4), mk_var(3), mk_var(2)),
        mk_var(0),
    );
    let cons_rule_rhs = mk_app(apply2(mk_var(2), mk_var(1), mk_var(0)), recursive_call);

    let ind = InductiveVal {
        base: ConstantVal { name: list, universe_params: params1(u), ty: Rc::new(list_ty) },
        num_params: 1,
        num_indices: 0,
        all: names1(list),
        constructors: names2(list_nil, list_cons),
        is_recursive: true,
        is_nested: false,
        is_unsafe: false,
    };
    let mut ctors: Vec<ConstructorVal> = Vec::new();
    ctors.push(ConstructorVal {
        base: ConstantVal { name: list_nil, universe_params: params1(u), ty: Rc::new(nil_ty) },
        inductive: list,
        index: 0,
        num_params: 1,
        num_fields: 0,
        is_unsafe: false,
    });
    ctors.push(ConstructorVal {
        base: ConstantVal { name: list_cons, universe_params: params1(u), ty: Rc::new(cons_ty) },
        inductive: list,
        index: 1,
        num_params: 1,
        num_fields: 2,
        is_unsafe: false,
    });
    let mut rules: Vec<RecursorRule> = Vec::new();
    rules.push(RecursorRule { constructor: list_nil, num_fields: 0, rhs: Rc::new(mk_var(1)) });
    rules.push(RecursorRule { constructor: list_cons, num_fields: 2, rhs: Rc::new(cons_rule_rhs) });
    let recursor = RecursorVal {
        base: ConstantVal { name: list_rec, universe_params: params2(u, v), ty: Rc::new(rec_ty) },
        all: names1(list),
        num_params: 1,
        num_indices: 0,
        num_motives: 1,
        num_minors: 2,
        rules,
        is_k: false,
        is_unsafe: false,
    };
    proof {
        let m = env@;
        let cs = ctors@;
        reveal_with_fuel(constructor_problem, 3);
        reveal_with_fuel(recursor_problem, 2);
        reveal_with_fuel(first_repeat, 3);
        reveal_with_fuel(first_declared, 3);
        reveal_with_fuel(first_bad_constructor, 3);
        reveal_with_fuel(classify_params, 2);
        lemma_cons_positive(m, list, u, a_name, x_name, xs_name);
        assert(ctor_names(cs) =~= seq![list_nil, list_cons]);
        assert(seq![list_nil, list_cons].take(0) =~= Seq::<NameId>::empty());
        assert(seq![list_nil, list_cons].take(1) =~= seq![list_nil]);
        assert(constructor_ok(m, ind.all@, 1, (*cs[0].base.ty)@));
        assert(constructor_ok(m, ind.all@, 1, (*cs[1].base.ty)@));
        assert(inductive_problem(m, ind, cs, recursor) is None);
    }
    let ghost m0 = env@;
    let ghost cs = ctors@;
    let r = env.add_inductive(ind, ctors, recursor);
    proof {
        reveal_with_fuel(insert_all, 3);
        assert(ctor_infos(cs).drop_last().drop_last() =~= Seq::<ConstantInfo>::empty());
        assert(ctor_infos(cs).drop_last() =~= seq![ConstantInfo::Constructor(cs[0])]);
        assert(env@.dom() =~= m0.dom().insert(list).insert(list_nil).insert(list_cons).insert(list_rec));
    }
}

/// `Option.{u} : Type u -> Type u`, `Option.none`, `Option.some` and
/// `Option.rec.{u, v}`.
fn register_option(
    env: &mut GlobalEnv,
    bs: &PreludeBinders,
    option: NameId,
    option_none: NameId,
    option_some: NameId,
    option_rec: NameId,
    u: UniverseParamId,
    v: UniverseParamId,
)
    requires
        old(env).wf(),
        option != option_none && option != option_some && option != option_rec,
        option_none != option_some && option_none != option_rec && option_some != option_rec,
        option != carrier_marker(),
        !old(env)@.contains_key(option),
        !old(env)@.contains_key(option_none),
        !old(env)@.contains_key(option_some),
        !old(env)@.contains_key(option_rec),
    ensures
        final(env).wf(),
        final(env)@.dom() == old(env)@.dom().insert(option).insert(option_none).insert(option_some).insert(option_rec),
        forall|k: NameId| #[trigger] old(env)@.contains_key(k) ==> final(env)@[k] == old(env)@[k],
        final(env)@[option_rec] is Recursor,
        inductive_is(final(env)@[option], option, seq![u], option_option_ty(option, option_none, option_some, option_rec, u, v, *bs), 1, 0, seq![option_none, option_some], false),
        constructor_is(final(env)@[option_none], option_none, seq![u], option_none_ty(option, option_none, option_some, option_rec, u, v, *bs), option, 0, 1, 0),
        constructor_is(final(env)@[option_some], option_some, seq![u], option_some_ty(option, option_none, option_some, option_rec, u, v, *bs), option, 1, 1, 1),
        recursor_is(
            final(env)@[option_rec],
            option_rec,
            seq![u, v],
            option_rec_ty(option, option_none, option_some, option_rec, u, v, *bs),
            option,
            1,
            0,
            seq![(option_none, 0u32, var_v(1)), (option_some, 1u32, app_v(var_v(1), var_v(0)))],
            false,
        ),
{
    let underscore = bs.us;
    let a_name = bs.a;
    let motive = bs.motive;
    let none_case = bs.none_case;
    let some_case = bs.some_case;
    let x_name = bs.x;
    let o = bs.o;

    let option_ty = mk_pi(BinderInfo::Implicit, a_name, mk_sort_param(u), mk_sort_param(u));
    let none_ty = mk_pi(BinderInfo::Implicit, a_name, mk_sort_param(u), mk_app(mk_const1(option, Level::Param(u)), mk_var(0)));
    let some_ty = mk_pi(
        BinderInfo::Implicit,
        a_name,
        mk_sort_param(u),
        mk_pi(BinderInfo::Default, x_name, mk_var(0), mk_app(mk_const1(option, Level::Param(u)), mk_var(1))),
    );
    let motive_ty = mk_pi(
        BinderInfo::Default,
        underscore,
        mk_app(mk_const1(option, Level::Param(u)), mk_var(0)),
        mk_sort_param(v),
    );
    let none_case_ty = mk_app(mk_var(0), mk_app(mk_const1(option_none, Level::Param(u)), mk_var(1)));
    let some_case_ty = mk_pi(
        BinderInfo::Default,
        x_name,
        mk_var(2),
        mk_app(mk_var(2), apply2(mk_const1(option_some, Level::Param(u)), mk_var(3), mk_var(0))),
    );
    let major_ty = mk_pi(
        BinderInfo::Default,
        o,
        mk_app(mk_const1(option, Level::Param(u)), mk_var(3)),
        mk_app(mk_var(3), mk_var(0)),
    );
    let rec_ty = mk_pi(
        BinderInfo::Implicit,
        a_name,
        mk_sort_param(u),
        mk_pi(
            BinderInfo::Implicit,
            motive,
            motive_ty,
            mk_pi(
                BinderInfo::Default,
                none_case,
                none_case_ty,
                mk_pi(BinderInfo::Default, some_case, some_case_ty, major_ty),
            ),
        ),
    );

    let ind = InductiveVal {
        base: ConstantVal { name: option, universe_params: params1(u), ty: Rc::new(option_ty) },
        num_params: 1,
        num_indices: 0,
        all: names1(option),
        constructors: names2(option_none, option_some),
        is_recursive: false,
        is_nested: false,
        is_unsafe: false,
    };
    let mut ctors: Vec<ConstructorVal> = Vec::new();
    ctors.push(ConstructorVal {
        base: ConstantVal { name: option_none, universe_params: params1(u), ty: Rc::new(none_ty) },
        inductive: option,
        index: 0,
        num_params: 1,
        num_fields: 0,
        is_unsafe: false,
    });
    ctors.push(ConstructorVal {
        base: ConstantVal { name: option_some, universe_params: params1(u), ty: Rc::new(some_ty) },
        inductive: option,
        index: 1,
        num_params: 1,
        num_fields: 1,
        is_unsafe: false,
    });
    let mut rules: Vec<RecursorRule> = Vec::new();
    rules.push(RecursorRule { constructor: option_none, num_fields: 0, rhs: Rc::new(mk_var(1)) });
    rules.push(RecursorRule { constructor: option_some, num_fields: 1, rhs: Rc::new(mk_app(mk_var(1), mk_var(0))) });
    let recursor = RecursorVal {
        base: ConstantVal { name: option_rec, universe_params: params2(u, v), ty: Rc::new(rec_ty) },
        all: names1(option),
        num_params: 1,
        num_indices: 0,
        num_motives: 1,
        num_minors: 2,
        rules,
        is_k: false,
        is_unsafe: false,
    };
    proof {
        let m = env@;
        let cs = ctors@;
        reveal_with_fuel(constructor_problem, 3);
        reveal_with_fuel(recursor_problem, 2);
        reveal_with_fuel(first_repeat, 3);
        reveal_with_fuel(first_declared, 3);
        reveal_with_fuel(first_bad_constructor, 3);
        reveal_with_fuel(classify_params, 2);
        reveal_with_fuel(fields_ok, 2);
        reveal_with_fuel(subst_carriers_spec, 2);
        assert(ctor_names(cs) =~= seq![option_none, option_some]);
        assert(seq![option_none, option_some].take(0) =~= Seq::<NameId>::empty());
        assert(seq![option_none, option_some].take(1) =~= seq![option_none]);
        assert(constructor_ok(m, ind.all@, 1, (*cs[0].base.ty)@));
        assert(constructor_ok(m, ind.all@, 1, (*cs[1].base.ty)@));
        assert(inductive_problem(m, ind, cs, recursor) is None);
    }
    let ghost m0 = env@;
    let ghost cs = ctors@;
    let r = env.add_inductive(ind, ctors, recursor);
    proof {
        reveal_with_fuel(insert_all, 3);
        assert(ctor_infos(cs).drop_last().drop_last() =~= Seq::<ConstantInfo>::empty());
        assert(ctor_infos(cs).drop_last() =~= seq![ConstantInfo::Constructor(cs[0])]);
        assert(env@.dom() =~= m0.dom().insert(option).insert(option_none).insert(option_some).insert(option_rec));
    }
}


// ===========================================================================
// The prelude
// ===========================================================================

/// The names and environment produced by [`build_prelude`].
pub struct Prelude {
    /// The name table used to intern the prelude's identifiers.
    pub names: NameTable,
    /// The environment containing all prelude declarations.
    pub env: GlobalEnv,
    /// `Nat`'s identifier.
    pub nat: NameId,
    /// `Nat.zero`'s identifier.
    pub zero: NameId,
    /// `Nat.succ`'s identifier.
    pub succ: NameId,
    /// `Nat.rec`'s identifier.
    pub rec: NameId,
    /// `Nat.rec`'s universe parameter.
    pub rec_universe: UniverseParamId,
    /// `Nat.pred`'s identifier.
    pub pred: NameId,
    /// `Nat.add`'s identifier.
    pub add: NameId,
    /// `Nat.mul`'s identifier.
    pub mul: NameId,
    /// `Nat.sub`'s identifier.
    pub sub: NameId,
    /// `Nat.pow`'s identifier.
    pub pow: NameId,
    /// `Bool.not`'s identifier.
    pub bool_not: NameId,
    /// `Nat.is_zero`'s identifier.
    pub nat_is_zero: NameId,
    /// `Nat.beq_step`'s identifier.
    pub nat_beq_step: NameId,
    /// `Nat.beq`'s identifier.
    pub nat_beq: NameId,
    /// `Nat.bne`'s identifier.
    pub nat_bne: NameId,
    /// `Nat.ble`'s identifier.
    pub nat_ble: NameId,
    /// `Nat.blt`'s identifier.
    pub nat_blt: NameId,
    /// `Nat.bgt`'s identifier.
    pub nat_bgt: NameId,
    /// `Nat.bge`'s identifier.
    pub nat_bge: NameId,
    /// `Bool`'s identifier.
    pub bool_name: NameId,
    /// `Bool.true`'s identifier.
    pub bool_true: NameId,
    /// `Bool.false`'s identifier.
    pub bool_false: NameId,
    /// `Bool.rec`'s identifier.
    pub bool_rec: NameId,
    /// `Bool.rec`'s universe parameter.
    pub bool_rec_u: UniverseParamId,
    /// `List`'s identifier.
    pub list: NameId,
    /// `List.nil`'s identifier.
    pub list_nil: NameId,
    /// `List.cons`'s identifier.
    pub list_cons: NameId,
    /// `List.rec`'s identifier.
    pub list_rec: NameId,
    /// `List`'s universe parameter (shared with `List.rec`).
    pub list_u: UniverseParamId,
    /// `List.rec`'s motive universe parameter.
    pub list_rec_v: UniverseParamId,
    /// `Option`'s identifier.
    pub option: NameId,
    /// `Option.none`'s identifier.
    pub option_none: NameId,
    /// `Option.some`'s identifier.
    pub option_some: NameId,
    /// `Option.rec`'s identifier.
    pub option_rec: NameId,
    /// `Option`'s universe parameter (shared with `Option.rec`).
    pub option_u: UniverseParamId,
    /// `Option.rec`'s motive universe parameter.
    pub option_rec_v: UniverseParamId,
    /// `Eq`'s identifier.
    pub eq: NameId,
    /// `Eq.refl`'s identifier.
    pub eq_refl: NameId,
    /// `Eq.rec`'s identifier.
    pub eq_rec: NameId,
    /// `Eq`'s universe parameter (shared with `Eq.refl` and `Eq.rec`).
    pub eq_u: UniverseParamId,
    /// `Eq.rec`'s motive universe parameter.
    pub eq_rec_v: UniverseParamId,
}

/// Another name for [`Prelude`].
pub type NatPrelude = Prelude;

/// The prelude's constants, in the order of their identifiers.
pub open spec fn prelude_constants(p: &Prelude) -> Seq<NameId> {
    seq![p.nat, p.zero, p.succ, p.rec, p.pred, p.add, p.mul, p.sub, p.pow, p.bool_not, p.nat_is_zero, p.nat_beq_step, p.nat_beq, p.nat_bne, p.nat_ble, p.nat_blt, p.nat_bgt, p.nat_bge, p.bool_name, p.bool_true, p.bool_false, p.bool_rec, p.list, p.list_nil, p.list_cons, p.list_rec, p.option, p.option_none, p.option_some, p.option_rec, p.eq, p.eq_refl, p.eq_rec]
}

/// The names of the prelude's constants, in the order of their
/// identifiers.
pub open spec fn prelude_strings() -> Seq<Seq<char>> {
    seq!["Nat"@, "Nat.zero"@, "Nat.succ"@, "Nat.rec"@, "Nat.pred"@, "Nat.add"@, "Nat.mul"@, "Nat.sub"@, "Nat.pow"@, "Bool.not"@, "Nat.is_zero"@, "Nat.beq_step"@, "Nat.beq"@, "Nat.bne"@, "Nat.ble"@, "Nat.blt"@, "Nat.bgt"@, "Nat.bge"@, "Bool"@, "Bool.true"@, "Bool.false"@, "Bool.rec"@, "List"@, "List.nil"@, "List.cons"@, "List.rec"@, "Option"@, "Option.none"@, "Option.some"@, "Option.rec"@, "Eq"@, "Eq.refl"@, "Eq.rec"@]
}

/// What each of the prelude's constants is.
pub open spec fn prelude_kinds(p: &Prelude) -> bool {
    &&& p.env@[p.eq] is Inductive
    &&& p.env@[p.nat] is Inductive
    &&& p.env@[p.bool_name] is Inductive
    &&& p.env@[p.list] is Inductive
    &&& p.env@[p.eq_rec] is Recursor
    &&& p.env@[p.option] is Inductive
    &&& p.env@[p.eq_refl] is Constructor
    &&& p.env@[p.add] is Definition
    &&& p.env@[p.nat_beq] is Definition
    &&& p.env@[p.nat_bge] is Definition
    &&& p.env@[p.nat_bgt] is Definition
    &&& p.env@[p.nat_ble] is Definition
    &&& p.env@[p.nat_blt] is Definition
    &&& p.env@[p.nat_bne] is Definition
    &&& p.env@[p.mul] is Definition
    &&& p.env@[p.pow] is Definition
    &&& p.env@[p.rec] is Recursor
    &&& p.env@[p.sub] is Definition
    &&& p.env@[p.bool_not] is Definition
    &&& p.env@[p.bool_rec] is Recursor
    &&& p.env@[p.list_nil] is Constructor
    &&& p.env@[p.list_rec] is Recursor
    &&& p.env@[p.pred] is Definition
    &&& p.env@[p.succ] is Constructor
    &&& p.env@[p.zero] is Constructor
    &&& p.env@[p.bool_true] is Constructor
    &&& p.env@[p.list_cons] is Constructor
    &&& p.env@[p.bool_false] is Constructor
    &&& p.env@[p.option_rec] is Recursor
    &&& p.env@[p.nat_is_zero] is Definition
    &&& p.env@[p.option_none] is Constructor
    &&& p.env@[p.option_some] is Constructor
    &&& p.env@[p.nat_beq_step] is Definition
}

/// The universe parameters of the prelude's recursors and families.
pub open spec fn prelude_universes(p: &Prelude) -> bool {
    &&& p.rec_universe == UniverseParamId(1)
    &&& p.bool_rec_u == UniverseParamId(2)
    &&& p.list_u == UniverseParamId(3)
    &&& p.list_rec_v == UniverseParamId(4)
    &&& p.option_u == UniverseParamId(5)
    &&& p.option_rec_v == UniverseParamId(6)
    &&& p.eq_u == UniverseParamId(7)
    &&& p.eq_rec_v == UniverseParamId(8)
}

/// Every declaration of the prelude, exactly: the inductive families
/// `Nat`, `Bool`, `List`, `Option` and `Eq` with their constructors and
/// recursors, and the transparent definitions of the arithmetic and the
/// comparisons, with their types, bodies and computation rules as terms
/// over the binder names of the table.
pub open spec fn prelude_decls(p: &Prelude) -> bool {
    let m = p.env@;
    let bs = prelude_binders(p.names@);
    &&& inductive_is(m[p.nat], p.nat, Seq::empty(), type0_v(), 0, 0, seq![p.zero, p.succ], true)
    &&& constructor_is(m[p.zero], p.zero, Seq::empty(), const_v(p.nat, Seq::empty()), p.nat, 0, 0, 0)
    &&& constructor_is(m[p.succ], p.succ, Seq::empty(), nat_succ_ty(p.nat, p.zero, p.succ, p.rec, UniverseParamId(1), bs), p.nat, 1, 0, 1)
    &&& recursor_is(m[p.rec], p.rec, seq![UniverseParamId(1)], nat_rec_ty(p.nat, p.zero, p.succ, p.rec, UniverseParamId(1), bs), p.nat, 0, 0, seq![(p.zero, 0u32, var_v(1)), (p.succ, 1u32, nat_succ_rule_rhs(p.nat, p.zero, p.succ, p.rec, UniverseParamId(1), bs))], false)
    &&& def_is(m[p.pred], p.pred, pred_ty(p.nat, p.zero, p.rec, bs), pred_body(p.nat, p.zero, p.rec, bs))
    &&& def_is(m[p.add], p.add, add_ty(p.nat, p.succ, p.rec, bs), add_body(p.nat, p.succ, p.rec, bs))
    &&& def_is(m[p.mul], p.mul, mul_ty(p.nat, p.zero, p.add, p.rec, bs), mul_body(p.nat, p.zero, p.add, p.rec, bs))
    &&& def_is(m[p.sub], p.sub, sub_ty(p.nat, p.pred, p.rec, bs), sub_body(p.nat, p.pred, p.rec, bs))
    &&& def_is(m[p.pow], p.pow, pow_ty(p.nat, p.zero, p.succ, p.mul, p.rec, bs), pow_body(p.nat, p.zero, p.succ, p.mul, p.rec, bs))
    &&& def_is(m[p.bool_not], p.bool_not, bool_not_ty(p.bool_name, p.bool_true, p.bool_false, p.bool_rec, bs), bool_not_body(p.bool_name, p.bool_true, p.bool_false, p.bool_rec, bs))
    &&& def_is(m[p.nat_is_zero], p.nat_is_zero, nat_is_zero_ty(p.nat, p.rec, p.bool_name, p.bool_true, p.bool_false, bs), nat_is_zero_body(p.nat, p.rec, p.bool_name, p.bool_true, p.bool_false, bs))
    &&& def_is(m[p.nat_beq_step], p.nat_beq_step, nat_beq_step_ty(p.nat, p.rec, p.bool_name, p.bool_false, bs), nat_beq_step_body(p.nat, p.rec, p.bool_name, p.bool_false, bs))
    &&& def_is(m[p.nat_beq], p.nat_beq, nat_beq_ty(p.nat, p.rec, p.bool_name, p.nat_is_zero, p.nat_beq_step, bs), nat_beq_body(p.nat, p.rec, p.bool_name, p.nat_is_zero, p.nat_beq_step, bs))
    &&& def_is(m[p.nat_bne], p.nat_bne, nat_bne_ty(p.nat, p.bool_name, p.bool_not, p.nat_beq, bs), nat_bne_body(p.nat, p.bool_name, p.bool_not, p.nat_beq, bs))
    &&& def_is(m[p.nat_ble], p.nat_ble, nat_ble_ty(p.nat, p.zero, p.bool_name, p.nat_beq, p.sub, bs), nat_ble_body(p.nat, p.zero, p.bool_name, p.nat_beq, p.sub, bs))
    &&& def_is(m[p.nat_blt], p.nat_blt, nat_blt_ty(p.nat, p.succ, p.bool_name, p.nat_ble, bs), nat_blt_body(p.nat, p.succ, p.bool_name, p.nat_ble, bs))
    &&& def_is(m[p.nat_bgt], p.nat_bgt, nat_bgt_ty(p.nat, p.bool_name, p.nat_blt, bs), nat_bgt_body(p.nat, p.bool_name, p.nat_blt, bs))
    &&& def_is(m[p.nat_bge], p.nat_bge, nat_bge_ty(p.nat, p.bool_name, p.nat_ble, bs), nat_bge_body(p.nat, p.bool_name, p.nat_ble, bs))
    &&& inductive_is(m[p.eq], p.eq, seq![UniverseParamId(7)], eq_eq_ty(p.eq, p.eq_refl, p.eq_rec, UniverseParamId(7), UniverseParamId(8), bs), 2, 1, seq![p.eq_refl], true)
    &&& constructor_is(m[p.eq_refl], p.eq_refl, seq![UniverseParamId(7)], eq_refl_ty(p.eq, p.eq_refl, p.eq_rec, UniverseParamId(7), UniverseParamId(8), bs), p.eq, 0, 2, 0)
    &&& recursor_is(m[p.eq_rec], p.eq_rec, seq![UniverseParamId(7), UniverseParamId(8)], eq_rec_ty(p.eq, p.eq_refl, p.eq_rec, UniverseParamId(7), UniverseParamId(8), bs), p.eq, 2, 1, seq![(p.eq_refl, 0u32, var_v(1))], true)
    &&& inductive_is(m[p.bool_name], p.bool_name, Seq::empty(), type0_v(), 0, 0, seq![p.bool_true, p.bool_false], false)
    &&& constructor_is(m[p.bool_true], p.bool_true, Seq::empty(), const_v(p.bool_name, Seq::empty()), p.bool_name, 0, 0, 0)
    &&& constructor_is(m[p.bool_false], p.bool_false, Seq::empty(), const_v(p.bool_name, Seq::empty()), p.bool_name, 1, 0, 0)
    &&& recursor_is(m[p.bool_rec], p.bool_rec, seq![UniverseParamId(2)], bool_rec_ty(p.bool_name, p.bool_true, p.bool_false, p.bool_rec, UniverseParamId(2), bs), p.bool_name, 0, 0, seq![(p.bool_true, 0u32, var_v(1)), (p.bool_false, 0u32, var_v(0))], false)
    &&& inductive_is(m[p.list], p.list, seq![UniverseParamId(3)], list_list_ty(p.list, p.list_nil, p.list_cons, p.list_rec, UniverseParamId(3), UniverseParamId(4), bs), 1, 0, seq![p.list_nil, p.list_cons], true)
    &&& constructor_is(m[p.list_nil], p.list_nil, seq![UniverseParamId(3)], list_nil_ty(p.list, p.list_nil, p.list_cons, p.list_rec, UniverseParamId(3), UniverseParamId(4), bs), p.list, 0, 1, 0)
    &&& constructor_is(m[p.list_cons], p.list_cons, seq![UniverseParamId(3)], list_cons_ty(p.list, p.list_nil, p.list_cons, p.list_rec, UniverseParamId(3), UniverseParamId(4), bs), p.list, 1, 1, 2)
    &&& recursor_is(m[p.list_rec], p.list_rec, seq![UniverseParamId(3), UniverseParamId(4)], list_rec_ty(p.list, p.list_nil, p.list_cons, p.list_rec, UniverseParamId(3), UniverseParamId(4), bs), p.list, 1, 0, seq![(p.list_nil, 0u32, var_v(1)), (p.list_cons, 2u32, list_cons_rule_rhs(p.list, p.list_nil, p.list_cons, p.list_rec, UniverseParamId(3), UniverseParamId(4), bs))], false)
    &&& inductive_is(m[p.option], p.option, seq![UniverseParamId(5)], option_option_ty(p.option, p.option_none, p.option_some, p.option_rec, UniverseParamId(5), UniverseParamId(6), bs), 1, 0, seq![p.option_none, p.option_some], false)
    &&& constructor_is(m[p.option_none], p.option_none, seq![UniverseParamId(5)], option_none_ty(p.option, p.option_none, p.option_some, p.option_rec, UniverseParamId(5), UniverseParamId(6), bs), p.option, 0, 1, 0)
    &&& constructor_is(m[p.option_some], p.option_some, seq![UniverseParamId(5)], option_some_ty(p.option, p.option_none, p.option_some, p.option_rec, UniverseParamId(5), UniverseParamId(6), bs), p.option, 1, 1, 1)
    &&& recursor_is(m[p.option_rec], p.option_rec, seq![UniverseParamId(5), UniverseParamId(6)], option_rec_ty(p.option, p.option_none, p.option_some, p.option_rec, UniverseParamId(5), UniverseParamId(6), bs), p.option, 1, 0, seq![(p.option_none, 0u32, var_v(1)), (p.option_some, 1u32, app_v(var_v(1), var_v(0)))], false)
}


/// The identifiers of the prelude's constants.
#[derive(Clone, Copy)]
struct PreludeIds {
    nat: NameId,
    zero: NameId,
    succ: NameId,
    rec: NameId,
    pred: NameId,
    add: NameId,
    mul: NameId,
    sub: NameId,
    pow: NameId,
    bool_not: NameId,
    nat_is_zero: NameId,
    nat_beq_step: NameId,
    nat_beq: NameId,
    nat_bne: NameId,
    nat_ble: NameId,
    nat_blt: NameId,
    nat_bgt: NameId,
    nat_bge: NameId,
    bool_name: NameId,
    bool_true: NameId,
    bool_false: NameId,
    bool_rec: NameId,
    list: NameId,
    list_nil: NameId,
    list_cons: NameId,
    list_rec: NameId,
    option: NameId,
    option_none: NameId,
    option_some: NameId,
    option_rec: NameId,
    eq: NameId,
    eq_refl: NameId,
    eq_rec: NameId,
}

/// The identifiers are the positions of the names in the table.
spec fn ids_ok(i: PreludeIds) -> bool {
    &&& i.nat == NameId(0)
    &&& i.zero == NameId(1)
    &&& i.succ == NameId(2)
    &&& i.rec == NameId(3)
    &&& i.pred == NameId(4)
    &&& i.add == NameId(5)
    &&& i.mul == NameId(6)
    &&& i.sub == NameId(7)
    &&& i.pow == NameId(8)
    &&& i.bool_not == NameId(9)
    &&& i.nat_is_zero == NameId(10)
    &&& i.nat_beq_step == NameId(11)
    &&& i.nat_beq == NameId(12)
    &&& i.nat_bne == NameId(13)
    &&& i.nat_ble == NameId(14)
    &&& i.nat_blt == NameId(15)
    &&& i.nat_bgt == NameId(16)
    &&& i.nat_bge == NameId(17)
    &&& i.bool_name == NameId(18)
    &&& i.bool_true == NameId(19)
    &&& i.bool_false == NameId(20)
    &&& i.bool_rec == NameId(21)
    &&& i.list == NameId(22)
    &&& i.list_nil == NameId(23)
    &&& i.list_cons == NameId(24)
    &&& i.list_rec == NameId(25)
    &&& i.option == NameId(26)
    &&& i.option_none == NameId(27)
    &&& i.option_some == NameId(28)
    &&& i.option_rec == NameId(29)
    &&& i.eq == NameId(30)
    &&& i.eq_refl == NameId(31)
    &&& i.eq_rec == NameId(32)
}

/// Intern the names of the prelude's constants into an empty table, in
/// the order of [`prelude_strings`]: each is new, so each receives the
/// next identifier.
#[verifier::rlimit(50)]
fn intern_constants(names: &mut NameTable) -> (i: PreludeIds)
    requires
        old(names)@.len() == 0,
    ensures
        final(names)@ == prelude_strings(),
        ids_ok(i),
{
    proof {
        reveal_strlit("Nat");
        reveal_strlit("Nat.zero");
        reveal_strlit("Nat.succ");
        reveal_strlit("Nat.rec");
        reveal_strlit("Nat.pred");
        reveal_strlit("Nat.add");
        reveal_strlit("Nat.mul");
        reveal_strlit("Nat.sub");
        reveal_strlit("Nat.pow");
        reveal_strlit("Bool.not");
        reveal_strlit("Nat.is_zero");
        reveal_strlit("Nat.beq_step");
        reveal_strlit("Nat.beq");
        reveal_strlit("Nat.bne");
        reveal_strlit("Nat.ble");
        reveal_strlit("Nat.blt");
        reveal_strlit("Nat.bgt");
        reveal_strlit("Nat.bge");
        reveal_strlit("Bool");
        reveal_strlit("Bool.true");
        reveal_strlit("Bool.false");
        reveal_strlit("Bool.rec");
        reveal_strlit("List");
        reveal_strlit("List.nil");
        reveal_strlit("List.cons");
        reveal_strlit("List.rec");
        reveal_strlit("Option");
        reveal_strlit("Option.none");
        reveal_strlit("Option.some");
        reveal_strlit("Option.rec");
        reveal_strlit("Eq");
        reveal_strlit("Eq.refl");
        reveal_strlit("Eq.rec");
    }
    let ghost mut codes: Set<int> = Set::empty();
    let nat_name = intern_fresh(names, "Nat", Ghost(codes));
    proof { codes = codes.insert(name_code("Nat"@)); }
    let zero = intern_fresh(names, "Nat.zero", Ghost(codes));
    proof { codes = codes.insert(name_code("Nat.zero"@)); }
    let succ = intern_fresh(names, "Nat.succ", Ghost(codes));
    proof { codes = codes.insert(name_code("Nat.succ"@)); }
    let rec = intern_fresh(names, "Nat.rec", Ghost(codes));
    proof { codes = codes.insert(name_code("Nat.rec"@)); }
    let pred = intern_fresh(names, "Nat.pred", Ghost(codes));
    proof { codes = codes.insert(name_code("Nat.pred"@)); }
    let add = intern_fresh(names, "Nat.add", Ghost(codes));
    proof { codes = codes.insert(name_code("Nat.add"@)); }
    let mul = intern_fresh(names, "Nat.mul", Ghost(codes));
    proof { codes = codes.insert(name_code("Nat.mul"@)); }
    let sub = intern_fresh(names, "Nat.sub", Ghost(codes));
    proof { codes = codes.insert(name_code("Nat.sub"@)); }
    let pow = intern_fresh(names, "Nat.pow", Ghost(codes));
    proof { codes = codes.insert(name_code("Nat.pow"@)); }
    let bool_not = intern_fresh(names, "Bool.not", Ghost(codes));
    proof { codes = codes.insert(name_code("Bool.not"@)); }
    let nat_is_zero = intern_fresh(names, "Nat.is_zero", Ghost(codes));
    proof { codes = codes.insert(name_code("Nat.is_zero"@)); }
    let nat_beq_step = intern_fresh(names, "Nat.beq_step", Ghost(codes));
    proof { codes = codes.insert(name_code("Nat.beq_step"@)); }
    let nat_beq = intern_fresh(names, "Nat.beq", Ghost(codes));
    proof { codes = codes.insert(name_code("Nat.beq"@)); }
    let nat_bne = intern_fresh(names, "Nat.bne", Ghost(codes));
    proof { codes = codes.insert(name_code("Nat.bne"@)); }
    let nat_ble = intern_fresh(names, "Nat.ble", Ghost(codes));
    proof { codes = codes.insert(name_code("Nat.ble"@)); }
    let nat_blt = intern_fresh(names, "Nat.blt", Ghost(codes));
    proof { codes = codes.insert(name_code("Nat.blt"@)); }
    let nat_bgt = intern_fresh(names, "Nat.bgt", Ghost(codes));
    proof { codes = codes.insert(name_code("Nat.bgt"@)); }
    let nat_bge = intern_fresh(names, "Nat.bge", Ghost(codes));
    proof { codes = codes.insert(name_code("Nat.bge"@)); }
    let bool_name = intern_fresh(names, "Bool", Ghost(codes));
    proof { codes = codes.insert(name_code("Bool"@)); }
    let bool_true = intern_fresh(names, "Bool.true", Ghost(codes));
    proof { codes = codes.insert(name_code("Bool.true"@)); }
    let bool_false = intern_fresh(names, "Bool.false", Ghost(codes));
    proof { codes = codes.insert(name_code("Bool.false"@)); }
    let bool_rec = intern_fresh(names, "Bool.rec", Ghost(codes));
    proof { codes = codes.insert(name_code("Bool.rec"@)); }
    let list = intern_fresh(names, "List", Ghost(codes));
    proof { codes = codes.insert(name_code("List"@)); }
    let list_nil = intern_fresh(names, "List.nil", Ghost(codes));
    proof { codes = codes.insert(name_code("List.nil"@)); }
    let list_cons = intern_fresh(names, "List.cons", Ghost(codes));
    proof { codes = codes.insert(name_code("List.cons"@)); }
    let list_rec = intern_fresh(names, "List.rec", Ghost(codes));
    proof { codes = codes.insert(name_code("List.rec"@)); }
    let option = intern_fresh(names, "Option", Ghost(codes));
    proof { codes = codes.insert(name_code("Option"@)); }
    let option_none = intern_fresh(names, "Option.none", Ghost(codes));
    proof { codes = codes.insert(name_code("Option.none"@)); }
    let option_some = intern_fresh(names, "Option.some", Ghost(codes));
    proof { codes = codes.insert(name_code("Option.some"@)); }
    let option_rec = intern_fresh(names, "Option.rec", Ghost(codes));
    proof { codes = codes.insert(name_code("Option.rec"@)); }
    let eq = intern_fresh(names, "Eq", Ghost(codes));
    proof { codes = codes.insert(name_code("Eq"@)); }
    let eq_refl = intern_fresh(names, "Eq.refl", Ghost(codes));
    proof { codes = codes.insert(name_code("Eq.refl"@)); }
    let eq_rec = intern_fresh(names, "Eq.rec", Ghost(codes));
    proof { codes = codes.insert(name_code("Eq.rec"@)); }
    assert(names@ =~= prelude_strings());
    PreludeIds { nat: nat_name, zero, succ, rec, pred, add, mul, sub, pow, bool_not, nat_is_zero, nat_beq_step, nat_beq, nat_bne, nat_ble, nat_blt, nat_bgt, nat_bge, bool_name, bool_true, bool_false, bool_rec, list, list_nil, list_cons, list_rec, option, option_none, option_some, option_rec, eq, eq_refl, eq_rec }
}

/// The declarations of `Nat` and its arithmetic in `m`.
spec fn nat_group_ok(m: Map<NameId, ConstantInfo>, i: PreludeIds, bs: PreludeBinders) -> bool {
    &&& inductive_is(m[i.nat], i.nat, Seq::empty(), type0_v(), 0, 0, seq![i.zero, i.succ], true)
    &&& constructor_is(m[i.zero], i.zero, Seq::empty(), const_v(i.nat, Seq::empty()), i.nat, 0, 0, 0)
    &&& constructor_is(m[i.succ], i.succ, Seq::empty(), nat_succ_ty(i.nat, i.zero, i.succ, i.rec, UniverseParamId(1), bs), i.nat, 1, 0, 1)
    &&& recursor_is(m[i.rec], i.rec, seq![UniverseParamId(1)], nat_rec_ty(i.nat, i.zero, i.succ, i.rec, UniverseParamId(1), bs), i.nat, 0, 0, seq![(i.zero, 0u32, var_v(1)), (i.succ, 1u32, nat_succ_rule_rhs(i.nat, i.zero, i.succ, i.rec, UniverseParamId(1), bs))], false)
    &&& def_is(m[i.pred], i.pred, pred_ty(i.nat, i.zero, i.rec, bs), pred_body(i.nat, i.zero, i.rec, bs))
    &&& def_is(m[i.add], i.add, add_ty(i.nat, i.succ, i.rec, bs), add_body(i.nat, i.succ, i.rec, bs))
    &&& def_is(m[i.mul], i.mul, mul_ty(i.nat, i.zero, i.add, i.rec, bs), mul_body(i.nat, i.zero, i.add, i.rec, bs))
    &&& def_is(m[i.sub], i.sub, sub_ty(i.nat, i.pred, i.rec, bs), sub_body(i.nat, i.pred, i.rec, bs))
    &&& def_is(m[i.pow], i.pow, pow_ty(i.nat, i.zero, i.succ, i.mul, i.rec, bs), pow_body(i.nat, i.zero, i.succ, i.mul, i.rec, bs))
}

/// The declarations of `Bool.not` and the comparisons in `m`.
spec fn comparison_group_ok(m: Map<NameId, ConstantInfo>, i: PreludeIds, bs: PreludeBinders) -> bool {
    &&& def_is(m[i.bool_not], i.bool_not, bool_not_ty(i.bool_name, i.bool_true, i.bool_false, i.bool_rec, bs), bool_not_body(i.bool_name, i.bool_true, i.bool_false, i.bool_rec, bs))
    &&& def_is(m[i.nat_is_zero], i.nat_is_zero, nat_is_zero_ty(i.nat, i.rec, i.bool_name, i.bool_true, i.bool_false, bs), nat_is_zero_body(i.nat, i.rec, i.bool_name, i.bool_true, i.bool_false, bs))
    &&& def_is(m[i.nat_beq_step], i.nat_beq_step, nat_beq_step_ty(i.nat, i.rec, i.bool_name, i.bool_false, bs), nat_beq_step_body(i.nat, i.rec, i.bool_name, i.bool_false, bs))
    &&& def_is(m[i.nat_beq], i.nat_beq, nat_beq_ty(i.nat, i.rec, i.bool_name, i.nat_is_zero, i.nat_beq_step, bs), nat_beq_body(i.nat, i.rec, i.bool_name, i.nat_is_zero, i.nat_beq_step, bs))
    &&& def_is(m[i.nat_bne], i.nat_bne, nat_bne_ty(i.nat, i.bool_name, i.bool_not, i.nat_beq, bs), nat_bne_body(i.nat, i.bool_name, i.bool_not, i.nat_beq, bs))
    &&& def_is(m[i.nat_ble], i.nat_ble, nat_ble_ty(i.nat, i.zero, i.bool_name, i.nat_beq, i.sub, bs), nat_ble_body(i.nat, i.zero, i.bool_name, i.nat_beq, i.sub, bs))
    &&& def_is(m[i.nat_blt], i.nat_blt, nat_blt_ty(i.nat, i.succ, i.bool_name, i.nat_ble, bs), nat_blt_body(i.nat, i.succ, i.bool_name, i.nat_ble, bs))
    &&& def_is(m[i.nat_bgt], i.nat_bgt, nat_bgt_ty(i.nat, i.bool_name, i.nat_blt, bs), nat_bgt_body(i.nat, i.bool_name, i.nat_blt, bs))
    &&& def_is(m[i.nat_bge], i.nat_bge, nat_bge_ty(i.nat, i.bool_name, i.nat_ble, bs), nat_bge_body(i.nat, i.bool_name, i.nat_ble, bs))
}

/// The declarations of `Eq`, `Bool`, `List` and `Option` in `m`.
spec fn family_group_ok(m: Map<NameId, ConstantInfo>, i: PreludeIds, bs: PreludeBinders) -> bool {
    &&& inductive_is(m[i.eq], i.eq, seq![UniverseParamId(7)], eq_eq_ty(i.eq, i.eq_refl, i.eq_rec, UniverseParamId(7), UniverseParamId(8), bs), 2, 1, seq![i.eq_refl], true)
    &&& constructor_is(m[i.eq_refl], i.eq_refl, seq![UniverseParamId(7)], eq_refl_ty(i.eq, i.eq_refl, i.eq_rec, UniverseParamId(7), UniverseParamId(8), bs), i.eq, 0, 2, 0)
    &&& recursor_is(m[i.eq_rec], i.eq_rec, seq![UniverseParamId(7), UniverseParamId(8)], eq_rec_ty(i.eq, i.eq_refl, i.eq_rec, UniverseParamId(7), UniverseParamId(8), bs), i.eq, 2, 1, seq![(i.eq_refl, 0u32, var_v(1))], true)
    &&& inductive_is(m[i.bool_name], i.bool_name, Seq::empty(), type0_v(), 0, 0, seq![i.bool_true, i.bool_false], false)
    &&& constructor_is(m[i.bool_true], i.bool_true, Seq::empty(), const_v(i.bool_name, Seq::empty()), i.bool_name, 0, 0, 0)
    &&& constructor_is(m[i.bool_false], i.bool_false, Seq::empty(), const_v(i.bool_name, Seq::empty()), i.bool_name, 1, 0, 0)
    &&& recursor_is(m[i.bool_rec], i.bool_rec, seq![UniverseParamId(2)], bool_rec_ty(i.bool_name, i.bool_true, i.bool_false, i.bool_rec, UniverseParamId(2), bs), i.bool_name, 0, 0, seq![(i.bool_true, 0u32, var_v(1)), (i.bool_false, 0u32, var_v(0))], false)
    &&& inductive_is(m[i.list], i.list, seq![UniverseParamId(3)], list_list_ty(i.list, i.list_nil, i.list_cons, i.list_rec, UniverseParamId(3), UniverseParamId(4), bs), 1, 0, seq![i.list_nil, i.list_cons], true)
    &&& constructor_is(m[i.list_nil], i.list_nil, seq![UniverseParamId(3)], list_nil_ty(i.list, i.list_nil, i.list_cons, i.list_rec, UniverseParamId(3), UniverseParamId(4), bs), i.list, 0, 1, 0)
    &&& constructor_is(m[i.list_cons], i.list_cons, seq![UniverseParamId(3)], list_cons_ty(i.list, i.list_nil, i.list_cons, i.list_rec, UniverseParamId(3), UniverseParamId(4), bs), i.list, 1, 1, 2)
    &&& recursor_is(m[i.list_rec], i.list_rec, seq![UniverseParamId(3), UniverseParamId(4)], list_rec_ty(i.list, i.list_nil, i.list_cons, i.list_rec, UniverseParamId(3), UniverseParamId(4), bs), i.list, 1, 0, seq![(i.list_nil, 0u32, var_v(1)), (i.list_cons, 2u32, list_cons_rule_rhs(i.list, i.list_nil, i.list_cons, i.list_rec, UniverseParamId(3), UniverseParamId(4), bs))], false)
    &&& inductive_is(m[i.option], i.option, seq![UniverseParamId(5)], option_option_ty(i.option, i.option_none, i.option_some, i.option_rec, UniverseParamId(5), UniverseParamId(6), bs), 1, 0, seq![i.option_none, i.option_some], false)
    &&& constructor_is(m[i.option_none], i.option_none, seq![UniverseParamId(5)], option_none_ty(i.option, i.option_none, i.option_some, i.option_rec, UniverseParamId(5), UniverseParamId(6), bs), i.option, 0, 1, 0)
    &&& constructor_is(m[i.option_some], i.option_some, seq![UniverseParamId(5)], option_some_ty(i.option, i.option_none, i.option_some, i.option_rec, UniverseParamId(5), UniverseParamId(6), bs), i.option, 1, 1, 1)
    &&& recursor_is(m[i.option_rec], i.option_rec, seq![UniverseParamId(5), UniverseParamId(6)], option_rec_ty(i.option, i.option_none, i.option_some, i.option_rec, UniverseParamId(5), UniverseParamId(6), bs), i.option, 1, 0, seq![(i.option_none, 0u32, var_v(1)), (i.option_some, 1u32, app_v(var_v(1), var_v(0)))], false)
}

/// `m2` keeps every entry of `m`.
spec fn keeps(m: Map<NameId, ConstantInfo>, m2: Map<NameId, ConstantInfo>) -> bool {
    forall|k: NameId| #[trigger] m.contains_key(k) ==> m2.contains_key(k) && m2[k] == m[k]
}

proof fn lemma_keeps_trans(m1: Map<NameId, ConstantInfo>, m2: Map<NameId, ConstantInfo>, m3: Map<NameId, ConstantInfo>)
    requires
        keeps(m1, m2),
        keeps(m2, m3),
    ensures
        keeps(m1, m3),
{
    assert forall|k: NameId| #[trigger] m1.contains_key(k) implies m3.contains_key(k) && m3[k] == m1[k] by {
        assert(m2.contains_key(k));
    }
}

/// `Nat` and its arithmetic.
fn register_nat_group(env: &mut GlobalEnv, i: &PreludeIds, bs: &PreludeBinders)
    requires
        old(env).wf(),
        ids_ok(*i),
        old(env)@.dom() == Set::<NameId>::empty(),
    ensures
        final(env).wf(),
        final(env)@.dom() == old(env)@.dom().insert(i.nat).insert(i.zero).insert(i.succ).insert(i.rec).insert(i.pred).insert(i.add).insert(i.mul).insert(i.sub).insert(i.pow),
        nat_group_ok(final(env)@, *i, *bs),
{
    let ghost m0 = env@;
    register_nat(env, bs, i.nat, i.zero, i.succ, i.rec, UniverseParamId(1));
    let ghost m1 = env@;
    assert(keeps(m0, m1));
    register_pred(env, bs, i.nat, i.zero, i.rec, i.pred);
    let ghost m2 = env@;
    assert(keeps(m1, m2));
    register_add(env, bs, i.nat, i.succ, i.rec, i.add);
    let ghost m3 = env@;
    assert(keeps(m2, m3));
    register_mul(env, bs, i.nat, i.zero, i.add, i.rec, i.mul);
    let ghost m4 = env@;
    assert(keeps(m3, m4));
    register_sub(env, bs, i.nat, i.pred, i.rec, i.sub);
    let ghost m5 = env@;
    assert(keeps(m4, m5));
    register_pow(env, bs, i.nat, i.zero, i.succ, i.mul, i.rec, i.pow);
    let ghost m6 = env@;
    assert(keeps(m5, m6));
    proof {
        lemma_keeps_trans(m1, m2, m3);
        lemma_keeps_trans(m1, m3, m4);
        lemma_keeps_trans(m1, m4, m5);
        lemma_keeps_trans(m1, m5, m6);
        lemma_keeps_trans(m2, m3, m4);
        lemma_keeps_trans(m2, m4, m5);
        lemma_keeps_trans(m2, m5, m6);
        lemma_keeps_trans(m3, m4, m5);
        lemma_keeps_trans(m3, m5, m6);
        lemma_keeps_trans(m4, m5, m6);
        lemma_keeps_trans(m0, m1, m2);
        lemma_keeps_trans(m0, m2, m3);
        lemma_keeps_trans(m0, m3, m4);
        lemma_keeps_trans(m0, m4, m5);
        lemma_keeps_trans(m0, m5, m6);
        assert(m1.contains_key(i.nat));
        assert(m1.contains_key(i.zero));
        assert(m1.contains_key(i.succ));
        assert(m1.contains_key(i.rec));
        assert(m2.contains_key(i.pred));
        assert(m3.contains_key(i.add));
        assert(m4.contains_key(i.mul));
        assert(m5.contains_key(i.sub));
        assert(m6.contains_key(i.pow));
    }
}

/// `Bool.not` and the comparisons on `Nat`.
fn register_comparison_group(env: &mut GlobalEnv, i: &PreludeIds, bs: &PreludeBinders)
    requires
        old(env).wf(),
        ids_ok(*i),
        old(env)@.dom() == Set::<NameId>::empty().insert(i.nat).insert(i.zero).insert(i.succ).insert(i.rec).insert(i.pred).insert(i.add).insert(i.mul).insert(i.sub).insert(i.pow),
    ensures
        final(env).wf(),
        final(env)@.dom() == old(env)@.dom().insert(i.bool_not).insert(i.nat_is_zero).insert(i.nat_beq_step).insert(i.nat_beq).insert(i.nat_bne).insert(i.nat_ble).insert(i.nat_blt).insert(i.nat_bgt).insert(i.nat_bge),
        forall|k: NameId| #[trigger] old(env)@.contains_key(k) ==> final(env)@[k] == old(env)@[k],
        comparison_group_ok(final(env)@, *i, *bs),
{
    let ghost m0 = env@;
    register_bool_not(env, bs, i.bool_name, i.bool_true, i.bool_false, i.bool_rec, i.bool_not);
    let ghost m1 = env@;
    assert(keeps(m0, m1));
    register_nat_is_zero(env, bs, i.nat, i.rec, i.bool_name, i.bool_true, i.bool_false, i.nat_is_zero);
    let ghost m2 = env@;
    assert(keeps(m1, m2));
    register_nat_beq_step(env, bs, i.nat, i.rec, i.bool_name, i.bool_false, i.nat_beq_step);
    let ghost m3 = env@;
    assert(keeps(m2, m3));
    register_nat_beq(env, bs, i.nat, i.rec, i.bool_name, i.nat_is_zero, i.nat_beq_step, i.nat_beq);
    let ghost m4 = env@;
    assert(keeps(m3, m4));
    register_nat_bne(env, bs, i.nat, i.bool_name, i.bool_not, i.nat_beq, i.nat_bne);
    let ghost m5 = env@;
    assert(keeps(m4, m5));
    register_nat_ble(env, bs, i.nat, i.zero, i.bool_name, i.nat_beq, i.sub, i.nat_ble);
    let ghost m6 = env@;
    assert(keeps(m5, m6));
    register_nat_blt(env, bs, i.nat, i.succ, i.bool_name, i.nat_ble, i.nat_blt);
    let ghost m7 = env@;
    assert(keeps(m6, m7));
    register_nat_bgt(env, bs, i.nat, i.bool_name, i.nat_blt, i.nat_bgt);
    let ghost m8 = env@;
    assert(keeps(m7, m8));
    register_nat_bge(env, bs, i.nat, i.bool_name, i.nat_ble, i.nat_bge);
    let ghost m9 = env@;
    assert(keeps(m8, m9));
    proof {
        lemma_keeps_trans(m1, m2, m3);
        lemma_keeps_trans(m1, m3, m4);
        lemma_keeps_trans(m1, m4, m5);
        lemma_keeps_trans(m1, m5, m6);
        lemma_keeps_trans(m1, m6, m7);
        lemma_keeps_trans(m1, m7, m8);
        lemma_keeps_trans(m1, m8, m9);
        lemma_keeps_trans(m2, m3, m4);
        lemma_keeps_trans(m2, m4, m5);
        lemma_keeps_trans(m2, m5, m6);
        lemma_keeps_trans(m2, m6, m7);
        lemma_keeps_trans(m2, m7, m8);
        lemma_keeps_trans(m2, m8, m9);
        lemma_keeps_trans(m3, m4, m5);
        lemma_keeps_trans(m3, m5, m6);
        lemma_keeps_trans(m3, m6, m7);
        lemma_keeps_trans(m3, m7, m8);
        lemma_keeps_trans(m3, m8, m9);
        lemma_keeps_trans(m4, m5, m6);
        lemma_keeps_trans(m4, m6, m7);
        lemma_keeps_trans(m4, m7, m8);
        lemma_keeps_trans(m4, m8, m9);
        lemma_keeps_trans(m5, m6, m7);
        lemma_keeps_trans(m5, m7, m8);
        lemma_keeps_trans(m5, m8, m9);
        lemma_keeps_trans(m6, m7, m8);
        lemma_keeps_trans(m6, m8, m9);
        lemma_keeps_trans(m7, m8, m9);
        lemma_keeps_trans(m0, m1, m2);
        lemma_keeps_trans(m0, m2, m3);
        lemma_keeps_trans(m0, m3, m4);
        lemma_keeps_trans(m0, m4, m5);
        lemma_keeps_trans(m0, m5, m6);
        lemma_keeps_trans(m0, m6, m7);
        lemma_keeps_trans(m0, m7, m8);
        lemma_keeps_trans(m0, m8, m9);
        assert(m1.contains_key(i.bool_not));
        assert(m2.contains_key(i.nat_is_zero));
        assert(m3.contains_key(i.nat_beq_step));
        assert(m4.contains_key(i.nat_beq));
        assert(m5.contains_key(i.nat_bne));
        assert(m6.contains_key(i.nat_ble));
        assert(m7.contains_key(i.nat_blt));
        assert(m8.contains_key(i.nat_bgt));
        assert(m9.contains_key(i.nat_bge));
    }
}

/// `Eq`, `Bool`, `List` and `Option`.
fn register_family_group(env: &mut GlobalEnv, i: &PreludeIds, bs: &PreludeBinders)
    requires
        old(env).wf(),
        ids_ok(*i),
        old(env)@.dom() == Set::<NameId>::empty().insert(i.nat).insert(i.zero).insert(i.succ).insert(i.rec).insert(i.pred).insert(i.add).insert(i.mul).insert(i.sub).insert(i.pow).insert(i.bool_not).insert(i.nat_is_zero).insert(i.nat_beq_step).insert(i.nat_beq).insert(i.nat_bne).insert(i.nat_ble).insert(i.nat_blt).insert(i.nat_bgt).insert(i.nat_bge),
    ensures
        final(env).wf(),
        final(env)@.dom() == old(env)@.dom().insert(i.eq).insert(i.eq_refl).insert(i.eq_rec).insert(i.bool_name).insert(i.bool_true).insert(i.bool_false).insert(i.bool_rec).insert(i.list).insert(i.list_nil).insert(i.list_cons).insert(i.list_rec).insert(i.option).insert(i.option_none).insert(i.option_some).insert(i.option_rec),
        forall|k: NameId| #[trigger] old(env)@.contains_key(k) ==> final(env)@[k] == old(env)@[k],
        family_group_ok(final(env)@, *i, *bs),
{
    let ghost m0 = env@;
    register_eq(env, bs, i.eq, i.eq_refl, i.eq_rec, UniverseParamId(7), UniverseParamId(8));
    let ghost m1 = env@;
    assert(keeps(m0, m1));
    register_bool(env, bs, i.bool_name, i.bool_true, i.bool_false, i.bool_rec, UniverseParamId(2));
    let ghost m2 = env@;
    assert(keeps(m1, m2));
    register_list(env, bs, i.list, i.list_nil, i.list_cons, i.list_rec, UniverseParamId(3), UniverseParamId(4));
    let ghost m3 = env@;
    assert(keeps(m2, m3));
    register_option(env, bs, i.option, i.option_none, i.option_some, i.option_rec, UniverseParamId(5), UniverseParamId(6));
    let ghost m4 = env@;
    assert(keeps(m3, m4));
    proof {
        lemma_keeps_trans(m1, m2, m3);
        lemma_keeps_trans(m1, m3, m4);
        lemma_keeps_trans(m2, m3, m4);
        lemma_keeps_trans(m0, m1, m2);
        lemma_keeps_trans(m0, m2, m3);
        lemma_keeps_trans(m0, m3, m4);
        assert(m1.contains_key(i.eq));
        assert(m1.contains_key(i.eq_refl));
        assert(m1.contains_key(i.eq_rec));
        assert(m2.contains_key(i.bool_name));
        assert(m2.contains_key(i.bool_true));
        assert(m2.contains_key(i.bool_false));
        assert(m2.contains_key(i.bool_rec));
        assert(m3.contains_key(i.list));
        assert(m3.contains_key(i.list_nil));
        assert(m3.contains_key(i.list_cons));
        assert(m3.contains_key(i.list_rec));
        assert(m4.contains_key(i.option));
        assert(m4.contains_key(i.option_none));
        assert(m4.contains_key(i.option_some));
        assert(m4.contains_key(i.option_rec));
    }
}


/// Build the prelude: `Nat` with its arithmetic and comparisons, `Bool`,
/// `List`, `Option` and `Eq`, each family with its constructors and
/// recursor, in a fresh name table and environment. Every registration
/// succeeds.
pub fn build_prelude() -> (p: Prelude)
    ensures
        p.env.wf(),
        forall|k: int| 0 <= k < 33 ==> (#[trigger] prelude_constants(&p)[k]).0 == k,
        p.names@.len() >= 33,
        p.names@.take(33) == prelude_strings(),
        p.env@.dom() == prelude_constants(&p).to_set(),
        prelude_kinds(&p),
        prelude_universes(&p),
        prelude_decls(&p),
{
    let mut names = NameTable::new();
    let mut env = GlobalEnv::new();
    let ids = intern_constants(&mut names);
    let bs = intern_binders(&mut names);
    let ghost t = names@;
    let ghost m0 = env@;
    register_nat_group(&mut env, &ids, &bs);
    let ghost m1 = env@;
    register_comparison_group(&mut env, &ids, &bs);
    let ghost m2 = env@;
    register_family_group(&mut env, &ids, &bs);
    let ghost m3 = env@;
    proof {
        assert(keeps(m1, m2));
        assert(keeps(m2, m3));
        lemma_keeps_trans(m1, m2, m3);
        assert(m1.contains_key(ids.nat));
        assert(m1.contains_key(ids.zero));
        assert(m1.contains_key(ids.succ));
        assert(m1.contains_key(ids.rec));
        assert(m1.contains_key(ids.pred));
        assert(m1.contains_key(ids.add));
        assert(m1.contains_key(ids.mul));
        assert(m1.contains_key(ids.sub));
        assert(m1.contains_key(ids.pow));
        assert(m2.contains_key(ids.bool_not));
        assert(m2.contains_key(ids.nat_is_zero));
        assert(m2.contains_key(ids.nat_beq_step));
        assert(m2.contains_key(ids.nat_beq));
        assert(m2.contains_key(ids.nat_bne));
        assert(m2.contains_key(ids.nat_ble));
        assert(m2.contains_key(ids.nat_blt));
        assert(m2.contains_key(ids.nat_bgt));
        assert(m2.contains_key(ids.nat_bge));
    }
    let p = Prelude {
        names,
        env,
        nat: ids.nat,
        zero: ids.zero,
        succ: ids.succ,
        rec: ids.rec,
        rec_universe: UniverseParamId(1),
        pred: ids.pred,
        add: ids.add,
        mul: ids.mul,
        sub: ids.sub,
        pow: ids.pow,
        bool_not: ids.bool_not,
        nat_is_zero: ids.nat_is_zero,
        nat_beq_step: ids.nat_beq_step,
        nat_beq: ids.nat_beq,
        nat_bne: ids.nat_bne,
        nat_ble: ids.nat_ble,
        nat_blt: ids.nat_blt,
        nat_bgt: ids.nat_bgt,
        nat_bge: ids.nat_bge,
        bool_name: ids.bool_name,
        bool_true: ids.bool_true,
        bool_false: ids.bool_false,
        bool_rec: ids.bool_rec,
        bool_rec_u: UniverseParamId(2),
        list: ids.list,
        list_nil: ids.list_nil,
        list_cons: ids.list_cons,
        list_rec: ids.list_rec,
        list_u: UniverseParamId(3),
        list_rec_v: UniverseParamId(4),
        option: ids.option,
        option_none: ids.option_none,
        option_some: ids.option_some,
        option_rec: ids.option_rec,
        option_u: UniverseParamId(5),
        option_rec_v: UniverseParamId(6),
        eq: ids.eq,
        eq_refl: ids.eq_refl,
        eq_rec: ids.eq_rec,
        eq_u: UniverseParamId(7),
        eq_rec_v: UniverseParamId(8),
    };
    proof {
        assert(p.names@ == t);
        assert(nat_group_ok(m3, ids, bs));
        assert(comparison_group_ok(m3, ids, bs));
        assert(family_group_ok(m3, ids, bs));
        assert(p.names@.take(33) =~= prelude_strings());
        assert(p.env@.dom() =~= prelude_constants(&p).to_set());
    }
    p
}

/// Same as [`build_prelude`].
pub fn build_nat_prelude() -> (p: Prelude)
    ensures
        p.env.wf(),
        forall|k: int| 0 <= k < 33 ==> (#[trigger] prelude_constants(&p)[k]).0 == k,
        p.names@.len() >= 33,
        p.names@.take(33) == prelude_strings(),
        p.env@.dom() == prelude_constants(&p).to_set(),
        prelude_kinds(&p),
        prelude_universes(&p),
        prelude_decls(&p),
{
    build_prelude()
}

} // verus!
