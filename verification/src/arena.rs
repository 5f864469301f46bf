//! Hash-consed term arena.
//!
//! An alternative representation of kernel terms in which every distinct
//! term is stored exactly once and referred to by an [`ExprId`]. Because
//! the arena is hash-consed, two `ExprId`s are equal iff their terms are
//! structurally equal, so equality is a `u32` comparison.
//!
//! Every node refers only to nodes stored before it, so the terms of an
//! arena are finite trees, and no node is stored twice.

use vstd::prelude::*;
use crate::expr::{BinderInfo, DeBruijnIndex, Expr, ExprV, LitV, Literal, clone_levels, same_levels};
use crate::level::Level;
use crate::name::{NameId, NameTable};
use crate::text::{decimal, push_decimal, string_of};
use vstd::string::StringExecFns;

verus! {

// ---------------------------------------------------------------------------
// ExprId
// ---------------------------------------------------------------------------

/// A handle to a term stored in an [`ExprArena`].
#[derive(Clone, Copy, Debug, PartialEq, Eq, Hash, PartialOrd, Ord, Structural)]
pub struct ExprId(pub u32);

impl ExprId {
    /// The raw index into the arena.
    pub fn index(self) -> (r: u32)
        ensures
            r == self.0,
    {
        self.0
    }

    /// Construct an `ExprId` from a raw index.
    pub fn from_index(i: u32) -> (r: Self)
        ensures
            r.0 == i,
    {
        ExprId(i)
    }
}

// ---------------------------------------------------------------------------
// ExprData
// ---------------------------------------------------------------------------

/// A single node in the arena: the shape of an [`Expr`], with subterms
/// given by their ids.
#[derive(Debug, PartialEq, Eq, Hash)]
pub enum ExprData {
    /// A universe `Sort(l)`.
    Sort(Level),
    /// A bound variable, by de Bruijn index.
    Var(DeBruijnIndex),
    /// A constant applied to universe parameters.
    Const(NameId, Vec<Level>),
    /// Application `f a`.
    App(ExprId, ExprId),
    /// Lambda `λ (x : A). b`.
    Lam(BinderInfo, NameId, ExprId, ExprId),
    /// Dependent function type `Π (x : A). B`.
    Pi(BinderInfo, NameId, ExprId, ExprId),
    /// Local definition `let x : A := v; b`.
    Let(NameId, ExprId, ExprId, ExprId),
    /// A literal.
    Lit(Literal),
}

/// The abstract value of a node.
pub enum DataV {
    /// See [`ExprData::Sort`].
    Sort(Level),
    /// See [`ExprData::Var`].
    Var(DeBruijnIndex),
    /// See [`ExprData::Const`].
    Const(NameId, Seq<Level>),
    /// See [`ExprData::App`].
    App(ExprId, ExprId),
    /// See [`ExprData::Lam`].
    Lam(BinderInfo, NameId, ExprId, ExprId),
    /// See [`ExprData::Pi`].
    Pi(BinderInfo, NameId, ExprId, ExprId),
    /// See [`ExprData::Let`].
    Let(NameId, ExprId, ExprId, ExprId),
    /// See [`ExprData::Lit`].
    Lit(LitV),
}

impl View for ExprData {
    type V = DataV;

    open spec fn view(&self) -> DataV {
        match self {
            ExprData::Sort(l) => DataV::Sort(*l),
            ExprData::Var(i) => DataV::Var(*i),
            ExprData::Const(n, ls) => DataV::Const(*n, ls@),
            ExprData::App(f, a) => DataV::App(*f, *a),
            ExprData::Lam(i, n, a, b) => DataV::Lam(*i, *n, *a, *b),
            ExprData::Pi(i, n, a, b) => DataV::Pi(*i, *n, *a, *b),
            ExprData::Let(n, t, v, b) => DataV::Let(*n, *t, *v, *b),
            ExprData::Lit(l) => DataV::Lit(l@),
        }
    }
}

impl Clone for ExprData {
    fn clone(&self) -> (r: Self)
        ensures
            r@ == self@,
    {
        match self {
            ExprData::Sort(l) => ExprData::Sort(l.deep_clone()),
            ExprData::Var(i) => ExprData::Var(*i),
            ExprData::Const(n, ls) => ExprData::Const(*n, clone_levels(ls)),
            ExprData::App(f, a) => ExprData::App(*f, *a),
            ExprData::Lam(i, n, a, b) => ExprData::Lam(*i, *n, *a, *b),
            ExprData::Pi(i, n, a, b) => ExprData::Pi(*i, *n, *a, *b),
            ExprData::Let(n, t, v, b) => ExprData::Let(*n, *t, *v, *b),
            ExprData::Lit(l) => ExprData::Lit(l.clone()),
        }
    }
}

impl ExprData {
    /// Structural equality of two nodes.
    pub fn same(&self, other: &ExprData) -> (r: bool)
        ensures
            r == (self@ == other@),
    {
        match (self, other) {
            (ExprData::Sort(a), ExprData::Sort(b)) => a.same(b),
            (ExprData::Var(a), ExprData::Var(b)) => a.0 == b.0,
            (ExprData::Const(n1, l1), ExprData::Const(n2, l2)) => n1.0 == n2.0 && same_levels(l1, l2),
            (ExprData::App(f1, a1), ExprData::App(f2, a2)) => f1.0 == f2.0 && a1.0 == a2.0,
            (ExprData::Lam(i1, n1, a1, b1), ExprData::Lam(i2, n2, a2, b2)) => {
                *i1 == *i2 && n1.0 == n2.0 && a1.0 == a2.0 && b1.0 == b2.0
            },
            (ExprData::Pi(i1, n1, a1, b1), ExprData::Pi(i2, n2, a2, b2)) => {
                *i1 == *i2 && n1.0 == n2.0 && a1.0 == a2.0 && b1.0 == b2.0
            },
            (ExprData::Let(n1, t1, v1, b1), ExprData::Let(n2, t2, v2, b2)) => {
                n1.0 == n2.0 && t1.0 == t2.0 && v1.0 == v2.0 && b1.0 == b2.0
            },
            (ExprData::Lit(a), ExprData::Lit(b)) => a.same(b),
            _ => false,
        }
    }

    /// `true` iff this is a `Sort`.
    pub fn is_sort(&self) -> (r: bool)
        ensures
            r == (*self is Sort),
    {
        match self {
            ExprData::Sort(_) => true,
            _ => false,
        }
    }

    /// `true` iff this is a `Var`.
    pub fn is_var(&self) -> (r: bool)
        ensures
            r == (*self is Var),
    {
        match self {
            ExprData::Var(_) => true,
            _ => false,
        }
    }

    /// `true` iff this is a `Const`.
    pub fn is_const(&self) -> (r: bool)
        ensures
            r == (*self is Const),
    {
        match self {
            ExprData::Const(_, _) => true,
            _ => false,
        }
    }

    /// `true` iff this is an `App`.
    pub fn is_app(&self) -> (r: bool)
        ensures
            r == (*self is App),
    {
        match self {
            ExprData::App(_, _) => true,
            _ => false,
        }
    }

    /// `true` iff this is a `Lam`.
    pub fn is_lam(&self) -> (r: bool)
        ensures
            r == (*self is Lam),
    {
        match self {
            ExprData::Lam(_, _, _, _) => true,
            _ => false,
        }
    }

    /// `true` iff this is a `Pi`.
    pub fn is_pi(&self) -> (r: bool)
        ensures
            r == (*self is Pi),
    {
        match self {
            ExprData::Pi(_, _, _, _) => true,
            _ => false,
        }
    }

    /// `true` iff this is a `Let`.
    pub fn is_let(&self) -> (r: bool)
        ensures
            r == (*self is Let),
    {
        match self {
            ExprData::Let(_, _, _, _) => true,
            _ => false,
        }
    }

    /// `true` iff this is a `Lit`.
    pub fn is_lit(&self) -> (r: bool)
        ensures
            r == (*self is Lit),
    {
        match self {
            ExprData::Lit(_) => true,
            _ => false,
        }
    }
}

// ---------------------------------------------------------------------------
// InternError
// ---------------------------------------------------------------------------

/// Errors produced by [`ExprArena::intern`].
#[derive(Clone, Copy, Debug, PartialEq, Eq, Structural)]
pub enum InternError {
    /// The expression exceeded the arena's configured maximum depth. The
    /// depth counter starts at 0 for the root and increments on each
    /// recursion into a subterm.
    DepthExceeded {
        /// The arena's configured limit.
        limit: usize,
        /// The depth at which the limit was exceeded.
        depth: usize,
    },
}

impl InternError {
    /// A one-line description of the error.
    pub fn describe(&self) -> (r: String)
        ensures
            r@ == "expression depth "@ + decimal(self->depth as nat) + " exceeds arena limit "@ + decimal(
                self->limit as nat,
            ),
    {
        let InternError::DepthExceeded { limit, depth } = *self;
        let mut s = string_of("expression depth ");
        push_decimal(&mut s, depth as u64);
        s.append(" exceeds arena limit ");
        push_decimal(&mut s, limit as u64);
        s
    }
}

// ---------------------------------------------------------------------------
// The terms of an arena
// ---------------------------------------------------------------------------

/// `true` iff every subterm id of `d` is below `k`.
pub open spec fn children_below(d: DataV, k: int) -> bool {
    match d {
        DataV::App(f, a) => f.0 < k && a.0 < k,
        DataV::Lam(_, _, a, b) => a.0 < k && b.0 < k,
        DataV::Pi(_, _, a, b) => a.0 < k && b.0 < k,
        DataV::Let(_, t, v, b) => t.0 < k && v.0 < k && b.0 < k,
        _ => true,
    }
}

/// The arena invariant: ids fit in `u32`, every node refers only to nodes
/// stored before it, and no node is stored twice.
pub open spec fn wf_terms(s: Seq<DataV>) -> bool {
    &&& s.len() <= u32::MAX + 1
    &&& forall|k: int| 0 <= k < s.len() ==> children_below(#[trigger] s[k], k)
    &&& forall|i: int, j: int| 0 <= i < s.len() && 0 <= j < s.len() && i != j ==> #[trigger] s[i] != #[trigger] s[j]
}

/// The term stored at `id`.
pub open spec fn arena_term(s: Seq<DataV>, id: int) -> ExprV
    decreases id,
{
    if 0 <= id < s.len() && children_below(s[id], id) {
        match s[id] {
            DataV::Sort(l) => ExprV::Sort(l),
            DataV::Var(i) => ExprV::Var(i),
            DataV::Const(n, ls) => ExprV::Const(n, ls),
            DataV::App(f, a) => ExprV::App(
                Box::new(arena_term(s, f.0 as int)),
                Box::new(arena_term(s, a.0 as int)),
            ),
            DataV::Lam(i, n, a, b) => ExprV::Lam(
                i,
                n,
                Box::new(arena_term(s, a.0 as int)),
                Box::new(arena_term(s, b.0 as int)),
            ),
            DataV::Pi(i, n, a, b) => ExprV::Pi(
                i,
                n,
                Box::new(arena_term(s, a.0 as int)),
                Box::new(arena_term(s, b.0 as int)),
            ),
            DataV::Let(n, t, v, b) => ExprV::Let(
                n,
                Box::new(arena_term(s, t.0 as int)),
                Box::new(arena_term(s, v.0 as int)),
                Box::new(arena_term(s, b.0 as int)),
            ),
            DataV::Lit(l) => ExprV::Lit(l),
        }
    } else {
        ExprV::Var(DeBruijnIndex(0))
    }
}

/// Extending an arena does not change the terms it already stores.
pub proof fn lemma_arena_term_stable(s: Seq<DataV>, t: Seq<DataV>, id: int)
    requires
        s.len() <= t.len(),
        t.take(s.len() as int) == s,
        0 <= id < s.len(),
    ensures
        arena_term(t, id) == arena_term(s, id),
    decreases id,
{
    assert(t[id] == s[id]) by {
        assert(t.take(s.len() as int)[id] == t[id]);
    }
    if children_below(s[id], id) {
        match s[id] {
            DataV::App(f, a) => {
                lemma_arena_term_stable(s, t, f.0 as int);
                lemma_arena_term_stable(s, t, a.0 as int);
            },
            DataV::Lam(_, _, a, b) => {
                lemma_arena_term_stable(s, t, a.0 as int);
                lemma_arena_term_stable(s, t, b.0 as int);
            },
            DataV::Pi(_, _, a, b) => {
                lemma_arena_term_stable(s, t, a.0 as int);
                lemma_arena_term_stable(s, t, b.0 as int);
            },
            DataV::Let(_, x, v, b) => {
                lemma_arena_term_stable(s, t, x.0 as int);
                lemma_arena_term_stable(s, t, v.0 as int);
                lemma_arena_term_stable(s, t, b.0 as int);
            },
            _ => {},
        }
    }
}

/// Hash-consing: two ids of a well-formed arena are equal iff their terms
/// are structurally equal.
pub proof fn lemma_arena_canonical(s: Seq<DataV>, i: int, j: int)
    requires
        wf_terms(s),
        0 <= i < s.len(),
        0 <= j < s.len(),
    ensures
        (i == j) <==> (arena_term(s, i) == arena_term(s, j)),
    decreases i + j,
{
    if arena_term(s, i) == arena_term(s, j) && i != j {
        assert(children_below(s[i], i));
        assert(children_below(s[j], j));
        match (s[i], s[j]) {
            (DataV::App(f1, a1), DataV::App(f2, a2)) => {
                lemma_arena_canonical(s, f1.0 as int, f2.0 as int);
                lemma_arena_canonical(s, a1.0 as int, a2.0 as int);
            },
            (DataV::Lam(_, _, a1, b1), DataV::Lam(_, _, a2, b2)) => {
                lemma_arena_canonical(s, a1.0 as int, a2.0 as int);
                lemma_arena_canonical(s, b1.0 as int, b2.0 as int);
            },
            (DataV::Pi(_, _, a1, b1), DataV::Pi(_, _, a2, b2)) => {
                lemma_arena_canonical(s, a1.0 as int, a2.0 as int);
                lemma_arena_canonical(s, b1.0 as int, b2.0 as int);
            },
            (DataV::Let(_, t1, v1, b1), DataV::Let(_, t2, v2, b2)) => {
                lemma_arena_canonical(s, t1.0 as int, t2.0 as int);
                lemma_arena_canonical(s, v1.0 as int, v2.0 as int);
                lemma_arena_canonical(s, b1.0 as int, b2.0 as int);
            },
            _ => {},
        }
        assert(s[i] == s[j]);
    }
}

/// The height of a term: 0 for a leaf, one more than its highest subterm
/// otherwise.
pub open spec fn expr_height(e: ExprV) -> nat
    decreases e,
{
    match e {
        ExprV::App(f, a) => 1 + max_nat(expr_height(*f), expr_height(*a)),
        ExprV::Lam(_, _, a, b) => 1 + max_nat(expr_height(*a), expr_height(*b)),
        ExprV::Pi(_, _, a, b) => 1 + max_nat(expr_height(*a), expr_height(*b)),
        ExprV::Let(_, t, v, b) => 1 + max_nat(expr_height(*t), max_nat(expr_height(*v), expr_height(*b))),
        _ => 0,
    }
}

/// The larger of two naturals.
pub open spec fn max_nat(a: nat, b: nat) -> nat {
    if a >= b { a } else { b }
}

// ---------------------------------------------------------------------------
// ExprArena
// ---------------------------------------------------------------------------

/// A hash-consed term arena: terms in insertion order, each stored once.
#[derive(Debug)]
pub struct ExprArena {
    terms: Vec<ExprData>,
    max_depth: usize,
}

impl View for ExprArena {
    type V = Seq<DataV>;

    closed spec fn view(&self) -> Seq<DataV> {
        self.terms@.map_values(|d: ExprData| d@)
    }
}

/// `true` iff `new` is `old` after interning `d` and returning `id`: the id
/// of the equal node if there is one, a new last node otherwise.
pub open spec fn interned(old: Seq<DataV>, new: Seq<DataV>, d: DataV, id: ExprId) -> bool {
    &&& id.0 < new.len()
    &&& new[id.0 as int] == d
    &&& if old.contains(d) {
        new == old
    } else {
        new == old.push(d) && id.0 == old.len()
    }
}

/// `true` iff some node of `s` holds the term `e`.
pub open spec fn present(s: Seq<DataV>, e: ExprV) -> bool {
    exists|i: int| 0 <= i < s.len() && #[trigger] arena_term(s, i) == e
}

/// `true` iff `id` refers to a node of `s`.
pub open spec fn valid_id(s: Seq<DataV>, id: ExprId) -> bool {
    id.0 < s.len()
}

impl ExprArena {
    /// The default depth limit for [`ExprArena::intern`].
    pub const DEFAULT_MAX_DEPTH: usize = 10_000;

    /// The arena invariant.
    pub open spec fn wf(&self) -> bool {
        wf_terms(self@)
    }

    /// The configured depth limit.
    pub closed spec fn depth_limit(&self) -> usize {
        self.max_depth
    }

    /// Create an empty arena with the default depth limit.
    pub fn new() -> (r: Self)
        ensures
            r.wf(),
            r@ == Seq::<DataV>::empty(),
            r.depth_limit() == Self::DEFAULT_MAX_DEPTH,
    {
        Self::with_max_depth(Self::DEFAULT_MAX_DEPTH)
    }

    /// Create an empty arena with a custom depth limit.
    pub fn with_max_depth(max_depth: usize) -> (r: Self)
        ensures
            r.wf(),
            r@ == Seq::<DataV>::empty(),
            r.depth_limit() == max_depth,
    {
        let r = ExprArena { terms: Vec::new(), max_depth };
        assert(r@ =~= Seq::<DataV>::empty());
        r
    }

    /// The configured depth limit.
    pub fn max_depth(&self) -> (r: usize)
        ensures
            r == self.depth_limit(),
    {
        self.max_depth
    }

    /// Number of distinct terms in the arena.
    pub fn len(&self) -> (r: usize)
        ensures
            r == self@.len(),
    {
        self.terms.len()
    }

    /// `true` iff the arena contains no terms.
    pub fn is_empty(&self) -> (r: bool)
        ensures
            r == (self@.len() == 0),
    {
        self.terms.len() == 0
    }

    /// `true` iff `id` refers to a term in this arena.
    pub fn contains(&self, id: ExprId) -> (r: bool)
        ensures
            r == valid_id(self@, id),
    {
        (id.0 as usize) < self.terms.len()
    }

    /// The position of a node equal to `data`, if any.
    fn find(&self, data: &ExprData) -> (r: Option<usize>)
        ensures
            match r {
                Some(k) => k < self@.len() && self@[k as int] == data@,
                None => !self@.contains(data@),
            },
    {
        let n = self.terms.len();
        let mut k: usize = 0;
        while k < n
            invariant
                n == self.terms@.len(),
                n == self@.len(),
                k <= n,
                forall|i: int| 0 <= i < k ==> self@[i] != data@,
            decreases n - k,
        {
            assert(self@[k as int] == self.terms@[k as int]@);
            if self.terms[k].same(data) {
                return Some(k);
            }
            k = k + 1;
        }
        None
    }

    /// Insert or find `data`, returning its canonical id.
    fn intern_data(&mut self, data: ExprData) -> (id: ExprId)
        requires
            old(self).wf(),
            old(self)@.len() <= u32::MAX,
            children_below(data@, old(self)@.len() as int),
        ensures
            final(self).wf(),
            final(self).depth_limit() == old(self).depth_limit(),
            interned(old(self)@, final(self)@, data@, id),
    {
        match self.find(&data) {
            Some(k) => ExprId(k as u32),
            None => {
                let n = self.terms.len();
                let ghost before = self@;
                let ghost d = data@;
                self.terms.push(data);
                proof {
                    assert(self@ =~= before.push(d));
                    assert forall|i: int, j: int|
                        0 <= i < self@.len() && 0 <= j < self@.len() && i != j implies #[trigger] self@[i]
                            != #[trigger] self@[j] by {
                        if i < before.len() && j < before.len() {
                            assert(self@[i] == before[i] && self@[j] == before[j]);
                        } else if i < before.len() {
                            assert(self@[i] == before[i]);
                        } else if j < before.len() {
                            assert(self@[j] == before[j]);
                        }
                    }
                    assert forall|k: int| 0 <= k < self@.len() implies children_below(#[trigger] self@[k], k) by {
                        if k < before.len() {
                            assert(self@[k] == before[k]);
                        }
                    }
                }
                ExprId(n as u32)
            },
        }
    }

    // -----------------------------------------------------------------
    // Constructors
    // -----------------------------------------------------------------

    /// `Sort(l)`.
    pub fn sort(&mut self, l: Level) -> (id: ExprId)
        requires
            old(self).wf(),
            old(self)@.len() <= u32::MAX,
        ensures
            final(self).wf(),
            final(self).depth_limit() == old(self).depth_limit(),
            interned(old(self)@, final(self)@, DataV::Sort(l), id),
    {
        self.intern_data(ExprData::Sort(l))
    }

    /// A bound variable.
    pub fn var(&mut self, i: DeBruijnIndex) -> (id: ExprId)
        requires
            old(self).wf(),
            old(self)@.len() <= u32::MAX,
        ensures
            final(self).wf(),
            final(self).depth_limit() == old(self).depth_limit(),
            interned(old(self)@, final(self)@, DataV::Var(i), id),
    {
        self.intern_data(ExprData::Var(i))
    }

    /// A constant applied to universe parameters.
    pub fn const_(&mut self, name: NameId, levels: Vec<Level>) -> (id: ExprId)
        requires
            old(self).wf(),
            old(self)@.len() <= u32::MAX,
        ensures
            final(self).wf(),
            final(self).depth_limit() == old(self).depth_limit(),
            interned(old(self)@, final(self)@, DataV::Const(name, levels@), id),
    {
        self.intern_data(ExprData::Const(name, levels))
    }

    /// Application `f a`.
    pub fn app(&mut self, f: ExprId, a: ExprId) -> (id: ExprId)
        requires
            old(self).wf(),
            old(self)@.len() <= u32::MAX,
            valid_id(old(self)@, f),
            valid_id(old(self)@, a),
        ensures
            final(self).wf(),
            final(self).depth_limit() == old(self).depth_limit(),
            interned(old(self)@, final(self)@, DataV::App(f, a), id),
    {
        self.intern_data(ExprData::App(f, a))
    }

    /// Left-associated application of `f` to a sequence of arguments.
    pub fn app_many(&mut self, f: ExprId, args: Vec<ExprId>) -> (id: ExprId)
        requires
            old(self).wf(),
            old(self)@.len() + args@.len() <= u32::MAX + 1,
            valid_id(old(self)@, f),
            forall|k: int| 0 <= k < args@.len() ==> valid_id(old(self)@, #[trigger] args@[k]),
        ensures
            final(self).wf(),
            final(self).depth_limit() == old(self).depth_limit(),
            valid_id(final(self)@, id),
            old(self)@.len() <= final(self)@.len(),
            final(self)@.take(old(self)@.len() as int) == old(self)@,
            arena_term(final(self)@, id.0 as int) == crate::expr::apps_spec(
                arena_term(old(self)@, f.0 as int),
                args@.map_values(|x: ExprId| arena_term(old(self)@, x.0 as int)),
            ),
    {
        let ghost s0 = self@;
        let ghost targs = args@.map_values(|x: ExprId| arena_term(s0, x.0 as int));
        let mut acc = f;
        let n = args.len();
        let mut k: usize = 0;
        assert(s0.take(s0.len() as int) =~= s0);
        while k < n
            invariant
                self.wf(),
                self.depth_limit() == old(self).depth_limit(),
                s0 == old(self)@,
                wf_terms(s0),
                n == args@.len(),
                targs == args@.map_values(|x: ExprId| arena_term(s0, x.0 as int)),
                k <= n,
                s0.len() <= self@.len() <= s0.len() + k,
                self@.take(s0.len() as int) == s0,
                s0.len() + n <= u32::MAX + 1,
                valid_id(s0, f),
                forall|x: int| 0 <= x < n ==> valid_id(s0, #[trigger] args@[x]),
                valid_id(self@, acc),
                arena_term(self@, acc.0 as int) == crate::expr::apps_spec(arena_term(s0, f.0 as int), targs.take(k as int)),
            decreases n - k,
        {
            let ghost before = self@;
            let x = args[k];
            let next = self.app(acc, x);
            proof {
                let after = self@;
                assert(after.take(before.len() as int) =~= before);
                assert(after.take(s0.len() as int) =~= s0) by {
                    assert(before.take(s0.len() as int) == s0);
                }
                lemma_arena_term_stable(before, after, acc.0 as int);
                lemma_arena_term_stable(s0, after, x.0 as int);
                assert(children_below(after[next.0 as int], next.0 as int));
                assert(targs.take(k + 1).drop_last() =~= targs.take(k as int));
                assert(targs[k as int] == arena_term(s0, x.0 as int));
            }
            acc = next;
            k = k + 1;
        }
        assert(targs.take(n as int) =~= targs);
        acc
    }

    /// Lambda `λ (x : A). b`.
    pub fn lam(&mut self, info: BinderInfo, name: NameId, dom: ExprId, body: ExprId) -> (id: ExprId)
        requires
            old(self).wf(),
            old(self)@.len() <= u32::MAX,
            valid_id(old(self)@, dom),
            valid_id(old(self)@, body),
        ensures
            final(self).wf(),
            final(self).depth_limit() == old(self).depth_limit(),
            interned(old(self)@, final(self)@, DataV::Lam(info, name, dom, body), id),
    {
        self.intern_data(ExprData::Lam(info, name, dom, body))
    }

    /// Dependent function type `Π (x : A). B`.
    pub fn pi(&mut self, info: BinderInfo, name: NameId, dom: ExprId, cod: ExprId) -> (id: ExprId)
        requires
            old(self).wf(),
            old(self)@.len() <= u32::MAX,
            valid_id(old(self)@, dom),
            valid_id(old(self)@, cod),
        ensures
            final(self).wf(),
            final(self).depth_limit() == old(self).depth_limit(),
            interned(old(self)@, final(self)@, DataV::Pi(info, name, dom, cod), id),
    {
        self.intern_data(ExprData::Pi(info, name, dom, cod))
    }

    /// Local definition `let x : A := v; b`.
    pub fn let_(&mut self, name: NameId, ty: ExprId, val: ExprId, body: ExprId) -> (id: ExprId)
        requires
            old(self).wf(),
            old(self)@.len() <= u32::MAX,
            valid_id(old(self)@, ty),
            valid_id(old(self)@, val),
            valid_id(old(self)@, body),
        ensures
            final(self).wf(),
            final(self).depth_limit() == old(self).depth_limit(),
            interned(old(self)@, final(self)@, DataV::Let(name, ty, val, body), id),
    {
        self.intern_data(ExprData::Let(name, ty, val, body))
    }

    /// A literal.
    pub fn lit(&mut self, l: Literal) -> (id: ExprId)
        requires
            old(self).wf(),
            old(self)@.len() <= u32::MAX,
        ensures
            final(self).wf(),
            final(self).depth_limit() == old(self).depth_limit(),
            interned(old(self)@, final(self)@, DataV::Lit(l@), id),
    {
        self.intern_data(ExprData::Lit(l))
    }

    // -----------------------------------------------------------------
    // Access
    // -----------------------------------------------------------------

    /// The data at `id`.
    pub fn data(&self, id: ExprId) -> (r: &ExprData)
        requires
            valid_id(self@, id),
        ensures
            r@ == self@[id.0 as int],
    {
        &self.terms[id.0 as usize]
    }
}

/// The head of the application spine at `id`.
pub open spec fn spine_head_id(s: Seq<DataV>, id: int) -> int
    decreases id,
{
    if 0 <= id < s.len() && children_below(s[id], id) && s[id] is App {
        spine_head_id(s, s[id]->App_0.0 as int)
    } else {
        id
    }
}

/// The arguments of the application spine at `id`, in application order.
pub open spec fn spine_args_ids(s: Seq<DataV>, id: int) -> Seq<ExprId>
    decreases id,
{
    if 0 <= id < s.len() && children_below(s[id], id) && s[id] is App {
        spine_args_ids(s, s[id]->App_0.0 as int).push(s[id]->App_1)
    } else {
        Seq::empty()
    }
}

impl ExprArena {
    /// Decompose an application spine: `App(App(App(f, a), b), c)` gives
    /// `(f, [a, b, c])`; a non-application gives `(id, [])`.
    pub fn get_app_fn_and_args(&self, id: ExprId) -> (r: (ExprId, Vec<ExprId>))
        requires
            self.wf(),
            valid_id(self@, id),
        ensures
            r.0.0 == spine_head_id(self@, id.0 as int),
            r.1@ == spine_args_ids(self@, id.0 as int),
        decreases id.0,
    {
        assert(children_below(self@[id.0 as int], id.0 as int));
        match self.data(id) {
            ExprData::App(f, a) => {
                let (h, mut args) = self.get_app_fn_and_args(*f);
                args.push(*a);
                (h, args)
            },
            _ => (id, Vec::new()),
        }
    }

    /// Intern an [`Expr`], returning its canonical id. Terms deeper than
    /// the arena's depth limit are rejected; the subterms interned before
    /// the limit was hit stay in the arena.
    pub fn intern(&mut self, e: &Expr) -> (r: Result<ExprId, InternError>)
        requires
            old(self).wf(),
            old(self)@.len() + crate::expr::expr_size(e@) <= u32::MAX + 1,
            expr_height(e@) <= usize::MAX,
        ensures
            final(self).wf(),
            final(self).depth_limit() == old(self).depth_limit(),
            old(self)@.len() <= final(self)@.len(),
            final(self)@.take(old(self)@.len() as int) == old(self)@,
            r is Ok <==> expr_height(e@) <= old(self).depth_limit(),
            r matches Ok(id) ==> valid_id(final(self)@, id) && arena_term(final(self)@, id.0 as int) == e@,
            r matches Err(err) ==> err == (InternError::DepthExceeded {
                limit: old(self).depth_limit(),
                depth: (old(self).depth_limit() + 1) as usize,
            }),
            present(old(self)@, e@) ==> final(self)@ == old(self)@,
    {
        self.intern_rec(e, 0)
    }

    fn intern_rec(&mut self, e: &Expr, depth: usize) -> (r: Result<ExprId, InternError>)
        requires
            old(self).wf(),
            old(self)@.len() + crate::expr::expr_size(e@) <= u32::MAX + 1,
            depth + expr_height(e@) <= usize::MAX,
            depth <= old(self).depth_limit() + 1,
        ensures
            final(self).wf(),
            final(self).depth_limit() == old(self).depth_limit(),
            old(self)@.len() <= final(self)@.len() <= old(self)@.len() + crate::expr::expr_size(e@),
            final(self)@.take(old(self)@.len() as int) == old(self)@,
            r is Ok <==> depth + expr_height(e@) <= old(self).depth_limit(),
            r matches Ok(id) ==> valid_id(final(self)@, id) && arena_term(final(self)@, id.0 as int) == e@,
            r matches Err(err) ==> err == (InternError::DepthExceeded {
                limit: old(self).depth_limit(),
                depth: (old(self).depth_limit() + 1) as usize,
            }),
            present(old(self)@, e@) ==> final(self)@ == old(self)@,
        decreases e, 1int,
    {
        let ghost s0 = self@;
        if depth > self.max_depth {
            assert(s0.take(s0.len() as int) =~= s0);
            return Err(InternError::DepthExceeded { limit: self.max_depth, depth });
        }
        match e {
            Expr::Sort(l) => {
                proof { if present(s0, e@) { lemma_present_leaf(s0, e@); } }
                let r = self.sort(l.deep_clone());
                proof { lemma_interned_terms(s0, self@, DataV::Sort(*l), r); }
                Ok(r)
            },
            Expr::Var(i) => {
                proof { if present(s0, e@) { lemma_present_leaf(s0, e@); } }
                let r = self.var(*i);
                proof { lemma_interned_terms(s0, self@, DataV::Var(*i), r); }
                Ok(r)
            },
            Expr::Const(name, levels) => {
                proof { if present(s0, e@) { lemma_present_leaf(s0, e@); } }
                let r = self.const_(*name, clone_levels(levels));
                proof { lemma_interned_terms(s0, self@, DataV::Const(*name, levels@), r); }
                Ok(r)
            },
            Expr::Lit(l) => {
                proof { if present(s0, e@) { lemma_present_leaf(s0, e@); } }
                let r = self.lit(l.clone());
                proof { lemma_interned_terms(s0, self@, DataV::Lit(l@), r); }
                Ok(r)
            },
            Expr::Let(name, _, _, _) => {
                let (ti, vi, bi) = self.intern_children3(e, depth)?;
                let ghost s3 = self@;
                proof { if present(s0, e@) { lemma_present_node(s0, e@, DataV::Let(*name, ti, vi, bi)); } }
                let r = self.let_(*name, ti, vi, bi);
                proof {
                    lemma_interned_terms(s3, self@, DataV::Let(*name, ti, vi, bi), r);
                    lemma_arena_term_stable(s3, self@, ti.0 as int);
                    lemma_arena_term_stable(s3, self@, vi.0 as int);
                    lemma_arena_term_stable(s3, self@, bi.0 as int);
                    assert(self@.take(s0.len() as int) =~= s0) by {
                        assert(s3.take(s0.len() as int) == s0);
                        assert(self@.take(s3.len() as int) == s3);
                    }
                }
                Ok(r)
            },
            _ => {
                let (x, y) = self.intern_children2(e, depth)?;
                let ghost s2 = self@;
                proof {
                    let d = match e {
                        Expr::Lam(info, name, _, _) => DataV::Lam(*info, *name, x, y),
                        Expr::Pi(info, name, _, _) => DataV::Pi(*info, *name, x, y),
                        _ => DataV::App(x, y),
                    };
                    if present(s0, e@) {
                        lemma_present_node(s0, e@, d);
                    }
                }
                let r = match e {
                    Expr::Lam(info, name, _, _) => self.lam(*info, *name, x, y),
                    Expr::Pi(info, name, _, _) => self.pi(*info, *name, x, y),
                    _ => self.app(x, y),
                };
                proof {
                    let d = match e {
                        Expr::Lam(info, name, _, _) => DataV::Lam(*info, *name, x, y),
                        Expr::Pi(info, name, _, _) => DataV::Pi(*info, *name, x, y),
                        _ => DataV::App(x, y),
                    };
                    lemma_interned_terms(s2, self@, d, r);
                    lemma_arena_term_stable(s2, self@, x.0 as int);
                    lemma_arena_term_stable(s2, self@, y.0 as int);
                    assert(self@.take(s0.len() as int) =~= s0) by {
                        assert(s2.take(s0.len() as int) == s0);
                        assert(self@.take(s2.len() as int) == s2);
                    }
                }
                Ok(r)
            },
        }
    }

    /// Intern the two subterms of an application, lambda or Π, one level
    /// deeper.
    fn intern_children2(&mut self, e: &Expr, depth: usize) -> (r: Result<(ExprId, ExprId), InternError>)
        requires
            old(self).wf(),
            e@ is App || e@ is Lam || e@ is Pi,
            old(self)@.len() + crate::expr::expr_size(e@) <= u32::MAX + 1,
            depth + expr_height(e@) <= usize::MAX,
            depth <= old(self).depth_limit(),
        ensures
            final(self).wf(),
            final(self).depth_limit() == old(self).depth_limit(),
            old(self)@.len() <= final(self)@.len() < old(self)@.len() + crate::expr::expr_size(e@),
            final(self)@.take(old(self)@.len() as int) == old(self)@,
            r is Ok <==> depth + expr_height(e@) <= old(self).depth_limit(),
            r matches Ok(p) ==> {
                &&& valid_id(final(self)@, p.0)
                &&& valid_id(final(self)@, p.1)
                &&& match e@ {
                    ExprV::App(f, a) => arena_term(final(self)@, p.0.0 as int) == *f && arena_term(final(self)@, p.1.0 as int) == *a,
                    ExprV::Lam(_, _, a, b) => arena_term(final(self)@, p.0.0 as int) == *a && arena_term(final(self)@, p.1.0 as int) == *b,
                    ExprV::Pi(_, _, a, b) => arena_term(final(self)@, p.0.0 as int) == *a && arena_term(final(self)@, p.1.0 as int) == *b,
                    _ => true,
                }
            },
            r matches Err(err) ==> err == (InternError::DepthExceeded {
                limit: old(self).depth_limit(),
                depth: (old(self).depth_limit() + 1) as usize,
            }),
            present(old(self)@, e@) ==> final(self)@ == old(self)@,
        decreases e, 0int,
    {
        let ghost s0 = self@;
        let (x, y) = match e {
            Expr::App(f, a) => (f, a),
            Expr::Lam(_, _, a, b) => (a, b),
            Expr::Pi(_, _, a, b) => (a, b),
            _ => {
                proof { assert(false); }
                return Err(InternError::DepthExceeded { limit: self.max_depth, depth });
            },
        };
        proof { if present(s0, e@) { lemma_present_children(s0, e@); } }
        let xi = self.intern_rec(x, depth + 1)?;
        let ghost s1 = self@;
        let yi = self.intern_rec(y, depth + 1)?;
        proof {
            lemma_arena_term_stable(s1, self@, xi.0 as int);
            assert(self@.take(s0.len() as int) =~= s0) by {
                assert(s1.take(s0.len() as int) == s0);
                assert(self@.take(s1.len() as int) == s1);
            }
        }
        Ok((xi, yi))
    }

    /// Intern the three subterms of a `let`, one level deeper.
    fn intern_children3(&mut self, e: &Expr, depth: usize) -> (r: Result<(ExprId, ExprId, ExprId), InternError>)
        requires
            old(self).wf(),
            e@ is Let,
            old(self)@.len() + crate::expr::expr_size(e@) <= u32::MAX + 1,
            depth + expr_height(e@) <= usize::MAX,
            depth <= old(self).depth_limit(),
        ensures
            final(self).wf(),
            final(self).depth_limit() == old(self).depth_limit(),
            old(self)@.len() <= final(self)@.len() < old(self)@.len() + crate::expr::expr_size(e@),
            final(self)@.take(old(self)@.len() as int) == old(self)@,
            r is Ok <==> depth + expr_height(e@) <= old(self).depth_limit(),
            r matches Ok(p) ==> {
                &&& valid_id(final(self)@, p.0)
                &&& valid_id(final(self)@, p.1)
                &&& valid_id(final(self)@, p.2)
                &&& match e@ {
                    ExprV::Let(_, t, v, b) => arena_term(final(self)@, p.0.0 as int) == *t
                        && arena_term(final(self)@, p.1.0 as int) == *v
                        && arena_term(final(self)@, p.2.0 as int) == *b,
                    _ => true,
                }
            },
            r matches Err(err) ==> err == (InternError::DepthExceeded {
                limit: old(self).depth_limit(),
                depth: (old(self).depth_limit() + 1) as usize,
            }),
            present(old(self)@, e@) ==> final(self)@ == old(self)@,
        decreases e, 0int,
    {
        let ghost s0 = self@;
        let (x, y, z) = match e {
            Expr::Let(_, t, v, b) => (t, v, b),
            _ => {
                proof { assert(false); }
                return Err(InternError::DepthExceeded { limit: self.max_depth, depth });
            },
        };
        proof { if present(s0, e@) { lemma_present_children(s0, e@); } }
        let xi = self.intern_rec(x, depth + 1)?;
        let ghost s1 = self@;
        let yi = self.intern_rec(y, depth + 1)?;
        let ghost s2 = self@;
        let zi = self.intern_rec(z, depth + 1)?;
        proof {
            lemma_arena_term_stable(s1, s2, xi.0 as int);
            lemma_arena_term_stable(s2, self@, xi.0 as int);
            lemma_arena_term_stable(s2, self@, yi.0 as int);
            assert(s2.take(s0.len() as int) =~= s0) by {
                assert(s1.take(s0.len() as int) == s0);
                assert(s2.take(s1.len() as int) == s1);
            }
            assert(self@.take(s0.len() as int) =~= s0) by {
                assert(self@.take(s2.len() as int) == s2);
            }
        }
        Ok((xi, yi, zi))
    }

    /// Reconstruct the [`Expr`] at `id`.
    pub fn to_expr(&self, id: ExprId) -> (r: Expr)
        requires
            self.wf(),
            valid_id(self@, id),
        ensures
            r@ == arena_term(self@, id.0 as int),
        decreases id.0,
    {
        assert(children_below(self@[id.0 as int], id.0 as int));
        match self.data(id) {
            ExprData::Sort(l) => Expr::Sort(l.deep_clone()),
            ExprData::Var(i) => Expr::Var(*i),
            ExprData::Const(name, levels) => Expr::Const(*name, clone_levels(levels)),
            ExprData::App(f, a) => Expr::app(self.to_expr(*f), self.to_expr(*a)),
            ExprData::Lam(info, name, dom, body) => Expr::Lam(
                *info,
                *name,
                Box::new(self.to_expr(*dom)),
                Box::new(self.to_expr(*body)),
            ),
            ExprData::Pi(info, name, dom, cod) => Expr::Pi(
                *info,
                *name,
                Box::new(self.to_expr(*dom)),
                Box::new(self.to_expr(*cod)),
            ),
            ExprData::Let(name, ty, val, body) => Expr::Let(
                *name,
                Box::new(self.to_expr(*ty)),
                Box::new(self.to_expr(*val)),
                Box::new(self.to_expr(*body)),
            ),
            ExprData::Lit(l) => Expr::Lit(l.clone()),
        }
    }
}

/// After interning a node whose subterms are in the arena, the new id's
/// term is built from the subterms' terms.
proof fn lemma_interned_terms(old: Seq<DataV>, new: Seq<DataV>, d: DataV, id: ExprId)
    requires
        wf_terms(old),
        wf_terms(new),
        interned(old, new, d, id),
        children_below(d, old.len() as int),
    ensures
        old.len() <= new.len(),
        new.take(old.len() as int) == old,
        children_below(d, id.0 as int),
        new.len() <= old.len() + 1,
{
    if old.contains(d) {
        assert(new.take(old.len() as int) =~= old);
        assert(children_below(new[id.0 as int], id.0 as int));
    } else {
        assert(new.take(old.len() as int) =~= old);
    }
}

/// `true` iff every constant in the term at `id` has a name among the
/// first `n` names.
pub open spec fn renderable(s: Seq<DataV>, n: nat, id: int) -> bool
    decreases id,
{
    if 0 <= id < s.len() && children_below(s[id], id) {
        match s[id] {
            DataV::Const(c, _) => c.0 < n,
            DataV::App(f, a) => renderable(s, n, f.0 as int) && renderable(s, n, a.0 as int),
            DataV::Lam(_, _, a, b) => renderable(s, n, a.0 as int) && renderable(s, n, b.0 as int),
            DataV::Pi(_, _, a, b) => renderable(s, n, a.0 as int) && renderable(s, n, b.0 as int),
            DataV::Let(_, t, v, b) => renderable(s, n, t.0 as int) && renderable(s, n, v.0 as int)
                && renderable(s, n, b.0 as int),
            _ => true,
        }
    } else {
        false
    }
}

/// The compact rendering of the term at `id`: an application spine is
/// parenthesised with its head and arguments separated by spaces.
pub open spec fn render_term(s: Seq<DataV>, names: Seq<Seq<char>>, id: int) -> Seq<char>
    decreases id, 2int,
{
    if 0 <= id < s.len() && children_below(s[id], id) && s[id] is App {
        "("@ + render_spine(s, names, id) + ")"@
    } else {
        render_leaf(s, names, id)
    }
}

/// The head and arguments of the spine at `id`, separated by spaces.
pub open spec fn render_spine(s: Seq<DataV>, names: Seq<Seq<char>>, id: int) -> Seq<char>
    decreases id, 1int,
{
    if 0 <= id < s.len() && children_below(s[id], id) && s[id] is App {
        render_spine(s, names, s[id]->App_0.0 as int) + " "@ + render_term(s, names, s[id]->App_1.0 as int)
    } else {
        render_leaf(s, names, id)
    }
}

/// The rendering of a node that is not an application.
pub open spec fn render_leaf(s: Seq<DataV>, names: Seq<Seq<char>>, id: int) -> Seq<char>
    decreases id, 0int,
{
    if 0 <= id < s.len() && children_below(s[id], id) {
        match s[id] {
            DataV::Sort(_) => "Sort"@,
            DataV::Var(i) => "#"@ + decimal(i.0 as nat),
            DataV::Const(c, _) => names[c.0 as int],
            DataV::Lit(LitV::Nat(n)) => decimal(n as nat),
            DataV::Lit(LitV::Str(t)) => "\""@ + t + "\""@,
            DataV::Lam(_, _, a, b) => "(λ "@ + render_term(s, names, a.0 as int) + ". "@ + render_term(
                s,
                names,
                b.0 as int,
            ) + ")"@,
            DataV::Pi(_, _, a, b) => "(Π "@ + render_term(s, names, a.0 as int) + ". "@ + render_term(
                s,
                names,
                b.0 as int,
            ) + ")"@,
            DataV::Let(_, t, v, b) => "(let "@ + render_term(s, names, t.0 as int) + " := "@ + render_term(
                s,
                names,
                v.0 as int,
            ) + " in "@ + render_term(s, names, b.0 as int) + ")"@,
            DataV::App(_, _) => Seq::empty(),
        }
    } else {
        Seq::empty()
    }
}

impl ExprArena {
    /// Render the term at `id` in a compact, name-resolving form, for
    /// diagnostics: sorts render without their level.
    pub fn render(&self, id: ExprId, names: &NameTable) -> (r: String)
        requires
            self.wf(),
            valid_id(self@, id),
            renderable(self@, names@.len(), id.0 as int),
        ensures
            r@ == render_term(self@, names@, id.0 as int),
    {
        let mut out = String::new();
        self.render_into(id, names, &mut out);
        assert(out@ =~= render_term(self@, names@, id.0 as int));
        out
    }

    fn render_into(&self, id: ExprId, names: &NameTable, out: &mut String)
        requires
            self.wf(),
            valid_id(self@, id),
            renderable(self@, names@.len(), id.0 as int),
        ensures
            final(out)@ == old(out)@ + render_term(self@, names@, id.0 as int),
        decreases id.0, 2int,
    {
        assert(children_below(self@[id.0 as int], id.0 as int));
        if self.data(id).is_app() {
            out.append("(");
            self.render_spine_into(id, names, out);
            out.append(")");
            assert(final(out)@ =~= old(out)@ + render_term(self@, names@, id.0 as int));
        } else {
            self.render_leaf_into(id, names, out);
        }
    }

    fn render_spine_into(&self, id: ExprId, names: &NameTable, out: &mut String)
        requires
            self.wf(),
            valid_id(self@, id),
            renderable(self@, names@.len(), id.0 as int),
        ensures
            final(out)@ == old(out)@ + render_spine(self@, names@, id.0 as int),
        decreases id.0, 1int,
    {
        assert(children_below(self@[id.0 as int], id.0 as int));
        match self.data(id) {
            ExprData::App(f, a) => {
                self.render_spine_into(*f, names, out);
                out.append(" ");
                self.render_into(*a, names, out);
                assert(final(out)@ =~= old(out)@ + render_spine(self@, names@, id.0 as int));
            },
            _ => {
                self.render_leaf_into(id, names, out);
            },
        }
    }

    fn render_leaf_into(&self, id: ExprId, names: &NameTable, out: &mut String)
        requires
            self.wf(),
            valid_id(self@, id),
            renderable(self@, names@.len(), id.0 as int),
        ensures
            final(out)@ == old(out)@ + render_leaf(self@, names@, id.0 as int),
        decreases id.0, 0int,
    {
        assert(children_below(self@[id.0 as int], id.0 as int));
        let ghost o = out@;
        match self.data(id) {
            ExprData::Sort(_) => {
                out.append("Sort");
            },
            ExprData::Var(i) => {
                out.append("#");
                push_decimal(out, i.0 as u64);
                assert(out@ =~= o + render_leaf(self@, names@, id.0 as int));
            },
            ExprData::Const(name, _) => {
                out.append(names.resolve(*name));
            },
            ExprData::Lit(Literal::Nat(n)) => {
                push_decimal(out, *n);
            },
            ExprData::Lit(Literal::Str(t)) => {
                out.append("\"");
                out.append(t.as_str());
                out.append("\"");
                assert(out@ =~= o + render_leaf(self@, names@, id.0 as int));
            },
            ExprData::App(_, _) => {
                assert(out@ =~= o + render_leaf(self@, names@, id.0 as int));
            },
            ExprData::Lam(_, _, dom, body) => {
                out.append("(λ ");
                self.render_into(*dom, names, out);
                out.append(". ");
                self.render_into(*body, names, out);
                out.append(")");
                assert(out@ =~= o + render_leaf(self@, names@, id.0 as int));
            },
            ExprData::Pi(_, _, dom, cod) => {
                out.append("(Π ");
                self.render_into(*dom, names, out);
                out.append(". ");
                self.render_into(*cod, names, out);
                out.append(")");
                assert(out@ =~= o + render_leaf(self@, names@, id.0 as int));
            },
            ExprData::Let(_, ty, val, body) => {
                out.append("(let ");
                self.render_into(*ty, names, out);
                out.append(" := ");
                self.render_into(*val, names, out);
                out.append(" in ");
                self.render_into(*body, names, out);
                out.append(")");
                assert(out@ =~= o + render_leaf(self@, names@, id.0 as int));
            },
        }
    }
}

impl Default for ExprArena {
    fn default() -> (r: Self)
        ensures
            r.wf(),
            r@ == Seq::<DataV>::empty(),
            r.depth_limit() == Self::DEFAULT_MAX_DEPTH,
    {
        ExprArena::new()
    }
}

/// The head and arguments of the stored spine at `id` are, as terms, the
/// head and arguments of the term at `id`.
pub proof fn lemma_spine_ids_terms(s: Seq<DataV>, id: int)
    requires
        wf_terms(s),
        0 <= id < s.len(),
    ensures
        arena_term(s, spine_head_id(s, id)) == crate::termination::spine_head(arena_term(s, id)),
        spine_args_ids(s, id).map_values(|x: ExprId| arena_term(s, x.0 as int)) == crate::termination::spine_args(
            arena_term(s, id),
        ),
    decreases id,
{
    assert(children_below(s[id], id));
    if s[id] is App {
        let f = s[id]->App_0.0 as int;
        lemma_spine_ids_terms(s, f);
        assert(spine_args_ids(s, id).map_values(|x: ExprId| arena_term(s, x.0 as int)) =~= spine_args_ids(
            s,
            f,
        ).map_values(|x: ExprId| arena_term(s, x.0 as int)).push(arena_term(s, s[id]->App_1.0 as int)));
    } else {
        assert(spine_args_ids(s, id).map_values(|x: ExprId| arena_term(s, x.0 as int)) =~= Seq::<ExprV>::empty());
    }
}

/// Applying a non-application head to arguments and taking the spine apart
/// gives the head and the arguments back.
pub proof fn lemma_apps_spine(f: ExprV, args: Seq<ExprV>)
    requires
        !(f is App),
    ensures
        crate::termination::spine_head(crate::expr::apps_spec(f, args)) == f,
        crate::termination::spine_args(crate::expr::apps_spec(f, args)) == args,
    decreases args.len(),
{
    if args.len() > 0 {
        lemma_apps_spine(f, args.drop_last());
        assert(args.drop_last().push(args.last()) =~= args);
    }
}

/// A leaf term held by the arena is held by a node equal to its data.
proof fn lemma_present_leaf(s: Seq<DataV>, e: ExprV)
    requires
        wf_terms(s),
        present(s, e),
    ensures
        match e {
            ExprV::Sort(l) => s.contains(DataV::Sort(l)),
            ExprV::Var(i) => s.contains(DataV::Var(i)),
            ExprV::Const(n, ls) => s.contains(DataV::Const(n, ls)),
            ExprV::Lit(l) => s.contains(DataV::Lit(l)),
            _ => true,
        },
{
    let i = choose|i: int| 0 <= i < s.len() && #[trigger] arena_term(s, i) == e;
    assert(children_below(s[i], i));
}

/// The subterms of a compound term held by the arena are held by it too.
proof fn lemma_present_children(s: Seq<DataV>, e: ExprV)
    requires
        wf_terms(s),
        present(s, e),
    ensures
        match e {
            ExprV::App(f, a) => present(s, *f) && present(s, *a),
            ExprV::Lam(_, _, a, b) => present(s, *a) && present(s, *b),
            ExprV::Pi(_, _, a, b) => present(s, *a) && present(s, *b),
            ExprV::Let(_, t, v, b) => present(s, *t) && present(s, *v) && present(s, *b),
            _ => true,
        },
{
    let i = choose|i: int| 0 <= i < s.len() && #[trigger] arena_term(s, i) == e;
    assert(children_below(s[i], i));
    match s[i] {
        DataV::App(f, a) => {
            assert(0 <= f.0 < i && present(s, arena_term(s, f.0 as int)));
            assert(0 <= a.0 < i && present(s, arena_term(s, a.0 as int)));
        },
        DataV::Lam(_, _, a, b) => {
            assert(0 <= a.0 < i && present(s, arena_term(s, a.0 as int)));
            assert(0 <= b.0 < i && present(s, arena_term(s, b.0 as int)));
        },
        DataV::Pi(_, _, a, b) => {
            assert(0 <= a.0 < i && present(s, arena_term(s, a.0 as int)));
            assert(0 <= b.0 < i && present(s, arena_term(s, b.0 as int)));
        },
        DataV::Let(_, t, v, b) => {
            assert(0 <= t.0 < i && present(s, arena_term(s, t.0 as int)));
            assert(0 <= v.0 < i && present(s, arena_term(s, v.0 as int)));
            assert(0 <= b.0 < i && present(s, arena_term(s, b.0 as int)));
        },
        _ => {},
    }
}

/// A compound term held by the arena is held by the node built from the ids
/// of its subterms.
proof fn lemma_present_node(s: Seq<DataV>, e: ExprV, d: DataV)
    requires
        wf_terms(s),
        present(s, e),
        children_below(d, s.len() as int),
        match d {
            DataV::App(f, a) => e == ExprV::App(Box::new(arena_term(s, f.0 as int)), Box::new(arena_term(s, a.0 as int))),
            DataV::Lam(i, n, a, b) => e == ExprV::Lam(
                i,
                n,
                Box::new(arena_term(s, a.0 as int)),
                Box::new(arena_term(s, b.0 as int)),
            ),
            DataV::Pi(i, n, a, b) => e == ExprV::Pi(
                i,
                n,
                Box::new(arena_term(s, a.0 as int)),
                Box::new(arena_term(s, b.0 as int)),
            ),
            DataV::Let(n, t, v, b) => e == ExprV::Let(
                n,
                Box::new(arena_term(s, t.0 as int)),
                Box::new(arena_term(s, v.0 as int)),
                Box::new(arena_term(s, b.0 as int)),
            ),
            _ => false,
        },
    ensures
        s.contains(d),
{
    let i = choose|i: int| 0 <= i < s.len() && #[trigger] arena_term(s, i) == e;
    assert(children_below(s[i], i));
    match (s[i], d) {
        (DataV::App(f1, a1), DataV::App(f2, a2)) => {
            lemma_arena_canonical(s, f1.0 as int, f2.0 as int);
            lemma_arena_canonical(s, a1.0 as int, a2.0 as int);
            assert(s[i] == d);
        },
        (DataV::Lam(_, _, a1, b1), DataV::Lam(_, _, a2, b2)) => {
            lemma_arena_canonical(s, a1.0 as int, a2.0 as int);
            lemma_arena_canonical(s, b1.0 as int, b2.0 as int);
            assert(s[i] == d);
        },
        (DataV::Pi(_, _, a1, b1), DataV::Pi(_, _, a2, b2)) => {
            lemma_arena_canonical(s, a1.0 as int, a2.0 as int);
            lemma_arena_canonical(s, b1.0 as int, b2.0 as int);
            assert(s[i] == d);
        },
        (DataV::Let(_, t1, v1, b1), DataV::Let(_, t2, v2, b2)) => {
            lemma_arena_canonical(s, t1.0 as int, t2.0 as int);
            lemma_arena_canonical(s, v1.0 as int, v2.0 as int);
            lemma_arena_canonical(s, b1.0 as int, b2.0 as int);
            assert(s[i] == d);
        },
        _ => {},
    }
}

/// Interning is idempotent: once [`ExprArena::intern`] has given `id1`
/// for `e`, the arena holds `e`, so interning `e` again leaves the arena
/// unchanged, and the identifier it gives, `id2`, holds `e` too and is
/// therefore `id1`.
pub proof fn lemma_arena_intern_idempotent(s: Seq<DataV>, e: ExprV, id1: ExprId, id2: ExprId)
    requires
        wf_terms(s),
        valid_id(s, id1),
        arena_term(s, id1.0 as int) == e,
    ensures
        present(s, e),
        valid_id(s, id2) && arena_term(s, id2.0 as int) == e ==> id1 == id2,
{
    assert(arena_term(s, id1.0 as int) == e);
    if valid_id(s, id2) && arena_term(s, id2.0 as int) == e {
        lemma_arena_canonical(s, id1.0 as int, id2.0 as int);
    }
}

} // verus!
