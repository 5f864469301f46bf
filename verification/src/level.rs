//! Universe level algebra.
//!
//! A universe level is built from `Zero`, `Succ`, `Max`, `IMax` (the
//! impredicative maximum: `imax(a, b)` is `0` when `b = 0` and `max(a, b)`
//! otherwise) and universe parameters. [`Level::normalize`] produces a
//! canonical representative; [`leq`] is a sound but incomplete decision
//! procedure for `a ≤ b`.
//!
//! Levels are given a meaning by [`eval_level`]: an assignment of natural
//! numbers to the parameters determines a natural number for every level.
//! Normalization preserves that meaning and is idempotent, and `leq` only
//! answers `true` when the inequality holds under every assignment.

use vstd::prelude::*;
use vstd::string::StringExecFns;
use crate::text::{decimal, push_decimal};

verus! {

/// Identifier for a universe parameter variable.
#[derive(Clone, Copy, Debug, PartialEq, Eq, Hash, PartialOrd, Ord, Structural)]
pub struct UniverseParamId(pub u32);

/// A universe level expression.
#[derive(Debug, PartialEq, Eq, Hash)]
pub enum Level {
    /// The bottom universe, `Prop`/`Type 0`.
    Zero,
    /// `l + 1`.
    Succ(Box<Level>),
    /// `max(l, r)`.
    Max(Box<Level>, Box<Level>),
    /// `imax(l, r)` — impredicative maximum.
    IMax(Box<Level>, Box<Level>),
    /// A universe parameter.
    Param(UniverseParamId),
}

// ---------------------------------------------------------------------------
// Meaning of levels
// ---------------------------------------------------------------------------

/// The natural number denoted by `l` when each parameter `p` stands for
/// `rho(p)`.
pub open spec fn eval_level(l: Level, rho: spec_fn(UniverseParamId) -> nat) -> nat
    decreases l,
{
    match l {
        Level::Zero => 0,
        Level::Succ(x) => eval_level(*x, rho) + 1,
        Level::Max(a, b) => {
            let x = eval_level(*a, rho);
            let y = eval_level(*b, rho);
            if x >= y { x } else { y }
        },
        Level::IMax(a, b) => {
            let x = eval_level(*a, rho);
            let y = eval_level(*b, rho);
            if y == 0 { 0 } else if x >= y { x } else { y }
        },
        Level::Param(p) => rho(p),
    }
}

/// The canonical form computed by [`Level::normalize`], applying
/// `max(0, x) = x`, `max(x, 0) = x`, `max(x, x) = x`, `imax(x, 0) = 0`,
/// `imax(0, x) = x` and `imax(x, x) = x` bottom-up.
pub open spec fn norm(l: Level) -> Level
    decreases l,
{
    match l {
        Level::Zero => Level::Zero,
        Level::Param(p) => Level::Param(p),
        Level::Succ(x) => Level::Succ(Box::new(norm(*x))),
        Level::Max(a, b) => {
            let a2 = norm(*a);
            let b2 = norm(*b);
            if a2 is Zero {
                b2
            } else if b2 is Zero {
                a2
            } else if a2 == b2 {
                a2
            } else {
                Level::Max(Box::new(a2), Box::new(b2))
            }
        },
        Level::IMax(a, b) => {
            let a2 = norm(*a);
            let b2 = norm(*b);
            if b2 is Zero {
                Level::Zero
            } else if a2 is Zero {
                b2
            } else if a2 == b2 {
                a2
            } else {
                Level::IMax(Box::new(a2), Box::new(b2))
            }
        },
    }
}

/// The universe parameters occurring in `l`.
pub open spec fn param_set(l: Level) -> Set<UniverseParamId>
    decreases l,
{
    match l {
        Level::Zero => Set::empty(),
        Level::Param(q) => set![q],
        Level::Succ(x) => param_set(*x),
        Level::Max(a, b) => param_set(*a) + param_set(*b),
        Level::IMax(a, b) => param_set(*a) + param_set(*b),
    }
}

/// `true` iff the identifiers in `s` are strictly ascending.
pub open spec fn strictly_ascending(s: Seq<UniverseParamId>) -> bool {
    forall|i: int, j: int| 0 <= i < j < s.len() ==> s[i].0 < s[j].0
}

/// The rules of [`leq`] on normalized levels: equality, `0 ≤ b`, and
/// decomposition of the right-hand side only.
pub open spec fn leq_nf_spec(a: Level, b: Level) -> bool
    decreases b,
{
    if a == b {
        true
    } else if a is Zero {
        true
    } else {
        match b {
            Level::Zero => false,
            Level::Param(_) => false,
            Level::Succ(y) => leq_nf_spec(a, *y),
            Level::Max(x, y) => leq_nf_spec(a, *x) || leq_nf_spec(a, *y),
            Level::IMax(_, _) => false,
        }
    }
}

/// What [`leq`] answers for `a ≤ b`.
pub open spec fn leq_spec(a: Level, b: Level) -> bool {
    leq_nf_spec(norm(a), norm(b))
}

/// Normalization is idempotent.
pub proof fn lemma_norm_idempotent(l: Level)
    ensures
        norm(norm(l)) == norm(l),
    decreases l,
{
    match l {
        Level::Zero => {},
        Level::Param(_) => {},
        Level::Succ(x) => {
            lemma_norm_idempotent(*x);
        },
        Level::Max(a, b) => {
            lemma_norm_idempotent(*a);
            lemma_norm_idempotent(*b);
        },
        Level::IMax(a, b) => {
            lemma_norm_idempotent(*a);
            lemma_norm_idempotent(*b);
        },
    }
}

/// Normalization preserves the meaning of a level under every assignment.
pub proof fn lemma_norm_preserves_eval(l: Level, rho: spec_fn(UniverseParamId) -> nat)
    ensures
        eval_level(norm(l), rho) == eval_level(l, rho),
    decreases l,
{
    match l {
        Level::Zero => {},
        Level::Param(_) => {},
        Level::Succ(x) => {
            lemma_norm_preserves_eval(*x, rho);
        },
        Level::Max(a, b) => {
            lemma_norm_preserves_eval(*a, rho);
            lemma_norm_preserves_eval(*b, rho);
        },
        Level::IMax(a, b) => {
            lemma_norm_preserves_eval(*a, rho);
            lemma_norm_preserves_eval(*b, rho);
        },
    }
}

proof fn lemma_leq_nf_sound(a: Level, b: Level, rho: spec_fn(UniverseParamId) -> nat)
    requires
        leq_nf_spec(a, b),
    ensures
        eval_level(a, rho) <= eval_level(b, rho),
    decreases b,
{
    if a == b {
    } else if a is Zero {
    } else {
        match b {
            Level::Succ(y) => {
                lemma_leq_nf_sound(a, *y, rho);
            },
            Level::Max(x, y) => {
                if leq_nf_spec(a, *x) {
                    lemma_leq_nf_sound(a, *x, rho);
                } else {
                    lemma_leq_nf_sound(a, *y, rho);
                }
            },
            _ => {},
        }
    }
}

/// Soundness of [`leq`]: when it accepts `a ≤ b`, the inequality holds
/// under every assignment of the universe parameters.
pub proof fn lemma_leq_sound(a: Level, b: Level, rho: spec_fn(UniverseParamId) -> nat)
    requires
        leq_spec(a, b),
    ensures
        eval_level(a, rho) <= eval_level(b, rho),
{
    lemma_leq_nf_sound(norm(a), norm(b), rho);
    lemma_norm_preserves_eval(a, rho);
    lemma_norm_preserves_eval(b, rho);
}

/// `leq` is reflexive.
pub proof fn lemma_leq_reflexive(a: Level)
    ensures
        leq_spec(a, a),
{
}

// ---------------------------------------------------------------------------
// Executable operations
// ---------------------------------------------------------------------------

impl UniverseParamId {
    /// Construct a parameter identifier from its raw number.
    pub fn from_raw(n: u32) -> (r: Self)
        ensures
            r.0 == n,
    {
        UniverseParamId(n)
    }
}

impl Clone for Level {
    fn clone(&self) -> (r: Self)
        ensures
            r == *self,
    {
        self.deep_clone()
    }
}

impl Level {
    /// A structural copy of the level.
    pub fn deep_clone(&self) -> (r: Level)
        ensures
            r == *self,
        decreases self,
    {
        match self {
            Level::Zero => Level::Zero,
            Level::Param(p) => Level::Param(*p),
            Level::Succ(x) => Level::Succ(Box::new(x.deep_clone())),
            Level::Max(a, b) => Level::Max(Box::new(a.deep_clone()), Box::new(b.deep_clone())),
            Level::IMax(a, b) => Level::IMax(Box::new(a.deep_clone()), Box::new(b.deep_clone())),
        }
    }

    /// Structural equality.
    pub fn same(&self, other: &Level) -> (r: bool)
        ensures
            r == (*self == *other),
        decreases self,
    {
        match (self, other) {
            (Level::Zero, Level::Zero) => true,
            (Level::Param(p), Level::Param(q)) => p.0 == q.0,
            (Level::Succ(a), Level::Succ(b)) => a.same(b),
            (Level::Max(a1, a2), Level::Max(b1, b2)) => a1.same(b1) && a2.same(b2),
            (Level::IMax(a1, a2), Level::IMax(b1, b2)) => a1.same(b1) && a2.same(b2),
            _ => false,
        }
    }

    /// Construct `Zero`.
    pub fn zero() -> (r: Self)
        ensures
            r == Level::Zero,
    {
        Level::Zero
    }

    /// Construct `self + 1`.
    pub fn succ(self) -> (r: Self)
        ensures
            r == Level::Succ(Box::new(self)),
    {
        Level::Succ(Box::new(self))
    }

    /// Construct `max(a, b)`.
    pub fn max(a: Self, b: Self) -> (r: Self)
        ensures
            r == Level::Max(Box::new(a), Box::new(b)),
    {
        Level::Max(Box::new(a), Box::new(b))
    }

    /// Construct `imax(a, b)`.
    pub fn imax(a: Self, b: Self) -> (r: Self)
        ensures
            r == Level::IMax(Box::new(a), Box::new(b)),
    {
        Level::IMax(Box::new(a), Box::new(b))
    }

    /// Construct a parameter reference.
    pub fn param(id: UniverseParamId) -> (r: Self)
        ensures
            r == Level::Param(id),
    {
        Level::Param(id)
    }

    /// `true` iff the level is syntactically `Zero`.
    pub fn is_zero(&self) -> (r: bool)
        ensures
            r == (*self is Zero),
    {
        match self {
            Level::Zero => true,
            _ => false,
        }
    }

    /// Return the predecessor if the level is a syntactic successor.
    pub fn pred(&self) -> (r: Option<&Level>)
        ensures
            match *self {
                Level::Succ(x) => r == Some(&*x),
                _ => r is None,
            },
    {
        match self {
            Level::Succ(l) => Some(&**l),
            _ => None,
        }
    }

    /// Normalize the level into its canonical form [`norm`].
    pub fn normalize(&self) -> (r: Level)
        ensures
            r == norm(*self),
        decreases self,
    {
        match self {
            Level::Zero => Level::Zero,
            Level::Param(p) => Level::Param(*p),
            Level::Succ(l) => l.normalize().succ(),
            Level::Max(a, b) => {
                let a2 = a.normalize();
                let b2 = b.normalize();
                if a2.is_zero() {
                    b2
                } else if b2.is_zero() {
                    a2
                } else if a2.same(&b2) {
                    a2
                } else {
                    Level::Max(Box::new(a2), Box::new(b2))
                }
            },
            Level::IMax(a, b) => {
                let a2 = a.normalize();
                let b2 = b.normalize();
                if b2.is_zero() {
                    Level::Zero
                } else if a2.is_zero() {
                    b2
                } else if a2.same(&b2) {
                    a2
                } else {
                    Level::IMax(Box::new(a2), Box::new(b2))
                }
            },
        }
    }

    /// Free universe parameters occurring in this level, in strictly
    /// ascending order.
    pub fn params(&self) -> (r: Vec<UniverseParamId>)
        ensures
            strictly_ascending(r@),
            r@.to_set() == param_set(*self),
    {
        let mut out: Vec<UniverseParamId> = Vec::new();
        proof { assert(out@.to_set() =~= Set::<UniverseParamId>::empty()); }
        self.collect_params(&mut out);
        proof { assert(Set::<UniverseParamId>::empty() + param_set(*self) =~= param_set(*self)); }
        out
    }

    /// Insert every parameter of `self` into the sorted set `out`.
    fn collect_params(&self, out: &mut Vec<UniverseParamId>)
        requires
            strictly_ascending(old(out)@),
        ensures
            strictly_ascending(final(out)@),
            final(out)@.to_set() == old(out)@.to_set() + param_set(*self),
        decreases self,
    {
        match self {
            Level::Zero => {
                assert(old(out)@.to_set() + Set::<UniverseParamId>::empty() =~= old(out)@.to_set());
            },
            Level::Param(p) => {
                insert_sorted(out, *p);
                assert(old(out)@.to_set().insert(*p) =~= old(out)@.to_set() + set![*p]);
            },
            Level::Succ(l) => l.collect_params(out),
            Level::Max(a, b) => {
                let ghost o = out@;
                a.collect_params(out);
                b.collect_params(out);
                assert(o.to_set() + param_set(**a) + param_set(**b) =~= o.to_set() + param_set(*self));
            },
            Level::IMax(a, b) => {
                let ghost o = out@;
                a.collect_params(out);
                b.collect_params(out);
                assert(o.to_set() + param_set(**a) + param_set(**b) =~= o.to_set() + param_set(*self));
            },
        }
    }
}

/// Insert `p` into a strictly ascending vector, keeping it strictly
/// ascending and without duplicates.
fn insert_sorted(out: &mut Vec<UniverseParamId>, p: UniverseParamId)
    requires
        strictly_ascending(old(out)@),
    ensures
        strictly_ascending(final(out)@),
        final(out)@.to_set() == old(out)@.to_set().insert(p),
{
    let n = out.len();
    let mut i: usize = 0;
    while i < n && out[i].0 < p.0
        invariant
            n == out@.len(),
            out@ == old(out)@,
            i <= n,
            forall|k: int| 0 <= k < i ==> out@[k].0 < p.0,
        decreases n - i,
    {
        i = i + 1;
    }
    if i < n && out[i].0 == p.0 {
        assert(out@[i as int] == p);
        assert(out@.to_set().insert(p) =~= out@.to_set()) by {
            assert(out@.to_set().contains(p));
        }
        return;
    }
    let ghost before = out@;
    out.insert(i, p);
    assert(out@ == before.insert(i as int, p));
    assert(out@.to_set() =~= before.to_set().insert(p)) by {
        assert forall|q: UniverseParamId| out@.to_set().contains(q) implies before.to_set().insert(p).contains(q) by {
            let k = choose|k: int| 0 <= k < out@.len() && out@[k] == q;
            if k < i {
                assert(before[k] == q);
            } else if k > i {
                assert(before[k - 1] == q);
            }
        }
        assert forall|q: UniverseParamId| before.to_set().insert(p).contains(q) implies out@.to_set().contains(q) by {
            if q == p {
                assert(out@[i as int] == q);
            } else {
                let k = choose|k: int| 0 <= k < before.len() && before[k] == q;
                if k < i {
                    assert(out@[k] == q);
                } else {
                    assert(out@[k + 1] == q);
                }
            }
        }
    }
}

// ---------------------------------------------------------------------------
// Constraint set
// ---------------------------------------------------------------------------

/// A single order constraint: `lhs ≤ rhs`.
#[derive(Debug, PartialEq, Eq)]
pub struct Constraint {
    /// Left-hand side.
    pub lhs: Level,
    /// Right-hand side.
    pub rhs: Level,
}

impl Clone for Constraint {
    fn clone(&self) -> (r: Self)
        ensures
            r == *self,
    {
        Constraint { lhs: self.lhs.deep_clone(), rhs: self.rhs.deep_clone() }
    }
}

/// A set of accumulated universe inequalities, in insertion order.
#[derive(Debug)]
pub struct ConstraintSet {
    constraints: Vec<Constraint>,
}

impl View for ConstraintSet {
    type V = Seq<Constraint>;

    closed spec fn view(&self) -> Seq<Constraint> {
        self.constraints@
    }
}

impl ConstraintSet {
    /// Create an empty constraint set.
    pub fn new() -> (r: Self)
        ensures
            r@ == Seq::<Constraint>::empty(),
    {
        ConstraintSet { constraints: Vec::new() }
    }

    /// Record `lhs ≤ rhs`.
    pub fn add(&mut self, lhs: Level, rhs: Level)
        ensures
            final(self)@ == old(self)@.push(Constraint { lhs, rhs }),
    {
        self.constraints.push(Constraint { lhs, rhs });
    }

    /// Number of recorded constraints.
    pub fn len(&self) -> (n: usize)
        ensures
            n == self@.len(),
    {
        self.constraints.len()
    }

    /// `true` iff no constraints have been recorded.
    pub fn is_empty(&self) -> (b: bool)
        ensures
            b == (self@.len() == 0),
    {
        self.constraints.len() == 0
    }

    /// The recorded constraints, in insertion order.
    pub fn iter(&self) -> (r: std::slice::Iter<'_, Constraint>)
        ensures
            vstd::std_specs::slice::into_iter_elts(r) == self@,
    {
        broadcast use vstd::std_specs::slice::axiom_spec_slice_iter;
        self.constraints.as_slice().iter()
    }

    /// Try to discharge all constraints.
    ///
    /// Returns `Ok(())` if [`leq`] accepts every constraint, otherwise the
    /// first constraint that it does not accept.
    pub fn discharge(&self) -> (r: Result<(), Constraint>)
        ensures
            r is Ok <==> (forall|i: int| 0 <= i < self@.len() ==> leq_spec(#[trigger] self@[i].lhs, self@[i].rhs)),
            r matches Err(c) ==> exists|i: int|
                0 <= i < self@.len() && self@[i] == c && !leq_spec(c.lhs, c.rhs)
                    && (forall|k: int| 0 <= k < i ==> leq_spec(#[trigger] self@[k].lhs, self@[k].rhs)),
    {
        let n = self.constraints.len();
        let mut i: usize = 0;
        while i < n
            invariant
                n == self@.len(),
                i <= n,
                forall|k: int| 0 <= k < i ==> leq_spec(#[trigger] self@[k].lhs, self@[k].rhs),
            decreases n - i,
        {
            let c = &self.constraints[i];
            if !leq(&c.lhs, &c.rhs) {
                return Err(c.clone());
            }
            i = i + 1;
        }
        Ok(())
    }
}

/// Sound (but incomplete) decision procedure for `a ≤ b`; see
/// [`lemma_leq_sound`].
pub fn leq(a: &Level, b: &Level) -> (r: bool)
    ensures
        r == leq_spec(*a, *b),
{
    let a2 = a.normalize();
    let b2 = b.normalize();
    leq_nf(&a2, &b2)
}

fn leq_nf(a: &Level, b: &Level) -> (r: bool)
    ensures
        r == leq_nf_spec(*a, *b),
    decreases b,
{
    if a.same(b) {
        return true;
    }
    if a.is_zero() {
        return true;
    }
    match b {
        Level::Zero => false,
        Level::Param(_) => false,
        Level::Succ(y) => leq_nf(a, y),
        Level::Max(x, y) => leq_nf(a, x) || leq_nf(a, y),
        Level::IMax(_, _) => false,
    }
}

// ---------------------------------------------------------------------------
// Rendering
// ---------------------------------------------------------------------------

/// The text of a level: `0`, `u<n>` for a parameter, `(l + 1)`,
/// `max(a, b)` and `imax(a, b)`.
pub open spec fn level_text(l: Level) -> Seq<char>
    decreases l,
{
    match l {
        Level::Zero => "0"@,
        Level::Param(p) => "u"@ + decimal(p.0 as nat),
        Level::Succ(a) => "("@ + level_text(*a) + " + 1)"@,
        Level::Max(a, b) => "max("@ + level_text(*a) + ", "@ + level_text(*b) + ")"@,
        Level::IMax(a, b) => "imax("@ + level_text(*a) + ", "@ + level_text(*b) + ")"@,
    }
}

/// Append the text of `l` to `s`.
pub fn push_level(s: &mut String, l: &Level)
    ensures
        final(s)@ == old(s)@ + level_text(*l),
    decreases l,
{
    match l {
        Level::Zero => {
            s.append("0");
        },
        Level::Param(p) => {
            s.append("u");
            push_decimal(s, p.0 as u64);
        },
        Level::Succ(a) => {
            s.append("(");
            push_level(s, &**a);
            s.append(" + 1)");
        },
        Level::Max(a, b) => {
            s.append("max(");
            push_level(s, &**a);
            s.append(", ");
            push_level(s, &**b);
            s.append(")");
        },
        Level::IMax(a, b) => {
            s.append("imax(");
            push_level(s, &**a);
            s.append(", ");
            push_level(s, &**b);
            s.append(")");
        },
    }
    assert(final(s)@ =~= old(s)@ + level_text(*l));
}

impl Level {
    /// The text of the level, as [`level_text`] gives it.
    pub fn describe(&self) -> (r: String)
        ensures
            r@ == level_text(*self),
    {
        let mut s = String::new();
        push_level(&mut s, self);
        assert(s@ =~= level_text(*self));
        s
    }
}

impl Default for ConstraintSet {
    fn default() -> (r: Self)
        ensures
            r@ == Seq::<Constraint>::empty(),
    {
        ConstraintSet::new()
    }
}

/// `leq` is monotone in a `max` on the right: whatever lies below `x`, or
/// below `y`, lies below `max(x, y)`. In particular `a ≤ max(a, b)` and
/// `b ≤ max(a, b)` for all `a`, `b`.
pub proof fn lemma_leq_max_right(a: Level, x: Level, y: Level)
    ensures
        leq_spec(a, x) ==> leq_spec(a, Level::Max(Box::new(x), Box::new(y))),
        leq_spec(a, y) ==> leq_spec(a, Level::Max(Box::new(x), Box::new(y))),
        leq_spec(x, Level::Max(Box::new(x), Box::new(y))),
        leq_spec(y, Level::Max(Box::new(x), Box::new(y))),
{
    let na = norm(a);
    let nx = norm(x);
    let ny = norm(y);
    let m = Level::Max(Box::new(x), Box::new(y));
    assert(norm(m) == if nx is Zero {
        ny
    } else if ny is Zero {
        nx
    } else if nx == ny {
        nx
    } else {
        Level::Max(Box::new(nx), Box::new(ny))
    });
    if !(nx is Zero) && !(ny is Zero) && nx != ny {
        assert(leq_nf_spec(na, nx) ==> leq_nf_spec(na, norm(m)));
        assert(leq_nf_spec(na, ny) ==> leq_nf_spec(na, norm(m)));
    }
    lemma_leq_reflexive(x);
    lemma_leq_reflexive(y);
    lemma_norm_idempotent(x);
    lemma_norm_idempotent(y);
    if !(nx is Zero) && !(ny is Zero) && nx != ny {
        assert(leq_nf_spec(nx, nx));
        assert(leq_nf_spec(nx, norm(m)));
        assert(leq_nf_spec(ny, norm(m)));
    }
}

/// `leq` is monotone in a successor on the right: whatever lies below `x`
/// lies below `x + 1`, and `x ≤ x + 1`. Zero lies below every level.
pub proof fn lemma_leq_succ_right(a: Level, x: Level)
    ensures
        leq_spec(a, x) ==> leq_spec(a, Level::Succ(Box::new(x))),
        leq_spec(x, Level::Succ(Box::new(x))),
        leq_spec(Level::Zero, x),
{
    lemma_norm_idempotent(x);
    assert(norm(Level::Succ(Box::new(x))) == Level::Succ(Box::new(norm(x))));
    assert(leq_nf_spec(norm(x), norm(x)));
}

} // verus!
