//! Core expression syntax tree.
//!
//! The kernel-level syntax: post-elaboration, fully annotated, and using de
//! Bruijn indices for bound variables.

use vstd::prelude::*;
use crate::level::{Level, level_text, push_level};
use crate::text::{decimal, hash_decimal, push_decimal, push_hash_decimal};
use vstd::string::StringExecFns;
use crate::name::NameId;

verus! {

/// A de Bruijn index, counting binders from the innermost outward.
#[derive(Clone, Copy, Debug, PartialEq, Eq, Hash, PartialOrd, Ord, Structural)]
pub struct DeBruijnIndex(pub u32);

impl DeBruijnIndex {
    /// The innermost bound variable.
    pub fn zero() -> (r: Self)
        ensures
            r.0 == 0,
    {
        DeBruijnIndex(0)
    }

    /// Push the index one binder outward.
    pub fn succ(self) -> (r: Self)
        requires
            self.0 < u32::MAX,
        ensures
            r.0 == self.0 + 1,
    {
        DeBruijnIndex(self.0 + 1)
    }
}

/// Binder annotations.
#[derive(Clone, Copy, Debug, PartialEq, Eq, Hash, Structural)]
pub enum BinderInfo {
    /// `(x : A)` — an explicit argument.
    Default,
    /// `{x : A}` — an implicit argument, inferred by unification.
    Implicit,
    /// `{{x : A}}` — a strict implicit argument.
    StrictImplicit,
    /// `[x : A]` — a typeclass / instance argument.
    Instance,
}

impl BinderInfo {
    /// `true` for implicits and instances.
    pub fn is_implicit(self) -> (r: bool)
        ensures
            r == !(self is Default),
    {
        match self {
            BinderInfo::Default => false,
            _ => true,
        }
    }
}

/// Kernel literals.
#[derive(Debug, PartialEq, Eq, Hash)]
pub enum Literal {
    /// A natural number literal.
    Nat(u64),
    /// A string literal.
    Str(String),
}

/// The abstract value of a literal.
pub enum LitV {
    /// A natural number literal.
    Nat(u64),
    /// A string literal, as its characters.
    Str(Seq<char>),
}

impl View for Literal {
    type V = LitV;

    open spec fn view(&self) -> LitV {
        match self {
            Literal::Nat(n) => LitV::Nat(*n),
            Literal::Str(s) => LitV::Str(s@),
        }
    }
}

impl Clone for Literal {
    fn clone(&self) -> (r: Self)
        ensures
            r@ == self@,
    {
        match self {
            Literal::Nat(n) => Literal::Nat(*n),
            Literal::Str(s) => Literal::Str(s.clone()),
        }
    }
}

impl Literal {
    /// Structural equality.
    pub fn same(&self, other: &Literal) -> (r: bool)
        ensures
            r == (self@ == other@),
    {
        match (self, other) {
            (Literal::Nat(a), Literal::Nat(b)) => *a == *b,
            (Literal::Str(a), Literal::Str(b)) => *a == *b,
            _ => false,
        }
    }
}

/// A kernel-level expression.
#[derive(Debug, PartialEq, Eq, Hash)]
pub enum Expr {
    /// `Sort(l)` — a universe.
    Sort(Level),
    /// `#i` — a bound variable, by de Bruijn index.
    Var(DeBruijnIndex),
    /// `c.{u1, ..., un}` — a constant applied to universe parameters.
    Const(NameId, Vec<Level>),
    /// `f a` — application.
    App(Box<Expr>, Box<Expr>),
    /// `λ (x : A). b` — lambda abstraction.
    Lam(BinderInfo, NameId, Box<Expr>, Box<Expr>),
    /// `Π (x : A). B` — dependent function type.
    Pi(BinderInfo, NameId, Box<Expr>, Box<Expr>),
    /// `let x : A := v; b` — local definition.
    Let(NameId, Box<Expr>, Box<Expr>, Box<Expr>),
    /// A literal.
    Lit(Literal),
}

/// The abstract value of an expression: the same tree, with the universe
/// arguments of a constant as a sequence and literals by value.
pub enum ExprV {
    /// `Sort(l)`.
    Sort(Level),
    /// A bound variable.
    Var(DeBruijnIndex),
    /// A constant applied to universe arguments.
    Const(NameId, Seq<Level>),
    /// Application.
    App(Box<ExprV>, Box<ExprV>),
    /// Lambda abstraction.
    Lam(BinderInfo, NameId, Box<ExprV>, Box<ExprV>),
    /// Dependent function type.
    Pi(BinderInfo, NameId, Box<ExprV>, Box<ExprV>),
    /// Local definition.
    Let(NameId, Box<ExprV>, Box<ExprV>, Box<ExprV>),
    /// A literal.
    Lit(LitV),
}

/// The abstract value of `e`.
pub open spec fn expr_view(e: Expr) -> ExprV
    decreases e,
{
    match e {
        Expr::Sort(l) => ExprV::Sort(l),
        Expr::Var(i) => ExprV::Var(i),
        Expr::Const(n, ls) => ExprV::Const(n, ls@),
        Expr::App(f, a) => ExprV::App(Box::new(expr_view(*f)), Box::new(expr_view(*a))),
        Expr::Lam(i, n, a, b) => ExprV::Lam(i, n, Box::new(expr_view(*a)), Box::new(expr_view(*b))),
        Expr::Pi(i, n, a, b) => ExprV::Pi(i, n, Box::new(expr_view(*a)), Box::new(expr_view(*b))),
        Expr::Let(n, t, v, b) => ExprV::Let(
            n,
            Box::new(expr_view(*t)),
            Box::new(expr_view(*v)),
            Box::new(expr_view(*b)),
        ),
        Expr::Lit(l) => ExprV::Lit(l@),
    }
}

impl View for Expr {
    type V = ExprV;

    open spec fn view(&self) -> ExprV {
        expr_view(*self)
    }
}

/// Total syntactic size (number of AST nodes).
pub open spec fn expr_size(e: ExprV) -> nat
    decreases e,
{
    match e {
        ExprV::Sort(_) | ExprV::Var(_) | ExprV::Lit(_) | ExprV::Const(_, _) => 1,
        ExprV::App(f, a) => 1 + expr_size(*f) + expr_size(*a),
        ExprV::Lam(_, _, a, b) => 1 + expr_size(*a) + expr_size(*b),
        ExprV::Pi(_, _, a, b) => 1 + expr_size(*a) + expr_size(*b),
        ExprV::Let(_, t, v, b) => 1 + expr_size(*t) + expr_size(*v) + expr_size(*b),
    }
}

/// Number of `Pi` binders at the head of `e`.
pub open spec fn pi_arity_spec(e: ExprV) -> nat
    decreases e,
{
    match e {
        ExprV::Pi(_, _, _, cod) => 1 + pi_arity_spec(*cod),
        _ => 0,
    }
}

/// `f` applied to `args`, left-associated.
pub open spec fn apps_spec(f: ExprV, args: Seq<ExprV>) -> ExprV
    decreases args.len(),
{
    if args.len() == 0 {
        f
    } else {
        ExprV::App(Box::new(apps_spec(f, args.drop_last())), Box::new(args.last()))
    }
}

/// Copy a vector of levels.
pub fn clone_levels(ls: &Vec<Level>) -> (r: Vec<Level>)
    ensures
        r@ == ls@,
{
    let mut out: Vec<Level> = Vec::new();
    let n = ls.len();
    let mut i: usize = 0;
    while i < n
        invariant
            n == ls@.len(),
            i <= n,
            out@ == ls@.take(i as int),
        decreases n - i,
    {
        out.push(ls[i].deep_clone());
        assert(out@ =~= ls@.take(i + 1));
        i = i + 1;
    }
    assert(ls@.take(n as int) =~= ls@);
    out
}

/// Structural equality of two vectors of levels.
pub fn same_levels(a: &Vec<Level>, b: &Vec<Level>) -> (r: bool)
    ensures
        r == (a@ == b@),
{
    if a.len() != b.len() {
        return false;
    }
    let n = a.len();
    let mut i: usize = 0;
    while i < n
        invariant
            n == a@.len(),
            n == b@.len(),
            i <= n,
            forall|k: int| 0 <= k < i ==> a@[k] == b@[k],
        decreases n - i,
    {
        if !a[i].same(&b[i]) {
            return false;
        }
        i = i + 1;
    }
    assert(a@ =~= b@);
    true
}

impl Clone for Expr {
    fn clone(&self) -> (r: Self)
        ensures
            r@ == self@,
    {
        self.deep_clone()
    }
}

impl Expr {
    /// A structural copy of the expression.
    pub fn deep_clone(&self) -> (r: Expr)
        ensures
            r@ == self@,
        decreases self,
    {
        match self {
            Expr::Sort(l) => Expr::Sort(l.deep_clone()),
            Expr::Var(i) => Expr::Var(*i),
            Expr::Const(n, ls) => Expr::Const(*n, clone_levels(ls)),
            Expr::App(f, a) => Expr::App(Box::new(f.deep_clone()), Box::new(a.deep_clone())),
            Expr::Lam(i, n, a, b) => Expr::Lam(*i, *n, Box::new(a.deep_clone()), Box::new(b.deep_clone())),
            Expr::Pi(i, n, a, b) => Expr::Pi(*i, *n, Box::new(a.deep_clone()), Box::new(b.deep_clone())),
            Expr::Let(n, t, v, b) => Expr::Let(
                *n,
                Box::new(t.deep_clone()),
                Box::new(v.deep_clone()),
                Box::new(b.deep_clone()),
            ),
            Expr::Lit(l) => Expr::Lit(l.clone()),
        }
    }

    /// Structural equality.
    pub fn same(&self, other: &Expr) -> (r: bool)
        ensures
            r == (self@ == other@),
        decreases self,
    {
        match (self, other) {
            (Expr::Sort(a), Expr::Sort(b)) => a.same(b),
            (Expr::Var(a), Expr::Var(b)) => a.0 == b.0,
            (Expr::Const(n1, l1), Expr::Const(n2, l2)) => {
                if n1.0 != n2.0 {
                    return false;
                }
                same_levels(l1, l2)
            },
            (Expr::App(f1, a1), Expr::App(f2, a2)) => f1.same(f2) && a1.same(a2),
            (Expr::Lam(i1, n1, a1, b1), Expr::Lam(i2, n2, a2, b2)) => {
                *i1 == *i2 && n1.0 == n2.0 && a1.same(a2) && b1.same(b2)
            },
            (Expr::Pi(i1, n1, a1, b1), Expr::Pi(i2, n2, a2, b2)) => {
                *i1 == *i2 && n1.0 == n2.0 && a1.same(a2) && b1.same(b2)
            },
            (Expr::Let(n1, t1, v1, b1), Expr::Let(n2, t2, v2, b2)) => {
                n1.0 == n2.0 && t1.same(t2) && v1.same(v2) && b1.same(b2)
            },
            (Expr::Lit(a), Expr::Lit(b)) => a.same(b),
            _ => false,
        }
    }

    /// `Sort(Level::Zero)` — the impredicative sort `Prop`.
    pub fn prop() -> (r: Self)
        ensures
            r@ == ExprV::Sort(Level::Zero),
    {
        Expr::Sort(Level::Zero)
    }

    /// `Sort(Level::Zero.succ())` — the first predicative sort, `Type 0`.
    pub fn type0() -> (r: Self)
        ensures
            r@ == ExprV::Sort(Level::Succ(Box::new(Level::Zero))),
    {
        Expr::Sort(Level::Zero.succ())
    }

    /// `f a`.
    pub fn app(f: Expr, a: Expr) -> (r: Self)
        ensures
            r@ == ExprV::App(Box::new(f@), Box::new(a@)),
    {
        Expr::App(Box::new(f), Box::new(a))
    }

    /// `Π (_ : A). B` with `Default` binder info.
    pub fn arrow(a: Expr, b: Expr, name: NameId) -> (r: Self)
        ensures
            r@ == ExprV::Pi(BinderInfo::Default, name, Box::new(a@), Box::new(b@)),
    {
        Expr::Pi(BinderInfo::Default, name, Box::new(a), Box::new(b))
    }

    /// `λ (x : A). b` with `Default` binder info.
    pub fn lam(name: NameId, a: Expr, b: Expr) -> (r: Self)
        ensures
            r@ == ExprV::Lam(BinderInfo::Default, name, Box::new(a@), Box::new(b@)),
    {
        Expr::Lam(BinderInfo::Default, name, Box::new(a), Box::new(b))
    }

    /// Apply `self` to a sequence of arguments, left-associated.
    pub fn apps(self, args: Vec<Expr>) -> (r: Self)
        ensures
            r@ == apps_spec(self@, args@.map_values(|e: Expr| e@)),
    {
        let ghost f = self@;
        let ghost all = args@.map_values(|e: Expr| e@);
        let mut acc = self;
        let mut rest = args;
        let n = rest.len();
        let mut k: usize = 0;
        while k < n
            invariant
                n == all.len(),
                k <= n,
                rest@.len() == n - k,
                forall|j: int| 0 <= j < n - k ==> (#[trigger] rest@[j])@ == all[k + j],
                acc@ == apps_spec(f, all.take(k as int)),
            decreases n - k,
        {
            let ghost r0 = rest@;
            let x = rest.remove(0);
            assert(x@ == all[k as int]);
            assert(forall|j: int| 0 <= j < n - k - 1 ==> rest@[j] == r0[j + 1]);
            assert(all.take(k + 1).drop_last() =~= all.take(k as int));
            acc = Expr::App(Box::new(acc), Box::new(x));
            k = k + 1;
        }
        assert(all.take(n as int) =~= all);
        acc
    }

    /// Total syntactic size (number of AST nodes).
    pub fn size(&self) -> (r: usize)
        requires
            expr_size(self@) <= usize::MAX,
        ensures
            r == expr_size(self@),
        decreases self,
    {
        match self {
            Expr::Sort(_) | Expr::Var(_) | Expr::Lit(_) | Expr::Const(_, _) => 1,
            Expr::App(f, a) => 1 + f.size() + a.size(),
            Expr::Lam(_, _, a, b) => 1 + a.size() + b.size(),
            Expr::Pi(_, _, a, b) => 1 + a.size() + b.size(),
            Expr::Let(_, t, v, b) => 1 + t.size() + v.size() + b.size(),
        }
    }

    /// `true` iff the expression is a syntactic universe.
    pub fn is_sort(&self) -> (r: bool)
        ensures
            r == (*self is Sort),
    {
        match self {
            Expr::Sort(_) => true,
            _ => false,
        }
    }

    /// Number of `Pi` binders at the head of this expression.
    pub fn pi_arity(&self) -> (r: usize)
        requires
            expr_size(self@) <= usize::MAX,
        ensures
            r == pi_arity_spec(self@),
    {
        proof { lemma_pi_arity_bounded(self@); }
        self.pi_arity_rec()
    }

    fn pi_arity_rec(&self) -> (r: usize)
        requires
            pi_arity_spec(self@) <= usize::MAX,
        ensures
            r == pi_arity_spec(self@),
        decreases self,
    {
        match self {
            Expr::Pi(_, _, _, cod) => 1 + cod.pi_arity_rec(),
            _ => 0,
        }
    }
}

/// The Π-arity of an expression is below its size.
proof fn lemma_pi_arity_bounded(e: ExprV)
    ensures
        pi_arity_spec(e) <= expr_size(e),
    decreases e,
{
    if let ExprV::Pi(_, _, a, cod) = e {
        lemma_pi_arity_bounded(*cod);
    }
}

// ---------------------------------------------------------------------------
// Rendering
// ---------------------------------------------------------------------------

/// The text of a literal: a number in decimal, a string between double
/// quotes.
pub open spec fn lit_text(l: LitV) -> Seq<char> {
    match l {
        LitV::Nat(n) => decimal(n as nat),
        LitV::Str(s) => "\""@ + s + "\""@,
    }
}

/// The text of an expression, as diagnostics show it: `Sort(l)`, `#i` for
/// a variable, `c#n` for a constant, `(f a)` for an application,
/// `(fun A => b)`, `(Pi A -> B)` and `(let T := v; b)` for the binders.
pub open spec fn expr_text(e: ExprV) -> Seq<char>
    decreases e,
{
    match e {
        ExprV::Sort(l) => "Sort("@ + level_text(l) + ")"@,
        ExprV::Var(i) => hash_decimal(i.0 as nat),
        ExprV::Const(n, _) => "c"@ + hash_decimal(n.0 as nat),
        ExprV::App(f, a) => "("@ + expr_text(*f) + " "@ + expr_text(*a) + ")"@,
        ExprV::Lam(_, _, a, b) => "(fun "@ + expr_text(*a) + " => "@ + expr_text(*b) + ")"@,
        ExprV::Pi(_, _, a, b) => "(Pi "@ + expr_text(*a) + " -> "@ + expr_text(*b) + ")"@,
        ExprV::Let(_, t, v, b) => "(let "@ + expr_text(*t) + " := "@ + expr_text(*v) + "; "@
            + expr_text(*b) + ")"@,
        ExprV::Lit(l) => lit_text(l),
    }
}

/// Append the text of `e` to `s`.
pub fn push_expr(s: &mut String, e: &Expr)
    ensures
        final(s)@ == old(s)@ + expr_text(e@),
    decreases e,
{
    match e {
        Expr::Sort(l) => {
            s.append("Sort(");
            push_level(s, l);
            s.append(")");
        },
        Expr::Var(i) => {
            push_hash_decimal(s, i.0 as u64);
        },
        Expr::Const(n, _) => {
            s.append("c");
            push_hash_decimal(s, n.0 as u64);
        },
        Expr::App(f, a) => {
            s.append("(");
            push_expr(s, &**f);
            s.append(" ");
            push_expr(s, &**a);
            s.append(")");
        },
        Expr::Lam(_, _, a, b) => {
            s.append("(fun ");
            push_expr(s, &**a);
            s.append(" => ");
            push_expr(s, &**b);
            s.append(")");
        },
        Expr::Pi(_, _, a, b) => {
            s.append("(Pi ");
            push_expr(s, &**a);
            s.append(" -> ");
            push_expr(s, &**b);
            s.append(")");
        },
        Expr::Let(_, t, v, b) => {
            s.append("(let ");
            push_expr(s, &**t);
            s.append(" := ");
            push_expr(s, &**v);
            s.append("; ");
            push_expr(s, &**b);
            s.append(")");
        },
        Expr::Lit(Literal::Nat(n)) => {
            push_decimal(s, *n);
        },
        Expr::Lit(Literal::Str(t)) => {
            s.append("\"");
            s.append(t.as_str());
            s.append("\"");
        },
    }
    assert(final(s)@ =~= old(s)@ + expr_text(e@));
}

impl Expr {
    /// The text of the expression, as [`expr_text`] gives it.
    pub fn describe(&self) -> (r: String)
        ensures
            r@ == expr_text(self@),
    {
        let mut s = String::new();
        push_expr(&mut s, self);
        assert(s@ =~= expr_text(self@));
        s
    }
}

} // verus!
