//! Size-Change Termination (SCT) analysis.
//!
//! A recursive function is size-change terminating iff every infinite
//! sequence of recursive calls would force an infinite descent in some
//! well-founded value. For each call a size-change matrix records how the
//! callee's arguments relate to the caller's parameters; the closure of the
//! call graph under min-plus composition is computed, and every idempotent
//! loop matrix in it must carry a strict decrease on its diagonal.
//!
//! | Entry | Meaning |
//! |-------|---------|
//! | `Decrease` (-1) | the new argument is strictly smaller than the old one |
//! | `Equal` (0)     | the new argument is equal to or smaller than the old one |
//! | `Unknown` (∞)      | no relation |

use vstd::prelude::*;
use crate::expr::{DeBruijnIndex, Expr, ExprV};
use crate::name::NameId;
use crate::text::{decimal, hash_decimal, push_decimal, push_hash_decimal, string_of};
use vstd::string::StringExecFns;

verus! {

// ---------------------------------------------------------------------------
// Size-change matrix entries
// ---------------------------------------------------------------------------

/// A single entry in a size-change matrix, ordered `Decrease < Equal < Unknown`.
#[derive(Clone, Copy, Debug, PartialEq, Eq, Hash, Structural)]
pub enum Entry {
    /// The new argument is strictly smaller than the old argument.
    Decrease,
    /// The new argument is equal to or smaller than the old argument.
    Equal,
    /// No relation is known between the old and new arguments.
    Unknown,
}

/// The min-plus semiring addition: the smaller of two entries.
pub open spec fn entry_min(a: Entry, b: Entry) -> Entry {
    if a is Decrease || b is Decrease {
        Entry::Decrease
    } else if a is Equal || b is Equal {
        Entry::Equal
    } else {
        Entry::Unknown
    }
}

/// The min-plus semiring multiplication: `Unknown` absorbs, otherwise a
/// decrease on either side is a decrease.
pub open spec fn entry_add(a: Entry, b: Entry) -> Entry {
    if a is Unknown || b is Unknown {
        Entry::Unknown
    } else if a is Decrease || b is Decrease {
        Entry::Decrease
    } else {
        Entry::Equal
    }
}

/// The entries form a commutative semiring: `min` is associative,
/// commutative and idempotent with identity `Unknown`; `add` is associative
/// and commutative with identity `Equal` and absorbing element `Unknown`; and
/// `add` distributes over `min`.
pub proof fn lemma_entry_semiring(a: Entry, b: Entry, c: Entry)
    ensures
        entry_min(a, b) == entry_min(b, a),
        entry_min(a, entry_min(b, c)) == entry_min(entry_min(a, b), c),
        entry_min(a, a) == a,
        entry_min(a, Entry::Unknown) == a,
        entry_add(a, b) == entry_add(b, a),
        entry_add(a, entry_add(b, c)) == entry_add(entry_add(a, b), c),
        entry_add(a, Entry::Equal) == a,
        entry_add(a, Entry::Unknown) == Entry::Unknown,
        entry_add(a, entry_min(b, c)) == entry_min(entry_add(a, b), entry_add(a, c)),
{
}

impl Entry {
    /// The min-plus semiring addition (`min`).
    pub fn min(self, other: Self) -> (r: Self)
        ensures
            r == entry_min(self, other),
    {
        match (self, other) {
            (Entry::Decrease, _) | (_, Entry::Decrease) => Entry::Decrease,
            (Entry::Equal, _) | (_, Entry::Equal) => Entry::Equal,
            (Entry::Unknown, Entry::Unknown) => Entry::Unknown,
        }
    }

    /// The min-plus semiring multiplication (`+`), with `Unknown` absorbing.
    pub fn add(self, other: Self) -> (r: Self)
        ensures
            r == entry_add(self, other),
    {
        match (self, other) {
            (Entry::Unknown, _) | (_, Entry::Unknown) => Entry::Unknown,
            (Entry::Decrease, _) | (_, Entry::Decrease) => Entry::Decrease,
            (Entry::Equal, Entry::Equal) => Entry::Equal,
        }
    }

    /// `true` iff the entry is a strict decrease.
    pub fn is_decrease(self) -> (r: bool)
        ensures
            r == (self is Decrease),
    {
        match self {
            Entry::Decrease => true,
            _ => false,
        }
    }

    /// Numeric representation for diagnostics.
    pub fn to_i8(self) -> (r: i8)
        ensures
            r == match self {
                Entry::Decrease => -1i8,
                Entry::Equal => 0i8,
                Entry::Unknown => i8::MAX,
            },
    {
        match self {
            Entry::Decrease => -1,
            Entry::Equal => 0,
            Entry::Unknown => i8::MAX,
        }
    }
}

// ---------------------------------------------------------------------------
// SizeChangeMatrix
// ---------------------------------------------------------------------------

/// The abstract value of a size-change matrix: its dimensions and its
/// entries in row-major order.
pub struct MatrixV {
    /// Number of rows (source arity).
    pub rows: nat,
    /// Number of columns (target arity).
    pub cols: nat,
    /// Entries in row-major order.
    pub entries: Seq<Entry>,
}

/// `true` iff the entry sequence has exactly `rows × cols` elements.
pub open spec fn mat_wf(m: MatrixV) -> bool {
    m.entries.len() == m.rows * m.cols
}

/// The entry in row `i` and column `j`.
pub open spec fn mat_at(m: MatrixV, i: int, j: int) -> Entry {
    m.entries[i * m.cols + j]
}

/// `min` over `k' < k` of `a[i][k'] + b[k'][j]`, starting from `Unknown`.
pub open spec fn compose_entry(a: MatrixV, b: MatrixV, i: int, j: int, k: nat) -> Entry
    decreases k,
{
    if k == 0 {
        Entry::Unknown
    } else {
        entry_min(
            compose_entry(a, b, i, j, (k - 1) as nat),
            entry_add(mat_at(a, i, k - 1), mat_at(b, k - 1, j)),
        )
    }
}

/// The min-plus product `a ⊗ b`.
pub open spec fn compose_spec(a: MatrixV, b: MatrixV) -> MatrixV {
    MatrixV {
        rows: a.rows,
        cols: b.cols,
        entries: Seq::new(
            a.rows * b.cols,
            |x: int| compose_entry(a, b, x / (b.cols as int), x % (b.cols as int), a.cols),
        ),
    }
}

/// `true` iff `m` is square and `m ⊗ m = m`.
pub open spec fn idempotent(m: MatrixV) -> bool {
    m.rows == m.cols && compose_spec(m, m) == m
}

/// `true` iff some diagonal entry of the square matrix `m` is a decrease.
pub open spec fn diagonal_decrease(m: MatrixV) -> bool {
    m.rows == m.cols && exists|i: int| 0 <= i < m.rows && (#[trigger] mat_at(m, i, i)) is Decrease
}

/// Square `m` repeatedly until a fixed point of `M ↦ M ⊗ M` is reached,
/// checking at most `fuel + 1` squarings.
pub open spec fn square_fixpoint(m: MatrixV, fuel: nat) -> Option<MatrixV>
    decreases fuel,
{
    if compose_spec(m, m) == m {
        Some(m)
    } else if fuel == 0 {
        None
    } else {
        square_fixpoint(compose_spec(m, m), (fuel - 1) as nat)
    }
}

/// The larger of two sizes.
pub open spec fn max_i64(a: i64, b: i64) -> i64 {
    if a >= b { a } else { b }
}

/// The size an entry gives to `x`.
pub open spec fn entry_apply(e: Entry, x: i64) -> i64 {
    match e {
        Entry::Decrease => (x - 1) as i64,
        Entry::Equal => x,
        Entry::Unknown => i64::MIN,
    }
}

/// The largest of `entry_apply(m[i][j'], input[j'])` for `j' < j`, or
/// `i64::MIN` when there is none.
pub open spec fn row_max(m: MatrixV, input: Seq<i64>, i: int, j: nat) -> i64
    decreases j,
{
    if j == 0 {
        i64::MIN
    } else {
        max_i64(row_max(m, input, i, (j - 1) as nat), entry_apply(mat_at(m, i, j - 1), input[j - 1]))
    }
}

proof fn lemma_index_in_bounds(i: int, j: int, rows: int, cols: int)
    requires
        0 <= i < rows,
        0 <= j < cols,
    ensures
        0 <= i * cols + j < rows * cols,
{
    assert(0 <= i * cols + j < rows * cols) by (nonlinear_arith)
        requires
            0 <= i < rows,
            0 <= j < cols,
    ;
}

proof fn lemma_index_split(i: int, j: int, cols: int)
    requires
        0 <= i,
        0 <= j < cols,
    ensures
        (i * cols + j) / cols == i,
        (i * cols + j) % cols == j,
{
    vstd::arithmetic::div_mod::lemma_fundamental_div_mod_converse(i * cols + j, cols, i, j);
}

proof fn lemma_index_injective(i1: int, j1: int, i2: int, j2: int, cols: int)
    requires
        0 <= i1,
        0 <= i2,
        0 <= j1 < cols,
        0 <= j2 < cols,
        i1 * cols + j1 == i2 * cols + j2,
    ensures
        i1 == i2,
        j1 == j2,
{
    lemma_index_split(i1, j1, cols);
    lemma_index_split(i2, j2, cols);
}

/// At every position, the composite holds [`compose_entry`].
pub proof fn lemma_compose_at(a: MatrixV, b: MatrixV, i: int, j: int)
    requires
        0 <= i < a.rows,
        0 <= j < b.cols,
    ensures
        mat_wf(compose_spec(a, b)),
        mat_at(compose_spec(a, b), i, j) == compose_entry(a, b, i, j, a.cols),
{
    lemma_index_in_bounds(i, j, a.rows as int, b.cols as int);
    lemma_index_split(i, j, b.cols as int);
}

/// A size-change matrix: a `rows × cols` grid of [`Entry`] values.
#[derive(Debug, PartialEq, Eq, Hash)]
pub struct SizeChangeMatrix {
    rows: usize,
    cols: usize,
    entries: Vec<Entry>,
}

impl View for SizeChangeMatrix {
    type V = MatrixV;

    closed spec fn view(&self) -> MatrixV {
        MatrixV { rows: self.rows as nat, cols: self.cols as nat, entries: self.entries@ }
    }
}

impl Clone for SizeChangeMatrix {
    fn clone(&self) -> (r: Self)
        ensures
            r@ == self@,
    {
        let n = self.entries.len();
        let mut entries: Vec<Entry> = Vec::new();
        let mut k: usize = 0;
        while k < n
            invariant
                n == self.entries@.len(),
                k <= n,
                entries@ == self.entries@.take(k as int),
            decreases n - k,
        {
            entries.push(self.entries[k]);
            assert(entries@ =~= self.entries@.take(k + 1));
            k = k + 1;
        }
        assert(self.entries@.take(n as int) =~= self.entries@);
        SizeChangeMatrix { rows: self.rows, cols: self.cols, entries }
    }
}

impl SizeChangeMatrix {
    /// `true` iff the matrix holds exactly `rows × cols` entries.
    pub open spec fn wf(&self) -> bool {
        mat_wf(self@)
    }

    /// Build a matrix filled with `Entry::Unknown`.
    pub fn empty(rows: usize, cols: usize) -> (r: Self)
        requires
            rows * cols <= usize::MAX,
        ensures
            r.wf(),
            r@.rows == rows,
            r@.cols == cols,
            forall|i: int, j: int| 0 <= i < rows && 0 <= j < cols ==> #[trigger] mat_at(r@, i, j) == Entry::Unknown,
    {
        let n = rows * cols;
        let mut entries: Vec<Entry> = Vec::new();
        let mut k: usize = 0;
        while k < n
            invariant
                k <= n,
                entries@.len() == k,
                forall|x: int| 0 <= x < k ==> entries@[x] == Entry::Unknown,
            decreases n - k,
        {
            entries.push(Entry::Unknown);
            k = k + 1;
        }
        let r = SizeChangeMatrix { rows, cols, entries };
        assert forall|i: int, j: int| 0 <= i < rows && 0 <= j < cols implies #[trigger] mat_at(r@, i, j) == Entry::Unknown by {
            lemma_index_in_bounds(i, j, rows as int, cols as int);
        }
        r
    }

    /// Build the identity matrix on `n` arguments: `Equal` on the diagonal,
    /// `Unknown` elsewhere.
    pub fn identity(n: usize) -> (r: Self)
        requires
            n * n <= usize::MAX,
        ensures
            r.wf(),
            r@.rows == n,
            r@.cols == n,
            forall|i: int, j: int| 0 <= i < n && 0 <= j < n ==>
                #[trigger] mat_at(r@, i, j) == (if i == j { Entry::Equal } else { Entry::Unknown }),
            is_identity(r@, n as nat),
    {
        let mut m = Self::empty(n, n);
        let mut i: usize = 0;
        while i < n
            invariant
                i <= n,
                m.wf(),
                m@.rows == n,
                m@.cols == n,
                forall|a: int, b: int| 0 <= a < n && 0 <= b < n ==>
                    #[trigger] mat_at(m@, a, b) == (if a == b && a < i { Entry::Equal } else { Entry::Unknown }),
            decreases n - i,
        {
            m.set(i, i, Entry::Equal);
            i = i + 1;
        }
        m
    }

    /// Number of rows (source arity).
    pub fn rows(&self) -> (r: usize)
        ensures
            r == self@.rows,
    {
        self.rows
    }

    /// Number of columns (target arity).
    pub fn cols(&self) -> (r: usize)
        ensures
            r == self@.cols,
    {
        self.cols
    }

    /// `true` iff the matrix is square.
    pub fn is_square(&self) -> (r: bool)
        ensures
            r == (self@.rows == self@.cols),
    {
        self.rows == self.cols
    }

    /// Read the entry at `(i, j)`.
    pub fn get(&self, i: usize, j: usize) -> (r: Entry)
        requires
            self.wf(),
            i < self@.rows,
            j < self@.cols,
        ensures
            r == mat_at(self@, i as int, j as int),
    {
        proof { lemma_index_in_bounds(i as int, j as int, self.rows as int, self.cols as int); }
        let len = self.entries.len();
        assert(i * self.cols + j < len);
        self.entries[i * self.cols + j]
    }

    /// Set the entry at `(i, j)`, leaving every other entry unchanged.
    pub fn set(&mut self, i: usize, j: usize, e: Entry)
        requires
            old(self).wf(),
            i < old(self)@.rows,
            j < old(self)@.cols,
        ensures
            final(self).wf(),
            final(self)@.rows == old(self)@.rows,
            final(self)@.cols == old(self)@.cols,
            forall|a: int, b: int| 0 <= a < old(self)@.rows && 0 <= b < old(self)@.cols ==>
                #[trigger] mat_at(final(self)@, a, b) == (if a == i && b == j { e } else { mat_at(old(self)@, a, b) }),
    {
        proof { lemma_index_in_bounds(i as int, j as int, self.rows as int, self.cols as int); }
        let len = self.entries.len();
        assert(i * self.cols + j < len);
        let ghost before = self@;
        let idx = i * self.cols + j;
        self.entries.set(idx, e);
        proof {
            assert forall|a: int, b: int| 0 <= a < before.rows && 0 <= b < before.cols implies
                #[trigger] mat_at(self@, a, b) == (if a == i && b == j { e } else { mat_at(before, a, b) }) by {
                lemma_index_in_bounds(a, b, before.rows as int, before.cols as int);
                if a * before.cols + b == idx {
                    lemma_index_injective(a, b, i as int, j as int, before.cols as int);
                }
            }
        }
    }

    /// Structural equality of two matrices.
    pub fn same(&self, other: &SizeChangeMatrix) -> (r: bool)
        ensures
            r == (self@ == other@),
    {
        if self.rows != other.rows || self.cols != other.cols || self.entries.len() != other.entries.len() {
            return false;
        }
        let n = self.entries.len();
        let mut k: usize = 0;
        while k < n
            invariant
                n == self.entries@.len(),
                n == other.entries@.len(),
                k <= n,
                forall|x: int| 0 <= x < k ==> self.entries@[x] == other.entries@[x],
            decreases n - k,
        {
            if self.entries[k] != other.entries[k] {
                return false;
            }
            k = k + 1;
        }
        assert(self.entries@ =~= other.entries@);
        true
    }

    /// Compose two matrices: `self ⊗ other`, the min-plus product.
    pub fn compose(&self, other: &SizeChangeMatrix) -> (r: SizeChangeMatrix)
        requires
            self.wf(),
            other.wf(),
            self@.cols == other@.rows,
            self@.rows * other@.cols <= usize::MAX,
        ensures
            r.wf(),
            r@ == compose_spec(self@, other@),
    {
        let rows = self.rows;
        let cols = other.cols;
        let inner = self.cols;
        let ghost a = self@;
        let ghost b = other@;
        let mut entries: Vec<Entry> = Vec::new();
        let mut i: usize = 0;
        while i < rows
            invariant
                rows == a.rows,
                cols == b.cols,
                inner == a.cols,
                a == self@,
                b == other@,
                self.wf(),
                other.wf(),
                inner == b.rows,
                rows * cols <= usize::MAX,
                i <= rows,
                entries@.len() == i * cols,
                forall|x: int| 0 <= x < entries@.len() ==>
                    #[trigger] entries@[x] == compose_entry(a, b, x / (cols as int), x % (cols as int), a.cols),
            decreases rows - i,
        {
            let mut j: usize = 0;
            while j < cols
                invariant
                    rows == a.rows,
                    cols == b.cols,
                    inner == a.cols,
                    a == self@,
                    b == other@,
                    self.wf(),
                    other.wf(),
                    inner == b.rows,
                    rows * cols <= usize::MAX,
                    i < rows,
                    j <= cols,
                    entries@.len() == i * cols + j,
                    forall|x: int| 0 <= x < entries@.len() ==>
                        #[trigger] entries@[x] == compose_entry(a, b, x / (cols as int), x % (cols as int), a.cols),
                decreases cols - j,
            {
                let mut acc = Entry::Unknown;
                let mut k: usize = 0;
                while k < inner
                    invariant
                        inner == a.cols,
                        inner == b.rows,
                        a == self@,
                        b == other@,
                        self.wf(),
                        other.wf(),
                        i < a.rows,
                        j < b.cols,
                        k <= inner,
                        acc == compose_entry(a, b, i as int, j as int, k as nat),
                    decreases inner - k,
                {
                    let x = self.get(i, k);
                    let y = other.get(k, j);
                    acc = acc.min(x.add(y));
                    k = k + 1;
                }
                proof {
                    lemma_index_in_bounds(i as int, j as int, rows as int, cols as int);
                    lemma_index_split(i as int, j as int, cols as int);
                }
                entries.push(acc);
                j = j + 1;
            }
            proof {
                assert((i + 1) * cols == i * cols + cols) by (nonlinear_arith);
            }
            i = i + 1;
        }
        let r = SizeChangeMatrix { rows, cols, entries };
        assert(r@.entries =~= compose_spec(a, b).entries);
        r
    }

    /// Iterate the squaring map `M ↦ M ⊗ M`, returning the first iterate
    /// that is a fixed point, or `None` if none is found within `fuel + 1`
    /// squarings.
    pub fn idempotent_closure_with_fuel(&self, fuel: usize) -> (r: Option<SizeChangeMatrix>)
        requires
            self.wf(),
            self@.rows == self@.cols,
        ensures
            match r {
                Some(m) => Some(m@) == square_fixpoint(self@, fuel as nat) && m.wf(),
                None => square_fixpoint(self@, fuel as nat) is None,
            },
    {
        let mut current = self.clone();
        let mut left: usize = fuel;
        loop
            invariant
                current.wf(),
                current@.rows == current@.cols,
                current@.rows == self@.rows,
                square_fixpoint(current@, left as nat) == square_fixpoint(self@, fuel as nat),
            decreases left,
        {
            let len = current.entries.len();
            assert(current@.rows * current@.cols <= usize::MAX);
            let next = current.compose(&current);
            if next.same(&current) {
                return Some(current);
            }
            if left == 0 {
                return None;
            }
            current = next;
            left = left - 1;
        }
    }

    /// [`Self::idempotent_closure_with_fuel`] with a budget of
    /// `rows² + 8` squarings (saturating).
    pub fn idempotent_closure(&self) -> (r: SizeChangeMatrix)
        requires
            self.wf(),
            self@.rows == self@.cols,
            square_fixpoint(self@, closure_budget(self@.rows)) is Some,
        ensures
            Some(r@) == square_fixpoint(self@, closure_budget(self@.rows)),
    {
        let sq = match self.rows.checked_mul(self.rows) {
            Some(x) => x,
            None => usize::MAX,
        };
        let fuel = match sq.checked_add(8) {
            Some(x) => x,
            None => usize::MAX,
        };
        match self.idempotent_closure_with_fuel(fuel) {
            Some(m) => m,
            None => {
                proof { assert(false); }
                self.clone()
            },
        }
    }

    /// `true` iff the matrix is square with a strict decrease on its diagonal.
    pub fn has_diagonal_decrease(&self) -> (r: bool)
        requires
            self.wf(),
        ensures
            r == diagonal_decrease(self@),
    {
        if !self.is_square() {
            return false;
        }
        let n = self.rows;
        let mut i: usize = 0;
        while i < n
            invariant
                self.wf(),
                n == self@.rows,
                n == self@.cols,
                i <= n,
                forall|k: int| 0 <= k < i ==> !(#[trigger] mat_at(self@, k, k) is Decrease),
            decreases n - i,
        {
            if self.get(i, i).is_decrease() {
                return true;
            }
            i = i + 1;
        }
        false
    }

    /// Apply the matrix to a vector of "size" values: entry `i` of the result
    /// is the largest size that row `i` allows, `i64::MIN` if none.
    pub fn apply(&self, input: &[i64]) -> (r: Vec<i64>)
        requires
            self.wf(),
            input@.len() == self@.cols,
            forall|j: int| 0 <= j < input@.len() ==> input@[j] > i64::MIN,
        ensures
            r@.len() == self@.rows,
            forall|i: int| 0 <= i < self@.rows ==> #[trigger] r@[i] == row_max(self@, input@, i, self@.cols),
    {
        let mut out: Vec<i64> = Vec::new();
        let mut i: usize = 0;
        while i < self.rows
            invariant
                self.wf(),
                input@.len() == self@.cols,
                forall|j: int| 0 <= j < input@.len() ==> input@[j] > i64::MIN,
                i <= self@.rows,
                out@.len() == i,
                forall|k: int| 0 <= k < i ==> #[trigger] out@[k] == row_max(self@, input@, k, self@.cols),
            decreases self@.rows - i,
        {
            let mut best: i64 = i64::MIN;
            let mut j: usize = 0;
            while j < self.cols
                invariant
                    self.wf(),
                    input@.len() == self@.cols,
                    forall|j: int| 0 <= j < input@.len() ==> input@[j] > i64::MIN,
                    i < self@.rows,
                    j <= self@.cols,
                    best == row_max(self@, input@, i as int, j as nat),
                decreases self@.cols - j,
            {
                let v = match self.get(i, j) {
                    Entry::Decrease => input[j] - 1,
                    Entry::Equal => input[j],
                    Entry::Unknown => i64::MIN,
                };
                if v > best {
                    best = v;
                }
                j = j + 1;
            }
            out.push(best);
            i = i + 1;
        }
        out
    }
}

/// The squaring budget of [`SizeChangeMatrix::idempotent_closure`].
pub open spec fn closure_budget(rows: nat) -> nat {
    let sq = rows * rows;
    let sq_sat: nat = if sq > usize::MAX { usize::MAX as nat } else { sq };
    if sq_sat + 8 > usize::MAX { usize::MAX as nat } else { sq_sat + 8 }
}

// ---------------------------------------------------------------------------
// Call graph
// ---------------------------------------------------------------------------

/// A single recursive call edge in the call graph.
#[derive(Debug)]
pub struct CallEdge {
    /// The source function.
    pub source: NameId,
    /// The target function.
    pub target: NameId,
    /// The size-change matrix for this call.
    pub matrix: SizeChangeMatrix,
}

/// The abstract value of an edge: source, target and matrix.
pub struct EdgeV {
    /// The source function.
    pub source: NameId,
    /// The target function.
    pub target: NameId,
    /// The size-change matrix.
    pub matrix: MatrixV,
}

impl View for CallEdge {
    type V = EdgeV;

    open spec fn view(&self) -> EdgeV {
        EdgeV { source: self.source, target: self.target, matrix: self.matrix@ }
    }
}

impl Clone for CallEdge {
    fn clone(&self) -> (r: Self)
        ensures
            r@ == self@,
    {
        CallEdge { source: self.source, target: self.target, matrix: self.matrix.clone() }
    }
}

/// The abstract values of a sequence of edges.
pub open spec fn edges_view(s: Seq<CallEdge>) -> Seq<EdgeV> {
    s.map_values(|e: CallEdge| e@)
}

/// The arity registered last for `name` in `arities`, if any: a later
/// registration of the same name overrides an earlier one.
pub open spec fn arity_of(arities: Seq<(NameId, usize)>, name: NameId) -> Option<usize>
    decreases arities.len(),
{
    if arities.len() == 0 {
        None
    } else if arities.last().0 == name {
        Some(arities.last().1)
    } else {
        arity_of(arities.drop_last(), name)
    }
}

/// A call graph for a (possibly mutually recursive) block of functions.
#[derive(Debug)]
pub struct CallGraph {
    /// The functions in the block, in declaration order.
    pub functions: Vec<NameId>,
    /// The registered arities, in registration order; the last
    /// registration of a name is its arity.
    pub arities: Vec<(NameId, usize)>,
    /// The call edges.
    pub edges: Vec<CallEdge>,
}

/// Look up the last registration of `name`.
fn lookup_arity(arities: &Vec<(NameId, usize)>, name: NameId) -> (r: Option<usize>)
    ensures
        r == arity_of(arities@, name),
{
    let mut k: usize = arities.len();
    assert(arities@.take(k as int) =~= arities@);
    while k > 0
        invariant
            k <= arities@.len(),
            arity_of(arities@, name) == arity_of(arities@.take(k as int), name),
        decreases k,
    {
        let ghost pre = arities@.take(k as int);
        assert(pre.drop_last() =~= arities@.take(k - 1));
        if arities[k - 1].0 == name {
            return Some(arities[k - 1].1);
        }
        k = k - 1;
    }
    None
}

impl CallGraph {
    /// `true` iff every edge matrix is well formed.
    pub open spec fn wf(&self) -> bool {
        forall|k: int| 0 <= k < self.edges@.len() ==> (#[trigger] self.edges@[k]).matrix.wf()
    }

    /// Create an empty call graph.
    pub fn new() -> (r: Self)
        ensures
            r.functions@ == Seq::<NameId>::empty(),
            r.arities@ == Seq::<(NameId, usize)>::empty(),
            r.edges@ == Seq::<CallEdge>::empty(),
    {
        CallGraph { functions: Vec::new(), arities: Vec::new(), edges: Vec::new() }
    }

    /// Register a function with its arity.
    pub fn add_function(&mut self, name: NameId, arity: usize)
        ensures
            final(self).functions@ == old(self).functions@.push(name),
            final(self).arities@ == old(self).arities@.push((name, arity)),
            final(self).edges@ == old(self).edges@,
    {
        self.functions.push(name);
        self.arities.push((name, arity));
    }

    /// Add a call edge.
    pub fn add_edge(&mut self, source: NameId, target: NameId, matrix: SizeChangeMatrix)
        ensures
            final(self).functions@ == old(self).functions@,
            final(self).arities@ == old(self).arities@,
            final(self).edges@ == old(self).edges@.push(CallEdge { source, target, matrix }),
    {
        self.edges.push(CallEdge { source, target, matrix });
    }

    /// The arity of a function, or `None` if it is not in this graph.
    pub fn arity(&self, name: NameId) -> (r: Option<usize>)
        ensures
            r == arity_of(self.arities@, name),
    {
        lookup_arity(&self.arities, name)
    }

    /// All edges whose source is `name`, in order.
    pub fn edges_from(&self, name: NameId) -> (r: Vec<CallEdge>)
        ensures
            edges_view(r@) == edges_view(self.edges@).filter(|e: EdgeV| e.source == name),
    {
        let ghost all = edges_view(self.edges@);
        let ghost pred = |e: EdgeV| e.source == name;
        let mut out: Vec<CallEdge> = Vec::new();
        let n = self.edges.len();
        let mut k: usize = 0;
        while k < n
            invariant
                n == self.edges@.len(),
                all == edges_view(self.edges@),
                pred == (|e: EdgeV| e.source == name),
                k <= n,
                edges_view(out@) == all.take(k as int).filter(pred),
            decreases n - k,
        {
            proof {
                assert(all.take(k + 1) =~= all.take(k as int).push(all[k as int]));
                all.take(k as int).lemma_filter_push(all[k as int], pred);
            }
            if self.edges[k].source == name {
                out.push(self.edges[k].clone());
                assert(edges_view(out@) =~= all.take(k + 1).filter(pred));
            } else {
                assert(edges_view(out@) =~= all.take(k + 1).filter(pred));
            }
            k = k + 1;
        }
        assert(all.take(n as int) =~= all);
        out
    }
}

// ---------------------------------------------------------------------------
// Termination certificate and errors
// ---------------------------------------------------------------------------

/// A certified witness that a call graph satisfies the SCT condition.
#[derive(Clone, Debug)]
pub struct TerminationCertificate {
    /// The function the certificate is about (for a mutual block, the
    /// representative).
    pub function: NameId,
    /// The number of functions in the block.
    pub block_size: usize,
    /// The size of the closure (number of matrices).
    pub closure_size: usize,
    /// One witness per idempotent matrix in the closure: the matrix index
    /// and the diagonal index at which a strict decrease occurs.
    pub witnesses: Vec<(usize, usize)>,
}

/// The one-line summary of a certificate.
pub open spec fn certificate_summary(
    function: NameId,
    block_size: usize,
    closure_size: usize,
    witnesses: nat,
) -> Seq<char> {
    "SCT certificate for "@ + hash_decimal(function.0 as nat) + ": block of "@
        + decimal(block_size as nat) + ", closure of "@ + decimal(closure_size as nat)
        + " matrices, "@ + decimal(witnesses) + " witnesses"@
}

impl TerminationCertificate {
    /// Render a one-line summary of the certificate.
    pub fn summary(&self) -> (r: String)
        ensures
            r@ == certificate_summary(
                self.function,
                self.block_size,
                self.closure_size,
                self.witnesses@.len(),
            ),
    {
        let mut s = string_of("SCT certificate for ");
        push_hash_decimal(&mut s, self.function.0 as u64);
        s.append(": block of ");
        push_decimal(&mut s, self.block_size as u64);
        s.append(", closure of ");
        push_decimal(&mut s, self.closure_size as u64);
        s.append(" matrices, ");
        push_decimal(&mut s, self.witnesses.len() as u64);
        s.append(" witnesses");
        s
    }
}

/// Errors produced by the termination checker.
#[derive(Debug)]
pub enum TerminationError {
    /// A function's arity is unknown.
    UnknownFunction(NameId),
    /// A call edge references a function not in the graph, or its matrix
    /// does not match the arities of its ends.
    UnknownCallee {
        /// The source of the offending edge.
        source: NameId,
        /// The unknown callee.
        target: NameId,
    },
    /// The SCT condition failed: an idempotent matrix lacks a diagonal
    /// decrease.
    NotSizeChangeTerminating {
        /// The function whose call graph failed.
        function: NameId,
        /// The offending idempotent matrix.
        matrix: SizeChangeMatrix,
    },
    /// The call graph contains no edges.
    EmptyCallGraph,
}

/// The abstract value of a [`TerminationError`].
pub enum TerminationErrorV {
    /// See [`TerminationError::UnknownFunction`].
    UnknownFunction(NameId),
    /// See [`TerminationError::UnknownCallee`].
    UnknownCallee { source: NameId, target: NameId },
    /// See [`TerminationError::NotSizeChangeTerminating`].
    NotSizeChangeTerminating { function: NameId, matrix: MatrixV },
    /// See [`TerminationError::EmptyCallGraph`].
    EmptyCallGraph,
}

impl View for TerminationError {
    type V = TerminationErrorV;

    open spec fn view(&self) -> TerminationErrorV {
        match self {
            TerminationError::UnknownFunction(n) => TerminationErrorV::UnknownFunction(*n),
            TerminationError::UnknownCallee { source, target } => TerminationErrorV::UnknownCallee {
                source: *source,
                target: *target,
            },
            TerminationError::NotSizeChangeTerminating { function, matrix } => {
                TerminationErrorV::NotSizeChangeTerminating { function: *function, matrix: matrix@ }
            },
            TerminationError::EmptyCallGraph => TerminationErrorV::EmptyCallGraph,
        }
    }
}

impl Clone for TerminationError {
    fn clone(&self) -> (r: Self)
        ensures
            r@ == self@,
    {
        match self {
            TerminationError::UnknownFunction(n) => TerminationError::UnknownFunction(*n),
            TerminationError::UnknownCallee { source, target } => TerminationError::UnknownCallee {
                source: *source,
                target: *target,
            },
            TerminationError::NotSizeChangeTerminating { function, matrix } => {
                TerminationError::NotSizeChangeTerminating { function: *function, matrix: matrix.clone() }
            },
            TerminationError::EmptyCallGraph => TerminationError::EmptyCallGraph,
        }
    }
}

// ---------------------------------------------------------------------------
// The closure of a set of matrices
// ---------------------------------------------------------------------------

/// `true` iff `t` contains every matrix of `ms` and is closed under the
/// composition of matrices whose dimensions line up.
pub open spec fn closed_superset(t: Set<MatrixV>, ms: Seq<MatrixV>) -> bool {
    &&& forall|k: int| 0 <= k < ms.len() ==> t.contains(#[trigger] ms[k])
    &&& forall|a: MatrixV, b: MatrixV|
        #![trigger t.contains(a), t.contains(b)]
        t.contains(a) && t.contains(b) && a.cols == b.rows ==> t.contains(compose_spec(a, b))
}

/// `true` iff `m` is in the SCT closure of `ms`: the least set that holds
/// every matrix of `ms` and is closed under composition.
pub open spec fn in_closure(ms: Seq<MatrixV>, m: MatrixV) -> bool {
    forall|t: Set<MatrixV>| #[trigger] closed_superset(t, ms) ==> t.contains(m)
}

/// The size-change condition: every idempotent matrix of the closure has a
/// strict decrease on its diagonal.
pub open spec fn size_change_terminating(ms: Seq<MatrixV>) -> bool {
    forall|m: MatrixV| #[trigger] in_closure(ms, m) && idempotent(m) ==> diagonal_decrease(m)
}

/// The SCT closure of `ms`, as a set.
pub open spec fn closure_set(ms: Seq<MatrixV>) -> Set<MatrixV> {
    Set::new(|m: MatrixV| in_closure(ms, m))
}

/// `d` is the first diagonal position of `m` that holds a strict decrease.
pub open spec fn first_decrease_at(m: MatrixV, d: int) -> bool {
    &&& 0 <= d < m.rows
    &&& mat_at(m, d, d) is Decrease
    &&& forall|k: int| 0 <= k < d ==> !(#[trigger] mat_at(m, k, k) is Decrease)
}

/// The positions of the idempotent matrices among the first `k` of `s`.
pub open spec fn idempotent_positions(s: Seq<MatrixV>, k: int) -> Seq<int>
    decreases k,
{
    if k <= 0 {
        Seq::empty()
    } else if idempotent(s[k - 1]) {
        idempotent_positions(s, k - 1).push(k - 1)
    } else {
        idempotent_positions(s, k - 1)
    }
}

/// `witnesses` holds, for each idempotent matrix of `s` in order, its
/// position in `s` and its first diagonal decrease.
pub open spec fn witnesses_for(s: Seq<MatrixV>, witnesses: Seq<(usize, usize)>) -> bool {
    let p = idempotent_positions(s, s.len() as int);
    &&& witnesses.len() == p.len()
    &&& forall|w: int|
        0 <= w < witnesses.len() ==> (#[trigger] witnesses[w]).0 == p[w] && first_decrease_at(
            s[p[w]],
            witnesses[w].1 as int,
        )
}

/// The matrices of a sequence of edges.
pub open spec fn edge_matrices(edges: Seq<EdgeV>) -> Seq<MatrixV> {
    edges.map_values(|e: EdgeV| e.matrix)
}

/// What is wrong with a single edge, given the registered arities.
pub open spec fn edge_problem(arities: Seq<(NameId, usize)>, e: EdgeV) -> Option<TerminationErrorV> {
    if arity_of(arities, e.source) is None || arity_of(arities, e.target) is None {
        Some(TerminationErrorV::UnknownCallee { source: e.source, target: e.target })
    } else if e.matrix.rows != arity_of(arities, e.source)->0 || e.matrix.cols != arity_of(
        arities,
        e.target,
    )->0 {
        Some(TerminationErrorV::UnknownCallee { source: e.source, target: e.target })
    } else {
        None
    }
}

/// The problem of the first faulty edge at or after position `k`.
pub open spec fn first_problem(arities: Seq<(NameId, usize)>, edges: Seq<EdgeV>, k: int) -> Option<TerminationErrorV>
    decreases edges.len() - k,
{
    if k < 0 || k >= edges.len() {
        None
    } else if edge_problem(arities, edges[k]) is Some {
        edge_problem(arities, edges[k])
    } else {
        first_problem(arities, edges, k + 1)
    }
}

/// The first registered function, or `NameId(0)` for an empty block.
pub open spec fn representative(functions: Seq<NameId>) -> NameId {
    if functions.len() == 0 { NameId(0) } else { functions[0] }
}

/// `true` iff every matrix of `s` is the matrix of an edge or the
/// composite of two matrices that come before it.
#[verifier::opaque]
pub open spec fn derivable(s: Seq<MatrixV>, ms: Seq<MatrixV>) -> bool {
    forall|k: int|
        0 <= k < s.len() ==> ms.contains(#[trigger] s[k]) || exists|i: int, j: int|
            0 <= i < k && 0 <= j < k && s[i].cols == s[j].rows && s[k] == compose_spec(s[i], s[j])
}

/// Every matrix of a derivable sequence is in the closure.
proof fn lemma_derivable_in_closure(s: Seq<MatrixV>, ms: Seq<MatrixV>, t: Set<MatrixV>, k: int)
    requires
        derivable(s, ms),
        closed_superset(t, ms),
        0 <= k < s.len(),
    ensures
        t.contains(s[k]),
    decreases k,
{
    reveal(derivable);
    if ms.contains(s[k]) {
        let x = choose|x: int| 0 <= x < ms.len() && ms[x] == s[k];
        assert(t.contains(ms[x]));
    } else {
        let (i, j) = choose|i: int, j: int|
            0 <= i < k && 0 <= j < k && s[i].cols == s[j].rows && s[k] == compose_spec(s[i], s[j]);
        lemma_derivable_in_closure(s, ms, t, i);
        lemma_derivable_in_closure(s, ms, t, j);
    }
}

/// The closure is exactly the set of a derivable, closed sequence that holds
/// every edge matrix.
pub proof fn lemma_closure_exact(s: Seq<MatrixV>, ms: Seq<MatrixV>, m: MatrixV)
    requires
        derivable(s, ms),
        closed_superset(s.to_set(), ms),
    ensures
        in_closure(ms, m) <==> s.contains(m),
{
    if in_closure(ms, m) {
        assert(closed_superset(s.to_set(), ms));
        assert(s.to_set().contains(m));
    }
    if s.contains(m) {
        let k = choose|k: int| 0 <= k < s.len() && s[k] == m;
        assert forall|t: Set<MatrixV>| #[trigger] closed_superset(t, ms) implies t.contains(m) by {
            lemma_derivable_in_closure(s, ms, t, k);
        }
    }
}

/// The abstract values of a sequence of matrices.
pub open spec fn matrices_view(s: Seq<SizeChangeMatrix>) -> Seq<MatrixV> {
    s.map_values(|m: SizeChangeMatrix| m@)
}

/// The row counts of `ms`.
pub open spec fn rows_of(ms: Seq<MatrixV>) -> Seq<nat> {
    ms.map_values(|m: MatrixV| m.rows)
}

/// The column counts of `ms`.
pub open spec fn cols_of(ms: Seq<MatrixV>) -> Seq<nat> {
    ms.map_values(|m: MatrixV| m.cols)
}

/// Every row count in `s` is a row count of `ms`, and every column count a
/// column count of `ms`.
#[verifier::opaque]
pub open spec fn dims_from(s: Seq<MatrixV>, ms: Seq<MatrixV>) -> bool {
    forall|k: int|
        0 <= k < s.len() ==> rows_of(ms).contains(#[trigger] s[k].rows) && cols_of(ms).contains(s[k].cols)
}

/// No composite of the matrices of `ms` has more than `usize::MAX` entries.
pub open spec fn dims_bounded(ms: Seq<MatrixV>) -> bool {
    forall|i: int, j: int| 0 <= i < ms.len() && 0 <= j < ms.len() ==> #[trigger] ms[i].rows * #[trigger] ms[j].cols <= usize::MAX
}

proof fn lemma_contains_push<A>(s: Seq<A>, x: A, m: A)
    requires
        s.contains(m),
    ensures
        s.push(x).contains(m),
{
    let k = choose|k: int| 0 <= k < s.len() && s[k] == m;
    assert(s.push(x)[k] == m);
}

/// `true` iff `v` holds a matrix equal to `m`.
fn contains_matrix(v: &Vec<SizeChangeMatrix>, m: &SizeChangeMatrix) -> (r: bool)
    ensures
        r == matrices_view(v@).contains(m@),
{
    let n = v.len();
    let mut k: usize = 0;
    while k < n
        invariant
            n == v@.len(),
            k <= n,
            forall|i: int| 0 <= i < k ==> v@[i]@ != m@,
        decreases n - k,
    {
        if v[k].same(m) {
            assert(matrices_view(v@)[k as int] == m@);
            return true;
        }
        k = k + 1;
    }
    false
}

/// `true` iff every matrix of `v` is well formed.
pub open spec fn all_wf(v: Seq<SizeChangeMatrix>) -> bool {
    forall|k: int| 0 <= k < v.len() ==> (#[trigger] v[k]).wf()
}

// ---------------------------------------------------------------------------
// TerminationChecker
// ---------------------------------------------------------------------------

/// The SCT termination checker.
#[derive(Debug)]
pub struct TerminationChecker;

/// `true` iff `v` holds every edge matrix of `ms` once, has no duplicate,
/// every matrix in it is derivable from `ms`, and its dimensions are those
/// of `ms`.
pub open spec fn closure_progress(v: Seq<MatrixV>, ms: Seq<MatrixV>) -> bool {
    &&& forall|k: int| 0 <= k < ms.len() ==> v.contains(#[trigger] ms[k])
    &&& v.no_duplicates()
    &&& derivable(v, ms)
    &&& dims_from(v, ms)
}

proof fn lemma_contains_prefix<A>(s: Seq<A>, t: Seq<A>, m: A)
    requires
        s.len() <= t.len(),
        t.take(s.len() as int) == s,
        s.contains(m),
    ensures
        t.contains(m),
{
    let k = choose|k: int| 0 <= k < s.len() && s[k] == m;
    assert(t.take(s.len() as int)[k] == t[k]);
}

/// The distinct edge matrices of `graph`, in order of first appearance.
fn edge_matrix_copies(graph: &CallGraph) -> (r: Vec<SizeChangeMatrix>)
    requires
        graph.wf(),
    ensures
        all_wf(r@),
        closure_progress(matrices_view(r@), edge_matrices(edges_view(graph.edges@))),
{
    let ghost ms = edge_matrices(edges_view(graph.edges@));
    let mut out: Vec<SizeChangeMatrix> = Vec::new();
    let n = graph.edges.len();
    let mut k: usize = 0;
    while k < n
        invariant
            graph.wf(),
            n == graph.edges@.len(),
            ms == edge_matrices(edges_view(graph.edges@)),
            ms.len() == n,
            k <= n,
            all_wf(out@),
            matrices_view(out@).no_duplicates(),
            forall|j: int| 0 <= j < k ==> matrices_view(out@).contains(#[trigger] ms[j]),
            forall|i: int| 0 <= i < out@.len() ==> ms.contains(#[trigger] matrices_view(out@)[i]),
        decreases n - k,
    {
        assert(graph.edges@[k as int].matrix.wf());
        assert(edges_view(graph.edges@)[k as int] == graph.edges@[k as int]@);
        assert(ms[k as int] == graph.edges@[k as int].matrix@);
        let ghost before = matrices_view(out@);
        if !contains_matrix(&out, &graph.edges[k].matrix) {
            let c = graph.edges[k].matrix.clone();
            out.push(c);
            assert(matrices_view(out@) =~= before.push(c@));
            assert forall|j: int| 0 <= j < k + 1 implies matrices_view(out@).contains(#[trigger] ms[j]) by {
                if j < k {
                    lemma_contains_push(before, c@, ms[j]);
                } else {
                    assert(matrices_view(out@)[before.len() as int] == ms[j]);
                }
            }
            assert forall|i: int| 0 <= i < out@.len() implies ms.contains(#[trigger] matrices_view(out@)[i]) by {
                if i < before.len() {
                    assert(matrices_view(out@)[i] == before[i]);
                } else {
                    assert(ms[k as int] == c@);
                }
            }
        }
        k = k + 1;
    }
    proof {
        let v = matrices_view(out@);
        reveal(derivable);
        reveal(dims_from);
        assert forall|i: int| 0 <= i < v.len() implies rows_of(ms).contains(#[trigger] v[i].rows) && cols_of(ms).contains(v[i].cols) by {
            assert(ms.contains(v[i]));
            let x = choose|x: int| 0 <= x < ms.len() && ms[x] == v[i];
            assert(rows_of(ms)[x] == v[i].rows);
            assert(cols_of(ms)[x] == v[i].cols);
        }
    }
    out
}

/// The composite of two matrices of the closure fits in memory.
proof fn lemma_progress_dims(v: Seq<MatrixV>, ms: Seq<MatrixV>, a: int, b: int)
    requires
        closure_progress(v, ms),
        dims_bounded(ms),
        0 <= a < v.len(),
        0 <= b < v.len(),
    ensures
        v[a].rows * v[b].cols <= usize::MAX,
{
    reveal(dims_from);
    assert(rows_of(ms).contains(v[a].rows));
    assert(rows_of(ms).contains(v[b].rows));
    assert(cols_of(ms).contains(v[b].cols));
    let i1 = choose|i: int| 0 <= i < rows_of(ms).len() && rows_of(ms)[i] == v[a].rows;
    let j1 = choose|j: int| 0 <= j < cols_of(ms).len() && cols_of(ms)[j] == v[b].cols;
    assert(ms[i1].rows * ms[j1].cols <= usize::MAX);
}

proof fn lemma_derivable_push(v: Seq<MatrixV>, ms: Seq<MatrixV>, a: int, b: int)
    requires
        derivable(v, ms),
        0 <= a < v.len(),
        0 <= b < v.len(),
        v[a].cols == v[b].rows,
    ensures
        derivable(v.push(compose_spec(v[a], v[b])), ms),
{
    reveal(derivable);
    let after = v.push(compose_spec(v[a], v[b]));
    assert forall|k: int| 0 <= k < after.len() implies
        ms.contains(#[trigger] after[k]) || exists|i: int, j: int|
            0 <= i < k && 0 <= j < k && after[i].cols == after[j].rows
                && after[k] == compose_spec(after[i], after[j]) by {
        if k < v.len() {
            assert(after[k] == v[k]);
            if !ms.contains(after[k]) {
                let (i, j) = choose|i: int, j: int|
                    0 <= i < k && 0 <= j < k && v[i].cols == v[j].rows
                        && v[k] == compose_spec(v[i], v[j]);
                assert(after[i] == v[i] && after[j] == v[j]);
            }
        } else {
            assert(after[a] == v[a]);
            assert(after[b] == v[b]);
        }
    }
}

proof fn lemma_dims_push(v: Seq<MatrixV>, ms: Seq<MatrixV>, a: int, b: int)
    requires
        dims_from(v, ms),
        0 <= a < v.len(),
        0 <= b < v.len(),
    ensures
        dims_from(v.push(compose_spec(v[a], v[b])), ms),
{
    reveal(dims_from);
    let after = v.push(compose_spec(v[a], v[b]));
    assert forall|k: int| 0 <= k < after.len() implies rows_of(ms).contains(#[trigger] after[k].rows) && cols_of(ms).contains(after[k].cols) by {
        if k < v.len() {
            assert(after[k] == v[k]);
            assert(rows_of(ms).contains(v[k].rows));
        } else {
            assert(rows_of(ms).contains(v[a].rows));
            assert(rows_of(ms).contains(v[b].rows));
            assert(after[k].rows == v[a].rows);
            assert(after[k].cols == v[b].cols);
        }
    }
}

/// Appending the composite of two matrices of the closure keeps progress.
proof fn lemma_progress_push(v: Seq<MatrixV>, ms: Seq<MatrixV>, a: int, b: int)
    requires
        closure_progress(v, ms),
        0 <= a < v.len(),
        0 <= b < v.len(),
        v[a].cols == v[b].rows,
        !v.contains(compose_spec(v[a], v[b])),
    ensures
        closure_progress(v.push(compose_spec(v[a], v[b])), ms),
        v.push(compose_spec(v[a], v[b])).take(v.len() as int) == v,
{
    let after = v.push(compose_spec(v[a], v[b]));
    assert(after.take(v.len() as int) =~= v);
    assert forall|k: int| 0 <= k < ms.len() implies after.contains(#[trigger] ms[k]) by {
        lemma_contains_push(v, compose_spec(v[a], v[b]), ms[k]);
    }
    lemma_derivable_push(v, ms, a, b);
    lemma_dims_push(v, ms, a, b);
}

/// A sequence that makes progress and is closed under composition is the
/// closure, as a set.
proof fn lemma_progress_closed(v: Seq<MatrixV>, ms: Seq<MatrixV>)
    requires
        closure_progress(v, ms),
        forall|x: int, y: int|
            #![trigger v[x], v[y]]
            0 <= x < v.len() && 0 <= y < v.len() && v[x].cols == v[y].rows ==> v.contains(compose_spec(v[x], v[y])),
    ensures
        closed_superset(v.to_set(), ms),
{
    assert forall|k: int| 0 <= k < ms.len() implies v.to_set().contains(#[trigger] ms[k]) by {
        assert(v.contains(ms[k]));
    }
    assert forall|p: MatrixV, q: MatrixV|
        #![trigger v.to_set().contains(p), v.to_set().contains(q)]
        v.to_set().contains(p) && v.to_set().contains(q) && p.cols == q.rows implies
            v.to_set().contains(compose_spec(p, q)) by {
        let x = choose|x: int| 0 <= x < v.len() && v[x] == p;
        let y = choose|y: int| 0 <= y < v.len() && v[y] == q;
        assert(v[x] == p && v[y] == q);
    }
}

/// Add the composite of the matrices at `a` and `b` to `closure` when their
/// dimensions line up and it is not there yet.
fn add_composite(closure: &mut Vec<SizeChangeMatrix>, a: usize, b: usize, Ghost(ms): Ghost<Seq<MatrixV>>)
    requires
        all_wf(old(closure)@),
        closure_progress(matrices_view(old(closure)@), ms),
        dims_bounded(ms),
        a < old(closure)@.len(),
        b < old(closure)@.len(),
    ensures
        all_wf(final(closure)@),
        closure_progress(matrices_view(final(closure)@), ms),
        old(closure)@.len() <= final(closure)@.len() <= old(closure)@.len() + 1,
        matrices_view(final(closure)@).take(old(closure)@.len() as int) == matrices_view(old(closure)@),
        old(closure)@[a as int]@.cols == old(closure)@[b as int]@.rows ==> matrices_view(final(closure)@).contains(
            compose_spec(old(closure)@[a as int]@, old(closure)@[b as int]@),
        ),
{
    let ghost before = matrices_view(closure@);
    assert(before.take(before.len() as int) =~= before);
    assert(before[a as int] == closure@[a as int]@);
    assert(before[b as int] == closure@[b as int]@);
    assert(closure@[a as int].wf());
    assert(closure@[b as int].wf());
    if closure[a].cols() != closure[b].rows() {
        return;
    }
    proof { lemma_progress_dims(before, ms, a as int, b as int); }
    let composed = closure[a].compose(&closure[b]);
    if contains_matrix(closure, &composed) {
        return;
    }
    closure.push(composed);
    proof {
        lemma_progress_push(before, ms, a as int, b as int);
        assert(matrices_view(closure@) =~= before.push(composed@));
        assert(matrices_view(closure@)[before.len() as int] == composed@);
    }
}

/// One pass of the closure: add every new composite of two of the first
/// matrices, pair by pair in row-major order. Returns whether any matrix
/// was added.
fn closure_pass(closure: &mut Vec<SizeChangeMatrix>, Ghost(ms): Ghost<Seq<MatrixV>>) -> (changed: bool)
    requires
        all_wf(old(closure)@),
        closure_progress(matrices_view(old(closure)@), ms),
        dims_bounded(ms),
    ensures
        all_wf(final(closure)@),
        closure_progress(matrices_view(final(closure)@), ms),
        changed <==> old(closure)@.len() < final(closure)@.len(),
        !changed ==> closed_superset(matrices_view(final(closure)@).to_set(), ms),
{
    let snap = closure.len();
    let ghost start = matrices_view(closure@);
    assert(start.take(snap as int) =~= start);
    let mut a: usize = 0;
    while a < snap
        invariant
            dims_bounded(ms),
            all_wf(closure@),
            closure_progress(matrices_view(closure@), ms),
            snap == start.len(),
            snap <= closure@.len(),
            matrices_view(closure@).take(snap as int) == start,
            a <= snap,
            forall|x: int, y: int|
                #![trigger start[x], start[y]]
                0 <= x < a && 0 <= y < snap && start[x].cols == start[y].rows ==>
                    matrices_view(closure@).contains(compose_spec(start[x], start[y])),
        decreases snap - a,
    {
        let mut b: usize = 0;
        while b < snap
            invariant
                dims_bounded(ms),
                all_wf(closure@),
                closure_progress(matrices_view(closure@), ms),
                snap == start.len(),
                snap <= closure@.len(),
                matrices_view(closure@).take(snap as int) == start,
                a < snap,
                b <= snap,
                forall|x: int, y: int|
                    #![trigger start[x], start[y]]
                    0 <= x < a && 0 <= y < snap && start[x].cols == start[y].rows ==>
                        matrices_view(closure@).contains(compose_spec(start[x], start[y])),
                forall|y: int|
                    #![trigger start[y]]
                    0 <= y < b && start[a as int].cols == start[y].rows ==>
                        matrices_view(closure@).contains(compose_spec(start[a as int], start[y])),
            decreases snap - b,
        {
            let ghost before = matrices_view(closure@);
            assert(before.take(snap as int)[a as int] == before[a as int]);
            assert(before.take(snap as int)[b as int] == before[b as int]);
            add_composite(closure, a, b, Ghost(ms));
            proof {
                let after = matrices_view(closure@);
                assert(after.take(snap as int) =~= before.take(snap as int)) by {
                    assert(after.take(before.len() as int) == before);
                }
                assert forall|x: int, y: int|
                    #![trigger start[x], start[y]]
                    0 <= x < a && 0 <= y < snap && start[x].cols == start[y].rows implies
                        after.contains(compose_spec(start[x], start[y])) by {
                    lemma_contains_prefix(before, after, compose_spec(start[x], start[y]));
                }
                assert forall|y: int|
                    #![trigger start[y]]
                    0 <= y < b + 1 && start[a as int].cols == start[y].rows implies
                        after.contains(compose_spec(start[a as int], start[y])) by {
                    if y < b {
                        lemma_contains_prefix(before, after, compose_spec(start[a as int], start[y]));
                    }
                }
            }
            b = b + 1;
        }
        a = a + 1;
    }
    let changed = closure.len() != snap;
    if !changed {
        proof {
            let v = matrices_view(closure@);
            assert(v =~= start);
            lemma_progress_closed(v, ms);
        }
    }
    changed
}

/// The transitive closure of the call graph under min-plus composition:
/// the edge matrices, followed by every new composite of two matrices whose
/// dimensions line up, until a pass adds nothing.
fn compute_closure(graph: &CallGraph) -> (r: Vec<SizeChangeMatrix>)
    requires
        graph.wf(),
        dims_bounded(edge_matrices(edges_view(graph.edges@))),
    ensures
        all_wf(r@),
        closure_progress(matrices_view(r@), edge_matrices(edges_view(graph.edges@))),
        closed_superset(matrices_view(r@).to_set(), edge_matrices(edges_view(graph.edges@))),
{
    let ghost ms = edge_matrices(edges_view(graph.edges@));
    let mut closure = edge_matrix_copies(graph);
    loop
        invariant
            ms == edge_matrices(edges_view(graph.edges@)),
            dims_bounded(ms),
            all_wf(closure@),
            closure_progress(matrices_view(closure@), ms),
        decreases usize::MAX - closure@.len(),
    {
        let changed = closure_pass(&mut closure, Ghost(ms));
        let _len = closure.len();
        if !changed {
            return closure;
        }
    }
}

/// The first diagonal position of the square matrix `m` that holds a strict
/// decrease.
fn first_diagonal_decrease(m: &SizeChangeMatrix) -> (r: Option<usize>)
    requires
        m.wf(),
        m@.rows == m@.cols,
    ensures
        match r {
            Some(i) => first_decrease_at(m@, i as int),
            None => !diagonal_decrease(m@),
        },
{
    let n = m.rows();
    let mut i: usize = 0;
    while i < n
        invariant
            m.wf(),
            n == m@.rows,
            n == m@.cols,
            i <= n,
            forall|k: int| 0 <= k < i ==> !(#[trigger] mat_at(m@, k, k) is Decrease),
        decreases n - i,
    {
        if m.get(i, i).is_decrease() {
            return Some(i);
        }
        i = i + 1;
    }
    None
}

/// The SCT verdict on one matrix: `None` if it is not idempotent,
/// otherwise the first diagonal position with a strict decrease, if any.
fn sct_verdict(m: &SizeChangeMatrix) -> (r: Option<Option<usize>>)
    requires
        m.wf(),
        m@.rows * m@.cols <= usize::MAX,
    ensures
        r is None <==> !idempotent(m@),
        r matches Some(Some(d)) ==> first_decrease_at(m@, d as int),
        r matches Some(None) ==> !diagonal_decrease(m@),
{
    if !m.is_square() {
        return None;
    }
    let mm = m.compose(m);
    if !mm.same(m) {
        return None;
    }
    Some(first_diagonal_decrease(m))
}

impl TerminationChecker {
    /// Check that `graph` satisfies the SCT condition.
    ///
    /// The edges are validated in order first: the first edge whose source
    /// or target is not registered, or whose matrix does not have the
    /// arities of its ends, is reported. Otherwise the graph passes iff
    /// every idempotent matrix of the closure of its edge matrices has a
    /// strict decrease on its diagonal; the first idempotent matrix of the
    /// closure without one is reported.
    pub fn check(&self, graph: &CallGraph) -> (r: Result<TerminationCertificate, TerminationError>)
        requires
            graph.wf(),
            first_problem(graph.arities@, edges_view(graph.edges@), 0) is None ==> dims_bounded(
                edge_matrices(edges_view(graph.edges@)),
            ),
        ensures
            first_problem(graph.arities@, edges_view(graph.edges@), 0) is Some ==> r is Err && r->Err_0@
                == first_problem(graph.arities@, edges_view(graph.edges@), 0)->0,
            first_problem(graph.arities@, edges_view(graph.edges@), 0) is None ==> (r is Ok <==> size_change_terminating(
                edge_matrices(edges_view(graph.edges@)),
            )),
            r is Ok ==> r->Ok_0.function == representative(graph.functions@),
            r is Ok ==> r->Ok_0.block_size == graph.functions@.len(),
            r is Ok ==> closure_set(edge_matrices(edges_view(graph.edges@))).finite(),
            r is Ok ==> r->Ok_0.closure_size == closure_set(edge_matrices(edges_view(graph.edges@))).len(),
            r is Ok ==> exists|s: Seq<MatrixV>|
                #![trigger witnesses_for(s, r->Ok_0.witnesses@)]
                s.no_duplicates() && s.to_set() == closure_set(edge_matrices(edges_view(graph.edges@)))
                    && s.len() == r->Ok_0.closure_size && witnesses_for(s, r->Ok_0.witnesses@),
            r matches Err(TerminationError::NotSizeChangeTerminating { matrix, .. }) ==> matrix.wf(),
            first_problem(graph.arities@, edges_view(graph.edges@), 0) is None && r is Err ==> {
                &&& r->Err_0@ is NotSizeChangeTerminating
                &&& r->Err_0@->NotSizeChangeTerminating_function == representative(graph.functions@)
                &&& in_closure(edge_matrices(edges_view(graph.edges@)), r->Err_0@->NotSizeChangeTerminating_matrix)
                &&& idempotent(r->Err_0@->NotSizeChangeTerminating_matrix)
                &&& !diagonal_decrease(r->Err_0@->NotSizeChangeTerminating_matrix)
            },
    {
        let ghost ev = edges_view(graph.edges@);
        let ghost ar = graph.arities@;
        let n = graph.edges.len();
        let mut k: usize = 0;
        while k < n
            invariant
                n == graph.edges@.len(),
                ev == edges_view(graph.edges@),
                ar == graph.arities@,
                k <= n,
                first_problem(ar, ev, 0) == first_problem(ar, ev, k as int),
            decreases n - k,
        {
            let e = &graph.edges[k];
            assert(ev[k as int] == graph.edges@[k as int]@);
            let sa = graph.arity(e.source);
            let ta = graph.arity(e.target);
            match sa {
                None => {
                    return Err(TerminationError::UnknownCallee { source: e.source, target: e.target });
                },
                Some(x) => {
                    match ta {
                        None => {
                            return Err(TerminationError::UnknownCallee { source: e.source, target: e.target });
                        },
                        Some(y) => {
                            if e.matrix.rows() != x || e.matrix.cols() != y {
                                return Err(TerminationError::UnknownCallee { source: e.source, target: e.target });
                            }
                        },
                    }
                },
            }
            k = k + 1;
        }
        assert(first_problem(ar, ev, n as int) is None);
        let ghost ms = edge_matrices(ev);
        let closure = compute_closure(graph);
        let ghost cv = matrices_view(closure@);
        let function = if graph.functions.len() == 0 { NameId(0) } else { graph.functions[0] };
        let mut witnesses: Vec<(usize, usize)> = Vec::new();
        let cn = closure.len();
        let mut idx: usize = 0;
        while idx < cn
            invariant
                cn == closure@.len(),
                cv == matrices_view(closure@),
                ms == edge_matrices(edges_view(graph.edges@)),
                dims_bounded(ms),
                all_wf(closure@),
                closure_progress(cv, ms),
                closed_superset(cv.to_set(), ms),
                function == representative(graph.functions@),
                first_problem(graph.arities@, edges_view(graph.edges@), 0) is None,
                idx <= cn,
                forall|x: int| 0 <= x < idx ==> idempotent(#[trigger] cv[x]) ==> diagonal_decrease(cv[x]),
                witnesses@.len() == idempotent_positions(cv, idx as int).len(),
                forall|w: int|
                    0 <= w < witnesses@.len() ==> (#[trigger] witnesses@[w]).0 == idempotent_positions(cv, idx as int)[w]
                        && first_decrease_at(cv[idempotent_positions(cv, idx as int)[w]], witnesses@[w].1 as int),
            decreases cn - idx,
        {
            let m = &closure[idx];
            assert(closure@[idx as int].wf());
            assert(cv[idx as int] == m@);
            proof { lemma_progress_dims(cv, ms, idx as int, idx as int); }
            let ghost wbefore = witnesses@;
            match sct_verdict(m) {
                Some(Some(d)) => {
                    witnesses.push((idx, d));
                    assert(idempotent_positions(cv, idx + 1) == idempotent_positions(cv, idx as int).push(idx as int));
                    assert forall|w: int| 0 <= w < witnesses@.len() implies (#[trigger] witnesses@[w]).0
                        == idempotent_positions(cv, idx + 1)[w] && first_decrease_at(
                        cv[idempotent_positions(cv, idx + 1)[w]],
                        witnesses@[w].1 as int,
                    ) by {
                        if w < wbefore.len() {
                            assert(witnesses@[w] == wbefore[w]);
                        }
                    }
                },
                Some(None) => {
                    proof {
                        lemma_closure_exact(cv, ms, m@);
                        assert(cv[idx as int] == m@);
                    }
                    return Err(TerminationError::NotSizeChangeTerminating { function, matrix: m.clone() });
                },
                None => {
                    assert(idempotent_positions(cv, idx + 1) == idempotent_positions(cv, idx as int));
                },
            }
            idx = idx + 1;
        }
        proof {
            assert forall|m: MatrixV| #[trigger] in_closure(ms, m) && idempotent(m) implies diagonal_decrease(m) by {
                lemma_closure_exact(cv, ms, m);
                let x = choose|x: int| 0 <= x < cv.len() && cv[x] == m;
                assert(idempotent(cv[x]));
            }
            assert(cv.to_set() =~= closure_set(ms)) by {
                assert forall|m: MatrixV| cv.to_set().contains(m) <==> closure_set(ms).contains(m) by {
                    lemma_closure_exact(cv, ms, m);
                }
            }
            cv.unique_seq_to_set();
            vstd::seq_lib::seq_to_set_is_finite(cv);
            assert(witnesses_for(cv, witnesses@));
            assert(cv.no_duplicates() && cv.to_set() == closure_set(ms) && cv.len() == cn);
        }
        let cert = TerminationCertificate {
            function,
            block_size: graph.functions.len(),
            closure_size: cn,
            witnesses,
        };
        assert(witnesses_for(cv, cert.witnesses@));
        assert(cv.no_duplicates() && cv.to_set() == closure_set(ms) && cv.len() == cert.closure_size);
        Ok(cert)
    }
}

// ---------------------------------------------------------------------------
// Building call graphs from expressions
// ---------------------------------------------------------------------------

/// The head of an application spine.
pub open spec fn spine_head(e: ExprV) -> ExprV
    decreases e,
{
    match e {
        ExprV::App(f, _) => spine_head(*f),
        _ => e,
    }
}

/// The arguments of an application spine, in application order.
pub open spec fn spine_args(e: ExprV) -> Seq<ExprV>
    decreases e,
{
    match e {
        ExprV::App(f, a) => spine_args(*f).push(*a),
        _ => Seq::empty(),
    }
}

/// `true` iff the arity registered last for `name` is `n`.
pub open spec fn registered_with(arities: Seq<(NameId, usize)>, name: NameId, n: nat) -> bool {
    arity_of(arities, name) is Some && arity_of(arities, name)->0 == n
}

/// The call made by the spine `e` itself: its head is a constant whose
/// registered arity is the number of arguments.
pub open spec fn call_here(arities: Seq<(NameId, usize)>, e: ExprV) -> Seq<(NameId, Seq<ExprV>)> {
    match spine_head(e) {
        ExprV::Const(n, _) => if registered_with(arities, n, spine_args(e).len()) {
            seq![(n, spine_args(e))]
        } else {
            Seq::empty()
        },
        _ => Seq::empty(),
    }
}

/// Every call to a registered function in `e`, in pre-order: a spine's own
/// call first, then the calls in its head and in each argument.
pub open spec fn calls_in(arities: Seq<(NameId, usize)>, e: ExprV) -> Seq<(NameId, Seq<ExprV>)>
    decreases e, 2int,
{
    match e {
        ExprV::App(_, _) => call_here(arities, e) + calls_spine(arities, e),
        _ => calls_leaf(arities, e),
    }
}

/// The calls in the head and the arguments of the spine `e`.
pub open spec fn calls_spine(arities: Seq<(NameId, usize)>, e: ExprV) -> Seq<(NameId, Seq<ExprV>)>
    decreases e, 1int,
{
    match e {
        ExprV::App(f, a) => calls_spine(arities, *f) + calls_in(arities, *a),
        _ => calls_leaf(arities, e),
    }
}

/// The calls in an expression that is not an application.
pub open spec fn calls_leaf(arities: Seq<(NameId, usize)>, e: ExprV) -> Seq<(NameId, Seq<ExprV>)>
    decreases e, 0int,
{
    match e {
        ExprV::Const(_, _) => call_here(arities, e),
        ExprV::Pi(_, _, d, c) => calls_in(arities, *d) + calls_in(arities, *c),
        ExprV::Lam(_, _, d, c) => calls_in(arities, *d) + calls_in(arities, *c),
        ExprV::Let(_, t, v, b) => calls_in(arities, *t) + calls_in(arities, *v) + calls_in(arities, *b),
        _ => Seq::empty(),
    }
}

/// The abstract values of a sequence of expression references.
pub open spec fn refs_view(s: Seq<&Expr>) -> Seq<ExprV> {
    s.map_values(|e: &Expr| e@)
}

/// The abstract values of a sequence of expressions.
pub open spec fn exprs_view(s: Seq<Expr>) -> Seq<ExprV> {
    s.map_values(|e: Expr| e@)
}

/// The abstract values of collected calls.
pub open spec fn found_calls_view(s: Seq<(NameId, Vec<Expr>)>) -> Seq<(NameId, Seq<ExprV>)> {
    s.map_values(|c: (NameId, Vec<Expr>)| (c.0, exprs_view(c.1@)))
}

/// Flatten an application spine: `App(App(f, a), b)` → `(f, [a, b])`.
fn flatten_app(e: &Expr) -> (r: (&Expr, Vec<&Expr>))
    ensures
        r.0@ == spine_head(e@),
        refs_view(r.1@) == spine_args(e@),
    decreases e,
{
    match e {
        Expr::App(f, a) => {
            let (h, mut args) = flatten_app(f);
            let ghost before = args@;
            args.push(&**a);
            assert(refs_view(args@) =~= refs_view(before).push(a@));
            (h, args)
        },
        _ => {
            assert(refs_view(Seq::<&Expr>::empty()) =~= Seq::<ExprV>::empty());
            (e, Vec::new())
        },
    }
}

/// Copies of the referenced expressions.
fn clone_refs(args: &Vec<&Expr>) -> (r: Vec<Expr>)
    ensures
        exprs_view(r@) == refs_view(args@),
{
    let mut out: Vec<Expr> = Vec::new();
    let n = args.len();
    let mut k: usize = 0;
    while k < n
        invariant
            n == args@.len(),
            k <= n,
            exprs_view(out@) == refs_view(args@).take(k as int),
        decreases n - k,
    {
        let c = args[k].deep_clone();
        let ghost before = out@;
        out.push(c);
        assert(exprs_view(out@) =~= refs_view(args@).take(k + 1)) by {
            assert(exprs_view(out@) =~= exprs_view(before).push(c@));
        }
        k = k + 1;
    }
    assert(refs_view(args@).take(n as int) =~= refs_view(args@));
    out
}

/// Record the call made by the spine `e`, if any.
fn record_call(
    arities: &Vec<(NameId, usize)>,
    e: &Expr,
    head: &Expr,
    args: &Vec<&Expr>,
    out: &mut Vec<(NameId, Vec<Expr>)>,
)
    requires
        head@ == spine_head(e@),
        refs_view(args@) == spine_args(e@),
        forall|k: int| 0 <= k < old(out)@.len() ==> registered_with(arities@, (#[trigger] old(out)@[k]).0, old(out)@[k].1@.len()),
    ensures
        found_calls_view(final(out)@) == found_calls_view(old(out)@) + call_here(arities@, e@),
        forall|k: int| 0 <= k < final(out)@.len() ==> registered_with(arities@, (#[trigger] final(out)@[k]).0, final(out)@[k].1@.len()),
{
    let ghost before = out@;
    if let Expr::Const(name, _) = head {
        if lookup_arity(arities, *name) == Some(args.len()) {
            let copies = clone_refs(args);
            out.push((*name, copies));
            assert(found_calls_view(out@) =~= found_calls_view(before) + call_here(arities@, e@));
            return;
        }
    }
    assert(found_calls_view(out@) =~= found_calls_view(before) + call_here(arities@, e@));
}

/// Append to `out` every call to a registered function inside `body`, with
/// its arguments, in pre-order.
fn collect_family_calls(arities: &Vec<(NameId, usize)>, body: &Expr, out: &mut Vec<(NameId, Vec<Expr>)>)
    requires
        forall|k: int| 0 <= k < old(out)@.len() ==> registered_with(arities@, (#[trigger] old(out)@[k]).0, old(out)@[k].1@.len()),
    ensures
        found_calls_view(final(out)@) == found_calls_view(old(out)@) + calls_in(arities@, body@),
        forall|k: int| 0 <= k < final(out)@.len() ==> registered_with(arities@, (#[trigger] final(out)@[k]).0, final(out)@[k].1@.len()),
    decreases body, 2int,
{
    let ghost before = found_calls_view(out@);
    match body {
        Expr::App(_, _) => {
            let (head, args) = flatten_app(body);
            record_call(arities, body, head, &args, out);
            collect_spine_calls(arities, body, out);
            assert(found_calls_view(out@) =~= before + calls_in(arities@, body@));
        },
        _ => {
            collect_leaf_calls(arities, body, out);
        },
    }
}

/// Append the calls in the head and the arguments of the spine `e`.
fn collect_spine_calls(arities: &Vec<(NameId, usize)>, e: &Expr, out: &mut Vec<(NameId, Vec<Expr>)>)
    requires
        forall|k: int| 0 <= k < old(out)@.len() ==> registered_with(arities@, (#[trigger] old(out)@[k]).0, old(out)@[k].1@.len()),
    ensures
        found_calls_view(final(out)@) == found_calls_view(old(out)@) + calls_spine(arities@, e@),
        forall|k: int| 0 <= k < final(out)@.len() ==> registered_with(arities@, (#[trigger] final(out)@[k]).0, final(out)@[k].1@.len()),
    decreases e, 1int,
{
    let ghost before = found_calls_view(out@);
    match e {
        Expr::App(f, a) => {
            collect_spine_calls(arities, f, out);
            collect_family_calls(arities, a, out);
            assert(found_calls_view(out@) =~= before + calls_spine(arities@, e@));
        },
        _ => {
            collect_leaf_calls(arities, e, out);
        },
    }
}

/// Append the calls in an expression that is not an application.
fn collect_leaf_calls(arities: &Vec<(NameId, usize)>, e: &Expr, out: &mut Vec<(NameId, Vec<Expr>)>)
    requires
        forall|k: int| 0 <= k < old(out)@.len() ==> registered_with(arities@, (#[trigger] old(out)@[k]).0, old(out)@[k].1@.len()),
    ensures
        found_calls_view(final(out)@) == found_calls_view(old(out)@) + calls_leaf(arities@, e@),
        forall|k: int| 0 <= k < final(out)@.len() ==> registered_with(arities@, (#[trigger] final(out)@[k]).0, final(out)@[k].1@.len()),
    decreases e, 0int,
{
    let ghost before = found_calls_view(out@);
    match e {
        Expr::Const(_, _) => {
            let (head, args) = flatten_app(e);
            record_call(arities, e, head, &args, out);
        },
        Expr::Pi(_, _, d, c) | Expr::Lam(_, _, d, c) => {
            collect_family_calls(arities, d, out);
            collect_family_calls(arities, c, out);
            assert(found_calls_view(out@) =~= before + calls_leaf(arities@, e@));
        },
        Expr::Let(_, t, v, b) => {
            collect_family_calls(arities, t, out);
            collect_family_calls(arities, v, out);
            collect_family_calls(arities, b, out);
            assert(found_calls_view(out@) =~= before + calls_leaf(arities@, e@));
        },
        _ => {
            assert(found_calls_view(out@) =~= before + calls_leaf(arities@, e@));
        },
    }
}

/// The first position of `x` in `s`, at or after `k`.
pub open spec fn position_from(s: Seq<NameId>, x: NameId, k: int) -> Option<int>
    decreases s.len() - k,
{
    if k < 0 || k >= s.len() {
        None
    } else if s[k] == x {
        Some(k)
    } else {
        position_from(s, x, k + 1)
    }
}

/// The relation between the formal parameter `param` and the actual
/// argument `actual`: `Equal` iff the actual is the de Bruijn variable of
/// the first occurrence of `param` in `params`, `Unknown` otherwise.
pub open spec fn param_entry(params: Seq<NameId>, param: NameId, actual: ExprV) -> Entry {
    match position_from(params, param, 0) {
        Some(i) => if actual == ExprV::Var(DeBruijnIndex((params.len() - 1 - i) as u32)) {
            Entry::Equal
        } else {
            Entry::Unknown
        },
        None => Entry::Unknown,
    }
}

/// `true` iff `m` is the size-change matrix of a call with the actual
/// arguments `actuals` from a function with formal parameters `params`.
pub open spec fn call_matrix(m: MatrixV, params: Seq<NameId>, actuals: Seq<ExprV>) -> bool {
    &&& mat_wf(m)
    &&& m.rows == params.len()
    &&& m.cols == actuals.len()
    &&& forall|i: int, j: int|
        0 <= i < m.rows && 0 <= j < m.cols ==> #[trigger] mat_at(m, i, j) == param_entry(params, params[i], actuals[j])
}

/// Classify the relation between a formal parameter and an actual
/// argument: only the parameter's own variable is known to be `Equal`.
fn classify_param_vs_arg(param: NameId, actual: &Expr, params: &Vec<NameId>, arity: usize) -> (r: Entry)
    requires
        arity == params@.len(),
    ensures
        r == param_entry(params@, param, actual@),
{
    let mut k: usize = 0;
    while k < arity
        invariant
            arity == params@.len(),
            k <= arity,
            position_from(params@, param, 0) == position_from(params@, param, k as int),
        decreases arity - k,
    {
        if params[k] == param {
            let idx = (arity - 1 - k) as u32;
            return match actual {
                Expr::Var(DeBruijnIndex(i)) => if *i == idx { Entry::Equal } else { Entry::Unknown },
                _ => Entry::Unknown,
            };
        }
        k = k + 1;
    }
    Entry::Unknown
}

/// The size-change matrix of a call with arguments `actuals` from a
/// function with parameters `params`.
fn call_matrix_of(params: &Vec<NameId>, actuals: &Vec<Expr>) -> (r: SizeChangeMatrix)
    requires
        params@.len() * actuals@.len() <= usize::MAX,
    ensures
        r.wf(),
        call_matrix(r@, params@, exprs_view(actuals@)),
{
    let rows = params.len();
    let cols = actuals.len();
    let mut matrix = SizeChangeMatrix::empty(rows, cols);
    let mut i: usize = 0;
    while i < rows
        invariant
            rows == params@.len(),
            cols == actuals@.len(),
            matrix.wf(),
            matrix@.rows == rows,
            matrix@.cols == cols,
            i <= rows,
            forall|a: int, b: int| 0 <= a < rows && 0 <= b < cols ==> #[trigger] mat_at(matrix@, a, b) == (if a < i {
                param_entry(params@, params@[a], exprs_view(actuals@)[b])
            } else {
                Entry::Unknown
            }),
        decreases rows - i,
    {
        let mut j: usize = 0;
        while j < cols
            invariant
                rows == params@.len(),
                cols == actuals@.len(),
                matrix.wf(),
                matrix@.rows == rows,
                matrix@.cols == cols,
                i < rows,
                j <= cols,
                forall|a: int, b: int| 0 <= a < rows && 0 <= b < cols ==> #[trigger] mat_at(matrix@, a, b) == (if a < i || (a == i && b < j) {
                    param_entry(params@, params@[a], exprs_view(actuals@)[b])
                } else {
                    Entry::Unknown
                }),
            decreases cols - j,
        {
            let entry = classify_param_vs_arg(params[i], &actuals[j], params, rows);
            let old_entry = matrix.get(i, j);
            matrix.set(i, j, old_entry.min(entry));
            j = j + 1;
        }
        i = i + 1;
    }
    matrix
}

/// The edges that the calls of a function with parameters `params` make,
/// in the order of `calls`.
pub open spec fn call_edges_ok(
    edges: Seq<EdgeV>,
    source: NameId,
    params: Seq<NameId>,
    calls: Seq<(NameId, Seq<ExprV>)>,
) -> bool {
    &&& edges.len() == calls.len()
    &&& forall|k: int|
        0 <= k < calls.len() ==> {
            &&& (#[trigger] edges[k]).source == source
            &&& edges[k].target == calls[k].0
            &&& call_matrix(edges[k].matrix, params, calls[k].1)
        }
}

/// Append to `graph` one edge per call in `calls`, from `source`.
fn add_call_edges(
    graph: &mut CallGraph,
    source: NameId,
    params: &Vec<NameId>,
    calls: &Vec<(NameId, Vec<Expr>)>,
)
    requires
        old(graph).wf(),
        forall|k: int| 0 <= k < calls@.len() ==> params@.len() * (#[trigger] calls@[k]).1@.len() <= usize::MAX,
    ensures
        final(graph).wf(),
        final(graph).functions@ == old(graph).functions@,
        final(graph).arities@ == old(graph).arities@,
        final(graph).edges@.len() == old(graph).edges@.len() + calls@.len(),
        edges_view(final(graph).edges@).take(old(graph).edges@.len() as int) == edges_view(old(graph).edges@),
        call_edges_ok(
            edges_view(final(graph).edges@).skip(old(graph).edges@.len() as int),
            source,
            params@,
            found_calls_view(calls@),
        ),
{
    let ghost start = edges_view(graph.edges@);
    let ghost fc = found_calls_view(calls@);
    let n = calls.len();
    let mut k: usize = 0;
    while k < n
        invariant
            n == calls@.len(),
            fc == found_calls_view(calls@),
            k <= n,
            graph.wf(),
            graph.functions@ == old(graph).functions@,
            graph.arities@ == old(graph).arities@,
            start == edges_view(old(graph).edges@),
            forall|x: int| 0 <= x < calls@.len() ==> params@.len() * (#[trigger] calls@[x]).1@.len() <= usize::MAX,
            graph.edges@.len() == start.len() + k,
            edges_view(graph.edges@).take(start.len() as int) == start,
            call_edges_ok(edges_view(graph.edges@).skip(start.len() as int), source, params@, fc.take(k as int)),
        decreases n - k,
    {
        let ghost before = edges_view(graph.edges@);
        let ghost be = graph.edges@;
        let (target, actuals) = (calls[k].0, &calls[k].1);
        assert(params@.len() * calls@[k as int].1@.len() <= usize::MAX);
        let m = call_matrix_of(params, actuals);
        graph.add_edge(source, target, m);
        proof {
            let after = edges_view(graph.edges@);
            assert(after =~= before.push(EdgeV { source, target, matrix: m@ }));
            assert(after.take(start.len() as int) =~= before.take(start.len() as int));
            assert(fc[k as int] == (target, exprs_view(actuals@)));
            assert(after.skip(start.len() as int) =~= before.skip(start.len() as int).push(EdgeV { source, target, matrix: m@ }));
            assert(fc.take(k + 1) =~= fc.take(k as int).push(fc[k as int]));
            assert forall|x: int| 0 <= x < graph.edges@.len() implies (#[trigger] graph.edges@[x]).matrix.wf() by {
                if x < be.len() {
                    assert(graph.edges@[x] == be[x]);
                }
            }
        }
        k = k + 1;
    }
    assert(fc.take(n as int) =~= fc);
}

proof fn lemma_arity_single(f: NameId, a: usize, n: NameId)
    ensures
        arity_of(seq![(f, a)], n) == if n == f { Some(a) } else { None },
{
    let s = seq![(f, a)];
    reveal_with_fuel(arity_of, 2);
    assert(s.drop_last() =~= Seq::<(NameId, usize)>::empty());
    assert(s.last() == (f, a));
}

/// A copy of a slice of names.
fn names_to_vec(s: &[NameId]) -> (r: Vec<NameId>)
    ensures
        r@ == s@,
{
    let mut out: Vec<NameId> = Vec::new();
    let n = s.len();
    let mut k: usize = 0;
    while k < n
        invariant
            n == s@.len(),
            k <= n,
            out@ == s@.take(k as int),
        decreases n - k,
    {
        out.push(s[k]);
        assert(out@ =~= s@.take(k + 1));
        k = k + 1;
    }
    assert(s@.take(n as int) =~= s@);
    out
}

/// The arity a block registers for each of its functions.
pub open spec fn block_arities(fs: Seq<(NameId, Vec<NameId>)>) -> Seq<(NameId, usize)> {
    fs.map_values(|p: (NameId, Vec<NameId>)| (p.0, p.1@.len() as usize))
}

/// The number of calls made by the first `i` bodies of a block.
pub open spec fn block_call_count(arities: Seq<(NameId, usize)>, bodies: Seq<ExprV>, i: int) -> nat
    decreases i,
{
    if i <= 0 {
        0
    } else {
        block_call_count(arities, bodies, i - 1) + calls_in(arities, bodies[i - 1]).len()
    }
}

/// `true` iff `edges` holds, body after body, one edge per call in the
/// bodies of the block `fs`.
pub open spec fn block_edges_ok(edges: Seq<EdgeV>, fs: Seq<(NameId, Vec<NameId>)>, bodies: Seq<ExprV>, i: int) -> bool {
    let ar = block_arities(fs);
    &&& edges.len() == block_call_count(ar, bodies, i)
    &&& forall|j: int|
        0 <= j < i ==> call_edges_ok(
            #[trigger] edges.subrange(block_call_count(ar, bodies, j) as int, block_call_count(ar, bodies, j + 1) as int),
            fs[j].0,
            fs[j].1@,
            calls_in(ar, bodies[j]),
        )
}

/// The arity registered for a name is one of the registered arities.
proof fn lemma_arity_of_member(arities: Seq<(NameId, usize)>, name: NameId)
    requires
        arity_of(arities, name) is Some,
    ensures
        exists|j: int| 0 <= j < arities.len() && arities[j] == (name, arity_of(arities, name)->0),
    decreases arities.len(),
{
    if arities.last().0 != name {
        lemma_arity_of_member(arities.drop_last(), name);
        let j = choose|j: int| 0 <= j < arities.drop_last().len() && arities.drop_last()[j] == (name, arity_of(arities, name)->0);
        assert(arities[j] == arities.drop_last()[j]);
    } else {
        assert(arities[arities.len() - 1] == (name, arity_of(arities, name)->0));
    }
}

impl TerminationChecker {
    /// Build a call graph for a single self-recursive function whose body
    /// is `body` and whose parameters are `params`: one edge per recursive
    /// call `f a₁ … aₙ` in `body`, whose `(i, j)` entry is `Equal` iff the
    /// `j`-th actual is the `i`-th formal itself, `Unknown` otherwise.
    pub fn build_self_call_graph(&self, function: NameId, params: &[NameId], body: &Expr) -> (r: CallGraph)
        requires
            params@.len() * params@.len() <= usize::MAX,
        ensures
            r.wf(),
            r.functions@ == seq![function],
            r.arities@ == seq![(function, params@.len() as usize)],
            call_edges_ok(
                edges_view(r.edges@),
                function,
                params@,
                calls_in(seq![(function, params@.len() as usize)], body@),
            ),
    {
        let params_vec = names_to_vec(params);
        let mut graph = CallGraph::new();
        let arity = params.len();
        graph.add_function(function, arity);
        let mut calls: Vec<(NameId, Vec<Expr>)> = Vec::new();
        collect_family_calls(&graph.arities, body, &mut calls);
        proof {
            assert(found_calls_view(Seq::<(NameId, Vec<Expr>)>::empty()) =~= Seq::<(NameId, Seq<ExprV>)>::empty());
            assert(found_calls_view(calls@) =~= calls_in(graph.arities@, body@));
            assert forall|k: int| 0 <= k < calls@.len() implies params_vec@.len() * (#[trigger] calls@[k]).1@.len() <= usize::MAX by {
                assert(registered_with(graph.arities@, calls@[k].0, calls@[k].1@.len()));
                assert(graph.arities@ == seq![(function, arity)]);
                lemma_arity_single(function, arity, calls@[k].0);
            }
            assert(edges_view(graph.edges@) =~= Seq::<EdgeV>::empty());
        }
        add_call_edges(&mut graph, function, &params_vec, &calls);
        proof {
            assert(edges_view(graph.edges@).skip(0) =~= edges_view(graph.edges@));
        }
        graph
    }

    /// Build a call graph for a mutually recursive block: `functions[i]` is
    /// the name and parameters of the `i`-th function and `bodies[i]` its
    /// body. Every call to a block member from a block body contributes an
    /// edge, body after body.
    pub fn build_mutual_call_graph(&self, functions: &[(NameId, Vec<NameId>)], bodies: &[Expr]) -> (r: CallGraph)
        requires
            functions@.len() == bodies@.len(),
            forall|i: int, j: int|
                0 <= i < functions@.len() && 0 <= j < functions@.len() ==> (#[trigger] functions@[i]).1@.len()
                    * (#[trigger] functions@[j]).1@.len() <= usize::MAX,
        ensures
            r.wf(),
            r.functions@ == functions@.map_values(|p: (NameId, Vec<NameId>)| p.0),
            r.arities@ == block_arities(functions@),
            block_edges_ok(edges_view(r.edges@), functions@, bodies@.map_values(|e: Expr| e@), functions@.len() as int),
            edge_matrices(edges_view(r.edges@)) == block_matrices(functions@, bodies@.map_values(|e: Expr| e@), functions@.len() as int),
            distinct_names(functions@) ==> first_problem(r.arities@, edges_view(r.edges@), 0) is None && dims_bounded(
                edge_matrices(edges_view(r.edges@)),
            ),
    {
        let ghost fs = functions@;
        let ghost bv = bodies@.map_values(|e: Expr| e@);
        let ghost ar = block_arities(fs);
        let n = functions.len();
        let mut graph = CallGraph::new();
        let mut i: usize = 0;
        while i < n
            invariant
                n == functions@.len(),
                fs == functions@,
                i <= n,
                graph.functions@ == fs.map_values(|p: (NameId, Vec<NameId>)| p.0).take(i as int),
                graph.arities@ == block_arities(fs).take(i as int),
                graph.edges@ == Seq::<CallEdge>::empty(),
            decreases n - i,
        {
            graph.add_function(functions[i].0, functions[i].1.len());
            assert(graph.functions@ =~= fs.map_values(|p: (NameId, Vec<NameId>)| p.0).take(i + 1));
            assert(graph.arities@ =~= block_arities(fs).take(i + 1));
            i = i + 1;
        }
        assert(graph.functions@ =~= fs.map_values(|p: (NameId, Vec<NameId>)| p.0));
        assert(graph.arities@ =~= ar);
        assert(edges_view(graph.edges@) =~= Seq::<EdgeV>::empty());
        let mut b: usize = 0;
        while b < n
            invariant
                n == functions@.len(),
                n == bodies@.len(),
                fs == functions@,
                bv == bodies@.map_values(|e: Expr| e@),
                ar == block_arities(fs),
                forall|i: int, j: int|
                    0 <= i < fs.len() && 0 <= j < fs.len() ==> (#[trigger] fs[i]).1@.len() * (#[trigger] fs[j]).1@.len()
                        <= usize::MAX,
                b <= n,
                graph.wf(),
                graph.functions@ == fs.map_values(|p: (NameId, Vec<NameId>)| p.0),
                graph.arities@ == ar,
                block_edges_ok(edges_view(graph.edges@), fs, bv, b as int),
            decreases n - b,
        {
            let ghost before = edges_view(graph.edges@);
            let mut calls: Vec<(NameId, Vec<Expr>)> = Vec::new();
            collect_family_calls(&graph.arities, &bodies[b], &mut calls);
            proof {
                assert(found_calls_view(Seq::<(NameId, Vec<Expr>)>::empty()) =~= Seq::<(NameId, Seq<ExprV>)>::empty());
                assert(bv[b as int] == bodies@[b as int]@);
                assert(found_calls_view(calls@) =~= calls_in(ar, bv[b as int]));
                assert forall|k: int| 0 <= k < calls@.len() implies fs[b as int].1@.len() * (#[trigger] calls@[k]).1@.len() <= usize::MAX by {
                    assert(registered_with(ar, calls@[k].0, calls@[k].1@.len()));
                    lemma_arity_of_member(ar, calls@[k].0);
                    let j = choose|j: int| 0 <= j < ar.len() && ar[j] == (calls@[k].0, arity_of(ar, calls@[k].0)->0);
                    assert(ar[j] == (fs[j].0, fs[j].1@.len() as usize));
                    let lj = fs[j].1@.len();
                    assert(lj * lj <= usize::MAX);
                    assert(lj <= usize::MAX) by (nonlinear_arith)
                        requires
                            lj * lj <= usize::MAX,
                    ;
                    assert(fs[b as int].1@.len() * fs[j].1@.len() <= usize::MAX);
                }
            }
            add_call_edges(&mut graph, functions[b].0, &functions[b].1, &calls);
            proof {
                let after = edges_view(graph.edges@);
                let c0 = block_call_count(ar, bv, b as int);
                let c1 = block_call_count(ar, bv, b + 1);
                assert(c1 == c0 + calls_in(ar, bv[b as int]).len());
                assert(found_calls_view(calls@).len() == calls@.len());
                assert(before.len() == c0);
                assert(after.skip(before.len() as int).len() == calls@.len());
                assert(after.subrange(c0 as int, c1 as int) =~= after.skip(before.len() as int));
                assert forall|j: int| 0 <= j < b + 1 implies call_edges_ok(
                    #[trigger] after.subrange(block_call_count(ar, bv, j) as int, block_call_count(ar, bv, j + 1) as int),
                    fs[j].0,
                    fs[j].1@,
                    calls_in(ar, bv[j]),
                ) by {
                    if j < b {
                        lemma_block_count_monotone(ar, bv, j + 1, b as int);
                        assert(after.subrange(block_call_count(ar, bv, j) as int, block_call_count(ar, bv, j + 1) as int)
                            =~= before.subrange(block_call_count(ar, bv, j) as int, block_call_count(ar, bv, j + 1) as int));
                    }
                }
            }
            b = b + 1;
        }
        proof {
            lemma_block_matrices(edges_view(graph.edges@), fs, bv, n as int);
            if distinct_names(fs) {
                lemma_block_edges_valid(edges_view(graph.edges@), fs, bv);
            }
        }
        graph
    }
}

proof fn lemma_block_count_monotone(ar: Seq<(NameId, usize)>, bv: Seq<ExprV>, i: int, j: int)
    requires
        0 <= i <= j,
    ensures
        block_call_count(ar, bv, i) <= block_call_count(ar, bv, j),
    decreases j - i,
{
    if i < j {
        lemma_block_count_monotone(ar, bv, i, j - 1);
    }
}

// ---------------------------------------------------------------------------
// The matrices of a block, as a function of its definitions
// ---------------------------------------------------------------------------

/// The size-change matrix of a call with arguments `actuals` from a
/// function with parameters `params`.
pub open spec fn call_matrix_spec(params: Seq<NameId>, actuals: Seq<ExprV>) -> MatrixV {
    MatrixV {
        rows: params.len(),
        cols: actuals.len(),
        entries: Seq::new(
            params.len() * actuals.len(),
            |x: int| param_entry(params, params[x / (actuals.len() as int)], actuals[x % (actuals.len() as int)]),
        ),
    }
}

/// [`call_matrix`] determines the matrix.
pub proof fn lemma_call_matrix_unique(m: MatrixV, params: Seq<NameId>, actuals: Seq<ExprV>)
    requires
        call_matrix(m, params, actuals),
    ensures
        m == call_matrix_spec(params, actuals),
{
    let c = call_matrix_spec(params, actuals);
    let cols = actuals.len() as int;
    assert forall|x: int| 0 <= x < m.entries.len() implies #[trigger] m.entries[x] == c.entries[x] by {
        assert(cols > 0) by {
            if cols == 0 {
                assert(m.rows * m.cols == 0) by (nonlinear_arith)
                    requires
                        m.cols == 0,
                ;
            }
        }
        let i = x / cols;
        let j = x % cols;
        vstd::arithmetic::div_mod::lemma_fundamental_div_mod(x, cols);
        assert(0 <= j < cols);
        assert(0 <= i);
        assert(x == i * cols + j) by {
            vstd::arithmetic::mul::lemma_mul_is_commutative(cols, i);
        }
        assert(i < m.rows) by {
            if i >= m.rows {
                assert(i * cols >= m.rows * cols) by (nonlinear_arith)
                    requires
                        i >= m.rows,
                        cols > 0,
                ;
            }
        }
        assert(mat_at(m, i, j) == param_entry(params, params[i], actuals[j]));
    }
    assert(m.entries =~= c.entries);
}

/// The matrices of the calls made by the first `i` bodies of a block, in
/// order.
pub open spec fn block_matrices(fs: Seq<(NameId, Vec<NameId>)>, bodies: Seq<ExprV>, i: int) -> Seq<MatrixV>
    decreases i,
{
    if i <= 0 {
        Seq::empty()
    } else {
        block_matrices(fs, bodies, i - 1) + calls_in(block_arities(fs), bodies[i - 1]).map_values(
            |c: (NameId, Seq<ExprV>)| call_matrix_spec(fs[i - 1].1@, c.1),
        )
    }
}

/// The edges of one body give the matrices of its calls.
proof fn lemma_call_edges_matrices(
    edges: Seq<EdgeV>,
    source: NameId,
    params: Seq<NameId>,
    calls: Seq<(NameId, Seq<ExprV>)>,
)
    requires
        call_edges_ok(edges, source, params, calls),
    ensures
        edge_matrices(edges) == calls.map_values(|c: (NameId, Seq<ExprV>)| call_matrix_spec(params, c.1)),
{
    assert forall|k: int| 0 <= k < edges.len() implies #[trigger] edge_matrices(edges)[k] == calls.map_values(
        |c: (NameId, Seq<ExprV>)| call_matrix_spec(params, c.1),
    )[k] by {
        assert(call_matrix(edges[k].matrix, params, calls[k].1));
        lemma_call_matrix_unique(edges[k].matrix, params, calls[k].1);
    }
    assert(edge_matrices(edges) =~= calls.map_values(|c: (NameId, Seq<ExprV>)| call_matrix_spec(params, c.1)));
}

/// The edges of a block give the matrices of [`block_matrices`].
pub proof fn lemma_block_matrices(edges: Seq<EdgeV>, fs: Seq<(NameId, Vec<NameId>)>, bodies: Seq<ExprV>, n: int)
    requires
        0 <= n <= fs.len(),
        block_edges_ok(edges, fs, bodies, n),
    ensures
        edge_matrices(edges) == block_matrices(fs, bodies, n),
    decreases n,
{
    let ar = block_arities(fs);
    if n == 0 {
        assert(edge_matrices(edges) =~= Seq::<MatrixV>::empty());
    } else {
        let c0 = block_call_count(ar, bodies, n - 1) as int;
        let c1 = block_call_count(ar, bodies, n) as int;
        let prefix = edges.take(c0);
        let last = edges.subrange(c0, c1);
        assert(c1 == edges.len());
        assert(block_edges_ok(prefix, fs, bodies, n - 1)) by {
            assert forall|j: int| 0 <= j < n - 1 implies call_edges_ok(
                #[trigger] prefix.subrange(block_call_count(ar, bodies, j) as int, block_call_count(ar, bodies, j + 1) as int),
                fs[j].0,
                fs[j].1@,
                calls_in(ar, bodies[j]),
            ) by {
                lemma_block_count_monotone(ar, bodies, j + 1, n - 1);
                assert(prefix.subrange(block_call_count(ar, bodies, j) as int, block_call_count(ar, bodies, j + 1) as int)
                    =~= edges.subrange(block_call_count(ar, bodies, j) as int, block_call_count(ar, bodies, j + 1) as int));
            }
        }
        lemma_block_matrices(prefix, fs, bodies, n - 1);
        assert(call_edges_ok(
            edges.subrange(block_call_count(ar, bodies, n - 1) as int, block_call_count(ar, bodies, (n - 1) + 1) as int),
            fs[n - 1].0,
            fs[n - 1].1@,
            calls_in(ar, bodies[n - 1]),
        ));
        assert(call_edges_ok(last, fs[n - 1].0, fs[n - 1].1@, calls_in(ar, bodies[n - 1])));
        lemma_call_edges_matrices(last, fs[n - 1].0, fs[n - 1].1@, calls_in(ar, bodies[n - 1]));
        assert(edges =~= prefix + last);
        assert(edge_matrices(edges) =~= edge_matrices(prefix) + edge_matrices(last));
    }
}

/// `true` iff no two functions of the block share a name.
pub open spec fn distinct_names(fs: Seq<(NameId, Vec<NameId>)>) -> bool {
    forall|i: int, j: int| 0 <= i < fs.len() && 0 <= j < fs.len() && i != j ==> (#[trigger] fs[i]).0 != (#[trigger] fs[j]).0
}

proof fn lemma_block_arity(fs: Seq<(NameId, Vec<NameId>)>, j: int)
    requires
        distinct_names(fs),
        0 <= j < fs.len(),
    ensures
        arity_of(block_arities(fs), fs[j].0) == Some(fs[j].1@.len() as usize),
    decreases fs.len(),
{
    let ar = block_arities(fs);
    if j == fs.len() - 1 {
        assert(ar.last() == (fs[j].0, fs[j].1@.len() as usize));
    } else {
        let t = fs.drop_last();
        assert(distinct_names(t)) by {
            assert forall|a: int, b: int| 0 <= a < t.len() && 0 <= b < t.len() && a != b implies (#[trigger] t[a]).0 != (#[trigger] t[b]).0 by {
                assert(t[a] == fs[a] && t[b] == fs[b]);
            }
        }
        lemma_block_arity(t, j);
        assert(block_arities(t) =~= ar.drop_last());
        assert(ar.last().0 == fs[fs.len() - 1].0);
        assert(t[j] == fs[j]);
    }
}

proof fn lemma_first_problem_none(ar: Seq<(NameId, usize)>, edges: Seq<EdgeV>, k: int)
    requires
        0 <= k <= edges.len(),
        forall|x: int| k <= x < edges.len() ==> edge_problem(ar, #[trigger] edges[x]) is None,
    ensures
        first_problem(ar, edges, k) is None,
    decreases edges.len() - k,
{
    if k < edges.len() {
        lemma_first_problem_none(ar, edges, k + 1);
    }
}

/// In a block with distinct names, every edge of the built graph is valid
/// and the matrices fit in memory.
pub proof fn lemma_block_edges_valid(
    edges: Seq<EdgeV>,
    fs: Seq<(NameId, Vec<NameId>)>,
    bodies: Seq<ExprV>,
)
    requires
        fs.len() == bodies.len(),
        distinct_names(fs),
        forall|i: int, j: int|
            0 <= i < fs.len() && 0 <= j < fs.len() ==> (#[trigger] fs[i]).1@.len() * (#[trigger] fs[j]).1@.len()
                <= usize::MAX,
        block_edges_ok(edges, fs, bodies, fs.len() as int),
    ensures
        first_problem(block_arities(fs), edges, 0) is None,
        dims_bounded(edge_matrices(edges)),
{
    let ar = block_arities(fs);
    let n = fs.len() as int;
    assert forall|x: int| 0 <= x < edges.len() implies {
        &&& edge_problem(ar, #[trigger] edges[x]) is None
        &&& exists|j: int| 0 <= j < n && edges[x].source == fs[j].0 && edges[x].matrix.rows == fs[j].1@.len()
            && exists|t: int| 0 <= t < n && edges[x].matrix.cols == fs[t].1@.len()
    } by {
        let j = lemma_block_segment(ar, bodies, n, x);
        let c0 = block_call_count(ar, bodies, j) as int;
        let c1 = block_call_count(ar, bodies, j + 1) as int;
        lemma_block_count_monotone(ar, bodies, j + 1, n);
        let seg = edges.subrange(c0, c1);
        assert(call_edges_ok(seg, fs[j].0, fs[j].1@, calls_in(ar, bodies[j])));
        let k = x - c0;
        assert(seg[k] == edges[x]);
        let call = calls_in(ar, bodies[j])[k];
        lemma_calls_registered(ar, bodies[j], k);
        lemma_block_arity(fs, j);
        let lj = fs[j].1@.len();
        assert(lj <= usize::MAX) by (nonlinear_arith)
            requires
                lj * lj <= usize::MAX,
        ;
        lemma_arity_of_member(ar, call.0);
        let t = choose|t: int| 0 <= t < ar.len() && ar[t] == (call.0, arity_of(ar, call.0)->0);
        let lt = fs[t].1@.len();
        assert(ar[t] == (fs[t].0, lt as usize));
        assert(lt <= usize::MAX) by (nonlinear_arith)
            requires
                lt * lt <= usize::MAX,
        ;
    }
    lemma_first_problem_none(ar, edges, 0);
    assert forall|a: int, b: int| 0 <= a < edge_matrices(edges).len() && 0 <= b < edge_matrices(edges).len()
        implies #[trigger] edge_matrices(edges)[a].rows * #[trigger] edge_matrices(edges)[b].cols <= usize::MAX by {
        let ja = choose|j: int| 0 <= j < n && edges[a].source == fs[j].0 && edges[a].matrix.rows == fs[j].1@.len()
            && exists|t: int| 0 <= t < n && edges[a].matrix.cols == fs[t].1@.len();
        let jb = choose|j: int| 0 <= j < n && edges[b].source == fs[j].0 && edges[b].matrix.rows == fs[j].1@.len()
            && exists|t: int| 0 <= t < n && edges[b].matrix.cols == fs[t].1@.len();
        let tb = choose|t: int| 0 <= t < n && edges[b].matrix.cols == fs[t].1@.len();
        assert(fs[ja].1@.len() * fs[tb].1@.len() <= usize::MAX);
    }
}

/// The body whose segment holds edge `x`.
proof fn lemma_block_segment(ar: Seq<(NameId, usize)>, bodies: Seq<ExprV>, n: int, x: int) -> (j: int)
    requires
        0 <= n,
        0 <= x < block_call_count(ar, bodies, n),
    ensures
        0 <= j < n,
        block_call_count(ar, bodies, j) <= x < block_call_count(ar, bodies, j + 1),
    decreases n,
{
    if x < block_call_count(ar, bodies, n - 1) {
        lemma_block_segment(ar, bodies, n - 1, x)
    } else {
        n - 1
    }
}

/// Every call found in a body is to a function registered with the
/// number of its arguments.
proof fn lemma_calls_registered(ar: Seq<(NameId, usize)>, e: ExprV, k: int)
    requires
        0 <= k < calls_in(ar, e).len(),
    ensures
        registered_with(ar, calls_in(ar, e)[k].0, calls_in(ar, e)[k].1.len()),
{
    lemma_calls_registered_all(ar, e, 2);
}

/// The calls of each kind of traversal are all to registered functions.
proof fn lemma_calls_registered_all(ar: Seq<(NameId, usize)>, e: ExprV, tag: int)
    ensures
        tag == 2 ==> forall|k: int| 0 <= k < calls_in(ar, e).len() ==> registered_with(ar, (#[trigger] calls_in(ar, e)[k]).0, calls_in(ar, e)[k].1.len()),
        tag == 1 ==> forall|k: int| 0 <= k < calls_spine(ar, e).len() ==> registered_with(ar, (#[trigger] calls_spine(ar, e)[k]).0, calls_spine(ar, e)[k].1.len()),
        tag == 0 ==> forall|k: int| 0 <= k < calls_leaf(ar, e).len() ==> registered_with(ar, (#[trigger] calls_leaf(ar, e)[k]).0, calls_leaf(ar, e)[k].1.len()),
    decreases e, tag,
{
    if tag == 2 {
        match e {
            ExprV::App(_, _) => {
                lemma_calls_registered_all(ar, e, 1);
                let h = call_here(ar, e);
                let sp = calls_spine(ar, e);
                assert forall|k: int| 0 <= k < (h + sp).len() implies registered_with(ar, (#[trigger] (h + sp)[k]).0, (h + sp)[k].1.len()) by {
                    if k >= h.len() {
                        assert((h + sp)[k] == sp[k - h.len()]);
                    }
                }
            },
            _ => {
                lemma_calls_registered_all(ar, e, 0);
            },
        }
    } else if tag == 1 {
        match e {
            ExprV::App(f, a) => {
                lemma_calls_registered_all(ar, *f, 1);
                lemma_calls_registered_all(ar, *a, 2);
                let x = calls_spine(ar, *f);
                let y = calls_in(ar, *a);
                assert forall|k: int| 0 <= k < (x + y).len() implies registered_with(ar, (#[trigger] (x + y)[k]).0, (x + y)[k].1.len()) by {
                    if k >= x.len() {
                        assert((x + y)[k] == y[k - x.len()]);
                    }
                }
            },
            _ => {
                lemma_calls_registered_all(ar, e, 0);
            },
        }
    } else if tag == 0 {
        match e {
            ExprV::Pi(_, _, d, c) | ExprV::Lam(_, _, d, c) => {
                lemma_calls_registered_all(ar, *d, 2);
                lemma_calls_registered_all(ar, *c, 2);
                let x = calls_in(ar, *d);
                let y = calls_in(ar, *c);
                assert forall|k: int| 0 <= k < (x + y).len() implies registered_with(ar, (#[trigger] (x + y)[k]).0, (x + y)[k].1.len()) by {
                    if k >= x.len() {
                        assert((x + y)[k] == y[k - x.len()]);
                    }
                }
            },
            ExprV::Let(_, t, v, b) => {
                lemma_calls_registered_all(ar, *t, 2);
                lemma_calls_registered_all(ar, *v, 2);
                lemma_calls_registered_all(ar, *b, 2);
                let x = calls_in(ar, *t);
                let y = calls_in(ar, *v);
                let z = calls_in(ar, *b);
                assert forall|k: int| 0 <= k < (x + y + z).len() implies registered_with(ar, (#[trigger] (x + y + z)[k]).0, (x + y + z)[k].1.len()) by {
                    if k >= x.len() + y.len() {
                        assert((x + y + z)[k] == z[k - x.len() - y.len()]);
                    } else if k >= x.len() {
                        assert((x + y + z)[k] == y[k - x.len()]);
                    } else {
                        assert((x + y + z)[k] == x[k]);
                    }
                }
            },
            _ => {},
        }
    }
}

// ---------------------------------------------------------------------------
// Rendering
// ---------------------------------------------------------------------------

/// The symbol of an entry: `↓`, `≈` or `∞`.
pub open spec fn entry_text(e: Entry) -> Seq<char> {
    match e {
        Entry::Decrease => "↓"@,
        Entry::Equal => "≈"@,
        Entry::Unknown => "∞"@,
    }
}

/// Row `i` of `m`, its first `j` entries separated by spaces.
pub open spec fn row_text(m: MatrixV, i: int, j: nat) -> Seq<char>
    decreases j,
{
    if j == 0 {
        Seq::empty()
    } else if j == 1 {
        entry_text(mat_at(m, i, 0))
    } else {
        row_text(m, i, (j - 1) as nat) + " "@ + entry_text(mat_at(m, i, j - 1))
    }
}

/// The first `i` rows of `m`, separated by newlines.
pub open spec fn matrix_text(m: MatrixV, i: nat) -> Seq<char>
    decreases i,
{
    if i == 0 {
        Seq::empty()
    } else if i == 1 {
        row_text(m, 0, m.cols)
    } else {
        matrix_text(m, (i - 1) as nat) + "\n"@ + row_text(m, i - 1, m.cols)
    }
}

/// The message of a termination error.
pub open spec fn termination_error_text(e: TerminationErrorV) -> Seq<char> {
    match e {
        TerminationErrorV::UnknownFunction(n) => "unknown function "@ + hash_decimal(n.0 as nat) + " in call graph"@,
        TerminationErrorV::UnknownCallee { source, target } => "call edge "@ + hash_decimal(source.0 as nat) + " → "@
            + hash_decimal(target.0 as nat) + " references unknown callee"@,
        TerminationErrorV::NotSizeChangeTerminating { function, matrix } => "function "@ + hash_decimal(
            function.0 as nat,
        ) + " is not size-change terminating\noffending idempotent matrix:\n"@ + matrix_text(matrix, matrix.rows),
        TerminationErrorV::EmptyCallGraph => "call graph has no edges"@,
    }
}

impl Entry {
    /// The symbol of the entry.
    pub fn describe(self) -> (r: &'static str)
        ensures
            r@ == entry_text(self),
    {
        match self {
            Entry::Decrease => "↓",
            Entry::Equal => "≈",
            Entry::Unknown => "∞",
        }
    }
}

impl SizeChangeMatrix {
    /// The matrix, one row per line, entries separated by spaces.
    pub fn describe(&self) -> (r: String)
        requires
            self.wf(),
        ensures
            r@ == matrix_text(self@, self@.rows),
    {
        let mut s = String::new();
        self.push_text(&mut s);
        assert(s@ =~= matrix_text(self@, self@.rows));
        s
    }

    fn push_text(&self, s: &mut String)
        requires
            self.wf(),
        ensures
            final(s)@ == old(s)@ + matrix_text(self@, self@.rows),
    {
        let ghost start = s@;
        let mut i: usize = 0;
        assert(start =~= start + matrix_text(self@, 0));
        while i < self.rows
            invariant
                self.wf(),
                i <= self@.rows,
                s@ == start + matrix_text(self@, i as nat),
            decreases self@.rows - i,
        {
            let ghost before = s@;
            if i > 0 {
                s.append("\n");
            }
            let mut j: usize = 0;
            let ghost row_start = s@;
            assert(row_start =~= row_start + row_text(self@, i as int, 0));
            while j < self.cols
                invariant
                    self.wf(),
                    i < self@.rows,
                    j <= self@.cols,
                    s@ == row_start + row_text(self@, i as int, j as nat),
                decreases self@.cols - j,
            {
                if j > 0 {
                    s.append(" ");
                }
                s.append(self.get(i, j).describe());
                assert(s@ =~= row_start + row_text(self@, i as int, (j + 1) as nat));
                j = j + 1;
            }
            assert(s@ =~= start + matrix_text(self@, (i + 1) as nat));
            i = i + 1;
        }
    }
}

impl TerminationError {
    /// The human-readable message of the error.
    pub fn describe(&self) -> (r: String)
        requires
            self matches TerminationError::NotSizeChangeTerminating { matrix, .. } ==> matrix.wf(),
        ensures
            r@ == termination_error_text(self@),
    {
        match self {
            TerminationError::UnknownFunction(n) => {
                let mut s = string_of("unknown function ");
                push_hash_decimal(&mut s, n.0 as u64);
                s.append(" in call graph");
                s
            },
            TerminationError::UnknownCallee { source, target } => {
                let mut s = string_of("call edge ");
                push_hash_decimal(&mut s, source.0 as u64);
                s.append(" → ");
                push_hash_decimal(&mut s, target.0 as u64);
                s.append(" references unknown callee");
                s
            },
            TerminationError::NotSizeChangeTerminating { function, matrix } => {
                let mut s = string_of("function ");
                push_hash_decimal(&mut s, function.0 as u64);
                s.append(" is not size-change terminating\noffending idempotent matrix:\n");
                matrix.push_text(&mut s);
                s
            },
            TerminationError::EmptyCallGraph => string_of("call graph has no edges"),
        }
    }
}

impl TerminationChecker {
    /// Create a new checker.
    pub fn new() -> (r: Self)
        ensures
            r == TerminationChecker,
    {
        TerminationChecker
    }
}

impl Default for CallGraph {
    fn default() -> (r: Self)
        ensures
            r.functions@ == Seq::<NameId>::empty(),
            r.arities@ == Seq::<(NameId, usize)>::empty(),
            r.edges@ == Seq::<CallEdge>::empty(),
    {
        CallGraph::new()
    }
}

impl Default for TerminationChecker {
    fn default() -> (r: Self)
        ensures
            r == TerminationChecker,
    {
        TerminationChecker
    }
}

/// `id` is the `n × n` identity matrix: `Equal` on the diagonal, `Unknown`
/// elsewhere.
pub open spec fn is_identity(id: MatrixV, n: nat) -> bool {
    &&& mat_wf(id)
    &&& id.rows == n
    &&& id.cols == n
    &&& forall|i: int, j: int|
        0 <= i < n && 0 <= j < n ==> #[trigger] mat_at(id, i, j) == (if i == j {
            Entry::Equal
        } else {
            Entry::Unknown
        })
}

proof fn lemma_identity_left_entry(id: MatrixV, m: MatrixV, i: int, j: int, k: nat)
    requires
        is_identity(id, m.rows),
        0 <= i < m.rows,
        0 <= j < m.cols,
        k <= m.rows,
    ensures
        compose_entry(id, m, i, j, k) == (if k <= i { Entry::Unknown } else { mat_at(m, i, j) }),
    decreases k,
{
    if k > 0 {
        lemma_identity_left_entry(id, m, i, j, (k - 1) as nat);
        assert(mat_at(id, i, k - 1) == (if i == k - 1 { Entry::Equal } else { Entry::Unknown }));
    }
}

proof fn lemma_identity_right_entry(m: MatrixV, id: MatrixV, i: int, j: int, k: nat)
    requires
        is_identity(id, m.cols),
        0 <= i < m.rows,
        0 <= j < m.cols,
        k <= m.cols,
    ensures
        compose_entry(m, id, i, j, k) == (if k <= j { Entry::Unknown } else { mat_at(m, i, j) }),
    decreases k,
{
    if k > 0 {
        lemma_identity_right_entry(m, id, i, j, (k - 1) as nat);
        assert(mat_at(id, k - 1, j) == (if k - 1 == j { Entry::Equal } else { Entry::Unknown }));
    }
}

/// Position `x` of a `rows × cols` matrix is row `x / cols`, column `x % cols`.
proof fn lemma_position(x: int, rows: int, cols: int)
    requires
        0 <= rows,
        0 <= x < rows * cols,
    ensures
        cols > 0,
        0 <= x / cols < rows,
        0 <= x % cols < cols,
        (x / cols) * cols + x % cols == x,
{
    if cols <= 0 {
        assert(rows * cols <= 0) by (nonlinear_arith)
            requires
                cols <= 0,
                0 <= rows,
                0 <= x < rows * cols,
        ;
    }
    vstd::arithmetic::div_mod::lemma_fundamental_div_mod(x, cols);
    vstd::arithmetic::div_mod::lemma_mod_pos_bound(x, cols);
    vstd::arithmetic::div_mod::lemma_div_pos_is_pos(x, cols);
    let i = x / cols;
    let j = x % cols;
    assert(i * cols == cols * i) by (nonlinear_arith);
    assert(i < rows) by (nonlinear_arith)
        requires
            x == cols * i + j,
            0 <= j,
            x < rows * cols,
            cols > 0,
    ;
}

/// The identity matrix is a two-sided unit of composition.
pub proof fn lemma_identity_unit(left: MatrixV, right: MatrixV, m: MatrixV)
    requires
        mat_wf(m),
        is_identity(left, m.rows),
        is_identity(right, m.cols),
    ensures
        compose_spec(left, m) == m,
        compose_spec(m, right) == m,
{
    let c = compose_spec(left, m);
    assert forall|x: int| 0 <= x < m.entries.len() implies #[trigger] c.entries[x] == m.entries[x] by {
        lemma_position(x, m.rows as int, m.cols as int);
        lemma_identity_left_entry(left, m, x / (m.cols as int), x % (m.cols as int), m.rows);
    }
    assert(c.entries =~= m.entries);
    let d = compose_spec(m, right);
    assert forall|x: int| 0 <= x < m.entries.len() implies #[trigger] d.entries[x] == m.entries[x] by {
        lemma_position(x, m.rows as int, m.cols as int);
        lemma_identity_right_entry(m, right, x / (m.cols as int), x % (m.cols as int), m.cols);
    }
    assert(d.entries =~= m.entries);
}

} // verus!
