//! Name interning.
//!
//! Source-level names are interned into a [`NameId`]. The table is owned by
//! the kernel environment (or by the elaborator), so the kernel itself keeps
//! no global mutable state.

use vstd::prelude::*;

verus! {

/// A compact identifier for an interned name.
#[derive(Clone, Copy, Debug, PartialEq, Eq, Hash, PartialOrd, Ord, Structural)]
pub struct NameId(pub u32);

/// Interns strings into [`NameId`]s.
///
/// The identifier of a name is its position in `names`; no string occurs
/// twice, so identifiers and strings are in one-to-one correspondence.
pub struct NameTable {
    names: Vec<String>,
}

/// `true` iff no string occurs twice in `s`.
pub open spec fn no_duplicates(s: Seq<Seq<char>>) -> bool {
    forall|i: int, j: int| 0 <= i < s.len() && 0 <= j < s.len() && i != j ==> s[i] != s[j]
}

impl View for NameTable {
    type V = Seq<Seq<char>>;

    /// The interned strings, indexed by identifier.
    closed spec fn view(&self) -> Seq<Seq<char>> {
        self.names@.map_values(|s: String| s@)
    }
}

impl NameTable {
    #[verifier::type_invariant]
    closed spec fn inv(self) -> bool {
        no_duplicates(self@)
    }

    /// Create an empty table.
    pub fn new() -> (t: Self)
        ensures
            t@ == Seq::<Seq<char>>::empty(),
    {
        let t = NameTable { names: Vec::new() };
        assert(t@ =~= Seq::<Seq<char>>::empty());
        t
    }

    /// The identifier of `s`, if it has been interned.
    fn position(&self, s: &String) -> (r: Option<usize>)
        ensures
            match r {
                Some(i) => i < self@.len() && self@[i as int] == s@,
                None => !self@.contains(s@),
            },
    {
        let n = self.names.len();
        let mut i: usize = 0;
        while i < n
            invariant
                n == self.names@.len(),
                self@.len() == n,
                i <= n,
                forall|k: int| 0 <= k < i ==> self@[k] != s@,
            decreases n - i,
        {
            assert(self@[i as int] == self.names@[i as int]@);
            if self.names[i] == *s {
                return Some(i);
            }
            i = i + 1;
        }
        None
    }

    /// Intern a string, returning its stable identifier.
    ///
    /// A string that is already present keeps its identifier; a new string
    /// receives the next free identifier.
    pub fn intern(&mut self, s: &str) -> (id: NameId)
        requires
            old(self)@.len() < u32::MAX,
        ensures
            final(self)@[id.0 as int] == s@,
            id.0 < final(self)@.len(),
            old(self)@.contains(s@) ==> final(self)@ == old(self)@,
            !old(self)@.contains(s@) ==> final(self)@ == old(self)@.push(s@) && id.0 == old(self)@.len(),
            forall|k: int| 0 <= k < final(self)@.len() && final(self)@[k] == s@ ==> k == id.0,
            no_duplicates(final(self)@),
            (final(self)@, id) == interned(old(self)@, s@),
    {
        proof { use_type_invariant(&*self); }
        let owned = s.to_owned();
        match self.position(&owned) {
            Some(i) => {
                proof { lemma_id_of(self@, s@, NameId(i as u32)); }
                NameId(i as u32)
            },
            None => {
                let n = self.names.len();
                let ghost old_view = self@;
                let mut names: Vec<String> = Vec::new();
                std::mem::swap(&mut names, &mut self.names);
                names.push(owned);
                assert(names@.map_values(|s: String| s@) =~= old_view.push(s@));
                self.names = names;
                assert(self@ =~= old_view.push(s@));
                proof { use_type_invariant(&*self); }
                NameId(n as u32)
            }
        }
    }

    /// Resolve a [`NameId`] back to its string.
    pub fn resolve(&self, id: NameId) -> (r: &str)
        requires
            id.0 < self@.len(),
        ensures
            r@ == self@[id.0 as int],
    {
        self.names[id.0 as usize].as_str()
    }

    /// Number of interned names.
    pub fn len(&self) -> (n: usize)
        ensures
            n == self@.len(),
    {
        self.names.len()
    }

    /// `true` iff the table is empty.
    pub fn is_empty(&self) -> (b: bool)
        ensures
            b == (self@.len() == 0),
    {
        self.names.len() == 0
    }
}

/// The identifier of `s` in the table `t`: the position at which `s`
/// occurs.
pub open spec fn id_of(t: Seq<Seq<char>>, s: Seq<char>) -> NameId {
    NameId((choose|k: int| 0 <= k < t.len() && t[k] == s) as u32)
}

/// Once `s` occurs only at `id` in `t`, [`id_of`] names `id`.
pub proof fn lemma_id_of(t: Seq<Seq<char>>, s: Seq<char>, id: NameId)
    requires
        id.0 < t.len(),
        t[id.0 as int] == s,
        no_duplicates(t),
    ensures
        id_of(t, s) == id,
{
    let k = choose|k: int| 0 <= k < t.len() && t[k] == s;
    assert(0 <= k < t.len() && t[k] == s);
    assert(t[k] == t[id.0 as int]);
}

impl Default for NameTable {
    fn default() -> (t: Self)
        ensures
            t@ == Seq::<Seq<char>>::empty(),
    {
        NameTable::new()
    }
}

/// Interning is idempotent: two identifiers that a table without
/// duplicates maps to the same string are the same identifier, so
/// interning a string twice gives one identifier.
pub proof fn lemma_intern_idempotent(t: Seq<Seq<char>>, s: Seq<char>, id1: NameId, id2: NameId)
    requires
        no_duplicates(t),
        id1.0 < t.len(),
        id2.0 < t.len(),
        t[id1.0 as int] == s,
        t[id2.0 as int] == s,
    ensures
        id1 == id2,
{
}

/// The table and identifier that interning `s` into `t` gives: `t` and the
/// position of `s` when `s` occurs in it, else `t` with `s` appended and
/// the next identifier.
pub open spec fn interned(t: Seq<Seq<char>>, s: Seq<char>) -> (Seq<Seq<char>>, NameId) {
    if t.contains(s) {
        (t, id_of(t, s))
    } else {
        (t.push(s), NameId(t.len() as u32))
    }
}

/// The laws of interning, over a table without duplicates that has room
/// for two more names: the identifier resolves to the string; the table
/// keeps no duplicates and keeps every earlier name at its identifier;
/// interning the same string again changes nothing and gives the same
/// identifier; and a different string receives a different identifier.
pub proof fn lemma_intern_laws(t: Seq<Seq<char>>, s: Seq<char>, s2: Seq<char>)
    requires
        no_duplicates(t),
        t.len() + 1 < u32::MAX,
    ensures
        interned(t, s).1.0 < interned(t, s).0.len(),
        interned(t, s).0[interned(t, s).1.0 as int] == s,
        no_duplicates(interned(t, s).0),
        interned(t, s).0.len() <= t.len() + 1,
        forall|k: int| 0 <= k < t.len() ==> #[trigger] interned(t, s).0[k] == t[k],
        interned(interned(t, s).0, s) == interned(t, s),
        s != s2 ==> interned(interned(t, s).0, s2).1 != interned(t, s).1,
{
    let (t1, id1) = interned(t, s);
    if t.contains(s) {
        let k = choose|k: int| 0 <= k < t.len() && t[k] == s;
        assert(0 <= k < t.len() && t[k] == s);
    } else {
        assert(t1[t.len() as int] == s);
        assert forall|i: int, j: int| 0 <= i < t1.len() && 0 <= j < t1.len() && i != j implies t1[i] != t1[j] by {
            if i == t.len() {
                assert(!t.contains(s));
                assert(t[j] == t1[j]);
            } else if j == t.len() {
                assert(t[i] == t1[i]);
            }
        }
        assert(t1.contains(s));
        lemma_id_of(t1, s, id1);
    }
    assert(t1.contains(s));
    let k1 = choose|k: int| 0 <= k < t1.len() && t1[k] == s;
    lemma_id_of(t1, s, id1);
    if s != s2 {
        let (t2, id2) = interned(t1, s2);
        if t1.contains(s2) {
            let k2 = choose|k: int| 0 <= k < t1.len() && t1[k] == s2;
            assert(0 <= k2 < t1.len() && t1[k2] == s2);
            lemma_id_of(t1, s2, NameId(k2 as u32));
        }
    }
}

} // verus!
