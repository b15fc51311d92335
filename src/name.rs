use vstd::prelude::*;

verus! {

/// An identifier. `Sym(i)` is the `i`-th string of an `Interner`, so two
/// symbols are equal exactly when they denote the same interned string.
/// `Gen(k)` is a generated name: the handle of unification slot `k`.
#[derive(Clone, Copy, Debug, PartialEq, Eq, Hash, Structural)]
pub enum Name {
    Sym(usize),
    Gen(usize),
}

impl Name {
    /// Structural comparison of two names.
    pub fn same(&self, other: &Name) -> (r: bool)
        ensures
            r == (*self == *other),
    {
        *self == *other
    }
}

/// The table that gives each distinct string its `Name`.
pub struct Interner {
    texts: Vec<String>,
}

impl View for Interner {
    type V = Seq<Seq<char>>;

    closed spec fn view(&self) -> Seq<Seq<char>> {
        self.texts@.map_values(|t: String| t@)
    }
}

impl Interner {
    /// No string is interned twice.
    pub open spec fn wf(&self) -> bool {
        forall|i: int, j: int|
            0 <= i < self@.len() && 0 <= j < self@.len() && i != j ==> self@[i] != self@[j]
    }

    pub fn new() -> (r: Interner)
        ensures
            r@ == Seq::<Seq<char>>::empty(),
            r.wf(),
    {
        let r = Interner { texts: Vec::new() };
        assert(r@ =~= Seq::<Seq<char>>::empty());
        r
    }

    pub fn len(&self) -> (r: usize)
        ensures
            r == self@.len(),
    {
        self.texts.len()
    }

    /// The name of `s`: the existing one if `s` was interned before, else a
    /// new symbol appended to the table.
    pub fn intern(&mut self, s: &str) -> (r: Name)
        requires
            old(self).wf(),
        ensures
            final(self).wf(),
            r is Sym,
            r->Sym_0 < final(self)@.len(),
            final(self)@[r->Sym_0 as int] == s@,
            old(self)@.contains(s@) ==> final(self)@ == old(self)@,
            !old(self)@.contains(s@) ==> final(self)@ == old(self)@.push(s@),
    {
        let owned = s.to_owned();
        let mut i: usize = 0;
        while i < self.texts.len()
            invariant
                0 <= i <= self.texts@.len(),
                self == old(self),
                self.wf(),
                owned@ == s@,
                forall|j: int| 0 <= j < i ==> self@[j] != s@,
            decreases self.texts@.len() - i,
        {
            if self.texts[i] == owned {
                assert(self@[i as int] == s@);
                assert(old(self)@.contains(s@));
                return Name::Sym(i);
            }
            i = i + 1;
        }
        assert(!self@.contains(s@));
        let k = self.texts.len();
        self.texts.push(owned);
        assert(self@ =~= old(self)@.push(s@));
        Name::Sym(k)
    }

    /// The string that symbol `n` stands for, if `n` is a symbol of this table.
    pub fn text(&self, n: Name) -> (r: Option<&String>)
        ensures
            match r {
                Some(t) => n is Sym && n->Sym_0 < self@.len() && t@ == self@[n->Sym_0 as int],
                None => !(n is Sym && n->Sym_0 < self@.len()),
            },
    {
        match n {
            Name::Sym(i) => {
                if i < self.texts.len() {
                    Some(&self.texts[i])
                } else {
                    None
                }
            },
            Name::Gen(_) => None,
        }
    }
}

} // verus!
