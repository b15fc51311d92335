use vstd::prelude::*;
use crate::name::Name;

verus! {

/// A persistent association list from names to values. Extending an
/// environment puts the new binding in front; a lookup finds the most recent
/// binding of a name.
#[derive(PartialEq, Eq)]
pub enum Assoc<V> {
    Empty,
    Bind(Name, V, Box<Assoc<V>>),
}

impl<V> Assoc<V> {
    pub open spec fn len(self) -> nat
        decreases self,
    {
        match self {
            Assoc::Empty => 0,
            Assoc::Bind(_, _, rest) => 1 + rest.len(),
        }
    }

    /// The value of the most recent binding of `n`.
    pub open spec fn lookup(self, n: Name) -> Option<V>
        decreases self,
    {
        match self {
            Assoc::Empty => None,
            Assoc::Bind(m, v, rest) => if m == n {
                Some(v)
            } else {
                rest.lookup(n)
            },
        }
    }

    /// Whether `n` is bound at all.
    pub open spec fn binds(self, n: Name) -> bool {
        self.lookup(n) is Some
    }

    pub fn new() -> (r: Assoc<V>)
        ensures
            r == Assoc::<V>::Empty,
    {
        Assoc::Empty
    }

    /// The environment with `n` bound to `v` in front of `self`.
    pub fn extend(self, n: Name, v: V) -> (r: Assoc<V>)
        ensures
            r == Assoc::Bind(n, v, Box::new(self)),
            r.lookup(n) == Some(v),
            forall|m: Name| m != n ==> r.lookup(m) == self.lookup(m),
    {
        Assoc::Bind(n, v, Box::new(self))
    }

    pub fn find(&self, n: Name) -> (r: Option<&V>)
        ensures
            match r {
                Some(v) => self.lookup(n) == Some(*v),
                None => self.lookup(n) is None,
            },
        decreases self,
    {
        match self {
            Assoc::Empty => None,
            Assoc::Bind(m, v, rest) => {
                if m.same(&n) {
                    Some(v)
                } else {
                    rest.find(n)
                }
            },
        }
    }

    /// The bindings of `self` in front of those of `back`.
    pub open spec fn concat(self, back: Assoc<V>) -> Assoc<V>
        decreases self,
    {
        match self {
            Assoc::Empty => back,
            Assoc::Bind(m, v, rest) => Assoc::Bind(m, v, Box::new(rest.concat(back))),
        }
    }

    /// The names that the environment binds.
    pub open spec fn dom(self) -> Set<Name>
        decreases self,
    {
        match self {
            Assoc::Empty => Set::empty(),
            Assoc::Bind(m, _, rest) => rest.dom().insert(m),
        }
    }

    pub proof fn lemma_concat_dom(self, back: Assoc<V>)
        ensures
            self.concat(back).dom() == self.dom().union(back.dom()),
        decreases self,
    {
        match self {
            Assoc::Empty => {
                assert(self.dom().union(back.dom()) =~= back.dom());
            },
            Assoc::Bind(m, v, rest) => {
                rest.lemma_concat_dom(back);
                assert(self.concat(back).dom() =~= self.dom().union(back.dom()));
            },
        }
    }

    pub fn append(self, back: Assoc<V>) -> (r: Assoc<V>)
        ensures
            r == self.concat(back),
        decreases self,
    {
        match self {
            Assoc::Empty => back,
            Assoc::Bind(m, v, rest) => Assoc::Bind(m, v, Box::new((*rest).append(back))),
        }
    }

    /// The number of bindings, or `usize::MAX` if there are more.
    pub fn count(&self) -> (r: usize)
        ensures
            r == (if self.len() <= usize::MAX {
                self.len()
            } else {
                usize::MAX as nat
            }),
        decreases self,
    {
        match self {
            Assoc::Empty => 0,
            Assoc::Bind(_, _, rest) => {
                let c = rest.count();
                if c == usize::MAX {
                    c
                } else {
                    c + 1
                }
            },
        }
    }

    pub fn is_empty(&self) -> (r: bool)
        ensures
            r == (self.len() == 0),
    {
        match self {
            Assoc::Empty => true,
            Assoc::Bind(..) => false,
        }
    }
}

impl<V: Copy> Assoc<V> {
    /// A copy of the environment.
    pub fn copied(&self) -> (r: Assoc<V>)
        ensures
            r == *self,
        decreases self,
    {
        match self {
            Assoc::Empty => Assoc::Empty,
            Assoc::Bind(m, v, rest) => Assoc::Bind(*m, *v, Box::new(rest.copied())),
        }
    }
}

} // verus!
