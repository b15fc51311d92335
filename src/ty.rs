use vstd::prelude::*;
use crate::assoc::Assoc;
use crate::name::Name;

verus! {

/// The grammar categories that syntax can be quoted at.
#[derive(Clone, Copy, Debug, PartialEq, Eq, Hash, Structural)]
pub enum Nt {
    Expr,
    Pat,
    Type,
}

/// A type. `Syntax(nt)` is the abstract parametric type of the nonterminal
/// `nt`; applied to one argument `T` it is the type `nt<[T]<` of quoted syntax.
#[derive(PartialEq, Eq)]
pub enum Ty {
    Int,
    Nat,
    Bool,
    Float,
    Fn { params: TyList, ret: Box<Ty> },
    Struct { fields: Fields },
    Forall { vars: Names, body: Box<Ty> },
    ByName(Name),
    Apply { rator: Box<Ty>, args: TyList },
    Syntax(Nt),
}

/// A sequence of types.
#[derive(PartialEq, Eq)]
pub enum TyList {
    Nil,
    Cons(Box<Ty>, Box<TyList>),
}

/// The components of a struct type, in order, each with its name.
#[derive(PartialEq, Eq)]
pub enum Fields {
    Nil,
    Cons(Name, Box<Ty>, Box<Fields>),
}

/// A sequence of names.
#[derive(PartialEq, Eq)]
pub enum Names {
    Nil,
    Cons(Name, Box<Names>),
}

/// A failed type check.
#[derive(PartialEq, Eq)]
pub enum TyErr {
    /// The first type was found where the second was required.
    Mismatch(Ty, Ty),
    /// A name that no environment binds.
    UnboundName(Name),
    /// An unquotation of a pattern inside an expression quotation needs a
    /// type annotation.
    NeedsAnnotation(Nt),
    /// An unquotation that leaves more phases than the quotations entered.
    BadQuotationDepth,
    /// A type that is not `nt<[T]<` where quoted syntax of `nt` (or, for
    /// `None`, of any nonterminal) was required.
    NotAQuotationHead(Option<Nt>),
    /// A form used where it has no meaning (a pattern quotation walked as an
    /// expression, a variable reference walked as a pattern).
    NotValidHere,
    /// A struct pattern matched against a type that is not a struct with the
    /// same component names.
    BadShape(Ty),
}

pub open spec fn ty_size(t: Ty) -> nat
    decreases t,
{
    match t {
        Ty::Fn { params, ret } => 1 + list_size(params) + ty_size(*ret),
        Ty::Struct { fields } => 1 + fields_size(fields),
        Ty::Forall { vars, body } => 1 + ty_size(*body),
        Ty::Apply { rator, args } => 1 + ty_size(*rator) + list_size(args),
        _ => 1,
    }
}

pub open spec fn list_size(l: TyList) -> nat
    decreases l,
{
    match l {
        TyList::Nil => 1,
        TyList::Cons(h, t) => 1 + ty_size(*h) + list_size(*t),
    }
}

pub open spec fn fields_size(f: Fields) -> nat
    decreases f,
{
    match f {
        Fields::Nil => 1,
        Fields::Cons(_, h, t) => 1 + ty_size(*h) + fields_size(*t),
    }
}

impl TyList {
    pub open spec fn seq(self) -> Seq<Ty>
        decreases self,
    {
        match self {
            TyList::Nil => Seq::empty(),
            TyList::Cons(h, t) => seq![*h] + t.seq(),
        }
    }

    /// The list holding the elements of `v` in order.
    pub fn from_vec(v: Vec<Ty>) -> (r: TyList)
        ensures
            r.seq() == v@,
    {
        let mut v = v;
        let ghost all = v@;
        let mut acc = TyList::Nil;
        while v.len() > 0
            invariant
                all == v@ + acc.seq(),
            decreases v@.len(),
        {
            let t = v.pop().unwrap();
            acc = TyList::Cons(Box::new(t), Box::new(acc));
            assert(all =~= v@ + acc.seq());
        }
        assert(all =~= acc.seq());
        acc
    }

    pub fn duplicate(&self) -> (r: TyList)
        ensures
            r == *self,
        decreases self,
    {
        match self {
            TyList::Nil => TyList::Nil,
            TyList::Cons(h, t) => TyList::Cons(Box::new(h.duplicate()), Box::new(t.duplicate())),
        }
    }
}

impl Fields {
    pub open spec fn names(self) -> Seq<Name>
        decreases self,
    {
        match self {
            Fields::Nil => Seq::empty(),
            Fields::Cons(n, _, t) => seq![n] + t.names(),
        }
    }

    pub open spec fn types(self) -> Seq<Ty>
        decreases self,
    {
        match self {
            Fields::Nil => Seq::empty(),
            Fields::Cons(_, h, t) => seq![*h] + t.types(),
        }
    }

    /// The fields named by `names`, in order, with the types of `tys`.
    pub fn from_vecs(names: Vec<Name>, tys: Vec<Ty>) -> (r: Fields)
        requires
            names@.len() == tys@.len(),
        ensures
            r.names() == names@,
            r.types() == tys@,
    {
        let mut names = names;
        let mut tys = tys;
        let ghost all_n = names@;
        let ghost all_t = tys@;
        let mut acc = Fields::Nil;
        while tys.len() > 0
            invariant
                names@.len() == tys@.len(),
                all_n == names@ + acc.names(),
                all_t == tys@ + acc.types(),
            decreases tys@.len(),
        {
            let t = tys.pop().unwrap();
            let n = names.pop().unwrap();
            acc = Fields::Cons(n, Box::new(t), Box::new(acc));
            assert(all_n =~= names@ + acc.names());
            assert(all_t =~= tys@ + acc.types());
        }
        assert(all_n =~= acc.names());
        assert(all_t =~= acc.types());
        acc
    }

    pub fn duplicate(&self) -> (r: Fields)
        ensures
            r == *self,
        decreases self,
    {
        match self {
            Fields::Nil => Fields::Nil,
            Fields::Cons(n, h, t) => Fields::Cons(
                *n,
                Box::new(h.duplicate()),
                Box::new(t.duplicate()),
            ),
        }
    }
}

impl Names {
    pub open spec fn seq(self) -> Seq<Name>
        decreases self,
    {
        match self {
            Names::Nil => Seq::empty(),
            Names::Cons(n, t) => seq![n] + t.seq(),
        }
    }

    pub fn from_vec(v: Vec<Name>) -> (r: Names)
        ensures
            r.seq() == v@,
    {
        let mut v = v;
        let ghost all = v@;
        let mut acc = Names::Nil;
        while v.len() > 0
            invariant
                all == v@ + acc.seq(),
            decreases v@.len(),
        {
            let n = v.pop().unwrap();
            acc = Names::Cons(n, Box::new(acc));
            assert(all =~= v@ + acc.seq());
        }
        assert(all =~= acc.seq());
        acc
    }

    pub fn duplicate(&self) -> (r: Names)
        ensures
            r == *self,
        decreases self,
    {
        match self {
            Names::Nil => Names::Nil,
            Names::Cons(n, t) => Names::Cons(*n, Box::new(t.duplicate())),
        }
    }
}

impl Ty {
    pub fn duplicate(&self) -> (r: Ty)
        ensures
            r == *self,
        decreases self,
    {
        match self {
            Ty::Int => Ty::Int,
            Ty::Nat => Ty::Nat,
            Ty::Bool => Ty::Bool,
            Ty::Float => Ty::Float,
            Ty::Fn { params, ret } => Ty::Fn {
                params: params.duplicate(),
                ret: Box::new(ret.duplicate()),
            },
            Ty::Struct { fields } => Ty::Struct { fields: fields.duplicate() },
            Ty::Forall { vars, body } => Ty::Forall {
                vars: vars.duplicate(),
                body: Box::new(body.duplicate()),
            },
            Ty::ByName(n) => Ty::ByName(*n),
            Ty::Apply { rator, args } => Ty::Apply {
                rator: Box::new(rator.duplicate()),
                args: args.duplicate(),
            },
            Ty::Syntax(nt) => Ty::Syntax(*nt),
        }
    }

    /// `fn(params) -> ret`.
    pub fn func(params: Vec<Ty>, ret: Ty) -> (r: Ty)
        ensures
            r matches Ty::Fn { params: p, ret: q } && p.seq() == params@ && *q == ret,
    {
        Ty::Fn { params: TyList::from_vec(params), ret: Box::new(ret) }
    }

    /// `struct { names[i]: tys[i], ... }`.
    pub fn record(names: Vec<Name>, tys: Vec<Ty>) -> (r: Ty)
        requires
            names@.len() == tys@.len(),
        ensures
            r matches Ty::Struct { fields } && fields.names() == names@ && fields.types() == tys@,
    {
        Ty::Struct { fields: Fields::from_vecs(names, tys) }
    }

    /// `forall params. body`.
    pub fn for_all(params: Vec<Name>, body: Ty) -> (r: Ty)
        ensures
            r matches Ty::Forall { vars: p, body: b } && p.seq() == params@ && *b == body,
    {
        Ty::Forall { vars: Names::from_vec(params), body: Box::new(body) }
    }

    /// `rator<[args]<`.
    pub fn apply(rator: Ty, args: Vec<Ty>) -> (r: Ty)
        ensures
            r matches Ty::Apply { rator: f, args: a } && *f == rator && a.seq() == args@,
    {
        Ty::Apply { rator: Box::new(rator), args: TyList::from_vec(args) }
    }
}

impl Assoc<Ty> {
    pub fn duplicate(&self) -> (r: Assoc<Ty>)
        ensures
            r == *self,
        decreases self,
    {
        match self {
            Assoc::Empty => Assoc::Empty,
            Assoc::Bind(m, v, rest) => Assoc::Bind(*m, v.duplicate(), Box::new(rest.duplicate())),
        }
    }
}

pub fn names_eq(a: &Names, b: &Names) -> (r: bool)
    ensures
        r == (*a == *b),
    decreases a,
{
    match (a, b) {
        (Names::Nil, Names::Nil) => true,
        (Names::Cons(n1, t1), Names::Cons(n2, t2)) => n1.same(n2) && names_eq(t1, t2),
        _ => false,
    }
}

pub fn list_eq(a: &TyList, b: &TyList) -> (r: bool)
    ensures
        r == (*a == *b),
    decreases a,
{
    match (a, b) {
        (TyList::Nil, TyList::Nil) => true,
        (TyList::Cons(h1, t1), TyList::Cons(h2, t2)) => ty_eq(h1, h2) && list_eq(t1, t2),
        _ => false,
    }
}

pub fn fields_eq(a: &Fields, b: &Fields) -> (r: bool)
    ensures
        r == (*a == *b),
    decreases a,
{
    match (a, b) {
        (Fields::Nil, Fields::Nil) => true,
        (Fields::Cons(n1, h1, t1), Fields::Cons(n2, h2, t2)) => n1.same(n2) && ty_eq(h1, h2)
            && fields_eq(t1, t2),
        _ => false,
    }
}

/// Structural equality of types.
pub fn ty_eq(a: &Ty, b: &Ty) -> (r: bool)
    ensures
        r == (*a == *b),
    decreases a,
{
    match (a, b) {
        (Ty::Int, Ty::Int) => true,
        (Ty::Nat, Ty::Nat) => true,
        (Ty::Bool, Ty::Bool) => true,
        (Ty::Float, Ty::Float) => true,
        (Ty::Fn { params: p1, ret: r1 }, Ty::Fn { params: p2, ret: r2 }) => list_eq(p1, p2)
            && ty_eq(r1, r2),
        (Ty::Struct { fields: f1 }, Ty::Struct { fields: f2 }) => fields_eq(f1, f2),
        (Ty::Forall { vars: p1, body: b1 }, Ty::Forall { vars: p2, body: b2 }) => names_eq(
            p1,
            p2,
        ) && ty_eq(b1, b2),
        (Ty::ByName(n1), Ty::ByName(n2)) => n1.same(n2),
        (Ty::Apply { rator: f1, args: a1 }, Ty::Apply { rator: f2, args: a2 }) => ty_eq(f1, f2)
            && list_eq(a1, a2),
        (Ty::Syntax(x), Ty::Syntax(y)) => *x == *y,
        _ => false,
    }
}

} // verus!
