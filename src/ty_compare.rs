use vstd::prelude::*;
use crate::assoc::Assoc;
use crate::name::Name;
use crate::ty::{Fields, Names, Ty, TyErr, TyList, ty_eq, list_size, fields_size, ty_size};

verus! {

// Canonicalization resolves each `type_by_name` that is not a unification
// slot by looking it up in the type environment and canonicalizing the type
// it finds, in that same environment. The names of a `forall` are replaced by
// fresh unification slots (`Name::Gen`), numbered from `next` on; slots are
// left as they are. The result pairs the canonical type with the next unused
// slot number.
//
// `fuel` bounds how many lookups may be nested. It starts at the number of
// bindings of the environment, which is enough unless some binding's type
// leads back to its own name; on such a cycle the name where the fuel runs
// out is left unresolved, so canonicalization always terminates.

/// Binds the names of `ps`, in order, to fresh slots `Gen(next)`, `Gen(next + 1)`, ...
pub open spec fn freshen(ps: Names, ren: Assoc<Name>, next: nat) -> (Assoc<Name>, nat)
    decreases ps,
{
    match ps {
        Names::Nil => (ren, next),
        Names::Cons(p, rest) => freshen(
            *rest,
            Assoc::Bind(p, Name::Gen(next as usize), Box::new(ren)),
            next + 1,
        ),
    }
}

/// The fuel that canonicalization in `env` starts with: one lookup per binding.
pub open spec fn fuel_of(env: Assoc<Ty>) -> nat {
    if env.len() <= usize::MAX {
        env.len()
    } else {
        usize::MAX as nat
    }
}

/// The canonical form of the name `x` that no `forall` in scope binds.
pub open spec fn canon_name(x: Name, env: Assoc<Ty>, next: nat, fuel: nat) -> (Ty, nat)
    decreases fuel, 0nat,
{
    if x is Sym && fuel > 0 && env.lookup(x) is Some {
        canon(env.lookup(x).unwrap(), env, Assoc::Empty, next, (fuel - 1) as nat)
    } else {
        (Ty::ByName(x), next)
    }
}

pub open spec fn canon(t: Ty, env: Assoc<Ty>, ren: Assoc<Name>, next: nat, fuel: nat) -> (Ty, nat)
    decreases fuel, ty_size(t),
{
    match t {
        Ty::Fn { params, ret } => {
            let (ps, n1) = canon_list(params, env, ren, next, fuel);
            let (r, n2) = canon(*ret, env, ren, n1, fuel);
            (Ty::Fn { params: ps, ret: Box::new(r) }, n2)
        },
        Ty::Struct { fields } => {
            let (fs, n1) = canon_fields(fields, env, ren, next, fuel);
            (Ty::Struct { fields: fs }, n1)
        },
        Ty::Forall { vars, body } => {
            let (ren2, n1) = freshen(vars, ren, next);
            canon(*body, env, ren2, n1, fuel)
        },
        Ty::ByName(n) => match ren.lookup(n) {
            Some(g) => (Ty::ByName(g), next),
            None => canon_name(n, env, next, fuel),
        },
        Ty::Apply { rator, args } => {
            let (f, n1) = canon(*rator, env, ren, next, fuel);
            let (a, n2) = canon_list(args, env, ren, n1, fuel);
            (Ty::Apply { rator: Box::new(f), args: a }, n2)
        },
        _ => (t, next),
    }
}

pub open spec fn canon_list(l: TyList, env: Assoc<Ty>, ren: Assoc<Name>, next: nat, fuel: nat) -> (
    TyList,
    nat,
)
    decreases fuel, list_size(l),
{
    match l {
        TyList::Nil => (TyList::Nil, next),
        TyList::Cons(h, t) => {
            let (h2, n1) = canon(*h, env, ren, next, fuel);
            let (t2, n2) = canon_list(*t, env, ren, n1, fuel);
            (TyList::Cons(Box::new(h2), Box::new(t2)), n2)
        },
    }
}

pub open spec fn canon_fields(f: Fields, env: Assoc<Ty>, ren: Assoc<Name>, next: nat, fuel: nat) -> (
    Fields,
    nat,
)
    decreases fuel, fields_size(f),
{
    match f {
        Fields::Nil => (Fields::Nil, next),
        Fields::Cons(n, h, t) => {
            let (h2, n1) = canon(*h, env, ren, next, fuel);
            let (t2, n2) = canon_fields(*t, env, ren, n1, fuel);
            (Fields::Cons(n, Box::new(h2), Box::new(t2)), n2)
        },
    }
}

/// The canonical form of `t` in `env`, with the names that `ren` binds
/// renamed: the full contract of `canonicalize`.
pub open spec fn canonical(t: Ty, env: Assoc<Ty>, ren: Assoc<Name>, next: nat) -> (Ty, nat) {
    canon(t, env, ren, next, fuel_of(env))
}

/// `k` unification slots, none of them bound yet.
pub open spec fn unbound(k: nat) -> Seq<Option<Ty>> {
    Seq::new(k, |i: int| None)
}

/// What `slots` becomes when it grows from `before` to `after` entries, the new
/// ones unbound.
pub open spec fn grown(slots: Seq<Option<Ty>>, old_slots: Seq<Option<Ty>>, after: nat) -> bool {
    &&& slots.len() == after
    &&& old_slots.len() <= after
    &&& slots.subrange(0, old_slots.len() as int) == old_slots
    &&& forall|i: int| old_slots.len() <= i < after ==> (#[trigger] slots[i]) is None
}

proof fn lemma_grown_trans(a: Seq<Option<Ty>>, b: Seq<Option<Ty>>, c: Seq<Option<Ty>>)
    requires
        grown(b, a, b.len()),
        grown(c, b, c.len()),
    ensures
        grown(c, a, c.len()),
{
    assert forall|i: int| a.len() <= i < c.len() implies (#[trigger] c[i]) is None by {
        if i < b.len() {
            assert(c[i] == c.subrange(0, b.len() as int)[i]);
        }
    }
    assert(c.subrange(0, a.len() as int) =~= a) by {
        assert forall|i: int| 0 <= i < a.len() implies c.subrange(0, a.len() as int)[i] == a[i] by {
            assert(c[i] == c.subrange(0, b.len() as int)[i]);
            assert(b[i] == b.subrange(0, a.len() as int)[i]);
        }
    }
}

/// Allocates an unbound slot and returns its name.
fn fresh_slot(slots: &mut Vec<Option<Ty>>) -> (r: Name)
    ensures
        r == Name::Gen(old(slots)@.len() as usize),
        final(slots)@ == old(slots)@.push(None),
{
    let k = slots.len();
    slots.push(None);
    Name::Gen(k)
}

fn freshen_exec(ps: &Names, ren: Assoc<Name>, slots: &mut Vec<Option<Ty>>) -> (r: Assoc<Name>)
    ensures
        (r, final(slots)@.len() as nat) == freshen(*ps, ren, old(slots)@.len() as nat),
        grown(final(slots)@, old(slots)@, final(slots)@.len() as nat),
    decreases ps,
{
    match ps {
        Names::Nil => {
            assert(slots@.subrange(0, slots@.len() as int) =~= slots@);
            ren
        },
        Names::Cons(p, rest) => {
            let ghost s0 = slots@;
            let g = fresh_slot(slots);
            let ghost s1 = slots@;
            assert(s1.subrange(0, s0.len() as int) =~= s0);
            let r = freshen_exec(rest, ren.extend(*p, g), slots);
            proof {
                lemma_grown_trans(s0, s1, slots@);
            }
            r
        },
    }
}

/// The canonical form of `t`: names resolved through `ren` and then `env`,
/// `forall`s eliminated into fresh unification slots, appended to `slots`.
pub fn canonicalize(t: &Ty, env: &Assoc<Ty>, ren: &Assoc<Name>, slots: &mut Vec<Option<Ty>>) -> (r:
    Ty)
    ensures
        (r, final(slots)@.len() as nat) == canonical(*t, *env, *ren, old(slots)@.len() as nat),
        grown(final(slots)@, old(slots)@, final(slots)@.len() as nat),
{
    let fuel = env.count();
    canonicalize_with(t, env, ren, fuel, slots)
}

fn canonicalize_with(
    t: &Ty,
    env: &Assoc<Ty>,
    ren: &Assoc<Name>,
    fuel: usize,
    slots: &mut Vec<Option<Ty>>,
) -> (r: Ty)
    ensures
        (r, final(slots)@.len() as nat) == canon(*t, *env, *ren, old(slots)@.len() as nat, fuel as nat),
        grown(final(slots)@, old(slots)@, final(slots)@.len() as nat),
    decreases fuel, ty_size(*t),
{
    let ghost s0 = slots@;
    match t {
        Ty::Fn { params, ret } => {
            let ps = canonicalize_list(params, env, ren, fuel, slots);
            let ghost s1 = slots@;
            let r = canonicalize_with(ret, env, ren, fuel, slots);
            proof {
                lemma_grown_trans(s0, s1, slots@);
            }
            Ty::Fn { params: ps, ret: Box::new(r) }
        },
        Ty::Struct { fields } => Ty::Struct { fields: canonicalize_fields(fields, env, ren, fuel, slots) },
        Ty::Forall { vars, body } => {
            let ren2 = freshen_exec(vars, ren.copied(), slots);
            let ghost s1 = slots@;
            let r = canonicalize_with(body, env, &ren2, fuel, slots);
            proof {
                lemma_grown_trans(s0, s1, slots@);
            }
            r
        },
        Ty::ByName(n) => match ren.find(*n) {
            Some(g) => {
                assert(slots@.subrange(0, slots@.len() as int) =~= slots@);
                Ty::ByName(*g)
            },
            None => canonicalize_name(*n, env, fuel, slots),
        },
        Ty::Apply { rator, args } => {
            let f = canonicalize_with(rator, env, ren, fuel, slots);
            let ghost s1 = slots@;
            let a = canonicalize_list(args, env, ren, fuel, slots);
            proof {
                lemma_grown_trans(s0, s1, slots@);
            }
            Ty::Apply { rator: Box::new(f), args: a }
        },
        _ => {
            assert(slots@.subrange(0, slots@.len() as int) =~= slots@);
            t.duplicate()
        },
    }
}

fn canonicalize_name(n: Name, env: &Assoc<Ty>, fuel: usize, slots: &mut Vec<Option<Ty>>) -> (r: Ty)
    ensures
        (r, final(slots)@.len() as nat) == canon_name(n, *env, old(slots)@.len() as nat, fuel as nat),
        grown(final(slots)@, old(slots)@, final(slots)@.len() as nat),
    decreases fuel, 0nat,
{
    if let Name::Sym(_) = n {
        if fuel > 0 {
            if let Some(v) = env.find(n) {
                return canonicalize_with(v, env, &Assoc::Empty, fuel - 1, slots);
            }
        }
    }
    assert(slots@.subrange(0, slots@.len() as int) =~= slots@);
    Ty::ByName(n)
}

fn canonicalize_list(
    l: &TyList,
    env: &Assoc<Ty>,
    ren: &Assoc<Name>,
    fuel: usize,
    slots: &mut Vec<Option<Ty>>,
) -> (r: TyList)
    ensures
        (r, final(slots)@.len() as nat) == canon_list(*l, *env, *ren, old(slots)@.len() as nat, fuel as nat),
        grown(final(slots)@, old(slots)@, final(slots)@.len() as nat),
    decreases fuel, list_size(*l),
{
    match l {
        TyList::Nil => {
            assert(slots@.subrange(0, slots@.len() as int) =~= slots@);
            TyList::Nil
        },
        TyList::Cons(h, t) => {
            let ghost s0 = slots@;
            let h2 = canonicalize_with(h, env, ren, fuel, slots);
            let ghost s1 = slots@;
            let t2 = canonicalize_list(t, env, ren, fuel, slots);
            proof {
                lemma_grown_trans(s0, s1, slots@);
            }
            TyList::Cons(Box::new(h2), Box::new(t2))
        },
    }
}

fn canonicalize_fields(
    f: &Fields,
    env: &Assoc<Ty>,
    ren: &Assoc<Name>,
    fuel: usize,
    slots: &mut Vec<Option<Ty>>,
) -> (r: Fields)
    ensures
        (r, final(slots)@.len() as nat) == canon_fields(*f, *env, *ren, old(slots)@.len() as nat, fuel as nat),
        grown(final(slots)@, old(slots)@, final(slots)@.len() as nat),
    decreases fuel, fields_size(*f),
{
    match f {
        Fields::Nil => {
            assert(slots@.subrange(0, slots@.len() as int) =~= slots@);
            Fields::Nil
        },
        Fields::Cons(n, h, t) => {
            let ghost s0 = slots@;
            let h2 = canonicalize_with(h, env, ren, fuel, slots);
            let ghost s1 = slots@;
            let t2 = canonicalize_fields(t, env, ren, fuel, slots);
            proof {
                lemma_grown_trans(s0, s1, slots@);
            }
            Fields::Cons(*n, Box::new(h2), Box::new(t2))
        },
    }
}

// Subtyping walks the supertype with the subtype as context. A unification
// slot that is still unbound is bound to the other side; a bound one must
// equal it. So `forall`-generated variables are held to equality, not to
// subtyping. Parameters of a function type are compared with the two sides
// swapped.

/// The slot number of `t` if it is a slot of a table of `len` entries.
pub open spec fn slot_of(t: Ty, len: nat) -> Option<nat> {
    match t {
        Ty::ByName(Name::Gen(k)) => if k < len {
            Some(k as nat)
        } else {
            None
        },
        _ => None,
    }
}

pub open spec fn walk(sub: Ty, sup: Ty, s: Seq<Option<Ty>>) -> Result<Seq<Option<Ty>>, TyErr>
    decreases ty_size(sub) + ty_size(sup),
{
    if let Some(k) = slot_of(sup, s.len()) {
        match s[k as int] {
            None => Ok(s.update(k as int, Some(sub))),
            Some(v) => if v == sub {
                Ok(s)
            } else {
                Err(TyErr::Mismatch(sub, sup))
            },
        }
    } else if let Some(k) = slot_of(sub, s.len()) {
        match s[k as int] {
            None => Ok(s.update(k as int, Some(sup))),
            Some(v) => if v == sup {
                Ok(s)
            } else {
                Err(TyErr::Mismatch(sub, sup))
            },
        }
    } else {
        match (sub, sup) {
            (Ty::Fn { params: p1, ret: r1 }, Ty::Fn { params: p2, ret: r2 }) => {
                if p1.seq().len() != p2.seq().len() {
                    Err(TyErr::Mismatch(sub, sup))
                } else {
                    match walk_list(p2, p1, s) {
                        Ok(s1) => walk(*r1, *r2, s1),
                        Err(e) => Err(e),
                    }
                }
            },
            (Ty::Struct { fields: f1 }, Ty::Struct { fields: f2 }) => {
                if f1.names() != f2.names() {
                    Err(TyErr::Mismatch(sub, sup))
                } else {
                    walk_fields(f1, f2, s)
                }
            },
            (Ty::Apply { rator: a1, args: l1 }, Ty::Apply { rator: a2, args: l2 }) => {
                if l1.seq().len() != l2.seq().len() {
                    Err(TyErr::Mismatch(sub, sup))
                } else {
                    match walk(*a1, *a2, s) {
                        Ok(s1) => walk_list(l1, l2, s1),
                        Err(e) => Err(e),
                    }
                }
            },
            _ => if sub == sup {
                Ok(s)
            } else {
                Err(TyErr::Mismatch(sub, sup))
            },
        }
    }
}

/// Pointwise walk of two lists of the same length.
pub open spec fn walk_list(subs: TyList, sups: TyList, s: Seq<Option<Ty>>) -> Result<
    Seq<Option<Ty>>,
    TyErr,
>
    decreases list_size(subs) + list_size(sups),
{
    match (subs, sups) {
        (TyList::Cons(h1, t1), TyList::Cons(h2, t2)) => match walk(*h1, *h2, s) {
            Ok(s1) => walk_list(*t1, *t2, s1),
            Err(e) => Err(e),
        },
        _ => Ok(s),
    }
}

/// Pointwise walk of the components of two structs with the same names.
pub open spec fn walk_fields(subs: Fields, sups: Fields, s: Seq<Option<Ty>>) -> Result<
    Seq<Option<Ty>>,
    TyErr,
>
    decreases fields_size(subs) + fields_size(sups),
{
    match (subs, sups) {
        (Fields::Cons(_, h1, t1), Fields::Cons(_, h2, t2)) => match walk(*h1, *h2, s) {
            Ok(s1) => walk_fields(*t1, *t2, s1),
            Err(e) => Err(e),
        },
        _ => Ok(s),
    }
}

fn slot_index(t: &Ty, len: usize) -> (r: Option<usize>)
    ensures
        match slot_of(*t, len as nat) {
            Some(k) => r == Some(k as usize),
            None => r is None,
        },
{
    match t {
        Ty::ByName(Name::Gen(k)) => if *k < len {
            Some(*k)
        } else {
            None
        },
        _ => None,
    }
}

fn same_field_names(a: &Fields, b: &Fields) -> (r: bool)
    ensures
        r == (a.names() == b.names()),
    decreases a,
{
    match (a, b) {
        (Fields::Nil, Fields::Nil) => true,
        (Fields::Cons(n1, _, t1), Fields::Cons(n2, _, t2)) => {
            let r = n1.same(n2) && same_field_names(t1, t2);
            assert(r == (a.names() == b.names())) by {
                if a.names() == b.names() {
                    assert(a.names()[0] == b.names()[0]);
                    assert(t1.names() =~= a.names().drop_first());
                    assert(t2.names() =~= b.names().drop_first());
                }
                if r {
                    assert(a.names() =~= b.names());
                }
            }
            r
        },
        (Fields::Nil, Fields::Cons(..)) => {
            assert(b.names().len() > 0);
            false
        },
        (Fields::Cons(..), Fields::Nil) => {
            assert(a.names().len() > 0);
            false
        },
    }
}

fn same_length(a: &TyList, b: &TyList) -> (r: bool)
    ensures
        r == (a.seq().len() == b.seq().len()),
    decreases a,
{
    match (a, b) {
        (TyList::Nil, TyList::Nil) => true,
        (TyList::Cons(_, t1), TyList::Cons(_, t2)) => same_length(t1, t2),
        _ => false,
    }
}

/// Binds slot `k` to `t` if it is unbound, else checks that it holds `t`.
fn unify_slot(k: usize, t: &Ty, sub: &Ty, sup: &Ty, s: &mut Vec<Option<Ty>>) -> (r: Result<(), TyErr>)
    requires
        k < old(s)@.len(),
    ensures
        match old(s)@[k as int] {
            None => r is Ok && final(s)@ == old(s)@.update(k as int, Some(*t)),
            Some(v) => if v == *t {
                r is Ok && final(s)@ == old(s)@
            } else {
                r == Err::<(), TyErr>(TyErr::Mismatch(*sub, *sup))
            },
        },
{
    let same = match &s[k] {
        None => None,
        Some(v) => Some(ty_eq(v, t)),
    };
    match same {
        None => {
            s.set(k, Some(t.duplicate()));
            Ok(())
        },
        Some(true) => Ok(()),
        Some(false) => Err(TyErr::Mismatch(sub.duplicate(), sup.duplicate())),
    }
}

fn walk_exec(sub: &Ty, sup: &Ty, s: &mut Vec<Option<Ty>>) -> (r: Result<(), TyErr>)
    ensures
        match walk(*sub, *sup, old(s)@) {
            Ok(s2) => r is Ok && final(s)@ == s2,
            Err(e) => r == Err::<(), TyErr>(e),
        },
    decreases ty_size(*sub) + ty_size(*sup),
{
    if let Some(k) = slot_index(sup, s.len()) {
        return unify_slot(k, sub, sub, sup, s);
    }
    if let Some(k) = slot_index(sub, s.len()) {
        return unify_slot(k, sup, sub, sup, s);
    }
    match (sub, sup) {
        (Ty::Fn { params: p1, ret: r1 }, Ty::Fn { params: p2, ret: r2 }) => {
            if !same_length(p1, p2) {
                Err(TyErr::Mismatch(sub.duplicate(), sup.duplicate()))
            } else {
                match walk_list_exec(p2, p1, s) {
                    Ok(()) => walk_exec(r1, r2, s),
                    Err(e) => Err(e),
                }
            }
        },
        (Ty::Struct { fields: f1 }, Ty::Struct { fields: f2 }) => {
            if !same_field_names(f1, f2) {
                Err(TyErr::Mismatch(sub.duplicate(), sup.duplicate()))
            } else {
                walk_fields_exec(f1, f2, s)
            }
        },
        (Ty::Apply { rator: a1, args: l1 }, Ty::Apply { rator: a2, args: l2 }) => {
            if !same_length(l1, l2) {
                Err(TyErr::Mismatch(sub.duplicate(), sup.duplicate()))
            } else {
                match walk_exec(a1, a2, s) {
                    Ok(()) => walk_list_exec(l1, l2, s),
                    Err(e) => Err(e),
                }
            }
        },
        _ => {
            if ty_eq(sub, sup) {
                Ok(())
            } else {
                Err(TyErr::Mismatch(sub.duplicate(), sup.duplicate()))
            }
        },
    }
}

fn walk_list_exec(subs: &TyList, sups: &TyList, s: &mut Vec<Option<Ty>>) -> (r: Result<(), TyErr>)
    ensures
        match walk_list(*subs, *sups, old(s)@) {
            Ok(s2) => r is Ok && final(s)@ == s2,
            Err(e) => r == Err::<(), TyErr>(e),
        },
    decreases list_size(*subs) + list_size(*sups),
{
    match (subs, sups) {
        (TyList::Cons(h1, t1), TyList::Cons(h2, t2)) => match walk_exec(h1, h2, s) {
            Ok(()) => walk_list_exec(t1, t2, s),
            Err(e) => Err(e),
        },
        _ => Ok(()),
    }
}

fn walk_fields_exec(subs: &Fields, sups: &Fields, s: &mut Vec<Option<Ty>>) -> (r: Result<(), TyErr>)
    ensures
        match walk_fields(*subs, *sups, old(s)@) {
            Ok(s2) => r is Ok && final(s)@ == s2,
            Err(e) => r == Err::<(), TyErr>(e),
        },
    decreases fields_size(*subs) + fields_size(*sups),
{
    match (subs, sups) {
        (Fields::Cons(_, h1, t1), Fields::Cons(_, h2, t2)) => match walk_exec(h1, h2, s) {
            Ok(()) => walk_fields_exec(t1, t2, s),
            Err(e) => Err(e),
        },
        _ => Ok(()),
    }
}

/// What `must_subtype` returns: both sides canonicalized (the subtype first)
/// into one fresh unification table, then the supertype walked with the
/// subtype as context.
pub open spec fn subtype_result(sub: Ty, sup: Ty, env: Assoc<Ty>) -> Result<(), TyErr> {
    let (s, n1) = canonical(sub, env, Assoc::Empty, 0);
    let (p, n2) = canonical(sup, env, Assoc::Empty, n1);
    match walk(s, p, unbound(n2)) {
        Ok(_) => Ok(()),
        Err(e) => Err(e),
    }
}

/// What `must_equal` returns: each side canonicalized on its own, with slots
/// numbered from zero, so that types that differ only in the names of their
/// `forall`-bound variables are equal.
pub open spec fn equal_result(lhs: Ty, rhs: Ty, env: Assoc<Ty>) -> Result<(), TyErr> {
    if canonical(lhs, env, Assoc::Empty, 0).0 == canonical(rhs, env, Assoc::Empty, 0).0 {
        Ok(())
    } else {
        Err(TyErr::Mismatch(lhs, rhs))
    }
}

/// Checks that `sub` is a subtype of `sup` in the type environment `env`.
pub fn must_subtype(sub: &Ty, sup: &Ty, env: Assoc<Ty>) -> (r: Result<(), TyErr>)
    ensures
        r == subtype_result(*sub, *sup, env),
{
    let mut slots: Vec<Option<Ty>> = Vec::new();
    let s = canonicalize(sub, &env, &Assoc::Empty, &mut slots);
    let ghost s1 = slots@;
    let p = canonicalize(sup, &env, &Assoc::Empty, &mut slots);
    proof {
        lemma_grown_trans(Seq::empty(), s1, slots@);
        assert(slots@ =~= unbound(slots@.len() as nat));
    }
    match walk_exec(&s, &p, &mut slots) {
        Ok(()) => Ok(()),
        Err(e) => Err(e),
    }
}

/// Checks that `lhs` and `rhs` have the same canonical form in `env`.
pub fn must_equal(lhs: &Ty, rhs: &Ty, env: Assoc<Ty>) -> (r: Result<(), TyErr>)
    ensures
        r == equal_result(*lhs, *rhs, env),
{
    let mut slots_l: Vec<Option<Ty>> = Vec::new();
    let l = canonicalize(lhs, &env, &Assoc::Empty, &mut slots_l);
    let mut slots_r: Vec<Option<Ty>> = Vec::new();
    let r = canonicalize(rhs, &env, &Assoc::Empty, &mut slots_r);
    if ty_eq(&l, &r) {
        Ok(())
    } else {
        Err(TyErr::Mismatch(lhs.duplicate(), rhs.duplicate()))
    }
}

} // verus!
