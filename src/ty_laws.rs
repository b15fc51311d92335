use vstd::prelude::*;
use crate::assoc::Assoc;
use crate::name::Name;
use crate::ty::{Fields, Names, Ty, TyErr, TyList, list_size, fields_size, ty_size};
use crate::ty_compare::{
    canon, canon_fields, canon_list, canon_name, canonical, equal_result, freshen, fuel_of, slot_of,
    subtype_result, unbound, walk, walk_fields, walk_list,
};

verus! {

// What the type comparator guarantees: a name is canonicalized as the type
// it is bound to, canonical forms are fixed points of canonicalization,
// subtyping is reflexive, and it agrees with equality.

/// `t` holds no `forall`.
pub open spec fn forall_free(t: Ty) -> bool
    decreases t,
{
    match t {
        Ty::Fn { params, ret } => list_forall_free(params) && forall_free(*ret),
        Ty::Struct { fields } => fields_forall_free(fields),
        Ty::Forall { .. } => false,
        Ty::Apply { rator, args } => forall_free(*rator) && list_forall_free(args),
        _ => true,
    }
}

pub open spec fn list_forall_free(l: TyList) -> bool
    decreases l,
{
    match l {
        TyList::Nil => true,
        TyList::Cons(h, t) => forall_free(*h) && list_forall_free(*t),
    }
}

pub open spec fn fields_forall_free(f: Fields) -> bool
    decreases f,
{
    match f {
        Fields::Nil => true,
        Fields::Cons(_, h, t) => forall_free(*h) && fields_forall_free(*t),
    }
}

/// No type bound in `env` holds a `forall`.
pub open spec fn env_forall_free(env: Assoc<Ty>) -> bool
    decreases env,
{
    match env {
        Assoc::Empty => true,
        Assoc::Bind(_, v, rest) => forall_free(v) && env_forall_free(*rest),
    }
}

proof fn lemma_env_forall_free_lookup(env: Assoc<Ty>, x: Name)
    requires
        env_forall_free(env),
        env.lookup(x) is Some,
    ensures
        forall_free(env.lookup(x).unwrap()),
    decreases env,
{
    match env {
        Assoc::Empty => {},
        Assoc::Bind(m, _, rest) => if m != x {
            lemma_env_forall_free_lookup(*rest, x);
        },
    }
}

/// Without `forall`s, canonicalization allocates no slot and does not depend
/// on the slot counter.
proof fn lemma_canon_no_slots(t: Ty, env: Assoc<Ty>, ren: Assoc<Name>, n: nat, m: nat, fuel: nat)
    requires
        forall_free(t),
        env_forall_free(env),
    ensures
        canon(t, env, ren, n, fuel).1 == n,
        canon(t, env, ren, m, fuel).1 == m,
        canon(t, env, ren, n, fuel).0 == canon(t, env, ren, m, fuel).0,
    decreases fuel, ty_size(t),
{
    match t {
        Ty::Fn { params, ret } => {
            lemma_canon_list_no_slots(params, env, ren, n, m, fuel);
            lemma_canon_no_slots(*ret, env, ren, n, m, fuel);
        },
        Ty::Struct { fields } => {
            lemma_canon_fields_no_slots(fields, env, ren, n, m, fuel);
        },
        Ty::ByName(x) => {
            if x is Sym && fuel > 0 && env.lookup(x) is Some {
                lemma_env_forall_free_lookup(env, x);
                lemma_canon_no_slots(env.lookup(x).unwrap(), env, Assoc::Empty, n, m, (fuel - 1) as nat);
            }
            assert(canon_name(x, env, n, fuel).1 == n);
            assert(canon_name(x, env, m, fuel).1 == m);
            assert(canon_name(x, env, n, fuel).0 == canon_name(x, env, m, fuel).0);
        },
        Ty::Apply { rator, args } => {
            lemma_canon_no_slots(*rator, env, ren, n, m, fuel);
            lemma_canon_list_no_slots(args, env, ren, n, m, fuel);
        },
        _ => {},
    }
}

proof fn lemma_canon_list_no_slots(l: TyList, env: Assoc<Ty>, ren: Assoc<Name>, n: nat, m: nat, fuel: nat)
    requires
        list_forall_free(l),
        env_forall_free(env),
    ensures
        canon_list(l, env, ren, n, fuel).1 == n,
        canon_list(l, env, ren, m, fuel).1 == m,
        canon_list(l, env, ren, n, fuel).0 == canon_list(l, env, ren, m, fuel).0,
    decreases fuel, list_size(l),
{
    match l {
        TyList::Nil => {},
        TyList::Cons(h, t) => {
            lemma_canon_no_slots(*h, env, ren, n, m, fuel);
            lemma_canon_list_no_slots(*t, env, ren, n, m, fuel);
        },
    }
}

proof fn lemma_canon_fields_no_slots(f: Fields, env: Assoc<Ty>, ren: Assoc<Name>, n: nat, m: nat, fuel: nat)
    requires
        fields_forall_free(f),
        env_forall_free(env),
    ensures
        canon_fields(f, env, ren, n, fuel).1 == n,
        canon_fields(f, env, ren, m, fuel).1 == m,
        canon_fields(f, env, ren, n, fuel).0 == canon_fields(f, env, ren, m, fuel).0,
    decreases fuel, fields_size(f),
{
    match f {
        Fields::Nil => {},
        Fields::Cons(_, h, t) => {
            lemma_canon_no_slots(*h, env, ren, n, m, fuel);
            lemma_canon_fields_no_slots(*t, env, ren, n, m, fuel);
        },
    }
}

/// With an empty unification table the walk is structural equality.
proof fn lemma_walk_empty(x: Ty, y: Ty)
    ensures
        walk(x, y, Seq::empty()) is Ok <==> x == y,
        walk(x, y, Seq::empty()) is Ok ==> walk(x, y, Seq::empty()) == Ok::<
            Seq<Option<Ty>>,
            TyErr,
        >(Seq::empty()),
    decreases ty_size(x) + ty_size(y),
{
    match (x, y) {
        (Ty::Fn { params: p1, ret: r1 }, Ty::Fn { params: p2, ret: r2 }) => {
            if p1.seq().len() == p2.seq().len() {
                lemma_walk_list_empty(p2, p1);
                lemma_walk_empty(*r1, *r2);
            }
        },
        (Ty::Struct { fields: f1 }, Ty::Struct { fields: f2 }) => {
            if f1.names() == f2.names() {
                lemma_walk_fields_empty(f1, f2);
            }
        },
        (Ty::Apply { rator: a1, args: l1 }, Ty::Apply { rator: a2, args: l2 }) => {
            if l1.seq().len() == l2.seq().len() {
                lemma_walk_empty(*a1, *a2);
                lemma_walk_list_empty(l1, l2);
            }
        },
        _ => {},
    }
}

proof fn lemma_walk_list_empty(l1: TyList, l2: TyList)
    requires
        l1.seq().len() == l2.seq().len(),
    ensures
        walk_list(l1, l2, Seq::empty()) is Ok <==> l1 == l2,
        walk_list(l1, l2, Seq::empty()) is Ok ==> walk_list(l1, l2, Seq::empty()) == Ok::<
            Seq<Option<Ty>>,
            TyErr,
        >(Seq::empty()),
    decreases list_size(l1) + list_size(l2),
{
    match (l1, l2) {
        (TyList::Cons(h1, t1), TyList::Cons(h2, t2)) => {
            lemma_walk_empty(*h1, *h2);
            lemma_walk_list_empty(*t1, *t2);
        },
        (TyList::Nil, TyList::Cons(..)) => {
            assert(l2.seq().len() > 0);
        },
        (TyList::Cons(..), TyList::Nil) => {
            assert(l1.seq().len() > 0);
        },
        _ => {},
    }
}

proof fn lemma_walk_fields_empty(f1: Fields, f2: Fields)
    requires
        f1.names() == f2.names(),
    ensures
        walk_fields(f1, f2, Seq::empty()) is Ok <==> f1 == f2,
        walk_fields(f1, f2, Seq::empty()) is Ok ==> walk_fields(f1, f2, Seq::empty()) == Ok::<
            Seq<Option<Ty>>,
            TyErr,
        >(Seq::empty()),
    decreases fields_size(f1) + fields_size(f2),
{
    match (f1, f2) {
        (Fields::Cons(n1, h1, t1), Fields::Cons(n2, h2, t2)) => {
            assert(f1.names()[0] == n1 && f2.names()[0] == n2);
            assert(t1.names() =~= f1.names().drop_first());
            assert(t2.names() =~= f2.names().drop_first());
            lemma_walk_empty(*h1, *h2);
            lemma_walk_fields_empty(*t1, *t2);
        },
        (Fields::Nil, Fields::Cons(..)) => {
            assert(f2.names().len() > 0);
        },
        (Fields::Cons(..), Fields::Nil) => {
            assert(f1.names().len() > 0);
        },
        _ => {},
    }
}

/// For types without `forall` (in themselves and in the environment), the two
/// comparisons agree: `must_equal` succeeds exactly when `must_subtype` does.
pub proof fn lemma_equal_iff_subtype(t: Ty, u: Ty, env: Assoc<Ty>)
    requires
        forall_free(t),
        forall_free(u),
        env_forall_free(env),
    ensures
        equal_result(t, u, env) is Ok <==> subtype_result(t, u, env) is Ok,
{
    lemma_canon_no_slots(t, env, Assoc::Empty, 0, 0, fuel_of(env));
    lemma_canon_no_slots(u, env, Assoc::Empty, 0, 0, fuel_of(env));
    let s = canonical(t, env, Assoc::Empty, 0).0;
    let p = canonical(u, env, Assoc::Empty, 0).0;
    assert(unbound(0) =~= Seq::<Option<Ty>>::empty());
    lemma_walk_empty(s, p);
}

/// Resolving the names of `t` that no enclosing `forall` binds (those are
/// listed in `bound`) takes at most `fuel` nested lookups in `env`.
pub open spec fn resolves_within(t: Ty, env: Assoc<Ty>, bound: Seq<Name>, fuel: nat) -> bool
    decreases fuel, ty_size(t),
{
    match t {
        Ty::Fn { params, ret } => list_resolves_within(params, env, bound, fuel) && resolves_within(
            *ret,
            env,
            bound,
            fuel,
        ),
        Ty::Struct { fields } => fields_resolve_within(fields, env, bound, fuel),
        Ty::Forall { vars, body } => resolves_within(*body, env, bound + vars.seq(), fuel),
        Ty::ByName(x) => bound.contains(x) || name_resolves_within(x, env, fuel),
        Ty::Apply { rator, args } => resolves_within(*rator, env, bound, fuel)
            && list_resolves_within(args, env, bound, fuel),
        _ => true,
    }
}

pub open spec fn name_resolves_within(x: Name, env: Assoc<Ty>, fuel: nat) -> bool
    decreases fuel, 0nat,
{
    x is Sym && env.lookup(x) is Some ==> fuel > 0 && resolves_within(
        env.lookup(x).unwrap(),
        env,
        Seq::empty(),
        (fuel - 1) as nat,
    )
}

pub open spec fn list_resolves_within(l: TyList, env: Assoc<Ty>, bound: Seq<Name>, fuel: nat) -> bool
    decreases fuel, list_size(l),
{
    match l {
        TyList::Nil => true,
        TyList::Cons(h, t) => resolves_within(*h, env, bound, fuel) && list_resolves_within(
            *t,
            env,
            bound,
            fuel,
        ),
    }
}

pub open spec fn fields_resolve_within(f: Fields, env: Assoc<Ty>, bound: Seq<Name>, fuel: nat) -> bool
    decreases fuel, fields_size(f),
{
    match f {
        Fields::Nil => true,
        Fields::Cons(_, h, t) => resolves_within(*h, env, bound, fuel) && fields_resolve_within(
            *t,
            env,
            bound,
            fuel,
        ),
    }
}

/// No binding's type leads back to its own name: resolving the type bound
/// to any name takes fewer nested lookups than the environment has bindings.
pub open spec fn env_acyclic(env: Assoc<Ty>) -> bool {
    forall|x: Name|
        x is Sym && #[trigger] env.lookup(x) is Some ==> resolves_within(
            env.lookup(x).unwrap(),
            env,
            Seq::empty(),
            (env.len() - 1) as nat,
        )
}

/// `t` is in canonical form for `env`: no `forall`, and no name that `env`
/// would resolve.
pub open spec fn resolved(t: Ty, env: Assoc<Ty>) -> bool
    decreases t,
{
    match t {
        Ty::Fn { params, ret } => list_resolved(params, env) && resolved(*ret, env),
        Ty::Struct { fields } => fields_resolved(fields, env),
        Ty::Forall { .. } => false,
        Ty::ByName(x) => !(x is Sym && env.lookup(x) is Some),
        Ty::Apply { rator, args } => resolved(*rator, env) && list_resolved(args, env),
        _ => true,
    }
}

pub open spec fn list_resolved(l: TyList, env: Assoc<Ty>) -> bool
    decreases l,
{
    match l {
        TyList::Nil => true,
        TyList::Cons(h, t) => resolved(*h, env) && list_resolved(*t, env),
    }
}

pub open spec fn fields_resolved(f: Fields, env: Assoc<Ty>) -> bool
    decreases f,
{
    match f {
        Fields::Nil => true,
        Fields::Cons(_, h, t) => resolved(*h, env) && fields_resolved(*t, env),
    }
}

/// The renaming of `forall`-bound names binds exactly `bound`, each to a
/// generated name.
pub open spec fn renames(ren: Assoc<Name>, bound: Seq<Name>) -> bool {
    &&& forall|x: Name| ren.binds(x) <==> bound.contains(x)
    &&& forall|x: Name| #[trigger] ren.binds(x) ==> ren.lookup(x).unwrap() is Gen
}

proof fn lemma_freshen_renames(vars: Names, ren: Assoc<Name>, next: nat, bound: Seq<Name>)
    requires
        renames(ren, bound),
    ensures
        renames(freshen(vars, ren, next).0, bound + vars.seq()),
    decreases vars,
{
    match vars {
        Names::Nil => {
            assert(bound + vars.seq() =~= bound);
        },
        Names::Cons(p, rest) => {
            let ren2 = Assoc::Bind(p, Name::Gen(next as usize), Box::new(ren));
            assert(renames(ren2, bound.push(p))) by {
                assert forall|x: Name| ren2.binds(x) <==> bound.push(p).contains(x) by {
                    if bound.push(p).contains(x) && x != p {
                        let i = choose|i: int| 0 <= i < bound.push(p).len() && bound.push(p)[i] == x;
                        assert(bound[i] == x);
                    }
                    if bound.contains(x) {
                        let i = choose|i: int| 0 <= i < bound.len() && bound[i] == x;
                        assert(bound.push(p)[i] == x);
                    }
                    assert(bound.push(p)[bound.len() as int] == p);
                }
                assert forall|x: Name| #[trigger] ren2.binds(x) implies ren2.lookup(
                    x,
                ).unwrap() is Gen by {
                    if x != p {
                        assert(ren.binds(x));
                    }
                }
            }
            lemma_freshen_renames(*rest, ren2, next + 1, bound.push(p));
            assert(bound.push(p) + rest.seq() =~= bound + vars.seq());
        },
    }
}

proof fn lemma_lookup_nonempty(env: Assoc<Ty>, x: Name)
    requires
        env.lookup(x) is Some,
    ensures
        env.len() >= 1,
{
}

/// In an acyclic environment every type resolves within the fuel that
/// canonicalization starts with.
proof fn lemma_acyclic_resolves(t: Ty, env: Assoc<Ty>, bound: Seq<Name>)
    requires
        env_acyclic(env),
        env.len() <= usize::MAX,
    ensures
        resolves_within(t, env, bound, env.len()),
    decreases t,
{
    match t {
        Ty::Fn { params, ret } => {
            lemma_acyclic_resolves_list(params, env, bound);
            lemma_acyclic_resolves(*ret, env, bound);
        },
        Ty::Struct { fields } => lemma_acyclic_resolves_fields(fields, env, bound),
        Ty::Forall { vars, body } => lemma_acyclic_resolves(*body, env, bound + vars.seq()),
        Ty::ByName(x) => {
            if x is Sym && env.lookup(x) is Some {
                lemma_lookup_nonempty(env, x);
            }
            assert(name_resolves_within(x, env, env.len()));
        },
        Ty::Apply { rator, args } => {
            lemma_acyclic_resolves(*rator, env, bound);
            lemma_acyclic_resolves_list(args, env, bound);
        },
        _ => {},
    }
}

proof fn lemma_acyclic_resolves_list(l: TyList, env: Assoc<Ty>, bound: Seq<Name>)
    requires
        env_acyclic(env),
        env.len() <= usize::MAX,
    ensures
        list_resolves_within(l, env, bound, env.len()),
    decreases l,
{
    match l {
        TyList::Nil => {},
        TyList::Cons(h, t) => {
            lemma_acyclic_resolves(*h, env, bound);
            lemma_acyclic_resolves_list(*t, env, bound);
        },
    }
}

proof fn lemma_acyclic_resolves_fields(f: Fields, env: Assoc<Ty>, bound: Seq<Name>)
    requires
        env_acyclic(env),
        env.len() <= usize::MAX,
    ensures
        fields_resolve_within(f, env, bound, env.len()),
    decreases f,
{
    match f {
        Fields::Nil => {},
        Fields::Cons(_, h, t) => {
            lemma_acyclic_resolves(*h, env, bound);
            lemma_acyclic_resolves_fields(*t, env, bound);
        },
    }
}

/// Once a type resolves within `f` lookups, more fuel changes nothing; and
/// the result is in canonical form.
proof fn lemma_canon_fuel(t: Ty, env: Assoc<Ty>, ren: Assoc<Name>, bound: Seq<Name>, n: nat, f: nat, g: nat)
    requires
        resolves_within(t, env, bound, f),
        renames(ren, bound),
        f <= g,
    ensures
        canon(t, env, ren, n, f) == canon(t, env, ren, n, g),
        resolved(canon(t, env, ren, n, f).0, env),
    decreases f, ty_size(t),
{
    match t {
        Ty::Fn { params, ret } => {
            lemma_canon_list_fuel(params, env, ren, bound, n, f, g);
            let n1 = canon_list(params, env, ren, n, f).1;
            lemma_canon_fuel(*ret, env, ren, bound, n1, f, g);
        },
        Ty::Struct { fields } => lemma_canon_fields_fuel(fields, env, ren, bound, n, f, g),
        Ty::Forall { vars, body } => {
            lemma_freshen_renames(vars, ren, n, bound);
            let (ren2, n1) = freshen(vars, ren, n);
            lemma_canon_fuel(*body, env, ren2, bound + vars.seq(), n1, f, g);
        },
        Ty::ByName(x) => {
            match ren.lookup(x) {
                Some(gn) => {
                    assert(ren.binds(x));
                },
                None => {
                    assert(!bound.contains(x));
                    assert(name_resolves_within(x, env, f));
                    if x is Sym && env.lookup(x) is Some {
                        lemma_canon_fuel(
                            env.lookup(x).unwrap(),
                            env,
                            Assoc::Empty,
                            Seq::empty(),
                            n,
                            (f - 1) as nat,
                            (g - 1) as nat,
                        );
                    }
                    assert(canon_name(x, env, n, f) == canon_name(x, env, n, g));
                    assert(resolved(canon_name(x, env, n, f).0, env));
                },
            }
        },
        Ty::Apply { rator, args } => {
            lemma_canon_fuel(*rator, env, ren, bound, n, f, g);
            let n1 = canon(*rator, env, ren, n, f).1;
            lemma_canon_list_fuel(args, env, ren, bound, n1, f, g);
        },
        _ => {},
    }
}

proof fn lemma_canon_list_fuel(l: TyList, env: Assoc<Ty>, ren: Assoc<Name>, bound: Seq<Name>, n: nat, f: nat, g: nat)
    requires
        list_resolves_within(l, env, bound, f),
        renames(ren, bound),
        f <= g,
    ensures
        canon_list(l, env, ren, n, f) == canon_list(l, env, ren, n, g),
        list_resolved(canon_list(l, env, ren, n, f).0, env),
    decreases f, list_size(l),
{
    match l {
        TyList::Nil => {},
        TyList::Cons(h, t) => {
            lemma_canon_fuel(*h, env, ren, bound, n, f, g);
            let n1 = canon(*h, env, ren, n, f).1;
            lemma_canon_list_fuel(*t, env, ren, bound, n1, f, g);
        },
    }
}

proof fn lemma_canon_fields_fuel(fl: Fields, env: Assoc<Ty>, ren: Assoc<Name>, bound: Seq<Name>, n: nat, f: nat, g: nat)
    requires
        fields_resolve_within(fl, env, bound, f),
        renames(ren, bound),
        f <= g,
    ensures
        canon_fields(fl, env, ren, n, f) == canon_fields(fl, env, ren, n, g),
        fields_resolved(canon_fields(fl, env, ren, n, f).0, env),
    decreases f, fields_size(fl),
{
    match fl {
        Fields::Nil => {},
        Fields::Cons(_, h, t) => {
            lemma_canon_fuel(*h, env, ren, bound, n, f, g);
            let n1 = canon(*h, env, ren, n, f).1;
            lemma_canon_fields_fuel(*t, env, ren, bound, n1, f, g);
        },
    }
}

proof fn lemma_canon_fixed(t: Ty, env: Assoc<Ty>, next: nat, fuel: nat)
    requires
        resolved(t, env),
    ensures
        canon(t, env, Assoc::Empty, next, fuel) == (t, next),
    decreases t,
{
    match t {
        Ty::Fn { params, ret } => {
            lemma_canon_list_fixed(params, env, next, fuel);
            lemma_canon_fixed(*ret, env, next, fuel);
        },
        Ty::Struct { fields } => lemma_canon_fields_fixed(fields, env, next, fuel),
        Ty::ByName(x) => {
            assert(canon_name(x, env, next, fuel) == (t, next));
        },
        Ty::Apply { rator, args } => {
            lemma_canon_fixed(*rator, env, next, fuel);
            lemma_canon_list_fixed(args, env, next, fuel);
        },
        _ => {},
    }
}

proof fn lemma_canon_list_fixed(l: TyList, env: Assoc<Ty>, next: nat, fuel: nat)
    requires
        list_resolved(l, env),
    ensures
        canon_list(l, env, Assoc::Empty, next, fuel) == (l, next),
    decreases l,
{
    match l {
        TyList::Nil => {},
        TyList::Cons(h, t) => {
            lemma_canon_fixed(*h, env, next, fuel);
            lemma_canon_list_fixed(*t, env, next, fuel);
        },
    }
}

proof fn lemma_canon_fields_fixed(f: Fields, env: Assoc<Ty>, next: nat, fuel: nat)
    requires
        fields_resolved(f, env),
    ensures
        canon_fields(f, env, Assoc::Empty, next, fuel) == (f, next),
    decreases f,
{
    match f {
        Fields::Nil => {},
        Fields::Cons(_, h, t) => {
            lemma_canon_fixed(*h, env, next, fuel);
            lemma_canon_fields_fixed(*t, env, next, fuel);
        },
    }
}

/// A name that the environment binds canonicalizes as the type it is bound
/// to, canonicalized in the same environment. (The environment must have no
/// cycle, and a length that fits in memory.)
pub proof fn lemma_canon_looks_up(x: Name, env: Assoc<Ty>, next: nat)
    requires
        env_acyclic(env),
        env.len() <= usize::MAX,
        x is Sym,
        env.lookup(x) is Some,
    ensures
        canonical(Ty::ByName(x), env, Assoc::Empty, next) == canonical(
            env.lookup(x).unwrap(),
            env,
            Assoc::Empty,
            next,
        ),
{
    lemma_lookup_nonempty(env, x);
    assert(renames(Assoc::Empty, Seq::empty()));
    assert(fuel_of(env) == env.len());
    assert(Assoc::<Name>::Empty.lookup(x) is None);
    assert(canon_name(x, env, next, env.len()) == canon(
        env.lookup(x).unwrap(),
        env,
        Assoc::Empty,
        next,
        (env.len() - 1) as nat,
    ));
    assert(canonical(Ty::ByName(x), env, Assoc::Empty, next) == canon(
        env.lookup(x).unwrap(),
        env,
        Assoc::Empty,
        next,
        (env.len() - 1) as nat,
    ));
    lemma_canon_fuel(
        env.lookup(x).unwrap(),
        env,
        Assoc::Empty,
        Seq::empty(),
        next,
        (env.len() - 1) as nat,
        env.len(),
    );
}

/// Canonicalization is idempotent: the canonical form of a canonical form is
/// itself, and no slot is allocated. (The environment must have no cycle, and
/// a length that fits in memory.)
pub proof fn lemma_canon_idempotent(t: Ty, env: Assoc<Ty>, next: nat, again: nat)
    requires
        env_acyclic(env),
        env.len() <= usize::MAX,
    ensures
        canonical(canonical(t, env, Assoc::Empty, next).0, env, Assoc::Empty, again) == (
            canonical(t, env, Assoc::Empty, next).0,
            again,
        ),
{
    lemma_acyclic_resolves(t, env, Seq::empty());
    assert(renames(Assoc::Empty, Seq::empty()));
    lemma_canon_fuel(t, env, Assoc::Empty, Seq::empty(), next, env.len(), env.len());
    lemma_canon_fixed(canonical(t, env, Assoc::Empty, next).0, env, again, env.len());
}

/// Every generated name in `t` is bound by a `forall` of `t` (or is one
/// of `bound`): `t` was written, not produced by canonicalization.
pub open spec fn gen_closed(t: Ty, bound: Seq<Name>) -> bool
    decreases t,
{
    match t {
        Ty::Fn { params, ret } => list_gen_closed(params, bound) && gen_closed(*ret, bound),
        Ty::Struct { fields } => fields_gen_closed(fields, bound),
        Ty::Forall { vars, body } => gen_closed(*body, bound + vars.seq()),
        Ty::ByName(x) => x is Sym || bound.contains(x),
        Ty::Apply { rator, args } => gen_closed(*rator, bound) && list_gen_closed(args, bound),
        _ => true,
    }
}

pub open spec fn list_gen_closed(l: TyList, bound: Seq<Name>) -> bool
    decreases l,
{
    match l {
        TyList::Nil => true,
        TyList::Cons(h, t) => gen_closed(*h, bound) && list_gen_closed(*t, bound),
    }
}

pub open spec fn fields_gen_closed(f: Fields, bound: Seq<Name>) -> bool
    decreases f,
{
    match f {
        Fields::Nil => true,
        Fields::Cons(_, h, t) => gen_closed(*h, bound) && fields_gen_closed(*t, bound),
    }
}

/// Every type bound in `env` has its generated names bound inside it.
pub open spec fn env_gen_free(env: Assoc<Ty>) -> bool
    decreases env,
{
    match env {
        Assoc::Empty => true,
        Assoc::Bind(_, v, rest) => gen_closed(v, Seq::empty()) && env_gen_free(*rest),
    }
}

/// `t` holds no `forall`, and only slots below `h`.
pub open spec fn fresh_form(t: Ty, h: nat) -> bool
    decreases t,
{
    match t {
        Ty::Fn { params, ret } => list_fresh_form(params, h) && fresh_form(*ret, h),
        Ty::Struct { fields } => fields_fresh_form(fields, h),
        Ty::Forall { .. } => false,
        Ty::ByName(x) => x is Gen ==> x->Gen_0 < h,
        Ty::Apply { rator, args } => fresh_form(*rator, h) && list_fresh_form(args, h),
        _ => true,
    }
}

pub open spec fn list_fresh_form(l: TyList, h: nat) -> bool
    decreases l,
{
    match l {
        TyList::Nil => true,
        TyList::Cons(a, t) => fresh_form(*a, h) && list_fresh_form(*t, h),
    }
}

pub open spec fn fields_fresh_form(f: Fields, h: nat) -> bool
    decreases f,
{
    match f {
        Fields::Nil => true,
        Fields::Cons(_, a, t) => fresh_form(*a, h) && fields_fresh_form(*t, h),
    }
}

pub open spec fn shift_name(x: Name, d: nat) -> Name {
    match x {
        Name::Gen(k) => Name::Gen((k + d) as usize),
        _ => x,
    }
}

/// `t` with every slot number raised by `d`.
pub open spec fn shift(t: Ty, d: nat) -> Ty
    decreases t,
{
    match t {
        Ty::Fn { params, ret } => Ty::Fn {
            params: shift_list(params, d),
            ret: Box::new(shift(*ret, d)),
        },
        Ty::Struct { fields } => Ty::Struct { fields: shift_fields(fields, d) },
        Ty::Forall { vars, body } => Ty::Forall { vars, body: Box::new(shift(*body, d)) },
        Ty::ByName(x) => Ty::ByName(shift_name(x, d)),
        Ty::Apply { rator, args } => Ty::Apply {
            rator: Box::new(shift(*rator, d)),
            args: shift_list(args, d),
        },
        _ => t,
    }
}

pub open spec fn shift_list(l: TyList, d: nat) -> TyList
    decreases l,
{
    match l {
        TyList::Nil => TyList::Nil,
        TyList::Cons(a, t) => TyList::Cons(Box::new(shift(*a, d)), Box::new(shift_list(*t, d))),
    }
}

pub open spec fn shift_fields(f: Fields, d: nat) -> Fields
    decreases f,
{
    match f {
        Fields::Nil => Fields::Nil,
        Fields::Cons(n, a, t) => Fields::Cons(
            n,
            Box::new(shift(*a, d)),
            Box::new(shift_fields(*t, d)),
        ),
    }
}

pub open spec fn shift_ren(ren: Assoc<Name>, d: nat) -> Assoc<Name>
    decreases ren,
{
    match ren {
        Assoc::Empty => Assoc::Empty,
        Assoc::Bind(m, g, rest) => Assoc::Bind(m, shift_name(g, d), Box::new(shift_ren(*rest, d))),
    }
}

/// Every name that `ren` binds goes to a slot below `n`.
pub open spec fn ren_fresh(ren: Assoc<Name>, n: nat) -> bool {
    forall|x: Name| #[trigger] ren.binds(x) ==> ren.lookup(x).unwrap() is Gen && ren.lookup(
        x,
    ).unwrap()->Gen_0 < n
}

proof fn lemma_shift_ren_lookup(ren: Assoc<Name>, d: nat, x: Name)
    ensures
        shift_ren(ren, d).lookup(x) == match ren.lookup(x) {
            Some(g) => Some(shift_name(g, d)),
            None => None,
        },
    decreases ren,
{
    match ren {
        Assoc::Empty => {},
        Assoc::Bind(_, _, rest) => lemma_shift_ren_lookup(*rest, d, x),
    }
}

proof fn lemma_freshen_grows(vars: Names, ren: Assoc<Name>, n: nat)
    ensures
        freshen(vars, ren, n).1 == n + vars.seq().len(),
    decreases vars,
{
    match vars {
        Names::Nil => {},
        Names::Cons(p, rest) => lemma_freshen_grows(
            *rest,
            Assoc::Bind(p, Name::Gen(n as usize), Box::new(ren)),
            n + 1,
        ),
    }
}

proof fn lemma_canon_grows(t: Ty, env: Assoc<Ty>, ren: Assoc<Name>, n: nat, fuel: nat)
    ensures
        n <= canon(t, env, ren, n, fuel).1,
    decreases fuel, ty_size(t),
{
    match t {
        Ty::Fn { params, ret } => {
            lemma_canon_list_grows(params, env, ren, n, fuel);
            lemma_canon_grows(*ret, env, ren, canon_list(params, env, ren, n, fuel).1, fuel);
        },
        Ty::Struct { fields } => lemma_canon_fields_grows(fields, env, ren, n, fuel),
        Ty::Forall { vars, body } => {
            lemma_freshen_grows(vars, ren, n);
            let (ren2, n1) = freshen(vars, ren, n);
            lemma_canon_grows(*body, env, ren2, n1, fuel);
        },
        Ty::ByName(x) => {
            if x is Sym && fuel > 0 && env.lookup(x) is Some {
                lemma_canon_grows(env.lookup(x).unwrap(), env, Assoc::Empty, n, (fuel - 1) as nat);
            }
            assert(n <= canon_name(x, env, n, fuel).1);
        },
        Ty::Apply { rator, args } => {
            lemma_canon_grows(*rator, env, ren, n, fuel);
            lemma_canon_list_grows(args, env, ren, canon(*rator, env, ren, n, fuel).1, fuel);
        },
        _ => {},
    }
}

proof fn lemma_canon_list_grows(l: TyList, env: Assoc<Ty>, ren: Assoc<Name>, n: nat, fuel: nat)
    ensures
        n <= canon_list(l, env, ren, n, fuel).1,
    decreases fuel, list_size(l),
{
    match l {
        TyList::Nil => {},
        TyList::Cons(h, t) => {
            lemma_canon_grows(*h, env, ren, n, fuel);
            lemma_canon_list_grows(*t, env, ren, canon(*h, env, ren, n, fuel).1, fuel);
        },
    }
}

proof fn lemma_canon_fields_grows(f: Fields, env: Assoc<Ty>, ren: Assoc<Name>, n: nat, fuel: nat)
    ensures
        n <= canon_fields(f, env, ren, n, fuel).1,
    decreases fuel, fields_size(f),
{
    match f {
        Fields::Nil => {},
        Fields::Cons(_, h, t) => {
            lemma_canon_grows(*h, env, ren, n, fuel);
            lemma_canon_fields_grows(*t, env, ren, canon(*h, env, ren, n, fuel).1, fuel);
        },
    }
}

proof fn lemma_env_gen_free_lookup(env: Assoc<Ty>, x: Name)
    requires
        env_gen_free(env),
        env.lookup(x) is Some,
    ensures
        gen_closed(env.lookup(x).unwrap(), Seq::empty()),
    decreases env,
{
    match env {
        Assoc::Empty => {},
        Assoc::Bind(m, _, rest) => if m != x {
            lemma_env_gen_free_lookup(*rest, x);
        },
    }
}

proof fn lemma_freshen_shift(vars: Names, ren: Assoc<Name>, n: nat, d: nat)
    requires
        ren_fresh(ren, n),
        n + vars.seq().len() + d <= usize::MAX,
    ensures
        freshen(vars, shift_ren(ren, d), n + d) == (
            shift_ren(freshen(vars, ren, n).0, d),
            freshen(vars, ren, n).1 + d,
        ),
        ren_fresh(freshen(vars, ren, n).0, freshen(vars, ren, n).1),
    decreases vars,
{
    match vars {
        Names::Nil => {},
        Names::Cons(p, rest) => {
            let ren2 = Assoc::Bind(p, Name::Gen(n as usize), Box::new(ren));
            assert(ren_fresh(ren2, n + 1)) by {
                assert forall|x: Name| #[trigger] ren2.binds(x) implies ren2.lookup(x).unwrap() is Gen
                    && ren2.lookup(x).unwrap()->Gen_0 < n + 1 by {
                    if x != p {
                        assert(ren.binds(x));
                    }
                }
            }
            assert(shift_name(Name::Gen(n as usize), d) == Name::Gen((n + d) as usize));
            lemma_freshen_shift(*rest, ren2, n + 1, d);
        },
    }
}

proof fn lemma_canon_shift(t: Ty, env: Assoc<Ty>, ren: Assoc<Name>, bound: Seq<Name>, n: nat, d: nat, fuel: nat)
    requires
        gen_closed(t, bound),
        renames(ren, bound),
        env_gen_free(env),
        ren_fresh(ren, n),
        canon(t, env, ren, n, fuel).1 + d <= usize::MAX,
    ensures
        canon(t, env, shift_ren(ren, d), n + d, fuel) == (
            shift(canon(t, env, ren, n, fuel).0, d),
            canon(t, env, ren, n, fuel).1 + d,
        ),
        fresh_form(canon(t, env, ren, n, fuel).0, canon(t, env, ren, n, fuel).1),
    decreases fuel, ty_size(t),
{
    lemma_canon_grows(t, env, ren, n, fuel);
    match t {
        Ty::Fn { params, ret } => {
            lemma_canon_list_grows(params, env, ren, n, fuel);
            let n1 = canon_list(params, env, ren, n, fuel).1;
            lemma_canon_grows(*ret, env, ren, n1, fuel);
            lemma_canon_list_shift(params, env, ren, bound, n, d, fuel);
            lemma_canon_shift(*ret, env, ren, bound, n1, d, fuel);
            lemma_list_fresh_form_mono(
                canon_list(params, env, ren, n, fuel).0,
                n1,
                canon(t, env, ren, n, fuel).1,
            );
        },
        Ty::Struct { fields } => {
            lemma_canon_fields_shift(fields, env, ren, bound, n, d, fuel);
        },
        Ty::Forall { vars, body } => {
            lemma_freshen_grows(vars, ren, n);
            let (ren2, n1) = freshen(vars, ren, n);
            lemma_canon_grows(*body, env, ren2, n1, fuel);
            lemma_freshen_shift(vars, ren, n, d);
            lemma_freshen_renames(vars, ren, n, bound);
            lemma_canon_shift(*body, env, ren2, bound + vars.seq(), n1, d, fuel);
        },
        Ty::ByName(x) => {
            lemma_shift_ren_lookup(ren, d, x);
            match ren.lookup(x) {
                Some(g) => {
                    assert(ren.binds(x));
                },
                None => {
                    assert(!bound.contains(x));
                    if x is Sym && fuel > 0 && env.lookup(x) is Some {
                        lemma_env_gen_free_lookup(env, x);
                        assert(ren_fresh(Assoc::Empty, n));
                        assert(shift_ren(Assoc::Empty, d) == Assoc::<Name>::Empty);
                        assert(renames(Assoc::Empty, Seq::empty()));
                        lemma_canon_shift(env.lookup(x).unwrap(), env, Assoc::Empty, Seq::empty(), n, d, (fuel - 1) as nat);
                    }
                    assert(canon_name(x, env, n + d, fuel) == (
                        shift(canon_name(x, env, n, fuel).0, d),
                        canon_name(x, env, n, fuel).1 + d,
                    ));
                    assert(fresh_form(canon_name(x, env, n, fuel).0, canon_name(x, env, n, fuel).1));
                },
            }
        },
        Ty::Apply { rator, args } => {
            lemma_canon_grows(*rator, env, ren, n, fuel);
            let n1 = canon(*rator, env, ren, n, fuel).1;
            lemma_canon_list_grows(args, env, ren, n1, fuel);
            lemma_canon_shift(*rator, env, ren, bound, n, d, fuel);
            lemma_canon_list_shift(args, env, ren, bound, n1, d, fuel);
            lemma_fresh_form_mono(canon(*rator, env, ren, n, fuel).0, n1, canon(t, env, ren, n, fuel).1);
        },
        _ => {},
    }
}

proof fn lemma_canon_list_shift(l: TyList, env: Assoc<Ty>, ren: Assoc<Name>, bound: Seq<Name>, n: nat, d: nat, fuel: nat)
    requires
        list_gen_closed(l, bound),
        renames(ren, bound),
        env_gen_free(env),
        ren_fresh(ren, n),
        canon_list(l, env, ren, n, fuel).1 + d <= usize::MAX,
    ensures
        canon_list(l, env, shift_ren(ren, d), n + d, fuel) == (
            shift_list(canon_list(l, env, ren, n, fuel).0, d),
            canon_list(l, env, ren, n, fuel).1 + d,
        ),
        list_fresh_form(canon_list(l, env, ren, n, fuel).0, canon_list(l, env, ren, n, fuel).1),
    decreases fuel, list_size(l),
{
    match l {
        TyList::Nil => {},
        TyList::Cons(h, t) => {
            lemma_canon_grows(*h, env, ren, n, fuel);
            let n1 = canon(*h, env, ren, n, fuel).1;
            lemma_canon_list_grows(*t, env, ren, n1, fuel);
            lemma_canon_shift(*h, env, ren, bound, n, d, fuel);
            lemma_canon_list_shift(*t, env, ren, bound, n1, d, fuel);
            lemma_fresh_form_mono(canon(*h, env, ren, n, fuel).0, n1, canon_list(l, env, ren, n, fuel).1);
        },
    }
}

proof fn lemma_canon_fields_shift(f: Fields, env: Assoc<Ty>, ren: Assoc<Name>, bound: Seq<Name>, n: nat, d: nat, fuel: nat)
    requires
        fields_gen_closed(f, bound),
        renames(ren, bound),
        env_gen_free(env),
        ren_fresh(ren, n),
        canon_fields(f, env, ren, n, fuel).1 + d <= usize::MAX,
    ensures
        canon_fields(f, env, shift_ren(ren, d), n + d, fuel) == (
            shift_fields(canon_fields(f, env, ren, n, fuel).0, d),
            canon_fields(f, env, ren, n, fuel).1 + d,
        ),
        fields_fresh_form(canon_fields(f, env, ren, n, fuel).0, canon_fields(f, env, ren, n, fuel).1),
    decreases fuel, fields_size(f),
{
    match f {
        Fields::Nil => {},
        Fields::Cons(_, h, t) => {
            lemma_canon_grows(*h, env, ren, n, fuel);
            let n1 = canon(*h, env, ren, n, fuel).1;
            lemma_canon_fields_grows(*t, env, ren, n1, fuel);
            lemma_canon_shift(*h, env, ren, bound, n, d, fuel);
            lemma_canon_fields_shift(*t, env, ren, bound, n1, d, fuel);
            lemma_fresh_form_mono(canon(*h, env, ren, n, fuel).0, n1, canon_fields(f, env, ren, n, fuel).1);
        },
    }
}

proof fn lemma_fresh_form_mono(t: Ty, h: nat, h2: nat)
    requires
        fresh_form(t, h),
        h <= h2,
    ensures
        fresh_form(t, h2),
    decreases t,
{
    match t {
        Ty::Fn { params, ret } => {
            lemma_list_fresh_form_mono(params, h, h2);
            lemma_fresh_form_mono(*ret, h, h2);
        },
        Ty::Struct { fields } => lemma_fields_fresh_form_mono(fields, h, h2),
        Ty::Apply { rator, args } => {
            lemma_fresh_form_mono(*rator, h, h2);
            lemma_list_fresh_form_mono(args, h, h2);
        },
        _ => {},
    }
}

proof fn lemma_list_fresh_form_mono(l: TyList, h: nat, h2: nat)
    requires
        list_fresh_form(l, h),
        h <= h2,
    ensures
        list_fresh_form(l, h2),
    decreases l,
{
    match l {
        TyList::Nil => {},
        TyList::Cons(a, t) => {
            lemma_fresh_form_mono(*a, h, h2);
            lemma_list_fresh_form_mono(*t, h, h2);
        },
    }
}

proof fn lemma_fields_fresh_form_mono(f: Fields, h: nat, h2: nat)
    requires
        fields_fresh_form(f, h),
        h <= h2,
    ensures
        fields_fresh_form(f, h2),
    decreases f,
{
    match f {
        Fields::Nil => {},
        Fields::Cons(_, a, t) => {
            lemma_fresh_form_mono(*a, h, h2);
            lemma_fields_fresh_form_mono(*t, h, h2);
        },
    }
}

/// A table in which slot `k` (below `d`) and slot `k + d` are twins: each
/// is unbound or bound to the other.
pub open spec fn twinned(tbl: Seq<Option<Ty>>, d: nat) -> bool {
    &&& d <= tbl.len() <= usize::MAX
    &&& forall|k: int|
        0 <= k < d ==> (#[trigger] tbl[k] is None || tbl[k] == Some(
            Ty::ByName(Name::Gen((k + d) as usize)),
        ))
    &&& forall|k: int|
        d <= k < tbl.len() ==> (#[trigger] tbl[k] is None || tbl[k] == Some(
            Ty::ByName(Name::Gen((k - d) as usize)),
        ))
}

proof fn lemma_shift_list_len(l: TyList, d: nat)
    ensures
        shift_list(l, d).seq().len() == l.seq().len(),
    decreases l,
{
    match l {
        TyList::Nil => {},
        TyList::Cons(_, t) => lemma_shift_list_len(*t, d),
    }
}

proof fn lemma_shift_fields_names(f: Fields, d: nat)
    ensures
        shift_fields(f, d).names() == f.names(),
    decreases f,
{
    match f {
        Fields::Nil => {},
        Fields::Cons(_, _, t) => lemma_shift_fields_names(*t, d),
    }
}

/// Walking a type against its shifted twin (in either role) succeeds and
/// keeps the table twinned.
proof fn lemma_walk_twin(x: Ty, h: nat, d: nat, tbl: Seq<Option<Ty>>, flip: bool)
    requires
        fresh_form(x, h),
        twinned(tbl, d),
        h <= d,
        d + h <= tbl.len(),
    ensures
        ({
            let r = if flip {
                walk(shift(x, d), x, tbl)
            } else {
                walk(x, shift(x, d), tbl)
            };
            r is Ok && twinned(r->Ok_0, d) && r->Ok_0.len() == tbl.len()
        }),
    decreases x,
{
    match x {
        Ty::Fn { params, ret } => {
            lemma_shift_list_len(params, d);
            lemma_walk_list_twin(params, h, d, tbl, !flip);
            let tbl1 = if flip {
                walk_list(params, shift_list(params, d), tbl)->Ok_0
            } else {
                walk_list(shift_list(params, d), params, tbl)->Ok_0
            };
            lemma_walk_twin(*ret, h, d, tbl1, flip);
        },
        Ty::Struct { fields } => {
            lemma_shift_fields_names(fields, d);
            lemma_walk_fields_twin(fields, h, d, tbl, flip);
        },
        Ty::Apply { rator, args } => {
            lemma_shift_list_len(args, d);
            lemma_walk_twin(*rator, h, d, tbl, flip);
            let tbl1 = if flip {
                walk(shift(*rator, d), *rator, tbl)->Ok_0
            } else {
                walk(*rator, shift(*rator, d), tbl)->Ok_0
            };
            lemma_walk_list_twin(args, h, d, tbl1, flip);
        },
        Ty::ByName(Name::Gen(k)) => {
            let kk = k as int;
            assert((kk + d) as usize == kk + d);
            if flip {
                assert(slot_of(x, tbl.len()) == Some(k as nat));
                if tbl[kk] is None {
                    let t2 = tbl.update(kk, Some(shift(x, d)));
                    assert(twinned(t2, d));
                }
            } else {
                assert(slot_of(shift(x, d), tbl.len()) == Some((kk + d) as nat));
                assert((kk + d - d) as usize == k);
                if tbl[kk + d] is None {
                    let t2 = tbl.update(kk + d, Some(x));
                    assert(twinned(t2, d));
                }
            }
        },
        _ => {},
    }
}

proof fn lemma_walk_list_twin(l: TyList, h: nat, d: nat, tbl: Seq<Option<Ty>>, flip: bool)
    requires
        list_fresh_form(l, h),
        twinned(tbl, d),
        h <= d,
        d + h <= tbl.len(),
    ensures
        ({
            let r = if flip {
                walk_list(shift_list(l, d), l, tbl)
            } else {
                walk_list(l, shift_list(l, d), tbl)
            };
            r is Ok && twinned(r->Ok_0, d) && r->Ok_0.len() == tbl.len()
        }),
    decreases l,
{
    match l {
        TyList::Nil => {},
        TyList::Cons(a, t) => {
            lemma_walk_twin(*a, h, d, tbl, flip);
            let tbl1 = if flip {
                walk(shift(*a, d), *a, tbl)->Ok_0
            } else {
                walk(*a, shift(*a, d), tbl)->Ok_0
            };
            lemma_walk_list_twin(*t, h, d, tbl1, flip);
        },
    }
}

proof fn lemma_walk_fields_twin(f: Fields, h: nat, d: nat, tbl: Seq<Option<Ty>>, flip: bool)
    requires
        fields_fresh_form(f, h),
        twinned(tbl, d),
        h <= d,
        d + h <= tbl.len(),
    ensures
        ({
            let r = if flip {
                walk_fields(shift_fields(f, d), f, tbl)
            } else {
                walk_fields(f, shift_fields(f, d), tbl)
            };
            r is Ok && twinned(r->Ok_0, d) && r->Ok_0.len() == tbl.len()
        }),
    decreases f,
{
    match f {
        Fields::Nil => {},
        Fields::Cons(_, a, t) => {
            lemma_walk_twin(*a, h, d, tbl, flip);
            let tbl1 = if flip {
                walk(shift(*a, d), *a, tbl)->Ok_0
            } else {
                walk(*a, shift(*a, d), tbl)->Ok_0
            };
            lemma_walk_fields_twin(*t, h, d, tbl1, flip);
        },
    }
}

/// Every closed type (each generated name in it, as in the environment's
/// types, is bound by one of its `forall`s) is a subtype of itself, `forall`
/// types included: the two canonical forms differ only in slot numbers, and
/// each slot of one side gets bound to its twin on the other. (The bound on
/// the slot count says that the unification table fits in memory.)
pub proof fn lemma_subtype_reflexive(t: Ty, env: Assoc<Ty>)
    requires
        gen_closed(t, Seq::empty()),
        env_gen_free(env),
        2 * canonical(t, env, Assoc::Empty, 0).1 <= usize::MAX,
    ensures
        subtype_result(t, t, env) == Ok::<(), TyErr>(()),
{
    let (s, h) = canonical(t, env, Assoc::Empty, 0);
    assert(ren_fresh(Assoc::Empty, 0));
    assert(renames(Assoc::Empty, Seq::empty()));
    assert(shift_ren(Assoc::Empty, h) == Assoc::<Name>::Empty);
    lemma_canon_shift(t, env, Assoc::Empty, Seq::empty(), 0, h, fuel_of(env));
    assert(twinned(unbound(2 * h), h));
    lemma_walk_twin(s, h, h, unbound(2 * h), false);
}

/// Closed types with the same canonical form are subtypes of each other,
/// `forall` types included. (The bound on the slot count says that the
/// unification table fits in memory.)
pub proof fn lemma_equal_implies_subtype(t: Ty, u: Ty, env: Assoc<Ty>)
    requires
        gen_closed(t, Seq::empty()),
        gen_closed(u, Seq::empty()),
        env_gen_free(env),
        canonical(t, env, Assoc::Empty, 0).1 + canonical(u, env, Assoc::Empty, 0).1 <= usize::MAX,
    ensures
        equal_result(t, u, env) is Ok ==> subtype_result(t, u, env) is Ok,
{
    let (c, ht) = canonical(t, env, Assoc::Empty, 0);
    let hu = canonical(u, env, Assoc::Empty, 0).1;
    if equal_result(t, u, env) is Ok {
        assert(ren_fresh(Assoc::Empty, 0));
        assert(renames(Assoc::Empty, Seq::empty()));
        assert(shift_ren(Assoc::Empty, ht) == Assoc::<Name>::Empty);
        lemma_canon_shift(t, env, Assoc::Empty, Seq::empty(), 0, 0, fuel_of(env));
        lemma_canon_shift(u, env, Assoc::Empty, Seq::empty(), 0, ht, fuel_of(env));
        let h = if ht <= hu {
            ht
        } else {
            hu
        };
        assert(twinned(unbound(ht + hu), ht));
        lemma_walk_twin(c, h, ht, unbound(ht + hu), false);
    }
}

} // verus!
