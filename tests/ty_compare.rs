use unseemly::assoc::Assoc;
use unseemly::name::{Interner, Name};
use unseemly::ty::{Ty, TyErr};
use unseemly::ty_compare::{must_equal, must_subtype};

fn tbn(n: Name) -> Ty {
    Ty::ByName(n)
}

#[test]
fn basic_subtyping() {
    let mut names = Interner::new();
    let t = names.intern("t");
    let mt_ty_env = || Assoc::<Ty>::new();
    let int_ty = Ty::Int;
    let bool_ty = Ty::Bool;

    assert!(must_subtype(&int_ty, &int_ty, mt_ty_env()) == Ok(()));

    assert!(
        must_subtype(&bool_ty, &int_ty, mt_ty_env())
            == Err(TyErr::Mismatch(Ty::Bool, Ty::Int))
    );

    let id_fn_ty = Ty::for_all(vec![t], Ty::func(vec![tbn(t)], tbn(t)));
    let int_to_int_fn_ty = Ty::func(vec![Ty::Int], Ty::Int);

    assert!(must_subtype(&int_to_int_fn_ty, &int_to_int_fn_ty, mt_ty_env()) == Ok(()));

    assert!(must_subtype(&id_fn_ty, &id_fn_ty, mt_ty_env()) == Ok(()));
}

#[test]
fn equal_ignores_names_of_bound_variables() {
    let mut names = Interner::new();
    let a = names.intern("a");
    let b = names.intern("b");
    let ta = Ty::for_all(vec![a], Ty::func(vec![tbn(a)], tbn(a)));
    let tb = Ty::for_all(vec![b], Ty::func(vec![tbn(b)], tbn(b)));
    assert!(must_equal(&ta, &tb, Assoc::new()) == Ok(()));
    assert!(must_subtype(&ta, &tb, Assoc::new()) == Ok(()));
}

#[test]
fn equal_resolves_names_in_environment() {
    let mut names = Interner::new();
    let num = names.intern("num");
    let env = || Assoc::new().extend(num, Ty::Nat);
    assert!(must_equal(&tbn(num), &Ty::Nat, env()) == Ok(()));
    assert!(must_subtype(&tbn(num), &Ty::Nat, env()) == Ok(()));
    assert!(
        must_equal(&tbn(num), &Ty::Int, env()) == Err(TyErr::Mismatch(tbn(num), Ty::Int))
    );
    assert!(must_subtype(&tbn(num), &Ty::Int, env()) == Err(TyErr::Mismatch(Ty::Nat, Ty::Int)));
}

#[test]
fn binding_resolved_in_whole_environment() {
    // `outer` is bound to `inner`, which a later binding makes `int`.
    let mut names = Interner::new();
    let outer = names.intern("outer");
    let inner = names.intern("inner");
    let env = || Assoc::new().extend(outer, tbn(inner)).extend(inner, Ty::Int);
    assert!(must_equal(&tbn(outer), &tbn(inner), env()) == Ok(()));
    assert!(must_equal(&tbn(outer), &Ty::Int, env()) == Ok(()));
    assert!(must_subtype(&tbn(outer), &Ty::Int, env()) == Ok(()));
}

#[test]
fn cyclic_bindings_terminate() {
    let mut names = Interner::new();
    let a = names.intern("a");
    let b = names.intern("b");
    let env = || Assoc::new().extend(a, tbn(b)).extend(b, tbn(a));
    assert!(must_equal(&tbn(a), &tbn(a), env()) == Ok(()));
    assert!(must_subtype(&tbn(a), &Ty::Int, env()).is_err());
}

#[test]
fn equal_and_subtype_agree_without_forall() {
    let pairs = vec![
        (Ty::Int, Ty::Int),
        (Ty::Int, Ty::Nat),
        (Ty::func(vec![Ty::Nat], Ty::Bool), Ty::func(vec![Ty::Nat], Ty::Bool)),
        (Ty::func(vec![Ty::Nat], Ty::Bool), Ty::func(vec![Ty::Int], Ty::Bool)),
        (Ty::func(vec![Ty::Nat, Ty::Nat], Ty::Bool), Ty::func(vec![Ty::Nat], Ty::Bool)),
    ];
    for (t, u) in pairs {
        let eq = must_equal(&t, &u, Assoc::new()).is_ok();
        let sub = must_subtype(&t, &u, Assoc::new()).is_ok();
        assert_eq!(eq, sub);
    }
}

#[test]
fn struct_subtyping_needs_same_names_in_order() {
    let mut names = Interner::new();
    let x = names.intern("x");
    let y = names.intern("y");
    let xy = Ty::record(vec![x, y], vec![Ty::Int, Ty::Nat]);
    let yx = Ty::record(vec![y, x], vec![Ty::Nat, Ty::Int]);
    let xy2 = Ty::record(vec![x, y], vec![Ty::Int, Ty::Nat]);
    assert!(must_subtype(&xy, &xy2, Assoc::new()) == Ok(()));
    assert!(must_subtype(&xy, &yx, Assoc::new()).is_err());
}

#[test]
fn forall_variable_instantiated_once() {
    // forall t. fn(t, t) -> t  against  fn(int, bool) -> int
    let mut names = Interner::new();
    let t = names.intern("t");
    let poly = Ty::for_all(vec![t], Ty::func(vec![tbn(t), tbn(t)], tbn(t)));
    let ok = Ty::func(vec![Ty::Int, Ty::Int], Ty::Int);
    let bad = Ty::func(vec![Ty::Int, Ty::Bool], Ty::Int);
    assert!(must_subtype(&ok, &poly, Assoc::new()) == Ok(()));
    assert!(matches!(must_subtype(&bad, &poly, Assoc::new()), Err(TyErr::Mismatch(_, _))));
}
