use unseemly::assoc::Assoc;
use unseemly::eval::{destructure_at, eval_at, Value};
use unseemly::name::{Interner, Name};
use unseemly::quotation::{
    less_quoted_ty, more_quoted_ty, quote, synth_at, unpack_at, unquote_form, Ast,
    AstFields, Phases,
};
use unseemly::ty::{Nt, Ty, TyErr};
use unseemly::ty_compare::{canonicalize, must_equal, must_subtype};

fn val_phases(binds: Vec<(Name, Value)>) -> Phases<Value> {
    let mut e = Assoc::new();
    for (n, v) in binds.into_iter().rev() {
        e = e.extend(n, v);
    }
    Phases { envs: vec![e], core: Assoc::new() }
}

fn ty_phases(outer: Vec<(Name, Ty)>, inner: Vec<(Name, Ty)>) -> Phases<Ty> {
    let mut e0 = Assoc::new();
    for (n, v) in outer.into_iter().rev() {
        e0 = e0.extend(n, v);
    }
    let mut e1 = Assoc::new();
    for (n, v) in inner.into_iter().rev() {
        e1 = e1.extend(n, v);
    }
    Phases { envs: vec![e0, e1], core: Assoc::new() }
}

#[test]
fn subtyping_is_reflexive() {
    let mut names = Interner::new();
    let a = names.intern("a");
    let b = names.intern("b");
    let x = names.intern("x");
    let tys = vec![
        Ty::Int,
        Ty::Float,
        Ty::func(vec![Ty::Nat, Ty::Bool], Ty::Int),
        Ty::record(vec![x], vec![Ty::func(vec![], Ty::Nat)]),
        Ty::for_all(vec![a, b], Ty::func(vec![Ty::ByName(a)], Ty::ByName(b))),
        Ty::for_all(
            vec![a],
            Ty::func(vec![Ty::func(vec![Ty::ByName(a)], Ty::ByName(a))], Ty::ByName(a)),
        ),
        Ty::apply(Ty::Syntax(Nt::Expr), vec![Ty::Nat]),
        // a `forall` may bind a generated name
        Ty::for_all(vec![Name::Gen(0)], Ty::func(vec![Ty::ByName(Name::Gen(0))], Ty::ByName(Name::Gen(0)))),
    ];
    for t in tys.iter() {
        assert!(must_subtype(t, t, Assoc::new()) == Ok(()));
        assert!(must_equal(t, t, Assoc::new()) == Ok(()));
    }
}

#[test]
fn canonicalization_is_idempotent() {
    let mut names = Interner::new();
    let a = names.intern("a");
    let num = names.intern("num");
    let env = Assoc::new().extend(num, Ty::Nat);
    let t = Ty::for_all(vec![a], Ty::func(vec![Ty::ByName(a)], Ty::ByName(num)));
    let mut slots = Vec::new();
    let once = canonicalize(&t, &env, &Assoc::new(), &mut slots);
    assert_eq!(slots.len(), 1);
    assert!(once == Ty::func(vec![Ty::ByName(Name::Gen(0))], Ty::Nat));
    let twice = canonicalize(&once, &env, &Assoc::new(), &mut slots);
    assert!(twice == once);
    assert_eq!(slots.len(), 1);
}

#[test]
fn canonical_form_equals_original() {
    let mut names = Interner::new();
    let outer = names.intern("outer");
    let inner = names.intern("inner");
    let env = || Assoc::new().extend(outer, Ty::ByName(inner)).extend(inner, Ty::Int);
    let t = Ty::func(vec![Ty::ByName(outer)], Ty::ByName(inner));
    let mut slots = Vec::new();
    let once = canonicalize(&t, &env(), &Assoc::new(), &mut slots);
    assert!(once == Ty::func(vec![Ty::Int], Ty::Int));
    let twice = canonicalize(&once, &env(), &Assoc::new(), &mut slots);
    assert!(twice == once);
    assert!(must_equal(&once, &t, env()) == Ok(()));
}

#[test]
fn quotation_round_trip() {
    let mut names = Interner::new();
    let x = names.intern("x");
    let y = names.intern("y");
    let q = names.intern("q");
    let e = || Ast::Struct {
        parts: AstFields::from_vecs(
            vec![x, y],
            vec![Ast::VarRef(q), quote(true, Nt::Expr, None, Ast::VarRef(x))],
        ),
    };
    let res = eval_at(&quote(true, Nt::Expr, None, e()), &val_phases(vec![]), 0);
    assert!(res == Ok(Value::Syntax(e())));
}

#[test]
fn unquote_inverts_quote() {
    let mut names = Interner::new();
    let v = names.intern("v");
    let x = names.intern("x");
    let a = || Ast::Struct { parts: AstFields::from_vecs(vec![x], vec![Ast::VarRef(x)]) };
    let ph = val_phases(vec![(v, Value::Syntax(a()))]);
    let res = eval_at(&quote(true, Nt::Expr, None, unquote_form(true, Nt::Expr, None, 1, Ast::VarRef(v))), &ph, 0);
    assert!(res == Ok(Value::Syntax(a())));
}

#[test]
fn unquote_of_a_number_does_not_evaluate() {
    let mut names = Interner::new();
    let v = names.intern("v");
    let ph = val_phases(vec![(v, Value::Int(3))]);
    let res = eval_at(&quote(true, Nt::Expr, None, unquote_form(true, Nt::Expr, None, 1, Ast::VarRef(v))), &ph, 0);
    assert!(res == Err(()));
}

#[test]
fn pattern_quote_binds_exactly_its_holes() {
    let mut names = Interner::new();
    let x = names.intern("x");
    let y = names.intern("y");
    let z = names.intern("z");
    let foo = names.intern("foo");
    let bar = names.intern("bar");
    let baz = names.intern("baz");
    let k = names.intern("k");
    // '[Pat | *[x: ,[Pat | foo], y: ,[Pat | bar], z: baz]* ]'
    let pat = quote(
        false,
        Nt::Pat,
        None,
        Ast::Struct {
            parts: AstFields::from_vecs(
                vec![x, y, z],
                vec![
                    unquote_form(false, Nt::Pat, None, 1, Ast::Atom(foo)),
                    unquote_form(false, Nt::Pat, None, 1, Ast::Atom(bar)),
                    Ast::Atom(baz),
                ],
            ),
        },
    );
    let scrutinee = Ast::Struct {
        parts: AstFields::from_vecs(
            vec![x, y, z],
            vec![Ast::VarRef(k), Ast::Atom(k), Ast::Atom(baz)],
        ),
    };
    let res = destructure_at(&pat, &val_phases(vec![]), 0, Value::Syntax(scrutinee));
    let expected = Assoc::new()
        .extend(bar, Value::Syntax(Ast::Atom(k)))
        .extend(foo, Value::Syntax(Ast::VarRef(k)));
    assert!(res == Ok(expected));

    // a literal part that differs makes the match fail
    let other = Ast::Struct {
        parts: AstFields::from_vecs(
            vec![x, y, z],
            vec![Ast::VarRef(k), Ast::Atom(k), Ast::Atom(k)],
        ),
    };
    let pat2 = quote(
        false,
        Nt::Pat,
        None,
        Ast::Struct {
            parts: AstFields::from_vecs(
                vec![x, y, z],
                vec![
                    unquote_form(false, Nt::Pat, None, 1, Ast::Atom(foo)),
                    unquote_form(false, Nt::Pat, None, 1, Ast::Atom(bar)),
                    Ast::Atom(baz),
                ],
            ),
        },
    );
    assert!(destructure_at(&pat2, &val_phases(vec![]), 0, Value::Syntax(other)) == Err(()));
}

#[test]
fn negative_unquote_shifts_phase() {
    let mut names = Interner::new();
    let v = names.intern("v");
    let ctx = Ty::func(vec![Ty::Nat], Ty::Bool);
    let ph = ty_phases(vec![], vec![]);
    let res = unpack_at(&unquote_form(false, Nt::Pat, None, 1, Ast::Atom(v)), &ph, 1, ctx);
    let expected_harvest = Assoc::new()
        .extend(v, more_quoted_ty(Ty::func(vec![Ty::Nat], Ty::Bool), Nt::Pat));
    assert!(res == Ok((Assoc::new(), expected_harvest)));
}

#[test]
fn scenario_struct_quotation_type() {
    let mut names = Interner::new();
    let n = names.intern("n");
    let qn = names.intern("qn");
    let x = names.intern("x");
    let y = names.intern("y");
    let ph = ty_phases(vec![(n, Ty::Nat)], vec![(qn, Ty::Nat)]);
    let body = Ast::Struct {
        parts: AstFields::from_vecs(vec![x, y], vec![Ast::VarRef(qn), Ast::VarRef(qn)]),
    };
    let res = synth_at(&quote(true, Nt::Expr, None, body), &ph, 0).map(|r| r.0);
    let expected = Ty::apply(
        Ty::Syntax(Nt::Expr),
        vec![Ty::record(vec![x, y], vec![Ty::Nat, Ty::Nat])],
    );
    assert!(res == Ok(expected));
}

#[test]
fn annotation_must_match_body_type() {
    let mut names = Interner::new();
    let qn = names.intern("qn");
    let ph = ty_phases(vec![], vec![(qn, Ty::Nat)]);
    let res = synth_at(&quote(true, Nt::Expr, Some(Ty::Int), Ast::VarRef(qn)), &ph, 0);
    assert!(res == Err(TyErr::Mismatch(Ty::Int, Ty::Nat)));
}

#[test]
fn pattern_quote_in_expression_needs_annotation() {
    let mut names = Interner::new();
    let p = names.intern("p");
    let ph = ty_phases(vec![], vec![]);
    let res = synth_at(&quote(true, Nt::Pat, None, Ast::Atom(p)), &ph, 0);
    assert!(res == Err(TyErr::NeedsAnnotation(Nt::Pat)));
    let res = synth_at(&quote(true, Nt::Pat, Some(Ty::Nat), Ast::Atom(p)), &ph, 0).map(|r| r.0);
    assert!(res == Ok(Ty::apply(Ty::Syntax(Nt::Pat), vec![Ty::Nat])));
}

#[test]
fn pattern_unquote_in_expression_quote_needs_annotation() {
    let mut names = Interner::new();
    let p = names.intern("p");
    let ph = ty_phases(vec![], vec![]);
    let res = synth_at(&unquote_form(false, Nt::Expr, None, 1, Ast::Atom(p)), &ph, 1);
    assert!(res == Err(TyErr::NeedsAnnotation(Nt::Expr)));
    let annot = Ty::apply(Ty::Syntax(Nt::Expr), vec![Ty::Int]);
    let res = synth_at(&unquote_form(false, Nt::Expr, Some(annot), 1, Ast::Atom(p)), &ph, 1);
    let harvest = Assoc::new().extend(p, Ty::apply(Ty::Syntax(Nt::Expr), vec![Ty::Int]));
    assert!(res == Ok((Ty::Int, harvest)));
}

#[test]
fn unquote_outside_quotation_is_bad_depth() {
    let mut names = Interner::new();
    let en = names.intern("en");
    let ph = ty_phases(vec![(en, Ty::Nat)], vec![]);
    let res = synth_at(&unquote_form(true, Nt::Expr, None, 1, Ast::VarRef(en)), &ph, 0);
    assert!(res == Err(TyErr::BadQuotationDepth));
}

#[test]
fn unquote_of_non_syntax_is_not_a_quotation_head() {
    let mut names = Interner::new();
    let en = names.intern("en");
    let ph = ty_phases(vec![(en, Ty::Nat)], vec![]);
    let res = synth_at(&unquote_form(true, Nt::Expr, None, 1, Ast::VarRef(en)), &ph, 1);
    assert!(res == Err(TyErr::NotAQuotationHead(Some(Nt::Expr))));
    let pat_syntax = Ty::apply(Ty::Syntax(Nt::Pat), vec![Ty::Nat]);
    assert!(less_quoted_ty(pat_syntax, Some(Nt::Expr)) == Err(TyErr::NotAQuotationHead(Some(Nt::Expr))));
    let pat_syntax = Ty::apply(Ty::Syntax(Nt::Pat), vec![Ty::Nat]);
    assert!(less_quoted_ty(pat_syntax, None) == Ok(Ty::Nat));
}

#[test]
fn double_unquote_peels_two_layers() {
    let mut names = Interner::new();
    let e = names.intern("e");
    let outer = Ty::apply(Ty::Syntax(Nt::Expr), vec![Ty::apply(Ty::Syntax(Nt::Expr), vec![Ty::Bool])]);
    let ph = Phases { envs: vec![Assoc::new().extend(e, outer)], core: Assoc::new() };
    let res = synth_at(&unquote_form(true, Nt::Expr, None, 2, Ast::VarRef(e)), &ph, 2).map(|r| r.0);
    assert!(res == Ok(Ty::Bool));
}

#[test]
fn forms_used_in_the_wrong_position() {
    let mut names = Interner::new();
    let v = names.intern("v");
    let ph = ty_phases(vec![], vec![]);
    assert!(unpack_at(&Ast::VarRef(v), &ph, 0, Ty::Int) == Err(TyErr::NotValidHere));
    assert!(synth_at(&quote(false, Nt::Expr, None, Ast::VarRef(v)), &ph, 0) == Err(TyErr::NotValidHere));
}

#[test]
fn struct_pattern_against_non_struct() {
    let mut names = Interner::new();
    let x = names.intern("x");
    let ph = ty_phases(vec![], vec![]);
    let pat = Ast::Struct { parts: AstFields::from_vecs(vec![x], vec![Ast::Atom(x)]) };
    assert!(unpack_at(&pat, &ph, 0, Ty::Int) == Err(TyErr::BadShape(Ty::Int)));
    let ok = unpack_at(&pat, &ph, 0, Ty::record(vec![x], vec![Ty::Nat])).map(|r| r.0);
    assert!(ok == Ok(Assoc::new().extend(x, Ty::Nat)));
}

#[test]
fn positive_unquote_in_pattern_quote_checks_type() {
    let mut names = Interner::new();
    let e = names.intern("e");
    let ph = ty_phases(vec![(e, Ty::Nat)], vec![]);
    let hole = unquote_form(true, Nt::Pat, None, 1, Ast::VarRef(e));
    assert!(unpack_at(&hole, &ph, 1, Ty::Nat) == Ok((Assoc::new(), Assoc::new())));
    assert!(unpack_at(&hole, &ph, 1, Ty::Int) == Err(TyErr::Mismatch(Ty::Nat, Ty::Int)));
}
