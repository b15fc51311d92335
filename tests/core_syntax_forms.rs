use unseemly::assoc::Assoc;
use unseemly::eval::{destructure_at, eval_at, Value};
use unseemly::name::{Interner, Name};
use unseemly::quotation::{quote, synth_at, unpack_at, unquote_form, Ast, AstFields, Phases};
use unseemly::ty::{Nt, Ty, TyErr};

fn expr_of(t: Ty) -> Ty {
    Ty::apply(Ty::Syntax(Nt::Expr), vec![t])
}

fn pat_of(t: Ty) -> Ty {
    Ty::apply(Ty::Syntax(Nt::Pat), vec![t])
}

fn env_of<V>(binds: Vec<(Name, V)>) -> Assoc<V> {
    let mut e = Assoc::new();
    for (n, v) in binds.into_iter().rev() {
        e = e.extend(n, v);
    }
    e
}

fn empty_struct_ty() -> Ty {
    Ty::record(vec![], vec![])
}

fn empty_struct_ast() -> Ast {
    Ast::Struct { parts: AstFields::from_vecs(vec![], vec![]) }
}

#[test]
fn quote_unquote_eval_basic() {
    let pos = true;
    let neg = false;
    let mut names = Interner::new();
    let n = names.intern("n");
    let en = names.intern("en");
    let qn = names.intern("qn");

    let ph = || Phases {
        envs: vec![
            env_of(vec![(n, Value::Int(5)), (en, Value::Syntax(Ast::VarRef(qn)))]),
            env_of(vec![(qn, Value::Int(6))]),
        ],
        core: Assoc::new(),
    };

    assert!(
        eval_at(&quote(pos, Nt::Expr, None, Ast::VarRef(qn)), &ph(), 0)
            == Ok(Value::Syntax(Ast::VarRef(qn)))
    );

    assert!(
        eval_at(
            &quote(pos, Nt::Expr, None, unquote_form(true, Nt::Expr, None, 1, Ast::VarRef(en))),
            &ph(),
            0
        ) == Ok(Value::Syntax(Ast::VarRef(qn)))
    );

    assert!(
        destructure_at(
            &quote(neg, Nt::Expr, None, Ast::VarRef(qn)),
            &ph(),
            0,
            Value::Syntax(Ast::VarRef(qn))
        ) == Ok(Assoc::<Value>::new())
    );
}

#[test]
fn quote_type_basic() {
    let pos = true;
    let neg = false;
    let mut names = Interner::new();
    let n = names.intern("n");
    let qn = names.intern("qn");
    let five = names.intern("five");
    let x = names.intern("x");
    let y = names.intern("y");
    let qfoo = names.intern("qfoo");

    let ph = || Phases {
        envs: vec![env_of(vec![(n, Ty::Nat)]), env_of(vec![(qn, Ty::Nat)])],
        core: env_of(vec![(five, Ty::Int)]),
    };

    // '[Expr | qn]'
    assert!(
        synth_at(&quote(pos, Nt::Expr, None, Ast::VarRef(qn)), &ph(), 0).map(|r| r.0)
            == Ok(expr_of(Ty::Nat))
    );

    // previously unaccessed environments default to the core types
    // '[Expr | '[Expr | five]']'
    assert!(
        synth_at(
            &quote(pos, Nt::Expr, None, quote(pos, Nt::Expr, None, Ast::VarRef(five))),
            &ph(),
            0
        )
        .map(|r| r.0)
            == Ok(expr_of(expr_of(Ty::Int)))
    );

    // '[Expr <[Nat]< | qn]'
    assert!(
        synth_at(&quote(pos, Nt::Expr, Some(Ty::Nat), Ast::VarRef(qn)), &ph(), 0).map(|r| r.0)
            == Ok(expr_of(Ty::Nat))
    );

    // '[Expr | n]'
    assert!(matches!(
        synth_at(&quote(pos, Nt::Expr, None, Ast::VarRef(n)), &ph(), 0),
        Err(TyErr::UnboundName(_))
    ));

    // '[Expr | { x: qn  y: qn }]'
    let body = Ast::Struct {
        parts: AstFields::from_vecs(vec![x, y], vec![Ast::VarRef(qn), Ast::VarRef(qn)]),
    };
    assert!(
        synth_at(&quote(pos, Nt::Expr, None, body), &ph(), 0).map(|r| r.0)
            == Ok(expr_of(Ty::record(vec![x, y], vec![Ty::Nat, Ty::Nat])))
    );

    // A trivial pattern containing an expression
    // '[Expr <[ struct {} ]< | *[]* ]'
    assert!(
        unpack_at(
            &quote(neg, Nt::Expr, Some(empty_struct_ty()), empty_struct_ast()),
            &ph(),
            0,
            expr_of(empty_struct_ty())
        )
        .map(|r| r.0)
            == Ok(Assoc::new())
    );

    // A trivial pattern containing a pattern
    // '[Pat <[ struct {} ]< | *[]* ]'
    assert!(
        unpack_at(
            &quote(neg, Nt::Pat, Some(empty_struct_ty()), empty_struct_ast()),
            &ph(),
            0,
            pat_of(empty_struct_ty())
        )
        .map(|r| r.0)
            == Ok(Assoc::new())
    );

    // A slightly-less trivial pattern containing a pattern (but still no unquotes)
    // '[Pat <[ struct {x: Nat} ]< | *[x: qfoo]* ]'
    let body = Ast::Struct { parts: AstFields::from_vecs(vec![x], vec![Ast::Atom(qfoo)]) };
    assert!(
        unpack_at(
            &quote(neg, Nt::Pat, Some(Ty::record(vec![x], vec![Ty::Nat])), body),
            &ph(),
            0,
            pat_of(Ty::record(vec![x], vec![Ty::Nat]))
        )
        .map(|r| r.0)
            == Ok(Assoc::new())
    );
}

#[test]
fn quote_unquote_type_basic() {
    let pos = true;
    let neg = false;
    let mut names = Interner::new();
    let n = names.intern("n");
    let en = names.intern("en");
    let ef = names.intern("ef");
    let qn = names.intern("qn");
    let x = names.intern("x");
    let y = names.intern("y");
    let z = names.intern("z");
    let foo = names.intern("foo");
    let bar = names.intern("bar");
    let baz = names.intern("baz");

    let ph = || Phases {
        envs: vec![
            env_of(vec![(n, Ty::Nat), (en, expr_of(Ty::Nat)), (ef, expr_of(Ty::Float))]),
            env_of(vec![(qn, Ty::Nat)]),
        ],
        core: Assoc::new(),
    };

    // '[Expr | *[x: ,[Expr | en], y: ,[Expr | ef], z: baz]* ]'
    let body = Ast::Struct {
        parts: AstFields::from_vecs(
            vec![x, y, z],
            vec![
                unquote_form(pos, Nt::Expr, None, 1, Ast::VarRef(en)),
                unquote_form(pos, Nt::Expr, None, 1, Ast::VarRef(ef)),
                Ast::VarRef(qn),
            ],
        ),
    };
    assert!(
        synth_at(&quote(pos, Nt::Expr, None, body), &ph(), 0).map(|r| r.0)
            == Ok(expr_of(Ty::record(vec![x, y, z], vec![Ty::Nat, Ty::Float, Ty::Nat])))
    );

    // '[Pat <[ struct {x : Nat y : Float z : Nat} ]< |
    //     *[x: ,[Pat | foo], y: ,[Pat | bar], z: baz]* ]'
    let s = || Ty::record(vec![x, y, z], vec![Ty::Nat, Ty::Float, Ty::Nat]);
    let body = Ast::Struct {
        parts: AstFields::from_vecs(
            vec![x, y, z],
            vec![
                unquote_form(neg, Nt::Pat, None, 1, Ast::Atom(foo)),
                unquote_form(neg, Nt::Pat, None, 1, Ast::Atom(bar)),
                Ast::Atom(baz),
            ],
        ),
    };
    assert!(
        unpack_at(&quote(neg, Nt::Pat, Some(s()), body), &ph(), 0, pat_of(s())).map(|r| r.0)
            == Ok(env_of(vec![(foo, pat_of(Ty::Nat)), (bar, pat_of(Ty::Float))]))
    );
}

#[test]
fn unquote_type_basic() {
    let pos = true;
    let mut names = Interner::new();
    let n = names.intern("n");
    let en = names.intern("en");
    let qn = names.intern("qn");

    let ph = Phases {
        envs: vec![
            env_of(vec![(n, Ty::Nat), (en, expr_of(Ty::Nat))]),
            env_of(vec![(qn, Ty::Nat)]),
        ],
        core: Assoc::new(),
    };

    // ,[Expr | en ],  walked one phase up
    let res = synth_at(&unquote_form(pos, Nt::Expr, None, 1, Ast::VarRef(en)), &ph, 1);
    assert!(res.map(|r| r.0) == Ok(Ty::Nat));
}

#[test]
fn subtyping_under_negative_quote() {}
