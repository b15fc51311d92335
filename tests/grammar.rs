use unseemly::grammar::{already_has_unquote, perform_quotation, unquote, Form, FormPat, Key, Pats};
use unseemly::name::Interner;
use unseemly::ty::Nt;

#[test]
fn quotation_offers_unquote_in_core_nonterminals() {
    let mut names = Interner::new();
    let e = names.intern("expr_forms");
    let p = names.intern("pat_forms");
    let other = names.intern("ident");
    let g = vec![
        (Key::Core(Nt::Expr), FormPat::Opaque(e)),
        (Key::Core(Nt::Pat), FormPat::Biased(Box::new(unquote(Nt::Pat, true)), Box::new(FormPat::Opaque(p)))),
        (Key::Other(other), FormPat::Opaque(other)),
        (Key::Starter, FormPat::Call(Key::Core(Nt::Type))),
    ];
    let q = perform_quotation(&g, Key::Core(Nt::Expr), false);
    assert_eq!(q.len(), 4);
    assert!(q[0].0 == Key::Core(Nt::Expr));
    assert!(
        q[0].1
            == FormPat::Biased(
                Box::new(FormPat::Scope(Form::Unquote { nt: Nt::Expr, pos_quot: false, depth: 1 })),
                Box::new(FormPat::Opaque(e))
            )
    );
    // already had one: kept as it was
    assert!(q[1].1 == FormPat::Biased(Box::new(unquote(Nt::Pat, true)), Box::new(FormPat::Opaque(p))));
    // not a core nonterminal: kept
    assert!(q[2].0 == Key::Other(other) && q[2].1 == FormPat::Opaque(other));
    // the old starter is replaced by one for the quoted nonterminal
    assert!(q[3].0 == Key::Starter && q[3].1 == FormPat::Call(Key::Core(Nt::Expr)));

    // quoting again adds nothing further
    let qq = perform_quotation(&q, Key::Core(Nt::Expr), false);
    assert!(qq[0].1 == q[0].1);
}

#[test]
fn unquote_found_through_alternatives() {
    let mut names = Interner::new();
    let x = names.intern("x");
    let alts = FormPat::Alt(Pats::Cons(
        Box::new(FormPat::Opaque(x)),
        Box::new(Pats::Cons(Box::new(unquote(Nt::Type, true)), Box::new(Pats::Nil))),
    ));
    assert!(already_has_unquote(&alts));
    assert!(!already_has_unquote(&FormPat::Scope(Form::Quote { pos: true })));
    assert!(!already_has_unquote(&FormPat::Alt(Pats::Nil)));
}
