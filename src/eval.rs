use vstd::prelude::*;
use crate::assoc::Assoc;
use crate::name::Name;
use crate::quotation::{Ast, AstFields, Phases, annot_eq, duplicate_annot};
use crate::ty::{Nt, Ty};

verus! {

// Evaluation of quotations. An expression quotation evaluates to its body as
// a syntax value: the body is rebuilt node by node, except that each
// unquotation that lands back on the evaluating phase is evaluated there and
// its syntax value spliced in. A pattern quotation matches a syntax value
// node by node, and each unquotation that lands back on the matching phase
// matches the sub-tree in its place with its own (lower) pattern.

/// A run-time value: a number or a piece of syntax.
#[derive(PartialEq, Eq)]
pub enum Value {
    Int(i64),
    Syntax(Ast),
}

impl Value {
    pub fn duplicate(&self) -> (r: Value)
        ensures
            r == *self,
    {
        match self {
            Value::Int(i) => Value::Int(*i),
            Value::Syntax(a) => Value::Syntax(a.duplicate()),
        }
    }
}

/// The value of expression `a` at `phase`.
pub open spec fn eval(a: Ast, ph: Phases<Value>, phase: nat) -> Result<Value, ()>
    decreases a, 1nat,
{
    match a {
        Ast::Atom(n) => match ph.env(phase).lookup(n) {
            Some(v) => Ok(v),
            None => Err(()),
        },
        Ast::VarRef(n) => match ph.env(phase).lookup(n) {
            Some(v) => Ok(v),
            None => Err(()),
        },
        Ast::Quote { pos, nt, annot, body } => if pos && phase < usize::MAX {
            match quasi(*body, ph, phase + 1, phase) {
                Ok(x) => Ok(Value::Syntax(x)),
                Err(()) => Err(()),
            }
        } else {
            Err(())
        },
        _ => Err(()),
    }
}

/// The syntax that quoted `a` at `phase` stands for, when evaluation runs at
/// phase `base`.
pub open spec fn quasi(a: Ast, ph: Phases<Value>, phase: nat, base: nat) -> Result<Ast, ()>
    decreases a, 0nat,
{
    match a {
        Ast::Atom(n) => Ok(Ast::Atom(n)),
        Ast::VarRef(n) => Ok(Ast::VarRef(n)),
        Ast::Struct { parts } => match quasi_parts(parts, ph, phase, base) {
            Ok(ps) => Ok(Ast::Struct { parts: ps }),
            Err(()) => Err(()),
        },
        Ast::Quote { pos, nt, annot, body } => if phase < usize::MAX {
            match quasi(*body, ph, phase + 1, base) {
                Ok(b) => Ok(Ast::Quote { pos, nt, annot, body: Box::new(b) }),
                Err(()) => Err(()),
            }
        } else {
            Err(())
        },
        Ast::Unquote { pos_quot, nt, annot, depth, body } => if phase < base + depth {
            Err(())
        } else if phase == base + depth {
            match eval(*body, ph, base) {
                Ok(Value::Syntax(x)) => Ok(x),
                _ => Err(()),
            }
        } else {
            match quasi(*body, ph, (phase - depth) as nat, base) {
                Ok(b) => Ok(Ast::Unquote { pos_quot, nt, annot, depth, body: Box::new(b) }),
                Err(()) => Err(()),
            }
        },
    }
}

pub open spec fn quasi_parts(parts: AstFields, ph: Phases<Value>, phase: nat, base: nat) -> Result<
    AstFields,
    (),
>
    decreases parts, 0nat,
{
    match parts {
        AstFields::Nil => Ok(AstFields::Nil),
        AstFields::Cons(n, a, rest) => match quasi(*a, ph, phase, base) {
            Ok(b) => match quasi_parts(*rest, ph, phase, base) {
                Ok(r) => Ok(AstFields::Cons(n, Box::new(b), Box::new(r))),
                Err(()) => Err(()),
            },
            Err(()) => Err(()),
        },
    }
}

/// The bindings that pattern `p` at `phase` makes when it matches `v`.
pub open spec fn destr(p: Ast, ph: Phases<Value>, phase: nat, v: Value) -> Result<Assoc<Value>, ()>
    decreases p, 1nat,
{
    match p {
        Ast::Atom(n) => Ok(Assoc::Bind(n, v, Box::new(Assoc::Empty))),
        Ast::Quote { pos, nt, annot, body } => match v {
            Value::Syntax(x) => if !pos && phase < usize::MAX {
                qdestr(*body, ph, phase + 1, phase, x)
            } else {
                Err(())
            },
            _ => Err(()),
        },
        _ => Err(()),
    }
}

/// The bindings that quoted pattern `p` at `phase` makes when it matches the
/// syntax `x`, when matching runs at phase `base`.
pub open spec fn qdestr(p: Ast, ph: Phases<Value>, phase: nat, base: nat, x: Ast) -> Result<
    Assoc<Value>,
    (),
>
    decreases p, 0nat,
{
    match p {
        Ast::Atom(n) => if x == Ast::Atom(n) {
            Ok(Assoc::Empty)
        } else {
            Err(())
        },
        Ast::VarRef(n) => if x == Ast::VarRef(n) {
            Ok(Assoc::Empty)
        } else {
            Err(())
        },
        Ast::Struct { parts } => match x {
            Ast::Struct { parts: xs } => if parts.names() == xs.names() {
                qdestr_parts(parts, ph, phase, base, xs)
            } else {
                Err(())
            },
            _ => Err(()),
        },
        Ast::Quote { pos, nt, annot, body } => match x {
            Ast::Quote { pos: p2, nt: n2, annot: a2, body: b2 } => if pos == p2 && nt == n2 && annot
                == a2 && phase < usize::MAX {
                qdestr(*body, ph, phase + 1, base, *b2)
            } else {
                Err(())
            },
            _ => Err(()),
        },
        Ast::Unquote { pos_quot, nt, annot, depth, body } => if phase < base + depth {
            Err(())
        } else if phase == base + depth {
            destr(*body, ph, base, Value::Syntax(x))
        } else {
            match x {
                Ast::Unquote { pos_quot: q2, nt: n2, annot: a2, depth: d2, body: b2 } => if pos_quot
                    == q2 && nt == n2 && annot == a2 && depth == d2 {
                    qdestr(*body, ph, (phase - depth) as nat, base, *b2)
                } else {
                    Err(())
                },
                _ => Err(()),
            }
        },
    }
}

pub open spec fn qdestr_parts(
    parts: AstFields,
    ph: Phases<Value>,
    phase: nat,
    base: nat,
    xs: AstFields,
) -> Result<Assoc<Value>, ()>
    decreases parts, 0nat,
{
    match (parts, xs) {
        (AstFields::Cons(_, a, rest), AstFields::Cons(_, x, xrest)) => match qdestr(
            *a,
            ph,
            phase,
            base,
            *x,
        ) {
            Ok(e1) => match qdestr_parts(*rest, ph, phase, base, *xrest) {
                Ok(e2) => Ok(e1.concat(e2)),
                Err(()) => Err(()),
            },
            Err(()) => Err(()),
        },
        _ => Ok(Assoc::Empty),
    }
}

/// Evaluates expression `a` at `phase`.
pub fn eval_at(a: &Ast, ph: &Phases<Value>, phase: usize) -> (r: Result<Value, ()>)
    ensures
        r == eval(*a, *ph, phase as nat),
    decreases a, 1nat,
{
    match a {
        Ast::Atom(n) => match ph.env_at(phase).find(*n) {
            Some(v) => Ok(v.duplicate()),
            None => Err(()),
        },
        Ast::VarRef(n) => match ph.env_at(phase).find(*n) {
            Some(v) => Ok(v.duplicate()),
            None => Err(()),
        },
        Ast::Quote { pos, nt, annot, body } => if *pos && phase < usize::MAX {
            match quasi_at(body, ph, phase + 1, phase) {
                Ok(x) => Ok(Value::Syntax(x)),
                Err(()) => Err(()),
            }
        } else {
            Err(())
        },
        _ => Err(()),
    }
}

fn quasi_at(a: &Ast, ph: &Phases<Value>, phase: usize, base: usize) -> (r: Result<Ast, ()>)
    ensures
        r == quasi(*a, *ph, phase as nat, base as nat),
    decreases a, 0nat,
{
    match a {
        Ast::Atom(n) => Ok(Ast::Atom(*n)),
        Ast::VarRef(n) => Ok(Ast::VarRef(*n)),
        Ast::Struct { parts } => match quasi_parts_at(parts, ph, phase, base) {
            Ok(ps) => Ok(Ast::Struct { parts: ps }),
            Err(()) => Err(()),
        },
        Ast::Quote { pos, nt, annot, body } => if phase < usize::MAX {
            match quasi_at(body, ph, phase + 1, base) {
                Ok(b) => Ok(
                    Ast::Quote { pos: *pos, nt: *nt, annot: duplicate_annot(annot), body: Box::new(b) },
                ),
                Err(()) => Err(()),
            }
        } else {
            Err(())
        },
        Ast::Unquote { pos_quot, nt, annot, depth, body } => {
            if phase < base || phase - base < *depth as usize {
                Err(())
            } else if phase - base == *depth as usize {
                match eval_at(body, ph, base) {
                    Ok(Value::Syntax(x)) => Ok(x),
                    _ => Err(()),
                }
            } else {
                match quasi_at(body, ph, phase - *depth as usize, base) {
                    Ok(b) => Ok(
                        Ast::Unquote {
                            pos_quot: *pos_quot,
                            nt: *nt,
                            annot: duplicate_annot(annot),
                            depth: *depth,
                            body: Box::new(b),
                        },
                    ),
                    Err(()) => Err(()),
                }
            }
        },
    }
}

fn quasi_parts_at(parts: &AstFields, ph: &Phases<Value>, phase: usize, base: usize) -> (r: Result<
    AstFields,
    (),
>)
    ensures
        r == quasi_parts(*parts, *ph, phase as nat, base as nat),
    decreases parts, 0nat,
{
    match parts {
        AstFields::Nil => Ok(AstFields::Nil),
        AstFields::Cons(n, a, rest) => match quasi_at(a, ph, phase, base) {
            Ok(b) => match quasi_parts_at(rest, ph, phase, base) {
                Ok(r) => Ok(AstFields::Cons(*n, Box::new(b), Box::new(r))),
                Err(()) => Err(()),
            },
            Err(()) => Err(()),
        },
    }
}

/// Matches pattern `p` at `phase` against `v`, giving the bindings it makes.
pub fn destructure_at(p: &Ast, ph: &Phases<Value>, phase: usize, v: Value) -> (r: Result<
    Assoc<Value>,
    (),
>)
    ensures
        r == destr(*p, *ph, phase as nat, v),
    decreases p, 1nat,
{
    match p {
        Ast::Atom(n) => Ok(Assoc::Empty.extend(*n, v)),
        Ast::Quote { pos, nt, annot, body } => match v {
            Value::Syntax(x) => if !*pos && phase < usize::MAX {
                qdestr_at(body, ph, phase + 1, phase, x)
            } else {
                Err(())
            },
            _ => Err(()),
        },
        _ => Err(()),
    }
}

fn name_is(x: &Ast, atom: bool, n: Name) -> (r: bool)
    ensures
        r == (if atom {
            *x == Ast::Atom(n)
        } else {
            *x == Ast::VarRef(n)
        }),
{
    match x {
        Ast::Atom(m) => atom && m.same(&n),
        Ast::VarRef(m) => !atom && m.same(&n),
        _ => false,
    }
}

fn same_part_names(a: &AstFields, b: &AstFields) -> (r: bool)
    ensures
        r == (a.names() == b.names()),
    decreases a,
{
    match (a, b) {
        (AstFields::Nil, AstFields::Nil) => true,
        (AstFields::Cons(n1, _, t1), AstFields::Cons(n2, _, t2)) => {
            let r = n1.same(n2) && same_part_names(t1, t2);
            assert(r == (a.names() == b.names())) by {
                if a.names() == b.names() {
                    assert(a.names()[0] == b.names()[0]);
                    assert(t1.names() =~= a.names().drop_first());
                    assert(t2.names() =~= b.names().drop_first());
                }
                if r {
                    assert(a.names() =~= b.names());
                }
            }
            r
        },
        (AstFields::Nil, AstFields::Cons(..)) => {
            assert(b.names().len() > 0);
            false
        },
        (AstFields::Cons(..), AstFields::Nil) => {
            assert(a.names().len() > 0);
            false
        },
    }
}

fn qdestr_at(p: &Ast, ph: &Phases<Value>, phase: usize, base: usize, x: Ast) -> (r: Result<
    Assoc<Value>,
    (),
>)
    ensures
        r == qdestr(*p, *ph, phase as nat, base as nat, x),
    decreases p, 0nat,
{
    match p {
        Ast::Atom(n) => if name_is(&x, true, *n) {
            Ok(Assoc::Empty)
        } else {
            Err(())
        },
        Ast::VarRef(n) => if name_is(&x, false, *n) {
            Ok(Assoc::Empty)
        } else {
            Err(())
        },
        Ast::Struct { parts } => match x {
            Ast::Struct { parts: xs } => if same_part_names(parts, &xs) {
                qdestr_parts_at(parts, ph, phase, base, xs)
            } else {
                Err(())
            },
            _ => Err(()),
        },
        Ast::Quote { pos, nt, annot, body } => match x {
            Ast::Quote { pos: p2, nt: n2, annot: a2, body: b2 } => if *pos == p2 && *nt == n2
                && annot_eq(annot, &a2) && phase < usize::MAX {
                qdestr_at(body, ph, phase + 1, base, *b2)
            } else {
                Err(())
            },
            _ => Err(()),
        },
        Ast::Unquote { pos_quot, nt, annot, depth, body } => {
            if phase < base || phase - base < *depth as usize {
                Err(())
            } else if phase - base == *depth as usize {
                destructure_at(body, ph, base, Value::Syntax(x))
            } else {
                match x {
                    Ast::Unquote { pos_quot: q2, nt: n2, annot: a2, depth: d2, body: b2 } => if *pos_quot
                        == q2 && *nt == n2 && annot_eq(annot, &a2) && *depth == d2 {
                        qdestr_at(body, ph, phase - *depth as usize, base, *b2)
                    } else {
                        Err(())
                    },
                    _ => Err(()),
                }
            }
        },
    }
}

fn qdestr_parts_at(
    parts: &AstFields,
    ph: &Phases<Value>,
    phase: usize,
    base: usize,
    xs: AstFields,
) -> (r: Result<Assoc<Value>, ()>)
    ensures
        r == qdestr_parts(*parts, *ph, phase as nat, base as nat, xs),
    decreases parts, 0nat,
{
    match (parts, xs) {
        (AstFields::Cons(_, a, rest), AstFields::Cons(_, x, xrest)) => match qdestr_at(
            a,
            ph,
            phase,
            base,
            *x,
        ) {
            Ok(e1) => match qdestr_parts_at(rest, ph, phase, base, *xrest) {
                Ok(e2) => Ok(e1.append(e2)),
                Err(()) => Err(()),
            },
            Err(()) => Err(()),
        },
        _ => Ok(Assoc::Empty),
    }
}

/// `a` holds no unquotation: it is syntax of the unquoted grammar.
pub open spec fn unquote_free(a: Ast) -> bool
    decreases a,
{
    match a {
        Ast::Struct { parts } => parts_unquote_free(parts),
        Ast::Quote { body, .. } => unquote_free(*body),
        Ast::Unquote { .. } => false,
        _ => true,
    }
}

pub open spec fn parts_unquote_free(parts: AstFields) -> bool
    decreases parts,
{
    match parts {
        AstFields::Nil => true,
        AstFields::Cons(_, a, rest) => unquote_free(*a) && parts_unquote_free(*rest),
    }
}

/// How deeply quotations nest in `a`.
pub open spec fn nesting(a: Ast) -> nat
    decreases a,
{
    match a {
        Ast::Struct { parts } => parts_nesting(parts),
        Ast::Quote { body, .. } => 1 + nesting(*body),
        Ast::Unquote { body, .. } => nesting(*body),
        _ => 0,
    }
}

pub open spec fn parts_nesting(parts: AstFields) -> nat
    decreases parts,
{
    match parts {
        AstFields::Nil => 0,
        AstFields::Cons(_, a, rest) => {
            let x = nesting(*a);
            let y = parts_nesting(*rest);
            if x >= y {
                x
            } else {
                y
            }
        },
    }
}

proof fn lemma_quasi_literal(a: Ast, ph: Phases<Value>, phase: nat, base: nat)
    requires
        unquote_free(a),
        phase + nesting(a) < usize::MAX,
    ensures
        quasi(a, ph, phase, base) == Ok::<Ast, ()>(a),
    decreases a,
{
    match a {
        Ast::Struct { parts } => lemma_quasi_parts_literal(parts, ph, phase, base),
        Ast::Quote { body, .. } => lemma_quasi_literal(*body, ph, phase + 1, base),
        _ => {},
    }
}

proof fn lemma_quasi_parts_literal(parts: AstFields, ph: Phases<Value>, phase: nat, base: nat)
    requires
        parts_unquote_free(parts),
        phase + parts_nesting(parts) < usize::MAX,
    ensures
        quasi_parts(parts, ph, phase, base) == Ok::<AstFields, ()>(parts),
    decreases parts,
{
    match parts {
        AstFields::Nil => {},
        AstFields::Cons(_, a, rest) => {
            lemma_quasi_literal(*a, ph, phase, base);
            lemma_quasi_parts_literal(*rest, ph, phase, base);
        },
    }
}

/// Quoting syntax of the unquoted grammar and evaluating the quotation gives
/// back that syntax.
pub proof fn lemma_quote_round_trip(
    nt: Nt,
    annot: Option<Ty>,
    e: Ast,
    ph: Phases<Value>,
    phase: nat,
)
    requires
        unquote_free(e),
        phase + 1 + nesting(e) < usize::MAX,
    ensures
        eval(Ast::Quote { pos: true, nt, annot, body: Box::new(e) }, ph, phase) == Ok::<Value, ()>(
            Value::Syntax(e),
        ),
{
    lemma_quasi_literal(e, ph, phase + 1, phase);
}

/// Unquoting a variable bound to syntax right inside an expression quotation
/// gives back that syntax.
pub proof fn lemma_unquote_inverts_quote(v: Name, a: Ast, ph: Phases<Value>, phase: nat)
    requires
        phase + 1 < usize::MAX,
        ph.env(phase).lookup(v) == Some(Value::Syntax(a)),
    ensures
        eval(
            Ast::Quote {
                pos: true,
                nt: Nt::Expr,
                annot: None,
                body: Box::new(
                    Ast::Unquote {
                        pos_quot: true,
                        nt: Nt::Expr,
                        annot: None,
                        depth: 1,
                        body: Box::new(Ast::VarRef(v)),
                    },
                ),
            },
            ph,
            phase,
        ) == Ok::<Value, ()>(Value::Syntax(a)),
{
    let u = Ast::Unquote {
        pos_quot: true,
        nt: Nt::Expr,
        annot: None,
        depth: 1,
        body: Box::new(Ast::VarRef(v)),
    };
    assert(eval(Ast::VarRef(v), ph, phase) == Ok::<Value, ()>(Value::Syntax(a)));
    assert(quasi(u, ph, phase + 1, phase) == Ok::<Ast, ()>(a));
}

/// The names that pattern `p` at `phase` binds.
pub open spec fn pat_binders(p: Ast, phase: nat) -> Set<Name>
    decreases p, 1nat,
{
    match p {
        Ast::Atom(n) => set![n],
        Ast::Quote { pos, body, .. } => if !pos {
            quoted_binders(*body, phase + 1, phase)
        } else {
            Set::empty()
        },
        _ => Set::empty(),
    }
}

/// The names bound by the patterns of the unquotations in quoted pattern
/// `p` at `phase` that land back on phase `base`.
pub open spec fn quoted_binders(p: Ast, phase: nat, base: nat) -> Set<Name>
    decreases p, 0nat,
{
    match p {
        Ast::Struct { parts } => parts_binders(parts, phase, base),
        Ast::Quote { body, .. } => quoted_binders(*body, phase + 1, base),
        Ast::Unquote { depth, body, .. } => if phase == base + depth {
            pat_binders(*body, base)
        } else if phase > base + depth {
            quoted_binders(*body, (phase - depth) as nat, base)
        } else {
            Set::empty()
        },
        _ => Set::empty(),
    }
}

pub open spec fn parts_binders(parts: AstFields, phase: nat, base: nat) -> Set<Name>
    decreases parts, 0nat,
{
    match parts {
        AstFields::Nil => Set::empty(),
        AstFields::Cons(_, a, rest) => quoted_binders(*a, phase, base).union(
            parts_binders(*rest, phase, base),
        ),
    }
}

proof fn lemma_destr_binders(p: Ast, ph: Phases<Value>, phase: nat, v: Value)
    ensures
        destr(p, ph, phase, v) is Ok ==> destr(p, ph, phase, v)->Ok_0.dom() == pat_binders(p, phase),
    decreases p, 1nat,
{
    match p {
        Ast::Atom(n) => {
            assert(Assoc::<Value>::Empty.dom().insert(n) =~= set![n]);
        },
        Ast::Quote { pos, nt, annot, body } => {
            if let Value::Syntax(x) = v {
                if !pos && phase < usize::MAX {
                    lemma_qdestr_binders(*body, ph, phase + 1, phase, x);
                }
            }
        },
        _ => {},
    }
}

proof fn lemma_qdestr_binders(p: Ast, ph: Phases<Value>, phase: nat, base: nat, x: Ast)
    ensures
        qdestr(p, ph, phase, base, x) is Ok ==> qdestr(p, ph, phase, base, x)->Ok_0.dom()
            == quoted_binders(p, phase, base),
    decreases p, 0nat,
{
    match p {
        Ast::Struct { parts } => {
            if let Ast::Struct { parts: xs } = x {
                if parts.names() == xs.names() {
                    lemma_qdestr_parts_binders(parts, ph, phase, base, xs);
                }
            }
        },
        Ast::Quote { pos, nt, annot, body } => {
            if let Ast::Quote { pos: p2, nt: n2, annot: a2, body: b2 } = x {
                lemma_qdestr_binders(*body, ph, phase + 1, base, *b2);
            }
        },
        Ast::Unquote { pos_quot, nt, annot, depth, body } => {
            if phase == base + depth {
                lemma_destr_binders(*body, ph, base, Value::Syntax(x));
            } else if phase > base + depth {
                if let Ast::Unquote { pos_quot: q2, nt: n2, annot: a2, depth: d2, body: b2 } = x {
                    lemma_qdestr_binders(*body, ph, (phase - depth) as nat, base, *b2);
                }
            }
        },
        _ => {},
    }
}

proof fn lemma_qdestr_parts_binders(
    parts: AstFields,
    ph: Phases<Value>,
    phase: nat,
    base: nat,
    xs: AstFields,
)
    requires
        parts.names().len() == xs.names().len(),
    ensures
        qdestr_parts(parts, ph, phase, base, xs) is Ok ==> qdestr_parts(
            parts,
            ph,
            phase,
            base,
            xs,
        )->Ok_0.dom() == parts_binders(parts, phase, base),
    decreases parts, 0nat,
{
    match (parts, xs) {
        (AstFields::Cons(_, a, rest), AstFields::Cons(_, x, xrest)) => {
            lemma_qdestr_binders(*a, ph, phase, base, *x);
            lemma_qdestr_parts_binders(*rest, ph, phase, base, *xrest);
            if let Ok(e1) = qdestr(*a, ph, phase, base, *x) {
                if let Ok(e2) = qdestr_parts(*rest, ph, phase, base, *xrest) {
                    e1.lemma_concat_dom(e2);
                }
            }
        },
        (AstFields::Nil, AstFields::Cons(..)) => {
            assert(xs.names().len() > 0);
        },
        (AstFields::Cons(..), AstFields::Nil) => {
            assert(parts.names().len() > 0);
        },
        _ => {},
    }
}

/// Destructuring a pattern quotation binds exactly the names that the
/// patterns of its unquotations bind, and no others.
pub proof fn lemma_pattern_quote_harvest(
    nt: Nt,
    annot: Option<Ty>,
    body: Ast,
    ph: Phases<Value>,
    phase: nat,
    x: Ast,
)
    ensures
        ({
            let q = Ast::Quote { pos: false, nt, annot, body: Box::new(body) };
            destr(q, ph, phase, Value::Syntax(x)) is Ok ==> destr(
                q,
                ph,
                phase,
                Value::Syntax(x),
            )->Ok_0.dom() == quoted_binders(body, phase + 1, phase)
        }),
{
    lemma_destr_binders(
        Ast::Quote { pos: false, nt, annot, body: Box::new(body) },
        ph,
        phase,
        Value::Syntax(x),
    );
}

} // verus!
