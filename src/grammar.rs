use vstd::prelude::*;
use crate::name::Name;
use crate::ty::Nt;

verus! {

// Entering a quotation rewrites the grammar: every core nonterminal that
// cannot yet parse an unquotation gets one, tried before its own definition,
// and a starter production is installed that parses the quoted nonterminal.
// This is what makes unquotation parse inside quotations and nowhere else.

/// A nonterminal of a grammar.
#[derive(Clone, Copy, Debug, PartialEq, Eq, Hash, Structural)]
pub enum Key {
    /// One of the core nonterminals.
    Core(Nt),
    /// Any other nonterminal.
    Other(Name),
    /// The production that parses the body of the quotation being entered.
    Starter,
}

/// A syntactic form, as far as the grammar rewriting needs to tell forms apart.
#[derive(Clone, Copy, Debug, PartialEq, Eq, Hash, Structural)]
pub enum Form {
    /// `unquote` of nonterminal `nt`, inside a quotation of polarity `pos_quot`.
    Unquote { nt: Nt, pos_quot: bool, depth: u8 },
    /// The quotation form.
    Quote { pos: bool },
    /// Any other form, by name.
    Named(Name),
}

/// A grammar pattern.
#[derive(PartialEq, Eq)]
pub enum FormPat {
    /// The first of the alternatives that parses.
    Alt(Pats),
    /// The first pattern if it parses, else the second.
    Biased(Box<FormPat>, Box<FormPat>),
    /// A form: parses its grammar and builds a node of it.
    Scope(Form),
    /// A call of another nonterminal.
    Call(Key),
    /// Any other pattern (literals, sequences, ...), opaque here.
    Opaque(Name),
}

/// A sequence of grammar patterns.
#[derive(PartialEq, Eq)]
pub enum Pats {
    Nil,
    Cons(Box<FormPat>, Box<Pats>),
}

/// Whether `fp` already offers an unquotation among its alternatives.
pub open spec fn has_unquote(fp: FormPat) -> bool
    decreases fp,
{
    match fp {
        FormPat::Alt(ps) => pats_have_unquote(ps),
        FormPat::Biased(a, b) => has_unquote(*a) || has_unquote(*b),
        FormPat::Scope(f) => f is Unquote,
        _ => false,
    }
}

pub open spec fn pats_have_unquote(ps: Pats) -> bool
    decreases ps,
{
    match ps {
        Pats::Nil => false,
        Pats::Cons(h, t) => has_unquote(*h) || pats_have_unquote(*t),
    }
}

/// The depth-one unquotation of `nt` inside a quotation of polarity `pos_quot`.
pub open spec fn unquote_pat(nt: Nt, pos_quot: bool) -> FormPat {
    FormPat::Scope(Form::Unquote { nt, pos_quot, depth: 1 })
}

/// The definition of `key` inside a quotation of polarity `pos`.
pub open spec fn requote(key: Key, def: FormPat, pos: bool) -> FormPat {
    match key {
        Key::Core(nt) => if has_unquote(def) {
            def
        } else {
            FormPat::Biased(Box::new(unquote_pat(nt, pos)), Box::new(def))
        },
        _ => def,
    }
}

/// The grammar `g` rewritten for a quotation of polarity `pos`, without its
/// starter production.
pub open spec fn requote_all(g: Seq<(Key, FormPat)>, pos: bool) -> Seq<(Key, FormPat)>
    decreases g.len(),
{
    if g.len() == 0 {
        Seq::empty()
    } else {
        let prev = requote_all(g.drop_last(), pos);
        let (k, d) = g.last();
        if k is Starter {
            prev
        } else {
            prev.push((k, requote(k, d, pos)))
        }
    }
}

impl FormPat {
    pub fn duplicate(&self) -> (r: FormPat)
        ensures
            r == *self,
        decreases self,
    {
        match self {
            FormPat::Alt(ps) => FormPat::Alt(ps.duplicate()),
            FormPat::Biased(a, b) => FormPat::Biased(Box::new(a.duplicate()), Box::new(b.duplicate())),
            FormPat::Scope(f) => FormPat::Scope(*f),
            FormPat::Call(k) => FormPat::Call(*k),
            FormPat::Opaque(n) => FormPat::Opaque(*n),
        }
    }
}

impl Pats {
    pub fn duplicate(&self) -> (r: Pats)
        ensures
            r == *self,
        decreases self,
    {
        match self {
            Pats::Nil => Pats::Nil,
            Pats::Cons(h, t) => Pats::Cons(Box::new(h.duplicate()), Box::new(t.duplicate())),
        }
    }
}

/// Whether `fp` already offers an unquotation.
pub fn already_has_unquote(fp: &FormPat) -> (r: bool)
    ensures
        r == has_unquote(*fp),
    decreases fp,
{
    match fp {
        FormPat::Alt(ps) => pats_have(ps),
        FormPat::Biased(a, b) => already_has_unquote(a) || already_has_unquote(b),
        FormPat::Scope(f) => match f {
            Form::Unquote { .. } => true,
            _ => false,
        },
        _ => false,
    }
}

fn pats_have(ps: &Pats) -> (r: bool)
    ensures
        r == pats_have_unquote(*ps),
    decreases ps,
{
    match ps {
        Pats::Nil => false,
        Pats::Cons(h, t) => already_has_unquote(h) || pats_have(t),
    }
}

/// The grammar pattern of the depth-one unquotation of `nt`.
pub fn unquote(nt: Nt, pos_quot: bool) -> (r: FormPat)
    ensures
        r == unquote_pat(nt, pos_quot),
{
    FormPat::Scope(Form::Unquote { nt, pos_quot, depth: 1 })
}

/// The grammar inside a quotation of polarity `pos` whose body is of
/// nonterminal `starter`: each core nonterminal offers an unquotation first
/// (unless it already does), other nonterminals are kept, and the starter
/// production calls `starter`.
pub fn perform_quotation(g: &Vec<(Key, FormPat)>, starter: Key, pos: bool) -> (r: Vec<
    (Key, FormPat),
>)
    ensures
        r@ == requote_all(g@, pos).push((Key::Starter, FormPat::Call(starter))),
        forall|i: int|
            0 <= i < r@.len() && r@[i].0 is Core ==> #[trigger] has_unquote(r@[i].1),
{
    let mut out: Vec<(Key, FormPat)> = Vec::new();
    let mut i: usize = 0;
    while i < g.len()
        invariant
            0 <= i <= g@.len(),
            out@ == requote_all(g@.subrange(0, i as int), pos),
            forall|j: int| 0 <= j < out@.len() && out@[j].0 is Core ==> #[trigger] has_unquote(out@[j].1),
        decreases g@.len() - i,
    {
        assert(g@.subrange(0, i + 1).drop_last() =~= g@.subrange(0, i as int));
        let (k, d) = &g[i];
        match k {
            Key::Starter => {},
            Key::Core(nt) => {
                if already_has_unquote(d) {
                    out.push((*k, d.duplicate()));
                } else {
                    let u = unquote(*nt, pos);
                    assert(has_unquote(u));
                    let b = FormPat::Biased(Box::new(u), Box::new(d.duplicate()));
                    assert(has_unquote(b));
                    out.push((*k, b));
                }
            },
            Key::Other(_) => {
                out.push((*k, d.duplicate()));
            },
        }
        i = i + 1;
    }
    assert(g@.subrange(0, g@.len() as int) =~= g@);
    out.push((Key::Starter, FormPat::Call(starter)));
    out
}

/// Entering a second quotation of the same polarity adds no further
/// unquotation to a core nonterminal.
pub proof fn lemma_requote_idempotent(key: Key, def: FormPat, pos: bool)
    ensures
        requote(key, requote(key, def, pos), pos) == requote(key, def, pos),
{
    if let Key::Core(nt) = key {
        assert(has_unquote(unquote_pat(nt, pos)));
    }
}

} // verus!
