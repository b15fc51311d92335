use vstd::prelude::*;
use crate::assoc::Assoc;
use crate::name::Name;
use crate::ty::{Fields, Nt, Ty, TyErr, TyList, ty_eq};
use crate::ty_compare::{equal_result, must_equal};

verus! {

// Quoted syntax lives one phase above the code around it. `'[nt | body]'`
// walks `body` at the next phase; an unquotation `,[nt | body],` of depth `d`
// walks `body` `d` phases lower. Expressions are walked positively (their type
// is synthesized from an environment); patterns negatively (from the type
// they are matched against, they produce an environment).
//
// Bindings that a pattern quotation gathers come from the pattern-walked
// bodies of the unquotations inside it. Each walk returns them as an explicit
// "harvest" next to its ordinary result; a pattern quotation returns the
// harvest of its body as its environment, and an expression quotation drops it.

/// A syntax tree.
#[derive(PartialEq, Eq)]
pub enum Ast {
    /// A binder, in a pattern.
    Atom(Name),
    /// A reference to a variable.
    VarRef(Name),
    /// A struct expression or struct pattern.
    Struct { parts: AstFields },
    /// `'[nt <[annot]< | body]'`: an expression quotation (`pos`) or a
    /// pattern quotation.
    Quote { pos: bool, nt: Nt, annot: Option<Ty>, body: Box<Ast> },
    /// `,[nt <[annot]< | body],` with `depth` commas; `pos_quot` is the
    /// polarity of the quotation that it stands in.
    Unquote { pos_quot: bool, nt: Nt, annot: Option<Ty>, depth: u8, body: Box<Ast> },
}

/// The named components of a struct expression or pattern, in order.
#[derive(PartialEq, Eq)]
pub enum AstFields {
    Nil,
    Cons(Name, Box<Ast>, Box<AstFields>),
}

impl AstFields {
    pub open spec fn names(self) -> Seq<Name>
        decreases self,
    {
        match self {
            AstFields::Nil => Seq::empty(),
            AstFields::Cons(n, _, t) => seq![n] + t.names(),
        }
    }

    pub open spec fn parts(self) -> Seq<Ast>
        decreases self,
    {
        match self {
            AstFields::Nil => Seq::empty(),
            AstFields::Cons(_, a, t) => seq![*a] + t.parts(),
        }
    }

    pub fn from_vecs(names: Vec<Name>, parts: Vec<Ast>) -> (r: AstFields)
        requires
            names@.len() == parts@.len(),
        ensures
            r.names() == names@,
            r.parts() == parts@,
    {
        let mut names = names;
        let mut parts = parts;
        let ghost all_n = names@;
        let ghost all_p = parts@;
        let mut acc = AstFields::Nil;
        while parts.len() > 0
            invariant
                names@.len() == parts@.len(),
                all_n == names@ + acc.names(),
                all_p == parts@ + acc.parts(),
            decreases parts@.len(),
        {
            let a = parts.pop().unwrap();
            let n = names.pop().unwrap();
            acc = AstFields::Cons(n, Box::new(a), Box::new(acc));
            assert(all_n =~= names@ + acc.names());
            assert(all_p =~= parts@ + acc.parts());
        }
        assert(all_n =~= acc.names());
        assert(all_p =~= acc.parts());
        acc
    }
}

impl Ast {
    pub fn duplicate(&self) -> (r: Ast)
        ensures
            r == *self,
        decreases self,
    {
        match self {
            Ast::Atom(n) => Ast::Atom(*n),
            Ast::VarRef(n) => Ast::VarRef(*n),
            Ast::Struct { parts } => Ast::Struct { parts: parts.duplicate() },
            Ast::Quote { pos, nt, annot, body } => Ast::Quote {
                pos: *pos,
                nt: *nt,
                annot: duplicate_annot(annot),
                body: Box::new(body.duplicate()),
            },
            Ast::Unquote { pos_quot, nt, annot, depth, body } => Ast::Unquote {
                pos_quot: *pos_quot,
                nt: *nt,
                annot: duplicate_annot(annot),
                depth: *depth,
                body: Box::new(body.duplicate()),
            },
        }
    }
}

impl AstFields {
    pub fn duplicate(&self) -> (r: AstFields)
        ensures
            r == *self,
        decreases self,
    {
        match self {
            AstFields::Nil => AstFields::Nil,
            AstFields::Cons(n, a, t) => AstFields::Cons(
                *n,
                Box::new(a.duplicate()),
                Box::new(t.duplicate()),
            ),
        }
    }
}

pub fn duplicate_annot(a: &Option<Ty>) -> (r: Option<Ty>)
    ensures
        r == *a,
{
    match a {
        Some(t) => Some(t.duplicate()),
        None => None,
    }
}

/// Structural equality of annotations.
pub fn annot_eq(a: &Option<Ty>, b: &Option<Ty>) -> (r: bool)
    ensures
        r == (*a == *b),
{
    match (a, b) {
        (Some(x), Some(y)) => ty_eq(x, y),
        (None, None) => true,
        _ => false,
    }
}

/// The quotation form: `'[nt <[annot]< | body]'`, an expression quotation
/// when `pos` holds, else a pattern quotation.
pub fn quote(pos: bool, nt: Nt, annot: Option<Ty>, body: Ast) -> (r: Ast)
    ensures
        r == (Ast::Quote { pos, nt, annot, body: Box::new(body) }),
{
    Ast::Quote { pos, nt, annot, body: Box::new(body) }
}

/// The unquotation form of `depth` commas, inside a quotation of polarity
/// `pos_quot`.
pub fn unquote_form(pos_quot: bool, nt: Nt, annot: Option<Ty>, depth: u8, body: Ast) -> (r: Ast)
    ensures
        r == (Ast::Unquote { pos_quot, nt, annot, depth, body: Box::new(body) }),
{
    Ast::Unquote { pos_quot, nt, annot, depth, body: Box::new(body) }
}

impl Nt {
    /// Expressions and types are walked positively, patterns negatively.
    pub open spec fn positive(self) -> bool {
        self != Nt::Pat
    }

    pub fn is_positive(&self) -> (r: bool)
        ensures
            r == self.positive(),
    {
        match self {
            Nt::Pat => false,
            _ => true,
        }
    }
}

/// The type `nt<[t]<` of syntax of category `nt` whose own type is `t`.
pub open spec fn more_quoted(t: Ty, nt: Nt) -> Ty {
    Ty::Apply {
        rator: Box::new(Ty::Syntax(nt)),
        args: TyList::Cons(Box::new(t), Box::new(TyList::Nil)),
    }
}

/// Takes `t` apart as `m<[a]<`, giving `a`, where `m` is `nt` (any
/// nonterminal when `nt` is `None`).
pub open spec fn less_quoted(t: Ty, nt: Option<Nt>) -> Result<Ty, TyErr> {
    match t {
        Ty::Apply { rator, args } => match (*rator, args) {
            (Ty::Syntax(m), TyList::Cons(a, rest)) => if *rest == TyList::Nil && (nt is None
                || nt == Some(m)) {
                Ok(*a)
            } else {
                Err(TyErr::NotAQuotationHead(nt))
            },
            _ => Err(TyErr::NotAQuotationHead(nt)),
        },
        _ => Err(TyErr::NotAQuotationHead(nt)),
    }
}

/// Peels `depth` layers of quotation type off `t`; only the outermost layer
/// is held to be of category `nt`.
pub open spec fn peel(t: Ty, depth: nat, nt: Nt) -> Result<Ty, TyErr>
    decreases depth,
{
    if depth <= 1 {
        less_quoted(t, Some(nt))
    } else {
        match less_quoted(t, None) {
            Ok(t1) => peel(t1, (depth - 1) as nat, nt),
            Err(e) => Err(e),
        }
    }
}

pub fn more_quoted_ty(t: Ty, nt: Nt) -> (r: Ty)
    ensures
        r == more_quoted(t, nt),
{
    Ty::Apply {
        rator: Box::new(Ty::Syntax(nt)),
        args: TyList::Cons(Box::new(t), Box::new(TyList::Nil)),
    }
}

pub fn less_quoted_ty(t: Ty, nt: Option<Nt>) -> (r: Result<Ty, TyErr>)
    ensures
        r == less_quoted(t, nt),
{
    match t {
        Ty::Apply { rator, args } => match (*rator, args) {
            (Ty::Syntax(m), TyList::Cons(a, rest)) => {
                let head_ok = match nt {
                    None => true,
                    Some(x) => x == m,
                };
                let single = match *rest {
                    TyList::Nil => true,
                    _ => false,
                };
                if single && head_ok {
                    Ok(*a)
                } else {
                    Err(TyErr::NotAQuotationHead(nt))
                }
            },
            _ => Err(TyErr::NotAQuotationHead(nt)),
        },
        _ => Err(TyErr::NotAQuotationHead(nt)),
    }
}

fn peel_ty(t: Ty, depth: u8, nt: Nt) -> (r: Result<Ty, TyErr>)
    ensures
        r == peel(t, depth as nat, nt),
    decreases depth,
{
    if depth <= 1 {
        less_quoted_ty(t, Some(nt))
    } else {
        match less_quoted_ty(t, None) {
            Ok(t1) => peel_ty(t1, depth - 1, nt),
            Err(e) => Err(e),
        }
    }
}

/// The environments of the phases: `envs[i]` is that of phase `i`, and
/// every phase beyond them has the core environment.
pub struct Phases<V> {
    pub envs: Vec<Assoc<V>>,
    pub core: Assoc<V>,
}

impl<V> Phases<V> {
    pub open spec fn env(self, phase: nat) -> Assoc<V> {
        if phase < self.envs@.len() {
            self.envs@[phase as int]
        } else {
            self.core
        }
    }

    pub fn env_at(&self, phase: usize) -> (r: &Assoc<V>)
        ensures
            *r == self.env(phase as nat),
    {
        if phase < self.envs.len() {
            &self.envs[phase]
        } else {
            &self.core
        }
    }
}

/// A synthesized type with the harvest of the walk.
pub type Synth = (Ty, Assoc<Ty>);

/// The environment a pattern produces, with the harvest of the walk.
pub type Unpacked = (Assoc<Ty>, Assoc<Ty>);

/// The type of expression `a` at `phase`, and its harvest.
pub open spec fn synth(a: Ast, ph: Phases<Ty>, phase: nat) -> Result<Synth, TyErr>
    decreases a, 0nat,
{
    match a {
        Ast::Atom(n) => match ph.env(phase).lookup(n) {
            Some(t) => Ok((t, Assoc::Empty)),
            None => Err(TyErr::UnboundName(n)),
        },
        Ast::VarRef(n) => match ph.env(phase).lookup(n) {
            Some(t) => Ok((t, Assoc::Empty)),
            None => Err(TyErr::UnboundName(n)),
        },
        Ast::Struct { parts } => match synth_parts(parts, ph, phase) {
            Ok((fs, h)) => Ok((Ty::Struct { fields: fs }, h)),
            Err(e) => Err(e),
        },
        Ast::Quote { pos, nt, annot, body } => if pos {
            quote_synth(nt, annot, *body, ph, phase)
        } else {
            Err(TyErr::NotValidHere)
        },
        Ast::Unquote { pos_quot, nt, annot, depth, body } => if nt.positive() {
            unquote_synth(pos_quot, nt, annot, depth, *body, ph, phase)
        } else {
            Err(TyErr::NotValidHere)
        },
    }
}

pub open spec fn synth_parts(parts: AstFields, ph: Phases<Ty>, phase: nat) -> Result<
    (Fields, Assoc<Ty>),
    TyErr,
>
    decreases parts, 0nat,
{
    match parts {
        AstFields::Nil => Ok((Fields::Nil, Assoc::Empty)),
        AstFields::Cons(n, a, rest) => match synth(*a, ph, phase) {
            Ok((t, h1)) => match synth_parts(*rest, ph, phase) {
                Ok((fs, h2)) => Ok((Fields::Cons(n, Box::new(t), Box::new(fs)), h1.concat(h2))),
                Err(e) => Err(e),
            },
            Err(e) => Err(e),
        },
    }
}

/// An expression quotation: `nt<[T]<`, where `T` is the body's type one
/// phase up (checked against the annotation if there is one); for a pattern
/// nonterminal the annotation is required, gives `T`, and is the context the
/// body is unpacked against.
pub open spec fn quote_synth(nt: Nt, annot: Option<Ty>, body: Ast, ph: Phases<Ty>, phase: nat) -> Result<
    Synth,
    TyErr,
>
    decreases body, 1nat,
{
    if phase >= usize::MAX {
        Err(TyErr::BadQuotationDepth)
    } else if nt.positive() {
        match synth(body, ph, phase + 1) {
            Ok((t, _)) => match annot {
                Some(a) => match equal_result(a, t, ph.env(phase + 1)) {
                    Ok(()) => Ok((more_quoted(t, nt), Assoc::Empty)),
                    Err(e) => Err(e),
                },
                None => Ok((more_quoted(t, nt), Assoc::Empty)),
            },
            Err(e) => Err(e),
        }
    } else {
        match annot {
            None => Err(TyErr::NeedsAnnotation(nt)),
            Some(a) => match unpack(body, ph, phase + 1, a) {
                Ok(_) => Ok((more_quoted(a, nt), Assoc::Empty)),
                Err(e) => Err(e),
            },
        }
    }
}

/// An unquotation of an expression nonterminal: the type of the body
/// `depth` phases down, with `depth` layers of quotation type peeled off.
/// Inside a pattern quotation the body is a pattern: it is unpacked against
/// the (required) annotation, and its bindings are harvested.
pub open spec fn unquote_synth(
    pos_quot: bool,
    nt: Nt,
    annot: Option<Ty>,
    depth: u8,
    body: Ast,
    ph: Phases<Ty>,
    phase: nat,
) -> Result<Synth, TyErr>
    decreases body, 1nat,
{
    if phase < depth {
        Err(TyErr::BadQuotationDepth)
    } else if pos_quot {
        match synth(body, ph, (phase - depth) as nat) {
            Ok((t, _)) => match peel(t, depth as nat, nt) {
                Ok(r) => Ok((r, Assoc::Empty)),
                Err(e) => Err(e),
            },
            Err(e) => Err(e),
        }
    } else {
        match annot {
            None => Err(TyErr::NeedsAnnotation(nt)),
            Some(a) => match unpack(body, ph, (phase - depth) as nat, a) {
                Ok((env, _)) => match peel(a, depth as nat, nt) {
                    Ok(r) => Ok((r, env)),
                    Err(e) => Err(e),
                },
                Err(e) => Err(e),
            },
        }
    }
}

/// The environment that pattern `a` at `phase` produces when matched
/// against a value of type `expected`, and its harvest.
pub open spec fn unpack(a: Ast, ph: Phases<Ty>, phase: nat, expected: Ty) -> Result<Unpacked, TyErr>
    decreases a, 0nat,
{
    match a {
        Ast::Atom(n) => Ok((Assoc::Bind(n, expected, Box::new(Assoc::Empty)), Assoc::Empty)),
        Ast::VarRef(_) => Err(TyErr::NotValidHere),
        Ast::Struct { parts } => match expected {
            Ty::Struct { fields } => if fields.names() == parts.names() {
                unpack_parts(parts, ph, phase, fields)
            } else {
                Err(TyErr::BadShape(expected))
            },
            _ => Err(TyErr::BadShape(expected)),
        },
        Ast::Quote { pos, nt, annot, body } => if !pos {
            quote_unpack(nt, *body, ph, phase, expected)
        } else {
            Err(TyErr::NotValidHere)
        },
        Ast::Unquote { pos_quot, nt, annot, depth, body } => if !nt.positive() {
            unquote_unpack(pos_quot, nt, depth, *body, ph, phase, expected)
        } else {
            Err(TyErr::NotValidHere)
        },
    }
}

pub open spec fn unpack_parts(parts: AstFields, ph: Phases<Ty>, phase: nat, fields: Fields) -> Result<
    Unpacked,
    TyErr,
>
    decreases parts, 0nat,
{
    match (parts, fields) {
        (AstFields::Cons(_, a, rest), Fields::Cons(_, t, trest)) => match unpack(
            *a,
            ph,
            phase,
            *t,
        ) {
            Ok((e1, h1)) => match unpack_parts(*rest, ph, phase, *trest) {
                Ok((e2, h2)) => Ok((e1.concat(e2), h1.concat(h2))),
                Err(e) => Err(e),
            },
            Err(e) => Err(e),
        },
        _ => Ok((Assoc::Empty, Assoc::Empty)),
    }
}

/// A pattern quotation matched against `expected`: the body is walked one
/// phase up (synthesized for an expression nonterminal; for a pattern
/// nonterminal unpacked against `expected` with one quotation layer peeled
/// off), and the environment is the body's harvest.
pub open spec fn quote_unpack(nt: Nt, body: Ast, ph: Phases<Ty>, phase: nat, expected: Ty) -> Result<
    Unpacked,
    TyErr,
>
    decreases body, 1nat,
{
    if phase >= usize::MAX {
        Err(TyErr::BadQuotationDepth)
    } else if nt.positive() {
        match synth(body, ph, phase + 1) {
            Ok((_, h)) => Ok((h, Assoc::Empty)),
            Err(e) => Err(e),
        }
    } else {
        match less_quoted(expected, Some(nt)) {
            Ok(ctx) => match unpack(body, ph, phase + 1, ctx) {
                Ok((_, h)) => Ok((h, Assoc::Empty)),
                Err(e) => Err(e),
            },
            Err(e) => Err(e),
        }
    }
}

/// An unquotation of a pattern nonterminal, matched against `expected`.
/// Inside an expression quotation the body is an expression whose type must
/// equal `expected`, and nothing is bound. Inside a pattern quotation the body
/// is a pattern unpacked `depth` phases down against `nt<[expected]<`, and
/// its bindings are harvested.
pub open spec fn unquote_unpack(
    pos_quot: bool,
    nt: Nt,
    depth: u8,
    body: Ast,
    ph: Phases<Ty>,
    phase: nat,
    expected: Ty,
) -> Result<Unpacked, TyErr>
    decreases body, 1nat,
{
    if phase < depth {
        Err(TyErr::BadQuotationDepth)
    } else if pos_quot {
        match synth(body, ph, (phase - depth) as nat) {
            Ok((t, _)) => match equal_result(t, expected, ph.env((phase - depth) as nat)) {
                Ok(()) => Ok((Assoc::Empty, Assoc::Empty)),
                Err(e) => Err(e),
            },
            Err(e) => Err(e),
        }
    } else {
        match unpack(body, ph, (phase - depth) as nat, more_quoted(expected, nt)) {
            Ok((env, _)) => Ok((Assoc::Empty, env)),
            Err(e) => Err(e),
        }
    }
}

/// Synthesizes the type of expression `a` at `phase`, with its harvest.
pub fn synth_at(a: &Ast, ph: &Phases<Ty>, phase: usize) -> (r: Result<Synth, TyErr>)
    ensures
        r == synth(*a, *ph, phase as nat),
    decreases a, 0nat,
{
    match a {
        Ast::Atom(n) => match ph.env_at(phase).find(*n) {
            Some(t) => Ok((t.duplicate(), Assoc::Empty)),
            None => Err(TyErr::UnboundName(*n)),
        },
        Ast::VarRef(n) => match ph.env_at(phase).find(*n) {
            Some(t) => Ok((t.duplicate(), Assoc::Empty)),
            None => Err(TyErr::UnboundName(*n)),
        },
        Ast::Struct { parts } => match synth_parts_at(parts, ph, phase) {
            Ok((fs, h)) => Ok((Ty::Struct { fields: fs }, h)),
            Err(e) => Err(e),
        },
        Ast::Quote { pos, nt, annot, body } => if *pos {
            quote_synth_at(*nt, annot, body, ph, phase)
        } else {
            Err(TyErr::NotValidHere)
        },
        Ast::Unquote { pos_quot, nt, annot, depth, body } => if nt.is_positive() {
            unquote_synth_at(*pos_quot, *nt, annot, *depth, body, ph, phase)
        } else {
            Err(TyErr::NotValidHere)
        },
    }
}

fn synth_parts_at(parts: &AstFields, ph: &Phases<Ty>, phase: usize) -> (r: Result<
    (Fields, Assoc<Ty>),
    TyErr,
>)
    ensures
        r == synth_parts(*parts, *ph, phase as nat),
    decreases parts, 0nat,
{
    match parts {
        AstFields::Nil => Ok((Fields::Nil, Assoc::Empty)),
        AstFields::Cons(n, a, rest) => match synth_at(a, ph, phase) {
            Ok((t, h1)) => match synth_parts_at(rest, ph, phase) {
                Ok((fs, h2)) => Ok((Fields::Cons(*n, Box::new(t), Box::new(fs)), h1.append(h2))),
                Err(e) => Err(e),
            },
            Err(e) => Err(e),
        },
    }
}

fn quote_synth_at(nt: Nt, annot: &Option<Ty>, body: &Ast, ph: &Phases<Ty>, phase: usize) -> (r: Result<
    Synth,
    TyErr,
>)
    ensures
        r == quote_synth(nt, *annot, *body, *ph, phase as nat),
    decreases body, 1nat,
{
    if phase >= usize::MAX {
        return Err(TyErr::BadQuotationDepth);
    }
    if nt.is_positive() {
        match synth_at(body, ph, phase + 1) {
            Ok((t, _)) => match annot {
                Some(a) => match must_equal(a, &t, ph.env_at(phase + 1).duplicate()) {
                    Ok(()) => Ok((more_quoted_ty(t, nt), Assoc::Empty)),
                    Err(e) => Err(e),
                },
                None => Ok((more_quoted_ty(t, nt), Assoc::Empty)),
            },
            Err(e) => Err(e),
        }
    } else {
        match annot {
            None => Err(TyErr::NeedsAnnotation(nt)),
            Some(a) => match unpack_at(body, ph, phase + 1, a.duplicate()) {
                Ok(_) => Ok((more_quoted_ty(a.duplicate(), nt), Assoc::Empty)),
                Err(e) => Err(e),
            },
        }
    }
}

fn unquote_synth_at(
    pos_quot: bool,
    nt: Nt,
    annot: &Option<Ty>,
    depth: u8,
    body: &Ast,
    ph: &Phases<Ty>,
    phase: usize,
) -> (r: Result<Synth, TyErr>)
    ensures
        r == unquote_synth(pos_quot, nt, *annot, depth, *body, *ph, phase as nat),
    decreases body, 1nat,
{
    if phase < depth as usize {
        return Err(TyErr::BadQuotationDepth);
    }
    let lower = phase - depth as usize;
    if pos_quot {
        match synth_at(body, ph, lower) {
            Ok((t, _)) => match peel_ty(t, depth, nt) {
                Ok(r) => Ok((r, Assoc::Empty)),
                Err(e) => Err(e),
            },
            Err(e) => Err(e),
        }
    } else {
        match annot {
            None => Err(TyErr::NeedsAnnotation(nt)),
            Some(a) => match unpack_at(body, ph, lower, a.duplicate()) {
                Ok((env, _)) => match peel_ty(a.duplicate(), depth, nt) {
                    Ok(r) => Ok((r, env)),
                    Err(e) => Err(e),
                },
                Err(e) => Err(e),
            },
        }
    }
}

/// Unpacks pattern `a` at `phase` against `expected`: the environment it
/// produces, with its harvest.
pub fn unpack_at(a: &Ast, ph: &Phases<Ty>, phase: usize, expected: Ty) -> (r: Result<
    Unpacked,
    TyErr,
>)
    ensures
        r == unpack(*a, *ph, phase as nat, expected),
    decreases a, 0nat,
{
    match a {
        Ast::Atom(n) => Ok((Assoc::Empty.extend(*n, expected), Assoc::Empty)),
        Ast::VarRef(_) => Err(TyErr::NotValidHere),
        Ast::Struct { parts } => {
            let fits = match &expected {
                Ty::Struct { fields } => same_names(parts, fields),
                _ => false,
            };
            if !fits {
                return Err(TyErr::BadShape(expected));
            }
            match expected {
                Ty::Struct { fields } => unpack_parts_at(parts, ph, phase, fields),
                _ => Err(TyErr::BadShape(expected)),
            }
        },
        Ast::Quote { pos, nt, annot, body } => if !*pos {
            quote_unpack_at(*nt, body, ph, phase, expected)
        } else {
            Err(TyErr::NotValidHere)
        },
        Ast::Unquote { pos_quot, nt, annot, depth, body } => if !nt.is_positive() {
            unquote_unpack_at(*pos_quot, *nt, *depth, body, ph, phase, expected)
        } else {
            Err(TyErr::NotValidHere)
        },
    }
}

fn same_names(parts: &AstFields, fields: &Fields) -> (r: bool)
    ensures
        r == (fields.names() == parts.names()),
    decreases parts,
{
    match (parts, fields) {
        (AstFields::Nil, Fields::Nil) => true,
        (AstFields::Cons(n1, _, t1), Fields::Cons(n2, _, t2)) => {
            let r = n1.same(n2) && same_names(t1, t2);
            assert(r == (fields.names() == parts.names())) by {
                if fields.names() == parts.names() {
                    assert(fields.names()[0] == parts.names()[0]);
                    assert(t1.names() =~= parts.names().drop_first());
                    assert(t2.names() =~= fields.names().drop_first());
                }
                if r {
                    assert(fields.names() =~= parts.names());
                }
            }
            r
        },
        (AstFields::Nil, Fields::Cons(..)) => {
            assert(fields.names().len() > 0);
            false
        },
        (AstFields::Cons(..), Fields::Nil) => {
            assert(parts.names().len() > 0);
            false
        },
    }
}

fn unpack_parts_at(parts: &AstFields, ph: &Phases<Ty>, phase: usize, fields: Fields) -> (r: Result<
    Unpacked,
    TyErr,
>)
    ensures
        r == unpack_parts(*parts, *ph, phase as nat, fields),
    decreases parts, 0nat,
{
    match (parts, fields) {
        (AstFields::Cons(_, a, rest), Fields::Cons(_, t, trest)) => match unpack_at(
            a,
            ph,
            phase,
            *t,
        ) {
            Ok((e1, h1)) => match unpack_parts_at(rest, ph, phase, *trest) {
                Ok((e2, h2)) => Ok((e1.append(e2), h1.append(h2))),
                Err(e) => Err(e),
            },
            Err(e) => Err(e),
        },
        _ => Ok((Assoc::Empty, Assoc::Empty)),
    }
}

fn quote_unpack_at(nt: Nt, body: &Ast, ph: &Phases<Ty>, phase: usize, expected: Ty) -> (r: Result<
    Unpacked,
    TyErr,
>)
    ensures
        r == quote_unpack(nt, *body, *ph, phase as nat, expected),
    decreases body, 1nat,
{
    if phase >= usize::MAX {
        return Err(TyErr::BadQuotationDepth);
    }
    if nt.is_positive() {
        match synth_at(body, ph, phase + 1) {
            Ok((_, h)) => Ok((h, Assoc::Empty)),
            Err(e) => Err(e),
        }
    } else {
        match less_quoted_ty(expected, Some(nt)) {
            Ok(ctx) => match unpack_at(body, ph, phase + 1, ctx) {
                Ok((_, h)) => Ok((h, Assoc::Empty)),
                Err(e) => Err(e),
            },
            Err(e) => Err(e),
        }
    }
}

fn unquote_unpack_at(
    pos_quot: bool,
    nt: Nt,
    depth: u8,
    body: &Ast,
    ph: &Phases<Ty>,
    phase: usize,
    expected: Ty,
) -> (r: Result<Unpacked, TyErr>)
    ensures
        r == unquote_unpack(pos_quot, nt, depth, *body, *ph, phase as nat, expected),
    decreases body, 1nat,
{
    if phase < depth as usize {
        return Err(TyErr::BadQuotationDepth);
    }
    let lower = phase - depth as usize;
    if pos_quot {
        match synth_at(body, ph, lower) {
            Ok((t, _)) => match must_equal(&t, &expected, ph.env_at(lower).duplicate()) {
                Ok(()) => Ok((Assoc::Empty, Assoc::Empty)),
                Err(e) => Err(e),
            },
            Err(e) => Err(e),
        }
    } else {
        match unpack_at(body, ph, lower, more_quoted_ty(expected, nt)) {
            Ok((env, _)) => Ok((Assoc::Empty, env)),
            Err(e) => Err(e),
        }
    }
}

/// A pattern unquotation of a pattern nonterminal with a binder for its body
/// harvests that binder at the phase-shifted type `nt<[expected]<`.
pub proof fn lemma_negative_unquote_phase_shift(
    nt: Nt,
    annot: Option<Ty>,
    depth: u8,
    v: Name,
    ph: Phases<Ty>,
    phase: nat,
    expected: Ty,
)
    requires
        !nt.positive(),
        depth <= phase,
    ensures
        unpack(
            Ast::Unquote { pos_quot: false, nt, annot, depth, body: Box::new(Ast::Atom(v)) },
            ph,
            phase,
            expected,
        ) == Ok::<Unpacked, TyErr>(
            (
                Assoc::Empty,
                Assoc::Bind(v, more_quoted(expected, nt), Box::new(Assoc::Empty)),
            ),
        ),
{
    let lower = (phase - depth) as nat;
    assert(unpack(Ast::Atom(v), ph, lower, more_quoted(expected, nt)) == Ok::<Unpacked, TyErr>(
        (Assoc::Bind(v, more_quoted(expected, nt), Box::new(Assoc::Empty)), Assoc::Empty),
    ));
}

} // verus!
