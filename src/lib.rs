//! The semantic core of a programmable macro language: interned names,
//! persistent environments, types, type canonicalization and subtyping,
//! the typing rules of syntax quotation and unquotation, and the
//! evaluation of quotations.
pub mod assoc;
pub mod name;
pub mod ty;
pub mod ty_compare;
pub mod ty_laws;

pub mod quotation;
pub mod eval;
pub mod grammar;
