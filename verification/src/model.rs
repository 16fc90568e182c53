//! Structural model of the declarations the tools read: record fields with
//! their types and annotations, sum-type alternatives, and dispatch-construct
//! branches with their patterns.
//!
//! Every entity is a plain value built by an external parser adapter; nothing
//! here points back into a concrete grammar library. A source position is an
//! opaque token (`loc`) that the adapter can map back to a real span.

use vstd::prelude::*;

verus! {

/// A structural, possibly-generic type reference: a base name applied to an
/// ordered sequence of type arguments.
pub struct TypeExpr {
    pub base: Vec<char>,
    pub args: Vec<TypeExpr>,
}

/// The value of one annotation option: a literal string, or any other shape
/// (a non-string literal, a nested list, a bare path).
pub enum LitValue {
    Str(Vec<char>),
    Other,
}

/// One `key = value` option inside an annotation payload.
pub struct AnnPair {
    pub key: Vec<char>,
    pub value: LitValue,
}

/// An annotation's payload: no parenthesised list at all, or an ordered list
/// of `key = value` options.
pub enum AnnPayload {
    Bare,
    Pairs(Vec<AnnPair>),
}

/// A declarative annotation attached to a field or to a dispatch construct.
pub struct AnnotationDecl {
    pub name: Vec<char>,
    pub payload: AnnPayload,
    pub loc: u64,
}

/// A field of a record declaration.
pub struct FieldDecl {
    pub name: Vec<char>,
    pub ty: TypeExpr,
    pub annotations: Vec<AnnotationDecl>,
    pub loc: u64,
}

/// A record declaration: a named aggregate of uniquely-named fields.
pub struct RecordDecl {
    pub name: Vec<char>,
    pub fields: Vec<FieldDecl>,
    pub loc: u64,
}

/// One alternative of a sum-type declaration.
pub struct Variant {
    pub name: Vec<char>,
    pub loc: u64,
}

/// A sum-type declaration: a closed set of named alternatives.
pub struct SumTypeDecl {
    pub name: Vec<char>,
    pub variants: Vec<Variant>,
    pub loc: u64,
}

/// One declaration handed to a tool entry point.
pub enum Declaration {
    Record(RecordDecl),
    SumType(SumTypeDecl),
    Other,
}

/// A branch pattern of a dispatch construct, reduced to what the order
/// validator reads.
pub enum Pattern {
    /// A named pattern path (a tagged alternative), as its segments.
    Path(Vec<Vec<char>>),
    /// A plain binding name.
    Binding(Vec<char>),
    /// The catch-all pattern, with no discriminating key.
    Wildcard,
    /// Any other pattern shape; the validator does not support it.
    Other,
}

/// One branch of a dispatch construct.
pub struct Branch {
    pub pattern: Pattern,
    pub loc: u64,
}

/// A multi-branch dispatch construct, with the annotations attached to it.
pub struct DispatchDecl {
    pub annotations: Vec<AnnotationDecl>,
    pub branches: Vec<Branch>,
    pub loc: u64,
}

} // verus!
