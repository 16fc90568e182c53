//! Compile-time code-transformation core: a structural model of type and
//! function declarations, introspection over generic wrapper types, parsing of
//! field-level annotations, canonical-order validation of sum-type variants and
//! dispatch branches, and deterministic synthesis decisions for a companion
//! builder type.

pub mod annot;
pub mod assembly;
pub mod builder;
pub mod diag;
pub mod dispatch;
pub mod introspect;
pub mod model;
pub mod order;
pub mod text;
