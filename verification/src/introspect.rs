//! Type introspection: recognizing an instance of a named generic wrapper
//! (the optional-value wrapper, the ordered-collection wrapper) and handing
//! out the contained type.

use vstd::prelude::*;
use crate::model::TypeExpr;
use crate::text::{text_eq, text_of};

verus! {

/// A type is an instance of the named wrapper exactly when its base name
/// matches and it carries exactly one type argument. A matching base name with
/// zero (or several) arguments is malformed wrapper usage and counts as
/// unwrapped.
pub open spec fn spec_is_wrapped(t: TypeExpr, wrapper: Seq<char>) -> bool {
    t.base@ == wrapper && t.args@.len() == 1
}

/// Returns the sole type argument if `t` is the named wrapper applied to one
/// argument, and nothing otherwise.
pub fn unwrap_wrapper<'a>(t: &'a TypeExpr, wrapper: &Vec<char>) -> (r: Option<&'a TypeExpr>)
    ensures
        match r {
            Option::Some(inner) => spec_is_wrapped(*t, wrapper@) && *inner == t.args@[0],
            Option::None => !spec_is_wrapped(*t, wrapper@),
        },
{
    if text_eq(&t.base, wrapper) && t.args.len() == 1 {
        Some(&t.args[0])
    } else {
        None
    }
}

/// Decides wrapper-instance membership without handing the argument out.
pub fn is_wrapped(t: &TypeExpr, wrapper: &Vec<char>) -> (r: bool)
    ensures
        r == spec_is_wrapped(*t, wrapper@),
{
    text_eq(&t.base, wrapper) && t.args.len() == 1
}

/// The base name of the optional-value wrapper.
pub fn optional_wrapper_name() -> (r: Vec<char>)
    ensures
        r@ == "Option"@,
{
    text_of("Option")
}

/// The base name of the ordered-collection wrapper.
pub fn collection_wrapper_name() -> (r: Vec<char>)
    ensures
        r@ == "Vec"@,
{
    text_of("Vec")
}

} // verus!
