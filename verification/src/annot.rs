//! Annotation parsing: locating the first annotation with a recognized name
//! and extracting its single `each = "..."` option.
//!
//! The outcome is three-way, and the distinction is load-bearing: no matching
//! annotation at all ("absent"), a matching annotation whose payload is not a
//! single `each = "..."` pair ("malformed", a diagnostic), or a well-formed
//! option carrying the element-setter name.

use vstd::prelude::*;
use crate::diag::{DiagMessage, Diagnostic};
use crate::model::{AnnPayload, AnnotationDecl, LitValue};
use crate::text::{text_copy, text_eq, text_of};

verus! {

/// The element-setter name extracted from a field's annotation.
#[derive(Debug)]
pub struct EachOption {
    pub setter: Vec<char>,
}

/// The first annotation in `anns` whose name path matches `name`, if any.
pub open spec fn spec_find(anns: Seq<AnnotationDecl>, name: Seq<char>) -> Option<AnnotationDecl>
    decreases anns.len(),
{
    if anns.len() == 0 {
        None
    } else if anns[0].name@ == name {
        Some(anns[0])
    } else {
        spec_find(anns.skip(1), name)
    }
}

/// The element-setter name of a well-formed annotation payload: exactly one
/// option, keyed `each`, whose value is a literal string. Anything else is
/// malformed.
pub open spec fn spec_each_of(a: AnnotationDecl) -> Option<Seq<char>> {
    match a.payload {
        AnnPayload::Pairs(ps) => if ps@.len() == 1 && ps@[0].key@ == "each"@ {
            match ps@[0].value {
                LitValue::Str(s) => Some(s@),
                LitValue::Other => None,
            }
        } else {
            None
        },
        AnnPayload::Bare => None,
    }
}

/// Scans a field's annotations for the recognized name and extracts the
/// element-setter option of the first match.
///
/// Absent (`Ok(None)`), malformed (`Err`, anchored at the matching annotation)
/// and present (`Ok(Some(..))`) are told apart exactly; annotations under
/// other names are ignored.
pub fn find_each_option(anns: &Vec<AnnotationDecl>, recognized: &Vec<char>) -> (r: Result<
    Option<EachOption>,
    Diagnostic,
>)
    ensures
        match r {
            Result::Ok(opt) => match opt {
                Option::None => spec_find(anns@, recognized@) is None,
                Option::Some(e) => spec_find(anns@, recognized@) matches Some(a)
                    && spec_each_of(a) == Some(e.setter@),
            },
            Result::Err(d) => {
                &&& spec_find(anns@, recognized@) matches Some(a) && spec_each_of(a) is None
                    && d.loc == a.loc
                &&& d.message matches DiagMessage::ExpectedEachOption { annotation }
                    && annotation@ == recognized@
            },
        },
{
    let mut i: usize = 0;
    proof {
        assert(anns@.skip(0) =~= anns@);
    }
    while i < anns.len()
        invariant
            i <= anns.len(),
            spec_find(anns@, recognized@) == spec_find(anns@.skip(i as int), recognized@),
        decreases anns.len() - i,
    {
        proof {
            assert(anns@.skip(i as int)[0] == anns@[i as int]);
            assert(anns@.skip(i as int).skip(1) =~= anns@.skip(i as int + 1));
        }
        let a = &anns[i];
        if text_eq(&a.name, recognized) {
            match &a.payload {
                AnnPayload::Pairs(ps) => {
                    if ps.len() == 1 {
                        let p = &ps[0];
                        let each_key = text_of("each");
                        if text_eq(&p.key, &each_key) {
                            match &p.value {
                                LitValue::Str(s) => {
                                    return Ok(Some(EachOption { setter: text_copy(s) }));
                                },
                                LitValue::Other => {},
                            }
                        }
                    }
                },
                AnnPayload::Bare => {},
            }
            return Err(
                Diagnostic {
                    loc: a.loc,
                    message: DiagMessage::ExpectedEachOption { annotation: text_copy(recognized) },
                },
            );
        }
        i = i + 1;
    }
    Ok(None)
}

} // verus!
