//! Diagnostics: structured validation failures anchored at a source position,
//! and their fixed human-readable message shapes.
//!
//! A tool collects diagnostics in a list and never aborts on the first one, so
//! independent errors in one compilation unit all surface.

use vstd::prelude::*;
use crate::text::{push_str_chars, push_text};

verus! {

/// What a diagnostic reports. Each variant carries exactly the names its
/// message shape embeds.
#[derive(Debug)]
pub enum DiagMessage {
    /// An element is out of canonical order: it should sort before the element
    /// now standing at its correct insertion position.
    ShouldSortBefore { offender: Vec<char>, earlier: Vec<char> },
    /// A catch-all branch stands before a keyed branch, or repeats.
    WildcardShouldComeLast,
    /// A branch pattern carries no key the validator can read.
    UnsupportedPattern,
    /// An annotation matched the recognized name but is not a single
    /// `each = "..."` option; `annotation` is the recognized name.
    ExpectedEachOption { annotation: Vec<char> },
    /// The builder generator was applied to something that is not a record
    /// with named fields.
    ExpectedRecord,
    /// The order validator was applied to something it does not handle.
    ExpectedSumType,
    /// A well-formed `each` option sits on a field whose declared type is not
    /// an ordered collection of one element type.
    EachWithoutCollection { field: Vec<char> },
}

/// A validation failure: a source position token and a message.
#[derive(Debug)]
pub struct Diagnostic {
    pub loc: u64,
    pub message: DiagMessage,
}

/// The mathematical value of a [`DiagMessage`]: the same shape over character
/// sequences.
pub enum MsgView {
    ShouldSortBefore { offender: Seq<char>, earlier: Seq<char> },
    WildcardShouldComeLast,
    UnsupportedPattern,
    ExpectedEachOption { annotation: Seq<char> },
    ExpectedRecord,
    ExpectedSumType,
    EachWithoutCollection { field: Seq<char> },
}

/// The mathematical value of a [`Diagnostic`].
pub struct DiagView {
    pub loc: u64,
    pub message: MsgView,
}

impl View for DiagMessage {
    type V = MsgView;

    open spec fn view(&self) -> MsgView {
        match *self {
            DiagMessage::ShouldSortBefore { offender, earlier } => MsgView::ShouldSortBefore {
                offender: offender@,
                earlier: earlier@,
            },
            DiagMessage::WildcardShouldComeLast => MsgView::WildcardShouldComeLast,
            DiagMessage::UnsupportedPattern => MsgView::UnsupportedPattern,
            DiagMessage::ExpectedEachOption { annotation } => MsgView::ExpectedEachOption {
                annotation: annotation@,
            },
            DiagMessage::ExpectedRecord => MsgView::ExpectedRecord,
            DiagMessage::ExpectedSumType => MsgView::ExpectedSumType,
            DiagMessage::EachWithoutCollection { field } => MsgView::EachWithoutCollection {
                field: field@,
            },
        }
    }
}

impl DeepView for DiagMessage {
    type V = MsgView;

    open spec fn deep_view(&self) -> MsgView {
        self.view()
    }
}

impl View for Diagnostic {
    type V = DiagView;

    open spec fn view(&self) -> DiagView {
        DiagView { loc: self.loc, message: self.message@ }
    }
}

impl DeepView for Diagnostic {
    type V = DiagView;

    open spec fn deep_view(&self) -> DiagView {
        self.view()
    }
}

/// The exact text of each message shape.
pub open spec fn spec_message(m: DiagMessage) -> Seq<char> {
    match m {
        DiagMessage::ShouldSortBefore { offender, earlier } => offender@
            + " should sort before "@ + earlier@,
        DiagMessage::WildcardShouldComeLast => "wild pattern should come last"@,
        DiagMessage::UnsupportedPattern => "unsupported pattern"@,
        DiagMessage::ExpectedEachOption { annotation } => "expected `"@ + annotation@
            + "(each = \"...\")`"@,
        DiagMessage::ExpectedRecord => "expected a record with named fields"@,
        DiagMessage::ExpectedSumType => "expected enum or match expression"@,
        DiagMessage::EachWithoutCollection { field } => "field `"@ + field@
            + "` is not an ordered collection"@,
    }
}

/// Appends one diagnostic, tracked at the view level.
pub fn push_diag(diags: &mut Vec<Diagnostic>, d: Diagnostic)
    ensures
        final(diags).deep_view() == old(diags).deep_view().push(d@),
{
    let ghost before = diags.deep_view();
    let ghost dv = d@;
    diags.push(d);
    proof {
        assert(diags.deep_view() =~= before.push(dv));
    }
}

/// Renders a diagnostic message as its fixed text.
pub fn render_message(m: &DiagMessage) -> (r: Vec<char>)
    ensures
        r@ == spec_message(*m),
{
    let mut out: Vec<char> = Vec::new();
    match m {
        DiagMessage::ShouldSortBefore { offender, earlier } => {
            push_text(&mut out, offender);
            push_str_chars(&mut out, " should sort before ");
            push_text(&mut out, earlier);
        },
        DiagMessage::WildcardShouldComeLast => {
            push_str_chars(&mut out, "wild pattern should come last");
        },
        DiagMessage::UnsupportedPattern => {
            push_str_chars(&mut out, "unsupported pattern");
        },
        DiagMessage::ExpectedEachOption { annotation } => {
            push_str_chars(&mut out, "expected `");
            push_text(&mut out, annotation);
            push_str_chars(&mut out, "(each = \"...\")`");
        },
        DiagMessage::ExpectedRecord => {
            push_str_chars(&mut out, "expected a record with named fields");
        },
        DiagMessage::ExpectedSumType => {
            push_str_chars(&mut out, "expected enum or match expression");
        },
        DiagMessage::EachWithoutCollection { field } => {
            push_str_chars(&mut out, "field `");
            push_text(&mut out, field);
            push_str_chars(&mut out, "` is not an ordered collection");
        },
    }
    out
}

} // verus!
