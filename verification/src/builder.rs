//! Builder synthesis: classifying each record field and producing the
//! deterministic plan the companion builder type is emitted from.
//!
//! Each field is wrapped-optional (the optional-value wrapper), repeated (a
//! well-formed each-option on an ordered-collection field), or plain. The
//! classification drives the builder's storage field shape, its initial value
//! and its setters; a malformed annotation abandons one field's synthesis with
//! a diagnostic while its siblings continue.

use vstd::prelude::*;
use crate::annot::{find_each_option, spec_each_of, spec_find};
use crate::assembly::{BuilderField, Shape};
use crate::diag::{push_diag, DiagMessage, DiagView, Diagnostic, MsgView};
use crate::introspect::{
    collection_wrapper_name,
    is_wrapped,
    optional_wrapper_name,
    spec_is_wrapped,
};
use crate::model::{Declaration, FieldDecl, RecordDecl, TypeExpr};
use crate::text::{push_str_chars, text_copy, text_eq};

verus! {

/// How one field drives the parallel emissions of the builder.
pub enum FieldKind {
    /// Neither wrapped nor annotated: storage wraps the declared type in the
    /// optional-value wrapper, one setter stores the value as present, and the
    /// field is required at assembly.
    Plain,
    /// Declared as the optional-value wrapper: storage keeps the declared
    /// type, one setter takes the contained type, and absence is a legitimate
    /// final value.
    OptionWrapped,
    /// A well-formed each-option on an ordered-collection field: storage keeps
    /// the declared type starting empty, an element-appending setter is named
    /// `each`, and a bulk replacing setter under the field's own name is
    /// emitted only when the names do not collide.
    Repeated { each: Vec<char>, bulk: bool },
    /// A malformed annotation, or an each-option on a field that is not an
    /// ordered collection: a diagnostic is reported and the field gets no
    /// setters, while its siblings continue.
    Erroneous,
}

/// One field of the synthesis plan.
pub struct FieldPlan {
    pub name: Vec<char>,
    pub ty: TypeExpr,
    pub kind: FieldKind,
}

/// The deterministic synthesis plan of one record declaration.
pub struct BuilderPlan {
    pub record_name: Vec<char>,
    pub builder_name: Vec<char>,
    pub fields: Vec<FieldPlan>,
    pub diagnostics: Vec<Diagnostic>,
}

/// The classification a field must receive: the first recognized annotation
/// decides when present and well-formed; otherwise wrapper introspection
/// decides.
pub open spec fn spec_kind_ok(f: FieldDecl, recognized: Seq<char>, k: FieldKind) -> bool {
    match spec_find(f.annotations@, recognized) {
        Some(a) => match spec_each_of(a) {
            Some(setter) => if spec_is_wrapped(f.ty, "Vec"@) {
                k matches FieldKind::Repeated { each, bulk } && each@ == setter && bulk == (setter
                    != f.name@)
            } else {
                k is Erroneous
            },
            None => k is Erroneous,
        },
        None => if spec_is_wrapped(f.ty, "Option"@) {
            k is OptionWrapped
        } else {
            k is Plain
        },
    }
}

/// The diagnostics of the first `n` fields, in declaration order: one for
/// each malformed annotation, anchored at the annotation, and one for each
/// each-option on a non-collection field, anchored at the field.
pub open spec fn spec_field_diags(fields: Seq<FieldDecl>, recognized: Seq<char>, n: int) -> Seq<
    DiagView,
>
    decreases n,
{
    if n <= 0 {
        Seq::empty()
    } else {
        let rest = spec_field_diags(fields, recognized, n - 1);
        let f = fields[n - 1];
        match spec_find(f.annotations@, recognized) {
            Some(a) => match spec_each_of(a) {
                Some(setter) => if spec_is_wrapped(f.ty, "Vec"@) {
                    rest
                } else {
                    rest.push(
                        DiagView {
                            loc: f.loc,
                            message: MsgView::EachWithoutCollection { field: f.name@ },
                        },
                    )
                },
                None => rest.push(
                    DiagView {
                        loc: a.loc,
                        message: MsgView::ExpectedEachOption { annotation: recognized },
                    },
                ),
            },
            None => rest,
        }
    }
}

/// Everything synthesis says of a plan for `rec`: names and declared types
/// carry over unchanged, every field is classified as it must be, and the
/// abandoned fields' diagnostics stand in declaration order.
pub open spec fn spec_plan_ok(rec: RecordDecl, recognized: Seq<char>, plan: BuilderPlan) -> bool {
    &&& plan.record_name@ == rec.name@
    &&& plan.builder_name@ == rec.name@ + "Builder"@
    &&& plan.fields@.len() == rec.fields@.len()
    &&& forall|i: int|
        0 <= i < rec.fields@.len() ==> (#[trigger] plan.fields@[i]).name == rec.fields@[i].name
    &&& forall|i: int|
        0 <= i < rec.fields@.len() ==> (#[trigger] plan.fields@[i]).ty == rec.fields@[i].ty
    &&& forall|i: int|
        0 <= i < rec.fields@.len() ==> spec_kind_ok(
            rec.fields@[i],
            recognized,
            (#[trigger] plan.fields@[i]).kind,
        )
    &&& plan.diagnostics.deep_view() == spec_field_diags(
        rec.fields@,
        recognized,
        rec.fields@.len() as int,
    )
}

/// Synthesizes the builder plan of a record declaration: the builder type is
/// named after the record, every field keeps its name and declared type, and
/// the classification of each field follows its annotations and wrappers.
pub fn synthesize(rec: RecordDecl, recognized: &Vec<char>) -> (plan: BuilderPlan)
    ensures
        spec_plan_ok(rec, recognized@, plan),
{
    let RecordDecl { name, fields, loc: _ } = rec;
    let mut builder_name = text_copy(&name);
    push_str_chars(&mut builder_name, "Builder");
    let vec_name = collection_wrapper_name();
    let opt_name = optional_wrapper_name();
    let total = fields.len();
    let ghost ofields = fields@;
    let mut rest = fields;
    let mut plans: Vec<FieldPlan> = Vec::new();
    let mut diags: Vec<Diagnostic> = Vec::new();
    let mut i: usize = 0;
    proof {
        assert(rest@ =~= ofields.skip(0));
        assert(diags.deep_view() =~= spec_field_diags(ofields, recognized@, 0));
    }
    while rest.len() > 0
        invariant
            ofields.len() == total,
            i as int + rest@.len() == ofields.len(),
            rest@ =~= ofields.skip(i as int),
            plans@.len() == i,
            vec_name@ == "Vec"@,
            opt_name@ == "Option"@,
            forall|j: int| 0 <= j < i ==> (#[trigger] plans@[j]).name == ofields[j].name,
            forall|j: int| 0 <= j < i ==> (#[trigger] plans@[j]).ty == ofields[j].ty,
            forall|j: int|
                0 <= j < i ==> spec_kind_ok(ofields[j], recognized@, (#[trigger] plans@[j]).kind),
            diags.deep_view() =~= spec_field_diags(ofields, recognized@, i as int),
        decreases rest@.len(),
    {
        proof {
            assert(rest@[0] == ofields.skip(i as int)[0]);
            assert(ofields.skip(i as int)[0] == ofields[i as int]);
        }
        let f = rest.remove(0);
        proof {
            assert(rest@ =~= ofields.skip(i as int + 1));
        }
        let kind: FieldKind;
        match find_each_option(&f.annotations, recognized) {
            Ok(opt) => match opt {
                Some(e) => {
                    if is_wrapped(&f.ty, &vec_name) {
                        let bulk = !text_eq(&e.setter, &f.name);
                        kind = FieldKind::Repeated { each: e.setter, bulk };
                    } else {
                        push_diag(
                            &mut diags,
                            Diagnostic {
                                loc: f.loc,
                                message: DiagMessage::EachWithoutCollection {
                                    field: text_copy(&f.name),
                                },
                            },
                        );
                        kind = FieldKind::Erroneous;
                    }
                },
                None => {
                    if is_wrapped(&f.ty, &opt_name) {
                        kind = FieldKind::OptionWrapped;
                    } else {
                        kind = FieldKind::Plain;
                    }
                },
            },
            Err(d) => {
                push_diag(&mut diags, d);
                kind = FieldKind::Erroneous;
            },
        }
        plans.push(FieldPlan { name: f.name, ty: f.ty, kind });
        proof {
            assert(diags.deep_view() =~= spec_field_diags(ofields, recognized@, i as int + 1));
        }
        i = i + 1;
    }
    BuilderPlan { record_name: name, builder_name, fields: plans, diagnostics: diags }
}

impl FieldPlan {
    /// Whether the builder's storage field keeps the declared type; only a
    /// plain field's storage wraps the declared type in the optional-value
    /// wrapper instead.
    pub fn storage_keeps_declared_type(&self) -> (r: bool)
        ensures
            r == !(self.kind is Plain),
    {
        match &self.kind {
            FieldKind::Plain => false,
            _ => true,
        }
    }

    /// Whether the builder field's initial value is an empty ordered
    /// collection; every other field starts as absent.
    pub fn starts_as_empty_collection(&self) -> (r: bool)
        ensures
            r == (self.kind is Repeated || self.kind is Erroneous),
    {
        match &self.kind {
            FieldKind::Repeated { .. } => true,
            FieldKind::Erroneous => true,
            _ => false,
        }
    }
}

/// The runtime classification of a planned field, for the builder the plan
/// emits.
pub open spec fn spec_runtime_shape(k: FieldKind) -> Shape {
    match k {
        FieldKind::Plain => Shape::Plain,
        FieldKind::OptionWrapped => Shape::Optional,
        FieldKind::Repeated { .. } => Shape::Repeated,
        FieldKind::Erroneous => Shape::Plain,
    }
}

impl BuilderPlan {
    /// The runtime fields of the builder this plan emits: each planned field's
    /// name with its runtime classification. Meaningful only for a plan whose
    /// synthesis abandoned no field, since an abandoned field emits no code.
    pub fn runtime_fields(&self) -> (r: Vec<BuilderField>)
        requires
            forall|i: int|
                0 <= i < self.fields@.len() ==> !((#[trigger] self.fields@[i]).kind is Erroneous),
        ensures
            r@.len() == self.fields@.len(),
            forall|i: int|
                0 <= i < self.fields@.len() ==> (#[trigger] r@[i]).name@ == self.fields@[i].name@,
            forall|i: int|
                0 <= i < self.fields@.len() ==> (#[trigger] r@[i]).shape == spec_runtime_shape(
                    self.fields@[i].kind,
                ),
    {
        let mut r: Vec<BuilderField> = Vec::new();
        let mut i: usize = 0;
        while i < self.fields.len()
            invariant
                i <= self.fields@.len(),
                r@.len() == i,
                forall|j: int|
                    0 <= j < i ==> (#[trigger] r@[j]).name@ == self.fields@[j].name@,
                forall|j: int|
                    0 <= j < i ==> (#[trigger] r@[j]).shape == spec_runtime_shape(
                        self.fields@[j].kind,
                    ),
            decreases self.fields@.len() - i,
        {
            let f = &self.fields[i];
            let shape = match &f.kind {
                FieldKind::Plain => Shape::Plain,
                FieldKind::OptionWrapped => Shape::Optional,
                FieldKind::Repeated { .. } => Shape::Repeated,
                FieldKind::Erroneous => Shape::Plain,
            };
            r.push(BuilderField { name: text_copy(&f.name), shape });
            i = i + 1;
        }
        r
    }
}

/// Builder-generator entry: a record declaration yields its synthesis plan;
/// any other declaration shape is refused with a single diagnostic at the
/// invocation site, and nothing is emitted for it.
pub fn derive_builder(decl: Declaration, recognized: &Vec<char>, site: u64) -> (r: Result<
    BuilderPlan,
    Diagnostic,
>)
    ensures
        match decl {
            Declaration::Record(rec) => r matches Ok(plan) && spec_plan_ok(
                rec,
                recognized@,
                plan,
            ),
            _ => r matches Err(d) && d@ == (DiagView {
                loc: site,
                message: MsgView::ExpectedRecord,
            }),
        },
{
    match decl {
        Declaration::Record(rec) => Ok(synthesize(rec, recognized)),
        _ => Err(Diagnostic { loc: site, message: DiagMessage::ExpectedRecord }),
    }
}

} // verus!
