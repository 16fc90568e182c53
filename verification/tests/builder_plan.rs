use declkit::annot::find_each_option;
use declkit::builder::{derive_builder, synthesize, FieldKind};
use declkit::diag::{render_message, DiagMessage};
use declkit::introspect::unwrap_wrapper;
use declkit::model::{
    AnnPair, AnnPayload, AnnotationDecl, Declaration, FieldDecl, LitValue, RecordDecl, TypeExpr,
};

fn t(s: &str) -> Vec<char> {
    s.chars().collect()
}

fn s(v: &Vec<char>) -> String {
    v.iter().collect()
}

fn ty0(name: &str) -> TypeExpr {
    TypeExpr { base: t(name), args: vec![] }
}

fn ty1(name: &str, inner: TypeExpr) -> TypeExpr {
    TypeExpr { base: t(name), args: vec![inner] }
}

fn ann_each(name: &str, setter: &str, loc: u64) -> AnnotationDecl {
    AnnotationDecl {
        name: t(name),
        payload: AnnPayload::Pairs(vec![AnnPair { key: t("each"), value: LitValue::Str(t(setter)) }]),
        loc,
    }
}

fn field(name: &str, ty: TypeExpr, annotations: Vec<AnnotationDecl>, loc: u64) -> FieldDecl {
    FieldDecl { name: t(name), ty, annotations, loc }
}

#[test]
fn classify_command_record() {
    let rec = RecordDecl {
        name: t("Command"),
        fields: vec![
            field("executable", ty0("String"), vec![], 1),
            field("args", ty1("Vec", ty0("String")), vec![ann_each("builder", "arg", 20)], 2),
            field("env", ty1("Vec", ty0("String")), vec![ann_each("builder", "env", 30)], 3),
            field("current_dir", ty1("Option", ty0("String")), vec![], 4),
        ],
        loc: 0,
    };
    let plan = synthesize(rec, &t("builder"));
    assert_eq!(s(&plan.record_name), "Command");
    assert_eq!(s(&plan.builder_name), "CommandBuilder");
    assert_eq!(plan.fields.len(), 4);
    assert!(matches!(plan.fields[0].kind, FieldKind::Plain));
    match &plan.fields[1].kind {
        FieldKind::Repeated { each, bulk } => {
            assert_eq!(s(each), "arg");
            assert!(*bulk);
        }
        _ => panic!("args should be repeated"),
    }
    match &plan.fields[2].kind {
        FieldKind::Repeated { each, bulk } => {
            assert_eq!(s(each), "env");
            assert!(!*bulk);
        }
        _ => panic!("env should be repeated"),
    }
    assert!(matches!(plan.fields[3].kind, FieldKind::OptionWrapped));
    assert!(plan.diagnostics.is_empty());
    assert_eq!(s(&plan.fields[0].name), "executable");
    assert_eq!(s(&plan.fields[1].ty.base), "Vec");
}

#[test]
fn storage_and_initialization_decisions() {
    let rec = RecordDecl {
        name: t("Job"),
        fields: vec![
            field("id", ty0("u32"), vec![], 1),
            field("tag", ty1("Option", ty0("String")), vec![], 2),
            field("steps", ty1("Vec", ty0("String")), vec![ann_each("builder", "step", 3)], 3),
        ],
        loc: 0,
    };
    let plan = synthesize(rec, &t("builder"));
    assert!(!plan.fields[0].storage_keeps_declared_type());
    assert!(plan.fields[1].storage_keeps_declared_type());
    assert!(plan.fields[2].storage_keeps_declared_type());
    assert!(!plan.fields[0].starts_as_empty_collection());
    assert!(!plan.fields[1].starts_as_empty_collection());
    assert!(plan.fields[2].starts_as_empty_collection());
}

#[test]
fn malformed_wrong_key_one_diagnostic() {
    let bad = AnnotationDecl {
        name: t("builder"),
        payload: AnnPayload::Pairs(vec![AnnPair {
            key: t("eac"),
            value: LitValue::Str(t("arg")),
        }]),
        loc: 77,
    };
    let rec = RecordDecl {
        name: t("Command"),
        fields: vec![
            field("args", ty1("Vec", ty0("String")), vec![bad], 2),
            field("executable", ty0("String"), vec![], 1),
        ],
        loc: 0,
    };
    let plan = synthesize(rec, &t("builder"));
    assert_eq!(plan.diagnostics.len(), 1);
    assert_eq!(plan.diagnostics[0].loc, 77);
    assert_eq!(
        s(&render_message(&plan.diagnostics[0].message)),
        "expected `builder(each = \"...\")`"
    );
    assert!(matches!(plan.fields[0].kind, FieldKind::Erroneous));
    assert!(matches!(plan.fields[1].kind, FieldKind::Plain));
}

#[test]
fn malformed_non_string_value_one_diagnostic() {
    let bad = AnnotationDecl {
        name: t("builder"),
        payload: AnnPayload::Pairs(vec![AnnPair { key: t("each"), value: LitValue::Other }]),
        loc: 9,
    };
    let rec = RecordDecl {
        name: t("R"),
        fields: vec![field("xs", ty1("Vec", ty0("u8")), vec![bad], 5)],
        loc: 0,
    };
    let plan = synthesize(rec, &t("builder"));
    assert_eq!(plan.diagnostics.len(), 1);
    assert_eq!(plan.diagnostics[0].loc, 9);
    assert_eq!(
        s(&render_message(&plan.diagnostics[0].message)),
        "expected `builder(each = \"...\")`"
    );
}

#[test]
fn absent_annotation_is_not_malformed() {
    let other = AnnotationDecl {
        name: t("serde"),
        payload: AnnPayload::Pairs(vec![AnnPair { key: t("rename"), value: LitValue::Other }]),
        loc: 3,
    };
    let rec = RecordDecl {
        name: t("R"),
        fields: vec![field("x", ty0("u8"), vec![other], 1)],
        loc: 0,
    };
    let plan = synthesize(rec, &t("builder"));
    assert!(plan.diagnostics.is_empty());
    assert!(matches!(plan.fields[0].kind, FieldKind::Plain));
}

#[test]
fn each_option_on_non_collection_field() {
    let rec = RecordDecl {
        name: t("R"),
        fields: vec![field("x", ty0("String"), vec![ann_each("builder", "part", 4)], 8)],
        loc: 0,
    };
    let plan = synthesize(rec, &t("builder"));
    assert_eq!(plan.diagnostics.len(), 1);
    assert_eq!(plan.diagnostics[0].loc, 8);
    assert_eq!(
        s(&render_message(&plan.diagnostics[0].message)),
        "field `x` is not an ordered collection"
    );
    assert!(matches!(plan.fields[0].kind, FieldKind::Erroneous));
}

#[test]
fn first_matching_annotation_decides() {
    let bad = AnnotationDecl {
        name: t("builder"),
        payload: AnnPayload::Bare,
        loc: 11,
    };
    let good = ann_each("builder", "item", 12);
    let rec = RecordDecl {
        name: t("R"),
        fields: vec![field("xs", ty1("Vec", ty0("u8")), vec![bad, good], 2)],
        loc: 0,
    };
    let plan = synthesize(rec, &t("builder"));
    assert_eq!(plan.diagnostics.len(), 1);
    assert_eq!(plan.diagnostics[0].loc, 11);
    assert!(matches!(plan.fields[0].kind, FieldKind::Erroneous));
}

#[test]
fn wrapper_with_no_argument_is_unwrapped() {
    let rec = RecordDecl {
        name: t("R"),
        fields: vec![field("x", ty0("Option"), vec![], 1)],
        loc: 0,
    };
    let plan = synthesize(rec, &t("builder"));
    assert!(plan.diagnostics.is_empty());
    assert!(matches!(plan.fields[0].kind, FieldKind::Plain));
}

#[test]
fn introspector_unwraps_exactly_one_argument() {
    let wrapped = ty1("Option", ty0("String"));
    let inner = unwrap_wrapper(&wrapped, &t("Option")).expect("wrapped");
    assert_eq!(s(&inner.base), "String");
    assert!(unwrap_wrapper(&wrapped, &t("Vec")).is_none());
    assert!(unwrap_wrapper(&ty0("Option"), &t("Option")).is_none());
    let two = TypeExpr { base: t("Option"), args: vec![ty0("A"), ty0("B")] };
    assert!(unwrap_wrapper(&two, &t("Option")).is_none());
}

#[test]
fn non_record_declaration_is_refused() {
    let r = derive_builder(Declaration::Other, &t("builder"), 42);
    let d = r.err().expect("diagnostic");
    assert_eq!(d.loc, 42);
    assert_eq!(s(&render_message(&d.message)), "expected a record with named fields");
}

#[test]
fn find_each_option_three_way() {
    let recognized = t("builder");
    let absent: Vec<AnnotationDecl> = vec![];
    assert!(find_each_option(&absent, &recognized).unwrap().is_none());

    let present = vec![ann_each("builder", "arg", 1)];
    let e = find_each_option(&present, &recognized).unwrap().unwrap();
    assert_eq!(s(&e.setter), "arg");

    let malformed = vec![AnnotationDecl { name: t("builder"), payload: AnnPayload::Bare, loc: 6 }];
    let d = find_each_option(&malformed, &recognized).err().expect("diagnostic");
    assert_eq!(d.loc, 6);
    assert!(matches!(d.message, DiagMessage::ExpectedEachOption { .. }));

    let extra_pair = vec![AnnotationDecl {
        name: t("builder"),
        payload: AnnPayload::Pairs(vec![
            AnnPair { key: t("each"), value: LitValue::Str(t("a")) },
            AnnPair { key: t("each"), value: LitValue::Str(t("b")) },
        ]),
        loc: 7,
    }];
    assert!(find_each_option(&extra_pair, &recognized).is_err());
}
