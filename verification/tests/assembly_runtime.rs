use declkit::assembly::{Builder, BuilderField, FieldValue, Shape};
use declkit::builder::synthesize;
use declkit::model::{AnnPair, AnnPayload, AnnotationDecl, FieldDecl, LitValue, RecordDecl, TypeExpr};

fn t(s: &str) -> Vec<char> {
    s.chars().collect()
}

fn s(v: &Vec<char>) -> String {
    v.iter().collect()
}

fn bf(name: &str, shape: Shape) -> BuilderField {
    BuilderField { name: t(name), shape }
}

#[test]
fn fully_populated_builder_assembles_directly() {
    let mut b: Builder<u64> = Builder::new(vec![
        bf("executable", Shape::Plain),
        bf("args", Shape::Repeated),
        bf("current_dir", Shape::Optional),
    ]);
    b.set_value(0, 7);
    b.append_element(1, 10);
    b.append_element(1, 11);
    b.set_value(2, 99);
    let out = b.build().expect("complete builder");
    assert_eq!(out.len(), 3);
    assert!(matches!(out[0], FieldValue::One(7)));
    match &out[1] {
        FieldValue::Many(l) => assert_eq!(l, &vec![10, 11]),
        _ => panic!("repeated field"),
    }
    assert!(matches!(out[2], FieldValue::Opt(Some(99))));
}

#[test]
fn missing_required_field_is_named() {
    let b: Builder<u64> = Builder::new(vec![bf("executable", Shape::Plain)]);
    let e = b.build().err().expect("incomplete builder");
    assert_eq!(s(&e.field), "executable");
}

#[test]
fn first_unset_required_field_wins() {
    let mut b: Builder<u64> = Builder::new(vec![
        bf("a", Shape::Plain),
        bf("b", Shape::Plain),
        bf("c", Shape::Plain),
    ]);
    b.set_value(0, 1);
    let e = b.build().err().expect("two fields unset");
    assert_eq!(s(&e.field), "b");
}

#[test]
fn omitted_optional_field_assembles_absent() {
    let mut b: Builder<u64> = Builder::new(vec![
        bf("exec", Shape::Plain),
        bf("dir", Shape::Optional),
    ]);
    b.set_value(0, 5);
    let out = b.build().expect("optional field may stay unset");
    assert!(matches!(out[1], FieldValue::Opt(None)));
}

#[test]
fn zero_appends_yield_empty_collection() {
    let mut b: Builder<u64> = Builder::new(vec![
        bf("exec", Shape::Plain),
        bf("args", Shape::Repeated),
    ]);
    b.set_value(0, 5);
    let out = b.build().expect("empty collection is legitimate");
    match &out[1] {
        FieldValue::Many(l) => assert!(l.is_empty()),
        _ => panic!("repeated field"),
    }
}

#[test]
fn appends_accumulate_in_call_order() {
    let mut b: Builder<u64> = Builder::new(vec![bf("xs", Shape::Repeated)]);
    b.append_element(0, 3);
    b.append_element(0, 1);
    b.append_element(0, 2);
    let out = b.build().expect("no required fields");
    match &out[0] {
        FieldValue::Many(l) => assert_eq!(l, &vec![3, 1, 2]),
        _ => panic!("repeated field"),
    }
}

#[test]
fn bulk_setter_replaces_accumulated_collection() {
    let mut b: Builder<u64> = Builder::new(vec![bf("xs", Shape::Repeated)]);
    b.append_element(0, 3);
    b.set_collection(0, vec![8, 9]);
    b.append_element(0, 10);
    let out = b.build().expect("no required fields");
    match &out[0] {
        FieldValue::Many(l) => assert_eq!(l, &vec![8, 9, 10]),
        _ => panic!("repeated field"),
    }
}

#[test]
fn setting_a_field_twice_keeps_the_last_value() {
    let mut b: Builder<u64> = Builder::new(vec![bf("a", Shape::Plain)]);
    b.set_value(0, 1);
    b.set_value(0, 2);
    let out = b.build().expect("complete");
    assert!(matches!(out[0], FieldValue::One(2)));
}

#[test]
fn plan_runtime_fields_drive_the_builder() {
    let rec = RecordDecl {
        name: t("Command"),
        fields: vec![
            FieldDecl { name: t("executable"), ty: TypeExpr { base: t("String"), args: vec![] }, annotations: vec![], loc: 1 },
            FieldDecl {
                name: t("args"),
                ty: TypeExpr {
                    base: t("Vec"),
                    args: vec![TypeExpr { base: t("String"), args: vec![] }],
                },
                annotations: vec![AnnotationDecl {
                    name: t("builder"),
                    payload: AnnPayload::Pairs(vec![AnnPair {
                        key: t("each"),
                        value: LitValue::Str(t("arg")),
                    }]),
                    loc: 2,
                }],
                loc: 2,
            },
        ],
        loc: 0,
    };
    let plan = synthesize(rec, &t("builder"));
    assert!(plan.diagnostics.is_empty());
    let fields = plan.runtime_fields();
    assert_eq!(fields.len(), 2);
    assert_eq!(s(&fields[0].name), "executable");
    assert!(matches!(fields[0].shape, Shape::Plain));
    assert!(matches!(fields[1].shape, Shape::Repeated));
    let b: Builder<u64> = Builder::new(fields);
    let e = b.build().err().expect("executable unset");
    assert_eq!(s(&e.field), "executable");
}
