use declkit::diag::{render_message, DiagMessage};
use declkit::model::{Declaration, SumTypeDecl, Variant};
use declkit::order::{validate_declaration, validate_sum_type};
use declkit::text::{text_eq, text_lt};

fn t(s: &str) -> Vec<char> {
    s.chars().collect()
}

fn s(v: &Vec<char>) -> String {
    v.iter().collect()
}

fn sum(names: &[&str]) -> SumTypeDecl {
    SumTypeDecl {
        name: t("E"),
        variants: names
            .iter()
            .enumerate()
            .map(|(i, n)| Variant { name: t(n), loc: i as u64 + 1 })
            .collect(),
        loc: 0,
    }
}

#[test]
fn sorted_variants_produce_no_diagnostic() {
    assert!(validate_sum_type(&sum(&["Aa", "Ab", "B", "C"])).is_none());
}

#[test]
fn equal_neighbours_are_in_order() {
    assert!(validate_sum_type(&sum(&["A", "A", "B"])).is_none());
}

#[test]
fn empty_and_single_variant_are_trivially_valid() {
    assert!(validate_sum_type(&sum(&[])).is_none());
    assert!(validate_sum_type(&sum(&["Solo"])).is_none());
}

#[test]
fn two_swapped_variants_name_each_other() {
    let d = validate_sum_type(&sum(&["B", "A"])).expect("out of order");
    assert_eq!(d.loc, 2);
    assert_eq!(s(&render_message(&d.message)), "A should sort before B");
}

#[test]
fn first_offender_is_reported_with_insertion_position() {
    // D steps back after [A, C, E]; it belongs before E.
    let d = validate_sum_type(&sum(&["A", "C", "E", "D", "B"])).expect("out of order");
    assert_eq!(d.loc, 4);
    assert_eq!(s(&render_message(&d.message)), "D should sort before E");
}

#[test]
fn offender_belonging_first_names_the_head() {
    let d = validate_sum_type(&sum(&["B", "C", "A"])).expect("out of order");
    assert_eq!(d.loc, 3);
    assert_eq!(s(&render_message(&d.message)), "A should sort before B");
}

#[test]
fn validator_is_a_pure_read() {
    let decl = sum(&["A", "B", "C"]);
    assert!(validate_sum_type(&decl).is_none());
    assert!(validate_sum_type(&decl).is_none());
    let bad = sum(&["B", "A"]);
    let d1 = validate_sum_type(&bad).expect("out of order");
    let d2 = validate_sum_type(&bad).expect("out of order");
    assert_eq!(d1.loc, d2.loc);
    assert_eq!(s(&render_message(&d1.message)), s(&render_message(&d2.message)));
}

#[test]
fn non_sum_type_declaration_is_refused() {
    let d = validate_declaration(&Declaration::Other, 55).expect("diagnostic");
    assert_eq!(d.loc, 55);
    assert_eq!(s(&render_message(&d.message)), "expected enum or match expression");
}

#[test]
fn sum_type_declaration_passes_through_the_entry() {
    let decl = Declaration::SumType(sum(&["A", "B"]));
    assert!(validate_declaration(&decl, 55).is_none());
}

#[test]
fn canonical_order_is_by_code_point() {
    assert!(text_lt(&t("A"), &t("B")));
    assert!(text_lt(&t("Abc"), &t("B")));
    assert!(text_lt(&t("A"), &t("Ab")));
    assert!(!text_lt(&t("A"), &t("A")));
    assert!(!text_lt(&t("B"), &t("A")));
    // upper case sorts before lower case, as byte order does
    assert!(text_lt(&t("Z"), &t("a")));
    assert!(text_eq(&t("same"), &t("same")));
    assert!(!text_eq(&t("same"), &t("sam")));
}

#[test]
fn message_shapes_render_exactly() {
    let m = DiagMessage::ShouldSortBefore { offender: t("A"), earlier: t("B") };
    assert_eq!(s(&render_message(&m)), "A should sort before B");
    assert_eq!(
        s(&render_message(&DiagMessage::WildcardShouldComeLast)),
        "wild pattern should come last"
    );
    assert_eq!(s(&render_message(&DiagMessage::UnsupportedPattern)), "unsupported pattern");
    let m = DiagMessage::ExpectedEachOption { annotation: t("builder") };
    assert_eq!(s(&render_message(&m)), "expected `builder(each = \"...\")`");
}
