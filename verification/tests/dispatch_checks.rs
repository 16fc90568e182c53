use declkit::diag::{render_message, DiagMessage, Diagnostic};
use declkit::dispatch::{join_path, validate_dispatch};
use declkit::model::{AnnPayload, AnnotationDecl, Branch, DispatchDecl, Pattern};

fn t(s: &str) -> Vec<char> {
    s.chars().collect()
}

fn s(v: &Vec<char>) -> String {
    v.iter().collect()
}

fn msg(d: &Diagnostic) -> String {
    s(&render_message(&d.message))
}

fn ann(name: &str, loc: u64) -> AnnotationDecl {
    AnnotationDecl { name: t(name), payload: AnnPayload::Bare, loc }
}

fn path(segs: &[&str], loc: u64) -> Branch {
    Branch { pattern: Pattern::Path(segs.iter().map(|x| t(x)).collect()), loc }
}

fn binding(name: &str, loc: u64) -> Branch {
    Branch { pattern: Pattern::Binding(t(name)), loc }
}

fn wild(loc: u64) -> Branch {
    Branch { pattern: Pattern::Wildcard, loc }
}

fn marked(branches: Vec<Branch>) -> DispatchDecl {
    DispatchDecl { annotations: vec![ann("sorted", 100)], branches, loc: 0 }
}

#[test]
fn unmarked_construct_is_left_alone() {
    let d = DispatchDecl {
        annotations: vec![ann("inline", 1)],
        branches: vec![binding("b", 1), binding("a", 2)],
        loc: 0,
    };
    let (out, diags) = validate_dispatch(d, &t("sorted"));
    assert!(diags.is_empty());
    assert_eq!(out.annotations.len(), 1);
    assert_eq!(out.branches.len(), 2);
}

#[test]
fn directive_is_stripped_from_valid_construct() {
    let d = marked(vec![binding("a", 1), binding("b", 2)]);
    let (out, diags) = validate_dispatch(d, &t("sorted"));
    assert!(diags.is_empty());
    assert!(out.annotations.is_empty());
    assert_eq!(out.branches.len(), 2);
}

#[test]
fn directive_is_stripped_from_invalid_construct_too() {
    let d = marked(vec![binding("b", 1), binding("a", 2)]);
    let (out, diags) = validate_dispatch(d, &t("sorted"));
    assert_eq!(diags.len(), 1);
    assert!(out.annotations.is_empty());
}

#[test]
fn only_the_directive_is_stripped() {
    let d = DispatchDecl {
        annotations: vec![ann("allow", 1), ann("sorted", 2), ann("inline", 3)],
        branches: vec![binding("a", 1)],
        loc: 0,
    };
    let (out, _) = validate_dispatch(d, &t("sorted"));
    assert_eq!(out.annotations.len(), 2);
    assert_eq!(s(&out.annotations[0].name), "allow");
    assert_eq!(s(&out.annotations[1].name), "inline");
}

#[test]
fn swapped_binding_branches_are_reported() {
    let d = marked(vec![binding("foo", 1), binding("bar", 2), binding("baz", 3)]);
    let (_, diags) = validate_dispatch(d, &t("sorted"));
    assert_eq!(diags.len(), 1);
    assert_eq!(diags[0].loc, 2);
    assert_eq!(msg(&diags[0]), "bar should sort before foo");
}

#[test]
fn path_keys_compare_joined() {
    let d = marked(vec![
        path(&["Error", "Io"], 1),
        path(&["Error", "Parse"], 2),
        path(&["Error", "Fmt"], 3),
    ]);
    let (_, diags) = validate_dispatch(d, &t("sorted"));
    assert_eq!(diags.len(), 1);
    assert_eq!(diags[0].loc, 3);
    assert_eq!(msg(&diags[0]), "Error::Fmt should sort before Error::Io");
}

#[test]
fn join_path_uses_double_colon() {
    assert_eq!(s(&join_path(&vec![t("Error"), t("Io")])), "Error::Io");
    assert_eq!(s(&join_path(&vec![t("name")])), "name");
    assert_eq!(s(&join_path(&vec![])), "");
}

#[test]
fn wildcard_before_keyed_branch_is_reported() {
    let d = marked(vec![binding("a", 1), wild(2), binding("b", 3)]);
    let (_, diags) = validate_dispatch(d, &t("sorted"));
    assert_eq!(diags.len(), 1);
    assert_eq!(diags[0].loc, 2);
    assert_eq!(msg(&diags[0]), "wild pattern should come last");
}

#[test]
fn wildcard_last_with_sorted_branches_is_clean() {
    let d = marked(vec![binding("a", 1), binding("b", 2), wild(3)]);
    let (_, diags) = validate_dispatch(d, &t("sorted"));
    assert!(diags.is_empty());
}

#[test]
fn second_wildcard_is_reported() {
    let d = marked(vec![binding("a", 1), wild(2), wild(3)]);
    let (_, diags) = validate_dispatch(d, &t("sorted"));
    assert_eq!(diags.len(), 1);
    assert_eq!(diags[0].loc, 3);
    assert_eq!(msg(&diags[0]), "wild pattern should come last");
}

#[test]
fn unsupported_patterns_are_each_reported() {
    let d = marked(vec![
        Branch { pattern: Pattern::Other, loc: 1 },
        binding("a", 2),
        Branch { pattern: Pattern::Other, loc: 3 },
    ]);
    let (_, diags) = validate_dispatch(d, &t("sorted"));
    assert_eq!(diags.len(), 2);
    assert_eq!(diags[0].loc, 1);
    assert_eq!(diags[1].loc, 3);
    assert!(matches!(diags[0].message, DiagMessage::UnsupportedPattern));
}

#[test]
fn independent_faults_are_reported_together() {
    let d = marked(vec![
        Branch { pattern: Pattern::Other, loc: 1 },
        wild(2),
        binding("b", 3),
        binding("a", 4),
    ]);
    let (_, diags) = validate_dispatch(d, &t("sorted"));
    // one unsupported branch, one misplaced catch-all, one ordering violation
    assert_eq!(diags.len(), 3);
    assert!(matches!(diags[0].message, DiagMessage::UnsupportedPattern));
    assert!(matches!(diags[1].message, DiagMessage::WildcardShouldComeLast));
    assert_eq!(msg(&diags[2]), "a should sort before b");
}

#[test]
fn running_the_validator_twice_changes_nothing_more() {
    let d = marked(vec![binding("a", 1), binding("b", 2), wild(3)]);
    let (out1, diags1) = validate_dispatch(d, &t("sorted"));
    assert!(diags1.is_empty());
    let n_anns = out1.annotations.len();
    let n_branches = out1.branches.len();
    let (out2, diags2) = validate_dispatch(out1, &t("sorted"));
    assert!(diags2.is_empty());
    assert_eq!(out2.annotations.len(), n_anns);
    assert_eq!(out2.branches.len(), n_branches);
}
