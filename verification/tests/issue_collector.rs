use rustcroissant::issues::IssueSeverity;
use rustcroissant::issues::ValidationIssue;
use rustcroissant::issues::ValidationIssues;

#[test]
fn new_collector_is_empty() {
    let issues = ValidationIssues::new();
    assert!(issues.is_empty());
    assert!(!issues.has_errors());
    assert!(!issues.has_warnings());
    assert_eq!(issues.error_count(), 0);
    assert_eq!(issues.warning_count(), 0);
}

#[test]
fn counts_reflect_added_findings() {
    let mut issues = ValidationIssues::new();
    issues.add_error("first");
    issues.add_warning("second");
    issues.add_error_with_context("third", "Dataset(x)");
    assert!(!issues.is_empty());
    assert!(issues.has_errors());
    assert!(issues.has_warnings());
    assert_eq!(issues.error_count(), 2);
    assert_eq!(issues.warning_count(), 1);
    assert_eq!(issues.issues().len(), 3);
}

#[test]
fn issue_constructors_set_severity_and_context() {
    let e = ValidationIssue::error("broken");
    assert_eq!(e.severity, IssueSeverity::Error);
    assert_eq!(e.message, "broken");
    assert!(e.context.is_none());
    let w = ValidationIssue::warning("shaky").with_context("Dataset(d)");
    assert_eq!(w.severity, IssueSeverity::Warning);
    assert_eq!(w.context.as_deref(), Some("Dataset(d)"));
}

#[test]
fn report_of_no_findings_is_empty() {
    let issues = ValidationIssues::new();
    assert_eq!(issues.report(), "");
}

#[test]
fn report_of_errors_only_has_one_header_and_no_separator() {
    let mut issues = ValidationIssues::new();
    issues.add_error_with_context("first problem", "Dataset(d)");
    issues.add_error("second problem");
    let expected = "Found the following 2 error(s) during the validation:\n  -  [Dataset(d)] first problem\n  -  second problem";
    assert_eq!(issues.report(), expected);
}

#[test]
fn report_of_warnings_only_has_warning_header() {
    let mut issues = ValidationIssues::new();
    issues.add_warning("only a hint");
    let expected = "Found the following 1 warning(s) during the validation:\n  -  only a hint";
    assert_eq!(issues.report(), expected);
}

#[test]
fn report_of_both_severities_has_blank_separator_line() {
    let mut issues = ValidationIssues::new();
    issues.add_warning_with_context("w", "Dataset(d)");
    issues.add_error("e");
    let expected = "Found the following 1 error(s) during the validation:\n  -  e\n\nFound the following 1 warning(s) during the validation:\n  -  [Dataset(d)] w";
    assert_eq!(issues.report(), expected);
}

#[test]
fn report_trims_trailing_white_space() {
    let mut issues = ValidationIssues::new();
    issues.add_error("tail   ");
    assert_eq!(
        issues.report(),
        "Found the following 1 error(s) during the validation:\n  -  tail"
    );
}

#[test]
fn report_keeps_insertion_order_within_severity() {
    let mut issues = ValidationIssues::new();
    issues.add_error("a");
    issues.add_warning("b");
    issues.add_error("c");
    let expected = "Found the following 2 error(s) during the validation:\n  -  a\n  -  c\n\nFound the following 1 warning(s) during the validation:\n  -  b";
    assert_eq!(issues.report(), expected);
}
