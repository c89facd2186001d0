use resolver::diagnostics::{Diagnostic, DiagnosticKind};
use resolver::report::Reporter;
use resolver::types::Location;

fn at(line: u32, column: u32, kind: DiagnosticKind) -> Diagnostic {
    Diagnostic::new(kind, Location::new(line, column))
}

#[test]
fn new_reporter_has_no_errors() {
    let reporter = Reporter::new();
    assert!(!reporter.has_errors());
    assert_eq!(reporter.len(), 0);
    assert!(reporter.diagnostics().is_empty());
}

#[test]
fn one_report_makes_an_error() {
    let mut reporter = Reporter::new();
    reporter.report(at(1, 1, DiagnosticKind::NotAStruct));
    assert!(reporter.has_errors());
    assert_eq!(reporter.len(), 1);
}

#[test]
fn diagnostics_come_out_sorted_by_position() {
    let mut reporter = Reporter::new();
    reporter.report(at(7, 3, DiagnosticKind::UnresolvedName("c".to_string())));
    reporter.report(at(2, 9, DiagnosticKind::UnresolvedName("a".to_string())));
    reporter.report(at(7, 1, DiagnosticKind::UnresolvedName("b".to_string())));
    reporter.report(at(1, 1, DiagnosticKind::NotAStruct));
    let expected = vec![
        at(1, 1, DiagnosticKind::NotAStruct),
        at(2, 9, DiagnosticKind::UnresolvedName("a".to_string())),
        at(7, 1, DiagnosticKind::UnresolvedName("b".to_string())),
        at(7, 3, DiagnosticKind::UnresolvedName("c".to_string())),
    ];
    assert_eq!(reporter.diagnostics(), &expected);
    assert_eq!(reporter.into_diagnostics(), expected);
}

#[test]
fn diagnostics_at_one_position_keep_their_order() {
    let mut reporter = Reporter::new();
    reporter.report(at(4, 4, DiagnosticKind::MissingField("x".to_string())));
    reporter.report(at(9, 1, DiagnosticKind::NotAStruct));
    reporter.report(at(4, 4, DiagnosticKind::MissingField("y".to_string())));
    reporter.report(at(4, 4, DiagnosticKind::UnknownField("z".to_string())));
    let expected = vec![
        at(4, 4, DiagnosticKind::MissingField("x".to_string())),
        at(4, 4, DiagnosticKind::MissingField("y".to_string())),
        at(4, 4, DiagnosticKind::UnknownField("z".to_string())),
        at(9, 1, DiagnosticKind::NotAStruct),
    ];
    assert_eq!(reporter.into_diagnostics(), expected);
}

#[test]
fn report_all_is_report_one_by_one() {
    let batch = vec![
        at(3, 1, DiagnosticKind::UnknownFunction("f".to_string())),
        at(1, 5, DiagnosticKind::NotAStruct),
        at(3, 1, DiagnosticKind::UnknownFunction("g".to_string())),
        at(2, 2, DiagnosticKind::DuplicateField("x".to_string())),
    ];
    let mut all_at_once = Reporter::new();
    all_at_once.report_all(&batch);
    let mut one_by_one = Reporter::new();
    for d in &batch {
        one_by_one.report(d.clone());
    }
    assert_eq!(all_at_once.diagnostics(), one_by_one.diagnostics());
    assert_eq!(
        all_at_once.into_diagnostics(),
        vec![
            at(1, 5, DiagnosticKind::NotAStruct),
            at(2, 2, DiagnosticKind::DuplicateField("x".to_string())),
            at(3, 1, DiagnosticKind::UnknownFunction("f".to_string())),
            at(3, 1, DiagnosticKind::UnknownFunction("g".to_string())),
        ]
    );
}

#[test]
fn sorting_keeps_every_diagnostic() {
    let batch = vec![
        at(5, 1, DiagnosticKind::NotAStruct),
        at(5, 1, DiagnosticKind::NotAStruct),
        at(1, 1, DiagnosticKind::NotAStruct),
    ];
    let mut reporter = Reporter::new();
    reporter.report_all(&batch);
    let sorted = reporter.into_diagnostics();
    assert_eq!(sorted.len(), 3);
    for pair in sorted.windows(2) {
        assert!(!pair[0].location.is_after(&pair[1].location));
    }
    assert_eq!(sorted.iter().filter(|d| d.location == Location::new(5, 1)).count(), 2);
}

#[test]
fn messages_name_what_went_wrong() {
    let cases = vec![
        (DiagnosticKind::DuplicateDeclaration("Point".to_string()), "duplicate declaration of Point"),
        (DiagnosticKind::UnresolvedName("origin".to_string()), "unresolved name origin"),
        (DiagnosticKind::UnknownFunction("make".to_string()), "unknown function make"),
        (
            DiagnosticKind::ArityMismatch { callee: "f".to_string(), expected: 2, found: 1 },
            "wrong number of arguments in call of f",
        ),
        (DiagnosticKind::MissingField("y".to_string()), "missing field y"),
        (DiagnosticKind::UnknownField("z".to_string()), "unknown field z"),
        (DiagnosticKind::DuplicateField("x".to_string()), "duplicate field x"),
        (DiagnosticKind::NoSuchField("Point".to_string(), "z".to_string()), "no field z in struct Point"),
        (DiagnosticKind::NotAStruct, "field access on a value that is not a struct"),
    ];
    for (kind, text) in cases {
        assert_eq!(kind.message(), text);
        let diagnostic = Diagnostic::new(kind, Location::new(1, 1));
        assert_eq!(diagnostic.message(), text);
    }
}

#[test]
fn clone_of_a_diagnostic_is_equal() {
    let d = at(3, 8, DiagnosticKind::NoSuchField("Point".to_string(), "z".to_string()));
    assert_eq!(d.clone(), d);
    let a = at(3, 8, DiagnosticKind::ArityMismatch { callee: "f".to_string(), expected: 0, found: 3 });
    assert_eq!(a.clone(), a);
}
