use compiletest::catalog::Catalog;
use compiletest::diagnostic::{Diagnostic, DiagnosticKind, Severity};
use compiletest::lower::TestProperties;
use compiletest::mode::{TestMode, TestSuite};
use compiletest::pipeline::{process, run_failed, FileReport};
use compiletest::registry::Registry;

fn run(text: &str, suite: TestSuite) -> FileReport {
    process(text.as_bytes(), suite, &Registry::standard(), &Catalog::standard())
}

fn errors(report: &FileReport) -> Vec<&Diagnostic> {
    report.diagnostics.iter().filter(|d| d.severity == Severity::Error).collect()
}

fn rows(items: &[&str]) -> Vec<Vec<u8>> {
    items.iter().map(|s| s.as_bytes().to_vec()).collect()
}

const BOX_TEST: &str = "\
//@ run-pass
//@ revisions: current next
//@ ignore: compare-mode = next-solver, reason = explicit revisions
//@[current] compile-flags: -C opt-level=0
//@[next] compile-flags: -Znext-solver
//@[next] compile-flags: -C opt-level=0

#![allow(incomplete_features)]

fn main() {}
";

#[test]
fn two_revisions_get_their_own_flags_and_share_the_ignore_rule() {
    let report = run(BOX_TEST, TestSuite::Ui);
    assert_eq!(report.diagnostics, vec![]);
    assert_eq!(report.mode, TestMode::Ui);
    assert_eq!(report.properties.len(), 2);
    let (current, next) = match (&report.properties[0], &report.properties[1]) {
        (TestProperties::Ui(a), TestProperties::Ui(b)) => (a, b),
        other => panic!("not ui properties: {:?}", other),
    };
    assert_eq!(current.revision, Some(b"current".to_vec()));
    assert_eq!(next.revision, Some(b"next".to_vec()));
    assert_eq!(current.revisions, rows(&["current", "next"]));
    assert_eq!(current.compile_flags, rows(&["-C opt-level=0"]));
    assert_eq!(next.compile_flags, rows(&["-Znext-solver", "-C opt-level=0"]));
    assert_eq!(current.expectation, Some(b"run-pass".to_vec()));
    for p in [current, next] {
        assert_eq!(p.ignore_rules.len(), 1);
        let rule = &p.ignore_rules[0];
        assert_eq!(rule.conditions.len(), 1);
        assert_eq!(rule.conditions[0].key, b"compare-mode".to_vec());
        assert_eq!(rule.conditions[0].value, b"next-solver".to_vec());
        assert_eq!(rule.reason, Some(b"explicit revisions".to_vec()));
    }
}

#[test]
fn a_revision_scope_in_a_mode_without_revisions_is_one_error() {
    let report = run("//@[foo] ignore: os = linux\n", TestSuite::RunMake);
    let found = errors(&report);
    assert_eq!(found.len(), 1);
    assert_eq!(found[0].kind, DiagnosticKind::RevisionsUnsupported);
    assert_eq!(found[0].location.line, 1);
    assert_eq!(
        found[0].message,
        b"directive `ignore` uses revisions, which test mode `run-make` does not support".to_vec()
    );
    assert_eq!(report.properties.len(), 0);
    assert!(report.failed());
}

#[test]
fn incremental_compilation_is_banned_under_ui() {
    let report = run("// a ui test\n//@ compile-flags: -C incremental\n", TestSuite::Ui);
    let found = errors(&report);
    assert_eq!(found.len(), 1);
    assert_eq!(found[0].kind, DiagnosticKind::BannedFlag);
    assert_eq!(found[0].location.line, 2);
    assert_eq!(
        found[0].message,
        b"flag `-C incremental` is banned under test mode `ui`".to_vec()
    );
    assert_eq!(report.properties.len(), 0);
}

#[test]
fn incremental_compilation_is_allowed_under_codegen() {
    let report = run("//@ compile-flags: -C incremental\n", TestSuite::Codegen);
    assert_eq!(report.diagnostics, vec![]);
    match &report.properties[0] {
        TestProperties::Codegen(p) => {
            assert_eq!(p.compile_flags, rows(&["-C incremental"]));
            assert_eq!(p.revision, None);
        }
        other => panic!("not codegen properties: {:?}", other),
    }
}

#[test]
fn a_reserved_revision_name_is_one_error_and_stays_declared() {
    let report = run("//@ revisions: unix mine\n//@[unix] compile-flags: -O\n", TestSuite::Ui);
    let found = errors(&report);
    assert_eq!(found.len(), 1);
    assert_eq!(found[0].kind, DiagnosticKind::ReservedRevisionName);
    assert_eq!(found[0].location.line, 1);
    assert_eq!(found[0].location.column, 1);
    assert_eq!(
        found[0].message,
        b"revision name `unix` is reserved for a built-in configuration predicate".to_vec()
    );
}

#[test]
fn a_file_without_revisions_has_one_set_of_properties() {
    let report = run("//@ check-pass\n//@ compile-flags: -O\n\nfn main() {}\n", TestSuite::Ui);
    assert_eq!(report.diagnostics, vec![]);
    assert_eq!(report.properties.len(), 1);
    match &report.properties[0] {
        TestProperties::Ui(p) => {
            assert_eq!(p.revision, None);
            assert_eq!(p.revisions, rows(&[]));
            assert_eq!(p.compile_flags, rows(&["-O"]));
            assert_eq!(p.expectation, Some(b"check-pass".to_vec()));
        }
        other => panic!("not ui properties: {:?}", other),
    }
}

#[test]
fn mutually_exclusive_directives_are_one_error_in_either_order() {
    for text in ["//@ check-pass\n//@ run-pass\n", "//@ run-pass\n//@ check-pass\n"] {
        let report = run(text, TestSuite::Ui);
        let found = errors(&report);
        assert_eq!(found.len(), 1);
        assert_eq!(found[0].kind, DiagnosticKind::MutuallyExclusive);
        assert_eq!(found[0].location.line, 2);
    }
}

#[test]
fn exclusive_directives_in_different_revisions_do_not_clash() {
    let report = run(
        "//@ revisions: a b\n//@[a] check-pass\n//@[b] run-pass\n",
        TestSuite::Ui,
    );
    assert_eq!(report.diagnostics, vec![]);
    assert_eq!(report.properties.len(), 2);
}

#[test]
fn an_unknown_directive_is_an_error_at_its_line_with_a_suggestion() {
    let report = run("//@ check-pass\n\n//@ compile-flag: -O\n", TestSuite::Ui);
    let found = errors(&report);
    assert_eq!(found.len(), 1);
    assert_eq!(found[0].kind, DiagnosticKind::UnknownDirective);
    assert_eq!(found[0].location.line, 3);
    assert_eq!(found[0].message, b"unknown directive `compile-flag`".to_vec());
    assert_eq!(found[0].suggestion, Some(b"compile-flags".to_vec()));
}

#[test]
fn processing_twice_gives_the_same_report() {
    let text = "//@ revisions: a b\n//@[c] compile-flags: -O\n//@ nonsense\n//@ check-pass\n//@ check-pass\n";
    let first = run(text, TestSuite::Ui);
    let second = run(text, TestSuite::Ui);
    assert_eq!(first, second);
    assert_eq!(first.diagnostics.len(), 3);
}

#[test]
fn a_repeated_directive_is_a_warning_and_does_not_block_lowering() {
    let report = run("//@ compile-flags: -O\n//@ compile-flags: -O\n", TestSuite::Ui);
    assert_eq!(report.diagnostics.len(), 1);
    assert_eq!(report.diagnostics[0].severity, Severity::Warning);
    assert_eq!(report.diagnostics[0].kind, DiagnosticKind::Redundant);
    assert_eq!(report.diagnostics[0].location.line, 2);
    assert!(!report.failed());
    match &report.properties[0] {
        TestProperties::Ui(p) => assert_eq!(p.compile_flags, rows(&["-O", "-O"])),
        other => panic!("not ui properties: {:?}", other),
    }
}

#[test]
fn a_run_fails_when_one_file_has_an_error() {
    let good = run("//@ check-pass\n", TestSuite::Ui);
    let warned = run("//@ check-pass\n//@ check-pass\n", TestSuite::Ui);
    let bad = run("//@ nonsense\n", TestSuite::Ui);
    assert!(!run_failed(&vec![good.clone(), warned.clone()]));
    assert!(run_failed(&vec![good, warned, bad]));
    assert!(!run_failed(&vec![]));
}
