use compiletest::catalog::{Catalog, ValueKind};
use compiletest::diagnostic::{Diagnostic, DiagnosticKind, Severity};
use compiletest::lower::{lower, make_rule, settings_of, TestProperties};
use compiletest::argument::{ArgValue, Pair};
use compiletest::directive::RevisionScope;
use compiletest::mode::{TestMode, TestSuite};
use compiletest::parser::parse_lines;
use compiletest::pipeline::{process, FileReport};
use compiletest::registry::{
    ArgGrammar, DirectiveSpec, ModeSet, PropertyField, Registry, ScopePolicy, SuiteSet,
};
use compiletest::scanner::scan;
use compiletest::validate::{declared_revisions, excludes, validate, ValidatedDirective};

fn rows(items: &[&str]) -> Vec<Vec<u8>> {
    items.iter().map(|s| s.as_bytes().to_vec()).collect()
}

fn check(text: &str, suite: TestSuite) -> (Vec<ValidatedDirective>, Vec<Diagnostic>) {
    let (directives, failures) = parse_lines(&scan(text.as_bytes()));
    assert_eq!(failures, vec![]);
    validate(&directives, suite, &Registry::standard(), &Catalog::standard())
}

fn kinds(found: &[Diagnostic]) -> Vec<DiagnosticKind> {
    found.iter().map(|d| d.kind).collect()
}

fn names(passed: &[ValidatedDirective]) -> Vec<Vec<u8>> {
    passed.iter().map(|v| v.raw().name.clone()).collect()
}

#[test]
fn a_directive_outside_its_modes_is_not_applicable() {
    let (passed, found) = check("//@ compile-flags: -O\n//@ check-pass\n", TestSuite::RunMake);
    assert_eq!(kinds(&found), vec![DiagnosticKind::NotApplicable; 2]);
    assert_eq!(
        found[0].message,
        b"directive `compile-flags` is not available in test suite `run-make`".to_vec()
    );
    assert_eq!(found[0].location.line, 1);
    assert_eq!(found[1].location.line, 2);
    assert_eq!(passed.len(), 0);
}

#[test]
fn a_directive_outside_its_suites_is_not_applicable() {
    let mut registry = Registry::new();
    registry.register(
        DirectiveSpec::new(
            b"needs-sysroot".to_vec(),
            ArgGrammar::Flag,
            ModeSet::none().with(TestMode::Ui),
            PropertyField::CompileFlags,
        )
        .within(SuiteSet::none().with(TestSuite::UiFulldeps)),
    );
    let (directives, _) = parse_lines(&scan(b"//@ needs-sysroot\n"));
    let catalog = Catalog::new();
    let (passed, found) = validate(&directives, TestSuite::UiFulldeps, &registry, &catalog);
    assert_eq!(found, vec![]);
    assert_eq!(passed.len(), 1);
    let (passed, found) = validate(&directives, TestSuite::Ui, &registry, &catalog);
    assert_eq!(kinds(&found), vec![DiagnosticKind::NotApplicable]);
    assert_eq!(
        found[0].message,
        b"directive `needs-sysroot` is not available in test suite `ui`".to_vec()
    );
    assert_eq!(passed.len(), 0);
}

#[test]
fn revisions_in_a_mode_without_them_are_one_error_each() {
    let (passed, found) = check(
        "//@ revisions: a b\n//@[a] ignore: os = linux\n//@[zz] references: k = v\n//@ revisions:\n",
        TestSuite::RunMake,
    );
    assert_eq!(kinds(&found), vec![DiagnosticKind::RevisionsUnsupported; 3]);
    assert_eq!(found[0].location.line, 1);
    assert_eq!(found[1].location.line, 2);
    assert_eq!(found[2].location.line, 3);
    // a declaration of no revision uses none
    assert_eq!(names(&passed), rows(&["revisions"]));
    assert_eq!(passed[0].raw().location.line, 4);
}

#[test]
fn a_scope_against_the_policy_is_an_error() {
    let (passed, found) = check("//@ revisions: a\n//@[a] references: k = v\n", TestSuite::Ui);
    assert_eq!(kinds(&found), vec![DiagnosticKind::ScopeNotAllowed]);
    assert_eq!(
        found[0].message,
        b"directive `references` must not be scoped to a revision".to_vec()
    );
    assert_eq!(names(&passed), rows(&["revisions"]));

    let mut registry = Registry::new();
    registry.register(
        DirectiveSpec::new(
            b"only-here".to_vec(),
            ArgGrammar::Flag,
            ModeSet::all(),
            PropertyField::Expectation,
        )
        .scoped(ScopePolicy::RevisionOnly),
    );
    let (directives, _) = parse_lines(&scan(b"//@ only-here\n"));
    let (_, found) = validate(&directives, TestSuite::Ui, &registry, &Catalog::new());
    assert_eq!(kinds(&found), vec![DiagnosticKind::ScopeNotAllowed]);
    assert_eq!(found[0].message, b"directive `only-here` must be scoped to a revision".to_vec());
}

#[test]
fn a_scope_that_names_no_declared_revision_is_an_error() {
    let (passed, found) = check(
        "//@[next] compile-flags: -O\n//@ revisions: current nexx\n//@[current] compile-flags: -O\n",
        TestSuite::Ui,
    );
    assert_eq!(kinds(&found), vec![DiagnosticKind::UnknownRevision]);
    assert_eq!(found[0].message, b"revision `next` is not declared".to_vec());
    assert_eq!(found[0].suggestion, Some(b"nexx".to_vec()));
    assert_eq!(found[0].location.line, 1);
    assert_eq!(names(&passed), rows(&["revisions", "compile-flags"]));

    // a scoped declaration declares nothing, and breaks the policy
    let (_, found) = check("//@[a] revisions: a\n", TestSuite::Ui);
    assert_eq!(
        kinds(&found),
        vec![DiagnosticKind::ScopeNotAllowed, DiagnosticKind::UnknownRevision]
    );
}

#[test]
fn every_reserved_name_among_the_revisions_is_an_error() {
    let (passed, found) = check("//@ revisions: a test b windows\n", TestSuite::Codegen);
    assert_eq!(kinds(&found), vec![DiagnosticKind::ReservedRevisionName; 2]);
    assert_eq!(
        found[0].message,
        b"revision name `test` is reserved for a built-in configuration predicate".to_vec()
    );
    assert_eq!(
        found[1].message,
        b"revision name `windows` is reserved for a built-in configuration predicate".to_vec()
    );
    assert_eq!(passed.len(), 0);
}

#[test]
fn every_clash_with_an_earlier_directive_is_an_error() {
    let (passed, found) = check("//@ run-fail\n//@ check-pass\n//@ build-pass\n", TestSuite::Ui);
    assert_eq!(kinds(&found), vec![DiagnosticKind::MutuallyExclusive; 3]);
    assert_eq!(
        found[0].message,
        b"directive `check-pass` and directive `run-fail` exclude each other".to_vec()
    );
    assert_eq!(found[0].location.line, 2);
    assert_eq!(
        found[1].message,
        b"directive `build-pass` and directive `run-fail` exclude each other".to_vec()
    );
    assert_eq!(
        found[2].message,
        b"directive `build-pass` and directive `check-pass` exclude each other".to_vec()
    );
    assert_eq!(found[2].location.line, 3);
    assert_eq!(names(&passed), rows(&["run-fail"]));
}

#[test]
fn the_base_scope_clashes_with_every_revision() {
    let (_, found) = check(
        "//@ revisions: a b\n//@[a] check-pass\n//@ run-pass\n//@[b] check-fail\n",
        TestSuite::Ui,
    );
    assert_eq!(kinds(&found), vec![DiagnosticKind::MutuallyExclusive; 2]);
    assert_eq!(found[0].location.line, 3);
    assert_eq!(found[1].location.line, 4);
    assert_eq!(
        found[1].message,
        b"directive `check-fail` and directive `run-pass` exclude each other".to_vec()
    );
}

#[test]
fn exclusion_holds_whichever_entry_declares_it() {
    let registry = Registry::standard();
    assert!(excludes(&registry, b"check-pass", b"run-fail"));
    assert!(excludes(&registry, b"run-fail", b"check-pass"));
    assert!(!excludes(&registry, b"run-fail", b"run-fail"));
    assert!(!excludes(&registry, b"run-fail", b"compile-flags"));
    assert!(!excludes(&registry, b"nothing", b"run-fail"));
}

#[test]
fn a_banned_flag_is_an_error_under_its_mode_only() {
    let text = "//@ compile-flags: --target=wasm32-unknown-unknown\n//@ compile-flags: -C incremental=x\n";
    let (_, found) = check(text, TestSuite::Ui);
    assert_eq!(kinds(&found), vec![DiagnosticKind::BannedFlag; 2]);
    assert_eq!(found[0].message, b"flag `--target` is banned under test mode `ui`".to_vec());
    assert_eq!(found[1].message, b"flag `-C incremental` is banned under test mode `ui`".to_vec());
    let (passed, found) = check(text, TestSuite::Assembly);
    assert_eq!(kinds(&found), vec![DiagnosticKind::BannedFlag]);
    assert_eq!(found[0].message, b"flag `--target` is banned under test mode `assembly`".to_vec());
    assert_eq!(passed.len(), 1);
}

#[test]
fn a_ban_without_a_flag_bans_the_directive() {
    let mut registry = Registry::new();
    registry.register(
        DirectiveSpec::new(
            b"old-style".to_vec(),
            ArgGrammar::Text(ValueKind::Plain),
            ModeSet::all(),
            PropertyField::CompileFlags,
        )
        .banning(TestMode::Codegen, vec![]),
    );
    let (directives, _) = parse_lines(&scan(b"//@ old-style: x\n"));
    let catalog = Catalog::new();
    let (_, found) = validate(&directives, TestSuite::Codegen, &registry, &catalog);
    assert_eq!(kinds(&found), vec![DiagnosticKind::BannedFlag]);
    assert_eq!(
        found[0].message,
        b"directive `old-style` is banned under test mode `codegen`".to_vec()
    );
    let (_, found) = validate(&directives, TestSuite::Ui, &registry, &catalog);
    assert_eq!(found, vec![]);
}

#[test]
fn an_unknown_target_is_an_error_with_a_suggestion() {
    let (passed, found) = check("//@ cross-compile-target: x86_64-apple-darwim\n", TestSuite::RunMake);
    assert_eq!(kinds(&found), vec![DiagnosticKind::UnknownPlatform]);
    assert_eq!(found[0].message, b"unknown target `x86_64-apple-darwim`".to_vec());
    assert_eq!(found[0].suggestion, Some(b"x86_64-apple-darwin".to_vec()));
    assert_eq!(found[0].severity, Severity::Error);
    assert_eq!(passed.len(), 0);
}

#[test]
fn checks_do_not_stop_at_the_first_finding() {
    let (passed, found) = check(
        "//@ nonsense\n//@[q] check-pass: now\n//@ check-pass\n//@ ignore: weather = fine\n//@ nonsense\n",
        TestSuite::Codegen,
    );
    assert_eq!(
        kinds(&found),
        vec![
            DiagnosticKind::UnknownDirective,
            DiagnosticKind::NotApplicable,
            DiagnosticKind::UnknownRevision,
            DiagnosticKind::UnexpectedArgument,
            DiagnosticKind::NotApplicable,
            DiagnosticKind::UnknownKey,
            DiagnosticKind::UnknownDirective,
            DiagnosticKind::Redundant,
        ]
    );
    assert_eq!(found[7].severity, Severity::Warning);
    assert_eq!(found[7].message, b"directive `nonsense` repeats an earlier one".to_vec());
    assert_eq!(found[0].suggestion, None);
    assert_eq!(passed.len(), 0);
}

#[test]
fn an_accepted_directive_has_its_entry_and_its_typed_value() {
    let (passed, found) = check("//@ revisions: a b\n//@[b] compile-flags: -O\n", TestSuite::Ui);
    assert_eq!(found, vec![]);
    assert_eq!(passed.len(), 2);
    assert_eq!(passed[0].entry(), 0);
    assert_eq!(passed[0].field(), PropertyField::Revisions);
    assert_eq!(passed[0].value(), &ArgValue::List(rows(&["a", "b"])));
    assert_eq!(passed[1].entry(), 7);
    assert_eq!(passed[1].field(), PropertyField::CompileFlags);
    assert_eq!(passed[1].value(), &ArgValue::Text(b"-O".to_vec()));
    assert_eq!(passed[1].raw().scope, RevisionScope::Revision(b"b".to_vec()));
}

#[test]
fn revisions_are_declared_in_the_base_scope_only() {
    let (directives, _) =
        parse_lines(&scan(b"//@ revisions: a b\n//@[a] revisions: c\n//@ compile-flags: d\n//@ revisions: e\n"));
    let declared =
        declared_revisions(&directives, TestSuite::Ui, &Registry::standard(), &Catalog::standard());
    assert_eq!(declared, rows(&["a", "b", "e"]));
}

#[test]
fn an_ignore_rule_splits_conditions_from_the_reason() {
    let pair = |k: &str, v: &str| Pair { key: k.as_bytes().to_vec(), value: v.as_bytes().to_vec() };
    let rule = make_rule(&vec![
        pair("os", "linux"),
        pair("reason", "first"),
        pair("arch", "arm"),
        pair("reason", "second"),
    ]);
    assert_eq!(rule.conditions, vec![pair("os", "linux"), pair("arch", "arm")]);
    assert_eq!(rule.reason, Some(b"first".to_vec()));
    let rule = make_rule(&vec![]);
    assert_eq!(rule.conditions, vec![]);
    assert_eq!(rule.reason, None);
}

const MERGED: &str = "\
//@ revisions: x y
//@ compile-flags: -O
//@ cross-compile-target: x86_64-apple-darwin
//@[y] cross-compile-target: aarch64-apple-darwin
//@[x] compile-flags: -g
//@ compile-flags: -W
//@[y] skip-compare-mode: polonius next-solver
//@ skip-compare-mode: split-dwarf
//@ references: fls = a_1, spec = s.2
//@[y] ignore: vendor = pc
//@[x] check-pass
//@[y] run-fail
";

#[test]
fn lists_grow_and_single_values_are_overridden() {
    let (passed, found) = check(MERGED, TestSuite::Ui);
    assert_eq!(found, vec![]);
    let lowered = lower(&passed, TestMode::Ui);
    assert_eq!(lowered.len(), 2);
    let (x, y) = match (&lowered[0], &lowered[1]) {
        (TestProperties::Ui(x), TestProperties::Ui(y)) => (x, y),
        other => panic!("not ui properties: {:?}", other),
    };
    assert_eq!(x.revision, Some(b"x".to_vec()));
    assert_eq!(y.revision, Some(b"y".to_vec()));
    assert_eq!(x.revisions, rows(&["x", "y"]));
    // base flags first, in source order, then those of the revision
    assert_eq!(x.compile_flags, rows(&["-O", "-W", "-g"]));
    assert_eq!(y.compile_flags, rows(&["-O", "-W"]));
    assert_eq!(x.cross_compile_target, Some(b"x86_64-apple-darwin".to_vec()));
    assert_eq!(y.cross_compile_target, Some(b"aarch64-apple-darwin".to_vec()));
    assert_eq!(x.compare_mode_exclusions, rows(&["split-dwarf"]));
    assert_eq!(y.compare_mode_exclusions, rows(&["split-dwarf", "polonius", "next-solver"]));
    assert_eq!(x.expectation, Some(b"check-pass".to_vec()));
    assert_eq!(y.expectation, Some(b"run-fail".to_vec()));
    assert_eq!(x.ignore_rules, vec![]);
    assert_eq!(y.ignore_rules.len(), 1);
    assert_eq!(y.ignore_rules[0].reason, None);
    assert_eq!(x.references.len(), 2);
    assert_eq!(x.references[1].key, b"spec".to_vec());
    assert_eq!(x.references[1].value, b"s.2".to_vec());
    assert_eq!(x.references, y.references);
}

#[test]
fn the_settings_of_no_revision_hold_the_base_scope_alone() {
    let (passed, _) = check(MERGED, TestSuite::Ui);
    let settings = settings_of(&passed, None);
    assert_eq!(settings.revision, None);
    assert_eq!(settings.compile_flags, rows(&["-O", "-W"]));
    assert_eq!(settings.expectation, None);
    assert_eq!(settings.cross_compile_target, Some(b"x86_64-apple-darwin".to_vec()));
    let settings = settings_of(&passed, Some(b"undeclared".to_vec()));
    assert_eq!(settings.revision, Some(b"undeclared".to_vec()));
    assert_eq!(settings.compile_flags, rows(&["-O", "-W"]));
}

#[test]
fn each_mode_keeps_only_its_own_properties() {
    let text = "//@ cross-compile-target: wasm32-unknown-unknown\n//@ ignore: os = none, reason = no std\n//@ references: k = v\n";
    let (passed, found) = check(text, TestSuite::RunMake);
    assert_eq!(found, vec![]);
    match &lower(&passed, TestMode::RunMake)[..] {
        [TestProperties::RunMake(p)] => {
            assert_eq!(p.cross_compile_target, Some(b"wasm32-unknown-unknown".to_vec()));
            assert_eq!(p.ignore_rules.len(), 1);
            assert_eq!(p.ignore_rules[0].reason, Some(b"no std".to_vec()));
            assert_eq!(p.references.len(), 1);
        }
        other => panic!("not one set of run-make properties: {:?}", other),
    }
    match &lower(&passed, TestMode::Assembly)[..] {
        [TestProperties::Assembly(p)] => {
            assert_eq!(p.revision, None);
            assert_eq!(p.compile_flags, rows(&[]));
            assert_eq!(p.cross_compile_target, Some(b"wasm32-unknown-unknown".to_vec()));
        }
        other => panic!("not one set of assembly properties: {:?}", other),
    }
}

#[test]
fn a_mode_without_revisions_is_lowered_once_whatever_is_declared() {
    let (passed, _) = check("//@ revisions: a b\n", TestSuite::Ui);
    assert_eq!(lower(&passed, TestMode::Ui).len(), 2);
    assert_eq!(lower(&passed, TestMode::Codegen).len(), 2);
    assert_eq!(lower(&passed, TestMode::RunMake).len(), 1);
    assert_eq!(lower(&vec![], TestMode::Ui).len(), 1);
}

fn run(text: &str, suite: TestSuite) -> FileReport {
    process(text.as_bytes(), suite, &Registry::standard(), &Catalog::standard())
}

#[test]
fn diagnostics_of_parser_and_validator_come_in_source_order() {
    let report = run("//@ nonsense\n//@[\n//@ check-pass: x\n//@\n", TestSuite::Ui);
    let found: Vec<(usize, DiagnosticKind)> =
        report.diagnostics.iter().map(|d| (d.location.line, d.kind)).collect();
    assert_eq!(
        found,
        vec![
            (1, DiagnosticKind::UnknownDirective),
            (2, DiagnosticKind::MalformedRevision),
            (3, DiagnosticKind::UnexpectedArgument),
            (4, DiagnosticKind::EmptyDirective),
        ]
    );
    assert!(report.failed());
    assert_eq!(report.properties, vec![]);
    assert_eq!(report.mode, TestMode::Ui);
}

#[test]
fn a_file_without_directives_has_default_properties() {
    for text in ["", "fn main() {}\n", "// just a comment\n"] {
        let report = run(text, TestSuite::Codegen);
        assert_eq!(report.diagnostics, vec![]);
        assert_eq!(report.properties.len(), 1);
        assert_eq!(report.mode, TestMode::Codegen);
        assert!(!report.failed());
    }
}
