use compiletest::argument::{carries_flag, find_kind, read_argument, split_pair, ArgValue, Pair};
use compiletest::catalog::{Catalog, ValueKind};
use compiletest::diagnostic::{
    error_count, Diagnostic, DiagnosticKind, DiagnosticSink, Location, Severity,
};
use compiletest::directive::{RawDirective, RevisionScope};
use compiletest::mode::{TestMode, TestSuite};
use compiletest::registry::{
    ArgGrammar, DirectiveSpec, KeySpec, ModeSet, PropertyField, Registry, ScopePolicy,
    SuiteFilter, SuiteSet,
};

fn rows(items: &[&str]) -> Vec<Vec<u8>> {
    items.iter().map(|s| s.as_bytes().to_vec()).collect()
}

fn directive(name: &str, args: &str) -> RawDirective {
    RawDirective {
        name: name.as_bytes().to_vec(),
        scope: RevisionScope::Base,
        raw_args: args.as_bytes().to_vec(),
        location: Location { line: 3, column: 1 },
    }
}

#[test]
fn a_catalog_knows_what_was_added_to_it() {
    let mut catalog = Catalog::new();
    assert!(!catalog.is_valid_target(b"x86_64-unknown-linux-gnu"));
    assert!(catalog.accepts(ValueKind::Plain, b"anything"));
    catalog.add(ValueKind::Target, b"x86_64-unknown-linux-gnu".to_vec());
    catalog.add(ValueKind::Architecture, b"x86_64".to_vec());
    catalog.add(ValueKind::OperatingSystem, b"linux".to_vec());
    catalog.add(ValueKind::Vendor, b"unknown".to_vec());
    catalog.add(ValueKind::Plain, b"ignored".to_vec());
    catalog.reserve(b"unix".to_vec());
    assert!(catalog.is_valid_target(b"x86_64-unknown-linux-gnu"));
    assert!(!catalog.is_valid_target(b"x86_64"));
    assert!(catalog.is_valid_arch(b"x86_64"));
    assert!(!catalog.is_valid_arch(b"linux"));
    assert!(catalog.is_valid_os(b"linux"));
    assert!(!catalog.is_valid_os(b"unknown"));
    assert!(catalog.is_valid_vendor(b"unknown"));
    assert!(!catalog.is_valid_vendor(b"ignored"));
    assert!(catalog.is_reserved_revision_name(b"unix"));
    assert!(!catalog.is_reserved_revision_name(b"linux"));
    assert!(catalog.accepts(ValueKind::Vendor, b"unknown"));
    assert!(!catalog.accepts(ValueKind::Vendor, b"linux"));
}

#[test]
fn the_standard_catalog_lists_platforms_and_reserved_names() {
    let catalog = Catalog::standard();
    assert!(catalog.is_valid_target(b"thumbv8m.main-none-eabi"));
    assert!(catalog.is_valid_target(b"x86_64-pc-windows-msvc"));
    assert!(!catalog.is_valid_target(b"x86_64-pc-windows"));
    assert!(catalog.is_valid_arch(b"aarch64"));
    assert!(catalog.is_valid_os(b"windows"));
    assert!(catalog.is_valid_vendor(b"apple"));
    for name in ["true", "false", "unix", "windows", "test", "debug_assertions", "miri"] {
        assert!(catalog.is_reserved_revision_name(name.as_bytes()));
    }
    assert!(!catalog.is_reserved_revision_name(b"current"));
    assert_eq!(catalog.nearest(ValueKind::OperatingSystem, b"linus"), Some(b"linux".to_vec()));
    assert_eq!(catalog.nearest(ValueKind::OperatingSystem, b"plan9"), None);
    assert_eq!(catalog.nearest(ValueKind::Plain, b"linux"), None);
    assert_eq!(
        catalog.nearest(ValueKind::Target, b"x86_64-unknown-linux-gnux"),
        Some(b"x86_64-unknown-linux-gnu".to_vec())
    );
}

#[test]
fn sets_of_modes_and_suites_hold_what_was_put_in() {
    let modes = ModeSet::none().with(TestMode::Ui).with(TestMode::Assembly);
    assert!(modes.contains(TestMode::Ui));
    assert!(modes.contains(TestMode::Assembly));
    assert!(!modes.contains(TestMode::RunMake));
    assert!(!modes.contains(TestMode::Codegen));
    assert!(ModeSet::all().contains(TestMode::RunMake));
    assert!(!ModeSet::none().contains(TestMode::Ui));
    let suites = SuiteSet::none().with(TestSuite::UiFulldeps);
    assert!(suites.contains(TestSuite::UiFulldeps));
    assert!(!suites.contains(TestSuite::Ui));
    assert!(!suites.contains(TestSuite::Codegen));
}

#[test]
fn an_entry_is_built_step_by_step() {
    let entry = DirectiveSpec::new(
        b"needs-sysroot".to_vec(),
        ArgGrammar::Flag,
        ModeSet::none().with(TestMode::Ui),
        PropertyField::CompileFlags,
    );
    assert_eq!(entry.allowed_suites, SuiteFilter::AllInMode);
    assert_eq!(entry.policy, ScopePolicy::Either);
    assert!(entry.applies_to(TestSuite::Ui));
    assert!(entry.applies_to(TestSuite::UiFulldeps));
    assert!(!entry.applies_to(TestSuite::Codegen));
    let entry = entry
        .within(SuiteSet::none().with(TestSuite::UiFulldeps).with(TestSuite::Codegen))
        .scoped(ScopePolicy::RevisionOnly)
        .excluding(b"other".to_vec())
        .banning(TestMode::Ui, b"-Z x".to_vec());
    assert!(!entry.applies_to(TestSuite::Ui));
    assert!(entry.applies_to(TestSuite::UiFulldeps));
    // the suite is in the set, its mode is not allowed
    assert!(!entry.applies_to(TestSuite::Codegen));
    assert_eq!(entry.policy, ScopePolicy::RevisionOnly);
    assert_eq!(entry.excludes, rows(&["other"]));
    assert_eq!(entry.banned_under.len(), 1);
    assert_eq!(entry.banned_under[0].mode, TestMode::Ui);
    assert_eq!(entry.banned_under[0].flag, b"-Z x".to_vec());
    assert_eq!(entry.name, b"needs-sysroot".to_vec());
}

#[test]
fn a_registry_keeps_the_first_entry_of_a_name() {
    let mut registry = Registry::new();
    assert_eq!(registry.len(), 0);
    assert_eq!(registry.find(b"a"), None);
    let first = DirectiveSpec::new(
        b"a".to_vec(),
        ArgGrammar::Flag,
        ModeSet::all(),
        PropertyField::Expectation,
    );
    let second = DirectiveSpec::new(
        b"a".to_vec(),
        ArgGrammar::Text(ValueKind::Plain),
        ModeSet::none().with(TestMode::Ui),
        PropertyField::CompileFlags,
    );
    let third = DirectiveSpec::new(
        b"b".to_vec(),
        ArgGrammar::List(ValueKind::Plain),
        ModeSet::none().with(TestMode::Ui),
        PropertyField::Revisions,
    );
    assert!(registry.register(first.clone()));
    assert!(!registry.register(second));
    assert!(registry.register(third.clone()));
    assert_eq!(registry.len(), 2);
    assert_eq!(registry.find(b"a"), Some(0));
    assert_eq!(registry.find(b"b"), Some(1));
    assert_eq!(registry.find(b"c"), None);
    assert_eq!(registry.lookup(b"a"), Some(&first));
    assert_eq!(registry.lookup(b"c"), None);
    assert_eq!(registry.entry(1), Some(&third));
    assert_eq!(registry.entry(2), None);
    assert_eq!(registry.names(), rows(&["a", "b"]));
    assert_eq!(registry.specs_for_mode(TestMode::RunMake), vec![&first]);
    assert_eq!(registry.specs_for_mode(TestMode::Ui), vec![&first, &third]);
}

#[test]
fn the_standard_registry_holds_the_known_directives() {
    let registry = Registry::standard();
    assert_eq!(
        registry.names(),
        rows(&[
            "revisions",
            "check-pass",
            "build-pass",
            "run-pass",
            "check-fail",
            "build-fail",
            "run-fail",
            "compile-flags",
            "cross-compile-target",
            "ignore",
            "skip-compare-mode",
            "references",
        ])
    );
    let revisions = registry.lookup(b"revisions").unwrap();
    assert_eq!(revisions.policy, ScopePolicy::BaseOnly);
    assert_eq!(revisions.field, PropertyField::Revisions);
    assert_eq!(revisions.grammar, ArgGrammar::List(ValueKind::Plain));
    let check_pass = registry.lookup(b"check-pass").unwrap();
    assert_eq!(
        check_pass.excludes,
        rows(&["build-pass", "run-pass", "check-fail", "build-fail", "run-fail"])
    );
    assert!(!check_pass.allowed_modes.contains(TestMode::Codegen));
    let flags = registry.lookup(b"compile-flags").unwrap();
    assert!(!flags.allowed_modes.contains(TestMode::RunMake));
    assert_eq!(flags.banned_under.len(), 4);
    assert_eq!(flags.banned_under[0].flag, b"-C incremental".to_vec());
    assert_eq!(flags.banned_under[0].mode, TestMode::Ui);
    let references = registry.lookup(b"references").unwrap();
    assert_eq!(references.grammar, ArgGrammar::KeyValue { keys: vec![], open: true });
    assert_eq!(registry.specs_for_mode(TestMode::RunMake).len(), 4);
}

#[test]
fn a_flag_is_carried_as_a_word_of_its_own() {
    assert!(carries_flag(b"-C incremental", b"-C incremental"));
    assert!(carries_flag(b"-O -C incremental=dir", b"-C incremental"));
    assert!(carries_flag(b"-C incremental -O", b"-C incremental"));
    assert!(carries_flag(b"--target=x", b"--target"));
    assert!(!carries_flag(b"-C incremental-x", b"-C incremental"));
    assert!(!carries_flag(b"x-C incremental", b"-C incremental"));
    assert!(!carries_flag(b"-C inc", b"-C incremental"));
    assert!(!carries_flag(b"", b"-O"));
    assert!(carries_flag(b"", b""));
    assert!(carries_flag(b"anything", b""));
}

#[test]
fn a_pair_is_a_key_an_equals_sign_and_a_value() {
    assert_eq!(
        split_pair(b" os = linux "),
        Some(Pair { key: b"os".to_vec(), value: b"linux".to_vec() })
    );
    assert_eq!(
        split_pair(b"reason=a = b"),
        Some(Pair { key: b"reason".to_vec(), value: b"a = b".to_vec() })
    );
    assert_eq!(split_pair(b"key="), Some(Pair { key: b"key".to_vec(), value: vec![] }));
    assert_eq!(split_pair(b"= value"), None);
    assert_eq!(split_pair(b"no sign"), None);
    assert_eq!(split_pair(b""), None);
}

#[test]
fn the_kind_of_a_key_is_that_of_its_first_listing() {
    let keys = vec![
        KeySpec { key: b"os".to_vec(), kind: ValueKind::OperatingSystem },
        KeySpec { key: b"os".to_vec(), kind: ValueKind::Plain },
        KeySpec { key: b"arch".to_vec(), kind: ValueKind::Architecture },
    ];
    assert_eq!(find_kind(&keys, false, b"os"), Some(ValueKind::OperatingSystem));
    assert_eq!(find_kind(&keys, false, b"arch"), Some(ValueKind::Architecture));
    assert_eq!(find_kind(&keys, false, b"vendor"), None);
    assert_eq!(find_kind(&keys, true, b"vendor"), Some(ValueKind::Plain));
    assert_eq!(find_kind(&keys, true, b"arch"), Some(ValueKind::Architecture));
}

fn kinds(found: &[Diagnostic]) -> Vec<DiagnosticKind> {
    found.iter().map(|d| d.kind).collect()
}

#[test]
fn an_argument_is_read_by_its_grammar() {
    let catalog = Catalog::standard();
    let (value, found) = read_argument(&directive("run-pass", ""), &ArgGrammar::Flag, &catalog);
    assert_eq!(value, ArgValue::Flag);
    assert_eq!(found, vec![]);
    assert_eq!(value.strings(b"run-pass"), rows(&["run-pass"]));

    let (value, found) = read_argument(&directive("run-pass", "x"), &ArgGrammar::Flag, &catalog);
    assert_eq!(value, ArgValue::Flag);
    assert_eq!(kinds(&found), vec![DiagnosticKind::UnexpectedArgument]);
    assert_eq!(found[0].message, b"directive `run-pass` takes no argument".to_vec());
    assert_eq!(found[0].location, Location { line: 3, column: 1 });

    let text = ArgGrammar::Text(ValueKind::Target);
    let (value, found) = read_argument(&directive("t", "wasm32-unknown-unknown"), &text, &catalog);
    assert_eq!(value, ArgValue::Text(b"wasm32-unknown-unknown".to_vec()));
    assert_eq!(found, vec![]);
    assert_eq!(value.strings(b"t"), rows(&["wasm32-unknown-unknown"]));
    assert_eq!(value.pairs(), vec![]);

    let (_, found) = read_argument(&directive("t", ""), &text, &catalog);
    assert_eq!(kinds(&found), vec![DiagnosticKind::MissingArgument]);
    assert_eq!(found[0].message, b"directive `t` needs an argument".to_vec());

    let (_, found) = read_argument(&directive("t", "wasm32-unknown-unknow"), &text, &catalog);
    assert_eq!(kinds(&found), vec![DiagnosticKind::UnknownPlatform]);
    assert_eq!(found[0].message, b"unknown target `wasm32-unknown-unknow`".to_vec());
    assert_eq!(found[0].suggestion, Some(b"wasm32-unknown-unknown".to_vec()));
    assert_eq!(found[0].severity, Severity::Error);

    let list = ArgGrammar::List(ValueKind::Architecture);
    let (value, found) = read_argument(&directive("l", " x86  mips arm sparc"), &list, &catalog);
    assert_eq!(value, ArgValue::List(rows(&["x86", "mips", "arm", "sparc"])));
    assert_eq!(value.strings(b"l"), rows(&["x86", "mips", "arm", "sparc"]));
    assert_eq!(kinds(&found), vec![DiagnosticKind::UnknownPlatform; 2]);
    assert_eq!(found[0].message, b"unknown architecture `mips`".to_vec());
    assert_eq!(found[1].message, b"unknown architecture `sparc`".to_vec());
    assert_eq!(found[1].suggestion, None);
}

#[test]
fn pairs_are_read_piece_by_piece() {
    let catalog = Catalog::standard();
    let registry = Registry::standard();
    let grammar = &registry.lookup(b"ignore").unwrap().grammar;
    let d = directive("ignore", "os = linux, vendor = ibm, oops, colour = red, reason = slow");
    let (value, found) = read_argument(&d, grammar, &catalog);
    assert_eq!(
        value,
        ArgValue::Pairs(vec![
            Pair { key: b"os".to_vec(), value: b"linux".to_vec() },
            Pair { key: b"vendor".to_vec(), value: b"ibm".to_vec() },
            Pair { key: b"colour".to_vec(), value: b"red".to_vec() },
            Pair { key: b"reason".to_vec(), value: b"slow".to_vec() },
        ])
    );
    assert_eq!(value.strings(b"ignore"), rows(&["linux", "ibm", "red", "slow"]));
    assert_eq!(value.pairs().len(), 4);
    assert_eq!(
        kinds(&found),
        vec![
            DiagnosticKind::UnknownPlatform,
            DiagnosticKind::MalformedPair,
            DiagnosticKind::UnknownKey
        ]
    );
    assert_eq!(found[0].message, b"unknown vendor `ibm`".to_vec());
    assert_eq!(found[1].message, b"`oops` is not of the form key = value".to_vec());
    assert_eq!(found[2].message, b"directive `ignore` has no key `colour`".to_vec());
    assert_eq!(found[2].suggestion, None);

    let (_, found) = read_argument(&directive("ignore", "oss = linux"), grammar, &catalog);
    assert_eq!(kinds(&found), vec![DiagnosticKind::UnknownKey]);
    assert_eq!(found[0].suggestion, Some(b"os".to_vec()));

    let (value, found) = read_argument(&directive("ignore", "  "), grammar, &catalog);
    assert_eq!(value, ArgValue::Pairs(vec![]));
    assert_eq!(found, vec![]);

    let open = &registry.lookup(b"references").unwrap().grammar;
    let (value, found) = read_argument(&directive("references", "fls = a_1, spec=x"), open, &catalog);
    assert_eq!(found, vec![]);
    assert_eq!(value.pairs().len(), 2);
}

fn diagnostic(kind: DiagnosticKind, line: usize, column: usize, text: &str) -> Diagnostic {
    Diagnostic::new(kind, Location { line, column }, text.as_bytes().to_vec(), None)
}

#[test]
fn the_severity_follows_the_kind() {
    assert_eq!(DiagnosticKind::Redundant.severity(), Severity::Warning);
    assert_eq!(DiagnosticKind::UnknownDirective.severity(), Severity::Error);
    assert_eq!(DiagnosticKind::MalformedRevision.severity(), Severity::Error);
    let warning = diagnostic(DiagnosticKind::Redundant, 1, 1, "w");
    assert_eq!(warning.severity, Severity::Warning);
    assert!(!warning.is_error());
    assert!(diagnostic(DiagnosticKind::BannedFlag, 1, 1, "e").is_error());
}

#[test]
fn locations_are_ordered_by_line_then_column() {
    let at = |line, column| Location { line, column };
    assert!(at(2, 1).is_after(at(1, 9)));
    assert!(at(2, 3).is_after(at(2, 2)));
    assert!(!at(2, 2).is_after(at(2, 2)));
    assert!(!at(1, 9).is_after(at(2, 1)));
}

#[test]
fn a_sink_keeps_source_order_and_reporting_order_within_a_place() {
    let mut sink = DiagnosticSink::new();
    assert!(!sink.has_errors());
    sink.report(diagnostic(DiagnosticKind::Redundant, 5, 1, "a"));
    assert!(!sink.has_errors());
    sink.report(diagnostic(DiagnosticKind::EmptyName, 2, 4, "b"));
    sink.report_all(vec![
        diagnostic(DiagnosticKind::BannedFlag, 5, 1, "c"),
        diagnostic(DiagnosticKind::BannedFlag, 2, 1, "d"),
        diagnostic(DiagnosticKind::Redundant, 9, 1, "e"),
        diagnostic(DiagnosticKind::UnknownKey, 5, 1, "f"),
    ]);
    assert!(sink.has_errors());
    let texts: Vec<Vec<u8>> = sink.diagnostics().iter().map(|d| d.message.clone()).collect();
    assert_eq!(texts, rows(&["d", "b", "a", "c", "f", "e"]));
    let all = sink.into_diagnostics();
    assert_eq!(all.len(), 6);
    assert_eq!(error_count(&all), 4);
    assert_eq!(error_count(&vec![]), 0);
}
