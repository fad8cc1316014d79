use compiletest::diagnostic::{DiagnosticKind, Location, Severity};
use compiletest::directive::{RawDirective, RevisionScope};
use compiletest::parser::{parse_line, parse_lines};
use compiletest::scanner::{classify_line, has_marker_at, scan, CandidateLine, LineKind, Scanner};

fn line(number: usize, text: &str) -> CandidateLine {
    CandidateLine { line: number, text: text.as_bytes().to_vec() }
}

#[test]
fn lines_are_classified_by_their_start() {
    assert_eq!(classify_line(b""), LineKind::Blank);
    assert_eq!(classify_line(b" \t\r"), LineKind::Blank);
    assert_eq!(classify_line(b"  //@ run-pass"), LineKind::Directive);
    assert_eq!(classify_line(b"//@"), LineKind::Directive);
    assert_eq!(classify_line(b"// a comment"), LineKind::Comment);
    assert_eq!(classify_line(b"//! docs"), LineKind::Comment);
    assert_eq!(classify_line(b"//"), LineKind::Comment);
    assert_eq!(classify_line(b"/ not a comment"), LineKind::Code);
    assert_eq!(classify_line(b"fn main() {} //@ run-pass"), LineKind::Code);
    assert!(has_marker_at(b"ab//@", 2));
    assert!(!has_marker_at(b"ab//@", 3));
    assert!(!has_marker_at(b"//", 0));
}

#[test]
fn only_the_leading_comment_block_is_scanned() {
    let text = "// header\n\n//@ run-pass\n  //@[a] compile-flags: -O\r\n//! docs\nfn main() {}\n//@ check-pass\n";
    assert_eq!(
        scan(text.as_bytes()),
        vec![line(3, "//@ run-pass"), line(4, "  //@[a] compile-flags: -O\r")]
    );
}

#[test]
fn a_text_without_a_final_line_break_is_scanned_to_its_end() {
    assert_eq!(scan(b"//@ a\n//@ b"), vec![line(1, "//@ a"), line(2, "//@ b")]);
    assert_eq!(scan(b""), vec![]);
    assert_eq!(scan(b"\n\n"), vec![]);
    assert_eq!(scan(b"fn main() {}\n//@ a\n"), vec![]);
}

#[test]
fn a_scanner_yields_line_by_line_and_can_start_again() {
    let text = b"//@ a\n// c\n//@ b\ncode\n//@ z\n";
    let mut scanner = Scanner::new(text);
    assert_eq!(scanner.next_line(), Some(line(1, "//@ a")));
    assert_eq!(scanner.next_line(), Some(line(3, "//@ b")));
    assert_eq!(scanner.next_line(), None);
    assert_eq!(scanner.next_line(), None);
    scanner.restart();
    assert_eq!(scanner.next_line(), Some(line(1, "//@ a")));
    scanner.restart();
    assert_eq!(scanner.next_line(), Some(line(1, "//@ a")));
    assert_eq!(scanner.next_line(), Some(line(3, "//@ b")));
    assert_eq!(scanner.next_line(), None);
}

fn parsed(text: &str) -> RawDirective {
    match parse_line(&line(7, text)) {
        Ok(d) => d,
        Err(e) => panic!("does not parse: {:?}", e),
    }
}

fn failure(text: &str) -> (DiagnosticKind, usize, Vec<u8>) {
    match parse_line(&line(7, text)) {
        Ok(d) => panic!("parses: {:?}", d),
        Err(e) => {
            assert_eq!(e.severity, Severity::Error);
            assert_eq!(e.location.line, 7);
            assert_eq!(e.suggestion, None);
            (e.kind, e.location.column, e.message)
        }
    }
}

#[test]
fn a_bare_name_is_a_directive_of_the_base_scope() {
    assert_eq!(
        parsed("//@ run-pass"),
        RawDirective {
            name: b"run-pass".to_vec(),
            scope: RevisionScope::Base,
            raw_args: vec![],
            location: Location { line: 7, column: 1 },
        }
    );
    assert_eq!(parsed("//@run-pass  ").name, b"run-pass".to_vec());
}

#[test]
fn the_argument_follows_a_colon_and_is_trimmed() {
    let d = parsed("   //@[next]  compile-flags :  -C opt-level=0 \r");
    assert_eq!(d.name, b"compile-flags".to_vec());
    assert_eq!(d.scope, RevisionScope::Revision(b"next".to_vec()));
    assert_eq!(d.raw_args, b"-C opt-level=0".to_vec());
    assert_eq!(d.location, Location { line: 7, column: 4 });
    assert_eq!(parsed("//@ revisions:").raw_args, Vec::<u8>::new());
    assert_eq!(parsed("//@ a:b:c").raw_args, b"b:c".to_vec());
    assert_eq!(parsed("//@ a:b:c").name, b"a".to_vec());
}

#[test]
fn a_bracket_after_a_blank_is_part_of_the_name() {
    let d = parsed("//@ [next] ");
    assert_eq!(d.name, b"[next]".to_vec());
    assert_eq!(d.scope, RevisionScope::Base);
}

#[test]
fn a_line_without_the_marker_is_rejected() {
    assert_eq!(
        failure("// run-pass"),
        (
            DiagnosticKind::MissingMarker,
            1,
            b"the line does not start with the directive marker".to_vec()
        )
    );
    assert_eq!(failure("").0, DiagnosticKind::MissingMarker);
}

#[test]
fn a_marker_followed_by_nothing_is_rejected() {
    assert_eq!(
        failure(" //@  "),
        (
            DiagnosticKind::EmptyDirective,
            2,
            b"the directive marker is followed by nothing".to_vec()
        )
    );
    assert_eq!(failure("//@").0, DiagnosticKind::EmptyDirective);
}

#[test]
fn a_directive_without_a_name_is_rejected() {
    assert_eq!(
        failure("//@ : -O"),
        (DiagnosticKind::EmptyName, 1, b"the directive has no name".to_vec())
    );
    assert_eq!(failure("//@[next]").0, DiagnosticKind::EmptyName);
    assert_eq!(failure("//@[next] :x").0, DiagnosticKind::EmptyName);
}

#[test]
fn a_malformed_revision_bracket_is_rejected() {
    let expected = (DiagnosticKind::MalformedRevision, 4, b"malformed revision bracket".to_vec());
    assert_eq!(failure("//@[next compile-flags: -O"), expected);
    assert_eq!(failure("//@[] compile-flags: -O"), expected);
    assert_eq!(failure("//@[a b] compile-flags: -O"), expected);
    assert_eq!(failure("//@["), expected);
}

#[test]
fn text_after_the_name_without_a_colon_is_rejected() {
    assert_eq!(
        failure("//@ ignore-test (too slow)"),
        (
            DiagnosticKind::TrailingText,
            17,
            b"unexpected text after the directive name `ignore-test`; an argument follows a colon"
                .to_vec()
        )
    );
}

#[test]
fn every_line_gives_a_directive_or_a_diagnostic() {
    let lines = vec![line(1, "//@ a"), line(2, "//@"), line(4, "//@[r] b: c"), line(5, "//@[")];
    let (directives, failures) = parse_lines(&lines);
    assert_eq!(directives.len(), 2);
    assert_eq!(directives[0].name, b"a".to_vec());
    assert_eq!(directives[1].name, b"b".to_vec());
    assert_eq!(directives[1].location.line, 4);
    assert_eq!(failures.len(), 2);
    assert_eq!(failures[0].kind, DiagnosticKind::EmptyDirective);
    assert_eq!(failures[0].location.line, 2);
    assert_eq!(failures[1].kind, DiagnosticKind::MalformedRevision);
    assert_eq!(failures[1].location.line, 5);
}
