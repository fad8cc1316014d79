//! The parser: turns a candidate line into a directive.
//!
//! A directive line has the shape
//! `//@` `[revision]`? name (`:` argument)?
//! where the bracket, if there is one, follows the marker at once.  What the
//! argument means is left to validation.  A line that does not have this
//! shape yields a diagnostic and no directive; the lines after it are
//! parsed all the same.

use crate::diagnostic::{finding, make_phrase, phrase, Diagnostic, DiagnosticKind, DiagnosticView, Location};
use crate::directive::{RawDirective, RawDirectiveView, RevisionScope, ScopeView};
use crate::scanner::{has_marker_at, marker_at, CandidateLine, CandidateView};
use crate::text::{
    lemma_views_push, lit, literal, run_end, scan_run, trim, trimmed, views,
    ByteClass, CLOSE_BRACKET, COLON, OPEN_BRACKET,
};
use vstd::prelude::*;
use vstd::slice::{slice_subrange, slice_to_vec};

verus! {

/// The place in line `line` whose byte offset is `offset`.
pub open spec fn place(line: nat, offset: int) -> Location {
    Location { line: line as usize, column: (offset + 1) as usize }
}

/// Whether `name` can stand in a revision bracket: it is not empty and
/// holds no blank.
pub open spec fn is_revision_name(name: Seq<u8>) -> bool {
    name.len() > 0 && run_end(name, 0, ByteClass::Word) == name.len()
}

/// What the rest of a directive line parses to, once its marker at offset
/// `marker` and its scope are known; `from` is where the rest starts.
pub open spec fn parse_rest(c: CandidateView, marker: int, scope: ScopeView, from: int) -> Result<
    RawDirectiveView,
    DiagnosticView,
> {
    let s = c.text;
    let name_start = run_end(s, from, ByteClass::Space);
    let name_end = run_end(s, name_start, ByteClass::Name);
    if name_start == name_end {
        if name_start >= s.len() && scope is Base {
            Err(
                finding(
                    DiagnosticKind::EmptyDirective,
                    place(c.line, marker),
                    lit("the directive marker is followed by nothing"),
                    None,
                ),
            )
        } else {
            Err(
                finding(
                    DiagnosticKind::EmptyName,
                    place(c.line, marker),
                    lit("the directive has no name"),
                    None,
                ),
            )
        }
    } else {
        let name = s.subrange(name_start, name_end);
        let after = run_end(s, name_end, ByteClass::Space);
        if after >= s.len() {
            Ok(
                RawDirectiveView {
                    name,
                    scope,
                    raw_args: Seq::empty(),
                    location: place(c.line, marker),
                },
            )
        } else if s[after] == COLON {
            Ok(
                RawDirectiveView {
                    name,
                    scope,
                    raw_args: trimmed(s.subrange(after + 1, s.len() as int)),
                    location: place(c.line, marker),
                },
            )
        } else {
            Err(
                finding(
                    DiagnosticKind::TrailingText,
                    place(c.line, after),
                    phrase("unexpected text after the directive name `", name, "`; an argument follows a colon"),
                    None,
                ),
            )
        }
    }
}

/// What a candidate line parses to: a directive, or the diagnostic that says
/// why it is none.
pub open spec fn parse_spec(c: CandidateView) -> Result<RawDirectiveView, DiagnosticView> {
    let s = c.text;
    let marker = run_end(s, 0, ByteClass::Space);
    if !marker_at(s, marker) {
        Err(
            finding(
                DiagnosticKind::MissingMarker,
                place(c.line, 0),
                lit("the line does not start with the directive marker"),
                None,
            ),
        )
    } else {
        let open = marker + 3;
        if open < s.len() && s[open] == OPEN_BRACKET {
            let close = run_end(s, open + 1, ByteClass::Other(CLOSE_BRACKET));
            if close < s.len() && is_revision_name(s.subrange(open + 1, close)) {
                parse_rest(c, marker, ScopeView::Revision(s.subrange(open + 1, close)), close + 1)
            } else {
                Err(
                    finding(
                        DiagnosticKind::MalformedRevision,
                        place(c.line, open),
                        lit("malformed revision bracket"),
                        None,
                    ),
                )
            }
        } else {
            parse_rest(c, marker, ScopeView::Base, open)
        }
    }
}

/// The view of a parser's answer.
pub open spec fn outcome_view(r: Result<RawDirective, Diagnostic>) -> Result<
    RawDirectiveView,
    DiagnosticView,
> {
    match r {
        Ok(d) => Ok(d@),
        Err(e) => Err(e@),
    }
}

/// Parses what follows the marker and the revision bracket.
fn parse_after_scope(c: &CandidateLine, marker: usize, scope: RevisionScope, from: usize) -> (r:
    Result<RawDirective, Diagnostic>)
    requires
        marker + 3 <= from <= c.text@.len(),
    ensures
        outcome_view(r) == parse_rest(c@, marker as int, scope@, from as int),
{
    let s: &[u8] = c.text.as_slice();
    let n: usize = s.len();
    let here = Location { line: c.line, column: marker + 1 };
    let name_start: usize = scan_run(s, from, ByteClass::Space);
    let name_end: usize = scan_run(s, name_start, ByteClass::Name);
    if name_start == name_end {
        if name_start >= n && scope.is_base() {
            return Err(
                Diagnostic::new(
                    DiagnosticKind::EmptyDirective,
                    here,
                    literal("the directive marker is followed by nothing"),
                    None,
                ),
            );
        }
        return Err(
            Diagnostic::new(
                DiagnosticKind::EmptyName,
                here,
                literal("the directive has no name"),
                None,
            ),
        );
    }
    let name = slice_to_vec(slice_subrange(s, name_start, name_end));
    let after: usize = scan_run(s, name_end, ByteClass::Space);
    if after >= n {
        let raw_args: Vec<u8> = Vec::new();
        assert(raw_args@ =~= Seq::<u8>::empty());
        return Ok(RawDirective { name, scope, raw_args, location: here });
    }
    if s[after] == COLON {
        let raw_args = trim(slice_subrange(s, after + 1, n));
        return Ok(RawDirective { name, scope, raw_args, location: here });
    }
    Err(
        Diagnostic::new(
            DiagnosticKind::TrailingText,
            Location { line: c.line, column: after + 1 },
            make_phrase(
                "unexpected text after the directive name `",
                name.as_slice(),
                "`; an argument follows a colon",
            ),
            None,
        ),
    )
}

/// Parses one candidate line.
pub fn parse_line(c: &CandidateLine) -> (r: Result<RawDirective, Diagnostic>)
    ensures
        outcome_view(r) == parse_spec(c@),
{
    let s: &[u8] = c.text.as_slice();
    let n: usize = s.len();
    let marker: usize = scan_run(s, 0, ByteClass::Space);
    if !has_marker_at(s, marker) {
        return Err(
            Diagnostic::new(
                DiagnosticKind::MissingMarker,
                Location { line: c.line, column: 1 },
                literal("the line does not start with the directive marker"),
                None,
            ),
        );
    }
    let open: usize = marker + 3;
    if open < n && s[open] == OPEN_BRACKET {
        let close: usize = scan_run(s, open + 1, ByteClass::Other(CLOSE_BRACKET));
        if close < n {
            let inner = slice_subrange(s, open + 1, close);
            if inner.len() > 0 && scan_run(inner, 0, ByteClass::Word) == inner.len() {
                let scope = RevisionScope::Revision(slice_to_vec(inner));
                return parse_after_scope(c, marker, scope, close + 1);
            }
        }
        return Err(
            Diagnostic::new(
                DiagnosticKind::MalformedRevision,
                Location { line: c.line, column: open + 1 },
                literal("malformed revision bracket"),
                None,
            ),
        );
    }
    parse_after_scope(c, marker, RevisionScope::Base, open)
}

/// The directives that the first `n` lines parse to, in order.
pub open spec fn parsed_directives(lines: Seq<CandidateView>, n: nat) -> Seq<RawDirectiveView>
    decreases n,
{
    if n == 0 {
        Seq::empty()
    } else {
        match parse_spec(lines[n - 1]) {
            Ok(d) => parsed_directives(lines, (n - 1) as nat).push(d),
            Err(_) => parsed_directives(lines, (n - 1) as nat),
        }
    }
}

/// The diagnostics for those of the first `n` lines that do not parse, in
/// order.
pub open spec fn parse_failures(lines: Seq<CandidateView>, n: nat) -> Seq<DiagnosticView>
    decreases n,
{
    if n == 0 {
        Seq::empty()
    } else {
        match parse_spec(lines[n - 1]) {
            Ok(_) => parse_failures(lines, (n - 1) as nat),
            Err(e) => parse_failures(lines, (n - 1) as nat).push(e),
        }
    }
}

/// Every line yields either a directive or a diagnostic, never both and
/// never neither; and every diagnostic of the parser is an error.
pub proof fn every_line_is_parsed_or_reported(lines: Seq<CandidateView>, n: nat)
    requires
        n <= lines.len(),
    ensures
        parsed_directives(lines, n).len() + parse_failures(lines, n).len() == n,
        forall|k: int|
            0 <= k < parse_failures(lines, n).len() ==> (#[trigger] parse_failures(
                lines,
                n,
            )[k]).severity == crate::diagnostic::Severity::Error,
    decreases n,
{
    if n != 0 {
        every_line_is_parsed_or_reported(lines, (n - 1) as nat);
    }
}

/// Parses the lines one by one.  Returns the directives and, for the lines
/// that are none, the diagnostics.
pub fn parse_lines(lines: &Vec<CandidateLine>) -> (r: (Vec<RawDirective>, Vec<Diagnostic>))
    ensures
        views(r.0@) == parsed_directives(views(lines@), lines@.len()),
        views(r.1@) == parse_failures(views(lines@), lines@.len()),
{
    let n: usize = lines.len();
    let mut directives: Vec<RawDirective> = Vec::new();
    let mut failures: Vec<Diagnostic> = Vec::new();
    assert(views(directives@) =~= Seq::<RawDirectiveView>::empty());
    assert(views(failures@) =~= Seq::<DiagnosticView>::empty());
    let mut i: usize = 0;
    while i < n
        invariant
            n == lines@.len(),
            i <= n,
            views(directives@) == parsed_directives(views(lines@), i as nat),
            views(failures@) == parse_failures(views(lines@), i as nat),
        decreases n - i,
    {
        match parse_line(&lines[i]) {
            Ok(d) => {
                proof {
                    lemma_views_push(directives@, d);
                }
                directives.push(d);
            },
            Err(e) => {
                proof {
                    lemma_views_push(failures@, e);
                }
                failures.push(e);
            },
        }
        i = i + 1;
    }
    (directives, failures)
}

} // verus!
