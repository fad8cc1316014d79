//! The whole way of one file: scanning, parsing, validation, lowering.
//!
//! A file is processed on its own.  What comes out depends on the file's
//! text, its suite, the registry and the catalog, and on nothing else.

use crate::catalog::{Catalog, CatalogView};
use crate::diagnostic::{
    count_errors, error_count, reported, Diagnostic, DiagnosticSink, DiagnosticView,
};
use crate::lower::{lower, lowered, PropertiesView, TestProperties};
use crate::mode::{TestMode, TestSuite};
use crate::parser::{parse_failures, parse_lines, parsed_directives};
use crate::registry::{DirectiveSpecView, Registry};
use crate::scanner::{candidates, scan};
use crate::text::views;
use crate::validate::{accepted, findings, lemma_views_append, validate, FileView};
use vstd::prelude::*;

verus! {

/// What processing one file yields: all diagnostics in source order, and
/// the properties of the test, one set per revision.  A file with an error
/// has no properties.
#[derive(Debug, Clone, PartialEq, Eq)]
pub struct FileReport {
    pub mode: TestMode,
    pub diagnostics: Vec<Diagnostic>,
    pub properties: Vec<TestProperties>,
}

/// The mathematical value of a [`FileReport`].
pub ghost struct ReportView {
    pub mode: TestMode,
    pub diagnostics: Seq<DiagnosticView>,
    pub properties: Seq<PropertiesView>,
}

impl View for FileReport {
    type V = ReportView;

    open spec fn view(&self) -> ReportView {
        ReportView {
            mode: self.mode,
            diagnostics: views(self.diagnostics@),
            properties: views(self.properties@),
        }
    }
}

impl ReportView {
    /// Whether the file failed: at least one diagnostic is an error.
    pub open spec fn failed(self) -> bool {
        count_errors(self.diagnostics) > 0
    }
}

/// The directives of a file as validation reads them: those that the
/// candidate lines of the text parse to.
pub open spec fn file_of(
    text: Seq<u8>,
    suite: TestSuite,
    entries: Seq<DirectiveSpecView>,
    catalog: CatalogView,
) -> FileView {
    let lines = candidates(text);
    FileView { directives: parsed_directives(lines, lines.len()), suite, entries, catalog }
}

/// All diagnostics of a file before they are put in source order: those of
/// the parser, then those of the validator.
pub open spec fn raw_diagnostics(
    text: Seq<u8>,
    suite: TestSuite,
    entries: Seq<DirectiveSpecView>,
    catalog: CatalogView,
) -> Seq<DiagnosticView> {
    let lines = candidates(text);
    parse_failures(lines, lines.len()) + findings(file_of(text, suite, entries, catalog))
}

/// What processing a file yields.
pub open spec fn processed(
    text: Seq<u8>,
    suite: TestSuite,
    entries: Seq<DirectiveSpecView>,
    catalog: CatalogView,
) -> ReportView {
    let diagnostics = reported(raw_diagnostics(text, suite, entries, catalog));
    ReportView {
        mode: suite.spec_mode(),
        diagnostics,
        properties: if count_errors(diagnostics) == 0 {
            lowered(accepted(file_of(text, suite, entries, catalog)), suite.spec_mode())
        } else {
            Seq::empty()
        },
    }
}

/// Processes the text of one test file of the given suite.
pub fn process(text: &[u8], suite: TestSuite, registry: &Registry, catalog: &Catalog) -> (report:
    FileReport)
    ensures
        report@ == processed(text@, suite, registry@, catalog@),
{
    let lines = scan(text);
    let (directives, mut failures) = parse_lines(&lines);
    let (passed, mut found) = validate(&directives, suite, registry, catalog);
    proof {
        lemma_views_append(failures@, found@);
    }
    failures.append(&mut found);
    let mut sink = DiagnosticSink::new();
    sink.report_all(failures);
    let failed = sink.has_errors();
    let diagnostics = sink.into_diagnostics();
    let properties = if failed {
        let none: Vec<TestProperties> = Vec::new();
        assert(views(none@) =~= Seq::<PropertiesView>::empty());
        none
    } else {
        lower(&passed, suite.mode())
    };
    FileReport { mode: suite.mode(), diagnostics, properties }
}

impl FileReport {
    /// Whether the file failed: at least one diagnostic is an error.
    pub fn failed(&self) -> (b: bool)
        ensures
            b == self@.failed(),
    {
        error_count(&self.diagnostics) > 0
    }
}

/// Whether a run over several files failed: one of the files did.
/// Warnings alone fail nothing.
pub open spec fn any_failed(reports: Seq<ReportView>) -> bool {
    exists|i: int| 0 <= i < reports.len() && (#[trigger] reports[i]).failed()
}

/// Computes [`any_failed`].
pub fn run_failed(reports: &Vec<FileReport>) -> (b: bool)
    ensures
        b == any_failed(views(reports@)),
{
    let n: usize = reports.len();
    let mut i: usize = 0;
    while i < n
        invariant
            n == reports@.len(),
            i <= n,
            forall|k: int| 0 <= k < i ==> !(#[trigger] views(reports@)[k]).failed(),
        decreases n - i,
    {
        if reports[i].failed() {
            assert(views(reports@)[i as int].failed());
            return true;
        }
        i = i + 1;
    }
    false
}

} // verus!
