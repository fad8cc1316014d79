//! What holds of the library as a whole, proved from the contracts of its
//! parts.

use crate::argument::{list_findings, pieces_findings, argument_findings, value_findings, piece_findings};
use crate::catalog::{CatalogView, ValueKind};
use crate::diagnostic::{
    all_errors, count_errors, count_kind, finding, lemma_count_all_errors, lemma_count_errors_add,
    lemma_count_kind_add, lemma_count_kind_none, lemma_reported, phrase, reported,
    DiagnosticKind, DiagnosticView, Severity,
};
use crate::directive::{RawDirectiveView, ScopeView};
use crate::distance::suggested;
use crate::lower::{
    lemma_lowered_among, lowered, lowered_among, projected, revisions_among, revisions_for,
    settings_for, SettingsView,
};
use crate::mode::{TestMode, TestSuite};
use crate::parser::{parse_failures, parse_spec, parsed_directives};
use crate::pipeline::{file_of, processed, raw_diagnostics, ReportView};
use crate::registry::{
    exclude_each_other, lookup, spec_names, BanView, DirectiveSpecView, GrammarView, KeySpecView,
    PropertyField,
};
use crate::scanner::{candidates, CandidateView};
use crate::validate::{
    accepted, accepted_among, accepted_view, applicability_findings, ban_findings, clash,
    declared_names, entry_findings, errors_of, exclusion_findings, findings, findings_among,
    findings_of, is_accepted, policy_findings, repetition_findings, reserved_among,
    reserved_findings, revision_findings, scope_findings, unknown_findings,
    uses_missing_revisions, FileView, ValidatedView,
};
use vstd::prelude::*;

verus! {

/// Whether every one of the diagnostics is an error, and none is about
/// mutual exclusion.
pub open spec fn plain_errors(items: Seq<DiagnosticView>) -> bool {
    forall|i: int|
        0 <= i < items.len() ==> (#[trigger] items[i]).severity == Severity::Error && items[i].kind
            != DiagnosticKind::MutuallyExclusive
}

/// Whether every one of the diagnostics is an error about mutual exclusion.
pub open spec fn clash_errors(items: Seq<DiagnosticView>) -> bool {
    forall|i: int|
        0 <= i < items.len() ==> (#[trigger] items[i]).severity == Severity::Error && items[i].kind
            == DiagnosticKind::MutuallyExclusive
}

proof fn lemma_plain_add(a: Seq<DiagnosticView>, b: Seq<DiagnosticView>)
    requires
        plain_errors(a),
        plain_errors(b),
    ensures
        plain_errors(a + b),
{
    assert forall|i: int| 0 <= i < (a + b).len() implies (#[trigger] (a + b)[i]).severity
        == Severity::Error && (a + b)[i].kind != DiagnosticKind::MutuallyExclusive by {
        if i < a.len() {
            assert((a + b)[i] == a[i]);
        } else {
            assert((a + b)[i] == b[i - a.len()]);
        }
    }
}

proof fn lemma_reserved_plain(d: RawDirectiveView, names: Seq<Seq<u8>>, catalog: CatalogView, n: nat)
    ensures
        plain_errors(reserved_among(d, names, catalog, n)),
    decreases n,
{
    if n != 0 {
        lemma_reserved_plain(d, names, catalog, (n - 1) as nat);
    }
}

proof fn lemma_bans_plain(d: RawDirectiveView, bans: Seq<BanView>, mode: TestMode, n: nat)
    ensures
        plain_errors(ban_findings(d, bans, mode, n)),
    decreases n,
{
    if n != 0 {
        lemma_bans_plain(d, bans, mode, (n - 1) as nat);
    }
}

proof fn lemma_list_plain(
    d: RawDirectiveView,
    kind: ValueKind,
    items: Seq<Seq<u8>>,
    catalog: CatalogView,
    n: nat,
)
    ensures
        plain_errors(list_findings(d, kind, items, catalog, n)),
    decreases n,
{
    if n != 0 {
        lemma_list_plain(d, kind, items, catalog, (n - 1) as nat);
        lemma_plain_add(
            list_findings(d, kind, items, catalog, (n - 1) as nat),
            value_findings(d, kind, items[n - 1], catalog),
        );
    }
}

proof fn lemma_pieces_plain(
    d: RawDirectiveView,
    keys: Seq<KeySpecView>,
    open: bool,
    all: Seq<Seq<u8>>,
    catalog: CatalogView,
    n: nat,
)
    ensures
        plain_errors(pieces_findings(d, keys, open, all, catalog, n)),
    decreases n,
{
    if n != 0 {
        lemma_pieces_plain(d, keys, open, all, catalog, (n - 1) as nat);
        lemma_plain_add(
            pieces_findings(d, keys, open, all, catalog, (n - 1) as nat),
            piece_findings(d, keys, open, all[n - 1], catalog),
        );
    }
}

proof fn lemma_argument_plain(d: RawDirectiveView, grammar: GrammarView, catalog: CatalogView)
    ensures
        plain_errors(argument_findings(d, grammar, catalog)),
{
    match grammar {
        GrammarView::List(kind) => {
            lemma_list_plain(
                d,
                kind,
                crate::text::words(d.raw_args),
                catalog,
                crate::text::words(d.raw_args).len(),
            );
        },
        GrammarView::KeyValue { keys, open } => {
            lemma_pieces_plain(
                d,
                keys,
                open,
                crate::text::pieces(d.raw_args, crate::text::COMMA),
                catalog,
                crate::text::pieces(d.raw_args, crate::text::COMMA).len(),
            );
        },
        _ => {},
    }
}

proof fn lemma_exclusions_clash(f: FileView, j: int, n: nat)
    ensures
        clash_errors(exclusion_findings(f, j, n)),
    decreases n,
{
    if n != 0 {
        lemma_exclusions_clash(f, j, (n - 1) as nat);
    }
}

/// The errors about a directive are errors indeed, and those among them
/// that are about mutual exclusion are the ones that the check for it found.
pub proof fn lemma_errors_of(f: FileView, j: int)
    ensures
        all_errors(errors_of(f, j)),
        count_errors(errors_of(f, j)) == errors_of(f, j).len(),
        count_kind(errors_of(f, j), DiagnosticKind::MutuallyExclusive) == exclusion_findings(
            f,
            j,
            j as nat,
        ).len(),
{
    let d = f.directives[j];
    let entry = f.entry_of(j);
    let kind = DiagnosticKind::MutuallyExclusive;
    let a = unknown_findings(d, entry, spec_names(f.entries));
    let b = applicability_findings(d, entry, f.suite);
    let c = scope_findings(d, entry, f.mode(), f.declared());
    let r = reserved_findings(d, entry, f.mode(), f.catalog);
    let x = exclusion_findings(f, j, j as nat);
    let e = entry_findings(d, entry, f.mode(), f.catalog);
    assert(plain_errors(a));
    assert(plain_errors(b));
    assert(plain_errors(c)) by {
        lemma_plain_add(policy_findings(d, entry), revision_findings(d, f.declared()));
    }
    assert(plain_errors(r)) by {
        lemma_reserved_plain(d, declared_names(d, entry), f.catalog, declared_names(d, entry).len());
    }
    assert(plain_errors(e)) by {
        if let Some(s) = entry {
            lemma_bans_plain(d, s.banned_under, f.mode(), s.banned_under.len());
            lemma_argument_plain(d, s.grammar, f.catalog);
            lemma_plain_add(
                ban_findings(d, s.banned_under, f.mode(), s.banned_under.len()),
                argument_findings(d, s.grammar, f.catalog),
            );
        }
    }
    lemma_exclusions_clash(f, j, j as nat);
    lemma_plain_add(a, b);
    lemma_plain_add(a + b, c);
    lemma_plain_add(a + b + c, r);
    let front = a + b + c + r;
    assert(errors_of(f, j) == front + x + e);
    assert(all_errors(errors_of(f, j))) by {
        assert forall|i: int| 0 <= i < errors_of(f, j).len() implies (#[trigger] errors_of(
            f,
            j,
        )[i]).severity == Severity::Error by {
            if i < front.len() {
                assert(errors_of(f, j)[i] == front[i]);
            } else if i < front.len() + x.len() {
                assert(errors_of(f, j)[i] == x[i - front.len()]);
            } else {
                assert(errors_of(f, j)[i] == e[i - front.len() - x.len()]);
            }
        }
    }
    lemma_count_all_errors(errors_of(f, j));
    lemma_count_kind_add(front + x, e, kind);
    lemma_count_kind_add(front, x, kind);
    lemma_count_kind_none(front, kind);
    lemma_count_kind_none(e, kind);
    lemma_count_clashes(x);
}

proof fn lemma_count_clashes(items: Seq<DiagnosticView>)
    requires
        clash_errors(items),
    ensures
        count_kind(items, DiagnosticKind::MutuallyExclusive) == items.len(),
    decreases items.len(),
{
    if items.len() > 0 {
        assert forall|i: int| 0 <= i < items.drop_last().len() implies (#[trigger] items.drop_last()[i]).severity
            == Severity::Error && items.drop_last()[i].kind
            == DiagnosticKind::MutuallyExclusive by {
            assert(items.drop_last()[i] == items[i]);
        }
        lemma_count_clashes(items.drop_last());
    }
}

/// The file that holds exactly the two given directives, in this order.
pub open spec fn file_of_two(
    first: RawDirectiveView,
    second: RawDirectiveView,
    suite: TestSuite,
    entries: Seq<DirectiveSpecView>,
    catalog: CatalogView,
) -> FileView {
    FileView { directives: seq![first, second], suite, entries, catalog }
}

proof fn lemma_one_clash(f: FileView)
    requires
        f.directives.len() == 2,
        clash(f, 0, 1),
    ensures
        count_kind(findings(f), DiagnosticKind::MutuallyExclusive) == 1,
{
    let kind = DiagnosticKind::MutuallyExclusive;
    lemma_errors_of(f, 0);
    lemma_errors_of(f, 1);
    assert(exclusion_findings(f, 0, 0).len() == 0);
    assert(exclusion_findings(f, 1, 1).len() == 1) by {
        assert(exclusion_findings(f, 1, 0).len() == 0);
    }
    lemma_count_kind_add(errors_of(f, 0), repetition_findings(f, 0), kind);
    lemma_count_kind_add(errors_of(f, 1), repetition_findings(f, 1), kind);
    lemma_count_kind_none(repetition_findings(f, 0), kind);
    lemma_count_kind_none(repetition_findings(f, 1), kind);
    assert(findings_among(f, 0) =~= Seq::<DiagnosticView>::empty());
    assert(findings_among(f, 1) =~= findings_of(f, 0));
    assert(findings(f) == findings_among(f, 1) + findings_of(f, 1));
    lemma_count_kind_add(findings_of(f, 0), findings_of(f, 1), kind);
}

/// Two directives that exclude each other and whose scopes overlap draw
/// exactly one finding of mutual exclusion, whichever of them comes first
/// and whichever of their entries names the other.
pub proof fn exclusion_is_found_once_in_either_order(
    first: RawDirectiveView,
    second: RawDirectiveView,
    suite: TestSuite,
    entries: Seq<DirectiveSpecView>,
    catalog: CatalogView,
)
    requires
        exclude_each_other(entries, first.name, second.name),
        first.scope.overlaps(second.scope),
    ensures
        count_kind(
            findings(file_of_two(first, second, suite, entries, catalog)),
            DiagnosticKind::MutuallyExclusive,
        ) == 1,
        count_kind(
            findings(file_of_two(second, first, suite, entries, catalog)),
            DiagnosticKind::MutuallyExclusive,
        ) == 1,
{
    lemma_one_clash(file_of_two(first, second, suite, entries, catalog));
    lemma_one_clash(file_of_two(second, first, suite, entries, catalog));
}

/// Processing is a function of the file's text, its suite, the registry and
/// the catalog: two reports on the same input are equal, diagnostic by
/// diagnostic in the same order, and property by property.
pub proof fn processing_is_deterministic(
    text: Seq<u8>,
    suite: TestSuite,
    entries: Seq<DirectiveSpecView>,
    catalog: CatalogView,
    first: ReportView,
    second: ReportView,
)
    requires
        first == processed(text, suite, entries, catalog),
        second == processed(text, suite, entries, catalog),
    ensures
        first == second,
        first.diagnostics == second.diagnostics,
        first.properties == second.properties,
{
}

/// A sequence of findings without an error is made of directives without
/// an error.
proof fn lemma_no_errors_among(f: FileView, n: nat, j: int)
    requires
        count_errors(findings_among(f, n)) == 0,
        0 <= j < n,
    ensures
        errors_of(f, j).len() == 0,
    decreases n,
{
    let before = findings_among(f, (n - 1) as nat);
    lemma_count_errors_add(before, findings_of(f, n - 1));
    lemma_count_errors_add(errors_of(f, n - 1), repetition_findings(f, n - 1));
    if j == n - 1 {
        lemma_errors_of(f, j);
    } else {
        lemma_no_errors_among(f, (n - 1) as nat, j);
    }
}

/// Where no directive has an error, every directive is accepted.
proof fn lemma_all_accepted(f: FileView, n: nat)
    requires
        n <= f.directives.len(),
        forall|j: int| 0 <= j < f.directives.len() ==> errors_of(f, j).len() == 0,
    ensures
        accepted_among(f, n).len() == n,
        forall|j: int| 0 <= j < n ==> #[trigger] accepted_among(f, n)[j] == accepted_view(f, j),
    decreases n,
{
    if n != 0 {
        lemma_all_accepted(f, (n - 1) as nat);
        assert(errors_of(f, n - 1).len() == 0);
        assert(is_accepted(f, n - 1));
    }
}

/// Where every directive is accepted, lowering sees the revisions that
/// validation saw.
proof fn lemma_same_revisions(f: FileView, n: nat)
    requires
        n <= f.directives.len(),
        accepted(f).len() == f.directives.len(),
        forall|j: int|
            0 <= j < f.directives.len() ==> f.entry_of(j) is Some && #[trigger] accepted(f)[j]
                == accepted_view(f, j),
    ensures
        revisions_among(accepted(f), n) == f.declared_among(n),
    decreases n,
{
    if n != 0 {
        lemma_same_revisions(f, (n - 1) as nat);
        let v = accepted(f)[n - 1];
        assert(v == accepted_view(f, n - 1));
        let d = f.directives[n - 1];
        let entry = f.entry_of(n - 1);
        if d.scope is Base {
            if entry.unwrap().field == PropertyField::Revisions {
                assert(v.value.strings(v.raw.name) == declared_names(d, entry));
            } else {
                assert(f.declared_among((n - 1) as nat) + declared_names(d, entry)
                    =~= f.declared_among((n - 1) as nat));
            }
        }
    }
}

/// A declared revision is declared by some directive of the base scope.
proof fn lemma_declared_by_some(f: FileView, n: nat) -> (j: int)
    requires
        f.declared_among(n).len() > 0,
    ensures
        0 <= j < n,
        f.directives[j].scope is Base,
        declared_names(f.directives[j], f.entry_of(j)).len() > 0,
    decreases n,
{
    if f.directives[n - 1].scope is Base && declared_names(
        f.directives[n - 1],
        f.entry_of(n - 1),
    ).len() > 0 {
        n - 1
    } else {
        lemma_declared_by_some(f, (n - 1) as nat)
    }
}

/// Directives set properties and never the revision that the settings are
/// for.
proof fn lemma_merged_revision(s: SettingsView, vs: Seq<ValidatedView>, scope: ScopeView, n: nat)
    ensures
        s.merged(vs, scope, n).revision == s.revision,
    decreases n,
{
    if n != 0 {
        lemma_merged_revision(s, vs, scope, (n - 1) as nat);
    }
}

/// What a file without an error comes to: every directive is accepted,
/// and lowering works on the revisions that the file declares.
proof fn lemma_clean_file(
    text: Seq<u8>,
    suite: TestSuite,
    entries: Seq<DirectiveSpecView>,
    catalog: CatalogView,
)
    requires
        !processed(text, suite, entries, catalog).failed(),
    ensures
        processed(text, suite, entries, catalog).properties == lowered(
            accepted(file_of(text, suite, entries, catalog)),
            suite.spec_mode(),
        ),
        revisions_among(
            accepted(file_of(text, suite, entries, catalog)),
            accepted(file_of(text, suite, entries, catalog)).len(),
        ) == file_of(text, suite, entries, catalog).declared(),
        file_of(text, suite, entries, catalog).declared().len() > 0
            ==> suite.spec_mode().spec_supports_revisions(),
{
    let f = file_of(text, suite, entries, catalog);
    let lines = candidates(text);
    let raw = raw_diagnostics(text, suite, entries, catalog);
    lemma_reported(raw);
    lemma_count_errors_add(parse_failures(lines, lines.len()), findings(f));
    assert(count_errors(findings(f)) == 0);
    assert forall|j: int| 0 <= j < f.directives.len() implies errors_of(f, j).len() == 0 by {
        lemma_no_errors_among(f, f.directives.len(), j);
    }
    lemma_all_accepted(f, f.directives.len());
    assert forall|j: int| 0 <= j < f.directives.len() implies f.entry_of(j) is Some
        && #[trigger] accepted(f)[j] == accepted_view(f, j) by {
        assert(errors_of(f, j).len() == 0);
    }
    lemma_same_revisions(f, f.directives.len());
    if f.declared().len() > 0 && !suite.spec_mode().spec_supports_revisions() {
        let j = lemma_declared_by_some(f, f.directives.len());
        assert(uses_missing_revisions(f.directives[j], f.entry_of(j), f.mode()));
        assert(scope_findings(f.directives[j], f.entry_of(j), f.mode(), f.declared()).len() == 1);
        assert(errors_of(f, j).len() == 0);
        assert(false);
    }
}

/// A file without an error that declares revisions gets exactly one set of
/// properties for each of them, in the order of their declaration, and
/// none for any other revision.
pub proof fn every_declared_revision_is_lowered(
    text: Seq<u8>,
    suite: TestSuite,
    entries: Seq<DirectiveSpecView>,
    catalog: CatalogView,
)
    requires
        !processed(text, suite, entries, catalog).failed(),
        file_of(text, suite, entries, catalog).declared().len() > 0,
    ensures
        processed(text, suite, entries, catalog).properties.len() == file_of(
            text,
            suite,
            entries,
            catalog,
        ).declared().len(),
        forall|i: int|
            0 <= i < file_of(text, suite, entries, catalog).declared().len() ==> (
            #[trigger] processed(text, suite, entries, catalog).properties[i]).revision() == Some(
                file_of(text, suite, entries, catalog).declared()[i],
            ) && processed(text, suite, entries, catalog).properties[i] == projected(
                suite.spec_mode(),
                settings_for(
                    accepted(file_of(text, suite, entries, catalog)),
                    Some(file_of(text, suite, entries, catalog).declared()[i]),
                ),
            ),
        forall|i: int|
            0 <= i < processed(text, suite, entries, catalog).properties.len() && (
            #[trigger] processed(text, suite, entries, catalog).properties[i]).revision() is Some
                ==> file_of(text, suite, entries, catalog).declared().contains(
                processed(text, suite, entries, catalog).properties[i].revision()->Some_0,
            ),
{
    let f = file_of(text, suite, entries, catalog);
    let mode = suite.spec_mode();
    let vs = accepted(f);
    let declared = f.declared();
    lemma_clean_file(text, suite, entries, catalog);
    assert(revisions_for(vs, mode) == declared);
    lemma_lowered_among(vs, mode, declared, declared.len());
    let out = processed(text, suite, entries, catalog).properties;
    assert(out == lowered_among(vs, mode, declared, declared.len()));
    assert forall|i: int| 0 <= i < declared.len() implies (#[trigger] out[i]).revision() == Some(
        declared[i],
    ) && out[i] == projected(mode, settings_for(vs, Some(declared[i]))) by {
        let start = SettingsView::initial(Some(declared[i]));
        lemma_merged_revision(start, vs, ScopeView::Base, vs.len());
        lemma_merged_revision(
            start.merged(vs, ScopeView::Base, vs.len()),
            vs,
            ScopeView::Revision(declared[i]),
            vs.len(),
        );
    }
    assert forall|i: int|
        0 <= i < out.len() && (#[trigger] out[i]).revision() is Some implies declared.contains(
        out[i].revision()->Some_0,
    ) by {
        assert(out[i].revision() == Some(declared[i]));
    }
}

/// A file without an error that declares no revision gets exactly one set
/// of properties, for no revision, made of the directives of the base
/// scope alone.
pub proof fn a_file_without_revisions_is_lowered_once(
    text: Seq<u8>,
    suite: TestSuite,
    entries: Seq<DirectiveSpecView>,
    catalog: CatalogView,
)
    requires
        !processed(text, suite, entries, catalog).failed(),
        file_of(text, suite, entries, catalog).declared().len() == 0,
    ensures
        processed(text, suite, entries, catalog).properties == seq![
            projected(
                suite.spec_mode(),
                SettingsView::initial(None).merged(
                    accepted(file_of(text, suite, entries, catalog)),
                    ScopeView::Base,
                    accepted(file_of(text, suite, entries, catalog)).len(),
                ),
            ),
        ],
        processed(text, suite, entries, catalog).properties.len() == 1,
        processed(text, suite, entries, catalog).properties[0].revision() == None::<Seq<u8>>,
{
    let f = file_of(text, suite, entries, catalog);
    let vs = accepted(f);
    lemma_clean_file(text, suite, entries, catalog);
    lemma_merged_revision(SettingsView::initial(None), vs, ScopeView::Base, vs.len());
}

/// A line that parses to a directive is among the parsed directives.
proof fn lemma_parsed_is_listed(lines: Seq<CandidateView>, n: nat, k: int) -> (j: int)
    requires
        0 <= k < n <= lines.len(),
        parse_spec(lines[k]) is Ok,
    ensures
        0 <= j < parsed_directives(lines, n).len(),
        parsed_directives(lines, n)[j] == parse_spec(lines[k])->Ok_0,
    decreases n,
{
    if k == n - 1 {
        parsed_directives(lines, (n - 1) as nat).len() as int
    } else {
        let j = lemma_parsed_is_listed(lines, (n - 1) as nat, k);
        j
    }
}

/// What is found about a directive is among what is found about the file.
proof fn lemma_finding_is_listed(f: FileView, n: nat, j: int, k: int) -> (i: int)
    requires
        0 <= j < n,
        0 <= k < findings_of(f, j).len(),
    ensures
        0 <= i < findings_among(f, n).len(),
        findings_among(f, n)[i] == findings_of(f, j)[k],
    decreases n,
{
    let before = findings_among(f, (n - 1) as nat);
    if j == n - 1 {
        before.len() + k
    } else {
        lemma_finding_is_listed(f, (n - 1) as nat, j, k)
    }
}

/// The directive marker of a parsed directive stands on the line that the
/// directive was parsed from.
pub proof fn lemma_parsed_location(c: CandidateView)
    requires
        parse_spec(c) is Ok,
    ensures
        (parse_spec(c)->Ok_0).location.line == c.line as usize,
{
}

/// A directive whose name the registry does not know always draws an
/// error, which is reported with the line that the directive stands on.
pub proof fn unknown_directives_are_reported(
    text: Seq<u8>,
    suite: TestSuite,
    entries: Seq<DirectiveSpecView>,
    catalog: CatalogView,
    k: int,
)
    requires
        0 <= k < candidates(text).len(),
        parse_spec(candidates(text)[k]) is Ok,
        lookup(entries, (parse_spec(candidates(text)[k])->Ok_0).name) is None,
    ensures
        processed(text, suite, entries, catalog).failed(),
        exists|i: int|
            0 <= i < processed(text, suite, entries, catalog).diagnostics.len() && {
                let found = #[trigger] processed(text, suite, entries, catalog).diagnostics[i];
                let d = parse_spec(candidates(text)[k])->Ok_0;
                &&& found.severity == Severity::Error
                &&& found.kind == DiagnosticKind::UnknownDirective
                &&& found.location == d.location
                &&& found.location.line == candidates(text)[k].line as usize
                &&& found.message == phrase("unknown directive `", d.name, "`")
                &&& found.suggestion == suggested(d.name, spec_names(entries))
            },
{
    broadcast use vstd::seq_lib::group_to_multiset_ensures;

    let lines = candidates(text);
    let f = file_of(text, suite, entries, catalog);
    let d = parse_spec(lines[k])->Ok_0;
    let j = lemma_parsed_is_listed(lines, lines.len(), k);
    assert(f.directives[j] == d);
    let found = finding(
        DiagnosticKind::UnknownDirective,
        d.location,
        phrase("unknown directive `", d.name, "`"),
        suggested(d.name, spec_names(entries)),
    );
    assert(f.entry_of(j) is None);
    assert(findings_of(f, j)[0] == found);
    let at = lemma_finding_is_listed(f, f.directives.len(), j, 0);
    let failures = parse_failures(lines, lines.len());
    let raw = raw_diagnostics(text, suite, entries, catalog);
    assert(raw[failures.len() + at] == found);
    assert(raw.contains(found));
    lemma_reported(raw);
    let out = reported(raw);
    assert(out.to_multiset().count(found) > 0);
    assert(out.contains(found));
    let i = choose|i: int| 0 <= i < out.len() && out[i] == found;
    assert(processed(text, suite, entries, catalog).diagnostics[i] == found);
    lemma_parsed_location(lines[k]);
    // one error at least
    lemma_errors_of(f, j);
    lemma_count_errors_at_least(raw, failures.len() + at);
}

/// A list that holds an error counts at least one.
proof fn lemma_count_errors_at_least(items: Seq<DiagnosticView>, i: int)
    requires
        0 <= i < items.len(),
        items[i].severity == Severity::Error,
    ensures
        count_errors(items) > 0,
    decreases items.len(),
{
    if i < items.len() - 1 {
        assert(items.drop_last()[i] == items[i]);
        lemma_count_errors_at_least(items.drop_last(), i);
    }
}

/// Directives that validation accepts never clash: of two directives
/// that exclude each other with overlapping scopes, the later one is
/// turned down.
pub proof fn accepted_directives_never_clash(f: FileView, i: int, j: int)
    requires
        0 <= i < j < f.directives.len(),
        clash(f, i, j),
    ensures
        !is_accepted(f, j),
{
    lemma_clash_is_found(f, j, j as nat, i);
}

proof fn lemma_clash_is_found(f: FileView, j: int, n: nat, i: int)
    requires
        0 <= i < n,
        clash(f, i, j),
    ensures
        exclusion_findings(f, j, n).len() > 0,
    decreases n,
{
    if i != n - 1 {
        lemma_clash_is_found(f, j, (n - 1) as nat, i);
    }
}

/// What an accepted directive is sure of: the registry knows it, it is
/// available in the file's suite, its scope is one that its entry allows,
/// and a revision that it is scoped to is declared in a mode that has
/// revisions.
pub proof fn accepted_directives_are_in_order(f: FileView, j: int)
    requires
        0 <= j < f.directives.len(),
        is_accepted(f, j),
    ensures
        f.entry_of(j) is Some,
        f.entry_of(j)->Some_0.applies_to(f.suite),
        f.directives[j].scope is Revision ==> f.mode().spec_supports_revisions()
            && f.declared().contains(f.directives[j].scope->Revision_0)
            && f.entry_of(j)->Some_0.policy != crate::registry::ScopePolicy::BaseOnly,
        f.directives[j].scope is Base ==> f.entry_of(j)->Some_0.policy
            != crate::registry::ScopePolicy::RevisionOnly,
{
}

/// The diagnostics of a file come in source order, each of the parser's
/// and the validator's diagnostics once, and a file fails exactly when one
/// of them is an error.
pub proof fn diagnostics_are_in_source_order(
    text: Seq<u8>,
    suite: TestSuite,
    entries: Seq<DirectiveSpecView>,
    catalog: CatalogView,
)
    ensures
        crate::diagnostic::in_source_order(processed(text, suite, entries, catalog).diagnostics),
        processed(text, suite, entries, catalog).diagnostics.to_multiset() == raw_diagnostics(
            text,
            suite,
            entries,
            catalog,
        ).to_multiset(),
        processed(text, suite, entries, catalog).failed() == (count_errors(
            raw_diagnostics(text, suite, entries, catalog),
        ) > 0),
{
    lemma_reported(raw_diagnostics(text, suite, entries, catalog));
}

/// A file with an error has no properties; a file without one has at
/// least one set of them, whatever warnings it drew.
pub proof fn only_errors_block_lowering(
    text: Seq<u8>,
    suite: TestSuite,
    entries: Seq<DirectiveSpecView>,
    catalog: CatalogView,
)
    ensures
        processed(text, suite, entries, catalog).failed() ==> processed(
            text,
            suite,
            entries,
            catalog,
        ).properties.len() == 0,
        !processed(text, suite, entries, catalog).failed() ==> processed(
            text,
            suite,
            entries,
            catalog,
        ).properties.len() >= 1,
{
    let vs = accepted(file_of(text, suite, entries, catalog));
    let mode = suite.spec_mode();
    let revisions = revisions_for(vs, mode);
    if revisions.len() > 0 {
        lemma_lowered_among(vs, mode, revisions, revisions.len());
    }
}

} // verus!
