//! The validator: checks the directives of one file against the registry
//! and the catalog.
//!
//! Every check looks at every directive; nothing stops at the first
//! finding.  A directive that draws no error is accepted and gets its typed
//! value; a warning does not stand in its way.

use crate::argument::{
    argument_findings, argument_value, carries, carries_flag, read_argument, ArgValue, ValueView,
};
use crate::catalog::{Catalog, CatalogView};
use crate::diagnostic::{
    finding, make_phrase, make_phrase2, phrase, phrase2, Diagnostic, DiagnosticKind,
    DiagnosticView,
};
use crate::directive::{RawDirective, RawDirectiveView, ScopeView, RevisionScope};
use crate::distance::{suggest, suggested};
use crate::mode::{TestMode, TestSuite};
use crate::registry::{
    exclude_each_other, lookup, spec_names, BanView, DirectiveSpec, DirectiveSpecView,
    PropertyField, Registry, ScopePolicy,
};
use crate::text::{has_row, lemma_views_push, no_rows, views};
use vstd::prelude::*;

verus! {

/// The names that a directive declares as revisions, if its entry sets the
/// list of revisions: the strings of its typed value.
pub open spec fn declared_names(d: RawDirectiveView, entry: Option<DirectiveSpecView>) -> Seq<
    Seq<u8>,
> {
    match entry {
        Some(e) => if e.field == PropertyField::Revisions {
            argument_value(d, e.grammar).strings(d.name)
        } else {
            Seq::empty()
        },
        None => Seq::empty(),
    }
}

/// All that validation reads: the directives of one file in source order,
/// the suite that the file belongs to, the registry and the catalog.
pub ghost struct FileView {
    pub directives: Seq<RawDirectiveView>,
    pub suite: TestSuite,
    pub entries: Seq<DirectiveSpecView>,
    pub catalog: CatalogView,
}

impl FileView {
    /// The mode of the file's suite.
    pub open spec fn mode(self) -> TestMode {
        self.suite.spec_mode()
    }

    /// The registry's entry for the directive at `j`, if it has one.
    pub open spec fn entry_of(self, j: int) -> Option<DirectiveSpecView> {
        match lookup(self.entries, self.directives[j].name) {
            Some(i) => Some(self.entries[i]),
            None => None,
        }
    }

    /// The revisions that the first `n` directives declare, in order.
    pub open spec fn declared_among(self, n: nat) -> Seq<Seq<u8>>
        decreases n,
    {
        if n == 0 {
            Seq::empty()
        } else if self.directives[n - 1].scope is Base {
            self.declared_among((n - 1) as nat) + declared_names(
                self.directives[n - 1],
                self.entry_of(n - 1),
            )
        } else {
            self.declared_among((n - 1) as nat)
        }
    }

    /// The revisions that the file declares, in order.
    pub open spec fn declared(self) -> Seq<Seq<u8>> {
        self.declared_among(self.directives.len())
    }
}

/// The finding about a directive that the registry does not know, with the
/// nearest known name as a suggestion.
pub open spec fn unknown_findings(
    d: RawDirectiveView,
    entry: Option<DirectiveSpecView>,
    names: Seq<Seq<u8>>,
) -> Seq<DiagnosticView> {
    if entry is None {
        seq![
            finding(
                DiagnosticKind::UnknownDirective,
                d.location,
                phrase("unknown directive `", d.name, "`"),
                suggested(d.name, names),
            ),
        ]
    } else {
        Seq::empty()
    }
}

/// The finding about a directive that is not available in the file's suite.
pub open spec fn applicability_findings(
    d: RawDirectiveView,
    entry: Option<DirectiveSpecView>,
    suite: TestSuite,
) -> Seq<DiagnosticView> {
    if entry matches Some(e) && !e.applies_to(suite) {
        seq![
            finding(
                DiagnosticKind::NotApplicable,
                d.location,
                phrase2(
                    "directive `",
                    d.name,
                    "` is not available in test suite `",
                    suite.spec_name(),
                    "`",
                ),
                None,
            ),
        ]
    } else {
        Seq::empty()
    }
}

/// Whether the directive uses revisions in a mode that has none: it is
/// scoped to a revision, or it declares at least one.
pub open spec fn uses_missing_revisions(
    d: RawDirectiveView,
    entry: Option<DirectiveSpecView>,
    mode: TestMode,
) -> bool {
    !mode.spec_supports_revisions() && (d.scope is Revision || declared_names(d, entry).len() > 0)
}

/// The finding about a directive whose scope breaks its entry's policy.
pub open spec fn policy_findings(d: RawDirectiveView, entry: Option<DirectiveSpecView>) -> Seq<
    DiagnosticView,
> {
    if entry matches Some(e) && e.policy == ScopePolicy::BaseOnly && d.scope is Revision {
        seq![
            finding(
                DiagnosticKind::ScopeNotAllowed,
                d.location,
                phrase("directive `", d.name, "` must not be scoped to a revision"),
                None,
            ),
        ]
    } else if entry matches Some(e) && e.policy == ScopePolicy::RevisionOnly && d.scope is Base {
        seq![
            finding(
                DiagnosticKind::ScopeNotAllowed,
                d.location,
                phrase("directive `", d.name, "` must be scoped to a revision"),
                None,
            ),
        ]
    } else {
        Seq::empty()
    }
}

/// The finding about a directive that is scoped to a revision which the
/// file does not declare, with the nearest declared one as a suggestion.
pub open spec fn revision_findings(d: RawDirectiveView, declared: Seq<Seq<u8>>) -> Seq<
    DiagnosticView,
> {
    match d.scope {
        ScopeView::Revision(r) => if declared.contains(r) {
            Seq::empty()
        } else {
            seq![
                finding(
                    DiagnosticKind::UnknownRevision,
                    d.location,
                    phrase("revision `", r, "` is not declared"),
                    suggested(r, declared),
                ),
            ]
        },
        ScopeView::Base => Seq::empty(),
    }
}

/// The findings about a directive's scope.  In a mode without revisions a
/// directive that uses them draws one finding that says so and no other;
/// elsewhere the policy and the declared revisions are checked, each on
/// its own.
pub open spec fn scope_findings(
    d: RawDirectiveView,
    entry: Option<DirectiveSpecView>,
    mode: TestMode,
    declared: Seq<Seq<u8>>,
) -> Seq<DiagnosticView> {
    if uses_missing_revisions(d, entry, mode) {
        seq![
            finding(
                DiagnosticKind::RevisionsUnsupported,
                d.location,
                phrase2(
                    "directive `",
                    d.name,
                    "` uses revisions, which test mode `",
                    mode.spec_name(),
                    "` does not support",
                ),
                None,
            ),
        ]
    } else {
        policy_findings(d, entry) + revision_findings(d, declared)
    }
}

/// The findings about the first `n` of the names that a directive declares
/// as revisions: one for each that the catalog reserves.
pub open spec fn reserved_among(
    d: RawDirectiveView,
    names: Seq<Seq<u8>>,
    catalog: CatalogView,
    n: nat,
) -> Seq<DiagnosticView>
    decreases n,
{
    if n == 0 {
        Seq::empty()
    } else if catalog.is_reserved(names[n - 1]) {
        reserved_among(d, names, catalog, (n - 1) as nat).push(
            finding(
                DiagnosticKind::ReservedRevisionName,
                d.location,
                phrase(
                    "revision name `",
                    names[n - 1],
                    "` is reserved for a built-in configuration predicate",
                ),
                None,
            ),
        )
    } else {
        reserved_among(d, names, catalog, (n - 1) as nat)
    }
}

/// The findings about reserved names among the revisions that a directive
/// declares, in a mode that has revisions.
pub open spec fn reserved_findings(
    d: RawDirectiveView,
    entry: Option<DirectiveSpecView>,
    mode: TestMode,
    catalog: CatalogView,
) -> Seq<DiagnosticView> {
    if mode.spec_supports_revisions() && d.scope is Base {
        reserved_among(d, declared_names(d, entry), catalog, declared_names(d, entry).len())
    } else {
        Seq::empty()
    }
}

/// Whether the directives at `i` and `j` clash: their names exclude each
/// other and their scopes overlap.
pub open spec fn clash(f: FileView, i: int, j: int) -> bool {
    exclude_each_other(f.entries, f.directives[i].name, f.directives[j].name)
        && f.directives[i].scope.overlaps(f.directives[j].scope)
}

/// The findings about the directive at `j` and those of the first `n`
/// directives that it clashes with: one for each.
pub open spec fn exclusion_findings(f: FileView, j: int, n: nat) -> Seq<DiagnosticView>
    decreases n,
{
    if n == 0 {
        Seq::empty()
    } else if clash(f, n - 1, j) {
        exclusion_findings(f, j, (n - 1) as nat).push(
            finding(
                DiagnosticKind::MutuallyExclusive,
                f.directives[j].location,
                phrase2(
                    "directive `",
                    f.directives[j].name,
                    "` and directive `",
                    f.directives[n - 1].name,
                    "` exclude each other",
                ),
                None,
            ),
        )
    } else {
        exclusion_findings(f, j, (n - 1) as nat)
    }
}

/// The message about a banned flag; it names the flag and the mode.  The
/// empty flag bans the directive itself, which is then named in its place.
pub open spec fn ban_message(d: RawDirectiveView, ban: BanView) -> Seq<u8> {
    if ban.flag.len() == 0 {
        phrase2("directive `", d.name, "` is banned under test mode `", ban.mode.spec_name(), "`")
    } else {
        phrase2("flag `", ban.flag, "` is banned under test mode `", ban.mode.spec_name(), "`")
    }
}

/// The findings about the first `n` bans of a directive's entry: one for
/// each that holds under the file's mode and whose flag the argument carries.
pub open spec fn ban_findings(d: RawDirectiveView, bans: Seq<BanView>, mode: TestMode, n: nat) -> Seq<
    DiagnosticView,
>
    decreases n,
{
    if n == 0 {
        Seq::empty()
    } else if bans[n - 1].mode == mode && carries(d.raw_args, bans[n - 1].flag) {
        ban_findings(d, bans, mode, (n - 1) as nat).push(
            finding(DiagnosticKind::BannedFlag, d.location, ban_message(d, bans[n - 1]), None),
        )
    } else {
        ban_findings(d, bans, mode, (n - 1) as nat)
    }
}

/// The findings that need the directive's entry: bans and the argument.
pub open spec fn entry_findings(
    d: RawDirectiveView,
    entry: Option<DirectiveSpecView>,
    mode: TestMode,
    catalog: CatalogView,
) -> Seq<DiagnosticView> {
    match entry {
        Some(e) => ban_findings(d, e.banned_under, mode, e.banned_under.len()) + argument_findings(
            d,
            e.grammar,
            catalog,
        ),
        None => Seq::empty(),
    }
}

/// The errors about the directive at `j`, in the order of the checks.
pub open spec fn errors_of(f: FileView, j: int) -> Seq<DiagnosticView> {
    let d = f.directives[j];
    let entry = f.entry_of(j);
    unknown_findings(d, entry, spec_names(f.entries)) + applicability_findings(d, entry, f.suite)
        + scope_findings(d, entry, f.mode(), f.declared()) + reserved_findings(
        d,
        entry,
        f.mode(),
        f.catalog,
    ) + exclusion_findings(f, j, j as nat) + entry_findings(d, entry, f.mode(), f.catalog)
}

/// Whether the directive at `j` repeats an earlier one word for word.
pub open spec fn repeats_earlier(f: FileView, j: int) -> bool {
    exists|i: int| 0 <= i < j && (#[trigger] f.directives[i]).repeats(f.directives[j])
}

/// The warning about a directive that repeats an earlier one.
pub open spec fn repetition_findings(f: FileView, j: int) -> Seq<DiagnosticView> {
    if repeats_earlier(f, j) {
        seq![
            finding(
                DiagnosticKind::Redundant,
                f.directives[j].location,
                phrase("directive `", f.directives[j].name, "` repeats an earlier one"),
                None,
            ),
        ]
    } else {
        Seq::empty()
    }
}

/// All findings about the directive at `j`: its errors, then the warning.
pub open spec fn findings_of(f: FileView, j: int) -> Seq<DiagnosticView> {
    errors_of(f, j) + repetition_findings(f, j)
}

/// The findings about the first `n` directives, directive by directive.
pub open spec fn findings_among(f: FileView, n: nat) -> Seq<DiagnosticView>
    decreases n,
{
    if n == 0 {
        Seq::empty()
    } else {
        findings_among(f, (n - 1) as nat) + findings_of(f, n - 1)
    }
}

/// All findings about the file's directives.
pub open spec fn findings(f: FileView) -> Seq<DiagnosticView> {
    findings_among(f, f.directives.len())
}

/// A directive that passed every check, with its entry's position in the
/// registry, the property that it sets and its typed value.
pub struct ValidatedDirective {
    raw: RawDirective,
    entry: usize,
    field: PropertyField,
    value: ArgValue,
}

/// The mathematical value of a [`ValidatedDirective`].
pub ghost struct ValidatedView {
    pub raw: RawDirectiveView,
    pub entry: int,
    pub field: PropertyField,
    pub value: ValueView,
}

impl View for ValidatedDirective {
    type V = ValidatedView;

    closed spec fn view(&self) -> ValidatedView {
        ValidatedView {
            raw: self.raw@,
            entry: self.entry as int,
            field: self.field,
            value: self.value@,
        }
    }
}

impl ValidatedDirective {
    /// The directive as it was written.
    pub fn raw(&self) -> (r: &RawDirective)
        ensures
            r@ == self@.raw,
    {
        &self.raw
    }

    /// The position of the directive's entry in the registry.
    pub fn entry(&self) -> (i: usize)
        ensures
            i == self@.entry,
    {
        self.entry
    }

    /// The property that the directive sets.
    pub fn field(&self) -> (field: PropertyField)
        ensures
            field == self@.field,
    {
        self.field
    }

    /// The typed value of the directive's argument.
    pub fn value(&self) -> (v: &ArgValue)
        ensures
            v@ == self@.value,
    {
        &self.value
    }
}

/// Whether the directive at `j` is accepted: the registry knows it and no
/// check found an error.
pub open spec fn is_accepted(f: FileView, j: int) -> bool {
    f.entry_of(j) is Some && errors_of(f, j).len() == 0
}

/// What the directive at `j` is accepted as.
pub open spec fn accepted_view(f: FileView, j: int) -> ValidatedView {
    let d = f.directives[j];
    let i = lookup(f.entries, d.name).unwrap();
    ValidatedView {
        raw: d,
        entry: i,
        field: f.entries[i].field,
        value: argument_value(d, f.entries[i].grammar),
    }
}

/// Those of the first `n` directives that are accepted, in order.
pub open spec fn accepted_among(f: FileView, n: nat) -> Seq<ValidatedView>
    decreases n,
{
    if n == 0 {
        Seq::empty()
    } else if is_accepted(f, n - 1) {
        accepted_among(f, (n - 1) as nat).push(accepted_view(f, n - 1))
    } else {
        accepted_among(f, (n - 1) as nat)
    }
}

/// The accepted directives of the file, in order.
pub open spec fn accepted(f: FileView) -> Seq<ValidatedView> {
    accepted_among(f, f.directives.len())
}

/// The view of what validation reads.
pub open spec fn file_view(
    directives: Seq<RawDirective>,
    suite: TestSuite,
    registry: Registry,
    catalog: Catalog,
) -> FileView {
    FileView { directives: views(directives), suite, entries: registry@, catalog: catalog@ }
}

/// The view of an optional entry.
pub open spec fn entry_view(entry: Option<&DirectiveSpec>) -> Option<DirectiveSpecView> {
    match entry {
        Some(e) => Some(e@),
        None => None,
    }
}

/// Appends one finding.
fn push_finding(out: &mut Vec<Diagnostic>, found: Diagnostic)
    ensures
        views(final(out)@) == views(old(out)@) + seq![found@],
{
    proof {
        lemma_views_push(out@, found);
        assert(views(out@).push(found@) =~= views(out@) + seq![found@]);
    }
    out.push(found);
}

/// Nothing appended is the empty sequence appended.
proof fn lemma_add_nothing(s: Seq<DiagnosticView>)
    ensures
        s + Seq::<DiagnosticView>::empty() == s,
{
    assert(s + Seq::<DiagnosticView>::empty() =~= s);
}

/// Computes [`declared_names`].
fn names_declared(d: &RawDirective, entry: Option<&DirectiveSpec>, catalog: &Catalog) -> (out: Vec<
    Vec<u8>,
>)
    ensures
        views(out@) == declared_names(d@, entry_view(entry)),
{
    match entry {
        Some(e) => {
            if e.field == PropertyField::Revisions {
                let (value, _) = read_argument(d, &e.grammar, catalog);
                value.strings(d.name.as_slice())
            } else {
                no_rows()
            }
        },
        None => no_rows(),
    }
}

/// Computes [`FileView::declared`].
pub fn declared_revisions(directives: &Vec<RawDirective>, suite: TestSuite, registry: &Registry, catalog: &Catalog) -> (out: Vec<Vec<u8>>)
    ensures
        views(out@) == file_view(directives@, suite, *registry, *catalog).declared(),
{
    let ghost f = file_view(directives@, suite, *registry, *catalog);
    let n: usize = directives.len();
    let mut out = no_rows();
    let mut j: usize = 0;
    while j < n
        invariant
            n == directives@.len(),
            j <= n,
            f == file_view(directives@, suite, *registry, *catalog),
            views(out@) == f.declared_among(j as nat),
        decreases n - j,
    {
        let d = &directives[j];
        if d.scope.is_base() {
            let entry = registry.lookup(d.name.as_slice());
            assert(entry_view(entry) == f.entry_of(j as int));
            let mut names = names_declared(d, entry, catalog);
            let ghost before = views(out@);
            let ghost added = views(names@);
            proof {
                lemma_views_append(out@, names@);
            }
            out.append(&mut names);
            assert(views(out@) == before + added);
        }
        j = j + 1;
    }
    out
}

/// The views of two lists, one after the other, are the views of the whole.
pub proof fn lemma_views_append<T: View>(a: Seq<T>, b: Seq<T>)
    ensures
        views(a + b) == views(a) + views(b),
{
    assert(views(a + b) =~= views(a) + views(b));
}

/// Computes [`exclude_each_other`].
pub fn excludes(registry: &Registry, a: &[u8], b: &[u8]) -> (r: bool)
    ensures
        r == exclude_each_other(registry@, a@, b@),
{
    let forth = match registry.lookup(a) {
        Some(e) => has_row(&e.excludes, b),
        None => false,
    };
    let back = match registry.lookup(b) {
        Some(e) => has_row(&e.excludes, a),
        None => false,
    };
    forth || back
}

/// Appends [`scope_findings`].
fn check_scope(
    out: &mut Vec<Diagnostic>,
    d: &RawDirective,
    entry: Option<&DirectiveSpec>,
    mode: TestMode,
    declared: &Vec<Vec<u8>>,
    catalog: &Catalog,
)
    ensures
        views(final(out)@) == views(old(out)@) + scope_findings(
            d@,
            entry_view(entry),
            mode,
            views(declared@),
        ),
{
    let scoped = !d.scope.is_base();
    if !mode.supports_revisions() && (scoped || names_declared(d, entry, catalog).len() > 0) {
        let found = Diagnostic::new(
            DiagnosticKind::RevisionsUnsupported,
            d.location,
            make_phrase2(
                "directive `",
                d.name.as_slice(),
                "` uses revisions, which test mode `",
                mode.name().as_slice(),
                "` does not support",
            ),
            None,
        );
        push_finding(out, found);
        return ;
    }
    let ghost start = views(out@);
    let ghost policy = policy_findings(d@, entry_view(entry));
    match entry {
        Some(e) => {
            match e.policy {
                ScopePolicy::BaseOnly => {
                    if scoped {
                        let found = Diagnostic::new(
                            DiagnosticKind::ScopeNotAllowed,
                            d.location,
                            make_phrase(
                                "directive `",
                                d.name.as_slice(),
                                "` must not be scoped to a revision",
                            ),
                            None,
                        );
                        push_finding(out, found);
                    }
                },
                ScopePolicy::RevisionOnly => {
                    if !scoped {
                        let found = Diagnostic::new(
                            DiagnosticKind::ScopeNotAllowed,
                            d.location,
                            make_phrase(
                                "directive `",
                                d.name.as_slice(),
                                "` must be scoped to a revision",
                            ),
                            None,
                        );
                        push_finding(out, found);
                    }
                },
                ScopePolicy::Either => {},
            }
        },
        None => {},
    }
    proof {
        lemma_add_nothing(start);
    }
    assert(views(out@) == start + policy);
    match &d.scope {
        RevisionScope::Revision(r) => {
            if !has_row(declared, r.as_slice()) {
                let found = Diagnostic::new(
                    DiagnosticKind::UnknownRevision,
                    d.location,
                    make_phrase("revision `", r.as_slice(), "` is not declared"),
                    suggest(r.as_slice(), declared),
                );
                push_finding(out, found);
            }
        },
        RevisionScope::Base => {},
    }
    proof {
        lemma_add_nothing(start + policy);
        assert(views(out@) =~= start + (policy + revision_findings(d@, views(declared@))));
    }
}

/// Appends [`reserved_findings`].
fn check_reserved(
    out: &mut Vec<Diagnostic>,
    d: &RawDirective,
    entry: Option<&DirectiveSpec>,
    mode: TestMode,
    catalog: &Catalog,
)
    ensures
        views(final(out)@) == views(old(out)@) + reserved_findings(
            d@,
            entry_view(entry),
            mode,
            catalog@,
        ),
{
    if !(mode.supports_revisions() && d.scope.is_base()) {
        proof {
            lemma_add_nothing(views(out@));
        }
        return ;
    }
    let names = names_declared(d, entry, catalog);
    let n: usize = names.len();
    let ghost start = views(out@);
    let mut i: usize = 0;
    proof {
        lemma_add_nothing(start);
    }
    while i < n
        invariant
            n == names@.len(),
            i <= n,
            views(out@) == start + reserved_among(d@, views(names@), catalog@, i as nat),
        decreases n - i,
    {
        let name: &[u8] = names[i].as_slice();
        if catalog.is_reserved_revision_name(name) {
            let found = Diagnostic::new(
                DiagnosticKind::ReservedRevisionName,
                d.location,
                make_phrase(
                    "revision name `",
                    name,
                    "` is reserved for a built-in configuration predicate",
                ),
                None,
            );
            let ghost before = reserved_among(d@, views(names@), catalog@, i as nat);
            push_finding(out, found);
            assert(start + before + seq![found@] =~= start + before.push(found@));
        }
        i = i + 1;
    }
}

/// Appends the findings about the directive at `j` and the earlier
/// directives that it clashes with.
fn check_exclusions(
    out: &mut Vec<Diagnostic>,
    directives: &Vec<RawDirective>,
    j: usize,
    registry: &Registry,
    Ghost(f): Ghost<FileView>,
)
    requires
        j < directives@.len(),
        f.directives == views(directives@),
        f.entries == registry@,
    ensures
        views(final(out)@) == views(old(out)@) + exclusion_findings(f, j as int, j as nat),
{
    let d = &directives[j];
    let ghost start = views(out@);
    let mut i: usize = 0;
    proof {
        lemma_add_nothing(start);
    }
    while i < j
        invariant
            j < directives@.len(),
            i <= j,
            d@ == f.directives[j as int],
            f.directives == views(directives@),
            f.entries == registry@,
            views(out@) == start + exclusion_findings(f, j as int, i as nat),
        decreases j - i,
    {
        let other = &directives[i];
        if excludes(registry, other.name.as_slice(), d.name.as_slice()) && other.scope.overlaps(
            &d.scope,
        ) {
            let found = Diagnostic::new(
                DiagnosticKind::MutuallyExclusive,
                d.location,
                make_phrase2(
                    "directive `",
                    d.name.as_slice(),
                    "` and directive `",
                    other.name.as_slice(),
                    "` exclude each other",
                ),
                None,
            );
            let ghost before = exclusion_findings(f, j as int, i as nat);
            push_finding(out, found);
            assert(start + before + seq![found@] =~= start + before.push(found@));
        }
        i = i + 1;
    }
}

/// Appends [`entry_findings`] for a directive with an entry, and returns
/// the directive's typed value.
fn check_entry(
    out: &mut Vec<Diagnostic>,
    d: &RawDirective,
    e: &DirectiveSpec,
    mode: TestMode,
    catalog: &Catalog,
) -> (value: ArgValue)
    ensures
        views(final(out)@) == views(old(out)@) + entry_findings(d@, Some(e@), mode, catalog@),
        value@ == argument_value(d@, e@.grammar),
{
    let n: usize = e.banned_under.len();
    let ghost start = views(out@);
    let ghost bans = views(e.banned_under@);
    let mut i: usize = 0;
    proof {
        lemma_add_nothing(start);
    }
    while i < n
        invariant
            n == e.banned_under@.len(),
            i <= n,
            bans == views(e.banned_under@),
            views(out@) == start + ban_findings(d@, bans, mode, i as nat),
        decreases n - i,
    {
        let ban = &e.banned_under[i];
        if ban.mode == mode && carries_flag(d.raw_args.as_slice(), ban.flag.as_slice()) {
            let message = if ban.flag.len() == 0 {
                make_phrase2(
                    "directive `",
                    d.name.as_slice(),
                    "` is banned under test mode `",
                    ban.mode.name().as_slice(),
                    "`",
                )
            } else {
                make_phrase2(
                    "flag `",
                    ban.flag.as_slice(),
                    "` is banned under test mode `",
                    ban.mode.name().as_slice(),
                    "`",
                )
            };
            let found = Diagnostic::new(DiagnosticKind::BannedFlag, d.location, message, None);
            let ghost before = ban_findings(d@, bans, mode, i as nat);
            push_finding(out, found);
            assert(start + before + seq![found@] =~= start + before.push(found@));
        }
        i = i + 1;
    }
    let (value, mut more) = read_argument(d, &e.grammar, catalog);
    let ghost banned = ban_findings(d@, bans, mode, n as nat);
    let ghost argued = views(more@);
    proof {
        lemma_views_append(out@, more@);
    }
    out.append(&mut more);
    assert(views(out@) =~= start + (banned + argued));
    value
}

/// Computes [`repeats_earlier`].
fn is_repeated(directives: &Vec<RawDirective>, j: usize, Ghost(f): Ghost<FileView>) -> (b: bool)
    requires
        j < directives@.len(),
        f.directives == views(directives@),
    ensures
        b == repeats_earlier(f, j as int),
{
    let d = &directives[j];
    let mut i: usize = 0;
    while i < j
        invariant
            j < directives@.len(),
            i <= j,
            d@ == f.directives[j as int],
            f.directives == views(directives@),
            forall|k: int| 0 <= k < i ==> !(#[trigger] f.directives[k]).repeats(f.directives[j as int]),
        decreases j - i,
    {
        if directives[i].repeats(d) {
            assert(f.directives[i as int].repeats(f.directives[j as int]));
            return true;
        }
        i = i + 1;
    }
    false
}

/// Checks the directive at `j`.  Returns the directive as accepted, if it
/// is, and the findings about it.
fn check_directive(
    directives: &Vec<RawDirective>,
    j: usize,
    suite: TestSuite,
    registry: &Registry,
    catalog: &Catalog,
    declared: &Vec<Vec<u8>>,
    names: &Vec<Vec<u8>>,
) -> (r: (Option<ValidatedDirective>, Vec<Diagnostic>))
    requires
        j < directives@.len(),
        views(declared@) == file_view(directives@, suite, *registry, *catalog).declared(),
        views(names@) == spec_names(registry@),
    ensures
        views(r.1@) == findings_of(file_view(directives@, suite, *registry, *catalog), j as int),
        match r.0 {
            Some(v) => is_accepted(file_view(directives@, suite, *registry, *catalog), j as int)
                && v@ == accepted_view(
                file_view(directives@, suite, *registry, *catalog),
                j as int,
            ),
            None => !is_accepted(file_view(directives@, suite, *registry, *catalog), j as int),
        },
{
    let ghost f = file_view(directives@, suite, *registry, *catalog);
    let d = &directives[j];
    let mode = suite.mode();
    let found_at = registry.find(d.name.as_slice());
    let entry: Option<&DirectiveSpec> = match found_at {
        Some(i) => registry.entry(i),
        None => None,
    };
    assert(entry_view(entry) == f.entry_of(j as int));
    let mut out: Vec<Diagnostic> = Vec::new();
    assert(views(out@) =~= Seq::<DiagnosticView>::empty());
    // unknown directive
    if entry.is_none() {
        let found = Diagnostic::new(
            DiagnosticKind::UnknownDirective,
            d.location,
            make_phrase("unknown directive `", d.name.as_slice(), "`"),
            suggest(d.name.as_slice(), names),
        );
        push_finding(&mut out, found);
    }
    let ghost unknown = unknown_findings(d@, f.entry_of(j as int), spec_names(f.entries));
    assert(views(out@) =~= unknown);
    // availability in the suite
    match entry {
        Some(e) => {
            if !e.applies_to(suite) {
                let found = Diagnostic::new(
                    DiagnosticKind::NotApplicable,
                    d.location,
                    make_phrase2(
                        "directive `",
                        d.name.as_slice(),
                        "` is not available in test suite `",
                        suite.name().as_slice(),
                        "`",
                    ),
                    None,
                );
                push_finding(&mut out, found);
            }
        },
        None => {},
    }
    let ghost applicable = applicability_findings(d@, f.entry_of(j as int), suite);
    assert(views(out@) =~= unknown + applicable);
    check_scope(&mut out, d, entry, mode, declared, catalog);
    check_reserved(&mut out, d, entry, mode, catalog);
    check_exclusions(&mut out, directives, j, registry, Ghost(f));
    let value: Option<ArgValue> = match entry {
        Some(e) => Some(check_entry(&mut out, d, e, mode, catalog)),
        None => {
            proof {
                lemma_add_nothing(views(out@));
            }
            None
        },
    };
    assert(views(out@) =~= errors_of(f, j as int));
    let accepted: Option<ValidatedDirective> = match (found_at, entry, value) {
        (Some(i), Some(e), Some(v)) => {
            if out.len() == 0 {
                Some(ValidatedDirective { raw: d.duplicate(), entry: i, field: e.field, value: v })
            } else {
                None
            }
        },
        _ => None,
    };
    if is_repeated(directives, j, Ghost(f)) {
        let found = Diagnostic::new(
            DiagnosticKind::Redundant,
            d.location,
            make_phrase("directive `", d.name.as_slice(), "` repeats an earlier one"),
            None,
        );
        push_finding(&mut out, found);
    } else {
        proof {
            lemma_add_nothing(views(out@));
        }
    }
    (accepted, out)
}

/// Checks the directives of one file.  Returns the accepted directives, in
/// order, and all findings, directive by directive.
pub fn validate(
    directives: &Vec<RawDirective>,
    suite: TestSuite,
    registry: &Registry,
    catalog: &Catalog,
) -> (r: (Vec<ValidatedDirective>, Vec<Diagnostic>))
    ensures
        views(r.0@) == accepted(file_view(directives@, suite, *registry, *catalog)),
        views(r.1@) == findings(file_view(directives@, suite, *registry, *catalog)),
{
    let ghost f = file_view(directives@, suite, *registry, *catalog);
    let declared = declared_revisions(directives, suite, registry, catalog);
    let names = registry.names();
    let n: usize = directives.len();
    let mut passed: Vec<ValidatedDirective> = Vec::new();
    let mut found: Vec<Diagnostic> = Vec::new();
    assert(views(passed@) =~= Seq::<ValidatedView>::empty());
    assert(views(found@) =~= Seq::<DiagnosticView>::empty());
    let mut j: usize = 0;
    while j < n
        invariant
            n == directives@.len(),
            j <= n,
            f == file_view(directives@, suite, *registry, *catalog),
            views(declared@) == f.declared(),
            views(names@) == spec_names(registry@),
            views(passed@) == accepted_among(f, j as nat),
            views(found@) == findings_among(f, j as nat),
        decreases n - j,
    {
        let (one, mut more) = check_directive(
            directives,
            j,
            suite,
            registry,
            catalog,
            &declared,
            &names,
        );
        proof {
            lemma_views_append(found@, more@);
        }
        found.append(&mut more);
        match one {
            Some(v) => {
                proof {
                    lemma_views_push(passed@, v);
                }
                passed.push(v);
            },
            None => {},
        }
        j = j + 1;
    }
    (passed, found)
}

} // verus!
