//! Diagnostics, and the sink that keeps them in source order.

use crate::text::{lit, literal, option_view, views};
use vstd::prelude::*;

verus! {

/// How serious a diagnostic is.  Only errors make a file fail.
#[derive(Debug, Copy, Clone, PartialEq, Eq, Structural)]
pub enum Severity {
    Error,
    Warning,
}

/// A place in a test file; lines and columns count from one, in bytes.
#[derive(Debug, Copy, Clone, PartialEq, Eq, Structural)]
pub struct Location {
    pub line: usize,
    pub column: usize,
}

impl Location {
    /// Whether `self` comes after `other` in the file.
    pub open spec fn spec_is_after(self, other: Location) -> bool {
        self.line > other.line || (self.line == other.line && self.column > other.column)
    }

    /// Whether `self` comes after `other` in the file.
    #[verifier::when_used_as_spec(spec_is_after)]
    pub fn is_after(self, other: Location) -> (b: bool)
        ensures
            b == self.spec_is_after(other),
    {
        self.line > other.line || (self.line == other.line && self.column > other.column)
    }
}

/// What a diagnostic is about.
#[derive(Debug, Copy, Clone, PartialEq, Eq, Structural)]
pub enum DiagnosticKind {
    /// The line does not start with the directive marker.
    MissingMarker,
    /// Nothing follows the directive marker.
    EmptyDirective,
    /// The revision bracket is not closed, or the name in it is empty or
    /// holds a blank or a bracket.
    MalformedRevision,
    /// No directive name stands where one is expected.
    EmptyName,
    /// Text follows the directive name without a colon.
    TrailingText,
    /// The registry knows no directive of that name.
    UnknownDirective,
    /// The directive is not available in the file's mode or suite.
    NotApplicable,
    /// The file's mode has no revisions, yet the directive uses them.
    RevisionsUnsupported,
    /// The directive is revision-scoped where it must not be, or the
    /// other way round.
    ScopeNotAllowed,
    /// The directive's scope names a revision that the file does not declare.
    UnknownRevision,
    /// A declared revision has the name of a built-in configuration predicate.
    ReservedRevisionName,
    /// The directive repeats an earlier one word for word.
    Redundant,
    /// The directive and an earlier one exclude each other.
    MutuallyExclusive,
    /// The directive carries a flag that is banned under the file's mode.
    BannedFlag,
    /// The directive takes no argument and has one.
    UnexpectedArgument,
    /// The directive needs an argument and has none.
    MissingArgument,
    /// A piece of the argument is not of the form key = value.
    MalformedPair,
    /// The directive does not know a key of its argument.
    UnknownKey,
    /// A target, architecture, operating system or vendor is not in the catalog.
    UnknownPlatform,
}

impl DiagnosticKind {
    /// The severity that diagnostics of this kind have: a repetition is
    /// worth a warning, everything else is an error.
    pub open spec fn spec_severity(self) -> Severity {
        if self == DiagnosticKind::Redundant {
            Severity::Warning
        } else {
            Severity::Error
        }
    }

    /// The severity that diagnostics of this kind have.
    #[verifier::when_used_as_spec(spec_severity)]
    pub fn severity(self) -> (s: Severity)
        ensures
            s == self.spec_severity(),
    {
        match self {
            DiagnosticKind::Redundant => Severity::Warning,
            _ => Severity::Error,
        }
    }
}

/// One finding about a test file.
#[derive(Debug, Clone, PartialEq, Eq)]
pub struct Diagnostic {
    pub severity: Severity,
    pub kind: DiagnosticKind,
    pub message: Vec<u8>,
    pub location: Location,
    pub suggestion: Option<Vec<u8>>,
}

/// The mathematical value of a [`Diagnostic`].
pub ghost struct DiagnosticView {
    pub severity: Severity,
    pub kind: DiagnosticKind,
    pub message: Seq<u8>,
    pub location: Location,
    pub suggestion: Option<Seq<u8>>,
}

impl View for Diagnostic {
    type V = DiagnosticView;

    open spec fn view(&self) -> DiagnosticView {
        DiagnosticView {
            severity: self.severity,
            kind: self.kind,
            message: self.message@,
            location: self.location,
            suggestion: option_view(self.suggestion),
        }
    }
}

/// The diagnostic of the given kind, with the severity that the kind has.
pub open spec fn finding(
    kind: DiagnosticKind,
    location: Location,
    message: Seq<u8>,
    suggestion: Option<Seq<u8>>,
) -> DiagnosticView {
    DiagnosticView { severity: kind.spec_severity(), kind, message, location, suggestion }
}

impl Diagnostic {
    /// Builds [`finding`].
    pub fn new(
        kind: DiagnosticKind,
        location: Location,
        message: Vec<u8>,
        suggestion: Option<Vec<u8>>,
    ) -> (d: Diagnostic)
        ensures
            d@ == finding(kind, location, message@, option_view(suggestion)),
    {
        Diagnostic { severity: kind.severity(), kind, message, location, suggestion }
    }

    /// Whether the diagnostic is an error.
    pub fn is_error(&self) -> (b: bool)
        ensures
            b == (self@.severity == Severity::Error),
    {
        match self.severity {
            Severity::Error => true,
            Severity::Warning => false,
        }
    }
}

/// Appends `x` to `v`.
pub fn append_bytes(v: &mut Vec<u8>, x: &[u8])
    ensures
        final(v)@ == old(v)@ + x@,
{
    let n: usize = x.len();
    let mut i: usize = 0;
    while i < n
        invariant
            n == x@.len(),
            i <= n,
            v@ == old(v)@ + x@.take(i as int),
        decreases n - i,
    {
        v.push(x[i]);
        assert(v@ =~= old(v)@ + x@.take(i + 1));
        i = i + 1;
    }
    assert(x@.take(n as int) =~= x@);
}

/// A message made of a name between two fixed texts.
pub open spec fn phrase(before: &str, name: Seq<u8>, after: &str) -> Seq<u8> {
    lit(before) + name + lit(after)
}

/// Builds [`phrase`].
pub fn make_phrase(before: &str, name: &[u8], after: &str) -> (v: Vec<u8>)
    ensures
        v@ == phrase(before, name@, after),
{
    let mut v = literal(before);
    append_bytes(&mut v, name);
    append_bytes(&mut v, after.as_bytes());
    v
}

/// A message made of two names between three fixed texts.
pub open spec fn phrase2(
    before: &str,
    first: Seq<u8>,
    between: &str,
    second: Seq<u8>,
    after: &str,
) -> Seq<u8> {
    lit(before) + first + lit(between) + second + lit(after)
}

/// Builds [`phrase2`].
pub fn make_phrase2(before: &str, first: &[u8], between: &str, second: &[u8], after: &str) -> (v:
    Vec<u8>)
    ensures
        v@ == phrase2(before, first@, between, second@, after),
{
    let mut v = literal(before);
    append_bytes(&mut v, first);
    append_bytes(&mut v, between.as_bytes());
    append_bytes(&mut v, second);
    append_bytes(&mut v, after.as_bytes());
    v
}

/// How many of the diagnostics are errors.
pub open spec fn count_errors(items: Seq<DiagnosticView>) -> nat
    decreases items.len(),
{
    if items.len() == 0 {
        0
    } else {
        count_errors(items.drop_last()) + if items.last().severity == Severity::Error {
            1nat
        } else {
            0nat
        }
    }
}

/// Errors are counted piece by piece.
pub proof fn lemma_count_errors_add(a: Seq<DiagnosticView>, b: Seq<DiagnosticView>)
    ensures
        count_errors(a + b) == count_errors(a) + count_errors(b),
    decreases b.len(),
{
    if b.len() == 0 {
        assert(a + b =~= a);
    } else {
        assert((a + b).drop_last() =~= a + b.drop_last());
        lemma_count_errors_add(a, b.drop_last());
    }
}

/// Two diagnostics hold the errors that each of them is.
pub proof fn lemma_count_errors_one(d: DiagnosticView)
    ensures
        count_errors(seq![d]) == if d.severity == Severity::Error {
            1nat
        } else {
            0nat
        },
{
    assert(seq![d].drop_last() =~= Seq::<DiagnosticView>::empty());
    assert(count_errors(Seq::<DiagnosticView>::empty()) == 0);
}

/// Counts the errors among the diagnostics.
pub fn error_count(items: &Vec<Diagnostic>) -> (n: usize)
    ensures
        n == count_errors(views(items@)),
{
    let len: usize = items.len();
    let mut n: usize = 0;
    let mut i: usize = 0;
    assert(views(items@).take(0) =~= Seq::<DiagnosticView>::empty());
    while i < len
        invariant
            len == items@.len(),
            i <= len,
            n <= i,
            n == count_errors(views(items@).take(i as int)),
        decreases len - i,
    {
        proof {
            let next = views(items@).take(i + 1);
            assert(next.drop_last() =~= views(items@).take(i as int));
            assert(next.last() == items@[i as int]@);
        }
        if items[i].is_error() {
            n = n + 1;
        }
        i = i + 1;
    }
    assert(views(items@).take(len as int) =~= views(items@));
    n
}

/// Whether `items` is in source order: no diagnostic stands before one whose
/// location comes earlier.
pub open spec fn in_source_order(items: Seq<DiagnosticView>) -> bool {
    forall|i: int, j: int|
        0 <= i < j < items.len() ==> !(#[trigger] items[i]).location.spec_is_after(
            (#[trigger] items[j]).location,
        )
}

/// The position at or after `i` where a diagnostic at `location` is put: in
/// front of the first one that comes after it in the file.
pub open spec fn insertion_point(items: Seq<DiagnosticView>, location: Location, i: int) -> int
    decreases items.len() - i,
{
    if 0 <= i < items.len() && !items[i].location.spec_is_after(location) {
        insertion_point(items, location, i + 1)
    } else {
        i
    }
}

/// `items` with `d` added in source order, after the diagnostics at its own
/// location that are there already.
pub open spec fn with_reported(items: Seq<DiagnosticView>, d: DiagnosticView) -> Seq<
    DiagnosticView,
> {
    items.insert(insertion_point(items, d.location, 0), d)
}

/// Where a diagnostic is put: inside the list, after nothing that comes
/// later, and in front of a diagnostic that comes later unless it is put last.
pub proof fn lemma_insertion_point(items: Seq<DiagnosticView>, location: Location, i: int)
    requires
        0 <= i <= items.len(),
    ensures
        i <= insertion_point(items, location, i) <= items.len(),
        forall|k: int|
            i <= k < insertion_point(items, location, i) ==> !(#[trigger] items[k]).location.spec_is_after(
            location),
        insertion_point(items, location, i) < items.len() ==> items[insertion_point(
            items,
            location,
            i,
        )].location.spec_is_after(location),
    decreases items.len() - i,
{
    if i < items.len() && !items[i].location.spec_is_after(location) {
        lemma_insertion_point(items, location, i + 1);
    }
}

/// Reporting keeps the source order, adds exactly the one diagnostic, and
/// so adds one error exactly when the diagnostic is one.
pub proof fn lemma_with_reported(items: Seq<DiagnosticView>, d: DiagnosticView)
    requires
        in_source_order(items),
    ensures
        in_source_order(with_reported(items, d)),
        with_reported(items, d).len() == items.len() + 1,
        with_reported(items, d).to_multiset() == items.to_multiset().insert(d),
        count_errors(with_reported(items, d)) == count_errors(items) + if d.severity
            == Severity::Error {
            1nat
        } else {
            0nat
        },
{
    let p = insertion_point(items, d.location, 0);
    lemma_insertion_point(items, d.location, 0);
    let out = with_reported(items, d);
    assert forall|i: int, j: int| 0 <= i < j < out.len() implies !(#[trigger] out[i]).location.spec_is_after(
        (#[trigger] out[j]).location,
    ) by {
        if i < p && j == p {
            assert(out[i] == items[i]);
        } else if i < p && j > p {
            assert(out[i] == items[i]);
            assert(out[j] == items[j - 1]);
        } else if i < p && j < p {
            assert(out[i] == items[i]);
            assert(out[j] == items[j]);
        } else if i == p {
            assert(out[j] == items[j - 1]);
            assert(!items[p].location.spec_is_after(items[j - 1].location)) by {
                if j - 1 > p {
                    assert(!items[p].location.spec_is_after(items[j - 1].location));
                }
            }
        } else {
            assert(out[i] == items[i - 1]);
            assert(out[j] == items[j - 1]);
        }
    }
    vstd::seq_lib::to_multiset_insert(items, p, d);
    let front = items.subrange(0, p);
    let back = items.subrange(p, items.len() as int);
    assert(out =~= front + seq![d] + back);
    assert(items =~= front + back);
    lemma_count_errors_add(front + seq![d], back);
    lemma_count_errors_add(front, seq![d]);
    lemma_count_errors_add(front, back);
    lemma_count_errors_one(d);
}

/// Whatever is reported to a list in source order, and in whatever order,
/// the list stays in source order, holds every diagnostic once more, and
/// counts the errors of both.
pub proof fn lemma_with_all_reported(items: Seq<DiagnosticView>, ds: Seq<DiagnosticView>, n: nat)
    requires
        n <= ds.len(),
        in_source_order(items),
    ensures
        in_source_order(with_all_reported(items, ds, n)),
        with_all_reported(items, ds, n).len() == items.len() + n,
        with_all_reported(items, ds, n).to_multiset() == items.to_multiset().add(
            ds.take(n as int).to_multiset(),
        ),
        count_errors(with_all_reported(items, ds, n)) == count_errors(items) + count_errors(
            ds.take(n as int),
        ),
    decreases n,
{
    broadcast use vstd::seq_lib::group_to_multiset_ensures;

    if n == 0 {
        assert(ds.take(0) =~= Seq::<DiagnosticView>::empty());
        assert(items.to_multiset().add(ds.take(0).to_multiset()) =~= items.to_multiset());
    } else {
        let before = with_all_reported(items, ds, (n - 1) as nat);
        lemma_with_all_reported(items, ds, (n - 1) as nat);
        lemma_with_reported(before, ds[n - 1]);
        assert(ds.take(n as int) =~= ds.take(n - 1).push(ds[n - 1]));
        assert(ds.take(n as int).drop_last() =~= ds.take(n - 1));
        assert(items.to_multiset().add(ds.take(n - 1).to_multiset()).insert(ds[n - 1])
            =~= items.to_multiset().add(ds.take(n as int).to_multiset()));
    }
}

/// The diagnostics in the order in which a sink hands them out after they
/// were reported to it one by one.
pub open spec fn reported(ds: Seq<DiagnosticView>) -> Seq<DiagnosticView> {
    with_all_reported(Seq::empty(), ds, ds.len())
}

/// What a sink hands out is in source order, holds what was reported, each
/// diagnostic once, and counts the same errors.
pub proof fn lemma_reported(ds: Seq<DiagnosticView>)
    ensures
        in_source_order(reported(ds)),
        reported(ds).len() == ds.len(),
        reported(ds).to_multiset() == ds.to_multiset(),
        count_errors(reported(ds)) == count_errors(ds),
{
    broadcast use vstd::seq_lib::group_to_multiset_ensures;

    let none = Seq::<DiagnosticView>::empty();
    lemma_with_all_reported(none, ds, ds.len());
    assert(ds.take(ds.len() as int) =~= ds);
    assert(none.to_multiset().add(ds.to_multiset()) =~= ds.to_multiset());
}

/// Collects the diagnostics of one file and keeps them in source order.
pub struct DiagnosticSink {
    items: Vec<Diagnostic>,
}

impl View for DiagnosticSink {
    type V = Seq<DiagnosticView>;

    closed spec fn view(&self) -> Seq<DiagnosticView> {
        views(self.items@)
    }
}

impl DiagnosticSink {
    /// A sink that holds nothing yet.
    pub fn new() -> (sink: DiagnosticSink)
        ensures
            sink@ == Seq::<DiagnosticView>::empty(),
    {
        let sink = DiagnosticSink { items: Vec::new() };
        assert(sink@ =~= Seq::<DiagnosticView>::empty());
        sink
    }

    /// Adds one diagnostic at its place in source order.
    pub fn report(&mut self, d: Diagnostic)
        ensures
            final(self)@ == with_reported(old(self)@, d@),
    {
        let n: usize = self.items.len();
        let mut i: usize = 0;
        while i < n && !self.items[i].location.is_after(d.location)
            invariant
                n == self.items@.len(),
                i <= n,
                *self == *old(self),
                insertion_point(self@, d@.location, 0) == insertion_point(
                    self@,
                    d@.location,
                    i as int,
                ),
            decreases n - i,
        {
            i = i + 1;
        }
        self.items.insert(i, d);
        assert(final(self)@ =~= with_reported(old(self)@, d@));
    }

    /// Adds the diagnostics one by one, each at its place in source order.
    pub fn report_all(&mut self, ds: Vec<Diagnostic>)
        ensures
            final(self)@ == with_all_reported(old(self)@, views(ds@), ds@.len()),
    {
        let mut ds = ds;
        let ghost all = views(ds@);
        let ghost total = ds@.len();
        let mut rest: Vec<Diagnostic> = Vec::new();
        // take the diagnostics off the end, then report them from the front
        while ds.len() > 0
            invariant
                ds@.len() + rest@.len() == total,
                total == all.len(),
                views(ds@) == all.take(ds@.len() as int),
                forall|k: int| 0 <= k < rest@.len() ==> rest@[k]@ == all[total - 1 - k],
                *self == *old(self),
            decreases ds@.len(),
        {
            let ghost before = views(ds@);
            let ghost last = ds@.len() - 1;
            let d = ds.pop().unwrap();
            assert(d@ == before[last]);
            rest.push(d);
            assert(views(ds@) =~= all.take(ds@.len() as int));
        }
        let ghost mut done: nat = 0;
        while rest.len() > 0
            invariant
                done + rest@.len() == total,
                total == all.len(),
                forall|k: int| 0 <= k < rest@.len() ==> rest@[k]@ == all[total - 1 - k],
                self@ == with_all_reported(old(self)@, all, done),
            decreases rest@.len(),
        {
            let d = rest.pop().unwrap();
            self.report(d);
            proof {
                done = done + 1;
            }
        }
    }

    /// The diagnostics reported so far, in source order.
    pub fn diagnostics(&self) -> (items: &Vec<Diagnostic>)
        ensures
            views(items@) == self@,
    {
        &self.items
    }

    /// Hands over the diagnostics reported so far, in source order.
    pub fn into_diagnostics(self) -> (items: Vec<Diagnostic>)
        ensures
            views(items@) == self@,
    {
        self.items
    }

    /// Whether an error was reported.
    pub fn has_errors(&self) -> (b: bool)
        ensures
            b == (count_errors(self@) > 0),
    {
        error_count(&self.items) > 0
    }
}

/// `items` after the first `n` of `ds` were reported to it one by one.
pub open spec fn with_all_reported(
    items: Seq<DiagnosticView>,
    ds: Seq<DiagnosticView>,
    n: nat,
) -> Seq<DiagnosticView>
    decreases n,
{
    if n == 0 {
        items
    } else {
        with_reported(with_all_reported(items, ds, (n - 1) as nat), ds[n - 1])
    }
}


/// How many of the diagnostics are of the given kind.
pub open spec fn count_kind(items: Seq<DiagnosticView>, kind: DiagnosticKind) -> nat
    decreases items.len(),
{
    if items.len() == 0 {
        0
    } else {
        count_kind(items.drop_last(), kind) + if items.last().kind == kind {
            1nat
        } else {
            0nat
        }
    }
}

/// Diagnostics of a kind are counted piece by piece.
pub proof fn lemma_count_kind_add(a: Seq<DiagnosticView>, b: Seq<DiagnosticView>, kind: DiagnosticKind)
    ensures
        count_kind(a + b, kind) == count_kind(a, kind) + count_kind(b, kind),
    decreases b.len(),
{
    if b.len() == 0 {
        assert(a + b =~= a);
    } else {
        assert((a + b).drop_last() =~= a + b.drop_last());
        lemma_count_kind_add(a, b.drop_last(), kind);
    }
}

/// Whether every one of the diagnostics is an error.
pub open spec fn all_errors(items: Seq<DiagnosticView>) -> bool {
    forall|i: int| 0 <= i < items.len() ==> (#[trigger] items[i]).severity == Severity::Error
}

/// Where every diagnostic is an error, there are as many errors as
/// diagnostics.
pub proof fn lemma_count_all_errors(items: Seq<DiagnosticView>)
    requires
        all_errors(items),
    ensures
        count_errors(items) == items.len(),
    decreases items.len(),
{
    if items.len() > 0 {
        assert forall|i: int| 0 <= i < items.drop_last().len() implies (#[trigger] items.drop_last()[i]).severity
            == Severity::Error by {
            assert(items.drop_last()[i] == items[i]);
        }
        lemma_count_all_errors(items.drop_last());
    }
}

/// Where none of the diagnostics is of the given kind, none is counted.
pub proof fn lemma_count_kind_none(items: Seq<DiagnosticView>, kind: DiagnosticKind)
    requires
        forall|i: int| 0 <= i < items.len() ==> (#[trigger] items[i]).kind != kind,
    ensures
        count_kind(items, kind) == 0,
    decreases items.len(),
{
    if items.len() > 0 {
        assert forall|i: int| 0 <= i < items.drop_last().len() implies (#[trigger] items.drop_last()[i]).kind
            != kind by {
            assert(items.drop_last()[i] == items[i]);
        }
        lemma_count_kind_none(items.drop_last(), kind);
    }
}

} // verus!
