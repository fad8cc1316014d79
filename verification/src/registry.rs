//! The registry of known directives.
//!
//! Each entry says what a directive's argument looks like, where the
//! directive may be used, how it may be scoped, which directives it excludes
//! and which property it sets.  Validation reads all of that from the entry,
//! so a new directive is a new entry and nothing else.

use crate::catalog::ValueKind;
use crate::mode::{TestMode, TestSuite};
use crate::text::{
    first_index, lemma_first_index_prefix, lemma_views_push, lit, literal, no_rows, same_bytes,
    views,
};
use vstd::prelude::*;

verus! {

/// A set of test modes.
#[derive(Debug, Copy, Clone, PartialEq, Eq, Structural)]
pub struct ModeSet {
    pub ui: bool,
    pub run_make: bool,
    pub codegen: bool,
    pub assembly: bool,
}

impl ModeSet {
    /// Whether `mode` is in the set.
    pub open spec fn spec_contains(self, mode: TestMode) -> bool {
        match mode {
            TestMode::Ui => self.ui,
            TestMode::RunMake => self.run_make,
            TestMode::Codegen => self.codegen,
            TestMode::Assembly => self.assembly,
        }
    }

    /// Whether `mode` is in the set.
    #[verifier::when_used_as_spec(spec_contains)]
    pub fn contains(self, mode: TestMode) -> (b: bool)
        ensures
            b == self.spec_contains(mode),
    {
        match mode {
            TestMode::Ui => self.ui,
            TestMode::RunMake => self.run_make,
            TestMode::Codegen => self.codegen,
            TestMode::Assembly => self.assembly,
        }
    }

    /// The set without any mode.
    pub open spec fn spec_none() -> ModeSet {
        ModeSet { ui: false, run_make: false, codegen: false, assembly: false }
    }

    /// The set without any mode.
    #[verifier::when_used_as_spec(spec_none)]
    pub fn none() -> (s: ModeSet)
        ensures
            s == Self::spec_none(),
    {
        ModeSet { ui: false, run_make: false, codegen: false, assembly: false }
    }

    /// The set of all modes.
    pub open spec fn spec_all() -> ModeSet {
        ModeSet { ui: true, run_make: true, codegen: true, assembly: true }
    }

    /// The set of all modes.
    #[verifier::when_used_as_spec(spec_all)]
    pub fn all() -> (s: ModeSet)
        ensures
            s == Self::spec_all(),
    {
        ModeSet { ui: true, run_make: true, codegen: true, assembly: true }
    }

    /// The set with `mode` added.
    pub open spec fn spec_with(self, mode: TestMode) -> ModeSet {
        match mode {
            TestMode::Ui => ModeSet { ui: true, ..self },
            TestMode::RunMake => ModeSet { run_make: true, ..self },
            TestMode::Codegen => ModeSet { codegen: true, ..self },
            TestMode::Assembly => ModeSet { assembly: true, ..self },
        }
    }

    /// The set with `mode` added.
    #[verifier::when_used_as_spec(spec_with)]
    pub fn with(self, mode: TestMode) -> (s: ModeSet)
        ensures
            s == self.spec_with(mode),
    {
        match mode {
            TestMode::Ui => ModeSet { ui: true, ..self },
            TestMode::RunMake => ModeSet { run_make: true, ..self },
            TestMode::Codegen => ModeSet { codegen: true, ..self },
            TestMode::Assembly => ModeSet { assembly: true, ..self },
        }
    }
}

/// A set of test suites.
#[derive(Debug, Copy, Clone, PartialEq, Eq, Structural)]
pub struct SuiteSet {
    pub ui: bool,
    pub ui_fulldeps: bool,
    pub run_make: bool,
    pub codegen: bool,
    pub assembly: bool,
}

impl SuiteSet {
    /// Whether `suite` is in the set.
    pub open spec fn spec_contains(self, suite: TestSuite) -> bool {
        match suite {
            TestSuite::Ui => self.ui,
            TestSuite::UiFulldeps => self.ui_fulldeps,
            TestSuite::RunMake => self.run_make,
            TestSuite::Codegen => self.codegen,
            TestSuite::Assembly => self.assembly,
        }
    }

    /// Whether `suite` is in the set.
    #[verifier::when_used_as_spec(spec_contains)]
    pub fn contains(self, suite: TestSuite) -> (b: bool)
        ensures
            b == self.spec_contains(suite),
    {
        match suite {
            TestSuite::Ui => self.ui,
            TestSuite::UiFulldeps => self.ui_fulldeps,
            TestSuite::RunMake => self.run_make,
            TestSuite::Codegen => self.codegen,
            TestSuite::Assembly => self.assembly,
        }
    }

    /// The set without any suite.
    pub open spec fn spec_none() -> SuiteSet {
        SuiteSet { ui: false, ui_fulldeps: false, run_make: false, codegen: false, assembly: false }
    }

    /// The set without any suite.
    #[verifier::when_used_as_spec(spec_none)]
    pub fn none() -> (s: SuiteSet)
        ensures
            s == Self::spec_none(),
    {
        SuiteSet { ui: false, ui_fulldeps: false, run_make: false, codegen: false, assembly: false }
    }

    /// The set with `suite` added.
    pub open spec fn spec_with(self, suite: TestSuite) -> SuiteSet {
        match suite {
            TestSuite::Ui => SuiteSet { ui: true, ..self },
            TestSuite::UiFulldeps => SuiteSet { ui_fulldeps: true, ..self },
            TestSuite::RunMake => SuiteSet { run_make: true, ..self },
            TestSuite::Codegen => SuiteSet { codegen: true, ..self },
            TestSuite::Assembly => SuiteSet { assembly: true, ..self },
        }
    }

    /// The set with `suite` added.
    #[verifier::when_used_as_spec(spec_with)]
    pub fn with(self, suite: TestSuite) -> (s: SuiteSet)
        ensures
            s == self.spec_with(suite),
    {
        match suite {
            TestSuite::Ui => SuiteSet { ui: true, ..self },
            TestSuite::UiFulldeps => SuiteSet { ui_fulldeps: true, ..self },
            TestSuite::RunMake => SuiteSet { run_make: true, ..self },
            TestSuite::Codegen => SuiteSet { codegen: true, ..self },
            TestSuite::Assembly => SuiteSet { assembly: true, ..self },
        }
    }
}

/// The suites, within its modes, that a directive is available in.
#[derive(Debug, Copy, Clone, PartialEq, Eq, Structural)]
pub enum SuiteFilter {
    /// Every suite of an allowed mode.
    AllInMode,
    /// Only the suites of the set.
    Only(SuiteSet),
}

/// How a directive may be scoped.
#[derive(Debug, Copy, Clone, PartialEq, Eq, Structural)]
pub enum ScopePolicy {
    /// Only without a revision.
    BaseOnly,
    /// Only under a revision.
    RevisionOnly,
    /// Either way.
    Either,
}

/// The property that a directive sets.
#[derive(Debug, Copy, Clone, PartialEq, Eq, Structural)]
pub enum PropertyField {
    /// The list of the file's revisions.
    Revisions,
    /// What building and running the test is expected to end in.
    Expectation,
    /// The flags handed to the compiler.
    CompileFlags,
    /// The conditions under which the test is skipped.
    IgnoreRules,
    /// The target that the test is compiled for.
    CrossCompileTarget,
    /// The compare modes that the test is left out of.
    CompareModeExclusions,
    /// Identifiers that tie the test to outside documents.
    References,
}

/// A key that a key/value directive knows, and the kind of its value.
#[derive(Debug, Clone, PartialEq, Eq)]
pub struct KeySpec {
    pub key: Vec<u8>,
    pub kind: ValueKind,
}

/// The mathematical value of a [`KeySpec`].
pub ghost struct KeySpecView {
    pub key: Seq<u8>,
    pub kind: ValueKind,
}

impl View for KeySpec {
    type V = KeySpecView;

    open spec fn view(&self) -> KeySpecView {
        KeySpecView { key: self.key@, kind: self.kind }
    }
}

/// The shape of a directive's argument.
#[derive(Debug, Clone, PartialEq, Eq)]
pub enum ArgGrammar {
    /// No argument: the directive's presence says it all.
    Flag,
    /// The whole argument is one value.
    Text(ValueKind),
    /// Blank-separated values.
    List(ValueKind),
    /// Comma-separated `key = value` pairs.  An open grammar takes any key,
    /// as free text; a closed one only the keys it lists.
    KeyValue { keys: Vec<KeySpec>, open: bool },
}

/// The mathematical value of an [`ArgGrammar`].
pub ghost enum GrammarView {
    Flag,
    Text(ValueKind),
    List(ValueKind),
    KeyValue { keys: Seq<KeySpecView>, open: bool },
}

impl View for ArgGrammar {
    type V = GrammarView;

    open spec fn view(&self) -> GrammarView {
        match self {
            ArgGrammar::Flag => GrammarView::Flag,
            ArgGrammar::Text(kind) => GrammarView::Text(*kind),
            ArgGrammar::List(kind) => GrammarView::List(*kind),
            ArgGrammar::KeyValue { keys, open } => GrammarView::KeyValue {
                keys: views(keys@),
                open: *open,
            },
        }
    }
}

/// A flag that a directive must not carry under a mode.  An empty flag bans
/// the directive itself under that mode.
#[derive(Debug, Clone, PartialEq, Eq)]
pub struct Ban {
    pub mode: TestMode,
    pub flag: Vec<u8>,
}

/// The mathematical value of a [`Ban`].
pub ghost struct BanView {
    pub mode: TestMode,
    pub flag: Seq<u8>,
}

impl View for Ban {
    type V = BanView;

    open spec fn view(&self) -> BanView {
        BanView { mode: self.mode, flag: self.flag@ }
    }
}

/// What the registry knows of one directive.
#[derive(Debug, Clone, PartialEq, Eq)]
pub struct DirectiveSpec {
    pub name: Vec<u8>,
    pub grammar: ArgGrammar,
    pub allowed_modes: ModeSet,
    pub allowed_suites: SuiteFilter,
    pub policy: ScopePolicy,
    pub excludes: Vec<Vec<u8>>,
    pub banned_under: Vec<Ban>,
    pub field: PropertyField,
}

/// The mathematical value of a [`DirectiveSpec`].
pub ghost struct DirectiveSpecView {
    pub name: Seq<u8>,
    pub grammar: GrammarView,
    pub allowed_modes: ModeSet,
    pub allowed_suites: SuiteFilter,
    pub policy: ScopePolicy,
    pub excludes: Seq<Seq<u8>>,
    pub banned_under: Seq<BanView>,
    pub field: PropertyField,
}

impl View for DirectiveSpec {
    type V = DirectiveSpecView;

    open spec fn view(&self) -> DirectiveSpecView {
        DirectiveSpecView {
            name: self.name@,
            grammar: self.grammar@,
            allowed_modes: self.allowed_modes,
            allowed_suites: self.allowed_suites,
            policy: self.policy,
            excludes: views(self.excludes@),
            banned_under: views(self.banned_under@),
            field: self.field,
        }
    }
}

impl DirectiveSpecView {
    /// An entry that is available in every suite of the given modes, may be
    /// scoped either way, excludes nothing and bans nothing.
    pub open spec fn new(
        name: Seq<u8>,
        grammar: GrammarView,
        allowed_modes: ModeSet,
        field: PropertyField,
    ) -> DirectiveSpecView {
        DirectiveSpecView {
            name,
            grammar,
            allowed_modes,
            allowed_suites: SuiteFilter::AllInMode,
            policy: ScopePolicy::Either,
            excludes: Seq::empty(),
            banned_under: Seq::empty(),
            field,
        }
    }

    /// The entry with another scoping policy.
    pub open spec fn scoped(self, policy: ScopePolicy) -> DirectiveSpecView {
        DirectiveSpecView { policy, ..self }
    }

    /// The entry, available only in the given suites of its modes.
    pub open spec fn within(self, suites: SuiteSet) -> DirectiveSpecView {
        DirectiveSpecView { allowed_suites: SuiteFilter::Only(suites), ..self }
    }

    /// The entry, excluding one more directive.
    pub open spec fn excluding(self, other: Seq<u8>) -> DirectiveSpecView {
        DirectiveSpecView { excludes: self.excludes.push(other), ..self }
    }

    /// The entry with one more banned flag.
    pub open spec fn banning(self, mode: TestMode, flag: Seq<u8>) -> DirectiveSpecView {
        DirectiveSpecView { banned_under: self.banned_under.push(BanView { mode, flag }), ..self }
    }

    /// Whether the directive is available in `suite`: the suite's mode is
    /// allowed, and so is the suite itself within that mode.
    pub open spec fn applies_to(self, suite: TestSuite) -> bool {
        self.allowed_modes.spec_contains(suite.spec_mode()) && match self.allowed_suites {
            SuiteFilter::AllInMode => true,
            SuiteFilter::Only(suites) => suites.spec_contains(suite),
        }
    }
}

impl DirectiveSpec {
    /// Builds [`DirectiveSpecView::new`].
    pub fn new(name: Vec<u8>, grammar: ArgGrammar, allowed_modes: ModeSet, field: PropertyField) -> (s:
        DirectiveSpec)
        ensures
            s@ == DirectiveSpecView::new(name@, grammar@, allowed_modes, field),
    {
        let s = DirectiveSpec {
            name,
            grammar,
            allowed_modes,
            allowed_suites: SuiteFilter::AllInMode,
            policy: ScopePolicy::Either,
            excludes: Vec::new(),
            banned_under: Vec::new(),
            field,
        };
        assert(views(s.excludes@) =~= Seq::<Seq<u8>>::empty());
        assert(views(s.banned_under@) =~= Seq::<BanView>::empty());
        s
    }

    /// Builds [`DirectiveSpecView::scoped`].
    pub fn scoped(self, policy: ScopePolicy) -> (s: DirectiveSpec)
        ensures
            s@ == self@.scoped(policy),
    {
        let mut s = self;
        s.policy = policy;
        s
    }

    /// Builds [`DirectiveSpecView::within`].
    pub fn within(self, suites: SuiteSet) -> (s: DirectiveSpec)
        ensures
            s@ == self@.within(suites),
    {
        let mut s = self;
        s.allowed_suites = SuiteFilter::Only(suites);
        s
    }

    /// Builds [`DirectiveSpecView::excluding`].
    pub fn excluding(self, other: Vec<u8>) -> (s: DirectiveSpec)
        ensures
            s@ == self@.excluding(other@),
    {
        let mut s = self;
        proof {
            lemma_views_push(s.excludes@, other);
        }
        s.excludes.push(other);
        s
    }

    /// Builds [`DirectiveSpecView::banning`].
    pub fn banning(self, mode: TestMode, flag: Vec<u8>) -> (s: DirectiveSpec)
        ensures
            s@ == self@.banning(mode, flag@),
    {
        let mut s = self;
        let ban = Ban { mode, flag };
        proof {
            lemma_views_push(s.banned_under@, ban);
        }
        s.banned_under.push(ban);
        s
    }

    /// Whether the directive is available in `suite`.
    pub fn applies_to(&self, suite: TestSuite) -> (b: bool)
        ensures
            b == self@.applies_to(suite),
    {
        self.allowed_modes.contains(suite.mode()) && match self.allowed_suites {
            SuiteFilter::AllInMode => true,
            SuiteFilter::Only(suites) => suites.contains(suite),
        }
    }
}

/// The names of the entries, in order.
pub open spec fn spec_names(entries: Seq<DirectiveSpecView>) -> Seq<Seq<u8>> {
    Seq::new(entries.len(), |i: int| entries[i].name)
}

/// The position of the entry for `name`: the first one of that name.
pub open spec fn lookup(entries: Seq<DirectiveSpecView>, name: Seq<u8>) -> Option<int> {
    first_index(spec_names(entries), name)
}

/// Whether the directives `a` and `b` exclude each other: the entry of one
/// of them names the other.  The order of the two does not matter.
pub open spec fn exclude_each_other(
    entries: Seq<DirectiveSpecView>,
    a: Seq<u8>,
    b: Seq<u8>,
) -> bool {
    ||| lookup(entries, a) matches Some(i) && entries[i].excludes.contains(b)
    ||| lookup(entries, b) matches Some(j) && entries[j].excludes.contains(a)
}

/// Those of the first `n` entries that allow `mode`, in order.
pub open spec fn allowing(entries: Seq<DirectiveSpecView>, mode: TestMode, n: nat) -> Seq<
    DirectiveSpecView,
>
    decreases n,
{
    if n == 0 {
        Seq::empty()
    } else if entries[n - 1].allowed_modes.spec_contains(mode) {
        allowing(entries, mode, (n - 1) as nat).push(entries[n - 1])
    } else {
        allowing(entries, mode, (n - 1) as nat)
    }
}

/// The registry: an ordered list of entries, looked up by name.
#[derive(Debug, Clone, PartialEq, Eq)]
pub struct Registry {
    entries: Vec<DirectiveSpec>,
}

impl View for Registry {
    type V = Seq<DirectiveSpecView>;

    closed spec fn view(&self) -> Seq<DirectiveSpecView> {
        views(self.entries@)
    }
}

impl Registry {
    /// A registry without any entry.
    pub fn new() -> (r: Registry)
        ensures
            r@ == Seq::<DirectiveSpecView>::empty(),
    {
        let r = Registry { entries: Vec::new() };
        assert(r@ =~= Seq::<DirectiveSpecView>::empty());
        r
    }

    /// The number of entries.
    pub fn len(&self) -> (n: usize)
        ensures
            n == self@.len(),
    {
        self.entries.len()
    }

    /// The entry at position `i`, if there is one.
    pub fn entry(&self, i: usize) -> (r: Option<&DirectiveSpec>)
        ensures
            match r {
                Some(s) => i < self@.len() && s@ == self@[i as int],
                None => i >= self@.len(),
            },
    {
        if i < self.entries.len() {
            Some(&self.entries[i])
        } else {
            None
        }
    }

    /// The position of the entry for `name`, if there is one.
    pub fn find(&self, name: &[u8]) -> (r: Option<usize>)
        ensures
            match r {
                Some(i) => lookup(self@, name@) == Some(i as int) && i < self@.len(),
                None => lookup(self@, name@) is None,
            },
    {
        let n: usize = self.entries.len();
        let ghost names = spec_names(self@);
        let mut i: usize = 0;
        while i < n
            invariant
                n == self.entries@.len(),
                names == spec_names(self@),
                i <= n,
                first_index(names.take(i as int), name@) is None,
            decreases n - i,
        {
            proof {
                let next = names.take(i + 1);
                assert(next.drop_last() =~= names.take(i as int));
                assert(next.last() == self.entries@[i as int].name@);
            }
            if same_bytes(self.entries[i].name.as_slice(), name) {
                proof {
                    lemma_first_index_prefix(names, name@, i + 1);
                }
                return Some(i);
            }
            i = i + 1;
        }
        assert(names.take(n as int) =~= names);
        None
    }

    /// The entry for `name`, if there is one.
    pub fn lookup(&self, name: &[u8]) -> (r: Option<&DirectiveSpec>)
        ensures
            match r {
                Some(s) => lookup(self@, name@) matches Some(i) && s@ == self@[i],
                None => lookup(self@, name@) is None,
            },
    {
        match self.find(name) {
            Some(i) => Some(&self.entries[i]),
            None => None,
        }
    }

    /// Adds an entry, unless one of that name is there already.  Says
    /// whether the entry was added.
    pub fn register(&mut self, spec: DirectiveSpec) -> (added: bool)
        ensures
            added == (lookup(old(self)@, spec@.name) is None),
            added ==> final(self)@ == old(self)@.push(spec@),
            !added ==> final(self)@ == old(self)@,
    {
        if self.find(spec.name.as_slice()).is_some() {
            return false;
        }
        proof {
            lemma_views_push(self.entries@, spec);
        }
        self.entries.push(spec);
        true
    }

    /// The names of all entries, in order.
    pub fn names(&self) -> (out: Vec<Vec<u8>>)
        ensures
            views(out@) == spec_names(self@),
    {
        let n: usize = self.entries.len();
        let mut out = no_rows();
        let mut i: usize = 0;
        while i < n
            invariant
                n == self.entries@.len(),
                i <= n,
                views(out@) == spec_names(self@).take(i as int),
            decreases n - i,
        {
            let name = self.entries[i].name.clone();
            proof {
                lemma_views_push(out@, name);
                assert(spec_names(self@).take(i + 1) =~= spec_names(self@).take(i as int).push(
                    name@,
                ));
            }
            out.push(name);
            i = i + 1;
        }
        assert(spec_names(self@).take(n as int) =~= spec_names(self@));
        out
    }

    /// The entries that allow `mode`, in order.
    pub fn specs_for_mode(&self, mode: TestMode) -> (out: Vec<&DirectiveSpec>)
        ensures
            views(out@) == allowing(self@, mode, self@.len()),
    {
        let n: usize = self.entries.len();
        let mut out: Vec<&DirectiveSpec> = Vec::new();
        assert(views(out@) =~= Seq::<DirectiveSpecView>::empty());
        let mut i: usize = 0;
        while i < n
            invariant
                n == self.entries@.len(),
                i <= n,
                views(out@) == allowing(self@, mode, i as nat),
            decreases n - i,
        {
            if self.entries[i].allowed_modes.contains(mode) {
                let entry = &self.entries[i];
                proof {
                    lemma_views_push(out@, entry);
                }
                out.push(entry);
            }
            i = i + 1;
        }
        out
    }

    /// Adds an entry at the end, whatever its name.
    fn append(&mut self, spec: DirectiveSpec)
        ensures
            final(self)@ == old(self)@.push(spec@),
    {
        proof {
            lemma_views_push(self.entries@, spec);
        }
        self.entries.push(spec);
    }

    /// The registry that the library starts from.
    pub fn standard() -> (r: Registry)
        ensures
            r@ == standard_entries(),
    {
        let mut r = Registry::new();
        r.append(make_revisions());
        r.append(make_check_pass());
        r.append(make_build_pass());
        r.append(make_run_pass());
        r.append(make_check_fail());
        r.append(make_build_fail());
        r.append(make_run_fail());
        r.append(make_compile_flags());
        r.append(make_cross_compile_target());
        r.append(make_ignore());
        r.append(make_skip_compare_mode());
        r.append(make_references());
        r
    }
}

/// The modes whose tests can have revisions.
pub open spec fn revision_modes() -> ModeSet {
    ModeSet::spec_none().spec_with(TestMode::Ui).spec_with(TestMode::Codegen).spec_with(
        TestMode::Assembly,
    )
}

/// The ui mode alone.
pub open spec fn ui_mode_only() -> ModeSet {
    ModeSet::spec_none().spec_with(TestMode::Ui)
}

/// `revisions`: the blank-separated names of the file's revisions.
pub open spec fn revisions_entry() -> DirectiveSpecView {
    DirectiveSpecView::new(
        lit("revisions"),
        GrammarView::List(ValueKind::Plain),
        ModeSet::spec_all(),
        PropertyField::Revisions,
    ).scoped(ScopePolicy::BaseOnly)
}

/// An entry for one of the flags that say how a ui test is expected to end.
pub open spec fn expectation_entry(name: Seq<u8>) -> DirectiveSpecView {
    DirectiveSpecView::new(name, GrammarView::Flag, ui_mode_only(), PropertyField::Expectation)
}

/// `check-pass`, which excludes every other expectation.
pub open spec fn check_pass_entry() -> DirectiveSpecView {
    expectation_entry(lit("check-pass")).excluding(lit("build-pass")).excluding(
        lit("run-pass"),
    ).excluding(lit("check-fail")).excluding(lit("build-fail")).excluding(lit("run-fail"))
}

/// `build-pass`, which excludes the expectations listed after it.
pub open spec fn build_pass_entry() -> DirectiveSpecView {
    expectation_entry(lit("build-pass")).excluding(lit("run-pass")).excluding(
        lit("check-fail"),
    ).excluding(lit("build-fail")).excluding(lit("run-fail"))
}

/// `run-pass`, which excludes the expectations listed after it.
pub open spec fn run_pass_entry() -> DirectiveSpecView {
    expectation_entry(lit("run-pass")).excluding(lit("check-fail")).excluding(
        lit("build-fail"),
    ).excluding(lit("run-fail"))
}

/// `check-fail`, which excludes the expectations listed after it.
pub open spec fn check_fail_entry() -> DirectiveSpecView {
    expectation_entry(lit("check-fail")).excluding(lit("build-fail")).excluding(lit("run-fail"))
}

/// `build-fail`, which excludes `run-fail`.
pub open spec fn build_fail_entry() -> DirectiveSpecView {
    expectation_entry(lit("build-fail")).excluding(lit("run-fail"))
}

/// `run-fail`.
pub open spec fn run_fail_entry() -> DirectiveSpecView {
    expectation_entry(lit("run-fail"))
}

/// `compile-flags`: one flag for the compiler.  Incremental compilation is
/// banned under the ui mode, and a target is always chosen by the directive
/// made for it.
pub open spec fn compile_flags_entry() -> DirectiveSpecView {
    DirectiveSpecView::new(
        lit("compile-flags"),
        GrammarView::Text(ValueKind::Plain),
        revision_modes(),
        PropertyField::CompileFlags,
    ).banning(TestMode::Ui, lit("-C incremental")).banning(TestMode::Ui, lit("--target")).banning(
        TestMode::Codegen,
        lit("--target"),
    ).banning(TestMode::Assembly, lit("--target"))
}

/// `cross-compile-target`: the target to compile the test for.
pub open spec fn cross_compile_target_entry() -> DirectiveSpecView {
    DirectiveSpecView::new(
        lit("cross-compile-target"),
        GrammarView::Text(ValueKind::Target),
        ModeSet::spec_all(),
        PropertyField::CrossCompileTarget,
    )
}

/// The keys of an `ignore` rule.
pub open spec fn ignore_keys() -> Seq<KeySpecView> {
    seq![
        KeySpecView { key: lit("compare-mode"), kind: ValueKind::Plain },
        KeySpecView { key: lit("target"), kind: ValueKind::Target },
        KeySpecView { key: lit("arch"), kind: ValueKind::Architecture },
        KeySpecView { key: lit("os"), kind: ValueKind::OperatingSystem },
        KeySpecView { key: lit("vendor"), kind: ValueKind::Vendor },
        KeySpecView { key: lit("reason"), kind: ValueKind::Plain },
    ]
}

/// `ignore`: conditions under which the test is skipped, and the reason.
pub open spec fn ignore_entry() -> DirectiveSpecView {
    DirectiveSpecView::new(
        lit("ignore"),
        GrammarView::KeyValue { keys: ignore_keys(), open: false },
        ModeSet::spec_all(),
        PropertyField::IgnoreRules,
    )
}

/// `skip-compare-mode`: compare modes that a ui test is left out of.
pub open spec fn skip_compare_mode_entry() -> DirectiveSpecView {
    DirectiveSpecView::new(
        lit("skip-compare-mode"),
        GrammarView::List(ValueKind::Plain),
        ui_mode_only(),
        PropertyField::CompareModeExclusions,
    )
}

/// `references`: identifiers for outside tooling, under keys of any name.
pub open spec fn references_entry() -> DirectiveSpecView {
    DirectiveSpecView::new(
        lit("references"),
        GrammarView::KeyValue { keys: Seq::empty(), open: true },
        ModeSet::spec_all(),
        PropertyField::References,
    ).scoped(ScopePolicy::BaseOnly)
}

/// The entries of the registry that the library starts from.
pub open spec fn standard_entries() -> Seq<DirectiveSpecView> {
    seq![
        revisions_entry(),
        check_pass_entry(),
        build_pass_entry(),
        run_pass_entry(),
        check_fail_entry(),
        build_fail_entry(),
        run_fail_entry(),
        compile_flags_entry(),
        cross_compile_target_entry(),
        ignore_entry(),
        skip_compare_mode_entry(),
        references_entry(),
    ]
}

fn make_revisions() -> (s: DirectiveSpec)
    ensures
        s@ == revisions_entry(),
{
    DirectiveSpec::new(
        literal("revisions"),
        ArgGrammar::List(ValueKind::Plain),
        ModeSet::all(),
        PropertyField::Revisions,
    ).scoped(ScopePolicy::BaseOnly)
}

fn make_expectation(name: &str) -> (s: DirectiveSpec)
    ensures
        s@ == expectation_entry(lit(name)),
{
    DirectiveSpec::new(
        literal(name),
        ArgGrammar::Flag,
        ModeSet::none().with(TestMode::Ui),
        PropertyField::Expectation,
    )
}

fn make_check_pass() -> (s: DirectiveSpec)
    ensures
        s@ == check_pass_entry(),
{
    make_expectation("check-pass").excluding(literal("build-pass")).excluding(
        literal("run-pass"),
    ).excluding(literal("check-fail")).excluding(literal("build-fail")).excluding(
        literal("run-fail"),
    )
}

fn make_build_pass() -> (s: DirectiveSpec)
    ensures
        s@ == build_pass_entry(),
{
    make_expectation("build-pass").excluding(literal("run-pass")).excluding(
        literal("check-fail"),
    ).excluding(literal("build-fail")).excluding(literal("run-fail"))
}

fn make_run_pass() -> (s: DirectiveSpec)
    ensures
        s@ == run_pass_entry(),
{
    make_expectation("run-pass").excluding(literal("check-fail")).excluding(
        literal("build-fail"),
    ).excluding(literal("run-fail"))
}

fn make_check_fail() -> (s: DirectiveSpec)
    ensures
        s@ == check_fail_entry(),
{
    make_expectation("check-fail").excluding(literal("build-fail")).excluding(literal("run-fail"))
}

fn make_build_fail() -> (s: DirectiveSpec)
    ensures
        s@ == build_fail_entry(),
{
    make_expectation("build-fail").excluding(literal("run-fail"))
}

fn make_run_fail() -> (s: DirectiveSpec)
    ensures
        s@ == run_fail_entry(),
{
    make_expectation("run-fail")
}

fn make_compile_flags() -> (s: DirectiveSpec)
    ensures
        s@ == compile_flags_entry(),
{
    DirectiveSpec::new(
        literal("compile-flags"),
        ArgGrammar::Text(ValueKind::Plain),
        ModeSet::none().with(TestMode::Ui).with(TestMode::Codegen).with(TestMode::Assembly),
        PropertyField::CompileFlags,
    ).banning(TestMode::Ui, literal("-C incremental")).banning(
        TestMode::Ui,
        literal("--target"),
    ).banning(TestMode::Codegen, literal("--target")).banning(
        TestMode::Assembly,
        literal("--target"),
    )
}

fn make_cross_compile_target() -> (s: DirectiveSpec)
    ensures
        s@ == cross_compile_target_entry(),
{
    DirectiveSpec::new(
        literal("cross-compile-target"),
        ArgGrammar::Text(ValueKind::Target),
        ModeSet::all(),
        PropertyField::CrossCompileTarget,
    )
}

/// Appends a key and the kind of its value.
fn push_key(keys: &mut Vec<KeySpec>, key: &str, kind: ValueKind)
    ensures
        views(final(keys)@) == views(old(keys)@).push(KeySpecView { key: lit(key), kind }),
{
    let entry = KeySpec { key: literal(key), kind };
    proof {
        lemma_views_push(keys@, entry);
    }
    keys.push(entry);
}

fn make_ignore() -> (s: DirectiveSpec)
    ensures
        s@ == ignore_entry(),
{
    let mut keys: Vec<KeySpec> = Vec::new();
    assert(views(keys@) =~= Seq::<KeySpecView>::empty());
    push_key(&mut keys, "compare-mode", ValueKind::Plain);
    push_key(&mut keys, "target", ValueKind::Target);
    push_key(&mut keys, "arch", ValueKind::Architecture);
    push_key(&mut keys, "os", ValueKind::OperatingSystem);
    push_key(&mut keys, "vendor", ValueKind::Vendor);
    push_key(&mut keys, "reason", ValueKind::Plain);
    assert(views(keys@) =~= ignore_keys());
    DirectiveSpec::new(
        literal("ignore"),
        ArgGrammar::KeyValue { keys, open: false },
        ModeSet::all(),
        PropertyField::IgnoreRules,
    )
}

fn make_skip_compare_mode() -> (s: DirectiveSpec)
    ensures
        s@ == skip_compare_mode_entry(),
{
    DirectiveSpec::new(
        literal("skip-compare-mode"),
        ArgGrammar::List(ValueKind::Plain),
        ModeSet::none().with(TestMode::Ui),
        PropertyField::CompareModeExclusions,
    )
}

fn make_references() -> (s: DirectiveSpec)
    ensures
        s@ == references_entry(),
{
    let keys: Vec<KeySpec> = Vec::new();
    assert(views(keys@) =~= Seq::<KeySpecView>::empty());
    DirectiveSpec::new(
        literal("references"),
        ArgGrammar::KeyValue { keys, open: true },
        ModeSet::all(),
        PropertyField::References,
    ).scoped(ScopePolicy::BaseOnly)
}

} // verus!
