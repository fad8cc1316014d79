//! Lowering: from accepted directives to one set of test properties per
//! revision.
//!
//! Directives of the base scope apply to every revision; those scoped to a
//! revision apply to that one only, on top of the base.  A list grows with
//! every directive that sets it, a single value is overridden by the last
//! one.  Each mode has properties of its own type, which hold only what
//! that mode can use.  Lowering never rejects anything.

use crate::argument::{Pair, PairView};
use crate::directive::{RevisionScope, ScopeView};
use crate::mode::TestMode;
use crate::registry::PropertyField;
use crate::text::{lemma_views_push, lit, literal, no_rows, option_view, same_bytes, views};
use crate::validate::{lemma_views_append, ValidatedDirective, ValidatedView};
use vstd::prelude::*;

verus! {

/// When a test is skipped: the conditions that must all hold, and why.
#[derive(Debug, Clone, PartialEq, Eq)]
pub struct IgnoreRule {
    pub conditions: Vec<Pair>,
    pub reason: Option<Vec<u8>>,
}

/// The mathematical value of an [`IgnoreRule`].
pub ghost struct IgnoreRuleView {
    pub conditions: Seq<PairView>,
    pub reason: Option<Seq<u8>>,
}

impl View for IgnoreRule {
    type V = IgnoreRuleView;

    open spec fn view(&self) -> IgnoreRuleView {
        IgnoreRuleView { conditions: views(self.conditions@), reason: option_view(self.reason) }
    }
}

/// The key under which an ignore rule gives its reason.
pub open spec fn reason_key() -> Seq<u8> {
    lit("reason")
}

/// Those of the first `n` pairs that are conditions, in order: all but the
/// reasons.
pub open spec fn conditions_among(pairs: Seq<PairView>, n: nat) -> Seq<PairView>
    decreases n,
{
    if n == 0 {
        Seq::empty()
    } else if pairs[n - 1].key == reason_key() {
        conditions_among(pairs, (n - 1) as nat)
    } else {
        conditions_among(pairs, (n - 1) as nat).push(pairs[n - 1])
    }
}

/// The first reason among the first `n` pairs.
pub open spec fn reason_among(pairs: Seq<PairView>, n: nat) -> Option<Seq<u8>>
    decreases n,
{
    if n == 0 {
        None
    } else {
        match reason_among(pairs, (n - 1) as nat) {
            Some(r) => Some(r),
            None => if pairs[n - 1].key == reason_key() {
                Some(pairs[n - 1].value)
            } else {
                None
            },
        }
    }
}

/// The ignore rule that the pairs of one directive stand for.
pub open spec fn rule_of(pairs: Seq<PairView>) -> IgnoreRuleView {
    IgnoreRuleView {
        conditions: conditions_among(pairs, pairs.len()),
        reason: reason_among(pairs, pairs.len()),
    }
}

/// Builds [`rule_of`].
pub fn make_rule(pairs: &Vec<Pair>) -> (rule: IgnoreRule)
    ensures
        rule@ == rule_of(views(pairs@)),
{
    let key = literal("reason");
    let n: usize = pairs.len();
    let mut conditions: Vec<Pair> = Vec::new();
    let mut reason: Option<Vec<u8>> = None;
    assert(views(conditions@) =~= Seq::<PairView>::empty());
    let mut i: usize = 0;
    while i < n
        invariant
            n == pairs@.len(),
            i <= n,
            key@ == reason_key(),
            views(conditions@) == conditions_among(views(pairs@), i as nat),
            option_view(reason) == reason_among(views(pairs@), i as nat),
        decreases n - i,
    {
        if same_bytes(pairs[i].key.as_slice(), key.as_slice()) {
            if reason.is_none() {
                reason = Some(pairs[i].value.clone());
            }
        } else {
            let pair = Pair { key: pairs[i].key.clone(), value: pairs[i].value.clone() };
            proof {
                lemma_views_push(conditions@, pair);
            }
            conditions.push(pair);
        }
        i = i + 1;
    }
    IgnoreRule { conditions, reason }
}

/// Everything that directives can set, whatever the mode.
pub struct Settings {
    pub revision: Option<Vec<u8>>,
    pub revisions: Vec<Vec<u8>>,
    pub expectation: Option<Vec<u8>>,
    pub compile_flags: Vec<Vec<u8>>,
    pub ignore_rules: Vec<IgnoreRule>,
    pub cross_compile_target: Option<Vec<u8>>,
    pub compare_mode_exclusions: Vec<Vec<u8>>,
    pub references: Vec<Pair>,
}

/// The mathematical value of [`Settings`].
pub ghost struct SettingsView {
    pub revision: Option<Seq<u8>>,
    pub revisions: Seq<Seq<u8>>,
    pub expectation: Option<Seq<u8>>,
    pub compile_flags: Seq<Seq<u8>>,
    pub ignore_rules: Seq<IgnoreRuleView>,
    pub cross_compile_target: Option<Seq<u8>>,
    pub compare_mode_exclusions: Seq<Seq<u8>>,
    pub references: Seq<PairView>,
}

impl View for Settings {
    type V = SettingsView;

    open spec fn view(&self) -> SettingsView {
        SettingsView {
            revision: option_view(self.revision),
            revisions: views(self.revisions@),
            expectation: option_view(self.expectation),
            compile_flags: views(self.compile_flags@),
            ignore_rules: views(self.ignore_rules@),
            cross_compile_target: option_view(self.cross_compile_target),
            compare_mode_exclusions: views(self.compare_mode_exclusions@),
            references: views(self.references@),
        }
    }
}

/// A single value after a directive with the given strings has set it: the
/// last of the strings, or the old value if there is none.
pub open spec fn overridden(old_value: Option<Seq<u8>>, strings: Seq<Seq<u8>>) -> Option<Seq<u8>> {
    if strings.len() == 0 {
        old_value
    } else {
        Some(strings.last())
    }
}

impl SettingsView {
    /// The settings of the given revision before any directive applies.
    pub open spec fn initial(revision: Option<Seq<u8>>) -> SettingsView {
        SettingsView {
            revision,
            revisions: Seq::empty(),
            expectation: None,
            compile_flags: Seq::empty(),
            ignore_rules: Seq::empty(),
            cross_compile_target: None,
            compare_mode_exclusions: Seq::empty(),
            references: Seq::empty(),
        }
    }

    /// The settings after the directive applies: the property that the
    /// directive's entry names is set, and nothing else changes.
    pub open spec fn with(self, v: ValidatedView) -> SettingsView {
        let strings = v.value.strings(v.raw.name);
        match v.field {
            PropertyField::Revisions => SettingsView {
                revisions: self.revisions + strings,
                ..self
            },
            PropertyField::Expectation => SettingsView {
                expectation: overridden(self.expectation, strings),
                ..self
            },
            PropertyField::CompileFlags => SettingsView {
                compile_flags: self.compile_flags + strings,
                ..self
            },
            PropertyField::IgnoreRules => SettingsView {
                ignore_rules: self.ignore_rules.push(rule_of(v.value.pairs())),
                ..self
            },
            PropertyField::CrossCompileTarget => SettingsView {
                cross_compile_target: overridden(self.cross_compile_target, strings),
                ..self
            },
            PropertyField::CompareModeExclusions => SettingsView {
                compare_mode_exclusions: self.compare_mode_exclusions + strings,
                ..self
            },
            PropertyField::References => SettingsView {
                references: self.references + v.value.pairs(),
                ..self
            },
        }
    }

    /// The settings after those of the first `n` directives that have
    /// exactly the given scope have applied, in order.
    pub open spec fn merged(self, vs: Seq<ValidatedView>, scope: ScopeView, n: nat) -> SettingsView
        decreases n,
    {
        if n == 0 {
            self
        } else if vs[n - 1].raw.scope == scope {
            self.merged(vs, scope, (n - 1) as nat).with(vs[n - 1])
        } else {
            self.merged(vs, scope, (n - 1) as nat)
        }
    }
}

/// The settings of one revision (`None`: of the test without revisions):
/// the directives of the base scope, then those of the revision.
pub open spec fn settings_for(vs: Seq<ValidatedView>, revision: Option<Seq<u8>>) -> SettingsView {
    let base = SettingsView::initial(revision).merged(vs, ScopeView::Base, vs.len());
    match revision {
        Some(r) => base.merged(vs, ScopeView::Revision(r), vs.len()),
        None => base,
    }
}

/// Sets a single value from the strings of a directive.
fn override_with(target: &mut Option<Vec<u8>>, strings: Vec<Vec<u8>>)
    ensures
        option_view(*final(target)) == overridden(option_view(*old(target)), views(strings@)),
{
    let mut strings = strings;
    let ghost all = views(strings@);
    match strings.pop() {
        Some(last) => {
            assert(last@ == all.last());
            *target = Some(last);
        },
        None => {},
    }
}

/// Appends rows.
fn append_rows(target: &mut Vec<Vec<u8>>, rows: Vec<Vec<u8>>)
    ensures
        views(final(target)@) == views(old(target)@) + views(rows@),
{
    let mut rows = rows;
    proof {
        lemma_views_append(target@, rows@);
    }
    target.append(&mut rows);
}

impl Settings {
    /// Builds [`SettingsView::initial`].
    pub fn initial(revision: Option<Vec<u8>>) -> (s: Settings)
        ensures
            s@ == SettingsView::initial(option_view(revision)),
    {
        let s = Settings {
            revision,
            revisions: no_rows(),
            expectation: None,
            compile_flags: no_rows(),
            ignore_rules: Vec::new(),
            cross_compile_target: None,
            compare_mode_exclusions: no_rows(),
            references: Vec::new(),
        };
        assert(views(s.ignore_rules@) =~= Seq::<IgnoreRuleView>::empty());
        assert(views(s.references@) =~= Seq::<PairView>::empty());
        s
    }

    /// Applies one directive; see [`SettingsView::with`].
    pub fn apply(&mut self, v: &ValidatedDirective)
        ensures
            final(self)@ == old(self)@.with(v@),
    {
        let strings = v.value().strings(v.raw().name.as_slice());
        match v.field() {
            PropertyField::Revisions => append_rows(&mut self.revisions, strings),
            PropertyField::Expectation => override_with(&mut self.expectation, strings),
            PropertyField::CompileFlags => append_rows(&mut self.compile_flags, strings),
            PropertyField::IgnoreRules => {
                let rule = make_rule(&v.value().pairs());
                proof {
                    lemma_views_push(self.ignore_rules@, rule);
                }
                self.ignore_rules.push(rule);
            },
            PropertyField::CrossCompileTarget => override_with(
                &mut self.cross_compile_target,
                strings,
            ),
            PropertyField::CompareModeExclusions => append_rows(
                &mut self.compare_mode_exclusions,
                strings,
            ),
            PropertyField::References => {
                let mut pairs = v.value().pairs();
                proof {
                    lemma_views_append(self.references@, pairs@);
                }
                self.references.append(&mut pairs);
            },
        }
    }

    /// Applies the directives of exactly the given scope, in order; see
    /// [`SettingsView::merged`].
    pub fn merge(&mut self, vs: &Vec<ValidatedDirective>, scope: &RevisionScope)
        ensures
            final(self)@ == old(self)@.merged(views(vs@), scope@, vs@.len()),
    {
        let n: usize = vs.len();
        let mut i: usize = 0;
        while i < n
            invariant
                n == vs@.len(),
                i <= n,
                self@ == old(self)@.merged(views(vs@), scope@, i as nat),
            decreases n - i,
        {
            if vs[i].raw().scope.same(scope) {
                self.apply(&vs[i]);
            }
            i = i + 1;
        }
    }
}

/// Computes [`settings_for`].
pub fn settings_of(vs: &Vec<ValidatedDirective>, revision: Option<Vec<u8>>) -> (s: Settings)
    ensures
        s@ == settings_for(views(vs@), option_view(revision)),
{
    let scope = match &revision {
        Some(r) => Some(RevisionScope::Revision(r.clone())),
        None => None,
    };
    let mut s = Settings::initial(revision);
    s.merge(vs, &RevisionScope::Base);
    match scope {
        Some(scope) => s.merge(vs, &scope),
        None => {},
    }
    s
}

/// The properties of a ui test.
#[derive(Debug, Clone, PartialEq, Eq)]
pub struct UiProperties {
    pub revision: Option<Vec<u8>>,
    pub revisions: Vec<Vec<u8>>,
    pub expectation: Option<Vec<u8>>,
    pub compile_flags: Vec<Vec<u8>>,
    pub ignore_rules: Vec<IgnoreRule>,
    pub cross_compile_target: Option<Vec<u8>>,
    pub compare_mode_exclusions: Vec<Vec<u8>>,
    pub references: Vec<Pair>,
}

/// The properties of a run-make test, which has no revisions and compiles
/// nothing by itself.
#[derive(Debug, Clone, PartialEq, Eq)]
pub struct RunMakeProperties {
    pub ignore_rules: Vec<IgnoreRule>,
    pub cross_compile_target: Option<Vec<u8>>,
    pub references: Vec<Pair>,
}

/// The properties of a codegen test.
#[derive(Debug, Clone, PartialEq, Eq)]
pub struct CodegenProperties {
    pub revision: Option<Vec<u8>>,
    pub revisions: Vec<Vec<u8>>,
    pub compile_flags: Vec<Vec<u8>>,
    pub ignore_rules: Vec<IgnoreRule>,
    pub cross_compile_target: Option<Vec<u8>>,
    pub references: Vec<Pair>,
}

/// The properties of an assembly test.
#[derive(Debug, Clone, PartialEq, Eq)]
pub struct AssemblyProperties {
    pub revision: Option<Vec<u8>>,
    pub revisions: Vec<Vec<u8>>,
    pub compile_flags: Vec<Vec<u8>>,
    pub ignore_rules: Vec<IgnoreRule>,
    pub cross_compile_target: Option<Vec<u8>>,
    pub references: Vec<Pair>,
}

/// The properties of one test in one revision, typed by the test's mode.
#[derive(Debug, Clone, PartialEq, Eq)]
pub enum TestProperties {
    Ui(UiProperties),
    RunMake(RunMakeProperties),
    Codegen(CodegenProperties),
    Assembly(AssemblyProperties),
}

/// The mathematical value of [`TestProperties`].
pub ghost enum PropertiesView {
    Ui {
        revision: Option<Seq<u8>>,
        revisions: Seq<Seq<u8>>,
        expectation: Option<Seq<u8>>,
        compile_flags: Seq<Seq<u8>>,
        ignore_rules: Seq<IgnoreRuleView>,
        cross_compile_target: Option<Seq<u8>>,
        compare_mode_exclusions: Seq<Seq<u8>>,
        references: Seq<PairView>,
    },
    RunMake {
        ignore_rules: Seq<IgnoreRuleView>,
        cross_compile_target: Option<Seq<u8>>,
        references: Seq<PairView>,
    },
    Codegen {
        revision: Option<Seq<u8>>,
        revisions: Seq<Seq<u8>>,
        compile_flags: Seq<Seq<u8>>,
        ignore_rules: Seq<IgnoreRuleView>,
        cross_compile_target: Option<Seq<u8>>,
        references: Seq<PairView>,
    },
    Assembly {
        revision: Option<Seq<u8>>,
        revisions: Seq<Seq<u8>>,
        compile_flags: Seq<Seq<u8>>,
        ignore_rules: Seq<IgnoreRuleView>,
        cross_compile_target: Option<Seq<u8>>,
        references: Seq<PairView>,
    },
}

impl View for TestProperties {
    type V = PropertiesView;

    open spec fn view(&self) -> PropertiesView {
        match self {
            TestProperties::Ui(p) => PropertiesView::Ui {
                revision: option_view(p.revision),
                revisions: views(p.revisions@),
                expectation: option_view(p.expectation),
                compile_flags: views(p.compile_flags@),
                ignore_rules: views(p.ignore_rules@),
                cross_compile_target: option_view(p.cross_compile_target),
                compare_mode_exclusions: views(p.compare_mode_exclusions@),
                references: views(p.references@),
            },
            TestProperties::RunMake(p) => PropertiesView::RunMake {
                ignore_rules: views(p.ignore_rules@),
                cross_compile_target: option_view(p.cross_compile_target),
                references: views(p.references@),
            },
            TestProperties::Codegen(p) => PropertiesView::Codegen {
                revision: option_view(p.revision),
                revisions: views(p.revisions@),
                compile_flags: views(p.compile_flags@),
                ignore_rules: views(p.ignore_rules@),
                cross_compile_target: option_view(p.cross_compile_target),
                references: views(p.references@),
            },
            TestProperties::Assembly(p) => PropertiesView::Assembly {
                revision: option_view(p.revision),
                revisions: views(p.revisions@),
                compile_flags: views(p.compile_flags@),
                ignore_rules: views(p.ignore_rules@),
                cross_compile_target: option_view(p.cross_compile_target),
                references: views(p.references@),
            },
        }
    }
}

impl PropertiesView {
    /// The mode whose properties these are.
    pub open spec fn mode(self) -> TestMode {
        match self {
            PropertiesView::Ui { .. } => TestMode::Ui,
            PropertiesView::RunMake { .. } => TestMode::RunMake,
            PropertiesView::Codegen { .. } => TestMode::Codegen,
            PropertiesView::Assembly { .. } => TestMode::Assembly,
        }
    }

    /// The revision that the properties are for, if any.
    pub open spec fn revision(self) -> Option<Seq<u8>> {
        match self {
            PropertiesView::Ui { revision, .. } => revision,
            PropertiesView::RunMake { .. } => None,
            PropertiesView::Codegen { revision, .. } => revision,
            PropertiesView::Assembly { revision, .. } => revision,
        }
    }

    /// The compiler flags, for the modes that have any.
    pub open spec fn compile_flags(self) -> Seq<Seq<u8>> {
        match self {
            PropertiesView::Ui { compile_flags, .. } => compile_flags,
            PropertiesView::RunMake { .. } => Seq::empty(),
            PropertiesView::Codegen { compile_flags, .. } => compile_flags,
            PropertiesView::Assembly { compile_flags, .. } => compile_flags,
        }
    }
}

/// The properties of the given mode that hold what the settings hold for
/// it; what the mode cannot use is left out.
pub open spec fn projected(mode: TestMode, s: SettingsView) -> PropertiesView {
    match mode {
        TestMode::Ui => PropertiesView::Ui {
            revision: s.revision,
            revisions: s.revisions,
            expectation: s.expectation,
            compile_flags: s.compile_flags,
            ignore_rules: s.ignore_rules,
            cross_compile_target: s.cross_compile_target,
            compare_mode_exclusions: s.compare_mode_exclusions,
            references: s.references,
        },
        TestMode::RunMake => PropertiesView::RunMake {
            ignore_rules: s.ignore_rules,
            cross_compile_target: s.cross_compile_target,
            references: s.references,
        },
        TestMode::Codegen => PropertiesView::Codegen {
            revision: s.revision,
            revisions: s.revisions,
            compile_flags: s.compile_flags,
            ignore_rules: s.ignore_rules,
            cross_compile_target: s.cross_compile_target,
            references: s.references,
        },
        TestMode::Assembly => PropertiesView::Assembly {
            revision: s.revision,
            revisions: s.revisions,
            compile_flags: s.compile_flags,
            ignore_rules: s.ignore_rules,
            cross_compile_target: s.cross_compile_target,
            references: s.references,
        },
    }
}

/// Builds [`projected`].
pub fn project(mode: TestMode, s: Settings) -> (p: TestProperties)
    ensures
        p@ == projected(mode, s@),
{
    match mode {
        TestMode::Ui => TestProperties::Ui(
            UiProperties {
                revision: s.revision,
                revisions: s.revisions,
                expectation: s.expectation,
                compile_flags: s.compile_flags,
                ignore_rules: s.ignore_rules,
                cross_compile_target: s.cross_compile_target,
                compare_mode_exclusions: s.compare_mode_exclusions,
                references: s.references,
            },
        ),
        TestMode::RunMake => TestProperties::RunMake(
            RunMakeProperties {
                ignore_rules: s.ignore_rules,
                cross_compile_target: s.cross_compile_target,
                references: s.references,
            },
        ),
        TestMode::Codegen => TestProperties::Codegen(
            CodegenProperties {
                revision: s.revision,
                revisions: s.revisions,
                compile_flags: s.compile_flags,
                ignore_rules: s.ignore_rules,
                cross_compile_target: s.cross_compile_target,
                references: s.references,
            },
        ),
        TestMode::Assembly => TestProperties::Assembly(
            AssemblyProperties {
                revision: s.revision,
                revisions: s.revisions,
                compile_flags: s.compile_flags,
                ignore_rules: s.ignore_rules,
                cross_compile_target: s.cross_compile_target,
                references: s.references,
            },
        ),
    }
}

/// The revisions that the first `n` directives declare, in order: the
/// strings of those of the base scope that set the list of revisions.
pub open spec fn revisions_among(vs: Seq<ValidatedView>, n: nat) -> Seq<Seq<u8>>
    decreases n,
{
    if n == 0 {
        Seq::empty()
    } else if vs[n - 1].field == PropertyField::Revisions && vs[n - 1].raw.scope is Base {
        revisions_among(vs, (n - 1) as nat) + vs[n - 1].value.strings(vs[n - 1].raw.name)
    } else {
        revisions_among(vs, (n - 1) as nat)
    }
}

/// The revisions to lower for: those that the directives declare, where
/// the mode has revisions; none elsewhere.
pub open spec fn revisions_for(vs: Seq<ValidatedView>, mode: TestMode) -> Seq<Seq<u8>> {
    if mode.spec_supports_revisions() {
        revisions_among(vs, vs.len())
    } else {
        Seq::empty()
    }
}

/// The properties for the first `n` of the given revisions, in order.
pub open spec fn lowered_among(
    vs: Seq<ValidatedView>,
    mode: TestMode,
    revisions: Seq<Seq<u8>>,
    n: nat,
) -> Seq<PropertiesView>
    decreases n,
{
    if n == 0 {
        Seq::empty()
    } else {
        lowered_among(vs, mode, revisions, (n - 1) as nat).push(
            projected(mode, settings_for(vs, Some(revisions[n - 1]))),
        )
    }
}

/// What the directives lower to: one set of properties for each revision,
/// in the order of their declaration, or a single set where there is none.
pub open spec fn lowered(vs: Seq<ValidatedView>, mode: TestMode) -> Seq<PropertiesView> {
    let revisions = revisions_for(vs, mode);
    if revisions.len() == 0 {
        seq![projected(mode, settings_for(vs, None))]
    } else {
        lowered_among(vs, mode, revisions, revisions.len())
    }
}

/// Computes [`revisions_for`].
pub fn revisions_of(vs: &Vec<ValidatedDirective>, mode: TestMode) -> (out: Vec<Vec<u8>>)
    ensures
        views(out@) == revisions_for(views(vs@), mode),
{
    let mut out = no_rows();
    if !mode.supports_revisions() {
        return out;
    }
    let n: usize = vs.len();
    let mut i: usize = 0;
    while i < n
        invariant
            n == vs@.len(),
            i <= n,
            views(out@) == revisions_among(views(vs@), i as nat),
        decreases n - i,
    {
        let v = &vs[i];
        if v.field() == PropertyField::Revisions && v.raw().scope.is_base() {
            let mut names = v.value().strings(v.raw().name.as_slice());
            proof {
                lemma_views_append(out@, names@);
            }
            out.append(&mut names);
        }
        i = i + 1;
    }
    out
}

/// Lowers the accepted directives of one file of the given mode.
pub fn lower(vs: &Vec<ValidatedDirective>, mode: TestMode) -> (out: Vec<TestProperties>)
    ensures
        views(out@) == lowered(views(vs@), mode),
{
    let revisions = revisions_of(vs, mode);
    let n: usize = revisions.len();
    let mut out: Vec<TestProperties> = Vec::new();
    assert(views(out@) =~= Seq::<PropertiesView>::empty());
    if n == 0 {
        let only = project(mode, settings_of(vs, None));
        proof {
            lemma_views_push(out@, only);
        }
        out.push(only);
        return out;
    }
    let mut i: usize = 0;
    while i < n
        invariant
            n == revisions@.len(),
            i <= n,
            views(revisions@) == revisions_for(views(vs@), mode),
            views(out@) == lowered_among(views(vs@), mode, views(revisions@), i as nat),
        decreases n - i,
    {
        let one = project(mode, settings_of(vs, Some(revisions[i].clone())));
        proof {
            lemma_views_push(out@, one);
        }
        out.push(one);
        i = i + 1;
    }
    out
}

/// Lowering yields one set of properties for each revision, each of the
/// file's mode and for its own revision, and a single set without a
/// revision where there is none.
pub proof fn lemma_lowered_among(
    vs: Seq<ValidatedView>,
    mode: TestMode,
    revisions: Seq<Seq<u8>>,
    n: nat,
)
    requires
        n <= revisions.len(),
        mode.spec_supports_revisions(),
    ensures
        lowered_among(vs, mode, revisions, n).len() == n,
        forall|i: int|
            0 <= i < n ==> (#[trigger] lowered_among(vs, mode, revisions, n)[i]) == projected(
                mode,
                settings_for(vs, Some(revisions[i])),
            ),
    decreases n,
{
    if n != 0 {
        lemma_lowered_among(vs, mode, revisions, (n - 1) as nat);
    }
}

} // verus!
