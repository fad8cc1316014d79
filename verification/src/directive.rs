//! Directives as the parser produces them: purely syntactic, not yet checked.

use crate::diagnostic::Location;
use crate::text::same_bytes;
use vstd::prelude::*;

verus! {

/// The revisions that a directive applies to.
#[derive(Debug, Clone, PartialEq, Eq)]
pub enum RevisionScope {
    /// Every revision, and the test without revisions.
    Base,
    /// Only the named revision.
    Revision(Vec<u8>),
}

/// The mathematical value of a [`RevisionScope`].
pub ghost enum ScopeView {
    Base,
    Revision(Seq<u8>),
}

impl View for RevisionScope {
    type V = ScopeView;

    open spec fn view(&self) -> ScopeView {
        match self {
            RevisionScope::Base => ScopeView::Base,
            RevisionScope::Revision(name) => ScopeView::Revision(name@),
        }
    }
}

impl ScopeView {
    /// Whether two scopes have a revision in common: the base scope meets
    /// every scope, and a revision meets itself.
    pub open spec fn overlaps(self, other: ScopeView) -> bool {
        self is Base || other is Base || self == other
    }

    /// Whether a directive of this scope takes part in the given revision
    /// (`None`: the test without revisions).
    pub open spec fn covers(self, revision: Option<Seq<u8>>) -> bool {
        match self {
            ScopeView::Base => true,
            ScopeView::Revision(name) => revision == Some(name),
        }
    }
}

impl RevisionScope {
    /// Whether the scope is the base scope.
    pub fn is_base(&self) -> (b: bool)
        ensures
            b == (self@ is Base),
    {
        match self {
            RevisionScope::Base => true,
            RevisionScope::Revision(_) => false,
        }
    }

    /// Whether two scopes are the same.
    pub fn same(&self, other: &RevisionScope) -> (b: bool)
        ensures
            b == (self@ == other@),
    {
        match (self, other) {
            (RevisionScope::Base, RevisionScope::Base) => true,
            (RevisionScope::Revision(a), RevisionScope::Revision(b)) => same_bytes(
                a.as_slice(),
                b.as_slice(),
            ),
            _ => false,
        }
    }

    /// Computes [`ScopeView::overlaps`].
    pub fn overlaps(&self, other: &RevisionScope) -> (b: bool)
        ensures
            b == self@.overlaps(other@),
    {
        self.is_base() || other.is_base() || self.same(other)
    }

    /// A copy of the scope.
    pub fn duplicate(&self) -> (r: RevisionScope)
        ensures
            r@ == self@,
    {
        match self {
            RevisionScope::Base => RevisionScope::Base,
            RevisionScope::Revision(name) => RevisionScope::Revision(name.clone()),
        }
    }
}

/// One directive as written: its name, its scope, the text of its argument
/// with the blanks around it removed, and the place of its marker.
#[derive(Debug, Clone, PartialEq, Eq)]
pub struct RawDirective {
    pub name: Vec<u8>,
    pub scope: RevisionScope,
    pub raw_args: Vec<u8>,
    pub location: Location,
}

/// The mathematical value of a [`RawDirective`].
pub ghost struct RawDirectiveView {
    pub name: Seq<u8>,
    pub scope: ScopeView,
    pub raw_args: Seq<u8>,
    pub location: Location,
}

impl View for RawDirective {
    type V = RawDirectiveView;

    open spec fn view(&self) -> RawDirectiveView {
        RawDirectiveView {
            name: self.name@,
            scope: self.scope@,
            raw_args: self.raw_args@,
            location: self.location,
        }
    }
}

impl RawDirectiveView {
    /// Whether two directives say the same thing: same name, same scope,
    /// same argument text.
    pub open spec fn repeats(self, other: RawDirectiveView) -> bool {
        self.name == other.name && self.scope == other.scope && self.raw_args == other.raw_args
    }
}

impl RawDirective {
    /// Computes [`RawDirectiveView::repeats`].
    pub fn repeats(&self, other: &RawDirective) -> (b: bool)
        ensures
            b == self@.repeats(other@),
    {
        same_bytes(self.name.as_slice(), other.name.as_slice()) && self.scope.same(&other.scope)
            && same_bytes(self.raw_args.as_slice(), other.raw_args.as_slice())
    }

    /// A copy of the directive.
    pub fn duplicate(&self) -> (r: RawDirective)
        ensures
            r@ == self@,
    {
        RawDirective {
            name: self.name.clone(),
            scope: self.scope.duplicate(),
            raw_args: self.raw_args.clone(),
            location: self.location,
        }
    }
}

} // verus!
