//! Test modes and the test suites that refine them.

use crate::text::{lit, literal};
use vstd::prelude::*;

verus! {

/// A test mode fixes how the tests under it are built and run.
#[derive(Debug, Copy, Clone, PartialEq, Eq, Structural)]
pub enum TestMode {
    Ui,
    RunMake,
    Codegen,
    Assembly,
}

/// A test suite specialises exactly one [`TestMode`] with minor variations.
#[derive(Debug, Copy, Clone, PartialEq, Eq, Structural)]
pub enum TestSuite {
    Ui,
    UiFulldeps,
    RunMake,
    Codegen,
    Assembly,
}

impl TestMode {
    /// Whether tests of this mode can be built in several named revisions.
    /// A run-make test is driven by its own recipe and has none.
    pub open spec fn spec_supports_revisions(self) -> bool {
        self != TestMode::RunMake
    }

    /// Whether tests of this mode can be built in several named revisions.
    #[verifier::when_used_as_spec(spec_supports_revisions)]
    pub fn supports_revisions(self) -> (b: bool)
        ensures
            b == self.spec_supports_revisions(),
    {
        match self {
            TestMode::RunMake => false,
            _ => true,
        }
    }

    /// The name of the mode as it is written in messages.
    pub open spec fn spec_name(self) -> Seq<u8> {
        match self {
            TestMode::Ui => lit("ui"),
            TestMode::RunMake => lit("run-make"),
            TestMode::Codegen => lit("codegen"),
            TestMode::Assembly => lit("assembly"),
        }
    }

    /// The name of the mode as it is written in messages.
    pub fn name(self) -> (v: Vec<u8>)
        ensures
            v@ == self.spec_name(),
    {
        match self {
            TestMode::Ui => literal("ui"),
            TestMode::RunMake => literal("run-make"),
            TestMode::Codegen => literal("codegen"),
            TestMode::Assembly => literal("assembly"),
        }
    }
}

impl TestSuite {
    /// The mode that a suite belongs to; several suites may share one mode.
    pub open spec fn spec_mode(self) -> TestMode {
        match self {
            TestSuite::Ui | TestSuite::UiFulldeps => TestMode::Ui,
            TestSuite::RunMake => TestMode::RunMake,
            TestSuite::Codegen => TestMode::Codegen,
            TestSuite::Assembly => TestMode::Assembly,
        }
    }

    /// Which [`TestMode`] this suite belongs to.
    #[verifier::when_used_as_spec(spec_mode)]
    pub fn mode(self) -> (m: TestMode)
        ensures
            m == self.spec_mode(),
    {
        match self {
            TestSuite::Ui | TestSuite::UiFulldeps => TestMode::Ui,
            TestSuite::RunMake => TestMode::RunMake,
            TestSuite::Codegen => TestMode::Codegen,
            TestSuite::Assembly => TestMode::Assembly,
        }
    }

    /// The name of the suite as it is written in messages.
    pub open spec fn spec_name(self) -> Seq<u8> {
        match self {
            TestSuite::Ui => lit("ui"),
            TestSuite::UiFulldeps => lit("ui-fulldeps"),
            TestSuite::RunMake => lit("run-make"),
            TestSuite::Codegen => lit("codegen"),
            TestSuite::Assembly => lit("assembly"),
        }
    }

    /// The name of the suite as it is written in messages.
    pub fn name(self) -> (v: Vec<u8>)
        ensures
            v@ == self.spec_name(),
    {
        match self {
            TestSuite::Ui => literal("ui"),
            TestSuite::UiFulldeps => literal("ui-fulldeps"),
            TestSuite::RunMake => literal("run-make"),
            TestSuite::Codegen => literal("codegen"),
            TestSuite::Assembly => literal("assembly"),
        }
    }
}

} // verus!
