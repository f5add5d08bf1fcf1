//! The data that one differential run produces: the outcome of a single
//! test-runner invocation, the outcomes of all variants for one target, and
//! the record that is kept once a target is done.

use vstd::prelude::*;
use vstd::string::*;

verus! {

/// How one test-runner invocation ended.
///
/// A process that could not be started at all is an error of the run, not an
/// outcome, so there are exactly these two cases.
#[derive(Clone, Copy, Debug, PartialEq, Eq, Structural)]
pub enum RunResult {
    /// The process exited in time; the flag says whether it reported success.
    Finished(bool),
    /// The process was still running when the time limit expired.
    TimedOut,
}

/// The major version of the test framework that a target declares.
///
/// It selects the set of compiler variants that have to be run.
#[derive(Clone, Copy, Debug, PartialEq, Eq, Structural)]
pub enum ElmTestVersion {
    /// The older framework: three variants are compared.
    V1,
    /// The newer framework: five variants are compared.
    V2,
}

/// The outcomes of all required variants for one target.
#[derive(Clone, Copy, Debug, PartialEq, Eq, Structural)]
pub enum RunResults {
    V1 {
        elm_result: RunResult,
        lamdera_stable_no_wire_result: RunResult,
        lamdera_stable_result: RunResult,
    },
    V2 {
        elm_result: RunResult,
        lamdera_stable_no_wire_result: RunResult,
        lamdera_stable_result: RunResult,
        lamdera_next_no_wire_result: RunResult,
        lamdera_next_result: RunResult,
    },
}

/// A target whose run is complete.
#[derive(Debug)]
pub struct Done {
    /// The version directory that was tested.
    pub path: String,
    /// Wall-clock time that the whole run took, in milliseconds.
    pub time: u64,
    /// What each variant reported.
    pub results: RunResults,
}

/// A target whose run is under way.
#[derive(Debug)]
pub struct Running {
    /// The version directory that is being tested.
    pub path: String,
    /// When the run began, in milliseconds since the engine started.
    pub start: u64,
}

impl Clone for Running {
    fn clone(&self) -> (copy: Self)
        ensures
            copy == *self,
    {
        Running { path: self.path.clone(), start: self.start }
    }
}

/// The mathematical content of a [`Done`].
pub struct DoneView {
    pub path: Seq<char>,
    pub time: nat,
    pub results: RunResults,
}

impl View for Done {
    type V = DoneView;

    open spec fn view(&self) -> DoneView {
        DoneView { path: self.path@, time: self.time as nat, results: self.results }
    }
}

impl Clone for Done {
    fn clone(&self) -> (copy: Self)
        ensures
            copy == *self,
    {
        Done { path: self.path.clone(), time: self.time, results: self.results }
    }
}

impl RunResult {
    /// The text that stands for this outcome in tables and exports.
    pub open spec fn glyph(self) -> Seq<char> {
        match self {
            RunResult::Finished(true) => seq!['\u{2705}'],
            RunResult::Finished(false) => seq!['\u{274c}'],
            RunResult::TimedOut => seq!['\u{23f0}'],
        }
    }

    /// Whether the process exited in time and reported success.
    pub open spec fn spec_passed(&self) -> bool {
        *self == RunResult::Finished(true)
    }

    /// Whether the process exited in time and reported success.
    #[verifier::when_used_as_spec(spec_passed)]
    pub fn passed(&self) -> (yes: bool)
        ensures
            yes == self.spec_passed(),
    {
        match self {
            RunResult::Finished(ok) => *ok,
            RunResult::TimedOut => false,
        }
    }

    /// Renders the outcome as a single symbol: a check mark for success, a
    /// cross for failure, a clock for a timeout.
    pub fn to_string(&self) -> (text: String)
        ensures
            text@ == self.glyph(),
    {
        proof {
            reveal_strlit("\u{2705}");
            reveal_strlit("\u{274c}");
            reveal_strlit("\u{23f0}");
        }
        match self {
            RunResult::Finished(true) => {
                assert("\u{2705}"@ =~= seq!['\u{2705}']);
                String::from_str("\u{2705}")
            },
            RunResult::Finished(false) => {
                assert("\u{274c}"@ =~= seq!['\u{274c}']);
                String::from_str("\u{274c}")
            },
            RunResult::TimedOut => {
                assert("\u{23f0}"@ =~= seq!['\u{23f0}']);
                String::from_str("\u{23f0}")
            },
        }
    }
}

impl ElmTestVersion {
    /// The digit that names this version.
    pub open spec fn digit(self) -> Seq<char> {
        match self {
            ElmTestVersion::V1 => seq!['1'],
            ElmTestVersion::V2 => seq!['2'],
        }
    }

    /// Renders the version as its digit.
    pub fn to_string(&self) -> (text: String)
        ensures
            text@ == self.digit(),
    {
        proof {
            reveal_strlit("1");
            reveal_strlit("2");
        }
        match self {
            ElmTestVersion::V1 => {
                assert("1"@ =~= seq!['1']);
                String::from_str("1")
            },
            ElmTestVersion::V2 => {
                assert("2"@ =~= seq!['2']);
                String::from_str("2")
            },
        }
    }
}

impl RunResults {
    /// The framework version that this set of outcomes belongs to.
    pub open spec fn spec_version(&self) -> ElmTestVersion {
        match *self {
            RunResults::V1 { .. } => ElmTestVersion::V1,
            RunResults::V2 { .. } => ElmTestVersion::V2,
        }
    }

    /// The outcomes in the order in which the variants are run.
    pub open spec fn outcomes(self) -> Seq<RunResult> {
        match self {
            RunResults::V1 {
                elm_result,
                lamdera_stable_no_wire_result,
                lamdera_stable_result,
            } => seq![elm_result, lamdera_stable_no_wire_result, lamdera_stable_result],
            RunResults::V2 {
                elm_result,
                lamdera_stable_no_wire_result,
                lamdera_stable_result,
                lamdera_next_no_wire_result,
                lamdera_next_result,
            } => seq![
                elm_result,
                lamdera_stable_no_wire_result,
                lamdera_stable_result,
                lamdera_next_no_wire_result,
                lamdera_next_result,
            ],
        }
    }

    /// Whether every variant finished and reported success.
    pub open spec fn spec_all_passed(&self) -> bool {
        forall|i: int| 0 <= i < self.outcomes().len() ==> (#[trigger] self.outcomes()[i]).passed()
    }

    /// The outcome of the reference compiler.
    pub open spec fn spec_reference(&self) -> RunResult {
        match *self {
            RunResults::V1 { elm_result, .. } => elm_result,
            RunResults::V2 { elm_result, .. } => elm_result,
        }
    }

    /// The framework version that this set of outcomes belongs to.
    #[verifier::when_used_as_spec(spec_version)]
    pub fn version(&self) -> (v: ElmTestVersion)
        ensures
            v == self.spec_version(),
    {
        match self {
            RunResults::V1 { .. } => ElmTestVersion::V1,
            RunResults::V2 { .. } => ElmTestVersion::V2,
        }
    }

    /// The outcome of the reference compiler.
    #[verifier::when_used_as_spec(spec_reference)]
    pub fn reference(&self) -> (r: RunResult)
        ensures
            r == self.spec_reference(),
    {
        match self {
            RunResults::V1 { elm_result, .. } => *elm_result,
            RunResults::V2 { elm_result, .. } => *elm_result,
        }
    }

    /// Whether every variant finished and reported success.
    #[verifier::when_used_as_spec(spec_all_passed)]
    pub fn all_passed(&self) -> (yes: bool)
        ensures
            yes == self.spec_all_passed(),
    {
        match self {
            RunResults::V1 {
                elm_result,
                lamdera_stable_no_wire_result,
                lamdera_stable_result,
            } => {
                let yes = elm_result.passed() && lamdera_stable_no_wire_result.passed()
                    && lamdera_stable_result.passed();
                proof {
                    let o = self.outcomes();
                    assert(o[0] == *elm_result && o[1] == *lamdera_stable_no_wire_result && o[2]
                        == *lamdera_stable_result);
                }
                yes
            },
            RunResults::V2 {
                elm_result,
                lamdera_stable_no_wire_result,
                lamdera_stable_result,
                lamdera_next_no_wire_result,
                lamdera_next_result,
            } => {
                let yes = elm_result.passed() && lamdera_stable_no_wire_result.passed()
                    && lamdera_stable_result.passed() && lamdera_next_no_wire_result.passed()
                    && lamdera_next_result.passed();
                proof {
                    let o = self.outcomes();
                    assert(o[0] == *elm_result && o[1] == *lamdera_stable_no_wire_result && o[2]
                        == *lamdera_stable_result && o[3] == *lamdera_next_no_wire_result && o[4]
                        == *lamdera_next_result);
                }
                yes
            },
        }
    }
}

} // verus!
