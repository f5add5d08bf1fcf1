//! The differential runner: what has to be done, step by step, to run the
//! test suite of one target under every required compiler variant.
//!
//! The runner itself starts no process and touches no file. It is a state
//! machine: the caller performs the action it asks for and reports what
//! happened, and the runner decides what comes next.

use vstd::prelude::*;
use vstd::string::*;
use crate::error::{EngineError, EngineErrorView};
use crate::listing::{child_of, child_path};
use crate::outcome::{ElmTestVersion, RunResult, RunResults};

verus! {

/// Seconds that one test-runner invocation may take.
pub const TIMEOUT_SECS: u64 = 120;

/// The manifest file of a target.
pub const MANIFEST_FILE: &'static str = "elm.json";

/// The directory that holds the tests of a target.
pub const TESTS_DIR: &'static str = "tests";

/// The build cache of a target, deleted before every invocation.
pub const BUILD_CACHE_DIR: &'static str = "elm-stuff";

/// The text in a manifest that marks the older test framework.
pub const VERSION_MARKER: &'static str = "\"elm-explorations/test\": \"1";

/// A compiler under comparison.
#[derive(Clone, Copy, Debug, PartialEq, Eq, Structural)]
pub enum Variant {
    /// The reference compiler.
    Elm,
    LamderaStableNoWire,
    LamderaStable,
    LamderaNextNoWire,
    LamderaNext,
}

/// The environment variable that holds the path of the test runner for the
/// newer framework, if it is not to be run through `npx`.
pub const RUNNER_PATH_VAR: &'static str = "ELM_TEST_RS_PATH";

impl Variant {
    /// The environment variable that overrides the executable of the
    /// variant.
    pub open spec fn env_name_of(self) -> Seq<char> {
        match self {
            Variant::Elm => "ELM"@,
            Variant::LamderaStableNoWire => "LAMDERA_STABLE_NO_WIRE"@,
            Variant::LamderaStable => "LAMDERA_STABLE"@,
            Variant::LamderaNextNoWire => "LAMDERA_NEXT_NO_WIRE"@,
            Variant::LamderaNext => "LAMDERA_NEXT"@,
        }
    }

    /// The executable of the variant where nothing else is configured.
    pub open spec fn default_name_of(self) -> Seq<char> {
        match self {
            Variant::Elm => "elm"@,
            Variant::LamderaStableNoWire => "lamdera-stable-no-wire"@,
            Variant::LamderaStable => "lamdera-stable"@,
            Variant::LamderaNextNoWire => "lamdera-next-no-wire"@,
            Variant::LamderaNext => "lamdera-next"@,
        }
    }

    /// The environment variable that overrides the executable of the
    /// variant.
    pub fn env_name(&self) -> (name: &'static str)
        ensures
            name@ == self.env_name_of(),
    {
        match self {
            Variant::Elm => "ELM",
            Variant::LamderaStableNoWire => "LAMDERA_STABLE_NO_WIRE",
            Variant::LamderaStable => "LAMDERA_STABLE",
            Variant::LamderaNextNoWire => "LAMDERA_NEXT_NO_WIRE",
            Variant::LamderaNext => "LAMDERA_NEXT",
        }
    }

    /// The executable of the variant where nothing else is configured.
    pub fn default_name(&self) -> (name: &'static str)
        ensures
            name@ == self.default_name_of(),
    {
        match self {
            Variant::Elm => "elm",
            Variant::LamderaStableNoWire => "lamdera-stable-no-wire",
            Variant::LamderaStable => "lamdera-stable",
            Variant::LamderaNextNoWire => "lamdera-next-no-wire",
            Variant::LamderaNext => "lamdera-next",
        }
    }
}

/// The executable to call for each variant.
#[derive(Debug)]
pub struct Compilers {
    pub elm: String,
    pub lamdera_stable_no_wire: String,
    pub lamdera_stable: String,
    pub lamdera_next_no_wire: String,
    pub lamdera_next: String,
}

/// What becomes of the output of a process.
#[derive(Clone, Copy, Debug, PartialEq, Eq, Structural)]
pub enum Output {
    /// It is thrown away.
    Discarded,
    /// It goes where the output of the caller goes.
    Inherited,
}

/// A program and its arguments.
#[derive(Debug)]
pub struct CommandLine {
    pub program: String,
    pub args: Vec<String>,
}

/// The mathematical content of a [`CommandLine`].
pub struct CommandLineView {
    pub program: Seq<char>,
    pub args: Seq<Seq<char>>,
}

impl View for CommandLine {
    type V = CommandLineView;

    open spec fn view(&self) -> CommandLineView {
        CommandLineView { program: self.program@, args: self.args.deep_view() }
    }
}

/// Whether `needle` stands somewhere in `hay` as a contiguous run.
pub open spec fn occurs_in(needle: Seq<u8>, hay: Seq<u8>) -> bool {
    exists|at: int| occurs_at(needle, hay, at)
}

/// Whether `needle` stands in `hay` at position `at`.
pub open spec fn occurs_at(needle: Seq<u8>, hay: Seq<u8>, at: int) -> bool {
    0 <= at && at + needle.len() <= hay.len() && hay.subrange(at, at + needle.len()) == needle
}

/// The framework version that a manifest declares: the older one if the
/// marker occurs in its text, as encoded in UTF-8, else the newer one.
pub open spec fn version_of(manifest: Seq<char>) -> ElmTestVersion {
    if occurs_in(VERSION_MARKER.spec_bytes(), vstd::utf8::encode_utf8(manifest)) {
        ElmTestVersion::V1
    } else {
        ElmTestVersion::V2
    }
}

/// The variants to run for a framework version, in the order in which they
/// are run.
pub open spec fn variants_of(version: ElmTestVersion) -> Seq<Variant> {
    match version {
        ElmTestVersion::V1 => seq![
            Variant::Elm,
            Variant::LamderaStableNoWire,
            Variant::LamderaStable,
        ],
        ElmTestVersion::V2 => seq![
            Variant::Elm,
            Variant::LamderaStableNoWire,
            Variant::LamderaStable,
            Variant::LamderaNextNoWire,
            Variant::LamderaNext,
        ],
    }
}

/// The command that runs the tests of a target with one compiler.
///
/// The older framework is run through `npx`. The newer one is run from
/// `runner` if a path is configured, else through `npx`, with four workers.
pub open spec fn command_line(
    version: ElmTestVersion,
    runner: Option<Seq<char>>,
    compiler: Seq<char>,
) -> CommandLineView {
    match version {
        ElmTestVersion::V1 => CommandLineView {
            program: "npx"@,
            args: seq!["--yes"@, "elm-test@0.19.1-revision9"@, "--compiler"@, compiler],
        },
        ElmTestVersion::V2 => match runner {
            Some(path) => CommandLineView {
                program: path,
                args: seq!["--workers"@, "4"@, "--compiler"@, compiler],
            },
            None => CommandLineView {
                program: "npx"@,
                args: seq![
                    "--yes"@,
                    "elm-test-rs"@,
                    "--workers"@,
                    "4"@,
                    "--compiler"@,
                    compiler,
                ],
            },
        },
    }
}

/// The outcomes of a complete run, put into the shape of its version.
pub open spec fn results_of(version: ElmTestVersion, outcomes: Seq<RunResult>) -> RunResults {
    match version {
        ElmTestVersion::V1 => RunResults::V1 {
            elm_result: outcomes[0],
            lamdera_stable_no_wire_result: outcomes[1],
            lamdera_stable_result: outcomes[2],
        },
        ElmTestVersion::V2 => RunResults::V2 {
            elm_result: outcomes[0],
            lamdera_stable_no_wire_result: outcomes[1],
            lamdera_stable_result: outcomes[2],
            lamdera_next_no_wire_result: outcomes[3],
            lamdera_next_result: outcomes[4],
        },
    }
}

impl Compilers {
    /// The executable configured for a variant.
    pub open spec fn name_of(&self, variant: Variant) -> Seq<char> {
        match variant {
            Variant::Elm => self.elm@,
            Variant::LamderaStableNoWire => self.lamdera_stable_no_wire@,
            Variant::LamderaStable => self.lamdera_stable@,
            Variant::LamderaNextNoWire => self.lamdera_next_no_wire@,
            Variant::LamderaNext => self.lamdera_next@,
        }
    }

    /// The executable configured for a variant.
    pub fn get(&self, variant: Variant) -> (name: &String)
        ensures
            name@ == self.name_of(variant),
    {
        match variant {
            Variant::Elm => &self.elm,
            Variant::LamderaStableNoWire => &self.lamdera_stable_no_wire,
            Variant::LamderaStable => &self.lamdera_stable,
            Variant::LamderaNextNoWire => &self.lamdera_next_no_wire,
            Variant::LamderaNext => &self.lamdera_next,
        }
    }

    /// The configuration in which every variant is called by its usual name.
    pub fn defaults() -> (compilers: Compilers)
        ensures
            forall|variant: Variant| #[trigger]
                compilers.name_of(variant) == variant.default_name_of(),
    {
        Compilers::with_overrides(None, None, None, None, None)
    }

    /// The configuration in which each variant is called by the given name,
    /// or by its usual name where none is given.
    pub fn with_overrides(
        elm: Option<String>,
        lamdera_stable_no_wire: Option<String>,
        lamdera_stable: Option<String>,
        lamdera_next_no_wire: Option<String>,
        lamdera_next: Option<String>,
    ) -> (compilers: Compilers)
        ensures
            compilers.elm@ == or_default(elm, Variant::Elm.default_name_of()),
            compilers.lamdera_stable_no_wire@ == or_default(
                lamdera_stable_no_wire,
                Variant::LamderaStableNoWire.default_name_of(),
            ),
            compilers.lamdera_stable@ == or_default(
                lamdera_stable,
                Variant::LamderaStable.default_name_of(),
            ),
            compilers.lamdera_next_no_wire@ == or_default(
                lamdera_next_no_wire,
                Variant::LamderaNextNoWire.default_name_of(),
            ),
            compilers.lamdera_next@ == or_default(
                lamdera_next,
                Variant::LamderaNext.default_name_of(),
            ),
    {
        Compilers {
            elm: get_with_default(elm, Variant::Elm.default_name()),
            lamdera_stable_no_wire: get_with_default(
                lamdera_stable_no_wire,
                Variant::LamderaStableNoWire.default_name(),
            ),
            lamdera_stable: get_with_default(lamdera_stable, Variant::LamderaStable.default_name()),
            lamdera_next_no_wire: get_with_default(
                lamdera_next_no_wire,
                Variant::LamderaNextNoWire.default_name(),
            ),
            lamdera_next: get_with_default(lamdera_next, Variant::LamderaNext.default_name()),
        }
    }
}

/// The configured value, or the fallback where nothing is configured.
pub open spec fn or_default(value: Option<String>, fallback: Seq<char>) -> Seq<char> {
    match value {
        Some(text) => text@,
        None => fallback,
    }
}

/// Picks the configured value, or the fallback where nothing is configured.
pub fn get_with_default(value: Option<String>, fallback: &str) -> (chosen: String)
    ensures
        chosen@ == or_default(value, fallback@),
{
    match value {
        Some(text) => text,
        None => String::from_str(fallback),
    }
}

fn occurs_here(needle: &[u8], hay: &[u8], at: usize) -> (found: bool)
    requires
        at + needle.len() <= hay.len(),
    ensures
        found == occurs_at(needle@, hay@, at as int),
{
    let mut k: usize = 0;
    while k < needle.len()
        invariant
            k <= needle.len(),
            at + needle.len() <= hay.len(),
            forall|j: int| 0 <= j < k ==> hay@[at + j] == needle@[j],
        decreases needle.len() - k,
    {
        if hay[at + k] != needle[k] {
            proof {
                let part = hay@.subrange(at as int, at + needle.len());
                assert(part[k as int] == hay@[at + k]);
            }
            return false;
        }
        k = k + 1;
    }
    assert(hay@.subrange(at as int, at + needle.len()) =~= needle@);
    true
}

/// Looks for `needle` in `hay`.
pub fn contains_bytes(hay: &[u8], needle: &[u8]) -> (found: bool)
    ensures
        found == occurs_in(needle@, hay@),
{
    if needle.len() > hay.len() {
        return false;
    }
    if needle.len() == 0 {
        assert(hay@.subrange(0, 0) =~= needle@);
        assert(occurs_at(needle@, hay@, 0));
        return true;
    }
    let last = hay.len() - needle.len();
    let mut at: usize = 0;
    while at <= last
        invariant
            needle.len() >= 1,
            last == hay.len() - needle.len(),
            at <= last + 1,
            forall|j: int| 0 <= j < at ==> !occurs_at(needle@, hay@, j),
        decreases last + 1 - at,
    {
        if occurs_here(needle, hay, at) {
            return true;
        }
        at = at + 1;
    }
    false
}

/// Reads the framework version off a manifest.
pub fn detect_version(manifest: &str) -> (version: ElmTestVersion)
    ensures
        version == version_of(manifest@),
{
    if contains_bytes(manifest.as_bytes(), VERSION_MARKER.as_bytes()) {
        ElmTestVersion::V1
    } else {
        ElmTestVersion::V2
    }
}

/// The variants to run for a framework version, in the order in which they
/// are run.
pub fn required_variants(version: ElmTestVersion) -> (variants: Vec<Variant>)
    ensures
        variants@ == variants_of(version),
{
    let mut variants: Vec<Variant> = Vec::new();
    variants.push(Variant::Elm);
    variants.push(Variant::LamderaStableNoWire);
    variants.push(Variant::LamderaStable);
    match version {
        ElmTestVersion::V1 => {},
        ElmTestVersion::V2 => {
            variants.push(Variant::LamderaNextNoWire);
            variants.push(Variant::LamderaNext);
        },
    }
    assert(variants@ =~= variants_of(version));
    variants
}

/// Builds the command that runs the tests of a target with one compiler.
pub fn test_command(version: ElmTestVersion, runner: &Option<String>, compiler: &str) -> (command:
    CommandLine)
    ensures
        command@ == command_line(version, runner_view(*runner), compiler@),
{
    let mut args: Vec<String> = Vec::new();
    let program = match version {
        ElmTestVersion::V1 => {
            args.push(String::from_str("--yes"));
            args.push(String::from_str("elm-test@0.19.1-revision9"));
            String::from_str("npx")
        },
        ElmTestVersion::V2 => {
            let program = match runner {
                Some(path) => path.clone(),
                None => {
                    args.push(String::from_str("--yes"));
                    args.push(String::from_str("elm-test-rs"));
                    String::from_str("npx")
                },
            };
            args.push(String::from_str("--workers"));
            args.push(String::from_str("4"));
            program
        },
    };
    args.push(String::from_str("--compiler"));
    args.push(String::from_str(compiler));
    let command = CommandLine { program, args };
    assert(command@.args =~= command_line(version, runner_view(*runner), compiler@).args);
    command
}

/// The configured path of the test runner, as text.
pub open spec fn runner_view(runner: Option<String>) -> Option<Seq<char>> {
    match runner {
        Some(path) => Some(path@),
        None => None,
    }
}

/// Where a run stands.
#[derive(Clone, Copy, Debug, PartialEq, Eq, Structural)]
pub enum RunPhase {
    /// Nothing has been asked for yet.
    Idle,
    /// The manifest is being read.
    ReadingManifest,
    /// The build cache is being deleted for the next variant.
    ClearingCache,
    /// The test runner of the next variant is being started.
    Spawning,
    /// The test runner is running and the clock is ticking.
    Waiting,
    /// The test runner ran out of time and is being killed.
    Killing,
    /// The killed test runner is being waited for, so that no defunct
    /// process stays behind.
    Reaping,
    /// Every variant has been run.
    Complete,
    /// The run was given up.
    Failed,
}

/// What the caller reports to the runner.
#[derive(Debug)]
pub enum RunEvent {
    /// The run may begin.
    Begin,
    /// The text of the manifest.
    Manifest(String),
    /// The build cache is gone, or there was none.
    CacheCleared,
    /// The test runner was started.
    Spawned,
    /// The test runner exited in time; the flag says whether with success.
    Exited(bool),
    /// The time limit expired and the test runner is still running.
    Expired,
    /// The test runner was killed.
    Killed,
    /// The killed test runner has terminated.
    Reaped,
    /// What was asked for could not be done, with the error of the
    /// operation.
    Failed(std::io::Error),
}

/// The mathematical content of a [`RunEvent`].
pub enum RunEventView {
    Begin,
    Manifest(Seq<char>),
    CacheCleared,
    Spawned,
    Exited(bool),
    Expired,
    Killed,
    Reaped,
    Failed(std::io::Error),
}

impl View for RunEvent {
    type V = RunEventView;

    open spec fn view(&self) -> RunEventView {
        match *self {
            RunEvent::Begin => RunEventView::Begin,
            RunEvent::Manifest(text) => RunEventView::Manifest(text@),
            RunEvent::CacheCleared => RunEventView::CacheCleared,
            RunEvent::Spawned => RunEventView::Spawned,
            RunEvent::Exited(success) => RunEventView::Exited(success),
            RunEvent::Expired => RunEventView::Expired,
            RunEvent::Killed => RunEventView::Killed,
            RunEvent::Reaped => RunEventView::Reaped,
            RunEvent::Failed(error) => RunEventView::Failed(error),
        }
    }
}

/// What the runner asks the caller to do next.
#[derive(Debug)]
pub enum RunAction {
    /// Read this file, the manifest of the target, and report its text.
    ReadManifest(String),
    /// Delete this directory, the build cache of the target, if it exists.
    ClearCache(String),
    /// Start this command in this directory, that of the target, and do
    /// this with what it writes to its standard output and standard error.
    Spawn { command: CommandLine, dir: String, output: Output },
    /// Wait for the process to exit, for at most this many seconds.
    Wait(u64),
    /// Kill the process.
    Kill,
    /// Wait for the killed process to terminate.
    Reap,
    /// The run is complete; these are its results.
    Done(RunResults),
    /// The run is given up with this error.
    Fail(EngineError),
}

/// The mathematical content of a [`RunAction`].
pub enum RunActionView {
    ReadManifest(Seq<char>),
    ClearCache(Seq<char>),
    Spawn { command: CommandLineView, dir: Seq<char>, output: Output },
    Wait(u64),
    Kill,
    Reap,
    Done(RunResults),
    Fail(EngineErrorView),
}

impl View for RunAction {
    type V = RunActionView;

    open spec fn view(&self) -> RunActionView {
        match *self {
            RunAction::ReadManifest(file) => RunActionView::ReadManifest(file@),
            RunAction::ClearCache(dir) => RunActionView::ClearCache(dir@),
            RunAction::Spawn { command, dir, output } => RunActionView::Spawn {
                command: command@,
                dir: dir@,
                output,
            },
            RunAction::Wait(seconds) => RunActionView::Wait(seconds),
            RunAction::Kill => RunActionView::Kill,
            RunAction::Reap => RunActionView::Reap,
            RunAction::Done(results) => RunActionView::Done(results),
            RunAction::Fail(error) => RunActionView::Fail(error@),
        }
    }
}

/// The mathematical content of a [`TestRun`].
pub struct RunState {
    /// The version directory that is tested.
    pub target: Seq<char>,
    pub phase: RunPhase,
    /// The framework version; meaningful once the manifest has been read.
    pub version: ElmTestVersion,
    /// The outcomes of the variants that have been run, in order.
    pub outcomes: Seq<RunResult>,
}

/// The run of one target: its phase and the outcomes recorded so far.
#[derive(Debug)]
pub struct TestRun {
    target: String,
    phase: RunPhase,
    version: ElmTestVersion,
    outcomes: Vec<RunResult>,
}

impl RunState {
    /// The run of `target` before it has begun.
    pub open spec fn initial(target: Seq<char>) -> RunState {
        RunState {
            target,
            phase: RunPhase::Idle,
            version: ElmTestVersion::V2,
            outcomes: Seq::empty(),
        }
    }

    /// The manifest of the target.
    pub open spec fn manifest_file(self) -> Seq<char> {
        child_of(self.target, MANIFEST_FILE@)
    }

    /// The build cache of the target.
    pub open spec fn cache_dir(self) -> Seq<char> {
        child_of(self.target, BUILD_CACHE_DIR@)
    }

    /// The states that a run can be in: while it is under way some variant is
    /// still to be run, and once it is complete all of them have been.
    pub open spec fn wf(self) -> bool {
        match self.phase {
            RunPhase::Idle | RunPhase::ReadingManifest => self.outcomes.len() == 0,
            RunPhase::Complete => self.outcomes.len() == variants_of(self.version).len(),
            RunPhase::Failed => true,
            _ => self.outcomes.len() < variants_of(self.version).len(),
        }
    }

    /// This state in another phase.
    pub open spec fn at(self, phase: RunPhase) -> RunState {
        RunState { phase, ..self }
    }

    /// The state and the action after the current variant has ended with
    /// `outcome`: the next variant is prepared, or the run is complete.
    pub open spec fn record(self, outcome: RunResult) -> (RunState, RunActionView) {
        let outcomes = self.outcomes.push(outcome);
        if outcomes.len() == variants_of(self.version).len() {
            (
                RunState { phase: RunPhase::Complete, outcomes, ..self },
                RunActionView::Done(results_of(self.version, outcomes)),
            )
        } else {
            (
                RunState { phase: RunPhase::ClearingCache, outcomes, ..self },
                RunActionView::ClearCache(self.cache_dir()),
            )
        }
    }

    /// The state and the action that follow from an event.
    ///
    /// Each phase expects one kind of event, or one of two while the test
    /// runner is running. A reported failure ends the run with an I/O error.
    /// Any other event ends it with an error that says so.
    pub open spec fn step(
        self,
        compilers: Compilers,
        runner: Option<Seq<char>>,
        event: RunEventView,
    ) -> (RunState, RunActionView) {
        match (self.phase, event) {
            (_, RunEventView::Failed(error)) => (
                self.at(RunPhase::Failed),
                RunActionView::Fail(EngineErrorView::IO(error)),
            ),
            (RunPhase::Idle, RunEventView::Begin) => (
                self.at(RunPhase::ReadingManifest),
                RunActionView::ReadManifest(self.manifest_file()),
            ),
            (RunPhase::ReadingManifest, RunEventView::Manifest(text)) => (
                RunState {
                    target: self.target,
                    phase: RunPhase::ClearingCache,
                    version: version_of(text),
                    outcomes: Seq::empty(),
                },
                RunActionView::ClearCache(self.cache_dir()),
            ),
            (RunPhase::ClearingCache, RunEventView::CacheCleared) => (
                self.at(RunPhase::Spawning),
                RunActionView::Spawn {
                    command: command_line(
                        self.version,
                        runner,
                        compilers.name_of(variants_of(self.version)[self.outcomes.len() as int]),
                    ),
                    dir: self.target,
                    output: Output::Discarded,
                },
            ),
            (RunPhase::Spawning, RunEventView::Spawned) => (
                self.at(RunPhase::Waiting),
                RunActionView::Wait(TIMEOUT_SECS),
            ),
            (RunPhase::Waiting, RunEventView::Exited(success)) => self.record(
                RunResult::Finished(success),
            ),
            (RunPhase::Waiting, RunEventView::Expired) => (
                self.at(RunPhase::Killing),
                RunActionView::Kill,
            ),
            (RunPhase::Killing, RunEventView::Killed) => (
                self.at(RunPhase::Reaping),
                RunActionView::Reap,
            ),
            (RunPhase::Reaping, RunEventView::Reaped) => self.record(RunResult::TimedOut),
            _ => (
                self.at(RunPhase::Failed),
                RunActionView::Fail(EngineErrorView::Other(UNEXPECTED_EVENT@)),
            ),
        }
    }
}

/// The message of the error that ends a run on an event that its phase does
/// not expect.
pub const UNEXPECTED_EVENT: &'static str = "unexpected event";

impl View for TestRun {
    type V = RunState;

    closed spec fn view(&self) -> RunState {
        RunState {
            target: self.target@,
            phase: self.phase,
            version: self.version,
            outcomes: self.outcomes@,
        }
    }
}

impl TestRun {
    #[verifier::type_invariant]
    spec fn well_formed(self) -> bool {
        self@.wf()
    }

    /// The run of the version directory `target`, before it has begun.
    pub fn new(target: String) -> (run: TestRun)
        ensures
            run@ == RunState::initial(target@),
    {
        TestRun { target, phase: RunPhase::Idle, version: ElmTestVersion::V2, outcomes: Vec::new() }
    }

    /// The version directory that is tested.
    pub fn target(&self) -> (target: &String)
        ensures
            target@ == self@.target,
    {
        &self.target
    }

    /// Where the run stands.
    pub fn phase(&self) -> (phase: RunPhase)
        ensures
            phase == self@.phase,
    {
        self.phase
    }

    /// The framework version of the target; meaningful once the manifest has
    /// been read.
    pub fn version(&self) -> (version: ElmTestVersion)
        ensures
            version == self@.version,
    {
        self.version
    }

    /// The outcomes recorded so far, in the order of the variants.
    pub fn outcomes(&self) -> (outcomes: &Vec<RunResult>)
        ensures
            outcomes@ == self@.outcomes,
            self@.wf(),
    {
        proof {
            use_type_invariant(self);
        }
        &self.outcomes
    }

    fn fail(self, error: EngineError) -> (next: (TestRun, RunAction))
        ensures
            next.0@ == self@.at(RunPhase::Failed),
            next.1 == RunAction::Fail(error),
    {
        let TestRun { target, phase: _, version, outcomes } = self;
        (TestRun { target, phase: RunPhase::Failed, version, outcomes }, RunAction::Fail(error))
    }

    fn goto(self, phase: RunPhase, action: RunAction) -> (next: (TestRun, RunAction))
        requires
            self@.at(phase).wf(),
        ensures
            next.0@ == self@.at(phase),
            next.1 == action,
    {
        let TestRun { target, phase: _, version, outcomes } = self;
        (TestRun { target, phase, version, outcomes }, action)
    }

    fn record(self, outcome: RunResult) -> (next: (TestRun, RunAction))
        requires
            self@.outcomes.len() < variants_of(self@.version).len(),
        ensures
            (next.0@, next.1@) == self@.record(outcome),
    {
        let TestRun { target, phase: _, version, outcomes } = self;
        let mut outcomes = outcomes;
        outcomes.push(outcome);
        let wanted: usize = match version {
            ElmTestVersion::V1 => 3,
            ElmTestVersion::V2 => 5,
        };
        if outcomes.len() == wanted {
            let results = match version {
                ElmTestVersion::V1 => RunResults::V1 {
                    elm_result: outcomes[0],
                    lamdera_stable_no_wire_result: outcomes[1],
                    lamdera_stable_result: outcomes[2],
                },
                ElmTestVersion::V2 => RunResults::V2 {
                    elm_result: outcomes[0],
                    lamdera_stable_no_wire_result: outcomes[1],
                    lamdera_stable_result: outcomes[2],
                    lamdera_next_no_wire_result: outcomes[3],
                    lamdera_next_result: outcomes[4],
                },
            };
            (
                TestRun { target, phase: RunPhase::Complete, version, outcomes },
                RunAction::Done(results),
            )
        } else {
            let cache = child_path(target.as_str(), BUILD_CACHE_DIR);
            (
                TestRun { target, phase: RunPhase::ClearingCache, version, outcomes },
                RunAction::ClearCache(cache),
            )
        }
    }
}

/// Advances the run of one target by one step: takes what the caller
/// reports and says what to do next.
///
/// A run begins with [`RunEvent::Begin`] on a new [`TestRun`] and ends with
/// [`RunAction::Done`] or [`RunAction::Fail`]. In between, every variant that
/// the framework version of the target requires is run in turn, whatever the
/// outcomes of the variants before it.
pub fn check_tests_for(
    run: TestRun,
    compilers: &Compilers,
    runner: &Option<String>,
    event: RunEvent,
) -> (next: (TestRun, RunAction))
    ensures
        (next.0@, next.1@) == run@.step(*compilers, runner_view(*runner), event@),
        next.0@.wf(),
{
    proof {
        use_type_invariant(&run);
    }
    let phase = run.phase;
    let next = match event {
        RunEvent::Failed(error) => run.fail(EngineError::IO(error)),
        RunEvent::Begin => match phase {
            RunPhase::Idle => {
                let file = child_path(run.target.as_str(), MANIFEST_FILE);
                run.goto(RunPhase::ReadingManifest, RunAction::ReadManifest(file))
            },
            _ => run.fail(unexpected()),
        },
        RunEvent::Manifest(text) => match phase {
            RunPhase::ReadingManifest => {
                let version = detect_version(text.as_str());
                let cache = child_path(run.target.as_str(), BUILD_CACHE_DIR);
                let TestRun { target, phase: _, version: _, outcomes: _ } = run;
                (
                    TestRun { target, phase: RunPhase::ClearingCache, version, outcomes: Vec::new() },
                    RunAction::ClearCache(cache),
                )
            },
            _ => run.fail(unexpected()),
        },
        RunEvent::CacheCleared => match phase {
            RunPhase::ClearingCache => {
                let variants = required_variants(run.version);
                let variant = variants[run.outcomes.len()];
                let command = test_command(run.version, runner, compilers.get(variant).as_str());
                let dir = run.target.clone();
                run.goto(
                    RunPhase::Spawning,
                    RunAction::Spawn { command, dir, output: Output::Discarded },
                )
            },
            _ => run.fail(unexpected()),
        },
        RunEvent::Spawned => match phase {
            RunPhase::Spawning => run.goto(RunPhase::Waiting, RunAction::Wait(TIMEOUT_SECS)),
            _ => run.fail(unexpected()),
        },
        RunEvent::Exited(success) => match phase {
            RunPhase::Waiting => run.record(RunResult::Finished(success)),
            _ => run.fail(unexpected()),
        },
        RunEvent::Expired => match phase {
            RunPhase::Waiting => run.goto(RunPhase::Killing, RunAction::Kill),
            _ => run.fail(unexpected()),
        },
        RunEvent::Killed => match phase {
            RunPhase::Killing => run.goto(RunPhase::Reaping, RunAction::Reap),
            _ => run.fail(unexpected()),
        },
        RunEvent::Reaped => match phase {
            RunPhase::Reaping => run.record(RunResult::TimedOut),
            _ => run.fail(unexpected()),
        },
    };
    proof {
        use_type_invariant(&next.0);
    }
    next
}

fn unexpected() -> (error: EngineError)
    ensures
        error@ == EngineErrorView::Other(UNEXPECTED_EVENT@),
{
    EngineError::Other(String::from_str(UNEXPECTED_EVENT))
}

/// What the caller reports while one variant is run, for an invocation that
/// ends with `outcome`.
pub open spec fn events_for(outcome: RunResult) -> Seq<RunEventView> {
    match outcome {
        RunResult::Finished(success) => seq![
            RunEventView::CacheCleared,
            RunEventView::Spawned,
            RunEventView::Exited(success),
        ],
        RunResult::TimedOut => seq![
            RunEventView::CacheCleared,
            RunEventView::Spawned,
            RunEventView::Expired,
            RunEventView::Killed,
            RunEventView::Reaped,
        ],
    }
}

/// What the caller reports while the variants are run one after the other,
/// for invocations that end with `outcomes`.
pub open spec fn events_for_all(outcomes: Seq<RunResult>) -> Seq<RunEventView>
    decreases outcomes.len(),
{
    if outcomes.len() == 0 {
        Seq::empty()
    } else {
        events_for(outcomes[0]) + events_for_all(outcomes.drop_first())
    }
}

/// The state and the last action after a sequence of events; `last` is the
/// action before the first of them, if there was one.
pub open spec fn run_events(
    state: RunState,
    last: Option<RunActionView>,
    compilers: Compilers,
    runner: Option<Seq<char>>,
    events: Seq<RunEventView>,
) -> (RunState, Option<RunActionView>)
    decreases events.len(),
{
    if events.len() == 0 {
        (state, last)
    } else {
        let (next, action) = state.step(compilers, runner, events[0]);
        run_events(next, Some(action), compilers, runner, events.drop_first())
    }
}

proof fn lemma_run_events_in_two_parts(
    state: RunState,
    last: Option<RunActionView>,
    compilers: Compilers,
    runner: Option<Seq<char>>,
    first: Seq<RunEventView>,
    second: Seq<RunEventView>,
)
    ensures
        run_events(state, last, compilers, runner, first + second) == ({
            let (middle, action) = run_events(state, last, compilers, runner, first);
            run_events(middle, action, compilers, runner, second)
        }),
    decreases first.len(),
{
    if first.len() == 0 {
        assert(first + second =~= second);
    } else {
        let (next, action) = state.step(compilers, runner, first[0]);
        assert((first + second)[0] == first[0]);
        assert((first + second).drop_first() =~= first.drop_first() + second);
        lemma_run_events_in_two_parts(
            next,
            Some(action),
            compilers,
            runner,
            first.drop_first(),
            second,
        );
    }
}

proof fn lemma_one_variant(
    state: RunState,
    last: Option<RunActionView>,
    compilers: Compilers,
    runner: Option<Seq<char>>,
    outcome: RunResult,
)
    requires
        state.phase == RunPhase::ClearingCache,
    ensures
        run_events(state, last, compilers, runner, events_for(outcome)) == (
            state.record(outcome).0,
            Some(state.record(outcome).1),
        ),
{
    let e0 = events_for(outcome);
    let (s1, a1) = state.step(compilers, runner, e0[0]);
    let e1 = e0.drop_first();
    let (s2, a2) = s1.step(compilers, runner, e1[0]);
    let e2 = e1.drop_first();
    let (s3, a3) = s2.step(compilers, runner, e2[0]);
    let e3 = e2.drop_first();
    assert(run_events(state, last, compilers, runner, e0) == run_events(
        s1,
        Some(a1),
        compilers,
        runner,
        e1,
    ));
    assert(run_events(s1, Some(a1), compilers, runner, e1) == run_events(
        s2,
        Some(a2),
        compilers,
        runner,
        e2,
    ));
    assert(run_events(s2, Some(a2), compilers, runner, e2) == run_events(
        s3,
        Some(a3),
        compilers,
        runner,
        e3,
    ));
    match outcome {
        RunResult::Finished(success) => {
            assert(e3.len() == 0);
        },
        RunResult::TimedOut => {
            let (s4, a4) = s3.step(compilers, runner, e3[0]);
            let e4 = e3.drop_first();
            let (s5, a5) = s4.step(compilers, runner, e4[0]);
            let e5 = e4.drop_first();
            assert(run_events(s3, Some(a3), compilers, runner, e3) == run_events(
                s4,
                Some(a4),
                compilers,
                runner,
                e4,
            ));
            assert(run_events(s4, Some(a4), compilers, runner, e4) == run_events(
                s5,
                Some(a5),
                compilers,
                runner,
                e5,
            ));
            assert(e5.len() == 0);
        },
    }
}

proof fn lemma_remaining_variants(
    state: RunState,
    last: Option<RunActionView>,
    compilers: Compilers,
    runner: Option<Seq<char>>,
    rest: Seq<RunResult>,
)
    requires
        state.phase == RunPhase::ClearingCache,
        rest.len() > 0,
        state.outcomes.len() + rest.len() == variants_of(state.version).len(),
    ensures
        run_events(state, last, compilers, runner, events_for_all(rest)) == (
            RunState {
                target: state.target,
                phase: RunPhase::Complete,
                version: state.version,
                outcomes: state.outcomes + rest,
            },
            Some(RunActionView::Done(results_of(state.version, state.outcomes + rest))),
        ),
    decreases rest.len(),
{
    let (next, action) = state.record(rest[0]);
    lemma_one_variant(state, last, compilers, runner, rest[0]);
    lemma_run_events_in_two_parts(
        state,
        last,
        compilers,
        runner,
        events_for(rest[0]),
        events_for_all(rest.drop_first()),
    );
    assert(state.outcomes.push(rest[0]) + rest.drop_first() =~= state.outcomes + rest);
    if rest.len() == 1 {
        assert(state.outcomes.push(rest[0]) =~= state.outcomes + rest);
        assert(events_for_all(rest.drop_first()) =~= Seq::<RunEventView>::empty());
    } else {
        lemma_remaining_variants(next, Some(action), compilers, runner, rest.drop_first());
    }
}

/// Every required variant is run, in the fixed order, whatever the variants
/// before it reported: a run that is told the manifest and then, variant by
/// variant, how the invocation ended, completes with exactly these outcomes
/// in the shape of the version that the manifest declares.
pub proof fn lemma_every_variant_is_run(
    target: Seq<char>,
    compilers: Compilers,
    runner: Option<Seq<char>>,
    manifest: Seq<char>,
    outcomes: Seq<RunResult>,
)
    requires
        outcomes.len() == variants_of(version_of(manifest)).len(),
    ensures
        run_events(
            RunState::initial(target),
            None,
            compilers,
            runner,
            seq![RunEventView::Begin, RunEventView::Manifest(manifest)] + events_for_all(outcomes),
        ) == (
            RunState { target, phase: RunPhase::Complete, version: version_of(manifest), outcomes },
            Some(RunActionView::Done(results_of(version_of(manifest), outcomes))),
        ),
{
    let opening = seq![RunEventView::Begin, RunEventView::Manifest(manifest)];
    let start = RunState::initial(target);
    let (s1, a1) = start.step(compilers, runner, opening[0]);
    let (s2, a2) = s1.step(compilers, runner, opening[1]);
    assert(opening.drop_first()[0] == opening[1]);
    assert(opening.drop_first().drop_first().len() == 0);
    assert(run_events(start, None, compilers, runner, opening) == run_events(
        s1,
        Some(a1),
        compilers,
        runner,
        opening.drop_first(),
    ));
    assert(run_events(s1, Some(a1), compilers, runner, opening.drop_first()) == run_events(
        s2,
        Some(a2),
        compilers,
        runner,
        opening.drop_first().drop_first(),
    ));
    lemma_run_events_in_two_parts(start, None, compilers, runner, opening, events_for_all(outcomes));
    lemma_remaining_variants(s2, Some(a2), compilers, runner, outcomes);
    assert(Seq::<RunResult>::empty() + outcomes =~= outcomes);
}

/// Results are never partial: a step hands out results only when it
/// completes the run, and then they hold the outcome of every required
/// variant.
pub proof fn lemma_results_are_complete(
    state: RunState,
    compilers: Compilers,
    runner: Option<Seq<char>>,
    event: RunEventView,
)
    requires
        state.wf(),
    ensures
        ({
            let (next, action) = state.step(compilers, runner, event);
            &&& next.wf()
            &&& action matches RunActionView::Done(results) ==> {
                &&& next.phase == RunPhase::Complete
                &&& next.outcomes.len() == variants_of(next.version).len()
                &&& results == results_of(next.version, next.outcomes)
                &&& results.version() == next.version
                &&& results.outcomes() == next.outcomes
            }
        }),
{
    let (next, action) = state.step(compilers, runner, event);
    if let RunActionView::Done(results) = action {
        assert(results.outcomes() =~= next.outcomes);
    }
}

/// An invocation that runs out of time is killed, then waited for, and only
/// then recorded, as timed out: from the phase in which the test runner is
/// running, the report that the time limit expired leads to the request to
/// kill, the report of the kill to the request to reap, and the report that
/// the process has terminated to the outcome `TimedOut`. Nothing is recorded
/// before that.
pub proof fn lemma_timeout_is_killed_then_reaped(
    state: RunState,
    compilers: Compilers,
    runner: Option<Seq<char>>,
)
    requires
        state.phase == RunPhase::Waiting,
    ensures
        ({
            let (killing, first) = state.step(compilers, runner, RunEventView::Expired);
            let (reaping, second) = killing.step(compilers, runner, RunEventView::Killed);
            let (after, third) = reaping.step(compilers, runner, RunEventView::Reaped);
            &&& first == RunActionView::Kill
            &&& second == RunActionView::Reap
            &&& killing.outcomes == state.outcomes
            &&& reaping.outcomes == state.outcomes
            &&& (after, third) == state.record(RunResult::TimedOut)
            &&& after.outcomes == state.outcomes.push(RunResult::TimedOut)
        }),
{
}

} // verus!
