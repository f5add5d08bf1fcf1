use diff_harness::error::EngineError;
use diff_harness::outcome::{ElmTestVersion, RunResult, RunResults};
use diff_harness::runner::{
    check_tests_for, contains_bytes, detect_version, get_with_default, required_variants,
    test_command, CommandLine, Compilers, Output, RunAction, RunEvent, RunPhase, TestRun, Variant,
    BUILD_CACHE_DIR, MANIFEST_FILE, RUNNER_PATH_VAR, TESTS_DIR, TIMEOUT_SECS, UNEXPECTED_EVENT,
    VERSION_MARKER,
};

const OLD_MANIFEST: &str = r#"{
    "type": "package",
    "test-dependencies": {
        "elm-explorations/test": "1.2.2 <= v < 2.0.0"
    }
}"#;

const NEW_MANIFEST: &str = r#"{
    "type": "package",
    "test-dependencies": {
        "elm-explorations/test": "2.0.0 <= v < 3.0.0"
    }
}"#;

fn step(run: TestRun, event: RunEvent) -> (TestRun, RunAction) {
    check_tests_for(run, &Compilers::defaults(), &None, event)
}

const TARGET: &str = "repos/pub/pkg/1.0.0";

fn new_run() -> TestRun {
    TestRun::new(TARGET.to_string())
}

fn spawned(action: RunAction) -> CommandLine {
    match action {
        RunAction::Spawn { command, dir, output } => {
            assert_eq!(dir, TARGET);
            assert_eq!(output, Output::Discarded);
            command
        }
        other => panic!("expected a spawn, got {:?}", other),
    }
}

/// Runs one variant to the point where the test runner is awaited and gives
/// back the compiler that was named on the command line.
fn start_variant(run: TestRun) -> (TestRun, String) {
    assert_eq!(run.phase(), RunPhase::ClearingCache);
    let (run, action) = step(run, RunEvent::CacheCleared);
    let command = spawned(action);
    let compiler = command.args.last().unwrap().clone();
    assert_eq!(command.args[command.args.len() - 2], "--compiler");
    let (run, action) = step(run, RunEvent::Spawned);
    assert!(matches!(action, RunAction::Wait(120)));
    assert_eq!(run.phase(), RunPhase::Waiting);
    (run, compiler)
}

fn begin(manifest: &str) -> TestRun {
    let (run, action) = step(new_run(), RunEvent::Begin);
    assert!(matches!(action, RunAction::ReadManifest(ref file) if file == "repos/pub/pkg/1.0.0/elm.json"));
    assert_eq!(run.phase(), RunPhase::ReadingManifest);
    let (run, action) = step(run, RunEvent::Manifest(manifest.to_string()));
    assert!(matches!(action, RunAction::ClearCache(ref dir) if dir == "repos/pub/pkg/1.0.0/elm-stuff"));
    run
}

#[test]
fn the_constants_are_as_documented() {
    assert_eq!(TIMEOUT_SECS, 120);
    assert_eq!(MANIFEST_FILE, "elm.json");
    assert_eq!(TESTS_DIR, "tests");
    assert_eq!(BUILD_CACHE_DIR, "elm-stuff");
    assert_eq!(VERSION_MARKER, "\"elm-explorations/test\": \"1");
    assert_eq!(RUNNER_PATH_VAR, "ELM_TEST_RS_PATH");
}

#[test]
fn the_marker_selects_the_older_framework() {
    assert_eq!(detect_version(OLD_MANIFEST), ElmTestVersion::V1);
    assert_eq!(detect_version(NEW_MANIFEST), ElmTestVersion::V2);
    assert_eq!(detect_version(""), ElmTestVersion::V2);
    assert_eq!(detect_version("{}"), ElmTestVersion::V2);
    assert_eq!(detect_version(VERSION_MARKER), ElmTestVersion::V1);
    assert_eq!(detect_version("\"elm-explorations/test\": \""), ElmTestVersion::V2);
    assert_eq!(detect_version("\"elm-explorations/test\":\"1"), ElmTestVersion::V2);
    assert_eq!(
        detect_version("\u{39b} \"elm-explorations/test\": \"1.0.0\" \u{26a1}"),
        ElmTestVersion::V1
    );
}

#[test]
fn bytes_are_searched_for() {
    assert!(contains_bytes(b"hello world", b"o w"));
    assert!(contains_bytes(b"hello world", b"hello world"));
    assert!(contains_bytes(b"hello world", b"d"));
    assert!(contains_bytes(b"hello world", b""));
    assert!(contains_bytes(b"", b""));
    assert!(!contains_bytes(b"", b"a"));
    assert!(!contains_bytes(b"hello", b"hello world"));
    assert!(!contains_bytes(b"aab", b"abb"));
    assert!(contains_bytes(b"aaab", b"aab"));
}

#[test]
fn the_older_framework_needs_three_variants() {
    assert_eq!(
        required_variants(ElmTestVersion::V1),
        vec![Variant::Elm, Variant::LamderaStableNoWire, Variant::LamderaStable]
    );
}

#[test]
fn the_newer_framework_needs_five_variants() {
    assert_eq!(
        required_variants(ElmTestVersion::V2),
        vec![
            Variant::Elm,
            Variant::LamderaStableNoWire,
            Variant::LamderaStable,
            Variant::LamderaNextNoWire,
            Variant::LamderaNext
        ]
    );
}

#[test]
fn compilers_have_defaults() {
    let compilers = Compilers::defaults();
    assert_eq!(compilers.elm, "elm");
    assert_eq!(compilers.lamdera_stable_no_wire, "lamdera-stable-no-wire");
    assert_eq!(compilers.lamdera_stable, "lamdera-stable");
    assert_eq!(compilers.lamdera_next_no_wire, "lamdera-next-no-wire");
    assert_eq!(compilers.lamdera_next, "lamdera-next");
    assert_eq!(compilers.get(Variant::LamderaNext), "lamdera-next");
}

#[test]
fn each_compiler_is_overridden_on_its_own() {
    let compilers = Compilers::with_overrides(
        None,
        Some("/opt/lamdera".to_string()),
        None,
        None,
        Some("next".to_string()),
    );
    assert_eq!(compilers.get(Variant::Elm), "elm");
    assert_eq!(compilers.get(Variant::LamderaStableNoWire), "/opt/lamdera");
    assert_eq!(compilers.get(Variant::LamderaStable), "lamdera-stable");
    assert_eq!(compilers.get(Variant::LamderaNextNoWire), "lamdera-next-no-wire");
    assert_eq!(compilers.get(Variant::LamderaNext), "next");
}

#[test]
fn variants_name_their_environment_variables() {
    assert_eq!(Variant::Elm.env_name(), "ELM");
    assert_eq!(Variant::LamderaStableNoWire.env_name(), "LAMDERA_STABLE_NO_WIRE");
    assert_eq!(Variant::LamderaStable.env_name(), "LAMDERA_STABLE");
    assert_eq!(Variant::LamderaNextNoWire.env_name(), "LAMDERA_NEXT_NO_WIRE");
    assert_eq!(Variant::LamderaNext.env_name(), "LAMDERA_NEXT");
    assert_eq!(Variant::LamderaStable.default_name(), "lamdera-stable");
}

#[test]
fn a_missing_value_falls_back() {
    assert_eq!(get_with_default(None, "elm"), "elm");
    assert_eq!(get_with_default(Some("other".to_string()), "elm"), "other");
    assert_eq!(get_with_default(Some(String::new()), "elm"), "");
}

#[test]
fn the_older_framework_is_run_through_npx() {
    let command = test_command(ElmTestVersion::V1, &None, "elm");
    assert_eq!(command.program, "npx");
    assert_eq!(
        command.args,
        vec!["--yes", "elm-test@0.19.1-revision9", "--compiler", "elm"]
    );
    let with_runner = test_command(ElmTestVersion::V1, &Some("/bin/runner".to_string()), "elm");
    assert_eq!(with_runner.program, "npx");
}

#[test]
fn the_newer_framework_is_run_through_npx_by_default() {
    let command = test_command(ElmTestVersion::V2, &None, "lamdera-next");
    assert_eq!(command.program, "npx");
    assert_eq!(
        command.args,
        vec!["--yes", "elm-test-rs", "--workers", "4", "--compiler", "lamdera-next"]
    );
}

#[test]
fn the_newer_framework_is_run_from_a_configured_path() {
    let command = test_command(ElmTestVersion::V2, &Some("/bin/elm-test-rs".to_string()), "elm");
    assert_eq!(command.program, "/bin/elm-test-rs");
    assert_eq!(command.args, vec!["--workers", "4", "--compiler", "elm"]);
}

#[test]
fn three_variants_are_run_in_order() {
    let mut run = begin(OLD_MANIFEST);
    assert_eq!(run.version(), ElmTestVersion::V1);
    let mut compilers = Vec::new();
    let outcomes = [true, false, true];
    let mut last = None;
    for ok in outcomes {
        let (waiting, compiler) = start_variant(run);
        compilers.push(compiler);
        let (next, action) = step(waiting, RunEvent::Exited(ok));
        run = next;
        last = Some(action);
    }
    assert_eq!(compilers, vec!["elm", "lamdera-stable-no-wire", "lamdera-stable"]);
    assert_eq!(run.phase(), RunPhase::Complete);
    match last {
        Some(RunAction::Done(results)) => assert_eq!(
            results,
            RunResults::V1 {
                elm_result: RunResult::Finished(true),
                lamdera_stable_no_wire_result: RunResult::Finished(false),
                lamdera_stable_result: RunResult::Finished(true),
            }
        ),
        other => panic!("expected results, got {:?}", other),
    }
}

#[test]
fn a_reference_failure_does_not_end_the_run_early() {
    let mut run = begin(NEW_MANIFEST);
    assert_eq!(run.version(), ElmTestVersion::V2);
    let mut compilers = Vec::new();
    let mut last = None;
    for ok in [false, true, true, true, true] {
        let (waiting, compiler) = start_variant(run);
        compilers.push(compiler);
        let (next, action) = step(waiting, RunEvent::Exited(ok));
        run = next;
        last = Some(action);
    }
    assert_eq!(
        compilers,
        vec![
            "elm",
            "lamdera-stable-no-wire",
            "lamdera-stable",
            "lamdera-next-no-wire",
            "lamdera-next"
        ]
    );
    match last {
        Some(RunAction::Done(results)) => assert_eq!(
            results,
            RunResults::V2 {
                elm_result: RunResult::Finished(false),
                lamdera_stable_no_wire_result: RunResult::Finished(true),
                lamdera_stable_result: RunResult::Finished(true),
                lamdera_next_no_wire_result: RunResult::Finished(true),
                lamdera_next_result: RunResult::Finished(true),
            }
        ),
        other => panic!("expected results, got {:?}", other),
    }
}

#[test]
fn a_hanging_run_is_killed_then_reaped_then_recorded() {
    let run = begin(OLD_MANIFEST);
    let (run, _) = start_variant(run);
    let (run, action) = step(run, RunEvent::Expired);
    assert!(matches!(action, RunAction::Kill));
    assert_eq!(run.phase(), RunPhase::Killing);
    assert!(run.outcomes().is_empty());
    let (run, action) = step(run, RunEvent::Killed);
    assert!(matches!(action, RunAction::Reap));
    assert_eq!(run.phase(), RunPhase::Reaping);
    assert!(run.outcomes().is_empty());
    let (run, action) = step(run, RunEvent::Reaped);
    assert!(matches!(action, RunAction::ClearCache(ref dir) if dir == "repos/pub/pkg/1.0.0/elm-stuff"));
    assert_eq!(run.outcomes(), &vec![RunResult::TimedOut]);

    let (run, _) = start_variant(run);
    let (run, _) = step(run, RunEvent::Expired);
    let (run, _) = step(run, RunEvent::Killed);
    let (run, _) = step(run, RunEvent::Reaped);
    let (run, _) = start_variant(run);
    let (run, _) = step(run, RunEvent::Expired);
    let (run, _) = step(run, RunEvent::Killed);
    let (run, action) = step(run, RunEvent::Reaped);
    assert_eq!(run.phase(), RunPhase::Complete);
    match action {
        RunAction::Done(results) => assert_eq!(
            results,
            RunResults::V1 {
                elm_result: RunResult::TimedOut,
                lamdera_stable_no_wire_result: RunResult::TimedOut,
                lamdera_stable_result: RunResult::TimedOut,
            }
        ),
        other => panic!("expected results, got {:?}", other),
    }
}

#[test]
fn the_cache_is_cleared_before_every_variant() {
    let mut run = begin(NEW_MANIFEST);
    for i in 0..5 {
        assert_eq!(run.phase(), RunPhase::ClearingCache);
        assert_eq!(run.outcomes().len(), i);
        let (waiting, _) = start_variant(run);
        run = step(waiting, RunEvent::Exited(true)).0;
    }
    assert_eq!(run.phase(), RunPhase::Complete);
}

#[test]
fn the_configured_runner_and_compilers_are_used() {
    let compilers = Compilers::with_overrides(Some("my-elm".to_string()), None, None, None, None);
    let runner = Some("/opt/elm-test-rs".to_string());
    let (run, _) = check_tests_for(new_run(), &compilers, &runner, RunEvent::Begin);
    let (run, _) = check_tests_for(run, &compilers, &runner, RunEvent::Manifest(NEW_MANIFEST.to_string()));
    let (_, action) = check_tests_for(run, &compilers, &runner, RunEvent::CacheCleared);
    let command = spawned(action);
    assert_eq!(command.program, "/opt/elm-test-rs");
    assert_eq!(command.args, vec!["--workers", "4", "--compiler", "my-elm"]);
}

#[test]
fn a_failure_ends_the_run_with_an_io_error() {
    let run = begin(OLD_MANIFEST);
    let (run, _) = step(run, RunEvent::CacheCleared);
    let missing = std::io::Error::new(std::io::ErrorKind::NotFound, "cannot spawn npx");
    let (run, action) = step(run, RunEvent::Failed(missing));
    assert_eq!(run.phase(), RunPhase::Failed);
    match action {
        RunAction::Fail(EngineError::IO(error)) => {
            assert_eq!(error.kind(), std::io::ErrorKind::NotFound);
            assert_eq!(error.to_string(), "cannot spawn npx");
        }
        other => panic!("expected an I/O error, got {:?}", other),
    }
}

#[test]
fn an_unreadable_manifest_ends_the_run() {
    let (run, _) = step(new_run(), RunEvent::Begin);
    let (run, action) = step(run, RunEvent::Failed(std::io::Error::other("elm.json: not found")));
    assert_eq!(run.phase(), RunPhase::Failed);
    assert!(matches!(action, RunAction::Fail(EngineError::IO(_))));
}

#[test]
fn an_unexpected_event_ends_the_run() {
    let (run, action) = step(new_run(), RunEvent::Spawned);
    assert_eq!(run.phase(), RunPhase::Failed);
    match action {
        RunAction::Fail(EngineError::Other(text)) => assert_eq!(text, UNEXPECTED_EVENT),
        other => panic!("expected an error, got {:?}", other),
    }
    let run = begin(OLD_MANIFEST);
    let (run, action) = step(run, RunEvent::Exited(true));
    assert_eq!(run.phase(), RunPhase::Failed);
    assert!(matches!(action, RunAction::Fail(EngineError::Other(_))));
    let (run, action) = step(run, RunEvent::Begin);
    assert_eq!(run.phase(), RunPhase::Failed);
    assert!(matches!(action, RunAction::Fail(EngineError::Other(_))));
}

#[test]
fn a_new_run_is_idle() {
    let run = new_run();
    assert_eq!(run.phase(), RunPhase::Idle);
    assert_eq!(run.target(), TARGET);
    assert!(run.outcomes().is_empty());
}
