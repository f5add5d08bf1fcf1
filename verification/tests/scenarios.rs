use diff_harness::engine::{Engine, WorkerAction};
use diff_harness::export::export_records;
use diff_harness::outcome::{ElmTestVersion, RunResult, RunResults};
use diff_harness::ranking::{done_list, priority, Priority};
use diff_harness::runner::{check_tests_for, Compilers, RunAction, RunEvent, TestRun};

const FIVE_VARIANTS: &str = "{ \"test-dependencies\": { \"elm-explorations/test\": \"2.1.0 <= v < 3.0.0\" } }";
const THREE_VARIANTS: &str = "{ \"test-dependencies\": { \"elm-explorations/test\": \"1.0.0 <= v < 2.0.0\" } }";

/// How one invocation of the test runner ends.
#[derive(Clone, Copy)]
enum Ending {
    Exits(bool),
    Hangs,
}

/// Runs a target to the end with a manifest and a list of endings, and
/// gives back the results and the requests that were made on the way.
fn run_target(target: &str, manifest: &str, endings: &[Ending]) -> (RunResults, Vec<String>) {
    let compilers = Compilers::defaults();
    let mut asked = Vec::new();
    let mut endings = endings.iter();
    let mut hanging = false;
    let (mut run, mut action) =
        check_tests_for(TestRun::new(target.to_string()), &compilers, &None, RunEvent::Begin);
    for _ in 0..100 {
        let event = match action {
            RunAction::ReadManifest(_) => {
                asked.push("read".to_string());
                RunEvent::Manifest(manifest.to_string())
            }
            RunAction::ClearCache(_) => {
                asked.push("clear".to_string());
                RunEvent::CacheCleared
            }
            RunAction::Spawn { command, .. } => {
                asked.push(format!("spawn {}", command.args.last().unwrap()));
                RunEvent::Spawned
            }
            RunAction::Wait(seconds) => {
                asked.push(format!("wait {}", seconds));
                match endings.next().expect("more invocations than endings") {
                    Ending::Exits(ok) => RunEvent::Exited(*ok),
                    Ending::Hangs => {
                        hanging = true;
                        RunEvent::Expired
                    }
                }
            }
            RunAction::Kill => {
                assert!(hanging);
                asked.push("kill".to_string());
                RunEvent::Killed
            }
            RunAction::Reap => {
                assert!(hanging);
                hanging = false;
                asked.push("reap".to_string());
                RunEvent::Reaped
            }
            RunAction::Done(results) => {
                assert!(!hanging, "a process was left running");
                return (results, asked);
            }
            RunAction::Fail(error) => panic!("the run failed: {:?}", error),
        };
        let next = check_tests_for(run, &compilers, &None, event);
        run = next.0;
        action = next.1;
    }
    panic!("the run does not end");
}

fn complete(engine: &mut Engine, target: &str, results: RunResults, now: u64) {
    engine.send(target.to_string()).unwrap();
    match engine.worker_poll(now) {
        WorkerAction::Run { path, start } => {
            assert_eq!(path, target);
            engine.worker_finish(path, start, now + 1_000, Ok(results)).unwrap();
        }
        other => panic!("expected a target, got {:?}", other),
    }
}

#[test]
fn failing_reference_with_passing_forks() {
    let endings = [
        Ending::Exits(false),
        Ending::Exits(true),
        Ending::Exits(true),
        Ending::Exits(true),
        Ending::Exits(true),
    ];
    let (results, asked) = run_target("pub/pkg/1.0.0", FIVE_VARIANTS, &endings);
    assert_eq!(results.version(), ElmTestVersion::V2);
    assert_eq!(
        results,
        RunResults::V2 {
            elm_result: RunResult::Finished(false),
            lamdera_stable_no_wire_result: RunResult::Finished(true),
            lamdera_stable_result: RunResult::Finished(true),
            lamdera_next_no_wire_result: RunResult::Finished(true),
            lamdera_next_result: RunResult::Finished(true),
        }
    );
    assert_eq!(asked.iter().filter(|a| a.starts_with("spawn")).count(), 5);
    assert_eq!(priority(&results), Priority::ReferenceMismatch);
    assert_eq!(priority(&results).rank(), 0);

    let mut engine = Engine::new();
    complete(&mut engine, "pub/pkg/1.0.0", results, 0);
    let records = export_records(engine.dones());
    assert_eq!(records.len(), 2);
    assert_eq!(
        records[1],
        vec!["pub/pkg/1.0.0", "2", "\u{274c}", "\u{2705}", "\u{2705}", "\u{2705}", "\u{2705}"]
    );
}

#[test]
fn three_variants_all_passing() {
    let endings = [Ending::Exits(true), Ending::Exits(true), Ending::Exits(true)];
    let (results, asked) = run_target("pub/pkg2/2.0.0", THREE_VARIANTS, &endings);
    assert_eq!(results.version(), ElmTestVersion::V1);
    assert_eq!(
        results,
        RunResults::V1 {
            elm_result: RunResult::Finished(true),
            lamdera_stable_no_wire_result: RunResult::Finished(true),
            lamdera_stable_result: RunResult::Finished(true),
        }
    );
    assert_eq!(
        asked,
        vec![
            "read",
            "clear",
            "spawn elm",
            "wait 120",
            "clear",
            "spawn lamdera-stable-no-wire",
            "wait 120",
            "clear",
            "spawn lamdera-stable",
            "wait 120",
        ]
    );
    assert_eq!(priority(&results), Priority::Nominal);

    let mut engine = Engine::new();
    complete(&mut engine, "pub/pkg2/2.0.0", results, 0);
    assert_eq!(engine.dones().len(), 1);
    assert_eq!(export_records(engine.dones()).len(), 1);
}

#[test]
fn hanging_reference_run() {
    let endings = [Ending::Hangs, Ending::Hangs, Ending::Hangs];
    let (results, asked) = run_target("pub/pkg3/1.0.0", THREE_VARIANTS, &endings);
    assert_eq!(results.reference(), RunResult::TimedOut);
    assert_eq!(
        &asked[..6],
        &["read", "clear", "spawn elm", "wait 120", "kill", "reap"]
    );
    assert_eq!(asked.iter().filter(|a| *a == "kill").count(), 3);
    assert_eq!(asked.iter().filter(|a| *a == "reap").count(), 3);
    assert_eq!(priority(&results), Priority::ReferenceTimedOut);

    let failed = RunResults::V1 {
        elm_result: RunResult::Finished(false),
        lamdera_stable_no_wire_result: RunResult::Finished(false),
        lamdera_stable_result: RunResult::Finished(false),
    };
    assert!(priority(&results).rank() < priority(&failed).rank());

    let mut engine = Engine::new();
    complete(&mut engine, "pub/failed/1.0.0", failed, 0);
    complete(&mut engine, "pub/pkg3/1.0.0", results, 5_000);
    complete(&mut engine, "pub/failed/2.0.0", failed, 9_000);
    let shown: Vec<String> = done_list(engine.dones()).iter().map(|d| d.path.clone()).collect();
    assert_eq!(shown, vec!["pub/pkg3/1.0.0", "pub/failed/2.0.0", "pub/failed/1.0.0"]);
    assert_eq!(export_records(engine.dones()).len(), 4);
}

#[test]
fn a_hang_of_one_fork_is_a_mismatch() {
    let endings = [Ending::Exits(true), Ending::Hangs, Ending::Exits(true)];
    let (results, _) = run_target("pub/pkg4/1.0.0", THREE_VARIANTS, &endings);
    assert_eq!(
        results,
        RunResults::V1 {
            elm_result: RunResult::Finished(true),
            lamdera_stable_no_wire_result: RunResult::TimedOut,
            lamdera_stable_result: RunResult::Finished(true),
        }
    );
    assert_eq!(priority(&results), Priority::ReferenceMismatch);
}
