use diff_harness::error::EngineError;
use diff_harness::walker::{
    walk_path, WalkAction, WalkEvent, WalkPhase, Walker, CORPUS_ROOT, UNEXPECTED_REPORT,
};

/// A directory tree in memory: each directory with its entries, and the set
/// of directories that hold tests and a manifest.
struct Tree {
    dirs: Vec<(String, Vec<String>)>,
    tests: Vec<String>,
    manifests: Vec<String>,
}

impl Tree {
    fn new() -> Tree {
        Tree { dirs: Vec::new(), tests: Vec::new(), manifests: Vec::new() }
    }

    fn dir(mut self, path: &str, entries: &[&str]) -> Tree {
        let entries = entries.iter().map(|e| format!("{}/{}", path, e)).collect();
        self.dirs.push((path.to_string(), entries));
        self
    }

    fn target(mut self, path: &str) -> Tree {
        self.tests.push(path.to_string());
        self.manifests.push(path.to_string());
        self
    }

    fn tests_only(mut self, path: &str) -> Tree {
        self.tests.push(path.to_string());
        self
    }

    fn manifest_only(mut self, path: &str) -> Tree {
        self.manifests.push(path.to_string());
        self
    }

    fn has(&self, dirs: &[String], dir: &str) -> bool {
        dirs.iter().any(|d| d == dir)
    }

    fn answer(&self, action: &WalkAction) -> WalkEvent {
        match action {
            WalkAction::ReadDir(dir) => match self.dirs.iter().find(|(path, _)| path == dir) {
                Some((_, entries)) => WalkEvent::Listing(entries.clone()),
                None => WalkEvent::Failed(std::io::Error::new(
                    std::io::ErrorKind::NotFound,
                    format!("{}: no such directory", dir),
                )),
            },
            WalkAction::Probe { tests, manifest } => WalkEvent::Probed {
                tests: tests.strip_suffix("/tests").map_or(false, |dir| self.has(&self.tests, dir)),
                manifest: manifest
                    .strip_suffix("/elm.json")
                    .map_or(false, |dir| self.has(&self.manifests, dir)),
            },
            WalkAction::Send(_) => WalkEvent::Sent,
            other => panic!("nothing to answer to {:?}", other),
        }
    }
}

/// Walks the whole tree; `stop_after` sets the shutdown flag once that many
/// targets were sent.
fn walk(tree: &Tree, stop_after: Option<usize>) -> (Vec<String>, Vec<String>, WalkAction) {
    let mut sent = Vec::new();
    let mut visited = Vec::new();
    let (mut walker, mut action) = walk_path(Walker::new("repos".to_string()), false, WalkEvent::Begin);
    for _ in 0..10_000 {
        match &action {
            WalkAction::Finish | WalkAction::Fail(_) => return (sent, visited, action),
            WalkAction::Send(path) => sent.push(path.clone()),
            WalkAction::ReadDir(path) => visited.push(path.clone()),
            WalkAction::Probe { tests, manifest } => {
                let dir = tests.strip_suffix("/tests").unwrap();
                assert_eq!(manifest, &format!("{}/elm.json", dir));
                visited.push(dir.to_string());
            }
        }
        let stopping = stop_after.map_or(false, |limit| sent.len() >= limit);
        let event = tree.answer(&action);
        let next = walk_path(walker, stopping, event);
        walker = next.0;
        action = next.1;
    }
    panic!("the walk does not end");
}

fn sample() -> Tree {
    Tree::new()
        .dir("repos", &["zoe", "adam"])
        .dir("repos/adam", &["ui", "core"])
        .dir("repos/zoe", &["parser"])
        .dir("repos/adam/core", &["2.0.0", "1.0.0", "10.0.0"])
        .dir("repos/adam/ui", &["1.0.0"])
        .dir("repos/zoe/parser", &["3.1.0", "3.0.0"])
        .target("repos/adam/core/1.0.0")
        .target("repos/adam/core/10.0.0")
        .tests_only("repos/adam/core/2.0.0")
        .manifest_only("repos/adam/ui/1.0.0")
        .target("repos/zoe/parser/3.0.0")
        .target("repos/zoe/parser/3.1.0")
}

#[test]
fn the_corpus_is_under_repos() {
    assert_eq!(CORPUS_ROOT, "repos");
}

#[test]
fn a_walk_begins_with_the_root() {
    let walker = Walker::new("repos".to_string());
    assert_eq!(walker.phase(), WalkPhase::Idle);
    let (walker, action) = walk_path(walker, false, WalkEvent::Begin);
    assert_eq!(walker.phase(), WalkPhase::ListingRoot);
    assert!(matches!(action, WalkAction::ReadDir(ref path) if path == "repos"));
}

#[test]
fn exactly_the_targets_are_sent_in_sorted_order() {
    let (sent, _, end) = walk(&sample(), None);
    assert!(matches!(end, WalkAction::Finish));
    assert_eq!(
        sent,
        vec![
            "repos/adam/core/1.0.0",
            "repos/adam/core/10.0.0",
            "repos/zoe/parser/3.0.0",
            "repos/zoe/parser/3.1.0",
        ]
    );
}

#[test]
fn every_directory_is_visited_once_in_sorted_order() {
    let (_, visited, _) = walk(&sample(), None);
    assert_eq!(
        visited,
        vec![
            "repos",
            "repos/adam",
            "repos/adam/core",
            "repos/adam/core/1.0.0",
            "repos/adam/core/10.0.0",
            "repos/adam/core/2.0.0",
            "repos/adam/ui",
            "repos/adam/ui/1.0.0",
            "repos/zoe",
            "repos/zoe/parser",
            "repos/zoe/parser/3.0.0",
            "repos/zoe/parser/3.1.0",
        ]
    );
}

#[test]
fn the_order_of_listing_does_not_matter() {
    let shuffled = Tree::new()
        .dir("repos", &["adam", "zoe"])
        .dir("repos/zoe", &["parser"])
        .dir("repos/adam", &["core", "ui"])
        .dir("repos/adam/ui", &["1.0.0"])
        .dir("repos/adam/core", &["10.0.0", "2.0.0", "1.0.0"])
        .dir("repos/zoe/parser", &["3.0.0", "3.1.0"])
        .target("repos/zoe/parser/3.1.0")
        .target("repos/adam/core/10.0.0")
        .target("repos/zoe/parser/3.0.0")
        .target("repos/adam/core/1.0.0")
        .tests_only("repos/adam/core/2.0.0")
        .manifest_only("repos/adam/ui/1.0.0");
    assert_eq!(walk(&shuffled, None).0, walk(&sample(), None).0);
}

#[test]
fn a_directory_without_tests_or_manifest_is_skipped_silently() {
    let tree = Tree::new()
        .dir("repos", &["a"])
        .dir("repos/a", &["p"])
        .dir("repos/a/p", &["1.0.0", "2.0.0", "3.0.0"])
        .tests_only("repos/a/p/1.0.0")
        .manifest_only("repos/a/p/2.0.0");
    let (sent, _, end) = walk(&tree, None);
    assert!(sent.is_empty());
    assert!(matches!(end, WalkAction::Finish));
}

#[test]
fn an_empty_corpus_has_no_targets() {
    let (sent, visited, end) = walk(&Tree::new().dir("repos", &[]), None);
    assert!(sent.is_empty());
    assert_eq!(visited, vec!["repos"]);
    assert!(matches!(end, WalkAction::Finish));
    let tree = Tree::new().dir("repos", &["a", "b"]).dir("repos/a", &[]).dir("repos/b", &["p"]).dir("repos/b/p", &[]);
    let (sent, visited, end) = walk(&tree, None);
    assert!(sent.is_empty());
    assert_eq!(visited, vec!["repos", "repos/a", "repos/b", "repos/b/p"]);
    assert!(matches!(end, WalkAction::Finish));
}

#[test]
fn a_shutdown_ends_the_walk_early_and_without_error() {
    let (sent, _, end) = walk(&sample(), Some(1));
    assert_eq!(sent, vec!["repos/adam/core/1.0.0"]);
    assert!(matches!(end, WalkAction::Finish));
    let (sent, visited, end) = walk(&sample(), Some(0));
    assert!(sent.is_empty());
    assert_eq!(visited, vec!["repos"]);
    assert!(matches!(end, WalkAction::Finish));
}

#[test]
fn a_shutdown_before_the_start_sends_nothing() {
    let (walker, action) = walk_path(Walker::new("repos".to_string()), true, WalkEvent::Begin);
    assert!(matches!(action, WalkAction::Finish));
    assert_eq!(walker.phase(), WalkPhase::Finished);
}

#[test]
fn a_directory_that_cannot_be_read_aborts_the_walk() {
    let tree = Tree::new().dir("repos", &["a", "b"]).dir("repos/a", &["p"]);
    let (sent, visited, end) = walk(&tree, None);
    assert!(sent.is_empty());
    assert_eq!(visited, vec!["repos", "repos/a", "repos/a/p"]);
    match end {
        WalkAction::Fail(EngineError::IO(error)) => {
            assert_eq!(error.kind(), std::io::ErrorKind::NotFound);
            assert_eq!(error.to_string(), "repos/a/p: no such directory");
        }
        other => panic!("expected an I/O error, got {:?}", other),
    }
}

#[test]
fn a_failure_is_reported_even_during_shutdown() {
    let (walker, _) = walk_path(Walker::new("repos".to_string()), false, WalkEvent::Begin);
    let (walker, action) = walk_path(walker, true, WalkEvent::Failed(std::io::Error::other("denied")));
    assert_eq!(walker.phase(), WalkPhase::Failed);
    assert!(matches!(action, WalkAction::Fail(EngineError::IO(ref e)) if e.to_string() == "denied"));
}

#[test]
fn an_unexpected_report_aborts_the_walk() {
    let (walker, action) = walk_path(Walker::new("repos".to_string()), false, WalkEvent::Sent);
    assert_eq!(walker.phase(), WalkPhase::Failed);
    match action {
        WalkAction::Fail(EngineError::Other(text)) => assert_eq!(text, UNEXPECTED_REPORT),
        other => panic!("expected an error, got {:?}", other),
    }
    let (walker, _) = walk_path(Walker::new("repos".to_string()), false, WalkEvent::Begin);
    let (walker, action) = walk_path(walker, false, WalkEvent::Probed { tests: true, manifest: true });
    assert_eq!(walker.phase(), WalkPhase::Failed);
    assert!(matches!(action, WalkAction::Fail(EngineError::Other(_))));
}

#[test]
fn a_version_is_probed_before_it_is_sent() {
    let tree = Tree::new()
        .dir("repos", &["a"])
        .dir("repos/a", &["p"])
        .dir("repos/a/p", &["1.0.0"])
        .target("repos/a/p/1.0.0");
    let (walker, action) = walk_path(Walker::new("repos".to_string()), false, WalkEvent::Begin);
    let (walker, action) = walk_path(walker, false, tree.answer(&action));
    assert_eq!(walker.phase(), WalkPhase::ListingAuthor);
    let (walker, action) = walk_path(walker, false, tree.answer(&action));
    assert_eq!(walker.phase(), WalkPhase::ListingPackage);
    let (walker, action) = walk_path(walker, false, tree.answer(&action));
    assert_eq!(walker.phase(), WalkPhase::Probing);
    assert!(matches!(
        action,
        WalkAction::Probe { ref tests, ref manifest }
            if tests == "repos/a/p/1.0.0/tests" && manifest == "repos/a/p/1.0.0/elm.json"
    ));
    let (walker, action) = walk_path(walker, false, tree.answer(&action));
    assert_eq!(walker.phase(), WalkPhase::Sending);
    assert!(matches!(action, WalkAction::Send(ref path) if path == "repos/a/p/1.0.0"));
    let (walker, action) = walk_path(walker, false, WalkEvent::Sent);
    assert_eq!(walker.phase(), WalkPhase::Finished);
    assert!(matches!(action, WalkAction::Finish));
}
