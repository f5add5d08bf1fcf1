use diff_harness::corpus::{
    author_of, checkout_dir, clone_command, clone_url, package_dir, progress_line,
    lint_is_clean, tally, tally_line, CloneStatus, Tally, INDEX_URL, NO_ERRORS,
};
use diff_harness::error::EngineError;

#[test]
fn checkouts_live_under_repos() {
    assert_eq!(package_dir("elm/core"), "repos/elm/core");
    assert_eq!(package_dir("elm"), "repos/elm");
    assert_eq!(checkout_dir("elm/core", "1.0.5"), "repos/elm/core/1.0.5");
}

#[test]
fn packages_are_cloned_over_ssh() {
    assert_eq!(clone_url("elm/core"), "git@github.com:elm/core.git");
}

#[test]
fn one_version_is_cloned_without_history() {
    let command = clone_command("elm/core", "1.0.5", "repos/elm/core/1.0.5");
    assert_eq!(command.program, "git");
    assert_eq!(
        command.args,
        vec![
            "clone",
            "--quiet",
            "--branch",
            "1.0.5",
            "--depth",
            "1",
            "git@github.com:elm/core.git",
            "repos/elm/core/1.0.5",
        ]
    );
}

#[test]
fn the_publisher_stands_before_the_slash() {
    assert_eq!(author_of("elm/core").unwrap(), "elm");
    assert_eq!(author_of("elm-explorations/test").unwrap(), "elm-explorations");
    assert_eq!(author_of("/core").unwrap(), "");
    assert_eq!(author_of("elm/").unwrap(), "elm");
    assert_eq!(author_of("\u{e9}lm/c\u{f4}re").unwrap(), "\u{e9}lm");
}

#[test]
fn a_name_without_exactly_one_slash_is_refused() {
    for name in ["core", "", "a/b/c", "//", "a//"] {
        match author_of(name) {
            Err(EngineError::Other(text)) => {
                assert_eq!(text, format!("Could not parse {} as author/package-name", name))
            }
            other => panic!("expected an error for {:?}, got {:?}", name, other),
        }
    }
}

#[test]
fn statuses_are_counted() {
    let statuses = vec![
        CloneStatus::Cloned,
        CloneStatus::AlreadyPresent,
        CloneStatus::Error,
        CloneStatus::Cloned,
        CloneStatus::Cloned,
        CloneStatus::AlreadyPresent,
    ];
    assert_eq!(tally(&statuses), Tally { present: 2, cloned: 3, error: 1 });
    assert_eq!(tally(&Vec::new()), Tally { present: 0, cloned: 0, error: 0 });
}

#[test]
fn the_counts_are_summed_up_in_one_line() {
    let line = tally_line(Tally { present: 120, cloned: 7, error: 0 });
    assert_eq!(line, "Cloned 7, errored 0, already present 120");
}

#[test]
fn only_the_exact_line_counts_as_clean() {
    assert_eq!(NO_ERRORS, "I found no errors!\n");
    assert!(lint_is_clean("I found no errors!\n"));
    assert!(!lint_is_clean("I found no errors!"));
    assert!(!lint_is_clean("I found no errors!\n\n"));
    assert!(!lint_is_clean(""));
    assert!(!lint_is_clean("I found 2 errors in 1 file.\n"));
}

#[test]
fn progress_is_right_aligned() {
    assert_eq!(progress_line(0, 1234), "    0/1234");
    assert_eq!(progress_line(42, 7), "   42/7");
    assert_eq!(progress_line(99_999, 100_000), "99999/100000");
    assert_eq!(progress_line(123_456, 0), "123456/0");
}

#[test]
fn the_index_is_the_package_site() {
    assert_eq!(INDEX_URL, "https://package.elm-lang.org/search.json");
}
