//! Names and commands for fetching the corpus: where a package is checked
//! out, how it is cloned, and how the outcome of fetching is summed up.
//!
//! Nothing here fetches anything.

use vstd::prelude::*;
use vstd::string::*;
use crate::error::{EngineError, EngineErrorView};
use crate::runner::{CommandLine, CommandLineView};
use crate::text::{decimal, decimal_string, pad_left, pad_left_string, same_text};

verus! {

/// Where the list of all packages is published.
pub const INDEX_URL: &'static str = "https://package.elm-lang.org/search.json";

/// What the linter prints when it has nothing to report.
pub const NO_ERRORS: &'static str = "I found no errors!\n";

/// How fetching one package ended.
#[derive(Clone, Copy, Debug, PartialEq, Eq, Structural)]
pub enum CloneStatus {
    /// The package was cloned.
    Cloned,
    /// The checkout was there already.
    AlreadyPresent,
    /// Cloning failed.
    Error,
}

/// How many packages ended in which way.
#[derive(Clone, Copy, Debug, PartialEq, Eq, Structural)]
pub struct Tally {
    pub present: usize,
    pub cloned: usize,
    pub error: usize,
}

/// How many of the statuses are `status`.
pub open spec fn count_of(statuses: Seq<CloneStatus>, status: CloneStatus) -> nat
    decreases statuses.len(),
{
    if statuses.len() == 0 {
        0
    } else {
        count_of(statuses.drop_last(), status) + if statuses.last() == status {
            1nat
        } else {
            0nat
        }
    }
}

/// The directory of a publisher or a package: `repos/` and its name.
pub open spec fn dir_of(name: Seq<char>) -> Seq<char> {
    "repos/"@ + name
}

/// The directory of one version of a package.
pub open spec fn checkout_of(name: Seq<char>, version: Seq<char>) -> Seq<char> {
    "repos/"@ + name + "/"@ + version
}

/// The address from which a package is cloned. It is of the kind that
/// never asks for a user name or a password.
pub open spec fn url_of(name: Seq<char>) -> Seq<char> {
    "git@github.com:"@ + name + ".git"@
}

/// The command that clones one version of a package into `destination`,
/// without its history.
pub open spec fn clone_command_of(
    name: Seq<char>,
    version: Seq<char>,
    destination: Seq<char>,
) -> CommandLineView {
    CommandLineView {
        program: "git"@,
        args: seq![
            "clone"@,
            "--quiet"@,
            "--branch"@,
            version,
            "--depth"@,
            "1"@,
            url_of(name),
            destination,
        ],
    }
}

/// Whether the only slash of `name` stands at position `at`.
pub open spec fn only_slash_at(name: Seq<char>, at: int) -> bool {
    &&& 0 <= at < name.len()
    &&& name[at] == '/'
    &&& forall|j: int| 0 <= j < name.len() && j != at ==> name[j] != '/'
}

/// The message for a package name that is not a publisher, a slash and a
/// name.
pub open spec fn malformed(name: Seq<char>) -> Seq<char> {
    "Could not parse "@ + name + " as author/package-name"@
}

/// The line that sums up how fetching went.
pub open spec fn tally_text(tally: Tally) -> Seq<char> {
    "Cloned "@ + decimal(tally.cloned as nat) + ", errored "@ + decimal(tally.error as nat)
        + ", already present "@ + decimal(tally.present as nat)
}

/// The line that says how many checkouts were found clean so far: the
/// count, right-aligned in five characters, a slash, and the total.
pub open spec fn progress_text(count: nat, total: nat) -> Seq<char> {
    pad_left(decimal(count), 5) + "/"@ + decimal(total)
}

/// The directory of a publisher or a package.
pub fn package_dir(name: &str) -> (dir: String)
    ensures
        dir@ == dir_of(name@),
{
    let mut dir = String::from_str("repos/");
    dir.append(name);
    dir
}

/// The directory of one version of a package.
pub fn checkout_dir(name: &str, version: &str) -> (dir: String)
    ensures
        dir@ == checkout_of(name@, version@),
{
    let mut dir = String::from_str("repos/");
    dir.append(name);
    dir.append("/");
    dir.append(version);
    dir
}

/// The address from which a package is cloned.
pub fn clone_url(name: &str) -> (url: String)
    ensures
        url@ == url_of(name@),
{
    let mut url = String::from_str("git@github.com:");
    url.append(name);
    url.append(".git");
    url
}

/// The command that clones one version of a package into `destination`.
pub fn clone_command(name: &str, version: &str, destination: &str) -> (command: CommandLine)
    ensures
        command@ == clone_command_of(name@, version@, destination@),
{
    let mut args: Vec<String> = Vec::new();
    args.push(String::from_str("clone"));
    args.push(String::from_str("--quiet"));
    args.push(String::from_str("--branch"));
    args.push(String::from_str(version));
    args.push(String::from_str("--depth"));
    args.push(String::from_str("1"));
    args.push(clone_url(name));
    args.push(String::from_str(destination));
    let command = CommandLine { program: String::from_str("git"), args };
    assert(command@.args =~= clone_command_of(name@, version@, destination@).args);
    command
}

/// The publisher of a package, from its full name: what stands before the
/// slash. A name without a slash, or with more than one, is refused.
pub fn author_of(name: &str) -> (author: Result<String, EngineError>)
    ensures
        match author {
            Ok(text) => exists|at: int| only_slash_at(name@, at) && text@ == name@.take(at),
            Err(e) => e@ == EngineErrorView::Other(malformed(name@)) && forall|at: int|
                !only_slash_at(name@, at),
        },
{
    let len = name.unicode_len();
    let mut found: Option<usize> = None;
    let mut twice = false;
    let mut i: usize = 0;
    while i < len
        invariant
            i <= len,
            len == name@.len(),
            match found {
                None => !twice && forall|j: int| 0 <= j < i ==> name@[j] != '/',
                Some(at) => at < i && name@[at as int] == '/' && (forall|j: int|
                    0 <= j < at ==> name@[j] != '/') && (twice <==> exists|j: int|
                    at < j < i && name@[j] == '/'),
            },
        decreases len - i,
    {
        if name.get_char(i) == '/' {
            match found {
                None => {
                    found = Some(i);
                },
                Some(at) => {
                    twice = true;
                },
            }
        }
        i = i + 1;
    }
    match found {
        Some(at) => {
            if !twice {
                assert(only_slash_at(name@, at as int));
                let author = name.substring_char(0, at);
                assert(name@.subrange(0, at as int) =~= name@.take(at as int));
                return Ok(String::from_str(author));
            }
            assert forall|other: int| !only_slash_at(name@, other) by {
                let second = choose|j: int| at < j < len && name@[j] == '/';
                if only_slash_at(name@, other) {
                    assert(name@[at as int] == '/' && name@[second] == '/');
                }
            }
        },
        None => {},
    }
    let mut message = String::from_str("Could not parse ");
    message.append(name);
    message.append(" as author/package-name");
    Err(EngineError::Other(message))
}

/// Counts how many packages ended in which way.
pub fn tally(statuses: &Vec<CloneStatus>) -> (sums: Tally)
    ensures
        sums.present == count_of(statuses@, CloneStatus::AlreadyPresent),
        sums.cloned == count_of(statuses@, CloneStatus::Cloned),
        sums.error == count_of(statuses@, CloneStatus::Error),
        sums.present + sums.cloned + sums.error == statuses.len(),
{
    let mut sums = Tally { present: 0, cloned: 0, error: 0 };
    let mut i: usize = 0;
    while i < statuses.len()
        invariant
            i <= statuses.len(),
            sums.present == count_of(statuses@.take(i as int), CloneStatus::AlreadyPresent),
            sums.cloned == count_of(statuses@.take(i as int), CloneStatus::Cloned),
            sums.error == count_of(statuses@.take(i as int), CloneStatus::Error),
            sums.present + sums.cloned + sums.error == i,
        decreases statuses.len() - i,
    {
        proof {
            assert(statuses@.take(i + 1).drop_last() =~= statuses@.take(i as int));
            assert(statuses@.take(i + 1).last() == statuses@[i as int]);
        }
        match statuses[i] {
            CloneStatus::Cloned => {
                sums.cloned = sums.cloned + 1;
            },
            CloneStatus::AlreadyPresent => {
                sums.present = sums.present + 1;
            },
            CloneStatus::Error => {
                sums.error = sums.error + 1;
            },
        }
        i = i + 1;
    }
    assert(statuses@.take(statuses.len() as int) =~= statuses@);
    sums
}

/// The line that sums up how fetching went.
pub fn tally_line(sums: Tally) -> (line: String)
    ensures
        line@ == tally_text(sums),
{
    let mut line = String::from_str("Cloned ");
    line.append(decimal_string(sums.cloned as u128).as_str());
    line.append(", errored ");
    line.append(decimal_string(sums.error as u128).as_str());
    line.append(", already present ");
    line.append(decimal_string(sums.present as u128).as_str());
    line
}

/// Whether the linter found nothing: its output is exactly the one line
/// that says so.
pub fn lint_is_clean(output: &str) -> (clean: bool)
    ensures
        clean == (output@ == NO_ERRORS@),
{
    same_text(output, NO_ERRORS)
}

/// The line that says how many checkouts were found clean so far.
pub fn progress_line(count: u32, total: usize) -> (line: String)
    ensures
        line@ == progress_text(count as nat, total as nat),
{
    let digits = decimal_string(count as u128);
    let mut line = pad_left_string(digits.as_str(), 5);
    line.append("/");
    line.append(decimal_string(total as u128).as_str());
    line
}

} // verus!
