//! Target discovery: the walk over the three levels of the corpus,
//! publisher, package and version, that finds the version directories with
//! a manifest and a test directory.
//!
//! The walker reads no directory itself. It is a state machine: the caller
//! lists the directory or probes the path that the walker asks for, and the
//! walker decides what comes next.

use vstd::prelude::*;
use vstd::string::*;
use crate::error::{EngineError, EngineErrorView};
use crate::listing::{child_of, child_path, read_dir, sort_names};
use crate::runner::{MANIFEST_FILE, TESTS_DIR};

verus! {

/// The directory that holds the corpus.
pub const CORPUS_ROOT: &'static str = "repos";

/// Where a walk stands.
#[derive(Clone, Copy, Debug, PartialEq, Eq, Structural)]
pub enum WalkPhase {
    /// Nothing has been asked for yet.
    Idle,
    /// The root is being listed.
    ListingRoot,
    /// A publisher's directory is being listed.
    ListingAuthor,
    /// A package's directory is being listed.
    ListingPackage,
    /// A version directory is being probed for a manifest and for tests.
    Probing,
    /// A target is being handed to the workers.
    Sending,
    /// The walk is over: everything was visited, or a shutdown was requested.
    Finished,
    /// The walk was given up.
    Failed,
}

/// What the caller reports to the walker.
#[derive(Debug)]
pub enum WalkEvent {
    /// The walk may begin.
    Begin,
    /// The paths of the entries of the directory that was to be listed, in
    /// any order.
    Listing(Vec<String>),
    /// Whether the first path that was to be probed is a directory, and
    /// whether the second is a file.
    Probed { tests: bool, manifest: bool },
    /// The target was handed over.
    Sent,
    /// What was asked for could not be done, with the error of the
    /// operation.
    Failed(std::io::Error),
}

/// The mathematical content of a [`WalkEvent`].
pub enum WalkEventView {
    Begin,
    Listing(Seq<Seq<char>>),
    Probed { tests: bool, manifest: bool },
    Sent,
    Failed(std::io::Error),
}

impl View for WalkEvent {
    type V = WalkEventView;

    open spec fn view(&self) -> WalkEventView {
        match *self {
            WalkEvent::Begin => WalkEventView::Begin,
            WalkEvent::Listing(entries) => WalkEventView::Listing(entries.deep_view()),
            WalkEvent::Probed { tests, manifest } => WalkEventView::Probed { tests, manifest },
            WalkEvent::Sent => WalkEventView::Sent,
            WalkEvent::Failed(error) => WalkEventView::Failed(error),
        }
    }
}

/// What the walker asks the caller to do next.
#[derive(Debug)]
pub enum WalkAction {
    /// List this directory and report the paths of its entries.
    ReadDir(String),
    /// Say whether `tests` is a directory and whether `manifest` is a file:
    /// the test directory and the manifest of a version directory.
    Probe { tests: String, manifest: String },
    /// Hand this target to the workers.
    Send(String),
    /// The walk is over; close the queue.
    Finish,
    /// The walk is given up with this error.
    Fail(EngineError),
}

/// The mathematical content of a [`WalkAction`].
pub enum WalkActionView {
    ReadDir(Seq<char>),
    Probe { tests: Seq<char>, manifest: Seq<char> },
    Send(Seq<char>),
    Finish,
    Fail(EngineErrorView),
}

impl View for WalkAction {
    type V = WalkActionView;

    open spec fn view(&self) -> WalkActionView {
        match *self {
            WalkAction::ReadDir(path) => WalkActionView::ReadDir(path@),
            WalkAction::Probe { tests, manifest } => WalkActionView::Probe {
                tests: tests@,
                manifest: manifest@,
            },
            WalkAction::Send(path) => WalkActionView::Send(path@),
            WalkAction::Finish => WalkActionView::Finish,
            WalkAction::Fail(error) => WalkActionView::Fail(error@),
        }
    }
}

/// The mathematical content of a [`Walker`].
pub struct WalkState {
    pub phase: WalkPhase,
    /// The root of the corpus.
    pub root: Seq<char>,
    /// The publishers still to be visited, in order.
    pub authors: Seq<Seq<char>>,
    /// The packages of the current publisher still to be visited, in order.
    pub packages: Seq<Seq<char>>,
    /// The versions of the current package still to be visited, in order.
    pub versions: Seq<Seq<char>>,
    /// The version directory that is being probed or sent.
    pub current: Seq<char>,
}

/// A walk over the corpus.
#[derive(Debug)]
pub struct Walker {
    phase: WalkPhase,
    root: String,
    authors: Vec<String>,
    packages: Vec<String>,
    versions: Vec<String>,
    current: String,
}

/// The message of the error that ends a walk on an event that its phase
/// does not expect.
pub const UNEXPECTED_REPORT: &'static str = "unexpected event";

impl WalkState {
    /// A walk over the corpus at `root` that has not begun.
    pub open spec fn initial(root: Seq<char>) -> WalkState {
        WalkState {
            phase: WalkPhase::Idle,
            root,
            authors: Seq::empty(),
            packages: Seq::empty(),
            versions: Seq::empty(),
            current: Seq::empty(),
        }
    }

    /// This state in another phase.
    pub open spec fn at(self, phase: WalkPhase) -> WalkState {
        WalkState { phase, ..self }
    }

    /// Moves on to what is next in the order of the walk: the next version
    /// of the current package, else the next package of the current
    /// publisher, else the next publisher, else the end.
    pub open spec fn advance(self) -> (WalkState, WalkActionView) {
        if self.versions.len() > 0 {
            (
                WalkState {
                    phase: WalkPhase::Probing,
                    current: self.versions[0],
                    versions: self.versions.drop_first(),
                    ..self
                },
                WalkActionView::Probe {
                    tests: child_of(self.versions[0], TESTS_DIR@),
                    manifest: child_of(self.versions[0], MANIFEST_FILE@),
                },
            )
        } else if self.packages.len() > 0 {
            (
                WalkState {
                    phase: WalkPhase::ListingPackage,
                    packages: self.packages.drop_first(),
                    ..self
                },
                WalkActionView::ReadDir(self.packages[0]),
            )
        } else if self.authors.len() > 0 {
            (
                WalkState {
                    phase: WalkPhase::ListingAuthor,
                    authors: self.authors.drop_first(),
                    ..self
                },
                WalkActionView::ReadDir(self.authors[0]),
            )
        } else {
            (self.at(WalkPhase::Finished), WalkActionView::Finish)
        }
    }

    /// The state and the action that follow from an event, given the
    /// shutdown flag as it was read just before.
    ///
    /// A reported failure ends the walk with an I/O error. Otherwise a
    /// requested shutdown ends it without error. Otherwise the entries of a
    /// listed directory are sorted and visited in order, and a probed
    /// version directory is sent on if and only if it holds both a test
    /// directory and a manifest.
    pub open spec fn step(self, stopping: bool, event: WalkEventView) -> (
        WalkState,
        WalkActionView,
    ) {
        if let WalkEventView::Failed(error) = event {
            (self.at(WalkPhase::Failed), WalkActionView::Fail(EngineErrorView::IO(error)))
        } else if stopping {
            (self.at(WalkPhase::Finished), WalkActionView::Finish)
        } else {
            match (self.phase, event) {
                (WalkPhase::Idle, WalkEventView::Begin) => (
                    self.at(WalkPhase::ListingRoot),
                    WalkActionView::ReadDir(self.root),
                ),
                (WalkPhase::ListingRoot, WalkEventView::Listing(entries)) => WalkState {
                    authors: sort_names(entries),
                    ..self
                }.advance(),
                (WalkPhase::ListingAuthor, WalkEventView::Listing(entries)) => WalkState {
                    packages: sort_names(entries),
                    ..self
                }.advance(),
                (WalkPhase::ListingPackage, WalkEventView::Listing(entries)) => WalkState {
                    versions: sort_names(entries),
                    ..self
                }.advance(),
                (WalkPhase::Probing, WalkEventView::Probed { tests, manifest }) => {
                    if tests && manifest {
                        (self.at(WalkPhase::Sending), WalkActionView::Send(self.current))
                    } else {
                        self.advance()
                    }
                },
                (WalkPhase::Sending, WalkEventView::Sent) => self.advance(),
                _ => (
                    self.at(WalkPhase::Failed),
                    WalkActionView::Fail(EngineErrorView::Other(UNEXPECTED_REPORT@)),
                ),
            }
        }
    }
}

impl View for Walker {
    type V = WalkState;

    closed spec fn view(&self) -> WalkState {
        WalkState {
            phase: self.phase,
            root: self.root@,
            authors: self.authors.deep_view(),
            packages: self.packages.deep_view(),
            versions: self.versions.deep_view(),
            current: self.current@,
        }
    }
}

fn take_first(names: &mut Vec<String>) -> (first: String)
    requires
        old(names).len() > 0,
    ensures
        first@ == old(names).deep_view()[0],
        final(names).deep_view() == old(names).deep_view().drop_first(),
{
    let first = names.remove(0);
    assert(names.deep_view() =~= old(names).deep_view().drop_first());
    first
}

impl Walker {
    /// A walk over the corpus at `root` that has not begun.
    pub fn new(root: String) -> (walker: Walker)
        ensures
            walker@ == WalkState::initial(root@),
    {
        let walker = Walker {
            phase: WalkPhase::Idle,
            root,
            authors: Vec::new(),
            packages: Vec::new(),
            versions: Vec::new(),
            current: String::new(),
        };
        assert(walker.authors.deep_view() =~= Seq::<Seq<char>>::empty());
        assert(walker.packages.deep_view() =~= Seq::<Seq<char>>::empty());
        assert(walker.versions.deep_view() =~= Seq::<Seq<char>>::empty());
        walker
    }

    /// Where the walk stands.
    pub fn phase(&self) -> (phase: WalkPhase)
        ensures
            phase == self@.phase,
    {
        self.phase
    }

    fn end(self, phase: WalkPhase, action: WalkAction) -> (next: (Walker, WalkAction))
        ensures
            next.0@ == self@.at(phase),
            next.1 == action,
    {
        let mut walker = self;
        walker.phase = phase;
        (walker, action)
    }

    fn advance(self) -> (next: (Walker, WalkAction))
        ensures
            (next.0@, next.1@) == self@.advance(),
    {
        let mut walker = self;
        if walker.versions.len() > 0 {
            let version = take_first(&mut walker.versions);
            let tests = child_path(version.as_str(), TESTS_DIR);
            let manifest = child_path(version.as_str(), MANIFEST_FILE);
            walker.current = version;
            walker.phase = WalkPhase::Probing;
            (walker, WalkAction::Probe { tests, manifest })
        } else if walker.packages.len() > 0 {
            let package = take_first(&mut walker.packages);
            walker.phase = WalkPhase::ListingPackage;
            (walker, WalkAction::ReadDir(package))
        } else if walker.authors.len() > 0 {
            let author = take_first(&mut walker.authors);
            walker.phase = WalkPhase::ListingAuthor;
            (walker, WalkAction::ReadDir(author))
        } else {
            walker.phase = WalkPhase::Finished;
            (walker, WalkAction::Finish)
        }
    }
}

/// Advances the walk by one step: takes what the caller reports and the
/// shutdown flag as it stands, and says what to do next.
///
/// A walk begins with [`WalkEvent::Begin`] on a new [`Walker`] and ends with
/// [`WalkAction::Finish`] or [`WalkAction::Fail`].
pub fn walk_path(walker: Walker, stopping: bool, event: WalkEvent) -> (next: (Walker, WalkAction))
    ensures
        (next.0@, next.1@) == walker@.step(stopping, event@),
{
    let phase = walker.phase;
    match event {
        WalkEvent::Failed(error) => walker.end(
            WalkPhase::Failed,
            WalkAction::Fail(EngineError::IO(error)),
        ),
        event => {
            if stopping {
                return walker.end(WalkPhase::Finished, WalkAction::Finish);
            }
            match event {
                WalkEvent::Begin => match phase {
                    WalkPhase::Idle => {
                        let root = walker.root.clone();
                        walker.end(WalkPhase::ListingRoot, WalkAction::ReadDir(root))
                    },
                    _ => walker.end(WalkPhase::Failed, WalkAction::Fail(unexpected())),
                },
                WalkEvent::Listing(entries) => {
                    let mut walker = walker;
                    match phase {
                        WalkPhase::ListingRoot => {
                            walker.authors = read_dir(entries);
                            walker.advance()
                        },
                        WalkPhase::ListingAuthor => {
                            walker.packages = read_dir(entries);
                            walker.advance()
                        },
                        WalkPhase::ListingPackage => {
                            walker.versions = read_dir(entries);
                            walker.advance()
                        },
                        _ => walker.end(WalkPhase::Failed, WalkAction::Fail(unexpected())),
                    }
                },
                WalkEvent::Probed { tests, manifest } => match phase {
                    WalkPhase::Probing => {
                        if tests && manifest {
                            let target = walker.current.clone();
                            walker.end(WalkPhase::Sending, WalkAction::Send(target))
                        } else {
                            walker.advance()
                        }
                    },
                    _ => walker.end(WalkPhase::Failed, WalkAction::Fail(unexpected())),
                },
                WalkEvent::Sent => match phase {
                    WalkPhase::Sending => walker.advance(),
                    _ => walker.end(WalkPhase::Failed, WalkAction::Fail(unexpected())),
                },
                WalkEvent::Failed(error) => walker.end(
                    WalkPhase::Failed,
                    WalkAction::Fail(EngineError::IO(error)),
                ),
            }
        },
    }
}

fn unexpected() -> (error: EngineError)
    ensures
        error@ == EngineErrorView::Other(UNEXPECTED_REPORT@),
{
    EngineError::Other(String::from_str(UNEXPECTED_REPORT))
}

/// A directory tree, as far as the walk looks at it.
pub struct Corpus {
    /// The paths of the entries of a directory, in the order in which they
    /// happen to be listed.
    pub listing: spec_fn(Seq<char>) -> Seq<Seq<char>>,
    /// Whether a path is a directory.
    pub is_dir: spec_fn(Seq<char>) -> bool,
    /// Whether a path is a file.
    pub is_file: spec_fn(Seq<char>) -> bool,
}

impl Corpus {
    /// Whether a version directory is a target: it holds both a test
    /// directory and a manifest file.
    pub open spec fn qualifies(self, version: Seq<char>) -> bool {
        (self.is_dir)(child_of(version, TESTS_DIR@)) && (self.is_file)(
            child_of(version, MANIFEST_FILE@),
        )
    }

    /// What the caller reports when it has done what `action` asks for on
    /// this tree.
    pub open spec fn answer(self, action: WalkActionView) -> WalkEventView {
        match action {
            WalkActionView::ReadDir(dir) => WalkEventView::Listing((self.listing)(dir)),
            WalkActionView::Probe { tests, manifest } => WalkEventView::Probed {
                tests: (self.is_dir)(tests),
                manifest: (self.is_file)(manifest),
            },
            _ => WalkEventView::Sent,
        }
    }

    /// The targets among these version directories, in order.
    pub open spec fn targets_among(self, versions: Seq<Seq<char>>) -> Seq<Seq<char>>
        decreases versions.len(),
    {
        if versions.len() == 0 {
            Seq::empty()
        } else if self.qualifies(versions[0]) {
            seq![versions[0]] + self.targets_among(versions.drop_first())
        } else {
            self.targets_among(versions.drop_first())
        }
    }

    /// The targets in these package directories, package by package, the
    /// versions of each package in ascending order.
    pub open spec fn targets_in_packages(self, packages: Seq<Seq<char>>) -> Seq<Seq<char>>
        decreases packages.len(),
    {
        if packages.len() == 0 {
            Seq::empty()
        } else {
            self.targets_among(sort_names((self.listing)(packages[0])))
                + self.targets_in_packages(packages.drop_first())
        }
    }

    /// The targets in these publisher directories, publisher by publisher,
    /// the packages of each publisher in ascending order.
    pub open spec fn targets_in_authors(self, authors: Seq<Seq<char>>) -> Seq<Seq<char>>
        decreases authors.len(),
    {
        if authors.len() == 0 {
            Seq::empty()
        } else {
            self.targets_in_packages(sort_names((self.listing)(authors[0])))
                + self.targets_in_authors(authors.drop_first())
        }
    }

    /// All targets of the corpus at `root`, in the order of the walk.
    pub open spec fn targets(self, root: Seq<char>) -> Seq<Seq<char>> {
        self.targets_in_authors(sort_names((self.listing)(root)))
    }

    /// Whether the directories form a tree: no directory lists an entry
    /// twice, and no path is an entry of two directories.
    pub open spec fn is_tree(self) -> bool {
        &&& forall|dir: Seq<char>| (#[trigger] (self.listing)(dir)).no_duplicates()
        &&& forall|a: Seq<char>, b: Seq<char>, path: Seq<char>|
            (#[trigger] (self.listing)(a).contains(path)) && (#[trigger] (self.listing)(
                b,
            ).contains(path)) ==> a == b
    }

    /// Whether `version` is a version directory of the corpus at `root`: an
    /// entry of an entry of an entry of the root.
    pub open spec fn is_version_dir(self, root: Seq<char>, version: Seq<char>) -> bool {
        exists|author: Seq<char>, package: Seq<char>|
            (self.listing)(root).contains(author) && (#[trigger] (self.listing)(author).contains(
                package,
            )) && (#[trigger] (self.listing)(package).contains(version))
    }

    /// The targets that a walk sends from the point at which it has asked
    /// for `action` in `state`, if it is never asked to shut down and every
    /// request is answered from this tree.
    pub open spec fn sent_after(self, state: WalkState, action: WalkActionView) -> Seq<Seq<char>>
        decreases
            (if state.phase == WalkPhase::ListingRoot { 1nat } else { 0nat }),
            state.authors.len(),
            (if state.phase == WalkPhase::ListingAuthor { 1nat } else { 0nat }),
            state.packages.len(),
            (if state.phase == WalkPhase::ListingPackage { 1nat } else { 0nat }),
            state.versions.len(),
            (if state.phase == WalkPhase::Probing {
                2nat
            } else if state.phase == WalkPhase::Sending {
                1nat
            } else {
                0nat
            }),
    {
        let (next, then) = state.step(false, self.answer(action));
        match action {
            WalkActionView::ReadDir(dir) => {
                if state.phase == WalkPhase::ListingRoot || state.phase == WalkPhase::ListingAuthor
                    || state.phase == WalkPhase::ListingPackage {
                    self.sent_after(next, then)
                } else {
                    Seq::empty()
                }
            },
            WalkActionView::Probe { .. } => {
                if state.phase == WalkPhase::Probing {
                    self.sent_after(next, then)
                } else {
                    Seq::empty()
                }
            },
            WalkActionView::Send(dir) => {
                if state.phase == WalkPhase::Sending {
                    seq![dir] + self.sent_after(next, then)
                } else {
                    Seq::empty()
                }
            },
            _ => Seq::empty(),
        }
    }

    /// The targets that a whole walk over the corpus at `root` sends, in the
    /// order in which it sends them.
    pub open spec fn sent(self, root: Seq<char>) -> Seq<Seq<char>> {
        let (next, then) = WalkState::initial(root).step(false, WalkEventView::Begin);
        self.sent_after(next, then)
    }
}

proof fn lemma_sent_after_advance(corpus: Corpus, state: WalkState)
    ensures
        corpus.sent_after(state.advance().0, state.advance().1) == corpus.targets_among(
            state.versions,
        ) + corpus.targets_in_packages(state.packages) + corpus.targets_in_authors(state.authors),
    decreases state.authors.len(), state.packages.len(), state.versions.len(),
{
    let (next, action) = state.advance();
    let rest = corpus.targets_in_packages(state.packages) + corpus.targets_in_authors(
        state.authors,
    );
    if state.versions.len() > 0 {
        let version = state.versions[0];
        let (after, then) = next.step(false, corpus.answer(action));
        assert(corpus.sent_after(next, action) == corpus.sent_after(after, then));
        if corpus.qualifies(version) {
            lemma_sent_after_advance(corpus, after);
            assert(after.advance() == after.step(false, corpus.answer(then)));
            assert(corpus.sent_after(after, then) == seq![version] + corpus.sent_after(
                after.advance().0,
                after.advance().1,
            ));
            assert(seq![version] + (corpus.targets_among(state.versions.drop_first())
                + corpus.targets_in_packages(state.packages) + corpus.targets_in_authors(
                state.authors,
            )) =~= corpus.targets_among(state.versions) + corpus.targets_in_packages(
                state.packages,
            ) + corpus.targets_in_authors(state.authors));
        } else {
            lemma_sent_after_advance(corpus, next);
        }
    } else if state.packages.len() > 0 {
        let listed = WalkState { versions: sort_names((corpus.listing)(state.packages[0])), ..next };
        assert(next.step(false, corpus.answer(action)) == listed.advance());
        lemma_sent_after_advance(corpus, listed);
        assert(corpus.targets_among(state.versions) =~= Seq::<Seq<char>>::empty());
        assert(corpus.targets_among(listed.versions) + corpus.targets_in_packages(
            listed.packages,
        ) + corpus.targets_in_authors(listed.authors) =~= corpus.targets_among(state.versions)
            + corpus.targets_in_packages(state.packages) + corpus.targets_in_authors(
            state.authors,
        ));
    } else if state.authors.len() > 0 {
        let listed = WalkState { packages: sort_names((corpus.listing)(state.authors[0])), ..next };
        assert(next.step(false, corpus.answer(action)) == listed.advance());
        lemma_sent_after_advance(corpus, listed);
        assert(corpus.targets_among(state.versions) =~= Seq::<Seq<char>>::empty());
        assert(corpus.targets_in_packages(state.packages) =~= Seq::<Seq<char>>::empty());
        assert(corpus.targets_among(listed.versions) + corpus.targets_in_packages(
            listed.packages,
        ) + corpus.targets_in_authors(listed.authors) =~= corpus.targets_among(state.versions)
            + corpus.targets_in_packages(state.packages) + corpus.targets_in_authors(
            state.authors,
        ));
    } else {
        assert(corpus.targets_among(state.versions) + corpus.targets_in_packages(state.packages)
            + corpus.targets_in_authors(state.authors) =~= Seq::<Seq<char>>::empty());
    }
}

/// A walk that is not interrupted sends the targets of the corpus, each
/// directory's entries in ascending order, and nothing else.
pub proof fn lemma_walk_sends_the_targets(corpus: Corpus, root: Seq<char>)
    ensures
        corpus.sent(root) == corpus.targets(root),
{
    let start = WalkState::initial(root);
    let (listing, first) = start.step(false, WalkEventView::Begin);
    let listed = WalkState { authors: sort_names((corpus.listing)(root)), ..listing };
    assert(listing.step(false, corpus.answer(first)) == listed.advance());
    assert(corpus.sent_after(listing, first) == corpus.sent_after(
        listed.advance().0,
        listed.advance().1,
    ));
    lemma_sent_after_advance(corpus, listed);
    assert(corpus.targets_among(listed.versions) =~= Seq::<Seq<char>>::empty());
    assert(corpus.targets_in_packages(listed.packages) =~= Seq::<Seq<char>>::empty());
    assert(Seq::<Seq<char>>::empty() + Seq::<Seq<char>>::empty() + corpus.targets_in_authors(
        listed.authors,
    ) =~= corpus.targets_in_authors(listed.authors));
}

proof fn lemma_targets_among_contains(corpus: Corpus, versions: Seq<Seq<char>>, path: Seq<char>)
    ensures
        corpus.targets_among(versions).contains(path) <==> versions.contains(path)
            && corpus.qualifies(path),
    decreases versions.len(),
{
    let found = corpus.targets_among(versions);
    if versions.len() > 0 {
        let rest = corpus.targets_among(versions.drop_first());
        lemma_targets_among_contains(corpus, versions.drop_first(), path);
        lemma_contains_in_parts(seq![versions[0]], rest, path);
        lemma_contains_in_parts(seq![versions[0]], versions.drop_first(), path);
        assert(seq![versions[0]] + versions.drop_first() =~= versions);
        lemma_contains_single(versions[0], path);
    }
}

proof fn lemma_contains_single(only: Seq<char>, path: Seq<char>)
    ensures
        seq![only].contains(path) <==> only == path,
{
    if only == path {
        assert(seq![only][0] == path);
    }
}

proof fn lemma_contains_in_parts(a: Seq<Seq<char>>, b: Seq<Seq<char>>, path: Seq<char>)
    ensures
        (a + b).contains(path) <==> a.contains(path) || b.contains(path),
{
    if a.contains(path) {
        let i = choose|i: int| 0 <= i < a.len() && a[i] == path;
        assert((a + b)[i] == path);
    }
    if b.contains(path) {
        let i = choose|i: int| 0 <= i < b.len() && b[i] == path;
        assert((a + b)[a.len() + i] == path);
    }
    if (a + b).contains(path) {
        let i = choose|i: int| 0 <= i < (a + b).len() && (a + b)[i] == path;
        if i < a.len() {
            assert(a[i] == path);
        } else {
            assert(b[i - a.len()] == path);
        }
    }
}

proof fn lemma_targets_in_packages_contains(
    corpus: Corpus,
    packages: Seq<Seq<char>>,
    path: Seq<char>,
)
    ensures
        corpus.targets_in_packages(packages).contains(path) <==> corpus.qualifies(path) && exists|
            package: Seq<char>,
        |
            packages.contains(package) && #[trigger] (corpus.listing)(package).contains(path),
    decreases packages.len(),
{
    let holds = |package: Seq<char>|
        packages.contains(package) && (corpus.listing)(package).contains(path);
    if packages.len() > 0 {
        let first = packages[0];
        let tail = packages.drop_first();
        let here = corpus.targets_among(sort_names((corpus.listing)(first)));
        lemma_targets_in_packages_contains(corpus, tail, path);
        lemma_contains_in_parts(here, corpus.targets_in_packages(tail), path);
        lemma_targets_among_contains(corpus, sort_names((corpus.listing)(first)), path);
        crate::listing::lemma_sort_names_is_permutation((corpus.listing)(first));
        assert(packages.contains(first)) by {
            assert(packages[0] == first);
        }
        assert forall|package: Seq<char>| tail.contains(package) implies packages.contains(
            package,
        ) by {
            let i = choose|i: int| 0 <= i < tail.len() && tail[i] == package;
            assert(packages[i + 1] == package);
        }
        assert forall|package: Seq<char>| packages.contains(package) implies package == first
            || tail.contains(package) by {
            let i = choose|i: int| 0 <= i < packages.len() && packages[i] == package;
            if i > 0 {
                assert(tail[i - 1] == package);
            }
        }
        if corpus.targets_in_packages(packages).contains(path) {
            if here.contains(path) {
                assert((corpus.listing)(first).contains(path));
            } else {
                let package = choose|package: Seq<char>|
                    tail.contains(package) && #[trigger] (corpus.listing)(package).contains(path);
                assert(packages.contains(package));
            }
        }
        if corpus.qualifies(path) && exists|package: Seq<char>|
            packages.contains(package) && #[trigger] (corpus.listing)(package).contains(path) {
            let package = choose|package: Seq<char>|
                packages.contains(package) && #[trigger] (corpus.listing)(package).contains(path);
            if package == first {
                assert(here.contains(path));
            } else {
                assert(tail.contains(package));
            }
        }
    } else {
        assert(!corpus.targets_in_packages(packages).contains(path));
    }
}

proof fn lemma_targets_in_authors_contains(
    corpus: Corpus,
    authors: Seq<Seq<char>>,
    path: Seq<char>,
)
    ensures
        corpus.targets_in_authors(authors).contains(path) <==> corpus.qualifies(path) && exists|
            author: Seq<char>,
            package: Seq<char>,
        |
            authors.contains(author) && (#[trigger] (corpus.listing)(author).contains(package))
                && (#[trigger] (corpus.listing)(package).contains(path)),
    decreases authors.len(),
{
    if authors.len() > 0 {
        let first = authors[0];
        let tail = authors.drop_first();
        let sorted = sort_names((corpus.listing)(first));
        let here = corpus.targets_in_packages(sorted);
        lemma_targets_in_authors_contains(corpus, tail, path);
        lemma_contains_in_parts(here, corpus.targets_in_authors(tail), path);
        lemma_targets_in_packages_contains(corpus, sorted, path);
        crate::listing::lemma_sort_names_is_permutation((corpus.listing)(first));
        assert(authors.contains(first)) by {
            assert(authors[0] == first);
        }
        assert forall|author: Seq<char>| tail.contains(author) implies authors.contains(author) by {
            let i = choose|i: int| 0 <= i < tail.len() && tail[i] == author;
            assert(authors[i + 1] == author);
        }
        assert forall|author: Seq<char>| authors.contains(author) implies author == first
            || tail.contains(author) by {
            let i = choose|i: int| 0 <= i < authors.len() && authors[i] == author;
            if i > 0 {
                assert(tail[i - 1] == author);
            }
        }
        if corpus.targets_in_authors(authors).contains(path) {
            if here.contains(path) {
                let package = choose|package: Seq<char>|
                    sorted.contains(package) && #[trigger] (corpus.listing)(package).contains(path);
                assert((corpus.listing)(first).contains(package));
            } else {
                let (author, package) = choose|author: Seq<char>, package: Seq<char>|
                    tail.contains(author) && (#[trigger] (corpus.listing)(author).contains(package))
                        && (#[trigger] (corpus.listing)(package).contains(path));
                assert(authors.contains(author));
            }
        }
        if corpus.qualifies(path) && exists|author: Seq<char>, package: Seq<char>|
            authors.contains(author) && (#[trigger] (corpus.listing)(author).contains(package))
                && (#[trigger] (corpus.listing)(package).contains(path)) {
            let (author, package) = choose|author: Seq<char>, package: Seq<char>|
                authors.contains(author) && (#[trigger] (corpus.listing)(author).contains(package))
                    && (#[trigger] (corpus.listing)(package).contains(path));
            if author == first {
                assert(sorted.contains(package));
                assert(here.contains(path));
            } else {
                assert(tail.contains(author));
            }
        }
    } else {
        assert(!corpus.targets_in_authors(authors).contains(path));
    }
}

/// Discovery is exact: an uninterrupted walk sends a path if and only if it
/// is a version directory of the corpus that holds both a manifest and a
/// test directory, in whatever order the directories are listed.
pub proof fn lemma_walk_finds_exactly_the_targets(corpus: Corpus, root: Seq<char>, path: Seq<char>)
    ensures
        corpus.sent(root).contains(path) <==> corpus.is_version_dir(root, path) && corpus.qualifies(
            path,
        ),
{
    lemma_walk_sends_the_targets(corpus, root);
    let authors = sort_names((corpus.listing)(root));
    lemma_targets_in_authors_contains(corpus, authors, path);
    crate::listing::lemma_sort_names_is_permutation((corpus.listing)(root));
    if corpus.sent(root).contains(path) {
        let (author, package) = choose|author: Seq<char>, package: Seq<char>|
            authors.contains(author) && (#[trigger] (corpus.listing)(author).contains(package))
                && (#[trigger] (corpus.listing)(package).contains(path));
        assert((corpus.listing)(root).contains(author));
    }
    if corpus.is_version_dir(root, path) && corpus.qualifies(path) {
        let (author, package) = choose|author: Seq<char>, package: Seq<char>|
            (corpus.listing)(root).contains(author) && (#[trigger] (corpus.listing)(
                author,
            ).contains(package)) && (#[trigger] (corpus.listing)(package).contains(path));
        assert(authors.contains(author));
    }
}

proof fn lemma_apart_in_parts(a: Seq<Seq<char>>, b: Seq<Seq<char>>)
    requires
        a.no_duplicates(),
        b.no_duplicates(),
        forall|path: Seq<char>| !(a.contains(path) && b.contains(path)),
    ensures
        (a + b).no_duplicates(),
{
    assert forall|i: int, j: int| 0 <= i < a.len() && 0 <= j < b.len() implies a[i] != b[j] by {
        assert(a.contains(a[i]));
        assert(b.contains(b[j]));
    }
    vstd::seq_lib::lemma_no_dup_in_concat(a, b);
}

proof fn lemma_tail_stays_apart(names: Seq<Seq<char>>)
    requires
        names.no_duplicates(),
        names.len() > 0,
    ensures
        names.drop_first().no_duplicates(),
        !names.drop_first().contains(names[0]),
{
    let tail = names.drop_first();
    assert forall|i: int, j: int| 0 <= i < tail.len() && 0 <= j < tail.len() && i != j implies tail[i]
        != tail[j] by {
        assert(tail[i] == names[i + 1] && tail[j] == names[j + 1]);
    }
    if tail.contains(names[0]) {
        let i = choose|i: int| 0 <= i < tail.len() && tail[i] == names[0];
        assert(names[i + 1] == names[0]);
    }
}

proof fn lemma_targets_among_are_apart(corpus: Corpus, versions: Seq<Seq<char>>)
    requires
        versions.no_duplicates(),
    ensures
        corpus.targets_among(versions).no_duplicates(),
    decreases versions.len(),
{
    if versions.len() > 0 {
        let tail = versions.drop_first();
        lemma_tail_stays_apart(versions);
        lemma_targets_among_are_apart(corpus, tail);
        if corpus.qualifies(versions[0]) {
            let first = seq![versions[0]];
            let rest = corpus.targets_among(tail);
            assert forall|path: Seq<char>| !(first.contains(path) && rest.contains(path)) by {
                lemma_contains_single(versions[0], path);
                lemma_targets_among_contains(corpus, tail, path);
            }
            lemma_apart_in_parts(first, rest);
        }
    }
}

proof fn lemma_targets_in_packages_are_apart(corpus: Corpus, packages: Seq<Seq<char>>)
    requires
        corpus.is_tree(),
        packages.no_duplicates(),
    ensures
        corpus.targets_in_packages(packages).no_duplicates(),
    decreases packages.len(),
{
    if packages.len() > 0 {
        let first = packages[0];
        let tail = packages.drop_first();
        let sorted = sort_names((corpus.listing)(first));
        let here = corpus.targets_among(sorted);
        let rest = corpus.targets_in_packages(tail);
        lemma_tail_stays_apart(packages);
        lemma_targets_in_packages_are_apart(corpus, tail);
        assert((corpus.listing)(first).no_duplicates());
        crate::listing::lemma_sort_names_keeps_names_apart((corpus.listing)(first));
        crate::listing::lemma_sort_names_is_permutation((corpus.listing)(first));
        lemma_targets_among_are_apart(corpus, sorted);
        assert forall|path: Seq<char>| !(here.contains(path) && rest.contains(path)) by {
            lemma_targets_among_contains(corpus, sorted, path);
            lemma_targets_in_packages_contains(corpus, tail, path);
            if here.contains(path) && rest.contains(path) {
                let other = choose|package: Seq<char>|
                    tail.contains(package) && #[trigger] (corpus.listing)(package).contains(path);
                assert((corpus.listing)(first).contains(path));
                assert(other == first);
            }
        }
        lemma_apart_in_parts(here, rest);
    }
}

proof fn lemma_targets_in_authors_are_apart(corpus: Corpus, authors: Seq<Seq<char>>)
    requires
        corpus.is_tree(),
        authors.no_duplicates(),
    ensures
        corpus.targets_in_authors(authors).no_duplicates(),
    decreases authors.len(),
{
    if authors.len() > 0 {
        let first = authors[0];
        let tail = authors.drop_first();
        let sorted = sort_names((corpus.listing)(first));
        let here = corpus.targets_in_packages(sorted);
        let rest = corpus.targets_in_authors(tail);
        lemma_tail_stays_apart(authors);
        lemma_targets_in_authors_are_apart(corpus, tail);
        assert((corpus.listing)(first).no_duplicates());
        crate::listing::lemma_sort_names_keeps_names_apart((corpus.listing)(first));
        crate::listing::lemma_sort_names_is_permutation((corpus.listing)(first));
        lemma_targets_in_packages_are_apart(corpus, sorted);
        assert forall|path: Seq<char>| !(here.contains(path) && rest.contains(path)) by {
            lemma_targets_in_packages_contains(corpus, sorted, path);
            lemma_targets_in_authors_contains(corpus, tail, path);
            if here.contains(path) && rest.contains(path) {
                let mine = choose|package: Seq<char>|
                    sorted.contains(package) && #[trigger] (corpus.listing)(package).contains(path);
                let (author, theirs) = choose|author: Seq<char>, package: Seq<char>|
                    tail.contains(author) && (#[trigger] (corpus.listing)(author).contains(package))
                        && (#[trigger] (corpus.listing)(package).contains(path));
                assert(mine == theirs);
                assert((corpus.listing)(first).contains(mine));
                assert(author == first);
            }
        }
        lemma_apart_in_parts(here, rest);
    }
}

/// Every target is discovered once: where the directories form a tree, an
/// uninterrupted walk sends no path twice.
pub proof fn lemma_walk_sends_no_target_twice(corpus: Corpus, root: Seq<char>)
    requires
        corpus.is_tree(),
    ensures
        corpus.sent(root).no_duplicates(),
{
    lemma_walk_sends_the_targets(corpus, root);
    assert((corpus.listing)(root).no_duplicates());
    crate::listing::lemma_sort_names_keeps_names_apart((corpus.listing)(root));
    lemma_targets_in_authors_are_apart(corpus, sort_names((corpus.listing)(root)));
}

/// Whether two trees hold the same: every directory has the same entries,
/// listed in whatever order, and the same paths are directories and files.
pub open spec fn same_tree(a: Corpus, b: Corpus) -> bool {
    &&& forall|dir: Seq<char>| #[trigger]
        (a.listing)(dir).to_multiset() == (b.listing)(dir).to_multiset()
    &&& forall|path: Seq<char>| #[trigger] (a.is_dir)(path) == (b.is_dir)(path)
    &&& forall|path: Seq<char>| #[trigger] (a.is_file)(path) == (b.is_file)(path)
}

proof fn lemma_same_targets_among(a: Corpus, b: Corpus, versions: Seq<Seq<char>>)
    requires
        same_tree(a, b),
    ensures
        a.targets_among(versions) == b.targets_among(versions),
    decreases versions.len(),
{
    if versions.len() > 0 {
        lemma_same_targets_among(a, b, versions.drop_first());
        assert((a.is_dir)(child_of(versions[0], TESTS_DIR@)) == (b.is_dir)(
            child_of(versions[0], TESTS_DIR@),
        ));
        assert((a.is_file)(child_of(versions[0], MANIFEST_FILE@)) == (b.is_file)(
            child_of(versions[0], MANIFEST_FILE@),
        ));
    }
}

proof fn lemma_same_targets_in_packages(a: Corpus, b: Corpus, packages: Seq<Seq<char>>)
    requires
        same_tree(a, b),
    ensures
        a.targets_in_packages(packages) == b.targets_in_packages(packages),
    decreases packages.len(),
{
    if packages.len() > 0 {
        lemma_same_targets_in_packages(a, b, packages.drop_first());
        assert((a.listing)(packages[0]).to_multiset() == (b.listing)(packages[0]).to_multiset());
        crate::listing::lemma_sort_names_is_canonical(
            (a.listing)(packages[0]),
            (b.listing)(packages[0]),
        );
        lemma_same_targets_among(a, b, sort_names((a.listing)(packages[0])));
    }
}

proof fn lemma_same_targets_in_authors(a: Corpus, b: Corpus, authors: Seq<Seq<char>>)
    requires
        same_tree(a, b),
    ensures
        a.targets_in_authors(authors) == b.targets_in_authors(authors),
    decreases authors.len(),
{
    if authors.len() > 0 {
        lemma_same_targets_in_authors(a, b, authors.drop_first());
        assert((a.listing)(authors[0]).to_multiset() == (b.listing)(authors[0]).to_multiset());
        crate::listing::lemma_sort_names_is_canonical(
            (a.listing)(authors[0]),
            (b.listing)(authors[0]),
        );
        lemma_same_targets_in_packages(a, b, sort_names((a.listing)(authors[0])));
    }
}

/// Discovery is deterministic: two uninterrupted walks over the same tree
/// send the same targets in the same order, in whatever order the
/// directories happen to be listed.
pub proof fn lemma_walk_is_deterministic(a: Corpus, b: Corpus, root: Seq<char>)
    requires
        same_tree(a, b),
    ensures
        a.sent(root) == b.sent(root),
{
    lemma_walk_sends_the_targets(a, root);
    lemma_walk_sends_the_targets(b, root);
    assert((a.listing)(root).to_multiset() == (b.listing)(root).to_multiset());
    crate::listing::lemma_sort_names_is_canonical((a.listing)(root), (b.listing)(root));
    lemma_same_targets_in_authors(a, b, sort_names((a.listing)(root)));
}

/// A requested shutdown ends the walk at its next step, whatever it was
/// doing: without error, or, if that very step reports a failure, with that
/// failure.
pub proof fn lemma_walk_stops_on_shutdown(state: WalkState, event: WalkEventView)
    ensures
        state.step(true, event) == match event {
            WalkEventView::Failed(error) => (
                state.at(WalkPhase::Failed),
                WalkActionView::Fail(EngineErrorView::IO(error)),
            ),
            _ => (state.at(WalkPhase::Finished), WalkActionView::Finish),
        },
{
}

} // verus!
