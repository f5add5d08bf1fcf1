//! What the live view shows, as plain text and numbers: the summary, the
//! table of running targets and the ranked table of completed targets.
//!
//! Nothing here draws. The caller turns the rows into widgets.

use vstd::prelude::*;
use vstd::string::*;
use crate::outcome::{Done, DoneView, ElmTestVersion, Running, RunResults};
use crate::ranking::{display_order, done_list};
use crate::text::{decimal, decimal_string, pad_left, pad_left_string};

verus! {

/// The number of columns of the table of completed targets.
pub const DONE_COLUMNS: usize = 8;

/// The title of the summary.
pub const SUMMARY_TITLE: &'static str = " Summary ";

/// The title of the table of running targets.
pub const IN_PROGRESS_TITLE: &'static str = " In progress ";

/// The title of the table of completed targets.
pub const DONE_TITLE: &'static str = " Done ";

/// The number of lines of the summary, border included.
pub const SUMMARY_HEIGHT: u16 = 6;

/// The width of every column but the first, which takes what is left.
pub const COLUMN_WIDTH: u16 = 10;

/// The time between two instants, or nothing if the clock ran backwards.
pub open spec fn elapsed_between(start: nat, now: nat) -> nat {
    if now >= start {
        (now - start) as nat
    } else {
        0
    }
}

/// A duration in whole seconds followed by `s`.
pub open spec fn seconds_text(ms: nat) -> Seq<char> {
    decimal(ms / 1000) + seq!['s']
}

/// A duration in whole seconds, right-aligned in nine characters, followed
/// by `s`.
pub open spec fn aligned_seconds_text(ms: nat) -> Seq<char> {
    pad_left(decimal(ms / 1000), 9) + seq!['s']
}

/// The cells of the row for a running target: its path and the time it has
/// been running.
pub open spec fn running_cells(path: Seq<char>, start: nat, now: nat) -> Seq<Seq<char>> {
    seq![path, aligned_seconds_text(elapsed_between(start, now))]
}

/// The cells of the row for a completed target: path, framework version,
/// one outcome per variant (empty where the variant is not run), time.
pub open spec fn done_cells(done: DoneView) -> Seq<Seq<char>> {
    match done.results {
        RunResults::V1 { elm_result, lamdera_stable_no_wire_result, lamdera_stable_result } => seq![
            done.path,
            ElmTestVersion::V1.digit(),
            elm_result.glyph(),
            lamdera_stable_no_wire_result.glyph(),
            lamdera_stable_result.glyph(),
            Seq::<char>::empty(),
            Seq::<char>::empty(),
            seconds_text(done.time),
        ],
        RunResults::V2 {
            elm_result,
            lamdera_stable_no_wire_result,
            lamdera_stable_result,
            lamdera_next_no_wire_result,
            lamdera_next_result,
        } => seq![
            done.path,
            ElmTestVersion::V2.digit(),
            elm_result.glyph(),
            lamdera_stable_no_wire_result.glyph(),
            lamdera_stable_result.glyph(),
            lamdera_next_no_wire_result.glyph(),
            lamdera_next_result.glyph(),
            seconds_text(done.time),
        ],
    }
}

/// The titles of the columns of the table of completed targets.
pub open spec fn done_titles() -> Seq<Seq<char>> {
    seq![
        "Package"@,
        "elm-test"@,
        "Elm"@,
        "\u{39b}"@,
        "\u{39b} \u{26a1}"@,
        "\u{39b} Next"@,
        "\u{39b} Next \u{26a1}"@,
        "Time"@,
    ]
}

/// The height of the table of running targets: one line per target and two
/// for the border; no lines at all when nothing is running. The height is
/// capped at the largest value that the terminal's coordinates can hold.
pub open spec fn table_height(running: nat) -> nat {
    if running == 0 {
        0
    } else if running + 2 > u16::MAX {
        u16::MAX as nat
    } else {
        running + 2
    }
}

/// The expected time until the end, in seconds: the time spent so far,
/// scaled by the ratio of outstanding to completed targets. This is
/// `elapsed * (1 / ratio - 1)` where `ratio` is the completed share of all
/// targets. There is no estimate while nothing has completed.
pub open spec fn eta_seconds(elapsed_ms: nat, completed: nat, outstanding: nat) -> Option<nat> {
    if completed == 0 {
        None
    } else {
        Some(elapsed_ms * outstanding / (completed * 1000))
    }
}

/// An estimate as minutes and seconds, the seconds right-aligned in two
/// characters; `n/a` where there is none.
pub open spec fn eta_text(eta: Option<nat>) -> Seq<char> {
    match eta {
        None => "n/a"@,
        Some(secs) => decimal(secs / 60) + "m "@ + pad_left(decimal(secs % 60), 2) + seq!['s'],
    }
}

/// The three rows of the summary: label and value.
pub open spec fn summary_rows(pending: nat, in_progress: nat, eta: Option<nat>) -> Seq<
    Seq<Seq<char>>,
> {
    seq![
        seq!["Pending"@, decimal(pending)],
        seq!["In progress"@, decimal(in_progress)],
        seq!["Expected time until end"@, eta_text(eta)],
    ]
}

/// The summary at the top of the live view.
pub struct Summary {
    /// Label and value of each line.
    pub rows: Vec<Vec<String>>,
    /// How many targets are complete.
    pub completed: usize,
    /// How many targets are waiting in the queue.
    pub pending: usize,
    /// How many targets are being run.
    pub in_progress: usize,
    /// The expected time until the end in seconds, if there is an estimate.
    pub eta: Option<u128>,
}

/// Everything that one frame of the live view shows.
pub struct Dashboard {
    pub summary: Summary,
    /// Lines to reserve for the table of running targets.
    pub in_progress_height: u16,
    /// One row per running target.
    pub in_progress: Vec<Vec<String>>,
    /// The column titles of the table of completed targets.
    pub done_header: Vec<String>,
    /// One row per completed target, ranked.
    pub done: Vec<Vec<String>>,
}

/// An estimate as a natural number, if there is one.
pub open spec fn seconds_of(eta: Option<u128>) -> Option<nat> {
    match eta {
        None => None,
        Some(secs) => Some(secs as nat),
    }
}

impl Summary {
    /// The estimate as a natural number, if there is one.
    pub open spec fn eta_nat(&self) -> Option<nat> {
        seconds_of(self.eta)
    }
}

fn seconds_string(ms: u64) -> (text: String)
    ensures
        text@ == seconds_text(ms as nat),
{
    let mut text = decimal_string((ms / 1000) as u128);
    proof {
        reveal_strlit("s");
    }
    text.append("s");
    assert(text@ =~= seconds_text(ms as nat));
    text
}

fn aligned_seconds_string(ms: u64) -> (text: String)
    ensures
        text@ == aligned_seconds_text(ms as nat),
{
    let digits = decimal_string((ms / 1000) as u128);
    let mut text = pad_left_string(digits.as_str(), 9);
    proof {
        reveal_strlit("s");
    }
    text.append("s");
    assert(text@ =~= aligned_seconds_text(ms as nat));
    text
}

/// The row of the table of running targets for one target, at time `now`.
pub fn running_row(running: &Running, now: u64) -> (row: Vec<String>)
    ensures
        row.deep_view() == running_cells(running.path@, running.start as nat, now as nat),
{
    let elapsed = if now >= running.start {
        now - running.start
    } else {
        0
    };
    let mut row: Vec<String> = Vec::new();
    row.push(running.path.clone());
    row.push(aligned_seconds_string(elapsed));
    assert(row.deep_view() =~= running_cells(running.path@, running.start as nat, now as nat));
    row
}

/// The row of the table of completed targets for one target.
pub fn done_row(done: &Done) -> (row: Vec<String>)
    ensures
        row.deep_view() == done_cells(done@),
{
    let mut row: Vec<String> = Vec::new();
    row.push(done.path.clone());
    match done.results {
        RunResults::V1 { elm_result, lamdera_stable_no_wire_result, lamdera_stable_result } => {
            row.push(ElmTestVersion::V1.to_string());
            row.push(elm_result.to_string());
            row.push(lamdera_stable_no_wire_result.to_string());
            row.push(lamdera_stable_result.to_string());
            row.push(String::new());
            row.push(String::new());
        },
        RunResults::V2 {
            elm_result,
            lamdera_stable_no_wire_result,
            lamdera_stable_result,
            lamdera_next_no_wire_result,
            lamdera_next_result,
        } => {
            row.push(ElmTestVersion::V2.to_string());
            row.push(elm_result.to_string());
            row.push(lamdera_stable_no_wire_result.to_string());
            row.push(lamdera_stable_result.to_string());
            row.push(lamdera_next_no_wire_result.to_string());
            row.push(lamdera_next_result.to_string());
        },
    }
    row.push(seconds_string(done.time));
    assert(row.deep_view() =~= done_cells(done@));
    row
}

/// The column titles of the table of completed targets.
pub fn done_header() -> (titles: Vec<String>)
    ensures
        titles.deep_view() == done_titles(),
{
    let mut titles: Vec<String> = Vec::new();
    titles.push(String::from_str("Package"));
    titles.push(String::from_str("elm-test"));
    titles.push(String::from_str("Elm"));
    titles.push(String::from_str("\u{39b}"));
    titles.push(String::from_str("\u{39b} \u{26a1}"));
    titles.push(String::from_str("\u{39b} Next"));
    titles.push(String::from_str("\u{39b} Next \u{26a1}"));
    titles.push(String::from_str("Time"));
    assert(titles.deep_view() =~= done_titles());
    titles
}

/// How many lines the table of running targets needs.
pub fn in_progress_height(running: usize) -> (lines: u16)
    ensures
        lines == table_height(running as nat),
{
    if running == 0 {
        0
    } else if running >= 0xfffe {
        u16::MAX
    } else {
        (running + 2) as u16
    }
}

/// Estimates the time until the end from the time spent so far and the
/// numbers of completed and outstanding targets.
pub fn estimate(elapsed_ms: u64, completed: usize, pending: usize, in_progress: usize) -> (eta:
    Option<u128>)
    ensures
        seconds_of(eta) == eta_seconds(
            elapsed_ms as nat,
            completed as nat,
            (pending + in_progress) as nat,
        ),
{
    if completed == 0 {
        None
    } else {
        // The product of the time and the number of outstanding targets may
        // not fit in 128 bits, so the two parts are divided one by one.
        let elapsed: u128 = elapsed_ms as u128;
        let divisor: u128 = completed as u128 * 1000;
        assert(elapsed * (pending as u128) <= 0xffff_ffff_ffff_ffff * 0xffff_ffff_ffff_ffff)
            by (nonlinear_arith)
            requires
                elapsed <= 0xffff_ffff_ffff_ffff,
                pending <= 0xffff_ffff_ffff_ffff,
        ;
        assert(elapsed * (in_progress as u128) <= 0xffff_ffff_ffff_ffff * 0xffff_ffff_ffff_ffff)
            by (nonlinear_arith)
            requires
                elapsed <= 0xffff_ffff_ffff_ffff,
                in_progress <= 0xffff_ffff_ffff_ffff,
        ;
        let waiting: u128 = elapsed * (pending as u128);
        let running: u128 = elapsed * (in_progress as u128);
        proof {
            lemma_split_division(waiting as int, running as int, divisor as int);
            vstd::arithmetic::div_mod::lemma_div_is_ordered_by_denominator(
                waiting as int,
                1000,
                divisor as int,
            );
            vstd::arithmetic::div_mod::lemma_div_is_ordered_by_denominator(
                running as int,
                1000,
                divisor as int,
            );
            assert(elapsed * (pending + in_progress) == waiting + running) by (nonlinear_arith)
                requires
                    waiting == elapsed * (pending as u128),
                    running == elapsed * (in_progress as u128),
            ;
        }
        Some(waiting / divisor + running / divisor + (waiting % divisor + running % divisor) / divisor)
    }
}

/// Dividing a sum is dividing its parts and what is left of them.
proof fn lemma_split_division(x: int, y: int, d: int)
    requires
        0 <= x,
        0 <= y,
        0 < d,
    ensures
        (x + y) / d == x / d + y / d + (x % d + y % d) / d,
{
    vstd::arithmetic::div_mod::lemma_fundamental_div_mod(x, d);
    vstd::arithmetic::div_mod::lemma_fundamental_div_mod(y, d);
    vstd::arithmetic::div_mod::lemma_hoist_over_denominator(x % d + y % d, x / d + y / d, d as nat);
    assert(x + y == x % d + y % d + (x / d + y / d) * d) by (nonlinear_arith)
        requires
            x == d * (x / d) + (x % d),
            y == d * (y / d) + (y % d),
    ;
}

fn eta_string(eta: Option<u128>) -> (text: String)
    ensures
        text@ == eta_text(seconds_of(eta)),
{
    match eta {
        None => String::from_str("n/a"),
        Some(secs) => {
            let mut text = decimal_string(secs / 60);
            text.append("m ");
            let seconds = decimal_string(secs % 60);
            let padded = pad_left_string(seconds.as_str(), 2);
            text.append(padded.as_str());
            proof {
                reveal_strlit("s");
            }
            text.append("s");
            assert(text@ =~= eta_text(Some(secs as nat)));
            text
        },
    }
}

fn labelled(label: &str, value: String) -> (row: Vec<String>)
    ensures
        row.deep_view() == seq![label@, value@],
{
    let mut row: Vec<String> = Vec::new();
    row.push(String::from_str(label));
    row.push(value);
    assert(row.deep_view() =~= seq![label@, value@]);
    row
}

/// Builds the summary: the queue length, the number of running targets and
/// the expected time until the end, after `elapsed_ms` milliseconds.
pub fn render_summary(pending: usize, in_progress: usize, completed: usize, elapsed_ms: u64) -> (summary:
    Summary)
    ensures
        summary.pending == pending,
        summary.in_progress == in_progress,
        summary.completed == completed,
        summary.eta_nat() == eta_seconds(
            elapsed_ms as nat,
            completed as nat,
            (pending + in_progress) as nat,
        ),
        summary.rows.deep_view() == summary_rows(
            pending as nat,
            in_progress as nat,
            summary.eta_nat(),
        ),
{
    let eta = estimate(elapsed_ms, completed, pending, in_progress);
    let mut rows: Vec<Vec<String>> = Vec::new();
    rows.push(labelled("Pending", decimal_string(pending as u128)));
    rows.push(labelled("In progress", decimal_string(in_progress as u128)));
    rows.push(labelled("Expected time until end", eta_string(eta)));
    let summary = Summary { rows, completed, pending, in_progress, eta };
    assert(summary.rows.deep_view() =~= summary_rows(
        pending as nat,
        in_progress as nat,
        summary.eta_nat(),
    ));
    summary
}

/// Builds one frame of the live view from the state of the engine at time
/// `now`: `pending` targets wait in the queue, `in_progress` are being run,
/// `dones` are complete. Times are in milliseconds since the engine started.
pub fn view(pending: usize, in_progress: &Vec<Running>, dones: &Vec<Done>, now: u64) -> (frame:
    Dashboard)
    ensures
        frame.summary.pending == pending,
        frame.summary.in_progress == in_progress.len(),
        frame.summary.completed == dones.len(),
        frame.summary.eta_nat() == eta_seconds(
            now as nat,
            dones.len() as nat,
            (pending + in_progress.len()) as nat,
        ),
        frame.summary.rows.deep_view() == summary_rows(
            pending as nat,
            in_progress.len() as nat,
            frame.summary.eta_nat(),
        ),
        frame.in_progress_height == table_height(in_progress.len() as nat),
        frame.in_progress.deep_view() == Seq::new(
            in_progress.len() as nat,
            |i: int| running_cells(in_progress[i].path@, in_progress[i].start as nat, now as nat),
        ),
        frame.done_header.deep_view() == done_titles(),
        frame.done.deep_view() == Seq::new(
            dones.len() as nat,
            |i: int| done_cells(display_order(dones@)[i]@),
        ),
{
    let summary = render_summary(pending, in_progress.len(), dones.len(), now);
    let mut running_rows: Vec<Vec<String>> = Vec::new();
    let mut i: usize = 0;
    while i < in_progress.len()
        invariant
            i <= in_progress.len(),
            running_rows.len() == i,
            forall|j: int|
                0 <= j < i ==> (#[trigger] running_rows[j]).deep_view() == running_cells(
                    in_progress[j].path@,
                    in_progress[j].start as nat,
                    now as nat,
                ),
        decreases in_progress.len() - i,
    {
        running_rows.push(running_row(&in_progress[i], now));
        i = i + 1;
    }
    let shown = done_list(dones);
    proof {
        crate::ranking::lemma_sorted_is_permutation(dones@.reverse());
    }
    let mut done_rows: Vec<Vec<String>> = Vec::new();
    let mut k: usize = 0;
    while k < shown.len()
        invariant
            k <= shown.len(),
            done_rows.len() == k,
            forall|j: int| 0 <= j < k ==> (#[trigger] done_rows[j]).deep_view() == done_cells(shown[j]@),
        decreases shown.len() - k,
    {
        done_rows.push(done_row(&shown[k]));
        k = k + 1;
    }
    let frame = Dashboard {
        summary,
        in_progress_height: in_progress_height(in_progress.len()),
        in_progress: running_rows,
        done_header: done_header(),
        done: done_rows,
    };
    assert(frame.in_progress.deep_view() =~= Seq::new(
        in_progress.len() as nat,
        |i: int| running_cells(in_progress[i].path@, in_progress[i].start as nat, now as nat),
    ));
    assert(frame.done.deep_view() =~= Seq::new(
        dones.len() as nat,
        |i: int| done_cells(display_order(dones@)[i]@),
    ));
    frame
}

} // verus!
