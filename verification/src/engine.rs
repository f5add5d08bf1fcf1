//! The state that the walker, the workers and the live view share, and the
//! decisions of the worker pool.
//!
//! The engine owns the queue of discovered targets, the set of running
//! targets, the list of completed targets and the shutdown flag. Every
//! method is one short step that the caller performs under its lock; none
//! of them waits.

use vstd::prelude::*;
use vstd::string::*;
use crate::dashboard::{
    done_cells, done_titles, elapsed_between, eta_seconds, running_cells, summary_rows,
    table_height, view, Dashboard,
};
use crate::error::EngineError;
use crate::export::{export, export_rows};
use crate::encoding::csv_bytes;
use crate::outcome::{Done, Running, RunResults};
use crate::ranking::display_order;
use crate::text::same_text;
use crate::ui::{ui_step, ui_thread, UiAction, UiPhase, UiReport};
use crate::walker::{Corpus, WalkAction, WalkEvent};

verus! {

/// The number of workers that run at the same time.
pub const CONCURRENCY: u16 = 10;

/// What a worker does next.
#[derive(Debug)]
pub enum WorkerAction {
    /// Leave: a shutdown was requested, or the queue is empty and closed.
    Exit,
    /// Nothing to do yet: wait a moment and ask again.
    Wait,
    /// Run this target; it was taken off the queue at time `start`.
    Run { path: String, start: u64 },
}

/// What becomes of an action of the walker once the engine has seen it.
#[derive(Debug)]
pub enum Delivery {
    /// The action is for the caller to perform: a directory to list or a
    /// path to probe.
    Perform(WalkAction),
    /// The engine has performed the action; this is what to report to the
    /// walker.
    Report(WalkEvent),
    /// The walk is over, with this result.
    Over(Result<(), EngineError>),
}

/// The mathematical content of a [`WorkerAction`].
pub enum WorkerActionView {
    Exit,
    Wait,
    Run { path: Seq<char>, start: u64 },
}

impl View for WorkerAction {
    type V = WorkerActionView;

    open spec fn view(&self) -> WorkerActionView {
        match *self {
            WorkerAction::Exit => WorkerActionView::Exit,
            WorkerAction::Wait => WorkerActionView::Wait,
            WorkerAction::Run { path, start } => WorkerActionView::Run { path: path@, start },
        }
    }
}

/// The mathematical content of an [`Engine`].
pub struct EngineState {
    /// The targets that wait to be run, the oldest first.
    pub pending: Seq<String>,
    /// Whether the walker has finished, so that nothing more will be queued.
    pub closed: bool,
    /// The targets that are being run.
    pub in_progress: Seq<Running>,
    /// The targets that are complete, in the order in which they completed.
    pub dones: Seq<Done>,
    /// Whether a shutdown was requested.
    pub stopping: bool,
}

/// How often `path` occurs in `paths`.
pub open spec fn count_in(paths: Seq<Seq<char>>, path: Seq<char>) -> nat
    decreases paths.len(),
{
    if paths.len() == 0 {
        0
    } else {
        count_in(paths.drop_last(), path) + if paths.last() == path {
            1nat
        } else {
            0nat
        }
    }
}

/// The test "this entry is for another path than `path`".
pub open spec fn is_other_than(path: Seq<char>) -> spec_fn(Running) -> bool {
    |running: Running| running.path@ != path
}

impl EngineState {
    /// The state at startup: nothing queued, running or complete.
    pub open spec fn initial() -> EngineState {
        EngineState {
            pending: Seq::empty(),
            closed: false,
            in_progress: Seq::empty(),
            dones: Seq::empty(),
            stopping: false,
        }
    }

    /// The paths of the targets that wait in the queue.
    pub open spec fn pending_paths(self) -> Seq<Seq<char>> {
        self.pending.map_values(|path: String| path@)
    }

    /// The paths of the targets that are being run.
    pub open spec fn running_paths(self) -> Seq<Seq<char>> {
        self.in_progress.map_values(|running: Running| running.path@)
    }

    /// The paths of the targets that are complete.
    pub open spec fn done_paths(self) -> Seq<Seq<char>> {
        self.dones.map_values(|done: Done| done.path@)
    }

    /// How often the engine holds `path`: in the queue, as running and as
    /// complete, taken together.
    pub open spec fn occurrences(self, path: Seq<char>) -> nat {
        count_in(self.pending_paths(), path) + count_in(self.running_paths(), path) + count_in(
            self.done_paths(),
            path,
        )
    }

    /// No path is recorded as running twice.
    pub open spec fn wf(self) -> bool {
        forall|path: Seq<char>| count_in(self.running_paths(), path) <= 1
    }

    /// The running targets without the entry for `path`.
    pub open spec fn without(self, path: Seq<char>) -> Seq<Running> {
        self.in_progress.filter(is_other_than(path))
    }

    /// Whether all work is done: nothing more will be queued, and nothing is
    /// queued or running.
    pub open spec fn is_drained(self) -> bool {
        self.closed && self.pending.len() == 0 && self.in_progress.len() == 0
    }

    /// The state after the walker has queued `path`; unchanged if the queue
    /// is closed.
    pub open spec fn send(self, path: String) -> EngineState {
        if self.closed {
            self
        } else {
            EngineState { pending: self.pending.push(path), ..self }
        }
    }

    /// The state after the walker has finished.
    pub open spec fn close(self) -> EngineState {
        EngineState { closed: true, ..self }
    }

    /// The state after a shutdown was requested.
    pub open spec fn request_shutdown(self) -> EngineState {
        EngineState { stopping: true, ..self }
    }

    /// The state after the engine has seen an action of the walker: a target
    /// that is sent is queued; the end of the walk closes the queue; a
    /// failure, of the walk or of queueing, also requests a shutdown.
    pub open spec fn deliver(self, action: WalkAction) -> EngineState {
        match action {
            WalkAction::Send(path) => if self.closed {
                self.request_shutdown()
            } else {
                self.send(path)
            },
            WalkAction::Finish => self.close(),
            WalkAction::Fail(_) => self.close().request_shutdown(),
            _ => self,
        }
    }

    /// The state after a step of the live view that asked for `action`:
    /// when the live view ends, for whatever reason, a shutdown is
    /// requested.
    pub open spec fn watch(self, action: UiAction) -> EngineState {
        match action {
            UiAction::Exit | UiAction::Fail(_) => self.request_shutdown(),
            _ => self,
        }
    }

    /// Whether a worker that asks for work at this point is given a target.
    pub open spec fn dispatches(self) -> bool {
        !self.stopping && self.pending.len() > 0
    }

    /// What a worker that asks for work at time `now` is told: to leave
    /// after a shutdown request; else to run the oldest target in the queue;
    /// else, the queue being empty, to leave if the walker has finished and
    /// to wait if it has not.
    pub open spec fn poll_reply(self, now: u64) -> WorkerActionView {
        if self.stopping {
            WorkerActionView::Exit
        } else if self.pending.len() > 0 {
            WorkerActionView::Run { path: self.pending[0]@, start: now }
        } else if self.closed {
            WorkerActionView::Exit
        } else {
            WorkerActionView::Wait
        }
    }

    /// The state after a worker has asked for work at time `now`: if it is
    /// given a target, the oldest one leaves the queue and is recorded as
    /// running since `now`.
    pub open spec fn poll(self, now: u64) -> EngineState {
        if self.dispatches() {
            EngineState {
                pending: self.pending.drop_first(),
                in_progress: self.without(self.pending[0]@).push(
                    Running { path: self.pending[0], start: now },
                ),
                ..self
            }
        } else {
            self
        }
    }

    /// The state after the run of `path`, begun at `start`, has ended at
    /// `now` with these results: the target is no longer running, and is
    /// complete.
    pub open spec fn finish_ok(
        self,
        path: String,
        start: u64,
        now: u64,
        results: RunResults,
    ) -> EngineState {
        EngineState {
            in_progress: self.without(path@),
            dones: self.dones.push(
                Done { path, time: elapsed_between(start as nat, now as nat) as u64, results },
            ),
            ..self
        }
    }

    /// The state after the run of `path` has failed: the target is no longer
    /// running, and a shutdown is requested.
    pub open spec fn finish_err(self, path: Seq<char>) -> EngineState {
        EngineState { in_progress: self.without(path), stopping: true, ..self }
    }
}

/// The shared state of the engine.
#[derive(Debug)]
pub struct Engine {
    pending: Vec<String>,
    closed: bool,
    in_progress: Vec<Running>,
    dones: Vec<Done>,
    stopping: bool,
}

impl View for Engine {
    type V = EngineState;

    closed spec fn view(&self) -> EngineState {
        EngineState {
            pending: self.pending@,
            closed: self.closed,
            in_progress: self.in_progress@,
            dones: self.dones@,
            stopping: self.stopping,
        }
    }
}

impl Engine {
    /// The engine at startup.
    pub fn new() -> (engine: Engine)
        ensures
            engine@ == EngineState::initial(),
            engine@.wf(),
    {
        Engine {
            pending: Vec::new(),
            closed: false,
            in_progress: Vec::new(),
            dones: Vec::new(),
            stopping: false,
        }
    }

    /// Whether a shutdown was requested.
    pub fn is_stopping(&self) -> (stopping: bool)
        ensures
            stopping == self@.stopping,
    {
        self.stopping
    }

    /// Whether the walker has finished.
    pub fn is_closed(&self) -> (closed: bool)
        ensures
            closed == self@.closed,
    {
        self.closed
    }

    /// Whether all work is done.
    pub fn is_drained(&self) -> (drained: bool)
        ensures
            drained == self@.is_drained(),
    {
        self.closed && self.pending.len() == 0 && self.in_progress.len() == 0
    }

    /// The number of targets that wait in the queue.
    pub fn pending_len(&self) -> (n: usize)
        ensures
            n == self@.pending.len(),
    {
        self.pending.len()
    }

    /// The targets that are being run.
    pub fn in_progress(&self) -> (running: &Vec<Running>)
        ensures
            running@ == self@.in_progress,
    {
        &self.in_progress
    }

    /// The targets that are complete, in the order in which they completed.
    pub fn dones(&self) -> (dones: &Vec<Done>)
        ensures
            dones@ == self@.dones,
    {
        &self.dones
    }

    /// Requests a shutdown. The flag is never cleared again.
    pub fn request_shutdown(&mut self)
        ensures
            final(self)@ == old(self)@.request_shutdown(),
    {
        self.stopping = true;
    }

    /// Closes the queue: the walker has finished.
    pub fn close(&mut self)
        ensures
            final(self)@ == old(self)@.close(),
    {
        self.closed = true;
    }

    /// Queues a target that the walker has found.
    ///
    /// A target cannot be queued once the queue is closed: it is handed back
    /// in the error.
    pub fn send(&mut self, path: String) -> (sent: Result<(), EngineError>)
        ensures
            final(self)@ == old(self)@.send(path),
            sent is Ok <==> !old(self)@.closed,
            sent matches Err(e) ==> e == EngineError::SendPath(path),
    {
        if self.closed {
            Err(EngineError::SendPath(path))
        } else {
            self.pending.push(path);
            Ok(())
        }
    }

    /// Takes an action of the walker and does the engine's part of it.
    ///
    /// A target that the walker sends is queued, and the walker is to be
    /// told so. When the walk finishes, the queue is closed. When it fails,
    /// or a target cannot be queued, the queue is closed as far as it is
    /// not, a shutdown is requested and the error ends the walk. Listing and
    /// probing are left to the caller.
    pub fn deliver(&mut self, action: WalkAction) -> (delivery: Delivery)
        ensures
            final(self)@ == old(self)@.deliver(action),
            match action {
                WalkAction::Send(path) => if old(self)@.closed {
                    delivery == Delivery::Over(
                        Err::<(), EngineError>(EngineError::SendPath(path)),
                    )
                } else {
                    delivery == Delivery::Report(WalkEvent::Sent)
                },
                WalkAction::Finish => delivery == Delivery::Over(Ok::<(), EngineError>(())),
                WalkAction::Fail(error) => delivery == Delivery::Over(
                    Err::<(), EngineError>(error),
                ),
                _ => delivery == Delivery::Perform(action),
            },
    {
        match action {
            WalkAction::Send(path) => match self.send(path) {
                Ok(()) => Delivery::Report(WalkEvent::Sent),
                Err(error) => {
                    self.stopping = true;
                    Delivery::Over(Err(error))
                },
            },
            WalkAction::Finish => {
                self.closed = true;
                Delivery::Over(Ok(()))
            },
            WalkAction::Fail(error) => {
                self.closed = true;
                self.stopping = true;
                Delivery::Over(Err(error))
            },
            other => Delivery::Perform(other),
        }
    }

    /// Advances the loop of the live view by one step, with the shutdown
    /// flag as it stands, and requests a shutdown when the loop ends: the
    /// quit key stops the whole engine, and so does a failure of the live
    /// view.
    pub fn watch(&mut self, phase: UiPhase, report: UiReport) -> (next: (UiPhase, UiAction))
        ensures
            (next.0, next.1@) == ui_step(phase, old(self)@.stopping, report@),
            final(self)@ == old(self)@.watch(next.1),
    {
        let next = ui_thread(phase, self.stopping, report);
        match &next.1 {
            UiAction::Exit => {
                self.stopping = true;
            },
            UiAction::Fail(_) => {
                self.stopping = true;
            },
            _ => {},
        }
        next
    }

    fn remove_running(&mut self, path: &str)
        ensures
            final(self)@ == (EngineState { in_progress: old(self)@.without(path@), ..old(self)@ }),
    {
        let mut kept: Vec<Running> = Vec::new();
        let mut i: usize = 0;
        assert(self.in_progress@.take(0).filter(is_other_than(path@)) =~= Seq::<Running>::empty())
            by {
            reveal(Seq::filter);
        }
        while i < self.in_progress.len()
            invariant
                i <= self.in_progress.len(),
                *self == *old(self),
                kept@ == self.in_progress@.take(i as int).filter(is_other_than(path@)),
            decreases self.in_progress.len() - i,
        {
            proof {
                reveal(Seq::filter);
                assert(self.in_progress@.take(i + 1).drop_last() =~= self.in_progress@.take(
                    i as int,
                ));
                assert(self.in_progress@.take(i + 1).last() == self.in_progress@[i as int]);
            }
            if !same_text(self.in_progress[i].path.as_str(), path) {
                kept.push(self.in_progress[i].clone());
            }
            i = i + 1;
        }
        assert(self.in_progress@.take(self.in_progress.len() as int) =~= self.in_progress@);
        self.in_progress = kept;
    }

    /// The top of the worker loop: decides what a worker does next, at time
    /// `now`.
    ///
    /// After a shutdown request the worker leaves. Otherwise it is given the
    /// oldest target in the queue, which from then on counts as running. If
    /// the queue is empty, the worker leaves if the walker has finished, and
    /// waits if it has not.
    pub fn worker_poll(&mut self, now: u64) -> (action: WorkerAction)
        ensures
            final(self)@ == old(self)@.poll(now),
            action@ == old(self)@.poll_reply(now),
            old(self)@.wf() ==> final(self)@.wf(),
    {
        proof {
            if self@.wf() {
                lemma_step_keeps_wf(self@, Step::Poll(now));
            }
        }
        if self.stopping {
            WorkerAction::Exit
        } else if self.pending.len() > 0 {
            let path = self.pending.remove(0);
            assert(self.pending@ =~= old(self).pending@.drop_first());
            self.remove_running(path.as_str());
            self.in_progress.push(Running { path: path.clone(), start: now });
            WorkerAction::Run { path, start: now }
        } else if self.closed {
            WorkerAction::Exit
        } else {
            WorkerAction::Wait
        }
    }

    /// The end of the worker loop: records how the run of `path`, begun at
    /// `start`, ended at time `now`.
    ///
    /// Whatever the outcome, the target no longer counts as running. With
    /// results it is complete. With an error nothing is recorded as
    /// complete, a shutdown is requested so that everything winds down, and
    /// the error is handed back for the worker to leave with.
    pub fn worker_finish(
        &mut self,
        path: String,
        start: u64,
        now: u64,
        outcome: Result<RunResults, EngineError>,
    ) -> (finished: Result<(), EngineError>)
        ensures
            match outcome {
                Ok(results) => finished is Ok && final(self)@ == old(self)@.finish_ok(
                    path,
                    start,
                    now,
                    results,
                ),
                Err(e) => finished == Err::<(), EngineError>(e) && final(self)@ == old(
                    self,
                )@.finish_err(path@),
            },
            old(self)@.wf() ==> final(self)@.wf(),
    {
        proof {
            if self@.wf() {
                lemma_step_keeps_wf(self@, Step::FinishErr(path@));
            }
        }
        let ghost failed = self@.finish_err(path@);
        self.remove_running(path.as_str());
        assert(self@.running_paths() == failed.running_paths());
        match outcome {
            Ok(results) => {
                let time = if now >= start {
                    now - start
                } else {
                    0
                };
                self.dones.push(Done { path, time, results });
                Ok(())
            },
            Err(e) => {
                self.stopping = true;
                Err(e)
            },
        }
    }

    /// One frame of the live view at time `now`, in milliseconds since the
    /// engine started. The engine is not changed.
    pub fn snapshot(&self, now: u64) -> (frame: Dashboard)
        ensures
            frame.summary.pending == self@.pending.len(),
            frame.summary.in_progress == self@.in_progress.len(),
            frame.summary.completed == self@.dones.len(),
            frame.summary.eta_nat() == eta_seconds(
                now as nat,
                self@.dones.len(),
                self@.pending.len() + self@.in_progress.len(),
            ),
            frame.summary.rows.deep_view() == summary_rows(
                self@.pending.len(),
                self@.in_progress.len(),
                frame.summary.eta_nat(),
            ),
            frame.in_progress_height == table_height(self@.in_progress.len()),
            frame.in_progress.deep_view() == Seq::new(
                self@.in_progress.len(),
                |i: int|
                    running_cells(
                        self@.in_progress[i].path@,
                        self@.in_progress[i].start as nat,
                        now as nat,
                    ),
            ),
            frame.done_header.deep_view() == done_titles(),
            frame.done.deep_view() == Seq::new(
                self@.dones.len(),
                |i: int| done_cells(display_order(self@.dones)[i]@),
            ),
    {
        view(self.pending.len(), &self.in_progress, &self.dones, now)
    }

    /// The export of the completed targets as comma-separated values. It
    /// always succeeds. The engine is not changed.
    pub fn export(&self) -> (encoded: Result<Vec<u8>, EngineError>)
        ensures
            encoded is Ok,
            encoded matches Ok(bytes) ==> bytes@ == csv_bytes(export_rows(self@.dones)),
    {
        export(&self.dones)
    }
}

/// One step that the walker, a worker or the coordinator takes on the
/// engine.
pub enum Step {
    /// The walker queues a target.
    Send(String),
    /// The walker finishes.
    Close,
    /// A worker asks for work at this time.
    Poll(u64),
    /// A worker reports the results of a run.
    FinishOk { path: String, start: u64, now: u64, results: RunResults },
    /// A worker reports that a run failed.
    FinishErr(Seq<char>),
    /// A shutdown is requested.
    Shutdown,
}

impl EngineState {
    /// The state after one step.
    pub open spec fn apply(self, step: Step) -> EngineState {
        match step {
            Step::Send(path) => self.send(path),
            Step::Close => self.close(),
            Step::Poll(now) => self.poll(now),
            Step::FinishOk { path, start, now, results } => self.finish_ok(
                path,
                start,
                now,
                results,
            ),
            Step::FinishErr(path) => self.finish_err(path),
            Step::Shutdown => self.request_shutdown(),
        }
    }

    /// What the walker and the workers keep to: the walker queues no target
    /// that the engine already holds, and a worker reports the end of a run
    /// only for a target that is recorded as running.
    pub open spec fn permits(self, step: Step) -> bool {
        match step {
            Step::Send(path) => self.occurrences(path@) == 0,
            _ => self.permits_worker(step),
        }
    }

    /// What the workers keep to, whatever the walker does: a worker reports
    /// the end of a run only for a target that is recorded as running.
    pub open spec fn permits_worker(self, step: Step) -> bool {
        match step {
            Step::FinishOk { path, .. } => count_in(self.running_paths(), path@) > 0,
            Step::FinishErr(path) => count_in(self.running_paths(), path) > 0,
            _ => true,
        }
    }

    /// Whether the workers keep to their runs at every step of the sequence.
    pub open spec fn permits_workers(self, steps: Seq<Step>) -> bool
        decreases steps.len(),
    {
        steps.len() == 0 || (self.permits_workers(steps.drop_last()) && self.run(
            steps.drop_last(),
        ).permits_worker(steps.last()))
    }

    /// The state after a sequence of steps.
    pub open spec fn run(self, steps: Seq<Step>) -> EngineState
        decreases steps.len(),
    {
        if steps.len() == 0 {
            self
        } else {
            self.run(steps.drop_last()).apply(steps.last())
        }
    }

    /// Whether every step of the sequence is permitted in the state in
    /// which it is taken.
    pub open spec fn permits_all(self, steps: Seq<Step>) -> bool
        decreases steps.len(),
    {
        steps.len() == 0 || (self.permits_all(steps.drop_last()) && self.run(
            steps.drop_last(),
        ).permits(steps.last()))
    }
}

/// The targets that the steps queue, in order: those sent while the queue
/// was open.
pub open spec fn queued_by(state: EngineState, steps: Seq<Step>) -> Seq<Seq<char>>
    decreases steps.len(),
{
    if steps.len() == 0 {
        Seq::empty()
    } else {
        let before = queued_by(state, steps.drop_last());
        match steps.last() {
            Step::Send(path) => if state.run(steps.drop_last()).closed {
                before
            } else {
                before.push(path@)
            },
            _ => before,
        }
    }
}

/// The targets that the walker sends in the course of the steps, in order.
pub open spec fn sends_of(steps: Seq<Step>) -> Seq<Seq<char>>
    decreases steps.len(),
{
    if steps.len() == 0 {
        Seq::empty()
    } else {
        match steps.last() {
            Step::Send(path) => sends_of(steps.drop_last()).push(path@),
            _ => sends_of(steps.drop_last()),
        }
    }
}

/// Whether no run fails in the course of the steps.
pub open spec fn no_run_fails(steps: Seq<Step>) -> bool {
    forall|i: int| 0 <= i < steps.len() ==> !(#[trigger] steps[i] is FinishErr)
}

proof fn lemma_count_without(running: Seq<Running>, removed: Seq<char>, path: Seq<char>)
    ensures
        count_in(running.filter(is_other_than(removed)).map_values(|r: Running| r.path@), path)
            == if path == removed {
            0
        } else {
            count_in(running.map_values(|r: Running| r.path@), path)
        },
    decreases running.len(),
{
    reveal(Seq::filter);
    let paths = |r: Running| r.path@;
    if running.len() > 0 {
        let front = running.drop_last();
        lemma_count_without(front, removed, path);
        assert(running.map_values(paths).drop_last() =~= front.map_values(paths));
        if running.last().path@ != removed {
            let kept = front.filter(is_other_than(removed));
            assert(kept.push(running.last()).map_values(paths).drop_last() =~= kept.map_values(
                paths,
            ));
        }
    }
}

proof fn lemma_count_first(paths: Seq<Seq<char>>, path: Seq<char>)
    requires
        paths.len() > 0,
    ensures
        count_in(paths, path) == count_in(paths.drop_first(), path) + if paths[0] == path {
            1nat
        } else {
            0nat
        },
    decreases paths.len(),
{
    if paths.len() == 1 {
        assert(paths.drop_last() =~= paths.drop_first());
    } else {
        lemma_count_first(paths.drop_last(), path);
        assert(paths.drop_last().drop_first() =~= paths.drop_first().drop_last());
    }
}

/// What one permitted step, other than a failed run, does to the number of
/// times that the engine holds a path: it goes up by one if the step queues
/// that path, and else stays as it is.
proof fn lemma_step_keeps_targets(state: EngineState, step: Step, path: Seq<char>)
    requires
        state.permits(step),
        !(step is FinishErr),
        forall|other: Seq<char>| state.occurrences(other) <= 1,
    ensures
        state.apply(step).occurrences(path) == state.occurrences(path) + if step matches Step::Send(
            sent,
        ) && !state.closed && sent@ == path {
            1nat
        } else {
            0nat
        },
{
    let after = state.apply(step);
    let of_pending = |p: String| p@;
    let of_running = |r: Running| r.path@;
    let of_done = |d: Done| d.path@;
    match step {
        Step::Send(sent) => {
            if !state.closed {
                assert(after.pending_paths().drop_last() =~= state.pending_paths());
            }
        },
        Step::Poll(now) => {
            if state.dispatches() {
                let first = state.pending[0];
                let entry = Running { path: first, start: now };
                lemma_count_first(state.pending_paths(), path);
                assert(state.pending_paths().drop_first() =~= after.pending_paths());
                lemma_count_without(state.in_progress, first@, path);
                lemma_count_first(state.pending_paths(), first@);
                assert(state.occurrences(first@) <= 1);
                assert(after.running_paths().drop_last() =~= state.without(first@).map_values(
                    of_running,
                ));
            }
        },
        Step::FinishOk { path: finished, start, now, results } => {
            lemma_count_without(state.in_progress, finished@, path);
            assert(state.occurrences(finished@) <= 1);
            assert(after.done_paths().drop_last() =~= state.done_paths());
        },
        _ => {},
    }
}

/// The steps keep the record of running targets free of duplicates.
pub proof fn lemma_step_keeps_wf(state: EngineState, step: Step)
    requires
        state.wf(),
    ensures
        state.apply(step).wf(),
{
    let after = state.apply(step);
    let of_running = |r: Running| r.path@;
    assert forall|path: Seq<char>| count_in(after.running_paths(), path) <= 1 by {
        assert(count_in(state.running_paths(), path) <= 1);
        match step {
            Step::Poll(now) => {
                if state.dispatches() {
                    let first = state.pending[0];
                    lemma_count_without(state.in_progress, first@, path);
                    assert(after.running_paths().drop_last() =~= state.without(first@).map_values(
                        of_running,
                    ));
                }
            },
            Step::FinishOk { path: finished, start, now, results } => {
                lemma_count_without(state.in_progress, finished@, path);
            },
            Step::FinishErr(failed) => {
                lemma_count_without(state.in_progress, failed, path);
            },
            _ => {},
        }
    }
}

/// While targets are queued or running, none is lost and none is doubled:
/// at every point of a run in which no run fails, every queued target is in
/// the queue, running or complete, exactly once.
pub proof fn lemma_no_target_is_lost(steps: Seq<Step>, path: Seq<char>)
    requires
        EngineState::initial().permits_all(steps),
        no_run_fails(steps),
    ensures
        EngineState::initial().run(steps).occurrences(path) == count_in(
            queued_by(EngineState::initial(), steps),
            path,
        ),
        EngineState::initial().run(steps).occurrences(path) <= 1,
    decreases steps.len(),
{
    let start = EngineState::initial();
    if steps.len() == 0 {
        assert(start.pending_paths() =~= Seq::<Seq<char>>::empty());
        assert(start.running_paths() =~= Seq::<Seq<char>>::empty());
        assert(start.done_paths() =~= Seq::<Seq<char>>::empty());
    } else {
        let front = steps.drop_last();
        let before = start.run(front);
        assert(no_run_fails(front)) by {
            assert forall|i: int| 0 <= i < front.len() implies !(#[trigger] front[i] is FinishErr) by {
                assert(front[i] == steps[i]);
            }
        }
        assert(!(steps.last() is FinishErr)) by {
            assert(steps[steps.len() - 1] == steps.last());
        }
        assert forall|other: Seq<char>| before.occurrences(other) <= 1 by {
            lemma_no_target_is_lost(front, other);
        }
        lemma_no_target_is_lost(front, path);
        lemma_step_keeps_targets(before, steps.last(), path);
        if let Step::Send(sent) = steps.last() {
            if !before.closed {
                assert(queued_by(start, steps).drop_last() =~= queued_by(start, front));
            }
        }
    }
}

/// Exactly-once dispatch: if the walker queues every target once, the
/// workers report only runs that they were given, and no run fails, then
/// once all work is done every queued target is complete exactly once, and
/// nothing else is. This holds for any number of workers and any
/// interleaving of their steps.
pub proof fn lemma_every_target_completes_once(steps: Seq<Step>, path: Seq<char>)
    requires
        EngineState::initial().permits_all(steps),
        no_run_fails(steps),
        EngineState::initial().run(steps).is_drained(),
    ensures
        count_in(EngineState::initial().run(steps).done_paths(), path) == count_in(
            queued_by(EngineState::initial(), steps),
            path,
        ),
        count_in(EngineState::initial().run(steps).done_paths(), path) <= 1,
{
    let end = EngineState::initial().run(steps);
    lemma_no_target_is_lost(steps, path);
    assert(end.pending_paths() =~= Seq::<Seq<char>>::empty());
    assert(end.running_paths() =~= Seq::<Seq<char>>::empty());
}

proof fn lemma_count_is_membership(paths: Seq<Seq<char>>, path: Seq<char>)
    ensures
        count_in(paths, path) > 0 <==> paths.contains(path),
        paths.no_duplicates() ==> count_in(paths, path) <= 1,
    decreases paths.len(),
{
    if paths.len() > 0 {
        let front = paths.drop_last();
        lemma_count_is_membership(front, path);
        if front.contains(path) {
            let i = choose|i: int| 0 <= i < front.len() && front[i] == path;
            assert(paths[i] == path);
        }
        if paths.last() == path {
            assert(paths[paths.len() - 1] == path);
        }
        if paths.contains(path) {
            let i = choose|i: int| 0 <= i < paths.len() && paths[i] == path;
            if i < front.len() {
                assert(front[i] == path);
            }
        }
        if paths.no_duplicates() {
            assert forall|i: int, j: int|
                0 <= i < front.len() && 0 <= j < front.len() && i != j implies front[i]
                != front[j] by {
                assert(front[i] == paths[i] && front[j] == paths[j]);
            }
            if paths.last() == path && front.contains(path) {
                let i = choose|i: int| 0 <= i < front.len() && front[i] == path;
                assert(paths[i] == paths[paths.len() - 1]);
            }
        }
    }
}

proof fn lemma_queued_were_sent(state: EngineState, steps: Seq<Step>, path: Seq<char>)
    ensures
        count_in(queued_by(state, steps), path) <= count_in(sends_of(steps), path),
    decreases steps.len(),
{
    if steps.len() > 0 {
        let front = steps.drop_last();
        lemma_queued_were_sent(state, front, path);
        if let Step::Send(sent) = steps.last() {
            assert(sends_of(steps).drop_last() =~= sends_of(front));
            if !state.run(front).closed {
                assert(queued_by(state, steps).drop_last() =~= queued_by(state, front));
            }
        }
    }
}

/// The walker keeps to what the engine asks of it by sending every target
/// once: if no path is sent twice, the workers report only runs that they
/// were given, and no run fails, then every step is permitted.
pub proof fn lemma_distinct_targets_are_permitted(steps: Seq<Step>)
    requires
        sends_of(steps).no_duplicates(),
        EngineState::initial().permits_workers(steps),
        no_run_fails(steps),
    ensures
        EngineState::initial().permits_all(steps),
    decreases steps.len(),
{
    let start = EngineState::initial();
    if steps.len() > 0 {
        let front = steps.drop_last();
        let before = start.run(front);
        assert(no_run_fails(front)) by {
            assert forall|i: int| 0 <= i < front.len() implies !(#[trigger] front[i] is FinishErr) by {
                assert(front[i] == steps[i]);
            }
        }
        assert(sends_of(front).no_duplicates()) by {
            let sent = sends_of(steps);
            let earlier = sends_of(front);
            if let Step::Send(path) = steps.last() {
                assert(earlier =~= sent.drop_last());
                assert forall|i: int, j: int|
                    0 <= i < earlier.len() && 0 <= j < earlier.len() && i != j implies earlier[i]
                    != earlier[j] by {
                    assert(earlier[i] == sent[i] && earlier[j] == sent[j]);
                }
            }
        }
        lemma_distinct_targets_are_permitted(front);
        if let Step::Send(path) = steps.last() {
            lemma_no_target_is_lost(front, path@);
            lemma_queued_were_sent(start, front, path@);
            lemma_count_is_membership(sends_of(front), path@);
            if sends_of(front).contains(path@) {
                let sent = sends_of(steps);
                let i = choose|i: int| 0 <= i < sends_of(front).len() && sends_of(front)[i] == path@;
                assert(sent[i] == path@);
                assert(sent[sent.len() - 1] == path@);
            }
        }
    }
}

/// Discovery and dispatch together: where the directories form a tree, the
/// walker has sent what an uninterrupted walk sends, all of it while the
/// queue was open, the workers have reported only runs that they were
/// given, no run has failed and all work is done, there every version
/// directory that holds a manifest and a test directory is complete exactly
/// once, and nothing else is complete.
pub proof fn lemma_every_discovered_target_completes_once(
    corpus: Corpus,
    root: Seq<char>,
    steps: Seq<Step>,
    path: Seq<char>,
)
    requires
        corpus.is_tree(),
        sends_of(steps) == corpus.sent(root),
        queued_by(EngineState::initial(), steps) == sends_of(steps),
        EngineState::initial().permits_workers(steps),
        no_run_fails(steps),
        EngineState::initial().run(steps).is_drained(),
    ensures
        EngineState::initial().permits_all(steps),
        count_in(EngineState::initial().run(steps).done_paths(), path) == if corpus.is_version_dir(
            root,
            path,
        ) && corpus.qualifies(path) {
            1nat
        } else {
            0nat
        },
{
    crate::walker::lemma_walk_sends_no_target_twice(corpus, root);
    crate::walker::lemma_walk_finds_exactly_the_targets(corpus, root, path);
    lemma_distinct_targets_are_permitted(steps);
    lemma_every_target_completes_once(steps, path);
    lemma_count_is_membership(corpus.sent(root), path);
}

/// The list of completed targets only grows, and only at its end: what is
/// complete stays complete, in the same place and unchanged.
pub proof fn lemma_completed_is_append_only(state: EngineState, step: Step)
    ensures
        state.dones.is_prefix_of(state.apply(step).dones),
        state.apply(step).dones.len() <= state.dones.len() + 1,
{
}

/// What the engine does with the actions of the walker and of the live view
/// is made of the steps above, so that what holds of every step holds of
/// these as well.
pub proof fn lemma_deliveries_are_steps(state: EngineState, action: WalkAction, shown: UiAction)
    ensures
        state.deliver(action) == match action {
            WalkAction::Send(path) => if state.closed {
                state.apply(Step::Shutdown)
            } else {
                state.apply(Step::Send(path))
            },
            WalkAction::Finish => state.apply(Step::Close),
            WalkAction::Fail(_) => state.apply(Step::Close).apply(Step::Shutdown),
            _ => state,
        },
        state.watch(shown) == match shown {
            UiAction::Exit | UiAction::Fail(_) => state.apply(Step::Shutdown),
            _ => state,
        },
{
}

/// The shutdown flag only ever goes from unset to set: no step clears it.
pub proof fn lemma_shutdown_is_permanent(state: EngineState, step: Step)
    requires
        state.stopping,
    ensures
        state.apply(step).stopping,
{
}

/// After a shutdown request a worker that asks for work is told to leave,
/// and is given no target: the queue and the record of running targets stay
/// as they are.
pub proof fn lemma_no_dispatch_after_shutdown(state: EngineState, now: u64)
    requires
        state.stopping,
    ensures
        state.poll_reply(now) == WorkerActionView::Exit,
        state.poll(now) == state,
{
}

} // verus!
