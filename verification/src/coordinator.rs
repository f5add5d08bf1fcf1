//! The top level: in which order the parts of the engine are waited for at
//! shutdown, and how the program ends.

use vstd::prelude::*;
use crate::engine::{EngineState, WorkerActionView};
use crate::error::EngineError;
use crate::ui::{failure_of, ui_step, UiActionView, UiPhase, UiReportView};
use crate::walker::{WalkActionView, WalkEventView, WalkPhase, WalkState};

verus! {

/// Printed before the walker is waited for.
pub const WAITING_FOR_WALKER: &'static str = "Waiting for directory walker to exit.";

/// Printed before the workers are waited for.
pub const WAITING_FOR_WORKERS: &'static str = "Waiting for testers to exit.";

/// A part of the engine that runs on its own.
#[derive(Clone, Copy, Debug, PartialEq, Eq, Structural)]
pub enum Component {
    /// The live view.
    Dashboard,
    /// The walker.
    Walker,
    /// The worker with this number.
    Worker(u16),
}

/// The order in which the parts are waited for once the shutdown flag is
/// set: the live view first, so that the terminal is restored before
/// anything is printed, then the walker, so that the queue is known to be
/// closed, then the workers by number.
pub open spec fn shutdown_order(workers: u16) -> Seq<Component> {
    Seq::new(
        workers as nat + 2,
        |i: int|
            if i == 0 {
                Component::Dashboard
            } else if i == 1 {
                Component::Walker
            } else {
                Component::Worker((i - 2) as u16)
            },
    )
}

/// Whether the result at position `i` is an error and none before it is.
pub open spec fn is_first_failure(results: Seq<Result<(), EngineError>>, i: int) -> bool {
    &&& 0 <= i < results.len()
    &&& results[i] is Err
    &&& forall|j: int| 0 <= j < i ==> (#[trigger] results[j]) is Ok
}

/// The order in which the parts of the engine are waited for at shutdown.
pub fn join_order(workers: u16) -> (order: Vec<Component>)
    ensures
        order@ == shutdown_order(workers),
{
    let mut order: Vec<Component> = Vec::new();
    order.push(Component::Dashboard);
    order.push(Component::Walker);
    let mut i: u16 = 0;
    while i < workers
        invariant
            i <= workers,
            order@.len() == i + 2,
            forall|k: int| 0 <= k < order@.len() ==> order@[k] == shutdown_order(workers)[k],
        decreases workers - i,
    {
        order.push(Component::Worker(i));
        i = i + 1;
    }
    assert(order@ =~= shutdown_order(workers));
    order
}

/// The result of the whole program from the results of its parts, given in
/// the order in which the parts were waited for: the first error, or
/// success if there is none.
pub fn overall(results: Vec<Result<(), EngineError>>) -> (outcome: Result<(), EngineError>)
    ensures
        outcome is Ok <==> forall|i: int| 0 <= i < results.len() ==> (#[trigger] results[i]) is Ok,
        outcome matches Err(e) ==> exists|i: int|
            is_first_failure(results@, i) && results[i] == Err::<(), EngineError>(e),
{
    let mut i: usize = 0;
    while i < results.len()
        invariant
            i <= results.len(),
            forall|j: int| 0 <= j < i ==> (#[trigger] results[j]) is Ok,
        decreases results.len() - i,
    {
        if results[i].is_err() {
            let mut rest = results;
            let failed = rest.remove(i);
            assert(is_first_failure(results@, i as int) && results[i as int] == failed);
            return failed;
        }
        i = i + 1;
    }
    Ok(())
}

/// The exit status of the program: zero after a normal quit, one after any
/// fatal error.
pub fn exit_code(outcome: &Result<(), EngineError>) -> (code: u8)
    ensures
        code == 0 <==> outcome is Ok,
        code == 0 || code == 1,
{
    match outcome {
        Ok(()) => 0,
        Err(_) => 1,
    }
}

/// Shutdown reaches every part: once the flag is set, the walker finishes
/// at its next step, the live view leaves its loop at its next step, and a
/// worker that asks for work is told to leave, whatever each of them was
/// doing. None of them is given anything more to do, and targets that are
/// still queued stay queued. A step of the walker or the live view that
/// reports that something could not be done ends that part with the error
/// for it instead.
pub proof fn lemma_shutdown_reaches_every_part(
    walk: WalkState,
    walk_event: WalkEventView,
    ui_phase: UiPhase,
    ui_report: UiReportView,
    engine: EngineState,
    now: u64,
)
    requires
        engine.stopping,
    ensures
        walk.step(true, walk_event).0.phase == WalkPhase::Finished || walk.step(
            true,
            walk_event,
        ).0.phase == WalkPhase::Failed,
        !(walk_event is Failed) ==> walk.step(true, walk_event).1 == WalkActionView::Finish,
        walk_event is Failed ==> walk.step(true, walk_event).1 is Fail,
        ui_step(ui_phase, true, ui_report).0 == UiPhase::Closed,
        failure_of(ui_report) is None ==> ui_step(ui_phase, true, ui_report).1
            == UiActionView::Exit,
        failure_of(ui_report) is Some ==> ui_step(ui_phase, true, ui_report).1 is Fail,
        engine.poll_reply(now) == WorkerActionView::Exit,
        engine.poll(now) == engine,
{
}

} // verus!
