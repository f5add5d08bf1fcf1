//! The loop of the live view: draw, wait for input for one frame period,
//! act on the input, and start over, until the user quits or a shutdown is
//! requested.
//!
//! The loop itself lives with the caller, who draws and reads the terminal.
//! Here is what it decides.

use vstd::prelude::*;
use vstd::string::*;
use crate::error::{EngineError, EngineErrorView};

verus! {

/// Frames drawn per second.
pub const FPS: u64 = 20;

/// The key that ends the program.
pub const QUIT_KEY: char = 'q';

/// The key that writes the export.
pub const EXPORT_KEY: char = 'e';

/// The file that the export is written to.
pub const EXPORT_FILE: &'static str = "export.csv";

/// A key of the keyboard.
#[derive(Clone, Copy, Debug, PartialEq, Eq, Structural)]
pub enum Key {
    /// A key that stands for a character.
    Char(char),
    /// Any other key.
    Other,
}

/// Something that happened at the terminal.
#[derive(Clone, Copy, Debug, PartialEq, Eq, Structural)]
pub enum UiEvent {
    Key(Key),
    FocusGained,
    FocusLost,
    Mouse,
    Paste,
    Resize,
}

/// What an event at the terminal asks for.
#[derive(Clone, Copy, Debug, PartialEq, Eq, Structural)]
pub enum Command {
    /// Write the export.
    Export,
    /// End the program.
    Quit,
    /// Nothing.
    Ignore,
}

/// Where the loop stands.
#[derive(Clone, Copy, Debug, PartialEq, Eq, Structural)]
pub enum UiPhase {
    /// The loop has not begun.
    Idle,
    /// The error reporter is being installed and the terminal set up.
    Installing,
    /// A frame is being drawn.
    Drawing,
    /// The terminal is being polled for input.
    Polling,
    /// An event is being read.
    Reading,
    /// The export is being written.
    Exporting,
    /// The loop has ended.
    Closed,
}

/// What the caller reports to the loop.
#[derive(Debug)]
pub enum UiReport {
    /// The loop may begin.
    Begin,
    /// The error reporter is installed and the terminal is set up.
    Installed,
    /// The error reporter could not be installed, with its error.
    NotInstalled(color_eyre::Report),
    /// The frame was drawn.
    Drawn,
    /// The poll ended: with `true` if an event is available, with `false` if
    /// the frame period passed without one. A poll that fails is reported as
    /// a failure.
    Polled(bool),
    /// The event that was read.
    Input(UiEvent),
    /// The export was written.
    Exported,
    /// The export could not be made, with the error that the engine gave.
    Refused(EngineError),
    /// What was asked for could not be done, with the error of the
    /// operation.
    Failed(std::io::Error),
}

/// The mathematical content of a [`UiReport`].
pub enum UiReportView {
    Begin,
    Installed,
    NotInstalled(color_eyre::Report),
    Drawn,
    Polled(bool),
    Input(UiEvent),
    Exported,
    Refused(EngineErrorView),
    Failed(std::io::Error),
}

impl View for UiReport {
    type V = UiReportView;

    open spec fn view(&self) -> UiReportView {
        match *self {
            UiReport::Begin => UiReportView::Begin,
            UiReport::Installed => UiReportView::Installed,
            UiReport::NotInstalled(report) => UiReportView::NotInstalled(report),
            UiReport::Drawn => UiReportView::Drawn,
            UiReport::Polled(available) => UiReportView::Polled(available),
            UiReport::Input(event) => UiReportView::Input(event),
            UiReport::Exported => UiReportView::Exported,
            UiReport::Refused(error) => UiReportView::Refused(error@),
            UiReport::Failed(error) => UiReportView::Failed(error),
        }
    }
}

/// What the loop asks the caller to do next.
#[derive(Debug)]
pub enum UiAction {
    /// Install the error reporter, then take over the terminal.
    Install,
    /// Draw a frame from a snapshot of the engine.
    Draw,
    /// Wait for input, for at most this many milliseconds.
    Poll(u64),
    /// Read the next event.
    Read,
    /// Write the export of the completed targets.
    Export,
    /// Leave the loop and restore the terminal.
    Exit,
    /// Leave the loop, restore the terminal, and report this error.
    Fail(EngineError),
}

/// The mathematical content of a [`UiAction`].
pub enum UiActionView {
    Install,
    Draw,
    Poll(u64),
    Read,
    Export,
    Exit,
    Fail(EngineErrorView),
}

impl View for UiAction {
    type V = UiActionView;

    open spec fn view(&self) -> UiActionView {
        match *self {
            UiAction::Install => UiActionView::Install,
            UiAction::Draw => UiActionView::Draw,
            UiAction::Poll(ms) => UiActionView::Poll(ms),
            UiAction::Read => UiActionView::Read,
            UiAction::Export => UiActionView::Export,
            UiAction::Exit => UiActionView::Exit,
            UiAction::Fail(error) => UiActionView::Fail(error@),
        }
    }
}

/// The message of the error that ends the loop on a report that its phase
/// does not expect.
pub const UNEXPECTED_INPUT: &'static str = "unexpected event";

/// The length of one frame in milliseconds.
pub open spec fn frame_period() -> u64 {
    1000u64 / FPS
}

/// What an event at the terminal asks for: the export key and the quit key
/// have a meaning, everything else is ignored.
pub open spec fn command_of(event: UiEvent) -> Command {
    match event {
        UiEvent::Key(Key::Char(c)) => if c == EXPORT_KEY {
            Command::Export
        } else if c == QUIT_KEY {
            Command::Quit
        } else {
            Command::Ignore
        },
        _ => Command::Ignore,
    }
}

/// The error with which a report ends the loop, if it is one of the three
/// that say that something could not be done.
pub open spec fn failure_of(report: UiReportView) -> Option<EngineErrorView> {
    match report {
        UiReportView::Failed(error) => Some(EngineErrorView::IO(error)),
        UiReportView::NotInstalled(report) => Some(EngineErrorView::ColorEyre(report)),
        UiReportView::Refused(error) => Some(error),
        _ => None,
    }
}

/// The phase and the action that follow from a report, given the shutdown
/// flag as it was read just before.
///
/// A reported failure ends the loop with an error, and so does an export
/// that the engine refused, with the engine's error. Otherwise a requested
/// shutdown ends it. Otherwise the error reporter is installed first, and
/// then each turn of the loop draws a frame and polls for one frame period;
/// if there is input it is read and acted upon. No step waits without a
/// bound: an event is read only after a poll has found one.
pub open spec fn ui_step(phase: UiPhase, stopping: bool, report: UiReportView) -> (
    UiPhase,
    UiActionView,
) {
    if let Some(error) = failure_of(report) {
        (UiPhase::Closed, UiActionView::Fail(error))
    } else if stopping {
        (UiPhase::Closed, UiActionView::Exit)
    } else {
        match (phase, report) {
            (UiPhase::Idle, UiReportView::Begin) => (UiPhase::Installing, UiActionView::Install),
            (UiPhase::Installing, UiReportView::Installed) => (
                UiPhase::Drawing,
                UiActionView::Draw,
            ),
            (UiPhase::Drawing, UiReportView::Drawn) => (
                UiPhase::Polling,
                UiActionView::Poll(frame_period()),
            ),
            (UiPhase::Polling, UiReportView::Polled(false)) => (
                UiPhase::Drawing,
                UiActionView::Draw,
            ),
            (UiPhase::Polling, UiReportView::Polled(true)) => (
                UiPhase::Reading,
                UiActionView::Read,
            ),
            (UiPhase::Reading, UiReportView::Input(event)) => match command_of(event) {
                Command::Export => (UiPhase::Exporting, UiActionView::Export),
                Command::Quit => (UiPhase::Closed, UiActionView::Exit),
                Command::Ignore => (UiPhase::Drawing, UiActionView::Draw),
            },
            (UiPhase::Exporting, UiReportView::Exported) => (UiPhase::Drawing, UiActionView::Draw),
            _ => (
                UiPhase::Closed,
                UiActionView::Fail(EngineErrorView::Other(UNEXPECTED_INPUT@)),
            ),
        }
    }
}

/// How long one frame lasts, in milliseconds.
pub fn frame_period_ms() -> (ms: u64)
    ensures
        ms == frame_period(),
        ms == 50,
{
    1000 / FPS
}

/// Decides what an event at the terminal asks for.
pub fn handle_event(event: UiEvent) -> (command: Command)
    ensures
        command == command_of(event),
{
    match event {
        UiEvent::Key(Key::Char(c)) => {
            if c == EXPORT_KEY {
                Command::Export
            } else if c == QUIT_KEY {
                Command::Quit
            } else {
                Command::Ignore
            }
        },
        _ => Command::Ignore,
    }
}

/// Advances the loop of the live view by one step: takes what the caller
/// reports and the shutdown flag as it stands, and says what to do next.
///
/// The loop begins with [`UiReport::Begin`] in [`UiPhase::Idle`] and ends
/// with [`UiAction::Exit`] or [`UiAction::Fail`]. Whichever it is, the
/// caller restores the terminal if it has taken it over.
pub fn ui_thread(phase: UiPhase, stopping: bool, report: UiReport) -> (next: (UiPhase, UiAction))
    ensures
        (next.0, next.1@) == ui_step(phase, stopping, report@),
{
    match report {
        UiReport::Failed(error) => (UiPhase::Closed, UiAction::Fail(EngineError::IO(error))),
        UiReport::NotInstalled(report) => (
            UiPhase::Closed,
            UiAction::Fail(EngineError::ColorEyre(report)),
        ),
        UiReport::Refused(error) => (UiPhase::Closed, UiAction::Fail(error)),
        report => {
            if stopping {
                return (UiPhase::Closed, UiAction::Exit);
            }
            match (phase, report) {
                (UiPhase::Idle, UiReport::Begin) => (UiPhase::Installing, UiAction::Install),
                (UiPhase::Installing, UiReport::Installed) => (UiPhase::Drawing, UiAction::Draw),
                (UiPhase::Drawing, UiReport::Drawn) => (
                    UiPhase::Polling,
                    UiAction::Poll(frame_period_ms()),
                ),
                (UiPhase::Polling, UiReport::Polled(false)) => (UiPhase::Drawing, UiAction::Draw),
                (UiPhase::Polling, UiReport::Polled(true)) => (UiPhase::Reading, UiAction::Read),
                (UiPhase::Reading, UiReport::Input(event)) => match handle_event(event) {
                    Command::Export => (UiPhase::Exporting, UiAction::Export),
                    Command::Quit => (UiPhase::Closed, UiAction::Exit),
                    Command::Ignore => (UiPhase::Drawing, UiAction::Draw),
                },
                (UiPhase::Exporting, UiReport::Exported) => (UiPhase::Drawing, UiAction::Draw),
                _ => (
                    UiPhase::Closed,
                    UiAction::Fail(EngineError::Other(String::from_str(UNEXPECTED_INPUT))),
                ),
            }
        },
    }
}

/// A requested shutdown ends the loop at its next step, whatever it was
/// doing: without error, or, if that very step reports that something could
/// not be done, with the error for it.
pub proof fn lemma_ui_stops_on_shutdown(phase: UiPhase, report: UiReportView)
    ensures
        ui_step(phase, true, report) == match failure_of(report) {
            Some(error) => (UiPhase::Closed, UiActionView::Fail(error)),
            None => (UiPhase::Closed, UiActionView::Exit),
        },
{
}

} // verus!
