//! The errors that end a run.

use vstd::prelude::*;
use vstd::std_specs::convert::FromSpecImpl;
use vstd::string::*;

verus! {

/// The error type of file, process and terminal operations. Nothing is
/// known of its contents.
#[verifier::external_type_specification]
#[verifier::external_body]
pub struct ExIoError(std::io::Error);

/// The error type of the error reporter. Nothing is known of its contents.
#[verifier::external_type_specification]
#[verifier::external_body]
pub struct ExReport(color_eyre::Report);

/// A fatal error. Every one of them stops the whole engine.
#[derive(Debug)]
pub enum EngineError {
    /// A file, process or terminal operation failed.
    IO(std::io::Error),
    /// This target could not be handed to the workers.
    SendPath(String),
    /// The error reporter could not be installed.
    ColorEyre(color_eyre::Report),
    /// The export could not be encoded.
    CSV(csv::Error),
    /// Anything else.
    Other(String),
}

/// The mathematical content of an [`EngineError`].
pub enum EngineErrorView {
    IO(std::io::Error),
    SendPath(Seq<char>),
    ColorEyre(color_eyre::Report),
    CSV(csv::Error),
    Other(Seq<char>),
}

impl View for EngineError {
    type V = EngineErrorView;

    open spec fn view(&self) -> EngineErrorView {
        match *self {
            EngineError::IO(inner) => EngineErrorView::IO(inner),
            EngineError::SendPath(text) => EngineErrorView::SendPath(text@),
            EngineError::ColorEyre(report) => EngineErrorView::ColorEyre(report),
            EngineError::CSV(inner) => EngineErrorView::CSV(inner),
            EngineError::Other(text) => EngineErrorView::Other(text@),
        }
    }
}

impl From<String> for EngineError {
    fn from(text: String) -> (e: EngineError) {
        EngineError::Other(text)
    }
}

impl FromSpecImpl<String> for EngineError {
    open spec fn obeys_from_spec() -> bool {
        true
    }

    open spec fn from_spec(text: String) -> EngineError {
        EngineError::Other(text)
    }
}

impl EngineError {
    /// An error of the last kind with this message.
    pub fn other(text: &str) -> (e: EngineError)
        ensures
            e@ == EngineErrorView::Other(text@),
    {
        EngineError::Other(String::from_str(text))
    }
}

impl From<std::io::Error> for EngineError {
    fn from(inner: std::io::Error) -> (e: EngineError) {
        EngineError::IO(inner)
    }
}

impl FromSpecImpl<std::io::Error> for EngineError {
    open spec fn obeys_from_spec() -> bool {
        true
    }

    open spec fn from_spec(inner: std::io::Error) -> EngineError {
        EngineError::IO(inner)
    }
}

impl From<color_eyre::Report> for EngineError {
    fn from(report: color_eyre::Report) -> (e: EngineError) {
        EngineError::ColorEyre(report)
    }
}

impl FromSpecImpl<color_eyre::Report> for EngineError {
    open spec fn obeys_from_spec() -> bool {
        true
    }

    open spec fn from_spec(report: color_eyre::Report) -> EngineError {
        EngineError::ColorEyre(report)
    }
}

impl From<csv::Error> for EngineError {
    fn from(inner: csv::Error) -> (e: EngineError) {
        EngineError::CSV(inner)
    }
}

impl FromSpecImpl<csv::Error> for EngineError {
    open spec fn obeys_from_spec() -> bool {
        true
    }

    open spec fn from_spec(inner: csv::Error) -> EngineError {
        EngineError::CSV(inner)
    }
}

} // verus!
