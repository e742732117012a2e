//! The pipeline's error taxonomy.
//!
//! Every stage-level failure is one of these kinds; the orchestration maps
//! the kind-independent description into the failed job's status text.

use vstd::prelude::*;

verus! {

/// A stage-level pipeline error.
#[derive(Debug)]
pub enum PipelineError {
    /// The request named a channel the source registry does not know.
    Configuration(String),
    /// A network or file operation failed during fetch or upload.
    TransientIo(String),
    /// An external process could not be spawned or exited non-zero.
    Process(String),
    /// A job could not be located in the queue during advance.
    QueueInvariant(String),
    /// The storage collaborator failed to persist a row.
    Persistence(String),
}

/// The status text an error is reported under: a kind prefix followed by
/// the error's own message.
pub open spec fn error_text(e: PipelineError) -> Seq<char> {
    match e {
        PipelineError::Configuration(m) => "configuration error: "@ + m@,
        PipelineError::TransientIo(m) => "transient i/o error: "@ + m@,
        PipelineError::Process(m) => "process error: "@ + m@,
        PipelineError::QueueInvariant(m) => "queue invariant error: "@ + m@,
        PipelineError::Persistence(m) => "persistence error: "@ + m@,
    }
}

impl PipelineError {
    /// The human-readable description reported in the job's status text.
    pub fn describe(&self) -> (text: String)
        ensures
            text@ == error_text(*self),
    {
        match self {
            PipelineError::Configuration(m) => "configuration error: ".to_owned().concat(
                m.as_str(),
            ),
            PipelineError::TransientIo(m) => "transient i/o error: ".to_owned().concat(m.as_str()),
            PipelineError::Process(m) => "process error: ".to_owned().concat(m.as_str()),
            PipelineError::QueueInvariant(m) => "queue invariant error: ".to_owned().concat(
                m.as_str(),
            ),
            PipelineError::Persistence(m) => "persistence error: ".to_owned().concat(m.as_str()),
        }
    }
}

} // verus!
