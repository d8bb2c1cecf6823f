//! A crash-resumable guild message extractor, modelled as a verified state
//! machine.
//!
//! The library holds the traversal-and-checkpoint engine: the progress
//! record that survives restarts, the work-list discipline, the streamed
//! array framing of each channel's output, and the orchestrator that
//! decides, step by step, what outside work to perform next.  All file and
//! network effects are delegated to the caller through explicit actions.

use vstd::prelude::*;

pub mod engine;
pub mod framing;
pub mod ident;
pub mod progress;
pub mod work;

verus! {

/// Fatal startup conditions: the run must abort before any work begins.
#[derive(Clone, Copy, PartialEq, Eq, Structural, Debug)]
pub enum FatalError {
    /// A checkpoint was loaded whose guild differs from the one requested.
    GuildMismatch,
}

/// Closed taxonomy of outside-failure kinds, so that callers can tell
/// retryable failures from fatal ones without inspecting message text.
#[derive(Clone, Copy, PartialEq, Eq, Structural, Debug)]
pub enum ErrorKind {
    Transport,
    Authorization,
    RateLimit,
    FileConflict,
    Serialization,
}

} // verus!
