use vstd::prelude::*;
use crate::errors::{AppError, HandlerError};

verus! {

/// Chunks that make a full window.
pub const WINDOW_SIZE: u64 = 200;

/// Chunks that leave the queue with each window.
pub const SLIDE_SIZE: u64 = 100;

/// Capacity of the queue of PCM chunks between the server leg and the aggregator.
pub const PCM_CHANNEL_CAPACITY: u64 = 1000;

/// Capacity of the queue of windows between the aggregator and the analysis stage.
pub const WINDOW_CHANNEL_CAPACITY: u64 = 1000;

/// The four stages of a session.
#[derive(Clone, Copy, Debug, PartialEq, Eq, Structural)]
pub enum Stage {
    ClientToServer,
    ServerToClient,
    PcmProcessing,
    WindowProcessing,
}

/// Tracks a session's stages: the first stage to end, with success or error,
/// ends the session, and its result is the session's outcome.
pub struct Supervisor {
    first: Option<(Stage, Result<(), HandlerError>)>,
}

impl Supervisor {
    /// The stage that ended first, and its result.
    pub closed spec fn ended_first(&self) -> Option<(Stage, Result<(), HandlerError>)> {
        self.first
    }

    pub fn new() -> (r: Supervisor)
        ensures
            r.ended_first() is None,
    {
        Supervisor { first: None }
    }

    /// Records that `stage` ended with `result`. Only the first report counts;
    /// the returned flag says whether this was it.
    pub fn stage_finished(&mut self, stage: Stage, result: Result<(), HandlerError>) -> (first: bool)
        ensures
            first == (old(self).ended_first() is None),
            final(self).ended_first() == if first {
                Some((stage, result))
            } else {
                old(self).ended_first()
            },
    {
        if self.first.is_none() {
            self.first = Some((stage, result));
            true
        } else {
            false
        }
    }

    /// Whether the session is over.
    pub fn is_over(&self) -> (r: bool)
        ensures
            r == (self.ended_first() is Some),
    {
        self.first.is_some()
    }

    /// Whether `stage` must be stopped: once the session is over, every stage
    /// but the one that already ended is torn down.
    pub fn must_stop(&self, stage: Stage) -> (r: bool)
        ensures
            r == (self.ended_first() matches Some((s, _)) && s != stage),
    {
        match &self.first {
            Some((s, _)) => *s != stage,
            None => false,
        }
    }

    /// The session's outcome: the result of the stage that ended first, with
    /// its error as the client is told it.
    pub fn outcome(self) -> (r: Option<Result<(), AppError>>)
        ensures
            match self.ended_first() {
                None => r is None,
                Some((_, Ok(()))) => r == Some(Ok::<(), AppError>(())),
                Some((_, Err(e))) => r matches Some(Err(a)) && a.status_code
                    == crate::errors::status_of(e) && a.message@ == crate::errors::message_of(e),
            },
    {
        match self.first {
            None => None,
            Some((_, Ok(()))) => Some(Ok(())),
            Some((_, Err(e))) => Some(Err(AppError::from(e))),
        }
    }
}

} // verus!
