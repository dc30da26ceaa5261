//! Failures of acquisition and of root resources.

use crate::reference::ResourceOutcome;
use std::sync::Arc;
use vstd::prelude::*;

verus! {

/// Failure to acquire or establish a resource generation.
#[derive(Clone, Copy, Debug, PartialEq, Eq, Structural)]
pub enum AcquireError {
    /// A non-waiting operation found a canonical identity starting or active.
    Occupied,
    /// The domain has begun shutdown and no longer accepts acquisitions.
    ShuttingDown,
    /// Construction of the resource panicked.
    ConstructionPanicked,
}

impl AcquireError {
    /// The text of a failure.
    pub open spec fn spec_message(self) -> Seq<char> {
        match self {
            AcquireError::Occupied => "the canonical resource is already live or starting"@,
            AcquireError::ShuttingDown => "the resource domain is shutting down"@,
            AcquireError::ConstructionPanicked => "resource construction panicked"@,
        }
    }

    /// The text that tells a reader of the failure.
    pub fn message(&self) -> (text: &'static str)
        ensures
            text@ == self.spec_message(),
    {
        match self {
            AcquireError::Occupied => "the canonical resource is already live or starting",
            AcquireError::ShuttingDown => "the resource domain is shutting down",
            AcquireError::ConstructionPanicked => "resource construction panicked",
        }
    }
}

/// Failure of a root resource.
#[derive(Debug)]
pub enum RunError<E> {
    /// The root generation could not be acquired.
    Acquire(AcquireError),
    /// The root task returned its declared error.
    Resource(Arc<E>),
    /// The root task panicked with this message.
    Panicked(Arc<str>),
    /// The root task was forcibly aborted.
    Aborted,
}

impl<E> RunError<E> {
    /// The text of a failure, where `rendered` is the text of the root task's
    /// own error.
    pub open spec fn spec_message(self, rendered: Seq<char>) -> Seq<char> {
        match self {
            RunError::Acquire(error) => error.spec_message(),
            RunError::Resource(_) => rendered,
            RunError::Panicked(message) => "root resource panicked: "@ + (*message)@,
            RunError::Aborted => "root resource was aborted"@,
        }
    }

    /// The text that tells a reader of the failure. `rendered` is the text of
    /// the root task's own error, and matters where the failure is that.
    pub fn message(&self, rendered: &str) -> (text: String)
        ensures
            text@ == self.spec_message(rendered@),
    {
        match self {
            RunError::Acquire(error) => error.message().to_owned(),
            RunError::Resource(_) => rendered.to_owned(),
            RunError::Panicked(message) => {
                let mut text = "root resource panicked: ".to_owned();
                text.append(message);
                text
            },
            RunError::Aborted => "root resource was aborted".to_owned(),
        }
    }

    /// What a root resource comes to that could not be acquired.
    pub fn from_refusal(error: AcquireError) -> (failure: Self)
        ensures
            failure == RunError::<E>::Acquire(error),
    {
        RunError::Acquire(error)
    }

    /// What a root resource that ended with `outcome` comes to: success only
    /// where it completed.
    pub open spec fn spec_from_outcome(outcome: ResourceOutcome<E>) -> Result<(), RunError<E>> {
        match outcome {
            ResourceOutcome::Completed => Ok(()),
            ResourceOutcome::Failed(error) => Err(RunError::Resource(error)),
            ResourceOutcome::Panicked(message) => Err(RunError::Panicked(message)),
            ResourceOutcome::Aborted => Err(RunError::Aborted),
        }
    }

    /// What a root resource that ended with `outcome` comes to.
    pub fn from_outcome(outcome: ResourceOutcome<E>) -> (result: Result<(), RunError<E>>)
        ensures
            result == RunError::spec_from_outcome(outcome),
    {
        match outcome {
            ResourceOutcome::Completed => Ok(()),
            ResourceOutcome::Failed(error) => Err(RunError::Resource(error)),
            ResourceOutcome::Panicked(message) => Err(RunError::Panicked(message)),
            ResourceOutcome::Aborted => Err(RunError::Aborted),
        }
    }
}

} // verus!
