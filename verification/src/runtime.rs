//! The runtime that owns a domain.

use crate::context::{spawned, Request, ResourceContext};
use crate::domain::{Claim, Domain};
use crate::error::RunError;
use crate::model::{DomainPhase, DomainView};
use vstd::prelude::*;

verus! {

/// Owns one isolated resource domain.
pub struct ResourceRuntime<P> {
    /// The domain.
    pub domain: Domain<P>,
}

impl<P> Default for ResourceRuntime<P> {
    fn default() -> (runtime: Self)
        ensures
            runtime.domain@ == DomainView::<P>::fresh(runtime.domain@.token),
            runtime.domain@.token.len() == 1,
            runtime.domain.wf(),
    {
        ResourceRuntime::new()
    }
}

impl<P> ResourceRuntime<P> {
    /// Creates a new, isolated resource domain.
    pub fn new() -> (runtime: Self)
        ensures
            runtime.domain@ == DomainView::<P>::fresh(runtime.domain@.token),
            runtime.domain@.token.len() == 1,
            runtime.domain.wf(),
    {
        ResourceRuntime { domain: Domain::new() }
    }

    /// Asks for a root generation. The root is then constructed and awaited,
    /// and what it comes to is said by [`RunError::from_outcome`].
    pub fn run<E>(&mut self, request: Request) -> (claimed: Result<Claim, RunError<E>>)
        requires
            old(self).domain.wf(),
            old(self).domain@.can_claim(),
        ensures
            final(self).domain.wf(),
            match claimed {
                Ok(claim) => spawned(
                    request,
                    old(self).domain@,
                    final(self).domain@,
                    Ok(claim),
                ),
                Err(RunError::Acquire(error)) => spawned(
                    request,
                    old(self).domain@,
                    final(self).domain@,
                    Err(error),
                ),
                Err(_) => false,
            },
    {
        let token = self.domain.child_token();
        let context = ResourceContext::for_resource(&self.domain, token);
        match context.spawn(&mut self.domain, request) {
            Ok(claim) => Ok(claim),
            Err(error) => Err(RunError::from_refusal(error)),
        }
    }

    /// Requests cooperative cancellation of every tracked generation, and says
    /// whether whoever waits for the domain to terminate is to be told that it
    /// has.
    ///
    /// Shutdown is permanent: subsequent acquisitions fail or return no
    /// resource.
    pub fn cancel(&mut self) -> (quiescent: bool)
        requires
            old(self).domain.wf(),
        ensures
            final(self).domain@ == old(self).domain@.cancel(),
            final(self).domain.wf(),
            quiescent == (old(self).domain@.phase != DomainPhase::Terminated && old(
                self,
            ).domain@.tasks.is_empty()),
    {
        self.domain.cancel()
    }

    /// Requests cancellation and says whether every managed task has
    /// terminated. Until that is so, it is to be asked again after each task
    /// that ends.
    pub fn shutdown(&mut self) -> (terminated: bool)
        requires
            old(self).domain.wf(),
        ensures
            final(self).domain@ == old(self).domain@.cancel(),
            final(self).domain.wf(),
            terminated == old(self).domain@.tasks.is_empty(),
    {
        self.domain.shutdown()
    }

    /// Begins shutdown and names the managed tasks that are to be aborted: all
    /// that are left.
    pub fn terminate(&mut self) -> (aborts: (Vec<u64>, bool))
        requires
            old(self).domain.wf(),
        ensures
            final(self).domain@ == old(self).domain@.cancel(),
            final(self).domain.wf(),
            aborts.0@.no_duplicates(),
            aborts.0@.to_set() == old(self).domain@.tasks.dom(),
            aborts.1 == (old(self).domain@.phase != DomainPhase::Terminated && old(
                self,
            ).domain@.tasks.is_empty()),
    {
        self.domain.terminate()
    }
}

} // verus!
