//! Acquisition, discovery and creation of generations.
//!
//! Constructing a resource and running its task is the embedding program's
//! work. What is decided around it stands here: whether a request reuses a
//! generation, is refused, waits, or gets the right to construct one; what
//! becomes of a construction that succeeded or failed; and what the end of a
//! task leaves behind.

use crate::domain::{leases_all, Claim, Domain, ManagedTask};
use crate::error::AcquireError;
use crate::lifecycle::{Control, ControlView, Phase};
use crate::model::{ClaimView, DomainView, Place};
use crate::reference::{
    published, Outcomes, ReferenceView, ResourceOutcome, ResourceRef, TaskExit,
};
use crate::registry::RegistrySlotState;
use crate::signal::{
    cancelled, clone_token, lineage, same_token, signal, token_is_cancelled,
};
use tokio_util::sync::CancellationToken;
use vstd::prelude::*;

verus! {

/// What a caller asks for: a generation of a resource type, and, where the
/// type's placement is canonical, the number of the key that identifies it.
#[derive(Clone, Copy, Debug, PartialEq, Eq, Structural)]
pub struct Request {
    /// The number of the resource type in its domain.
    pub resource_type: u64,
    /// The number of the key, or nothing where every generation is unique.
    pub key: Option<u64>,
}

/// What a caller accepts.
#[derive(Clone, Copy, Debug, PartialEq, Eq, Structural)]
pub enum Mode {
    /// A new generation only.
    CreateOnly,
    /// A new or an active generation, without waiting for another caller's
    /// construction.
    Immediate,
    /// A new or an active generation.
    Waiting,
}

/// What a caller gets that was not refused.
pub enum Acquisition {
    /// A lease on an active generation.
    Ready(ResourceRef),
    /// The right to construct a generation.
    Build(Claim),
    /// Nothing yet: another caller is constructing the generation. The request
    /// is to be made again when that has ended.
    Wait,
}

/// Observable acquisition state for one canonical identity.
pub enum ResourceStatus {
    /// No active or establishing generation has this identity.
    Absent,
    /// A caller is currently constructing this identity.
    Starting,
    /// The canonical generation is active; this variant contains a new lease.
    Active(ResourceRef),
}

/// What became of a construction.
pub enum Construction<P> {
    /// The interface was built and its task is ready to start.
    Built {
        /// The token through which the task is cancelled.
        cancellation: CancellationToken,
        /// What the supervisor needs to reach the task.
        handle: P,
    },
    /// It panicked, or was given up.
    Panicked,
}

/// Why a claim was given up.
pub struct Refusal<P> {
    /// The failure that the caller is told of.
    pub error: AcquireError,
    /// The task that was ready to start, with its token, which is cancelled.
    /// It is to be aborted.
    pub task: Option<(CancellationToken, P)>,
}

/// What is decided about a request for a canonical identity.
pub enum Decision {
    /// It is refused.
    Refuse(AcquireError),
    /// It gets a lease on the active generation.
    Reuse(ReferenceView),
    /// It gets the right to construct a generation.
    Build,
    /// It has to wait for another caller's construction.
    Wait,
}

/// What is to be said of an identity.
pub enum Standing {
    /// No active or establishing generation has it.
    Absent,
    /// A caller is constructing it.
    Starting,
    /// This generation of it is active.
    Active(ReferenceView),
}

impl<P> DomainView<P> {
    /// The active generation of a canonical identity.
    pub open spec fn active_under(self, resource_type: u64, key: u64) -> Option<ReferenceView> {
        match self.state(resource_type, key) {
            Some(RegistrySlotState::Active { generation, entry }) => if self.is_active(entry) {
                Some(ReferenceView { generation, task: entry })
            } else {
                None
            },
            _ => None,
        }
    }

    /// What is decided about a request for a canonical identity.
    pub open spec fn decide(self, resource_type: u64, key: u64, mode: Mode) -> Decision {
        if !self.accepting() {
            Decision::Refuse(AcquireError::ShuttingDown)
        } else if self.building(resource_type, key) is Some {
            if mode == Mode::Waiting {
                Decision::Wait
            } else {
                Decision::Refuse(AcquireError::Occupied)
            }
        } else {
            match self.active_under(resource_type, key) {
                Some(reference) => if mode == Mode::CreateOnly {
                    Decision::Refuse(AcquireError::Occupied)
                } else {
                    Decision::Reuse(reference)
                },
                None => Decision::Build,
            }
        }
    }

    /// The domain once a request for a canonical identity was decided.
    pub open spec fn decided(self, resource_type: u64, key: u64, mode: Mode) -> DomainView<P> {
        match self.decide(resource_type, key, mode) {
            Decision::Refuse(AcquireError::ShuttingDown) => self,
            Decision::Refuse(_) => self.with_registry(resource_type),
            Decision::Reuse(reference) => self.with_registry(resource_type).acquire(
                reference.task,
            ),
            Decision::Build => self.claim_slot(resource_type, key),
            Decision::Wait => self.with_registry(resource_type),
        }
    }

    /// What is decided about a request: one without a key gets the right to
    /// construct a generation wherever the domain accepts work.
    pub open spec fn decide_on(self, request: Request, mode: Mode) -> Decision {
        match request.key {
            Some(key) => self.decide(request.resource_type, key, mode),
            None => if self.accepting() {
                Decision::Build
            } else {
                Decision::Refuse(AcquireError::ShuttingDown)
            },
        }
    }

    /// The domain once a request was decided.
    pub open spec fn decided_on(self, request: Request, mode: Mode) -> DomainView<P> {
        match request.key {
            Some(key) => self.decided(request.resource_type, key, mode),
            None => if self.accepting() {
                self.claim_unique()
            } else {
                self
            },
        }
    }

    /// What a generation is that a request gets the right to construct.
    pub open spec fn claim_for(self, request: Request) -> ClaimView {
        match request.key {
            Some(key) => self.slot_claim(request.resource_type, key),
            None => self.unique_claim(request.resource_type),
        }
    }

    /// What is to be said of an identity that is inspected.
    pub open spec fn standing(self, request: Request) -> Standing {
        match request.key {
            Some(key) => if !self.accepting() {
                Standing::Absent
            } else if self.building(request.resource_type, key) is Some {
                Standing::Starting
            } else {
                match self.active_under(request.resource_type, key) {
                    Some(reference) => Standing::Active(reference),
                    None => Standing::Absent,
                }
            },
            None => Standing::Absent,
        }
    }

    /// The generation that a lookup finds.
    pub open spec fn found(self, request: Request) -> Option<ReferenceView> {
        match request.key {
            Some(key) => if self.accepting() {
                self.active_under(request.resource_type, key)
            } else {
                None
            },
            None => None,
        }
    }

    /// The domain after a lookup.
    pub open spec fn looked_up(self, request: Request) -> DomainView<P> {
        if request.key is Some && self.accepting() {
            let ready = self.with_registry(request.resource_type);
            match self.found(request) {
                Some(reference) => ready.acquire(reference.task),
                None => ready,
            }
        } else {
            self
        }
    }
}

/// Whether a task is to stop: its generation was cancelled, or its domain.
pub fn must_stop(generation: bool, domain: bool) -> (stop: bool)
    ensures
        stop == (generation || domain),
    opens_invariants none
{
    generation || domain
}

/// A context as a value.
pub struct ContextView {
    /// The lineage of the generation's token.
    pub token: Seq<int>,
    /// Whether that was cancelled when the context was made.
    pub cancelled: bool,
    /// The lineage of the domain's token.
    pub domain: Seq<int>,
    /// Whether the domain was shut down when the context was made.
    pub shutdown: bool,
    /// Whether one of them was seen to be cancelled.
    pub seen: bool,
}

impl ContextView {
    /// Whether the generation or its domain is known to be cancelled.
    pub open spec fn stops(self) -> bool {
        self.cancelled || self.shutdown || self.seen
    }
}

/// Capabilities made available to a managed resource task.
pub struct ResourceContext {
    shutdown: CancellationToken,
    cancellation: CancellationToken,
}

impl View for ResourceContext {
    type V = ContextView;

    closed spec fn view(&self) -> ContextView {
        ContextView {
            token: lineage(self.cancellation),
            cancelled: cancelled(self.cancellation),
            domain: lineage(self.shutdown),
            shutdown: cancelled(self.shutdown),
            seen: signal(self.cancellation) is Seen || signal(self.shutdown) is Seen,
        }
    }
}

impl Clone for ResourceContext {
    fn clone(&self) -> (copy: Self)
        ensures
            copy@ == self@,
    {
        ResourceContext {
            shutdown: clone_token(&self.shutdown),
            cancellation: clone_token(&self.cancellation),
        }
    }
}

impl ResourceContext {
    /// The context of a generation that is cancelled through `cancellation`.
    pub fn for_resource<P>(domain: &Domain<P>, cancellation: CancellationToken) -> (context: Self)
        ensures
            context@ == (ContextView {
                token: lineage(cancellation),
                cancelled: cancelled(cancellation),
                domain: domain@.token,
                shutdown: domain@.shutdown(),
                seen: signal(cancellation) is Seen || domain@.signal is Seen,
            }),
        opens_invariants none
    {
        ResourceContext { shutdown: domain.shutdown_token(), cancellation }
    }

    /// Whether the context was made for this domain.
    pub fn belongs_to<P>(&self, domain: &Domain<P>) -> (belongs: bool)
        ensures
            belongs == (self@.domain == domain@.token),
        opens_invariants none
    {
        domain.shuts_down_through(&self.shutdown)
    }

    /// Whether this generation or its domain is cancelled, which is known from
    /// then on: whoever waits for that need wait no longer. Asking cancels
    /// nothing.
    ///
    /// Both may be cancelled by others at any time, so the answer is fixed
    /// beforehand only where that was known already. It is `true` exactly where
    /// one of the two turns out to be cancelled, as [`must_stop`] says.
    pub fn cancelled(&mut self) -> (seen: bool)
        ensures
            seen == final(self)@.stops(),
            old(self)@.stops() ==> seen,
            final(self)@ == (ContextView { seen: final(self)@.seen, ..old(self)@ }),
            old(self)@.seen ==> final(self)@.seen,
        opens_invariants none
    {
        let generation = token_is_cancelled(&mut self.cancellation);
        let domain = token_is_cancelled(&mut self.shutdown);
        must_stop(generation, domain)
    }

    /// Whether this generation or its domain is cancelled, as
    /// [`ResourceContext::cancelled`] says, with what the domain itself knows:
    /// it is where the domain was shut down that the context was made for, or
    /// where the generation of the context's task was cancelled.
    ///
    /// A domain that the context was not made for, or a task with another
    /// token, adds nothing.
    pub fn cancelled_in<P>(&mut self, domain: &Domain<P>, task: u64) -> (seen: bool)
        ensures
            seen == final(self)@.stops(),
            old(self)@.stops() ==> seen,
            old(self)@.domain == domain@.token && domain@.shutdown() ==> seen,
            domain@.tasks.contains_key(task) && old(self)@.token
                == domain@.tasks[task].control.token && domain@.tasks[task].control.cancelled
                ==> seen,
            final(self)@.token == old(self)@.token,
            final(self)@.domain == old(self)@.domain,
            final(self)@.cancelled ==> old(self)@.cancelled || (domain@.tasks.contains_key(task)
                && domain@.tasks[task].control.cancelled),
            final(self)@.shutdown ==> old(self)@.shutdown || domain@.shutdown(),
    {
        if let Some(token) = domain.cancellation(task) {
            let mut token = token;
            if same_token(&token, &self.cancellation) && token_is_cancelled(&mut token) {
                self.cancellation = token;
            }
        }
        let mut token = domain.shutdown_token();
        if same_token(&token, &self.shutdown) && token_is_cancelled(&mut token) {
            self.shutdown = token;
        }
        self.cancelled()
    }

    /// Decides about a request for a canonical identity.
    pub fn acquire_canonical<P>(
        &self,
        domain: &mut Domain<P>,
        resource_type: u64,
        key: u64,
        mode: Mode,
    ) -> (acquired: Result<Acquisition, AcquireError>)
        requires
            old(domain).wf(),
            old(domain)@.can_claim(),
            mode != Mode::CreateOnly ==> old(domain)@.can_grant(),
        ensures
            final(domain)@ == old(domain)@.decided(resource_type, key, mode),
            final(domain).wf(),
            old(domain)@.decide(resource_type, key, mode) == (match acquired {
                Err(error) => Decision::Refuse(error),
                Ok(Acquisition::Ready(reference)) => Decision::Reuse(reference@),
                Ok(Acquisition::Build(_)) => Decision::Build,
                Ok(Acquisition::Wait) => Decision::Wait,
            }),
            acquired matches Ok(Acquisition::Build(claim)) ==> claim@ == old(domain)@.slot_claim(
                resource_type,
                key,
            ) && final(domain)@.pending(claim@),
    {
        if !domain.is_accepting() {
            return Err(AcquireError::ShuttingDown);
        }
        let ghost before = domain@;
        let state = domain.state(resource_type, key);
        assert(domain@.registry(resource_type) == before.registry(resource_type));
        match state {
            Some(RegistrySlotState::Starting { generation: _ }) => {
                return if mode == Mode::Waiting {
                    Ok(Acquisition::Wait)
                } else {
                    Err(AcquireError::Occupied)
                };
            },
            Some(RegistrySlotState::Active { generation, entry }) => {
                if domain.task_phase(entry) == Some(Phase::Active) {
                    if mode == Mode::CreateOnly {
                        return Err(AcquireError::Occupied);
                    }
                    domain.try_acquire(entry);
                    return Ok(Acquisition::Ready(ResourceRef::new(generation, entry)));
                }
            },
            _ => {},
        }
        let claim = domain.claim_slot(resource_type, key);
        assert(domain@ =~= before.claim_slot(resource_type, key));
        Ok(Acquisition::Build(claim))
    }

    /// Decides about a request.
    fn acquire<P>(&self, domain: &mut Domain<P>, request: Request, mode: Mode) -> (acquired: Result<
        Acquisition,
        AcquireError,
    >)
        requires
            old(domain).wf(),
            old(domain)@.can_claim(),
            mode != Mode::CreateOnly ==> old(domain)@.can_grant(),
        ensures
            final(domain).wf(),
            settled(request, mode, old(domain)@, final(domain)@, acquired),
    {
        match request.key {
            Some(key) => self.acquire_canonical(domain, request.resource_type, key, mode),
            None => if domain.is_accepting() {
                Ok(Acquisition::Build(domain.claim_unique(request.resource_type)))
            } else {
                Err(AcquireError::ShuttingDown)
            },
        }
    }

    /// Asks for a new generation. A canonical identity must be free.
    pub fn spawn<P>(&self, domain: &mut Domain<P>, request: Request) -> (claimed: Result<
        Claim,
        AcquireError,
    >)
        requires
            old(domain).wf(),
            old(domain)@.can_claim(),
        ensures
            final(domain).wf(),
            spawned(request, old(domain)@, final(domain)@, claimed),
    {
        match self.acquire(domain, request, Mode::CreateOnly) {
            Ok(Acquisition::Build(claim)) => Ok(claim),
            Ok(_) => Err(AcquireError::Occupied),
            Err(error) => Err(error),
        }
    }

    /// Retrieves an active canonical generation without creating it.
    pub fn get<P>(&self, domain: &mut Domain<P>, request: Request) -> (found: Option<ResourceRef>)
        requires
            old(domain).wf(),
            old(domain)@.can_grant(),
        ensures
            match found {
                Some(reference) => old(domain)@.found(request) == Some(reference@),
                None => old(domain)@.found(request) is None,
            },
            final(domain)@ == old(domain)@.looked_up(request),
            final(domain).wf(),
    {
        match self.status(domain, request) {
            ResourceStatus::Active(reference) => Some(reference),
            _ => None,
        }
    }

    /// Inspects a canonical identity without waiting for ongoing construction.
    pub fn status<P>(&self, domain: &mut Domain<P>, request: Request) -> (status: ResourceStatus)
        requires
            old(domain).wf(),
            old(domain)@.can_grant(),
        ensures
            old(domain)@.standing(request) == (match status {
                ResourceStatus::Absent => Standing::Absent,
                ResourceStatus::Starting => Standing::Starting,
                ResourceStatus::Active(reference) => Standing::Active(reference@),
            }),
            final(domain)@ == old(domain)@.looked_up(request),
            final(domain).wf(),
    {
        let key = match request.key {
            Some(key) => key,
            None => {
                return ResourceStatus::Absent;
            },
        };
        if !domain.is_accepting() {
            return ResourceStatus::Absent;
        }
        match domain.state(request.resource_type, key) {
            Some(RegistrySlotState::Starting { generation: _ }) => ResourceStatus::Starting,
            Some(RegistrySlotState::Active { generation, entry }) => {
                if domain.try_acquire(entry) {
                    ResourceStatus::Active(ResourceRef::new(generation, entry))
                } else {
                    ResourceStatus::Absent
                }
            },
            _ => ResourceStatus::Absent,
        }
    }

    /// Retrieves an active canonical generation, or gets the right to
    /// construct it, or has to wait for the caller that is constructing it.
    pub fn get_or_spawn<P>(&self, domain: &mut Domain<P>, request: Request) -> (acquired: Result<
        Acquisition,
        AcquireError,
    >)
        requires
            old(domain).wf(),
            old(domain)@.can_claim(),
            old(domain)@.can_grant(),
        ensures
            final(domain).wf(),
            settled(request, Mode::Waiting, old(domain)@, final(domain)@, acquired),
    {
        self.acquire(domain, request, Mode::Waiting)
    }

    /// Retrieves an active canonical generation, or gets the right to
    /// construct it, unless another caller is constructing it.
    pub fn try_get_or_spawn<P>(&self, domain: &mut Domain<P>, request: Request) -> (acquired:
        Result<Acquisition, AcquireError>)
        requires
            old(domain).wf(),
            old(domain)@.can_claim(),
            old(domain)@.can_grant(),
        ensures
            final(domain).wf(),
            settled(request, Mode::Immediate, old(domain)@, final(domain)@, acquired),
    {
        self.acquire(domain, request, Mode::Immediate)
    }

    /// Takes leases on all currently active generations of a resource type, in
    /// no particular order.
    pub fn all<P>(&self, domain: &mut Domain<P>, resource_type: u64) -> (references: Vec<
        ResourceRef,
    >)
        requires
            old(domain).wf(),
            old(domain)@.can_grant(),
        ensures
            if old(domain)@.accepting() {
                leases_all(references@, old(domain)@, resource_type)
            } else {
                references@.len() == 0
            },
            final(domain)@ == old(domain)@.acquire_all(resource_type),
            final(domain).wf(),
    {
        if domain.is_accepting() {
            domain.acquire_all(resource_type)
        } else {
            Vec::new()
        }
    }

    /// Gives the slot of a canonical identity up, if it is still the one in
    /// `place` and, where a generation is given, stands for that one or for
    /// none.
    pub(crate) fn remove_slot<P>(
        domain: &mut Domain<P>,
        resource_type: u64,
        place: Place,
        generation: Option<u64>,
    )
        requires
            old(domain).tables_ok(),
            old(domain)@.registry(resource_type).wf(),
        ensures
            final(domain)@ == old(domain)@.set_registry(
                resource_type,
                old(domain)@.registry(resource_type).remove_slot(
                    place.key,
                    place.slot,
                    generation,
                ),
            ),
            final(domain).tables_ok(),
    {
        let registry = domain.registry(resource_type);
        registry.remove_slot(place.key, place.slot, generation);
    }

    /// Gives a claimed generation up.
    fn abandon<P>(domain: &mut Domain<P>, claim: Claim)
        requires
            old(domain).wf(),
            old(domain)@.pending(claim@),
        ensures
            final(domain)@ == old(domain)@.abandon(claim@),
            final(domain).wf(),
    {
        let ghost before = domain@;
        proof {
            before.abandon_keeps_wf(claim@);
            assert(before.registry(claim@.resource_type).wf());
        }
        if let Some(place) = claim.place() {
            assert(before.registry(claim@.resource_type).slots.contains_key(
                before.registry(claim@.resource_type).entries[place.key],
            ));
            let registry = domain.registry(claim.resource_type());
            registry.set_state(place.slot, RegistrySlotState::Vacant);
            Self::remove_slot(
                domain,
                claim.resource_type(),
                place,
                Some(claim.generation()),
            );
            assert(domain@ =~= before.abandon(claim@));
        }
    }

    /// Settles a claim: establishes its generation, if it was constructed and
    /// the domain accepts work, and gives it up otherwise. Either way, whoever
    /// waits for the claim's identity is to ask again.
    pub fn create<P>(
        &self,
        domain: &mut Domain<P>,
        claim: Claim,
        construction: Construction<P>,
    ) -> (created: Result<ResourceRef, Refusal<P>>)
        requires
            old(domain).wf(),
            construction is Built ==> old(domain)@.can_establish(),
            old(domain)@.pending(claim@),
        ensures
            final(domain).wf(),
            match construction {
                Construction::Built { cancellation, handle } => if old(domain)@.accepting() {
                    &&& created matches Ok(reference) && reference@ == (ReferenceView {
                        generation: claim@.generation,
                        task: old(domain)@.next_task as u64,
                    })
                    &&& final(domain)@ == old(domain)@.establish(
                        claim@,
                        ControlView::fresh(lineage(cancellation), cancelled(cancellation)),
                        handle,
                    )
                } else {
                    &&& created matches Err(refusal) && refusal.error == AcquireError::ShuttingDown
                        && (refusal.task matches Some((token, refused)) && lineage(token)
                        == lineage(cancellation) && cancelled(token) && refused == handle)
                    &&& final(domain)@ == old(domain)@.abandon(claim@)
                },
                Construction::Panicked => {
                    &&& created matches Err(refusal) && refusal.error
                        == AcquireError::ConstructionPanicked && refusal.task is None
                    &&& final(domain)@ == old(domain)@.abandon(claim@)
                },
            },
    {
        let ghost before = domain@;
        let ghost claimed = claim@;
        let (cancellation, handle) = match construction {
            Construction::Built { cancellation, handle } => (cancellation, handle),
            Construction::Panicked => {
                Self::abandon(domain, claim);
                return Err(
                    Refusal { error: AcquireError::ConstructionPanicked, task: None },
                );
            },
        };
        let resource_type = claim.resource_type();
        let generation = claim.generation();
        let place = claim.place();
        let control = Control::new(cancellation);
        match domain.register(ManagedTask::new(control, claim, handle)) {
            Ok(task) => {
                proof {
                    before.establish_keeps_wf(
                        claimed,
                        ControlView::fresh(lineage(cancellation), cancelled(cancellation)),
                        handle,
                    );
                    assert(before.registry(resource_type).wf());
                    assert(domain@.registry(resource_type) == before.registry(resource_type));
                }
                let registry = domain.registry(resource_type);
                registry.insert_live(generation, task);
                if let Some(place) = place {
                    assert(before.registry(resource_type).slots.contains_key(
                        before.registry(resource_type).entries[place.key],
                    ));
                    registry.set_state(
                        place.slot,
                        RegistrySlotState::Active { generation, entry: task },
                    );
                }
                assert(domain@ =~= before.establish(
                    claimed,
                    ControlView::fresh(lineage(cancellation), cancelled(cancellation)),
                    handle,
                ));
                Ok(ResourceRef::new(generation, task))
            },
            Err(refused) => {
                let (control, claim, handle) = refused.into_parts();
                let mut control = control;
                control.cancel();
                Self::abandon(domain, claim);
                Err(
                    Refusal {
                        error: AcquireError::ShuttingDown,
                        task: Some((control.cancellation(), handle)),
                    },
                )
            },
        }
    }

    /// Records that a task has ended: its generation is finished, is not live
    /// any more, and gives its slot up if that is still its own.
    pub fn finish<P>(domain: &mut Domain<P>, task: u64)
        requires
            old(domain).wf(),
        ensures
            final(domain)@ == old(domain)@.finish(task),
            final(domain).wf(),
            final(domain)@.may_leave(task),
    {
        let ghost before = domain@;
        proof {
            before.finish_keeps_wf(task);
        }
        if let Some((resource_type, generation, place)) = domain.finish_control(task) {
            assert(before.registry(resource_type).wf());
            assert(domain@.registry(resource_type) == before.registry(resource_type));
            let registry = domain.registry(resource_type);
            registry.remove_live(generation);
            if let Some(place) = place {
                Self::remove_slot(domain, resource_type, place, Some(generation));
            }
            assert(domain@ =~= before.finish(task));
        }
    }

    /// Settles the end of a task: its generation is finished, its outcome is
    /// published, and it leaves the supervisor, in this order. Where it is the
    /// last one to leave a domain that accepts no work, whoever waits for the
    /// domain to terminate is to be told, and the answer is `true`.
    pub fn conclude<P, E>(
        domain: &mut Domain<P>,
        task: u64,
        outcomes: &mut Outcomes<E>,
        exit: TaskExit<E>,
    ) -> (quiescent: bool)
        requires
            old(domain).wf(),
        ensures
            final(domain)@ == old(domain)@.finish(task).task_finished(task),
            final(domain).wf(),
            final(outcomes)@ == published(
                old(outcomes)@,
                task,
                ResourceOutcome::spec_from_exit(exit),
            ),
            quiescent == old(domain)@.finish(task).quiescent_without(task),
    {
        Self::finish(domain, task);
        outcomes.publish(task, ResourceOutcome::from_exit(exit));
        domain.task_finished(task)
    }
}

/// What a request for a new generation comes to: the right to construct it, or
/// a refusal.
pub open spec fn spawned<P>(
    request: Request,
    before: DomainView<P>,
    after: DomainView<P>,
    claimed: Result<Claim, AcquireError>,
) -> bool {
    &&& after == before.decided_on(request, Mode::CreateOnly)
    &&& before.decide_on(request, Mode::CreateOnly) == (match claimed {
        Ok(_) => Decision::Build,
        Err(error) => Decision::Refuse(error),
    })
    &&& claimed matches Ok(claim) ==> claim@ == before.claim_for(request) && after.pending(claim@)
}

/// What a request comes to.
pub open spec fn settled<P>(
    request: Request,
    mode: Mode,
    before: DomainView<P>,
    after: DomainView<P>,
    acquired: Result<Acquisition, AcquireError>,
) -> bool {
    &&& after == before.decided_on(request, mode)
    &&& before.decide_on(request, mode) == (match acquired {
        Err(error) => Decision::Refuse(error),
        Ok(Acquisition::Ready(reference)) => Decision::Reuse(reference@),
        Ok(Acquisition::Build(_)) => Decision::Build,
        Ok(Acquisition::Wait) => Decision::Wait,
    })
    &&& acquired matches Ok(Acquisition::Build(claim)) ==> claim@ == before.claim_for(request)
        && after.pending(claim@)
}

} // verus!
