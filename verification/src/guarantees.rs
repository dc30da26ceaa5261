//! What a domain guarantees.

use crate::context::{Decision, Mode, Request, Standing};
use crate::error::AcquireError;
use crate::identity::KeyTableView;
use crate::lifecycle::{rank, ControlView, Phase};
use crate::model::{ClaimView, DomainPhase, DomainView};
use crate::reference::{observed, published, ReferenceView, ResourceOutcome};
use crate::registry::RegistrySlotState;
use vstd::prelude::*;

verus! {

/// Something that is done to a domain.
pub enum Operation<P> {
    /// A request is decided.
    Decide {
        /// The request.
        request: Request,
        /// What the caller accepts.
        mode: Mode,
    },
    /// An identity is looked up.
    LookUp(Request),
    /// All active generations of a resource type are leased.
    AcquireAll(u64),
    /// A weak reference to a task's generation is upgraded.
    Upgrade(u64),
    /// A strong reference to a task's generation is cloned.
    CloneReference(u64),
    /// A strong reference to a task's generation is dropped.
    ReleaseReference(u64),
    /// A claimed generation is established.
    Establish {
        /// The claim.
        claim: ClaimView,
        /// The lineage of its token.
        token: Seq<int>,
        /// Whether that was cancelled before.
        cancelled: bool,
        /// What the supervisor is given to reach the task.
        handle: P,
    },
    /// A claimed generation is given up.
    Abandon(ClaimView),
    /// A task ends.
    Finish(u64),
    /// A task that has ended leaves the supervisor.
    Leave(u64),
    /// The domain is shut down.
    Cancel,
}

impl<P> DomainView<P> {
    /// Whether an operation can be carried out.
    pub open spec fn allows(self, operation: Operation<P>) -> bool {
        match operation {
            Operation::Decide { mode, .. } => self.can_claim() && (mode != Mode::CreateOnly
                ==> self.can_grant()),
            Operation::LookUp(_) => self.can_grant(),
            Operation::AcquireAll(_) => self.can_grant(),
            Operation::Upgrade(_) => self.can_grant(),
            Operation::CloneReference(_) => self.can_grant(),
            Operation::Establish { claim, .. } => self.pending(claim) && self.accepting()
                && self.can_establish(),
            Operation::Abandon(claim) => self.pending(claim),
            Operation::Leave(task) => self.may_leave(task),
            _ => true,
        }
    }

    /// The domain after an operation.
    pub open spec fn after(self, operation: Operation<P>) -> DomainView<P> {
        match operation {
            Operation::Decide { request, mode } => self.decided_on(request, mode),
            Operation::LookUp(request) => self.looked_up(request),
            Operation::AcquireAll(resource_type) => self.acquire_all(resource_type),
            Operation::Upgrade(task) => self.acquire(task),
            Operation::CloneReference(task) => self.clone_lease(task),
            Operation::ReleaseReference(task) => self.release(task),
            Operation::Establish { claim, token, cancelled, handle } => self.establish(
                claim,
                ControlView::fresh(token, cancelled),
                handle,
            ),
            Operation::Abandon(claim) => self.abandon(claim),
            Operation::Finish(task) => self.finish(task),
            Operation::Leave(task) => self.task_finished(task),
            Operation::Cancel => self.cancel(),
        }
    }
}

impl<P> DomainView<P> {
    /// The domain after a history of operations, in order.
    pub open spec fn after_all(self, history: Seq<Operation<P>>) -> DomainView<P>
        decreases history.len(),
    {
        if history.len() == 0 {
            self
        } else {
            self.after_all(history.drop_last()).after(history.last())
        }
    }

    /// Whether each operation of a history can be carried out when its turn
    /// comes.
    pub open spec fn allows_all(self, history: Seq<Operation<P>>) -> bool
        decreases history.len(),
    {
        history.len() > 0 ==> self.allows_all(history.drop_last()) && self.after_all(
            history.drop_last(),
        ).allows(history.last())
    }

    /// Deciding on a request keeps what holds of every domain, and every claim
    /// that was to be settled; and the claim that it hands out is to be settled.
    pub proof fn deciding_keeps_wf(self, request: Request, mode: Mode)
        requires
            self.wf(),
            self.can_claim(),
        ensures
            self.decided_on(request, mode).wf(),
            forall|claim: ClaimView| #[trigger]
                self.pending(claim) ==> self.decided_on(request, mode).pending(claim),
            self.decide_on(request, mode) == Decision::Build ==> self.decided_on(
                request,
                mode,
            ).pending(self.claim_for(request)),
    {
        let resource_type = request.resource_type;
        match request.key {
            Some(key) => {
                self.with_registry_keeps_wf(resource_type);
                match self.decide(resource_type, key, mode) {
                    Decision::Reuse(reference) => {
                        self.with_registry(resource_type).acquire_keeps_wf(reference.task);
                    },
                    Decision::Build => {
                        self.claim_slot_keeps_wf(resource_type, key);
                    },
                    _ => {},
                }
            },
            None => {
                self.claim_unique_keeps_wf(resource_type);
            },
        }
    }
}

/// Every operation keeps what holds of every domain.
pub proof fn operations_keep_domains<P>(domain: DomainView<P>, operation: Operation<P>)
    requires
        domain.wf(),
        domain.allows(operation),
    ensures
        domain.after(operation).wf(),
{
    match operation {
        Operation::Decide { request, mode } => {
            domain.deciding_keeps_wf(request, mode);
        },
        Operation::LookUp(request) => {
            domain.with_registry_keeps_wf(request.resource_type);
            if let Some(reference) = domain.found(request) {
                domain.with_registry(request.resource_type).acquire_keeps_wf(reference.task);
            }
        },
        Operation::AcquireAll(resource_type) => {
            domain.acquire_all_keeps_wf(resource_type);
        },
        Operation::Upgrade(task) => {
            domain.acquire_keeps_wf(task);
        },
        Operation::CloneReference(task) => {
            domain.clone_lease_keeps_wf(task);
        },
        Operation::ReleaseReference(task) => {
            domain.release_keeps_wf(task);
        },
        Operation::Establish { claim, token, cancelled, handle } => {
            domain.establish_keeps_wf(claim, ControlView::fresh(token, cancelled), handle);
        },
        Operation::Abandon(claim) => {
            domain.abandon_keeps_wf(claim);
        },
        Operation::Finish(task) => {
            domain.finish_keeps_wf(task);
        },
        Operation::Leave(task) => {
            domain.task_finished_keeps_wf(task);
        },
        Operation::Cancel => {
            domain.cancel_keeps_wf();
        },
    }
}

/// Every history of operations keeps what holds of every domain.
pub proof fn histories_keep_domains<P>(domain: DomainView<P>, history: Seq<Operation<P>>)
    requires
        domain.wf(),
        domain.allows_all(history),
    ensures
        domain.after_all(history).wf(),
    decreases history.len(),
{
    if history.len() > 0 {
        histories_keep_domains(domain, history.drop_last());
        operations_keep_domains(domain.after_all(history.drop_last()), history.last());
    }
}

/// In every state that a new domain comes to, a canonical identity has at most
/// one active generation.
pub proof fn one_active_generation_at_all_times<P>(
    token: Seq<int>,
    history: Seq<Operation<P>>,
    a: u64,
    b: u64,
)
    requires
        DomainView::<P>::fresh(token).allows_all(history),
        ({
            let domain = DomainView::<P>::fresh(token).after_all(history);
            &&& domain.is_active(a)
            &&& domain.is_active(b)
            &&& domain.tasks[a].claim.resource_type == domain.tasks[b].claim.resource_type
            &&& domain.tasks[a].claim.place matches Some(place)
            &&& domain.tasks[b].claim.stands_under(place.key)
        }),
    ensures
        DomainView::<P>::fresh(token).after_all(history).wf(),
        a == b,
{
    histories_keep_domains(DomainView::<P>::fresh(token), history);
    one_active_generation_per_identity(DomainView::<P>::fresh(token).after_all(history), a, b);
}

/// A canonical identity has at most one active generation.
pub proof fn one_active_generation_per_identity<P>(domain: DomainView<P>, a: u64, b: u64)
    requires
        domain.wf(),
        domain.is_active(a),
        domain.is_active(b),
        domain.tasks[a].claim.resource_type == domain.tasks[b].claim.resource_type,
        domain.tasks[a].claim.place is Some,
        domain.tasks[b].claim.place is Some,
        domain.tasks[a].claim.place->0.key == domain.tasks[b].claim.place->0.key,
    ensures
        a == b,
{
    assert(domain.task_ok(a) && domain.task_ok(b));
}

/// A task backs one generation for as long as it is supervised, with the same
/// handle and the same token, whatever is done to its domain; and its number is
/// never given to another task. The domain keeps its token, too. So a reference
/// never comes to point at a replacement, an acquisition never reconfigures what
/// it finds, and a task is told to stop through the token that it was given.
pub proof fn tasks_keep_their_generation<P>(
    domain: DomainView<P>,
    operation: Operation<P>,
    task: u64,
)
    requires
        domain.wf(),
        domain.allows(operation),
        task < domain.next_task,
    ensures
        domain.after(operation).tasks.contains_key(task) ==> domain.tasks.contains_key(task),
        domain.after(operation).tasks.contains_key(task) ==> domain.after(
            operation,
        ).tasks[task].claim == domain.tasks[task].claim,
        domain.after(operation).tasks.contains_key(task) ==> domain.after(
            operation,
        ).tasks[task].handle == domain.tasks[task].handle,
        domain.after(operation).tasks.contains_key(task) ==> domain.after(
            operation,
        ).tasks[task].control.token == domain.tasks[task].control.token,
        domain.next_task <= domain.after(operation).next_task,
        domain.next_generation <= domain.after(operation).next_generation,
        domain.after(operation).token == domain.token,
{
}

/// A generation goes through its phases in order, whatever is done to its
/// domain, and a request for its cancellation is never withdrawn.
pub proof fn generations_go_forward<P>(
    domain: DomainView<P>,
    operation: Operation<P>,
    task: u64,
)
    requires
        domain.wf(),
        domain.allows(operation),
        domain.tasks.contains_key(task),
        domain.after(operation).tasks.contains_key(task),
    ensures
        rank(domain.tasks[task].control.phase) <= rank(
            domain.after(operation).tasks[task].control.phase,
        ),
        domain.tasks[task].control.cancelled ==> domain.after(
            operation,
        ).tasks[task].control.cancelled,
{
    assert(domain.task_ok(task));
}

/// Shutdown is permanent, and so is termination.
pub proof fn shutdown_is_permanent<P>(domain: DomainView<P>, operation: Operation<P>)
    requires
        domain.wf(),
        domain.allows(operation),
    ensures
        !domain.accepting() ==> !domain.after(operation).accepting(),
        domain.phase == DomainPhase::Terminated ==> domain.after(operation).phase
            == DomainPhase::Terminated,
{
}

/// Whatever is done to a domain that was shut down, however often, it accepts
/// no work and gets no task that it did not have; and once it has terminated, it
/// has.
pub proof fn shutdown_is_permanent_at_all_times<P>(
    domain: DomainView<P>,
    history: Seq<Operation<P>>,
)
    requires
        domain.wf(),
        domain.allows_all(history),
        !domain.accepting(),
    ensures
        !domain.after_all(history).accepting(),
        domain.after_all(history).tasks.dom().subset_of(domain.tasks.dom()),
        domain.tasks.dom().finite() ==> domain.after_all(history).tasks.dom().len()
            <= domain.tasks.dom().len(),
        domain.phase == DomainPhase::Terminated ==> domain.after_all(history).phase
            == DomainPhase::Terminated,
    decreases history.len(),
{
    if history.len() > 0 {
        let earlier = domain.after_all(history.drop_last());
        shutdown_is_permanent_at_all_times(domain, history.drop_last());
        histories_keep_domains(domain, history.drop_last());
        shutdown_is_permanent(earlier, history.last());
        assert forall|task: u64| #[trigger] domain.after_all(history).tasks.dom().contains(
            task,
        ) implies domain.tasks.dom().contains(task) by {
            assert(earlier.tasks.dom().contains(task));
        }
    }
    if domain.tasks.dom().finite() {
        vstd::set_lib::lemma_len_subset(
            domain.after_all(history).tasks.dom(),
            domain.tasks.dom(),
        );
    }
}

/// A domain that was shut down refuses every acquisition, with or without a
/// canonical identity, and every upgrade of a weak reference, and none of them
/// changes it.
pub proof fn shutdown_rejects_acquisition<P>(
    domain: DomainView<P>,
    request: Request,
    mode: Mode,
    task: u64,
)
    requires
        !domain.accepting(),
    ensures
        domain.decide_on(request, mode) == Decision::Refuse(AcquireError::ShuttingDown),
        domain.decided_on(request, mode) == domain,
        domain.standing(request) == Standing::Absent,
        domain.found(request) is None,
        domain.looked_up(request) == domain,
        domain.acquire_all(request.resource_type) == domain,
        !domain.grants_lease(task),
        domain.acquire(task) == domain,
{
}

/// References that are held can be cloned though the domain was shut down.
pub proof fn shutdown_lets_references_be_cloned<P>(domain: DomainView<P>, task: u64)
    requires
        domain.wf(),
        domain.tasks.contains_key(task),
        domain.tasks[task].control.phase != Phase::Finished,
    ensures
        domain.cancel().clone_lease(task).tasks[task].control.leases
            == domain.tasks[task].control.leases + 1,
{
}

/// Shutting a domain down cancels every generation that was active, and leaves
/// none active.
pub proof fn shutdown_cancels_every_generation<P>(domain: DomainView<P>, task: u64)
    requires
        domain.wf(),
    ensures
        !domain.cancel().accepting(),
        domain.cancel().shutdown(),
        !domain.cancel().is_active(task),
        domain.is_active(task) ==> domain.cancel().tasks[task].control.phase == Phase::Cancelling
            && domain.cancel().tasks[task].control.cancelled,
{
    domain.cancel_keeps_wf();
    if domain.cancel().tasks.contains_key(task) {
        assert(domain.cancel().task_ok(task));
    }
}

/// Shutting a domain down twice is the same as doing it once.
pub proof fn shutdown_is_idempotent<P>(domain: DomainView<P>)
    requires
        domain.wf(),
    ensures
        domain.cancel().cancel() == domain.cancel(),
{
    domain.cancel_keeps_wf();
    let once = domain.cancel();
    assert(once.tasks.dom() =~= domain.tasks.dom());
    assert(once.cancel().tasks =~= once.tasks);
    assert(once.cancel() =~= once);
}

/// A domain has terminated exactly when it was shut down and no task is left.
pub proof fn terminated_means_quiescent<P>(domain: DomainView<P>)
    requires
        domain.wf(),
    ensures
        (domain.phase == DomainPhase::Terminated) == (!domain.accepting()
            && domain.tasks.is_empty()),
{
}

/// A domain after the tasks in a list have ended and left, in order.
pub open spec fn drained<P>(domain: DomainView<P>, tasks: Seq<u64>) -> DomainView<P>
    decreases tasks.len(),
{
    if tasks.len() == 0 {
        domain
    } else {
        let earlier = drained(domain, tasks.drop_last());
        earlier.finish(tasks.last()).task_finished(tasks.last())
    }
}

/// A domain that was shut down terminates once all its tasks have ended, in
/// whatever order they do.
pub proof fn shutdown_ends_when_all_tasks_have<P>(domain: DomainView<P>, tasks: Seq<u64>)
    requires
        domain.wf(),
        forall|task: u64| #[trigger] domain.tasks.contains_key(task) ==> tasks.contains(task),
    ensures
        drained(domain.cancel(), tasks).wf(),
        drained(domain.cancel(), tasks).phase == DomainPhase::Terminated,
{
    domain.cancel_keeps_wf();
    let start = domain.cancel();
    assert(start.tasks.dom() =~= domain.tasks.dom());
    draining_removes(start, tasks);
    let end = drained(start, tasks);
    assert(end.tasks.dom() =~= Set::empty()) by {
        assert forall|task: u64| !end.tasks.contains_key(task) by {
            if end.tasks.contains_key(task) {
                assert(domain.tasks.contains_key(task));
                assert(tasks.contains(task));
            }
        }
    }
}

proof fn draining_removes<P>(domain: DomainView<P>, tasks: Seq<u64>)
    requires
        domain.wf(),
        !domain.accepting(),
    ensures
        drained(domain, tasks).wf(),
        !drained(domain, tasks).accepting(),
        forall|task: u64| #[trigger]
            drained(domain, tasks).tasks.contains_key(task) ==> domain.tasks.contains_key(task)
                && !tasks.contains(task),
    decreases tasks.len(),
{
    if tasks.len() > 0 {
        let rest = tasks.drop_last();
        let last = tasks.last();
        draining_removes(domain, rest);
        let earlier = drained(domain, rest);
        earlier.finish_keeps_wf(last);
        earlier.finish(last).task_finished_keeps_wf(last);
        assert forall|task: u64| #[trigger] drained(domain, tasks).tasks.contains_key(
            task,
        ) implies domain.tasks.contains_key(task) && !tasks.contains(task) by {
            assert(earlier.tasks.contains_key(task));
            if tasks.contains(task) {
                let i = choose|i: int| 0 <= i < tasks.len() && tasks[i] == task;
                assert(i < rest.len() ==> rest[i] == task);
            }
        }
    }
}

/// What a lookup finds is an active generation of the identity that was asked
/// for, in a domain that accepts work.
pub proof fn discovery_finds_active_generations<P>(domain: DomainView<P>, request: Request)
    requires
        domain.wf(),
        domain.found(request) is Some,
    ensures
        domain.accepting(),
        domain.is_active(domain.found(request)->0.task),
        ({
            let found = domain.found(request)->0;
            let claim = domain.tasks[found.task].claim;
            &&& claim.resource_type == request.resource_type
            &&& claim.generation == found.generation
            &&& claim.stands_under(request.key->0)
        }),
{
    let key = request.key->0;
    assert(domain.registry(request.resource_type).entries.contains_key(key));
    assert(domain.slot_ok(request.resource_type, key));
}

/// An active generation with a canonical identity is what a lookup of that
/// identity finds.
pub proof fn active_generations_are_discovered<P>(domain: DomainView<P>, task: u64)
    requires
        domain.wf(),
        domain.is_active(task),
        domain.tasks[task].claim.place is Some,
    ensures
        ({
            let claim = domain.tasks[task].claim;
            let request = Request {
                resource_type: claim.resource_type,
                key: Some(claim.place->0.key),
            };
            domain.found(request) == Some(
                ReferenceView { generation: claim.generation, task },
            )
        }),
{
    assert(domain.task_ok(task));
}

/// Every request for the identity of an active generation that accepts it gets
/// that generation, and one for a new generation is refused. So references that
/// are held at the same time, while the generation is active, are to the same
/// one.
pub proof fn active_generation_is_shared<P>(domain: DomainView<P>, task: u64, mode: Mode)
    requires
        domain.wf(),
        domain.is_active(task),
        domain.tasks[task].claim.place is Some,
    ensures
        ({
            let claim = domain.tasks[task].claim;
            let request = Request {
                resource_type: claim.resource_type,
                key: Some(claim.place->0.key),
            };
            domain.decide_on(request, mode) == (if mode == Mode::CreateOnly {
                Decision::Refuse(AcquireError::Occupied)
            } else {
                Decision::Reuse(ReferenceView { generation: claim.generation, task })
            })
        }),
{
    assert(domain.task_ok(task));
}

/// Inspecting an identity and retrieving its generation agree: the identity is
/// said to be active exactly where a generation is found, with that generation;
/// it is said to be under construction only where none is; and nothing is said
/// of a domain that was shut down.
pub proof fn inspection_agrees_with_retrieval<P>(domain: DomainView<P>, request: Request)
    requires
        domain.wf(),
    ensures
        match domain.found(request) {
            Some(reference) => domain.standing(request) == Standing::Active(reference),
            None => domain.standing(request) == Standing::Absent || domain.standing(request)
                == Standing::Starting,
        },
        domain.standing(request) == Standing::Starting ==> domain.accepting() && (
        request.key matches Some(key) && domain.building(request.resource_type, key) is Some),
        !domain.accepting() ==> domain.standing(request) == Standing::Absent,
{
}

/// Looking an identity up builds nothing: no slot is made or given up, nothing
/// is claimed and no task is added or lost.
pub proof fn lookups_build_nothing<P>(
    domain: DomainView<P>,
    request: Request,
    resource_type: u64,
    key: u64,
)
    requires
        domain.wf(),
    ensures
        domain.looked_up(request).registry(resource_type) == domain.registry(resource_type),
        domain.looked_up(request).state(resource_type, key) == domain.state(resource_type, key),
        domain.looked_up(request).next_generation == domain.next_generation,
        domain.looked_up(request).next_task == domain.next_task,
        domain.looked_up(request).tasks.dom() == domain.tasks.dom(),
{
    assert(domain.looked_up(request).tasks.dom() =~= domain.tasks.dom());
}

/// As long as a claim on a canonical identity is to be settled, no other
/// request for that identity is given one: it waits, or is refused.
pub proof fn pending_claim_excludes_others<P>(
    domain: DomainView<P>,
    claim: ClaimView,
    mode: Mode,
)
    requires
        domain.wf(),
        domain.accepting(),
        domain.pending(claim),
        claim.place is Some,
    ensures
        domain.decide(claim.resource_type, claim.place->0.key, mode) == (if mode == Mode::Waiting {
            Decision::Wait
        } else {
            Decision::Refuse(AcquireError::Occupied)
        }),
{
}

/// Whatever else is done to a domain, a claim stays to be settled until it is.
pub proof fn claims_stay_pending<P>(
    domain: DomainView<P>,
    operation: Operation<P>,
    claim: ClaimView,
)
    requires
        domain.wf(),
        domain.allows(operation),
        domain.pending(claim),
        match operation {
            Operation::Establish { claim: other, .. } => other.generation != claim.generation,
            Operation::Abandon(other) => other.generation != claim.generation,
            _ => true,
        },
    ensures
        domain.after(operation).pending(claim),
{
    match operation {
        Operation::Decide { request, mode } => {
            domain.deciding_keeps_wf(request, mode);
        },
        Operation::LookUp(request) => {
            domain.with_registry_keeps_wf(request.resource_type);
            if let Some(reference) = domain.found(request) {
                domain.with_registry(request.resource_type).acquire_keeps_wf(reference.task);
            }
        },
        Operation::AcquireAll(resource_type) => {
            domain.acquire_all_keeps_wf(resource_type);
        },
        Operation::Upgrade(task) => {
            domain.acquire_keeps_wf(task);
        },
        Operation::CloneReference(task) => {
            domain.clone_lease_keeps_wf(task);
        },
        Operation::ReleaseReference(task) => {
            domain.release_keeps_wf(task);
        },
        Operation::Establish { claim: other, token, cancelled, handle } => {
            domain.establish_keeps_wf(other, ControlView::fresh(token, cancelled), handle);
        },
        Operation::Abandon(other) => {
            domain.abandon_keeps_wf(other);
        },
        Operation::Finish(task) => {
            domain.finish_keeps_wf(task);
        },
        Operation::Leave(task) => {
            domain.task_finished_keeps_wf(task);
        },
        Operation::Cancel => {
            domain.cancel_keeps_wf();
        },
    }
}

/// Requests for one identity converge on one generation: once it is
/// established, every request that accepts it gets it, and one for a new
/// generation is refused.
pub proof fn requests_converge<P>(
    domain: DomainView<P>,
    claim: ClaimView,
    control: ControlView,
    handle: P,
)
    requires
        domain.wf(),
        domain.can_establish(),
        domain.accepting(),
        domain.pending(claim),
        claim.place is Some,
        control.wf(),
        control.phase == Phase::Starting,
        control.leases <= domain.grants + 1,
    ensures
        ({
            let next = domain.establish(claim, control, handle);
            let key = claim.place->0.key;
            let reference = ReferenceView {
                generation: claim.generation,
                task: domain.next_task as u64,
            };
            &&& next.decide(claim.resource_type, key, Mode::Waiting) == Decision::Reuse(reference)
            &&& next.decide(claim.resource_type, key, Mode::Immediate) == Decision::Reuse(
                reference,
            )
            &&& next.decide(claim.resource_type, key, Mode::CreateOnly) == Decision::Refuse(
                AcquireError::Occupied,
            )
        }),
{
    domain.establish_keeps_wf(claim, control, handle);
    let next = domain.establish(claim, control, handle);
    assert(next.task_ok(domain.next_task as u64));
    active_generations_are_discovered(next, domain.next_task as u64);
}

/// Releasing the last lease of an active generation requests its cancellation
/// and frees its identity at once; releasing an earlier one leaves it active.
/// No other generation is affected.
pub proof fn last_release_cancels<P>(domain: DomainView<P>, task: u64)
    requires
        domain.wf(),
        domain.is_active(task),
    ensures
        domain.release(task).is_active(task) == (domain.tasks[task].control.leases > 1),
        domain.tasks[task].control.leases == 1 ==> {
            &&& domain.release(task).tasks[task].control.phase == Phase::Cancelling
            &&& domain.release(task).tasks[task].control.cancelled
            &&& domain.tasks[task].claim.place matches Some(place) ==> domain.release(
                task,
            ).claimable(domain.tasks[task].claim.resource_type, place.key)
        },
        forall|other: u64| other != task ==> domain.release(task).tasks.contains_key(other)
            == domain.tasks.contains_key(other) && #[trigger] domain.release(task).tasks[other]
            == domain.tasks[other],
{
    assert(domain.task_ok(task));
}

/// The end of a task whose identity was taken over by a later generation
/// leaves that generation in its place.
pub proof fn old_cleanup_spares_replacement<P>(domain: DomainView<P>, task: u64)
    requires
        domain.wf(),
        domain.tasks.contains_key(task),
        domain.tasks[task].claim.place is Some,
        ({
            let claim = domain.tasks[task].claim;
            match domain.state(claim.resource_type, claim.place->0.key) {
                Some(state) => !state.stands_for(claim.generation),
                None => false,
            }
        }),
    ensures
        ({
            let claim = domain.tasks[task].claim;
            let key = claim.place->0.key;
            let next = domain.finish(task).task_finished(task);
            &&& next.state(claim.resource_type, key) == domain.state(claim.resource_type, key)
            &&& next.active_under(claim.resource_type, key) == domain.active_under(
                claim.resource_type,
                key,
            )
        }),
{
    let claim = domain.tasks[task].claim;
    let key = claim.place->0.key;
    assert(domain.registry(claim.resource_type).entries.contains_key(key));
    assert(domain.slot_ok(claim.resource_type, key));
}

/// A construction that is given up leaves its identity without a slot, free
/// for the next request, and every other identity as it was.
pub proof fn failed_construction_frees_identity<P>(
    domain: DomainView<P>,
    claim: ClaimView,
    resource_type: u64,
    key: u64,
)
    requires
        domain.wf(),
        domain.pending(claim),
        claim.place is Some,
    ensures
        domain.abandon(claim).state(resource_type, key) == (if resource_type
            == claim.resource_type && claim.stands_under(key) {
            None
        } else {
            domain.state(resource_type, key)
        }),
        domain.abandon(claim).tasks == domain.tasks,
{
    let registry = domain.registry(claim.resource_type);
    assert(registry.wf());
    assert(registry.entries.contains_key(claim.place->0.key));
    if registry.entries.contains_key(key) {
        assert(registry.slots.contains_key(registry.entries[key]));
    }
}

/// A request whose construction fails leaves its identity as free as it can be:
/// it has no slot, is found by no lookup and said to be absent, and the next
/// request for it gets the right to construct again. Every other identity and
/// every task are as they were.
pub proof fn failed_request_leaves_nothing<P>(
    domain: DomainView<P>,
    request: Request,
    mode: Mode,
    next_mode: Mode,
    other: Request,
)
    requires
        domain.wf(),
        domain.can_claim(),
        request.key is Some,
        other.key is Some,
        other != request,
        domain.decide_on(request, mode) == Decision::Build,
    ensures
        ({
            let next = domain.decided_on(request, mode).abandon(domain.claim_for(request));
            &&& next.wf()
            &&& next.accepting()
            &&& next.state(request.resource_type, request.key->0) is None
            &&& next.found(request) is None
            &&& next.standing(request) == Standing::Absent
            &&& next.decide_on(request, next_mode) == Decision::Build
            &&& next.state(other.resource_type, other.key->0) == domain.state(
                other.resource_type,
                other.key->0,
            )
            &&& next.tasks == domain.tasks
        }),
{
    let claim = domain.claim_for(request);
    let claimed = domain.decided_on(request, mode);
    domain.deciding_keeps_wf(request, mode);
    claimed.abandon_keeps_wf(claim);
    failed_construction_frees_identity(
        claimed,
        claim,
        request.resource_type,
        request.key->0,
    );
    failed_construction_frees_identity(claimed, claim, other.resource_type, other.key->0);
    let registry = domain.registry(request.resource_type);
    domain.next_generation_has_no_slot(request.resource_type);
    assert(registry.wf());
    if other.resource_type == request.resource_type && registry.entries.contains_key(
        other.key->0,
    ) {
        assert(registry.slots.contains_key(registry.entries[other.key->0]));
        if registry.entries.contains_key(request.key->0) {
            assert(registry.entries[request.key->0] != registry.entries[other.key->0]);
        }
    }
}

/// The end of a task is settled once: whatever is done to the domain after it,
/// settling it again changes nothing.
pub proof fn ends_are_settled_once<P>(
    domain: DomainView<P>,
    task: u64,
    history: Seq<Operation<P>>,
)
    requires
        domain.wf(),
        task < domain.next_task,
        domain.finish(task).task_finished(task).allows_all(history),
    ensures
        ({
            let end = domain.finish(task).task_finished(task).after_all(history);
            &&& end.wf()
            &&& task < end.next_task
            &&& !end.tasks.contains_key(task)
            &&& end.finish(task) == end
        }),
    decreases history.len(),
{
    domain.finish_keeps_wf(task);
    domain.finish(task).task_finished_keeps_wf(task);
    histories_keep_domains(domain.finish(task).task_finished(task), history);
    if history.len() > 0 {
        ends_are_settled_once(domain, task, history.drop_last());
        tasks_keep_their_generation(
            domain.finish(task).task_finished(task).after_all(history.drop_last()),
            history.last(),
            task,
        );
    }
}

/// A generation that is claimed, established and brought to its end leaves
/// nothing behind: every registry and the supervisor are as they were.
pub proof fn ended_generations_leave_nothing<P>(
    domain: DomainView<P>,
    resource_type: u64,
    key: u64,
    token: Seq<int>,
    cancelled: bool,
    handle: P,
    other: u64,
)
    requires
        domain.wf(),
        domain.can_claim(),
        domain.can_establish(),
        domain.accepting(),
        domain.state(resource_type, key) is None,
    ensures
        ({
            let claim = domain.slot_claim(resource_type, key);
            let task = domain.next_task as u64;
            let end = domain.claim_slot(resource_type, key).establish(
                claim,
                ControlView::fresh(token, cancelled),
                handle,
            ).finish(task).task_finished(task);
            &&& end.tasks == domain.tasks
            &&& end.registry(other) == domain.registry(other)
            &&& end.phase == domain.phase
        }),
{
    let claim = domain.slot_claim(resource_type, key);
    let task = domain.next_task as u64;
    let claimed = domain.claim_slot(resource_type, key);
    let running = claimed.establish(claim, ControlView::fresh(token, cancelled), handle);
    let end = running.finish(task).task_finished(task);
    let generation = domain.next_generation as u64;
    let before = domain.registry(resource_type);
    domain.next_generation_has_no_slot(resource_type);
    assert(!before.slots.contains_key(generation));
    assert(!before.live.contains_key(generation)) by {
        if before.live.contains_key(generation) {
            assert(domain.registry(resource_type).live.contains_key(generation));
            assert(domain.live_ok(resource_type, generation));
            assert(domain.task_ok(before.live[generation]));
        }
    }
    assert(!domain.tasks.contains_key(task)) by {
        if domain.tasks.contains_key(task) {
            assert(domain.task_ok(task));
        }
    }
    assert(end.tasks =~= domain.tasks);
    assert(end.registry(resource_type) =~= before);
}

/// A generation that has ended frees its identity: the next request for it,
/// in a domain that accepts work, gets the right to construct another one.
pub proof fn ended_generation_can_be_replaced<P>(domain: DomainView<P>, task: u64, mode: Mode)
    requires
        domain.wf(),
        domain.accepting(),
        domain.tasks.contains_key(task),
        domain.tasks[task].claim.place is Some,
        ({
            let claim = domain.tasks[task].claim;
            match domain.state(claim.resource_type, claim.place->0.key) {
                Some(state) => state.stands_for(claim.generation),
                None => true,
            }
        }),
    ensures
        ({
            let claim = domain.tasks[task].claim;
            domain.finish(task).decide(claim.resource_type, claim.place->0.key, mode)
                == Decision::Build
        }),
{
    let claim = domain.tasks[task].claim;
    let key = claim.place->0.key;
    if domain.registry(claim.resource_type).entries.contains_key(key) {
        assert(domain.slot_ok(claim.resource_type, key));
    }
}

/// A request without a canonical identity, in a domain that accepts work,
/// always gets the right to construct a generation, which is none that was
/// claimed before.
pub proof fn unique_requests_always_build<P>(
    domain: DomainView<P>,
    request: Request,
    mode: Mode,
    claim: ClaimView,
    task: u64,
)
    requires
        domain.wf(),
        domain.can_claim(),
        domain.accepting(),
        request.key is None,
    ensures
        domain.decide_on(request, mode) == Decision::Build,
        domain.decided_on(request, mode).pending(domain.claim_for(request)),
        domain.pending(claim) ==> claim.generation < domain.claim_for(request).generation,
        domain.tasks.contains_key(task) ==> domain.tasks[task].claim.generation
            < domain.claim_for(request).generation,
        domain.claim_for(request).generation < domain.decided_on(request, mode).next_generation,
{
    domain.deciding_keeps_wf(request, mode);
    if domain.tasks.contains_key(task) {
        assert(domain.task_ok(task));
    }
}

/// Requests without a canonical identity are independent: each comes to a
/// generation and a task of its own, and all of them are active.
pub proof fn unique_generations_are_independent<P>(
    domain: DomainView<P>,
    resource_type: u64,
    token: Seq<int>,
    first: P,
    second: P,
)
    requires
        domain.wf(),
        domain.accepting(),
        domain.next_generation < u64::MAX - 1,
        domain.next_task < u64::MAX - 1,
        domain.grants < u64::MAX - 1,
    ensures
        ({
            let a = domain.unique_claim(resource_type);
            let b = domain.claim_unique().unique_claim(resource_type);
            let one = domain.claim_unique().claim_unique().establish(
                a,
                ControlView::fresh(token, false),
                first,
            );
            let both = one.establish(b, ControlView::fresh(token, false), second);
            &&& a.generation != b.generation
            &&& domain.next_task != one.next_task
            &&& both.is_active(domain.next_task as u64)
            &&& both.is_active(one.next_task as u64)
            &&& both.tasks[domain.next_task as u64].claim == a
            &&& both.tasks[one.next_task as u64].claim == b
        }),
{
}

/// Identities are independent: what is decided about one says nothing about
/// another, of the same resource type or of another one.
pub proof fn identities_are_independent<P>(
    domain: DomainView<P>,
    resource_type: u64,
    key: u64,
    mode: Mode,
    other_type: u64,
    other_key: u64,
    other_mode: Mode,
)
    requires
        domain.wf(),
        domain.can_claim(),
        resource_type != other_type || key != other_key,
    ensures
        domain.decided(resource_type, key, mode).decide(other_type, other_key, other_mode)
            == domain.decide(other_type, other_key, other_mode),
{
    let registry = domain.registry(resource_type);
    domain.next_generation_has_no_slot(resource_type);
    assert(registry.wf());
    if resource_type == other_type && registry.entries.contains_key(other_key) {
        assert(registry.slots.contains_key(registry.entries[other_key]));
        if registry.entries.contains_key(key) {
            assert(registry.entries[key] != registry.entries[other_key]);
        }
    }
}

/// An active generation stays active as long as it is held: it ceases to be
/// only when its last lease is released, its task ends, or the domain is shut
/// down.
pub proof fn holding_keeps_active<P>(domain: DomainView<P>, operation: Operation<P>, task: u64)
    requires
        domain.wf(),
        domain.allows(operation),
        domain.is_active(task),
    ensures
        domain.after(operation).is_active(task) == !(match operation {
            Operation::ReleaseReference(released) => released == task
                && domain.tasks[task].control.leases == 1,
            Operation::Finish(ended) => ended == task,
            Operation::Cancel => true,
            _ => false,
        }),
{
    assert(domain.task_ok(task));
}

/// How many leases an operation grants a generation that has not finished.
pub open spec fn granted<P>(domain: DomainView<P>, operation: Operation<P>, task: u64) -> nat {
    let grants = match operation {
        Operation::Decide { request, mode } => match domain.decide_on(request, mode) {
            Decision::Reuse(reference) => reference.task == task,
            _ => false,
        },
        Operation::LookUp(request) => match domain.found(request) {
            Some(reference) => reference.task == task,
            None => false,
        },
        Operation::AcquireAll(resource_type) => domain.accepting() && domain.is_active_of(
            resource_type,
            task,
        ),
        Operation::Upgrade(upgraded) => upgraded == task && domain.grants_lease(task),
        Operation::CloneReference(cloned) => cloned == task,
        _ => false,
    };
    if grants {
        1
    } else {
        0
    }
}

/// Strong references alone are leases: the leases of a generation change only
/// when a reference to it is handed out, cloned or dropped, or when its task
/// ends. Registries, supervision, weak references and observers of its outcome
/// hold none.
pub proof fn only_references_are_leases<P>(
    domain: DomainView<P>,
    operation: Operation<P>,
    task: u64,
)
    requires
        domain.wf(),
        domain.allows(operation),
        domain.tasks.contains_key(task),
        domain.tasks[task].control.phase != Phase::Finished,
    ensures
        domain.after(operation).tasks.contains_key(task),
        domain.after(operation).tasks[task].control.leases == (match operation {
            Operation::ReleaseReference(released) if released == task => {
                if domain.tasks[task].control.leases == 0 {
                    0
                } else {
                    (domain.tasks[task].control.leases - 1) as nat
                }
            },
            Operation::Finish(ended) if ended == task => 0,
            _ => domain.tasks[task].control.leases + granted(domain, operation, task),
        }),
{
    assert(domain.task_ok(task));
}

/// A domain after references to tasks in a list were dropped, in order.
pub open spec fn released_all<P>(domain: DomainView<P>, dropped: Seq<u64>) -> DomainView<P>
    decreases dropped.len(),
{
    if dropped.len() == 0 {
        domain
    } else {
        released_all(domain, dropped.drop_last()).release(dropped.last())
    }
}

/// How often a task is in a list.
pub open spec fn times(dropped: Seq<u64>, task: u64) -> nat
    decreases dropped.len(),
{
    if dropped.len() == 0 {
        0
    } else if dropped.last() == task {
        times(dropped.drop_last(), task) + 1
    } else {
        times(dropped.drop_last(), task)
    }
}

/// Dropping the references that a task owned reclaims what it alone required:
/// a generation all of whose leases were among them is cancelled, and one with
/// a lease left stays active.
pub proof fn dropping_references_reclaims<P>(domain: DomainView<P>, dropped: Seq<u64>, task: u64)
    requires
        domain.wf(),
        domain.is_active(task),
    ensures
        released_all(domain, dropped).wf(),
        released_all(domain, dropped).tasks.contains_key(task),
        ({
            let before = domain.tasks[task].control;
            let end = released_all(domain, dropped).tasks[task].control;
            if times(dropped, task) < before.leases {
                end.phase == Phase::Active && end.leases == before.leases - times(dropped, task)
            } else {
                end.phase == Phase::Cancelling && end.cancelled && end.leases == 0
            }
        }),
    decreases dropped.len(),
{
    assert(domain.task_ok(task));
    if dropped.len() > 0 {
        dropping_references_reclaims(domain, dropped.drop_last(), task);
        released_all(domain, dropped.drop_last()).release_keeps_wf(dropped.last());
    }
}

/// Whether whatever stands in a domain for a resource type stands under the
/// number of a key.
pub open spec fn numbered<K, P>(
    table: KeyTableView<K>,
    domain: DomainView<P>,
) -> bool {
    forall|number: u64| (#[trigger] domain.state(table.resource_type, number)) is Some
        ==> table.numbers.contains_value(number)
}

/// Whatever is done to a domain, all that stands in it stands under the number
/// of a key, as long as requests are made for numbers of keys.
pub proof fn operations_keep_numbering<K, P>(
    table: KeyTableView<K>,
    domain: DomainView<P>,
    operation: Operation<P>,
)
    requires
        domain.wf(),
        domain.allows(operation),
        numbered(table, domain),
        match operation {
            Operation::Decide { request, .. } => request.resource_type == table.resource_type
                ==> (request.key matches Some(key) ==> table.numbers.contains_value(key)),
            _ => true,
        },
    ensures
        numbered(table, domain.after(operation)),
{
    let next = domain.after(operation);
    assert forall|number: u64| (#[trigger] next.state(table.resource_type, number)) is Some implies
        table.numbers.contains_value(number) by {
        match operation {
            Operation::Decide { request, .. } if request.resource_type == table.resource_type
                && request.key == Some(number) => {},
            _ => {
                assert(domain.state(table.resource_type, number) is Some);
            },
        }
    }
}

/// A key that gets a number, and one whose number is forgotten while nothing
/// stands under it, leave all that stands in the domain under the number of a
/// key. So a key never has an active generation under a number that it had
/// before.
pub proof fn renumbering_keeps_numbering<K, P>(
    table: KeyTableView<K>,
    domain: DomainView<P>,
    key: K,
)
    requires
        table.wf(),
        numbered(table, domain),
    ensures
        numbered(table.with_key(key), domain),
        table.numbers.contains_key(key) && domain.state(table.resource_type, table.numbers[key]) is None
            ==> numbered(table.without_key(key), domain),
{
    assert forall|number: u64| (#[trigger] domain.state(table.resource_type, number)) is Some implies
        table.with_key(key).numbers.contains_value(number) by {
        let other = choose|other: K|
            table.numbers.contains_key(other) && table.numbers[other] == number;
        assert(table.with_key(key).numbers.contains_key(other));
        assert(table.with_key(key).numbers[other] == number);
    }
    if table.numbers.contains_key(key) && domain.state(table.resource_type, table.numbers[key]) is None {
        assert forall|number: u64| (#[trigger] domain.state(table.resource_type, number)) is Some implies
            table.without_key(key).numbers.contains_value(number) by {
            let other = choose|other: K|
                table.numbers.contains_key(other) && table.numbers[other] == number;
            assert(table.without_key(key).numbers.contains_key(other));
            assert(table.without_key(key).numbers[other] == number);
        }
    }
}

/// Every active generation with a canonical identity stands under the number
/// that some key has now, and no two of them under that of the same key.
pub proof fn active_generations_have_keys<K, P>(
    table: KeyTableView<K>,
    domain: DomainView<P>,
    a: u64,
    b: u64,
    key: K,
)
    requires
        table.wf(),
        domain.wf(),
        numbered(table, domain),
        domain.is_active_of(table.resource_type, a),
        domain.is_active_of(table.resource_type, b),
        domain.tasks[a].claim.place is Some,
        table.numbers.contains_key(key),
        domain.tasks[b].claim.stands_under(table.numbers[key]),
    ensures
        table.numbers.contains_value(domain.tasks[a].claim.place->0.key),
        domain.tasks[a].claim.stands_under(table.numbers[key]) ==> a == b,
{
    assert(domain.task_ok(a) && domain.task_ok(b));
    assert(domain.state(table.resource_type, domain.tasks[a].claim.place->0.key) is Some);
}

/// Whether all outcomes that were published are of tasks that have left the
/// supervisor.
pub open spec fn outcomes_follow<P, E>(
    outcomes: Map<u64, ResourceOutcome<E>>,
    domain: DomainView<P>,
) -> bool {
    forall|task: u64| #[trigger]
        outcomes.contains_key(task) ==> task < domain.next_task && !domain.tasks.contains_key(task)
}

/// Whatever is done to a domain, the outcomes that were published stay those of
/// tasks that have left the supervisor.
pub proof fn operations_keep_outcomes<P, E>(
    outcomes: Map<u64, ResourceOutcome<E>>,
    domain: DomainView<P>,
    operation: Operation<P>,
)
    requires
        domain.wf(),
        domain.allows(operation),
        outcomes_follow(outcomes, domain),
    ensures
        outcomes_follow(outcomes, domain.after(operation)),
{
    assert forall|task: u64| #[trigger] outcomes.contains_key(task) implies task < domain.after(
        operation,
    ).next_task && !domain.after(operation).tasks.contains_key(task) by {
        tasks_keep_their_generation(domain, operation, task);
    }
}

/// Settling the end of a task publishes the outcome of one that has left the
/// supervisor.
pub proof fn conclusions_keep_outcomes<P, E>(
    outcomes: Map<u64, ResourceOutcome<E>>,
    domain: DomainView<P>,
    task: u64,
    outcome: ResourceOutcome<E>,
)
    requires
        domain.wf(),
        task < domain.next_task,
        outcomes_follow(outcomes, domain),
    ensures
        outcomes_follow(
            published(outcomes, task, outcome),
            domain.finish(task).task_finished(task),
        ),
{
}

/// Whoever has learnt a generation's outcome finds it ended: it is not active,
/// grants no lease, is in no slot and is found by no lookup.
pub proof fn learnt_outcomes_are_of_ended_generations<P, E>(
    outcomes: Map<u64, ResourceOutcome<E>>,
    domain: DomainView<P>,
    task: u64,
    request: Request,
)
    requires
        domain.wf(),
        outcomes_follow(outcomes, domain),
        observed(outcomes.get(task), false) is Some,
    ensures
        !domain.is_active(task),
        !domain.grants_lease(task),
        domain.acquire(task) == domain,
        forall|resource_type: u64, key: u64|
            match #[trigger] domain.state(resource_type, key) {
                Some(RegistrySlotState::Active { entry, .. }) => entry != task,
                _ => true,
            },
        domain.found(request) matches Some(reference) ==> reference.task != task,
{
    assert(outcomes.contains_key(task));
    assert forall|resource_type: u64, key: u64|
        match #[trigger] domain.state(resource_type, key) {
            Some(RegistrySlotState::Active { entry, .. }) => entry != task,
            _ => true,
        } by {
        if domain.registry(resource_type).entries.contains_key(key) {
            assert(domain.slot_ok(resource_type, key));
        }
    }
}

} // verus!
