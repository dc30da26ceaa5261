//! What each operation on a domain comes to, told by what the domain holds:
//! its phase, its tasks with their leases, and what stands in its slots.

use crate::context::{
    settled, spawned, Acquisition, ContextView, Decision, Mode, Request, Standing,
};
use crate::domain::{leases_all, Claim};
use crate::error::{AcquireError, RunError};
use crate::identity::KeyTableView;
use crate::lifecycle::{ControlView, Phase};
use crate::model::{ClaimView, DomainPhase, DomainView, TaskView};
use crate::reference::{
    observed, published, spec_panic_message, ReferenceView, ResourceOutcome, ResourceRef, TaskExit,
};
use crate::registry::{RegistrySlotState, RegistryView};
use crate::signal::{derived, told, Signal};
use crate::table::{counts, lists};
use vstd::prelude::*;

verus! {

/// Whether a domain was not shut down.
pub open spec fn runs<P>(domain: DomainView<P>) -> bool {
    domain.phase == DomainPhase::Running
}

/// Whether a task is supervised and its generation is active.
pub open spec fn serves<P>(domain: DomainView<P>, task: u64) -> bool {
    domain.tasks.contains_key(task) && domain.tasks[task].control.phase == Phase::Active
}

/// Whether a task serves a canonical identity.
pub open spec fn serves_identity<P>(
    domain: DomainView<P>,
    task: u64,
    resource_type: u64,
    key: u64,
) -> bool {
    &&& serves(domain, task)
    &&& domain.tasks[task].claim.resource_type == resource_type
    &&& domain.tasks[task].claim.place matches Some(place)
    &&& place.key == key
}

/// What stands in the slot of a key, where it has one.
pub open spec fn slot_of<P>(
    domain: DomainView<P>,
    resource_type: u64,
    key: u64,
) -> Option<RegistrySlotState> {
    if domain.registries.contains_key(resource_type)
        && domain.registries[resource_type].entries.contains_key(key) {
        Some(
            domain.registries[resource_type].slots[domain.registries[resource_type].entries[key]],
        )
    } else {
        None
    }
}

/// The task that is listed for a live generation.
pub open spec fn live_of<P>(domain: DomainView<P>, resource_type: u64, generation: u64) -> Option<
    u64,
> {
    if domain.registries.contains_key(resource_type)
        && domain.registries[resource_type].live.contains_key(generation) {
        Some(domain.registries[resource_type].live[generation])
    } else {
        None
    }
}

/// Whether a caller is constructing a canonical identity.
pub open spec fn constructing<P>(domain: DomainView<P>, resource_type: u64, key: u64) -> bool {
    slot_of(domain, resource_type, key) matches Some(RegistrySlotState::Starting { .. })
}

/// Whether two domains agree in what is no task and no registry, and in what
/// numbers come next.
pub open spec fn same_course<P>(domain: DomainView<P>, next: DomainView<P>) -> bool {
    &&& next.phase == domain.phase
    &&& next.token == domain.token
    &&& next.signal == domain.signal
    &&& next.next_task == domain.next_task
    &&& next.next_generation == domain.next_generation
}

/// Whether two domains have the same in every slot.
pub open spec fn same_slots<P>(domain: DomainView<P>, next: DomainView<P>) -> bool {
    forall|resource_type: u64, key: u64| #[trigger]
        slot_of(next, resource_type, key) == slot_of(domain, resource_type, key)
}

/// Whether two domains list the same live generations.
pub open spec fn same_live<P>(domain: DomainView<P>, next: DomainView<P>) -> bool {
    forall|resource_type: u64, generation: u64| #[trigger]
        live_of(next, resource_type, generation) == live_of(domain, resource_type, generation)
}

/// Whether two domains agree in every task but one.
pub open spec fn same_tasks_but<P>(domain: DomainView<P>, next: DomainView<P>, task: u64) -> bool {
    forall|other: u64|
        other != task ==> (#[trigger] next.tasks.contains_key(other))
            == domain.tasks.contains_key(other) && next.tasks[other] == domain.tasks[other]
}

/// Whether two tasks agree in all but their leases.
pub open spec fn same_but_leases<P>(task: TaskView<P>, next: TaskView<P>) -> bool {
    &&& next.claim == task.claim
    &&& next.handle == task.handle
    &&& next.control.phase == task.control.phase
    &&& next.control.token == task.control.token
    &&& next.control.cancelled == task.control.cancelled
}

/// What is read off a domain is what it holds: it accepts work while it runs; a
/// task is active and grants leases where it serves, whatever its placement; an
/// identity is under construction where a caller constructs it.
pub proof fn readings_are_what_is_held<P>(
    domain: DomainView<P>,
    resource_type: u64,
    key: u64,
    task: u64,
)
    ensures
        domain.accepting() == runs(domain),
        domain.is_active(task) == serves(domain, task),
        domain.grants_lease(task) == (runs(domain) && serves(domain, task)),
        domain.is_active_of(resource_type, task) == (serves(domain, task)
            && domain.tasks[task].claim.resource_type == resource_type),
        domain.state(resource_type, key) == slot_of(domain, resource_type, key),
        domain.building(resource_type, key) is Some == constructing(domain, resource_type, key),
        domain.shutdown() == (domain.signal == Signal::Sent),
        domain.can_claim() == (domain.next_generation < u64::MAX),
        domain.can_grant() == (domain.grants < u64::MAX),
        domain.can_establish() == (domain.next_task < u64::MAX && domain.grants < u64::MAX),
        domain.may_leave(task) == (domain.tasks.contains_key(task)
            ==> domain.tasks[task].control.phase == Phase::Finished),
{
}

/// A new domain runs and holds nothing.
pub proof fn new_domains_hold_nothing<P>(token: Seq<int>, resource_type: u64, key: u64, task: u64)
    ensures
        runs(DomainView::<P>::fresh(token)),
        DomainView::<P>::fresh(token).wf(),
        DomainView::<P>::fresh(token).token == token,
        DomainView::<P>::fresh(token).signal == Signal::Open,
        !DomainView::<P>::fresh(token).tasks.contains_key(task),
        slot_of(DomainView::<P>::fresh(token), resource_type, key) is None,
        live_of(DomainView::<P>::fresh(token), resource_type, key) is None,
{
}

/// What a request comes to follows from what the domain holds. One that was
/// shut down refuses it. Else a request without a key gets the right to
/// construct; and so does one for an identity that no task serves and nobody is
/// constructing, in every mode, though an earlier generation of it may not have
/// ended. While somebody constructs the identity, a caller that accepts to wait
/// waits and any other is refused; while a task serves it, a caller gets that
/// generation, or is refused where it wants a new one.
pub proof fn requests_are_decided_by_what_is_held<P>(
    domain: DomainView<P>,
    request: Request,
    mode: Mode,
    task: u64,
)
    requires
        domain.wf(),
    ensures
        !runs(domain) ==> domain.decide_on(request, mode) == Decision::Refuse(
            AcquireError::ShuttingDown,
        ),
        runs(domain) && request.key is None ==> domain.decide_on(request, mode) == Decision::Build,
        runs(domain) && request.key is Some && constructing(
            domain,
            request.resource_type,
            request.key->0,
        ) ==> domain.decide_on(request, mode) == (match mode {
            Mode::Waiting => Decision::Wait,
            Mode::Immediate => Decision::Refuse(AcquireError::Occupied),
            Mode::CreateOnly => Decision::Refuse(AcquireError::Occupied),
        }),
        runs(domain) && request.key is Some && serves_identity(
            domain,
            task,
            request.resource_type,
            request.key->0,
        ) ==> domain.decide_on(request, mode) == (match mode {
            Mode::CreateOnly => Decision::Refuse(AcquireError::Occupied),
            _ => Decision::Reuse(
                ReferenceView { generation: domain.tasks[task].claim.generation, task },
            ),
        }),
        runs(domain) && request.key is Some && !constructing(
            domain,
            request.resource_type,
            request.key->0,
        ) && (forall|other: u64|
            !serves_identity(domain, other, request.resource_type, request.key->0))
            ==> domain.decide_on(request, mode) == Decision::Build,
{
    if request.key is Some {
        let resource_type = request.resource_type;
        let key = request.key->0;
        if serves_identity(domain, task, resource_type, key) {
            assert(domain.task_ok(task));
        }
        if slot_of(domain, resource_type, key) is Some {
            assert(domain.registry(resource_type).entries.contains_key(key));
            assert(domain.slot_ok(resource_type, key));
            match slot_of(domain, resource_type, key) {
                Some(RegistrySlotState::Active { entry, .. }) => {
                    assert(serves(domain, entry) ==> serves_identity(
                        domain,
                        entry,
                        resource_type,
                        key,
                    ));
                },
                _ => {},
            }
        }
    }
}

/// An identity is free in one of three ways only: somebody constructs it, a
/// task serves it, or it can be built.
pub proof fn identities_are_served_or_constructed<P>(
    domain: DomainView<P>,
    resource_type: u64,
    key: u64,
    task: u64,
)
    requires
        domain.wf(),
        serves_identity(domain, task, resource_type, key),
    ensures
        !constructing(domain, resource_type, key),
        runs(domain),
        slot_of(domain, resource_type, key) == Some(
            RegistrySlotState::Active { generation: domain.tasks[task].claim.generation, entry: task },
        ),
        live_of(domain, resource_type, domain.tasks[task].claim.generation) == Some(task),
{
    assert(domain.task_ok(task));
}

/// What a request does to a domain. A refusal and a wait change no task, no
/// slot and no number. Reuse adds one lease to the generation that is handed
/// out, and nothing else. The right to construct takes the next number, and,
/// where there is a key, puts that generation in its slot as under construction;
/// no task and no other slot is touched.
pub proof fn requests_change_what_they_say<P>(domain: DomainView<P>, request: Request, mode: Mode)
    requires
        domain.wf(),
        domain.can_claim(),
    ensures
        ({
            let next = domain.decided_on(request, mode);
            match domain.decide_on(request, mode) {
                Decision::Refuse(_) => same_course(domain, next) && next.tasks == domain.tasks
                    && same_slots(domain, next) && same_live(domain, next),
                Decision::Wait => same_course(domain, next) && next.tasks == domain.tasks
                    && same_slots(domain, next) && same_live(domain, next),
                Decision::Reuse(reference) => {
                    &&& same_course(domain, next)
                    &&& same_slots(domain, next)
                    &&& same_live(domain, next)
                    &&& same_tasks_but(domain, next, reference.task)
                    &&& next.tasks.contains_key(reference.task)
                    &&& same_but_leases(domain.tasks[reference.task], next.tasks[reference.task])
                    &&& next.tasks[reference.task].control.leases
                        == domain.tasks[reference.task].control.leases + 1
                },
                Decision::Build => {
                    &&& next.phase == domain.phase
                    &&& next.token == domain.token
                    &&& next.signal == domain.signal
                    &&& next.next_task == domain.next_task
                    &&& next.next_generation == domain.next_generation + 1
                    &&& next.tasks == domain.tasks
                    &&& same_live(domain, next)
                    &&& forall|resource_type: u64, key: u64| #[trigger]
                        slot_of(next, resource_type, key) == (if resource_type
                            == request.resource_type && request.key == Some(key) {
                            Some(
                                RegistrySlotState::Starting {
                                    generation: domain.next_generation as u64,
                                },
                            )
                        } else {
                            slot_of(domain, resource_type, key)
                        })
                },
            }
        }),
        domain.claim_for(request).resource_type == request.resource_type,
        domain.claim_for(request).generation == domain.next_generation,
        match request.key {
            Some(key) => domain.claim_for(request).place matches Some(place) && place.key == key,
            None => domain.claim_for(request).place is None,
        },
{
    let next = domain.decided_on(request, mode);
    if request.key is Some {
        let resource_type = request.resource_type;
        let key = request.key->0;
        let registry = domain.registry(resource_type);
        domain.next_generation_has_no_slot(resource_type);
        assert(registry.wf());
        if domain.decide_on(request, mode) == Decision::Build {
            assert forall|t: u64, k: u64| #[trigger] slot_of(next, t, k) == (if t == resource_type
                && k == key {
                Some(
                    RegistrySlotState::Starting { generation: domain.next_generation as u64 },
                )
            } else {
                slot_of(domain, t, k)
            }) by {
                if t == resource_type && k != key && registry.entries.contains_key(k) {
                    assert(registry.slots.contains_key(registry.entries[k]));
                    if registry.entries.contains_key(key) {
                        assert(registry.entries[key] != registry.entries[k]);
                    }
                }
            }
        }
    }
}

/// What a caller is answered follows from what the domain holds, and no answer
/// is given but the one that does: see
/// [`requests_are_decided_by_what_is_held`]. A right to construct is for the
/// generation with the next number, of the type and under the key that were
/// asked for, and is still to be settled.
pub proof fn answers_follow_what_is_held<P>(
    request: Request,
    mode: Mode,
    before: DomainView<P>,
    after: DomainView<P>,
    acquired: Result<Acquisition, AcquireError>,
    task: u64,
)
    requires
        before.wf(),
        before.can_claim(),
        settled(request, mode, before, after, acquired),
    ensures
        !runs(before) ==> (acquired matches Err(error) && error == AcquireError::ShuttingDown)
            && after.tasks == before.tasks && same_course(before, after),
        runs(before) && request.key is None ==> acquired matches Ok(Acquisition::Build(_)),
        runs(before) && request.key is Some ==> {
            let resource_type = request.resource_type;
            let key = request.key->0;
            &&& constructing(before, resource_type, key) ==> if mode == Mode::Waiting {
                acquired matches Ok(Acquisition::Wait)
            } else {
                acquired matches Err(error) && error == AcquireError::Occupied
            }
            &&& serves_identity(before, task, resource_type, key) ==> if mode == Mode::CreateOnly {
                acquired matches Err(error) && error == AcquireError::Occupied
            } else {
                &&& acquired matches Ok(Acquisition::Ready(reference))
                &&& reference@.task == task
                &&& reference@.generation == before.tasks[task].claim.generation
                &&& after.tasks[task].control.leases == before.tasks[task].control.leases + 1
            }
            &&& !constructing(before, resource_type, key) && (forall|other: u64|
                !serves_identity(before, other, resource_type, key)) ==> acquired matches Ok(
                Acquisition::Build(_),
            )
        },
        acquired matches Ok(Acquisition::Build(claim)) ==> {
            &&& claim@.generation == before.next_generation
            &&& after.next_generation == before.next_generation + 1
            &&& claim@.resource_type == request.resource_type
            &&& match request.key {
                Some(key) => claim@.place matches Some(place) && place.key == key,
                None => claim@.place is None,
            }
            &&& after.pending(claim@)
            &&& after.tasks == before.tasks
        },
{
    requests_are_decided_by_what_is_held(before, request, mode, task);
    requests_change_what_they_say(before, request, mode);
}

/// What a caller is answered that wants a new generation: the right to construct
/// it exactly where the domain runs and, where there is a key, nobody constructs
/// the identity and no task serves it.
pub proof fn new_generations_need_free_identities<P>(
    request: Request,
    before: DomainView<P>,
    after: DomainView<P>,
    claimed: Result<Claim, AcquireError>,
    task: u64,
)
    requires
        before.wf(),
        before.can_claim(),
        spawned(request, before, after, claimed),
    ensures
        !runs(before) ==> (claimed matches Err(error) && error == AcquireError::ShuttingDown)
            && after.tasks == before.tasks && same_course(before, after),
        runs(before) && request.key is None ==> claimed is Ok,
        runs(before) && request.key is Some ==> {
            let resource_type = request.resource_type;
            let key = request.key->0;
            &&& constructing(before, resource_type, key) || serves_identity(
                before,
                task,
                resource_type,
                key,
            ) ==> (claimed matches Err(error) && error == AcquireError::Occupied)
            &&& !constructing(before, resource_type, key) && (forall|other: u64|
                !serves_identity(before, other, resource_type, key)) ==> claimed is Ok
        },
        claimed matches Ok(claim) ==> {
            &&& claim@.generation == before.next_generation
            &&& after.next_generation == before.next_generation + 1
            &&& claim@.resource_type == request.resource_type
            &&& match request.key {
                Some(key) => claim@.place matches Some(place) && place.key == key,
                None => claim@.place is None,
            }
            &&& after.pending(claim@)
        },
        after.tasks == before.tasks,
{
    requests_are_decided_by_what_is_held(before, request, Mode::CreateOnly, task);
    requests_change_what_they_say(before, request, Mode::CreateOnly);
}

/// Establishing a generation adds one task, with the claim, the handle and the
/// token that were given, active and held by exactly one lease: the reference
/// that its creator gets. It is listed as live and, where it has a key, stands
/// in its slot. No other task, slot or live generation is touched.
pub proof fn established_generation_has_one_lease<P>(
    domain: DomainView<P>,
    claim: ClaimView,
    token: Seq<int>,
    cancelled: bool,
    handle: P,
)
    requires
        domain.wf(),
        domain.pending(claim),
        domain.next_task < u64::MAX,
    ensures
        ({
            let next = domain.establish(claim, ControlView::fresh(token, cancelled), handle);
            let task = domain.next_task as u64;
            &&& !domain.tasks.contains_key(task)
            &&& next.tasks.contains_key(task)
            &&& next.tasks[task].control.leases == 1
            &&& next.tasks[task].control.phase == Phase::Active
            &&& next.tasks[task].control.token == token
            &&& next.tasks[task].control.cancelled == cancelled
            &&& next.tasks[task].claim == claim
            &&& next.tasks[task].handle == handle
            &&& same_tasks_but(domain, next, task)
            &&& next.next_task == domain.next_task + 1
            &&& next.next_generation == domain.next_generation
            &&& next.grants <= domain.grants + 1
            &&& next.phase == domain.phase
            &&& next.token == domain.token
            &&& next.signal == domain.signal
            &&& forall|resource_type: u64, key: u64| #[trigger]
                slot_of(next, resource_type, key) == (if resource_type == claim.resource_type && (
                claim.place matches Some(place) && place.key == key) {
                    Some(
                        RegistrySlotState::Active { generation: claim.generation, entry: task },
                    )
                } else {
                    slot_of(domain, resource_type, key)
                })
            &&& forall|resource_type: u64, generation: u64| #[trigger]
                live_of(next, resource_type, generation) == (if resource_type
                    == claim.resource_type && generation == claim.generation {
                    Some(task)
                } else {
                    live_of(domain, resource_type, generation)
                })
        }),
{
    let task = domain.next_task as u64;
    if domain.tasks.contains_key(task) {
        assert(domain.task_ok(task));
    }
    let next = domain.establish(claim, ControlView::fresh(token, cancelled), handle);
    let registry = domain.registry(claim.resource_type);
    assert(registry.wf());
    assert forall|resource_type: u64, key: u64| #[trigger]
        slot_of(next, resource_type, key) == (if resource_type == claim.resource_type && (
        claim.place matches Some(place) && place.key == key) {
            Some(RegistrySlotState::Active { generation: claim.generation, entry: task })
        } else {
            slot_of(domain, resource_type, key)
        }) by {
        if resource_type == claim.resource_type && claim.place is Some
            && registry.entries.contains_key(key) && key != claim.place->0.key {
            assert(registry.entries.contains_key(claim.place->0.key));
            assert(registry.entries[key] != registry.entries[claim.place->0.key]);
        }
    }
}

/// Dropping the one reference that the creator of a generation was handed, and
/// no other, is dropping its final lease: the generation is cancelled. Each
/// clone of it has to be dropped, too.
pub proof fn creators_reference_is_the_only_lease<P>(
    domain: DomainView<P>,
    claim: ClaimView,
    token: Seq<int>,
    cancelled: bool,
    handle: P,
)
    requires
        domain.wf(),
        domain.pending(claim),
        domain.next_task < u64::MAX,
    ensures
        ({
            let task = domain.next_task as u64;
            let next = domain.establish(claim, ControlView::fresh(token, cancelled), handle);
            let dropped = next.release(task).tasks[task].control;
            let cloned = next.clone_lease(task).release(task).tasks[task].control;
            &&& dropped.phase == Phase::Cancelling
            &&& dropped.cancelled
            &&& dropped.leases == 0
            &&& cloned.phase == Phase::Active
            &&& cloned.leases == 1
            &&& cloned.cancelled == cancelled
        }),
{
}

/// A registry or a weak reference gets a lease on a task exactly where the
/// domain runs and the task serves, with or without a canonical identity: one
/// more lease, and nothing else changes. Where it gets none, nothing changes.
pub proof fn acquiring_adds_one_lease<P>(domain: DomainView<P>, task: u64)
    ensures
        ({
            let next = domain.acquire(task);
            if runs(domain) && serves(domain, task) {
                &&& same_course(domain, next)
                &&& next.registries == domain.registries
                &&& same_tasks_but(domain, next, task)
                &&& next.tasks.contains_key(task)
                &&& same_but_leases(domain.tasks[task], next.tasks[task])
                &&& next.tasks[task].control.leases == domain.tasks[task].control.leases + 1
                &&& next.grants <= domain.grants + 1
            } else {
                next == domain
            }
        }),
{
}

/// Cloning a reference adds one lease to a supervised task that has not ended,
/// whether or not the domain runs, and changes nothing else.
pub proof fn cloning_adds_one_lease<P>(domain: DomainView<P>, task: u64)
    ensures
        ({
            let next = domain.clone_lease(task);
            &&& same_course(domain, next)
            &&& next.registries == domain.registries
            &&& same_tasks_but(domain, next, task)
            &&& next.tasks.contains_key(task) == domain.tasks.contains_key(task)
            &&& next.grants <= domain.grants + 1
            &&& domain.tasks.contains_key(task) ==> {
                &&& same_but_leases(domain.tasks[task], next.tasks[task])
                &&& next.tasks[task].control.leases == domain.tasks[task].control.leases + (
                if domain.tasks[task].control.phase == Phase::Finished {
                    0int
                } else {
                    1
                })
            }
        }),
{
}

/// Dropping a reference takes one lease from a task that has not ended. Where
/// it was the last one, a task that serves is cancelled. Nothing else changes.
pub proof fn releasing_takes_one_lease<P>(domain: DomainView<P>, task: u64)
    requires
        domain.wf(),
    ensures
        ({
            let next = domain.release(task);
            &&& same_course(domain, next)
            &&& next.registries == domain.registries
            &&& next.grants == domain.grants
            &&& same_tasks_but(domain, next, task)
            &&& next.tasks.contains_key(task) == domain.tasks.contains_key(task)
            &&& domain.tasks.contains_key(task) ==> {
                let before = domain.tasks[task].control;
                let after = next.tasks[task].control;
                &&& next.tasks[task].claim == domain.tasks[task].claim
                &&& next.tasks[task].handle == domain.tasks[task].handle
                &&& after.token == before.token
                &&& before.leases >= 1 ==> after.leases == before.leases - 1
                &&& before.leases == 0 ==> after.leases == 0
                &&& before.phase == Phase::Active && before.leases == 1 ==> after.phase
                    == Phase::Cancelling && after.cancelled
                &&& !(before.phase == Phase::Active && before.leases == 1) ==> after.phase
                    == before.phase && after.cancelled == before.cancelled
            }
        }),
{
    if domain.tasks.contains_key(task) {
        assert(domain.task_ok(task));
    }
}

/// Taking leases on all generations of a type adds one lease to each task of
/// that type that serves, with or without a canonical identity, while the domain
/// runs, and changes nothing else.
pub proof fn acquiring_all_adds_one_lease_each<P>(
    domain: DomainView<P>,
    resource_type: u64,
    task: u64,
)
    ensures
        ({
            let next = domain.acquire_all(resource_type);
            &&& same_course(domain, next)
            &&& same_slots(domain, next)
            &&& same_live(domain, next)
            &&& next.grants <= domain.grants + 1
            &&& next.tasks.contains_key(task) == domain.tasks.contains_key(task)
            &&& domain.tasks.contains_key(task) ==> {
                &&& same_but_leases(domain.tasks[task], next.tasks[task])
                &&& next.tasks[task].control.leases == domain.tasks[task].control.leases + (
                if runs(domain) && serves(domain, task) && domain.tasks[task].claim.resource_type
                    == resource_type {
                    1int
                } else {
                    0
                })
            }
        }),
{
}

/// References that hold all generations of a type hold every task of the type
/// that serves, each once, and no other.
pub proof fn all_means_each_once<P>(
    references: Seq<ResourceRef>,
    domain: DomainView<P>,
    resource_type: u64,
    task: u64,
    i: int,
    j: int,
)
    requires
        leases_all(references, domain, resource_type),
        0 <= i < references.len(),
        0 <= j < references.len(),
    ensures
        serves(domain, references[i]@.task),
        domain.tasks[references[i]@.task].claim.resource_type == resource_type,
        domain.tasks[references[i]@.task].claim.generation == references[i]@.generation,
        references[i]@.task == references[j]@.task ==> i == j,
        serves(domain, task) && domain.tasks[task].claim.resource_type == resource_type
            ==> exists|k: int| 0 <= k < references.len() && (#[trigger] references[k])@.task == task,
{
    if serves(domain, task) && domain.tasks[task].claim.resource_type == resource_type {
        assert(domain.is_active_of(resource_type, task));
    }
}

/// No generation of a type is held where none serves: nothing is handed out
/// only where there is nothing to hand out.
pub proof fn none_of_all_means_none<P>(
    references: Seq<ResourceRef>,
    domain: DomainView<P>,
    resource_type: u64,
    task: u64,
)
    requires
        leases_all(references, domain, resource_type),
        references.len() == 0,
    ensures
        !(serves(domain, task) && domain.tasks[task].claim.resource_type == resource_type),
{
    if serves(domain, task) && domain.tasks[task].claim.resource_type == resource_type {
        assert(domain.is_active_of(resource_type, task));
    }
}

/// A lookup finds exactly the task that serves an identity, while the domain
/// runs. It takes one lease on it, and changes nothing else.
pub proof fn lookups_find_what_serves<P>(domain: DomainView<P>, request: Request, task: u64)
    requires
        domain.wf(),
    ensures
        runs(domain) && request.key is Some && serves_identity(
            domain,
            task,
            request.resource_type,
            request.key->0,
        ) ==> domain.found(request) == Some(
            ReferenceView { generation: domain.tasks[task].claim.generation, task },
        ),
        domain.found(request) matches Some(reference) ==> runs(domain) && request.key is Some
            && serves_identity(
            domain,
            reference.task,
            request.resource_type,
            request.key->0,
        ) && reference.generation == domain.tasks[reference.task].claim.generation,
        ({
            let next = domain.looked_up(request);
            &&& same_course(domain, next)
            &&& same_slots(domain, next)
            &&& same_live(domain, next)
            &&& next.grants <= domain.grants + 1
            &&& next.tasks.contains_key(task) == domain.tasks.contains_key(task)
            &&& domain.tasks.contains_key(task) ==> {
                &&& same_but_leases(domain.tasks[task], next.tasks[task])
                &&& next.tasks[task].control.leases == domain.tasks[task].control.leases + (
                if runs(domain) && request.key is Some && serves_identity(
                    domain,
                    task,
                    request.resource_type,
                    request.key->0,
                ) {
                    1int
                } else {
                    0
                })
            }
        }),
{
    if request.key is Some {
        let resource_type = request.resource_type;
        let key = request.key->0;
        if serves_identity(domain, task, resource_type, key) {
            assert(domain.task_ok(task));
        }
        if slot_of(domain, resource_type, key) is Some {
            assert(domain.registry(resource_type).entries.contains_key(key));
            assert(domain.slot_ok(resource_type, key));
        }
    }
}

/// Inspecting an identity of a domain that runs says that it is starting
/// exactly where somebody constructs it, that it is active exactly where a task
/// serves it, with that task, and else that it is absent. Of a domain that was
/// shut down, and of a request without a key, it says that it is absent.
pub proof fn inspection_says_what_is_held<P>(domain: DomainView<P>, request: Request, task: u64)
    requires
        domain.wf(),
    ensures
        !runs(domain) || request.key is None ==> domain.standing(request) == Standing::Absent,
        runs(domain) && request.key is Some ==> {
            let resource_type = request.resource_type;
            let key = request.key->0;
            &&& (domain.standing(request) == Standing::Starting) == constructing(
                domain,
                resource_type,
                key,
            )
            &&& serves_identity(domain, task, resource_type, key) ==> domain.standing(request)
                == Standing::Active(
                ReferenceView { generation: domain.tasks[task].claim.generation, task },
            )
            &&& !constructing(domain, resource_type, key) && (forall|other: u64|
                !serves_identity(domain, other, resource_type, key)) ==> domain.standing(request)
                == Standing::Absent
            &&& domain.standing(request) == Standing::Absent ==> !constructing(
                domain,
                resource_type,
                key,
            ) && !serves_identity(domain, task, resource_type, key)
        },
{
    if request.key is Some {
        let resource_type = request.resource_type;
        let key = request.key->0;
        if serves_identity(domain, task, resource_type, key) {
            assert(domain.task_ok(task));
        }
        if slot_of(domain, resource_type, key) is Some {
            assert(domain.registry(resource_type).entries.contains_key(key));
            assert(domain.slot_ok(resource_type, key));
            match slot_of(domain, resource_type, key) {
                Some(RegistrySlotState::Active { entry, .. }) => {
                    assert(serves(domain, entry) ==> serves_identity(
                        domain,
                        entry,
                        resource_type,
                        key,
                    ));
                },
                _ => {},
            }
        }
    }
}

/// Inspecting an identity and asking for it without waiting agree: it is absent
/// exactly where a caller would get the right to construct it, starting exactly
/// where one that accepts to wait would wait, and active exactly where one would
/// get that generation.
pub proof fn inspection_foretells_requests<P>(domain: DomainView<P>, request: Request)
    requires
        domain.wf(),
        runs(domain),
        request.key is Some,
    ensures
        domain.decide_on(request, Mode::Waiting) == (match domain.standing(request) {
            Standing::Absent => Decision::Build,
            Standing::Starting => Decision::Wait,
            Standing::Active(reference) => Decision::Reuse(reference),
        }),
        domain.decide_on(request, Mode::Immediate) == (match domain.standing(request) {
            Standing::Absent => Decision::Build,
            Standing::Starting => Decision::Refuse(AcquireError::Occupied),
            Standing::Active(reference) => Decision::Reuse(reference),
        }),
        domain.decide_on(request, Mode::CreateOnly) == (match domain.standing(request) {
            Standing::Absent => Decision::Build,
            _ => Decision::Refuse(AcquireError::Occupied),
        }),
{
}

/// Giving a claim up takes the slot of its identity away, where it has one, and
/// changes nothing else.
pub proof fn abandoning_removes_the_slot<P>(domain: DomainView<P>, claim: ClaimView)
    requires
        domain.wf(),
        domain.pending(claim),
    ensures
        ({
            let next = domain.abandon(claim);
            &&& same_course(domain, next)
            &&& next.tasks == domain.tasks
            &&& next.grants == domain.grants
            &&& same_live(domain, next)
            &&& forall|resource_type: u64, key: u64| #[trigger]
                slot_of(next, resource_type, key) == (if resource_type == claim.resource_type && (
                claim.place matches Some(place) && place.key == key) {
                    None
                } else {
                    slot_of(domain, resource_type, key)
                })
        }),
{
    let next = domain.abandon(claim);
    let registry = domain.registry(claim.resource_type);
    assert(registry.wf());
    assert forall|resource_type: u64, key: u64| #[trigger]
        slot_of(next, resource_type, key) == (if resource_type == claim.resource_type && (
        claim.place matches Some(place) && place.key == key) {
            None
        } else {
            slot_of(domain, resource_type, key)
        }) by {
        if resource_type == claim.resource_type && claim.place is Some
            && registry.entries.contains_key(key) && key != claim.place->0.key {
            assert(registry.entries.contains_key(claim.place->0.key));
            assert(registry.entries[key] != registry.entries[claim.place->0.key]);
        }
    }
}

/// The end of a supervised task makes its generation finished, without leases,
/// with its token and whether that was cancelled as they were. The generation is
/// not listed as live any more, and its slot goes away exactly where it stands
/// there itself. No other task, slot or live generation is touched, and the task
/// stays supervised. The end of any other task changes nothing.
pub proof fn finishing_ends_one_generation<P>(domain: DomainView<P>, task: u64)
    requires
        domain.wf(),
    ensures
        ({
            let next = domain.finish(task);
            let claim = domain.tasks[task].claim;
            if domain.tasks.contains_key(task) {
                &&& same_course(domain, next)
                &&& next.grants == domain.grants
                &&& same_tasks_but(domain, next, task)
                &&& next.tasks.contains_key(task)
                &&& next.tasks[task].claim == claim
                &&& next.tasks[task].handle == domain.tasks[task].handle
                &&& next.tasks[task].control.phase == Phase::Finished
                &&& next.tasks[task].control.leases == 0
                &&& next.tasks[task].control.token == domain.tasks[task].control.token
                &&& next.tasks[task].control.cancelled == domain.tasks[task].control.cancelled
                &&& forall|resource_type: u64, generation: u64| #[trigger]
                    live_of(next, resource_type, generation) == (if resource_type
                        == claim.resource_type && generation == claim.generation {
                        None
                    } else {
                        live_of(domain, resource_type, generation)
                    })
                &&& forall|resource_type: u64, key: u64|
                    match slot_of(domain, resource_type, key) {
                        Some(RegistrySlotState::Active { entry, .. }) => #[trigger]
                            slot_of(next, resource_type, key) == (if entry == task {
                                None
                            } else {
                                slot_of(domain, resource_type, key)
                            }),
                        Some(RegistrySlotState::Starting { .. }) => slot_of(
                            next,
                            resource_type,
                            key,
                        ) == slot_of(domain, resource_type, key),
                        Some(RegistrySlotState::Vacant) => slot_of(next, resource_type, key) is None
                            || slot_of(next, resource_type, key) == slot_of(
                            domain,
                            resource_type,
                            key,
                        ),
                        None => slot_of(next, resource_type, key) is None,
                    }
            } else {
                next == domain
            }
        }),
{
    if domain.tasks.contains_key(task) {
        let next = domain.finish(task);
        let claim = domain.tasks[task].claim;
        assert(domain.task_ok(task));
        let registry = domain.registry(claim.resource_type);
        assert(registry.wf());
        assert forall|resource_type: u64, key: u64|
            match slot_of(domain, resource_type, key) {
                Some(RegistrySlotState::Active { entry, .. }) => #[trigger]
                    slot_of(next, resource_type, key) == (if entry == task {
                        None
                    } else {
                        slot_of(domain, resource_type, key)
                    }),
                Some(RegistrySlotState::Starting { .. }) => slot_of(next, resource_type, key)
                    == slot_of(domain, resource_type, key),
                Some(RegistrySlotState::Vacant) => slot_of(next, resource_type, key) is None
                    || slot_of(next, resource_type, key) == slot_of(domain, resource_type, key),
                None => slot_of(next, resource_type, key) is None,
            } by {
            if slot_of(domain, resource_type, key) is Some {
                assert(domain.registry(resource_type).entries.contains_key(key));
                assert(domain.slot_ok(resource_type, key));
                if claim.place is Some && resource_type == claim.resource_type
                    && registry.entries.contains_key(claim.place->0.key) {
                    assert(domain.slot_ok(claim.resource_type, claim.place->0.key));
                    if key != claim.place->0.key {
                        assert(registry.entries[key] != registry.entries[claim.place->0.key]);
                    }
                }
            }
        }
    }
}

/// A task that leaves the supervisor is supervised no more, and that is all; but
/// where the domain was shut down and it was the last one, the domain has
/// terminated.
pub proof fn leaving_removes_one_task<P>(domain: DomainView<P>, task: u64)
    ensures
        ({
            let next = domain.task_finished(task);
            &&& !next.tasks.contains_key(task)
            &&& same_tasks_but(domain, next, task)
            &&& next.registries == domain.registries
            &&& next.token == domain.token
            &&& next.signal == domain.signal
            &&& next.next_task == domain.next_task
            &&& next.next_generation == domain.next_generation
            &&& next.grants == domain.grants
            &&& runs(next) == runs(domain)
            &&& !runs(domain) && (forall|other: u64| !next.tasks.contains_key(other))
                ==> next.phase == DomainPhase::Terminated && domain.quiescent_without(task)
            &&& runs(domain) || (exists|other: u64| #[trigger] next.tasks.contains_key(other))
                ==> next.phase == domain.phase && !domain.quiescent_without(task)
        }),
{
    let next = domain.task_finished(task);
    if forall|other: u64| !next.tasks.contains_key(other) {
        assert(next.tasks.dom() =~= Set::empty());
    }
}

/// Shutting a domain down that has not terminated tells its token, cancels each
/// task that serves and leaves every other one and every lease as they were; it
/// has terminated exactly where no task is left. No slot, no live generation and
/// no number changes.
pub proof fn shutdown_cancels_what_serves<P>(domain: DomainView<P>, task: u64)
    requires
        domain.wf(),
    ensures
        ({
            let next = domain.cancel();
            &&& !runs(next)
            &&& next.signal == Signal::Sent
            &&& next.token == domain.token
            &&& next.registries == domain.registries
            &&& next.next_task == domain.next_task
            &&& next.next_generation == domain.next_generation
            &&& next.grants == domain.grants
            &&& next.tasks.contains_key(task) == domain.tasks.contains_key(task)
            &&& (next.phase == DomainPhase::Terminated) == (forall|other: u64|
                !domain.tasks.contains_key(other))
            &&& domain.tasks.contains_key(task) ==> {
                let before = domain.tasks[task];
                let after = next.tasks[task];
                &&& after.claim == before.claim
                &&& after.handle == before.handle
                &&& after.control.token == before.control.token
                &&& after.control.leases == before.control.leases
                &&& after.control.phase == (if before.control.phase == Phase::Active {
                    Phase::Cancelling
                } else {
                    before.control.phase
                })
                &&& after.control.cancelled == (before.control.cancelled || before.control.phase
                    == Phase::Active)
            }
        }),
{
    domain.cancel_keeps_wf();
    if forall|other: u64| !domain.tasks.contains_key(other) {
        assert(domain.tasks.dom() =~= Set::empty());
    }
    if domain.tasks.is_empty() {
        assert(forall|other: u64| !domain.tasks.dom().contains(other));
    } else {
        let some = domain.tasks.dom().choose();
        assert(domain.tasks.contains_key(some)) by {
            if forall|other: u64| !domain.tasks.contains_key(other) {
                assert(domain.tasks.dom() =~= Set::empty());
            }
        }
    }
    if domain.tasks.contains_key(task) {
        assert(domain.task_ok(task));
    }
}

/// What happens to a generation changes its phase and its leases in one way. It
/// is active only once it was activated; leases are granted to others only while
/// it is active and to clones until it has ended; each release takes one; and
/// cancellation, asked for or because the last lease went, is requested of a
/// generation that was not cancelled and has not ended.
pub proof fn controls_change_in_one_way(control: ControlView, token: Seq<int>, cancelled: bool)
    ensures
        ({
            let fresh = ControlView::fresh(token, cancelled);
            &&& fresh.phase == Phase::Starting
            &&& fresh.leases == 1
            &&& fresh.token == token
            &&& fresh.cancelled == cancelled
        }),
        ({
            let next = control.activate();
            &&& next.phase == (if control.phase == Phase::Starting {
                Phase::Active
            } else {
                control.phase
            })
            &&& next.leases == control.leases
            &&& next.token == control.token
            &&& next.cancelled == control.cancelled
        }),
        ({
            let next = control.acquire();
            &&& next.phase == control.phase
            &&& next.leases == control.leases + (if control.phase == Phase::Active {
                1int
            } else {
                0
            })
            &&& next.token == control.token
            &&& next.cancelled == control.cancelled
        }),
        ({
            let next = control.clone_lease();
            &&& next.phase == control.phase
            &&& next.leases == control.leases + (if control.phase == Phase::Finished {
                0int
            } else {
                1
            })
            &&& next.token == control.token
            &&& next.cancelled == control.cancelled
        }),
        ({
            let next = control.cancel();
            let runs = control.phase == Phase::Starting || control.phase == Phase::Active;
            &&& next.phase == (if runs {
                Phase::Cancelling
            } else {
                control.phase
            })
            &&& next.leases == control.leases
            &&& next.token == control.token
            &&& next.cancelled == (control.cancelled || runs)
        }),
        ({
            let next = control.release();
            let runs = control.phase == Phase::Starting || control.phase == Phase::Active;
            let last = control.leases <= 1;
            &&& next.phase == (if runs && last {
                Phase::Cancelling
            } else {
                control.phase
            })
            &&& control.phase != Phase::Finished ==> next.leases == (if control.leases == 0 {
                0int
            } else {
                control.leases - 1
            })
            &&& control.phase == Phase::Finished ==> next.leases == control.leases
            &&& next.token == control.token
            &&& next.cancelled == (control.cancelled || (runs && last))
        }),
        ({
            let next = control.finish();
            &&& next.phase == Phase::Finished
            &&& next.leases == 0
            &&& next.token == control.token
            &&& next.cancelled == control.cancelled
        }),
{
}

/// What a registry does to its slots and its live generations. A key gets a slot
/// once; a slot is given up exactly where the key still has it and it stands for
/// the generation on whose behalf it is given up, or for none, or where no
/// generation is named; and only what is named changes.
pub proof fn registries_change_what_is_named(
    registry: RegistryView,
    key: u64,
    slot: u64,
    generation: u64,
    state: RegistrySlotState,
    other: u64,
)
    ensures
        ({
            let next = registry.slot_or_insert(key, generation);
            &&& next.entries.contains_key(key)
            &&& next.entries[key] == registry.slot_for(key, generation)
            &&& registry.entries.contains_key(key) ==> next == registry
                && registry.slot_for(key, generation) == registry.entries[key]
            &&& !registry.entries.contains_key(key) ==> {
                &&& registry.slot_for(key, generation) == generation
                &&& next.slots.contains_key(generation)
                &&& next.slots[generation] == (RegistrySlotState::Starting { generation })
                &&& other != key ==> next.entries.get(other) == registry.entries.get(other)
                &&& other != generation ==> next.slots.get(other) == registry.slots.get(other)
                &&& next.live == registry.live
            }
        }),
        ({
            let next = registry.set_state(slot, state);
            &&& next.slots.contains_key(slot) && next.slots[slot] == state
            &&& other != slot ==> next.slots.get(other) == registry.slots.get(other)
            &&& next.entries == registry.entries
            &&& next.live == registry.live
        }),
        ({
            let own = match registry.slots[slot] {
                RegistrySlotState::Vacant => true,
                RegistrySlotState::Starting { generation: present } => present == generation,
                RegistrySlotState::Active { generation: present, .. } => present == generation,
            };
            let placed = registry.entries.contains_key(key) && registry.entries[key] == slot;
            let next = registry.remove_slot(key, slot, Some(generation));
            let any = registry.remove_slot(key, slot, None);
            &&& !(placed && own) ==> next == registry
            &&& placed && own ==> !next.entries.contains_key(key) && !next.slots.contains_key(slot)
            &&& !placed ==> any == registry
            &&& placed ==> !any.entries.contains_key(key) && !any.slots.contains_key(slot)
            &&& other != key ==> next.entries.get(other) == registry.entries.get(other)
                && any.entries.get(other) == registry.entries.get(other)
            &&& other != slot ==> next.slots.get(other) == registry.slots.get(other)
                && any.slots.get(other) == registry.slots.get(other)
            &&& next.live == registry.live && any.live == registry.live
            &&& registry.slots[slot].stands_for(generation) == own
        }),
        ({
            let more = registry.insert_live(generation, other);
            let less = registry.remove_live(generation);
            &&& more.live.contains_key(generation) && more.live[generation] == other
            &&& !less.live.contains_key(generation)
            &&& other != generation ==> more.live.get(other) == registry.live.get(other)
                && less.live.get(other) == registry.live.get(other)
            &&& more.entries == registry.entries && more.slots == registry.slots
            &&& less.entries == registry.entries && less.slots == registry.slots
        }),
        registry.state(key) == (if registry.entries.contains_key(key) {
            Some(registry.slots[registry.entries[key]])
        } else {
            None
        }),
{
}

/// The way a task ended and its outcome tell each other: nothing that returned
/// an error, panicked or was terminated is reported as completed, and the error
/// or the message is the one that came.
pub proof fn outcomes_tell_how_tasks_ended<E>(exit: TaskExit<E>)
    ensures
        match ResourceOutcome::spec_from_exit(exit) {
            ResourceOutcome::Completed => exit matches TaskExit::Returned(Ok(_)),
            ResourceOutcome::Failed(error) => exit matches TaskExit::Returned(Err(returned))
                && *error == returned,
            ResourceOutcome::Panicked(message) => exit matches TaskExit::Panicked(text) && text
                == message,
            ResourceOutcome::Aborted => exit matches TaskExit::Terminated,
        },
{
}

/// A root resource succeeds exactly where it completed, and else fails with what
/// its outcome says.
pub proof fn roots_succeed_where_they_complete<E>(outcome: ResourceOutcome<E>)
    ensures
        match RunError::spec_from_outcome(outcome) {
            Ok(_) => outcome is Completed,
            Err(RunError::Acquire(_)) => false,
            Err(RunError::Resource(error)) => outcome matches ResourceOutcome::Failed(failure)
                && failure == error,
            Err(RunError::Panicked(message)) => outcome matches ResourceOutcome::Panicked(text)
                && text == message,
            Err(RunError::Aborted) => outcome is Aborted,
        },
{
}

/// The texts of failures. The text of a root task's own error stands for itself,
/// and a panic's message follows what is said of it.
pub proof fn failures_have_texts<E>(
    error: AcquireError,
    own: std::sync::Arc<E>,
    message: std::sync::Arc<str>,
    rendered: Seq<char>,
)
    ensures
        AcquireError::Occupied.spec_message()
            == "the canonical resource is already live or starting"@,
        AcquireError::ShuttingDown.spec_message() == "the resource domain is shutting down"@,
        AcquireError::ConstructionPanicked.spec_message() == "resource construction panicked"@,
        RunError::<E>::Acquire(error).spec_message(rendered) == error.spec_message(),
        RunError::<E>::Resource(own).spec_message(rendered) == rendered,
        RunError::<E>::Panicked(message).spec_message(rendered) == "root resource panicked: "@ + (
        *message)@,
        RunError::<E>::Aborted.spec_message(rendered) == "root resource was aborted"@,
{
}

/// The message of a panic is its payload, where that is text: a string slice
/// goes before a string.
pub proof fn panics_tell_their_payload(slice: &str, string: &String)
    ensures
        spec_panic_message(Some(slice), None) == slice@,
        spec_panic_message(Some(slice), Some(string)) == slice@,
        spec_panic_message(None, Some(string)) == string@,
        spec_panic_message(None, None) == "resource task panicked"@,
{
}

/// An observer learns exactly what was published of its task, and that the task
/// was aborted only where nothing was and nothing can be. Publishing settles the
/// outcome of a task that has none, and changes no other and none that is
/// settled.
pub proof fn observers_learn_what_was_published<E>(
    outcomes: Map<u64, ResourceOutcome<E>>,
    task: u64,
    outcome: ResourceOutcome<E>,
    other: u64,
    closed: bool,
)
    ensures
        outcomes.contains_key(task) ==> observed(outcomes.get(task), closed) == Some(
            outcomes[task],
        ),
        !outcomes.contains_key(task) ==> observed(outcomes.get(task), closed) == (if closed {
            Some(ResourceOutcome::<E>::Aborted)
        } else {
            None
        }),
        published(outcomes, task, outcome).get(task) == (if outcomes.contains_key(task) {
            outcomes.get(task)
        } else {
            Some(outcome)
        }),
        other != task ==> published(outcomes, task, outcome).get(other) == outcomes.get(other),
{
}

/// Numbering keys: a key that has a number keeps it, one that has none gets the
/// next one, and only the key that is named changes. A number that was given is
/// never given again.
pub proof fn numbers_are_given_once<K>(table: KeyTableView<K>, key: K, other: K)
    requires
        table.wf(),
        table.next < u64::MAX,
    ensures
        ({
            let next = table.with_key(key);
            &&& next.numbers.contains_key(key)
            &&& next.numbers[key] == table.number_of(key)
            &&& table.numbers.contains_key(key) ==> table.number_of(key) == table.numbers[key]
                && next.next == table.next
            &&& !table.numbers.contains_key(key) ==> table.number_of(key) == table.next
                && next.next == table.next + 1
            &&& other != key ==> next.numbers.get(other) == table.numbers.get(other)
            &&& next.resource_type == table.resource_type
        }),
        ({
            let next = table.without_key(key);
            &&& !next.numbers.contains_key(key)
            &&& other != key ==> next.numbers.get(other) == table.numbers.get(other)
            &&& next.next == table.next
            &&& next.resource_type == table.resource_type
        }),
        table.numbers.contains_key(other) ==> table.numbers[other] < table.next,
        table.numbers.contains_key(key) && table.numbers.contains_key(other) && key != other
            ==> table.numbers[key] != table.numbers[other],
{
}

/// A context says to stop exactly where its generation or its domain is known to
/// be cancelled.
pub proof fn contexts_stop_with_either(context: ContextView)
    ensures
        context.stops() == (context.cancelled || context.shutdown || context.seen),
{
}

/// A token that was derived from another is another token, and descends from it
/// alone.
pub proof fn derived_tokens_are_their_own(child: Seq<int>, parent: Seq<int>, other: Seq<int>)
    requires
        derived(child, parent),
    ensures
        child != parent,
        parent.is_prefix_of(child),
        derived(child, other) ==> other == parent,
        !derived(parent, child),
{
}

/// What tells that a token is cancelled tells of that token, and of nothing where
/// none is.
pub proof fn cancelling_is_told_of(token: Seq<int>, number: int)
    ensures
        told(token, true).contains(number) == (number == token.last()),
        !told(token, false).contains(number),
{
}

/// A list of a map holds each of its keys once, with its value, and nothing
/// else; and what counts its keys is their number.
pub proof fn lists_hold_each_key_once(
    pairs: Seq<(u64, u64)>,
    numbers: Map<u64, u64>,
    key: u64,
    i: int,
    j: int,
    len: nat,
)
    requires
        lists(pairs, numbers),
        counts(len, numbers),
        0 <= i < pairs.len(),
        0 <= j < pairs.len(),
    ensures
        numbers.contains_key(pairs[i].0),
        numbers[pairs[i].0] == pairs[i].1,
        pairs[i].0 == pairs[j].0 ==> i == j,
        numbers.contains_key(key) ==> exists|k: int|
            0 <= k < pairs.len() && #[trigger] pairs[k] == (key, numbers[key]),
        numbers.dom().finite(),
        numbers.dom().len() == len,
{
    if numbers.contains_key(key) {
        assert(pairs.contains((key, numbers[key])));
    }
}

} // verus!
