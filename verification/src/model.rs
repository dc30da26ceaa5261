//! A domain as a value: what its operations do to it, and what they keep.

use crate::lifecycle::{ControlView, Phase};
use crate::registry::{RegistrySlotState, RegistryView};
use crate::signal::Signal;
use vstd::prelude::*;

verus! {

/// Whether a domain accepts work.
#[derive(Clone, Copy, Debug, PartialEq, Eq, Structural)]
pub enum DomainPhase {
    /// It does.
    Running,
    /// It does not, and waits for its tasks to end.
    ShuttingDown,
    /// It does not, and has no task left.
    Terminated,
}

/// Where a canonical generation stands in its registry.
#[derive(Clone, Copy, Debug, PartialEq, Eq, Structural)]
pub struct Place {
    /// The number of its key.
    pub key: u64,
    /// The slot of that key.
    pub slot: u64,
}

/// What a generation is: its resource type, its own number and, where its
/// identity is canonical, its place.
pub struct ClaimView {
    /// The resource type.
    pub resource_type: u64,
    /// The number of the generation in its domain.
    pub generation: u64,
    /// Its place, where it has a canonical identity.
    pub place: Option<Place>,
}

impl ClaimView {
    /// Whether the generation has a canonical identity with this key.
    pub open spec fn stands_under(self, key: u64) -> bool {
        self.place matches Some(place) && place.key == key
    }
}

/// A supervised task as a value.
pub struct TaskView<P> {
    /// The lifecycle of the generation that the task backs.
    pub control: ControlView,
    /// What that generation is.
    pub claim: ClaimView,
    /// What the supervisor was given to reach the task.
    pub handle: P,
}

/// A domain as a value.
#[verifier::ext_equal]
pub struct DomainView<P> {
    /// Whether the domain accepts work.
    pub phase: DomainPhase,
    /// The lineage of the token that tells its tasks that it does not.
    pub token: Seq<int>,
    /// Whether they were told through it.
    pub signal: Signal,
    /// The registry of each resource type that was asked for.
    pub registries: Map<u64, RegistryView>,
    /// The supervised tasks.
    pub tasks: Map<u64, TaskView<P>>,
    /// The number of the next task.
    pub next_task: nat,
    /// The number of the next generation.
    pub next_generation: nat,
    /// How many operations have granted leases. None grants a generation more
    /// than one.
    pub grants: nat,
}

impl<P> DomainView<P> {
    /// A new domain that is shut down through a token.
    pub open spec fn fresh(token: Seq<int>) -> DomainView<P> {
        DomainView {
            phase: DomainPhase::Running,
            token,
            signal: Signal::Open,
            registries: Map::empty(),
            tasks: Map::empty(),
            next_task: 0,
            next_generation: 0,
            grants: 0,
        }
    }

    /// Whether the domain accepts work.
    pub open spec fn accepting(self) -> bool {
        self.phase == DomainPhase::Running
    }

    /// Whether the tasks were told that the domain shuts down.
    pub open spec fn shutdown(self) -> bool {
        self.signal is Sent
    }

    /// Whether the numbers of generations have not run out.
    pub open spec fn can_claim(self) -> bool {
        self.next_generation < u64::MAX
    }

    /// Whether the count of granting operations has not run out.
    pub open spec fn can_grant(self) -> bool {
        self.grants < u64::MAX
    }

    /// Whether the numbers of tasks have not run out, nor the count of granting
    /// operations: a task starts with a lease.
    pub open spec fn can_establish(self) -> bool {
        self.next_task < u64::MAX && self.can_grant()
    }

    /// The registry of a resource type: empty until it is asked for.
    pub open spec fn registry(self, resource_type: u64) -> RegistryView {
        if self.registries.contains_key(resource_type) {
            self.registries[resource_type]
        } else {
            RegistryView::empty()
        }
    }

    /// The domain with another registry for a resource type.
    pub open spec fn set_registry(self, resource_type: u64, registry: RegistryView) -> DomainView<
        P,
    > {
        DomainView { registries: self.registries.insert(resource_type, registry), ..self }
    }

    /// The domain once the registry of a resource type was asked for.
    pub open spec fn with_registry(self, resource_type: u64) -> DomainView<P> {
        self.set_registry(resource_type, self.registry(resource_type))
    }

    /// What stands under a key of a resource type.
    pub open spec fn state(self, resource_type: u64, key: u64) -> Option<RegistrySlotState> {
        self.registry(resource_type).state(key)
    }

    /// The generation that is under construction for a canonical identity.
    pub open spec fn building(self, resource_type: u64, key: u64) -> Option<u64> {
        match self.state(resource_type, key) {
            Some(RegistrySlotState::Starting { generation }) => Some(generation),
            _ => None,
        }
    }

    /// Whether a task is supervised and its generation is active.
    pub open spec fn is_active(self, task: u64) -> bool {
        self.tasks.contains_key(task) && self.tasks[task].control.phase == Phase::Active
    }

    /// Whether a registry or a weak reference gets a lease on a task's
    /// generation.
    pub open spec fn grants_lease(self, task: u64) -> bool {
        self.accepting() && self.is_active(task)
    }

    /// The domain with another lifecycle for a task's generation.
    pub open spec fn with_control(self, task: u64, control: ControlView) -> DomainView<P> {
        DomainView {
            tasks: self.tasks.insert(task, TaskView { control, ..self.tasks[task] }),
            ..self
        }
    }

    /// A registry or a weak reference asks for a lease.
    pub open spec fn acquire(self, task: u64) -> DomainView<P> {
        if self.grants_lease(task) {
            DomainView {
                grants: self.grants + 1,
                ..self.with_control(task, self.tasks[task].control.acquire())
            }
        } else {
            self
        }
    }

    /// A strong reference is cloned. It is no acquisition: the domain need not
    /// accept work.
    pub open spec fn clone_lease(self, task: u64) -> DomainView<P> {
        if self.tasks.contains_key(task) {
            DomainView {
                grants: self.grants + 1,
                ..self.with_control(task, self.tasks[task].control.clone_lease())
            }
        } else {
            self
        }
    }

    /// A strong reference is dropped.
    pub open spec fn release(self, task: u64) -> DomainView<P> {
        if self.tasks.contains_key(task) {
            self.with_control(task, self.tasks[task].control.release())
        } else {
            self
        }
    }

    /// Whether a task's generation is active and of a resource type.
    pub open spec fn is_active_of(self, resource_type: u64, task: u64) -> bool {
        self.is_active(task) && self.tasks[task].claim.resource_type == resource_type
    }

    /// Every active generation of a resource type gets one more lease.
    pub open spec fn acquire_all(self, resource_type: u64) -> DomainView<P> {
        if self.accepting() {
            DomainView {
                grants: self.grants + 1,
                tasks: Map::new(
                    |task: u64| self.tasks.contains_key(task),
                    |task: u64|
                        if self.is_active_of(resource_type, task) {
                            TaskView {
                                control: self.tasks[task].control.acquire(),
                                ..self.tasks[task]
                            }
                        } else {
                            self.tasks[task]
                        },
                ),
                ..self.with_registry(resource_type)
            }
        } else {
            self
        }
    }

    /// What the next generation is, where it has no canonical identity.
    pub open spec fn unique_claim(self, resource_type: u64) -> ClaimView {
        ClaimView { resource_type, generation: self.next_generation as u64, place: None }
    }

    /// The next generation is claimed, without a canonical identity.
    pub open spec fn claim_unique(self) -> DomainView<P> {
        DomainView { next_generation: self.next_generation + 1, ..self }
    }

    /// What the next generation is, where it has a canonical identity.
    pub open spec fn slot_claim(self, resource_type: u64, key: u64) -> ClaimView {
        let generation = self.next_generation as u64;
        ClaimView {
            resource_type,
            generation,
            place: Some(
                Place { key, slot: self.registry(resource_type).slot_for(key, generation) },
            ),
        }
    }

    /// The next generation is claimed for a canonical identity.
    pub open spec fn claim_slot(self, resource_type: u64, key: u64) -> DomainView<P> {
        let generation = self.next_generation as u64;
        let registry = self.registry(resource_type);
        DomainView {
            next_generation: self.next_generation + 1,
            ..self.set_registry(
                resource_type,
                registry.slot_or_insert(key, generation).set_state(
                    registry.slot_for(key, generation),
                    RegistrySlotState::Starting { generation },
                ),
            )
        }
    }

    /// Whether a claim is still to be settled: its generation is under
    /// construction.
    pub open spec fn pending(self, claim: ClaimView) -> bool {
        &&& claim.generation < self.next_generation
        &&& forall|task: u64| #[trigger]
            self.tasks.contains_key(task) ==> self.tasks[task].claim.generation
                != claim.generation
        &&& forall|resource_type: u64, key: u64|
            (#[trigger] self.building(resource_type, key)) == Some(claim.generation)
                ==> resource_type == claim.resource_type && claim.stands_under(key)
        &&& claim.place matches Some(place) ==> {
            let registry = self.registry(claim.resource_type);
            &&& registry.entries.contains_key(place.key)
            &&& registry.entries[place.key] == place.slot
            &&& registry.slots[place.slot] == (RegistrySlotState::Starting {
                generation: claim.generation,
            })
        }
    }

    /// A claimed generation is established: its task is supervised and, where
    /// its identity is canonical, it stands in its slot.
    pub open spec fn establish(
        self,
        claim: ClaimView,
        control: ControlView,
        handle: P,
    ) -> DomainView<P> {
        let task = self.next_task as u64;
        let live = self.registry(claim.resource_type).insert_live(claim.generation, task);
        DomainView {
            tasks: self.tasks.insert(
                task,
                TaskView { control: control.activate(), claim, handle },
            ),
            next_task: self.next_task + 1,
            grants: self.grants + 1,
            ..self.set_registry(
                claim.resource_type,
                match claim.place {
                    Some(place) => live.set_state(
                        place.slot,
                        RegistrySlotState::Active { generation: claim.generation, entry: task },
                    ),
                    None => live,
                },
            )
        }
    }

    /// A claimed generation is given up: its identity has no slot any more.
    pub open spec fn abandon(self, claim: ClaimView) -> DomainView<P> {
        match claim.place {
            Some(place) => self.set_registry(
                claim.resource_type,
                self.registry(claim.resource_type).set_state(
                    place.slot,
                    RegistrySlotState::Vacant,
                ).remove_slot(place.key, place.slot, Some(claim.generation)),
            ),
            None => self,
        }
    }

    /// A task has ended: its generation is finished, is not live any more and
    /// gives its slot up, if the slot is still its own.
    pub open spec fn finish(self, task: u64) -> DomainView<P> {
        if self.tasks.contains_key(task) {
            let claim = self.tasks[task].claim;
            let registry = self.registry(claim.resource_type).remove_live(claim.generation);
            self.with_control(task, self.tasks[task].control.finish()).set_registry(
                claim.resource_type,
                match claim.place {
                    Some(place) => registry.remove_slot(
                        place.key,
                        place.slot,
                        Some(claim.generation),
                    ),
                    None => registry,
                },
            )
        } else {
            self
        }
    }

    /// Whether a task may leave the supervisor.
    pub open spec fn may_leave(self, task: u64) -> bool {
        self.tasks.contains_key(task) ==> self.tasks[task].control.phase == Phase::Finished
    }

    /// Whether the domain is quiescent once a task left the supervisor.
    pub open spec fn quiescent_without(self, task: u64) -> bool {
        !self.accepting() && self.tasks.remove(task).is_empty()
    }

    /// A task leaves the supervisor. The last one to leave a domain that does
    /// not accept work terminates it.
    pub open spec fn task_finished(self, task: u64) -> DomainView<P> {
        DomainView {
            phase: if self.quiescent_without(task) {
                DomainPhase::Terminated
            } else {
                self.phase
            },
            tasks: self.tasks.remove(task),
            ..self
        }
    }

    /// The domain is shut down: it accepts no more work, and every generation
    /// is cancelled.
    pub open spec fn cancel(self) -> DomainView<P> {
        if self.phase == DomainPhase::Terminated {
            self
        } else {
            DomainView {
                phase: if self.tasks.is_empty() {
                    DomainPhase::Terminated
                } else {
                    DomainPhase::ShuttingDown
                },
                signal: Signal::Sent,
                tasks: self.tasks.map_values(
                    |task: TaskView<P>| TaskView { control: task.control.cancel(), ..task },
                ),
                ..self
            }
        }
    }
}

impl<P> DomainView<P> {
    /// What holds of every supervised task.
    pub open spec fn task_ok(self, task: u64) -> bool {
        let control = self.tasks[task].control;
        let claim = self.tasks[task].claim;
        let registry = self.registry(claim.resource_type);
        &&& task < self.next_task
        &&& claim.generation < self.next_generation
        &&& control.wf()
        &&& control.leases <= self.grants
        &&& control.phase != Phase::Starting
        &&& control.phase == Phase::Active ==> self.accepting()
        &&& control.phase != Phase::Finished ==> registry.live.contains_key(claim.generation)
            && registry.live[claim.generation] == task
        &&& control.phase == Phase::Active ==> (claim.place matches Some(place) ==> {
            &&& registry.entries.contains_key(place.key)
            &&& registry.entries[place.key] == place.slot
            &&& registry.slots[place.slot] == (RegistrySlotState::Active {
                generation: claim.generation,
                entry: task,
            })
        })
    }

    /// What holds of every slot.
    pub open spec fn slot_ok(self, resource_type: u64, key: u64) -> bool {
        let registry = self.registry(resource_type);
        let slot = registry.entries[key];
        &&& slot < self.next_generation
        &&& match registry.slots[slot] {
            RegistrySlotState::Vacant => true,
            RegistrySlotState::Starting { generation } => {
                &&& generation < self.next_generation
                &&& forall|task: u64| #[trigger]
                    self.tasks.contains_key(task) ==> self.tasks[task].claim.generation
                        != generation
            },
            RegistrySlotState::Active { generation, entry } => {
                &&& self.tasks.contains_key(entry)
                &&& self.tasks[entry].claim == (ClaimView {
                    resource_type,
                    generation,
                    place: Some(Place { key, slot }),
                })
                &&& self.tasks[entry].control.phase != Phase::Finished
            },
        }
    }

    /// What holds of every live generation.
    pub open spec fn live_ok(self, resource_type: u64, generation: u64) -> bool {
        let task = self.registry(resource_type).live[generation];
        &&& self.tasks.contains_key(task)
        &&& self.tasks[task].claim.generation == generation
        &&& self.tasks[task].claim.resource_type == resource_type
        &&& self.tasks[task].control.phase != Phase::Finished
    }

    /// What holds of a domain's phase: its tasks were told of a shutdown, it
    /// shuts down as long as it has tasks, and it is terminated when it has
    /// none.
    pub open spec fn phase_ok(self) -> bool {
        &&& self.signal == (if self.accepting() {
            Signal::Open
        } else {
            Signal::Sent
        })
        &&& self.phase == DomainPhase::ShuttingDown ==> !self.tasks.is_empty()
        &&& self.phase == DomainPhase::Terminated ==> self.tasks.is_empty()
    }

    /// No two tasks back the same generation.
    pub open spec fn generations_distinct(self) -> bool {
        forall|a: u64, b: u64|
            (#[trigger] self.tasks.contains_key(a)) && (#[trigger] self.tasks.contains_key(b))
                && self.tasks[a].claim.generation == self.tasks[b].claim.generation ==> a == b
    }

    /// No generation is under construction for two identities.
    pub open spec fn buildings_distinct(self) -> bool {
        forall|t: u64, k: u64, u: u64, l: u64|
            (#[trigger] self.building(t, k)) is Some && (#[trigger] self.building(u, l))
                == self.building(t, k) ==> t == u && k == l
    }

    /// What holds of every domain.
    pub open spec fn wf(self) -> bool {
        &&& self.phase_ok()
        &&& self.next_task <= u64::MAX
        &&& self.next_generation <= u64::MAX
        &&& forall|resource_type: u64| (#[trigger] self.registry(resource_type)).wf()
        &&& forall|task: u64| #[trigger] self.tasks.contains_key(task) ==> self.task_ok(task)
        &&& forall|resource_type: u64, key: u64| #[trigger]
            self.registry(resource_type).entries.contains_key(key) ==> self.slot_ok(
                resource_type,
                key,
            )
        &&& forall|resource_type: u64, generation: u64| #[trigger]
            self.registry(resource_type).live.contains_key(generation) ==> self.live_ok(
                resource_type,
                generation,
            )
        &&& self.generations_distinct()
        &&& self.buildings_distinct()
    }
}

} // verus!
