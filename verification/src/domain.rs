//! A domain: the registries of its resource types, the supervisor of its
//! tasks, and its shutdown.

use crate::lifecycle::{Control, Phase};
use crate::model::{ClaimView, DomainPhase, DomainView, Place, TaskView};
use crate::reference::ResourceRef;
use crate::registry::{Registry, RegistrySlotState};
use crate::signal::{
    cancel_token, cancelled, child_token, clone_token, derived, lineage, new_token, same_token,
    signal,
};
use crate::table::{contents, lists, lookup_or_store, new_table};
use dashmap::DashMap;
use std::collections::HashMap;
use std::hash::RandomState;
use tokio_util::sync::CancellationToken;
use vstd::prelude::*;

verus! {

broadcast use vstd::std_specs::hash::group_hash_axioms;

/// The right to construct one generation. It is settled by establishing the
/// generation or by giving it up.
pub struct Claim {
    resource_type: u64,
    generation: u64,
    place: Option<Place>,
}

impl View for Claim {
    type V = ClaimView;

    closed spec fn view(&self) -> ClaimView {
        ClaimView {
            resource_type: self.resource_type,
            generation: self.generation,
            place: self.place,
        }
    }
}

/// A task under supervision.
pub struct ManagedTask<P> {
    control: Control,
    claim: Claim,
    handle: P,
}

impl<P> View for ManagedTask<P> {
    type V = TaskView<P>;

    closed spec fn view(&self) -> TaskView<P> {
        TaskView { control: self.control@, claim: self.claim@, handle: self.handle }
    }
}

impl Claim {
    /// The resource type of the generation.
    pub fn resource_type(&self) -> (resource_type: u64)
        ensures
            resource_type == self@.resource_type,
        opens_invariants none
    {
        self.resource_type
    }

    /// The number of the generation in its domain.
    pub fn generation(&self) -> (generation: u64)
        ensures
            generation == self@.generation,
        opens_invariants none
    {
        self.generation
    }

    /// The place of the generation, where it has a canonical identity.
    pub fn place(&self) -> (place: Option<Place>)
        ensures
            place == self@.place,
        opens_invariants none
    {
        self.place
    }
}

impl<P> ManagedTask<P> {
    /// A task that is to be supervised.
    pub(crate) fn new(control: Control, claim: Claim, handle: P) -> (task: Self)
        ensures
            task@ == (TaskView { control: control@, claim: claim@, handle }),
    {
        ManagedTask { control, claim, handle }
    }

    /// The parts of a task that is not supervised.
    pub(crate) fn into_parts(self) -> (parts: (Control, Claim, P))
        ensures
            self@ == (TaskView { control: parts.0@, claim: parts.1@, handle: parts.2 }),
    {
        (self.control, self.claim, self.handle)
    }
}

struct Supervisor<P> {
    next_task: u64,
    tasks: HashMap<u64, ManagedTask<P>>,
}

/// One isolated resource domain. `P` is what the embedding program keeps to
/// reach a task.
pub struct Domain<P> {
    registries: DashMap<u64, u64, RandomState>,
    tables: Vec<Registry>,
    phase: DomainPhase,
    supervisor: Supervisor<P>,
    next_generation: u64,
    grants: u64,
    shutdown: CancellationToken,
}

impl<P> View for Domain<P> {
    type V = DomainView<P>;

    closed spec fn view(&self) -> DomainView<P> {
        DomainView {
            phase: self.phase,
            token: lineage(self.shutdown),
            signal: signal(self.shutdown),
            registries: Map::new(
                |resource_type: u64| contents(self.registries).contains_key(resource_type),
                |resource_type: u64|
                    self.tables@[contents(self.registries)[resource_type] as int]@,
            ),
            tasks: self.supervisor.tasks@.map_values(|task: ManagedTask<P>| task@),
            next_task: self.supervisor.next_task as nat,
            next_generation: self.next_generation as nat,
            grants: self.grants as nat,
        }
    }
}

impl<P> Domain<P> {
    /// Whether every resource type has a table of its own.
    pub closed spec fn tables_ok(&self) -> bool {
        &&& forall|resource_type: u64| #[trigger]
            contents(self.registries).contains_key(resource_type) ==> contents(
                self.registries,
            )[resource_type] < self.tables@.len()
        &&& forall|a: u64, b: u64|
            (#[trigger] contents(self.registries).contains_key(a)) && (#[trigger] contents(
                self.registries,
            ).contains_key(b)) && contents(self.registries)[a] == contents(self.registries)[b]
                ==> a == b
    }

    /// What holds of every domain.
    pub open spec fn wf(&self) -> bool {
        &&& self.tables_ok()
        &&& self@.wf()
    }

    /// A new, isolated domain.
    pub fn new() -> (domain: Self)
        ensures
            domain@ == DomainView::<P>::fresh(domain@.token),
            domain@.token.len() == 1,
            domain.wf(),
    {
        let domain = Domain {
            registries: new_table(),
            tables: Vec::new(),
            phase: DomainPhase::Running,
            supervisor: Supervisor { next_task: 0, tasks: HashMap::new() },
            next_generation: 0,
            grants: 0,
            shutdown: new_token(),
        };
        assert(domain@ =~= DomainView::<P>::fresh(domain@.token));
        domain
    }

    /// The registry of a resource type, after an empty one was made if there
    /// was none.
    pub fn registry(&mut self, resource_type: u64) -> (registry: &mut Registry)
        requires
            old(self).tables_ok(),
        ensures
            registry@ == old(self)@.registry(resource_type),
            final(self)@ == old(self)@.set_registry(resource_type, final(registry)@),
            final(self).tables_ok(),
    {
        let fresh = self.tables.len();
        let index = lookup_or_store(&mut self.registries, resource_type, fresh as u64) as usize;
        if index == fresh {
            self.tables.push(Registry::default());
        }
        &mut self.tables[index]
    }

    /// Whether the domain accepts work.
    pub fn is_accepting(&self) -> (accepting: bool)
        ensures
            accepting == self@.accepting(),
        opens_invariants none
    {
        self.phase == DomainPhase::Running
    }

    /// Whether the domain has terminated: it accepts no work and has no task
    /// left.
    pub fn is_terminated(&self) -> (terminated: bool)
        ensures
            terminated == (self@.phase == DomainPhase::Terminated),
        opens_invariants none
    {
        self.phase == DomainPhase::Terminated
    }

    /// Whether the numbers of generations have not run out.
    pub fn can_claim(&self) -> (room: bool)
        ensures
            room == self@.can_claim(),
        opens_invariants none
    {
        self.next_generation < u64::MAX
    }

    /// Whether the count of granting operations has not run out.
    pub fn can_grant(&self) -> (room: bool)
        ensures
            room == self@.can_grant(),
        opens_invariants none
    {
        self.grants < u64::MAX
    }

    /// Whether the numbers of tasks have not run out, nor the count of granting
    /// operations.
    pub fn can_establish(&self) -> (room: bool)
        ensures
            room == self@.can_establish(),
        opens_invariants none
    {
        self.supervisor.next_task < u64::MAX && self.can_grant()
    }

    /// How many tasks are supervised.
    pub fn active_tasks(&self) -> (tasks: usize)
        ensures
            tasks == self@.tasks.dom().len(),
            self@.tasks.dom().finite(),
    {
        assert(self@.tasks.dom() =~= self.supervisor.tasks@.dom());
        self.supervisor.tasks.len()
    }

    /// A token of its own that is cancelled when the domain shuts down, and can
    /// be cancelled alone.
    pub fn child_token(&self) -> (token: CancellationToken)
        ensures
            derived(lineage(token), self@.token),
            signal(token) == self@.signal,
        opens_invariants none
    {
        child_token(&self.shutdown)
    }

    /// A handle on the token that is cancelled when the domain shuts down.
    pub fn shutdown_token(&self) -> (token: CancellationToken)
        ensures
            lineage(token) == self@.token,
            signal(token) == self@.signal,
        opens_invariants none
    {
        clone_token(&self.shutdown)
    }

    /// Whether a token is the one that is cancelled when the domain shuts down.
    pub fn shuts_down_through(&self, token: &CancellationToken) -> (same: bool)
        ensures
            same == (lineage(*token) == self@.token),
        opens_invariants none
    {
        same_token(token, &self.shutdown)
    }

    /// Takes a task under supervision, if the domain accepts work and the
    /// task's generation is starting, and makes the generation active. Else
    /// hands the task back.
    pub(crate) fn register(&mut self, task: ManagedTask<P>) -> (registered: Result<
        u64,
        ManagedTask<P>,
    >)
        requires
            old(self).tables_ok(),
            old(self)@.can_establish(),
        ensures
            final(self).tables_ok(),
            registered is Ok == (old(self)@.accepting() && task@.control.phase == Phase::Starting),
            match registered {
                Ok(id) => {
                    &&& id == old(self)@.next_task
                    &&& final(self)@ == (DomainView {
                        tasks: old(self)@.tasks.insert(
                            id,
                            TaskView { control: task@.control.activate(), ..task@ },
                        ),
                        next_task: old(self)@.next_task + 1,
                        grants: old(self)@.grants + 1,
                        ..old(self)@
                    })
                },
                Err(refused) => refused@ == task@ && final(self)@ == old(self)@,
            },
    {
        let mut task = task;
        if !self.is_accepting() || !task.control.activate() {
            return Err(task);
        }
        let ghost before = self@;
        let id = self.supervisor.next_task;
        self.supervisor.next_task = id + 1;
        self.grants = self.grants + 1;
        self.supervisor.tasks.insert(id, task);
        assert(self@.tasks =~= before.tasks.insert(id, task@));
        assert(self@.registries =~= before.registries);
        Ok(id)
    }

    /// Lets a task that has ended leave the supervisor. The last one to leave
    /// a domain that accepts no work terminates it: then whoever waits for
    /// that is to be told, and the answer is `true`. No other task is touched.
    pub fn task_finished(&mut self, id: u64) -> (quiescent: bool)
        requires
            old(self).tables_ok(),
        ensures
            final(self)@ == old(self)@.task_finished(id),
            final(self).tables_ok(),
            old(self).wf() && old(self)@.may_leave(id) ==> final(self).wf(),
            quiescent == old(self)@.quiescent_without(id),
    {
        let ghost before = self@;
        self.supervisor.tasks.remove(&id);
        assert(self@.tasks =~= before.tasks.remove(id));
        assert(self@.registries =~= before.registries);
        assert(self@.tasks.dom() =~= self.supervisor.tasks@.dom());
        let quiescent = !self.is_accepting() && self.supervisor.tasks.is_empty();
        if quiescent {
            self.phase = DomainPhase::Terminated;
        }
        proof {
            assert(self@ =~= before.task_finished(id));
            if before.wf() && before.may_leave(id) {
                before.task_finished_keeps_wf(id);
            }
        }
        quiescent
    }

    /// Takes a lease on a task's generation on behalf of a registry or a weak
    /// reference, if the domain accepts work and the generation is active, and
    /// says whether it did.
    pub(crate) fn try_acquire(&mut self, id: u64) -> (acquired: bool)
        requires
            old(self).wf(),
            old(self)@.can_grant(),
        ensures
            acquired == old(self)@.grants_lease(id),
            final(self)@ == old(self)@.acquire(id),
            final(self).wf(),
    {
        let ghost before = self@;
        let mut acquired = false;
        if self.is_accepting() {
            if let Some(task) = self.supervisor.tasks.remove(&id) {
                let mut task = task;
                assert(before.tasks.contains_key(id));
                assert(before.task_ok(id));
                acquired = task.control.acquire();
                self.supervisor.tasks.insert(id, task);
                if acquired {
                    self.grants = self.grants + 1;
                }
            }
        }
        proof {
            assert(self@.tasks =~= before.acquire(id).tasks);
            assert(self@.registries =~= before.registries);
            before.acquire_keeps_wf(id);
        }
        acquired
    }

    /// Takes a lease on a task's generation on behalf of a reference that is
    /// being cloned.
    pub(crate) fn clone_lease(&mut self, id: u64)
        requires
            old(self).wf(),
            old(self)@.can_grant(),
        ensures
            final(self)@ == old(self)@.clone_lease(id),
            final(self).wf(),
    {
        let ghost before = self@;
        if let Some(task) = self.supervisor.tasks.remove(&id) {
            let mut task = task;
            assert(before.tasks.contains_key(id));
            assert(before.task_ok(id));
            task.control.clone_lease();
            self.supervisor.tasks.insert(id, task);
            self.grants = self.grants + 1;
        }
        proof {
            assert(self@.tasks =~= before.clone_lease(id).tasks);
            assert(self@.registries =~= before.registries);
            before.clone_lease_keeps_wf(id);
        }
    }

    /// Gives a lease on a task's generation back.
    pub(crate) fn release(&mut self, id: u64)
        requires
            old(self).wf(),
        ensures
            final(self)@ == old(self)@.release(id),
            final(self).wf(),
    {
        let ghost before = self@;
        if let Some(task) = self.supervisor.tasks.remove(&id) {
            let mut task = task;
            task.control.release();
            self.supervisor.tasks.insert(id, task);
        }
        proof {
            assert(self@.tasks =~= before.release(id).tasks);
            assert(self@.registries =~= before.registries);
            before.release_keeps_wf(id);
        }
    }

    /// The numbers of the supervised tasks, in no particular order.
    fn task_ids(&self) -> (ids: Vec<u64>)
        ensures
            ids@.no_duplicates(),
            ids@.to_set() == self@.tasks.dom(),
    {
        let mut ids: Vec<u64> = Vec::new();
        assert(self@.tasks.dom() =~= self.supervisor.tasks@.dom());
        for id in keys: self.supervisor.tasks.keys()
            invariant
                ids@ == keys.seq().take(keys.index()).unref(),
                keys.seq().unref().to_set() == self.supervisor.tasks@.dom(),
                keys.index() == keys.seq().len() ==> ids@ =~= keys.seq().unref(),
        {
            ids.push(*id);
        }
        ids
    }

    /// Shuts the domain down: it accepts no more work, and every generation is
    /// cancelled. Where no task was left, the domain terminates: then whoever
    /// waits for that is to be told, and the answer is `true`.
    pub fn cancel(&mut self) -> (quiescent: bool)
        requires
            old(self).wf(),
        ensures
            final(self)@ == old(self)@.cancel(),
            final(self).wf(),
            quiescent == (old(self)@.phase != DomainPhase::Terminated
                && old(self)@.tasks.is_empty()),
    {
        let ghost before = self@;
        if self.phase == DomainPhase::Running {
            self.phase = DomainPhase::ShuttingDown;
            cancel_token(&mut self.shutdown);
        }
        if self.phase == DomainPhase::Terminated {
            return false;
        }
        let quiescent = self.supervisor.tasks.is_empty();
        assert(self@.tasks.dom() =~= self.supervisor.tasks@.dom());
        if quiescent {
            self.phase = DomainPhase::Terminated;
        }
        let ids = self.task_ids();
        let ghost started = *self;
        let mut next: usize = 0;
        while next < ids.len()
            invariant
                next <= ids.len(),
                ids@.no_duplicates(),
                self.supervisor.tasks@.dom() == ids@.to_set(),
                before.tasks.dom() == ids@.to_set(),
                forall|i: int|
                    0 <= i < ids.len() ==> self@.tasks[#[trigger] ids@[i]] == (if i < next {
                        TaskView {
                            control: before.tasks[ids@[i]].control.cancel(),
                            ..before.tasks[ids@[i]]
                        }
                    } else {
                        before.tasks[ids@[i]]
                    }),
                *self == (Domain {
                    supervisor: Supervisor {
                        tasks: self.supervisor.tasks,
                        ..started.supervisor
                    },
                    ..started
                }),
            decreases ids.len() - next,
        {
            let id = ids[next];
            if let Some(task) = self.supervisor.tasks.remove(&id) {
                let mut task = task;
                task.control.cancel();
                self.supervisor.tasks.insert(id, task);
            }
            next = next + 1;
        }
        proof {
            assert(self@ =~= before.cancel());
            before.cancel_keeps_wf();
        }
        quiescent
    }

    /// Shuts the domain down and names the tasks that are to be aborted: all
    /// that are left. Where no task was left, the domain terminates, as
    /// [`Domain::cancel`] says.
    pub fn terminate(&mut self) -> (aborts: (Vec<u64>, bool))
        requires
            old(self).wf(),
        ensures
            final(self)@ == old(self)@.cancel(),
            final(self).wf(),
            aborts.0@.no_duplicates(),
            aborts.0@.to_set() == old(self)@.tasks.dom(),
            aborts.1 == (old(self)@.phase != DomainPhase::Terminated
                && old(self)@.tasks.is_empty()),
    {
        let quiescent = self.cancel();
        assert(self@.tasks.dom() =~= old(self)@.tasks.dom());
        (self.task_ids(), quiescent)
    }

    /// Shuts the domain down and says whether it has terminated. Until it has,
    /// a caller that waits for that asks again after each task that ends.
    pub fn shutdown(&mut self) -> (terminated: bool)
        requires
            old(self).wf(),
        ensures
            final(self)@ == old(self)@.cancel(),
            final(self).wf(),
            terminated == (old(self)@.tasks.is_empty()),
    {
        self.cancel();
        self.is_terminated()
    }

    /// Claims the next generation, without a canonical identity.
    pub(crate) fn claim_unique(&mut self, resource_type: u64) -> (claim: Claim)
        requires
            old(self).wf(),
            old(self)@.can_claim(),
        ensures
            claim@ == old(self)@.unique_claim(resource_type),
            final(self)@ == old(self)@.claim_unique(),
            final(self).wf(),
            final(self)@.pending(claim@),
    {
        let ghost before = self@;
        let generation = self.next_generation;
        self.next_generation = generation + 1;
        proof {
            assert(self@ =~= before.claim_unique());
            before.claim_unique_keeps_wf(resource_type);
        }
        Claim { resource_type, generation, place: None }
    }

    /// Claims the next generation for a canonical identity.
    pub(crate) fn claim_slot(&mut self, resource_type: u64, key: u64) -> (claim: Claim)
        requires
            old(self).wf(),
            old(self)@.can_claim(),
            old(self)@.claimable(resource_type, key),
        ensures
            claim@ == old(self)@.slot_claim(resource_type, key),
            final(self)@ == old(self)@.claim_slot(resource_type, key),
            final(self).wf(),
            final(self)@.pending(claim@),
    {
        let ghost before = self@;
        proof {
            before.next_generation_has_no_slot(resource_type);
            before.claim_slot_keeps_wf(resource_type, key);
        }
        let generation = self.next_generation;
        let registry = self.registry(resource_type);
        let (slot, _) = registry.slot_or_insert(key, generation);
        registry.set_state(slot, RegistrySlotState::Starting { generation });
        self.next_generation = generation + 1;
        assert(self@ =~= before.claim_slot(resource_type, key));
        Claim { resource_type, generation, place: Some(Place { key, slot }) }
    }

    /// Records that a task has ended, and says what its generation was.
    pub(crate) fn finish_control(&mut self, id: u64) -> (claim: Option<
        (u64, u64, Option<Place>),
    >)
        requires
            old(self).tables_ok(),
        ensures
            final(self).tables_ok(),
            match claim {
                Some((resource_type, generation, place)) => {
                    &&& old(self)@.tasks.contains_key(id)
                    &&& old(self)@.tasks[id].claim == (ClaimView {
                        resource_type,
                        generation,
                        place,
                    })
                    &&& final(self)@ == old(self)@.with_control(
                        id,
                        old(self)@.tasks[id].control.finish(),
                    )
                },
                None => !old(self)@.tasks.contains_key(id) && final(self)@ == old(self)@,
            },
    {
        let ghost before = self@;
        match self.supervisor.tasks.remove(&id) {
            Some(task) => {
                let mut task = task;
                task.control.finish();
                let claim = Some(
                    (task.claim.resource_type, task.claim.generation, task.claim.place),
                );
                self.supervisor.tasks.insert(id, task);
                assert(self@ =~= before.with_control(id, before.tasks[id].control.finish()));
                claim
            },
            None => {
                assert(self@ =~= before);
                None
            },
        }
    }

    /// How far the generation of a supervised task has come.
    pub fn task_phase(&self, id: u64) -> (phase: Option<Phase>)
        ensures
            phase == (if self@.tasks.contains_key(id) {
                Some(self@.tasks[id].control.phase)
            } else {
                None
            }),
    {
        match self.supervisor.tasks.get(&id) {
            Some(task) => Some(task.control.phase()),
            None => None,
        }
    }

    /// How many strong references hold the generation of a task: none once the
    /// task has left the supervisor.
    pub fn leases(&self, id: u64) -> (leases: u64)
        ensures
            leases == (if self@.tasks.contains_key(id) {
                self@.tasks[id].control.leases
            } else {
                0
            }),
    {
        match self.supervisor.tasks.get(&id) {
            Some(task) => task.control.leases(),
            None => 0,
        }
    }

    /// What the supervisor was given to reach a task.
    pub fn handle(&self, id: u64) -> (handle: Option<&P>)
        ensures
            match handle {
                Some(handle) => self@.tasks.contains_key(id) && *handle == self@.tasks[id].handle,
                None => !self@.tasks.contains_key(id),
            },
    {
        match self.supervisor.tasks.get(&id) {
            Some(task) => Some(&task.handle),
            None => None,
        }
    }

    /// A handle on the token that is cancelled with the generation of a
    /// supervised task.
    pub fn cancellation(&self, id: u64) -> (token: Option<CancellationToken>)
        ensures
            match token {
                Some(token) => {
                    &&& self@.tasks.contains_key(id)
                    &&& lineage(token) == self@.tasks[id].control.token
                    &&& cancelled(token) == self@.tasks[id].control.cancelled
                },
                None => !self@.tasks.contains_key(id),
            },
    {
        match self.supervisor.tasks.get(&id) {
            Some(task) => Some(task.control.cancellation()),
            None => None,
        }
    }

    /// What stands under a key of a resource type, where it has a slot.
    pub fn state(&mut self, resource_type: u64, key: u64) -> (state: Option<RegistrySlotState>)
        requires
            old(self).wf(),
        ensures
            state == old(self)@.state(resource_type, key),
            final(self)@ == old(self)@.with_registry(resource_type),
            final(self).wf(),
    {
        proof {
            self@.with_registry_keeps_wf(resource_type);
            assert(self@.registry(resource_type).wf());
        }
        let registry = self.registry(resource_type);
        registry.state(key)
    }

    /// Takes a lease on every active generation of a resource type, in no
    /// particular order.
    pub(crate) fn acquire_all(&mut self, resource_type: u64) -> (acquired: Vec<ResourceRef>)
        requires
            old(self).wf(),
            old(self)@.can_grant(),
            old(self)@.accepting(),
        ensures
            final(self)@ == old(self)@.acquire_all(resource_type),
            final(self).wf(),
            leases_all(acquired@, old(self)@, resource_type),
    {
        let ghost before = self@;
        proof {
            before.with_registry_keeps_wf(resource_type);
            before.acquire_all_keeps_wf(resource_type);
        }
        let pairs = self.registry(resource_type).live_snapshot();
        let ghost live = before.registry(resource_type).live;
        let ghost started = *self;
        assert(started@ == before.with_registry(resource_type));
        proof {
            assert forall|i: int| 0 <= i < pairs@.len() implies before.tasks.contains_key(
                (#[trigger] pairs@[i]).1,
            ) && before.tasks[pairs@[i].1].claim.generation == pairs@[i].0
                && before.tasks[pairs@[i].1].claim.resource_type == resource_type
                && before.task_ok(pairs@[i].1) by {
                assert(before.registry(resource_type).live.contains_key(pairs@[i].0));
                assert(before.live_ok(resource_type, pairs@[i].0));
            }
        }
        let mut acquired: Vec<ResourceRef> = Vec::new();
        let ghost mut done: Set<u64> = Set::empty();
        let mut next: usize = 0;
        while next < pairs.len()
            invariant
                next <= pairs.len(),
                lists(pairs@, live),
                before.grants < u64::MAX,
                started@ == before.with_registry(resource_type),
                forall|i: int|
                    0 <= i < pairs@.len() ==> before.tasks.contains_key((#[trigger] pairs@[i]).1)
                        && before.tasks[pairs@[i].1].claim.generation == pairs@[i].0
                        && before.tasks[pairs@[i].1].claim.resource_type == resource_type
                        && before.task_ok(pairs@[i].1),
                forall|i: int| 0 <= i < next ==> done.contains((#[trigger] pairs@[i]).1),
                forall|task: u64| #[trigger]
                    done.contains(task) ==> before.tasks.contains_key(task) && pairs@.take(
                        next as int,
                    ).contains((before.tasks[task].claim.generation, task)),
                self@.tasks.dom() == before.tasks.dom(),
                forall|task: u64| #[trigger]
                    before.tasks.contains_key(task) ==> self@.tasks[task] == (if done.contains(task)
                        && before.is_active_of(resource_type, task) {
                        TaskView {
                            control: before.tasks[task].control.acquire(),
                            ..before.tasks[task]
                        }
                    } else {
                        before.tasks[task]
                    }),
                *self == (Domain {
                    supervisor: Supervisor {
                        tasks: self.supervisor.tasks,
                        ..started.supervisor
                    },
                    ..started
                }),
                forall|i: int|
                    0 <= i < acquired@.len() ==> done.contains((#[trigger] acquired@[i])@.task)
                        && before.is_active_of(resource_type, acquired@[i]@.task)
                        && before.tasks[acquired@[i]@.task].claim.generation
                        == acquired@[i]@.generation,
                forall|i: int, j: int|
                    0 <= i < j < acquired@.len() ==> (#[trigger] acquired@[i])@.task != (
                    #[trigger] acquired@[j])@.task,
                forall|task: u64| #[trigger]
                    done.contains(task) && before.is_active_of(resource_type, task) ==> exists|
                        i: int,
                    |
                        0 <= i < acquired@.len() && (#[trigger] acquired@[i])@.task == task,
            decreases pairs.len() - next,
        {
            let (generation, id) = pairs[next];
            assert(pairs@[next as int] == (generation, id));
            assert(!done.contains(id)) by {
                if done.contains(id) {
                    let taken = pairs@.take(next as int);
                    let i = choose|i: int|
                        0 <= i < taken.len() && taken[i] == (
                            before.tasks[id].claim.generation,
                            id,
                        );
                    assert(pairs@[i].0 == generation);
                }
            }
            assert(self@.tasks.contains_key(id));
            let ghost earlier = acquired@;
            let mut granted = false;
            if let Some(task) = self.supervisor.tasks.remove(&id) {
                let mut task = task;
                granted = task.control.acquire();
                self.supervisor.tasks.insert(id, task);
            }
            if granted {
                acquired.push(ResourceRef::new(generation, id));
            }
            proof {
                assert(pairs@.take(next + 1) =~= pairs@.take(next as int).push((generation, id)));
                assert(pairs@.take(next + 1)[next as int] == (generation, id));
                assert forall|task: u64| #[trigger] done.contains(task) implies pairs@.take(
                    next + 1,
                ).contains((before.tasks[task].claim.generation, task)) by {
                    let i = choose|i: int|
                        0 <= i < next && pairs@.take(next as int)[i] == (
                            before.tasks[task].claim.generation,
                            task,
                        );
                    assert(pairs@.take(next + 1)[i] == pairs@.take(next as int)[i]);
                }
                assert forall|task: u64| #[trigger] done.insert(id).contains(task)
                    && before.is_active_of(resource_type, task) implies exists|i: int|
                    0 <= i < acquired@.len() && (#[trigger] acquired@[i])@.task == task by {
                    if task == id {
                        assert(acquired@[acquired@.len() - 1]@.task == id);
                    } else {
                        let i = choose|i: int|
                            0 <= i < earlier.len() && (#[trigger] earlier[i])@.task == task;
                        assert(acquired@[i]@.task == task);
                    }
                }
                done = done.insert(id);
            }
            assert(self@.tasks.dom() =~= before.tasks.dom());
            next = next + 1;
        }
        self.grants = self.grants + 1;
        proof {
            assert forall|task: u64| before.is_active_of(resource_type, task) implies
                done.contains(task) by {
                assert(before.task_ok(task));
                let pair = (before.tasks[task].claim.generation, task);
                assert(live.contains_key(pair.0));
                let i = choose|i: int| 0 <= i < pairs@.len() && pairs@[i] == pair;
                assert(pairs@[i].1 == task);
            }
            assert(self@.tasks =~= before.acquire_all(resource_type).tasks);
            assert(self@ =~= before.acquire_all(resource_type));
        }
        acquired
    }
}

/// Whether `references` hold one lease each on the active generations of a
/// resource type: on all of them, in some order, and on no others.
pub open spec fn leases_all<P>(
    references: Seq<ResourceRef>,
    domain: DomainView<P>,
    resource_type: u64,
) -> bool {
    &&& forall|i: int|
        0 <= i < references.len() ==> {
            let task = (#[trigger] references[i])@.task;
            &&& domain.is_active_of(resource_type, task)
            &&& domain.tasks[task].claim.generation == references[i]@.generation
        }
    &&& forall|i: int, j: int|
        0 <= i < j < references.len() ==> (#[trigger] references[i])@.task != (
        #[trigger] references[j])@.task
    &&& forall|task: u64| #[trigger]
        domain.is_active_of(resource_type, task) ==> exists|i: int|
            0 <= i < references.len() && (#[trigger] references[i])@.task == task
}

} // verus!
