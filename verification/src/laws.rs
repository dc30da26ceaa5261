//! What every operation on a domain keeps.

use crate::lifecycle::{ControlView, Phase};
use crate::model::{ClaimView, DomainPhase, DomainView};
use crate::registry::RegistrySlotState;
use vstd::prelude::*;

verus! {

impl<P> DomainView<P> {
    /// Whether another domain differs in nothing but the lifecycles of its
    /// generations, none of which was made active or finished, in how many
    /// leases were granted, and in registries that were asked for.
    pub open spec fn controls_changed(self, next: DomainView<P>) -> bool {
        &&& forall|resource_type: u64| #[trigger]
            next.registry(resource_type) == self.registry(resource_type)
        &&& next.next_task == self.next_task
        &&& next.next_generation == self.next_generation
        &&& next.tasks.dom() == self.tasks.dom()
        &&& forall|task: u64| #[trigger]
            self.tasks.contains_key(task) ==> {
                let before = self.tasks[task];
                let after = next.tasks[task];
                &&& after.claim == before.claim
                &&& after.control.wf()
                &&& after.control.phase != Phase::Starting
                &&& after.control.leases <= next.grants
                &&& after.control.phase == Phase::Active ==> before.control.phase == Phase::Active
                    && next.accepting()
                &&& after.control.phase == Phase::Finished <==> before.control.phase
                    == Phase::Finished
            }
    }

    /// Changing lifecycles alone keeps what holds of every domain, and every
    /// claim that was to be settled.
    pub proof fn controls_changed_keeps_wf(self, next: DomainView<P>)
        requires
            self.wf(),
            self.controls_changed(next),
            next.phase_ok(),
        ensures
            next.wf(),
            forall|claim: ClaimView| #[trigger] self.pending(claim) ==> next.pending(claim),
    {
        assert forall|task: u64| #[trigger] next.tasks.contains_key(task) implies next.task_ok(
            task,
        ) by {
            assert(self.tasks.contains_key(task));
            assert(self.task_ok(task));
        }
        assert forall|resource_type: u64, key: u64| #[trigger]
            next.registry(resource_type).entries.contains_key(key) implies next.slot_ok(
            resource_type,
            key,
        ) by {
            assert(self.registry(resource_type).entries.contains_key(key));
            assert(self.slot_ok(resource_type, key));
            assert forall|task: u64| #[trigger] next.tasks.contains_key(
                task,
            ) implies next.tasks[task].claim == self.tasks[task].claim by {
                assert(self.tasks.contains_key(task));
            }
        }
        assert forall|resource_type: u64, generation: u64| #[trigger]
            next.registry(resource_type).live.contains_key(generation) implies next.live_ok(
            resource_type,
            generation,
        ) by {
            assert(self.registry(resource_type).live.contains_key(generation));
            assert(self.live_ok(resource_type, generation));
        }
        assert forall|a: u64, b: u64|
            (#[trigger] next.tasks.contains_key(a)) && (#[trigger] next.tasks.contains_key(b))
                && next.tasks[a].claim.generation == next.tasks[b].claim.generation implies a
            == b by {
            assert(self.tasks.contains_key(a) && self.tasks.contains_key(b));
        }
        assert forall|t: u64, k: u64| #[trigger] next.building(t, k) == self.building(t, k) by {}
        assert forall|claim: ClaimView| #[trigger] self.pending(claim) implies next.pending(
            claim,
        ) by {
            assert forall|task: u64| #[trigger] next.tasks.contains_key(
                task,
            ) implies next.tasks[task].claim.generation != claim.generation by {
                assert(self.tasks.contains_key(task));
            }
        }
    }

    /// Asking for a registry changes none of them.
    pub proof fn with_registry_keeps_wf(self, resource_type: u64)
        requires
            self.wf(),
        ensures
            self.with_registry(resource_type).wf(),
            forall|claim: ClaimView| #[trigger]
                self.pending(claim) ==> self.with_registry(resource_type).pending(claim),
    {
        let next = self.with_registry(resource_type);
        assert forall|other: u64| #[trigger] next.registry(other) == self.registry(other) by {}
        assert forall|task: u64| #[trigger] self.tasks.contains_key(task) implies self.task_ok(
            task,
        ) by {}
        self.controls_changed_keeps_wf(next);
    }

    /// Taking a lease keeps what holds of every domain.
    pub proof fn acquire_keeps_wf(self, task: u64)
        requires
            self.wf(),
        ensures
            self.acquire(task).wf(),
            forall|claim: ClaimView| #[trigger]
                self.pending(claim) ==> self.acquire(task).pending(claim),
    {
        let next = self.acquire(task);
        if self.grants_lease(task) {
            assert(next.tasks.dom() =~= self.tasks.dom());
            assert forall|t: u64| #[trigger] self.tasks.contains_key(t) implies self.task_ok(
                t,
            ) by {}
            assert forall|other: u64| #[trigger] next.registry(other) == self.registry(
                other,
            ) by {}
            self.controls_changed_keeps_wf(next);
        }
    }

    /// Cloning a reference keeps what holds of every domain.
    pub proof fn clone_lease_keeps_wf(self, task: u64)
        requires
            self.wf(),
        ensures
            self.clone_lease(task).wf(),
            forall|claim: ClaimView| #[trigger]
                self.pending(claim) ==> self.clone_lease(task).pending(claim),
    {
        let next = self.clone_lease(task);
        if self.tasks.contains_key(task) {
            assert(next.tasks.dom() =~= self.tasks.dom());
            assert forall|t: u64| #[trigger] self.tasks.contains_key(t) implies self.task_ok(
                t,
            ) by {}
            assert forall|other: u64| #[trigger] next.registry(other) == self.registry(
                other,
            ) by {}
            self.controls_changed_keeps_wf(next);
        }
    }

    /// Dropping a reference keeps what holds of every domain.
    pub proof fn release_keeps_wf(self, task: u64)
        requires
            self.wf(),
        ensures
            self.release(task).wf(),
            forall|claim: ClaimView| #[trigger]
                self.pending(claim) ==> self.release(task).pending(claim),
    {
        let next = self.release(task);
        if self.tasks.contains_key(task) {
            assert(next.tasks.dom() =~= self.tasks.dom());
            assert forall|t: u64| #[trigger] self.tasks.contains_key(t) implies self.task_ok(
                t,
            ) by {}
            assert forall|other: u64| #[trigger] next.registry(other) == self.registry(
                other,
            ) by {}
            self.controls_changed_keeps_wf(next);
        }
    }

    /// Taking a lease on every active generation of a type keeps what holds of
    /// every domain.
    pub proof fn acquire_all_keeps_wf(self, resource_type: u64)
        requires
            self.wf(),
        ensures
            self.acquire_all(resource_type).wf(),
            forall|claim: ClaimView| #[trigger]
                self.pending(claim) ==> self.acquire_all(resource_type).pending(claim),
    {
        let next = self.acquire_all(resource_type);
        if self.accepting() {
            assert(next.tasks.dom() =~= self.tasks.dom());
            assert forall|t: u64| #[trigger] self.tasks.contains_key(t) implies self.task_ok(
                t,
            ) by {}
            assert forall|other: u64| #[trigger] next.registry(other) == self.registry(
                other,
            ) by {}
            self.controls_changed_keeps_wf(next);
        }
    }

    /// Shutting the domain down keeps what holds of every domain.
    pub proof fn cancel_keeps_wf(self)
        requires
            self.wf(),
        ensures
            self.cancel().wf(),
            forall|claim: ClaimView| #[trigger]
                self.pending(claim) ==> self.cancel().pending(claim),
    {
        let next = self.cancel();
        if self.phase != DomainPhase::Terminated {
            assert(next.tasks.dom() =~= self.tasks.dom());
            assert forall|t: u64| #[trigger] self.tasks.contains_key(t) implies self.task_ok(
                t,
            ) by {}
            assert forall|other: u64| #[trigger] next.registry(other) == self.registry(
                other,
            ) by {}
            self.controls_changed_keeps_wf(next);
        }
    }

    /// Whether a canonical identity is free for another generation: nobody is
    /// constructing one and none is active.
    pub open spec fn claimable(self, resource_type: u64, key: u64) -> bool {
        match self.state(resource_type, key) {
            None => true,
            Some(RegistrySlotState::Vacant) => true,
            Some(RegistrySlotState::Starting { .. }) => false,
            Some(RegistrySlotState::Active { entry, .. }) => !self.is_active(entry),
        }
    }

    /// Claiming a generation without a canonical identity keeps what holds of
    /// every domain, and leaves the new claim to be settled.
    pub proof fn claim_unique_keeps_wf(self, resource_type: u64)
        requires
            self.wf(),
            self.next_generation < u64::MAX,
        ensures
            self.claim_unique().wf(),
            self.claim_unique().pending(self.unique_claim(resource_type)),
            forall|claim: ClaimView| #[trigger]
                self.pending(claim) ==> self.claim_unique().pending(claim) && claim.generation
                    != self.unique_claim(resource_type).generation,
    {
        let next = self.claim_unique();
        assert forall|other: u64| #[trigger] next.registry(other) == self.registry(other) by {}
        assert forall|t: u64| #[trigger] next.tasks.contains_key(t) implies next.task_ok(t) by {
            assert(self.task_ok(t));
        }
        assert forall|t: u64, k: u64| #[trigger]
            next.registry(t).entries.contains_key(k) implies next.slot_ok(t, k) by {
            assert(self.registry(t).entries.contains_key(k));
            assert(self.slot_ok(t, k));
        }
        assert forall|t: u64, g: u64| #[trigger]
            next.registry(t).live.contains_key(g) implies next.live_ok(t, g) by {
            assert(self.registry(t).live.contains_key(g));
            assert(self.live_ok(t, g));
        }
        assert forall|t: u64, k: u64| #[trigger] next.building(t, k) == self.building(t, k) by {}
    }

    /// No slot has the number of a generation that was not claimed yet.
    pub proof fn next_generation_has_no_slot(self, resource_type: u64)
        requires
            self.wf(),
        ensures
            forall|slot: u64| #[trigger]
                self.registry(resource_type).slots.contains_key(slot) ==> slot
                    < self.next_generation,
    {
        let registry = self.registry(resource_type);
        assert(registry.wf());
        assert forall|slot: u64| #[trigger] registry.slots.contains_key(slot) implies slot
            < self.next_generation by {
            let k = choose|k: u64| registry.entries.contains_key(k) && registry.entries[k] == slot;
            assert(self.registry(resource_type).entries.contains_key(k));
            assert(self.slot_ok(resource_type, k));
        }
    }

    /// Claiming a generation for a free canonical identity keeps what holds of
    /// every domain, and leaves the new claim to be settled.
    pub proof fn claim_slot_keeps_wf(self, resource_type: u64, key: u64)
        requires
            self.wf(),
            self.next_generation < u64::MAX,
            self.claimable(resource_type, key),
        ensures
            self.claim_slot(resource_type, key).wf(),
            self.claim_slot(resource_type, key).pending(self.slot_claim(resource_type, key)),
            forall|claim: ClaimView| #[trigger]
                self.pending(claim) ==> self.claim_slot(resource_type, key).pending(claim)
                    && claim.generation != self.slot_claim(resource_type, key).generation,
    {
        let next = self.claim_slot(resource_type, key);
        let generation = self.next_generation as u64;
        let before = self.registry(resource_type);
        let slot = before.slot_for(key, generation);
        let after = next.registry(resource_type);
        assert(before.wf());
        self.next_generation_has_no_slot(resource_type);
        before.slot_or_insert_keeps_wf(key, generation);
        before.slot_or_insert(key, generation).set_state_keeps_wf(
            slot,
            RegistrySlotState::Starting { generation },
        );
        assert forall|other: u64| other != resource_type implies #[trigger] next.registry(other)
            == self.registry(other) by {}
        assert forall|other: u64| (#[trigger] next.registry(other)).wf() by {}
        assert(after.live == before.live);
        assert(after.entries.contains_key(key) && after.entries[key] == slot);
        assert forall|k: u64| k != key && #[trigger] after.entries.contains_key(
            k,
        ) implies before.entries.contains_key(k) && after.entries[k] == before.entries[k]
            && after.slots[after.entries[k]] == before.slots[before.entries[k]] by {
            assert(before.slots.contains_key(before.entries[k]));
        }
        assert forall|t: u64| #[trigger] next.tasks.contains_key(t) implies next.task_ok(t) by {
            assert(self.task_ok(t));
            let claim = self.tasks[t].claim;
            if claim.resource_type == resource_type && claim.place is Some
                && self.tasks[t].control.phase == Phase::Active {
                let place = claim.place->0;
                assert(place.key != key);
                assert(after.entries.contains_key(place.key));
            }
        }
        assert forall|t: u64, k: u64| #[trigger]
            next.registry(t).entries.contains_key(k) implies next.slot_ok(t, k) by {
            if t == resource_type && k == key {
                assert forall|u: u64| #[trigger] next.tasks.contains_key(
                    u,
                ) implies next.tasks[u].claim.generation != generation by {
                    assert(self.task_ok(u));
                }
            } else {
                assert(self.registry(t).entries.contains_key(k));
                assert(self.slot_ok(t, k));
            }
        }
        assert forall|t: u64, g: u64| #[trigger]
            next.registry(t).live.contains_key(g) implies next.live_ok(t, g) by {
            assert(self.registry(t).live.contains_key(g));
            assert(self.live_ok(t, g));
        }
        assert forall|t: u64, k: u64| t != resource_type || k != key implies #[trigger]
            next.building(t, k) == self.building(t, k) by {}
        assert(next.building(resource_type, key) == Some(generation));
        assert forall|t: u64, k: u64| (#[trigger] self.building(t, k)) is Some implies
            self.building(t, k)->0 < generation by {
            assert(self.registry(t).entries.contains_key(k));
            assert(self.slot_ok(t, k));
        }
        assert forall|t: u64, k: u64, u: u64, l: u64|
            (#[trigger] next.building(t, k)) is Some && (#[trigger] next.building(u, l))
                == next.building(t, k) implies t == u && k == l by {}
        assert forall|u: u64| #[trigger] next.tasks.contains_key(u) implies
            next.tasks[u].claim.generation != generation by {
            assert(self.task_ok(u));
        }
        assert forall|claim: ClaimView| #[trigger] self.pending(claim) implies next.pending(claim)
            && claim.generation != generation by {
            if claim.place is Some && claim.resource_type == resource_type {
                let place = claim.place->0;
                assert(place.key != key);
                assert(after.entries.contains_key(place.key));
            }
        }
    }

    /// Establishing a claimed generation keeps what holds of every domain, and
    /// every other claim.
    pub proof fn establish_keeps_wf(self, claim: ClaimView, control: ControlView, handle: P)
        requires
            self.wf(),
            self.next_task < u64::MAX,
            self.accepting(),
            self.pending(claim),
            control.wf(),
            control.phase == Phase::Starting,
            control.leases <= self.grants + 1,
        ensures
            self.establish(claim, control, handle).wf(),
            self.establish(claim, control, handle).is_active(self.next_task as u64),
            forall|other: ClaimView| #[trigger]
                self.pending(other) && other.generation != claim.generation ==> self.establish(
                    claim,
                    control,
                    handle,
                ).pending(other),
    {
        let next = self.establish(claim, control, handle);
        let task = self.next_task as u64;
        let resource_type = claim.resource_type;
        let before = self.registry(resource_type);
        let after = next.registry(resource_type);
        assert(before.wf());
        assert(!self.tasks.contains_key(task)) by {
            if self.tasks.contains_key(task) {
                assert(self.task_ok(task));
            }
        }
        match claim.place {
            Some(place) => {
                assert(before.slots.contains_key(before.entries[place.key]));
                before.insert_live(claim.generation, task).set_state_keeps_wf(
                    place.slot,
                    RegistrySlotState::Active { generation: claim.generation, entry: task },
                );
                assert(self.building(resource_type, place.key) == Some(claim.generation));
            },
            None => {},
        }
        assert(after.wf());
        assert forall|other: u64| other != resource_type implies #[trigger] next.registry(other)
            == self.registry(other) by {}
        assert forall|other: u64| (#[trigger] next.registry(other)).wf() by {}
        assert forall|k: u64| #[trigger] after.entries.contains_key(k) && !claim.stands_under(k) implies before.entries.contains_key(k)
            && after.entries[k] == before.entries[k] && after.slots[after.entries[k]]
            == before.slots[before.entries[k]] by {
            assert(before.entries.contains_key(k));
        }
        assert forall|t: u64| #[trigger] next.tasks.contains_key(t) implies next.task_ok(t) by {
            if t != task {
                assert(self.tasks.contains_key(t));
                assert(self.task_ok(t));
                let other = self.tasks[t].claim;
                assert(other.generation != claim.generation);
                if other.resource_type == resource_type && other.place is Some
                    && self.tasks[t].control.phase == Phase::Active {
                    assert(after.entries.contains_key((other.place->0).key));
                }
            }
        }
        assert forall|t: u64, k: u64| #[trigger]
            next.registry(t).entries.contains_key(k) implies next.slot_ok(t, k) by {
            assert(self.registry(t).entries.contains_key(k));
            assert(self.slot_ok(t, k));
            let slot = self.registry(t).entries[k];
            if !(t == resource_type && claim.stands_under(k)) {
                match self.registry(t).slots[slot] {
                    RegistrySlotState::Starting { generation } => {
                        assert(self.building(t, k) == Some(generation));
                        assert forall|u: u64| #[trigger] next.tasks.contains_key(
                            u,
                        ) implies next.tasks[u].claim.generation != generation by {
                            if u != task {
                                assert(self.tasks.contains_key(u));
                            }
                        }
                    },
                    _ => {},
                }
            }
        }
        assert forall|t: u64, g: u64| #[trigger]
            next.registry(t).live.contains_key(g) implies next.live_ok(t, g) by {
            if t == resource_type && g == claim.generation {
            } else {
                assert(self.registry(t).live.contains_key(g));
                assert(self.live_ok(t, g));
            }
        }
        assert forall|a: u64, b: u64|
            (#[trigger] next.tasks.contains_key(a)) && (#[trigger] next.tasks.contains_key(b))
                && next.tasks[a].claim.generation == next.tasks[b].claim.generation implies a
            == b by {
            assert(a != task ==> self.tasks.contains_key(a));
            assert(b != task ==> self.tasks.contains_key(b));
        }
        assert forall|t: u64, k: u64| #[trigger] next.building(t, k) == (if t == resource_type
            && claim.stands_under(k) {
            None
        } else {
            self.building(t, k)
        }) by {
            if t == resource_type {
                assert(before.entries.contains_key(k) == after.entries.contains_key(k));
            }
        }
        assert forall|other: ClaimView| #[trigger] self.pending(other) && other.generation
            != claim.generation implies next.pending(other) by {
            assert forall|u: u64| #[trigger] next.tasks.contains_key(u) implies
                next.tasks[u].claim.generation != other.generation by {
                assert(u != task ==> self.tasks.contains_key(u));
            }
            if other.place is Some && other.resource_type == resource_type {
                let place = other.place->0;
                assert(after.entries.contains_key(place.key));
            }
        }
    }

    /// Giving a claimed generation up keeps what holds of every domain, and
    /// every other claim.
    pub proof fn abandon_keeps_wf(self, claim: ClaimView)
        requires
            self.wf(),
            self.pending(claim),
        ensures
            self.abandon(claim).wf(),
            forall|other: ClaimView| #[trigger]
                self.pending(other) && other.generation != claim.generation ==> self.abandon(
                    claim,
                ).pending(other),
    {
        let next = self.abandon(claim);
        if claim.place is Some {
            let place = claim.place->0;
            let resource_type = claim.resource_type;
            let before = self.registry(resource_type);
            let vacated = before.set_state(place.slot, RegistrySlotState::Vacant);
            let after = next.registry(resource_type);
            assert(before.wf());
            assert(before.slots.contains_key(before.entries[place.key]));
            before.set_state_keeps_wf(place.slot, RegistrySlotState::Vacant);
            vacated.remove_slot_keeps_wf(place.key, place.slot, Some(claim.generation));
            assert(after.entries == before.entries.remove(place.key));
            assert(self.building(resource_type, place.key) == Some(claim.generation));
            self.removing_keeps_wf(resource_type, place.key, next);
        }
    }

    /// Taking a slot out of a registry keeps what holds of every domain, if no
    /// active generation stood in it.
    proof fn removing_keeps_wf(self, resource_type: u64, key: u64, next: DomainView<P>)
        requires
            self.wf(),
            ({
                let before = self.registry(resource_type);
                let after = next.registry(resource_type);
                &&& before.entries.contains_key(key)
                &&& after.wf()
                &&& after.live == before.live
                &&& after.entries == before.entries.remove(key)
                &&& forall|k: u64| #[trigger]
                    after.entries.contains_key(k) ==> after.slots[before.entries[k]]
                        == before.slots[before.entries[k]]
                &&& before.slots[before.entries[key]] matches RegistrySlotState::Active {
                    entry,
                    ..
                } ==> !self.is_active(entry)
            }),
            next == self.set_registry(resource_type, next.registry(resource_type)),
        ensures
            next.wf(),
            forall|other: ClaimView| #[trigger]
                self.pending(other) && !(other.resource_type == resource_type
                    && other.stands_under(key)) ==> next.pending(other),
    {
        let before = self.registry(resource_type);
        let after = next.registry(resource_type);
        assert(before.wf());
        assert forall|other: u64| other != resource_type implies #[trigger] next.registry(other)
            == self.registry(other) by {}
        assert forall|other: u64| (#[trigger] next.registry(other)).wf() by {}
        assert forall|t: u64| #[trigger] next.tasks.contains_key(t) implies next.task_ok(t) by {
            assert(self.task_ok(t));
            let claim = self.tasks[t].claim;
            if claim.resource_type == resource_type && claim.place is Some
                && self.tasks[t].control.phase == Phase::Active {
                let place = claim.place->0;
                assert(place.key != key);
                assert(after.entries.contains_key(place.key));
            }
        }
        assert forall|t: u64, k: u64| #[trigger]
            next.registry(t).entries.contains_key(k) implies next.slot_ok(t, k) by {
            assert(self.registry(t).entries.contains_key(k));
            assert(self.slot_ok(t, k));
        }
        assert forall|t: u64, g: u64| #[trigger]
            next.registry(t).live.contains_key(g) implies next.live_ok(t, g) by {
            assert(self.registry(t).live.contains_key(g));
            assert(self.live_ok(t, g));
        }
        assert forall|t: u64, k: u64| #[trigger] next.building(t, k) == (if t == resource_type
            && k == key {
            None
        } else {
            self.building(t, k)
        }) by {
            if t == resource_type && k != key {
                assert(before.entries.contains_key(k) == after.entries.contains_key(k));
            }
        }
        assert forall|other: ClaimView| #[trigger] self.pending(other) && !(other.resource_type
            == resource_type && other.stands_under(key)) implies next.pending(other) by {
            if other.place is Some && other.resource_type == resource_type {
                assert(after.entries.contains_key((other.place->0).key));
            }
        }
    }

    /// The end of a task keeps what holds of every domain, and every claim.
    pub proof fn finish_keeps_wf(self, task: u64)
        requires
            self.wf(),
        ensures
            self.finish(task).wf(),
            self.finish(task).may_leave(task),
            forall|claim: ClaimView| #[trigger]
                self.pending(claim) ==> self.finish(task).pending(claim),
    {
        if self.tasks.contains_key(task) {
            let claim = self.tasks[task].claim;
            let resource_type = claim.resource_type;
            let before = self.registry(resource_type);
            // A generation that was cancelled first finishes in the same way.
            let cancelled = self.with_control(task, self.tasks[task].control.cancel());
            let trimmed = match claim.place {
                Some(place) => before.remove_slot(place.key, place.slot, Some(claim.generation)),
                None => before,
            };
            let removed = cancelled.set_registry(resource_type, trimmed);
            let next = self.finish(task);
            assert(self.task_ok(task));
            assert(before.wf());
            assert(cancelled.tasks.dom() =~= self.tasks.dom());
            assert(cancelled.wf() && forall|c: ClaimView| #[trigger]
                self.pending(c) ==> cancelled.pending(c)) by {
                assert forall|t: u64| #[trigger] self.tasks.contains_key(
                    t,
                ) implies self.task_ok(t) by {}
                assert forall|other: u64| #[trigger] cancelled.registry(other)
                    == self.registry(other) by {}
                self.controls_changed_keeps_wf(cancelled);
            }
            assert(cancelled.registry(resource_type) == before);
            assert(removed.wf() && forall|c: ClaimView| #[trigger]
                cancelled.pending(c) ==> removed.pending(c)) by {
                cancelled.trimming_keeps_wf(task);
            }
            assert(removed.registry(resource_type) == trimmed);
            let ended = self.tasks[task].control.finish();
            assert(trimmed.remove_live(claim.generation) =~= next.registry(resource_type));
            assert(next.registries =~= removed.registries.insert(
                resource_type,
                trimmed.remove_live(claim.generation),
            ));
            assert(next.tasks =~= removed.with_control(task, ended).tasks);
            assert(next =~= removed.with_control(task, ended).set_registry(
                resource_type,
                trimmed.remove_live(claim.generation),
            ));
            removed.retiring_keeps_wf(task, ended);
        }
    }

    /// Giving up the slot of a generation that is not active keeps what holds
    /// of every domain, and leaves the generation in no slot.
    proof fn trimming_keeps_wf(self, task: u64)
        requires
            self.wf(),
            self.tasks.contains_key(task),
            !self.is_active(task),
        ensures
            ({
                let claim = self.tasks[task].claim;
                let before = self.registry(claim.resource_type);
                let next = self.set_registry(
                    claim.resource_type,
                    match claim.place {
                        Some(place) => before.remove_slot(
                            place.key,
                            place.slot,
                            Some(claim.generation),
                        ),
                        None => before,
                    },
                );
                &&& next.wf()
                &&& forall|other: ClaimView| #[trigger] self.pending(other) ==> next.pending(other)
                &&& forall|t: u64, k: u64| #[trigger]
                    next.registry(t).entries.contains_key(k) ==> (next.state(t, k) matches Some(
                        RegistrySlotState::Active { entry, .. },
                    ) ==> entry != task)
            }),
    {
        let claim = self.tasks[task].claim;
        let resource_type = claim.resource_type;
        let before = self.registry(resource_type);
        let after = match claim.place {
            Some(place) => before.remove_slot(place.key, place.slot, Some(claim.generation)),
            None => before,
        };
        let next = self.set_registry(resource_type, after);
        assert(self.task_ok(task));
        assert(before.wf());
        assert(next.registry(resource_type) == after);
        self.with_registry_keeps_wf(resource_type);
        if claim.place is Some && before.may_remove(
            (claim.place->0).key,
            (claim.place->0).slot,
            Some(claim.generation),
        ) {
            let place = claim.place->0;
            assert(self.registry(resource_type).entries.contains_key(place.key));
            assert(self.slot_ok(resource_type, place.key));
            before.remove_slot_keeps_wf(place.key, place.slot, Some(claim.generation));
            assert forall|k: u64| #[trigger] after.entries.contains_key(
                k,
            ) implies after.slots[before.entries[k]] == before.slots[before.entries[k]] by {
                assert(before.entries.contains_key(k) && before.entries.contains_key(place.key));
            }
            self.removing_keeps_wf(resource_type, place.key, next);
        }
        assert forall|t: u64, k: u64| #[trigger]
            next.registry(t).entries.contains_key(k) implies (next.state(t, k) matches Some(
            RegistrySlotState::Active { entry, .. },
        ) ==> entry != task) by {
            assert(next.slot_ok(t, k));
            assert(self.registry(t).entries.contains_key(k));
        }
    }

    /// Finishing a generation that is not active and stands in no slot keeps
    /// what holds of every domain, and every claim.
    proof fn retiring_keeps_wf(self, task: u64, ended: ControlView)
        requires
            self.wf(),
            ended.phase == Phase::Finished,
            ended.wf(),
            self.tasks.contains_key(task),
            !self.is_active(task),
            forall|t: u64, k: u64| #[trigger]
                self.registry(t).entries.contains_key(k) ==> (self.state(t, k) matches Some(
                    RegistrySlotState::Active { entry, .. },
                ) ==> entry != task),
        ensures
            ({
                let claim = self.tasks[task].claim;
                let next = self.with_control(task, ended).set_registry(
                    claim.resource_type,
                    self.registry(claim.resource_type).remove_live(claim.generation),
                );
                &&& next.wf()
                &&& forall|other: ClaimView| #[trigger] self.pending(other) ==> next.pending(other)
            }),
    {
        let claim = self.tasks[task].claim;
        let resource_type = claim.resource_type;
        let before = self.registry(resource_type);
        let after = before.remove_live(claim.generation);
        let next = self.with_control(task, ended).set_registry(
            resource_type,
            after,
        );
        assert(before.wf());
        assert(next.tasks.dom() =~= self.tasks.dom());
        assert(after.wf()) by {
            assert(after.entries == before.entries && after.slots == before.slots);
        }
        assert forall|other: u64| other != resource_type implies #[trigger] next.registry(other)
            == self.registry(other) by {}
        assert(next.registry(resource_type) == after);
        assert forall|other: u64| (#[trigger] next.registry(other)).wf() by {}
        assert forall|t: u64| #[trigger] next.tasks.contains_key(t) implies next.task_ok(t) by {
            assert(self.tasks.contains_key(t));
            assert(self.task_ok(t));
        }
        assert forall|t: u64, k: u64| #[trigger]
            next.registry(t).entries.contains_key(k) implies next.slot_ok(t, k) by {
            assert(self.registry(t).entries.contains_key(k));
            assert(self.slot_ok(t, k));
            assert forall|u: u64| #[trigger] next.tasks.contains_key(u) implies next.tasks[u].claim
                == self.tasks[u].claim by {
                assert(self.tasks.contains_key(u));
            }
        }
        assert forall|t: u64, g: u64| #[trigger]
            next.registry(t).live.contains_key(g) implies next.live_ok(t, g) by {
            assert(self.registry(t).live.contains_key(g));
            assert(self.live_ok(t, g));
        }
        assert forall|a: u64, b: u64|
            (#[trigger] next.tasks.contains_key(a)) && (#[trigger] next.tasks.contains_key(b))
                && next.tasks[a].claim.generation == next.tasks[b].claim.generation implies a
            == b by {
            assert(self.tasks.contains_key(a) && self.tasks.contains_key(b));
        }
        assert forall|t: u64, k: u64| #[trigger] next.building(t, k) == self.building(t, k) by {}
        assert forall|other: ClaimView| #[trigger] self.pending(other) implies next.pending(
            other,
        ) by {
            assert forall|u: u64| #[trigger] next.tasks.contains_key(u) implies
                next.tasks[u].claim.generation != other.generation by {
                assert(self.tasks.contains_key(u));
            }
        }
    }

    /// A task's leaving the supervisor keeps what holds of every domain, and
    /// every claim.
    pub proof fn task_finished_keeps_wf(self, task: u64)
        requires
            self.wf(),
            self.may_leave(task),
        ensures
            self.task_finished(task).wf(),
            forall|claim: ClaimView| #[trigger]
                self.pending(claim) ==> self.task_finished(task).pending(claim),
    {
        let next = self.task_finished(task);
        assert forall|other: u64| #[trigger] next.registry(other) == self.registry(other) by {}
        assert forall|t: u64| #[trigger] next.tasks.contains_key(t) implies next.task_ok(t)
            && self.tasks.contains_key(t) by {
            assert(self.tasks.contains_key(t));
            assert(self.task_ok(t));
        }
        assert forall|t: u64, k: u64| #[trigger]
            next.registry(t).entries.contains_key(k) implies next.slot_ok(t, k) by {
            assert(self.registry(t).entries.contains_key(k));
            assert(self.slot_ok(t, k));
        }
        assert forall|t: u64, g: u64| #[trigger]
            next.registry(t).live.contains_key(g) implies next.live_ok(t, g) by {
            assert(self.registry(t).live.contains_key(g));
            assert(self.live_ok(t, g));
        }
        assert(next.generations_distinct()) by {
            assert forall|a: u64, b: u64|
                (#[trigger] next.tasks.contains_key(a)) && (#[trigger] next.tasks.contains_key(b))
                    && next.tasks[a].claim.generation == next.tasks[b].claim.generation implies a
                == b by {
                assert(self.tasks.contains_key(a) && self.tasks.contains_key(b));
            }
        }
        assert forall|t: u64, k: u64| #[trigger] next.building(t, k) == self.building(t, k) by {}
        if self.phase == DomainPhase::Terminated {
            assert(next.tasks.dom() =~= self.tasks.dom());
        }
    }
}

} // verus!
