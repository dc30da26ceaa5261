//! The registry of one resource type: which slot each key has, what stands in
//! each slot, and which generations are live.

use crate::table::{
    contents, count, counts, discard, discard_if, holds_nothing, list, lists, lookup,
    lookup_or_store, new_table, store,
};
use dashmap::DashMap;
use std::collections::HashMap;
use std::hash::RandomState;
use vstd::prelude::*;

verus! {

broadcast use vstd::std_specs::hash::group_hash_axioms;

/// What stands in the slot of a canonical identity.
#[derive(Clone, Copy, Debug, PartialEq, Eq, Structural)]
pub enum RegistrySlotState {
    /// Nothing: a construction was given up.
    Vacant,
    /// A caller is constructing this generation.
    Starting {
        /// The generation under construction.
        generation: u64,
    },
    /// This generation was established.
    Active {
        /// The generation that was established.
        generation: u64,
        /// The task that backs it.
        entry: u64,
    },
}

impl RegistrySlotState {
    /// Whether the slot may be given up on behalf of generation `expected`:
    /// it stands for that one, or for none.
    pub open spec fn stands_for(self, expected: u64) -> bool {
        match self {
            RegistrySlotState::Vacant => true,
            RegistrySlotState::Starting { generation } => generation == expected,
            RegistrySlotState::Active { generation, .. } => generation == expected,
        }
    }
}

/// The slot of a canonical identity.
#[derive(Clone, Copy, Debug, PartialEq, Eq, Structural)]
pub struct RegistrySlot {
    /// What stands in the slot.
    pub state: RegistrySlotState,
}

impl RegistrySlot {
    /// A slot in which `generation` is under construction.
    pub fn starting(generation: u64) -> (slot: Self)
        ensures
            slot.state == (RegistrySlotState::Starting { generation }),
    {
        RegistrySlot { state: RegistrySlotState::Starting { generation } }
    }

    /// Whether the slot may be given up on behalf of generation `expected`.
    pub fn has_generation(&self, expected: u64) -> (stands: bool)
        ensures
            stands == self.state.stands_for(expected),
    {
        match self.state {
            RegistrySlotState::Vacant => true,
            RegistrySlotState::Starting { generation } => generation == expected,
            RegistrySlotState::Active { generation, entry: _ } => generation == expected,
        }
    }
}

/// A registry as a value.
#[verifier::ext_equal]
pub struct RegistryView {
    /// The slot of each key that has one.
    pub entries: Map<u64, u64>,
    /// The task of each live generation.
    pub live: Map<u64, u64>,
    /// What stands in each slot.
    pub slots: Map<u64, RegistrySlotState>,
}

impl RegistryView {
    /// A registry in which nothing was placed.
    pub open spec fn empty() -> RegistryView {
        RegistryView { entries: Map::empty(), live: Map::empty(), slots: Map::empty() }
    }

    /// What holds of every registry: no two keys share a slot, and the slots
    /// are those of the keys.
    pub open spec fn wf(self) -> bool {
        &&& forall|key: u64| #[trigger]
            self.entries.contains_key(key) ==> self.slots.contains_key(self.entries[key])
        &&& forall|a: u64, b: u64|
            (#[trigger] self.entries.contains_key(a)) && (#[trigger] self.entries.contains_key(b))
                && self.entries[a] == self.entries[b] ==> a == b
        &&& forall|slot: u64| #[trigger]
            self.slots.contains_key(slot) ==> self.entries.contains_value(slot)
    }

    /// What stands under `key`, where it has a slot.
    pub open spec fn state(self, key: u64) -> Option<RegistrySlotState> {
        if self.entries.contains_key(key) {
            Some(self.slots[self.entries[key]])
        } else {
            None
        }
    }

    /// The slot that `key` has once `generation` asked for one. A slot is
    /// numbered by the generation that it was made for.
    pub open spec fn slot_for(self, key: u64, generation: u64) -> u64 {
        if self.entries.contains_key(key) {
            self.entries[key]
        } else {
            generation
        }
    }

    /// The registry once `key` has a slot: a new one is made for `generation`.
    pub open spec fn slot_or_insert(self, key: u64, generation: u64) -> RegistryView {
        if self.entries.contains_key(key) {
            self
        } else {
            RegistryView {
                entries: self.entries.insert(key, generation),
                slots: self.slots.insert(generation, RegistrySlotState::Starting { generation }),
                ..self
            }
        }
    }

    /// The registry with another state in a slot.
    pub open spec fn set_state(self, slot: u64, state: RegistrySlotState) -> RegistryView {
        RegistryView { slots: self.slots.insert(slot, state), ..self }
    }

    /// Whether `key` still has this slot and the slot may be given up on
    /// behalf of `generation`; of any generation, where none is given.
    pub open spec fn may_remove(self, key: u64, slot: u64, generation: Option<u64>) -> bool {
        &&& self.entries.contains_key(key)
        &&& self.entries[key] == slot
        &&& generation matches Some(expected) ==> self.slots[slot].stands_for(expected)
    }

    /// The registry after an attempt to give a slot up.
    pub open spec fn remove_slot(self, key: u64, slot: u64, generation: Option<u64>) -> RegistryView {
        if self.may_remove(key, slot, generation) {
            RegistryView {
                entries: self.entries.remove(key),
                slots: self.slots.remove(slot),
                ..self
            }
        } else {
            self
        }
    }

    /// The registry with one more live generation.
    pub open spec fn insert_live(self, generation: u64, entry: u64) -> RegistryView {
        RegistryView { live: self.live.insert(generation, entry), ..self }
    }

    /// The registry without a live generation.
    pub open spec fn remove_live(self, generation: u64) -> RegistryView {
        RegistryView { live: self.live.remove(generation), ..self }
    }
}

/// The registry of one resource type in one domain.
pub struct Registry {
    entries: DashMap<u64, u64, RandomState>,
    live: DashMap<u64, u64, RandomState>,
    slots: HashMap<u64, RegistrySlot>,
}

impl View for Registry {
    type V = RegistryView;

    closed spec fn view(&self) -> RegistryView {
        RegistryView {
            entries: contents(self.entries),
            live: contents(self.live),
            slots: self.slots@.map_values(|slot: RegistrySlot| slot.state),
        }
    }
}

impl Default for Registry {
    /// A registry in which nothing was placed.
    fn default() -> (registry: Self)
        ensures
            registry@ == RegistryView::empty(),
            registry@.wf(),
    {
        let registry = Registry { entries: new_table(), live: new_table(), slots: HashMap::new() };
        assert(registry@ =~= RegistryView::empty());
        registry
    }
}

impl Registry {
    /// The slot of `key`, where it has one.
    pub fn slot(&self, key: u64) -> (slot: Option<u64>)
        ensures
            slot == self@.entries.get(key),
    {
        lookup(&self.entries, key)
    }

    /// What stands under `key`, where it has a slot.
    pub fn state(&self, key: u64) -> (state: Option<RegistrySlotState>)
        requires
            self@.wf(),
        ensures
            state == self@.state(key),
    {
        match lookup(&self.entries, key) {
            Some(slot) => {
                assert(self@.slots.contains_key(self@.entries[key]));
                match self.slots.get(&slot) {
                    Some(record) => Some(record.state),
                    None => None,
                }
            },
            None => None,
        }
    }

    /// The slot of `key`, after one was made for `generation` if it had none;
    /// and whether it was made.
    pub fn slot_or_insert(&mut self, key: u64, generation: u64) -> (found: (u64, bool))
        requires
            old(self)@.wf(),
            !old(self)@.slots.contains_key(generation),
        ensures
            found.0 == old(self)@.slot_for(key, generation),
            found.1 == !old(self)@.entries.contains_key(key),
            final(self)@ == old(self)@.slot_or_insert(key, generation),
            final(self)@.wf(),
    {
        let ghost before = self@;
        let slot = lookup_or_store(&mut self.entries, key, generation);
        let inserted = !self.slots.contains_key(&slot);
        if inserted {
            self.slots.insert(slot, RegistrySlot::starting(generation));
        }
        proof {
            assert(before.entries.contains_key(key) ==> before.slots.contains_key(
                before.entries[key],
            ));
            assert(self@ =~= before.slot_or_insert(key, generation));
            before.slot_or_insert_keeps_wf(key, generation);
        }
        (slot, inserted)
    }

    /// Puts another state in a slot.
    pub fn set_state(&mut self, slot: u64, state: RegistrySlotState)
        requires
            old(self)@.wf(),
            old(self)@.slots.contains_key(slot),
        ensures
            final(self)@ == old(self)@.set_state(slot, state),
            final(self)@.wf(),
    {
        let ghost before = self@;
        self.slots.insert(slot, RegistrySlot { state });
        proof {
            assert(self@ =~= before.set_state(slot, state));
            before.set_state_keeps_wf(slot, state);
        }
    }

    /// Gives a slot up, if `key` still has that slot and it stands for
    /// `generation` or for none.
    pub fn remove_if_same(&mut self, key: u64, slot: u64, generation: u64)
        requires
            old(self)@.wf(),
        ensures
            final(self)@ == old(self)@.remove_slot(key, slot, Some(generation)),
            final(self)@.wf(),
    {
        let ghost before = self@;
        let stands = match self.slots.get(&slot) {
            Some(record) => record.has_generation(generation),
            None => false,
        };
        if stands && discard_if(&mut self.entries, key, slot) {
            self.slots.remove(&slot);
        }
        proof {
            assert(before.entries.contains_key(key) ==> before.slots.contains_key(
                before.entries[key],
            ));
            assert(self@ =~= before.remove_slot(key, slot, Some(generation)));
            before.remove_slot_keeps_wf(key, slot, Some(generation));
        }
    }

    /// Gives a slot up, if `key` still has that slot and, where a generation
    /// is given, it stands for that one or for none.
    pub fn remove_slot(&mut self, key: u64, slot: u64, generation: Option<u64>)
        requires
            old(self)@.wf(),
        ensures
            final(self)@ == old(self)@.remove_slot(key, slot, generation),
            final(self)@.wf(),
    {
        match generation {
            Some(expected) => self.remove_if_same(key, slot, expected),
            None => {
                let ghost before = self@;
                if discard_if(&mut self.entries, key, slot) {
                    self.slots.remove(&slot);
                }
                proof {
                    assert(self@ =~= before.remove_slot(key, slot, None));
                    before.remove_slot_keeps_wf(key, slot, None);
                }
            },
        }
    }

    /// Records that a generation is live, and its task.
    pub fn insert_live(&mut self, generation: u64, entry: u64)
        requires
            old(self)@.wf(),
        ensures
            final(self)@ == old(self)@.insert_live(generation, entry),
            final(self)@.wf(),
    {
        let ghost before = self@;
        store(&mut self.live, generation, entry);
        assert(self@ == before.insert_live(generation, entry));
    }

    /// Records that a generation is not live any more.
    pub fn remove_live(&mut self, generation: u64)
        requires
            old(self)@.wf(),
        ensures
            final(self)@ == old(self)@.remove_live(generation),
            final(self)@.wf(),
    {
        let ghost before = self@;
        discard(&mut self.live, generation);
        assert(self@ == before.remove_live(generation));
    }

    /// Every live generation with its task, in no particular order.
    pub fn live_snapshot(&self) -> (pairs: Vec<(u64, u64)>)
        ensures
            lists(pairs@, self@.live),
    {
        list(&self.live)
    }

    /// Whether no key has a slot.
    pub fn entries_is_empty(&self) -> (empty: bool)
        ensures
            empty == self@.entries.is_empty(),
    {
        holds_nothing(&self.entries)
    }

    /// How many keys have a slot.
    pub fn entries_len(&self) -> (len: usize)
        ensures
            counts(len as nat, self@.entries),
    {
        count(&self.entries)
    }
}

impl RegistryView {
    /// Making sure that a key has a slot keeps what holds of every registry.
    pub proof fn slot_or_insert_keeps_wf(self, key: u64, generation: u64)
        requires
            self.wf(),
            !self.slots.contains_key(generation),
        ensures
            self.slot_or_insert(key, generation).wf(),
    {
        let next = self.slot_or_insert(key, generation);
        if !self.entries.contains_key(key) {
            assert forall|slot: u64| #[trigger] next.slots.contains_key(
                slot,
            ) implies next.entries.contains_value(slot) by {
                if slot == generation {
                    assert(next.entries.contains_key(key) && next.entries[key] == slot);
                } else {
                    assert(self.slots.contains_key(slot));
                    let k = choose|k: u64|
                        self.entries.contains_key(k) && self.entries[k] == slot;
                    assert(next.entries.contains_key(k) && next.entries[k] == slot);
                }
            }
        }
    }

    /// Changing a slot's state keeps what holds of every registry.
    pub proof fn set_state_keeps_wf(self, slot: u64, state: RegistrySlotState)
        requires
            self.wf(),
            self.slots.contains_key(slot),
        ensures
            self.set_state(slot, state).wf(),
    {
        let next = self.set_state(slot, state);
        assert forall|s: u64| #[trigger] next.slots.contains_key(
            s,
        ) implies next.entries.contains_value(s) by {
            assert(self.slots.contains_key(s));
        }
    }

    /// Giving a slot up keeps what holds of every registry.
    pub proof fn remove_slot_keeps_wf(self, key: u64, slot: u64, generation: Option<u64>)
        requires
            self.wf(),
        ensures
            self.remove_slot(key, slot, generation).wf(),
    {
        let next = self.remove_slot(key, slot, generation);
        if self.may_remove(key, slot, generation) {
            assert forall|k: u64| #[trigger] next.entries.contains_key(
                k,
            ) implies next.slots.contains_key(next.entries[k]) by {
                assert(self.entries.contains_key(k) && self.entries.contains_key(key));
            }
            assert forall|s: u64| #[trigger] next.slots.contains_key(
                s,
            ) implies next.entries.contains_value(s) by {
                assert(self.slots.contains_key(s));
                let k = choose|k: u64| self.entries.contains_key(k) && self.entries[k] == s;
                assert(next.entries.contains_key(k) && next.entries[k] == s);
            }
        }
    }
}

} // verus!
