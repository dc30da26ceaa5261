//! Identities as numbers.
//!
//! A domain knows resource types and their keys by number. Equal keys have the
//! same number, and different keys have different ones.

use crate::context::Request;
use crate::domain::Domain;
use std::collections::HashMap;
use std::hash::Hash;
use vstd::prelude::*;
use vstd::std_specs::hash::obeys_key_model;

verus! {

broadcast use vstd::std_specs::hash::group_hash_axioms;

/// The numbers that the keys of one resource type were given.
#[verifier::ext_equal]
#[verifier::reject_recursive_types(K)]
pub struct KeyTableView<K> {
    /// The number of the resource type.
    pub resource_type: u64,
    /// The number of each key that has one.
    pub numbers: Map<K, u64>,
    /// The next number to be given.
    pub next: nat,
}

impl<K> KeyTableView<K> {
    /// What holds of every numbering: the numbers were given in order, and no
    /// two keys share one.
    pub open spec fn wf(self) -> bool {
        &&& forall|key: K| #[trigger]
            self.numbers.contains_key(key) ==> self.numbers[key] < self.next
        &&& forall|a: K, b: K|
            (#[trigger] self.numbers.contains_key(a)) && (#[trigger] self.numbers.contains_key(b))
                && self.numbers[a] == self.numbers[b] ==> a == b
    }

    /// The number that a key has once it was asked for.
    pub open spec fn number_of(self, key: K) -> u64 {
        if self.numbers.contains_key(key) {
            self.numbers[key]
        } else {
            self.next as u64
        }
    }

    /// The numbering once the number of a key was asked for.
    pub open spec fn with_key(self, key: K) -> KeyTableView<K> {
        if self.numbers.contains_key(key) {
            self
        } else {
            KeyTableView {
                numbers: self.numbers.insert(key, self.next as u64),
                next: self.next + 1,
                ..self
            }
        }
    }

    /// The numbering without a key.
    pub open spec fn without_key(self, key: K) -> KeyTableView<K> {
        KeyTableView { numbers: self.numbers.remove(key), ..self }
    }
}

/// Numbers the keys of one resource type. Where the keys are compared and
/// hashed consistently, which [`obeys_key_model`] says, equal keys get the
/// same number and different keys different ones.
#[verifier::reject_recursive_types(K)]
pub struct KeyTable<K> {
    resource_type: u64,
    numbers: HashMap<K, u64>,
    next: u64,
}

impl<K> View for KeyTable<K> {
    type V = KeyTableView<K>;

    closed spec fn view(&self) -> KeyTableView<K> {
        KeyTableView {
            resource_type: self.resource_type,
            numbers: self.numbers@,
            next: self.next as nat,
        }
    }
}

impl<K: Eq + Hash> KeyTable<K> {
    /// What holds of every table.
    pub open spec fn wf(&self) -> bool {
        obeys_key_model::<K>() ==> self@.wf()
    }

    /// A table without keys, for the resource type with this number.
    pub fn new(resource_type: u64) -> (table: Self)
        ensures
            table@ == (KeyTableView {
                resource_type,
                numbers: Map::<K, u64>::empty(),
                next: 0,
            }),
            table.wf(),
    {
        KeyTable { resource_type, numbers: HashMap::new(), next: 0 }
    }

    /// Whether the numbers have not run out.
    pub fn has_room(&self) -> (room: bool)
        ensures
            room == (self@.next < u64::MAX),
    {
        self.next < u64::MAX
    }

    /// The number of a key, after it was given one if it had none.
    pub fn number(&mut self, key: K) -> (number: u64)
        requires
            old(self).wf(),
            old(self)@.next < u64::MAX,
        ensures
            final(self).wf(),
            final(self)@.resource_type == old(self)@.resource_type,
            obeys_key_model::<K>() ==> number == old(self)@.number_of(key),
            obeys_key_model::<K>() ==> final(self)@ == old(self)@.with_key(key),
    {
        if let Some(number) = self.numbers.get(&key) {
            return *number;
        }
        let number = self.next;
        self.next = number + 1;
        self.numbers.insert(key, number);
        proof {
            if obeys_key_model::<K>() {
                assert(self@ =~= old(self)@.with_key(key));
                old(self)@.with_key_keeps_wf(key);
            }
        }
        number
    }

    /// The number of a key, where it has one.
    pub fn find(&self, key: &K) -> (number: Option<u64>)
        ensures
            obeys_key_model::<K>() ==> number == self@.numbers.get(*key),
    {
        match self.numbers.get(key) {
            Some(number) => Some(*number),
            None => None,
        }
    }

    /// Forgets the number of a key, if the domain has no slot for it: a key
    /// that a generation stands under, or is constructed for, keeps its number.
    pub fn forget_unused<P>(&mut self, domain: &mut Domain<P>, key: &K) -> (forgotten: bool)
        requires
            old(self).wf(),
            old(domain).wf(),
        ensures
            final(self).wf(),
            final(self)@.resource_type == old(self)@.resource_type,
            final(domain).wf(),
            final(domain)@ == old(domain)@ || final(domain)@ == old(domain)@.with_registry(
                old(self)@.resource_type,
            ),
            obeys_key_model::<K>() ==> final(domain)@ == (if old(self)@.numbers.contains_key(
                *key,
            ) {
                old(domain)@.with_registry(old(self)@.resource_type)
            } else {
                old(domain)@
            }),
            obeys_key_model::<K>() ==> forgotten == (old(self)@.numbers.contains_key(*key) && old(
                domain,
            )@.state(old(self)@.resource_type, old(self)@.numbers[*key]) is None),
            obeys_key_model::<K>() ==> final(self)@ == (if forgotten {
                old(self)@.without_key(*key)
            } else {
                old(self)@
            }),
    {
        match self.find(key) {
            Some(number) => {
                if domain.state(self.resource_type, number).is_some() {
                    return false;
                }
                self.forget(key);
                true
            },
            None => false,
        }
    }

    /// Forgets the number of a key.
    fn forget(&mut self, key: &K)
        requires
            old(self).wf(),
        ensures
            final(self).wf(),
            final(self)@.resource_type == old(self)@.resource_type,
            obeys_key_model::<K>() ==> final(self)@ == old(self)@.without_key(*key),
    {
        self.numbers.remove(key);
        proof {
            if obeys_key_model::<K>() {
                assert(self@ =~= old(self)@.without_key(*key));
                old(self)@.without_key_keeps_wf(*key);
            }
        }
    }

    /// The request for the identity with this key; for a unique generation,
    /// where there is none.
    pub fn request(&mut self, key: Option<K>) -> (request: Request)
        requires
            old(self).wf(),
            old(self)@.next < u64::MAX,
        ensures
            final(self).wf(),
            final(self)@.resource_type == old(self)@.resource_type,
            request.resource_type == old(self)@.resource_type,
            request.key is Some == key is Some,
            obeys_key_model::<K>() ==> (key matches Some(key) ==> request.key == Some(
                old(self)@.number_of(key),
            ) && final(self)@ == old(self)@.with_key(key)),
            key is None ==> final(self)@ == old(self)@,
    {
        match key {
            Some(key) => {
                let number = self.number(key);
                Request { resource_type: self.resource_type, key: Some(number) }
            },
            None => Request { resource_type: self.resource_type, key: None },
        }
    }

    /// The request for the identity with this key, where the key has a number.
    pub fn lookup(&self, key: &K) -> (request: Option<Request>)
        ensures
            obeys_key_model::<K>() ==> match request {
                Some(request) => self@.numbers.contains_key(*key) && request == (Request {
                    resource_type: self@.resource_type,
                    key: Some(self@.numbers[*key]),
                }),
                None => !self@.numbers.contains_key(*key),
            },
    {
        match self.find(key) {
            Some(number) => Some(
                Request { resource_type: self.resource_type, key: Some(number) },
            ),
            None => None,
        }
    }
}

impl<K> KeyTableView<K> {
    /// Giving a key a number keeps what holds of every numbering.
    pub proof fn with_key_keeps_wf(self, key: K)
        requires
            self.wf(),
            self.next < u64::MAX,
        ensures
            self.with_key(key).wf(),
    {
        let next = self.with_key(key);
        assert forall|k: K| #[trigger] next.numbers.contains_key(k) implies next.numbers[k]
            < next.next by {
            assert(k != key ==> self.numbers.contains_key(k));
        }
        assert forall|a: K, b: K|
            (#[trigger] next.numbers.contains_key(a)) && (#[trigger] next.numbers.contains_key(b))
                && next.numbers[a] == next.numbers[b] implies a == b by {
            assert(a != key ==> self.numbers.contains_key(a));
            assert(b != key ==> self.numbers.contains_key(b));
        }
    }

    /// Forgetting a key keeps what holds of every numbering.
    pub proof fn without_key_keeps_wf(self, key: K)
        requires
            self.wf(),
        ensures
            self.without_key(key).wf(),
    {
        let next = self.without_key(key);
        assert forall|k: K| #[trigger] next.numbers.contains_key(k) implies next.numbers[k]
            < next.next by {
            assert(self.numbers.contains_key(k));
        }
        assert forall|a: K, b: K|
            (#[trigger] next.numbers.contains_key(a)) && (#[trigger] next.numbers.contains_key(b))
                && next.numbers[a] == next.numbers[b] implies a == b by {
            assert(self.numbers.contains_key(a) && self.numbers.contains_key(b));
        }
    }
}

/// Two inputs make the same canonical request exactly where their keys are
/// equal: what an input holds beside its key is no part of its identity.
pub proof fn requests_identify_keys<K>(table: KeyTableView<K>, a: K, b: K)
    requires
        table.wf(),
        table.next < u64::MAX - 1,
    ensures
        (table.number_of(a) == table.with_key(a).number_of(b)) == (a == b),
        table.with_key(a).wf(),
        table.with_key(a).number_of(a) == table.number_of(a),
{
}

} // verus!
