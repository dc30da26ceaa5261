//! References to a generation, and its one terminal outcome.

use crate::domain::Domain;
use std::collections::HashMap;
use std::marker::PhantomData;
use std::sync::Arc;
use vstd::prelude::*;

verus! {

broadcast use vstd::std_specs::hash::group_hash_axioms;

/// The single terminal outcome of a managed resource generation.
#[derive(Debug)]
pub enum ResourceOutcome<E> {
    /// The resource task returned successfully.
    Completed,
    /// The resource task returned its declared error.
    Failed(Arc<E>),
    /// The resource task panicked. The string is the panic payload when known.
    Panicked(Arc<str>),
    /// The executor terminated the task before it produced a result.
    Aborted,
}

impl<E> Clone for ResourceOutcome<E> {
    fn clone(&self) -> (copy: Self)
        ensures
            copy == *self,
    {
        match self {
            ResourceOutcome::Completed => ResourceOutcome::Completed,
            ResourceOutcome::Failed(error) => ResourceOutcome::Failed(error.clone()),
            ResourceOutcome::Panicked(message) => ResourceOutcome::Panicked(message.clone()),
            ResourceOutcome::Aborted => ResourceOutcome::Aborted,
        }
    }
}

/// How a managed task came to its end.
pub enum TaskExit<E> {
    /// It returned.
    Returned(Result<(), E>),
    /// It panicked with this message.
    Panicked(Arc<str>),
    /// It was terminated before it returned.
    Terminated,
}

/// `Arc::<str>::from`: a shared copy of a text.
#[verifier::external_body]
fn share_text(text: &str) -> (shared: Arc<str>)
    ensures
        (*shared)@ == text@,
{
    Arc::from(text)
}

/// The text of a panic whose payload is the string slice `slice`, or the
/// string `string`, or neither.
pub open spec fn spec_panic_message(slice: Option<&str>, string: Option<&String>) -> Seq<char> {
    match (slice, string) {
        (Some(text), _) => text@,
        (None, Some(text)) => text@,
        (None, None) => "resource task panicked"@,
    }
}

/// The message of a panic: its payload, where that is a string slice or a
/// string, and a standing text otherwise.
pub fn panic_message(slice: Option<&str>, string: Option<&String>) -> (message: Arc<str>)
    ensures
        (*message)@ == spec_panic_message(slice, string),
{
    match slice {
        Some(text) => share_text(text),
        None => match string {
            Some(text) => share_text(text.as_str()),
            None => share_text("resource task panicked"),
        },
    }
}

impl<E> ResourceOutcome<E> {
    /// The outcome of a task that ended in a given way.
    pub open spec fn spec_from_exit(exit: TaskExit<E>) -> ResourceOutcome<E> {
        match exit {
            TaskExit::Returned(Ok(())) => ResourceOutcome::Completed,
            TaskExit::Returned(Err(error)) => ResourceOutcome::Failed(Arc::new(error)),
            TaskExit::Panicked(message) => ResourceOutcome::Panicked(message),
            TaskExit::Terminated => ResourceOutcome::Aborted,
        }
    }

    /// The outcome of a task that ended in a given way.
    pub fn from_exit(exit: TaskExit<E>) -> (outcome: Self)
        ensures
            outcome == ResourceOutcome::spec_from_exit(exit),
    {
        match exit {
            TaskExit::Returned(Ok(())) => ResourceOutcome::Completed,
            TaskExit::Returned(Err(error)) => ResourceOutcome::Failed(Arc::new(error)),
            TaskExit::Panicked(message) => ResourceOutcome::Panicked(message),
            TaskExit::Terminated => ResourceOutcome::Aborted,
        }
    }
}

/// What a reference points at.
pub struct ReferenceView {
    /// The generation.
    pub generation: u64,
    /// The task that backs it.
    pub task: u64,
}

/// A strong lease on one resource generation.
///
/// Cloning a reference creates another lease on the same generation. Once the
/// task has reached its terminal outcome, what is left of the generation can
/// still be read, and clones of the reference are leases no more. Releasing
/// the final lease starts cancellation exactly once.
pub struct ResourceRef {
    generation: u64,
    task: u64,
}

impl View for ResourceRef {
    type V = ReferenceView;

    closed spec fn view(&self) -> ReferenceView {
        ReferenceView { generation: self.generation, task: self.task }
    }
}

impl ResourceRef {
    /// A reference for a lease that was taken.
    pub(crate) fn new(generation: u64, task: u64) -> (reference: Self)
        ensures
            reference@ == (ReferenceView { generation, task }),
    {
        ResourceRef { generation, task }
    }

    /// The number of the generation in its domain.
    pub fn generation(&self) -> (generation: u64)
        ensures
            generation == self@.generation,
        opens_invariants none
    {
        self.generation
    }

    /// The task that backs the generation.
    pub fn task(&self) -> (task: u64)
        ensures
            task == self@.task,
        opens_invariants none
    {
        self.task
    }

    /// Another reference to the same generation. It is no acquisition: it can
    /// be had from a domain that accepts no work.
    pub fn clone<P>(&self, domain: &mut Domain<P>) -> (copy: ResourceRef)
        requires
            old(domain).wf(),
            old(domain)@.can_grant(),
        ensures
            copy@ == self@,
            final(domain)@ == old(domain)@.clone_lease(self@.task),
            final(domain).wf(),
    {
        domain.clone_lease(self.task);
        ResourceRef { generation: self.generation, task: self.task }
    }

    /// Gives the lease back. The last one to be given back requests the
    /// generation's cancellation.
    pub fn release<P>(self, domain: &mut Domain<P>)
        requires
            old(domain).wf(),
        ensures
            final(domain)@ == old(domain)@.release(self@.task),
            final(domain).wf(),
    {
        domain.release(self.task);
    }

    /// A non-owning reference to the same generation. It does not delay
    /// cancellation.
    pub fn downgrade(&self) -> (weak: WeakResourceRef)
        ensures
            weak@ == self@,
        opens_invariants none
    {
        WeakResourceRef { generation: self.generation, task: self.task }
    }

    /// A non-owning observer of the generation's terminal outcome.
    pub fn completion<E>(&self) -> (completion: ResourceCompletion<E>)
        ensures
            completion@ == self@.task,
        opens_invariants none
    {
        ResourceCompletion { task: self.task, outcome: PhantomData }
    }

    /// What the holder of this lease learns of the generation's terminal
    /// outcome, as [`ResourceCompletion::wait`] says.
    pub fn finished<E>(&self, outcomes: &Outcomes<E>, closed: bool) -> (outcome: Option<
        ResourceOutcome<E>,
    >)
        ensures
            outcome == observed(outcomes@.get(self@.task), closed),
    {
        self.completion().wait(outcomes, closed)
    }
}

/// A non-owning reference to one resource generation.
#[derive(Clone, Copy)]
pub struct WeakResourceRef {
    generation: u64,
    task: u64,
}

impl View for WeakResourceRef {
    type V = ReferenceView;

    closed spec fn view(&self) -> ReferenceView {
        ReferenceView { generation: self.generation, task: self.task }
    }
}

impl WeakResourceRef {
    /// Takes a lease on the generation, if it is active and its domain accepts
    /// work.
    pub fn upgrade<P>(&self, domain: &mut Domain<P>) -> (upgraded: Option<ResourceRef>)
        requires
            old(domain).wf(),
            old(domain)@.can_grant(),
        ensures
            match upgraded {
                Some(reference) => old(domain)@.grants_lease(self@.task) && reference@ == self@,
                None => !old(domain)@.grants_lease(self@.task),
            },
            final(domain)@ == old(domain)@.acquire(self@.task),
            final(domain).wf(),
    {
        if domain.try_acquire(self.task) {
            Some(ResourceRef { generation: self.generation, task: self.task })
        } else {
            None
        }
    }
}

/// The terminal outcomes that were published, by the task that backed the
/// generation.
pub struct Outcomes<E> {
    published: HashMap<u64, ResourceOutcome<E>>,
}

impl<E> View for Outcomes<E> {
    type V = Map<u64, ResourceOutcome<E>>;

    closed spec fn view(&self) -> Map<u64, ResourceOutcome<E>> {
        self.published@
    }
}

/// What is published once the outcome of a task was: its first one stays.
pub open spec fn published<E>(
    outcomes: Map<u64, ResourceOutcome<E>>,
    task: u64,
    outcome: ResourceOutcome<E>,
) -> Map<u64, ResourceOutcome<E>> {
    if outcomes.contains_key(task) {
        outcomes
    } else {
        outcomes.insert(task, outcome)
    }
}

impl<E> Outcomes<E> {
    /// No outcome was published yet.
    pub fn new() -> (outcomes: Self)
        ensures
            outcomes@ == Map::<u64, ResourceOutcome<E>>::empty(),
    {
        Outcomes { published: HashMap::new() }
    }

    /// Publishes the outcome of a task, unless it has one.
    pub fn publish(&mut self, task: u64, outcome: ResourceOutcome<E>)
        ensures
            final(self)@ == published(old(self)@, task, outcome),
    {
        if !self.published.contains_key(&task) {
            self.published.insert(task, outcome);
        }
    }
}

/// A non-owning observer of one generation's terminal outcome.
///
/// It holds no lease and remains usable after every lease was released. Clones
/// all observe the same outcome, whenever they were made.
pub struct ResourceCompletion<E> {
    task: u64,
    outcome: PhantomData<E>,
}

impl<E> View for ResourceCompletion<E> {
    /// The task whose outcome is observed.
    type V = u64;

    closed spec fn view(&self) -> u64 {
        self.task
    }
}

impl<E> Clone for ResourceCompletion<E> {
    fn clone(&self) -> (copy: Self)
        ensures
            copy@ == self@,
    {
        ResourceCompletion { task: self.task, outcome: PhantomData }
    }
}

/// What an observer learns where `present` was published of its task, and where
/// nothing can be published any more if `closed` holds: the outcome, or that
/// the task was aborted, or that it has to wait.
pub open spec fn observed<E>(
    present: Option<ResourceOutcome<E>>,
    closed: bool,
) -> Option<ResourceOutcome<E>> {
    match present {
        Some(outcome) => Some(outcome),
        None => if closed {
            Some(ResourceOutcome::Aborted)
        } else {
            None
        },
    }
}

impl<E> ResourceCompletion<E> {
    /// What an observer learns: the outcome, where one was published; that the
    /// task was aborted, where none can be published any more; else nothing
    /// yet.
    pub fn wait(&self, outcomes: &Outcomes<E>, closed: bool) -> (outcome: Option<
        ResourceOutcome<E>,
    >)
        ensures
            outcome == observed(outcomes@.get(self@), closed),
    {
        match outcomes.published.get(&self.task) {
            Some(outcome) => Some(outcome.clone()),
            None => if closed {
                Some(ResourceOutcome::Aborted)
            } else {
                None
            },
        }
    }
}

/// What is published once a series of outcomes was, each of its task, in order.
pub open spec fn published_all<E>(
    outcomes: Map<u64, ResourceOutcome<E>>,
    series: Seq<(u64, ResourceOutcome<E>)>,
) -> Map<u64, ResourceOutcome<E>>
    decreases series.len(),
{
    if series.len() == 0 {
        outcomes
    } else {
        published(
            published_all(outcomes, series.drop_last()),
            series.last().0,
            series.last().1,
        )
    }
}

/// An outcome that was published stays.
proof fn published_stays<E>(
    outcomes: Map<u64, ResourceOutcome<E>>,
    task: u64,
    later: Seq<(u64, ResourceOutcome<E>)>,
)
    requires
        outcomes.contains_key(task),
    ensures
        published_all(outcomes, later).contains_key(task),
        published_all(outcomes, later)[task] == outcomes[task],
    decreases later.len(),
{
    if later.len() > 0 {
        published_stays(outcomes, task, later.drop_last());
    }
}

/// A generation has one outcome: what was published first of its task is what
/// every observer of it learns from then on, whatever is published after it, of
/// the same or of others, and whether or not anything still can be.
pub proof fn outcome_is_stable<E>(
    outcomes: Map<u64, ResourceOutcome<E>>,
    task: u64,
    first: ResourceOutcome<E>,
    later: Seq<(u64, ResourceOutcome<E>)>,
    closed: bool,
)
    requires
        !outcomes.contains_key(task),
    ensures
        observed(published_all(published(outcomes, task, first), later).get(task), closed) == Some(
            first,
        ),
{
    published_stays(published(outcomes, task, first), task, later);
}

/// What is published of other tasks leaves a task without an outcome.
proof fn unpublished_stays<E>(
    outcomes: Map<u64, ResourceOutcome<E>>,
    task: u64,
    later: Seq<(u64, ResourceOutcome<E>)>,
)
    requires
        !outcomes.contains_key(task),
        forall|i: int| 0 <= i < later.len() ==> (#[trigger] later[i]).0 != task,
    ensures
        !published_all(outcomes, later).contains_key(task),
    decreases later.len(),
{
    if later.len() > 0 {
        assert forall|i: int| 0 <= i < later.drop_last().len() implies (
        #[trigger] later.drop_last()[i]).0 != task by {
            assert(later.drop_last()[i] == later[i]);
        }
        unpublished_stays(outcomes, task, later.drop_last());
        assert(later[later.len() - 1].0 != task);
    }
}

/// All observers of a generation learn the same outcome: of two that have
/// learnt one, at whatever times, both have learnt the same; and what one has
/// learnt, another learns later.
///
/// Where an observer is told that nothing can be published any more, nothing is
/// published of its task later.
pub proof fn observers_agree<E>(
    outcomes: Map<u64, ResourceOutcome<E>>,
    task: u64,
    later: Seq<(u64, ResourceOutcome<E>)>,
    closed: bool,
    closed_later: bool,
)
    requires
        closed ==> closed_later && forall|i: int|
            0 <= i < later.len() ==> (#[trigger] later[i]).0 != task,
    ensures
        ({
            let one = observed(outcomes.get(task), closed);
            let other = observed(published_all(outcomes, later).get(task), closed_later);
            &&& one is Some && other is Some ==> one == other
            &&& one is Some ==> other is Some
            &&& outcomes.contains_key(task) ==> one == Some(outcomes[task])
            &&& !outcomes.contains_key(task) && closed ==> one == Some(
                ResourceOutcome::<E>::Aborted,
            )
        }),
{
    if outcomes.contains_key(task) {
        published_stays(outcomes, task, later);
    } else if closed {
        unpublished_stays(outcomes, task, later);
    }
}

/// The outcome of a task says nothing about another.
pub proof fn outcomes_are_independent<E>(
    outcomes: Map<u64, ResourceOutcome<E>>,
    task: u64,
    outcome: ResourceOutcome<E>,
    other: u64,
    closed: bool,
)
    requires
        other != task,
    ensures
        observed(published(outcomes, task, outcome).get(other), closed) == observed(
            outcomes.get(other),
            closed,
        ),
{
}

} // verus!
