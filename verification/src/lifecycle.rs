//! The lifecycle of one generation.
//!
//! A generation starts, becomes active, is cancelled and finishes. It may be
//! cancelled before it was active, and it may finish without having been
//! cancelled. Its strong references are its leases: releasing the last one
//! requests cancellation.

use crate::signal::{cancel_token, cancelled, clone_token, lineage, told};
use tokio_util::sync::CancellationToken;
use vstd::prelude::*;

verus! {

/// How far a generation has come.
#[derive(Clone, Copy, Debug, PartialEq, Eq, Structural)]
pub enum Phase {
    /// Its interface exists and its task is not supervised yet.
    Starting,
    /// Its task is supervised and it grants leases.
    Active,
    /// Its task was asked to stop and has not ended yet.
    Cancelling,
    /// Its task has ended.
    Finished,
}

/// A generation's lifecycle as a value: its phase, the number of strong
/// references that hold it, the token that tells its task to stop, and whether
/// its cancellation was requested.
pub struct ControlView {
    /// How far the generation has come.
    pub phase: Phase,
    /// How many strong references hold it. A finished generation is held by
    /// none: what is left of it can be read and needs no keeping alive.
    pub leases: nat,
    /// The lineage of the token that its task waits for.
    pub token: Seq<int>,
    /// Whether its cancellation was requested.
    pub cancelled: bool,
}

impl ControlView {
    /// A generation that was just constructed, held by its creator.
    pub open spec fn fresh(token: Seq<int>, cancelled: bool) -> ControlView {
        ControlView { phase: Phase::Starting, leases: 1, token, cancelled }
    }

    /// What holds of every generation: one that runs is held, one that is
    /// being cancelled had its cancellation requested, and a finished one has
    /// no leases.
    pub open spec fn wf(self) -> bool {
        match self.phase {
            Phase::Starting | Phase::Active => self.leases >= 1,
            Phase::Cancelling => self.cancelled,
            Phase::Finished => self.leases == 0,
        }
    }

    /// The supervisor takes the task over.
    pub open spec fn activate(self) -> ControlView {
        if self.phase == Phase::Starting {
            ControlView { phase: Phase::Active, ..self }
        } else {
            self
        }
    }

    /// A registry or a weak reference asks for a lease: only an active
    /// generation grants it.
    pub open spec fn acquire(self) -> ControlView {
        if self.phase == Phase::Active {
            ControlView { leases: self.leases + 1, ..self }
        } else {
            self
        }
    }

    /// A strong reference is cloned: one more lease, unless the generation is
    /// finished.
    pub open spec fn clone_lease(self) -> ControlView {
        if self.phase == Phase::Finished {
            self
        } else {
            ControlView { leases: self.leases + 1, ..self }
        }
    }

    /// A strong reference is dropped: releasing the last lease cancels.
    pub open spec fn release(self) -> ControlView {
        if self.phase == Phase::Finished {
            self
        } else if self.leases <= 1 {
            ControlView { leases: 0, ..self }.cancel()
        } else {
            ControlView { leases: (self.leases - 1) as nat, ..self }
        }
    }

    /// Cancellation is requested: of a generation that has not been cancelled
    /// and has not finished.
    pub open spec fn cancel(self) -> ControlView {
        if self.phase == Phase::Starting || self.phase == Phase::Active {
            ControlView { phase: Phase::Cancelling, cancelled: true, ..self }
        } else {
            self
        }
    }

    /// The task has ended, however it did.
    pub open spec fn finish(self) -> ControlView {
        ControlView { phase: Phase::Finished, leases: 0, ..self }
    }
}

/// The lifecycle of one generation, with the token that tells its task to
/// stop.
pub struct Control {
    phase: Phase,
    leases: u64,
    cancellation: CancellationToken,
}

impl View for Control {
    type V = ControlView;

    closed spec fn view(&self) -> ControlView {
        ControlView {
            phase: self.phase,
            leases: self.leases as nat,
            token: lineage(self.cancellation),
            cancelled: cancelled(self.cancellation),
        }
    }
}

impl Control {
    /// A generation that was just constructed and is cancelled through
    /// `cancellation`.
    pub fn new(cancellation: CancellationToken) -> (control: Self)
        ensures
            control@ == ControlView::fresh(lineage(cancellation), cancelled(cancellation)),
            control@.wf(),
        opens_invariants none
    {
        Control { phase: Phase::Starting, leases: 1, cancellation }
    }

    /// How far the generation has come.
    pub fn phase(&self) -> (phase: Phase)
        ensures
            phase == self@.phase,
        opens_invariants none
    {
        self.phase
    }

    /// How many strong references hold the generation.
    pub fn leases(&self) -> (leases: u64)
        ensures
            leases == self@.leases,
        opens_invariants none
    {
        self.leases
    }

    /// A handle on the token that is cancelled with the generation.
    pub fn cancellation(&self) -> (token: CancellationToken)
        ensures
            lineage(token) == self@.token,
            cancelled(token) == self@.cancelled,
        opens_invariants none
    {
        clone_token(&self.cancellation)
    }

    /// Makes a generation that was starting active, and says whether it was
    /// starting.
    pub fn activate(&mut self) -> (activated: bool)
        ensures
            activated == (old(self)@.phase == Phase::Starting),
            final(self)@ == old(self)@.activate(),
    {
        if self.phase == Phase::Starting {
            self.phase = Phase::Active;
            true
        } else {
            false
        }
    }

    /// Whether the generation grants leases.
    pub fn is_active(&self) -> (active: bool)
        ensures
            active == (self@.phase == Phase::Active),
        opens_invariants none
    {
        self.phase == Phase::Active
    }

    /// Takes a lease on an active generation, and says whether it was active.
    pub fn acquire(&mut self) -> (acquired: bool)
        requires
            old(self)@.leases < u64::MAX,
        ensures
            acquired == (old(self)@.phase == Phase::Active),
            final(self)@ == old(self)@.acquire(),
    {
        if self.phase == Phase::Active {
            self.leases = self.leases + 1;
            true
        } else {
            false
        }
    }

    /// Takes a lease on behalf of a reference that is being cloned.
    pub fn clone_lease(&mut self)
        requires
            old(self)@.leases < u64::MAX,
        ensures
            final(self)@ == old(self)@.clone_lease(),
    {
        if self.phase != Phase::Finished {
            self.leases = self.leases + 1;
        }
    }

    /// Gives a lease back. The last one to be given back requests
    /// cancellation.
    pub fn release(&mut self)
        ensures
            final(self)@ == old(self)@.release(),
        opens_invariants told(
            old(self)@.token,
            old(self)@.leases <= 1 && (old(self)@.phase == Phase::Starting || old(self)@.phase == Phase::Active),
        )
    {
        if self.phase != Phase::Finished {
            if self.leases <= 1 {
                self.leases = 0;
                if self.phase != Phase::Cancelling {
                    cancel_token(&mut self.cancellation);
                    self.phase = Phase::Cancelling;
                }
            } else {
                self.leases = self.leases - 1;
            }
        }
    }

    /// Records that the task has ended.
    pub fn finish(&mut self)
        ensures
            final(self)@ == old(self)@.finish(),
    {
        self.phase = Phase::Finished;
        self.leases = 0;
    }

    /// Requests cancellation, unless that was done before or the generation
    /// has finished.
    pub fn cancel(&mut self)
        ensures
            final(self)@ == old(self)@.cancel(),
        opens_invariants told(
            old(self)@.token,
            old(self)@.phase == Phase::Starting || old(self)@.phase == Phase::Active,
        )
    {
        if self.phase == Phase::Starting || self.phase == Phase::Active {
            cancel_token(&mut self.cancellation);
            self.phase = Phase::Cancelling;
        }
    }
}

/// Something that happens to a generation.
pub enum Step {
    /// Its task is taken over by the supervisor.
    Activate,
    /// A registry or a weak reference asks for a lease.
    Acquire,
    /// A strong reference is cloned.
    CloneLease,
    /// A strong reference is dropped.
    Release,
    /// Its cancellation is requested.
    Cancel,
    /// Its task ends.
    Finish,
}

/// A generation after one step.
pub open spec fn after(control: ControlView, step: Step) -> ControlView {
    match step {
        Step::Activate => control.activate(),
        Step::Acquire => control.acquire(),
        Step::CloneLease => control.clone_lease(),
        Step::Release => control.release(),
        Step::Cancel => control.cancel(),
        Step::Finish => control.finish(),
    }
}

/// A generation after the steps of a history, in order.
pub open spec fn after_all(control: ControlView, history: Seq<Step>) -> ControlView
    decreases history.len(),
{
    if history.len() == 0 {
        control
    } else {
        after(after_all(control, history.drop_last()), history.last())
    }
}

/// Whether a step requests cancellation: it takes the generation out of the
/// phases in which it was not cancelled and had not finished, into the one in
/// which it is being cancelled.
pub open spec fn requests(control: ControlView, step: Step) -> bool {
    control.phase != Phase::Cancelling && after(control, step).phase == Phase::Cancelling
}

/// How often cancellation is requested in a history.
pub open spec fn requests_in(control: ControlView, history: Seq<Step>) -> nat
    decreases history.len(),
{
    if history.len() == 0 {
        0
    } else {
        requests_in(control, history.drop_last()) + (if requests(
            after_all(control, history.drop_last()),
            history.last(),
        ) {
            1nat
        } else {
            0nat
        })
    }
}

/// Phases in the order in which a generation goes through them.
pub open spec fn rank(phase: Phase) -> int {
    match phase {
        Phase::Starting => 0,
        Phase::Active => 1,
        Phase::Cancelling => 2,
        Phase::Finished => 3,
    }
}

/// Every step keeps what holds of every generation and its token, never takes
/// it back to an earlier phase and never withdraws a request for cancellation.
pub proof fn steps_keep_lifecycle(control: ControlView, step: Step)
    requires
        control.wf(),
    ensures
        after(control, step).wf(),
        rank(control.phase) <= rank(after(control, step).phase),
        control.cancelled ==> after(control, step).cancelled,
        after(control, step).token == control.token,
{
}

/// Whatever happens to a generation, its token stays the one that its task was
/// given.
pub proof fn token_is_kept(control: ControlView, history: Seq<Step>)
    ensures
        after_all(control, history).token == control.token,
    decreases history.len(),
{
    if history.len() > 0 {
        token_is_kept(control, history.drop_last());
    }
}

/// Nothing that happens to a finished generation changes it.
pub proof fn finished_is_final(control: ControlView, history: Seq<Step>)
    ensures
        after_all(control.finish(), history) == control.finish(),
    decreases history.len(),
{
    if history.len() > 0 {
        finished_is_final(control, history.drop_last());
    }
}

/// Whatever happens to a generation, in whatever order and however often, its
/// cancellation is requested at most once; and it was requested if the
/// generation is being cancelled.
pub proof fn cancellation_is_requested_at_most_once(token: Seq<int>, history: Seq<Step>)
    ensures
        requests_in(ControlView::fresh(token, false), history) <= 1,
        after_all(ControlView::fresh(token, false), history).wf(),
        rank(after_all(ControlView::fresh(token, false), history).phase) < rank(Phase::Cancelling)
            ==> requests_in(ControlView::fresh(token, false), history) == 0,
        after_all(ControlView::fresh(token, false), history).cancelled == (requests_in(
            ControlView::fresh(token, false),
            history,
        ) == 1),
    decreases history.len(),
{
    if history.len() > 0 {
        cancellation_is_requested_at_most_once(token, history.drop_last());
    }
}

/// Releasing the last lease of an active generation requests its
/// cancellation, and releasing an earlier one does not.
pub proof fn releasing_the_last_lease_cancels(control: ControlView)
    requires
        control.wf(),
        control.phase == Phase::Active,
    ensures
        requests(control, Step::Release) == (control.leases == 1),
        control.leases == 1 ==> control.release().phase == Phase::Cancelling
            && control.release().cancelled,
        control.leases > 1 ==> control.release() == (ControlView {
            leases: (control.leases - 1) as nat,
            ..control
        }),
{
}

/// A lease that is taken and given back leaves an active generation as it
/// was.
pub proof fn acquire_then_release_changes_nothing(control: ControlView)
    requires
        control.wf(),
        control.phase == Phase::Active,
    ensures
        control.acquire().release() == control,
{
}

/// Cancelling a generation twice is the same as cancelling it once.
pub proof fn cancel_is_idempotent(control: ControlView)
    ensures
        control.cancel().cancel() == control.cancel(),
{
}

} // verus!
