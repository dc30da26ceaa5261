//! Whole lifecycles, as a program that embeds the library drives them.

use resourcery::context::{Acquisition, Construction, Request};
use resourcery::domain::{Claim, Domain};
use resourcery::lifecycle::Phase;
use resourcery::reference::{panic_message, Outcomes, TaskExit};
use resourcery::{AcquireError, ResourceCompletion, ResourceContext, ResourceOutcome, ResourceRef};
use std::convert::Infallible;
use tokio_util::sync::CancellationToken;

/// The number of the one resource type in these tests.
const TYPE: u64 = 0;

fn context() -> (Domain<CancellationToken>, ResourceContext) {
    let domain = Domain::new();
    let cx = ResourceContext::for_resource(&domain, domain.child_token());
    (domain, cx)
}

fn keyed(key: u64) -> Request {
    Request { resource_type: TYPE, key: Some(key) }
}

fn build(
    domain: &mut Domain<CancellationToken>,
    cx: &ResourceContext,
    claim: Claim,
) -> Result<ResourceRef, AcquireError> {
    let token = domain.child_token();
    let handle = token.clone();
    cx.create(domain, claim, Construction::Built { cancellation: token, handle })
        .map_err(|refusal| refusal.error)
}

/// Acquires an identity that no other caller is constructing.
fn get_or_spawn(
    domain: &mut Domain<CancellationToken>,
    cx: &ResourceContext,
    key: u64,
) -> Result<ResourceRef, AcquireError> {
    match cx.get_or_spawn(domain, keyed(key))? {
        Acquisition::Ready(reference) => Ok(reference),
        Acquisition::Build(claim) => build(domain, cx, claim),
        Acquisition::Wait => panic!("nobody else constructs"),
    }
}

/// Lets a task that was told to stop return.
fn run_to_end(
    domain: &mut Domain<CancellationToken>,
    task: u64,
    outcomes: &mut Outcomes<Infallible>,
) -> bool {
    assert!(domain.handle(task).unwrap().is_cancelled());
    ResourceContext::conclude(domain, task, outcomes, TaskExit::Returned(Ok(())))
}

#[test]
fn completion_does_not_hold_a_lease_and_is_multicast() {
    let (mut domain, cx) = context();
    let mut outcomes = Outcomes::new();
    let mut cancellations = 0;
    let resource = get_or_spawn(&mut domain, &cx, 1).unwrap();
    let task = resource.task();
    let token = domain.cancellation(task).unwrap();
    let first: ResourceCompletion<Infallible> = resource.completion();
    let second = first.clone();
    assert!(first.wait(&outcomes, false).is_none());
    assert_eq!(domain.leases(task), 1);
    assert!(!token.is_cancelled());
    resource.release(&mut domain);
    if token.is_cancelled() {
        cancellations += 1;
    }
    run_to_end(&mut domain, task, &mut outcomes);

    assert!(matches!(first.wait(&outcomes, false), Some(ResourceOutcome::Completed)));
    assert!(matches!(second.wait(&outcomes, false), Some(ResourceOutcome::Completed)));
    assert_eq!(cancellations, 1);
}

#[test]
fn panic_is_a_stable_terminal_outcome() {
    let (mut domain, cx) = context();
    let mut outcomes = Outcomes::new();
    let claim = cx.spawn(&mut domain, keyed(0)).unwrap();
    let resource = build(&mut domain, &cx, claim).unwrap();
    let one: ResourceCompletion<Infallible> = resource.completion();
    let two = one.clone();
    let exit = TaskExit::Panicked(panic_message(Some("managed boom"), None));
    ResourceContext::conclude(&mut domain, resource.task(), &mut outcomes, exit);
    assert!(
        matches!(one.wait(&outcomes, false), Some(ResourceOutcome::Panicked(message)) if message.contains("managed boom"))
    );
    assert!(matches!(two.wait(&outcomes, true), Some(ResourceOutcome::Panicked(_))));
}

#[test]
fn concurrent_canonical_acquisition_builds_once() {
    let (mut domain, cx) = context();
    let mut claims = Vec::new();
    let mut waiting = 0;
    for _ in 0..16 {
        match cx.get_or_spawn(&mut domain, keyed(7)).unwrap() {
            Acquisition::Build(claim) => claims.push(claim),
            Acquisition::Wait => waiting += 1,
            Acquisition::Ready(_) => panic!("nothing is built yet"),
        }
    }
    assert_eq!(claims.len(), 1);
    assert_eq!(waiting, 15);
    let mut resources = vec![build(&mut domain, &cx, claims.pop().unwrap()).unwrap()];
    for _ in 0..waiting {
        match cx.get_or_spawn(&mut domain, keyed(7)).unwrap() {
            Acquisition::Ready(reference) => resources.push(reference),
            _ => panic!("the generation is active"),
        }
    }
    assert!(resources
        .iter()
        .all(|resource| resource.generation() == resources[0].generation()
            && resource.task() == resources[0].task()));
    assert_eq!(domain.active_tasks(), 1);
    let task = resources[0].task();
    assert_eq!(domain.leases(task), 16);
    for resource in resources {
        assert_eq!(domain.task_phase(task), Some(Phase::Active));
        resource.release(&mut domain);
    }
    assert_eq!(domain.task_phase(task), Some(Phase::Cancelling));
}

#[test]
fn terminal_generation_is_removed_and_old_cleanup_is_generation_safe() {
    let (mut domain, cx) = context();
    let old = get_or_spawn(&mut domain, &cx, 9).unwrap();
    let old_task = old.task();
    let old_done = old.completion();
    let mut outcomes = Outcomes::new();
    old.release(&mut domain);
    let replacement = get_or_spawn(&mut domain, &cx, 9).unwrap();
    let replacement_task = replacement.task();
    assert_ne!(replacement_task, old_task);
    run_to_end(&mut domain, old_task, &mut outcomes);
    assert!(old_done.wait(&outcomes, false).is_some());
    let found = cx.get(&mut domain, keyed(9)).unwrap();
    assert_eq!(found.generation(), replacement.generation());
    found.release(&mut domain);
    replacement.release(&mut domain);
    assert!(!domain.shutdown());
    assert!(run_to_end(&mut domain, replacement_task, &mut outcomes));
    assert!(domain.shutdown());
    assert_eq!(domain.registry(TYPE).entries_len(), 0);
    assert_eq!(domain.active_tasks(), 0);
}

#[test]
fn repeated_create_and_drop_does_not_grow_registry_or_supervisor() {
    let (mut domain, cx) = context();
    let mut outcomes = Outcomes::new();
    for generation in 0..100 {
        let resource = get_or_spawn(&mut domain, &cx, generation).unwrap();
        let task = resource.task();
        let completion = resource.completion();
        resource.release(&mut domain);
        run_to_end(&mut domain, task, &mut outcomes);
        assert!(completion.wait(&outcomes, false).is_some());
    }
    assert!(domain.registry(TYPE).entries_is_empty());
    assert!(domain.registry(TYPE).live_snapshot().is_empty());
    assert_eq!(domain.active_tasks(), 0);
}

#[test]
fn shutdown_is_awaitable_idempotent_and_rejects_acquisition() {
    let (mut domain, cx) = context();
    let resource = get_or_spawn(&mut domain, &cx, 11).unwrap();
    let mut outcomes = Outcomes::new();
    assert!(!domain.shutdown());
    assert!(resource.finished(&outcomes, false).is_none());
    assert!(run_to_end(&mut domain, resource.task(), &mut outcomes));
    assert!(domain.shutdown());
    assert!(matches!(resource.finished(&outcomes, false), Some(ResourceOutcome::Completed)));
    assert!(matches!(
        get_or_spawn(&mut domain, &cx, 12),
        Err(AcquireError::ShuttingDown)
    ));
    assert!(domain.shutdown());
}

#[test]
fn forced_termination_publishes_aborted_and_quiesces() {
    let (mut domain, cx) = context();
    let claim = cx.spawn(&mut domain, keyed(0)).unwrap();
    let resource = build(&mut domain, &cx, claim).unwrap();
    let completion: ResourceCompletion<Infallible> = resource.completion();
    let mut outcomes = Outcomes::new();
    let (aborts, quiescent) = domain.terminate();
    assert_eq!(aborts, vec![resource.task()]);
    assert!(!quiescent);
    assert!(ResourceContext::conclude(
        &mut domain,
        resource.task(),
        &mut outcomes,
        TaskExit::Terminated
    ));
    assert!(matches!(completion.wait(&outcomes, false), Some(ResourceOutcome::Aborted)));
    assert!(domain.is_terminated());
    assert_eq!(domain.active_tasks(), 0);
}
