//! What a domain guarantees, on concrete domains.

use resourcery::context::{Acquisition, Construction, Request};
use resourcery::domain::{Claim, Domain};
use resourcery::lifecycle::Phase;
use resourcery::reference::{Outcomes, TaskExit};
use resourcery::registry::RegistrySlotState;
use resourcery::{
    AcquireError, ResourceCompletion, ResourceContext, ResourceOutcome, ResourceRef,
    ResourceStatus,
};
use std::collections::HashSet;

fn context() -> (Domain<&'static str>, ResourceContext) {
    let domain = Domain::new();
    let cx = ResourceContext::for_resource(&domain, domain.child_token());
    (domain, cx)
}

fn keyed(resource_type: u64, key: u64) -> Request {
    Request { resource_type, key: Some(key) }
}

fn unique(resource_type: u64) -> Request {
    Request { resource_type, key: None }
}

fn establish(
    domain: &mut Domain<&'static str>,
    cx: &ResourceContext,
    claim: Claim,
    handle: &'static str,
) -> ResourceRef {
    let cancellation = domain.child_token();
    match cx.create(domain, claim, Construction::Built { cancellation, handle }) {
        Ok(reference) => reference,
        Err(_) => panic!("the domain accepts work"),
    }
}

fn spawn(
    domain: &mut Domain<&'static str>,
    cx: &ResourceContext,
    request: Request,
    handle: &'static str,
) -> ResourceRef {
    let claim = cx.spawn(domain, request).ok().unwrap();
    establish(domain, cx, claim, handle)
}

fn end(domain: &mut Domain<&'static str>, task: u64) -> bool {
    let mut outcomes: Outcomes<()> = Outcomes::new();
    ResourceContext::conclude(domain, task, &mut outcomes, TaskExit::Returned(Ok(())))
}

#[test]
fn an_identity_has_one_active_generation() {
    let (mut domain, cx) = context();
    let held = spawn(&mut domain, &cx, keyed(2, 5), "first");
    assert_eq!(cx.spawn(&mut domain, keyed(2, 5)).err(), Some(AcquireError::Occupied));
    match cx.try_get_or_spawn(&mut domain, keyed(2, 5)) {
        Ok(Acquisition::Ready(reference)) => {
            assert_eq!(reference.task(), held.task());
            assert_eq!(reference.generation(), held.generation());
        },
        _ => panic!("the active generation is reused"),
    }
    assert_eq!(domain.leases(held.task()), 2);
    assert_eq!(domain.handle(held.task()), Some(&"first"));
}

#[test]
fn a_pending_claim_excludes_others() {
    let (mut domain, cx) = context();
    let claim = cx.spawn(&mut domain, keyed(2, 5)).ok().unwrap();
    assert_eq!(cx.spawn(&mut domain, keyed(2, 5)).err(), Some(AcquireError::Occupied));
    assert!(matches!(
        cx.try_get_or_spawn(&mut domain, keyed(2, 5)),
        Err(AcquireError::Occupied)
    ));
    assert!(matches!(cx.get_or_spawn(&mut domain, keyed(2, 5)), Ok(Acquisition::Wait)));
    assert!(cx.get(&mut domain, keyed(2, 5)).is_none());
    assert!(matches!(cx.status(&mut domain, keyed(2, 5)), ResourceStatus::Starting));
    assert_eq!(
        domain.state(2, 5),
        Some(RegistrySlotState::Starting { generation: claim.generation() })
    );
    let other = spawn(&mut domain, &cx, keyed(2, 6), "other");
    end(&mut domain, other.task());
    let reference = establish(&mut domain, &cx, claim, "settled");
    assert!(matches!(
        cx.status(&mut domain, keyed(2, 5)),
        ResourceStatus::Active(found) if found.task() == reference.task()
    ));
}

#[test]
fn failed_construction_frees_the_identity() {
    let (mut domain, cx) = context();
    let kept = spawn(&mut domain, &cx, keyed(2, 6), "kept");
    let claim = cx.spawn(&mut domain, keyed(2, 5)).ok().unwrap();
    match cx.create(&mut domain, claim, Construction::Panicked) {
        Err(refusal) => {
            assert_eq!(refusal.error, AcquireError::ConstructionPanicked);
            assert!(refusal.task.is_none());
        },
        Ok(_) => panic!("nothing was constructed"),
    }
    assert_eq!(domain.state(2, 5), None);
    assert!(matches!(cx.status(&mut domain, keyed(2, 5)), ResourceStatus::Absent));
    assert!(cx.get(&mut domain, keyed(2, 6)).is_some());
    let next = spawn(&mut domain, &cx, keyed(2, 5), "next");
    assert_ne!(next.task(), kept.task());
}

#[test]
fn a_construction_that_outlives_the_domain_is_refused() {
    let (mut domain, cx) = context();
    let claim = cx.spawn(&mut domain, keyed(2, 5)).ok().unwrap();
    assert!(domain.cancel());
    let cancellation = domain.child_token();
    match cx.create(&mut domain, claim, Construction::Built { cancellation, handle: "late" }) {
        Err(refusal) => {
            assert_eq!(refusal.error, AcquireError::ShuttingDown);
            let (token, handle) = refusal.task.unwrap();
            assert!(token.is_cancelled());
            assert_eq!(handle, "late");
        },
        Ok(_) => panic!("the domain accepts no work"),
    }
    assert!(domain.registry(2).entries_is_empty());
    assert_eq!(domain.active_tasks(), 0);
}

#[test]
fn a_unique_claim_is_refused_when_it_is_settled_late() {
    let (mut domain, cx) = context();
    let claim = match cx.get_or_spawn(&mut domain, unique(2)) {
        Ok(Acquisition::Build(claim)) => claim,
        _ => panic!("a unique generation may be constructed"),
    };
    domain.cancel();
    let cancellation = domain.child_token();
    match cx.create(&mut domain, claim, Construction::Built { cancellation, handle: "late" }) {
        Err(refusal) => assert_eq!(refusal.error, AcquireError::ShuttingDown),
        Ok(_) => panic!("the domain accepts no work"),
    }
}

#[test]
fn unique_requests_are_refused_after_shutdown() {
    let (mut domain, cx) = context();
    domain.cancel();
    assert_eq!(cx.spawn(&mut domain, unique(2)).err(), Some(AcquireError::ShuttingDown));
    assert!(matches!(
        cx.get_or_spawn(&mut domain, unique(2)),
        Err(AcquireError::ShuttingDown)
    ));
    assert!(matches!(
        cx.try_get_or_spawn(&mut domain, unique(2)),
        Err(AcquireError::ShuttingDown)
    ));
}

#[test]
fn a_context_learns_of_its_domain_and_its_task() {
    let (mut domain, cx) = context();
    let (mut elsewhere, _) = context();
    let claim = cx.spawn(&mut domain, keyed(2, 5)).ok().unwrap();
    let token = domain.child_token();
    let mut own = ResourceContext::for_resource(&domain, token.clone());
    let construction = Construction::Built { cancellation: token, handle: "task" };
    let held = cx.create(&mut domain, claim, construction).ok().unwrap();
    let other = spawn(&mut domain, &cx, keyed(2, 6), "other");
    let (task, other_task) = (held.task(), other.task());
    let mut bystander = cx.clone();
    elsewhere.cancel();
    assert!(!own.cancelled_in(&elsewhere, task));
    assert!(!own.cancelled_in(&domain, task));
    other.release(&mut domain);
    assert!(!own.cancelled_in(&domain, other_task));
    held.release(&mut domain);
    assert!(own.cancelled_in(&domain, task));
    assert!(own.cancelled());
    assert!(!bystander.cancelled_in(&domain, task));
    domain.cancel();
    assert!(bystander.cancelled_in(&domain, task));
}

#[test]
fn unique_generations_are_independent() {
    let (mut domain, cx) = context();
    let first = spawn(&mut domain, &cx, unique(2), "first");
    let second = spawn(&mut domain, &cx, unique(2), "second");
    assert_ne!(first.generation(), second.generation());
    assert_ne!(first.task(), second.task());
    assert!(cx.get(&mut domain, unique(2)).is_none());
    assert!(matches!(cx.status(&mut domain, unique(2)), ResourceStatus::Absent));
    assert!(matches!(
        cx.try_get_or_spawn(&mut domain, unique(2)),
        Ok(Acquisition::Build(_))
    ));
    first.release(&mut domain);
    assert_eq!(domain.task_phase(second.task()), Some(Phase::Active));
}

#[test]
fn all_lists_active_generations_of_a_type() {
    let (mut domain, cx) = context();
    let canonical = spawn(&mut domain, &cx, keyed(2, 5), "canonical");
    let unlisted = spawn(&mut domain, &cx, keyed(3, 5), "another type");
    let alone = spawn(&mut domain, &cx, unique(2), "unique");
    let cancelled = spawn(&mut domain, &cx, keyed(2, 6), "cancelled");
    cancelled.release(&mut domain);
    let found: HashSet<u64> =
        cx.all(&mut domain, 2).iter().map(|reference| reference.task()).collect();
    assert_eq!(found, HashSet::from([canonical.task(), alone.task()]));
    assert_eq!(domain.leases(canonical.task()), 2);
    assert_eq!(domain.leases(alone.task()), 2);
    assert_eq!(domain.leases(unlisted.task()), 1);
    assert!(cx.all(&mut domain, 9).is_empty());
}

#[test]
fn identities_are_scoped_by_type_and_key() {
    let (mut domain, cx) = context();
    let one = spawn(&mut domain, &cx, keyed(2, 5), "one");
    let two = spawn(&mut domain, &cx, keyed(3, 5), "two");
    let three = spawn(&mut domain, &cx, keyed(2, 6), "three");
    let tasks = HashSet::from([one.task(), two.task(), three.task()]);
    assert_eq!(tasks.len(), 3);
    for (request, reference) in [(keyed(2, 5), one), (keyed(3, 5), two), (keyed(2, 6), three)] {
        assert_eq!(cx.get(&mut domain, request).unwrap().task(), reference.task());
    }
}

#[test]
fn domains_share_nothing() {
    let (mut first, cx) = context();
    let (mut second, mut other) = context();
    assert!(cx.belongs_to(&first));
    assert!(!cx.belongs_to(&second));
    assert!(other.clone().belongs_to(&second));
    let _held = spawn(&mut first, &cx, keyed(2, 5), "first");
    assert!(other.get(&mut second, keyed(2, 5)).is_none());
    first.cancel();
    assert!(second.is_accepting());
    assert!(!other.cancelled());
}

#[test]
fn only_references_are_leases() {
    let (mut domain, cx) = context();
    let held = spawn(&mut domain, &cx, keyed(2, 5), "held");
    let task = held.task();
    let weak = held.downgrade();
    assert_eq!(domain.leases(task), 1);
    let upgraded = weak.upgrade(&mut domain).unwrap();
    assert_eq!(upgraded.generation(), held.generation());
    assert_eq!(domain.leases(task), 2);
    let copy = held.clone(&mut domain);
    assert_eq!(copy.task(), task);
    assert_eq!(domain.leases(task), 3);
    upgraded.release(&mut domain);
    copy.release(&mut domain);
    assert_eq!(domain.task_phase(task), Some(Phase::Active));
    held.release(&mut domain);
    assert_eq!(domain.task_phase(task), Some(Phase::Cancelling));
    assert!(weak.upgrade(&mut domain).is_none());
    assert_eq!(domain.leases(task), 0);
    end(&mut domain, task);
    assert_eq!(domain.task_phase(task), None);
    assert!(weak.upgrade(&mut domain).is_none());
}

#[test]
fn a_finished_generation_grants_no_leases() {
    let (mut domain, cx) = context();
    let held = spawn(&mut domain, &cx, keyed(2, 5), "held");
    ResourceContext::finish(&mut domain, held.task());
    assert_eq!(domain.task_phase(held.task()), Some(Phase::Finished));
    let copy = held.clone(&mut domain);
    assert_eq!(domain.leases(held.task()), 0);
    copy.release(&mut domain);
    assert!(held.downgrade().upgrade(&mut domain).is_none());
    assert!(!domain.task_finished(held.task()));
    assert_eq!(domain.active_tasks(), 0);
}

#[test]
fn dropping_what_a_task_owned_reclaims_what_it_alone_required() {
    let (mut domain, cx) = context();
    let application = spawn(&mut domain, &cx, unique(1), "application");
    let alone = spawn(&mut domain, &cx, keyed(2, 1), "required by the application");
    let shared = spawn(&mut domain, &cx, keyed(2, 2), "required by others too");
    let kept = shared.clone(&mut domain);
    let owned = vec![alone, shared];
    let tasks: Vec<u64> = owned.iter().map(|reference| reference.task()).collect();
    end(&mut domain, application.task());
    for reference in owned {
        reference.release(&mut domain);
    }
    assert_eq!(domain.task_phase(tasks[0]), Some(Phase::Cancelling));
    assert_eq!(domain.task_phase(tasks[1]), Some(Phase::Active));
    assert_eq!(domain.leases(kept.task()), 1);
}

#[test]
fn references_never_move_to_a_replacement() {
    let (mut domain, cx) = context();
    let old = spawn(&mut domain, &cx, keyed(2, 5), "old");
    let weak = old.downgrade();
    end(&mut domain, old.task());
    let new = spawn(&mut domain, &cx, keyed(2, 5), "new");
    assert_ne!(old.task(), new.task());
    assert_ne!(old.generation(), new.generation());
    assert!(weak.upgrade(&mut domain).is_none());
    old.release(&mut domain);
    assert_eq!(domain.leases(new.task()), 1);
    assert_eq!(domain.handle(new.task()), Some(&"new"));
}

#[test]
fn reuse_does_not_reconfigure() {
    let (mut domain, cx) = context();
    let held = spawn(&mut domain, &cx, keyed(2, 5), "first");
    for _ in 0..3 {
        assert!(cx.get_or_spawn(&mut domain, keyed(2, 5)).is_ok());
        assert_eq!(domain.handle(held.task()), Some(&"first"));
    }
}

#[test]
fn old_cleanup_spares_a_generation_under_construction() {
    let (mut domain, cx) = context();
    let old = spawn(&mut domain, &cx, keyed(2, 5), "old");
    let old_task = old.task();
    old.release(&mut domain);
    let claim = cx.spawn(&mut domain, keyed(2, 5)).ok().unwrap();
    end(&mut domain, old_task);
    assert!(matches!(cx.status(&mut domain, keyed(2, 5)), ResourceStatus::Starting));
    let new = establish(&mut domain, &cx, claim, "new");
    assert_eq!(cx.get(&mut domain, keyed(2, 5)).unwrap().task(), new.task());
}

#[test]
fn shutdown_is_permanent_and_refuses_everything_but_clones() {
    let (mut domain, mut cx) = context();
    let held = spawn(&mut domain, &cx, keyed(2, 5), "held");
    let other = spawn(&mut domain, &cx, unique(2), "other");
    let weak = held.downgrade();
    let shutdown = domain.shutdown_token();
    assert!(!cx.cancelled());
    assert!(!shutdown.is_cancelled());
    assert!(!domain.cancel());
    assert!(!domain.cancel());
    assert!(cx.cancelled());
    assert!(shutdown.is_cancelled());
    assert!(domain.child_token().is_cancelled());
    assert!(!domain.is_accepting());
    for task in [held.task(), other.task()] {
        assert_eq!(domain.task_phase(task), Some(Phase::Cancelling));
        assert!(domain.cancellation(task).unwrap().is_cancelled());
    }
    assert_eq!(cx.spawn(&mut domain, keyed(2, 5)).err(), Some(AcquireError::ShuttingDown));
    assert_eq!(cx.spawn(&mut domain, unique(2)).err(), Some(AcquireError::ShuttingDown));
    assert!(matches!(
        cx.try_get_or_spawn(&mut domain, keyed(2, 5)),
        Err(AcquireError::ShuttingDown)
    ));
    assert!(cx.get(&mut domain, keyed(2, 5)).is_none());
    assert!(matches!(cx.status(&mut domain, keyed(2, 5)), ResourceStatus::Absent));
    assert!(cx.all(&mut domain, 2).is_empty());
    assert!(weak.upgrade(&mut domain).is_none());
    let _copy = held.clone(&mut domain);
    assert_eq!(domain.leases(held.task()), 2);

    assert!(!domain.is_terminated());
    assert!(!end(&mut domain, other.task()));
    assert!(!domain.is_terminated());
    assert!(end(&mut domain, held.task()));
    assert!(domain.is_terminated());
    assert!(!domain.cancel());
    assert!(domain.is_terminated());
    assert!(!domain.is_accepting());
}

#[test]
fn a_domain_without_tasks_terminates_at_once() {
    let (mut domain, _) = context();
    assert!(domain.can_claim());
    assert!(domain.can_grant());
    assert!(domain.can_establish());
    assert!(domain.cancel());
    assert!(domain.is_terminated());
    assert!(domain.shutdown());
}

#[test]
fn termination_names_every_task() {
    let (mut domain, cx) = context();
    let tasks: HashSet<u64> = (0..5)
        .map(|key| spawn(&mut domain, &cx, keyed(2, key), "stuck").task())
        .collect();
    let (aborts, quiescent) = domain.terminate();
    assert!(!quiescent);
    assert_eq!(aborts.len(), 5);
    assert_eq!(aborts.into_iter().collect::<HashSet<u64>>(), tasks);
}

#[test]
fn a_context_sees_its_own_token() {
    let domain: Domain<&'static str> = Domain::new();
    let token = domain.child_token();
    let mut cx = ResourceContext::for_resource(&domain, token.clone());
    let mut sibling = ResourceContext::for_resource(&domain, domain.child_token());
    assert!(!cx.cancelled());
    token.cancel();
    assert!(cx.cancelled());
    assert!(!sibling.cancelled());
}

#[test]
fn a_domain_hands_out_tokens_of_its_own() {
    let mut domain: Domain<&'static str> = Domain::new();
    let shutdown = domain.shutdown_token();
    let child = domain.child_token();
    let sibling = domain.child_token();
    assert!(domain.shuts_down_through(&shutdown));
    assert!(!domain.shuts_down_through(&child));
    assert!(child != sibling);
    child.cancel();
    assert!(!sibling.is_cancelled());
    assert!(!shutdown.is_cancelled());
    assert!(domain.is_accepting());
    domain.cancel();
    domain.cancel();
    assert!(domain.shutdown_token() == shutdown);
    assert!(shutdown.is_cancelled());
    assert!(sibling.is_cancelled());
}

#[test]
fn a_task_is_told_to_stop_through_the_token_it_was_given() {
    let (mut domain, cx) = context();
    let claim = cx.spawn(&mut domain, keyed(2, 5)).ok().unwrap();
    let token = domain.child_token();
    let waited_on = token.clone();
    let construction = Construction::Built { cancellation: token, handle: "task" };
    let held = cx.create(&mut domain, claim, construction).ok().unwrap();
    let other = spawn(&mut domain, &cx, keyed(2, 6), "other");
    assert!(domain.cancellation(held.task()).unwrap() == waited_on);
    let copy = held.clone(&mut domain);
    copy.release(&mut domain);
    assert!(!waited_on.is_cancelled());
    let task = held.task();
    held.release(&mut domain);
    assert!(waited_on.is_cancelled());
    assert!(domain.cancellation(task).unwrap() == waited_on);
    assert!(!domain.cancellation(other.task()).unwrap().is_cancelled());
}

#[test]
fn a_learnt_outcome_is_of_an_ended_generation() {
    let (mut domain, cx) = context();
    let mut outcomes: Outcomes<u8> = Outcomes::new();
    let held = spawn(&mut domain, &cx, keyed(2, 5), "held");
    let completion: ResourceCompletion<u8> = held.completion();
    assert!(held.finished(&outcomes, false).is_none());
    ResourceContext::conclude(
        &mut domain,
        held.task(),
        &mut outcomes,
        TaskExit::Returned(Err(6)),
    );
    assert!(matches!(
        completion.wait(&outcomes, false),
        Some(ResourceOutcome::Failed(error)) if *error == 6
    ));
    assert!(held.downgrade().upgrade(&mut domain).is_none());
    assert!(cx.get(&mut domain, keyed(2, 5)).is_none());
    assert_eq!(domain.state(2, 5), None);
    let replacement = spawn(&mut domain, &cx, keyed(2, 5), "replacement");
    assert!(replacement.finished(&outcomes, false).is_none());
    assert!(matches!(
        completion.wait(&outcomes, true),
        Some(ResourceOutcome::Failed(error)) if *error == 6
    ));
}

#[test]
fn the_end_of_a_task_is_settled_once() {
    let (mut domain, cx) = context();
    let old = spawn(&mut domain, &cx, keyed(2, 5), "old");
    end(&mut domain, old.task());
    let new = spawn(&mut domain, &cx, keyed(2, 5), "new");
    assert!(!end(&mut domain, old.task()));
    assert_eq!(domain.active_tasks(), 1);
    assert_eq!(cx.get(&mut domain, keyed(2, 5)).unwrap().task(), new.task());
}

#[test]
fn looking_up_builds_nothing() {
    let (mut domain, cx) = context();
    let first = spawn(&mut domain, &cx, keyed(2, 5), "first");
    assert!(cx.get(&mut domain, keyed(2, 6)).is_none());
    assert!(matches!(cx.status(&mut domain, keyed(2, 6)), ResourceStatus::Absent));
    assert_eq!(domain.registry(2).entries_len(), 1);
    assert_eq!(domain.active_tasks(), 1);
    let second = spawn(&mut domain, &cx, keyed(2, 6), "second");
    assert_eq!(second.generation(), first.generation() + 1);
}

#[test]
fn any_task_may_be_told_to_have_left() {
    let (mut domain, cx) = context();
    let held = spawn(&mut domain, &cx, keyed(2, 5), "held");
    assert!(!domain.task_finished(77));
    assert_eq!(domain.active_tasks(), 1);
    assert_eq!(domain.task_phase(held.task()), Some(Phase::Active));
    let token = domain.cancellation(held.task()).unwrap();
    assert!(!domain.task_finished(held.task()));
    assert_eq!(domain.active_tasks(), 0);
    assert!(!token.is_cancelled());
    assert!(domain.is_accepting());
}

#[test]
fn a_registry_finds_its_slots() {
    let (mut domain, cx) = context();
    assert_eq!(domain.registry(2).slot(5), None);
    let held = spawn(&mut domain, &cx, keyed(2, 5), "held");
    let registry = domain.registry(2);
    assert_eq!(registry.slot(5), Some(held.generation()));
    assert_eq!(registry.entries_len(), 1);
    assert!(!registry.entries_is_empty());
    assert_eq!(registry.live_snapshot(), vec![(held.generation(), held.task())]);
    assert_eq!(registry.slot_or_insert(5, 40), (held.generation(), false));
    assert_eq!(registry.slot_or_insert(6, 40), (40, true));
    assert_eq!(registry.state(6), Some(RegistrySlotState::Starting { generation: 40 }));
    registry.remove_if_same(6, 40, 41);
    assert_eq!(registry.slot(6), Some(40));
    registry.remove_if_same(6, 39, 40);
    assert_eq!(registry.slot(6), Some(40));
    registry.remove_if_same(6, 40, 40);
    assert_eq!(registry.slot(6), None);
    registry.remove_slot(5, 41, None);
    assert_eq!(registry.slot(5), Some(held.generation()));
    assert_eq!(registry.slot_or_insert(7, 42), (42, true));
    registry.remove_slot(7, 42, None);
    assert_eq!(registry.slot(7), None);
    registry.insert_live(42, 8);
    assert_eq!(registry.live_snapshot().len(), 2);
    registry.remove_live(42);
    assert_eq!(registry.live_snapshot(), vec![(held.generation(), held.task())]);
}
