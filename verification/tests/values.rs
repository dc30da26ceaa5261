//! Outcomes, failures, placements and the numbering of keys.

use resourcery::context::{must_stop, Acquisition, Construction, Request};
use resourcery::domain::Domain;
use resourcery::identity::KeyTable;
use resourcery::placement::identity;
use resourcery::reference::{panic_message, Outcomes, TaskExit};
use resourcery::{
    AcquireError, Keyed, Keyer, Placement, ResourceCompletion, ResourceContext, ResourceOutcome,
    ResourceRuntime, RunError, Singleton, Unique,
};
use std::sync::Arc;

struct DatabaseInput {
    name: String,
    pool_size: usize,
}

struct ByName;

impl Keyer<DatabaseInput> for ByName {
    type Key = String;

    fn spec_key(input: DatabaseInput) -> String {
        input.name
    }

    fn key(input: &DatabaseInput) -> String {
        input.name.clone()
    }
}

fn database(name: &str, pool_size: usize) -> DatabaseInput {
    DatabaseInput { name: name.to_string(), pool_size }
}

#[test]
fn acquisition_failures_have_texts() {
    assert_eq!(
        AcquireError::Occupied.message(),
        "the canonical resource is already live or starting"
    );
    assert_eq!(AcquireError::ShuttingDown.message(), "the resource domain is shutting down");
    assert_eq!(AcquireError::ConstructionPanicked.message(), "resource construction panicked");
}

#[test]
fn root_failures_have_texts() {
    let rendered = "disk full";
    let acquire: RunError<u8> = RunError::Acquire(AcquireError::ShuttingDown);
    assert_eq!(acquire.message(rendered), "the resource domain is shutting down");
    let failed: RunError<u8> = RunError::Resource(Arc::new(3));
    assert_eq!(failed.message(rendered), "disk full");
    let panicked: RunError<u8> = RunError::Panicked(Arc::from("boom"));
    assert_eq!(panicked.message(rendered), "root resource panicked: boom");
    let aborted: RunError<u8> = RunError::Aborted;
    assert_eq!(aborted.message(rendered), "root resource was aborted");
}

#[test]
fn outcomes_of_a_root_are_told_apart() {
    assert!(matches!(
        RunError::<u8>::from_refusal(AcquireError::Occupied),
        RunError::Acquire(AcquireError::Occupied)
    ));
    assert!(RunError::<u8>::from_outcome(ResourceOutcome::Completed).is_ok());
    assert!(matches!(
        RunError::from_outcome(ResourceOutcome::Failed(Arc::new(5u8))),
        Err(RunError::Resource(error)) if *error == 5
    ));
    assert!(matches!(
        RunError::<u8>::from_outcome(ResourceOutcome::Panicked(Arc::from("boom"))),
        Err(RunError::Panicked(message)) if &*message == "boom"
    ));
    assert!(matches!(
        RunError::<u8>::from_outcome(ResourceOutcome::Aborted),
        Err(RunError::Aborted)
    ));
}

#[test]
fn exits_become_outcomes() {
    assert!(matches!(
        ResourceOutcome::<u8>::from_exit(TaskExit::Returned(Ok(()))),
        ResourceOutcome::Completed
    ));
    assert!(matches!(
        ResourceOutcome::from_exit(TaskExit::Returned(Err(8u8))),
        ResourceOutcome::Failed(error) if *error == 8
    ));
    assert!(matches!(
        ResourceOutcome::<u8>::from_exit(TaskExit::Panicked(Arc::from("boom"))),
        ResourceOutcome::Panicked(message) if &*message == "boom"
    ));
    assert!(matches!(
        ResourceOutcome::<u8>::from_exit(TaskExit::Terminated),
        ResourceOutcome::Aborted
    ));
}

#[test]
fn panic_payloads_become_messages() {
    let string = String::from("owned");
    assert_eq!(&*panic_message(Some("borrowed"), None), "borrowed");
    assert_eq!(&*panic_message(None, Some(&string)), "owned");
    assert_eq!(&*panic_message(Some("borrowed"), Some(&string)), "borrowed");
    assert_eq!(&*panic_message(None, None), "resource task panicked");
}

#[test]
fn the_first_outcome_stays() {
    let mut domain: Domain<u8> = Domain::new();
    let cx = ResourceContext::for_resource(&domain, domain.child_token());
    let mut references = Vec::new();
    for handle in 0..2 {
        let claim = cx.spawn(&mut domain, Request { resource_type: 0, key: None }).ok().unwrap();
        let cancellation = domain.child_token();
        let construction = Construction::Built { cancellation, handle };
        references.push(cx.create(&mut domain, claim, construction).ok().unwrap());
    }
    let mut outcomes: Outcomes<u8> = Outcomes::new();
    let completion: ResourceCompletion<u8> = references[0].completion();
    let other: ResourceCompletion<u8> = references[1].completion();
    let early = completion.clone();
    assert!(completion.wait(&outcomes, false).is_none());
    assert!(matches!(completion.wait(&outcomes, true), Some(ResourceOutcome::Aborted)));
    let error = Arc::new(4);
    outcomes.publish(references[0].task(), ResourceOutcome::Failed(error.clone()));
    outcomes.publish(references[0].task(), ResourceOutcome::Completed);
    outcomes.publish(references[0].task(), ResourceOutcome::Aborted);
    let late = completion.clone();
    for observer in [&completion, &early, &late] {
        for closed in [false, true] {
            assert!(matches!(
                observer.wait(&outcomes, closed),
                Some(ResourceOutcome::Failed(shared)) if Arc::ptr_eq(&shared, &error)
            ));
        }
    }
    assert!(other.wait(&outcomes, false).is_none());
    outcomes.publish(references[1].task(), ResourceOutcome::Completed);
    assert!(matches!(other.wait(&outcomes, false), Some(ResourceOutcome::Completed)));
    assert!(matches!(early.wait(&outcomes, false), Some(ResourceOutcome::Failed(_))));
}

#[test]
fn outcomes_are_cloned_with_what_they_share() {
    let error = Arc::new(9u8);
    let outcome = ResourceOutcome::Failed(error.clone());
    match outcome.clone() {
        ResourceOutcome::Failed(copy) => assert!(Arc::ptr_eq(&copy, &error)),
        _ => panic!("a clone is the same outcome"),
    }
    assert!(matches!(ResourceOutcome::<u8>::Completed.clone(), ResourceOutcome::Completed));
    assert!(matches!(ResourceOutcome::<u8>::Aborted.clone(), ResourceOutcome::Aborted));
}

#[test]
fn placements_say_what_is_canonical() {
    assert!(!<Unique as Placement<DatabaseInput>>::CANONICAL);
    assert!(<Singleton as Placement<DatabaseInput>>::CANONICAL);
    assert!(<Keyed<ByName> as Placement<DatabaseInput>>::CANONICAL);
    let input = database("orders", 4);
    assert_eq!(input.pool_size, 4);
    assert_eq!(<Keyed<ByName> as Placement<DatabaseInput>>::key(&input), "orders");
}

#[test]
fn requests_with_equal_keys_are_the_same() {
    let mut table: KeyTable<String> = KeyTable::new(3);
    assert!(table.has_room());
    let first = table.request(identity::<_, Keyed<ByName>>(&database("orders", 4)));
    let second = table.request(identity::<_, Keyed<ByName>>(&database("users", 4)));
    let third = table.request(identity::<_, Keyed<ByName>>(&database("orders", 99)));
    assert_eq!(first, Request { resource_type: 3, key: Some(0) });
    assert_eq!(second, Request { resource_type: 3, key: Some(1) });
    assert_eq!(third, first);
    assert_eq!(table.lookup(&"users".to_string()), Some(second));
    assert_eq!(table.lookup(&"absent".to_string()), None);
    assert_eq!(table.find(&"orders".to_string()), Some(0));
}

#[test]
fn singletons_share_a_key_and_unique_requests_have_none() {
    let mut table: KeyTable<()> = KeyTable::new(1);
    let unique = table.request(identity::<_, Unique>(&17u8));
    assert_eq!(unique, Request { resource_type: 1, key: None });
    assert_eq!(table.lookup(&()), None);
    let one = table.request(identity::<_, Singleton>(&17u8));
    let other = table.request(identity::<_, Singleton>(&18u8));
    assert_eq!(one, Request { resource_type: 1, key: Some(0) });
    assert_eq!(other, one);
}

#[test]
fn a_key_in_use_is_not_forgotten() {
    let mut domain: Domain<u8> = Domain::new();
    let cx = ResourceContext::for_resource(&domain, domain.child_token());
    let mut table: KeyTable<String> = KeyTable::new(0);
    let key = "orders".to_string();
    assert!(!table.forget_unused(&mut domain, &key));
    let request = table.request(identity::<_, Keyed<ByName>>(&database("orders", 1)));
    let claim = match cx.get_or_spawn(&mut domain, request) {
        Ok(Acquisition::Build(claim)) => claim,
        _ => panic!("the identity is free"),
    };
    assert!(!table.forget_unused(&mut domain, &key));
    assert_eq!(table.find(&key), Some(0));
    assert!(cx.create(&mut domain, claim, Construction::Panicked).is_err());
    assert!(table.forget_unused(&mut domain, &key));
    assert_eq!(table.find(&key), None);
    let again = table.request(identity::<_, Keyed<ByName>>(&database("orders", 1)));
    assert_eq!(again.key, Some(1));
}

#[test]
fn a_task_stops_with_its_generation_or_its_domain() {
    assert!(!must_stop(false, false));
    assert!(must_stop(true, false));
    assert!(must_stop(false, true));
    assert!(must_stop(true, true));
}

#[test]
fn a_runtime_claims_its_root_until_it_is_shut_down() {
    let mut runtime: ResourceRuntime<u8> = ResourceRuntime::default();
    let request = Request { resource_type: 0, key: Some(0) };
    let claim = runtime.run::<u8>(request).ok().unwrap();
    assert_eq!(claim.generation(), 0);
    assert_eq!(claim.resource_type(), 0);
    assert_eq!(claim.place().unwrap().key, 0);
    assert!(matches!(
        runtime.run::<u8>(request),
        Err(RunError::Acquire(AcquireError::Occupied))
    ));
    assert!(runtime.cancel());
    assert!(!runtime.cancel());
    assert!(runtime.shutdown());
    let (aborts, quiescent) = runtime.terminate();
    assert!(aborts.is_empty());
    assert!(!quiescent);
    assert!(matches!(
        runtime.run::<u8>(request),
        Err(RunError::Acquire(AcquireError::ShuttingDown))
    ));
}
