//! One generation's lifecycle.

use resourcery::lifecycle::{Control, Phase};
use tokio_util::sync::CancellationToken;

fn fresh() -> (Control, CancellationToken) {
    let token = CancellationToken::new();
    (Control::new(token.clone()), token)
}

fn active() -> (Control, CancellationToken) {
    let (mut control, token) = fresh();
    assert!(control.activate());
    (control, token)
}

#[test]
fn a_new_generation_is_starting_and_held_once() {
    let (control, token) = fresh();
    assert_eq!(control.phase(), Phase::Starting);
    assert_eq!(control.leases(), 1);
    assert!(!control.is_active());
    assert!(!token.is_cancelled());
    assert!(!control.cancellation().is_cancelled());
}

#[test]
fn activation_happens_once() {
    let (mut control, _) = fresh();
    assert!(control.activate());
    assert!(control.is_active());
    assert!(!control.activate());
    assert!(control.is_active());
}

#[test]
fn only_active_generations_grant_leases() {
    let (mut control, _) = fresh();
    assert!(!control.acquire());
    assert_eq!(control.leases(), 1);
    control.activate();
    assert!(control.acquire());
    assert_eq!(control.leases(), 2);
    control.cancel();
    assert!(!control.acquire());
    assert_eq!(control.leases(), 2);
    control.finish();
    assert!(!control.acquire());
    assert_eq!(control.leases(), 0);
}

#[test]
fn a_lease_that_is_given_back_changes_nothing() {
    let (mut control, token) = active();
    assert!(control.acquire());
    control.release();
    assert_eq!(control.phase(), Phase::Active);
    assert_eq!(control.leases(), 1);
    assert!(!token.is_cancelled());
}

#[test]
fn the_last_release_cancels_and_earlier_ones_do_not() {
    let (mut control, token) = active();
    control.clone_lease();
    control.clone_lease();
    assert_eq!(control.leases(), 3);
    control.release();
    control.release();
    assert_eq!(control.phase(), Phase::Active);
    assert!(!token.is_cancelled());
    control.release();
    assert_eq!(control.phase(), Phase::Cancelling);
    assert_eq!(control.leases(), 0);
    assert!(token.is_cancelled());
}

#[test]
fn cancelling_twice_is_cancelling_once() {
    let (mut control, token) = active();
    control.cancel();
    assert!(token.is_cancelled());
    assert_eq!(control.phase(), Phase::Cancelling);
    assert_eq!(control.leases(), 1);
    control.cancel();
    assert_eq!(control.phase(), Phase::Cancelling);
    assert_eq!(control.leases(), 1);
}

#[test]
fn a_starting_generation_can_be_cancelled() {
    let (mut control, token) = fresh();
    control.cancel();
    assert!(token.is_cancelled());
    assert!(!control.activate());
    assert_eq!(control.phase(), Phase::Cancelling);
}

#[test]
fn references_can_be_cloned_while_cancelling() {
    let (mut control, _) = active();
    control.cancel();
    control.clone_lease();
    assert_eq!(control.leases(), 2);
    control.release();
    control.release();
    assert_eq!(control.leases(), 0);
    assert_eq!(control.phase(), Phase::Cancelling);
}

#[test]
fn nothing_changes_a_finished_generation() {
    let (mut control, token) = active();
    control.finish();
    control.cancel();
    control.clone_lease();
    control.release();
    assert!(!control.activate());
    assert_eq!(control.phase(), Phase::Finished);
    assert_eq!(control.leases(), 0);
    assert!(!token.is_cancelled());
    assert!(control.cancellation() == token);
}

#[test]
fn a_generation_keeps_its_token() {
    let (mut control, token) = fresh();
    assert!(control.cancellation() == token);
    control.activate();
    control.acquire();
    control.clone_lease();
    assert!(control.cancellation() == token);
    control.release();
    control.cancel();
    assert!(control.cancellation() == token);
    control.finish();
    assert!(control.cancellation() == token);
    assert!(control.cancellation() != CancellationToken::new());
}
