//! Cancellation signals.
//!
//! A generation and its domain each hold a `tokio_util` cancellation token.
//! Cancelling a token wakes whoever awaits it; a cancelled token never becomes
//! uncancelled.

use tokio_util::sync::CancellationToken;
use vstd::prelude::*;

verus! {

/// `tokio_util::sync::CancellationToken`, carried as an opaque value.
#[verifier::external_type_specification]
#[verifier::external_body]
pub struct ExCancellationToken(CancellationToken);

/// Which token a handle stands for: the tokens that it descends from, the
/// first one first, and it last, each by a number of its own.
///
/// It is fixed when the token is made. Handles with the same lineage stand for
/// the same token, which is what `CancellationToken::eq` compares: cancelling
/// one of them cancels the other.
pub uninterp spec fn lineage(token: CancellationToken) -> Seq<int>;

/// What is known of a token through a handle.
pub enum Signal {
    /// Nothing: it was not cancelled through this handle, nor seen to be.
    Open,
    /// It was seen to be cancelled.
    Seen,
    /// It was cancelled through this handle.
    Sent,
}

/// What is known of a token through a handle, or was known through the handle
/// that it was cloned or derived from before that.
///
/// Another clone or an ancestor may cancel a token behind the handle's back, so
/// `CancellationToken::is_cancelled` answers `true` of every token that is
/// known to be cancelled and may answer `true` of others.
pub uninterp spec fn signal(token: CancellationToken) -> Signal;

/// Whether a token was cancelled through a handle.
pub open spec fn cancelled(token: CancellationToken) -> bool {
    signal(token) is Sent
}

/// What a function opens that cancels the token with a lineage, or does not:
/// the number of the token, or nothing.
///
/// Cancelling reaches beyond the handle that it is done through: it changes what
/// all handles on the token share, and those on the ones that were derived from
/// it. So it is told of by the invariants that a function opens. One that opens
/// none cancels nothing, through whatever handle.
pub open spec fn told(token: Seq<int>, cancels: bool) -> Set<int> {
    if cancels {
        set![token.last()]
    } else {
        Set::empty()
    }
}

/// Whether a token with the lineage `child` was derived from the one with the
/// lineage `parent`.
pub open spec fn derived(child: Seq<int>, parent: Seq<int>) -> bool {
    child.len() == parent.len() + 1 && child.drop_last() == parent
}

/// `CancellationToken::new`: a token that nothing has cancelled and that was
/// derived from none.
#[verifier::external_body]
pub(crate) fn new_token() -> (token: CancellationToken)
    ensures
        signal(token) is Open,
        lineage(token).len() == 1,
    opens_invariants none
{
    CancellationToken::new()
}

/// `CancellationToken::clone`: another handle on the same token.
#[verifier::external_body]
pub(crate) fn clone_token(token: &CancellationToken) -> (handle: CancellationToken)
    ensures
        lineage(handle) == lineage(*token),
        signal(handle) == signal(*token),
    opens_invariants none
{
    token.clone()
}

/// `CancellationToken::child_token`: a token of its own, derived from `token`:
/// it is cancelled whenever `token` is, at once where that is cancelled
/// already, and can be cancelled alone.
#[verifier::external_body]
pub(crate) fn child_token(token: &CancellationToken) -> (child: CancellationToken)
    ensures
        derived(lineage(child), lineage(*token)),
        signal(child) == signal(*token),
    opens_invariants none
{
    token.child_token()
}

/// `CancellationToken::cancel`: cancels the token that the handle stands for
/// and all that were derived from it, and wakes whoever waits for that.
#[verifier::external_body]
pub(crate) fn cancel_token(token: &mut CancellationToken)
    ensures
        lineage(*final(token)) == lineage(*old(token)),
        signal(*final(token)) is Sent,
    opens_invariants [ lineage(*old(token)).last() ]
{
    token.cancel();
}

/// `CancellationToken::is_cancelled`: whether the token is cancelled, which is
/// known from then on. It is of a token that was known to be; of any other one
/// the answer depends on what other handles and ancestors have done. The call
/// cancels nothing.
#[verifier::external_body]
pub(crate) fn token_is_cancelled(token: &mut CancellationToken) -> (seen: bool)
    ensures
        lineage(*final(token)) == lineage(*old(token)),
        seen == !(signal(*final(token)) is Open),
        !(signal(*old(token)) is Open) ==> signal(*final(token)) == signal(*old(token)),
        signal(*final(token)) is Sent ==> signal(*old(token)) is Sent,
    opens_invariants none
{
    token.is_cancelled()
}

/// `CancellationToken::eq`: whether two handles stand for the same token.
#[verifier::external_body]
pub(crate) fn same_token(one: &CancellationToken, other: &CancellationToken) -> (same: bool)
    ensures
        same == (lineage(*one) == lineage(*other)),
    opens_invariants none
{
    *one == *other
}

} // verus!
