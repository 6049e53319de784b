//! Shared value with an exclusive, single-holder ownership token.
//!
//! Readers never wait on ownership. Ownership is a flag flipped from `false`
//! to `true` by one compare-and-exchange; the token that proves it resets the
//! flag when it is dropped and wakes one waiter.
use std::sync::atomic::{AtomicBool, Ordering};
use std::sync::Arc;
use vstd::prelude::*;

verus! {

#[verifier::external_type_specification]
#[verifier::external_body]
#[verifier::reject_recursive_types(T)]
pub struct ExRwLock<T: ?Sized>(tokio::sync::RwLock<T>);

#[verifier::external_type_specification]
#[verifier::external_body]
pub struct ExNotify(tokio::sync::Notify);

/// Relies on `tokio::sync::RwLock::new`, which wraps the value and cannot fail.
#[verifier::external_body]
fn new_rwlock<T>(value: T) -> tokio::sync::RwLock<T> {
    tokio::sync::RwLock::new(value)
}

/// Relies on `tokio::sync::Notify::new`, which cannot fail.
pub assume_specification[ tokio::sync::Notify::new ]() -> tokio::sync::Notify;

/// Relies on `tokio::sync::Notify::notify_one`: wakes at most one waiter, or
/// stores one permit for the next one; it neither fails nor panics.
#[verifier::external_body]
fn wake_one(n: &tokio::sync::Notify)
    opens_invariants none
    no_unwind
{
    n.notify_one()
}

/// Relies on `AtomicBool::store` with `Release` ordering, which does not panic
/// (only the `Acquire` and `AcqRel` orderings do).
#[verifier::external_body]
fn clear_flag(flag: &AtomicBool)
    opens_invariants none
    no_unwind
{
    flag.store(false, Ordering::Release)
}

/// Relies on `Arc::clone`, which hands out another pointer to the same value.
#[verifier::external_body]
pub(crate) fn share<T>(a: &Arc<T>) -> (r: Arc<T>)
    ensures
        r == *a,
{
    Arc::clone(a)
}

/// A value that many may read and one at a time may own.
#[verifier::reject_recursive_types(T)]
pub struct SharedOwnable<T> {
    data: tokio::sync::RwLock<T>,
    owned: AtomicBool,
    owner_notify: tokio::sync::Notify,
}

/// Proof of exclusive ownership of a [`SharedOwnable`]; dropping it gives the
/// ownership back.
#[verifier::reject_recursive_types(T)]
pub struct OwnershipGuard<T> {
    value: Arc<SharedOwnable<T>>,
}

impl<T> SharedOwnable<T> {
    /// A shared value, not owned by anyone.
    pub fn new(value: T) -> (r: Arc<SharedOwnable<T>>) {
        Arc::new(
            SharedOwnable {
                data: new_rwlock(value),
                owned: AtomicBool::new(false),
                owner_notify: tokio::sync::Notify::new(),
            },
        )
    }

    /// Takes ownership when nobody holds it: flips the flag from `false` to
    /// `true` in one step, and hands out the token only when that flip
    /// happened. Never waits.
    pub fn try_own(this: &Arc<SharedOwnable<T>>) -> (r: Option<OwnershipGuard<T>>)
        ensures
            r matches Some(g) ==> g.lock() == **this,
    {
        let flipped = this.owned.compare_exchange(false, true, Ordering::Acquire, Ordering::Relaxed);
        if flipped.is_ok() {
            Some(OwnershipGuard { value: share(this) })
        } else {
            None
        }
    }

    /// Whether someone holds ownership at this instant.
    pub fn is_owned(&self) -> bool {
        self.owned.load(Ordering::Acquire)
    }

    /// The lock over the value, for shared reads and writes by an owner.
    pub fn data(&self) -> &tokio::sync::RwLock<T> {
        &self.data
    }

    /// Signalled each time ownership is given back.
    pub fn released(&self) -> &tokio::sync::Notify {
        &self.owner_notify
    }
}

impl<T> OwnershipGuard<T> {
    /// The value this guard owns.
    pub closed spec fn lock(&self) -> SharedOwnable<T> {
        *self.value
    }

    /// The shared value this guard owns.
    pub fn shared(&self) -> (r: &SharedOwnable<T>)
        ensures
            *r == self.lock(),
    {
        &self.value
    }
}

impl<T> Drop for OwnershipGuard<T> {
    fn drop(&mut self)
        opens_invariants none
        no_unwind
    {
        clear_flag(&self.value.owned);
        wake_one(&self.value.owner_notify);
    }
}

/// A step of the ownership protocol: an attempt to take ownership, or the
/// drop of a token.
pub enum OwnerOp {
    TryOwn,
    Release,
}

/// The protocol's state: the flag, and the number of tokens alive.
pub struct OwnerModel {
    pub owned: bool,
    pub guards: nat,
}

/// One step: an attempt flips a clear flag and creates a token, and fails on
/// a set one; a drop clears the flag and destroys a token. The second part
/// says whether an attempt succeeded.
pub open spec fn owner_step(m: OwnerModel, op: OwnerOp) -> (OwnerModel, bool) {
    match op {
        OwnerOp::TryOwn => if !m.owned {
            (OwnerModel { owned: true, guards: m.guards + 1 }, true)
        } else {
            (m, false)
        },
        OwnerOp::Release => (OwnerModel { owned: false, guards: (m.guards - 1) as nat }, false),
    }
}

/// A drop needs a live token.
pub open spec fn owner_ops_ok(m: OwnerModel, ops: Seq<OwnerOp>) -> bool
    decreases ops.len(),
{
    if ops.len() == 0 {
        true
    } else {
        &&& (ops[0] is Release ==> m.guards > 0)
        &&& owner_ops_ok(owner_step(m, ops[0]).0, ops.drop_first())
    }
}

/// The state after a run of steps.
pub open spec fn owner_run(m: OwnerModel, ops: Seq<OwnerOp>) -> OwnerModel
    decreases ops.len(),
{
    if ops.len() == 0 {
        m
    } else {
        owner_run(owner_step(m, ops[0]).0, ops.drop_first())
    }
}

/// The number of successful attempts in a run of steps.
pub open spec fn owner_successes(m: OwnerModel, ops: Seq<OwnerOp>) -> nat
    decreases ops.len(),
{
    if ops.len() == 0 {
        0
    } else {
        let (m1, ok) = owner_step(m, ops[0]);
        (if ok { 1nat } else { 0nat }) + owner_successes(m1, ops.drop_first())
    }
}

pub open spec fn only_attempts(ops: Seq<OwnerOp>) -> bool {
    forall|i: int| 0 <= i < ops.len() ==> ops[i] is TryOwn
}

/// From no owner, whatever attempts succeed or fail and whatever tokens are
/// dropped, at most one token is alive after every step, and one is alive
/// exactly when the flag is set.
pub proof fn lemma_single_owner(m: OwnerModel, ops: Seq<OwnerOp>)
    requires
        m.guards == (if m.owned { 1nat } else { 0nat }),
        owner_ops_ok(m, ops),
    ensures
        owner_run(m, ops).guards == (if owner_run(m, ops).owned { 1nat } else { 0nat }),
        owner_run(m, ops).guards <= 1,
    decreases ops.len(),
{
    if ops.len() > 0 {
        lemma_single_owner(owner_step(m, ops[0]).0, ops.drop_first());
    }
}

/// After a token is dropped, of any number of attempts that follow (with no
/// other drop between them) exactly one succeeds: the first.
pub proof fn lemma_release_hands_over(m: OwnerModel, attempts: Seq<OwnerOp>)
    requires
        m.guards == (if m.owned { 1nat } else { 0nat }),
        m.guards > 0,
        only_attempts(attempts),
        attempts.len() > 0,
    ensures
        ({
            let after = owner_step(m, OwnerOp::Release).0;
            &&& owner_step(after, attempts[0]).1
            &&& owner_successes(after, attempts) == 1
        }),
{
    let after = owner_step(m, OwnerOp::Release).0;
    let owned = owner_step(after, attempts[0]).0;
    assert(owned.owned);
    lemma_attempts_fail(owned, attempts.drop_first());
}

/// While the flag is set, attempts all fail.
proof fn lemma_attempts_fail(m: OwnerModel, attempts: Seq<OwnerOp>)
    requires
        m.owned,
        only_attempts(attempts),
    ensures
        owner_successes(m, attempts) == 0,
    decreases attempts.len(),
{
    if attempts.len() > 0 {
        assert(attempts[0] is TryOwn);
        assert(only_attempts(attempts.drop_first()));
        lemma_attempts_fail(m, attempts.drop_first());
    }
}

} // verus!
