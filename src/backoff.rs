//! Reconnect backoff: the wait between two connection attempts doubles after
//! each failure, never exceeds a maximum, and drops back to the minimum after
//! a session was established.
use vstd::prelude::*;

verus! {

/// `base * 2^n`.
pub open spec fn doubled(base: nat, n: nat) -> nat
    decreases n,
{
    if n == 0 {
        base
    } else {
        2 * doubled(base, (n - 1) as nat)
    }
}

/// The interval after `n` consecutive failures: `min(minimum * 2^n, maximum)`.
pub open spec fn backoff_interval(minimum: nat, maximum: nat, n: nat) -> nat {
    if doubled(minimum, n) <= maximum {
        doubled(minimum, n)
    } else {
        maximum
    }
}

/// One failure: the interval doubles, capped at `maximum`.
pub open spec fn backoff_step(current: nat, maximum: nat) -> nat {
    if 2 * current <= maximum {
        2 * current
    } else {
        maximum
    }
}

/// The interval reached from `minimum` by `n` failures, one step at a time.
pub open spec fn backoff_steps(minimum: nat, maximum: nat, n: nat) -> nat
    decreases n,
{
    if n == 0 {
        minimum
    } else {
        backoff_step(backoff_steps(minimum, maximum, (n - 1) as nat), maximum)
    }
}

/// What a [`ReconnectTimer`] holds, in seconds.
pub struct BackoffState {
    pub minimum: nat,
    pub maximum: nat,
    pub current: nat,
    /// Failures recorded since the last reset.
    pub failures: nat,
}

/// Backoff between reconnection attempts; intervals are whole seconds.
pub struct ReconnectTimer {
    minimal_interval: u64,
    maximal_interval: u64,
    curr_interval: u64,
    failures: Ghost<nat>,
}

impl View for ReconnectTimer {
    type V = BackoffState;

    closed spec fn view(&self) -> BackoffState {
        BackoffState {
            minimum: self.minimal_interval as nat,
            maximum: self.maximal_interval as nat,
            current: self.curr_interval as nat,
            failures: self.failures@,
        }
    }
}

impl ReconnectTimer {
    /// The current interval always lies in `[minimum, maximum]`, and after
    /// `n` failures since the last reset it is `min(minimum * 2^n, maximum)`.
    pub open spec fn wf(&self) -> bool {
        &&& self@.minimum <= self@.current <= self@.maximum
        &&& self@.current == backoff_interval(self@.minimum, self@.maximum, self@.failures)
    }

    pub fn new(minimal_interval: u64, maximal_interval: u64) -> (r: ReconnectTimer)
        requires
            minimal_interval <= maximal_interval,
        ensures
            r.wf(),
            r@.minimum == minimal_interval,
            r@.maximum == maximal_interval,
            r@.current == minimal_interval,
            r@.failures == 0,
    {
        ReconnectTimer {
            minimal_interval,
            maximal_interval,
            curr_interval: minimal_interval,
            failures: Ghost(0),
        }
    }

    /// Back to the minimum, after a session was established.
    pub fn reset(&mut self)
        requires
            old(self).wf(),
        ensures
            final(self).wf(),
            final(self)@.minimum == old(self)@.minimum,
            final(self)@.maximum == old(self)@.maximum,
            final(self)@.current == old(self)@.minimum,
            final(self)@.failures == 0,
    {
        self.curr_interval = self.minimal_interval;
        self.failures = Ghost(0);
    }

    /// The interval to wait before the next attempt, in seconds.
    pub fn interval(&self) -> (r: u64)
        ensures
            r == self@.current,
    {
        self.curr_interval
    }

    /// Records that the current interval was waited out after a failure:
    /// the next one is twice as long, capped at the maximum.
    pub fn advance(&mut self)
        requires
            old(self).wf(),
        ensures
            final(self).wf(),
            final(self)@.minimum == old(self)@.minimum,
            final(self)@.maximum == old(self)@.maximum,
            final(self)@.current == backoff_step(old(self)@.current, old(self)@.maximum),
            final(self)@.failures == old(self)@.failures + 1,
            final(self)@.current == backoff_interval(old(self)@.minimum, old(self)@.maximum, old(self)@.failures + 1),
    {
        proof {
            let n = self.failures@;
            lemma_backoff_closed_form(self@.minimum, self@.maximum, n);
            lemma_backoff_closed_form(self@.minimum, self@.maximum, n + 1);
            assert(backoff_steps(self@.minimum, self@.maximum, n + 1) == backoff_step(backoff_steps(self@.minimum, self@.maximum, n), self@.maximum));
        }
        self.failures = Ghost(self.failures@ + 1);
        if self.curr_interval <= self.maximal_interval / 2 {
            self.curr_interval = self.curr_interval * 2;
        } else {
            self.curr_interval = self.maximal_interval;
        }
    }
}

/// Doubling `n` times then once more is doubling `n + 1` times.
proof fn lemma_doubled_monotone(base: nat, n: nat)
    ensures
        doubled(base, n + 1) == 2 * doubled(base, n),
        doubled(base, n) >= base,
    decreases n,
{
    if n > 0 {
        lemma_doubled_monotone(base, (n - 1) as nat);
    }
}

/// After `n` consecutive failures starting from the minimum, the interval is
/// `min(minimum * 2^n, maximum)`: stepping one failure at a time agrees with
/// the closed form.
pub proof fn lemma_backoff_closed_form(minimum: nat, maximum: nat, n: nat)
    requires
        minimum <= maximum,
    ensures
        backoff_steps(minimum, maximum, n) == backoff_interval(minimum, maximum, n),
    decreases n,
{
    if n > 0 {
        let m = (n - 1) as nat;
        lemma_backoff_closed_form(minimum, maximum, m);
        lemma_doubled_monotone(minimum, m);
    }
}

} // verus!
