//! Address racing: resolved addresses are ordered by family, preferred family
//! first and alternating after that, and connection attempts are launched one
//! after the other with a short stagger; the first attempt to connect wins.
//!
//! The sockets and timers live with the caller. [`Racer`] holds the decisions:
//! it is told what happened (an attempt connected or failed, or the stagger
//! delay elapsed) and answers with what to do next.
use itertools::Itertools;
use vstd::prelude::*;

verus! {

/// Milliseconds between launching two successive attempts.
pub const STAGGER_DELAY_MS: u64 = 150;

/// `a` and `b` taken in turn, starting with `a`; once one runs out the rest of
/// the other follows.
pub open spec fn interleave<A>(a: Seq<A>, b: Seq<A>) -> Seq<A>
    decreases a.len() + b.len(),
{
    if a.len() == 0 {
        b
    } else {
        seq![a[0]] + interleave(b, a.drop_first())
    }
}

/// Relies on `Itertools::interleave`: alternate elements from two iterators
/// until both have run out, starting with the first.
#[verifier::external_body]
fn interleave_vecs<A>(a: Vec<A>, b: Vec<A>) -> (r: Vec<A>)
    ensures
        r@ == interleave(a@, b@),
{
    a.into_iter().interleave(b).collect()
}

/// A resolved address and whether it is an IPv4 one.
pub struct Resolved<A> {
    pub addr: A,
    pub ipv4: bool,
}

/// The addresses of `s` whose family is IPv4 when `ipv4` holds and IPv6
/// otherwise, in their order in `s`.
pub open spec fn of_family<A>(s: Seq<Resolved<A>>, ipv4: bool) -> Seq<A>
    decreases s.len(),
{
    if s.len() == 0 {
        Seq::empty()
    } else {
        let rest = of_family(s.drop_last(), ipv4);
        if s.last().ipv4 == ipv4 {
            rest.push(s.last().addr)
        } else {
            rest
        }
    }
}

/// The order in which candidates are tried: the preferred family first,
/// alternating with the other one.
pub open spec fn candidate_order<A>(s: Seq<Resolved<A>>, prefer_ipv6: bool) -> Seq<A> {
    interleave(of_family(s, !prefer_ipv6), of_family(s, prefer_ipv6))
}

/// Orders resolved addresses for racing.
pub fn order_candidates<A: Copy>(resolved: &Vec<Resolved<A>>, prefer_ipv6: bool) -> (r: Vec<A>)
    ensures
        r@ == candidate_order(resolved@, prefer_ipv6),
{
    let mut v4: Vec<A> = Vec::new();
    let mut v6: Vec<A> = Vec::new();
    let mut i: usize = 0;
    while i < resolved.len()
        invariant
            0 <= i <= resolved@.len(),
            v4@ == of_family(resolved@.subrange(0, i as int), true),
            v6@ == of_family(resolved@.subrange(0, i as int), false),
        decreases resolved@.len() - i,
    {
        let ghost prefix = resolved@.subrange(0, i as int);
        let ghost next = resolved@.subrange(0, i + 1);
        assert(next.drop_last() =~= prefix);
        let item = &resolved[i];
        if item.ipv4 {
            v4.push(item.addr);
        } else {
            v6.push(item.addr);
        }
        i += 1;
    }
    assert(resolved@.subrange(0, resolved@.len() as int) =~= resolved@);
    if prefer_ipv6 {
        interleave_vecs(v6, v4)
    } else {
        interleave_vecs(v4, v6)
    }
}

/// What the caller reports to the racer.
pub enum RaceEvent {
    /// The attempt on the candidate with this index connected.
    Connected(usize),
    /// The attempt on the candidate with this index failed.
    Failed(usize),
    /// The stagger delay elapsed with no attempt finishing.
    DelayElapsed,
}

/// What the racer asks the caller to do.
#[derive(PartialEq, Eq, Structural, Debug, Clone, Copy)]
pub enum RaceAction {
    /// Start an attempt on the candidate with this index.
    Launch(usize),
    /// Wait for an attempt to finish; when `stagger` holds, also for the
    /// stagger delay, whichever comes first.
    Wait { stagger: bool },
    /// Keep the connection of the candidate with this index and abandon the
    /// other attempts.
    Won(usize),
    /// Every attempt failed.
    AllFailed,
}

/// The racer's state: `launched` attempts started out of `total`, `pending`
/// of them not finished yet.
pub struct RaceState {
    pub total: nat,
    pub launched: nat,
    pub pending: nat,
    pub finished: bool,
}

pub open spec fn race_state_wf(s: RaceState) -> bool {
    &&& s.pending <= s.launched <= s.total
    &&& !s.finished ==> 0 < s.launched
    &&& !s.finished && s.launched == s.total ==> s.pending > 0
}

/// A race over `total` candidates has begun: the first one is launched, or,
/// with no candidate at all, the race is lost.
pub open spec fn race_start(total: nat) -> (RaceState, RaceAction) {
    if total == 0 {
        (RaceState { total, launched: 0, pending: 0, finished: true }, RaceAction::AllFailed)
    } else {
        (RaceState { total, launched: 1, pending: 1, finished: false }, RaceAction::Launch(0))
    }
}

/// Launches the next candidate.
pub open spec fn race_launch_next(s: RaceState) -> (RaceState, RaceAction) {
    (
        RaceState { launched: s.launched + 1, pending: s.pending + 1, ..s },
        RaceAction::Launch(s.launched as usize),
    )
}

/// One transition of the racer.
pub open spec fn race_step(s: RaceState, e: RaceEvent) -> (RaceState, RaceAction) {
    match e {
        RaceEvent::Connected(i) => (RaceState { finished: true, ..s }, RaceAction::Won(i)),
        RaceEvent::Failed(_) => {
            let pending = (s.pending - 1) as nat;
            if pending == 0 {
                if s.launched < s.total {
                    race_launch_next(RaceState { pending, ..s })
                } else {
                    (RaceState { pending, finished: true, ..s }, RaceAction::AllFailed)
                }
            } else {
                (RaceState { pending, ..s }, RaceAction::Wait { stagger: s.launched < s.total })
            }
        },
        RaceEvent::DelayElapsed => {
            if s.launched < s.total {
                race_launch_next(s)
            } else {
                (s, RaceAction::Wait { stagger: false })
            }
        },
    }
}

/// An event that the racer can be handed in state `s`: a report on an attempt
/// needs one still running.
pub open spec fn race_event_ok(s: RaceState, e: RaceEvent) -> bool {
    match e {
        RaceEvent::Connected(i) => s.pending > 0 && i < s.launched,
        RaceEvent::Failed(i) => s.pending > 0 && i < s.launched,
        RaceEvent::DelayElapsed => true,
    }
}

/// The state and the actions after a run of events from `s`.
pub open spec fn race_run(s: RaceState, events: Seq<RaceEvent>) -> (RaceState, Seq<RaceAction>)
    decreases events.len(),
{
    if events.len() == 0 {
        (s, Seq::empty())
    } else {
        let (s1, a) = race_step(s, events[0]);
        let (s2, rest) = race_run(s1, events.drop_first());
        (s2, seq![a] + rest)
    }
}

/// Decision core of racing connection attempts over candidate addresses.
pub struct Racer {
    total: usize,
    launched: usize,
    pending: usize,
    finished: bool,
}

impl View for Racer {
    type V = RaceState;

    closed spec fn view(&self) -> RaceState {
        RaceState {
            total: self.total as nat,
            launched: self.launched as nat,
            pending: self.pending as nat,
            finished: self.finished,
        }
    }
}

impl Racer {
    /// Starts a race over `total` candidates, tried in index order.
    pub fn start(total: usize) -> (r: (Racer, RaceAction))
        ensures
            (r.0@, r.1) == race_start(total as nat),
            race_state_wf(r.0@),
    {
        if total == 0 {
            (Racer { total, launched: 0, pending: 0, finished: true }, RaceAction::AllFailed)
        } else {
            (Racer { total, launched: 1, pending: 1, finished: false }, RaceAction::Launch(0))
        }
    }

    /// Whether the race is decided (won or lost).
    pub fn is_finished(&self) -> (r: bool)
        ensures
            r == self@.finished,
    {
        self.finished
    }

    /// Whether `e` can be handed to the racer now: the race is undecided and
    /// a report on an attempt names one that was launched, with one running.
    pub fn accepts(&self, e: &RaceEvent) -> (r: bool)
        ensures
            r == (!self@.finished && race_event_ok(self@, *e)),
    {
        if self.finished {
            return false;
        }
        match e {
            RaceEvent::Connected(i) => self.pending > 0 && *i < self.launched,
            RaceEvent::Failed(i) => self.pending > 0 && *i < self.launched,
            RaceEvent::DelayElapsed => true,
        }
    }

    /// Hands the racer one event and returns what to do next.
    pub fn step(&mut self, e: RaceEvent) -> (a: RaceAction)
        requires
            race_state_wf(old(self)@),
            !old(self)@.finished,
            race_event_ok(old(self)@, e),
        ensures
            race_state_wf(final(self)@),
            (final(self)@, a) == race_step(old(self)@, e),
    {
        match e {
            RaceEvent::Connected(i) => {
                self.finished = true;
                RaceAction::Won(i)
            },
            RaceEvent::Failed(_) => {
                self.pending = self.pending - 1;
                if self.pending == 0 {
                    if self.launched < self.total {
                        self.launch_next()
                    } else {
                        self.finished = true;
                        RaceAction::AllFailed
                    }
                } else {
                    RaceAction::Wait { stagger: self.launched < self.total }
                }
            },
            RaceEvent::DelayElapsed => {
                if self.launched < self.total {
                    self.launch_next()
                } else {
                    RaceAction::Wait { stagger: false }
                }
            },
        }
    }

    fn launch_next(&mut self) -> (a: RaceAction)
        requires
            old(self).launched < old(self).total,
            old(self).pending <= old(self).launched,
        ensures
            (final(self)@, a) == race_launch_next(old(self)@),
    {
        let i = self.launched;
        self.launched = self.launched + 1;
        self.pending = self.pending + 1;
        RaceAction::Launch(i)
    }
}

/// The events of a race in which the first `k` attempts never answer and the
/// attempt on candidate `k` connects: the stagger delay elapses `k` times,
/// then candidate `k` reports.
pub open spec fn slow_then_connected(k: nat) -> Seq<RaceEvent> {
    Seq::new(k, |j: int| RaceEvent::DelayElapsed).push(RaceEvent::Connected(k as usize))
}

proof fn lemma_delays(s: RaceState, j: nat, k: nat)
    requires
        s.launched == j + 1,
        s.pending == j + 1,
        !s.finished,
        j <= k < s.total,
        k < usize::MAX,
    ensures
        ({
            let (s2, actions) = race_run(s, Seq::new((k - j) as nat, |i: int| RaceEvent::DelayElapsed).push(RaceEvent::Connected(k as usize)));
            &&& s2.launched == k + 1
            &&& s2.finished
            &&& actions == Seq::new((k - j) as nat, |i: int| RaceAction::Launch((j + 1 + i) as usize)).push(RaceAction::Won(k as usize))
        }),
    decreases k - j,
{
    let events = Seq::new((k - j) as nat, |i: int| RaceEvent::DelayElapsed).push(RaceEvent::Connected(k as usize));
    if j == k {
        let (s1, a) = race_step(s, events[0]);
        assert(events.drop_first() =~= Seq::<RaceEvent>::empty());
        let (s2, rest) = race_run(s1, events.drop_first());
        assert(race_run(s, events).1 =~= seq![a] + rest);
        assert(race_run(s, events).1 =~= Seq::new((k - j) as nat, |i: int| RaceAction::Launch((j + 1 + i) as usize)).push(RaceAction::Won(k as usize)));
    } else {
        let (s1, a) = race_step(s, events[0]);
        assert(a == RaceAction::Launch((j + 1) as usize));
        let tail = Seq::new((k - (j + 1)) as nat, |i: int| RaceEvent::DelayElapsed).push(RaceEvent::Connected(k as usize));
        assert(events.drop_first() =~= tail);
        lemma_delays(s1, j + 1, k);
        let (s2, rest) = race_run(s1, tail);
        assert(race_run(s, events).1 =~= seq![a] + rest);
        assert(seq![a] + rest =~= Seq::new((k - j) as nat, |i: int| RaceAction::Launch((j + 1 + i) as usize)).push(RaceAction::Won(k as usize)));
    }
}

/// When the attempt on candidate `k` is the first to connect and the ones
/// before it never answer, the race is won by candidate `k`, the candidates
/// are launched in order `0..=k`, and none after `k` is ever launched.
pub proof fn lemma_first_success_wins(total: nat, k: nat)
    requires
        k < total,
        total < usize::MAX,
    ensures
        ({
            let (s0, first) = race_start(total);
            let (s, actions) = race_run(s0, slow_then_connected(k));
            &&& first == RaceAction::Launch(0)
            &&& s.finished
            &&& s.launched == k + 1
            &&& actions == Seq::new(k, |i: int| RaceAction::Launch((i + 1) as usize)).push(RaceAction::Won(k as usize))
        }),
{
    let (s0, first) = race_start(total);
    assert(slow_then_connected(k) =~= Seq::new((k - 0) as nat, |i: int| RaceEvent::DelayElapsed).push(RaceEvent::Connected(k as usize)));
    lemma_delays(s0, 0, k);
    assert(Seq::new((k - 0) as nat, |i: int| RaceAction::Launch((0 + 1 + i) as usize)) =~= Seq::new(k, |i: int| RaceAction::Launch((i + 1) as usize)));
}

} // verus!
