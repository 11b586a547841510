//! Spreads a number of events evenly over a number of steps.

use vstd::prelude::*;

verus! {

/// The number of events that are due after `k` of `steps` steps, where
/// `events` events are spread over all of them: `events * k / steps`,
/// rounded up. Without steps nothing is ever due.
pub open spec fn due_after(steps: int, events: int, k: int) -> int {
    if steps <= 0 {
        0
    } else {
        (events * k + steps - 1) / steps
    }
}

/// The number of events that fall to step `k + 1`.
pub open spec fn due_in_step(steps: int, events: int, k: int) -> int {
    due_after(steps, events, k + 1) - due_after(steps, events, k)
}

/// The sum of what falls to the first `k` steps.
pub open spec fn delivered(steps: int, events: int, k: int) -> int
    decreases k,
{
    if k <= 0 {
        0
    } else {
        delivered(steps, events, k - 1) + due_in_step(steps, events, k - 1)
    }
}

/// Nothing is due before the first step, and after the last step all
/// events are.
pub proof fn lemma_due_at_ends(steps: int, events: int)
    requires
        steps > 0,
        events >= 0,
    ensures
        due_after(steps, events, 0) == 0,
        due_after(steps, events, steps) == events,
{
    assert((steps - 1) / steps == 0) by (nonlinear_arith)
        requires
            steps > 0,
    ;
    assert((events * steps + steps - 1) / steps == events) by (nonlinear_arith)
        requires
            steps > 0,
            events >= 0,
    ;
}

/// No step takes a negative number of events, and none takes more than
/// the average rounded up.
pub proof fn lemma_due_in_step_bounds(steps: int, events: int, k: int)
    requires
        steps > 0,
        events >= 0,
        k >= 0,
    ensures
        0 <= due_in_step(steps, events, k) <= (events + steps - 1) / steps,
        0 <= due_after(steps, events, k),
        k <= steps ==> due_after(steps, events, k) <= events,
{
    let a = events * k + steps - 1;
    assert(events * (k + 1) + steps - 1 == a + events) by (nonlinear_arith)
        requires
            a == events * k + steps - 1,
    ;
    assert(a >= 0) by (nonlinear_arith)
        requires
            a == events * k + steps - 1,
            steps > 0,
            events >= 0,
            k >= 0,
    ;
    assert(0 <= a / steps <= (a + events) / steps) by (nonlinear_arith)
        requires
            steps > 0,
            events >= 0,
            a >= 0,
    ;
    assert((a + events) / steps <= a / steps + (events + steps - 1) / steps)
        by (nonlinear_arith)
        requires
            steps > 0,
            events >= 0,
            a >= 0,
    ;
    if k <= steps {
        assert((events * k + steps - 1) / steps <= events) by (nonlinear_arith)
            requires
                steps > 0,
                events >= 0,
                0 <= k <= steps,
        ;
    }
}

/// The steps up to step `k` deliver together what is due after `k` steps;
/// so a full round of `steps` steps delivers exactly `events` events.
pub proof fn lemma_delivered(steps: int, events: int, k: int)
    requires
        steps > 0,
        events >= 0,
        k >= 0,
    ensures
        delivered(steps, events, k) == due_after(steps, events, k),
        delivered(steps, events, steps) == events,
{
    lemma_due_at_ends(steps, events);
    lemma_delivered_is_due(steps, events, k);
    lemma_delivered_is_due(steps, events, steps);
}

/// The steps up to step `k` deliver together what is due after `k` steps.
proof fn lemma_delivered_is_due(steps: int, events: int, k: int)
    requires
        steps > 0,
        events >= 0,
        k >= 0,
    ensures
        delivered(steps, events, k) == due_after(steps, events, k),
    decreases k,
{
    lemma_due_at_ends(steps, events);
    if k > 0 {
        lemma_delivered_is_due(steps, events, k - 1);
    }
}

/// Paces `n` events over rounds of `m` steps.
pub struct EventRegulator {
    m: usize,
    n: usize,
    current_step: usize,
    events_generated: usize,
}

impl EventRegulator {
    /// The number of steps in a round.
    pub closed spec fn steps(&self) -> int {
        self.m as int
    }

    /// The number of events in a round.
    pub closed spec fn events(&self) -> int {
        self.n as int
    }

    /// The number of steps taken in the round that is under way.
    pub closed spec fn position(&self) -> int {
        self.current_step as int
    }

    /// The position lies inside the round, and the regulator has counted
    /// what was due up to it.
    pub closed spec fn wf(&self) -> bool {
        &&& self.m == 0 ==> self.current_step == 0
        &&& self.m > 0 ==> self.current_step < self.m
        &&& self.events_generated == due_after(
            self.m as int,
            self.n as int,
            self.current_step as int,
        )
    }

    /// A regulator for `n` events in each round of `m` steps, at the start
    /// of a round.
    pub fn new(m: usize, n: usize) -> (r: Self)
        ensures
            r.wf(),
            r.steps() == m,
            r.events() == n,
            r.position() == 0,
    {
        proof {
            if m > 0 {
                lemma_due_at_ends(m as int, n as int);
            }
        }
        EventRegulator { m, n, current_step: 0, events_generated: 0 }
    }

    /// The number of steps in a round.
    pub fn get_m(&self) -> (m: usize)
        ensures
            m == self.steps(),
    {
        self.m
    }

    /// The number of events in a round.
    pub fn get_n(&self) -> (n: usize)
        ensures
            n == self.events(),
    {
        self.n
    }

    /// Sets the regulator to `n` events in each round of `m` steps and
    /// starts a round.
    pub fn set_mn(&mut self, m: usize, n: usize)
        ensures
            final(self).wf(),
            final(self).steps() == m,
            final(self).events() == n,
            final(self).position() == 0,
    {
        proof {
            if m > 0 {
                lemma_due_at_ends(m as int, n as int);
            }
        }
        self.m = m;
        self.n = n;
        self.current_step = 0;
        self.events_generated = 0;
    }

    /// Takes one step and returns the number of events that fall to it.
    /// After the last step of a round the next round starts. A regulator
    /// without steps never has an event due.
    pub fn step(&mut self) -> (due: usize)
        requires
            old(self).wf(),
        ensures
            final(self).wf(),
            final(self).steps() == old(self).steps(),
            final(self).events() == old(self).events(),
            due == due_in_step(old(self).steps(), old(self).events(), old(self).position()),
            final(self).position() == if old(self).position() + 1 < old(self).steps() {
                old(self).position() + 1
            } else {
                0
            },
    {
        if self.m == 0 {
            return 0;
        }
        let ghost steps = self.m as int;
        let ghost events = self.n as int;
        let ghost k = self.current_step as int;
        proof {
            lemma_due_in_step_bounds(steps, events, k);
            lemma_due_in_step_bounds(steps, events, k + 1);
            lemma_due_at_ends(steps, events);
            assert(0 <= events * (k + 1) <= 0xffff_ffff_ffff_ffff * 0xffff_ffff_ffff_ffff)
                by (nonlinear_arith)
                requires
                    0 <= events <= 0xffff_ffff_ffff_ffff,
                    0 <= k + 1 <= 0xffff_ffff_ffff_ffff,
            ;
        }
        let next_step: usize = self.current_step + 1;
        let total: u128 = (self.n as u128 * next_step as u128 + (self.m as u128 - 1))
            / self.m as u128;
        let events_after: usize = total as usize;
        let due: usize = events_after - self.events_generated;
        if next_step == self.m {
            self.current_step = 0;
            self.events_generated = 0;
        } else {
            self.current_step = next_step;
            self.events_generated = events_after;
        }
        due
    }
}

} // verus!
