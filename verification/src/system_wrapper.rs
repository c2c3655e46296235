//! The descriptor of one periodic system.

use vstd::prelude::*;

verus! {

/// A system together with its schedule.
///
/// `system` is the unit of work, `update_rate` the interval between two runs
/// and `priority` the moment of the next run. Both times are in microseconds;
/// `priority` counts from the start of the run. A smaller `priority` is due
/// earlier.
pub struct SystemWrapper<A> {
    pub system: A,
    pub update_rate: u128,
    pub priority: u128,
}

impl<A> SystemWrapper<A> {
    /// Whether the due time after the next one still fits the counter.
    pub open spec fn can_advance(self) -> bool {
        self.priority + self.update_rate <= u128::MAX
    }

    /// The descriptor after one run: the due time moves on by exactly one
    /// interval, whatever the moment at which the run took place.
    pub open spec fn advanced(self) -> Self {
        SystemWrapper {
            system: self.system,
            update_rate: self.update_rate,
            priority: (self.priority + self.update_rate) as u128,
        }
    }

    /// The descriptor after `n` runs.
    pub open spec fn advanced_by(self, n: nat) -> Self
        decreases n,
    {
        if n == 0 {
            self
        } else {
            self.advanced_by((n - 1) as nat).advanced()
        }
    }

    /// How many runs of this descriptor, the next one counted first, are due
    /// no later than `horizon` microseconds after the start.
    pub open spec fn runs_due_by(self, horizon: nat) -> nat
        recommends
            self.update_rate > 0,
    {
        if horizon < self.priority {
            0
        } else {
            ((horizon - self.priority) / (self.update_rate as int) + 1) as nat
        }
    }

    /// A descriptor that is first due one full interval after the start.
    pub fn new(system: A, update_rate: u128) -> (wrapper: Self)
        ensures
            wrapper.system == system,
            wrapper.update_rate == update_rate,
            wrapper.priority == update_rate,
    {
        SystemWrapper { system, update_rate, priority: update_rate }
    }

    /// The due time that follows the current one, or `None` where it would
    /// not fit the counter.
    pub fn next_due(&self) -> (due: Option<u128>)
        ensures
            due.is_some() == self.can_advance(),
            due matches Some(t) ==> t == self.priority + self.update_rate,
    {
        self.priority.checked_add(self.update_rate)
    }

    /// Moves the due time on by one interval.
    pub fn advance(&mut self)
        requires
            old(self).can_advance(),
        ensures
            *final(self) == old(self).advanced(),
    {
        self.priority = self.priority + self.update_rate;
    }
}

impl<A> SystemWrapper<A> {
    /// The schedule is additive and does not drift: after `n` runs the due
    /// time is the first due time plus `n` intervals, exactly, and neither the
    /// system nor the interval has changed. No moment of dispatch enters
    /// into it.
    pub proof fn lemma_nth_due_time(self, n: nat)
        requires
            self.priority + n * self.update_rate <= u128::MAX,
        ensures
            self.advanced_by(n).priority == self.priority + n * self.update_rate,
            self.advanced_by(n).update_rate == self.update_rate,
            self.advanced_by(n).system == self.system,
        decreases n,
    {
        if n > 0 {
            let before = (n - 1) as nat;
            assert(n * self.update_rate == before * self.update_rate + self.update_rate)
                by (nonlinear_arith)
                requires
                    before == n - 1,
            ;
            assert(before * self.update_rate >= 0) by (nonlinear_arith);
            self.lemma_nth_due_time(before);
            assert(self.advanced_by(n) == self.advanced_by(before).advanced());
        } else {
            assert(n * self.update_rate == 0) by (nonlinear_arith)
                requires
                    n == 0,
            ;
        }
    }

    /// The due time never moves back from one run to the next.
    pub proof fn lemma_due_time_never_decreases(self, n: nat)
        requires
            self.priority + (n + 1) * self.update_rate <= u128::MAX,
        ensures
            self.advanced_by(n).priority <= self.advanced_by(n + 1).priority,
    {
        assert((n + 1) * self.update_rate == n * self.update_rate + self.update_rate)
            by (nonlinear_arith);
        assert(n * self.update_rate >= 0) by (nonlinear_arith);
        self.lemma_nth_due_time(n);
        self.lemma_nth_due_time(n + 1);
    }

    /// Each system keeps its own cadence: the run after `n` earlier ones is
    /// due within `horizon` exactly when `n` is less than
    /// [`runs_due_by`](Self::runs_due_by), whatever else is scheduled.
    pub proof fn lemma_runs_within_horizon(self, horizon: nat, n: nat)
        requires
            self.update_rate > 0,
        ensures
            self.priority + n * self.update_rate <= horizon <==> n < self.runs_due_by(horizon),
    {
        let rate = self.update_rate as int;
        assert(n * rate >= 0) by (nonlinear_arith)
            requires
                rate > 0,
        ;
        if horizon >= self.priority {
            let span = horizon - self.priority;
            let whole = span / rate;
            vstd::arithmetic::div_mod::lemma_fundamental_div_mod(span, rate);
            vstd::arithmetic::div_mod::lemma_mod_bound(span, rate);
            assert(whole >= 0) by (nonlinear_arith)
                requires
                    span == rate * whole + span % rate,
                    0 <= span % rate < rate,
                    span >= 0,
                    rate > 0,
            ;
            if n <= whole {
                assert(n * rate <= rate * whole) by (nonlinear_arith)
                    requires
                        n <= whole,
                        rate > 0,
                ;
            } else {
                assert(n * rate >= rate * whole + rate) by (nonlinear_arith)
                    requires
                        n >= whole + 1,
                        rate > 0,
                ;
            }
        }
    }

    /// A system that starts with one interval of grace is due, within
    /// `horizon`, as often as its interval fits into `horizon`.
    pub proof fn lemma_runs_of_fresh_descriptor(self, horizon: nat)
        requires
            self.update_rate > 0,
            self.priority == self.update_rate,
        ensures
            self.runs_due_by(horizon) == horizon / (self.update_rate as nat),
    {
        let rate = self.update_rate as int;
        if horizon < rate {
            vstd::arithmetic::div_mod::lemma_basic_div(horizon as int, rate);
        } else {
            vstd::arithmetic::div_mod::lemma_div_plus_one(horizon - rate, rate);
            assert(rate + (horizon - rate) == horizon);
        }
    }
}

} // verus!
