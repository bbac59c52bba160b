//! A budget of failed attempts over a rolling window of time.

use vstd::prelude::*;

verus! {

/// Failed attempts that are allowed within the window.
pub const DEFAULT_BUDGET: usize = 30;

/// Length of the window in seconds.
pub const DEFAULT_WINDOW_SECS: u64 = 60;

/// What the limiter says of an attempt.
#[derive(Debug)]
pub enum CheckResult {
    /// The attempt may go on.
    Allowed,
    /// Too many attempts have failed.
    RateLimited {
        /// Seconds to wait.
        retry_after_secs: u64,
    },
}

/// The times of the failed attempts, oldest first.
#[derive(Debug)]
pub struct RateLimiter {
    /// Failed attempts that are allowed within the window.
    pub budget: usize,
    /// Length of the window in seconds.
    pub window_secs: u64,
    /// Times of the failed attempts in seconds.
    pub failures: Vec<u64>,
}

/// Whether a failure at `t` still counts at `now`.
pub open spec fn counts(t: u64, now: u64, window: u64) -> bool {
    now - t < window
}

/// The failures that count at `now`, in their order.
pub open spec fn counted(failures: Seq<u64>, now: u64, window: u64) -> Seq<u64> {
    failures.filter(|t: u64| counts(t, now, window))
}

/// Seconds until the oldest of the failures that count leaves the window, and
/// one at least.
pub open spec fn wait_of(failures: Seq<u64>, now: u64, window: u64) -> int {
    if failures.len() == 0 {
        1
    } else {
        let left = failures[0] + window - now;
        if left < 1 {
            1
        } else if left > u64::MAX {
            u64::MAX as int
        } else {
            left
        }
    }
}

/// Whether an attempt is held back.
pub open spec fn held_back(failures: Seq<u64>, now: u64, budget: usize, window: u64) -> bool {
    counted(failures, now, window).len() >= budget
}

impl RateLimiter {
    /// A limiter with no failures.
    pub fn new(budget: usize, window_secs: u64) -> (r: RateLimiter)
        ensures
            r.budget == budget,
            r.window_secs == window_secs,
            r.failures@.len() == 0,
    {
        RateLimiter { budget, window_secs, failures: Vec::new() }
    }

    /// Says whether an attempt at `now` may go on. Failures that have left the
    /// window are forgotten.
    pub fn check(&mut self, now: u64) -> (r: CheckResult)
        ensures
            final(self).budget == old(self).budget,
            final(self).window_secs == old(self).window_secs,
            final(self).failures@ == counted(old(self).failures@, now, old(self).window_secs),
            match r {
                CheckResult::Allowed => !held_back(
                    old(self).failures@,
                    now,
                    old(self).budget,
                    old(self).window_secs,
                ),
                CheckResult::RateLimited { retry_after_secs } => {
                    &&& held_back(
                        old(self).failures@,
                        now,
                        old(self).budget,
                        old(self).window_secs,
                    )
                    &&& retry_after_secs == wait_of(
                        final(self).failures@,
                        now,
                        old(self).window_secs,
                    )
                },
            },
    {
        let mut kept: Vec<u64> = Vec::new();
        let mut i: usize = 0;
        proof {
            assert(self.failures@.take(0) =~= Seq::<u64>::empty());
            assert(kept@ =~= counted(self.failures@.take(0), now, self.window_secs)) by {
                reveal(Seq::filter);
            }
        }
        while i < self.failures.len()
            invariant
                i <= self.failures@.len(),
                *self == *old(self),
                kept@ == counted(self.failures@.take(i as int), now, self.window_secs),
            decreases self.failures@.len() - i,
        {
            let t: u64 = self.failures[i];
            if now < t || now - t < self.window_secs {
                kept.push(t);
            }
            proof {
                let s = self.failures@.take(i + 1);
                assert(s.drop_last() =~= self.failures@.take(i as int));
                reveal(Seq::filter);
            }
            i = i + 1;
        }
        proof {
            assert(self.failures@.take(self.failures@.len() as int) =~= self.failures@);
        }
        self.failures = kept;
        if self.failures.len() < self.budget {
            return CheckResult::Allowed;
        }
        if self.failures.len() == 0 {
            return CheckResult::RateLimited { retry_after_secs: 1 };
        }
        let t: u64 = self.failures[0];
        let left: u64 = if now < t {
            let ahead: u64 = t - now;
            if ahead > u64::MAX - self.window_secs {
                u64::MAX
            } else {
                ahead + self.window_secs
            }
        } else if now - t >= self.window_secs {
            1
        } else {
            self.window_secs - (now - t)
        };
        CheckResult::RateLimited {
            retry_after_secs: if left < 1 {
                1
            } else {
                left
            },
        }
    }

    /// Records a failed attempt.
    pub fn record_failure(&mut self, now: u64)
        ensures
            final(self).budget == old(self).budget,
            final(self).window_secs == old(self).window_secs,
            final(self).failures@ == old(self).failures@.push(now),
    {
        self.failures.push(now);
    }
}

impl Default for RateLimiter {
    fn default() -> (r: RateLimiter)
        ensures
            r.budget == DEFAULT_BUDGET,
            r.budget == 30,
            r.window_secs == DEFAULT_WINDOW_SECS,
            r.window_secs == 60,
            r.failures@.len() == 0,
    {
        RateLimiter::new(DEFAULT_BUDGET, DEFAULT_WINDOW_SECS)
    }
}

/// Failures that all lie within the window are all kept.
pub proof fn law_counted_as_is(failures: Seq<u64>, now: u64, window: u64)
    requires
        forall|i: int| 0 <= i < failures.len() ==> counts(#[trigger] failures[i], now, window),
    ensures
        counted(failures, now, window) == failures,
    decreases failures.len(),
{
    reveal(Seq::filter);
    if failures.len() > 0 {
        let init = failures.drop_last();
        assert forall|i: int| 0 <= i < init.len() implies counts(#[trigger] init[i], now, window) by {
            assert(init[i] == failures[i]);
        }
        law_counted_as_is(init, now, window);
        assert(counts(failures[failures.len() - 1], now, window));
        assert(init.push(failures.last()) =~= failures);
    } else {
        assert(counted(failures, now, window) =~= failures);
    }
}

/// Failures within the window use up the budget one by one: an attempt is
/// held back exactly when there are as many as the budget.
pub proof fn law_budget_is_used_up(failures: Seq<u64>, now: u64, budget: usize, window: u64)
    requires
        forall|i: int| 0 <= i < failures.len() ==> counts(#[trigger] failures[i], now, window),
    ensures
        held_back(failures, now, budget, window) <==> failures.len() >= budget,
{
    law_counted_as_is(failures, now, window);
}

proof fn lemma_none_counted(failures: Seq<u64>, now: u64, window: u64)
    requires
        forall|i: int| 0 <= i < failures.len() ==> !counts(#[trigger] failures[i], now, window),
    ensures
        counted(failures, now, window).len() == 0,
    decreases failures.len(),
{
    reveal(Seq::filter);
    if failures.len() > 0 {
        let init = failures.drop_last();
        assert forall|i: int| 0 <= i < init.len() implies !counts(
            #[trigger] init[i],
            now,
            window,
        ) by {
            assert(init[i] == failures[i]);
        }
        lemma_none_counted(init, now, window);
        assert(!counts(failures[failures.len() - 1], now, window));
    }
}

/// Once every failure has left the window the whole budget is there again.
pub proof fn law_window_passes(failures: Seq<u64>, now: u64, budget: usize, window: u64)
    requires
        budget > 0,
        forall|i: int| 0 <= i < failures.len() ==> now - (#[trigger] failures[i]) >= window,
    ensures
        !held_back(failures, now, budget, window),
{
    lemma_none_counted(failures, now, window);
}

/// A caller is never told to wait for less than a second.
pub proof fn law_wait_at_least_a_second(failures: Seq<u64>, now: u64, window: u64)
    ensures
        1 <= wait_of(failures, now, window) <= u64::MAX,
{
}

/// A failure counts until as many seconds have passed as the window is long,
/// and not from then on.
pub proof fn law_failures_age(t: u64, now: u64, window: u64)
    requires
        t <= now,
    ensures
        counts(t, now, window) <==> now < t + window,
{
}

/// The failures that count are those within the window, in their order: a
/// further one adds itself where it counts, and nothing else.
pub proof fn law_counted_one_by_one(failures: Seq<u64>, t: u64, now: u64, window: u64)
    ensures
        counted(Seq::empty(), now, window) == Seq::<u64>::empty(),
        now - t < window ==> counted(failures.push(t), now, window) == counted(
            failures,
            now,
            window,
        ).push(t),
        now - t >= window ==> counted(failures.push(t), now, window) == counted(
            failures,
            now,
            window,
        ),
{
    reveal(Seq::filter);
    assert(failures.push(t).drop_last() =~= failures);
}

/// The wait is as long as it takes and no longer: after it the oldest failure
/// no longer counts, and a second earlier it still does.
pub proof fn law_wait_is_enough(failures: Seq<u64>, now: u64, window: u64)
    requires
        failures.len() > 0,
        failures[0] <= now,
        counts(failures[0], now, window),
        failures[0] + window <= u64::MAX,
    ensures
        !counts(
            failures[0],
            (now + wait_of(failures, now, window)) as u64,
            window,
        ),
        counts(
            failures[0],
            (now + wait_of(failures, now, window) - 1) as u64,
            window,
        ),
{
}

/// An attempt is held back exactly where as many failures count as the budget
/// admits.
pub proof fn law_held_back(failures: Seq<u64>, now: u64, budget: usize, window: u64)
    ensures
        held_back(failures, now, budget, window) <==> failures.filter(
            |t: u64| now - t < window,
        ).len() >= budget,
{
    assert(failures.filter(|t: u64| now - t < window) =~= counted(failures, now, window)) by {
        lemma_same_filter(failures, now, window);
    }
}

proof fn lemma_same_filter(failures: Seq<u64>, now: u64, window: u64)
    ensures
        failures.filter(|t: u64| now - t < window) == counted(failures, now, window),
    decreases failures.len(),
{
    reveal(Seq::filter);
    if failures.len() > 0 {
        lemma_same_filter(failures.drop_last(), now, window);
    }
}

} // verus!
