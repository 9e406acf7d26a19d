//! Exponential backoff between failed connection attempts.

use vstd::arithmetic::power::pow;
use vstd::prelude::*;

verus! {

/// Mathematical state of a retry schedule. Delays are in milliseconds.
pub struct BackoffView {
    pub current_delay: nat,
    pub min_delay: nat,
    pub max_delay: nat,
    pub multiplier: nat,
}

impl BackoffView {
    /// The delay never leaves `[min_delay, max_delay]`, and a failure never
    /// shrinks it.
    pub open spec fn wf(self) -> bool {
        &&& self.min_delay <= self.current_delay <= self.max_delay
        &&& self.multiplier >= 1
    }

    /// The schedule in its initial state for the given bounds.
    pub open spec fn initial(min_delay: nat, max_delay: nat, multiplier: nat) -> BackoffView {
        BackoffView { current_delay: min_delay, min_delay, max_delay, multiplier }
    }

    /// The schedule after one more failure: the delay is multiplied and capped.
    pub open spec fn after_failure(self) -> BackoffView {
        let grown = self.current_delay * self.multiplier;
        BackoffView {
            current_delay: if grown <= self.max_delay { grown } else { self.max_delay },
            ..self
        }
    }

    /// The schedule after a success: the delay is back at its minimum.
    pub open spec fn after_reset(self) -> BackoffView {
        BackoffView { current_delay: self.min_delay, ..self }
    }

    /// The schedule after `n` failures in a row.
    pub open spec fn after_failures(self, n: nat) -> BackoffView
        decreases n,
    {
        if n == 0 {
            self
        } else {
            self.after_failures((n - 1) as nat).after_failure()
        }
    }
}

/// The smaller of two delays.
pub open spec fn capped(delay: int, max_delay: int) -> int {
    if delay <= max_delay {
        delay
    } else {
        max_delay
    }
}

/// One failure keeps the schedule well formed, changes nothing but the
/// current delay, and never shortens it.
pub proof fn lemma_failure_never_shrinks(b: BackoffView)
    requires
        b.wf(),
    ensures
        b.after_failure().wf(),
        b.current_delay <= b.after_failure().current_delay <= b.max_delay,
        b.after_failure().after_reset() == b.after_reset(),
{
    assert(b.current_delay * b.multiplier >= b.current_delay) by (nonlinear_arith)
        requires
            b.multiplier >= 1,
    ;
}

/// One failure strictly lengthens a delay that is positive and still below
/// the cap, provided the multiplier is at least two.
pub proof fn lemma_failure_grows_below_cap(b: BackoffView)
    requires
        b.wf(),
        b.multiplier >= 2,
        0 < b.current_delay < b.max_delay,
    ensures
        b.current_delay < b.after_failure().current_delay,
{
    assert(b.current_delay * b.multiplier > b.current_delay) by (nonlinear_arith)
        requires
            b.multiplier >= 2,
            b.current_delay > 0,
    ;
}

/// Between resets the delay is monotone: after any number of failures the
/// schedule is well formed, keeps its bounds and multiplier, and a longer
/// run of failures never gives a shorter delay.
pub proof fn lemma_failures_monotone(b: BackoffView, i: nat, j: nat)
    requires
        b.wf(),
        i <= j,
    ensures
        b.after_failures(j).wf(),
        b.after_failures(j).after_reset() == b.after_reset(),
        b.after_failures(i).current_delay <= b.after_failures(j).current_delay <= b.max_delay,
    decreases j,
{
    if j > 0 {
        let before = b.after_failures((j - 1) as nat);
        if i < j {
            lemma_failures_monotone(b, i, (j - 1) as nat);
        } else {
            lemma_failures_monotone(b, (j - 1) as nat, (j - 1) as nat);
        }
        lemma_failure_never_shrinks(before);
    }
}

/// The growth curve in closed form: after `n` failures the delay is the
/// starting delay times `multiplier` to the `n`, capped at `max_delay`.
pub proof fn lemma_delay_after_failures(b: BackoffView, n: nat)
    requires
        b.wf(),
    ensures
        b.after_failures(n).current_delay == capped(
            b.current_delay * pow(b.multiplier as int, n),
            b.max_delay as int,
        ),
    decreases n,
{
    let c = b.current_delay as int;
    let m = b.multiplier as int;
    let cap = b.max_delay as int;
    if n == 0 {
        assert(pow(m, 0) == 1) by {
            reveal(pow);
        }
        assert(c * 1 == c);
    } else {
        let k = (n - 1) as nat;
        lemma_delay_after_failures(b, k);
        lemma_failures_monotone(b, k, k);
        let p = pow(m, k);
        assert(pow(m, n) == m * p) by {
            reveal(pow);
        }
        assert(c * (m * p) == (c * p) * m) by (nonlinear_arith);
        if c * p > cap {
            assert((c * p) * m >= c * p) by (nonlinear_arith)
                requires
                    m >= 1,
                    c * p >= 0,
            ;
            assert(cap * m >= cap) by (nonlinear_arith)
                requires
                    m >= 1,
                    cap >= 0,
            ;
        }
    }
}

/// Any run of failures followed by one success: the delay grows from
/// failure to failure, strictly so while it is below `max_delay`, never
/// passes `max_delay`, and is back at `min_delay` after the success.
///
/// Strict growth needs a multiplier of at least two and a positive starting
/// delay: with a multiplier of one, or from a delay of zero, every failure
/// leaves the delay where it was.
pub proof fn lemma_delay_grows_until_success(b: BackoffView, n: nat)
    requires
        b.wf(),
        b.multiplier >= 2,
        b.current_delay > 0,
    ensures
        forall|k: nat|
            k < n ==> {
                let before = #[trigger] b.after_failures(k).current_delay;
                let after = b.after_failures(k + 1).current_delay;
                &&& before <= after <= b.max_delay
                &&& before < b.max_delay ==> before < after
            },
        b.after_failures(n).after_reset().current_delay == b.min_delay,
        b.after_failures(n).after_reset() == b.after_reset(),
{
    assert forall|k: nat| k < n implies {
        let before = #[trigger] b.after_failures(k).current_delay;
        let after = b.after_failures(k + 1).current_delay;
        &&& before <= after <= b.max_delay
        &&& before < b.max_delay ==> before < after
    } by {
        lemma_failures_monotone(b, 0, k);
        lemma_failures_monotone(b, k, k + 1);
        let at_k = b.after_failures(k);
        assert(b.after_failures(k + 1) == at_k.after_failure());
        if at_k.current_delay < b.max_delay {
            lemma_failure_grows_below_cap(at_k);
        }
    }
    lemma_failures_monotone(b, n, n);
}

/// Retry delays of one supervisor: starts at `min_delay`, grows by
/// `multiplier` on every failure up to `max_delay`, and returns to
/// `min_delay` on success.
#[derive(Clone, Copy, Debug, PartialEq, Eq)]
pub struct Backoff {
    current_delay: u64,
    min_delay: u64,
    max_delay: u64,
    multiplier: u64,
}

impl View for Backoff {
    type V = BackoffView;

    closed spec fn view(&self) -> BackoffView {
        BackoffView {
            current_delay: self.current_delay as nat,
            min_delay: self.min_delay as nat,
            max_delay: self.max_delay as nat,
            multiplier: self.multiplier as nat,
        }
    }
}

impl Backoff {
    /// Holds of every schedule that exists: it is well formed, and its
    /// delays fit a machine word.
    #[verifier::type_invariant]
    pub open spec fn inv(self) -> bool {
        &&& self@.wf()
        &&& self@.max_delay <= u64::MAX
    }

    /// A schedule for the given bounds, or `None` where no delay could stay
    /// within them: `min_delay` above `max_delay`, or a multiplier of zero.
    pub fn new(min_delay: u64, max_delay: u64, multiplier: u64) -> (made: Option<Backoff>)
        ensures
            made is Some <==> min_delay <= max_delay && multiplier >= 1,
            made matches Some(b) ==> b@ == BackoffView::initial(
                min_delay as nat,
                max_delay as nat,
                multiplier as nat,
            ),
    {
        if min_delay <= max_delay && multiplier >= 1 {
            Some(Backoff { current_delay: min_delay, min_delay, max_delay, multiplier })
        } else {
            None
        }
    }

    /// Records a failure: returns the delay to wait before the next attempt
    /// and advances the schedule.
    pub fn snooze(&mut self) -> (delay: u64)
        ensures
            delay == old(self)@.current_delay,
            final(self)@ == old(self)@.after_failure(),
        no_unwind
    {
        proof {
            use_type_invariant(&*self);
        }
        let delay: u64 = self.current_delay;
        assert(delay * self.multiplier >= delay) by (nonlinear_arith)
            requires
                self.multiplier >= 1,
        ;
        assert(delay * self.multiplier <= u64::MAX * u64::MAX) by (nonlinear_arith)
            requires
                delay <= u64::MAX,
                self.multiplier <= u64::MAX,
        ;
        let grown: u128 = delay as u128 * self.multiplier as u128;
        let next: u64 = if grown <= self.max_delay as u128 {
            grown as u64
        } else {
            self.max_delay
        };
        self.current_delay = next;
        delay
    }

    /// Records a success: the next failure waits `min_delay` again.
    pub fn reset(&mut self)
        ensures
            final(self)@ == old(self)@.after_reset(),
        no_unwind
    {
        proof {
            use_type_invariant(&*self);
        }
        self.current_delay = self.min_delay;
    }

    /// The delay that the next failure waits, in milliseconds.
    pub fn current_delay(&self) -> (delay: u64)
        ensures
            delay == self@.current_delay,
    {
        self.current_delay
    }

    /// The delay after a success, in milliseconds.
    pub fn min_delay(&self) -> (delay: u64)
        ensures
            delay == self@.min_delay,
    {
        self.min_delay
    }

    /// The longest delay, in milliseconds.
    pub fn max_delay(&self) -> (delay: u64)
        ensures
            delay == self@.max_delay,
    {
        self.max_delay
    }

    /// The factor by which a failure lengthens the delay.
    pub fn multiplier(&self) -> (factor: u64)
        ensures
            factor == self@.multiplier,
    {
        self.multiplier
    }
}

/// Delay after a success of the default schedule, in milliseconds.
pub const DEFAULT_MIN_DELAY_MS: u64 = 50;

/// Longest delay of the default schedule, in milliseconds.
pub const DEFAULT_MAX_DELAY_MS: u64 = 1600;

/// Growth factor of the default schedule.
pub const DEFAULT_MULTIPLIER: u64 = 2;

impl Default for Backoff {
    /// The default schedule: 50 ms, doubling up to 1600 ms.
    fn default() -> (made: Backoff)
        ensures
            made@ == BackoffView::initial(
                DEFAULT_MIN_DELAY_MS as nat,
                DEFAULT_MAX_DELAY_MS as nat,
                DEFAULT_MULTIPLIER as nat,
            ),
    {
        Backoff {
            current_delay: DEFAULT_MIN_DELAY_MS,
            min_delay: DEFAULT_MIN_DELAY_MS,
            max_delay: DEFAULT_MAX_DELAY_MS,
            multiplier: DEFAULT_MULTIPLIER,
        }
    }
}

} // verus!
