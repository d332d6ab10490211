//! Screen change detection: the pacing of the polls of the accessibility
//! tree, which back off after errors and slow down on slow polls.
//!
//! Durations are held in nanoseconds; the largest is that of
//! `std::time::Duration::MAX`.

use vstd::prelude::*;

verus! {

/// Nanoseconds in `std::time::Duration::MAX`.
pub const DURATION_MAX_NANOS: u128 = 18_446_744_073_709_551_615_999_999_999u128;

/// The longest pause between polls: 30 seconds, in nanoseconds.
pub const MAX_PAUSE_NANOS: u128 = 30_000_000_000u128;

/// Configuration for the screen watcher.
#[derive(Debug, Clone)]
pub struct WatcherConfig {
    /// Polling interval in milliseconds (default: 1000).
    pub interval_ms: u64,
}

impl Default for WatcherConfig {
    fn default() -> (r: Self)
        ensures
            r.interval_ms == 1000,
    {
        WatcherConfig { interval_ms: 1000 }
    }
}

/// The lesser of two numbers.
pub open spec fn min_nat(a: nat, b: nat) -> nat {
    if a <= b {
        a
    } else {
        b
    }
}

/// The pause before the next poll: the interval doubled once per
/// consecutive error, capped at 30 seconds.
pub open spec fn backoff(base_nanos: nat, errors: u32) -> nat {
    min_nat(base_nanos * vstd::arithmetic::power2::pow2(errors as nat), MAX_PAUSE_NANOS as nat)
}

/// Doubling a number `k` more times never makes it smaller.
proof fn lemma_doubling_grows(base: nat, i: nat, n: nat)
    requires
        i <= n,
    ensures
        base * vstd::arithmetic::power2::pow2(i) <= base * vstd::arithmetic::power2::pow2(n),
{
    let d = (n - i) as nat;
    vstd::arithmetic::power2::lemma_pow2_adds(i, d);
    vstd::arithmetic::power2::lemma_pow2_pos(d);
    vstd::arithmetic::power2::lemma_pow2_pos(i);
    let a = vstd::arithmetic::power2::pow2(i);
    let c = vstd::arithmetic::power2::pow2(d);
    assert(base * a <= base * (a * c)) by (nonlinear_arith)
        requires
            c >= 1,
            a >= 1,
    ;
}

/// One more doubling.
proof fn lemma_pow2_step(base: nat, i: nat)
    ensures
        base * vstd::arithmetic::power2::pow2(i + 1) == 2 * (base * vstd::arithmetic::power2::pow2(
            i,
        )),
{
    vstd::arithmetic::power2::lemma_pow2_adds(i, 1);
    vstd::arithmetic::power2::lemma2_to64();
    let a = vstd::arithmetic::power2::pow2(i);
    assert(base * (a * 2) == 2 * (base * a)) by (nonlinear_arith);
}

/// Screen watcher that detects UI changes by polling the accessibility tree.
pub struct ScreenWatcher;

impl ScreenWatcher {
    /// The pause before the next poll, given the interval and the number of
    /// consecutive errors: doubled with each error and capped at 30 seconds.
    pub fn backoff_interval(base_nanos: u128, consecutive_errors: u32) -> (r: u128)
        requires
            base_nanos <= DURATION_MAX_NANOS,
        ensures
            r == backoff(base_nanos as nat, consecutive_errors),
    {
        if base_nanos == 0 {
            assert(0 * vstd::arithmetic::power2::pow2(consecutive_errors as nat) == 0) by (
            nonlinear_arith);
            return 0;
        }
        proof {
            vstd::arithmetic::power2::lemma2_to64();
        }
        let mut p: u128 = base_nanos;
        let mut i: u32 = 0;
        while i < consecutive_errors && p < MAX_PAUSE_NANOS
            invariant
                i <= consecutive_errors,
                p == base_nanos * vstd::arithmetic::power2::pow2(i as nat),
                p <= DURATION_MAX_NANOS,
            decreases consecutive_errors - i,
        {
            proof {
                lemma_pow2_step(base_nanos as nat, i as nat);
            }
            p = p * 2;
            i = i + 1;
        }
        proof {
            lemma_doubling_grows(base_nanos as nat, i as nat, consecutive_errors as nat);
        }
        if p <= MAX_PAUSE_NANOS {
            p
        } else {
            MAX_PAUSE_NANOS
        }
    }
}

/// No pause between polls is ever longer than 30 seconds.
pub proof fn lemma_backoff_capped(base_nanos: nat, errors: u32)
    ensures
        backoff(base_nanos, errors) <= MAX_PAUSE_NANOS,
{
}

/// With no error the pause is the interval itself (at most 30 seconds), and
/// each further error doubles it, up to 30 seconds.
pub proof fn lemma_backoff_doubles(base_nanos: nat, errors: u32)
    requires
        errors < u32::MAX,
    ensures
        backoff(base_nanos, 0) == min_nat(base_nanos, MAX_PAUSE_NANOS as nat),
        backoff(base_nanos, (errors + 1) as u32) == min_nat(
            2 * backoff(base_nanos, errors),
            MAX_PAUSE_NANOS as nat,
        ),
{
    vstd::arithmetic::power2::lemma2_to64();
    assert(base_nanos * 1 == base_nanos);
    lemma_pow2_step(base_nanos, errors as nat);
}

/// More consecutive errors never shorten the pause.
pub proof fn lemma_backoff_monotonic(base_nanos: nat, fewer: u32, more: u32)
    requires
        fewer <= more,
    ensures
        backoff(base_nanos, fewer) <= backoff(base_nanos, more),
{
    lemma_doubling_grows(base_nanos, fewer as nat, more as nat);
}

/// The pacing state of a running watcher.
#[derive(Debug, Clone, Copy)]
pub struct WatcherState {
    /// The configured interval.
    pub base_nanos: u128,
    /// The interval adapted to the duration of the last poll.
    pub adaptive_nanos: u128,
    /// Consecutive failed polls.
    pub consecutive_errors: u32,
}

impl WatcherState {
    /// The state before the first poll, for an interval in milliseconds.
    pub fn new(interval_ms: u64) -> (r: Self)
        ensures
            r.base_nanos == interval_ms * 1_000_000,
            r.adaptive_nanos == r.base_nanos,
            r.consecutive_errors == 0,
            r.wf(),
    {
        let base = (interval_ms as u128) * 1_000_000;
        WatcherState { base_nanos: base, adaptive_nanos: base, consecutive_errors: 0 }
    }

    /// The durations are within range.
    pub open spec fn wf(&self) -> bool {
        self.base_nanos <= DURATION_MAX_NANOS && self.adaptive_nanos <= DURATION_MAX_NANOS
    }

    /// The pause before the next poll.
    pub fn next_pause(&self) -> (r: u128)
        requires
            self.wf(),
        ensures
            r == backoff(self.adaptive_nanos as nat, self.consecutive_errors),
    {
        ScreenWatcher::backoff_interval(self.adaptive_nanos, self.consecutive_errors)
    }

    /// Records a finished poll that took `elapsed_nanos`: a poll slower than
    /// the interval sets the adapted interval to twice its duration (at most
    /// 30 seconds), a quick one restores the configured interval; a success
    /// clears the error count, a failure adds one to it (saturating).
    pub fn after_poll(&mut self, ok: bool, elapsed_nanos: u128)
        requires
            old(self).wf(),
            elapsed_nanos * 2 <= DURATION_MAX_NANOS,
        ensures
            final(self).wf(),
            final(self).base_nanos == old(self).base_nanos,
            final(self).adaptive_nanos == if elapsed_nanos > old(self).base_nanos {
                min_nat((elapsed_nanos * 2) as nat, MAX_PAUSE_NANOS as nat)
            } else {
                old(self).base_nanos as nat
            },
            final(self).consecutive_errors == if ok {
                0
            } else if old(self).consecutive_errors == u32::MAX {
                u32::MAX
            } else {
                (old(self).consecutive_errors + 1) as u32
            },
    {
        if elapsed_nanos > self.base_nanos {
            let doubled = elapsed_nanos * 2;
            self.adaptive_nanos = if doubled <= MAX_PAUSE_NANOS {
                doubled
            } else {
                MAX_PAUSE_NANOS
            };
        } else {
            self.adaptive_nanos = self.base_nanos;
        }
        if ok {
            self.consecutive_errors = 0;
        } else if self.consecutive_errors < u32::MAX {
            self.consecutive_errors = self.consecutive_errors + 1;
        }
    }
}

} // verus!
