use vstd::prelude::*;

verus! {

/// How often and how long to wait between attempts. Durations are held as
/// their total number of nanoseconds; `max_attempts: None` retries forever.
pub struct RetryPolicy {
    pub max_attempts: Option<u32>,
    pub base_delay_nanos: u128,
    pub max_delay_nanos: u128,
}

/// Nanoseconds in a millisecond.
pub const NANOS_PER_MILLI: u128 = 1_000_000;

/// The base delay in whole milliseconds, as `Duration::as_millis() as u64`
/// reads it (rounded down, then cut to 64 bits).
pub open spec fn base_millis(base_nanos: u128) -> u64 {
    (base_nanos / NANOS_PER_MILLI) as u64
}

/// Two to the power `a`.
pub open spec fn exp2(a: nat) -> nat
    decreases a,
{
    if a == 0 { 1 } else { 2 * exp2((a - 1) as nat) }
}

/// `2u64.saturating_pow(a)`.
pub open spec fn pow2_saturating(a: nat) -> int {
    if exp2(a) > u64::MAX { u64::MAX as int } else { exp2(a) as int }
}

/// `x.saturating_mul(y)` on 64-bit values.
pub open spec fn mul_saturating(x: int, y: int) -> int {
    if x * y > u64::MAX { u64::MAX as int } else { x * y }
}

/// The delay in nanoseconds before retry `attempt`: the base delay in whole
/// milliseconds, doubled `attempt` times with both steps saturating at the
/// 64-bit limit, taken as a duration of that many milliseconds, then capped
/// at the (exact) maximum delay.
pub open spec fn delay_spec(base_nanos: u128, max_nanos: u128, attempt: nat) -> int {
    let d = mul_saturating(base_millis(base_nanos) as int, pow2_saturating(attempt)) * NANOS_PER_MILLI;
    if d <= max_nanos { d } else { max_nanos as int }
}

proof fn lemma_exp2_monotone(a: nat, b: nat)
    requires
        a <= b,
    ensures
        1 <= exp2(a) <= exp2(b),
    decreases b,
{
    if b > 0 && a < b {
        lemma_exp2_monotone(a, (b - 1) as nat);
    } else if b > 0 {
        lemma_exp2_monotone(0, (b - 1) as nat);
    }
}

fn pow2_sat(attempt: u32) -> (p: u64)
    ensures
        p == pow2_saturating(attempt as nat),
{
    let mut p: u64 = 1;
    let mut i: u32 = 0;
    while i < attempt
        invariant
            i <= attempt,
            p == exp2(i as nat),
        decreases attempt - i,
    {
        if p > u64::MAX / 2 {
            proof {
                lemma_exp2_monotone((i + 1) as nat, attempt as nat);
            }
            return u64::MAX;
        }
        p = p * 2;
        i = i + 1;
    }
    p
}

fn mul_sat(x: u64, y: u64) -> (r: u64)
    ensures
        r == mul_saturating(x as int, y as int),
{
    match x.checked_mul(y) {
        Some(v) => v,
        None => u64::MAX,
    }
}

impl RetryPolicy {
    /// The delay in nanoseconds before retry number `attempt` (from 0).
    pub fn delay_for_attempt(&self, attempt: u32) -> (nanos: u128)
        ensures
            nanos == delay_spec(self.base_delay_nanos, self.max_delay_nanos, attempt as nat),
    {
        let exp = pow2_sat(attempt);
        let base_ms = (self.base_delay_nanos / NANOS_PER_MILLI) as u64;
        let delay_ms = mul_sat(base_ms, exp);
        let delay = (delay_ms as u128) * NANOS_PER_MILLI;
        if delay <= self.max_delay_nanos {
            delay
        } else {
            self.max_delay_nanos
        }
    }

    /// Whether attempt number `attempt` (from 0) may still be made.
    pub fn should_retry(&self, attempt: u32) -> (r: bool)
        ensures
            r == match self.max_attempts {
                Some(max) => attempt < max,
                None => true,
            },
    {
        match self.max_attempts {
            Some(max) => attempt < max,
            None => true,
        }
    }
}

impl Default for RetryPolicy {
    /// Unlimited attempts, 1 s base delay, 60 s cap.
    fn default() -> (p: RetryPolicy)
        ensures
            p.max_attempts is None,
            p.base_delay_nanos == 1_000_000_000,
            p.max_delay_nanos == 60_000_000_000,
    {
        RetryPolicy { max_attempts: None, base_delay_nanos: 1_000_000_000, max_delay_nanos: 60_000_000_000 }
    }
}

/// Law: the delay never exceeds the cap.
pub proof fn lemma_delay_capped(base: u128, max: u128, attempt: nat)
    ensures
        delay_spec(base, max, attempt) <= max,
{
}

/// Law: later attempts never wait less than earlier ones.
pub proof fn lemma_delay_monotone(base: u128, max: u128, a: nat, b: nat)
    requires
        a <= b,
    ensures
        delay_spec(base, max, a) <= delay_spec(base, max, b),
{
    lemma_exp2_monotone(a, b);
    let pa = pow2_saturating(a);
    let pb = pow2_saturating(b);
    let m = base_millis(base) as int;
    assert(pa <= pb);
    assert(m * pa <= m * pb) by (nonlinear_arith)
        requires
            0 <= pa <= pb,
            m >= 0,
    ;
}

/// Law: if an attempt may be made, so may every earlier one.
pub proof fn lemma_retry_prefix_closed(max_attempts: Option<u32>, a: u32, b: u32)
    requires
        b <= a,
        match max_attempts {
            Some(max) => a < max,
            None => true,
        },
    ensures
        match max_attempts {
            Some(max) => b < max,
            None => true,
        },
{
}

} // verus!
